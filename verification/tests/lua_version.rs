use lpm::lua_version::{parse_lua_version_constraint, LuaVersion, LuaVersionConstraint, LuaVersionDetector, PackageCompatibility};
use lpm::LpmError;

#[test]
fn test_parse_version() {
    let v = LuaVersion::parse("Lua 5.4.6").unwrap();
    assert_eq!(v.major, 5);
    assert_eq!(v.minor, 4);
    assert_eq!(v.patch, 6);
    assert!(v.is_5_4());
}

#[test]
fn test_parse_version_5_3() {
    let v = LuaVersion::parse("Lua 5.3.6").unwrap();
    assert_eq!(v.major, 5);
    assert_eq!(v.minor, 3);
    assert_eq!(v.patch, 6);
    assert!(v.is_5_3());
}

#[test]
fn test_parse_version_5_1() {
    let v = LuaVersion::parse("Lua 5.1.5").unwrap();
    assert_eq!(v.major, 5);
    assert_eq!(v.minor, 1);
    assert_eq!(v.patch, 5);
    assert!(v.is_5_1());
}

#[test]
fn test_parse_version_without_lua_prefix() {
    let v = LuaVersion::parse("5.4.6").unwrap();
    assert_eq!(v.major, 5);
    assert_eq!(v.minor, 4);
    assert_eq!(v.patch, 6);
}

#[test]
fn test_mlua_feature() {
    assert_eq!(LuaVersion::new(5, 1, 0).mlua_feature(), "lua51");
    assert_eq!(LuaVersion::new(5, 3, 0).mlua_feature(), "lua53");
    assert_eq!(LuaVersion::new(5, 4, 0).mlua_feature(), "lua54");
}

#[test]
fn test_unsupported_version() {
    assert!(LuaVersion::parse("Lua 5.2.4").is_err());
    assert!(LuaVersion::parse("Lua 6.0.0").is_err());
}

#[test]
fn lua_version_text_forms() {
    let v = LuaVersion::new(5, 4, 6);
    assert_eq!(v.version_string(), "5.4.6");
    assert_eq!(v.major_minor(), "5.4");
    assert_eq!(v.to_string(), "5.4.6");
    let back = LuaVersion::parse(&v.version_string()).unwrap();
    assert_eq!(back, v);
}

#[test]
fn lua_version_errors() {
    match LuaVersion::parse("Lua x.4") {
        Err(LpmError::Version(m)) => assert_eq!(m, "Invalid major version: 'x'"),
        _ => panic!("expected a version error"),
    }
    match LuaVersion::parse("Lua 5.2.4") {
        Err(LpmError::Version(m)) => {
            assert_eq!(m, "Unsupported Lua version: 5.2.4. LPM supports Lua 5.1, 5.3, and 5.4")
        }
        _ => panic!("expected a version error"),
    }
}

#[test]
fn detector_reads_first_line() {
    let v = LuaVersionDetector::from_output("Lua 5.3.6  Copyright (C) 1994-2020 Lua.org, PUC-Rio\nmore\n");
    assert_eq!(v.unwrap(), LuaVersion::new(5, 3, 6));
    let v = LuaVersionDetector::from_output("Lua 5.3.6\nCopyright\n").unwrap();
    assert_eq!(v, LuaVersion::new(5, 3, 6));
}

#[test]
fn test_parse_exact() {
    let constraint = parse_lua_version_constraint("5.4").unwrap();
    assert!(matches!(constraint, LuaVersionConstraint::Exact(_)));
    let version = LuaVersion::new(5, 4, 0);
    assert!(constraint.matches(&version));
}

#[test]
fn test_parse_greater_or_equal() {
    let constraint = parse_lua_version_constraint(">=5.1").unwrap();
    assert!(matches!(constraint, LuaVersionConstraint::GreaterOrEqual(_)));
    assert!(constraint.matches(&LuaVersion::new(5, 1, 0)));
    assert!(constraint.matches(&LuaVersion::new(5, 3, 0)));
    assert!(constraint.matches(&LuaVersion::new(5, 4, 0)));
}

#[test]
fn test_parse_less_than() {
    let constraint = parse_lua_version_constraint("<5.3").unwrap();
    assert!(matches!(constraint, LuaVersionConstraint::LessThan(_)));
    assert!(constraint.matches(&LuaVersion::new(5, 1, 0)));
    assert!(!constraint.matches(&LuaVersion::new(5, 3, 0)));
    assert!(!constraint.matches(&LuaVersion::new(5, 4, 0)));
}

#[test]
fn test_parse_multiple() {
    let constraint = parse_lua_version_constraint("5.1 || 5.3 || 5.4").unwrap();
    assert!(matches!(constraint, LuaVersionConstraint::Multiple(_)));
    assert!(constraint.matches(&LuaVersion::new(5, 1, 0)));
    assert!(constraint.matches(&LuaVersion::new(5, 3, 0)));
    assert!(constraint.matches(&LuaVersion::new(5, 4, 0)));
    assert!(!constraint.matches(&LuaVersion::new(5, 2, 0)));
}

#[test]
fn constraint_at_most_and_above() {
    let at_most = parse_lua_version_constraint("<=5.3").unwrap();
    assert!(at_most.matches(&LuaVersion::new(5, 3, 6)));
    assert!(!at_most.matches(&LuaVersion::new(5, 4, 0)));
    let above = parse_lua_version_constraint(">5.3").unwrap();
    assert!(above.matches(&LuaVersion::new(5, 3, 9)));
    assert!(above.matches(&LuaVersion::new(5, 4, 0)));
    assert!(!above.matches(&LuaVersion::new(5, 1, 0)));
}

#[test]
fn test_check_package_exact() {
    let installed = LuaVersion::new(5, 4, 0);
    assert!(PackageCompatibility::check_package(&installed, Some("5.4")).unwrap());
    assert!(!PackageCompatibility::check_package(&installed, Some("5.3")).unwrap());
}

#[test]
fn test_check_package_range() {
    let installed = LuaVersion::new(5, 4, 0);
    assert!(PackageCompatibility::check_package(&installed, Some(">=5.1")).unwrap());
    assert!(!PackageCompatibility::check_package(&installed, Some("<5.3")).unwrap());
}

#[test]
fn test_check_package_multiple() {
    let installed = LuaVersion::new(5, 3, 0);
    assert!(PackageCompatibility::check_package(&installed, Some("5.1 || 5.3 || 5.4")).unwrap());
}

#[test]
fn package_without_constraint_is_compatible() {
    let installed = LuaVersion::new(5, 1, 5);
    assert!(PackageCompatibility::check_package(&installed, None).unwrap());
    let pkgs = vec![
        ("a".to_string(), Some("5.1".to_string())),
        ("b".to_string(), Some("5.4".to_string())),
        ("c".to_string(), None),
        ("d".to_string(), Some("bogus".to_string())),
    ];
    assert_eq!(PackageCompatibility::filter_compatible_packages(&installed, &pkgs), vec!["a", "c"]);
}

#[test]
fn project_constraint_error_message() {
    let installed = LuaVersion::new(5, 1, 5);
    match PackageCompatibility::validate_project_constraint(&installed, ">=5.3") {
        Err(LpmError::Version(m)) => {
            assert_eq!(m, "Installed Lua version 5.1.5 does not satisfy project requirement '>=5.3'")
        }
        _ => panic!("expected a version error"),
    }
    assert!(PackageCompatibility::validate_project_constraint(&installed, "5.1").is_ok());
}

#[test]
fn parse_reads_the_patch_before_the_copyright_notice() {
    let v = LuaVersion::parse("Lua 5.4.6  Copyright (C) 1994-2023 Lua.org, PUC-Rio").unwrap();
    assert_eq!(v, LuaVersion::new(5, 4, 6));
    let w = LuaVersion::parse("Lua 5.1.5  Copyright (C) 1994-2012 Lua.org, PUC-Rio").unwrap();
    assert_eq!(w, LuaVersion::new(5, 1, 5));
    assert_eq!(LuaVersion::parse("5.3.x").unwrap(), LuaVersion::new(5, 3, 0));
}
