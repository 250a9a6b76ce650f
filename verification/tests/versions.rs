use lpm::version::{parse_constraint, Version, VersionConstraint};
use lpm::LpmError;

#[test]
fn test_version_parse() {
    let v = Version::parse("1.2.3").unwrap();
    assert_eq!(v.major, 1);
    assert_eq!(v.minor, 2);
    assert_eq!(v.patch, 3);
}

#[test]
fn test_version_parse_luarocks() {
    let v = Version::parse("3.0-1").unwrap();
    assert_eq!(v.major, 3);
    assert_eq!(v.minor, 0);
    assert_eq!(v.patch, 1);
}

#[test]
fn test_version_satisfies_exact() {
    let v = Version::parse("1.2.3").unwrap();
    let constraint = VersionConstraint::Exact(Version::parse("1.2.3").unwrap());
    assert!(v.satisfies(&constraint));
}

#[test]
fn test_version_satisfies_compatible() {
    let v1 = Version::parse("1.2.3").unwrap();
    let v2 = Version::parse("1.3.0").unwrap();
    let v3 = Version::parse("2.0.0").unwrap();

    let constraint = VersionConstraint::Compatible(Version::parse("1.2.0").unwrap());
    assert!(v1.satisfies(&constraint));
    assert!(v2.satisfies(&constraint));
    assert!(!v3.satisfies(&constraint));
}

#[test]
fn test_parse_constraint() {
    assert!(matches!(parse_constraint("^1.2.3").unwrap(), VersionConstraint::Compatible(_)));
    assert!(matches!(parse_constraint("~1.2.3").unwrap(), VersionConstraint::Patch(_)));
    assert!(matches!(parse_constraint(">=1.2.3").unwrap(), VersionConstraint::GreaterOrEqual(_)));
    assert!(matches!(parse_constraint("1.2.3").unwrap(), VersionConstraint::Exact(_)));
}

#[test]
fn version_errors_and_defaults() {
    match Version::parse("7") {
        Err(LpmError::Version(m)) => assert_eq!(m, "Invalid version format: 7"),
        _ => panic!("expected a version error"),
    }
    match Version::parse("x.1") {
        Err(LpmError::Version(m)) => assert_eq!(m, "Invalid major version: x.1"),
        _ => panic!("expected a version error"),
    }
    assert_eq!(Version::parse("2.x").unwrap(), Version::new(2, 0, 0));
    assert_eq!(Version::new(1, 2, 3).to_string(), "1.2.3");
}

#[test]
fn patch_and_any_patch_ranges() {
    let patch = parse_constraint("~1.2.3").unwrap();
    assert!(Version::new(1, 2, 9).satisfies(&patch));
    assert!(!Version::new(1, 3, 0).satisfies(&patch));
    assert!(!Version::new(1, 2, 2).satisfies(&patch));
    let any = parse_constraint("1.2.x").unwrap();
    assert!(Version::new(1, 2, 0).satisfies(&any));
    assert!(!Version::new(1, 3, 0).satisfies(&any));
    let below = parse_constraint("<2.0.0").unwrap();
    assert!(Version::new(1, 9, 9).satisfies(&below));
    assert!(!Version::new(2, 0, 0).satisfies(&below));
}
