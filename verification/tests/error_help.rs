use lpm::{format_error_with_help, ErrorHelp, LpmError};

#[test]
fn test_error_help_package_not_found() {
    let error = LpmError::Package("package.yaml not found in /path".to_string());
    assert!(error.help().is_some());
    assert!(error.help().unwrap().contains("lpm init"));
}

#[test]
fn test_error_help_version_invalid() {
    let error = LpmError::Version("Invalid version format: xyz".to_string());
    assert!(error.help().is_some());
    assert!(error.help().unwrap().contains("SemVer"));
}

#[test]
fn errors_without_help_have_none() {
    let error = LpmError::Package("something else".to_string());
    assert!(error.help().is_none());
    assert_eq!(format_error_with_help(&error), format!("❌ Error: {}", error.to_string()));
    let helped = LpmError::Package("lua_modules directory not found".to_string());
    assert_eq!(
        format_error_with_help(&helped),
        format!("❌ Error: {}\n\n{}", helped.to_string(), helped.help().unwrap())
    );
}
