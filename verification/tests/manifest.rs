use lpm::manifest::{default_lua_version, PackageManifest};
use lpm::LpmError;

#[test]
fn default_manifest_fields() {
    let m = PackageManifest::default("test-package".to_string());
    assert_eq!(m.name, "test-package");
    assert_eq!(m.version, "1.0.0");
    assert_eq!(m.lua_version, "5.4");
    assert_eq!(default_lua_version(), "5.4");
    assert!(m.dependencies.is_empty());
    assert!(m.build.is_none());
    assert!(m.validate().is_ok());
}

fn package_error(m: &PackageManifest) -> String {
    match m.validate() {
        Err(LpmError::Package(s)) => s,
        _ => panic!("expected a package error"),
    }
}

#[test]
fn validation_names_first_problem() {
    let mut m = PackageManifest::default(String::new());
    m.version = String::new();
    assert_eq!(package_error(&m), "Package name cannot be empty");
    m.name = "x".to_string();
    assert_eq!(package_error(&m), "Package version cannot be empty");
    m.version = "1.0.0".to_string();
    m.lua_version = String::new();
    assert_eq!(package_error(&m), "lua_version cannot be empty");
    m.lua_version = "5.4".to_string();
    m.dependencies.insert("luasocket".to_string(), String::new());
    assert_eq!(package_error(&m), "Dependency 'luasocket' version cannot be empty");
    let mut d = PackageManifest::default("y".to_string());
    d.dev_dependencies.insert(String::new(), "1.0".to_string());
    assert_eq!(package_error(&d), "Dev dependency name cannot be empty");
    let mut e = PackageManifest::default("y".to_string());
    e.dev_dependencies.insert("busted".to_string(), String::new());
    assert_eq!(package_error(&e), "Dev dependency 'busted' version cannot be empty");
}

#[test]
fn all_dependencies_prefers_regular_entries() {
    let mut m = PackageManifest::default("p".to_string());
    m.dependencies.insert("a".to_string(), "1.0".to_string());
    m.dependencies.insert("b".to_string(), "2.0".to_string());
    m.dev_dependencies.insert("b".to_string(), "9.9".to_string());
    m.dev_dependencies.insert("c".to_string(), "3.0".to_string());
    let all = m.all_dependencies();
    assert_eq!(all.len(), 3);
    assert_eq!(all.get("a"), Some(&"1.0".to_string()));
    assert_eq!(all.get("b"), Some(&"2.0".to_string()));
    assert_eq!(all.get("c"), Some(&"3.0".to_string()));
    assert_eq!(all.key_at(2), "c");
    assert!(m.is_dev_dependency("c"));
    assert!(!m.is_dev_dependency("a"));
    assert_eq!(m.production_dependencies().len(), 2);
}
