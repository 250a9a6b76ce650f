use lpm::config::Config;
use lpm::lua_manager::downloader::LuaDownloader;
use lpm::lua_manager::switcher::VersionSwitcher;
use lpm::lua_manager::wrappers::WrapperGenerator;
use lpm::strmap::StringMap;
use lpm::LpmError;

fn downloader() -> LuaDownloader {
    LuaDownloader::new("/tmp/lpm-test-cache".to_string(), &Config::default())
}

#[test]
fn test_lua_downloader_list_available_versions() {
    let downloader = downloader();
    let versions = downloader.list_available_versions();
    assert!(versions.contains(&"5.1.5".to_string()));
    assert!(versions.contains(&"5.3.6".to_string()));
    assert!(versions.contains(&"5.4.8".to_string()));
}

#[test]
fn test_lua_downloader_resolve_version() {
    let downloader = downloader();
    assert_eq!(downloader.resolve_version("latest"), "5.4.8");
    assert_eq!(downloader.resolve_version("5.1"), "5.1.5");
    assert_eq!(downloader.resolve_version("5.3"), "5.3.6");
    assert_eq!(downloader.resolve_version("5.4"), "5.4.8");
    assert_eq!(downloader.resolve_version("5.4.8"), "5.4.8");
}

#[test]
fn test_lua_downloader_is_known_version() {
    let downloader = downloader();
    assert!(downloader.is_known_version("5.1.5"));
    assert!(downloader.is_known_version("5.3.6"));
    assert!(downloader.is_known_version("5.4.8"));
    assert!(!downloader.is_known_version("5.5.0"));
}

#[test]
fn test_lua_downloader_get_source_url() {
    let downloader = downloader();
    let url = downloader.get_source_url("5.4.8");
    assert!(!url.is_empty());
}

#[test]
fn downloader_prefers_version_source() {
    let mut config = Config::default();
    let mut sources = StringMap::new();
    sources.insert("5.4.8".to_string(), "https://mirror.example/lua".to_string());
    config.lua_binary_sources = Some(sources);
    let d = LuaDownloader::new("/tmp/c".to_string(), &config);
    assert_eq!(d.get_source_url("5.4.8"), "https://mirror.example/lua");
    assert_eq!(d.get_source_url("5.1.5"), "https://github.com/dyne/luabinaries/releases/latest/download");
    assert_eq!(d.binary_url("5.4.8", "lua54"), "https://mirror.example/lua/lua54");
    assert_eq!(d.destination("lua54"), "/tmp/c/lua54");
    match LuaDownloader::unavailable_error("5.5.0", "https://x") {
        LpmError::Package(m) => assert_eq!(
            m,
            "Lua 5.5.0 is not available for this platform from source: https://x\nAvailable versions: 5.1.5, 5.3.6, 5.4.8\nYou can set a version-specific source with: lpm config set lua_binary_sources.5.5.0 <url>"
        ),
        _ => panic!("expected a package error"),
    }
}

#[test]
fn test_version_switcher_new() {
    let switcher = VersionSwitcher::new("/tmp/lpm-home");
    assert_eq!(switcher.versions_dir, "/tmp/lpm-home/versions");
    assert_eq!(switcher.current_file, "/tmp/lpm-home/current");
}

#[test]
fn test_version_switcher_current_not_set() {
    let result = VersionSwitcher::current_from(None);
    assert!(result.is_err());
}

#[test]
fn switcher_reads_current_version() {
    assert_eq!(VersionSwitcher::current_from(Some("5.4.8\n")).unwrap(), "5.4.8");
    match VersionSwitcher::current_from(Some("  \n")) {
        Err(LpmError::Package(m)) => assert_eq!(m, "Current version file is empty.\nRun: lpm lua use <version>"),
        _ => panic!("expected a package error"),
    }
    assert_eq!(VersionSwitcher::version_file_content("5.4.8"), "5.4.8\n");
}

#[test]
fn switcher_messages_and_paths() {
    let s = VersionSwitcher::new("/h");
    assert_eq!(s.lua_binary("5.4.8"), "/h/versions/5.4.8/bin/lua");
    let installed = vec!["5.1.5".to_string(), "5.3.6".to_string()];
    match VersionSwitcher::not_installed_error("5.4.8", &installed) {
        LpmError::Package(m) => assert_eq!(
            m,
            "Lua 5.4.8 is not installed.\nInstalled versions: 5.1.5, 5.3.6\nRun: lpm lua install 5.4.8"
        ),
        _ => panic!("expected a package error"),
    }
    assert!(VersionSwitcher::verify_switch("5.4.8", "5.4.8").is_ok());
    assert!(VersionSwitcher::verify_switch("5.4.8", "5.3.6").is_err());
}

#[test]
fn installed_versions_are_sorted() {
    let names = vec!["5.4.8".to_string(), "5.1.5".to_string(), "5.3.6".to_string(), "5.10.0".to_string()];
    assert_eq!(VersionSwitcher::sorted_versions(names), vec!["5.1.5", "5.10.0", "5.3.6", "5.4.8"]);
}

#[test]
fn wrapper_generator_paths_and_source() {
    let g = WrapperGenerator::new("/h");
    assert_eq!(g.bin_dir, "/h/bin");
    let src = g.wrapper_source_code("luac");
    assert!(src.starts_with("fn main() {"));
    assert!(src.contains("version_dir.join(\"bin\").join(\"luac\")"));
    assert!(src.contains(".join(version).join(\"bin\").join(\"luac\")"));
    assert!(src.contains("format!(\"{}/.lpm\", home)"));
    assert_eq!(g.source_path("lua"), "/h/bin/lua_wrapper.rs");
    assert_eq!(WrapperGenerator::output_name("lua", "windows"), "lua.exe");
    assert_eq!(WrapperGenerator::output_name("lua", "linux"), "lua");
    let lines = g.setup_instructions("linux");
    assert_eq!(lines[5], "  export PATH=\"/h/bin$PATH\"");
}

#[test]
fn resolving_twice_changes_nothing() {
    let d = downloader();
    for v in ["latest", "5.1", "5.3", "5.4", "5.4.8", "6.0"] {
        let once = d.resolve_version(v);
        assert_eq!(d.resolve_version(&once), once);
    }
    for alias in ["latest", "5.1", "5.3", "5.4"] {
        assert!(d.is_known_version(&d.resolve_version(alias)));
    }
}

#[test]
fn uninstall_checks() {
    assert!(VersionSwitcher::check_uninstall("5.1.5", true, Some("5.4.8")).is_ok());
    match VersionSwitcher::check_uninstall("5.4.8", true, Some("5.4.8")) {
        Err(LpmError::Package(m)) => assert_eq!(
            m,
            "Cannot uninstall Lua 5.4.8 because it is currently active.\nSwitch to another version first: lpm lua use <version>"
        ),
        _ => panic!("expected a package error"),
    }
    match VersionSwitcher::check_uninstall("5.2.0", false, None) {
        Err(LpmError::Package(m)) => assert_eq!(m, "Lua 5.2.0 is not installed."),
        _ => panic!("expected a package error"),
    }
}

#[test]
fn current_version_needs_its_directory() {
    assert_eq!(VersionSwitcher::installed_current("5.4.8".to_string(), true).unwrap(), "5.4.8");
    match VersionSwitcher::installed_current("5.4.8".to_string(), false) {
        Err(LpmError::Package(m)) => assert_eq!(m, "Current version 5.4.8 is no longer installed.\nRun: lpm lua use <version>"),
        other => panic!("unexpected {:?}", other),
    }
    let v = VersionSwitcher::current_from(Some("5.4.8\n")).unwrap();
    assert_eq!(VersionSwitcher::installed_current(v, true).unwrap(), "5.4.8");
}
