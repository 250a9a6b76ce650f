use lpm::commands::{ConfigSubcommand, PluginCommands, PluginSubcommand};
use lpm::plugins::{PluginInfo, PluginInstaller, PluginMetadata, PluginRegistry, RegistryEntry};
use lpm::LpmError;

#[test]
fn plugin_paths_and_defaults() {
    assert_eq!(PluginMetadata::metadata_path_in("/h", "fmt"), "/h/plugins/fmt.yaml");
    assert_eq!(PluginInstaller::plugin_path("/h", "fmt"), "/h/bin/lpm-fmt");
    let m = PluginMetadata::unknown("fmt");
    assert_eq!(m.version, "unknown");
    let info = PluginInfo { metadata: m.clone(), executable_path: "/h/bin/lpm-fmt".to_string(), installed_version: None };
    assert_eq!(info.current_version(), "unknown");
    let info2 = PluginInfo { metadata: m, executable_path: String::new(), installed_version: Some("1.2.0".to_string()) };
    assert_eq!(info2.current_version(), "1.2.0");
}

#[test]
fn crates_become_plugins_by_prefix() {
    let e = PluginRegistry::entry_from_crate("lpm-fmt", Some("formatter".to_string()), None, "0.3.1").unwrap();
    assert_eq!(e.name, "fmt");
    assert_eq!(e.versions, vec!["0.3.1"]);
    assert!(PluginRegistry::entry_from_crate("serde", None, None, "1.0.0").is_none());
    assert_eq!(PluginRegistry::repo_patterns("fmt"), vec!["lpm-org/lpm-fmt", "fmt/lpm-fmt"]);
}

#[test]
fn release_entries() {
    let assets = vec![
        ("checksums.txt".to_string(), "https://x/sums".to_string()),
        ("LPM-FMT-Linux".to_string(), "https://x/linux".to_string()),
        ("lpm-fmt.exe".to_string(), "https://x/exe".to_string()),
    ];
    let e = PluginRegistry::entry_from_release("lpm-org/lpm-fmt", "fmt", "vv1.0.0", Some("notes".to_string()), &assets);
    assert_eq!(e.version, "v1.0.0");
    assert_eq!(e.versions, vec!["1.0.0"]);
    assert_eq!(e.homepage, Some("https://github.com/lpm-org/lpm-fmt".to_string()));
    assert_eq!(e.download_url, Some("https://x/linux".to_string()));
    let none = PluginRegistry::entry_from_release("r", "p", "2.0", None, &vec![("readme".to_string(), "u".to_string())]);
    assert_eq!(none.version, "2.0");
    assert!(none.download_url.is_none());
}

#[test]
fn installer_decisions() {
    let entry = RegistryEntry {
        name: "fmt".to_string(),
        version: "2.0.0".to_string(),
        description: None,
        author: None,
        homepage: None,
        download_url: None,
        versions: vec![],
    };
    assert_eq!(PluginInstaller::target_version(None, &entry), "2.0.0");
    assert_eq!(PluginInstaller::target_version(Some("1.0.0"), &entry), "1.0.0");
    match PluginInstaller::download_url(&entry, "fmt") {
        Err(LpmError::Package(m)) => assert_eq!(m, "No download URL available for plugin 'fmt'"),
        _ => panic!("expected a package error"),
    }
    assert!(PluginInstaller::needs_update("1.0.0", "2.0.0"));
    assert!(!PluginInstaller::needs_update("2.0.0", "2.0.0"));
    let md = PluginInstaller::installed_metadata("fmt", "2.0.0", &entry);
    assert_eq!(md.version, "2.0.0");
    let cmd = PluginCommands { command: PluginSubcommand::Config { command: ConfigSubcommand::Show { plugin: "fmt".to_string() } } };
    assert!(matches!(cmd.command, PluginSubcommand::Config { .. }));
}
