use lpm::config::{default_luarocks_manifest_url, default_true, Config};

#[test]
fn test_config_default() {
    let config = Config::default();
    assert_eq!(
        config.luarocks_manifest_url,
        "https://luarocks.org/manifests/luarocks/manifest"
    );
    assert!(config.verify_checksums);
    assert!(config.show_diffs_on_update);
}

#[test]
fn config_defaults_leave_sources_unset() {
    let config = Config::default();
    assert!(config.cache_dir.is_none());
    assert!(config.lua_binary_source_url.is_none());
    assert!(config.lua_binary_sources.is_none());
    assert!(default_true());
    assert_eq!(default_luarocks_manifest_url(), "https://luarocks.org/manifests/luarocks/manifest");
}

#[test]
fn configured_cache_dir_wins() {
    let mut config = Config::default();
    config.cache_dir = Some("/var/cache/lpm-test".to_string());
    assert_eq!(config.get_cache_dir().unwrap(), "/var/cache/lpm-test");
}
