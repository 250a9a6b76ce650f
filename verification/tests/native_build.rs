use lpm::build::builder::{build_source, BuildSource, RustBuilder};
use lpm::build::prebuilt::PrebuiltBinaryManager;
use lpm::build::sandbox::BuildSandbox;
use lpm::build::targets::Target;
use lpm::cache::Cache;
use lpm::lua_version::LuaVersion;
use lpm::manifest::{BuildConfig, PackageManifest};
use lpm::strmap::StringMap;
use lpm::LpmError;

fn rust_config(features: Vec<String>, profile: Option<String>) -> BuildConfig {
    BuildConfig {
        build_type: "rust".to_string(),
        manifest: Some("Cargo.toml".to_string()),
        modules: StringMap::new(),
        features,
        profile,
    }
}

#[test]
fn test_rust_builder_new() {
    let mut manifest = PackageManifest::default("test".to_string());
    manifest.build = Some(rust_config(vec![], None));
    let builder = RustBuilder::new("/tmp/lpm-builder-test", &manifest);
    assert!(builder.is_ok());
}

#[test]
fn test_rust_builder_no_build_config() {
    let manifest = PackageManifest::default("test".to_string());
    let builder = RustBuilder::new("/tmp/lpm-builder-test", &manifest);
    assert!(builder.is_err());
}

#[test]
fn builder_refuses_other_build_types() {
    let mut manifest = PackageManifest::default("test".to_string());
    let mut cfg = rust_config(vec![], None);
    cfg.build_type = "cmake".to_string();
    manifest.build = Some(cfg);
    match RustBuilder::new("/p", &manifest) {
        Err(LpmError::Package(m)) => assert_eq!(m, "Build type 'cmake' is not supported. Only 'rust' is supported"),
        _ => panic!("expected a package error"),
    }
    match RustBuilder::new("/p", &PackageManifest::default("t".to_string())) {
        Err(LpmError::Package(m)) => assert_eq!(m, "No build configuration found in package.yaml"),
        _ => panic!("expected a package error"),
    }
}

#[test]
fn cargo_arguments_native_and_cross() {
    let mut manifest = PackageManifest::default("test".to_string());
    manifest.build = Some(rust_config(vec!["vendored".to_string()], None));
    let b = RustBuilder::new("/p", &manifest).unwrap();
    let host = Target::new("x86_64-unknown-linux-gnu").unwrap();
    let native = b.cargo_args(&host, &host, "lua54");
    assert_eq!(native, vec!["build", "--release", "--features", "vendored,lua54"]);
    let arm = Target::new("aarch64-apple-darwin").unwrap();
    let cross = b.cargo_args(&arm, &host, "lua54");
    assert_eq!(cross, vec!["zigbuild", "--target", "aarch64-apple-darwin", "--release", "--features", "vendored,lua54"]);
    assert_eq!(RustBuilder::release_dir_for(&arm, &host), "target/aarch64-apple-darwin/release");
    assert_eq!(RustBuilder::release_dir_for(&host, &host), "target/release");
    assert_eq!(b.cargo_manifest_path(), "/p/Cargo.toml");

    let mut manifest2 = PackageManifest::default("test".to_string());
    manifest2.build = Some(rust_config(vec!["lua53".to_string()], Some("dist".to_string())));
    let b2 = RustBuilder::new("/p", &manifest2).unwrap();
    assert_eq!(b2.cargo_args(&arm, &host, "lua53"), vec!["zigbuild", "--target", "aarch64-apple-darwin", "--", "--profile", "dist", "--features", "lua53"]);
}

#[test]
fn built_library_missing_is_an_error() {
    let mut manifest = PackageManifest::default("test".to_string());
    let mut cfg = rust_config(vec![], None);
    cfg.modules.insert("mymod".to_string(), "nonexistent/libmymod.so".to_string());
    manifest.build = Some(cfg);
    let b = RustBuilder::new("/nonexistent-lpm-project", &manifest).unwrap();
    let host = Target::new("x86_64-unknown-linux-gnu").unwrap();
    assert!(b.find_built_library(&host, &host).is_err());
}

#[test]
fn manifest_binary_urls_by_series_and_target() {
    let mut manifest = PackageManifest::default("test".to_string());
    manifest.binary_urls.insert("5.4-x86_64-unknown-linux-gnu".to_string(), "https://x/bin.so".to_string());
    let t = Target::new("x86_64-unknown-linux-gnu").unwrap();
    assert_eq!(RustBuilder::manifest_binary_url(&manifest, "5.4", &t), Some("https://x/bin.so".to_string()));
    assert_eq!(RustBuilder::manifest_binary_url(&manifest, "5.1", &t), None);
}

#[test]
fn test_prebuilt_manager() {
    let cache = Cache::new("/nonexistent-lpm-cache".to_string());
    let manager = PrebuiltBinaryManager::new(cache);
    let lua_version = LuaVersion::new(5, 4, 0);
    let target = Target::default_target("linux", "x86_64");
    assert!(!manager.has_prebuilt("test-package", "1.0.0", &lua_version, &target));
    assert!(manager.get_prebuilt("test-package", "1.0.0", &lua_version, &target).is_none());
}

#[test]
fn binary_url_lookup() {
    let mut urls = StringMap::new();
    urls.insert("5.4-x86_64-unknown-linux-gnu".to_string(), "https://cdn/x.so".to_string());
    let t = Target::new("x86_64-unknown-linux-gnu").unwrap();
    assert_eq!(
        PrebuiltBinaryManager::find_binary_url(&urls, &t, &LuaVersion::new(5, 4, 8)),
        Some("https://cdn/x.so".to_string())
    );
    assert_eq!(PrebuiltBinaryManager::find_binary_url(&urls, &t, &LuaVersion::new(5, 3, 6)), None);
}

#[test]
fn sandbox_cargo_home_is_inside_the_project() {
    assert_eq!(BuildSandbox::cargo_home("/work/proj"), "/work/proj/.cargo");
    assert_eq!(BuildSandbox::cargo_home("/work/proj/"), "/work/proj/.cargo");
}

#[test]
fn sandbox_env_puts_cargo_home_last() {
    let env = BuildSandbox::cargo_env("/p", &[("RUSTFLAGS", "-O"), ("CARGO_HOME", "/home/u/.cargo")]);
    let expected: Vec<(String, String)> = vec![
        ("RUSTFLAGS".to_string(), "-O".to_string()),
        ("CARGO_HOME".to_string(), "/home/u/.cargo".to_string()),
        ("CARGO_HOME".to_string(), "/p/.cargo".to_string()),
        ("CARGO_NET_OFFLINE".to_string(), "false".to_string()),
    ];
    assert_eq!(env, expected);
}

#[test]
fn sandbox_failure_messages() {
    let msg = |code: Option<i32>| match BuildSandbox::cargo_failure(code) {
        LpmError::Package(m) => m,
        _ => panic!("expected a package error"),
    };
    assert_eq!(msg(Some(101)), "Cargo build failed with exit code: 101");
    assert_eq!(msg(None), "Cargo build failed with exit code: 1");
    assert_eq!(msg(Some(-3)), "Cargo build failed with exit code: -3");
    assert_eq!(msg(Some(0)), "Cargo build failed with exit code: 0");
}

#[test]
fn built_library_is_the_first_present_candidate() {
    let mut manifest = PackageManifest::default("test".to_string());
    let mut cfg = rust_config(vec![], None);
    cfg.modules.insert("mymod".to_string(), "out/mymod.so".to_string());
    manifest.build = Some(cfg);
    let b = RustBuilder::new("/p", &manifest).unwrap();
    let host = Target::new("x86_64-unknown-linux-gnu").unwrap();
    assert_eq!(
        b.library_candidate_paths(&host, &host),
        vec!["/p/out/mymod.so", "/p/target/release/out/mymod.so", "/p/target/release/libmymod.so"]
    );
    assert_eq!(b.built_library_from(&host, &host, &vec![false, true]).unwrap(), "/p/target/release/out/mymod.so");
    assert_eq!(b.built_library_from(&host, &host, &vec![false, false, true]).unwrap(), "/p/target/release/libmymod.so");
    assert_eq!(b.built_library_from(&host, &host, &vec![true, true, true]).unwrap(), "/p/out/mymod.so");
    assert!(b.built_library_from(&host, &host, &vec![false, false, false]).is_err());
    assert!(b.built_library_from(&host, &host, &vec![]).is_err());
}

#[test]
fn build_source_tries_prebuilt_cached_download_then_compile() {
    let s = |x: &str| Some(x.to_string());
    assert!(matches!(build_source(s("p"), s("c"), s("u")), BuildSource::Prebuilt(p) if p == "p"));
    assert!(matches!(build_source(None, s("c"), s("u")), BuildSource::Cached(c) if c == "c"));
    assert!(matches!(build_source(None, None, s("u")), BuildSource::Download(u) if u == "u"));
    assert!(matches!(build_source(None, None, None), BuildSource::Compile));
}
