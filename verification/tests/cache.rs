use lpm::cache::{Cache, CacheCleanResult};

#[test]
fn cache_directories() {
    let c = Cache::new("/c".to_string());
    assert_eq!(c.root(), "/c");
    assert_eq!(c.luarocks_dir(), "/c/luarocks");
    assert_eq!(c.rockspecs_dir(), "/c/luarocks/rockspecs");
    assert_eq!(c.sources_dir(), "/c/luarocks/sources");
    assert_eq!(c.rust_builds_dir(), "/c/rust-builds");
    assert_eq!(c.rockspec_path("luasocket", "3.0-1"), "/c/luarocks/rockspecs/luasocket-3.0-1.rockspec");
}

#[test]
fn source_path_uses_url_hash_and_extension() {
    let c = Cache::new("/c".to_string());
    assert_eq!(Cache::url_hash("https://example.com/foo-1.0.tar.gz"), "f347202436f541f84179c935f49c9cfe");
    assert_eq!(
        c.source_path("https://example.com/foo-1.0.tar.gz"),
        "/c/luarocks/sources/f347202436f541f84179c935f49c9cfe.gz"
    );
    let no_ext = c.source_path("https://example.com/archive");
    assert!(no_ext.ends_with(".tar.gz"));
    assert_eq!(no_ext.len(), "/c/luarocks/sources/".len() + 32 + ".tar.gz".len());
}

#[test]
fn checksum_of_content() {
    assert_eq!(
        Cache::checksum_of(b"test data"),
        "sha256:916f0027a575074ce72a331777c3478d6513f786a591bd892da1a577bf2335f9"
    );
    assert_eq!(
        Cache::checksum_of(b""),
        "sha256:e3b0c44298fc1c149afbf4c8996fb92427ae41e4649b934ca495991b7852b855"
    );
}

#[test]
fn rust_build_paths() {
    let c = Cache::new("/c".to_string());
    assert_eq!(
        c.rust_build_path("my-mod", "1.0.0", "5.4", "x86_64-unknown-linux-gnu"),
        "/c/rust-builds/my-mod/1.0.0/5.4/x86_64-unknown-linux-gnu/libmy_mod.so"
    );
    assert_eq!(
        c.rust_build_path("m", "1", "5.1", "x86_64-pc-windows-gnu"),
        "/c/rust-builds/m/1/5.1/x86_64-pc-windows-gnu/libm.dll"
    );
    assert_eq!(
        c.rust_build_path("m", "1", "5.1", "aarch64-apple-darwin"),
        "/c/rust-builds/m/1/5.1/aarch64-apple-darwin/libm.dylib"
    );
    assert!(!c.has_rust_build("m", "1", "5.1", "aarch64-apple-darwin"));
    assert!(c.get_rust_build("m", "1", "5.1", "aarch64-apple-darwin").is_none());
    assert!(!c.file_exists("/c/does/not/exist"));
}

#[test]
fn clean_results_add_up() {
    let mut a = CacheCleanResult { files_removed: 2, bytes_freed: 100 };
    a.add_assign(CacheCleanResult { files_removed: 3, bytes_freed: 50 });
    assert_eq!(a, CacheCleanResult { files_removed: 5, bytes_freed: 150 });
    assert_eq!(CacheCleanResult::default(), CacheCleanResult { files_removed: 0, bytes_freed: 0 });
}

#[test]
fn rust_build_from_follows_the_answer() {
    let c = Cache::new("/c".to_string());
    let p = c.rust_build_path("my-pkg", "1.0.0", "5.4", "x86_64-unknown-linux-gnu");
    assert_eq!(c.rust_build_from("my-pkg", "1.0.0", "5.4", "x86_64-unknown-linux-gnu", true), Some(p));
    assert_eq!(c.rust_build_from("my-pkg", "1.0.0", "5.4", "x86_64-unknown-linux-gnu", false), None);
}
