use lpm::path::{
    extension_of, file_name_of, join, lpm_home_in, lpm_metadata_dir, lua_modules_dir, named_segments_of,
    normalize_path, packages_metadata_dir, strip_path_prefix, is_project_root, cache_dir_in,
};
use lpm::path::{ancestor_dirs, find_project_root, marker_paths, pick_present, project_root_from};
use lpm::path_setup::loader::PathSetup;
use lpm::LpmError;

#[test]
fn project_directories() {
    assert_eq!(lua_modules_dir("/p"), "/p/lua_modules");
    assert_eq!(lpm_metadata_dir("/p"), "/p/lua_modules/.lpm");
    assert_eq!(packages_metadata_dir("/p/"), "/p/lua_modules/.lpm/packages");
    assert!(!is_project_root("/nonexistent-lpm-dir"));
}

#[test]
fn joining_and_normalising() {
    assert_eq!(join("/a", "b"), "/a/b");
    assert_eq!(join("/a/", "b"), "/a/b");
    assert_eq!(join("/a", "/b"), "/b");
    assert_eq!(join("", "b"), "b");
    assert_eq!(normalize_path("/a//b/./c/"), "/a/b/c");
    assert_eq!(normalize_path("./a/./b"), "./a/b");
    assert_eq!(normalize_path("."), ".");
    assert_eq!(normalize_path("a/../b"), "a/../b");
    assert_eq!(named_segments_of("/a//b/./c"), vec!["a", "b", "c"]);
}

#[test]
fn file_names_and_extensions() {
    assert_eq!(file_name_of("/a/b.tar.gz"), Some("b.tar.gz".to_string()));
    assert_eq!(extension_of("/a/b.tar.gz"), Some("gz".to_string()));
    assert_eq!(extension_of("/a/.hidden"), None);
    assert_eq!(file_name_of("/a/.."), None);
    assert_eq!(extension_of("https://x.org/pkg-1.0.zip"), Some("zip".to_string()));
}

#[test]
fn prefix_stripping() {
    assert_eq!(strip_path_prefix("/p/src/main.lua", "/p"), Some("src/main.lua".to_string()));
    assert_eq!(strip_path_prefix("/p", "/p"), Some(String::new()));
    assert_eq!(strip_path_prefix("/q/src", "/p"), None);
}

#[test]
fn home_directories() {
    assert_eq!(lpm_home_in(Some("/home/u/.config")).unwrap(), "/home/u/.config/lpm");
    match lpm_home_in(None) {
        Err(LpmError::Path(m)) => assert_eq!(m, "Could not determine config directory"),
        _ => panic!("expected a path error"),
    }
    match cache_dir_in(None) {
        Err(LpmError::Path(m)) => assert_eq!(m, "Could not determine cache directory"),
        _ => panic!("expected a path error"),
    }
}

#[test]
fn test_generate_loader() {
    let loader = PathSetup::generate_loader("/tmp/lpm-project", "linux");
    assert!(loader.contains("package.path"));
    assert!(loader.contains("package.cpath"));
    assert!(loader.contains("lua_modules"));
}

#[test]
fn loader_native_paths_per_system() {
    let linux = PathSetup::generate_loader("/p", "linux");
    assert!(linux.contains("local lpm_cpath = [[/p/lua_modules/?.so;/p/lua_modules/?/init.so]]"));
    assert!(linux.contains("local lua_modules = [[/p/lua_modules]]"));
    let mac = PathSetup::generate_loader("/p", "macos");
    assert!(mac.contains("/p/lua_modules/?.dylib;/p/lua_modules/?/init.dylib"));
    let win = PathSetup::generate_loader("/p", "windows");
    assert!(win.contains("/p/lua_modules/?.dll;/p/lua_modules/?/init.dll"));
    assert_eq!(PathSetup::loader_path("/p"), "/p/lua_modules/lpm/loader.lua");
    assert_eq!(PathSetup::lpm_module_dir("/p"), "/p/lua_modules/lpm");
}

#[test]
fn project_root_search() {
    assert_eq!(ancestor_dirs("/a/b/c"), vec!["/a/b/c", "/a/b", "/a", "/"]);
    assert_eq!(ancestor_dirs("a/b"), vec!["a/b", "a", ""]);
    assert_eq!(ancestor_dirs("/"), vec!["/"]);
    match find_project_root("/nonexistent-lpm-root/x/y") {
        Err(LpmError::Path(m)) => {
            assert_eq!(m, "Could not find package.yaml or workspace.yaml in current directory or parents")
        }
        Ok(p) => assert!(ancestor_dirs("/nonexistent-lpm-root/x/y").contains(&p)),
        Err(_) => panic!("expected a path error"),
    }
}

#[test]
fn project_root_is_the_nearest_marked_directory() {
    assert_eq!(ancestor_dirs("/w/project/subdir"), vec!["/w/project/subdir", "/w/project", "/w", "/"]);
    assert_eq!(project_root_from("/w/project/subdir", &vec![false, true]).unwrap(), "/w/project");
    assert_eq!(project_root_from("/w/project/subdir", &vec![false, true, true, true]).unwrap(), "/w/project");
    assert_eq!(project_root_from("/w/project/subdir", &vec![true]).unwrap(), "/w/project/subdir");
    match project_root_from("/w/project/subdir", &vec![false, false, false, false]) {
        Err(LpmError::Path(m)) => assert_eq!(m, "Could not find package.yaml or workspace.yaml in current directory or parents"),
        other => panic!("unexpected {:?}", other),
    }
}

#[test]
fn pick_present_takes_the_first_answer_that_is_true() {
    let cands = vec!["a".to_string(), "b".to_string(), "c".to_string()];
    assert_eq!(pick_present(&cands, &vec![false, false, true]), Some("c".to_string()));
    assert_eq!(pick_present(&cands, &vec![false, true, true]), Some("b".to_string()));
    assert_eq!(pick_present(&cands, &vec![false, false]), None);
    assert_eq!(pick_present(&cands, &vec![false, false, false, true]), None);
}

#[test]
fn normalizing_twice_changes_nothing() {
    for p in ["a//b/./c/", "/x/../y", "./a/b", ".", "", "/", "a/./", "./"] {
        let once = normalize_path(p);
        assert_eq!(normalize_path(&once), once);
    }
    assert_eq!(normalize_path("a//b/./c/"), "a/b/c");
}

#[test]
fn project_markers_and_a_search_that_finds_none() {
    assert_eq!(marker_paths("/w/project"), vec!["/w/project/workspace.yaml", "/w/project/package.yaml"]);
    match find_project_root("/nonexistent-lpm-dir/a/b") {
        Err(LpmError::Path(m)) => assert_eq!(m, "Could not find package.yaml or workspace.yaml in current directory or parents"),
        other => panic!("unexpected {:?}", other),
    }
}

#[test]
fn loader_install_writes_the_loader_into_lua_modules() {
    let files = PathSetup::loader_install("/p", "linux");
    assert_eq!(files.dir, "/p/lua_modules/lpm");
    assert_eq!(files.path, "/p/lua_modules/lpm/loader.lua");
    assert_eq!(files.path, PathSetup::loader_path("/p"));
    assert_eq!(files.content, PathSetup::generate_loader("/p", "linux"));
}
