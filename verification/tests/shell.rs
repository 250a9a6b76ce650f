use lpm::path_setup::shell::{
    detect_shell, expand_path_vars, get_cargo_bin_dir, get_shell_profile, lpm_in_path, path_advice, path_entries,
    path_separator, path_status, profile_has_cargo_path, profile_path, trim_trailing_slashes,
    PathStatus,
};
use lpm::path::path_starts_with;
use lpm::LpmError;

#[test]
fn test_get_shell_profile() {
    let profile = get_shell_profile("zsh");
    assert!(profile.contains("zshrc"));

    let profile = get_shell_profile("bash");
    assert!(profile.contains("bashrc"));
}

#[test]
fn test_get_cargo_bin_dir() {
    let cargo_bin = get_cargo_bin_dir("linux", None, Some("/home/user")).unwrap();
    assert!(cargo_bin.contains(".cargo"));
    assert!(cargo_bin.contains("bin"));
}

#[test]
fn test_detect_shell() {
    let shell = detect_shell(Some("/usr/bin/zsh"));
    assert!(!shell.is_empty());
}

#[test]
fn shell_profiles_of_each_shell() {
    assert_eq!(get_shell_profile("fish"), "~/.config/fish/config.fish");
    assert_eq!(get_shell_profile("tcsh"), "~/.profile");
    assert_eq!(detect_shell(None), "sh");
    assert_eq!(detect_shell(Some("/bin/bash")), "bash");
    assert_eq!(detect_shell(Some("fish")), "fish");
}

#[test]
fn cargo_bin_dir_errors_name_the_variable() {
    assert_eq!(get_cargo_bin_dir("linux", None, Some("/home/u")).unwrap(), "/home/u/.cargo/bin");
    assert_eq!(get_cargo_bin_dir("windows", Some("C:/Users/u"), None).unwrap(), "C:/Users/u/.cargo/bin");
    match get_cargo_bin_dir("linux", Some("C:/x"), None) {
        Err(LpmError::Path(m)) => assert_eq!(m, "HOME not set"),
        _ => panic!("expected a path error"),
    }
    match get_cargo_bin_dir("windows", None, Some("/home/u")) {
        Err(LpmError::Path(m)) => assert_eq!(m, "USERPROFILE not set"),
        _ => panic!("expected a path error"),
    }
}

#[test]
fn path_variables_expand() {
    assert_eq!(expand_path_vars("~/bin", Some("/home/u")), "/home/u/bin");
    assert_eq!(expand_path_vars("$HOME/bin:$HOME/x", Some("/home/u")), "/home/u/bin:/home/u/x");
    assert_eq!(expand_path_vars("~/bin", None), "~/bin");
    assert_eq!(expand_path_vars("/usr/bin", Some("/home/u")), "/usr/bin");
}

#[test]
fn path_entries_are_split_trimmed_and_expanded() {
    let entries = path_entries("/usr/bin:: ~/.cargo/bin :/bin", "linux", Some("/home/u"));
    assert_eq!(entries, vec!["/usr/bin", "/home/u/.cargo/bin", "/bin"]);
    assert_eq!(path_separator("windows"), ';');
    assert_eq!(path_separator("linux"), ':');
    let win = path_entries("C:\\bin;D:\\x", "windows", None);
    assert_eq!(win, vec!["C:\\bin", "D:\\x"]);
}

#[test]
fn trailing_slashes_are_dropped() {
    assert_eq!(trim_trailing_slashes("/usr/bin///"), "/usr/bin");
    assert_eq!(trim_trailing_slashes("/"), "");
    assert_eq!(trim_trailing_slashes("abc"), "abc");
}

#[test]
fn path_status_decisions() {
    let entries = vec!["/usr/bin".to_string(), "/home/u/.cargo/bin".to_string()];
    assert!(lpm_in_path(&entries, "/opt/lpm", "/home/u/.cargo/bin"));
    assert_eq!(
        path_status(&entries, "/home/u/.cargo/bin", "/home/u/.cargo/bin", "/home/u/.cargo/bin/lpm", "/home/u/.cargo/bin"),
        PathStatus::InPath
    );
    let none: Vec<String> = vec!["/usr/bin".to_string()];
    assert_eq!(
        path_status(&none, "/home/u/.cargo/bin", "/home/u/.cargo/bin", "/home/u/.cargo/bin/lpm", "/home/u/.cargo/bin"),
        PathStatus::MissingFromPath
    );
    assert_eq!(
        path_status(&none, "/opt/lpm", "/home/u/.cargo/bin", "/opt/lpm/lpm", "/home/u/.cargo/bin"),
        PathStatus::Elsewhere
    );
}

#[test]
fn path_prefix_is_by_component() {
    assert!(path_starts_with("/home/u/.cargo/bin/lpm", "/home/u/.cargo/bin"));
    assert!(!path_starts_with("/home/u/.cargo/binx/lpm", "/home/u/.cargo/bin"));
    assert!(path_starts_with("/a//b/./c", "/a/b"));
    assert!(!path_starts_with("a/b", "/a"));
}

#[test]
fn advice_for_unix_and_windows() {
    let unix = path_advice("linux", "~/.zshrc", "/home/u/.cargo/bin", "/home/u/.cargo/bin/lpm");
    assert_eq!(unix.len(), 9);
    assert_eq!(unix[2], "  Add this line to your ~/.zshrc:");
    assert_eq!(unix[7], "  source ~/.zshrc");
    assert_eq!(unix[8], "\nCurrent LPM location: /home/u/.cargo/bin/lpm");
    let win = path_advice("windows", "~/.profile", "C:/cargo/bin", "C:/cargo/bin/lpm.exe");
    assert_eq!(win.len(), 7);
    assert_eq!(win[3], "  2. Add C:/cargo/bin to your PATH");
}

#[test]
fn profile_checks() {
    assert!(profile_has_cargo_path("export PATH=\"$HOME/.cargo/bin:$PATH\""));
    assert!(profile_has_cargo_path("source ~/.cargo/bin/env"));
    assert!(!profile_has_cargo_path("alias ll='ls -l'"));
    assert_eq!(profile_path("~/.zshrc", "/home/u"), "/home/u/.zshrc");
}
