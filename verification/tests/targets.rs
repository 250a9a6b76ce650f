use lpm::build::targets::{supported_targets, Target};
use lpm::LpmError;

#[test]
fn test_target_validation() {
    assert!(Target::new("x86_64-unknown-linux-gnu").is_ok());
    assert!(Target::new("invalid-target").is_err());
}

#[test]
fn test_module_extension() {
    let linux = Target::new("x86_64-unknown-linux-gnu").unwrap();
    assert_eq!(linux.module_extension(), ".so");

    let windows = Target::new("x86_64-pc-windows-gnu").unwrap();
    assert_eq!(windows.module_extension(), ".dll");

    let macos = Target::new("x86_64-apple-darwin").unwrap();
    assert_eq!(macos.module_extension(), ".dylib");
}

#[test]
fn unsupported_target_message_lists_all() {
    match Target::new("sparc-sun-solaris") {
        Err(LpmError::Package(m)) => assert_eq!(
            m,
            "Unsupported target 'sparc-sun-solaris'. Supported targets: x86_64-unknown-linux-gnu, x86_64-unknown-linux-musl, aarch64-unknown-linux-gnu, x86_64-pc-windows-gnu, x86_64-apple-darwin, aarch64-apple-darwin"
        ),
        _ => panic!("expected a package error"),
    }
}

#[test]
fn every_supported_target_is_accepted() {
    for t in supported_targets() {
        let target = Target::new(&t).unwrap();
        assert_eq!(target.triple, t);
    }
    assert_eq!(supported_targets().len(), 6);
}

#[test]
fn default_target_per_platform() {
    assert_eq!(Target::default_target("linux", "x86_64").triple, "x86_64-unknown-linux-gnu");
    assert_eq!(Target::default_target("linux", "aarch64").triple, "aarch64-unknown-linux-gnu");
    assert_eq!(Target::default_target("macos", "x86_64").triple, "x86_64-apple-darwin");
    assert_eq!(Target::default_target("macos", "aarch64").triple, "aarch64-apple-darwin");
    assert_eq!(Target::default_target("windows", "x86_64").triple, "x86_64-pc-windows-gnu");
    assert_eq!(Target::default_target("freebsd", "x86_64").triple, "x86_64-unknown-linux-gnu");
}

#[test]
fn musl_and_arm_linux_use_so() {
    assert_eq!(Target::new("x86_64-unknown-linux-musl").unwrap().module_extension(), ".so");
    assert_eq!(Target::new("aarch64-apple-darwin").unwrap().module_extension(), ".dylib");
}

#[test]
fn default_targets_are_supported() {
    for (os, arch) in [("linux", "x86_64"), ("linux", "aarch64"), ("macos", "x86_64"), ("macos", "aarch64"), ("windows", "x86_64"), ("windows", "x86"), ("freebsd", "riscv64")] {
        let t = Target::default_target(os, arch);
        assert!(Target::new(&t.triple).is_ok());
    }
}
