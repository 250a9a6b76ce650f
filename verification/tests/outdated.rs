use lpm::outdated::{newest_version, outdated_status, OutdatedStatus};
use lpm::version::Version;

fn v(a: u64, b: u64, c: u64) -> Version {
    Version::new(a, b, c)
}

#[test]
fn newest_of_the_versions() {
    assert_eq!(newest_version(&vec![v(1, 0, 0), v(1, 2, 0), v(0, 9, 9)]), Some(v(1, 2, 0)));
    assert_eq!(newest_version(&vec![]), None);
}

#[test]
fn status_of_a_dependency() {
    let offered = vec![v(1, 0, 0), v(1, 4, 2), v(2, 0, 0)];
    assert_eq!(outdated_status(&vec![], "^1.0.0", None).unwrap(), OutdatedStatus::NotFound);
    // The newest (2.0.0) is outside ^1.0.0: nothing admitted is newer.
    assert_eq!(outdated_status(&offered, "^1.0.0", Some(v(1, 0, 0))).unwrap(), OutdatedStatus::UpToDate);
    assert_eq!(
        outdated_status(&offered, ">=1.0.0", Some(v(1, 0, 0))).unwrap(),
        OutdatedStatus::Outdated { current: Some(v(1, 0, 0)), latest: v(2, 0, 0) }
    );
    assert_eq!(outdated_status(&offered, ">=1.0.0", Some(v(2, 0, 0))).unwrap(), OutdatedStatus::UpToDate);
    assert_eq!(
        outdated_status(&offered, ">=1.0.0", None).unwrap(),
        OutdatedStatus::Outdated { current: None, latest: v(2, 0, 0) }
    );
    assert!(outdated_status(&offered, "not a version", None).is_err());
    assert_eq!(outdated_status(&vec![], "not a version", None).unwrap(), OutdatedStatus::NotFound);
}
