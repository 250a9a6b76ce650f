use lpm::cache::CacheCleanResult;
use lpm::cache_clean::{CacheFile, CleanPlan, CleanStep};

const SEC: u128 = 1_000_000_000;

fn run(plan: &mut CleanPlan, fail: &[usize]) -> Vec<(usize, bool)> {
    let mut steps = Vec::new();
    loop {
        match plan.next() {
            CleanStep::Remove { index, check_exists } => {
                steps.push((index, check_exists));
                plan.report(!fail.contains(&index));
            }
            CleanStep::Done => break,
        }
    }
    steps
}

#[test]
fn old_files_go_first_then_oldest_until_under_limit() {
    let files = vec![
        CacheFile { modified: 100 * SEC, size: 10 },
        CacheFile { modified: 10 * SEC, size: 20 },
        CacheFile { modified: 50 * SEC, size: 30 },
        CacheFile { modified: 50 * SEC, size: 40 },
    ];
    let mut plan = CleanPlan::new(files, 120 * SEC, 100 * SEC, 45);
    let steps = run(&mut plan, &[]);
    assert_eq!(steps, vec![(1, false), (2, true), (3, true)]);
    assert_eq!(plan.result(), CacheCleanResult { files_removed: 3, bytes_freed: 90 });
}

#[test]
fn failed_removals_are_not_counted() {
    let files = vec![CacheFile { modified: 0, size: 5 }, CacheFile { modified: 1, size: 7 }];
    let mut plan = CleanPlan::new(files, 1000 * SEC, 10 * SEC, 100);
    let steps = run(&mut plan, &[0]);
    assert_eq!(steps, vec![(0, false), (1, false)]);
    assert_eq!(plan.result(), CacheCleanResult { files_removed: 1, bytes_freed: 7 });
}

#[test]
fn nothing_to_clean() {
    let files = vec![CacheFile { modified: 5 * SEC, size: 5 }];
    let mut plan = CleanPlan::new(files, 6 * SEC, 10 * SEC, 100);
    assert!(run(&mut plan, &[]).is_empty());
    assert_eq!(plan.result(), CacheCleanResult::default());
    let mut empty = CleanPlan::new(Vec::new(), 0, 0, 0);
    assert_eq!(empty.next(), CleanStep::Done);
}

#[test]
fn future_files_are_not_aged() {
    let files = vec![CacheFile { modified: 200 * SEC, size: 5 }];
    let mut plan = CleanPlan::new(files, 100 * SEC, 0, 100);
    assert!(run(&mut plan, &[]).is_empty());
}

#[test]
fn nothing_to_do_is_done_at_once_and_a_failed_removal_is_not_retried() {
    let files = vec![CacheFile { modified: 100 * SEC, size: 10 }, CacheFile { modified: 110 * SEC, size: 10 }];
    let mut plan = CleanPlan::new(files.clone(), 120 * SEC, 100 * SEC, 100);
    assert_eq!(plan.next(), CleanStep::Done);
    let mut plan2 = CleanPlan::new(files, 300 * SEC, 100 * SEC, 5);
    let steps = run(&mut plan2, &[0]);
    assert_eq!(steps, vec![(0, false), (1, false), (0, true)]);
    assert_eq!(plan2.result(), CacheCleanResult { files_removed: 1, bytes_freed: 10 });
}
