use imonitor::backfill::{archive_request_for_gap, backfill_should_connect, earliest_wall_time,
    archive_time_coverage, note_archive_result};
use imonitor::coverage::{ActivityCoverage, TimeRange};

fn tr(start: u64, end: u64) -> TimeRange {
    TimeRange { start, end }
}

fn coverage_of(ranges: &[(u64, u64)]) -> ActivityCoverage {
    let mut c = ActivityCoverage::new();
    for &(s, e) in ranges {
        c.add_range(tr(s, e));
    }
    c
}

#[test]
fn new_coverage_is_empty() {
    let c = ActivityCoverage::new();
    assert_eq!(c.intervals().len(), 0);
    assert_eq!(c.missing_ranges().len(), 0);
    assert_eq!(c.oldest_gap(), None);
}

#[test]
fn coverage_merge_scenario() {
    let mut c = ActivityCoverage::new();
    c.add_range(tr(10, 20));
    c.add_range(tr(30, 40));
    c.add_range(tr(19, 31));
    assert_eq!(c.intervals().as_slice(), &[tr(10, 40)]);
    assert_eq!(c.missing_ranges().len(), 0);
    c.add_range(tr(50, 60));
    assert_eq!(c.missing_ranges().as_slice(), &[tr(40, 50)]);
}

#[test]
fn touching_intervals_merge() {
    let mut c = ActivityCoverage::new();
    c.add_range(tr(0, 5));
    c.add_range(tr(5, 10));
    assert_eq!(c.intervals().as_slice(), &[tr(0, 10)]);
}

#[test]
fn disjoint_intervals_stay_sorted() {
    let mut c = ActivityCoverage::new();
    c.add_range(tr(30, 40));
    c.add_range(tr(10, 20));
    c.add_range(tr(50, 60));
    assert_eq!(c.intervals().as_slice(), &[tr(10, 20), tr(30, 40), tr(50, 60)]);
}

#[test]
fn empty_interval_changes_nothing() {
    let mut c = coverage_of(&[(10, 20)]);
    c.add_range(tr(5, 5));
    c.add_range(tr(30, 25));
    assert_eq!(c.intervals().as_slice(), &[tr(10, 20)]);
}

#[test]
fn add_is_commutative_on_values() {
    let a = tr(3, 12);
    let b = tr(10, 15);
    let mut c1 = coverage_of(&[(0, 2), (20, 30)]);
    let mut c2 = c1.clone();
    c1.add_range(a);
    c1.add_range(b);
    c2.add_range(b);
    c2.add_range(a);
    assert_eq!(c1.intervals(), c2.intervals());
    assert_eq!(c1.intervals().as_slice(), &[tr(0, 2), tr(3, 15), tr(20, 30)]);
}

#[test]
fn add_is_idempotent_on_values() {
    let a = tr(3, 12);
    let mut c1 = coverage_of(&[(0, 2), (20, 30)]);
    c1.add_range(a);
    let snapshot = c1.intervals().clone();
    c1.add_range(a);
    assert_eq!(c1.intervals(), &snapshot);
}

#[test]
fn gaps_added_back_give_one_interval() {
    let mut c = coverage_of(&[(1, 5), (7, 9), (12, 20)]);
    let gaps = c.missing_ranges();
    assert_eq!(gaps.as_slice(), &[tr(5, 7), tr(9, 12)]);
    for g in gaps {
        c.add_range(g);
    }
    assert_eq!(c.intervals().as_slice(), &[tr(1, 20)]);
}

#[test]
fn oldest_gap_is_first() {
    let c = coverage_of(&[(1, 5), (7, 9), (12, 20)]);
    assert_eq!(c.oldest_gap(), Some(tr(5, 7)));
}

#[test]
fn archive_backfill_scenario() {
    let mut c = coverage_of(&[(100, 200), (300, 400)]);
    let gap = c.oldest_gap().expect("one gap expected");
    assert_eq!(gap, tr(200, 300));
    let req = archive_request_for_gap(gap);
    assert_eq!(req.start_epoch, 200);
    assert_eq!(req.size_limit_hint, 5);
    assert_eq!(req.age_limit, 1);
    let sleep = note_archive_result(&mut c, gap, true);
    assert_eq!(sleep, 0);
    assert_eq!(c.intervals().as_slice(), &[tr(100, 400)]);
    assert_eq!(c.missing_ranges().len(), 0);
}

#[test]
fn failed_archive_changes_nothing() {
    let mut c = coverage_of(&[(100, 200), (300, 400)]);
    let gap = c.oldest_gap().unwrap();
    let sleep = note_archive_result(&mut c, gap, false);
    assert_eq!(sleep, 60);
    assert_eq!(c.intervals().as_slice(), &[tr(100, 200), tr(300, 400)]);
}

#[test]
fn backfill_gate_needs_readiness_and_gaps() {
    assert!(backfill_should_connect(true, false));
    assert!(!backfill_should_connect(false, false));
    assert!(!backfill_should_connect(true, true));
    assert!(!backfill_should_connect(false, true));
}

#[test]
fn earliest_wall_time_is_minimum() {
    assert_eq!(earliest_wall_time(&vec![]), None);
    assert_eq!(earliest_wall_time(&vec![7]), Some(7));
    assert_eq!(earliest_wall_time(&vec![9, 4, 11, 5]), Some(4));
}

#[test]
fn archive_metadata_needs_both_bounds() {
    assert_eq!(archive_time_coverage(Some(10), Some(20)), Some(tr(10, 20)));
    assert_eq!(archive_time_coverage(None, Some(20)), None);
    assert_eq!(archive_time_coverage(Some(10), None), None);
}
