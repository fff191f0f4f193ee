use imonitor::crashes::{classify_pull_failure, collect_dir_entries, file_mode_is_directory,
    session_candidates, crash_step, CrashEvent, CrashPhase, Crashes, PullFailureAction};
use imonitor::errors::TransportErrorKind;

fn strs(items: &[&str]) -> Vec<String> {
    items.iter().map(|s| s.to_string()).collect()
}

#[test]
fn new_known_set_is_empty() {
    let c = Crashes::new();
    assert!(!c.contains_file("a.ips"));
    assert!(!c.contains_dir("Retired"));
    assert_eq!(c.dirs_to_list().len(), 0);
}

#[test]
fn crash_directory_discovery_scenario() {
    let mut c = Crashes::new();
    let root = strs(&["a.ips", "Retired"]);

    // first pass: nothing known, both names are fetched
    let cands = session_candidates(&root, &vec![]);
    let fetch = c.files_to_fetch(&cands, &vec![]);
    assert_eq!(fetch, strs(&["a.ips", "Retired"]));

    // a.ips pulls fine; Retired fails and file-info reports a directory
    c.note_downloaded(&"a.ips".to_string());
    assert!(file_mode_is_directory("S_IFDIR"));
    assert!(!file_mode_is_directory("S_IFREG"));
    let action = classify_pull_failure(true, TransportErrorKind::Other);
    assert_eq!(action, PullFailureAction::MarkDirectory);
    c.note_directory(&"Retired".to_string());

    // next pass lists the discovered directory
    assert_eq!(c.dirs_to_list(), strs(&["Retired"]));
    let retired_names = strs(&["b.ips", ".", "..", "IN_PROGRESS_sysdiagnose_x"]);
    let listings = vec![("Retired".to_string(), retired_names)];
    let cands2 = session_candidates(&root, &listings);
    assert_eq!(cands2, strs(&["a.ips", "Retired", "Retired/b.ips"]));

    // only the new artifact is fetched
    let fetch2 = c.files_to_fetch(&cands2, &vec![]);
    assert_eq!(fetch2, strs(&["Retired/b.ips"]));
    c.note_downloaded(&"Retired/b.ips".to_string());
    assert!(c.contains_file("a.ips"));
    assert!(c.contains_file("Retired/b.ips"));
    assert!(c.contains_dir("Retired"));
    assert!(!c.contains_file("IN_PROGRESS_sysdiagnose_x"));
}

#[test]
fn downloaded_file_is_not_refetched() {
    let mut c = Crashes::new();
    c.note_downloaded(&"a.ips".to_string());
    let cands = strs(&["a.ips", "b.ips"]);
    let fetch = c.files_to_fetch(&cands, &vec![]);
    assert_eq!(fetch, strs(&["b.ips"]));
}

#[test]
fn duplicate_candidates_are_fetched_once() {
    let c = Crashes::new();
    let cands = strs(&["a.ips", "a.ips", "b.ips"]);
    let fetch = c.files_to_fetch(&cands, &vec![]);
    assert_eq!(fetch, strs(&["a.ips", "b.ips"]));
}

#[test]
fn given_up_paths_are_not_fetched_this_session() {
    let c = Crashes::new();
    let cands = strs(&["a.ips", "b.ips"]);
    let fetch = c.files_to_fetch(&cands, &strs(&["a.ips"]));
    assert_eq!(fetch, strs(&["b.ips"]));
}

#[test]
fn pull_failure_classification() {
    assert_eq!(
        classify_pull_failure(false, TransportErrorKind::ObjectNotFound),
        PullFailureAction::GiveUpThisSession
    );
    assert_eq!(
        classify_pull_failure(false, TransportErrorKind::PermissionDenied),
        PullFailureAction::GiveUpThisSession
    );
    assert_eq!(
        classify_pull_failure(false, TransportErrorKind::ConnectLost),
        PullFailureAction::RetryLater
    );
    assert_eq!(
        classify_pull_failure(false, TransportErrorKind::Timeout),
        PullFailureAction::RetryLater
    );
    assert_eq!(
        classify_pull_failure(false, TransportErrorKind::Other),
        PullFailureAction::RetryLater
    );
    assert_eq!(
        classify_pull_failure(true, TransportErrorKind::ObjectNotFound),
        PullFailureAction::MarkDirectory
    );
}

#[test]
fn deleted_directory_is_forgotten() {
    let mut c = Crashes::new();
    c.note_directory(&"Retired".to_string());
    assert!(c.contains_dir("Retired"));
    c.note_dir_listing_failed(&"Retired".to_string());
    assert!(!c.contains_dir("Retired"));
    assert_eq!(c.dirs_to_list().len(), 0);
}

#[test]
fn files_and_dirs_stay_disjoint() {
    let mut c = Crashes::new();
    c.note_downloaded(&"x".to_string());
    c.note_directory(&"x".to_string());
    assert!(c.contains_dir("x") && !c.contains_file("x"));
    c.note_downloaded(&"x".to_string());
    assert!(c.contains_file("x") && !c.contains_dir("x"));
}

#[test]
fn known_set_round_trips_through_json() {
    let mut c = Crashes::new();
    c.note_downloaded(&"a.ips".to_string());
    c.note_directory(&"Retired".to_string());
    let (files_json, dirs_json) = c.to_json();
    assert_eq!(files_json, "[\n  \"a.ips\"\n]");
    assert_eq!(dirs_json, "[\n  \"Retired\"\n]");
    let back = Crashes::from_json(Some(&files_json), Some(&dirs_json))
        .expect("serialized form must parse");
    assert!(back.contains_file("a.ips"));
    assert!(back.contains_dir("Retired"));
    assert!(!back.contains_file("Retired"));
}

#[test]
fn restart_durability_scenario() {
    // a file was downloaded and the known-set persisted before the restart
    let mut before = Crashes::new();
    before.note_downloaded(&"a.ips".to_string());
    let (files_json, dirs_json) = before.to_json();

    // after the restart the persisted state is loaded again
    let after = Crashes::from_json(Some(&files_json), Some(&dirs_json)).expect("must parse");
    assert!(after.contains_file("a.ips"));

    // an identical listing leads to no pull at all
    let cands = session_candidates(&strs(&["a.ips"]), &vec![]);
    assert_eq!(after.files_to_fetch(&cands, &vec![]).len(), 0);
}

#[test]
fn known_set_loading_normalizes() {
    // missing and empty files stand for empty sets
    let c = Crashes::from_json(None, None).expect("missing files are fine");
    assert_eq!(c.dirs_to_list().len(), 0);
    let c2 = Crashes::from_json(Some(""), Some("")).expect("empty files are fine");
    assert_eq!(c2.dirs_to_list().len(), 0);
    // a path in both lists is kept as a directory only
    let c3 = Crashes::from_json(Some("[\"x\", \"y\", \"x\"]"), Some("[\"x\"]"))
        .expect("must parse");
    assert!(c3.contains_dir("x"));
    assert!(!c3.contains_file("x"));
    assert!(c3.contains_file("y"));
    // garbage is rejected
    assert!(Crashes::from_json(Some("not json"), None).is_err());
}

#[test]
fn dir_entries_are_joined_and_filtered() {
    let names = strs(&[".", "..", "IN_PROGRESS_sysdiagnose_2024", "crash.ips", "panic.ips"]);
    let entries = collect_dir_entries("Retired", &names);
    assert_eq!(entries, strs(&["Retired/crash.ips", "Retired/panic.ips"]));
}

#[test]
fn harvester_connects_only_when_ready() {
    let s = crash_step(CrashPhase::WaitingReady, CrashEvent::ReadyObserved { ready: false });
    assert!(!s.connect);
    assert_eq!(s.next, CrashPhase::WaitingReady);
    assert_eq!(s.sleep_secs, 15);
    let s2 = crash_step(CrashPhase::WaitingReady, CrashEvent::ReadyObserved { ready: true });
    assert!(s2.connect);
    assert_eq!(s2.next, CrashPhase::Connecting);
}

#[test]
fn harvester_session_cycle() {
    let s = crash_step(CrashPhase::Connecting, CrashEvent::ConnectOk);
    assert!(s.run_pass);
    assert_eq!(s.next, CrashPhase::Sessioning);
    let s2 = crash_step(CrashPhase::Sessioning, CrashEvent::SessionPassOk);
    assert!(s2.run_pass);
    assert_eq!(s2.sleep_secs, 15);
    let s3 = crash_step(
        CrashPhase::Sessioning,
        CrashEvent::SessionPassFailed { err: TransportErrorKind::Timeout },
    );
    assert!(!s3.run_pass);
    assert_eq!(s3.next, CrashPhase::WaitingReady);
    assert_eq!(s3.sleep_secs, 15);
}

#[test]
fn transport_error_messages() {
    assert_eq!(TransportErrorKind::ConnectLost.message(), "connection lost");
    assert_eq!(TransportErrorKind::Timeout.message(), "timeout");
    assert_eq!(TransportErrorKind::ObjectNotFound.message(), "object not found");
    assert_eq!(TransportErrorKind::PermissionDenied.message(), "permission denied");
    assert_eq!(TransportErrorKind::Other.message(), "transport error");
}
