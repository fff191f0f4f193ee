use imonitor::config::Config;
use imonitor::coverage::{ActivityCoverage, TimeRange};
use imonitor::device::{Connection, Device, Info};
use imonitor::heartbeat::{hb_step, HbEvent, HbPhase, HeartBeat};
use imonitor::readiness::ReadinessSignal;
use imonitor::trace::{apply_merge, frame_record, trace_step, TraceEvent, TracePhase};

fn tr(start: u64, end: u64) -> TimeRange {
    TimeRange { start, end }
}

#[test]
fn readiness_counts_only_transitions() {
    let mut r = ReadinessSignal::new();
    assert!(!r.current());
    assert_eq!(r.version, 0);
    r.publish(true);
    assert!(r.current());
    assert_eq!(r.version, 1);
    r.publish(true);
    assert_eq!(r.version, 1);
    r.publish(false);
    assert_eq!(r.version, 2);
    assert!(r.has_changed_since(1));
    assert!(!r.has_changed_since(2));
    assert!(!r.may_proceed());
}

#[test]
fn heartbeat_connection_publishes_and_persists() {
    let s = hb_step(HbPhase::Disconnected, HbEvent::ConnectOk { now: 1000 }, 60);
    assert_eq!(s.publish, Some(true));
    assert_eq!(s.persist_timestamp, Some(1000));
    assert_eq!(s.next, HbPhase::Connected { read_deadline_secs: 60 });
    assert!(!s.send_polo);
}

#[test]
fn heartbeat_failure_drops_readiness_and_backs_off() {
    let s = hb_step(HbPhase::Disconnected, HbEvent::ConnectFailed, 60);
    assert_eq!(s.publish, Some(false));
    assert_eq!(s.sleep_secs, 30);
    let s2 = hb_step(
        HbPhase::Connected { read_deadline_secs: 60 },
        HbEvent::MarcoFailed,
        60,
    );
    assert_eq!(s2.publish, Some(false));
    assert_eq!(s2.next, HbPhase::Disconnected);
    assert_eq!(s2.sleep_secs, 30);
}

#[test]
fn heartbeat_marco_extends_deadline_and_answers() {
    let s = hb_step(
        HbPhase::Connected { read_deadline_secs: 60 },
        HbEvent::Marco { hint_secs: 30 },
        60,
    );
    assert!(s.send_polo);
    assert_eq!(s.next, HbPhase::Connected { read_deadline_secs: 35 });
    assert_eq!(s.publish, None);
}

#[test]
fn cold_start_scenario() {
    // no heartbeat answer within the soft timeout: collectors may proceed
    let s = hb_step(HbPhase::Disconnected, HbEvent::SoftTimeout { now: 0 }, 60);
    assert_eq!(s.publish, Some(true));
    assert_eq!(s.next, HbPhase::OptimisticReady { until: 420 });
    assert_eq!(s.sleep_secs, 420);

    // with readiness up, the collectors connect and stream
    let t = trace_step(TracePhase::WaitingReady, TraceEvent::ReadyObserved { ready: true });
    assert!(t.connect);
    let t2 = trace_step(TracePhase::Connecting, TraceEvent::ConnectOk { now: 7 });
    assert_eq!(t2.next, TracePhase::Streaming { started_at: 7 });

    // still no heartbeat when the window runs out: readiness drops
    let s2 = hb_step(s.next, HbEvent::OptimisticWindowElapsed, 60);
    assert_eq!(s2.publish, Some(false));
    assert_eq!(s2.next, HbPhase::Disconnected);

    // the streamer merges what it covered up to the drop
    let mut coverage = ActivityCoverage::new();
    let t3 = trace_step(t2.next, TraceEvent::ReadinessCycled { dropped_at: 420 });
    apply_merge(&mut coverage, t3.merge);
    assert_eq!(coverage.intervals().as_slice(), &[tr(7, 420)]);
}

#[test]
fn trace_does_not_connect_without_readiness() {
    let t = trace_step(TracePhase::WaitingReady, TraceEvent::ReadyObserved { ready: false });
    assert!(!t.connect);
    assert_eq!(t.next, TracePhase::WaitingReady);
    assert_eq!(t.sleep_secs, 5);
}

#[test]
fn reconnect_race_scenario() {
    // streaming since 1000; readiness drops at 1500 and rises at 1503
    let mut coverage = ActivityCoverage::new();
    let t = trace_step(
        TracePhase::Streaming { started_at: 1000 },
        TraceEvent::ReadinessCycled { dropped_at: 1500 },
    );
    assert_eq!(t.merge, Some(tr(1000, 1500)));
    assert_eq!(t.next, TracePhase::WaitingReady);
    apply_merge(&mut coverage, t.merge);

    // exactly one merge: the next steps carry none
    let t2 = trace_step(t.next, TraceEvent::ReadyObserved { ready: true });
    assert_eq!(t2.merge, None);
    let t3 = trace_step(t2.next, TraceEvent::ConnectOk { now: 1503 });
    assert_eq!(t3.merge, None);
    assert_eq!(t3.next, TracePhase::Streaming { started_at: 1503 });
    assert_eq!(coverage.intervals().as_slice(), &[tr(1000, 1500)]);
}

#[test]
fn transport_failure_merges_and_backs_off() {
    let t = trace_step(
        TracePhase::Streaming { started_at: 100 },
        TraceEvent::TransportFailed { now: 180 },
    );
    assert_eq!(t.merge, Some(tr(100, 180)));
    assert_eq!(t.sleep_secs, 5);
    assert!(!t.fatal);
}

#[test]
fn write_failure_is_fatal_without_merge() {
    let t = trace_step(TracePhase::Streaming { started_at: 100 }, TraceEvent::WriteFailed);
    assert!(t.fatal);
    assert_eq!(t.merge, None);
    assert_eq!(t.next, TracePhase::Failed);
}

#[test]
fn records_are_framed_as_ndjson_lines() {
    assert_eq!(frame_record("{\"msg\":\"hi\"}"), "{\"msg\":\"hi\"}\n");
    assert_eq!(frame_record(""), "\n");
}

#[test]
fn device_paths_are_exact() {
    let pairing: Vec<u8> = vec![1, 2, 3];
    let d = Device::new("UDID1", &pairing, "10.0.0.5", "collector", "/var/data");
    assert_eq!(d.base_dir(), "/var/data/UDID1");
    assert_eq!(d.get_heartbeat_dir(), "/var/data/UDID1/heartbeat");
    assert_eq!(d.get_syslog_dir(), "/var/data/UDID1/syslog");
    assert_eq!(d.get_connection_dir(), "/var/data/UDID1/connection");
    assert_eq!(d.get_crashes_dir(), "/var/data/UDID1/crashes");
    assert_eq!(d.get_crash_files_dir(), "/var/data/UDID1/crashes/files");
    assert_eq!(d.get_os_trace_log_dir(), "/var/data/UDID1/os_trace/log");
    assert_eq!(d.get_os_trace_archive_dir(), "/var/data/UDID1/os_trace/archive");
    assert_eq!(d.get_activity_coverage_dir(), "/var/data/UDID1/activity_coverage");
    assert_eq!(d.get_pairing_file_name(), "UDID1.plist");
    assert_eq!(d.get_pairing_file_path(), "/var/data/UDID1/connection/UDID1.plist");
    assert_eq!(d.get_log_file_name(), "UDID1.log");
    assert_eq!(
        d.get_activity_coverage_file_path(),
        "/var/data/UDID1/activity_coverage/activity_coverage.json"
    );
    assert_eq!(d.get_known_crashes_file_path(), "/var/data/UDID1/crashes/known_crashes.json");
    assert_eq!(d.get_known_crash_dirs_file_path(), "/var/data/UDID1/crashes/known_dirs.json");
    assert_eq!(
        d.get_hb_last_established_file_path(),
        "/var/data/UDID1/heartbeat/heartbeat_last_established.json"
    );
    assert_eq!(d.get_archive_name(1234), "UDID1_1234.tar");
}

#[test]
fn device_sub_dirs_are_exact() {
    let d = Device::new("U", &vec![], "127.0.0.1", "l", "/b");
    let dirs = d.sub_dirs();
    let expected = [
        "/b/U/info",
        "/b/U/connection",
        "/b/U/heartbeat",
        "/b/U/crashes",
        "/b/U/crashes/files",
        "/b/U/syslog",
        "/b/U/os_trace",
        "/b/U/os_trace/log",
        "/b/U/os_trace/archive",
        "/b/U/os_trace/pid",
        "/b/U/activity_coverage",
    ];
    assert_eq!(dirs.len(), expected.len());
    for (got, want) in dirs.iter().zip(expected.iter()) {
        assert_eq!(got, want);
    }
}

#[test]
fn connection_labels_sessions_per_service() {
    let c = Connection::new(&vec![9], "10.0.0.5", "collector");
    assert_eq!(c.service_label("heartbeat"), "collector-heartbeat");
    assert_eq!(c.service_label("crashes"), "collector-crashes");
    assert_eq!(c.ip_addr, "10.0.0.5");
    assert_eq!(c.pairing_record, vec![9]);
}

#[test]
fn device_state_loads_and_updates() {
    let mut d = Device::new("U", &vec![], "127.0.0.1", "l", "/b");
    assert_eq!(d.heartbeat, HeartBeat { last_established: 0 });

    let mut cov = ActivityCoverage::new();
    cov.add_range(tr(10, 20));
    let stored = cov.to_json();
    assert!(d.load_activity_coverage(Some(&stored)).is_ok());
    assert_eq!(d.activity_coverage.intervals().as_slice(), &[tr(10, 20)]);
    assert!(d.load_activity_coverage(Some("garbage")).is_err());
    assert_eq!(d.activity_coverage.intervals().as_slice(), &[tr(10, 20)]);

    assert!(d.load_known_crashes(Some("[\"a.ips\"]"), None).is_ok());
    assert!(d.crashes.contains_file("a.ips"));

    let record = d.update_hb_last_established(0);
    assert_eq!(d.heartbeat.last_established, 0);
    assert_eq!(record, "\"1970-01-01T00:00:00+00:00\"");
}

#[test]
fn config_hands_out_its_base_dir() {
    let c = Config::new(60, "/var/data".to_string(), vec!["key1".to_string()]);
    assert_eq!(c.get_base_dir(), "/var/data");
    assert_eq!(c.settings.refresh_rate_secs, 60);
    assert_eq!(c.encryption.public_keys, vec!["key1".to_string()]);
}

#[test]
fn info_keeps_the_udid() {
    let i = Info::new("ABCDEF");
    assert_eq!(i.udid, "ABCDEF");
}
