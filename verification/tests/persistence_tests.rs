use imonitor::codec::coverage_from_file_content;
use imonitor::coverage::{ActivityCoverage, TimeRange};
use imonitor::errors::PersistError;
use imonitor::heartbeat::heartbeat_record_json;
use imonitor::timefmt::{parse_rfc3339, u64_to_string};

fn tr(start: u64, end: u64) -> TimeRange {
    TimeRange { start, end }
}

#[test]
fn rfc3339_of_epoch_is_exact() {
    let (a, b) = tr(0, 3600).to_rfc3339_range();
    assert_eq!(a, "1970-01-01T00:00:00+00:00");
    assert_eq!(b, "1970-01-01T01:00:00+00:00");
}

#[test]
fn rfc3339_pair_round_trips() {
    let (a, b) = tr(1700000000, 1700003600).to_rfc3339_range();
    let back = TimeRange::from_rfc3339_range(&a, &b).expect("canonical text must parse");
    assert_eq!(back, tr(1700000000, 1700003600));
}

#[test]
fn rfc3339_garbage_is_rejected() {
    assert_eq!(
        TimeRange::from_rfc3339_range("not a time", "also not"),
        Err(PersistError::Timestamp)
    );
    assert_eq!(parse_rfc3339(""), None);
    assert_eq!(parse_rfc3339("1969-12-31T23:59:59+00:00"), None);
}

#[test]
fn parse_accepts_zulu_form() {
    assert_eq!(parse_rfc3339("2024-01-01T00:00:00Z"), Some(1704067200));
}

#[test]
fn coverage_json_is_exact() {
    let mut c = ActivityCoverage::new();
    c.add_range(tr(0, 3600));
    let s = c.to_json();
    assert_eq!(
        s,
        "[\n  [\n    \"1970-01-01T00:00:00+00:00\",\n    \"1970-01-01T01:00:00+00:00\"\n  ]\n]"
    );
}

#[test]
fn coverage_round_trip() {
    let mut c = ActivityCoverage::new();
    c.add_range(tr(100, 200));
    c.add_range(tr(300, 400));
    c.add_range(tr(150, 250));
    let s = c.to_json();
    let back = ActivityCoverage::from_json(&s).expect("serialized form must parse");
    assert_eq!(back.intervals(), c.intervals());
}

#[test]
fn empty_coverage_round_trip() {
    let c = ActivityCoverage::new();
    let s = c.to_json();
    assert_eq!(s, "[]");
    let back = ActivityCoverage::from_json(&s).expect("serialized form must parse");
    assert_eq!(back.intervals().len(), 0);
}

#[test]
fn coverage_rejects_invalid_json() {
    assert_eq!(ActivityCoverage::from_json("not json"), Err(PersistError::Json));
    assert_eq!(ActivityCoverage::from_json("{\"covered\":[]}"), Err(PersistError::Json));
}

#[test]
fn coverage_rejects_unparsable_timestamps() {
    assert_eq!(ActivityCoverage::from_json("[[\"then\",\"later\"]]"), Err(PersistError::Timestamp));
}

#[test]
fn coverage_rejects_unnormalized_intervals() {
    // out of order
    let s = "[[\"1970-01-01T01:00:00+00:00\",\"1970-01-01T02:00:00+00:00\"],\
             [\"1970-01-01T00:00:00+00:00\",\"1970-01-01T00:30:00+00:00\"]]";
    assert_eq!(ActivityCoverage::from_json(s), Err(PersistError::NotNormalized));
    // empty interval
    let s2 = "[[\"1970-01-01T01:00:00+00:00\",\"1970-01-01T01:00:00+00:00\"]]";
    assert_eq!(ActivityCoverage::from_json(s2), Err(PersistError::NotNormalized));
    // touching intervals
    let s3 = "[[\"1970-01-01T00:00:00+00:00\",\"1970-01-01T01:00:00+00:00\"],\
              [\"1970-01-01T01:00:00+00:00\",\"1970-01-01T02:00:00+00:00\"]]";
    assert_eq!(ActivityCoverage::from_json(s3), Err(PersistError::NotNormalized));
}

#[test]
fn missing_or_empty_file_yields_empty_set() {
    let c = coverage_from_file_content(None).expect("missing file is fine");
    assert_eq!(c.intervals().len(), 0);
    let c2 = coverage_from_file_content(Some("")).expect("empty file is fine");
    assert_eq!(c2.intervals().len(), 0);
    assert_eq!(coverage_from_file_content(Some("garbage")).err(), Some(PersistError::Json));
}

#[test]
fn heartbeat_record_is_exact() {
    assert_eq!(heartbeat_record_json(0), "\"1970-01-01T00:00:00+00:00\"");
}

#[test]
fn decimal_text_is_exact() {
    assert_eq!(u64_to_string(0), "0");
    assert_eq!(u64_to_string(7), "7");
    assert_eq!(u64_to_string(1234567890), "1234567890");
    assert_eq!(u64_to_string(u64::MAX), "18446744073709551615");
}

#[test]
fn persist_error_messages() {
    assert_eq!(PersistError::Json.message(), "stored state is not the expected JSON");
    assert_eq!(PersistError::Timestamp.message(), "stored timestamp does not parse");
    assert_eq!(
        PersistError::NotNormalized.message(),
        "stored intervals are not normalized"
    );
}
