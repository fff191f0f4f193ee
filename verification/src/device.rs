use vstd::prelude::*;

verus! {

use crate::codec::{coverage_from_file_content, coverage_json_of};
use crate::coverage::{ActivityCoverage, TimeRange, wf_seq, MAX_TS};
use crate::crashes::{Crashes, joined_path, component_decodes_to, chars_set};
use crate::errors::PersistError;
use crate::heartbeat::{HeartBeat, heartbeat_record_of, heartbeat_record_json};
use crate::strutil::concat_strs;
use crate::timefmt::{dec_digits, u64_to_string};

/// The stable identity of one device.
#[derive(Clone, Debug)]
pub struct Info {
    pub udid: String,
}

impl Info {
    pub fn new(udid: &str) -> (r: Info)
        ensures
            r.udid@ == udid@,
    {
        Info { udid: udid.to_owned() }
    }
}

/// The immutable connection descriptor: the device's network address, the
/// opaque pairing record issued by enrollment, and the label under which
/// sessions are opened.
#[derive(Clone, Debug)]
pub struct Connection {
    pub ip_addr: String,
    pub pairing_record: Vec<u8>,
    pub label: String,
}

/// Copy a byte vector.
fn copy_bytes(v: &Vec<u8>) -> (r: Vec<u8>)
    ensures
        r@ == v@,
{
    let mut r: Vec<u8> = Vec::new();
    let mut i: usize = 0;
    while i < v.len()
        invariant
            0 <= i <= v@.len(),
            r@ == v@.take(i as int),
        decreases v@.len() - i,
    {
        r.push(v[i]);
        proof {
            assert(v@.take(i + 1) =~= v@.take(i as int).push(v@[i as int]));
        }
        i = i + 1;
    }
    proof {
        assert(v@.take(v@.len() as int) =~= v@);
    }
    r
}

impl Connection {
    pub fn new(pairing_record: &Vec<u8>, ip_addr: &str, label: &str) -> (r: Connection)
        ensures
            r.ip_addr@ == ip_addr@,
            r.pairing_record@ == pairing_record@,
            r.label@ == label@,
    {
        Connection {
            ip_addr: ip_addr.to_owned(),
            pairing_record: copy_bytes(pairing_record),
            label: label.to_owned(),
        }
    }

    /// The label under which one collector opens its own session, so the
    /// transport can tell concurrent sessions apart.
    pub fn service_label(&self, suffix: &str) -> (r: String)
        ensures
            r@ == self.label@ + "-"@ + suffix@,
    {
        concat_strs(concat_strs(self.label.as_str(), "-").as_str(), suffix)
    }
}

/// The per-device supervisor's state: identity, connection descriptor,
/// heartbeat record, Known-Set, Coverage Set, and the artifact root.
#[derive(Clone, Debug)]
pub struct Device {
    pub info: Info,
    pub connection: Connection,
    pub heartbeat: HeartBeat,
    pub crashes: Crashes,
    pub activity_coverage: ActivityCoverage,
    pub base_dir: String,
}

impl Device {
    pub fn new(udid: &str, pairing_record: &Vec<u8>, ip_addr: &str, label: &str, base_dir: &str)
        -> (r: Device)
        ensures
            r.info.udid@ == udid@,
            r.connection.ip_addr@ == ip_addr@,
            r.connection.pairing_record@ == pairing_record@,
            r.connection.label@ == label@,
            r.heartbeat.last_established == 0,
            r.crashes.wf(),
            r.crashes.files_set() == Set::<Seq<char>>::empty(),
            r.crashes.dirs_set() == Set::<Seq<char>>::empty(),
            r.activity_coverage.wf(),
            r.activity_coverage@.len() == 0,
            r.base_dir@ == base_dir@,
    {
        Device {
            info: Info::new(udid),
            connection: Connection::new(pairing_record, ip_addr, label),
            heartbeat: HeartBeat::new(),
            crashes: Crashes::new(),
            activity_coverage: ActivityCoverage::new(),
            base_dir: base_dir.to_owned(),
        }
    }

    /// This device's artifact root: the base directory with the UDID under
    /// it.
    pub fn base_dir(&self) -> (r: String)
        ensures
            r@ == joined_path(self.base_dir@, self.info.udid@),
    {
        concat_strs(concat_strs(self.base_dir.as_str(), "/").as_str(), self.info.udid.as_str())
    }

    /// A subtree of this device's artifact root.
    fn sub_dir(&self, name: &str) -> (r: String)
        ensures
            r@ == joined_path(joined_path(self.base_dir@, self.info.udid@), name@),
    {
        let base = self.base_dir();
        concat_strs(concat_strs(base.as_str(), "/").as_str(), name)
    }

    pub fn get_heartbeat_dir(&self) -> (r: String)
        ensures
            r@ == joined_path(joined_path(self.base_dir@, self.info.udid@), "heartbeat"@),
    {
        self.sub_dir("heartbeat")
    }

    pub fn get_syslog_dir(&self) -> (r: String)
        ensures
            r@ == joined_path(joined_path(self.base_dir@, self.info.udid@), "syslog"@),
    {
        self.sub_dir("syslog")
    }

    pub fn get_connection_dir(&self) -> (r: String)
        ensures
            r@ == joined_path(joined_path(self.base_dir@, self.info.udid@), "connection"@),
    {
        self.sub_dir("connection")
    }

    pub fn get_crashes_dir(&self) -> (r: String)
        ensures
            r@ == joined_path(joined_path(self.base_dir@, self.info.udid@), "crashes"@),
    {
        self.sub_dir("crashes")
    }

    pub fn get_crash_files_dir(&self) -> (r: String)
        ensures
            r@ == joined_path(joined_path(self.base_dir@, self.info.udid@), "crashes/files"@),
    {
        self.sub_dir("crashes/files")
    }

    pub fn get_os_trace_log_dir(&self) -> (r: String)
        ensures
            r@ == joined_path(joined_path(self.base_dir@, self.info.udid@), "os_trace/log"@),
    {
        self.sub_dir("os_trace/log")
    }

    pub fn get_os_trace_archive_dir(&self) -> (r: String)
        ensures
            r@ == joined_path(joined_path(self.base_dir@, self.info.udid@), "os_trace/archive"@),
    {
        self.sub_dir("os_trace/archive")
    }

    pub fn get_activity_coverage_dir(&self) -> (r: String)
        ensures
            r@ == joined_path(
                joined_path(self.base_dir@, self.info.udid@),
                "activity_coverage"@,
            ),
    {
        self.sub_dir("activity_coverage")
    }

    /// The pairing record's file name: the UDID with a plist suffix.
    pub fn get_pairing_file_name(&self) -> (r: String)
        ensures
            r@ == self.info.udid@ + ".plist"@,
    {
        concat_strs(self.info.udid.as_str(), ".plist")
    }

    pub fn get_pairing_file_path(&self) -> (r: String)
        ensures
            r@ == joined_path(
                joined_path(joined_path(self.base_dir@, self.info.udid@), "connection"@),
                self.info.udid@ + ".plist"@,
            ),
    {
        let dir = self.get_connection_dir();
        let name = self.get_pairing_file_name();
        concat_strs(concat_strs(dir.as_str(), "/").as_str(), name.as_str())
    }

    /// The per-device diagnostic log's file name.
    pub fn get_log_file_name(&self) -> (r: String)
        ensures
            r@ == self.info.udid@ + ".log"@,
    {
        concat_strs(self.info.udid.as_str(), ".log")
    }

    pub fn get_activity_coverage_file_path(&self) -> (r: String)
        ensures
            r@ == joined_path(
                joined_path(joined_path(self.base_dir@, self.info.udid@), "activity_coverage"@),
                "activity_coverage.json"@,
            ),
    {
        let dir = self.get_activity_coverage_dir();
        concat_strs(concat_strs(dir.as_str(), "/").as_str(), "activity_coverage.json")
    }

    pub fn get_known_crashes_file_path(&self) -> (r: String)
        ensures
            r@ == joined_path(
                joined_path(joined_path(self.base_dir@, self.info.udid@), "crashes"@),
                "known_crashes.json"@,
            ),
    {
        let dir = self.get_crashes_dir();
        concat_strs(concat_strs(dir.as_str(), "/").as_str(), "known_crashes.json")
    }

    pub fn get_known_crash_dirs_file_path(&self) -> (r: String)
        ensures
            r@ == joined_path(
                joined_path(joined_path(self.base_dir@, self.info.udid@), "crashes"@),
                "known_dirs.json"@,
            ),
    {
        let dir = self.get_crashes_dir();
        concat_strs(concat_strs(dir.as_str(), "/").as_str(), "known_dirs.json")
    }

    pub fn get_hb_last_established_file_path(&self) -> (r: String)
        ensures
            r@ == joined_path(
                joined_path(joined_path(self.base_dir@, self.info.udid@), "heartbeat"@),
                "heartbeat_last_established.json"@,
            ),
    {
        let dir = self.get_heartbeat_dir();
        concat_strs(concat_strs(dir.as_str(), "/").as_str(), "heartbeat_last_established.json")
    }

    /// The name under which an archive beginning at `epoch_secs` is stored.
    pub fn get_archive_name(&self, epoch_secs: u64) -> (r: String)
        ensures
            r@ == self.info.udid@ + "_"@ + dec_digits(epoch_secs as nat) + ".tar"@,
    {
        let num = u64_to_string(epoch_secs);
        let head = concat_strs(concat_strs(self.info.udid.as_str(), "_").as_str(), num.as_str());
        concat_strs(head.as_str(), ".tar")
    }

    /// Load the Coverage Set from the persisted file content. A missing or
    /// empty file yields the empty set; text that the serializer produced
    /// converts back exactly; unparsable text leaves the device unchanged
    /// and reports failure.
    pub fn load_activity_coverage(&mut self, content: Option<&str>) -> (r: Result<
        (),
        PersistError,
    >)
        ensures
            final(self).info == old(self).info,
            final(self).connection == old(self).connection,
            final(self).heartbeat == old(self).heartbeat,
            final(self).crashes == old(self).crashes,
            final(self).base_dir == old(self).base_dir,
            r is Ok ==> final(self).activity_coverage.wf(),
            r is Err ==> *final(self) == *old(self),
            match content {
                Some(s) => if s@.len() == 0 {
                    r is Ok && final(self).activity_coverage@ == Seq::<TimeRange>::empty()
                } else {
                    forall|cov: Seq<TimeRange>|
                        wf_seq(cov) && s@ == coverage_json_of(cov) ==> r is Ok
                            && final(self).activity_coverage@ == cov
                },
                None => r is Ok && final(self).activity_coverage@ == Seq::<TimeRange>::empty(),
            },
    {
        match coverage_from_file_content(content) {
            Ok(c) => {
                self.activity_coverage = c;
                Ok(())
            },
            Err(e) => Err(e),
        }
    }

    /// Seed the Known-Set from the two persisted files, so artifacts
    /// captured before a restart are not fetched again. Unparsable text
    /// leaves the device unchanged and reports failure.
    pub fn load_known_crashes(&mut self, files_content: Option<&str>, dirs_content: Option<&str>)
        -> (r: Result<(), PersistError>)
        ensures
            final(self).info == old(self).info,
            final(self).connection == old(self).connection,
            final(self).heartbeat == old(self).heartbeat,
            final(self).activity_coverage == old(self).activity_coverage,
            final(self).base_dir == old(self).base_dir,
            r is Ok ==> final(self).crashes.wf(),
            r is Err ==> *final(self) == *old(self),
            forall|fs: Seq<Seq<char>>, ds: Seq<Seq<char>>|
                component_decodes_to(files_content, fs) && component_decodes_to(dirs_content, ds)
                    ==> r is Ok && final(self).crashes.files_set() == chars_set(fs).difference(
                    chars_set(ds),
                ) && final(self).crashes.dirs_set() == chars_set(ds),
    {
        match Crashes::from_json(files_content, dirs_content) {
            Ok(c) => {
                self.crashes = c;
                Ok(())
            },
            Err(e) => Err(e),
        }
    }

    /// Remember a (re-)established heartbeat session and hand back the JSON
    /// text to persist for it.
    pub fn update_hb_last_established(&mut self, now: u64) -> (r: String)
        requires
            now <= MAX_TS,
        ensures
            final(self).heartbeat.last_established == now,
            final(self).info == old(self).info,
            final(self).connection == old(self).connection,
            final(self).crashes == old(self).crashes,
            final(self).activity_coverage == old(self).activity_coverage,
            final(self).base_dir == old(self).base_dir,
            r@ == heartbeat_record_of(now),
    {
        self.heartbeat.update_last_established(now);
        heartbeat_record_json(now)
    }

    /// The subtrees of this device's artifact root, created once at
    /// startup.
    pub fn sub_dirs(&self) -> (r: Vec<String>)
        ensures
            r@.len() == 11,
            forall|i: int|
                0 <= i < r@.len() ==> (#[trigger] r@[i])@ == joined_path(
                    joined_path(self.base_dir@, self.info.udid@),
                    sub_dir_names()[i],
                ),
    {
        let mut r: Vec<String> = Vec::new();
        r.push(self.sub_dir("info"));
        r.push(self.sub_dir("connection"));
        r.push(self.sub_dir("heartbeat"));
        r.push(self.sub_dir("crashes"));
        r.push(self.sub_dir("crashes/files"));
        r.push(self.sub_dir("syslog"));
        r.push(self.sub_dir("os_trace"));
        r.push(self.sub_dir("os_trace/log"));
        r.push(self.sub_dir("os_trace/archive"));
        r.push(self.sub_dir("os_trace/pid"));
        r.push(self.sub_dir("activity_coverage"));
        proof {
            assert forall|i: int|
                0 <= i < r@.len() implies (#[trigger] r@[i])@ == joined_path(
                joined_path(self.base_dir@, self.info.udid@),
                sub_dir_names()[i],
            ) by {
                assert(sub_dir_names()[i] == seq![
                    "info"@,
                    "connection"@,
                    "heartbeat"@,
                    "crashes"@,
                    "crashes/files"@,
                    "syslog"@,
                    "os_trace"@,
                    "os_trace/log"@,
                    "os_trace/archive"@,
                    "os_trace/pid"@,
                    "activity_coverage"@,
                ][i]);
            }
        }
        r
    }
}

/// The relative names of the per-device subtrees.
pub open spec fn sub_dir_names() -> Seq<Seq<char>> {
    seq![
        "info"@,
        "connection"@,
        "heartbeat"@,
        "crashes"@,
        "crashes/files"@,
        "syslog"@,
        "os_trace"@,
        "os_trace/log"@,
        "os_trace/archive"@,
        "os_trace/pid"@,
        "activity_coverage"@,
    ]
}

} // verus!
