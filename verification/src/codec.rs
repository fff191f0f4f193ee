use vstd::prelude::*;

verus! {

use crate::coverage::{ActivityCoverage, TimeRange, wf_seq, MAX_TS, lemma_consecutive_wf};
use crate::errors::PersistError;
use crate::jsoncodec::{json_of_pairs, encode_pairs, decode_pairs, views_of_pairs};
use crate::timefmt::{rfc3339_of, format_rfc3339, parse_rfc3339};

/// The RFC 3339 pair of one interval.
pub open spec fn pair_of_range(r: TimeRange) -> (Seq<char>, Seq<char>) {
    (rfc3339_of(r.start), rfc3339_of(r.end))
}

/// The RFC 3339 pairs of a coverage sequence.
pub open spec fn coverage_pairs_of(s: Seq<TimeRange>) -> Seq<(Seq<char>, Seq<char>)> {
    s.map_values(|r: TimeRange| pair_of_range(r))
}

/// The persisted form of a coverage sequence: a JSON array of
/// `[start, end)` pairs of RFC 3339 UTC strings, ascending by start.
pub open spec fn coverage_json_of(s: Seq<TimeRange>) -> Seq<char> {
    json_of_pairs(coverage_pairs_of(s))
}

impl TimeRange {
    /// The two RFC 3339 texts of the interval's bounds.
    pub fn to_rfc3339_range(&self) -> (r: (String, String))
        requires
            self.start <= MAX_TS,
            self.end <= MAX_TS,
        ensures
            r.0@ == rfc3339_of(self.start),
            r.1@ == rfc3339_of(self.end),
    {
        (format_rfc3339(self.start), format_rfc3339(self.end))
    }

    /// Rebuild an interval from two RFC 3339 texts; the formatter's own
    /// output always converts back.
    pub fn from_rfc3339_range(start: &str, end: &str) -> (r: Result<TimeRange, PersistError>)
        ensures
            forall|a: u64, b: u64|
                a <= MAX_TS && b <= MAX_TS && start@ == rfc3339_of(a) && end@ == rfc3339_of(b)
                    ==> r == Ok::<TimeRange, PersistError>((TimeRange { start: a, end: b })),
            r matches Ok(tr) ==> tr.start <= MAX_TS && tr.end <= MAX_TS,
    {
        match parse_rfc3339(start) {
            Some(a) => match parse_rfc3339(end) {
                Some(b) => Ok(TimeRange { start: a, end: b }),
                None => Err(PersistError::Timestamp),
            },
            None => Err(PersistError::Timestamp),
        }
    }
}

impl ActivityCoverage {
    /// Serialize the set in its persisted JSON form.
    pub fn to_json(&self) -> (r: String)
        requires
            self.wf(),
        ensures
            r@ == coverage_json_of(self@),
    {
        let ivs = self.intervals();
        let n = ivs.len();
        let mut pairs: Vec<(String, String)> = Vec::new();
        let mut i: usize = 0;
        while i < n
            invariant
                self.wf(),
                n == self@.len(),
                ivs@ == self@,
                0 <= i <= n,
                pairs@.len() == i,
                forall|j: int|
                    0 <= j < i ==> (#[trigger] pairs@[j]).0@ == rfc3339_of(self@[j].start)
                        && pairs@[j].1@ == rfc3339_of(self@[j].end),
            decreases n - i,
        {
            let tr = ivs[i];
            let (a, b) = tr.to_rfc3339_range();
            pairs.push((a, b));
            i = i + 1;
        }
        let r = encode_pairs(&pairs);
        proof {
            assert forall|j: int|
                0 <= j < n implies views_of_pairs(pairs@)[j] == coverage_pairs_of(self@)[j] by {
                assert(views_of_pairs(pairs@)[j] == (pairs@[j].0@, pairs@[j].1@));
                assert(coverage_pairs_of(self@)[j] == pair_of_range(self@[j]));
            }
            assert(views_of_pairs(pairs@) =~= coverage_pairs_of(self@));
        }
        r
    }

    /// Rebuild a set from its persisted JSON form. Text that the serializer
    /// produced for a normalized set always converts back to that set; text
    /// that is not valid JSON, holds an unparsable timestamp, or holds
    /// intervals out of normal form is rejected with the matching error.
    pub fn from_json(s: &str) -> (r: Result<ActivityCoverage, PersistError>)
        ensures
            forall|cov: Seq<TimeRange>|
                wf_seq(cov) && s@ == coverage_json_of(cov) ==> (r matches Ok(c) && c@ == cov),
            r matches Ok(c) ==> c.wf(),
    {
        let pairs = match decode_pairs(s) {
            Some(p) => p,
            None => {
                return Err(PersistError::Json);
            },
        };
        let n = pairs.len();
        let mut out: Vec<TimeRange> = Vec::new();
        let mut i: usize = 0;
        while i < n
            invariant
                forall|items: Seq<(Seq<char>, Seq<char>)>|
                    s@ == json_of_pairs(items) ==> views_of_pairs(pairs@) == items,
                n == pairs@.len(),
                0 <= i <= n,
                out@.len() == i,
                forall|j: int, a: u64, b: u64|
                    0 <= j < i && a <= MAX_TS && b <= MAX_TS && (#[trigger] pairs@[j]).0@
                        == #[trigger] rfc3339_of(a) && pairs@[j].1@ == #[trigger] rfc3339_of(b) ==> out@[j] == (
                    TimeRange { start: a, end: b }),
                forall|j: int|
                    0 <= j < i ==> (#[trigger] out@[j]).start <= MAX_TS && out@[j].end <= MAX_TS,
            decreases n - i,
        {
            let tr = match TimeRange::from_rfc3339_range(pairs[i].0.as_str(), pairs[i].1.as_str()) {
                Ok(tr) => tr,
                Err(_) => {
                    proof {
                        lemma_no_canonical_source(s@, pairs@, i as int);
                    }
                    return Err(PersistError::Timestamp);
                },
            };
            out.push(tr);
            i = i + 1;
        }
        let mut k: usize = 0;
        while k < n
            invariant
                forall|items: Seq<(Seq<char>, Seq<char>)>|
                    s@ == json_of_pairs(items) ==> views_of_pairs(pairs@) == items,
                n == pairs@.len(),
                n == out@.len(),
                0 <= k <= n,
                forall|j: int, a: u64, b: u64|
                    0 <= j < n && a <= MAX_TS && b <= MAX_TS && (#[trigger] pairs@[j]).0@
                        == #[trigger] rfc3339_of(a) && pairs@[j].1@ == #[trigger] rfc3339_of(b) ==> out@[j] == (
                    TimeRange { start: a, end: b }),
                forall|j: int|
                    0 <= j < n ==> (#[trigger] out@[j]).start <= MAX_TS && out@[j].end <= MAX_TS,
                forall|j: int| 0 <= j < k ==> (#[trigger] out@[j]).start < out@[j].end,
                forall|j: int| 0 <= j < k && j < n - 1 ==> (#[trigger] out@[j]).end < out@[j
                    + 1].start,
            decreases n - k,
        {
            let cur = out[k];
            if !(cur.start < cur.end) {
                proof {
                    lemma_not_normalized(s@, pairs@, out@);
                }
                return Err(PersistError::NotNormalized);
            }
            if k + 1 < n {
                let next = out[k + 1];
                if !(cur.end < next.start) {
                    proof {
                        lemma_not_normalized(s@, pairs@, out@);
                    }
                    return Err(PersistError::NotNormalized);
                }
            }
            k = k + 1;
        }
        proof {
            lemma_consecutive_wf(out@);
            assert forall|cov: Seq<TimeRange>|
                wf_seq(cov) && s@ == coverage_json_of(cov) implies out@ == cov by {
                lemma_decoded_matches(s@, pairs@, out@, cov);
            }
        }
        Ok(ActivityCoverage::from_normalized(out))
    }
}

/// If the decoded pairs match the canonical pairs of some normalized
/// sequence, every prefix of parses succeeds; so a failed parse at `i`
/// means no normalized sequence serializes to `s`.
proof fn lemma_no_canonical_source(s: Seq<char>, pairs: Seq<(String, String)>, i: int)
    requires
        0 <= i < pairs.len(),
        forall|items: Seq<(Seq<char>, Seq<char>)>|
            s == json_of_pairs(items) ==> views_of_pairs(pairs) == items,
        forall|a: u64, b: u64|
            a <= MAX_TS && b <= MAX_TS && pairs[i].0@ == rfc3339_of(a) && pairs[i].1@
                == rfc3339_of(b) ==> false,
    ensures
        forall|cov: Seq<TimeRange>| wf_seq(cov) && s == coverage_json_of(cov) ==> false,
{
    assert forall|cov: Seq<TimeRange>| wf_seq(cov) && s == coverage_json_of(cov) implies false by {
        assert(views_of_pairs(pairs) == coverage_pairs_of(cov));
        assert(coverage_pairs_of(cov)[i] == pair_of_range(cov[i]));
        assert(views_of_pairs(pairs)[i] == (pairs[i].0@, pairs[i].1@));
        assert(cov[i].start < cov[i].end && cov[i].end <= MAX_TS);
        assert(pairs[i].0@ == rfc3339_of(cov[i].start));
        assert(pairs[i].1@ == rfc3339_of(cov[i].end));
    }
}

/// If the parsed intervals match some normalized source, they are in normal
/// form; so intervals out of normal form mean no normalized sequence
/// serializes to `s`.
proof fn lemma_not_normalized(s: Seq<char>, pairs: Seq<(String, String)>, out: Seq<TimeRange>)
    requires
        out.len() == pairs.len(),
        forall|items: Seq<(Seq<char>, Seq<char>)>|
            s == json_of_pairs(items) ==> views_of_pairs(pairs) == items,
        forall|j: int, a: u64, b: u64|
            0 <= j < pairs.len() && a <= MAX_TS && b <= MAX_TS && (#[trigger] pairs[j]).0@
                == #[trigger] rfc3339_of(a) && pairs[j].1@ == #[trigger] rfc3339_of(b) ==> out[j] == (TimeRange {
                start: a,
                end: b,
            }),
    ensures
        forall|cov: Seq<TimeRange>| wf_seq(cov) && s == coverage_json_of(cov) ==> wf_seq(out),
{
    assert forall|cov: Seq<TimeRange>|
        wf_seq(cov) && s == coverage_json_of(cov) implies wf_seq(out) by {
        lemma_decoded_matches(s, pairs, out, cov);
    }
}

/// A normalized source that serializes to `s` is recovered exactly by the
/// decoded-and-parsed intervals.
proof fn lemma_decoded_matches(
    s: Seq<char>,
    pairs: Seq<(String, String)>,
    out: Seq<TimeRange>,
    cov: Seq<TimeRange>,
)
    requires
        out.len() == pairs.len(),
        forall|items: Seq<(Seq<char>, Seq<char>)>|
            s == json_of_pairs(items) ==> views_of_pairs(pairs) == items,
        forall|j: int, a: u64, b: u64|
            0 <= j < pairs.len() && a <= MAX_TS && b <= MAX_TS && (#[trigger] pairs[j]).0@
                == #[trigger] rfc3339_of(a) && pairs[j].1@ == #[trigger] rfc3339_of(b) ==> out[j] == (TimeRange {
                start: a,
                end: b,
            }),
        wf_seq(cov),
        s == coverage_json_of(cov),
    ensures
        out == cov,
{
    assert(views_of_pairs(pairs) == coverage_pairs_of(cov));
    assert(pairs.len() == cov.len());
    assert forall|j: int| 0 <= j < cov.len() implies out[j] == cov[j] by {
        assert(coverage_pairs_of(cov)[j] == pair_of_range(cov[j]));
        assert(views_of_pairs(pairs)[j] == (pairs[j].0@, pairs[j].1@));
        assert(cov[j].start < cov[j].end && cov[j].end <= MAX_TS);
        assert(pairs[j].0@ == rfc3339_of(cov[j].start));
        assert(pairs[j].1@ == rfc3339_of(cov[j].end));
    }
    assert(out =~= cov);
}

/// Load a coverage set from what was found on disk: a missing or empty file
/// yields the empty set, anything else is parsed as the persisted JSON form.
pub fn coverage_from_file_content(content: Option<&str>) -> (r: Result<
    ActivityCoverage,
    PersistError,
>)
    ensures
        r matches Ok(c) ==> c.wf(),
        match content {
            Some(s) => if s@.len() == 0 {
                r matches Ok(c) && c@ == Seq::<TimeRange>::empty()
            } else {
                forall|cov: Seq<TimeRange>|
                    wf_seq(cov) && s@ == coverage_json_of(cov) ==> (r matches Ok(c) && c@ == cov)
            },
            None => r matches Ok(c) && c@ == Seq::<TimeRange>::empty(),
        },
{
    match content {
        None => Ok(ActivityCoverage::new()),
        Some(s) => {
            if s.is_empty() {
                Ok(ActivityCoverage::new())
            } else {
                ActivityCoverage::from_json(s)
            }
        },
    }
}

} // verus!
