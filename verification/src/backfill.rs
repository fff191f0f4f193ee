use vstd::prelude::*;

verus! {

use crate::coverage::{TimeRange, ActivityCoverage, MAX_TS, add_spec};

/// Delay after a failed archive request before the next gap is tried.
pub const ARCHIVE_RETRY_WAIT_SECS: u64 = 60;

/// Delay between two backfill rounds.
pub const ARCHIVE_ROUND_WAIT_SECS: u64 = 60;

/// Delay before a failed relay connection is retried.
pub const ARCHIVE_CONNECT_RETRY_SECS: u64 = 5;

/// The size hint handed to the relay with each archive request.
pub const ARCHIVE_SIZE_LIMIT_HINT: u64 = 5;

/// The age limit handed to the relay with each archive request.
pub const ARCHIVE_AGE_LIMIT: u64 = 1;

/// The backfiller connects only when readiness is up and there is a gap to
/// fill.
pub fn backfill_should_connect(ready: bool, gaps_empty: bool) -> (r: bool)
    ensures
        r == (ready && !gaps_empty),
{
    ready && !gaps_empty
}

/// The parameters of one archive request.
#[derive(Clone, Copy, Debug, PartialEq, Eq, Structural)]
pub struct ArchiveRequest {
    pub size_limit_hint: u64,
    pub age_limit: u64,
    pub start_epoch: u64,
}

/// The archive request that fills one gap: it starts where the gap starts.
pub fn archive_request_for_gap(gap: TimeRange) -> (r: ArchiveRequest)
    ensures
        r.size_limit_hint == ARCHIVE_SIZE_LIMIT_HINT,
        r.age_limit == ARCHIVE_AGE_LIMIT,
        r.start_epoch == gap.start,
{
    ArchiveRequest {
        size_limit_hint: ARCHIVE_SIZE_LIMIT_HINT,
        age_limit: ARCHIVE_AGE_LIMIT,
        start_epoch: gap.start,
    }
}

/// Record the outcome of one archive request: on success the whole
/// requested gap is merged into the Coverage Set; on failure nothing
/// changes and the next gap waits for the retry delay.
pub fn note_archive_result(coverage: &mut ActivityCoverage, gap: TimeRange, success: bool) -> (
    sleep_secs: u64)
    requires
        old(coverage).wf(),
        gap.end <= MAX_TS,
    ensures
        final(coverage).wf(),
        success ==> final(coverage)@ == add_spec(old(coverage)@, gap) && sleep_secs == 0,
        !success ==> final(coverage)@ == old(coverage)@ && sleep_secs
            == ARCHIVE_RETRY_WAIT_SECS,
{
    if success {
        coverage.add_range(gap);
        0
    } else {
        ARCHIVE_RETRY_WAIT_SECS
    }
}

/// The smallest value in a non-empty sequence.
pub open spec fn seq_min(s: Seq<u64>) -> u64
    recommends
        s.len() > 0,
    decreases s.len(),
{
    if s.len() <= 1 {
        s[0]
    } else if s[0] <= seq_min(s.drop_first()) {
        s[0]
    } else {
        seq_min(s.drop_first())
    }
}

/// The earliest wall-clock second among an archive's metadata sections,
/// if any section reported one.
pub fn earliest_wall_time(candidates: &Vec<u64>) -> (r: Option<u64>)
    ensures
        candidates@.len() == 0 ==> r is None,
        candidates@.len() > 0 ==> r == Some(seq_min(candidates@)),
{
    if candidates.len() == 0 {
        return None;
    }
    let mut best = candidates[0];
    let mut i: usize = 1;
    while i < candidates.len()
        invariant
            candidates@.len() > 0,
            1 <= i <= candidates@.len(),
            best == seq_min(candidates@.take(i as int)),
        decreases candidates@.len() - i,
    {
        proof {
            lemma_seq_min_extend(candidates@, i as int);
        }
        if candidates[i] < best {
            best = candidates[i];
        }
        i = i + 1;
    }
    proof {
        assert(candidates@.take(candidates@.len() as int) =~= candidates@);
    }
    Some(best)
}

/// Extending a prefix by one element takes the minimum with it.
proof fn lemma_seq_min_extend(s: Seq<u64>, i: int)
    requires
        1 <= i < s.len(),
    ensures
        seq_min(s.take(i + 1)) == (if s[i] < seq_min(s.take(i)) {
            s[i]
        } else {
            seq_min(s.take(i))
        }),
    decreases i,
{
    let a = s.take(i + 1);
    let b = s.take(i);
    if i == 1 {
        assert(a.len() == 2);
        assert(a.drop_first() =~= seq![s[1]]);
        assert(seq_min(a.drop_first()) == s[1]);
        assert(b =~= seq![s[0]]);
    } else {
        assert(a.drop_first() =~= s.drop_first().take(i));
        assert(b.drop_first() =~= s.drop_first().take(i - 1));
        lemma_seq_min_extend(s.drop_first(), i - 1);
        assert(s.drop_first().take(i)[i - 1] == s[i]);
        assert(s.drop_first()[i - 1] == s[i]);
    }
}

/// The time interval an archive's metadata reports: defined only when both
/// a start and an end were found.
pub fn archive_time_coverage(start: Option<u64>, end: Option<u64>) -> (r: Option<TimeRange>)
    ensures
        r == match (start, end) {
            (Some(a), Some(b)) => Some((TimeRange { start: a, end: b })),
            _ => None::<TimeRange>,
        },
{
    match (start, end) {
        (Some(a), Some(b)) => Some(TimeRange { start: a, end: b }),
        _ => None,
    }
}

} // verus!
