use vstd::prelude::*;

verus! {

/// Largest number of seconds since the Unix epoch whose calendar date still
/// has a four-digit year (9999-12-31T23:59:59 UTC). Timestamps beyond this
/// cannot round-trip through the persisted RFC 3339 form.
pub const MAX_TS: u64 = 253402300799;

/// A half-open interval `[start, end)` of wall-clock time, in whole seconds
/// since the Unix epoch. The interval is empty when `start >= end`.
#[derive(Clone, Copy, Debug, PartialEq, Eq, Structural)]
pub struct TimeRange {
    pub start: u64,
    pub end: u64,
}

/// Whether the integer point `x` lies inside the interval.
pub open spec fn in_range(r: TimeRange, x: int) -> bool {
    r.start as int <= x && x < r.end as int
}

/// The set of integer points covered by one interval.
pub open spec fn range_points(r: TimeRange) -> Set<int> {
    Set::new(|x: int| in_range(r, x))
}

/// The set of integer points covered by a sequence of intervals.
pub open spec fn points_of(s: Seq<TimeRange>) -> Set<int>
    decreases s.len(),
{
    if s.len() == 0 {
        Set::empty()
    } else {
        range_points(s[0]) + points_of(s.drop_first())
    }
}

/// Normal form of a coverage sequence: every interval is non-empty and
/// bounded, and any two intervals are non-overlapping, non-touching and
/// sorted by start.
pub open spec fn wf_seq(s: Seq<TimeRange>) -> bool {
    &&& (forall|i: int|
        0 <= i < s.len() ==> (#[trigger] s[i]).start < s[i].end && s[i].end <= MAX_TS)
    &&& (forall|i: int, j: int|
        0 <= i < j < s.len() ==> (#[trigger] s[i]).end < (#[trigger] s[j]).start)
}

/// The smallest interval containing both arguments.
pub open spec fn merge_ranges(a: TimeRange, b: TimeRange) -> TimeRange {
    TimeRange {
        start: if a.start < b.start {
            a.start
        } else {
            b.start
        },
        end: if a.end > b.end {
            a.end
        } else {
            b.end
        },
    }
}

/// Inserting a non-empty interval into a sorted sequence: intervals strictly
/// before it are kept, intervals that overlap or touch it are absorbed into
/// one merged interval, the rest follows unchanged.
pub open spec fn add_nonempty(s: Seq<TimeRange>, r: TimeRange) -> Seq<TimeRange>
    decreases s.len(),
{
    if s.len() == 0 {
        seq![r]
    } else if s[0].end < r.start {
        seq![s[0]] + add_nonempty(s.drop_first(), r)
    } else if r.end < s[0].start {
        seq![r] + s
    } else {
        add_nonempty(s.drop_first(), merge_ranges(s[0], r))
    }
}

/// Effect of `add_range`: an empty interval covers no time and changes
/// nothing; a non-empty one is merged in.
pub open spec fn add_spec(s: Seq<TimeRange>, r: TimeRange) -> Seq<TimeRange> {
    if r.start >= r.end {
        s
    } else {
        add_nonempty(s, r)
    }
}

/// The ordered, normalized set of half-open time intervals during which
/// trace data has been collected.
#[derive(Clone, Debug, PartialEq)]
pub struct ActivityCoverage {
    covered: Vec<TimeRange>,
}

impl View for ActivityCoverage {
    type V = Seq<TimeRange>;

    closed spec fn view(&self) -> Seq<TimeRange> {
        self.covered@
    }
}

impl ActivityCoverage {
    pub open spec fn wf(&self) -> bool {
        wf_seq(self@)
    }

    pub fn new() -> (r: ActivityCoverage)
        ensures
            r@ == Seq::<TimeRange>::empty(),
            r.wf(),
    {
        ActivityCoverage { covered: Vec::new() }
    }

    /// Wrap a vector already in normal form.
    pub(crate) fn from_normalized(v: Vec<TimeRange>) -> (r: ActivityCoverage)
        requires
            wf_seq(v@),
        ensures
            r@ == v@,
            r.wf(),
    {
        ActivityCoverage { covered: v }
    }

    /// The intervals in ascending order.
    pub fn intervals(&self) -> (r: &Vec<TimeRange>)
        ensures
            r@ == self@,
    {
        &self.covered
    }

    /// Merge `[r.start, r.end)` into the set: intervals that overlap or
    /// touch it are replaced by one interval spanning all of them.
    pub fn add_range(&mut self, r: TimeRange)
        requires
            old(self).wf(),
            r.end <= MAX_TS,
        ensures
            final(self).wf(),
            final(self)@ == add_spec(old(self)@, r),
            points_of(final(self)@) == points_of(old(self)@) + range_points(r),
    {
        proof {
            lemma_add_spec_wf(old(self)@, r);
            lemma_add_spec_points(old(self)@, r);
        }
        if r.start >= r.end {
            return ;
        }
        let ghost orig: Seq<TimeRange> = self@;
        let n = self.covered.len();
        let mut out: Vec<TimeRange> = Vec::new();
        let mut i: usize = 0;
        proof {
            assert(orig.take(0) =~= Seq::<TimeRange>::empty());
            assert(orig.skip(0) =~= orig);
            assert(Seq::<TimeRange>::empty() + add_nonempty(orig, r) =~= add_nonempty(orig, r));
        }
        while i < n && self.covered[i].end < r.start
            invariant
                self@ == orig,
                wf_seq(orig),
                r.start < r.end,
                n == orig.len(),
                0 <= i <= n,
                out@ == orig.take(i as int),
                add_nonempty(orig, r) == out@ + add_nonempty(orig.skip(i as int), r),
            decreases n - i,
        {
            proof {
                let sk = orig.skip(i as int);
                assert(sk.len() > 0 && sk[0] == orig[i as int]);
                assert(sk.drop_first() =~= orig.skip(i + 1));
                assert(add_nonempty(sk, r) == seq![sk[0]] + add_nonempty(orig.skip(i + 1), r));
                assert(out@ + add_nonempty(sk, r) =~= out@.push(orig[i as int]) + add_nonempty(
                    orig.skip(i + 1),
                    r,
                ));
                assert(orig.take(i + 1) =~= orig.take(i as int).push(orig[i as int]));
            }
            let c = self.covered[i];
            out.push(c);
            i = i + 1;
        }
        let mut cur = r;
        proof {
            if i < n {
                assert(orig.skip(i as int)[0] == orig[i as int]);
            }
        }
        while i < n && self.covered[i].start <= cur.end
            invariant
                self@ == orig,
                wf_seq(orig),
                n == orig.len(),
                0 <= i <= n,
                cur.start < cur.end,
                cur.end <= MAX_TS,
                cur.start <= r.start,
                i < n ==> cur.start <= orig[i as int].end,
                add_nonempty(orig, r) == out@ + add_nonempty(orig.skip(i as int), cur),
            decreases n - i,
        {
            let c = self.covered[i];
            proof {
                let sk = orig.skip(i as int);
                assert(sk[0] == orig[i as int]);
                assert(sk.drop_first() =~= orig.skip(i + 1));
                // the overlap-or-touch branch of add_nonempty is taken
                assert(!(sk[0].end < cur.start));
                assert(!(cur.end < sk[0].start));
                assert(add_nonempty(sk, cur) == add_nonempty(
                    orig.skip(i + 1),
                    merge_ranges(orig[i as int], cur),
                ));
                if i + 1 < n {
                    assert(orig[i as int].end < orig[i + 1].start);
                }
            }
            let lo = if c.start < cur.start {
                c.start
            } else {
                cur.start
            };
            let hi = if c.end > cur.end {
                c.end
            } else {
                cur.end
            };
            cur = TimeRange { start: lo, end: hi };
            i = i + 1;
        }
        proof {
            let sk = orig.skip(i as int);
            if i < n {
                assert(sk[0] == orig[i as int]);
                assert(cur.end < sk[0].start);
                assert(add_nonempty(sk, cur) == seq![cur] + sk);
            } else {
                assert(sk =~= Seq::<TimeRange>::empty());
                assert(add_nonempty(sk, cur) =~= seq![cur] + sk);
            }
            assert(out@ + (seq![cur] + sk) =~= out@.push(cur) + sk);
        }
        out.push(cur);
        while i < n
            invariant
                self@ == orig,
                n == orig.len(),
                0 <= i <= n,
                add_nonempty(orig, r) == out@ + orig.skip(i as int),
            decreases n - i,
        {
            proof {
                assert(orig.skip(i as int) =~= seq![orig[i as int]] + orig.skip(i + 1));
                assert(out@ + orig.skip(i as int) =~= out@.push(orig[i as int]) + orig.skip(
                    i + 1,
                ));
            }
            let c = self.covered[i];
            out.push(c);
            i = i + 1;
        }
        proof {
            assert(orig.skip(n as int) =~= Seq::<TimeRange>::empty());
            assert(out@ + orig.skip(n as int) =~= out@);
        }
        self.covered = out;
    }
}

/// Every interval produced by `add_nonempty` starts strictly after `b`,
/// provided every input interval and `r` do.
proof fn lemma_add_starts_above(s: Seq<TimeRange>, r: TimeRange, b: int)
    requires
        forall|i: int| 0 <= i < s.len() ==> (#[trigger] s[i]).start > b,
        r.start > b,
    ensures
        forall|k: int|
            0 <= k < add_nonempty(s, r).len() ==> (#[trigger] add_nonempty(s, r)[k]).start > b,
    decreases s.len(),
{
    if s.len() == 0 {
        let res = add_nonempty(s, r);
        assert(res == seq![r]);
        assert(forall|k: int| 0 <= k < res.len() ==> (#[trigger] res[k]) == r);
    } else if s[0].end < r.start {
        assert(forall|i: int|
            0 <= i < s.drop_first().len() ==> (#[trigger] s.drop_first()[i]).start > b);
        lemma_add_starts_above(s.drop_first(), r, b);
        let res = add_nonempty(s, r);
        let sub = add_nonempty(s.drop_first(), r);
        assert(res == seq![s[0]] + sub);
        assert forall|k: int| 0 <= k < res.len() implies (#[trigger] res[k]).start > b by {
            if k == 0 {
                assert(res[k] == s[0]);
            } else {
                assert(res[k] == sub[k - 1]);
            }
        }
    } else if r.end < s[0].start {
        let res = add_nonempty(s, r);
        assert(res == seq![r] + s);
        assert forall|k: int| 0 <= k < res.len() implies (#[trigger] res[k]).start > b by {
            if k == 0 {
                assert(res[k] == r);
            } else {
                assert(res[k] == s[k - 1]);
            }
        }
    } else {
        assert(forall|i: int|
            0 <= i < s.drop_first().len() ==> (#[trigger] s.drop_first()[i]).start > b);
        lemma_add_starts_above(s.drop_first(), merge_ranges(s[0], r), b);
        assert(add_nonempty(s, r) == add_nonempty(s.drop_first(), merge_ranges(s[0], r)));
    }
}

/// Unfolding of `points_of` on a non-empty sequence.
proof fn lemma_points_cons(s: Seq<TimeRange>)
    requires
        s.len() > 0,
    ensures
        points_of(s) == range_points(s[0]) + points_of(s.drop_first()),
{
}

/// A sequence without intervals covers nothing.
proof fn lemma_points_empty(s: Seq<TimeRange>)
    requires
        s.len() == 0,
    ensures
        points_of(s) == Set::<int>::empty(),
{
}

/// Inserting a non-empty bounded interval preserves the normal form.
proof fn lemma_add_wf(s: Seq<TimeRange>, r: TimeRange)
    requires
        wf_seq(s),
        r.start < r.end,
        r.end <= MAX_TS,
    ensures
        wf_seq(add_nonempty(s, r)),
    decreases s.len(),
{
    if s.len() == 0 {
        let res = add_nonempty(s, r);
        assert(res =~= seq![r]);
    } else if s[0].end < r.start {
        let tail = s.drop_first();
        assert(wf_seq(tail)) by {
            assert(forall|i: int|
                0 <= i < tail.len() ==> (#[trigger] tail[i]) == s[i + 1]);
        }
        lemma_add_wf(tail, r);
        assert(forall|i: int| 0 <= i < tail.len() ==> (#[trigger] tail[i]).start > s[0].end);
        lemma_add_starts_above(tail, r, s[0].end as int);
        let sub = add_nonempty(tail, r);
        let res = add_nonempty(s, r);
        assert(res == seq![s[0]] + sub);
        assert forall|i: int, j: int| 0 <= i < j < res.len() implies (#[trigger] res[i]).end < (
        #[trigger] res[j]).start by {
            if i == 0 {
                assert(res[j] == sub[j - 1]);
            } else {
                assert(res[i] == sub[i - 1]);
                assert(res[j] == sub[j - 1]);
            }
        }
        assert forall|i: int|
            0 <= i < res.len() implies (#[trigger] res[i]).start < res[i].end && res[i].end
            <= MAX_TS by {
            if i == 0 {
            } else {
                assert(res[i] == sub[i - 1]);
            }
        }
    } else if r.end < s[0].start {
        let res = add_nonempty(s, r);
        assert(res == seq![r] + s);
        assert forall|i: int, j: int| 0 <= i < j < res.len() implies (#[trigger] res[i]).end < (
        #[trigger] res[j]).start by {
            if i == 0 {
                assert(res[j] == s[j - 1]);
                assert(s[0].end < s[0].end + 1);
                if j - 1 > 0 {
                    assert(s[0].end < s[j - 1].start);
                } else {
                    assert(res[j] == s[0]);
                }
            } else {
                assert(res[i] == s[i - 1]);
                assert(res[j] == s[j - 1]);
            }
        }
        assert forall|i: int|
            0 <= i < res.len() implies (#[trigger] res[i]).start < res[i].end && res[i].end
            <= MAX_TS by {
            if i > 0 {
                assert(res[i] == s[i - 1]);
            }
        }
    } else {
        let tail = s.drop_first();
        assert(wf_seq(tail)) by {
            assert(forall|i: int|
                0 <= i < tail.len() ==> (#[trigger] tail[i]) == s[i + 1]);
        }
        let m = merge_ranges(s[0], r);
        lemma_add_wf(tail, m);
    }
}

/// The points of a merged pair of touching intervals are the union of the
/// points of the two.
proof fn lemma_merge_points(a: TimeRange, b: TimeRange)
    requires
        a.start < a.end,
        b.start < b.end,
        !(a.end < b.start),
        !(b.end < a.start),
    ensures
        range_points(merge_ranges(a, b)) == range_points(a) + range_points(b),
{
    assert(range_points(merge_ranges(a, b)) =~= range_points(a) + range_points(b));
}

/// Inserting an interval adds exactly its points.
proof fn lemma_add_points(s: Seq<TimeRange>, r: TimeRange)
    requires
        wf_seq(s),
        r.start < r.end,
    ensures
        points_of(add_nonempty(s, r)) == points_of(s) + range_points(r),
    decreases s.len(),
{
    if s.len() == 0 {
        let res = add_nonempty(s, r);
        assert(res == seq![r]);
        lemma_points_cons(res);
        assert(res.drop_first() =~= Seq::<TimeRange>::empty());
        lemma_points_empty(res.drop_first());
        lemma_points_empty(s);
        assert(points_of(res) =~= points_of(s) + range_points(r));
    } else if s[0].end < r.start {
        let tail = s.drop_first();
        assert(wf_seq(tail)) by {
            assert(forall|i: int|
                0 <= i < tail.len() ==> (#[trigger] tail[i]) == s[i + 1]);
        }
        lemma_add_points(tail, r);
        let sub = add_nonempty(tail, r);
        let res = add_nonempty(s, r);
        assert(res == seq![s[0]] + sub);
        assert(res.len() > 0 && res[0] == s[0]);
        lemma_points_cons(res);
        lemma_points_cons(s);
        assert(res.drop_first() =~= sub);
        assert(points_of(res) == range_points(s[0]) + points_of(sub));
        assert(points_of(res) =~= points_of(s) + range_points(r));
    } else if r.end < s[0].start {
        let res = add_nonempty(s, r);
        assert(res == seq![r] + s);
        assert(res.len() > 0 && res[0] == r);
        lemma_points_cons(res);
        assert(res.drop_first() =~= s);
        assert(points_of(res) == range_points(r) + points_of(s));
        assert(points_of(res) =~= points_of(s) + range_points(r));
    } else {
        let tail = s.drop_first();
        assert(wf_seq(tail)) by {
            assert(forall|i: int|
                0 <= i < tail.len() ==> (#[trigger] tail[i]) == s[i + 1]);
        }
        let m = merge_ranges(s[0], r);
        lemma_add_points(tail, m);
        lemma_merge_points(s[0], r);
        lemma_points_cons(s);
        assert(add_nonempty(s, r) == add_nonempty(tail, m));
        assert(points_of(add_nonempty(s, r)) =~= points_of(s) + range_points(r));
    }
}

/// `add_spec` preserves the normal form.
pub proof fn lemma_add_spec_wf(s: Seq<TimeRange>, r: TimeRange)
    requires
        wf_seq(s),
        r.end <= MAX_TS,
    ensures
        wf_seq(add_spec(s, r)),
{
    if r.start < r.end {
        lemma_add_wf(s, r);
    }
}

/// `add_spec` adds exactly the points of the inserted interval.
pub proof fn lemma_add_spec_points(s: Seq<TimeRange>, r: TimeRange)
    requires
        wf_seq(s),
    ensures
        points_of(add_spec(s, r)) == points_of(s) + range_points(r),
{
    if r.start < r.end {
        lemma_add_points(s, r);
    } else {
        assert(range_points(r) =~= Set::<int>::empty());
        assert(points_of(s) + range_points(r) =~= points_of(s));
    }
}

/// Chained strict ordering of consecutive intervals orders any two of them.
proof fn lemma_chain(s: Seq<TimeRange>, i: int, j: int)
    requires
        forall|k: int| 0 <= k < s.len() ==> (#[trigger] s[k]).start < s[k].end,
        forall|k: int| 0 <= k < s.len() - 1 ==> (#[trigger] s[k]).end < s[k + 1].start,
        0 <= i < j < s.len(),
    ensures
        s[i].end < s[j].start,
    decreases j - i,
{
    if i + 1 < j {
        lemma_chain(s, i, j - 1);
        assert(s[j - 1].end < s[j].start);
        assert(s[j - 1].start < s[j - 1].end);
    }
}

/// A sequence whose consecutive intervals are ordered, non-empty and bounded
/// is in normal form.
pub proof fn lemma_consecutive_wf(s: Seq<TimeRange>)
    requires
        forall|k: int| 0 <= k < s.len() ==> (#[trigger] s[k]).start < s[k].end && s[k].end
            <= MAX_TS,
        forall|k: int| 0 <= k < s.len() - 1 ==> (#[trigger] s[k]).end < s[k + 1].start,
    ensures
        wf_seq(s),
{
    assert forall|i: int, j: int| 0 <= i < j < s.len() implies (#[trigger] s[i]).end < (
    #[trigger] s[j]).start by {
        lemma_chain(s, i, j);
    }
}

/// A point is covered exactly when some interval of the sequence contains it.
proof fn lemma_points_iff(s: Seq<TimeRange>, x: int)
    ensures
        points_of(s).contains(x) <==> exists|i: int|
            0 <= i < s.len() && in_range(#[trigger] s[i], x),
    decreases s.len(),
{
    if s.len() == 0 {
        lemma_points_empty(s);
    } else {
        lemma_points_cons(s);
        let tail = s.drop_first();
        lemma_points_iff(tail, x);
        if points_of(s).contains(x) {
            if range_points(s[0]).contains(x) {
                assert(in_range(s[0], x));
            } else {
                let i = choose|i: int| 0 <= i < tail.len() && in_range(#[trigger] tail[i], x);
                assert(s[i + 1] == tail[i]);
                assert(in_range(s[i + 1], x));
            }
        }
        if exists|i: int| 0 <= i < s.len() && in_range(#[trigger] s[i], x) {
            let i = choose|i: int| 0 <= i < s.len() && in_range(#[trigger] s[i], x);
            if i == 0 {
                assert(range_points(s[0]).contains(x));
            } else {
                assert(tail[i - 1] == s[i]);
                assert(in_range(tail[i - 1], x));
                assert(points_of(tail).contains(x));
            }
        }
    }
}

/// Two sequences in normal form covering the same points are equal: the
/// normal form is canonical.
pub proof fn lemma_wf_points_unique(s1: Seq<TimeRange>, s2: Seq<TimeRange>)
    requires
        wf_seq(s1),
        wf_seq(s2),
        points_of(s1) == points_of(s2),
    ensures
        s1 == s2,
    decreases s1.len(),
{
    if s1.len() == 0 && s2.len() == 0 {
        assert(s1 =~= s2);
    } else if s1.len() == 0 {
        lemma_points_empty(s1);
        assert(in_range(s2[0], s2[0].start as int));
        lemma_points_iff(s2, s2[0].start as int);
        assert(false);
    } else if s2.len() == 0 {
        lemma_points_empty(s2);
        assert(in_range(s1[0], s1[0].start as int));
        lemma_points_iff(s1, s1[0].start as int);
        assert(false);
    } else {
        let a = s1[0];
        let b = s2[0];
        assert(a.start == b.start) by {
            if a.start < b.start {
                assert(in_range(a, a.start as int));
                lemma_points_iff(s1, a.start as int);
                lemma_points_iff(s2, a.start as int);
                let i = choose|i: int| 0 <= i < s2.len() && in_range(#[trigger] s2[i], a.start as int);
                if i > 0 {
                    assert(s2[0].end < s2[i].start);
                }
                assert(false);
            } else if b.start < a.start {
                assert(in_range(b, b.start as int));
                lemma_points_iff(s2, b.start as int);
                lemma_points_iff(s1, b.start as int);
                let i = choose|i: int| 0 <= i < s1.len() && in_range(#[trigger] s1[i], b.start as int);
                if i > 0 {
                    assert(s1[0].end < s1[i].start);
                }
                assert(false);
            }
        }
        assert(a.end == b.end) by {
            if a.end < b.end {
                assert(in_range(b, a.end as int));
                lemma_points_iff(s2, a.end as int);
                lemma_points_iff(s1, a.end as int);
                let i = choose|i: int| 0 <= i < s1.len() && in_range(#[trigger] s1[i], a.end as int);
                if i > 0 {
                    assert(s1[0].end < s1[i].start);
                }
                assert(false);
            } else if b.end < a.end {
                assert(in_range(a, b.end as int));
                lemma_points_iff(s1, b.end as int);
                lemma_points_iff(s2, b.end as int);
                let i = choose|i: int| 0 <= i < s2.len() && in_range(#[trigger] s2[i], b.end as int);
                if i > 0 {
                    assert(s2[0].end < s2[i].start);
                }
                assert(false);
            }
        }
        let t1 = s1.drop_first();
        let t2 = s2.drop_first();
        assert(wf_seq(t1)) by {
            assert(forall|i: int| 0 <= i < t1.len() ==> (#[trigger] t1[i]) == s1[i + 1]);
        }
        assert(wf_seq(t2)) by {
            assert(forall|i: int| 0 <= i < t2.len() ==> (#[trigger] t2[i]) == s2[i + 1]);
        }
        assert(points_of(t1) =~= points_of(t2)) by {
            assert forall|x: int| points_of(t1).contains(x) implies points_of(t2).contains(x) by {
                lemma_tail_points(s1, x);
                lemma_tail_points(s2, x);
            }
            assert forall|x: int| points_of(t2).contains(x) implies points_of(t1).contains(x) by {
                lemma_tail_points(s1, x);
                lemma_tail_points(s2, x);
            }
        }
        lemma_wf_points_unique(t1, t2);
        assert(s1 =~= s2) by {
            assert(forall|i: int| 1 <= i < s1.len() ==> (#[trigger] s1[i]) == t1[i - 1]);
            assert(forall|i: int| 1 <= i < s2.len() ==> (#[trigger] s2[i]) == t2[i - 1]);
        }
    }
}

/// A point of a normalized sequence lies in the tail exactly when it lies
/// past the end of the head interval.
proof fn lemma_tail_points(s: Seq<TimeRange>, x: int)
    requires
        wf_seq(s),
        s.len() > 0,
    ensures
        points_of(s.drop_first()).contains(x) <==> points_of(s).contains(x) && x >= s[0].end as int,
{
    let tail = s.drop_first();
    assert(forall|i: int| 0 <= i < tail.len() ==> (#[trigger] tail[i]) == s[i + 1]);
    lemma_points_iff(s, x);
    lemma_points_iff(tail, x);
    if points_of(tail).contains(x) {
        let i = choose|i: int| 0 <= i < tail.len() && in_range(#[trigger] tail[i], x);
        assert(s[0].end < s[i + 1].start);
        assert(in_range(s[i + 1], x));
    }
    if points_of(s).contains(x) && x >= s[0].end as int {
        let i = choose|i: int| 0 <= i < s.len() && in_range(#[trigger] s[i], x);
        if i == 0 {
            assert(false);
        } else {
            assert(in_range(tail[i - 1], x));
        }
    }
}

/// Merging intervals is commutative: the resulting coverage does not depend
/// on the order in which two intervals are added.
pub proof fn lemma_add_commutative(s: Seq<TimeRange>, a: TimeRange, b: TimeRange)
    requires
        wf_seq(s),
        a.end <= MAX_TS,
        b.end <= MAX_TS,
    ensures
        add_spec(add_spec(s, a), b) == add_spec(add_spec(s, b), a),
{
    lemma_add_spec_wf(s, a);
    lemma_add_spec_wf(s, b);
    lemma_add_spec_wf(add_spec(s, a), b);
    lemma_add_spec_wf(add_spec(s, b), a);
    lemma_add_spec_points(s, a);
    lemma_add_spec_points(s, b);
    lemma_add_spec_points(add_spec(s, a), b);
    lemma_add_spec_points(add_spec(s, b), a);
    assert(points_of(add_spec(add_spec(s, a), b)) =~= points_of(add_spec(add_spec(s, b), a)));
    lemma_wf_points_unique(add_spec(add_spec(s, a), b), add_spec(add_spec(s, b), a));
}

/// Merging intervals is idempotent: adding the same interval twice is the
/// same as adding it once.
pub proof fn lemma_add_idempotent(s: Seq<TimeRange>, a: TimeRange)
    requires
        wf_seq(s),
        a.end <= MAX_TS,
    ensures
        add_spec(add_spec(s, a), a) == add_spec(s, a),
{
    lemma_add_spec_wf(s, a);
    lemma_add_spec_wf(add_spec(s, a), a);
    lemma_add_spec_points(s, a);
    lemma_add_spec_points(add_spec(s, a), a);
    assert(points_of(add_spec(add_spec(s, a), a)) =~= points_of(add_spec(s, a)));
    lemma_wf_points_unique(add_spec(add_spec(s, a), a), add_spec(s, a));
}

/// The ordered gaps of a normalized sequence: one interval between each
/// consecutive pair.
pub open spec fn gaps_spec(s: Seq<TimeRange>) -> Seq<TimeRange>
    decreases s.len(),
{
    if s.len() <= 1 {
        Seq::empty()
    } else {
        seq![TimeRange { start: s[0].end, end: s[1].start }] + gaps_spec(s.drop_first())
    }
}

/// Index form of `gaps_spec`.
proof fn lemma_gaps_index(s: Seq<TimeRange>)
    ensures
        s.len() <= 1 ==> gaps_spec(s) == Seq::<TimeRange>::empty(),
        s.len() > 1 ==> gaps_spec(s).len() == s.len() - 1 && forall|k: int|
            0 <= k < s.len() - 1 ==> gaps_spec(s)[k] == (TimeRange {
                start: s[k].end,
                end: s[k + 1].start,
            }),
    decreases s.len(),
{
    if s.len() > 1 {
        let tail = s.drop_first();
        lemma_gaps_index(tail);
        assert(forall|i: int| 0 <= i < tail.len() ==> (#[trigger] tail[i]) == s[i + 1]);
        assert forall|k: int| 0 <= k < s.len() - 1 implies gaps_spec(s)[k] == (TimeRange {
            start: s[k].end,
            end: s[k + 1].start,
        }) by {
            if k > 0 {
                assert(gaps_spec(s)[k] == gaps_spec(tail)[k - 1]);
            }
        }
    }
}

/// The gaps of a normalized sequence are themselves in normal form.
pub proof fn lemma_gaps_wf(s: Seq<TimeRange>)
    requires
        wf_seq(s),
    ensures
        wf_seq(gaps_spec(s)),
{
    lemma_gaps_index(s);
    if s.len() > 1 {
        let g = gaps_spec(s);
        assert forall|i: int|
            0 <= i < g.len() implies (#[trigger] g[i]).start < g[i].end && g[i].end <= MAX_TS by {
            assert(g[i] == (TimeRange { start: s[i].end, end: s[i + 1].start }));
        }
        assert forall|i: int, j: int| 0 <= i < j < g.len() implies (#[trigger] g[i]).end < (
        #[trigger] g[j]).start by {
            assert(g[i] == (TimeRange { start: s[i].end, end: s[i + 1].start }));
            assert(g[j] == (TimeRange { start: s[j].end, end: s[j + 1].start }));
            if i + 1 < j {
                assert(s[i + 1].end < s[j].start);
            }
        }
    }
}

impl ActivityCoverage {
    /// The ordered list of intervals missing between the earliest start and
    /// the latest end of the set.
    pub fn missing_ranges(&self) -> (r: Vec<TimeRange>)
        requires
            self.wf(),
        ensures
            r@ == gaps_spec(self@),
            wf_seq(r@),
    {
        proof {
            lemma_gaps_wf(self@);
        }
        let mut r: Vec<TimeRange> = Vec::new();
        let n = self.covered.len();
        if n <= 1 {
            return r;
        }
        let mut i: usize = 1;
        proof {
            assert(self@.skip(0) =~= self@);
            assert(Seq::<TimeRange>::empty() + gaps_spec(self@) =~= gaps_spec(self@));
        }
        while i < n
            invariant
                wf_seq(self@),
                n == self@.len(),
                1 <= i <= n,
                gaps_spec(self@) == r@ + gaps_spec(self@.skip(i - 1)),
            decreases n - i,
        {
            proof {
                let sk = self@.skip(i - 1);
                assert(sk.len() == n - i + 1 >= 2);
                assert(sk[0] == self@[i - 1]);
                assert(sk[1] == self@[i as int]);
                assert(sk.drop_first() =~= self@.skip(i as int));
                assert(gaps_spec(sk) == seq![
                    TimeRange { start: sk[0].end, end: sk[1].start },
                ] + gaps_spec(self@.skip(i as int)));
                assert(r@ + gaps_spec(sk) =~= r@.push(
                    TimeRange { start: sk[0].end, end: sk[1].start },
                ) + gaps_spec(self@.skip(i as int)));
            }
            let g = TimeRange { start: self.covered[i - 1].end, end: self.covered[i].start };
            r.push(g);
            i = i + 1;
        }
        proof {
            assert(self@.skip(n - 1).len() == 1);
            assert(gaps_spec(self@.skip(n - 1)) == Seq::<TimeRange>::empty());
            assert(r@ + Seq::<TimeRange>::empty() =~= r@);
        }
        r
    }

    /// The earliest missing interval, if any.
    pub fn oldest_gap(&self) -> (r: Option<TimeRange>)
        requires
            self.wf(),
        ensures
            r == if gaps_spec(self@).len() == 0 {
                None::<TimeRange>
            } else {
                Some(gaps_spec(self@)[0])
            },
    {
        let gaps = self.missing_ranges();
        if gaps.len() == 0 {
            None
        } else {
            Some(gaps[0])
        }
    }
}

/// Adding a whole sequence of intervals, one after the other.
pub open spec fn add_all(s: Seq<TimeRange>, rs: Seq<TimeRange>) -> Seq<TimeRange>
    decreases rs.len(),
{
    if rs.len() == 0 {
        s
    } else {
        add_all(add_spec(s, rs[0]), rs.drop_first())
    }
}

/// Adding a sequence of bounded intervals keeps the normal form and adds
/// exactly their points.
proof fn lemma_add_all_props(s: Seq<TimeRange>, rs: Seq<TimeRange>)
    requires
        wf_seq(s),
        forall|i: int| 0 <= i < rs.len() ==> (#[trigger] rs[i]).end <= MAX_TS,
    ensures
        wf_seq(add_all(s, rs)),
        points_of(add_all(s, rs)) == points_of(s) + points_of(rs),
    decreases rs.len(),
{
    if rs.len() == 0 {
        lemma_points_empty(rs);
        assert(points_of(s) + points_of(rs) =~= points_of(s));
    } else {
        lemma_add_spec_wf(s, rs[0]);
        lemma_add_spec_points(s, rs[0]);
        let tail = rs.drop_first();
        assert(forall|i: int| 0 <= i < tail.len() ==> (#[trigger] tail[i]) == rs[i + 1]);
        lemma_add_all_props(add_spec(s, rs[0]), tail);
        lemma_points_cons(rs);
        assert(points_of(add_all(s, rs)) =~= points_of(s) + points_of(rs));
    }
}

/// The points of a non-empty normalized sequence together with the points of
/// its gaps form one contiguous interval from the earliest start to the
/// latest end.
proof fn lemma_gaps_points(s: Seq<TimeRange>)
    requires
        wf_seq(s),
        s.len() > 0,
    ensures
        points_of(s) + points_of(gaps_spec(s)) == range_points(
            TimeRange { start: s[0].start, end: s[s.len() - 1].end },
        ),
    decreases s.len(),
{
    if s.len() == 1 {
        lemma_points_cons(s);
        lemma_points_empty(s.drop_first());
        lemma_points_empty(gaps_spec(s));
        assert(points_of(s) + points_of(gaps_spec(s)) =~= range_points(
            TimeRange { start: s[0].start, end: s[s.len() - 1].end },
        ));
    } else {
        let tail = s.drop_first();
        assert(wf_seq(tail)) by {
            assert(forall|i: int| 0 <= i < tail.len() ==> (#[trigger] tail[i]) == s[i + 1]);
        }
        lemma_gaps_points(tail);
        lemma_points_cons(s);
        let g = gaps_spec(s);
        assert(g.len() > 0 && g[0] == (TimeRange { start: s[0].end, end: s[1].start }));
        assert(g.drop_first() =~= gaps_spec(tail));
        lemma_points_cons(g);
        assert(tail[0] == s[1] && tail[tail.len() - 1] == s[s.len() - 1]);
        let full = TimeRange { start: s[0].start, end: s[s.len() - 1].end };
        let mid = TimeRange { start: s[1].start, end: s[s.len() - 1].end };
        assert(s[0].start < s[0].end);
        assert(s[0].end < s[1].start);
        assert(s[1].start < s[1].end);
        assert(s[1].end <= s[s.len() - 1].end) by {
            if s.len() > 2 {
                assert(s[1].end < s[s.len() - 1].start);
                assert(s[s.len() - 1].start < s[s.len() - 1].end);
            }
        }
        assert(points_of(tail) + points_of(gaps_spec(tail)) == range_points(mid));
        assert forall|x: int| (points_of(s) + points_of(g)).contains(x) implies range_points(
            full,
        ).contains(x) by {
            assert(points_of(s).contains(x) || points_of(g).contains(x));
            if range_points(s[0]).contains(x) {
            } else if range_points(g[0]).contains(x) {
            } else {
                assert((points_of(tail) + points_of(gaps_spec(tail))).contains(x));
                assert(range_points(mid).contains(x));
            }
        }
        assert forall|x: int| range_points(full).contains(x) implies (points_of(s)
            + points_of(g)).contains(x) by {
            if x < s[0].end as int {
                assert(range_points(s[0]).contains(x));
            } else if x < s[1].start as int {
                assert(range_points(g[0]).contains(x));
            } else {
                assert(range_points(mid).contains(x));
                assert((points_of(tail) + points_of(gaps_spec(tail))).contains(x));
            }
        }
        assert(points_of(s) + points_of(g) =~= range_points(full));
    }
}

/// Adding every gap back to a non-empty coverage yields a single contiguous
/// interval from the earliest start to the latest end.
pub proof fn lemma_gaps_refill(s: Seq<TimeRange>)
    requires
        wf_seq(s),
        s.len() > 0,
    ensures
        add_all(s, gaps_spec(s)) == seq![
            (TimeRange { start: s[0].start, end: s[s.len() - 1].end }),
        ],
{
    lemma_gaps_wf(s);
    lemma_add_all_props(s, gaps_spec(s));
    lemma_gaps_points(s);
    let full = TimeRange { start: s[0].start, end: s[s.len() - 1].end };
    let single = seq![full];
    assert(wf_seq(single)) by {
        assert(single[0] == full);
        assert(s[0].start < s[0].end);
        assert(s[0].end <= s[s.len() - 1].end);
    }
    assert(points_of(single) == range_points(full)) by {
        lemma_points_cons(single);
        lemma_points_empty(single.drop_first());
        assert(points_of(single) =~= range_points(full));
    }
    lemma_wf_points_unique(add_all(s, gaps_spec(s)), single);
}

} // verus!
