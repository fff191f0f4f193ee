use vstd::prelude::*;

verus! {

use crate::jsoncodec::{views_of_strings, json_of_strings, encode_strings, decode_strings};
use crate::strutil::{seq_has_str, vec_contains_string, str_eq, has_prefix, concat_strs};
use crate::errors::{PersistError, TransportErrorKind};

/// Membership in a vector of strings agrees with membership in its views.
pub proof fn lemma_seq_has_str(v: Seq<String>, x: Seq<char>)
    ensures
        seq_has_str(v, x) == views_of_strings(v).contains(x),
{
    if seq_has_str(v, x) {
        let i = choose|i: int| 0 <= i < v.len() && (#[trigger] v[i])@ == x;
        assert(views_of_strings(v)[i] == x);
    }
    if views_of_strings(v).contains(x) {
        let i = choose|i: int| 0 <= i < views_of_strings(v).len() && views_of_strings(v)[i] == x;
        assert(v[i]@ == x);
    }
}

/// No two elements of the vector have the same characters.
pub open spec fn unique_strs(v: Seq<String>) -> bool {
    forall|i: int, j: int| 0 <= i < j < v.len() ==> (#[trigger] v[i])@ != (#[trigger] v[j])@
}

/// The set of strings occurring in the vector.
pub open spec fn strs_set(v: Seq<String>) -> Set<Seq<char>> {
    Set::new(|x: Seq<char>| seq_has_str(v, x))
}

/// The Known-Set: remote paths already downloaded (`files`) and remote paths
/// known to be directories (`dirs`), kept disjoint and without duplicates.
#[derive(Clone, Debug)]
pub struct Crashes {
    crash_files: Vec<String>,
    crash_dirs: Vec<String>,
}

impl Crashes {
    /// The downloaded paths, in insertion order.
    pub closed spec fn files_seq(&self) -> Seq<Seq<char>> {
        views_of_strings(self.crash_files@)
    }

    /// The known directories, in insertion order.
    pub closed spec fn dirs_seq(&self) -> Seq<Seq<char>> {
        views_of_strings(self.crash_dirs@)
    }

    /// The set of downloaded paths.
    pub closed spec fn files_set(&self) -> Set<Seq<char>> {
        strs_set(self.crash_files@)
    }

    /// The set of known directories.
    pub closed spec fn dirs_set(&self) -> Set<Seq<char>> {
        strs_set(self.crash_dirs@)
    }

    /// Both lists are duplicate-free and no path is recorded as a file and
    /// a directory at once.
    pub closed spec fn wf(&self) -> bool {
        &&& unique_strs(self.crash_files@)
        &&& unique_strs(self.crash_dirs@)
        &&& forall|x: Seq<char>| !(self.files_set().contains(x) && self.dirs_set().contains(x))
    }

    pub fn new() -> (r: Crashes)
        ensures
            r.wf(),
            r.files_set() == Set::<Seq<char>>::empty(),
            r.dirs_set() == Set::<Seq<char>>::empty(),
    {
        let r = Crashes { crash_files: Vec::new(), crash_dirs: Vec::new() };
        proof {
            assert(r.files_set() =~= Set::<Seq<char>>::empty());
            assert(r.dirs_set() =~= Set::<Seq<char>>::empty());
        }
        r
    }

    /// Whether a remote path was already downloaded.
    pub fn contains_file(&self, p: &str) -> (r: bool)
        ensures
            r == self.files_set().contains(p@),
    {
        vec_contains_string(&self.crash_files, p)
    }

    /// Whether a remote path is a known directory.
    pub fn contains_dir(&self, p: &str) -> (r: bool)
        ensures
            r == self.dirs_set().contains(p@),
    {
        vec_contains_string(&self.crash_dirs, p)
    }

    /// The directories to list in the next pass, in order.
    pub fn dirs_to_list(&self) -> (r: Vec<String>)
        ensures
            views_of_strings(r@) == self.dirs_seq(),
    {
        let n = self.crash_dirs.len();
        let mut r: Vec<String> = Vec::new();
        let mut i: usize = 0;
        while i < n
            invariant
                n == self.crash_dirs@.len(),
                0 <= i <= n,
                r@.len() == i,
                forall|j: int| 0 <= j < i ==> (#[trigger] r@[j])@ == self.crash_dirs@[j]@,
            decreases n - i,
        {
            r.push(self.crash_dirs[i].clone());
            i = i + 1;
        }
        proof {
            assert forall|j: int|
                0 <= j < n implies views_of_strings(r@)[j] == self.dirs_seq()[j] by {
                assert(views_of_strings(r@)[j] == r@[j]@);
            }
            assert(views_of_strings(r@) =~= self.dirs_seq());
        }
        r
    }

    /// Record a successful download: the path joins `files` and leaves
    /// `dirs` if it was ever there.
    pub fn note_downloaded(&mut self, p: &String)
        requires
            old(self).wf(),
        ensures
            final(self).wf(),
            final(self).files_set() == old(self).files_set().insert(p@),
            final(self).dirs_set() == old(self).dirs_set().remove(p@),
    {
        remove_str(&mut self.crash_dirs, p);
        push_if_absent(&mut self.crash_files, p);
        proof {
            assert forall|x: Seq<char>|
                !(self.files_set().contains(x) && self.dirs_set().contains(x)) by {
                if x != p@ && self.files_set().contains(x) {
                    assert(old(self).files_set().contains(x));
                }
            }
        }
    }

    /// Record that a path turned out to be a directory: it joins `dirs` and
    /// leaves `files` if it was ever there.
    pub fn note_directory(&mut self, p: &String)
        requires
            old(self).wf(),
        ensures
            final(self).wf(),
            final(self).dirs_set() == old(self).dirs_set().insert(p@),
            final(self).files_set() == old(self).files_set().remove(p@),
    {
        remove_str(&mut self.crash_files, p);
        push_if_absent(&mut self.crash_dirs, p);
        proof {
            assert forall|x: Seq<char>|
                !(self.files_set().contains(x) && self.dirs_set().contains(x)) by {
                if x != p@ && self.dirs_set().contains(x) {
                    assert(old(self).dirs_set().contains(x));
                }
            }
        }
    }

    /// Forget a directory whose listing failed: the remote may have deleted
    /// it, so it is no longer listed each pass.
    pub fn note_dir_listing_failed(&mut self, d: &String)
        requires
            old(self).wf(),
        ensures
            final(self).wf(),
            final(self).dirs_set() == old(self).dirs_set().remove(d@),
            final(self).files_set() == old(self).files_set(),
    {
        remove_str(&mut self.crash_dirs, d);
        proof {
            assert forall|x: Seq<char>|
                !(self.files_set().contains(x) && self.dirs_set().contains(x)) by {
                if self.dirs_set().contains(x) {
                    assert(old(self).dirs_set().contains(x));
                }
            }
        }
    }
}

/// The downloaded set and the directory set never intersect.
pub proof fn lemma_files_dirs_disjoint(c: Crashes)
    requires
        c.wf(),
    ensures
        c.files_set().disjoint(c.dirs_set()),
{
}

/// No two elements of the sequence are equal.
pub open spec fn unique_chars(s: Seq<Seq<char>>) -> bool {
    forall|i: int, j: int| 0 <= i < j < s.len() ==> (#[trigger] s[i]) != (#[trigger] s[j])
}

/// The set of strings in a sequence of strings.
pub open spec fn chars_set(s: Seq<Seq<char>>) -> Set<Seq<char>> {
    Set::new(|x: Seq<char>| s.contains(x))
}

/// The paths to fetch from a candidate listing, scanned front to back:
/// a candidate is kept when it is not yet downloaded, not a known
/// directory, not given up this session, and not already kept.
pub open spec fn to_fetch_rec(
    cands: Seq<Seq<char>>,
    files: Set<Seq<char>>,
    dirs: Set<Seq<char>>,
    give_up: Set<Seq<char>>,
    acc: Seq<Seq<char>>,
) -> Seq<Seq<char>>
    decreases cands.len(),
{
    if cands.len() == 0 {
        acc
    } else {
        let c = cands[0];
        let acc2 = if files.contains(c) || dirs.contains(c) || give_up.contains(c)
            || acc.contains(c) {
            acc
        } else {
            acc.push(c)
        };
        to_fetch_rec(cands.drop_first(), files, dirs, give_up, acc2)
    }
}

pub open spec fn to_fetch_spec(
    cands: Seq<Seq<char>>,
    files: Set<Seq<char>>,
    dirs: Set<Seq<char>>,
    give_up: Set<Seq<char>>,
) -> Seq<Seq<char>> {
    to_fetch_rec(cands, files, dirs, give_up, Seq::empty())
}

/// What ends up in the fetch list: exactly the new candidates, once each.
pub proof fn lemma_to_fetch_rec_membership(
    cands: Seq<Seq<char>>,
    files: Set<Seq<char>>,
    dirs: Set<Seq<char>>,
    give_up: Set<Seq<char>>,
    acc: Seq<Seq<char>>,
)
    requires
        unique_chars(acc),
    ensures
        forall|x: Seq<char>|
            #[trigger] to_fetch_rec(cands, files, dirs, give_up, acc).contains(x) <==> (
            acc.contains(x) || (cands.contains(x) && !files.contains(x) && !dirs.contains(x)
                && !give_up.contains(x))),
        unique_chars(to_fetch_rec(cands, files, dirs, give_up, acc)),
    decreases cands.len(),
{
    if cands.len() == 0 {
        assert(forall|x: Seq<char>| !cands.contains(x));
    } else {
        let c = cands[0];
        let tail = cands.drop_first();
        let kept = !(files.contains(c) || dirs.contains(c) || give_up.contains(c) || acc.contains(
            c,
        ));
        let acc2 = if kept {
            acc.push(c)
        } else {
            acc
        };
        assert(unique_chars(acc2)) by {
            if kept {
                assert forall|i: int, j: int|
                    0 <= i < j < acc2.len() implies (#[trigger] acc2[i]) != (
                #[trigger] acc2[j]) by {
                    if j == acc.len() {
                        assert(acc2[i] == acc[i]);
                        assert(acc.contains(acc[i]));
                    }
                }
            }
        }
        lemma_to_fetch_rec_membership(tail, files, dirs, give_up, acc2);
        assert forall|x: Seq<char>| #[trigger] cands.contains(x) implies (x == c
            || tail.contains(x)) by {
            let k = choose|k: int| 0 <= k < cands.len() && cands[k] == x;
            if k > 0 {
                assert(tail[k - 1] == x);
            }
        }
        assert forall|x: Seq<char>| tail.contains(x) implies cands.contains(x) by {
            let k = choose|k: int| 0 <= k < tail.len() && tail[k] == x;
            assert(cands[k + 1] == x);
        }
        assert(cands.contains(c)) by {
            assert(cands[0] == c);
        }
        assert forall|x: Seq<char>| #[trigger] acc2.contains(x) implies (acc.contains(x) || x
            == c) by {
            if kept {
                let k = choose|k: int| 0 <= k < acc2.len() && acc2[k] == x;
                if k < acc.len() {
                    assert(acc[k] == x);
                }
            }
        }
        assert(kept ==> acc2.contains(c)) by {
            if kept {
                assert(acc2[acc.len() as int] == c);
            }
        }
        assert(forall|x: Seq<char>| acc.contains(x) ==> #[trigger] acc2.contains(x)) by {
            if kept {
                assert forall|x: Seq<char>| acc.contains(x) implies #[trigger] acc2.contains(
                    x,
                ) by {
                    let k = choose|k: int| 0 <= k < acc.len() && acc[k] == x;
                    assert(acc2[k] == x);
                }
            }
        }
    }
}

impl Crashes {
    /// The paths still to download: the candidates that are not yet
    /// downloaded, not known directories, and not given up this session,
    /// kept in listing order without duplicates.
    pub fn files_to_fetch(&self, candidates: &Vec<String>, give_up: &Vec<String>) -> (r: Vec<
        String,
    >)
        ensures
            views_of_strings(r@) == to_fetch_spec(
                views_of_strings(candidates@),
                self.files_set(),
                self.dirs_set(),
                strs_set(give_up@),
            ),
    {
        let ghost cviews = views_of_strings(candidates@);
        let n = candidates.len();
        let mut r: Vec<String> = Vec::new();
        let mut i: usize = 0;
        proof {
            assert(cviews.skip(0) =~= cviews);
            assert(views_of_strings(r@) =~= Seq::<Seq<char>>::empty());
        }
        while i < n
            invariant
                n == candidates@.len(),
                cviews == views_of_strings(candidates@),
                0 <= i <= n,
                to_fetch_spec(cviews, self.files_set(), self.dirs_set(), strs_set(give_up@))
                    == to_fetch_rec(
                    cviews.skip(i as int),
                    self.files_set(),
                    self.dirs_set(),
                    strs_set(give_up@),
                    views_of_strings(r@),
                ),
            decreases n - i,
        {
            let c = &candidates[i];
            proof {
                assert(cviews.skip(i as int)[0] == cviews[i as int]);
                assert(cviews[i as int] == candidates@[i as int]@);
                assert(cviews.skip(i as int).drop_first() =~= cviews.skip(i + 1));
                lemma_seq_has_str(r@, c@);
            }
            let skip = self.contains_file(c.as_str()) || self.contains_dir(c.as_str())
                || vec_contains_string(give_up, c.as_str()) || vec_contains_string(&r, c.as_str());
            if !skip {
                let ghost prevr = r@;
                r.push(c.clone());
                proof {
                    assert forall|j: int|
                        0 <= j < r@.len() implies views_of_strings(r@)[j] == (if j
                        < prevr.len() {
                        views_of_strings(prevr)[j]
                    } else {
                        c@
                    }) by {
                        assert(views_of_strings(r@)[j] == r@[j]@);
                    }
                    assert(views_of_strings(r@) =~= views_of_strings(prevr).push(c@));
                }
            }
            i = i + 1;
        }
        proof {
            assert(cviews.skip(n as int) =~= Seq::<Seq<char>>::empty());
        }
        r
    }
}

/// A path already recorded as downloaded is never fetched again.
pub proof fn lemma_no_refetch(
    c: Crashes,
    cands: Seq<Seq<char>>,
    give_up: Set<Seq<char>>,
    p: Seq<char>,
)
    requires
        c.files_set().contains(p),
    ensures
        !to_fetch_spec(cands, c.files_set(), c.dirs_set(), give_up).contains(p),
{
    lemma_to_fetch_rec_membership(cands, c.files_set(), c.dirs_set(), give_up, Seq::empty());
}

/// A path recorded as a directory is never fetched as a file.
pub proof fn lemma_no_fetch_of_directory(
    c: Crashes,
    cands: Seq<Seq<char>>,
    give_up: Set<Seq<char>>,
    p: Seq<char>,
)
    requires
        c.dirs_set().contains(p),
    ensures
        !to_fetch_spec(cands, c.files_set(), c.dirs_set(), give_up).contains(p),
{
    lemma_to_fetch_rec_membership(cands, c.files_set(), c.dirs_set(), give_up, Seq::empty());
}

/// A known directory appears in the listing plan of the next pass.
pub proof fn lemma_dir_is_listed(c: Crashes, p: Seq<char>)
    requires
        c.dirs_set().contains(p),
    ensures
        c.dirs_seq().contains(p),
{
    let i = choose|i: int| 0 <= i < c.crash_dirs@.len() && (#[trigger] c.crash_dirs@[i])@ == p;
    assert(c.dirs_seq()[i] == p);
}

/// What to do when a pull fails.
#[derive(Clone, Copy, Debug, PartialEq, Eq, Structural)]
pub enum PullFailureAction {
    /// The remote path is a directory: record it and recurse next pass.
    MarkDirectory,
    /// The artifact cannot be read this session: do not retry until the
    /// next session, but do not mark it done either.
    GiveUpThisSession,
    /// A transient problem: leave the path alone and retry next pass.
    RetryLater,
}

pub open spec fn classify_pull_failure_spec(
    is_directory: bool,
    err: TransportErrorKind,
) -> PullFailureAction {
    if is_directory {
        PullFailureAction::MarkDirectory
    } else if err.is_give_up() {
        PullFailureAction::GiveUpThisSession
    } else {
        PullFailureAction::RetryLater
    }
}

/// Decide how a failed pull is handled, from the file-info answer and the
/// error kind.
pub fn classify_pull_failure(is_directory: bool, err: TransportErrorKind) -> (r:
    PullFailureAction)
    ensures
        r == classify_pull_failure_spec(is_directory, err),
{
    if is_directory {
        PullFailureAction::MarkDirectory
    } else {
        match err {
            TransportErrorKind::ObjectNotFound => PullFailureAction::GiveUpThisSession,
            TransportErrorKind::PermissionDenied => PullFailureAction::GiveUpThisSession,
            _ => PullFailureAction::RetryLater,
        }
    }
}

/// Whether a file-info mode string reports a directory.
pub fn file_mode_is_directory(mode: &str) -> (r: bool)
    ensures
        r == (mode@ == "S_IFDIR"@),
{
    str_eq(mode, "S_IFDIR")
}

/// Device-side partial captures carry this name prefix and are never
/// fetched.
pub open spec fn in_progress_prefix() -> Seq<char> {
    "IN_PROGRESS_sysdiagnose_"@
}

/// Names that a directory listing reports but that are not artifacts: the
/// current and parent directory, and partial captures.
pub open spec fn skip_name(n: Seq<char>) -> bool {
    ||| n == "."@
    ||| n == ".."@
    ||| (n.len() >= in_progress_prefix().len() && n.take(in_progress_prefix().len() as int)
        == in_progress_prefix())
}

/// A directory entry as a remote path: the directory, a separator, the
/// name.
pub open spec fn joined_path(dir: Seq<char>, name: Seq<char>) -> Seq<char> {
    dir + "/"@ + name
}

/// The candidate paths contributed by one directory listing, in order,
/// with non-artifact names dropped.
pub open spec fn dir_entries_spec(dir: Seq<char>, names: Seq<Seq<char>>) -> Seq<Seq<char>>
    decreases names.len(),
{
    if names.len() == 0 {
        Seq::empty()
    } else if skip_name(names[0]) {
        dir_entries_spec(dir, names.drop_first())
    } else {
        seq![joined_path(dir, names[0])] + dir_entries_spec(dir, names.drop_first())
    }
}

/// Whether a listed name is skipped.
fn is_skipped_name(n: &str) -> (r: bool)
    ensures
        r == skip_name(n@),
{
    str_eq(n, ".") || str_eq(n, "..") || has_prefix(n, "IN_PROGRESS_sysdiagnose_")
}

/// The candidate paths of one listed directory.
pub fn collect_dir_entries(dir: &str, names: &Vec<String>) -> (r: Vec<String>)
    ensures
        views_of_strings(r@) == dir_entries_spec(dir@, views_of_strings(names@)),
{
    let ghost nviews = views_of_strings(names@);
    let n = names.len();
    let mut r: Vec<String> = Vec::new();
    let mut i: usize = 0;
    proof {
        assert(nviews.skip(0) =~= nviews);
        assert(views_of_strings(r@) =~= Seq::<Seq<char>>::empty());
        assert(Seq::<Seq<char>>::empty() + dir_entries_spec(dir@, nviews) =~= dir_entries_spec(
            dir@,
            nviews,
        ));
    }
    while i < n
        invariant
            n == names@.len(),
            nviews == views_of_strings(names@),
            0 <= i <= n,
            dir_entries_spec(dir@, nviews) == views_of_strings(r@) + dir_entries_spec(
                dir@,
                nviews.skip(i as int),
            ),
        decreases n - i,
    {
        proof {
            assert(nviews.skip(i as int)[0] == nviews[i as int]);
            assert(nviews[i as int] == names@[i as int]@);
            assert(nviews.skip(i as int).drop_first() =~= nviews.skip(i + 1));
        }
        let name = &names[i];
        if !is_skipped_name(name.as_str()) {
            let joined = concat_strs(concat_strs(dir, "/").as_str(), name.as_str());
            let ghost prevr = r@;
            r.push(joined);
            proof {
                assert forall|j: int|
                    0 <= j < r@.len() implies views_of_strings(r@)[j] == (if j < prevr.len() {
                    views_of_strings(prevr)[j]
                } else {
                    joined_path(dir@, nviews[i as int])
                }) by {
                    assert(views_of_strings(r@)[j] == r@[j]@);
                }
                assert(views_of_strings(r@) =~= views_of_strings(prevr).push(
                    joined_path(dir@, nviews[i as int]),
                ));
                assert(views_of_strings(prevr) + (seq![joined_path(dir@, nviews[i as int])]
                    + dir_entries_spec(dir@, nviews.skip(i + 1))) =~= views_of_strings(r@)
                    + dir_entries_spec(dir@, nviews.skip(i + 1)));
            }
        }
        i = i + 1;
    }
    proof {
        assert(nviews.skip(n as int) =~= Seq::<Seq<char>>::empty());
        assert(views_of_strings(r@) + dir_entries_spec(dir@, nviews.skip(n as int))
            =~= views_of_strings(r@));
    }
    r
}

/// The views of a set of directory listings.
pub open spec fn listing_views(l: Seq<(String, Vec<String>)>) -> Seq<(Seq<char>, Seq<Seq<char>>)> {
    l.map_values(|p: (String, Vec<String>)| (p.0@, views_of_strings(p.1@)))
}

/// All candidates of one pass: the root listing followed by the filtered
/// entries of each listed directory, in order.
pub open spec fn candidates_rec(
    listings: Seq<(Seq<char>, Seq<Seq<char>>)>,
    acc: Seq<Seq<char>>,
) -> Seq<Seq<char>>
    decreases listings.len(),
{
    if listings.len() == 0 {
        acc
    } else {
        candidates_rec(
            listings.drop_first(),
            acc + dir_entries_spec(listings[0].0, listings[0].1),
        )
    }
}

pub open spec fn candidates_spec(
    root: Seq<Seq<char>>,
    listings: Seq<(Seq<char>, Seq<Seq<char>>)>,
) -> Seq<Seq<char>> {
    candidates_rec(listings, root)
}

/// Combine the root listing and the per-directory listings into the
/// candidate paths of one pass.
pub fn session_candidates(root: &Vec<String>, listings: &Vec<(String, Vec<String>)>) -> (r: Vec<
    String,
>)
    ensures
        views_of_strings(r@) == candidates_spec(views_of_strings(root@), listing_views(listings@)),
{
    let ghost lviews = listing_views(listings@);
    let n = listings.len();
    let mut r: Vec<String> = Vec::new();
    let mut i: usize = 0;
    while i < root.len()
        invariant
            0 <= i <= root@.len(),
            r@.len() == i,
            forall|j: int| 0 <= j < i ==> (#[trigger] r@[j])@ == root@[j]@,
        decreases root@.len() - i,
    {
        r.push(root[i].clone());
        i = i + 1;
    }
    proof {
        assert forall|j: int|
            0 <= j < r@.len() implies views_of_strings(r@)[j] == views_of_strings(root@)[j] by {
            assert(views_of_strings(r@)[j] == r@[j]@);
        }
        assert(views_of_strings(r@) =~= views_of_strings(root@));
        assert(lviews.skip(0) =~= lviews);
    }
    let mut k: usize = 0;
    while k < n
        invariant
            n == listings@.len(),
            lviews == listing_views(listings@),
            0 <= k <= n,
            candidates_spec(views_of_strings(root@), lviews) == candidates_rec(
                lviews.skip(k as int),
                views_of_strings(r@),
            ),
        decreases n - k,
    {
        proof {
            assert(lviews.skip(k as int)[0] == lviews[k as int]);
            assert(lviews[k as int] == (listings@[k as int].0@, views_of_strings(
                listings@[k as int].1@,
            )));
            assert(lviews.skip(k as int).drop_first() =~= lviews.skip(k + 1));
        }
        let entries = collect_dir_entries(listings[k].0.as_str(), &listings[k].1);
        let ghost prevr = r@;
        let mut e: usize = 0;
        while e < entries.len()
            invariant
                0 <= e <= entries@.len(),
                r@.len() == prevr.len() + e,
                forall|j: int| 0 <= j < prevr.len() ==> (#[trigger] r@[j]) == prevr[j],
                forall|j: int|
                    prevr.len() <= j < r@.len() ==> (#[trigger] r@[j]) == entries@[j
                        - prevr.len()],
            decreases entries@.len() - e,
        {
            r.push(entries[e].clone());
            e = e + 1;
        }
        proof {
            assert forall|j: int|
                0 <= j < r@.len() implies views_of_strings(r@)[j] == (views_of_strings(prevr)
                + views_of_strings(entries@))[j] by {
                assert(views_of_strings(r@)[j] == r@[j]@);
            }
            assert(views_of_strings(r@) =~= views_of_strings(prevr) + views_of_strings(entries@));
        }
        k = k + 1;
    }
    proof {
        assert(lviews.skip(n as int) =~= Seq::<(Seq<char>, Seq<Seq<char>>)>::empty());
    }
    r
}

/// Remove the (at most one) element with the characters of `s` from a
/// duplicate-free vector.
fn remove_str(v: &mut Vec<String>, s: &String)
    requires
        unique_strs(old(v)@),
    ensures
        unique_strs(final(v)@),
        strs_set(final(v)@) == strs_set(old(v)@).remove(s@),
{
    let n = v.len();
    let mut out: Vec<String> = Vec::new();
    let mut i: usize = 0;
    while i < n
        invariant
            v@ == old(v)@,
            unique_strs(v@),
            n == v@.len(),
            0 <= i <= n,
            forall|k: int| 0 <= k < out@.len() ==> (#[trigger] out@[k])@ != s@,
            forall|k: int|
                0 <= k < out@.len() ==> exists|w: int|
                    0 <= w < i && v@[w]@ == (#[trigger] out@[k])@,
            forall|j: int| 0 <= j < i && (#[trigger] v@[j])@ != s@ ==> seq_has_str(out@, v@[j]@),
            unique_strs(out@),
        decreases n - i,
    {
        let keep = !str_eq(v[i].as_str(), s.as_str());
        if keep {
            let ghost prevout = out@;
            out.push(v[i].clone());
            proof {
                assert(out@.len() == prevout.len() + 1);
                assert(out@[prevout.len() as int]@ == v@[i as int]@);
                assert(forall|k: int| 0 <= k < prevout.len() ==> out@[k] == prevout[k]);
                assert forall|k: int|
                    0 <= k < out@.len() implies exists|w: int|
                    0 <= w < i + 1 && v@[w]@ == (#[trigger] out@[k])@ by {
                    if k < prevout.len() {
                        let w = choose|w: int| 0 <= w < i && v@[w]@ == prevout[k]@;
                        assert(v@[w]@ == out@[k]@);
                    } else {
                        assert(v@[i as int]@ == out@[k]@);
                    }
                }
                assert forall|j: int|
                    0 <= j < i + 1 && (#[trigger] v@[j])@ != s@ implies seq_has_str(
                    out@,
                    v@[j]@,
                ) by {
                    if j < i {
                        let k = choose|k: int| 0 <= k < prevout.len() && prevout[k]@ == v@[j]@;
                        assert(out@[k]@ == v@[j]@);
                    } else {
                        assert(out@[prevout.len() as int]@ == v@[j]@);
                    }
                }
                assert forall|a: int, b: int|
                    0 <= a < b < out@.len() implies (#[trigger] out@[a])@ != (
                #[trigger] out@[b])@ by {
                    if b == prevout.len() {
                        let w = choose|w: int| 0 <= w < i && v@[w]@ == prevout[a]@;
                        assert(v@[w]@ != v@[i as int]@);
                    }
                }
            }
        }
        i = i + 1;
    }
    let ghost orig = v@;
    *v = out;
    proof {
        assert forall|x: Seq<char>|
            strs_set(v@).contains(x) implies strs_set(orig).remove(s@).contains(x) by {
            let k = choose|k: int| 0 <= k < v@.len() && (#[trigger] v@[k])@ == x;
            let w = choose|w: int| 0 <= w < n && orig[w]@ == v@[k]@;
            assert(seq_has_str(orig, x));
        }
        assert forall|x: Seq<char>|
            strs_set(orig).remove(s@).contains(x) implies strs_set(v@).contains(x) by {
            let j = choose|j: int| 0 <= j < orig.len() && (#[trigger] orig[j])@ == x;
            assert(seq_has_str(v@, orig[j]@));
        }
        assert(strs_set(v@) =~= strs_set(orig).remove(s@));
    }
}

/// Append `s` unless an element with the same characters is present.
fn push_if_absent(v: &mut Vec<String>, s: &String)
    requires
        unique_strs(old(v)@),
    ensures
        unique_strs(final(v)@),
        strs_set(final(v)@) == strs_set(old(v)@).insert(s@),
{
    if vec_contains_string(v, s.as_str()) {
        proof {
            assert(strs_set(v@) =~= strs_set(v@).insert(s@));
        }
        return ;
    }
    let ghost prev = v@;
    v.push(s.clone());
    proof {
        assert(v@.len() == prev.len() + 1);
        assert(v@[prev.len() as int]@ == s@);
        assert(forall|j: int| 0 <= j < prev.len() ==> v@[j] == prev[j]);
        assert forall|a: int, b: int|
            0 <= a < b < v@.len() implies (#[trigger] v@[a])@ != (#[trigger] v@[b])@ by {
            if b == prev.len() {
                assert(v@[b]@ == s@);
                if v@[a]@ == s@ {
                    assert(prev[a]@ == s@);
                    assert(seq_has_str(prev, s@));
                }
            }
        }
        assert forall|x: Seq<char>|
            strs_set(v@).contains(x) implies strs_set(prev).insert(s@).contains(x) by {
            let k = choose|k: int| 0 <= k < v@.len() && (#[trigger] v@[k])@ == x;
            if k < prev.len() {
                assert(seq_has_str(prev, x));
            }
        }
        assert forall|x: Seq<char>|
            strs_set(prev).insert(s@).contains(x) implies strs_set(v@).contains(x) by {
            if x == s@ {
                assert(v@[prev.len() as int]@ == x);
            } else {
                let k = choose|k: int| 0 <= k < prev.len() && (#[trigger] prev[k])@ == x;
                assert(v@[k]@ == x);
            }
        }
        assert(strs_set(v@) =~= strs_set(prev).insert(s@));
    }
}

/// Delay between two polls of a live crash session, and before a failed
/// connection is retried.
pub const CRASH_POLL_WAIT_SECS: u64 = 15;

/// The crash harvester's phase.
#[derive(Clone, Copy, Debug, PartialEq, Eq, Structural)]
pub enum CrashPhase {
    /// Waiting for readiness before anything is attempted.
    WaitingReady,
    /// Readiness observed; a connection attempt is under way.
    Connecting,
    /// A crash service session is live and polled every few seconds.
    Sessioning,
}

/// What the harvester observed.
#[derive(Clone, Copy, Debug, PartialEq, Eq, Structural)]
pub enum CrashEvent {
    /// The readiness signal was read at the top of the loop.
    ReadyObserved { ready: bool },
    /// The crash service connected.
    ConnectOk,
    /// Connecting failed or hit the outer cap.
    ConnectFailed,
    /// One pass over the listing completed.
    SessionPassOk,
    /// The session broke during a pass.
    SessionPassFailed { err: TransportErrorKind },
}

/// What the harvester does in response.
#[derive(Clone, Copy, Debug, PartialEq, Eq)]
pub struct CrashStep {
    pub next: CrashPhase,
    /// Open a connection now.
    pub connect: bool,
    /// Run one pass over the listing against the live session.
    pub run_pass: bool,
    pub sleep_secs: u64,
}

/// One transition of the crash harvester: it connects only on observed
/// readiness; a live session is polled every few seconds; any session
/// error is absorbed by falling back to waiting and reconnecting.
pub open spec fn crash_step_spec(phase: CrashPhase, event: CrashEvent) -> CrashStep {
    let stay = CrashStep { next: phase, connect: false, run_pass: false, sleep_secs: 0 };
    match (phase, event) {
        (CrashPhase::WaitingReady, CrashEvent::ReadyObserved { ready }) => if ready {
            CrashStep { next: CrashPhase::Connecting, connect: true, run_pass: false, sleep_secs: 0 }
        } else {
            CrashStep {
                next: CrashPhase::WaitingReady,
                connect: false,
                run_pass: false,
                sleep_secs: CRASH_POLL_WAIT_SECS,
            }
        },
        (CrashPhase::Connecting, CrashEvent::ConnectOk) => CrashStep {
            next: CrashPhase::Sessioning,
            connect: false,
            run_pass: true,
            sleep_secs: 0,
        },
        (CrashPhase::Connecting, CrashEvent::ConnectFailed) => CrashStep {
            next: CrashPhase::WaitingReady,
            connect: false,
            run_pass: false,
            sleep_secs: CRASH_POLL_WAIT_SECS,
        },
        (CrashPhase::Sessioning, CrashEvent::SessionPassOk) => CrashStep {
            next: CrashPhase::Sessioning,
            connect: false,
            run_pass: true,
            sleep_secs: CRASH_POLL_WAIT_SECS,
        },
        (CrashPhase::Sessioning, CrashEvent::SessionPassFailed { .. }) => CrashStep {
            next: CrashPhase::WaitingReady,
            connect: false,
            run_pass: false,
            sleep_secs: CRASH_POLL_WAIT_SECS,
        },
        _ => stay,
    }
}

/// Decide the harvester's response to one event.
pub fn crash_step(phase: CrashPhase, event: CrashEvent) -> (r: CrashStep)
    ensures
        r == crash_step_spec(phase, event),
{
    let stay = CrashStep { next: phase, connect: false, run_pass: false, sleep_secs: 0 };
    match (phase, event) {
        (CrashPhase::WaitingReady, CrashEvent::ReadyObserved { ready }) => if ready {
            CrashStep { next: CrashPhase::Connecting, connect: true, run_pass: false, sleep_secs: 0 }
        } else {
            CrashStep {
                next: CrashPhase::WaitingReady,
                connect: false,
                run_pass: false,
                sleep_secs: CRASH_POLL_WAIT_SECS,
            }
        },
        (CrashPhase::Connecting, CrashEvent::ConnectOk) => CrashStep {
            next: CrashPhase::Sessioning,
            connect: false,
            run_pass: true,
            sleep_secs: 0,
        },
        (CrashPhase::Connecting, CrashEvent::ConnectFailed) => CrashStep {
            next: CrashPhase::WaitingReady,
            connect: false,
            run_pass: false,
            sleep_secs: CRASH_POLL_WAIT_SECS,
        },
        (CrashPhase::Sessioning, CrashEvent::SessionPassOk) => CrashStep {
            next: CrashPhase::Sessioning,
            connect: false,
            run_pass: true,
            sleep_secs: CRASH_POLL_WAIT_SECS,
        },
        (CrashPhase::Sessioning, CrashEvent::SessionPassFailed { .. }) => CrashStep {
            next: CrashPhase::WaitingReady,
            connect: false,
            run_pass: false,
            sleep_secs: CRASH_POLL_WAIT_SECS,
        },
        _ => stay,
    }
}

/// While readiness is `false`, no step of the harvester opens a
/// connection.
pub proof fn lemma_crash_connects_only_when_ready(phase: CrashPhase, event: CrashEvent)
    ensures
        crash_step_spec(phase, event).connect ==> event == (CrashEvent::ReadyObserved {
            ready: true,
        }),
{
}

/// What a component file decodes to: a missing or empty file stands for no
/// entries, anything else must be the JSON text of the entries.
pub open spec fn component_decodes_to(content: Option<&str>, items: Seq<Seq<char>>) -> bool {
    match content {
        None => items == Seq::<Seq<char>>::empty(),
        Some(s) => if s@.len() == 0 {
            items == Seq::<Seq<char>>::empty()
        } else {
            s@ == json_of_strings(items)
        },
    }
}

/// Decode one component file of the known-set.
fn component_from(content: Option<&str>) -> (r: Result<Vec<String>, PersistError>)
    ensures
        forall|items: Seq<Seq<char>>|
            component_decodes_to(content, items) ==> (r matches Ok(v) && views_of_strings(v@)
                == items),
{
    match content {
        None => {
            let v: Vec<String> = Vec::new();
            proof {
                assert(views_of_strings(v@) =~= Seq::<Seq<char>>::empty());
            }
            Ok(v)
        },
        Some(s) => {
            if s.is_empty() {
                let v: Vec<String> = Vec::new();
                proof {
                    assert(views_of_strings(v@) =~= Seq::<Seq<char>>::empty());
                }
                Ok(v)
            } else {
                match decode_strings(s) {
                    Some(v) => Ok(v),
                    None => Err(PersistError::Json),
                }
            }
        },
    }
}

impl Crashes {
    /// The two persisted JSON texts: the downloaded paths and the known
    /// directories, each a JSON array of strings.
    pub fn to_json(&self) -> (r: (String, String))
        ensures
            r.0@ == json_of_strings(self.files_seq()),
            r.1@ == json_of_strings(self.dirs_seq()),
    {
        (encode_strings(&self.crash_files), encode_strings(&self.crash_dirs))
    }

    /// Rebuild the Known-Set from what was found on disk. A missing or
    /// empty file stands for an empty set. The lists are de-duplicated and
    /// any path in both lists is kept as a directory only, so the result is
    /// always well-formed.
    pub fn from_json(files_content: Option<&str>, dirs_content: Option<&str>) -> (r: Result<
        Crashes,
        PersistError,
    >)
        ensures
            r matches Ok(c) ==> c.wf(),
            forall|fs: Seq<Seq<char>>, ds: Seq<Seq<char>>|
                component_decodes_to(files_content, fs) && component_decodes_to(dirs_content, ds)
                    ==> (r matches Ok(c) && c.files_set() == chars_set(fs).difference(
                    chars_set(ds),
                ) && c.dirs_set() == chars_set(ds)),
    {
        let fv = match component_from(files_content) {
            Ok(v) => v,
            Err(e) => {
                return Err(e);
            },
        };
        let dv = match component_from(dirs_content) {
            Ok(v) => v,
            Err(e) => {
                return Err(e);
            },
        };
        let mut dirs: Vec<String> = Vec::new();
        let mut i: usize = 0;
        proof {
            assert(strs_set(dirs@) =~= chars_set(views_of_strings(dv@).take(0)));
        }
        while i < dv.len()
            invariant
                0 <= i <= dv@.len(),
                unique_strs(dirs@),
                strs_set(dirs@) == chars_set(views_of_strings(dv@).take(i as int)),
            decreases dv@.len() - i,
        {
            push_if_absent(&mut dirs, &dv[i]);
            proof {
                lemma_take_grow(views_of_strings(dv@), i as int);
                assert(views_of_strings(dv@)[i as int] == dv@[i as int]@);
                assert(strs_set(dirs@) =~= chars_set(views_of_strings(dv@).take(i + 1)));
            }
            i = i + 1;
        }
        proof {
            assert(views_of_strings(dv@).take(dv@.len() as int) =~= views_of_strings(dv@));
        }
        let mut files: Vec<String> = Vec::new();
        let mut k: usize = 0;
        proof {
            assert(strs_set(files@) =~= chars_set(views_of_strings(fv@).take(0)).difference(
                strs_set(dirs@),
            ));
        }
        while k < fv.len()
            invariant
                0 <= k <= fv@.len(),
                unique_strs(dirs@),
                unique_strs(files@),
                strs_set(files@) == chars_set(views_of_strings(fv@).take(k as int)).difference(
                    strs_set(dirs@),
                ),
            decreases fv@.len() - k,
        {
            proof {
                lemma_take_grow(views_of_strings(fv@), k as int);
                assert(views_of_strings(fv@)[k as int] == fv@[k as int]@);
                lemma_seq_has_str(dirs@, fv@[k as int]@);
            }
            if !vec_contains_string(&dirs, fv[k].as_str()) {
                push_if_absent(&mut files, &fv[k]);
            }
            proof {
                assert(strs_set(files@) =~= chars_set(views_of_strings(fv@).take(k + 1))
                    .difference(strs_set(dirs@)));
            }
            k = k + 1;
        }
        proof {
            assert(views_of_strings(fv@).take(fv@.len() as int) =~= views_of_strings(fv@));
        }
        let c = Crashes { crash_files: files, crash_dirs: dirs };
        proof {
            assert forall|x: Seq<char>|
                !(c.files_set().contains(x) && c.dirs_set().contains(x)) by {}
        }
        Ok(c)
    }
}

/// Extending a prefix by one element extends its set of strings by that
/// element.
proof fn lemma_take_grow(s: Seq<Seq<char>>, i: int)
    requires
        0 <= i < s.len(),
    ensures
        chars_set(s.take(i + 1)) == chars_set(s.take(i)).insert(s[i]),
{
    assert forall|x: Seq<char>|
        chars_set(s.take(i + 1)).contains(x) implies chars_set(s.take(i)).insert(s[i]).contains(
        x,
    ) by {
        let k = choose|k: int| 0 <= k < s.take(i + 1).len() && #[trigger] s.take(i + 1)[k] == x;
        if k < i {
            assert(s.take(i)[k] == x);
        }
    }
    assert forall|x: Seq<char>|
        chars_set(s.take(i)).insert(s[i]).contains(x) implies chars_set(s.take(i + 1)).contains(
        x,
    ) by {
        if x == s[i] {
            assert(s.take(i + 1)[i] == x);
        } else {
            let k = choose|k: int| 0 <= k < s.take(i).len() && #[trigger] s.take(i)[k] == x;
            assert(s.take(i + 1)[k] == x);
        }
    }
    assert(chars_set(s.take(i + 1)) =~= chars_set(s.take(i)).insert(s[i]));
}

} // verus!
