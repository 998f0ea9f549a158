//! The page downloader's decision logic: the directory-existence policy,
//! the per-page resume rule, the set of pages one download run fetches, the
//! admission control that caps concurrent page fetches, and the page range
//! a query run covers. Filesystem and network work stay with the caller,
//! which feeds plain observations in and carries the decisions out.

use vstd::prelude::*;

verus! {

/// The hard cap on page fetches in flight for one gallery.
pub const CONCURRENT_FETCH_LIMIT: usize = 5;

/// What stands at the gallery's destination path before a download.
#[derive(Debug, Clone, Copy, PartialEq, Eq, Structural)]
pub enum DirState {
    /// Nothing exists at the path.
    Missing,
    /// A directory exists at the path.
    IsDir,
    /// Something other than a directory occupies the path.
    IsFile,
}

/// What the directory-existence policy decides.
#[derive(Debug, Clone, Copy, PartialEq, Eq, Structural)]
pub enum DirPlan {
    /// Create the directory; a fresh directory fetches every page.
    CreateAndFetchAll,
    /// The directory pre-exists and missing-page checking is on: fetch
    /// what the resume rule selects.
    FetchMissing,
    /// The directory pre-exists and missing-page checking is off: return
    /// without touching any page.
    SkipAll,
    /// A file occupies the expected directory path: fail the gallery.
    FailOccupied,
}

/// The directory-existence policy: absent is created, a non-directory is
/// fatal, a pre-existing directory downloads only when missing-page
/// checking is requested.
pub open spec fn spec_dir_plan(state: DirState, check_missing: bool) -> DirPlan {
    match state {
        DirState::Missing => DirPlan::CreateAndFetchAll,
        DirState::IsFile => DirPlan::FailOccupied,
        DirState::IsDir => if check_missing {
            DirPlan::FetchMissing
        } else {
            DirPlan::SkipAll
        },
    }
}

/// Decides what to do with the gallery's destination directory.
pub fn dir_plan(state: DirState, check_missing: bool) -> (r: DirPlan)
    ensures
        r == spec_dir_plan(state, check_missing),
{
    match state {
        DirState::Missing => DirPlan::CreateAndFetchAll,
        DirState::IsFile => DirPlan::FailOccupied,
        DirState::IsDir => if check_missing {
            DirPlan::FetchMissing
        } else {
            DirPlan::SkipAll
        },
    }
}

/// The per-page resume rule: a page is skipped only when overwriting is
/// off, the gallery directory pre-existed this run, and the page's file is
/// already present; a freshly created directory fetches everything.
pub open spec fn spec_should_fetch(overwrite: bool, gallery_existed: bool, present: bool) -> bool {
    overwrite || !gallery_existed || !present
}

/// Decides whether one page is fetched, by the per-page resume rule.
pub fn should_fetch_page(overwrite: bool, gallery_existed: bool, present: bool) -> (r: bool)
    ensures
        r == spec_should_fetch(overwrite, gallery_existed, present),
{
    overwrite || !gallery_existed || !present
}

/// The 1-based page indices the resume rule selects among pages `1..=n`,
/// in increasing order; `present[p - 1]` tells whether page `p`'s file is
/// already on disk.
pub open spec fn spec_download_plan(
    n: nat,
    overwrite: bool,
    gallery_existed: bool,
    present: Seq<bool>,
) -> Seq<usize>
    recommends
        n <= present.len(),
        n <= usize::MAX,
    decreases n,
{
    if n == 0 {
        Seq::empty()
    } else {
        let prefix = spec_download_plan((n - 1) as nat, overwrite, gallery_existed, present);
        if spec_should_fetch(overwrite, gallery_existed, present[n - 1]) {
            prefix + seq![n as usize]
        } else {
            prefix
        }
    }
}

/// The pages one download run fetches: `present[p - 1]` reports whether
/// page `p`'s file already exists.
pub fn download_plan(overwrite: bool, gallery_existed: bool, present: &Vec<bool>) -> (r: Vec<
    usize,
>)
    ensures
        r@ == spec_download_plan(present@.len(), overwrite, gallery_existed, present@),
{
    let mut r: Vec<usize> = Vec::new();
    let mut i: usize = 0;
    while i < present.len()
        invariant
            i <= present@.len(),
            r@ == spec_download_plan(i as nat, overwrite, gallery_existed, present@),
        decreases present@.len() - i,
    {
        let ghost old_r = r@;
        if should_fetch_page(overwrite, gallery_existed, present[i]) {
            r.push(i + 1);
            proof {
                assert(r@ =~= old_r + seq![(i + 1) as usize]);
            }
        }
        i = i + 1;
    }
    r
}

/// The resume policy, characterized pointwise: page `p` stands in the plan
/// exactly when the resume rule fetches it; the plan lists pages within
/// `1..=n`, strictly increasing.
pub proof fn lemma_download_plan_characterization(
    n: nat,
    overwrite: bool,
    gallery_existed: bool,
    present: Seq<bool>,
)
    requires
        n <= present.len(),
        n <= usize::MAX,
    ensures
        forall|p: int|
            1 <= p <= n ==> (spec_download_plan(n, overwrite, gallery_existed, present).contains(
                #[trigger] (p as usize),
            ) <==> spec_should_fetch(overwrite, gallery_existed, present[p - 1])),
        forall|k: int|
            0 <= k < spec_download_plan(n, overwrite, gallery_existed, present).len() ==> 1 <= (
            #[trigger] spec_download_plan(n, overwrite, gallery_existed, present)[k]) <= n,
        forall|k1: int, k2: int|
            0 <= k1 < k2 < spec_download_plan(n, overwrite, gallery_existed, present).len()
                ==> spec_download_plan(n, overwrite, gallery_existed, present)[k1] < spec_download_plan(
                n,
                overwrite,
                gallery_existed,
                present,
            )[k2],
    decreases n,
{
    if n > 0 {
        lemma_download_plan_characterization((n - 1) as nat, overwrite, gallery_existed, present);
        let prefix = spec_download_plan((n - 1) as nat, overwrite, gallery_existed, present);
        let plan = spec_download_plan(n, overwrite, gallery_existed, present);
        assert forall|p: int| 1 <= p <= n implies (plan.contains(#[trigger] (p as usize))
            <==> spec_should_fetch(overwrite, gallery_existed, present[p - 1])) by {
            if spec_should_fetch(overwrite, gallery_existed, present[n - 1]) {
                assert(plan =~= prefix + seq![n as usize]);
                assert(plan[plan.len() - 1] == n as usize);
                if p == n {
                    assert(plan.contains(p as usize));
                } else {
                    if plan.contains(p as usize) {
                        let k = choose|k: int| 0 <= k < plan.len() && plan[k] == p as usize;
                        assert(k < plan.len() - 1 ==> prefix[k] == p as usize);
                        assert(k == plan.len() - 1 ==> plan[k] == n as usize);
                        assert(prefix.contains(p as usize));
                    }
                    if prefix.contains(p as usize) {
                        let k = choose|k: int| 0 <= k < prefix.len() && prefix[k] == p as usize;
                        assert(plan[k] == p as usize);
                    }
                }
            } else {
                assert(plan == prefix);
                if p == n {
                    if plan.contains(p as usize) {
                        let k = choose|k: int| 0 <= k < plan.len() && plan[k] == p as usize;
                        assert(1 <= prefix[k] <= n - 1);
                    }
                } else {
                    if plan.contains(p as usize) {
                        let k = choose|k: int| 0 <= k < plan.len() && plan[k] == p as usize;
                        assert(prefix.contains(p as usize));
                    }
                    if prefix.contains(p as usize) {
                        let k = choose|k: int| 0 <= k < prefix.len() && prefix[k] == p as usize;
                        assert(plan[k] == p as usize);
                    }
                }
            }
        }
    }
}

/// Admission control for one gallery's page fetches: pages are issued in
/// order and at most [`CONCURRENT_FETCH_LIMIT`] are in flight at once.
/// The caller starts a fetch for each index the scheduler hands out and
/// reports each outcome back, success or failure alike.
pub struct FetchScheduler {
    issued: usize,
    completed: usize,
    total: usize,
}

impl FetchScheduler {
    /// How many pages have been handed out so far.
    pub closed spec fn spec_issued(&self) -> int {
        self.issued as int
    }

    /// How many outcomes have been reported back.
    pub closed spec fn spec_completed(&self) -> int {
        self.completed as int
    }

    /// How many pages the gallery has.
    pub closed spec fn spec_total(&self) -> int {
        self.total as int
    }

    /// How many fetches are in flight: issued and not yet resolved.
    pub open spec fn in_flight(&self) -> int {
        self.spec_issued() - self.spec_completed()
    }

    /// Well-formedness: completions never outrun issues, issues never
    /// outrun the page count, and the in-flight window stays within the
    /// cap.
    pub open spec fn wf(&self) -> bool {
        0 <= self.spec_completed() <= self.spec_issued() <= self.spec_total() && self.in_flight()
            <= CONCURRENT_FETCH_LIMIT as int
    }

    /// A scheduler for a gallery of `total` pages, nothing issued yet.
    pub fn new(total: usize) -> (s: FetchScheduler)
        ensures
            s.wf(),
            s.spec_total() == total,
            s.spec_issued() == 0,
            s.spec_completed() == 0,
    {
        FetchScheduler { issued: 0, completed: 0, total }
    }

    /// Hands out the next page index when pages remain and the in-flight
    /// window has room; the window never exceeds the cap.
    pub fn try_start(&mut self) -> (r: Option<usize>)
        requires
            old(self).wf(),
        ensures
            final(self).wf(),
            final(self).in_flight() <= CONCURRENT_FETCH_LIMIT as int,
            final(self).spec_completed() == old(self).spec_completed(),
            final(self).spec_total() == old(self).spec_total(),
            (r is Some) <==> (old(self).spec_issued() < old(self).spec_total()
                && old(self).in_flight() < CONCURRENT_FETCH_LIMIT as int),
            r matches Some(p) ==> p == old(self).spec_issued() + 1
                && 1 <= p <= final(self).spec_total()
                && final(self).spec_issued() == old(self).spec_issued() + 1,
            r is None ==> *final(self) == *old(self),
    {
        if self.issued < self.total && self.issued - self.completed < CONCURRENT_FETCH_LIMIT {
            self.issued = self.issued + 1;
            Some(self.issued)
        } else {
            None
        }
    }

    /// Records one fetch outcome, freeing its slot in the window.
    pub fn finish(&mut self)
        requires
            old(self).wf(),
            old(self).in_flight() > 0,
        ensures
            final(self).wf(),
            final(self).spec_completed() == old(self).spec_completed() + 1,
            final(self).spec_issued() == old(self).spec_issued(),
            final(self).spec_total() == old(self).spec_total(),
    {
        self.completed = self.completed + 1;
    }

    /// How many fetches are in flight right now.
    pub fn current_in_flight(&self) -> (r: usize)
        requires
            self.wf(),
        ensures
            r == self.in_flight(),
    {
        self.issued - self.completed
    }

    /// Whether every page's outcome, success or logged failure, is
    /// resolved.
    pub fn done(&self) -> (r: bool)
        requires
            self.wf(),
        ensures
            r == (self.spec_completed() == self.spec_total()),
    {
        self.completed == self.total
    }
}

/// The concurrency cap: a well-formed scheduler never has more than
/// [`CONCURRENT_FETCH_LIMIT`] page fetches in flight, whatever order the
/// caller interleaves starts and completions in.
pub proof fn lemma_in_flight_capped(s: FetchScheduler)
    requires
        s.wf(),
    ensures
        s.in_flight() <= CONCURRENT_FETCH_LIMIT as int,
{
}

/// The last page a query run covers: an explicit last page wins; a page
/// count of zero means every page; otherwise the run covers `count` pages
/// from `first`, saturating to the total on overflow; the result never
/// exceeds the total.
pub open spec fn spec_resolve_last_page(
    first: u32,
    last: Option<u32>,
    count: Option<u32>,
    total: u32,
) -> int {
    let wanted: int = match (last, count) {
        (Some(l), _) => l as int,
        (None, Some(c)) => if c == 0 {
            total as int
        } else if first + c - 1 > u32::MAX {
            total as int
        } else {
            first + c - 1
        },
        (None, None) => total as int,
    };
    if wanted < total {
        wanted
    } else {
        total as int
    }
}

/// Resolves the last page of a query run from the caller's bounds and the
/// session's total page count.
pub fn resolve_last_page(first: u32, last: Option<u32>, count: Option<u32>, total: u32) -> (r:
    u32)
    requires
        last is Some || count is Some,
    ensures
        r == spec_resolve_last_page(first, last, count, total),
{
    let wanted: u32 = match (last, count) {
        (Some(l), _) => l,
        (None, Some(c)) => if c == 0 {
            total
        } else {
            let d = c - 1;
            if d > u32::MAX - first {
                total
            } else {
                first + d
            }
        },
        (None, None) => total,
    };
    if wanted < total {
        wanted
    } else {
        total
    }
}

} // verus!
