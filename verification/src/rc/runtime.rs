//! An explicit model of the foreign runtime's memory primitives.
//!
//! The foreign runtime keeps, for every object, a hidden retain counter:
//! `retain` increments it, `release` decrements it and deallocates the object
//! at zero, and `autorelease` defers one release until the innermost open
//! autorelease pool drains.  [`Runtime`] makes that state explicit: a table
//! of per-object counters, a LIFO stack of open pools, and counters of the
//! retain / release / autorelease calls issued so far, so that contracts can
//! speak about the exact trace of foreign calls an operation performs.
//!
//! Objects are named by non-zero addresses; the address `0` is the null
//! pointer and never names an object.  Addresses are never reused.
//!
//! Two ghost fields do the credit accounting that the foreign runtime cannot
//! see: `credits` counts, per object, the retain credits currently owned by
//! live handles, and `exclusives` marks the objects on which an exclusively
//! owning handle is outstanding.  The well-formedness predicate
//! [`RuntimeView::wf`] ties them to the real counters: no object ever owes
//! more releases (handle credits plus pool deposits) than its counter holds,
//! and an exclusively held object has exactly one handle credit.

use vstd::prelude::*;

verus! {

/// Number of occurrences of `p` among the first `n` elements of `s`.
pub open spec fn occ_upto(s: Seq<usize>, n: int, p: usize) -> nat
    decreases n,
{
    if n <= 0 {
        0
    } else {
        occ_upto(s, n - 1, p) + if s[n - 1] == p {
            1nat
        } else {
            0nat
        }
    }
}

/// Number of occurrences of `p` in `s`.
pub open spec fn occ(s: Seq<usize>, p: usize) -> nat {
    occ_upto(s, s.len() as int, p)
}

/// Number of occurrences of `p` in the first `d` pools of `pp`.
pub open spec fn occ_pools_upto(pp: Seq<Seq<usize>>, d: int, p: usize) -> nat
    decreases d,
{
    if d <= 0 {
        0
    } else {
        occ_pools_upto(pp, d - 1, p) + occ(pp[d - 1], p)
    }
}

/// Number of occurrences of `p` across all pools of `pp`: the number of
/// releases of `p` that are deferred, waiting for a pool to drain.
pub open spec fn occ_pools(pp: Seq<Seq<usize>>, p: usize) -> nat {
    occ_pools_upto(pp, pp.len() as int, p)
}

pub proof fn lemma_occ_upto_congruent(s: Seq<usize>, t: Seq<usize>, n: int, p: usize)
    requires
        forall|k: int| 0 <= k < n ==> s[k] == t[k],
    ensures
        occ_upto(s, n, p) == occ_upto(t, n, p),
    decreases n,
{
    if n > 0 {
        lemma_occ_upto_congruent(s, t, n - 1, p);
    }
}

pub proof fn lemma_occ_upto_mono(s: Seq<usize>, i: int, j: int, p: usize)
    requires
        i <= j,
    ensures
        occ_upto(s, i, p) <= occ_upto(s, j, p),
    decreases j - i,
{
    if i < j {
        lemma_occ_upto_mono(s, i, j - 1, p);
    }
}

pub proof fn lemma_occ_upto_zero(s: Seq<usize>, n: int, p: usize)
    requires
        forall|k: int| 0 <= k < n ==> s[k] != p,
    ensures
        occ_upto(s, n, p) == 0,
    decreases n,
{
    if n > 0 {
        lemma_occ_upto_zero(s, n - 1, p);
    }
}

pub proof fn lemma_occ_push(s: Seq<usize>, x: usize, p: usize)
    ensures
        occ(s.push(x), p) == occ(s, p) + if x == p {
            1nat
        } else {
            0nat
        },
{
    lemma_occ_upto_congruent(s.push(x), s, s.len() as int, p);
}

/// If `s` contains `p`, at least one occurrence is counted.
pub proof fn lemma_occ_contains(s: Seq<usize>, p: usize)
    requires
        s.contains(p),
    ensures
        occ(s, p) >= 1,
{
    let k = choose|k: int| 0 <= k < s.len() && s[k] == p;
    assert(occ_upto(s, k + 1, p) >= 1);
    lemma_occ_upto_mono(s, k + 1, s.len() as int, p);
}

pub proof fn lemma_occ_pools_upto_congruent(
    pp: Seq<Seq<usize>>,
    qq: Seq<Seq<usize>>,
    d: int,
    p: usize,
)
    requires
        forall|k: int| 0 <= k < d ==> pp[k] == qq[k],
    ensures
        occ_pools_upto(pp, d, p) == occ_pools_upto(qq, d, p),
    decreases d,
{
    if d > 0 {
        lemma_occ_pools_upto_congruent(pp, qq, d - 1, p);
    }
}

pub proof fn lemma_occ_pools_push(pp: Seq<Seq<usize>>, s: Seq<usize>, p: usize)
    ensures
        occ_pools(pp.push(s), p) == occ_pools(pp, p) + occ(s, p),
{
    lemma_occ_pools_upto_congruent(pp.push(s), pp, pp.len() as int, p);
}

/// Depositing into the last pool adds one deferred release of the deposited
/// address and changes nothing else.
pub proof fn lemma_occ_pools_deposit(pp: Seq<Seq<usize>>, x: usize, p: usize)
    requires
        pp.len() >= 1,
    ensures
        occ_pools(pp.update(pp.len() - 1, pp.last().push(x)), p) == occ_pools(pp, p) + if x == p {
            1nat
        } else {
            0nat
        },
{
    let d = pp.len() - 1;
    let qq = pp.update(d, pp.last().push(x));
    lemma_occ_pools_upto_congruent(qq, pp, d, p);
    lemma_occ_push(pp.last(), x, p);
}

pub proof fn lemma_occ_pools_drop_last(pp: Seq<Seq<usize>>, p: usize)
    requires
        pp.len() >= 1,
    ensures
        occ_pools(pp.drop_last(), p) + occ(pp.last(), p) == occ_pools(pp, p),
{
    lemma_occ_pools_upto_congruent(pp.drop_last(), pp, pp.len() - 1, p);
}

/// Every pool contributes at most the whole pending sum.
pub proof fn lemma_occ_pools_includes(pp: Seq<Seq<usize>>, d: int, p: usize)
    requires
        0 <= d < pp.len(),
    ensures
        occ(pp[d], p) <= occ_pools(pp, p),
    decreases pp.len(),
{
    if d == pp.len() - 1 {
        lemma_occ_pools_drop_last(pp, p);
    } else {
        lemma_occ_pools_drop_last(pp, p);
        assert(pp.drop_last()[d] == pp[d]);
        lemma_occ_pools_includes(pp.drop_last(), d, p);
    }
}

/// The state of the modelled foreign runtime, as contracts see it.
pub ghost struct RuntimeView {
    /// Per-address retain counter; index `0` is the null address.
    pub counts: Seq<u64>,
    /// Deferred releases of each open pool, outermost first.
    pub pools: Seq<Seq<usize>>,
    /// Identity of each open pool (pools at the same depth over time differ).
    pub epochs: Seq<u64>,
    /// Next unused pool identity.
    pub next_epoch: u64,
    /// Retain calls issued so far.
    pub retains: u64,
    /// Release calls issued so far.
    pub releases: u64,
    /// Autorelease calls issued so far.
    pub autoreleases: u64,
    /// Per-address retain credits owned by live handles (ghost).
    pub credits: Seq<nat>,
    /// Per-address mark: an exclusively owning handle is outstanding (ghost).
    pub exclusives: Seq<bool>,
}

impl RuntimeView {
    /// `p` names an object (allocated at some point; addresses are not reused).
    pub open spec fn allocated(self, p: usize) -> bool {
        1 <= p < self.counts.len()
    }

    /// Current retain counter of the object at `p`.
    pub open spec fn count(self, p: usize) -> u64 {
        self.counts[p as int]
    }

    /// The object at `p` has not been deallocated.
    pub open spec fn live(self, p: usize) -> bool {
        self.allocated(p) && self.count(p) > 0
    }

    /// Retain credits of `p` owned by live handles.
    pub open spec fn claimed(self, p: usize) -> nat {
        self.credits[p as int]
    }

    /// An exclusively owning handle on `p` is outstanding.
    pub open spec fn is_exclusive(self, p: usize) -> bool {
        self.exclusives[p as int]
    }

    /// Releases of `p` deferred into still-open pools.
    pub open spec fn pending(self, p: usize) -> nat {
        occ_pools(self.pools, p)
    }

    /// Number of open pools.
    pub open spec fn depth(self) -> nat {
        self.pools.len()
    }

    /// The object at `p` carries a retain credit that no handle and no pool
    /// deposit accounts for, so a handle may adopt it.
    pub open spec fn unclaimed_credit(self, p: usize) -> bool {
        self.claimed(p) + self.pending(p) < self.count(p)
    }

    /// The object at `p` is uniquely held: one credit, one handle, nothing
    /// deferred.  This is what licenses an exclusively owning handle.
    pub open spec fn uniquely_referenced(self, p: usize) -> bool {
        self.count(p) == 1 && self.claimed(p) == 0 && self.pending(p) == 0
    }

    pub open spec fn wf(self) -> bool {
        &&& self.credits.len() == self.counts.len()
        &&& self.exclusives.len() == self.counts.len()
        &&& self.counts.len() >= 1
        &&& self.count(0) == 0
        &&& self.claimed(0) == 0
        &&& !self.is_exclusive(0)
        &&& self.epochs.len() == self.pools.len()
        &&& forall|d: int| 0 <= d < self.epochs.len() ==> #[trigger] self.epochs[d] < self.next_epoch
        &&& forall|d1: int, d2: int|
            0 <= d1 < d2 < self.epochs.len() ==> #[trigger] self.epochs[d1] < #[trigger] self.epochs[d2]
        &&& forall|p: usize|
            self.allocated(p) ==> #[trigger] self.claimed(p) + self.pending(p) <= self.count(p)
        &&& forall|p: usize|
            self.allocated(p) && #[trigger] self.is_exclusive(p) ==> self.claimed(p) == 1
        &&& forall|d: int, i: int|
            0 <= d < self.pools.len() && 0 <= i < self.pools[d].len() ==> 1 <= #[trigger] self.pools[d][i] < self.counts.len()
    }

    /// Objects deposited in an open pool are still live: the pool holds a
    /// deferred release for them, so their counter cannot have reached zero.
    pub proof fn lemma_pool_keeps_alive(self, d: int, p: usize)
        requires
            self.wf(),
            0 <= d < self.pools.len(),
            self.pools[d].contains(p),
        ensures
            self.allocated(p),
            self.live(p),
    {
        let i = choose|i: int| 0 <= i < self.pools[d].len() && self.pools[d][i] == p;
        assert(self.allocated(p));
        lemma_occ_contains(self.pools[d], p);
        lemma_occ_pools_includes(self.pools, d, p);
        assert(self.claimed(p) + self.pending(p) <= self.count(p));
    }
}

/// The calls-issued counters are the same in `pre` and `post`: the step made
/// no foreign call at all.
pub open spec fn no_calls(pre: RuntimeView, post: RuntimeView) -> bool {
    &&& post.retains == pre.retains
    &&& post.releases == pre.releases
    &&& post.autoreleases == pre.autoreleases
}

/// The pool stack is untouched.
pub open spec fn same_pools(pre: RuntimeView, post: RuntimeView) -> bool {
    &&& post.pools == pre.pools
    &&& post.epochs == pre.epochs
    &&& post.next_epoch == pre.next_epoch
}

/// Step relation: a fresh object came into being with one retain credit,
/// which nobody has claimed yet.  Models an allocation by the foreign
/// runtime; no retain or release call is counted for it.
pub open spec fn alloc_post(pre: RuntimeView, post: RuntimeView, p: usize) -> bool {
    &&& p == pre.counts.len()
    &&& post.counts == pre.counts.push(1)
    &&& post.credits == pre.credits.push(0)
    &&& post.exclusives == pre.exclusives.push(false)
    &&& same_pools(pre, post)
    &&& no_calls(pre, post)
}

/// Step relation: a handle adopted an unclaimed retain credit of `p`.  Pure
/// bookkeeping; the runtime state and the call counters are unchanged.
pub open spec fn adopt_post(pre: RuntimeView, post: RuntimeView, p: usize, excl: bool) -> bool {
    &&& pre.live(p)
    &&& pre.unclaimed_credit(p)
    &&& post.counts == pre.counts
    &&& post.credits == pre.credits.update(p as int, pre.claimed(p) + 1)
    &&& post.exclusives == pre.exclusives.update(p as int, excl)
    &&& same_pools(pre, post)
    &&& no_calls(pre, post)
}

/// Step relation: one retain call on `p`, its new credit claimed by a handle.
pub open spec fn retain_post(pre: RuntimeView, post: RuntimeView, p: usize, excl: bool) -> bool {
    &&& pre.live(p)
    &&& pre.count(p) < u64::MAX
    &&& pre.retains < u64::MAX
    &&& post.counts == pre.counts.update(p as int, (pre.count(p) + 1) as u64)
    &&& post.credits == pre.credits.update(p as int, pre.claimed(p) + 1)
    &&& post.exclusives == pre.exclusives.update(p as int, excl)
    &&& same_pools(pre, post)
    &&& post.retains == pre.retains + 1
    &&& post.releases == pre.releases
    &&& post.autoreleases == pre.autoreleases
}

/// Step relation: one release call on `p`, paying back one handle credit.
/// At counter zero the object is deallocated and stays dead.
pub open spec fn release_post(pre: RuntimeView, post: RuntimeView, p: usize) -> bool {
    &&& pre.claimed(p) >= 1
    &&& pre.count(p) >= 1
    &&& pre.releases < u64::MAX
    &&& post.counts == pre.counts.update(p as int, (pre.count(p) - 1) as u64)
    &&& post.credits == pre.credits.update(p as int, (pre.claimed(p) - 1) as nat)
    &&& post.exclusives == pre.exclusives.update(p as int, false)
    &&& same_pools(pre, post)
    &&& post.retains == pre.retains
    &&& post.releases == pre.releases + 1
    &&& post.autoreleases == pre.autoreleases
}

/// Step relation: the handle on `p` changed its ownership mode only.  No
/// foreign call, no counter change: pure re-tagging.
pub open spec fn retag_post(pre: RuntimeView, post: RuntimeView, p: usize, excl: bool) -> bool {
    &&& post.counts == pre.counts
    &&& post.credits == pre.credits
    &&& post.exclusives == pre.exclusives.update(p as int, excl)
    &&& same_pools(pre, post)
    &&& no_calls(pre, post)
}

/// Step relation: a new, empty pool was pushed onto the pool stack, with a
/// fresh identity.  No foreign call is counted for opening a pool.
pub open spec fn push_pool_post(pre: RuntimeView, post: RuntimeView, d: usize, e: u64) -> bool {
    &&& pre.next_epoch < u64::MAX
    &&& d == pre.pools.len()
    &&& e == pre.next_epoch
    &&& post.pools == pre.pools.push(Seq::<usize>::empty())
    &&& post.epochs == pre.epochs.push(e)
    &&& post.next_epoch == pre.next_epoch + 1
    &&& post.counts == pre.counts
    &&& post.credits == pre.credits
    &&& post.exclusives == pre.exclusives
    &&& no_calls(pre, post)
}

/// Step relation: one autorelease call on `p`.  The handle credit turns into
/// a deposit in the innermost open pool; no counter changes yet.
pub open spec fn deposit_post(pre: RuntimeView, post: RuntimeView, p: usize) -> bool {
    &&& pre.pools.len() >= 1
    &&& pre.claimed(p) >= 1
    &&& pre.autoreleases < u64::MAX
    &&& post.pools == pre.pools.update(pre.pools.len() - 1, pre.pools.last().push(p))
    &&& post.epochs == pre.epochs
    &&& post.next_epoch == pre.next_epoch
    &&& post.counts == pre.counts
    &&& post.credits == pre.credits.update(p as int, (pre.claimed(p) - 1) as nat)
    &&& post.exclusives == pre.exclusives.update(p as int, false)
    &&& post.retains == pre.retains
    &&& post.releases == pre.releases
    &&& post.autoreleases == pre.autoreleases + 1
}

/// Step relation: the innermost pool drained.  One release call per deposit,
/// in unspecified order; every object's counter drops by exactly the number
/// of deposits the pool held for it.
pub open spec fn drain_post(pre: RuntimeView, post: RuntimeView) -> bool {
    &&& pre.pools.len() >= 1
    &&& pre.releases + pre.pools.last().len() <= u64::MAX
    &&& post.pools == pre.pools.drop_last()
    &&& post.epochs == pre.epochs.drop_last()
    &&& post.next_epoch == pre.next_epoch
    &&& post.counts.len() == pre.counts.len()
    &&& forall|q: usize|
        q < pre.counts.len() ==> #[trigger] post.count(q) == pre.count(q) - occ(
            pre.pools.last(),
            q,
        )
    &&& post.credits == pre.credits
    &&& post.exclusives == pre.exclusives
    &&& post.retains == pre.retains
    &&& post.releases == pre.releases + pre.pools.last().len()
    &&& post.autoreleases == pre.autoreleases
}

/// The handle-level model of the foreign runtime.
///
/// All verified operations go through this value, so the contracts of the
/// handle types can state exactly which foreign calls they perform and how
/// the hidden retain counters change.
pub struct Runtime {
    counts: Vec<u64>,
    pools: Vec<Vec<usize>>,
    pool_epochs: Vec<u64>,
    next_epoch: u64,
    n_retains: u64,
    n_releases: u64,
    n_autoreleases: u64,
    credits: Ghost<Seq<nat>>,
    exclusives: Ghost<Seq<bool>>,
}

impl View for Runtime {
    type V = RuntimeView;

    closed spec fn view(&self) -> RuntimeView {
        RuntimeView {
            counts: self.counts@,
            pools: self.pools@.map_values(|v: Vec<usize>| v@),
            epochs: self.pool_epochs@,
            next_epoch: self.next_epoch,
            retains: self.n_retains,
            releases: self.n_releases,
            autoreleases: self.n_autoreleases,
            credits: self.credits@,
            exclusives: self.exclusives@,
        }
    }
}

impl Runtime {
    /// A runtime with no objects and no open pools.
    pub fn new() -> (rt: Runtime)
        ensures
            rt@.wf(),
            rt@.counts.len() == 1,
            rt@.pools.len() == 0,
            rt@.next_epoch == 0,
            rt@.retains == 0,
            rt@.releases == 0,
            rt@.autoreleases == 0,
    {
        let mut counts: Vec<u64> = Vec::new();
        counts.push(0);
        let ghost credit_seq: Seq<nat> = seq![0nat];
        let ghost excl_seq: Seq<bool> = seq![false];
        let rt = Runtime {
            counts,
            pools: Vec::new(),
            pool_epochs: Vec::new(),
            next_epoch: 0,
            n_retains: 0,
            n_releases: 0,
            n_autoreleases: 0,
            credits: Ghost(credit_seq),
            exclusives: Ghost(excl_seq),
        };
        proof {
            assert(rt@.pools =~= Seq::<Seq<usize>>::empty());
        }
        rt
    }

    /// A new object comes into being, holding one retain credit that nobody
    /// has claimed yet — the pointer an allocating foreign call returns.
    pub fn alloc_object(&mut self) -> (p: usize)
        requires
            old(self)@.wf(),
            old(self)@.counts.len() < usize::MAX,
        ensures
            final(self)@.wf(),
            alloc_post(old(self)@, final(self)@, p),
            final(self)@.live(p),
            final(self)@.unclaimed_credit(p),
            !final(self)@.is_exclusive(p),
    {
        let ghost pre = self@;
        let p = self.counts.len();
        self.counts.push(1);
        proof {
            self.credits@ = self.credits@.push(0);
            self.exclusives@ = self.exclusives@.push(false);
        }
        proof {
            lemma_wf_alloc(pre, self@, p);
        }
        p
    }

    /// The object's current retain counter, as a `retainCount`-style query
    /// would observe it.
    pub fn retain_count(&self, p: usize) -> (n: u64)
        requires
            self@.allocated(p),
        ensures
            n == self@.count(p),
    {
        self.counts[p]
    }

    /// How many retain calls have been issued so far.
    pub fn retain_calls(&self) -> (n: u64)
        ensures
            n == self@.retains,
    {
        self.n_retains
    }

    /// How many release calls have been issued so far.
    pub fn release_calls(&self) -> (n: u64)
        ensures
            n == self@.releases,
    {
        self.n_releases
    }

    /// How many autorelease calls have been issued so far.
    pub fn autorelease_calls(&self) -> (n: u64)
        ensures
            n == self@.autoreleases,
    {
        self.n_autoreleases
    }

    /// How many pools are open.
    pub fn pool_depth(&self) -> (n: usize)
        ensures
            n == self@.depth(),
    {
        self.pools.len()
    }

    /// Book an unclaimed credit of `p` to a handle.  No foreign call.
    pub(crate) fn do_adopt(&mut self, p: usize, excl: bool)
        requires
            old(self)@.wf(),
            old(self)@.live(p),
            old(self)@.unclaimed_credit(p),
            excl ==> old(self)@.uniquely_referenced(p),
            !excl ==> !old(self)@.is_exclusive(p),
        ensures
            final(self)@.wf(),
            adopt_post(old(self)@, final(self)@, p, excl),
    {
        let ghost pre = self@;
        proof {
            self.credits@ = self.credits@.update(p as int, pre.claimed(p) + 1);
            self.exclusives@ = self.exclusives@.update(p as int, excl);
        }
        proof {
            let post = self@;
            assert(pre.counts.update(p as int, post.count(p)) =~= pre.counts);
            lemma_wf_point_update(pre, post, p, excl);
        }
    }

    /// One retain call on `p`; the new credit goes to a handle.
    pub(crate) fn do_retain(&mut self, p: usize, excl: bool)
        requires
            old(self)@.wf(),
            old(self)@.live(p),
            old(self)@.count(p) < u64::MAX,
            old(self)@.retains < u64::MAX,
            excl ==> old(self)@.uniquely_referenced(p),
            !excl ==> !old(self)@.is_exclusive(p),
        ensures
            final(self)@.wf(),
            retain_post(old(self)@, final(self)@, p, excl),
    {
        let ghost pre = self@;
        let c = self.counts[p];
        self.counts[p] = c + 1;
        self.n_retains = self.n_retains + 1;
        proof {
            self.credits@ = self.credits@.update(p as int, pre.claimed(p) + 1);
            self.exclusives@ = self.exclusives@.update(p as int, excl);
        }
        proof {
            assert(pre.claimed(p) + pre.pending(p) <= pre.count(p));
            lemma_wf_point_update(pre, self@, p, excl);
        }
    }

    /// One release call on `p`, paying back a credit some handle owned.
    pub(crate) fn do_release(&mut self, p: usize)
        requires
            old(self)@.wf(),
            old(self)@.allocated(p),
            old(self)@.claimed(p) >= 1,
            old(self)@.releases < u64::MAX,
        ensures
            final(self)@.wf(),
            release_post(old(self)@, final(self)@, p),
    {
        let ghost pre = self@;
        proof {
            assert(pre.claimed(p) + pre.pending(p) <= pre.count(p));
        }
        let c = self.counts[p];
        self.counts[p] = c - 1;
        self.n_releases = self.n_releases + 1;
        proof {
            self.credits@ = self.credits@.update(p as int, (pre.claimed(p) - 1) as nat);
            self.exclusives@ = self.exclusives@.update(p as int, false);
        }
        proof {
            lemma_wf_point_update(pre, self@, p, false);
        }
    }

    /// Change the exclusivity mark of `p`.  No foreign call.
    pub(crate) fn do_retag(&mut self, p: usize, excl: bool)
        requires
            old(self)@.wf(),
            old(self)@.allocated(p),
            old(self)@.claimed(p) == 1,
        ensures
            final(self)@.wf(),
            retag_post(old(self)@, final(self)@, p, excl),
    {
        let ghost pre = self@;
        proof {
            self.exclusives@ = self.exclusives@.update(p as int, excl);
        }
        proof {
            let post = self@;
            assert(pre.counts.update(p as int, post.count(p)) =~= pre.counts);
            assert(pre.credits.update(p as int, post.claimed(p)) =~= pre.credits);
            assert(pre.claimed(p) + pre.pending(p) <= pre.count(p));
            lemma_wf_point_update(pre, post, p, excl);
        }
    }


    /// Open a new, empty pool on top of the stack; returns its depth and
    /// identity.  No foreign call.
    pub(crate) fn do_push_pool(&mut self) -> (r: (usize, u64))
        requires
            old(self)@.wf(),
            old(self)@.next_epoch < u64::MAX,
        ensures
            final(self)@.wf(),
            push_pool_post(old(self)@, final(self)@, r.0, r.1),
    {
        let ghost pre = self@;
        let d = self.pools.len();
        let e = self.next_epoch;
        self.pools.push(Vec::new());
        self.pool_epochs.push(e);
        self.next_epoch = e + 1;
        proof {
            let post = self@;
            assert(post.pools =~= pre.pools.push(Seq::<usize>::empty()));
            lemma_wf_push_pool(pre, post, d, e);
        }
        (d, e)
    }

    /// One autorelease call on `p`: a handle credit becomes a deposit in the
    /// innermost open pool.
    pub(crate) fn do_deposit(&mut self, p: usize)
        requires
            old(self)@.wf(),
            old(self)@.allocated(p),
            old(self)@.claimed(p) >= 1,
            old(self)@.depth() >= 1,
            old(self)@.autoreleases < u64::MAX,
        ensures
            final(self)@.wf(),
            deposit_post(old(self)@, final(self)@, p),
    {
        let ghost pre = self@;
        let d = self.pools.len() - 1;
        let top = &mut self.pools[d];
        top.push(p);
        self.n_autoreleases = self.n_autoreleases + 1;
        proof {
            self.credits@ = self.credits@.update(p as int, (pre.claimed(p) - 1) as nat);
            self.exclusives@ = self.exclusives@.update(p as int, false);
        }
        proof {
            let post = self@;
            assert(post.pools =~= pre.pools.update(d as int, pre.pools.last().push(p)));
            lemma_wf_deposit(pre, post, p);
        }
    }

    /// Drain the innermost pool: one release call per deposit; the pool is
    /// closed for good.
    pub(crate) fn do_drain_top(&mut self)
        requires
            old(self)@.wf(),
            old(self)@.depth() >= 1,
            old(self)@.releases + old(self)@.pools.last().len() <= u64::MAX,
        ensures
            final(self)@.wf(),
            drain_post(old(self)@, final(self)@),
    {
        let ghost pre = old(self)@;
        let entries = match self.pools.pop() {
            Some(v) => v,
            None => Vec::new(),
        };
        let _epoch = self.pool_epochs.pop();
        proof {
            assert(entries@ == pre.pools.last());
            assert(self@.pools =~= pre.pools.drop_last());
            assert forall|k: int| 0 <= k < entries@.len() implies 1 <= #[trigger] entries@[k]
                < pre.counts.len() by {
                assert(1 <= pre.pools[pre.pools.len() - 1][k] < pre.counts.len());
            }
            assert forall|q: usize| self@.allocated(q) implies #[trigger] self@.claimed(q)
                + self@.pending(q) + occ(entries@, q) - occ_upto(entries@, 0, q) <= self@.count(
                q,
            ) by {
                lemma_occ_pools_drop_last(pre.pools, q);
                assert(pre.claimed(q) + pre.pending(q) <= pre.count(q));
            }
        }
        let n = entries.len();
        let mut i: usize = 0;
        while i < n
            invariant
                i <= n,
                n == entries@.len(),
                entries@ == pre.pools.last(),
                pre == old(self)@,
                pre.wf(),
                pre.pools.len() >= 1,
                pre.releases + n <= u64::MAX,
                self@.pools == pre.pools.drop_last(),
                self@.epochs == pre.epochs.drop_last(),
                self@.next_epoch == pre.next_epoch,
                self@.credits == pre.credits,
                self@.exclusives == pre.exclusives,
                self@.retains == pre.retains,
                self@.autoreleases == pre.autoreleases,
                self@.releases == pre.releases + i,
                self@.counts.len() == pre.counts.len(),
                forall|k: int| 0 <= k < n ==> 1 <= #[trigger] entries@[k] < pre.counts.len(),
                forall|q: usize|
                    q < pre.counts.len() ==> #[trigger] self@.count(q) == pre.count(q) - occ_upto(
                        entries@,
                        i as int,
                        q,
                    ),
                forall|q: usize|
                    self@.allocated(q) ==> #[trigger] self@.claimed(q) + self@.pending(q) + occ(
                        entries@,
                        q,
                    ) - occ_upto(entries@, i as int, q) <= self@.count(q),
            decreases n - i,
        {
            let p = entries[i];
            let ghost before = self@;
            let ghost iprev = i as int;
            proof {
                lemma_occ_upto_mono(entries@, iprev + 1, n as int, p);
                assert(occ_upto(entries@, iprev + 1, p) == occ_upto(entries@, iprev, p) + 1);
                assert(before.claimed(p) + before.pending(p) + occ(entries@, p) - occ_upto(
                    entries@,
                    iprev,
                    p,
                ) <= before.count(p));
            }
            let c = self.counts[p];
            self.counts[p] = c - 1;
            self.n_releases = self.n_releases + 1;
            i = i + 1;
            proof {
                let post = self@;
                assert forall|q: usize| q < pre.counts.len() implies #[trigger] post.count(q)
                    == pre.count(q) - occ_upto(entries@, i as int, q) by {
                    assert(occ_upto(entries@, iprev + 1, q) == occ_upto(entries@, iprev, q)
                        + if entries@[iprev] == q {
                        1nat
                    } else {
                        0nat
                    });
                    assert(before.count(q) == pre.count(q) - occ_upto(entries@, iprev, q));
                }
                assert forall|q: usize| post.allocated(q) implies #[trigger] post.claimed(q)
                    + post.pending(q) + occ(entries@, q) - occ_upto(entries@, i as int, q)
                    <= post.count(q) by {
                    assert(occ_upto(entries@, iprev + 1, q) == occ_upto(entries@, iprev, q)
                        + if entries@[iprev] == q {
                        1nat
                    } else {
                        0nat
                    });
                    assert(before.claimed(q) + before.pending(q) + occ(entries@, q) - occ_upto(
                        entries@,
                        iprev,
                        q,
                    ) <= before.count(q));
                    assert(post.claimed(q) == before.claimed(q));
                    assert(post.pending(q) == before.pending(q));
                }
            }
        }
        proof {
            let post = self@;
            assert forall|q: usize| q < pre.counts.len() implies #[trigger] post.count(q)
                == pre.count(q) - occ(pre.pools.last(), q) by {
                assert(post.count(q) == pre.count(q) - occ_upto(entries@, n as int, q));
            }
            lemma_wf_after_drain(pre, post);
        }
    }
}

/// Well-formedness is preserved by a step that reworks the bookkeeping of a
/// single object and leaves the pool stack alone.
proof fn lemma_wf_point_update(pre: RuntimeView, post: RuntimeView, p: usize, excl: bool)
    requires
        pre.wf(),
        pre.allocated(p),
        post.counts == pre.counts.update(p as int, post.count(p)),
        post.credits == pre.credits.update(p as int, post.claimed(p)),
        post.exclusives == pre.exclusives.update(p as int, excl),
        same_pools(pre, post),
        post.claimed(p) + pre.pending(p) <= post.count(p),
        excl ==> post.claimed(p) == 1,
    ensures
        post.wf(),
{
    assert forall|q: usize| post.allocated(q) implies #[trigger] post.claimed(q) + post.pending(q)
        <= post.count(q) by {
        assert(post.pending(q) == pre.pending(q));
        assert(pre.claimed(q) + pre.pending(q) <= pre.count(q));
    }
    assert forall|q: usize| post.allocated(q) && #[trigger] post.is_exclusive(q) implies post.claimed(
        q,
    ) == 1 by {
        if q != p {
            assert(pre.is_exclusive(q) ==> pre.claimed(q) == 1);
        }
    }
    assert forall|d: int| 0 <= d < post.epochs.len() implies #[trigger] post.epochs[d]
        < post.next_epoch by {
        assert(pre.epochs[d] < pre.next_epoch);
    }
    assert forall|d1: int, d2: int|
        0 <= d1 < d2 < post.epochs.len() implies #[trigger] post.epochs[d1] < #[trigger] post.epochs[d2] by {
        assert(pre.epochs[d1] < pre.epochs[d2]);
    }
    assert forall|d: int, i: int|
        0 <= d < post.pools.len() && 0 <= i < post.pools[d].len() implies 1 <= #[trigger] post.pools[d][i]
        < post.counts.len() by {
        assert(1 <= pre.pools[d][i] < pre.counts.len());
    }
}

/// Well-formedness is preserved when a fresh object appears.
proof fn lemma_wf_alloc(pre: RuntimeView, post: RuntimeView, p: usize)
    requires
        pre.wf(),
        alloc_post(pre, post, p),
    ensures
        post.wf(),
        post.pending(p) == 0,
{
    assert forall|k: int| 0 <= k < pre.pools.len() implies !#[trigger] pre.pools[k].contains(p) by {
        assert forall|i: int| 0 <= i < pre.pools[k].len() implies #[trigger] pre.pools[k][i]
            != p by {
            assert(1 <= pre.pools[k][i] < pre.counts.len());
        }
    }
    lemma_pending_zero_if_absent(pre.pools, p);
    assert forall|q: usize| post.allocated(q) implies #[trigger] post.claimed(q) + post.pending(q)
        <= post.count(q) by {
        assert(post.pending(q) == pre.pending(q));
        if q != p {
            assert(pre.allocated(q));
            assert(pre.claimed(q) + pre.pending(q) <= pre.count(q));
        }
    }
    assert forall|q: usize| post.allocated(q) && #[trigger] post.is_exclusive(q) implies post.claimed(
        q,
    ) == 1 by {
        if q != p {
            assert(pre.allocated(q));
            assert(pre.is_exclusive(q) ==> pre.claimed(q) == 1);
        }
    }
    assert forall|d: int| 0 <= d < post.epochs.len() implies #[trigger] post.epochs[d]
        < post.next_epoch by {
        assert(pre.epochs[d] < pre.next_epoch);
    }
    assert forall|d1: int, d2: int|
        0 <= d1 < d2 < post.epochs.len() implies #[trigger] post.epochs[d1] < #[trigger] post.epochs[d2] by {
        assert(pre.epochs[d1] < pre.epochs[d2]);
    }
    assert forall|d: int, i: int|
        0 <= d < post.pools.len() && 0 <= i < post.pools[d].len() implies 1 <= #[trigger] post.pools[d][i]
        < post.counts.len() by {
        assert(1 <= pre.pools[d][i] < pre.counts.len());
    }
}

/// Well-formedness is preserved when an empty pool is pushed.
proof fn lemma_wf_push_pool(pre: RuntimeView, post: RuntimeView, d: usize, e: u64)
    requires
        pre.wf(),
        push_pool_post(pre, post, d, e),
    ensures
        post.wf(),
{
    assert forall|q: usize| post.allocated(q) implies #[trigger] post.claimed(q) + post.pending(q)
        <= post.count(q) by {
        lemma_occ_pools_push(pre.pools, Seq::<usize>::empty(), q);
        assert(occ(Seq::<usize>::empty(), q) == 0);
        assert(pre.claimed(q) + pre.pending(q) <= pre.count(q));
    }
    assert forall|q: usize| post.allocated(q) && #[trigger] post.is_exclusive(q) implies post.claimed(
        q,
    ) == 1 by {
        assert(pre.is_exclusive(q) ==> pre.claimed(q) == 1);
    }
    assert forall|k: int| 0 <= k < post.epochs.len() implies #[trigger] post.epochs[k]
        < post.next_epoch by {
        if k < pre.epochs.len() {
            assert(pre.epochs[k] < pre.next_epoch);
        }
    }
    assert forall|d1: int, d2: int|
        0 <= d1 < d2 < post.epochs.len() implies #[trigger] post.epochs[d1] < #[trigger] post.epochs[d2] by {
        assert(pre.epochs[d1] < pre.next_epoch);
        if d2 < pre.epochs.len() {
            assert(pre.epochs[d1] < pre.epochs[d2]);
        }
    }
    assert forall|k: int, j: int|
        0 <= k < post.pools.len() && 0 <= j < post.pools[k].len() implies 1 <= #[trigger] post.pools[k][j]
        < post.counts.len() by {
        if k < pre.pools.len() {
            assert(1 <= pre.pools[k][j] < pre.counts.len());
        }
    }
}

/// Well-formedness is preserved by a deposit into the innermost pool.
proof fn lemma_wf_deposit(pre: RuntimeView, post: RuntimeView, p: usize)
    requires
        pre.wf(),
        pre.allocated(p),
        deposit_post(pre, post, p),
    ensures
        post.wf(),
{
    assert forall|q: usize| #[trigger] post.pending(q) == pre.pending(q) + (if q == p {
        1int
    } else {
        0int
    }) by {
        lemma_occ_pools_deposit(pre.pools, p, q);
    }
    assert forall|q: usize| post.allocated(q) implies #[trigger] post.claimed(q) + post.pending(q)
        <= post.count(q) by {
        assert(pre.claimed(q) + pre.pending(q) <= pre.count(q));
        assert(post.pending(q) == pre.pending(q) + (if q == p {
            1int
        } else {
            0int
        }));
    }
    assert forall|q: usize| post.allocated(q) && #[trigger] post.is_exclusive(q) implies post.claimed(
        q,
    ) == 1 by {
        if q != p {
            assert(pre.is_exclusive(q) ==> pre.claimed(q) == 1);
        }
    }
    assert forall|k: int| 0 <= k < post.epochs.len() implies #[trigger] post.epochs[k]
        < post.next_epoch by {
        assert(pre.epochs[k] < pre.next_epoch);
    }
    assert forall|d1: int, d2: int|
        0 <= d1 < d2 < post.epochs.len() implies #[trigger] post.epochs[d1] < #[trigger] post.epochs[d2] by {
        assert(pre.epochs[d1] < pre.epochs[d2]);
    }
    assert forall|k: int, j: int|
        0 <= k < post.pools.len() && 0 <= j < post.pools[k].len() implies 1 <= #[trigger] post.pools[k][j]
        < post.counts.len() by {
        if k == pre.pools.len() - 1 {
            if j < pre.pools[k].len() {
                assert(1 <= pre.pools[k][j] < pre.counts.len());
            } else {
                assert(post.pools[k][j] == p);
            }
        } else {
            assert(1 <= pre.pools[k][j] < pre.counts.len());
        }
    }
}

/// Well-formedness is restored once the innermost pool has fully drained.
proof fn lemma_wf_after_drain(pre: RuntimeView, post: RuntimeView)
    requires
        pre.wf(),
        drain_post(pre, post),
    ensures
        post.wf(),
{
    assert forall|q: usize| #[trigger] post.pending(q) + occ(pre.pools.last(), q) == pre.pending(
        q,
    ) by {
        lemma_occ_pools_drop_last(pre.pools, q);
    }
    assert(post.count(0) == pre.count(0) - occ(pre.pools.last(), 0));
    assert forall|k: int| 0 <= k < pre.pools.last().len() implies #[trigger] pre.pools.last()[k]
        != 0usize by {
        assert(1 <= pre.pools[pre.pools.len() - 1][k] < pre.counts.len());
    }
    lemma_occ_upto_zero(pre.pools.last(), pre.pools.last().len() as int, 0);
    assert forall|q: usize| post.allocated(q) implies #[trigger] post.claimed(q) + post.pending(q)
        <= post.count(q) by {
        assert(pre.claimed(q) + pre.pending(q) <= pre.count(q));
        assert(post.count(q) == pre.count(q) - occ(pre.pools.last(), q));
    }
    assert forall|q: usize| post.allocated(q) && #[trigger] post.is_exclusive(q) implies post.claimed(
        q,
    ) == 1 by {
        assert(pre.is_exclusive(q) ==> pre.claimed(q) == 1);
    }
    assert forall|k: int| 0 <= k < post.epochs.len() implies #[trigger] post.epochs[k]
        < post.next_epoch by {
        assert(pre.epochs[k] < pre.next_epoch);
    }
    assert forall|d1: int, d2: int|
        0 <= d1 < d2 < post.epochs.len() implies #[trigger] post.epochs[d1] < #[trigger] post.epochs[d2] by {
        assert(pre.epochs[d1] < pre.epochs[d2]);
    }
    assert forall|k: int, j: int|
        0 <= k < post.pools.len() && 0 <= j < post.pools[k].len() implies 1 <= #[trigger] post.pools[k][j]
        < post.counts.len() by {
        assert(1 <= pre.pools[k][j] < pre.counts.len());
    }
}

/// An address no pool entry mentions has nothing pending.
pub proof fn lemma_pending_zero_if_absent(pp: Seq<Seq<usize>>, p: usize)
    requires
        forall|d: int| 0 <= d < pp.len() ==> !#[trigger] pp[d].contains(p),
    ensures
        occ_pools(pp, p) == 0,
{
    lemma_pending_zero_if_absent_upto(pp, pp.len() as int, p);
}

proof fn lemma_pending_zero_if_absent_upto(pp: Seq<Seq<usize>>, d: int, p: usize)
    requires
        d <= pp.len(),
        forall|k: int| 0 <= k < pp.len() ==> !#[trigger] pp[k].contains(p),
    ensures
        occ_pools_upto(pp, d, p) == 0,
    decreases d,
{
    if d > 0 {
        lemma_pending_zero_if_absent_upto(pp, d - 1, p);
        assert forall|i: int| 0 <= i < pp[d - 1].len() implies #[trigger] pp[d - 1][i] != p by {
            assert(!pp[d - 1].contains(p));
        }
        lemma_occ_upto_zero(pp[d - 1], pp[d - 1].len() as int, p);
    }
}

} // verus!
