//! The laws of the reference-counting discipline, proved once and for all
//! over the step relations that the handle operations ensure.
//!
//! Each lemma's hypotheses are exactly the step relations of the operations
//! it chains (as their contracts state them), so anything a caller learns
//! from those contracts can be fed to the lemma unchanged.

use crate::rc::runtime::adopt_post;
use crate::rc::runtime::deposit_post;
use crate::rc::runtime::drain_post;
use crate::rc::runtime::occ;
use crate::rc::runtime::push_pool_post;
use crate::rc::runtime::release_post;
use crate::rc::runtime::retag_post;
use crate::rc::runtime::retain_post;
use crate::rc::runtime::RuntimeView;
use vstd::prelude::*;

verus! {

/// Adopting a pointer that already carries a retain credit and then
/// destroying the handle performs exactly one release and zero retains, and
/// the object's counter ends one below where it started.
pub proof fn lemma_adopt_then_release(
    s0: RuntimeView,
    s1: RuntimeView,
    s2: RuntimeView,
    p: usize,
    excl: bool,
)
    requires
        adopt_post(s0, s1, p, excl),
        release_post(s1, s2, p),
    ensures
        s2.releases == s0.releases + 1,
        s2.retains == s0.retains,
        s2.autoreleases == s0.autoreleases,
        s2.count(p) == s0.count(p) - 1,
        forall|q: usize| q < s0.counts.len() && q != p ==> s2.count(q) == s0.count(q),
{
}

/// Cloning a shared handle raises the observed retain count by exactly one,
/// and destroying the clone lowers it by exactly one, leaving the original
/// handle's object count and credit exactly as they were.
pub proof fn lemma_clone_then_release(s0: RuntimeView, s1: RuntimeView, s2: RuntimeView, p: usize)
    requires
        s0.wf(),
        retain_post(s0, s1, p, false),
        release_post(s1, s2, p),
    ensures
        s1.count(p) == s0.count(p) + 1,
        s1.retains == s0.retains + 1,
        s2.count(p) == s0.count(p),
        s2.releases == s0.releases + 1,
        s2.claimed(p) == s0.claimed(p),
        forall|q: usize| q < s0.counts.len() && q != p ==> s2.count(q) == s0.count(q),
{
    assert(s2.counts =~= s0.counts);
    assert(s2.credits =~= s0.credits);
}

/// Re-tagging a handle — downgrading exclusive to shared, or promoting a
/// uniquely held shared handle — never changes any observed retain count and
/// issues no foreign call at all.
pub proof fn lemma_retag_preserves_counts(
    s0: RuntimeView,
    s1: RuntimeView,
    p: usize,
    excl: bool,
)
    requires
        retag_post(s0, s1, p, excl),
    ensures
        forall|q: usize| s1.count(q) == s0.count(q),
        s1.retains == s0.retains,
        s1.releases == s0.releases,
        s1.autoreleases == s0.autoreleases,
{
}

/// While an inner pool is open above it, an outer pool cannot drain: the
/// drain operation demands the innermost pool, so pools drain strictly inside
/// out.
pub proof fn lemma_pools_drain_inside_out(s: RuntimeView, outer: usize, inner: usize)
    requires
        outer < inner < s.pools.len(),
    ensures
        outer + 1 != s.pools.len(),
{
}

/// An object deposited into a pool stays live for the whole extent of that
/// pool's scope: the deferred release the pool holds keeps its counter above
/// zero.
pub proof fn lemma_deposit_keeps_alive(s: RuntimeView, d: int, p: usize)
    requires
        s.wf(),
        0 <= d < s.pools.len(),
        s.pools[d].contains(p),
    ensures
        s.live(p),
{
    s.lemma_pool_keeps_alive(d, p);
}

/// Opening an inner pool, depositing an object into it and draining it
/// releases the object exactly once, at the drain and not before, and hands
/// the stack back to the outer pool exactly as it was.
pub proof fn lemma_inner_pool_round_trip(
    s0: RuntimeView,
    s1: RuntimeView,
    s2: RuntimeView,
    s3: RuntimeView,
    d: usize,
    e: u64,
    p: usize,
)
    requires
        s0.wf(),
        s0.allocated(p),
        push_pool_post(s0, s1, d, e),
        deposit_post(s1, s2, p),
        drain_post(s2, s3),
    ensures
        s2.count(p) == s0.count(p),  // not released before the drain
        s3.count(p) == s0.count(p) - 1,  // released exactly once by the drain
        s3.releases == s0.releases + 1,  // and by exactly one release call
        s3.retains == s0.retains,
        s3.pools == s0.pools,  // the outer pools and all their deposits are back untouched
        s3.epochs == s0.epochs,
        forall|q: usize| q < s0.counts.len() && q != p ==> s3.count(q) == s0.count(q),
{
    let inner = Seq::<usize>::empty().push(p);
    assert(s2.pools.last() == inner);
    assert(s2.pools.drop_last() =~= s0.pools);
    assert(s2.epochs.drop_last() =~= s0.epochs);
    assert(occ(inner, p) == 1) by {
        crate::rc::runtime::lemma_occ_push(Seq::<usize>::empty(), p, p);
    }
    assert forall|q: usize| q < s0.counts.len() && q != p implies s3.count(q) == s0.count(q) by {
        assert(occ(inner, q) == 0) by {
            crate::rc::runtime::lemma_occ_push(Seq::<usize>::empty(), q, q);
            crate::rc::runtime::lemma_occ_upto_zero(inner, 1, q);
        }
    }
}

/// Once the last owning handle of an object is destroyed — no other handle
/// credit, nothing deferred in any pool — the object is deallocated, so a
/// weak reference loaded afterwards observes a dead object.
pub proof fn lemma_last_release_deallocates(s0: RuntimeView, s1: RuntimeView, p: usize)
    requires
        s0.allocated(p),
        s0.claimed(p) == 1,
        s0.pending(p) == 0,
        s0.count(p) == 1,
        release_post(s0, s1, p),
    ensures
        !s1.live(p),
{
    assert(s1.count(p) == 0);
}

} // verus!
