//! Autorelease pools: scoped, strictly nested collections of deferred
//! releases.
//!
//! An [`AutoreleasePool`] is a token for one open pool.  Pools nest in strict
//! LIFO order: only the innermost pool accepts deposits, and only the
//! innermost pool may drain — an outer pool cannot drain while an inner one
//! is still open.  Draining performs exactly one release per deposited
//! object, in unspecified order, and consumes the token, so a pool can never
//! drain twice.
//!
//! A [`PoolRef`] is the borrowed reference a deposit hands back: it is usable
//! for the full extent of its pool's scope — the pool's deferred release
//! keeps the object alive that long — and becomes unusable the instant the
//! pool drains.  Every pool carries a fresh identity, so a stale reference
//! cannot mistake a later pool at the same depth for its own.

use crate::rc::runtime::drain_post;
use crate::rc::runtime::push_pool_post;
use crate::rc::runtime::Runtime;
use crate::rc::runtime::RuntimeView;
use vstd::prelude::*;

verus! {

/// What a pool token is, to specifications: its depth in the nesting stack
/// and its identity.
pub ghost struct PoolView {
    pub depth: usize,
    pub epoch: u64,
}

impl PoolView {
    /// The pool this token names is still open.
    pub open spec fn live_in(self, rt: RuntimeView) -> bool {
        &&& self.depth < rt.pools.len()
        &&& rt.epochs[self.depth as int] == self.epoch
    }

    /// The pool this token names is the innermost open pool.
    pub open spec fn is_top(self, rt: RuntimeView) -> bool {
        &&& self.live_in(rt)
        &&& self.depth + 1 == rt.pools.len()
    }
}

/// A token for one open autorelease pool.
pub struct AutoreleasePool {
    depth: usize,
    epoch: u64,
}

impl View for AutoreleasePool {
    type V = PoolView;

    closed spec fn view(&self) -> PoolView {
        PoolView { depth: self.depth, epoch: self.epoch }
    }
}

impl AutoreleasePool {
    /// Open a new pool.  It becomes the innermost pool, starts empty, and
    /// performs no foreign call.
    pub fn new(rt: &mut Runtime) -> (pool: AutoreleasePool)
        requires
            old(rt)@.wf(),
            old(rt)@.next_epoch < u64::MAX,
        ensures
            final(rt)@.wf(),
            push_pool_post(old(rt)@, final(rt)@, pool@.depth, pool@.epoch),
            pool@.is_top(final(rt)@),
            final(rt)@.pools.last() == Seq::<usize>::empty(),
    {
        let (depth, epoch) = rt.do_push_pool();
        AutoreleasePool { depth, epoch }
    }

    /// Drain the pool: one release call per deposited object, in unspecified
    /// order, after which the pool is closed for good (the token is
    /// consumed).  Only the innermost pool may drain, so pools always close
    /// in the reverse of the order they opened.
    pub fn drain(self, rt: &mut Runtime)
        requires
            old(rt)@.wf(),
            self@.is_top(old(rt)@),
            old(rt)@.releases + old(rt)@.pools.last().len() <= u64::MAX,
        ensures
            final(rt)@.wf(),
            drain_post(old(rt)@, final(rt)@),
    {
        rt.do_drain_top();
    }

    /// This pool's depth in the nesting stack (outermost is `0`).
    pub fn depth(&self) -> (d: usize)
        ensures
            d == self@.depth,
    {
        self.depth
    }
}

/// What a pool-scoped reference is, to specifications.
pub ghost struct PoolRefView {
    pub ptr: usize,
    pub depth: usize,
    pub epoch: u64,
}

impl PoolRefView {
    /// The reference is still usable: the pool it was deposited into is this
    /// very pool (same identity) and is still open, and the deposit sits in
    /// it, keeping the object alive.
    pub open spec fn valid(self, rt: RuntimeView) -> bool {
        &&& self.ptr != 0
        &&& self.depth < rt.pools.len()
        &&& rt.epochs[self.depth as int] == self.epoch
        &&& rt.pools[self.depth as int].contains(self.ptr)
    }
}

/// A reference to an object whose release has been deferred into a pool;
/// valid for the full extent of that pool's scope and not an instant longer.
#[derive(Clone, Copy)]
pub struct PoolRef {
    ptr: usize,
    depth: usize,
    epoch: u64,
}

impl View for PoolRef {
    type V = PoolRefView;

    closed spec fn view(&self) -> PoolRefView {
        PoolRefView { ptr: self.ptr, depth: self.depth, epoch: self.epoch }
    }
}

impl PoolRef {
    pub(crate) fn make_in(ptr: usize, pool: &AutoreleasePool) -> (r: PoolRef)
        ensures
            r@ == (PoolRefView { ptr, depth: pool@.depth, epoch: pool@.epoch }),
    {
        PoolRef { ptr, depth: pool.depth, epoch: pool.epoch }
    }

    /// The address of the referenced object.  Usable only while the pool the
    /// object was deposited into is open; the deferred release it holds then
    /// guarantees the object is still live.
    pub fn as_ptr(&self, rt: &Runtime) -> (p: usize)
        requires
            rt@.wf(),
            self@.valid(rt@),
        ensures
            p == self@.ptr,
            p != 0,
            rt@.live(p),
    {
        proof {
            rt@.lemma_pool_keeps_alive(self@.depth as int, self@.ptr);
        }
        self.ptr
    }
}

} // verus!
