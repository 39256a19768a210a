//! Owned handles on foreign objects.
//!
//! An [`Id`] stands for exactly one retain credit on one foreign object: the
//! object's counter was incremented on the handle's behalf, and the handle
//! owes exactly one release, paid when it is consumed ([`Id::release`]) or
//! deposited into an autorelease pool.
//!
//! A handle is either exclusively owning ([`Ownership::Owned`]) — it is then
//! the only handle on the object, which licenses mutable access — or shared
//! ([`Ownership::Shared`]) — it can then be cloned, each clone taking one
//! more retain credit.  Downgrading from `Owned` to `Shared` is a pure
//! re-tagging without any foreign call; the converse, [`Id::from_shared`],
//! demands that the caller proves the handle is the only one.

use crate::rc::autorelease::AutoreleasePool;
use crate::rc::autorelease::PoolRef;
use crate::rc::autorelease::PoolRefView;
use crate::rc::runtime::adopt_post;
use crate::rc::runtime::deposit_post;
use crate::rc::runtime::release_post;
use crate::rc::runtime::retag_post;
use crate::rc::runtime::retain_post;
use crate::rc::runtime::Runtime;
use crate::rc::runtime::RuntimeView;
use vstd::prelude::*;

verus! {

/// Ownership mode of a handle: exclusive (mutable, unique) or shared
/// (immutable, cloneable).
#[derive(Clone, Copy, Debug, PartialEq, Eq, Structural)]
pub enum Ownership {
    /// The one handle on its object; grants mutable access.
    Owned,
    /// One of possibly many handles; grants immutable access and cloning.
    Shared,
}

/// What a handle is, to specifications: a non-null address and an ownership
/// mode.
pub ghost struct IdView {
    pub ptr: usize,
    pub own: Ownership,
}

impl IdView {
    /// The handle is in good standing against the runtime state `rt`: its
    /// object is allocated, at least one handle credit is booked on it, and
    /// its ownership mode agrees with the runtime's exclusivity mark.
    pub open spec fn valid(self, rt: RuntimeView) -> bool {
        &&& self.ptr != 0
        &&& rt.allocated(self.ptr)
        &&& rt.claimed(self.ptr) >= 1
        &&& (self.own is Owned <==> rt.is_exclusive(self.ptr))
    }
}

/// A retained handle on a foreign object.
///
/// The handle owns one retain credit; dropping it without calling
/// [`Id::release`] or depositing it into a pool would leak that credit, but
/// can never over-release.
pub struct Id {
    ptr: usize,
    own: Ownership,
}

impl View for Id {
    type V = IdView;

    closed spec fn view(&self) -> IdView {
        IdView { ptr: self.ptr, own: self.own }
    }
}

impl Id {
    /// The address is never null: absence of an object is represented by the
    /// absence of a handle, never by a null-valued handle.
    #[verifier::type_invariant]
    spec fn type_inv(self) -> bool {
        self.ptr != 0
    }

    /// Adopt a raw foreign pointer that already carries one unclaimed retain
    /// credit — typically the result of an allocating or explicitly retaining
    /// foreign call.  Wraps it without any retain or release call; returns
    /// `None` exactly on the null pointer, again without any call.
    ///
    /// For an `Owned` handle the caller must show the object is uniquely
    /// referenced; for a `Shared` handle only that no exclusive handle is
    /// outstanding.
    pub fn new(ptr: usize, own: Ownership, rt: &mut Runtime) -> (r: Option<Id>)
        requires
            old(rt)@.wf(),
            ptr != 0 ==> old(rt)@.allocated(ptr) && old(rt)@.unclaimed_credit(ptr),
            ptr != 0 && own is Owned ==> old(rt)@.uniquely_referenced(ptr),
            ptr != 0 && own is Shared ==> !old(rt)@.is_exclusive(ptr),
        ensures
            final(rt)@.wf(),
            ptr == 0 ==> r is None && final(rt)@ == old(rt)@,
            ptr != 0 ==> (r matches Some(h) && h@ == (IdView { ptr, own }) && adopt_post(
                old(rt)@,
                final(rt)@,
                ptr,
                own is Owned,
            ) && h@.valid(final(rt)@)),
    {
        if ptr == 0 {
            None
        } else {
            rt.do_adopt(ptr, matches!(own, Ownership::Owned));
            Some(Id { ptr, own })
        }
    }

    /// Retain a foreign pointer observed from elsewhere: one retain call, and
    /// the new credit becomes the handle's.  Returns `None` exactly on the
    /// null pointer, performing no call in that case.
    pub fn retain(ptr: usize, own: Ownership, rt: &mut Runtime) -> (r: Option<Id>)
        requires
            old(rt)@.wf(),
            ptr != 0 ==> old(rt)@.live(ptr) && old(rt)@.count(ptr) < u64::MAX && old(rt)@.retains
                < u64::MAX,
            ptr != 0 && own is Owned ==> old(rt)@.uniquely_referenced(ptr),
            ptr != 0 && own is Shared ==> !old(rt)@.is_exclusive(ptr),
        ensures
            final(rt)@.wf(),
            ptr == 0 ==> r is None && final(rt)@ == old(rt)@,
            ptr != 0 ==> (r matches Some(h) && h@ == (IdView { ptr, own }) && retain_post(
                old(rt)@,
                final(rt)@,
                ptr,
                own is Owned,
            ) && h@.valid(final(rt)@)),
    {
        if ptr == 0 {
            None
        } else {
            rt.do_retain(ptr, matches!(own, Ownership::Owned));
            Some(Id { ptr, own })
        }
    }

    /// Retain a pointer that a foreign call has just autoreleased.  The
    /// foreign runtime may service this faster than a plain retain, but the
    /// semantics are exactly those of [`Id::retain`]; only performance may
    /// differ.
    pub fn retain_autoreleased(ptr: usize, own: Ownership, rt: &mut Runtime) -> (r: Option<Id>)
        requires
            old(rt)@.wf(),
            ptr != 0 ==> old(rt)@.live(ptr) && old(rt)@.count(ptr) < u64::MAX && old(rt)@.retains
                < u64::MAX,
            ptr != 0 && own is Owned ==> old(rt)@.uniquely_referenced(ptr),
            ptr != 0 && own is Shared ==> !old(rt)@.is_exclusive(ptr),
        ensures
            final(rt)@.wf(),
            ptr == 0 ==> r is None && final(rt)@ == old(rt)@,
            ptr != 0 ==> (r matches Some(h) && h@ == (IdView { ptr, own }) && retain_post(
                old(rt)@,
                final(rt)@,
                ptr,
                own is Owned,
            ) && h@.valid(final(rt)@)),
    {
        Self::retain(ptr, own, rt)
    }

    /// The raw address of the object; never null.
    pub fn as_ptr(&self) -> (p: usize)
        ensures
            p == self@.ptr,
            p != 0,
    {
        proof {
            use_type_invariant(&self);
        }
        self.ptr
    }

    /// The handle's ownership mode.
    pub fn ownership(&self) -> (o: Ownership)
        ensures
            o == self@.own,
    {
        self.own
    }

    /// Clone a shared handle: one retain call, and an independent handle on
    /// the same object with its own release obligation.  Never fails: a live
    /// shared handle always refers to a not-yet-deallocated object.
    pub fn clone(&self, rt: &mut Runtime) -> (c: Id)
        requires
            old(rt)@.wf(),
            self@.valid(old(rt)@),
            self@.own is Shared,
            old(rt)@.count(self@.ptr) < u64::MAX,
            old(rt)@.retains < u64::MAX,
        ensures
            final(rt)@.wf(),
            retain_post(old(rt)@, final(rt)@, self@.ptr, false),
            c@ == (IdView { ptr: self@.ptr, own: Ownership::Shared }),
            c@.valid(final(rt)@),
            self@.valid(final(rt)@),
    {
        proof {
            assert(old(rt)@.claimed(self@.ptr) + old(rt)@.pending(self@.ptr) <= old(rt)@.count(
                self@.ptr,
            ));
        }
        rt.do_retain(self.ptr, false);
        Id { ptr: self.ptr, own: Ownership::Shared }
    }

    /// Destroy the handle: exactly one release call, unconditionally, paying
    /// back the handle's credit.  At counter zero the foreign runtime
    /// deallocates the object.
    pub fn release(self, rt: &mut Runtime)
        requires
            old(rt)@.wf(),
            self@.valid(old(rt)@),
            old(rt)@.releases < u64::MAX,
        ensures
            final(rt)@.wf(),
            release_post(old(rt)@, final(rt)@, self@.ptr),
    {
        rt.do_release(self.ptr);
    }

    /// Downgrade an exclusive handle to a shared one.  Pure re-tagging: no
    /// retain, no release, no counter change anywhere — the runtime's object
    /// table and call counters are exactly what they were.
    pub fn downgrade(self, rt: &mut Runtime) -> (r: Id)
        requires
            old(rt)@.wf(),
            self@.valid(old(rt)@),
            self@.own is Owned,
        ensures
            final(rt)@.wf(),
            retag_post(old(rt)@, final(rt)@, self@.ptr, false),
            r@ == (IdView { ptr: self@.ptr, own: Ownership::Shared }),
            r@.valid(final(rt)@),
    {
        rt.do_retag(self.ptr, false);
        Id { ptr: self.ptr, own: Ownership::Shared }
    }

    /// Deposit the handle into the innermost open pool: one autorelease
    /// call.  The handle's release obligation transfers to the pool, which
    /// will perform it when it drains; until then the object stays live, and
    /// the returned reference is usable anywhere within the pool's scope.
    pub fn autorelease(self, pool: &AutoreleasePool, rt: &mut Runtime) -> (r: PoolRef)
        requires
            old(rt)@.wf(),
            self@.valid(old(rt)@),
            pool@.is_top(old(rt)@),
            old(rt)@.autoreleases < u64::MAX,
        ensures
            final(rt)@.wf(),
            deposit_post(old(rt)@, final(rt)@, self@.ptr),
            r@ == (PoolRefView { ptr: self@.ptr, depth: pool@.depth, epoch: pool@.epoch }),
            r@.valid(final(rt)@),
    {
        let ptr = self.as_ptr();
        rt.do_deposit(ptr);
        let r = PoolRef::make_in(ptr, pool);
        proof {
            let d = pool@.depth as int;
            assert(rt@.pools[d] == old(rt)@.pools.last().push(ptr));
            assert(rt@.pools[d].last() == ptr);
            assert(rt@.pools[d].contains(ptr));
        }
        r
    }

    /// Promote a shared handle to an exclusive one.  The caller must prove
    /// that this handle is the only one on the object — the runtime cannot
    /// check it — and promises on top that no weak reference to the object
    /// will be loaded while the exclusive handle lives.  No foreign call is
    /// made.
    pub fn from_shared(obj: Id, rt: &mut Runtime) -> (r: Id)
        requires
            old(rt)@.wf(),
            obj@.valid(old(rt)@),
            obj@.own is Shared,
            old(rt)@.claimed(obj@.ptr) == 1,
        ensures
            final(rt)@.wf(),
            retag_post(old(rt)@, final(rt)@, obj@.ptr, true),
            r@ == (IdView { ptr: obj@.ptr, own: Ownership::Owned }),
            r@.valid(final(rt)@),
    {
        let ptr = obj.as_ptr();
        rt.do_retag(ptr, true);
        Id { ptr, own: Ownership::Owned }
    }

    /// Build a handle from parts the caller has already accounted for.
    pub(crate) fn assemble(ptr: usize, own: Ownership) -> (h: Id)
        requires
            ptr != 0,
        ensures
            h@ == (IdView { ptr, own }),
    {
        Id { ptr, own }
    }
}

} // verus!
