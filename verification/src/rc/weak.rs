//! Weak, non-owning observation of a foreign object.
//!
//! A [`WeakId`] records an object's identity without holding any retain
//! credit: creating, holding or dropping one never changes the object's
//! counter.  [`WeakId::load`] atomically either retains the still-live object
//! and hands back a shared handle, or observes that it has been deallocated
//! and reports absence; it never partially succeeds and never panics.

use crate::rc::id::Id;
use crate::rc::id::IdView;
use crate::rc::id::Ownership;
use crate::rc::runtime::retain_post;
use crate::rc::runtime::Runtime;
use vstd::prelude::*;

verus! {

/// A non-owning observer of one foreign object.  Outlives the object freely.
pub struct WeakId {
    ptr: usize,
}

impl View for WeakId {
    type V = usize;

    closed spec fn view(&self) -> usize {
        self.ptr
    }
}

impl WeakId {
    /// Observe the object a shared handle refers to.  Takes no runtime at
    /// all: recording the identity performs no foreign call and cannot change
    /// any counter.
    pub fn new(obj: &Id) -> (w: WeakId)
        requires
            obj@.own is Shared,
        ensures
            w@ == obj@.ptr,
            w@ != 0,
    {
        WeakId { ptr: obj.as_ptr() }
    }

    /// Load the observed object.  If it is still live, one retain call is
    /// made and a shared handle is returned; if it has been deallocated,
    /// absence is returned and no foreign call is made.  Exactly one of the
    /// two happens.
    ///
    /// No exclusively owning handle may be outstanding: whoever promoted a
    /// handle to exclusive promised that no weak reference would be loaded
    /// while it lives (see [`Id::from_shared`]).
    pub fn load(&self, rt: &mut Runtime) -> (r: Option<Id>)
        requires
            old(rt)@.wf(),
            old(rt)@.allocated(self@),
            !old(rt)@.is_exclusive(self@),
            old(rt)@.live(self@) ==> old(rt)@.count(self@) < u64::MAX && old(rt)@.retains
                < u64::MAX,
        ensures
            final(rt)@.wf(),
            old(rt)@.live(self@) ==> (r matches Some(h) && h@ == (IdView {
                ptr: self@,
                own: Ownership::Shared,
            }) && retain_post(old(rt)@, final(rt)@, self@, false) && h@.valid(final(rt)@)),
            !old(rt)@.live(self@) ==> r is None && final(rt)@ == old(rt)@,
    {
        if rt.retain_count(self.ptr) > 0 {
            rt.do_retain(self.ptr, false);
            proof {
                use_type_invariant(&self);
            }
            Some(Id::assemble(self.ptr, Ownership::Shared))
        } else {
            None
        }
    }

    /// The address is never null: a weak reference always names some object,
    /// live or not.
    #[verifier::type_invariant]
    spec fn type_inv(self) -> bool {
        self.ptr != 0
    }
}

} // verus!
