//! Thread-transfer rules: when a handle, a weak reference or a pool-bound
//! borrow may move to, or be observed from, another thread.
//!
//! The rules compose two independent capabilities of the pointee type.  An
//! exclusively owning handle gives the same access as holding the value
//! directly, so it transfers whenever the value itself may move.  A shared
//! handle exposes immutable access through every clone, and whichever thread
//! drops the last clone runs the deallocation, so it demands both that the
//! value may move and that it tolerates concurrent observation.  A weak
//! reference follows the shared rule — loading it races with deallocation
//! from any thread.  A pool, and any reference borrowed from one, is bound to
//! the thread that opened it and never transfers.

use crate::rc::id::Ownership;
use vstd::prelude::*;

verus! {

/// The two capabilities of a pointee type that thread transfer composes.
#[derive(Clone, Copy, Debug, PartialEq, Eq, Structural)]
pub struct PointeeCapabilities {
    /// A value of the type may move to another thread.
    pub movable: bool,
    /// A value of the type may be read from several threads at once.
    pub concurrently_observable: bool,
}

/// When a handle of the given ownership mode may cross threads.
pub open spec fn spec_handle_may_transfer(own: Ownership, caps: PointeeCapabilities) -> bool {
    match own {
        Ownership::Owned => caps.movable,
        Ownership::Shared => caps.movable && caps.concurrently_observable,
    }
}

/// Whether a handle of the given ownership mode may move to another thread:
/// an exclusive handle needs only a movable pointee; a shared handle also
/// needs one that tolerates concurrent observation, because its clones give
/// every thread immutable access.
pub fn handle_may_transfer(own: Ownership, caps: PointeeCapabilities) -> (r: bool)
    ensures
        r == spec_handle_may_transfer(own, caps),
{
    match own {
        Ownership::Owned => caps.movable,
        Ownership::Shared => caps.movable && caps.concurrently_observable,
    }
}

/// Whether a weak reference may move to another thread: exactly when a shared
/// handle may, since loading it can race with deallocation on any thread.
pub fn weak_may_transfer(caps: PointeeCapabilities) -> (r: bool)
    ensures
        r == spec_handle_may_transfer(Ownership::Shared, caps),
{
    caps.movable && caps.concurrently_observable
}

/// Whether a pool, or a reference borrowed from one, may move to another
/// thread: never.  A pool must drain on the thread that opened it.
pub fn pool_may_transfer() -> (r: bool)
    ensures
        !r,
{
    false
}

/// An exclusive handle transfers whenever the corresponding shared handle
/// does: weakening the demanded capabilities never blocks a transfer that the
/// stronger mode allowed.
pub proof fn lemma_shared_transfer_implies_owned(caps: PointeeCapabilities)
    ensures
        spec_handle_may_transfer(Ownership::Shared, caps) ==> spec_handle_may_transfer(
            Ownership::Owned,
            caps,
        ),
{
}

} // verus!
