//! Reference-counting core: the modelled foreign runtime, owned handles,
//! autorelease pools and weak references.

pub mod autorelease;
pub mod id;
pub mod laws;
pub mod runtime;
pub mod transfer;
pub mod weak;

pub use crate::rc::autorelease::AutoreleasePool;
pub use crate::rc::autorelease::PoolRef;
pub use crate::rc::id::Id;
pub use crate::rc::id::Ownership;
pub use crate::rc::runtime::Runtime;
pub use crate::rc::transfer::PointeeCapabilities;
pub use crate::rc::weak::WeakId;
