//! Safe handles for objects that live in a foreign, manually
//! reference-counted object runtime.
//!
//! The foreign runtime exposes objects only through `retain`, `release` and
//! `autorelease` operations on a hidden per-object counter.  This crate
//! encodes that discipline in ownership types: an owned handle ([`rc::Id`])
//! always stands for exactly one retain credit, an autorelease pool
//! ([`rc::AutoreleasePool`]) collects deferred releases in strict LIFO
//! nesting, and a weak reference ([`rc::WeakId`]) observes an object without
//! keeping it alive.  The runtime itself is modelled explicitly by
//! [`rc::Runtime`], so every retain and release an operation performs is part
//! of its contract.
//!
//! Around that core: [`encode`] describes argument and return layouts for
//! foreign calls, [`collections`] models hashing collections whose keys may
//! change under them, and [`file`] assembles generated binding files.

pub mod collections;
pub mod encode;
pub mod file;
pub mod rc;
