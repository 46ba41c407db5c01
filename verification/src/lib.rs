//! A minimal virtual-DOM reconciliation engine.
//!
//! A caller describes the desired node tree as an immutable [`node::VirtualDomNode`]
//! value.  A [`session::VirtualDom`] keeps the tree rendered by the previous call
//! and, on each [`session::VirtualDom::render`], walks the old and the new tree in
//! lock-step, asking a [`sink::Sink`] for the few node mutations that turn the one
//! into the other.  The exact sequence of mutations a render issues is stated by
//! the spec functions in [`reconcile`] and proved of the executable code; the laws
//! in [`laws`] record the behaviour the engine guarantees.

pub mod laws;
pub mod node;
pub mod reconcile;
pub mod session;
pub mod sink;
