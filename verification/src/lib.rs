//! Core of a reactive-update engine for declaratively rendered UI trees.
//!
//! The crate provides versioned observable cells with change notification,
//! an ordered collection that records its own incremental change log, a
//! reconciler that translates that log into element and task lifecycle
//! operations, and the state machine of a scope-confined task spawner.
//! Everything here is plain sequential logic; the host program supplies the
//! executor, the wakers and the rendering backend around it.

pub mod backing;
pub mod changes;
pub mod document;
pub mod list_model;
pub mod listeners;
pub mod observable;
pub mod reconcile;
pub mod signals;
pub mod spawn;
pub mod text_input;
pub mod tracked_store;
pub mod version;

pub use version::Version;
