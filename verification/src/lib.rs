//! An in-memory key-value store for string keys and string values, together
//! with a command layer that enforces each command's arity, decodes its
//! arguments, dispatches to the store, and reports which invocations a host
//! must replicate.
//!
//! The store itself is a leaf: a mapping from keys to values with insert,
//! lookup, removal and key enumeration. The command layer wraps it in the
//! four commands a host server exposes: set, get, del, and keys.

pub mod commands;
pub mod laws;
pub mod replication;
pub mod store;
