//! Deterministic core of a permissioned ledger: trigger lifecycle instructions,
//! read-only queries over the trigger registry, and notification filters.
//!
//! - [`data_model`] holds the plain data: identifiers, values, triggers,
//!   instructions, queries, notifications and their filters. Each type that
//!   holds text or a collection has a view, its mathematical content, and the
//!   contracts of the library speak of views.
//! - [`triggers`] is the trigger registry and [`wsv`] the world state around
//!   it, with the one gateway through which the registry changes.
//! - [`smartcontracts`] says what each instruction does to the world and what
//!   each query answers, and proves the rules that hold of them.
//! - [`error`] holds the failures. None is fatal, and a failed instruction
//!   leaves no trace.

pub mod data_model;
pub mod error;
pub mod smartcontracts;
pub mod triggers;
pub mod wsv;
