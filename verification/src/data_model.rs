//! Plain data of the ledger: names, values, triggers, instructions, events
//! and their filters.

pub mod assoc;
pub mod isi;
pub mod name;
pub mod notification;
pub mod query;
pub mod trigger;
pub mod value;
