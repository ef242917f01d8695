//! Produce–submit–confirm pipeline of a rollup block producer, together with
//! the node set-up helpers that accompany it.
//!
//! Every item here is verified. Work that needs the network, the disk, a clock
//! or an async runtime is left to the caller, which hands plain values in and
//! takes decisions back.

pub mod chain;
pub mod confirm;
pub mod diagnose;
pub mod invariants;
pub mod local_cells;
pub mod psc;
pub mod recovery;
pub mod request_map;
pub mod setup;
pub mod since;
pub mod store;
pub mod submit;
pub mod text;
pub mod types;
