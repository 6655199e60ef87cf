//! Accounting core of a peer-to-peer compute-rental marketplace.
//!
//! The library tracks resource providers, brokers time-bounded rentals, and
//! manages escrowed payment through atomic state transitions. It is written
//! for a deterministic, transactional host that serializes every call and
//! discards all storage mutations if a call fails partway through; the host
//! edge (persistence, authorization, clock, funds transfer) hands the library
//! plain values and takes plain values back.

pub mod errors;
pub mod laws;
pub mod market;
pub mod state;
pub mod types;

pub use errors::ContractError;
