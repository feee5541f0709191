//! Shielded value-transfer pool: a commitment accumulator with a bounded
//! root history, a permanent nullifier registry, and the deposit / withdraw /
//! root-update transitions that keep them consistent.
//!
//! Depositors lock value behind a cryptographic commitment; a trusted
//! off-chain relayer later authorizes withdrawals after verifying, off-chain,
//! a zero-knowledge proof of a previously deposited note. This crate holds the
//! tamper-evident state those proofs are checked against and proves the global
//! invariants the design depends on: monotonic leaf allocation, exactly-once
//! nullifier consumption, bounded-staleness root acceptance, and overflow-safe
//! accounting.

pub mod errors;
pub mod evaluation;
pub mod events;
pub mod laws;
pub mod pool;
pub mod state;
pub mod vault;
