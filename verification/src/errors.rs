//! Failure taxonomy of the pool's transitions.
//!
//! Every transition either commits all of its effects or returns one of these
//! errors and leaves the pool untouched; no partial state is ever observable.

use vstd::prelude::*;

verus! {

/// Reason a pool transition was rejected.
#[derive(Clone, Copy, Debug, PartialEq, Eq, Structural)]
pub enum ZkPoolError {
    /// The pool's pause flag is set; deposits, withdrawals and root updates
    /// are all gated on it.
    ProtocolPaused,
    /// The caller is not the configured admin.
    UnauthorizedAdmin,
    /// The caller is not the configured relayer.
    UnauthorizedRelayer,
    /// The accumulator has no capacity left for another leaf.
    TreeFull,
    /// The commitment is the all-zero sentinel, reserved to mean "no leaf".
    InvalidCommitment,
    /// The nullifier hash was already consumed by an earlier withdrawal.
    NullifierAlreadySpent,
    /// The state root is neither the current root nor in the root history.
    InvalidStateRoot,
    /// A zero amount, or a caller-supplied leaf index that does not match the
    /// accumulator's next index.
    InvalidAmount,
    /// The pool's custody balance cannot cover the requested amount plus fee.
    InsufficientBalance,
    /// The fee ceiling exceeds the allowed maximum.
    InvalidFeeConfig,
    /// An amount computation would wrap a 64-bit integer.
    Overflow,
}

} // verus!
