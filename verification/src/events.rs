//! Events returned by successful transitions, for the relayer to index.
//!
//! The relayer maintains the full tree off-chain from `CommitmentInserted`
//! events, learns of rotations from `RootUpdated`, and of payouts from
//! `WithdrawalProcessed`.

use vstd::prelude::*;

verus! {

/// A leaf was inserted into the accumulator.
pub struct CommitmentInserted {
    /// Leaf index the commitment was inserted at.
    pub index: u64,
    /// The inserted commitment hash.
    pub commitment: [u8; 32],
    /// Opaque relayer-only payload; carried through unvalidated.
    pub encrypted_output: Vec<u8>,
    /// Deposited amount; zero for a withdrawal change output, whose amount
    /// stays hidden.
    pub amount: u64,
    /// `None` for the native asset, `Some(mint)` for a fungible asset.
    pub mint: Option<[u8; 32]>,
}

/// A withdrawal was paid out and its nullifier permanently consumed.
pub struct WithdrawalProcessed {
    /// The consumed nullifier hash.
    pub nullifier_hash: [u8; 32],
    /// Recipient of the withdrawn amount.
    pub recipient: [u8; 32],
    /// Amount paid to the recipient.
    pub amount: u64,
    /// Fee paid to the configured fee recipient.
    pub fee: u64,
    /// `None` for the native asset, `Some(mint)` for a fungible asset.
    pub mint: Option<[u8; 32]>,
    /// Change commitment, when the withdrawal allocated a change leaf.
    pub new_commitment: Option<[u8; 32]>,
    /// Index of the change leaf, when one was allocated.
    pub new_index: Option<u64>,
}

/// The accumulator's current root was rotated into history and replaced.
pub struct RootUpdated {
    /// The newly installed root.
    pub new_root: [u8; 32],
    /// Ring-buffer cursor after the rotation.
    pub root_index: u64,
}

} // verus!
