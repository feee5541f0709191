//! Pool state: configuration record, commitment accumulator, and the
//! per-hash records the registry is made of.
//!
//! The accumulator (`MerkleTree`) keeps only what withdrawals are checked
//! against: the next free leaf index, the current root, and a 32-slot ring
//! buffer of recently current roots. The full tree lives off-chain with the
//! relayer. Each executable type has a ghost model (`view`) over which every
//! contract in this crate is stated.

use vstd::prelude::*;
use vstd::arithmetic::power2::pow2;
use crate::errors::ZkPoolError;

verus! {

/// Number of slots in the root-history ring buffer.
pub const ROOT_HISTORY_SIZE: usize = 32;

/// Height the accumulator is created with (capacity `2^20` leaves).
pub const MERKLE_TREE_HEIGHT: u8 = 20;

/// Maximum fee ceiling, in basis points (10%).
pub const MAX_FEE_BPS: u16 = 1000;

/// True when every byte of `s` is zero: the all-zero 32-byte value is the
/// reserved "no leaf" sentinel for commitments.
pub open spec fn is_zero_bytes(s: Seq<u8>) -> bool {
    forall|i: int| 0 <= i < s.len() ==> s[i] == 0u8
}

/// Byte-exact equality of two 32-byte values.
pub fn bytes32_eq(a: &[u8; 32], b: &[u8; 32]) -> (r: bool)
    ensures
        r <==> a@ =~= b@,
{
    let mut i: usize = 0;
    while i < 32
        invariant
            i <= 32,
            forall|j: int| 0 <= j < i ==> a@[j] == b@[j],
        decreases 32 - i,
    {
        if a[i] != b[i] {
            return false;
        }
        i += 1;
    }
    true
}

/// True when every byte of `b` is zero.
pub fn bytes32_is_zero(b: &[u8; 32]) -> (r: bool)
    ensures
        r == is_zero_bytes(b@),
{
    let mut i: usize = 0;
    while i < 32
        invariant
            i <= 32,
            forall|j: int| 0 <= j < i ==> b@[j] == 0u8,
        decreases 32 - i,
    {
        if b[i] != 0 {
            return false;
        }
        i += 1;
    }
    true
}

/// The all-zero 32-byte value, used as the initial root and as the
/// "no leaf" commitment sentinel.
pub fn zero_bytes32() -> (r: [u8; 32])
    ensures
        r@.len() == 32,
        is_zero_bytes(r@),
{
    [0u8; 32]
}

/// Mathematical model of the pool configuration.
#[verifier::ext_equal]
pub ghost struct ConfigModel {
    pub admin: Seq<u8>,
    pub relayer: Seq<u8>,
    pub fee_bps: nat,
    pub fee_recipient: Seq<u8>,
    pub verifier_program: Seq<u8>,
    pub paused: bool,
}

/// Mathematical model of the commitment accumulator.
#[verifier::ext_equal]
pub ghost struct TreeModel {
    pub authority: Seq<u8>,
    pub next_index: nat,
    pub current_root: Seq<u8>,
    /// The 32 ring-buffer slots, oldest overwritten first.
    pub history: Seq<Seq<u8>>,
    /// Write cursor into the ring buffer; wraps at `2^64`.
    pub cursor: nat,
    pub height: nat,
}

/// Leaf capacity of an accumulator of height `h`.
pub open spec fn tree_capacity(h: nat) -> nat {
    pow2(h)
}

impl TreeModel {
    /// Validity of the accumulator: full ring buffer of 32-byte slots, a
    /// height small enough that `2^height` fits a `u64`, and a leaf counter
    /// that has never passed the capacity.
    pub open spec fn wf(self) -> bool {
        &&& self.history.len() == 32
        &&& forall|i: int| 0 <= i < 32 ==> (#[trigger] self.history[i]).len() == 32
        &&& self.current_root.len() == 32
        &&& self.height <= 63
        &&& self.next_index <= tree_capacity(self.height)
        &&& self.cursor < 0x1_0000_0000_0000_0000
    }

    /// True when no further leaf can be allocated.
    pub open spec fn is_full(self) -> bool {
        self.next_index >= tree_capacity(self.height)
    }

    /// A candidate root is accepted iff it is the current root or sits in
    /// one of the 32 history slots, compared byte-exact.
    pub open spec fn known_root(self, r: Seq<u8>) -> bool {
        ||| r == self.current_root
        ||| exists|i: int| 0 <= i < 32 && self.history[i] == r
    }

    /// One root rotation: the current root is written into the slot under
    /// the cursor, the cursor advances (wrapping at `2^64`), and the new
    /// root becomes current.
    pub open spec fn rotate(self, new_root: Seq<u8>) -> TreeModel {
        TreeModel {
            current_root: new_root,
            history: self.history.update((self.cursor % 32) as int, self.current_root),
            cursor: (self.cursor + 1) % 0x1_0000_0000_0000_0000,
            ..self
        }
    }
}

/// Effect of allocating one leaf for `commitment`: fails `TreeFull` at
/// capacity and `InvalidCommitment` on the zero sentinel, otherwise returns
/// the allocated index and advances the counter by one.
pub open spec fn spec_allocate(t: TreeModel, commitment: Seq<u8>) -> (TreeModel, Result<
    nat,
    ZkPoolError,
>) {
    if t.is_full() {
        (t, Err(ZkPoolError::TreeFull))
    } else if is_zero_bytes(commitment) {
        (t, Err(ZkPoolError::InvalidCommitment))
    } else {
        (TreeModel { next_index: t.next_index + 1, ..t }, Ok(t.next_index))
    }
}

/// Global pool configuration: authorities, fee policy, pause flag.
pub struct PoolConfig {
    /// Admin authority key.
    pub admin: [u8; 32],
    /// Relayer authority key; only it may submit withdrawals and root updates.
    pub relayer: [u8; 32],
    /// Fee ceiling in basis points, validated once at initialization.
    pub fee_bps: u16,
    /// Account that receives withdrawal fees.
    pub fee_recipient: [u8; 32],
    /// Verifier program id, reserved for future on-chain proof verification.
    pub verifier_program: [u8; 32],
    /// Pause flag; gates deposits, withdrawals and root updates uniformly.
    pub paused: bool,
}

impl View for PoolConfig {
    type V = ConfigModel;

    open spec fn view(&self) -> ConfigModel {
        ConfigModel {
            admin: self.admin@,
            relayer: self.relayer@,
            fee_bps: self.fee_bps as nat,
            fee_recipient: self.fee_recipient@,
            verifier_program: self.verifier_program@,
            paused: self.paused,
        }
    }
}

/// Commitment accumulator: leaf counter, current root, and a ring buffer of
/// the 32 most recently current roots.
pub struct MerkleTree {
    /// Authority that rotates roots (the relayer).
    pub authority: [u8; 32],
    /// Next free leaf index; monotonic, never decreases.
    pub next_index: u64,
    /// The current root.
    pub current_root: [u8; 32],
    /// Ring buffer of recently current roots; always exactly 32 slots.
    pub root_history: Vec<[u8; 32]>,
    /// Write cursor into `root_history`; wraps at `2^64`, used modulo 32.
    pub root_history_index: u64,
    /// Tree height; capacity is `2^height` leaves.
    pub height: u8,
}

impl View for MerkleTree {
    type V = TreeModel;

    open spec fn view(&self) -> TreeModel {
        TreeModel {
            authority: self.authority@,
            next_index: self.next_index as nat,
            current_root: self.current_root@,
            history: Seq::new(self.root_history@.len(), |i: int| self.root_history@[i]@),
            cursor: self.root_history_index as nat,
            height: self.height as nat,
        }
    }
}

impl MerkleTree {
    /// Validity of the executable accumulator, stated over its model.
    pub open spec fn wf(&self) -> bool {
        self@.wf()
    }

    /// Read the `i`-th slot of the root-history ring buffer.
    pub fn get_root_history(&self, i: usize) -> (root: [u8; 32])
        requires
            i < 32,
            self.wf(),
        ensures
            root@ == self@.history[i as int],
    {
        self.root_history[i]
    }

    /// Overwrite the `i`-th slot of the root-history ring buffer.
    pub fn set_root_history(&mut self, i: usize, root: &[u8; 32])
        requires
            i < 32,
            old(self).wf(),
        ensures
            final(self).wf(),
            final(self)@ == (TreeModel { history: old(self)@.history.update(i as int, root@), ..old(self)@ }),
    {
        self.root_history.set(i, *root);
        proof {
            assert(self@.history =~= old(self)@.history.update(i as int, root@));
            assert(self@ =~= (TreeModel {
                history: old(self)@.history.update(i as int, root@),
                ..old(self)@
            }));
        }
    }

    /// Decide whether `root` is the current root or any of the 32 history
    /// slots, compared byte-exact.
    pub fn is_known_root(&self, root: &[u8; 32]) -> (r: bool)
        requires
            self.wf(),
        ensures
            r == self@.known_root(root@),
    {
        if bytes32_eq(&self.current_root, root) {
            return true;
        }
        let mut i: usize = 0;
        while i < ROOT_HISTORY_SIZE
            invariant
                i <= 32,
                self.wf(),
                !(root@ =~= self.current_root@),
                forall|j: int| 0 <= j < i ==> self@.history[j] != root@,
            decreases 32 - i,
        {
            let h = self.get_root_history(i);
            if bytes32_eq(&h, root) {
                return true;
            }
            i += 1;
        }
        false
    }

    /// True when the accumulator has no capacity left.
    pub fn is_full(&self) -> (r: bool)
        requires
            self.wf(),
        ensures
            r == self@.is_full(),
    {
        let cap = 1u64 << (self.height as u64);
        proof {
            vstd::bits::lemma_u64_pow2_no_overflow(self@.height);
            vstd::bits::lemma_u64_shl_is_mul(1u64, self.height as u64);
        }
        self.next_index >= cap
    }

    /// Allocate the next leaf for `commitment`: fails `TreeFull` at capacity
    /// and `InvalidCommitment` on the zero sentinel, otherwise returns the
    /// allocated index and advances the leaf counter by one.
    pub fn allocate_leaf(&mut self, commitment: &[u8; 32]) -> (r: Result<u64, ZkPoolError>)
        requires
            old(self).wf(),
        ensures
            final(self).wf(),
            ({
                let (t2, out) = spec_allocate(old(self)@, commitment@);
                &&& final(self)@ == t2
                &&& (match r {
                    Ok(ix) => out == Ok::<nat, ZkPoolError>(ix as nat),
                    Err(e) => out == Err::<nat, ZkPoolError>(e),
                })
            }),
    {
        if self.is_full() {
            return Err(ZkPoolError::TreeFull);
        }
        if bytes32_is_zero(commitment) {
            return Err(ZkPoolError::InvalidCommitment);
        }
        let index = self.next_index;
        proof {
            vstd::bits::lemma_u64_pow2_no_overflow(self@.height);
        }
        match index.checked_add(1) {
            Some(next) => {
                self.next_index = next;
                proof {
                    assert(self@ =~= (TreeModel { next_index: old(self)@.next_index + 1, ..old(self)@ }));
                }
                Ok(index)
            },
            None => Err(ZkPoolError::Overflow),
        }
    }
}

/// A spent-nullifier record: its existence is the proof of spending.
pub struct NullifierAccount {
    /// The consumed nullifier hash.
    pub nullifier_hash: [u8; 32],
}

impl View for NullifierAccount {
    type V = Seq<u8>;

    open spec fn view(&self) -> Seq<u8> {
        self.nullifier_hash@
    }
}

/// Mathematical model of a per-deposit commitment record.
#[verifier::ext_equal]
pub ghost struct RecordModel {
    pub index: nat,
    pub commitment: Seq<u8>,
}

/// A per-deposit commitment record, addressed by leaf index, kept for
/// queryability by the relayer and clients.
pub struct CommitmentRecord {
    /// Leaf index this commitment was inserted at.
    pub index: u64,
    /// The commitment hash.
    pub commitment: [u8; 32],
}

impl View for CommitmentRecord {
    type V = RecordModel;

    open spec fn view(&self) -> RecordModel {
        RecordModel { index: self.index as nat, commitment: self.commitment@ }
    }
}

} // verus!
