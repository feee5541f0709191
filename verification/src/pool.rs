//! The pool singleton and its transitions.
//!
//! Every transition is atomic and all-or-nothing: it either returns `Ok`
//! with an event describing exactly what happened, or returns an error and
//! leaves the pool byte-for-byte unchanged. Each executable transition is
//! specified against a spec-level transition function on `PoolModel`, so the
//! global laws can be stated and proved purely over models.

use vstd::prelude::*;
use crate::errors::ZkPoolError;
use crate::events::{CommitmentInserted, RootUpdated, WithdrawalProcessed};
use crate::state::{
    bytes32_eq, bytes32_is_zero, is_zero_bytes, spec_allocate, zero_bytes32, CommitmentRecord,
    ConfigModel, MerkleTree, NullifierAccount, PoolConfig, RecordModel, TreeModel,
    MAX_FEE_BPS, MERKLE_TREE_HEIGHT, ROOT_HISTORY_SIZE,
};

verus! {

/// Custody balance the pool holds for one fungible asset.
pub struct TokenBalance {
    /// Asset mint this balance belongs to.
    pub mint: [u8; 32],
    /// Base-unit balance held in custody.
    pub balance: u64,
}

/// Mathematical model of one fungible-asset custody balance.
#[verifier::ext_equal]
pub ghost struct TokenEntry {
    pub mint: Seq<u8>,
    pub balance: nat,
}

impl View for TokenBalance {
    type V = TokenEntry;

    open spec fn view(&self) -> TokenEntry {
        TokenEntry { mint: self.mint@, balance: self.balance as nat }
    }
}

/// Public inputs of the off-chain-verified withdrawal proof.
pub struct WithdrawInputs {
    /// Nullifier hash to consume; at most one withdrawal may ever use it.
    pub nullifier_hash: [u8; 32],
    /// Accumulator root the proof was built against.
    pub state_root: [u8; 32],
    /// Change commitment; the zero sentinel means "no change output".
    pub new_commitment: [u8; 32],
}

/// Mathematical model of `WithdrawInputs`.
#[verifier::ext_equal]
pub ghost struct WithdrawInputsModel {
    pub nullifier_hash: Seq<u8>,
    pub state_root: Seq<u8>,
    pub new_commitment: Seq<u8>,
}

impl View for WithdrawInputs {
    type V = WithdrawInputsModel;

    open spec fn view(&self) -> WithdrawInputsModel {
        WithdrawInputsModel {
            nullifier_hash: self.nullifier_hash@,
            state_root: self.state_root@,
            new_commitment: self.new_commitment@,
        }
    }
}

/// The whole pool: configuration, accumulator, nullifier registry,
/// commitment records, and custody balances.
pub struct Pool {
    /// Authorization and fee configuration.
    pub config: PoolConfig,
    /// The commitment accumulator.
    pub tree: MerkleTree,
    /// Append-only registry of consumed nullifier hashes.
    pub nullifiers: Vec<NullifierAccount>,
    /// Per-deposit commitment records, in leaf-index order.
    pub commitments: Vec<CommitmentRecord>,
    /// Custody balance of the native asset.
    pub native_balance: u64,
    /// Custody balances of fungible assets, one entry per mint.
    pub token_balances: Vec<TokenBalance>,
}

/// Mathematical model of the whole pool.
#[verifier::ext_equal]
pub ghost struct PoolModel {
    pub config: ConfigModel,
    pub tree: TreeModel,
    pub nullifiers: Seq<Seq<u8>>,
    pub records: Seq<RecordModel>,
    pub native_balance: nat,
    pub token_balances: Seq<TokenEntry>,
}

impl View for Pool {
    type V = PoolModel;

    open spec fn view(&self) -> PoolModel {
        PoolModel {
            config: self.config@,
            tree: self.tree@,
            nullifiers: Seq::new(self.nullifiers@.len(), |i: int| self.nullifiers@[i]@),
            records: Seq::new(self.commitments@.len(), |i: int| self.commitments@[i]@),
            native_balance: self.native_balance as nat,
            token_balances: Seq::new(self.token_balances@.len(), |i: int| self.token_balances@[i]@),
        }
    }
}

/// Model view of an optional asset mint: `None` is the native asset.
pub open spec fn mint_view(m: Option<[u8; 32]>) -> Option<Seq<u8>> {
    match m {
        Some(x) => Some(x@),
        None => None,
    }
}

/// Index of the entry for `mint`, or `-1` when no entry exists.
pub open spec fn mint_index(s: Seq<TokenEntry>, mint: Seq<u8>) -> int
    decreases s.len(),
{
    if s.len() == 0 {
        -1
    } else if s[0].mint == mint {
        0
    } else {
        let r = mint_index(s.drop_first(), mint);
        if r < 0 {
            -1
        } else {
            r + 1
        }
    }
}

/// `mint_index` finds the first entry for `mint`, and only fails when none
/// exists.
pub proof fn lemma_mint_index_props(s: Seq<TokenEntry>, mint: Seq<u8>)
    ensures
        mint_index(s, mint) < 0 <==> (forall|j: int|
            0 <= j < s.len() ==> (#[trigger] s[j]).mint != mint),
        mint_index(s, mint) >= 0 ==> {
            &&& mint_index(s, mint) < s.len()
            &&& s[mint_index(s, mint)].mint == mint
            &&& forall|j: int| 0 <= j < mint_index(s, mint) ==> (#[trigger] s[j]).mint != mint
        },
    decreases s.len(),
{
    if s.len() > 0 && s[0].mint != mint {
        lemma_mint_index_props(s.drop_first(), mint);
        assert(forall|j: int|
            1 <= j < s.len() ==> #[trigger] s[j] == s.drop_first()[j - 1]);
    }
}

/// Custody balance held for the given asset; zero when no entry exists.
pub open spec fn asset_balance(p: PoolModel, mint: Option<Seq<u8>>) -> nat {
    match mint {
        None => p.native_balance,
        Some(m) => {
            let i = mint_index(p.token_balances, m);
            if i < 0 {
                0
            } else {
                p.token_balances[i].balance
            }
        },
    }
}

/// Credit `amount` to the custody balance of the given asset, creating the
/// asset's entry when none exists.
pub open spec fn spec_credit(p: PoolModel, mint: Option<Seq<u8>>, amount: nat) -> PoolModel {
    match mint {
        None => PoolModel { native_balance: p.native_balance + amount, ..p },
        Some(m) => {
            let i = mint_index(p.token_balances, m);
            if i < 0 {
                PoolModel {
                    token_balances: p.token_balances.push(
                        TokenEntry { mint: m, balance: amount },
                    ),
                    ..p
                }
            } else {
                PoolModel {
                    token_balances: p.token_balances.update(
                        i,
                        TokenEntry { mint: m, balance: p.token_balances[i].balance + amount },
                    ),
                    ..p
                }
            }
        },
    }
}

/// Debit `amount` from the custody balance of the given asset.
pub open spec fn spec_debit(p: PoolModel, mint: Option<Seq<u8>>, amount: nat) -> PoolModel
    recommends
        asset_balance(p, mint) >= amount,
{
    match mint {
        None => PoolModel { native_balance: (p.native_balance - amount) as nat, ..p },
        Some(m) => {
            let i = mint_index(p.token_balances, m);
            PoolModel {
                token_balances: p.token_balances.update(
                    i,
                    TokenEntry {
                        mint: m,
                        balance: (p.token_balances[i].balance - amount) as nat,
                    },
                ),
                ..p
            }
        },
    }
}

impl PoolModel {
    /// Validity of the whole pool: a well-formed accumulator, a duplicate-free
    /// nullifier registry, commitment records in strictly increasing leaf
    /// order below the leaf counter, bounded balances, and one custody entry
    /// per mint.
    pub open spec fn wf(self) -> bool {
        &&& self.config.fee_bps <= MAX_FEE_BPS
        &&& self.tree.wf()
        &&& forall|i: int, j: int|
            0 <= i < j < self.nullifiers.len() ==> #[trigger] self.nullifiers[i]
                != #[trigger] self.nullifiers[j]
        &&& forall|i: int, j: int|
            0 <= i < j < self.records.len() ==> (#[trigger] self.records[i]).index
                < (#[trigger] self.records[j]).index
        &&& forall|i: int|
            0 <= i < self.records.len() ==> (#[trigger] self.records[i]).index
                < self.tree.next_index
        &&& self.native_balance <= u64::MAX
        &&& forall|i: int|
            0 <= i < self.token_balances.len() ==> (#[trigger] self.token_balances[i]).balance
                <= u64::MAX
        &&& forall|i: int, j: int|
            0 <= i < j < self.token_balances.len() ==> (#[trigger] self.token_balances[i]).mint
                != (#[trigger] self.token_balances[j]).mint
    }
}

/// The all-zero 32-byte sequence.
pub open spec fn zero_seq32() -> Seq<u8> {
    Seq::new(32, |i: int| 0u8)
}

/// The pool created at bootstrap: the given authorities and fee ceiling, an
/// empty accumulator of height 20 with an all-zero root and history, and no
/// custody, records or spent nullifiers.
pub open spec fn initial_pool(
    admin: Seq<u8>,
    relayer: Seq<u8>,
    fee_recipient: Seq<u8>,
    fee_bps: nat,
) -> PoolModel {
    PoolModel {
        config: ConfigModel {
            admin: admin,
            relayer: relayer,
            fee_bps: fee_bps,
            fee_recipient: fee_recipient,
            verifier_program: zero_seq32(),
            paused: false,
        },
        tree: TreeModel {
            authority: relayer,
            next_index: 0,
            current_root: zero_seq32(),
            history: Seq::new(32, |i: int| zero_seq32()),
            cursor: 0,
            height: MERKLE_TREE_HEIGHT as nat,
        },
        nullifiers: Seq::empty(),
        records: Seq::empty(),
        native_balance: 0,
        token_balances: Seq::empty(),
    }
}

/// Bootstrap: rejects a fee ceiling above `MAX_FEE_BPS`, otherwise yields
/// the initial pool.
pub open spec fn spec_initialize(
    admin: Seq<u8>,
    relayer: Seq<u8>,
    fee_recipient: Seq<u8>,
    fee_bps: nat,
) -> Result<PoolModel, ZkPoolError> {
    if fee_bps > MAX_FEE_BPS as nat {
        Err(ZkPoolError::InvalidFeeConfig)
    } else {
        Ok(initial_pool(admin, relayer, fee_recipient, fee_bps))
    }
}

/// Deposit transition, shared by the native and fungible-asset variants.
///
/// Gates, in order: pause flag, non-zero amount, non-zero commitment,
/// accumulator capacity, and the caller-predicted leaf index matching the
/// counter; then the custody credit must not wrap a `u64`. On success the
/// custody is credited, a commitment record is created at the allocated
/// index, and the leaf counter advances by one. On any error the pool is
/// unchanged.
pub open spec fn spec_deposit(
    p: PoolModel,
    mint: Option<Seq<u8>>,
    commitment: Seq<u8>,
    amount: nat,
    leaf_index: nat,
) -> (PoolModel, Result<(), ZkPoolError>) {
    if p.config.paused {
        (p, Err(ZkPoolError::ProtocolPaused))
    } else if amount == 0 {
        (p, Err(ZkPoolError::InvalidAmount))
    } else if is_zero_bytes(commitment) {
        (p, Err(ZkPoolError::InvalidCommitment))
    } else if p.tree.is_full() {
        (p, Err(ZkPoolError::TreeFull))
    } else if leaf_index != p.tree.next_index {
        (p, Err(ZkPoolError::InvalidAmount))
    } else if asset_balance(p, mint) + amount > u64::MAX {
        (p, Err(ZkPoolError::Overflow))
    } else {
        let credited = spec_credit(p, mint, amount);
        let p2 = PoolModel {
            tree: TreeModel { next_index: p.tree.next_index + 1, ..p.tree },
            records: credited.records.push(
                RecordModel { index: leaf_index, commitment: commitment },
            ),
            ..credited
        };
        (p2, Ok(()))
    }
}

/// Root-rotation transition: relayer-only, blocked while paused. The current
/// root moves into the history slot under the cursor, the cursor advances,
/// and the new root becomes current.
pub open spec fn spec_update_root(p: PoolModel, caller: Seq<u8>, new_root: Seq<u8>) -> (
    PoolModel,
    Result<(), ZkPoolError>,
) {
    if caller != p.config.relayer {
        (p, Err(ZkPoolError::UnauthorizedRelayer))
    } else if p.config.paused {
        (p, Err(ZkPoolError::ProtocolPaused))
    } else {
        (PoolModel { tree: p.tree.rotate(new_root), ..p }, Ok(()))
    }
}

/// Withdraw transition, shared by the native and fungible-asset variants.
///
/// Gates, in order: relayer authorization, pause flag, non-zero amount, a
/// still-valid state root, an unspent nullifier, an `amount + fee` total
/// that fits a `u64`, custody sufficiency, and — only when a change output
/// is requested — accumulator capacity. On success the nullifier is
/// permanently registered, custody is debited by `amount + fee`, and a
/// change leaf is allocated when `new_commitment` is non-zero (no commitment
/// record is created for it, only the event). On any error the pool is
/// unchanged.
pub open spec fn spec_withdraw(
    p: PoolModel,
    caller: Seq<u8>,
    mint: Option<Seq<u8>>,
    inputs: WithdrawInputsModel,
    amount: nat,
    fee: nat,
) -> (PoolModel, Result<(), ZkPoolError>) {
    if caller != p.config.relayer {
        (p, Err(ZkPoolError::UnauthorizedRelayer))
    } else if p.config.paused {
        (p, Err(ZkPoolError::ProtocolPaused))
    } else if amount == 0 {
        (p, Err(ZkPoolError::InvalidAmount))
    } else if !p.tree.known_root(inputs.state_root) {
        (p, Err(ZkPoolError::InvalidStateRoot))
    } else if p.nullifiers.contains(inputs.nullifier_hash) {
        (p, Err(ZkPoolError::NullifierAlreadySpent))
    } else if amount + fee > u64::MAX {
        (p, Err(ZkPoolError::Overflow))
    } else if asset_balance(p, mint) < amount + fee {
        (p, Err(ZkPoolError::InsufficientBalance))
    } else if !is_zero_bytes(inputs.new_commitment) && p.tree.is_full() {
        (p, Err(ZkPoolError::TreeFull))
    } else {
        let spent = PoolModel { nullifiers: p.nullifiers.push(inputs.nullifier_hash), ..p };
        let debited = spec_debit(spent, mint, amount + fee);
        let p2 = if is_zero_bytes(inputs.new_commitment) {
            debited
        } else {
            PoolModel {
                tree: TreeModel { next_index: p.tree.next_index + 1, ..p.tree },
                ..debited
            }
        };
        (p2, Ok(()))
    }
}

impl Pool {
    /// Validity of the executable pool, stated over its model.
    pub open spec fn wf(&self) -> bool {
        self@.wf()
    }

    /// Find the custody entry for `mint`, if one exists; the returned index
    /// is the first (and, in a valid pool, only) match.
    fn find_mint(&self, mint: &[u8; 32]) -> (r: Option<usize>)
        ensures
            match r {
                Some(i) => {
                    &&& i < self.token_balances@.len()
                    &&& self@.token_balances[i as int].mint == mint@
                    &&& mint_index(self@.token_balances, mint@) == i as int
                },
                None => mint_index(self@.token_balances, mint@) < 0,
            },
    {
        proof {
            lemma_mint_index_props(self@.token_balances, mint@);
        }
        let n = self.token_balances.len();
        let mut i: usize = 0;
        while i < n
            invariant
                n == self.token_balances@.len(),
                i <= n,
                forall|j: int| 0 <= j < i ==> (#[trigger] self@.token_balances[j]).mint != mint@,
            decreases n - i,
        {
            if bytes32_eq(&self.token_balances[i].mint, mint) {
                proof {
                    lemma_mint_index_props(self@.token_balances, mint@);
                }
                return Some(i);
            }
            i += 1;
        }
        proof {
            lemma_mint_index_props(self@.token_balances, mint@);
        }
        None
    }

    /// Custody balance currently held for the given asset.
    pub fn asset_balance_of(&self, mint: &Option<[u8; 32]>) -> (b: u64)
        ensures
            b as nat == asset_balance(self@, mint_view(*mint)),
    {
        match mint {
            None => self.native_balance,
            Some(m) => {
                match self.find_mint(m) {
                    Some(i) => self.token_balances[i].balance,
                    None => 0,
                }
            },
        }
    }

    /// Credit `amount` to the custody balance of the given asset; fails
    /// `Overflow` when the balance would wrap a `u64`, changing nothing.
    fn credit(&mut self, mint: &Option<[u8; 32]>, amount: u64) -> (r: Result<(), ZkPoolError>)
        requires
            old(self).wf(),
        ensures
            final(self).wf(),
            match r {
                Ok(_) => {
                    &&& asset_balance(old(self)@, mint_view(*mint)) + amount <= u64::MAX
                    &&& final(self)@ == spec_credit(old(self)@, mint_view(*mint), amount as nat)
                },
                Err(e) => {
                    &&& e == ZkPoolError::Overflow
                    &&& asset_balance(old(self)@, mint_view(*mint)) + amount > u64::MAX
                    &&& final(self)@ == old(self)@
                },
            },
    {
        match mint {
            None => {
                match self.native_balance.checked_add(amount) {
                    Some(nb) => {
                        self.native_balance = nb;
                        proof {
                            assert(self@ =~= spec_credit(old(self)@, mint_view(*mint), amount as nat));
                        }
                        Ok(())
                    },
                    None => Err(ZkPoolError::Overflow),
                }
            },
            Some(m) => {
                match self.find_mint(m) {
                    Some(i) => {
                        let b = self.token_balances[i].balance;
                        match b.checked_add(amount) {
                            Some(nb) => {
                                self.token_balances.set(
                                    i,
                                    TokenBalance { mint: *m, balance: nb },
                                );
                                proof {
                                    assert(self@.token_balances =~= spec_credit(
                                        old(self)@,
                                        mint_view(*mint),
                                        amount as nat,
                                    ).token_balances);
                                    assert(self@ =~= spec_credit(
                                        old(self)@,
                                        mint_view(*mint),
                                        amount as nat,
                                    ));
                                }
                                Ok(())
                            },
                            None => Err(ZkPoolError::Overflow),
                        }
                    },
                    None => {
                        proof {
                            lemma_mint_index_props(old(self)@.token_balances, m@);
                        }
                        self.token_balances.push(TokenBalance { mint: *m, balance: amount });
                        proof {
                            assert(self@.token_balances =~= spec_credit(
                                old(self)@,
                                mint_view(*mint),
                                amount as nat,
                            ).token_balances);
                            assert(self@ =~= spec_credit(
                                old(self)@,
                                mint_view(*mint),
                                amount as nat,
                            ));
                        }
                        Ok(())
                    },
                }
            },
        }
    }

    /// Debit `amount` from the custody balance of the given asset; the
    /// caller must have checked sufficiency.
    fn debit(&mut self, mint: &Option<[u8; 32]>, amount: u64)
        requires
            old(self).wf(),
            amount > 0,
            asset_balance(old(self)@, mint_view(*mint)) >= amount,
        ensures
            final(self).wf(),
            final(self)@ == spec_debit(old(self)@, mint_view(*mint), amount as nat),
    {
        match mint {
            None => {
                self.native_balance = self.native_balance - amount;
                proof {
                    assert(self@ =~= spec_debit(old(self)@, mint_view(*mint), amount as nat));
                }
            },
            Some(m) => {
                match self.find_mint(m) {
                    Some(i) => {
                        let b = self.token_balances[i].balance;
                        self.token_balances.set(i, TokenBalance { mint: *m, balance: b - amount });
                        proof {
                            assert(self@.token_balances =~= spec_debit(
                                old(self)@,
                                mint_view(*mint),
                                amount as nat,
                            ).token_balances);
                            assert(self@ =~= spec_debit(old(self)@, mint_view(*mint), amount as nat));
                        }
                    },
                    None => vstd::pervasive::unreached(),
                }
            },
        }
    }

    /// True iff `hash` was consumed by an earlier withdrawal.
    pub fn is_nullifier_spent(&self, hash: &[u8; 32]) -> (r: bool)
        ensures
            r == self@.nullifiers.contains(hash@),
    {
        let n = self.nullifiers.len();
        let mut i: usize = 0;
        while i < n
            invariant
                n == self.nullifiers@.len(),
                i <= n,
                forall|j: int| 0 <= j < i ==> #[trigger] self@.nullifiers[j] != hash@,
            decreases n - i,
        {
            if bytes32_eq(&self.nullifiers[i].nullifier_hash, hash) {
                assert(self@.nullifiers[i as int] == hash@);
                return true;
            }
            i += 1;
        }
        assert(!self@.nullifiers.contains(hash@));
        false
    }
}

/// Create the pool: validates the fee ceiling (at most `MAX_FEE_BPS` basis
/// points), then creates the configuration and an empty accumulator of
/// height `MERKLE_TREE_HEIGHT` with an all-zero root, history and custody.
pub fn initialize(
    admin: [u8; 32],
    relayer: [u8; 32],
    fee_recipient: [u8; 32],
    fee_bps: u16,
) -> (r: Result<Pool, ZkPoolError>)
    ensures
        match r {
            Ok(p) => {
                &&& spec_initialize(admin@, relayer@, fee_recipient@, fee_bps as nat)
                    == Ok::<PoolModel, ZkPoolError>(p@)
                &&& p@.wf()
            },
            Err(e) => spec_initialize(admin@, relayer@, fee_recipient@, fee_bps as nat)
                == Err::<PoolModel, ZkPoolError>(e),
        },
{
    if fee_bps > MAX_FEE_BPS {
        return Err(ZkPoolError::InvalidFeeConfig);
    }
    let zero = zero_bytes32();
    let mut history: Vec<[u8; 32]> = Vec::new();
    let mut i: usize = 0;
    while i < ROOT_HISTORY_SIZE
        invariant
            i <= 32,
            history@.len() == i,
            forall|j: int| 0 <= j < i ==> #[trigger] history@[j]@ == zero_seq32(),
        decreases 32 - i,
    {
        history.push(zero_bytes32());
        proof {
            assert(history@[i as int]@ =~= zero_seq32());
        }
        i += 1;
    }
    let config = PoolConfig {
        admin,
        relayer,
        fee_bps,
        fee_recipient,
        verifier_program: zero,
        paused: false,
    };
    let tree = MerkleTree {
        authority: relayer,
        next_index: 0,
        current_root: zero_bytes32(),
        root_history: history,
        root_history_index: 0,
        height: MERKLE_TREE_HEIGHT,
    };
    let pool = Pool {
        config,
        tree,
        nullifiers: Vec::new(),
        commitments: Vec::new(),
        native_balance: 0,
        token_balances: Vec::new(),
    };
    proof {
        vstd::bits::lemma_u64_pow2_no_overflow(MERKLE_TREE_HEIGHT as nat);
        assert(pool@.config.verifier_program =~= zero_seq32());
        assert(pool@.tree.current_root =~= zero_seq32());
        assert(pool@.tree.history =~= Seq::new(32, |j: int| zero_seq32()));
        assert(pool@ =~= initial_pool(admin@, relayer@, fee_recipient@, fee_bps as nat));
    }
    Ok(pool)
}

/// Shared deposit path; `mint` selects the custody balance and tags the
/// event.
fn deposit_common(
    pool: &mut Pool,
    mint: Option<[u8; 32]>,
    commitment: [u8; 32],
    encrypted_output: Vec<u8>,
    amount: u64,
    leaf_index: u64,
) -> (r: Result<CommitmentInserted, ZkPoolError>)
    requires
        old(pool).wf(),
    ensures
        final(pool).wf(),
        ({
            let (p2, out) = spec_deposit(
                old(pool)@,
                mint_view(mint),
                commitment@,
                amount as nat,
                leaf_index as nat,
            );
            &&& final(pool)@ == p2
            &&& match r {
                Ok(ev) => {
                    &&& out == Ok::<(), ZkPoolError>(())
                    &&& ev.index == leaf_index
                    &&& ev.commitment@ == commitment@
                    &&& ev.encrypted_output@ == encrypted_output@
                    &&& ev.amount == amount
                    &&& mint_view(ev.mint) == mint_view(mint)
                },
                Err(e) => out == Err::<(), ZkPoolError>(e),
            }
        }),
{
    if pool.config.paused {
        return Err(ZkPoolError::ProtocolPaused);
    }
    if amount == 0 {
        return Err(ZkPoolError::InvalidAmount);
    }
    if bytes32_is_zero(&commitment) {
        return Err(ZkPoolError::InvalidCommitment);
    }
    if pool.tree.is_full() {
        return Err(ZkPoolError::TreeFull);
    }
    if leaf_index != pool.tree.next_index {
        return Err(ZkPoolError::InvalidAmount);
    }
    match pool.credit(&mint, amount) {
        Ok(_) => {},
        Err(e) => {
            return Err(e);
        },
    }
    proof {
        vstd::bits::lemma_u64_pow2_no_overflow(pool@.tree.height);
    }
    pool.tree.next_index = leaf_index + 1;
    pool.commitments.push(CommitmentRecord { index: leaf_index, commitment });
    proof {
        let (p2, out) = spec_deposit(
            old(pool)@,
            mint_view(mint),
            commitment@,
            amount as nat,
            leaf_index as nat,
        );
        assert(pool@.records =~= p2.records);
        assert(pool@.tree =~= p2.tree);
        assert(pool@ =~= p2);
        assert(pool@.wf());
    }
    Ok(CommitmentInserted { index: leaf_index, commitment, encrypted_output, amount, mint })
}

/// Deposit the native asset: transfers `amount` into pool custody, records
/// `commitment` at the predicted `leaf_index`, and advances the leaf
/// counter.
pub fn deposit_sol(
    pool: &mut Pool,
    commitment: [u8; 32],
    encrypted_output: Vec<u8>,
    amount: u64,
    leaf_index: u64,
) -> (r: Result<CommitmentInserted, ZkPoolError>)
    requires
        old(pool).wf(),
    ensures
        final(pool).wf(),
        ({
            let (p2, out) = spec_deposit(
                old(pool)@,
                None,
                commitment@,
                amount as nat,
                leaf_index as nat,
            );
            &&& final(pool)@ == p2
            &&& match r {
                Ok(ev) => {
                    &&& out == Ok::<(), ZkPoolError>(())
                    &&& ev.index == leaf_index
                    &&& ev.commitment@ == commitment@
                    &&& ev.encrypted_output@ == encrypted_output@
                    &&& ev.amount == amount
                    &&& ev.mint is None
                },
                Err(e) => out == Err::<(), ZkPoolError>(e),
            }
        }),
{
    let r = deposit_common(pool, None, commitment, encrypted_output, amount, leaf_index);
    proof {
        if r is Ok {
            let ev = r->Ok_0;
            assert(ev.mint is None) by {
                assert(mint_view(ev.mint) == mint_view(None::<[u8; 32]>));
            }
        }
    }
    r
}

/// Deposit a fungible asset: as `deposit_sol`, against the custody balance
/// of `mint`.
pub fn deposit_spl(
    pool: &mut Pool,
    mint: [u8; 32],
    commitment: [u8; 32],
    encrypted_output: Vec<u8>,
    amount: u64,
    leaf_index: u64,
) -> (r: Result<CommitmentInserted, ZkPoolError>)
    requires
        old(pool).wf(),
    ensures
        final(pool).wf(),
        ({
            let (p2, out) = spec_deposit(
                old(pool)@,
                Some(mint@),
                commitment@,
                amount as nat,
                leaf_index as nat,
            );
            &&& final(pool)@ == p2
            &&& match r {
                Ok(ev) => {
                    &&& out == Ok::<(), ZkPoolError>(())
                    &&& ev.index == leaf_index
                    &&& ev.commitment@ == commitment@
                    &&& ev.encrypted_output@ == encrypted_output@
                    &&& ev.amount == amount
                    &&& (ev.mint matches Some(m) && m@ == mint@)
                },
                Err(e) => out == Err::<(), ZkPoolError>(e),
            }
        }),
{
    deposit_common(pool, Some(mint), commitment, encrypted_output, amount, leaf_index)
}

/// Rotate the accumulator root: relayer-only, blocked while paused. The
/// previous current root joins the 32-slot history; the event carries the
/// cursor after the rotation.
pub fn update_root(pool: &mut Pool, caller: [u8; 32], new_root: [u8; 32]) -> (r: Result<
    RootUpdated,
    ZkPoolError,
>)
    requires
        old(pool).wf(),
    ensures
        final(pool).wf(),
        ({
            let (p2, out) = spec_update_root(old(pool)@, caller@, new_root@);
            &&& final(pool)@ == p2
            &&& match r {
                Ok(ev) => {
                    &&& out == Ok::<(), ZkPoolError>(())
                    &&& ev.new_root@ == new_root@
                    &&& ev.root_index as nat == p2.tree.cursor
                },
                Err(e) => out == Err::<(), ZkPoolError>(e),
            }
        }),
{
    if !bytes32_eq(&caller, &pool.config.relayer) {
        return Err(ZkPoolError::UnauthorizedRelayer);
    }
    if pool.config.paused {
        return Err(ZkPoolError::ProtocolPaused);
    }
    let idx = (pool.tree.root_history_index % 32) as usize;
    let old_root = pool.tree.current_root;
    pool.tree.set_root_history(idx, &old_root);
    pool.tree.root_history_index = pool.tree.root_history_index.wrapping_add(1);
    pool.tree.current_root = new_root;
    proof {
        let (p2, out) = spec_update_root(old(pool)@, caller@, new_root@);
        assert(pool@.tree =~= p2.tree);
        assert(pool@ =~= p2);
    }
    Ok(RootUpdated { new_root, root_index: pool.tree.root_history_index })
}

/// Shared withdraw path; `mint` selects the custody balance and tags the
/// event.
fn withdraw_common(
    pool: &mut Pool,
    caller: [u8; 32],
    mint: Option<[u8; 32]>,
    inputs: WithdrawInputs,
    recipient: [u8; 32],
    amount: u64,
    fee: u64,
) -> (r: Result<WithdrawalProcessed, ZkPoolError>)
    requires
        old(pool).wf(),
    ensures
        final(pool).wf(),
        ({
            let (p2, out) = spec_withdraw(
                old(pool)@,
                caller@,
                mint_view(mint),
                inputs@,
                amount as nat,
                fee as nat,
            );
            &&& final(pool)@ == p2
            &&& match r {
                Ok(ev) => {
                    &&& out == Ok::<(), ZkPoolError>(())
                    &&& ev.nullifier_hash@ == inputs@.nullifier_hash
                    &&& ev.recipient@ == recipient@
                    &&& ev.amount == amount
                    &&& ev.fee == fee
                    &&& mint_view(ev.mint) == mint_view(mint)
                    &&& (if is_zero_bytes(inputs@.new_commitment) {
                        ev.new_commitment is None && ev.new_index is None
                    } else {
                        &&& (ev.new_commitment matches Some(c) && c@ == inputs@.new_commitment)
                        &&& (ev.new_index matches Some(ix) && ix as nat
                            == old(pool)@.tree.next_index)
                    })
                },
                Err(e) => out == Err::<(), ZkPoolError>(e),
            }
        }),
{
    if !bytes32_eq(&caller, &pool.config.relayer) {
        return Err(ZkPoolError::UnauthorizedRelayer);
    }
    if pool.config.paused {
        return Err(ZkPoolError::ProtocolPaused);
    }
    if amount == 0 {
        return Err(ZkPoolError::InvalidAmount);
    }
    if !pool.tree.is_known_root(&inputs.state_root) {
        return Err(ZkPoolError::InvalidStateRoot);
    }
    if pool.is_nullifier_spent(&inputs.nullifier_hash) {
        return Err(ZkPoolError::NullifierAlreadySpent);
    }
    let total = match amount.checked_add(fee) {
        Some(t) => t,
        None => {
            return Err(ZkPoolError::Overflow);
        },
    };
    let bal = pool.asset_balance_of(&mint);
    if bal < total {
        return Err(ZkPoolError::InsufficientBalance);
    }
    let has_change = !bytes32_is_zero(&inputs.new_commitment);
    if has_change && pool.tree.is_full() {
        return Err(ZkPoolError::TreeFull);
    }
    pool.nullifiers.push(NullifierAccount { nullifier_hash: inputs.nullifier_hash });
    let ghost spent = pool@;
    proof {
        assert(spent.nullifiers =~= old(pool)@.nullifiers.push(inputs@.nullifier_hash));
        assert(spent =~= (PoolModel {
            nullifiers: old(pool)@.nullifiers.push(inputs@.nullifier_hash),
            ..old(pool)@
        }));
        assert(spent.wf());
        assert(asset_balance(spent, mint_view(mint)) == asset_balance(old(pool)@, mint_view(mint)));
    }
    pool.debit(&mint, total);
    let new_index_opt: Option<u64> = if has_change {
        match pool.tree.allocate_leaf(&inputs.new_commitment) {
            Ok(ix) => Some(ix),
            Err(e) => {
                return Err(e);
            },
        }
    } else {
        None
    };
    proof {
        let (p2, out) = spec_withdraw(
            old(pool)@,
            caller@,
            mint_view(mint),
            inputs@,
            amount as nat,
            fee as nat,
        );
        assert(pool@ =~= p2);
        assert(pool@.wf());
    }
    Ok(WithdrawalProcessed {
        nullifier_hash: inputs.nullifier_hash,
        recipient,
        amount,
        fee,
        mint,
        new_commitment: if has_change {
            Some(inputs.new_commitment)
        } else {
            None
        },
        new_index: new_index_opt,
    })
}

/// Withdraw the native asset: consumes the nullifier, pays `amount` to the
/// recipient and `fee` to the fee recipient out of pool custody, and
/// allocates a change leaf when `new_commitment` is non-zero.
pub fn withdraw_sol(
    pool: &mut Pool,
    caller: [u8; 32],
    inputs: WithdrawInputs,
    recipient: [u8; 32],
    amount: u64,
    fee: u64,
) -> (r: Result<WithdrawalProcessed, ZkPoolError>)
    requires
        old(pool).wf(),
    ensures
        final(pool).wf(),
        ({
            let (p2, out) = spec_withdraw(
                old(pool)@,
                caller@,
                None,
                inputs@,
                amount as nat,
                fee as nat,
            );
            &&& final(pool)@ == p2
            &&& match r {
                Ok(ev) => {
                    &&& out == Ok::<(), ZkPoolError>(())
                    &&& ev.nullifier_hash@ == inputs@.nullifier_hash
                    &&& ev.recipient@ == recipient@
                    &&& ev.amount == amount
                    &&& ev.fee == fee
                    &&& ev.mint is None
                    &&& (if is_zero_bytes(inputs@.new_commitment) {
                        ev.new_commitment is None && ev.new_index is None
                    } else {
                        &&& (ev.new_commitment matches Some(c) && c@ == inputs@.new_commitment)
                        &&& (ev.new_index matches Some(ix) && ix as nat
                            == old(pool)@.tree.next_index)
                    })
                },
                Err(e) => out == Err::<(), ZkPoolError>(e),
            }
        }),
{
    let r = withdraw_common(pool, caller, None, inputs, recipient, amount, fee);
    proof {
        if r is Ok {
            let ev = r->Ok_0;
            assert(ev.mint is None) by {
                assert(mint_view(ev.mint) == mint_view(None::<[u8; 32]>));
            }
        }
    }
    r
}

/// Withdraw a fungible asset: as `withdraw_sol`, against the custody
/// balance of `mint`.
pub fn withdraw_spl(
    pool: &mut Pool,
    caller: [u8; 32],
    mint: [u8; 32],
    inputs: WithdrawInputs,
    recipient: [u8; 32],
    amount: u64,
    fee: u64,
) -> (r: Result<WithdrawalProcessed, ZkPoolError>)
    requires
        old(pool).wf(),
    ensures
        final(pool).wf(),
        ({
            let (p2, out) = spec_withdraw(
                old(pool)@,
                caller@,
                Some(mint@),
                inputs@,
                amount as nat,
                fee as nat,
            );
            &&& final(pool)@ == p2
            &&& match r {
                Ok(ev) => {
                    &&& out == Ok::<(), ZkPoolError>(())
                    &&& ev.nullifier_hash@ == inputs@.nullifier_hash
                    &&& ev.recipient@ == recipient@
                    &&& ev.amount == amount
                    &&& ev.fee == fee
                    &&& (ev.mint matches Some(m) && m@ == mint@)
                    &&& (if is_zero_bytes(inputs@.new_commitment) {
                        ev.new_commitment is None && ev.new_index is None
                    } else {
                        &&& (ev.new_commitment matches Some(c) && c@ == inputs@.new_commitment)
                        &&& (ev.new_index matches Some(ix) && ix as nat
                            == old(pool)@.tree.next_index)
                    })
                },
                Err(e) => out == Err::<(), ZkPoolError>(e),
            }
        }),
{
    withdraw_common(pool, caller, Some(mint), inputs, recipient, amount, fee)
}

} // verus!
