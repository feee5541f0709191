//! Per-user vault bookkeeping with an off-chain strategy list.
//!
//! This is the simpler ledger that sits beside the shielded pool: each vault
//! tracks a direct balance, an amount routed through the privacy pool, a
//! placeholder list of off-chain strategy ids, and a status. Authorization
//! that the execution environment enforces by account addressing (a vault is
//! only reachable by its owner) is expressed here by possession of the
//! vault; the admin and executor authorities, which the original checks
//! explicitly, are checked explicitly against a caller key. Functions that
//! read the clock take the current timestamp as an argument.

use vstd::prelude::*;

verus! {

/// Maximum number of strategy ids one vault may hold.
pub const MAX_STRATEGIES_PER_VAULT: usize = 10;

/// Seconds a pending private withdrawal stays completable.
pub const WITHDRAWAL_TIMEOUT_SECONDS: i64 = 3600;

/// Maximum fee in basis points (10%).
pub const VAULT_MAX_FEE_BPS: u16 = 1000;

/// Reason a vault operation was rejected.
#[derive(Clone, Copy, Debug, PartialEq, Eq, Structural)]
pub enum SiphonError {
    /// The protocol-wide pause flag is set.
    ProtocolPaused,
    /// The caller is not the configured admin.
    UnauthorizedAdmin,
    /// The caller is not the configured executor.
    UnauthorizedExecutor,
    /// The caller is not the vault owner.
    UnauthorizedOwner,
    /// The vault is not in the active status.
    VaultNotActive,
    /// The vault already has a pending private withdrawal.
    WithdrawalAlreadyPending,
    /// No pending private withdrawal exists for the vault.
    NoPendingWithdrawal,
    /// The pending private withdrawal has expired.
    WithdrawalExpired,
    /// The vault balance cannot cover the requested amount.
    InsufficientBalance,
    /// The tracked privacy-pool amount cannot cover the requested amount.
    InsufficientPrivacyPoolBalance,
    /// A zero amount.
    InvalidAmount,
    /// The vault already holds the maximum number of strategies.
    MaxStrategiesReached,
    /// No strategy with the given id is attached to the vault.
    StrategyNotFound,
    /// A compliance check failed.
    ComplianceFailed,
    /// The fee exceeds the allowed maximum.
    InvalidFeeConfig,
    /// An amount computation would wrap.
    Overflow,
    /// The vault is frozen.
    VaultFrozen,
}

/// Global configuration of the vault protocol.
pub struct SiphonConfig {
    /// Admin authority: may update the configuration and pause.
    pub admin: [u8; 32],
    /// Executor authority: may execute strategies and complete private
    /// withdrawals.
    pub executor: [u8; 32],
    /// Fee in basis points.
    pub fee_bps: u16,
    /// Account that collects fees.
    pub treasury: [u8; 32],
    /// Protocol status: running or paused.
    pub paused: bool,
}

/// Status of a user's vault.
#[derive(Clone, Copy, Debug, PartialEq, Eq, Structural)]
pub enum VaultStatus {
    /// The vault accepts deposits and withdrawals.
    Active,
    /// The vault has a pending private withdrawal.
    PendingPrivateWithdrawal,
    /// The vault is frozen, e.g. for a compliance issue.
    Frozen,
}

impl Default for VaultStatus {
    /// A vault starts active.
    fn default() -> (r: Self)
        ensures
            r == VaultStatus::Active,
    {
        VaultStatus::Active
    }
}

/// A user's vault for one asset.
pub struct SiphonVault {
    /// Owner key.
    pub owner: [u8; 32],
    /// Asset mint this vault holds.
    pub asset_mint: [u8; 32],
    /// Direct vault balance (not private).
    pub amount: u64,
    /// Amount routed into the privacy pool (tracked, not stored here).
    pub privacy_pool_amount: u64,
    /// Off-chain strategy ids attached to this vault.
    pub strategies: Vec<u64>,
    /// Vault status.
    pub status: VaultStatus,
    /// Timestamp the vault was created at.
    pub created_at: i64,
}

/// A pending private withdrawal: created at initiation, closed at
/// completion.
pub struct PendingWithdrawal {
    /// Withdrawal amount.
    pub amount: u64,
    /// Recipient of the withdrawal.
    pub recipient: [u8; 32],
    /// Timestamp the withdrawal was initiated at.
    pub initiated_at: i64,
    /// Deadline by which the withdrawal must complete.
    pub expires_at: i64,
}

/// Index of the first occurrence of `x` in `s`, or `-1` when absent.
pub open spec fn first_index_of(s: Seq<u64>, x: u64) -> int
    decreases s.len(),
{
    if s.len() == 0 {
        -1
    } else if s[0] == x {
        0
    } else {
        let r = first_index_of(s.drop_first(), x);
        if r < 0 {
            -1
        } else {
            r + 1
        }
    }
}

/// `first_index_of` finds the first occurrence, and only fails when the
/// value is absent.
pub proof fn lemma_first_index_of_props(s: Seq<u64>, x: u64)
    ensures
        first_index_of(s, x) < 0 <==> (forall|j: int| 0 <= j < s.len() ==> s[j] != x),
        first_index_of(s, x) >= 0 ==> {
            &&& first_index_of(s, x) < s.len()
            &&& s[first_index_of(s, x)] == x
            &&& forall|j: int| 0 <= j < first_index_of(s, x) ==> s[j] != x
        },
    decreases s.len(),
{
    if s.len() > 0 && s[0] != x {
        lemma_first_index_of_props(s.drop_first(), x);
        assert(forall|j: int| 1 <= j < s.len() ==> s[j] == s.drop_first()[j - 1]);
    }
}

/// Create the protocol configuration; rejects a fee above
/// `VAULT_MAX_FEE_BPS`.
pub fn initialize(admin: [u8; 32], executor: [u8; 32], treasury: [u8; 32], fee_bps: u16) -> (r:
    Result<SiphonConfig, SiphonError>)
    ensures
        match r {
            Ok(c) => {
                &&& fee_bps <= VAULT_MAX_FEE_BPS
                &&& c == (SiphonConfig { admin, executor, fee_bps, treasury, paused: false })
            },
            Err(e) => fee_bps > VAULT_MAX_FEE_BPS && e == SiphonError::InvalidFeeConfig,
        },
{
    if fee_bps > VAULT_MAX_FEE_BPS {
        return Err(SiphonError::InvalidFeeConfig);
    }
    Ok(SiphonConfig { admin, executor, fee_bps, treasury, paused: false })
}

/// Point the executor authority at a new key; admin only.
pub fn update_executor(config: &mut SiphonConfig, caller: &[u8; 32], new_executor: [u8; 32]) -> (r:
    Result<(), SiphonError>)
    ensures
        match r {
            Ok(_) => caller@ == old(config).admin@ && *final(config) == (SiphonConfig {
                executor: new_executor,
                ..*old(config)
            }),
            Err(e) => {
                &&& caller@ != old(config).admin@
                &&& e == SiphonError::UnauthorizedAdmin
                &&& *final(config) == *old(config)
            },
        },
{
    if !crate::state::bytes32_eq(caller, &config.admin) {
        return Err(SiphonError::UnauthorizedAdmin);
    }
    config.executor = new_executor;
    Ok(())
}

/// Point the treasury at a new account; admin only.
pub fn update_treasury(config: &mut SiphonConfig, caller: &[u8; 32], new_treasury: [u8; 32]) -> (r:
    Result<(), SiphonError>)
    ensures
        match r {
            Ok(_) => caller@ == old(config).admin@ && *final(config) == (SiphonConfig {
                treasury: new_treasury,
                ..*old(config)
            }),
            Err(e) => {
                &&& caller@ != old(config).admin@
                &&& e == SiphonError::UnauthorizedAdmin
                &&& *final(config) == *old(config)
            },
        },
{
    if !crate::state::bytes32_eq(caller, &config.admin) {
        return Err(SiphonError::UnauthorizedAdmin);
    }
    config.treasury = new_treasury;
    Ok(())
}

/// Change the fee; admin only, at most `VAULT_MAX_FEE_BPS`.
pub fn update_fee(config: &mut SiphonConfig, caller: &[u8; 32], new_fee_bps: u16) -> (r: Result<
    (),
    SiphonError,
>)
    ensures
        match r {
            Ok(_) => {
                &&& caller@ == old(config).admin@
                &&& new_fee_bps <= VAULT_MAX_FEE_BPS
                &&& *final(config) == (SiphonConfig { fee_bps: new_fee_bps, ..*old(config) })
            },
            Err(e) => {
                &&& *final(config) == *old(config)
                &&& (if caller@ != old(config).admin@ {
                    e == SiphonError::UnauthorizedAdmin
                } else {
                    new_fee_bps > VAULT_MAX_FEE_BPS && e == SiphonError::InvalidFeeConfig
                })
            },
        },
{
    if !crate::state::bytes32_eq(caller, &config.admin) {
        return Err(SiphonError::UnauthorizedAdmin);
    }
    if new_fee_bps > VAULT_MAX_FEE_BPS {
        return Err(SiphonError::InvalidFeeConfig);
    }
    config.fee_bps = new_fee_bps;
    Ok(())
}

/// Set the pause flag; admin only.
pub fn pause_protocol(config: &mut SiphonConfig, caller: &[u8; 32]) -> (r: Result<(), SiphonError>)
    ensures
        match r {
            Ok(_) => caller@ == old(config).admin@ && *final(config) == (SiphonConfig {
                paused: true,
                ..*old(config)
            }),
            Err(e) => {
                &&& caller@ != old(config).admin@
                &&& e == SiphonError::UnauthorizedAdmin
                &&& *final(config) == *old(config)
            },
        },
{
    if !crate::state::bytes32_eq(caller, &config.admin) {
        return Err(SiphonError::UnauthorizedAdmin);
    }
    config.paused = true;
    Ok(())
}

/// Clear the pause flag; admin only.
pub fn unpause_protocol(config: &mut SiphonConfig, caller: &[u8; 32]) -> (r: Result<
    (),
    SiphonError,
>)
    ensures
        match r {
            Ok(_) => caller@ == old(config).admin@ && *final(config) == (SiphonConfig {
                paused: false,
                ..*old(config)
            }),
            Err(e) => {
                &&& caller@ != old(config).admin@
                &&& e == SiphonError::UnauthorizedAdmin
                &&& *final(config) == *old(config)
            },
        },
{
    if !crate::state::bytes32_eq(caller, &config.admin) {
        return Err(SiphonError::UnauthorizedAdmin);
    }
    config.paused = false;
    Ok(())
}

/// Hand the admin authority to a new key; admin only.
pub fn transfer_admin(config: &mut SiphonConfig, caller: &[u8; 32], new_admin: [u8; 32]) -> (r:
    Result<(), SiphonError>)
    ensures
        match r {
            Ok(_) => caller@ == old(config).admin@ && *final(config) == (SiphonConfig {
                admin: new_admin,
                ..*old(config)
            }),
            Err(e) => {
                &&& caller@ != old(config).admin@
                &&& e == SiphonError::UnauthorizedAdmin
                &&& *final(config) == *old(config)
            },
        },
{
    if !crate::state::bytes32_eq(caller, &config.admin) {
        return Err(SiphonError::UnauthorizedAdmin);
    }
    config.admin = new_admin;
    Ok(())
}

/// Freeze a vault, e.g. for a compliance issue; admin only.
pub fn freeze_vault(config: &SiphonConfig, vault: &mut SiphonVault, caller: &[u8; 32]) -> (r:
    Result<(), SiphonError>)
    ensures
        match r {
            Ok(_) => {
                &&& caller@ == config.admin@
                &&& final(vault).status == VaultStatus::Frozen
                &&& final(vault).owner == old(vault).owner
                &&& final(vault).asset_mint == old(vault).asset_mint
                &&& final(vault).amount == old(vault).amount
                &&& final(vault).privacy_pool_amount == old(vault).privacy_pool_amount
                &&& final(vault).strategies@ == old(vault).strategies@
                &&& final(vault).created_at == old(vault).created_at
            },
            Err(e) => {
                &&& caller@ != config.admin@
                &&& e == SiphonError::UnauthorizedAdmin
                &&& *final(vault) == *old(vault)
            },
        },
{
    if !crate::state::bytes32_eq(caller, &config.admin) {
        return Err(SiphonError::UnauthorizedAdmin);
    }
    vault.status = VaultStatus::Frozen;
    Ok(())
}

/// Unfreeze a vault back to active; admin only.
pub fn unfreeze_vault(config: &SiphonConfig, vault: &mut SiphonVault, caller: &[u8; 32]) -> (r:
    Result<(), SiphonError>)
    ensures
        match r {
            Ok(_) => {
                &&& caller@ == config.admin@
                &&& final(vault).status == VaultStatus::Active
                &&& final(vault).owner == old(vault).owner
                &&& final(vault).asset_mint == old(vault).asset_mint
                &&& final(vault).amount == old(vault).amount
                &&& final(vault).privacy_pool_amount == old(vault).privacy_pool_amount
                &&& final(vault).strategies@ == old(vault).strategies@
                &&& final(vault).created_at == old(vault).created_at
            },
            Err(e) => {
                &&& caller@ != config.admin@
                &&& e == SiphonError::UnauthorizedAdmin
                &&& *final(vault) == *old(vault)
            },
        },
{
    if !crate::state::bytes32_eq(caller, &config.admin) {
        return Err(SiphonError::UnauthorizedAdmin);
    }
    vault.status = VaultStatus::Active;
    Ok(())
}

/// Create an empty, active vault for `owner` and `asset_mint`; blocked
/// while paused. `now` is the creation timestamp.
pub fn create_vault(config: &SiphonConfig, owner: [u8; 32], asset_mint: [u8; 32], now: i64) -> (r:
    Result<SiphonVault, SiphonError>)
    ensures
        match r {
            Ok(v) => {
                &&& !config.paused
                &&& v.owner == owner
                &&& v.asset_mint == asset_mint
                &&& v.amount == 0
                &&& v.privacy_pool_amount == 0
                &&& v.strategies@ == Seq::<u64>::empty()
                &&& v.status == VaultStatus::Active
                &&& v.created_at == now
            },
            Err(e) => config.paused && e == SiphonError::ProtocolPaused,
        },
{
    if config.paused {
        return Err(SiphonError::ProtocolPaused);
    }
    let vault = SiphonVault {
        owner,
        asset_mint,
        amount: 0,
        privacy_pool_amount: 0,
        strategies: Vec::new(),
        status: VaultStatus::Active,
        created_at: now,
    };
    proof {
        assert(vault.strategies@ =~= Seq::<u64>::empty());
    }
    Ok(vault)
}

/// Deposit `amount` into the vault's direct balance. Gates, in order: pause
/// flag, non-zero amount, active status; then the credit must not wrap.
pub fn deposit(config: &SiphonConfig, vault: &mut SiphonVault, amount: u64) -> (r: Result<
    (),
    SiphonError,
>)
    ensures
        match r {
            Ok(_) => {
                &&& !config.paused
                &&& amount > 0
                &&& old(vault).status == VaultStatus::Active
                &&& old(vault).amount + amount <= u64::MAX
                &&& final(vault).amount == old(vault).amount + amount
                &&& final(vault).owner == old(vault).owner
                &&& final(vault).asset_mint == old(vault).asset_mint
                &&& final(vault).privacy_pool_amount == old(vault).privacy_pool_amount
                &&& final(vault).strategies@ == old(vault).strategies@
                &&& final(vault).status == old(vault).status
                &&& final(vault).created_at == old(vault).created_at
            },
            Err(e) => {
                &&& *final(vault) == *old(vault)
                &&& (if config.paused {
                    e == SiphonError::ProtocolPaused
                } else if amount == 0 {
                    e == SiphonError::InvalidAmount
                } else if old(vault).status != VaultStatus::Active {
                    e == SiphonError::VaultNotActive
                } else {
                    old(vault).amount + amount > u64::MAX && e == SiphonError::Overflow
                })
            },
        },
{
    if config.paused {
        return Err(SiphonError::ProtocolPaused);
    }
    if amount == 0 {
        return Err(SiphonError::InvalidAmount);
    }
    if vault.status != VaultStatus::Active {
        return Err(SiphonError::VaultNotActive);
    }
    match vault.amount.checked_add(amount) {
        Some(nb) => {
            vault.amount = nb;
            Ok(())
        },
        None => Err(SiphonError::Overflow),
    }
}

/// Withdraw `amount` from the vault's direct balance. Gates, in order:
/// pause flag, non-zero amount, active status, balance sufficiency.
pub fn withdraw_direct(config: &SiphonConfig, vault: &mut SiphonVault, amount: u64) -> (r: Result<
    (),
    SiphonError,
>)
    ensures
        match r {
            Ok(_) => {
                &&& !config.paused
                &&& amount > 0
                &&& old(vault).status == VaultStatus::Active
                &&& old(vault).amount >= amount
                &&& final(vault).amount == old(vault).amount - amount
                &&& final(vault).owner == old(vault).owner
                &&& final(vault).asset_mint == old(vault).asset_mint
                &&& final(vault).privacy_pool_amount == old(vault).privacy_pool_amount
                &&& final(vault).strategies@ == old(vault).strategies@
                &&& final(vault).status == old(vault).status
                &&& final(vault).created_at == old(vault).created_at
            },
            Err(e) => {
                &&& *final(vault) == *old(vault)
                &&& (if config.paused {
                    e == SiphonError::ProtocolPaused
                } else if amount == 0 {
                    e == SiphonError::InvalidAmount
                } else if old(vault).status != VaultStatus::Active {
                    e == SiphonError::VaultNotActive
                } else {
                    old(vault).amount < amount && e == SiphonError::InsufficientBalance
                })
            },
        },
{
    if config.paused {
        return Err(SiphonError::ProtocolPaused);
    }
    if amount == 0 {
        return Err(SiphonError::InvalidAmount);
    }
    if vault.status != VaultStatus::Active {
        return Err(SiphonError::VaultNotActive);
    }
    if vault.amount < amount {
        return Err(SiphonError::InsufficientBalance);
    }
    vault.amount = vault.amount - amount;
    Ok(())
}

/// Attach an off-chain strategy id to the vault; at most
/// `MAX_STRATEGIES_PER_VAULT` may be attached.
pub fn create_strategy(config: &SiphonConfig, vault: &mut SiphonVault, strategy_id: u64) -> (r:
    Result<(), SiphonError>)
    ensures
        match r {
            Ok(_) => {
                &&& !config.paused
                &&& old(vault).status == VaultStatus::Active
                &&& old(vault).strategies@.len() < MAX_STRATEGIES_PER_VAULT
                &&& final(vault).strategies@ == old(vault).strategies@.push(strategy_id)
                &&& final(vault).owner == old(vault).owner
                &&& final(vault).asset_mint == old(vault).asset_mint
                &&& final(vault).amount == old(vault).amount
                &&& final(vault).privacy_pool_amount == old(vault).privacy_pool_amount
                &&& final(vault).status == old(vault).status
                &&& final(vault).created_at == old(vault).created_at
            },
            Err(e) => {
                &&& *final(vault) == *old(vault)
                &&& (if config.paused {
                    e == SiphonError::ProtocolPaused
                } else if old(vault).status != VaultStatus::Active {
                    e == SiphonError::VaultNotActive
                } else {
                    &&& old(vault).strategies@.len() >= MAX_STRATEGIES_PER_VAULT
                    &&& e == SiphonError::MaxStrategiesReached
                })
            },
        },
{
    if config.paused {
        return Err(SiphonError::ProtocolPaused);
    }
    if vault.status != VaultStatus::Active {
        return Err(SiphonError::VaultNotActive);
    }
    if vault.strategies.len() >= MAX_STRATEGIES_PER_VAULT {
        return Err(SiphonError::MaxStrategiesReached);
    }
    vault.strategies.push(strategy_id);
    Ok(())
}

/// True iff the vault has a strategy with the given id.
pub fn has_strategy(vault: &SiphonVault, strategy_id: u64) -> (r: bool)
    ensures
        r == vault.strategies@.contains(strategy_id),
{
    let n = vault.strategies.len();
    let mut i: usize = 0;
    while i < n
        invariant
            n == vault.strategies@.len(),
            i <= n,
            forall|j: int| 0 <= j < i ==> vault.strategies@[j] != strategy_id,
        decreases n - i,
    {
        if vault.strategies[i] == strategy_id {
            assert(vault.strategies@[i as int] == strategy_id);
            return true;
        }
        i += 1;
    }
    assert(!vault.strategies@.contains(strategy_id));
    false
}

/// Clear a strategy for execution: executor only, on an active vault, and
/// the strategy must be attached. Decides only; the vault is unchanged (the
/// trade itself happens elsewhere, after this check passes).
pub fn execute_strategy(
    config: &SiphonConfig,
    vault: &SiphonVault,
    caller: &[u8; 32],
    strategy_id: u64,
) -> (r: Result<(), SiphonError>)
    ensures
        match r {
            Ok(_) => {
                &&& caller@ == config.executor@
                &&& !config.paused
                &&& vault.status == VaultStatus::Active
                &&& vault.strategies@.contains(strategy_id)
            },
            Err(e) => {
                if caller@ != config.executor@ {
                    e == SiphonError::UnauthorizedExecutor
                } else if config.paused {
                    e == SiphonError::ProtocolPaused
                } else if vault.status != VaultStatus::Active {
                    e == SiphonError::VaultNotActive
                } else {
                    &&& !vault.strategies@.contains(strategy_id)
                    &&& e == SiphonError::StrategyNotFound
                }
            },
        },
{
    if !crate::state::bytes32_eq(caller, &config.executor) {
        return Err(SiphonError::UnauthorizedExecutor);
    }
    if config.paused {
        return Err(SiphonError::ProtocolPaused);
    }
    if vault.status != VaultStatus::Active {
        return Err(SiphonError::VaultNotActive);
    }
    if !has_strategy(vault, strategy_id) {
        return Err(SiphonError::StrategyNotFound);
    }
    Ok(())
}

/// Detach the first occurrence of a strategy id from the vault.
pub fn remove_strategy(config: &SiphonConfig, vault: &mut SiphonVault, strategy_id: u64) -> (r:
    Result<(), SiphonError>)
    ensures
        match r {
            Ok(_) => {
                &&& !config.paused
                &&& first_index_of(old(vault).strategies@, strategy_id) >= 0
                &&& final(vault).strategies@ == old(vault).strategies@.remove(
                    first_index_of(old(vault).strategies@, strategy_id),
                )
                &&& final(vault).owner == old(vault).owner
                &&& final(vault).asset_mint == old(vault).asset_mint
                &&& final(vault).amount == old(vault).amount
                &&& final(vault).privacy_pool_amount == old(vault).privacy_pool_amount
                &&& final(vault).status == old(vault).status
                &&& final(vault).created_at == old(vault).created_at
            },
            Err(e) => {
                &&& *final(vault) == *old(vault)
                &&& (if config.paused {
                    e == SiphonError::ProtocolPaused
                } else {
                    &&& !old(vault).strategies@.contains(strategy_id)
                    &&& e == SiphonError::StrategyNotFound
                })
            },
        },
{
    if config.paused {
        return Err(SiphonError::ProtocolPaused);
    }
    proof {
        lemma_first_index_of_props(vault.strategies@, strategy_id);
    }
    let n = vault.strategies.len();
    let mut i: usize = 0;
    while i < n
        invariant
            !config.paused,
            *vault == *old(vault),
            n == vault.strategies@.len(),
            i <= n,
            forall|j: int| 0 <= j < i ==> vault.strategies@[j] != strategy_id,
        decreases n - i,
    {
        if vault.strategies[i] == strategy_id {
            proof {
                lemma_first_index_of_props(vault.strategies@, strategy_id);
                assert(first_index_of(vault.strategies@, strategy_id) == i as int);
            }
            vault.strategies.remove(i);
            return Ok(());
        }
        i += 1;
    }
    proof {
        lemma_first_index_of_props(vault.strategies@, strategy_id);
        assert(!vault.strategies@.contains(strategy_id));
    }
    Err(SiphonError::StrategyNotFound)
}

/// Move `amount` from the vault's direct balance into the privacy-pool
/// tracker and record a pending private withdrawal that expires
/// `WITHDRAWAL_TIMEOUT_SECONDS` after `now`.
pub fn initiate_private_withdrawal(
    config: &SiphonConfig,
    vault: &mut SiphonVault,
    amount: u64,
    recipient: [u8; 32],
    now: i64,
) -> (r: Result<PendingWithdrawal, SiphonError>)
    requires
        now <= i64::MAX - WITHDRAWAL_TIMEOUT_SECONDS,
    ensures
        match r {
            Ok(pending) => {
                &&& !config.paused
                &&& amount > 0
                &&& old(vault).status == VaultStatus::Active
                &&& old(vault).amount >= amount
                &&& old(vault).privacy_pool_amount + amount <= u64::MAX
                &&& final(vault).amount == old(vault).amount - amount
                &&& final(vault).privacy_pool_amount == old(vault).privacy_pool_amount + amount
                &&& final(vault).status == VaultStatus::PendingPrivateWithdrawal
                &&& final(vault).owner == old(vault).owner
                &&& final(vault).asset_mint == old(vault).asset_mint
                &&& final(vault).strategies@ == old(vault).strategies@
                &&& final(vault).created_at == old(vault).created_at
                &&& pending.amount == amount
                &&& pending.recipient == recipient
                &&& pending.initiated_at == now
                &&& pending.expires_at == now + WITHDRAWAL_TIMEOUT_SECONDS
            },
            Err(e) => {
                &&& *final(vault) == *old(vault)
                &&& (if config.paused {
                    e == SiphonError::ProtocolPaused
                } else if amount == 0 {
                    e == SiphonError::InvalidAmount
                } else if old(vault).status != VaultStatus::Active {
                    e == SiphonError::VaultNotActive
                } else if old(vault).amount < amount {
                    e == SiphonError::InsufficientBalance
                } else {
                    &&& old(vault).privacy_pool_amount + amount > u64::MAX
                    &&& e == SiphonError::Overflow
                })
            },
        },
{
    if config.paused {
        return Err(SiphonError::ProtocolPaused);
    }
    if amount == 0 {
        return Err(SiphonError::InvalidAmount);
    }
    if vault.status != VaultStatus::Active {
        return Err(SiphonError::VaultNotActive);
    }
    if vault.amount < amount {
        return Err(SiphonError::InsufficientBalance);
    }
    let new_pool_amount = match vault.privacy_pool_amount.checked_add(amount) {
        Some(v) => v,
        None => {
            return Err(SiphonError::Overflow);
        },
    };
    vault.amount = vault.amount - amount;
    vault.privacy_pool_amount = new_pool_amount;
    vault.status = VaultStatus::PendingPrivateWithdrawal;
    Ok(PendingWithdrawal {
        amount,
        recipient,
        initiated_at: now,
        expires_at: now + WITHDRAWAL_TIMEOUT_SECONDS,
    })
}

/// Complete a pending private withdrawal: executor only, before the
/// deadline. The tracked privacy-pool amount is released and the vault
/// returns to active; the pending record is consumed.
pub fn complete_private_withdrawal(
    config: &SiphonConfig,
    vault: &mut SiphonVault,
    pending: PendingWithdrawal,
    caller: &[u8; 32],
    now: i64,
) -> (r: Result<(), SiphonError>)
    ensures
        match r {
            Ok(_) => {
                &&& caller@ == config.executor@
                &&& old(vault).status == VaultStatus::PendingPrivateWithdrawal
                &&& now <= pending.expires_at
                &&& old(vault).privacy_pool_amount >= pending.amount
                &&& final(vault).privacy_pool_amount == old(vault).privacy_pool_amount
                    - pending.amount
                &&& final(vault).status == VaultStatus::Active
                &&& final(vault).owner == old(vault).owner
                &&& final(vault).asset_mint == old(vault).asset_mint
                &&& final(vault).amount == old(vault).amount
                &&& final(vault).strategies@ == old(vault).strategies@
                &&& final(vault).created_at == old(vault).created_at
            },
            Err(e) => {
                &&& *final(vault) == *old(vault)
                &&& (if caller@ != config.executor@ {
                    e == SiphonError::UnauthorizedExecutor
                } else if old(vault).status != VaultStatus::PendingPrivateWithdrawal {
                    e == SiphonError::NoPendingWithdrawal
                } else if now > pending.expires_at {
                    e == SiphonError::WithdrawalExpired
                } else {
                    &&& old(vault).privacy_pool_amount < pending.amount
                    &&& e == SiphonError::Overflow
                })
            },
        },
{
    if !crate::state::bytes32_eq(caller, &config.executor) {
        return Err(SiphonError::UnauthorizedExecutor);
    }
    if vault.status != VaultStatus::PendingPrivateWithdrawal {
        return Err(SiphonError::NoPendingWithdrawal);
    }
    if now > pending.expires_at {
        return Err(SiphonError::WithdrawalExpired);
    }
    match vault.privacy_pool_amount.checked_sub(pending.amount) {
        Some(v) => {
            vault.privacy_pool_amount = v;
            vault.status = VaultStatus::Active;
            Ok(())
        },
        None => Err(SiphonError::Overflow),
    }
}

} // verus!
