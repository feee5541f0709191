use siphon_zk_pool::vault::{
    complete_private_withdrawal, create_strategy, create_vault, deposit, execute_strategy,
    freeze_vault, has_strategy, initialize, initiate_private_withdrawal, pause_protocol,
    remove_strategy, transfer_admin, unfreeze_vault, unpause_protocol, update_executor,
    update_fee, update_treasury, withdraw_direct, SiphonConfig, SiphonError, SiphonVault,
    VaultStatus, WITHDRAWAL_TIMEOUT_SECONDS,
};

fn key(b: u8) -> [u8; 32] {
    [b; 32]
}

const ADMIN: u8 = 1;
const EXECUTOR: u8 = 2;
const TREASURY: u8 = 3;
const OWNER: u8 = 4;
const MINT: u8 = 5;

fn fresh_config() -> SiphonConfig {
    initialize(key(ADMIN), key(EXECUTOR), key(TREASURY), 100).unwrap()
}

fn fresh_vault(config: &SiphonConfig) -> SiphonVault {
    create_vault(config, key(OWNER), key(MINT), 1_700_000_000).unwrap()
}

#[test]
fn initialize_validates_fee() {
    assert_eq!(
        initialize(key(ADMIN), key(EXECUTOR), key(TREASURY), 1001).err().unwrap(),
        SiphonError::InvalidFeeConfig
    );
    let config = fresh_config();
    assert_eq!(config.admin, key(ADMIN));
    assert_eq!(config.executor, key(EXECUTOR));
    assert_eq!(config.treasury, key(TREASURY));
    assert_eq!(config.fee_bps, 100);
    assert!(!config.paused);
}

#[test]
fn admin_updates_require_admin() {
    let mut config = fresh_config();
    assert_eq!(
        update_executor(&mut config, &key(99), key(7)).err().unwrap(),
        SiphonError::UnauthorizedAdmin
    );
    assert_eq!(config.executor, key(EXECUTOR));
    update_executor(&mut config, &key(ADMIN), key(7)).unwrap();
    assert_eq!(config.executor, key(7));

    update_treasury(&mut config, &key(ADMIN), key(8)).unwrap();
    assert_eq!(config.treasury, key(8));

    assert_eq!(
        update_fee(&mut config, &key(ADMIN), 1001).err().unwrap(),
        SiphonError::InvalidFeeConfig
    );
    update_fee(&mut config, &key(ADMIN), 250).unwrap();
    assert_eq!(config.fee_bps, 250);

    pause_protocol(&mut config, &key(ADMIN)).unwrap();
    assert!(config.paused);
    unpause_protocol(&mut config, &key(ADMIN)).unwrap();
    assert!(!config.paused);

    transfer_admin(&mut config, &key(ADMIN), key(11)).unwrap();
    assert_eq!(config.admin, key(11));
    assert_eq!(
        pause_protocol(&mut config, &key(ADMIN)).err().unwrap(),
        SiphonError::UnauthorizedAdmin
    );
    pause_protocol(&mut config, &key(11)).unwrap();
    assert!(config.paused);
}

#[test]
fn vault_status_default_is_active() {
    assert_eq!(VaultStatus::default(), VaultStatus::Active);
}

#[test]
fn create_vault_fields_and_pause_gate() {
    let mut config = fresh_config();
    let vault = fresh_vault(&config);
    assert_eq!(vault.owner, key(OWNER));
    assert_eq!(vault.asset_mint, key(MINT));
    assert_eq!(vault.amount, 0);
    assert_eq!(vault.privacy_pool_amount, 0);
    assert!(vault.strategies.is_empty());
    assert_eq!(vault.status, VaultStatus::Active);
    assert_eq!(vault.created_at, 1_700_000_000);

    pause_protocol(&mut config, &key(ADMIN)).unwrap();
    assert_eq!(
        create_vault(&config, key(OWNER), key(MINT), 0).err().unwrap(),
        SiphonError::ProtocolPaused
    );
}

#[test]
fn deposit_and_withdraw_direct() {
    let config = fresh_config();
    let mut vault = fresh_vault(&config);

    assert_eq!(deposit(&config, &mut vault, 0).err().unwrap(), SiphonError::InvalidAmount);
    deposit(&config, &mut vault, 700).unwrap();
    assert_eq!(vault.amount, 700);

    vault.amount = u64::MAX;
    assert_eq!(deposit(&config, &mut vault, 1).err().unwrap(), SiphonError::Overflow);
    vault.amount = 700;

    assert_eq!(
        withdraw_direct(&config, &mut vault, 701).err().unwrap(),
        SiphonError::InsufficientBalance
    );
    withdraw_direct(&config, &mut vault, 200).unwrap();
    assert_eq!(vault.amount, 500);

    // frozen vaults accept neither
    let mut frozen = fresh_vault(&config);
    freeze_vault(&config, &mut frozen, &key(ADMIN)).unwrap();
    assert_eq!(frozen.status, VaultStatus::Frozen);
    assert_eq!(deposit(&config, &mut frozen, 5).err().unwrap(), SiphonError::VaultNotActive);
    assert_eq!(
        withdraw_direct(&config, &mut frozen, 5).err().unwrap(),
        SiphonError::VaultNotActive
    );
    unfreeze_vault(&config, &mut frozen, &key(ADMIN)).unwrap();
    assert_eq!(frozen.status, VaultStatus::Active);
    assert_eq!(
        freeze_vault(&config, &mut frozen, &key(99)).err().unwrap(),
        SiphonError::UnauthorizedAdmin
    );
}

#[test]
fn strategy_lifecycle() {
    let config = fresh_config();
    let mut vault = fresh_vault(&config);

    for id in 0..10u64 {
        create_strategy(&config, &mut vault, id).unwrap();
    }
    assert_eq!(vault.strategies.len(), 10);
    assert_eq!(
        create_strategy(&config, &mut vault, 10).err().unwrap(),
        SiphonError::MaxStrategiesReached
    );

    assert!(has_strategy(&vault, 3));
    assert!(!has_strategy(&vault, 42));

    assert_eq!(
        execute_strategy(&config, &vault, &key(99), 3).err().unwrap(),
        SiphonError::UnauthorizedExecutor
    );
    execute_strategy(&config, &vault, &key(EXECUTOR), 3).unwrap();
    assert_eq!(
        execute_strategy(&config, &vault, &key(EXECUTOR), 42).err().unwrap(),
        SiphonError::StrategyNotFound
    );

    remove_strategy(&config, &mut vault, 3).unwrap();
    assert_eq!(vault.strategies.len(), 9);
    assert!(!has_strategy(&vault, 3));
    assert_eq!(
        remove_strategy(&config, &mut vault, 3).err().unwrap(),
        SiphonError::StrategyNotFound
    );
}

#[test]
fn remove_strategy_removes_first_occurrence() {
    let config = fresh_config();
    let mut vault = fresh_vault(&config);
    create_strategy(&config, &mut vault, 7).unwrap();
    create_strategy(&config, &mut vault, 8).unwrap();
    create_strategy(&config, &mut vault, 7).unwrap();

    remove_strategy(&config, &mut vault, 7).unwrap();
    assert_eq!(vault.strategies, vec![8, 7]);
}

#[test]
fn private_withdrawal_lifecycle() {
    let config = fresh_config();
    let mut vault = fresh_vault(&config);
    deposit(&config, &mut vault, 1_000).unwrap();

    let now = 1_700_000_100;
    assert_eq!(
        initiate_private_withdrawal(&config, &mut vault, 2_000, key(9), now).err().unwrap(),
        SiphonError::InsufficientBalance
    );
    let pending = initiate_private_withdrawal(&config, &mut vault, 600, key(9), now).unwrap();
    assert_eq!(pending.amount, 600);
    assert_eq!(pending.recipient, key(9));
    assert_eq!(pending.initiated_at, now);
    assert_eq!(pending.expires_at, now + WITHDRAWAL_TIMEOUT_SECONDS);
    assert_eq!(vault.amount, 400);
    assert_eq!(vault.privacy_pool_amount, 600);
    assert_eq!(vault.status, VaultStatus::PendingPrivateWithdrawal);

    // no further deposits or withdrawals while pending
    assert_eq!(deposit(&config, &mut vault, 5).err().unwrap(), SiphonError::VaultNotActive);

    // completion is executor-only and dies at the deadline
    assert_eq!(
        complete_private_withdrawal(&config, &mut vault, pending, &key(99), now + 10)
            .err()
            .unwrap(),
        SiphonError::UnauthorizedExecutor
    );
    let pending = initiate_probe(&vault);
    assert_eq!(
        complete_private_withdrawal(
            &config,
            &mut vault,
            pending,
            &key(EXECUTOR),
            now + WITHDRAWAL_TIMEOUT_SECONDS + 1,
        )
        .err()
        .unwrap(),
        SiphonError::WithdrawalExpired
    );
    let pending = initiate_probe(&vault);
    complete_private_withdrawal(&config, &mut vault, pending, &key(EXECUTOR), now + 10).unwrap();
    assert_eq!(vault.privacy_pool_amount, 0);
    assert_eq!(vault.status, VaultStatus::Active);
}

// Rebuild the pending record consumed by a failed completion attempt.
fn initiate_probe(vault: &SiphonVault) -> siphon_zk_pool::vault::PendingWithdrawal {
    siphon_zk_pool::vault::PendingWithdrawal {
        amount: vault.privacy_pool_amount,
        recipient: key(9),
        initiated_at: 1_700_000_100,
        expires_at: 1_700_000_100 + WITHDRAWAL_TIMEOUT_SECONDS,
    }
}

#[test]
fn complete_without_pending_status_fails() {
    let config = fresh_config();
    let mut vault = fresh_vault(&config);
    let pending = initiate_probe(&vault);
    assert_eq!(
        complete_private_withdrawal(&config, &mut vault, pending, &key(EXECUTOR), 0)
            .err()
            .unwrap(),
        SiphonError::NoPendingWithdrawal
    );
}
