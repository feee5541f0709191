use siphon_zk_pool::errors::ZkPoolError;
use siphon_zk_pool::pool::{
    deposit_sol, deposit_spl, initialize, update_root, withdraw_sol, withdraw_spl, Pool,
    WithdrawInputs,
};

fn key(b: u8) -> [u8; 32] {
    [b; 32]
}

const ADMIN: u8 = 1;
const RELAYER: u8 = 2;
const FEE_RECIPIENT: u8 = 3;

fn fresh_pool() -> Pool {
    initialize(key(ADMIN), key(RELAYER), key(FEE_RECIPIENT), 100).unwrap()
}

fn inputs(nullifier: u8, root: [u8; 32], change: [u8; 32]) -> WithdrawInputs {
    WithdrawInputs { nullifier_hash: key(nullifier), state_root: root, new_commitment: change }
}

#[test]
fn initialize_sets_up_empty_pool() {
    let pool = fresh_pool();
    assert_eq!(pool.config.admin, key(ADMIN));
    assert_eq!(pool.config.relayer, key(RELAYER));
    assert_eq!(pool.config.fee_recipient, key(FEE_RECIPIENT));
    assert_eq!(pool.config.fee_bps, 100);
    assert!(!pool.config.paused);
    assert_eq!(pool.tree.next_index, 0);
    assert_eq!(pool.tree.current_root, [0u8; 32]);
    assert_eq!(pool.tree.root_history.len(), 32);
    assert_eq!(pool.tree.root_history_index, 0);
    assert_eq!(pool.tree.height, 20);
    assert!(pool.nullifiers.is_empty());
    assert!(pool.commitments.is_empty());
    assert_eq!(pool.native_balance, 0);
}

#[test]
fn initialize_rejects_fee_over_ceiling() {
    let r = initialize(key(ADMIN), key(RELAYER), key(FEE_RECIPIENT), 1001);
    assert_eq!(r.err().unwrap(), ZkPoolError::InvalidFeeConfig);
    assert!(initialize(key(ADMIN), key(RELAYER), key(FEE_RECIPIENT), 1000).is_ok());
}

#[test]
fn deposit_withdraw_replay_scenario() {
    // initialize(relayer=R, fee_recipient=F, fee_bps=100)
    let mut pool = fresh_pool();

    // deposit_native(commitment=C1, amount=1_000_000, leaf_index=0)
    let ev = deposit_sol(&mut pool, key(9), vec![1, 2, 3], 1_000_000, 0).unwrap();
    assert_eq!(ev.index, 0);
    assert_eq!(ev.commitment, key(9));
    assert_eq!(ev.encrypted_output, vec![1, 2, 3]);
    assert_eq!(ev.amount, 1_000_000);
    assert!(ev.mint.is_none());
    assert_eq!(pool.tree.next_index, 1);
    assert_eq!(pool.native_balance, 1_000_000);
    assert_eq!(pool.commitments.len(), 1);
    assert_eq!(pool.commitments[0].index, 0);
    assert_eq!(pool.commitments[0].commitment, key(9));

    // update_root(ROOT1): history[0] = zero root, current = ROOT1
    let root1 = key(7);
    let ev = update_root(&mut pool, key(RELAYER), root1).unwrap();
    assert_eq!(ev.new_root, root1);
    assert_eq!(ev.root_index, 1);
    assert_eq!(pool.tree.get_root_history(0), [0u8; 32]);
    assert_eq!(pool.tree.current_root, root1);
    assert!(pool.tree.is_known_root(&root1));
    assert!(pool.tree.is_known_root(&[0u8; 32]));

    // withdraw_native(N1, ROOT1, no change, recipient=A, 900_000, fee=10_000)
    let w = withdraw_sol(
        &mut pool,
        key(RELAYER),
        inputs(5, root1, [0u8; 32]),
        key(8),
        900_000,
        10_000,
    )
    .unwrap();
    assert_eq!(w.nullifier_hash, key(5));
    assert_eq!(w.recipient, key(8));
    assert_eq!(w.amount, 900_000);
    assert_eq!(w.fee, 10_000);
    assert!(w.mint.is_none());
    assert!(w.new_commitment.is_none());
    assert!(w.new_index.is_none());
    // custody reduced by 910_000
    assert_eq!(pool.native_balance, 90_000);
    assert!(pool.is_nullifier_spent(&key(5)));

    // replaying the identical withdrawal fails NullifierAlreadySpent
    let again = withdraw_sol(
        &mut pool,
        key(RELAYER),
        inputs(5, root1, [0u8; 32]),
        key(8),
        900_000,
        10_000,
    );
    assert_eq!(again.err().unwrap(), ZkPoolError::NullifierAlreadySpent);
    assert_eq!(pool.native_balance, 90_000);
}

#[test]
fn insufficient_balance_leaves_nullifier_unspent() {
    let mut pool = fresh_pool();
    deposit_sol(&mut pool, key(9), vec![], 1_000_000, 0).unwrap();
    let root1 = key(7);
    update_root(&mut pool, key(RELAYER), root1).unwrap();

    // amount + fee = 1_100_000 exceeds the 1_000_000 in custody
    let r = withdraw_sol(
        &mut pool,
        key(RELAYER),
        inputs(5, root1, [0u8; 32]),
        key(8),
        900_000,
        200_000,
    );
    assert_eq!(r.err().unwrap(), ZkPoolError::InsufficientBalance);
    assert!(!pool.is_nullifier_spent(&key(5)));
    assert_eq!(pool.native_balance, 1_000_000);

    // the same call with the corrected fee later succeeds
    let r = withdraw_sol(
        &mut pool,
        key(RELAYER),
        inputs(5, root1, [0u8; 32]),
        key(8),
        900_000,
        100_000,
    );
    assert!(r.is_ok());
    assert_eq!(pool.native_balance, 0);
    assert!(pool.is_nullifier_spent(&key(5)));
}

#[test]
fn tree_full_boundary() {
    let mut pool = fresh_pool();
    let last = (1u64 << 20) - 1;
    pool.tree.next_index = last;

    // depositing at next_index == 2^20 - 1 succeeds and fills the tree
    let ev = deposit_sol(&mut pool, key(9), vec![], 1, last).unwrap();
    assert_eq!(ev.index, last);
    assert_eq!(pool.tree.next_index, 1u64 << 20);
    assert!(pool.tree.is_full());

    // the next deposit fails TreeFull
    let r = deposit_sol(&mut pool, key(10), vec![], 1, 1u64 << 20);
    assert_eq!(r.err().unwrap(), ZkPoolError::TreeFull);
    assert_eq!(pool.tree.next_index, 1u64 << 20);

    // a withdrawal change-output allocation also fails TreeFull
    let root1 = key(7);
    update_root(&mut pool, key(RELAYER), root1).unwrap();
    let r = withdraw_sol(
        &mut pool,
        key(RELAYER),
        inputs(5, root1, key(11)),
        key(8),
        1,
        0,
    );
    assert_eq!(r.err().unwrap(), ZkPoolError::TreeFull);
    assert!(!pool.is_nullifier_spent(&key(5)));
}

#[test]
fn deposit_index_mismatch_mutates_nothing() {
    let mut pool = fresh_pool();
    deposit_sol(&mut pool, key(9), vec![], 500, 0).unwrap();

    let r = deposit_sol(&mut pool, key(10), vec![], 700, 5);
    assert_eq!(r.err().unwrap(), ZkPoolError::InvalidAmount);
    assert_eq!(pool.tree.next_index, 1);
    assert_eq!(pool.native_balance, 500);
    assert_eq!(pool.commitments.len(), 1);

    // a stale index is rejected the same way
    let r = deposit_sol(&mut pool, key(10), vec![], 700, 1);
    assert!(r.is_ok());
    let r = deposit_sol(&mut pool, key(11), vec![], 700, 1);
    assert_eq!(r.err().unwrap(), ZkPoolError::InvalidAmount);
    assert_eq!(pool.tree.next_index, 2);
}

#[test]
fn deposit_validation_errors() {
    let mut pool = fresh_pool();
    assert_eq!(
        deposit_sol(&mut pool, key(9), vec![], 0, 0).err().unwrap(),
        ZkPoolError::InvalidAmount
    );
    assert_eq!(
        deposit_sol(&mut pool, [0u8; 32], vec![], 5, 0).err().unwrap(),
        ZkPoolError::InvalidCommitment
    );
    pool.config.paused = true;
    assert_eq!(
        deposit_sol(&mut pool, key(9), vec![], 5, 0).err().unwrap(),
        ZkPoolError::ProtocolPaused
    );
    assert_eq!(pool.tree.next_index, 0);
    assert_eq!(pool.native_balance, 0);
}

#[test]
fn deposit_credit_overflow() {
    let mut pool = fresh_pool();
    pool.native_balance = u64::MAX;
    let r = deposit_sol(&mut pool, key(9), vec![], 1, 0);
    assert_eq!(r.err().unwrap(), ZkPoolError::Overflow);
    assert_eq!(pool.tree.next_index, 0);
    assert_eq!(pool.native_balance, u64::MAX);
}

#[test]
fn update_root_requires_relayer_and_running_pool() {
    let mut pool = fresh_pool();
    let r = update_root(&mut pool, key(42), key(7));
    assert_eq!(r.err().unwrap(), ZkPoolError::UnauthorizedRelayer);
    pool.config.paused = true;
    let r = update_root(&mut pool, key(RELAYER), key(7));
    assert_eq!(r.err().unwrap(), ZkPoolError::ProtocolPaused);
    assert_eq!(pool.tree.current_root, [0u8; 32]);
    assert_eq!(pool.tree.root_history_index, 0);
}

#[test]
fn root_history_window_evicts_after_33_rotations() {
    let mut pool = fresh_pool();
    let zero = [0u8; 32];

    // 32 rotations: the initial zero root is still remembered
    for i in 1..=32u8 {
        update_root(&mut pool, key(RELAYER), key(100 + i)).unwrap();
    }
    assert!(pool.tree.is_known_root(&zero));
    for i in 1..=32u8 {
        assert!(pool.tree.is_known_root(&key(100 + i)));
    }

    // the 33rd rotation evicts the oldest remembered root (the zero root)
    update_root(&mut pool, key(RELAYER), key(133)).unwrap();
    assert!(!pool.tree.is_known_root(&zero));
    for i in 1..=33u8 {
        assert!(pool.tree.is_known_root(&key(100 + i)));
    }

    // one more rotation evicts the first installed root as well
    update_root(&mut pool, key(RELAYER), key(134)).unwrap();
    assert!(!pool.tree.is_known_root(&key(101)));
    for i in 2..=34u8 {
        assert!(pool.tree.is_known_root(&key(100 + i)));
    }
}

#[test]
fn withdraw_gate_errors_in_order() {
    let mut pool = fresh_pool();
    deposit_sol(&mut pool, key(9), vec![], 1_000, 0).unwrap();
    let root1 = key(7);
    update_root(&mut pool, key(RELAYER), root1).unwrap();

    // wrong relayer
    let r = withdraw_sol(&mut pool, key(42), inputs(5, root1, [0u8; 32]), key(8), 1, 0);
    assert_eq!(r.err().unwrap(), ZkPoolError::UnauthorizedRelayer);
    // zero amount
    let r = withdraw_sol(&mut pool, key(RELAYER), inputs(5, root1, [0u8; 32]), key(8), 0, 0);
    assert_eq!(r.err().unwrap(), ZkPoolError::InvalidAmount);
    // unknown state root
    let r = withdraw_sol(&mut pool, key(RELAYER), inputs(5, key(99), [0u8; 32]), key(8), 1, 0);
    assert_eq!(r.err().unwrap(), ZkPoolError::InvalidStateRoot);
    // amount + fee wraps
    let r = withdraw_sol(
        &mut pool,
        key(RELAYER),
        inputs(5, root1, [0u8; 32]),
        key(8),
        u64::MAX,
        1,
    );
    assert_eq!(r.err().unwrap(), ZkPoolError::Overflow);
    // paused
    pool.config.paused = true;
    let r = withdraw_sol(&mut pool, key(RELAYER), inputs(5, root1, [0u8; 32]), key(8), 1, 0);
    assert_eq!(r.err().unwrap(), ZkPoolError::ProtocolPaused);
    pool.config.paused = false;

    // nothing was consumed or paid along the way
    assert!(!pool.is_nullifier_spent(&key(5)));
    assert_eq!(pool.native_balance, 1_000);
}

#[test]
fn withdraw_change_output_allocates_leaf_without_record() {
    let mut pool = fresh_pool();
    deposit_sol(&mut pool, key(9), vec![], 1_000, 0).unwrap();
    let root1 = key(7);
    update_root(&mut pool, key(RELAYER), root1).unwrap();

    let w = withdraw_sol(
        &mut pool,
        key(RELAYER),
        inputs(5, root1, key(12)),
        key(8),
        400,
        100,
    )
    .unwrap();
    assert_eq!(w.new_commitment, Some(key(12)));
    assert_eq!(w.new_index, Some(1));
    assert_eq!(pool.tree.next_index, 2);
    // the change leaf gets no commitment record, only the event
    assert_eq!(pool.commitments.len(), 1);
    assert_eq!(pool.native_balance, 500);
}

#[test]
fn spl_deposit_and_withdraw_track_per_mint_custody() {
    let mut pool = fresh_pool();
    let usdc = key(50);
    let other = key(51);

    let ev = deposit_spl(&mut pool, usdc, key(9), vec![], 800, 0).unwrap();
    assert_eq!(ev.mint, Some(usdc));
    assert_eq!(pool.asset_balance_of(&Some(usdc)), 800);
    assert_eq!(pool.asset_balance_of(&Some(other)), 0);
    assert_eq!(pool.asset_balance_of(&None), 0);

    deposit_spl(&mut pool, other, key(10), vec![], 300, 1).unwrap();
    assert_eq!(pool.asset_balance_of(&Some(other)), 300);

    let root1 = key(7);
    update_root(&mut pool, key(RELAYER), root1).unwrap();

    // withdrawing an asset the pool holds nothing of fails InsufficientBalance
    let r = withdraw_spl(
        &mut pool,
        key(RELAYER),
        key(52),
        inputs(5, root1, [0u8; 32]),
        key(8),
        1,
        0,
    );
    assert_eq!(r.err().unwrap(), ZkPoolError::InsufficientBalance);
    assert!(!pool.is_nullifier_spent(&key(5)));

    let w = withdraw_spl(
        &mut pool,
        key(RELAYER),
        usdc,
        inputs(5, root1, [0u8; 32]),
        key(8),
        700,
        100,
    )
    .unwrap();
    assert_eq!(w.mint, Some(usdc));
    assert_eq!(pool.asset_balance_of(&Some(usdc)), 0);
    assert_eq!(pool.asset_balance_of(&Some(other)), 300);
}

#[test]
fn next_index_counts_successful_allocations() {
    let mut pool = fresh_pool();
    let mut successes = 0u64;

    // a mix of successful and failing transitions
    if deposit_sol(&mut pool, key(9), vec![], 10, 0).is_ok() {
        successes += 1;
    }
    assert!(deposit_sol(&mut pool, key(9), vec![], 0, 1).is_err()); // zero amount
    assert!(deposit_sol(&mut pool, key(9), vec![], 10, 7).is_err()); // index mismatch
    if deposit_sol(&mut pool, key(10), vec![], 10, 1).is_ok() {
        successes += 1;
    }
    let root1 = key(7);
    update_root(&mut pool, key(RELAYER), root1).unwrap(); // no allocation
    if withdraw_sol(&mut pool, key(RELAYER), inputs(5, root1, key(13)), key(8), 5, 0).is_ok() {
        successes += 1; // change output allocates
    }
    assert!(
        withdraw_sol(&mut pool, key(RELAYER), inputs(6, root1, [0u8; 32]), key(8), 5, 0).is_ok()
    ); // no change output: no allocation

    assert_eq!(successes, 3);
    assert_eq!(pool.tree.next_index, successes);
}
