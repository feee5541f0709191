//! Global laws of the pool, proved over the spec-level transitions.
//!
//! Each proof function here is a statement of record: monotonic leaf
//! allocation, the bounded root-history acceptance window, exactly-once
//! nullifier consumption, and the absence of partial effects on a rejected
//! deposit.

use vstd::prelude::*;
use vstd::arithmetic::div_mod::{
    lemma_add_mod_noop, lemma_add_mod_noop_right, lemma_mod_bound, lemma_mod_equivalence,
    lemma_mod_mod, lemma_small_mod,
};
use crate::errors::ZkPoolError;
use crate::pool::{
    spec_deposit, spec_update_root, spec_withdraw, PoolModel, WithdrawInputsModel,
};
use crate::state::{is_zero_bytes, TreeModel};

verus! {

/// One submitted transition, with all of its caller-supplied inputs.
pub ghost enum PoolOp {
    Deposit {
        mint: Option<Seq<u8>>,
        commitment: Seq<u8>,
        amount: nat,
        leaf_index: nat,
    },
    UpdateRoot { caller: Seq<u8>, new_root: Seq<u8> },
    Withdraw {
        caller: Seq<u8>,
        mint: Option<Seq<u8>>,
        inputs: WithdrawInputsModel,
        amount: nat,
        fee: nat,
    },
}

/// Apply one submitted transition to the pool.
pub open spec fn step(p: PoolModel, op: PoolOp) -> (PoolModel, Result<(), ZkPoolError>) {
    match op {
        PoolOp::Deposit { mint, commitment, amount, leaf_index } => spec_deposit(
            p,
            mint,
            commitment,
            amount,
            leaf_index,
        ),
        PoolOp::UpdateRoot { caller, new_root } => spec_update_root(p, caller, new_root),
        PoolOp::Withdraw { caller, mint, inputs, amount, fee } => spec_withdraw(
            p,
            caller,
            mint,
            inputs,
            amount,
            fee,
        ),
    }
}

/// True when `op`, applied to `p`, succeeds and allocates a leaf: a
/// successful deposit, or a successful withdrawal with a change output.
pub open spec fn allocates_leaf(p: PoolModel, op: PoolOp) -> bool {
    &&& step(p, op).1 is Ok
    &&& match op {
        PoolOp::Deposit { .. } => true,
        PoolOp::UpdateRoot { .. } => false,
        PoolOp::Withdraw { inputs, .. } => !is_zero_bytes(inputs.new_commitment),
    }
}

/// Apply a sequence of submitted transitions, first to last.
pub open spec fn apply_ops(p: PoolModel, ops: Seq<PoolOp>) -> PoolModel
    decreases ops.len(),
{
    if ops.len() == 0 {
        p
    } else {
        apply_ops(step(p, ops[0]).0, ops.drop_first())
    }
}

/// Number of transitions in `ops` that successfully allocate a leaf.
pub open spec fn leaf_alloc_count(p: PoolModel, ops: Seq<PoolOp>) -> nat
    decreases ops.len(),
{
    if ops.len() == 0 {
        0
    } else {
        (if allocates_leaf(p, ops[0]) {
            1nat
        } else {
            0nat
        }) + leaf_alloc_count(step(p, ops[0]).0, ops.drop_first())
    }
}

/// One transition advances the leaf counter by exactly one when it
/// allocates a leaf and leaves it unchanged otherwise; in particular the
/// counter never decreases.
pub proof fn lemma_step_next_index(p: PoolModel, op: PoolOp)
    ensures
        step(p, op).0.tree.next_index == p.tree.next_index + (if allocates_leaf(p, op) {
            1nat
        } else {
            0nat
        }),
{
}

/// Over every sequence of transitions, the leaf counter equals its starting
/// value plus the count of successful leaf allocations — deposits and
/// withdrawal change outputs — and never decreases.
pub proof fn lemma_next_index_counts_allocations(p: PoolModel, ops: Seq<PoolOp>)
    ensures
        apply_ops(p, ops).tree.next_index == p.tree.next_index + leaf_alloc_count(p, ops),
        apply_ops(p, ops).tree.next_index >= p.tree.next_index,
    decreases ops.len(),
{
    if ops.len() > 0 {
        lemma_step_next_index(p, ops[0]);
        lemma_next_index_counts_allocations(step(p, ops[0]).0, ops.drop_first());
    }
}

/// From a freshly initialized pool, the leaf counter strictly equals the
/// count of successful leaf allocations over any sequence of transitions.
pub proof fn lemma_next_index_is_allocation_count(
    admin: Seq<u8>,
    relayer: Seq<u8>,
    fee_recipient: Seq<u8>,
    fee_bps: nat,
    p0: PoolModel,
    ops: Seq<PoolOp>,
)
    requires
        crate::pool::spec_initialize(admin, relayer, fee_recipient, fee_bps) == Ok::<
            PoolModel,
            ZkPoolError,
        >(p0),
    ensures
        apply_ops(p0, ops).tree.next_index == leaf_alloc_count(p0, ops),
{
    lemma_next_index_counts_allocations(p0, ops);
}

/// A deposit whose predicted leaf index differs from the accumulator's next
/// index is rejected, whatever the other inputs, with no mutation at all:
/// no custody credit, no commitment record, no counter change.
pub proof fn lemma_deposit_index_mismatch_no_mutation(
    p: PoolModel,
    mint: Option<Seq<u8>>,
    commitment: Seq<u8>,
    amount: nat,
    leaf_index: nat,
)
    requires
        leaf_index != p.tree.next_index,
    ensures
        spec_deposit(p, mint, commitment, amount, leaf_index).0 == p,
        spec_deposit(p, mint, commitment, amount, leaf_index).1 is Err,
{
}

/// A nullifier hash is consumable exactly once: after any successful
/// withdrawal, a second withdrawal offering the same nullifier hash fails
/// with `NullifierAlreadySpent` and changes nothing — whatever its asset,
/// amounts, fee, change commitment, or state root, as long as it passes the
/// authorization, pause, amount and root gates that precede the nullifier
/// check.
pub proof fn lemma_nullifier_spent_once(
    p: PoolModel,
    caller1: Seq<u8>,
    mint1: Option<Seq<u8>>,
    inputs1: WithdrawInputsModel,
    amount1: nat,
    fee1: nat,
    caller2: Seq<u8>,
    mint2: Option<Seq<u8>>,
    inputs2: WithdrawInputsModel,
    amount2: nat,
    fee2: nat,
)
    requires
        spec_withdraw(p, caller1, mint1, inputs1, amount1, fee1).1 is Ok,
        inputs2.nullifier_hash == inputs1.nullifier_hash,
        caller2 == p.config.relayer,
        amount2 > 0,
        spec_withdraw(p, caller1, mint1, inputs1, amount1, fee1).0.tree.known_root(
            inputs2.state_root,
        ),
    ensures
        spec_withdraw(
            spec_withdraw(p, caller1, mint1, inputs1, amount1, fee1).0,
            caller2,
            mint2,
            inputs2,
            amount2,
            fee2,
        ) == (
            spec_withdraw(p, caller1, mint1, inputs1, amount1, fee1).0,
            Err::<(), ZkPoolError>(ZkPoolError::NullifierAlreadySpent),
        ),
{
    let p1 = spec_withdraw(p, caller1, mint1, inputs1, amount1, fee1).0;
    assert(p1.config == p.config);
    assert(p1.nullifiers == p.nullifiers.push(inputs1.nullifier_hash));
    assert(p1.nullifiers[p.nullifiers.len() as int] == inputs1.nullifier_hash);
    assert(p1.nullifiers.contains(inputs2.nullifier_hash));
}

/// The root installed after `m` rotations: the starting current root for
/// `m == 0`, otherwise the `m`-th rotation's new root.
pub open spec fn current_after(t: TreeModel, roots: Seq<Seq<u8>>, m: int) -> Seq<u8> {
    if m <= 0 {
        t.current_root
    } else {
        roots[m - 1]
    }
}

/// Apply a sequence of root rotations, first to last.
pub open spec fn rotate_all(t: TreeModel, roots: Seq<Seq<u8>>) -> TreeModel
    decreases roots.len(),
{
    if roots.len() == 0 {
        t
    } else {
        rotate_all(t.rotate(roots[0]), roots.drop_first())
    }
}

/// Ring-buffer slot written by the rotation made with cursor `c0 + m`.
pub open spec fn slot_of(c0: int, m: int) -> int {
    (c0 + m) % 32
}

/// Advancing the wrapping cursor by one shifts every later slot by one.
proof fn lemma_slot_shift(c0: int, m: int)
    requires
        0 <= c0,
        0 <= m,
    ensures
        slot_of((c0 + 1) % 0x1_0000_0000_0000_0000, m) == slot_of(c0, m + 1),
{
    lemma_mod_mod(c0 + 1, 32, 0x0800_0000_0000_0000);
    lemma_add_mod_noop((c0 + 1) % 0x1_0000_0000_0000_0000, m, 32);
    lemma_add_mod_noop(c0 + 1, m, 32);
}

/// Two rotations fewer than 32 apart never write the same slot.
proof fn lemma_slot_distinct(c0: int, m1: int, m2: int)
    requires
        0 <= c0,
        0 <= m1 < m2,
        m2 - m1 < 32,
    ensures
        slot_of(c0, m1) != slot_of(c0, m2),
{
    if slot_of(c0, m1) == slot_of(c0, m2) {
        lemma_mod_equivalence(c0 + m2, c0 + m1, 32);
        lemma_small_mod((m2 - m1) as nat, 32);
    }
}

/// Among any 32 consecutive rotations there is one that writes the given
/// slot.
proof fn lemma_slot_coverage(c0: int, base_m: int, i: int) -> (m: int)
    requires
        0 <= c0,
        0 <= base_m,
        0 <= i < 32,
    ensures
        base_m <= m < base_m + 32,
        slot_of(c0, m) == i,
{
    let a = c0 + base_m;
    let d = (i - a % 32) % 32;
    lemma_mod_bound(i - a % 32, 32);
    lemma_add_mod_noop(a, d, 32);
    lemma_small_mod(d as nat, 32);
    lemma_add_mod_noop_right(a % 32, i - a % 32, 32);
    lemma_small_mod(i as nat, 32);
    base_m + d
}

/// Shape of the accumulator after any sequence of rotations: the cursor has
/// advanced by the number of rotations (wrapping), the last root installed
/// is current, the leaf counter is untouched, each of the last 32 rotations
/// left its root in its own slot, and slots never written still hold their
/// starting contents.
pub proof fn lemma_rotate_all_shape(t: TreeModel, roots: Seq<Seq<u8>>)
    requires
        t.cursor < 0x1_0000_0000_0000_0000,
        t.history.len() == 32,
    ensures
        ({
            let t2 = rotate_all(t, roots);
            let n = roots.len() as int;
            let c0 = t.cursor as int;
            &&& t2.history.len() == 32
            &&& t2.cursor == (c0 + n) % 0x1_0000_0000_0000_0000
            &&& t2.current_root == current_after(t, roots, n)
            &&& t2.next_index == t.next_index
            &&& t2.height == t.height
            &&& t2.authority == t.authority
            &&& forall|m: int|
                0 <= m < n && n - 32 <= m ==> t2.history[#[trigger] slot_of(c0, m)]
                    == current_after(t, roots, m)
            &&& forall|i: int|
                0 <= i < 32 && (forall|m: int| 0 <= m < n ==> #[trigger] slot_of(c0, m) != i)
                    ==> #[trigger] t2.history[i] == t.history[i]
        }),
    decreases roots.len(),
{
    let t2 = rotate_all(t, roots);
    let n = roots.len() as int;
    let c0 = t.cursor as int;
    if n == 0 {
        lemma_small_mod(t.cursor, 0x1_0000_0000_0000_0000);
    } else {
        let t1 = t.rotate(roots[0]);
        let roots1 = roots.drop_first();
        let c1 = t1.cursor as int;
        lemma_rotate_all_shape(t1, roots1);
        assert forall|m: int| 0 <= m implies slot_of(c1, m) == slot_of(c0, m + 1) by {
            lemma_slot_shift(c0, m);
        }
        // cursor: (c1 + (n - 1)) % 2^64 == (c0 + n) % 2^64
        lemma_add_mod_noop_right(n - 1, c0 + 1, 0x1_0000_0000_0000_0000);
        assert(t2.cursor == (c0 + n) % 0x1_0000_0000_0000_0000);
        // current root
        assert(forall|m: int|
            1 <= m <= n ==> current_after(t1, roots1, m - 1) == current_after(t, roots, m));
        // slot written by the first rotation
        let i0 = slot_of(c0, 0);
        lemma_mod_bound(c0, 32);
        assert(t1.history[i0] == t.current_root);
        // window clause
        assert forall|m: int| 0 <= m < n && n - 32 <= m implies t2.history[slot_of(c0, m)]
            == current_after(t, roots, m) by {
            if m >= 1 {
                assert(slot_of(c1, m - 1) == slot_of(c0, m));
                assert(t2.history[slot_of(c1, m - 1)] == current_after(t1, roots1, m - 1));
            } else {
                // m == 0 and n <= 32: no later rotation touches slot i0
                assert forall|m1: int| 0 <= m1 < n - 1 implies slot_of(c1, m1) != i0 by {
                    lemma_slot_distinct(c0, 0, m1 + 1);
                }
                assert(t2.history[i0] == t1.history[i0]);
            }
        }
        // untouched-slot clause
        assert forall|i: int|
            0 <= i < 32 && (forall|m: int| 0 <= m < n ==> #[trigger] slot_of(c0, m) != i) implies
            t2.history[i] == t.history[i] by {
            assert(slot_of(c0, 0) != i);
            assert(t1.history[i] == t.history[i]);
            assert forall|m1: int| 0 <= m1 < n - 1 implies slot_of(c1, m1) != i by {
                assert(slot_of(c1, m1) == slot_of(c0, m1 + 1));
            }
            assert(t2.history[i] == t1.history[i]);
        }
    }
}

/// Every root installed by one of the last 33 rotations — the current root
/// and the 32 still in history — is recognized by `known_root`.
pub proof fn lemma_recent_root_known(t: TreeModel, roots: Seq<Seq<u8>>, k: int)
    requires
        t.wf(),
        0 <= k < roots.len(),
        roots.len() - 33 <= k,
    ensures
        rotate_all(t, roots).known_root(roots[k]),
{
    lemma_rotate_all_shape(t, roots);
    let t2 = rotate_all(t, roots);
    let n = roots.len() as int;
    let c0 = t.cursor as int;
    if k == n - 1 {
        assert(t2.current_root == roots[k]);
    } else {
        let m = k + 1;
        lemma_mod_bound(c0 + m, 32);
        assert(t2.history[slot_of(c0, m)] == current_after(t, roots, m));
        assert(current_after(t, roots, m) == roots[k]);
        assert(0 <= slot_of(c0, m) < 32 && t2.history[slot_of(c0, m)] == roots[k]);
    }
}

/// The bounded-staleness law: once at least 33 rotations have happened,
/// `known_root(r)` holds iff `r` was installed by one of the last 33 —
/// that is, `r` is the current root or was current at one of the last 32
/// rotations. In particular each further rotation evicts the oldest
/// remembered root, which becomes unrecognized.
pub proof fn lemma_root_history_window(t: TreeModel, roots: Seq<Seq<u8>>, r: Seq<u8>)
    requires
        t.wf(),
        roots.len() >= 33,
    ensures
        ({
            let t2 = rotate_all(t, roots);
            let n = roots.len() as int;
            t2.known_root(r) <==> exists|k: int| n - 33 <= k < n && roots[k] == r
        }),
{
    lemma_rotate_all_shape(t, roots);
    let t2 = rotate_all(t, roots);
    let n = roots.len() as int;
    let c0 = t.cursor as int;
    if t2.known_root(r) {
        if r == t2.current_root {
            assert(roots[n - 1] == r);
            assert(exists|k: int| n - 33 <= k < n && roots[k] == r);
        } else {
            let i = choose|i: int| 0 <= i < 32 && t2.history[i] == r;
            let m = lemma_slot_coverage(c0, n - 32, i);
            assert(t2.history[slot_of(c0, m)] == current_after(t, roots, m));
            assert(roots[m - 1] == r);
            assert(exists|k: int| n - 33 <= k < n && roots[k] == r);
        }
    }
    if exists|k: int| n - 33 <= k < n && roots[k] == r {
        let k = choose|k: int| n - 33 <= k < n && roots[k] == r;
        lemma_recent_root_known(t, roots, k);
    }
}

/// The transitions that submit each of `roots` as a relayer root update.
pub open spec fn update_ops(relayer: Seq<u8>, roots: Seq<Seq<u8>>) -> Seq<PoolOp> {
    roots.map_values(|r: Seq<u8>| PoolOp::UpdateRoot { caller: relayer, new_root: r })
}

/// A run of relayer root updates on a running pool acts on the accumulator
/// exactly as the corresponding rotation sequence, and touches nothing
/// else of the configuration.
pub proof fn lemma_update_run_acts_as_rotations(p: PoolModel, roots: Seq<Seq<u8>>)
    requires
        !p.config.paused,
    ensures
        apply_ops(p, update_ops(p.config.relayer, roots)).tree == rotate_all(p.tree, roots),
        apply_ops(p, update_ops(p.config.relayer, roots)).config == p.config,
    decreases roots.len(),
{
    let ops = update_ops(p.config.relayer, roots);
    if roots.len() > 0 {
        let p1 = step(p, ops[0]).0;
        assert(p1.tree == p.tree.rotate(roots[0]));
        assert(p1.config == p.config);
        lemma_update_run_acts_as_rotations(p1, roots.drop_first());
        assert(ops.drop_first() =~= update_ops(p1.config.relayer, roots.drop_first()));
    }
}

/// The bounded-staleness law at the pool level: after at least 33 relayer
/// root updates, the pool accepts exactly the roots installed by the last
/// 33 of them.
pub proof fn lemma_pool_root_history_window(p: PoolModel, roots: Seq<Seq<u8>>, r: Seq<u8>)
    requires
        p.wf(),
        !p.config.paused,
        roots.len() >= 33,
    ensures
        ({
            let q = apply_ops(p, update_ops(p.config.relayer, roots));
            let n = roots.len() as int;
            q.tree.known_root(r) <==> exists|k: int| n - 33 <= k < n && roots[k] == r
        }),
{
    lemma_update_run_acts_as_rotations(p, roots);
    lemma_root_history_window(p.tree, roots, r);
}

/// Eviction, spelled out: a root whose rotation lies more than 33 back, and
/// which was not re-installed since, is no longer recognized.
pub proof fn lemma_old_root_evicted(t: TreeModel, roots: Seq<Seq<u8>>, j: int)
    requires
        t.wf(),
        roots.len() >= 33,
        0 <= j < roots.len() - 33,
        forall|k: int| roots.len() - 33 <= k < roots.len() ==> roots[k] != roots[j],
    ensures
        !rotate_all(t, roots).known_root(roots[j]),
{
    lemma_root_history_window(t, roots, roots[j]);
}

} // verus!
