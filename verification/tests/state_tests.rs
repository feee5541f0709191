use siphon_zk_pool::errors::ZkPoolError;
use siphon_zk_pool::pool::initialize;
use siphon_zk_pool::state::{bytes32_eq, bytes32_is_zero, zero_bytes32};

fn key(b: u8) -> [u8; 32] {
    [b; 32]
}

fn fresh_tree() -> siphon_zk_pool::state::MerkleTree {
    initialize(key(1), key(2), key(3), 0).unwrap().tree
}

#[test]
fn bytes32_helpers() {
    assert!(bytes32_eq(&key(4), &key(4)));
    assert!(!bytes32_eq(&key(4), &key(5)));
    let mut almost = key(4);
    almost[31] = 5;
    assert!(!bytes32_eq(&key(4), &almost));
    assert!(bytes32_is_zero(&zero_bytes32()));
    assert!(!bytes32_is_zero(&key(4)));
    let mut nearly_zero = zero_bytes32();
    nearly_zero[0] = 1;
    assert!(!bytes32_is_zero(&nearly_zero));
}

#[test]
fn ring_buffer_accessors() {
    let mut tree = fresh_tree();
    assert_eq!(tree.get_root_history(0), [0u8; 32]);
    tree.set_root_history(5, &key(9));
    assert_eq!(tree.get_root_history(5), key(9));
    assert_eq!(tree.get_root_history(4), [0u8; 32]);
    assert!(tree.is_known_root(&key(9)));
    assert!(!tree.is_known_root(&key(10)));
}

#[test]
fn is_full_at_capacity() {
    let mut tree = fresh_tree();
    assert!(!tree.is_full());
    tree.next_index = (1u64 << 20) - 1;
    assert!(!tree.is_full());
    tree.next_index = 1u64 << 20;
    assert!(tree.is_full());
}

#[test]
fn allocate_leaf_checks_and_advances() {
    let mut tree = fresh_tree();
    assert_eq!(
        tree.allocate_leaf(&zero_bytes32()).err().unwrap(),
        ZkPoolError::InvalidCommitment
    );
    assert_eq!(tree.next_index, 0);

    assert_eq!(tree.allocate_leaf(&key(9)).unwrap(), 0);
    assert_eq!(tree.allocate_leaf(&key(10)).unwrap(), 1);
    assert_eq!(tree.next_index, 2);

    tree.next_index = 1u64 << 20;
    assert_eq!(tree.allocate_leaf(&key(11)).err().unwrap(), ZkPoolError::TreeFull);
    assert_eq!(tree.next_index, 1u64 << 20);
}
