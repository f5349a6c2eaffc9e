use std::collections::HashMap;

use eth_watcher::eth_state::{merge_ops, op_is_expired, sift_outdated_ops, ETHState};
use eth_watcher::params::PRIORITY_EXPIRATION;
use eth_watcher::types::PriorityOp;

fn op(serial_id: u64, eth_block: u64, chunks: usize) -> PriorityOp {
    PriorityOp { serial_id, eth_block, chunks }
}

fn queue_of(ops: &[PriorityOp]) -> HashMap<u64, PriorityOp> {
    ops.iter().map(|o| (o.serial_id, *o)).collect()
}

fn ids(ops: &[PriorityOp]) -> Vec<u64> {
    ops.iter().map(|o| o.serial_id).collect()
}

#[test]
fn query_stops_at_budget_and_gap() {
    let state = ETHState::new(100, queue_of(&[op(5, 1, 3), op(6, 1, 4), op(7, 1, 5), op(9, 1, 1)]));
    let got = state.priority_queue_ops(5, 10);
    assert_eq!(ids(&got), vec![5, 6]);
}

#[test]
fn query_stops_at_missing_id() {
    let state = ETHState::new(100, queue_of(&[op(5, 1, 3), op(6, 1, 4), op(7, 1, 5), op(9, 1, 1)]));
    assert_eq!(ids(&state.priority_queue_ops(5, 100)), vec![5, 6, 7]);
    assert_eq!(ids(&state.priority_queue_ops(9, 100)), vec![9]);
    assert!(state.priority_queue_ops(8, 100).is_empty());
}

#[test]
fn query_with_zero_budget() {
    let state = ETHState::new(100, queue_of(&[op(1, 1, 0), op(2, 1, 1)]));
    assert_eq!(ids(&state.priority_queue_ops(1, 0)), vec![1]);
}

#[test]
fn query_on_empty_queue() {
    let state = ETHState::default();
    assert!(state.priority_queue_ops(0, 10).is_empty());
    assert_eq!(state.last_ethereum_block(), 0);
}

#[test]
fn query_at_largest_serial_id() {
    let state = ETHState::new(100, queue_of(&[op(u64::MAX, 1, 1)]));
    assert_eq!(ids(&state.priority_queue_ops(u64::MAX, 1)), vec![u64::MAX]);
}

#[test]
fn expiry_boundary() {
    let head = PRIORITY_EXPIRATION + 100;
    assert!(op_is_expired(&op(1, 100, 1), head));
    assert!(!op_is_expired(&op(1, 101, 1), head));
    assert!(!op_is_expired(&op(1, 0, 1), PRIORITY_EXPIRATION - 1));
    assert!(op_is_expired(&op(1, 0, 1), PRIORITY_EXPIRATION));
}

#[test]
fn sift_drops_expired_only() {
    let head = PRIORITY_EXPIRATION + 100;
    let queue = queue_of(&[op(1, 99, 1), op(2, 100, 1), op(3, 101, 1), op(4, head, 1)]);
    let kept = sift_outdated_ops(&queue, head);
    let mut keys: Vec<u64> = kept.keys().copied().collect();
    keys.sort();
    assert_eq!(keys, vec![3, 4]);
}

#[test]
fn merge_overwrites_same_serial_id() {
    let mut queue = queue_of(&[op(1, 10, 1)]);
    merge_ops(&mut queue, &vec![op(1, 20, 7), op(2, 20, 2)]);
    assert_eq!(queue.len(), 2);
    assert_eq!(queue[&1], op(1, 20, 7));
    assert_eq!(queue[&2], op(2, 20, 2));
}

#[test]
fn merging_twice_equals_merging_once() {
    let ops = vec![op(3, 50, 1), op(4, 51, 2), op(3, 52, 3)];
    let mut once = queue_of(&[op(1, 10, 1), op(3, 11, 9)]);
    merge_ops(&mut once, &ops);
    let mut twice = once.clone();
    merge_ops(&mut twice, &ops);
    assert_eq!(once, twice);
    assert_eq!(once[&3], op(3, 52, 3));
}

#[test]
fn after_poll_replaces_whole_state() {
    let head = PRIORITY_EXPIRATION + 200;
    let state = ETHState::new(head - 10, queue_of(&[op(1, 150, 1), op(2, 250, 1)]));
    let next = state.after_poll(head, &vec![op(3, head - 20, 1)]);
    assert_eq!(next.last_ethereum_block(), head);
    let mut keys: Vec<u64> = next.priority_queue().keys().copied().collect();
    keys.sort();
    assert_eq!(keys, vec![2, 3]);
    assert_eq!(state.last_ethereum_block(), head - 10);
    assert_eq!(state.priority_queue().len(), 2);
}

#[test]
fn no_expired_entry_after_poll() {
    let head = 2 * PRIORITY_EXPIRATION;
    let state = ETHState::new(10, queue_of(&[op(1, 5, 1), op(2, PRIORITY_EXPIRATION, 1), op(3, PRIORITY_EXPIRATION + 1, 1)]));
    let next = state.after_poll(head, &vec![op(4, head - 5, 1)]);
    for o in next.priority_queue().values() {
        assert!(o.eth_block + PRIORITY_EXPIRATION > head);
    }
    assert_eq!(next.priority_queue().len(), 2);
}

#[test]
fn restored_keeps_unexpired_ops() {
    let head = PRIORITY_EXPIRATION + 1000;
    let state = ETHState::restored(head, &vec![op(1, 999, 1), op(2, 1000, 1), op(3, 1001, 1)]);
    assert_eq!(state.last_ethereum_block(), head);
    let mut keys: Vec<u64> = state.priority_queue().keys().copied().collect();
    keys.sort();
    assert_eq!(keys, vec![3]);
}
