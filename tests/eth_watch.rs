use std::collections::HashMap;

use eth_watcher::eth_watch::{contains_str, is_rate_limit_text, BlockRange, EthWatch, PollPlan, WatcherMode};
use eth_watcher::params::RATE_LIMIT_DELAY_SECS;
use eth_watcher::types::PriorityOp;

fn op(serial_id: u64, eth_block: u64, chunks: usize) -> PriorityOp {
    PriorityOp { serial_id, eth_block, chunks }
}

fn range(from: u64, to: u64) -> Option<BlockRange> {
    Some(BlockRange { from, to })
}

#[test]
fn new_watcher_starts_empty_and_working() {
    let watch = EthWatch::new("client", 10);
    assert_eq!(*watch.client(), "client");
    assert_eq!(watch.eth_state().last_ethereum_block(), 0);
    assert!(watch.eth_state().priority_queue().is_empty());
    assert_eq!(watch.mode(), WatcherMode::Working);
    assert_eq!(watch.number_of_confirmations_for_event(), 10);
}

#[test]
fn restore_then_poll_ranges() {
    let mut watch = EthWatch::new((), 10);
    let restore = watch.restore_plan(140);
    assert_eq!(restore, PollPlan { head: 140, accepted: range(0, 130), unconfirmed: range(131, 140) });
    watch.restore_state(140, &vec![]);
    assert_eq!(watch.eth_state().last_ethereum_block(), 140);
    let plan = watch.plan_poll(145).unwrap();
    assert_eq!(plan, PollPlan { head: 145, accepted: range(131, 135), unconfirmed: range(136, 145) });
}

#[test]
fn restore_window_reaches_back_by_expiration() {
    let watch = EthWatch::new((), 10);
    let plan = watch.restore_plan(100_000);
    assert_eq!(plan.accepted, range(100_000 - 10 - 35_000, 100_000 - 10));
}

#[test]
fn poll_without_new_head_is_noop() {
    let mut watch = EthWatch::new((), 10);
    watch.restore_state(140, &vec![]);
    assert_eq!(watch.plan_poll(140), None);
    assert_eq!(watch.plan_poll(120), None);
}

#[test]
fn poll_below_confirmation_depth() {
    let watch = EthWatch::new((), 10);
    let plan = watch.plan_poll(5).unwrap();
    assert_eq!(plan.accepted, None);
    assert_eq!(plan.unconfirmed, range(1, 5));
}

#[test]
fn zero_confirmations_has_no_unconfirmed_range() {
    let watch = EthWatch::new((), 0);
    let plan = watch.plan_poll(u64::MAX).unwrap();
    assert_eq!(plan.unconfirmed, None);
    assert_eq!(plan.accepted, range(1, u64::MAX));
}

#[test]
fn successive_polls_cover_each_block_once() {
    let mut watch = EthWatch::new((), 10);
    let mut covered: Vec<u64> = Vec::new();
    for head in [3u64, 3, 25, 24, 40, 41, 100] {
        if let Some(plan) = watch.plan_poll(head) {
            if let Some(r) = plan.accepted {
                covered.extend(r.from..=r.to);
            }
            watch.complete_poll(head, &vec![]);
        }
    }
    assert_eq!(covered, (1..=90).collect::<Vec<u64>>());
}

#[test]
fn complete_poll_merges_accepted_ops() {
    let mut watch = EthWatch::new((), 10);
    watch.complete_poll(50, &vec![op(0, 20, 2), op(1, 30, 2)]);
    assert_eq!(watch.eth_state().last_ethereum_block(), 50);
    let got: Vec<u64> = watch.get_priority_queue_ops(0, 4).iter().map(|o| o.serial_id).collect();
    assert_eq!(got, vec![0, 1]);
    watch.complete_poll(40, &vec![op(2, 35, 1)]);
    assert_eq!(watch.eth_state().last_ethereum_block(), 50);
    assert_eq!(watch.eth_state().priority_queue().len(), 2);
}

#[test]
fn rate_limit_starts_backoff() {
    let mut watch = EthWatch::new((), 10);
    watch.complete_poll(50, &vec![op(0, 20, 2)]);
    watch.poll_failed("Error: 429 Too Many Requests from provider", 1000);
    assert_eq!(watch.mode(), WatcherMode::Backoff(1000 + RATE_LIMIT_DELAY_SECS));
    assert_eq!(watch.eth_state().last_ethereum_block(), 50);
    assert_eq!(watch.eth_state().priority_queue().len(), 1);
}

#[test]
fn other_error_keeps_working() {
    let mut watch = EthWatch::new((), 10);
    watch.poll_failed("connection reset by peer", 1000);
    assert_eq!(watch.mode(), WatcherMode::Working);
}

#[test]
fn backoff_saturates_at_largest_instant() {
    let mut watch = EthWatch::new((), 10);
    watch.poll_failed("429 Too Many Requests", u64::MAX - 1);
    assert_eq!(watch.mode(), WatcherMode::Backoff(u64::MAX));
}

#[test]
fn backoff_suppresses_polls_until_it_ends() {
    let mut watch = EthWatch::new((), 10);
    watch.poll_failed("429 Too Many Requests", 100);
    assert!(!watch.start_poll(100));
    assert!(!watch.start_poll(129));
    assert_eq!(watch.mode(), WatcherMode::Backoff(130));
    assert!(watch.start_poll(130));
    assert_eq!(watch.mode(), WatcherMode::Working);
    assert!(watch.start_poll(131));
}

#[test]
fn rate_limit_detection() {
    assert!(is_rate_limit_text("429 Too Many Requests"));
    assert!(is_rate_limit_text("http error: 429 Too Many Requests (retry later)"));
    assert!(!is_rate_limit_text("429 Too Many Request"));
    assert!(!is_rate_limit_text("too many requests"));
    assert!(!is_rate_limit_text(""));
}

#[test]
fn substring_search() {
    assert!(contains_str("abc", ""));
    assert!(contains_str("", ""));
    assert!(contains_str("abcabd", "abd"));
    assert!(!contains_str("ab", "abc"));
    assert!(contains_str("héllo", "él"));
}

#[test]
fn queue_query_through_watcher() {
    let mut watch = EthWatch::new((), 0);
    let ops = vec![op(5, 1, 3), op(6, 1, 4), op(7, 1, 5), op(9, 1, 1)];
    watch.complete_poll(10, &ops);
    let got: Vec<u64> = watch.get_priority_queue_ops(5, 10).iter().map(|o| o.serial_id).collect();
    assert_eq!(got, vec![5, 6]);
    let _unused: HashMap<u64, PriorityOp> = HashMap::new();
}
