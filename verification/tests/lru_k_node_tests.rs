use crabdb::buffer_pool::eviction::lru_k::lru_k_node::LRUKNode;

#[test]
fn fresh_node_has_no_history_and_is_not_evictable() {
    let node = LRUKNode::new(3, 42);
    assert_eq!(0, node.history_length());
    assert_eq!(None, node.front_of_history());
    assert!(!node.is_evictable());
}

#[test]
fn window_grows_until_it_is_full() {
    let mut node = LRUKNode::new(3, 1);
    node.record_history(10);
    assert_eq!(1, node.history_length());
    assert_eq!(Some(&10), node.front_of_history());
    node.record_history(20);
    assert_eq!(2, node.history_length());
    assert_eq!(Some(&10), node.front_of_history());
    node.record_history(30);
    assert_eq!(3, node.history_length());
    assert_eq!(Some(&10), node.front_of_history());
}

#[test]
fn window_keeps_the_last_k_accesses() {
    let mut node = LRUKNode::new(3, 1);
    for timestamp in 1..=5u64 {
        node.record_history(timestamp);
    }
    // five accesses into a window of three: 3, 4 and 5 remain
    assert_eq!(3, node.history_length());
    assert_eq!(Some(&3), node.front_of_history());
    node.record_history(6);
    assert_eq!(3, node.history_length());
    assert_eq!(Some(&4), node.front_of_history());
    node.record_history(7);
    assert_eq!(3, node.history_length());
    assert_eq!(Some(&5), node.front_of_history());
}

#[test]
fn window_of_one_keeps_the_latest_access() {
    let mut node = LRUKNode::new(1, 9);
    node.record_history(4);
    assert_eq!(Some(&4), node.front_of_history());
    node.record_history(8);
    assert_eq!(1, node.history_length());
    assert_eq!(Some(&8), node.front_of_history());
}

#[test]
fn window_of_zero_stays_empty() {
    let mut node = LRUKNode::new(0, 9);
    node.record_history(4);
    assert_eq!(0, node.history_length());
    assert_eq!(None, node.front_of_history());
}

#[test]
fn evictable_flag_is_set_and_cleared() {
    let mut node = LRUKNode::new(2, 7);
    node.record_history(1);
    node.set_evictable(true);
    assert!(node.is_evictable());
    node.set_evictable(true);
    assert!(node.is_evictable());
    node.set_evictable(false);
    assert!(!node.is_evictable());
    // the flag does not touch the window
    assert_eq!(1, node.history_length());
    assert_eq!(Some(&1), node.front_of_history());
}
