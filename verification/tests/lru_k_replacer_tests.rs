use crabdb::buffer_pool::eviction::lru_k::lru_k_replacer::LRUKReplacer;
use crabdb::buffer_pool::eviction::replacer::Replacer;

#[test]
pub fn test_lru_size_empty() {
    let replacer = LRUKReplacer::new(6, 2);
    assert_eq!(0, replacer.size().unwrap().num_evictable_frames());
}

#[test]
pub fn test_lru_record_access_set_evictable_basic() {
    let mut replacer: LRUKReplacer = LRUKReplacer::new(7, 2);
    assert!(replacer.record_access(1).is_ok());
    assert!(replacer.record_access(2).is_ok());
    assert!(replacer.record_access(3).is_ok());
    // nothing is evictable yet
    assert_eq!(0, replacer.size().unwrap().num_evictable_frames());
    assert!(replacer.set_evictable(1, true).is_ok());
    assert!(replacer.set_evictable(2, true).is_ok());
    assert_eq!(2, replacer.size().unwrap().num_evictable_frames());
    assert!(replacer.set_evictable(2, false).is_ok());
    assert_eq!(1, replacer.size().unwrap().num_evictable_frames());
    assert!(replacer.set_evictable(1, false).is_ok());
    assert_eq!(0, replacer.size().unwrap().num_evictable_frames());
}

#[test]
pub fn test_lru_record_remove_basic() {
    let mut replacer: LRUKReplacer = LRUKReplacer::new(7, 2);
    assert!(replacer.record_access(1).is_ok());

    let rm = replacer.remove(1);
    match rm {
        Ok(_) => panic!("Test should have thrown an error!"),
        Err(e) => assert_eq!("Frame is marked as not evictable", e.message()),
    }

    assert!(replacer.set_evictable(1, true).is_ok());
    assert!(replacer.remove(1).is_ok());
}

#[test]
pub fn test_lru_k_cmu_test_case() {
    let mut replacer: LRUKReplacer = LRUKReplacer::new(7, 2);

    // Scenario: add six elements to the replacer. We have [1,2,3,4,5]. Frame 6 is non-evictable.
    assert!(replacer.record_access(1).is_ok());
    assert!(replacer.record_access(2).is_ok());
    assert!(replacer.record_access(3).is_ok());
    assert!(replacer.record_access(4).is_ok());
    assert!(replacer.record_access(5).is_ok());
    assert!(replacer.record_access(6).is_ok());
    assert!(replacer.set_evictable(1, true).is_ok());
    assert!(replacer.set_evictable(2, true).is_ok());
    assert!(replacer.set_evictable(3, true).is_ok());
    assert!(replacer.set_evictable(4, true).is_ok());
    assert!(replacer.set_evictable(5, true).is_ok());
    assert!(replacer.set_evictable(6, false).is_ok());
    assert_eq!(5, replacer.size().unwrap().num_evictable_frames());

    // Scenario: Insert access history for frame 1. Now frame 1 has two access histories.
    // All other frames have max backward k-dist. The order of eviction is [2,3,4,5,1].
    replacer.record_access(1).unwrap();

    // Scenario: Evict three pages from the replacer. Elements with max k-distance should be
    // popped first based on LRU.
    let value = replacer.evict().unwrap().frame_id();
    assert_eq!(Some(2), value);
    let value = replacer.evict().unwrap().frame_id();
    assert_eq!(Some(3), value);
    let value = replacer.evict().unwrap().frame_id();
    assert_eq!(Some(4), value);
    assert_eq!(replacer.size().unwrap().num_evictable_frames(), 2);

    // Scenario: Now replacer has frames [5,1]. Insert new frames 3, 4, and update access
    // history for 5. We should end with [3,1,5,4]
    assert!(replacer.record_access(3).is_ok());
    assert!(replacer.record_access(4).is_ok());
    assert!(replacer.record_access(5).is_ok());
    assert!(replacer.record_access(4).is_ok());
    assert!(replacer.set_evictable(3, true).is_ok());
    assert!(replacer.set_evictable(4, true).is_ok());
    assert_eq!(4, replacer.size().unwrap().num_evictable_frames());

    // Scenario: continue looking for victims. We expect 3 to be evicted next.
    let value = replacer.evict().unwrap().frame_id();
    assert_eq!(Some(3), value);
    assert_eq!(3, replacer.size().unwrap().num_evictable_frames());

    // Set 6 to be evictable. 6 Should be evicted next since it has max backward k-dist.
    assert!(replacer.set_evictable(6, true).is_ok());
    assert_eq!(4, replacer.size().unwrap().num_evictable_frames());
    let value = replacer.evict().unwrap().frame_id();
    assert_eq!(Some(6), value);
    assert_eq!(3, replacer.size().unwrap().num_evictable_frames());

    // Now we have [1,5,4]. Continue looking for victims.
    assert!(replacer.set_evictable(1, false).is_ok());
    assert_eq!(2, replacer.size().unwrap().num_evictable_frames());
    let value = replacer.evict().unwrap().frame_id();
    assert_eq!(Some(5), value);
    assert_eq!(1, replacer.size().unwrap().num_evictable_frames());

    // Update access history for 1. Now we have [4,1]. Next victim is 4.
    assert!(replacer.record_access(1).is_ok());
    assert!(replacer.record_access(1).is_ok());
    assert!(replacer.set_evictable(1, true).is_ok());
    assert_eq!(2, replacer.size().unwrap().num_evictable_frames());
    let value = replacer.evict().unwrap().frame_id();
    assert_eq!(Some(4), value);

    assert_eq!(1, replacer.size().unwrap().num_evictable_frames());
    let value = replacer.evict().unwrap().frame_id();
    assert_eq!(Some(1), value);
    assert_eq!(0, replacer.size().unwrap().num_evictable_frames());

    // These operations should not modify size
    assert_eq!(None, replacer.evict().unwrap().frame_id());
    assert_eq!(0, replacer.size().unwrap().num_evictable_frames());

    println!("{:?}", replacer.remove(1));
    assert_eq!(
        "Frame doesn't exist; invalid remove command",
        replacer.remove(1).unwrap_err().message()
    );

    assert_eq!(0, replacer.size().unwrap().num_evictable_frames());
}
