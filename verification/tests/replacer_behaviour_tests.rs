use crabdb::buffer_pool::eviction::lru_k::lru_k_replacer::LRUKReplacer;
use crabdb::buffer_pool::eviction::replacer::Replacer;

fn size_of(replacer: &LRUKReplacer) -> usize {
    replacer.size().unwrap().num_evictable_frames()
}

fn evict_from(replacer: &mut LRUKReplacer) -> Option<usize> {
    replacer.evict().unwrap().frame_id()
}

#[test]
fn new_replacer_starts_its_clock_at_one() {
    let replacer = LRUKReplacer::new(4, 2);
    assert_eq!(1, replacer.current_timestamp());
    assert_eq!(0, size_of(&replacer));
}

#[test]
fn clock_advances_by_one_per_recorded_access() {
    let mut replacer = LRUKReplacer::new(4, 2);
    let frames = [3usize, 1, 3, 2, 2, 3, 1];
    for (calls, frame) in frames.iter().enumerate() {
        assert_eq!(1 + calls as u64, replacer.current_timestamp());
        assert!(replacer.record_access(*frame).is_ok());
        assert_eq!(2 + calls as u64, replacer.current_timestamp());
    }
}

#[test]
fn clock_is_untouched_by_the_other_operations() {
    let mut replacer = LRUKReplacer::new(4, 2);
    assert!(replacer.record_access(1).is_ok());
    assert!(replacer.record_access(2).is_ok());
    assert_eq!(3, replacer.current_timestamp());
    assert!(replacer.set_evictable(1, true).is_ok());
    assert!(replacer.set_evictable(9, true).is_err());
    assert!(replacer.remove(2).is_err());
    assert_eq!(Some(1), evict_from(&mut replacer));
    assert_eq!(None, evict_from(&mut replacer));
    assert_eq!(0, size_of(&replacer));
    assert_eq!(3, replacer.current_timestamp());
}

#[test]
fn accesses_are_ordered_by_the_time_of_the_call() {
    // With a window of one, every frame has a full window and the victim is
    // the frame whose latest access is oldest.
    let mut replacer = LRUKReplacer::new(5, 1);
    for frame in [4usize, 2, 5, 1] {
        assert!(replacer.record_access(frame).is_ok());
        assert!(replacer.set_evictable(frame, true).is_ok());
    }
    // touching 4 again makes it the most recent
    assert!(replacer.record_access(4).is_ok());
    assert_eq!(Some(2), evict_from(&mut replacer));
    assert_eq!(Some(5), evict_from(&mut replacer));
    assert_eq!(Some(1), evict_from(&mut replacer));
    assert_eq!(Some(4), evict_from(&mut replacer));
    assert_eq!(None, evict_from(&mut replacer));
}

#[test]
fn size_counts_the_evictable_frames() {
    let mut replacer = LRUKReplacer::new(8, 2);
    for frame in 0..6usize {
        assert!(replacer.record_access(frame).is_ok());
        assert_eq!(0, size_of(&replacer));
    }
    let mut expected = 0;
    for frame in [0usize, 2, 4] {
        assert!(replacer.set_evictable(frame, true).is_ok());
        expected += 1;
        assert_eq!(expected, size_of(&replacer));
    }
    // an access does not change a flag
    assert!(replacer.record_access(2).is_ok());
    assert!(replacer.record_access(3).is_ok());
    assert_eq!(3, size_of(&replacer));
    assert!(replacer.remove(4).is_ok());
    assert_eq!(2, size_of(&replacer));
    assert!(replacer.remove(3).is_err());
    assert_eq!(2, size_of(&replacer));
    assert!(replacer.set_evictable(0, false).is_ok());
    assert_eq!(1, size_of(&replacer));
    assert_eq!(Some(2), evict_from(&mut replacer));
    assert_eq!(0, size_of(&replacer));
    // a frame that comes back after its eviction is not evictable
    assert!(replacer.record_access(2).is_ok());
    assert_eq!(0, size_of(&replacer));
}

#[test]
fn setting_a_flag_twice_is_setting_it_once() {
    let mut replacer = LRUKReplacer::new(4, 2);
    assert!(replacer.record_access(1).is_ok());
    assert!(replacer.record_access(2).is_ok());
    assert!(replacer.set_evictable(1, true).is_ok());
    assert_eq!(1, size_of(&replacer));
    assert!(replacer.set_evictable(1, true).is_ok());
    assert_eq!(1, size_of(&replacer));
    assert!(replacer.set_evictable(2, false).is_ok());
    assert!(replacer.set_evictable(2, false).is_ok());
    assert_eq!(1, size_of(&replacer));
    assert!(replacer.set_evictable(1, false).is_ok());
    assert!(replacer.set_evictable(1, false).is_ok());
    assert_eq!(0, size_of(&replacer));
}

#[test]
fn set_evictable_on_an_unknown_frame_fails() {
    let mut replacer = LRUKReplacer::new(4, 2);
    assert!(replacer.record_access(1).is_ok());
    let error = replacer.set_evictable(2, true).unwrap_err();
    assert_eq!("Frame doesn't exist to set_evictable", error.message());
    let error = replacer.set_evictable(2, false).unwrap_err();
    assert_eq!("Frame doesn't exist to set_evictable", error.message());
    assert_eq!(0, size_of(&replacer));
    // the failed calls did not take the frame in
    assert!(replacer.remove(2).is_err());
}

#[test]
fn evict_without_evictable_frames_returns_none() {
    let mut replacer = LRUKReplacer::new(4, 2);
    assert_eq!(None, evict_from(&mut replacer));
    assert_eq!(0, size_of(&replacer));
    assert!(replacer.record_access(1).is_ok());
    assert!(replacer.record_access(2).is_ok());
    assert_eq!(None, evict_from(&mut replacer));
    assert_eq!(0, size_of(&replacer));
    // both frames are still held: their flags can be set
    assert!(replacer.set_evictable(1, true).is_ok());
    assert!(replacer.set_evictable(2, true).is_ok());
    assert_eq!(2, size_of(&replacer));
}

#[test]
fn a_full_replacer_rejects_an_unseen_frame() {
    let mut replacer = LRUKReplacer::new(3, 2);
    assert!(replacer.record_access(10).is_ok());
    assert!(replacer.record_access(20).is_ok());
    assert!(replacer.record_access(30).is_ok());
    let error = replacer.record_access(40).unwrap_err();
    assert_eq!("Frame cannot exceed replacer size", error.message());
    // the rejected access did not advance the clock
    assert_eq!(4, replacer.current_timestamp());
    // the three frames are held as before, and 40 is not
    assert!(replacer.set_evictable(40, true).is_err());
    for frame in [10usize, 20, 30] {
        assert!(replacer.set_evictable(frame, true).is_ok());
    }
    assert_eq!(3, size_of(&replacer));
    assert_eq!(Some(10), evict_from(&mut replacer));
    assert_eq!(Some(20), evict_from(&mut replacer));
    assert_eq!(Some(30), evict_from(&mut replacer));
}

#[test]
fn a_full_replacer_still_records_accesses_to_its_frames() {
    let mut replacer = LRUKReplacer::new(2, 2);
    assert!(replacer.record_access(1).is_ok());
    assert!(replacer.record_access(2).is_ok());
    assert!(replacer.record_access(1).is_ok());
    assert!(replacer.record_access(2).is_ok());
    assert!(replacer.record_access(3).is_err());
    assert_eq!(5, replacer.current_timestamp());
}

#[test]
fn room_comes_back_when_a_frame_leaves() {
    let mut replacer = LRUKReplacer::new(2, 2);
    assert!(replacer.record_access(1).is_ok());
    assert!(replacer.record_access(2).is_ok());
    assert!(replacer.record_access(3).is_err());
    assert!(replacer.set_evictable(1, true).is_ok());
    assert_eq!(Some(1), evict_from(&mut replacer));
    assert!(replacer.record_access(3).is_ok());
    assert!(replacer.record_access(1).is_err());
    assert!(replacer.set_evictable(2, true).is_ok());
    assert!(replacer.remove(2).is_ok());
    assert!(replacer.record_access(1).is_ok());
}

#[test]
fn a_replacer_without_capacity_rejects_every_frame() {
    let mut replacer = LRUKReplacer::new(0, 2);
    assert!(replacer.record_access(1).is_err());
    assert!(replacer.record_access(1).is_err());
    assert_eq!(1, replacer.current_timestamp());
    assert_eq!(None, evict_from(&mut replacer));
}

#[test]
fn scenario_with_a_window_of_two() {
    let mut replacer = LRUKReplacer::new(7, 2);
    for frame in 1..=6usize {
        assert!(replacer.record_access(frame).is_ok());
    }
    for frame in 1..=5usize {
        assert!(replacer.set_evictable(frame, true).is_ok());
    }
    assert!(replacer.set_evictable(6, false).is_ok());
    assert_eq!(5, size_of(&replacer));
    assert!(replacer.record_access(1).is_ok());
    assert_eq!(Some(2), evict_from(&mut replacer));
    assert_eq!(Some(3), evict_from(&mut replacer));
    assert_eq!(Some(4), evict_from(&mut replacer));
    assert_eq!(2, size_of(&replacer));
}

#[test]
fn remove_needs_an_evictable_frame() {
    let mut replacer = LRUKReplacer::new(4, 2);
    assert!(replacer.record_access(1).is_ok());
    assert!(replacer.record_access(2).is_ok());
    assert!(replacer.set_evictable(2, true).is_ok());
    assert_eq!(1, size_of(&replacer));
    let error = replacer.remove(1).unwrap_err();
    assert_eq!("Frame is marked as not evictable", error.message());
    assert_eq!(1, size_of(&replacer));
    assert!(replacer.set_evictable(1, true).is_ok());
    assert_eq!(2, size_of(&replacer));
    assert!(replacer.remove(1).is_ok());
    assert_eq!(1, size_of(&replacer));
    // the frame is gone
    let error = replacer.remove(1).unwrap_err();
    assert_eq!("Frame doesn't exist; invalid remove command", error.message());
    assert_eq!(1, size_of(&replacer));
}

#[test]
fn remove_of_an_unknown_frame_fails() {
    let mut replacer = LRUKReplacer::new(4, 2);
    let error = replacer.remove(7).unwrap_err();
    assert_eq!("Frame doesn't exist; invalid remove command", error.message());
    assert_eq!(0, size_of(&replacer));
}

#[test]
fn a_removed_frame_starts_over_when_it_comes_back() {
    let mut replacer = LRUKReplacer::new(4, 2);
    // 1 gets a full window, is removed, and comes back with a single access
    assert!(replacer.record_access(1).is_ok());
    assert!(replacer.record_access(1).is_ok());
    assert!(replacer.record_access(2).is_ok());
    assert!(replacer.record_access(2).is_ok());
    assert!(replacer.set_evictable(1, true).is_ok());
    assert!(replacer.remove(1).is_ok());
    assert!(replacer.record_access(1).is_ok());
    assert!(replacer.set_evictable(1, true).is_ok());
    assert!(replacer.set_evictable(2, true).is_ok());
    // 1 has an incomplete window now and goes before 2, whose accesses are older
    assert_eq!(Some(1), evict_from(&mut replacer));
    assert_eq!(Some(2), evict_from(&mut replacer));
}

#[test]
fn larger_backward_distance_goes_first() {
    let mut replacer = LRUKReplacer::new(4, 2);
    // accesses: 1 at time 1, 2 at time 2, 2 at time 3, 1 at time 4
    assert!(replacer.record_access(1).is_ok());
    assert!(replacer.record_access(2).is_ok());
    assert!(replacer.record_access(2).is_ok());
    assert!(replacer.record_access(1).is_ok());
    assert!(replacer.set_evictable(1, true).is_ok());
    assert!(replacer.set_evictable(2, true).is_ok());
    // the clock stands at 5: the distance of 1 is 5 - 1 = 4, that of 2 is 5 - 2 = 3
    assert_eq!(5, replacer.current_timestamp());
    assert_eq!(Some(1), evict_from(&mut replacer));
    assert_eq!(Some(2), evict_from(&mut replacer));
}

#[test]
fn distance_is_measured_from_the_oldest_retained_access() {
    let mut replacer = LRUKReplacer::new(4, 2);
    // 1 at times 1, 4 and 5: its window holds 4 and 5; 2 at times 2 and 3
    assert!(replacer.record_access(1).is_ok());
    assert!(replacer.record_access(2).is_ok());
    assert!(replacer.record_access(2).is_ok());
    assert!(replacer.record_access(1).is_ok());
    assert!(replacer.record_access(1).is_ok());
    assert!(replacer.set_evictable(1, true).is_ok());
    assert!(replacer.set_evictable(2, true).is_ok());
    // at clock 6 the distance of 1 is 6 - 4 = 2, that of 2 is 6 - 2 = 4
    assert_eq!(Some(2), evict_from(&mut replacer));
    assert_eq!(Some(1), evict_from(&mut replacer));
}

#[test]
fn incomplete_window_goes_before_any_full_window() {
    let mut replacer = LRUKReplacer::new(4, 3);
    // 1 is accessed three times, long ago; 2 once, just now
    assert!(replacer.record_access(1).is_ok());
    assert!(replacer.record_access(1).is_ok());
    assert!(replacer.record_access(1).is_ok());
    assert!(replacer.record_access(3).is_ok());
    assert!(replacer.record_access(3).is_ok());
    assert!(replacer.record_access(2).is_ok());
    for frame in 1..=3usize {
        assert!(replacer.set_evictable(frame, true).is_ok());
    }
    // 3 and 2 have incomplete windows; 3 was first touched earlier
    assert_eq!(Some(3), evict_from(&mut replacer));
    assert_eq!(Some(2), evict_from(&mut replacer));
    assert_eq!(Some(1), evict_from(&mut replacer));
}

#[test]
fn frames_that_are_not_evictable_are_passed_over() {
    let mut replacer = LRUKReplacer::new(4, 2);
    assert!(replacer.record_access(1).is_ok());
    assert!(replacer.record_access(2).is_ok());
    assert!(replacer.record_access(3).is_ok());
    assert!(replacer.set_evictable(2, true).is_ok());
    assert!(replacer.set_evictable(3, true).is_ok());
    assert_eq!(Some(2), evict_from(&mut replacer));
    assert_eq!(Some(3), evict_from(&mut replacer));
    assert_eq!(None, evict_from(&mut replacer));
    // 1 is still held
    assert!(replacer.set_evictable(1, true).is_ok());
    assert_eq!(Some(1), evict_from(&mut replacer));
}

#[test]
fn the_victim_does_not_depend_on_the_frame_numbers() {
    let mut replacer = LRUKReplacer::new(64, 2);
    // frames are recorded from the largest number down
    for frame in (0..50usize).rev() {
        assert!(replacer.record_access(frame).is_ok());
        assert!(replacer.set_evictable(frame, true).is_ok());
    }
    for frame in (0..50usize).rev() {
        assert_eq!(Some(frame), evict_from(&mut replacer));
    }
    assert_eq!(0, size_of(&replacer));
}
