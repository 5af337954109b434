use mtp_mount::device_error::DeviceError;
use mtp_mount::fill::FillTracker;
use mtp_mount::fs::state::MountState;

/// A tracker with empty caches of eight bytes.
fn tracker(fills: &[u64]) -> FillTracker {
    let mut tracker = FillTracker::default();
    for fill in fills {
        tracker.open(*fill, 8);
    }
    tracker
}

#[test]
fn an_empty_tracker_stops_immediately() {
    let mut tracker = FillTracker::default();
    assert_eq!(tracker.stop_and_wait(false), Some(true));
}

#[test]
fn stopping_asks_every_live_fill_to_cancel() {
    let mut tracker = tracker(&[1, 2, 3]);
    assert!(tracker.register(1));
    assert!(tracker.register(2));
    assert_eq!(tracker.live_count(), 2);

    assert_eq!(tracker.stop_and_wait(false), None);
    assert!(tracker.cache(1).unwrap().stop_requested());
    assert!(tracker.cache(2).unwrap().stop_requested());
    assert!(!tracker.cache(3).unwrap().stop_requested(), "nothing fills it");

    tracker.finished(1);
    assert_eq!(tracker.stop_and_wait(false), None);
    tracker.finished(2);
    assert_eq!(tracker.stop_and_wait(false), Some(true));
    assert_eq!(tracker.live_count(), 0);
}

#[test]
fn a_fill_that_never_answers_times_out_instead_of_blocking_the_unmount() {
    let mut tracker = tracker(&[7]);
    assert!(tracker.register(7));

    assert_eq!(tracker.stop_and_wait(true), Some(false));
    assert!(
        tracker.cache(7).unwrap().stop_requested(),
        "it was still asked to stop"
    );
}

#[test]
fn no_new_fill_starts_once_teardown_has_begun() {
    let mut tracker = tracker(&[1]);
    assert_eq!(tracker.stop_and_wait(false), Some(true));
    assert!(
        !tracker.register(1),
        "a fill registered after teardown would be one nobody waits for"
    );
    assert_eq!(tracker.live_count(), 0);
}

#[test]
fn a_cache_stays_while_its_fill_is_live() {
    let mut tracker = tracker(&[1, 2]);
    assert!(!tracker.register(9), "there is no such cache");
    assert!(tracker.register(1));
    tracker.close(1);
    tracker.close(2);
    assert!(tracker.cache(1).is_some());
    assert!(tracker.cache(2).is_none());
    tracker.finished(1);
    tracker.close(1);
    assert!(tracker.cache(1).is_none());
    assert!(tracker.cache_mut(1).is_none());
}

#[test]
fn a_cache_that_is_there_is_not_replaced() {
    let mut tracker = tracker(&[1]);
    tracker.cache_mut(1).unwrap().request_stop();
    tracker.open(1, 99);
    assert!(tracker.cache(1).unwrap().stop_requested());
    assert_eq!(tracker.cache(1).unwrap().total_size(), 8);
}

#[test]
fn one_cache_gets_one_download() {
    let mut tracker = tracker(&[3]);
    assert!(tracker.begin_fill(3));
    assert!(tracker.cache(3).unwrap().is_filling());
    assert!(!tracker.begin_fill(3));
    assert!(!tracker.begin_fill(4), "there is no such cache");
    assert_eq!(tracker.live_count(), 1);
}

#[test]
fn teardown_releases_readers_instead_of_starting_a_download() {
    let mut tracker = tracker(&[3]);
    tracker.stop_and_wait(false);
    assert!(!tracker.begin_fill(3));
    let found = tracker.cache(3).unwrap().wait_and_read(0, 1).unwrap();
    assert_eq!(
        found.unwrap_err().message(),
        "the mount is going away, so no new whole-object download was started"
    );
    assert_eq!(tracker.live_count(), 0);
}

#[test]
fn a_download_that_does_not_open_fails_its_readers() {
    let mut tracker = tracker(&[3]);
    assert!(tracker.begin_fill(3));
    tracker.fill_not_opened(3, &DeviceError::DeviceReset);
    assert_eq!(tracker.live_count(), 0);
    let found = tracker.cache(3).unwrap().wait_and_read(0, 1).unwrap();
    let failure = found.unwrap_err();
    assert!(failure.is_link_lost());
    assert_eq!(
        failure.message(),
        "device was reset to recover from a wedged cancel; reopen to continue"
    );
}

#[test]
fn the_end_of_a_fill_drops_a_cache_that_nothing_holds_open() {
    let mut tracker = tracker(&[1]);
    let mut state: MountState<u8> = MountState::new(false, 0);
    state.read_cache.insert(5, 1);
    state.fh_to_inode.insert(9, 5);
    assert!(tracker.register(1));
    state.fill_over(&mut tracker, 1, 5);
    assert!(state.read_cache.contains_key(&5));
    state.fh_to_inode.remove(&9);
    state.fill_over(&mut tracker, 1, 5);
    assert!(!state.read_cache.contains_key(&5));
}
