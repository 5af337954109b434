use mtp_mount::reconnect::{
    waiting_message, Backoff, Reconnect, ReconnectEvent, ReconnectPolicy, ReconnectStep,
};
use std::time::Duration;

/// All pauses of a schedule, in order.
fn collect(mut schedule: Backoff) -> Vec<Duration> {
    let mut delays = Vec::new();
    while let Some(delay) = schedule.next() {
        delays.push(delay);
    }
    delays
}

#[test]
fn default_is_thirty_seconds() {
    assert_eq!(
        ReconnectPolicy::default().timeout(),
        Duration::from_secs(30)
    );
    assert!(!ReconnectPolicy::default().is_disabled());
}

#[test]
fn zero_disables_reconnect() {
    let policy = ReconnectPolicy::from_secs(0);
    assert!(policy.is_disabled());
    assert_eq!(collect(policy.schedule()).len(), 0, "no attempts when disabled");
}

#[test]
fn delays_grow_then_cap() {
    let delays: Vec<Duration> = collect(ReconnectPolicy::from_secs(30).schedule())
        .into_iter()
        .take(6)
        .collect();
    assert_eq!(
        delays,
        vec![
            Duration::from_millis(250),
            Duration::from_millis(500),
            Duration::from_secs(1),
            Duration::from_secs(2),
            Duration::from_secs(2),
            Duration::from_secs(2),
        ]
    );
}

#[test]
fn total_wait_never_exceeds_the_window() {
    for secs in [1, 3, 30, 120] {
        let total: Duration = collect(ReconnectPolicy::from_secs(secs).schedule())
            .into_iter()
            .sum();
        assert_eq!(
            total,
            Duration::from_secs(secs),
            "the schedule should use exactly the window for {secs}s"
        );
    }
}

#[test]
fn short_window_still_gets_an_attempt() {
    let delays = collect(ReconnectPolicy::from_secs(1).schedule());
    assert_eq!(delays.first(), Some(&Duration::from_millis(250)));
    assert!(delays.len() >= 3, "a 1s window should retry a few times");
}

#[test]
fn last_delay_is_clipped_to_the_window() {
    // 3s window: 0.25 + 0.5 + 1 + 1.25 (clipped from 2).
    let delays = collect(ReconnectPolicy::from_secs(3).schedule());
    assert_eq!(delays.last(), Some(&Duration::from_millis(1250)));
}

#[test]
fn the_longest_window_does_not_overflow() {
    let policy = ReconnectPolicy::from_secs(u64::MAX);
    assert_eq!(policy.timeout(), Duration::from_secs(u64::MAX));
    assert_eq!(policy.timeout_secs(), u64::MAX);
    assert_eq!(policy.schedule().next(), Some(Duration::from_millis(250)));
}

#[test]
fn giving_up_says_why() {
    let off = ReconnectPolicy::from_secs(0);
    match Reconnect::new(off, "device ABC").step(ReconnectEvent::Lost) {
        ReconnectStep::GiveUp(reason) => assert_eq!(
            reason,
            "device ABC disconnected and reconnect is off (--reconnect-timeout 0)"
        ),
        _ => panic!("there is nothing to wait for"),
    }

    let short = ReconnectPolicy::from_secs(1);
    let mut wait = Reconnect::new(short, "the device");
    let mut step = wait.step(ReconnectEvent::Lost);
    let mut pauses = 0;
    while let ReconnectStep::Pause(_) = step {
        pauses += 1;
        step = wait.step(ReconnectEvent::Paused { unplugged: true });
    }
    assert_eq!(pauses, 3);
    match step {
        ReconnectStep::GiveUp(reason) => assert_eq!(reason, "the device didn't come back within 1s"),
        _ => panic!("the window is used up"),
    }
    assert_eq!(
        waiting_message("the device", &short),
        "the device disconnected, waiting up to 1s for it to come back..."
    );
}

#[test]
fn a_device_that_comes_back_is_opened_then_taken_over() {
    let mut wait = Reconnect::new(ReconnectPolicy::from_secs(30), "the device");
    match wait.step(ReconnectEvent::Lost) {
        ReconnectStep::Pause(pause) => assert_eq!(pause, Duration::from_millis(250)),
        _ => panic!("the first attempt comes after a pause"),
    }
    assert!(matches!(
        wait.step(ReconnectEvent::Paused { unplugged: false }),
        ReconnectStep::Open
    ));
    match wait.step(ReconnectEvent::Opened(false)) {
        ReconnectStep::Pause(pause) => assert_eq!(pause, Duration::from_millis(500)),
        _ => panic!("a failed open leads to the next pause"),
    }
    assert!(matches!(wait.step(ReconnectEvent::Opened(true)), ReconnectStep::Resume));
    match wait.step(ReconnectEvent::Resumed(false)) {
        ReconnectStep::Pause(pause) => assert_eq!(pause, Duration::from_millis(1000)),
        _ => panic!("a device that cannot be taken over leads to the next pause"),
    }
    assert!(matches!(wait.step(ReconnectEvent::Resumed(true)), ReconnectStep::Back));
}
