use mtp_mount::shutdown::Shutdown;
use std::sync::{Arc, Mutex};

#[test]
fn starts_quiet() {
    let shutdown = Shutdown::default();
    assert!(!shutdown.is_requested());
    assert_eq!(shutdown.reason(), None);
    assert_eq!(shutdown.wait_timeout(true), Some(None));
}

#[test]
fn keeps_the_first_reason() {
    let mut shutdown = Shutdown::default();
    shutdown.request("device gone");
    shutdown.request("something else");
    assert!(shutdown.is_requested());
    assert_eq!(shutdown.reason().as_deref(), Some("device gone"));
}

#[test]
fn only_the_first_request_counts_as_one() {
    let mut shutdown = Shutdown::default();
    assert!(shutdown.request("device gone"));
    assert!(!shutdown.request("something else"));
}

#[test]
fn wakes_a_waiter() {
    let shutdown = Arc::new(Mutex::new(Shutdown::default()));
    let signaller = Arc::clone(&shutdown);
    assert_eq!(shutdown.lock().unwrap().wait_timeout(false), None);
    signaller.lock().unwrap().request("device gone");
    assert_eq!(
        shutdown.lock().unwrap().wait_timeout(false).unwrap().as_deref(),
        Some("device gone")
    );
}
