use mtp_mount::hints::{indent, open_failure_hint, BUSY_HINT, PERMISSION_HINT};

#[test]
fn busy_gets_the_release_the_device_remedy() {
    // What a USB `EBUSY` / `kIOReturnExclusiveAccess` is mapped to when another process (gvfs,
    // ptpcamerad) holds the interface.
    let e = mtp_rs::Error::ExclusiveAccess;
    assert!(e.is_exclusive_access(), "precondition: {e}");
    let hint = open_failure_hint(&e).expect("busy needs a hint");
    assert!(hint.contains("gio mount -l"));
    assert!(hint.contains("gvfs-mtp-volume-monitor"));
    assert!(hint.contains("ptpcamerad"));
    assert_eq!(hint, BUSY_HINT);
}

#[test]
fn permission_denied_points_at_udev() {
    let e = mtp_rs::Error::PermissionDenied;
    assert!(e.is_permission_denied(), "precondition: {e}");
    let hint = open_failure_hint(&e).expect("permission denied needs a hint");
    assert!(hint.contains("udev"));
    assert_eq!(hint, PERMISSION_HINT);
}

#[test]
fn other_failures_get_no_hint() {
    let e = mtp_rs::Error::NotFound;
    assert!(!e.is_exclusive_access());
    assert!(!e.is_permission_denied());
    assert!(open_failure_hint(&e).is_none());
}

#[test]
fn indent_prefixes_content_lines_only() {
    assert_eq!(indent("a\n\nb", "  "), "  a\n\n  b");
}

#[test]
fn indent_takes_both_line_endings() {
    assert_eq!(indent("a\r\nb\n", "> "), "> a\n> b");
    assert_eq!(indent("a\rb", "> "), "> a\rb");
    assert_eq!(indent("a\r", "> "), "> a\r");
    assert_eq!(indent("", "> "), "");
    assert_eq!(indent("\n", "> "), "");
}
