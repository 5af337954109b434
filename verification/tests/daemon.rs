use mtp_mount::daemon::facts::{usable_serial, DeviceIdent};
use mtp_mount::daemon::paths::{device_dir_name, resolve_mount_root, MAX_DIR_NAME};
use mtp_mount::daemon::supervisor::{
    unmount_step, ActiveMount, Command, DeviceChange, MountAction, MountEvent, Supervisor,
    SupervisorConfig, SupervisorStep, TakedownAction, TakedownEvent,
};
use mtp_mount::daemon::unmount::{
    after_sweep_unmount, clean_stale_mounts, force_unmount, is_mountpoint, wait_until_unmounted,
    PathState, SweepAction, UnmountAction, UnmountEvent,
};
use mtp_mount::device_error::DeviceError;
use mtp_mount::hints::BUSY_HINT;
use mtp_mount::spool::CacheConvention;

#[test]
fn runtime_dir_wins_when_set() {
    let root = resolve_mount_root(
        None,
        Some("/run/user/1000"),
        Some("/cache"),
        Some("/home/dave"),
        CacheConvention::Xdg,
    )
    .unwrap();
    assert_eq!(root, "/run/user/1000/mtp");
}

#[test]
fn override_wins_over_the_runtime_dir() {
    let root = resolve_mount_root(
        Some("/mnt/phones"),
        Some("/run/user/1000"),
        None,
        None,
        CacheConvention::Xdg,
    )
    .unwrap();
    assert_eq!(root, "/mnt/phones");
}

#[test]
fn no_runtime_dir_falls_back_to_the_cache_dir_never_tmp() {
    let root = resolve_mount_root(
        None,
        None,
        Some("/cache"),
        Some("/home/dave"),
        CacheConvention::Xdg,
    )
    .unwrap();
    assert_eq!(root, "/cache/mtp-mount/mounts");

    let root = resolve_mount_root(
        None,
        Some(""),
        None,
        Some("/home/dave"),
        CacheConvention::Xdg,
    )
    .unwrap();
    assert_eq!(root, "/home/dave/.cache/mtp-mount/mounts");

    let root = resolve_mount_root(
        None,
        None,
        Some("/cache"),
        Some("/Users/dave"),
        CacheConvention::MacOs,
    )
    .unwrap();
    assert_eq!(
        root,
        "/Users/dave/Library/Caches/mtp-mount/mounts"
    );
}

#[test]
fn nothing_to_go_on_names_the_flag() {
    let err = resolve_mount_root(None, None, None, None, CacheConvention::Xdg)
        .unwrap_err()
        .message();
    assert!(err.contains("--mount-root"), "{err}");
}

#[test]
fn serial_names_the_directory() {
    assert_eq!(
        device_dir_name(Some("2A31FDH200ABC"), 0x18d1, 0x4ee1, 3),
        "2A31FDH200ABC"
    );
    assert_eq!(
        device_dir_name(Some("  ABC123  "), 0x18d1, 0x4ee1, 3),
        "ABC123"
    );
}

#[test]
fn no_serial_falls_back_to_the_usb_address() {
    assert_eq!(device_dir_name(None, 0x18d1, 0x4ee1, 3), "usb-18d1-4ee1-3");
    assert_eq!(
        device_dir_name(Some("   "), 0x04e8, 0x6860, 42),
        "usb-04e8-6860-42"
    );
}

#[test]
fn a_serial_can_never_escape_the_mount_root() {
    // A device-controlled string ends up as a path component, so anything
    // that could climb out of the root has to be neutered.
    assert_eq!(device_dir_name(Some("../../etc"), 0x1, 0x2, 3), ".._.._etc");
    assert_eq!(device_dir_name(Some("a/b"), 0x1, 0x2, 3), "a_b");
    assert_eq!(device_dir_name(Some(".."), 0x1, 0x2, 3), "usb-0001-0002-3");
    assert_eq!(device_dir_name(Some("."), 0x1, 0x2, 3), "usb-0001-0002-3");
}

#[test]
fn an_absurd_serial_is_truncated() {
    let name = device_dir_name(Some(&"x".repeat(500)), 0x1, 0x2, 3);
    assert_eq!(name.len(), MAX_DIR_NAME);
}

#[test]
fn a_root_that_cannot_be_found_names_what_is_unset() {
    let err = resolve_mount_root(None, None, Some("/c"), None, CacheConvention::MacOs)
        .unwrap_err()
        .message();
    assert_eq!(
        err,
        "can't find a directory to mount devices under: neither $XDG_RUNTIME_DIR nor $HOME is \
         set. Pass --mount-root to say where mounts should appear."
    );
    let err = resolve_mount_root(None, None, None, None, CacheConvention::Xdg)
        .unwrap_err()
        .message();
    assert!(err.contains("none of $XDG_RUNTIME_DIR, $XDG_CACHE_HOME, or $HOME is set"));
}

#[test]
fn a_serial_is_used_without_the_blanks_around_it() {
    assert_eq!(usable_serial(Some("\u{a0} S1\t")), Some("S1".to_string()));
    assert_eq!(usable_serial(Some("\n")), None);
    assert_eq!(usable_serial(None), None);
}

fn ident(key: &str) -> DeviceIdent {
    DeviceIdent {
        key: key.to_string(),
        label: format!("device {key}"),
        serial: Some(key.to_string()),
    }
}

fn supervisor() -> Supervisor {
    Supervisor::new(SupervisorConfig::new("/run/mtp".into(), "/spool".into(), false))
}

fn arrival(key: &str) -> Command {
    Command::Device(DeviceChange::Arrived(ident(key)))
}

#[test]
fn a_departure_for_a_device_that_was_never_mounted_is_ignored() {
    let mut supervisor = supervisor();
    assert!(matches!(
        supervisor.unmount("ABC123", "test"),
        SupervisorStep::NothingMounted
    ));
    assert!(supervisor.mounted_keys().is_empty());
}

#[test]
fn stopping_with_nothing_mounted_returns() {
    let mut supervisor = supervisor();
    assert!(matches!(
        supervisor.handle(Command::Stop("test".into())),
        SupervisorStep::Stop(reason) if reason == "test"
    ));
    assert!(supervisor.unmount_all().is_empty());
}

#[test]
fn a_device_that_cannot_be_opened_leaves_no_directory_behind() {
    let mut supervisor = supervisor();
    let device = match supervisor.handle(arrival("ABC123")) {
        SupervisorStep::Mount { ident, path } => {
            assert_eq!(path, "/run/mtp/ABC123");
            ident
        }
        other => panic!("{other:?}"),
    };
    let made = supervisor.mount_step(&device, MountEvent::PointCreated(Ok(())));
    assert!(matches!(made, MountAction::Open));
    match supervisor.mount_step(&device, MountEvent::Opened(Err(DeviceError::ExclusiveAccess))) {
        MountAction::Abandon { remove_point, complaint, hint } => {
            assert!(remove_point);
            assert_eq!(
                complaint,
                "Can't open device ABC123: device is held exclusively by another process"
            );
            assert_eq!(hint, Some(BUSY_HINT));
        }
        other => panic!("{other:?}"),
    }
    assert!(supervisor.mounted_keys().is_empty());
}

fn mount(supervisor: &mut Supervisor, key: &str) {
    let device = ident(key);
    supervisor.mount_step(&device, MountEvent::PointCreated(Ok(())));
    let opened = supervisor.mount_step(&device, MountEvent::Opened(Ok(())));
    assert!(matches!(opened, MountAction::Mount));
    let mounted = supervisor.mount_step(&device, MountEvent::Mounted(Ok(())));
    assert!(matches!(mounted, MountAction::Done));
}

#[test]
fn a_departure_takes_down_the_mount_of_its_arrival() {
    let mut supervisor = supervisor();
    mount(&mut supervisor, "B");
    mount(&mut supervisor, "A");
    assert_eq!(supervisor.mounted_keys(), vec!["A", "B"]);
    assert!(matches!(
        supervisor.handle(arrival("B")),
        SupervisorStep::AlreadyMounted { label, path } if label == "device B" && path == "/run/mtp/B"
    ));
    match supervisor.handle(Command::Device(DeviceChange::Left(ident("B")))) {
        SupervisorStep::Unmount { mount, reason } => {
            assert_eq!(mount.path, "/run/mtp/B");
            assert_eq!(mount.label, "device B");
            assert_eq!(reason, "the device was unplugged");
        }
        other => panic!("{other:?}"),
    }
    let gave_up = Command::GiveUp {
        key: "A".into(),
        reason: "device gone".into(),
    };
    assert!(matches!(
        supervisor.handle(gave_up),
        SupervisorStep::Unmount { mount, reason } if mount.key == "A" && reason == "device gone"
    ));
    assert!(supervisor.mounted_keys().is_empty());
}

#[test]
fn failures_before_and_after_the_open_are_worded_apart() {
    let mut supervisor = supervisor();
    let device = ident("A");
    match supervisor.mount_step(&device, MountEvent::PointCreated(Err("denied".into()))) {
        MountAction::Abandon { remove_point, complaint, hint } => {
            assert!(!remove_point);
            assert_eq!(complaint, "Can't create the mount point /run/mtp/A: denied");
            assert_eq!(hint, None);
        }
        other => panic!("{other:?}"),
    }
    match supervisor.mount_step(&device, MountEvent::Mounted(Err("no fuse".into()))) {
        MountAction::Abandon { remove_point, complaint, .. } => {
            assert!(remove_point);
            assert_eq!(complaint, "Can't mount device A at /run/mtp/A: no fuse");
        }
        other => panic!("{other:?}"),
    }
    assert!(supervisor.mounted_keys().is_empty());
}

#[test]
fn the_end_takes_every_mount_down() {
    let mut supervisor = supervisor();
    mount(&mut supervisor, "A");
    mount(&mut supervisor, "B");
    let keys: Vec<String> = supervisor.unmount_all().into_iter().map(|m| m.key).collect();
    assert_eq!(keys, vec!["A", "B"]);
    assert!(supervisor.mounted_keys().is_empty());
}

#[test]
fn daemon_mounts_never_wait_for_a_device() {
    let supervisor = supervisor();
    let config = supervisor.config().mount_config();
    assert!(config.reconnect.is_disabled());
    assert_eq!(config.spool_dir, "/spool");
    assert_eq!(config.full_download_limit, 4 * 1024 * 1024 * 1024);
    assert_eq!(supervisor.config().unmount_timeout_secs, 10);
}

fn taken_down() -> ActiveMount {
    ActiveMount {
        key: "A".into(),
        label: "Phone".into(),
        path: "/run/mtp/A".into(),
    }
}

#[test]
fn a_takedown_detaches_then_stops_the_downloads_then_removes_the_directory() {
    let mount = taken_down();
    assert!(matches!(
        unmount_step(&mount, TakedownEvent::Begin, 10),
        TakedownAction::Detach
    ));
    assert!(matches!(
        unmount_step(&mount, TakedownEvent::Detached(Ok(())), 10),
        TakedownAction::StopFills { complaint: None, secs: 5 }
    ));
    assert!(matches!(
        unmount_step(&mount, TakedownEvent::FillsStopped(true), 10),
        TakedownAction::Wait { complaint: None, secs: 10 }
    ));
    assert!(matches!(
        unmount_step(&mount, TakedownEvent::Waited { gone: true }, 10),
        TakedownAction::Remove
    ));
    assert!(matches!(
        unmount_step(&mount, TakedownEvent::Removed(Ok(())), 10),
        TakedownAction::Done { complaint: None }
    ));
}

#[test]
fn a_takedown_goes_on_whatever_fails() {
    let mount = taken_down();
    match unmount_step(&mount, TakedownEvent::Detached(Err("busy".into())), 10) {
        TakedownAction::StopFills { complaint, secs: 5 } => {
            assert_eq!(complaint.unwrap(), "Can't unmount /run/mtp/A: busy");
        }
        other => panic!("{other:?}"),
    }
    match unmount_step(&mount, TakedownEvent::FillsStopped(false), 10) {
        TakedownAction::Wait { complaint, secs: 10 } => assert_eq!(
            complaint.unwrap(),
            "A download was still finishing when we stopped waiting; \
             the device may need a moment before it answers again."
        ),
        other => panic!("{other:?}"),
    }
    match unmount_step(&mount, TakedownEvent::Removed(Err("not empty".into())), 10) {
        TakedownAction::Done { complaint } => assert_eq!(
            complaint.unwrap(),
            "Unmounted Phone, but /run/mtp/A is still there: not empty"
        ),
        other => panic!("{other:?}"),
    }
}

#[test]
fn a_mount_that_stays_is_complained_about() {
    match unmount_step(&taken_down(), TakedownEvent::Waited { gone: false }, 10) {
        TakedownAction::Done { complaint } => assert_eq!(
            complaint.unwrap(),
            "/run/mtp/A is STILL mounted 10s after unmounting it. Anything touching that path may \
             hang; unmount it by hand with `fusermount3 -u -z /run/mtp/A`."
        ),
        other => panic!("{other:?}"),
    }
}

#[test]
fn a_second_mount_of_a_key_takes_the_place_of_the_first() {
    let mut supervisor = supervisor();
    mount(&mut supervisor, "A");
    mount(&mut supervisor, "A");
    assert_eq!(supervisor.mounted_keys(), vec!["A"]);
}

#[test]
fn a_plain_directory_is_not_a_mountpoint() {
    assert!(!is_mountpoint(&PathState::Directory { device: 5 }, Some(5)));
    assert!(is_mountpoint(&PathState::Directory { device: 5 }, Some(6)));
    assert!(!is_mountpoint(&PathState::Directory { device: 5 }, None));
}

#[test]
fn a_missing_path_is_not_a_mountpoint() {
    assert!(!is_mountpoint(&PathState::Failed { not_connected: false }, Some(5)));
    assert!(is_mountpoint(&PathState::Failed { not_connected: true }, Some(5)));
}

#[test]
fn a_file_is_not_a_mountpoint() {
    assert!(!is_mountpoint(&PathState::NotDirectory, Some(5)));
}

#[test]
fn sweeping_removes_empty_leftovers_but_keeps_directories_with_files() {
    assert_eq!(clean_stale_mounts(false, false), SweepAction::Leave);
    assert_eq!(clean_stale_mounts(true, false), SweepAction::RemoveIfEmpty);
    assert_eq!(clean_stale_mounts(true, true), SweepAction::Unmount);
    assert_eq!(after_sweep_unmount(true, true), SweepAction::RemoveIfEmpty);
    assert_eq!(after_sweep_unmount(true, false), SweepAction::Leave);
    assert_eq!(after_sweep_unmount(false, true), SweepAction::Leave);
}

#[test]
fn waiting_on_a_path_that_was_never_mounted_returns_at_once() {
    assert_eq!(wait_until_unmounted(false, false), Some(true));
    assert_eq!(wait_until_unmounted(true, false), None);
    assert_eq!(wait_until_unmounted(true, true), Some(false));
}

#[test]
fn a_forced_unmount_tries_the_kernel_then_both_helpers() {
    let start = UnmountEvent::Start { has_nul: false };
    assert_eq!(force_unmount(UnmountEvent::Start { has_nul: true }), UnmountAction::BadPath);
    assert_eq!(force_unmount(start), UnmountAction::Detach);
    assert_eq!(force_unmount(UnmountEvent::Detached(true)), UnmountAction::Done);
    assert_eq!(force_unmount(UnmountEvent::Detached(false)), UnmountAction::RunFirstHelper);
    assert_eq!(force_unmount(UnmountEvent::FirstHelper(true)), UnmountAction::Done);
    assert_eq!(force_unmount(UnmountEvent::FirstHelper(false)), UnmountAction::RunSecondHelper);
    assert_eq!(force_unmount(UnmountEvent::SecondHelper(true)), UnmountAction::Done);
    assert_eq!(force_unmount(UnmountEvent::SecondHelper(false)), UnmountAction::Check);
    let checked = UnmountEvent::Checked { still_mounted: true };
    assert_eq!(force_unmount(checked), UnmountAction::Refused);
    let checked = UnmountEvent::Checked { still_mounted: false };
    assert_eq!(force_unmount(checked), UnmountAction::Done);
}

#[test]
fn a_key_from_the_root_is_its_own_path() {
    let mut supervisor = supervisor();
    match supervisor.handle(arrival("/abc")) {
        SupervisorStep::Mount { ident, path } => {
            assert_eq!(ident.key, "/abc");
            assert_eq!(path, "/abc");
        }
        other => panic!("{other:?}"),
    }
}
