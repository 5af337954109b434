use mtp_mount::daemon::dryrun::{DepartureVerdict, DryRun, DryRunCommand};
use mtp_mount::daemon::facts::DeviceFacts;

fn phone(serial: &str) -> DeviceFacts {
    DeviceFacts {
        serial: Some(serial.to_string()),
        vendor_id: 0x18d1,
        product_id: 0x4ee1,
        location_id: 3,
        manufacturer: Some("Google".into()),
        product: Some("Pixel 9 Pro XL".into()),
        speed: Some("SuperPlus".into()),
        match_reason: Some("standard_class".into()),
        label: format!("Google Pixel 9 Pro XL (serial: {serial}, location: 00000003)"),
    }
}

fn reporter(root: &str) -> DryRun {
    DryRun::with_output(root, String::new())
}

#[test]
fn a_departure_matching_its_arrival_says_so() {
    let mut dry = reporter("/run/user/1000/mtp");
    let device = phone("2A31FDH200ABC");

    dry.arrived(&device);
    let verdict = dry.left(&device);

    assert_eq!(
        verdict,
        DepartureVerdict::Matched("/run/user/1000/mtp/2A31FDH200ABC".to_string())
    );
    let text = dry.output();
    assert!(text.contains("MATCHES the arrival"), "{text}");
    assert!(
        text.contains("/run/user/1000/mtp/2A31FDH200ABC"),
        "the full mount path is what a person checks: {text}"
    );
    assert!(!text.contains("NO MATCH"), "{text}");
    assert_eq!(dry.tally().matched, 1);
    assert_eq!(dry.tally().unmatched, 0);
    assert!(dry.open_keys().is_empty());
}

#[test]
fn a_departure_with_a_different_key_warns_about_the_leak() {
    let mut dry = reporter("/run/user/1000/mtp");

    dry.arrived(&phone("2A31FDH200ABC"));
    let verdict = dry.left(&phone("SOMETHING-ELSE"));

    assert_eq!(
        verdict,
        DepartureVerdict::WouldLeak(vec!["/run/user/1000/mtp/2A31FDH200ABC".to_string()])
    );
    let text = dry.output();
    assert!(text.contains("NO MATCH"), "{text}");
    assert!(text.contains("leak"), "{text}");
    assert!(
        text.contains("/run/user/1000/mtp/2A31FDH200ABC"),
        "the warning has to name the mount that would be left behind: {text}"
    );
    assert!(
        text.contains("SOMETHING-ELSE"),
        "and the key that didn't match: {text}"
    );
    assert_eq!(dry.tally().unmatched, 1);
    assert_eq!(dry.open_keys(), vec!["2A31FDH200ABC".to_string()]);
}

#[test]
fn a_departure_with_no_arrival_behind_it_is_reported_plainly() {
    let mut dry = reporter("/run/user/1000/mtp");

    let verdict = dry.left(&phone("2A31FDH200ABC"));

    assert_eq!(verdict, DepartureVerdict::NothingToUnmount);
    let text = dry.output();
    assert!(text.contains("NO MATCH"), "{text}");
    assert!(
        text.contains("nothing leaks"),
        "nothing was mounted, so this isn't the failure case: {text}"
    );
    assert_eq!(dry.tally().unmatched, 1);
}

#[test]
fn dry_run_a_device_with_no_serial_falls_back_to_the_usb_address() {
    // Same rule the daemon mounts under, so the dry run reports the real path.
    let facts = DeviceFacts {
        serial: None,
        vendor_id: 0x04e8,
        product_id: 0x6860,
        location_id: 42,
        product: Some("Galaxy S24".into()),
        ..Default::default()
    };
    assert_eq!(facts.key(), "usb-04e8-6860-42");
    assert_eq!(facts.ident().key, "usb-04e8-6860-42");
    assert_eq!(facts.ident().serial, None);

    let mut dry = reporter("/run/user/1000/mtp");
    dry.arrived(&facts);
    assert!(
        dry.output().contains("/run/user/1000/mtp/usb-04e8-6860-42"),
        "{}",
        dry.output()
    );
}

#[test]
fn a_dry_run_creates_nothing_and_mounts_nothing() {
    // The mode has to be safe to run on a machine with no FUSE, so it must not reach the filesystem
    // at all: not the mount root, not a mount point.
    let root = tempfile::tempdir().unwrap();
    let mount_root = root.path().join("mtp");
    let dry = reporter(mount_root.to_str().unwrap());
    let text = dry.run(&vec![
        DryRunCommand::Arrived(phone("2A31FDH200ABC")),
        DryRunCommand::Left(phone("2A31FDH200ABC")),
        DryRunCommand::Stop("test".into()),
    ]);
    assert!(
        !mount_root.exists(),
        "a dry run created the mount root at {}",
        mount_root.display()
    );
    assert_eq!(
        root.path().read_dir().unwrap().count(),
        0,
        "a dry run left something in {}",
        root.path().display()
    );
    assert!(text.contains("MATCHES the arrival"), "{text}");
    assert!(text.contains("Matched:    1"), "{text}");
    assert!(text.contains("Unmatched:  0"), "{text}");
}

#[test]
fn the_summary_calls_out_a_session_where_a_departure_missed() {
    let dry = reporter("/run/user/1000/mtp");
    let text = dry.run(&vec![
        DryRunCommand::Arrived(phone("2A31FDH200ABC")),
        DryRunCommand::Left(phone("SOMETHING-ELSE")),
        DryRunCommand::Stop("test".into()),
    ]);
    assert!(text.contains("PROBLEM"), "{text}");
    assert!(text.contains("Unmatched:  1"), "{text}");
    assert!(
        text.contains("Would be mounted now: 2A31FDH200ABC"),
        "{text}"
    );
}

#[test]
fn a_run_with_no_devices_says_what_to_check() {
    let dry = reporter("/run/user/1000/mtp");
    let text = dry.run(&vec![DryRunCommand::Stop("test".into())]);
    assert!(text.contains("nothing will be mounted"), "{text}");
    assert!(text.contains("No devices seen at all"), "{text}");
}

fn pixel() -> DeviceFacts {
    phone("2A31FDH200ABC")
}

#[test]
fn dryrun_a_device_with_no_serial_falls_back_to_the_usb_address() {
    let facts = DeviceFacts {
        serial: None,
        vendor_id: 0x04e8,
        product_id: 0x6860,
        location_id: 42,
        ..Default::default()
    };
    assert_eq!(facts.key(), "usb-04e8-6860-42");
    assert_eq!(facts.ident().serial, None);
}

#[test]
fn a_blank_serial_is_no_serial() {
    let facts = DeviceFacts {
        serial: Some("   ".into()),
        vendor_id: 1,
        product_id: 2,
        location_id: 3,
        ..Default::default()
    };
    assert_eq!(facts.key(), "usb-0001-0002-3");
}

#[test]
fn the_ident_carries_the_key_the_supervisor_would_mount_under() {
    let ident = pixel().ident();
    assert_eq!(ident.key, "2A31FDH200ABC");
    assert_eq!(ident.serial.as_deref(), Some("2A31FDH200ABC"));
    assert!(ident.label.contains("Pixel 9 Pro XL"));
}

#[test]
fn a_second_arrival_of_the_same_key_is_called_out() {
    let mut dry = DryRun::with_output("/run/mtp", String::new());
    dry.arrived(&pixel());
    dry.arrived(&pixel());
    assert_eq!(dry.open_keys(), vec!["2A31FDH200ABC".to_string()]);
    assert_eq!(dry.tally().arrivals, 2);
    assert!(dry.output().contains(
        "    Note: 2A31FDH200ABC is already down as arrived (at /run/mtp/2A31FDH200ABC). \
         The daemon would keep the first mount and ignore this one.\n"
    ));
}

#[test]
fn the_loop_stops_when_every_sender_is_gone() {
    let dry = DryRun::with_output("/run/mtp", String::new());
    let text = dry.run(&vec![DryRunCommand::Arrived(pixel())]);
    assert!(text.contains("=== Dry run over: the device watch stopped ===\n"));
}

#[test]
fn an_arrival_reads_like_this() {
    let mut dry = DryRun::new("/run/mtp");
    dry.arrived(&DeviceFacts {
        serial: Some(" S1 ".into()),
        vendor_id: 0x18d1,
        product_id: 0x4ee1,
        location_id: 3,
        ..Default::default()
    });
    assert_eq!(
        dry.take_output(),
        "------------------------------------------------------------\n\
         #1  PLUGGED IN  MTP device S1\n    \
         serial           S1 \n    \
         vendor:product  18d1:4ee1\n    \
         location id     3\n    \
         manufacturer    (not reported)\n    \
         product         (not reported)\n    \
         usb speed       (not reported)\n    \
         matched by      (not reported)\n    \
         mount key       S1\n    \
         would mount at  /run/mtp/S1\n    \
         So far: 1 arrived, 0 left, 0 matched, 0 unmatched, 1 would be mounted.\n"
    );
    assert_eq!(dry.output(), "");
}

#[test]
fn leaks_and_open_keys_come_sorted() {
    let mut dry = DryRun::new("/m/");
    dry.arrived(&phone("b"));
    dry.arrived(&phone("a"));
    dry.arrived(&phone("c"));
    assert_eq!(dry.open_keys(), vec!["a", "b", "c"]);
    assert_eq!(
        dry.left(&phone("x")),
        DepartureVerdict::WouldLeak(vec!["/m/a".into(), "/m/b".into(), "/m/c".into()])
    );
    assert!(dry.output().contains("!!! Keys seen arriving: b, a, c\n"));
    assert!(!dry.step(&DryRunCommand::Left(phone("b"))));
    assert_eq!(dry.open_keys(), vec!["a", "c"]);
    assert!(dry.step(&DryRunCommand::Stop("enough".into())));
    assert!(dry.output().contains("  Would be mounted now: a, c\n"));
}
