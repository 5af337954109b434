use mtp_mount::device::{is_link_lost, plan_for, OpenPlan, UnplugSwitch, UsbOpener};
use mtp_mount::device_error::{classify, DeviceError};
use mtp_mount::error::MountError;

#[test]
fn switch_starts_plugged_in() {
    let switch = UnplugSwitch::default();
    assert!(!switch.is_unplugged());
}

#[test]
fn switch_is_shared_between_clones() {
    let switch = UnplugSwitch::default();
    let remote = switch.clone();
    remote.unplug();
    assert!(switch.is_unplugged());
    remote.replug();
    assert!(!switch.is_unplugged());
}

#[test]
fn separate_switches_are_separate_cables() {
    let one = UnplugSwitch::default();
    let other = UnplugSwitch::default();
    one.unplug();
    assert!(one.clone().is_unplugged());
    assert!(!other.is_unplugged());
}

#[test]
fn session_loss_triggers_reconnect_but_plain_failures_do_not() {
    assert!(is_link_lost(&mtp_rs::Error::Disconnected));
    assert!(is_link_lost(&mtp_rs::Error::DeviceReset));
    assert!(!is_link_lost(&mtp_rs::Error::NotFound));
    assert!(!is_link_lost(&mtp_rs::Error::AccessDenied));
    assert!(!is_link_lost(&mtp_rs::Error::Timeout));
}

#[test]
fn link_loss_is_broader_than_mtp_rs_is_disconnected() {
    assert!(mtp_rs::Error::Disconnected.is_disconnected());
    assert!(!mtp_rs::Error::DeviceReset.is_disconnected());
    assert!(!mtp_rs::Error::NoDevice.is_disconnected());

    assert!(is_link_lost(&mtp_rs::Error::DeviceReset));
    assert!(is_link_lost(&mtp_rs::Error::NoDevice));
}

#[test]
fn every_device_error_keeps_its_case_and_its_wording() {
    let errors = vec![
        mtp_rs::Error::NotFound,
        mtp_rs::Error::StaleHandle,
        mtp_rs::Error::AccessDenied,
        mtp_rs::Error::ExclusiveAccess,
        mtp_rs::Error::PermissionDenied,
        mtp_rs::Error::Unsupported,
        mtp_rs::Error::Busy,
        mtp_rs::Error::StorageFull,
        mtp_rs::Error::Cancelled,
        mtp_rs::Error::Disconnected,
        mtp_rs::Error::DeviceReset,
        mtp_rs::Error::Timeout,
        mtp_rs::Error::NoDevice,
        mtp_rs::Error::InvalidData { message: "odd".into() },
        mtp_rs::Error::Io { message: "broken pipe".into() },
        mtp_rs::Error::Other { detail: "0x2019".into() },
    ];
    for error in &errors {
        assert_eq!(classify(error).message(), error.to_string());
        assert_eq!(classify(error).is_stale_handle(), error.is_stale_handle());
        assert_eq!(classify(error).is_link_lost(), is_link_lost(error));
    }
    assert!(matches!(classify(&errors[6]), DeviceError::Busy));
    assert!(matches!(classify(&errors[7]), DeviceError::StorageFull));
}

#[test]
fn an_opener_names_and_finds_its_device() {
    let opener = UsbOpener::new(Some("ABC".into()), UnplugSwitch::default());
    assert_eq!(opener.describe(), "device ABC");
    assert!(matches!(opener.plan(), OpenPlan::BySerial(serial) if serial == "ABC"));

    let any = UsbOpener::new(None, UnplugSwitch::default());
    assert_eq!(any.describe(), "the device");
    assert!(matches!(any.plan(), OpenPlan::First));

    let cable = UnplugSwitch::default();
    let watched = UsbOpener::new(Some("ABC".into()), cable.clone());
    cable.unplug();
    assert!(matches!(watched.plan(), OpenPlan::Disconnected), "it sees a later flip");
    cable.replug();
    assert!(matches!(watched.plan(), OpenPlan::BySerial(serial) if serial == "ABC"));
    assert!(matches!(plan_for(true, Some("ABC")), OpenPlan::Disconnected));
    assert!(matches!(plan_for(false, Some("ABC")), OpenPlan::BySerial(serial) if serial == "ABC"));
    assert!(matches!(plan_for(false, None), OpenPlan::First));
}

#[test]
fn mount_errors_read_like_sentences() {
    assert_eq!(MountError::Mtp(DeviceError::Busy).message(), "MTP error: device busy");
    assert_eq!(MountError::Io("disk full".into()).message(), "I/O error: disk full");
    assert_eq!(MountError::NoDevice.message(), "no MTP device found");
    assert_eq!(MountError::Other("odd".into()).message(), "odd");
}
