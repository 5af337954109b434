use clap::{Arg, ArgAction, Command};
use mtp_mount::fs::DEFAULT_FULL_DOWNLOAD_LIMIT;
use mtp_mount::help::{daemon_long_help, long_help, DEFAULT_FULL_DOWNLOAD_LIMIT_ARG};
use mtp_mount::listing::{list_devices, ListedDevice};
use mtp_mount::size::parse_size;

/// The command line of the mount program, with this library's parsers and texts.
fn mount_command() -> Command {
    Command::new("mtp-mount")
        .after_long_help(long_help())
        .arg(Arg::new("mountpoint"))
        .arg(Arg::new("device").short('d').long("device").value_name("SERIAL"))
        .arg(Arg::new("read_only").short('r').long("read-only").action(ArgAction::SetTrue))
        .arg(Arg::new("list").short('l').long("list").action(ArgAction::SetTrue))
        .arg(
            Arg::new("reconnect_timeout")
                .long("reconnect-timeout")
                .default_value("30"),
        )
        .arg(limit())
}

fn limit() -> Arg {
    Arg::new("full_download_limit")
        .long("full-download-limit")
        .value_name("SIZE")
        .value_parser(parse_size)
        .default_value(DEFAULT_FULL_DOWNLOAD_LIMIT_ARG)
}

/// The command line of the daemon, with this library's parsers and texts.
fn daemon_command() -> Command {
    Command::new("mtp-mountd")
        .after_long_help(daemon_long_help())
        .arg(Arg::new("mount_root").long("mount-root").value_name("PATH"))
        .arg(Arg::new("dry_run").long("dry-run").action(ArgAction::SetTrue))
        .arg(limit())
}

fn parsed_limit(command: Command, args: &[&str]) -> u64 {
    let matches = command.try_get_matches_from(args).unwrap();
    *matches.get_one::<u64>("full_download_limit").unwrap()
}

#[test]
fn main_the_cli_definition_is_well_formed() {
    mount_command().debug_assert();
}

#[test]
fn the_cli_definition_is_well_formed() {
    daemon_command().debug_assert();
}

#[test]
fn main_default_value_parser_matches_the_constant() {
    assert_eq!(
        parse_size(DEFAULT_FULL_DOWNLOAD_LIMIT_ARG),
        Ok(DEFAULT_FULL_DOWNLOAD_LIMIT)
    );
    assert_eq!(
        parsed_limit(mount_command(), &["mtp-mount", "/mnt/phone"]),
        DEFAULT_FULL_DOWNLOAD_LIMIT
    );
}

#[test]
fn default_value_parser_matches_the_constant() {
    assert_eq!(
        parse_size(DEFAULT_FULL_DOWNLOAD_LIMIT_ARG),
        Ok(DEFAULT_FULL_DOWNLOAD_LIMIT)
    );
    assert_eq!(
        parsed_limit(daemon_command(), &["mtp-mountd"]),
        DEFAULT_FULL_DOWNLOAD_LIMIT
    );
}

#[test]
fn the_limit_accepts_a_size_and_a_zero() {
    let args = ["mtp-mount", "--full-download-limit", "32G", "/mnt/switch"];
    assert_eq!(parsed_limit(mount_command(), &args), 32 * 1024 * 1024 * 1024);
    let args = ["mtp-mount", "--full-download-limit", "0", "/mnt/switch"];
    assert_eq!(parsed_limit(mount_command(), &args), 0);
}

#[test]
fn the_help_holds_the_remedies_and_the_limit() {
    let help = long_help();
    assert!(help.starts_with("EXAMPLES:\n    Mount the first available device:"));
    assert!(help.contains("    Copy a file bigger than 4 GiB off a device"));
    assert!(help.contains("        Another program already claimed the USB interface.\n\n        On"));
    assert!(help.contains("        The OS denied access to the USB device."));
    assert!(help.ends_with("returns or the window ends."));
    let help = daemon_long_help();
    assert!(help.contains("$XDG_RUNTIME_DIR/mtp/<serial>/"));
    assert!(help.contains("(default 4 GiB)"));
    assert!(help.ends_with("when you mean to copy a big one."));
}

#[test]
fn connected_devices_are_listed_one_per_line() {
    assert!(list_devices(&Vec::new()).starts_with("No MTP devices found.\n\nMake sure"));
    let devices = vec![
        ListedDevice {
            manufacturer: Some("Google".into()),
            product: Some("Pixel".into()),
            serial: Some("ABC".into()),
            vendor_id: 0x18d1,
            product_id: 0x4ee1,
        },
        ListedDevice {
            manufacturer: None,
            product: None,
            serial: None,
            vendor_id: 0x4e8,
            product_id: 1,
        },
    ];
    assert_eq!(
        list_devices(&devices),
        "Found 2 MTP device(s):\n\n  \
         [0] Google Pixel (serial: ABC, USB 18d1:4ee1)\n  \
         [1] Unknown Unknown (serial: (no serial), USB 04e8:0001)\n\n\
         Use -d SERIAL to mount a specific device.\n"
    );
}
