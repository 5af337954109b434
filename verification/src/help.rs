//! The hand-written `--help` sections.
//!
//! The troubleshooting remedies come from [`crate::hints`], the same text the device-open failure
//! prints, so the two can't drift apart.
use crate::daemon::paths::RUNTIME_SUBDIR;
use crate::fs::DEFAULT_FULL_DOWNLOAD_LIMIT;
use crate::hints::{indent, indented, BUSY_HINT, PERMISSION_HINT};
use crate::size::{format_size, size_text};
use vstd::prelude::*;

verus! {

/// The default for `--full-download-limit`, spelled the way `--help` shows it.
pub const DEFAULT_FULL_DOWNLOAD_LIMIT_ARG: &'static str = "4G";

/// How the program is used, up to the size of the largest whole-object read.
pub const MOUNT_EXAMPLES: &'static str = "EXAMPLES:
    Mount the first available device:
        mtp-mount /mnt/phone

    List connected devices (shows serial numbers for -d):
        mtp-mount --list

    Mount a specific device:
        mtp-mount -d ABC123 /mnt/phone

    Mount read-only (safer for browsing, no accidental deletes):
        mtp-mount -r /mnt/phone

    Unmount:
        umount /mnt/phone

    Give a worn-out cable a minute to recover (0 unmounts on the first drop):
        mtp-mount --reconnect-timeout 60 /mnt/phone

    Copy a file bigger than ";

/// What can go wrong, up to the remedy for a busy device.
pub const MOUNT_TROUBLE: &'static str = " off a device with no partial-read support
    (0 removes the limit entirely):
        mtp-mount --full-download-limit 32G /mnt/switch

    Show debug output (handy for troubleshooting):
        RUST_LOG=debug mtp-mount /mnt/phone

TROUBLESHOOTING:
    \"No MTP device found\"
        Make sure the phone is unlocked, USB mode is set to \"File Transfer\"
        (not \"Charging only\"), and the USB debugging prompt is accepted.

    \"interface is busy\"
";

/// From there up to the remedy for a refused device.
pub const MOUNT_DENIED: &'static str = "

    \"Permission denied\" on /dev/bus/usb
";

/// What to know, up to the size of the largest whole-object read.
pub const MOUNT_NOTES: &'static str = "

NOTES:
    Files are uploaded to the device when you close them, not on each write.
    While a file is open for writing it's spooled to disk under your cache
    directory (--spool-dir overrides it), so uploads bigger than RAM work.
    MTP doesn't support partial writes, hardlinks, symlinks, or chmod.

    Most devices can hand over a byte range, so reading a file fetches only the
    part you touch. A few (some Nintendo Switch MTP apps, simple PTP responders)
    can only send whole objects. There, the first read starts one whole-file
    download and later reads wait for their bytes to arrive; nothing you do to
    the file interrupts it. That download holds the device for its whole length
    and everything else on the mount waits behind it, so files above
    --full-download-limit (default ";

/// The rest.
pub const MOUNT_RECONNECT: &'static str = ") are refused with \"File too large\"
    instead. Raise it, or pass 0, when you mean to copy a big one.

    If the device disconnects, the mount is taken down. Pass
    --reconnect-timeout SECONDS to wait for it to come back instead: the mount
    then picks up where it left off, including files you have open. Useful with
    a flaky cable that keeps dropping the link. It's off by default because
    commands WAIT during that window rather than failing, so anything walking
    the mount point (a file manager, a backup job) freezes until the device
    returns or the window ends.";

/// What the daemon does, up to the name of the runtime directory.
pub const DAEMON_WHAT: &'static str = "WHAT IT DOES:
    Watches for MTP devices and mounts each one it finds under the mount root,
    in a directory named after the device's serial number:

        $XDG_RUNTIME_DIR/";

/// From there up to the remedy for a busy device.
pub const DAEMON_RUNNING: &'static str = "/<serial>/

    Devices that report no serial number get usb-<vendor>-<product>-<port>
    instead, which lasts as long as the device stays in the same port.

    A device with more than one storage (internal memory plus an SD card, say)
    gets ONE mount, with each storage as a subdirectory under it.

    Unplug a device and its mount goes away right then, so nothing is left for
    a file manager to hang on. Plug it back in and it's mounted again.

RUNNING IT:
    As a systemd --user service (the intended way):
        systemctl --user enable --now mtp-mountd

    In a terminal, to watch what it's doing:
        RUST_LOG=info mtp-mountd

CHECKING A DEVICE WITHOUT MOUNTING IT (--dry-run):
        mtp-mountd --dry-run

    Watches for devices and prints what it WOULD do: the fields each device
    reports, the mount key derived from them, and the path it would mount at.
    Nothing is mounted, no directory is created, and the device is never
    opened, so this works on a machine with no FUSE at all.

    Plug the device in, wait for the PLUGGED IN block, then unplug it. The
    UNPLUGGED block says whether its key MATCHES the arrival. It has to: the
    key is how a departure finds the mount to take down, so a device whose
    two keys disagree would leave its mount behind. Do that a few times and
    read the summary. --spool-dir and -r do nothing in this mode.

TROUBLESHOOTING:
    Nothing gets mounted
        Make sure the phone is unlocked, USB mode is set to \"File Transfer\"
        (not \"Charging only\"), and the USB debugging prompt is accepted.
        Run with RUST_LOG=debug to see what the daemon sees.

    \"interface is busy\" in the log
";

/// From there up to the remedy for a refused device.
pub const DAEMON_DENIED: &'static str = "

    \"Permission denied\" on /dev/bus/usb
";

/// What to know, up to the size of the largest whole-object read.
pub const DAEMON_NOTES: &'static str = "

NOTES:
    Files are uploaded to the device when you close them, not on each write.
    While a file is open for writing it's spooled to disk under your cache
    directory (--spool-dir overrides it), so uploads bigger than RAM work.
    MTP doesn't support partial writes, hardlinks, symlinks, or chmod.

    There's no reconnect window: a device that goes away is unmounted at once,
    and hotplug mounts it again when it comes back. Waiting instead would
    freeze every process touching the mount for the length of the window.

    A few devices (some Nintendo Switch MTP apps, simple PTP responders) can
    only send whole objects rather than byte ranges. Reading a file there starts
    one whole-file download that holds the device until it finishes, so files
    above --full-download-limit (default ";

/// The rest.
pub const DAEMON_LIMIT: &'static str = ") are refused with \"File too
    large\" instead. Raise it, or pass 0, when you mean to copy a big one.";

/// A remedy as it stands in the help.
pub open spec fn remedy(hint: &str) -> Seq<char> {
    indented(hint@, "        "@)
}

/// The help of `mtp-mount`.
pub open spec fn mount_help() -> Seq<char> {
    let limit = size_text(DEFAULT_FULL_DOWNLOAD_LIMIT);
    MOUNT_EXAMPLES@ + limit + MOUNT_TROUBLE@ + remedy(BUSY_HINT) + MOUNT_DENIED@ + remedy(
        PERMISSION_HINT,
    ) + MOUNT_NOTES@ + limit + MOUNT_RECONNECT@
}

/// The help of `mtp-mountd`.
pub open spec fn daemon_help() -> Seq<char> {
    let limit = size_text(DEFAULT_FULL_DOWNLOAD_LIMIT);
    DAEMON_WHAT@ + RUNTIME_SUBDIR@ + DAEMON_RUNNING@ + remedy(BUSY_HINT) + DAEMON_DENIED@
        + remedy(PERMISSION_HINT) + DAEMON_NOTES@ + limit + DAEMON_LIMIT@
}

/// The help of `mtp-mount`, below the options.
pub fn long_help() -> (help: String)
    ensures
        help@ == mount_help(),
{
    let limit = format_size(DEFAULT_FULL_DOWNLOAD_LIMIT);
    let mut help = MOUNT_EXAMPLES.to_string();
    help.append(limit.as_str());
    help.append(MOUNT_TROUBLE);
    help.append(indent(BUSY_HINT, "        ").as_str());
    help.append(MOUNT_DENIED);
    help.append(indent(PERMISSION_HINT, "        ").as_str());
    help.append(MOUNT_NOTES);
    help.append(limit.as_str());
    help.append(MOUNT_RECONNECT);
    help
}

/// The help of `mtp-mountd`, below the options.
pub fn daemon_long_help() -> (help: String)
    ensures
        help@ == daemon_help(),
{
    let mut help = DAEMON_WHAT.to_string();
    help.append(RUNTIME_SUBDIR);
    help.append(DAEMON_RUNNING);
    help.append(indent(BUSY_HINT, "        ").as_str());
    help.append(DAEMON_DENIED);
    help.append(indent(PERMISSION_HINT, "        ").as_str());
    help.append(DAEMON_NOTES);
    help.append(format_size(DEFAULT_FULL_DOWNLOAD_LIMIT).as_str());
    help.append(DAEMON_LIMIT);
    help
}

} // verus!
