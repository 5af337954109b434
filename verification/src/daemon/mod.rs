//! The `mtp-mountd` daemon: one mount per device, for as long as the device is there.
//!
//! A phone shows up, it gets a mount; the cable comes out, the mount goes away.
//!
//! - [`facts`]: what a device reports about itself, and what the daemon calls it.
//! - [`paths`]: where mounts live.
//! - [`supervisor`]: the rules by which mounts come and go.
//! - [`unmount`]: taking a mount down for good, and proving it's gone.
//! - [`dryrun`]: `--dry-run`, which reports what would happen without mounting anything.
//! - [`keys`]: sorted lists of keys.

pub mod dryrun;
pub mod facts;
pub mod keys;
pub mod paths;
pub mod supervisor;
pub mod unmount;
