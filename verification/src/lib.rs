//! Mounting MTP devices as local filesystems.
//!
//! This crate holds what such a mount decides: which inode an object has, which bytes of it have
//! arrived, what is asked of the device and what its answer means, when a lost device is waited for
//! and when it is given up. Talking to the device, to the kernel and to the disk is left to the
//! program around it.
//!
//! Every function states what it returns and changes over the mathematical views of its types.
//! Public proof functions, most of them in modules called `laws`, state what holds of several
//! functions together.

pub mod buffer;
pub mod clock;
pub mod daemon;
pub mod device;
pub mod device_error;
pub mod duration;
pub mod error;
pub mod fill;
pub mod fs;
pub mod help;
pub mod hints;
pub mod inode;
pub mod listing;
mod maps;
pub mod reconnect;
pub mod shutdown;
pub mod size;
pub mod sparse_cache;
pub mod spool;
pub mod text;
