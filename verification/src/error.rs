//! Errors of the mount itself.
use crate::device_error::DeviceError;
use vstd::prelude::*;

verus! {

/// Errors returned by mtp-mount operations.
#[derive(Debug)]
pub enum MountError {
    /// An error from the device layer.
    Mtp(DeviceError),
    /// An I/O error (filesystem, FUSE, etc.), by its message.
    Io(String),
    /// No MTP device was found on the system.
    NoDevice,
    /// A catch-all for other error conditions.
    Other(String),
}

impl MountError {
    /// The message as a person reads it.
    pub open spec fn text(self) -> Seq<char> {
        match self {
            MountError::Mtp(error) => "MTP error: "@ + error.text(),
            MountError::Io(message) => "I/O error: "@ + message@,
            MountError::NoDevice => "no MTP device found"@,
            MountError::Other(message) => message@,
        }
    }

    /// The message as a person reads it.
    pub fn message(&self) -> (s: String)
        ensures
            s@ == self.text(),
    {
        match self {
            MountError::Mtp(error) => {
                let mut s = "MTP error: ".to_string();
                s.append(error.message().as_str());
                s
            },
            MountError::Io(message) => {
                let mut s = "I/O error: ".to_string();
                s.append(message.as_str());
                s
            },
            MountError::NoDevice => "no MTP device found".to_string(),
            MountError::Other(message) => message.clone(),
        }
    }
}

} // verus!
