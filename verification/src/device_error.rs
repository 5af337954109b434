//! What a failed device call means to the mount.
use mtp_rs::Error as MtpError;
use vstd::prelude::*;

verus! {

/// A failure reported by the device layer, as plain data.
///
/// One variant per case of [`mtp_rs::Error`], so that the rules of the mount can be stated over
/// values that can be written down and compared.
#[derive(Debug)]
pub enum DeviceError {
    NotFound,
    StaleHandle,
    AccessDenied,
    ExclusiveAccess,
    PermissionDenied,
    Unsupported,
    Busy,
    StorageFull,
    Cancelled,
    Disconnected,
    DeviceReset,
    Timeout,
    NoDevice,
    InvalidData { message: String },
    Io { message: String },
    Other { detail: String },
    /// A case that a later release of the device layer may add.
    Unrecognized,
}

/// [`mtp_rs::Error`], the device layer's own error.
#[verifier::external_type_specification]
#[verifier::external_body]
pub struct ExMtpError(mtp_rs::Error);

/// The plain form of a device-layer error.
pub uninterp spec fn device_error(e: mtp_rs::Error) -> DeviceError;

/// Tells the variants of [`mtp_rs::Error`] apart.
///
/// Trusted: the result depends on the error alone.
#[verifier::external_body]
fn plain_form(e: &MtpError) -> (plain: DeviceError)
    ensures
        plain == device_error(*e),
{
    match e {
        MtpError::NotFound => DeviceError::NotFound, MtpError::StaleHandle => DeviceError::StaleHandle,
        MtpError::AccessDenied => DeviceError::AccessDenied, MtpError::ExclusiveAccess => DeviceError::ExclusiveAccess,
        MtpError::PermissionDenied => DeviceError::PermissionDenied, MtpError::Unsupported => DeviceError::Unsupported,
        MtpError::Busy => DeviceError::Busy, MtpError::StorageFull => DeviceError::StorageFull,
        MtpError::Cancelled => DeviceError::Cancelled, MtpError::Disconnected => DeviceError::Disconnected,
        MtpError::DeviceReset => DeviceError::DeviceReset, MtpError::Timeout => DeviceError::Timeout,
        MtpError::NoDevice => DeviceError::NoDevice,
        MtpError::InvalidData { message } => DeviceError::InvalidData { message: message.clone() },
        MtpError::Io { message } => DeviceError::Io { message: message.clone() },
        MtpError::Other { detail } => DeviceError::Other { detail: detail.clone() },
        _ => DeviceError::Unrecognized,
    }
}

/// The plain form of a device-layer error.
pub fn classify(e: &MtpError) -> (plain: DeviceError)
    ensures
        plain == device_error(*e),
{
    plain_form(e)
}

/// [`mtp_rs::Error::is_exclusive_access`]: whether this is its case for a device that another
/// process holds.
pub assume_specification[ mtp_rs::Error::is_exclusive_access ](e: &mtp_rs::Error) -> (held: bool)
    ensures
        held == (device_error(*e) is ExclusiveAccess),
;

/// [`mtp_rs::Error::is_permission_denied`]: whether this is its case for a device that the
/// operating system refused.
pub assume_specification[ mtp_rs::Error::is_permission_denied ](e: &mtp_rs::Error) -> (denied: bool)
    ensures
        denied == (device_error(*e) is PermissionDenied),
;

impl DeviceError {
    /// Whether the device re-keyed the object behind a handle: listing its parent again gives
    /// the new one.
    pub fn is_stale_handle(&self) -> (stale: bool)
        ensures
            stale == (self is StaleHandle),
    {
        match self {
            DeviceError::StaleHandle => true,
            _ => false,
        }
    }

    /// The message as a person reads it.
    pub open spec fn text(self) -> Seq<char> {
        match self {
            DeviceError::NotFound => "not found"@,
            DeviceError::StaleHandle => {
                "stale object handle (device re-keyed it; re-list and retry)"@
            },
            DeviceError::AccessDenied => "access denied"@,
            DeviceError::ExclusiveAccess => "device is held exclusively by another process"@,
            DeviceError::PermissionDenied => "permission denied accessing the device"@,
            DeviceError::Unsupported => "operation not supported by this device"@,
            DeviceError::Busy => "device busy"@,
            DeviceError::StorageFull => "storage full"@,
            DeviceError::Cancelled => "operation cancelled"@,
            DeviceError::Disconnected => "device disconnected"@,
            DeviceError::DeviceReset => {
                "device was reset to recover from a wedged cancel; reopen to continue"@
            },
            DeviceError::Timeout => "operation timed out"@,
            DeviceError::NoDevice => "no device found"@,
            DeviceError::InvalidData { message } => "invalid data: "@ + message@,
            DeviceError::Io { message } => "I/O error: "@ + message@,
            DeviceError::Other { detail } => "device error: "@ + detail@,
            DeviceError::Unrecognized => "unrecognized device error"@,
        }
    }

    /// The message as a person reads it.
    pub fn message(&self) -> (s: String)
        ensures
            s@ == self.text(),
    {
        match self {
            DeviceError::NotFound => "not found".to_string(),
            DeviceError::StaleHandle => {
                "stale object handle (device re-keyed it; re-list and retry)".to_string()
            },
            DeviceError::AccessDenied => "access denied".to_string(),
            DeviceError::ExclusiveAccess => {
                "device is held exclusively by another process".to_string()
            },
            DeviceError::PermissionDenied => "permission denied accessing the device".to_string(),
            DeviceError::Unsupported => "operation not supported by this device".to_string(),
            DeviceError::Busy => "device busy".to_string(),
            DeviceError::StorageFull => "storage full".to_string(),
            DeviceError::Cancelled => "operation cancelled".to_string(),
            DeviceError::Disconnected => "device disconnected".to_string(),
            DeviceError::DeviceReset => {
                "device was reset to recover from a wedged cancel; reopen to continue".to_string()
            },
            DeviceError::Timeout => "operation timed out".to_string(),
            DeviceError::NoDevice => "no device found".to_string(),
            DeviceError::InvalidData { message } => {
                let mut s = "invalid data: ".to_string();
                s.append(message.as_str());
                s
            },
            DeviceError::Io { message } => {
                let mut s = "I/O error: ".to_string();
                s.append(message.as_str());
                s
            },
            DeviceError::Other { detail } => {
                let mut s = "device error: ".to_string();
                s.append(detail.as_str());
                s
            },
            DeviceError::Unrecognized => "unrecognized device error".to_string(),
        }
    }
}

} // verus!
