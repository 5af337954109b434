//! What a lost session is, and the pretend cable that tests can yank.
use crate::device_error::{classify, device_error, DeviceError};
use std::sync::atomic::{AtomicBool, Ordering};
use std::sync::Arc;
use vstd::prelude::*;

verus! {

/// A pretend USB cable, shared between the mount and whoever wants to yank it: a clone is another
/// hold on the same cable.
///
/// While it's unplugged every operation fails as if the device were disconnected and reopening
/// fails too, which is exactly what a real cable glitch looks like from inside the filesystem.
/// Production code never flips it.
///
/// Whoever holds the cable may flip it at any time, so no contract says what it answers; what
/// follows from an answer is stated by functions that are handed it, such as [`plan_for`].
#[derive(Debug)]
pub struct UnplugSwitch {
    out: Arc<AtomicBool>,
}

impl UnplugSwitch {
    /// Whether this is a hold on the same cable as `other`.
    pub closed spec fn same_cable(&self, other: &UnplugSwitch) -> bool {
        self.out == other.out
    }
}

impl Clone for UnplugSwitch {
    fn clone(&self) -> (switch: Self)
        ensures
            switch.same_cable(self),
    {
        UnplugSwitch { out: self.out.clone() }
    }
}

impl Default for UnplugSwitch {
    /// A cable of its own, plugged in.
    fn default() -> (switch: Self) {
        UnplugSwitch { out: Arc::new(AtomicBool::new(false)) }
    }
}

impl UnplugSwitch {
    /// Pretend the cable came out.
    pub fn unplug(&self) {
        self.out.store(true, Ordering::SeqCst);
    }

    /// Pretend the cable went back in.
    pub fn replug(&self) {
        self.out.store(false, Ordering::SeqCst);
    }

    /// Whether the cable is currently out.
    pub fn is_unplugged(&self) -> (out: bool) {
        self.out.load(Ordering::Relaxed)
    }
}

/// Whether an error means "this session is gone", as opposed to a normal operation failure the
/// caller should see.
///
/// A reset belongs here too: the device is still plugged in, but it was reset in software to
/// recover, so the session (and every handle in it) is dead and the cure is the same reopen. That
/// is broader than a device that is gone. A device that cannot be found by the time it is reopened
/// still walks the reconnect path.
pub open spec fn link_lost(error: DeviceError) -> bool {
    error is Disconnected || error is DeviceReset || error is NoDevice
}

impl DeviceError {
    /// Whether this error means that the session is gone.
    pub fn is_link_lost(&self) -> (lost: bool)
        ensures
            lost == link_lost(*self),
    {
        match self {
            DeviceError::Disconnected | DeviceError::DeviceReset | DeviceError::NoDevice => true,
            _ => false,
        }
    }
}

/// Whether a device-layer error means that the session is gone.
pub fn is_link_lost(error: &mtp_rs::Error) -> (lost: bool)
    ensures
        lost == link_lost(device_error(*error)),
{
    classify(error).is_link_lost()
}

/// Which USB device a mount belongs to.
///
/// The serial is read off the device that was opened at startup even when the user didn't pass
/// one, so a reconnect can't wander onto a different phone that happens to be plugged in. Devices
/// that report no serial fall back to "first available", which is the best that's on offer.
#[derive(Debug)]
pub struct UsbOpener {
    serial: Option<String>,
    unplug: UnplugSwitch,
}

/// How a device is opened.
#[derive(Debug)]
pub enum OpenPlan {
    /// Not at all: the cable is out.
    Disconnected,
    /// By its serial number.
    BySerial(String),
    /// Whichever comes first.
    First,
}

impl OpenPlan {
    /// Whether this is how a device of that serial number is opened, with the cable out or in.
    pub open spec fn follows(self, out: bool, serial: Option<Seq<char>>) -> bool {
        if out {
            self is Disconnected
        } else {
            match serial {
                Some(wanted) => self matches OpenPlan::BySerial(s) && s@ == wanted,
                None => self is First,
            }
        }
    }
}

/// How a device of that serial number is opened. While the cable is out there is nothing to open.
pub fn plan_for(out: bool, serial: Option<&str>) -> (plan: OpenPlan)
    ensures
        plan.follows(
            out,
            match serial {
                Some(s) => Some(s@),
                None => None,
            },
        ),
{
    if out {
        return OpenPlan::Disconnected;
    }
    match serial {
        Some(serial) => OpenPlan::BySerial(serial.to_string()),
        None => OpenPlan::First,
    }
}

impl UsbOpener {
    /// The serial number that the device has to have.
    pub closed spec fn wanted(&self) -> Option<Seq<char>> {
        match self.serial {
            Some(s) => Some(s@),
            None => None,
        }
    }

    /// The cable it looks at.
    pub closed spec fn cable(&self) -> UnplugSwitch {
        self.unplug
    }

    pub fn new(serial: Option<String>, unplug: UnplugSwitch) -> (opener: Self)
        ensures
            opener.wanted() == match serial {
                Some(s) => Some(s@),
                None => None,
            },
            opener.cable() == unplug,
    {
        UsbOpener { serial, unplug }
    }

    /// How the device is opened: by [`plan_for`], from what the cable says right now.
    pub fn plan(&self) -> (plan: OpenPlan)
        ensures
            plan.follows(false, self.wanted()) || plan.follows(true, self.wanted()),
    {
        let out = self.unplug.is_unplugged();
        match &self.serial {
            Some(serial) => plan_for(out, Some(serial.as_str())),
            None => plan_for(out, None),
        }
    }

    /// How to name the device in user-facing messages.
    pub fn describe(&self) -> (name: String)
        ensures
            name@ == match self.wanted() {
                Some(serial) => "device "@ + serial,
                None => "the device"@,
            },
    {
        match &self.serial {
            Some(serial) => {
                let mut name = "device ".to_string();
                name.append(serial.as_str());
                name
            },
            None => "the device".to_string(),
        }
    }
}

/// A lost link is more than a device that is gone: a device that was reset is still there, but its
/// session is not.
pub proof fn link_loss_is_broader_than_a_disconnect(error: DeviceError)
    ensures
        error is Disconnected ==> link_lost(error),
        link_lost(DeviceError::DeviceReset) && !(DeviceError::DeviceReset is Disconnected),
        link_lost(DeviceError::NoDevice) && !(DeviceError::NoDevice is Disconnected),
{
}

/// Which failures mean that the session is gone: a device that disconnected, was reset or cannot be
/// found, and no other.
pub proof fn links_are_lost_in_three_ways(error: DeviceError)
    ensures
        link_lost(error) <==> error is Disconnected || error is DeviceReset || error is NoDevice,
{
}

/// How a device is opened: not at all while the cable is out, otherwise by its serial number, and
/// whichever comes first only where it has none.
pub proof fn devices_are_opened_by_their_serial(plan: OpenPlan, out: bool, serial: Option<Seq<char>>)
    ensures
        plan.follows(out, serial) ==> {
            &&& plan is Disconnected <==> out
            &&& plan is First <==> !out && serial is None
            &&& plan matches OpenPlan::BySerial(s) ==> !out && serial == Some(s@)
        },
        OpenPlan::Disconnected.follows(true, serial),
        OpenPlan::First.follows(false, None),
{
}

} // verus!
