//! What a device reports about itself, and what the daemon calls it.
use crate::daemon::paths::{device_dir_name, dir_name};
use crate::text::{trim, trimmed};
use vstd::prelude::*;

verus! {

/// A text that may be missing, as a sequence of characters.
pub open spec fn opt_text(o: Option<String>) -> Option<Seq<char>> {
    match o {
        Some(s) => Some(s@),
        None => None,
    }
}

/// Everything the USB watch reported about one device, as reported.
#[derive(Debug, Clone, PartialEq, Eq)]
pub struct DeviceFacts {
    /// Serial number, exactly as reported (untrimmed).
    pub serial: Option<String>,
    /// USB vendor ID.
    pub vendor_id: u16,
    /// USB product ID.
    pub product_id: u16,
    /// USB topology position: which port the device is in.
    pub location_id: u64,
    /// Manufacturer string from the USB descriptor.
    pub manufacturer: Option<String>,
    /// Product string from the USB descriptor.
    pub product: Option<String>,
    /// Negotiated USB link speed, when the OS reports one.
    pub speed: Option<String>,
    /// Why the device was classified as an MTP device. Arrivals only, in practice.
    pub match_reason: Option<String>,
    /// What the daemon calls the device in its log.
    pub label: String,
}

/// A [`DeviceFacts`], with texts as sequences of characters.
#[verifier::ext_equal]
pub struct FactsView {
    pub serial: Option<Seq<char>>,
    pub vendor_id: u16,
    pub product_id: u16,
    pub location_id: u64,
    pub manufacturer: Option<Seq<char>>,
    pub product: Option<Seq<char>>,
    pub speed: Option<Seq<char>>,
    pub match_reason: Option<Seq<char>>,
    pub label: Seq<char>,
}

impl View for DeviceFacts {
    type V = FactsView;

    open spec fn view(&self) -> FactsView {
        FactsView {
            serial: opt_text(self.serial),
            vendor_id: self.vendor_id,
            product_id: self.product_id,
            location_id: self.location_id,
            manufacturer: opt_text(self.manufacturer),
            product: opt_text(self.product),
            speed: opt_text(self.speed),
            match_reason: opt_text(self.match_reason),
            label: self.label@,
        }
    }
}

impl Default for DeviceFacts {
    fn default() -> (facts: Self)
        ensures
            facts@ == (FactsView {
                serial: None,
                vendor_id: 0,
                product_id: 0,
                location_id: 0,
                manufacturer: None,
                product: None,
                speed: None,
                match_reason: None,
                label: Seq::empty(),
            }),
    {
        DeviceFacts {
            serial: None,
            vendor_id: 0,
            product_id: 0,
            location_id: 0,
            manufacturer: None,
            product: None,
            speed: None,
            match_reason: None,
            label: String::new(),
        }
    }
}

/// A device the daemon knows about.
#[derive(Debug, Clone, PartialEq, Eq)]
pub struct DeviceIdent {
    /// Identity and directory name in one: see [`crate::daemon::paths::device_dir_name`].
    ///
    /// One string does both jobs so that "is this device already mounted?" and "where does it go?"
    /// can't disagree. It has to be derivable from what an arrival *and* a departure report, since
    /// a departure is the only thing that says which mount to take down.
    pub key: String,
    /// What the device is called in the log.
    pub label: String,
    /// Serial number, when the device reports one. What a reopen matches on.
    pub serial: Option<String>,
}

/// A [`DeviceIdent`], with texts as sequences of characters.
#[verifier::ext_equal]
pub struct IdentView {
    pub key: Seq<char>,
    pub label: Seq<char>,
    pub serial: Option<Seq<char>>,
}

impl View for DeviceIdent {
    type V = IdentView;

    open spec fn view(&self) -> IdentView {
        IdentView { key: self.key@, label: self.label@, serial: opt_text(self.serial) }
    }
}

/// A serial number as it is used: trimmed, and none where nothing is left.
pub open spec fn usable(serial: Option<Seq<char>>) -> Option<Seq<char>> {
    match serial {
        Some(s) => if trim(s).len() == 0 {
            None
        } else {
            Some(trim(s))
        },
        None => None,
    }
}

/// A serial number as it is used: trimmed, and none where nothing is left.
pub fn usable_serial(serial: Option<&str>) -> (used: Option<String>)
    ensures
        opt_text(used) == usable(
            match serial {
                Some(s) => Some(s@),
                None => None,
            },
        ),
{
    match serial {
        Some(s) => {
            let t = trimmed(s);
            if t.as_str().unicode_len() == 0 {
                None
            } else {
                Some(t)
            }
        },
        None => None,
    }
}

impl FactsView {
    /// The mount key: directory name and device identity in one.
    pub open spec fn key(self) -> Seq<char> {
        dir_name(usable(self.serial), self.vendor_id, self.product_id, self.location_id)
    }

    /// The one-line name for the log.
    pub open spec fn headline(self) -> Seq<char> {
        if self.label.len() == 0 {
            "MTP device "@ + self.key()
        } else {
            self.label
        }
    }

    /// What the supervisor is handed for this device.
    pub open spec fn ident(self) -> IdentView {
        IdentView { key: self.key(), label: self.headline(), serial: usable(self.serial) }
    }
}

impl DeviceFacts {
    /// The serial the key derivation actually uses: trimmed, and `None` when blank.
    fn used_serial(&self) -> (used: Option<String>)
        ensures
            opt_text(used) == usable(self@.serial),
    {
        match &self.serial {
            Some(s) => usable_serial(Some(s.as_str())),
            None => None,
        }
    }

    /// The mount key: directory name and device identity in one. See [`device_dir_name`] for the
    /// serial-then-USB-address rule.
    pub fn key(&self) -> (key: String)
        ensures
            key@ == self@.key(),
    {
        match self.used_serial() {
            Some(s) => device_dir_name(
                Some(s.as_str()),
                self.vendor_id,
                self.product_id,
                self.location_id,
            ),
            None => device_dir_name(None, self.vendor_id, self.product_id, self.location_id),
        }
    }

    /// What the supervisor is handed for this device.
    pub fn ident(&self) -> (ident: DeviceIdent)
        ensures
            ident@ == self@.ident(),
    {
        DeviceIdent { key: self.key(), label: self.headline(), serial: self.used_serial() }
    }

    /// The one-line name for the log, falling back to the key for a device that reports no strings
    /// at all.
    pub fn headline(&self) -> (name: String)
        ensures
            name@ == self@.headline(),
    {
        if self.label.as_str().unicode_len() == 0 {
            let mut name = "MTP device ".to_string();
            name.append(self.key().as_str());
            name
        } else {
            self.label.clone()
        }
    }
}

/// An arrival and a departure that agree on IDs, port and what is usable of the serial number have
/// the same mount key, whatever else they report.
pub proof fn keys_depend_on_identity_alone(arrival: FactsView, departure: FactsView)
    requires
        usable(arrival.serial) == usable(departure.serial),
        arrival.vendor_id == departure.vendor_id,
        arrival.product_id == departure.product_id,
        arrival.location_id == departure.location_id,
    ensures
        arrival.key() == departure.key(),
        arrival.ident().key == departure.ident().key,
{
}

/// Which serial number is used: what is reported, without the blanks around it, where anything is left
/// of it; otherwise none.
pub proof fn serials_are_used_without_blanks(serial: Option<Seq<char>>)
    ensures
        serial is None ==> usable(serial) is None,
        serial matches Some(s) ==> match usable(serial) {
            Some(used) => {
                &&& used == trim(s)
                &&& used.len() > 0
            },
            None => trim(s).len() == 0,
        },
        usable(usable(serial)) == usable(serial),
{
    if let Some(s) = serial {
        crate::text::trimming_cuts_white_space_alone(s);
    }
}

/// What the supervisor is handed for a device: its key, its serial number as it is used, and what it is
/// called, or a name made of its key where it is called nothing.
pub proof fn identities_name_their_device(facts: FactsView)
    ensures
        facts.ident().key == facts.key(),
        facts.ident().serial == usable(facts.serial),
        facts.label.len() > 0 ==> facts.ident().label == facts.label,
        facts.label.len() == 0 ==> facts.ident().label == "MTP device "@ + facts.key(),
        facts.key() == crate::daemon::paths::dir_name(
            usable(facts.serial),
            facts.vendor_id,
            facts.product_id,
            facts.location_id,
        ),
{
}

} // verus!
