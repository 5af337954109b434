//! Where the daemon puts its mounts, and what it calls each one.
//!
//! Mounts go under one root directory, one subdirectory per device, so a file manager or a script
//! can watch a single predictable path and see devices come and go. `$XDG_RUNTIME_DIR/mtp` is that
//! root: it's per-user, it's a tmpfs the session owns, and the OS clears it at logout.
use crate::error::MountError;
use crate::spool::{
    cache_base, cache_dir, join_path, non_empty, path_join, set_value, CacheConvention,
};
use crate::text::{chars_of, decimal, hex4, is_space, push_decimal, push_hex4, trim, trimmed};
use vstd::prelude::*;

verus! {

/// Subdirectory of `$XDG_RUNTIME_DIR` that holds the mounts.
pub const RUNTIME_SUBDIR: &'static str = "mtp";

/// Longest device directory name the daemon will produce.
///
/// Serial numbers are short in practice; the cap is there so a device that reports something
/// absurd can't push the mount path past `PATH_MAX`.
pub const MAX_DIR_NAME: usize = 64;

/// What is said where there is no directory to mount devices under.
pub open spec fn no_root_text(what: Seq<char>) -> Seq<char> {
    "can't find a directory to mount devices under: "@ + what
        + ". Pass --mount-root to say where mounts should appear."@
}

fn no_root_error(what: &str) -> (error: MountError)
    ensures
        error matches MountError::Other(message) && message@ == no_root_text(what@),
{
    let mut message = "can't find a directory to mount devices under: ".to_string();
    message.append(what);
    message.append(". Pass --mount-root to say where mounts should appear.");
    MountError::Other(message)
}

/// What of the environment would have been needed.
pub open spec fn unset_text(convention: CacheConvention) -> Seq<char> {
    match convention {
        CacheConvention::MacOs => "neither $XDG_RUNTIME_DIR nor $HOME is set"@,
        CacheConvention::Xdg => "none of $XDG_RUNTIME_DIR, $XDG_CACHE_HOME, or $HOME is set"@,
    }
}

/// Resolve the directory that holds all the mounts. Empty env values count as unset.
///
/// - `override_dir`: the `--mount-root` flag, wins over everything.
/// - `xdg_runtime_dir`: `$XDG_RUNTIME_DIR`, the intended home for these.
/// - `xdg_cache_home`, `home`, `convention`: the fallback, same convention as the spool dir (see
///   [`crate::spool`]).
///
/// **Why the cache dir as the fallback, not `/tmp`.** `$XDG_RUNTIME_DIR` is unset outside a logind
/// session (a plain SSH login, a container, macOS). A world-writable `/tmp/mtp` would be a trap:
/// another user could pre-create the path. The user's own cache directory is private and stable
/// across reboots, which costs one stale-mount sweep at startup that the daemon does anyway.
pub fn resolve_mount_root(
    override_dir: Option<&str>,
    xdg_runtime_dir: Option<&str>,
    xdg_cache_home: Option<&str>,
    home: Option<&str>,
    convention: CacheConvention,
) -> (root: Result<String, MountError>)
    ensures
        match (override_dir, set_value(xdg_runtime_dir)) {
            (Some(chosen), _) => root matches Ok(r) && r@ == chosen@,
            (None, Some(runtime)) => root matches Ok(r) && r@ == path_join(
                runtime,
                RUNTIME_SUBDIR@,
            ),
            (None, None) => match cache_base(
                set_value(xdg_cache_home),
                set_value(home),
                convention,
            ) {
                Some(base) => root matches Ok(r) && r@ == path_join(
                    path_join(base, "mtp-mount"@),
                    "mounts"@,
                ),
                None => root matches Err(MountError::Other(message)) && message@ == no_root_text(
                    unset_text(convention),
                ),
            },
        },
{
    if let Some(chosen) = override_dir {
        return Ok(chosen.to_string());
    }
    if let Some(runtime) = non_empty(xdg_runtime_dir) {
        return Ok(join_path(runtime, RUNTIME_SUBDIR));
    }
    match cache_dir(xdg_cache_home, home, convention) {
        Some(base) => Ok(join_path(join_path(base.as_str(), "mtp-mount").as_str(), "mounts")),
        None => Err(
            match convention {
                CacheConvention::MacOs => no_root_error(
                    "neither $XDG_RUNTIME_DIR nor $HOME is set",
                ),
                CacheConvention::Xdg => no_root_error(
                    "none of $XDG_RUNTIME_DIR, $XDG_CACHE_HOME, or $HOME is set",
                ),
            },
        ),
    }
}

/// Whether a character may stand in a device directory name.
pub open spec fn is_name_char(c: char) -> bool {
    ||| 'A' <= c <= 'Z'
    ||| 'a' <= c <= 'z'
    ||| '0' <= c <= '9'
    ||| c == '.'
    ||| c == '_'
    ||| c == '-'
}

fn may_stand_in_name(c: char) -> (may: bool)
    ensures
        may == is_name_char(c),
{
    ('A' <= c && c <= 'Z') || ('a' <= c && c <= 'z') || ('0' <= c && c <= '9') || c == '.' || c
        == '_' || c == '-'
}

/// `s` cut to the longest length a name may have, with `_` for every character that may not stand
/// in one.
pub open spec fn sanitized(s: Seq<char>) -> Seq<char> {
    Seq::new(
        if s.len() < MAX_DIR_NAME {
            s.len()
        } else {
            MAX_DIR_NAME as nat
        },
        |i: int|
            if is_name_char(s[i]) {
                s[i]
            } else {
                '_'
            },
    )
}

/// Whether a name consists of dots alone.
pub open spec fn only_dots(s: Seq<char>) -> bool {
    forall|i: int| 0 <= i < s.len() ==> #[trigger] s[i] == '.'
}

/// The name of a device by its place on the bus.
pub open spec fn usb_name(vendor_id: u16, product_id: u16, location_id: u64) -> Seq<char> {
    "usb-"@ + hex4(vendor_id as int) + "-"@ + hex4(product_id as int) + "-"@ + decimal(
        location_id as nat,
    )
}

/// The directory name of a device.
pub open spec fn dir_name(
    serial: Option<Seq<char>>,
    vendor_id: u16,
    product_id: u16,
    location_id: u64,
) -> Seq<char> {
    match serial {
        Some(s) => if trim(s).len() == 0 || only_dots(sanitized(trim(s))) {
            usb_name(vendor_id, product_id, location_id)
        } else {
            sanitized(trim(s))
        },
        None => usb_name(vendor_id, product_id, location_id),
    }
}

fn usb_form(vendor_id: u16, product_id: u16, location_id: u64) -> (name: String)
    ensures
        name@ == usb_name(vendor_id, product_id, location_id),
{
    let mut name = "usb-".to_string();
    push_hex4(&mut name, vendor_id);
    name.append("-");
    push_hex4(&mut name, product_id);
    name.append("-");
    push_decimal(&mut name, location_id);
    name
}

/// The directory name a device gets under the mount root.
///
/// The serial number when the device reports one, because that's what people recognize and what
/// stays the same across ports and reboots. Devices that report no serial (plenty of cameras, some
/// cheap players) fall back to `usb-<vendor>-<product>-<location>`, which is deterministic for as
/// long as the device stays in the same port.
///
/// The name doubles as the device's identity for the daemon, so two devices that report the *same*
/// serial collide.
///
/// Anything outside `[A-Za-z0-9._-]` becomes `_`, and a name that's only dots falls back to the USB
/// form: a serial is device-controlled input, and it ends up as a path component.
pub fn device_dir_name(
    serial: Option<&str>,
    vendor_id: u16,
    product_id: u16,
    location_id: u64,
) -> (name: String)
    ensures
        name@ == dir_name(
            match serial {
                Some(s) => Some(s@),
                None => None,
            },
            vendor_id,
            product_id,
            location_id,
        ),
{
    let serial = match serial {
        Some(s) => s,
        None => {
            return usb_form(vendor_id, product_id, location_id);
        },
    };
    let chars = chars_of(trimmed(serial).as_str());
    if chars.len() == 0 {
        return usb_form(vendor_id, product_id, location_id);
    }
    let ghost clean = sanitized(trim(serial@));
    let mut name = String::new();
    let mut dots = true;
    let mut i: usize = 0;
    assert(name@ =~= clean.take(0));
    while i < chars.len() && i < MAX_DIR_NAME
        invariant
            i <= chars.len(),
            i <= MAX_DIR_NAME,
            chars@ == trim(serial@),
            clean == sanitized(trim(serial@)),
            name@ == clean.take(i as int),
            dots == only_dots(clean.take(i as int)),
        decreases chars.len() - i,
    {
        let c: char = if may_stand_in_name(chars[i]) {
            chars[i]
        } else {
            '_'
        };
        name.push(c);
        proof {
            assert(name@ =~= clean.take(i + 1));
            assert(clean.take(i + 1)[i as int] == c);
            assert forall|k: int| 0 <= k < i implies #[trigger] clean.take(i as int)[k]
                == clean.take(i + 1)[k] by {}
            if c != '.' {
                assert(!only_dots(clean.take(i + 1)));
            }
            if dots && c == '.' {
                assert forall|k: int| 0 <= k < i + 1 implies #[trigger] clean.take(i + 1)[k]
                    == '.' by {
                    if k < i {
                        assert(clean.take(i as int)[k] == '.');
                    }
                }
            }
            if !dots {
                let k = choose|k: int|
                    0 <= k < clean.take(i as int).len() && #[trigger] clean.take(i as int)[k]
                        != '.';
                assert(clean.take(i + 1)[k] != '.');
            }
        }
        dots = dots && c == '.';
        i += 1;
    }
    assert(clean.take(i as int) =~= clean);
    if dots {
        return usb_form(vendor_id, product_id, location_id);
    }
    name
}

/// A decimal number below `bound`, a power of ten, has no more digits than the power says.
proof fn lemma_digits(n: nat, digits: nat, bound: nat)
    requires
        digits > 0,
        bound == vstd::arithmetic::power::pow(10, digits),
        n < bound,
    ensures
        decimal(n).len() <= digits,
    decreases digits,
{
    vstd::arithmetic::power::lemma_pow_positive(10, (digits - 1) as nat);
    reveal(vstd::arithmetic::power::pow);
    if n >= 10 {
        let tenth = vstd::arithmetic::power::pow(10, (digits - 1) as nat);
        assert(bound == 10 * tenth);
        assert(digits > 1) by {
            if digits == 1 {
                assert(vstd::arithmetic::power::pow(10, 0) == 1);
            }
        }
        lemma_digits(n / 10, (digits - 1) as nat, tenth as nat);
    }
}

/// A device's directory name is one path component of harmless characters, neither too long nor
/// `.` or `..`:
/// whatever serial number a device reports, its mount cannot leave the mount root.
pub proof fn names_stay_under_the_root(
    root: Seq<char>,
    serial: Option<Seq<char>>,
    vendor_id: u16,
    product_id: u16,
    location_id: u64,
)
    ensures
        ({
            let name = dir_name(serial, vendor_id, product_id, location_id);
            &&& 0 < name.len() <= MAX_DIR_NAME
            &&& forall|i: int| 0 <= i < name.len() ==> is_name_char(#[trigger] name[i])
            &&& !only_dots(name)
            &&& path_join(root, name) == if root.len() == 0 || root.last() == '/' {
                root + name
            } else {
                root + "/"@ + name
            }
        }),
{
    reveal_strlit("usb-");
    reveal_strlit("-");
    let usb = usb_name(vendor_id, product_id, location_id);
    crate::size::lemma_numeral(location_id as nat);
    let a = "usb-"@ + hex4(vendor_id as int);
    let b = a + "-"@;
    let c = b + hex4(product_id as int);
    let d = c + "-"@;
    let e = decimal(location_id as nat);
    assert(usb == d + e);
    assert(d.len() == 14);
    assert forall|i: int| 0 <= i < usb.len() implies is_name_char(#[trigger] usb[i]) by {
        if i < 14 {
            assert(usb[i] == d[i]);
        } else {
            assert(usb[i] == e[i - 14]);
            assert(crate::size::is_digit(e[i - 14]));
        }
    }
    assert(usb[0] == 'u');
    assert(e.len() <= 20) by {
        assert(vstd::arithmetic::power::pow(10, 20) == 100_000_000_000_000_000_000) by {
            reveal_with_fuel(vstd::arithmetic::power::pow, 21);
        }
        lemma_digits(location_id as nat, 20, 100_000_000_000_000_000_000);
    }
    let name = dir_name(serial, vendor_id, product_id, location_id);
    if name != usb {
        let s = serial->0;
        assert(name == sanitized(trim(s)));
    }
    assert(is_name_char(name[0]));
}

/// A serial number that is already a proper name is the name of its device's directory.
pub proof fn proper_serials_name_their_device(
    serial: Seq<char>,
    vendor_id: u16,
    product_id: u16,
    location_id: u64,
)
    requires
        0 < serial.len() <= MAX_DIR_NAME,
        !only_dots(serial),
        forall|i: int| 0 <= i < serial.len() ==> is_name_char(#[trigger] serial[i]),
    ensures
        dir_name(Some(serial), vendor_id, product_id, location_id) == serial,
{
    assert(!is_space(serial[0])) by {
        assert(is_name_char(serial[0]));
    }
    assert(!is_space(serial.last())) by {
        assert(is_name_char(serial[serial.len() - 1]));
    }
    assert(trim(serial) == serial);
    assert(sanitized(serial) =~= serial);
}

/// What a serial number makes of a name: as many of its characters as a name can have, each that can
/// stand in one as it is, and a low line in the place of any other.
pub proof fn serials_show_in_the_name(
    serial: Seq<char>,
    vendor_id: u16,
    product_id: u16,
    location_id: u64,
    i: int,
)
    requires
        trim(serial).len() > 0,
        exists|k: int|
            0 <= k < trim(serial).len() && k < MAX_DIR_NAME && #[trigger] trim(serial)[k] != '.',
    ensures
        ({
            let name = dir_name(Some(serial), vendor_id, product_id, location_id);
            let text = trim(serial);
            &&& text.len() <= 64 ==> name.len() == text.len()
            &&& text.len() > 64 ==> name.len() == 64
            &&& 0 <= i < name.len() ==> name[i] == text[i] || name[i] == '_'
            &&& 0 <= i < name.len() && ('A' <= text[i] <= 'Z' || 'a' <= text[i] <= 'z' || '0'
                <= text[i] <= '9' || text[i] == '.' || text[i] == '_' || text[i] == '-') ==> name[i]
                == text[i]
        }),
{
    let text = trim(serial);
    let k = choose|k: int|
        0 <= k < text.len() && k < MAX_DIR_NAME && #[trigger] text[k] != '.';
    assert(sanitized(text)[k] != '.');
}

/// Devices without a usable serial number are told apart by what they are and where they are plugged
/// in: different ones have different names.
pub proof fn nameless_devices_are_told_apart(
    vendor_a: u16,
    product_a: u16,
    location_a: u64,
    vendor_b: u16,
    product_b: u16,
    location_b: u64,
)
    ensures
        dir_name(None, vendor_a, product_a, location_a) == dir_name(
            None,
            vendor_b,
            product_b,
            location_b,
        ) ==> vendor_a == vendor_b && product_a == product_b && location_a == location_b,
        dir_name(Some(Seq::empty()), vendor_a, product_a, location_a) == dir_name(
            None,
            vendor_a,
            product_a,
            location_a,
        ),
        dir_name(None, vendor_a, product_a, location_a).take(4) == "usb-"@,
{
    reveal_strlit("usb-");
    reveal_strlit("-");
    let a = dir_name(None, vendor_a, product_a, location_a);
    let b = dir_name(None, vendor_b, product_b, location_b);
    lemma_usb_parts(vendor_a, product_a, location_a);
    lemma_usb_parts(vendor_b, product_b, location_b);
    assert(trim(Seq::<char>::empty()).len() == 0);
    if a == b {
        crate::text::four_digits_stand_for_the_number(vendor_a as int);
        crate::text::four_digits_stand_for_the_number(vendor_b as int);
        crate::text::four_digits_stand_for_the_number(product_a as int);
        crate::text::four_digits_stand_for_the_number(product_b as int);
        crate::size::lemma_numeral(location_a as nat);
        crate::size::lemma_numeral(location_b as nat);
    }
}

proof fn lemma_usb_parts(vendor_id: u16, product_id: u16, location_id: u64)
    ensures
        ({
            let name = usb_name(vendor_id, product_id, location_id);
            &&& name.take(4) == "usb-"@
            &&& name.subrange(4, 8) == hex4(vendor_id as int)
            &&& name.subrange(9, 13) == hex4(product_id as int)
            &&& name.skip(14) == decimal(location_id as nat)
        }),
{
    reveal_strlit("usb-");
    reveal_strlit("-");
    let name = usb_name(vendor_id, product_id, location_id);
    assert(name.take(4) =~= "usb-"@);
    assert(name.subrange(4, 8) =~= hex4(vendor_id as int));
    assert(name.subrange(9, 13) =~= hex4(product_id as int));
    assert(name.skip(14) =~= decimal(location_id as nat));
}

/// Whatever serial number a device reports, its name is no path of its own: no character of it is a
/// slash or anything but a letter, a digit, a dot, a low line or a hyphen, and not all of them are dots.
/// A serial number of dots alone, or of nothing, names no device.
pub proof fn dots_and_slashes_name_no_device(
    serial: Option<Seq<char>>,
    vendor_id: u16,
    product_id: u16,
    location_id: u64,
    i: int,
)
    ensures
        ({
            let name = dir_name(serial, vendor_id, product_id, location_id);
            let c = name[i];
            &&& 0 <= i < name.len() ==> 'A' <= c <= 'Z' || 'a' <= c <= 'z' || '0' <= c <= '9' || c
                == '.' || c == '_' || c == '-'
            &&& exists|k: int| 0 <= k < name.len() && #[trigger] name[k] != '.'
            &&& serial is None ==> name == usb_name(vendor_id, product_id, location_id)
            &&& serial matches Some(s) ==> (forall|k: int|
                0 <= k < trim(s).len() ==> #[trigger] trim(s)[k] == '.') ==> name == usb_name(
                vendor_id,
                product_id,
                location_id,
            )
        }),
{
    let name = dir_name(serial, vendor_id, product_id, location_id);
    names_stay_under_the_root(Seq::empty(), serial, vendor_id, product_id, location_id);
    if 0 <= i < name.len() {
        assert(is_name_char(name[i]));
    }
    assert(exists|k: int| 0 <= k < name.len() && #[trigger] name[k] != '.');
    if let Some(s) = serial {
        if forall|k: int| 0 <= k < trim(s).len() ==> #[trigger] trim(s)[k] == '.' {
            assert forall|k: int| 0 <= k < sanitized(trim(s)).len() implies #[trigger] sanitized(
                trim(s),
            )[k] == '.' by {
                assert(trim(s)[k] == '.');
            }
        }
    }
}

} // verus!
