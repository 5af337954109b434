//! Remedies for the failures people actually hit when opening a device.
//!
//! The same wording backs both the `--help` troubleshooting section and the error message printed
//! when opening the device fails, so the two can't drift.
use crate::device_error::{device_error, DeviceError};
use crate::text::{join, join_texts, lines, lines_of, texts};
use vstd::prelude::*;

verus! {

/// Another process holds the USB interface.
pub const BUSY_HINT: &'static str = "\
Another program already claimed the USB interface.

On Linux that's almost always gvfs: run `gio mount -l` to find the device,
then `gio mount -u <mount-uri>` to release it. To stop gvfs from grabbing
devices at all: `systemctl --user mask gvfs-mtp-volume-monitor`.

On macOS it's `ptpcamerad`: stop it with `sudo killall ptpcamerad`, then
reconnect the device (launchd starts it again on the next connect).";

/// The OS refused access to the USB device node.
pub const PERMISSION_HINT: &'static str = "\
The OS denied access to the USB device.

On Linux this is a missing udev rule: your user has no write access to
/dev/bus/usb/*. Add yourself to the `plugdev` group, or install a udev rule
for the device's vendor ID.
See: https://github.com/vdavid/mtp-mount#requirements";

/// The remedy for a device-open failure, if there is a specific one.
pub open spec fn hint_of(error: DeviceError) -> Option<&'static str> {
    if error is ExclusiveAccess {
        Some(BUSY_HINT)
    } else if error is PermissionDenied {
        Some(PERMISSION_HINT)
    } else {
        None
    }
}

/// Pick the remedy for a classified device-open failure, if there is a specific one.
pub fn open_hint(error: &DeviceError) -> (hint: Option<&'static str>)
    ensures
        hint == hint_of(*error),
{
    match error {
        DeviceError::ExclusiveAccess => Some(BUSY_HINT),
        DeviceError::PermissionDenied => Some(PERMISSION_HINT),
        _ => None,
    }
}

/// Pick the remedy for a device-open failure, if there is a specific one.
pub fn open_failure_hint(e: &mtp_rs::Error) -> (hint: Option<&'static str>)
    ensures
        hint == hint_of(device_error(*e)),
{
    if e.is_exclusive_access() {
        Some(BUSY_HINT)
    } else if e.is_permission_denied() {
        Some(PERMISSION_HINT)
    } else {
        None
    }
}

/// A line behind `prefix`; an empty line stays empty.
pub open spec fn indented_line(line: Seq<char>, prefix: Seq<char>) -> Seq<char> {
    if line.len() == 0 {
        line
    } else {
        prefix + line
    }
}

/// A text with every non-empty line behind `prefix`.
pub open spec fn indented(text: Seq<char>, prefix: Seq<char>) -> Seq<char> {
    join(
        Seq::new(lines(text).len(), |i: int| indented_line(lines(text)[i], prefix)),
        "\n"@,
    )
}

/// Indent every non-empty line, for embedding a hint in the `--help` sections.
pub fn indent(text: &str, prefix: &str) -> (s: String)
    ensures
        s@ == indented(text@, prefix@),
{
    let found = lines_of(text);
    let ghost all = lines(text@);
    let mut out: Vec<String> = Vec::new();
    let mut i: usize = 0;
    while i < found.len()
        invariant
            i <= found.len(),
            out.len() == i,
            texts(found@) == all,
            forall|k: int| 0 <= k < i ==> (#[trigger] out@[k])@ == indented_line(all[k], prefix@),
        decreases found.len() - i,
    {
        assert(texts(found@)[i as int] == found@[i as int]@);
        if found[i].as_str().unicode_len() == 0 {
            let empty = String::new();
            assert(empty@ =~= found@[i as int]@);
            out.push(empty);
        } else {
            let mut line = prefix.to_string();
            line.append(found[i].as_str());
            out.push(line);
        }
        i += 1;
    }
    assert(texts(found@).len() == found@.len());
    assert(texts(out@) =~= Seq::new(all.len(), |i: int| indented_line(all[i], prefix@)));
    join_texts(&out, "\n")
}

/// Which failure gets which remedy: a device that another process holds is to be released, one that
/// the system refused is to be allowed, and no other failure has one.
pub proof fn each_remedy_is_for_its_failure(error: DeviceError)
    ensures
        error is ExclusiveAccess ==> hint_of(error) == Some(BUSY_HINT),
        error is PermissionDenied ==> hint_of(error) == Some(PERMISSION_HINT),
        hint_of(error) is Some <==> error is ExclusiveAccess || error is PermissionDenied,
{
}

/// An indented text has the lines of the text, each behind the prefix, but empty ones stay empty.
pub proof fn indenting_puts_the_prefix_before_each_line(line: Seq<char>, prefix: Seq<char>)
    requires
        forall|i: int| 0 <= i < line.len() ==> #[trigger] line[i] != '\n',
        line.len() > 0,
    ensures
        indented(line, prefix) == prefix + line,
        indented_line(line, prefix) == prefix + line,
        indented_line(Seq::empty(), prefix).len() == 0,
        indented(Seq::empty(), prefix).len() == 0,
{
    crate::text::lines_end_at_newlines(line, Seq::empty());
    assert(Seq::new(
        lines(line).len(),
        |i: int| indented_line(lines(line)[i], prefix),
    ) =~= seq![prefix + line]);
}

/// Each line of a text is indented on its own: a line in front of the rest is the first of the result.
pub proof fn lines_are_indented_one_by_one(line: Seq<char>, rest: Seq<char>, prefix: Seq<char>)
    requires
        forall|i: int| 0 <= i < line.len() ==> #[trigger] line[i] != '\n',
        line.len() > 0 ==> line.last() != '\r',
        rest.len() > 0,
    ensures
        indented(line + seq!['\n'] + rest, prefix) == (if line.len() == 0 {
            line
        } else {
            prefix + line
        }) + "\n"@ + indented(rest, prefix),
{
    let all = line + seq!['\n'] + rest;
    crate::text::lines_end_at_newlines(line, rest);
    let first = indented_line(line, prefix);
    let tail = Seq::new(lines(rest).len(), |i: int| indented_line(lines(rest)[i], prefix));
    assert(lines(rest).len() > 0);
    assert(Seq::new(lines(all).len(), |i: int| indented_line(lines(all)[i], prefix)) =~= seq![first]
        + tail);
    lemma_join_first(first, tail, "\n"@);
}

proof fn lemma_join_first(first: Seq<char>, rest: Seq<Seq<char>>, separator: Seq<char>)
    requires
        rest.len() > 0,
    ensures
        join(seq![first] + rest, separator) == first + separator + join(rest, separator),
    decreases rest.len(),
{
    let all = seq![first] + rest;
    assert(all.last() == rest.last());
    if rest.len() == 1 {
        assert(all =~= seq![first].push(rest[0]));
        crate::text::joining_puts_separators_between(seq![first], rest[0], separator);
        crate::text::joining_puts_separators_between(seq![first], first, separator);
    } else {
        assert(all.drop_last() =~= seq![first] + rest.drop_last());
        lemma_join_first(first, rest.drop_last(), separator);
        assert(join(all, separator) =~= first + separator + join(rest, separator));
    }
}

} // verus!
