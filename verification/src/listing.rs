//! The list of connected devices, as `--list` prints it.
use crate::daemon::facts::opt_text;
use crate::text::{decimal, hex4, push_decimal, push_hex4};
use vstd::prelude::*;

verus! {

/// What is listed of a device.
#[derive(Debug)]
pub struct ListedDevice {
    pub manufacturer: Option<String>,
    pub product: Option<String>,
    pub serial: Option<String>,
    pub vendor_id: u16,
    pub product_id: u16,
}

/// A [`ListedDevice`], with texts as sequences of characters.
#[verifier::ext_equal]
pub struct ListedView {
    pub manufacturer: Option<Seq<char>>,
    pub product: Option<Seq<char>>,
    pub serial: Option<Seq<char>>,
    pub vendor_id: u16,
    pub product_id: u16,
}

impl View for ListedDevice {
    type V = ListedView;

    open spec fn view(&self) -> ListedView {
        ListedView {
            manufacturer: opt_text(self.manufacturer),
            product: opt_text(self.product),
            serial: opt_text(self.serial),
            vendor_id: self.vendor_id,
            product_id: self.product_id,
        }
    }
}

pub open spec fn listed_views(devices: Seq<ListedDevice>) -> Seq<ListedView> {
    Seq::new(devices.len(), |i: int| devices[i]@)
}

/// A text, or what stands in its place.
pub open spec fn or_else(o: Option<Seq<char>>, missing: Seq<char>) -> Seq<char> {
    match o {
        Some(s) => s,
        None => missing,
    }
}

fn text_or(o: &Option<String>, missing: &str) -> (s: String)
    ensures
        s@ == or_else(opt_text(*o), missing@),
{
    match o {
        Some(s) => s.clone(),
        None => missing.to_string(),
    }
}

/// The line of the `i`-th device.
pub open spec fn device_line(i: int, device: ListedView) -> Seq<char> {
    "  ["@ + decimal(i as nat) + "] "@ + or_else(device.manufacturer, "Unknown"@) + " "@ + or_else(
        device.product,
        "Unknown"@,
    ) + " (serial: "@ + or_else(device.serial, "(no serial)"@) + ", USB "@ + hex4(
        device.vendor_id as int,
    ) + ":"@ + hex4(device.product_id as int) + ")\n"@
}

/// `head` followed by the lines of the devices.
pub open spec fn with_lines(head: Seq<char>, devices: Seq<ListedView>) -> Seq<char>
    decreases devices.len(),
{
    if devices.len() == 0 {
        head
    } else {
        with_lines(head, devices.drop_last()) + device_line(devices.len() - 1, devices.last())
    }
}

/// What is said where no device is connected.
pub const NO_DEVICES: &'static str = "No MTP devices found.

Make sure your device is unlocked, USB mode is set to
\"File Transfer\", and the USB debugging prompt is accepted.
";

/// The list of connected devices.
pub open spec fn device_list(devices: Seq<ListedView>) -> Seq<char> {
    if devices.len() == 0 {
        NO_DEVICES@
    } else {
        with_lines("Found "@ + decimal(devices.len()) + " MTP device(s):\n\n"@, devices)
            + "\nUse -d SERIAL to mount a specific device.\n"@
    }
}

fn line_of(i: usize, device: &ListedDevice) -> (line: String)
    ensures
        line@ == device_line(i as int, device@),
{
    let mut line = "  [".to_string();
    push_decimal(&mut line, i as u64);
    line.append("] ");
    line.append(text_or(&device.manufacturer, "Unknown").as_str());
    line.append(" ");
    line.append(text_or(&device.product, "Unknown").as_str());
    line.append(" (serial: ");
    line.append(text_or(&device.serial, "(no serial)").as_str());
    line.append(", USB ");
    push_hex4(&mut line, device.vendor_id);
    line.append(":");
    push_hex4(&mut line, device.product_id);
    line.append(")\n");
    line
}

/// The list of connected devices.
pub fn list_devices(devices: &Vec<ListedDevice>) -> (text: String)
    ensures
        text@ == device_list(listed_views(devices@)),
{
    if devices.len() == 0 {
        return NO_DEVICES.to_string();
    }
    let ghost views = listed_views(devices@);
    let mut text = "Found ".to_string();
    push_decimal(&mut text, devices.len() as u64);
    text.append(" MTP device(s):\n\n");
    let ghost head = text@;
    let mut i: usize = 0;
    while i < devices.len()
        invariant
            i <= devices.len(),
            views == listed_views(devices@),
            text@ == with_lines(head, views.take(i as int)),
        decreases devices.len() - i,
    {
        assert(views.take(i + 1).drop_last() =~= views.take(i as int));
        text.append(line_of(i, &devices[i]).as_str());
        i += 1;
    }
    assert(views.take(i as int) =~= views);
    text.append("\nUse -d SERIAL to mount a specific device.\n");
    text
}

proof fn lemma_line_is_in(head: Seq<char>, devices: Seq<ListedView>, i: int) -> (k: int)
    requires
        0 <= i < devices.len(),
    ensures
        ({
            let text = with_lines(head, devices);
            let line = device_line(i, devices[i]);
            &&& head.len() <= k
            &&& k + line.len() <= text.len()
            &&& text.subrange(k, k + line.len()) == line
        }),
        with_lines(head, devices).len() >= head.len(),
    decreases devices.len(),
{
    let init = devices.drop_last();
    let before = with_lines(head, init);
    let last = device_line(devices.len() - 1, devices.last());
    let text = with_lines(head, devices);
    lemma_head_first(head, init);
    if i < init.len() {
        let k = lemma_line_is_in(head, init, i);
        let line = device_line(i, devices[i]);
        assert(text.subrange(k, k + line.len()) =~= before.subrange(k, k + line.len()));
        k
    } else {
        let k = before.len() as int;
        assert(text.subrange(k, k + last.len()) =~= last);
        k
    }
}

proof fn lemma_head_first(head: Seq<char>, devices: Seq<ListedView>)
    ensures
        with_lines(head, devices).len() >= head.len(),
        with_lines(head, devices).take(head.len() as int) == head,
    decreases devices.len(),
{
    if devices.len() > 0 {
        lemma_head_first(head, devices.drop_last());
        let before = with_lines(head, devices.drop_last());
        let text = with_lines(head, devices);
        assert(text.take(head.len() as int) =~= before.take(head.len() as int));
    } else {
        assert(head.take(head.len() as int) =~= head);
    }
}

proof fn lemma_line_parts(i: int, device: ListedView)
    ensures
        ({
            let line = device_line(i, device);
            let start = "  ["@ + decimal(i as nat) + "] "@;
            let ids = ", USB "@ + hex4(device.vendor_id as int) + ":"@ + hex4(
                device.product_id as int,
            ) + ")\n"@;
            let serial = match device.serial {
                Some(s) => s,
                None => "(no serial)"@,
            };
            &&& line.len() >= start.len() + serial.len() + ids.len()
            &&& line.take(start.len() as int) == start
            &&& line.skip(line.len() - ids.len()) == ids
            &&& line.subrange(
                line.len() - ids.len() - serial.len(),
                line.len() - ids.len(),
            ) == serial
        }),
{
    let line = device_line(i, device);
    let start = "  ["@ + decimal(i as nat) + "] "@;
    let maker = or_else(device.manufacturer, "Unknown"@);
    let product = or_else(device.product, "Unknown"@);
    let names = maker + " "@ + product + " (serial: "@;
    let serial = or_else(device.serial, "(no serial)"@);
    let vendor = hex4(device.vendor_id as int);
    let number = hex4(device.product_id as int);
    let ids = ", USB "@ + vendor + ":"@ + number + ")\n"@;
    lemma_regroup(start, maker, " "@, product, " (serial: "@);
    let front = start + maker + " "@ + product + " (serial: "@;
    lemma_regroup(front + serial, ", USB "@, vendor, ":"@, number);
    assert(line =~= front + serial + ", USB "@ + vendor + ":"@ + number + ")\n"@);
    assert(line =~= front + serial + ids);
    assert(front =~= start + names);
    lemma_four(start, names, serial, ids);
}

proof fn lemma_regroup(a: Seq<char>, b: Seq<char>, c: Seq<char>, d: Seq<char>, e: Seq<char>)
    ensures
        a + b + c + d + e == a + (b + c + d + e),
{
    assert(a + b + c + d + e =~= a + (b + c + d + e));
}

proof fn lemma_four(a: Seq<char>, b: Seq<char>, c: Seq<char>, d: Seq<char>)
    ensures
        ({
            let all = a + b + c + d;
            &&& all.take(a.len() as int) == a
            &&& all.skip(all.len() - d.len()) == d
            &&& all.subrange(all.len() - d.len() - c.len(), all.len() - d.len()) == c
        }),
{
    let all = a + b + c + d;
    assert(all.take(a.len() as int) =~= a);
    assert(all.skip(all.len() - d.len()) =~= d);
    assert(all.subrange(all.len() - d.len() - c.len(), all.len() - d.len()) =~= c);
}

/// Every connected device is listed, on a line of its own that says where in the list it is, its serial
/// number, or that it has none, and its USB identifiers; and the list starts with how many there are.
pub proof fn every_device_is_listed(devices: Seq<ListedView>, i: int) -> (k: int)
    requires
        0 <= i < devices.len(),
    ensures
        ({
            let text = device_list(devices);
            let device = devices[i];
            let line = device_line(i, device);
            let head = "Found "@ + decimal(devices.len()) + " MTP device(s):\n\n"@;
            let start = "  ["@ + decimal(i as nat) + "] "@;
            let ids = ", USB "@ + hex4(device.vendor_id as int) + ":"@ + hex4(
                device.product_id as int,
            ) + ")\n"@;
            let serial = match device.serial {
                Some(s) => s,
                None => "(no serial)"@,
            };
            &&& text.take(head.len() as int) == head
            &&& 0 <= k && k + line.len() <= text.len()
            &&& text.subrange(k, k + line.len()) == line
            &&& line.len() >= start.len() + serial.len() + ids.len()
            &&& line.take(start.len() as int) == start
            &&& line.skip(line.len() - ids.len()) == ids
            &&& line.subrange(
                line.len() - ids.len() - serial.len(),
                line.len() - ids.len(),
            ) == serial
        }),
{
    let text = device_list(devices);
    let device = devices[i];
    let line = device_line(i, device);
    let head = "Found "@ + decimal(devices.len()) + " MTP device(s):\n\n"@;
    let body = with_lines(head, devices);
    let k = lemma_line_is_in(head, devices, i);
    lemma_head_first(head, devices);
    assert(text.take(head.len() as int) =~= body.take(head.len() as int));
    assert(text.subrange(k, k + line.len()) =~= body.subrange(k, k + line.len()));
    lemma_line_parts(i, device);
    k
}

} // verus!
