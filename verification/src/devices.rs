//! Listing the serial devices, for the eye or for other programs.

use vstd::prelude::*;
use vstd::string::*;

use crate::discovery::{is_likely_linnstrument_usb, PortInfo, PortType};

#[allow(unused_imports)]
use crate::discovery::{is_likely, is_likely_usb};

verus! {

/// One line of the listing: a serial device, and whether it looks like a
/// LinnStrument.
#[derive(Debug)]
pub struct Candidate {
    pub port: String,
    pub description: Option<String>,
    pub manufacturer: Option<String>,
    pub product: Option<String>,
    pub serial_number: Option<String>,
    pub vid: Option<u16>,
    pub pid: Option<u16>,
    pub likely_linnstrument: bool,
}

/// What is listed of a port.
pub open spec fn candidate_of(info: PortInfo) -> Candidate {
    match info.port_type {
        PortType::Usb(usb) => Candidate {
            port: info.port_name,
            description: None,
            manufacturer: usb.manufacturer,
            product: usb.product,
            serial_number: usb.serial_number,
            vid: Some(usb.vid),
            pid: Some(usb.pid),
            likely_linnstrument: is_likely_usb(usb),
        },
        PortType::Other => Candidate {
            port: info.port_name,
            description: None,
            manufacturer: None,
            product: None,
            serial_number: None,
            vid: None,
            pid: None,
            likely_linnstrument: false,
        },
    }
}

/// What is listed of a port.
pub fn candidate(info: PortInfo) -> (result: Candidate)
    ensures
        result == candidate_of(info),
{
    match info.port_type {
        PortType::Usb(usb) => {
            let likely_linnstrument: bool = is_likely_linnstrument_usb(&usb);
            Candidate {
                port: info.port_name,
                description: None,
                manufacturer: usb.manufacturer,
                product: usb.product,
                serial_number: usb.serial_number,
                vid: Some(usb.vid),
                pid: Some(usb.pid),
                likely_linnstrument,
            }
        },
        PortType::Other => Candidate {
            port: info.port_name,
            description: None,
            manufacturer: None,
            product: None,
            serial_number: None,
            vid: None,
            pid: None,
            likely_linnstrument: false,
        },
    }
}

/// Lists the serial devices, in the order in which they come.
pub fn list_devices(ports: Vec<PortInfo>) -> (result: Vec<Candidate>)
    ensures
        result@ == ports@.map_values(|info: PortInfo| candidate_of(info)),
{
    let ghost all = ports@;
    let mut result: Vec<Candidate> = Vec::new();
    for info in it: ports
        invariant
            it.seq() == all,
            result@ == all.take(it.index() as int).map_values(
                |info: PortInfo| candidate_of(info),
            ),
    {
        result.push(candidate(info));
        assert(all.take(it.index() + 1) == all.take(it.index() as int).push(info));
    }
    assert(all.take(all.len() as int) == all);
    result
}

/// A hexadecimal digit.
pub open spec fn hex_digit(value: u16) -> Seq<char> {
    if value == 0 { "0"@ }
    else if value == 1 { "1"@ }
    else if value == 2 { "2"@ }
    else if value == 3 { "3"@ }
    else if value == 4 { "4"@ }
    else if value == 5 { "5"@ }
    else if value == 6 { "6"@ }
    else if value == 7 { "7"@ }
    else if value == 8 { "8"@ }
    else if value == 9 { "9"@ }
    else if value == 10 { "a"@ }
    else if value == 11 { "b"@ }
    else if value == 12 { "c"@ }
    else if value == 13 { "d"@ }
    else if value == 14 { "e"@ }
    else { "f"@ }
}

/// Four hexadecimal digits.
pub open spec fn hex(value: u16) -> Seq<char> {
    hex_digit((value / 0x1000) as u16) + hex_digit((value / 0x100 % 0x10) as u16) + hex_digit(
        (value / 0x10 % 0x10) as u16,
    ) + hex_digit((value % 0x10) as u16)
}

/// A line of its own for a text that may be missing.
pub open spec fn line_of(label: Seq<char>, text: Option<String>) -> Seq<char> {
    match text {
        Some(text) => label + text@ + "\n"@,
        None => Seq::empty(),
    }
}

/// A line of its own for USB IDs that may be missing.
pub open spec fn usb_line(vid: Option<u16>, pid: Option<u16>) -> Seq<char> {
    match (vid, pid) {
        (Some(vid), Some(pid)) => "  usb id:       "@ + hex(vid) + ":"@ + hex(pid) + "\n"@,
        _ => Seq::empty(),
    }
}

/// The paragraph for one device.
pub open spec fn paragraph(device: Candidate) -> Seq<char> {
    device.port@ + "\n"@ + line_of("  product:      "@, device.product) + line_of(
        "  manufacturer: "@,
        device.manufacturer,
    ) + usb_line(device.vid, device.pid) + (if device.likely_linnstrument {
        "  likely LinnStrument: yes\n\n"@
    } else {
        "  likely LinnStrument: no\n\n"@
    })
}

/// The paragraphs for some devices, one after the other.
pub open spec fn paragraphs(devices: Seq<Candidate>) -> Seq<char>
    decreases devices.len(),
{
    if devices.len() == 0 {
        Seq::empty()
    } else {
        paragraphs(devices.drop_last()) + paragraph(devices.last())
    }
}

/// The listing as text.
pub open spec fn report_of(devices: Seq<Candidate>) -> Seq<char> {
    if devices.len() == 0 {
        "No serial devices found.\n"@
    } else {
        paragraphs(devices)
    }
}

/// Adds a hexadecimal digit to a text.
fn append_hex_digit(text: &mut String, value: u16)
    requires
        value < 16,
    ensures
        final(text)@ == old(text)@ + hex_digit(value),
{
    let digit: &str = if value == 0 { "0" }
        else if value == 1 { "1" }
        else if value == 2 { "2" }
        else if value == 3 { "3" }
        else if value == 4 { "4" }
        else if value == 5 { "5" }
        else if value == 6 { "6" }
        else if value == 7 { "7" }
        else if value == 8 { "8" }
        else if value == 9 { "9" }
        else if value == 10 { "a" }
        else if value == 11 { "b" }
        else if value == 12 { "c" }
        else if value == 13 { "d" }
        else if value == 14 { "e" }
        else { "f" };
    text.append(digit);
}

/// Adds four hexadecimal digits to a text.
fn append_hex(text: &mut String, value: u16)
    ensures
        final(text)@ == old(text)@ + hex(value),
{
    append_hex_digit(text, value / 0x1000);
    append_hex_digit(text, value / 0x100 % 0x10);
    append_hex_digit(text, value / 0x10 % 0x10);
    append_hex_digit(text, value % 0x10);
    assert(text@ == old(text)@ + hex(value));
}

/// Adds a line for a text that may be missing.
fn append_line(text: &mut String, label: &str, content: &Option<String>)
    ensures
        final(text)@ == old(text)@ + line_of(label@, *content),
{
    if let Some(content) = content {
        text.append(label);
        text.append(content.as_str());
        text.append("\n");
    }
    assert(text@ == old(text)@ + line_of(label@, *content));
}

/// Adds the paragraph for one device to a text.
fn append_paragraph(text: &mut String, device: &Candidate)
    ensures
        final(text)@ == old(text)@ + paragraph(*device),
{
    let ghost before = text@;
    let ghost name = device.port@ + "\n"@;
    let ghost product = name + line_of("  product:      "@, device.product);
    let ghost manufacturer = product + line_of("  manufacturer: "@, device.manufacturer);
    let ghost ids = manufacturer + usb_line(device.vid, device.pid);
    text.append(device.port.as_str());
    text.append("\n");
    assert(text@ =~= before + name);
    append_line(text, "  product:      ", &device.product);
    assert(text@ =~= before + product);
    append_line(text, "  manufacturer: ", &device.manufacturer);
    assert(text@ =~= before + manufacturer);
    append_usb_line(text, device.vid, device.pid);
    assert(text@ =~= before + ids);
    if device.likely_linnstrument {
        text.append("  likely LinnStrument: yes\n\n");
        assert(text@ =~= before + (ids + "  likely LinnStrument: yes\n\n"@));
    } else {
        text.append("  likely LinnStrument: no\n\n");
        assert(text@ =~= before + (ids + "  likely LinnStrument: no\n\n"@));
    }
}

/// Adds a line for USB IDs that may be missing.
fn append_usb_line(text: &mut String, vid: Option<u16>, pid: Option<u16>)
    ensures
        final(text)@ == old(text)@ + usb_line(vid, pid),
{
    if let (Some(vid), Some(pid)) = (vid, pid) {
        text.append("  usb id:       ");
        append_hex(text, vid);
        text.append(":");
        append_hex(text, pid);
        text.append("\n");
    }
    assert(text@ =~= old(text)@ + usb_line(vid, pid));
}

/// Writes the listing as text.
pub fn report(devices: &Vec<Candidate>) -> (result: String)
    ensures
        result@ == report_of(devices@),
{
    let mut text: String = String::new();
    if devices.len() == 0 {
        text.append("No serial devices found.\n");
        assert(text@ == report_of(devices@));
        return text;
    }
    let mut i: usize = 0;
    while i < devices.len()
        invariant
            i <= devices@.len(),
            text@ == paragraphs(devices@.take(i as int)),
        decreases devices@.len() - i,
    {
        append_paragraph(&mut text, &devices[i]);
        i += 1;
        assert(devices@.take(i as int).drop_last() == devices@.take(i - 1));
    }
    assert(devices@.take(i as int) == devices@);
    text
}

/// The listing marks a port if and only if the port would be taken for that of
/// a LinnStrument.
pub proof fn law_listing_agrees_with_discovery(info: PortInfo)
    ensures
        candidate_of(info).likely_linnstrument == is_likely(info.port_type),
        candidate_of(info).port == info.port_name,
{
}

/// What a hexadecimal digit stands for.
pub open spec fn digit_value(digit: char) -> int {
    if '0' <= digit <= '9' {
        digit as int - 48
    } else {
        digit as int - 87
    }
}

proof fn lemma_digit(value: u16)
    requires
        value < 16,
    ensures
        hex_digit(value).len() == 1,
        '0' <= hex_digit(value)[0] <= '9' || 'a' <= hex_digit(value)[0] <= 'f',
        digit_value(hex_digit(value)[0]) == value,
{
    reveal_strlit("0");
    reveal_strlit("1");
    reveal_strlit("2");
    reveal_strlit("3");
    reveal_strlit("4");
    reveal_strlit("5");
    reveal_strlit("6");
    reveal_strlit("7");
    reveal_strlit("8");
    reveal_strlit("9");
    reveal_strlit("a");
    reveal_strlit("b");
    reveal_strlit("c");
    reveal_strlit("d");
    reveal_strlit("e");
    reveal_strlit("f");
}

/// A number is written as four digits, the highest first, that stand for it to
/// the base sixteen: from `0` to `9` and from `a` to `f`.
pub proof fn law_hex_digits_stand_for_the_number(value: u16)
    ensures
        hex(value).len() == 4,
        forall|i: int|
            0 <= i < 4 ==> '0' <= #[trigger] hex(value)[i] <= '9' || 'a' <= hex(value)[i] <= 'f',
        4096 * digit_value(hex(value)[0]) + 256 * digit_value(hex(value)[1]) + 16 * digit_value(
            hex(value)[2],
        ) + digit_value(hex(value)[3]) == value,
{
    let (a, b, c, d) = (
        (value / 0x1000) as u16,
        (value / 0x100 % 0x10) as u16,
        (value / 0x10 % 0x10) as u16,
        (value % 0x10) as u16,
    );
    lemma_digit(a);
    lemma_digit(b);
    lemma_digit(c);
    lemma_digit(d);
    assert(hex(value)[0] == hex_digit(a)[0]);
    assert(hex(value)[1] == hex_digit(b)[0]);
    assert(hex(value)[2] == hex_digit(c)[0]);
    assert(hex(value)[3] == hex_digit(d)[0]);
}

/// Different numbers are written differently.
pub proof fn law_hex_tells_numbers_apart(a: u16, b: u16)
    requires
        hex(a) == hex(b),
    ensures
        a == b,
{
    law_hex_digits_stand_for_the_number(a);
    law_hex_digits_stand_for_the_number(b);
}

/// What is listed of a port is what the port says about itself: its name, and of
/// a USB port also the names, the serial number and the IDs of the device.
pub proof fn law_listing_shows_what_the_port_says(info: PortInfo)
    ensures
        ({
            let listed = candidate_of(info);
            &&& listed.port == info.port_name
            &&& listed.description is None
            &&& match info.port_type {
                PortType::Usb(usb) => {
                    &&& listed.manufacturer == usb.manufacturer
                    &&& listed.product == usb.product
                    &&& listed.serial_number == usb.serial_number
                    &&& listed.vid == Some(usb.vid)
                    &&& listed.pid == Some(usb.pid)
                },
                PortType::Other => {
                    &&& listed.manufacturer is None
                    &&& listed.product is None
                    &&& listed.serial_number is None
                    &&& listed.vid is None
                    &&& listed.pid is None
                    &&& !listed.likely_linnstrument
                },
            }
        }),
{
}

/// The listing of some devices and then others is the one after the other; with
/// no device at all it says so. One device is listed by the name of its port on a
/// line of its own, then its product, its manufacturer and its IDs on a line
/// each, as far as they are known, then whether it is likely to be a
/// LinnStrument, and an empty line.
pub proof fn law_listing_is_put_together(device: Candidate, others: Seq<Candidate>)
    ensures
        report_of(Seq::empty()) == "No serial devices found.\n"@,
        others.len() > 0 ==> report_of(seq![device] + others) == report_of(seq![device])
            + report_of(others),
        ({
            let product = match device.product {
                Some(name) => "  product:      "@ + name@ + "\n"@,
                None => Seq::empty(),
            };
            let manufacturer = match device.manufacturer {
                Some(name) => "  manufacturer: "@ + name@ + "\n"@,
                None => Seq::empty(),
            };
            let ids = match (device.vid, device.pid) {
                (Some(vid), Some(pid)) => "  usb id:       "@ + hex(vid) + ":"@ + hex(pid)
                    + "\n"@,
                _ => Seq::empty(),
            };
            let verdict = if device.likely_linnstrument {
                "  likely LinnStrument: yes\n\n"@
            } else {
                "  likely LinnStrument: no\n\n"@
            };
            report_of(seq![device]) == device.port@ + "\n"@ + product + manufacturer + ids + verdict
        }),
{
    let one = seq![device];
    assert(one.drop_last() =~= Seq::<Candidate>::empty());
    assert(one.last() == device);
    let none = paragraphs(Seq::empty());
    assert(none + paragraph(device) =~= paragraph(device));
    lemma_paragraphs(one, others);
}

proof fn lemma_paragraphs(front: Seq<Candidate>, behind: Seq<Candidate>)
    ensures
        paragraphs(front + behind) == paragraphs(front) + paragraphs(behind),
    decreases behind.len(),
{
    if behind.len() == 0 {
        assert(front + behind =~= front);
        assert(paragraphs(front) + paragraphs(behind) =~= paragraphs(front));
    } else {
        lemma_paragraphs(front, behind.drop_last());
        assert((front + behind).drop_last() =~= front + behind.drop_last());
        assert(paragraphs(front + behind) =~= paragraphs(front) + paragraphs(behind));
    }
}

} // verus!
