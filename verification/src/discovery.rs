//! Telling a LinnStrument from the other serial devices.

use vstd::prelude::*;

use crate::text::{characters, contains, to_lower_case};

#[allow(unused_imports)]
use crate::text::{has_word, law_words_are_found, lower_case};

verus! {

/// The USB vendor that a LinnStrument reports.
pub const LINN_VENDOR_ID: u16 = 0xF055;

/// The USB product that a LinnStrument reports.
pub const LINN_PRODUCT_ID: u16 = 0x0070;

/// What a USB serial device says about itself.
#[derive(Debug)]
pub struct UsbInfo {
    pub vid: u16,
    pub pid: u16,
    pub serial_number: Option<String>,
    pub manufacturer: Option<String>,
    pub product: Option<String>,
}

/// How a serial port is attached.
#[derive(Debug)]
pub enum PortType {
    Usb(UsbInfo),
    Other,
}

/// A serial port of this machine.
#[derive(Debug)]
pub struct PortInfo {
    pub port_name: String,
    pub port_type: PortType,
}

/// No serial port looks like a LinnStrument.
#[derive(Clone, Copy, Debug, PartialEq, Eq, Structural)]
pub struct NoLinnStrument;

/// A string that may be missing, as text: nothing where it is.
pub open spec fn text_or_nothing(text: Option<&str>) -> Seq<char> {
    match text {
        Some(text) => text@,
        None => Seq::empty(),
    }
}

/// The names of a device mark it as a LinnStrument.
pub open spec fn has_likely_name(manufacturer: Seq<char>, product: Seq<char>) -> bool {
    let names = lower_case(manufacturer + seq![' '] + product);
    ||| has_word(names, "linnstrument"@)
    ||| has_word(names, "roger linn"@)
    ||| has_word(names, "arduino due"@)
    ||| has_word(names, "sam3x"@)
}

/// The view of a string that may be missing.
pub open spec fn view_of(text: Option<String>) -> Seq<char> {
    match text {
        Some(text) => text@,
        None => Seq::empty(),
    }
}

/// A USB device has the IDs of a LinnStrument.
pub open spec fn has_linn_ids(usb: UsbInfo) -> bool {
    usb.vid == LINN_VENDOR_ID && usb.pid == LINN_PRODUCT_ID
}

/// A USB device is taken for a LinnStrument: by its IDs, else by its names.
pub open spec fn is_likely_usb(usb: UsbInfo) -> bool {
    ||| has_linn_ids(usb)
    ||| has_likely_name(view_of(usb.manufacturer), view_of(usb.product))
}

/// A port is taken for that of a LinnStrument.
pub open spec fn is_likely(port_type: PortType) -> bool {
    match port_type {
        PortType::Usb(usb) => is_likely_usb(usb),
        PortType::Other => false,
    }
}

/// A port is that of a device with the IDs of a LinnStrument.
pub open spec fn is_identified(port_type: PortType) -> bool {
    match port_type {
        PortType::Usb(usb) => has_linn_ids(usb),
        PortType::Other => false,
    }
}

/// Port `i` is the first of the kind that is wanted.
pub open spec fn is_first(
    ports: Seq<PortInfo>,
    wanted: spec_fn(PortType) -> bool,
    i: int,
) -> bool {
    &&& 0 <= i < ports.len()
    &&& wanted(ports[i].port_type)
    &&& forall|j: int| 0 <= j < i ==> !wanted(#[trigger] ports[j].port_type)
}

/// The name of the first port of the kind that is wanted, if there is one.
pub open spec fn first_port(
    ports: Seq<PortInfo>,
    wanted: spec_fn(PortType) -> bool,
) -> Option<Seq<char>> {
    if exists|i: int| is_first(ports, wanted, i) {
        Some(ports[choose|i: int| is_first(ports, wanted, i)].port_name@)
    } else {
        None
    }
}

/// The name of the first port that is taken for that of a LinnStrument, if there
/// is one.
pub open spec fn first_likely(ports: Seq<PortInfo>) -> Option<Seq<char>> {
    first_port(ports, |port_type: PortType| is_likely(port_type))
}

/// The name of the first port that has the IDs of a LinnStrument, if there is
/// one.
pub open spec fn first_identified(ports: Seq<PortInfo>) -> Option<Seq<char>> {
    first_port(ports, |port_type: PortType| is_identified(port_type))
}

/// The name of the port where the LinnStrument is: a port that has its IDs, or
/// else one that has a likely name, and the first of those.
pub open spec fn located(ports: Seq<PortInfo>) -> Option<Seq<char>> {
    match first_identified(ports) {
        Some(name) => Some(name),
        None => first_likely(ports),
    }
}

/// A port of that name is there.
pub open spec fn is_present(ports: Seq<PortInfo>, name: Seq<char>) -> bool {
    exists|i: int| 0 <= i < ports.len() && (#[trigger] ports[i]).port_name@ == name
}

/// Whether a USB vendor/product pair identifies a LinnStrument.
pub fn is_linnstrument_vid_pid(vid: u16, pid: u16) -> (result: bool)
    ensures
        result == (vid == LINN_VENDOR_ID && pid == LINN_PRODUCT_ID),
{
    vid == LINN_VENDOR_ID && pid == LINN_PRODUCT_ID
}

/// Whether a device with these USB names looks like a LinnStrument.
pub fn is_likely_linnstrument(manufacturer: Option<&str>, product: Option<&str>) -> (result: bool)
    ensures
        result == has_likely_name(text_or_nothing(manufacturer), text_or_nothing(product)),
{
    let mut names: Vec<char> = Vec::new();
    if let Some(manufacturer) = manufacturer {
        let mut manufacturer = characters(manufacturer);
        names.append(&mut manufacturer);
    }
    names.push(' ');
    if let Some(product) = product {
        let mut product = characters(product);
        names.append(&mut product);
    }
    assert(names@ == text_or_nothing(manufacturer) + seq![' '] + text_or_nothing(product));
    let names = to_lower_case(&names);
    contains(&names, "linnstrument") || contains(&names, "roger linn") || contains(
        &names,
        "arduino due",
    ) || contains(&names, "sam3x")
}

/// Borrows a string that may be missing.
fn borrowed(text: &Option<String>) -> (result: Option<&str>)
    ensures
        result is Some == text is Some,
        text_or_nothing(result) == view_of(*text),
{
    match text {
        Some(text) => Some(text.as_str()),
        None => None,
    }
}

/// Whether a USB device is taken for a LinnStrument.
pub fn is_likely_linnstrument_usb(usb: &UsbInfo) -> (result: bool)
    ensures
        result == is_likely_usb(*usb),
{
    is_linnstrument_vid_pid(usb.vid, usb.pid) || is_likely_linnstrument(
        borrowed(&usb.manufacturer),
        borrowed(&usb.product),
    )
}

/// Whether a port is taken for that of a LinnStrument.
pub fn is_likely_linnstrument_port(port_type: &PortType) -> (result: bool)
    ensures
        result == is_likely(*port_type),
{
    match port_type {
        PortType::Usb(usb) => is_likely_linnstrument_usb(usb),
        PortType::Other => false,
    }
}

/// There is one first port only.
proof fn lemma_first(ports: Seq<PortInfo>, wanted: spec_fn(PortType) -> bool, i: int)
    requires
        is_first(ports, wanted, i),
    ensures
        first_port(ports, wanted) == Some(ports[i].port_name@),
{
    let j = choose|j: int| is_first(ports, wanted, j);
    assert(is_first(ports, wanted, j));
    assert(i == j) by {
        if i < j {
            assert(!wanted(ports[i].port_type));
        } else if j < i {
            assert(!wanted(ports[j].port_type));
        }
    }
}

/// Up to a port that qualifies there is a first one.
proof fn lemma_some_first(ports: Seq<PortInfo>, wanted: spec_fn(PortType) -> bool, i: int)
    requires
        0 <= i < ports.len(),
        wanted(ports[i].port_type),
    ensures
        exists|j: int| is_first(ports, wanted, j),
    decreases i,
{
    if exists|j: int| 0 <= j < i && wanted(#[trigger] ports[j].port_type) {
        let j = choose|j: int| 0 <= j < i && wanted(#[trigger] ports[j].port_type);
        lemma_some_first(ports, wanted, j);
    } else {
        assert(is_first(ports, wanted, i));
    }
}

/// Some port is found if and only if one is of the kind that is wanted, and then
/// it is the first of these in the order of the list.
pub proof fn law_first_port_is_found(ports: Seq<PortInfo>, wanted: spec_fn(PortType) -> bool)
    ensures
        first_port(ports, wanted) is Some <==> exists|i: int|
            0 <= i < ports.len() && wanted(#[trigger] ports[i].port_type),
        forall|i: int| #[trigger]
            is_first(ports, wanted, i) ==> first_port(ports, wanted) == Some(ports[i].port_name@),
{
    assert forall|i: int| #[trigger] is_first(ports, wanted, i) implies first_port(ports, wanted)
        == Some(ports[i].port_name@) by {
        lemma_first(ports, wanted, i);
    }
    if exists|i: int| is_first(ports, wanted, i) {
        let i = choose|i: int| is_first(ports, wanted, i);
        assert(wanted(ports[i].port_type));
    }
    if exists|i: int| 0 <= i < ports.len() && wanted(#[trigger] ports[i].port_type) {
        let i = choose|i: int| 0 <= i < ports.len() && wanted(#[trigger] ports[i].port_type);
        lemma_some_first(ports, wanted, i);
    }
}

/// A LinnStrument is located if and only if some port is taken for that of one.
/// A port that has the IDs of a LinnStrument wins over one that only has a
/// likely name, wherever in the list they stand.
pub proof fn law_ids_win_over_names(ports: Seq<PortInfo>)
    ensures
        located(ports) is Some <==> exists|i: int|
            0 <= i < ports.len() && is_likely(#[trigger] ports[i].port_type),
        (exists|i: int| 0 <= i < ports.len() && is_identified(#[trigger] ports[i].port_type))
            ==> exists|i: int|
            0 <= i < ports.len() && is_identified(#[trigger] ports[i].port_type) && located(ports)
                == Some(ports[i].port_name@),
{
    let identified = |port_type: PortType| is_identified(port_type);
    let likely = |port_type: PortType| is_likely(port_type);
    law_first_port_is_found(ports, identified);
    law_first_port_is_found(ports, likely);
    if exists|i: int| 0 <= i < ports.len() && is_identified(#[trigger] ports[i].port_type) {
        let i = choose|i: int| 0 <= i < ports.len() && is_identified(#[trigger] ports[i].port_type);
        assert(identified(ports[i].port_type));
        assert(is_likely(ports[i].port_type));
        lemma_some_first(ports, identified, i);
        let first = choose|j: int| is_first(ports, identified, j);
        lemma_first(ports, identified, first);
        assert(is_identified(ports[first].port_type));
    } else {
        assert(first_identified(ports) is None);
    }
    if exists|i: int| 0 <= i < ports.len() && is_likely(#[trigger] ports[i].port_type) {
        let i = choose|i: int| 0 <= i < ports.len() && is_likely(#[trigger] ports[i].port_type);
        assert(likely(ports[i].port_type));
    }
}

/// Finds the first port that has the IDs of a LinnStrument.
fn find_identified_port(ports: &Vec<PortInfo>) -> (result: Option<String>)
    ensures
        match result {
            Some(name) => first_identified(ports@) == Some(name@),
            None => first_identified(ports@) is None,
        },
{
    let ghost identified = |port_type: PortType| is_identified(port_type);
    let mut i: usize = 0;
    while i < ports.len()
        invariant
            i <= ports@.len(),
            identified == (|port_type: PortType| is_identified(port_type)),
            forall|j: int| 0 <= j < i ==> !identified(#[trigger] ports@[j].port_type),
        decreases ports@.len() - i,
    {
        let found: bool = match &ports[i].port_type {
            PortType::Usb(usb) => is_linnstrument_vid_pid(usb.vid, usb.pid),
            PortType::Other => false,
        };
        if found {
            proof {
                lemma_first(ports@, identified, i as int);
            }
            return Some(ports[i].port_name.clone());
        }
        i += 1;
    }
    None
}

/// Finds the first port that looks like that of a LinnStrument.
fn find_likely_port(ports: &Vec<PortInfo>) -> (result: Option<String>)
    ensures
        match result {
            Some(name) => first_likely(ports@) == Some(name@),
            None => first_likely(ports@) is None,
        },
{
    let ghost likely = |port_type: PortType| is_likely(port_type);
    let mut i: usize = 0;
    while i < ports.len()
        invariant
            i <= ports@.len(),
            likely == (|port_type: PortType| is_likely(port_type)),
            forall|j: int| 0 <= j < i ==> !likely(#[trigger] ports@[j].port_type),
        decreases ports@.len() - i,
    {
        if is_likely_linnstrument_port(&ports[i].port_type) {
            proof {
                lemma_first(ports@, likely, i as int);
            }
            return Some(ports[i].port_name.clone());
        }
        i += 1;
    }
    None
}

/// The serial port of the connected LinnStrument: the first that has its USB
/// IDs. Where there is none, the first that looks like it by name.
pub fn find_linnstrument_port(ports: &Vec<PortInfo>) -> (result: Result<String, NoLinnStrument>)
    ensures
        match result {
            Ok(name) => located(ports@) == Some(name@),
            Err(_) => located(ports@) is None,
        },
{
    match find_identified_port(ports) {
        Some(name) => Ok(name),
        None => match find_likely_port(ports) {
            Some(name) => Ok(name),
            None => Err(NoLinnStrument),
        },
    }
}

/// Whether a port of that name is there.
fn has_port(ports: &Vec<PortInfo>, name: &String) -> (result: bool)
    ensures
        result == is_present(ports@, name@),
{
    let mut i: usize = 0;
    while i < ports.len()
        invariant
            i <= ports@.len(),
            forall|j: int| 0 <= j < i ==> (#[trigger] ports@[j]).port_name@ != name@,
        decreases ports@.len() - i,
    {
        if ports[i].port_name == *name {
            return true;
        }
        i += 1;
    }
    false
}

/// One look at the ports while waiting for the instrument to come back.
///
/// It is taken to be back only once its previous port has been seen absent, now
/// or at an earlier look; `previous_was_absent` remembers that from look to
/// look. Gives the name of the port where it is back.
pub fn wait_for_reenumerated_port(
    previous_port: &String,
    previous_was_absent: &mut bool,
    ports: &Vec<PortInfo>,
) -> (found: Option<String>)
    ensures
        *final(previous_was_absent) == (*old(previous_was_absent) || !is_present(
            ports@,
            previous_port@,
        )),
        match found {
            Some(name) => *final(previous_was_absent) && first_likely(ports@) == Some(name@),
            None => *final(previous_was_absent) ==> first_likely(ports@) is None,
        },
{
    if !has_port(ports, previous_port) {
        *previous_was_absent = true;
    }
    if *previous_was_absent {
        find_likely_port(ports)
    } else {
        None
    }
}

/// Only the letters of the names matter, not their case.
pub proof fn law_case_does_not_matter(
    manufacturer: Seq<char>,
    product: Seq<char>,
    other_manufacturer: Seq<char>,
    other_product: Seq<char>,
)
    requires
        lower_case(manufacturer) == lower_case(other_manufacturer),
        lower_case(product) == lower_case(other_product),
    ensures
        has_likely_name(manufacturer, product) == has_likely_name(
            other_manufacturer,
            other_product,
        ),
{
    let space = seq![' '];
    assert(lower_case(manufacturer + space + product) == lower_case(manufacturer) + lower_case(
        space,
    ) + lower_case(product));
    assert(lower_case(other_manufacturer + space + other_product) == lower_case(
        other_manufacturer,
    ) + lower_case(space) + lower_case(other_product));
}

/// A name marks a LinnStrument if and only if, in lower case, it holds one of
/// four words anywhere: `linnstrument`, `roger linn`, `arduino due` or `sam3x`.
/// The name is that of the manufacturer, a space and that of the product.
pub proof fn law_four_words_mark_a_linnstrument(manufacturer: Seq<char>, product: Seq<char>)
    ensures
        has_likely_name(manufacturer, product) <==> exists|
            before: Seq<char>,
            word: Seq<char>,
            behind: Seq<char>,
        |
            lower_case(manufacturer + seq![' '] + product) == #[trigger] (before + word + behind)
                && (word == "linnstrument"@ || word == "roger linn"@ || word == "arduino due"@
                || word == "sam3x"@),
{
    let names = lower_case(manufacturer + seq![' '] + product);
    law_words_are_found(names, "linnstrument"@);
    law_words_are_found(names, "roger linn"@);
    law_words_are_found(names, "arduino due"@);
    law_words_are_found(names, "sam3x"@);
}

/// Any device whose manufacturer or product holds one of the words, with
/// whatever around it, is taken for a LinnStrument.
pub proof fn law_a_word_is_enough(
    before: Seq<char>,
    word: Seq<char>,
    behind: Seq<char>,
    other: Seq<char>,
)
    requires
        lower_case(word) == "linnstrument"@ || lower_case(word) == "roger linn"@ || lower_case(
            word,
        ) == "arduino due"@ || lower_case(word) == "sam3x"@,
    ensures
        has_likely_name(before + word + behind, other),
        has_likely_name(other, before + word + behind),
{
    let name = before + word + behind;
    let one = lower_case(name + seq![' '] + other);
    let two = lower_case(other + seq![' '] + name);
    assert(one =~= lower_case(before) + lower_case(word) + lower_case(
        behind + seq![' '] + other,
    ));
    assert(two =~= lower_case(other + seq![' '] + before) + lower_case(word) + lower_case(behind));
    law_four_words_mark_a_linnstrument(name, other);
    law_four_words_mark_a_linnstrument(other, name);
}

/// A port is taken for that of a LinnStrument if and only if it is a USB port and
/// has the vendor F055 and the product 0070, or a name that marks one. A name
/// that is missing is an empty one.
pub proof fn law_what_is_taken_for_a_linnstrument(port_type: PortType)
    ensures
        is_identified(port_type) <==> port_type is Usb && port_type->Usb_0.vid == 0xf055
            && port_type->Usb_0.pid == 0x0070,
        is_likely(port_type) <==> port_type is Usb && (is_identified(port_type)
            || has_likely_name(
            match port_type->Usb_0.manufacturer {
                Some(name) => name@,
                None => Seq::empty(),
            },
            match port_type->Usb_0.product {
                Some(name) => name@,
                None => Seq::empty(),
            },
        )),
{
}

/// Where the instrument is located: at the first port that has its IDs, or, where
/// none has, at the first that is taken for its port, or nowhere.
pub proof fn law_where_the_instrument_is_located(ports: Seq<PortInfo>, i: int)
    requires
        0 <= i < ports.len(),
    ensures
        is_identified(ports[i].port_type) && (forall|j: int|
            0 <= j < i ==> !is_identified(#[trigger] ports[j].port_type)) ==> located(ports)
            == Some(ports[i].port_name@),
        is_likely(ports[i].port_type) && (forall|j: int|
            0 <= j < ports.len() ==> !is_identified(#[trigger] ports[j].port_type)) && (forall|
            j: int,
        |
            0 <= j < i ==> !is_likely(#[trigger] ports[j].port_type)) ==> located(ports) == Some(
            ports[i].port_name@,
        ),
{
    let identified = |port_type: PortType| is_identified(port_type);
    let likely = |port_type: PortType| is_likely(port_type);
    if is_identified(ports[i].port_type) && (forall|j: int|
        0 <= j < i ==> !is_identified(#[trigger] ports[j].port_type)) {
        assert(is_first(ports, identified, i));
        lemma_first(ports, identified, i);
    }
    if is_likely(ports[i].port_type) && (forall|j: int|
        0 <= j < ports.len() ==> !is_identified(#[trigger] ports[j].port_type)) && (forall|j: int|
        0 <= j < i ==> !is_likely(#[trigger] ports[j].port_type)) {
        assert forall|j: int| !is_first(ports, identified, j) by {
            if 0 <= j < ports.len() {
                assert(!is_identified(ports[j].port_type));
            }
        }
        assert(first_identified(ports) is None);
        assert(is_first(ports, likely, i));
        lemma_first(ports, likely, i);
    }
}

/// A name that is there is taken as a whole, and one that is missing is empty.
pub proof fn law_names_are_taken_as_a_whole(name: &str)
    ensures
        text_or_nothing(Some(name)) == name@,
        text_or_nothing(None) == Seq::<char>::empty(),
{
}

} // verus!
