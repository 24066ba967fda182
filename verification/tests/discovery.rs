use linnstrument_cli::discovery::{
    find_linnstrument_port, is_likely_linnstrument, is_likely_linnstrument_port,
    is_linnstrument_vid_pid, wait_for_reenumerated_port, NoLinnStrument, PortInfo, PortType,
    UsbInfo,
};

fn usb(name: &str, vid: u16, pid: u16, product: &str) -> PortInfo {
    PortInfo {
        port_name: name.to_string(),
        port_type: PortType::Usb(UsbInfo {
            vid,
            pid,
            serial_number: None,
            manufacturer: None,
            product: Some(product.to_string()),
        }),
    }
}

fn plain(name: &str) -> PortInfo {
    PortInfo { port_name: name.to_string(), port_type: PortType::Other }
}

#[test]
fn both_usb_ids_have_to_match() {
    assert!(is_linnstrument_vid_pid(0xf055, 0x0070));
    assert!(!is_linnstrument_vid_pid(0xf055, 0x0071));
    assert!(!is_linnstrument_vid_pid(0xf056, 0x0070));
}

#[test]
fn names_mark_a_linnstrument_in_any_case() {
    assert!(is_likely_linnstrument(None, Some("LinnStrument")));
    assert!(is_likely_linnstrument(Some("ROGER LINN Design"), None));
    assert!(is_likely_linnstrument(None, Some("an Arduino Due board")));
    assert!(is_likely_linnstrument(Some("Atmel SAM3X"), Some("board")));
    assert!(is_likely_linnstrument(Some("xlinnSTRUMENTx"), None));
}

#[test]
fn other_names_do_not() {
    assert!(!is_likely_linnstrument(None, None));
    assert!(!is_likely_linnstrument(Some("Roger"), Some("Lin")));
    assert!(!is_likely_linnstrument(Some("linnstrumen"), None));
    assert!(!is_likely_linnstrument(Some("\u{212a}\u{e4}"), Some("sam3")));
}

#[test]
fn manufacturer_and_product_are_read_as_one_text() {
    assert!(is_likely_linnstrument(Some("Roger"), Some("Linn")));
    assert!(is_likely_linnstrument(Some("Arduino"), Some("Due")));
    assert!(!is_likely_linnstrument(Some("Linn"), Some("Strument")));
}

#[test]
fn a_port_that_is_not_usb_is_never_taken() {
    assert!(!is_likely_linnstrument_port(&PortType::Other));
    assert!(is_likely_linnstrument_port(&usb("a", 0xf055, 0x70, "").port_type));
    assert!(is_likely_linnstrument_port(&usb("a", 1, 2, "linnstrument").port_type));
    assert!(!is_likely_linnstrument_port(&usb("a", 1, 2, "mouse").port_type));
}

#[test]
fn the_usb_ids_win_over_a_name_that_comes_first() {
    let ports = vec![
        plain("ttyS0"),
        usb("ttyACM0", 1, 2, "modem"),
        usb("ttyACM1", 1, 2, "LinnStrument"),
        usb("ttyACM2", 0xf055, 0x70, "x"),
    ];
    assert_eq!(find_linnstrument_port(&ports).unwrap(), "ttyACM2");
    let ports = vec![usb("A", 0x2341, 0x003d, "Arduino Due"), usb("B", 0xf055, 0x0070, "x")];
    assert_eq!(find_linnstrument_port(&ports).unwrap(), "B");
    let ports = vec![usb("B", 0xf055, 0x0070, "x"), usb("C", 0xf055, 0x0070, "y")];
    assert_eq!(find_linnstrument_port(&ports).unwrap(), "B");
}

#[test]
fn without_the_usb_ids_the_first_likely_name_is_found() {
    let ports = vec![
        plain("ttyS0"),
        usb("ttyACM0", 0xf055, 0x71, "modem"),
        usb("ttyACM1", 1, 2, "LinnStrument"),
        usb("ttyACM2", 1, 2, "Arduino Due"),
    ];
    assert_eq!(find_linnstrument_port(&ports).unwrap(), "ttyACM1");
}

#[test]
fn no_likely_port_is_an_error() {
    assert_eq!(find_linnstrument_port(&Vec::new()).unwrap_err(), NoLinnStrument);
    assert!(find_linnstrument_port(&vec![plain("ttyS0")]).is_err());
}

#[test]
fn the_instrument_is_back_only_after_its_port_was_absent() {
    let previous = "ttyACM0".to_string();
    let mut absent = false;
    let there = vec![usb("ttyACM0", 0xf055, 0x70, "LinnStrument")];
    assert_eq!(wait_for_reenumerated_port(&previous, &mut absent, &there), None);
    assert!(!absent);
    let gone = vec![plain("ttyS0")];
    assert_eq!(wait_for_reenumerated_port(&previous, &mut absent, &gone), None);
    assert!(absent);
    assert_eq!(
        wait_for_reenumerated_port(&previous, &mut absent, &there),
        Some("ttyACM0".to_string())
    );
}

#[test]
fn the_instrument_may_come_back_under_another_name_at_once() {
    let previous = "ttyACM0".to_string();
    let mut absent = false;
    let ports = vec![usb("ttyACM1", 0xf055, 0x70, "LinnStrument")];
    assert_eq!(
        wait_for_reenumerated_port(&previous, &mut absent, &ports),
        Some("ttyACM1".to_string())
    );
}

#[test]
fn the_first_likely_port_is_taken_for_the_one_that_is_back() {
    let previous = "ttyACM0".to_string();
    let mut absent = false;
    let ports = vec![usb("A", 1, 2, "LinnStrument"), usb("B", 0xf055, 0x70, "x")];
    assert_eq!(
        wait_for_reenumerated_port(&previous, &mut absent, &ports),
        Some("A".to_string())
    );
}
