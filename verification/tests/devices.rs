use linnstrument_cli::devices::{list_devices, report};
use linnstrument_cli::discovery::{PortInfo, PortType, UsbInfo};

fn ports() -> Vec<PortInfo> {
    vec![
        PortInfo { port_name: "/dev/ttyS0".to_string(), port_type: PortType::Other },
        PortInfo {
            port_name: "/dev/ttyACM0".to_string(),
            port_type: PortType::Usb(UsbInfo {
                vid: 0xf055,
                pid: 0x0070,
                serial_number: Some("42".to_string()),
                manufacturer: Some("Roger Linn Design".to_string()),
                product: Some("LinnStrument".to_string()),
            }),
        },
        PortInfo {
            port_name: "/dev/ttyUSB0".to_string(),
            port_type: PortType::Usb(UsbInfo {
                vid: 0x0403,
                pid: 0x6abc,
                serial_number: None,
                manufacturer: None,
                product: None,
            }),
        },
    ]
}

#[test]
fn devices_are_listed_in_order_with_what_is_known() {
    let devices = list_devices(ports());
    assert_eq!(devices.len(), 3);
    assert_eq!(devices[0].port, "/dev/ttyS0");
    assert_eq!(devices[0].vid, None);
    assert!(!devices[0].likely_linnstrument);
    assert_eq!(devices[1].port, "/dev/ttyACM0");
    assert_eq!(devices[1].description, None);
    assert_eq!(devices[1].manufacturer.as_deref(), Some("Roger Linn Design"));
    assert_eq!(devices[1].product.as_deref(), Some("LinnStrument"));
    assert_eq!(devices[1].serial_number.as_deref(), Some("42"));
    assert_eq!(devices[1].vid, Some(0xf055));
    assert_eq!(devices[1].pid, Some(0x0070));
    assert!(devices[1].likely_linnstrument);
    assert!(!devices[2].likely_linnstrument);
}

#[test]
fn the_report_has_a_paragraph_per_device() {
    let expected = "/dev/ttyS0\n  likely LinnStrument: no\n\n\
                    /dev/ttyACM0\n  product:      LinnStrument\n  \
                    manufacturer: Roger Linn Design\n  usb id:       f055:0070\n  \
                    likely LinnStrument: yes\n\n\
                    /dev/ttyUSB0\n  usb id:       0403:6abc\n  likely LinnStrument: no\n\n";
    assert_eq!(report(&list_devices(ports())), expected);
}

#[test]
fn the_report_says_when_there_is_no_device() {
    assert_eq!(report(&list_devices(Vec::new())), "No serial devices found.\n");
}

#[test]
fn usb_ids_are_written_in_lower_case_hex_with_four_digits() {
    for value in [0u16, 0x1, 0x29, 0x38ab, 0x4567, 0x89cd, 0xef01, 0xffff] {
        let device = PortInfo {
            port_name: "p".to_string(),
            port_type: PortType::Usb(UsbInfo {
                vid: value,
                pid: !value,
                serial_number: None,
                manufacturer: None,
                product: None,
            }),
        };
        let line = format!("  usb id:       {:04x}:{:04x}\n", value, !value);
        assert!(report(&list_devices(vec![device])).contains(&line));
    }
}
