use linnstrument_cli::connect::{
    is_possible_connect, ConnectAction, ConnectEvent, Connecting,
};
use linnstrument_cli::discovery::{PortInfo, PortType, UsbInfo};
use linnstrument_cli::instrument::{LinnStrument, LoadError};
use linnstrument_cli::files::{build_file, FileError};
use linnstrument_cli::protocol::{Action, Activity, Failure, InvalidProjectIndex, Notice};

type Ask = ConnectAction<Vec<u8>, String>;

const GREETING: &[u8] = b"LinnStruments are go!\n";
const SECOND: u64 = 1_000_000_000;

fn instrument_on(name: &str) -> PortInfo {
    PortInfo {
        port_name: name.to_string(),
        port_type: PortType::Usb(UsbInfo {
            vid: 0xf055,
            pid: 0x0070,
            serial_number: None,
            manufacturer: None,
            product: None,
        }),
    }
}

fn answer(connecting: &mut Connecting, event: ConnectEvent<Vec<PortInfo>>) -> Ask {
    assert!(is_possible_connect(&connecting.request(), &event));
    connecting.advance(event)
}

/// Greets the instrument, which sends `reply`.
fn greet(connecting: &mut Connecting, reply: &[u8]) -> Ask {
    let action = answer(connecting, ConnectEvent::Done);
    assert!(matches!(action, ConnectAction::Pause(1000)));
    let action = answer(connecting, ConnectEvent::Done);
    match action {
        ConnectAction::Write(bytes) => assert_eq!(bytes, b"5, 4, 3, 2, 1 ...\n"),
        other => panic!("{:?}", other),
    }
    let mut action = answer(connecting, ConnectEvent::Done);
    for byte in reply {
        assert!(matches!(action, ConnectAction::ReadByte));
        action = answer(connecting, ConnectEvent::Received(*byte));
    }
    action
}

#[test]
fn an_instrument_that_greets_back_is_connected() {
    let (mut connecting, action) = LinnStrument::open("ttyACM0");
    match action {
        ConnectAction::Open { port, attempt } => {
            assert_eq!(port, "ttyACM0");
            assert_eq!(attempt, 1);
        }
        other => panic!("{:?}", other),
    }
    assert!(LinnStrument::connected(&connecting).is_none());
    let action = greet(&mut connecting, GREETING);
    assert!(matches!(action, ConnectAction::Finish));
    assert!(connecting.is_connected());
    assert!(LinnStrument::connected(&connecting).is_some());
    assert_eq!(connecting.port(), "ttyACM0");
}

#[test]
fn another_greeting_fails_the_attempt() {
    let (mut connecting, _) = LinnStrument::open("a");
    match greet(&mut connecting, b"LinnStruments are gone!\n") {
        ConnectAction::Abandon { failure: Failure::UnexpectedGreeting { response }, last } => {
            assert_eq!(response, b"LinnStruments are gone!\n");
            assert!(!last);
        }
        other => panic!("{:?}", other),
    }
}

#[test]
fn a_greeting_without_end_fails_the_attempt() {
    let (mut connecting, _) = LinnStrument::open("a");
    let action = greet(&mut connecting, &[b'x'; 257]);
    assert!(matches!(
        action,
        ConnectAction::Abandon {
            failure: Failure::LineTooLong(Activity::ReadHandshake),
            last: false
        }
    ));
}

#[test]
fn each_way_for_an_attempt_to_fail_is_told_apart() {
    let (mut connecting, _) = LinnStrument::open("a");
    let action = answer(&mut connecting, ConnectEvent::Failed);
    assert!(matches!(
        action,
        ConnectAction::Abandon { failure: Failure::Io(Activity::OpenPort), .. }
    ));
    for (event, expected) in [
        (ConnectEvent::Failed, Activity::SendHandshake),
        (ConnectEvent::FlushFailed, Activity::FlushHandshake),
    ] {
        let (mut connecting, _) = LinnStrument::open("a");
        answer(&mut connecting, ConnectEvent::Done);
        answer(&mut connecting, ConnectEvent::Done);
        match answer(&mut connecting, event) {
            ConnectAction::Abandon { failure: Failure::Io(activity), .. } => {
                assert_eq!(activity, expected)
            }
            other => panic!("{:?}", other),
        }
    }
    let (mut connecting, _) = LinnStrument::open("a");
    greet(&mut connecting, b"Linn");
    let action = answer(&mut connecting, ConnectEvent::Failed);
    assert!(matches!(
        action,
        ConnectAction::Abandon { failure: Failure::Io(Activity::ReadHandshake), .. }
    ));
}

#[test]
fn the_search_waits_for_the_port_to_vanish_and_come_back() {
    let (mut connecting, _) = LinnStrument::open("a");
    answer(&mut connecting, ConnectEvent::Failed);
    let action = answer(&mut connecting, ConnectEvent::Done);
    assert!(matches!(action, ConnectAction::ReadClock));
    let action = answer(&mut connecting, ConnectEvent::Clock(5));
    assert!(matches!(action, ConnectAction::ListPorts));
    let action = answer(&mut connecting, ConnectEvent::Ports(vec![instrument_on("a")]));
    assert!(matches!(action, ConnectAction::ReadClock));
    let action = answer(&mut connecting, ConnectEvent::Clock(15 * SECOND + 4));
    assert!(matches!(action, ConnectAction::Pause(250)));
    answer(&mut connecting, ConnectEvent::Done);
    let action = answer(&mut connecting, ConnectEvent::Failed);
    assert!(matches!(action, ConnectAction::ReadClock));
    answer(&mut connecting, ConnectEvent::Clock(6));
    answer(&mut connecting, ConnectEvent::Done);
    match answer(&mut connecting, ConnectEvent::Ports(vec![instrument_on("a")])) {
        ConnectAction::Open { port, attempt } => {
            assert_eq!(port, "a");
            assert_eq!(attempt, 2);
        }
        other => panic!("{:?}", other),
    }
    let action = greet(&mut connecting, GREETING);
    assert!(matches!(action, ConnectAction::Finish));
}

#[test]
fn the_search_ends_after_fifteen_seconds() {
    let (mut connecting, _) = LinnStrument::open("a");
    answer(&mut connecting, ConnectEvent::Failed);
    answer(&mut connecting, ConnectEvent::Done);
    answer(&mut connecting, ConnectEvent::Clock(7));
    answer(&mut connecting, ConnectEvent::Ports(Vec::new()));
    let action = answer(&mut connecting, ConnectEvent::Clock(15 * SECOND + 7));
    assert!(matches!(action, ConnectAction::Fail(Failure::NotBackInTime)));
}

#[test]
fn five_attempts_are_made() {
    let (mut connecting, mut action) = LinnStrument::open("a");
    let mut opened = 0;
    loop {
        let event = match action {
            ConnectAction::Open { attempt, .. } => {
                opened += 1;
                assert_eq!(attempt, opened);
                ConnectEvent::Failed
            }
            ConnectAction::Abandon { last, .. } => {
                assert_eq!(last, opened == 5);
                ConnectEvent::Done
            }
            ConnectAction::ReadClock => ConnectEvent::Clock(0),
            ConnectAction::ListPorts => {
                let name = if opened % 2 == 0 { "a" } else { "b" };
                ConnectEvent::Ports(vec![instrument_on(name)])
            }
            ConnectAction::Fail(failure) => {
                assert!(matches!(failure, Failure::NoConnection));
                break;
            }
            other => panic!("{:?}", other),
        };
        action = answer(&mut connecting, event);
    }
    assert_eq!(opened, 5);
}

fn connected() -> LinnStrument {
    let (mut connecting, _) = LinnStrument::open("a");
    greet(&mut connecting, GREETING);
    LinnStrument::connected(&connecting).unwrap()
}

#[test]
fn saving_begins_with_its_command() {
    let instrument = connected();
    let (_, step) = instrument.save_project(15).unwrap();
    assert!(matches!(step.action, Action::Write(ref bytes) if bytes == b"j"));
    assert_eq!(instrument.save_project(16).unwrap_err(), InvalidProjectIndex);
    let (_, step) = instrument.save_settings();
    assert!(matches!(step.action, Action::Write(ref bytes) if bytes == b"s"));
}

#[test]
fn loading_begins_with_its_command() {
    let instrument = connected();
    let file = build_file(17, b"abc");
    let (_, step) = instrument.load_project(3, &file).unwrap();
    assert_eq!(step.notice, Some(Notice::LoadingProject { number: 4, version: 17, size: 3 }));
    assert!(matches!(step.action, Action::Write(ref bytes) if bytes == b"q"));
    let (_, step) = instrument.load_settings(&file).unwrap();
    assert_eq!(step.notice, Some(Notice::LoadingSettings { version: 17, size: 3 }));
    assert!(matches!(step.action, Action::Write(ref bytes) if bytes == b"r"));
}

#[test]
fn a_refused_load_sends_nothing() {
    let instrument = connected();
    assert_eq!(
        instrument.load_project(16, b"").unwrap_err(),
        LoadError::InvalidProjectIndex
    );
    assert_eq!(
        instrument.load_project(0, b"").unwrap_err(),
        LoadError::File(FileError::TooSmall { length: 0 })
    );
    assert_eq!(
        instrument.load_settings(&build_file(9, b"")).unwrap_err(),
        FileError::UnsupportedVersion { version: 9 }
    );
}
