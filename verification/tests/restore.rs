use linnstrument_cli::crc::crc32;
use linnstrument_cli::protocol::{
    is_possible, Action, Activity, Event, Failure, Notice, Stage, Step, Target,
};
use linnstrument_cli::restore::Restore;

/// An instrument that takes what it is sent.
struct Instrument {
    sent: Vec<Vec<u8>>,
    replies: Vec<u8>,
    notices: Vec<Notice>,
}

fn drive(
    instrument: &mut Instrument,
    restore: &mut Restore,
    first: Step,
) -> Result<(), Failure<Vec<u8>>> {
    let mut step = first;
    instrument.replies.reverse();
    loop {
        if let Some(notice) = step.notice {
            instrument.notices.push(notice);
        }
        let event = match step.action {
            Action::Finish => return Ok(()),
            Action::Fail(failure) => return Err(failure),
            Action::Write(bytes) => {
                instrument.sent.push(bytes);
                Event::Done
            }
            Action::Read(count) => {
                assert_eq!(count, 1);
                match instrument.replies.pop() {
                    Some(byte) => Event::Received(vec![byte]),
                    None => Event::Failed,
                }
            }
            other => panic!("{:?}", other),
        };
        assert!(is_possible(&restore.request(), &event));
        step = restore.advance(event);
    }
}

fn load(
    target: Target,
    version: u8,
    data: &[u8],
    replies: &[u8],
) -> (Result<(), Failure<Vec<u8>>>, Instrument) {
    let mut instrument =
        Instrument { sent: Vec::new(), replies: replies.to_vec(), notices: Vec::new() };
    let (mut restore, step) = Restore::start(target, version, data);
    let result = drive(&mut instrument, &mut restore, step);
    (result, instrument)
}

fn pattern(size: usize) -> Vec<u8> {
    (0..size).map(|i| (i * 13 + 1) as u8).collect()
}

#[test]
fn a_project_is_sent_in_blocks() {
    for size in [0usize, 1, 96, 97, 200] {
        let data = pattern(size);
        let mut replies = b"ACK\nACK\nACK\nACK\n".to_vec();
        for _ in data.chunks(96) {
            replies.extend_from_slice(b"co");
        }
        replies.extend_from_slice(b"ACK\n");
        let (result, instrument) = load(Target::Project { index: 15 }, 17, &data, &replies);
        result.unwrap();
        let mut sent =
            vec![b"q".to_vec(), vec![17], (size as i32).to_le_bytes().to_vec(), vec![15]];
        for block in data.chunks(96) {
            sent.push(block.to_vec());
            sent.push(crc32(block).to_le_bytes().to_vec());
        }
        assert_eq!(instrument.sent, sent);
        assert!(instrument.replies.is_empty());
    }
}

#[test]
fn settings_are_sent_with_their_version_ahead() {
    let data = pattern(96);
    let (result, instrument) =
        load(Target::Settings, 17, &data, b"ACK\nACK\ncocoACK\n");
    result.unwrap();
    let mut blob = vec![17];
    blob.extend_from_slice(&data);
    assert_eq!(
        instrument.sent,
        vec![
            b"r".to_vec(),
            97i32.to_le_bytes().to_vec(),
            blob[..96].to_vec(),
            crc32(&blob[..96]).to_le_bytes().to_vec(),
            blob[96..].to_vec(),
            crc32(&blob[96..]).to_le_bytes().to_vec(),
        ]
    );
    assert_eq!(
        instrument.notices,
        vec![
            Notice::LoadingSettings { version: 17, size: 96 },
            Notice::Wrote { done: 96, total: 97 },
            Notice::Wrote { done: 97, total: 97 },
            Notice::RestoredSettings { version: 17, size: 96 },
        ]
    );
}

#[test]
fn empty_settings_still_send_their_version() {
    let (result, instrument) = load(Target::Settings, 12, &[], b"ACK\nACK\ncoACK\n");
    result.unwrap();
    assert_eq!(instrument.sent[2], vec![12]);
}

#[test]
fn a_rejected_block_is_sent_again_five_times_at_most() {
    let data = pattern(100);
    let (result, instrument) = load(
        Target::Project { index: 0 },
        17,
        &data,
        b"ACK\nACK\nACK\nACK\ncwcwcwcwcwcocwcoACK\n",
    );
    result.unwrap();
    let resent = instrument.sent.iter().filter(|bytes| bytes[..] == data[..96]).count();
    assert_eq!(resent, 6);
    assert_eq!(
        instrument.notices,
        vec![
            Notice::LoadingProject { number: 1, version: 17, size: 100 },
            Notice::Resending { offset: 0, retry: 1 },
            Notice::Resending { offset: 0, retry: 2 },
            Notice::Resending { offset: 0, retry: 3 },
            Notice::Resending { offset: 0, retry: 4 },
            Notice::Resending { offset: 0, retry: 5 },
            Notice::Wrote { done: 96, total: 100 },
            Notice::Resending { offset: 96, retry: 1 },
            Notice::Wrote { done: 100, total: 100 },
            Notice::RestoredProject { number: 1, size: 100 },
        ]
    );
}

#[test]
fn a_block_that_is_rejected_once_more_ends_the_restore() {
    let (result, instrument) = load(
        Target::Project { index: 0 },
        17,
        &pattern(100),
        b"ACK\nACK\nACK\nACK\ncocwcwcwcwcwcw",
    );
    assert!(matches!(result.unwrap_err(), Failure::BlockRejected { offset: 96 }));
    assert!(instrument.replies.is_empty());
}

#[test]
fn unexpected_replies_about_a_block_end_the_restore() {
    let (result, _) = load(Target::Settings, 17, &[1], b"ACK\nACK\nx");
    assert!(matches!(result.unwrap_err(), Failure::ExpectedCrcRequest { reply: b'x' }));
    let (result, _) = load(Target::Settings, 17, &[1], b"ACK\nACK\ncx");
    assert!(matches!(result.unwrap_err(), Failure::ExpectedCrcResult { reply: b'x' }));
    let (result, _) = load(Target::Settings, 17, &[1], b"ACK\nACK\nc");
    assert!(matches!(result.unwrap_err(), Failure::Io(Activity::ExchangeCrc)));
}

#[test]
fn a_step_that_is_not_acknowledged_ends_the_restore() {
    let (result, instrument) =
        load(Target::Project { index: 0 }, 17, &[1], b"ACK\nACK\nno\n");
    match result.unwrap_err() {
        Failure::NotAcknowledged { stage, response } => {
            assert_eq!(stage, Stage::ProjectSize);
            assert_eq!(response, b"no\n");
        }
        other => panic!("{:?}", other),
    }
    assert_eq!(instrument.sent.len(), 3);
    let (result, _) = load(Target::Settings, 17, &[1], b"ACK\nACK\ncoNAK\n");
    assert!(matches!(
        result.unwrap_err(),
        Failure::NotAcknowledged { stage: Stage::SettingsTransfer, .. }
    ));
}

#[test]
fn a_failed_block_write_ends_the_restore() {
    let (mut restore, _) = Restore::start(Target::Settings, 17, &[1]);
    for _ in 0..2 {
        restore.advance(Event::Done);
        for byte in b"ACK\n" {
            restore.advance(Event::Received(vec![*byte]));
        }
    }
    let step = restore.advance(Event::Failed);
    assert!(matches!(
        step.action,
        Action::Fail(Failure::Io(Activity::WriteBlock { offset: 0 }))
    ));
}
