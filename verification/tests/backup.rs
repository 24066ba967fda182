use linnstrument_cli::backup::Backup;
use linnstrument_cli::crc::crc32;
use linnstrument_cli::files::{build_file, FileError, ProjectFile};
use linnstrument_cli::protocol::{
    is_possible, Action, Activity, Event, Failure, Notice, Stage, Step, Target,
};

/// A line with scripted input that records all output.
struct Line {
    input: Vec<u8>,
    at: usize,
    chunk: usize,
    sent: Vec<u8>,
    pauses: usize,
    file: Option<Vec<u8>>,
    renamed: bool,
    notices: Vec<Notice>,
}

impl Line {
    fn new(input: Vec<u8>) -> Line {
        Line {
            input,
            at: 0,
            chunk: 1000,
            sent: Vec::new(),
            pauses: 0,
            file: None,
            renamed: false,
            notices: Vec::new(),
        }
    }

    fn take(&mut self, count: usize) -> Vec<u8> {
        let bytes = self.input[self.at..self.at + count].to_vec();
        self.at += count;
        bytes
    }

    fn perform(&mut self, action: &Action<Vec<u8>>) -> Event<Vec<u8>> {
        let left = self.input.len() - self.at;
        match action {
            Action::Write(bytes) => {
                self.sent.extend_from_slice(bytes);
                Event::Done
            }
            Action::Read(count) if *count <= left => Event::Received(self.take(*count)),
            Action::Read(_) => Event::Failed,
            Action::ReadSome(_) if left == 0 => Event::TimedOut,
            Action::ReadSome(count) => {
                let count = (*count).min(left).min(self.chunk);
                Event::Received(self.take(count))
            }
            Action::Pause(time) => {
                assert_eq!(*time, 20);
                self.pauses += 1;
                Event::Done
            }
            Action::WriteTemporary(bytes) => {
                self.file = Some(bytes.clone());
                Event::Done
            }
            Action::RenameTemporary => {
                assert!(self.file.is_some());
                self.renamed = true;
                Event::Done
            }
            Action::Finish => unreachable!(),
            Action::Fail(_) => unreachable!(),
        }
    }

    fn drive(&mut self, backup: &mut Backup, first: Step) -> Result<(), Failure<Vec<u8>>> {
        let mut step = first;
        loop {
            if let Some(notice) = step.notice {
                self.notices.push(notice);
            }
            let event = match step.action {
                Action::Finish => return Ok(()),
                Action::Fail(failure) => return Err(failure),
                ref action => {
                    let event = self.perform(action);
                    assert!(is_possible(action, &event));
                    event
                }
            };
            step = backup.advance(event);
        }
    }

    fn save(&mut self, target: Target) -> Result<(), Failure<Vec<u8>>> {
        let (mut backup, step) = Backup::start(target);
        self.drive(&mut backup, step)
    }
}

fn pattern(size: usize) -> Vec<u8> {
    (0..size).map(|i| (i * 31 + 5) as u8).collect()
}

/// What an instrument sends of a project.
fn project_input(version: u8, data: &[u8]) -> Vec<u8> {
    let mut input = b"ACK\nACK\n".to_vec();
    input.push(version);
    input.extend_from_slice(&(data.len() as i32).to_le_bytes());
    for block in data.chunks(96) {
        input.extend_from_slice(block);
        input.extend_from_slice(&crc32(block).to_le_bytes());
    }
    input.extend_from_slice(b"ACK\n");
    input
}

/// What an instrument sends of its settings.
fn settings_input(data: &[u8]) -> Vec<u8> {
    let mut input = b"ACK\n".to_vec();
    input.extend_from_slice(&(data.len() as i32).to_le_bytes());
    for block in data.chunks(96) {
        input.extend_from_slice(block);
        if data[0] != 9 {
            input.extend_from_slice(&crc32(block).to_le_bytes());
        }
    }
    input.extend_from_slice(b"ACK\n");
    input
}

#[test]
fn a_project_is_saved_as_it_is_held() {
    for size in [0usize, 1, 95, 96, 97, 192, 500] {
        for chunk in [1usize, 7, 1000] {
            let data = pattern(size);
            let mut line = Line::new(project_input(17, &data));
            line.chunk = chunk;
            line.save(Target::Project { index: 2 }).unwrap();
            assert_eq!(line.file, Some(build_file(17, &data)));
            assert!(line.renamed);
            let blocks = (size + 95) / 96;
            assert_eq!(line.pauses, blocks);
            let mut sent = vec![b'j', 2];
            for _ in 0..blocks {
                sent.extend_from_slice(b"co");
            }
            assert_eq!(line.sent, sent);
            let file = line.file.unwrap();
            let project = ProjectFile::parse(&file).unwrap();
            assert_eq!(project.data, &data[..]);
        }
    }
}

#[test]
fn the_user_is_told_how_a_backup_goes() {
    let data = pattern(100);
    let mut line = Line::new(project_input(17, &data));
    line.save(Target::Project { index: 2 }).unwrap();
    assert_eq!(
        line.notices,
        vec![
            Notice::ReadingProject { number: 3, version: 17, size: 100 },
            Notice::Read { done: 96, total: 100 },
            Notice::Read { done: 100, total: 100 },
            Notice::SavedProject { number: 3, size: 100, crc: crc32(&data) },
        ]
    );
}

#[test]
fn settings_are_saved_without_their_leading_version() {
    let mut data = pattern(130);
    data[0] = 17;
    let mut line = Line::new(settings_input(&data));
    line.save(Target::Settings).unwrap();
    assert_eq!(line.file, Some(build_file(17, &data[1..])));
    assert_eq!(line.sent, b"scoco");
    assert_eq!(
        line.notices,
        vec![
            Notice::ReadingSettings { size: 130 },
            Notice::Read { done: 96, total: 130 },
            Notice::Read { done: 130, total: 130 },
            Notice::SavedSettings { version: 17, size: 129, crc: crc32(&data[1..]) },
        ]
    );
}

#[test]
fn settings_of_version_nine_are_read_without_crcs() {
    let mut data = pattern(130);
    data[0] = 9;
    let mut line = Line::new(settings_input(&data));
    line.save(Target::Settings).unwrap();
    let file = line.file.unwrap();
    assert_eq!(file, build_file(9, &data[1..]));
    assert_eq!(line.sent, b"saa");
    assert_eq!(
        ProjectFile::parse(&file).unwrap_err(),
        FileError::UnsupportedVersion { version: 9 }
    );
}

#[test]
fn settings_of_an_older_version_are_refused() {
    let mut data = pattern(10);
    data[0] = 8;
    let mut line = Line::new(settings_input(&data));
    let failure = line.save(Target::Settings).unwrap_err();
    assert!(matches!(failure, Failure::UnsupportedSettingsVersion { version: 8 }));
    assert_eq!(line.file, None);
}

#[test]
fn a_damaged_block_is_asked_for_again() {
    let data = pattern(100);
    let mut damaged = data[..96].to_vec();
    damaged[40] ^= 1;
    let mut input = b"ACK\nACK\n".to_vec();
    input.push(17);
    input.extend_from_slice(&100i32.to_le_bytes());
    input.extend_from_slice(&damaged);
    input.extend_from_slice(&crc32(&data[..96]).to_le_bytes());
    input.extend_from_slice(&data[..96]);
    input.extend_from_slice(&crc32(&data[..96]).to_le_bytes());
    input.extend_from_slice(&data[96..]);
    input.extend_from_slice(&crc32(&data[96..]).to_le_bytes());
    input.extend_from_slice(b"ACK\n");
    let mut line = Line::new(input);
    line.save(Target::Project { index: 0 }).unwrap();
    assert_eq!(line.file, Some(build_file(17, &data)));
    assert_eq!(line.sent, b"j\0cwcoco");
    assert_eq!(line.pauses, 2);
    assert!(line.notices.contains(&Notice::CrcMismatch {
        offset: 0,
        local: crc32(&damaged),
        remote: crc32(&data[..96]),
    }));
}

#[test]
fn the_version_of_the_settings_comes_from_the_block_that_was_accepted() {
    let mut data = pattern(20);
    data[0] = 17;
    let mut damaged = data.clone();
    damaged[0] = 16;
    let mut input = b"ACK\n".to_vec();
    input.extend_from_slice(&20i32.to_le_bytes());
    input.extend_from_slice(&damaged);
    input.extend_from_slice(&crc32(&data).to_le_bytes());
    input.extend_from_slice(&data);
    input.extend_from_slice(&crc32(&data).to_le_bytes());
    input.extend_from_slice(b"ACK\n");
    let mut line = Line::new(input);
    line.save(Target::Settings).unwrap();
    assert_eq!(line.file, Some(build_file(17, &data[1..])));

    let mut input = b"ACK\n\x01\0\0\0".to_vec();
    input.extend_from_slice(&[0x62, 0x43, 0xbe, 0xb7, 0xe8]);
    input.extend_from_slice(&[0x61, 0x43, 0xbe, 0xb7, 0xe8]);
    input.extend_from_slice(b"ACK\n");
    let mut line = Line::new(input);
    line.save(Target::Settings).unwrap();
    assert_eq!(line.sent, b"scwco");
    assert_eq!(line.file, Some(vec![0x61, 0, 0, 0, 0, 0, 0, 0, 0]));
}

/// What an instrument sends of settings of `held`, where the first block comes
/// as each of `sendings` in turn.
fn resent_settings(held: &[u8], sendings: &[&[u8]]) -> Vec<u8> {
    let mut input = b"ACK\n".to_vec();
    input.extend_from_slice(&(held.len() as i32).to_le_bytes());
    for sending in sendings {
        input.extend_from_slice(sending);
        input.extend_from_slice(&crc32(&held[..sending.len()]).to_le_bytes());
    }
    for block in held[sendings[0].len()..].chunks(96) {
        input.extend_from_slice(block);
        input.extend_from_slice(&crc32(block).to_le_bytes());
    }
    input.extend_from_slice(b"ACK\n");
    input
}

#[test]
fn settings_that_are_sent_again_are_checked_whatever_their_first_byte() {
    for byte in [9u8, 8, 0] {
        let input = resent_settings(&[0x61], &[&[0x62], &[byte], &[0x61]]);
        let mut line = Line::new(input);
        line.save(Target::Settings).unwrap();
        assert_eq!(line.sent, b"scwcwco");
        assert_eq!(line.file, Some(build_file(0x61, &[])));
    }
}

#[test]
fn the_version_of_settings_that_were_sent_again_is_judged_once_it_is_certain() {
    let mut line = Line::new(resent_settings(&[8], &[&[0x62], &[8]]));
    let failure = line.save(Target::Settings).unwrap_err();
    assert!(matches!(failure, Failure::UnsupportedSettingsVersion { version: 8 }));
    assert_eq!(line.sent, b"scwc");
    assert_eq!(line.file, None);

    let mut held = pattern(100);
    held[0] = 9;
    let mut first = held[..96].to_vec();
    first[0] = 0x62;
    let mut line = Line::new(resent_settings(&held, &[&first, &held[..96]]));
    line.save(Target::Settings).unwrap();
    assert_eq!(line.sent, b"scwcoco");
    assert_eq!(line.file, Some(build_file(9, &held[1..])));
}

#[test]
fn a_later_rejection_leaves_the_version_of_the_settings() {
    let mut data = pattern(100);
    data[0] = 17;
    let mut damaged = data[96..].to_vec();
    damaged[0] ^= 1;
    let mut input = b"ACK\n".to_vec();
    input.extend_from_slice(&100i32.to_le_bytes());
    input.extend_from_slice(&data[..96]);
    input.extend_from_slice(&crc32(&data[..96]).to_le_bytes());
    input.extend_from_slice(&damaged);
    input.extend_from_slice(&crc32(&data[96..]).to_le_bytes());
    input.extend_from_slice(&data[96..]);
    input.extend_from_slice(&crc32(&data[96..]).to_le_bytes());
    input.extend_from_slice(b"ACK\n");
    let mut line = Line::new(input);
    line.save(Target::Settings).unwrap();
    assert_eq!(line.sent, b"scocwco");
    assert_eq!(line.file, Some(build_file(17, &data[1..])));
}

#[test]
fn a_project_of_an_unchecked_version_is_refused() {
    for version in [0u8, 8, 9] {
        let mut line = Line::new(project_input(version, &pattern(100)));
        match line.save(Target::Project { index: 2 }).unwrap_err() {
            Failure::UnsupportedProjectVersion { version: refused } => {
                assert_eq!(refused, version);
            }
            other => panic!("{:?}", other),
        }
        assert_eq!(line.sent, b"j\x02");
        assert_eq!(line.file, None);
        assert!(!line.renamed);
    }
    let data = pattern(100);
    let mut line = Line::new(project_input(10, &data));
    line.save(Target::Project { index: 2 }).unwrap();
    assert_eq!(line.file, Some(build_file(10, &data)));
}

/// What an instrument sends of a project of 97 bytes whose second block comes
/// damaged that often.
fn damaged_input(data: &[u8], times: usize) -> Vec<u8> {
    let mut input = b"ACK\nACK\n".to_vec();
    input.push(17);
    input.extend_from_slice(&97i32.to_le_bytes());
    input.extend_from_slice(&data[..96]);
    input.extend_from_slice(&crc32(&data[..96]).to_le_bytes());
    for _ in 0..times {
        input.push(data[96] ^ 0x80);
        input.extend_from_slice(&crc32(&data[96..]).to_le_bytes());
    }
    input.push(data[96]);
    input.extend_from_slice(&crc32(&data[96..]).to_le_bytes());
    input.extend_from_slice(b"ACK\n");
    input
}

#[test]
fn a_block_may_be_sent_again_five_times() {
    let data = pattern(97);
    let mut line = Line::new(damaged_input(&data, 5));
    line.save(Target::Project { index: 0 }).unwrap();
    assert_eq!(line.sent, b"j\0cocwcwcwcwcwco");
    assert_eq!(line.file, Some(build_file(17, &data)));
}

#[test]
fn a_block_that_stays_damaged_ends_the_backup() {
    let data = pattern(97);
    let mut line = Line::new(damaged_input(&data, 100));
    let failure = line.save(Target::Project { index: 0 }).unwrap_err();
    assert!(matches!(failure, Failure::BlockRejected { offset: 96 }));
    assert_eq!(line.sent, b"j\0cocwcwcwcwcwcw");
    assert_eq!(line.file, None);
    assert!(!line.renamed);
}

#[test]
fn each_block_has_its_own_retries() {
    let data = pattern(97);
    let mut input = b"ACK\nACK\n".to_vec();
    input.push(17);
    input.extend_from_slice(&97i32.to_le_bytes());
    for block in data.chunks(96) {
        let mut damaged = block.to_vec();
        damaged[0] ^= 1;
        for _ in 0..5 {
            input.extend_from_slice(&damaged);
            input.extend_from_slice(&crc32(block).to_le_bytes());
        }
        input.extend_from_slice(block);
        input.extend_from_slice(&crc32(block).to_le_bytes());
    }
    input.extend_from_slice(b"ACK\n");
    let mut line = Line::new(input);
    line.save(Target::Project { index: 0 }).unwrap();
    assert_eq!(line.file, Some(build_file(17, &data)));
}

#[test]
fn implausible_sizes_are_refused() {
    let with_size = |size: i32| {
        let mut input = b"ACK\nACK\n".to_vec();
        input.push(17);
        input.extend_from_slice(&size.to_le_bytes());
        Line::new(input).save(Target::Project { index: 0 }).unwrap_err()
    };
    assert!(matches!(with_size(-5), Failure::NegativeProjectSize { reported: -5 }));
    assert!(matches!(
        with_size(8388609),
        Failure::ImplausibleSize { target: Target::Project { index: 0 }, size: 8388609 }
    ));
    assert!(matches!(with_size(8388608), Failure::BlockTimedOut { .. }));
    let settings = |size: i32| {
        let mut input = b"ACK\n".to_vec();
        input.extend_from_slice(&size.to_le_bytes());
        Line::new(input).save(Target::Settings).unwrap_err()
    };
    assert!(matches!(settings(0), Failure::InvalidSettingsSize { reported: 0 }));
    assert!(matches!(settings(-1), Failure::InvalidSettingsSize { reported: -1 }));
    assert!(matches!(
        settings(8388609),
        Failure::ImplausibleSize { target: Target::Settings, size: 8388609 }
    ));
}

#[test]
fn a_step_that_is_not_acknowledged_ends_the_backup() {
    let failure = Line::new(b"ACK\nNAK\n".to_vec()).save(Target::Project { index: 0 }).unwrap_err();
    match failure {
        Failure::NotAcknowledged { stage, response } => {
            assert_eq!(stage, Stage::ProjectIndex);
            assert_eq!(response, b"NAK\n");
        }
        other => panic!("{:?}", other),
    }
}

#[test]
fn a_reply_without_end_ends_the_backup() {
    let failure = Line::new(vec![b'x'; 300]).save(Target::Settings).unwrap_err();
    assert!(matches!(
        failure,
        Failure::LineTooLong(Activity::ReadReply(Stage::ReadSettingsCommand))
    ));
}

#[test]
fn a_line_that_falls_silent_within_a_block_ends_the_backup() {
    let mut input = project_input(17, &pattern(300));
    input.truncate(4 + 4 + 1 + 4 + 96 + 4 + 10);
    let mut line = Line::new(input);
    let failure = line.save(Target::Project { index: 0 }).unwrap_err();
    assert!(matches!(
        failure,
        Failure::BlockTimedOut { offset: 96, received: 10, expected: 96 }
    ));
    assert_eq!(line.file, None);
    assert!(!line.renamed);
}

/// A backup of a project that waits for its first block.
fn waiting_for_block() -> Backup {
    let (mut backup, _) = Backup::start(Target::Project { index: 0 });
    for _ in 0..2 {
        backup.advance(Event::Done);
        for byte in b"ACK\n" {
            backup.advance(Event::Received(vec![*byte]));
        }
    }
    backup.advance(Event::Received(vec![17]));
    backup.advance(Event::Received(vec![5, 0, 0, 0]));
    let step = backup.advance(Event::Done);
    assert!(matches!(step.action, Action::ReadSome(5)));
    backup
}

#[test]
fn a_line_that_is_closed_within_a_block_ends_the_backup() {
    let step = waiting_for_block().advance(Event::Ended);
    assert!(matches!(
        step.action,
        Action::Fail(Failure::EndOfBlock { offset: 0, received: 0, expected: 5 })
    ));
    let mut backup = waiting_for_block();
    backup.advance(Event::Received(vec![1, 2]));
    let step = backup.advance(Event::Failed);
    assert!(matches!(
        step.action,
        Action::Fail(Failure::Io(Activity::ReadBlock { offset: 0, received: 2, expected: 5 }))
    ));
}

#[test]
fn a_failed_write_ends_the_backup() {
    let (mut backup, _) = Backup::start(Target::Settings);
    let step = backup.advance(Event::Failed);
    assert!(matches!(
        step.action,
        Action::Fail(Failure::Io(Activity::Send(Stage::ReadSettingsCommand)))
    ));
    let (mut backup, _) = Backup::start(Target::Settings);
    let step = backup.advance(Event::FlushFailed);
    assert!(matches!(step.action, Action::Fail(Failure::Io(Activity::Flush))));
}

#[test]
fn a_file_that_cannot_be_written_is_not_renamed() {
    let mut backup = waiting_for_block();
    backup.advance(Event::Received(vec![1, 2, 3, 4, 5]));
    backup.advance(Event::Done);
    backup.advance(Event::Received(crc32(&[1, 2, 3, 4, 5]).to_le_bytes().to_vec()));
    backup.advance(Event::Done);
    for byte in b"ACK" {
        backup.advance(Event::Received(vec![*byte]));
    }
    let step = backup.advance(Event::Received(vec![b'\n']));
    assert!(matches!(step.action, Action::WriteTemporary(_)));
    let step = backup.advance(Event::Failed);
    assert!(matches!(step.action, Action::Fail(Failure::Io(Activity::WriteTemporary))));
}
