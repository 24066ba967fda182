use linnstrument_cli::backup::Backup;
use linnstrument_cli::crc::crc32;
use linnstrument_cli::files::{ProjectFile, SettingsFile};
use linnstrument_cli::protocol::{Action, Activity, Event, Failure, Stage, Target};
use linnstrument_cli::restore::Restore;

/// Saves `contents` from an instrument whose line is sound.
fn save(target: Target, version: u8, contents: &[u8]) -> Vec<u8> {
    let mut input: Vec<u8> = match target {
        Target::Project { .. } => {
            let mut input = b"ACK\nACK\n".to_vec();
            input.push(version);
            input
        }
        Target::Settings => b"ACK\n".to_vec(),
    };
    input.extend_from_slice(&(contents.len() as i32).to_le_bytes());
    for block in contents.chunks(96) {
        input.extend_from_slice(block);
        input.extend_from_slice(&crc32(block).to_le_bytes());
    }
    input.extend_from_slice(b"ACK\n");

    let mut at = 0;
    let mut file = Vec::new();
    let (mut backup, mut step) = Backup::start(target);
    loop {
        let event = match step.action {
            Action::Read(count) | Action::ReadSome(count) => {
                at += count;
                Event::Received(input[at - count..at].to_vec())
            }
            Action::WriteTemporary(bytes) => {
                file = bytes;
                Event::Done
            }
            Action::Finish => return file,
            Action::Fail(failure) => panic!("{:?}", failure),
            _ => Event::Done,
        };
        step = backup.advance(event);
    }
}

/// Loads data to an instrument that accepts all; gives what it has accepted.
fn load(target: Target, version: u8, data: &[u8]) -> Vec<u8> {
    let mut commands = match target {
        Target::Project { .. } => 4,
        Target::Settings => 2,
    };
    let mut accepted: Vec<u8> = Vec::new();
    let mut replies: Vec<u8> = Vec::new();
    let mut is_block = true;
    let (mut restore, mut step) = Restore::start(target, version, data);
    loop {
        let event = match step.action {
            Action::Write(bytes) => {
                if commands > 0 {
                    commands -= 1;
                    replies.extend_from_slice(b"ACK\n");
                } else if is_block {
                    accepted.extend_from_slice(&bytes);
                    replies.push(b'c');
                    is_block = false;
                } else {
                    replies.push(b'o');
                    is_block = true;
                }
                Event::Done
            }
            Action::Read(_) => {
                if replies.is_empty() {
                    replies.extend_from_slice(b"ACK\n");
                }
                Event::Received(vec![replies.remove(0)])
            }
            Action::Finish => return accepted,
            other => panic!("{:?}", other),
        };
        step = restore.advance(event);
    }
}

#[test]
fn a_project_comes_back_as_it_was_saved() {
    for size in [0usize, 1, 96, 97, 4000] {
        let contents: Vec<u8> = (0..size).map(|i| (i % 251) as u8).collect();
        let file = save(Target::Project { index: 1 }, 17, &contents);
        let project = ProjectFile::parse(&file).unwrap();
        assert_eq!(project.version, 17);
        assert_eq!(load(Target::Project { index: 9 }, project.version, project.data), contents);
    }
}

#[test]
fn settings_come_back_as_they_were_saved() {
    for size in [1usize, 2, 96, 97, 4000] {
        let mut contents: Vec<u8> = (0..size).map(|i| (i % 251) as u8).collect();
        contents[0] = 12;
        let file = save(Target::Settings, 12, &contents);
        let settings = SettingsFile::parse(&file).unwrap();
        assert_eq!(settings.version, 12);
        assert_eq!(load(Target::Settings, settings.version, settings.data), contents);
    }
}

/// Answers a backup with `events`, and tells how it failed.
fn failure_after(target: Target, events: Vec<Event<Vec<u8>>>) -> Activity {
    let (mut backup, mut step) = Backup::start(target);
    for event in events {
        step = backup.advance(event);
    }
    match step.action {
        Action::Fail(Failure::Io(activity)) => activity,
        other => panic!("{:?}", other),
    }
}

fn acknowledged() -> Vec<Event<Vec<u8>>> {
    let mut events = vec![Event::Done];
    for byte in b"ACK\n" {
        events.push(Event::Received(vec![*byte]));
    }
    events
}

#[test]
fn every_failed_step_of_a_backup_is_told_apart() {
    let project = Target::Project { index: 0 };
    let mut events = vec![Event::Done, Event::Failed];
    assert_eq!(
        failure_after(project, events),
        Activity::ReadReply(Stage::SingleProjectCommand)
    );
    events = acknowledged();
    events.extend(acknowledged());
    events.push(Event::Failed);
    assert_eq!(failure_after(project, events), Activity::ReadProjectVersion);
    events = acknowledged();
    events.extend(acknowledged());
    events.push(Event::Received(vec![17]));
    events.push(Event::Failed);
    assert_eq!(failure_after(project, events), Activity::ReadProjectSize);
    events = acknowledged();
    events.push(Event::Failed);
    assert_eq!(failure_after(Target::Settings, events), Activity::ReadSettingsSize);
    events = acknowledged();
    events.push(Event::Received(vec![1, 0, 0, 0]));
    events.push(Event::Done);
    events.push(Event::Received(vec![17]));
    events.push(Event::Failed);
    assert_eq!(failure_after(Target::Settings, events), Activity::ExchangeCrc);
    events = acknowledged();
    events.push(Event::Received(vec![1, 0, 0, 0]));
    events.push(Event::Done);
    events.push(Event::Received(vec![9]));
    events.extend(acknowledged());
    events.push(Event::Done);
    events.push(Event::Failed);
    assert_eq!(failure_after(Target::Settings, events), Activity::RenameTemporary);
}
