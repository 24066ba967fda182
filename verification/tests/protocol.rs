use linnstrument_cli::protocol::{
    is_ack, is_possible, read_line, same_bytes, validate_project_index, Action, Event,
    InvalidProjectIndex, LineStatus, Stage, Failure,
};

#[test]
fn there_are_sixteen_projects() {
    for index in 0..=15u8 {
        assert_eq!(validate_project_index(index), Ok(()));
    }
    assert_eq!(validate_project_index(16), Err(InvalidProjectIndex));
    assert_eq!(validate_project_index(255), Err(InvalidProjectIndex));
}

#[test]
fn a_line_ends_with_its_newline() {
    let mut line = b"AC".to_vec();
    assert_eq!(read_line(&mut line, b'K'), LineStatus::Unfinished);
    assert!(!is_ack(&line));
    assert_eq!(read_line(&mut line, b'\n'), LineStatus::Complete);
    assert_eq!(line, b"ACK\n");
    assert!(is_ack(&line));
}

#[test]
fn a_line_may_have_256_bytes_before_its_newline() {
    let mut line = vec![b'x'; 255];
    assert_eq!(read_line(&mut line, b'x'), LineStatus::Unfinished);
    let mut full = line.clone();
    assert_eq!(read_line(&mut full, b'\n'), LineStatus::Complete);
    assert_eq!(full.len(), 257);
    assert_eq!(read_line(&mut line, b'x'), LineStatus::TooLong);
}

#[test]
fn bytes_are_compared_one_by_one() {
    assert!(same_bytes(b"", b""));
    assert!(same_bytes(b"abc", b"abc"));
    assert!(!same_bytes(b"abc", b"abd"));
    assert!(!same_bytes(b"abc", b"ab"));
}

#[test]
fn only_fitting_events_are_possible() {
    assert!(is_possible(&Action::Read(4), &Event::Received(vec![0; 4])));
    assert!(!is_possible(&Action::Read(4), &Event::Received(vec![0; 3])));
    assert!(is_possible(&Action::ReadSome(4), &Event::Received(vec![0; 3])));
    assert!(!is_possible(&Action::ReadSome(4), &Event::Received(vec![])));
    assert!(!is_possible(&Action::ReadSome(4), &Event::Received(vec![0; 5])));
    assert!(is_possible(&Action::Write(vec![1]), &Event::FlushFailed));
    assert!(!is_possible(&Action::Write(vec![1]), &Event::TimedOut));
    assert!(!is_possible(&Action::Pause(1), &Event::Failed));
    assert!(!is_possible(&Action::Finish, &Event::Done));
}

#[test]
fn a_failure_can_be_duplicated() {
    let failure = Failure::NotAcknowledged { stage: Stage::ProjectSize, response: b"NO\n".to_vec() };
    let copy = failure.duplicate();
    assert_eq!(format!("{:?}", copy), format!("{:?}", failure));
}
