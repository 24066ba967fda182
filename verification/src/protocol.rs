//! The vocabulary of a conversation with the instrument: what the library asks
//! to be done, what may come of it, and how a conversation can fail.
//!
//! Types that hold bytes are generic in how: `Vec<u8>` when the program runs,
//! `Seq<u8>` in contracts.

use vstd::prelude::*;

verus! {

/// The speed of the serial line.
pub const BAUD_RATE: u32 = 115_200;

/// How long the serial line waits for a byte, in milliseconds.
pub const SERIAL_TIMEOUT: u64 = 3_000;

/// The largest piece of a transfer that gets a CRC of its own.
pub const BLOCK_SIZE: usize = 96;

/// The last of the sixteen projects, counted from zero.
pub const MAX_PROJECT_INDEX: u8 = 15;

/// No project or settings are anywhere near this large: a size above it is a
/// damaged reply.
pub const MAX_PROJECT_SIZE: usize = 8_388_608;

/// How often one block may be sent again, in either direction, before the
/// transfer is given up: a link that keeps failing fails loudly.
pub const MAX_BLOCK_RETRIES: usize = 5;

/// The longest line, without its newline, that a reply may be.
pub const MAX_LINE: usize = 256;

/// The pause before each block, in milliseconds: the instrument prepares it.
pub const BLOCK_SETTLE_TIME: u64 = 20;

/// The end of a reply: a newline.
pub const NEWLINE: u8 = 0x0a;

/// The reply to a step that went well: `ACK` and a newline.
pub const ACK: [u8; 4] = [0x41, 0x43, 0x4b, 0x0a];

/// The command `j`: send one project.
pub const READ_PROJECT: u8 = 0x6a;

/// The command `q`: take one project.
pub const RESTORE_PROJECT: u8 = 0x71;

/// The command `s`: send the settings.
pub const READ_SETTINGS: u8 = 0x73;

/// The command `r`: take the settings.
pub const RESTORE_SETTINGS: u8 = 0x72;

/// The request `c` for the CRC of the block that was just sent.
pub const CRC_REQUEST: u8 = 0x63;

/// The verdict `o`: the CRCs agree.
pub const CRC_OK: u8 = 0x6f;

/// The verdict `w`: the CRCs differ, send the block again.
pub const CRC_WRONG: u8 = 0x77;

/// The reply `a`: a block without a CRC has arrived.
pub const BLOCK_ARRIVED: u8 = 0x61;

/// The settings version whose blocks have no CRC.
pub const UNCHECKED_VERSION: u8 = 9;

/// The first version whose blocks have a CRC.
pub const FIRST_CHECKED_VERSION: u8 = 10;

/// What is backed up or restored.
#[derive(Clone, Copy, Debug, PartialEq, Eq, Structural)]
pub enum Target {
    Project { index: u8 },
    Settings,
}

/// The steps that the instrument acknowledges.
#[derive(Clone, Copy, Debug, PartialEq, Eq, Structural)]
pub enum Stage {
    SingleProjectCommand,
    ProjectIndex,
    ProjectTransfer,
    RestoreProjectCommand,
    ProjectVersion,
    ProjectSize,
    ReadSettingsCommand,
    SettingsTransfer,
    RestoreSettingsCommand,
    SettingsSize,
}

/// What was being done when input or output failed.
#[derive(Clone, Copy, Debug, PartialEq, Eq, Structural)]
pub enum Activity {
    OpenPort,
    SendHandshake,
    FlushHandshake,
    ReadHandshake,
    Send(Stage),
    Flush,
    ReadReply(Stage),
    ReadProjectVersion,
    ReadProjectSize,
    ReadSettingsSize,
    ReadBlock { offset: usize, received: usize, expected: usize },
    WriteBlock { offset: usize },
    ExchangeCrc,
    WriteTemporary,
    RenameTemporary,
}

/// Why a conversation failed.
#[derive(Debug)]
pub enum Failure<B> {
    /// Input or output failed.
    Io(Activity),
    /// A reply went on for too long without a newline.
    LineTooLong(Activity),
    /// The instrument did not greet back.
    UnexpectedGreeting { response: B },
    /// The instrument did not acknowledge a step.
    NotAcknowledged { stage: Stage, response: B },
    /// The instrument says that a project has a negative size.
    NegativeProjectSize { reported: i32 },
    /// The instrument says that its settings lack even the version byte.
    InvalidSettingsSize { reported: i32 },
    /// The instrument reports more than it can hold.
    ImplausibleSize { target: Target, size: usize },
    /// The line was closed within a block.
    EndOfBlock { offset: usize, received: usize, expected: usize },
    /// The line fell silent within a block.
    BlockTimedOut { offset: usize, received: usize, expected: usize },
    /// The project has a version whose transfer nobody can check.
    UnsupportedProjectVersion { version: u8 },
    /// The settings have a version that nobody can read.
    UnsupportedSettingsVersion { version: u8 },
    /// The instrument should have asked for a CRC.
    ExpectedCrcRequest { reply: u8 },
    /// The instrument should have accepted or rejected a block.
    ExpectedCrcResult { reply: u8 },
    /// One block was rejected too often, by whoever received it.
    BlockRejected { offset: usize },
    /// The settings do not fit the size that is sent ahead of them.
    SettingsTooLarge { size: usize },
    /// The instrument did not come back in time.
    NotBackInTime,
    /// Every attempt to connect failed.
    NoConnection,
}

impl View for Failure<Vec<u8>> {
    type V = Failure<Seq<u8>>;

    open spec fn view(&self) -> Failure<Seq<u8>> {
        match *self {
            Failure::Io(activity) => Failure::Io(activity),
            Failure::LineTooLong(activity) => Failure::LineTooLong(activity),
            Failure::UnexpectedGreeting { response } => Failure::UnexpectedGreeting {
                response: response@,
            },
            Failure::NotAcknowledged { stage, response } => Failure::NotAcknowledged {
                stage,
                response: response@,
            },
            Failure::NegativeProjectSize { reported } => Failure::NegativeProjectSize { reported },
            Failure::InvalidSettingsSize { reported } => Failure::InvalidSettingsSize { reported },
            Failure::ImplausibleSize { target, size } => Failure::ImplausibleSize { target, size },
            Failure::EndOfBlock { offset, received, expected } => Failure::EndOfBlock {
                offset,
                received,
                expected,
            },
            Failure::BlockTimedOut { offset, received, expected } => Failure::BlockTimedOut {
                offset,
                received,
                expected,
            },
            Failure::UnsupportedProjectVersion { version } =>
                Failure::UnsupportedProjectVersion { version },
            Failure::UnsupportedSettingsVersion { version } =>
                Failure::UnsupportedSettingsVersion { version },
            Failure::ExpectedCrcRequest { reply } => Failure::ExpectedCrcRequest { reply },
            Failure::ExpectedCrcResult { reply } => Failure::ExpectedCrcResult { reply },
            Failure::BlockRejected { offset } => Failure::BlockRejected { offset },
            Failure::SettingsTooLarge { size } => Failure::SettingsTooLarge { size },
            Failure::NotBackInTime => Failure::NotBackInTime,
            Failure::NoConnection => Failure::NoConnection,
        }
    }
}

impl Failure<Vec<u8>> {
    /// The same failure once more.
    pub fn duplicate(&self) -> (result: Failure<Vec<u8>>)
        ensures
            result@ == self@,
    {
        match self {
            Failure::Io(activity) => Failure::Io(*activity),
            Failure::LineTooLong(activity) => Failure::LineTooLong(*activity),
            Failure::UnexpectedGreeting { response } => Failure::UnexpectedGreeting {
                response: copy_of(response.as_slice()),
            },
            Failure::NotAcknowledged { stage, response } => Failure::NotAcknowledged {
                stage: *stage,
                response: copy_of(response.as_slice()),
            },
            Failure::NegativeProjectSize { reported } => Failure::NegativeProjectSize {
                reported: *reported,
            },
            Failure::InvalidSettingsSize { reported } => Failure::InvalidSettingsSize {
                reported: *reported,
            },
            Failure::ImplausibleSize { target, size } => Failure::ImplausibleSize {
                target: *target,
                size: *size,
            },
            Failure::EndOfBlock { offset, received, expected } => Failure::EndOfBlock {
                offset: *offset,
                received: *received,
                expected: *expected,
            },
            Failure::BlockTimedOut { offset, received, expected } => Failure::BlockTimedOut {
                offset: *offset,
                received: *received,
                expected: *expected,
            },
            Failure::UnsupportedProjectVersion { version } =>
                Failure::UnsupportedProjectVersion { version: *version },
            Failure::UnsupportedSettingsVersion { version } =>
                Failure::UnsupportedSettingsVersion { version: *version },
            Failure::ExpectedCrcRequest { reply } => Failure::ExpectedCrcRequest { reply: *reply },
            Failure::ExpectedCrcResult { reply } => Failure::ExpectedCrcResult { reply: *reply },
            Failure::BlockRejected { offset } => Failure::BlockRejected { offset: *offset },
            Failure::SettingsTooLarge { size } => Failure::SettingsTooLarge { size: *size },
            Failure::NotBackInTime => Failure::NotBackInTime,
            Failure::NoConnection => Failure::NoConnection,
        }
    }
}

/// What a transfer asks to be done next.
#[derive(Debug)]
pub enum Action<B> {
    /// Send these bytes and flush.
    Write(B),
    /// Read exactly so many bytes.
    Read(usize),
    /// Read once, at most so many bytes.
    ReadSome(usize),
    /// Wait so many milliseconds.
    Pause(u64),
    /// Write these bytes to a temporary file beside the backup file.
    WriteTemporary(B),
    /// Rename the temporary file to the backup file.
    RenameTemporary,
    /// Nothing: the transfer has succeeded.
    Finish,
    /// Nothing: the transfer has failed.
    Fail(Failure<B>),
}

impl View for Action<Vec<u8>> {
    type V = Action<Seq<u8>>;

    open spec fn view(&self) -> Action<Seq<u8>> {
        match *self {
            Action::Write(bytes) => Action::Write(bytes@),
            Action::Read(count) => Action::Read(count),
            Action::ReadSome(count) => Action::ReadSome(count),
            Action::Pause(time) => Action::Pause(time),
            Action::WriteTemporary(bytes) => Action::WriteTemporary(bytes@),
            Action::RenameTemporary => Action::RenameTemporary,
            Action::Finish => Action::Finish,
            Action::Fail(failure) => Action::Fail(failure@),
        }
    }
}

/// What came of an action.
#[derive(Debug)]
pub enum Event<B> {
    /// It was done.
    Done,
    /// These bytes were read.
    Received(B),
    /// The line was closed: a read gave nothing.
    Ended,
    /// A read timed out.
    TimedOut,
    /// It failed in any other way.
    Failed,
    /// The bytes were sent, but flushing failed.
    FlushFailed,
}

impl View for Event<Vec<u8>> {
    type V = Event<Seq<u8>>;

    open spec fn view(&self) -> Event<Seq<u8>> {
        match *self {
            Event::Done => Event::Done,
            Event::Received(bytes) => Event::Received(bytes@),
            Event::Ended => Event::Ended,
            Event::TimedOut => Event::TimedOut,
            Event::Failed => Event::Failed,
            Event::FlushFailed => Event::FlushFailed,
        }
    }
}

/// `event` can come of `action`.
pub open spec fn can_follow(action: Action<Seq<u8>>, event: Event<Seq<u8>>) -> bool {
    match action {
        Action::Write(_) => event is Done || event is Failed || event is FlushFailed,
        Action::Read(count) => match event {
            Event::Received(bytes) => bytes.len() == count,
            _ => event is Failed,
        },
        Action::ReadSome(count) => match event {
            Event::Received(bytes) => 1 <= bytes.len() <= count,
            _ => event is Ended || event is TimedOut || event is Failed,
        },
        Action::Pause(_) => event is Done,
        Action::WriteTemporary(_) => event is Done || event is Failed,
        Action::RenameTemporary => event is Done || event is Failed,
        Action::Finish => false,
        Action::Fail(_) => false,
    }
}

/// Whether `event` can come of `action`.
pub fn is_possible(action: &Action<Vec<u8>>, event: &Event<Vec<u8>>) -> (result: bool)
    ensures
        result == can_follow(action@, event@),
{
    match action {
        Action::Write(_) => match event {
            Event::Done => true,
            Event::Failed => true,
            Event::FlushFailed => true,
            _ => false,
        },
        Action::Read(count) => match event {
            Event::Received(bytes) => bytes.len() == *count,
            Event::Failed => true,
            _ => false,
        },
        Action::ReadSome(count) => match event {
            Event::Received(bytes) => 1 <= bytes.len() && bytes.len() <= *count,
            Event::Ended => true,
            Event::TimedOut => true,
            Event::Failed => true,
            _ => false,
        },
        Action::Pause(_) => match event {
            Event::Done => true,
            _ => false,
        },
        Action::WriteTemporary(_) => match event {
            Event::Done => true,
            Event::Failed => true,
            _ => false,
        },
        Action::RenameTemporary => match event {
            Event::Done => true,
            Event::Failed => true,
            _ => false,
        },
        Action::Finish => false,
        Action::Fail(_) => false,
    }
}

/// Something to tell the user.
#[derive(Clone, Copy, Debug, PartialEq, Eq, Structural)]
pub enum Notice {
    ReadingProject { number: u8, version: u8, size: usize },
    ReadingSettings { size: usize },
    /// A block did not arrive as it was sent, and will be sent again.
    CrcMismatch { offset: usize, local: u32, remote: u32 },
    Read { done: usize, total: usize },
    SavedProject { number: u8, size: usize, crc: u32 },
    SavedSettings { version: u8, size: usize, crc: u32 },
    LoadingProject { number: u8, version: u8, size: usize },
    LoadingSettings { version: u8, size: usize },
    /// The instrument rejected a block, and it will be sent again.
    Resending { offset: usize, retry: usize },
    Wrote { done: usize, total: usize },
    RestoredProject { number: u8, size: usize },
    RestoredSettings { version: u8, size: usize },
}

/// One step of a transfer: what to tell the user, then what to do.
#[derive(Debug)]
pub struct Step {
    pub notice: Option<Notice>,
    pub action: Action<Vec<u8>>,
}

/// How a line stands after one more byte.
#[derive(Clone, Copy, Debug, PartialEq, Eq, Structural)]
pub enum LineStatus {
    Unfinished,
    Complete,
    TooLong,
}

/// How `line` stands once `byte` has been added to it.
pub open spec fn line_status(line: Seq<u8>, byte: u8) -> LineStatus {
    if byte == NEWLINE {
        LineStatus::Complete
    } else if line.len() < MAX_LINE {
        LineStatus::Unfinished
    } else {
        LineStatus::TooLong
    }
}

/// Adds a byte to a line that is being read.
pub fn read_line(line: &mut Vec<u8>, byte: u8) -> (status: LineStatus)
    requires
        old(line)@.len() <= MAX_LINE,
    ensures
        final(line)@ == old(line)@.push(byte),
        status == line_status(old(line)@, byte),
{
    line.push(byte);
    if byte == NEWLINE {
        LineStatus::Complete
    } else if line.len() <= MAX_LINE {
        LineStatus::Unfinished
    } else {
        LineStatus::TooLong
    }
}

/// A run of one byte.
pub fn one_byte(byte: u8) -> (result: Vec<u8>)
    ensures
        result@ == seq![byte],
{
    let mut result: Vec<u8> = Vec::new();
    result.push(byte);
    result
}

/// A copy of a run of bytes.
pub fn copy_of(bytes: &[u8]) -> (result: Vec<u8>)
    ensures
        result@ == bytes@,
{
    let mut result: Vec<u8> = Vec::new();
    result.extend_from_slice(bytes);
    assert(result@ == bytes@);
    result
}

/// Whether two runs of bytes are the same.
pub fn same_bytes(a: &[u8], b: &[u8]) -> (result: bool)
    ensures
        result == (a@ == b@),
{
    if a.len() != b.len() {
        return false;
    }
    let mut i: usize = 0;
    while i < a.len()
        invariant
            i <= a@.len() == b@.len(),
            a@.take(i as int) == b@.take(i as int),
        decreases a@.len() - i,
    {
        if a[i] != b[i] {
            return false;
        }
        i += 1;
        assert(a@.take(i as int) == a@.take(i - 1).push(a@[i - 1]));
        assert(b@.take(i as int) == b@.take(i - 1).push(b@[i - 1]));
    }
    assert(a@.take(i as int) == a@);
    assert(b@.take(i as int) == b@);
    true
}

/// Whether a line is the acknowledgement.
pub fn is_ack(line: &Vec<u8>) -> (result: bool)
    ensures
        result == (line@ == ACK@),
{
    same_bytes(line.as_slice(), ACK.as_slice())
}

/// A project index is out of range.
#[derive(Clone, Copy, Debug, PartialEq, Eq, Structural)]
pub struct InvalidProjectIndex;

/// Checks that an index is that of one of the sixteen projects.
pub fn validate_project_index(index: u8) -> (result: Result<(), InvalidProjectIndex>)
    ensures
        result is Ok <==> index <= MAX_PROJECT_INDEX,
{
    if index <= MAX_PROJECT_INDEX {
        Ok(())
    } else {
        Err(InvalidProjectIndex)
    }
}

/// There are sixteen projects, counted from zero.
pub proof fn law_sixteen_projects(index: u8)
    ensures
        index <= MAX_PROJECT_INDEX <==> index < 16,
{
}

/// What contracts see of an action is the action itself, with its bytes.
pub proof fn law_actions_are_seen_as_they_are(action: Action<Vec<u8>>)
    ensures
        match action {
            Action::Write(bytes) => action@ == Action::Write(bytes@),
            Action::Read(count) => action@ == Action::<Seq<u8>>::Read(count),
            Action::ReadSome(count) => action@ == Action::<Seq<u8>>::ReadSome(count),
            Action::Pause(time) => action@ == Action::<Seq<u8>>::Pause(time),
            Action::WriteTemporary(bytes) => action@ == Action::WriteTemporary(bytes@),
            Action::RenameTemporary => action@ is RenameTemporary,
            Action::Finish => action@ is Finish,
            Action::Fail(failure) => action@ == Action::Fail(failure@),
        },
{
}

/// What contracts see of an event is the event itself, with its bytes.
pub proof fn law_events_are_seen_as_they_are(event: Event<Vec<u8>>)
    ensures
        match event {
            Event::Done => event@ is Done,
            Event::Received(bytes) => event@ == Event::Received(bytes@),
            Event::Ended => event@ is Ended,
            Event::TimedOut => event@ is TimedOut,
            Event::Failed => event@ is Failed,
            Event::FlushFailed => event@ is FlushFailed,
        },
{
}

/// Failures that contracts do not tell apart are the same, down to their bytes.
pub proof fn law_failures_are_told_apart(a: Failure<Vec<u8>>, b: Failure<Vec<u8>>)
    requires
        a@ == b@,
    ensures
        match (a, b) {
            (
                Failure::UnexpectedGreeting { response },
                Failure::UnexpectedGreeting { response: other },
            ) => response@ == other@,
            (
                Failure::NotAcknowledged { stage, response },
                Failure::NotAcknowledged { stage: other_stage, response: other },
            ) => stage == other_stage && response@ == other@,
            (Failure::UnexpectedGreeting { .. }, _) => false,
            (Failure::NotAcknowledged { .. }, _) => false,
            _ => a == b,
        },
{
}

/// What contracts see of a failure is the failure itself, with its bytes.
pub proof fn law_failures_are_seen_as_they_are(failure: Failure<Vec<u8>>)
    ensures
        match failure {
            Failure::Io(activity) => failure@ == Failure::<Seq<u8>>::Io(activity),
            Failure::LineTooLong(activity) => failure@ == Failure::<Seq<u8>>::LineTooLong(activity),
            Failure::UnexpectedGreeting { response } => failure@ == (Failure::UnexpectedGreeting {
                response: response@,
            }),
            Failure::NotAcknowledged { stage, response } => failure@ == (Failure::NotAcknowledged {
                stage,
                response: response@,
            }),
            Failure::NegativeProjectSize { reported } => failure@ == (Failure::<
                Seq<u8>,
            >::NegativeProjectSize { reported }),
            Failure::InvalidSettingsSize { reported } => failure@ == (Failure::<
                Seq<u8>,
            >::InvalidSettingsSize { reported }),
            Failure::ImplausibleSize { target, size } => failure@ == (Failure::<
                Seq<u8>,
            >::ImplausibleSize { target, size }),
            Failure::EndOfBlock { offset, received, expected } => failure@ == (Failure::<
                Seq<u8>,
            >::EndOfBlock { offset, received, expected }),
            Failure::BlockTimedOut { offset, received, expected } => failure@ == (Failure::<
                Seq<u8>,
            >::BlockTimedOut { offset, received, expected }),
            Failure::UnsupportedProjectVersion { version } => failure@ == (Failure::<
                Seq<u8>,
            >::UnsupportedProjectVersion { version }),
            Failure::UnsupportedSettingsVersion { version } => failure@ == (Failure::<
                Seq<u8>,
            >::UnsupportedSettingsVersion { version }),
            Failure::ExpectedCrcRequest { reply } => failure@ == (Failure::<
                Seq<u8>,
            >::ExpectedCrcRequest { reply }),
            Failure::ExpectedCrcResult { reply } => failure@ == (Failure::<
                Seq<u8>,
            >::ExpectedCrcResult { reply }),
            Failure::BlockRejected { offset } => failure@ == (Failure::<
                Seq<u8>,
            >::BlockRejected { offset }),
            Failure::SettingsTooLarge { size } => failure@ == (Failure::<
                Seq<u8>,
            >::SettingsTooLarge { size }),
            Failure::NotBackInTime => failure@ is NotBackInTime,
            Failure::NoConnection => failure@ is NoConnection,
        },
{
}

/// What can come of an action: bytes only of a read, as many as were asked for or
/// at least one and no more than were asked for; trouble of anything but a pause;
/// and nothing at all once a transfer has ended.
pub proof fn law_what_can_come_of_an_action(action: Action<Seq<u8>>, event: Event<Seq<u8>>)
    ensures
        event is Done ==> (can_follow(action, event) <==> action is Write || action is Pause
            || action is WriteTemporary || action is RenameTemporary),
        event is Received ==> (can_follow(action, event) <==> (action
            == Action::<Seq<u8>>::Read(event->Received_0.len() as usize)
            && event->Received_0.len() <= usize::MAX) || (action is ReadSome && 1
            <= event->Received_0.len() <= action->ReadSome_0)),
        event is Ended || event is TimedOut ==> (can_follow(action, event) <==> action
            is ReadSome),
        event is Failed ==> (can_follow(action, event) <==> !(action is Pause || action is Finish
            || action is Fail)),
        event is FlushFailed ==> (can_follow(action, event) <==> action is Write),
{
}

/// A line is complete with the newline, and too long with the 257th byte that is
/// none.
pub proof fn law_lines_end_with_a_newline(line: Seq<u8>, byte: u8)
    ensures
        line_status(line, byte) is Complete <==> byte == 0x0a,
        line_status(line, byte) is TooLong <==> byte != 0x0a && line.push(byte).len() > 256,
{
}

/// How the serial line is set up: 115200 baud, and three seconds for a byte.
pub proof fn law_line_settings()
    ensures
        BAUD_RATE == 115200,
        SERIAL_TIMEOUT == 3000,
{
}

} // verus!
