//! Reading a project or the settings from the instrument into a file.

use vstd::prelude::*;

use crate::crc::crc32;
use crate::files::build_file;
use crate::little_endian::{i32_from_le_bytes, u32_from_le_bytes};
use crate::protocol::{
    is_ack, one_byte, read_line, Action, Activity, Event, Failure, LineStatus, Notice, Stage, Step,
    Target, BLOCK_ARRIVED, BLOCK_SETTLE_TIME, BLOCK_SIZE, CRC_OK, CRC_REQUEST, CRC_WRONG,
    FIRST_CHECKED_VERSION, MAX_BLOCK_RETRIES, MAX_LINE, MAX_PROJECT_INDEX, MAX_PROJECT_SIZE,
    READ_PROJECT, READ_SETTINGS, UNCHECKED_VERSION,
};

#[allow(unused_imports)]
use crate::crc::crc32_of;
#[allow(unused_imports)]
use crate::files::file_of;
#[allow(unused_imports)]
use crate::little_endian::{i32_from_le, u32_from_le};
#[allow(unused_imports)]
use crate::protocol::{can_follow, line_status, ACK};

verus! {

/// Where a backup stands: the action that it waits for.
#[derive(Debug)]
pub enum BackupPhase<B> {
    /// Sending a command.
    Command { at: usize },
    /// Reading the reply to a command.
    CommandReply { at: usize },
    /// Reading the version of a project.
    Version,
    /// Reading how much there is to read.
    Size,
    /// Giving the instrument time to prepare a block.
    Settle,
    /// Reading a block.
    Block,
    /// Asking for the CRC of the block.
    CrcRequest,
    /// Reading the CRC of the block.
    Crc,
    /// Rejecting the block.
    Rejection { local: u32, remote: u32 },
    /// Accepting the block, whose CRC agrees.
    Acceptance,
    /// Accepting the block, which has no CRC.
    UncheckedAcceptance,
    /// Reading the reply that ends the transfer.
    Completion,
    /// Writing the file beside the one that it will replace.
    Temporary,
    /// Putting the file in its place.
    Rename,
    Finished,
    Failed(Failure<B>),
}

/// A backup as contracts see it.
pub struct BackupState {
    pub target: Target,
    pub phase: BackupPhase<Seq<u8>>,
    /// What has been read of a reply.
    pub line: Seq<u8>,
    /// The version, once it is known: that of a project is sent ahead, that of
    /// the settings leads the first block that is accepted.
    pub version: Option<u8>,
    /// The blocks come without CRCs.
    pub unchecked: bool,
    /// How many bytes there are to read, once that is known.
    pub size: usize,
    /// The blocks that have been accepted.
    pub data: Seq<u8>,
    /// What has been read of the next block.
    pub block: Seq<u8>,
    /// How often the next block has been rejected.
    pub retries: usize,
}

impl BackupState {
    /// A backup that is about to begin.
    pub open spec fn start(target: Target) -> BackupState {
        BackupState {
            target,
            phase: BackupPhase::Command { at: 0 },
            line: Seq::empty(),
            version: None,
            unchecked: false,
            size: 0,
            data: Seq::empty(),
            block: Seq::empty(),
            retries: 0,
        }
    }

    /// What is sent before the transfer, with the step that the reply to each
    /// acknowledges.
    pub open spec fn commands(target: Target) -> Seq<(Seq<u8>, Stage)> {
        match target {
            Target::Project { index } => seq![
                (seq![READ_PROJECT], Stage::SingleProjectCommand),
                (seq![index], Stage::ProjectIndex),
            ],
            Target::Settings => seq![(seq![READ_SETTINGS], Stage::ReadSettingsCommand)],
        }
    }

    /// The step that the last reply acknowledges.
    pub open spec fn transfer(target: Target) -> Stage {
        match target {
            Target::Project { .. } => Stage::ProjectTransfer,
            Target::Settings => Stage::SettingsTransfer,
        }
    }

    /// The length of the next block.
    pub open spec fn block_size(self) -> int {
        if self.size - self.data.len() < BLOCK_SIZE {
            self.size - self.data.len()
        } else {
            BLOCK_SIZE as int
        }
    }

    /// What goes into the file: the settings go without the version that leads
    /// them, since the file has its own place for that.
    pub open spec fn payload(self) -> Seq<u8> {
        match self.target {
            Target::Project { .. } => self.data,
            Target::Settings => self.data.skip(1),
        }
    }

    /// The file that the backup ends with.
    pub open spec fn file(self) -> Seq<u8> {
        file_of(self.version->0, self.payload())
    }

    /// What is to be done next.
    pub open spec fn request(self) -> Action<Seq<u8>> {
        match self.phase {
            BackupPhase::Command { at } => Action::Write(Self::commands(self.target)[at as int].0),
            BackupPhase::CommandReply { .. } => Action::Read(1),
            BackupPhase::Version => Action::Read(1),
            BackupPhase::Size => Action::Read(4),
            BackupPhase::Settle => Action::Pause(BLOCK_SETTLE_TIME),
            BackupPhase::Block => Action::ReadSome(
                (self.block_size() - self.block.len()) as usize,
            ),
            BackupPhase::CrcRequest => Action::Write(seq![CRC_REQUEST]),
            BackupPhase::Crc => Action::Read(4),
            BackupPhase::Rejection { .. } => Action::Write(seq![CRC_WRONG]),
            BackupPhase::Acceptance => Action::Write(seq![CRC_OK]),
            BackupPhase::UncheckedAcceptance => Action::Write(seq![BLOCK_ARRIVED]),
            BackupPhase::Completion => Action::Read(1),
            BackupPhase::Temporary => Action::WriteTemporary(self.file()),
            BackupPhase::Rename => Action::RenameTemporary,
            BackupPhase::Finished => Action::Finish,
            BackupPhase::Failed(failure) => Action::Fail(failure),
        }
    }

    /// The same backup in another phase.
    pub open spec fn at(self, phase: BackupPhase<Seq<u8>>) -> BackupState {
        BackupState { phase, ..self }
    }

    /// The same backup, failed.
    pub open spec fn failed(self, failure: Failure<Seq<u8>>) -> BackupState {
        self.at(BackupPhase::Failed(failure))
    }

    /// On to the next block, or to the end of the transfer.
    pub open spec fn proceed(self) -> BackupState {
        if self.data.len() < self.size {
            self.at(BackupPhase::Settle)
        } else {
            self.at(BackupPhase::Completion)
        }
    }

    /// One more byte of the reply to `stage`; on to `acknowledged` once the
    /// line is complete and is an acknowledgement.
    pub open spec fn reply(
        self,
        byte: u8,
        stage: Stage,
        acknowledged: BackupPhase<Seq<u8>>,
    ) -> BackupState {
        let line = self.line.push(byte);
        let cleared = BackupState { line: Seq::empty(), ..self };
        match line_status(self.line, byte) {
            LineStatus::Unfinished => BackupState { line, ..self },
            LineStatus::TooLong => cleared.failed(Failure::LineTooLong(Activity::ReadReply(stage))),
            LineStatus::Complete => if line == ACK@ {
                cleared.at(acknowledged)
            } else {
                cleared.failed(Failure::NotAcknowledged { stage, response: line })
            },
        }
    }

    /// The phase after command `at` has been acknowledged.
    pub open spec fn after_command(self, at: usize) -> BackupPhase<Seq<u8>> {
        if at + 1 < Self::commands(self.target).len() {
            BackupPhase::Command { at: (at + 1) as usize }
        } else if self.target is Project {
            BackupPhase::Version
        } else {
            BackupPhase::Size
        }
    }

    /// The instrument has said how much there is to read.
    pub open spec fn sized(self, reported: i32) -> BackupState {
        if self.target is Project && reported < 0 {
            self.failed(Failure::NegativeProjectSize { reported })
        } else if self.target is Settings && reported < 1 {
            self.failed(Failure::InvalidSettingsSize { reported })
        } else if reported > MAX_PROJECT_SIZE {
            self.failed(
                Failure::ImplausibleSize { target: self.target, size: reported as usize },
            )
        } else {
            BackupState { size: reported as usize, ..self }.proceed()
        }
    }

    /// The next block is the first that the settings begin with.
    pub open spec fn leads_settings(self) -> bool {
        self.target is Settings && self.data.len() == 0
    }

    /// More of the block has arrived. Once it is whole, its CRC is asked for.
    /// The oldest settings have no CRCs: the first byte of all, as it comes at
    /// first, tells. A block that is sent again is one that has a CRC.
    pub open spec fn received(self, bytes: Seq<u8>) -> BackupState {
        let block = self.block + bytes;
        let arrived = BackupState { block, ..self };
        if block.len() < self.block_size() {
            arrived
        } else if self.leads_settings() && self.retries == 0 {
            let version = block[0];
            if version == UNCHECKED_VERSION {
                BackupState { unchecked: true, ..arrived }.at(BackupPhase::UncheckedAcceptance)
            } else if version >= FIRST_CHECKED_VERSION {
                arrived.at(BackupPhase::CrcRequest)
            } else {
                arrived.failed(Failure::UnsupportedSettingsVersion { version })
            }
        } else if self.unchecked {
            arrived.at(BackupPhase::UncheckedAcceptance)
        } else {
            arrived.at(BackupPhase::CrcRequest)
        }
    }

    /// The instrument has sent its CRC of the block. A block that is as it was
    /// sent is accepted, unless it shows that the settings have a version that
    /// nobody can read.
    pub open spec fn compared(self, remote: u32) -> BackupState {
        let local = crc32_of(self.block);
        if remote != local {
            self.at(BackupPhase::Rejection { local, remote })
        } else if self.leads_settings() && self.block[0] < UNCHECKED_VERSION {
            self.failed(Failure::UnsupportedSettingsVersion { version: self.block[0] })
        } else {
            self.at(BackupPhase::Acceptance)
        }
    }

    /// The block has been accepted.
    pub open spec fn accepted(self) -> BackupState {
        let version = if self.leads_settings() {
            Some(self.block[0])
        } else {
            self.version
        };
        BackupState {
            data: self.data + self.block,
            block: Seq::empty(),
            version,
            retries: 0,
            ..self
        }.proceed()
    }

    /// The block has been rejected: it is read again, unless that has been done
    /// too often.
    pub open spec fn rejected(self) -> BackupState {
        let retries = (self.retries + 1) as usize;
        let again = BackupState { block: Seq::empty(), retries, ..self };
        if retries <= MAX_BLOCK_RETRIES {
            again.at(BackupPhase::Block)
        } else {
            again.failed(Failure::BlockRejected { offset: self.data.len() as usize })
        }
    }

    /// The instrument has sent the version of a project. Blocks are checked from
    /// some version on, and a project is not read without that.
    pub open spec fn versioned(self, version: u8) -> BackupState {
        if version >= FIRST_CHECKED_VERSION {
            BackupState { version: Some(version), phase: BackupPhase::Size, ..self }
        } else {
            self.failed(Failure::UnsupportedProjectVersion { version })
        }
    }

    /// The line broke while a block was being read.
    pub open spec fn broken_off(self, event: Event<Seq<u8>>) -> BackupState {
        let offset = self.data.len() as usize;
        let received = self.block.len() as usize;
        let expected = self.block_size() as usize;
        match event {
            Event::Ended => self.failed(Failure::EndOfBlock { offset, received, expected }),
            Event::TimedOut => self.failed(Failure::BlockTimedOut { offset, received, expected }),
            _ => self.failed(Failure::Io(Activity::ReadBlock { offset, received, expected })),
        }
    }

    /// The phase after a write has been tried.
    pub open spec fn written(
        self,
        event: Event<Seq<u8>>,
        activity: Activity,
        done: BackupState,
    ) -> BackupState {
        match event {
            Event::Done => done,
            Event::FlushFailed => self.failed(Failure::Io(Activity::Flush)),
            _ => self.failed(Failure::Io(activity)),
        }
    }

    /// The backup after `event`.
    pub open spec fn next(self, event: Event<Seq<u8>>) -> BackupState {
        match self.phase {
            BackupPhase::Command { at } => self.written(
                event,
                Activity::Send(Self::commands(self.target)[at as int].1),
                self.at(BackupPhase::CommandReply { at }),
            ),
            BackupPhase::CommandReply { at } => {
                let stage = Self::commands(self.target)[at as int].1;
                match event {
                    Event::Received(bytes) => self.reply(bytes[0], stage, self.after_command(at)),
                    _ => self.failed(Failure::Io(Activity::ReadReply(stage))),
                }
            },
            BackupPhase::Version => match event {
                Event::Received(bytes) => self.versioned(bytes[0]),
                _ => self.failed(Failure::Io(Activity::ReadProjectVersion)),
            },
            BackupPhase::Size => match event {
                Event::Received(bytes) => self.sized(i32_from_le(bytes)),
                _ => self.failed(
                    Failure::Io(
                        if self.target is Project {
                            Activity::ReadProjectSize
                        } else {
                            Activity::ReadSettingsSize
                        },
                    ),
                ),
            },
            BackupPhase::Settle => self.at(BackupPhase::Block),
            BackupPhase::Block => match event {
                Event::Received(bytes) => self.received(bytes),
                _ => self.broken_off(event),
            },
            BackupPhase::CrcRequest => self.written(
                event,
                Activity::ExchangeCrc,
                self.at(BackupPhase::Crc),
            ),
            BackupPhase::Crc => match event {
                Event::Received(bytes) => self.compared(u32_from_le(bytes)),
                _ => self.failed(Failure::Io(Activity::ExchangeCrc)),
            },
            BackupPhase::Rejection { .. } => self.written(
                event,
                Activity::ExchangeCrc,
                self.rejected(),
            ),
            BackupPhase::Acceptance => self.written(event, Activity::ExchangeCrc, self.accepted()),
            BackupPhase::UncheckedAcceptance => self.written(
                event,
                Activity::ExchangeCrc,
                self.accepted(),
            ),
            BackupPhase::Completion => {
                let stage = Self::transfer(self.target);
                match event {
                    Event::Received(bytes) => self.reply(bytes[0], stage, BackupPhase::Temporary),
                    _ => self.failed(Failure::Io(Activity::ReadReply(stage))),
                }
            },
            BackupPhase::Temporary => match event {
                Event::Done => self.at(BackupPhase::Rename),
                _ => self.failed(Failure::Io(Activity::WriteTemporary)),
            },
            BackupPhase::Rename => match event {
                Event::Done => self.at(BackupPhase::Finished),
                _ => self.failed(Failure::Io(Activity::RenameTemporary)),
            },
            BackupPhase::Finished => self,
            BackupPhase::Failed(_) => self,
        }
    }

    /// What the user is told when the backup goes from here to `next`.
    pub open spec fn notice(self, next: BackupState) -> Option<Notice> {
        if next.phase is Failed {
            None
        } else {
            match self.phase {
                BackupPhase::Size => match self.target {
                    Target::Project { index } => Some(
                        Notice::ReadingProject {
                            number: (index + 1) as u8,
                            version: next.version->0,
                            size: next.size,
                        },
                    ),
                    Target::Settings => Some(Notice::ReadingSettings { size: next.size }),
                },
                BackupPhase::Rejection { local, remote } => Some(
                    Notice::CrcMismatch { offset: next.data.len() as usize, local, remote },
                ),
                BackupPhase::Acceptance | BackupPhase::UncheckedAcceptance => Some(
                    Notice::Read { done: next.data.len() as usize, total: next.size },
                ),
                BackupPhase::Rename => {
                    let size = next.payload().len() as usize;
                    let crc = crc32_of(next.payload());
                    match self.target {
                        Target::Project { index } => Some(
                            Notice::SavedProject { number: (index + 1) as u8, size, crc },
                        ),
                        Target::Settings => Some(
                            Notice::SavedSettings { version: next.version->0, size, crc },
                        ),
                    }
                },
                _ => None,
            }
        }
    }

    /// The version of a project is read before its size, that of the settings
    /// is their first byte; the settings are never empty. Blocks come without
    /// CRCs only with the settings whose version says so.
    pub open spec fn has_header(self) -> bool {
        match self.target {
            Target::Project { .. } => self.version is Some && !self.unchecked,
            Target::Settings => {
                &&& self.size >= 1
                &&& self.data.len() == 0 ==> self.version is None
                &&& self.data.len() > 0 ==> self.version == Some(self.data[0])
                &&& self.data.len() > 0 ==> self.data[0] >= UNCHECKED_VERSION
                &&& self.data.len() > 0 && self.unchecked ==> self.data[0] == UNCHECKED_VERSION
            },
        }
    }

    /// The next block is being waited for or read.
    pub open spec fn is_reading(self) -> bool {
        &&& self.has_header()
        &&& self.unchecked ==> self.data.len() > 0 && self.retries == 0
        &&& self.data.len() < self.size
        &&& self.block.len() < self.block_size()
        &&& self.retries <= MAX_BLOCK_RETRIES
    }

    /// The next block is whole.
    pub open spec fn is_judging(self) -> bool {
        &&& self.has_header()
        &&& self.data.len() < self.size
        &&& self.block.len() == self.block_size()
        &&& self.retries <= MAX_BLOCK_RETRIES
    }

    /// What holds of every backup on its way.
    pub open spec fn valid(self) -> bool {
        &&& self.target matches Target::Project { index } ==> index <= MAX_PROJECT_INDEX
        &&& self.target is Project && self.version is Some ==> self.version->0
            >= FIRST_CHECKED_VERSION
        &&& self.line.len() <= MAX_LINE
        &&& self.size <= MAX_PROJECT_SIZE
        &&& self.data.len() <= self.size
        &&& match self.phase {
            BackupPhase::Command { at } | BackupPhase::CommandReply { at } => {
                &&& at < Self::commands(self.target).len()
                &&& self.data.len() == 0
                &&& self.block.len() == 0
                &&& self.version is None
                &&& !self.unchecked
                &&& self.retries == 0
            },
            BackupPhase::Version => {
                &&& self.target is Project
                &&& self.data.len() == 0
                &&& self.block.len() == 0
                &&& !self.unchecked
                &&& self.retries == 0
            },
            BackupPhase::Size => {
                &&& self.target is Project <==> self.version is Some
                &&& self.data.len() == 0
                &&& self.block.len() == 0
                &&& !self.unchecked
                &&& self.retries == 0
            },
            BackupPhase::Settle => {
                &&& self.is_reading()
                &&& self.block.len() == 0
                &&& self.retries == 0
            },
            BackupPhase::Block => self.is_reading(),
            BackupPhase::CrcRequest | BackupPhase::Crc | BackupPhase::Rejection { .. } => {
                &&& self.is_judging()
                &&& !self.unchecked
            },
            BackupPhase::Acceptance => {
                &&& self.is_judging()
                &&& !self.unchecked
                &&& self.leads_settings() ==> self.block[0] >= UNCHECKED_VERSION
            },
            BackupPhase::UncheckedAcceptance => {
                &&& self.is_judging()
                &&& self.unchecked
                &&& self.retries == 0
                &&& self.leads_settings() ==> self.block[0] == UNCHECKED_VERSION
            },
            BackupPhase::Completion
            | BackupPhase::Temporary
            | BackupPhase::Rename
            | BackupPhase::Finished => {
                &&& self.has_header()
                &&& self.version is Some
                &&& self.data.len() == self.size
            },
            BackupPhase::Failed(_) => true,
        }
    }
}

/// A valid backup stays valid, whatever comes of the action that it waits for.
pub proof fn law_step_keeps_valid(state: BackupState, event: Event<Seq<u8>>)
    requires
        state.valid(),
        can_follow(state.request(), event),
    ensures
        state.next(event).valid(),
        state.next(event).target == state.target,
{
}

impl View for BackupPhase<Vec<u8>> {
    type V = BackupPhase<Seq<u8>>;

    open spec fn view(&self) -> BackupPhase<Seq<u8>> {
        match *self {
            BackupPhase::Command { at } => BackupPhase::Command { at },
            BackupPhase::CommandReply { at } => BackupPhase::CommandReply { at },
            BackupPhase::Version => BackupPhase::Version,
            BackupPhase::Size => BackupPhase::Size,
            BackupPhase::Settle => BackupPhase::Settle,
            BackupPhase::Block => BackupPhase::Block,
            BackupPhase::CrcRequest => BackupPhase::CrcRequest,
            BackupPhase::Crc => BackupPhase::Crc,
            BackupPhase::Rejection { local, remote } => BackupPhase::Rejection { local, remote },
            BackupPhase::Acceptance => BackupPhase::Acceptance,
            BackupPhase::UncheckedAcceptance => BackupPhase::UncheckedAcceptance,
            BackupPhase::Completion => BackupPhase::Completion,
            BackupPhase::Temporary => BackupPhase::Temporary,
            BackupPhase::Rename => BackupPhase::Rename,
            BackupPhase::Finished => BackupPhase::Finished,
            BackupPhase::Failed(failure) => BackupPhase::Failed(failure@),
        }
    }
}

/// A backup on its way.
#[derive(Debug)]
pub struct Backup {
    target: Target,
    phase: BackupPhase<Vec<u8>>,
    line: Vec<u8>,
    version: Option<u8>,
    unchecked: bool,
    size: usize,
    data: Vec<u8>,
    block: Vec<u8>,
    retries: usize,
}

impl View for Backup {
    type V = BackupState;

    closed spec fn view(&self) -> BackupState {
        BackupState {
            target: self.target,
            phase: self.phase@,
            line: self.line@,
            version: self.version,
            unchecked: self.unchecked,
            size: self.size,
            data: self.data@,
            block: self.block@,
            retries: self.retries,
        }
    }
}

/// The command that is sent as number `at`, with the step that its reply
/// acknowledges.
fn command(target: Target, at: usize) -> (result: (Vec<u8>, Stage))
    requires
        at < BackupState::commands(target).len(),
    ensures
        result.0@ == BackupState::commands(target)[at as int].0,
        result.1 == BackupState::commands(target)[at as int].1,
{
    match target {
        Target::Project { index } => if at == 0 {
            (one_byte(READ_PROJECT), Stage::SingleProjectCommand)
        } else {
            (one_byte(index), Stage::ProjectIndex)
        },
        Target::Settings => (one_byte(READ_SETTINGS), Stage::ReadSettingsCommand),
    }
}

/// How many commands are sent before the transfer.
fn command_count(target: Target) -> (result: usize)
    ensures
        result == BackupState::commands(target).len(),
{
    match target {
        Target::Project { .. } => 2,
        Target::Settings => 1,
    }
}

impl Backup {
    /// Begins a backup.
    pub fn start(target: Target) -> (result: (Backup, Step))
        requires
            target matches Target::Project { index } ==> index <= MAX_PROJECT_INDEX,
        ensures
            result.0@ == BackupState::start(target),
            result.0@.valid(),
            result.1.notice is None,
            result.1.action@ == result.0@.request(),
    {
        let backup = Backup {
            target,
            phase: BackupPhase::Command { at: 0 },
            line: Vec::new(),
            version: None,
            unchecked: false,
            size: 0,
            data: Vec::new(),
            block: Vec::new(),
            retries: 0,
        };
        let action = backup.request();
        (backup, Step { notice: None, action })
    }

    /// The length of the next block.
    fn block_size(&self) -> (result: usize)
        requires
            self.data@.len() <= self.size,
        ensures
            result == self@.block_size(),
    {
        let remaining: usize = self.size - self.data.len();
        if remaining < BLOCK_SIZE {
            remaining
        } else {
            BLOCK_SIZE
        }
    }

    /// The bytes that go into the file.
    fn payload(&self) -> (result: &[u8])
        requires
            self@.target is Settings ==> self@.data.len() >= 1,
        ensures
            result@ == self@.payload(),
    {
        match self.target {
            Target::Project { .. } => self.data.as_slice(),
            Target::Settings => {
                let data = self.data.as_slice();
                assert(data@.subrange(1, data@.len() as int) == data@.skip(1));
                &data[1..data.len()]
            },
        }
    }

    /// The action that the backup waits for.
    pub fn request(&self) -> (action: Action<Vec<u8>>)
        requires
            self@.valid(),
        ensures
            action@ == self@.request(),
    {
        match &self.phase {
            BackupPhase::Command { at } => Action::Write(command(self.target, *at).0),
            BackupPhase::CommandReply { .. } => Action::Read(1),
            BackupPhase::Version => Action::Read(1),
            BackupPhase::Size => Action::Read(4),
            BackupPhase::Settle => Action::Pause(BLOCK_SETTLE_TIME),
            BackupPhase::Block => Action::ReadSome(self.block_size() - self.block.len()),
            BackupPhase::CrcRequest => Action::Write(one_byte(CRC_REQUEST)),
            BackupPhase::Crc => Action::Read(4),
            BackupPhase::Rejection { .. } => Action::Write(one_byte(CRC_WRONG)),
            BackupPhase::Acceptance => Action::Write(one_byte(CRC_OK)),
            BackupPhase::UncheckedAcceptance => Action::Write(one_byte(BLOCK_ARRIVED)),
            BackupPhase::Completion => Action::Read(1),
            BackupPhase::Temporary => match self.version {
                Some(version) => Action::WriteTemporary(build_file(version, self.payload())),
                None => Action::Finish,
            },
            BackupPhase::Rename => Action::RenameTemporary,
            BackupPhase::Finished => Action::Finish,
            BackupPhase::Failed(failure) => Action::Fail(failure.duplicate()),
        }
    }

    /// Goes on after an action with what came of it: says what to tell the user
    /// and what to do next.
    pub fn advance(&mut self, event: Event<Vec<u8>>) -> (step: Step)
        requires
            old(self)@.valid(),
            can_follow(old(self)@.request(), event@),
        ensures
            final(self)@ == old(self)@.next(event@),
            final(self)@.valid(),
            step.notice == old(self)@.notice(final(self)@),
            step.action@ == final(self)@.request(),
    {
        proof {
            law_step_keeps_valid(self@, event@);
        }
        let notice: Option<Notice> = match self.phase {
            BackupPhase::Command { at } => {
                let activity = Activity::Send(command(self.target, at).1);
                self.after_write(event, activity, BackupPhase::CommandReply { at });
                None
            },
            BackupPhase::CommandReply { at } => {
                let stage = command(self.target, at).1;
                let acknowledged: BackupPhase<Vec<u8>> = if at + 1 < command_count(self.target) {
                    BackupPhase::Command { at: at + 1 }
                } else {
                    match self.target {
                        Target::Project { .. } => BackupPhase::Version,
                        Target::Settings => BackupPhase::Size,
                    }
                };
                self.after_reply(event, stage, acknowledged);
                None
            },
            BackupPhase::Version => {
                match event {
                    Event::Received(bytes) => {
                        let version: u8 = bytes[0];
                        if version >= FIRST_CHECKED_VERSION {
                            self.version = Some(version);
                            self.phase = BackupPhase::Size;
                        } else {
                            self.phase = BackupPhase::Failed(
                                Failure::UnsupportedProjectVersion { version },
                            );
                        }
                    },
                    _ => {
                        self.phase = BackupPhase::Failed(Failure::Io(Activity::ReadProjectVersion));
                    },
                }
                None
            },
            BackupPhase::Size => self.after_size(event),
            BackupPhase::Settle => {
                self.phase = BackupPhase::Block;
                None
            },
            BackupPhase::Block => {
                self.after_block(event);
                None
            },
            BackupPhase::CrcRequest => {
                self.after_write(event, Activity::ExchangeCrc, BackupPhase::Crc);
                None
            },
            BackupPhase::Crc => {
                self.after_crc(event);
                None
            },
            BackupPhase::Rejection { local, remote } => self.after_rejection(event, local, remote),
            BackupPhase::Acceptance => self.after_acceptance(event),
            BackupPhase::UncheckedAcceptance => self.after_acceptance(event),
            BackupPhase::Completion => {
                let stage = match self.target {
                    Target::Project { .. } => Stage::ProjectTransfer,
                    Target::Settings => Stage::SettingsTransfer,
                };
                self.after_reply(event, stage, BackupPhase::Temporary);
                None
            },
            BackupPhase::Temporary => {
                match event {
                    Event::Done => {
                        self.phase = BackupPhase::Rename;
                    },
                    _ => {
                        self.phase = BackupPhase::Failed(Failure::Io(Activity::WriteTemporary));
                    },
                }
                None
            },
            BackupPhase::Rename => self.after_rename(event),
            BackupPhase::Finished => None,
            BackupPhase::Failed(_) => None,
        };
        let action = self.request();
        Step { notice, action }
    }

    /// Goes to `done` if a write went well; says whether it did.
    fn after_write(
        &mut self,
        event: Event<Vec<u8>>,
        activity: Activity,
        done: BackupPhase<Vec<u8>>,
    ) -> (well: bool)
        ensures
            final(self)@ == old(self)@.written(event@, activity, old(self)@.at(done@)),
            well == (event@ is Done),
    {
        match event {
            Event::Done => {
                self.phase = done;
                true
            },
            Event::FlushFailed => {
                self.phase = BackupPhase::Failed(Failure::Io(Activity::Flush));
                false
            },
            _ => {
                self.phase = BackupPhase::Failed(Failure::Io(activity));
                false
            },
        }
    }

    /// Takes one more byte of a reply; goes to `acknowledged` once the reply is
    /// an acknowledgement.
    fn after_reply(
        &mut self,
        event: Event<Vec<u8>>,
        stage: Stage,
        acknowledged: BackupPhase<Vec<u8>>,
    )
        requires
            old(self)@.line.len() <= MAX_LINE,
            can_follow(Action::Read(1), event@),
        ensures
            final(self)@ == match event@ {
                Event::Received(bytes) => old(self)@.reply(bytes[0], stage, acknowledged@),
                _ => old(self)@.failed(Failure::Io(Activity::ReadReply(stage))),
            },
    {
        match event {
            Event::Received(bytes) => match read_line(&mut self.line, bytes[0]) {
                LineStatus::Unfinished => {},
                LineStatus::TooLong => {
                    self.line.clear();
                    self.phase = BackupPhase::Failed(
                        Failure::LineTooLong(Activity::ReadReply(stage)),
                    );
                },
                LineStatus::Complete => if is_ack(&self.line) {
                    self.line.clear();
                    self.phase = acknowledged;
                } else {
                    let mut response: Vec<u8> = Vec::new();
                    response.append(&mut self.line);
                    self.phase = BackupPhase::Failed(Failure::NotAcknowledged { stage, response });
                },
            },
            _ => {
                self.phase = BackupPhase::Failed(Failure::Io(Activity::ReadReply(stage)));
            },
        }
    }

    /// On to the next block, or to the end of the transfer.
    fn proceed(&mut self)
        ensures
            final(self)@ == old(self)@.proceed(),
    {
        if self.data.len() < self.size {
            self.phase = BackupPhase::Settle;
        } else {
            self.phase = BackupPhase::Completion;
        }
    }

    /// Takes the size that the instrument reports.
    fn after_size(&mut self, event: Event<Vec<u8>>) -> (notice: Option<Notice>)
        requires
            old(self)@.valid(),
            old(self)@.phase is Size,
            can_follow(Action::Read(4), event@),
        ensures
            final(self)@ == old(self)@.next(event@),
            notice == old(self)@.notice(final(self)@),
    {
        match event {
            Event::Received(bytes) => {
                let reported: i32 = i32_from_le_bytes(bytes.as_slice());
                match self.target {
                    Target::Project { .. } => if reported < 0 {
                        self.phase = BackupPhase::Failed(Failure::NegativeProjectSize { reported });
                        return None;
                    },
                    Target::Settings => if reported < 1 {
                        self.phase = BackupPhase::Failed(Failure::InvalidSettingsSize { reported });
                        return None;
                    },
                }
                let size: usize = reported as usize;
                if size > MAX_PROJECT_SIZE {
                    self.phase = BackupPhase::Failed(
                        Failure::ImplausibleSize { target: self.target, size },
                    );
                    return None;
                }
                self.size = size;
                self.proceed();
                match self.target {
                    Target::Project { index } => match self.version {
                        Some(version) => Some(
                            Notice::ReadingProject { number: index + 1, version, size },
                        ),
                        None => None,
                    },
                    Target::Settings => Some(Notice::ReadingSettings { size }),
                }
            },
            _ => {
                let activity = match self.target {
                    Target::Project { .. } => Activity::ReadProjectSize,
                    Target::Settings => Activity::ReadSettingsSize,
                };
                self.phase = BackupPhase::Failed(Failure::Io(activity));
                None
            },
        }
    }

    /// Takes what a read within a block gave.
    fn after_block(&mut self, event: Event<Vec<u8>>)
        requires
            old(self)@.valid(),
            old(self)@.phase is Block,
            can_follow(old(self)@.request(), event@),
        ensures
            final(self)@ == old(self)@.next(event@),
    {
        let offset: usize = self.data.len();
        let received: usize = self.block.len();
        let expected: usize = self.block_size();
        match event {
            Event::Received(bytes) => {
                let mut bytes = bytes;
                self.block.append(&mut bytes);
                if self.block.len() == expected {
                    self.after_whole_block();
                }
            },
            Event::Ended => {
                self.phase = BackupPhase::Failed(
                    Failure::EndOfBlock { offset, received, expected },
                );
            },
            Event::TimedOut => {
                self.phase = BackupPhase::Failed(
                    Failure::BlockTimedOut { offset, received, expected },
                );
            },
            _ => {
                self.phase = BackupPhase::Failed(
                    Failure::Io(Activity::ReadBlock { offset, received, expected }),
                );
            },
        }
    }

    /// Whether the next block is the first that the settings begin with.
    fn leads_settings(&self) -> (result: bool)
        ensures
            result == self@.leads_settings(),
    {
        match self.target {
            Target::Project { .. } => false,
            Target::Settings => self.data.len() == 0,
        }
    }

    /// Decides how a block that is whole is confirmed.
    fn after_whole_block(&mut self)
        requires
            old(self)@.block.len() > 0,
            old(self)@.block.len() == old(self)@.block_size(),
        ensures
            final(self)@ == old(self)@.received(Seq::empty()),
    {
        proof {
            assert(self.block@ + Seq::<u8>::empty() == self.block@);
        }
        if self.leads_settings() && self.retries == 0 {
            let version: u8 = self.block[0];
            if version == UNCHECKED_VERSION {
                self.unchecked = true;
                self.phase = BackupPhase::UncheckedAcceptance;
            } else if version >= FIRST_CHECKED_VERSION {
                self.phase = BackupPhase::CrcRequest;
            } else {
                self.phase = BackupPhase::Failed(Failure::UnsupportedSettingsVersion { version });
            }
        } else if self.unchecked {
            self.phase = BackupPhase::UncheckedAcceptance;
        } else {
            self.phase = BackupPhase::CrcRequest;
        }
    }

    /// Takes the CRC that the instrument has of the block.
    fn after_crc(&mut self, event: Event<Vec<u8>>)
        requires
            old(self)@.valid(),
            old(self)@.phase is Crc,
            can_follow(Action::Read(4), event@),
        ensures
            final(self)@ == old(self)@.next(event@),
    {
        match event {
            Event::Received(bytes) => {
                let remote: u32 = u32_from_le_bytes(bytes.as_slice());
                let local: u32 = crc32(self.block.as_slice());
                let version: u8 = self.block[0];
                if remote != local {
                    self.phase = BackupPhase::Rejection { local, remote };
                } else if self.leads_settings() && version < UNCHECKED_VERSION {
                    self.phase = BackupPhase::Failed(
                        Failure::UnsupportedSettingsVersion { version },
                    );
                } else {
                    self.phase = BackupPhase::Acceptance;
                }
            },
            _ => {
                self.phase = BackupPhase::Failed(Failure::Io(Activity::ExchangeCrc));
            },
        }
    }

    /// Forgets a block that was rejected.
    fn after_rejection(
        &mut self,
        event: Event<Vec<u8>>,
        local: u32,
        remote: u32,
    ) -> (notice: Option<Notice>)
        requires
            old(self)@.valid(),
            old(self)@.phase == (BackupPhase::<Seq<u8>>::Rejection { local, remote }),
        ensures
            final(self)@ == old(self)@.next(event@),
            notice == old(self)@.notice(final(self)@),
    {
        if !self.after_write(event, Activity::ExchangeCrc, BackupPhase::Block) {
            return None;
        }
        let offset: usize = self.data.len();
        self.block.clear();
        self.retries = self.retries + 1;
        if self.retries <= MAX_BLOCK_RETRIES {
            Some(Notice::CrcMismatch { offset, local, remote })
        } else {
            self.phase = BackupPhase::Failed(Failure::BlockRejected { offset });
            None
        }
    }

    /// Adds a block that was accepted to the data.
    fn after_acceptance(&mut self, event: Event<Vec<u8>>) -> (notice: Option<Notice>)
        requires
            old(self)@.valid(),
            old(self)@.phase is Acceptance || old(self)@.phase is UncheckedAcceptance,
        ensures
            final(self)@ == old(self)@.next(event@),
            notice == old(self)@.notice(final(self)@),
    {
        match event {
            Event::Done => {
                if self.leads_settings() {
                    self.version = Some(self.block[0]);
                }
                self.data.append(&mut self.block);
                self.retries = 0;
                self.proceed();
                Some(Notice::Read { done: self.data.len(), total: self.size })
            },
            Event::FlushFailed => {
                self.phase = BackupPhase::Failed(Failure::Io(Activity::Flush));
                None
            },
            _ => {
                self.phase = BackupPhase::Failed(Failure::Io(Activity::ExchangeCrc));
                None
            },
        }
    }

    /// Ends the backup once the file is in its place.
    fn after_rename(&mut self, event: Event<Vec<u8>>) -> (notice: Option<Notice>)
        requires
            old(self)@.valid(),
            old(self)@.phase is Rename,
        ensures
            final(self)@ == old(self)@.next(event@),
            notice == old(self)@.notice(final(self)@),
    {
        match event {
            Event::Done => {
                self.phase = BackupPhase::Finished;
                let payload = self.payload();
                let size: usize = payload.len();
                let crc: u32 = crc32(payload);
                match self.target {
                    Target::Project { index } => Some(
                        Notice::SavedProject { number: index + 1, size, crc },
                    ),
                    Target::Settings => match self.version {
                        Some(version) => Some(Notice::SavedSettings { version, size, crc }),
                        None => None,
                    },
                }
            },
            _ => {
                self.phase = BackupPhase::Failed(Failure::Io(Activity::RenameTemporary));
                None
            },
        }
    }
}

} // verus!
