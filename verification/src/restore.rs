//! Writing a project or the settings from a file back to the instrument.

use vstd::prelude::*;

use crate::crc::crc32;
use crate::little_endian::u32_to_le_bytes;
use crate::protocol::{
    copy_of, is_ack, one_byte, read_line, Action, Activity, Event, Failure, LineStatus, Notice,
    Stage, Step, Target, BLOCK_SIZE, CRC_OK, CRC_REQUEST, CRC_WRONG, MAX_BLOCK_RETRIES, MAX_LINE,
    MAX_PROJECT_INDEX, RESTORE_PROJECT, RESTORE_SETTINGS,
};

#[allow(unused_imports)]
use crate::crc::crc32_of;
#[allow(unused_imports)]
use crate::little_endian::u32_le;
#[allow(unused_imports)]
use crate::protocol::{can_follow, line_status, ACK};

verus! {

/// Where a restore stands: the action that it waits for.
#[derive(Debug)]
pub enum RestorePhase<B> {
    /// Sending a command.
    Command { at: usize },
    /// Reading the reply to a command.
    CommandReply { at: usize },
    /// Sending a block.
    Block,
    /// Reading the request for the CRC of the block.
    CrcRequest,
    /// Sending the CRC of the block.
    Crc,
    /// Reading whether the block is accepted.
    Verdict,
    /// Reading the reply that ends the transfer.
    Completion,
    Finished,
    Failed(Failure<B>),
}

/// A restore as contracts see it.
pub struct RestoreState {
    pub target: Target,
    pub version: u8,
    pub phase: RestorePhase<Seq<u8>>,
    /// What has been read of a reply.
    pub line: Seq<u8>,
    /// All that is sent in blocks.
    pub stream: Seq<u8>,
    /// How much of the stream the instrument has accepted.
    pub offset: usize,
    /// How often the instrument has rejected the block at the offset.
    pub retries: usize,
}

impl RestoreState {
    /// A restore that is about to begin. A project is sent as it is; the
    /// settings have their version ahead of them, since no command sends it.
    pub open spec fn start(target: Target, version: u8, data: Seq<u8>) -> RestoreState {
        RestoreState {
            target,
            version,
            phase: RestorePhase::Command { at: 0 },
            line: Seq::empty(),
            stream: match target {
                Target::Project { .. } => data,
                Target::Settings => seq![version] + data,
            },
            offset: 0,
            retries: 0,
        }
    }

    /// The stream is too long for the size that is sent ahead of it. That can
    /// only be so of settings, by their version byte.
    pub open spec fn too_large(self) -> bool {
        self.stream.len() > i32::MAX
    }

    /// What is sent before the transfer, with the step that the reply to each
    /// acknowledges.
    pub open spec fn commands(self) -> Seq<(Seq<u8>, Stage)> {
        match self.target {
            Target::Project { index } => seq![
                (seq![RESTORE_PROJECT], Stage::RestoreProjectCommand),
                (seq![self.version], Stage::ProjectVersion),
                (u32_le(self.stream.len() as u32), Stage::ProjectSize),
                (seq![index], Stage::ProjectIndex),
            ],
            Target::Settings => if self.too_large() {
                seq![(seq![RESTORE_SETTINGS], Stage::RestoreSettingsCommand)]
            } else {
                seq![
                    (seq![RESTORE_SETTINGS], Stage::RestoreSettingsCommand),
                    (u32_le(self.stream.len() as u32), Stage::SettingsSize),
                ]
            },
        }
    }

    /// The step that the last reply acknowledges.
    pub open spec fn transfer(target: Target) -> Stage {
        match target {
            Target::Project { .. } => Stage::ProjectTransfer,
            Target::Settings => Stage::SettingsTransfer,
        }
    }

    /// Where the block at the offset ends.
    pub open spec fn block_end(self) -> int {
        if self.offset + BLOCK_SIZE < self.stream.len() {
            self.offset + BLOCK_SIZE
        } else {
            self.stream.len() as int
        }
    }

    /// The block at the offset.
    pub open spec fn block(self) -> Seq<u8> {
        self.stream.subrange(self.offset as int, self.block_end())
    }

    /// How many bytes of data the file has.
    pub open spec fn data_size(self) -> int {
        match self.target {
            Target::Project { .. } => self.stream.len() as int,
            Target::Settings => self.stream.len() - 1,
        }
    }

    /// What is to be done next.
    pub open spec fn request(self) -> Action<Seq<u8>> {
        match self.phase {
            RestorePhase::Command { at } => Action::Write(self.commands()[at as int].0),
            RestorePhase::CommandReply { .. } => Action::Read(1),
            RestorePhase::Block => Action::Write(self.block()),
            RestorePhase::CrcRequest => Action::Read(1),
            RestorePhase::Crc => Action::Write(u32_le(crc32_of(self.block()))),
            RestorePhase::Verdict => Action::Read(1),
            RestorePhase::Completion => Action::Read(1),
            RestorePhase::Finished => Action::Finish,
            RestorePhase::Failed(failure) => Action::Fail(failure),
        }
    }

    /// The same restore in another phase.
    pub open spec fn at(self, phase: RestorePhase<Seq<u8>>) -> RestoreState {
        RestoreState { phase, ..self }
    }

    /// The same restore, failed.
    pub open spec fn failed(self, failure: Failure<Seq<u8>>) -> RestoreState {
        self.at(RestorePhase::Failed(failure))
    }

    /// The phase for the block at the offset, or for the end of the transfer.
    pub open spec fn onward(self) -> RestorePhase<Seq<u8>> {
        if self.offset < self.stream.len() {
            RestorePhase::Block
        } else {
            RestorePhase::Completion
        }
    }

    /// One more byte of the reply to `stage`; on to `acknowledged` once the
    /// line is complete and is an acknowledgement.
    pub open spec fn reply(
        self,
        byte: u8,
        stage: Stage,
        acknowledged: RestorePhase<Seq<u8>>,
    ) -> RestoreState {
        let line = self.line.push(byte);
        let cleared = RestoreState { line: Seq::empty(), ..self };
        match line_status(self.line, byte) {
            LineStatus::Unfinished => RestoreState { line, ..self },
            LineStatus::TooLong => cleared.failed(Failure::LineTooLong(Activity::ReadReply(stage))),
            LineStatus::Complete => if line == ACK@ {
                cleared.at(acknowledged)
            } else {
                cleared.failed(Failure::NotAcknowledged { stage, response: line })
            },
        }
    }

    /// The phase after command `at` has been acknowledged.
    pub open spec fn after_command(self, at: usize) -> RestorePhase<Seq<u8>> {
        if at + 1 < self.commands().len() {
            RestorePhase::Command { at: (at + 1) as usize }
        } else if self.too_large() {
            RestorePhase::Failed(Failure::SettingsTooLarge { size: self.stream.len() as usize })
        } else {
            self.onward()
        }
    }

    /// The instrument has said whether it accepts the block.
    pub open spec fn judged(self, verdict: u8) -> RestoreState {
        if verdict == CRC_OK {
            let accepted = RestoreState { offset: self.block_end() as usize, retries: 0, ..self };
            accepted.at(accepted.onward())
        } else if verdict == CRC_WRONG {
            let rejected = RestoreState { retries: (self.retries + 1) as usize, ..self };
            if rejected.retries <= MAX_BLOCK_RETRIES {
                rejected.at(RestorePhase::Block)
            } else {
                rejected.failed(Failure::BlockRejected { offset: self.offset })
            }
        } else {
            self.failed(Failure::ExpectedCrcResult { reply: verdict })
        }
    }

    /// The restore after a write has been tried.
    pub open spec fn written(
        self,
        event: Event<Seq<u8>>,
        activity: Activity,
        done: RestorePhase<Seq<u8>>,
    ) -> RestoreState {
        match event {
            Event::Done => self.at(done),
            Event::FlushFailed => self.failed(Failure::Io(Activity::Flush)),
            _ => self.failed(Failure::Io(activity)),
        }
    }

    /// The restore after `event`.
    pub open spec fn next(self, event: Event<Seq<u8>>) -> RestoreState {
        match self.phase {
            RestorePhase::Command { at } => self.written(
                event,
                Activity::Send(self.commands()[at as int].1),
                RestorePhase::CommandReply { at },
            ),
            RestorePhase::CommandReply { at } => {
                let stage = self.commands()[at as int].1;
                match event {
                    Event::Received(bytes) => self.reply(bytes[0], stage, self.after_command(at)),
                    _ => self.failed(Failure::Io(Activity::ReadReply(stage))),
                }
            },
            RestorePhase::Block => self.written(
                event,
                Activity::WriteBlock { offset: self.offset },
                RestorePhase::CrcRequest,
            ),
            RestorePhase::CrcRequest => match event {
                Event::Received(bytes) => if bytes[0] == CRC_REQUEST {
                    self.at(RestorePhase::Crc)
                } else {
                    self.failed(Failure::ExpectedCrcRequest { reply: bytes[0] })
                },
                _ => self.failed(Failure::Io(Activity::ExchangeCrc)),
            },
            RestorePhase::Crc => self.written(event, Activity::ExchangeCrc, RestorePhase::Verdict),
            RestorePhase::Verdict => match event {
                Event::Received(bytes) => self.judged(bytes[0]),
                _ => self.failed(Failure::Io(Activity::ExchangeCrc)),
            },
            RestorePhase::Completion => {
                let stage = Self::transfer(self.target);
                match event {
                    Event::Received(bytes) => self.reply(bytes[0], stage, RestorePhase::Finished),
                    _ => self.failed(Failure::Io(Activity::ReadReply(stage))),
                }
            },
            RestorePhase::Finished => self,
            RestorePhase::Failed(_) => self,
        }
    }

    /// What the user is told as the restore begins.
    pub open spec fn opening(self) -> Notice {
        match self.target {
            Target::Project { index } => Notice::LoadingProject {
                number: (index + 1) as u8,
                version: self.version,
                size: self.data_size() as usize,
            },
            Target::Settings => Notice::LoadingSettings {
                version: self.version,
                size: self.data_size() as usize,
            },
        }
    }

    /// What the user is told when the restore goes from here to `next`.
    pub open spec fn notice(self, next: RestoreState) -> Option<Notice> {
        if next.phase is Failed {
            None
        } else {
            match self.phase {
                RestorePhase::Verdict => if next.offset > self.offset {
                    Some(Notice::Wrote { done: next.offset, total: self.stream.len() as usize })
                } else {
                    Some(Notice::Resending { offset: next.offset, retry: next.retries })
                },
                RestorePhase::Completion => if next.phase is Finished {
                    match self.target {
                        Target::Project { index } => Some(
                            Notice::RestoredProject {
                                number: (index + 1) as u8,
                                size: self.data_size() as usize,
                            },
                        ),
                        Target::Settings => Some(
                            Notice::RestoredSettings {
                                version: self.version,
                                size: self.data_size() as usize,
                            },
                        ),
                    }
                } else {
                    None
                },
                _ => None,
            }
        }
    }

    /// What holds of every restore on its way.
    pub open spec fn valid(self) -> bool {
        &&& self.target matches Target::Project { index } ==> {
            &&& index <= MAX_PROJECT_INDEX
            &&& !self.too_large()
        }
        &&& self.target is Settings ==> 1 <= self.stream.len() <= i32::MAX + 1
        &&& self.line.len() <= MAX_LINE
        &&& self.offset <= self.stream.len()
        &&& match self.phase {
            RestorePhase::Command { at } | RestorePhase::CommandReply { at } => {
                &&& at < self.commands().len()
                &&& self.offset == 0
                &&& self.retries == 0
            },
            RestorePhase::Block
            | RestorePhase::CrcRequest
            | RestorePhase::Crc
            | RestorePhase::Verdict => {
                &&& !self.too_large()
                &&& self.offset < self.stream.len()
                &&& self.retries <= MAX_BLOCK_RETRIES
            },
            RestorePhase::Completion | RestorePhase::Finished => {
                &&& !self.too_large()
                &&& self.offset == self.stream.len()
            },
            RestorePhase::Failed(_) => true,
        }
    }
}

impl View for RestorePhase<Vec<u8>> {
    type V = RestorePhase<Seq<u8>>;

    open spec fn view(&self) -> RestorePhase<Seq<u8>> {
        match *self {
            RestorePhase::Command { at } => RestorePhase::Command { at },
            RestorePhase::CommandReply { at } => RestorePhase::CommandReply { at },
            RestorePhase::Block => RestorePhase::Block,
            RestorePhase::CrcRequest => RestorePhase::CrcRequest,
            RestorePhase::Crc => RestorePhase::Crc,
            RestorePhase::Verdict => RestorePhase::Verdict,
            RestorePhase::Completion => RestorePhase::Completion,
            RestorePhase::Finished => RestorePhase::Finished,
            RestorePhase::Failed(failure) => RestorePhase::Failed(failure@),
        }
    }
}

/// A restore on its way.
#[derive(Debug)]
pub struct Restore {
    target: Target,
    version: u8,
    phase: RestorePhase<Vec<u8>>,
    line: Vec<u8>,
    stream: Vec<u8>,
    offset: usize,
    retries: usize,
}

impl View for Restore {
    type V = RestoreState;

    closed spec fn view(&self) -> RestoreState {
        RestoreState {
            target: self.target,
            version: self.version,
            phase: self.phase@,
            line: self.line@,
            stream: self.stream@,
            offset: self.offset,
            retries: self.retries,
        }
    }
}

impl Restore {
    /// Begins a restore of what a file holds.
    pub fn start(target: Target, version: u8, data: &[u8]) -> (result: (Restore, Step))
        requires
            target matches Target::Project { index } ==> index <= MAX_PROJECT_INDEX,
            data@.len() <= i32::MAX,
        ensures
            result.0@ == RestoreState::start(target, version, data@),
            result.0@.valid(),
            result.1.notice == Some(result.0@.opening()),
            result.1.action@ == result.0@.request(),
    {
        let mut stream: Vec<u8> = Vec::new();
        let size: usize = data.len();
        let notice = match target {
            Target::Project { index } => Notice::LoadingProject {
                number: index + 1,
                version,
                size,
            },
            Target::Settings => {
                stream.push(version);
                Notice::LoadingSettings { version, size }
            },
        };
        stream.extend_from_slice(data);
        let restore = Restore {
            target,
            version,
            phase: RestorePhase::Command { at: 0 },
            line: Vec::new(),
            stream,
            offset: 0,
            retries: 0,
        };
        assert(restore@.stream == RestoreState::start(target, version, data@).stream);
        let action = restore.request();
        (restore, Step { notice: Some(notice), action })
    }

    /// Whether the stream is too long for the size that is sent ahead of it.
    fn too_large(&self) -> (result: bool)
        ensures
            result == self@.too_large(),
    {
        self.stream.len() > 0x7fff_ffff
    }

    /// The command that is sent as number `at`, with the step that its reply
    /// acknowledges.
    fn command(&self, at: usize) -> (result: (Vec<u8>, Stage))
        requires
            self@.valid(),
            at < self@.commands().len(),
        ensures
            result.0@ == self@.commands()[at as int].0,
            result.1 == self@.commands()[at as int].1,
    {
        match self.target {
            Target::Project { index } => if at == 0 {
                (one_byte(RESTORE_PROJECT), Stage::RestoreProjectCommand)
            } else if at == 1 {
                (one_byte(self.version), Stage::ProjectVersion)
            } else if at == 2 {
                (u32_to_le_bytes(self.stream.len() as u32), Stage::ProjectSize)
            } else {
                (one_byte(index), Stage::ProjectIndex)
            },
            Target::Settings => if at == 0 {
                (one_byte(RESTORE_SETTINGS), Stage::RestoreSettingsCommand)
            } else {
                (u32_to_le_bytes(self.stream.len() as u32), Stage::SettingsSize)
            },
        }
    }

    /// How many commands are sent before the transfer.
    fn command_count(&self) -> (result: usize)
        ensures
            result == self@.commands().len(),
    {
        match self.target {
            Target::Project { .. } => 4,
            Target::Settings => if self.too_large() {
                1
            } else {
                2
            },
        }
    }

    /// Where the block at the offset ends.
    fn block_end(&self) -> (result: usize)
        requires
            self@.offset <= self@.stream.len(),
        ensures
            result == self@.block_end(),
    {
        if self.stream.len() - self.offset > BLOCK_SIZE {
            self.offset + BLOCK_SIZE
        } else {
            self.stream.len()
        }
    }

    /// The block at the offset.
    fn block(&self) -> (result: &[u8])
        requires
            self@.offset <= self@.stream.len(),
        ensures
            result@ == self@.block(),
    {
        let end: usize = self.block_end();
        &self.stream.as_slice()[self.offset..end]
    }

    /// How many bytes of data the file has.
    fn data_size(&self) -> (result: usize)
        requires
            self@.valid(),
        ensures
            result == self@.data_size(),
    {
        match self.target {
            Target::Project { .. } => self.stream.len(),
            Target::Settings => self.stream.len() - 1,
        }
    }

    /// The action that the restore waits for.
    pub fn request(&self) -> (action: Action<Vec<u8>>)
        requires
            self@.valid(),
        ensures
            action@ == self@.request(),
    {
        match &self.phase {
            RestorePhase::Command { at } => Action::Write(self.command(*at).0),
            RestorePhase::CommandReply { .. } => Action::Read(1),
            RestorePhase::Block => Action::Write(copy_of(self.block())),
            RestorePhase::CrcRequest => Action::Read(1),
            RestorePhase::Crc => Action::Write(u32_to_le_bytes(crc32(self.block()))),
            RestorePhase::Verdict => Action::Read(1),
            RestorePhase::Completion => Action::Read(1),
            RestorePhase::Finished => Action::Finish,
            RestorePhase::Failed(failure) => Action::Fail(failure.duplicate()),
        }
    }

    /// Goes on after an action with what came of it: says what to tell the user
    /// and what to do next.
    pub fn advance(&mut self, event: Event<Vec<u8>>) -> (step: Step)
        requires
            old(self)@.valid(),
            can_follow(old(self)@.request(), event@),
        ensures
            final(self)@ == old(self)@.next(event@),
            final(self)@.valid(),
            step.notice == old(self)@.notice(final(self)@),
            step.action@ == final(self)@.request(),
    {
        let notice: Option<Notice> = match self.phase {
            RestorePhase::Command { at } => {
                let activity = Activity::Send(self.command(at).1);
                self.after_write(event, activity, RestorePhase::CommandReply { at });
                None
            },
            RestorePhase::CommandReply { at } => {
                let stage = self.command(at).1;
                let acknowledged: RestorePhase<Vec<u8>> = if at + 1 < self.command_count() {
                    RestorePhase::Command { at: at + 1 }
                } else if self.too_large() {
                    RestorePhase::Failed(Failure::SettingsTooLarge { size: self.stream.len() })
                } else {
                    self.onward()
                };
                self.after_reply(event, stage, acknowledged);
                None
            },
            RestorePhase::Block => {
                let activity = Activity::WriteBlock { offset: self.offset };
                self.after_write(event, activity, RestorePhase::CrcRequest);
                None
            },
            RestorePhase::CrcRequest => {
                self.phase = match event {
                    Event::Received(bytes) => if bytes[0] == CRC_REQUEST {
                        RestorePhase::Crc
                    } else {
                        RestorePhase::Failed(Failure::ExpectedCrcRequest { reply: bytes[0] })
                    },
                    _ => RestorePhase::Failed(Failure::Io(Activity::ExchangeCrc)),
                };
                None
            },
            RestorePhase::Crc => {
                self.after_write(event, Activity::ExchangeCrc, RestorePhase::Verdict);
                None
            },
            RestorePhase::Verdict => self.after_verdict(event),
            RestorePhase::Completion => {
                let stage = match self.target {
                    Target::Project { .. } => Stage::ProjectTransfer,
                    Target::Settings => Stage::SettingsTransfer,
                };
                self.after_reply(event, stage, RestorePhase::Finished);
                match self.phase {
                    RestorePhase::Finished => {
                        let size: usize = self.data_size();
                        Some(
                            match self.target {
                                Target::Project { index } => Notice::RestoredProject {
                                    number: index + 1,
                                    size,
                                },
                                Target::Settings => Notice::RestoredSettings {
                                    version: self.version,
                                    size,
                                },
                            },
                        )
                    },
                    _ => None,
                }
            },
            RestorePhase::Finished => None,
            RestorePhase::Failed(_) => None,
        };
        let action = self.request();
        Step { notice, action }
    }

    /// Goes to `done` if a write went well.
    fn after_write(
        &mut self,
        event: Event<Vec<u8>>,
        activity: Activity,
        done: RestorePhase<Vec<u8>>,
    )
        ensures
            final(self)@ == old(self)@.written(event@, activity, done@),
    {
        self.phase = match event {
            Event::Done => done,
            Event::FlushFailed => RestorePhase::Failed(Failure::Io(Activity::Flush)),
            _ => RestorePhase::Failed(Failure::Io(activity)),
        };
    }

    /// Takes one more byte of a reply; goes to `acknowledged` once the reply is
    /// an acknowledgement.
    fn after_reply(
        &mut self,
        event: Event<Vec<u8>>,
        stage: Stage,
        acknowledged: RestorePhase<Vec<u8>>,
    )
        requires
            old(self)@.line.len() <= MAX_LINE,
            can_follow(Action::Read(1), event@),
        ensures
            final(self)@ == match event@ {
                Event::Received(bytes) => old(self)@.reply(bytes[0], stage, acknowledged@),
                _ => old(self)@.failed(Failure::Io(Activity::ReadReply(stage))),
            },
    {
        match event {
            Event::Received(bytes) => match read_line(&mut self.line, bytes[0]) {
                LineStatus::Unfinished => {},
                LineStatus::TooLong => {
                    self.line.clear();
                    self.phase = RestorePhase::Failed(
                        Failure::LineTooLong(Activity::ReadReply(stage)),
                    );
                },
                LineStatus::Complete => if is_ack(&self.line) {
                    self.line.clear();
                    self.phase = acknowledged;
                } else {
                    let mut response: Vec<u8> = Vec::new();
                    response.append(&mut self.line);
                    self.phase = RestorePhase::Failed(Failure::NotAcknowledged { stage, response });
                },
            },
            _ => {
                self.phase = RestorePhase::Failed(Failure::Io(Activity::ReadReply(stage)));
            },
        }
    }

    /// The phase for the block at the offset, or for the end of the transfer.
    fn onward(&self) -> (phase: RestorePhase<Vec<u8>>)
        ensures
            phase@ == self@.onward(),
    {
        if self.offset < self.stream.len() {
            RestorePhase::Block
        } else {
            RestorePhase::Completion
        }
    }

    /// Goes on to the next block, or sends the same once more, or gives up.
    fn after_verdict(&mut self, event: Event<Vec<u8>>) -> (notice: Option<Notice>)
        requires
            old(self)@.valid(),
            old(self)@.phase is Verdict,
            can_follow(Action::Read(1), event@),
        ensures
            final(self)@ == old(self)@.next(event@),
            notice == old(self)@.notice(final(self)@),
    {
        match event {
            Event::Received(bytes) => {
                let verdict: u8 = bytes[0];
                if verdict == CRC_OK {
                    self.offset = self.block_end();
                    self.retries = 0;
                    self.phase = self.onward();
                    Some(Notice::Wrote { done: self.offset, total: self.stream.len() })
                } else if verdict == CRC_WRONG {
                    self.retries = self.retries + 1;
                    if self.retries <= MAX_BLOCK_RETRIES {
                        self.phase = RestorePhase::Block;
                        Some(Notice::Resending { offset: self.offset, retry: self.retries })
                    } else {
                        self.phase = RestorePhase::Failed(
                            Failure::BlockRejected { offset: self.offset },
                        );
                        None
                    }
                } else {
                    self.phase = RestorePhase::Failed(
                        Failure::ExpectedCrcResult { reply: verdict },
                    );
                    None
                }
            },
            _ => {
                self.phase = RestorePhase::Failed(Failure::Io(Activity::ExchangeCrc));
                None
            },
        }
    }
}

} // verus!
