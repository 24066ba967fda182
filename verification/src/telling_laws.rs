//! What the user is told: how a transfer goes, and why it fails.

use vstd::prelude::*;

#[allow(unused_imports)]
use crate::backup::{BackupPhase, BackupState};
#[allow(unused_imports)]
use crate::crc::crc32_of;
#[allow(unused_imports)]
use crate::device::{acknowledgement, four_bytes, lemma_four_bytes, number_of, piece};
#[allow(unused_imports)]
use crate::protocol::{
    can_follow, Action, Activity, Event, Failure, Notice, Stage, Target, ACK,
};
#[allow(unused_imports)]
use crate::restore::{RestorePhase, RestoreState};

verus! {

/// The step that a backup takes with command number `at`.
pub open spec fn saving_stage(target: Target, at: int) -> Stage {
    match target {
        Target::Project { .. } => if at == 0 {
            Stage::SingleProjectCommand
        } else {
            Stage::ProjectIndex
        },
        Target::Settings => Stage::ReadSettingsCommand,
    }
}

/// The step that a restore takes with command number `at`.
pub open spec fn loading_stage(target: Target, at: int) -> Stage {
    match target {
        Target::Project { .. } => if at == 0 {
            Stage::RestoreProjectCommand
        } else if at == 1 {
            Stage::ProjectVersion
        } else if at == 2 {
            Stage::ProjectSize
        } else {
            Stage::ProjectIndex
        },
        Target::Settings => if at == 0 {
            Stage::RestoreSettingsCommand
        } else {
            Stage::SettingsSize
        },
    }
}

/// The step that ends a transfer.
pub open spec fn last_stage(target: Target) -> Stage {
    match target {
        Target::Project { .. } => Stage::ProjectTransfer,
        Target::Settings => Stage::SettingsTransfer,
    }
}

/// A transfer has failed.
pub open spec fn fails(failure: Failure<Seq<u8>>) -> Action<Seq<u8>> {
    Action::Fail(failure)
}

/// A command that cannot be sent fails the backup, which names the step. After
/// one that was sent, single bytes are read until a newline.
pub proof fn law_sending_a_saving_command(state: BackupState, event: Event<Seq<u8>>)
    requires
        state.valid(),
        state.phase is Command,
        can_follow(state.request(), event),
    ensures
        ({
            let stage = saving_stage(state.target, state.phase->Command_at as int);
            state.next(event).request() == match event {
                Event::Done => Action::Read(1),
                Event::FlushFailed => fails(Failure::Io(Activity::Flush)),
                _ => fails(Failure::Io(Activity::Send(stage))),
            }
        }),
{
}

/// A reply that is being read goes on until a newline, but never beyond 256
/// bytes. Only `ACK` leads on; anything else fails the backup, which names the
/// step and gives the whole reply.
pub proof fn law_reading_a_saving_reply(state: BackupState, event: Event<Seq<u8>>)
    requires
        state.valid(),
        state.phase is CommandReply || state.phase is Completion,
        can_follow(state.request(), event),
    ensures
        ({
            let next = state.next(event);
            let stage = match state.phase {
                BackupPhase::CommandReply { at } => saving_stage(state.target, at as int),
                _ => last_stage(state.target),
            };
            let line = state.line.push(event->Received_0[0]);
            &&& state.request() == Action::<Seq<u8>>::Read(1)
            &&& match event {
                Event::Received(bytes) => if line == acknowledgement() {
                    &&& next.line == Seq::<u8>::empty()
                    &&& state.phase is Completion ==> next.request() is WriteTemporary
                    &&& state.phase is CommandReply ==> next.request() is Write || next.request()
                        is Read
                } else if bytes[0] == 0x0a {
                    next.request() == fails(Failure::NotAcknowledged { stage, response: line })
                } else if line.len() > 256 {
                    next.request() == fails(Failure::LineTooLong(Activity::ReadReply(stage)))
                } else {
                    next.request() == state.request() && next.line == line
                },
                _ => next.request() == fails(Failure::Io(Activity::ReadReply(stage))),
            }
        }),
{
    assert(ACK@ =~= acknowledgement());
    if event is Received {
        let line = state.line.push(event->Received_0[0]);
        assert(line.last() == event->Received_0[0]);
        assert(line == acknowledgement() ==> line.last() == acknowledgement()[3]);
    }
}

/// A project is read on from version ten; an older one is refused, and the
/// version is named.
pub proof fn law_reading_a_version(state: BackupState, event: Event<Seq<u8>>)
    requires
        state.valid(),
        state.phase is Version,
        can_follow(state.request(), event),
    ensures
        ({
            let next = state.next(event);
            let version = event->Received_0[0];
            match event {
                Event::Received(_) => if version >= 10 {
                    next.request() == Action::<Seq<u8>>::Read(4) && next.version == Some(version)
                } else {
                    next.request() == fails(Failure::UnsupportedProjectVersion { version })
                },
                _ => next.request() == fails(Failure::Io(Activity::ReadProjectVersion)),
            }
        }),
{
}

/// The four bytes of a size, lowest first, are taken as a signed number. A
/// negative one is refused, for settings also zero, and one above 8388608. Else
/// the user is told the size, with the number of the project from one on. Before
/// a block, 20 milliseconds go by; where there is none, a reply is read.
pub proof fn law_reading_a_size(state: BackupState, event: Event<Seq<u8>>)
    requires
        state.valid(),
        state.phase is Size,
        can_follow(state.request(), event),
    ensures
        ({
            let next = state.next(event);
            let size = number_of(event->Received_0);
            let notice = state.notice(next);
            match (event, state.target) {
                (Event::Received(_), Target::Project { index }) => if size >= 0x8000_0000 {
                    next.request() == fails(
                        Failure::NegativeProjectSize { reported: (size - 0x1_0000_0000) as i32 },
                    ) && notice is None
                } else if size > 8388608 {
                    next.request() == fails(
                        Failure::ImplausibleSize { target: state.target, size: size as usize },
                    ) && notice is None
                } else {
                    &&& next.size == size
                    &&& notice == Some(
                        Notice::ReadingProject {
                            number: (index + 1) as u8,
                            version: state.version->0,
                            size: size as usize,
                        },
                    )
                    &&& next.request() == if size == 0 {
                        Action::<Seq<u8>>::Read(1)
                    } else {
                        Action::Pause(20)
                    }
                },
                (Event::Received(_), Target::Settings) => if size >= 0x8000_0000 {
                    next.request() == fails(
                        Failure::InvalidSettingsSize { reported: (size - 0x1_0000_0000) as i32 },
                    ) && notice is None
                } else if size == 0 {
                    next.request() == fails(Failure::InvalidSettingsSize { reported: 0 })
                        && notice is None
                } else if size > 8388608 {
                    next.request() == fails(
                        Failure::ImplausibleSize { target: state.target, size: size as usize },
                    ) && notice is None
                } else {
                    &&& next.size == size
                    &&& notice == Some(Notice::ReadingSettings { size: size as usize })
                    &&& next.request() == Action::<Seq<u8>>::Pause(20)
                },
                (_, Target::Project { .. }) => next.request() == fails(
                    Failure::Io(Activity::ReadProjectSize),
                ),
                (_, Target::Settings) => next.request() == fails(
                    Failure::Io(Activity::ReadSettingsSize),
                ),
            }
        }),
{
}

/// A block has 96 bytes, or all that are left. As long as bytes are missing, no
/// more than these are asked for; what comes is added. A line that ends, falls
/// silent or fails fails the backup, which tells where the block begins, how much
/// of it came and how much there was to come. Once the block is whole, its CRC
/// is asked for. The first block of settings is judged by its first byte when it
/// comes for the first time: nine means that there are no CRCs, less cannot be
/// read.
pub proof fn law_reading_a_block(state: BackupState, event: Event<Seq<u8>>)
    requires
        state.valid(),
        state.phase is Block,
        can_follow(state.request(), event),
    ensures
        ({
            let next = state.next(event);
            let offset = state.data.len() as usize;
            let received = state.block.len() as usize;
            let whole = if state.size - state.data.len() < 96 {
                state.size - state.data.len()
            } else {
                96
            };
            let expected = whole as usize;
            let block = state.block + event->Received_0;
            let first = state.target is Settings && state.data.len() == 0 && state.retries == 0;
            &&& state.request() == Action::<Seq<u8>>::ReadSome((whole - received) as usize)
            &&& match event {
                Event::Received(_) => {
                    &&& next.block == block
                    &&& block.len() < whole ==> next.request() is ReadSome
                    &&& block.len() == whole && first && block[0] == 9 ==> next.request()
                        == Action::Write(seq![0x61u8])
                    &&& block.len() == whole && first && block[0] < 9 ==> next.request() == fails(
                        Failure::UnsupportedSettingsVersion { version: block[0] },
                    )
                    &&& block.len() == whole && first && block[0] > 9 ==> next.request()
                        == Action::Write(seq![0x63u8])
                    &&& block.len() == whole && state.target is Project ==> next.request()
                        == Action::Write(seq![0x63u8])
                    &&& block.len() == whole && !first && state.target is Settings
                        ==> next.request() == Action::Write(
                        seq![if state.unchecked { 0x61u8 } else { 0x63u8 }],
                    )
                },
                Event::Ended => next.request() == fails(
                    Failure::EndOfBlock { offset, received, expected },
                ),
                Event::TimedOut => next.request() == fails(
                    Failure::BlockTimedOut { offset, received, expected },
                ),
                _ => next.request() == fails(
                    Failure::Io(Activity::ReadBlock { offset, received, expected }),
                ),
            }
        }),
{
    assert(seq![0x61u8][0] == 0x61);
}

/// A word that cannot be sent fails the backup. When a block was accepted, the
/// user is told how much there is, and the next block, after 20 milliseconds, or
/// the reply at the end is read. When it was rejected, the user is told both
/// CRCs, and the block is read again from its start; after five times the backup
/// fails, which tells where the block begins.
pub proof fn law_answering_a_block(state: BackupState, event: Event<Seq<u8>>)
    requires
        state.valid(),
        state.phase is Acceptance || state.phase is UncheckedAcceptance
            || state.phase is Rejection || state.phase is CrcRequest || state.phase is Crc,
        can_follow(state.request(), event),
    ensures
        ({
            let next = state.next(event);
            let notice = state.notice(next);
            let done = (state.data.len() + state.block.len()) as usize;
            let offset = state.data.len() as usize;
            match (state.phase, event) {
                (_, Event::FlushFailed) => next.request() == fails(Failure::Io(Activity::Flush))
                    && notice is None,
                (_, Event::Failed) => next.request() == fails(Failure::Io(Activity::ExchangeCrc))
                    && notice is None,
                (BackupPhase::Rejection { local, remote }, _) => if state.retries < 5 {
                    &&& notice == Some(Notice::CrcMismatch { offset, local, remote })
                    &&& next.request() is ReadSome
                    &&& next.block == Seq::<u8>::empty()
                    &&& next.data == state.data
                    &&& next.retries == state.retries + 1
                } else {
                    next.request() == fails(Failure::BlockRejected { offset }) && notice is None
                },
                (BackupPhase::CrcRequest, _) => next.request() == Action::<Seq<u8>>::Read(4)
                    && notice is None,
                (BackupPhase::Crc, Event::Received(heard)) => notice is None && (number_of(heard)
                    != crc32_of(state.block) ==> next.phase == (BackupPhase::<
                    Seq<u8>,
                >::Rejection { local: crc32_of(state.block), remote: number_of(heard) as u32 })),
                (BackupPhase::Crc, _) => false,
                _ => {
                    &&& notice == Some(Notice::Read { done, total: state.size })
                    &&& next.data == state.data + state.block
                    &&& next.retries == 0
                    &&& next.request() == if done < state.size {
                        Action::<Seq<u8>>::Pause(20)
                    } else {
                        Action::Read(1)
                    }
                },
            }
        }),
{
}

/// The backup ends with a file that is written aside and then renamed, and the
/// user is told what was saved: the number of the project from one on, or the
/// version of the settings, and the size and the CRC of what the file holds.
pub proof fn law_ending_a_backup(state: BackupState, event: Event<Seq<u8>>)
    requires
        state.valid(),
        state.phase is Temporary || state.phase is Rename || state.phase is Settle,
        can_follow(state.request(), event),
    ensures
        ({
            let next = state.next(event);
            let notice = state.notice(next);
            match (state.phase, event) {
                (BackupPhase::Settle, _) => next.request() is ReadSome && notice is None,
                (BackupPhase::Temporary, Event::Done) => next.request() is RenameTemporary
                    && notice is None,
                (BackupPhase::Temporary, _) => next.request() == fails(
                    Failure::Io(Activity::WriteTemporary),
                ) && notice is None,
                (_, Event::Done) => {
                    &&& next.request() is Finish
                    &&& match state.target {
                        Target::Project { index } => notice == Some(
                            Notice::SavedProject {
                                number: (index + 1) as u8,
                                size: state.data.len() as usize,
                                crc: crc32_of(state.data),
                            },
                        ),
                        Target::Settings => notice == Some(
                            Notice::SavedSettings {
                                version: state.data[0],
                                size: (state.data.len() - 1) as usize,
                                crc: crc32_of(state.data.skip(1)),
                            },
                        ),
                    }
                },
                _ => next.request() == fails(Failure::Io(Activity::RenameTemporary))
                    && notice is None,
            }
        }),
{
}

/// A restore begins by telling what is loaded to where: the number of the project
/// from one on, the version and how much data there is.
pub proof fn law_opening_a_restore(target: Target, version: u8, data: Seq<u8>)
    requires
        data.len() <= 0x7fff_ffff,
        target matches Target::Project { index } ==> index < 16,
    ensures
        RestoreState::start(target, version, data).opening() == match target {
            Target::Project { index } => Notice::LoadingProject {
                number: (index + 1) as u8,
                version,
                size: data.len() as usize,
            },
            Target::Settings => Notice::LoadingSettings { version, size: data.len() as usize },
        },
{
}

/// A command that cannot be sent fails the restore, which names the step. After
/// one that was sent, single bytes are read until a newline.
pub proof fn law_sending_a_loading_command(state: RestoreState, event: Event<Seq<u8>>)
    requires
        state.valid(),
        state.phase is Command,
        can_follow(state.request(), event),
    ensures
        ({
            let stage = loading_stage(state.target, state.phase->Command_at as int);
            &&& state.notice(state.next(event)) is None
            &&& state.next(event).request() == match event {
                Event::Done => Action::Read(1),
                Event::FlushFailed => fails(Failure::Io(Activity::Flush)),
                _ => fails(Failure::Io(Activity::Send(stage))),
            }
        }),
{
}

/// A reply that is being read goes on until a newline, but never beyond 256
/// bytes. Only `ACK` leads on; anything else fails the restore, which names the
/// step and gives the whole reply. At the end the user is told what was restored.
/// Settings of a size that four bytes cannot say are refused after the first.
pub proof fn law_reading_a_loading_reply(state: RestoreState, event: Event<Seq<u8>>)
    requires
        state.valid(),
        state.phase is CommandReply || state.phase is Completion,
        can_follow(state.request(), event),
    ensures
        ({
            let next = state.next(event);
            let notice = state.notice(next);
            let stage = match state.phase {
                RestorePhase::CommandReply { at } => loading_stage(state.target, at as int),
                _ => last_stage(state.target),
            };
            let line = state.line.push(event->Received_0[0]);
            &&& state.request() == Action::<Seq<u8>>::Read(1)
            &&& match event {
                Event::Received(bytes) => if line == acknowledgement() {
                    &&& next.line == Seq::<u8>::empty()
                    &&& state.phase is Completion ==> next.request() is Finish && notice
                        == match state.target {
                        Target::Project { index } => Some(
                            Notice::RestoredProject {
                                number: (index + 1) as u8,
                                size: state.stream.len() as usize,
                            },
                        ),
                        Target::Settings => Some(
                            Notice::RestoredSettings {
                                version: state.version,
                                size: (state.stream.len() - 1) as usize,
                            },
                        ),
                    }
                    &&& state.phase is CommandReply ==> notice is None
                    &&& state.phase is CommandReply && state.stream.len() <= 0x7fff_ffff
                        ==> next.request() is Write || next.request() is Read
                    &&& state.phase is CommandReply && state.stream.len() > 0x7fff_ffff
                        ==> next.request() == fails(
                        Failure::SettingsTooLarge { size: state.stream.len() as usize },
                    )
                } else if bytes[0] == 0x0a {
                    next.request() == fails(Failure::NotAcknowledged { stage, response: line })
                        && notice is None
                } else if line.len() > 256 {
                    next.request() == fails(Failure::LineTooLong(Activity::ReadReply(stage)))
                        && notice is None
                } else {
                    next.request() == state.request() && next.line == line && notice is None
                },
                _ => next.request() == fails(Failure::Io(Activity::ReadReply(stage)))
                    && notice is None,
            }
        }),
{
    assert(ACK@ =~= acknowledgement());
    if event is Received {
        let line = state.line.push(event->Received_0[0]);
        assert(line.last() == event->Received_0[0]);
        assert(line == acknowledgement() ==> line.last() == acknowledgement()[3]);
    }
}

/// A block that was sent waits for `c`, its CRC for `o` or `w`; any other byte
/// fails the restore, which gives the byte. When a block was accepted, the user
/// is told how much is written; when it is sent again, where it begins and for
/// the how manieth time. After five times the restore fails, which tells where
/// the block begins.
pub proof fn law_exchanging_a_block(state: RestoreState, event: Event<Seq<u8>>)
    requires
        state.valid(),
        state.phase is Block || state.phase is CrcRequest || state.phase is Crc || state.phase
            is Verdict,
        can_follow(state.request(), event),
    ensures
        ({
            let next = state.next(event);
            let notice = state.notice(next);
            let heard = event->Received_0[0];
            let block = piece(state.stream, state.offset as int);
            match (state.phase, event) {
                (_, Event::FlushFailed) => next.request() == fails(Failure::Io(Activity::Flush))
                    && notice is None,
                (RestorePhase::Block, Event::Failed) => next.request() == fails(
                    Failure::Io(Activity::WriteBlock { offset: state.offset }),
                ) && notice is None,
                (_, Event::Failed) => next.request() == fails(Failure::Io(Activity::ExchangeCrc))
                    && notice is None,
                (RestorePhase::Block, _) => next.request() == Action::<Seq<u8>>::Read(1)
                    && next.phase is CrcRequest && notice is None,
                (RestorePhase::CrcRequest, _) => notice is None && if heard == 0x63 {
                    next.request() is Write && next.phase is Crc
                } else {
                    next.request() == fails(Failure::ExpectedCrcRequest { reply: heard })
                },
                (RestorePhase::Crc, _) => next.request() == Action::<Seq<u8>>::Read(1)
                    && next.phase is Verdict && notice is None,
                _ => if heard == 0x6f {
                    &&& next.offset == state.offset + block.len()
                    &&& next.retries == 0
                    &&& notice == Some(
                        Notice::Wrote { done: next.offset, total: state.stream.len() as usize },
                    )
                } else if heard == 0x77 && state.retries < 5 {
                    &&& next.offset == state.offset
                    &&& notice == Some(
                        Notice::Resending {
                            offset: state.offset,
                            retry: (state.retries + 1) as usize,
                        },
                    )
                } else if heard == 0x77 {
                    next.request() == fails(Failure::BlockRejected { offset: state.offset })
                        && notice is None
                } else {
                    next.request() == fails(Failure::ExpectedCrcResult { reply: heard })
                        && notice is None
                },
            }
        }),
{
}

/// While commands are sent, replies are read, and a version or a block is read,
/// a backup tells the user nothing.
pub proof fn law_quiet_parts_of_a_backup(state: BackupState, event: Event<Seq<u8>>)
    requires
        state.valid(),
        state.phase is Command || state.phase is CommandReply || state.phase is Version
            || state.phase is Block || state.phase is Completion,
        can_follow(state.request(), event),
    ensures
        state.notice(state.next(event)) is None,
{
}

/// The file that a backup writes, whatever happened on the way: the version, the
/// size of the data in four bytes, the data, and the CRC of the data in four
/// bytes, lowest byte first. Of the settings, the first byte is the version and
/// the rest is the data.
pub proof fn law_the_file_of_a_backup(state: BackupState)
    requires
        state.valid(),
        state.phase is Temporary,
    ensures
        ({
            let version = match state.target {
                Target::Project { .. } => state.version->0,
                Target::Settings => state.data[0],
            };
            let kept = match state.target {
                Target::Project { .. } => state.data,
                Target::Settings => state.data.skip(1),
            };
            state.request() == Action::WriteTemporary(
                seq![version] + four_bytes(kept.len() as int) + kept + four_bytes(
                    crc32_of(kept) as int,
                ),
            )
        }),
{
    let kept = state.payload();
    lemma_four_bytes(kept.len() as u32);
    lemma_four_bytes(crc32_of(kept));
}

/// What a step of a backup leaves as it is. The target never changes. A version
/// that is known stays, and comes only with the version of a project or with the
/// first block of settings, as its first byte. A size comes only when a size is
/// read, and data only when a block is accepted. Whether blocks come without CRCs
/// is settled with the first block. A reply is forgotten once it is complete.
pub proof fn law_what_a_backup_leaves_as_it_is(state: BackupState, event: Event<Seq<u8>>)
    requires
        state.valid(),
        can_follow(state.request(), event),
    ensures
        ({
            let next = state.next(event);
            let accepts = state.phase is Acceptance || state.phase is UncheckedAcceptance;
            &&& next.target == state.target
            &&& state.version is Some && !(state.phase is Version) ==> next.version == state.version
            &&& next.version != state.version ==> state.phase is Version || (accepts
                && state.target is Settings && state.data.len() == 0 && next.version == Some(
                state.block[0],
            ))
            &&& next.size != state.size ==> state.phase is Size
            &&& next.data != state.data ==> accepts
            &&& next.unchecked != state.unchecked ==> state.phase is Block && state.data.len() == 0
                && next.block[0] == 9 && next.unchecked
            &&& next.block != state.block ==> state.phase is Block || state.phase is Rejection
                || accepts
            &&& next.retries != state.retries ==> state.phase is Rejection || accepts
            &&& next.line != state.line ==> state.phase is CommandReply || state.phase
                is Completion
        }),
{
}

/// What a step of a restore leaves as it is: what is sent, to where and in which
/// version never changes, and how much of it is accepted only with a verdict.
pub proof fn law_what_a_restore_leaves_as_it_is(state: RestoreState, event: Event<Seq<u8>>)
    requires
        state.valid(),
        can_follow(state.request(), event),
    ensures
        ({
            let next = state.next(event);
            &&& next.target == state.target
            &&& next.version == state.version
            &&& next.stream == state.stream
            &&& next.offset != state.offset ==> state.phase is Verdict
            &&& next.retries != state.retries ==> state.phase is Verdict
            &&& next.line != state.line ==> state.phase is CommandReply || state.phase
                is Completion
        }),
{
}

/// Command by command: after the acknowledgement of one the next is sent, in
/// order, and after that of the last a version or a size is read.
pub proof fn law_saving_goes_from_command_to_command(state: BackupState)
    requires
        state.valid(),
        state.phase is CommandReply,
        state.line == acknowledgement().take(3),
    ensures
        ({
            let next = state.next(Event::Received(seq![0x0au8]));
            let at = state.phase->CommandReply_at;
            match state.target {
                Target::Project { index } => if at == 0 {
                    next.request() == Action::Write(seq![index])
                } else {
                    next.request() == Action::<Seq<u8>>::Read(1) && next.phase is Version
                },
                Target::Settings => next.request() == Action::<Seq<u8>>::Read(4),
            }
        }),
{
    assert(ACK@ =~= acknowledgement());
    assert(seq![0x0au8][0] == 0x0a);
    assert(acknowledgement().take(3).push(0x0au8) =~= acknowledgement());
}

} // verus!
