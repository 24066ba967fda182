//! What holds of every backup, from its first command to its file.

use vstd::prelude::*;

#[allow(unused_imports)]
use crate::backup::{law_step_keeps_valid, BackupPhase, BackupState};
#[allow(unused_imports)]
use crate::crc::{crc32_of, differ_only_from, law_damaged_burst_shows};
#[allow(unused_imports)]
use crate::files::{
    data_of, defect, file_of, law_saved_file_reads_back, FileError, OLDEST_RESTORABLE,
};
#[allow(unused_imports)]
use crate::little_endian::{law_read_after_write, u32_from_le, u32_le};
#[allow(unused_imports)]
use crate::naming::{law_temporary_is_another_file, temporary_of};
#[allow(unused_imports)]
use crate::protocol::{
    can_follow, Action, Event, Failure, Target, ACK, FIRST_CHECKED_VERSION, MAX_BLOCK_RETRIES,
    MAX_PROJECT_INDEX, MAX_PROJECT_SIZE, UNCHECKED_VERSION,
};

verus! {

/// Where a run of events leads from `start`.
pub open spec fn run(start: BackupState, events: Seq<Event<Seq<u8>>>) -> BackupState
    decreases events.len(),
{
    if events.len() == 0 {
        start
    } else {
        run(start, events.drop_last()).next(events.last())
    }
}

/// Each event of the run can come of the action that it answers.
pub open spec fn feasible(start: BackupState, events: Seq<Event<Seq<u8>>>) -> bool
    decreases events.len(),
{
    events.len() > 0 ==> {
        &&& feasible(start, events.drop_last())
        &&& can_follow(run(start, events.drop_last()).request(), events.last())
    }
}

/// A target that the instrument has.
pub open spec fn exists_on_instrument(target: Target) -> bool {
    target matches Target::Project { index } ==> index <= MAX_PROJECT_INDEX
}

/// An upper bound on the events that are still to come.
pub open spec fn events_left(state: BackupState) -> int {
    let rest = state.size - state.data.len();
    let commands = BackupState::commands(state.target).len();
    match state.phase {
        BackupPhase::Command { at } => 700 * MAX_PROJECT_SIZE + 402 + 300 * (commands - at),
        BackupPhase::CommandReply { at } => 700 * MAX_PROJECT_SIZE + 401 + 300 * (commands - at)
            - state.line.len(),
        BackupPhase::Version => 700 * MAX_PROJECT_SIZE + 402,
        BackupPhase::Size => 700 * MAX_PROJECT_SIZE + 401,
        BackupPhase::Settle => 700 * rest + 400,
        BackupPhase::Block => 700 * rest + 399 - 100 * state.retries - state.block.len(),
        BackupPhase::CrcRequest => 700 * rest + 399 - 100 * state.retries - state.block.len(),
        BackupPhase::Crc => 700 * rest + 398 - 100 * state.retries - state.block.len(),
        BackupPhase::Rejection { .. } | BackupPhase::Acceptance | BackupPhase::UncheckedAcceptance
        => 700 * rest + 397 - 100 * state.retries - state.block.len(),
        BackupPhase::Completion => 300 - state.line.len(),
        BackupPhase::Temporary => 2,
        BackupPhase::Rename => 1,
        BackupPhase::Finished => 0,
        BackupPhase::Failed(_) => 0,
    }
}

proof fn lemma_step_brings_the_end_closer(state: BackupState, event: Event<Seq<u8>>)
    requires
        state.valid(),
        can_follow(state.request(), event),
    ensures
        0 <= events_left(state.next(event)) < events_left(state),
{
    law_step_keeps_valid(state, event);
}

/// Whatever the line and the instrument do, the backup stays valid, it stays the
/// backup of what it was begun for, and it ends: it takes no more events than
/// the bound that can be told at its start. A link that keeps failing makes it
/// fail; it never goes on forever.
pub proof fn law_backup_stays_valid_and_ends(target: Target, events: Seq<Event<Seq<u8>>>)
    requires
        exists_on_instrument(target),
        feasible(BackupState::start(target), events),
    ensures
        run(BackupState::start(target), events).valid(),
        run(BackupState::start(target), events).target == target,
        events.len() + events_left(run(BackupState::start(target), events)) <= events_left(
            BackupState::start(target),
        ),
        events.len() <= events_left(BackupState::start(target)),
    decreases events.len(),
{
    if events.len() > 0 {
        law_backup_stays_valid_and_ends(target, events.drop_last());
        let before = run(BackupState::start(target), events.drop_last());
        law_step_keeps_valid(before, events.last());
        lemma_step_brings_the_end_closer(before, events.last());
    }
}

/// The data grows by accepted blocks only. Blocks go unchecked only where the
/// settings have the version without CRCs, and only at the first sending.
pub proof fn law_data_grows_by_accepted_blocks(state: BackupState, event: Event<Seq<u8>>)
    requires
        state.valid(),
        can_follow(state.request(), event),
    ensures
        state.next(event).data == state.data || {
            &&& state.phase is Acceptance || {
                &&& state.phase is UncheckedAcceptance
                &&& state.target is Settings
                &&& state.next(event).version == Some(UNCHECKED_VERSION)
                &&& state.retries == 0
            }
            &&& event is Done
            &&& state.next(event).data == state.data + state.block
        },
{
}

/// A block that was rejected leaves no trace and is read again, until that has
/// been done as often as it may be: then the backup fails.
pub proof fn law_rejected_block_is_read_again(state: BackupState)
    requires
        state.valid(),
        state.phase is Rejection,
    ensures
        ({
            let next = state.next(Event::Done);
            &&& next.block == Seq::<u8>::empty()
            &&& next.data == state.data
            &&& next.retries == state.retries + 1
            &&& state.retries < MAX_BLOCK_RETRIES ==> next.phase is Block
            &&& state.retries == MAX_BLOCK_RETRIES ==> next.phase == BackupPhase::Failed(
                Failure::<Seq<u8>>::BlockRejected { offset: state.data.len() as usize },
            )
        }),
{
}

/// A block is accepted only right after the instrument has sent the CRC that
/// the block has.
pub proof fn law_accepted_block_has_the_crc_sent(target: Target, events: Seq<Event<Seq<u8>>>)
    requires
        exists_on_instrument(target),
        feasible(BackupState::start(target), events),
        run(BackupState::start(target), events).phase is Acceptance,
    ensures
        events.len() > 0,
        run(BackupState::start(target), events.drop_last()).phase is Crc,
        events.last() is Received,
        u32_from_le(events.last()->Received_0) == crc32_of(
            run(BackupState::start(target), events).block,
        ),
{
    let start = BackupState::start(target);
    law_backup_stays_valid_and_ends(target, events.drop_last());
}

/// A block that is sent again counts only once it has the CRC that the
/// instrument has of it, whatever its first byte: as soon as it is whole, the
/// CRC is asked for.
pub proof fn law_block_sent_again_is_checked(state: BackupState, bytes: Seq<u8>)
    requires
        state.valid(),
        state.retries > 0,
        state.phase is Block,
        can_follow(state.request(), Event::Received(bytes)),
    ensures
        state.next(Event::Received(bytes)).phase is Block || state.next(
            Event::Received(bytes),
        ).phase is CrcRequest,
        state.block.len() + bytes.len() == state.block_size() ==> state.next(
            Event::Received(bytes),
        ).phase is CrcRequest,
{
}

/// A block that was damaged on its way, within four bytes in a row, is rejected.
pub proof fn law_damaged_block_is_rejected(state: BackupState, sent: Seq<u8>, place: int)
    requires
        state.valid(),
        state.phase is Crc,
        state.block != sent,
        differ_only_from(state.block, sent, place),
    ensures
        state.next(Event::Received(u32_le(crc32_of(sent)))) == state.at(
            BackupPhase::Rejection { local: crc32_of(state.block), remote: crc32_of(sent) },
        ),
{
    law_damaged_burst_shows(state.block, sent, place);
    law_read_after_write(crc32_of(sent));
}

/// The files of a directory, by name, after a run that was to save the file
/// `name`. Where the temporary file could not be written, `debris` is what was
/// left of it, if it was touched at all.
pub open spec fn disk_after(
    disk: Map<Seq<char>, Seq<u8>>,
    name: Seq<char>,
    debris: Option<Seq<u8>>,
    start: BackupState,
    events: Seq<Event<Seq<u8>>>,
) -> Map<Seq<char>, Seq<u8>>
    decreases events.len(),
{
    if events.len() == 0 {
        disk
    } else {
        let before = disk_after(disk, name, debris, start, events.drop_last());
        let temporary = temporary_of(name);
        match (run(start, events.drop_last()).request(), events.last()) {
            (Action::WriteTemporary(file), Event::Done) => before.insert(temporary, file),
            (Action::WriteTemporary(_), _) => match debris {
                Some(debris) => before.insert(temporary, debris),
                None => before,
            },
            (Action::RenameTemporary, Event::Done) => before.remove(temporary).insert(
                name,
                before[temporary],
            ),
            _ => before,
        }
    }
}

/// The file of an earlier backup stays as it is until the new one is whole: only
/// a backup that has finished replaces it, with the file that holds all of the
/// data. Nothing else changes but the temporary file, which a backup that has
/// finished leaves no more.
pub proof fn law_interrupted_backup_keeps_the_earlier_file(
    disk: Map<Seq<char>, Seq<u8>>,
    name: Seq<char>,
    debris: Option<Seq<u8>>,
    target: Target,
    events: Seq<Event<Seq<u8>>>,
)
    requires
        exists_on_instrument(target),
        feasible(BackupState::start(target), events),
    ensures
        ({
            let state = run(BackupState::start(target), events);
            let after = disk_after(disk, name, debris, BackupState::start(target), events);
            let temporary = temporary_of(name);
            if state.phase is Finished {
                &&& after == disk.remove(temporary).insert(name, state.file())
                &&& after.contains_key(name) && after[name] == state.file()
                &&& state.data.len() == state.size
            } else {
                &&& after.remove(temporary) == disk.remove(temporary)
                &&& after.contains_key(name) == disk.contains_key(name)
                &&& disk.contains_key(name) ==> after[name] == disk[name]
            }
        }),
{
    law_temporary_is_another_file(name);
    law_backup_stays_valid_and_ends(target, events);
    lemma_disk(disk, name, debris, target, events);
    let after = disk_after(disk, name, debris, BackupState::start(target), events);
    assert(after.remove(temporary_of(name)).contains_key(name) == after.contains_key(name));
    assert(disk.remove(temporary_of(name)).contains_key(name) == disk.contains_key(name));
    assert(after.contains_key(name) ==> after.remove(temporary_of(name))[name] == after[name]);
    assert(disk.contains_key(name) ==> disk.remove(temporary_of(name))[name] == disk[name]);
}

proof fn lemma_disk(
    disk: Map<Seq<char>, Seq<u8>>,
    name: Seq<char>,
    debris: Option<Seq<u8>>,
    target: Target,
    events: Seq<Event<Seq<u8>>>,
)
    requires
        exists_on_instrument(target),
        feasible(BackupState::start(target), events),
        temporary_of(name) != name,
    ensures
        ({
            let state = run(BackupState::start(target), events);
            let after = disk_after(disk, name, debris, BackupState::start(target), events);
            let temporary = temporary_of(name);
            &&& state.phase is Finished ==> after == disk.remove(temporary).insert(
                name,
                state.file(),
            )
            &&& !(state.phase is Finished) ==> after.remove(temporary) == disk.remove(temporary)
            &&& state.phase is Rename ==> after[temporary] == state.file()
        }),
    decreases events.len(),
{
    if events.len() > 0 {
        lemma_disk(disk, name, debris, target, events.drop_last());
        law_backup_stays_valid_and_ends(target, events.drop_last());
        let before = disk_after(disk, name, debris, BackupState::start(target), events.drop_last());
        let after = disk_after(disk, name, debris, BackupState::start(target), events);
        let temporary = temporary_of(name);
        assert(after.remove(temporary) == before.remove(temporary) || after == before.remove(
            temporary,
        ).insert(name, before[temporary]));
    }
}

/// The file of a backup can be restored if and only if its version is one that
/// can be, and then it gives back the version and what was saved.
pub proof fn law_backup_file_reads_back(state: BackupState)
    requires
        state.valid(),
        state.phase is Temporary || state.phase is Rename || state.phase is Finished,
    ensures
        state.version->0 >= OLDEST_RESTORABLE ==> {
            &&& defect(state.file()) is None
            &&& state.file()[0] == state.version->0
            &&& data_of(state.file()) == state.payload()
        },
        state.version->0 < OLDEST_RESTORABLE ==> defect(state.file()) == Some(
            FileError::UnsupportedVersion { version: state.version->0 },
        ),
{
    if state.version->0 >= OLDEST_RESTORABLE {
        law_saved_file_reads_back(state.version->0, state.payload());
    }
}

/// The version that is saved with the settings is the byte that leads them: it
/// comes from the data that was accepted, whatever was rejected before.
pub proof fn law_settings_version_leads_the_settings(events: Seq<Event<Seq<u8>>>)
    requires
        feasible(BackupState::start(Target::Settings), events),
    ensures
        ({
            let state = run(BackupState::start(Target::Settings), events);
            &&& state.data.len() > 0 ==> state.version == Some(state.data[0])
            &&& state.phase is Finished ==> state.data.len() > 0
        }),
    decreases events.len(),
{
    law_backup_stays_valid_and_ends(Target::Settings, events);
    if events.len() > 0 {
        law_settings_version_leads_the_settings(events.drop_last());
        law_backup_stays_valid_and_ends(Target::Settings, events.drop_last());
        let before = run(BackupState::start(Target::Settings), events.drop_last());
        if before.data.len() > 0 {
            assert((before.data + before.block)[0] == before.data[0]);
        }
    }
}

/// A project is saved only in a version whose blocks are checked.
pub proof fn law_projects_are_checked(target: Target, events: Seq<Event<Seq<u8>>>)
    requires
        exists_on_instrument(target),
        target is Project,
        feasible(BackupState::start(target), events),
    ensures
        ({
            let state = run(BackupState::start(target), events);
            &&& state.version is Some ==> state.version->0 >= FIRST_CHECKED_VERSION
            &&& state.phase is Finished ==> state.version is Some
            &&& !(state.phase is UncheckedAcceptance)
        }),
{
    law_backup_stays_valid_and_ends(target, events);
}

/// What an instrument holds under a target. The settings are led by their
/// version.
pub struct Holding {
    pub version: u8,
    pub contents: Seq<u8>,
}

/// An instrument can hold that, in a version that can be read.
pub open spec fn can_hold(target: Target, holding: Holding) -> bool {
    &&& exists_on_instrument(target)
    &&& holding.contents.len() <= MAX_PROJECT_SIZE
    &&& target is Project ==> holding.version >= FIRST_CHECKED_VERSION
    &&& target is Settings ==> {
        &&& holding.contents.len() >= 1
        &&& holding.contents[0] == holding.version
        &&& holding.version >= UNCHECKED_VERSION
    }
}

/// What a file keeps of it.
pub open spec fn kept(target: Target, holding: Holding) -> Seq<u8> {
    match target {
        Target::Project { .. } => holding.contents,
        Target::Settings => holding.contents.skip(1),
    }
}

/// `event` is what comes of the next action where the line is sound and the
/// instrument sends what it holds. How much of a block a read gives is open.
pub open spec fn honest(state: BackupState, holding: Holding, event: Event<Seq<u8>>) -> bool {
    match state.phase {
        BackupPhase::CommandReply { .. } | BackupPhase::Completion => event == Event::Received(
            seq![ACK@[state.line.len() as int]],
        ),
        BackupPhase::Version => event == Event::Received(seq![holding.version]),
        BackupPhase::Size => event == Event::Received(u32_le(holding.contents.len() as u32)),
        BackupPhase::Block => {
            let from = (state.data.len() + state.block.len()) as int;
            &&& can_follow(state.request(), event)
            &&& event is Received
            &&& event->Received_0 == holding.contents.subrange(
                from,
                from + event->Received_0.len(),
            )
        },
        BackupPhase::Crc => event == Event::Received(
            u32_le(
                crc32_of(
                    holding.contents.subrange(
                        state.data.len() as int,
                        state.data.len() + state.block_size(),
                    ),
                ),
            ),
        ),
        BackupPhase::Finished | BackupPhase::Failed(_) => false,
        _ => event is Done,
    }
}

/// Each event of the run is honest.
pub open spec fn honest_run(
    start: BackupState,
    holding: Holding,
    events: Seq<Event<Seq<u8>>>,
) -> bool
    decreases events.len(),
{
    events.len() > 0 ==> {
        &&& honest_run(start, holding, events.drop_last())
        &&& honest(run(start, events.drop_last()), holding, events.last())
    }
}

/// How an honest run stands.
pub open spec fn on_track(state: BackupState, holding: Holding) -> bool {
    let done = state.data.len() as int;
    let replying = state.phase is CommandReply || state.phase is Completion;
    let early = state.phase is Command || state.phase is CommandReply || state.phase is Version
        || state.phase is Size;
    &&& state.valid()
    &&& can_hold(state.target, holding)
    &&& !(state.phase is Failed)
    &&& !(state.phase is Rejection)
    &&& state.line.len() < 4
    &&& state.line == ACK@.take(state.line.len() as int)
    &&& !replying ==> state.line.len() == 0
    &&& state.version is Some ==> state.version == Some(holding.version)
    &&& !early ==> state.size == holding.contents.len()
    &&& done + state.block.len() <= holding.contents.len()
    &&& state.data == holding.contents.take(done)
    &&& state.block == holding.contents.subrange(done, done + state.block.len())
}

pub proof fn lemma_honest_step(state: BackupState, holding: Holding, event: Event<Seq<u8>>)
    requires
        on_track(state, holding),
        honest(state, holding, event),
    ensures
        can_follow(state.request(), event),
        on_track(state.next(event), holding),
{
    let contents = holding.contents;
    let next = state.next(event);
    law_read_after_write(contents.len() as u32);
    match state.phase {
        BackupPhase::CommandReply { .. } | BackupPhase::Completion => {
            assert(state.line.push(ACK@[state.line.len() as int]) == ACK@.take(
                state.line.len() as int + 1,
            ));
            assert(ACK@.take(4) == ACK@);
            assert(ACK@.take(0) == Seq::<u8>::empty());
            assert(state.line.len() < 3 ==> ACK@[state.line.len() as int] != 0x0a);
        },
        BackupPhase::Block => {
            assert(state.block + event->Received_0 == contents.subrange(
                state.data.len() as int,
                state.data.len() as int + state.block.len() + event->Received_0.len(),
            ));
            assert(next.block == state.block + event->Received_0);
            if state.target is Settings && state.version is None {
                assert(next.block[0] == contents[0]);
            }
        },
        BackupPhase::Crc => {
            law_read_after_write(crc32_of(state.block));
        },
        BackupPhase::Acceptance | BackupPhase::UncheckedAcceptance => {
            assert(state.data + state.block == contents.take(
                (state.data.len() + state.block.len()) as int,
            ));
            assert(next.block == contents.subrange(
                next.data.len() as int,
                next.data.len() as int,
            ));
        },
        _ => {},
    }
}

proof fn lemma_honest_run(target: Target, holding: Holding, events: Seq<Event<Seq<u8>>>)
    requires
        can_hold(target, holding),
        honest_run(BackupState::start(target), holding, events),
    ensures
        feasible(BackupState::start(target), events),
        on_track(run(BackupState::start(target), events), holding),
        run(BackupState::start(target), events).target == target,
    decreases events.len(),
{
    if events.len() == 0 {
        assert(ACK@.take(0) == Seq::<u8>::empty());
        assert(holding.contents.take(0) == Seq::<u8>::empty());
        assert(holding.contents.subrange(0, 0) == Seq::<u8>::empty());
    } else {
        lemma_honest_run(target, holding, events.drop_last());
        lemma_honest_step(
            run(BackupState::start(target), events.drop_last()),
            holding,
            events.last(),
        );
    }
}

/// What an honest instrument answers, each block in one piece.
pub open spec fn whole_answer(state: BackupState, holding: Holding) -> Event<Seq<u8>> {
    match state.phase {
        BackupPhase::CommandReply { .. } | BackupPhase::Completion => Event::Received(
            seq![ACK@[state.line.len() as int]],
        ),
        BackupPhase::Version => Event::Received(seq![holding.version]),
        BackupPhase::Size => Event::Received(u32_le(holding.contents.len() as u32)),
        BackupPhase::Block => Event::Received(
            holding.contents.subrange(
                (state.data.len() + state.block.len()) as int,
                state.data.len() + state.block_size(),
            ),
        ),
        BackupPhase::Crc => Event::Received(
            u32_le(
                crc32_of(
                    holding.contents.subrange(
                        state.data.len() as int,
                        state.data.len() + state.block_size(),
                    ),
                ),
            ),
        ),
        _ => Event::Done,
    }
}

/// A backup from a sound line and an honest instrument succeeds: it never fails,
/// it goes on until it has finished, that takes a bounded number of events, and
/// then the file holds the version and the contents that the instrument holds.
pub proof fn law_honest_backup_saves_what_is_held(
    target: Target,
    holding: Holding,
    events: Seq<Event<Seq<u8>>>,
)
    requires
        can_hold(target, holding),
        honest_run(BackupState::start(target), holding, events),
    ensures
        ({
            let state = run(BackupState::start(target), events);
            &&& feasible(BackupState::start(target), events)
            &&& !(state.phase is Failed)
            &&& !(state.phase is Finished) ==> honest(state, holding, whole_answer(state, holding))
            &&& events.len() <= events_left(BackupState::start(target))
            &&& state.phase is Finished ==> {
                &&& state.version == Some(holding.version)
                &&& state.data == holding.contents
                &&& state.file() == file_of(holding.version, kept(target, holding))
            }
        }),
{
    lemma_honest_run(target, holding, events);
    law_backup_stays_valid_and_ends(target, events);
    let state = run(BackupState::start(target), events);
    if state.phase is Finished {
        assert(holding.contents.take(holding.contents.len() as int) == holding.contents);
    }
}

/// Two runs of bytes of one length differ, if at all, within four bytes in a row.
pub open spec fn nearly_same(a: Seq<u8>, b: Seq<u8>) -> bool {
    exists|place: int| differ_only_from(a, b, place)
}

/// Runs that are nearly the same and have one CRC are the same.
proof fn lemma_nearly_same_and_one_crc(a: Seq<u8>, b: Seq<u8>)
    requires
        nearly_same(a, b),
        crc32_of(a) == crc32_of(b),
    ensures
        a == b,
{
    if a != b {
        law_damaged_burst_shows(a, b, choose|place: int| differ_only_from(a, b, place));
    }
}

/// `event` is what can come of the next action where the instrument sends what
/// it holds over a line that may fail at any time, and that may damage up to four
/// bytes in a row of each block every time that the block is sent. At the first
/// sending it does not make the version that leads settings read as the one that
/// goes without CRCs.
pub open spec fn noisy(state: BackupState, holding: Holding, event: Event<Seq<u8>>) -> bool {
    &&& can_follow(state.request(), event)
    &&& event is Received ==> match state.phase {
        BackupPhase::Version | BackupPhase::Size | BackupPhase::Crc => honest(
            state,
            holding,
            event,
        ),
        BackupPhase::Block => {
            let block = state.block + event->Received_0;
            &&& nearly_same(
                block,
                holding.contents.subrange(
                    state.data.len() as int,
                    (state.data.len() + block.len()) as int,
                ),
            )
            &&& state.leads_settings() && state.retries == 0 && block[0] == UNCHECKED_VERSION
                ==> holding.version == UNCHECKED_VERSION
        },
        _ => true,
    }
}

/// Each event of the run is one of a noisy line.
pub open spec fn noisy_run(
    start: BackupState,
    holding: Holding,
    events: Seq<Event<Seq<u8>>>,
) -> bool
    decreases events.len(),
{
    events.len() > 0 ==> {
        &&& noisy_run(start, holding, events.drop_last())
        &&& noisy(run(start, events.drop_last()), holding, events.last())
    }
}

/// How a backup over a noisy line stands.
spec fn undamaged(state: BackupState, holding: Holding) -> bool {
    let done = state.data.len() as int;
    let early = state.phase is Command || state.phase is CommandReply || state.phase is Version
        || state.phase is Size || state.phase is Failed;
    let block = holding.contents.subrange(done, done + state.block.len());
    &&& state.valid()
    &&& can_hold(state.target, holding)
    &&& holding.version >= FIRST_CHECKED_VERSION
    &&& state.target is Project && state.version is Some ==> state.version == Some(holding.version)
    &&& !early ==> state.size == holding.contents.len()
    &&& done <= holding.contents.len()
    &&& state.data == holding.contents.take(done)
    &&& (state.phase is CrcRequest || state.phase is Crc) ==> nearly_same(state.block, block)
    &&& state.phase is Acceptance ==> state.block == block
    &&& !(state.phase is UncheckedAcceptance)
}

proof fn lemma_noisy_step(state: BackupState, holding: Holding, event: Event<Seq<u8>>)
    requires
        undamaged(state, holding),
        noisy(state, holding, event),
    ensures
        undamaged(state.next(event), holding),
{
    let contents = holding.contents;
    let next = state.next(event);
    law_step_keeps_valid(state, event);
    law_read_after_write(contents.len() as u32);
    match state.phase {
        BackupPhase::Crc => {
            let sent = contents.subrange(
                state.data.len() as int,
                state.data.len() + state.block_size(),
            );
            law_read_after_write(crc32_of(sent));
            if event is Received && crc32_of(sent) == crc32_of(state.block) {
                lemma_nearly_same_and_one_crc(state.block, sent);
            }
        },
        BackupPhase::Acceptance => {
            assert(state.data + state.block == contents.take(
                (state.data.len() + state.block.len()) as int,
            ));
        },
        _ => {},
    }
}

proof fn lemma_noisy_run(target: Target, holding: Holding, events: Seq<Event<Seq<u8>>>)
    requires
        can_hold(target, holding),
        holding.version >= FIRST_CHECKED_VERSION,
        noisy_run(BackupState::start(target), holding, events),
    ensures
        undamaged(run(BackupState::start(target), events), holding),
        run(BackupState::start(target), events).target == target,
    decreases events.len(),
{
    if events.len() == 0 {
        assert(holding.contents.take(0) == Seq::<u8>::empty());
    } else {
        lemma_noisy_run(target, holding, events.drop_last());
        lemma_noisy_step(
            run(BackupState::start(target), events.drop_last()),
            holding,
            events.last(),
        );
    }
}

/// No byte that the line damages gets into the file of a project, nor into that
/// of settings whose blocks are checked, as long as it damages no more than four
/// bytes in a row of a block at a time and does not make the settings read as
/// unchecked ones at first: if the backup finishes at all, the file holds the
/// version and the contents that the instrument holds.
pub proof fn law_noisy_line_leaves_no_damage(
    target: Target,
    holding: Holding,
    events: Seq<Event<Seq<u8>>>,
)
    requires
        can_hold(target, holding),
        holding.version >= FIRST_CHECKED_VERSION,
        noisy_run(BackupState::start(target), holding, events),
        run(BackupState::start(target), events).phase is Finished,
    ensures
        run(BackupState::start(target), events).data == holding.contents,
        run(BackupState::start(target), events).file() == file_of(
            holding.version,
            kept(target, holding),
        ),
{
    lemma_noisy_run(target, holding, events);
    assert(holding.contents.take(holding.contents.len() as int) == holding.contents);
}

} // verus!
