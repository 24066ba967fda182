//! What holds of every restore, and of a restore after a backup.

use vstd::prelude::*;

#[allow(unused_imports)]
use crate::backup::BackupState;
#[allow(unused_imports)]
use crate::backup_laws::{
    can_hold, exists_on_instrument, honest_run, law_backup_file_reads_back,
    law_backup_stays_valid_and_ends, law_honest_backup_saves_what_is_held, Holding,
};
#[allow(unused_imports)]
use crate::files::{data_of, defect, OLDEST_RESTORABLE};
#[allow(unused_imports)]
use crate::protocol::{
    can_follow, Event, Failure, Target, ACK, BLOCK_SIZE, CRC_OK, CRC_REQUEST, CRC_WRONG,
    MAX_BLOCK_RETRIES,
};
#[allow(unused_imports)]
use crate::restore::{RestorePhase, RestoreState};

verus! {

/// Where a run of events leads from `start`.
pub open spec fn run(start: RestoreState, events: Seq<Event<Seq<u8>>>) -> RestoreState
    decreases events.len(),
{
    if events.len() == 0 {
        start
    } else {
        run(start, events.drop_last()).next(events.last())
    }
}

/// Each event of the run can come of the action that it answers.
pub open spec fn feasible(start: RestoreState, events: Seq<Event<Seq<u8>>>) -> bool
    decreases events.len(),
{
    events.len() > 0 ==> {
        &&& feasible(start, events.drop_last())
        &&& can_follow(run(start, events.drop_last()).request(), events.last())
    }
}

/// What the instrument has accepted in the course of a run: the blocks that it
/// judged to be as they were sent, one after the other.
pub open spec fn taken(start: RestoreState, events: Seq<Event<Seq<u8>>>) -> Seq<u8>
    decreases events.len(),
{
    if events.len() == 0 {
        Seq::empty()
    } else {
        let before = run(start, events.drop_last());
        if before.phase is Verdict && events.last() == Event::Received(seq![CRC_OK]) {
            taken(start, events.drop_last()) + before.block()
        } else {
            taken(start, events.drop_last())
        }
    }
}

/// An upper bound on the events that are still to come.
pub open spec fn events_left(state: RestoreState) -> int {
    let rest = state.stream.len() - state.offset;
    match state.phase {
        RestorePhase::Command { at } => 24 * rest + 301 + 300 * (state.commands().len() - at),
        RestorePhase::CommandReply { at } => 24 * rest + 300 + 300 * (state.commands().len() - at)
            - state.line.len(),
        RestorePhase::Block => 24 * rest + 300 - 4 * state.retries,
        RestorePhase::CrcRequest => 24 * rest + 299 - 4 * state.retries,
        RestorePhase::Crc => 24 * rest + 298 - 4 * state.retries,
        RestorePhase::Verdict => 24 * rest + 297 - 4 * state.retries,
        RestorePhase::Completion => 300 - state.line.len(),
        RestorePhase::Finished => 0,
        RestorePhase::Failed(_) => 0,
    }
}

proof fn lemma_step(state: RestoreState, event: Event<Seq<u8>>)
    requires
        state.valid(),
        can_follow(state.request(), event),
    ensures
        state.next(event).valid(),
        0 <= events_left(state.next(event)) < events_left(state),
        state.next(event).stream == state.stream,
        state.next(event).target == state.target,
        state.next(event).version == state.version,
{
}

/// Whatever the line and the instrument do, the restore stays valid, what is
/// sent does not change, and the restore ends: it takes no more events than the
/// bound that can be told at its start. A link that keeps failing makes it fail;
/// it never goes on forever.
pub proof fn law_restore_stays_valid_and_ends(
    start: RestoreState,
    events: Seq<Event<Seq<u8>>>,
)
    requires
        start.valid(),
        feasible(start, events),
    ensures
        run(start, events).valid(),
        run(start, events).stream == start.stream,
        run(start, events).target == start.target,
        run(start, events).version == start.version,
        events.len() + events_left(run(start, events)) <= events_left(start),
        events.len() <= events_left(start),
    decreases events.len(),
{
    if events.len() > 0 {
        law_restore_stays_valid_and_ends(start, events.drop_last());
        lemma_step(run(start, events.drop_last()), events.last());
    }
}

/// The instrument accepts the stream in order and without gaps: at any time it
/// has accepted exactly the bytes before the offset, and a restore finishes only
/// once it has accepted all of them.
pub proof fn law_instrument_takes_the_stream_in_order(
    target: Target,
    version: u8,
    data: Seq<u8>,
    events: Seq<Event<Seq<u8>>>,
)
    requires
        RestoreState::start(target, version, data).valid(),
        feasible(RestoreState::start(target, version, data), events),
    ensures
        ({
            let start = RestoreState::start(target, version, data);
            let state = run(start, events);
            &&& taken(start, events) == start.stream.take(state.offset as int)
            &&& state.phase is Finished ==> taken(start, events) == start.stream
        }),
    decreases events.len(),
{
    let start = RestoreState::start(target, version, data);
    let state = run(start, events);
    law_restore_stays_valid_and_ends(start, events);
    if events.len() == 0 {
        assert(start.stream.take(0) == Seq::<u8>::empty());
    } else {
        let before = run(start, events.drop_last());
        law_instrument_takes_the_stream_in_order(target, version, data, events.drop_last());
        law_restore_stays_valid_and_ends(start, events.drop_last());
        if before.phase is Verdict && events.last() is Received {
            let reply = events.last()->Received_0;
            assert(reply == seq![reply[0]]);
            if reply[0] == CRC_OK {
                assert(taken(start, events) == taken(start, events.drop_last()) + before.block());
                assert(start.stream.take(before.offset as int) + before.block()
                    == start.stream.take(state.offset as int));
            } else {
                assert(seq![reply[0]][0] == reply[0]);
                assert(reply != seq![CRC_OK]) by {
                    assert(seq![CRC_OK][0] == CRC_OK);
                }
            }
        }
    }
    assert(start.stream.take(start.stream.len() as int) == start.stream);
}

/// A block has at least one byte and no more than fit into a block; no block is
/// sent again once it has been rejected so often that it is given up.
pub proof fn law_blocks_and_retries_are_bounded(state: RestoreState)
    requires
        state.valid(),
        state.phase is Block,
    ensures
        1 <= state.block().len() <= BLOCK_SIZE,
        state.retries <= MAX_BLOCK_RETRIES,
        state.block() == state.stream.subrange(
            state.offset as int,
            state.offset + state.block().len(),
        ),
{
}

/// A rejection changes nothing but the number of retries: the same block is sent
/// again, or, past the last retry, the restore fails for that block.
pub proof fn law_rejected_block_is_sent_again(state: RestoreState)
    requires
        state.valid(),
        state.phase is Verdict,
    ensures
        state.retries < MAX_BLOCK_RETRIES ==> state.next(Event::Received(seq![CRC_WRONG]))
            == (RestoreState {
            phase: RestorePhase::Block,
            retries: (state.retries + 1) as usize,
            ..state
        }),
        state.retries == MAX_BLOCK_RETRIES ==> state.next(
            Event::Received(seq![CRC_WRONG]),
        ).phase == RestorePhase::<Seq<u8>>::Failed(Failure::BlockRejected { offset: state.offset }),
{
}

/// `event` is what comes of the next action where the line is sound and the
/// instrument takes part. It may reject a block as often as is borne.
pub open spec fn cooperative(state: RestoreState, event: Event<Seq<u8>>) -> bool {
    match state.phase {
        RestorePhase::CommandReply { .. } | RestorePhase::Completion => event == Event::Received(
            seq![ACK@[state.line.len() as int]],
        ),
        RestorePhase::CrcRequest => event == Event::Received(seq![CRC_REQUEST]),
        RestorePhase::Verdict => {
            ||| event == Event::Received(seq![CRC_OK])
            ||| event == Event::Received(seq![CRC_WRONG]) && state.retries < MAX_BLOCK_RETRIES
        },
        RestorePhase::Finished | RestorePhase::Failed(_) => false,
        _ => event is Done,
    }
}

/// Each event of the run is cooperative.
pub open spec fn cooperative_run(start: RestoreState, events: Seq<Event<Seq<u8>>>) -> bool
    decreases events.len(),
{
    events.len() > 0 ==> {
        &&& cooperative_run(start, events.drop_last())
        &&& cooperative(run(start, events.drop_last()), events.last())
    }
}

/// How a cooperative run stands.
pub open spec fn on_track(state: RestoreState) -> bool {
    let replying = state.phase is CommandReply || state.phase is Completion;
    &&& state.valid()
    &&& !state.too_large()
    &&& !(state.phase is Failed)
    &&& state.line.len() < 4
    &&& state.line == ACK@.take(state.line.len() as int)
    &&& !replying ==> state.line.len() == 0
}

pub proof fn lemma_cooperative_step(state: RestoreState, event: Event<Seq<u8>>)
    requires
        on_track(state),
        cooperative(state, event),
    ensures
        can_follow(state.request(), event),
        on_track(state.next(event)),
{
    lemma_ack_prefix(state.line);
}

/// One more byte of the acknowledgement.
proof fn lemma_ack_prefix(line: Seq<u8>)
    requires
        line.len() < 4,
        line == ACK@.take(line.len() as int),
    ensures
        line.push(ACK@[line.len() as int]) == ACK@.take(line.len() as int + 1),
        ACK@.take(0) == Seq::<u8>::empty(),
        ACK@.take(4) == ACK@,
        line.len() < 3 ==> ACK@[line.len() as int] != 0x0a,
        ACK@[3] == 0x0a,
{
}

/// With a sound line and an instrument that takes part, a restore succeeds: it
/// never fails, it goes on until it has finished, and then the instrument has
/// accepted all of the stream.
pub proof fn law_cooperative_restore_succeeds(
    target: Target,
    version: u8,
    data: Seq<u8>,
    events: Seq<Event<Seq<u8>>>,
)
    requires
        RestoreState::start(target, version, data).valid(),
        !RestoreState::start(target, version, data).too_large(),
        cooperative_run(RestoreState::start(target, version, data), events),
    ensures
        ({
            let start = RestoreState::start(target, version, data);
            let state = run(start, events);
            &&& feasible(start, events)
            &&& !(state.phase is Failed)
            &&& !(state.phase is Finished) ==> exists|event: Event<Seq<u8>>|
                cooperative(state, event)
            &&& state.phase is Finished ==> taken(start, events) == start.stream
        }),
{
    let start = RestoreState::start(target, version, data);
    lemma_cooperative_run(start, events);
    law_instrument_takes_the_stream_in_order(target, version, data, events);
    let state = run(start, events);
    if !(state.phase is Finished) {
        let event: Event<Seq<u8>> = match state.phase {
            RestorePhase::CommandReply { .. } | RestorePhase::Completion => Event::Received(
                seq![ACK@[state.line.len() as int]],
            ),
            RestorePhase::CrcRequest => Event::Received(seq![CRC_REQUEST]),
            RestorePhase::Verdict => Event::Received(seq![CRC_OK]),
            _ => Event::Done,
        };
        assert(cooperative(state, event));
    }
}

proof fn lemma_cooperative_run(start: RestoreState, events: Seq<Event<Seq<u8>>>)
    requires
        start.valid(),
        !start.too_large(),
        start.phase is Command,
        start.line == Seq::<u8>::empty(),
        cooperative_run(start, events),
    ensures
        feasible(start, events),
        on_track(run(start, events)),
    decreases events.len(),
{
    if events.len() == 0 {
        assert(ACK@.take(0) == Seq::<u8>::empty());
    } else {
        lemma_cooperative_run(start, events.drop_last());
        lemma_cooperative_step(run(start, events.drop_last()), events.last());
    }
}

/// What was saved is given back. Take any backup that has finished, in a version
/// that can be restored, and load its file to the same kind of target. The file
/// is whole, the restore sends the version and the bytes that were saved, and
/// once it has finished, the instrument has accepted exactly those bytes.
pub proof fn law_restore_gives_back_what_was_saved(
    from: Target,
    to: Target,
    saving: Seq<Event<Seq<u8>>>,
    loading: Seq<Event<Seq<u8>>>,
)
    requires
        exists_on_instrument(from),
        exists_on_instrument(to),
        from is Settings <==> to is Settings,
        crate::backup_laws::feasible(BackupState::start(from), saving),
        crate::backup_laws::run(BackupState::start(from), saving).phase is Finished,
        crate::backup_laws::run(BackupState::start(from), saving).version->0 >= OLDEST_RESTORABLE,
        ({
            let file = crate::backup_laws::run(BackupState::start(from), saving).file();
            feasible(RestoreState::start(to, file[0], data_of(file)), loading)
        }),
    ensures
        ({
            let end = crate::backup_laws::run(BackupState::start(from), saving);
            let start = RestoreState::start(to, end.file()[0], data_of(end.file()));
            &&& defect(end.file()) is None
            &&& start.valid()
            &&& start.version == end.version->0
            &&& start.stream == end.data
            &&& run(start, loading).phase is Finished ==> taken(start, loading) == end.data
        }),
{
    let end = crate::backup_laws::run(BackupState::start(from), saving);
    assert(end.valid() && end.target == from) by {
        law_backup_stays_valid_and_ends(from, saving);
    }
    lemma_loaded(end, to);
    law_instrument_takes_the_stream_in_order(to, end.file()[0], data_of(end.file()), loading);
}

/// The file of a finished backup brings back just what was saved.
proof fn lemma_loaded(end: BackupState, to: Target)
    requires
        end.valid(),
        end.phase is Finished,
        end.version->0 >= OLDEST_RESTORABLE,
        exists_on_instrument(to),
        end.target is Settings <==> to is Settings,
    ensures
        ({
            let start = RestoreState::start(to, end.file()[0], data_of(end.file()));
            &&& defect(end.file()) is None
            &&& start.valid()
            &&& start.version == end.version->0
            &&& start.stream == end.data
        }),
{
    assert(defect(end.file()) is None && end.file()[0] == end.version->0 && data_of(end.file())
        == end.payload()) by {
        law_backup_file_reads_back(end);
    }
    lemma_started(to, end.version->0, end.payload(), end.data);
}

/// A restore begins with the bytes that were saved.
proof fn lemma_started(to: Target, version: u8, payload: Seq<u8>, data: Seq<u8>)
    requires
        exists_on_instrument(to),
        data.len() <= i32::MAX,
        to is Project ==> payload == data,
        to is Settings ==> data.len() > 0 && data[0] == version && payload == data.skip(1),
    ensures
        RestoreState::start(to, version, payload).valid(),
        RestoreState::start(to, version, payload).version == version,
        RestoreState::start(to, version, payload).stream == data,
{
    if to is Settings {
        assert(seq![version] + data.skip(1) =~= data);
    }
}

/// What an honest instrument held is given back: once a restore of what was
/// saved from it has finished, the instrument has accepted exactly what it held
/// when it was saved.
pub proof fn law_restore_gives_back_what_was_held(
    from: Target,
    to: Target,
    holding: Holding,
    saving: Seq<Event<Seq<u8>>>,
    loading: Seq<Event<Seq<u8>>>,
)
    requires
        can_hold(from, holding),
        exists_on_instrument(to),
        from is Settings <==> to is Settings,
        holding.version >= OLDEST_RESTORABLE,
        honest_run(BackupState::start(from), holding, saving),
        crate::backup_laws::run(BackupState::start(from), saving).phase is Finished,
        ({
            let file = crate::backup_laws::run(BackupState::start(from), saving).file();
            feasible(RestoreState::start(to, file[0], data_of(file)), loading)
        }),
    ensures
        ({
            let file = crate::backup_laws::run(BackupState::start(from), saving).file();
            let start = RestoreState::start(to, file[0], data_of(file));
            &&& defect(file) is None
            &&& start.valid()
            &&& start.version == holding.version
            &&& start.stream == holding.contents
            &&& run(start, loading).phase is Finished ==> taken(start, loading)
                == holding.contents
        }),
{
    law_honest_backup_saves_what_is_held(from, holding, saving);
    law_restore_gives_back_what_was_saved(from, to, saving, loading);
}

} // verus!
