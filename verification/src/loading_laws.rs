//! What a restore sends, and what comes of it in a conversation with an
//! instrument.

use vstd::prelude::*;

#[allow(unused_imports)]
use crate::backup_laws::{exists_on_instrument, Holding};
#[allow(unused_imports)]
use crate::crc::crc32_of;
#[allow(unused_imports)]
use crate::device::{
    acknowledgement, four_bytes, lemma_acknowledgement, lemma_four_bytes, lemma_front,
    lemma_one_heard, number_of, piece, Doing, Instrument,
};
#[allow(unused_imports)]
use crate::protocol::{can_follow, Action, Event, Target, ACK};
#[allow(unused_imports)]
use crate::restore::{RestorePhase, RestoreState};
#[allow(unused_imports)]
use crate::restore_laws::{
    cooperative, feasible, law_restore_stays_valid_and_ends, lemma_cooperative_step, on_track, run,
    taken,
};

verus! {

/// What a restore has sent in the course of a run, write by write.
pub open spec fn sent(start: RestoreState, events: Seq<Event<Seq<u8>>>) -> Seq<Seq<u8>>
    decreases events.len(),
{
    if events.len() == 0 {
        Seq::empty()
    } else {
        let before = sent(start, events.drop_last());
        match (run(start, events.drop_last()).request(), events.last()) {
            (Action::Write(bytes), Event::Done) => before.push(bytes),
            _ => before,
        }
    }
}

/// The instrument after a run.
pub open spec fn talked_to(
    instrument: Instrument,
    start: RestoreState,
    events: Seq<Event<Seq<u8>>>,
) -> Instrument
    decreases events.len(),
{
    if events.len() == 0 {
        instrument
    } else {
        talked_to(instrument, start, events.drop_last()).after(
            run(start, events.drop_last()).request(),
            events.last(),
        )
    }
}

/// Each event of the run is what the instrument brings about.
pub open spec fn is_conversation(
    instrument: Instrument,
    start: RestoreState,
    events: Seq<Event<Seq<u8>>>,
) -> bool
    decreases events.len(),
{
    events.len() > 0 ==> {
        &&& is_conversation(instrument, start, events.drop_last())
        &&& talked_to(instrument, start, events.drop_last()).brings(
            run(start, events.drop_last()).request(),
            events.last(),
        )
    }
}

/// The instrument with something that it has said and nobody has read.
spec fn having_said(instrument: Instrument, output: Seq<u8>) -> Instrument {
    Instrument { output, ..instrument }
}

/// The version that the instrument was told ahead of the stream.
spec fn version_told(state: RestoreState) -> u8 {
    match state.target {
        Target::Project { .. } => state.version,
        Target::Settings => 0,
    }
}

/// The instrument once it has taken the stream up to `to`, after it has said
/// `output`.
spec fn taken_up_to(base: Instrument, state: RestoreState, to: int, output: Seq<u8>) -> Instrument {
    having_said(base, output).takes(
        state.target,
        version_told(state),
        state.stream.len() as int,
        state.stream.take(to),
    )
}

/// What the instrument waits for before it is told number `at`.
spec fn waiting_for(state: RestoreState, at: int) -> Doing {
    if at == 0 {
        Doing::Idle
    } else if state.target is Settings {
        Doing::AwaitSettingsSize { heard: Seq::empty() }
    } else if at == 1 {
        Doing::AwaitVersion
    } else if at == 2 {
        Doing::AwaitProjectSize { version: state.version, heard: Seq::empty() }
    } else {
        Doing::AwaitSlot { version: state.version, size: state.stream.len() as int }
    }
}

/// Restore and instrument are at the same point of their conversation. `base` is
/// the instrument as it was.
#[verifier::opaque]
spec fn in_step(state: RestoreState, instrument: Instrument, base: Instrument) -> bool {
    let line = state.line.len() as int;
    let size = state.stream.len() as int;
    let offset = state.offset as int;
    &&& on_track(state)
    &&& state.retries == 0
    &&& match state.phase {
        RestorePhase::Command { at } => instrument == (Instrument {
            output: Seq::empty(),
            doing: waiting_for(state, at as int),
            ..base
        }),
        RestorePhase::CommandReply { at } => if at + 1 < state.commands().len() {
            instrument == (Instrument {
                output: acknowledgement().skip(line),
                doing: waiting_for(state, at + 1),
                ..base
            })
        } else {
            instrument == taken_up_to(base, state, 0, acknowledgement().skip(line))
        },
        RestorePhase::Block => instrument == taken_up_to(base, state, offset, Seq::empty()),
        RestorePhase::CrcRequest => instrument == (Instrument {
            output: seq![0x63],
            doing: Doing::AwaitCrc {
                to: state.target,
                version: version_told(state),
                size,
                taken: state.stream.take(offset),
                block: state.block(),
                heard: Seq::empty(),
            },
            ..base
        }),
        RestorePhase::Crc => instrument == (Instrument {
            output: Seq::empty(),
            doing: Doing::AwaitCrc {
                to: state.target,
                version: version_told(state),
                size,
                taken: state.stream.take(offset),
                block: state.block(),
                heard: Seq::empty(),
            },
            ..base
        }),
        RestorePhase::Verdict => instrument == taken_up_to(
            base,
            state,
            state.block_end(),
            seq![0x6f],
        ),
        RestorePhase::Completion => instrument == (Instrument {
            output: acknowledgement().skip(line),
            ..taken_up_to(base, state, size, Seq::empty())
        }),
        RestorePhase::Finished => instrument == (Instrument {
            output: Seq::empty(),
            ..taken_up_to(base, state, size, Seq::empty())
        }),
        RestorePhase::Failed(_) => false,
    }
}

/// An instrument that has heard a part of a block has that part.
proof fn lemma_part_of_block_heard(instrument: Instrument, bytes: Seq<u8>)
    requires
        instrument.doing matches Doing::AwaitBlock { size, taken, heard, .. } && {
            &&& heard == Seq::<u8>::empty()
            &&& bytes.len() < 96
            &&& taken.len() + bytes.len() < size
        },
    ensures
        ({
            let to = instrument.doing->AwaitBlock_to;
            let version = instrument.doing->AwaitBlock_version;
            let size = instrument.doing->AwaitBlock_size;
            let taken = instrument.doing->AwaitBlock_taken;
            instrument.hears_all(bytes) == (Instrument {
                doing: Doing::AwaitBlock { to, version, size, taken, heard: bytes },
                ..instrument
            })
        }),
    decreases bytes.len(),
{
    assert(instrument.output + Seq::<u8>::empty() =~= instrument.output);
    if bytes.len() == 0 {
        assert(bytes =~= Seq::<u8>::empty());
    } else {
        lemma_part_of_block_heard(instrument, bytes.drop_last());
        assert(bytes.drop_last().push(bytes.last()) =~= bytes);
    }
}

/// An instrument that has heard a block asks for its CRC.
proof fn lemma_block_heard(instrument: Instrument, bytes: Seq<u8>)
    requires
        instrument.doing matches Doing::AwaitBlock { size, taken, heard, .. } && {
            &&& heard == Seq::<u8>::empty()
            &&& 1 <= bytes.len() <= 96
            &&& taken.len() + bytes.len() <= size
            &&& bytes.len() == 96 || taken.len() + bytes.len() == size
        },
    ensures
        ({
            let to = instrument.doing->AwaitBlock_to;
            let version = instrument.doing->AwaitBlock_version;
            let size = instrument.doing->AwaitBlock_size;
            let taken = instrument.doing->AwaitBlock_taken;
            instrument.hears_all(bytes) == instrument.says(
                seq![0x63],
                Doing::AwaitCrc { to, version, size, taken, block: bytes, heard: Seq::empty() },
            )
        }),
{
    lemma_part_of_block_heard(instrument, bytes.drop_last());
    assert(bytes.drop_last().push(bytes.last()) =~= bytes);
}

/// Four bytes are heard one after the other.
proof fn lemma_four_heard(instrument: Instrument, bytes: Seq<u8>)
    requires
        bytes.len() == 4,
    ensures
        instrument.hears_all(bytes) == instrument.hears(bytes[0]).hears(bytes[1]).hears(
            bytes[2],
        ).hears(bytes[3]),
{
    assert(bytes.drop_last().drop_last().drop_last().drop_last().len() == 0);
    reveal_with_fuel(Instrument::hears_all, 5);
}

/// An instrument that has heard a size goes by it.
proof fn lemma_size_heard(instrument: Instrument, bytes: Seq<u8>)
    requires
        bytes.len() == 4,
        match instrument.doing {
            Doing::AwaitProjectSize { heard, .. } => heard == Seq::<u8>::empty(),
            Doing::AwaitSettingsSize { heard } => heard == Seq::<u8>::empty(),
            _ => false,
        },
    ensures
        instrument.hears_all(bytes) == match instrument.doing {
            Doing::AwaitProjectSize { version, .. } => instrument.says(
                acknowledgement(),
                Doing::AwaitSlot { version, size: number_of(bytes) },
            ),
            _ => instrument.says(acknowledgement(), instrument.doing).takes(
                Target::Settings,
                0,
                number_of(bytes),
                Seq::empty(),
            ),
        },
{
    let none = Seq::<u8>::empty();
    lemma_four_heard(instrument, bytes);
    assert(instrument.output + none =~= instrument.output);
    assert(none.push(bytes[0]).push(bytes[1]).push(bytes[2]).push(bytes[3]) =~= bytes);
}

/// Reading on goes by what was said first.
proof fn lemma_read_on(base: Instrument, state: RestoreState, to: int, output: Seq<u8>, count: int)
    requires
        0 <= count <= output.len(),
    ensures
        ({
            let before = taken_up_to(base, state, to, output);
            having_said(before, before.output.skip(count)) == taken_up_to(
                base,
                state,
                to,
                output.skip(count),
            )
        }),
{
    assert((output + acknowledgement()).skip(count) =~= output.skip(count) + acknowledgement());
}

/// What is sent, and to where, does not change on the way.
spec fn same_load(a: RestoreState, b: RestoreState) -> bool {
    a.target == b.target && a.version == b.version && a.stream == b.stream
}

proof fn lemma_size_keeps_in_step(
    state: RestoreState,
    instrument: Instrument,
    base: Instrument,
    event: Event<Seq<u8>>,
)
    requires
        in_step(state, instrument, base),
        instrument.brings(state.request(), event),
        state.phase is Command,
        (state.target is Project && state.phase->Command_at == 2) || (state.target is Settings
            && state.phase->Command_at == 1),
    ensures
        can_follow(state.request(), event),
        in_step(state.next(event), instrument.after(state.request(), event), base),
        same_load(state.next(event), state),
{
    reveal(in_step);
    let at = state.phase->Command_at as int;
    let bytes = state.request()->Write_0;
    lemma_cooperative_step(state, event);
    lemma_acknowledgement();
    assert(Seq::<u8>::empty() + acknowledgement() =~= acknowledgement());
    lemma_four_bytes(state.stream.len() as u32);
    assert(state.stream.take(0) =~= Seq::<u8>::empty());
    lemma_size_heard(instrument, bytes);
}

proof fn lemma_command_keeps_in_step(
    state: RestoreState,
    instrument: Instrument,
    base: Instrument,
    event: Event<Seq<u8>>,
)
    requires
        in_step(state, instrument, base),
        instrument.brings(state.request(), event),
        state.phase is Command,
        !(state.target is Project && state.phase->Command_at == 2),
    ensures
        can_follow(state.request(), event),
        in_step(state.next(event), instrument.after(state.request(), event), base),
        same_load(state.next(event), state),
{
    reveal(in_step);
    let at = state.phase->Command_at as int;
    let bytes = state.request()->Write_0;
    lemma_cooperative_step(state, event);
    lemma_acknowledgement();
    assert(Seq::<u8>::empty() + acknowledgement() =~= acknowledgement());
    if state.target is Settings && at == 1 {
        lemma_size_keeps_in_step(state, instrument, base, event);
    } else {
        assert(bytes =~= seq![bytes[0]]);
        lemma_one_heard(instrument, bytes[0]);
        assert(state.stream.take(0) =~= Seq::<u8>::empty());
    }
}

proof fn lemma_reply_keeps_in_step(
    state: RestoreState,
    instrument: Instrument,
    base: Instrument,
    event: Event<Seq<u8>>,
)
    requires
        in_step(state, instrument, base),
        instrument.brings(state.request(), event),
        state.phase is CommandReply,
    ensures
        can_follow(state.request(), event),
        in_step(state.next(event), instrument.after(state.request(), event), base),
        same_load(state.next(event), state),
{
    reveal(in_step);
    let at = state.phase->CommandReply_at as int;
    let line = state.line.len() as int;
    let later = instrument.after(state.request(), event);
    let ack = acknowledgement();
    lemma_acknowledgement();
    assert(event->Received_0[0] == instrument.output[0]);
    assert(event->Received_0 =~= seq![ACK@[line]]);
    lemma_cooperative_step(state, event);
    assert(ack.skip(line).skip(1) =~= ack.skip(line + 1));
    assert(ACK@[line] == 0x0a <==> line == 3);
    assert(state.line.push(ACK@[line]) =~= ACK@.take(line + 1));
    assert(ACK@.take(4) =~= ACK@);
    if at + 1 == state.commands().len() {
        lemma_read_on(base, state, 0, ack.skip(line), 1);
        assert(state.stream.take(0) =~= Seq::<u8>::empty());
        assert(Seq::<u8>::empty() + ack =~= ack);
    }
}

proof fn lemma_block_keeps_in_step(
    state: RestoreState,
    instrument: Instrument,
    base: Instrument,
    event: Event<Seq<u8>>,
)
    requires
        in_step(state, instrument, base),
        instrument.brings(state.request(), event),
        state.phase is Block,
    ensures
        can_follow(state.request(), event),
        in_step(state.next(event), instrument.after(state.request(), event), base),
        same_load(state.next(event), state),
{
    reveal(in_step);
    let offset = state.offset as int;
    lemma_cooperative_step(state, event);
    assert(state.stream.take(offset).len() == offset);
    lemma_block_heard(instrument, state.block());
    assert(Seq::<u8>::empty() + seq![0x63u8] =~= seq![0x63u8]);
}

proof fn lemma_crc_keeps_in_step(
    state: RestoreState,
    instrument: Instrument,
    base: Instrument,
    event: Event<Seq<u8>>,
)
    requires
        in_step(state, instrument, base),
        instrument.brings(state.request(), event),
        state.phase is CrcRequest || state.phase is Crc,
    ensures
        can_follow(state.request(), event),
        in_step(state.next(event), instrument.after(state.request(), event), base),
        same_load(state.next(event), state),
{
    reveal(in_step);
    let offset = state.offset as int;
    if state.phase is CrcRequest {
        assert(event->Received_0[0] == instrument.output[0]);
        assert(event->Received_0 =~= seq![0x63u8]);
        assert(seq![0x63u8].skip(1) =~= Seq::<u8>::empty());
        lemma_cooperative_step(state, event);
    } else {
        let crc = crc32_of(state.block());
        let bytes = state.request()->Write_0;
        lemma_cooperative_step(state, event);
        lemma_four_bytes(crc);
        lemma_four_heard(instrument, bytes);
        assert(Seq::<u8>::empty().push(bytes[0]).push(bytes[1]).push(bytes[2]).push(bytes[3])
            =~= bytes);
        assert(Seq::<u8>::empty() + Seq::<u8>::empty() =~= Seq::<u8>::empty());
        assert(Seq::<u8>::empty() + seq![0x6fu8] =~= seq![0x6fu8]);
        assert(state.stream.take(offset) + state.block() =~= state.stream.take(state.block_end()));
    }
}

proof fn lemma_verdict_keeps_in_step(
    state: RestoreState,
    instrument: Instrument,
    base: Instrument,
    event: Event<Seq<u8>>,
)
    requires
        in_step(state, instrument, base),
        instrument.brings(state.request(), event),
        state.phase is Verdict,
    ensures
        can_follow(state.request(), event),
        in_step(state.next(event), instrument.after(state.request(), event), base),
        same_load(state.next(event), state),
{
    reveal(in_step);
    assert(event->Received_0[0] == instrument.output[0]);
    assert(event->Received_0 =~= seq![0x6fu8]);
    assert(seq![0x6fu8].skip(1) =~= Seq::<u8>::empty());
    lemma_cooperative_step(state, event);
    lemma_read_on(base, state, state.block_end(), seq![0x6f], 1);
    lemma_acknowledgement();
    assert(Seq::<u8>::empty() + acknowledgement() =~= acknowledgement());
}

proof fn lemma_completion_keeps_in_step(
    state: RestoreState,
    instrument: Instrument,
    base: Instrument,
    event: Event<Seq<u8>>,
)
    requires
        in_step(state, instrument, base),
        instrument.brings(state.request(), event),
        state.phase is Completion,
    ensures
        can_follow(state.request(), event),
        in_step(state.next(event), instrument.after(state.request(), event), base),
        same_load(state.next(event), state),
{
    reveal(in_step);
    let line = state.line.len() as int;
    let ack = acknowledgement();
    lemma_acknowledgement();
    assert(event->Received_0[0] == instrument.output[0]);
    assert(event->Received_0 =~= seq![ACK@[line]]);
    lemma_cooperative_step(state, event);
    assert(ack.skip(line).skip(1) =~= ack.skip(line + 1));
    assert(ACK@[line] == 0x0a <==> line == 3);
    assert(state.line.push(ACK@[line]) =~= ACK@.take(line + 1));
    assert(ACK@.take(4) =~= ACK@);
}

proof fn lemma_step_keeps_in_step(
    state: RestoreState,
    instrument: Instrument,
    base: Instrument,
    event: Event<Seq<u8>>,
)
    requires
        in_step(state, instrument, base),
        instrument.brings(state.request(), event),
    ensures
        can_follow(state.request(), event),
        in_step(state.next(event), instrument.after(state.request(), event), base),
        same_load(state.next(event), state),
{
    reveal(in_step);
    match state.phase {
        RestorePhase::Command { at } => {
            if state.target is Project && at == 2 {
                lemma_size_keeps_in_step(state, instrument, base, event);
            } else {
                lemma_command_keeps_in_step(state, instrument, base, event);
            }
        },
        RestorePhase::CommandReply { .. } => {
            lemma_reply_keeps_in_step(state, instrument, base, event);
        },
        RestorePhase::Block => {
            lemma_block_keeps_in_step(state, instrument, base, event);
        },
        RestorePhase::CrcRequest | RestorePhase::Crc => {
            lemma_crc_keeps_in_step(state, instrument, base, event);
        },
        RestorePhase::Verdict => {
            lemma_verdict_keeps_in_step(state, instrument, base, event);
        },
        RestorePhase::Completion => {
            lemma_completion_keeps_in_step(state, instrument, base, event);
        },
        _ => {},
    }
}

proof fn lemma_conversation(
    base: Instrument,
    start: RestoreState,
    events: Seq<Event<Seq<u8>>>,
)
    requires
        in_step(start, base, base),
        is_conversation(base, start, events),
    ensures
        feasible(start, events),
        in_step(run(start, events), talked_to(base, start, events), base),
        same_load(run(start, events), start),
    decreases events.len(),
{
    if events.len() > 0 {
        lemma_conversation(base, start, events.drop_last());
        lemma_step_keeps_in_step(
            run(start, events.drop_last()),
            talked_to(base, start, events.drop_last()),
            base,
            events.last(),
        );
    }
}

/// The instrument always has what is read next.
proof fn lemma_never_stuck(state: RestoreState, instrument: Instrument, base: Instrument) -> (event:
    Event<Seq<u8>>)
    requires
        in_step(state, instrument, base),
        !(state.phase is Finished),
    ensures
        instrument.brings(state.request(), event),
{
    reveal(in_step);
    lemma_acknowledgement();
    match state.request() {
        Action::Read(count) => {
            assert(instrument.output.len() >= count);
            Event::Received(instrument.output.take(count as int))
        },
        _ => Event::Done,
    }
}

/// Loading puts what a file holds where it was asked to. Talk to an instrument
/// that acts on the bytes that it hears, over a sound line. The restore never
/// fails and is never stuck until it has finished. Then the instrument holds the
/// version and the data in the project that was named, or the version and behind
/// it the data as its settings. All else is as it was, and it waits for the next
/// command.
pub proof fn law_loading_puts_it_where_it_belongs(
    instrument: Instrument,
    target: Target,
    version: u8,
    data: Seq<u8>,
    events: Seq<Event<Seq<u8>>>,
)
    requires
        instrument.projects.len() == 16,
        instrument.is_at_rest(),
        target matches Target::Project { index } ==> index < 16 && data.len() <= 0x7fff_ffff,
        target is Settings ==> data.len() + 1 <= 0x7fff_ffff,
        is_conversation(instrument, RestoreState::start(target, version, data), events),
    ensures
        ({
            let start = RestoreState::start(target, version, data);
            let later = talked_to(instrument, start, events);
            let action = run(start, events).request();
            &&& !(action is Fail)
            &&& !(action is Finish) ==> exists|event: Event<Seq<u8>>|
                later.brings(action, event)
            &&& action is Finish ==> later.is_at_rest() && match target {
                Target::Project { index } => {
                    &&& later.projects == instrument.projects.update(
                        index as int,
                        Holding { version, contents: data },
                    )
                    &&& later.settings == instrument.settings
                },
                Target::Settings => {
                    &&& later.projects == instrument.projects
                    &&& later.settings == (Holding { version, contents: seq![version] + data })
                },
            }
        }),
{
    let start = RestoreState::start(target, version, data);
    let state = run(start, events);
    let later = talked_to(instrument, start, events);
    lemma_begin(instrument, target, version, data);
    lemma_conversation(instrument, start, events);
    lemma_end(state, later, instrument);
    if !(state.phase is Finished) {
        let event = lemma_never_stuck(state, later, instrument);
    }
    if target is Settings {
        assert((seq![version] + data)[0] == version);
    }
}

proof fn lemma_begin(instrument: Instrument, target: Target, version: u8, data: Seq<u8>)
    requires
        instrument.is_at_rest(),
        can_be_loaded(target, data),
    ensures
        in_step(RestoreState::start(target, version, data), instrument, instrument),
{
    reveal(in_step);
    assert(ACK@.take(0) =~= Seq::<u8>::empty());
}

proof fn lemma_end(state: RestoreState, instrument: Instrument, base: Instrument)
    requires
        in_step(state, instrument, base),
    ensures
        !(state.request() is Fail),
        state.request() is Finish <==> state.phase is Finished,
        state.phase is Finished ==> instrument.is_at_rest() && match state.target {
            Target::Project { index } => {
                &&& instrument.projects == base.projects.update(
                    index as int,
                    Holding { version: state.version, contents: state.stream },
                )
                &&& instrument.settings == base.settings
            },
            Target::Settings => {
                &&& instrument.projects == base.projects
                &&& instrument.settings == (Holding {
                    version: state.stream[0],
                    contents: state.stream,
                })
            },
        },
{
    reveal(in_step);
    assert(state.stream.take(state.stream.len() as int) =~= state.stream);
}

/// What is to be sent before the first block: `q`, the version, the size and the
/// index of a project, or `r` and the size of the settings with their version.
pub open spec fn announcement(target: Target, version: u8, data: Seq<u8>) -> Seq<Seq<u8>> {
    match target {
        Target::Project { index } => seq![
            seq![0x71],
            seq![version],
            four_bytes(data.len() as int),
            seq![index],
        ],
        Target::Settings => seq![seq![0x72], four_bytes(data.len() as int + 1)],
    }
}

/// What a restore can restore.
pub open spec fn can_be_loaded(target: Target, data: Seq<u8>) -> bool {
    match target {
        Target::Project { index } => index < 16 && data.len() <= 0x7fff_ffff,
        Target::Settings => data.len() + 1 <= 0x7fff_ffff,
    }
}

proof fn lemma_announcement(
    target: Target,
    version: u8,
    data: Seq<u8>,
    events: Seq<Event<Seq<u8>>>,
)
    requires
        can_be_loaded(target, data),
        feasible(RestoreState::start(target, version, data), events),
    ensures
        ({
            let start = RestoreState::start(target, version, data);
            let state = run(start, events);
            let wrote = sent(start, events);
            let told = announcement(target, version, data);
            &&& state.valid()
            &&& same_load(state, start)
            &&& state.commands().len() == told.len()
            &&& forall|i: int|
                0 <= i < told.len() ==> (#[trigger] state.commands()[i]).0 == told[i]
            &&& match state.phase {
                RestorePhase::Command { at } => wrote == told.take(at as int),
                RestorePhase::CommandReply { at } => wrote == told.take(at + 1),
                RestorePhase::Failed(_) => wrote.is_prefix_of(told) || told.is_prefix_of(wrote),
                _ => told.is_prefix_of(wrote),
            }
            &&& state.offset > 0 ==> told.is_prefix_of(wrote)
        }),
    decreases events.len(),
{
    let start = RestoreState::start(target, version, data);
    let told = announcement(target, version, data);
    let size = start.stream.len() as int;
    law_restore_stays_valid_and_ends(start, events);
    lemma_four_bytes(size as u32);
    let state = run(start, events);
    assert forall|i: int| 0 <= i < told.len() implies (#[trigger] state.commands()[i]).0
        == told[i] by {
        assert(state.commands()[i].0 =~= told[i]);
    }
    if events.len() == 0 {
        assert(told.take(0) =~= Seq::<Seq<u8>>::empty());
    } else {
        lemma_announcement(target, version, data, events.drop_last());
        let before = run(start, events.drop_last());
        let wrote = sent(start, events.drop_last());
        assert(told.is_prefix_of(told));
        assert(forall|bytes: Seq<u8>|
            told.is_prefix_of(wrote) ==> told.is_prefix_of(#[trigger] wrote.push(bytes)));
        match before.phase {
            RestorePhase::Command { at } => {
                assert(told.take(at as int).push(told[at as int]) =~= told.take(at + 1));
                assert(told.take(at as int).is_prefix_of(told));
            },
            RestorePhase::CommandReply { at } => {
                assert(told.take(told.len() as int) =~= told);
                assert(told.take(at + 1).is_prefix_of(told));
            },
            _ => {},
        }
    }
}

/// Whatever the line and the instrument do, a restore to project `index` sends
/// `q`, the version, the size of the data in four bytes and `index`, and a
/// restore of the settings sends `r` and the size of the data and their version
/// byte in four bytes, before it sends the first block or finishes, and nothing
/// else before that.
pub proof fn law_loading_announces_what_comes(
    target: Target,
    version: u8,
    data: Seq<u8>,
    events: Seq<Event<Seq<u8>>>,
)
    requires
        can_be_loaded(target, data),
        feasible(RestoreState::start(target, version, data), events),
    ensures
        ({
            let start = RestoreState::start(target, version, data);
            let state = run(start, events);
            let action = state.request();
            let wrote = sent(start, events);
            let told: Seq<Seq<u8>> = match target {
                Target::Project { index } => seq![
                    seq![0x71],
                    seq![version],
                    four_bytes(data.len() as int),
                    seq![index],
                ],
                Target::Settings => seq![seq![0x72], four_bytes(data.len() as int + 1)],
            };
            &&& wrote.is_prefix_of(told) || told.is_prefix_of(wrote)
            &&& action is Write && wrote.len() < told.len() ==> action->Write_0
                == told[wrote.len() as int]
            &&& taken(start, events).len() > 0 || action is Finish || state.phase is Block
                ==> told.is_prefix_of(wrote)
            &&& action is Finish ==> number_of(four_bytes(taken(start, events).len() as int))
                == taken(start, events).len() && told.contains(
                four_bytes(taken(start, events).len() as int),
            )
        }),
{
    let start = RestoreState::start(target, version, data);
    let state = run(start, events);
    let wrote = sent(start, events);
    let told = announcement(target, version, data);
    lemma_announcement(target, version, data, events);
    crate::restore_laws::law_instrument_takes_the_stream_in_order(target, version, data, events);
    lemma_four_bytes(start.stream.len() as u32);
    assert(told.is_prefix_of(told));
    match state.phase {
        RestorePhase::Command { at } => {
            assert(told.take(at as int).is_prefix_of(told));
        },
        RestorePhase::CommandReply { at } => {
            assert(told.take(at + 1).is_prefix_of(told));
        },
        RestorePhase::Finished => {
            assert(told[if target is Project {
                2int
            } else {
                1int
            }] == four_bytes(start.stream.len() as int));
        },
        _ => {},
    }
}

/// Behind the announcement, whatever the line and the instrument do, a restore
/// sends only two things. One is the next of the bytes that the instrument has
/// not accepted yet, ninety-six of them or all that are left. The other is the
/// CRC of just these, right after `c` was read.
pub proof fn law_loading_sends_blocks_and_crcs(
    target: Target,
    version: u8,
    data: Seq<u8>,
    events: Seq<Event<Seq<u8>>>,
)
    requires
        can_be_loaded(target, data),
        feasible(RestoreState::start(target, version, data), events),
        run(RestoreState::start(target, version, data), events).request() is Write,
        sent(RestoreState::start(target, version, data), events).len() >= (if target is Project {
            4int
        } else {
            2int
        }),
    ensures
        ({
            let start = RestoreState::start(target, version, data);
            let bytes = run(start, events).request()->Write_0;
            let stream = match target {
                Target::Project { .. } => data,
                Target::Settings => seq![version] + data,
            };
            let block = piece(stream, taken(start, events).len() as int);
            ||| bytes == block && !(events.last() == Event::Received(seq![0x63u8]))
            ||| bytes == four_bytes(crc32_of(block) as int) && events.len() > 0 && events.last()
                == Event::Received(seq![0x63u8])
        }),
{
    let start = RestoreState::start(target, version, data);
    let state = run(start, events);
    let told = announcement(target, version, data);
    lemma_announcement(target, version, data, events);
    crate::restore_laws::law_instrument_takes_the_stream_in_order(target, version, data, events);
    assert(state.phase is Block || state.phase is Crc);
    assert(events.len() > 0);
    law_restore_stays_valid_and_ends(start, events.drop_last());
    lemma_what_is_sent(run(start, events.drop_last()), events.last());
}

/// A block or its CRC is about to be sent.
proof fn lemma_what_is_sent(state: RestoreState, event: Event<Seq<u8>>)
    requires
        state.valid(),
        can_follow(state.request(), event),
        state.next(event).phase is Block || state.next(event).phase is Crc,
    ensures
        ({
            let next = state.next(event);
            let block = piece(next.stream, next.offset as int);
            &&& next.phase is Block ==> next.request() == Action::Write(block) && event
                != Event::Received(seq![0x63u8])
            &&& next.phase is Crc ==> next.request() == Action::Write(
                four_bytes(crc32_of(block) as int),
            ) && event == Event::Received(seq![0x63u8])
        }),
{
    let next = state.next(event);
    let heard = event->Received_0;
    assert(next.block() == piece(next.stream, next.offset as int));
    lemma_four_bytes(crc32_of(next.block()));
    assert(event is Received);
    assert(heard =~= seq![heard[0]]);
    assert(seq![0x63u8][0] == 0x63);
}

/// A verdict is followed: after `o` comes the next block or, behind the last,
/// the end; after `w` the same block once more, five times at most.
pub proof fn law_verdicts_are_followed(state: RestoreState, verdict: u8)
    requires
        state.valid(),
        state.phase is Verdict,
    ensures
        ({
            let next = state.next(Event::Received(seq![verdict]));
            let block = piece(state.stream, state.offset as int);
            let behind = (state.offset + block.len()) as int;
            &&& verdict == 0x6f && behind < state.stream.len() ==> next.request()
                == Action::Write(piece(state.stream, behind))
            &&& verdict == 0x6f && behind == state.stream.len() ==> next.request()
                == Action::<Seq<u8>>::Read(1)
            &&& verdict == 0x77 && state.retries < 5 ==> next.request() == Action::Write(block)
                && next.retries == state.retries + 1
            &&& verdict == 0x77 && state.retries >= 5 ==> next.request() is Fail
            &&& verdict != 0x6f && verdict != 0x77 ==> next.request() is Fail
        }),
{
    assert(seq![verdict][0] == verdict);
}

/// The first thing that a restore sends is `q` for a project and `r` for the
/// settings, however large they are.
pub proof fn law_loading_begins_with_its_command(target: Target, version: u8, data: Seq<u8>)
    ensures
        RestoreState::start(target, version, data).request() == match target {
            Target::Project { .. } => Action::Write(seq![0x71u8]),
            Target::Settings => Action::Write(seq![0x72u8]),
        },
{
}

} // verus!
