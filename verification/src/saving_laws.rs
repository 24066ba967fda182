//! What a backup sends, and what comes of it in a conversation with an
//! instrument.

use vstd::prelude::*;

#[allow(unused_imports)]
use crate::backup::{law_step_keeps_valid, BackupPhase, BackupState};
#[allow(unused_imports)]
use crate::backup_laws::{
    can_hold, disk_after, exists_on_instrument, feasible, honest, lemma_honest_step,
    law_backup_stays_valid_and_ends, law_interrupted_backup_keeps_the_earlier_file, on_track, run,
    Holding,
};
#[allow(unused_imports)]
use crate::crc::crc32_of;
#[allow(unused_imports)]
use crate::device::{
    acknowledgement, four_bytes, lemma_acknowledgement, lemma_four_bytes, lemma_front,
    lemma_one_heard, number_of, piece, Doing, Instrument,
};
#[allow(unused_imports)]
use crate::protocol::{can_follow, Action, Event, Failure, Target, ACK};

verus! {

/// What a backup has sent in the course of a run, write by write.
pub open spec fn sent(start: BackupState, events: Seq<Event<Seq<u8>>>) -> Seq<Seq<u8>>
    decreases events.len(),
{
    if events.len() == 0 {
        Seq::empty()
    } else {
        let before = sent(start, events.drop_last());
        match (run(start, events.drop_last()).request(), events.last()) {
            (Action::Write(bytes), Event::Done) => before.push(bytes),
            _ => before,
        }
    }
}

/// An instrument with sixteen projects and settings that can be saved.
pub open spec fn can_be_saved(instrument: Instrument) -> bool {
    &&& instrument.projects.len() == 16
    &&& forall|i: int|
        0 <= i < 16 ==> {
            &&& (#[trigger] instrument.projects[i]).version >= 10
            &&& instrument.projects[i].contents.len() <= 8388608
        }
    &&& 1 <= instrument.settings.contents.len() <= 8388608
    &&& instrument.settings.contents[0] == instrument.settings.version
    &&& instrument.settings.version >= 9
}

/// The instrument after a run.
pub open spec fn talked_to(
    instrument: Instrument,
    start: BackupState,
    events: Seq<Event<Seq<u8>>>,
) -> Instrument
    decreases events.len(),
{
    if events.len() == 0 {
        instrument
    } else {
        talked_to(instrument, start, events.drop_last()).after(
            run(start, events.drop_last()).request(),
            events.last(),
        )
    }
}

/// Each event of the run is what the instrument brings about.
pub open spec fn is_conversation(
    instrument: Instrument,
    start: BackupState,
    events: Seq<Event<Seq<u8>>>,
) -> bool
    decreases events.len(),
{
    events.len() > 0 ==> {
        &&& is_conversation(instrument, start, events.drop_last())
        &&& talked_to(instrument, start, events.drop_last()).brings(
            run(start, events.drop_last()).request(),
            events.last(),
        )
    }
}

/// What the instrument says of the contents from `from` on before it waits.
spec fn next_words(contents: Seq<u8>, from: int) -> Seq<u8> {
    if from < contents.len() {
        piece(contents, from)
    } else {
        acknowledgement()
    }
}

/// What it is doing then.
spec fn next_doing(what: Target, contents: Seq<u8>, from: int) -> Doing {
    if from < contents.len() {
        Doing::Sending { what, from, asked: false }
    } else {
        Doing::Idle
    }
}

/// What the instrument says between the last acknowledgement and the first
/// block.
spec fn heading(what: Target, held: Holding) -> Seq<u8> {
    match what {
        Target::Project { .. } => seq![held.version] + four_bytes(held.contents.len() as int),
        Target::Settings => four_bytes(held.contents.len() as int),
    }
}

/// Backup and instrument are at the same point of their conversation.
spec fn in_step(state: BackupState, instrument: Instrument, held: Holding) -> bool {
    let what = state.target;
    let contents = held.contents;
    let from = state.data.len() as int;
    let line = state.line.len() as int;
    &&& on_track(state, held)
    &&& instrument.holds(what) == held
    &&& state.retries == 0
    &&& what is Settings && from > 0 ==> (state.unchecked <==> held.version == 9)
    &&& match state.phase {
        BackupPhase::Command { at } => {
            &&& instrument.output == Seq::<u8>::empty()
            &&& instrument.doing == if at == 0 {
                Doing::Idle
            } else {
                Doing::AwaitIndex
            }
        },
        BackupPhase::CommandReply { at } => if what is Project && at == 0 {
            &&& instrument.output == acknowledgement().skip(line)
            &&& instrument.doing is AwaitIndex
        } else {
            &&& instrument.output == acknowledgement().skip(line) + (heading(what, held)
                + next_words(contents, 0))
            &&& instrument.doing == next_doing(what, contents, 0)
        },
        BackupPhase::Version => {
            &&& instrument.output == heading(what, held) + next_words(contents, 0)
            &&& instrument.doing == next_doing(what, contents, 0)
        },
        BackupPhase::Size => {
            &&& instrument.output == four_bytes(contents.len() as int) + next_words(contents, 0)
            &&& instrument.doing == next_doing(what, contents, 0)
        },
        BackupPhase::Settle | BackupPhase::Block => {
            &&& instrument.output == piece(contents, from).skip(state.block.len() as int)
            &&& instrument.doing == (Doing::Sending { what, from, asked: false })
        },
        BackupPhase::CrcRequest => {
            &&& held.version >= 10
            &&& instrument.output == Seq::<u8>::empty()
            &&& instrument.doing == (Doing::Sending { what, from, asked: false })
        },
        BackupPhase::Crc => {
            &&& held.version >= 10
            &&& instrument.output == four_bytes(crc32_of(piece(contents, from)) as int)
            &&& instrument.doing == (Doing::Sending { what, from, asked: true })
        },
        BackupPhase::Acceptance => {
            &&& held.version >= 10
            &&& instrument.output == Seq::<u8>::empty()
            &&& instrument.doing == (Doing::Sending { what, from, asked: true })
        },
        BackupPhase::UncheckedAcceptance => {
            &&& held.version == 9
            &&& instrument.output == Seq::<u8>::empty()
            &&& instrument.doing == (Doing::Sending { what, from, asked: false })
        },
        BackupPhase::Completion => {
            &&& instrument.output == acknowledgement().skip(line)
            &&& instrument.doing is Idle
        },
        _ => instrument.is_at_rest(),
    }
}

/// The block that is whole is the piece that the instrument said.
proof fn lemma_block_is_piece(state: BackupState, held: Holding)
    requires
        on_track(state, held),
        state.phase is CrcRequest || state.phase is Crc || state.phase is Acceptance
            || state.phase is UncheckedAcceptance,
    ensures
        state.block == piece(held.contents, state.data.len() as int),
{
}

/// What the instrument brings is what an honest one sends.
proof fn lemma_brings_is_honest(
    state: BackupState,
    instrument: Instrument,
    held: Holding,
    event: Event<Seq<u8>>,
)
    requires
        in_step(state, instrument, held),
        instrument.brings(state.request(), event),
    ensures
        honest(state, held, event),
        can_follow(state.request(), event),
{
    let contents = held.contents;
    lemma_acknowledgement();
    lemma_four_bytes(contents.len() as u32);
    match state.phase {
        BackupPhase::CommandReply { .. } | BackupPhase::Completion => {
            let bytes = event->Received_0;
            assert(bytes[0] == instrument.output[0]);
            assert(bytes =~= seq![ACK@[state.line.len() as int]]);
        },
        BackupPhase::Version => {
            let bytes = event->Received_0;
            assert(bytes[0] == instrument.output[0]);
            assert(bytes =~= seq![held.version]);
        },
        BackupPhase::Size => {
            lemma_front(
                four_bytes(contents.len() as int),
                next_words(contents, 0),
                event->Received_0,
            );
        },
        BackupPhase::Block => {
            let bytes = event->Received_0;
            let from = (state.data.len() + state.block.len()) as int;
            assert forall|i: int| 0 <= i < bytes.len() implies bytes[i] == contents[from + i] by {
                assert(bytes[i] == instrument.output[i]);
            }
            assert(bytes =~= contents.subrange(from, from + bytes.len()));
        },
        BackupPhase::Crc => {
            let crc = crc32_of(piece(contents, state.data.len() as int));
            lemma_block_is_piece(state, held);
            lemma_four_bytes(crc);
            lemma_front(four_bytes(crc as int), Seq::empty(), event->Received_0);
            assert(four_bytes(crc as int) + Seq::<u8>::empty() =~= four_bytes(crc as int));
        },
        _ => {},
    }
}

proof fn lemma_command_keeps_in_step(
    state: BackupState,
    instrument: Instrument,
    held: Holding,
    event: Event<Seq<u8>>,
)
    requires
        in_step(state, instrument, held),
        can_be_saved(instrument),
        state.phase is Command,
        event is Done,
    ensures
        in_step(state.next(event), instrument.after(state.request(), event), held),
        instrument.after(state.request(), event).holds_the_same(instrument),
{
    let what = state.target;
    let contents = held.contents;
    let next = state.next(event);
    let later = instrument.after(state.request(), event);
    let bytes = state.request()->Write_0;
    lemma_honest_step(state, held, event);
    lemma_acknowledgement();
    assert(bytes =~= seq![bytes[0]]);
    lemma_one_heard(instrument, bytes[0]);
    let rest = heading(what, held) + next_words(contents, 0);
    if what is Project && state.phase->Command_at == 0 {
        assert(later.output =~= acknowledgement());
    } else {
        assert(later.output =~= acknowledgement() + rest);
    }
}

proof fn lemma_word_keeps_in_step(
    state: BackupState,
    instrument: Instrument,
    held: Holding,
    event: Event<Seq<u8>>,
)
    requires
        in_step(state, instrument, held),
        can_be_saved(instrument),
        state.phase is CrcRequest || state.phase is Acceptance
            || state.phase is UncheckedAcceptance,
        event is Done,
    ensures
        in_step(state.next(event), instrument.after(state.request(), event), held),
        instrument.after(state.request(), event).holds_the_same(instrument),
{
    let what = state.target;
    let contents = held.contents;
    let next = state.next(event);
    let later = instrument.after(state.request(), event);
    let bytes = state.request()->Write_0;
    lemma_honest_step(state, held, event);
    lemma_acknowledgement();
    assert(bytes =~= seq![bytes[0]]);
    lemma_one_heard(instrument, bytes[0]);
    let from = (state.data.len() + state.block.len()) as int;
    lemma_block_is_piece(state, held);
    if state.phase is CrcRequest {
        assert(later.output =~= four_bytes(
            crc32_of(piece(contents, state.data.len() as int)) as int,
        ));
    } else {
        assert(next.data.len() == from);
        assert(later.output =~= next_words(contents, from));
        assert(next_words(contents, from).skip(0) =~= next_words(contents, from));
        if state.data.len() > 0 {
            assert((state.data + state.block)[0] == state.data[0]);
        } else if what is Settings {
            assert((state.data + state.block)[0] == contents[0]);
        }
    }
}

proof fn lemma_reply_keeps_in_step(
    state: BackupState,
    instrument: Instrument,
    held: Holding,
    event: Event<Seq<u8>>,
)
    requires
        in_step(state, instrument, held),
        instrument.brings(state.request(), event),
        state.phase is CommandReply || state.phase is Completion,
    ensures
        in_step(state.next(event), instrument.after(state.request(), event), held),
{
    let what = state.target;
    let contents = held.contents;
    let later = instrument.after(state.request(), event);
    lemma_brings_is_honest(state, instrument, held, event);
    lemma_honest_step(state, held, event);
    lemma_acknowledgement();
    let line = state.line.len() as int;
    let rest = heading(what, held) + next_words(contents, 0);
    assert(acknowledgement().skip(line).skip(1) =~= acknowledgement().skip(line + 1));
    assert((acknowledgement().skip(line) + rest).skip(1) =~= acknowledgement().skip(line + 1)
        + rest);
    assert(Seq::<u8>::empty() + rest =~= rest);
    assert(rest =~= rest.skip(0));
    assert(later.output == instrument.output.skip(1));
}

proof fn lemma_heading_keeps_in_step(
    state: BackupState,
    instrument: Instrument,
    held: Holding,
    event: Event<Seq<u8>>,
)
    requires
        in_step(state, instrument, held),
        instrument.brings(state.request(), event),
        state.phase is Version || state.phase is Size,
    ensures
        in_step(state.next(event), instrument.after(state.request(), event), held),
{
    let what = state.target;
    let contents = held.contents;
    let later = instrument.after(state.request(), event);
    lemma_brings_is_honest(state, instrument, held, event);
    lemma_honest_step(state, held, event);
    lemma_acknowledgement();
    let words = next_words(contents, 0);
    lemma_four_bytes(contents.len() as u32);
    if state.phase is Version {
        assert(later.output =~= four_bytes(contents.len() as int) + words);
    } else {
        lemma_front(four_bytes(contents.len() as int), words, event->Received_0);
        assert(words.skip(0) =~= words);
    }
}

proof fn lemma_block_keeps_in_step(
    state: BackupState,
    instrument: Instrument,
    held: Holding,
    event: Event<Seq<u8>>,
)
    requires
        in_step(state, instrument, held),
        instrument.brings(state.request(), event),
        state.phase is Block || state.phase is Crc,
    ensures
        in_step(state.next(event), instrument.after(state.request(), event), held),
{
    let what = state.target;
    let contents = held.contents;
    let later = instrument.after(state.request(), event);
    lemma_brings_is_honest(state, instrument, held, event);
    lemma_honest_step(state, held, event);
    lemma_acknowledgement();
    let next = state.next(event);
    let from = state.data.len() as int;
    if state.phase is Block {
        assert(later.output =~= piece(contents, from).skip(next.block.len() as int));
        if next.block.len() == state.block_size() {
            assert(later.output =~= Seq::<u8>::empty());
            if state.leads_settings() {
                assert(next.block[0] == contents[0]);
            }
        }
    } else {
        assert(later.output =~= Seq::<u8>::empty());
    }
}

proof fn lemma_step_keeps_in_step(
    state: BackupState,
    instrument: Instrument,
    held: Holding,
    event: Event<Seq<u8>>,
)
    requires
        in_step(state, instrument, held),
        can_be_saved(instrument),
        instrument.brings(state.request(), event),
    ensures
        can_follow(state.request(), event),
        in_step(state.next(event), instrument.after(state.request(), event), held),
        instrument.after(state.request(), event).holds_the_same(instrument),
{
    lemma_brings_is_honest(state, instrument, held, event);
    match state.phase {
        BackupPhase::CommandReply { .. } | BackupPhase::Completion => {
            lemma_reply_keeps_in_step(state, instrument, held, event);
        },
        BackupPhase::Version | BackupPhase::Size => {
            lemma_heading_keeps_in_step(state, instrument, held, event);
        },
        BackupPhase::Block | BackupPhase::Crc => {
            lemma_block_keeps_in_step(state, instrument, held, event);
        },
        BackupPhase::Settle | BackupPhase::Temporary | BackupPhase::Rename => {
            lemma_honest_step(state, held, event);
        },
        BackupPhase::Command { .. } => {
            lemma_command_keeps_in_step(state, instrument, held, event);
        },
        _ => {
            lemma_word_keeps_in_step(state, instrument, held, event);
        },
    }
}

proof fn lemma_conversation(
    instrument: Instrument,
    target: Target,
    events: Seq<Event<Seq<u8>>>,
)
    requires
        can_be_saved(instrument),
        exists_on_instrument(target),
        instrument.is_at_rest(),
        is_conversation(instrument, BackupState::start(target), events),
    ensures
        ({
            let start = BackupState::start(target);
            let later = talked_to(instrument, start, events);
            &&& feasible(start, events)
            &&& in_step(run(start, events), later, instrument.holds(target))
            &&& run(start, events).target == target
            &&& later.holds_the_same(instrument)
        }),
    decreases events.len(),
{
    let start = BackupState::start(target);
    let held = instrument.holds(target);
    if events.len() == 0 {
        assert(ACK@.take(0) == Seq::<u8>::empty());
        assert(held.contents.take(0) == Seq::<u8>::empty());
        assert(held.contents.subrange(0, 0) == Seq::<u8>::empty());
    } else {
        lemma_conversation(instrument, target, events.drop_last());
        let before = talked_to(instrument, start, events.drop_last());
        lemma_step_keeps_in_step(run(start, events.drop_last()), before, held, events.last());
        law_step_keeps_valid(run(start, events.drop_last()), events.last());
    }
}

/// The instrument always has what is read next.
proof fn lemma_never_stuck(state: BackupState, instrument: Instrument, held: Holding) -> (event:
    Event<Seq<u8>>)
    requires
        in_step(state, instrument, held),
        !(state.phase is Finished),
    ensures
        instrument.brings(state.request(), event),
{
    lemma_acknowledgement();
    match state.request() {
        Action::Read(count) => {
            assert(instrument.output.len() >= count);
            Event::Received(instrument.output.take(count as int))
        },
        Action::ReadSome(count) => {
            assert(instrument.output.len() >= 1);
            Event::Received(instrument.output.take(1))
        },
        _ => Event::Done,
    }
}

/// Saving saves what the instrument holds. Talk to an instrument that answers
/// the bytes that it hears, over a sound line. The backup never fails and is never
/// stuck until it has finished. Then the file on the disk is the version of what
/// was asked for, its size and its contents, lowest byte first, and the CRC of
/// these contents; the settings go without the version byte that leads them. The
/// instrument holds what it held before and waits for the next command.
pub proof fn law_saving_saves_what_is_held(
    instrument: Instrument,
    target: Target,
    events: Seq<Event<Seq<u8>>>,
    disk: Map<Seq<char>, Seq<u8>>,
    name: Seq<char>,
)
    requires
        can_be_saved(instrument),
        instrument.is_at_rest(),
        target matches Target::Project { index } ==> index < 16,
        is_conversation(instrument, BackupState::start(target), events),
    ensures
        ({
            let start = BackupState::start(target);
            let later = talked_to(instrument, start, events);
            let action = run(start, events).request();
            let kept = match target {
                Target::Project { index } => instrument.projects[index as int].contents,
                Target::Settings => instrument.settings.contents.skip(1),
            };
            let version = match target {
                Target::Project { index } => instrument.projects[index as int].version,
                Target::Settings => instrument.settings.version,
            };
            let file = seq![version] + four_bytes(kept.len() as int) + kept + four_bytes(
                crc32_of(kept) as int,
            );
            let after = disk_after(disk, name, None, start, events);
            &&& !(action is Fail)
            &&& !(action is Finish) ==> exists|event: Event<Seq<u8>>|
                later.brings(action, event)
            &&& later.holds_the_same(instrument)
            &&& action is Finish ==> {
                &&& later.is_at_rest()
                &&& after.contains_key(name)
                &&& after[name] == file
            }
        }),
{
    let start = BackupState::start(target);
    let state = run(start, events);
    let later = talked_to(instrument, start, events);
    let held = instrument.holds(target);
    lemma_conversation(instrument, target, events);
    if state.phase is Finished {
        assert(held.contents.take(held.contents.len() as int) == held.contents);
        law_interrupted_backup_keeps_the_earlier_file(disk, name, None, target, events);
        let kept = state.payload();
        lemma_four_bytes(kept.len() as u32);
        lemma_four_bytes(crc32_of(kept));
    } else {
        let event = lemma_never_stuck(state, later, held);
    }
}

/// The commands for a target: `j` and the index of a project, or `s`.
pub open spec fn saving_commands(target: Target) -> Seq<Seq<u8>> {
    match target {
        Target::Project { index } => seq![seq![0x6a], seq![index]],
        Target::Settings => seq![seq![0x73]],
    }
}

proof fn lemma_commands(target: Target, events: Seq<Event<Seq<u8>>>)
    requires
        exists_on_instrument(target),
        feasible(BackupState::start(target), events),
    ensures
        ({
            let state = run(BackupState::start(target), events);
            let wrote = sent(BackupState::start(target), events);
            let commands = saving_commands(target);
            &&& state.valid()
            &&& state.target == target
            &&& match state.phase {
                BackupPhase::Command { at } => wrote == commands.take(at as int),
                BackupPhase::CommandReply { at } => wrote == commands.take(at + 1),
                BackupPhase::Version | BackupPhase::Size => wrote == commands,
                BackupPhase::Failed(_) => wrote.is_prefix_of(commands) || commands.is_prefix_of(
                    wrote,
                ),
                _ => commands.is_prefix_of(wrote),
            }
        }),
    decreases events.len(),
{
    let start = BackupState::start(target);
    let commands = saving_commands(target);
    law_backup_stays_valid_and_ends(target, events);
    if events.len() == 0 {
        assert(commands.take(0) =~= Seq::<Seq<u8>>::empty());
    } else {
        lemma_commands(target, events.drop_last());
        let before = run(start, events.drop_last());
        let wrote = sent(start, events.drop_last());
        match before.phase {
            BackupPhase::Command { at } => {
                assert(commands[at as int] =~= before.request()->Write_0);
                assert(commands.take(at as int).push(commands[at as int]) =~= commands.take(
                    at + 1,
                ));
                assert(commands.take(at as int).is_prefix_of(commands));
            },
            BackupPhase::CommandReply { at } => {
                assert(commands.take(commands.len() as int) =~= commands);
                assert(commands.take(at + 1).is_prefix_of(commands));
            },
            _ => {
                assert(commands.is_prefix_of(commands));
                assert(forall|bytes: Seq<u8>|
                    commands.is_prefix_of(wrote) ==> commands.is_prefix_of(
                        #[trigger] wrote.push(bytes),
                    ));
            },
        }
    }
}

/// Whatever the line and the instrument do, a backup of project `index` sends the
/// byte `j` and then the byte `index`, one of the settings the byte `s`, and
/// nothing else before it reads a version or a size.
pub proof fn law_saving_asks_for_the_target(target: Target, events: Seq<Event<Seq<u8>>>)
    requires
        target matches Target::Project { index } ==> index < 16,
        feasible(BackupState::start(target), events),
    ensures
        ({
            let start = BackupState::start(target);
            let state = run(start, events);
            let action = state.request();
            let wrote = sent(start, events);
            let asked: Seq<Seq<u8>> = match target {
                Target::Project { index } => seq![seq![0x6a], seq![index]],
                Target::Settings => seq![seq![0x73]],
            };
            &&& wrote.is_prefix_of(asked) || asked.is_prefix_of(wrote)
            &&& action is Write && wrote.len() < asked.len() ==> action->Write_0
                == asked[wrote.len() as int]
            &&& state.phase is Version ==> wrote == asked
            &&& state.phase is Size || action == Action::<Seq<u8>>::Read(4) ==> asked.is_prefix_of(
                wrote,
            )
            &&& action is ReadSome || action is WriteTemporary || action is Finish
                || state.data.len() > 0 ==> asked.is_prefix_of(wrote)
        }),
{
    let start = BackupState::start(target);
    let state = run(start, events);
    lemma_commands(target, events);
    let commands = saving_commands(target);
    assert(commands.is_prefix_of(commands));
    match state.phase {
        BackupPhase::Command { at } => {
            assert(commands[at as int] =~= state.request()->Write_0);
            assert(commands.take(at as int).is_prefix_of(commands));
        },
        BackupPhase::CommandReply { at } => {
            assert(commands.take(at + 1).is_prefix_of(commands));
        },
        BackupPhase::Failed(_) => {
            if state.data.len() > 0 {
                lemma_data_after_commands(target, events);
            }
        },
        _ => {},
    }
}

/// Data comes after the commands.
proof fn lemma_data_after_commands(target: Target, events: Seq<Event<Seq<u8>>>)
    requires
        exists_on_instrument(target),
        feasible(BackupState::start(target), events),
        run(BackupState::start(target), events).data.len() > 0,
    ensures
        saving_commands(target).is_prefix_of(sent(BackupState::start(target), events)),
    decreases events.len(),
{
    let start = BackupState::start(target);
    let commands = saving_commands(target);
    lemma_commands(target, events);
    if events.len() > 0 {
        let before = run(start, events.drop_last());
        let wrote = sent(start, events.drop_last());
        lemma_commands(target, events.drop_last());
        if before.data.len() > 0 {
            lemma_data_after_commands(target, events.drop_last());
            assert(forall|bytes: Seq<u8>|
                commands.is_prefix_of(wrote) ==> commands.is_prefix_of(
                    #[trigger] wrote.push(bytes),
                ));
        }
    }
}

/// Backups of different projects send different bytes.
pub proof fn law_projects_are_told_apart(
    one: u8,
    other: u8,
    events: Seq<Event<Seq<u8>>>,
    other_events: Seq<Event<Seq<u8>>>,
)
    requires
        one < 16,
        other < 16,
        one != other,
        feasible(BackupState::start(Target::Project { index: one }), events),
        feasible(BackupState::start(Target::Project { index: other }), other_events),
        run(BackupState::start(Target::Project { index: one }), events).request()
            is WriteTemporary,
        run(BackupState::start(Target::Project { index: other }), other_events).request()
            is WriteTemporary,
    ensures
        sent(BackupState::start(Target::Project { index: one }), events) != sent(
            BackupState::start(Target::Project { index: other }),
            other_events,
        ),
{
    law_saving_asks_for_the_target(Target::Project { index: one }, events);
    law_saving_asks_for_the_target(Target::Project { index: other }, other_events);
    let a: Seq<Seq<u8>> = seq![seq![0x6a], seq![one]];
    let b: Seq<Seq<u8>> = seq![seq![0x6a], seq![other]];
    assert(a[1][0] != b[1][0]);
    let wrote = sent(BackupState::start(Target::Project { index: one }), events);
    assert(wrote[1] == a[1]);
    assert(sent(BackupState::start(Target::Project { index: other }), other_events)[1] == b[1]);
}

/// After the commands a backup sends single bytes, and each for a reason. `c` and
/// `a` come right after the last bytes of a block, `a` only where the settings
/// are led by the version without CRCs. `o` comes right after four bytes that are
/// the CRC of the block, `w` right after four that are not.
pub proof fn law_each_word_has_its_reason(target: Target, events: Seq<Event<Seq<u8>>>)
    requires
        target matches Target::Project { index } ==> index < 16,
        feasible(BackupState::start(target), events),
        run(BackupState::start(target), events).request() is Write,
        sent(BackupState::start(target), events).len() >= (if target is Project {
            2int
        } else {
            1int
        }),
    ensures
        ({
            let start = BackupState::start(target);
            let state = run(start, events);
            let word = state.request()->Write_0;
            let asked = run(start, events.drop_last()).request();
            let heard = events.last()->Received_0;
            &&& events.len() > 0
            &&& events.last() is Received
            &&& word.len() == 1
            &&& word[0] == 0x63 || word[0] == 0x6f || word[0] == 0x77 || word[0] == 0x61
            &&& word[0] == 0x63 || word[0] == 0x61 ==> asked is ReadSome
            &&& word[0] == 0x61 ==> target is Settings && (state.data + state.block)[0] == 9
            &&& word[0] == 0x6f ==> asked == Action::<Seq<u8>>::Read(4) && number_of(heard)
                == crc32_of(state.block)
            &&& word[0] == 0x77 ==> asked == Action::<Seq<u8>>::Read(4) && number_of(heard)
                != crc32_of(state.block)
        }),
{
    let start = BackupState::start(target);
    lemma_commands(target, events);
    if events.len() > 0 {
        lemma_commands(target, events.drop_last());
        let before = run(start, events.drop_last());
        if before.phase is Crc && events.last() is Received {
            let heard = events.last()->Received_0;
            assert(number_of(heard) == crate::little_endian::u32_from_le(heard));
        }
    }
}

/// What `c` asks for is answered: right after it four bytes are read. If they are
/// the CRC of the block, the next byte is `o`, unless that block shows a version
/// of settings that nobody can read, which fails the backup; if not, the next
/// byte is `w`.
pub proof fn law_each_crc_is_answered(state: BackupState, heard: Seq<u8>)
    requires
        state.valid(),
        state.request() == Action::Write(seq![0x63u8]),
        heard.len() == 4,
    ensures
        ({
            let reading = state.next(Event::Done);
            let judged = reading.next(Event::Received(heard));
            &&& reading.request() == Action::<Seq<u8>>::Read(4)
            &&& reading.block == state.block && reading.data == state.data
            &&& number_of(heard) != crc32_of(state.block) ==> judged.request() == Action::Write(
                seq![0x77u8],
            )
            &&& number_of(heard) == crc32_of(state.block) ==> judged.request()
                == if state.target is Settings && state.data.len() == 0 && state.block[0] < 9 {
                Action::Fail(Failure::UnsupportedSettingsVersion { version: state.block[0] })
            } else {
                Action::Write(seq![0x6fu8])
            }
        }),
{
    assert(state.request()->Write_0[0] == 0x63);
    assert(number_of(heard) == crate::little_endian::u32_from_le(heard));
}

/// The data grows by the block that was read, and only as `o` is sent, or `a`
/// where the settings are led by the version without CRCs. It never grows as `w`
/// is sent.
pub proof fn law_data_grows_with_the_right_word(state: BackupState, event: Event<Seq<u8>>)
    requires
        state.valid(),
        can_follow(state.request(), event),
        state.next(event).data != state.data,
    ensures
        event is Done,
        state.request() == Action::Write(seq![0x6fu8]) || {
            &&& state.request() == Action::Write(seq![0x61u8])
            &&& state.target is Settings
            &&& (state.data + state.block)[0] == 9
        },
        state.next(event).data == state.data + state.block,
{
}

/// How many blocks some bytes make.
pub open spec fn blocks(size: int) -> int {
    (size + 95) / 96
}

/// Behind the first `many` writes, write pair `i` is `c` and `o`.
pub open spec fn is_checked_pair(wrote: Seq<Seq<u8>>, many: int, i: int) -> bool {
    wrote[many + 2 * i] == seq![0x63u8] && wrote[many + 2 * i + 1] == seq![0x6fu8]
}

/// Behind the first `many` writes, write `i` is `a`.
pub open spec fn is_arrival(wrote: Seq<Seq<u8>>, many: int, i: int) -> bool {
    wrote[many + i] == seq![0x61u8]
}

/// How what was sent stands behind the commands.
spec fn words_so_far(state: BackupState, wrote: Seq<Seq<u8>>, many: int, version: u8) -> bool {
    let done = blocks(state.data.len() as int);
    let early = state.phase is Command || state.phase is CommandReply || state.phase is Version
        || state.phase is Size;
    let asked = state.phase is Crc || state.phase is Acceptance;
    early || {
        &&& state.data.len() == 96 * done || state.data.len() == state.size
        &&& version >= 10 && asked ==> {
            &&& wrote.len() == many + 2 * done + 1
            &&& wrote.last() == seq![0x63u8]
        }
        &&& version >= 10 && !asked ==> wrote.len() == many + 2 * done
        &&& version >= 10 ==> forall|i: int|
            0 <= i < done ==> #[trigger] is_checked_pair(wrote, many, i)
        &&& version == 9 ==> wrote.len() == many + done
        &&& version == 9 ==> forall|i: int|
            0 <= i < done ==> #[trigger] is_arrival(wrote, many, i)
    }
}

/// One more word.
proof fn lemma_one_more_word(
    state: BackupState,
    held: Holding,
    event: Event<Seq<u8>>,
    wrote: Seq<Seq<u8>>,
    many: int,
)
    requires
        on_track(state, held),
        state.phase is CrcRequest || state.phase is Acceptance
            || state.phase is UncheckedAcceptance,
        state.phase is UncheckedAcceptance <==> held.version == 9,
        held.version >= 9,
        event is Done,
        many >= 0,
        words_so_far(state, wrote, many, held.version),
    ensures
        state.request() is Write,
        words_so_far(
            state.next(event),
            wrote.push(state.request()->Write_0),
            many,
            held.version,
        ),
{
    let next = state.next(event);
    let now = wrote.push(state.request()->Write_0);
    let done = blocks(state.data.len() as int);
    assert(state.data.len() < state.size);
    assert(state.data.len() == 96 * done);
    assert(0 <= done);
    if !(state.phase is CrcRequest) {
        assert(next.data.len() == state.data.len() + state.block.len());
        assert(blocks(next.data.len() as int) == done + 1);
    }
    assert forall|i: int| 0 <= i < done && held.version >= 10 implies #[trigger] is_checked_pair(
        now,
        many,
        i,
    ) by {
        assert(is_checked_pair(wrote, many, i));
    }
    assert forall|i: int| 0 <= i < done && held.version == 9 implies #[trigger] is_arrival(
        now,
        many,
        i,
    ) by {
        assert(is_arrival(wrote, many, i));
    }
    if state.phase is Acceptance {
        assert(is_checked_pair(now, many, done));
    } else if state.phase is UncheckedAcceptance {
        assert(is_arrival(now, many, done));
    }
}

proof fn lemma_words(instrument: Instrument, target: Target, events: Seq<Event<Seq<u8>>>)
    requires
        can_be_saved(instrument),
        exists_on_instrument(target),
        instrument.is_at_rest(),
        is_conversation(instrument, BackupState::start(target), events),
    ensures
        words_so_far(
            run(BackupState::start(target), events),
            sent(BackupState::start(target), events),
            saving_commands(target).len() as int,
            instrument.holds(target).version,
        ),
    decreases events.len(),
{
    let start = BackupState::start(target);
    if events.len() > 0 {
        let gone = events.drop_last();
        let before = run(start, gone);
        let held = instrument.holds(target);
        let many = saving_commands(target).len() as int;
        lemma_words(instrument, target, gone);
        lemma_conversation(instrument, target, gone);
        lemma_conversation(instrument, target, events);
        lemma_commands(target, gone);
        match before.phase {
            BackupPhase::CrcRequest
            | BackupPhase::Acceptance
            | BackupPhase::UncheckedAcceptance => {
                lemma_one_more_word(before, held, events.last(), sent(start, gone), many);
            },
            _ => {
                lemma_no_word(before, events.last(), sent(start, gone), many, held.version);
            },
        }
    }
}

/// Nothing but a word counts.
proof fn lemma_no_word(
    state: BackupState,
    event: Event<Seq<u8>>,
    wrote: Seq<Seq<u8>>,
    many: int,
    version: u8,
)
    requires
        state.valid(),
        can_follow(state.request(), event),
        !(state.phase is CrcRequest),
        !(state.phase is Acceptance),
        !(state.phase is UncheckedAcceptance),
        !(state.phase is Rejection),
        !(state.next(event).phase is Failed),
        !(state.next(event).phase is Rejection),
        state.phase is Size ==> wrote.len() == many,
        words_so_far(state, wrote, many, version),
    ensures
        state.request() is Write ==> state.phase is Command,
        state.phase is Command ==> words_so_far(
            state.next(event),
            wrote.push(state.request()->Write_0),
            many,
            version,
        ),
        words_so_far(state.next(event), wrote, many, version),
{
}

/// All that a backup sends to an instrument over a sound line, byte for byte:
/// the commands, and then `c` and `o` for each block of up to ninety-six bytes,
/// or `a` where the settings have no CRCs.
pub proof fn law_all_that_saving_sends(
    instrument: Instrument,
    target: Target,
    events: Seq<Event<Seq<u8>>>,
)
    requires
        can_be_saved(instrument),
        instrument.is_at_rest(),
        target matches Target::Project { index } ==> index < 16,
        is_conversation(instrument, BackupState::start(target), events),
        run(BackupState::start(target), events).request() is Finish,
    ensures
        ({
            let wrote = sent(BackupState::start(target), events);
            let asked: Seq<Seq<u8>> = match target {
                Target::Project { index } => seq![seq![0x6a], seq![index]],
                Target::Settings => seq![seq![0x73]],
            };
            let held = instrument.holds(target);
            let many = blocks(held.contents.len() as int);
            &&& asked.is_prefix_of(wrote)
            &&& held.version >= 10 ==> {
                &&& wrote.len() == asked.len() + 2 * many
                &&& forall|i: int|
                    0 <= i < many ==> #[trigger] is_checked_pair(wrote, asked.len() as int, i)
            }
            &&& held.version == 9 ==> {
                &&& wrote.len() == asked.len() + many
                &&& forall|i: int|
                    0 <= i < many ==> #[trigger] is_arrival(wrote, asked.len() as int, i)
            }
        }),
{
    lemma_conversation(instrument, target, events);
    lemma_words(instrument, target, events);
    lemma_commands(target, events);
}

} // verus!
