//! What holds whenever a connection is tried.

use vstd::prelude::*;

#[allow(unused_imports)]
use crate::connect::{
    can_come_of, ConnectAction, ConnectEvent, ConnectPhase, ConnectState, HANDSHAKE,
    HANDSHAKE_RESPONSE, MAX_ATTEMPTS, PORT_SEARCH_TIMEOUT,
};
#[allow(unused_imports)]
use crate::discovery::{
    first_likely, is_first, is_likely, is_present, law_first_port_is_found, PortInfo, PortType,
};
#[allow(unused_imports)]
use crate::protocol::{Activity, Failure, NEWLINE};

verus! {

/// Where a run of events leads from `start`.
pub open spec fn run(
    start: ConnectState,
    events: Seq<ConnectEvent<Seq<PortInfo>>>,
) -> ConnectState
    decreases events.len(),
{
    if events.len() == 0 {
        start
    } else {
        run(start, events.drop_last()).next(events.last())
    }
}

/// Each event of the run can come of the action that it answers.
pub open spec fn feasible(start: ConnectState, events: Seq<ConnectEvent<Seq<PortInfo>>>) -> bool
    decreases events.len(),
{
    events.len() > 0 ==> {
        &&& feasible(start, events.drop_last())
        &&& can_come_of(run(start, events.drop_last()).request(), events.last())
    }
}

/// How often the line has been asked to be opened in the course of a run.
pub open spec fn times_opened(
    start: ConnectState,
    events: Seq<ConnectEvent<Seq<PortInfo>>>,
) -> nat
    decreases events.len(),
{
    let now: nat = if run(start, events).request() is Open {
        1
    } else {
        0
    };
    if events.len() == 0 {
        now
    } else {
        times_opened(start, events.drop_last()) + now
    }
}

/// The line is opened once per attempt, and so never more often than there are
/// attempts. Connecting is given up for good, short of the instrument's not
/// coming back, only when all attempts were made.
pub proof fn law_attempts_are_bounded(
    port: Seq<char>,
    events: Seq<ConnectEvent<Seq<PortInfo>>>,
)
    requires
        feasible(ConnectState::start(port), events),
    ensures
        run(ConnectState::start(port), events).valid(),
        times_opened(ConnectState::start(port), events) == run(
            ConnectState::start(port),
            events,
        ).attempt,
        times_opened(ConnectState::start(port), events) <= MAX_ATTEMPTS,
        run(ConnectState::start(port), events).phase == ConnectPhase::<Seq<u8>>::Failed(
            Failure::NoConnection,
        ) ==> times_opened(ConnectState::start(port), events) == MAX_ATTEMPTS,
    decreases events.len(),
{
    if events.len() > 0 {
        law_attempts_are_bounded(port, events.drop_last());
        let before = run(ConnectState::start(port), events.drop_last());
        assert(before.next(events.last()).valid());
        assert(!(before.phase is Failed));
    }
}

/// Connecting fails only with one of two failures.
pub proof fn law_ways_to_fail(port: Seq<char>, events: Seq<ConnectEvent<Seq<PortInfo>>>)
    requires
        feasible(ConnectState::start(port), events),
        run(ConnectState::start(port), events).phase is Failed,
    ensures
        ({
            let failure = run(ConnectState::start(port), events).phase->Failed_0;
            failure is NoConnection || failure is NotBackInTime
        }),
{
    let before = run(ConnectState::start(port), events.drop_last());
    assert(!(before.phase is Failed));
}

/// The greeting was sent, and the line that has been read so far came after it,
/// byte by byte.
proof fn lemma_line_follows_greeting(
    port: Seq<char>,
    events: Seq<ConnectEvent<Seq<PortInfo>>>,
)
    requires
        feasible(ConnectState::start(port), events),
        run(ConnectState::start(port), events).phase is Reply,
    ensures
        ({
            let state = run(ConnectState::start(port), events);
            let since = events.len() - state.line.len();
            &&& since >= 1
            &&& run(ConnectState::start(port), events.take(since - 1)).request()
                == ConnectAction::<Seq<u8>, Seq<char>>::Write(HANDSHAKE@)
            &&& events[since - 1] is Done
            &&& forall|i: int|
                0 <= i < state.line.len() ==> #[trigger] events[since + i]
                    == ConnectEvent::<Seq<PortInfo>>::Received(state.line[i])
        }),
    decreases events.len(),
{
    let start = ConnectState::start(port);
    let state = run(start, events);
    law_attempts_are_bounded(port, events);
    law_attempts_are_bounded(port, events.drop_last());
    let before = run(start, events.drop_last());
    if before.phase is Reply {
        lemma_line_follows_greeting(port, events.drop_last());
        let since = events.len() - state.line.len();
        assert(events.drop_last().take(since - 1) == events.take(since - 1));
        assert(since == events.drop_last().len() - before.line.len());
        assert(events[since - 1] == events.drop_last()[since - 1]);
        assert forall|i: int| 0 <= i < state.line.len() implies #[trigger] events[since + i]
            == ConnectEvent::<Seq<PortInfo>>::Received(state.line[i]) by {
            if i < before.line.len() {
                assert(events[since + i] == events.drop_last()[since + i]);
            }
        }
    } else {
        assert(before.phase is Greet);
        assert(state.line.len() == 0);
        assert(events.take(events.len() - 1) == events.drop_last());
    }
}

/// The instrument counts as connected only once it has been greeted and has
/// greeted back, byte for byte and with nothing else in between.
pub proof fn law_connected_only_when_greeted_back(
    port: Seq<char>,
    events: Seq<ConnectEvent<Seq<PortInfo>>>,
)
    requires
        feasible(ConnectState::start(port), events),
        run(ConnectState::start(port), events).phase is Connected,
    ensures
        ({
            let since = events.len() - HANDSHAKE_RESPONSE@.len();
            &&& since >= 1
            &&& run(ConnectState::start(port), events.take(since - 1)).request()
                == ConnectAction::<Seq<u8>, Seq<char>>::Write(HANDSHAKE@)
            &&& events[since - 1] is Done
            &&& forall|i: int|
                0 <= i < HANDSHAKE_RESPONSE@.len() ==> #[trigger] events[since + i]
                    == ConnectEvent::<Seq<PortInfo>>::Received(HANDSHAKE_RESPONSE@[i])
        }),
{
    let start = ConnectState::start(port);
    let before = run(start, events.drop_last());
    assert(before.phase is Reply);
    lemma_line_follows_greeting(port, events.drop_last());
    let since = events.len() - HANDSHAKE_RESPONSE@.len();
    let byte = events.last()->Received_0;
    assert(before.line.push(byte) == HANDSHAKE_RESPONSE@);
    assert(before.line.len() + 1 == HANDSHAKE_RESPONSE@.len());
    assert(events.drop_last().take(since - 1) == events.take(since - 1));
    assert(events[since - 1] == events.drop_last()[since - 1]);
    assert forall|i: int| 0 <= i < HANDSHAKE_RESPONSE@.len() implies #[trigger] events[since + i]
        == ConnectEvent::<Seq<PortInfo>>::Received(HANDSHAKE_RESPONSE@[i]) by {
        assert(HANDSHAKE_RESPONSE@[i] == before.line.push(byte)[i]);
        if i < before.line.len() {
            assert(events[since + i] == events.drop_last()[since + i]);
        }
    }
}

/// `event` is what comes of the next action where the line is sound and the
/// instrument greets back.
pub open spec fn honest(state: ConnectState, event: ConnectEvent<Seq<PortInfo>>) -> bool {
    match state.phase {
        ConnectPhase::Open | ConnectPhase::Settle | ConnectPhase::Greet => event is Done,
        ConnectPhase::Reply => event == ConnectEvent::<Seq<PortInfo>>::Received(
            HANDSHAKE_RESPONSE@[state.line.len() as int],
        ),
        _ => false,
    }
}

/// Each event of the run is honest.
pub open spec fn honest_run(start: ConnectState, events: Seq<ConnectEvent<Seq<PortInfo>>>) -> bool
    decreases events.len(),
{
    events.len() > 0 ==> {
        &&& honest_run(start, events.drop_last())
        &&& honest(run(start, events.drop_last()), events.last())
    }
}

/// With a sound line and an instrument that greets back, connecting succeeds at
/// the first attempt and on the port that was given: it never fails, and after
/// opening, waiting and greeting, the last byte of the reply connects it.
pub proof fn law_honest_instrument_is_connected(
    port: Seq<char>,
    events: Seq<ConnectEvent<Seq<PortInfo>>>,
)
    requires
        honest_run(ConnectState::start(port), events),
    ensures
        ({
            let state = run(ConnectState::start(port), events);
            &&& feasible(ConnectState::start(port), events)
            &&& state.port == port
            &&& state.attempt == 1
            &&& state.phase is Connected <==> events.len() == 3 + HANDSHAKE_RESPONSE@.len()
            &&& !(state.phase is Connected) ==> exists|event: ConnectEvent<Seq<PortInfo>>|
                honest(state, event)
            &&& events.len() <= 3 + HANDSHAKE_RESPONSE@.len()
        }),
{
    lemma_honest_run(port, events);
    let state = run(ConnectState::start(port), events);
    let byte = HANDSHAKE_RESPONSE@[state.line.len() as int];
    assert(state.phase is Reply ==> honest(state, ConnectEvent::Received(byte)));
    assert(state.phase is Open || state.phase is Settle || state.phase is Greet ==> honest(
        state,
        ConnectEvent::Done,
    ));
}

proof fn lemma_honest_run(port: Seq<char>, events: Seq<ConnectEvent<Seq<PortInfo>>>)
    requires
        honest_run(ConnectState::start(port), events),
    ensures
        ({
            let state = run(ConnectState::start(port), events);
            let reply = HANDSHAKE_RESPONSE@;
            &&& feasible(ConnectState::start(port), events)
            &&& state.port == port
            &&& state.attempt == 1
            &&& match state.phase {
                ConnectPhase::Open => events.len() == 0 && state.line.len() == 0,
                ConnectPhase::Settle => events.len() == 1 && state.line.len() == 0,
                ConnectPhase::Greet => events.len() == 2 && state.line.len() == 0,
                ConnectPhase::Reply => {
                    &&& events.len() == 3 + state.line.len()
                    &&& state.line.len() < reply.len()
                    &&& state.line == reply.take(state.line.len() as int)
                },
                ConnectPhase::Connected => events.len() == 3 + reply.len(),
                _ => false,
            }
        }),
    decreases events.len(),
{
    if events.len() > 0 {
        lemma_honest_run(port, events.drop_last());
        let before = run(ConnectState::start(port), events.drop_last());
        let reply = HANDSHAKE_RESPONSE@;
        let length = before.line.len() as int;
        assert(reply.take(0) == Seq::<u8>::empty());
        assert(reply.take(reply.len() as int) == reply);
        if before.phase is Reply {
            assert(before.line.push(reply[length]) == reply.take(length + 1));
            assert(reply[length] == NEWLINE <==> length + 1 == reply.len());
        }
    }
}

/// Some look at the ports since the last attempt failed did not show the port
/// that was tried.
pub open spec fn was_absent(start: ConnectState, events: Seq<ConnectEvent<Seq<PortInfo>>>) -> bool
    decreases events.len(),
{
    if events.len() == 0 {
        false
    } else {
        let before = run(start, events.drop_last());
        match before.phase {
            ConnectPhase::Begin => false,
            ConnectPhase::Look => was_absent(start, events.drop_last()) || match events.last() {
                ConnectEvent::Ports(ports) => !is_present(ports, before.port),
                _ => true,
            },
            _ => was_absent(start, events.drop_last()),
        }
    }
}

/// The search for the port goes by what was seen: a new attempt is made only
/// after the port that was tried has been seen absent, and then on the first
/// port that looks like a LinnStrument.
pub proof fn law_reopened_only_after_absence(
    port: Seq<char>,
    events: Seq<ConnectEvent<Seq<PortInfo>>>,
)
    requires
        feasible(ConnectState::start(port), events),
        events.len() > 0,
        run(ConnectState::start(port), events).phase is Open,
    ensures
        was_absent(ConnectState::start(port), events),
        events.last() is Ports,
        first_likely(events.last()->Ports_0) == Some(
            run(ConnectState::start(port), events).port,
        ),
        run(ConnectState::start(port), events).attempt == run(
            ConnectState::start(port),
            events.drop_last(),
        ).attempt + 1,
{
    let start = ConnectState::start(port);
    let before = run(start, events.drop_last());
    assert(before.phase is Look);
    law_attempts_are_bounded(port, events.drop_last());
    lemma_absence(port, events.drop_last());
    if !(events.last() is Ports) {
        assert(first_likely(Seq::<PortInfo>::empty()) is None);
    }
}

proof fn lemma_absence(port: Seq<char>, events: Seq<ConnectEvent<Seq<PortInfo>>>)
    requires
        feasible(ConnectState::start(port), events),
    ensures
        run(ConnectState::start(port), events).absent == was_absent(
            ConnectState::start(port),
            events,
        ),
    decreases events.len(),
{
    if events.len() > 0 {
        lemma_absence(port, events.drop_last());
        let before = run(ConnectState::start(port), events.drop_last());
        if before.phase is Look && !(events.last() is Ports) {
            assert(!is_present(Seq::<PortInfo>::empty(), before.port));
        }
    }
}

/// `5, 4, 3, 2, 1 ...` and a newline.
pub open spec fn countdown() -> Seq<u8> {
    seq![
        0x35, 0x2c, 0x20, 0x34, 0x2c, 0x20, 0x33, 0x2c, 0x20, 0x32, 0x2c, 0x20, 0x31, 0x20,
        0x2e, 0x2e, 0x2e, 0x0a,
    ]
}

/// `LinnStruments are go!` and a newline.
pub open spec fn liftoff() -> Seq<u8> {
    seq![
        0x4c, 0x69, 0x6e, 0x6e, 0x53, 0x74, 0x72, 0x75, 0x6d, 0x65, 0x6e, 0x74, 0x73, 0x20,
        0x61, 0x72, 0x65, 0x20, 0x67, 0x6f, 0x21, 0x0a,
    ]
}

/// The port that was asked to be opened last in the course of a run.
pub open spec fn last_opened(
    start: ConnectState,
    events: Seq<ConnectEvent<Seq<PortInfo>>>,
) -> Option<Seq<char>>
    decreases events.len(),
{
    match run(start, events).request() {
        ConnectAction::Open { port, .. } => Some(port),
        _ => if events.len() == 0 {
            None
        } else {
            last_opened(start, events.drop_last())
        },
    }
}

/// The first action opens the port that was given, by its whole name, as the
/// first attempt.
pub proof fn law_the_given_port_is_opened_first(port: Seq<char>)
    ensures
        ConnectState::start(port).request() == (ConnectAction::<Seq<u8>, Seq<char>>::Open {
            port,
            attempt: 1,
        }),
{
}

/// Any later port that is opened has the whole name of the first in the list just
/// seen that is taken for that of a LinnStrument, and the attempts are counted.
/// The port that counts as tried is always the one that was opened last.
pub proof fn law_a_port_that_was_seen_is_opened_later(
    port: Seq<char>,
    events: Seq<ConnectEvent<Seq<PortInfo>>>,
)
    requires
        feasible(ConnectState::start(port), events),
    ensures
        ({
            let start = ConnectState::start(port);
            let state = run(start, events);
            &&& last_opened(start, events) == Some(state.port)
            &&& state.request() matches ConnectAction::Open { port: opened, attempt } ==> {
                &&& attempt == times_opened(start, events)
                &&& events.len() == 0 ==> opened == port
                &&& events.len() > 0 ==> events.last() is Ports && exists|i: int|
                    is_first_likely(events.last()->Ports_0, i) && opened
                        == events.last()->Ports_0[i].port_name@
            }
        }),
    decreases events.len(),
{
    let start = ConnectState::start(port);
    law_attempts_are_bounded(port, events);
    if events.len() > 0 {
        law_a_port_that_was_seen_is_opened_later(port, events.drop_last());
        law_attempts_are_bounded(port, events.drop_last());
        if run(start, events).request() is Open {
            law_reopened_only_after_absence(port, events);
            let ports = events.last()->Ports_0;
            let likely = |port_type: PortType| is_likely(port_type);
            let i = choose|i: int| is_first(ports, likely, i);
            assert(is_first(ports, likely, i));
            assert forall|j: int| 0 <= j < i implies !is_likely(
                #[trigger] ports[j].port_type,
            ) by {
                assert(!likely(ports[j].port_type));
            }
            assert(is_first_likely(ports, i));
        }
    }
}

/// Port `i` is taken for that of a LinnStrument, and none before it is.
pub open spec fn is_first_likely(ports: Seq<PortInfo>, i: int) -> bool {
    &&& 0 <= i < ports.len()
    &&& is_likely(ports[i].port_type)
    &&& forall|j: int| 0 <= j < i ==> !is_likely(#[trigger] ports[j].port_type)
}

/// Each action follows from what came of the one before. A line that was opened
/// rests for a second, then the countdown is sent, then bytes are read until a
/// newline. Only the exact reply connects; any other line, one of more than 256
/// bytes, or trouble on the line gives up the attempt for just that reason, and
/// the fifth for good.
pub proof fn law_actions_of_an_attempt(state: ConnectState, event: ConnectEvent<Seq<PortInfo>>)
    requires
        state.valid(),
        can_come_of(state.request(), event),
    ensures
        ({
            let next = state.next(event);
            let last = state.attempt == 5;
            let line = state.line.push(event->Received_0);
            match (state.request(), event) {
                (ConnectAction::Open { .. }, ConnectEvent::Done) => next.request()
                    == ConnectAction::<Seq<u8>, Seq<char>>::Pause(1000),
                (ConnectAction::Open { .. }, _) => next.request() == given_up(
                    Failure::Io(Activity::OpenPort),
                    last,
                ),
                (ConnectAction::Pause(time), _) => {
                    ||| time == 1000 && next.request() == ConnectAction::<
                        Seq<u8>,
                        Seq<char>,
                    >::Write(countdown())
                    ||| time == 250 && next.request() is ListPorts
                },
                (ConnectAction::Write(_), ConnectEvent::Done) => next.request() is ReadByte
                    && next.line == Seq::<u8>::empty(),
                (ConnectAction::Write(_), ConnectEvent::FlushFailed) => next.request()
                    == given_up(Failure::Io(Activity::FlushHandshake), last),
                (ConnectAction::Write(_), _) => next.request() == given_up(
                    Failure::Io(Activity::SendHandshake),
                    last,
                ),
                (ConnectAction::ReadByte, ConnectEvent::Received(byte)) => if line == liftoff() {
                    next.request() is Finish
                } else if byte == 0x0a {
                    next.request() == given_up(
                        Failure::UnexpectedGreeting { response: line },
                        last,
                    )
                } else if line.len() > 256 {
                    next.request() == given_up(
                        Failure::LineTooLong(Activity::ReadHandshake),
                        last,
                    )
                } else {
                    next.request() is ReadByte && next.line == line
                },
                (ConnectAction::ReadByte, _) => next.request() == given_up(
                    Failure::Io(Activity::ReadHandshake),
                    last,
                ),
                (ConnectAction::Abandon { last: no_more, .. }, _) => {
                    &&& no_more == last
                    &&& no_more ==> next.request() == ConnectAction::<Seq<u8>, Seq<char>>::Fail(
                        Failure::NoConnection,
                    )
                    &&& !no_more ==> next.request() is ReadClock
                },
                (ConnectAction::ReadClock, _) => {
                    ||| next.request() is ListPorts
                    ||| next.request() == ConnectAction::<Seq<u8>, Seq<char>>::Pause(250)
                    ||| next.request() == ConnectAction::<Seq<u8>, Seq<char>>::Fail(
                        Failure::NotBackInTime,
                    )
                },
                (ConnectAction::ListPorts, _) => {
                    ||| next.request() is ReadClock && next.attempt == state.attempt && next.port
                        == state.port
                    ||| next.request() is Open && next.attempt == state.attempt + 1
                },
                _ => false,
            }
        }),
        !(state.request() is ListPorts) ==> state.next(event).attempt == state.attempt
            && state.next(event).port == state.port,
{
    assert(HANDSHAKE@ =~= countdown());
    assert(HANDSHAKE_RESPONSE@ =~= liftoff());
    assert(liftoff()[21] == 0x0a);
    if event is Received {
        let line = state.line.push(event->Received_0);
        assert(line.last() == event->Received_0);
        assert(line == liftoff() ==> line.last() == liftoff()[21]);
    }
}

/// An attempt is given up.
pub open spec fn given_up(failure: Failure<Seq<u8>>, last: bool) -> ConnectAction<
    Seq<u8>,
    Seq<char>,
> {
    ConnectAction::Abandon { failure, last }
}

/// What the clock showed first since an attempt was given up last.
pub open spec fn search_began(
    start: ConnectState,
    events: Seq<ConnectEvent<Seq<PortInfo>>>,
) -> Option<u64>
    decreases events.len(),
{
    if events.len() == 0 {
        None
    } else {
        let before = search_began(start, events.drop_last());
        match (run(start, events.drop_last()).request(), events.last()) {
            (ConnectAction::Abandon { .. }, _) => None,
            (ConnectAction::ReadClock, ConnectEvent::Clock(now)) => match before {
                None => Some(now),
                Some(_) => before,
            },
            _ => before,
        }
    }
}

proof fn lemma_search(port: Seq<char>, events: Seq<ConnectEvent<Seq<PortInfo>>>)
    requires
        feasible(ConnectState::start(port), events),
    ensures
        ({
            let state = run(ConnectState::start(port), events);
            let began = search_began(ConnectState::start(port), events);
            &&& state.valid()
            &&& state.phase is Begin ==> began is None
            &&& (state.phase is Look || state.phase is Check || state.phase is Wait)
                ==> began is Some && state.deadline == began->0 + 15_000_000_000
        }),
    decreases events.len(),
{
    law_attempts_are_bounded(port, events);
    if events.len() > 0 {
        lemma_search(port, events.drop_last());
    }
}

/// The ports are looked at every 250 milliseconds until the clock shows fifteen
/// seconds more than as the search began: the search fails then, and not before.
pub proof fn law_search_takes_fifteen_seconds(
    port: Seq<char>,
    events: Seq<ConnectEvent<Seq<PortInfo>>>,
    now: u64,
)
    requires
        feasible(ConnectState::start(port), events),
        run(ConnectState::start(port), events).request() is ReadClock,
    ensures
        ({
            let state = run(ConnectState::start(port), events);
            let next = state.next(ConnectEvent::Clock(now));
            match search_began(ConnectState::start(port), events) {
                None => next.request() is ListPorts,
                Some(began) => if now >= began + 15_000_000_000 {
                    next.request() == ConnectAction::<Seq<u8>, Seq<char>>::Fail(
                        Failure::NotBackInTime,
                    )
                } else {
                    &&& next.request() == ConnectAction::<Seq<u8>, Seq<char>>::Pause(250)
                    &&& next.next(ConnectEvent::Done).request() is ListPorts
                },
            }
        }),
{
    lemma_search(port, events);
}

/// A look at the ports leads to the next attempt if and only if the port that was
/// opened last is not among them, or was not at an earlier look of this search,
/// and one of them is taken for that of a LinnStrument.
pub proof fn law_a_look_decides(
    port: Seq<char>,
    events: Seq<ConnectEvent<Seq<PortInfo>>>,
    ports: Seq<PortInfo>,
)
    requires
        feasible(ConnectState::start(port), events),
        run(ConnectState::start(port), events).request() is ListPorts,
    ensures
        ({
            let start = ConnectState::start(port);
            let next = run(start, events).next(ConnectEvent::Ports(ports));
            let tried = last_opened(start, events)->0;
            let gone = was_absent(start, events) || forall|i: int|
                0 <= i < ports.len() ==> (#[trigger] ports[i]).port_name@ != tried;
            let there = exists|i: int|
                0 <= i < ports.len() && is_likely(#[trigger] ports[i].port_type);
            next.request() is Open <==> gone && there
        }),
{
    let start = ConnectState::start(port);
    let state = run(start, events);
    law_a_port_that_was_seen_is_opened_later(port, events);
    lemma_absence(port, events);
    let likely = |port_type: PortType| is_likely(port_type);
    law_first_port_is_found(ports, likely);
    assert forall|i: int| 0 <= i < ports.len() implies likely(#[trigger] ports[i].port_type)
        == is_likely(ports[i].port_type) by {}
    if exists|i: int| 0 <= i < ports.len() && is_likely(#[trigger] ports[i].port_type) {
        let i = choose|i: int| 0 <= i < ports.len() && is_likely(#[trigger] ports[i].port_type);
        assert(likely(ports[i].port_type));
    }
}

/// The search is given up only when its time is over, reckoned from its start,
/// and never earlier.
pub proof fn law_search_lasts_its_time(state: ConnectState, begin: u64, later: u64)
    requires
        state.valid(),
        begin + PORT_SEARCH_TIMEOUT <= u64::MAX,
    ensures
        state.phase is Begin ==> state.next(ConnectEvent::Clock(begin)).deadline == begin
            + PORT_SEARCH_TIMEOUT,
        state.phase is Check ==> (state.next(ConnectEvent::Clock(later)).phase is Failed <==> later
            >= state.deadline),
        (state.phase is Look || state.phase is Wait) ==> forall|
            event: ConnectEvent<Seq<PortInfo>>,
        |
            #[trigger] state.next(event).deadline == state.deadline,
{
}

} // verus!
