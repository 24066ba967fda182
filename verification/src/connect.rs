//! Opening the serial line and greeting the instrument, which may vanish from
//! the bus and come back under another name while that is tried.

use vstd::prelude::*;

use crate::discovery::{wait_for_reenumerated_port, PortInfo};
use crate::protocol::{copy_of, read_line, same_bytes, Activity, Failure, LineStatus, MAX_LINE};

#[allow(unused_imports)]
use crate::discovery::{first_likely, is_present};
#[allow(unused_imports)]
use crate::protocol::line_status;

verus! {

/// How often a connection is tried.
pub const MAX_ATTEMPTS: u8 = 5;

/// The pause after opening the line, in milliseconds: that may reset the
/// instrument.
pub const OPEN_SETTLE_TIME: u64 = 1_000;

/// How long to wait for the instrument to come back, in nanoseconds.
pub const PORT_SEARCH_TIMEOUT: u64 = 15_000_000_000;

/// The pause between two looks at the ports, in milliseconds.
pub const PORT_SEARCH_PAUSE: u64 = 250;

/// The greeting: `5, 4, 3, 2, 1 ...` and a newline.
pub const HANDSHAKE: [u8; 18] = [
    0x35, 0x2c, 0x20, 0x34, 0x2c, 0x20, 0x33, 0x2c, 0x20, 0x32, 0x2c, 0x20, 0x31, 0x20, 0x2e,
    0x2e, 0x2e, 0x0a,
];

/// The greeting that comes back: `LinnStruments are go!` and a newline.
pub const HANDSHAKE_RESPONSE: [u8; 22] = [
    0x4c, 0x69, 0x6e, 0x6e, 0x53, 0x74, 0x72, 0x75, 0x6d, 0x65, 0x6e, 0x74, 0x73, 0x20, 0x61,
    0x72, 0x65, 0x20, 0x67, 0x6f, 0x21, 0x0a,
];

/// What connecting asks to be done next.
#[derive(Debug)]
pub enum ConnectAction<B, T> {
    /// Open the line on this port.
    Open { port: T, attempt: u8 },
    /// Wait so many milliseconds.
    Pause(u64),
    /// Send these bytes and flush.
    Write(B),
    /// Read one byte.
    ReadByte,
    /// Close the line if it is open, and tell the user why.
    Abandon { failure: Failure<B>, last: bool },
    /// Read a clock that never goes back, in nanoseconds.
    ReadClock,
    /// List the serial ports.
    ListPorts,
    /// Nothing: the instrument is connected.
    Finish,
    /// Nothing: connecting has failed.
    Fail(Failure<B>),
}

impl View for ConnectAction<Vec<u8>, String> {
    type V = ConnectAction<Seq<u8>, Seq<char>>;

    open spec fn view(&self) -> ConnectAction<Seq<u8>, Seq<char>> {
        match *self {
            ConnectAction::Open { port, attempt } => ConnectAction::Open { port: port@, attempt },
            ConnectAction::Pause(time) => ConnectAction::Pause(time),
            ConnectAction::Write(bytes) => ConnectAction::Write(bytes@),
            ConnectAction::ReadByte => ConnectAction::ReadByte,
            ConnectAction::Abandon { failure, last } => ConnectAction::Abandon {
                failure: failure@,
                last,
            },
            ConnectAction::ReadClock => ConnectAction::ReadClock,
            ConnectAction::ListPorts => ConnectAction::ListPorts,
            ConnectAction::Finish => ConnectAction::Finish,
            ConnectAction::Fail(failure) => ConnectAction::Fail(failure@),
        }
    }
}

/// What came of an action.
#[derive(Debug)]
pub enum ConnectEvent<P> {
    /// It was done.
    Done,
    /// This byte was read.
    Received(u8),
    /// The clock shows this.
    Clock(u64),
    /// These are the serial ports.
    Ports(P),
    /// It failed.
    Failed,
    /// The bytes were sent, but flushing failed.
    FlushFailed,
}

impl View for ConnectEvent<Vec<PortInfo>> {
    type V = ConnectEvent<Seq<PortInfo>>;

    open spec fn view(&self) -> ConnectEvent<Seq<PortInfo>> {
        match *self {
            ConnectEvent::Done => ConnectEvent::Done,
            ConnectEvent::Received(byte) => ConnectEvent::Received(byte),
            ConnectEvent::Clock(now) => ConnectEvent::Clock(now),
            ConnectEvent::Ports(ports) => ConnectEvent::Ports(ports@),
            ConnectEvent::Failed => ConnectEvent::Failed,
            ConnectEvent::FlushFailed => ConnectEvent::FlushFailed,
        }
    }
}

/// `event` can come of `action`. A clock is not read within the last moments
/// that it can show: a deadline still fits behind what it shows.
pub open spec fn can_come_of(
    action: ConnectAction<Seq<u8>, Seq<char>>,
    event: ConnectEvent<Seq<PortInfo>>,
) -> bool {
    match action {
        ConnectAction::Open { .. } => event is Done || event is Failed,
        ConnectAction::Pause(_) => event is Done,
        ConnectAction::Write(_) => event is Done || event is Failed || event is FlushFailed,
        ConnectAction::ReadByte => event is Received || event is Failed,
        ConnectAction::Abandon { .. } => event is Done,
        ConnectAction::ReadClock => match event {
            ConnectEvent::Clock(now) => now + PORT_SEARCH_TIMEOUT <= u64::MAX,
            _ => false,
        },
        ConnectAction::ListPorts => event is Ports || event is Failed,
        ConnectAction::Finish => false,
        ConnectAction::Fail(_) => false,
    }
}

/// Whether `event` can come of `action`.
pub fn is_possible_connect(
    action: &ConnectAction<Vec<u8>, String>,
    event: &ConnectEvent<Vec<PortInfo>>,
) -> (result: bool)
    ensures
        result == can_come_of(action@, event@),
{
    match action {
        ConnectAction::Open { .. } => match event {
            ConnectEvent::Done => true,
            ConnectEvent::Failed => true,
            _ => false,
        },
        ConnectAction::Pause(_) => match event {
            ConnectEvent::Done => true,
            _ => false,
        },
        ConnectAction::Write(_) => match event {
            ConnectEvent::Done => true,
            ConnectEvent::Failed => true,
            ConnectEvent::FlushFailed => true,
            _ => false,
        },
        ConnectAction::ReadByte => match event {
            ConnectEvent::Received(_) => true,
            ConnectEvent::Failed => true,
            _ => false,
        },
        ConnectAction::Abandon { .. } => match event {
            ConnectEvent::Done => true,
            _ => false,
        },
        ConnectAction::ReadClock => match event {
            ConnectEvent::Clock(now) => *now <= u64::MAX - PORT_SEARCH_TIMEOUT,
            _ => false,
        },
        ConnectAction::ListPorts => match event {
            ConnectEvent::Ports(_) => true,
            ConnectEvent::Failed => true,
            _ => false,
        },
        ConnectAction::Finish => false,
        ConnectAction::Fail(_) => false,
    }
}

/// Where connecting stands: the action that it waits for.
#[derive(Debug)]
pub enum ConnectPhase<B> {
    /// Opening the line.
    Open,
    /// Giving the instrument time to start.
    Settle,
    /// Sending the greeting.
    Greet,
    /// Reading the greeting that comes back.
    Reply,
    /// Giving up an attempt.
    Abandon(Failure<B>),
    /// Reading the clock as the search for the port begins.
    Begin,
    /// Looking at the ports.
    Look,
    /// Reading the clock after a look in vain.
    Check,
    /// Waiting for the next look.
    Wait,
    Connected,
    Failed(Failure<B>),
}

/// Connecting as contracts see it.
pub struct ConnectState {
    /// The port that is tried, or was tried last.
    pub port: Seq<char>,
    /// Which attempt it is, counted from one.
    pub attempt: u8,
    pub phase: ConnectPhase<Seq<u8>>,
    /// What has been read of the greeting.
    pub line: Seq<u8>,
    /// That port has been seen absent since the attempt failed.
    pub absent: bool,
    /// When the search for the port ends.
    pub deadline: u64,
}

impl ConnectState {
    /// Connecting as it begins.
    pub open spec fn start(port: Seq<char>) -> ConnectState {
        ConnectState {
            port,
            attempt: 1,
            phase: ConnectPhase::Open,
            line: Seq::empty(),
            absent: false,
            deadline: 0,
        }
    }

    /// What is to be done next.
    pub open spec fn request(self) -> ConnectAction<Seq<u8>, Seq<char>> {
        match self.phase {
            ConnectPhase::Open => ConnectAction::Open { port: self.port, attempt: self.attempt },
            ConnectPhase::Settle => ConnectAction::Pause(OPEN_SETTLE_TIME),
            ConnectPhase::Greet => ConnectAction::Write(HANDSHAKE@),
            ConnectPhase::Reply => ConnectAction::ReadByte,
            ConnectPhase::Abandon(failure) => ConnectAction::Abandon {
                failure,
                last: self.attempt == MAX_ATTEMPTS,
            },
            ConnectPhase::Begin => ConnectAction::ReadClock,
            ConnectPhase::Look => ConnectAction::ListPorts,
            ConnectPhase::Check => ConnectAction::ReadClock,
            ConnectPhase::Wait => ConnectAction::Pause(PORT_SEARCH_PAUSE),
            ConnectPhase::Connected => ConnectAction::Finish,
            ConnectPhase::Failed(failure) => ConnectAction::Fail(failure),
        }
    }

    /// The same in another phase.
    pub open spec fn at(self, phase: ConnectPhase<Seq<u8>>) -> ConnectState {
        ConnectState { phase, ..self }
    }

    /// This attempt has failed.
    pub open spec fn abandoned(self, failure: Failure<Seq<u8>>) -> ConnectState {
        ConnectState { line: Seq::empty(), phase: ConnectPhase::Abandon(failure), ..self }
    }

    /// One more byte of the greeting that comes back.
    pub open spec fn replied(self, byte: u8) -> ConnectState {
        let line = self.line.push(byte);
        match line_status(self.line, byte) {
            LineStatus::Unfinished => ConnectState { line, ..self },
            LineStatus::TooLong => self.abandoned(Failure::LineTooLong(Activity::ReadHandshake)),
            LineStatus::Complete => if line == HANDSHAKE_RESPONSE@ {
                ConnectState { line: Seq::empty(), phase: ConnectPhase::Connected, ..self }
            } else {
                self.abandoned(Failure::UnexpectedGreeting { response: line })
            },
        }
    }

    /// One look at the ports. Once the port has been absent, the first that
    /// looks like a LinnStrument is tried next.
    pub open spec fn looked(self, ports: Seq<PortInfo>) -> ConnectState {
        let absent = self.absent || !is_present(ports, self.port);
        let seen = ConnectState { absent, ..self };
        match first_likely(ports) {
            Some(port) => if absent {
                ConnectState {
                    port,
                    attempt: (self.attempt + 1) as u8,
                    phase: ConnectPhase::Open,
                    ..seen
                }
            } else {
                seen.at(ConnectPhase::Check)
            },
            None => seen.at(ConnectPhase::Check),
        }
    }

    /// Connecting after `event`.
    pub open spec fn next(self, event: ConnectEvent<Seq<PortInfo>>) -> ConnectState {
        match self.phase {
            ConnectPhase::Open => match event {
                ConnectEvent::Done => self.at(ConnectPhase::Settle),
                _ => self.abandoned(Failure::Io(Activity::OpenPort)),
            },
            ConnectPhase::Settle => self.at(ConnectPhase::Greet),
            ConnectPhase::Greet => match event {
                ConnectEvent::Done => self.at(ConnectPhase::Reply),
                ConnectEvent::FlushFailed => self.abandoned(Failure::Io(Activity::FlushHandshake)),
                _ => self.abandoned(Failure::Io(Activity::SendHandshake)),
            },
            ConnectPhase::Reply => match event {
                ConnectEvent::Received(byte) => self.replied(byte),
                _ => self.abandoned(Failure::Io(Activity::ReadHandshake)),
            },
            ConnectPhase::Abandon(_) => if self.attempt == MAX_ATTEMPTS {
                self.at(ConnectPhase::Failed(Failure::NoConnection))
            } else {
                self.at(ConnectPhase::Begin)
            },
            ConnectPhase::Begin => match event {
                ConnectEvent::Clock(now) => ConnectState {
                    deadline: (now + PORT_SEARCH_TIMEOUT) as u64,
                    absent: false,
                    phase: ConnectPhase::Look,
                    ..self
                },
                _ => self,
            },
            // Ports that cannot be listed count as no ports.
            ConnectPhase::Look => match event {
                ConnectEvent::Ports(ports) => self.looked(ports),
                _ => self.looked(Seq::empty()),
            },
            ConnectPhase::Check => match event {
                ConnectEvent::Clock(now) => if now >= self.deadline {
                    self.at(ConnectPhase::Failed(Failure::NotBackInTime))
                } else {
                    self.at(ConnectPhase::Wait)
                },
                _ => self,
            },
            ConnectPhase::Wait => self.at(ConnectPhase::Look),
            ConnectPhase::Connected => self,
            ConnectPhase::Failed(_) => self,
        }
    }

    /// What holds of connecting all along.
    pub open spec fn valid(self) -> bool {
        &&& 1 <= self.attempt <= MAX_ATTEMPTS
        &&& self.line.len() <= MAX_LINE
        &&& !(self.phase is Reply) ==> self.line.len() == 0
        &&& (self.phase is Begin || self.phase is Look || self.phase is Check || self.phase is Wait)
            ==> self.attempt < MAX_ATTEMPTS
    }
}

impl View for ConnectPhase<Vec<u8>> {
    type V = ConnectPhase<Seq<u8>>;

    open spec fn view(&self) -> ConnectPhase<Seq<u8>> {
        match *self {
            ConnectPhase::Open => ConnectPhase::Open,
            ConnectPhase::Settle => ConnectPhase::Settle,
            ConnectPhase::Greet => ConnectPhase::Greet,
            ConnectPhase::Reply => ConnectPhase::Reply,
            ConnectPhase::Abandon(failure) => ConnectPhase::Abandon(failure@),
            ConnectPhase::Begin => ConnectPhase::Begin,
            ConnectPhase::Look => ConnectPhase::Look,
            ConnectPhase::Check => ConnectPhase::Check,
            ConnectPhase::Wait => ConnectPhase::Wait,
            ConnectPhase::Connected => ConnectPhase::Connected,
            ConnectPhase::Failed(failure) => ConnectPhase::Failed(failure@),
        }
    }
}

/// A connection on its way.
#[derive(Debug)]
pub struct Connecting {
    port: String,
    attempt: u8,
    phase: ConnectPhase<Vec<u8>>,
    line: Vec<u8>,
    absent: bool,
    deadline: u64,
}

impl View for Connecting {
    type V = ConnectState;

    closed spec fn view(&self) -> ConnectState {
        ConnectState {
            port: self.port@,
            attempt: self.attempt,
            phase: self.phase@,
            line: self.line@,
            absent: self.absent,
            deadline: self.deadline,
        }
    }
}

impl Connecting {
    /// Begins to connect to the instrument on a port.
    pub fn start(port: &str) -> (result: (Connecting, ConnectAction<Vec<u8>, String>))
        ensures
            result.0@ == ConnectState::start(port@),
            result.0@.valid(),
            result.1@ == result.0@.request(),
    {
        let connecting = Connecting {
            port: port.to_owned(),
            attempt: 1,
            phase: ConnectPhase::Open,
            line: Vec::new(),
            absent: false,
            deadline: 0,
        };
        let action = connecting.request();
        (connecting, action)
    }

    /// The port that is tried, or was tried last.
    pub fn port(&self) -> (port: String)
        ensures
            port@ == self@.port,
    {
        self.port.clone()
    }

    /// Whether the instrument is connected.
    pub fn is_connected(&self) -> (result: bool)
        ensures
            result == (self@.phase is Connected),
    {
        match self.phase {
            ConnectPhase::Connected => true,
            _ => false,
        }
    }

    /// The action that connecting waits for.
    pub fn request(&self) -> (action: ConnectAction<Vec<u8>, String>)
        ensures
            action@ == self@.request(),
    {
        match &self.phase {
            ConnectPhase::Open => ConnectAction::Open {
                port: self.port.clone(),
                attempt: self.attempt,
            },
            ConnectPhase::Settle => ConnectAction::Pause(OPEN_SETTLE_TIME),
            ConnectPhase::Greet => ConnectAction::Write(copy_of(HANDSHAKE.as_slice())),
            ConnectPhase::Reply => ConnectAction::ReadByte,
            ConnectPhase::Abandon(failure) => ConnectAction::Abandon {
                failure: failure.duplicate(),
                last: self.attempt == MAX_ATTEMPTS,
            },
            ConnectPhase::Begin => ConnectAction::ReadClock,
            ConnectPhase::Look => ConnectAction::ListPorts,
            ConnectPhase::Check => ConnectAction::ReadClock,
            ConnectPhase::Wait => ConnectAction::Pause(PORT_SEARCH_PAUSE),
            ConnectPhase::Connected => ConnectAction::Finish,
            ConnectPhase::Failed(failure) => ConnectAction::Fail(failure.duplicate()),
        }
    }

    /// Goes on after an action with what came of it: says what to do next.
    pub fn advance(&mut self, event: ConnectEvent<Vec<PortInfo>>) -> (action: ConnectAction<
        Vec<u8>,
        String,
    >)
        requires
            old(self)@.valid(),
            can_come_of(old(self)@.request(), event@),
        ensures
            final(self)@ == old(self)@.next(event@),
            final(self)@.valid(),
            action@ == final(self)@.request(),
    {
        match self.phase {
            ConnectPhase::Open => match event {
                ConnectEvent::Done => {
                    self.phase = ConnectPhase::Settle;
                },
                _ => self.abandon(Failure::Io(Activity::OpenPort)),
            },
            ConnectPhase::Settle => {
                self.phase = ConnectPhase::Greet;
            },
            ConnectPhase::Greet => match event {
                ConnectEvent::Done => {
                    self.phase = ConnectPhase::Reply;
                },
                ConnectEvent::FlushFailed => self.abandon(Failure::Io(Activity::FlushHandshake)),
                _ => self.abandon(Failure::Io(Activity::SendHandshake)),
            },
            ConnectPhase::Reply => match event {
                ConnectEvent::Received(byte) => self.after_byte(byte),
                _ => self.abandon(Failure::Io(Activity::ReadHandshake)),
            },
            ConnectPhase::Abandon(_) => {
                if self.attempt == MAX_ATTEMPTS {
                    self.phase = ConnectPhase::Failed(Failure::NoConnection);
                } else {
                    self.phase = ConnectPhase::Begin;
                }
            },
            ConnectPhase::Begin => match event {
                ConnectEvent::Clock(now) => {
                    self.deadline = now + PORT_SEARCH_TIMEOUT;
                    self.absent = false;
                    self.phase = ConnectPhase::Look;
                },
                _ => {},
            },
            ConnectPhase::Look => {
                let ports: Vec<PortInfo> = match event {
                    ConnectEvent::Ports(ports) => ports,
                    _ => Vec::new(),
                };
                match wait_for_reenumerated_port(&self.port, &mut self.absent, &ports) {
                    Some(port) => {
                        self.port = port;
                        self.attempt = self.attempt + 1;
                        self.phase = ConnectPhase::Open;
                    },
                    None => {
                        self.phase = ConnectPhase::Check;
                    },
                }
            },
            ConnectPhase::Check => match event {
                ConnectEvent::Clock(now) => if now >= self.deadline {
                    self.phase = ConnectPhase::Failed(Failure::NotBackInTime);
                } else {
                    self.phase = ConnectPhase::Wait;
                },
                _ => {},
            },
            ConnectPhase::Wait => {
                self.phase = ConnectPhase::Look;
            },
            ConnectPhase::Connected => {},
            ConnectPhase::Failed(_) => {},
        }
        self.request()
    }

    /// Gives up this attempt.
    fn abandon(&mut self, failure: Failure<Vec<u8>>)
        ensures
            final(self)@ == old(self)@.abandoned(failure@),
    {
        self.line.clear();
        self.phase = ConnectPhase::Abandon(failure);
    }

    /// Takes one more byte of the greeting that comes back.
    fn after_byte(&mut self, byte: u8)
        requires
            old(self)@.line.len() <= MAX_LINE,
        ensures
            final(self)@ == old(self)@.replied(byte),
    {
        match read_line(&mut self.line, byte) {
            LineStatus::Unfinished => {},
            LineStatus::TooLong => self.abandon(Failure::LineTooLong(Activity::ReadHandshake)),
            LineStatus::Complete => if same_bytes(
                self.line.as_slice(),
                HANDSHAKE_RESPONSE.as_slice(),
            ) {
                self.line.clear();
                self.phase = ConnectPhase::Connected;
            } else {
                let mut response: Vec<u8> = Vec::new();
                response.append(&mut self.line);
                self.abandon(Failure::UnexpectedGreeting { response });
            },
        }
    }
}

/// What contracts see of an action is the action itself, with its bytes and the
/// whole name of its port.
pub proof fn law_connect_actions_are_seen_as_they_are(action: ConnectAction<Vec<u8>, String>)
    ensures
        match action {
            ConnectAction::Open { port, attempt } => action@ == (ConnectAction::<
                Seq<u8>,
                Seq<char>,
            >::Open { port: port@, attempt }),
            ConnectAction::Pause(time) => action@ == ConnectAction::<Seq<u8>, Seq<char>>::Pause(
                time,
            ),
            ConnectAction::Write(bytes) => action@ == ConnectAction::<Seq<u8>, Seq<char>>::Write(
                bytes@,
            ),
            ConnectAction::ReadByte => action@ is ReadByte,
            ConnectAction::Abandon { failure, last } => action@ == (ConnectAction::<
                Seq<u8>,
                Seq<char>,
            >::Abandon { failure: failure@, last }),
            ConnectAction::ReadClock => action@ is ReadClock,
            ConnectAction::ListPorts => action@ is ListPorts,
            ConnectAction::Finish => action@ is Finish,
            ConnectAction::Fail(failure) => action@ == ConnectAction::<Seq<u8>, Seq<char>>::Fail(
                failure@,
            ),
        },
{
}

/// What contracts see of an event is the event itself.
pub proof fn law_connect_events_are_seen_as_they_are(event: ConnectEvent<Vec<PortInfo>>)
    ensures
        match event {
            ConnectEvent::Done => event@ is Done,
            ConnectEvent::Received(byte) => event@ == ConnectEvent::<Seq<PortInfo>>::Received(
                byte,
            ),
            ConnectEvent::Clock(now) => event@ == ConnectEvent::<Seq<PortInfo>>::Clock(now),
            ConnectEvent::Ports(ports) => event@ == ConnectEvent::Ports(ports@),
            ConnectEvent::Failed => event@ is Failed,
            ConnectEvent::FlushFailed => event@ is FlushFailed,
        },
{
}

/// What can come of an action while connecting. Trouble can come of opening,
/// writing, reading and listing, and of nothing else; a clock is not read within
/// the last fifteen seconds that it can show.
pub proof fn law_what_can_come_of_a_connect_action(
    action: ConnectAction<Seq<u8>, Seq<char>>,
    event: ConnectEvent<Seq<PortInfo>>,
)
    ensures
        event is Done ==> (can_come_of(action, event) <==> action is Open || action is Pause
            || action is Write || action is Abandon),
        event is Received ==> (can_come_of(action, event) <==> action is ReadByte),
        event is Clock ==> (can_come_of(action, event) <==> action is ReadClock && event->Clock_0
            + 15_000_000_000 <= u64::MAX),
        event is Ports ==> (can_come_of(action, event) <==> action is ListPorts),
        event is Failed ==> (can_come_of(action, event) <==> action is Open || action is Write
            || action is ReadByte || action is ListPorts),
        event is FlushFailed ==> (can_come_of(action, event) <==> action is Write),
{
}

} // verus!
