//! The instrument's side of a conversation: what it holds, and what it says to
//! the bytes that it hears.

use vstd::prelude::*;

#[allow(unused_imports)]
use crate::backup_laws::Holding;
#[allow(unused_imports)]
use crate::crc::crc32_of;
#[allow(unused_imports)]
use crate::little_endian::u32_le;
#[allow(unused_imports)]
use crate::protocol::{Action, Event, Target, ACK};

verus! {

/// What an instrument is in the middle of.
pub enum Doing {
    /// Waiting for a command.
    Idle,
    /// Waiting to be told which project to send.
    AwaitIndex,
    /// Waiting for a word on the block from `from` on, which it has said. `asked`
    /// tells whether its CRC was asked for.
    Sending { what: Target, from: int, asked: bool },
    /// Waiting for the version of a project that it is to take.
    AwaitVersion,
    /// Waiting for the rest of the size of that project.
    AwaitProjectSize { version: u8, heard: Seq<u8> },
    /// Waiting to be told where to put that project.
    AwaitSlot { version: u8, size: int },
    /// Waiting for the rest of the size of the settings that it is to take.
    AwaitSettingsSize { heard: Seq<u8> },
    /// Waiting for the rest of a block.
    AwaitBlock { to: Target, version: u8, size: int, taken: Seq<u8>, heard: Seq<u8> },
    /// Waiting for the rest of the CRC of a block.
    AwaitCrc {
        to: Target,
        version: u8,
        size: int,
        taken: Seq<u8>,
        block: Seq<u8>,
        heard: Seq<u8>,
    },
    /// It has heard something that it does not understand, and says nothing more.
    Lost,
}

/// An instrument.
pub struct Instrument {
    /// The sixteen projects.
    pub projects: Seq<Holding>,
    pub settings: Holding,
    pub doing: Doing,
    /// What it has said and nobody has read yet.
    pub output: Seq<u8>,
}

/// `ACK` and a newline.
pub open spec fn acknowledgement() -> Seq<u8> {
    seq![0x41, 0x43, 0x4b, 0x0a]
}

/// Four bytes that stand for a number, the lowest first.
pub open spec fn four_bytes(number: int) -> Seq<u8> {
    seq![
        (number % 256) as u8,
        (number / 256 % 256) as u8,
        (number / 65536 % 256) as u8,
        (number / 16777216 % 256) as u8,
    ]
}

/// The number that four bytes stand for, the lowest first.
pub open spec fn number_of(bytes: Seq<u8>) -> int {
    bytes[0] + 256 * bytes[1] + 65536 * bytes[2] + 16777216 * bytes[3]
}

/// Up to ninety-six of the bytes from `from` on.
pub open spec fn piece(contents: Seq<u8>, from: int) -> Seq<u8> {
    contents.subrange(
        from,
        if from + 96 < contents.len() {
            from + 96
        } else {
            contents.len() as int
        },
    )
}

impl Instrument {
    /// What it holds under a target.
    pub open spec fn holds(self, what: Target) -> Holding {
        match what {
            Target::Project { index } => self.projects[index as int],
            Target::Settings => self.settings,
        }
    }

    /// It has nothing to do and nothing left to say.
    pub open spec fn is_at_rest(self) -> bool {
        self.doing is Idle && self.output == Seq::<u8>::empty()
    }

    /// Both hold the same.
    pub open spec fn holds_the_same(self, other: Instrument) -> bool {
        self.projects == other.projects && self.settings == other.settings
    }

    /// It says something and goes on to something else.
    pub open spec fn says(self, bytes: Seq<u8>, doing: Doing) -> Instrument {
        Instrument { doing, output: self.output + bytes, ..self }
    }

    /// It says the block from `from` on, or, where there is none, that all is
    /// said.
    pub open spec fn sends(self, what: Target, from: int) -> Instrument {
        let contents = self.holds(what).contents;
        if from < contents.len() {
            self.says(piece(contents, from), Doing::Sending { what, from, asked: false })
        } else {
            self.says(acknowledgement(), Doing::Idle)
        }
    }

    /// It waits for the next block, or, where all is taken, keeps it and says so.
    pub open spec fn takes(self, to: Target, version: u8, size: int, taken: Seq<u8>) -> Instrument {
        if taken.len() < size {
            Instrument {
                doing: Doing::AwaitBlock { to, version, size, taken, heard: Seq::empty() },
                ..self
            }
        } else {
            let kept = match to {
                Target::Project { index } => Instrument {
                    projects: self.projects.update(
                        index as int,
                        Holding { version, contents: taken },
                    ),
                    ..self
                },
                Target::Settings => Instrument {
                    settings: Holding { version: taken[0], contents: taken },
                    ..self
                },
            };
            kept.says(acknowledgement(), Doing::Idle)
        }
    }

    /// It hears a command.
    pub open spec fn hears_command(self, byte: u8) -> Instrument {
        if byte == 0x6a {
            self.says(acknowledgement(), Doing::AwaitIndex)
        } else if byte == 0x73 {
            self.says(
                acknowledgement() + four_bytes(self.settings.contents.len() as int),
                self.doing,
            ).sends(Target::Settings, 0)
        } else if byte == 0x71 {
            self.says(acknowledgement(), Doing::AwaitVersion)
        } else if byte == 0x72 {
            self.says(acknowledgement(), Doing::AwaitSettingsSize { heard: Seq::empty() })
        } else {
            self.says(Seq::empty(), Doing::Lost)
        }
    }

    /// It hears a word on the block from `from` on. From version ten on, the CRC
    /// comes before the verdict; before, there is none.
    pub open spec fn hears_word(
        self,
        byte: u8,
        what: Target,
        from: int,
        asked: bool,
    ) -> Instrument {
        let held = self.holds(what);
        let block = piece(held.contents, from);
        if held.version < 10 {
            if byte == 0x61 {
                self.sends(what, from + block.len())
            } else {
                self.says(Seq::empty(), Doing::Lost)
            }
        } else if !asked {
            if byte == 0x63 {
                self.says(
                    four_bytes(crc32_of(block) as int),
                    Doing::Sending { what, from, asked: true },
                )
            } else {
                self.says(Seq::empty(), Doing::Lost)
            }
        } else if byte == 0x6f {
            self.sends(what, from + block.len())
        } else if byte == 0x77 {
            self.sends(what, from)
        } else {
            self.says(Seq::empty(), Doing::Lost)
        }
    }

    /// It hears one byte.
    pub open spec fn hears(self, byte: u8) -> Instrument {
        match self.doing {
            Doing::Idle => self.hears_command(byte),
            Doing::AwaitIndex => if byte < 16 {
                let what = Target::Project { index: byte };
                let held = self.holds(what);
                self.says(
                    acknowledgement() + seq![held.version] + four_bytes(
                        held.contents.len() as int,
                    ),
                    self.doing,
                ).sends(what, 0)
            } else {
                self.says(Seq::empty(), Doing::Lost)
            },
            Doing::Sending { what, from, asked } => self.hears_word(byte, what, from, asked),
            Doing::AwaitVersion => self.says(
                acknowledgement(),
                Doing::AwaitProjectSize { version: byte, heard: Seq::empty() },
            ),
            Doing::AwaitProjectSize { version, heard } => if heard.len() < 3 {
                self.says(
                    Seq::empty(),
                    Doing::AwaitProjectSize { version, heard: heard.push(byte) },
                )
            } else {
                self.says(
                    acknowledgement(),
                    Doing::AwaitSlot { version, size: number_of(heard.push(byte)) },
                )
            },
            Doing::AwaitSlot { version, size } => if byte < 16 {
                self.says(acknowledgement(), self.doing).takes(
                    Target::Project { index: byte },
                    version,
                    size,
                    Seq::empty(),
                )
            } else {
                self.says(Seq::empty(), Doing::Lost)
            },
            Doing::AwaitSettingsSize { heard } => if heard.len() < 3 {
                self.says(Seq::empty(), Doing::AwaitSettingsSize { heard: heard.push(byte) })
            } else {
                self.says(acknowledgement(), self.doing).takes(
                    Target::Settings,
                    0,
                    number_of(heard.push(byte)),
                    Seq::empty(),
                )
            },
            Doing::AwaitBlock { to, version, size, taken, heard } => {
                let block = heard.push(byte);
                if block.len() < 96 && taken.len() + block.len() < size {
                    self.says(
                        Seq::empty(),
                        Doing::AwaitBlock { to, version, size, taken, heard: block },
                    )
                } else {
                    self.says(
                        seq![0x63],
                        Doing::AwaitCrc { to, version, size, taken, block, heard: Seq::empty() },
                    )
                }
            },
            Doing::AwaitCrc { to, version, size, taken, block, heard } => if heard.len() < 3 {
                self.says(
                    Seq::empty(),
                    Doing::AwaitCrc {
                        to,
                        version,
                        size,
                        taken,
                        block,
                        heard: heard.push(byte),
                    },
                )
            } else if number_of(heard.push(byte)) == crc32_of(block) {
                self.says(seq![0x6f], self.doing).takes(to, version, size, taken + block)
            } else {
                self.says(seq![0x77], self.doing).takes(to, version, size, taken)
            },
            Doing::Lost => self,
        }
    }

    /// It hears some bytes, one after the other.
    pub open spec fn hears_all(self, bytes: Seq<u8>) -> Instrument
        decreases bytes.len(),
    {
        if bytes.len() == 0 {
            self
        } else {
            self.hears_all(bytes.drop_last()).hears(bytes.last())
        }
    }

    /// `event` is what comes of an action where the line is sound: what is
    /// written arrives, and what is read is what was said, in the order in which
    /// it was said. A read that takes what there is may take less of it.
    pub open spec fn brings(self, action: Action<Seq<u8>>, event: Event<Seq<u8>>) -> bool {
        match action {
            Action::Read(count) => match event {
                Event::Received(bytes) => bytes.len() == count && bytes.is_prefix_of(self.output),
                _ => false,
            },
            Action::ReadSome(count) => match event {
                Event::Received(bytes) => {
                    &&& 1 <= bytes.len() <= count
                    &&& bytes.is_prefix_of(self.output)
                },
                _ => false,
            },
            Action::Finish | Action::Fail(_) => false,
            _ => event is Done,
        }
    }

    /// The instrument once an action has been carried out.
    pub open spec fn after(self, action: Action<Seq<u8>>, event: Event<Seq<u8>>) -> Instrument {
        match (action, event) {
            (Action::Write(bytes), Event::Done) => self.hears_all(bytes),
            (_, Event::Received(bytes)) => Instrument {
                output: self.output.skip(bytes.len() as int),
                ..self
            },
            _ => self,
        }
    }
}

/// Both ways to write four bytes agree.
pub proof fn lemma_four_bytes(x: u32)
    ensures
        four_bytes(x as int) == u32_le(x),
        number_of(u32_le(x)) == x,
{
    assert(x as int / 16777216 % 256 == x as int / 16777216);
    assert(four_bytes(x as int) =~= u32_le(x));
}

/// A single byte is heard as it is.
pub proof fn lemma_one_heard(instrument: Instrument, byte: u8)
    ensures
        instrument.hears_all(seq![byte]) == instrument.hears(byte),
{
    reveal_with_fuel(Instrument::hears_all, 2);
    assert(seq![byte].drop_last() == Seq::<u8>::empty());
    assert(seq![byte].last() == byte);
}

/// Nothing of the acknowledgement, or all of it, has been read.
pub proof fn lemma_acknowledgement()
    ensures
        ACK@ == acknowledgement(),
        acknowledgement().skip(0) == acknowledgement(),
        acknowledgement().skip(4) == Seq::<u8>::empty(),
{
    assert(ACK@ =~= acknowledgement());
}

/// What is read is the front of what was said.
pub proof fn lemma_front(front: Seq<u8>, rest: Seq<u8>, bytes: Seq<u8>)
    requires
        bytes.is_prefix_of(front + rest),
        bytes.len() == front.len(),
    ensures
        bytes == front,
        (front + rest).skip(bytes.len() as int) == rest,
{
    assert(bytes =~= front);
    assert((front + rest).skip(front.len() as int) =~= rest);
}

} // verus!
