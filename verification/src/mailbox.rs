//! The mailbox registers as values: the status word, the message word, and
//! the two polls that frame a transaction.

use vstd::prelude::*;

verus! {

/// Channel of the property interface.
pub const PROPERTY_CHANNEL: usize = 8;

/// Channel of the legacy framebuffer interface.
pub const FRAMEBUFFER_CHANNEL: usize = 1;

/// Bus address at which the peripherals start.
pub const PERIPHERAL_BASE: usize = 0x3F00_0000;

pub const GPU_MAILBOX_BASE: usize = PERIPHERAL_BASE + 0xB880;

/// Address of the read register.
pub const GPU_MAILBOX_READ: usize = GPU_MAILBOX_BASE;

/// Address of the status register.
pub const GPU_MAILBOX_STATUS: usize = GPU_MAILBOX_BASE + 0x18;

/// Address of the write register.
pub const GPU_MAILBOX_WRITE: usize = GPU_MAILBOX_BASE + 0x20;

/// A snapshot of the mailbox status register.
///
/// Bit 30 is set while the read queue is empty, bit 31 while the write queue
/// is full. Bits 0 to 29 are reserved.
#[derive(Clone, Copy, Debug, PartialEq, Eq, Structural)]
pub struct MailStatus {
    pub bitfield: u32,
}

impl MailStatus {
    /// Bit 30 of the snapshot.
    pub open spec fn read_empty(self) -> bool {
        (self.bitfield as int / 0x4000_0000) % 2 == 1
    }

    /// Bit 31 of the snapshot.
    pub open spec fn write_full(self) -> bool {
        self.bitfield as int >= 0x8000_0000
    }

    pub fn new() -> (status: MailStatus)
        ensures
            status.bitfield == 0,
    {
        MailStatus { bitfield: 0 }
    }

    pub fn is_read_empty(&self) -> (empty: bool)
        ensures
            empty == self.read_empty(),
    {
        let word: u32 = self.bitfield;
        assert(((word & 0x4000_0000u32) > 0) == ((word / 0x4000_0000u32) % 2 == 1))
            by (bit_vector);
        (word & 0x4000_0000) > 0
    }

    pub fn is_write_full(&self) -> (full: bool)
        ensures
            full == self.write_full(),
    {
        let word: u32 = self.bitfield;
        assert(((word & 0x8000_0000u32) > 0) == (word >= 0x8000_0000u32)) by (bit_vector);
        (word & 0x8000_0000) > 0
    }

    /// Replaces the snapshot by `raw`, a word just read from the status
    /// register.
    pub fn update(&mut self, raw: u32)
        ensures
            final(self).bitfield == raw,
    {
        self.bitfield = raw;
    }
}

/// One word of the mailbox read or write register.
///
/// Bits 0 to 3 are the channel, bits 4 to 31 are the data. The data carries a
/// bus address shifted right by four bits, so only addresses that are
/// multiples of 16 pass through unharmed.
#[derive(Clone, Copy, Debug, PartialEq, Eq, Structural)]
pub struct MailMessage {
    pub bitfield: u32,
}

impl MailMessage {
    /// The channel field, below 16.
    pub open spec fn channel(self) -> int {
        self.bitfield as int % 16
    }

    /// The data field, below 2^28.
    pub open spec fn data(self) -> int {
        self.bitfield as int / 16
    }

    /// The bus address that the data field stands for.
    pub open spec fn address(self) -> int {
        self.data() * 16
    }

    pub fn new() -> (mail: MailMessage)
        ensures
            mail.bitfield == 0,
    {
        MailMessage { bitfield: 0 }
    }

    pub fn get_channel_id(&self) -> (id: usize)
        ensures
            id == self.channel(),
    {
        let word: u32 = self.bitfield;
        assert(word & 0x0Fu32 == word % 16u32) by (bit_vector);
        (word & 0x0F) as usize
    }

    /// Sets the channel to the low four bits of `id` and keeps the data.
    pub fn set_channel_id(&mut self, id: u8)
        ensures
            final(self).channel() == id as int % 16,
            final(self).data() == old(self).data(),
    {
        let word: u32 = self.bitfield;
        let low: u32 = (id & 0x0F) as u32;
        assert((id & 0x0Fu8) as u32 == (id as u32) % 16u32) by (bit_vector);
        assert(((word & 0xFFFF_FFF0u32) | low) % 16u32 == low && ((word & 0xFFFF_FFF0u32) | low)
            / 16u32 == word / 16u32) by (bit_vector)
            requires
                low < 16u32,
        ;
        self.bitfield = (word & 0xFFFF_FFF0) | low;
    }

    pub fn get_data(&self) -> (data: usize)
        ensures
            data == self.data(),
    {
        let word: u32 = self.bitfield;
        assert((word & 0xFFFF_FFF0u32) >> 4u32 == word / 16u32) by (bit_vector);
        ((word & 0xFFFF_FFF0) >> 4) as usize
    }

    /// Sets the data to the low 28 bits of `data` and keeps the channel.
    pub fn set_data(&mut self, data: u32)
        ensures
            final(self).data() == data as int % 0x1000_0000,
            final(self).channel() == old(self).channel(),
    {
        let word: u32 = self.bitfield;
        assert(((word & 0x0Fu32) | ((data << 4u32) & 0xFFFF_FFF0u32)) / 16u32 == data
            % 0x1000_0000u32 && ((word & 0x0Fu32) | ((data << 4u32) & 0xFFFF_FFF0u32)) % 16u32
            == word % 16u32) by (bit_vector);
        self.bitfield = (word & 0x0F) | ((data << 4) & 0xFFFF_FFF0);
    }

    /// Stores the bus address `addr` in the data field. The low four bits of
    /// `addr` have no place in the word and are dropped.
    pub fn set_address(&mut self, addr: u32)
        ensures
            final(self).address() == addr as int - addr as int % 16,
            final(self).channel() == old(self).channel(),
    {
        assert(addr >> 4u32 == addr / 16u32) by (bit_vector);
        self.set_data(addr >> 4);
    }

    /// The bus address that the data field stands for.
    pub fn get_address(&self) -> (addr: u32)
        ensures
            addr == self.address(),
    {
        let word: u32 = self.bitfield;
        assert(((word & 0xFFFF_FFF0u32) >> 4u32) << 4u32 == (word / 16u32) * 16u32)
            by (bit_vector);
        assert((word / 16u32) * 16u32 <= word);
        ((word & 0xFFFF_FFF0) >> 4) << 4
    }

    /// Replaces the word by `raw`, a word just read from the read register.
    pub fn update(&mut self, raw: u32)
        ensures
            final(self).bitfield == raw,
    {
        self.bitfield = raw;
    }

    /// The word to store in the write register.
    pub fn write(&self) -> (word: u32)
        ensures
            word == self.bitfield,
    {
        self.bitfield
    }
}

/// Shifting an address right and then left by four bits gives the address
/// back exactly when it is a multiple of 16.
pub proof fn lemma_shift_round_trip(a: u32)
    ensures
        a % 16 == 0 <==> (a >> 4u32) << 4u32 == a,
{
    assert((a % 16u32 == 0u32) == ((a >> 4u32) << 4u32 == a)) by (bit_vector);
}

/// An address that `set_address` has stored comes out of the message
/// unchanged exactly when it is a multiple of 16.
pub proof fn lemma_address_round_trip(mail: MailMessage, addr: u32)
    requires
        mail.address() == addr as int - addr as int % 16,
    ensures
        addr % 16 == 0 <==> mail.address() == addr as int,
{
}

/// Number of status polls after which a read stops waiting.
pub const MAX_POLLS: usize = 20000;

/// The register whose word a read poll needs next.
#[derive(Clone, Copy, Debug, PartialEq, Eq, Structural)]
pub enum MailRegister {
    Status,
    Read,
}

impl MailRegister {
    /// The address at which the register is read.
    pub fn address(&self) -> (addr: usize)
        ensures
            addr == match self {
                MailRegister::Status => GPU_MAILBOX_STATUS,
                MailRegister::Read => GPU_MAILBOX_READ,
            },
    {
        match self {
            MailRegister::Status => GPU_MAILBOX_STATUS,
            MailRegister::Read => GPU_MAILBOX_READ,
        }
    }
}

/// The state of a bounded read: how often the status register has been
/// polled, and which register is to be read next.
///
/// The bound is a count of polls, not a span of time: a read that finds no
/// message for its channel gives up after `MAX_POLLS` status polls and hands
/// back the last word it read.
#[derive(Clone, Copy, Debug, PartialEq, Eq, Structural)]
pub struct ReadPoll {
    pub counter: usize,
    pub register: MailRegister,
}

/// What a read does after one word: go on polling, or hand back a message.
#[derive(Clone, Copy, Debug, PartialEq, Eq, Structural)]
pub enum ReadStep {
    Pending(ReadPoll),
    Done(MailMessage),
}

/// How a read ended: the message it hands back, the count of status polls
/// at its end, and the number of register words it took.
pub struct ReadEnd {
    pub mail: MailMessage,
    pub polls: usize,
    pub taken: int,
}

impl ReadPoll {
    /// A read that has polled nothing yet and needs a status word first.
    pub fn new() -> (poll: ReadPoll)
        ensures
            poll == (ReadPoll { counter: 0, register: MailRegister::Status }),
    {
        ReadPoll { counter: 0, register: MailRegister::Status }
    }

    /// The poll count after one more status poll. It stops at the cap.
    pub open spec fn counted(self) -> usize {
        if self.counter < MAX_POLLS {
            (self.counter + 1) as usize
        } else {
            self.counter
        }
    }

    /// The transition on `raw`, the word read from `self.register`.
    ///
    /// A status word counts as one poll; the message register is read next
    /// once the read queue is not empty or the cap is reached. A message word
    /// ends the read if it is on `channel` or the cap is reached; otherwise
    /// the status register is polled again.
    pub open spec fn step(self, channel: int, raw: u32) -> ReadStep {
        match self.register {
            MailRegister::Status => {
                if self.counted() >= MAX_POLLS || !(MailStatus { bitfield: raw }).read_empty() {
                    ReadStep::Pending(
                        ReadPoll { counter: self.counted(), register: MailRegister::Read },
                    )
                } else {
                    ReadStep::Pending(
                        ReadPoll { counter: self.counted(), register: MailRegister::Status },
                    )
                }
            },
            MailRegister::Read => {
                if (MailMessage { bitfield: raw }).channel() == channel || self.counter
                    >= MAX_POLLS {
                    ReadStep::Done(MailMessage { bitfield: raw })
                } else {
                    ReadStep::Pending(
                        ReadPoll { counter: self.counter, register: MailRegister::Status },
                    )
                }
            },
        }
    }

    /// The outcome of feeding `words` to the read one by one, or `None` if
    /// the words run out before the read ends.
    pub open spec fn run(self, channel: int, words: Seq<u32>) -> Option<ReadEnd>
        decreases words.len(),
    {
        if words.len() == 0 {
            None
        } else {
            match self.step(channel, words[0]) {
                ReadStep::Done(mail) => Some(ReadEnd { mail, polls: self.counter, taken: 1 }),
                ReadStep::Pending(next) => match next.run(channel, words.skip(1)) {
                    Some(end) => Some(ReadEnd { taken: end.taken + 1, ..end }),
                    None => None,
                },
            }
        }
    }

    /// An upper bound on the number of words that the read still takes.
    pub open spec fn budget(self) -> int {
        let left: int = if self.counter < MAX_POLLS {
            MAX_POLLS - self.counter
        } else {
            0
        };
        match self.register {
            MailRegister::Status => if left == 0 {
                2
            } else {
                2 * left
            },
            MailRegister::Read => 2 * left + 1,
        }
    }

    /// A read never waits forever: whatever the registers hold, it ends
    /// within `budget()` words. The message it hands back is the last word
    /// it took. That message is on the channel of the read, unless the
    /// status register was polled `MAX_POLLS` times.
    pub proof fn lemma_read_ends(self, channel: int, words: Seq<u32>)
        requires
            words.len() >= self.budget(),
        ensures
            self.run(channel, words) matches Some(end) && {
                &&& 1 <= end.taken <= self.budget()
                &&& end.mail.bitfield == words[end.taken - 1]
                &&& end.mail.channel() == channel || end.polls >= MAX_POLLS
                &&& end.polls >= self.counter
            },
        decreases words.len(),
    {
        match self.step(channel, words[0]) {
            ReadStep::Done(mail) => {},
            ReadStep::Pending(next) => {
                next.lemma_read_ends(channel, words.skip(1));
            },
        }
    }
}

impl MailMessage {
    /// One step of a bounded read on `channel`: takes `raw`, the word that
    /// the caller has read from `poll.register`, and says how to go on.
    pub fn mailbox_read(channel: usize, poll: ReadPoll, raw: u32) -> (step: ReadStep)
        ensures
            step == poll.step(channel as int, raw),
    {
        let mut counter: usize = poll.counter;
        match poll.register {
            MailRegister::Status => {
                let mut status: MailStatus = MailStatus::new();
                status.update(raw);
                if counter < MAX_POLLS {
                    counter += 1;
                }
                if counter >= MAX_POLLS || !status.is_read_empty() {
                    ReadStep::Pending(ReadPoll { counter, register: MailRegister::Read })
                } else {
                    ReadStep::Pending(ReadPoll { counter, register: MailRegister::Status })
                }
            },
            MailRegister::Read => {
                let mut res: MailMessage = MailMessage::new();
                res.update(raw);
                if res.get_channel_id() == channel || counter >= MAX_POLLS {
                    ReadStep::Done(res)
                } else {
                    ReadStep::Pending(ReadPoll { counter, register: MailRegister::Status })
                }
            },
        }
    }

    /// One step of a write on `channel`: stamps the channel on the message
    /// and takes `status`, a word that the caller has just read from the
    /// status register. While the write queue is full nothing is to be
    /// written and the caller polls again; otherwise the result is the word
    /// to store in the write register.
    pub fn mailbox_write(&mut self, channel: usize, status: u32) -> (word: Option<u32>)
        ensures
            final(self).channel() == channel as int % 16,
            final(self).data() == old(self).data(),
            word == if (MailStatus { bitfield: status }).write_full() {
                None
            } else {
                Some(final(self).bitfield)
            },
    {
        let mut snapshot: MailStatus = MailStatus::new();
        self.set_channel_id((channel % 16) as u8);
        snapshot.update(status);
        if snapshot.is_write_full() {
            None
        } else {
            Some(self.write())
        }
    }
}

} // verus!
