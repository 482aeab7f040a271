//! The serial port as values: the flag register, and the two polls that
//! frame the transfer of a byte.

use vstd::prelude::*;

verus! {

/// A snapshot of the flag register of the serial port.
///
/// Bit 4 is set while the receive queue is empty, bit 5 while the transmit
/// queue is full.
#[derive(Clone, Copy, Debug, PartialEq, Eq, Structural)]
pub struct UartFlags {
    pub bitfield: u32,
}

impl UartFlags {
    /// Bit 4 of the snapshot.
    pub open spec fn rx_empty(self) -> bool {
        (self.bitfield as int / 16) % 2 == 1
    }

    /// Bit 5 of the snapshot.
    pub open spec fn tx_full(self) -> bool {
        (self.bitfield as int / 32) % 2 == 1
    }

    pub fn is_rx_empty(&self) -> (empty: bool)
        ensures
            empty == self.rx_empty(),
    {
        let word: u32 = self.bitfield;
        assert(((word & 0x10u32) != 0) == ((word / 16u32) % 2 == 1)) by (bit_vector);
        word & 0x10 != 0
    }

    pub fn is_tx_full(&self) -> (full: bool)
        ensures
            full == self.tx_full(),
    {
        let word: u32 = self.bitfield;
        assert(((word & 0x20u32) != 0) == ((word / 32u32) % 2 == 1)) by (bit_vector);
        word & 0x20 != 0
    }
}

/// The register whose word a receive needs next.
#[derive(Clone, Copy, Debug, PartialEq, Eq, Structural)]
pub enum UartRegister {
    Flags,
    Data,
}

/// What a receive does after one word: read a register, or hand back a byte.
#[derive(Clone, Copy, Debug, PartialEq, Eq, Structural)]
pub enum GetStep {
    Read(UartRegister),
    Done(u8),
}

/// The transition of a receive on `raw`, the word read from `register`: the
/// flags are polled until the receive queue is not empty, then the data
/// register is read once, and its low byte is the result.
pub open spec fn getc_step(register: UartRegister, raw: u32) -> GetStep {
    match register {
        UartRegister::Flags => if (UartFlags { bitfield: raw }).rx_empty() {
            GetStep::Read(UartRegister::Flags)
        } else {
            GetStep::Read(UartRegister::Data)
        },
        UartRegister::Data => GetStep::Done((raw % 256) as u8),
    }
}

/// One step of sending `ch`: takes `flags`, a word that the caller has just
/// read from the flag register. While the transmit queue is full nothing is
/// to be written and the caller polls again; otherwise the result is the word
/// to store in the data register.
pub fn uart_putc(ch: u8, flags: u32) -> (word: Option<u32>)
    ensures
        word == if (UartFlags { bitfield: flags }).tx_full() {
            None
        } else {
            Some(ch as u32)
        },
{
    let reg: UartFlags = UartFlags { bitfield: flags };
    if reg.is_tx_full() {
        None
    } else {
        Some(ch as u32)
    }
}

/// One step of receiving a byte: takes `raw`, the word that the caller has
/// read from `register`, and says how to go on. A receive starts with the
/// flag register.
pub fn uart_getc(register: UartRegister, raw: u32) -> (step: GetStep)
    ensures
        step == getc_step(register, raw),
{
    match register {
        UartRegister::Flags => {
            let reg: UartFlags = UartFlags { bitfield: raw };
            if reg.is_rx_empty() {
                GetStep::Read(UartRegister::Flags)
            } else {
                GetStep::Read(UartRegister::Data)
            }
        },
        UartRegister::Data => GetStep::Done((raw % 256) as u8),
    }
}

} // verus!
