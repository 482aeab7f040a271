use fbconsole::mailbox::{
    MailMessage, MailRegister, MailStatus, ReadPoll, ReadStep, GPU_MAILBOX_READ,
    GPU_MAILBOX_STATUS, GPU_MAILBOX_WRITE, MAX_POLLS, PROPERTY_CHANNEL,
};
use fbconsole::uart::{uart_getc, uart_putc, GetStep, UartFlags, UartRegister};

const READ_EMPTY: u32 = 1 << 30;
const WRITE_FULL: u32 = 1 << 31;

/// Runs a read against a device that answers every status poll with
/// `status(n)` and every read of the message register with `message(n)`,
/// where `n` counts the accesses to that register. Returns the message and
/// the number of status polls and message reads.
fn drive_read(
    channel: usize,
    status: &dyn Fn(usize) -> u32,
    message: &dyn Fn(usize) -> u32,
) -> (MailMessage, usize, usize) {
    let mut poll = ReadPoll::new();
    let mut polls = 0usize;
    let mut reads = 0usize;
    loop {
        let raw = match poll.register {
            MailRegister::Status => {
                polls += 1;
                status(polls - 1)
            }
            MailRegister::Read => {
                reads += 1;
                message(reads - 1)
            }
        };
        match MailMessage::mailbox_read(channel, poll, raw) {
            ReadStep::Pending(next) => poll = next,
            ReadStep::Done(mail) => return (mail, polls, reads),
        }
        assert!(polls + reads <= 2 * MAX_POLLS, "the read must end");
    }
}

#[test]
fn status_starts_clear() {
    let status = MailStatus::new();
    assert_eq!(status.bitfield, 0);
    assert!(!status.is_read_empty());
    assert!(!status.is_write_full());
}

#[test]
fn status_flags_follow_bits_30_and_31() {
    let mut status = MailStatus::new();
    status.update(READ_EMPTY);
    assert!(status.is_read_empty());
    assert!(!status.is_write_full());
    status.update(WRITE_FULL);
    assert!(!status.is_read_empty());
    assert!(status.is_write_full());
    status.update(0x3FFF_FFFF);
    assert!(!status.is_read_empty());
    assert!(!status.is_write_full());
    status.update(0xFFFF_FFFF);
    assert!(status.is_read_empty());
    assert!(status.is_write_full());
}

#[test]
fn message_fields_are_packed() {
    let mut mail = MailMessage::new();
    assert_eq!(mail.bitfield, 0);
    mail.set_data(0x0ABC_DEF1);
    mail.set_channel_id(8);
    assert_eq!(mail.bitfield, 0xABCD_EF18);
    assert_eq!(mail.get_channel_id(), 8);
    assert_eq!(mail.get_data(), 0x0ABC_DEF1);
    assert_eq!(mail.write(), 0xABCD_EF18);
}

#[test]
fn set_channel_keeps_data_and_takes_low_bits() {
    let mut mail = MailMessage { bitfield: 0x1234_5671 };
    mail.set_channel_id(0xF8);
    assert_eq!(mail.bitfield, 0x1234_5678);
    assert_eq!(mail.get_channel_id(), 8);
    assert_eq!(mail.get_data(), 0x0123_4567);
}

#[test]
fn set_data_keeps_channel_and_takes_low_28_bits() {
    let mut mail = MailMessage { bitfield: 0x0000_0007 };
    mail.set_data(0xF765_4321);
    assert_eq!(mail.bitfield, 0x7654_3217);
    assert_eq!(mail.get_channel_id(), 7);
    assert_eq!(mail.get_data(), 0x0765_4321);
}

#[test]
fn message_update_takes_the_register_word() {
    let mut mail = MailMessage::new();
    mail.update(0xC010_0008);
    assert_eq!(mail.bitfield, 0xC010_0008);
    assert_eq!(mail.get_channel_id(), 8);
    assert_eq!(mail.get_address(), 0xC010_0000);
}

#[test]
fn aligned_address_round_trips() {
    for addr in [0u32, 16, 0x1230, 0x3F00_B880, 0xFFFF_FFF0] {
        let mut mail = MailMessage::new();
        mail.set_channel_id(8);
        mail.set_address(addr);
        assert_eq!(mail.get_address(), addr);
        assert_eq!(mail.get_data(), (addr >> 4) as usize);
        assert_eq!(mail.get_channel_id(), 8);
        assert_eq!((addr >> 4) << 4, addr);
    }
}

#[test]
fn unaligned_address_loses_its_low_bits() {
    for addr in [1u32, 15, 0x1234, 0xFFFF_FFFF] {
        let mut mail = MailMessage::new();
        mail.set_address(addr);
        assert_eq!(mail.get_address(), addr & 0xFFFF_FFF0);
        assert_ne!(mail.get_address(), addr);
    }
}

#[test]
fn write_waits_while_the_queue_is_full() {
    let mut mail = MailMessage::new();
    mail.set_address(0x0001_2340);
    assert_eq!(mail.mailbox_write(PROPERTY_CHANNEL, WRITE_FULL), None);
    assert_eq!(mail.mailbox_write(PROPERTY_CHANNEL, WRITE_FULL | READ_EMPTY), None);
    assert_eq!(mail.get_channel_id(), 8);
    assert_eq!(mail.mailbox_write(PROPERTY_CHANNEL, READ_EMPTY), Some(0x0001_2348));
    assert_eq!(mail.mailbox_write(PROPERTY_CHANNEL, 0), Some(0x0001_2348));
}

#[test]
fn write_stamps_the_channel_modulo_16() {
    let mut mail = MailMessage { bitfield: 0xABCD_EF05 };
    assert_eq!(mail.mailbox_write(0x21, 0), Some(0xABCD_EF01));
    assert_eq!(mail.bitfield, 0xABCD_EF01);
}

#[test]
fn read_poll_starts_with_the_status_register() {
    let poll = ReadPoll::new();
    assert_eq!(poll.counter, 0);
    assert_eq!(poll.register, MailRegister::Status);
    assert_eq!(poll.register.address(), GPU_MAILBOX_STATUS);
    assert_eq!(MailRegister::Read.address(), GPU_MAILBOX_READ);
    assert_eq!(GPU_MAILBOX_READ, 0x3F00_B880);
    assert_eq!(GPU_MAILBOX_STATUS, 0x3F00_B898);
    assert_eq!(GPU_MAILBOX_WRITE, 0x3F00_B8A0);
}

#[test]
fn read_steps_one_by_one() {
    let poll = ReadPoll::new();
    let step = MailMessage::mailbox_read(8, poll, READ_EMPTY);
    assert_eq!(
        step,
        ReadStep::Pending(ReadPoll { counter: 1, register: MailRegister::Status })
    );
    let poll = ReadPoll { counter: 1, register: MailRegister::Status };
    let step = MailMessage::mailbox_read(8, poll, 0);
    assert_eq!(step, ReadStep::Pending(ReadPoll { counter: 2, register: MailRegister::Read }));
    let poll = ReadPoll { counter: 2, register: MailRegister::Read };
    let step = MailMessage::mailbox_read(8, poll, 0x0000_1231);
    assert_eq!(
        step,
        ReadStep::Pending(ReadPoll { counter: 2, register: MailRegister::Status })
    );
    let step = MailMessage::mailbox_read(8, poll, 0x0000_1238);
    assert_eq!(step, ReadStep::Done(MailMessage { bitfield: 0x0000_1238 }));
}

#[test]
fn read_returns_the_first_message_of_its_channel() {
    let (mail, polls, reads) = drive_read(
        8,
        &|n| if n % 3 == 2 { 0 } else { READ_EMPTY },
        &|n| if n < 2 { 0x0000_5551 } else { 0x0C0F_FEE8 },
    );
    assert_eq!(mail.bitfield, 0x0C0F_FEE8);
    assert_eq!(mail.get_channel_id(), 8);
    assert_eq!(reads, 3);
    assert_eq!(polls, 9);
}

#[test]
fn read_gives_up_when_the_queue_stays_empty() {
    let (mail, polls, reads) = drive_read(8, &|_| READ_EMPTY, &|_| 0x0000_0BA1);
    assert_eq!(polls, MAX_POLLS);
    assert_eq!(polls, 20000);
    assert_eq!(reads, 1);
    assert_eq!(mail.bitfield, 0x0000_0BA1);
    assert_eq!(mail.get_channel_id(), 1);
}

#[test]
fn read_gives_up_when_no_message_is_on_its_channel() {
    let (mail, polls, reads) = drive_read(8, &|_| 0, &|n| ((n as u32) << 4) | 1);
    assert_eq!(polls, 20000);
    assert_eq!(reads, 20000);
    assert_eq!(mail.bitfield, (19999 << 4) | 1);
}

#[test]
fn read_counter_stops_at_the_cap() {
    let poll = ReadPoll { counter: MAX_POLLS, register: MailRegister::Status };
    let step = MailMessage::mailbox_read(8, poll, READ_EMPTY);
    assert_eq!(
        step,
        ReadStep::Pending(ReadPoll { counter: MAX_POLLS, register: MailRegister::Read })
    );
    let poll = ReadPoll { counter: MAX_POLLS, register: MailRegister::Read };
    let step = MailMessage::mailbox_read(8, poll, 0x0000_0001);
    assert_eq!(step, ReadStep::Done(MailMessage { bitfield: 1 }));
}

#[test]
fn uart_flags_follow_bits_4_and_5() {
    assert!(UartFlags { bitfield: 0x10 }.is_rx_empty());
    assert!(!UartFlags { bitfield: 0x10 }.is_tx_full());
    assert!(UartFlags { bitfield: 0x20 }.is_tx_full());
    assert!(!UartFlags { bitfield: 0x20 }.is_rx_empty());
    assert!(!UartFlags { bitfield: 0xFFFF_FFCF }.is_rx_empty());
    assert!(!UartFlags { bitfield: 0xFFFF_FFCF }.is_tx_full());
}

#[test]
fn uart_put_waits_while_the_queue_is_full() {
    assert_eq!(uart_putc(b'x', 0x20), None);
    assert_eq!(uart_putc(b'x', 0x30), None);
    assert_eq!(uart_putc(b'x', 0x10), Some(0x78));
    assert_eq!(uart_putc(0xFF, 0), Some(0xFF));
}

#[test]
fn uart_get_polls_then_reads_the_low_byte() {
    assert_eq!(uart_getc(UartRegister::Flags, 0x10), GetStep::Read(UartRegister::Flags));
    assert_eq!(uart_getc(UartRegister::Flags, 0x20), GetStep::Read(UartRegister::Data));
    assert_eq!(uart_getc(UartRegister::Data, 0x0000_0041), GetStep::Done(b'A'));
    assert_eq!(uart_getc(UartRegister::Data, 0xFFFF_FF0A), GetStep::Done(b'\n'));
}
