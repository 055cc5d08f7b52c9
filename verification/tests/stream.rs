use mini_uart::bus::{Bus, Event};
use mini_uart::registers::{Function, Register};
use mini_uart::sim::SimBoard;
use mini_uart::stream::{ReadError, TextCursor, CARRIAGE_RETURN, LINE_FEED};
use mini_uart::uart::{MiniUart, Poll};

fn send_text(uart: &mut MiniUart<SimBoard>, text: &str) -> usize {
    let mut cursor = TextCursor::start();
    let mut calls = 0;
    while !cursor.is_done(text) {
        cursor = uart.write_str(text, cursor);
        calls += 1;
        assert!(calls < 10_000);
    }
    calls
}

/// A machine whose line status follows a script, whatever is done to it.
struct Scripted {
    status: Vec<u32>,
    polls: usize,
    data: u32,
    loads_of_data: usize,
}

impl Scripted {
    fn new(status: Vec<u32>, data: u32) -> Scripted {
        Scripted { status, polls: 0, data, loads_of_data: 0 }
    }
}

impl Bus for Scripted {
    fn configure_pin(&mut self, _pin: u8, _function: Function) {}

    fn load(&mut self, reg: Register) -> u32 {
        match reg {
            Register::Lsr => {
                let shown = self.status.get(self.polls).copied().unwrap_or(0);
                self.polls += 1;
                shown
            }
            Register::Io => {
                self.loads_of_data += 1;
                self.data
            }
            _ => 0,
        }
    }

    fn store(&mut self, _reg: Register, _value: u32) {}

    fn now(&mut self) -> u64 {
        0
    }
}

fn status_reads(log: &[Event]) -> usize {
    log.iter()
        .filter(|e| matches!(e, Event::Load { reg: Register::Lsr, .. }))
        .count()
}

#[test]
fn text_gets_a_carriage_return_before_each_line_feed() {
    let mut uart = MiniUart::new(SimBoard::new(Vec::new(), 0, 0, 1));
    let calls = send_text(&mut uart, "a\nb");
    assert_eq!(calls, 1);
    assert_eq!(uart.bus().sent, vec![b'a', b'\r', b'\n', b'b']);
}

#[test]
fn text_goes_out_the_same_over_a_slow_transmitter() {
    let mut uart = MiniUart::new(SimBoard::new(Vec::new(), 0, 2, 1));
    let calls = send_text(&mut uart, "a\nb");
    assert!(calls > 1);
    assert_eq!(uart.bus().sent, vec![b'a', b'\r', b'\n', b'b']);
    assert_eq!(uart.bus().dropped, 0);
}

#[test]
fn text_write_stops_between_carriage_return_and_line_feed() {
    let mut uart = MiniUart::new(SimBoard::new(Vec::new(), 0, 1, 1));
    let cursor = uart.write_str("\n", TextCursor::start());
    assert_eq!(cursor, TextCursor { index: 0, cr_sent: true });
    assert!(!cursor.is_done("\n"));
    assert_eq!(uart.bus().sent, vec![CARRIAGE_RETURN]);
    let cursor = uart.write_str("\n", cursor);
    assert_eq!(cursor, TextCursor { index: 1, cr_sent: false });
    assert!(cursor.is_done("\n"));
    assert_eq!(uart.bus().sent, vec![CARRIAGE_RETURN, LINE_FEED]);
}

#[test]
fn text_without_line_feeds_goes_out_unchanged() {
    let mut uart = MiniUart::new(SimBoard::new(Vec::new(), 0, 0, 1));
    send_text(&mut uart, "hello\r!");
    assert_eq!(uart.bus().sent, b"hello\r!".to_vec());
}

#[test]
fn text_of_line_feeds_only() {
    let mut uart = MiniUart::new(SimBoard::new(Vec::new(), 0, 0, 1));
    send_text(&mut uart, "\n\n");
    assert_eq!(uart.bus().sent, vec![b'\r', b'\n', b'\r', b'\n']);
}

#[test]
fn text_beyond_ascii_goes_out_byte_by_byte() {
    let mut uart = MiniUart::new(SimBoard::new(Vec::new(), 0, 0, 1));
    send_text(&mut uart, "é\n");
    assert_eq!(uart.bus().sent, vec![0xC3, 0xA9, b'\r', b'\n']);
}

#[test]
fn empty_text_touches_no_hardware() {
    let mut uart = MiniUart::new(SimBoard::new(Vec::new(), 0, 0, 1));
    let events = uart.bus().log.len();
    let cursor = uart.write_str("", TextCursor::start());
    assert!(cursor.is_done(""));
    assert_eq!(uart.bus().log.len(), events);
}

#[test]
fn text_write_from_a_finished_cursor_sends_nothing() {
    let mut uart = MiniUart::new(SimBoard::new(Vec::new(), 0, 0, 1));
    let end = uart.write_str("ab", TextCursor::start());
    assert!(end.is_done("ab"));
    let events = uart.bus().log.len();
    let again = uart.write_str("ab", end);
    assert_eq!(again, end);
    assert_eq!(uart.bus().log.len(), events);
    let beyond = TextCursor { index: 99, cr_sent: true };
    assert_eq!(uart.write_str("ab", beyond), beyond);
    assert_eq!(uart.bus().sent, vec![b'a', b'b']);
}

#[test]
fn text_write_polls_once_per_byte_when_there_is_room() {
    let mut uart = MiniUart::new(SimBoard::new(Vec::new(), 0, 0, 1));
    let events = uart.bus().log.len();
    send_text(&mut uart, "a\nb");
    assert_eq!(
        uart.bus().log[events..],
        [
            Event::Load { reg: Register::Lsr, value: 0x20 },
            Event::Store { reg: Register::Io, value: b'a' as u32 },
            Event::Load { reg: Register::Lsr, value: 0x20 },
            Event::Store { reg: Register::Io, value: b'\r' as u32 },
            Event::Load { reg: Register::Lsr, value: 0x20 },
            Event::Store { reg: Register::Io, value: b'\n' as u32 },
            Event::Load { reg: Register::Lsr, value: 0x20 },
            Event::Store { reg: Register::Io, value: b'b' as u32 },
        ]
    );
}

#[test]
fn buffered_read_drains_what_is_ready() {
    let mut uart = MiniUart::new(SimBoard::new(vec![0x11, 0x22], 0, 0, 1));
    let mut buf = [0xEEu8; 4];
    assert_eq!(uart.read(&mut buf), Poll::Ready(Ok(2)));
    assert_eq!(buf, [0x11, 0x22, 0xEE, 0xEE]);
    assert_eq!(uart.bus().taken, 2);
}

#[test]
fn buffered_read_makes_these_bus_accesses() {
    let mut uart = MiniUart::new(SimBoard::new(vec![0x11, 0x22], 0, 0, 7));
    let events = uart.bus().log.len();
    let mut buf = [0u8; 4];
    assert_eq!(uart.read(&mut buf), Poll::Ready(Ok(2)));
    assert_eq!(
        uart.bus().log[events..],
        [
            Event::Clock { micros: 0 },
            Event::Load { reg: Register::Lsr, value: 0x21 },
            Event::Load { reg: Register::Lsr, value: 0x21 },
            Event::Load { reg: Register::Lsr, value: 0x21 },
            Event::Load { reg: Register::Io, value: 0x11 },
            Event::Load { reg: Register::Lsr, value: 0x21 },
            Event::Load { reg: Register::Lsr, value: 0x21 },
            Event::Load { reg: Register::Io, value: 0x22 },
            Event::Load { reg: Register::Lsr, value: 0x20 },
        ]
    );
}

#[test]
fn buffered_read_stops_when_the_buffer_is_full() {
    let mut uart = MiniUart::new(SimBoard::new(vec![1, 2, 3], 0, 0, 1));
    let mut buf = [0u8; 2];
    assert_eq!(uart.read(&mut buf), Poll::Ready(Ok(2)));
    assert_eq!(buf, [1, 2]);
    assert_eq!(uart.bus().taken, 2);
    let mut rest = [0u8; 2];
    assert_eq!(uart.read(&mut rest), Poll::Ready(Ok(1)));
    assert_eq!(rest, [3, 0]);
}

#[test]
fn buffered_read_does_not_wait_for_a_second_byte() {
    let mut uart = MiniUart::new(SimBoard::new(vec![1, 2], 1, 0, 1));
    let mut buf = [9u8; 4];
    assert_eq!(uart.read(&mut buf), Poll::Pending);
    assert_eq!(buf, [9, 9, 9, 9]);
    assert_eq!(uart.read(&mut buf), Poll::Ready(Ok(1)));
    assert_eq!(buf, [1, 9, 9, 9]);
}

#[test]
fn buffered_read_into_nothing_takes_nothing() {
    let mut uart = MiniUart::new(SimBoard::new(vec![1], 0, 0, 1));
    let mut buf = [0u8; 0];
    let events = uart.bus().log.len();
    assert_eq!(uart.read(&mut buf), Poll::Ready(Ok(0)));
    assert_eq!(uart.bus().taken, 0);
    assert_eq!(status_reads(&uart.bus().log[events..]), 2);
}

#[test]
fn buffered_read_times_out_with_nothing_consumed() {
    let mut uart = MiniUart::new(SimBoard::new(Vec::new(), 0, 0, 1000));
    uart.set_read_timeout(2);
    let mut buf = [0x55u8; 4];
    let mut steps = 0;
    let outcome = loop {
        steps += 1;
        match uart.read(&mut buf) {
            Poll::Ready(r) => break r,
            Poll::Pending => assert!(steps < 100),
        }
    };
    assert_eq!(outcome, Err(ReadError::TimedOut));
    assert_eq!(steps, 3);
    assert_eq!(buf, [0x55; 4]);
    assert_eq!(uart.bus().taken, 0);
}

#[test]
fn buffered_read_without_timeout_stays_pending() {
    let mut uart = MiniUart::new(SimBoard::new(Vec::new(), 0, 0, 1000));
    let mut buf = [0u8; 4];
    for _ in 0..1000 {
        assert_eq!(uart.read(&mut buf), Poll::Pending);
    }
}

#[test]
fn buffered_write_sends_the_whole_buffer() {
    let mut uart = MiniUart::new(SimBoard::new(Vec::new(), 0, 0, 1));
    assert_eq!(uart.write(b"a\nb"), 3);
    assert_eq!(uart.bus().sent, vec![b'a', b'\n', b'b']);
}

#[test]
fn buffered_write_says_how_far_it_came() {
    let mut uart = MiniUart::new(SimBoard::new(Vec::new(), 0, 2, 1));
    let data = [1u8, 2, 3];
    let mut done = 0;
    let mut calls = 0;
    let mut counts = Vec::new();
    while done < data.len() {
        let n = uart.write(&data[done..]);
        counts.push(n);
        done += n;
        calls += 1;
        assert!(calls < 100);
    }
    assert_eq!(counts, vec![1, 0, 1, 0, 1]);
    assert_eq!(uart.bus().sent, vec![1, 2, 3]);
    assert_eq!(uart.bus().dropped, 0);
}

#[test]
fn buffered_write_of_nothing_touches_no_hardware() {
    let mut uart = MiniUart::new(SimBoard::new(Vec::new(), 0, 0, 1));
    let events = uart.bus().log.len();
    assert_eq!(uart.write(&[]), 0);
    assert_eq!(uart.bus().log.len(), events);
}

#[test]
fn flush_touches_no_hardware() {
    let mut uart = MiniUart::new(SimBoard::new(vec![1], 0, 0, 1));
    assert_eq!(uart.write(&[7]), 1);
    let events = uart.bus().log.len();
    uart.flush();
    assert_eq!(uart.bus().log.len(), events);
    assert_eq!(uart.bus().sent, vec![7]);
    assert_eq!(uart.bus().taken, 0);
}

#[test]
fn cursor_starts_before_the_text() {
    let cursor = TextCursor::start();
    assert_eq!(cursor, TextCursor { index: 0, cr_sent: false });
    assert!(cursor.is_done(""));
    assert!(!cursor.is_done("x"));
}

#[test]
fn buffered_read_with_room_never_counts_zero() {
    let mut uart = MiniUart::new(Scripted::new(vec![0x21, 0x20], 0x99));
    let mut buf = [0x55u8; 4];
    assert_eq!(uart.read(&mut buf), Poll::Pending);
    assert_eq!(buf, [0x55; 4]);
    assert_eq!(uart.bus().loads_of_data, 0);
    assert_eq!(uart.bus().polls, 2);
}

#[test]
fn buffered_read_is_pending_when_the_byte_is_gone_on_the_second_look() {
    let mut uart = MiniUart::new(Scripted::new(vec![0x21, 0x21, 0x20], 0x99));
    let mut buf = [0x55u8; 4];
    assert_eq!(uart.read(&mut buf), Poll::Pending);
    assert_eq!(buf, [0x55; 4]);
    assert_eq!(uart.bus().loads_of_data, 0);
    assert_eq!(uart.bus().polls, 3);
}

#[test]
fn buffered_read_begins_a_new_wait_after_taking_nothing() {
    let mut uart = MiniUart::new(Scripted::new(vec![0x21, 0x20, 0x21, 0x21, 0x21, 0x00], 0x1_42));
    let mut buf = [0u8; 2];
    assert_eq!(uart.read(&mut buf), Poll::Pending);
    assert_eq!(uart.read(&mut buf), Poll::Ready(Ok(1)));
    assert_eq!(buf, [0x42, 0]);
    assert_eq!(uart.bus().polls, 6);
}

#[test]
fn buffered_read_keeps_what_it_took_when_the_next_byte_is_gone() {
    let mut uart = MiniUart::new(Scripted::new(vec![0x01, 0x01, 0x01, 0x01, 0x00], 0x7E));
    let mut buf = [0u8; 4];
    assert_eq!(uart.read(&mut buf), Poll::Ready(Ok(1)));
    assert_eq!(buf, [0x7E, 0, 0, 0]);
    assert_eq!(uart.bus().loads_of_data, 1);
}

#[test]
fn read_byte_keeps_the_low_eight_bits() {
    let mut uart = MiniUart::new(Scripted::new(vec![0x01], 0xABCD_EF12));
    assert_eq!(uart.read_byte(), Poll::Ready(0x12));
}
