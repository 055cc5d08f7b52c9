use mini_uart::bus::{Bus, Event, Traced};
use mini_uart::registers::{
    Function, Register, AUX_ENABLES_OFFSET, BAUD_DIVISOR, CNTL_TX_RX, LCR_EIGHT_BITS,
    LSR_DATA_READY, LSR_TX_AVAILABLE, MU_BLOCK_LEN, MU_BLOCK_OFFSET, RX_PIN, TX_PIN,
};
use mini_uart::sim::SimBoard;

const BLOCK: [Register; 11] = [
    Register::Io,
    Register::Ier,
    Register::Iir,
    Register::Lcr,
    Register::Mcr,
    Register::Lsr,
    Register::Msr,
    Register::Scratch,
    Register::Cntl,
    Register::Stat,
    Register::Baud,
];

#[test]
fn registers_sit_at_their_offsets() {
    let offsets: Vec<usize> = BLOCK.iter().map(|r| r.offset()).collect();
    assert_eq!(offsets, vec![0, 4, 8, 12, 16, 20, 24, 28, 32, 36, 40]);
    assert_eq!(Register::AuxEnables.offset(), 0x21_5004);
    assert_eq!(AUX_ENABLES_OFFSET, 0x21_5004);
    assert_eq!(MU_BLOCK_OFFSET, 0x21_5040);
}

#[test]
fn registers_have_their_widths() {
    for r in BLOCK {
        let expected = match r {
            Register::Stat => 4,
            Register::Baud => 2,
            _ => 1,
        };
        assert_eq!(r.width(), expected);
    }
    assert_eq!(Register::AuxEnables.width(), 1);
    assert_eq!(Register::Io.max_value(), 0xFF);
    assert_eq!(Register::Baud.max_value(), 0xFFFF);
    assert_eq!(Register::Stat.max_value(), 0xFFFF_FFFF);
}

#[test]
fn registers_do_not_overlap_and_fill_the_block() {
    for (i, a) in BLOCK.iter().enumerate() {
        assert!(a.offset() + a.width() <= MU_BLOCK_LEN);
        assert_eq!(a.offset() % a.width(), 0);
        for b in &BLOCK[i + 1..] {
            assert!(a.offset() + a.width() <= b.offset());
        }
    }
    assert_eq!(Register::Baud.offset() + Register::Baud.width() + 2, MU_BLOCK_LEN);
}

#[test]
fn status_registers_are_read_only() {
    for r in BLOCK {
        let expected = matches!(r, Register::Lsr | Register::Msr | Register::Stat);
        assert_eq!(r.read_only(), expected);
    }
    assert!(!Register::AuxEnables.read_only());
}

#[test]
fn constants_have_their_values() {
    assert_eq!(LSR_DATA_READY, 1);
    assert_eq!(LSR_TX_AVAILABLE, 1 << 5);
    assert_eq!(LCR_EIGHT_BITS, 0b11);
    assert_eq!(BAUD_DIVISOR, 270);
    assert_eq!(CNTL_TX_RX, 0b11);
    assert_eq!((TX_PIN, RX_PIN), (14, 15));
}

#[test]
fn traced_passes_calls_through() {
    let mut port = Traced::new(SimBoard::new(vec![0x77], 0, 0, 5));
    port.configure_pin(3, Function::Output);
    assert_eq!(port.load(Register::Lsr), 0x21);
    assert_eq!(port.load(Register::Io), 0x77);
    port.store(Register::Scratch, 0xAB);
    assert_eq!(port.now(), 0);
    assert_eq!(port.now(), 5);
    assert_eq!(port.bus().scratch, 0xAB);
    let board = port.into_inner();
    assert_eq!(
        board.log,
        vec![
            Event::Pin { pin: 3, function: Function::Output },
            Event::Load { reg: Register::Lsr, value: 0x21 },
            Event::Load { reg: Register::Io, value: 0x77 },
            Event::Store { reg: Register::Scratch, value: 0xAB },
            Event::Clock { micros: 0 },
            Event::Clock { micros: 5 },
        ]
    );
}

#[test]
fn board_after_reset() {
    let board = SimBoard::new(vec![1, 2], 3, 4, 5);
    assert_eq!(
        (board.ier, board.lcr, board.mcr, board.scratch, board.cntl, board.baud, board.aux_enables),
        (0, 0, 0, 0, 0, 0, 0)
    );
    assert_eq!(board.incoming, vec![1, 2]);
    assert_eq!((board.taken, board.rx_delay, board.rx_idle), (0, 3, 3));
    assert!(board.sent.is_empty());
    assert_eq!((board.tx_delay, board.tx_busy, board.dropped), (4, 0, 0));
    assert_eq!((board.clock, board.tick), (0, 5));
    assert!(board.log.is_empty());
    assert!(!board.rx_ready());
    assert_eq!(board.status(), 0x20);
}

#[test]
fn board_shows_each_byte_after_its_delay() {
    let mut board = SimBoard::new(vec![0xA1, 0xA2], 2, 0, 1);
    let mut shown = Vec::new();
    for _ in 0..3 {
        shown.push(board.load(Register::Lsr));
    }
    assert_eq!(shown, vec![0x20, 0x20, 0x21]);
    assert!(board.rx_ready());
    assert_eq!(board.load(Register::Io), 0xA1);
    assert!(!board.rx_ready());
    assert_eq!(board.load(Register::Lsr), 0x20);
    assert_eq!(board.load(Register::Lsr), 0x20);
    assert_eq!(board.load(Register::Io), 0xA2);
    assert_eq!(board.load(Register::Lsr), 0x20);
    assert_eq!(board.load(Register::Io), 0);
    assert_eq!(board.taken, 2);
}

#[test]
fn board_loses_a_byte_stored_to_a_full_queue() {
    let mut board = SimBoard::new(Vec::new(), 0, 2, 1);
    board.store(Register::Io, 0x31);
    assert_eq!(board.status(), 0x00);
    board.store(Register::Io, 0x32);
    assert_eq!(board.sent, vec![0x31]);
    assert_eq!(board.dropped, 1);
    assert_eq!(board.load(Register::Lsr), 0x00);
    assert_eq!(board.load(Register::Lsr), 0x00);
    assert_eq!(board.load(Register::Lsr), 0x20);
    board.store(Register::Io, 0x33);
    assert_eq!(board.sent, vec![0x31, 0x33]);
}

#[test]
fn board_registers_hold_what_is_stored() {
    let mut board = SimBoard::new(Vec::new(), 0, 0, 1);
    let writable = [
        Register::Ier,
        Register::Lcr,
        Register::Mcr,
        Register::Scratch,
        Register::Cntl,
        Register::Baud,
        Register::AuxEnables,
    ];
    for (i, r) in writable.iter().enumerate() {
        board.store(*r, 10 + i as u32);
    }
    for (i, r) in writable.iter().enumerate() {
        assert_eq!(board.load(*r), 10 + i as u32);
    }
    for r in [Register::Iir, Register::Msr, Register::Stat] {
        assert_eq!(board.load(r), 0);
    }
}

#[test]
fn board_clock_moves_by_its_step_and_stops_at_the_end() {
    let mut board = SimBoard::new(Vec::new(), 0, 0, 250);
    assert_eq!(board.now(), 0);
    assert_eq!(board.now(), 250);
    assert_eq!(board.now(), 500);
    board.clock = u64::MAX - 100;
    assert_eq!(board.now(), u64::MAX - 100);
    assert_eq!(board.now(), u64::MAX);
    assert_eq!(board.now(), u64::MAX);
}
