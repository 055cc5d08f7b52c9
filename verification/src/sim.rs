//! A simulated board: a register block that remembers what is stored to it,
//! a receiver fed from a script, a transmitter that records what it is
//! given, and a clock that moves by a fixed step at each reading.
//!
//! It stands in for the hardware wherever the driver is to be run without
//! it.

use vstd::prelude::*;
use crate::bus::{Bus, Event, linked, state_before, step_takes};
use crate::registers::{
    Function, Register, BAUD_DIVISOR, CNTL_TX_RX, LCR_EIGHT_BITS, LSR_DATA_READY,
    LSR_TX_AVAILABLE, data_ready, tx_available,
};
use crate::uart::{MiniUart, bring_up};

verus! {

/// The simulated board. Every field is open to the test that sets a scene
/// or looks at what has happened.
pub struct SimBoard {
    /// Interrupt-enable register.
    pub ier: u32,
    /// Line-control register.
    pub lcr: u32,
    /// Modem-control register.
    pub mcr: u32,
    /// Scratch register.
    pub scratch: u32,
    /// Control register.
    pub cntl: u32,
    /// Baud-rate divisor.
    pub baud: u32,
    /// Auxiliary-enable register.
    pub aux_enables: u32,
    /// The bytes that arrive on the line, in order.
    pub incoming: Vec<u8>,
    /// How many of them the data register has handed out.
    pub taken: usize,
    /// Reads of the line status that show no byte before each byte shows.
    pub rx_delay: u32,
    /// How many of those reads the next byte still has before it.
    pub rx_idle: u32,
    /// The bytes that the transmitter accepted, in order.
    pub sent: Vec<u8>,
    /// Reads of the line status that show the queue full after each byte.
    pub tx_delay: u32,
    /// How many of those reads the last byte still has before it.
    pub tx_busy: u32,
    /// Bytes stored to the data register while the queue was full, and lost.
    pub dropped: usize,
    /// What the clock shows next, in microseconds.
    pub clock: u64,
    /// By how much the clock moves at each reading.
    pub tick: u64,
    /// Every call made on the board, oldest first.
    pub log: Vec<Event>,
}

/// The simulated board as a mathematical value.
pub struct SimModel {
    pub ier: u32,
    pub lcr: u32,
    pub mcr: u32,
    pub scratch: u32,
    pub cntl: u32,
    pub baud: u32,
    pub aux_enables: u32,
    pub incoming: Seq<u8>,
    pub taken: usize,
    pub rx_delay: u32,
    pub rx_idle: u32,
    pub sent: Seq<u8>,
    pub tx_delay: u32,
    pub tx_busy: u32,
    pub dropped: usize,
    pub clock: u64,
    pub tick: u64,
    pub log: Seq<Event>,
}

impl View for SimBoard {
    type V = SimModel;

    open spec fn view(&self) -> SimModel {
        SimModel {
            ier: self.ier,
            lcr: self.lcr,
            mcr: self.mcr,
            scratch: self.scratch,
            cntl: self.cntl,
            baud: self.baud,
            aux_enables: self.aux_enables,
            incoming: self.incoming@,
            taken: self.taken,
            rx_delay: self.rx_delay,
            rx_idle: self.rx_idle,
            sent: self.sent@,
            tx_delay: self.tx_delay,
            tx_busy: self.tx_busy,
            dropped: self.dropped,
            clock: self.clock,
            tick: self.tick,
            log: self.log@,
        }
    }
}

/// One less, but never below zero.
pub open spec fn count_down(n: u32) -> u32 {
    if n == 0 {
        0
    } else {
        (n - 1) as u32
    }
}

impl SimModel {
    /// Whether a received byte waits in the data register.
    pub open spec fn rx_ready(self) -> bool {
        self.taken < self.incoming.len() && self.rx_idle == 0
    }

    /// Whether the transmit queue has room.
    pub open spec fn tx_room(self) -> bool {
        self.tx_busy == 0
    }

    /// What the line-status register shows.
    pub open spec fn status(self) -> u32 {
        if self.rx_ready() && self.tx_room() {
            0x21
        } else if self.rx_ready() {
            0x01
        } else if self.tx_room() {
            0x20
        } else {
            0x00
        }
    }

    /// What a load of `reg` gives.
    pub open spec fn shows(self, reg: Register) -> u32 {
        match reg {
            Register::Io => if self.rx_ready() {
                self.incoming[self.taken as int] as u32
            } else {
                0
            },
            Register::Ier => self.ier,
            Register::Lcr => self.lcr,
            Register::Mcr => self.mcr,
            Register::Lsr => self.status(),
            Register::Scratch => self.scratch,
            Register::Cntl => self.cntl,
            Register::Baud => self.baud,
            Register::AuxEnables => self.aux_enables,
            Register::Iir | Register::Msr | Register::Stat => 0,
        }
    }

    /// The board after a load of `reg`: a load of the line status brings
    /// the next byte and the room in the queue one read nearer, a load of
    /// the data register hands out the byte that waits there, and any other
    /// load changes nothing but the log.
    pub open spec fn loaded(self, reg: Register) -> SimModel {
        let logged = SimModel {
            log: self.log.push(Event::Load { reg, value: self.shows(reg) }),
            ..self
        };
        match reg {
            Register::Lsr => SimModel {
                rx_idle: if self.taken < self.incoming.len() {
                    count_down(self.rx_idle)
                } else {
                    self.rx_idle
                },
                tx_busy: count_down(self.tx_busy),
                ..logged
            },
            Register::Io => if self.rx_ready() {
                SimModel { taken: (self.taken + 1) as usize, rx_idle: self.rx_delay, ..logged }
            } else {
                logged
            },
            _ => logged,
        }
    }

    /// The board after a store of `value` to `reg`: the transmitter takes a
    /// byte stored to the data register if the queue has room and loses it
    /// if not, a register that can be written holds the value, and a
    /// read-only register ignores it.
    pub open spec fn stored(self, reg: Register, value: u32) -> SimModel {
        let logged = SimModel { log: self.log.push(Event::Store { reg, value }), ..self };
        match reg {
            Register::Io => if self.tx_room() {
                SimModel {
                    sent: self.sent.push((value & 0xFF) as u8),
                    tx_busy: self.tx_delay,
                    ..logged
                }
            } else {
                SimModel {
                    dropped: if self.dropped < usize::MAX {
                        (self.dropped + 1) as usize
                    } else {
                        self.dropped
                    },
                    ..logged
                }
            },
            Register::Ier => SimModel { ier: value, ..logged },
            Register::Lcr => SimModel { lcr: value, ..logged },
            Register::Mcr => SimModel { mcr: value, ..logged },
            Register::Scratch => SimModel { scratch: value, ..logged },
            Register::Cntl => SimModel { cntl: value, ..logged },
            Register::Baud => SimModel { baud: value, ..logged },
            Register::AuxEnables => SimModel { aux_enables: value, ..logged },
            Register::Iir | Register::Lsr | Register::Msr | Register::Stat => logged,
        }
    }

    /// The board after a reading of the clock: the clock has moved by its
    /// step, or to the largest time there is where the step would pass it.
    pub open spec fn clocked(self) -> SimModel {
        SimModel {
            clock: if self.clock + self.tick <= u64::MAX {
                (self.clock + self.tick) as u64
            } else {
                u64::MAX
            },
            log: self.log.push(Event::Clock { micros: self.clock }),
            ..self
        }
    }

    /// The board after a pin was switched: nothing but the log changes.
    pub open spec fn pinned(self, pin: u8, function: Function) -> SimModel {
        SimModel { log: self.log.push(Event::Pin { pin, function }), ..self }
    }
}

impl SimModel {
    /// The board after the call that `event` records. What a load or a
    /// clock reading gave is the board's to say: the value in the event
    /// plays no part.
    pub open spec fn step(self, event: Event) -> SimModel {
        match event {
            Event::Pin { pin, function } => self.pinned(pin, function),
            Event::Load { reg, value } => self.loaded(reg),
            Event::Store { reg, value } => self.stored(reg, value),
            Event::Clock { micros } => self.clocked(),
        }
    }

    /// Whether the value in `event`, where it has one that the board
    /// decides, is the one that the board gives.
    pub open spec fn gives(self, event: Event) -> bool {
        match event {
            Event::Load { reg, value } => value == self.shows(reg),
            Event::Clock { micros } => micros == self.clock,
            _ => true,
        }
    }

    /// The board after the calls that `events` record, made in order.
    pub open spec fn replay(self, events: Seq<Event>) -> SimModel
        decreases events.len(),
    {
        if events.len() == 0 {
            self
        } else {
            self.replay(events.drop_last()).step(events.last())
        }
    }
}

/// The line status of the simulated board shows a byte exactly when one
/// waits in the data register, and room exactly when the queue has room.
pub proof fn lemma_status_bits(board: SimModel)
    ensures
        data_ready(board.status()) <==> board.rx_ready(),
        tx_available(board.status()) <==> board.tx_room(),
{
    assert(0x21u32 & 0x01 != 0 && 0x21u32 & 0x20 != 0) by (bit_vector);
    assert(0x01u32 & 0x01 != 0 && 0x01u32 & 0x20 == 0) by (bit_vector);
    assert(0x20u32 & 0x01 == 0 && 0x20u32 & 0x20 != 0) by (bit_vector);
    assert(0x00u32 & 0x01 == 0 && 0x00u32 & 0x20 == 0) by (bit_vector);
}

/// A read of the line status changes no register of the simulated board
/// that can be written, takes no byte from the receiver and gives none to
/// the transmitter; a byte that it shows is still there afterwards.
pub proof fn lemma_status_read_is_quiet(board: SimModel)
    ensures
        ({
            let after = board.loaded(Register::Lsr);
            &&& forall|reg: Register|
                reg != Register::Lsr && reg != Register::Io ==> after.shows(reg) == board.shows(reg)
            &&& data_ready(board.status()) ==> after.rx_ready()
            &&& after.incoming == board.incoming
            &&& after.taken == board.taken
            &&& after.sent == board.sent
            &&& after.dropped == board.dropped
            &&& after.clock == board.clock
        }),
{
    lemma_status_bits(board);
}

/// Replaying one more event is one more step.
pub proof fn lemma_replay_push(board: SimModel, events: Seq<Event>, event: Event)
    ensures
        board.replay(events.push(event)) == board.replay(events).step(event),
{
    assert(events.push(event).drop_last() =~= events);
}

/// A simulated board that has gone through the driver's bring-up holds 8-bit
/// word length in line control, 270 in the baud-rate divisor and both
/// enables in control; the mini UART's bit is set in the auxiliary enables
/// and the other bits of that register's byte are as they were. Nothing was
/// sent and no byte was taken.
pub proof fn lemma_bring_up_settles(board: SimModel)
    ensures
        ({
            let up = board.replay(bring_up(board.aux_enables));
            &&& up.lcr == LCR_EIGHT_BITS
            &&& up.baud == BAUD_DIVISOR
            &&& up.cntl == CNTL_TX_RX
            &&& up.aux_enables == (board.aux_enables & 0xFF) | 1
            &&& up.log == board.log + bring_up(board.aux_enables)
            &&& up.sent == board.sent
            &&& up.taken == board.taken
        }),
{
    let trace = bring_up(board.aux_enables);
    let t0 = Seq::<Event>::empty();
    let t1 = t0.push(trace[0]);
    let t2 = t1.push(trace[1]);
    let t3 = t2.push(trace[2]);
    let t4 = t3.push(trace[3]);
    let t5 = t4.push(trace[4]);
    let t6 = t5.push(trace[5]);
    let t7 = t6.push(trace[6]);
    assert(t7 =~= trace);
    assert(board.replay(t0) == board);
    lemma_replay_push(board, t0, trace[0]);
    lemma_replay_push(board, t1, trace[1]);
    lemma_replay_push(board, t2, trace[2]);
    lemma_replay_push(board, t3, trace[3]);
    lemma_replay_push(board, t4, trace[4]);
    lemma_replay_push(board, t5, trace[5]);
    lemma_replay_push(board, t6, trace[6]);
    assert(board.replay(t7).log =~= board.log + trace);
}

/// A simulated board that went through the calls of `events` is what
/// replaying them on its model gives, after each call and at the end, and
/// every value in `events` is the one that the board gave.
pub proof fn lemma_linked_replay(origin: SimBoard, events: Seq<Event>, states: Seq<SimBoard>)
    requires
        linked(origin, events, states),
    ensures
        state_before(origin, states, events.len() as int)@ == origin@.replay(events),
        forall|i: int|
            0 <= i <= events.len() ==> (#[trigger] state_before(origin, states, i))@
                == origin@.replay(events.take(i)),
        forall|i: int|
            0 <= i < events.len() ==> origin@.replay(events.take(i)).gives(#[trigger] events[i]),
    decreases events.len(),
{
    let n = events.len() as int;
    if n == 0 {
        assert(events.take(0) =~= events);
    } else {
        let front = events.drop_last();
        let front_states = states.drop_last();
        assert forall|i: int| 0 <= i < front.len() implies step_takes(
            state_before(origin, front_states, i),
            #[trigger] front[i],
            front_states[i],
        ) by {
            assert(front[i] == events[i]);
            assert(state_before(origin, front_states, i) == state_before(origin, states, i));
        }
        lemma_linked_replay(origin, front, front_states);
        let last = events.last();
        assert(events[n - 1] == last);
        assert(state_before(origin, front_states, n - 1) == state_before(origin, states, n - 1));
        assert(events.take(n) =~= events);
        assert(events.take(n - 1) =~= front);
        assert forall|i: int| 0 <= i <= n implies (#[trigger] state_before(origin, states, i))@
            == origin@.replay(events.take(i)) by {
            if i < n {
                assert(state_before(origin, states, i) == state_before(origin, front_states, i));
                assert(events.take(i) =~= front.take(i));
            }
        }
        assert forall|i: int| 0 <= i < n implies origin@.replay(events.take(i)).gives(
            #[trigger] events[i],
        ) by {
            if i < n - 1 {
                assert(events.take(i) =~= front.take(i));
                assert(front[i] == events[i]);
            }
        }
    }
}

/// Under the driver, the simulated board is at every moment what replaying
/// the driver's log on the board as it was taken over gives.
pub proof fn lemma_board_follows_log(uart: MiniUart<SimBoard>)
    requires
        uart.chained(),
    ensures
        uart.machine()@ == uart.origin()@.replay(uart.log()),
        forall|i: int|
            0 <= i < uart.log().len() ==> uart.origin()@.replay(uart.log().take(i)).gives(
                #[trigger] uart.log()[i],
            ),
{
    lemma_linked_replay(uart.origin(), uart.log(), uart.states());
}

/// After bring-up on a simulated board, the board itself holds 8-bit word
/// length in line control, 270 in the baud-rate divisor and both enables in
/// control, and the mini UART's bit is set in its auxiliary enables.
pub proof fn lemma_board_after_bring_up(uart: MiniUart<SimBoard>)
    requires
        uart.chained(),
        uart.log() == bring_up(uart.log()[2]->Load_value),
    ensures
        uart.machine()@ == uart.origin()@.replay(bring_up(uart.origin().aux_enables)),
        uart.machine().lcr == LCR_EIGHT_BITS,
        uart.machine().baud == BAUD_DIVISOR,
        uart.machine().cntl == CNTL_TX_RX,
        uart.machine().aux_enables == (uart.origin().aux_enables & 0xFF) | 1,
        uart.machine().sent@ == uart.origin().sent@,
        uart.machine().taken == uart.origin().taken,
{
    let board = uart.origin()@;
    let log = uart.log();
    lemma_board_follows_log(uart);
    let t0 = Seq::<Event>::empty();
    let t1 = t0.push(log[0]);
    let t2 = t1.push(log[1]);
    assert(log.take(2) =~= t2);
    assert(board.replay(t0) == board);
    lemma_replay_push(board, t0, log[0]);
    lemma_replay_push(board, t1, log[1]);
    assert(board.replay(log.take(2)).gives(log[2]));
    assert(log[2]->Load_value == board.aux_enables);
    lemma_bring_up_settles(board);
}

impl SimBoard {
    /// A board after reset: every register zero, nothing sent, the clock at
    /// zero and the log empty. The bytes of `incoming` will arrive in order,
    /// each after `rx_delay` reads of the line status that show none; the
    /// transmit queue shows full for `tx_delay` reads of the line status
    /// after each byte; the clock moves by `tick` at each reading.
    pub fn new(incoming: Vec<u8>, rx_delay: u32, tx_delay: u32, tick: u64) -> (board: SimBoard)
        ensures
            board@ == (SimModel {
                ier: 0,
                lcr: 0,
                mcr: 0,
                scratch: 0,
                cntl: 0,
                baud: 0,
                aux_enables: 0,
                incoming: incoming@,
                taken: 0,
                rx_delay,
                rx_idle: rx_delay,
                sent: Seq::empty(),
                tx_delay,
                tx_busy: 0,
                dropped: 0,
                clock: 0,
                tick,
                log: Seq::empty(),
            }),
    {
        SimBoard {
            ier: 0,
            lcr: 0,
            mcr: 0,
            scratch: 0,
            cntl: 0,
            baud: 0,
            aux_enables: 0,
            incoming,
            taken: 0,
            rx_delay,
            rx_idle: rx_delay,
            sent: Vec::new(),
            tx_delay,
            tx_busy: 0,
            dropped: 0,
            clock: 0,
            tick,
            log: Vec::new(),
        }
    }

    /// Whether a received byte waits in the data register.
    pub fn rx_ready(&self) -> (ready: bool)
        ensures
            ready == self@.rx_ready(),
    {
        self.taken < self.incoming.len() && self.rx_idle == 0
    }

    /// What the line-status register shows.
    pub fn status(&self) -> (status: u32)
        ensures
            status == self@.status(),
    {
        let ready: bool = self.rx_ready();
        let room: bool = self.tx_busy == 0;
        if ready && room {
            LSR_DATA_READY + LSR_TX_AVAILABLE
        } else if ready {
            LSR_DATA_READY
        } else if room {
            LSR_TX_AVAILABLE
        } else {
            0
        }
    }
}

impl Bus for SimBoard {
    open spec fn pin_takes(&self, pin: u8, function: Function, next: &Self) -> bool {
        next@ == self@.pinned(pin, function)
    }

    open spec fn load_takes(&self, reg: Register, value: u32, next: &Self) -> bool {
        value == self@.shows(reg) && next@ == self@.loaded(reg)
    }

    open spec fn store_takes(&self, reg: Register, value: u32, next: &Self) -> bool {
        next@ == self@.stored(reg, value)
    }

    open spec fn clock_takes(&self, micros: u64, next: &Self) -> bool {
        micros == self@.clock && next@ == self@.clocked()
    }

    fn configure_pin(&mut self, pin: u8, function: Function)
        ensures
            final(self)@ == old(self)@.pinned(pin, function),
    {
        self.log.push(Event::Pin { pin, function });
    }

    fn load(&mut self, reg: Register) -> (value: u32)
        ensures
            value == old(self)@.shows(reg),
            final(self)@ == old(self)@.loaded(reg),
    {
        let value: u32 = match reg {
            Register::Lsr => {
                let status: u32 = self.status();
                if self.taken < self.incoming.len() && self.rx_idle > 0 {
                    self.rx_idle = self.rx_idle - 1;
                }
                if self.tx_busy > 0 {
                    self.tx_busy = self.tx_busy - 1;
                }
                status
            },
            Register::Io => {
                if self.taken < self.incoming.len() && self.rx_idle == 0 {
                    let byte: u8 = self.incoming[self.taken];
                    self.taken = self.taken + 1;
                    self.rx_idle = self.rx_delay;
                    byte as u32
                } else {
                    0
                }
            },
            Register::Ier => self.ier,
            Register::Lcr => self.lcr,
            Register::Mcr => self.mcr,
            Register::Scratch => self.scratch,
            Register::Cntl => self.cntl,
            Register::Baud => self.baud,
            Register::AuxEnables => self.aux_enables,
            Register::Iir | Register::Msr | Register::Stat => 0,
        };
        self.log.push(Event::Load { reg, value });
        value
    }

    fn store(&mut self, reg: Register, value: u32)
        ensures
            final(self)@ == old(self)@.stored(reg, value),
    {
        match reg {
            Register::Io => {
                if self.tx_busy == 0 {
                    self.sent.push((value & 0xFF) as u8);
                    self.tx_busy = self.tx_delay;
                } else if self.dropped < usize::MAX {
                    self.dropped = self.dropped + 1;
                }
            },
            Register::Ier => {
                self.ier = value;
            },
            Register::Lcr => {
                self.lcr = value;
            },
            Register::Mcr => {
                self.mcr = value;
            },
            Register::Scratch => {
                self.scratch = value;
            },
            Register::Cntl => {
                self.cntl = value;
            },
            Register::Baud => {
                self.baud = value;
            },
            Register::AuxEnables => {
                self.aux_enables = value;
            },
            Register::Iir | Register::Lsr | Register::Msr | Register::Stat => {},
        }
        self.log.push(Event::Store { reg, value });
    }

    fn now(&mut self) -> (micros: u64)
        ensures
            micros == old(self)@.clock,
            final(self)@ == old(self)@.clocked(),
    {
        let micros: u64 = self.clock;
        if self.tick <= u64::MAX - self.clock {
            self.clock = self.clock + self.tick;
        } else {
            self.clock = u64::MAX;
        }
        self.log.push(Event::Clock { micros });
        micros
    }
}

} // verus!
