//! The driver core: bring-up, the read timeout, and one-byte transfers.
//!
//! No call waits. Where the hardware is not ready, a call reports
//! `Poll::Pending` after a single look at the line status, and the caller
//! repeats it for as long as it wants to block.

use vstd::prelude::*;
use crate::bus::{Bus, Event, Traced, linked, state_before, step_takes};
use crate::registers::{
    Function, Register, AUX_ENABLE_MINI_UART, BAUD_DIVISOR, CNTL_TX_RX, LCR_EIGHT_BITS,
    LSR_DATA_READY, LSR_TX_AVAILABLE, RX_PIN, TX_PIN, data_ready, tx_available,
};

verus! {

/// Outcome of a call that would otherwise have to wait.
#[derive(Debug, PartialEq, Eq, Structural)]
pub enum Poll<T> {
    /// The operation is complete.
    Ready(T),
    /// The hardware was not ready; repeat the call to go on waiting.
    Pending,
}

/// The low eight bits of a loaded value.
pub open spec fn low_byte(value: u32) -> u8 {
    (value & 0xFF) as u8
}

/// What bring-up does on the bus, where the auxiliary-enable register held
/// `enables`: both pins go to the serial function, the mini UART's enable bit
/// is set beside the bits that were there, then word length, baud rate and
/// the two enables of the transceiver are written.
pub open spec fn bring_up(enables: u32) -> Seq<Event> {
    seq![
        Event::Pin { pin: TX_PIN, function: Function::Alt5 },
        Event::Pin { pin: RX_PIN, function: Function::Alt5 },
        Event::Load { reg: Register::AuxEnables, value: enables },
        Event::Store {
            reg: Register::AuxEnables,
            value: (enables & 0xFF) | AUX_ENABLE_MINI_UART,
        },
        Event::Store { reg: Register::Lcr, value: LCR_EIGHT_BITS },
        Event::Store { reg: Register::Baud, value: BAUD_DIVISOR },
        Event::Store { reg: Register::Cntl, value: CNTL_TX_RX },
    ]
}

/// Whether a clock reading of `now` lies past the deadline of a wait that
/// began at `start` with a timeout of `ms` milliseconds.
pub open spec fn past_deadline(start: u64, ms: u32, now: u64) -> bool {
    now > start + ms * 1000
}

/// Whether one step of a wait took the log from `before` to `after`, ended
/// as `waited` says and left the driver with `since_after`, where the
/// driver had `since` as the start of the wait in progress and `timeout` as
/// its read timeout.
///
/// A step that finds no wait in progress first reads the clock, and that
/// reading is the start. Then the line status is read. Where it shows a
/// byte, the wait ends with `Ok`. Where it shows none and no timeout is set,
/// the step is `Pending`. Where it shows none and a timeout is set, the
/// clock is read: the wait ends with `Err` if that reading is past the
/// deadline, and the step is `Pending` if not.
pub open spec fn is_wait_step(
    since: Option<u64>,
    timeout: Option<u32>,
    before: Seq<Event>,
    after: Seq<Event>,
    waited: Poll<Result<(), ()>>,
    since_after: Option<u64>,
) -> bool {
    let begun: int = if since is None { 1 } else { 0 };
    let at = before.len() + begun;
    let start = match since {
        Some(s) => s,
        None => after[before.len() as int]->Clock_micros,
    };
    let opened = if since is None {
        before.push(Event::Clock { micros: start })
    } else {
        before
    };
    let status = after[at]->Load_value;
    let polled = opened.push(Event::Load { reg: Register::Lsr, value: status });
    &&& after.len() > at
    &&& if data_ready(status) {
        &&& waited == Poll::Ready(Ok::<(), ()>(()))
        &&& since_after is None
        &&& after == polled
    } else {
        match timeout {
            None => {
                &&& waited == Poll::<Result<(), ()>>::Pending
                &&& since_after == Some(start)
                &&& after == polled
            },
            Some(ms) => {
                let now = after.last()->Clock_micros;
                &&& after == polled.push(Event::Clock { micros: now })
                &&& if past_deadline(start, ms, now) {
                    &&& waited == Poll::Ready(Err::<(), ()>(()))
                    &&& since_after is None
                } else {
                    &&& waited == Poll::<Result<(), ()>>::Pending
                    &&& since_after == Some(start)
                }
            },
        }
    }
}

/// What a step of a wait decides, and on what. The start of the wait is
/// `since` where a wait was in progress, and else the clock reading that
/// opens the step. The step ends the wait with `Ok` exactly where the line
/// status shows a byte, and with `Err` exactly where it shows none, a
/// timeout is set and the clock reading after it is past the deadline.
/// After `Pending` the wait goes on from the same start; after an end no
/// wait is in progress. The step stores nothing: it adds clock readings and
/// one read of the line status to the log, and no more.
pub proof fn lemma_wait_step_verdict(
    since: Option<u64>,
    timeout: Option<u32>,
    before: Seq<Event>,
    after: Seq<Event>,
    waited: Poll<Result<(), ()>>,
    since_after: Option<u64>,
)
    requires
        is_wait_step(since, timeout, before, after, waited, since_after),
    ensures
        ({
            let at = before.len() + if since is None { 1int } else { 0int };
            let start = match since {
                Some(s) => s,
                None => after[before.len() as int]->Clock_micros,
            };
            let status = after[at]->Load_value;
            &&& before.is_prefix_of(after)
            &&& after[at] == Event::Load { reg: Register::Lsr, value: status }
            &&& waited == Poll::Ready(Ok::<(), ()>(())) <==> data_ready(status)
            &&& waited == Poll::Ready(Err::<(), ()>(())) <==> {
                &&& !data_ready(status)
                &&& timeout is Some
                &&& past_deadline(start, timeout->Some_0, after.last()->Clock_micros)
            }
            &&& waited is Pending ==> since_after == Some(start)
            &&& waited is Ready ==> since_after is None
            &&& forall|i: int|
                before.len() <= i < after.len() && i != at ==> #[trigger] after[i] is Clock
        }),
{
}

/// The mini UART, owning the machine it talks to.
pub struct MiniUart<B: Bus> {
    line: Traced<B>,
    timeout: Option<u32>,
    waiting_since: Option<u64>,
}

impl<B: Bus> MiniUart<B> {
    /// Every bus transaction the driver has made, oldest first.
    pub closed spec fn log(&self) -> Seq<Event> {
        self.line.log()
    }

    /// The read timeout in milliseconds; `None` where reads wait for ever.
    pub closed spec fn timeout(&self) -> Option<u32> {
        self.timeout
    }

    /// The clock reading at which the wait in progress began, if one is.
    pub closed spec fn waiting_since(&self) -> Option<u64> {
        self.waiting_since
    }

    /// The machine under the driver.
    pub closed spec fn machine(&self) -> B {
        self.line.inner()
    }

    /// The machine as the driver took it over.
    pub closed spec fn origin(&self) -> B {
        self.line.origin()
    }

    /// The machine as each bus transaction of the driver left it, oldest
    /// first.
    pub closed spec fn states(&self) -> Seq<B> {
        self.line.states()
    }

    /// Whether the machine went from its origin through every transaction of
    /// the log, in order, and is as the last of them left it. It holds of a
    /// driver fresh from `new`, and every call keeps it.
    pub open spec fn chained(&self) -> bool {
        &&& linked(self.origin(), self.log(), self.states())
        &&& self.machine() == state_before(self.origin(), self.states(), self.log().len() as int)
    }

    /// Brings the hardware up and returns the driver, with no read timeout
    /// and no wait in progress.
    pub fn new(bus: B) -> (uart: Self)
        ensures
            uart.log().len() == 7,
            uart.log() == bring_up(uart.log()[2]->Load_value),
            uart.timeout() is None,
            uart.waiting_since() is None,
            uart.origin() == bus,
            uart.chained(),
    {
        let mut line = Traced::new(bus);
        line.configure_pin(TX_PIN, Function::Alt5);
        line.configure_pin(RX_PIN, Function::Alt5);
        let enables: u32 = line.load(Register::AuxEnables);
        let enabled: u32 = (enables & 0xFF) | AUX_ENABLE_MINI_UART;
        assert(enabled <= 0xFF) by (bit_vector)
            requires
                enabled == (enables & 0xFF) | 1u32,
        ;
        line.store(Register::AuxEnables, enabled);
        line.store(Register::Lcr, LCR_EIGHT_BITS);
        line.store(Register::Baud, BAUD_DIVISOR);
        line.store(Register::Cntl, CNTL_TX_RX);
        assert(line.log() =~= bring_up(enables));
        MiniUart { line, timeout: None, waiting_since: None }
    }

    /// Sets the read timeout to `milliseconds`, whatever it was before. With
    /// 0, a wait gives up as soon as the clock has moved and no byte is
    /// ready.
    pub fn set_read_timeout(&mut self, milliseconds: u32)
        ensures
            final(self).timeout() == Some(milliseconds),
            final(self).waiting_since() == old(self).waiting_since(),
            final(self).log() == old(self).log(),
            final(self).machine() == old(self).machine(),
            final(self).origin() == old(self).origin(),
            final(self).states() == old(self).states(),
    {
        self.timeout = Some(milliseconds);
    }

    /// Whether a received byte is ready: one read of the line status, and
    /// nothing written.
    pub fn has_byte(&mut self) -> (ready: bool)
        ensures
            final(self).timeout() == old(self).timeout(),
            final(self).waiting_since() == old(self).waiting_since(),
            final(self).log() == old(self).log().push(
                Event::Load { reg: Register::Lsr, value: final(self).log().last()->Load_value },
            ),
            ready == data_ready(final(self).log().last()->Load_value),
            step_takes(old(self).machine(), final(self).log().last(), final(self).machine()),
            final(self).origin() == old(self).origin(),
            old(self).chained() ==> final(self).chained(),
    {
        let status: u32 = self.line.load(Register::Lsr);
        status & LSR_DATA_READY != 0
    }

    /// Sends `byte` if the transmit queue has room: one read of the line
    /// status, and where it shows room, one store of `byte` to the data
    /// register. Where it shows none, nothing is written and the result is
    /// `Pending`.
    pub fn write_byte(&mut self, byte: u8) -> (sent: Poll<()>)
        ensures
            final(self).timeout() == old(self).timeout(),
            final(self).waiting_since() == old(self).waiting_since(),
            final(self).origin() == old(self).origin(),
            old(self).chained() ==> final(self).chained(),
            final(self).log().len() > old(self).log().len(),
            ({
                let status = final(self).log()[old(self).log().len() as int]->Load_value;
                let poll = Event::Load { reg: Register::Lsr, value: status };
                if tx_available(status) {
                    &&& sent == Poll::Ready(())
                    &&& final(self).log() == old(self).log().push(poll).push(
                        Event::Store { reg: Register::Io, value: byte as u32 },
                    )
                } else {
                    &&& sent == Poll::<()>::Pending
                    &&& final(self).log() == old(self).log().push(poll)
                }
            }),
    {
        let status: u32 = self.line.load(Register::Lsr);
        if status & LSR_TX_AVAILABLE != 0 {
            self.line.store(Register::Io, byte as u32);
            Poll::Ready(())
        } else {
            Poll::Pending
        }
    }

    /// Takes a received byte if one is ready: one read of the line status,
    /// and where it shows a byte, one load of the data register, whose low
    /// eight bits are the byte. Where it shows none, the data register is
    /// left alone and the result is `Pending`. The read timeout plays no
    /// part.
    pub fn read_byte(&mut self) -> (got: Poll<u8>)
        ensures
            final(self).timeout() == old(self).timeout(),
            final(self).waiting_since() == old(self).waiting_since(),
            final(self).origin() == old(self).origin(),
            old(self).chained() ==> final(self).chained(),
            final(self).log().len() > old(self).log().len(),
            ({
                let status = final(self).log()[old(self).log().len() as int]->Load_value;
                let poll = Event::Load { reg: Register::Lsr, value: status };
                if data_ready(status) {
                    let data = final(self).log().last()->Load_value;
                    &&& got == Poll::Ready(low_byte(data))
                    &&& final(self).log() == old(self).log().push(poll).push(
                        Event::Load { reg: Register::Io, value: data },
                    )
                } else {
                    &&& got == Poll::<u8>::Pending
                    &&& final(self).log() == old(self).log().push(poll)
                }
            }),
    {
        let status: u32 = self.line.load(Register::Lsr);
        if status & LSR_DATA_READY != 0 {
            let data: u32 = self.line.load(Register::Io);
            Poll::Ready((data & 0xFF) as u8)
        } else {
            Poll::Pending
        }
    }

    /// One step of waiting for a byte.
    ///
    /// The first step of a wait reads the clock: that reading is the start of
    /// the wait. Every step then reads the line status. Where it shows a
    /// byte, the wait ends with `Ok`, whatever the time. Where it shows none
    /// and no timeout is set, the step is `Pending`. Where it shows none and
    /// a timeout is set, the step reads the clock once more: the wait ends
    /// with `Err` if that reading is past the start plus the timeout, and
    /// the step is `Pending` if not. A wait that has ended leaves no trace in
    /// the driver: the next call begins a new one.
    pub fn wait_for_byte(&mut self) -> (waited: Poll<Result<(), ()>>)
        ensures
            final(self).timeout() == old(self).timeout(),
            final(self).origin() == old(self).origin(),
            old(self).chained() ==> final(self).chained(),
            is_wait_step(
                old(self).waiting_since(),
                old(self).timeout(),
                old(self).log(),
                final(self).log(),
                waited,
                final(self).waiting_since(),
            ),
    {
        let start: u64 = match self.waiting_since {
            Some(since) => since,
            None => self.line.now(),
        };
        let status: u32 = self.line.load(Register::Lsr);
        if status & LSR_DATA_READY != 0 {
            self.waiting_since = None;
            return Poll::Ready(Ok(()));
        }
        match self.timeout {
            None => {
                self.waiting_since = Some(start);
                Poll::Pending
            },
            Some(ms) => {
                let now: u64 = self.line.now();
                let budget: u64 = ms as u64 * 1000;
                if now > start && now - start > budget {
                    self.waiting_since = None;
                    Poll::Ready(Err(()))
                } else {
                    self.waiting_since = Some(start);
                    Poll::Pending
                }
            },
        }
    }

    /// The machine under the driver, to look at.
    pub fn bus(&self) -> (bus: &B)
        ensures
            *bus == self.machine(),
    {
        self.line.bus()
    }
}

} // verus!
