//! What the driver needs from the machine it runs on: loads and stores on
//! the registers, the pin multiplexer, and a microsecond clock.
//!
//! Every access is volatile: it is one bus transaction, never merged with
//! another, never reordered and never dropped. The driver reaches the machine
//! only through `Traced`, which records each call as an `Event` together
//! with the machine as the call left it, so that the driver's contracts can
//! say which transactions it causes, in which order, and that the machine
//! went through every one of them.

use vstd::prelude::*;
use crate::registers::{Function, Register};

verus! {

/// One interaction of the driver with the machine.
#[derive(Clone, Copy, Debug, PartialEq, Eq, Structural)]
pub enum Event {
    /// A pin was switched to a function.
    Pin { pin: u8, function: Function },
    /// A register was read and gave `value`.
    Load { reg: Register, value: u32 },
    /// `value` was written to a register.
    Store { reg: Register, value: u32 },
    /// The clock was read and showed `micros`.
    Clock { micros: u64 },
}

/// The machine under the driver.
///
/// Nothing is promised of what a load or the clock returns: the driver is
/// verified for every answer the machine may give. What a call does to the
/// machine is the machine's to say, in the four relations below; a machine
/// that says nothing leaves them true of every step.
pub trait Bus: Sized {
    /// Whether switching `pin` to `function` may take the machine to `next`.
    open spec fn pin_takes(&self, pin: u8, function: Function, next: &Self) -> bool {
        true
    }

    /// Whether a load of `reg` may give `value` and take the machine to
    /// `next`.
    open spec fn load_takes(&self, reg: Register, value: u32, next: &Self) -> bool {
        true
    }

    /// Whether a store of `value` to `reg` may take the machine to `next`.
    open spec fn store_takes(&self, reg: Register, value: u32, next: &Self) -> bool {
        true
    }

    /// Whether a reading of the clock may show `micros` and take the machine
    /// to `next`.
    open spec fn clock_takes(&self, micros: u64, next: &Self) -> bool {
        true
    }

    /// Switches `pin` to `function`.
    fn configure_pin(&mut self, pin: u8, function: Function)
        ensures
            old(self).pin_takes(pin, function, final(self)),
    ;

    /// Reads `reg` in one transaction of the register's width.
    fn load(&mut self, reg: Register) -> (value: u32)
        ensures
            old(self).load_takes(reg, value, final(self)),
    ;

    /// Writes `value` to `reg` in one transaction of the register's width.
    fn store(&mut self, reg: Register, value: u32)
        requires
            reg.accepts(value),
        ensures
            old(self).store_takes(reg, value, final(self)),
    ;

    /// Reads the monotonic clock, in microseconds.
    fn now(&mut self) -> (micros: u64)
        ensures
            old(self).clock_takes(micros, final(self)),
    ;
}

/// Whether the call that `event` records may take the machine from `before`
/// to `after`.
pub open spec fn step_takes<B: Bus>(before: B, event: Event, after: B) -> bool {
    match event {
        Event::Pin { pin, function } => before.pin_takes(pin, function, &after),
        Event::Load { reg, value } => before.load_takes(reg, value, &after),
        Event::Store { reg, value } => before.store_takes(reg, value, &after),
        Event::Clock { micros } => before.clock_takes(micros, &after),
    }
}

/// The machine as it was before the `i`-th of the calls that led from
/// `origin` through `states`.
pub open spec fn state_before<B: Bus>(origin: B, states: Seq<B>, i: int) -> B {
    if i <= 0 {
        origin
    } else {
        states[i - 1]
    }
}

/// Whether the machine went from `origin` through the calls that `events`
/// record, in order, and was in `states[i]` after the `i`-th of them.
pub open spec fn linked<B: Bus>(origin: B, events: Seq<Event>, states: Seq<B>) -> bool {
    &&& states.len() == events.len()
    &&& forall|i: int|
        0 <= i < events.len() ==> step_takes(
            state_before(origin, states, i),
            #[trigger] events[i],
            states[i],
        )
}

/// A machine together with the record of every call made on it.
///
/// The fields are private to this file: the record grows by exactly one
/// event in each of the four calls below and in no other way, and each of
/// them has to show that the machine made the step.
pub struct Traced<B: Bus> {
    bus: B,
    origin: Ghost<B>,
    log: Ghost<Seq<Event>>,
    states: Ghost<Seq<B>>,
}

impl<B: Bus> Traced<B> {
    /// Every call made so far, oldest first.
    pub closed spec fn log(&self) -> Seq<Event> {
        self.log@
    }

    /// The machine as it is.
    pub closed spec fn inner(&self) -> B {
        self.bus
    }

    /// The machine as it was taken over.
    pub closed spec fn origin(&self) -> B {
        self.origin@
    }

    /// The machine as each call so far left it, oldest first.
    pub closed spec fn states(&self) -> Seq<B> {
        self.states@
    }

    /// Whether the machine went from its origin through every call of the
    /// record and is as the last of them left it. It holds of a machine just
    /// taken over, and each call keeps it.
    pub open spec fn chained(&self) -> bool {
        &&& linked(self.origin(), self.log(), self.states())
        &&& self.inner() == state_before(self.origin(), self.states(), self.log().len() as int)
    }

    /// Takes the machine over, with an empty record.
    pub fn new(bus: B) -> (traced: Self)
        ensures
            traced.log() == Seq::<Event>::empty(),
            traced.states() == Seq::<B>::empty(),
            traced.inner() == bus,
            traced.origin() == bus,
            traced.chained(),
    {
        Traced { bus, origin: Ghost(bus), log: Ghost(Seq::empty()), states: Ghost(Seq::empty()) }
    }

    /// Switches `pin` to `function`.
    pub fn configure_pin(&mut self, pin: u8, function: Function)
        ensures
            final(self).log() == old(self).log().push(Event::Pin { pin, function }),
            final(self).states() == old(self).states().push(final(self).inner()),
            final(self).origin() == old(self).origin(),
            old(self).inner().pin_takes(pin, function, &final(self).inner()),
            old(self).chained() ==> final(self).chained(),
    {
        self.bus.configure_pin(pin, function);
        proof {
            self.log@ = self.log@.push(Event::Pin { pin, function });
            self.states@ = self.states@.push(self.bus);
        }
    }

    /// Reads `reg`.
    pub fn load(&mut self, reg: Register) -> (value: u32)
        ensures
            final(self).log() == old(self).log().push(Event::Load { reg, value }),
            final(self).states() == old(self).states().push(final(self).inner()),
            final(self).origin() == old(self).origin(),
            old(self).inner().load_takes(reg, value, &final(self).inner()),
            old(self).chained() ==> final(self).chained(),
    {
        let value: u32 = self.bus.load(reg);
        proof {
            self.log@ = self.log@.push(Event::Load { reg, value });
            self.states@ = self.states@.push(self.bus);
        }
        value
    }

    /// Writes `value` to `reg`.
    pub fn store(&mut self, reg: Register, value: u32)
        requires
            reg.accepts(value),
        ensures
            final(self).log() == old(self).log().push(Event::Store { reg, value }),
            final(self).states() == old(self).states().push(final(self).inner()),
            final(self).origin() == old(self).origin(),
            old(self).inner().store_takes(reg, value, &final(self).inner()),
            old(self).chained() ==> final(self).chained(),
    {
        self.bus.store(reg, value);
        proof {
            self.log@ = self.log@.push(Event::Store { reg, value });
            self.states@ = self.states@.push(self.bus);
        }
    }

    /// Reads the clock.
    pub fn now(&mut self) -> (micros: u64)
        ensures
            final(self).log() == old(self).log().push(Event::Clock { micros }),
            final(self).states() == old(self).states().push(final(self).inner()),
            final(self).origin() == old(self).origin(),
            old(self).inner().clock_takes(micros, &final(self).inner()),
            old(self).chained() ==> final(self).chained(),
    {
        let micros: u64 = self.bus.now();
        proof {
            self.log@ = self.log@.push(Event::Clock { micros });
            self.states@ = self.states@.push(self.bus);
        }
        micros
    }

    /// The machine, to look at.
    pub fn bus(&self) -> (bus: &B)
        ensures
            *bus == self.inner(),
    {
        &self.bus
    }

    /// Gives the machine back.
    pub fn into_inner(self) -> (bus: B)
        ensures
            bus == self.inner(),
    {
        self.bus
    }
}

} // verus!
