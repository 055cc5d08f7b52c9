//! Driver for the mini UART, the auxiliary serial transceiver of the
//! system-on-chip, with every effect on the hardware stated as a trace of bus
//! events.

pub mod bus;
pub mod registers;
pub mod sim;
pub mod stream;
pub mod uart;
