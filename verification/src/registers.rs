//! The register block of the mini UART: which registers exist, where each one
//! sits relative to the block's base address, how wide it is, and what the
//! bits of the line-status register mean.

use vstd::prelude::*;

verus! {

/// Offset of the mini UART's register block from the peripheral base address.
pub const MU_BLOCK_OFFSET: usize = 0x21_5040;

/// Offset of the auxiliary-enable register from the peripheral base address.
pub const AUX_ENABLES_OFFSET: usize = 0x21_5004;

/// Number of bytes that the mini UART's register block spans.
pub const MU_BLOCK_LEN: usize = 44;

/// Line-status bit: a received byte waits in the data register.
pub const LSR_DATA_READY: u32 = 0x01;

/// Line-status bit: the transmit queue has room for another byte.
pub const LSR_TX_AVAILABLE: u32 = 0x20;

/// Bit of the auxiliary-enable register that switches the mini UART on.
pub const AUX_ENABLE_MINI_UART: u32 = 0x01;

/// Line-control value for a word length of eight bits.
pub const LCR_EIGHT_BITS: u32 = 0b11;

/// Baud-rate divisor for about 115200 baud on the fixed input clock.
pub const BAUD_DIVISOR: u32 = 270;

/// Control value that enables both the transmitter and the receiver.
pub const CNTL_TX_RX: u32 = 0b11;

/// Pin that carries the transmit signal.
pub const TX_PIN: u8 = 14;

/// Pin that carries the receive signal.
pub const RX_PIN: u8 = 15;

/// A hardware register that the driver touches.
///
/// All but `AuxEnables` belong to the mini UART's own block; `AuxEnables` is
/// the separate register that makes that block live.
#[derive(Clone, Copy, Debug, PartialEq, Eq, Structural)]
pub enum Register {
    /// Data: a load takes a received byte, a store queues a byte to send.
    Io,
    /// Interrupt enable.
    Ier,
    /// Interrupt identify.
    Iir,
    /// Line control (word length).
    Lcr,
    /// Modem control.
    Mcr,
    /// Line status (read-only).
    Lsr,
    /// Modem status (read-only).
    Msr,
    /// Scratch.
    Scratch,
    /// Control (transmitter and receiver enable).
    Cntl,
    /// Extra status (read-only).
    Stat,
    /// Baud-rate divisor.
    Baud,
    /// Auxiliary enables, outside the mini UART's block.
    AuxEnables,
}

/// A role that a general-purpose pin can be switched to.
#[derive(Clone, Copy, Debug, PartialEq, Eq, Structural)]
pub enum Function {
    Input,
    Output,
    Alt0,
    Alt1,
    Alt2,
    Alt3,
    Alt4,
    Alt5,
}

impl Register {
    /// Whether the register lies in the mini UART's block.
    pub open spec fn in_block(self) -> bool {
        self != Register::AuxEnables
    }

    /// Byte offset of the register: from the block's base for a register of
    /// the block, from the peripheral base for `AuxEnables`.
    pub open spec fn spec_offset(self) -> usize {
        match self {
            Register::Io => 0,
            Register::Ier => 4,
            Register::Iir => 8,
            Register::Lcr => 12,
            Register::Mcr => 16,
            Register::Lsr => 20,
            Register::Msr => 24,
            Register::Scratch => 28,
            Register::Cntl => 32,
            Register::Stat => 36,
            Register::Baud => 40,
            Register::AuxEnables => 0x21_5004,
        }
    }

    /// Width of the register in bytes.
    pub open spec fn spec_width(self) -> usize {
        match self {
            Register::Stat => 4,
            Register::Baud => 2,
            _ => 1,
        }
    }

    /// Whether the hardware ignores stores to the register.
    pub open spec fn spec_read_only(self) -> bool {
        self == Register::Lsr || self == Register::Msr || self == Register::Stat
    }

    /// Largest value that the register can hold.
    pub open spec fn spec_max_value(self) -> u32 {
        match self {
            Register::Stat => 0xFFFF_FFFF,
            Register::Baud => 0xFFFF,
            _ => 0xFF,
        }
    }

    /// Whether `value` can be stored to the register.
    pub open spec fn accepts(self, value: u32) -> bool {
        !self.spec_read_only() && value <= self.spec_max_value()
    }

    /// Byte offset of the register (see `spec_offset`).
    #[verifier::when_used_as_spec(spec_offset)]
    pub fn offset(self) -> (r: usize)
        ensures
            r == self.spec_offset(),
    {
        match self {
            Register::Io => 0,
            Register::Ier => 4,
            Register::Iir => 8,
            Register::Lcr => 12,
            Register::Mcr => 16,
            Register::Lsr => 20,
            Register::Msr => 24,
            Register::Scratch => 28,
            Register::Cntl => 32,
            Register::Stat => 36,
            Register::Baud => 40,
            Register::AuxEnables => AUX_ENABLES_OFFSET,
        }
    }

    /// Width of the register in bytes.
    #[verifier::when_used_as_spec(spec_width)]
    pub fn width(self) -> (r: usize)
        ensures
            r == self.spec_width(),
    {
        match self {
            Register::Stat => 4,
            Register::Baud => 2,
            _ => 1,
        }
    }

    /// Whether the register is read-only.
    #[verifier::when_used_as_spec(spec_read_only)]
    pub fn read_only(self) -> (r: bool)
        ensures
            r == self.spec_read_only(),
    {
        match self {
            Register::Lsr | Register::Msr | Register::Stat => true,
            _ => false,
        }
    }

    /// Largest value that the register can hold.
    #[verifier::when_used_as_spec(spec_max_value)]
    pub fn max_value(self) -> (r: u32)
        ensures
            r == self.spec_max_value(),
    {
        match self {
            Register::Stat => 0xFFFF_FFFF,
            Register::Baud => 0xFFFF,
            _ => 0xFF,
        }
    }
}

/// Whether a line-status value reports a received byte.
pub open spec fn data_ready(status: u32) -> bool {
    status & LSR_DATA_READY != 0
}

/// Whether a line-status value reports room in the transmit queue.
pub open spec fn tx_available(status: u32) -> bool {
    status & LSR_TX_AVAILABLE != 0
}

/// Registers of the block lie inside it, each aligned to its own width, and
/// the width in bytes is what the largest value needs.
pub proof fn lemma_layout_in_block(r: Register)
    requires
        r.in_block(),
    ensures
        r.spec_offset() + r.spec_width() <= MU_BLOCK_LEN,
        r.spec_offset() % r.spec_width() == 0,
        r.spec_offset() % 4 == 0,
{
}

/// Two different registers of the block never share a byte.
pub proof fn lemma_layout_disjoint(a: Register, b: Register)
    requires
        a.in_block(),
        b.in_block(),
        a != b,
    ensures
        a.spec_offset() + a.spec_width() <= b.spec_offset() || b.spec_offset() + b.spec_width()
            <= a.spec_offset(),
{
}

} // verus!
