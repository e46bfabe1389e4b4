//! The chip's register map and the two-byte command word.

use vstd::prelude::*;

verus! {

/// A register of the controller chip.
///
/// `Digit(row)` is the register that holds one row of the matrix.  Only the
/// low three bits of `row` are significant: the chip has eight row registers.
#[derive(Clone, Copy, Debug, PartialEq, Eq, Structural)]
pub enum Register {
    NoOp,
    Digit(u8),
    DecodeMode,
    Intensity,
    ScanLimit,
    Shutdown,
    DisplayTest,
}

impl Register {
    /// The address byte of the register, always in `0x0..=0xF`.
    pub open spec fn address(self) -> u8 {
        match self {
            Register::NoOp => 0x00,
            Register::Digit(row) => (1 + row % 8) as u8,
            Register::DecodeMode => 0x09,
            Register::Intensity => 0x0A,
            Register::ScanLimit => 0x0B,
            Register::Shutdown => 0x0C,
            Register::DisplayTest => 0x0F,
        }
    }

    /// The value the chip accepts in this register for a requested `value`:
    /// the bits outside the register's range are dropped.
    pub open spec fn payload(self, value: u8) -> u8 {
        match self {
            Register::Intensity => value % 16,
            Register::ScanLimit => value % 8,
            Register::Shutdown => value % 2,
            Register::DisplayTest => value % 2,
            _ => value,
        }
    }

    /// Computes [`Register::address`].
    pub fn addr(self) -> (a: u8)
        ensures
            a == self.address(),
            a <= 0x0F,
    {
        match self {
            Register::NoOp => 0x00,
            Register::Digit(row) => 1 + row % 8,
            Register::DecodeMode => 0x09,
            Register::Intensity => 0x0A,
            Register::ScanLimit => 0x0B,
            Register::Shutdown => 0x0C,
            Register::DisplayTest => 0x0F,
        }
    }

    /// Computes [`Register::payload`].
    pub fn mask(self, value: u8) -> (v: u8)
        ensures
            v == self.payload(value),
    {
        match self {
            Register::Intensity => value % 16,
            Register::ScanLimit => value % 8,
            Register::Shutdown => value % 2,
            Register::DisplayTest => value % 2,
            _ => value,
        }
    }
}

/// The two bytes of the command word that writes `value` to `register`.
pub open spec fn command_word(register: Register, value: u8) -> Seq<u8> {
    seq![register.address(), register.payload(value)]
}

/// The command word every chip ignores.
pub open spec fn no_op_word() -> Seq<u8> {
    command_word(Register::NoOp, 0)
}

/// Encodes one command: the register's address, then the value reduced to
/// the register's range.  Every input is accepted.
pub fn encode(register: Register, value: u8) -> (word: [u8; 2])
    ensures
        word@ == command_word(register, value),
        word@[0] == register.address(),
        word@[1] == register.payload(value),
{
    [register.addr(), register.mask(value)]
}

/// A register together with the value to write to it.
#[derive(Clone, Copy, Debug, PartialEq, Eq, Structural)]
pub struct Command {
    pub register: Register,
    pub value: u8,
}

impl Command {
    /// The bytes this command puts on the wire.
    pub open spec fn word(self) -> Seq<u8> {
        command_word(self.register, self.value)
    }

    pub fn new(register: Register, value: u8) -> (c: Command)
        ensures
            c == (Command { register, value }),
    {
        Command { register, value }
    }

    /// The command that changes nothing in the chip that latches it.
    pub fn no_op() -> (c: Command)
        ensures
            c == (Command { register: Register::NoOp, value: 0 }),
            c.word() == no_op_word(),
    {
        Command { register: Register::NoOp, value: 0 }
    }

    /// Encodes the command; see [`encode`].
    pub fn encode(&self) -> (word: [u8; 2])
        ensures
            word@ == self.word(),
    {
        encode(self.register, self.value)
    }
}

} // verus!
