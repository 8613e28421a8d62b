//! The controller's command set, the supported color mode, and the error
//! vocabulary shared by the driver and its hardware front end.

use vstd::prelude::*;

verus! {

/// Commands understood by the display controller.  Each is a single opcode
/// byte sent with the data/command line low.
#[derive(Debug, Clone, Copy, PartialEq, Eq, Structural)]
pub enum Commands {
    SoftwareReset,
    SleepOut,
    SetColorMode,
    MemoryDataAccessControl,
    DisplayOn,
    DisplayOff,
    CASET,
    RASET,
    RAMWR,
    InversionOn,
    InversionOff,
}

impl Commands {
    /// The opcode byte of this command.
    pub open spec fn spec_byte(self) -> u8 {
        match self {
            Commands::SoftwareReset => 0x01,
            Commands::SleepOut => 0x11,
            Commands::SetColorMode => 0x3A,
            Commands::MemoryDataAccessControl => 0x36,
            Commands::DisplayOn => 0x29,
            Commands::DisplayOff => 0x28,
            Commands::CASET => 0x2A,
            Commands::RASET => 0x2B,
            Commands::RAMWR => 0x2C,
            Commands::InversionOn => 0x21,
            Commands::InversionOff => 0x20,
        }
    }

    /// The opcode byte of this command, as driven onto the bus.
    pub fn to_byte(self) -> (b: u8)
        ensures
            b == self.spec_byte(),
    {
        match self {
            Commands::SoftwareReset => 0x01,
            Commands::SleepOut => 0x11,
            Commands::SetColorMode => 0x3A,
            Commands::MemoryDataAccessControl => 0x36,
            Commands::DisplayOn => 0x29,
            Commands::DisplayOff => 0x28,
            Commands::CASET => 0x2A,
            Commands::RASET => 0x2B,
            Commands::RAMWR => 0x2C,
            Commands::InversionOn => 0x21,
            Commands::InversionOff => 0x20,
        }
    }
}

/// Color modes of the controller.  Only the 16-bit RGB565 encoding is
/// supported: every pixel travels as two bytes, most significant first.
#[derive(Debug, Clone, Copy, PartialEq, Eq, Structural)]
pub enum ColorMode {
    RGB565,
}

impl ColorMode {
    /// The parameter byte selecting this mode after a `SetColorMode` command.
    pub open spec fn spec_byte(self) -> u8 {
        match self {
            ColorMode::RGB565 => 0x55,
        }
    }

    /// The parameter byte selecting this mode, as driven onto the bus.
    pub fn to_byte(self) -> (b: u8)
        ensures
            b == self.spec_byte(),
    {
        match self {
            ColorMode::RGB565 => 0x55,
        }
    }
}

/// Errors reported by the hardware front end while it plays a sequence of
/// actions back: a bus-transfer failure or a failure to drive one of the
/// three digital output lines.  The type parameters carry the underlying
/// errors of the transmitter and of each pin.
#[derive(Debug)]
pub enum Error<SpiE, CSE, DCE, RSE> {
    Spi(SpiE),
    CS(CSE),
    DC(DCE),
    RST(RSE),
}

/// The failure of a draw request that the chunked design rejects outright.
#[derive(Debug, Clone, Copy, PartialEq, Eq, Structural)]
pub enum DrawError {
    /// Per-pixel random-address writes are incompatible with one continuous
    /// chunked burst, so sparse pixel drawing is not supported.
    Unsupported,
}

} // verus!
