//! Driver core for an ST7789V2-class color display controller.
//!
//! The controller sits on a synchronous write-only serial bus with a
//! data/command select line, a chip-select line and a hardware reset line,
//! optionally accelerated by a block-transfer (DMA) engine.  This crate
//! verifies the protocol sequencing of such a driver: the initialization
//! sequence, the CASET/RASET address-window protocol, the clipping and
//! pixel encoding of draw requests, and the engine that streams an
//! arbitrarily large pixel payload through one fixed-size staging buffer
//! while the bus handles are checked out for each burst.
//!
//! The driver itself performs no I/O.  Every operation returns the exact
//! sequence of [`bus::Action`] values to drive onto the hardware: pin
//! levels, settle delays and bus transfers.  An embedded front end owns
//! the pins and the block-transfer engine and plays the actions back.

pub mod bus;
pub mod codec;
pub mod common;
pub mod driver;
pub mod rect;
