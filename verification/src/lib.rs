//! Ownership tracking for the GPIO pins of a Teensy 3.x board and the
//! encoding of its SPI clock settings, with the helpers that go with them.
//!
//! The library never touches hardware. Functions that configure or drive a pin
//! return the raw accesses to perform, in order; the caller performs them.

pub mod pins;
pub mod raw;
pub mod serial;
pub mod sim;
pub mod spi;
pub mod util;
