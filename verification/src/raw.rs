//! The raw pin surface of the board, as a list of accesses to perform.
//!
//! Nothing in this library reaches the hardware. A function that configures
//! or drives a pin returns the accesses that bring the board to the state it
//! promises, and the caller performs them in the order given.

use vstd::prelude::*;
use crate::pins::PinMode;

verus! {

/// One access to the raw pin surface.
#[derive(Debug, Clone, Copy, PartialEq, Eq, Structural)]
pub enum RawOp {
    /// Program the direction and pull configuration of a pin.
    SetMode { pin: u8, mode: PinMode },
    /// Drive a pin high (`true`) or low (`false`).
    Write { pin: u8, high: bool },
    /// Wait for at least `ms` milliseconds.
    Delay { ms: u32 },
}

} // verus!
