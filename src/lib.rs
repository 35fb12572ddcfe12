//! Start-up of an RP2040: reset, crystal oscillator, clock switching, PLL
//! settings, and the program and configuration of a state machine that blinks
//! a pin. Each step is a verified sequence of register operations; a runner
//! walks the sequence while the caller performs each operation on the chip.
use vstd::prelude::*;

pub mod bringup;
pub mod pio;
pub mod pll;
pub mod resets;
pub mod xosc;

verus! {

} // verus!
