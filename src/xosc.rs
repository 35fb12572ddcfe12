use vstd::prelude::*;

verus! {

/// Lowest crystal frequency that the 1-15 MHz range of the oscillator accepts.
pub const XOSC_MIN_HZ: u32 = 1_000_000;

/// Highest crystal frequency that the 1-15 MHz range of the oscillator accepts.
pub const XOSC_MAX_HZ: u32 = 15_000_000;

/// The startup delay, in units of 256 oscillator cycles, for a crystal of `freq_hz`.
pub open spec fn startup_delay_of(freq_hz: int) -> int {
    ((freq_hz / 1000) + 128) / 256
}

/// Startup delay counter value for a crystal of `freq_hz` hertz.
pub fn startup_delay(freq_hz: u32) -> (r: u16)
    requires
        XOSC_MIN_HZ <= freq_hz <= XOSC_MAX_HZ,
    ensures
        r as int == startup_delay_of(freq_hz as int),
{
    (((freq_hz / 1000) + 128) / 256) as u16
}

/// Watchdog tick counter for a crystal of `freq_hz` hertz: its frequency in
/// whole megahertz, so that one tick lasts a microsecond.
pub fn tick_cycles(freq_hz: u32) -> (r: u16)
    requires
        XOSC_MIN_HZ <= freq_hz <= XOSC_MAX_HZ,
    ensures
        r as int == freq_hz as int / 1_000_000,
        1 <= r <= 15,
{
    (freq_hz / 1_000_000) as u16
}

} // verus!
