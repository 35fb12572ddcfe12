use vstd::prelude::*;

verus! {

pub const ADC: u32 = 0x1;
pub const BUSCTRL: u32 = 0x2;
pub const DMA: u32 = 0x4;
pub const I2C0: u32 = 0x8;
pub const I2C1: u32 = 0x10;
pub const IO_BANK0: u32 = 0x20;
pub const IO_QSPI: u32 = 0x40;
pub const JTAG: u32 = 0x80;
pub const PADS_BANK0: u32 = 0x100;
pub const PADS_QSPI: u32 = 0x200;
pub const PIO0: u32 = 0x400;
pub const PIO1: u32 = 0x800;
pub const PLL_SYS: u32 = 0x1000;
pub const PLL_USB: u32 = 0x2000;
pub const PWM: u32 = 0x4000;
pub const RTC: u32 = 0x8000;
pub const SPI0: u32 = 0x10000;
pub const SPI1: u32 = 0x20000;
pub const SYSCFG: u32 = 0x40000;
pub const SYSINFO: u32 = 0x80000;
pub const TBMAN: u32 = 0x100000;
pub const TIMER: u32 = 0x200000;
pub const UART0: u32 = 0x400000;
pub const UART1: u32 = 0x800000;
pub const USBCTRL: u32 = 0x1000000;

/// Every peripheral that has a reset line.
pub const ALL: u32 = 0x01ff_ffff;

/// The peripherals on the path that clocks and feeds the running code:
/// the execute-in-place interface and both PLLs.
pub const CLOCK_PATH: u32 = IO_QSPI | PADS_QSPI | PLL_SYS | PLL_USB;

/// Peripherals that start-up leaves held in reset because nothing uses them.
pub const UNUSED: u32 = ADC | RTC | SPI0 | SPI1 | UART0 | UART1 | USBCTRL;

/// Mask of the first global reset: every peripheral except the clock path.
pub fn initial_reset_mask() -> (r: u32)
    ensures
        r == ALL & !CLOCK_PATH,
        r & CLOCK_PATH == 0,
        r & !ALL == 0,
{
    let c = IO_QSPI | PADS_QSPI | PLL_SYS | PLL_USB;
    let r = ALL & !c;
    assert(r & c == 0 && r & !0x01ff_ffffu32 == 0) by (bit_vector)
        requires r == 0x01ff_ffffu32 & !c;
    r
}

/// Mask of the release that follows: every peripheral but the unused ones.
pub fn initial_release_mask() -> (r: u32)
    ensures
        r == ALL & !UNUSED,
        r & UNUSED == 0,
        r & CLOCK_PATH == CLOCK_PATH,
{
    let u = ADC | RTC | SPI0 | SPI1 | UART0 | UART1 | USBCTRL;
    let c = IO_QSPI | PADS_QSPI | PLL_SYS | PLL_USB;
    let r = ALL & !u;
    assert(r & u == 0) by (bit_vector)
        requires r == 0x01ff_ffffu32 & !u;
    assert(r & c == c) by (bit_vector)
        requires
            r == 0x01ff_ffffu32 & !u,
            u == 0x1u32 | 0x8000u32 | 0x1_0000u32 | 0x2_0000u32 | 0x40_0000u32 | 0x80_0000u32 | 0x100_0000u32,
            c == 0x40u32 | 0x200u32 | 0x1000u32 | 0x2000u32;
    r
}

/// Whether bit `i` of `x` is set.
pub open spec fn bit(x: u32, i: u32) -> bool {
    (x >> i) & 1 == 1
}

/// The reset controller: the value of its reset register, one bit per
/// peripheral, set while that peripheral is held in reset.
pub struct Resets {
    pub reset: u32,
}

impl Resets {
    pub fn new(reset: u32) -> (r: Resets)
        ensures
            r.reset == reset,
    {
        Resets { reset }
    }

    /// Holds the peripherals of `mask` in reset and leaves the others as they were.
    pub fn reset(&mut self, mask: u32)
        ensures
            final(self).reset == old(self).reset | mask,
    {
        self.reset = self.reset | mask;
    }

    /// Releases the peripherals of `mask` and leaves the others as they were.
    pub fn unreset(&mut self, mask: u32)
        ensures
            final(self).reset == old(self).reset & !mask,
    {
        self.reset = self.reset & !mask;
    }

    /// Whether the reset-done register `done` reports every peripheral of
    /// `mask` released: the condition on which a release wait ends.
    pub fn release_done(done: u32, mask: u32) -> (r: bool)
        ensures
            r == (done & mask == mask),
    {
        done & mask == mask
    }
}

/// After `reset(mask)`, the register holds exactly the bits of `mask` set and
/// every other bit as it was before.
pub proof fn reset_sets_exactly_mask(prior: Resets, mask: u32, after: Resets)
    requires
        after.reset == prior.reset | mask,
    ensures
        forall|i: u32| i < 32 && bit(mask, i) ==> bit(after.reset, i),
        forall|i: u32| i < 32 && !bit(mask, i) ==> (bit(after.reset, i) == bit(prior.reset, i)),
{
    let p = prior.reset;
    let a = after.reset;
    assert(forall|i: u32| i < 32 && bit(mask, i) ==> bit(a, i)) by (bit_vector)
        requires a == p | mask;
    assert(forall|i: u32| i < 32 && !bit(mask, i) ==> (bit(a, i) == bit(p, i))) by (bit_vector)
        requires a == p | mask;
}

} // verus!
