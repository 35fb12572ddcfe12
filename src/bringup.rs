use vstd::prelude::*;
use crate::pio::{ClockDiv, div_units};
use crate::pll::{PllParams, pll_fits};
use crate::xosc::{XOSC_MAX_HZ, XOSC_MIN_HZ, startup_delay_of};

verus! {

/// One of the two PLLs.
#[derive(Clone, Copy, Debug, PartialEq, Eq, Structural)]
pub enum PllId {
    Sys,
    Usb,
}

/// The registers that the bring-up sequence touches.
#[derive(Clone, Copy, Debug, PartialEq, Eq, Structural)]
pub enum Reg {
    ResetsReset,
    ResetsDone,
    WatchdogTick,
    ClkSysResusCtrl,
    XoscCtrl,
    XoscStartup,
    XoscStatus,
    ClkSysCtrl,
    ClkSysSelected,
    ClkRefCtrl,
    ClkRefSelected,
    PllCs(PllId),
    PllPwr(PllId),
    PllFbdiv(PllId),
    PllPrim(PllId),
    InstrMem(u8),
    GpioCtrl(u8),
    SmPinctrl,
    SmClkdiv,
    PioCtrl,
    SmInstr,
}

/// One register operation.
#[derive(Clone, Copy, Debug, PartialEq, Eq, Structural)]
pub enum Op {
    /// Writes `value` to `reg`.
    Write { reg: Reg, value: u32 },
    /// Replaces the bits of `mask` in `reg` by those of `value`.
    Modify { reg: Reg, mask: u32, value: u32 },
    /// Reads `reg` until its bits under `mask` equal `value`.
    WaitFor { reg: Reg, mask: u32, value: u32 },
}

/// Frequency-range code of the oscillator for crystals of 1 to 15 MHz.
pub const XOSC_RANGE_1_15MHZ: u32 = 0xaa0;
/// Enable code of the oscillator, in bits 12..24 of its control register.
pub const XOSC_ENABLE: u32 = 0xfab000;
/// Stability bit of the oscillator status register.
pub const XOSC_STABLE: u32 = 0x8000_0000;
/// Enable bit of the watchdog tick register.
pub const TICK_ENABLE: u32 = 0x200;
/// Lock bit of a PLL's control register.
pub const PLL_LOCK: u32 = 0x8000_0000;
/// Power-down bits of a PLL's main stage and VCO.
pub const PLL_PD_VCO: u32 = 0x21;
/// Power-down bit of a PLL's post dividers.
pub const PLL_PD_POSTDIV: u32 = 0x8;
/// Source field of the system clock control: 0 is the reference clock, 1 the auxiliary mux.
pub const SYS_SRC: u32 = 0x1;
/// Auxiliary source field of the system clock control: 0 is the system PLL.
pub const SYS_AUXSRC: u32 = 0xe0;
/// Source field of the reference clock control: 0 is the ring oscillator.
pub const REF_SRC: u32 = 0x3;
/// "Selected" code of the system clock when it runs from the reference clock.
pub const SYS_SEL_REF: u32 = 1;
/// "Selected" code of the system clock when it runs from the auxiliary mux.
pub const SYS_SEL_AUX: u32 = 2;
/// "Selected" code of the reference clock when it runs from the ring oscillator.
pub const REF_SEL_ROSC: u32 = 1;
/// Function-select code that hands a pin to the first state-machine block.
pub const FUNCSEL_PIO0: u32 = 6;
/// Output-enable override field of a pin: always enabled.
pub const OEOVER_ENABLE: u32 = 0x3000;
/// Restart bit of state machine 0 in the block's control register.
pub const SM0_RESTART: u32 = 0x10;
/// Clock-divider restart bit of state machine 0.
pub const SM0_CLKDIV_RESTART: u32 = 0x100;
/// Enable bit of state machine 0.
pub const SM0_ENABLE: u32 = 0x1;
/// Every bit of a register.
pub const ALL_BITS: u32 = 0xffff_ffff;

/// The value that `Op::Modify { mask, value, .. }` leaves in a register that held `old`.
pub open spec fn modified(old: u32, mask: u32, value: u32) -> u32 {
    (old & !mask) | (value & mask)
}

/// Computes the value that a `Modify` writes back.
pub fn modify_value(old: u32, mask: u32, value: u32) -> (r: u32)
    ensures
        r == modified(old, mask, value),
{
    (old & !mask) | (value & mask)
}

pub open spec fn reset_seq(mask: u32) -> Seq<Op> {
    seq![Op::Modify { reg: Reg::ResetsReset, mask: mask, value: mask }]
}

pub open spec fn release_seq(mask: u32) -> Seq<Op> {
    seq![
        Op::Modify { reg: Reg::ResetsReset, mask: mask, value: 0 },
        Op::WaitFor { reg: Reg::ResetsDone, mask: mask, value: mask },
    ]
}

/// Holds the peripherals of `mask` in reset.
pub fn reset_ops(mask: u32) -> (r: Vec<Op>)
    ensures
        r@ == reset_seq(mask),
{
    let r = vec![Op::Modify { reg: Reg::ResetsReset, mask: mask, value: mask }];
    assert(r@ =~= reset_seq(mask));
    r
}

/// Releases the peripherals of `mask` and waits until each reports released.
pub fn release_ops(mask: u32) -> (r: Vec<Op>)
    ensures
        r@ == release_seq(mask),
{
    let r = vec![
        Op::Modify { reg: Reg::ResetsReset, mask: mask, value: 0 },
        Op::WaitFor { reg: Reg::ResetsDone, mask: mask, value: mask },
    ];
    assert(r@ =~= release_seq(mask));
    r
}

pub open spec fn xosc_seq(freq_hz: u32) -> Seq<Op> {
    seq![
        Op::Write { reg: Reg::WatchdogTick, value: (freq_hz / 1_000_000 + TICK_ENABLE) as u32 },
        Op::Write { reg: Reg::ClkSysResusCtrl, value: 0 },
        Op::Write { reg: Reg::XoscCtrl, value: XOSC_RANGE_1_15MHZ },
        Op::Write { reg: Reg::XoscStartup, value: startup_delay_of(freq_hz as int) as u32 },
        Op::Write { reg: Reg::XoscCtrl, value: (XOSC_RANGE_1_15MHZ + XOSC_ENABLE) as u32 },
        Op::WaitFor { reg: Reg::XoscStatus, mask: XOSC_STABLE, value: XOSC_STABLE },
    ]
}

/// Starts the watchdog tick and the crystal oscillator, then waits until the
/// oscillator is stable.
pub fn xosc_ops(freq_hz: u32) -> (r: Vec<Op>)
    requires
        XOSC_MIN_HZ <= freq_hz <= XOSC_MAX_HZ,
    ensures
        r@ == xosc_seq(freq_hz),
{
    let tick = crate::xosc::tick_cycles(freq_hz) as u32;
    let delay = crate::xosc::startup_delay(freq_hz) as u32;
    let r = vec![
        Op::Write { reg: Reg::WatchdogTick, value: tick + TICK_ENABLE },
        Op::Write { reg: Reg::ClkSysResusCtrl, value: 0 },
        Op::Write { reg: Reg::XoscCtrl, value: XOSC_RANGE_1_15MHZ },
        Op::Write { reg: Reg::XoscStartup, value: delay },
        Op::Write { reg: Reg::XoscCtrl, value: XOSC_RANGE_1_15MHZ + XOSC_ENABLE },
        Op::WaitFor { reg: Reg::XoscStatus, mask: XOSC_STABLE, value: XOSC_STABLE },
    ];
    assert(r@ =~= xosc_seq(freq_hz));
    r
}

pub open spec fn switch_away_seq() -> Seq<Op> {
    seq![
        Op::Modify { reg: Reg::ClkSysCtrl, mask: SYS_SRC, value: 0 },
        Op::WaitFor { reg: Reg::ClkSysSelected, mask: ALL_BITS, value: SYS_SEL_REF },
        Op::Modify { reg: Reg::ClkRefCtrl, mask: REF_SRC, value: 0 },
        Op::WaitFor { reg: Reg::ClkRefSelected, mask: ALL_BITS, value: REF_SEL_ROSC },
    ]
}

/// Moves the system clock to the reference clock and the reference clock to
/// the ring oscillator, waiting after each until it reads back as selected.
pub fn switch_away_ops() -> (r: Vec<Op>)
    ensures
        r@ == switch_away_seq(),
{
    let r = vec![
        Op::Modify { reg: Reg::ClkSysCtrl, mask: SYS_SRC, value: 0 },
        Op::WaitFor { reg: Reg::ClkSysSelected, mask: ALL_BITS, value: SYS_SEL_REF },
        Op::Modify { reg: Reg::ClkRefCtrl, mask: REF_SRC, value: 0 },
        Op::WaitFor { reg: Reg::ClkRefSelected, mask: ALL_BITS, value: REF_SEL_ROSC },
    ];
    assert(r@ =~= switch_away_seq());
    r
}

pub open spec fn switch_to_pll_seq() -> Seq<Op> {
    seq![
        Op::Modify { reg: Reg::ClkSysCtrl, mask: SYS_AUXSRC, value: 0 },
        Op::WaitFor { reg: Reg::ClkSysSelected, mask: ALL_BITS, value: SYS_SEL_REF },
        Op::Modify { reg: Reg::ClkSysCtrl, mask: SYS_SRC, value: 1 },
        Op::WaitFor { reg: Reg::ClkSysSelected, mask: ALL_BITS, value: SYS_SEL_AUX },
    ]
}

/// Routes the system clock's auxiliary mux to the system PLL, then the system
/// clock to that mux, polling the "selected" status after each step.
pub fn switch_to_pll_ops() -> (r: Vec<Op>)
    ensures
        r@ == switch_to_pll_seq(),
{
    let r = vec![
        Op::Modify { reg: Reg::ClkSysCtrl, mask: SYS_AUXSRC, value: 0 },
        Op::WaitFor { reg: Reg::ClkSysSelected, mask: ALL_BITS, value: SYS_SEL_REF },
        Op::Modify { reg: Reg::ClkSysCtrl, mask: SYS_SRC, value: 1 },
        Op::WaitFor { reg: Reg::ClkSysSelected, mask: ALL_BITS, value: SYS_SEL_AUX },
    ];
    assert(r@ =~= switch_to_pll_seq());
    r
}


pub open spec fn pll_seq(id: PllId, p: PllParams) -> Seq<Op> {
    seq![
        Op::Write { reg: Reg::PllCs(id), value: p.ref_div },
        Op::Write { reg: Reg::PllFbdiv(id), value: p.fb_div },
        Op::Modify { reg: Reg::PllPwr(id), mask: PLL_PD_VCO, value: 0 },
        Op::WaitFor { reg: Reg::PllCs(id), mask: PLL_LOCK, value: PLL_LOCK },
        Op::Write {
            reg: Reg::PllPrim(id),
            value: (p.post_div1 * 0x1_0000 + p.post_div2 * 0x1000) as u32,
        },
        Op::Modify { reg: Reg::PllPwr(id), mask: PLL_PD_POSTDIV, value: 0 },
    ]
}

/// Programs PLL `id` with `p`: reference and feedback dividers, power to the
/// VCO, a wait for lock, then the post dividers and their power.
pub fn pll_ops(id: PllId, p: PllParams) -> (r: Vec<Op>)
    requires
        pll_fits(p),
    ensures
        r@ == pll_seq(id, p),
{
    let prim = crate::pll::prim_value(p);
    let r = vec![
        Op::Write { reg: Reg::PllCs(id), value: p.ref_div },
        Op::Write { reg: Reg::PllFbdiv(id), value: p.fb_div },
        Op::Modify { reg: Reg::PllPwr(id), mask: PLL_PD_VCO, value: 0 },
        Op::WaitFor { reg: Reg::PllCs(id), mask: PLL_LOCK, value: PLL_LOCK },
        Op::Write { reg: Reg::PllPrim(id), value: prim },
        Op::Modify { reg: Reg::PllPwr(id), mask: PLL_PD_POSTDIV, value: 0 },
    ];
    assert(r@ =~= pll_seq(id, p));
    r
}

/// Whether a pin number names a pin of the user bank.
pub open spec fn pin_ok(pin: u8) -> bool {
    pin < 30
}

pub open spec fn load_seq(words: Seq<u16>) -> Seq<Op> {
    Seq::new(
        words.len(),
        |k: int| Op::Write { reg: Reg::InstrMem(k as u8), value: words[k] as u32 },
    )
}

pub open spec fn start_seq(pin: u8, div: ClockDiv, entry: u8) -> Seq<Op> {
    seq![
        Op::Write { reg: Reg::GpioCtrl(pin), value: FUNCSEL_PIO0 | OEOVER_ENABLE },
        Op::Write { reg: Reg::SmPinctrl, value: (pin * 0x20 + 0x400_0000) as u32 },
        Op::Write { reg: Reg::SmClkdiv, value: (div.int * 0x1_0000 + div.frac * 0x100) as u32 },
        Op::Write { reg: Reg::PioCtrl, value: SM0_RESTART },
        Op::Write { reg: Reg::PioCtrl, value: SM0_CLKDIV_RESTART },
        Op::Write { reg: Reg::SmInstr, value: entry as u32 },
        Op::Write { reg: Reg::PioCtrl, value: SM0_ENABLE },
    ]
}

/// Writes `words` into the instruction memory from slot 0 on.
pub fn load_ops(words: &Vec<u16>) -> (r: Vec<Op>)
    requires
        words@.len() <= crate::pio::INSTR_SLOTS,
    ensures
        r@ == load_seq(words@),
{
    let mut r: Vec<Op> = Vec::new();
    let mut k: usize = 0;
    while k < words.len()
        invariant
            k <= words@.len() <= crate::pio::INSTR_SLOTS,
            r@ == load_seq(words@.subrange(0, k as int)),
        decreases words@.len() - k,
    {
        r.push(Op::Write { reg: Reg::InstrMem(k as u8), value: words[k] as u32 });
        k = k + 1;
        assert(r@ =~= load_seq(words@.subrange(0, k as int)));
    }
    assert(words@.subrange(0, words@.len() as int) =~= words@);
    r
}

/// Hands `pin` to state machine 0, sets its output pin and clock divider,
/// restarts it and its divider, jumps it to `entry` and enables it, in that order.
pub fn start_ops(pin: u8, div: ClockDiv, entry: u8) -> (r: Vec<Op>)
    requires
        pin_ok(pin),
        entry < 32,
    ensures
        r@ == start_seq(pin, div, entry),
{
    let jmp = crate::pio::encode(crate::pio::Instr::Jmp { delay: 0, target: entry as u16 });
    let r = vec![
        Op::Write { reg: Reg::GpioCtrl(pin), value: FUNCSEL_PIO0 | OEOVER_ENABLE },
        Op::Write { reg: Reg::SmPinctrl, value: (pin as u32) * 0x20 + 0x400_0000 },
        Op::Write { reg: Reg::SmClkdiv, value: crate::pio::clkdiv_value(div) },
        Op::Write { reg: Reg::PioCtrl, value: SM0_RESTART },
        Op::Write { reg: Reg::PioCtrl, value: SM0_CLKDIV_RESTART },
        Op::Write { reg: Reg::SmInstr, value: jmp as u32 },
        Op::Write { reg: Reg::PioCtrl, value: SM0_ENABLE },
    ];
    assert(r@ =~= start_seq(pin, div, entry));
    r
}

/// Everything the start-up sequence needs to know.
pub struct BringUpConfig {
    pub xosc_hz: u32,
    pub sys: PllParams,
    pub usb: PllParams,
    pub program: Vec<u16>,
    pub pin: u8,
    pub div: ClockDiv,
    pub entry: u8,
}

pub open spec fn config_ok(c: BringUpConfig) -> bool {
    &&& XOSC_MIN_HZ <= c.xosc_hz <= XOSC_MAX_HZ
    &&& pll_fits(c.sys)
    &&& pll_fits(c.usb)
    &&& c.program@.len() <= crate::pio::INSTR_SLOTS
    &&& pin_ok(c.pin)
    &&& c.entry < 32
}

/// The whole start-up sequence, from the first global reset to the enabled state machine.
pub open spec fn bring_up_seq(
    xosc_hz: u32,
    sys: PllParams,
    usb: PllParams,
    program: Seq<u16>,
    pin: u8,
    div: ClockDiv,
    entry: u8,
) -> Seq<Op> {
    let pll_both = crate::resets::PLL_SYS | crate::resets::PLL_USB;
    reset_seq(crate::resets::ALL & !crate::resets::CLOCK_PATH) + release_seq(crate::resets::ALL & !crate::resets::UNUSED)
        + xosc_seq(xosc_hz) + switch_away_seq() + reset_seq(pll_both) + release_seq(pll_both)
        + pll_seq(PllId::Sys, sys) + pll_seq(PllId::Usb, usb) + switch_to_pll_seq()
        + load_seq(program) + start_seq(pin, div, entry)
}

pub open spec fn bring_up_seq_of(c: BringUpConfig) -> Seq<Op> {
    bring_up_seq(c.xosc_hz, c.sys, c.usb, c.program@, c.pin, c.div, c.entry)
}

/// The start-up sequence for `c`.
pub fn bring_up_ops(c: &BringUpConfig) -> (r: Vec<Op>)
    requires
        config_ok(*c),
    ensures
        r@ == bring_up_seq_of(*c),
{
    let pll_both = crate::resets::PLL_SYS | crate::resets::PLL_USB;
    let mut r = reset_ops(crate::resets::initial_reset_mask());
    let mut next = release_ops(crate::resets::initial_release_mask());
    r.append(&mut next);
    let mut next = xosc_ops(c.xosc_hz);
    r.append(&mut next);
    let mut next = switch_away_ops();
    r.append(&mut next);
    let mut next = reset_ops(pll_both);
    r.append(&mut next);
    let mut next = release_ops(pll_both);
    r.append(&mut next);
    let mut next = pll_ops(PllId::Sys, c.sys);
    r.append(&mut next);
    let mut next = pll_ops(PllId::Usb, c.usb);
    r.append(&mut next);
    let mut next = switch_to_pll_ops();
    r.append(&mut next);
    let mut next = load_ops(&c.program);
    r.append(&mut next);
    let mut next = start_ops(c.pin, c.div, c.entry);
    r.append(&mut next);
    r
}

/// Where a runner at `pc` of `ops` goes once its operation has been performed,
/// `read` being the value read back (used by waits only).
pub open spec fn next_pc(ops: Seq<Op>, pc: int, read: u32) -> int {
    match ops[pc] {
        Op::WaitFor { mask, value, .. } => if read & mask == value {
            pc + 1
        } else {
            pc
        },
        _ => pc + 1,
    }
}

/// Walks a sequence of register operations. The caller performs the current
/// operation on the hardware and reports the value read back; the runner
/// decides whether to move on.
pub struct Runner {
    pub ops: Vec<Op>,
    pub pc: usize,
}

impl Runner {
    pub open spec fn wf(&self) -> bool {
        self.pc <= self.ops@.len()
    }

    pub fn new(ops: Vec<Op>) -> (r: Runner)
        ensures
            r.wf(),
            r.ops@ == ops@,
            r.pc == 0,
    {
        Runner { ops, pc: 0 }
    }

    /// The operation to perform next, or `None` once the sequence is done.
    pub fn current(&self) -> (r: Option<Op>)
        requires
            self.wf(),
        ensures
            self.pc < self.ops@.len() ==> r == Some(self.ops@[self.pc as int]),
            self.pc == self.ops@.len() ==> r.is_none(),
    {
        if self.pc < self.ops.len() {
            Some(self.ops[self.pc])
        } else {
            None
        }
    }

    /// Records that the current operation was performed and read back `read`:
    /// a wait whose condition does not hold stays where it is, anything else
    /// moves on.
    pub fn step(&mut self, read: u32)
        requires
            old(self).wf(),
            old(self).pc < old(self).ops@.len(),
        ensures
            final(self).wf(),
            final(self).ops@ == old(self).ops@,
            final(self).pc == next_pc(old(self).ops@, old(self).pc as int, read),
    {
        let n = self.ops.len();
        let proceed = match self.ops[self.pc] {
            Op::WaitFor { mask, value, .. } => read & mask == value,
            _ => true,
        };
        if proceed {
            assert(self.pc < n);
            self.pc = self.pc + 1;
        }
    }
}

/// While the system clock is moved off its auxiliary source, the sequence
/// first requests the reference clock and then stays on the wait for as long
/// as the "selected" status reads anything but the reference clock's code;
/// it moves on exactly when it reads that code.
pub proof fn switch_away_waits_for_selected(read: u32)
    ensures
        switch_away_seq()[0] == (Op::Modify { reg: Reg::ClkSysCtrl, mask: SYS_SRC, value: 0 }),
        switch_away_seq()[1] is WaitFor,
        next_pc(switch_away_seq(), 1, read) == (if read == SYS_SEL_REF {
            2int
        } else {
            1int
        }),
        next_pc(switch_away_seq(), 3, read) == (if read == REF_SEL_ROSC {
            4int
        } else {
            3int
        }),
{
    assert(read & ALL_BITS == read) by (bit_vector)
        requires ALL_BITS == 0xffff_ffffu32;
}

/// When the system clock is routed to the system PLL, the sequence selects the
/// PLL on the auxiliary mux and waits while the status reads anything but the
/// reference clock, then selects the mux and moves on exactly when the
/// "selected" status reads the auxiliary code.
pub proof fn switch_to_pll_waits_for_selected(read: u32)
    ensures
        switch_to_pll_seq()[0] == (Op::Modify { reg: Reg::ClkSysCtrl, mask: SYS_AUXSRC, value: 0 }),
        next_pc(switch_to_pll_seq(), 1, read) == (if read == SYS_SEL_REF {
            2int
        } else {
            1int
        }),
        switch_to_pll_seq()[2] == (Op::Modify { reg: Reg::ClkSysCtrl, mask: SYS_SRC, value: 1 }),
        next_pc(switch_to_pll_seq(), 3, read) == (if read == SYS_SEL_AUX {
            4int
        } else {
            3int
        }),
{
    assert(read & ALL_BITS == read) by (bit_vector)
        requires ALL_BITS == 0xffff_ffffu32;
}

/// Whether a register file holds a value for every register.
pub open spec fn total(m: Map<Reg, u32>) -> bool {
    forall|r: Reg| #[trigger] m.contains_key(r)
}

/// What one operation does to the register file. A wait reads only.
pub open spec fn apply_op(m: Map<Reg, u32>, op: Op) -> Map<Reg, u32> {
    match op {
        Op::Write { reg, value } => m.insert(reg, value),
        Op::Modify { reg, mask, value } => m.insert(reg, modified(m[reg], mask, value)),
        Op::WaitFor { .. } => m,
    }
}

/// What a sequence of operations does to the register file.
pub open spec fn apply_seq(m: Map<Reg, u32>, ops: Seq<Op>) -> Map<Reg, u32>
    decreases ops.len(),
{
    if ops.len() == 0 {
        m
    } else {
        apply_op(apply_seq(m, ops.drop_last()), ops.last())
    }
}

/// The bits of `r` that `ops` leave as they were.
pub open spec fn kept_bits(ops: Seq<Op>, r: Reg) -> u32
    decreases ops.len(),
{
    if ops.len() == 0 {
        0xffff_ffff
    } else {
        let k = kept_bits(ops.drop_last(), r);
        match ops.last() {
            Op::Write { reg, .. } => if reg == r {
                0
            } else {
                k
            },
            Op::Modify { reg, mask, .. } => if reg == r {
                k & !mask
            } else {
                k
            },
            Op::WaitFor { .. } => k,
        }
    }
}

/// The bits that `ops` set in `r`, whatever it held.
pub open spec fn set_bits(ops: Seq<Op>, r: Reg) -> u32
    decreases ops.len(),
{
    if ops.len() == 0 {
        0
    } else {
        let c = set_bits(ops.drop_last(), r);
        match ops.last() {
            Op::Write { reg, value } => if reg == r {
                value
            } else {
                c
            },
            Op::Modify { reg, mask, value } => if reg == r {
                modified(c, mask, value)
            } else {
                c
            },
            Op::WaitFor { .. } => c,
        }
    }
}

proof fn lemma_apply_bits(m: Map<Reg, u32>, ops: Seq<Op>)
    requires
        total(m),
    ensures
        total(apply_seq(m, ops)),
        forall|r: Reg| #[trigger] apply_seq(m, ops)[r] == (m[r] & kept_bits(ops, r)) | set_bits(ops, r),
    decreases ops.len(),
{
    if ops.len() == 0 {
        assert forall|r: Reg| #[trigger] apply_seq(m, ops)[r] == (m[r] & kept_bits(ops, r))
            | set_bits(ops, r) by {
            let x = m[r];
            assert((x & 0xffff_ffffu32) | 0u32 == x) by (bit_vector);
        }
    } else {
        let p = ops.drop_last();
        lemma_apply_bits(m, p);
        let prev = apply_seq(m, p);
        assert forall|r: Reg| #[trigger] apply_seq(m, ops).contains_key(r) by {
            assert(prev.contains_key(r));
        }
        assert forall|r: Reg| #[trigger] apply_seq(m, ops)[r] == (m[r] & kept_bits(ops, r))
            | set_bits(ops, r) by {
            assert(prev[r] == (m[r] & kept_bits(p, r)) | set_bits(p, r));
            match ops.last() {
                Op::Modify { reg, mask, value } => {
                    if reg == r {
                        let x = m[r];
                        let k = kept_bits(p, r);
                        let c = set_bits(p, r);
                        assert((((x & k) | c) & !mask) | (value & mask) == (x & (k & !mask)) | ((c
                            & !mask) | (value & mask))) by (bit_vector);
                    }
                },
                Op::Write { reg, value } => {
                    if reg == r {
                        let x = m[r];
                        assert((x & 0u32) | value == value) by (bit_vector);
                    }
                },
                Op::WaitFor { .. } => {},
            }
        }
    }
}

/// Performing a sequence of register operations a second time, straight after
/// the first, leaves every register as the first time did.
pub proof fn apply_twice_is_apply_once(m: Map<Reg, u32>, ops: Seq<Op>)
    requires
        total(m),
    ensures
        apply_seq(apply_seq(m, ops), ops) == apply_seq(m, ops),
{
    let once = apply_seq(m, ops);
    lemma_apply_bits(m, ops);
    lemma_apply_bits(once, ops);
    let twice = apply_seq(once, ops);
    assert forall|r: Reg| #[trigger] twice[r] == once[r] by {
        let x = m[r];
        let k = kept_bits(ops, r);
        let c = set_bits(ops, r);
        assert((((x & k) | c) & k) | c == (x & k) | c) by (bit_vector);
    }
    assert(twice.dom() =~= once.dom()) by {
        assert forall|r: Reg| twice.dom().contains(r) == once.dom().contains(r) by {
            assert(twice.contains_key(r));
            assert(once.contains_key(r));
        }
    }
    assert(twice =~= once);
}

/// Running the whole start-up sequence twice in a row with the same
/// configuration leaves every register it writes (clock tree, PLLs,
/// oscillator, resets, instruction memory, pin and state-machine settings)
/// as running it once did.
pub proof fn bring_up_is_idempotent(c: BringUpConfig, m: Map<Reg, u32>)
    requires
        total(m),
    ensures
        apply_seq(apply_seq(m, bring_up_seq_of(c)), bring_up_seq_of(c)) == apply_seq(
            m,
            bring_up_seq_of(c),
        ),
{
    apply_twice_is_apply_once(m, bring_up_seq_of(c));
}

/// The operations of `reset_ops(mask)` do to the reset register what
/// `Resets::reset(mask)` does, and leave the other registers as they were.
pub proof fn reset_ops_act_like_reset(m: Map<Reg, u32>, mask: u32)
    requires
        total(m),
    ensures
        apply_seq(m, reset_seq(mask))[Reg::ResetsReset] == m[Reg::ResetsReset] | mask,
        forall|r: Reg| r != Reg::ResetsReset ==> #[trigger] apply_seq(m, reset_seq(mask))[r] == m[r],
{
    let s = reset_seq(mask);
    assert(s.drop_last() =~= Seq::<Op>::empty());
    assert(apply_seq(m, s.drop_last()) == m);
    let x = m[Reg::ResetsReset];
    assert((x & !mask) | (mask & mask) == x | mask) by (bit_vector);
}

/// The operations of `release_ops(mask)` clear the bits of `mask` in the reset
/// register as `Resets::unreset(mask)` does.
pub proof fn release_ops_act_like_unreset(m: Map<Reg, u32>, mask: u32)
    requires
        total(m),
    ensures
        apply_seq(m, release_seq(mask))[Reg::ResetsReset] == m[Reg::ResetsReset] & !mask,
{
    let s = release_seq(mask);
    let s1 = s.drop_last();
    assert(s1.drop_last() =~= Seq::<Op>::empty());
    assert(apply_seq(m, s1.drop_last()) == m);
    let x = m[Reg::ResetsReset];
    assert(s1.last() == (Op::Modify { reg: Reg::ResetsReset, mask: mask, value: 0 }));
    assert(apply_seq(m, s1) == m.insert(Reg::ResetsReset, modified(x, mask, 0)));
    assert(s.last() is WaitFor);
    assert(apply_seq(m, s) == apply_seq(m, s1));
    assert((x & !mask) | (0u32 & mask) == x & !mask) by (bit_vector);
}

/// Whether `r` is an instruction slot below `n`.
pub open spec fn slot_below(r: Reg, n: int) -> bool {
    match r {
        Reg::InstrMem(k) => (k as int) < n,
        _ => false,
    }
}

/// The operations of `load_ops(words)` fill the instruction memory as
/// `InstrMemory::load_program(words)` does: word `k` in slot `k`, every other
/// register as it was.
pub proof fn load_ops_act_like_load_program(m: Map<Reg, u32>, words: Seq<u16>)
    requires
        total(m),
        words.len() <= crate::pio::INSTR_SLOTS,
    ensures
        forall|k: int| 0 <= k < words.len() ==> #[trigger] apply_seq(m, load_seq(words))[Reg::InstrMem(
            k as u8,
        )] == words[k] as u32,
        forall|r: Reg| !slot_below(r, words.len() as int) ==> #[trigger] apply_seq(m, load_seq(words))[r]
            == m[r],
    decreases words.len(),
{
    lemma_apply_bits(m, load_seq(words));
    if words.len() > 0 {
        let w = words.drop_last();
        let n = words.len() - 1;
        load_ops_act_like_load_program(m, w);
        assert(load_seq(words).drop_last() =~= load_seq(w));
        let prev = apply_seq(m, load_seq(w));
        lemma_apply_bits(m, load_seq(w));
        assert(apply_seq(m, load_seq(words)) == prev.insert(Reg::InstrMem(n as u8), words[n] as u32));
        assert forall|k: int| 0 <= k < words.len() implies #[trigger] apply_seq(
            m,
            load_seq(words),
        )[Reg::InstrMem(k as u8)] == words[k] as u32 by {
            if k < n {
                assert(w[k] == words[k]);
                assert((k as u8) != (n as u8));
            }
        }
        assert forall|r: Reg| !slot_below(r, words.len() as int) implies #[trigger] apply_seq(
            m,
            load_seq(words),
        )[r] == m[r] by {
            assert(r != Reg::InstrMem(n as u8));
        }
    }
}

/// The register an operation acts on.
pub open spec fn reg_of(op: Op) -> Reg {
    match op {
        Op::Write { reg, .. } => reg,
        Op::Modify { reg, .. } => reg,
        Op::WaitFor { reg, .. } => reg,
    }
}

/// Whether an operation acts on a register of either PLL.
pub open spec fn touches_pll(op: Op) -> bool {
    match reg_of(op) {
        Reg::PllCs(_) | Reg::PllPwr(_) | Reg::PllFbdiv(_) | Reg::PllPrim(_) => true,
        _ => false,
    }
}

/// For every configuration, the start-up sequence keeps the clock path out of
/// its first reset, and touches no PLL register before the oscillator has
/// reported stable, the system and reference clocks have reported running
/// from their non-PLL sources, and both PLLs have been reset and released.
pub proof fn bring_up_safety_order(c: BringUpConfig)
    requires
        config_ok(c),
    ensures
        bring_up_seq_of(c)[0] == (Op::Modify {
            reg: Reg::ResetsReset,
            mask: crate::resets::ALL & !crate::resets::CLOCK_PATH,
            value: crate::resets::ALL & !crate::resets::CLOCK_PATH,
        }),
        (crate::resets::ALL & !crate::resets::CLOCK_PATH) & crate::resets::CLOCK_PATH == 0,
        bring_up_seq_of(c)[8] == (Op::WaitFor {
            reg: Reg::XoscStatus,
            mask: XOSC_STABLE,
            value: XOSC_STABLE,
        }),
        bring_up_seq_of(c)[10] == (Op::WaitFor {
            reg: Reg::ClkSysSelected,
            mask: ALL_BITS,
            value: SYS_SEL_REF,
        }),
        bring_up_seq_of(c)[12] == (Op::WaitFor {
            reg: Reg::ClkRefSelected,
            mask: ALL_BITS,
            value: REF_SEL_ROSC,
        }),
        bring_up_seq_of(c)[15] == (Op::WaitFor {
            reg: Reg::ResetsDone,
            mask: crate::resets::PLL_SYS | crate::resets::PLL_USB,
            value: crate::resets::PLL_SYS | crate::resets::PLL_USB,
        }),
        forall|i: int| 0 <= i < 16 ==> !touches_pll(#[trigger] bring_up_seq_of(c)[i]),
{
    let both = crate::resets::PLL_SYS | crate::resets::PLL_USB;
    let first = crate::resets::ALL & !crate::resets::CLOCK_PATH;
    let pre = reset_seq(first) + release_seq(crate::resets::ALL & !crate::resets::UNUSED)
        + xosc_seq(c.xosc_hz) + switch_away_seq() + reset_seq(both) + release_seq(both);
    assert(pre.len() == 16);
    let s = bring_up_seq_of(c);
    assert forall|i: int| 0 <= i < 16 implies #[trigger] s[i] == pre[i] by {}
    assert forall|i: int| 0 <= i < 16 implies !touches_pll(#[trigger] s[i]) by {
        assert(s[i] == pre[i]);
    }
    let u = crate::resets::ALL;
    let cp = crate::resets::CLOCK_PATH;
    assert((u & !cp) & cp == 0) by (bit_vector);
}

} // verus!
