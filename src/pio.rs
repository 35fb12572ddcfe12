use vstd::prelude::*;

verus! {

/// Number of slots of the instruction memory.
pub const INSTR_SLOTS: usize = 32;

/// Where a `Set` instruction writes its data.
#[derive(Clone, Copy, Debug, PartialEq, Eq, Structural)]
pub enum SetDest {
    Pins,
    PinDirs,
}

/// An instruction of the state machine. `delay` is the number of idle machine
/// cycles that follow it (0..31).
#[derive(Clone, Copy, Debug, PartialEq, Eq, Structural)]
pub enum Instr {
    /// Unconditional jump to `target` (0..31).
    Jmp { delay: u16, target: u16 },
    /// Writes `data` (0..31) to the pins or pin directions.
    SetTo { delay: u16, dest: SetDest, data: u16 },
    /// Clears the scratch register X: a wait of `delay + 1` cycles.
    MovXNull { delay: u16 },
}

pub open spec fn delay_of(i: Instr) -> int {
    match i {
        Instr::Jmp { delay, .. } => delay as int,
        Instr::SetTo { delay, .. } => delay as int,
        Instr::MovXNull { delay } => delay as int,
    }
}

/// Whether every field of `i` fits its bits.
pub open spec fn well_formed(i: Instr) -> bool {
    &&& delay_of(i) < 32
    &&& match i {
        Instr::Jmp { target, .. } => target < 32,
        Instr::SetTo { data, .. } => data < 32,
        Instr::MovXNull { .. } => true,
    }
}

pub open spec fn dest_code(d: SetDest) -> int {
    match d {
        SetDest::Pins => 0,
        SetDest::PinDirs => 4,
    }
}

/// The 16-bit word of `i`: opcode in bits 13..16, delay in bits 8..13,
/// destination in bits 5..8 and operand in bits 0..5.
pub open spec fn encoding_of(i: Instr) -> int {
    match i {
        Instr::Jmp { delay, target } => delay * 0x100 + target,
        Instr::SetTo { delay, dest, data } => 7 * 0x2000 + delay * 0x100 + dest_code(dest) * 0x20
            + data,
        Instr::MovXNull { delay } => 5 * 0x2000 + delay * 0x100 + 1 * 0x20 + 3,
    }
}

/// Machine cycles that `i` takes, its delay included.
pub open spec fn cycles_of(i: Instr) -> int {
    1 + delay_of(i)
}

/// Machine cycles of one pass through `prog`.
pub open spec fn loop_cycles(prog: Seq<Instr>) -> int
    decreases prog.len(),
{
    if prog.len() == 0 {
        0
    } else {
        loop_cycles(prog.drop_last()) + cycles_of(prog.last())
    }
}

/// Encodes one instruction.
pub fn encode(i: Instr) -> (r: u16)
    requires
        well_formed(i),
    ensures
        r as int == encoding_of(i),
{
    match i {
        Instr::Jmp { delay, target } => delay * 0x100 + target,
        Instr::SetTo { delay, dest, data } => {
            let d: u16 = match dest {
                SetDest::Pins => 0,
                SetDest::PinDirs => 4,
            };
            7 * 0x2000 + delay * 0x100 + d * 0x20 + data
        },
        Instr::MovXNull { delay } => 5 * 0x2000 + delay * 0x100 + 1 * 0x20 + 3,
    }
}

/// Encodes a whole program.
pub fn encode_program(prog: &Vec<Instr>) -> (r: Vec<u16>)
    requires
        forall|k: int| 0 <= k < prog@.len() ==> well_formed(#[trigger] prog@[k]),
    ensures
        r@.len() == prog@.len(),
        forall|k: int| 0 <= k < prog@.len() ==> r@[k] as int == encoding_of(#[trigger] prog@[k]),
{
    let mut r: Vec<u16> = Vec::new();
    let mut k: usize = 0;
    while k < prog.len()
        invariant
            k <= prog@.len(),
            r@.len() == k,
            forall|j: int| 0 <= j < prog@.len() ==> well_formed(#[trigger] prog@[j]),
            forall|j: int| 0 <= j < k ==> r@[j] as int == encoding_of(#[trigger] prog@[j]),
        decreases prog@.len() - k,
    {
        r.push(encode(prog[k]));
        k = k + 1;
    }
    r
}

/// The instruction memory: one word per slot.
pub struct InstrMemory {
    pub slots: Vec<u16>,
}

impl InstrMemory {
    pub open spec fn wf(&self) -> bool {
        self.slots@.len() == INSTR_SLOTS
    }

    /// An instruction memory whose slots all hold zero.
    pub fn new() -> (r: InstrMemory)
        ensures
            r.wf(),
            forall|k: int| 0 <= k < INSTR_SLOTS ==> r.slots@[k] == 0,
    {
        let mut slots: Vec<u16> = Vec::new();
        let mut k: usize = 0;
        while k < INSTR_SLOTS
            invariant
                k <= INSTR_SLOTS,
                slots@.len() == k,
                forall|j: int| 0 <= j < k ==> slots@[j] == 0,
            decreases INSTR_SLOTS - k,
        {
            slots.push(0);
            k = k + 1;
        }
        InstrMemory { slots }
    }

    /// Writes `word` into `slot` and leaves the other slots as they were.
    pub fn load(&mut self, slot: usize, word: u16)
        requires
            old(self).wf(),
            slot < INSTR_SLOTS,
        ensures
            final(self).wf(),
            final(self).slots@ == old(self).slots@.update(slot as int, word),
    {
        self.slots.set(slot, word);
    }

    /// Writes `words` into the slots from 0 on and leaves the others as they were.
    pub fn load_program(&mut self, words: &Vec<u16>)
        requires
            old(self).wf(),
            words@.len() <= INSTR_SLOTS,
        ensures
            final(self).wf(),
            final(self).slots@ == words@ + old(self).slots@.subrange(
                words@.len() as int,
                INSTR_SLOTS as int,
            ),
    {
        let ghost before = self.slots@;
        let mut k: usize = 0;
        while k < words.len()
            invariant
                k <= words@.len() <= INSTR_SLOTS,
                self.wf(),
                forall|j: int| 0 <= j < k ==> self.slots@[j] == words@[j],
                forall|j: int| k <= j < INSTR_SLOTS ==> self.slots@[j] == before[j],
            decreases words@.len() - k,
        {
            self.load(k, words[k]);
            k = k + 1;
        }
        assert(self.slots@ =~= words@ + before.subrange(words@.len() as int, INSTR_SLOTS as int));
    }
}

/// Clock divider of the state machine: `int + frac / 256` system cycles per
/// machine cycle.
#[derive(Clone, Copy, Debug, PartialEq, Eq, Structural)]
pub struct ClockDiv {
    pub int: u16,
    pub frac: u8,
}

/// The divider in 1/256ths of a system cycle.
pub open spec fn div_units(d: ClockDiv) -> int {
    d.int * 256 + d.frac
}

/// Value of the clock divider register: integer part in bits 16..32,
/// fractional part in bits 8..16.
pub fn clkdiv_value(d: ClockDiv) -> (r: u32)
    ensures
        r == d.int * 0x1_0000 + d.frac * 0x100,
{
    (d.int as u32) * 0x1_0000 + (d.frac as u32) * 0x100
}

/// Machine cycles of one pass through the loop of `prog` that starts at slot `start`.
pub open spec fn pass_cycles(prog: Seq<Instr>, start: int) -> int {
    loop_cycles(prog.subrange(start, prog.len() as int))
}

/// What the execution model tracks of the state machine: its program counter,
/// the levels and directions last written to its pins, and the machine cycles
/// spent so far.
pub struct MachineState {
    pub pc: int,
    pub pins: int,
    pub dirs: int,
    pub cycles: int,
}

/// Executes the instruction at `st.pc`, its delay included. The model covers
/// programs that end in a jump, so execution never runs past the last slot.
pub open spec fn exec_one(prog: Seq<Instr>, st: MachineState) -> MachineState {
    let i = prog[st.pc];
    let cycles = st.cycles + cycles_of(i);
    match i {
        Instr::Jmp { target, .. } => MachineState { pc: target as int, cycles, ..st },
        Instr::SetTo { dest, data, .. } => match dest {
            SetDest::Pins => MachineState { pc: st.pc + 1, pins: data as int, cycles, ..st },
            SetDest::PinDirs => MachineState { pc: st.pc + 1, dirs: data as int, cycles, ..st },
        },
        Instr::MovXNull { .. } => MachineState { pc: st.pc + 1, cycles, ..st },
    }
}

/// The state after `n` instructions from `st`.
pub open spec fn run(prog: Seq<Instr>, st: MachineState, n: nat) -> MachineState
    decreases n,
{
    if n == 0 {
        st
    } else {
        exec_one(prog, run(prog, st, (n - 1) as nat))
    }
}

/// A loop program: no jump before its last instruction, which jumps back to
/// slot `start`. Slots before `start` run once, on the way into the loop.
pub open spec fn is_loop(prog: Seq<Instr>, start: int) -> bool {
    &&& 0 <= start < prog.len()
    &&& start < INSTR_SLOTS
    &&& forall|k: int| 0 <= k < prog.len() - 1 ==> !(#[trigger] prog[k] is Jmp)
    &&& prog.last() == (Instr::Jmp { delay: delay_of(prog.last()) as u16, target: start as u16 })
}

/// Whether every instruction of `prog` is well formed and its loop fits the memory.
pub open spec fn valid_loop(prog: Seq<Instr>, start: int) -> bool {
    &&& prog.len() <= INSTR_SLOTS
    &&& is_loop(prog, start)
    &&& forall|k: int| 0 <= k < prog.len() ==> well_formed(#[trigger] prog[k])
}

/// Cycles of one pass through the loop of `prog` from slot `start`.
pub fn program_cycles(prog: &Vec<Instr>, start: usize) -> (r: u64)
    requires
        valid_loop(prog@, start as int),
    ensures
        r as int == pass_cycles(prog@, start as int),
        r <= 32 * INSTR_SLOTS,
{
    let mut r: u64 = 0;
    let mut k: usize = start;
    while k < prog.len()
        invariant
            start <= k <= prog@.len() <= INSTR_SLOTS,
            forall|j: int| 0 <= j < prog@.len() ==> well_formed(#[trigger] prog@[j]),
            r as int == loop_cycles(prog@.subrange(start as int, k as int)),
            r <= 32 * (k - start),
        decreases prog@.len() - k,
    {
        let ghost s = prog@.subrange(start as int, k as int + 1);
        assert(s.drop_last() =~= prog@.subrange(start as int, k as int));
        let d: u64 = match prog[k] {
            Instr::Jmp { delay, .. } => delay as u64,
            Instr::SetTo { delay, .. } => delay as u64,
            Instr::MovXNull { delay } => delay as u64,
        };
        r = r + 1 + d;
        k = k + 1;
    }
    r
}

/// Period of the waveform that the loop of `prog` from slot `start` draws
/// under divider `d`, in 1/256ths of a system cycle: one pass of the loop,
/// each machine cycle lasting `int + frac / 256` system cycles.
pub fn blink_period(prog: &Vec<Instr>, start: usize, d: ClockDiv) -> (r: u64)
    requires
        valid_loop(prog@, start as int),
    ensures
        r as int == pass_cycles(prog@, start as int) * div_units(d),
{
    let c = program_cycles(prog, start);
    let u = (d.int as u64) * 256 + (d.frac as u64);
    proof {
        assert(c * u <= 1024 * 0x100_0000) by (nonlinear_arith)
            requires c <= 1024, u < 0x100_0000;
    }
    c * u
}

proof fn lemma_run_prefix(prog: Seq<Instr>, start: int, st: MachineState, n: nat)
    requires
        is_loop(prog, start),
        st.pc == start,
        n <= prog.len() - start,
    ensures
        n < prog.len() - start ==> run(prog, st, n).pc == start + n,
        run(prog, st, n).cycles == st.cycles + loop_cycles(prog.subrange(start, start + n)),
    decreases n,
{
    if n == 0 {
        assert(prog.subrange(start, start) =~= Seq::<Instr>::empty());
    } else {
        let m = (n - 1) as nat;
        lemma_run_prefix(prog, start, st, m);
        assert(prog.subrange(start, start + n).drop_last() =~= prog.subrange(start, start + m));
        if m < prog.len() - start - 1 {
            assert(!(prog[start + m] is Jmp));
        }
    }
}

/// One pass through a loop brings the machine back to the loop's start after
/// `pass_cycles` machine cycles, visiting its slots in order: every later pass
/// does the same, each machine cycle lasting `div_units(d) / 256` system cycles.
pub proof fn loop_repeats_every_pass(prog: Seq<Instr>, start: int, st: MachineState)
    requires
        is_loop(prog, start),
        st.pc == start,
    ensures
        run(prog, st, (prog.len() - start) as nat).pc == start,
        run(prog, st, (prog.len() - start) as nat).cycles == st.cycles + pass_cycles(prog, start),
        forall|k: nat| k < prog.len() - start ==> #[trigger] run(prog, st, k).pc == start + k,
{
    let n = (prog.len() - start) as nat;
    lemma_run_prefix(prog, start, st, n);
    let m = (n - 1) as nat;
    lemma_run_prefix(prog, start, st, m);
    assert(run(prog, st, n) == exec_one(prog, run(prog, st, m)));
    assert(prog[start + m] == prog.last());
    assert((start as u16) as int == start);
    assert forall|k: nat| k < prog.len() - start implies #[trigger] run(prog, st, k).pc == start + k by {
        lemma_run_prefix(prog, start, st, k);
    }
}

/// Whether two states agree on everything but the cycle count, and are
/// `shift` cycles apart.
pub open spec fn same_but_shifted(a: MachineState, b: MachineState, shift: int) -> bool {
    &&& a.pc == b.pc
    &&& a.pins == b.pins
    &&& a.dirs == b.dirs
    &&& b.cycles == a.cycles + shift
}

proof fn lemma_run_split(prog: Seq<Instr>, st: MachineState, a: nat, b: nat)
    ensures
        run(prog, st, a + b) == run(prog, run(prog, st, a), b),
    decreases b,
{
    if b > 0 {
        lemma_run_split(prog, st, a, (b - 1) as nat);
        assert((a + b - 1) as nat == a + (b - 1) as nat);
    }
}

proof fn lemma_run_shifted(prog: Seq<Instr>, s1: MachineState, s2: MachineState, shift: int, k: nat)
    requires
        same_but_shifted(s1, s2, shift),
    ensures
        same_but_shifted(run(prog, s1, k), run(prog, s2, k), shift),
    decreases k,
{
    if k > 0 {
        lemma_run_shifted(prog, s1, s2, shift, (k - 1) as nat);
    }
}

proof fn lemma_pass_levels(prog: Seq<Instr>, start: int, s1: MachineState, s2: MachineState, k: nat)
    requires
        is_loop(prog, start),
        s1.pc == start,
        s2.pc == start,
        k <= prog.len() - start,
    ensures
        run(prog, s1, k).pins == run(prog, s2, k).pins || (run(prog, s1, k).pins == s1.pins
            && run(prog, s2, k).pins == s2.pins),
        run(prog, s1, k).dirs == run(prog, s2, k).dirs || (run(prog, s1, k).dirs == s1.dirs
            && run(prog, s2, k).dirs == s2.dirs),
    decreases k,
{
    if k > 0 {
        let m = (k - 1) as nat;
        lemma_pass_levels(prog, start, s1, s2, m);
        lemma_run_prefix(prog, start, s1, m);
        lemma_run_prefix(prog, start, s2, m);
    }
}

/// From the end of the first pass through the loop on, the pin levels and
/// directions repeat every pass: the state `k` instructions into the second
/// pass matches the one `k` instructions into the third, `pass_cycles`
/// machine cycles later.
pub proof fn levels_repeat_every_pass(prog: Seq<Instr>, start: int, st: MachineState, k: nat)
    requires
        is_loop(prog, start),
        st.pc == start,
    ensures
        same_but_shifted(
            run(prog, st, (prog.len() - start) as nat + k),
            run(prog, st, 2 * (prog.len() - start) as nat + k),
            pass_cycles(prog, start),
        ),
{
    let n = (prog.len() - start) as nat;
    let t1 = run(prog, st, n);
    loop_repeats_every_pass(prog, start, st);
    let t2 = run(prog, t1, n);
    loop_repeats_every_pass(prog, start, t1);
    lemma_pass_levels(prog, start, t1, st, n);
    lemma_run_split(prog, st, n, n);
    assert(n + n == 2 * n);
    assert(same_but_shifted(t1, t2, pass_cycles(prog, start)));
    lemma_run_shifted(prog, t1, t2, pass_cycles(prog, start), k);
    lemma_run_split(prog, st, n, k);
    lemma_run_split(prog, st, 2 * n, k);
    lemma_run_split(prog, t1, n, k);
    assert(2 * n + k == n + (n + k));
    lemma_run_split(prog, st, n, n + k);
}

/// Whether `prog` is a loop program whose last instruction jumps back to `start`.
pub fn is_loop_program(prog: &Vec<Instr>, start: usize) -> (r: bool)
    ensures
        r == is_loop(prog@, start as int),
{
    let n = prog.len();
    if n == 0 || start >= n || start >= INSTR_SLOTS {
        return false;
    }
    let last_ok = match prog[n - 1] {
        Instr::Jmp { target, .. } => target as usize == start,
        _ => false,
    };
    if !last_ok {
        return false;
    }
    let mut k: usize = 0;
    while k < n - 1
        invariant
            n == prog@.len(),
            n >= 1,
            k <= n - 1,
            forall|j: int| 0 <= j < k ==> !(#[trigger] prog@[j] is Jmp),
        decreases n - 1 - k,
    {
        if let Instr::Jmp { .. } = prog[k] {
            assert(!(forall|j: int| 0 <= j < prog@.len() - 1 ==> !(#[trigger] prog@[j] is Jmp)));
            return false;
        }
        k = k + 1;
    }
    true
}

} // verus!
