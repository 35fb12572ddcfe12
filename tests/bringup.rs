use rp2040_blink::bringup::{
    bring_up_ops, modify_value, pll_ops, release_ops, reset_ops, start_ops, switch_away_ops,
    switch_to_pll_ops, xosc_ops, load_ops, BringUpConfig, Op, PllId, Reg, Runner,
};
use rp2040_blink::pio::{
    blink_period, clkdiv_value, encode, encode_program, program_cycles, ClockDiv, Instr,
    InstrMemory, SetDest, is_loop_program,
};
use rp2040_blink::pll::{output_hz, pll_params, pll_request, prim_value, PllParams, XOSC_HZ};
use rp2040_blink::resets::{
    initial_release_mask, initial_reset_mask, Resets, ALL, IO_QSPI, PADS_QSPI, PLL_SYS,
    PLL_USB, UART0, ADC,
};
use rp2040_blink::xosc::{startup_delay, tick_cycles};

#[test]
fn pll_scenario_peripheral_target() {
    let p = pll_params(XOSC_HZ, 1, 1_500_000_000, 6, 2);
    assert_eq!(p.fb_div, 125);
    assert_eq!(p.ref_div, 1);
    let vco = (XOSC_HZ / p.ref_div) as u64 * p.fb_div as u64;
    assert_eq!(vco, 1_500_000_000);
    assert_eq!(vco / (6 * 2), 125_000_000);
    assert_eq!(output_hz(XOSC_HZ, p), 125_000_000);
}

#[test]
fn pll_request_checks_limits() {
    let p = pll_request(XOSC_HZ, 1, 1_500_000_000, 6, 2).unwrap();
    assert_eq!(p, PllParams { ref_div: 1, fb_div: 125, post_div1: 6, post_div2: 2 });
    assert_eq!(pll_request(XOSC_HZ, 0, 1_500_000_000, 6, 2), None);
    assert_eq!(pll_request(XOSC_HZ, 64, 1_500_000_000, 6, 2), None);
    assert_eq!(pll_request(XOSC_HZ, 1, 1_500_000_000, 8, 2), None);
    assert_eq!(pll_request(XOSC_HZ, 1, 1_500_000_000, 6, 0), None);
    // 12 MHz / 12 = 1 MHz step; 4.2 GHz / 1 MHz is over 4095
    assert_eq!(pll_request(XOSC_HZ, 12, 4_200_000_000, 6, 2), None);
    assert_eq!(pll_request(XOSC_HZ, 12, 4_095_000_000, 6, 2).unwrap().fb_div, 4095);
    assert_eq!(pll_request(XOSC_HZ, 13_000_000, 1_500_000_000, 6, 2), None);
    assert_eq!(pll_request(XOSC_HZ, 4, 1_200_000_000, 6, 2).unwrap().fb_div, 400);
}

#[test]
fn modify_keeps_bits_outside_mask() {
    assert_eq!(modify_value(0xffff_ffff, 0x1, 0), 0xffff_fffe);
    assert_eq!(modify_value(0x0000_00e0, 0xe0, 0), 0);
    assert_eq!(modify_value(0x1234_0000, 0x3, 0xff), 0x1234_0003);
    assert_eq!(modify_value(0, 0x3000, 0x3000), 0x3000);
}

#[test]
fn pll_presets() {
    let sys = pll_params(XOSC_HZ, 1, 888_000_000, 3, 1);
    assert_eq!(sys.fb_div, 74);
    assert_eq!(output_hz(XOSC_HZ, sys), 296_000_000);
    let usb = pll_params(XOSC_HZ, 1, 480_000_000, 5, 2);
    assert_eq!(usb.fb_div, 40);
    assert_eq!(output_hz(XOSC_HZ, usb), 48_000_000);
}

#[test]
fn pll_rounds_down_within_one_step() {
    let p = pll_params(12_000_000, 2, 1_000_000_000, 4, 3);
    // step is 6 MHz: 1000 / 6 = 166 rem 4
    assert_eq!(p.fb_div, 166);
    let vco = 6_000_000u64 * p.fb_div as u64;
    assert!(vco <= 1_000_000_000 && 1_000_000_000 < vco + 6_000_000);
}

#[test]
fn pll_prim_register() {
    let p = PllParams { ref_div: 1, fb_div: 125, post_div1: 6, post_div2: 2 };
    assert_eq!(prim_value(p), 0x0006_2000);
}

#[test]
fn pll_sequence_waits_for_lock() {
    let p = pll_params(XOSC_HZ, 1, 1_500_000_000, 6, 2);
    let ops = pll_ops(PllId::Sys, p);
    assert_eq!(ops.len(), 6);
    assert_eq!(ops[1], Op::Write { reg: Reg::PllFbdiv(PllId::Sys), value: 125 });
    assert_eq!(
        ops[3],
        Op::WaitFor { reg: Reg::PllCs(PllId::Sys), mask: 0x8000_0000, value: 0x8000_0000 }
    );
    let mut r = Runner::new(ops);
    for _ in 0..3 {
        r.step(0);
    }
    assert_eq!(r.pc, 3);
    r.step(0x1);
    assert_eq!(r.pc, 3);
    r.step(0x8000_0001);
    assert_eq!(r.pc, 4);
}

#[test]
fn reset_sets_mask_and_keeps_others() {
    let mut r = Resets::new(UART0 | 0x8);
    r.reset(ADC | 0x8);
    assert_eq!(r.reset, UART0 | ADC | 0x8);
    r.unreset(UART0);
    assert_eq!(r.reset, ADC | 0x8);
}

#[test]
fn release_done_needs_every_bit() {
    assert!(Resets::release_done(0xff, 0x0f));
    assert!(!Resets::release_done(0x07, 0x0f));
    assert!(Resets::release_done(0, 0));
}

#[test]
fn initial_masks_spare_clock_path() {
    let m = initial_reset_mask();
    let path = IO_QSPI | PADS_QSPI | PLL_SYS | PLL_USB;
    assert_eq!(m & path, 0);
    assert_eq!(m, ALL & !path);
    assert_eq!(m, 0x01ff_cdbf);
    let mut r = Resets::new(0);
    r.reset(m);
    assert_eq!(r.reset, 0x01ff_cdbf);
    let rel = initial_release_mask();
    assert_eq!(rel, 0x003c_7ffe);
    assert_eq!(rel & path, path);
}

#[test]
fn reset_and_release_ops() {
    assert_eq!(reset_ops(0x3000), vec![Op::Modify { reg: Reg::ResetsReset, mask: 0x3000, value: 0x3000 }]);
    let ops = release_ops(0x3000);
    assert_eq!(ops[1], Op::WaitFor { reg: Reg::ResetsDone, mask: 0x3000, value: 0x3000 });
}

#[test]
fn xosc_values_for_twelve_mhz() {
    assert_eq!(startup_delay(12_000_000), 47);
    assert_eq!(startup_delay(1_000_000), 4);
    assert_eq!(startup_delay(15_000_000), 59);
    assert_eq!(tick_cycles(12_000_000), 12);
    let ops = xosc_ops(12_000_000);
    assert_eq!(ops[0], Op::Write { reg: Reg::WatchdogTick, value: 12 | 0x200 });
    assert_eq!(ops[3], Op::Write { reg: Reg::XoscStartup, value: 47 });
    assert_eq!(ops[4], Op::Write { reg: Reg::XoscCtrl, value: 0x00fa_baa0 });
}

#[test]
fn switch_away_stays_until_selected() {
    let mut r = Runner::new(switch_away_ops());
    r.step(0);
    assert_eq!(r.pc, 1);
    // still reading the auxiliary source's code
    r.step(2);
    assert_eq!(r.pc, 1);
    r.step(0);
    assert_eq!(r.pc, 1);
    r.step(1);
    assert_eq!(r.pc, 2);
}

#[test]
fn switch_to_pll_stays_until_selected() {
    let mut r = Runner::new(switch_to_pll_ops());
    r.step(0);
    assert_eq!(r.pc, 1);
    r.step(2);
    assert_eq!(r.pc, 1);
    r.step(1);
    assert_eq!(r.pc, 2);
    r.step(0);
    assert_eq!(r.pc, 3);
    r.step(1);
    assert_eq!(r.pc, 3);
    r.step(2);
    assert_eq!(r.pc, 4);
    assert!(r.current().is_none());
}

#[test]
fn encodings_match_hand_encoded_words() {
    assert_eq!(encode(Instr::SetTo { delay: 0, dest: SetDest::PinDirs, data: 25 }), 0xe099);
    assert_eq!(encode(Instr::SetTo { delay: 31, dest: SetDest::Pins, data: 1 }), 0xff01);
    assert_eq!(encode(Instr::SetTo { delay: 31, dest: SetDest::Pins, data: 0 }), 0xff00);
    assert_eq!(encode(Instr::MovXNull { delay: 31 }), 0xbf23);
    assert_eq!(encode(Instr::Jmp { delay: 0, target: 0 }), 0);
    assert_eq!(encode(Instr::Jmp { delay: 2, target: 5 }), 0x0205);
}

#[test]
fn load_writes_leading_slots_only() {
    let mut m = InstrMemory::new();
    m.load(31, 0x1234);
    let prog = vec![
        Instr::SetTo { delay: 0, dest: SetDest::PinDirs, data: 1 },
        Instr::SetTo { delay: 31, dest: SetDest::Pins, data: 1 },
        Instr::SetTo { delay: 31, dest: SetDest::Pins, data: 0 },
        Instr::Jmp { delay: 0, target: 1 },
    ];
    let words = encode_program(&prog);
    m.load_program(&words);
    assert_eq!(&m.slots[0..4], &[0xe081, 0xff01, 0xff00, 0x0001]);
    assert_eq!(m.slots[4], 0);
    assert_eq!(m.slots[31], 0x1234);
    assert_eq!(m.slots.len(), 32);
    let ops = load_ops(&words);
    assert_eq!(ops[3], Op::Write { reg: Reg::InstrMem(3), value: 1 });
}

#[test]
fn slow_blink_period() {
    let prog = vec![
        Instr::SetTo { delay: 0, dest: SetDest::Pins, data: 1 },
        Instr::MovXNull { delay: 0 },
        Instr::SetTo { delay: 0, dest: SetDest::Pins, data: 0 },
        Instr::Jmp { delay: 0, target: 0 },
    ];
    assert_eq!(program_cycles(&prog, 0), 4);
    let d = ClockDiv { int: 65535, frac: 0 };
    assert_eq!(clkdiv_value(d), 0xffff_0000);
    // in 1/256ths of a system cycle
    assert_eq!(blink_period(&prog, 0, d), 4 * 65535 * 256);
    let fast = ClockDiv { int: 1, frac: 0 };
    assert!(blink_period(&prog, 0, d) > 60_000 * blink_period(&prog, 0, fast));
}

#[test]
fn fractional_divider_period() {
    let prog = vec![Instr::MovXNull { delay: 31 }, Instr::Jmp { delay: 3, target: 0 }];
    let d = ClockDiv { int: 128, frac: 128 };
    assert_eq!(blink_period(&prog, 0, d), 36 * (128 * 256 + 128));
}

#[test]
fn start_order_restart_jump_enable() {
    let ops = start_ops(15, ClockDiv { int: 128, frac: 0 }, 0);
    assert_eq!(ops[0], Op::Write { reg: Reg::GpioCtrl(15), value: 0x3006 });
    assert_eq!(ops[1], Op::Write { reg: Reg::SmPinctrl, value: 0x0400_01e0 });
    assert_eq!(ops[2], Op::Write { reg: Reg::SmClkdiv, value: 0x0080_0000 });
    assert_eq!(ops[3], Op::Write { reg: Reg::PioCtrl, value: 0x10 });
    assert_eq!(ops[4], Op::Write { reg: Reg::PioCtrl, value: 0x100 });
    assert_eq!(ops[5], Op::Write { reg: Reg::SmInstr, value: 0 });
    assert_eq!(ops[6], Op::Write { reg: Reg::PioCtrl, value: 0x1 });
}

fn config() -> BringUpConfig {
    BringUpConfig {
        xosc_hz: XOSC_HZ,
        sys: pll_params(XOSC_HZ, 1, 1_500_000_000, 6, 2),
        usb: pll_params(XOSC_HZ, 1, 480_000_000, 5, 2),
        program: vec![0xe081, 0xff01, 0xff00, 0x0001],
        pin: 15,
        div: ClockDiv { int: 65535, frac: 0 },
        entry: 0,
    }
}

#[test]
fn bring_up_twice_gives_same_sequence() {
    let a = bring_up_ops(&config());
    let b = bring_up_ops(&config());
    assert_eq!(a, b);
    assert_eq!(a.len(), 1 + 2 + 6 + 4 + 1 + 2 + 6 + 6 + 4 + 4 + 7);
}

#[test]
fn bring_up_runs_to_the_end() {
    let ops = bring_up_ops(&config());
    let n = ops.len();
    let mut r = Runner::new(ops);
    let mut turns = 0;
    while let Some(op) = r.current() {
        let read = match op {
            Op::WaitFor { value, .. } => value,
            _ => 0,
        };
        r.step(read);
        turns += 1;
    }
    assert_eq!(turns, n);
    assert_eq!(r.pc, n);
}

#[test]
fn loop_program_shape() {
    let good = vec![
        Instr::SetTo { delay: 3, dest: SetDest::Pins, data: 1 },
        Instr::SetTo { delay: 3, dest: SetDest::Pins, data: 0 },
        Instr::Jmp { delay: 2, target: 0 },
    ];
    assert!(is_loop_program(&good, 0));
    let early_jump = vec![Instr::Jmp { delay: 0, target: 0 }, Instr::Jmp { delay: 0, target: 0 }];
    assert!(!is_loop_program(&early_jump, 0));
    let wrong_target = vec![Instr::MovXNull { delay: 0 }, Instr::Jmp { delay: 0, target: 1 }];
    assert!(!is_loop_program(&wrong_target, 0));
    assert!(is_loop_program(&wrong_target, 1));
    assert!(!is_loop_program(&wrong_target, 2));
    assert!(!is_loop_program(&vec![], 0));
}

#[test]
fn period_of_loop_entered_at_slot_one() {
    let prog = vec![
        Instr::SetTo { delay: 0, dest: SetDest::PinDirs, data: 1 },
        Instr::SetTo { delay: 31, dest: SetDest::Pins, data: 1 },
        Instr::SetTo { delay: 31, dest: SetDest::Pins, data: 0 },
        Instr::Jmp { delay: 0, target: 1 },
    ];
    assert!(is_loop_program(&prog, 1));
    assert_eq!(program_cycles(&prog, 1), 65);
    assert_eq!(program_cycles(&prog, 0), 66);
    assert_eq!(blink_period(&prog, 1, ClockDiv { int: 128, frac: 0 }), 65 * 128 * 256);
}
