use vstd::prelude::*;

verus! {

/// Frequency of the reference crystal on this board.
pub const XOSC_HZ: u32 = 12_000_000;

/// Divider settings of one PLL.
#[derive(Clone, Copy, Debug, PartialEq, Eq, Structural)]
pub struct PllParams {
    pub ref_div: u32,
    pub fb_div: u32,
    pub post_div1: u32,
    pub post_div2: u32,
}

/// The frequency that reaches the phase detector: the reference divided by `ref_div`.
pub open spec fn step_of(ref_hz: int, ref_div: int) -> int {
    ref_hz / ref_div
}

/// The VCO frequency that settings `p` give on a reference of `ref_hz`.
pub open spec fn vco_of(ref_hz: int, p: PllParams) -> int {
    step_of(ref_hz, p.ref_div as int) * p.fb_div
}

/// The output frequency that settings `p` give on a reference of `ref_hz`.
pub open spec fn output_of(ref_hz: int, p: PllParams) -> int {
    vco_of(ref_hz, p) / (p.post_div1 * p.post_div2)
}

/// Whether `(ref_div, post_div1, post_div2)` may be requested on a reference of `ref_hz`.
pub open spec fn legal_request(ref_hz: int, ref_div: int, post_div1: int, post_div2: int) -> bool {
    &&& 1 <= ref_div <= ref_hz
    &&& 1 <= post_div1 <= 7
    &&& 1 <= post_div2 <= 7
}

/// Computes the settings that synthesise `vco_hz` from a reference of `ref_hz`:
/// the feedback divider is `vco_hz / (ref_hz / ref_div)`, rounded down.
pub fn pll_params(ref_hz: u32, ref_div: u32, vco_hz: u32, post_div1: u32, post_div2: u32) -> (r:
    PllParams)
    requires
        legal_request(ref_hz as int, ref_div as int, post_div1 as int, post_div2 as int),
    ensures
        r.ref_div == ref_div,
        r.post_div1 == post_div1,
        r.post_div2 == post_div2,
        r.fb_div as int == vco_hz as int / step_of(ref_hz as int, ref_div as int),
{
    proof {
        assert(ref_hz / ref_div >= 1) by (nonlinear_arith)
            requires 1 <= ref_div <= ref_hz;
    }
    let step = ref_hz / ref_div;
    PllParams { ref_div, fb_div: vco_hz / step, post_div1, post_div2 }
}

/// The feedback divider that `pll_params` picks gives the largest VCO frequency
/// not above the one requested, within one reference step of it, and exactly it
/// when the step divides it; the output is that VCO divided by both post dividers.
pub proof fn pll_output_within_rounding(
    ref_hz: u32,
    ref_div: u32,
    vco_hz: u32,
    post_div1: u32,
    post_div2: u32,
    p: PllParams,
)
    requires
        legal_request(ref_hz as int, ref_div as int, post_div1 as int, post_div2 as int),
        p.ref_div == ref_div,
        p.post_div1 == post_div1,
        p.post_div2 == post_div2,
        p.fb_div as int == vco_hz as int / step_of(ref_hz as int, ref_div as int),
    ensures
        vco_of(ref_hz as int, p) <= vco_hz,
        vco_hz < vco_of(ref_hz as int, p) + step_of(ref_hz as int, ref_div as int),
        vco_hz as int % step_of(ref_hz as int, ref_div as int) == 0 ==> vco_of(ref_hz as int, p)
            == vco_hz,
        output_of(ref_hz as int, p) == vco_of(ref_hz as int, p) / (post_div1 as int
            * post_div2 as int),
{
    let s = step_of(ref_hz as int, ref_div as int);
    assert(s >= 1) by (nonlinear_arith)
        requires s == ref_hz as int / ref_div as int, 1 <= ref_div <= ref_hz;
    let v = vco_hz as int;
    let f = v / s;
    assert(s * f <= v && v < s * f + s && (v % s == 0 ==> s * f == v)) by (nonlinear_arith)
        requires s >= 1, f == v / s, v >= 0;
}

/// Whether the settings fit the PLL's register fields.
pub open spec fn pll_fits(p: PllParams) -> bool {
    &&& 1 <= p.ref_div < 64
    &&& p.fb_div < 4096
    &&& 1 <= p.post_div1 <= 7
    &&& 1 <= p.post_div2 <= 7
}

/// The settings for a request, when the request is legal and they fit the
/// register fields; `None` otherwise.
pub fn pll_request(ref_hz: u32, ref_div: u32, vco_hz: u32, post_div1: u32, post_div2: u32) -> (r:
    Option<PllParams>)
    ensures
        r is Some <==> legal_request(ref_hz as int, ref_div as int, post_div1 as int, post_div2 as int)
            && ref_div < 64 && vco_hz as int / step_of(ref_hz as int, ref_div as int) < 4096,
        r matches Some(p) ==> pll_fits(p) && p.ref_div == ref_div && p.post_div1 == post_div1
            && p.post_div2 == post_div2 && p.fb_div as int == vco_hz as int / step_of(
            ref_hz as int,
            ref_div as int,
        ),
{
    if ref_div < 1 || ref_div > ref_hz || ref_div >= 64 || post_div1 < 1 || post_div1 > 7
        || post_div2 < 1 || post_div2 > 7 {
        return None;
    }
    let p = pll_params(ref_hz, ref_div, vco_hz, post_div1, post_div2);
    if p.fb_div >= 4096 {
        None
    } else {
        Some(p)
    }
}

/// Output frequency of settings `p` on a reference of `ref_hz`.
pub fn output_hz(ref_hz: u32, p: PllParams) -> (r: u64)
    requires
        pll_fits(p),
    ensures
        r as int == output_of(ref_hz as int, p),
{
    let step = (ref_hz / p.ref_div) as u64;
    proof {
        assert(step * (p.fb_div as u64) <= 0xffff_ffff * 4096) by (nonlinear_arith)
            requires step <= 0xffff_ffff, p.fb_div < 4096;
        assert(p.post_div1 * p.post_div2 >= 1) by (nonlinear_arith)
            requires p.post_div1 >= 1, p.post_div2 >= 1;
        assert(p.post_div1 * p.post_div2 <= 49) by (nonlinear_arith)
            requires p.post_div1 <= 7, p.post_div2 <= 7;
    }
    step * (p.fb_div as u64) / ((p.post_div1 * p.post_div2) as u64)
}

/// Value of the primary post-divider register: `post_div1` in bits 16..19,
/// `post_div2` in bits 12..15.
pub fn prim_value(p: PllParams) -> (r: u32)
    requires
        1 <= p.post_div1 <= 7,
        1 <= p.post_div2 <= 7,
    ensures
        r == p.post_div1 * 0x1_0000 + p.post_div2 * 0x1000,
{
    p.post_div1 * 0x1_0000 + p.post_div2 * 0x1000
}

} // verus!
