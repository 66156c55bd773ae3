//! The channel processor: per-channel state, the fixed per-sample pipeline,
//! and the parameter snapshot mapper.
//!
//! The pipeline order is fixed: pre-gain and bias, dry capture, recording
//! noise, hysteresis or crossover, stochastic quantization, normalized
//! saturation, grain noise, the wow/flutter delay read, self-erasure,
//! playback noise, the playback-head tone filter, DC decoupling, the
//! dry/wet cross-fade, post-gain. The pseudo-random stream is drawn in a
//! fixed order at the top of every sample — quantizer left then right,
//! recording noise left then right, flutter, playback noise left then
//! right, grain left then right — so reordering stages cannot silently
//! change the audible result.

use vstd::prelude::*;

use crate::compute::SR_MAX;
use crate::compute::fp_pow;
use crate::compute::fp_pow_spec;
use crate::compute::lemma_fp_mul_comm;
use crate::compute::lemma_fp_mul_nonneg;
use crate::compute::lemma_sat_shape_zero;
use crate::compute::mag_sat_1;
use crate::compute::mag_sat_1_spec;
use crate::compute::mag_sat_2;
use crate::compute::mag_sat_2_spec;
use crate::compute::mag_sat_3;
use crate::compute::mag_sat_3_spec;
use crate::compute::mag_sat_4;
use crate::compute::mag_sat_4_spec;
use crate::compute::mag_sat_5;
use crate::compute::mag_sat_5_spec;
use crate::fixed::FP_ONE;
use crate::fixed::abs_i;
use crate::fixed::fp_add;
use crate::fixed::fp_add_spec;
use crate::fixed::fp_div;
use crate::fixed::fp_div_spec;
use crate::fixed::fp_divi;
use crate::fixed::fp_divi_spec;
use crate::fixed::fp_mul;
use crate::fixed::fp_mul_spec;
use crate::fixed::fp_ok;
use crate::fixed::fp_sub;
use crate::fixed::fp_sub_spec;
use crate::fixed::lemma_fp_mul_contracts;
use crate::fixed::lemma_fp_mul_zero;

verus! {

/// Smallest drive the mapper produces (0.1).
pub const DRIVE_MIN: i64 = 6554;

/// Widest drive span the mapper adds on top of the minimum (4.9).
pub const DRIVE_SPAN: i64 = 321126;

/// Largest recording/playback hiss the mapper produces (0.1).
pub const HISS_MAX: i64 = 6554;

/// The saturation curve selected for the record stage.
#[derive(Clone, Copy, PartialEq, Eq, Structural, Debug)]
pub enum SatMode {
    Tungsten,
    Steel,
    Iron,
    Nickel,
    Magnetite,
}

/// The hysteresis-stage algorithm: one of two stateless crossovers or one
/// of four path-dependent window families.
#[derive(Clone, Copy, PartialEq, Eq, Structural, Debug)]
pub enum HystMode {
    XoverDigital,
    XoverAnalog,
    WinDigital,
    TapeA,
    TapeB,
    Tube,
}

/// One typed, native-range parameter snapshot, immutable for at least one
/// sample.
#[derive(Clone, Copy, PartialEq, Eq, Structural, Debug)]
pub struct Params {
    pub pre_gain: i64,
    pub post_gain: i64,
    pub bias: i64,
    pub drive: i64,
    pub sat_mode: SatMode,
    pub hyst_mode: HystMode,
    pub squareness: i64,
    pub coerc: i64,
    pub xover_amt: i64,
    pub xover_w: i64,
    pub quant: i64,
    pub erase: i64,
    pub hiss_rec: i64,
    pub hiss_play: i64,
    pub grain: i64,
    pub wow: i64,
    pub flutter: i64,
    pub tone: i64,
    pub dry_wet: i64,
}

/// A unit-interval fixed-point control value.
pub open spec fn unit_ok(v: i64) -> bool {
    0 <= v <= FP_ONE
}

impl Params {
    /// The ranges the pipeline relies on; the mapper guarantees them.
    pub open spec fn wf(self) -> bool {
        &&& 0 <= self.pre_gain <= 4 * FP_ONE
        &&& 0 <= self.post_gain <= 4 * FP_ONE
        &&& -FP_ONE <= self.bias <= FP_ONE
        &&& DRIVE_MIN <= self.drive <= 5 * FP_ONE
        &&& unit_ok(self.squareness)
        &&& unit_ok(self.coerc)
        &&& unit_ok(self.xover_amt)
        &&& unit_ok(self.xover_w)
        &&& unit_ok(self.quant)
        &&& unit_ok(self.erase)
        &&& unit_ok(self.hiss_rec)
        &&& unit_ok(self.hiss_play)
        &&& unit_ok(self.grain)
        &&& unit_ok(self.wow)
        &&& unit_ok(self.flutter)
        &&& unit_ok(self.tone)
        &&& unit_ok(self.dry_wet)
    }

    /// No bias, no noise, no grain, no speed modulation, no crossover: the
    /// settings under which an idle pipeline must stay exactly silent.
    pub open spec fn is_neutral(self) -> bool {
        &&& self.bias == 0
        &&& self.xover_amt == 0
        &&& self.hiss_rec == 0
        &&& self.hiss_play == 0
        &&& self.grain == 0
        &&& self.wow == 0
        &&& self.flutter == 0
    }

    /// The neutral snapshot: unity gains, everything else at rest.
    pub fn neutral() -> (r: Params)
        ensures
            r.wf(),
            r.is_neutral(),
            r.quant == 0,
            r.erase == 0,
            r.dry_wet == FP_ONE,
            r.pre_gain == FP_ONE,
            r.post_gain == FP_ONE,
            r.drive == DRIVE_MIN,
    {
        Params {
            pre_gain: FP_ONE,
            post_gain: FP_ONE,
            bias: 0,
            drive: DRIVE_MIN,
            sat_mode: SatMode::Nickel,
            hyst_mode: HystMode::WinDigital,
            squareness: 0,
            coerc: 0,
            xover_amt: 0,
            xover_w: 32768,
            quant: 0,
            erase: 0,
            hiss_rec: 0,
            hiss_play: 0,
            grain: 0,
            wow: 0,
            flutter: 0,
            tone: 0,
            dry_wet: FP_ONE,
        }
    }
}

// === the flat control surface ==============================================

/// How many normalized controls the surface carries.
pub const N_CONTROLS: usize = 18;

/// The host-facing flat list of normalized `[0, 1]` controls. Reads and
/// writes are by index and side-effect-free; an out-of-range index reads as
/// zero and writes nowhere.
pub struct Controls {
    vals: Vec<i64>,
}

impl Controls {
    pub closed spec fn wf(self) -> bool {
        &&& self.vals.len() == N_CONTROLS
        &&& forall|i: int| 0 <= i < self.vals.len() ==> unit_ok(#[trigger] self.vals[i])
    }

    /// The normalized value stored under an index; zero outside the
    /// surface.
    pub closed spec fn at_spec(self, i: int) -> i64 {
        if 0 <= i < self.vals.len() {
            self.vals[i]
        } else {
            0
        }
    }

    /// The surface's starting point: every control at one half, except
    /// the dry/wet mix fully wet.
    pub fn new() -> (r: Controls)
        ensures
            r.wf(),
            forall|i: int| 0 <= i < N_CONTROLS && i != 3 ==> r.at_spec(i) == 32768,
            r.at_spec(3) == FP_ONE,
            forall|i: int| !(0 <= i < N_CONTROLS) ==> r.at_spec(i) == 0,
    {
        let mut vals: Vec<i64> = Vec::new();
        let mut i: usize = 0;
        while i < N_CONTROLS
            invariant
                i <= N_CONTROLS,
                vals.len() == i,
                forall|j: int| 0 <= j < i && j != 3 ==> vals[j] == 32768,
                i > 3 ==> vals[3] == FP_ONE,
            decreases N_CONTROLS - i,
        {
            if i == 3 {
                vals.push(FP_ONE);
            } else {
                vals.push(32768);
            }
            i = i + 1;
        }
        Controls { vals }
    }

    /// Read one control; an out-of-range index reads as the neutral zero
    /// rather than failing.
    pub fn get(&self, i: usize) -> (r: i64)
        requires
            self.wf(),
        ensures
            r == self.at_spec(i as int),
            unit_ok(r),
            i >= N_CONTROLS ==> r == 0,
    {
        if i < self.vals.len() {
            self.vals[i]
        } else {
            0
        }
    }

    /// Store one control, clamped into the unit interval; out-of-range
    /// indices store nowhere.
    pub fn set(&mut self, i: usize, v: i64)
        requires
            old(self).wf(),
        ensures
            final(self).wf(),
            i < N_CONTROLS ==> final(self).at_spec(i as int) == clamp_unit_spec(v as int),
            forall|j: int| j != i ==> final(self).at_spec(j) == old(self).at_spec(j),
            i >= N_CONTROLS ==> *final(self) == *old(self),
    {
        if i < self.vals.len() {
            let c: i64 = if v < 0 {
                0
            } else if v > FP_ONE {
                FP_ONE
            } else {
                v
            };
            self.vals[i] = c;
        }
    }
}

/// Clamping a raw write into the unit interval.
pub open spec fn clamp_unit_spec(v: int) -> int {
    if v < 0 {
        0
    } else if v > FP_ONE {
        FP_ONE as int
    } else {
        v
    }
}

// === the parameter snapshot mapper =========================================

/// The saturation-mode bucket table: five equal buckets of the unit
/// interval, each boundary resolving upward.
pub open spec fn sat_mode_of_spec(t: int) -> SatMode {
    if t < 13107 {
        SatMode::Tungsten
    } else if t < 26214 {
        SatMode::Steel
    } else if t < 39321 {
        SatMode::Iron
    } else if t < 52428 {
        SatMode::Nickel
    } else {
        SatMode::Magnetite
    }
}

/// The hysteresis-mode bucket table: six equal buckets of the unit
/// interval, each boundary resolving upward.
pub open spec fn hyst_mode_of_spec(t: int) -> HystMode {
    if t < 10923 {
        HystMode::XoverDigital
    } else if t < 21845 {
        HystMode::XoverAnalog
    } else if t < 32768 {
        HystMode::WinDigital
    } else if t < 43690 {
        HystMode::TapeA
    } else if t < 54613 {
        HystMode::TapeB
    } else {
        HystMode::Tube
    }
}

/// Bucket a continuous control into a saturation mode.
pub fn sat_mode_of(t: i64) -> (r: SatMode)
    ensures
        r == sat_mode_of_spec(t as int),
{
    if t < 13107 {
        SatMode::Tungsten
    } else if t < 26214 {
        SatMode::Steel
    } else if t < 39321 {
        SatMode::Iron
    } else if t < 52428 {
        SatMode::Nickel
    } else {
        SatMode::Magnetite
    }
}

/// Bucket a continuous control into a hysteresis mode.
pub fn hyst_mode_of(t: i64) -> (r: HystMode)
    ensures
        r == hyst_mode_of_spec(t as int),
{
    if t < 10923 {
        HystMode::XoverDigital
    } else if t < 21845 {
        HystMode::XoverAnalog
    } else if t < 32768 {
        HystMode::WinDigital
    } else if t < 43690 {
        HystMode::TapeA
    } else if t < 54613 {
        HystMode::TapeB
    } else {
        HystMode::Tube
    }
}

/// The pre-gain power curve: `(1/2 + t)^2`, one at mid-travel.
pub open spec fn pre_gain_of_spec(t: int) -> int {
    let u = 32768 + t;
    fp_mul_spec(u, u)
}

/// The drive power curve: `0.1 + 4.9 t^2`.
pub open spec fn drive_of_spec(t: int) -> int {
    fp_add_spec(DRIVE_MIN as int, fp_mul_spec(fp_mul_spec(t, t), DRIVE_SPAN as int))
}

/// The hiss power curve: `0.1 t^2`.
pub open spec fn hiss_of_spec(t: int) -> int {
    fp_mul_spec(fp_mul_spec(t, t), HISS_MAX as int)
}

/// The native snapshot a control surface maps to.
pub open spec fn params_of_spec(c: Controls) -> Params {
    let pre = pre_gain_of_spec(c.at_spec(0) as int);
    Params {
        pre_gain: pre as i64,
        post_gain: fp_div_spec(FP_ONE as int, if pre < 16384 {
            16384
        } else {
            pre
        }) as i64,
        bias: (2 * c.at_spec(4) - FP_ONE) as i64,
        drive: drive_of_spec(c.at_spec(5) as int) as i64,
        sat_mode: sat_mode_of_spec(c.at_spec(6) as int),
        hyst_mode: hyst_mode_of_spec(c.at_spec(7) as int),
        squareness: c.at_spec(1),
        coerc: c.at_spec(2),
        xover_amt: c.at_spec(8),
        xover_w: c.at_spec(9),
        quant: c.at_spec(10),
        erase: c.at_spec(11),
        hiss_rec: hiss_of_spec(c.at_spec(12) as int) as i64,
        hiss_play: hiss_of_spec(c.at_spec(13) as int) as i64,
        grain: c.at_spec(14),
        wow: c.at_spec(15),
        flutter: c.at_spec(16),
        tone: c.at_spec(17),
        dry_wet: c.at_spec(3),
    }
}

/// Map the flat normalized control surface into the native snapshot the
/// pipeline consumes. Every mapping is pure and clamped into its
/// documented range, so the pipeline never receives an out-of-domain
/// value.
pub fn params_of(c: &Controls) -> (r: Params)
    requires
        c.wf(),
    ensures
        r == params_of_spec(*c),
        r.wf(),
{
    let t0: i64 = c.get(0);
    let u: i64 = 32768 + t0;
    proof {
        lemma_fp_mul_nonneg(u as int, u as int);
        assert(fp_mul_spec(u as int, u as int) <= 3 * FP_ONE) by {
            assert((u as int) * (u as int) <= 98304 * 98304) by (nonlinear_arith)
                requires
                    0 <= u as int <= 98304,
            ;
            vstd::arithmetic::div_mod::lemma_div_is_ordered(
                (u as int) * (u as int),
                98304int * 98304,
                65536,
            );
        }
    }
    let pre: i64 = fp_mul(u, u);
    let den: i64 = if pre < 16384 {
        16384
    } else {
        pre
    };
    let post: i64 = fp_div(FP_ONE, den);
    proof {
        let deni: int = den as int;
        assert(fp_div_spec(FP_ONE as int, deni) <= 4 * FP_ONE) by {
            assert((65536int * 65536) / deni <= (65536int * 65536) / 16384) by {
                vstd::arithmetic::div_mod::lemma_div_is_ordered_by_denominator(
                    65536int * 65536,
                    16384,
                    deni,
                );
            }
        }
        vstd::arithmetic::div_mod::lemma_div_pos_is_pos(65536int * 65536, den as int);
    }
    let t5: i64 = c.get(5);
    proof {
        lemma_fp_mul_nonneg(t5 as int, t5 as int);
        lemma_fp_mul_contracts(t5 as int, t5 as int);
        lemma_fp_mul_comm(fp_mul_spec(t5 as int, t5 as int), DRIVE_SPAN as int);
        lemma_fp_mul_contracts(DRIVE_SPAN as int, fp_mul_spec(t5 as int, t5 as int));
        lemma_fp_mul_nonneg(fp_mul_spec(t5 as int, t5 as int), DRIVE_SPAN as int);
    }
    let drive: i64 = fp_add(DRIVE_MIN, fp_mul(fp_mul(t5, t5), DRIVE_SPAN));
    let t12: i64 = c.get(12);
    let t13: i64 = c.get(13);
    proof {
        lemma_fp_mul_nonneg(t12 as int, t12 as int);
        lemma_fp_mul_contracts(t12 as int, t12 as int);
        lemma_fp_mul_comm(fp_mul_spec(t12 as int, t12 as int), HISS_MAX as int);
        lemma_fp_mul_contracts(HISS_MAX as int, fp_mul_spec(t12 as int, t12 as int));
        lemma_fp_mul_nonneg(fp_mul_spec(t12 as int, t12 as int), HISS_MAX as int);
        lemma_fp_mul_nonneg(t13 as int, t13 as int);
        lemma_fp_mul_contracts(t13 as int, t13 as int);
        lemma_fp_mul_comm(fp_mul_spec(t13 as int, t13 as int), HISS_MAX as int);
        lemma_fp_mul_contracts(HISS_MAX as int, fp_mul_spec(t13 as int, t13 as int));
        lemma_fp_mul_nonneg(fp_mul_spec(t13 as int, t13 as int), HISS_MAX as int);
    }
    Params {
        pre_gain: pre,
        post_gain: post,
        bias: 2 * c.get(4) - FP_ONE,
        drive,
        sat_mode: sat_mode_of(c.get(6)),
        hyst_mode: hyst_mode_of(c.get(7)),
        squareness: c.get(1),
        coerc: c.get(2),
        xover_amt: c.get(8),
        xover_w: c.get(9),
        quant: c.get(10),
        erase: c.get(11),
        hiss_rec: fp_mul(fp_mul(t12, t12), HISS_MAX),
        hiss_play: fp_mul(fp_mul(t13, t13), HISS_MAX),
        grain: c.get(14),
        wow: c.get(15),
        flutter: c.get(16),
        tone: c.get(17),
        dry_wet: c.get(3),
    }
}

} // verus!

// === the per-channel pipeline ==============================================

verus! {

use crate::compute::analog_xover;
use crate::compute::analog_xover_spec;
use crate::compute::digital_xover;
use crate::compute::digital_xover_spec;
use crate::compute::play;
use crate::compute::play_spec;
use crate::compute::quant_choose_spec;
use crate::compute::sat_core;
use crate::compute::sat_core_spec;
use crate::compute::lemma_sat_core_zero;
use crate::compute::tube_bias;
use crate::compute::tube_bias_spec;
use crate::compute::x_quant_pick;
use crate::delay::DelayLine;
use crate::delay::lerp_spec;
use crate::delay::push_view;
use crate::delay::DELAY_CAP_MAX;
use crate::filters::DcBlock;
use crate::filters::FP_HALF_LIMIT;
use crate::filters::audio_ok;
use crate::filters::dc_next_spec;
use crate::filters::dc_out_spec;

/// Self-erasure strength scale (0.9).
pub const ERASE_K: i64 = 58982;

/// Smallest normalization denominator the saturation stage divides by
/// (0.01): the guard that keeps the drive normalization away from zero.
pub const EPS_DEN: i64 = 655;

/// The exponent of the grain-noise skew.
pub const GRAIN_POW: u64 = 18;

/// The saturation curve of a mode.
pub open spec fn sat_curve_spec(m: SatMode, u: int) -> int {
    match m {
        SatMode::Tungsten => mag_sat_1_spec(u),
        SatMode::Steel => mag_sat_2_spec(u),
        SatMode::Iron => mag_sat_3_spec(u),
        SatMode::Nickel => mag_sat_4_spec(u),
        SatMode::Magnetite => mag_sat_5_spec(u),
    }
}

/// Evaluate the saturation curve a mode selects.
pub fn sat_curve(m: SatMode, u: i64) -> (r: i64)
    requires
        fp_ok(u),
    ensures
        r == sat_curve_spec(m, u as int),
        abs_i(r as int) < FP_ONE,
        fp_ok(r),
{
    match m {
        SatMode::Tungsten => mag_sat_1(u),
        SatMode::Steel => mag_sat_2(u),
        SatMode::Iron => mag_sat_3(u),
        SatMode::Nickel => mag_sat_4(u),
        SatMode::Magnetite => mag_sat_5(u),
    }
}

/// Every mode's curve fixes zero.
pub proof fn lemma_sat_curve_zero(m: SatMode)
    ensures
        sat_curve_spec(m, 0) == 0,
{
    lemma_sat_shape_zero(crate::compute::SAT1_C3 as int, 0, crate::compute::SAT1_C1 as int);
    lemma_sat_shape_zero(crate::compute::SAT2_C3 as int, 0, crate::compute::SAT2_C1 as int);
    lemma_sat_shape_zero(0, 0, crate::compute::SAT3_C1 as int);
    lemma_sat_shape_zero(0, 0, FP_ONE as int);
    lemma_sat_shape_zero(0, crate::compute::SAT5_C2 as int, 0);
}

/// The bounding-trajectory curve of a hysteresis window family.
pub open spec fn win_curve_spec(m: HystMode, u: int) -> int {
    match m {
        HystMode::TapeA => mag_sat_1_spec(u),
        HystMode::TapeB => mag_sat_2_spec(u),
        HystMode::Tube => mag_sat_5_spec(u),
        _ => mag_sat_4_spec(u),
    }
}

/// Evaluate the window curve a mode selects.
pub fn win_curve(m: HystMode, u: i64) -> (r: i64)
    requires
        fp_ok(u),
    ensures
        r == win_curve_spec(m, u as int),
        abs_i(r as int) < FP_ONE,
        fp_ok(r),
{
    match m {
        HystMode::TapeA => mag_sat_1(u),
        HystMode::TapeB => mag_sat_2(u),
        HystMode::Tube => mag_sat_5(u),
        _ => mag_sat_4(u),
    }
}

/// Every window curve fixes zero.
pub proof fn lemma_win_curve_zero(m: HystMode)
    ensures
        win_curve_spec(m, 0) == 0,
{
    lemma_sat_shape_zero(crate::compute::SAT1_C3 as int, 0, crate::compute::SAT1_C1 as int);
    lemma_sat_shape_zero(crate::compute::SAT2_C3 as int, 0, crate::compute::SAT2_C1 as int);
    lemma_sat_shape_zero(0, 0, FP_ONE as int);
    lemma_sat_shape_zero(0, crate::compute::SAT5_C2 as int, 0);
}

/// Clamp to one full-scale unit.
pub open spec fn clamp_one_spec(v: int) -> int {
    if v > FP_ONE {
        FP_ONE as int
    } else if v < -FP_ONE {
        -FP_ONE as int
    } else {
        v
    }
}

/// Clamp into the audio band the DC stage asks for.
pub open spec fn clamp_audio_spec(v: int) -> int {
    if v > FP_HALF_LIMIT {
        FP_HALF_LIMIT as int
    } else if v < -FP_HALF_LIMIT {
        -FP_HALF_LIMIT as int
    } else {
        v
    }
}

/// The hysteresis stage: a stateless crossover, or the differentiated
/// bounding window accumulated onto the memory register. Returns the stage
/// output and the new memory value.
pub open spec fn hyst_stage_spec(p: Params, v: int, in_p: int, mem: int) -> (int, int) {
    match p.hyst_mode {
        HystMode::XoverDigital => (digital_xover_spec(v, p.xover_amt as int, p.xover_w as int), mem),
        HystMode::XoverAnalog => (analog_xover_spec(v, p.xover_amt as int, p.xover_w as int), mem),
        _ => {
            let off = fp_divi_spec(p.coerc as int, 4);
            let rising = v >= in_p;
            let sh = if rising {
                -off
            } else {
                off
            };
            let wn = win_curve_spec(p.hyst_mode, fp_add_spec(v, sh));
            let wp = win_curve_spec(p.hyst_mode, fp_add_spec(in_p, sh));
            let mem2 = clamp_one_spec(fp_add_spec(mem, fp_sub_spec(wn, wp)));
            let direct = win_curve_spec(p.hyst_mode, v);
            let out = fp_add_spec(
                fp_mul_spec(p.squareness as int, mem2),
                fp_mul_spec(FP_ONE - p.squareness, direct),
            );
            (out, mem2)
        },
    }
}

/// The normalized saturation stage: the drive-scaled, bias-shifted curve,
/// with the bias image subtracted and the drive image divided out, its
/// denominator guarded away from zero.
pub open spec fn sat_stage_spec(p: Params, v: int) -> int {
    let num = fp_sub_spec(
        sat_curve_spec(p.sat_mode, fp_add_spec(fp_mul_spec(v, p.drive as int), p.bias as int)),
        sat_curve_spec(p.sat_mode, p.bias as int),
    );
    let den_raw = sat_curve_spec(p.sat_mode, p.drive as int);
    let den = if den_raw < EPS_DEN {
        EPS_DEN as int
    } else {
        den_raw
    };
    fp_div_spec(num, den)
}

/// The self-erasure stage: a soft saturating pull of the output toward
/// the previous output, transparent at `keep == FP_ONE` (erase amount
/// zero).
pub open spec fn erase_step_spec(x: int, y_p: int, keep: int) -> int {
    fp_add_spec(
        x,
        fp_mul_spec(fp_sub_spec(FP_ONE as int, keep), sat_core_spec(fp_sub_spec(y_p, x))),
    )
}

/// One self-erasure step stays between the current sample and the held
/// output, never overshoots, lands within one unit of the sample, and
/// strictly narrows any nonzero gap — and with `keep == FP_ONE` it is the
/// current sample exactly.
pub proof fn lemma_erase_step_contracts(x: int, y_p: int, keep: int)
    requires
        -FP_HALF_LIMIT <= x <= FP_HALF_LIMIT,
        -FP_HALF_LIMIT <= y_p <= FP_HALF_LIMIT,
        0 <= keep <= FP_ONE,
    ensures
        abs_i(erase_step_spec(x, y_p, keep) - x) <= abs_i(y_p - x),
        abs_i(erase_step_spec(x, y_p, keep) - x) < FP_ONE,
        x <= y_p ==> x <= erase_step_spec(x, y_p, keep) <= y_p,
        y_p <= x ==> y_p <= erase_step_spec(x, y_p, keep) <= x,
        abs_i(y_p - x) >= 1 ==> abs_i(erase_step_spec(x, y_p, keep) - x) < abs_i(y_p - x),
        keep == FP_ONE ==> erase_step_spec(x, y_p, keep) == x,
{
    let e: int = y_p - x;
    let sc: int = crate::compute::sat_core_spec(e);
    crate::compute::lemma_sat_core_bound(e);
    if abs_i(e) >= 1 {
        crate::compute::lemma_sat_core_strict(e);
    }
    let c: int = fp_sub_spec(FP_ONE as int, keep);
    lemma_fp_mul_comm(c, sc);
    lemma_fp_mul_contracts(sc, c);
    if sc >= 0 {
        lemma_fp_mul_nonneg(c, sc);
    } else {
        crate::fixed::lemma_fp_mul_neg(c, -sc);
        lemma_fp_mul_nonneg(c, -sc);
    }
    if keep == FP_ONE {
        lemma_fp_mul_zero(sc);
    }
}

/// The held self-erasure output after `n` steps of a constant sample.
pub open spec fn erase_iter_spec(x: int, y0: int, keep: int, n: nat) -> int
    decreases n,
{
    if n == 0 {
        y0
    } else {
        erase_step_spec(x, erase_iter_spec(x, y0, keep, (n - 1) as nat), keep)
    }
}

/// The self-erasure stage settles exactly: fed a constant sample, its
/// held output reaches that sample within a number of steps bounded by
/// the initial gap, never overshooting on the way. Together with the
/// DC-decouple convergence law and the one-pole settling law this pins
/// the tail of an impulse: once the stored transient has drained from the
/// delay line, the later stages come to rest and the DC stage drives the
/// output toward zero.
pub proof fn lemma_erase_converges(x: int, y0: int, keep: int, n: nat)
    requires
        -FP_HALF_LIMIT <= x <= FP_HALF_LIMIT,
        -FP_HALF_LIMIT <= y0 <= FP_HALF_LIMIT,
        0 <= keep <= FP_ONE,
    ensures
        x <= y0 ==> x <= erase_iter_spec(x, y0, keep, n) <= y0,
        y0 <= x ==> y0 <= erase_iter_spec(x, y0, keep, n) <= x,
        abs_i(erase_iter_spec(x, y0, keep, n) - x) <= (if abs_i(y0 - x) - n > 0 {
            abs_i(y0 - x) - n
        } else {
            0
        }),
        n >= abs_i(y0 - x) ==> erase_iter_spec(x, y0, keep, n) == x,
    decreases n,
{
    if n > 0 {
        lemma_erase_converges(x, y0, keep, (n - 1) as nat);
        lemma_erase_step_contracts(x, erase_iter_spec(x, y0, keep, (n - 1) as nat), keep);
    }
}

/// Everything one channel step determines: the output sample, every
/// register's next value, and the sample pushed into the wet line.
pub struct ChStep {
    pub out: int,
    pub hyst_in_p: int,
    pub hyst_mem: int,
    pub quant_p: int,
    pub erase_p: int,
    pub tone_p: int,
    pub rec_np: int,
    pub play_np: int,
    pub dc: int,
    pub wet_in: int,
}

/// The mathematical image of one channel: its registers, the two delay
/// populations, and the DC estimate.
#[verifier::ext_equal]
pub struct ChModel {
    pub hyst_in_p: int,
    pub hyst_mem: int,
    pub quant_p: int,
    pub erase_p: int,
    pub tone_p: int,
    pub rec_np: int,
    pub play_np: int,
    pub dc: int,
    pub delay: Seq<i64>,
    pub dry: Seq<i64>,
}

/// One channel, one sample: the whole pipeline as a pure function of the
/// prior model, the input, the speed factor and the four variates drawn
/// for this channel.
pub open spec fn ch_step_m(
    st: ChModel,
    x: int,
    mf: int,
    p: Params,
    sr: int,
    qd: int,
    rd: int,
    pd: int,
    gd: int,
) -> ChStep {
    let a = fp_mul_spec(x, p.pre_gain as int);
    let b = tube_bias_spec(a, p.bias as int);
    let rc = 2 * rd - FP_ONE;
    let blue = fp_sub_spec(rc, fp_divi_spec(st.rec_np, 2));
    let v3 = fp_add_spec(b, fp_mul_spec(p.hiss_rec as int, blue));
    let h = hyst_stage_spec(p, v3, st.hyst_in_p, st.hyst_mem);
    let v5 = quant_choose_spec(h.0, st.quant_p, sr, p.quant as int, qd);
    let v6 = sat_stage_spec(p, v5);
    let gmag = fp_pow_spec(gd, GRAIN_POW as nat);
    let gsign = if gd % 2 == 1 {
        -gmag
    } else {
        gmag
    };
    let v7 = fp_add_spec(v6, fp_mul_spec(p.grain as int, gsign));
    let nv = push_view(st.delay, v7 as i64);
    let cap = st.delay.len() as int;
    let base = cap / 2;
    let bm = base * mf;
    let kraw = bm / (FP_ONE as int);
    let k = if kraw > cap - 2 {
        cap - 2
    } else {
        kraw
    };
    let fr = if kraw > cap - 2 {
        0
    } else {
        bm % (FP_ONE as int)
    };
    let v8 = lerp_spec(nv[k] as int, nv[k + 1] as int, fr);
    let t = fp_sub_spec(FP_ONE as int, fp_mul_spec(p.erase as int, ERASE_K as int));
    let keep = fp_mul_spec(t, t);
    let v9 = erase_step_spec(v8, st.erase_p, keep);
    let pc = 2 * pd - FP_ONE;
    let blue2 = fp_sub_spec(pc, fp_divi_spec(st.play_np, 2));
    let v10 = fp_add_spec(v9, fp_mul_spec(p.hiss_play as int, blue2));
    let v11 = play_spec(v10, st.tone_p, p.tone as int);
    let vc = clamp_audio_spec(v11);
    let v12 = dc_out_spec(st.dc, vc);
    let dc2 = dc_next_spec(st.dc, vc);
    let dview = push_view(st.dry, x as i64);
    let dry_s = dview[base] as int;
    let v13 = fp_add_spec(
        fp_mul_spec(dry_s, FP_ONE - p.dry_wet),
        fp_mul_spec(v12, p.dry_wet as int),
    );
    let out = fp_mul_spec(v13, p.post_gain as int);
    ChStep {
        out,
        hyst_in_p: v3,
        hyst_mem: h.1,
        quant_p: v5,
        erase_p: v9,
        tone_p: v11,
        rec_np: rc,
        play_np: pc,
        dc: dc2,
        wet_in: v7,
    }
}


/// The image an exec channel presents.
pub open spec fn ch_model(st: ChannelState) -> ChModel {
    ChModel {
        hyst_in_p: st.hyst_in_p as int,
        hyst_mem: st.hyst_mem as int,
        quant_p: st.quant_p as int,
        erase_p: st.erase_p as int,
        tone_p: st.tone_p as int,
        rec_np: st.rec_np as int,
        play_np: st.play_np as int,
        dc: st.dc.dc as int,
        delay: st.delay.view_seq(),
        dry: st.dry.view_seq(),
    }
}

/// One channel, one sample, on the exec state.
pub open spec fn ch_step_spec(
    st: ChannelState,
    x: int,
    mf: int,
    p: Params,
    sr: int,
    qd: int,
    rd: int,
    pd: int,
    gd: int,
) -> ChStep {
    ch_step_m(ch_model(st), x, mf, p, sr, qd, rd, pd, gd)
}

/// The model after one channel step: the registers a step leaves, the new
/// wet sample pushed, and the dry capture pushed.
pub open spec fn ch_next_m(
    m: ChModel,
    x: int,
    mf: int,
    p: Params,
    sr: int,
    qd: int,
    rd: int,
    pd: int,
    gd: int,
) -> ChModel {
    let s = ch_step_m(m, x, mf, p, sr, qd, rd, pd, gd);
    ChModel {
        hyst_in_p: s.hyst_in_p,
        hyst_mem: s.hyst_mem,
        quant_p: s.quant_p,
        erase_p: s.erase_p,
        tone_p: s.tone_p,
        rec_np: s.rec_np,
        play_np: s.play_np,
        dc: s.dc,
        delay: push_view(m.delay, s.wet_in as i64),
        dry: push_view(m.dry, x as i64),
    }
}

/// One audio channel's complete state: the one- and two-sample memories of
/// every feedback stage, the wet and dry delay lines, and the DC estimate.
/// Owned exclusively by its channel; nothing here is shared.
pub struct ChannelState {
    pub hyst_in_p: i64,
    pub hyst_mem: i64,
    pub quant_p: i64,
    pub erase_p: i64,
    pub tone_p: i64,
    pub rec_np: i64,
    pub play_np: i64,
    pub delay: DelayLine,
    pub dry: DelayLine,
    pub dc: DcBlock,
}

impl ChannelState {
    pub open spec fn wf(self) -> bool {
        &&& fp_ok(self.hyst_in_p)
        &&& -FP_ONE <= self.hyst_mem <= FP_ONE
        &&& fp_ok(self.quant_p)
        &&& fp_ok(self.erase_p)
        &&& fp_ok(self.tone_p)
        &&& -FP_ONE <= self.rec_np <= FP_ONE
        &&& -FP_ONE <= self.play_np <= FP_ONE
        &&& self.delay.wf()
        &&& self.dry.wf()
        &&& self.dry.cap_spec() == self.delay.cap_spec()
        &&& self.dc.wf()
    }

    /// Every register and both delay populations at zero; the noise
    /// memories are free, since a zero hiss silences them.
    pub open spec fn zero_audio(self) -> bool {
        &&& self.hyst_in_p == 0
        &&& self.hyst_mem == 0
        &&& self.quant_p == 0
        &&& self.erase_p == 0
        &&& self.tone_p == 0
        &&& self.dc.dc == 0
        &&& forall|k: int| 0 <= k < self.delay.cap_spec() ==> self.delay.at_spec(k) == 0
        &&& forall|k: int| 0 <= k < self.dry.cap_spec() ==> self.dry.at_spec(k) == 0
    }

    /// A channel at rest with the given delay capacity.
    pub fn new(cap: usize) -> (r: ChannelState)
        requires
            2 <= cap <= DELAY_CAP_MAX,
        ensures
            r.wf(),
            r.zero_audio(),
            r.rec_np == 0,
            r.play_np == 0,
            r.delay.cap_spec() == cap,
    {
        ChannelState {
            hyst_in_p: 0,
            hyst_mem: 0,
            quant_p: 0,
            erase_p: 0,
            tone_p: 0,
            rec_np: 0,
            play_np: 0,
            delay: DelayLine::new(cap),
            dry: DelayLine::new(cap),
            dc: DcBlock::new(),
        }
    }
}

} // verus!

verus! {

impl ChannelState {
    /// Run the fixed pipeline for one sample of this channel. The four
    /// variates were drawn by the caller in the stream's documented order.
    /// Under neutral parameters, a silent input on a resting channel stays
    /// exactly silent, whatever the variates and the speed factor.
    #[verifier::rlimit(100)]
    #[verifier::spinoff_prover]
    pub fn step(
        &mut self,
        x: i64,
        mf: i64,
        p: &Params,
        sr: i64,
        qd: i64,
        rd: i64,
        pd: i64,
        gd: i64,
    ) -> (r: i64)
        requires
            old(self).wf(),
            audio_ok(x),
            32768 <= mf <= 98304,
            p.wf(),
            1 <= sr <= SR_MAX,
            0 <= qd < FP_ONE,
            0 <= rd < FP_ONE,
            0 <= pd < FP_ONE,
            0 <= gd < FP_ONE,
        ensures
            final(self).wf(),
            final(self).delay.cap_spec() == old(self).delay.cap_spec(),
            ({
                let s = ch_step_spec(
                    *old(self),
                    x as int,
                    mf as int,
                    *p,
                    sr as int,
                    qd as int,
                    rd as int,
                    pd as int,
                    gd as int,
                );
                &&& r == s.out
                &&& final(self).hyst_in_p == s.hyst_in_p
                &&& final(self).hyst_mem == s.hyst_mem
                &&& final(self).quant_p == s.quant_p
                &&& final(self).erase_p == s.erase_p
                &&& final(self).tone_p == s.tone_p
                &&& final(self).rec_np == s.rec_np
                &&& final(self).play_np == s.play_np
                &&& final(self).dc.dc == s.dc
                &&& final(self).delay.view_seq() == push_view(
                    old(self).delay.view_seq(),
                    s.wet_in as i64,
                )
                &&& final(self).dry.view_seq() == push_view(old(self).dry.view_seq(), x)
            }),
            ch_model(*final(self)) == ch_next_m(
                ch_model(*old(self)),
                x as int,
                mf as int,
                *p,
                sr as int,
                qd as int,
                rd as int,
                pd as int,
                gd as int,
            ),
            (p.is_neutral() && old(self).zero_audio() && x == 0) ==> (r == 0
                && final(self).zero_audio()),
            fp_ok(r),
    {
        let ghost zero_case: bool = p.is_neutral() && old(self).zero_audio() && x == 0;
        // 1: pre-gain and bias
        let a: i64 = fp_mul(x, p.pre_gain);
        let b: i64 = tube_bias(a, p.bias);
        proof {
            if zero_case {
                lemma_fp_mul_zero(p.pre_gain as int);
                assert(b == 0);
            }
        }
        // 3: recording noise, blue-shaped
        let rc: i64 = 2 * rd - FP_ONE;
        let blue: i64 = fp_sub(rc, fp_divi(self.rec_np, 2));
        let v3: i64 = fp_add(b, fp_mul(p.hiss_rec, blue));
        proof {
            if zero_case {
                lemma_fp_mul_zero(blue as int);
                assert(v3 == 0);
            }
        }
        // 4: hysteresis or crossover
        let pair: (i64, i64) = match p.hyst_mode {
            HystMode::XoverDigital => (digital_xover(v3, p.xover_amt, p.xover_w), self.hyst_mem),
            HystMode::XoverAnalog => (analog_xover(v3, p.xover_amt, p.xover_w), self.hyst_mem),
            _ => {
                let off: i64 = fp_divi(p.coerc, 4);
                let sh: i64 = if v3 >= self.hyst_in_p {
                    -off
                } else {
                    off
                };
                let wn: i64 = win_curve(p.hyst_mode, fp_add(v3, sh));
                let wp: i64 = win_curve(p.hyst_mode, fp_add(self.hyst_in_p, sh));
                let m2r: i64 = fp_add(self.hyst_mem, fp_sub(wn, wp));
                let mem2: i64 = if m2r > FP_ONE {
                    FP_ONE
                } else if m2r < -FP_ONE {
                    -FP_ONE
                } else {
                    m2r
                };
                let direct: i64 = win_curve(p.hyst_mode, v3);
                let outw: i64 = fp_add(
                    fp_mul(p.squareness, mem2),
                    fp_mul(FP_ONE - p.squareness, direct),
                );
                proof {
                    if zero_case {
                        lemma_win_curve_zero(p.hyst_mode);
                        lemma_fp_mul_zero(p.squareness as int);
                        lemma_fp_mul_zero(FP_ONE - p.squareness as int);
                        assert(outw == 0 && mem2 == 0);
                    }
                }
                (outw, mem2)
            },
        };
        proof {
            if zero_case {
                assert(pair.0 == 0 && pair.1 == 0);
            }
        }
        // 5: stochastic quantization
        let v5: i64 = x_quant_pick(pair.0, self.quant_p, sr, p.quant, qd);
        // 6: normalized saturation
        let num: i64 = fp_sub(
            sat_curve(p.sat_mode, fp_add(fp_mul(v5, p.drive), p.bias)),
            sat_curve(p.sat_mode, p.bias),
        );
        let den_raw: i64 = sat_curve(p.sat_mode, p.drive);
        let den: i64 = if den_raw < EPS_DEN {
            EPS_DEN
        } else {
            den_raw
        };
        let v6: i64 = fp_div(num, den);
        proof {
            if zero_case {
                lemma_fp_mul_zero(p.drive as int);
                lemma_sat_curve_zero(p.sat_mode);
                assert(num == 0);
                vstd::arithmetic::div_mod::lemma_div_of0(den as int);
                assert(v6 == 0);
            }
        }
        // 7: grain noise
        let gmag: i64 = fp_pow(gd, GRAIN_POW);
        let par: u64 = (gd as u64) % 2;
        let gsign: i64 = if par == 1 {
            -gmag
        } else {
            gmag
        };
        let v7: i64 = fp_add(v6, fp_mul(p.grain, gsign));
        proof {
            if zero_case {
                lemma_fp_mul_zero(gsign as int);
                assert(v7 == 0);
            }
        }
        // 8: the modulated wet delay
        self.delay.push(v7);
        let cap: usize = self.delay.capacity();
        let base: usize = cap / 2;
        proof {
            vstd::arithmetic::div_mod::lemma_div_is_ordered(cap as int, 2000000, 2);
            assert(base as u64 <= 1000000u64);
            assert((base as u64) * (mf as u64) <= 1000000u64 * 98304u64) by (nonlinear_arith)
                requires
                    base as u64 <= 1000000u64,
                    mf as u64 <= 98304u64,
            ;
        }
        let bm: u64 = (base as u64) * (mf as u64);
        let kraw: u64 = bm / 65536;
        let cm2: u64 = (cap as u64) - 2;
        let kk: u64 = if kraw > cm2 {
            cm2
        } else {
            kraw
        };
        proof {
            vstd::arithmetic::div_mod::lemma_mod_division_less_than_divisor(bm as int, 65536);
        }
        let fr: i64 = if kraw > cm2 {
            0
        } else {
            (bm % 65536) as i64
        };
        let k: usize = kk as usize;
        proof {
            assert(self.delay.view_seq()[kk as int] == self.delay.at_spec(kk as int));
            assert(self.delay.view_seq()[kk as int + 1] == self.delay.at_spec(kk as int + 1));
        }
        let v8: i64 = self.delay.read_frac(k, fr);
        proof {
            if zero_case {
                assert forall|j: int| 0 <= j < self.delay.cap_spec() implies self.delay.at_spec(j)
                    == 0 by {
                    if j >= 1 {
                        assert(old(self).delay.at_spec(j - 1) == 0);
                    }
                }
                assert(fp_sub_spec(0, 0) == 0);
                lemma_fp_mul_zero(fr as int);
                assert(v8 == 0);
            }
        }
        // 9: self-erasure toward the previous output
        let t: i64 = fp_sub(FP_ONE, fp_mul(p.erase, ERASE_K));
        let keep: i64 = fp_mul(t, t);
        let v9: i64 = fp_add(v8, fp_mul(fp_sub(FP_ONE, keep), sat_core(fp_sub(self.erase_p, v8))));
        proof {
            if zero_case {
                lemma_sat_core_zero();
                lemma_fp_mul_zero(fp_sub_spec(FP_ONE as int, keep as int));
                assert(v9 == 0);
            }
        }
        // 10: playback noise, blue-shaped
        let pc: i64 = 2 * pd - FP_ONE;
        let blue2: i64 = fp_sub(pc, fp_divi(self.play_np, 2));
        let v10: i64 = fp_add(v9, fp_mul(p.hiss_play, blue2));
        proof {
            if zero_case {
                lemma_fp_mul_zero(blue2 as int);
                assert(v10 == 0);
            }
        }
        // 11: playback-head tone
        let v11: i64 = play(v10, self.tone_p, p.tone);
        proof {
            if zero_case {
                assert(v11 == 0);
            }
        }
        // 12: DC decoupling
        let vc: i64 = if v11 > FP_HALF_LIMIT {
            FP_HALF_LIMIT
        } else if v11 < -FP_HALF_LIMIT {
            -FP_HALF_LIMIT
        } else {
            v11
        };
        let v12: i64 = self.dc.step(vc);
        proof {
            if zero_case {
                vstd::arithmetic::div_mod::lemma_div_of0(4);
                assert(v12 == 0);
                assert(self.dc.dc == 0);
            }
        }
        // 2 and 13: the dry capture and the time-aligned dry/wet cross-fade
        self.dry.push(x);
        let dry_s: i64 = self.dry.read_at(base);
        proof {
            if zero_case {
                assert forall|j: int| 0 <= j < self.dry.cap_spec() implies self.dry.at_spec(j)
                    == 0 by {
                    if j >= 1 {
                        assert(old(self).dry.at_spec(j - 1) == 0);
                    }
                }
                assert(dry_s == 0);
            }
        }
        let v13: i64 = fp_add(fp_mul(dry_s, FP_ONE - p.dry_wet), fp_mul(v12, p.dry_wet));
        // 14: post-gain
        let out: i64 = fp_mul(v13, p.post_gain);
        proof {
            if zero_case {
                lemma_fp_mul_zero(FP_ONE - p.dry_wet as int);
                lemma_fp_mul_zero(p.dry_wet as int);
                lemma_fp_mul_zero(p.post_gain as int);
                assert(out == 0);
            }
        }
        self.hyst_in_p = v3;
        self.hyst_mem = pair.1;
        self.quant_p = v5;
        self.erase_p = v9;
        self.tone_p = v11;
        self.rec_np = rc;
        self.play_np = pc;
        out
    }
}

} // verus!

// === the stereo engine ======================================================

verus! {

use crate::modulation::Modulator;
use crate::modulation::mod_next_spec;
use crate::modulation::mod_out_spec;
use crate::rng::TapeRng;
use crate::rng::rng_out_spec;
use crate::rng::rng_seeded_spec;
use crate::rng::rng_step_spec;
use crate::rng::unit_of;

/// The generator after `n` draws.
pub open spec fn rng_after(r: TapeRng, n: nat) -> TapeRng
    decreases n,
{
    if n == 0 {
        r
    } else {
        rng_step_spec(rng_after(r, (n - 1) as nat))
    }
}

/// The `n`-th unit variate the stream yields.
pub open spec fn draw_of(r: TapeRng, n: nat) -> int {
    unit_of(rng_out_spec(rng_after(r, n))) as int
}

/// The mathematical image of the whole engine.
#[verifier::ext_equal]
pub struct EngModel {
    pub sr: int,
    pub left: ChModel,
    pub right: ChModel,
    pub modu: Modulator,
    pub rng: TapeRng,
}

/// One engine sample on the model: nine draws in the documented order —
/// quantizer left, quantizer right, recording noise left and right, the
/// flutter variate, playback noise left and right, grain left and right —
/// one shared modulator step, then the two channel pipelines.
pub open spec fn sample_step_m(m: EngModel, xl: int, xr: int, p: Params) -> (EngModel, int, int) {
    let fnoise = 2 * draw_of(m.rng, 4) - FP_ONE;
    let mf = mod_out_spec(m.modu, fnoise, m.sr, p.wow as int, p.flutter as int);
    let sl = ch_step_m(
        m.left,
        xl,
        mf,
        p,
        m.sr,
        draw_of(m.rng, 0),
        draw_of(m.rng, 2),
        draw_of(m.rng, 5),
        draw_of(m.rng, 7),
    );
    let sr_ = ch_step_m(
        m.right,
        xr,
        mf,
        p,
        m.sr,
        draw_of(m.rng, 1),
        draw_of(m.rng, 3),
        draw_of(m.rng, 6),
        draw_of(m.rng, 8),
    );
    let m2 = EngModel {
        sr: m.sr,
        left: ch_next_m(
            m.left,
            xl,
            mf,
            p,
            m.sr,
            draw_of(m.rng, 0),
            draw_of(m.rng, 2),
            draw_of(m.rng, 5),
            draw_of(m.rng, 7),
        ),
        right: ch_next_m(
            m.right,
            xr,
            mf,
            p,
            m.sr,
            draw_of(m.rng, 1),
            draw_of(m.rng, 3),
            draw_of(m.rng, 6),
            draw_of(m.rng, 8),
        ),
        modu: mod_next_spec(m.modu, fnoise, m.sr),
        rng: rng_after(m.rng, 9),
    };
    (m2, sl.out, sr_.out)
}

/// The model after `n` samples of a block.
pub open spec fn run_m(m: EngModel, l: Seq<i64>, r: Seq<i64>, p: Params, n: nat) -> EngModel
    decreases n,
{
    if n == 0 {
        m
    } else {
        let prev = run_m(m, l, r, p, (n - 1) as nat);
        sample_step_m(prev, l[n - 1] as int, r[n - 1] as int, p).0
    }
}

/// The left output of sample `i` of a block.
pub open spec fn run_out_l(m: EngModel, l: Seq<i64>, r: Seq<i64>, p: Params, i: nat) -> int {
    sample_step_m(run_m(m, l, r, p, i), l[i as int] as int, r[i as int] as int, p).1
}

/// The right output of sample `i` of a block.
pub open spec fn run_out_r(m: EngModel, l: Seq<i64>, r: Seq<i64>, p: Params, i: nat) -> int {
    sample_step_m(run_m(m, l, r, p, i), l[i as int] as int, r[i as int] as int, p).2
}

/// The whole stereo processor: two channels, the shared modulator, the
/// shared deterministic stream, and the sampling rate.
pub struct Engine {
    pub sr: i64,
    pub left: ChannelState,
    pub right: ChannelState,
    pub modu: Modulator,
    pub rng: TapeRng,
}

impl Engine {
    pub open spec fn wf(self) -> bool {
        &&& 1000 <= self.sr <= SR_MAX
        &&& self.left.wf()
        &&& self.right.wf()
        &&& self.modu.wf()
    }

    /// The image this engine presents.
    pub open spec fn model(self) -> EngModel {
        EngModel {
            sr: self.sr as int,
            left: ch_model(self.left),
            right: ch_model(self.right),
            modu: self.modu,
            rng: self.rng,
        }
    }

    /// Build an engine for a sampling rate, with the deterministic stream
    /// seeded from a fixed seed: the delay lines hold a tenth of a second,
    /// every register is zero, and the whole future output is a pure
    /// function of seed, inputs and parameters.
    pub fn new(sr: i64, seed: u64) -> (r: Engine)
        requires
            1000 <= sr <= SR_MAX,
        ensures
            r.wf(),
            r.sr == sr,
            r.left.zero_audio(),
            r.right.zero_audio(),
            r.left.rec_np == 0,
            r.left.play_np == 0,
            r.right.rec_np == 0,
            r.right.play_np == 0,
            r.modu.is_zero(),
            r.rng == rng_seeded_spec(seed),
            r.model() == fresh_model_spec(sr as int, seed),
    {
        let cap: usize = ((sr as u64) / 10) as usize;
        proof {
            vstd::arithmetic::div_mod::lemma_div_is_ordered(1000, sr as int, 10);
            vstd::arithmetic::div_mod::lemma_div_is_ordered(sr as int, 1000000, 10);
        }
        let r = Engine {
            sr,
            left: ChannelState::new(cap),
            right: ChannelState::new(cap),
            modu: Modulator::new(),
            rng: TapeRng::from_seed(seed),
        };
        proof {
            assert(r.left.delay.view_seq() =~= Seq::new((sr as int / 10) as nat, |k: int| 0i64));
            assert(r.left.dry.view_seq() =~= Seq::new((sr as int / 10) as nat, |k: int| 0i64));
            assert(r.right.delay.view_seq() =~= Seq::new((sr as int / 10) as nat, |k: int| 0i64));
            assert(r.right.dry.view_seq() =~= Seq::new((sr as int / 10) as nat, |k: int| 0i64));
            assert(r.model() =~= fresh_model_spec(sr as int, seed));
        }
        r
    }

    /// The fixed latency the wet path introduces, in samples: the center
    /// tap of the delay line. Constant for the engine's whole life.
    pub fn latency(&self) -> (r: usize)
        requires
            self.wf(),
        ensures
            r == self.left.delay.cap_spec() / 2,
    {
        self.left.delay.capacity() / 2
    }

    /// Process one stereo sample: draw the nine variates in the documented
    /// order, advance the shared modulator, then run both channel
    /// pipelines on the same speed factor.
    pub fn process_sample(&mut self, xl: i64, xr: i64, p: &Params) -> (r: (i64, i64))
        requires
            old(self).wf(),
            audio_ok(xl),
            audio_ok(xr),
            p.wf(),
        ensures
            final(self).wf(),
            final(self).sr == old(self).sr,
            final(self).left.delay.cap_spec() == old(self).left.delay.cap_spec(),
            final(self).right.delay.cap_spec() == old(self).right.delay.cap_spec(),
            final(self).model() == sample_step_m(old(self).model(), xl as int, xr as int, *p).0,
            r.0 == sample_step_m(old(self).model(), xl as int, xr as int, *p).1,
            r.1 == sample_step_m(old(self).model(), xl as int, xr as int, *p).2,
            fp_ok(r.0),
            fp_ok(r.1),
            (p.is_neutral() && old(self).left.zero_audio() && old(self).right.zero_audio() && xl
                == 0 && xr == 0) ==> (r.0 == 0 && r.1 == 0 && final(self).left.zero_audio()
                && final(self).right.zero_audio()),
    {
        let ghost r0: TapeRng = self.rng;
        let qd_l: i64 = self.rng.next_unit();
        let qd_r: i64 = self.rng.next_unit();
        let rd_l: i64 = self.rng.next_unit();
        let rd_r: i64 = self.rng.next_unit();
        let fd: i64 = self.rng.next_unit();
        let pd_l: i64 = self.rng.next_unit();
        let pd_r: i64 = self.rng.next_unit();
        let gd_l: i64 = self.rng.next_unit();
        let gd_r: i64 = self.rng.next_unit();
        proof {
            assert(rng_after(r0, 1) == rng_step_spec(rng_after(r0, 0)));
            assert(rng_after(r0, 2) == rng_step_spec(rng_after(r0, 1)));
            assert(rng_after(r0, 3) == rng_step_spec(rng_after(r0, 2)));
            assert(rng_after(r0, 4) == rng_step_spec(rng_after(r0, 3)));
            assert(rng_after(r0, 5) == rng_step_spec(rng_after(r0, 4)));
            assert(rng_after(r0, 6) == rng_step_spec(rng_after(r0, 5)));
            assert(rng_after(r0, 7) == rng_step_spec(rng_after(r0, 6)));
            assert(rng_after(r0, 8) == rng_step_spec(rng_after(r0, 7)));
            assert(rng_after(r0, 9) == rng_step_spec(rng_after(r0, 8)));
            assert(qd_l as int == draw_of(r0, 0));
            assert(qd_r as int == draw_of(r0, 1));
            assert(rd_l as int == draw_of(r0, 2));
            assert(rd_r as int == draw_of(r0, 3));
            assert(fd as int == draw_of(r0, 4));
            assert(pd_l as int == draw_of(r0, 5));
            assert(pd_r as int == draw_of(r0, 6));
            assert(gd_l as int == draw_of(r0, 7));
            assert(gd_r as int == draw_of(r0, 8));
        }
        let fnoise: i64 = 2 * fd - FP_ONE;
        let mf: i64 = self.modu.step(fnoise, p.wow, p.flutter, self.sr);
        let out_l: i64 = self.left.step(xl, mf, p, self.sr, qd_l, rd_l, pd_l, gd_l);
        let out_r: i64 = self.right.step(xr, mf, p, self.sr, qd_r, rd_r, pd_r, gd_r);
        proof {
            assert(self.model() =~= sample_step_m(old(self).model(), xl as int, xr as int, *p).0);
        }
        (out_l, out_r)
    }
}

} // verus!

verus! {

use crate::filters::Lp2;

/// The image of a channel at rest with a given delay capacity.
pub open spec fn fresh_ch_model(cap: int) -> ChModel {
    ChModel {
        hyst_in_p: 0,
        hyst_mem: 0,
        quant_p: 0,
        erase_p: 0,
        tone_p: 0,
        rec_np: 0,
        play_np: 0,
        dc: 0,
        delay: Seq::new(cap as nat, |k: int| 0i64),
        dry: Seq::new(cap as nat, |k: int| 0i64),
    }
}

/// The image a freshly built engine presents: a pure function of the
/// sampling rate and the seed alone.
pub open spec fn fresh_model_spec(sr: int, seed: u64) -> EngModel {
    EngModel {
        sr,
        left: fresh_ch_model(sr / 10),
        right: fresh_ch_model(sr / 10),
        modu: Modulator {
            ph_master: 0,
            ph_a: 0,
            ph_b: 0,
            lp: Lp2 { z1: 0, z2: 0 },
            hp_x: 0,
            hp_y: 0,
            hp2_x: 0,
            hp2_y: 0,
        },
        rng: rng_seeded_spec(seed),
    }
}

impl Engine {
    /// Process one block: every sample through `process_sample`, in order.
    /// The whole block — outputs and final state — is the pure function
    /// `run_m` of the starting model, the inputs and the snapshot; and a
    /// silent block through a resting engine under neutral parameters
    /// comes out exactly silent.
    #[verifier::rlimit(100)]
    #[verifier::spinoff_prover]
    pub fn process_block(&mut self, in_l: &Vec<i64>, in_r: &Vec<i64>, p: &Params) -> (r: (
        Vec<i64>,
        Vec<i64>,
    ))
        requires
            old(self).wf(),
            in_l.len() == in_r.len(),
            forall|i: int| 0 <= i < in_l.len() ==> audio_ok(#[trigger] in_l[i]),
            forall|i: int| 0 <= i < in_r.len() ==> audio_ok(#[trigger] in_r[i]),
            p.wf(),
        ensures
            final(self).wf(),
            final(self).sr == old(self).sr,
            r.0.len() == in_l.len(),
            r.1.len() == in_l.len(),
            final(self).model() == run_m(
                old(self).model(),
                in_l@,
                in_r@,
                *p,
                in_l.len() as nat,
            ),
            forall|i: int|
                0 <= i < in_l.len() ==> #[trigger] r.0[i] as int == run_out_l(
                    old(self).model(),
                    in_l@,
                    in_r@,
                    *p,
                    i as nat,
                ),
            forall|i: int|
                0 <= i < in_l.len() ==> #[trigger] r.1[i] as int == run_out_r(
                    old(self).model(),
                    in_l@,
                    in_r@,
                    *p,
                    i as nat,
                ),
            forall|i: int| 0 <= i < in_l.len() ==> fp_ok(#[trigger] r.0[i]) && fp_ok(
                #[trigger] r.1[i],
            ),
            (p.is_neutral() && old(self).left.zero_audio() && old(self).right.zero_audio()
                && (forall|i: int|
                0 <= i < in_l.len() ==> in_l[i] == 0 && in_r[i] == 0)) ==> (forall|i: int|
                0 <= i < in_l.len() ==> r.0[i] == 0 && r.1[i] == 0),
    {
        let ghost m0: EngModel = old(self).model();
        let ghost silent: bool = p.is_neutral() && old(self).left.zero_audio() && old(
            self,
        ).right.zero_audio() && (forall|i: int|
            0 <= i < in_l.len() ==> in_l[i] == 0 && in_r[i] == 0);
        let n: usize = in_l.len();
        let mut out_l: Vec<i64> = Vec::new();
        let mut out_r: Vec<i64> = Vec::new();
        let mut i: usize = 0;
        while i < n
            invariant
                i <= n,
                n == in_l.len(),
                n == in_r.len(),
                forall|j: int| 0 <= j < in_l.len() ==> audio_ok(#[trigger] in_l[j]),
                forall|j: int| 0 <= j < in_r.len() ==> audio_ok(#[trigger] in_r[j]),
                p.wf(),
                self.wf(),
                self.sr == old(self).sr,
                out_l.len() == i,
                out_r.len() == i,
                m0 == old(self).model(),
                self.model() == run_m(m0, in_l@, in_r@, *p, i as nat),
                forall|j: int|
                    0 <= j < i ==> #[trigger] out_l[j] as int == run_out_l(
                        m0,
                        in_l@,
                        in_r@,
                        *p,
                        j as nat,
                    ),
                forall|j: int|
                    0 <= j < i ==> #[trigger] out_r[j] as int == run_out_r(
                        m0,
                        in_l@,
                        in_r@,
                        *p,
                        j as nat,
                    ),
                forall|j: int| 0 <= j < i ==> fp_ok(#[trigger] out_l[j]) && fp_ok(
                    #[trigger] out_r[j],
                ),
                silent == (p.is_neutral() && old(self).left.zero_audio() && old(
                    self,
                ).right.zero_audio() && (forall|j: int|
                    0 <= j < in_l.len() ==> in_l[j] == 0 && in_r[j] == 0)),
                silent ==> self.left.zero_audio() && self.right.zero_audio() && (forall|j: int|
                    0 <= j < i ==> out_l[j] == 0 && out_r[j] == 0),
            decreases n - i,
        {
            let o: (i64, i64) = self.process_sample(in_l[i], in_r[i], p);
            proof {
                assert(run_m(m0, in_l@, in_r@, *p, (i + 1) as nat) == sample_step_m(
                    run_m(m0, in_l@, in_r@, *p, i as nat),
                    in_l@[i as int] as int,
                    in_r@[i as int] as int,
                    *p,
                ).0);
            }
            out_l.push(o.0);
            out_r.push(o.1);
            i = i + 1;
        }
        (out_l, out_r)
    }
}

/// Determinism of the whole pipeline: two engines with equal images —
/// for example, two engines built with the same sampling rate and the
/// same fixed seed — given the same inputs and the same snapshot produce
/// identical output streams and identical final states, sample by sample
/// and bit for bit.
pub proof fn lemma_engine_deterministic(
    m1: EngModel,
    m2: EngModel,
    l: Seq<i64>,
    r: Seq<i64>,
    p: Params,
    n: nat,
)
    requires
        m1 == m2,
    ensures
        run_m(m1, l, r, p, n) == run_m(m2, l, r, p, n),
        forall|i: nat|
            i < n ==> #[trigger] run_out_l(m1, l, r, p, i) == run_out_l(m2, l, r, p, i),
        forall|i: nat|
            i < n ==> #[trigger] run_out_r(m1, l, r, p, i) == run_out_r(m2, l, r, p, i),
{
}

} // verus!
