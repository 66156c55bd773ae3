//! The wow/flutter modulator: three phase accumulators and the
//! flutter-noise shaping cascade, producing the delay-read speed factor.
//!
//! Each phase lives in `[0, TWO_PI_FP)`; on overflow it resets to zero (an
//! intentional discontinuity, rare relative to one block). The master
//! oscillator's sine cross-fades the two secondary oscillators' rates so no
//! audible periodicity appears; filtered noise, cubed to sharpen its
//! envelope, adds the flutter part. The returned factor always stays in
//! `[1/2, 3/2]`, so a delay read at half the line's capacity stays inside
//! the line.

use vstd::prelude::*;

use crate::filters::Lp2;
use crate::filters::lp2_step_spec;
use crate::filters::one_pole_hp;
use crate::filters::one_pole_hp_spec;
use crate::fixed::FP_ONE;
use crate::fixed::fp_add;
use crate::fixed::fp_add_spec;
use crate::fixed::fp_div;
use crate::fixed::fp_div_spec;
use crate::fixed::fp_divi;
use crate::fixed::fp_divi_spec;
use crate::fixed::fp_mul;
use crate::fixed::fp_mul_spec;
use crate::fixed::fp_ok;
use crate::fixed::lemma_fp_mul_contracts;
use crate::fixed::lemma_fp_mul_zero;
use crate::compute::SR_MAX;
use crate::compute::lemma_fp_mul_nonneg;

verus! {

/// Two pi in Q47.16.
pub const TWO_PI_FP: i64 = 411775;

/// Pi in Q47.16.
pub const PI_FP: i64 = 205887;

/// `floor(PI_FP * PI_FP / FP_ONE)`: pi squared in Q47.16.
pub const PISQ_FP: i64 = 646811;

/// Four in Q47.16.
pub const FOUR_FP: i64 = 262144;

/// A phase confined to one turn.
pub open spec fn phase_ok(ph: i64) -> bool {
    0 <= ph < TWO_PI_FP
}

/// One accumulator step: add, and reset to zero past a full turn.
pub open spec fn phase_adv_spec(ph: int, step: int) -> int {
    if ph + step >= TWO_PI_FP {
        0
    } else {
        ph + step
    }
}

/// Advance a phase accumulator; the result stays inside one turn.
pub fn phase_adv(ph: i64, step: i64) -> (r: i64)
    requires
        phase_ok(ph),
        0 <= step < TWO_PI_FP,
    ensures
        r == phase_adv_spec(ph as int, step as int),
        phase_ok(r),
{
    let s: i64 = ph + step;
    if s >= TWO_PI_FP {
        0
    } else {
        s
    }
}

/// The per-sample phase step `2*pi*rate/sr`, capped below one turn.
pub open spec fn phase_step_spec(rate: int, sr: int) -> int {
    let raw = fp_divi_spec(fp_mul_spec(TWO_PI_FP as int, rate), sr);
    if raw >= TWO_PI_FP {
        (TWO_PI_FP - 1) as int
    } else {
        raw
    }
}

/// Compute the per-sample step of an oscillator of `rate` hertz.
pub fn phase_step(rate: i64, sr: i64) -> (r: i64)
    requires
        0 <= rate <= FP_ONE * 8,
        1 <= sr <= SR_MAX,
    ensures
        r == phase_step_spec(rate as int, sr as int),
        0 <= r < TWO_PI_FP,
{
    proof {
        lemma_fp_mul_nonneg(TWO_PI_FP as int, rate as int);
    }
    let m: i64 = fp_mul(TWO_PI_FP, rate);
    let raw: i64 = fp_divi(m, sr as u64);
    if raw >= TWO_PI_FP {
        TWO_PI_FP - 1
    } else {
        raw
    }
}

/// The parabolic half-wave: `4 u (pi - u) / pi^2`, capped at one.
pub open spec fn sin_para_spec(u: int) -> int {
    let t = fp_mul_spec(u, PI_FP - u);
    let v = fp_div_spec(fp_mul_spec(t, FOUR_FP as int), PISQ_FP as int);
    if v > FP_ONE {
        FP_ONE as int
    } else if v < -FP_ONE {
        -FP_ONE as int
    } else {
        v
    }
}

/// The parabolic sine approximation over one turn: odd half-waves, bounded
/// by one, zero at phase zero.
pub open spec fn sin_fp_spec(ph: int) -> int {
    if ph < PI_FP {
        sin_para_spec(ph)
    } else {
        -sin_para_spec(ph - PI_FP)
    }
}

/// The parabolic sine of a phase in `[0, TWO_PI_FP)`.
pub fn sin_fp(ph: i64) -> (r: i64)
    requires
        phase_ok(ph),
    ensures
        r == sin_fp_spec(ph as int),
        -FP_ONE <= r <= FP_ONE,
        ph == 0 ==> r == 0,
{
    let u: i64 = if ph < PI_FP {
        ph
    } else {
        ph - PI_FP
    };
    let t: i64 = fp_mul(u, PI_FP - u);
    let v: i64 = fp_div(fp_mul(t, FOUR_FP), PISQ_FP);
    let c: i64 = if v > FP_ONE {
        FP_ONE
    } else if v < -FP_ONE {
        -FP_ONE
    } else {
        v
    };
    proof {
        if ph == 0 {
            lemma_fp_mul_zero(PI_FP as int);
            lemma_fp_mul_zero(FOUR_FP as int);
            vstd::arithmetic::div_mod::lemma_div_of0(PISQ_FP as int);
        }
    }
    if ph < PI_FP {
        c
    } else {
        -c
    }
}

// === the modulator ==========================================================

/// Master oscillator rate: 0.05 Hz.
pub const WOW_MASTER_RATE: i64 = 3277;

/// Upper rate of the first secondary oscillator: 0.9 Hz.
pub const WOW_A_MAX: i64 = 58982;

/// Lower rate of the second secondary oscillator: 0.35 Hz.
pub const WOW_B_MIN: i64 = 22938;

/// Sweep span of the second secondary oscillator: 1.0 Hz.
pub const WOW_B_SPAN: i64 = 65536;

/// Weight of the parallel high-passed noise branch (deliberately small:
/// the low branch dominates).
pub const FLUTTER_HI_WEIGHT: i64 = 655;

/// Largest deviation of the speed factor from one: one half.
pub const MOD_DEV_MAX: i64 = 32768;

/// The modulation state: three phase accumulators and the flutter filter
/// cells, shared by both channels to keep the stereo image coherent.
pub struct Modulator {
    pub ph_master: i64,
    pub ph_a: i64,
    pub ph_b: i64,
    pub lp: Lp2,
    pub hp_x: i64,
    pub hp_y: i64,
    pub hp2_x: i64,
    pub hp2_y: i64,
}

impl Modulator {
    pub open spec fn wf(self) -> bool {
        &&& phase_ok(self.ph_master)
        &&& phase_ok(self.ph_a)
        &&& phase_ok(self.ph_b)
        &&& self.lp.wf()
        &&& fp_ok(self.hp_x)
        &&& fp_ok(self.hp_y)
        &&& fp_ok(self.hp2_x)
        &&& fp_ok(self.hp2_y)
    }

    /// Everything zeroed.
    pub open spec fn is_zero(self) -> bool {
        &&& self.ph_master == 0
        &&& self.ph_a == 0
        &&& self.ph_b == 0
        &&& self.lp.z1 == 0
        &&& self.lp.z2 == 0
        &&& self.hp_x == 0
        &&& self.hp_y == 0
        &&& self.hp2_x == 0
        &&& self.hp2_y == 0
    }

    /// A modulator at rest.
    pub fn new() -> (r: Modulator)
        ensures
            r.wf(),
            r.is_zero(),
    {
        Modulator {
            ph_master: 0,
            ph_a: 0,
            ph_b: 0,
            lp: Lp2::new(),
            hp_x: 0,
            hp_y: 0,
            hp2_x: 0,
            hp2_y: 0,
        }
    }

    /// Advance the oscillators and the flutter filters by one sample and
    /// return the delay-speed factor, nominally one. With both amounts at
    /// zero the factor is exactly one, whatever the noise drawn.
    pub fn step(&mut self, noise: i64, wow_amt: i64, flutter_amt: i64, sr: i64) -> (r: i64)
        requires
            old(self).wf(),
            -FP_ONE <= noise <= FP_ONE,
            0 <= wow_amt <= FP_ONE,
            0 <= flutter_amt <= FP_ONE,
            1000 <= sr <= SR_MAX,
        ensures
            final(self).wf(),
            *final(self) == mod_next_spec(*old(self), noise as int, sr as int),
            r == mod_out_spec(
                *old(self),
                noise as int,
                sr as int,
                wow_amt as int,
                flutter_amt as int,
            ),
            FP_ONE - MOD_DEV_MAX <= r <= FP_ONE + MOD_DEV_MAX,
            wow_amt == 0 && flutter_amt == 0 ==> r == FP_ONE,
    {
        // wow: master phase cross-fades the two secondary rates
        let ph_m2: i64 = phase_adv(self.ph_master, phase_step(WOW_MASTER_RATE, sr));
        let sm: i64 = sin_fp(ph_m2);
        let m01: i64 = (((FP_ONE + sm) as u64) / 2) as i64;
        proof {
            lemma_fp_mul_nonneg(m01 as int, WOW_A_MAX as int);
            crate::compute::lemma_fp_mul_comm(m01 as int, WOW_A_MAX as int);
            lemma_fp_mul_contracts(WOW_A_MAX as int, m01 as int);
            lemma_fp_mul_nonneg((FP_ONE - m01) as int, WOW_B_SPAN as int);
            crate::compute::lemma_fp_mul_comm((FP_ONE - m01) as int, WOW_B_SPAN as int);
            lemma_fp_mul_contracts(WOW_B_SPAN as int, (FP_ONE - m01) as int);
        }
        let fa: i64 = fp_mul(m01, WOW_A_MAX);
        let fb: i64 = fp_add(WOW_B_MIN, fp_mul(FP_ONE - m01, WOW_B_SPAN));
        let ph_a2: i64 = phase_adv(self.ph_a, phase_step(fa, sr));
        let ph_b2: i64 = phase_adv(self.ph_b, phase_step(fb, sr));
        let sa: i64 = sin_fp(ph_a2);
        let sb: i64 = sin_fp(ph_b2);
        let wow: i64 = fp_divi(fp_add(sa, sb), 2);
        // flutter: noise through the low branch, plus a lightly weighted
        // high branch, then cubed to sharpen the envelope
        let lp_cut: i64 = iir_coeff(FLUTTER_LP_FREQ, sr);
        let f1: i64 = self.lp.step(noise, lp_cut);
        let hp_k: i64 = iir_coeff(FLUTTER_HP_FREQ, sr);
        let f2: i64 = one_pole_hp(f1, self.hp_x, self.hp_y, hp_k);
        self.hp_x = f1;
        self.hp_y = f2;
        let hp2_k: i64 = iir_coeff(FLUTTER_HP2_FREQ, sr);
        let h2: i64 = one_pole_hp(noise, self.hp2_x, self.hp2_y, hp2_k);
        self.hp2_x = noise;
        self.hp2_y = h2;
        proof {
            crate::compute::lemma_fp_mul_comm(FLUTTER_HI_WEIGHT as int, h2 as int);
            lemma_fp_mul_contracts(h2 as int, FLUTTER_HI_WEIGHT as int);
        }
        let comb: i64 = fp_add(f2, fp_mul(FLUTTER_HI_WEIGHT, h2));
        let cl: i64 = if comb > FP_ONE {
            FP_ONE
        } else if comb < -FP_ONE {
            -FP_ONE
        } else {
            comb
        };
        proof {
            lemma_fp_mul_contracts(cl as int, cl as int);
            lemma_fp_mul_contracts(fp_mul_spec(cl as int, cl as int), cl as int);
        }
        let cu: i64 = fp_mul(fp_mul(cl, cl), cl);
        proof {
            lemma_fp_mul_contracts(wow as int, wow_amt as int);
            lemma_fp_mul_contracts(cu as int, flutter_amt as int);
            if wow_amt == 0 && flutter_amt == 0 {
                lemma_fp_mul_zero(wow as int);
                lemma_fp_mul_zero(cu as int);
            }
        }
        let dev: i64 = fp_add(fp_mul(wow, wow_amt), fp_mul(cu, flutter_amt));
        let devc: i64 = if dev > MOD_DEV_MAX {
            MOD_DEV_MAX
        } else if dev < -MOD_DEV_MAX {
            -MOD_DEV_MAX
        } else {
            dev
        };
        self.ph_master = ph_m2;
        self.ph_a = ph_a2;
        self.ph_b = ph_b2;
        FP_ONE + devc
    }
}

/// Flutter low-branch low-pass corner: 15 Hz.
pub const FLUTTER_LP_FREQ: i64 = 983040;

/// Flutter low-branch high-pass corner: 2.5 Hz.
pub const FLUTTER_HP_FREQ: i64 = 163840;

/// Flutter high-branch high-pass corner: 500 Hz.
pub const FLUTTER_HP2_FREQ: i64 = 32768000;

/// First-order coefficient of a one-pole stage at `freq` hertz:
/// `1 - 2*pi*freq/sr`, floored at zero — the linearization of
/// `exp(-2*pi*freq/sr)`.
pub open spec fn iir_coeff_spec(freq: int, sr: int) -> int {
    let raw = fp_divi_spec(fp_mul_spec(TWO_PI_FP as int, freq), sr);
    if raw > FP_ONE {
        0
    } else {
        FP_ONE - raw
    }
}

/// Compute a one-pole coefficient from a corner frequency.
pub fn iir_coeff(freq: i64, sr: i64) -> (r: i64)
    requires
        0 <= freq <= 33000000,
        1 <= sr <= SR_MAX,
    ensures
        r == iir_coeff_spec(freq as int, sr as int),
        0 <= r <= FP_ONE,
{
    proof {
        lemma_fp_mul_nonneg(TWO_PI_FP as int, freq as int);
    }
    let m: i64 = fp_mul(TWO_PI_FP, freq);
    let raw: i64 = fp_divi(m, sr as u64);
    if raw > FP_ONE {
        0
    } else {
        FP_ONE - raw
    }
}

/// The modulator state one step later: phases advanced, filters fed.
pub open spec fn mod_next_spec(m: Modulator, noise: int, sr: int) -> Modulator {
    let ph_m2 = phase_adv_spec(m.ph_master as int, phase_step_spec(WOW_MASTER_RATE as int, sr));
    let sm = sin_fp_spec(ph_m2);
    let m01 = (FP_ONE + sm) / 2;
    let fa = fp_mul_spec(m01, WOW_A_MAX as int);
    let fb = fp_add_spec(WOW_B_MIN as int, fp_mul_spec(FP_ONE - m01, WOW_B_SPAN as int));
    let ph_a2 = phase_adv_spec(m.ph_a as int, phase_step_spec(fa, sr));
    let ph_b2 = phase_adv_spec(m.ph_b as int, phase_step_spec(fb, sr));
    let lp_cut = iir_coeff_spec(FLUTTER_LP_FREQ as int, sr);
    let lp2 = lp2_step_spec(m.lp.z1 as int, m.lp.z2 as int, noise, lp_cut);
    let hp_k = iir_coeff_spec(FLUTTER_HP_FREQ as int, sr);
    let f2 = one_pole_hp_spec(lp2.1, m.hp_x as int, m.hp_y as int, hp_k);
    let hp2_k = iir_coeff_spec(FLUTTER_HP2_FREQ as int, sr);
    let h2 = one_pole_hp_spec(noise, m.hp2_x as int, m.hp2_y as int, hp2_k);
    Modulator {
        ph_master: ph_m2 as i64,
        ph_a: ph_a2 as i64,
        ph_b: ph_b2 as i64,
        lp: Lp2 { z1: lp2.0 as i64, z2: lp2.1 as i64 },
        hp_x: lp2.1 as i64,
        hp_y: f2 as i64,
        hp2_x: noise as i64,
        hp2_y: h2 as i64,
    }
}

/// The speed factor one step produces: one plus the bounded wow and
/// flutter deviation.
pub open spec fn mod_out_spec(m: Modulator, noise: int, sr: int, wow_amt: int, flutter_amt: int) -> int {
    let ph_m2 = phase_adv_spec(m.ph_master as int, phase_step_spec(WOW_MASTER_RATE as int, sr));
    let sm = sin_fp_spec(ph_m2);
    let m01 = (FP_ONE + sm) / 2;
    let fa = fp_mul_spec(m01, WOW_A_MAX as int);
    let fb = fp_add_spec(WOW_B_MIN as int, fp_mul_spec(FP_ONE - m01, WOW_B_SPAN as int));
    let ph_a2 = phase_adv_spec(m.ph_a as int, phase_step_spec(fa, sr));
    let ph_b2 = phase_adv_spec(m.ph_b as int, phase_step_spec(fb, sr));
    let sa = sin_fp_spec(ph_a2);
    let sb = sin_fp_spec(ph_b2);
    let wow = fp_divi_spec(fp_add_spec(sa, sb), 2);
    let lp_cut = iir_coeff_spec(FLUTTER_LP_FREQ as int, sr);
    let lp2 = lp2_step_spec(m.lp.z1 as int, m.lp.z2 as int, noise, lp_cut);
    let hp_k = iir_coeff_spec(FLUTTER_HP_FREQ as int, sr);
    let f2 = one_pole_hp_spec(lp2.1, m.hp_x as int, m.hp_y as int, hp_k);
    let hp2_k = iir_coeff_spec(FLUTTER_HP2_FREQ as int, sr);
    let h2 = one_pole_hp_spec(noise, m.hp2_x as int, m.hp2_y as int, hp2_k);
    let comb = fp_add_spec(f2, fp_mul_spec(FLUTTER_HI_WEIGHT as int, h2));
    let cl = if comb > FP_ONE {
        FP_ONE as int
    } else if comb < -FP_ONE {
        -FP_ONE as int
    } else {
        comb
    };
    let cu = fp_mul_spec(fp_mul_spec(cl, cl), cl);
    let dev = fp_add_spec(fp_mul_spec(wow, wow_amt), fp_mul_spec(cu, flutter_amt));
    let devc = if dev > MOD_DEV_MAX {
        MOD_DEV_MAX as int
    } else if dev < -MOD_DEV_MAX {
        -MOD_DEV_MAX as int
    } else {
        dev
    };
    FP_ONE + devc
}

} // verus!
