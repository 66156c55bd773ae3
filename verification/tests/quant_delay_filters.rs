//! The stochastic quantizer, the delay line, and the filter stages.

use tape_engine::FP_ONE;
use tape_engine::compute::x_quant;
use tape_engine::compute::x_quant_pick;
use tape_engine::delay::DelayLine;
use tape_engine::filters::DcBlock;
use tape_engine::filters::Lp2;
use tape_engine::filters::one_pole_hp;
use tape_engine::rng::TapeRng;

#[test]
fn quantizer_amount_zero_is_identity() {
    let mut rng = TapeRng::from_seed(11);
    for x in [0i64, 5, -5, 65536, -65536, 30000] {
        assert_eq!(x_quant(x, -1234, 44100, 0, &mut rng), x);
    }
}

#[test]
fn quantizer_amount_one_holds() {
    let mut rng = TapeRng::from_seed(11);
    for x in [0i64, 5, -5, 65536, -65536, 30000] {
        assert_eq!(x_quant(x, -1234, 44100, FP_ONE, &mut rng), -1234);
    }
}

#[test]
fn quantizer_draws_exactly_one_variate() {
    let mut a = TapeRng::from_seed(3);
    let mut b = TapeRng::from_seed(3);
    x_quant(100, 0, 44100, 32768, &mut a);
    b.next_u64();
    assert_eq!(a, b);
}

#[test]
fn quantizer_fast_slopes_always_switch() {
    // a full-scale step gives a clamped, huge derivative: the threshold
    // saturates above every possible draw
    let mut rng = TapeRng::from_seed(17);
    for _ in 0..200 {
        let r = x_quant(65536, -65536, 44100, 16384, &mut rng);
        assert_eq!(r, 65536);
    }
}

#[test]
fn quantizer_pick_is_pure() {
    let a = x_quant_pick(300, 200, 44100, 40000, 12345);
    let b = x_quant_pick(300, 200, 44100, 40000, 12345);
    assert_eq!(a, b);
}

#[test]
fn delay_round_trip_at_integer_tap() {
    let mut d = DelayLine::new(16);
    for i in 0..16i64 {
        d.push(i * 1000);
    }
    // the sample pushed k steps ago comes back unmodified
    for k in 0..16usize {
        assert_eq!(d.read_at(k), (15 - k as i64) * 1000);
    }
}

#[test]
fn delay_keeps_population_through_wraparound() {
    let mut d = DelayLine::new(4);
    for i in 0..1000i64 {
        d.push(i);
    }
    assert_eq!(d.read_at(0), 999);
    assert_eq!(d.read_at(1), 998);
    assert_eq!(d.read_at(2), 997);
    assert_eq!(d.read_at(3), 996);
}

#[test]
fn fractional_read_is_linear_interpolation() {
    let mut d = DelayLine::new(8);
    for _ in 0..8 {
        d.push(0);
    }
    d.push(100);
    d.push(200);
    // ages: at(0) == 200, at(1) == 100
    assert_eq!(d.read_frac(0, 0), 200);
    assert_eq!(d.read_frac(0, 32768), 150);
    assert_eq!(d.read_frac(0, 16384), 175);
    // (1 - f) * a + f * b at f = 1/4 exactly
    assert_eq!(d.read_frac(0, 49152), 125);
}

#[test]
fn fractional_read_zero_remainder_is_the_tap() {
    let mut d = DelayLine::new(8);
    for i in 0..8i64 {
        d.push(i * 31);
    }
    for k in 0..7usize {
        assert_eq!(d.read_frac(k, 0), d.read_at(k));
    }
}

#[test]
fn dc_block_converges_on_constant_input() {
    let mut dc = DcBlock::new();
    let mut out: i64 = 0;
    let mut prev = i64::MAX;
    for _ in 0..200 {
        out = dc.step(10000);
        assert!(out.abs() <= prev);
        prev = out.abs();
    }
    // rests within three least-significant bits of zero
    assert!(out.abs() <= 3, "dc residual {out}");
}

#[test]
fn dc_block_first_sample_passes() {
    let mut dc = DcBlock::new();
    assert_eq!(dc.step(4096), 4096);
}

#[test]
fn dc_block_geometric_envelope() {
    // 4 |e'| <= 3 |e| + 3 every step
    let mut dc = DcBlock::new();
    let mut prev: i64 = dc.step(50000);
    for _ in 0..100 {
        let e = dc.step(50000);
        assert!(4 * e.abs() <= 3 * prev.abs() + 3);
        prev = e;
    }
}

#[test]
fn dc_block_zero_stays_zero() {
    let mut dc = DcBlock::new();
    for _ in 0..50 {
        assert_eq!(dc.step(0), 0);
    }
}

#[test]
fn lp2_is_two_cascaded_poles() {
    let mut f = Lp2::new();
    // cut == 0 passes through both stages unchanged
    assert_eq!(f.step(5000, 0), 5000);
    // cut == FP_ONE holds both cells at their previous values
    assert_eq!(f.step(-9999, FP_ONE), 5000);
}

#[test]
fn one_pole_hp_exact() {
    // k * (y_p + x - x_p) with k == 1/2
    assert_eq!(one_pole_hp(1000, 400, 200, 32768), (200 + 1000 - 400) / 2);
    // k == 0 grounds the output
    assert_eq!(one_pole_hp(1000, 400, 200, 0), 0);
}
