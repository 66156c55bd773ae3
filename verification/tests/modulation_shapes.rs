//! The phase accumulators and the parabolic sine.

use tape_engine::FP_ONE;
use tape_engine::modulation::PI_FP;
use tape_engine::modulation::TWO_PI_FP;
use tape_engine::modulation::phase_adv;
use tape_engine::modulation::phase_step;
use tape_engine::modulation::sin_fp;

#[test]
fn sine_fixes_zero() {
    assert_eq!(sin_fp(0), 0);
}

#[test]
fn sine_bounded_by_one() {
    let mut ph: i64 = 0;
    while ph < TWO_PI_FP {
        let s = sin_fp(ph);
        assert!(s.abs() <= FP_ONE, "sine left the unit range at {ph}: {s}");
        ph += 97;
    }
}

#[test]
fn sine_peaks_near_quarter_turn() {
    let s = sin_fp(PI_FP / 2);
    assert!(s > 65000, "quarter-turn sine too small: {s}");
}

#[test]
fn sine_second_half_is_negated_first_half() {
    let mut u: i64 = 0;
    while u < PI_FP {
        assert_eq!(sin_fp(PI_FP + u), -sin_fp(u));
        u += 1013;
    }
}

#[test]
fn phase_wraps_to_zero() {
    assert_eq!(phase_adv(TWO_PI_FP - 1, 1), 0);
    assert_eq!(phase_adv(TWO_PI_FP - 1, 5000), 0);
    assert_eq!(phase_adv(100, 50), 150);
}

#[test]
fn phase_step_scales_with_rate() {
    // 1 Hz at 44100 Hz: 2*pi/44100 in fixed point, truncated
    assert_eq!(phase_step(FP_ONE, 44100), TWO_PI_FP / 44100);
    assert_eq!(phase_step(0, 44100), 0);
}
