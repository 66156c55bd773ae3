//! The transfer-function library: fixed zero, boundedness, monotonicity,
//! odd symmetry, and the exact identity cases.

use tape_engine::FP_ONE;
use tape_engine::compute::analog_xover;
use tape_engine::compute::diff;
use tape_engine::compute::digital_xover;
use tape_engine::compute::mag_sat_1;
use tape_engine::compute::mag_sat_2;
use tape_engine::compute::mag_sat_3;
use tape_engine::compute::mag_sat_4;
use tape_engine::compute::mag_sat_5;
use tape_engine::compute::play;
use tape_engine::compute::sat_core;
use tape_engine::compute::tube_bias;

fn curves() -> [fn(i64) -> i64; 5] {
    [mag_sat_1, mag_sat_2, mag_sat_3, mag_sat_4, mag_sat_5]
}

#[test]
fn saturation_fixes_zero() {
    for f in curves() {
        assert_eq!(f(0), 0);
    }
    assert_eq!(sat_core(0), 0);
}

#[test]
fn saturation_bounded_on_declared_domain() {
    // |x| <= 10.0 in fixed point, and well beyond
    for f in curves() {
        let mut x: i64 = -2 * 655360;
        while x <= 2 * 655360 {
            let y = f(x);
            assert!(y.abs() <= FP_ONE, "curve left the unit range at {x}: {y}");
            x += 4096;
        }
    }
}

#[test]
fn saturation_non_decreasing() {
    for f in curves() {
        let mut prev = f(-655360);
        let mut x: i64 = -655360 + 1024;
        while x <= 655360 {
            let y = f(x);
            assert!(y >= prev, "curve decreased at {x}");
            prev = y;
            x += 1024;
        }
    }
}

#[test]
fn saturation_odd() {
    for f in curves() {
        for x in [1i64, 100, 4096, 65536, 400000] {
            assert_eq!(f(-x), -f(x));
        }
    }
}

#[test]
fn sat_core_half() {
    // 1.0 maps to 1/2: x / (1 + |x|) at x == 1
    assert_eq!(sat_core(65536), 32768);
    assert_eq!(sat_core(-65536), -32768);
}

#[test]
fn tube_bias_zero_bias_is_identity() {
    for x in [0i64, 1, -1, 12345, -54321, 65536, -65536, 1000000] {
        assert_eq!(tube_bias(x, 0), x);
    }
}

#[test]
fn tube_bias_fixes_zero() {
    for b in [-65536i64, -32768, 0, 32768, 65536] {
        assert_eq!(tube_bias(0, b), 0);
    }
}

#[test]
fn digital_xover_zero_amount_is_identity() {
    for x in [0i64, 77, -1000, 65536, -65536] {
        assert_eq!(digital_xover(x, 0, 32768), x);
    }
}

#[test]
fn digital_xover_exact_value() {
    // above the window: subtract amt * w exactly
    assert_eq!(digital_xover(32768, 65536, 16384), 32768 - 16384);
    // inside the window: subtract amt * x
    assert_eq!(digital_xover(8192, 32768, 16384), 8192 - 4096);
    // symmetric below
    assert_eq!(digital_xover(-32768, 65536, 16384), -32768 + 16384);
}

#[test]
fn analog_xover_zero_amount_is_identity() {
    for x in [0i64, 77, -1000, 65536, -65536] {
        assert_eq!(analog_xover(x, 0, 32768), x);
    }
}

#[test]
fn analog_xover_fixes_zero() {
    // silence stays silence at every width and amount, including widths
    // whose square is not representable in Q47.16
    for w in [0i64, 1, 1000, 16384, 32768, 65535, 65536] {
        for amt in [0i64, 1, 32768, 65536] {
            assert_eq!(analog_xover(0, amt, w), 0, "knee not zero at w = {w}");
        }
    }
}

#[test]
fn analog_xover_odd_everywhere() {
    for x in [0i64, 1, 500, 999, 1000, 20000, 65536] {
        for w in [1000i64, 32768, 65536] {
            assert_eq!(analog_xover(-x, 65536, w), -analog_xover(x, 65536, w));
        }
    }
}

#[test]
fn analog_xover_keeps_sign_shape() {
    // the knee subtracts at most amt * w from the magnitude
    for x in [4096i64, 16384, 32768, 65536] {
        let y = analog_xover(x, 65536, 32768);
        assert!(y <= x);
        assert!(y >= x - 32768 - 1);
        assert_eq!(analog_xover(-x, 65536, 32768), -y);
    }
}

#[test]
fn play_passes_and_holds_exactly() {
    assert_eq!(play(12345, -777, 0), 12345);
    assert_eq!(play(12345, -777, FP_ONE), -777);
    assert_eq!(play(65536, 0, 32768), 32768);
}

#[test]
fn play_keeps_constants_exactly() {
    // a constant signal is a fixed point of the filter: unity DC gain,
    // even one LSB above zero
    for v in [1i64, -1, 3, 12345, -99999, 65536] {
        for cut in [0i64, 1, 32768, 65535, 65536] {
            assert_eq!(play(v, v, cut), v);
        }
    }
}

#[test]
fn play_is_a_convex_combination() {
    for (x, y) in [(0i64, 100i64), (100, 0), (-50, 70), (65536, -65536), (1, 2)] {
        for cut in [0i64, 1, 16384, 32768, 65535, 65536] {
            let r = play(x, y, cut);
            assert!(r >= x.min(y) && r <= x.max(y), "left [{x}, {y}] at cut {cut}: {r}");
        }
    }
}

#[test]
fn diff_scales_by_rate() {
    assert_eq!(diff(100, 0, 10), 1000);
    assert_eq!(diff(0, 100, 10), -1000);
    // a full-scale step at the audio rate clamps at the working limit
    assert_eq!(diff(65536, 0, 44100), 0x4000_0000);
}

#[test]
fn play_settles_on_constant_input() {
    // on a constant input the held output reaches the input exactly,
    // within a number of steps bounded by the initial gap
    let x = 5000i64;
    let mut y = -30000i64;
    let mut gap = (y - x).abs();
    let mut steps = 0i64;
    while y != x {
        y = play(x, y, 60000);
        steps += 1;
        let g = (y - x).abs();
        assert!(g < gap, "gap failed to shrink at step {steps}");
        gap = g;
        assert!(steps <= 35000);
    }
    assert_eq!(play(x, y, 60000), x);
}
