//! End-to-end scenarios for the stereo engine, the control surface and the
//! snapshot mapper.

use tape_engine::FP_ONE;
use tape_engine::engine::Controls;
use tape_engine::engine::Engine;
use tape_engine::engine::HystMode;
use tape_engine::engine::Params;
use tape_engine::engine::SatMode;
use tape_engine::engine::hyst_mode_of;
use tape_engine::engine::params_of;
use tape_engine::engine::sat_mode_of;
use tape_engine::modulation::Modulator;

fn zeros(n: usize) -> Vec<i64> {
    let mut v = Vec::new();
    for _ in 0..n {
        v.push(0);
    }
    v
}

#[test]
fn silence_in_silence_out() {
    let mut e = Engine::new(44100, 7);
    let p = Params::neutral();
    let n = 2048usize;
    let (l, r) = e.process_block(&zeros(n), &zeros(n), &p);
    assert_eq!(l.len(), n);
    assert_eq!(r.len(), n);
    for i in 0..n {
        assert_eq!(l[i], 0, "left output not silent at {i}");
        assert_eq!(r[i], 0, "right output not silent at {i}");
    }
}

#[test]
fn same_seed_bit_identical_runs() {
    let mut p = Params::neutral();
    p.hiss_rec = 3277;
    p.hiss_play = 3277;
    p.wow = 20000;
    p.flutter = 20000;
    p.quant = 30000;
    p.grain = 10000;
    let mut e1 = Engine::new(44100, 1234);
    let mut e2 = Engine::new(44100, 1234);
    let mut input = Vec::new();
    for i in 0..512i64 {
        input.push((i * 97) % 30000 - 15000);
    }
    let (l1, r1) = e1.process_block(&input, &input, &p);
    let (l2, r2) = e2.process_block(&input, &input, &p);
    assert_eq!(l1, l2);
    assert_eq!(r1, r2);
}

#[test]
fn different_seeds_diverge_under_hiss() {
    let mut p = Params::neutral();
    // playback hiss sits after the delay line, so it reaches the output
    // inside the first block
    p.hiss_play = 6554;
    let mut e1 = Engine::new(44100, 1);
    let mut e2 = Engine::new(44100, 2);
    let n = 256usize;
    let (l1, _) = e1.process_block(&zeros(n), &zeros(n), &p);
    let (l2, _) = e2.process_block(&zeros(n), &zeros(n), &p);
    assert!(l1 != l2, "independent seeds produced one stream");
}

#[test]
fn block_equals_sample_by_sample() {
    let mut p = Params::neutral();
    p.quant = 20000;
    p.hiss_play = 1000;
    let mut e1 = Engine::new(48000, 55);
    let mut e2 = Engine::new(48000, 55);
    let mut in_l = Vec::new();
    let mut in_r = Vec::new();
    for i in 0..128i64 {
        in_l.push(i * 123);
        in_r.push(-i * 77);
    }
    let (bl, br) = e1.process_block(&in_l, &in_r, &p);
    for i in 0..128usize {
        let (ol, or_) = e2.process_sample(in_l[i], in_r[i], &p);
        assert_eq!(bl[i], ol);
        assert_eq!(br[i], or_);
    }
}

#[test]
fn impulse_returns_to_baseline() {
    // a unit impulse through the hysteresis and saturation chain with no
    // bias settles back to zero once the erasure and DC stages drain
    let mut e = Engine::new(44100, 3);
    let mut p = Params::neutral();
    p.erase = 20000;
    p.squareness = 30000;
    let (l0, r0) = e.process_sample(FP_ONE / 2, FP_ONE / 2, &p);
    assert!(l0.abs() <= FP_ONE && r0.abs() <= FP_ONE);
    let n = 44100usize;
    let (l, r) = e.process_block(&zeros(n), &zeros(n), &p);
    for i in n - 100..n {
        assert!(l[i].abs() <= 3, "left residual {} at {i}", l[i]);
        assert!(r[i].abs() <= 3, "right residual {} at {i}", r[i]);
    }
}

#[test]
fn latency_is_constant() {
    let mut e = Engine::new(44100, 9);
    let before = e.latency();
    assert_eq!(before, 2205);
    let p = Params::neutral();
    let n = 64usize;
    let _ = e.process_block(&zeros(n), &zeros(n), &p);
    assert_eq!(e.latency(), before);
}

#[test]
fn dry_path_alignment_full_dry() {
    // with the mix fully dry the input reappears unchanged after exactly
    // the declared latency
    let mut e = Engine::new(44100, 21);
    let mut p = Params::neutral();
    p.dry_wet = 0;
    let lat = e.latency();
    let mut input = zeros(8192);
    input[0] = 10000;
    input[1] = -20000;
    input[2] = 30000;
    let (l, _) = e.process_block(&input, &zeros(8192), &p);
    assert_eq!(l[lat], 10000);
    assert_eq!(l[lat + 1], -20000);
    assert_eq!(l[lat + 2], 30000);
    assert_eq!(l[lat - 1], 0);
}

#[test]
fn controls_read_write_and_defaults() {
    let mut c = Controls::new();
    assert_eq!(c.get(0), 32768);
    assert_eq!(c.get(3), FP_ONE);
    assert_eq!(c.get(17), 32768);
    // out-of-range reads are zero, writes are ignored
    assert_eq!(c.get(18), 0);
    assert_eq!(c.get(9999), 0);
    c.set(9999, 123);
    assert_eq!(c.get(9999), 0);
    // stores clamp into the unit interval
    c.set(4, -50);
    assert_eq!(c.get(4), 0);
    c.set(4, 999999);
    assert_eq!(c.get(4), FP_ONE);
    c.set(4, 1000);
    assert_eq!(c.get(4), 1000);
}

#[test]
fn mode_bucket_boundaries_resolve_upward() {
    assert_eq!(sat_mode_of(0), SatMode::Tungsten);
    assert_eq!(sat_mode_of(13106), SatMode::Tungsten);
    assert_eq!(sat_mode_of(13107), SatMode::Steel);
    assert_eq!(sat_mode_of(26213), SatMode::Steel);
    assert_eq!(sat_mode_of(26214), SatMode::Iron);
    assert_eq!(sat_mode_of(39321), SatMode::Nickel);
    assert_eq!(sat_mode_of(52428), SatMode::Magnetite);
    assert_eq!(sat_mode_of(65536), SatMode::Magnetite);
    assert_eq!(hyst_mode_of(0), HystMode::XoverDigital);
    assert_eq!(hyst_mode_of(10922), HystMode::XoverDigital);
    assert_eq!(hyst_mode_of(10923), HystMode::XoverAnalog);
    assert_eq!(hyst_mode_of(21845), HystMode::WinDigital);
    assert_eq!(hyst_mode_of(32768), HystMode::TapeA);
    assert_eq!(hyst_mode_of(43690), HystMode::TapeB);
    assert_eq!(hyst_mode_of(54613), HystMode::Tube);
}

#[test]
fn mapper_stays_in_declared_ranges() {
    let mut c = Controls::new();
    for raw in [0i64, 1, 13107, 32768, 65535, 65536] {
        for i in 0..18usize {
            c.set(i, raw);
        }
        let p = params_of(&c);
        assert!((0..=4 * FP_ONE).contains(&p.pre_gain));
        assert!((0..=4 * FP_ONE).contains(&p.post_gain));
        assert!((-FP_ONE..=FP_ONE).contains(&p.bias));
        assert!((6554..=5 * FP_ONE).contains(&p.drive));
        assert!((0..=FP_ONE).contains(&p.erase));
        assert!((0..=FP_ONE).contains(&p.hiss_rec));
        assert!((0..=FP_ONE).contains(&p.wow));
    }
}

#[test]
fn mapper_midpoint_is_unity_gain() {
    let c = Controls::new();
    let p = params_of(&c);
    // (1/2 + 1/2)^2 == 1, and its reciprocal
    assert_eq!(p.pre_gain, FP_ONE);
    assert_eq!(p.post_gain, FP_ONE);
    assert_eq!(p.bias, 0);
}

#[test]
fn every_mode_processes_an_impulse_finitely() {
    for sat_raw in [0i64, 14000, 27000, 40000, 53000] {
        for hyst_raw in [0i64, 11000, 22000, 33000, 44000, 55000] {
            let mut c = Controls::new();
            c.set(6, sat_raw);
            c.set(7, hyst_raw);
            let p = params_of(&c);
            let mut e = Engine::new(44100, 13);
            let mut input = zeros(256);
            input[0] = 30000;
            let (l, r) = e.process_block(&input, &input, &p);
            for i in 0..256usize {
                assert!(l[i].abs() <= 0x4000_0000);
                assert!(r[i].abs() <= 0x4000_0000);
            }
        }
    }
}

#[test]
fn modulator_neutral_amounts_give_unity_factor() {
    let mut m = Modulator::new();
    for noise in [-65536i64, -1, 0, 1, 65536, 30000] {
        assert_eq!(m.step(noise, 0, 0, 44100), FP_ONE);
    }
}

#[test]
fn modulator_factor_stays_in_range() {
    let mut m = Modulator::new();
    let mut rng = tape_engine::rng::TapeRng::from_seed(77);
    for _ in 0..5000 {
        let noise = 2 * rng.next_unit() - FP_ONE;
        let f = m.step(noise, FP_ONE, FP_ONE, 44100);
        assert!((32768..=98304).contains(&f), "factor {f}");
    }
}

#[test]
fn empty_block_is_a_no_op() {
    let mut e = Engine::new(44100, 4);
    let p = Params::neutral();
    let (l, r) = e.process_block(&Vec::new(), &Vec::new(), &p);
    assert!(l.is_empty());
    assert!(r.is_empty());
}
