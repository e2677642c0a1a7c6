use pitch_tracker::config::Config;
use pitch_tracker::tracker::{Estimate, Mode, Tracker};

const RATE: u32 = 48000;

fn tone(f: f64, amplitude: f64, harmonic: f64, n: usize, start: usize) -> Vec<i16> {
    (start..start + n)
        .map(|t| {
            let w = 2.0 * std::f64::consts::PI * f * t as f64 / RATE as f64;
            (amplitude * (w.sin() + harmonic * (2.0 * w).sin())).round() as i16
        })
        .collect()
}

fn within_one_percent(e: &Estimate, f: f64) -> bool {
    let got = e.frequency_millihertz as f64 / 1000.0;
    (got - f).abs() <= 0.01 * f
}

fn track_per_sample(f: f64) -> Tracker {
    let mut t = Tracker::initialize(RATE, 400).unwrap();
    for s in tone(f, 8000.0, 0.0, 3000, 0) {
        t.ingest(s);
    }
    t
}

fn check_sine_per_sample(f: f64) {
    let e = track_per_sample(f).estimate();
    assert_eq!(e.mode, Mode::Track);
    assert!(within_one_percent(&e, f), "{} Hz gave {:?}", f, e);
}

fn check_tone_in_blocks(f: f64, harmonic: f64) -> Estimate {
    let mut t = Tracker::initialize(RATE, 400).unwrap();
    let samples = tone(f, 6000.0, harmonic, 6144, 0);
    for block in samples.chunks(512) {
        t.ingest_block(block);
    }
    let e = t.estimate();
    assert_eq!(e.mode, Mode::Track);
    assert!(within_one_percent(&e, f), "{} Hz gave {:?}", f, e);
    e
}

#[test]
fn sine_82_hz_is_tracked() {
    check_sine_per_sample(82.0);
}

#[test]
fn sine_110_hz_is_tracked() {
    check_sine_per_sample(110.0);
}

#[test]
fn sine_200_hz_is_tracked() {
    check_sine_per_sample(200.0);
    let e = track_per_sample(200.0).estimate();
    assert_eq!(e.period_samples, 240);
    assert_eq!(e.frequency_millihertz, 200_000);
}

#[test]
fn sine_330_hz_is_tracked() {
    check_sine_per_sample(330.0);
}

#[test]
fn sine_400_hz_is_tracked() {
    check_sine_per_sample(400.0);
}

#[test]
fn sines_in_blocks_are_tracked() {
    for f in [82.0, 110.0, 147.0, 196.0, 247.0, 330.0] {
        check_tone_in_blocks(f, 0.0);
    }
}

#[test]
fn second_harmonic_does_not_halve_the_period() {
    for f in [100.0, 150.0] {
        let e = check_tone_in_blocks(f, 1.0);
        let period = RATE as f64 / f;
        assert!((e.period_samples as f64 - period).abs() <= 0.01 * period);
    }
}

#[test]
fn loud_block_after_steady_tone_restarts_search() {
    let mut t = Tracker::initialize(RATE, 400).unwrap();
    let quiet = tone(200.0, 1000.0, 0.0, 6144, 0);
    for block in quiet.chunks(512) {
        t.ingest_block(block);
    }
    assert_eq!(t.estimate().mode, Mode::Track);
    let loud = tone(200.0, 4000.0, 0.0, 512, 6144);
    t.ingest_block(&loud);
    let e = t.estimate();
    assert_eq!(e.mode, Mode::Search);
    assert_eq!(e.period_samples, 120);
}

#[test]
fn click_after_steady_tone_restarts_search() {
    let mut t = Tracker::initialize(RATE, 400).unwrap();
    for s in tone(200.0, 1000.0, 0.0, 3000, 0) {
        t.ingest(s);
    }
    assert_eq!(t.estimate().mode, Mode::Track);
    t.ingest(i16::MAX);
    assert_eq!(t.estimate().mode, Mode::Search);
    assert_eq!(t.estimate().period_samples, 120);
}

#[test]
fn tracked_period_moves_by_at_most_one_and_stays_in_band() {
    let mut t = Tracker::initialize(RATE, 400).unwrap();
    let samples = tone(196.0, 8000.0, 0.0, 4000, 0);
    let mut anchor: Option<usize> = None;
    let mut last = t.estimate();
    for s in samples {
        t.ingest(s);
        let e = t.estimate();
        if last.mode == Mode::Track && e.mode == Mode::Track {
            let a = anchor.unwrap();
            assert!(e.period_samples + 1 >= last.period_samples);
            assert!(e.period_samples <= last.period_samples + 1);
            assert!(e.period_samples >= a * 4 / 5);
            assert!(e.period_samples <= (a * 6 + 4) / 5);
        }
        if last.mode == Mode::Search && e.mode == Mode::Track {
            anchor = Some(e.period_samples);
        }
        last = e;
    }
    assert_eq!(last.mode, Mode::Track);
    assert!(anchor.is_some());
}

#[test]
fn noise_search_always_returns_to_first_guess() {
    let mut t = Tracker::initialize(RATE, 400).unwrap();
    let mut x: u64 = 0x2545_f491_4f6c_dd1d;
    for _ in 0..800 {
        x = x
            .wrapping_mul(6364136223846793005)
            .wrapping_add(1442695040888963407);
        let s = ((x >> 48) as i16) / 4;
        t.ingest(s);
        let e = t.estimate();
        if e.mode == Mode::Search {
            assert_eq!(e.period_samples, 120);
        }
    }
}

#[test]
fn silence_never_confirms() {
    let mut t = Tracker::initialize(RATE, 400).unwrap();
    for _ in 0..50 {
        t.ingest(0);
        assert_eq!(t.estimate().mode, Mode::Search);
        assert_eq!(t.estimate().period_samples, 120);
    }
}

#[test]
fn repeated_estimates_agree() {
    let mut t = Tracker::initialize(RATE, 400).unwrap();
    assert_eq!(t.estimate(), t.estimate());
    for s in tone(200.0, 8000.0, 0.0, 3000, 0) {
        t.ingest(s);
    }
    let a = t.estimate();
    let b = t.estimate();
    assert_eq!(a, b);
    assert_eq!(a.mode, Mode::Track);
}

#[test]
fn custom_tolerance_is_used() {
    let mut c = Config::standard(RATE);
    c.tolerance_num = 0;
    let mut t = Tracker::new(c).unwrap();
    for block in tone(200.0, 6000.0, 0.0, 4096, 0).chunks(512) {
        t.ingest_block(block);
    }
    assert_eq!(t.estimate().mode, Mode::Search);
}

#[test]
fn single_sample_blocks_match_ingest() {
    let mut a = Tracker::initialize(RATE, 400).unwrap();
    let mut b = Tracker::initialize(RATE, 400).unwrap();
    for s in tone(300.0, 5000.0, 0.0, 1500, 0) {
        a.ingest(s);
        b.ingest_block(&[s]);
        assert_eq!(a.estimate(), b.estimate());
    }
    assert_eq!(a.estimate().mode, Mode::Track);
}

#[test]
fn empty_block_runs_engine_once() {
    let mut t = Tracker::initialize(RATE, 400).unwrap();
    t.ingest_block(&[]);
    assert_eq!(t.estimate().mode, Mode::Search);
    assert_eq!(t.estimate().period_samples, 120);
}
