use pitch_tracker::correlation::{autocorrelation, energy, squared_difference};
use pitch_tracker::history::{History, HISTORY_SIZE};

fn counting_history() -> History {
    let mut h = History::new();
    for k in 1..=8i16 {
        h.push(k);
    }
    h
}

#[test]
fn new_history_is_silent() {
    let h = History::new();
    for back in 0..HISTORY_SIZE {
        assert_eq!(h.at(back), 0);
    }
}

#[test]
fn push_makes_newest_and_shifts_back() {
    let h = counting_history();
    assert_eq!(h.at(0), 8);
    assert_eq!(h.at(1), 7);
    assert_eq!(h.at(7), 1);
    assert_eq!(h.at(8), 0);
    assert_eq!(h.at(HISTORY_SIZE - 1), 0);
}

#[test]
fn lookback_crosses_origin_after_wrapping() {
    let mut h = History::new();
    for k in 0..3000i32 {
        h.push((k % 30000) as i16);
    }
    for back in [0usize, 1, 500, 951, 952, 953, 2000, HISTORY_SIZE - 1] {
        assert_eq!(h.at(back) as i32, 2999 - back as i32);
    }
}

#[test]
fn autocorrelation_exact() {
    let h = counting_history();
    // 8 * 6 + 7 * 5
    assert_eq!(autocorrelation(&h, 2, 0), 83);
    // 8 * 4 + 7 * 3
    assert_eq!(autocorrelation(&h, 2, 2), 53);
    // 8 * 5 + 7 * 4 + 6 * 3
    assert_eq!(autocorrelation(&h, 3, 0), 86);
    assert_eq!(autocorrelation(&h, 0, 0), 0);
}

#[test]
fn autocorrelation_negative() {
    let mut h = History::new();
    for k in [-3i16, 5, -2, 4] {
        h.push(k);
    }
    // newest first: 4, -2, 5, -3; lag 1 with one term: 4 * -2
    assert_eq!(autocorrelation(&h, 1, 0), -8);
}

#[test]
fn squared_difference_exact() {
    let h = counting_history();
    assert_eq!(squared_difference(&h, 3, 1), 3);
    // (8 - 5)^2 + (7 - 4)^2
    assert_eq!(squared_difference(&h, 2, 3), 18);
    assert_eq!(squared_difference(&h, 4, 0), 0);
}

#[test]
fn energy_exact() {
    let h = counting_history();
    assert_eq!(energy(&h, 3), 64 + 49 + 36);
    assert_eq!(energy(&h, 0), 0);
}

#[test]
fn extreme_samples_do_not_overflow() {
    let mut h = History::new();
    for k in 0..HISTORY_SIZE {
        h.push(if k % 2 == 0 { i16::MIN } else { i16::MAX });
    }
    let w = 682usize;
    assert_eq!(energy(&h, w), 341 * (32768u64 * 32768 + 32767 * 32767));
    assert_eq!(squared_difference(&h, w, 1), 682 * 65535u64 * 65535);
    assert_eq!(autocorrelation(&h, w, 1), -(682 * 32768i64 * 32767));
}
