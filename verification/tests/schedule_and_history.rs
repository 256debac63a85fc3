use gpt_alarm::history::ConfidenceHistory;
use gpt_alarm::schedule::is_within_active_interval;
use gpt_alarm::sound::AlarmState;

#[test]
fn armed_interval_edges() {
    assert!(!is_within_active_interval(6, 59));
    assert!(is_within_active_interval(7, 0));
    assert!(is_within_active_interval(9, 30));
    assert!(is_within_active_interval(11, 59));
    assert!(!is_within_active_interval(12, 0));
    assert!(!is_within_active_interval(0, 0));
    assert!(!is_within_active_interval(23, 59));
}

#[test]
fn large_clock_values_do_not_overflow() {
    assert!(!is_within_active_interval(u32::MAX, u32::MAX));
}

#[test]
fn fresh_history_sits_at_the_threshold_and_is_silent() {
    let h = ConfidenceHistory::new();
    assert!(!h.is_confident());
    assert_eq!(h.alarm_decision(), AlarmState::Disarmed);
}

#[test]
fn first_answer_decides_a_fresh_history() {
    let mut h = ConfidenceHistory::new();
    h.push(true);
    assert_eq!(h.alarm_decision(), AlarmState::Active);
    let mut h = ConfidenceHistory::new();
    h.push(false);
    assert_eq!(h.alarm_decision(), AlarmState::Disarmed);
}

#[test]
fn full_history_needs_five_yes() {
    let mut h = ConfidenceHistory::new();
    for _ in 0..5 {
        h.push(true);
    }
    assert_eq!(h.alarm_decision(), AlarmState::Active);
    h.push(false);
    assert_eq!(h.alarm_decision(), AlarmState::Disarmed);
    for _ in 0..4 {
        h.push(true);
        assert_eq!(h.alarm_decision(), AlarmState::Disarmed);
    }
    h.push(true);
    assert_eq!(h.alarm_decision(), AlarmState::Active);
}

/// The running average as the original computes it, in `f32`.
fn float_decision(readings: &[bool]) -> bool {
    let threshold: f32 = 0.80;
    let mut hist: [f32; 5] = [threshold; 5];
    for r in readings {
        hist.rotate_right(1);
        hist[0] = *r as u8 as f32;
    }
    let avg = hist.iter().copied().sum::<f32>() / (hist.len() as f32);
    avg > threshold
}

#[test]
fn tenths_agree_with_float_average() {
    for len in 0..9usize {
        for bits in 0..(1u32 << len) {
            let readings: Vec<bool> = (0..len).map(|i| bits & (1 << i) != 0).collect();
            let mut h = ConfidenceHistory::new();
            for r in &readings {
                h.push(*r);
            }
            assert_eq!(h.is_confident(), float_decision(&readings), "{:?}", readings);
        }
    }
}
