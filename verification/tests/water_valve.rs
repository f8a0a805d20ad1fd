
use watercontroller::water_valve::{ValveOutputs, ValveTiming, WaterState, WaterValve, SEQUENCE_DURATION_MS};

fn drive(valve: &mut WaterValve, ts: &[u64]) -> Vec<(u64, ValveOutputs)> {
    ts.iter().map(|&t| (t, valve.tick(t))).collect()
}

#[test]
fn turn_on_sequence_matches_yaml() {
    let mut v = WaterValve::new();
    v.turn_on(0);
    let trace = drive(&mut v, &[0, 999, 1_000, 14_999, 15_000, 15_999, 16_000]);

    assert_eq!(trace[0].1, ValveOutputs::default());
    assert_eq!(trace[1].1, ValveOutputs::default());
    assert_eq!(trace[2].1, ValveOutputs { open_motor: true, ..Default::default() });
    assert_eq!(trace[3].1, ValveOutputs { open_motor: true, ..Default::default() });
    assert_eq!(trace[4].1, ValveOutputs::default());
    assert_eq!(trace[5].1, ValveOutputs::default());
    assert_eq!(trace[6].1, ValveOutputs::default());
    assert!(v.user_state());
    assert_eq!(v.state(), WaterState::On);
}

#[test]
fn turn_off_sequence_drives_close_then_drain() {
    let mut v = WaterValve::new();
    v.turn_on(0);
    v.tick(SEQUENCE_DURATION_MS);
    v.turn_off(20_000);

    assert_eq!(
        v.tick(21_500),
        ValveOutputs { close_motor: true, ..Default::default() }
    );
    assert_eq!(
        v.tick(34_999),
        ValveOutputs { close_motor: true, ..Default::default() }
    );

    assert_eq!(v.tick(35_500), ValveOutputs::default());

    let drain = v.tick(36_000);
    assert_eq!(drain, ValveOutputs { drain: true, ..Default::default() });
    assert!(!v.user_state());

    let drain_hold_ms = ValveTiming::default().drain_hold_ms();
    assert_eq!(
        v.tick(36_000 + drain_hold_ms - 1),
        ValveOutputs { drain: true, ..Default::default() }
    );
    assert_eq!(
        v.tick(36_000 + drain_hold_ms),
        ValveOutputs::default()
    );
}

#[test]
fn set_timing_changes_subsequent_sequences() {
    let mut v = WaterValve::with_timing(ValveTiming {
        motor_run_secs: 2,
        drain_secs: 3,
    });
    v.turn_on(0);
    // SETTLE_MS=1000, motor=2000 → motor active 1000..3000, sequence ends 4000.
    assert_eq!(
        v.tick(1_500),
        ValveOutputs { open_motor: true, ..Default::default() }
    );
    assert_eq!(v.tick(4_000), ValveOutputs::default());
    assert_eq!(v.state(), WaterState::On);
}

#[test]
fn drain_secs_zero_skips_draining_phase() {
    let mut v = WaterValve::with_timing(ValveTiming {
        motor_run_secs: 1,
        drain_secs: 0,
    });
    v.turn_on(0);
    v.tick(3_000); // 1 + 1 + 1 = 3 s sequence
    assert_eq!(v.state(), WaterState::On);
    v.turn_off(4_000);
    v.tick(7_000);
    assert_eq!(v.state(), WaterState::Off);
    assert_eq!(v.tick(7_001), ValveOutputs::default());
}

#[test]
fn overlapping_turn_on_during_turn_off_ignored() {
    let mut v = WaterValve::new();
    v.turn_on(0);
    v.tick(SEQUENCE_DURATION_MS);
    assert!(v.user_state());

    v.turn_off(20_000);
    v.turn_on(25_000);
    assert_eq!(
        v.tick(25_000),
        ValveOutputs { close_motor: true, ..Default::default() }
    );
}

#[test]
fn never_drives_both_motor_directions() {
    let mut v = WaterValve::new();
    v.turn_on(0);
    for t in 0..=SEQUENCE_DURATION_MS {
        let o = v.tick(t);
        assert!(
            !(o.open_motor && o.close_motor),
            "open and close motor both driven at t={t}"
        );
    }

    v.tick(SEQUENCE_DURATION_MS);
    v.turn_off(SEQUENCE_DURATION_MS);
    for t in SEQUENCE_DURATION_MS..=2 * SEQUENCE_DURATION_MS {
        let o = v.tick(t);
        assert!(
            !(o.open_motor && o.close_motor),
            "open and close motor both driven at t={t}"
        );
    }
}

#[test]
fn turn_on_during_drain_cancels_drain() {
    let mut v = WaterValve::new();
    v.turn_on(0);
    v.tick(SEQUENCE_DURATION_MS);
    v.turn_off(20_000);
    v.tick(36_000);
    assert_eq!(
        v.tick(40_000),
        ValveOutputs { drain: true, ..Default::default() }
    );

    v.turn_on(50_000);
    assert_eq!(
        v.tick(51_500),
        ValveOutputs { open_motor: true, ..Default::default() }
    );
}

#[test]
fn turn_on_when_already_on_is_noop() {
    let mut v = WaterValve::new();
    v.turn_on(0);
    v.tick(SEQUENCE_DURATION_MS);
    assert!(v.user_state());

    v.turn_on(20_000);
    assert!(!v.is_busy());
    assert_eq!(v.tick(20_500), ValveOutputs::default());
}
