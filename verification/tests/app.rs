use watercontroller::api::{CommandOutcome, SwitchCommand};
use watercontroller::app::App;
use watercontroller::config::{Config, FlowAlarmConfig};
use watercontroller::reading::Reading;
use watercontroller::schedule::{Action, LocalTime, Rule, Schedule};
use watercontroller::traits::{NvsError, NvsStore};

#[test]
fn switch_command_sprinkler_round_trip() {
    let mut now: u64 = 0;
    let mut app = App::new(Config::default());
    app.switch_command(now, SwitchCommand::Sprinkler1 { on: true });
    app.tick(now);
    assert!(app.snapshot().switches.sprinkler_1);

    // 8 minutes pass — auto-off (7 min) should fire.
    now += 8 * 60_000;
    app.tick(now);
    assert!(!app.snapshot().switches.sprinkler_1);
}

#[test]
fn replace_config_updates_sprinkler_auto_off_live() {
    let mut now: u64 = 0;
    let mut app = App::new(Config::default()); // 7 min default
    app.switch_command(now, SwitchCommand::Sprinkler1 { on: true });
    app.tick(now);
    assert!(app.snapshot().switches.sprinkler_1);

    // Live-tighten auto-off to 2 minutes.
    let mut cfg = app.config().clone();
    cfg.switches.sprinkler_1_auto_off_secs = 120;
    app.replace_config(cfg);

    // 3 min in (past the new 2 min window): tick should auto-off.
    now += 3 * 60_000;
    app.tick(now);
    assert!(!app.snapshot().switches.sprinkler_1);
}

#[test]
fn water_control_cannot_be_re_issued_during_sequence() {
    let mut now: u64 = 0;
    let mut app = App::new(Config::default());

    let r1 = app.switch_command(now, SwitchCommand::WaterControl { on: true });
    assert!(matches!(r1, CommandOutcome::Accepted));
    // 5 s into the 16 s sequence — busy
    now += 5_000;
    app.tick(now);
    let r2 = app.switch_command(now, SwitchCommand::WaterControl { on: false });
    assert!(matches!(r2, CommandOutcome::Busy { .. }));
}

// ---------------- flow alarm ----------------

/// Helper: configure flow alarm with a chosen threshold/duration and
/// publish a fake flow_lph reading via `update_state`.
fn arm_alarm(app: &mut App, threshold: f32, duration_secs: u32) {
    let mut cfg = app.config().clone();
    cfg.flow_alarm = FlowAlarmConfig {
        enabled: true,
        threshold_lph: Reading { bits: threshold.to_bits() },
        duration_secs,
    };
    app.replace_config(cfg);
}

fn set_flow(app: &mut App, lph: f32) {
    app.update_state().sensors.flow_lph = Some(Reading { bits: lph.to_bits() });
}

#[test]
fn flow_alarm_fires_after_sustained_high_flow() {
    let mut now: u64 = 0;
    let mut app = App::new(Config::default());
    arm_alarm(&mut app, 50.0, 10);
    set_flow(&mut app, 200.0); // well above threshold

    // First tick establishes the baseline (delta = 0).
    app.tick(now);
    assert!(!app.snapshot().alarm.active);

    // 5 s — not yet over duration.
    now += 5_000;
    app.tick(now);
    assert!(!app.snapshot().alarm.active);
    assert_eq!(app.snapshot().alarm.elapsed_secs, 5);

    // Another 6 s — total 11 s ≥ 10 s threshold → fire.
    now += 6_000;
    app.tick(now);
    let s = app.snapshot();
    assert!(s.alarm.active, "alarm should have fired by now");
    assert!(s.alarm.elapsed_secs >= 10);
}

#[test]
fn flow_alarm_counts_fractions_of_a_second() {
    let mut app = App::new(Config::default());
    arm_alarm(&mut app, 50.0, 10);
    set_flow(&mut app, 200.0);
    let mut now: u64 = 0;
    app.tick(now);
    while now < 9_990 {
        now += 10;
        app.tick(now);
        assert!(!app.snapshot().alarm.active);
    }
    assert_eq!(app.snapshot().alarm.elapsed_secs, 9);
    now += 10;
    app.tick(now);
    assert!(app.snapshot().alarm.active);
    assert_eq!(app.snapshot().alarm.elapsed_secs, 10);
}

#[test]
fn flow_alarm_counts_from_the_first_high_reading() {
    let mut app = App::new(Config::default());
    arm_alarm(&mut app, 50.0, 10);
    set_flow(&mut app, 0.0);
    app.tick(0);
    set_flow(&mut app, 200.0);
    app.tick(60_000);
    assert_eq!(app.snapshot().alarm.elapsed_secs, 0);
    assert!(!app.snapshot().alarm.active);
    app.tick(69_999);
    assert!(!app.snapshot().alarm.active);
    app.tick(70_000);
    assert!(app.snapshot().alarm.active);
}

#[test]
fn flow_alarm_without_a_time_still_needs_flow() {
    let mut app = App::new(Config::default());
    arm_alarm(&mut app, 50.0, 0);
    app.tick(0);
    set_flow(&mut app, 49.0);
    app.tick(1_000);
    assert!(!app.snapshot().alarm.active);
    set_flow(&mut app, 50.0);
    app.tick(1_010);
    assert!(app.snapshot().alarm.active);
}

#[test]
fn flow_alarm_ignored_while_sprinkler_on() {
    let mut now: u64 = 0;
    let mut app = App::new(Config::default());
    arm_alarm(&mut app, 50.0, 5);
    set_flow(&mut app, 200.0);

    // Turn a sprinkler on — its activity should mask any high flow.
    app.switch_command(now, SwitchCommand::Sprinkler1 { on: true });
    app.tick(now); // baseline

    for _ in 0..10 {
        now += 1_000;
        app.tick(now);
        // Re-assert flow each tick because the snapshot mirror
        // would otherwise reset it via state.sensors not being
        // re-published. (We bypass the real sensor read path.)
        set_flow(&mut app, 200.0);
    }

    let s = app.snapshot();
    assert!(!s.alarm.active);
    assert_eq!(s.alarm.elapsed_secs, 0);
}

#[test]
fn flow_alarm_resets_elapsed_when_flow_drops() {
    let mut now: u64 = 0;
    let mut app = App::new(Config::default());
    arm_alarm(&mut app, 50.0, 30);
    set_flow(&mut app, 100.0);

    app.tick(now);
    now += 10_000;
    app.tick(now);
    assert_eq!(app.snapshot().alarm.elapsed_secs, 10);

    // Drop below threshold — elapsed must reset.
    set_flow(&mut app, 5.0);
    now += 1_000;
    app.tick(now);
    assert_eq!(app.snapshot().alarm.elapsed_secs, 0);
}

#[test]
fn flow_alarm_latches_until_cleared() {
    let mut now: u64 = 0;
    let mut app = App::new(Config::default());
    arm_alarm(&mut app, 50.0, 5);
    set_flow(&mut app, 100.0);
    app.tick(now);
    now += 6_000;
    app.tick(now);
    assert!(app.snapshot().alarm.active);

    // Flow drops to zero — alarm stays latched.
    set_flow(&mut app, 0.0);
    for _ in 0..10 {
        now += 1_000;
        app.tick(now);
    }
    assert!(app.snapshot().alarm.active);

    // Explicit clear resets both flags.
    app.clear_flow_alarm();
    let s = app.snapshot();
    assert!(!s.alarm.active);
    assert_eq!(s.alarm.elapsed_secs, 0);
}

#[test]
fn flow_alarm_disabled_resets_state() {
    let mut now: u64 = 0;
    let mut app = App::new(Config::default());
    arm_alarm(&mut app, 10.0, 1);
    set_flow(&mut app, 200.0);
    app.tick(now);
    now += 2_000;
    app.tick(now);
    assert!(app.snapshot().alarm.active);

    // Disable — state must clear without needing a manual clear.
    let mut cfg = app.config().clone();
    cfg.flow_alarm.enabled = false;
    app.replace_config(cfg);
    app.tick(now);
    assert!(!app.snapshot().alarm.active);
    assert_eq!(app.snapshot().alarm.elapsed_secs, 0);
}

struct OneByte(std::sync::Mutex<Option<Vec<u8>>>, bool);

impl NvsStore for OneByte {
    fn get(&self, _key: &str) -> Option<Vec<u8>> {
        self.0.lock().unwrap().clone()
    }
    fn set(&self, key: &str, value: &[u8]) -> Result<(), NvsError> {
        assert_eq!(key, "wc.valve");
        if !self.1 {
            return Err(NvsError::Full);
        }
        *self.0.lock().unwrap() = Some(value.to_vec());
        Ok(())
    }
    fn remove(&self, _key: &str) -> Result<(), NvsError> {
        Ok(())
    }
}

#[test]
fn valve_position_survives_a_restart() {
    let nvs = OneByte(std::sync::Mutex::new(None), true);
    let mut app = App::with_nvs(Config::default(), nvs.get("wc.valve"));
    assert_eq!(app.restored_valve_state(), None);
    app.switch_command(0, SwitchCommand::WaterControl { on: true });
    let mut now = 0;
    while now <= 20_000 {
        app.tick(now);
        app.persist_valve(&nvs);
        now += 100;
    }
    assert_eq!(nvs.get("wc.valve"), Some(vec![1]));
    // Nothing was there at the start, whatever was written since.
    assert_eq!(app.restored_valve_state(), None);
    let again = App::with_nvs(Config::default(), nvs.get("wc.valve"));
    assert_eq!(again.restored_valve_state(), Some(true));
    assert_eq!(again.valve_write_due(), None);
}

#[test]
fn failed_write_stays_due() {
    let nvs = OneByte(std::sync::Mutex::new(None), false);
    let mut app = App::with_nvs(Config::default(), Some(vec![1]));
    app.switch_command(0, SwitchCommand::WaterControl { on: false });
    for now in 0..400 {
        app.tick(now * 100);
    }
    assert_eq!(app.valve_write_due(), Some(0));
    app.persist_valve(&nvs);
    assert_eq!(app.valve_write_due(), Some(0));
    app.valve_written(true);
    assert_eq!(app.valve_write_due(), None);
}

#[test]
fn schedule_turns_switches_on() {
    let mut cfg = Config::default();
    cfg.schedule = Schedule::new(vec![
        Rule {
            id: "a".into(),
            action: Action::Switch { id: "sprinkler_1".into() },
            hours: vec![6],
            minutes: vec![30],
            days_of_week: vec![],
            enabled: true,
            duration_secs: Some(5),
        },
        Rule {
            id: "b".into(),
            action: Action::Switch { id: "heater".into() },
            hours: vec![6],
            minutes: vec![30],
            days_of_week: vec![],
            enabled: true,
            duration_secs: None,
        },
    ]);
    let mut app = App::new(cfg);
    let last = LocalTime::new(739_000, 6 * 3600 + 29 * 60 + 50).unwrap();
    let now = LocalTime::new(739_000, 6 * 3600 + 30 * 60 + 20).unwrap();
    let fired = app.run_schedule(1_000, last, now);
    assert_eq!(fired.len(), 2);
    assert!(fired[0].known && !fired[1].known);
    app.tick(1_000);
    assert!(app.snapshot().switches.sprinkler_1);
    // The rule's own duration ends the run.
    app.tick(6_000);
    assert!(!app.snapshot().switches.sprinkler_1);
    // The same window again fires nothing more.
    assert!(app.run_schedule(7_000, now, now).is_empty());
}
