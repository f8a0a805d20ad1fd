
use watercontroller::duration::Duration;
use watercontroller::switch::TimedSwitch;

#[test]
fn auto_off_fires_after_duration() {
    let mut s = TimedSwitch::new(Some(Duration::from_secs(5)));
    s.turn_on(0);
    assert!(s.is_on());
    s.tick(4_999);
    assert!(s.is_on());
    s.tick(5_000);
    assert!(!s.is_on());
}

#[test]
fn no_auto_off_means_stays_on() {
    let mut s = TimedSwitch::new(None);
    s.turn_on(0);
    s.tick(60_000);
    assert!(s.is_on());
}

#[test]
fn turn_on_resets_clock_only_when_off() {
    let mut s = TimedSwitch::new(Some(Duration::from_secs(5)));
    s.turn_on(0);
    s.turn_on(2_000); // already on — should NOT reset the clock
    s.tick(5_000);
    assert!(!s.is_on());
}

#[test]
fn manual_off_before_auto_off() {
    let mut s = TimedSwitch::new(Some(Duration::from_secs(5)));
    s.turn_on(0);
    s.turn_off(1_000);
    assert!(!s.is_on());
}

#[test]
fn set_auto_off_shortens_live_window() {
    let mut s = TimedSwitch::new(Some(Duration::from_secs(60)));
    s.turn_on(0);
    // 4s in, shorten to 3s — next tick should auto-off.
    s.tick(4_000);
    assert!(s.is_on());
    s.set_auto_off(Some(Duration::from_secs(3)));
    s.tick(4_001);
    assert!(!s.is_on());
}

#[test]
fn turn_on_for_overrides_configured_auto_off() {
    let mut s = TimedSwitch::new(Some(Duration::from_secs(600))); // 10 min
    s.turn_on_for(0, Duration::from_secs(5));
    assert!(s.is_on());
    s.tick(4_999);
    assert!(s.is_on());
    s.tick(5_000);
    assert!(!s.is_on());
}

#[test]
fn override_cleared_on_subsequent_manual_turn_on() {
    let mut s = TimedSwitch::new(Some(Duration::from_secs(10)));
    s.turn_on_for(0, Duration::from_secs(2));
    s.tick(2_000); // auto-off via override
    assert!(!s.is_on());
    // Manual turn-on now: configured 10 s auto-off applies, not the prior override.
    s.turn_on(3_000);
    s.tick(5_000); // 2 s in, still on
    assert!(s.is_on());
    s.tick(13_000);
    assert!(!s.is_on());
}

#[test]
fn set_auto_off_to_none_keeps_switch_on() {
    let mut s = TimedSwitch::new(Some(Duration::from_secs(5)));
    s.turn_on(0);
    s.set_auto_off(None);
    s.tick(60_000);
    assert!(s.is_on());
}
