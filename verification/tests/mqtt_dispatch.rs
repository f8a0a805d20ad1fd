use watercontroller::api::{CommandOutcome, SwitchCommand};
use watercontroller::app::App;
use watercontroller::config::Config;
use watercontroller::mqtt_dispatch::{
    handle_message, parse_command, payload_level, MqttIntegration, SensorTexts,
};
use watercontroller::mqtt_supervisor::{credential, qos_of, MqttAction, MqttSupervisor, MqttWake, Qos};

#[test]
fn parse_command_routes_correctly() {
    let cmd = parse_command("doremorwater", "doremorwater/water_control/set", b"ON").unwrap();
    assert_eq!(cmd, SwitchCommand::WaterControl { on: true });

    let cmd = parse_command("doremorwater", "doremorwater/sprinkler_1/set", b"OFF").unwrap();
    assert_eq!(cmd, SwitchCommand::Sprinkler1 { on: false });

    // Wrong base
    assert!(parse_command("doremorwater", "elsewhere/water_control/set", b"ON").is_none());
    // Wrong suffix
    assert!(parse_command("doremorwater", "doremorwater/water_control/state", b"ON").is_none());
    // Unknown switch
    assert!(parse_command("doremorwater", "doremorwater/heater/set", b"ON").is_none());
    // Bad payload
    assert!(parse_command("doremorwater", "doremorwater/water_control/set", b"maybe").is_none());
}

#[test]
fn connecting_announces_subscribes_and_routes() {
    let mut app = App::new(Config::default());
    let integ = MqttIntegration { firmware_version: "test".into() };
    let plan = integ.on_connect(app.config());
    // 12 discovery messages + 1 availability online
    assert_eq!(plan.publishes.len(), 13);
    assert!(plan.publishes.iter().any(|p| p.topic == "doremorwater/status" && p.payload == b"online"));
    assert!(plan.publishes.iter().all(|p| p.opts.retained));
    assert_eq!(plan.subscriptions.len(), 3);
    assert!(plan.subscriptions.contains(&"doremorwater/sprinkler_1/set".to_string()));

    // A command is routed to the controller
    let base = app.config().mqtt.base_topic.clone();
    let outcome = handle_message(&mut app, &base, 0, "doremorwater/sprinkler_1/set", b"ON");
    assert_eq!(outcome, Some(CommandOutcome::Accepted));
    app.tick(0);
    assert!(app.snapshot().switches.sprinkler_1);
    assert_eq!(handle_message(&mut app, &base, 0, "doremorwater/sprinkler_1/state", b"ON"), None);
}

#[test]
fn state_is_published_as_text() {
    let app = App::new(Config::default());
    let integ = MqttIntegration { firmware_version: "test".into() };
    let texts = SensorTexts {
        battery: Some("12.20".into()),
        pressure: None,
        water_flow: Some("0.0".into()),
        water_total: None,
    };
    let out = integ.publish_state(app.config(), &app.snapshot(), &texts);
    assert_eq!(out.len(), 5);
    assert_eq!(out[0].topic, "doremorwater/battery/state");
    assert_eq!(out[0].payload, b"12.20");
    assert_eq!(out[2].topic, "doremorwater/sprinkler_1/state");
    assert_eq!(out[2].payload, b"OFF");
    let mut snap = app.snapshot();
    snap.uptime_ms = 61_500;
    snap.alarm.active = true;
    let brief = integ.publish_brief_state(app.config(), &snap);
    assert_eq!(brief.len(), 5);
    assert_eq!(brief[0].payload, b"61");
    assert_eq!(brief[4].topic, "doremorwater/flow_alarm/state");
    assert_eq!(brief[4].payload, b"ON");
    let gone = integ.publish_offline(app.config());
    assert_eq!(gone.payload, b"offline");
}

#[test]
fn payloads_in_words_and_digits() {
    assert_eq!(payload_level(b"ON"), Some(true));
    assert_eq!(payload_level(b"OFF"), Some(false));
    assert_eq!(payload_level(b"maybe"), None);
    assert_eq!(payload_level(&[0xff, 0xfe]), None);
}

fn wake_at(now_ms: u64) -> MqttWake {
    MqttWake { enabled: true, has_broker: true, wifi_connected: true, broker_connected: false, now_ms }
}

#[test]
fn failed_connects_back_off() {
    let mut s = MqttSupervisor::new();
    assert_eq!(s.wake(wake_at(4_999)), MqttAction::Wait);
    assert_eq!(s.wake(wake_at(5_000)), MqttAction::Connect);
    assert_eq!(s.attempt_over(false), MqttAction::Wait);
    assert_eq!(s.backoff_ms, 10_000);
    assert_eq!(s.wake(wake_at(14_999)), MqttAction::Wait);
    assert_eq!(s.wake(wake_at(15_000)), MqttAction::Connect);
    assert_eq!(s.attempt_over(true), MqttAction::Serve);
    assert_eq!(s.backoff_ms, 5_000);
}

#[test]
fn nothing_is_tried_without_a_link() {
    let mut s = MqttSupervisor::new();
    let mut w = wake_at(60_000);
    w.wifi_connected = false;
    assert_eq!(s.wake(w), MqttAction::Wait);
}

#[test]
fn qos_levels_and_credentials() {
    assert_eq!(qos_of(0), Qos::AtMostOnce);
    assert_eq!(qos_of(1), Qos::AtLeastOnce);
    assert_eq!(qos_of(2), Qos::ExactlyOnce);
    assert_eq!(qos_of(7), Qos::AtLeastOnce);
    assert_eq!(credential(""), None);
    assert_eq!(credential("u"), Some("u"));
}
