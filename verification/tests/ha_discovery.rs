use watercontroller::ha_discovery::{all_messages, DeviceContext, Sensor, Switch};

fn ctx() -> DeviceContext<'static> {
    DeviceContext {
        base_topic: "doremorwater",
        discovery_prefix: "homeassistant",
        device_id: "doremorwater",
        friendly_name: "Doremorwater",
        sw_version: "0.1.0",
        manufacturer: "homebrew",
        model: "watercontroller",
    }
}

#[test]
fn pressure_sensor_topic_and_keys() {
    let m = ctx().sensor(&Sensor {
        key: "pressure",
        name: "Pressure",
        unit: Some("bar"),
        device_class: Some("pressure"),
        state_class: Some("measurement"),
        icon: None,
        precision: Some(2),
    });
    assert_eq!(m.topic, "homeassistant/sensor/doremorwater_pressure/config");
    let v: serde_json::Value = serde_json::from_slice(&m.payload).unwrap();
    assert_eq!(v["unique_id"], "doremorwater_pressure");
    assert_eq!(v["state_topic"], "doremorwater/pressure/state");
    assert_eq!(v["unit_of_measurement"], "bar");
    assert_eq!(v["device_class"], "pressure");
    assert_eq!(v["device"]["identifiers"][0], "doremorwater");
}

#[test]
fn switch_has_command_topic() {
    let m = ctx().switch(&Switch { key: "water_control", name: "Water control" });
    let v: serde_json::Value = serde_json::from_slice(&m.payload).unwrap();
    assert_eq!(v["command_topic"], "doremorwater/water_control/set");
    assert_eq!(v["state_topic"], "doremorwater/water_control/state");
    assert_eq!(v["optimistic"], false);
}

#[test]
fn all_messages_includes_expected_entities() {
    let msgs = all_messages(&ctx());
    let topics: Vec<_> = msgs.iter().map(|m| m.topic.clone()).collect();
    assert!(topics.iter().any(|t| t.contains("sensor/doremorwater_battery")));
    assert!(topics.iter().any(|t| t.contains("sensor/doremorwater_pressure")));
    assert!(topics.iter().any(|t| t.contains("sensor/doremorwater_water_flow")));
    assert!(topics.iter().any(|t| t.contains("sensor/doremorwater_water_total")));
    assert!(topics.iter().any(|t| t.contains("switch/doremorwater_water_control")));
    assert!(topics.iter().any(|t| t.contains("sensor/doremorwater_wifi_rssi")));
    assert!(topics.iter().any(|t| t.contains("sensor/doremorwater_uptime")));
    // 5 measurement sensors + 4 diagnostic sensors + 3 switches = 12.
    assert_eq!(msgs.len(), 12);
}

#[test]
fn every_payload_is_json_with_its_device() {
    for m in all_messages(&ctx()) {
        let v: serde_json::Value = serde_json::from_slice(&m.payload).unwrap();
        assert_eq!(v["device"]["name"], "Doremorwater");
        assert_eq!(v["availability_topic"], "doremorwater/status");
    }
}

#[test]
fn names_with_quotes_are_escaped() {
    let m = ctx().switch(&Switch { key: "k", name: "a \"b\" \\ c" });
    let v: serde_json::Value = serde_json::from_slice(&m.payload).unwrap();
    assert_eq!(v["name"], "a \"b\" \\ c");
}
