
use watercontroller::string_map::StringMap;
use watercontroller::webhook::{render_template, EventKind, DEFAULT_BODY_TEMPLATE, RecordingDispatcher, WebhookDispatcher, WebhookEvent};

#[test]
fn render_substitutes_known_vars() {
    let mut vars = StringMap::new();
    vars.insert("event".to_string(), "flow_alarm.fire".to_string());
    vars.insert("flow_lph".to_string(), "120.5".to_string());
    let out = render_template(
        r#"{"text":"{{event}} at {{flow_lph}} L/h"}"#,
        &vars,
    );
    assert_eq!(out, r#"{"text":"flow_alarm.fire at 120.5 L/h"}"#);
}

#[test]
fn render_leaves_unknown_placeholders_intact() {
    let mut vars = StringMap::new();
    vars.insert("event".to_string(), "boot".to_string());
    let out = render_template("{{event}} {{not_a_var}}", &vars);
    // Misspellings surface to the receiver instead of being silently dropped.
    assert_eq!(out, "boot {{not_a_var}}");
}

#[test]
fn render_handles_repeated_placeholders() {
    let mut vars = StringMap::new();
    vars.insert("device".to_string(), "doremorwater".to_string());
    let out = render_template("{{device}} / {{device}}", &vars);
    assert_eq!(out, "doremorwater / doremorwater");
}

#[test]
fn event_kind_serializes_to_dotted_form() {
    let s = EventKind::FlowAlarmFire.to_json();
    assert_eq!(s, "\"flow_alarm.fire\"");
    let s = EventKind::OtaRollback.to_json();
    assert_eq!(s, "\"ota.rollback\"");
}

#[test]
fn recording_dispatcher_captures_in_order() {
    let mut d = RecordingDispatcher::default();
    d.dispatch(WebhookEvent::new(EventKind::Boot));
    d.dispatch(WebhookEvent::new(EventKind::FlowAlarmFire).with("flow_lph", "200"));
    let evs = d.take();
    assert_eq!(evs.len(), 2);
    assert_eq!(evs[0].kind, EventKind::Boot);
    assert_eq!(evs[1].kind, EventKind::FlowAlarmFire);
    assert_eq!(evs[1].vars.get("flow_lph").unwrap(), "200");
}

#[test]
fn every_event_gets_the_standard_variables() {
    let event = WebhookEvent::new(EventKind::Boot).with("device", "mine").with("extra", "x");
    let e = event.complete("doremorwater", "2026-05-10T08:00:00Z", 61);
    assert_eq!(e.vars.len(), 6);
    assert_eq!(e.vars.get("event").unwrap(), "boot");
    assert_eq!(e.vars.get("event_label").unwrap(), "Device booted");
    assert_eq!(e.vars.get("iso_ts").unwrap(), "2026-05-10T08:00:00Z");
    assert_eq!(e.vars.get("device").unwrap(), "mine");
    assert_eq!(e.vars.get("uptime_s").unwrap(), "61");
    assert_eq!(
        render_template(DEFAULT_BODY_TEMPLATE, &e.vars),
        "{\"event\":\"boot\",\"label\":\"Device booted\",\"device\":\"mine\",\
         \"ts\":\"2026-05-10T08:00:00Z\",\"uptime_s\":61}"
    );
}
