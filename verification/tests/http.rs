use watercontroller::api::{ApiError, CommandOutcome, SwitchCommand};
use watercontroller::app::App;
use watercontroller::config::Config;
use watercontroller::http_server::{
    body_too_large, captive_probe_paths, clear_alarm, config_stored, endpoint,
    factory_reset_reply, https_wanted, no_factory_reset, post_switch, post_webhook_test,
    put_config, refused_entry, require_auth, scan_failed, unauthorized, Body, ConfigStep, Endpoint,
    Method, Response, Upload, UploadAction, UploadEvent, MAX_BODY,
};
use watercontroller::json_tree::{merge, merge_section, parse_json, Json, Member};
use watercontroller::state::DeviceSnapshot;
use watercontroller::string_map::StringMap;
use watercontroller::webapi;
use watercontroller::webapi::{
    ApiResp, JsonView, Overlaid, PostStep, PutStep, Route, Section, TestRequest,
};
use watercontroller::webhook::{EventKind, WebhookConfig, WEBHOOKS_MAX};

fn secret_cfg() -> Config {
    let mut c = Config::default();
    c.admin_token = "tok".into();
    c.mqtt.password = "mq".into();
    c
}

fn member(name: &str, value: Json) -> Member {
    Member { name: name.into(), value }
}

fn text(s: &str) -> Json {
    Json::Text(s.into())
}

#[test]
fn token_is_asked_for_where_one_is_set() {
    assert!(require_auth("", None));
    assert!(require_auth("", Some("whatever")));
    assert!(require_auth("tok", Some("Bearer tok")));
    assert!(!require_auth("tok", Some("bearer tok")));
    assert!(!require_auth("tok", Some("Bearer tok ")));
    assert!(!require_auth("tok", Some("tok")));
    assert!(!require_auth("tok", None));
    assert_eq!(unauthorized().status, 401);
    assert_eq!(
        unauthorized().body.unwrap(),
        "{\"message\":\"missing or invalid Authorization: Bearer <admin_token>\"}"
    );
}

#[test]
fn endpoints_by_method_and_path() {
    assert_eq!(endpoint(Method::Get, "/"), Some(Endpoint::Index));
    assert_eq!(endpoint(Method::Get, "/api/status"), Some(Endpoint::Status));
    assert_eq!(endpoint(Method::Get, "/api/config"), Some(Endpoint::ReadConfig));
    assert_eq!(endpoint(Method::Put, "/api/config"), Some(Endpoint::WriteConfig));
    assert_eq!(endpoint(Method::Post, "/api/config"), None);
    assert_eq!(endpoint(Method::Post, "/api/switch"), Some(Endpoint::Switch));
    assert_eq!(endpoint(Method::Post, "/api/ota"), Some(Endpoint::Upload));
    assert_eq!(endpoint(Method::Post, "/api/factory_reset"), Some(Endpoint::FactoryReset));
    assert_eq!(endpoint(Method::Get, "/ws/logs"), Some(Endpoint::Logs));
    assert_eq!(endpoint(Method::Get, "/api/diag"), Some(Endpoint::Diagnostics));
    assert_eq!(endpoint(Method::Get, "/api/wifi/scan"), Some(Endpoint::ScanWifi));
    assert_eq!(endpoint(Method::Post, "/api/alarm/clear"), Some(Endpoint::ClearAlarm));
    assert_eq!(endpoint(Method::Post, "/api/webhooks/test"), Some(Endpoint::TestWebhooks));
    assert_eq!(endpoint(Method::Get, "/nowhere"), None);
    for p in captive_probe_paths() {
        assert_eq!(endpoint(Method::Get, p), Some(Endpoint::Probe));
    }
    assert_eq!(captive_probe_paths().len(), 8);
}

#[test]
fn only_changes_are_guarded() {
    assert_eq!(refused_entry(Endpoint::Status, "tok", None), None);
    assert_eq!(refused_entry(Endpoint::Switch, "tok", None).unwrap().status, 401);
    assert_eq!(refused_entry(Endpoint::Switch, "tok", Some("Bearer tok")), None);
    assert_eq!(refused_entry(Endpoint::Upload, "", None), None);
}

#[test]
fn bodies_are_limited() {
    let mut b = Body::new();
    assert!(b.take(&vec![1u8; MAX_BODY]));
    assert!(!b.take(&[2]));
    assert_eq!(b.bytes().len(), 32 * 1024 + 1);
    assert_eq!(body_too_large().status, 413);
}

#[test]
fn configuration_is_replaced_and_keeps_secrets() {
    let mut app = App::new(secret_cfg());
    let mut incoming = app.config().redact_secrets_for_api();
    incoming.timezone = "UTC".into();
    let cfg = match put_config(Ok(incoming), app.config()) {
        ConfigStep::Save(c) => c,
        _ => panic!("not saved"),
    };
    let r = config_stored(&mut app, cfg.clone(), Some("Full"));
    assert_eq!(r.status, 500);
    assert_eq!(r.body.unwrap(), "{\"message\":\"nvs save failed: Full\"}");
    assert_eq!(app.config(), &secret_cfg());
    assert_eq!(config_stored(&mut app, cfg, None), Response { status: 204, body: None });
    assert_eq!(app.config().timezone, "UTC");
    assert_eq!(app.config().admin_token, "tok");
    let r = match put_config(Err("eof".into()), app.config()) {
        ConfigStep::Answer(r) => r,
        _ => panic!("saved"),
    };
    assert_eq!(r.status, 400);
    assert_eq!(r.body.unwrap(), "{\"message\":\"invalid json: eof\"}");
}

#[test]
fn targets_past_the_most_are_left_out() {
    let mut incoming = Config::default();
    for i in 0..6 {
        let mut target = WebhookConfig::default();
        target.url = format!("http://h/{i}");
        incoming.webhooks.push(target);
    }
    let stored = match put_config(Ok(incoming.clone()), &Config::default()) {
        ConfigStep::Save(c) => c,
        _ => panic!("not saved"),
    };
    assert_eq!(stored.webhooks.len(), WEBHOOKS_MAX);
    assert_eq!(stored.webhooks[3].url, "http://h/3");
    match webapi::api_put("config", Ok(incoming.clone()), &Config::default()) {
        PutStep::Save(c) => assert_eq!(c, stored),
        _ => panic!("not saved"),
    }
    assert_eq!(Config::load(Some(Ok(incoming))).unwrap(), stored);
}

#[test]
fn alarms_and_events_over_http() {
    let mut app = App::new(Config::default());
    app.update_state().alarm.active = true;
    assert_eq!(clear_alarm(&mut app), Response { status: 204, body: None });
    assert!(!app.snapshot().alarm.active);
    let t = post_webhook_test(Ok(TestRequest { kind: EventKind::Boot, vars: StringMap::new() }));
    assert_eq!(t.response, Response { status: 200, body: Some("{\"result\":\"ok\"}".into()) });
    assert_eq!(t.event.unwrap().kind, EventKind::Boot);
    let t = post_webhook_test(Err("eof".into()));
    assert_eq!(t.response.status, 400);
    assert!(t.event.is_none());
}

#[test]
fn secrets_are_asked_for_in_the_query() {
    assert!(webapi::wants_all("/api/config?all=1"));
    assert!(webapi::wants_all("/api/config?x=2&all"));
    assert!(!webapi::wants_all("/api/config"));
    assert!(!webapi::wants_all("/api/config?"));
    assert!(!webapi::wants_all("/api/config?allow=1"));
    assert!(!webapi::wants_all("/all?x=all"));
}

#[test]
fn switches_answer_busy_in_a_sequence() {
    let mut app = App::new(Config::default());
    let on = SwitchCommand::WaterControl { on: true };
    let r = post_switch(&mut app, 0, Ok(on));
    assert_eq!(r, Response { status: 200, body: Some("{\"result\":\"ok\"}".into()) });
    app.tick(0);
    let r = post_switch(&mut app, 10, Ok(SwitchCommand::WaterControl { on: false }));
    assert_eq!(r.status, 409);
    assert_eq!(
        r.body.unwrap(),
        "{\"result\":\"busy\",\"reason\":\"valve sequence in progress\"}"
    );
    assert_eq!(post_switch(&mut app, 10, Err("x".into())).status, 400);
}

#[test]
fn errors_and_outcomes_as_json() {
    assert_eq!(ApiError::new("a \"b\"").to_json(), "{\"message\":\"a \\\"b\\\"\"}");
    assert_eq!(CommandOutcome::Accepted.to_json(), "{\"result\":\"ok\"}");
    assert_eq!(factory_reset_reply(None), Response { status: 202, body: None });
    assert_eq!(factory_reset_reply(Some("io")).status, 500);
    assert_eq!(no_factory_reset().status, 501);
    assert_eq!(scan_failed("busy").status, 503);
    assert!(https_wanted(true, "c", "k"));
    assert!(!https_wanted(false, "c", "k"));
    assert!(!https_wanted(true, "c", ""));
    assert!(!https_wanted(true, "", "k"));
}

#[test]
fn upload_of_an_image() {
    let mut u = Upload::new();
    assert_eq!(u.step(UploadEvent::Begun), UploadAction::Receive);
    assert_eq!(u.step(UploadEvent::Received(4096)), UploadAction::Write);
    assert_eq!(u.step(UploadEvent::Written), UploadAction::Receive);
    assert_eq!(u.step(UploadEvent::Received(10)), UploadAction::Write);
    assert_eq!(u.step(UploadEvent::Written), UploadAction::Receive);
    assert_eq!(u.step(UploadEvent::Received(0)), UploadAction::Complete);
    assert_eq!(
        u.step(UploadEvent::Completed),
        UploadAction::Finish {
            abort: false,
            response: Response {
                status: 202,
                body: Some("{\"bytes\":4106,\"result\":\"ok\"}".into())
            },
            reboot: true
        }
    );
}

fn failed(u: &mut Upload, e: UploadEvent) -> (bool, u16, String) {
    match u.step(e) {
        UploadAction::Finish { abort, response, reboot } => {
            assert!(!reboot);
            (abort, response.status, response.body.unwrap())
        }
        _ => panic!("not over"),
    }
}

#[test]
fn upload_failures() {
    let mut u = Upload::new();
    assert_eq!(
        failed(&mut u, UploadEvent::InitFailed("e".into())),
        (false, 500, "{\"message\":\"ota init: e\"}".to_string())
    );
    assert_eq!(
        failed(&mut u, UploadEvent::BeginFailed("e".into())),
        (false, 500, "{\"message\":\"ota initiate: e\"}".to_string())
    );
    assert_eq!(
        failed(&mut u, UploadEvent::Received(0)),
        (true, 400, "{\"message\":\"empty image\"}".to_string())
    );
    u.step(UploadEvent::Received(7));
    u.step(UploadEvent::Written);
    u.step(UploadEvent::Received(5));
    assert_eq!(
        failed(&mut u, UploadEvent::WriteFailed("e".into())),
        (true, 500, "{\"message\":\"ota write @ 7: e\"}".to_string())
    );
    assert_eq!(
        failed(&mut u, UploadEvent::ReceiveFailed("e".into())),
        (true, 500, "{\"message\":\"ota recv @ 7: e\"}".to_string())
    );
    assert_eq!(
        failed(&mut u, UploadEvent::CompleteFailed("e".into())),
        (false, 500, "{\"message\":\"ota complete: e\"}".to_string())
    );
}

#[test]
fn routes_of_the_small_interface() {
    let route = webapi::route;
    assert_eq!(route(Method::Get, "/"), Some(Route::Index));
    assert_eq!(route(Method::Get, "/ws/logs"), Some(Route::Logs));
    assert_eq!(route(Method::Post, "/api/ota"), Some(Route::Upload));
    assert_eq!(route(Method::Get, "/api/ota"), None);
    assert_eq!(route(Method::Get, "/api/config"), Some(Route::Read("config".into())));
    assert_eq!(route(Method::Put, "/api/config"), Some(Route::Write("config".into())));
    assert_eq!(route(Method::Post, "/api/switch"), Some(Route::Act("switch".into())));
    assert_eq!(route(Method::Get, "/api/config/wifi"), Some(Route::ReadSection("wifi".into())));
    assert_eq!(route(Method::Put, "/api/config/wifi"), Some(Route::WriteSection("wifi".into())));
    assert_eq!(route(Method::Post, "/api/config/wifi"), None);
    assert_eq!(route(Method::Get, "/api/wifi/scan"), Some(Route::ReadWifi("scan".into())));
    assert_eq!(
        route(Method::Post, "/api/wifi/reconnect"),
        Some(Route::ActWifi("reconnect".into()))
    );
    assert_eq!(route(Method::Post, "/api/alarm/clear"), Some(Route::ActAlarm("clear".into())));
    assert_eq!(route(Method::Get, "/api/alarm/clear"), None);
    assert_eq!(
        route(Method::Post, "/api/webhooks/test"),
        Some(Route::ActWebhooks("test".into()))
    );
    assert_eq!(route(Method::Get, "/api/config/a/b"), None);
    assert_eq!(route(Method::Get, "/other"), None);
    assert_eq!(route(Method::Get, "api/config"), None);
    let longest = "123456789012345678901234";
    assert_eq!(
        route(Method::Get, "/api/123456789012345678901234"),
        Some(Route::Read(longest.into()))
    );
    assert_eq!(route(Method::Get, "/api/1234567890123456789012345"), None);
}

#[test]
fn small_interface_asks_for_the_token() {
    let write = Route::WriteSection("wifi".into());
    assert_eq!(webapi::refused_route(&write, "tok", None), Some(unauthorized()));
    assert_eq!(webapi::refused_route(&write, "tok", Some("Bearer no")), Some(unauthorized()));
    assert_eq!(webapi::refused_route(&write, "tok", Some("Bearer tok")), None);
    assert_eq!(webapi::refused_route(&write, "", None), None);
    assert_eq!(webapi::refused_route(&Route::Upload, "tok", None), Some(unauthorized()));
    assert_eq!(webapi::refused_route(&Route::Read("config".into()), "tok", None), None);
}

#[test]
fn backup_is_restored() {
    let app = App::new(secret_cfg());
    let dump = match webapi::api_get("config", &app, true, 5, 100, 28) {
        ApiResp::Stream(JsonView::FullConfig(c)) => c,
        _ => panic!("no configuration"),
    };
    let fresh = secret_cfg().redact_secrets_for_api();
    match webapi::api_put("config", Ok(dump), &fresh) {
        PutStep::Save(c) => assert_eq!(c, secret_cfg()),
        _ => panic!("not saved"),
    }
}

#[test]
fn sections_have_names() {
    assert_eq!(Section::parse("wifi"), Some(Section::Wifi));
    assert_eq!(Section::parse("flow_alarm"), Some(Section::FlowAlarm));
    assert_eq!(Section::parse("webhooks"), Some(Section::Webhooks));
    assert_eq!(Section::parse("Wifi"), None);
}

#[test]
fn reading_over_the_small_interface() {
    let app = App::new(secret_cfg());
    match webapi::api_get("diag", &app, false, 5, 100, 28) {
        ApiResp::Json(s) => {
            assert_eq!(
                s,
                "{\"uptime_s\":5,\"heap\":{\"total_free_bytes\":100,\"total_used_bytes\":28,\
\"total_allocated_bytes\":28,\"capacity_bytes\":128,\"min_ever_free_bytes\":0},\
\"reset_reason\":\"unknown\",\"fw\":\"wc-nostd\"}"
            );
            let v: serde_json::Value = serde_json::from_str(&s).unwrap();
            assert_eq!(v["heap"]["capacity_bytes"], 128);
        }
        _ => panic!("no text"),
    }
    match webapi::api_get("status", &app, false, 5, 100, 28) {
        ApiResp::Status(s) => assert_eq!(s, DeviceSnapshot::default()),
        _ => panic!("no status"),
    }
    match webapi::api_get("config", &app, false, 5, 100, 28) {
        ApiResp::Stream(JsonView::RedactedConfig(c)) => assert_eq!(c.admin_token, ""),
        _ => panic!("no config"),
    }
    match webapi::api_get("config", &app, true, 5, 100, 28) {
        ApiResp::Stream(JsonView::FullConfig(c)) => assert_eq!(c.admin_token, "tok"),
        _ => panic!("no config"),
    }
    match webapi::api_get("nothing", &app, true, 5, 100, 28) {
        ApiResp::Json(s) => assert_eq!(s, "{\"error\":\"unknown endpoint\"}"),
        _ => panic!("no text"),
    }
}

#[test]
fn writing_over_the_small_interface() {
    let mut app = App::new(secret_cfg());
    let blank = app.config().redact_secrets_for_api();
    let cfg = match webapi::api_put("config", Ok(blank), app.config()) {
        PutStep::Save(c) => c,
        _ => panic!("not saved"),
    };
    assert_eq!(cfg, secret_cfg());
    assert_eq!(
        webapi::finish_put(&mut app, secret_cfg(), Some("Full")),
        "{\"error\":\"nvs save failed: Full\"}"
    );
    assert_eq!(webapi::finish_put(&mut app, cfg, None), "{\"result\":\"ok\"}");
    match webapi::api_put("config", Err("eof".into()), app.config()) {
        PutStep::Answer(s) => assert_eq!(s, "{\"error\":\"bad config json: eof\"}"),
        _ => panic!("saved"),
    }
    match webapi::api_put("x", Err("eof".into()), app.config()) {
        PutStep::Answer(s) => assert_eq!(s, webapi::NOT_FOUND),
        _ => panic!("saved"),
    }
}

#[test]
fn acting_over_the_small_interface() {
    let mut app = App::new(Config::default());
    assert_eq!(
        webapi::api_post("switch", &mut app, 0, Ok(SwitchCommand::Sprinkler2 { on: true })),
        PostStep::Answer("{\"result\":\"ok\"}".into())
    );
    app.tick(0);
    assert!(app.snapshot().switches.sprinkler_2);
    assert_eq!(
        webapi::api_post("switch", &mut app, 0, Err("eof".into())),
        PostStep::Answer("{\"error\":\"bad switch command: eof\"}".into())
    );
    assert_eq!(webapi::api_post("factory_reset", &mut app, 0, Err("".into())), PostStep::Erase);
    assert_eq!(
        webapi::api_post("x", &mut app, 0, Err("".into())),
        PostStep::Answer(webapi::NOT_FOUND.into())
    );
    let r = webapi::finish_erase(None);
    assert!(r.reboot);
    assert_eq!(r.answer, "{\"result\":\"ok\",\"detail\":\"rebooting\"}");
    let r = webapi::finish_erase(Some("Io"));
    assert!(!r.reboot);
    assert_eq!(r.answer, "{\"error\":\"erase failed: Io\"}");
    app.update_state().alarm.active = true;
    assert!(matches!(webapi::alarm_post("clear", &mut app), ApiResp::NoContent));
    assert!(!app.snapshot().alarm.active);
    assert!(matches!(webapi::alarm_post("x", &mut app), ApiResp::Json(_)));
    assert!(matches!(webapi::wifi_post("reconnect"), ApiResp::NoContent));
    assert_eq!(webapi::wifi_get("scan"), "{\"networks\":[]}");
    assert_eq!(webapi::wifi_get("x"), webapi::NOT_FOUND);
}

#[test]
fn test_events_carry_their_variables() {
    let mut vars = StringMap::new();
    vars.insert("flow".to_string(), "12".to_string());
    let r = webapi::webhooks_post("test", Ok(TestRequest { kind: EventKind::Boot, vars }));
    assert_eq!(r.answer, "{\"result\":\"ok\"}");
    let e = r.event.unwrap();
    assert_eq!(e.kind, EventKind::Boot);
    assert_eq!(e.vars.get("flow"), Some(&"12".to_string()));
    let r = webapi::webhooks_post("test", Err("eof".into()));
    assert_eq!(r.answer, "{\"error\":\"bad json: eof\"}");
    assert!(r.event.is_none());
    assert!(webapi::webhooks_post("x", Err("eof".into())).event.is_none());
}

#[test]
fn sections_are_read_and_written() {
    let app = App::new(secret_cfg());
    match webapi::config_section_get("mqtt", &app) {
        ApiResp::Stream(JsonView::Section(c, Section::Mqtt)) => assert_eq!(c.mqtt.password, ""),
        _ => panic!("no section"),
    }
    match webapi::config_section_get("x", &app) {
        ApiResp::Json(s) => assert_eq!(s, webapi::UNKNOWN_SECTION),
        _ => panic!("a section"),
    }
    let full = || parse_json(b"{\"mqtt\":{\"port\":1883,\"password\":\"mq\"},\"zone\":\"UTC\"}").ok();
    let answer = |full: Option<Json>, section: &str, body: &[u8]| {
        match webapi::overlay_section(full, section, body) {
            Overlaid::Answer(s) => s,
            Overlaid::Merged(j) => format!("{j:?}"),
        }
    };
    assert_eq!(
        answer(full(), "mqtt", b"{"),
        "{\"error\":\"bad json: EOF while parsing an object at line 1 column 1\"}"
    );
    assert_eq!(answer(None, "mqtt", b"{}"), "{\"error\":\"config serialize failed\"}");
    assert_eq!(answer(full(), "x", b"{}"), webapi::UNKNOWN_SECTION);
    let merged = match webapi::overlay_section(full(), "mqtt", b"{\"password\":\"\",\"port\":8883}") {
        Overlaid::Merged(j) => j,
        _ => panic!("an answer"),
    };
    assert_eq!(
        Some(merged),
        parse_json(b"{\"mqtt\":{\"port\":8883,\"password\":\"mq\"},\"zone\":\"UTC\"}").ok()
    );
    // A blank body leaves a section that is a text alone.
    match webapi::overlay_section(full(), "zone", b"\"\"") {
        Overlaid::Merged(j) => assert_eq!(Some(j), full()),
        _ => panic!("an answer"),
    }
    match webapi::config_section_put(Err("e".into()), app.config()) {
        PutStep::Answer(s) => assert_eq!(s, "{\"error\":\"invalid config: e\"}"),
        _ => panic!("saved"),
    }
    let blank = app.config().redact_secrets_for_api();
    match webapi::config_section_put(Ok(blank), app.config()) {
        PutStep::Save(c) => assert_eq!(c.mqtt.password, "mq"),
        _ => panic!("not saved"),
    }
}

#[test]
fn values_are_parsed() {
    assert_eq!(
        parse_json(b" [null, true, 12, -1.5, \"a\\n\", {\"k\":[]}] "),
        Ok(Json::List(vec![
            Json::Null,
            Json::Bool(true),
            Json::Number("12".into()),
            Json::Number("-1.5".into()),
            text("a\n"),
            Json::Object(vec![member("k", Json::List(vec![]))]),
        ]))
    );
    assert!(parse_json(b"{} x").is_err());
    assert!(parse_json(&[0xff]).is_err());
}

#[test]
fn partial_values_are_laid_over_whole_ones() {
    let mut target = Json::Object(vec![
        member("a", Json::Number("1".into())),
        member("secret", text("s")),
        member("deep", Json::Object(vec![member("x", Json::Bool(true)), member("y", Json::Null)])),
    ]);
    let overlay = Json::Object(vec![
        member("secret", text("")),
        member("a", Json::List(vec![text("")])),
        member("deep", Json::Object(vec![member("y", text("new"))])),
        member("b", text("added")),
    ]);
    merge(&mut target, &overlay);
    assert_eq!(
        target,
        Json::Object(vec![
            member("a", Json::List(vec![text("")])),
            member("secret", text("s")),
            member(
                "deep",
                Json::Object(vec![member("x", Json::Bool(true)), member("y", text("new"))])
            ),
            member("b", text("added")),
        ])
    );
    // Where one of the two is no object the overlay wins, unless it is blank.
    let mut t = text("UTC");
    merge(&mut t, &text(""));
    assert_eq!(t, text("UTC"));
    merge(&mut t, &Json::Null);
    assert_eq!(t, Json::Null);
}

#[test]
fn one_section_of_a_value_is_laid_over() {
    let full = Json::Object(vec![member("a", text("1")), member("b", text("2"))]);
    let r = merge_section(full.clone(), "b", &text("3")).unwrap();
    assert_eq!(r, Json::Object(vec![member("a", text("1")), member("b", text("3"))]));
    assert!(merge_section(full, "c", &text("3")).is_none());
    assert!(merge_section(Json::Null, "c", &text("3")).is_none());
}
