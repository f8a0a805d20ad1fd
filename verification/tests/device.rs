use watercontroller::boot::{
    boots_into_ap, c_string_bytes, certificate_serial, mark_image_valid, missing_certificate,
    read_boot_mode, reset_reason_label, text_before_zero, write_boot_mode, BootMode, ResetReason,
};
use watercontroller::dotenv;
use watercontroller::nvs::{FlashKv, REGION_LEN};
use watercontroller::ota::{
    inactive_slot, AppSlot, OtaAction, OtaEvent, OtaReport, OtaSession, Partition,
};
use watercontroller::order::stable_order;
use watercontroller::placeholders::{PlaceholderAdc, PlaceholderPcnt};
use watercontroller::reading::Reading;
use watercontroller::sensors::{
    battery_due_at_second, minute_due_at_second, PulseTotal, SampleWindow, SensorClock,
};
use watercontroller::sntp::{
    epoch_at_boot, parse_reply, pause_after, request_packet, wall_clock, SyncError,
};
use watercontroller::state::DeviceSnapshot;
use watercontroller::status;
use watercontroller::string_map::StringMap;
use watercontroller::text;
use watercontroller::traits::{Adc, NvsError, PulseCounter, WifiCreds, WifiState};
use watercontroller::wifi::{
    auth_for_password, auth_label, captive_redirect, gateway_alive, known_ssid_visible,
    link_verdict, phase_after_attempts, ApWait, AuthMethod, GatewayProbe, IpWait, IpWaitAction,
    LinkProbe, LinkVerdict, Station, StationAction, SupervisorPhase, WifiSupervisor,
};

fn region(bytes: Vec<u8>) -> Vec<u8> {
    let mut r = bytes;
    r.resize(REGION_LEN, 0xff);
    r
}

#[test]
fn store_survives_a_restart() {
    let mut kv = FlashKv::new(&vec![0xff; REGION_LEN]);
    assert_eq!(kv.get("wc.cfg"), None);
    kv.set("wc.cfg", b"{}").unwrap();
    let blob = kv.set("wc.valve", &[1]).unwrap();
    let again = FlashKv::new(&region(blob));
    assert_eq!(again.get("wc.cfg"), Some(b"{}".to_vec()));
    assert_eq!(again.get("wc.valve"), Some(vec![1]));
    let mut again = again;
    let blob = again.remove("wc.cfg").unwrap();
    let third = FlashKv::new(&region(blob));
    assert_eq!(third.get("wc.cfg"), None);
    assert_eq!(third.get("wc.valve"), Some(vec![1]));
}

#[test]
fn region_has_a_fixed_layout() {
    let mut m = StringMap::new();
    m.insert("k".to_string(), vec![7u8, 8, 9]);
    let blob = FlashKv::flush(&m).unwrap();
    assert_eq!(
        blob,
        vec![
            0x57, 0x43, 0x4B, 0x56, 1, 0, 0, 0, 1, 0, 0, 0, 1, 0, 0, 0, 3, 0, 0, 0, b'k', 0, 0, 0, 7,
            8, 9, 0
        ]
    );
    let back = FlashKv::load(&region(blob.clone())).unwrap();
    assert_eq!(back.get("k"), Some(&vec![7u8, 8, 9]));
    let mut bad = region(blob.clone());
    bad[0] = 0;
    assert!(FlashKv::load(&bad).is_none());
    let mut newer = region(blob);
    newer[4] = 2;
    assert!(FlashKv::load(&newer).is_none());
}

#[test]
fn keys_that_are_no_text_spoil_the_region() {
    let mut m = StringMap::new();
    m.insert("k".to_string(), vec![1u8]);
    let mut blob = FlashKv::flush(&m).unwrap();
    blob[20] = 0xff;
    assert!(FlashKv::load(&region(blob)).is_none());
}

#[test]
fn full_store_refuses() {
    let mut kv = FlashKv::new(&vec![0xff; REGION_LEN]);
    kv.set("a", &[1]).unwrap();
    assert_eq!(kv.set("big", &vec![0; REGION_LEN]), Err(NvsError::Full));
    assert_eq!(kv.get("a"), Some(vec![1]));
}

#[test]
fn three_rounds_lead_to_the_access_point() {
    let mut s = Station::new();
    assert_eq!(s.next_action(0), StationAction::Idle);
    let mut tried = vec![];
    loop {
        match s.next_action(2) {
            StationAction::Join { index } => {
                tried.push(index);
                s.join_failed(2);
            }
            StationAction::FallBack => break,
            StationAction::Idle => panic!("idle"),
        }
    }
    assert_eq!(tried, vec![0, 1, 0, 1, 0, 1]);
}

#[test]
fn links_are_probed() {
    let mut p = LinkProbe::new();
    assert!(p.probe(true, true));
    assert!(gateway_alive(GatewayProbe::Refused));
    assert!(!gateway_alive(GatewayProbe::Failed));
    assert_eq!(link_verdict(true, false, false), LinkVerdict::Stay);
    assert_eq!(link_verdict(false, false, false), LinkVerdict::Down);
    assert_eq!(link_verdict(true, true, false), LinkVerdict::BeaconLost);
    assert_eq!(link_verdict(true, false, true), LinkVerdict::Rescan);
    assert_eq!(phase_after_attempts(false, 0), SupervisorPhase::ApPermanent);
    assert_eq!(phase_after_attempts(false, 2), SupervisorPhase::ApFallback);
    assert_eq!(phase_after_attempts(true, 2), SupervisorPhase::Connected);
    let mut w = ApWait::new();
    let mut steps = 1;
    while !w.step() {
        steps += 1;
        assert!(steps < 10_000);
    }
}

#[test]
fn known_networks_are_found_in_a_scan() {
    let nets = vec![WifiCreds { ssid: "home".into(), password: "x".into() }];
    assert!(known_ssid_visible(&nets, &vec!["a".into(), "home".into()]));
    assert!(!known_ssid_visible(&nets, &vec!["a".into()]));
    let mut sup = WifiSupervisor::new(nets.clone());
    assert!(sup.rescan());
    assert_eq!(sup.begin_round(), nets);
    assert!(!sup.rescan());
    sup.reconnect();
    assert!(sup.rescan());
}

#[test]
fn addresses_are_waited_for() {
    let mut w = IpWait::new(2);
    assert_eq!(w.step(false, None), IpWaitAction::WaitForLink);
    let mut over = false;
    for _ in 0..300 {
        match w.step(false, None) {
            IpWaitAction::NoLink => {
                over = true;
                break;
            }
            a => assert_eq!(a, IpWaitAction::WaitForLink),
        }
    }
    assert!(over);
}

#[test]
fn redirect_only_from_the_access_point() {
    let ap = WifiState::ApMode { ssid: "s".into(), ip: "192.168.71.1".into() };
    assert_eq!(captive_redirect(&ap), Some([192, 168, 71, 1]));
    let bad = WifiState::ApMode { ssid: "s".into(), ip: "192.168.71".into() };
    assert_eq!(captive_redirect(&bad), None);
    let sta = WifiState::Connected { ssid: "s".into(), ip: "10.0.0.1".into() };
    assert_eq!(captive_redirect(&sta), None);
}

#[test]
fn authentication_labels() {
    assert_eq!(auth_label(None), "unknown");
    assert_eq!(auth_label(Some(AuthMethod::Wep)), "wep");
    assert_eq!(auth_for_password(""), AuthMethod::Open);
    assert!(auth_for_password("x") != AuthMethod::Open);
}

fn app_slot(number: u8, offset: u32) -> Partition {
    Partition { slot: Some(AppSlot::Ota { number }), offset, len: 0x1000 }
}

#[test]
fn images_go_to_the_other_slot() {
    let table = vec![app_slot(0, 0x10000), app_slot(1, 0x20000)];
    assert_eq!(inactive_slot(&table, Some(app_slot(0, 0x10000))), Some(app_slot(1, 0x20000)));
    assert_eq!(inactive_slot(&table, Some(app_slot(1, 0x20000))), Some(app_slot(0, 0x10000)));
}

#[test]
fn image_is_written_in_sectors_and_activated() {
    let mut s = OtaSession::start(70_000, Ok(Partition { len: 0x20000, ..app_slot(1, 0x20000) })).unwrap();
    let mut written = vec![];
    let mut a = s.first_action();
    let mut rounds = 0;
    loop {
        rounds += 1;
        assert!(rounds < 1000);
        a = match a {
            OtaAction::Read { len, .. } => s.step(OtaEvent::Read { bytes: len }),
            OtaAction::Write { offset, len } => {
                written.push((offset, len));
                s.step(OtaEvent::Written)
            }
            OtaAction::Activate => s.step(OtaEvent::Activated),
            OtaAction::Finish { report } => {
                assert!(report.ok);
                break;
            }
        };
    }
    assert_eq!(written[0].0, 0x20000);
    assert_eq!(written[1].0, 0x21000);
    assert_eq!(written.len(), 18);
    assert!(written[..17].iter().all(|(_, len)| *len == 4096));
    assert_eq!(written[17], (0x20000 + 17 * 4096, 70_000 - 17 * 4096));
}

#[test]
fn images_that_do_not_fit_are_refused() {
    assert!(OtaSession::start(0, Ok(app_slot(1, 0))).is_err());
    assert!(OtaSession::start(0x20001, Ok(Partition { len: 0x20000, ..app_slot(1, 0) })).is_err());
    assert!(OtaSession::start(0x20000, Ok(Partition { len: 0x20000, ..app_slot(1, 0) })).is_ok());
    let e = OtaSession::start(70_000, Err("no slot".into())).unwrap_err();
    assert_eq!(e.detail, "no inactive OTA slot: no slot");
    assert_eq!(OtaReport::err("x").to_json(), "{\"error\":\"x\"}");
}

#[test]
fn interrupted_upload_ends_without_activation() {
    let mut s = OtaSession::start(70_000, Ok(Partition { len: 0x20000, ..app_slot(1, 0) })).unwrap();
    match s.step(OtaEvent::ReadFailed) {
        OtaAction::Finish { report } => assert!(!report.ok),
        _ => panic!("goes on"),
    }
}

#[test]
fn time_replies() {
    let p = request_packet();
    assert_eq!(p[0], 0x23);
    assert!(p[1..].iter().all(|b| *b == 0));
    let mut r = [0u8; 48];
    let secs: u32 = 2_208_988_800u32.wrapping_add(1_778_803_200);
    r[40..44].copy_from_slice(&secs.to_be_bytes());
    assert_eq!(parse_reply(&r), Ok(1_778_803_200));
    assert_eq!(parse_reply(&r[..47]), Err(SyncError::Short));
    assert_eq!(parse_reply(&[0u8; 48]), Err(SyncError::Pre1970));
    let mut early = [0u8; 48];
    early[40..44].copy_from_slice(&(2_208_988_800u32 + 10).to_be_bytes());
    assert_eq!(parse_reply(&early), Err(SyncError::Insane));
    let at_boot = epoch_at_boot(1_778_803_200, 100);
    assert_eq!(wall_clock(at_boot, 160), 1_778_803_260);
    assert!(pause_after(true) > pause_after(false));
}

#[test]
fn boot_modes_are_written_on_change_only() {
    assert_eq!(read_boot_mode(&None), BootMode::Sta);
    assert_eq!(read_boot_mode(&Some(vec![1, 2])), BootMode::Ap);
    assert_eq!(read_boot_mode(&Some(vec![])), BootMode::Sta);
    assert_eq!(write_boot_mode(&None, BootMode::Sta), None);
    assert_eq!(write_boot_mode(&None, BootMode::Ap), Some(1));
    assert_eq!(write_boot_mode(&Some(vec![1]), BootMode::Sta), Some(0));
    assert!(boots_into_ap(&vec![], &None));
    let nets = vec![WifiCreds { ssid: "a".into(), password: "".into() }];
    assert!(!boots_into_ap(&nets, &None));
    assert!(boots_into_ap(&nets, &Some(vec![1])));
}

#[test]
fn certificates_and_c_strings() {
    assert_eq!(missing_certificate("", "", "dw"), Some("dw.local".to_string()));
    assert_eq!(missing_certificate("", "", ""), Some("doremorwater".to_string()));
    assert_eq!(missing_certificate("c", "", "dw"), None);
    assert_eq!(certificate_serial([0xff; 16])[0] & 0x80, 0);
    assert_eq!(text_before_zero(b"ab\0cd"), Some("ab".to_string()));
    assert_eq!(c_string_bytes("ab"), b"ab\0".to_vec());
    assert_eq!(c_string_bytes("ab\0"), b"ab\0".to_vec());
    assert!(mark_image_valid(false, 60_000, 20_480, true));
    assert!(!mark_image_valid(false, 59_999, 20_480, true));
    assert!(!mark_image_valid(true, 60_000, 20_480, true));
    assert_eq!(reset_reason_label(ResetReason::Brownout), "brownout");
}

#[test]
fn measurements_fall_due() {
    let mut c = SensorClock::new(3);
    let d = c.step(1_000);
    assert!(d.battery && d.pressure && d.flow);
    let s = c.flow(1_000, 13);
    assert_eq!(s.pulses, 10);
    let d = c.step(2_000);
    assert!(!d.battery && !d.pressure && !d.flow);
    let d = c.step(61_000);
    assert!(!d.battery && d.pressure && d.flow);
    assert!(battery_due_at_second(0));
    assert!(minute_due_at_second(60));
    assert!(!minute_due_at_second(61));
}

#[test]
fn sample_window_keeps_the_last_fifteen() {
    let mut w = SampleWindow::new();
    for i in 0..20 {
        w.push(Reading { bits: i });
    }
    assert_eq!(w.samples().len(), 15);
    assert_eq!(w.samples()[0].bits, 5);
}

#[test]
fn pulse_counter_wraps() {
    let mut p = PulseTotal::new(32_760);
    p.read(32_767);
    p.read(-32_768);
    assert_eq!(p.total, 8);
    let mut adc = PlaceholderAdc(1130);
    assert_eq!(adc.read_raw(), 1130);
    assert_eq!(PlaceholderPcnt::default().count(), 0);
}

#[test]
fn reports_keep_the_first_version() {
    let mut s = DeviceSnapshot::default();
    status::refresh(&mut s, 10_000, 5, 4, "power-on", "1");
    status::refresh(&mut s, 20_000, 6, 3, "panic", "2");
    assert_eq!(s.firmware_version, "1");
    assert_eq!(s.diagnostics.reset_reason, Some("power-on".to_string()));
    assert_eq!(s.diagnostics.free_heap_bytes, Some(6));
    assert_eq!(s.uptime_ms, 20_000);
    assert_eq!(status::alive_line(61_999, 5, 4), "alive (uptime 61s, heap free 5B, min 4B)");
}

#[test]
fn heartbeat_replaces_the_link() {
    let mut s = DeviceSnapshot::default();
    let wifi = status::link_state(Some("10.0.0.9"), "", "fallback");
    status::heartbeat(
        &mut s,
        status::Beat {
            secs: 30,
            free: 1000,
            min_free: status::lower_mark(usize::MAX, 900),
            reset_reason: "sw".into(),
            wifi,
            rssi: -61,
            mqtt_up: true,
        },
    );
    assert_eq!(s.uptime_ms, 30_000);
    assert_eq!(s.network.wifi_rssi_dbm, Some(-61));
    assert_eq!(
        s.network.wifi,
        Some(WifiState::Connected { ssid: "fallback".into(), ip: "10.0.0.9".into() })
    );
    assert_eq!(s.diagnostics.min_free_heap_bytes, Some(900));
    assert_eq!(status::link_state(None, "a", "b"), WifiState::Disconnected);
    assert_eq!(
        status::beat_line(30, 1, 2, None),
        "alive uptime=30s heap_free=1 heap_used=2 ip=<none>"
    );
    let mut w = DeviceSnapshot::default();
    status::refresh_workstation(&mut w, 5, "0.1.0");
    assert_eq!(
        w.network.wifi,
        Some(WifiState::Connected { ssid: "host-dev".into(), ip: "127.0.0.1".into() })
    );
}

#[test]
fn settings_lines() {
    let a = dotenv::forward("  SSID = \"my net\" ").unwrap();
    assert_eq!((a.key.as_str(), a.value.as_str()), ("WC_WIFI_SSID", "my net"));
    let a = dotenv::forward("PASSWORD='a=b'").unwrap();
    assert_eq!((a.key.as_str(), a.value.as_str()), ("WC_WIFI_PASSWORD", "a=b"));
    assert!(dotenv::forward("# SSID=x").is_none());
    assert!(dotenv::forward("TOKEN=x").is_none());
    assert!(dotenv::forward("SSID").is_none());
    assert!(dotenv::forward("").is_none());
    let a = dotenv::parse_line(" MQTT_HOST = 10.0.0.1 ").unwrap();
    assert_eq!((a.key.as_str(), a.value.as_str()), ("MQTT_HOST", "10.0.0.1"));
    assert_eq!(dotenv::strip_quotes("\"'"), "");
}

#[test]
fn sorting_is_stable() {
    assert_eq!(stable_order(&vec![3, 1, 3, 2, 1]), vec![1, 4, 3, 0, 2]);
    assert_eq!(stable_order(&vec![]), Vec::<usize>::new());
}

#[test]
fn text_helpers() {
    assert_eq!(text::decimal_u64(0), "0");
    assert_eq!(text::decimal_u64(u64::MAX), "18446744073709551615");
    assert_eq!(text::signed_i32(i32::MIN), "-2147483648");
    assert_eq!(text::with_commas(0), "0");
    assert_eq!(text::with_commas(1_002_003), "1,002,003");
    assert_eq!(text::trim(" \t a b\u{a0} \n"), "a b");
    assert_eq!(text::words(" a \u{3000} bc\td "), vec!["a", "bc", "d"]);
    assert_eq!(text::replace_all("aXbXX", "X", "--"), "a--b----");
    assert_eq!(text::split("1.2..3", '.'), vec!["1", "2", "", "3"]);
    assert_eq!(text::to_lower("AbÄ"), "abÄ");
    assert!(text::same_ignoring_case("Host", "hOST"));
    assert_eq!(text::parse("+12", 255), "+12".parse::<u8>().ok().map(|n| n as u32));
    assert_eq!(text::parse("256", 255), None);
}

#[test]
fn string_map_is_sorted() {
    let mut m = StringMap::new();
    m.insert("b".to_string(), 1);
    m.insert("a".to_string(), 2);
    m.insert("b".to_string(), 3);
    assert_eq!(m.len(), 2);
    assert_eq!(m.at(0), &("a".to_string(), 2));
    assert_eq!(m.get("b"), Some(&3));
    assert!(m.remove("a"));
    assert!(!m.remove("a"));
}
