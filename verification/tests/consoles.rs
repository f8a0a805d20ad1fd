use watercontroller::api::WifiScanResult;
use watercontroller::config::Config;
use watercontroller::diag::{
    fmt_task_header, fmt_task_row, print_mem, print_tasks, state_name, HeapInfo, TaskInfo, TaskState,
};
use watercontroller::serial;
use watercontroller::serial_cli;
use watercontroller::serial_cli::{
    dispatch, failure_line, scan_lines, LevelFilter, LineEditor, Step,
};
use watercontroller::state::{DeviceSnapshot, FlowAlarm};
use watercontroller::traits::{WifiCreds, WifiState};
use watercontroller::webhook::{EventKind, WebhookConfig};

fn creds(ssid: &str, password: &str) -> WifiCreds {
    WifiCreds { ssid: ssid.into(), password: password.into() }
}

fn cfg() -> Config {
    let mut c = Config::default();
    c.wifi.networks = vec![creds("home", "secret"), creds("guest", "")];
    c.wifi.ap_ssid = "setup".into();
    c
}

fn idle() -> FlowAlarm {
    FlowAlarm { active: false, elapsed_secs: 0 }
}

fn run(cmd: &str) -> Vec<Step> {
    dispatch(cmd, &cfg(), &idle())
}

fn lines(cmd: &str) -> Vec<String> {
    run(cmd)
        .into_iter()
        .map(|s| match s {
            Step::Print(l) => l,
            _ => panic!("not a line"),
        })
        .collect()
}

#[test]
fn typing_is_echoed_and_a_line_is_handed_over() {
    let mut e = LineEditor::new();
    for b in b"  stax" {
        let r = e.feed(*b);
        assert_eq!(r.echo, vec![*b]);
        assert_eq!(r.command, None);
        assert!(!r.prompt);
    }
    assert_eq!(e.feed(0x7f).echo, b"\x08 \x08".to_vec());
    assert_eq!(e.feed(b't').echo, b"t".to_vec());
    assert_eq!(e.feed(b'e').echo, b"e".to_vec());
    assert!(e.feed(0x1b).echo.is_empty());
    let r = e.feed(b'\r');
    assert_eq!(r.echo, b"\n".to_vec());
    assert_eq!(r.command, Some("state".to_string()));
    assert!(r.prompt);
    // An empty line gives a prompt and no command.
    let r = e.feed(b'\n');
    assert_eq!(r.command, None);
    assert!(r.prompt);
    assert!(e.feed(8).echo.is_empty());
}

#[test]
fn networks_are_listed_without_passwords() {
    assert_eq!(
        lines("wifi list"),
        vec![">>   [0] ssid=home password=<set>", ">>   [1] ssid=guest password=<open>"]
    );
    let mut c = cfg();
    c.wifi.networks = vec![];
    assert_eq!(
        serial_cli::list_networks(&c.wifi.networks),
        vec![">> no networks configured (device falls back to AP mode)"]
    );
}

#[test]
fn adding_replaces_a_network_of_the_same_name() {
    match &run("wifi add home new")[..] {
        [Step::SaveNetworks { networks, summary }] => {
            assert_eq!(networks, &vec![creds("guest", ""), creds("home", "new")]);
            assert_eq!(summary, ">> added home");
        }
        _ => panic!("no save"),
    }
    match &run("wifi add cafe")[..] {
        [Step::SaveNetworks { networks, .. }] => assert_eq!(networks[2], creds("cafe", "")),
        _ => panic!("no save"),
    }
    assert_eq!(lines("wifi add"), vec![">> usage: wifi add <ssid> [password]"]);
}

#[test]
fn deleting_and_clearing_networks() {
    match &run("wifi del guest")[..] {
        [Step::SaveNetworks { networks, summary }] => {
            assert_eq!(networks, &vec![creds("home", "secret")]);
            assert_eq!(summary, ">> removed guest");
        }
        _ => panic!("no save"),
    }
    match &run("wifi del nobody")[..] {
        [Step::SaveNetworks { networks, summary }] => {
            assert_eq!(networks.len(), 2);
            assert_eq!(summary, ">> no such network: nobody");
        }
        _ => panic!("no save"),
    }
    match &run("wifi clear")[..] {
        [step @ Step::SaveNetworks { networks, summary }] => {
            assert!(networks.is_empty());
            assert_eq!(summary, ">> cleared 2 network(s) — supervisor will enter AP mode");
            assert_eq!(failure_line(step, "full"), Some(">> nvs save failed: full".to_string()));
        }
        _ => panic!("no save"),
    }
    assert_eq!(lines("wifi"), vec![">> usage: wifi <list|add|del|clear|connect|scan>"]);
}

#[test]
fn log_levels_have_two_names() {
    match &run("log WARNING")[..] {
        [Step::SetLogLevel(level), Step::Print(line)] => {
            assert_eq!(*level, LevelFilter::Warn);
            assert_eq!(line, ">> log level set to WARNING");
        }
        _ => panic!("no level"),
    }
    assert_eq!(lines("log loud"), vec![">> usage: log <off|error|warn|info|debug|trace>"]);
    assert_eq!(serial_cli::parse_level("none"), Some(LevelFilter::Off));
    assert_eq!(serial_cli::parse_level("verbose"), Some(LevelFilter::Trace));
}

#[test]
fn alarm_status_shows_settings_and_state() {
    let mut c = cfg();
    c.flow_alarm.enabled = true;
    c.flow_alarm.threshold_lph.bits = 120.9f32.to_bits();
    let got: Vec<String> = serial_cli::print_alarm_status(
        &c.flow_alarm,
        &FlowAlarm { active: true, elapsed_secs: 7 },
    );
    assert_eq!(
        got,
        vec![
            ">> flow alarm: ACTIVE",
            ">>   enabled       : true",
            ">>   threshold     : 120 L/h",
            ">>   duration      : 60 s",
            ">>   elapsed       : 7 s",
        ]
    );
    assert!(matches!(run("alarm clear")[0], Step::ClearAlarm));
    assert_eq!(lines("alarm"), vec![">> usage: alarm <status|clear>"]);
}

#[test]
fn events_are_emitted_by_name() {
    match &run("webhook fire flow_alarm.fire")[..] {
        [Step::Emit(kind), Step::Print(line)] => {
            assert_eq!(*kind, EventKind::FlowAlarmFire);
            assert_eq!(line, ">> webhook event flow_alarm.fire emitted");
        }
        _ => panic!("no event"),
    }
    // The name is read as the inside of a JSON string.
    assert!(matches!(run("webhook fire b\\u006fot")[0], Step::Emit(EventKind::Boot)));
    let got = lines("webhook fire nothing");
    assert_eq!(got[0], ">> unknown event kind: nothing");
    assert_eq!(got[1], ">> known kinds:");
    assert_eq!(got.len(), 2 + EventKind::all().len());
    assert_eq!(got[2], ">>   flow_alarm.fire");
    assert_eq!(lines("webhook fire"), vec![">> usage: webhook fire <event_kind>"]);
}

#[test]
fn targets_are_listed_in_two_lines() {
    assert_eq!(lines("webhook list"), vec![">> no webhooks configured"]);
    let mut c = cfg();
    let mut w = WebhookConfig::default();
    w.enabled = false;
    w.url = "http://x/y".into();
    w.events = vec![EventKind::Boot, EventKind::WifiFlap];
    c.webhooks = vec![w];
    assert_eq!(
        serial_cli::print_webhook_list(&c),
        vec![">> [0] off kind=generic events=2", ">>     url: http://x/y"]
    );
}

#[test]
fn other_commands() {
    assert!(lines("help")[0].starts_with(">> commands:\n>>   help "));
    assert_eq!(lines("ap-info"), vec![">> ap_ssid: setup (password set: false)"]);
    assert_eq!(lines("fly"), vec![">> unknown command: fly — type `help`"]);
    assert!(run("   ").is_empty());
    assert!(matches!(&run("reset")[..], [Step::Print(_), Step::Restart]));
    match &run("factory_reset")[..] {
        [Step::Print(_), erase @ Step::EraseConfig, Step::Restart] => {
            assert_eq!(
                failure_line(erase, "io"),
                Some(">> factory_reset failed: io".to_string())
            );
        }
        _ => panic!("no reset"),
    }
    assert!(matches!(run("state")[0], Step::ShowWifiState));
    assert!(matches!(run("tasks")[0], Step::ShowTasks));
    assert!(matches!(run("mem")[0], Step::ShowMemory));
    assert!(matches!(&run("wifi connect")[..], [Step::Reconnect, Step::Print(_)]));
    assert!(matches!(&run("wifi scan")[..], [Step::Scan]));
    assert_eq!(failure_line(&Step::Restart, "x"), None);
}

fn found(ssid: &str, rssi_dbm: i8) -> WifiScanResult {
    WifiScanResult { ssid: ssid.into(), rssi_dbm, auth: "wpa2".into(), channel: 6 }
}

#[test]
fn scans_show_the_strongest_network_first() {
    let list = vec![found("a", -70), found("b", -40), found("c", -70), found("d", 3)];
    assert_eq!(
        scan_lines(&list),
        vec![
            ">> 4 network(s):",
            ">>   d rssi=3 auth=wpa2 ch=6",
            ">>   b rssi=-40 auth=wpa2 ch=6",
            ">>   a rssi=-70 auth=wpa2 ch=6",
            ">>   c rssi=-70 auth=wpa2 ch=6",
        ]
    );
}

fn task(name: &str, free: u32) -> TaskInfo {
    TaskInfo {
        name: name.into(),
        state: state_name(TaskState::Blocked),
        priority: 5,
        stack_min_free_bytes: free,
        run_time: 99,
    }
}

#[test]
fn tasks_are_sorted_by_free_stack() {
    let got = print_tasks(&vec![task("wide", 4000), task("a-name-that-is-too-long", 12)]);
    assert_eq!(got.len(), 4);
    assert_eq!(got[0], ">> NAME             STATE      PRI STACK_FREE      RUNTIME");
    assert_eq!(got[0], format!(">> {}", fmt_task_header()));
    assert_eq!(got[1], format!(">> {}", "-".repeat(56)));
    assert_eq!(got[2], ">> a-name-that-is-t blocked      5         12           99");
    assert_eq!(got[3], format!(">> {}", fmt_task_row(&task("wide", 4000))));
}

#[test]
fn memory_is_shown_with_separators() {
    let h = HeapInfo {
        total_free_bytes: 4_194_304,
        total_allocated_bytes: 999,
        largest_free_block: 1000,
        min_ever_free_bytes: 0,
        internal_free_bytes: 0,
        internal_largest_free: 0,
        internal_min_ever_free: 0,
        psram_free_bytes: 0,
        psram_largest_free: 0,
    };
    assert_eq!(
        print_mem(&h),
        vec![
            ">> heap:",
            ">>   total free        :    4,194,304 B",
            ">>   total allocated   :          999 B",
            ">>   largest free block:        1,000 B",
            ">>   min-ever free     :            0 B",
        ]
    );
}

#[test]
fn small_console_collects_lines() {
    let mut r = serial::LineReader::new();
    for b in b"helq" {
        assert_eq!(r.feed(*b), None);
    }
    assert_eq!(r.feed(8), None);
    assert_eq!(r.feed(b'p'), None);
    assert_eq!(r.feed(b'\n'), Some("help".to_string()));
    assert_eq!(r.feed(b'\n'), Some(String::new()));
}

#[test]
fn small_console_drops_a_line_that_is_too_long() {
    let mut r = serial::LineReader::new();
    for _ in 0..80 {
        assert_eq!(r.feed(b'x'), None);
    }
    // The next byte does not fit: it and the line are gone.
    assert_eq!(r.feed(b'y'), None);
    assert_eq!(r.feed(b'z'), None);
    assert_eq!(r.feed(b'\r'), Some("z".to_string()));
    // A byte above 127 takes two bytes of the buffer.
    for _ in 0..79 {
        r.feed(b'x');
    }
    assert_eq!(r.feed(0xe9), None);
    assert_eq!(r.feed(b'\r'), Some(String::new()));
}

fn small(line: &str, snap: &DeviceSnapshot) -> Vec<serial::Step> {
    serial::handle(line, snap, 75)
}

#[test]
fn small_console_reports_status() {
    let mut snap = DeviceSnapshot::default();
    snap.firmware_version = "wc-nostd".into();
    snap.network.mqtt_connected = true;
    snap.switches.sprinkler_2 = true;
    snap.network.wifi = Some(WifiState::Connected { ssid: "home".into(), ip: "10.0.0.2".into() });
    assert_eq!(
        small(" status ", &snap),
        vec![
            serial::Step::Say("serial: uptime=75s fw=wc-nostd mqtt=true".into()),
            serial::Step::Say("serial: wifi connected home ip=10.0.0.2".into()),
            serial::Step::Say("serial: switches s1=false s2=true water=Off".into()),
        ]
    );
}

#[test]
fn small_console_commands() {
    let snap = DeviceSnapshot::default();
    assert!(small("", &snap).is_empty());
    assert_eq!(small("diag", &snap), vec![serial::Step::ReportHeap]);
    assert_eq!(small("config reset", &snap), vec![serial::Step::EraseConfig]);
    assert_eq!(
        small("ap", &snap),
        vec![
            serial::Step::StoreApMode,
            serial::Step::Say("serial: AP setup mode set — rebooting".into()),
            serial::Step::Reboot,
        ]
    );
    assert_eq!(small("reset", &snap)[1], serial::Step::Reboot);
    assert_eq!(small("alarm clear", &snap)[0], serial::Step::ClearAlarm);
    // Inside of a command white space counts.
    assert_eq!(
        small("alarm  clear", &snap),
        vec![serial::Step::Say("serial: unknown command 'alarm  clear' (try 'help')".into())]
    );
    assert_eq!(serial::heap_line(10, 20), "serial: heap_free=10 heap_used=20");
    assert_eq!(serial::erase_line(Some("Io")), "serial: config reset failed: Io");
    assert!(serial::erase_line(None).starts_with("serial: config erased"));
}
