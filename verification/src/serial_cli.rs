//! The recovery console: one command per line, read byte by byte.
//!
//! A command is answered with steps, which the caller carries out in order. A
//! step that fails ends the command.

use vstd::prelude::*;
use crate::api::WifiScanResult;
use crate::config;
use crate::config::Config;
use crate::json_text;
use crate::order;
use crate::state::FlowAlarm;
use crate::text;
use crate::traits;
use crate::traits::WifiCreds;
use crate::webhook;
use crate::webhook::{EventKind, WebhookKind};

verus! {

/// What a byte from the terminal leads to.
#[derive(Debug, PartialEq, Eq)]
pub struct KeyResponse {
    /// Bytes for the terminal.
    pub echo: Vec<u8>,
    /// A command to carry out.
    pub command: Option<String>,
    /// Whether a new prompt follows.
    pub prompt: bool,
}

/// A response by its contents.
pub struct KeyResponseView {
    pub echo: Seq<u8>,
    pub command: Option<Seq<char>>,
    pub prompt: bool,
}

impl View for KeyResponse {
    type V = KeyResponseView;

    open spec fn view(&self) -> KeyResponseView {
        KeyResponseView {
            echo: self.echo@,
            command: match self.command {
                Some(c) => Some(c@),
                None => None,
            },
            prompt: self.prompt,
        }
    }
}

pub open spec fn ends_line(byte: u8) -> bool {
    byte == 13 || byte == 10
}

pub open spec fn rubs_out(byte: u8) -> bool {
    byte == 8 || byte == 127
}

pub open spec fn printable(byte: u8) -> bool {
    32 <= byte <= 126
}

/// The line after a byte.
pub open spec fn edited(line: Seq<char>, byte: u8) -> Seq<char> {
    if ends_line(byte) {
        Seq::empty()
    } else if rubs_out(byte) {
        if line.len() > 0 {
            line.drop_last()
        } else {
            line
        }
    } else if printable(byte) {
        line.push(byte as char)
    } else {
        line
    }
}

/// What a byte leads to where `line` was typed before it.
pub open spec fn response(line: Seq<char>, byte: u8) -> KeyResponseView {
    if ends_line(byte) {
        KeyResponseView {
            echo: seq![10u8],
            command: if line.len() > 0 {
                Some(text::trimmed(line))
            } else {
                None
            },
            prompt: true,
        }
    } else if rubs_out(byte) {
        KeyResponseView {
            echo: if line.len() > 0 {
                seq![8u8, 32, 8]
            } else {
                Seq::empty()
            },
            command: None,
            prompt: false,
        }
    } else if printable(byte) {
        KeyResponseView { echo: seq![byte], command: None, prompt: false }
    } else {
        KeyResponseView { echo: Seq::empty(), command: None, prompt: false }
    }
}

/// Collects a line. Control bytes other than line ends and backspace are
/// ignored.
#[derive(Debug, PartialEq, Eq)]
pub struct LineEditor {
    line: Vec<char>,
}

impl View for LineEditor {
    type V = Seq<char>;

    closed spec fn view(&self) -> Seq<char> {
        self.line@
    }
}

impl LineEditor {
    pub fn new() -> (e: Self)
        ensures
            e@ == Seq::<char>::empty(),
    {
        LineEditor { line: Vec::new() }
    }

    pub fn feed(&mut self, byte: u8) -> (r: KeyResponse)
        ensures
            final(self)@ == edited(old(self)@, byte),
            r@ == response(old(self)@, byte),
    {
        if byte == 13 || byte == 10 {
            let mut command: Option<String> = None;
            if self.line.len() > 0 {
                let whole = text::string_of(self.line.as_slice());
                command = Some(text::trim(whole.as_str()));
                self.line.clear();
            }
            let r = KeyResponse { echo: vec![10u8], command, prompt: true };
            assert(r.echo@ =~= seq![10u8]);
            assert(self.line@ =~= Seq::<char>::empty());
            r
        } else if byte == 8 || byte == 127 {
            let mut echo: Vec<u8> = Vec::new();
            if self.line.len() > 0 {
                let _ = self.line.pop();
                echo = vec![8u8, 32, 8];
                assert(echo@ =~= seq![8u8, 32, 8]);
            }
            KeyResponse { echo, command: None, prompt: false }
        } else if byte >= 32 && byte <= 126 {
            self.line.push(byte as char);
            let r = KeyResponse { echo: vec![byte], command: None, prompt: false };
            assert(r.echo@ =~= seq![byte]);
            r
        } else {
            KeyResponse { echo: Vec::new(), command: None, prompt: false }
        }
    }
}

/// How much is logged.
#[derive(Debug, Clone, Copy, PartialEq, Eq, Structural)]
pub enum LevelFilter {
    Off,
    Error,
    Warn,
    Info,
    Debug,
    Trace,
}

/// The level with this name, in either case.
pub open spec fn level_named(name: Seq<char>) -> Option<LevelFilter> {
    let s = text::lowered(name);
    if s == "off"@ || s == "none"@ {
        Some(LevelFilter::Off)
    } else if s == "error"@ {
        Some(LevelFilter::Error)
    } else if s == "warn"@ || s == "warning"@ {
        Some(LevelFilter::Warn)
    } else if s == "info"@ {
        Some(LevelFilter::Info)
    } else if s == "debug"@ {
        Some(LevelFilter::Debug)
    } else if s == "trace"@ || s == "verbose"@ {
        Some(LevelFilter::Trace)
    } else {
        None
    }
}

pub fn parse_level(name: &str) -> (level: Option<LevelFilter>)
    ensures
        level == level_named(name@),
{
    let lower = text::to_lower(name);
    let s = lower.as_str();
    if text::same(s, "off") || text::same(s, "none") {
        Some(LevelFilter::Off)
    } else if text::same(s, "error") {
        Some(LevelFilter::Error)
    } else if text::same(s, "warn") || text::same(s, "warning") {
        Some(LevelFilter::Warn)
    } else if text::same(s, "info") {
        Some(LevelFilter::Info)
    } else if text::same(s, "debug") {
        Some(LevelFilter::Debug)
    } else if text::same(s, "trace") || text::same(s, "verbose") {
        Some(LevelFilter::Trace)
    } else {
        None
    }
}

/// One thing to do for a command.
pub enum Step {
    /// Prints a line.
    Print(String),
    /// Prints the state of the radio.
    ShowWifiState,
    /// Stores the networks, puts them to use, connects, and prints the summary.
    SaveNetworks { networks: Vec<WifiCreds>, summary: String },
    Reconnect,
    /// Scans, and prints what [`scan_lines`] gives.
    Scan,
    SetLogLevel(LevelFilter),
    /// Prints the table of tasks.
    ShowTasks,
    /// Prints the state of the memory.
    ShowMemory,
    ClearAlarm,
    Emit(EventKind),
    /// Removes the stored configuration.
    EraseConfig,
    Restart,
}

/// A step by its contents.
pub enum StepView {
    Print(Seq<char>),
    ShowWifiState,
    SaveNetworks { networks: Seq<traits::WifiCredsView>, summary: Seq<char> },
    Reconnect,
    Scan,
    SetLogLevel(LevelFilter),
    ShowTasks,
    ShowMemory,
    ClearAlarm,
    Emit(EventKind),
    EraseConfig,
    Restart,
}

impl View for Step {
    type V = StepView;

    open spec fn view(&self) -> StepView {
        match *self {
            Step::Print(line) => StepView::Print(line@),
            Step::ShowWifiState => StepView::ShowWifiState,
            Step::SaveNetworks { networks, summary } => StepView::SaveNetworks {
                networks: config::creds_views(networks@),
                summary: summary@,
            },
            Step::Reconnect => StepView::Reconnect,
            Step::Scan => StepView::Scan,
            Step::SetLogLevel(level) => StepView::SetLogLevel(level),
            Step::ShowTasks => StepView::ShowTasks,
            Step::ShowMemory => StepView::ShowMemory,
            Step::ClearAlarm => StepView::ClearAlarm,
            Step::Emit(kind) => StepView::Emit(kind),
            Step::EraseConfig => StepView::EraseConfig,
            Step::Restart => StepView::Restart,
        }
    }
}

pub open spec fn step_views(steps: Seq<Step>) -> Seq<StepView> {
    Seq::new(steps.len(), |i: int| steps[i]@)
}

/// The line that is printed where a step fails.
pub open spec fn failure_text(step: StepView, error: Seq<char>) -> Option<Seq<char>> {
    match step {
        StepView::SaveNetworks { .. } => Some(">> nvs save failed: "@ + error),
        StepView::Scan => Some(">> scan failed: "@ + error),
        StepView::EraseConfig => Some(">> factory_reset failed: "@ + error),
        _ => None,
    }
}

pub fn failure_line(step: &Step, error: &str) -> (line: Option<String>)
    ensures
        line is Some == failure_text(step@, error@) is Some,
        line is Some ==> line->0@ == failure_text(step@, error@)->0,
{
    match step {
        Step::SaveNetworks { .. } => Some(text::join(">> nvs save failed: ", error)),
        Step::Scan => Some(text::join(">> scan failed: ", error)),
        Step::EraseConfig => Some(text::join(">> factory_reset failed: ", error)),
        _ => None,
    }
}

pub const HELP: &'static str = "\
>> commands:\n\
>>   help                        list commands\n\
>>   state                       wifi state + IP\n\
>>   wifi list                   show saved networks\n\
>>   wifi add <ssid> [password]  add or replace a saved network\n\
>>   wifi del <ssid>             remove a saved network\n\
>>   wifi clear                  wipe networks (forces AP mode)\n\
>>   wifi connect                kick supervisor\n\
>>   wifi scan                   discover nearby APs\n\
>>   ap-info                     show AP fallback SSID\n\
>>   log <level>                 set log verbosity (off/error/warn/info/debug/trace)\n\
>>   tasks                       tabulated task list (name/state/pri/stack free)\n\
>>   mem                         heap stats (free/allocated/largest/min-ever)\n\
>>   alarm status                show flow alarm config + latched state\n\
>>   alarm clear                 reset the latched flow alarm\n\
>>   webhook list                show configured webhooks\n\
>>   webhook fire <event>        emit a webhook event (e.g. flow_alarm.fire)\n\
>>   reset                       reboot\n\
>>   factory_reset               wipe NVS config + reboot";

/// Lines to print.
pub open spec fn printed(lines: Seq<Seq<char>>) -> Seq<StepView> {
    Seq::new(lines.len(), |i: int| StepView::Print(lines[i]))
}

fn print(line: &str) -> (steps: Vec<Step>)
    ensures
        step_views(steps@) == printed(seq![line@]),
{
    let steps = vec![Step::Print(line.to_owned())];
    assert(step_views(steps@) =~= printed(seq![line@]));
    steps
}

fn print_all(lines: Vec<String>) -> (steps: Vec<Step>)
    ensures
        step_views(steps@) == printed(text::texts(lines@)),
{
    let mut steps: Vec<Step> = Vec::new();
    let n: usize = lines.len();
    let mut i: usize = 0;
    while i < n
        invariant
            n == lines@.len(),
            i <= n,
            step_views(steps@) == printed(text::texts(lines@)).take(i as int),
        decreases n - i,
    {
        let ghost before = step_views(steps@);
        steps.push(Step::Print(lines[i].clone()));
        i += 1;
        assert(step_views(steps@) =~= before.push(StepView::Print(lines@[i - 1]@)));
        assert(step_views(steps@) =~= printed(text::texts(lines@)).take(i as int));
    }
    assert(printed(text::texts(lines@)).take(n as int) =~= printed(text::texts(lines@)));
    steps
}

fn one(step: Step) -> (steps: Vec<Step>)
    ensures
        step_views(steps@) == seq![step@],
{
    let steps = vec![step];
    assert(step_views(steps@) =~= seq![step@]);
    steps
}

fn two(first: Step, second: Step) -> (steps: Vec<Step>)
    ensures
        step_views(steps@) == seq![first@, second@],
{
    let steps = vec![first, second];
    assert(step_views(steps@) =~= seq![first@, second@]);
    steps
}

/// The networks but those with this name.
pub open spec fn without(networks: Seq<traits::WifiCredsView>, ssid: Seq<char>) -> Seq<
    traits::WifiCredsView,
>
    decreases networks.len(),
{
    if networks.len() == 0 {
        Seq::empty()
    } else {
        let rest = without(networks.drop_last(), ssid);
        if networks.last().ssid == ssid {
            rest
        } else {
            rest.push(networks.last())
        }
    }
}

fn networks_without(networks: &Vec<WifiCreds>, ssid: &str) -> (kept: Vec<WifiCreds>)
    ensures
        config::creds_views(kept@) == without(config::creds_views(networks@), ssid@),
        kept.len() <= networks.len(),
{
    let ghost all = config::creds_views(networks@);
    let mut kept: Vec<WifiCreds> = Vec::new();
    let n: usize = networks.len();
    let mut i: usize = 0;
    assert(config::creds_views(kept@) =~= without(all.take(0), ssid@));
    while i < n
        invariant
            n == networks@.len(),
            i <= n,
            all == config::creds_views(networks@),
            config::creds_views(kept@) == without(all.take(i as int), ssid@),
            kept@.len() <= i,
        decreases n - i,
    {
        let ghost before = config::creds_views(kept@);
        proof {
            let t = all.take(i + 1);
            assert(t.drop_last() =~= all.take(i as int));
            assert(t.last() == networks@[i as int]@);
        }
        if !text::same(networks[i].ssid.as_str(), ssid) {
            kept.push(networks[i].clone());
            assert(config::creds_views(kept@) =~= before.push(networks@[i as int]@));
        }
        i += 1;
    }
    assert(all.take(n as int) =~= all);
    kept
}

/// Saved networks, passwords left out.
pub open spec fn network_lines(networks: Seq<traits::WifiCredsView>) -> Seq<Seq<char>> {
    if networks.len() == 0 {
        seq![">> no networks configured (device falls back to AP mode)"@]
    } else {
        Seq::new(networks.len(), |i: int| network_line(i as nat, networks[i]))
    }
}

pub open spec fn network_line(i: nat, network: traits::WifiCredsView) -> Seq<char> {
    ">>   ["@ + text::decimal(i) + "] ssid="@ + network.ssid + " password="@ + (
    if network.password.len() == 0 {
        "<open>"@
    } else {
        "<set>"@
    })
}

pub fn list_networks(networks: &Vec<WifiCreds>) -> (lines: Vec<String>)
    ensures
        text::texts(lines@) == network_lines(config::creds_views(networks@)),
{
    let ghost all = config::creds_views(networks@);
    let mut lines: Vec<String> = Vec::new();
    if networks.len() == 0 {
        lines.push(">> no networks configured (device falls back to AP mode)".to_owned());
        assert(text::texts(lines@) =~= network_lines(all));
        return lines;
    }
    let n: usize = networks.len();
    let mut i: usize = 0;
    while i < n
        invariant
            n == networks@.len(),
            n > 0,
            i <= n,
            all == config::creds_views(networks@),
            text::texts(lines@) == network_lines(all).take(i as int),
        decreases n - i,
    {
        let ghost before = text::texts(lines@);
        let mut line = text::join(">>   [", text::decimal_u64(i as u64).as_str());
        line.append("] ssid=");
        line.append(networks[i].ssid.as_str());
        line.append(" password=");
        if networks[i].password.as_str().is_empty() {
            line.append("<open>");
        } else {
            line.append("<set>");
        }
        assert(line@ == network_line(i as nat, all[i as int]));
        lines.push(line);
        i += 1;
        assert(text::texts(lines@) =~= before.push(line@));
        assert(text::texts(lines@) =~= network_lines(all).take(i as int));
    }
    assert(network_lines(all).take(n as int) =~= network_lines(all));
    lines
}

pub open spec fn on_off(b: bool) -> Seq<char> {
    if b {
        "on"@
    } else {
        "off"@
    }
}

pub open spec fn target_kind(kind: WebhookKind) -> Seq<char> {
    match kind {
        WebhookKind::Generic => "generic"@,
        WebhookKind::Slack => "slack"@,
        WebhookKind::Discord => "discord"@,
        WebhookKind::HomeAssistant => "ha"@,
    }
}

pub open spec fn target_head(i: nat, target: webhook::WebhookConfigView) -> Seq<char> {
    ">> ["@ + text::decimal(i) + "] "@ + on_off(target.enabled) + " kind="@ + target_kind(
        target.kind,
    ) + " events="@ + text::decimal(target.events.len())
}

/// Configured targets, two lines each.
pub open spec fn target_lines(targets: Seq<webhook::WebhookConfigView>) -> Seq<Seq<char>>
    decreases targets.len(),
{
    if targets.len() == 0 {
        Seq::empty()
    } else {
        target_lines(targets.drop_last()) + seq![
            target_head((targets.len() - 1) as nat, targets.last()),
            ">>     url: "@ + targets.last().url,
        ]
    }
}

pub open spec fn webhook_lines(targets: Seq<webhook::WebhookConfigView>) -> Seq<Seq<char>> {
    if targets.len() == 0 {
        seq![">> no webhooks configured"@]
    } else {
        target_lines(targets)
    }
}

pub fn print_webhook_list(cfg: &Config) -> (lines: Vec<String>)
    ensures
        text::texts(lines@) == webhook_lines(cfg@.webhooks),
{
    let ghost all = cfg@.webhooks;
    let mut lines: Vec<String> = Vec::new();
    if cfg.webhooks.len() == 0 {
        lines.push(">> no webhooks configured".to_owned());
        assert(text::texts(lines@) =~= webhook_lines(all));
        return lines;
    }
    let n: usize = cfg.webhooks.len();
    let mut i: usize = 0;
    assert(text::texts(lines@) =~= target_lines(all.take(0)));
    while i < n
        invariant
            n == cfg.webhooks@.len(),
            i <= n,
            all == cfg@.webhooks,
            text::texts(lines@) == target_lines(all.take(i as int)),
        decreases n - i,
    {
        let ghost before = text::texts(lines@);
        let target = &cfg.webhooks[i];
        assert(target@ == all[i as int]);
        let mut head = text::join(">> [", text::decimal_u64(i as u64).as_str());
        head.append("] ");
        if target.enabled {
            head.append("on");
        } else {
            head.append("off");
        }
        head.append(" kind=");
        match target.kind {
            WebhookKind::Generic => {
                head.append("generic");
            },
            WebhookKind::Slack => {
                head.append("slack");
            },
            WebhookKind::Discord => {
                head.append("discord");
            },
            WebhookKind::HomeAssistant => {
                head.append("ha");
            },
        }
        head.append(" events=");
        head.append(text::decimal_u64(target.events.len() as u64).as_str());
        assert(head@ == target_head(i as nat, all[i as int]));
        let url = text::join(">>     url: ", target.url.as_str());
        lines.push(head);
        lines.push(url);
        proof {
            let t = all.take(i + 1);
            assert(t.drop_last() =~= all.take(i as int));
            assert(t.last() == all[i as int]);
            assert(text::texts(lines@) =~= before + seq![head@, url@]);
        }
        i += 1;
    }
    assert(all.take(n as int) =~= all);
    lines
}

/// What a request to emit an event leads to, by the kind that its name was
/// read as.
pub open spec fn fired(name: Seq<char>, kind: Option<EventKind>) -> Seq<StepView> {
    match kind {
        Some(k) => seq![
            StepView::Emit(k),
            StepView::Print(">> webhook event "@ + name + " emitted"@),
        ],
        None => printed(
            seq![">> unknown event kind: "@ + name, ">> known kinds:"@] + Seq::new(
                EventKind::every().len(),
                |i: int| ">>   "@ + EventKind::every()[i].name(),
            ),
        ),
    }
}

pub fn fire_event(name: &str, kind: Option<EventKind>) -> (steps: Vec<Step>)
    ensures
        step_views(steps@) == fired(name@, kind),
{
    match kind {
        Some(k) => {
            let mut line = text::join(">> webhook event ", name);
            line.append(" emitted");
            two(Step::Emit(k), Step::Print(line))
        },
        None => {
            let mut lines: Vec<String> = Vec::new();
            lines.push(text::join(">> unknown event kind: ", name));
            lines.push(">> known kinds:".to_owned());
            let ghost start = text::texts(lines@);
            let kinds = EventKind::all();
            let ghost names = Seq::new(
                kinds@.len(),
                |i: int| ">>   "@ + EventKind::every()[i].name(),
            );
            assert(start =~= start + names.take(0));
            let n: usize = kinds.len();
            let mut i: usize = 0;
            while i < n
                invariant
                    n == kinds@.len(),
                    kinds@ == EventKind::every(),
                    names == Seq::new(
                        kinds@.len(),
                        |i: int| ">>   "@ + EventKind::every()[i].name(),
                    ),
                    i <= n,
                    text::texts(lines@) == start + names.take(i as int),
                decreases n - i,
            {
                let ghost before = text::texts(lines@);
                let line = text::join(">>   ", kinds[i].as_str());
                lines.push(line);
                i += 1;
                assert(text::texts(lines@) =~= before.push(line@));
                assert(names.take(i as int) =~= names.take(i - 1).push(line@));
                assert(text::texts(lines@) =~= start + names.take(i as int));
            }
            assert(names.take(n as int) =~= names);
            assert(start =~= seq![">> unknown event kind: "@ + name@, ">> known kinds:"@]);
            print_all(lines)
        },
    }
}

/// Emits the event with this name, which is read as the inside of a JSON string.
pub fn fire_webhook(name: &str) -> (steps: Vec<Step>)
    ensures
        step_views(steps@) == fired(
            name@,
            match json_text::json_unquoted("\""@ + name@ + "\""@) {
                Some(n) => EventKind::named(n),
                None => None,
            },
        ),
{
    let mut quoted = text::join("\"", name);
    quoted.append("\"");
    let kind = EventKind::from_json(quoted.as_str());
    fire_event(name, kind)
}

/// The flow alarm, its settings and its state.
pub open spec fn alarm_lines(cfg: config::FlowAlarmConfig, alarm: FlowAlarm) -> Seq<Seq<char>> {
    seq![
        ">> flow alarm: "@ + (if alarm.active {
            "ACTIVE"@
        } else {
            "idle"@
        }),
        ">>   enabled       : "@ + text::truth(cfg.enabled),
        ">>   threshold     : "@ + text::signed(cfg.threshold_lph.whole_value()) + " L/h"@,
        ">>   duration      : "@ + text::decimal(cfg.duration_secs as nat) + " s"@,
        ">>   elapsed       : "@ + text::decimal(alarm.elapsed_secs as nat) + " s"@,
    ]
}

pub fn print_alarm_status(cfg: &config::FlowAlarmConfig, alarm: &FlowAlarm) -> (lines: Vec<
    String,
>)
    ensures
        text::texts(lines@) == alarm_lines(*cfg, *alarm),
{
    let mut lines: Vec<String> = Vec::new();
    if alarm.active {
        lines.push(text::join(">> flow alarm: ", "ACTIVE"));
    } else {
        lines.push(text::join(">> flow alarm: ", "idle"));
    }
    lines.push(text::join(">>   enabled       : ", text::truth_text(cfg.enabled)));
    let threshold = text::signed_i32(cfg.threshold_lph.whole());
    let mut line = text::join(">>   threshold     : ", threshold.as_str());
    line.append(" L/h");
    lines.push(line);
    let duration = text::decimal_u64(cfg.duration_secs as u64);
    let mut line = text::join(">>   duration      : ", duration.as_str());
    line.append(" s");
    lines.push(line);
    let elapsed = text::decimal_u64(alarm.elapsed_secs as u64);
    let mut line = text::join(">>   elapsed       : ", elapsed.as_str());
    line.append(" s");
    lines.push(line);
    assert(text::texts(lines@) =~= alarm_lines(*cfg, *alarm));
    lines
}

/// What the commands that begin with `wifi` lead to.
pub open spec fn wifi_steps(words: Seq<Seq<char>>, cfg: config::ConfigView) -> Seq<StepView> {
    let networks = cfg.wifi.networks;
    if words.len() < 2 {
        printed(seq![">> usage: wifi <list|add|del|clear|connect|scan>"@])
    } else if words[1] == "list"@ {
        printed(network_lines(networks))
    } else if words[1] == "add"@ {
        if words.len() < 3 {
            printed(seq![">> usage: wifi add <ssid> [password]"@])
        } else {
            seq![
                StepView::SaveNetworks {
                    networks: without(networks, words[2]).push(
                        traits::WifiCredsView {
                            ssid: words[2],
                            password: if words.len() < 4 {
                                Seq::empty()
                            } else {
                                words[3]
                            },
                        },
                    ),
                    summary: ">> added "@ + words[2],
                },
            ]
        }
    } else if words[1] == "del"@ {
        if words.len() < 3 {
            printed(seq![">> usage: wifi del <ssid>"@])
        } else {
            seq![
                StepView::SaveNetworks {
                    networks: without(networks, words[2]),
                    summary: if without(networks, words[2]).len() == networks.len() {
                        ">> no such network: "@ + words[2]
                    } else {
                        ">> removed "@ + words[2]
                    },
                },
            ]
        }
    } else if words[1] == "clear"@ {
        seq![
            StepView::SaveNetworks {
                networks: Seq::empty(),
                summary: ">> cleared "@ + text::decimal(networks.len())
                    + " network(s) — supervisor will enter AP mode"@,
            },
        ]
    } else if words[1] == "connect"@ {
        seq![StepView::Reconnect, StepView::Print(">> reconnect signaled"@)]
    } else if words[1] == "scan"@ {
        seq![StepView::Scan]
    } else {
        printed(seq![">> usage: wifi <list|add|del|clear|connect|scan>"@])
    }
}

fn dispatch_wifi(words: &Vec<String>, cfg: &Config) -> (steps: Vec<Step>)
    requires
        words@.len() >= 1,
    ensures
        step_views(steps@) == wifi_steps(text::texts(words@), cfg@),
{
    if words.len() < 2 {
        return print(">> usage: wifi <list|add|del|clear|connect|scan>");
    }
    let what = words[1].as_str();
    if text::same(what, "list") {
        print_all(list_networks(&cfg.wifi.networks))
    } else if text::same(what, "add") {
        if words.len() < 3 {
            return print(">> usage: wifi add <ssid> [password]");
        }
        let ssid = words[2].as_str();
        let mut networks = networks_without(&cfg.wifi.networks, ssid);
        let password = if words.len() < 4 {
            String::new()
        } else {
            words[3].clone()
        };
        let ghost before = config::creds_views(networks@);
        let network = WifiCreds { ssid: ssid.to_owned(), password };
        networks.push(network);
        assert(config::creds_views(networks@) =~= before.push(network@));
        one(Step::SaveNetworks { networks, summary: text::join(">> added ", ssid) })
    } else if text::same(what, "del") {
        if words.len() < 3 {
            return print(">> usage: wifi del <ssid>");
        }
        let ssid = words[2].as_str();
        let networks = networks_without(&cfg.wifi.networks, ssid);
        let summary = if networks.len() == cfg.wifi.networks.len() {
            text::join(">> no such network: ", ssid)
        } else {
            text::join(">> removed ", ssid)
        };
        assert(without(cfg@.wifi.networks, ssid@).len() == networks.len());
        one(Step::SaveNetworks { networks, summary })
    } else if text::same(what, "clear") {
        let count = text::decimal_u64(cfg.wifi.networks.len() as u64);
        let mut summary = text::join(">> cleared ", count.as_str());
        summary.append(" network(s) — supervisor will enter AP mode");
        let networks: Vec<WifiCreds> = Vec::new();
        assert(config::creds_views(networks@) =~= Seq::<traits::WifiCredsView>::empty());
        one(Step::SaveNetworks { networks, summary })
    } else if text::same(what, "connect") {
        two(Step::Reconnect, Step::Print(">> reconnect signaled".to_owned()))
    } else if text::same(what, "scan") {
        one(Step::Scan)
    } else {
        print(">> usage: wifi <list|add|del|clear|connect|scan>")
    }
}

/// What the command to set the log level leads to.
pub open spec fn log_steps(words: Seq<Seq<char>>) -> Seq<StepView> {
    if words.len() < 2 || level_named(words[1]) is None {
        printed(seq![">> usage: log <off|error|warn|info|debug|trace>"@])
    } else {
        seq![
            StepView::SetLogLevel(level_named(words[1])->0),
            StepView::Print(">> log level set to "@ + words[1]),
        ]
    }
}

fn dispatch_log(words: &Vec<String>) -> (steps: Vec<Step>)
    requires
        words@.len() >= 1,
    ensures
        step_views(steps@) == log_steps(text::texts(words@)),
{
    if words.len() < 2 {
        return print(">> usage: log <off|error|warn|info|debug|trace>");
    }
    let name = words[1].as_str();
    match parse_level(name) {
        Some(level) => two(
            Step::SetLogLevel(level),
            Step::Print(text::join(">> log level set to ", name)),
        ),
        None => print(">> usage: log <off|error|warn|info|debug|trace>"),
    }
}

/// What the commands that begin with `alarm` lead to.
pub open spec fn alarm_steps(
    words: Seq<Seq<char>>,
    cfg: config::ConfigView,
    alarm: FlowAlarm,
) -> Seq<StepView> {
    if words.len() >= 2 && words[1] == "status"@ {
        printed(alarm_lines(cfg.flow_alarm, alarm))
    } else if words.len() >= 2 && words[1] == "clear"@ {
        seq![StepView::ClearAlarm, StepView::Print(">> alarm cleared"@)]
    } else {
        printed(seq![">> usage: alarm <status|clear>"@])
    }
}

fn dispatch_alarm(words: &Vec<String>, cfg: &Config, alarm: &FlowAlarm) -> (steps: Vec<Step>)
    requires
        words@.len() >= 1,
    ensures
        step_views(steps@) == alarm_steps(text::texts(words@), cfg@, *alarm),
{
    if words.len() >= 2 && text::same(words[1].as_str(), "status") {
        print_all(print_alarm_status(&cfg.flow_alarm, alarm))
    } else if words.len() >= 2 && text::same(words[1].as_str(), "clear") {
        two(Step::ClearAlarm, Step::Print(">> alarm cleared".to_owned()))
    } else {
        print(">> usage: alarm <status|clear>")
    }
}

/// What the commands that begin with `webhook` lead to.
pub open spec fn webhook_steps(words: Seq<Seq<char>>, cfg: config::ConfigView) -> Seq<StepView> {
    if words.len() >= 2 && words[1] == "list"@ {
        printed(webhook_lines(cfg.webhooks))
    } else if words.len() >= 2 && words[1] == "fire"@ {
        if words.len() < 3 {
            printed(seq![">> usage: webhook fire <event_kind>"@])
        } else {
            fired(
                words[2],
                match json_text::json_unquoted("\""@ + words[2] + "\""@) {
                    Some(n) => EventKind::named(n),
                    None => None,
                },
            )
        }
    } else {
        printed(seq![">> usage: webhook <list|fire <event_kind>>"@])
    }
}

fn dispatch_webhook(words: &Vec<String>, cfg: &Config) -> (steps: Vec<Step>)
    requires
        words@.len() >= 1,
    ensures
        step_views(steps@) == webhook_steps(text::texts(words@), cfg@),
{
    if words.len() >= 2 && text::same(words[1].as_str(), "list") {
        print_all(print_webhook_list(cfg))
    } else if words.len() >= 2 && text::same(words[1].as_str(), "fire") {
        if words.len() < 3 {
            print(">> usage: webhook fire <event_kind>")
        } else {
            fire_webhook(words[2].as_str())
        }
    } else {
        print(">> usage: webhook <list|fire <event_kind>>")
    }
}

/// What a command leads to, by its words. Words that a command does not know
/// of are ignored.
pub open spec fn command_steps(
    words: Seq<Seq<char>>,
    cfg: config::ConfigView,
    alarm: FlowAlarm,
) -> Seq<StepView> {
    if words.len() == 0 {
        Seq::empty()
    } else if words[0] == "help"@ {
        printed(seq![HELP@])
    } else if words[0] == "state"@ {
        seq![StepView::ShowWifiState]
    } else if words[0] == "wifi"@ {
        wifi_steps(words, cfg)
    } else if words[0] == "log"@ {
        log_steps(words)
    } else if words[0] == "tasks"@ {
        seq![StepView::ShowTasks]
    } else if words[0] == "mem"@ {
        seq![StepView::ShowMemory]
    } else if words[0] == "alarm"@ {
        alarm_steps(words, cfg, alarm)
    } else if words[0] == "webhook"@ {
        webhook_steps(words, cfg)
    } else if words[0] == "ap-info"@ {
        printed(
            seq![
                ">> ap_ssid: "@ + cfg.wifi.ap_ssid + " (password set: "@ + text::truth(
                    cfg.wifi.ap_password.len() > 0,
                ) + ")"@,
            ],
        )
    } else if words[0] == "reset"@ {
        seq![StepView::Print(">> rebooting..."@), StepView::Restart]
    } else if words[0] == "factory_reset"@ {
        seq![
            StepView::Print(">> wiping NVS config + rebooting..."@),
            StepView::EraseConfig,
            StepView::Restart,
        ]
    } else {
        printed(seq![">> unknown command: "@ + words[0] + " — type `help`"@])
    }
}

pub fn dispatch(command: &str, cfg: &Config, alarm: &FlowAlarm) -> (steps: Vec<Step>)
    ensures
        step_views(steps@) == command_steps(text::words_of(command@), cfg@, *alarm),
{
    let words: Vec<String> = text::words(command);
    assert(text::texts(words@) == text::words_of(command@));
    if words.len() == 0 {
        let none: Vec<Step> = Vec::new();
        assert(step_views(none@) =~= Seq::<StepView>::empty());
        return none;
    }
    let name = words[0].as_str();
    assert(name@ == text::words_of(command@)[0]);
    if text::same(name, "help") {
        print(HELP)
    } else if text::same(name, "state") {
        one(Step::ShowWifiState)
    } else if text::same(name, "wifi") {
        dispatch_wifi(&words, cfg)
    } else if text::same(name, "log") {
        dispatch_log(&words)
    } else if text::same(name, "tasks") {
        one(Step::ShowTasks)
    } else if text::same(name, "mem") {
        one(Step::ShowMemory)
    } else if text::same(name, "alarm") {
        dispatch_alarm(&words, cfg, alarm)
    } else if text::same(name, "webhook") {
        dispatch_webhook(&words, cfg)
    } else if text::same(name, "ap-info") {
        let mut line = text::join(">> ap_ssid: ", cfg.wifi.ap_ssid.as_str());
        line.append(" (password set: ");
        line.append(text::truth_text(!cfg.wifi.ap_password.as_str().is_empty()));
        line.append(")");
        print(line.as_str())
    } else if text::same(name, "reset") {
        two(Step::Print(">> rebooting...".to_owned()), Step::Restart)
    } else if text::same(name, "factory_reset") {
        let line = Step::Print(">> wiping NVS config + rebooting...".to_owned());
        let steps = vec![line, Step::EraseConfig, Step::Restart];
        assert(step_views(steps@) =~= seq![line@, StepView::EraseConfig, StepView::Restart]);
        steps
    } else {
        let mut line = text::join(">> unknown command: ", name);
        line.append(" — type `help`");
        print(line.as_str())
    }
}

/// Stronger networks go first.
pub open spec fn strength_keys(list: Seq<WifiScanResult>) -> Seq<i64> {
    Seq::new(list.len(), |i: int| -(list[i].rssi_dbm as i64) as i64)
}

pub open spec fn scan_line(n: WifiScanResult) -> Seq<char> {
    ">>   "@ + n.ssid@ + " rssi="@ + text::signed(n.rssi_dbm as int) + " auth="@ + n.auth@ + " ch="@
        + text::decimal(n.channel as nat)
}

/// What a scan found, in the given order.
pub open spec fn scan_report(list: Seq<WifiScanResult>, places: Seq<usize>) -> Seq<Seq<char>> {
    seq![">> "@ + text::decimal(list.len()) + " network(s):"@] + Seq::new(
        places.len(),
        |i: int| scan_line(list[places[i] as int]),
    )
}

/// What a scan found, the strongest network first.
pub fn scan_lines(list: &Vec<WifiScanResult>) -> (lines: Vec<String>)
    ensures
        exists|places: Seq<usize>| #[trigger]
            order::is_order(strength_keys(list@), places) && text::texts(lines@) == scan_report(
                list@,
                places,
            ),
{
    let mut keys: Vec<i64> = Vec::new();
    let n: usize = list.len();
    let mut i: usize = 0;
    while i < n
        invariant
            n == list@.len(),
            i <= n,
            keys@ == strength_keys(list@).take(i as int),
        decreases n - i,
    {
        keys.push(-(list[i].rssi_dbm as i64));
        i += 1;
        assert(keys@ =~= strength_keys(list@).take(i as int));
    }
    assert(keys@ =~= strength_keys(list@));
    let places: Vec<usize> = order::stable_order(&keys);
    let mut lines: Vec<String> = Vec::new();
    let mut head = text::join(">> ", text::decimal_u64(n as u64).as_str());
    head.append(" network(s):");
    lines.push(head);
    let mut k: usize = 0;
    assert(text::texts(lines@) =~= scan_report(list@, places@.take(0)));
    while k < n
        invariant
            k <= n,
            n == list@.len(),
            order::is_order(strength_keys(list@), places@),
            text::texts(lines@) == scan_report(list@, places@.take(k as int)),
        decreases n - k,
    {
        let ghost before = text::texts(lines@);
        let found = &list[places[k]];
        let mut line = text::join(">>   ", found.ssid.as_str());
        line.append(" rssi=");
        line.append(text::signed_i32(found.rssi_dbm as i32).as_str());
        line.append(" auth=");
        line.append(found.auth.as_str());
        line.append(" ch=");
        line.append(text::decimal_u64(found.channel as u64).as_str());
        assert(line@ == scan_line(*found));
        lines.push(line);
        k += 1;
        assert(text::texts(lines@) =~= before.push(line@));
        assert(text::texts(lines@) =~= scan_report(list@, places@.take(k as int)));
    }
    assert(places@.take(k as int) =~= places@);
    lines
}

/// After `wifi add` the network is in the list once, at the end, with the new
/// password; every other network keeps its place among the rest.
pub proof fn added_network_is_there_once(
    networks: Seq<traits::WifiCredsView>,
    network: traits::WifiCredsView,
)
    ensures
        ({
            let after = without(networks, network.ssid).push(network);
            &&& after.last() == network
            &&& forall|i: int|
                0 <= i < after.len() - 1 ==> (#[trigger] after[i]).ssid != network.ssid
        }),
    decreases networks.len(),
{
    without_has_none(networks, network.ssid);
}

/// A removed network is gone; removing it again changes nothing.
pub proof fn removed_network_is_gone(networks: Seq<traits::WifiCredsView>, ssid: Seq<char>)
    ensures
        forall|i: int|
            0 <= i < without(networks, ssid).len() ==> (#[trigger] without(networks, ssid)[i]).ssid
                != ssid,
        without(without(networks, ssid), ssid) == without(networks, ssid),
{
    without_has_none(networks, ssid);
    nothing_to_remove(without(networks, ssid), ssid);
}

proof fn without_has_none(networks: Seq<traits::WifiCredsView>, ssid: Seq<char>)
    ensures
        forall|i: int|
            0 <= i < without(networks, ssid).len() ==> (#[trigger] without(networks, ssid)[i]).ssid
                != ssid,
    decreases networks.len(),
{
    if networks.len() > 0 {
        without_has_none(networks.drop_last(), ssid);
        let rest = without(networks.drop_last(), ssid);
        assert forall|i: int| 0 <= i < without(networks, ssid).len() implies (
        #[trigger] without(networks, ssid)[i]).ssid != ssid by {
            if i < rest.len() {
                assert(without(networks, ssid)[i] == rest[i]);
            }
        }
    }
}

proof fn nothing_to_remove(networks: Seq<traits::WifiCredsView>, ssid: Seq<char>)
    requires
        forall|i: int| 0 <= i < networks.len() ==> (#[trigger] networks[i]).ssid != ssid,
    ensures
        without(networks, ssid) == networks,
    decreases networks.len(),
{
    if networks.len() > 0 {
        assert forall|i: int| 0 <= i < networks.drop_last().len() implies (
        #[trigger] networks.drop_last()[i]).ssid != ssid by {
            assert(networks.drop_last()[i] == networks[i]);
        }
        nothing_to_remove(networks.drop_last(), ssid);
        assert(networks.drop_last().push(networks.last()) =~= networks);
    }
}

/// The line after many bytes.
pub open spec fn edited_all(line: Seq<char>, bytes: Seq<u8>) -> Seq<char>
    decreases bytes.len(),
{
    if bytes.len() == 0 {
        line
    } else {
        edited_all(edited(line, bytes[0]), bytes.skip(1))
    }
}

/// Backspace takes back what was typed.
pub proof fn backspace_takes_back(line: Seq<char>, key: u8, rub: u8)
    requires
        printable(key),
        rubs_out(rub),
    ensures
        edited(edited(line, key), rub) == line,
{
    assert(line.push(key as char).drop_last() =~= line);
}

/// However slowly it is typed, a line of printable bytes is handed over whole.
pub proof fn typed_line_arrives(line: Seq<char>, bytes: Seq<u8>)
    requires
        forall|i: int| 0 <= i < bytes.len() ==> printable(#[trigger] bytes[i]),
    ensures
        edited_all(line, bytes) == line + Seq::new(bytes.len(), |i: int| bytes[i] as char),
    decreases bytes.len(),
{
    let typed = Seq::new(bytes.len(), |i: int| bytes[i] as char);
    if bytes.len() == 0 {
        assert(line + typed =~= line);
    } else {
        let rest = bytes.skip(1);
        assert forall|i: int| 0 <= i < rest.len() implies printable(#[trigger] rest[i]) by {
            assert(rest[i] == bytes[i + 1]);
        }
        typed_line_arrives(edited(line, bytes[0]), rest);
        assert(line.push(bytes[0] as char) + Seq::new(rest.len(), |i: int| rest[i] as char)
            =~= line + typed);
    }
}

/// The keys by their bytes: 32 to 126 are typed and echoed, 8 and 127 take the
/// last character back on the line and on the screen, 10 and 13 end the line,
/// and others do nothing.
pub proof fn keys_do_what_they_are_for(line: Seq<char>, byte: u8)
    ensures
        32 <= byte <= 126 ==> edited(line, byte) == line.push(byte as char)
            && response(line, byte).echo
            == seq![byte],
        (byte == 8 || byte == 127) && line.len() > 0 ==> edited(line, byte) == line.subrange(
            0,
            line.len() - 1,
        ) && response(line, byte).echo == seq![8u8, 32, 8],
        (byte == 8 || byte == 127) && line.len() == 0 ==> edited(line, byte) == line && response(
            line,
            byte,
        ).echo.len() == 0,
        byte == 10 || byte == 13 ==> edited(line, byte).len() == 0 && response(line, byte).prompt
            && response(line, byte).echo == seq![10u8],
        (byte == 10 || byte == 13) && line.len() > 0 ==> response(line, byte).command == Some(
            text::trimmed(line),
        ),
        (byte == 10 || byte == 13) && line.len() == 0 ==> response(line, byte).command is None,
        byte != 10 && byte != 13 ==> response(line, byte).command is None && !response(
            line,
            byte,
        ).prompt,
        byte < 32 && byte != 8 && byte != 10 && byte != 13 || byte > 127 ==> edited(line, byte)
            == line && response(line, byte).echo.len() == 0,
{
    if line.len() > 0 {
        assert(line.drop_last() =~= line.subrange(0, line.len() - 1));
    }
}

/// Levels by their names, in whatever case they are typed.
pub proof fn levels_have_their_names(name: Seq<char>)
    ensures
        level_named(name) == Some(LevelFilter::Off) <==> text::lowered(name) == "off"@
            || text::lowered(name) == "none"@,
        level_named(name) == Some(LevelFilter::Error) <==> text::lowered(name) == "error"@,
        level_named(name) == Some(LevelFilter::Warn) <==> text::lowered(name) == "warn"@
            || text::lowered(name) == "warning"@,
        level_named(name) == Some(LevelFilter::Info) <==> text::lowered(name) == "info"@,
        level_named(name) == Some(LevelFilter::Debug) <==> text::lowered(name) == "debug"@,
        level_named(name) == Some(LevelFilter::Trace) <==> text::lowered(name) == "trace"@
            || text::lowered(name) == "verbose"@,
{
    reveal_strlit("off");
    reveal_strlit("none");
    reveal_strlit("error");
    reveal_strlit("warn");
    reveal_strlit("warning");
    reveal_strlit("info");
    reveal_strlit("debug");
    reveal_strlit("trace");
    reveal_strlit("verbose");
    assert("off"@.len() == 3 && "none"@.len() == 4 && "error"@.len() == 5 && "warn"@.len() == 4
        && "warning"@.len() == 7 && "info"@.len() == 4 && "debug"@.len() == 5
        && "trace"@.len() == 5 && "verbose"@.len() == 7);
    assert("none"@[0] != "warn"@[0]);
    assert("none"@[0] != "info"@[0]);
    assert("error"@[0] != "debug"@[0]);
    assert("error"@[0] != "trace"@[0]);
    assert("warn"@[0] != "info"@[0]);
    assert("warning"@[0] != "verbose"@[0]);
    assert("debug"@[0] != "trace"@[0]);
}

/// Removing a network leaves exactly the others, in their order.
pub proof fn others_stay_when_one_is_removed(
    networks: Seq<traits::WifiCredsView>,
    ssid: Seq<char>,
)
    ensures
        without(networks, ssid) == networks.filter(|n: traits::WifiCredsView| n.ssid != ssid),
    decreases networks.len(),
{
    reveal(Seq::filter);
    if networks.len() > 0 {
        others_stay_when_one_is_removed(networks.drop_last(), ssid);
    }
}

/// What the commands about networks store: an added network comes last and
/// takes the place of one with its name, a removed one is gone, and a clear
/// leaves none. Nothing but these stores networks.
pub proof fn network_commands_store_what_they_say(
    words: Seq<Seq<char>>,
    cfg: config::ConfigView,
    alarm: FlowAlarm,
)
    requires
        words.len() >= 2,
        words[0] == "wifi"@,
    ensures
        ({
            let steps = command_steps(words, cfg, alarm);
            let others = cfg.wifi.networks.filter(
                |n: traits::WifiCredsView| n.ssid != words[2],
            );
            &&& words[1] == "add"@ && words.len() == 3 ==> steps.len() == 1 && (
            steps[0] matches StepView::SaveNetworks { networks, .. } && networks == others.push(
                traits::WifiCredsView { ssid: words[2], password: Seq::empty() },
            ))
            &&& words[1] == "add"@ && words.len() >= 4 ==> steps.len() == 1 && (
            steps[0] matches StepView::SaveNetworks { networks, .. } && networks == others.push(
                traits::WifiCredsView { ssid: words[2], password: words[3] },
            ))
            &&& words[1] == "del"@ && words.len() >= 3 ==> steps.len() == 1 && (
            steps[0] matches StepView::SaveNetworks { networks, .. } && networks == others)
            &&& words[1] == "clear"@ ==> steps.len() == 1 && (
            steps[0] matches StepView::SaveNetworks { networks, .. } && networks.len() == 0)
            &&& words[1] == "scan"@ ==> steps == seq![StepView::Scan]
            &&& words[1] == "connect"@ ==> steps[0] == StepView::Reconnect
            &&& words[1] != "add"@ && words[1] != "del"@ && words[1] != "clear"@ ==> forall|i: int|
                0 <= i < steps.len() ==> !((#[trigger] steps[i]) is SaveNetworks)
        }),
{
    reveal_strlit("help");
    reveal_strlit("state");
    reveal_strlit("wifi");
    reveal_strlit("log");
    reveal_strlit("tasks");
    reveal_strlit("mem");
    reveal_strlit("alarm");
    reveal_strlit("webhook");
    reveal_strlit("ap-info");
    reveal_strlit("reset");
    reveal_strlit("factory_reset");
    assert("help"@.len() == 4 && "state"@.len() == 5 && "wifi"@.len() == 4 && "log"@.len() == 3
        && "tasks"@.len() == 5 && "mem"@.len() == 3 && "alarm"@.len() == 5
        && "webhook"@.len() == 7 && "ap-info"@.len() == 7 && "reset"@.len() == 5
        && "factory_reset"@.len() == 13);
    assert("help"@[0] != "wifi"@[0]);
    assert("state"@[0] != "tasks"@[0]);
    assert("state"@[0] != "alarm"@[0]);
    assert("state"@[0] != "reset"@[0]);
    assert("log"@[0] != "mem"@[0]);
    assert("tasks"@[0] != "alarm"@[0]);
    assert("tasks"@[0] != "reset"@[0]);
    assert("alarm"@[0] != "reset"@[0]);
    assert("webhook"@[0] != "ap-info"@[0]);
    reveal_strlit("list");
    reveal_strlit("add");
    reveal_strlit("del");
    reveal_strlit("clear");
    reveal_strlit("connect");
    reveal_strlit("scan");
    assert("list"@.len() == 4 && "add"@.len() == 3 && "del"@.len() == 3 && "clear"@.len() == 5
        && "connect"@.len() == 7 && "scan"@.len() == 4);
    assert("list"@[0] != "scan"@[0]);
    assert("add"@[0] != "del"@[0]);
    if words.len() >= 3 {
        others_stay_when_one_is_removed(cfg.wifi.networks, words[2]);
    }
}

/// Which command leads to which step, and that no other does: only `reset` and
/// `factory_reset` restart the device, only `factory_reset` removes the
/// configuration, and that before the restart; only `alarm clear` clears the
/// alarm; only `log` sets the level.
pub proof fn commands_lead_to_their_steps(
    words: Seq<Seq<char>>,
    cfg: config::ConfigView,
    alarm: FlowAlarm,
)
    requires
        words.len() >= 1,
    ensures
        ({
            let steps = command_steps(words, cfg, alarm);
            &&& steps.contains(StepView::Restart) <==> words[0] == "reset"@ || words[0]
                == "factory_reset"@
            &&& steps.contains(StepView::EraseConfig) <==> words[0] == "factory_reset"@
            &&& words[0] == "factory_reset"@ ==> steps[1] == StepView::EraseConfig && steps[2]
                == StepView::Restart
            &&& steps.contains(StepView::ClearAlarm) <==> words[0] == "alarm"@ && words.len() >= 2
                && words[1] == "clear"@
            &&& steps.contains(StepView::ShowTasks) <==> words[0] == "tasks"@
            &&& steps.contains(StepView::ShowMemory) <==> words[0] == "mem"@
            &&& steps.contains(StepView::ShowWifiState) <==> words[0] == "state"@
            &&& words[0] == "log"@ && words.len() >= 2 && level_named(words[1]) is Some
                ==> steps[0] == StepView::SetLogLevel(level_named(words[1])->0)
            &&& (exists|i: int| 0 <= i < steps.len() && (#[trigger] steps[i]) is SetLogLevel)
                ==> words[0] == "log"@
        }),
{
    reveal_strlit("help");
    reveal_strlit("state");
    reveal_strlit("wifi");
    reveal_strlit("log");
    reveal_strlit("tasks");
    reveal_strlit("mem");
    reveal_strlit("alarm");
    reveal_strlit("webhook");
    reveal_strlit("ap-info");
    reveal_strlit("reset");
    reveal_strlit("factory_reset");
    assert("help"@.len() == 4 && "state"@.len() == 5 && "wifi"@.len() == 4 && "log"@.len() == 3
        && "tasks"@.len() == 5 && "mem"@.len() == 3 && "alarm"@.len() == 5
        && "webhook"@.len() == 7 && "ap-info"@.len() == 7 && "reset"@.len() == 5
        && "factory_reset"@.len() == 13);
    assert("help"@[0] != "wifi"@[0]);
    assert("state"@[0] != "tasks"@[0]);
    assert("state"@[0] != "alarm"@[0]);
    assert("state"@[0] != "reset"@[0]);
    assert("log"@[0] != "mem"@[0]);
    assert("tasks"@[0] != "alarm"@[0]);
    assert("tasks"@[0] != "reset"@[0]);
    assert("alarm"@[0] != "reset"@[0]);
    assert("webhook"@[0] != "ap-info"@[0]);
    reveal_strlit("clear");
    reveal_strlit("status");
    assert("clear"@.len() != "status"@.len());
    let steps = command_steps(words, cfg, alarm);
    if words[0] == "reset"@ {
        assert(steps[1] == StepView::Restart);
    } else if words[0] == "factory_reset"@ {
        assert(steps[1] == StepView::EraseConfig && steps[2] == StepView::Restart);
    } else if words[0] == "alarm"@ && words.len() >= 2 && words[1] == "clear"@ {
        assert(steps[0] == StepView::ClearAlarm);
    } else if words[0] == "tasks"@ {
        assert(steps[0] == StepView::ShowTasks);
    } else if words[0] == "mem"@ {
        assert(steps[0] == StepView::ShowMemory);
    } else if words[0] == "state"@ {
        assert(steps[0] == StepView::ShowWifiState);
    }
}

/// An event is emitted where its kind is known, and then it is that kind.
pub proof fn known_events_are_emitted(name: Seq<char>, kind: EventKind)
    ensures
        fired(name, Some(kind))[0] == StepView::Emit(kind),
        forall|i: int| 0 <= i < fired(name, None).len() ==> (#[trigger] fired(name, None)[i]) is Print,
{
}

/// A list of networks shows each by its place and its name, and of a password
/// only whether there is one.
pub proof fn lists_do_not_show_passwords(networks: Seq<traits::WifiCredsView>, i: int)
    requires
        0 <= i < networks.len(),
    ensures
        network_lines(networks).len() == networks.len(),
        networks[i].password.len() == 0 ==> network_lines(networks)[i] == ">>   ["@ + text::decimal(
            i as nat,
        ) + "] ssid="@ + networks[i].ssid + " password=<open>"@,
        networks[i].password.len() > 0 ==> network_lines(networks)[i] == ">>   ["@ + text::decimal(
            i as nat,
        ) + "] ssid="@ + networks[i].ssid + " password=<set>"@,
{
    reveal_strlit(" password=");
    reveal_strlit("<open>");
    reveal_strlit("<set>");
    reveal_strlit(" password=<open>");
    reveal_strlit(" password=<set>");
    assert(" password="@ + "<open>"@ =~= " password=<open>"@);
    assert(" password="@ + "<set>"@ =~= " password=<set>"@);
    let line = network_lines(networks)[i];
    let start = ">>   ["@ + text::decimal(i as nat) + "] ssid="@ + networks[i].ssid;
    assert(line =~= start + (" password="@ + (if networks[i].password.len() == 0 {
        "<open>"@
    } else {
        "<set>"@
    })));
}

/// Of each target there are two lines: whether it is on, its kind and the number
/// of its events, and its address.
pub proof fn targets_are_listed_in_pairs(
    targets: Seq<webhook::WebhookConfigView>,
    i: int,
)
    requires
        0 <= i < targets.len(),
    ensures
        target_lines(targets).len() == 2 * targets.len(),
        target_lines(targets)[2 * i] == ">> ["@ + text::decimal(i as nat) + "] "@ + (
        if targets[i].enabled {
            "on"@
        } else {
            "off"@
        }) + " kind="@ + target_kind(targets[i].kind) + " events="@ + text::decimal(
            targets[i].events.len(),
        ),
        target_lines(targets)[2 * i + 1] == ">>     url: "@ + targets[i].url,
    decreases targets.len(),
{
    let before = targets.drop_last();
    if targets.len() > 1 {
        targets_are_listed_in_pairs(before, if i < before.len() { i } else { 0 });
    } else {
        assert(target_lines(before).len() == 0);
    }
}

/// The alarm is shown as it is configured and as it stands.
pub proof fn alarm_is_shown_as_it_stands(cfg: config::FlowAlarmConfig, alarm: FlowAlarm)
    ensures
        alarm_lines(cfg, alarm).len() == 5,
        alarm.active ==> alarm_lines(cfg, alarm)[0] == ">> flow alarm: ACTIVE"@,
        !alarm.active ==> alarm_lines(cfg, alarm)[0] == ">> flow alarm: idle"@,
        alarm_lines(cfg, alarm)[1] == ">>   enabled       : "@ + (if cfg.enabled {
            "true"@
        } else {
            "false"@
        }),
        alarm_lines(cfg, alarm)[3] == ">>   duration      : "@ + text::decimal(
            cfg.duration_secs as nat,
        ) + " s"@,
        alarm_lines(cfg, alarm)[4] == ">>   elapsed       : "@ + text::decimal(
            alarm.elapsed_secs as nat,
        ) + " s"@,
{
    reveal_strlit(">> flow alarm: ");
    reveal_strlit("ACTIVE");
    reveal_strlit("idle");
    reveal_strlit(">> flow alarm: ACTIVE");
    reveal_strlit(">> flow alarm: idle");
    assert(">> flow alarm: "@ + "ACTIVE"@ =~= ">> flow alarm: ACTIVE"@);
    assert(">> flow alarm: "@ + "idle"@ =~= ">> flow alarm: idle"@);
}

/// The strongest network comes first: the strength never rises from line to
/// line, and every network found has one.
pub proof fn strong_networks_come_first(
    list: Seq<WifiScanResult>,
    places: Seq<usize>,
    i: int,
    j: int,
)
    requires
        order::is_order(strength_keys(list), places),
        0 <= i < j < list.len(),
    ensures
        list[places[i] as int].rssi_dbm >= list[places[j] as int].rssi_dbm,
        places[i] != places[j],
        scan_report(list, places).len() == list.len() + 1,
        scan_report(list, places)[i + 1] == ">>   "@ + list[places[i] as int].ssid@ + " rssi="@
            + text::signed(list[places[i] as int].rssi_dbm as int) + " auth="@
            + list[places[i] as int].auth@ + " ch="@ + text::decimal(
            list[places[i] as int].channel as nat,
        ),
{
    order::orders_go_up(strength_keys(list), places, i, j);
    assert(places[i] < list.len() && places[j] < list.len());
}

/// What is said where a step fails, and where there is nothing to list.
pub proof fn failures_and_empty_lists_are_said(
    networks: Seq<traits::WifiCredsView>,
    summary: Seq<char>,
    error: Seq<char>,
)
    ensures
        failure_text(StepView::SaveNetworks { networks, summary }, error) == Some(
            ">> nvs save failed: "@ + error,
        ),
        failure_text(StepView::Scan, error) == Some(">> scan failed: "@ + error),
        failure_text(StepView::EraseConfig, error) == Some(">> factory_reset failed: "@ + error),
        failure_text(StepView::Restart, error) is None,
        network_lines(Seq::empty()) == seq![
            ">> no networks configured (device falls back to AP mode)"@,
        ],
        webhook_lines(Seq::empty()) == seq![">> no webhooks configured"@],
{
}

/// What is said after the networks were stored: the name that was added or
/// removed, that there was none of that name, or how many were cleared.
pub proof fn network_commands_say_what_they_did(
    words: Seq<Seq<char>>,
    cfg: config::ConfigView,
    alarm: FlowAlarm,
    i: int,
)
    requires
        words.len() >= 3,
        words[0] == "wifi"@,
    ensures
        ({
            let steps = command_steps(words, cfg, alarm);
            let networks = cfg.wifi.networks;
            &&& words[1] == "add"@ ==> (steps[0] matches StepView::SaveNetworks { summary, .. }
                && summary == ">> added "@ + words[2])
            &&& words[1] == "del"@ && 0 <= i < networks.len() && networks[i].ssid == words[2] ==> (
            steps[0] matches StepView::SaveNetworks { summary, .. } && summary == ">> removed "@
                + words[2])
            &&& words[1] == "del"@ && (forall|j: int|
                0 <= j < networks.len() ==> (#[trigger] networks[j]).ssid != words[2]) ==> (
            steps[0] matches StepView::SaveNetworks { summary, .. } && summary
                == ">> no such network: "@ + words[2])
            &&& words[1] == "clear"@ ==> (steps[0] matches StepView::SaveNetworks { summary, .. }
                && summary == ">> cleared "@ + text::decimal(networks.len())
                + " network(s) — supervisor will enter AP mode"@)
        }),
{
    reveal_strlit("help");
    reveal_strlit("state");
    reveal_strlit("wifi");
    reveal_strlit("log");
    reveal_strlit("tasks");
    reveal_strlit("mem");
    reveal_strlit("alarm");
    reveal_strlit("webhook");
    reveal_strlit("ap-info");
    reveal_strlit("reset");
    reveal_strlit("factory_reset");
    assert("help"@.len() == 4 && "state"@.len() == 5 && "wifi"@.len() == 4 && "log"@.len() == 3
        && "tasks"@.len() == 5 && "mem"@.len() == 3 && "alarm"@.len() == 5
        && "webhook"@.len() == 7 && "ap-info"@.len() == 7 && "reset"@.len() == 5
        && "factory_reset"@.len() == 13);
    assert("help"@[0] != "wifi"@[0]);
    assert("state"@[0] != "tasks"@[0]);
    assert("state"@[0] != "alarm"@[0]);
    assert("state"@[0] != "reset"@[0]);
    assert("log"@[0] != "mem"@[0]);
    assert("tasks"@[0] != "alarm"@[0]);
    assert("tasks"@[0] != "reset"@[0]);
    assert("alarm"@[0] != "reset"@[0]);
    assert("webhook"@[0] != "ap-info"@[0]);
    reveal_strlit("list");
    reveal_strlit("add");
    reveal_strlit("del");
    reveal_strlit("clear");
    reveal_strlit("connect");
    reveal_strlit("scan");
    assert("list"@.len() == 4 && "add"@.len() == 3 && "del"@.len() == 3 && "clear"@.len() == 5
        && "connect"@.len() == 7 && "scan"@.len() == 4);
    assert("list"@[0] != "scan"@[0]);
    assert("add"@[0] != "del"@[0]);
    let networks = cfg.wifi.networks;
    if 0 <= i < networks.len() && networks[i].ssid == words[2] {
        removing_makes_shorter(networks, words[2], i);
    }
    if forall|j: int| 0 <= j < networks.len() ==> (#[trigger] networks[j]).ssid != words[2] {
        nothing_to_remove(networks, words[2]);
    }
}

proof fn removing_makes_shorter(networks: Seq<traits::WifiCredsView>, ssid: Seq<char>, i: int)
    requires
        0 <= i < networks.len(),
        networks[i].ssid == ssid,
    ensures
        without(networks, ssid).len() < networks.len(),
    decreases networks.len(),
{
    let before = networks.drop_last();
    if i < before.len() {
        assert(before[i] == networks[i]);
        removing_makes_shorter(before, ssid, i);
    } else {
        without_is_not_longer(before, ssid);
    }
}

proof fn without_is_not_longer(networks: Seq<traits::WifiCredsView>, ssid: Seq<char>)
    ensures
        without(networks, ssid).len() <= networks.len(),
    decreases networks.len(),
{
    if networks.len() > 0 {
        without_is_not_longer(networks.drop_last(), ssid);
    }
}

} // verus!
