//! Outbound webhooks: the catalogue of events, the configured targets, body
//! templates, and the HTTP request that a target gets.

use vstd::prelude::*;
use crate::json_text;
use crate::string_map::StringMap;
use crate::text;

verus! {

/// Events that a webhook can ask for.
#[derive(Debug, Clone, Copy, PartialEq, Eq, Hash, Structural)]
pub enum EventKind {
    /// High flow with no sprinkler on, long enough to latch the alarm.
    FlowAlarmFire,
    /// The alarm was cleared by hand.
    FlowAlarmClear,
    /// An ordinary boot.
    Boot,
    /// A boot after a crash or a watchdog reset.
    PanicBoot,
    /// A schedule rule turned a switch on.
    ScheduleFire,
    /// Many reconnects in a short time.
    WifiFlap,
    /// The broker has been out of reach for long.
    MqttDown,
    /// A new image runs and was marked valid.
    OtaCompleted,
    /// The bootloader went back to the previous image.
    OtaRollback,
    /// The water budget of a period is used up.
    WaterBudgetExceeded,
    /// A section of the configuration was written.
    ConfigChanged,
    /// The water control was turned off by hand.
    ManualValveOff,
}

impl EventKind {
    /// The dotted name that appears in configurations and bodies.
    pub open spec fn name(self) -> Seq<char> {
        match self {
            EventKind::FlowAlarmFire => "flow_alarm.fire"@,
            EventKind::FlowAlarmClear => "flow_alarm.clear"@,
            EventKind::Boot => "boot"@,
            EventKind::PanicBoot => "panic_boot"@,
            EventKind::ScheduleFire => "schedule.fire"@,
            EventKind::WifiFlap => "wifi.flap"@,
            EventKind::MqttDown => "mqtt.down"@,
            EventKind::OtaCompleted => "ota.completed"@,
            EventKind::OtaRollback => "ota.rollback"@,
            EventKind::WaterBudgetExceeded => "water_budget.exceeded"@,
            EventKind::ConfigChanged => "config.changed"@,
            EventKind::ManualValveOff => "manual.valve_off"@,
        }
    }

    /// The name for people.
    pub open spec fn label_text(self) -> Seq<char> {
        match self {
            EventKind::FlowAlarmFire => "Flow alarm fired"@,
            EventKind::FlowAlarmClear => "Flow alarm cleared"@,
            EventKind::Boot => "Device booted"@,
            EventKind::PanicBoot => "Device rebooted after a crash"@,
            EventKind::ScheduleFire => "Schedule rule fired"@,
            EventKind::WifiFlap => "WiFi reconnect storm"@,
            EventKind::MqttDown => "MQTT broker unreachable"@,
            EventKind::OtaCompleted => "OTA update completed"@,
            EventKind::OtaRollback => "OTA rolled back"@,
            EventKind::WaterBudgetExceeded => "Water budget exceeded"@,
            EventKind::ConfigChanged => "Configuration changed"@,
            EventKind::ManualValveOff => "Water valve manually closed"@,
        }
    }

    /// All kinds, in the order in which they are declared.
    pub open spec fn every() -> Seq<EventKind> {
        seq![
            EventKind::FlowAlarmFire,
            EventKind::FlowAlarmClear,
            EventKind::Boot,
            EventKind::PanicBoot,
            EventKind::ScheduleFire,
            EventKind::WifiFlap,
            EventKind::MqttDown,
            EventKind::OtaCompleted,
            EventKind::OtaRollback,
            EventKind::WaterBudgetExceeded,
            EventKind::ConfigChanged,
            EventKind::ManualValveOff,
        ]
    }

    pub fn as_str(&self) -> (s: &'static str)
        ensures
            s@ == self.name(),
    {
        match self {
            EventKind::FlowAlarmFire => "flow_alarm.fire",
            EventKind::FlowAlarmClear => "flow_alarm.clear",
            EventKind::Boot => "boot",
            EventKind::PanicBoot => "panic_boot",
            EventKind::ScheduleFire => "schedule.fire",
            EventKind::WifiFlap => "wifi.flap",
            EventKind::MqttDown => "mqtt.down",
            EventKind::OtaCompleted => "ota.completed",
            EventKind::OtaRollback => "ota.rollback",
            EventKind::WaterBudgetExceeded => "water_budget.exceeded",
            EventKind::ConfigChanged => "config.changed",
            EventKind::ManualValveOff => "manual.valve_off",
        }
    }

    pub fn label(&self) -> (s: &'static str)
        ensures
            s@ == self.label_text(),
    {
        match self {
            EventKind::FlowAlarmFire => "Flow alarm fired",
            EventKind::FlowAlarmClear => "Flow alarm cleared",
            EventKind::Boot => "Device booted",
            EventKind::PanicBoot => "Device rebooted after a crash",
            EventKind::ScheduleFire => "Schedule rule fired",
            EventKind::WifiFlap => "WiFi reconnect storm",
            EventKind::MqttDown => "MQTT broker unreachable",
            EventKind::OtaCompleted => "OTA update completed",
            EventKind::OtaRollback => "OTA rolled back",
            EventKind::WaterBudgetExceeded => "Water budget exceeded",
            EventKind::ConfigChanged => "Configuration changed",
            EventKind::ManualValveOff => "Water valve manually closed",
        }
    }

    pub fn all() -> (kinds: &'static [EventKind])
        ensures
            kinds@ == EventKind::every(),
    {
        let kinds: &'static [EventKind] = &[
            EventKind::FlowAlarmFire,
            EventKind::FlowAlarmClear,
            EventKind::Boot,
            EventKind::PanicBoot,
            EventKind::ScheduleFire,
            EventKind::WifiFlap,
            EventKind::MqttDown,
            EventKind::OtaCompleted,
            EventKind::OtaRollback,
            EventKind::WaterBudgetExceeded,
            EventKind::ConfigChanged,
            EventKind::ManualValveOff,
        ];
        kinds
    }

    /// The kind with this dotted name.
    pub open spec fn named(name: Seq<char>) -> Option<EventKind> {
        if name == "flow_alarm.fire"@ {
            Some(EventKind::FlowAlarmFire)
        } else if name == "flow_alarm.clear"@ {
            Some(EventKind::FlowAlarmClear)
        } else if name == "boot"@ {
            Some(EventKind::Boot)
        } else if name == "panic_boot"@ {
            Some(EventKind::PanicBoot)
        } else if name == "schedule.fire"@ {
            Some(EventKind::ScheduleFire)
        } else if name == "wifi.flap"@ {
            Some(EventKind::WifiFlap)
        } else if name == "mqtt.down"@ {
            Some(EventKind::MqttDown)
        } else if name == "ota.completed"@ {
            Some(EventKind::OtaCompleted)
        } else if name == "ota.rollback"@ {
            Some(EventKind::OtaRollback)
        } else if name == "water_budget.exceeded"@ {
            Some(EventKind::WaterBudgetExceeded)
        } else if name == "config.changed"@ {
            Some(EventKind::ConfigChanged)
        } else if name == "manual.valve_off"@ {
            Some(EventKind::ManualValveOff)
        } else {
            None
        }
    }

    pub fn from_name(name: &str) -> (kind: Option<EventKind>)
        ensures
            kind == EventKind::named(name@),
    {
        if text::same(name, "flow_alarm.fire") {
            Some(EventKind::FlowAlarmFire)
        } else if text::same(name, "flow_alarm.clear") {
            Some(EventKind::FlowAlarmClear)
        } else if text::same(name, "boot") {
            Some(EventKind::Boot)
        } else if text::same(name, "panic_boot") {
            Some(EventKind::PanicBoot)
        } else if text::same(name, "schedule.fire") {
            Some(EventKind::ScheduleFire)
        } else if text::same(name, "wifi.flap") {
            Some(EventKind::WifiFlap)
        } else if text::same(name, "mqtt.down") {
            Some(EventKind::MqttDown)
        } else if text::same(name, "ota.completed") {
            Some(EventKind::OtaCompleted)
        } else if text::same(name, "ota.rollback") {
            Some(EventKind::OtaRollback)
        } else if text::same(name, "water_budget.exceeded") {
            Some(EventKind::WaterBudgetExceeded)
        } else if text::same(name, "config.changed") {
            Some(EventKind::ConfigChanged)
        } else if text::same(name, "manual.valve_off") {
            Some(EventKind::ManualValveOff)
        } else {
            None
        }
    }

    /// The kind as it appears in JSON: its dotted name between quotes.
    pub fn to_json(&self) -> (json: String)
        ensures
            json@ == "\""@ + self.name() + "\""@,
            json_text::json_unquoted(json@) == Some(self.name()),
    {
        proof {
            names_are_plain(*self);
            json_text::plain_text_stays(self.name());
        }
        json_text::quote(self.as_str())
    }

    /// Reads a kind out of JSON.
    pub fn from_json(json: &str) -> (kind: Option<EventKind>)
        ensures
            kind == (match json_text::json_unquoted(json@) {
                Some(name) => EventKind::named(name),
                None => None,
            }),
    {
        match json_text::unquote(json) {
            Some(name) => EventKind::from_name(name.as_str()),
            None => None,
        }
    }
}

/// No two kinds share a name, and each is found under its own.
pub proof fn names_identify_kinds(kind: EventKind)
    ensures
        EventKind::named(kind.name()) == Some(kind),
        EventKind::every().contains(kind),
{
    reveal_strlit("flow_alarm.fire");
    reveal_strlit("flow_alarm.clear");
    reveal_strlit("boot");
    reveal_strlit("panic_boot");
    reveal_strlit("schedule.fire");
    reveal_strlit("wifi.flap");
    reveal_strlit("mqtt.down");
    reveal_strlit("ota.completed");
    reveal_strlit("ota.rollback");
    reveal_strlit("water_budget.exceeded");
    reveal_strlit("config.changed");
    reveal_strlit("manual.valve_off");
    let i: int = match kind {
        EventKind::FlowAlarmFire => 0,
        EventKind::FlowAlarmClear => 1,
        EventKind::Boot => 2,
        EventKind::PanicBoot => 3,
        EventKind::ScheduleFire => 4,
        EventKind::WifiFlap => 5,
        EventKind::MqttDown => 6,
        EventKind::OtaCompleted => 7,
        EventKind::OtaRollback => 8,
        EventKind::WaterBudgetExceeded => 9,
        EventKind::ConfigChanged => 10,
        EventKind::ManualValveOff => 11,
    };
    assert(EventKind::every()[i] == kind);
    assert("flow_alarm.fire"@.len() == 15);
    assert("flow_alarm.clear"@.len() == 16);
    assert("boot"@.len() == 4);
    assert("panic_boot"@.len() == 10);
    assert("schedule.fire"@.len() == 13);
    assert("wifi.flap"@.len() == 9);
    assert("mqtt.down"@.len() == 9);
    assert("ota.completed"@.len() == 13);
    assert("ota.rollback"@.len() == 12);
    assert("water_budget.exceeded"@.len() == 21);
    assert("config.changed"@.len() == 14);
    assert("manual.valve_off"@.len() == 16);
    assert("flow_alarm.clear"@[0] != "manual.valve_off"@[0]);
    assert("schedule.fire"@[0] != "ota.completed"@[0]);
    assert("wifi.flap"@[0] != "mqtt.down"@[0]);
}

/// What a target is. It picks the defaults that a form offers and nothing else.
#[derive(Debug, Clone, Copy, PartialEq, Eq, Structural)]
pub enum WebhookKind {
    Generic,
    Slack,
    Discord,
    HomeAssistant,
}

impl Default for WebhookKind {
    fn default() -> (k: Self)
        ensures
            k == WebhookKind::Generic,
    {
        WebhookKind::Generic
    }
}

/// One configured header. Headers are sent in the order in which they are listed.
#[derive(Debug, PartialEq)]
pub struct HeaderEntry {
    pub name: String,
    pub value: String,
}

impl View for HeaderEntry {
    type V = (Seq<char>, Seq<char>);

    open spec fn view(&self) -> (Seq<char>, Seq<char>) {
        (self.name@, self.value@)
    }
}

impl Clone for HeaderEntry {
    fn clone(&self) -> (h: Self)
        ensures
            h == *self,
    {
        HeaderEntry { name: self.name.clone(), value: self.value.clone() }
    }
}

/// A list of headers by name and value.
pub open spec fn header_views(headers: Seq<HeaderEntry>) -> Seq<(Seq<char>, Seq<char>)> {
    Seq::new(headers.len(), |i: int| headers[i]@)
}

/// Most targets that a configuration may hold.
pub const WEBHOOKS_MAX: usize = 4;

/// One target.
#[derive(Debug, PartialEq)]
pub struct WebhookConfig {
    pub enabled: bool,
    /// Where to send to, `http://` or `https://`.
    pub url: String,
    pub kind: WebhookKind,
    /// The events that the target gets. Empty stands for none.
    pub events: Vec<EventKind>,
    /// `POST` or `PUT`.
    pub method: String,
    /// Headers beside those that every request has.
    pub headers: Vec<HeaderEntry>,
    /// Body with `{{name}}` where the value of a variable goes.
    pub body_template: String,
}

pub struct WebhookConfigView {
    pub enabled: bool,
    pub url: Seq<char>,
    pub kind: WebhookKind,
    pub events: Seq<EventKind>,
    pub method: Seq<char>,
    pub headers: Seq<(Seq<char>, Seq<char>)>,
    pub body_template: Seq<char>,
}

impl WebhookConfigView {
    /// The target is on and asks for this kind of event.
    pub open spec fn wants(self, kind: EventKind) -> bool {
        self.enabled && self.events.contains(kind)
    }
}

impl View for WebhookConfig {
    type V = WebhookConfigView;

    open spec fn view(&self) -> WebhookConfigView {
        WebhookConfigView {
            enabled: self.enabled,
            url: self.url@,
            kind: self.kind,
            events: self.events@,
            method: self.method@,
            headers: header_views(self.headers@),
            body_template: self.body_template@,
        }
    }
}

impl Clone for WebhookConfig {
    fn clone(&self) -> (w: Self)
        ensures
            w@ == self@,
    {
        let w = WebhookConfig {
            enabled: self.enabled,
            url: self.url.clone(),
            kind: self.kind,
            events: self.events.clone(),
            method: self.method.clone(),
            headers: self.headers.clone(),
            body_template: self.body_template.clone(),
        };
        proof {
            assert(w.events@ =~= self.events@);
            assert forall|i: int| 0 <= i < self.headers@.len() implies #[trigger] w.headers@[i]
                == self.headers@[i] by {
                assert(cloned(self.headers@[i], w.headers@[i]));
            }
            assert(header_views(w.headers@) =~= header_views(self.headers@));
        }
        w
    }
}

pub const DEFAULT_BODY_TEMPLATE: &'static str =
    "{\"event\":\"{{event}}\",\"label\":\"{{event_label}}\",\"device\":\"{{device}}\",\"ts\":\"{{iso_ts}}\",\"uptime_s\":{{uptime_s}}}";

impl Default for WebhookConfig {
    fn default() -> (w: Self)
        ensures
            w@ == (WebhookConfigView {
                enabled: true,
                url: Seq::empty(),
                kind: WebhookKind::Generic,
                events: Seq::empty(),
                method: "POST"@,
                headers: Seq::empty(),
                body_template: DEFAULT_BODY_TEMPLATE@,
            }),
    {
        let w = WebhookConfig {
            enabled: true,
            url: String::new(),
            kind: WebhookKind::Generic,
            events: Vec::new(),
            method: "POST".to_owned(),
            headers: Vec::new(),
            body_template: DEFAULT_BODY_TEMPLATE.to_owned(),
        };
        assert(header_views(w.headers@) =~= Seq::<(Seq<char>, Seq<char>)>::empty());
        w
    }
}

/// No name holds a character that JSON would escape.
proof fn names_are_plain(kind: EventKind)
    ensures
        forall|i: int| 0 <= i < kind.name().len() ==> json_text::is_plain(#[trigger] kind.name()[i]),
{
    reveal_strlit("flow_alarm.fire");
    reveal_strlit("flow_alarm.clear");
    reveal_strlit("boot");
    reveal_strlit("panic_boot");
    reveal_strlit("schedule.fire");
    reveal_strlit("wifi.flap");
    reveal_strlit("mqtt.down");
    reveal_strlit("ota.completed");
    reveal_strlit("ota.rollback");
    reveal_strlit("water_budget.exceeded");
    reveal_strlit("config.changed");
    reveal_strlit("manual.valve_off");
}

/// Variables by name, as texts.
pub open spec fn var_texts(vars: StringMap<String>) -> Map<Seq<char>, Seq<char>> {
    vars@.map_values(|v: String| v@)
}

/// Something that happened, with the variables that templates can use.
#[derive(Debug, PartialEq)]
pub struct WebhookEvent {
    pub kind: EventKind,
    pub vars: StringMap<String>,
}

impl WebhookEvent {
    pub fn new(kind: EventKind) -> (e: Self)
        ensures
            e.kind == kind,
            e.vars.wf(),
            e.vars@ == Map::<Seq<char>, String>::empty(),
    {
        WebhookEvent { kind, vars: StringMap::new() }
    }

    /// Sets a variable.
    pub fn with(self, key: &str, value: &str) -> (e: Self)
        requires
            self.vars.wf(),
        ensures
            e.kind == self.kind,
            e.vars.wf(),
            var_texts(e.vars) == var_texts(self.vars).insert(key@, value@),
    {
        let kind = self.kind;
        let mut vars = self.vars;
        let v = value.to_owned();
        vars.insert(key.to_owned(), v);
        assert(vars@.map_values(|v: String| v@) =~= self.vars@.map_values(
            |v: String| v@,
        ).insert(key@, value@));
        WebhookEvent { kind, vars }
    }
}

/// Variables with one more, unless they hold it already.
pub open spec fn with_default(
    vars: Map<Seq<char>, Seq<char>>,
    key: Seq<char>,
    value: Seq<char>,
) -> Map<Seq<char>, Seq<char>> {
    if vars.contains_key(key) {
        vars
    } else {
        vars.insert(key, value)
    }
}

/// The variables of an event with the five that every event has: its name, its
/// label, the time, the device and how long that has run. What the event brings
/// along stays.
pub open spec fn completed(
    vars: Map<Seq<char>, Seq<char>>,
    kind: EventKind,
    device: Seq<char>,
    iso_ts: Seq<char>,
    uptime_s: u64,
) -> Map<Seq<char>, Seq<char>> {
    let a = with_default(vars, "event"@, kind.name());
    let b = with_default(a, "event_label"@, kind.label_text());
    let c = with_default(b, "iso_ts"@, iso_ts);
    let d = with_default(c, "device"@, device);
    with_default(d, "uptime_s"@, text::decimal(uptime_s as nat))
}

impl WebhookEvent {
    /// Sets a variable that the event does not bring along.
    fn or_with(self, key: &str, value: &str) -> (e: Self)
        requires
            self.vars.wf(),
        ensures
            e.kind == self.kind,
            e.vars.wf(),
            var_texts(e.vars) == with_default(var_texts(self.vars), key@, value@),
    {
        if self.vars.get(key).is_some() {
            self
        } else {
            self.with(key, value)
        }
    }

    /// Adds the variables that every event has, where they are missing.
    pub fn complete(self, device: &str, iso_ts: &str, uptime_s: u64) -> (e: Self)
        requires
            self.vars.wf(),
        ensures
            e.kind == self.kind,
            e.vars.wf(),
            var_texts(e.vars) == completed(
                var_texts(self.vars),
                self.kind,
                device@,
                iso_ts@,
                uptime_s,
            ),
    {
        let kind = self.kind;
        let uptime = text::decimal_u64(uptime_s);
        self.or_with("event", kind.as_str()).or_with("event_label", kind.label()).or_with(
            "iso_ts",
            iso_ts,
        ).or_with("device", device).or_with("uptime_s", uptime.as_str())
    }
}

/// Every event that is delivered has the five variables, and those that it
/// brings along keep their values.
pub proof fn every_event_has_its_variables(
    vars: Map<Seq<char>, Seq<char>>,
    kind: EventKind,
    device: Seq<char>,
    iso_ts: Seq<char>,
    uptime_s: u64,
    key: Seq<char>,
)
    ensures
        ({
            let all = completed(vars, kind, device, iso_ts, uptime_s);
            &&& all.contains_key("event"@)
            &&& all.contains_key("event_label"@)
            &&& all.contains_key("iso_ts"@)
            &&& all.contains_key("device"@)
            &&& all.contains_key("uptime_s"@)
            &&& vars.contains_key(key) ==> all.contains_key(key) && all[key] == vars[key]
            &&& !vars.contains_key("event"@) ==> all["event"@] == kind.name()
            &&& !vars.contains_key("event_label"@) ==> all["event_label"@] == kind.label_text()
            &&& !vars.contains_key("iso_ts"@) ==> all["iso_ts"@] == iso_ts
            &&& !vars.contains_key("device"@) ==> all["device"@] == device
            &&& !vars.contains_key("uptime_s"@) ==> all["uptime_s"@] == text::decimal(
                uptime_s as nat,
            )
        }),
{
    reveal_strlit("event");
    reveal_strlit("event_label");
    reveal_strlit("iso_ts");
    reveal_strlit("device");
    reveal_strlit("uptime_s");
    assert("event"@.len() == 5 && "event_label"@.len() == 11 && "iso_ts"@.len() == 6
        && "device"@.len() == 6 && "uptime_s"@.len() == 8);
    assert("iso_ts"@[0] == 'i' && "device"@[0] == 'd');
}

/// How a variable is written in a template.
pub open spec fn placeholder(name: Seq<char>) -> Seq<char> {
    "{{"@ + name + "}}"@
}

/// The template after the first `n` variables have been put in, one after the
/// other.
pub open spec fn rendered(template: Seq<char>, vars: Seq<(String, String)>, n: nat) -> Seq<char>
    decreases n,
{
    if n == 0 {
        template
    } else {
        text::replaced(
            rendered(template, vars, (n - 1) as nat),
            placeholder(vars[n - 1].0@),
            vars[n - 1].1@,
        )
    }
}

/// Puts the values of variables in place of their placeholders, in the order
/// of the variables' names. Placeholders of unknown variables stay.
pub fn render_template(template: &str, vars: &StringMap<String>) -> (out: String)
    ensures
        out@ == rendered(template@, vars.entries(), vars.entries().len()),
{
    let mut out = template.to_owned();
    let mut i: usize = 0;
    while i < vars.len()
        invariant
            i <= vars.entries().len(),
            out@ == rendered(template@, vars.entries(), i as nat),
        decreases vars.entries().len() - i,
    {
        let entry = vars.at(i);
        let opened = text::join("{{", entry.0.as_str());
        let mark = text::join(opened.as_str(), "}}");
        proof {
            reveal_strlit("{{");
        }
        out = text::replace_all(out.as_str(), mark.as_str(), entry.1.as_str());
        i += 1;
    }
    out
}

/// A template without placeholders of known variables comes out as it is:
/// unknown placeholders are left for the receiver to see.
pub proof fn unknown_placeholders_stay(template: Seq<char>, vars: Seq<(String, String)>, n: nat)
    requires
        n <= vars.len(),
        forall|k: int, i: int|
            0 <= k < vars.len() && 0 <= i < template.len() ==> !#[trigger] text::found_at(
                template,
                placeholder(vars[k].0@),
                i,
            ),
    ensures
        rendered(template, vars, n) == template,
    decreases n,
{
    if n > 0 {
        unknown_placeholders_stay(template, vars, (n - 1) as nat);
        text::replaced_without_occurrence(
            template,
            placeholder(vars[n - 1].0@),
            vars[n - 1].1@,
        );
    }
}

/// Takes events. Taking one must not block.
pub trait WebhookDispatcher: Send + Sync {
    fn dispatch(&mut self, event: WebhookEvent);
}

/// Drops every event.
pub struct NoopDispatcher;

impl WebhookDispatcher for NoopDispatcher {
    fn dispatch(&mut self, _event: WebhookEvent)
        ensures
            *final(self) == *old(self),
    {
    }
}

impl Default for NoopDispatcher {
    fn default() -> (d: Self) {
        NoopDispatcher
    }
}

/// Keeps every event, in the order in which they came.
pub struct RecordingDispatcher {
    events: Vec<WebhookEvent>,
}

impl View for RecordingDispatcher {
    type V = Seq<WebhookEvent>;

    closed spec fn view(&self) -> Seq<WebhookEvent> {
        self.events@
    }
}

impl Default for RecordingDispatcher {
    fn default() -> (d: Self)
        ensures
            d@ == Seq::<WebhookEvent>::empty(),
    {
        RecordingDispatcher { events: Vec::new() }
    }
}

impl WebhookDispatcher for RecordingDispatcher {
    fn dispatch(&mut self, event: WebhookEvent)
        ensures
            final(self)@ == old(self)@.push(event),
    {
        self.events.push(event);
    }
}

impl RecordingDispatcher {
    /// Hands out the events and starts over.
    pub fn take(&mut self) -> (events: Vec<WebhookEvent>)
        ensures
            events@ == old(self)@,
            final(self)@ == Seq::<WebhookEvent>::empty(),
    {
        let mut out: Vec<WebhookEvent> = Vec::new();
        out.append(&mut self.events);
        out
    }

    pub fn len(&self) -> (n: usize)
        ensures
            n == self@.len(),
    {
        self.events.len()
    }

    pub fn is_empty(&self) -> (r: bool)
        ensures
            r == (self@.len() == 0),
    {
        self.events.len() == 0
    }
}

/// A name stands for one kind of event and a kind has one name, by which
/// subscriptions and templates know it; the catalogue lists every kind once.
pub proof fn kinds_and_names_belong_together(name: Seq<char>, kind: EventKind, i: int, j: int)
    ensures
        EventKind::named(name) == Some(kind) <==> kind.name() == name,
        kind.name() == (match kind {
            EventKind::FlowAlarmFire => "flow_alarm.fire"@,
            EventKind::FlowAlarmClear => "flow_alarm.clear"@,
            EventKind::Boot => "boot"@,
            EventKind::PanicBoot => "panic_boot"@,
            EventKind::ScheduleFire => "schedule.fire"@,
            EventKind::WifiFlap => "wifi.flap"@,
            EventKind::MqttDown => "mqtt.down"@,
            EventKind::OtaCompleted => "ota.completed"@,
            EventKind::OtaRollback => "ota.rollback"@,
            EventKind::WaterBudgetExceeded => "water_budget.exceeded"@,
            EventKind::ConfigChanged => "config.changed"@,
            EventKind::ManualValveOff => "manual.valve_off"@,
        }),
        kind.label_text() == (match kind {
            EventKind::FlowAlarmFire => "Flow alarm fired"@,
            EventKind::FlowAlarmClear => "Flow alarm cleared"@,
            EventKind::Boot => "Device booted"@,
            EventKind::PanicBoot => "Device rebooted after a crash"@,
            EventKind::ScheduleFire => "Schedule rule fired"@,
            EventKind::WifiFlap => "WiFi reconnect storm"@,
            EventKind::MqttDown => "MQTT broker unreachable"@,
            EventKind::OtaCompleted => "OTA update completed"@,
            EventKind::OtaRollback => "OTA rolled back"@,
            EventKind::WaterBudgetExceeded => "Water budget exceeded"@,
            EventKind::ConfigChanged => "Configuration changed"@,
            EventKind::ManualValveOff => "Water valve manually closed"@,
        }),
        EventKind::every().len() == 12,
        EventKind::every().contains(kind),
        0 <= i < j < 12 ==> EventKind::every()[i] != EventKind::every()[j],
{
    names_identify_kinds(kind);
    if EventKind::named(name) is Some {
        names_identify_kinds(EventKind::named(name)->0);
    }
    let all = EventKind::every();
    assert(0 <= i < j < 12 ==> all[i] != all[j]) by {
        assert(i == 0 || i == 1 || i == 2 || i == 3 || i == 4 || i == 5 || i == 6 || i == 7
            || i == 8
            || i == 9 || i == 10 || i < 0 || i > 10);
    }
}

/// A variable is put where its name stands between double braces, from left to
/// right, and what stands around it stays.
pub proof fn values_take_the_place_of_names(
    before: Seq<char>,
    name: String,
    value: String,
    after: Seq<char>,
)
    requires
        forall|at: int|
            0 <= at < before.len() ==> !("{{"@ + name@ + "}}"@).is_prefix_of(
                #[trigger] (before + ("{{"@ + name@ + "}}"@) + after).skip(at),
            ),
    ensures
        rendered(before + ("{{"@ + name@ + "}}"@) + after, seq![(name, value)], 1) == before
            + value@ + rendered(after, seq![(name, value)], 1),
        rendered(after, Seq::empty(), 0) == after,
{
    reveal_strlit("{{");
    let vars = seq![(name, value)];
    let mark = "{{"@ + name@ + "}}"@;
    text::first_occurrence_is_replaced(before, mark, after, value@);
    reveal_with_fuel(rendered, 2);
    assert(vars[0].0 == name && vars[0].1 == value);
}

/// Variables are put in one after the other: each into what the ones before it
/// have left.
pub proof fn variables_are_put_in_by_turns(template: Seq<char>, vars: Seq<(String, String)>, n: nat)
    requires
        n < vars.len(),
    ensures
        rendered(template, vars, n + 1) == rendered(
            rendered(template, vars, n),
            seq![vars[n as int]],
            1,
        ),
{
    reveal_with_fuel(rendered, 2);
    let one = seq![vars[n as int]];
    assert(one[0] == vars[n as int]);
}

/// A target asks for an event where it is on and lists the kind, and only there.
pub proof fn targets_ask_by_listing(t: WebhookConfigView, kind: EventKind, i: int)
    ensures
        t.wants(kind) ==> t.enabled && t.events.len() > 0,
        t.enabled && 0 <= i < t.events.len() && t.events[i] == kind ==> t.wants(kind),
        (forall|j: int| 0 <= j < t.events.len() ==> #[trigger] t.events[j] != kind) ==> !t.wants(
            kind,
        ),
{
}

} // verus!
