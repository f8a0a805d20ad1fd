//! What is published to the broker, and what arrives from it: announcements and
//! state go out, commands to the switches come in.

use vstd::prelude::*;
use crate::api::{CommandOutcome, SwitchCommand};
use crate::app::App;
use crate::config::Config;
use crate::ha_discovery;
use crate::ha_discovery::DeviceContext;
use crate::state::{DeviceSnapshot, WaterControlState};
use crate::text;
use crate::traits::PublishOpts;

verus! {

/// A message to publish.
#[derive(Debug, PartialEq, Eq)]
pub struct Publish {
    pub topic: String,
    pub payload: Vec<u8>,
    pub opts: PublishOpts,
}

pub struct PublishView {
    pub topic: Seq<char>,
    pub payload: Seq<u8>,
    pub opts: PublishOpts,
}

impl View for Publish {
    type V = PublishView;

    open spec fn view(&self) -> PublishView {
        PublishView { topic: self.topic@, payload: self.payload@, opts: self.opts }
    }
}

/// Messages by topic, payload and options.
pub open spec fn publish_views(v: Seq<Publish>) -> Seq<PublishView> {
    Seq::new(v.len(), |i: int| v[i]@)
}

/// Every message is kept by the broker and delivered at least once.
pub open spec fn retained_opts() -> PublishOpts {
    PublishOpts { retained: true, qos: 1 }
}

pub fn retained() -> (o: PublishOpts)
    ensures
        o == retained_opts(),
{
    PublishOpts { retained: true, qos: 1 }
}

/// A kept message with a text as its payload.
pub open spec fn kept_text(topic: Seq<char>, payload: Seq<char>) -> PublishView {
    PublishView {
        topic,
        payload: vstd::utf8::encode_utf8(payload),
        opts: retained_opts(),
    }
}

/// What to do after a connect.
pub struct ConnectPlan {
    pub publishes: Vec<Publish>,
    pub subscriptions: Vec<String>,
}

/// Measured values as the texts that are published, where there are any.
pub struct SensorTexts {
    pub battery: Option<String>,
    pub pressure: Option<String>,
    pub water_flow: Option<String>,
    pub water_total: Option<String>,
}

/// `ON` or `OFF`.
pub open spec fn on_off(on: bool) -> Seq<char> {
    if on {
        "ON"@
    } else {
        "OFF"@
    }
}

/// A message for a value that may be missing.
pub open spec fn optional_state(base: Seq<char>, key: Seq<char>, value: Option<String>) -> Seq<
    PublishView,
> {
    match value {
        Some(v) => seq![kept_text(ha_discovery::topic_of(base, key, "state"@), v@)],
        None => Seq::empty(),
    }
}

/// The state messages: the measurements that there are, and the switches. A
/// water control on its way counts as on.
pub open spec fn state_messages(
    base: Seq<char>,
    snap: DeviceSnapshot,
    texts: SensorTexts,
) -> Seq<PublishView> {
    optional_state(base, "battery"@, texts.battery) + optional_state(
        base,
        "pressure"@,
        texts.pressure,
    ) + optional_state(base, "water_flow"@, texts.water_flow) + optional_state(
        base,
        "water_total"@,
        texts.water_total,
    ) + switch_messages(base, snap)
}

pub open spec fn switch_messages(base: Seq<char>, snap: DeviceSnapshot) -> Seq<PublishView> {
    seq![
        kept_text(
            ha_discovery::topic_of(base, "sprinkler_1"@, "state"@),
            on_off(snap.switches.sprinkler_1),
        ),
        kept_text(
            ha_discovery::topic_of(base, "sprinkler_2"@, "state"@),
            on_off(snap.switches.sprinkler_2),
        ),
        kept_text(
            ha_discovery::topic_of(base, "water_control"@, "state"@),
            on_off(snap.switches.water_control != WaterControlState::Off),
        ),
    ]
}

/// The state messages of the bare-metal build: uptime, switches, flow alarm.
pub open spec fn brief_state_messages(base: Seq<char>, snap: DeviceSnapshot) -> Seq<PublishView> {
    seq![
        kept_text(
            ha_discovery::topic_of(base, "uptime"@, "state"@),
            brief_uptime(snap.uptime_ms / 1_000),
        ),
    ] + switch_messages(base, snap) + seq![
        kept_text(
            ha_discovery::topic_of(base, "flow_alarm"@, "state"@),
            on_off(snap.alarm.active),
        ),
    ]
}

/// Uptime in a field of sixteen digits. A longer number is left out.
pub open spec fn brief_uptime(secs: u64) -> Seq<char> {
    if secs < 10_000_000_000_000_000 {
        text::decimal(secs as nat)
    } else {
        Seq::empty()
    }
}

fn text_message(topic: String, payload: &str) -> (p: Publish)
    ensures
        p@ == kept_text(topic@, payload@),
{
    Publish { topic, payload: payload.as_bytes_vec(), opts: retained() }
}

fn on_off_text(on: bool) -> (s: &'static str)
    ensures
        s@ == on_off(on),
{
    if on {
        "ON"
    } else {
        "OFF"
    }
}

fn push_message(out: &mut Vec<Publish>, p: Publish)
    ensures
        publish_views(final(out)@) == publish_views(old(out)@).push(p@),
{
    let ghost before = out@;
    out.push(p);
    assert(publish_views(out@) =~= publish_views(before).push(p@));
}

fn push_optional(out: &mut Vec<Publish>, ctx: &DeviceContext, key: &str, value: &Option<String>)
    ensures
        publish_views(final(out)@) == publish_views(old(out)@) + optional_state(
            ctx.base_topic@,
            key@,
            *value,
        ),
{
    if let Some(v) = value {
        let p = text_message(ctx.sensor_state_topic(key), v.as_str());
        push_message(out, p);
    }
    assert(publish_views(out@) =~= publish_views(old(out)@) + optional_state(
        ctx.base_topic@,
        key@,
        *value,
    ));
}

fn push_switch(out: &mut Vec<Publish>, ctx: &DeviceContext, key: &str, on: bool)
    ensures
        publish_views(final(out)@) == publish_views(old(out)@).push(
            kept_text(ha_discovery::topic_of(ctx.base_topic@, key@, "state"@), on_off(on)),
        ),
{
    let p = text_message(ctx.switch_state_topic(key), on_off_text(on));
    push_message(out, p);
}

fn control_is_on(snap: &DeviceSnapshot) -> (on: bool)
    ensures
        on == (snap.switches.water_control != WaterControlState::Off),
{
    match snap.switches.water_control {
        WaterControlState::Off => false,
        _ => true,
    }
}

fn push_switches(out: &mut Vec<Publish>, ctx: &DeviceContext, snap: &DeviceSnapshot)
    ensures
        publish_views(final(out)@) == publish_views(old(out)@) + switch_messages(
            ctx.base_topic@,
            *snap,
        ),
{
    push_switch(out, ctx, "sprinkler_1", snap.switches.sprinkler_1);
    push_switch(out, ctx, "sprinkler_2", snap.switches.sprinkler_2);
    push_switch(out, ctx, "water_control", control_is_on(snap));
    assert(publish_views(out@) =~= publish_views(old(out)@) + switch_messages(
        ctx.base_topic@,
        *snap,
    ));
}

/// The device on the broker.
pub struct MqttIntegration {
    pub firmware_version: String,
}

/// The announcements as messages, followed by the marker that we are there.
pub open spec fn connect_messages(ctx: ha_discovery::ContextView) -> Seq<PublishView> {
    Seq::new(
        12,
        |i: int|
            PublishView {
                topic: ha_discovery::announcements(ctx)[i].topic,
                payload: ha_discovery::announcements(ctx)[i].payload,
                opts: retained_opts(),
            },
    ).push(kept_text(ctx.availability(), "online"@))
}

/// The context that belongs to a configuration.
pub open spec fn context_of(cfg: Config, version: Seq<char>) -> ha_discovery::ContextView {
    ha_discovery::ContextView {
        base_topic: cfg.mqtt.base_topic@,
        discovery_prefix: cfg.mqtt.ha_discovery_prefix@,
        device_id: cfg.wifi.hostname@,
        friendly_name: "Doremorwater"@,
        sw_version: version,
        manufacturer: "homebrew"@,
        model: "watercontroller"@,
    }
}

impl MqttIntegration {
    /// Announcements and presence, and the topics on which commands come.
    pub fn on_connect(&self, cfg: &Config) -> (plan: ConnectPlan)
        ensures
            publish_views(plan.publishes@) == connect_messages(
                context_of(*cfg, self.firmware_version@),
            ),
            text::texts(plan.subscriptions@) == seq![
                ha_discovery::topic_of(cfg.mqtt.base_topic@, "sprinkler_1"@, "set"@),
                ha_discovery::topic_of(cfg.mqtt.base_topic@, "sprinkler_2"@, "set"@),
                ha_discovery::topic_of(cfg.mqtt.base_topic@, "water_control"@, "set"@),
            ],
    {
        let ctx = self.context(cfg);
        let announcements = ha_discovery::all_messages(&ctx);
        let ghost views = ha_discovery::message_views(announcements@);
        assert(announcements@.len() == views.len());
        let mut publishes: Vec<Publish> = Vec::new();
        let mut i: usize = 0;
        while i < announcements.len()
            invariant
                i <= announcements@.len(),
                announcements@.len() == 12,
                views == ha_discovery::message_views(announcements@),
                views == ha_discovery::announcements(ctx@),
                publishes@.len() == i,
                forall|j: int|
                    0 <= j < i ==> (#[trigger] publishes@[j])@ == connect_messages(ctx@)[j],
            decreases announcements@.len() - i,
        {
            let m = &announcements[i];
            let mut payload: Vec<u8> = Vec::new();
            payload.extend_from_slice(m.payload.as_slice());
            assert(payload@ =~= m.payload@);
            assert(views[i as int] == m@);
            let p = Publish { topic: m.topic.clone(), payload, opts: retained() };
            publishes.push(p);
            i += 1;
        }
        push_message(&mut publishes, text_message(ctx.availability_topic(), "online"));
        assert(publish_views(publishes@) =~= connect_messages(ctx@));
        let subscriptions = vec![
            ctx.switch_command_topic("sprinkler_1"),
            ctx.switch_command_topic("sprinkler_2"),
            ctx.switch_command_topic("water_control"),
        ];
        assert(text::texts(subscriptions@) =~= seq![
            ha_discovery::topic_of(cfg.mqtt.base_topic@, "sprinkler_1"@, "set"@),
            ha_discovery::topic_of(cfg.mqtt.base_topic@, "sprinkler_2"@, "set"@),
            ha_discovery::topic_of(cfg.mqtt.base_topic@, "water_control"@, "set"@),
        ]);
        ConnectPlan { publishes, subscriptions }
    }

    /// The current state.
    pub fn publish_state(&self, cfg: &Config, snap: &DeviceSnapshot, texts: &SensorTexts) -> (out:
        Vec<Publish>)
        ensures
            publish_views(out@) == state_messages(cfg.mqtt.base_topic@, *snap, *texts),
    {
        let ctx = self.context(cfg);
        let mut out: Vec<Publish> = Vec::new();
        assert(publish_views(out@) =~= Seq::<PublishView>::empty());
        push_optional(&mut out, &ctx, "battery", &texts.battery);
        push_optional(&mut out, &ctx, "pressure", &texts.pressure);
        push_optional(&mut out, &ctx, "water_flow", &texts.water_flow);
        push_optional(&mut out, &ctx, "water_total", &texts.water_total);
        push_switches(&mut out, &ctx, snap);
        assert(Seq::<PublishView>::empty() + optional_state(
            cfg.mqtt.base_topic@,
            "battery"@,
            texts.battery,
        ) =~= optional_state(cfg.mqtt.base_topic@, "battery"@, texts.battery));
        assert(publish_views(out@) == state_messages(cfg.mqtt.base_topic@, *snap, *texts));
        out
    }

    /// The current state in the few messages of the bare-metal build.
    pub fn publish_brief_state(&self, cfg: &Config, snap: &DeviceSnapshot) -> (out: Vec<Publish>)
        ensures
            publish_views(out@) == brief_state_messages(cfg.mqtt.base_topic@, *snap),
    {
        let ctx = self.context(cfg);
        let mut out: Vec<Publish> = Vec::new();
        let secs: u64 = snap.uptime_ms / 1_000;
        let uptime = if secs < 10_000_000_000_000_000 {
            text::decimal_u64(secs)
        } else {
            String::new()
        };
        push_message(&mut out, text_message(ctx.sensor_state_topic("uptime"), uptime.as_str()));
        push_switches(&mut out, &ctx, snap);
        push_switch(&mut out, &ctx, "flow_alarm", snap.alarm.active);
        assert(publish_views(out@) =~= brief_state_messages(cfg.mqtt.base_topic@, *snap));
        out
    }

    /// The marker that we are gone.
    pub fn publish_offline(&self, cfg: &Config) -> (p: Publish)
        ensures
            p@ == kept_text(cfg.mqtt.base_topic@ + "/status"@, "offline"@),
    {
        text_message(text::join(cfg.mqtt.base_topic.as_str(), "/status"), "offline")
    }

    fn context<'a>(&'a self, cfg: &'a Config) -> (ctx: DeviceContext<'a>)
        ensures
            ctx@ == context_of(*cfg, self.firmware_version@),
    {
        DeviceContext {
            base_topic: cfg.mqtt.base_topic.as_str(),
            discovery_prefix: cfg.mqtt.ha_discovery_prefix.as_str(),
            device_id: cfg.wifi.hostname.as_str(),
            friendly_name: "Doremorwater",
            sw_version: self.firmware_version.as_str(),
            manufacturer: "homebrew",
            model: "watercontroller",
        }
    }
}

/// The level that a payload asks for.
pub open spec fn wanted_level(payload: Seq<u8>) -> Option<bool> {
    if payload == seq![79u8, 78] || payload == seq![111u8, 110] || payload == seq![49u8] || payload
        == seq![116u8, 114, 117, 101] {
        Some(true)
    } else if payload == seq![79u8, 70, 70] || payload == seq![111u8, 102, 102] || payload
        == seq![48u8] || payload == seq![102u8, 97, 108, 115, 101] {
        Some(false)
    } else {
        None
    }
}

fn same_bytes(a: &[u8], b: &[u8]) -> (r: bool)
    ensures
        r == (a@ == b@),
{
    if a.len() != b.len() {
        return false;
    }
    let mut i: usize = 0;
    while i < a.len()
        invariant
            i <= a@.len(),
            a@.len() == b@.len(),
            forall|j: int| 0 <= j < i ==> a@[j] == b@[j],
        decreases a@.len() - i,
    {
        if a[i] != b[i] {
            return false;
        }
        i += 1;
    }
    assert(a@ =~= b@);
    true
}

/// `ON`, `on`, `1`, `true`, `OFF`, `off`, `0` and `false` are understood.
pub fn payload_level(payload: &[u8]) -> (r: Option<bool>)
    ensures
        r == wanted_level(payload@),
{
    let on: [u8; 2] = [79, 78];
    let on_small: [u8; 2] = [111, 110];
    let one: [u8; 1] = [49];
    let yes: [u8; 4] = [116, 114, 117, 101];
    let off: [u8; 3] = [79, 70, 70];
    let off_small: [u8; 3] = [111, 102, 102];
    let zero: [u8; 1] = [48];
    let no: [u8; 5] = [102, 97, 108, 115, 101];
    proof {
        assert(on@ =~= seq![79u8, 78]);
        assert(on_small@ =~= seq![111u8, 110]);
        assert(one@ =~= seq![49u8]);
        assert(yes@ =~= seq![116u8, 114, 117, 101]);
        assert(off@ =~= seq![79u8, 70, 70]);
        assert(off_small@ =~= seq![111u8, 102, 102]);
        assert(zero@ =~= seq![48u8]);
        assert(no@ =~= seq![102u8, 97, 108, 115, 101]);
    }
    if same_bytes(payload, &on) || same_bytes(payload, &on_small) || same_bytes(payload, &one)
        || same_bytes(payload, &yes) {
        Some(true)
    } else if same_bytes(payload, &off) || same_bytes(payload, &off_small) || same_bytes(
        payload,
        &zero,
    ) || same_bytes(payload, &no) {
        Some(false)
    } else {
        None
    }
}

/// The command for a switch with this key.
pub open spec fn command_for(key: Seq<char>, on: bool) -> Option<SwitchCommand> {
    if key == "sprinkler_1"@ {
        Some(SwitchCommand::Sprinkler1 { on })
    } else if key == "sprinkler_2"@ {
        Some(SwitchCommand::Sprinkler2 { on })
    } else if key == "water_control"@ {
        Some(SwitchCommand::WaterControl { on })
    } else {
        None
    }
}

/// The command in a message on `<base>/<key>/set`.
pub open spec fn routed(base: Seq<char>, topic: Seq<char>, payload: Seq<u8>) -> Option<
    SwitchCommand,
> {
    let prefix = base + "/"@;
    if !prefix.is_prefix_of(topic) {
        None
    } else {
        let rest = topic.skip(prefix.len() as int);
        let i = text::first_index(rest, '/');
        if i == rest.len() || rest.skip(i + 1) != "set"@ || wanted_level(payload) is None {
            None
        } else {
            command_for(rest.take(i), wanted_level(payload)->0)
        }
    }
}

/// Reads a message. Nothing for topics that are not ours, for switches that do
/// not exist, and for payloads that are not understood.
pub fn parse_command(base_topic: &str, topic: &str, payload: &[u8]) -> (cmd: Option<SwitchCommand>)
    ensures
        cmd == routed(base_topic@, topic@, payload@),
{
    let prefix = text::join(base_topic, "/");
    let n: usize = prefix.unicode_len();
    let t: Vec<char> = text::chars_of(topic);
    if t.len() < n {
        return None;
    }
    let head = text::substring(t.as_slice(), 0, n);
    if !text::same(head.as_str(), prefix.as_str()) {
        return None;
    }
    let ghost rest = topic@.skip(n as int);
    let rest_text = text::substring(t.as_slice(), n, t.len());
    assert(rest_text@ =~= rest);
    let r: Vec<char> = text::chars_of(rest_text.as_str());
    let i: usize = text::find_first(r.as_slice(), '/');
    if i == r.len() {
        return None;
    }
    let suffix = text::substring(r.as_slice(), i + 1, r.len());
    assert(suffix@ =~= rest.skip(i + 1));
    if !text::same(suffix.as_str(), "set") {
        return None;
    }
    let on = match payload_level(payload) {
        Some(on) => on,
        None => return None,
    };
    let key = text::substring(r.as_slice(), 0, i);
    assert(key@ =~= rest.take(i as int));
    if text::same(key.as_str(), "sprinkler_1") {
        Some(SwitchCommand::Sprinkler1 { on })
    } else if text::same(key.as_str(), "sprinkler_2") {
        Some(SwitchCommand::Sprinkler2 { on })
    } else if text::same(key.as_str(), "water_control") {
        Some(SwitchCommand::WaterControl { on })
    } else {
        None
    }
}

/// Carries out the command in a message, if it holds one.
pub fn handle_message(
    app: &mut App,
    base_topic: &str,
    now_ms: u64,
    topic: &str,
    payload: &[u8],
) -> (outcome: Option<CommandOutcome>)
    ensures
        match routed(base_topic@, topic@, payload@) {
            Some(cmd) => outcome is Some && outcome->0 is Busy == old(app)@.refuses(cmd)
                && final(app)@ == old(app)@.command(now_ms, cmd),
            None => outcome is None && final(app)@ == old(app)@,
        },
{
    match parse_command(base_topic, topic, payload) {
        Some(cmd) => Some(app.switch_command(now_ms, cmd)),
        None => None,
    }
}

/// The part of a topic behind the base is read back as key and leaf.
proof fn topic_reads_back(base: Seq<char>, key: Seq<char>, leaf: Seq<char>)
    requires
        forall|i: int| 0 <= i < key.len() ==> key[i] != '/',
    ensures
        ({
            let topic = ha_discovery::topic_of(base, key, leaf);
            let prefix = base + "/"@;
            let rest = topic.skip(prefix.len() as int);
            &&& prefix.is_prefix_of(topic)
            &&& text::first_index(rest, '/') == key.len()
            &&& rest.len() == key.len() + 1 + leaf.len()
            &&& rest.take(key.len() as int) == key
            &&& rest.skip(key.len() as int + 1) == leaf
        }),
{
    reveal_strlit("/");
    let topic = ha_discovery::topic_of(base, key, leaf);
    let prefix = base + "/"@;
    let rest = topic.skip(prefix.len() as int);
    assert(topic.subrange(0, prefix.len() as int) =~= prefix);
    assert(rest =~= key + "/"@ + leaf);
    text::first_index_is_first(rest, '/');
    let f = text::first_index(rest, '/');
    assert(rest[key.len() as int] == '/');
    if f < key.len() {
        assert(rest[f] == key[f]);
    }
    assert(rest.take(key.len() as int) =~= key);
    assert(rest.skip(key.len() as int + 1) =~= leaf);
}

/// What is sent to the command topic of a switch reaches that switch.
pub proof fn command_topics_route(base: Seq<char>, on: bool, payload: Seq<u8>)
    requires
        wanted_level(payload) == Some(on),
    ensures
        routed(base, ha_discovery::topic_of(base, "sprinkler_1"@, "set"@), payload) == Some(
            SwitchCommand::Sprinkler1 { on },
        ),
        routed(base, ha_discovery::topic_of(base, "sprinkler_2"@, "set"@), payload) == Some(
            SwitchCommand::Sprinkler2 { on },
        ),
        routed(base, ha_discovery::topic_of(base, "water_control"@, "set"@), payload) == Some(
            SwitchCommand::WaterControl { on },
        ),
{
    reveal_strlit("sprinkler_1");
    reveal_strlit("sprinkler_2");
    reveal_strlit("water_control");
    topic_reads_back(base, "sprinkler_1"@, "set"@);
    topic_reads_back(base, "sprinkler_2"@, "set"@);
    topic_reads_back(base, "water_control"@, "set"@);
    assert("sprinkler_1"@[10] != "sprinkler_2"@[10]);
    assert("water_control"@.len() == 13);
    assert("sprinkler_1"@.len() == 11);
    assert("sprinkler_2"@.len() == 11);
}

/// What the device itself publishes as state is never taken for a command.
pub proof fn state_topics_are_no_commands(base: Seq<char>, key: Seq<char>, payload: Seq<u8>)
    requires
        forall|i: int| 0 <= i < key.len() ==> key[i] != '/',
    ensures
        routed(base, ha_discovery::topic_of(base, key, "state"@), payload) is None,
{
    reveal_strlit("state");
    reveal_strlit("set");
    topic_reads_back(base, key, "state"@);
    assert("state"@.len() != "set"@.len());
}

/// Everything that is published is kept by the broker.
pub proof fn everything_is_retained(
    ctx: ha_discovery::ContextView,
    base: Seq<char>,
    snap: DeviceSnapshot,
    texts: SensorTexts,
)
    ensures
        forall|i: int|
            0 <= i < connect_messages(ctx).len() ==> (#[trigger] connect_messages(ctx)[i]).opts
                == retained_opts(),
        forall|i: int|
            0 <= i < state_messages(base, snap, texts).len() ==> (#[trigger] state_messages(
                base,
                snap,
                texts,
            )[i]).opts == retained_opts(),
{
}

/// The state topics, told apart by a length or a character.
proof fn state_topics(base: Seq<char>)
    ensures
        ha_discovery::topic_of(base, "battery"@, "state"@) == base + "/battery/state"@,
        ha_discovery::topic_of(base, "pressure"@, "state"@) == base + "/pressure/state"@,
        ha_discovery::topic_of(base, "water_flow"@, "state"@) == base + "/water_flow/state"@,
        ha_discovery::topic_of(base, "water_total"@, "state"@) == base + "/water_total/state"@,
        ha_discovery::topic_of(base, "sprinkler_1"@, "state"@) == base + "/sprinkler_1/state"@,
        ha_discovery::topic_of(base, "sprinkler_2"@, "state"@) == base + "/sprinkler_2/state"@,
        ha_discovery::topic_of(base, "water_control"@, "state"@) == base + "/water_control/state"@,
        ha_discovery::topic_of(base, "uptime"@, "state"@) == base + "/uptime/state"@,
        ha_discovery::topic_of(base, "flow_alarm"@, "state"@) == base + "/flow_alarm/state"@,
        "/sprinkler_1/state"@.len() == 18 && "/sprinkler_1/state"@[11] == '1',
        "/sprinkler_2/state"@.len() == 18 && "/sprinkler_2/state"@[11] == '2',
        "/water_total/state"@.len() == 18 && "/water_total/state"@[11] == 'l',
        "/water_control/state"@.len() == 20,
        "/battery/state"@.len() == 14,
        "/pressure/state"@.len() == 15,
        "/water_flow/state"@.len() == 17 && "/water_flow/state"@[1] == 'w',
        "/flow_alarm/state"@.len() == 17 && "/flow_alarm/state"@[1] == 'f',
        "/uptime/state"@.len() == 13,
{
    reveal_strlit("/");
    reveal_strlit("state");
    reveal_strlit("battery");
    reveal_strlit("/battery/state");
    reveal_strlit("pressure");
    reveal_strlit("/pressure/state");
    reveal_strlit("water_flow");
    reveal_strlit("/water_flow/state");
    reveal_strlit("water_total");
    reveal_strlit("/water_total/state");
    reveal_strlit("sprinkler_1");
    reveal_strlit("/sprinkler_1/state");
    reveal_strlit("sprinkler_2");
    reveal_strlit("/sprinkler_2/state");
    reveal_strlit("water_control");
    reveal_strlit("/water_control/state");
    reveal_strlit("uptime");
    reveal_strlit("/uptime/state");
    reveal_strlit("flow_alarm");
    reveal_strlit("/flow_alarm/state");
    assert(ha_discovery::topic_of(base, "battery"@, "state"@) =~= base + "/battery/state"@);
    assert(ha_discovery::topic_of(base, "pressure"@, "state"@) =~= base + "/pressure/state"@);
    assert(ha_discovery::topic_of(base, "water_flow"@, "state"@) =~= base + "/water_flow/state"@);
    assert(ha_discovery::topic_of(base, "water_total"@, "state"@) =~= base + "/water_total/state"@);
    assert(ha_discovery::topic_of(base, "sprinkler_1"@, "state"@) =~= base + "/sprinkler_1/state"@);
    assert(ha_discovery::topic_of(base, "sprinkler_2"@, "state"@) =~= base + "/sprinkler_2/state"@);
    assert(ha_discovery::topic_of(base, "water_control"@, "state"@) =~= base + "/water_control/state"@);
    assert(ha_discovery::topic_of(base, "uptime"@, "state"@) =~= base + "/uptime/state"@);
    assert(ha_discovery::topic_of(base, "flow_alarm"@, "state"@) =~= base + "/flow_alarm/state"@);
}

proof fn same_behind_the_base(base: Seq<char>, a: Seq<char>, b: Seq<char>)
    ensures
        (base + a == base + b) == (a == b),
{
    if base + a == base + b {
        assert((base + a).skip(base.len() as int) =~= a);
        assert((base + b).skip(base.len() as int) =~= b);
    }
}

/// What is published on the state topic of a switch is `ON` where that switch
/// is on and `OFF` where it is off, and is read back as its level; water control
/// counts as on unless it is off. Every switch has its message.
pub proof fn switches_are_published_as_they_are(
    base: Seq<char>,
    snap: DeviceSnapshot,
    texts: SensorTexts,
    i: int,
)
    requires
        0 <= i < state_messages(base, snap, texts).len(),
    ensures
        ({
            let msgs = state_messages(base, snap, texts);
            let water_on = snap.switches.water_control != WaterControlState::Off;
            let level = |on: bool|
                if on {
                    seq![79u8, 78]
                } else {
                    seq![79u8, 70, 70]
                };
            &&& msgs[i].topic == base + "/sprinkler_1/state"@ ==> msgs[i].payload == level(snap.switches.sprinkler_1)
                && wanted_level(msgs[i].payload) == Some(snap.switches.sprinkler_1)
            &&& msgs[i].topic == base + "/sprinkler_2/state"@ ==> msgs[i].payload == level(snap.switches.sprinkler_2)
                && wanted_level(msgs[i].payload) == Some(snap.switches.sprinkler_2)
            &&& msgs[i].topic == base + "/water_control/state"@ ==> msgs[i].payload == level(water_on)
                && wanted_level(msgs[i].payload) == Some(water_on)
            &&& exists|j: int|
                0 <= j < msgs.len() && (#[trigger] msgs[j]).topic == base + "/sprinkler_1/state"@
            &&& exists|j: int|
                0 <= j < msgs.len() && (#[trigger] msgs[j]).topic == base + "/sprinkler_2/state"@
            &&& exists|j: int|
                0 <= j < msgs.len() && (#[trigger] msgs[j]).topic == base + "/water_control/state"@
        }),
{
    level_words();
    state_topics(base);
    let msgs = state_messages(base, snap, texts);
    let n = msgs.len();
    let sensors = n - 3;
    assert(switch_messages(base, snap).len() == 3);
    assert(msgs[n - 3] == switch_messages(base, snap)[0]);
    assert(msgs[n - 2] == switch_messages(base, snap)[1]);
    assert(msgs[n - 1] == switch_messages(base, snap)[2]);
    if i < sensors {
        sensor_message_is_for_a_sensor(base, snap, texts, i);
    }
    all_behind(base);
}

/// A measurement is published on its own topic, as its own text, and only where
/// there is one.
pub proof fn measurements_are_published_on_their_topics(
    base: Seq<char>,
    snap: DeviceSnapshot,
    texts: SensorTexts,
    i: int,
)
    requires
        0 <= i < state_messages(base, snap, texts).len(),
    ensures
        state_messages(base, snap, texts)[i].topic == base + "/battery/state"@ ==> texts.battery is Some
            && state_messages(base, snap, texts)[i].payload == vstd::utf8::encode_utf8(
            texts.battery->0@,
        ),
        state_messages(base, snap, texts)[i].topic == base + "/pressure/state"@ ==> texts.pressure is Some
            && state_messages(base, snap, texts)[i].payload == vstd::utf8::encode_utf8(
            texts.pressure->0@,
        ),
        state_messages(base, snap, texts)[i].topic == base + "/water_flow/state"@ ==> texts.water_flow is Some
            && state_messages(base, snap, texts)[i].payload == vstd::utf8::encode_utf8(
            texts.water_flow->0@,
        ),
        state_messages(base, snap, texts)[i].topic == base + "/water_total/state"@ ==> texts.water_total is Some
            && state_messages(base, snap, texts)[i].payload == vstd::utf8::encode_utf8(
            texts.water_total->0@,
        ),
        texts.battery is Some ==> exists|j: int|
            0 <= j < state_messages(base, snap, texts).len() && (#[trigger] state_messages(
                base,
                snap,
                texts,
            )[j]).topic == base + "/battery/state"@,
        texts.pressure is Some ==> exists|j: int|
            0 <= j < state_messages(base, snap, texts).len() && (#[trigger] state_messages(
                base,
                snap,
                texts,
            )[j]).topic == base + "/pressure/state"@,
        texts.water_flow is Some ==> exists|j: int|
            0 <= j < state_messages(base, snap, texts).len() && (#[trigger] state_messages(
                base,
                snap,
                texts,
            )[j]).topic == base + "/water_flow/state"@,
        texts.water_total is Some ==> exists|j: int|
            0 <= j < state_messages(base, snap, texts).len() && (#[trigger] state_messages(
                base,
                snap,
                texts,
            )[j]).topic == base + "/water_total/state"@,
        state_messages(base, snap, texts).len() == 3 + (if texts.battery is Some { 1int } else { 0 })
            + (if texts.pressure is Some { 1int } else { 0 }) + (if texts.water_flow is Some {
            1int
        } else {
            0
        }) + (if texts.water_total is Some { 1int } else { 0 }),
{
    state_topics(base);
    let msgs = state_messages(base, snap, texts);
    let n = msgs.len();
    assert(switch_messages(base, snap).len() == 3);
    assert(msgs[n - 3] == switch_messages(base, snap)[0]);
    assert(msgs[n - 2] == switch_messages(base, snap)[1]);
    assert(msgs[n - 1] == switch_messages(base, snap)[2]);
    if i < n - 3 {
        sensor_message_is_for_a_sensor(base, snap, texts, i);
    }
    all_behind(base);
    let a = optional_state(base, "battery"@, texts.battery);
    let b = optional_state(base, "pressure"@, texts.pressure);
    let c = optional_state(base, "water_flow"@, texts.water_flow);
    let d = optional_state(base, "water_total"@, texts.water_total);
    if texts.battery is Some {
        assert(msgs[0] == a[0]);
    }
    if texts.pressure is Some {
        assert(msgs[a.len() as int] == b[0]);
    }
    if texts.water_flow is Some {
        assert(msgs[(a.len() + b.len()) as int] == c[0]);
    }
    if texts.water_total is Some {
        assert(msgs[(a.len() + b.len() + c.len()) as int] == d[0]);
    }
}

/// The few messages of the bare-metal build say the same of the switches, and
/// `ON` of the flow alarm exactly while it is active; the uptime is in seconds.
pub proof fn brief_messages_say_the_state(base: Seq<char>, snap: DeviceSnapshot, i: int)
    requires
        0 <= i < brief_state_messages(base, snap).len(),
    ensures
        ({
            let msgs = brief_state_messages(base, snap);
            let water_on = snap.switches.water_control != WaterControlState::Off;
            let level = |on: bool|
                if on {
                    seq![79u8, 78]
                } else {
                    seq![79u8, 70, 70]
                };
            &&& msgs[i].topic == base + "/sprinkler_1/state"@ ==> msgs[i].payload == level(snap.switches.sprinkler_1)
                && wanted_level(msgs[i].payload) == Some(snap.switches.sprinkler_1)
            &&& msgs[i].topic == base + "/sprinkler_2/state"@ ==> msgs[i].payload == level(snap.switches.sprinkler_2)
                && wanted_level(msgs[i].payload) == Some(snap.switches.sprinkler_2)
            &&& msgs[i].topic == base + "/water_control/state"@ ==> msgs[i].payload == level(water_on)
                && wanted_level(msgs[i].payload) == Some(water_on)
            &&& msgs[i].topic == base + "/flow_alarm/state"@ ==> msgs[i].payload == level(snap.alarm.active)
                && wanted_level(msgs[i].payload) == Some(snap.alarm.active)
            &&& exists|j: int|
                0 <= j < msgs.len() && (#[trigger] msgs[j]).topic == base + "/sprinkler_1/state"@
            &&& exists|j: int|
                0 <= j < msgs.len() && (#[trigger] msgs[j]).topic == base + "/sprinkler_2/state"@
            &&& exists|j: int|
                0 <= j < msgs.len() && (#[trigger] msgs[j]).topic == base + "/water_control/state"@
            &&& exists|j: int|
                0 <= j < msgs.len() && (#[trigger] msgs[j]).topic == base + "/flow_alarm/state"@
            &&& msgs[i].topic == base + "/uptime/state"@ && snap.uptime_ms
                < 10_000_000_000_000_000_000 ==> msgs[i].payload == vstd::utf8::encode_utf8(
                text::decimal((snap.uptime_ms as int / 1_000) as nat),
            )
            &&& exists|j: int|
                0 <= j < msgs.len() && (#[trigger] msgs[j]).topic == base + "/uptime/state"@
        }),
{
    level_words();
    state_topics(base);
    all_behind(base);
    let msgs = brief_state_messages(base, snap);
    assert(switch_messages(base, snap).len() == 3);
    assert(msgs.len() == 5);
    assert(msgs[1] == switch_messages(base, snap)[0]);
    assert(msgs[2] == switch_messages(base, snap)[1]);
    assert(msgs[3] == switch_messages(base, snap)[2]);
    assert(msgs[0].topic == base + "/uptime/state"@);
    assert(msgs[4].topic == base + "/flow_alarm/state"@);
    assert(i == 0 || i == 1 || i == 2 || i == 3 || i == 4);
}

proof fn sensor_message_is_for_a_sensor(
    base: Seq<char>,
    snap: DeviceSnapshot,
    texts: SensorTexts,
    i: int,
)
    requires
        0 <= i < state_messages(base, snap, texts).len() - 3,
    ensures
        ({
            let m = state_messages(base, snap, texts)[i];
            ||| texts.battery is Some && m == kept_text(base + "/battery/state"@, texts.battery->0@)
            ||| texts.pressure is Some && m == kept_text(
                base + "/pressure/state"@,
                texts.pressure->0@,
            )
            ||| texts.water_flow is Some && m == kept_text(
                base + "/water_flow/state"@,
                texts.water_flow->0@,
            )
            ||| texts.water_total is Some && m == kept_text(
                base + "/water_total/state"@,
                texts.water_total->0@,
            )
        }),
{
    state_topics(base);
    let a = optional_state(base, "battery"@, texts.battery);
    let b = optional_state(base, "pressure"@, texts.pressure);
    let c = optional_state(base, "water_flow"@, texts.water_flow);
    let d = optional_state(base, "water_total"@, texts.water_total);
    let m = state_messages(base, snap, texts)[i];
    if i < a.len() {
        assert(m == a[i]);
    } else if i < a.len() + b.len() {
        assert(m == b[i - a.len()]);
    } else if i < a.len() + b.len() + c.len() {
        assert(m == c[i - a.len() - b.len()]);
    } else {
        assert(m == d[i - a.len() - b.len() - c.len()]);
    }
}

proof fn all_behind(base: Seq<char>)
    ensures
        forall|a: Seq<char>, b: Seq<char>|
            (#[trigger] (base + a) == #[trigger] (base + b)) == (a == b),
{
    assert forall|a: Seq<char>, b: Seq<char>|
        (#[trigger] (base + a) == #[trigger] (base + b)) == (a == b) by {
        same_behind_the_base(base, a, b);
    }
}

proof fn level_words()
    ensures
        vstd::utf8::encode_utf8("ON"@) == seq![79u8, 78],
        vstd::utf8::encode_utf8("on"@) == seq![111u8, 110],
        vstd::utf8::encode_utf8("1"@) == seq![49u8],
        vstd::utf8::encode_utf8("true"@) == seq![116u8, 114, 117, 101],
        vstd::utf8::encode_utf8("OFF"@) == seq![79u8, 70, 70],
        vstd::utf8::encode_utf8("off"@) == seq![111u8, 102, 102],
        vstd::utf8::encode_utf8("0"@) == seq![48u8],
        vstd::utf8::encode_utf8("false"@) == seq![102u8, 97, 108, 115, 101],
{
    reveal_strlit("ON");
    assert(vstd::utf8::is_ascii_chars("ON"@));
    vstd::utf8::is_ascii_chars_encode_utf8("ON"@);
    assert("ON"@[0] as u8 == vstd::utf8::encode_utf8("ON"@)[0]
        && "ON"@[1] as u8 == vstd::utf8::encode_utf8("ON"@)[1]);
    assert(vstd::utf8::encode_utf8("ON"@) =~= seq![79u8, 78]);
    reveal_strlit("on");
    assert(vstd::utf8::is_ascii_chars("on"@));
    vstd::utf8::is_ascii_chars_encode_utf8("on"@);
    assert("on"@[0] as u8 == vstd::utf8::encode_utf8("on"@)[0]
        && "on"@[1] as u8 == vstd::utf8::encode_utf8("on"@)[1]);
    assert(vstd::utf8::encode_utf8("on"@) =~= seq![111u8, 110]);
    reveal_strlit("1");
    assert(vstd::utf8::is_ascii_chars("1"@));
    vstd::utf8::is_ascii_chars_encode_utf8("1"@);
    assert("1"@[0] as u8 == vstd::utf8::encode_utf8("1"@)[0]);
    assert(vstd::utf8::encode_utf8("1"@) =~= seq![49u8]);
    reveal_strlit("true");
    assert(vstd::utf8::is_ascii_chars("true"@));
    vstd::utf8::is_ascii_chars_encode_utf8("true"@);
    assert("true"@[0] as u8 == vstd::utf8::encode_utf8("true"@)[0]
        && "true"@[1] as u8 == vstd::utf8::encode_utf8("true"@)[1]
        && "true"@[2] as u8 == vstd::utf8::encode_utf8("true"@)[2]
        && "true"@[3] as u8 == vstd::utf8::encode_utf8("true"@)[3]);
    assert(vstd::utf8::encode_utf8("true"@) =~= seq![116u8, 114, 117, 101]);
    reveal_strlit("OFF");
    assert(vstd::utf8::is_ascii_chars("OFF"@));
    vstd::utf8::is_ascii_chars_encode_utf8("OFF"@);
    assert("OFF"@[0] as u8 == vstd::utf8::encode_utf8("OFF"@)[0]
        && "OFF"@[1] as u8 == vstd::utf8::encode_utf8("OFF"@)[1]
        && "OFF"@[2] as u8 == vstd::utf8::encode_utf8("OFF"@)[2]);
    assert(vstd::utf8::encode_utf8("OFF"@) =~= seq![79u8, 70, 70]);
    reveal_strlit("off");
    assert(vstd::utf8::is_ascii_chars("off"@));
    vstd::utf8::is_ascii_chars_encode_utf8("off"@);
    assert("off"@[0] as u8 == vstd::utf8::encode_utf8("off"@)[0]
        && "off"@[1] as u8 == vstd::utf8::encode_utf8("off"@)[1]
        && "off"@[2] as u8 == vstd::utf8::encode_utf8("off"@)[2]);
    assert(vstd::utf8::encode_utf8("off"@) =~= seq![111u8, 102, 102]);
    reveal_strlit("0");
    assert(vstd::utf8::is_ascii_chars("0"@));
    vstd::utf8::is_ascii_chars_encode_utf8("0"@);
    assert("0"@[0] as u8 == vstd::utf8::encode_utf8("0"@)[0]);
    assert(vstd::utf8::encode_utf8("0"@) =~= seq![48u8]);
    reveal_strlit("false");
    assert(vstd::utf8::is_ascii_chars("false"@));
    vstd::utf8::is_ascii_chars_encode_utf8("false"@);
    assert("false"@[0] as u8 == vstd::utf8::encode_utf8("false"@)[0]
        && "false"@[1] as u8 == vstd::utf8::encode_utf8("false"@)[1]
        && "false"@[2] as u8 == vstd::utf8::encode_utf8("false"@)[2]
        && "false"@[3] as u8 == vstd::utf8::encode_utf8("false"@)[3]
        && "false"@[4] as u8 == vstd::utf8::encode_utf8("false"@)[4]);
    assert(vstd::utf8::encode_utf8("false"@) =~= seq![102u8, 97, 108, 115, 101]);
}

proof fn same_text_same_bytes(a: Seq<char>, b: Seq<char>)
    ensures
        (vstd::utf8::encode_utf8(a) == vstd::utf8::encode_utf8(b)) == (a == b),
{
    vstd::utf8::encode_utf8_decode_utf8(a);
    vstd::utf8::encode_utf8_decode_utf8(b);
}

/// `ON`, `on`, `1` and `true` ask for on, `OFF`, `off`, `0` and `false` for off,
/// and no other word for anything.
pub proof fn levels_are_asked_for_in_words(word: Seq<char>)
    ensures
        (wanted_level(vstd::utf8::encode_utf8(word)) == Some(true)) == (word == "ON"@ || word
            == "on"@ || word == "1"@ || word == "true"@),
        (wanted_level(vstd::utf8::encode_utf8(word)) == Some(false)) == (word == "OFF"@ || word
            == "off"@ || word == "0"@ || word == "false"@),
{
    level_words();
    same_text_same_bytes(word, "ON"@);
    same_text_same_bytes(word, "on"@);
    same_text_same_bytes(word, "1"@);
    same_text_same_bytes(word, "true"@);
    same_text_same_bytes(word, "OFF"@);
    same_text_same_bytes(word, "off"@);
    same_text_same_bytes(word, "0"@);
    same_text_same_bytes(word, "false"@);
    let bytes = vstd::utf8::encode_utf8(word);
    assert(seq![79u8, 78].len() == 2 && seq![79u8, 70, 70].len() == 3);
    assert(seq![49u8][0] != seq![48u8][0]);
    assert(seq![111u8, 110].len() == 2 && seq![111u8, 102, 102].len() == 3);
    assert(seq![116u8, 114, 117, 101].len() == 4 && seq![102u8, 97, 108, 115, 101].len() == 5);
    assert(seq![49u8].len() == 1 && seq![48u8].len() == 1);
}

/// A switch is commanded on `<base>/<switch>/set`, and on no other topic: what
/// arrives there and asks for a level commands that switch to that level, and
/// whatever commands a switch has arrived there.
pub proof fn commands_arrive_on_their_topics(base: Seq<char>, topic: Seq<char>, payload: Seq<u8>)
    ensures
        wanted_level(payload) is None ==> routed(base, topic, payload) is None,
        wanted_level(payload) is Some ==> (topic == base + "/sprinkler_1/set"@) == (routed(
            base,
            topic,
            payload,
        ) == Some(SwitchCommand::Sprinkler1 { on: wanted_level(payload)->0 })),
        wanted_level(payload) is Some ==> (topic == base + "/sprinkler_2/set"@) == (routed(
            base,
            topic,
            payload,
        ) == Some(SwitchCommand::Sprinkler2 { on: wanted_level(payload)->0 })),
        wanted_level(payload) is Some ==> (topic == base + "/water_control/set"@) == (routed(
            base,
            topic,
            payload,
        ) == Some(SwitchCommand::WaterControl { on: wanted_level(payload)->0 })),
        routed(base, topic, payload) is Some ==> topic == base + "/sprinkler_1/set"@ || topic == base
            + "/sprinkler_2/set"@ || topic == base + "/water_control/set"@,
{
    set_topics(base);
    if wanted_level(payload) is Some {
        command_topics_route(base, wanted_level(payload)->0, payload);
    }
    if routed(base, topic, payload) is Some {
        let prefix = base + "/"@;
        let rest = topic.skip(prefix.len() as int);
        text::first_index_is_first(rest, '/');
        let i = text::first_index(rest, '/');
        let key = rest.take(i);
        reveal_strlit("/");
        assert(topic.subrange(0, prefix.len() as int) =~= prefix);
        assert(rest =~= key + "/"@ + "set"@) by {
            assert(rest.skip(i + 1) =~= "set"@);
            assert forall|k: int| 0 <= k < rest.len() implies rest[k] == (key + "/"@ + "set"@)[k] by {
                if k > i {
                    assert(rest.skip(i + 1)[k - i - 1] == rest[k]);
                }
            }
            assert(rest.len() == i + 1 + "set"@.len());
        }
        assert(topic =~= prefix + rest);
        assert(topic =~= ha_discovery::topic_of(base, key, "set"@));
    }
}

proof fn set_topics(base: Seq<char>)
    ensures
        ha_discovery::topic_of(base, "sprinkler_1"@, "set"@) == base + "/sprinkler_1/set"@,
        ha_discovery::topic_of(base, "sprinkler_2"@, "set"@) == base + "/sprinkler_2/set"@,
        ha_discovery::topic_of(base, "water_control"@, "set"@) == base + "/water_control/set"@,
{
    reveal_strlit("/");
    reveal_strlit("set");
    reveal_strlit("sprinkler_1");
    reveal_strlit("sprinkler_2");
    reveal_strlit("water_control");
    reveal_strlit("/sprinkler_1/set");
    reveal_strlit("/sprinkler_2/set");
    reveal_strlit("/water_control/set");
    assert(ha_discovery::topic_of(base, "sprinkler_1"@, "set"@) =~= base + "/sprinkler_1/set"@);
    assert(ha_discovery::topic_of(base, "sprinkler_2"@, "set"@) =~= base + "/sprinkler_2/set"@);
    assert(ha_discovery::topic_of(base, "water_control"@, "set"@) =~= base + "/water_control/set"@);
}

/// After a connect the device says last that it is there, on `<base>/status`,
/// after one announcement for each of its twelve entities, and everything it
/// says is kept and delivered at least once.
pub proof fn presence_follows_the_announcements(ctx: ha_discovery::ContextView, i: int)
    requires
        0 <= i < connect_messages(ctx).len(),
    ensures
        connect_messages(ctx).len() == 13,
        connect_messages(ctx)[12].topic == ctx.base_topic + "/status"@,
        connect_messages(ctx)[12].payload == vstd::utf8::encode_utf8("online"@),
        i < 12 ==> connect_messages(ctx)[i].topic == ha_discovery::announcements(ctx)[i].topic,
        i < 12 ==> connect_messages(ctx)[i].payload == ha_discovery::announcements(ctx)[i].payload,
        connect_messages(ctx)[i].opts.retained && connect_messages(ctx)[i].opts.qos == 1,
{
}

/// State is kept by the broker and delivered at least once.
pub proof fn state_is_kept_by_the_broker(
    base: Seq<char>,
    snap: DeviceSnapshot,
    texts: SensorTexts,
    i: int,
)
    ensures
        0 <= i < state_messages(base, snap, texts).len() ==> state_messages(
            base,
            snap,
            texts,
        )[i].opts.retained && state_messages(base, snap, texts)[i].opts.qos == 1,
        0 <= i < brief_state_messages(base, snap).len() ==> brief_state_messages(
            base,
            snap,
        )[i].opts.retained && brief_state_messages(base, snap)[i].opts.qos == 1,
{
    if 0 <= i < brief_state_messages(base, snap).len() {
        assert(i == 0 || i == 1 || i == 2 || i == 3 || i == 4);
    }
}

/// The announcements belong to the configuration: its base topic, its discovery
/// prefix, its host name and the version that runs.
pub proof fn announcements_belong_to_the_configuration(cfg: Config, version: Seq<char>)
    ensures
        context_of(cfg, version).base_topic == cfg.mqtt.base_topic@,
        context_of(cfg, version).discovery_prefix == cfg.mqtt.ha_discovery_prefix@,
        context_of(cfg, version).device_id == cfg.wifi.hostname@,
        context_of(cfg, version).sw_version == version,
{
}

} // verus!
