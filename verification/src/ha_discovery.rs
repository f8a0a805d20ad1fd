//! Announcements by which a home automation server finds the entities of the
//! device: one retained message per entity, all with the same device block.

use vstd::prelude::*;
use crate::json_text;
use crate::json_text::JsonField;
use crate::text;

verus! {

/// Who announces, and under which topics.
#[derive(Debug, Clone, Copy)]
pub struct DeviceContext<'a> {
    pub base_topic: &'a str,
    pub discovery_prefix: &'a str,
    pub device_id: &'a str,
    pub friendly_name: &'a str,
    pub sw_version: &'a str,
    pub manufacturer: &'a str,
    pub model: &'a str,
}

/// [`DeviceContext`] by its texts.
pub struct ContextView {
    pub base_topic: Seq<char>,
    pub discovery_prefix: Seq<char>,
    pub device_id: Seq<char>,
    pub friendly_name: Seq<char>,
    pub sw_version: Seq<char>,
    pub manufacturer: Seq<char>,
    pub model: Seq<char>,
}

impl<'a> View for DeviceContext<'a> {
    type V = ContextView;

    open spec fn view(&self) -> ContextView {
        ContextView {
            base_topic: self.base_topic@,
            discovery_prefix: self.discovery_prefix@,
            device_id: self.device_id@,
            friendly_name: self.friendly_name@,
            sw_version: self.sw_version@,
            manufacturer: self.manufacturer@,
            model: self.model@,
        }
    }
}

/// One message.
#[derive(Debug, PartialEq, Eq)]
pub struct DiscoveryMsg {
    pub topic: String,
    pub payload: Vec<u8>,
}

pub struct DiscoveryMsgView {
    pub topic: Seq<char>,
    pub payload: Seq<u8>,
}

impl View for DiscoveryMsg {
    type V = DiscoveryMsgView;

    open spec fn view(&self) -> DiscoveryMsgView {
        DiscoveryMsgView { topic: self.topic@, payload: self.payload@ }
    }
}

/// A sensor entity.
#[derive(Debug, Clone, Copy)]
pub struct Sensor<'a> {
    pub key: &'a str,
    pub name: &'a str,
    pub unit: Option<&'a str>,
    pub device_class: Option<&'a str>,
    pub state_class: Option<&'a str>,
    pub icon: Option<&'a str>,
    pub precision: Option<u8>,
}

pub struct SensorView {
    pub key: Seq<char>,
    pub name: Seq<char>,
    pub unit: Option<Seq<char>>,
    pub device_class: Option<Seq<char>>,
    pub state_class: Option<Seq<char>>,
    pub icon: Option<Seq<char>>,
    pub precision: Option<u8>,
}

/// An optional text by its characters.
pub open spec fn text_view(t: Option<&str>) -> Option<Seq<char>> {
    match t {
        Some(t) => Some(t@),
        None => None,
    }
}

impl<'a> View for Sensor<'a> {
    type V = SensorView;

    open spec fn view(&self) -> SensorView {
        SensorView {
            key: self.key@,
            name: self.name@,
            unit: text_view(self.unit),
            device_class: text_view(self.device_class),
            state_class: text_view(self.state_class),
            icon: text_view(self.icon),
            precision: self.precision,
        }
    }
}

/// A switch entity.
#[derive(Debug, Clone, Copy)]
pub struct Switch<'a> {
    pub key: &'a str,
    pub name: &'a str,
}

/// `<base>/<key>/<leaf>`.
pub open spec fn topic_of(base: Seq<char>, key: Seq<char>, leaf: Seq<char>) -> Seq<char> {
    base + "/"@ + key + "/"@ + leaf
}

impl ContextView {
    pub open spec fn availability(self) -> Seq<char> {
        self.base_topic + "/status"@
    }

    pub open spec fn id_of(self, key: Seq<char>) -> Seq<char> {
        self.device_id + "_"@ + key
    }

    /// The block that is the same for all entities.
    pub open spec fn device_fields(self) -> Seq<(Seq<char>, Seq<char>)> {
        seq![
            ("identifiers"@, "["@ + json_text::json_quoted(self.device_id) + "]"@),
            ("name"@, json_text::json_quoted(self.friendly_name)),
            ("manufacturer"@, json_text::json_quoted(self.manufacturer)),
            ("model"@, json_text::json_quoted(self.model)),
            ("sw_version"@, json_text::json_quoted(self.sw_version)),
        ]
    }

    /// The last members of every announcement.
    pub open spec fn closing_fields(self) -> Seq<(Seq<char>, Seq<char>)> {
        seq![
            ("availability_topic"@, json_text::json_quoted(self.availability())),
            ("payload_available"@, json_text::json_quoted("online"@)),
            ("payload_not_available"@, json_text::json_quoted("offline"@)),
            ("device"@, json_text::object_text(self.device_fields())),
        ]
    }

    pub open spec fn sensor_fields(self, s: SensorView) -> Seq<(Seq<char>, Seq<char>)> {
        seq![
            ("name"@, json_text::json_quoted(s.name)),
            ("unique_id"@, json_text::json_quoted(self.id_of(s.key))),
            ("object_id"@, json_text::json_quoted(self.id_of(s.key))),
            (
                "state_topic"@,
                json_text::json_quoted(topic_of(self.base_topic, s.key, "state"@)),
            ),
        ] + json_text::optional_field("unit_of_measurement"@, s.unit)
            + json_text::optional_field("device_class"@, s.device_class)
            + json_text::optional_field("state_class"@, s.state_class)
            + json_text::optional_field("icon"@, s.icon) + precision_field(s.precision)
            + self.closing_fields()
    }

    pub open spec fn switch_fields(self, key: Seq<char>, name: Seq<char>) -> Seq<
        (Seq<char>, Seq<char>),
    > {
        seq![
            ("name"@, json_text::json_quoted(name)),
            ("unique_id"@, json_text::json_quoted(self.id_of(key))),
            ("object_id"@, json_text::json_quoted(self.id_of(key))),
            (
                "state_topic"@,
                json_text::json_quoted(topic_of(self.base_topic, key, "state"@)),
            ),
            (
                "command_topic"@,
                json_text::json_quoted(topic_of(self.base_topic, key, "set"@)),
            ),
            ("payload_on"@, json_text::json_quoted("ON"@)),
            ("payload_off"@, json_text::json_quoted("OFF"@)),
            ("state_on"@, json_text::json_quoted("ON"@)),
            ("state_off"@, json_text::json_quoted("OFF"@)),
            ("optimistic"@, "false"@),
        ] + self.closing_fields()
    }

    /// The announcement of a sensor.
    pub open spec fn sensor_message(self, s: SensorView) -> DiscoveryMsgView {
        DiscoveryMsgView {
            topic: self.discovery_prefix + "/sensor/"@ + self.id_of(s.key) + "/config"@,
            payload: vstd::utf8::encode_utf8(json_text::object_text(self.sensor_fields(s))),
        }
    }

    /// The announcement of a switch.
    pub open spec fn switch_message(self, key: Seq<char>, name: Seq<char>) -> DiscoveryMsgView {
        DiscoveryMsgView {
            topic: self.discovery_prefix + "/switch/"@ + self.id_of(key) + "/config"@,
            payload: vstd::utf8::encode_utf8(json_text::object_text(self.switch_fields(key, name))),
        }
    }
}

/// The number of decimals to show, where one is given.
pub open spec fn precision_field(precision: Option<u8>) -> Seq<(Seq<char>, Seq<char>)> {
    match precision {
        Some(p) => seq![("suggested_display_precision"@, text::decimal(p as nat))],
        None => Seq::empty(),
    }
}

fn topic(base: &str, key: &str, leaf: &str) -> (t: String)
    ensures
        t@ == topic_of(base@, key@, leaf@),
{
    let mut t = base.to_owned();
    t.append("/");
    t.append(key);
    t.append("/");
    t.append(leaf);
    t
}

impl<'a> DeviceContext<'a> {
    /// The device block as JSON.
    pub fn device_block(&self) -> (json: String)
        ensures
            json@ == json_text::object_text(self@.device_fields()),
    {
        let mut fields: Vec<JsonField> = Vec::new();
        let mut ids = "[".to_owned();
        let id = json_text::quote(self.device_id);
        ids.append(id.as_str());
        ids.append("]");
        json_text::put_raw(&mut fields, "identifiers", ids);
        json_text::put_text(&mut fields, "name", self.friendly_name);
        json_text::put_text(&mut fields, "manufacturer", self.manufacturer);
        json_text::put_text(&mut fields, "model", self.model);
        json_text::put_text(&mut fields, "sw_version", self.sw_version);
        assert(json_text::field_views(fields@) =~= self@.device_fields());
        json_text::json_object(&fields)
    }

    pub fn availability_topic(&self) -> (t: String)
        ensures
            t@ == self@.availability(),
    {
        text::join(self.base_topic, "/status")
    }

    pub fn sensor_state_topic(&self, key: &str) -> (t: String)
        ensures
            t@ == topic_of(self.base_topic@, key@, "state"@),
    {
        topic(self.base_topic, key, "state")
    }

    pub fn switch_state_topic(&self, key: &str) -> (t: String)
        ensures
            t@ == topic_of(self.base_topic@, key@, "state"@),
    {
        topic(self.base_topic, key, "state")
    }

    pub fn switch_command_topic(&self, key: &str) -> (t: String)
        ensures
            t@ == topic_of(self.base_topic@, key@, "set"@),
    {
        topic(self.base_topic, key, "set")
    }

    pub fn unique_id(&self, key: &str) -> (id: String)
        ensures
            id@ == self@.id_of(key@),
    {
        let mut id = self.device_id.to_owned();
        id.append("_");
        id.append(key);
        id
    }

    fn config_topic(&self, component: &str, key: &str) -> (t: String)
        ensures
            t@ == self.discovery_prefix@ + component@ + self@.id_of(key@) + "/config"@,
    {
        let id = self.unique_id(key);
        let mut t = self.discovery_prefix.to_owned();
        t.append(component);
        t.append(id.as_str());
        t.append("/config");
        t
    }

    fn put_closing(&self, fields: &mut Vec<JsonField>)
        ensures
            json_text::field_views(final(fields)@) == json_text::field_views(old(fields)@)
                + self@.closing_fields(),
    {
        let availability = self.availability_topic();
        json_text::put_text(fields, "availability_topic", availability.as_str());
        json_text::put_text(fields, "payload_available", "online");
        json_text::put_text(fields, "payload_not_available", "offline");
        let device = self.device_block();
        json_text::put_raw(fields, "device", device);
        assert(json_text::field_views(fields@) =~= json_text::field_views(old(fields)@)
            + self@.closing_fields());
    }

    /// Announces a sensor.
    pub fn sensor(&self, s: &Sensor<'a>) -> (m: DiscoveryMsg)
        ensures
            m@ == self@.sensor_message(s@),
    {
        let id = self.unique_id(s.key);
        let state = self.sensor_state_topic(s.key);
        let mut fields: Vec<JsonField> = Vec::new();
        json_text::put_text(&mut fields, "name", s.name);
        json_text::put_text(&mut fields, "unique_id", id.as_str());
        json_text::put_text(&mut fields, "object_id", id.as_str());
        json_text::put_text(&mut fields, "state_topic", state.as_str());
        json_text::put_optional(&mut fields, "unit_of_measurement", s.unit);
        json_text::put_optional(&mut fields, "device_class", s.device_class);
        json_text::put_optional(&mut fields, "state_class", s.state_class);
        json_text::put_optional(&mut fields, "icon", s.icon);
        let ghost before = json_text::field_views(fields@);
        if let Some(p) = s.precision {
            let digits = text::decimal_u64(p as u64);
            json_text::put_raw(&mut fields, "suggested_display_precision", digits);
        }
        assert(json_text::field_views(fields@) =~= before + precision_field(s.precision));
        self.put_closing(&mut fields);
        assert(json_text::field_views(fields@) =~= self@.sensor_fields(s@));
        let json = json_text::json_object(&fields);
        DiscoveryMsg {
            topic: self.config_topic("/sensor/", s.key),
            payload: json.as_str().as_bytes_vec(),
        }
    }

    /// Announces a switch.
    pub fn switch(&self, s: &Switch<'a>) -> (m: DiscoveryMsg)
        ensures
            m@ == self@.switch_message(s.key@, s.name@),
    {
        let id = self.unique_id(s.key);
        let state = self.switch_state_topic(s.key);
        let command = self.switch_command_topic(s.key);
        let mut fields: Vec<JsonField> = Vec::new();
        json_text::put_text(&mut fields, "name", s.name);
        json_text::put_text(&mut fields, "unique_id", id.as_str());
        json_text::put_text(&mut fields, "object_id", id.as_str());
        json_text::put_text(&mut fields, "state_topic", state.as_str());
        json_text::put_text(&mut fields, "command_topic", command.as_str());
        json_text::put_text(&mut fields, "payload_on", "ON");
        json_text::put_text(&mut fields, "payload_off", "OFF");
        json_text::put_text(&mut fields, "state_on", "ON");
        json_text::put_text(&mut fields, "state_off", "OFF");
        json_text::put_raw(&mut fields, "optimistic", "false".to_owned());
        self.put_closing(&mut fields);
        assert(json_text::field_views(fields@) =~= self@.switch_fields(s.key@, s.name@));
        let json = json_text::json_object(&fields);
        DiscoveryMsg {
            topic: self.config_topic("/switch/", s.key),
            payload: json.as_str().as_bytes_vec(),
        }
    }
}

/// A sensor by its texts.
pub open spec fn sensor_of(
    key: Seq<char>,
    name: Seq<char>,
    unit: Option<Seq<char>>,
    device_class: Option<Seq<char>>,
    state_class: Option<Seq<char>>,
    icon: Option<Seq<char>>,
    precision: Option<u8>,
) -> SensorView {
    SensorView { key, name, unit, device_class, state_class, icon, precision }
}

/// The sensors of the device: five measurements and four diagnostics.
pub open spec fn sensor_table() -> Seq<SensorView> {
    let measurement = Some("measurement"@);
    seq![
        sensor_of("battery"@, "Battery"@, Some("V"@), Some("voltage"@), measurement, None, Some(2)),
        sensor_of(
            "pressure"@,
            "Pressure"@,
            Some("bar"@),
            Some("pressure"@),
            measurement,
            None,
            Some(2),
        ),
        sensor_of(
            "water_flow"@,
            "Water flow"@,
            Some("L/h"@),
            Some("water"@),
            measurement,
            Some("mdi:water"@),
            Some(1),
        ),
        sensor_of(
            "water_total"@,
            "Total water"@,
            Some("L"@),
            Some("water"@),
            Some("total_increasing"@),
            Some("mdi:water"@),
            Some(3),
        ),
        sensor_of(
            "loop_time"@,
            "Loop time"@,
            Some("ms"@),
            None,
            measurement,
            Some("mdi:timer-outline"@),
            Some(0),
        ),
        sensor_of(
            "wifi_rssi"@,
            "WiFi signal"@,
            Some("dBm"@),
            Some("signal_strength"@),
            measurement,
            None,
            Some(0),
        ),
        sensor_of(
            "free_heap"@,
            "Free heap"@,
            Some("B"@),
            Some("data_size"@),
            measurement,
            Some("mdi:memory"@),
            Some(0),
        ),
        sensor_of(
            "uptime"@,
            "Uptime"@,
            Some("s"@),
            Some("duration"@),
            Some("total_increasing"@),
            Some("mdi:timer-outline"@),
            Some(0),
        ),
        sensor_of(
            "reset_reason"@,
            "Reset reason"@,
            None,
            None,
            None,
            Some("mdi:restart-alert"@),
            None,
        ),
    ]
}

/// The switches of the device, by key and name.
pub open spec fn switch_table() -> Seq<(Seq<char>, Seq<char>)> {
    seq![
        ("sprinkler_1"@, "Riego exterior"@),
        ("sprinkler_2"@, "Riego mobil"@),
        ("water_control"@, "Water control"@),
    ]
}

/// Messages by topic and payload.
pub open spec fn message_views(msgs: Seq<DiscoveryMsg>) -> Seq<DiscoveryMsgView> {
    Seq::new(msgs.len(), |i: int| msgs[i]@)
}

/// All announcements: the sensors, then the switches.
pub open spec fn announcements(ctx: ContextView) -> Seq<DiscoveryMsgView> {
    Seq::new(
        12,
        |i: int|
            if i < 9 {
                ctx.sensor_message(sensor_table()[i])
            } else {
                ctx.switch_message(switch_table()[i - 9].0, switch_table()[i - 9].1)
            },
    )
}

fn sensor_entry(i: usize) -> (s: Sensor<'static>)
    requires
        i < 9,
    ensures
        s@ == sensor_table()[i as int],
{
    let measurement = Some("measurement");
    let total = Some("total_increasing");
    if i == 0 {
        Sensor {
            key: "battery",
            name: "Battery",
            unit: Some("V"),
            device_class: Some("voltage"),
            state_class: measurement,
            icon: None,
            precision: Some(2),
        }
    } else if i == 1 {
        Sensor {
            key: "pressure",
            name: "Pressure",
            unit: Some("bar"),
            device_class: Some("pressure"),
            state_class: measurement,
            icon: None,
            precision: Some(2),
        }
    } else if i == 2 {
        Sensor {
            key: "water_flow",
            name: "Water flow",
            unit: Some("L/h"),
            device_class: Some("water"),
            state_class: measurement,
            icon: Some("mdi:water"),
            precision: Some(1),
        }
    } else if i == 3 {
        Sensor {
            key: "water_total",
            name: "Total water",
            unit: Some("L"),
            device_class: Some("water"),
            state_class: total,
            icon: Some("mdi:water"),
            precision: Some(3),
        }
    } else if i == 4 {
        Sensor {
            key: "loop_time",
            name: "Loop time",
            unit: Some("ms"),
            device_class: None,
            state_class: measurement,
            icon: Some("mdi:timer-outline"),
            precision: Some(0),
        }
    } else if i == 5 {
        Sensor {
            key: "wifi_rssi",
            name: "WiFi signal",
            unit: Some("dBm"),
            device_class: Some("signal_strength"),
            state_class: measurement,
            icon: None,
            precision: Some(0),
        }
    } else if i == 6 {
        Sensor {
            key: "free_heap",
            name: "Free heap",
            unit: Some("B"),
            device_class: Some("data_size"),
            state_class: measurement,
            icon: Some("mdi:memory"),
            precision: Some(0),
        }
    } else if i == 7 {
        Sensor {
            key: "uptime",
            name: "Uptime",
            unit: Some("s"),
            device_class: Some("duration"),
            state_class: total,
            icon: Some("mdi:timer-outline"),
            precision: Some(0),
        }
    } else {
        Sensor {
            key: "reset_reason",
            name: "Reset reason",
            unit: None,
            device_class: None,
            state_class: None,
            icon: Some("mdi:restart-alert"),
            precision: None,
        }
    }
}

/// Everything that the device announces.
pub fn all_messages(ctx: &DeviceContext) -> (msgs: Vec<DiscoveryMsg>)
    ensures
        message_views(msgs@) == announcements(ctx@),
{
    let mut out: Vec<DiscoveryMsg> = Vec::new();
    let mut i: usize = 0;
    while i < 9
        invariant
            i <= 9,
            out@.len() == i,
            forall|j: int| 0 <= j < i ==> (#[trigger] out@[j])@ == announcements(ctx@)[j],
        decreases 9 - i,
    {
        let s = sensor_entry(i);
        let m = ctx.sensor(&s);
        out.push(m);
        i += 1;
    }
    out.push(ctx.switch(&Switch { key: "sprinkler_1", name: "Riego exterior" }));
    out.push(ctx.switch(&Switch { key: "sprinkler_2", name: "Riego mobil" }));
    out.push(ctx.switch(&Switch { key: "water_control", name: "Water control" }));
    assert(message_views(out@) =~= announcements(ctx@));
    out
}

/// A switch is announced with the topic that its state is published on and the
/// one that it takes commands on, with `ON` and `OFF` for both, as available
/// while the device says `online`, and under an id of its own.
pub proof fn switches_are_announced_with_their_topics(
    ctx: ContextView,
    key: Seq<char>,
    name: Seq<char>,
)
    ensures
        ({
            let f = ctx.switch_fields(key, name);
            let q = |t: Seq<char>| json_text::json_quoted(t);
            &&& f.contains(("name"@, q(name)))
            &&& f.contains(("unique_id"@, q(ctx.device_id + "_"@ + key)))
            &&& f.contains(("object_id"@, q(ctx.device_id + "_"@ + key)))
            &&& f.contains(("state_topic"@, q(ctx.base_topic + "/"@ + key + "/state"@)))
            &&& f.contains(("command_topic"@, q(ctx.base_topic + "/"@ + key + "/set"@)))
            &&& f.contains(("payload_on"@, q("ON"@)))
            &&& f.contains(("payload_off"@, q("OFF"@)))
            &&& f.contains(("state_on"@, q("ON"@)))
            &&& f.contains(("state_off"@, q("OFF"@)))
            &&& f.contains(("optimistic"@, "false"@))
            &&& f.contains(("availability_topic"@, q(ctx.base_topic + "/status"@)))
            &&& f.contains(("payload_available"@, q("online"@)))
            &&& f.contains(("payload_not_available"@, q("offline"@)))
            &&& f.len() == 14
        }),
        ctx.switch_message(key, name).topic == ctx.discovery_prefix + "/switch/"@ + ctx.device_id
            + "_"@ + key + "/config"@,
        ctx.switch_message(key, name).payload == vstd::utf8::encode_utf8(
            json_text::object_text(ctx.switch_fields(key, name)),
        ),
{
    topics_end_in_their_leaf(ctx.base_topic, key);
    let f = ctx.switch_fields(key, name);
    assert(f[0].0 == "name"@ && f[1].0 == "unique_id"@ && f[2].0 == "object_id"@ && f[3].0
        == "state_topic"@ && f[4].0 == "command_topic"@ && f[5].0 == "payload_on"@ && f[6].0
        == "payload_off"@ && f[7].0 == "state_on"@ && f[8].0 == "state_off"@ && f[9].0
        == "optimistic"@);
    assert(f[10] == ctx.closing_fields()[0] && f[11] == ctx.closing_fields()[1] && f[12]
        == ctx.closing_fields()[2]);
    assert(ctx.switch_message(key, name).topic =~= ctx.discovery_prefix + "/switch/"@
        + ctx.device_id + "_"@ + key + "/config"@);
}

proof fn topics_end_in_their_leaf(base: Seq<char>, key: Seq<char>)
    ensures
        topic_of(base, key, "state"@) == base + "/"@ + key + "/state"@,
        topic_of(base, key, "set"@) == base + "/"@ + key + "/set"@,
{
    reveal_strlit("/");
    reveal_strlit("state");
    reveal_strlit("set");
    reveal_strlit("/state");
    reveal_strlit("/set");
    assert(topic_of(base, key, "state"@) =~= base + "/"@ + key + "/state"@);
    assert(topic_of(base, key, "set"@) =~= base + "/"@ + key + "/set"@);
}

/// A sensor is announced with the topic that its value is published on, with
/// its own unit, class and icon where it has them, as available while the
/// device says `online`, and under an id of its own.
pub proof fn sensors_are_announced_with_their_topic(ctx: ContextView, s: SensorView)
    ensures
        ({
            let f = ctx.sensor_fields(s);
            let q = |t: Seq<char>| json_text::json_quoted(t);
            &&& f.contains(("name"@, q(s.name)))
            &&& f.contains(("unique_id"@, q(ctx.device_id + "_"@ + s.key)))
            &&& f.contains(("object_id"@, q(ctx.device_id + "_"@ + s.key)))
            &&& f.contains(("state_topic"@, q(ctx.base_topic + "/"@ + s.key + "/state"@)))
            &&& s.unit matches Some(u) ==> f.contains(("unit_of_measurement"@, q(u)))
            &&& s.device_class matches Some(u) ==> f.contains(("device_class"@, q(u)))
            &&& s.state_class matches Some(u) ==> f.contains(("state_class"@, q(u)))
            &&& s.icon matches Some(u) ==> f.contains(("icon"@, q(u)))
            &&& s.precision matches Some(p) ==> f.contains(
                ("suggested_display_precision"@, text::decimal(p as nat)),
            )
            &&& f.contains(("availability_topic"@, q(ctx.base_topic + "/status"@)))
            &&& f.contains(("payload_available"@, q("online"@)))
            &&& f.contains(("payload_not_available"@, q("offline"@)))
            &&& f.len() == 8 + (if s.unit is Some { 1int } else { 0 }) + (if s.device_class is Some {
                1int
            } else {
                0
            }) + (if s.state_class is Some { 1int } else { 0 }) + (if s.icon is Some {
                1int
            } else {
                0
            }) + (if s.precision is Some { 1int } else { 0 })
        }),
        ctx.sensor_message(s).topic == ctx.discovery_prefix + "/sensor/"@ + ctx.device_id + "_"@
            + s.key + "/config"@,
        ctx.sensor_message(s).payload == vstd::utf8::encode_utf8(
            json_text::object_text(ctx.sensor_fields(s)),
        ),
{
    topics_end_in_their_leaf(ctx.base_topic, s.key);
    let f = ctx.sensor_fields(s);
    let a = 4int;
    let b = a + json_text::optional_field("unit_of_measurement"@, s.unit).len();
    let c = b + json_text::optional_field("device_class"@, s.device_class).len();
    let d = c + json_text::optional_field("state_class"@, s.state_class).len();
    let e = d + json_text::optional_field("icon"@, s.icon).len();
    let g = e + precision_field(s.precision).len();
    assert(f[0].0 == "name"@ && f[1].0 == "unique_id"@ && f[2].0 == "object_id"@ && f[3].0
        == "state_topic"@);
    if s.unit is Some {
        assert(f[a].0 == "unit_of_measurement"@);
    }
    if s.device_class is Some {
        assert(f[b].0 == "device_class"@);
    }
    if s.state_class is Some {
        assert(f[c].0 == "state_class"@);
    }
    if s.icon is Some {
        assert(f[d].0 == "icon"@);
    }
    if s.precision is Some {
        assert(f[e].0 == "suggested_display_precision"@);
    }
    assert(f[g] == ctx.closing_fields()[0] && f[g + 1] == ctx.closing_fields()[1] && f[g + 2]
        == ctx.closing_fields()[2]);
    assert(ctx.sensor_message(s).topic =~= ctx.discovery_prefix + "/sensor/"@ + ctx.device_id
        + "_"@ + s.key + "/config"@);
}

/// What is announced: nine sensors and the three switches, each as itself.
pub proof fn every_entity_is_announced(ctx: ContextView)
    ensures
        announcements(ctx).len() == 12,
        announcements(ctx)[0] == ctx.sensor_message(sensor_table()[0]) && sensor_table()[0].key == "battery"@,
        announcements(ctx)[1] == ctx.sensor_message(sensor_table()[1]) && sensor_table()[1].key == "pressure"@,
        announcements(ctx)[2] == ctx.sensor_message(sensor_table()[2]) && sensor_table()[2].key == "water_flow"@,
        announcements(ctx)[3] == ctx.sensor_message(sensor_table()[3]) && sensor_table()[3].key == "water_total"@,
        announcements(ctx)[4] == ctx.sensor_message(sensor_table()[4]) && sensor_table()[4].key == "loop_time"@,
        announcements(ctx)[5] == ctx.sensor_message(sensor_table()[5]) && sensor_table()[5].key == "wifi_rssi"@,
        announcements(ctx)[6] == ctx.sensor_message(sensor_table()[6]) && sensor_table()[6].key == "free_heap"@,
        announcements(ctx)[7] == ctx.sensor_message(sensor_table()[7]) && sensor_table()[7].key == "uptime"@,
        announcements(ctx)[8] == ctx.sensor_message(sensor_table()[8]) && sensor_table()[8].key == "reset_reason"@,
        announcements(ctx)[9] == ctx.switch_message("sprinkler_1"@, "Riego exterior"@),
        announcements(ctx)[10] == ctx.switch_message("sprinkler_2"@, "Riego mobil"@),
        announcements(ctx)[11] == ctx.switch_message("water_control"@, "Water control"@),
        sensor_table()[0].unit == Some("V"@),
        sensor_table()[1].unit == Some("bar"@),
        sensor_table()[2].unit == Some("L/h"@),
        sensor_table()[3].unit == Some("L"@),
        sensor_table()[4].unit == Some("ms"@),
        sensor_table()[5].unit == Some("dBm"@),
        sensor_table()[6].unit == Some("B"@),
        sensor_table()[7].unit == Some("s"@),
        sensor_table()[8].unit is None,
        forall|i: int|
            0 <= i < 9 ==> (#[trigger] sensor_table()[i]).state_class == (if i == 3 || i == 7 {
                Some("total_increasing"@)
            } else if i == 8 {
                None
            } else {
                Some("measurement"@)
            }),
{
}

} // verus!
