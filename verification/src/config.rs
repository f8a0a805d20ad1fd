//! The runtime configuration: its sections, their defaults, and the rules by
//! which secrets leave and re-enter it.

use vstd::prelude::*;
use crate::calibration::{CalPoint, Calibration};
use crate::reading::Reading;
use crate::schedule;
use crate::schedule::Schedule;
use crate::text;
use crate::traits;
use crate::traits::{NvsError, NvsStore, WifiCreds};
use crate::water_valve::ValveTiming;
use crate::webhook;
use crate::webhook::WebhookConfig;
use crate::webhook_http;

verus! {

/// Key under which the configuration is stored.
pub const NVS_KEY: &'static str = "wc.cfg";

/// A list of networks by name and password.
pub open spec fn creds_views(networks: Seq<WifiCreds>) -> Seq<traits::WifiCredsView> {
    Seq::new(networks.len(), |i: int| networks[i]@)
}

#[derive(Debug, PartialEq)]
pub struct WifiConfig {
    pub networks: Vec<WifiCreds>,
    pub hostname: String,
    /// Name of the fallback access point.
    pub ap_ssid: String,
    /// Password of the fallback access point. Empty stands for an open one.
    pub ap_password: String,
}

#[verifier::ext_equal]
pub struct WifiConfigView {
    pub networks: Seq<traits::WifiCredsView>,
    pub hostname: Seq<char>,
    pub ap_ssid: Seq<char>,
    pub ap_password: Seq<char>,
}

impl View for WifiConfig {
    type V = WifiConfigView;

    open spec fn view(&self) -> WifiConfigView {
        WifiConfigView {
            networks: creds_views(self.networks@),
            hostname: self.hostname@,
            ap_ssid: self.ap_ssid@,
            ap_password: self.ap_password@,
        }
    }
}

fn clone_networks(networks: &Vec<WifiCreds>) -> (r: Vec<WifiCreds>)
    ensures
        r@ == networks@,
{
    let r = networks.clone();
    assert forall|i: int| 0 <= i < networks@.len() implies #[trigger] r@[i] == networks@[i] by {
        assert(cloned(networks@[i], r@[i]));
    }
    assert(r@ =~= networks@);
    r
}

impl Clone for WifiConfig {
    fn clone(&self) -> (c: Self)
        ensures
            c@ == self@,
    {
        WifiConfig {
            networks: clone_networks(&self.networks),
            hostname: self.hostname.clone(),
            ap_ssid: self.ap_ssid.clone(),
            ap_password: self.ap_password.clone(),
        }
    }
}

/// The Wi-Fi section of a fresh device that knows these networks.
pub open spec fn wifi_defaults(networks: Seq<traits::WifiCredsView>) -> WifiConfigView {
    WifiConfigView {
        networks,
        hostname: "doremorwater"@,
        ap_ssid: "Doremorwater Fallback Hotspot"@,
        ap_password: Seq::empty(),
    }
}

impl WifiConfig {
    /// The defaults with a network that was chosen when the program was built.
    /// Both name and password must be there, and the name must not be empty.
    pub fn seeded(ssid: Option<&str>, password: Option<&str>) -> (c: Self)
        ensures
            c@ == wifi_defaults(
                if ssid is Some && password is Some && ssid->0@.len() > 0 {
                    seq![traits::WifiCredsView { ssid: ssid->0@, password: password->0@ }]
                } else {
                    Seq::empty()
                },
            ),
    {
        let mut networks: Vec<WifiCreds> = Vec::new();
        match (ssid, password) {
            (Some(s), Some(p)) => {
                if !s.is_empty() {
                    networks.push(WifiCreds { ssid: s.to_owned(), password: p.to_owned() });
                    assert(creds_views(networks@) =~= seq![
                        traits::WifiCredsView { ssid: s@, password: p@ },
                    ]);
                }
            },
            _ => {},
        }
        assert(networks@.len() == 0 ==> creds_views(networks@) =~= Seq::empty());
        WifiConfig {
            networks,
            hostname: "doremorwater".to_owned(),
            ap_ssid: "Doremorwater Fallback Hotspot".to_owned(),
            ap_password: String::new(),
        }
    }
}

impl Default for WifiConfig {
    fn default() -> (c: Self)
        ensures
            c@ == wifi_defaults(Seq::empty()),
    {
        WifiConfig::seeded(None, None)
    }
}

#[derive(Debug, PartialEq)]
pub struct MqttConfig {
    /// For example `mqtt://homeassistant.local:1883`, or `mqtts://` for TLS.
    pub broker_url: String,
    pub username: String,
    pub password: String,
    /// First part of every topic of the device.
    pub base_topic: String,
    pub ha_discovery_prefix: String,
    pub enabled: bool,
    /// Certificate of the authority that signed the broker's certificate.
    pub ca_cert_pem: String,
    pub client_cert_pem: String,
    pub client_key_pem: String,
}

pub struct MqttConfigView {
    pub broker_url: Seq<char>,
    pub username: Seq<char>,
    pub password: Seq<char>,
    pub base_topic: Seq<char>,
    pub ha_discovery_prefix: Seq<char>,
    pub enabled: bool,
    pub ca_cert_pem: Seq<char>,
    pub client_cert_pem: Seq<char>,
    pub client_key_pem: Seq<char>,
}

impl View for MqttConfig {
    type V = MqttConfigView;

    open spec fn view(&self) -> MqttConfigView {
        MqttConfigView {
            broker_url: self.broker_url@,
            username: self.username@,
            password: self.password@,
            base_topic: self.base_topic@,
            ha_discovery_prefix: self.ha_discovery_prefix@,
            enabled: self.enabled,
            ca_cert_pem: self.ca_cert_pem@,
            client_cert_pem: self.client_cert_pem@,
            client_key_pem: self.client_key_pem@,
        }
    }
}

impl Clone for MqttConfig {
    fn clone(&self) -> (c: Self)
        ensures
            c == *self,
    {
        MqttConfig {
            broker_url: self.broker_url.clone(),
            username: self.username.clone(),
            password: self.password.clone(),
            base_topic: self.base_topic.clone(),
            ha_discovery_prefix: self.ha_discovery_prefix.clone(),
            enabled: self.enabled,
            ca_cert_pem: self.ca_cert_pem.clone(),
            client_cert_pem: self.client_cert_pem.clone(),
            client_key_pem: self.client_key_pem.clone(),
        }
    }
}

pub open spec fn mqtt_defaults() -> MqttConfigView {
    MqttConfigView {
        broker_url: Seq::empty(),
        username: Seq::empty(),
        password: Seq::empty(),
        base_topic: "doremorwater"@,
        ha_discovery_prefix: "homeassistant"@,
        enabled: false,
        ca_cert_pem: Seq::empty(),
        client_cert_pem: Seq::empty(),
        client_key_pem: Seq::empty(),
    }
}

impl Default for MqttConfig {
    fn default() -> (c: Self)
        ensures
            c@ == mqtt_defaults(),
    {
        MqttConfig {
            broker_url: String::new(),
            username: String::new(),
            password: String::new(),
            base_topic: "doremorwater".to_owned(),
            ha_discovery_prefix: "homeassistant".to_owned(),
            enabled: false,
            ca_cert_pem: String::new(),
            client_cert_pem: String::new(),
            client_key_pem: String::new(),
        }
    }
}

#[derive(Debug, PartialEq)]
pub struct SensorsConfig {
    pub battery: Calibration,
    pub pressure_stage1: Calibration,
    pub pressure_stage2: Calibration,
    /// Litres per pulse.
    pub flow_l_per_pulse: Reading,
    /// Litres per hour for one pulse per second.
    pub flow_lph_per_pps: Reading,
}

#[verifier::ext_equal]
pub struct SensorsConfigView {
    pub battery: Seq<CalPoint>,
    pub pressure_stage1: Seq<CalPoint>,
    pub pressure_stage2: Seq<CalPoint>,
    pub flow_l_per_pulse: Reading,
    pub flow_lph_per_pps: Reading,
}

impl View for SensorsConfig {
    type V = SensorsConfigView;

    open spec fn view(&self) -> SensorsConfigView {
        SensorsConfigView {
            battery: self.battery@,
            pressure_stage1: self.pressure_stage1@,
            pressure_stage2: self.pressure_stage2@,
            flow_l_per_pulse: self.flow_l_per_pulse,
            flow_lph_per_pps: self.flow_lph_per_pps,
        }
    }
}

impl Clone for SensorsConfig {
    fn clone(&self) -> (c: Self)
        ensures
            c@ == self@,
    {
        SensorsConfig {
            battery: self.battery.clone(),
            pressure_stage1: self.pressure_stage1.clone(),
            pressure_stage2: self.pressure_stage2.clone(),
            flow_l_per_pulse: self.flow_l_per_pulse,
            flow_lph_per_pps: self.flow_lph_per_pps,
        }
    }
}

/// A point by the bit patterns of its two numbers.
pub open spec fn point(raw: u32, value: u32) -> CalPoint {
    CalPoint { raw: Reading { bits: raw }, value: Reading { bits: value } }
}

/// Battery from (1130, 5.00) and (2931, 12.2); pressure through (0.37, 0.54)
/// and (2.62, 3.98), then (0.54, 0) and (4.50, 10.34214); 1/516.5 litres per
/// pulse; and 0.00225012 times 60.
pub open spec fn sensors_defaults() -> SensorsConfigView {
    SensorsConfigView {
        battery: seq![point(0x448d4000, 0x40a00000), point(0x45373000, 0x41433333)],
        pressure_stage1: seq![point(0x3ebd70a4, 0x3f0a3d71), point(0x4027ae14, 0x407eb852)],
        pressure_stage2: seq![point(0x3f0a3d71, 0x00000000), point(0x40900000, 0x41257968)],
        flow_l_per_pulse: Reading { bits: 0x3afdc505 },
        flow_lph_per_pps: Reading { bits: 0x3e0a3f54 },
    }
}

fn two_points(raw1: u32, value1: u32, raw2: u32, value2: u32) -> (c: Calibration)
    ensures
        c@ == seq![point(raw1, value1), point(raw2, value2)],
{
    let c = Calibration {
        points: vec![
            CalPoint { raw: Reading { bits: raw1 }, value: Reading { bits: value1 } },
            CalPoint { raw: Reading { bits: raw2 }, value: Reading { bits: value2 } },
        ],
    };
    assert(c.points@ =~= seq![point(raw1, value1), point(raw2, value2)]);
    c
}

impl Default for SensorsConfig {
    fn default() -> (c: Self)
        ensures
            c@ == sensors_defaults(),
    {
        SensorsConfig {
            battery: two_points(0x448d4000, 0x40a00000, 0x45373000, 0x41433333),
            pressure_stage1: two_points(0x3ebd70a4, 0x3f0a3d71, 0x4027ae14, 0x407eb852),
            pressure_stage2: two_points(0x3f0a3d71, 0x00000000, 0x40900000, 0x41257968),
            flow_l_per_pulse: Reading { bits: 0x3afdc505 },
            flow_lph_per_pps: Reading { bits: 0x3e0a3f54 },
        }
    }
}

#[derive(Debug, PartialEq)]
pub struct WireguardConfig {
    pub enabled: bool,
    /// Address of the device in the tunnel.
    pub address: String,
    pub private_key: String,
    pub peer_endpoint: String,
    pub peer_public_key: String,
    pub peer_preshared_key: String,
    pub peer_allowed_ips: Vec<String>,
    pub keepalive_secs: u16,
}

#[verifier::ext_equal]
pub struct WireguardConfigView {
    pub enabled: bool,
    pub address: Seq<char>,
    pub private_key: Seq<char>,
    pub peer_endpoint: Seq<char>,
    pub peer_public_key: Seq<char>,
    pub peer_preshared_key: Seq<char>,
    pub peer_allowed_ips: Seq<Seq<char>>,
    pub keepalive_secs: u16,
}

impl View for WireguardConfig {
    type V = WireguardConfigView;

    open spec fn view(&self) -> WireguardConfigView {
        WireguardConfigView {
            enabled: self.enabled,
            address: self.address@,
            private_key: self.private_key@,
            peer_endpoint: self.peer_endpoint@,
            peer_public_key: self.peer_public_key@,
            peer_preshared_key: self.peer_preshared_key@,
            peer_allowed_ips: text::texts(self.peer_allowed_ips@),
            keepalive_secs: self.keepalive_secs,
        }
    }
}

impl Clone for WireguardConfig {
    fn clone(&self) -> (c: Self)
        ensures
            c@ == self@,
    {
        let c = WireguardConfig {
            enabled: self.enabled,
            address: self.address.clone(),
            private_key: self.private_key.clone(),
            peer_endpoint: self.peer_endpoint.clone(),
            peer_public_key: self.peer_public_key.clone(),
            peer_preshared_key: self.peer_preshared_key.clone(),
            peer_allowed_ips: self.peer_allowed_ips.clone(),
            keepalive_secs: self.keepalive_secs,
        };
        assert(c.peer_allowed_ips@ =~= self.peer_allowed_ips@);
        c
    }
}

pub open spec fn wireguard_defaults() -> WireguardConfigView {
    WireguardConfigView {
        enabled: false,
        address: "10.6.0.5"@,
        private_key: Seq::empty(),
        peer_endpoint: Seq::empty(),
        peer_public_key: Seq::empty(),
        peer_preshared_key: Seq::empty(),
        peer_allowed_ips: seq!["192.168.1.0/24"@, "10.6.0.1/32"@],
        keepalive_secs: 25,
    }
}

impl Default for WireguardConfig {
    fn default() -> (c: Self)
        ensures
            c@ == wireguard_defaults(),
    {
        let c = WireguardConfig {
            enabled: false,
            address: "10.6.0.5".to_owned(),
            private_key: String::new(),
            peer_endpoint: String::new(),
            peer_public_key: String::new(),
            peer_preshared_key: String::new(),
            peer_allowed_ips: vec!["192.168.1.0/24".to_owned(), "10.6.0.1/32".to_owned()],
            keepalive_secs: 25,
        };
        assert(text::texts(c.peer_allowed_ips@) =~= seq!["192.168.1.0/24"@, "10.6.0.1/32"@]);
        c
    }
}

#[derive(Debug, PartialEq)]
pub struct HttpsConfig {
    /// Without this only plain HTTP is served, whatever certificate there is.
    pub enabled: bool,
    pub cert_pem: String,
    pub key_pem: String,
}

pub struct HttpsConfigView {
    pub enabled: bool,
    pub cert_pem: Seq<char>,
    pub key_pem: Seq<char>,
}

impl View for HttpsConfig {
    type V = HttpsConfigView;

    open spec fn view(&self) -> HttpsConfigView {
        HttpsConfigView {
            enabled: self.enabled,
            cert_pem: self.cert_pem@,
            key_pem: self.key_pem@,
        }
    }
}

impl Clone for HttpsConfig {
    fn clone(&self) -> (c: Self)
        ensures
            c == *self,
    {
        HttpsConfig {
            enabled: self.enabled,
            cert_pem: self.cert_pem.clone(),
            key_pem: self.key_pem.clone(),
        }
    }
}

pub open spec fn https_defaults() -> HttpsConfigView {
    HttpsConfigView { enabled: true, cert_pem: Seq::empty(), key_pem: Seq::empty() }
}

impl Default for HttpsConfig {
    fn default() -> (c: Self)
        ensures
            c@ == https_defaults(),
    {
        HttpsConfig { enabled: true, cert_pem: String::new(), key_pem: String::new() }
    }
}

#[derive(Debug, Clone, Copy, PartialEq, Eq, Structural)]
pub struct SwitchesConfig {
    /// Auto-off time of the first sprinkler in seconds. Zero turns it off.
    pub sprinkler_1_auto_off_secs: u32,
    /// Auto-off time of the second sprinkler in seconds. Zero turns it off.
    pub sprinkler_2_auto_off_secs: u32,
    pub valve_timing: ValveTiming,
}

pub open spec fn switches_defaults() -> SwitchesConfig {
    SwitchesConfig {
        sprinkler_1_auto_off_secs: 420,
        sprinkler_2_auto_off_secs: 300,
        valve_timing: ValveTiming { motor_run_secs: 14, drain_secs: 300 },
    }
}

impl Default for SwitchesConfig {
    fn default() -> (c: Self)
        ensures
            c == switches_defaults(),
    {
        SwitchesConfig {
            sprinkler_1_auto_off_secs: 7 * 60,
            sprinkler_2_auto_off_secs: 5 * 60,
            valve_timing: ValveTiming::default(),
        }
    }
}

/// When the flow counts as a leak.
#[derive(Debug, Clone, Copy, PartialEq, Eq, Structural)]
pub struct FlowAlarmConfig {
    pub enabled: bool,
    /// Litres per hour from which the flow is too high.
    pub threshold_lph: Reading,
    /// How long it must stay too high, in seconds.
    pub duration_secs: u32,
}

/// Off; 100 litres per hour for a minute.
pub open spec fn flow_alarm_defaults() -> FlowAlarmConfig {
    FlowAlarmConfig {
        enabled: false,
        threshold_lph: Reading { bits: 0x42c80000 },
        duration_secs: 60,
    }
}

impl Default for FlowAlarmConfig {
    fn default() -> (c: Self)
        ensures
            c == flow_alarm_defaults(),
    {
        FlowAlarmConfig {
            enabled: false,
            threshold_lph: Reading { bits: 0x42c80000 },
            duration_secs: 60,
        }
    }
}

#[derive(Debug, PartialEq)]
pub struct Config {
    pub wifi: WifiConfig,
    pub mqtt: MqttConfig,
    pub https: HttpsConfig,
    pub switches: SwitchesConfig,
    pub sensors: SensorsConfig,
    pub flow_alarm: FlowAlarmConfig,
    pub timezone: String,
    /// Names of time servers.
    pub sntp_servers: Vec<String>,
    pub schedule: Schedule,
    pub wireguard: WireguardConfig,
    /// Requests that change something must carry this token. Empty stands for
    /// no such demand.
    pub admin_token: String,
    pub webhooks: Vec<WebhookConfig>,
}

#[verifier::ext_equal]
pub struct ConfigView {
    pub wifi: WifiConfigView,
    pub mqtt: MqttConfigView,
    pub https: HttpsConfigView,
    pub switches: SwitchesConfig,
    pub sensors: SensorsConfigView,
    pub flow_alarm: FlowAlarmConfig,
    pub timezone: Seq<char>,
    pub sntp_servers: Seq<Seq<char>>,
    pub schedule: Seq<schedule::RuleView>,
    pub wireguard: WireguardConfigView,
    pub admin_token: Seq<char>,
    pub webhooks: Seq<webhook::WebhookConfigView>,
}

impl View for Config {
    type V = ConfigView;

    open spec fn view(&self) -> ConfigView {
        ConfigView {
            wifi: self.wifi@,
            mqtt: self.mqtt@,
            https: self.https@,
            switches: self.switches,
            sensors: self.sensors@,
            flow_alarm: self.flow_alarm,
            timezone: self.timezone@,
            sntp_servers: text::texts(self.sntp_servers@),
            schedule: self.schedule@,
            wireguard: self.wireguard@,
            admin_token: self.admin_token@,
            webhooks: webhook_http::target_views(self.webhooks@),
        }
    }
}

impl Clone for Config {
    fn clone(&self) -> (c: Self)
        ensures
            c@ == self@,
    {
        let c = Config {
            wifi: self.wifi.clone(),
            mqtt: self.mqtt.clone(),
            https: self.https.clone(),
            switches: self.switches,
            sensors: self.sensors.clone(),
            flow_alarm: self.flow_alarm,
            timezone: self.timezone.clone(),
            sntp_servers: self.sntp_servers.clone(),
            schedule: self.schedule.clone(),
            wireguard: self.wireguard.clone(),
            admin_token: self.admin_token.clone(),
            webhooks: self.webhooks.clone(),
        };
        proof {
            assert(c.sntp_servers@ =~= self.sntp_servers@);
            let a = webhook_http::target_views(self.webhooks@);
            let b = webhook_http::target_views(c.webhooks@);
            assert forall|i: int| 0 <= i < a.len() implies #[trigger] b[i] == a[i] by {
                assert(cloned(self.webhooks@[i], c.webhooks@[i]));
            }
            assert(a =~= b);
        }
        c
    }
}

/// The configuration of a fresh device with this Wi-Fi section.
pub open spec fn config_defaults(wifi: WifiConfigView) -> ConfigView {
    ConfigView {
        wifi,
        mqtt: mqtt_defaults(),
        https: https_defaults(),
        switches: switches_defaults(),
        sensors: sensors_defaults(),
        flow_alarm: flow_alarm_defaults(),
        timezone: "Europe/Madrid"@,
        sntp_servers: seq!["0.es.pool.ntp.org"@, "1.es.pool.ntp.org"@, "2.es.pool.ntp.org"@],
        schedule: schedule::default_rules(),
        wireguard: wireguard_defaults(),
        admin_token: Seq::empty(),
        webhooks: Seq::empty(),
    }
}

impl Default for Config {
    fn default() -> (c: Self)
        ensures
            c@ == config_defaults(wifi_defaults(Seq::empty())),
    {
        Config::with_wifi(WifiConfig::default())
    }
}

/// Why a configuration could not be loaded or saved.
#[derive(Debug, PartialEq, Eq)]
pub enum ConfigError {
    Nvs(NvsError),
    /// The parser's message.
    Json(String),
}

impl ConfigError {
    pub open spec fn text(self) -> Seq<char> {
        match self {
            ConfigError::Nvs(e) => "nvs error: "@ + e.text(),
            ConfigError::Json(m) => "json error: "@ + m@,
        }
    }

    pub fn to_text(&self) -> (s: String)
        ensures
            s@ == self.text(),
    {
        match self {
            ConfigError::Nvs(e) => {
                let inner = e.to_text();
                text::join("nvs error: ", inner.as_str())
            },
            ConfigError::Json(m) => text::join("json error: ", m.as_str()),
        }
    }
}

/// A secret out of an update: the one that came, or the stored one where the
/// update left it blank.
pub open spec fn kept(incoming: Seq<char>, stored: Seq<char>) -> Seq<char> {
    if incoming.len() == 0 {
        stored
    } else {
        incoming
    }
}

/// The place of the first network with this name, or the length of the list.
pub open spec fn first_named(networks: Seq<traits::WifiCredsView>, ssid: Seq<char>) -> int
    decreases networks.len(),
{
    if networks.len() == 0 || networks[0].ssid == ssid {
        0
    } else {
        1 + first_named(networks.skip(1), ssid)
    }
}

proof fn first_named_is_first(networks: Seq<traits::WifiCredsView>, ssid: Seq<char>)
    ensures
        0 <= first_named(networks, ssid) <= networks.len(),
        first_named(networks, ssid) < networks.len() ==> networks[first_named(
            networks,
            ssid,
        )].ssid == ssid,
        forall|j: int| 0 <= j < first_named(networks, ssid) ==> networks[j].ssid != ssid,
    decreases networks.len(),
{
    if networks.len() > 0 && networks[0].ssid != ssid {
        first_named_is_first(networks.skip(1), ssid);
        assert forall|j: int| 0 <= j < first_named(networks, ssid) implies networks[j].ssid
            != ssid by {
            if j > 0 {
                assert(networks[j] == networks.skip(1)[j - 1]);
            }
        }
    }
}

/// A network out of an update: a blank password is taken from the first stored
/// network of the same name, if there is one.
pub open spec fn kept_network(
    incoming: traits::WifiCredsView,
    stored: Seq<traits::WifiCredsView>,
) -> traits::WifiCredsView {
    let i = first_named(stored, incoming.ssid);
    if incoming.password.len() == 0 && i < stored.len() {
        traits::WifiCredsView { password: stored[i].password, ..incoming }
    } else {
        incoming
    }
}

pub open spec fn kept_networks(
    incoming: Seq<traits::WifiCredsView>,
    stored: Seq<traits::WifiCredsView>,
) -> Seq<traits::WifiCredsView> {
    Seq::new(incoming.len(), |i: int| kept_network(incoming[i], stored))
}

impl WifiConfigView {
    pub open spec fn redacted(self) -> WifiConfigView {
        WifiConfigView {
            networks: Seq::new(
                self.networks.len(),
                |i: int|
                    traits::WifiCredsView { password: Seq::empty(), ..self.networks[i] },
            ),
            ..self
        }
    }

    pub open spec fn restored(self, stored: WifiConfigView) -> WifiConfigView {
        WifiConfigView { networks: kept_networks(self.networks, stored.networks), ..self }
    }
}

impl MqttConfigView {
    pub open spec fn redacted(self) -> MqttConfigView {
        MqttConfigView { password: Seq::empty(), client_key_pem: Seq::empty(), ..self }
    }

    pub open spec fn restored(self, stored: MqttConfigView) -> MqttConfigView {
        MqttConfigView {
            password: kept(self.password, stored.password),
            client_key_pem: kept(self.client_key_pem, stored.client_key_pem),
            ..self
        }
    }
}

impl HttpsConfigView {
    pub open spec fn redacted(self) -> HttpsConfigView {
        HttpsConfigView { key_pem: Seq::empty(), ..self }
    }

    pub open spec fn restored(self, stored: HttpsConfigView) -> HttpsConfigView {
        HttpsConfigView { key_pem: kept(self.key_pem, stored.key_pem), ..self }
    }
}

impl WireguardConfigView {
    pub open spec fn redacted(self) -> WireguardConfigView {
        WireguardConfigView {
            private_key: Seq::empty(),
            peer_preshared_key: Seq::empty(),
            ..self
        }
    }

    pub open spec fn restored(self, stored: WireguardConfigView) -> WireguardConfigView {
        WireguardConfigView {
            private_key: kept(self.private_key, stored.private_key),
            peer_preshared_key: kept(self.peer_preshared_key, stored.peer_preshared_key),
            ..self
        }
    }
}

impl ConfigView {
    /// The configuration with every secret blanked and all else as it is.
    pub open spec fn redacted(self) -> ConfigView {
        ConfigView {
            wifi: self.wifi.redacted(),
            mqtt: self.mqtt.redacted(),
            https: self.https.redacted(),
            wireguard: self.wireguard.redacted(),
            admin_token: Seq::empty(),
            ..self
        }
    }

    /// The configuration with blank secrets filled in from a stored one.
    pub open spec fn restored(self, stored: ConfigView) -> ConfigView {
        ConfigView {
            wifi: self.wifi.restored(stored.wifi),
            mqtt: self.mqtt.restored(stored.mqtt),
            https: self.https.restored(stored.https),
            wireguard: self.wireguard.restored(stored.wireguard),
            admin_token: kept(self.admin_token, stored.admin_token),
            ..self
        }
    }
}

impl ConfigView {
    /// The configuration with no more webhook targets than there may be: the
    /// first ones stay.
    pub open spec fn capped(self) -> ConfigView {
        ConfigView {
            webhooks: if self.webhooks.len() <= webhook::WEBHOOKS_MAX {
                self.webhooks
            } else {
                self.webhooks.take(webhook::WEBHOOKS_MAX as int)
            },
            ..self
        }
    }
}

fn keep_secret(incoming: &mut String, stored: &String)
    ensures
        final(incoming)@ == kept(old(incoming)@, stored@),
{
    if incoming.as_str().is_empty() {
        *incoming = stored.clone();
    }
}

impl WifiConfig {
    fn redact(&mut self)
        ensures
            final(self)@ == old(self)@.redacted(),
    {
        let ghost before = self@;
        let mut i: usize = 0;
        while i < self.networks.len()
            invariant
                i <= self.networks@.len(),
                self.networks@.len() == before.networks.len(),
                self.hostname@ == before.hostname,
                self.ap_ssid@ == before.ap_ssid,
                self.ap_password@ == before.ap_password,
                forall|j: int|
                    0 <= j < i ==> (#[trigger] self.networks@[j])@ == (traits::WifiCredsView {
                        password: Seq::empty(),
                        ..before.networks[j]
                    }),
                forall|j: int|
                    i <= j < self.networks@.len() ==> (#[trigger] self.networks@[j])@
                        == before.networks[j],
            decreases self.networks@.len() - i,
        {
            self.networks[i].password = String::new();
            i += 1;
        }
        assert(self@.networks =~= before.redacted().networks);
    }

    /// Fills blank passwords from stored networks of the same name.
    pub fn restore_passwords(&mut self, stored: &WifiConfig)
        ensures
            final(self)@ == old(self)@.restored(stored@),
    {
        let ghost before = self@;
        let mut i: usize = 0;
        while i < self.networks.len()
            invariant
                i <= self.networks@.len(),
                self.networks@.len() == before.networks.len(),
                self.hostname@ == before.hostname,
                self.ap_ssid@ == before.ap_ssid,
                self.ap_password@ == before.ap_password,
                forall|j: int|
                    0 <= j < i ==> (#[trigger] self.networks@[j])@ == kept_network(
                        before.networks[j],
                        stored@.networks,
                    ),
                forall|j: int|
                    i <= j < self.networks@.len() ==> (#[trigger] self.networks@[j])@
                        == before.networks[j],
            decreases self.networks@.len() - i,
        {
            if self.networks[i].password.as_str().is_empty() {
                let k: usize = find_named(&stored.networks, self.networks[i].ssid.as_str());
                if k < stored.networks.len() {
                    self.networks[i].password = stored.networks[k].password.clone();
                }
            }
            i += 1;
        }
        assert(self@.networks =~= before.restored(stored@).networks);
    }
}

/// The place of the first network with this name, or the length of the list.
pub fn find_named(networks: &Vec<WifiCreds>, ssid: &str) -> (i: usize)
    ensures
        i == first_named(creds_views(networks@), ssid@),
        i <= networks@.len(),
{
    let ghost views = creds_views(networks@);
    let mut i: usize = 0;
    while i < networks.len() && !text::same(networks[i].ssid.as_str(), ssid)
        invariant
            i <= networks@.len(),
            views == creds_views(networks@),
            forall|j: int| 0 <= j < i ==> (#[trigger] views[j]).ssid != ssid@,
        decreases networks@.len() - i,
    {
        i += 1;
    }
    proof {
        first_named_is_first(views, ssid@);
        let f = first_named(views, ssid@);
        if f < i {
            assert(views[f].ssid != ssid@);
        }
        if i < views.len() {
            assert(views[i as int].ssid == ssid@);
        }
    }
    i
}

impl MqttConfig {
    fn redact(&mut self)
        ensures
            final(self)@ == old(self)@.redacted(),
    {
        self.password = String::new();
        self.client_key_pem = String::new();
    }

    /// Fills a blank password and a blank client key from stored ones.
    pub fn restore_secrets(&mut self, stored: &MqttConfig)
        ensures
            final(self)@ == old(self)@.restored(stored@),
    {
        keep_secret(&mut self.password, &stored.password);
        keep_secret(&mut self.client_key_pem, &stored.client_key_pem);
    }
}

impl HttpsConfig {
    fn redact(&mut self)
        ensures
            final(self)@ == old(self)@.redacted(),
    {
        self.key_pem = String::new();
    }

    /// Fills a blank key from the stored one.
    pub fn restore_secrets(&mut self, stored: &HttpsConfig)
        ensures
            final(self)@ == old(self)@.restored(stored@),
    {
        keep_secret(&mut self.key_pem, &stored.key_pem);
    }
}

impl WireguardConfig {
    fn redact(&mut self)
        ensures
            final(self)@ == old(self)@.redacted(),
    {
        self.private_key = String::new();
        self.peer_preshared_key = String::new();
    }

    /// Fills blank keys from stored ones.
    pub fn restore_secrets(&mut self, stored: &WireguardConfig)
        ensures
            final(self)@ == old(self)@.restored(stored@),
    {
        keep_secret(&mut self.private_key, &stored.private_key);
        keep_secret(&mut self.peer_preshared_key, &stored.peer_preshared_key);
    }
}

/// The answer of the store, as an error of the configuration where it is one.
pub open spec fn stored_as(r: Result<(), NvsError>) -> Result<(), ConfigError> {
    match r {
        Ok(()) => Ok(()),
        Err(e) => Err(ConfigError::Nvs(e)),
    }
}

pub fn store_result(r: Result<(), NvsError>) -> (out: Result<(), ConfigError>)
    ensures
        out == stored_as(r),
{
    match r {
        Ok(()) => Ok(()),
        Err(e) => Err(ConfigError::Nvs(e)),
    }
}

impl Config {
    /// The defaults, with a given Wi-Fi section.
    pub fn with_wifi(wifi: WifiConfig) -> (c: Self)
        ensures
            c@ == config_defaults(wifi@),
    {
        let c = Config {
            wifi,
            mqtt: MqttConfig::default(),
            https: HttpsConfig::default(),
            switches: SwitchesConfig::default(),
            sensors: SensorsConfig::default(),
            flow_alarm: FlowAlarmConfig::default(),
            timezone: "Europe/Madrid".to_owned(),
            sntp_servers: vec![
                "0.es.pool.ntp.org".to_owned(),
                "1.es.pool.ntp.org".to_owned(),
                "2.es.pool.ntp.org".to_owned(),
            ],
            schedule: schedule::default_schedule(),
            wireguard: WireguardConfig::default(),
            admin_token: String::new(),
            webhooks: Vec::new(),
        };
        proof {
            assert(c@.sntp_servers =~= config_defaults(wifi@).sntp_servers);
            assert(c@.webhooks =~= Seq::<webhook::WebhookConfigView>::empty());
        }
        c
    }

    /// Leaves out the webhook targets past the most that there may be.
    pub fn cap_webhooks(&mut self)
        ensures
            final(self)@ == old(self)@.capped(),
    {
        let ghost before = self@;
        self.webhooks.truncate(webhook::WEBHOOKS_MAX);
        assert(self@.webhooks =~= before.capped().webhooks);
    }

    /// What a load gives: the defaults where nothing is stored, else what the
    /// parser made of the stored bytes, with no more webhook targets than there
    /// may be.
    pub fn load(stored: Option<Result<Config, String>>) -> (r: Result<Config, ConfigError>)
        ensures
            match stored {
                None => r is Ok && r->Ok_0@ == config_defaults(wifi_defaults(Seq::empty())),
                Some(Ok(c)) => r is Ok && r->Ok_0@ == c@.capped(),
                Some(Err(m)) => r == Err::<Config, ConfigError>(ConfigError::Json(m)),
            },
    {
        match stored {
            None => Ok(Config::default()),
            Some(Ok(c)) => {
                let mut cfg = c;
                cfg.cap_webhooks();
                Ok(cfg)
            },
            Some(Err(m)) => Err(ConfigError::Json(m)),
        }
    }

    /// Stores the configuration, given as the JSON that it was written as or the
    /// error that came instead. After an error nothing is stored. The store is
    /// handed the JSON under [`NVS_KEY`], and what it answers is passed on.
    pub fn save<N: NvsStore>(json: Result<Vec<u8>, String>, nvs: &N) -> (r: Result<
        (),
        ConfigError,
    >)
        ensures
            json matches Err(m) ==> r == Err::<(), ConfigError>(ConfigError::Json(m)),
            json matches Ok(bytes) ==> exists|value: &[u8], answer: Result<(), NvsError>|
                {
                    &&& #[trigger] call_ensures(N::set, (nvs, NVS_KEY, value), answer)
                    &&& value@ == bytes@
                    &&& r == stored_as(answer)
                },
    {
        match json {
            Ok(bytes) => {
                let value: &[u8] = bytes.as_slice();
                let answer = nvs.set(NVS_KEY, value);
                assert(call_ensures(N::set, (nvs, NVS_KEY, value), answer));
                store_result(answer)
            },
            Err(m) => Err(ConfigError::Json(m)),
        }
    }

    /// Removes the stored configuration, so that the next start uses defaults.
    /// The store is asked to remove [`NVS_KEY`], and what it answers is passed on.
    pub fn factory_reset<N: NvsStore>(nvs: &N) -> (r: Result<(), ConfigError>)
        ensures
            exists|answer: Result<(), NvsError>|
                {
                    &&& #[trigger] call_ensures(N::remove, (nvs, NVS_KEY), answer)
                    &&& r == stored_as(answer)
                },
    {
        let answer = nvs.remove(NVS_KEY);
        assert(call_ensures(N::remove, (nvs, NVS_KEY), answer));
        store_result(answer)
    }

    /// A copy with every secret blanked, fit to be shown. Certificates and
    /// public keys stay.
    pub fn redact_secrets_for_api(&self) -> (c: Self)
        ensures
            c@ == self@.redacted(),
    {
        let mut out = self.clone();
        out.wifi.redact();
        out.mqtt.redact();
        out.https.redact();
        out.wireguard.redact();
        out.admin_token = String::new();
        out
    }

    /// Takes over an update, in which blank secrets stand for the stored ones.
    pub fn merge_preserving_secrets(&mut self, incoming: Config)
        ensures
            final(self)@ == incoming@.restored(old(self)@),
    {
        let mut update = incoming;
        update.restore_secrets_from(self);
        *self = update;
    }

    /// Fills every blank secret from a stored configuration.
    pub fn restore_secrets_from(&mut self, stored: &Config)
        ensures
            final(self)@ == old(self)@.restored(stored@),
    {
        self.wifi.restore_passwords(&stored.wifi);
        self.mqtt.restore_secrets(&stored.mqtt);
        self.https.restore_secrets(&stored.https);
        self.wireguard.restore_secrets(&stored.wireguard);
        keep_secret(&mut self.admin_token, &stored.admin_token);
    }

    /// Replaces the Wi-Fi section; blank passwords stand for stored ones.
    pub fn put_wifi(&mut self, section: WifiConfig)
        ensures
            final(self)@ == (ConfigView {
                wifi: section@.restored(old(self)@.wifi),
                ..old(self)@
            }),
    {
        let mut new = section;
        new.restore_passwords(&self.wifi);
        self.wifi = new;
    }

    /// Replaces the MQTT section; blank secrets stand for stored ones.
    pub fn put_mqtt(&mut self, section: MqttConfig)
        ensures
            final(self)@ == (ConfigView {
                mqtt: section@.restored(old(self)@.mqtt),
                ..old(self)@
            }),
    {
        let mut new = section;
        new.restore_secrets(&self.mqtt);
        self.mqtt = new;
    }

    /// Replaces the HTTPS section; a blank key stands for the stored one.
    pub fn put_https(&mut self, section: HttpsConfig)
        ensures
            final(self)@ == (ConfigView {
                https: section@.restored(old(self)@.https),
                ..old(self)@
            }),
    {
        let mut new = section;
        new.restore_secrets(&self.https);
        self.https = new;
    }

    /// Replaces the tunnel section; blank keys stand for stored ones.
    pub fn put_wireguard(&mut self, section: WireguardConfig)
        ensures
            final(self)@ == (ConfigView {
                wireguard: section@.restored(old(self)@.wireguard),
                ..old(self)@
            }),
    {
        let mut new = section;
        new.restore_secrets(&self.wireguard);
        self.wireguard = new;
    }

    /// Sets a new admin token; a blank one changes nothing.
    pub fn put_auth(&mut self, admin_token: String)
        ensures
            final(self)@ == (ConfigView {
                admin_token: kept(admin_token@, old(self)@.admin_token),
                ..old(self)@
            }),
    {
        if !admin_token.as_str().is_empty() {
            self.admin_token = admin_token;
        }
    }

    /// Replaces the time section.
    pub fn put_time(&mut self, timezone: String, sntp_servers: Vec<String>)
        ensures
            final(self)@ == (ConfigView {
                timezone: timezone@,
                sntp_servers: text::texts(sntp_servers@),
                ..old(self)@
            }),
    {
        self.timezone = timezone;
        self.sntp_servers = sntp_servers;
    }
}

/// A redacted configuration holds no secret: nothing of what it shows depends
/// on the secrets.
pub proof fn redacted_hides_secrets(a: ConfigView, b: ConfigView)
    requires
        a == (ConfigView {
            wifi: WifiConfigView { networks: a.wifi.networks, ..b.wifi },
            mqtt: MqttConfigView {
                password: a.mqtt.password,
                client_key_pem: a.mqtt.client_key_pem,
                ..b.mqtt
            },
            https: HttpsConfigView { key_pem: a.https.key_pem, ..b.https },
            wireguard: WireguardConfigView {
                private_key: a.wireguard.private_key,
                peer_preshared_key: a.wireguard.peer_preshared_key,
                ..b.wireguard
            },
            admin_token: a.admin_token,
            ..b
        }),
        a.wifi.networks.len() == b.wifi.networks.len(),
        forall|i: int|
            0 <= i < a.wifi.networks.len() ==> (#[trigger] a.wifi.networks[i]).ssid
                == b.wifi.networks[i].ssid,
    ensures
        a.redacted() == b.redacted(),
{
    assert(a.redacted().wifi.networks =~= b.redacted().wifi.networks);
}

/// Redacting twice is redacting once.
pub proof fn redacting_is_idempotent(c: ConfigView)
    ensures
        c.redacted().redacted() == c.redacted(),
{
    assert(c.redacted().redacted().wifi.networks =~= c.redacted().wifi.networks);
}

/// Networks that share a name share a password.
pub open spec fn same_name_same_password(networks: Seq<traits::WifiCredsView>) -> bool {
    forall|i: int, j: int|
        0 <= i < networks.len() && 0 <= j < networks.len() && (#[trigger] networks[i]).ssid == (
        #[trigger] networks[j]).ssid ==> networks[i].password == networks[j].password
}

/// A configuration that was read with its secrets blanked and is written back
/// as it is loses nothing, as long as no two stored networks share a name and
/// differ in their passwords.
pub proof fn redacted_round_trip(c: ConfigView)
    requires
        same_name_same_password(c.wifi.networks),
    ensures
        c.redacted().restored(c) == c,
{
    let got = c.redacted().restored(c).wifi.networks;
    let want = c.wifi.networks;
    assert forall|i: int| 0 <= i < want.len() implies #[trigger] got[i] == want[i] by {
        let ssid = want[i].ssid;
        first_named_is_first(want, ssid);
        let k = first_named(want, ssid);
        if k == want.len() {
            assert(want[i].ssid != ssid);
        }
        assert(want[k].ssid == want[i].ssid);
    }
    assert(got =~= want);
    assert(c.redacted().restored(c) =~= c);
}

/// A secret that an update brings wins over the stored one.
pub proof fn new_secrets_win(incoming: ConfigView, stored: ConfigView)
    ensures
        incoming.mqtt.password.len() > 0 ==> incoming.restored(stored).mqtt.password
            == incoming.mqtt.password,
        incoming.mqtt.client_key_pem.len() > 0 ==> incoming.restored(stored).mqtt.client_key_pem
            == incoming.mqtt.client_key_pem,
        incoming.https.key_pem.len() > 0 ==> incoming.restored(stored).https.key_pem
            == incoming.https.key_pem,
        incoming.wireguard.private_key.len() > 0 ==> incoming.restored(
            stored,
        ).wireguard.private_key == incoming.wireguard.private_key,
        incoming.wireguard.peer_preshared_key.len() > 0 ==> incoming.restored(
            stored,
        ).wireguard.peer_preshared_key == incoming.wireguard.peer_preshared_key,
        incoming.admin_token.len() > 0 ==> incoming.restored(stored).admin_token
            == incoming.admin_token,
        forall|i: int|
            0 <= i < incoming.wifi.networks.len() && incoming.wifi.networks[i].password.len() > 0
                ==> #[trigger] incoming.restored(stored).wifi.networks[i]
                == incoming.wifi.networks[i],
{
}

/// A configuration without secrets has none to fill in.
pub proof fn blank_secrets_add_nothing(incoming: ConfigView, stored: ConfigView)
    requires
        stored == stored.redacted(),
    ensures
        incoming.restored(stored) == incoming,
{
    let got = incoming.restored(stored).wifi.networks;
    let want = incoming.wifi.networks;
    assert forall|i: int| 0 <= i < want.len() implies #[trigger] got[i] == want[i] by {
        let ssid = want[i].ssid;
        first_named_is_first(stored.wifi.networks, ssid);
        let k = first_named(stored.wifi.networks, ssid);
        if k < stored.wifi.networks.len() {
            assert(stored.wifi.networks[k] == stored.redacted().wifi.networks[k]);
        }
        assert(got[i].password =~= want[i].password);
    }
    assert(got =~= want);
    let r = incoming.restored(stored);
    assert(r.mqtt.password =~= incoming.mqtt.password);
    assert(r.mqtt.client_key_pem =~= incoming.mqtt.client_key_pem);
    assert(r.https.key_pem =~= incoming.https.key_pem);
    assert(r.wireguard.private_key =~= incoming.wireguard.private_key);
    assert(r.wireguard.peer_preshared_key =~= incoming.wireguard.peer_preshared_key);
    assert(r.admin_token =~= incoming.admin_token);
    assert(r =~= incoming);
}

/// Filling a configuration in from itself changes nothing, as long as no two of
/// its networks share a name and differ in their passwords.
pub proof fn own_secrets_add_nothing(c: ConfigView)
    requires
        same_name_same_password(c.wifi.networks),
    ensures
        c.restored(c) == c,
{
    let got = c.restored(c).wifi.networks;
    let want = c.wifi.networks;
    assert forall|i: int| 0 <= i < want.len() implies #[trigger] got[i] == want[i] by {
        let ssid = want[i].ssid;
        first_named_is_first(want, ssid);
        let k = first_named(want, ssid);
        if k == want.len() {
            assert(want[i].ssid != ssid);
        }
        assert(want[k].ssid == want[i].ssid);
    }
    assert(got =~= want);
    assert(c.restored(c) =~= c);
}

/// A redacted configuration shows no password, no private or shared key and no
/// token, and everything else as it is.
pub proof fn redacting_blanks_exactly_the_secrets(c: ConfigView)
    ensures
        c.redacted().mqtt.password.len() == 0,
        c.redacted().mqtt.client_key_pem.len() == 0,
        c.redacted().https.key_pem.len() == 0,
        c.redacted().wireguard.private_key.len() == 0,
        c.redacted().wireguard.peer_preshared_key.len() == 0,
        c.redacted().admin_token.len() == 0,
        c.redacted().wifi.networks.len() == c.wifi.networks.len(),
        forall|i: int|
            0 <= i < c.wifi.networks.len() ==> (#[trigger] c.redacted().wifi.networks[i]).password.len()
                == 0 && c.redacted().wifi.networks[i].ssid == c.wifi.networks[i].ssid,
        c.redacted().mqtt.broker_url == c.mqtt.broker_url,
        c.redacted().mqtt.username == c.mqtt.username,
        c.redacted().mqtt.base_topic == c.mqtt.base_topic,
        c.redacted().mqtt.ha_discovery_prefix == c.mqtt.ha_discovery_prefix,
        c.redacted().mqtt.enabled == c.mqtt.enabled,
        c.redacted().mqtt.ca_cert_pem == c.mqtt.ca_cert_pem,
        c.redacted().mqtt.client_cert_pem == c.mqtt.client_cert_pem,
        c.redacted().https.enabled == c.https.enabled,
        c.redacted().https.cert_pem == c.https.cert_pem,
        c.redacted().wireguard.enabled == c.wireguard.enabled,
        c.redacted().wireguard.address == c.wireguard.address,
        c.redacted().wireguard.peer_endpoint == c.wireguard.peer_endpoint,
        c.redacted().wireguard.peer_public_key == c.wireguard.peer_public_key,
        c.redacted().wireguard.peer_allowed_ips == c.wireguard.peer_allowed_ips,
        c.redacted().wireguard.keepalive_secs == c.wireguard.keepalive_secs,
        c.redacted().wifi.hostname == c.wifi.hostname,
        c.redacted().wifi.ap_ssid == c.wifi.ap_ssid,
        c.redacted().wifi.ap_password == c.wifi.ap_password,
        c.redacted().switches == c.switches,
        c.redacted().sensors == c.sensors,
        c.redacted().flow_alarm == c.flow_alarm,
        c.redacted().timezone == c.timezone,
        c.redacted().sntp_servers == c.sntp_servers,
        c.redacted().schedule == c.schedule,
        c.redacted().webhooks == c.webhooks,
{
}

/// A secret that an update leaves blank stays what is stored in the same place;
/// everything that is no secret is taken from the update.
pub proof fn blank_secrets_stay_as_stored(incoming: ConfigView, stored: ConfigView)
    ensures
        incoming.mqtt.password.len() == 0 ==> incoming.restored(stored).mqtt.password == stored.mqtt.password,
        incoming.mqtt.client_key_pem.len() == 0 ==> incoming.restored(stored).mqtt.client_key_pem == stored.mqtt.client_key_pem,
        incoming.https.key_pem.len() == 0 ==> incoming.restored(stored).https.key_pem == stored.https.key_pem,
        incoming.wireguard.private_key.len() == 0 ==> incoming.restored(stored).wireguard.private_key == stored.wireguard.private_key,
        incoming.wireguard.peer_preshared_key.len() == 0 ==> incoming.restored(stored).wireguard.peer_preshared_key == stored.wireguard.peer_preshared_key,
        incoming.admin_token.len() == 0 ==> incoming.restored(stored).admin_token == stored.admin_token,
        incoming.restored(stored).mqtt.broker_url == incoming.mqtt.broker_url,
        incoming.restored(stored).mqtt.username == incoming.mqtt.username,
        incoming.restored(stored).mqtt.base_topic == incoming.mqtt.base_topic,
        incoming.restored(stored).mqtt.ha_discovery_prefix == incoming.mqtt.ha_discovery_prefix,
        incoming.restored(stored).mqtt.enabled == incoming.mqtt.enabled,
        incoming.restored(stored).mqtt.ca_cert_pem == incoming.mqtt.ca_cert_pem,
        incoming.restored(stored).mqtt.client_cert_pem == incoming.mqtt.client_cert_pem,
        incoming.restored(stored).https.enabled == incoming.https.enabled,
        incoming.restored(stored).https.cert_pem == incoming.https.cert_pem,
        incoming.restored(stored).wireguard.enabled == incoming.wireguard.enabled,
        incoming.restored(stored).wireguard.address == incoming.wireguard.address,
        incoming.restored(stored).wireguard.peer_endpoint == incoming.wireguard.peer_endpoint,
        incoming.restored(stored).wireguard.peer_public_key == incoming.wireguard.peer_public_key,
        incoming.restored(stored).wireguard.peer_allowed_ips == incoming.wireguard.peer_allowed_ips,
        incoming.restored(stored).wireguard.keepalive_secs == incoming.wireguard.keepalive_secs,
        incoming.restored(stored).wifi.hostname == incoming.wifi.hostname,
        incoming.restored(stored).wifi.ap_ssid == incoming.wifi.ap_ssid,
        incoming.restored(stored).wifi.ap_password == incoming.wifi.ap_password,
        incoming.restored(stored).switches == incoming.switches,
        incoming.restored(stored).sensors == incoming.sensors,
        incoming.restored(stored).flow_alarm == incoming.flow_alarm,
        incoming.restored(stored).timezone == incoming.timezone,
        incoming.restored(stored).sntp_servers == incoming.sntp_servers,
        incoming.restored(stored).schedule == incoming.schedule,
        incoming.restored(stored).webhooks == incoming.webhooks,
{
}

/// The networks of an update stay in their order and keep their names. One
/// without a password gets that of the first stored network of its name, and
/// none where no stored network has its name.
pub proof fn networks_keep_their_passwords(incoming: ConfigView, stored: ConfigView, i: int, k: int)
    requires
        0 <= i < incoming.wifi.networks.len(),
    ensures
        ({
            let before = incoming.wifi.networks;
            let after = incoming.restored(stored).wifi.networks;
            let known = stored.wifi.networks;
            &&& after.len() == before.len()
            &&& after[i].ssid == before[i].ssid
            &&& before[i].password.len() > 0 ==> after[i].password == before[i].password
            &&& before[i].password.len() == 0 && 0 <= k < known.len() && known[k].ssid
                == before[i].ssid && (forall|j: int|
                0 <= j < k ==> (#[trigger] known[j]).ssid != before[i].ssid) ==> after[i].password
                == known[k].password
            &&& before[i].password.len() == 0 && (forall|j: int|
                0 <= j < known.len() ==> (#[trigger] known[j]).ssid != before[i].ssid)
                ==> after[i].password.len() == 0
        }),
{
    let ssid = incoming.wifi.networks[i].ssid;
    let known = stored.wifi.networks;
    first_named_is_first(known, ssid);
    let f = first_named(known, ssid);
    if 0 <= k < known.len() && known[k].ssid == ssid && (forall|j: int|
        0 <= j < k ==> (#[trigger] known[j]).ssid != ssid) {
        assert(f == k);
    }
}

/// At most four webhook targets are kept, the first ones; nothing else changes.
pub proof fn four_targets_are_kept(c: ConfigView)
    ensures
        c.capped().webhooks.len() == (if c.webhooks.len() <= 4 { c.webhooks.len() } else { 4 }),
        c.capped().webhooks.is_prefix_of(c.webhooks),
        c.capped().wifi == c.wifi,
        c.capped().mqtt == c.mqtt,
        c.capped().https == c.https,
        c.capped().wireguard == c.wireguard,
        c.capped().admin_token == c.admin_token,
        c.capped().switches == c.switches,
        c.capped().sensors == c.sensors,
        c.capped().flow_alarm == c.flow_alarm,
        c.capped().timezone == c.timezone,
        c.capped().sntp_servers == c.sntp_servers,
        c.capped().schedule == c.schedule,
{
    assert(c.webhooks.take(c.webhooks.len() as int) =~= c.webhooks);
}

/// A device as it comes: no network, no secret, nothing reachable from outside
/// but the web interface, no leak alarm, and sprinklers that turn themselves off
/// after seven and five minutes.
pub proof fn defaults_are_safe(wifi: WifiConfigView)
    ensures
        ({
            let c = config_defaults(wifi);
            &&& c.wifi == wifi
            &&& c.redacted().mqtt == c.mqtt
            &&& c.redacted().https == c.https
            &&& c.redacted().wireguard == c.wireguard
            &&& c.admin_token.len() == 0
            &&& !c.mqtt.enabled && c.mqtt.broker_url.len() == 0 && c.mqtt.username.len() == 0
            &&& c.mqtt.base_topic == "doremorwater"@
            &&& c.mqtt.ha_discovery_prefix == "homeassistant"@
            &&& c.https.enabled && c.https.cert_pem.len() == 0
            &&& !c.wireguard.enabled && c.wireguard.keepalive_secs == 25
            &&& c.switches.sprinkler_1_auto_off_secs == 7 * 60
            &&& c.switches.sprinkler_2_auto_off_secs == 5 * 60
            &&& 1_000 + 1_000 * c.switches.valve_timing.motor_run_secs + 1_000 == 16_000
            &&& c.switches.valve_timing.drain_secs == 5 * 60
            &&& !c.flow_alarm.enabled && c.flow_alarm.duration_secs == 60
            &&& c.timezone == "Europe/Madrid"@
            &&& c.sntp_servers.len() == 3
            &&& c.webhooks.len() == 0
            &&& c.capped() == c
        }),
        wifi_defaults(wifi.networks).networks == wifi.networks,
        wifi_defaults(wifi.networks).hostname == "doremorwater"@,
        wifi_defaults(wifi.networks).ap_password.len() == 0,
{
    let c = config_defaults(wifi);
    assert(c.redacted().mqtt =~= c.mqtt);
    assert(c.redacted().https =~= c.https);
    assert(c.redacted().wireguard =~= c.wireguard);
}

/// The numbers behind the default readings: an alarm at 100 litres per hour, a
/// battery line from 1130 at 5 volts to 2931 above 12 volts, and 4.5 volts for
/// 10 bar and more.
pub proof fn default_readings_have_their_values()
    ensures
        flow_alarm_defaults().threshold_lph.whole_value() == 100,
        sensors_defaults().battery[0].raw.whole_value() == 1130,
        sensors_defaults().battery[0].value.whole_value() == 5,
        sensors_defaults().battery[1].raw.whole_value() == 2931,
        sensors_defaults().battery[1].value.whole_value() == 12,
        sensors_defaults().pressure_stage1[1].raw.whole_value() == 2,
        sensors_defaults().pressure_stage1[1].value.whole_value() == 3,
        sensors_defaults().pressure_stage2[0].value.whole_value() == 0,
        sensors_defaults().pressure_stage2[1].raw.whole_value() == 4,
        sensors_defaults().pressure_stage2[1].value.whole_value() == 10,
        sensors_defaults().pressure_stage2[0].raw == sensors_defaults().pressure_stage1[0].value,
{
    vstd::arithmetic::power2::lemma2_to64();
    assert(13_107_200int / 131_072 == 100);
    whole_part_of(flow_alarm_defaults().threshold_lph, 133, 13107200, 131072, 100);
    whole_part_of(sensors_defaults().battery[0].raw, 137, 9256960, 8192, 1130);
    whole_part_of(sensors_defaults().battery[0].value, 129, 10485760, 2097152, 5);
    whole_part_of(sensors_defaults().battery[1].raw, 138, 12005376, 4096, 2931);
    whole_part_of(sensors_defaults().battery[1].value, 130, 12792627, 1048576, 12);
    whole_part_of(sensors_defaults().pressure_stage1[1].raw, 128, 10989076, 4194304, 2);
    whole_part_of(sensors_defaults().pressure_stage1[1].value, 128, 16693330, 4194304, 3);
    whole_part_of(sensors_defaults().pressure_stage2[1].raw, 129, 9437184, 2097152, 4);
    whole_part_of(sensors_defaults().pressure_stage2[1].value, 130, 10844520, 1048576, 10);
}

proof fn whole_part_of(r: Reading, exponent: int, significand: int, unit: int, whole: int)
    requires
        r.bits < 0x7f80_0000,
        127 <= exponent <= 150,
        r.bits == exponent * 0x80_0000 + (significand - 0x80_0000),
        0x80_0000 <= significand < 0x100_0000,
        unit == vstd::arithmetic::power2::pow2((150 - exponent) as nat),
        unit > 0,
        whole == significand / unit,
    ensures
        r.whole_value() == whole,
{
    assert(r.exponent() == exponent && r.significand() == significand);
}

/// The configuration and the position of the valve are stored under keys of
/// their own.
pub proof fn keys_are_their_own()
    ensures
        NVS_KEY@ == "wc.cfg"@,
        crate::app::NVS_VALVE_STATE@ == "wc.valve"@,
        crate::boot::BOOT_MODE_KEY@ == "wc.bootmode"@,
        NVS_KEY@ != crate::app::NVS_VALVE_STATE@,
        NVS_KEY@ != crate::boot::BOOT_MODE_KEY@,
        crate::app::NVS_VALVE_STATE@ != crate::boot::BOOT_MODE_KEY@,
{
    reveal_strlit("wc.cfg");
    reveal_strlit("wc.valve");
    reveal_strlit("wc.bootmode");
    assert("wc.cfg"@.len() == 6 && "wc.valve"@.len() == 8 && "wc.bootmode"@.len() == 11);
}

/// An error of the store and one of the parser are told apart by their first
/// words.
pub proof fn errors_say_where_they_come_from(e: NvsError, m: String)
    ensures
        ConfigError::Nvs(e).text() == "nvs error: "@ + e.text(),
        ConfigError::Json(m).text() == "json error: "@ + m@,
        stored_as(Err(e)) == Err::<(), ConfigError>(ConfigError::Nvs(e)),
        stored_as(Ok(())) == Ok::<(), ConfigError>(()),
{
}

} // verus!
