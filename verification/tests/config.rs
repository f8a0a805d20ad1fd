use watercontroller::config::Config;
use watercontroller::traits::{NvsError, NvsStore, WifiCreds};

fn cfg_with_secrets() -> Config {
    let mut c = Config::default();
    c.wifi.networks = vec![
        WifiCreds { ssid: "home".into(), password: "wifi-secret".into() },
        WifiCreds { ssid: "guest".into(), password: "guest-secret".into() },
    ];
    c.mqtt.password = "mqtt-secret".into();
    c.mqtt.client_key_pem = "-----BEGIN MQTT KEY-----".into();
    c.https.key_pem = "-----BEGIN HTTPS KEY-----".into();
    c.wireguard.private_key = "wg-private".into();
    c.wireguard.peer_preshared_key = "wg-psk".into();
    c.admin_token = "admin-bearer".into();
    c
}

#[test]
fn redact_blanks_every_secret() {
    let r = cfg_with_secrets().redact_secrets_for_api();
    assert!(r.wifi.networks.iter().all(|n| n.password.is_empty()));
    assert_eq!(r.mqtt.password, "");
    assert_eq!(r.mqtt.client_key_pem, "");
    assert_eq!(r.https.key_pem, "");
    assert_eq!(r.wireguard.private_key, "");
    assert_eq!(r.wireguard.peer_preshared_key, "");
    assert_eq!(r.admin_token, "");
}

#[test]
fn redact_keeps_public_certs_and_ssids() {
    let mut c = cfg_with_secrets();
    c.https.cert_pem = "-----BEGIN HTTPS CERT-----".into();
    c.mqtt.ca_cert_pem = "-----BEGIN CA-----".into();
    c.wireguard.peer_public_key = "wg-pub".into();
    let r = c.redact_secrets_for_api();
    assert_eq!(r.wifi.networks[0].ssid, "home");
    assert_eq!(r.https.cert_pem, "-----BEGIN HTTPS CERT-----");
    assert_eq!(r.mqtt.ca_cert_pem, "-----BEGIN CA-----");
    assert_eq!(r.wireguard.peer_public_key, "wg-pub");
}

#[test]
fn merge_preserves_empty_secrets_from_redacted_round_trip() {
    let mut stored = cfg_with_secrets();
    // Simulate: SPA fetched redacted view, user changed one non-secret
    // field, posted back. All secrets in incoming are empty.
    let mut incoming = stored.redact_secrets_for_api();
    incoming.timezone = "UTC".into();
    stored.merge_preserving_secrets(incoming);
    assert_eq!(stored.timezone, "UTC");
    assert_eq!(stored.https.key_pem, "-----BEGIN HTTPS KEY-----");
    assert_eq!(stored.mqtt.password, "mqtt-secret");
    assert_eq!(stored.admin_token, "admin-bearer");
    assert_eq!(stored.wifi.networks[0].password, "wifi-secret");
    assert_eq!(stored.wifi.networks[1].password, "guest-secret");
}

#[test]
fn merge_overwrites_when_incoming_provides_new_secret() {
    let mut stored = cfg_with_secrets();
    let mut incoming = stored.redact_secrets_for_api();
    incoming.https.key_pem = "-----BEGIN NEW HTTPS KEY-----".into();
    incoming.admin_token = "rotated".into();
    stored.merge_preserving_secrets(incoming);
    assert_eq!(stored.https.key_pem, "-----BEGIN NEW HTTPS KEY-----");
    assert_eq!(stored.admin_token, "rotated");
    // Untouched secrets still preserved.
    assert_eq!(stored.mqtt.password, "mqtt-secret");
}

#[test]
fn merge_wifi_password_match_by_ssid() {
    let mut stored = cfg_with_secrets();
    // User reordered networks and added a new open one.
    let mut incoming = stored.redact_secrets_for_api();
    incoming.wifi.networks = vec![
        WifiCreds { ssid: "guest".into(), password: "".into() },
        WifiCreds { ssid: "home".into(), password: "".into() },
        WifiCreds { ssid: "openCafe".into(), password: "".into() }, // new
    ];
    stored.merge_preserving_secrets(incoming);
    assert_eq!(stored.wifi.networks[0].password, "guest-secret");
    assert_eq!(stored.wifi.networks[1].password, "wifi-secret");
    assert_eq!(stored.wifi.networks[2].password, ""); // new + open, kept empty
}

struct MemNvs(std::sync::Mutex<std::collections::HashMap<String, Vec<u8>>>);

impl NvsStore for MemNvs {
    fn get(&self, key: &str) -> Option<Vec<u8>> {
        self.0.lock().unwrap().get(key).cloned()
    }
    fn set(&self, key: &str, value: &[u8]) -> Result<(), NvsError> {
        if value.len() > 100 {
            return Err(NvsError::Full);
        }
        self.0.lock().unwrap().insert(key.into(), value.to_vec());
        Ok(())
    }
    fn remove(&self, key: &str) -> Result<(), NvsError> {
        self.0.lock().unwrap().remove(key);
        Ok(())
    }
}

#[test]
fn missing_nvs_returns_defaults() {
    let cfg = Config::load(None).unwrap();
    assert_eq!(cfg, Config::default());
}

#[test]
fn unreadable_nvs_is_an_error() {
    let e = Config::load(Some(Err("expected value".into()))).unwrap_err();
    assert!(e.to_text().contains("expected value"));
}

#[test]
fn saving_and_resetting_go_to_the_store() {
    let nvs = MemNvs(Default::default());
    assert!(Config::save(Ok(b"{}".to_vec()), &nvs).is_ok());
    assert_eq!(nvs.get(watercontroller::config::NVS_KEY), Some(b"{}".to_vec()));
    assert!(Config::save(Err("boom".into()), &nvs).is_err());
    assert_eq!(nvs.get(watercontroller::config::NVS_KEY), Some(b"{}".to_vec()));
    assert!(Config::save(Ok(vec![0; 200]), &nvs).is_err());
    assert!(Config::factory_reset(&nvs).is_ok());
    assert_eq!(nvs.get(watercontroller::config::NVS_KEY), None);
}

#[test]
fn default_readings_are_the_numbers_meant() {
    let s = watercontroller::config::SensorsConfig::default();
    let raw: Vec<f32> = s.battery.points.iter().map(|p| f32::from_bits(p.raw.bits)).collect();
    let volts: Vec<f32> = s.battery.points.iter().map(|p| f32::from_bits(p.value.bits)).collect();
    assert_eq!(raw, vec![1130.0, 2931.0]);
    assert_eq!(volts, vec![5.0, 12.2]);
    let stage = |c: &watercontroller::calibration::Calibration| -> Vec<(f32, f32)> {
        c.points.iter().map(|p| (f32::from_bits(p.raw.bits), f32::from_bits(p.value.bits))).collect()
    };
    assert_eq!(stage(&s.pressure_stage1), vec![(0.37, 0.54), (2.62, 3.98)]);
    assert_eq!(stage(&s.pressure_stage2), vec![(0.54, 0.0), (4.50, 10.34214)]);
    assert_eq!(f32::from_bits(s.flow_l_per_pulse.bits), 1.0 / 516.5);
    let a = watercontroller::config::FlowAlarmConfig::default();
    assert_eq!(f32::from_bits(a.threshold_lph.bits), 100.0);
    assert_eq!(a.duration_secs, 60);
}
