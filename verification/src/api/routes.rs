//! Paths of the HTTP interface.

use vstd::prelude::*;

verus! {

pub const STATUS: &'static str = "/api/status";

pub const CONFIG: &'static str = "/api/config";

pub const SWITCH: &'static str = "/api/switch";

pub const LOGS_WS: &'static str = "/ws/logs";

pub const OTA_UPLOAD: &'static str = "/api/ota";

/// Erases the stored configuration and reboots.
pub const FACTORY_RESET: &'static str = "/api/factory_reset";

/// Looks for networks and lists them.
pub const WIFI_SCAN: &'static str = "/api/wifi/scan";

/// Clears the latched flow alarm.
pub const ALARM_CLEAR: &'static str = "/api/alarm/clear";

/// Lists past flow alarms, oldest first.
pub const ALARM_HISTORY: &'static str = "/api/alarm/history";

/// Emits an event, to try the webhooks out.
pub const WEBHOOKS_TEST: &'static str = "/api/webhooks/test";

} // verus!
