//! The state of the device as every reader sees it.

use vstd::prelude::*;
use crate::reading::Reading;
use crate::traits::WifiState;
use crate::water_valve::WaterState;

verus! {

/// Latest measurements; none before the first one.
#[derive(Debug, Clone, Copy, PartialEq, Eq, Structural)]
pub struct Sensors {
    pub battery_v: Option<Reading>,
    pub pressure_bar: Option<Reading>,
    pub flow_lph: Option<Reading>,
    pub total_l: Option<Reading>,
    pub loop_time_ms: Option<u32>,
}

impl Default for Sensors {
    fn default() -> (s: Self)
        ensures
            s == (Sensors {
                battery_v: None,
                pressure_bar: None,
                flow_lph: None,
                total_l: None,
                loop_time_ms: None,
            }),
    {
        Sensors {
            battery_v: None,
            pressure_bar: None,
            flow_lph: None,
            total_l: None,
            loop_time_ms: None,
        }
    }
}

#[derive(Debug, Clone, Copy, PartialEq, Eq, Structural)]
pub enum WaterControlState {
    Off,
    On,
    /// In the middle of a sequence; a new command would be refused.
    Transitioning,
}

impl Default for WaterControlState {
    fn default() -> (s: Self)
        ensures
            s == WaterControlState::Off,
    {
        WaterControlState::Off
    }
}

/// The three-way state that goes with a state of the valve.
pub open spec fn control_state(s: WaterState) -> WaterControlState {
    match s {
        WaterState::Off => WaterControlState::Off,
        WaterState::On => WaterControlState::On,
        WaterState::TurningOn | WaterState::TurningOff => WaterControlState::Transitioning,
    }
}

impl From<WaterState> for WaterControlState {
    fn from(s: WaterState) -> (r: Self) {
        match s {
            WaterState::Off => WaterControlState::Off,
            WaterState::On => WaterControlState::On,
            WaterState::TurningOn | WaterState::TurningOff => WaterControlState::Transitioning,
        }
    }
}

impl vstd::std_specs::convert::FromSpecImpl<WaterState> for WaterControlState {
    open spec fn obeys_from_spec() -> bool {
        true
    }

    open spec fn from_spec(s: WaterState) -> Self {
        control_state(s)
    }
}

#[derive(Debug, Clone, Copy, PartialEq, Eq, Structural)]
pub struct Switches {
    pub sprinkler_1: bool,
    pub sprinkler_2: bool,
    pub water_control: WaterControlState,
}

impl Default for Switches {
    fn default() -> (s: Self)
        ensures
            s == (Switches {
                sprinkler_1: false,
                sprinkler_2: false,
                water_control: WaterControlState::Off,
            }),
    {
        Switches {
            sprinkler_1: false,
            sprinkler_2: false,
            water_control: WaterControlState::Off,
        }
    }
}

#[derive(Debug, PartialEq, Eq)]
pub struct Network {
    pub wifi: Option<WifiState>,
    pub mqtt_connected: bool,
    pub wifi_rssi_dbm: Option<i8>,
}

impl Clone for Network {
    fn clone(&self) -> (n: Self)
        ensures
            n == *self,
    {
        let wifi = match &self.wifi {
            Some(w) => Some(w.clone()),
            None => None,
        };
        Network { wifi, mqtt_connected: self.mqtt_connected, wifi_rssi_dbm: self.wifi_rssi_dbm }
    }
}

impl Default for Network {
    fn default() -> (n: Self)
        ensures
            n == (Network { wifi: None, mqtt_connected: false, wifi_rssi_dbm: None }),
    {
        Network { wifi: None, mqtt_connected: false, wifi_rssi_dbm: None }
    }
}

#[derive(Debug, PartialEq, Eq)]
pub struct Diagnostics {
    pub free_heap_bytes: Option<u32>,
    pub min_free_heap_bytes: Option<u32>,
    pub reset_reason: Option<String>,
}

impl Clone for Diagnostics {
    fn clone(&self) -> (d: Self)
        ensures
            d == *self,
    {
        let reset_reason = match &self.reset_reason {
            Some(r) => Some(r.clone()),
            None => None,
        };
        Diagnostics {
            free_heap_bytes: self.free_heap_bytes,
            min_free_heap_bytes: self.min_free_heap_bytes,
            reset_reason,
        }
    }
}

impl Default for Diagnostics {
    fn default() -> (d: Self)
        ensures
            d == (Diagnostics {
                free_heap_bytes: None,
                min_free_heap_bytes: None,
                reset_reason: None,
            }),
    {
        Diagnostics { free_heap_bytes: None, min_free_heap_bytes: None, reset_reason: None }
    }
}

/// The latched flow alarm. The seconds count the current stretch of high flow;
/// the flag stays until it is cleared.
#[derive(Debug, Clone, Copy, PartialEq, Eq, Structural)]
pub struct FlowAlarm {
    pub active: bool,
    pub elapsed_secs: u32,
}

impl Default for FlowAlarm {
    fn default() -> (a: Self)
        ensures
            a == (FlowAlarm { active: false, elapsed_secs: 0 }),
    {
        FlowAlarm { active: false, elapsed_secs: 0 }
    }
}

/// One past alarm.
#[derive(Debug, Clone, Copy, PartialEq, Eq, Structural)]
pub struct AlarmEvent {
    /// Wall-clock seconds, or zero where the clock was not set.
    pub epoch_secs: u64,
    /// Uptime, which orders alarms where the clock was not set.
    pub uptime_ms: u64,
    pub flow_lph: Reading,
    pub duration_secs: u32,
}

#[derive(Debug, PartialEq, Eq)]
pub struct DeviceSnapshot {
    pub sensors: Sensors,
    pub switches: Switches,
    pub network: Network,
    pub diagnostics: Diagnostics,
    pub alarm: FlowAlarm,
    pub uptime_ms: u64,
    pub firmware_version: String,
}

impl DeviceSnapshot {
    /// The state before anything was measured or switched.
    pub open spec fn is_fresh(self) -> bool {
        &&& self.sensors == (Sensors {
            battery_v: None,
            pressure_bar: None,
            flow_lph: None,
            total_l: None,
            loop_time_ms: None,
        })
        &&& self.switches == (Switches {
            sprinkler_1: false,
            sprinkler_2: false,
            water_control: WaterControlState::Off,
        })
        &&& self.network == (Network { wifi: None, mqtt_connected: false, wifi_rssi_dbm: None })
        &&& self.diagnostics == (Diagnostics {
            free_heap_bytes: None,
            min_free_heap_bytes: None,
            reset_reason: None,
        })
        &&& self.alarm == (FlowAlarm { active: false, elapsed_secs: 0 })
        &&& self.uptime_ms == 0
        &&& self.firmware_version@.len() == 0
    }
}

impl Clone for DeviceSnapshot {
    fn clone(&self) -> (s: Self)
        ensures
            s == *self,
    {
        DeviceSnapshot {
            sensors: self.sensors,
            switches: self.switches,
            network: self.network.clone(),
            diagnostics: self.diagnostics.clone(),
            alarm: self.alarm,
            uptime_ms: self.uptime_ms,
            firmware_version: self.firmware_version.clone(),
        }
    }
}

impl Default for DeviceSnapshot {
    fn default() -> (s: Self)
        ensures
            s.is_fresh(),
    {
        DeviceSnapshot {
            sensors: Sensors::default(),
            switches: Switches::default(),
            network: Network::default(),
            diagnostics: Diagnostics::default(),
            alarm: FlowAlarm::default(),
            uptime_ms: 0,
            firmware_version: String::new(),
        }
    }
}

/// The current state, with copies for readers and access for writers.
pub struct DeviceState {
    inner: DeviceSnapshot,
}

impl View for DeviceState {
    type V = DeviceSnapshot;

    closed spec fn view(&self) -> DeviceSnapshot {
        self.inner
    }
}

impl Default for DeviceState {
    fn default() -> (s: Self)
        ensures
            s@.is_fresh(),
    {
        DeviceState::new()
    }
}

impl DeviceState {
    pub fn new() -> (s: Self)
        ensures
            s@.is_fresh(),
    {
        DeviceState { inner: DeviceSnapshot::default() }
    }

    pub fn snapshot(&self) -> (s: DeviceSnapshot)
        ensures
            s == self@,
    {
        self.inner.clone()
    }

    /// The state itself, to be written to.
    pub fn update(&mut self) -> (s: &mut DeviceSnapshot)
        ensures
            *s == old(self)@,
            final(self)@ == *final(s),
    {
        &mut self.inner
    }
}

/// The water control shows the valve: on and off where it rests, in transition
/// while it turns either way.
pub proof fn water_control_shows_the_valve(s: WaterState)
    ensures
        control_state(s) == WaterControlState::On <==> s == WaterState::On,
        control_state(s) == WaterControlState::Off <==> s == WaterState::Off,
        control_state(s) == WaterControlState::Transitioning <==> s == WaterState::TurningOn || s
            == WaterState::TurningOff,
{
}

/// A fresh state shows nothing measured, nothing on, no link and no alarm.
pub proof fn fresh_states_show_nothing(s: DeviceSnapshot)
    requires
        s.is_fresh(),
    ensures
        s.sensors.battery_v is None && s.sensors.pressure_bar is None,
        s.sensors.flow_lph is None && s.sensors.total_l is None && s.sensors.loop_time_ms is None,
        !s.switches.sprinkler_1 && !s.switches.sprinkler_2,
        s.switches.water_control == WaterControlState::Off,
        s.network.wifi is None && !s.network.mqtt_connected && s.network.wifi_rssi_dbm is None,
        s.diagnostics.free_heap_bytes is None && s.diagnostics.min_free_heap_bytes is None,
        s.diagnostics.reset_reason is None,
        !s.alarm.active && s.alarm.elapsed_secs == 0,
        s.uptime_ms == 0 && s.firmware_version@.len() == 0,
{
}

} // verus!
