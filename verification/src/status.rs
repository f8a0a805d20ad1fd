//! What a periodic report puts into the published state.

use vstd::prelude::*;
use crate::state::{DeviceSnapshot, Diagnostics, Network};
use crate::text;
use crate::traits::WifiState;

verus! {

/// The state after a report of the device with an operating system. The
/// firmware version and the reason of the last reset are noted once.
pub open spec fn is_refreshed(
    before: DeviceSnapshot,
    after: DeviceSnapshot,
    uptime_ms: u64,
    free_heap: u32,
    min_free_heap: u32,
    reset_reason: Seq<char>,
    version: Seq<char>,
) -> bool {
    &&& after.uptime_ms == uptime_ms
    &&& after.firmware_version@ == (if before.firmware_version@.len() == 0 {
        version
    } else {
        before.firmware_version@
    })
    &&& after.diagnostics.free_heap_bytes == Some(free_heap)
    &&& after.diagnostics.min_free_heap_bytes == Some(min_free_heap)
    &&& match before.diagnostics.reset_reason {
        Some(r) => after.diagnostics.reset_reason == Some(r),
        None => after.diagnostics.reset_reason is Some && after.diagnostics.reset_reason->0@
            == reset_reason,
    }
    &&& after.sensors == before.sensors
    &&& after.switches == before.switches
    &&& after.network == before.network
    &&& after.alarm == before.alarm
}

pub fn refresh(
    s: &mut DeviceSnapshot,
    uptime_ms: u64,
    free_heap: u32,
    min_free_heap: u32,
    reset_reason: &str,
    version: &str,
)
    ensures
        is_refreshed(
            *old(s),
            *final(s),
            uptime_ms,
            free_heap,
            min_free_heap,
            reset_reason@,
            version@,
        ),
{
    s.uptime_ms = uptime_ms;
    if s.firmware_version.as_str().is_empty() {
        s.firmware_version = version.to_owned();
    }
    s.diagnostics.free_heap_bytes = Some(free_heap);
    s.diagnostics.min_free_heap_bytes = Some(min_free_heap);
    if s.diagnostics.reset_reason.is_none() {
        s.diagnostics.reset_reason = Some(reset_reason.to_owned());
    }
}

/// The log line that goes with such a report.
pub fn alive_line(uptime_ms: u64, free_heap: u32, min_free_heap: u32) -> (line: String)
    ensures
        line@ == "alive (uptime "@ + text::decimal((uptime_ms / 1000) as nat) + "s, heap free "@
            + text::decimal(free_heap as nat) + "B, min "@ + text::decimal(min_free_heap as nat)
            + "B)"@,
{
    let mut line = text::join("alive (uptime ", text::decimal_u64(uptime_ms / 1000).as_str());
    line.append("s, heap free ");
    line.append(text::decimal_u64(free_heap as u64).as_str());
    line.append("B, min ");
    line.append(text::decimal_u64(min_free_heap as u64).as_str());
    line.append("B)");
    line
}

/// The link as a report shows it. Without an address there is none; without
/// the name of a network the configured one is shown.
pub open spec fn link_of(
    address: Option<Seq<char>>,
    joined: Seq<char>,
    configured: Seq<char>,
) -> Option<(Seq<char>, Seq<char>)> {
    match address {
        Some(ip) => Some((if joined.len() == 0 {
            configured
        } else {
            joined
        }, ip)),
        None => None,
    }
}

pub fn link_state(address: Option<&str>, joined: &str, configured: &str) -> (state: WifiState)
    ensures
        match link_of(
            match address {
                Some(a) => Some(a@),
                None => None,
            },
            joined@,
            configured@,
        ) {
            Some((name, address)) => state matches WifiState::Connected { ssid, ip } && ssid@
                == name && ip@ == address,
            None => state is Disconnected,
        },
{
    match address {
        Some(a) => {
            let ssid = if joined.is_empty() {
                configured.to_owned()
            } else {
                joined.to_owned()
            };
            WifiState::Connected { ssid, ip: a.to_owned() }
        },
        None => WifiState::Disconnected,
    }
}

/// One report of the device without an operating system.
pub struct Beat {
    /// Seconds since the start.
    pub secs: u64,
    pub free: usize,
    /// The least free memory so far.
    pub min_free: usize,
    pub reset_reason: String,
    pub wifi: WifiState,
    /// Strength of the signal; zero stands for unknown.
    pub rssi: i32,
    pub mqtt_up: bool,
}

pub open spec fn known_rssi(rssi: i32) -> Option<i8> {
    if rssi == 0 {
        None
    } else {
        Some(rssi as i8)
    }
}

/// The state after such a report.
pub open spec fn is_beaten(before: DeviceSnapshot, after: DeviceSnapshot, beat: Beat) -> bool {
    &&& after.uptime_ms == beat.secs * 1000
    &&& after.firmware_version@ == "wc-nostd"@
    &&& after.diagnostics.free_heap_bytes == Some(beat.free as u32)
    &&& after.diagnostics.min_free_heap_bytes == Some(beat.min_free as u32)
    &&& after.diagnostics.reset_reason is Some
    &&& after.diagnostics.reset_reason->0@ == beat.reset_reason@
    &&& after.network == (Network {
        wifi: Some(beat.wifi),
        mqtt_connected: beat.mqtt_up,
        wifi_rssi_dbm: known_rssi(beat.rssi),
    })
    &&& after.sensors == before.sensors
    &&& after.switches == before.switches
    &&& after.alarm == before.alarm
}

pub fn heartbeat(s: &mut DeviceSnapshot, beat: Beat)
    requires
        beat.secs * 1000 <= u64::MAX,
    ensures
        is_beaten(*old(s), *final(s), beat),
{
    s.uptime_ms = beat.secs * 1000;
    s.firmware_version = "wc-nostd".to_owned();
    s.diagnostics = Diagnostics {
        free_heap_bytes: Some(
            #[verifier::truncate]
            (beat.free as u32),
        ),
        min_free_heap_bytes: Some(
            #[verifier::truncate]
            (beat.min_free as u32),
        ),
        reset_reason: Some(beat.reset_reason),
    };
    let rssi: Option<i8> = if beat.rssi == 0 {
        None
    } else {
        Some(
            #[verifier::truncate]
            (beat.rssi as i8),
        )
    };
    s.network = Network { wifi: Some(beat.wifi), mqtt_connected: beat.mqtt_up, wifi_rssi_dbm: rssi };
}

/// The least free memory after one more sample.
pub fn lower_mark(min_free: usize, free: usize) -> (r: usize)
    ensures
        r <= min_free,
        r <= free,
        r == min_free || r == free,
{
    if free < min_free {
        free
    } else {
        min_free
    }
}

/// The log line that goes with a report; the address may be missing.
pub fn beat_line(secs: u64, free: usize, used: usize, address: Option<&str>) -> (line: String)
    ensures
        line@ == "alive uptime="@ + text::decimal(secs as nat) + "s heap_free="@ + text::decimal(
            free as nat,
        ) + " heap_used="@ + text::decimal(used as nat) + " ip="@ + (match address {
            Some(a) => a@,
            None => "<none>"@,
        }),
{
    let mut line = text::join("alive uptime=", text::decimal_u64(secs).as_str());
    line.append("s heap_free=");
    line.append(text::decimal_u64(free as u64).as_str());
    line.append(" heap_used=");
    line.append(text::decimal_u64(used as u64).as_str());
    line.append(" ip=");
    match address {
        Some(a) => {
            line.append(a);
        },
        None => {
            line.append("<none>");
        },
    }
    line
}

/// What the program on a workstation shows: its version and a link, each put
/// in where there is none yet.
pub fn refresh_workstation(s: &mut DeviceSnapshot, uptime_ms: u64, version: &str)
    ensures
        final(s).uptime_ms == uptime_ms,
        final(s).firmware_version@ == (if old(s).firmware_version@.len() == 0 {
            version@
        } else {
            old(s).firmware_version@
        }),
        match old(s).network.wifi {
            Some(w) => final(s).network.wifi == Some(w),
            None => final(s).network.wifi matches Some(WifiState::Connected { ssid, ip }) && ssid@
                == "host-dev"@ && ip@ == "127.0.0.1"@,
        },
        final(s).network.mqtt_connected == old(s).network.mqtt_connected,
        final(s).network.wifi_rssi_dbm == old(s).network.wifi_rssi_dbm,
        final(s).diagnostics == old(s).diagnostics,
        final(s).sensors == old(s).sensors,
        final(s).switches == old(s).switches,
        final(s).alarm == old(s).alarm,
{
    s.uptime_ms = uptime_ms;
    if s.firmware_version.as_str().is_empty() {
        s.firmware_version = version.to_owned();
    }
    if s.network.wifi.is_none() {
        s.network.wifi = Some(
            WifiState::Connected { ssid: "host-dev".to_owned(), ip: "127.0.0.1".to_owned() },
        );
    }
}

/// Reports after the first one keep the version and the reason that it noted.
pub proof fn first_report_stands(
    first: DeviceSnapshot,
    second: DeviceSnapshot,
    third: DeviceSnapshot,
    uptime: u64,
    later: u64,
    free: u32,
    min_free: u32,
    reason: Seq<char>,
    other_reason: Seq<char>,
    version: Seq<char>,
    other_version: Seq<char>,
)
    requires
        version.len() > 0,
        is_refreshed(first, second, uptime, free, min_free, reason, version),
        is_refreshed(second, third, later, free, min_free, other_reason, other_version),
    ensures
        third.firmware_version@ == second.firmware_version@,
        third.diagnostics.reset_reason == second.diagnostics.reset_reason,
{
}

/// A report shows what it was given, each value in its own place, and leaves
/// measurements, switches, link and alarm alone.
pub proof fn reports_show_what_they_were_given(
    before: DeviceSnapshot,
    after: DeviceSnapshot,
    uptime_ms: u64,
    free_heap: u32,
    min_free_heap: u32,
    reset_reason: Seq<char>,
    version: Seq<char>,
)
    requires
        is_refreshed(before, after, uptime_ms, free_heap, min_free_heap, reset_reason, version),
    ensures
        after.uptime_ms == uptime_ms,
        after.diagnostics.free_heap_bytes == Some(free_heap),
        after.diagnostics.min_free_heap_bytes == Some(min_free_heap),
        before.firmware_version@.len() == 0 ==> after.firmware_version@ == version,
        before.firmware_version@.len() > 0 ==> after.firmware_version@ == before.firmware_version@,
        before.diagnostics.reset_reason is None ==> after.diagnostics.reset_reason is Some
            && after.diagnostics.reset_reason->0@ == reset_reason,
        before.diagnostics.reset_reason is Some ==> after.diagnostics.reset_reason
            == before.diagnostics.reset_reason,
        after.sensors == before.sensors && after.switches == before.switches,
        after.network == before.network && after.alarm == before.alarm,
{
}

/// A beat shows the seconds as milliseconds, the memory, the link and its
/// strength, where zero is none, and leaves measurements, switches and alarm
/// alone.
pub proof fn beats_show_what_they_were_given(
    before: DeviceSnapshot,
    after: DeviceSnapshot,
    beat: Beat,
)
    requires
        is_beaten(before, after, beat),
    ensures
        after.uptime_ms == 1_000 * beat.secs,
        after.firmware_version@ == "wc-nostd"@,
        beat.free <= u32::MAX ==> after.diagnostics.free_heap_bytes is Some
            && after.diagnostics.free_heap_bytes->0 == beat.free,
        beat.min_free <= u32::MAX ==> after.diagnostics.min_free_heap_bytes is Some
            && after.diagnostics.min_free_heap_bytes->0 == beat.min_free,
        after.diagnostics.reset_reason is Some && after.diagnostics.reset_reason->0@
            == beat.reset_reason@,
        after.network.wifi == Some(beat.wifi),
        after.network.mqtt_connected == beat.mqtt_up,
        beat.rssi == 0 ==> after.network.wifi_rssi_dbm is None,
        beat.rssi != 0 && -128 <= beat.rssi <= 127 ==> after.network.wifi_rssi_dbm is Some
            && after.network.wifi_rssi_dbm->0 == beat.rssi,
        after.sensors == before.sensors && after.switches == before.switches,
        after.alarm == before.alarm,
{
}

/// A link is shown exactly where there is an address, with it, under the name
/// that was joined, else under the configured one.
pub proof fn links_are_shown_with_their_address(
    ip: Seq<char>,
    joined: Seq<char>,
    configured: Seq<char>,
)
    ensures
        link_of(None, joined, configured) is None,
        joined.len() > 0 ==> link_of(Some(ip), joined, configured) == Some((joined, ip)),
        joined.len() == 0 ==> link_of(Some(ip), joined, configured) == Some((configured, ip)),
{
}

} // verus!
