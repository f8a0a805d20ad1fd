//! The one exchange with a time server that sets the wall clock.

use vstd::prelude::*;
use crate::wire;

verus! {

/// Seconds from 1900, where the time servers count from, to 1970.
pub const NTP_UNIX_OFFSET: u32 = 2_208_988_800;

/// 1 January 2025. An earlier time in a reply is not believed.
pub const SANITY_MIN: u64 = 1_735_689_600;

/// Seconds to the next exchange after one that worked.
pub const RESYNC_SECS: u64 = 21_600;

/// Seconds to the next exchange after one that did not.
pub const RETRY_SECS: u64 = 30;

/// Time of day to start from before the first exchange: 15 May 2026.
pub const BASE_EPOCH_S: i64 = 1_778_803_200;

/// A request: version 4, client mode, and nothing else.
pub fn request_packet() -> (p: [u8; 48])
    ensures
        p@ == seq![0x23u8] + Seq::new(47, |i: int| 0u8),
{
    let mut p: [u8; 48] = [0u8; 48];
    p[0] = 0x23;
    assert(p@ =~= seq![0x23u8] + Seq::new(47, |i: int| 0u8));
    p
}

/// Why a reply is not believed.
#[derive(Debug, Clone, Copy, PartialEq, Eq, Structural)]
pub enum SyncError {
    Short,
    Pre1970,
    Insane,
}

impl SyncError {
    pub fn as_str(&self) -> (s: &'static str)
        ensures
            s@ == (match *self {
                SyncError::Short => "short"@,
                SyncError::Pre1970 => "pre-1970"@,
                SyncError::Insane => "insane"@,
            }),
    {
        match self {
            SyncError::Short => "short",
            SyncError::Pre1970 => "pre-1970",
            SyncError::Insane => "insane",
        }
    }
}

/// The transmit time of a reply, in seconds since 1970.
pub open spec fn reply_time(reply: Seq<u8>) -> int {
    wire::be32(reply[40], reply[41], reply[42], reply[43]) - NTP_UNIX_OFFSET
}

/// Takes the time out of a reply.
pub fn parse_reply(reply: &[u8]) -> (r: Result<u64, SyncError>)
    ensures
        r == (if reply@.len() < 48 {
            Err::<u64, SyncError>(SyncError::Short)
        } else if reply_time(reply@) < 0 {
            Err(SyncError::Pre1970)
        } else if reply_time(reply@) < SANITY_MIN {
            Err(SyncError::Insane)
        } else {
            Ok(reply_time(reply@) as u64)
        }),
        r is Ok ==> r->Ok_0 >= 1_735_689_600,
        r is Ok ==> r->Ok_0 + 2_208_988_800 == 16_777_216 * reply@[40] + 65_536 * reply@[41] + 256
            * reply@[42] + reply@[43],
{
    if reply.len() < 48 {
        return Err(SyncError::Short);
    }
    let secs: u32 = wire::read_be32(reply[40], reply[41], reply[42], reply[43]);
    if secs < NTP_UNIX_OFFSET {
        return Err(SyncError::Pre1970);
    }
    let unix: u64 = (secs - NTP_UNIX_OFFSET) as u64;
    if unix < SANITY_MIN {
        return Err(SyncError::Insane);
    }
    Ok(unix)
}

/// The wall-clock time at which the device started.
pub open spec fn boot_epoch(unix_now: u64, uptime_secs: u64) -> int {
    unix_now - uptime_secs
}

pub fn epoch_at_boot(unix_now: u64, uptime_secs: u64) -> (t: i64)
    requires
        unix_now <= i64::MAX,
        uptime_secs <= i64::MAX,
    ensures
        t == boot_epoch(unix_now, uptime_secs),
{
    unix_now as i64 - uptime_secs as i64
}

/// The wall-clock time now. Before the first exchange, when `at_boot` is zero,
/// time is counted from the built-in start.
pub open spec fn time_now(at_boot: int, uptime_secs: u64) -> int {
    (if at_boot != 0 {
        at_boot
    } else {
        BASE_EPOCH_S as int
    }) + uptime_secs
}

pub fn wall_clock(at_boot: i64, uptime_secs: u64) -> (t: i64)
    requires
        uptime_secs <= i64::MAX,
        time_now(at_boot as int, uptime_secs) <= i64::MAX,
    ensures
        t == time_now(at_boot as int, uptime_secs),
{
    let base: i64 = if at_boot != 0 { at_boot } else { BASE_EPOCH_S };
    base + uptime_secs as i64
}

/// Seconds to wait before the next exchange.
pub fn pause_after(synced: bool) -> (secs: u64)
    ensures
        secs == (if synced { RESYNC_SECS } else { RETRY_SECS }),
        secs == (if synced { 6 * 60 * 60int } else { 30 }),
{
    if synced {
        RESYNC_SECS
    } else {
        RETRY_SECS
    }
}

/// A clock that was set from a reply shows the reply's time at that moment and
/// runs on with the uptime.
pub proof fn synced_clock_is_right(reply: Seq<u8>, uptime: u64, later: u64)
    requires
        reply.len() >= 48,
        reply_time(reply) >= SANITY_MIN,
        uptime < SANITY_MIN,
        uptime <= later,
    ensures
        time_now(boot_epoch(reply_time(reply) as u64, uptime), later) == reply_time(reply) + (later
            - uptime),
{
}

/// The time in a reply: its bytes 40 to 43, high byte first, are the seconds
/// since 1900, which are 2 208 988 800 more than the seconds since 1970.
pub proof fn replies_count_from_1900(reply: Seq<u8>)
    requires
        reply.len() >= 48,
    ensures
        reply_time(reply) + 2_208_988_800 == 16_777_216 * reply[40] + 65_536 * reply[41] + 256
            * reply[42] + reply[43],
{
}

/// Before the first exchange the clock counts from 15 May 2026, after it from
/// the start of the device.
pub proof fn clock_counts_from_its_start(at_boot: int, unix_now: u64, uptime: u64, later: u64)
    ensures
        time_now(0, uptime) == 1_778_803_200 + uptime,
        at_boot != 0 ==> time_now(at_boot, uptime) == at_boot + uptime,
        unix_now != uptime ==> time_now(boot_epoch(unix_now, uptime), later) - unix_now == later
            - uptime,
{
}

} // verus!
