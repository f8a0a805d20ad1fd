//! When to connect to the broker. Failed attempts are spaced further and
//! further apart.

use vstd::prelude::*;
use crate::water_valve;

verus! {

/// Pause after the first failure, in milliseconds.
pub const BACKOFF_INITIAL_MS: u64 = 5_000;

/// Longest pause, in milliseconds.
pub const BACKOFF_MAX_MS: u64 = 300_000;

/// What to do on waking up.
#[derive(Debug, Clone, Copy, PartialEq, Eq, Structural)]
pub enum MqttAction {
    /// Nothing.
    Wait,
    /// Connect to the broker.
    Connect,
    /// Announce the device and publish its state until the link is lost.
    Serve,
}

/// What the supervisor sees on waking up.
#[derive(Debug, Clone, Copy, PartialEq, Eq, Structural)]
pub struct MqttWake {
    pub enabled: bool,
    /// A broker is configured.
    pub has_broker: bool,
    /// The station has a network.
    pub wifi_connected: bool,
    /// The broker has accepted us.
    pub broker_connected: bool,
    pub now_ms: u64,
}

#[derive(Debug, Clone, Copy, PartialEq, Eq, Structural)]
pub struct MqttSupervisor {
    pub last_attempt_ms: u64,
    pub backoff_ms: u64,
}

/// Twice the pause, up to the longest one.
pub open spec fn longer(backoff: u64) -> u64 {
    if backoff * 2 <= BACKOFF_MAX_MS {
        (backoff * 2) as u64
    } else {
        BACKOFF_MAX_MS
    }
}

impl MqttSupervisor {
    /// The pause is one that the supervisor can have come to.
    pub open spec fn wf(self) -> bool {
        BACKOFF_INITIAL_MS <= self.backoff_ms <= BACKOFF_MAX_MS
    }

    pub open spec fn action(self, w: MqttWake) -> MqttAction {
        if !w.enabled || !w.has_broker || !w.wifi_connected {
            MqttAction::Wait
        } else if w.broker_connected {
            MqttAction::Serve
        } else if water_valve::elapsed(w.now_ms, self.last_attempt_ms) < self.backoff_ms {
            MqttAction::Wait
        } else {
            MqttAction::Connect
        }
    }

    /// The supervisor after as many failures in a row.
    pub open spec fn failed_times(self, times: nat) -> MqttSupervisor
        decreases times,
    {
        if times == 0 {
            self
        } else {
            let before = self.failed_times((times - 1) as nat);
            MqttSupervisor { backoff_ms: longer(before.backoff_ms), ..before }
        }
    }

    pub fn new() -> (s: Self)
        ensures
            s == (MqttSupervisor { last_attempt_ms: 0, backoff_ms: BACKOFF_INITIAL_MS }),
            s.backoff_ms == 5_000,
            s.wf(),
    {
        MqttSupervisor { last_attempt_ms: 0, backoff_ms: BACKOFF_INITIAL_MS }
    }

    /// Decides what to do. An attempt is noted with its time, and a connection
    /// that stands resets the pause.
    pub fn wake(&mut self, w: MqttWake) -> (a: MqttAction)
        requires
            old(self).wf(),
        ensures
            final(self).wf(),
            a == old(self).action(w),
            *final(self) == (match a {
                MqttAction::Wait => *old(self),
                MqttAction::Connect => MqttSupervisor {
                    last_attempt_ms: w.now_ms,
                    ..*old(self)
                },
                MqttAction::Serve => MqttSupervisor {
                    backoff_ms: BACKOFF_INITIAL_MS,
                    ..*old(self)
                },
            }),
    {
        if !w.enabled || !w.has_broker || !w.wifi_connected {
            return MqttAction::Wait;
        }
        if w.broker_connected {
            self.backoff_ms = BACKOFF_INITIAL_MS;
            return MqttAction::Serve;
        }
        if w.now_ms.saturating_sub(self.last_attempt_ms) < self.backoff_ms {
            return MqttAction::Wait;
        }
        self.last_attempt_ms = w.now_ms;
        MqttAction::Connect
    }

    /// An attempt is over: it could not be started, or the broker has not
    /// accepted us in time (`accepted` is false), or it worked.
    pub fn attempt_over(&mut self, accepted: bool) -> (a: MqttAction)
        requires
            old(self).wf(),
        ensures
            final(self).wf(),
            a == (if accepted { MqttAction::Serve } else { MqttAction::Wait }),
            *final(self) == (MqttSupervisor {
                backoff_ms: if accepted {
                    BACKOFF_INITIAL_MS
                } else {
                    longer(old(self).backoff_ms)
                },
                ..*old(self)
            }),
    {
        if accepted {
            self.backoff_ms = BACKOFF_INITIAL_MS;
            MqttAction::Serve
        } else {
            let twice: u64 = self.backoff_ms * 2;
            self.backoff_ms = if twice <= BACKOFF_MAX_MS { twice } else { BACKOFF_MAX_MS };
            MqttAction::Wait
        }
    }
}

/// Two to the power of `n`.
pub open spec fn two_to(n: nat) -> nat
    decreases n,
{
    if n == 0 {
        1
    } else {
        2 * two_to((n - 1) as nat)
    }
}

/// After `n` failures in a row the pause is the first one doubled `n` times,
/// and never more than the longest one.
pub proof fn pause_doubles(s: MqttSupervisor, n: nat)
    requires
        s.backoff_ms == BACKOFF_INITIAL_MS,
    ensures
        s.failed_times(n).backoff_ms == (if BACKOFF_INITIAL_MS * two_to(n) <= BACKOFF_MAX_MS {
            BACKOFF_INITIAL_MS * two_to(n)
        } else {
            BACKOFF_MAX_MS as int
        }),
        s.failed_times(n).wf(),
        s.failed_times(n).last_attempt_ms == s.last_attempt_ms,
        two_to(n) >= 1,
    decreases n,
{
    if n > 0 {
        pause_doubles(s, (n - 1) as nat);
    }
}

/// An attempt is never made before the pause since the last one is over, and
/// is never put off once it is.
pub proof fn attempts_keep_their_distance(s: MqttSupervisor, w: MqttWake)
    requires
        w.enabled,
        w.has_broker,
        w.wifi_connected,
        !w.broker_connected,
    ensures
        s.action(w) == MqttAction::Connect <==> water_valve::elapsed(w.now_ms, s.last_attempt_ms)
            >= s.backoff_ms,
{
}

/// Quality of service of a message.
#[derive(Debug, Clone, Copy, PartialEq, Eq, Structural)]
pub enum Qos {
    AtMostOnce,
    AtLeastOnce,
    ExactlyOnce,
}

/// Zero and two are taken at their word, and everything else is one.
pub fn qos_of(level: u8) -> (q: Qos)
    ensures
        q == (if level == 0 {
            Qos::AtMostOnce
        } else if level == 2 {
            Qos::ExactlyOnce
        } else {
            Qos::AtLeastOnce
        }),
{
    if level == 0 {
        Qos::AtMostOnce
    } else if level == 2 {
        Qos::ExactlyOnce
    } else {
        Qos::AtLeastOnce
    }
}

/// User name or password to hand to the broker: an empty one counts as none.
pub fn credential(text: &str) -> (c: Option<&str>)
    ensures
        c is Some == (text@.len() > 0),
        c is Some ==> c->0@ == text@,
{
    if text.is_empty() {
        None
    } else {
        Some(text)
    }
}

/// The pauses in milliseconds: five seconds at first, twice as long after each
/// failure, never over five minutes, and not shorter for a failure.
pub proof fn pauses_in_milliseconds(s: MqttSupervisor, n: nat)
    requires
        s.backoff_ms == 5_000,
    ensures
        s.failed_times(0).backoff_ms == 5_000,
        s.failed_times(n).backoff_ms <= 300_000,
        s.failed_times(n).backoff_ms <= 150_000 ==> s.failed_times(n + 1).backoff_ms == 2
            * s.failed_times(n).backoff_ms,
        s.failed_times(n).backoff_ms > 150_000 ==> s.failed_times(n + 1).backoff_ms == 300_000,
        n >= 6 ==> s.failed_times(n).backoff_ms == 300_000,
        s.failed_times(n).last_attempt_ms == s.last_attempt_ms,
    decreases n,
{
    pause_doubles(s, n);
    if n > 6 {
        pauses_in_milliseconds(s, (n - 1) as nat);
    } else if n == 6 {
        reveal_with_fuel(MqttSupervisor::failed_times, 7);
    }
}

/// A supervisor that lacks the switch, the broker or the network waits; a
/// connection that stands is served; and otherwise an attempt is made exactly
/// when the pause has passed since the last one.
pub proof fn waking_up_does_what_is_needed(s: MqttSupervisor, w: MqttWake)
    ensures
        !w.enabled || !w.has_broker || !w.wifi_connected ==> s.action(w) == MqttAction::Wait,
        s.action(w) == MqttAction::Serve <==> w.enabled && w.has_broker && w.wifi_connected
            && w.broker_connected,
        s.action(w) == MqttAction::Connect ==> w.now_ms >= s.last_attempt_ms + s.backoff_ms
            || s.backoff_ms == 0,
        w.enabled && w.has_broker && w.wifi_connected && !w.broker_connected && w.now_ms
            >= s.last_attempt_ms + s.backoff_ms ==> s.action(w) == MqttAction::Connect,
{
}

/// A clock that reads less than at the last attempt counts as no time at all: the
/// pause is not over.
pub proof fn time_before_the_attempt_does_not_count(s: MqttSupervisor, w: MqttWake)
    requires
        s.backoff_ms > 0,
        w.now_ms <= s.last_attempt_ms,
    ensures
        s.action(w) != MqttAction::Connect,
{
}

} // verus!
