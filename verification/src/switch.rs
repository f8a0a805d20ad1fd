//! An on/off output with an optional auto-off timer.

use vstd::prelude::*;
use crate::duration::Duration;
use crate::water_valve;

verus! {

/// One stretch of being on: when it began, and the auto-off time that holds
/// for this stretch alone.
#[derive(Debug, Clone, Copy, PartialEq, Eq, Structural)]
pub struct Activation {
    pub since_ms: u64,
    pub own_auto_off: Option<Duration>,
}

/// Everything that the behaviour of a timed switch depends on.
pub struct SwitchModel {
    /// Set exactly while the switch is on.
    pub active: Option<Activation>,
    pub auto_off: Option<Duration>,
}

impl SwitchModel {
    pub open spec fn is_on(self) -> bool {
        self.active is Some
    }

    /// The auto-off time of this stretch, else the configured one.
    pub open spec fn limit(self) -> Option<Duration> {
        match self.active {
            Some(a) => if a.own_auto_off is Some {
                a.own_auto_off
            } else {
                self.auto_off
            },
            None => None,
        }
    }

    /// The switch is on and its auto-off time has passed.
    pub open spec fn expired(self, now: u64) -> bool {
        self.active is Some && self.limit() is Some && water_valve::elapsed(now, self.active->0.since_ms)
            >= self.limit()->0@
    }

    /// Being turned on while on changes nothing, not even the clock.
    pub open spec fn turn_on(self, now: u64, own_auto_off: Option<Duration>) -> SwitchModel {
        if self.is_on() {
            self
        } else {
            SwitchModel { active: Some(Activation { since_ms: now, own_auto_off }), ..self }
        }
    }

    pub open spec fn turn_off(self) -> SwitchModel {
        SwitchModel { active: None, ..self }
    }

    pub open spec fn tick(self, now: u64) -> SwitchModel {
        if self.expired(now) {
            self.turn_off()
        } else {
            self
        }
    }

    /// The switch after ticks at each of `times`, in order.
    pub open spec fn ticks(self, times: Seq<u64>) -> SwitchModel
        decreases times.len(),
    {
        if times.len() == 0 {
            self
        } else {
            self.ticks(times.drop_last()).tick(times.last())
        }
    }
}

#[derive(Debug)]
pub struct TimedSwitch {
    active: Option<Activation>,
    auto_off: Option<Duration>,
}

impl View for TimedSwitch {
    type V = SwitchModel;

    closed spec fn view(&self) -> SwitchModel {
        SwitchModel { active: self.active, auto_off: self.auto_off }
    }
}

impl TimedSwitch {
    /// A switch that is off.
    pub fn new(auto_off: Option<Duration>) -> (s: Self)
        ensures
            s@ == (SwitchModel { active: None, auto_off }),
    {
        TimedSwitch { active: None, auto_off }
    }

    pub fn is_on(&self) -> (on: bool)
        ensures
            on == self@.is_on(),
    {
        self.active.is_some()
    }

    /// Takes effect at once, except on a stretch with an auto-off time of its own.
    pub fn set_auto_off(&mut self, auto_off: Option<Duration>)
        ensures
            final(self)@ == (SwitchModel { auto_off, ..old(self)@ }),
    {
        self.auto_off = auto_off;
    }

    pub fn turn_on(&mut self, now_ms: u64)
        ensures
            final(self)@ == old(self)@.turn_on(now_ms, None),
    {
        if self.active.is_none() {
            self.active = Some(Activation { since_ms: now_ms, own_auto_off: None });
        }
    }

    /// Turns on with an auto-off time for this stretch alone.
    pub fn turn_on_for(&mut self, now_ms: u64, duration: Duration)
        ensures
            final(self)@ == old(self)@.turn_on(now_ms, Some(duration)),
    {
        if self.active.is_none() {
            self.active = Some(Activation { since_ms: now_ms, own_auto_off: Some(duration) });
        }
    }

    pub fn turn_off(&mut self, _now_ms: u64)
        ensures
            final(self)@ == old(self)@.turn_off(),
    {
        self.active = None;
    }

    /// Advances time. True exactly when this tick turned the switch off.
    pub fn tick(&mut self, now_ms: u64) -> (fired: bool)
        ensures
            fired == old(self)@.expired(now_ms),
            final(self)@ == old(self)@.tick(now_ms),
    {
        let (since, own): (u64, Option<Duration>) = match self.active {
            Some(a) => (a.since_ms, a.own_auto_off),
            None => return false,
        };
        let limit = match own {
            Some(d) => Some(d),
            None => self.auto_off,
        };
        if let Some(d) = limit {
            if now_ms.saturating_sub(since) as u128 >= d.as_millis() {
                self.turn_off(now_ms);
                return true;
            }
        }
        false
    }
}

/// A tick reports that it fired exactly when it took the switch from on to off.
pub proof fn tick_fires_on_transition(s: SwitchModel, now: u64)
    ensures
        s.expired(now) <==> s.is_on() && !s.tick(now).is_on(),
{
}

/// A switch turned on at `start` with an auto-off time stays on through every
/// tick before that time has passed, and the first tick after it turns it off.
pub proof fn auto_off_timeline(
    s: SwitchModel,
    start: u64,
    own: Option<Duration>,
    times: Seq<u64>,
    now: u64,
)
    requires
        !s.is_on(),
        own is Some || s.auto_off is Some,
        forall|i: int|
            0 <= i < times.len() ==> water_valve::elapsed(#[trigger] times[i], start) < (if own is Some {
                own->0@
            } else {
                s.auto_off->0@
            }),
    ensures
        ({
            let limit = if own is Some { own->0@ } else { s.auto_off->0@ };
            let running = s.turn_on(start, own).ticks(times);
            &&& running == s.turn_on(start, own)
            &&& running.is_on()
            &&& running.tick(now).is_on() == (water_valve::elapsed(now, start) < limit)
            &&& water_valve::elapsed(now, start) >= limit ==> running.tick(now) == s
        }),
    decreases times.len(),
{
    if times.len() > 0 {
        assert forall|i: int| 0 <= i < times.drop_last().len() implies water_valve::elapsed(
            #[trigger] times.drop_last()[i],
            start,
        ) < (if own is Some { own->0@ } else { s.auto_off->0@ }) by {
            assert(times.drop_last()[i] == times[i]);
        }
        auto_off_timeline(s, start, own, times.drop_last(), now);
        let last = times[times.len() - 1];
        assert(water_valve::elapsed(last, start) < (if own is Some {
            own->0@
        } else {
            s.auto_off->0@
        }));
    }
}

/// Without any auto-off time a switch that is on stays on.
pub proof fn no_auto_off_stays_on(s: SwitchModel, times: Seq<u64>)
    requires
        s.is_on(),
        s.limit() is None,
    ensures
        s.ticks(times) == s,
    decreases times.len(),
{
    if times.len() > 0 {
        no_auto_off_stays_on(s, times.drop_last());
    }
}

/// An auto-off time given for one stretch ends with it: once the switch has
/// been off, the configured time counts again.
pub proof fn own_auto_off_ends_with_the_stretch(
    s: SwitchModel,
    first: u64,
    own: Duration,
    second: u64,
)
    requires
        !s.is_on(),
    ensures
        s.turn_on(first, Some(own)).limit() == Some(own),
        s.turn_on(first, Some(own)).turn_off().turn_on(second, None).limit() == s.auto_off,
{
}

/// A new configured auto-off time applies to a stretch that is under way,
/// unless that stretch has a time of its own.
pub proof fn new_auto_off_applies_at_once(s: SwitchModel, auto_off: Option<Duration>)
    requires
        s.is_on(),
    ensures
        s.active->0.own_auto_off is None ==> (SwitchModel { auto_off, ..s }).limit() == auto_off,
        s.active->0.own_auto_off is Some ==> (SwitchModel { auto_off, ..s }).limit() == s.limit(),
{
}

/// A switch turned on at `start` is on until as many milliseconds have passed as
/// its auto-off time has, and off from the first tick after that on; the time
/// given for this stretch counts before the configured one.
pub proof fn on_for_its_milliseconds(
    s: SwitchModel,
    start: u64,
    own: Option<Duration>,
    times: Seq<u64>,
    now: u64,
)
    requires
        !s.is_on(),
        own is Some || s.auto_off is Some,
        start <= now,
        forall|i: int|
            0 <= i < times.len() ==> start <= #[trigger] times[i] && times[i] - start < (if own
                is Some {
                own->0.millis
            } else {
                s.auto_off->0.millis
            }),
    ensures
        ({
            let limit = if own is Some {
                own->0.millis as int
            } else {
                s.auto_off->0.millis as int
            };
            let on = s.turn_on(start, own).ticks(times);
            &&& on.is_on()
            &&& on.tick(now).is_on() <==> now - start < limit
            &&& on.tick(now).auto_off == s.auto_off
        }),
{
    auto_off_timeline(s, start, own, times, now);
}

/// A switch that is turned off is off, one that is off stays off through every
/// tick, and turning on one that is on changes nothing.
pub proof fn off_is_off(s: SwitchModel, now: u64, own: Option<Duration>)
    ensures
        !s.turn_off().is_on(),
        s.turn_off().auto_off == s.auto_off,
        !s.is_on() ==> s.tick(now) == s,
        s.is_on() ==> s.turn_on(now, own) == s,
        s.turn_on(now, own).is_on(),
        s.turn_on(now, own).auto_off == s.auto_off,
{
}

/// A clock that reads less than when the switch was turned on counts as no time
/// at all: a switch with time left stays on.
pub proof fn time_before_the_start_does_not_count(
    s: SwitchModel,
    start: u64,
    own: Option<Duration>,
    now: u64,
)
    requires
        !s.is_on(),
        now <= start,
        own is Some ==> own->0.millis > 0,
        own is None && s.auto_off is Some ==> s.auto_off->0.millis > 0,
    ensures
        s.turn_on(start, own).tick(now) == s.turn_on(start, own),
        s.turn_on(start, own).active == Some(Activation { since_ms: start, own_auto_off: own }),
{
}

} // verus!
