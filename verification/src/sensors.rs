//! When which sensor is read, and the whole-number part of the flow meter.

use vstd::prelude::*;
use crate::reading::Reading;
use crate::water_valve;

verus! {

/// Time between two readings of the battery, in milliseconds.
pub const BATTERY_PERIOD_MS: u64 = 600_000;

/// Time between two readings of pressure and flow, in milliseconds.
pub const MINUTE_MS: u64 = 60_000;

/// A reading is due: a period has passed, or there was none yet.
pub open spec fn is_due(now: u64, last: u64, period: u64) -> bool {
    water_valve::elapsed(now, last) >= period || last == 0
}

pub fn due(now_ms: u64, last_ms: u64, period_ms: u64) -> (r: bool)
    ensures
        r == is_due(now_ms, last_ms, period_ms),
{
    now_ms.saturating_sub(last_ms) >= period_ms || last_ms == 0
}

/// Whole numbers that a flow reading is computed from.
#[derive(Debug, Clone, Copy, PartialEq, Eq, Structural)]
pub struct FlowSample {
    /// Pulses since the last reading.
    pub pulses: u64,
    /// Time since the last reading in milliseconds, at least one.
    pub elapsed_ms: u64,
    /// Pulses since the start.
    pub total: u64,
}

/// What is to be read now.
#[derive(Debug, Clone, Copy, PartialEq, Eq, Structural)]
pub struct SensorsDue {
    pub battery: bool,
    pub pressure: bool,
    pub flow: bool,
}

/// When what was read last.
#[derive(Debug, Clone, Copy, PartialEq, Eq, Structural)]
pub struct SensorClock {
    pub last_battery_ms: u64,
    pub last_pressure_ms: u64,
    pub last_flow_ms: u64,
    pub last_pulses: u64,
}

impl SensorClock {
    pub fn new(pulses: u64) -> (c: Self)
        ensures
            c == (SensorClock {
                last_battery_ms: 0,
                last_pressure_ms: 0,
                last_flow_ms: 0,
                last_pulses: pulses,
            }),
    {
        SensorClock { last_battery_ms: 0, last_pressure_ms: 0, last_flow_ms: 0, last_pulses: pulses }
    }

    pub open spec fn due_at(self, now: u64) -> SensorsDue {
        SensorsDue {
            battery: is_due(now, self.last_battery_ms, BATTERY_PERIOD_MS),
            pressure: is_due(now, self.last_pressure_ms, MINUTE_MS),
            flow: is_due(now, self.last_flow_ms, MINUTE_MS),
        }
    }

    /// Says what is due now, and takes it as read.
    pub fn step(&mut self, now_ms: u64) -> (d: SensorsDue)
        ensures
            d == old(self).due_at(now_ms),
            *final(self) == (SensorClock {
                last_battery_ms: if d.battery { now_ms } else { old(self).last_battery_ms },
                last_pressure_ms: if d.pressure { now_ms } else { old(self).last_pressure_ms },
                ..*old(self)
            }),
    {
        let d = SensorsDue {
            battery: due(now_ms, self.last_battery_ms, BATTERY_PERIOD_MS),
            pressure: due(now_ms, self.last_pressure_ms, MINUTE_MS),
            flow: due(now_ms, self.last_flow_ms, MINUTE_MS),
        };
        if d.battery {
            self.last_battery_ms = now_ms;
        }
        if d.pressure {
            self.last_pressure_ms = now_ms;
        }
        d
    }

    /// Takes a reading of the pulse counter that was due.
    pub fn flow(&mut self, now_ms: u64, pulses: u64) -> (s: FlowSample)
        ensures
            s == (FlowSample {
                pulses: water_valve::elapsed(pulses, old(self).last_pulses) as u64,
                elapsed_ms: if water_valve::elapsed(now_ms, old(self).last_flow_ms) == 0 {
                    1u64
                } else {
                    water_valve::elapsed(now_ms, old(self).last_flow_ms) as u64
                },
                total: pulses,
            }),
            s.elapsed_ms >= 1,
            *final(self) == (SensorClock {
                last_flow_ms: now_ms,
                last_pulses: pulses,
                ..*old(self)
            }),
    {
        let delta: u64 = pulses.saturating_sub(self.last_pulses);
        let elapsed: u64 = now_ms.saturating_sub(self.last_flow_ms);
        self.last_flow_ms = now_ms;
        self.last_pulses = pulses;
        FlowSample {
            pulses: delta,
            elapsed_ms: if elapsed == 0 { 1 } else { elapsed },
            total: pulses,
        }
    }
}

/// Readings that an average is taken over.
pub const WINDOW: usize = 15;

/// The last readings of the battery, oldest first.
pub struct SampleWindow {
    samples: Vec<Reading>,
}

impl View for SampleWindow {
    type V = Seq<Reading>;

    closed spec fn view(&self) -> Seq<Reading> {
        self.samples@
    }
}

impl SampleWindow {
    pub fn new() -> (w: Self)
        ensures
            w@ == Seq::<Reading>::empty(),
    {
        SampleWindow { samples: Vec::new() }
    }

    /// Adds a reading; the oldest one leaves where there would be too many.
    pub fn push(&mut self, r: Reading)
        requires
            old(self)@.len() <= WINDOW,
        ensures
            final(self)@ == (if old(self)@.len() < WINDOW {
                old(self)@.push(r)
            } else {
                old(self)@.push(r).skip(1)
            }),
            final(self)@.len() <= WINDOW,
            final(self)@.last() == r,
            final(self)@.len() == (if old(self)@.len() < 15 { old(self)@.len() + 1 } else { 15 }),
    {
        self.samples.push(r);
        if self.samples.len() > WINDOW {
            self.samples.remove(0);
            assert(self.samples@ =~= old(self)@.push(r).skip(1));
        }
    }

    pub fn samples(&self) -> (s: &Vec<Reading>)
        ensures
            s@ == self@,
    {
        &self.samples
    }
}

/// The difference of two readings of a 16-bit counter, the short way round.
pub open spec fn counter_delta(raw: i16, last: i16) -> int {
    let d = raw - last;
    if d > 32_767 {
        d - 65_536
    } else if d < -32_768 {
        d + 65_536
    } else {
        d
    }
}

/// A 64-bit total out of a 16-bit counter that wraps around.
#[derive(Debug, Clone, Copy, PartialEq, Eq, Structural)]
pub struct PulseTotal {
    pub last_raw: i16,
    pub total: u64,
}

impl PulseTotal {
    pub fn new(raw: i16) -> (p: Self)
        ensures
            p == (PulseTotal { last_raw: raw, total: 0 }),
    {
        PulseTotal { last_raw: raw, total: 0 }
    }

    pub open spec fn after(self, raw: i16) -> PulseTotal {
        let d = counter_delta(raw, self.last_raw);
        PulseTotal {
            last_raw: raw,
            total: if d > 0 {
                (self.total + d) as u64
            } else {
                self.total
            },
        }
    }

    /// Takes a new reading of the counter. A step back counts as none.
    pub fn read(&mut self, raw: i16)
        requires
            old(self).total <= u64::MAX - 32_767,
        ensures
            *final(self) == old(self).after(raw),
    {
        let wide: i32 = raw as i32 - self.last_raw as i32;
        let delta: i32 = if wide > 32_767 {
            wide - 65_536
        } else if wide < -32_768 {
            wide + 65_536
        } else {
            wide
        };
        self.last_raw = raw;
        if delta > 0 {
            self.total = self.total + delta as u64;
        }
    }
}

/// No pulse is lost over a wrap: where the counter has moved on by fewer than
/// half its range, the total grows by exactly the pulses that came.
pub proof fn pulses_survive_a_wrap(p: PulseTotal, raw: i16, pulses: int)
    requires
        0 <= pulses <= 32_767,
        p.total + pulses <= u64::MAX,
        (raw - (p.last_raw + pulses)) % 65_536 == 0,
    ensures
        p.after(raw).total == p.total + pulses,
{
    let gap = raw - (p.last_raw + pulses);
    assert(-98_303 <= gap <= 65_535);
    assert(gap == 0 || gap == -65_536) by {
        if gap > 0 {
            assert(gap % 65_536 == gap);
        } else if gap < 0 && gap > -65_536 {
            assert(gap % 65_536 == gap + 65_536);
        } else if gap < -65_536 {
            assert(gap % 65_536 == gap + 131_072);
        }
    }
}

/// The battery is read ten seconds after the start and then every ten minutes.
pub fn battery_due_at_second(secs: u64) -> (r: bool)
    ensures
        r == (secs == 10 || secs % 600 == 0),
{
    secs == 10 || secs % 600 == 0
}

/// Pressure and flow are read every minute.
pub fn minute_due_at_second(secs: u64) -> (r: bool)
    ensures
        r == (secs % 60 == 0),
{
    secs % 60 == 0
}

/// What is due in milliseconds: the battery when there was no reading yet or
/// ten minutes have passed since the last one, pressure and flow when there was
/// none or a minute has passed.
pub proof fn readings_fall_due_in_time(c: SensorClock, now: u64)
    requires
        c.last_battery_ms <= now,
        c.last_pressure_ms <= now,
        c.last_flow_ms <= now,
    ensures
        c.due_at(now).battery <==> c.last_battery_ms == 0 || now - c.last_battery_ms >= 600_000,
        c.due_at(now).pressure <==> c.last_pressure_ms == 0 || now - c.last_pressure_ms >= 60_000,
        c.due_at(now).flow <==> c.last_flow_ms == 0 || now - c.last_flow_ms >= 60_000,
{
}

/// A counter that has moved back, by up to half its range, adds nothing, and
/// the next pulses count from where it stands now.
pub proof fn steps_back_add_nothing(p: PulseTotal, raw: i16, back: int)
    requires
        0 < back <= 32_768,
        (raw - (p.last_raw - back)) % 65_536 == 0,
    ensures
        p.after(raw).total == p.total,
        p.after(raw).last_raw == raw,
{
    let gap = raw - (p.last_raw - back);
    assert(-65_535 <= gap <= 98_303);
    assert(gap == 0 || gap == 65_536) by {
        if gap < 0 {
            assert(gap % 65_536 == gap + 65_536);
        } else if 0 < gap < 65_536 {
            assert(gap % 65_536 == gap);
        } else if gap > 65_536 {
            assert(gap % 65_536 == gap - 65_536);
        }
    }
}

/// A clock that reads less than at the last reading counts as no time at all.
pub proof fn time_before_the_reading_does_not_count(c: SensorClock, now: u64)
    ensures
        0 < c.last_battery_ms && now <= c.last_battery_ms ==> !c.due_at(now).battery,
        0 < c.last_pressure_ms && now <= c.last_pressure_ms ==> !c.due_at(now).pressure,
        0 < c.last_flow_ms && now <= c.last_flow_ms ==> !c.due_at(now).flow,
{
}

} // verus!
