//! State machine of the composite water control: a motorised valve with an
//! open coil and a close coil, and a drain output.
//!
//! A turn-on runs settle, open motor, settle and then reports "on". A turn-off
//! runs settle, close motor, settle, reports "off" and then holds the drain.
//! While a motor sequence runs, commands are ignored: two overlapping
//! sequences would energise both motor directions. The drain hold gives way
//! to a turn-on at once.

use vstd::prelude::*;

verus! {

/// Settle window before and after the motor pulse, in milliseconds.
pub const SETTLE_MS: u64 = 1_000;

/// Length of a whole turn-on or turn-off sequence with the default timing.
pub const SEQUENCE_DURATION_MS: u64 = 16_000;

/// The two timings that a user may set.
#[derive(Debug, Clone, Copy, PartialEq, Eq, Structural)]
pub struct ValveTiming {
    /// How long the open or close motor is energised, in seconds.
    pub motor_run_secs: u32,
    /// How long the drain is held after a close, in seconds. Zero skips it.
    pub drain_secs: u32,
}

impl Default for ValveTiming {
    fn default() -> (t: Self)
        ensures
            t == (ValveTiming { motor_run_secs: 14, drain_secs: 300 }),
    {
        ValveTiming { motor_run_secs: 14, drain_secs: 300 }
    }
}

impl ValveTiming {
    /// Motor pulse in milliseconds.
    pub open spec fn run(self) -> int {
        self.motor_run_secs * 1_000
    }

    /// Drain hold in milliseconds.
    pub open spec fn hold(self) -> int {
        self.drain_secs * 1_000
    }

    /// Settle, motor pulse and settle again, in milliseconds.
    pub open spec fn sequence(self) -> int {
        SETTLE_MS + self.run() + SETTLE_MS
    }

    pub fn motor_run_ms(&self) -> (ms: u64)
        ensures
            ms == self.run(),
            ms == 1_000 * self.motor_run_secs,
    {
        self.motor_run_secs as u64 * 1_000
    }

    pub fn drain_hold_ms(&self) -> (ms: u64)
        ensures
            ms == self.hold(),
            ms == 1_000 * self.drain_secs,
    {
        self.drain_secs as u64 * 1_000
    }

    pub fn sequence_ms(&self) -> (ms: u64)
        ensures
            ms == self.sequence(),
            ms == 2_000 + 1_000 * self.motor_run_secs,
    {
        SETTLE_MS + self.motor_run_ms() + SETTLE_MS
    }
}

/// What the valve is doing, as reported to callers.
#[derive(Debug, Clone, Copy, PartialEq, Eq, Structural)]
pub enum WaterState {
    Off,
    TurningOn,
    On,
    TurningOff,
}

/// Levels wanted on the three output pins.
#[derive(Debug, Clone, Copy, PartialEq, Eq, Structural)]
pub struct ValveOutputs {
    pub open_motor: bool,
    pub close_motor: bool,
    pub drain: bool,
}

impl Default for ValveOutputs {
    fn default() -> (o: Self)
        ensures
            o == (ValveOutputs { open_motor: false, close_motor: false, drain: false }),
    {
        ValveOutputs { open_motor: false, close_motor: false, drain: false }
    }
}

/// Where in a sequence the valve stands, with the time at which that part began.
#[derive(Debug, Clone, Copy, PartialEq, Eq, Structural)]
pub enum Phase {
    Idle,
    TurningOn { start_ms: u64 },
    TurningOff { start_ms: u64 },
    Draining { start_ms: u64 },
}

/// Milliseconds from `start` to `now`, and zero where `now` is the earlier one.
pub open spec fn elapsed(now: u64, start: u64) -> int {
    if now >= start {
        now - start
    } else {
        0
    }
}

/// Everything that the behaviour of a valve depends on.
pub struct ValveModel {
    pub phase: Phase,
    pub user_state: bool,
    pub timing: ValveTiming,
}

impl ValveModel {
    /// A motor sequence is under way.
    pub open spec fn busy(self) -> bool {
        self.phase is TurningOn || self.phase is TurningOff
    }

    pub open spec fn state(self) -> WaterState {
        match self.phase {
            Phase::TurningOn { .. } => WaterState::TurningOn,
            Phase::TurningOff { .. } => WaterState::TurningOff,
            Phase::Draining { .. } => WaterState::Off,
            Phase::Idle => if self.user_state { WaterState::On } else { WaterState::Off },
        }
    }

    /// A turn-on counts when the valve rests in the off position or drains.
    pub open spec fn turn_on(self, now: u64) -> ValveModel {
        if (self.phase is Idle && !self.user_state) || self.phase is Draining {
            ValveModel { phase: Phase::TurningOn { start_ms: now }, ..self }
        } else {
            self
        }
    }

    /// A turn-off counts when the valve rests in the on position.
    pub open spec fn turn_off(self, now: u64) -> ValveModel {
        if self.phase is Idle && self.user_state {
            ValveModel { phase: Phase::TurningOff { start_ms: now }, ..self }
        } else {
            self
        }
    }

    /// The motor pulse: after the first settle window, for the motor time.
    pub open spec fn in_pulse(self, now: u64, start: u64) -> bool {
        SETTLE_MS <= elapsed(now, start) < SETTLE_MS + self.timing.run()
    }

    /// The whole sequence that began at `start` is over.
    pub open spec fn sequence_over(self, now: u64, start: u64) -> bool {
        elapsed(now, start) >= self.timing.sequence()
    }

    /// Pin levels that a tick at `now` asks for.
    pub open spec fn outputs(self, now: u64) -> ValveOutputs {
        ValveOutputs {
            open_motor: self.phase matches Phase::TurningOn { start_ms } && self.in_pulse(
                now,
                start_ms,
            ),
            close_motor: self.phase matches Phase::TurningOff { start_ms } && self.in_pulse(
                now,
                start_ms,
            ),
            drain: match self.phase {
                Phase::TurningOff { start_ms } => self.sequence_over(now, start_ms)
                    && self.timing.hold() > 0,
                Phase::Draining { start_ms } => elapsed(now, start_ms) < self.timing.hold(),
                _ => false,
            },
        }
    }

    /// The valve after a tick at `now`.
    pub open spec fn tick(self, now: u64) -> ValveModel {
        match self.phase {
            Phase::TurningOn { start_ms } if self.sequence_over(now, start_ms) => ValveModel {
                phase: Phase::Idle,
                user_state: true,
                ..self
            },
            Phase::TurningOff { start_ms } if self.sequence_over(now, start_ms) => ValveModel {
                phase: if self.timing.hold() > 0 {
                    Phase::Draining { start_ms: now }
                } else {
                    Phase::Idle
                },
                user_state: false,
                ..self
            },
            Phase::Draining { start_ms } if elapsed(now, start_ms) >= self.timing.hold() =>
                ValveModel { phase: Phase::Idle, ..self },
            _ => self,
        }
    }

    /// The valve after ticks at each of `times`, in order.
    pub open spec fn ticks(self, times: Seq<u64>) -> ValveModel
        decreases times.len(),
    {
        if times.len() == 0 {
            self
        } else {
            self.ticks(times.drop_last()).tick(times.last())
        }
    }
}

/// The valve itself. Callers tick it with a monotonic clock reading.
#[derive(Debug)]
pub struct WaterValve {
    phase: Phase,
    user_state: bool,
    timing: ValveTiming,
}

impl View for WaterValve {
    type V = ValveModel;

    closed spec fn view(&self) -> ValveModel {
        ValveModel { phase: self.phase, user_state: self.user_state, timing: self.timing }
    }
}

impl Default for WaterValve {
    fn default() -> (v: Self)
        ensures
            v@ == (ValveModel {
                phase: Phase::Idle,
                user_state: false,
                timing: ValveTiming { motor_run_secs: 14, drain_secs: 300 },
            }),
    {
        WaterValve::new()
    }
}

impl WaterValve {
    /// A closed valve with the default timing.
    pub fn new() -> (v: Self)
        ensures
            v@ == (ValveModel {
                phase: Phase::Idle,
                user_state: false,
                timing: ValveTiming { motor_run_secs: 14, drain_secs: 300 },
            }),
    {
        WaterValve::with_timing(ValveTiming::default())
    }

    /// A closed valve.
    pub fn with_timing(timing: ValveTiming) -> (v: Self)
        ensures
            v@ == (ValveModel { phase: Phase::Idle, user_state: false, timing }),
    {
        WaterValve { phase: Phase::Idle, user_state: false, timing }
    }

    /// Takes effect at once, also on a sequence that is under way.
    pub fn set_timing(&mut self, timing: ValveTiming)
        ensures
            final(self)@ == (ValveModel { timing, ..old(self)@ }),
    {
        self.timing = timing;
    }

    pub fn timing(&self) -> (t: ValveTiming)
        ensures
            t == self@.timing,
    {
        self.timing
    }

    /// Sets the resting position, without a motor sequence.
    pub fn restore(&mut self, on: bool)
        ensures
            final(self)@ == (ValveModel { user_state: on, ..old(self)@ }),
    {
        self.user_state = on;
    }

    /// The position reached by the last completed sequence.
    pub fn user_state(&self) -> (on: bool)
        ensures
            on == self@.user_state,
    {
        self.user_state
    }

    pub fn is_busy(&self) -> (busy: bool)
        ensures
            busy == self@.busy(),
    {
        match self.phase {
            Phase::Idle | Phase::Draining { .. } => false,
            _ => true,
        }
    }

    pub fn state(&self) -> (s: WaterState)
        ensures
            s == self@.state(),
    {
        match self.phase {
            Phase::TurningOn { .. } => WaterState::TurningOn,
            Phase::TurningOff { .. } => WaterState::TurningOff,
            Phase::Draining { .. } => WaterState::Off,
            Phase::Idle => if self.user_state { WaterState::On } else { WaterState::Off },
        }
    }

    pub fn turn_on(&mut self, now_ms: u64)
        ensures
            final(self)@ == old(self)@.turn_on(now_ms),
    {
        match self.phase {
            Phase::Idle => {
                if !self.user_state {
                    self.phase = Phase::TurningOn { start_ms: now_ms };
                }
            },
            Phase::Draining { .. } => {
                self.phase = Phase::TurningOn { start_ms: now_ms };
            },
            _ => {},
        }
    }

    pub fn turn_off(&mut self, now_ms: u64)
        ensures
            final(self)@ == old(self)@.turn_off(now_ms),
    {
        if let Phase::Idle = self.phase {
            if self.user_state {
                self.phase = Phase::TurningOff { start_ms: now_ms };
            }
        }
    }

    /// Advances the state machine to `now_ms` and returns the pin levels.
    pub fn tick(&mut self, now_ms: u64) -> (outputs: ValveOutputs)
        ensures
            outputs == old(self)@.outputs(now_ms),
            final(self)@ == old(self)@.tick(now_ms),
    {
        let motor_run: u64 = self.timing.motor_run_ms();
        let sequence: u64 = self.timing.sequence_ms();
        let drain_hold: u64 = self.timing.drain_hold_ms();
        let mut outputs = ValveOutputs::default();
        match self.phase {
            Phase::Idle => {},
            Phase::TurningOn { start_ms } => {
                let elapsed: u64 = now_ms.saturating_sub(start_ms);
                if elapsed >= sequence {
                    self.user_state = true;
                    self.phase = Phase::Idle;
                } else if elapsed >= SETTLE_MS && elapsed < SETTLE_MS + motor_run {
                    outputs.open_motor = true;
                }
            },
            Phase::TurningOff { start_ms } => {
                let elapsed: u64 = now_ms.saturating_sub(start_ms);
                if elapsed >= sequence {
                    self.user_state = false;
                    if drain_hold == 0 {
                        self.phase = Phase::Idle;
                    } else {
                        self.phase = Phase::Draining { start_ms: now_ms };
                        outputs.drain = true;
                    }
                } else if elapsed >= SETTLE_MS && elapsed < SETTLE_MS + motor_run {
                    outputs.close_motor = true;
                }
            },
            Phase::Draining { start_ms } => {
                let elapsed: u64 = now_ms.saturating_sub(start_ms);
                if elapsed >= drain_hold {
                    self.phase = Phase::Idle;
                } else {
                    outputs.drain = true;
                }
            },
        }
        outputs
    }
}

/// In every state and at every time at most one of the three outputs is on:
/// the motor is never driven both ways, and the drain never opens under a
/// running motor.
pub proof fn outputs_are_exclusive(valve: ValveModel, now: u64)
    ensures
        !(valve.outputs(now).open_motor && valve.outputs(now).close_motor),
        !(valve.outputs(now).open_motor && valve.outputs(now).drain),
        !(valve.outputs(now).close_motor && valve.outputs(now).drain),
{
}

/// Commands that arrive during a motor sequence change nothing.
pub proof fn busy_valve_ignores_commands(valve: ValveModel, now: u64)
    requires
        valve.busy(),
    ensures
        valve.turn_on(now) == valve,
        valve.turn_off(now) == valve,
{
}

/// A turn-on of an open resting valve and a turn-off of a closed one change nothing.
pub proof fn repeated_commands_change_nothing(valve: ValveModel, now: u64)
    requires
        valve.phase is Idle,
    ensures
        valve.user_state ==> valve.turn_on(now) == valve,
        !valve.user_state ==> valve.turn_off(now) == valve,
{
}

/// A resting valve stays as it is and drives nothing, however often it is ticked.
pub proof fn idle_valve_rests(valve: ValveModel, times: Seq<u64>, now: u64)
    requires
        valve.phase is Idle,
    ensures
        valve.ticks(times) == valve,
        valve.outputs(now) == (ValveOutputs {
            open_motor: false,
            close_motor: false,
            drain: false,
        }),
    decreases times.len(),
{
    if times.len() > 0 {
        idle_valve_rests(valve, times.drop_last(), now);
    }
}

/// A turn-on accepted at `start`: whatever ticks come before the sequence is
/// over, the open motor runs exactly in its pulse window, nothing else runs,
/// and the first tick after the end leaves the valve resting open.
pub proof fn turn_on_timeline(valve: ValveModel, start: u64, times: Seq<u64>, now: u64)
    requires
        (valve.phase is Idle && !valve.user_state) || valve.phase is Draining,
        forall|i: int|
            0 <= i < times.len() ==> elapsed(#[trigger] times[i], start)
                < valve.timing.sequence(),
    ensures
        ({
            let running = valve.turn_on(start).ticks(times);
            &&& running.state() == WaterState::TurningOn
            &&& running.outputs(now) == (ValveOutputs {
                open_motor: SETTLE_MS <= elapsed(now, start) < SETTLE_MS + valve.timing.run(),
                close_motor: false,
                drain: false,
            })
            &&& elapsed(now, start) >= valve.timing.sequence() ==> running.tick(now) == (
            ValveModel { phase: Phase::Idle, user_state: true, timing: valve.timing })
        }),
    decreases times.len(),
{
    stays_turning_on(valve.turn_on(start), start, times);
}

proof fn stays_turning_on(valve: ValveModel, start: u64, times: Seq<u64>)
    requires
        valve.phase == (Phase::TurningOn { start_ms: start }),
        forall|i: int|
            0 <= i < times.len() ==> elapsed(#[trigger] times[i], start)
                < valve.timing.sequence(),
    ensures
        valve.ticks(times) == valve,
    decreases times.len(),
{
    if times.len() > 0 {
        assert forall|i: int| 0 <= i < times.drop_last().len() implies elapsed(
            #[trigger] times.drop_last()[i],
            start,
        ) < valve.timing.sequence() by {
            assert(times.drop_last()[i] == times[i]);
        }
        stays_turning_on(valve, start, times.drop_last());
        assert(elapsed(times[times.len() - 1], start) < valve.timing.sequence());
    }
}

/// A turn-off accepted at `start`: whatever ticks come before the sequence is
/// over, the close motor runs exactly in its pulse window, nothing else runs,
/// and the first tick after the end reports "off", with the drain open where a
/// drain time is set.
pub proof fn turn_off_timeline(valve: ValveModel, start: u64, times: Seq<u64>, now: u64)
    requires
        valve.phase is Idle,
        valve.user_state,
        forall|i: int|
            0 <= i < times.len() ==> elapsed(#[trigger] times[i], start)
                < valve.timing.sequence(),
    ensures
        ({
            let running = valve.turn_off(start).ticks(times);
            let over = elapsed(now, start) >= valve.timing.sequence();
            &&& running.state() == WaterState::TurningOff
            &&& running.outputs(now) == (ValveOutputs {
                open_motor: false,
                close_motor: SETTLE_MS <= elapsed(now, start) < SETTLE_MS + valve.timing.run(),
                drain: over && valve.timing.drain_secs > 0,
            })
            &&& over ==> running.tick(now).state() == WaterState::Off
            &&& over ==> !running.tick(now).user_state
            &&& over ==> (running.tick(now).phase == if valve.timing.drain_secs > 0 {
                Phase::Draining { start_ms: now }
            } else {
                Phase::Idle
            })
        }),
{
    stays_turning_off(valve.turn_off(start), start, times);
}

proof fn stays_turning_off(valve: ValveModel, start: u64, times: Seq<u64>)
    requires
        valve.phase == (Phase::TurningOff { start_ms: start }),
        forall|i: int|
            0 <= i < times.len() ==> elapsed(#[trigger] times[i], start)
                < valve.timing.sequence(),
    ensures
        valve.ticks(times) == valve,
    decreases times.len(),
{
    if times.len() > 0 {
        assert forall|i: int| 0 <= i < times.drop_last().len() implies elapsed(
            #[trigger] times.drop_last()[i],
            start,
        ) < valve.timing.sequence() by {
            assert(times.drop_last()[i] == times[i]);
        }
        stays_turning_off(valve, start, times.drop_last());
        assert(elapsed(times[times.len() - 1], start) < valve.timing.sequence());
    }
}

/// A drain that began at `start` is held until its time is over and then
/// released, while the valve reports "off" throughout; a turn-on in between
/// stops the drain and starts the open sequence at once.
pub proof fn drain_timeline(valve: ValveModel, start: u64, times: Seq<u64>, now: u64)
    requires
        valve.phase == (Phase::Draining { start_ms: start }),
        forall|i: int|
            0 <= i < times.len() ==> elapsed(#[trigger] times[i], start) < valve.timing.hold(),
    ensures
        ({
            let draining = valve.ticks(times);
            &&& draining == valve
            &&& draining.state() == WaterState::Off
            &&& draining.outputs(now) == (ValveOutputs {
                open_motor: false,
                close_motor: false,
                drain: elapsed(now, start) < valve.timing.hold(),
            })
            &&& elapsed(now, start) >= valve.timing.hold() ==> draining.tick(now).phase is Idle
            &&& draining.turn_on(now).state() == WaterState::TurningOn
            &&& !draining.turn_on(now).outputs(now).drain
        }),
    decreases times.len(),
{
    if times.len() > 0 {
        assert forall|i: int| 0 <= i < times.drop_last().len() implies elapsed(
            #[trigger] times.drop_last()[i],
            start,
        ) < valve.timing.hold() by {
            assert(times.drop_last()[i] == times[i]);
        }
        drain_timeline(valve, start, times.drop_last(), now);
        assert(elapsed(times[times.len() - 1], start) < valve.timing.hold());
    }
}

/// The resting position changes only where a sequence ends: a tick makes it
/// "on" only out of a turn-on and "off" only out of a turn-off.
pub proof fn position_changes_at_sequence_end(valve: ValveModel, now: u64)
    ensures
        valve.tick(now).user_state != valve.user_state ==> valve.busy() && !valve.tick(now).busy(),
        !valve.user_state && valve.tick(now).user_state ==> valve.phase is TurningOn,
        valve.user_state && !valve.tick(now).user_state ==> valve.phase is TurningOff,
{
}

/// A turn-on in seconds and milliseconds: a second of rest, the open motor for
/// as many seconds as are set, and a second of rest. Up to then the valve
/// reports that it is turning on, and the tick after that finds it open.
pub proof fn opening_takes_its_seconds(valve: ValveModel, start: u64, times: Seq<u64>, now: u64)
    requires
        (valve.phase is Idle && !valve.user_state) || valve.phase is Draining,
        forall|i: int|
            0 <= i < times.len() ==> start <= #[trigger] times[i] < start + 2_000 + 1_000
                * valve.timing.motor_run_secs,
        start <= now,
    ensures
        ({
            let running = valve.turn_on(start).ticks(times);
            let run_ms = 1_000 * valve.timing.motor_run_secs;
            &&& running.outputs(now).open_motor <==> start + 1_000 <= now < start + 1_000 + run_ms
            &&& !running.outputs(now).close_motor
            &&& !running.outputs(now).drain
            &&& running.tick(now).state() == (if now < start + 2_000 + run_ms {
                WaterState::TurningOn
            } else {
                WaterState::On
            })
            &&& now >= start + 2_000 + run_ms ==> running.tick(now).user_state
            &&& now < start + 2_000 + run_ms ==> running.tick(now).user_state == valve.user_state
            &&& running.tick(now).timing == valve.timing
        }),
{
    turn_on_timeline(valve, start, times, now);
    stays_turning_on(valve.turn_on(start), start, times);
}

/// A turn-off in seconds and milliseconds: a second of rest, the close motor for
/// as many seconds as are set, and a second of rest. The tick after that, at
/// `end`, reports "off" and opens the drain, which every tick keeps open until
/// as many seconds as are set have passed, and the next one closes.
pub proof fn closing_and_draining_take_their_seconds(
    valve: ValveModel,
    start: u64,
    times: Seq<u64>,
    end: u64,
    later: Seq<u64>,
    now: u64,
)
    requires
        valve.phase is Idle,
        valve.user_state,
        forall|i: int|
            0 <= i < times.len() ==> start <= #[trigger] times[i] < start + 2_000 + 1_000
                * valve.timing.motor_run_secs,
        start <= now,
        end >= start + 2_000 + 1_000 * valve.timing.motor_run_secs,
        forall|i: int|
            0 <= i < later.len() ==> end <= #[trigger] later[i] < end + 1_000
                * valve.timing.drain_secs,
    ensures
        ({
            let running = valve.turn_off(start).ticks(times);
            let run_ms = 1_000 * valve.timing.motor_run_secs;
            &&& running.outputs(now).close_motor <==> start + 1_000 <= now < start + 1_000 + run_ms
            &&& !running.outputs(now).open_motor
            &&& running.outputs(now).drain <==> now >= start + 2_000 + run_ms
                && valve.timing.drain_secs > 0
            &&& running.tick(now).state() == (if now < start + 2_000 + run_ms {
                WaterState::TurningOff
            } else {
                WaterState::Off
            })
            &&& running.tick(now).user_state == (now < start + 2_000 + run_ms)
        }),
        ({
            let drained = valve.turn_off(start).ticks(times).tick(end).ticks(later);
            let hold_ms = 1_000 * valve.timing.drain_secs;
            &&& drained.state() == WaterState::Off
            &&& !drained.user_state
            &&& now >= end ==> {
                &&& drained.outputs(now).drain <==> now < end + hold_ms
                &&& !drained.outputs(now).open_motor
                &&& !drained.outputs(now).close_motor
                &&& drained.tick(now).state() == WaterState::Off
                &&& now >= end + hold_ms ==> drained.tick(now).phase is Idle
            }
        }),
{
    let running = valve.turn_off(start).ticks(times);
    turn_off_timeline(valve, start, times, now);
    turn_off_timeline(valve, start, times, end);
    stays_turning_off(valve.turn_off(start), start, times);
    let closed = running.tick(end);
    if valve.timing.drain_secs > 0 {
        drain_timeline(closed, end, later, now);
    } else {
        if later.len() > 0 {
            assert(later[0] < end);
        }
    }
}

/// The reports of a valve: turning exactly while it is busy, and otherwise on
/// exactly where it rests open.
pub proof fn reports_fit_the_valve(valve: ValveModel)
    ensures
        valve.busy() <==> (valve.state() == WaterState::TurningOn || valve.state()
            == WaterState::TurningOff),
        valve.phase is Idle ==> (valve.state() == WaterState::On <==> valve.user_state),
        valve.phase is Idle ==> (valve.state() == WaterState::Off <==> !valve.user_state),
        valve.phase is Draining ==> valve.state() == WaterState::Off,
        valve.phase is TurningOn ==> valve.state() == WaterState::TurningOn,
        valve.phase is TurningOff ==> valve.state() == WaterState::TurningOff,
{
}

/// Commands start exactly the sequence that they name: a turn-on of a closed or
/// draining valve the opening one, a turn-off of an open one the closing one,
/// each from the time of the command on.
pub proof fn commands_start_their_sequence(valve: ValveModel, now: u64)
    ensures
        valve.phase is Idle && !valve.user_state ==> valve.turn_on(now).phase
            == (Phase::TurningOn { start_ms: now }),
        valve.phase is Draining ==> valve.turn_on(now).phase == (Phase::TurningOn {
            start_ms: now,
        }),
        valve.phase is Idle && valve.user_state ==> valve.turn_off(now).phase
            == (Phase::TurningOff { start_ms: now }),
        valve.phase is Draining ==> valve.turn_off(now) == valve,
        valve.turn_on(now).timing == valve.timing,
        valve.turn_off(now).timing == valve.timing,
        valve.turn_on(now).user_state == valve.user_state,
        valve.turn_off(now).user_state == valve.user_state,
{
}

/// The times of a valve are its seconds in milliseconds, and a sequence has a
/// second of rest before the motor runs and another one after it.
pub proof fn times_are_seconds_in_milliseconds(timing: ValveTiming)
    ensures
        timing.run() == 1_000 * timing.motor_run_secs,
        timing.hold() == 1_000 * timing.drain_secs,
        timing.sequence() == 1_000 + 1_000 * timing.motor_run_secs + 1_000,
{
}

/// A clock that reads less than when a sequence began counts as no time at all:
/// no motor runs and the sequence goes on, and a drain stays open.
pub proof fn time_before_the_start_does_not_count(valve: ValveModel, start: u64, now: u64)
    requires
        now <= start,
    ensures
        ({
            let opening = ValveModel { phase: Phase::TurningOn { start_ms: start }, ..valve };
            let closing = ValveModel { phase: Phase::TurningOff { start_ms: start }, ..valve };
            let draining = ValveModel { phase: Phase::Draining { start_ms: start }, ..valve };
            &&& !opening.outputs(now).open_motor && opening.tick(now) == opening
            &&& !closing.outputs(now).close_motor && !closing.outputs(now).drain && closing.tick(
                now,
            ) == closing
            &&& valve.timing.drain_secs > 0 ==> draining.outputs(now).drain && draining.tick(now)
                == draining
        }),
{
}

} // verus!
