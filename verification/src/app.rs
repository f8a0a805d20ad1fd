//! The controller as a whole: valve, sprinklers, flow alarm, configuration and
//! published state, driven by commands and by ticks.
//!
//! Pins, clocks and stores belong to the caller: a tick takes the monotonic
//! time and returns the wanted pin levels, and the position of the valve is
//! handed out when it is due to be stored.

use vstd::prelude::*;
use crate::api::{CommandOutcome, SwitchCommand};
use crate::config;
use crate::config::Config;
use crate::duration::Duration;
use crate::reading::Reading;
use crate::schedule;
use crate::schedule::{Action, LocalTime, Rule};
use crate::state;
use crate::state::{DeviceSnapshot, DeviceState, FlowAlarm, Switches, WaterControlState};
use crate::switch::{SwitchModel, TimedSwitch};
use crate::text;
use crate::traits::{NvsError, NvsStore};
use crate::water_valve;
use crate::water_valve::{ValveModel, ValveOutputs, WaterValve};

verus! {

/// Key under which the position of the valve is stored.
pub const NVS_VALVE_STATE: &'static str = "wc.valve";

/// Pin levels that a tick asks for.
#[derive(Debug, Clone, Copy, PartialEq, Eq, Structural)]
pub struct TickOutputs {
    pub sprinkler_1: bool,
    pub sprinkler_2: bool,
    pub valve: ValveOutputs,
}

impl Default for TickOutputs {
    fn default() -> (o: Self)
        ensures
            o == (TickOutputs {
                sprinkler_1: false,
                sprinkler_2: false,
                valve: ValveOutputs { open_motor: false, close_motor: false, drain: false },
            }),
    {
        TickOutputs { sprinkler_1: false, sprinkler_2: false, valve: ValveOutputs::default() }
    }
}

/// A configured auto-off time: zero seconds stand for none.
pub open spec fn auto_off(secs: u32) -> Option<Duration> {
    if secs == 0 {
        None
    } else {
        Some(Duration { millis: (secs * 1_000) as u128 })
    }
}

fn auto_off_or_none(secs: u32) -> (d: Option<Duration>)
    ensures
        d == auto_off(secs),
{
    if secs == 0 {
        None
    } else {
        Some(Duration::from_secs(secs as u64))
    }
}

/// Whole seconds in so many milliseconds; the count stops at the top of its
/// range.
pub open spec fn alarm_seconds(ms: int) -> u32 {
    if ms / 1_000 > u32::MAX {
        u32::MAX
    } else {
        (ms / 1_000) as u32
    }
}

/// The alarm, and when the high flow that it counts was first seen. What the
/// flow was before that look does not count.
pub struct AlarmModel {
    pub alarm: FlowAlarm,
    pub high_since: Option<u64>,
}

impl AlarmModel {
    /// No alarm and nothing counted.
    pub open spec fn clear() -> AlarmModel {
        AlarmModel { alarm: FlowAlarm { active: false, elapsed_secs: 0 }, high_since: None }
    }

    /// The alarm after it was looked at. `high` says that the flow is at or
    /// above the threshold while no sprinkler is on.
    pub open spec fn step(self, rule: config::FlowAlarmConfig, high: bool, now: u64) -> AlarmModel {
        if !rule.enabled {
            AlarmModel::clear()
        } else if high {
            let since = match self.high_since {
                Some(t) => t,
                None => now,
            };
            let seconds = alarm_seconds(water_valve::elapsed(now, since));
            AlarmModel {
                alarm: FlowAlarm {
                    active: self.alarm.active || seconds >= rule.duration_secs,
                    elapsed_secs: seconds,
                },
                high_since: Some(since),
            }
        } else {
            AlarmModel {
                alarm: FlowAlarm { active: self.alarm.active, elapsed_secs: 0 },
                high_since: None,
            }
        }
    }
}

/// Everything that the behaviour of the controller depends on.
pub struct AppModel {
    pub state: DeviceSnapshot,
    pub config: config::ConfigView,
    pub valve: ValveModel,
    pub sprinkler_1: SwitchModel,
    pub sprinkler_2: SwitchModel,
    /// There is a store for the position of the valve.
    pub persistent: bool,
    /// The position that the store held at the start.
    pub restored: Option<bool>,
    /// The position that the store holds, as far as it is known.
    pub last_persisted: Option<bool>,
    /// When the high flow that the alarm counts was first seen.
    pub high_since: Option<u64>,
}

impl AppModel {
    pub open spec fn command(self, now: u64, cmd: SwitchCommand) -> AppModel {
        match cmd {
            SwitchCommand::Sprinkler1 { on } => AppModel {
                sprinkler_1: if on {
                    self.sprinkler_1.turn_on(now, None)
                } else {
                    self.sprinkler_1.turn_off()
                },
                ..self
            },
            SwitchCommand::Sprinkler2 { on } => AppModel {
                sprinkler_2: if on {
                    self.sprinkler_2.turn_on(now, None)
                } else {
                    self.sprinkler_2.turn_off()
                },
                ..self
            },
            SwitchCommand::WaterControl { on } => AppModel {
                valve: if on {
                    self.valve.turn_on(now)
                } else {
                    self.valve.turn_off(now)
                },
                ..self
            },
        }
    }

    /// A command to the water control comes while the valve is busy.
    pub open spec fn refuses(self, cmd: SwitchCommand) -> bool {
        cmd is WaterControl && self.valve.busy()
    }

    /// A scheduled run of a sprinkler.
    pub open spec fn scheduled_run(
        self,
        now: u64,
        id: Seq<char>,
        duration_secs: Option<u32>,
    ) -> AppModel {
        let own = match duration_secs {
            Some(d) => Some(Duration { millis: (d * 1_000) as u128 }),
            None => None,
        };
        if id == "sprinkler_1"@ {
            AppModel { sprinkler_1: self.sprinkler_1.turn_on(now, own), ..self }
        } else if id == "sprinkler_2"@ {
            AppModel { sprinkler_2: self.sprinkler_2.turn_on(now, own), ..self }
        } else {
            self
        }
    }

    /// What a rule does when it fires.
    pub open spec fn fire(self, now: u64, rule: schedule::RuleView) -> AppModel {
        match rule.action {
            schedule::ActionView::Switch { id } => self.scheduled_run(now, id, rule.duration_secs),
            schedule::ActionView::WaterControl { on } => self.command(
                now,
                SwitchCommand::WaterControl { on },
            ),
        }
    }

    /// Rules that fire one after the other.
    pub open spec fn fire_all(self, now: u64, rules: Seq<schedule::RuleView>) -> AppModel
        decreases rules.len(),
    {
        if rules.len() == 0 {
            self
        } else {
            self.fire_all(now, rules.drop_last()).fire(now, rules.last())
        }
    }

    /// Timers and valve advanced, and the switches published.
    pub open spec fn advanced(self, now: u64) -> AppModel {
        let s1 = self.sprinkler_1.tick(now);
        let s2 = self.sprinkler_2.tick(now);
        let valve = self.valve.tick(now);
        AppModel {
            sprinkler_1: s1,
            sprinkler_2: s2,
            valve,
            state: DeviceSnapshot {
                switches: Switches {
                    sprinkler_1: s1.is_on(),
                    sprinkler_2: s2.is_on(),
                    water_control: state::control_state(valve.state()),
                },
                ..self.state
            },
            ..self
        }
    }

    /// The measured flow, where there is none a flow of zero.
    pub open spec fn flow(self) -> Reading {
        match self.state.sensors.flow_lph {
            Some(f) => f,
            None => Reading { bits: 0 },
        }
    }

    /// The flow is at or above the threshold and no sprinkler explains it.
    pub open spec fn high_flow(self) -> bool {
        !self.state.switches.sprinkler_1 && !self.state.switches.sprinkler_2
            && self.flow().reaches(self.config.flow_alarm.threshold_lph)
    }

    /// The alarm by itself.
    pub open spec fn alarm_model(self) -> AlarmModel {
        AlarmModel { alarm: self.state.alarm, high_since: self.high_since }
    }

    /// The alarm after it was looked at.
    pub open spec fn next_alarm(self, now: u64) -> AlarmModel {
        self.alarm_model().step(self.config.flow_alarm, self.high_flow(), now)
    }

    /// The alarm asks for the valve to be closed: it has just fired, or it is
    /// latched and the valve is open again.
    pub open spec fn alarm_closes(self, now: u64) -> bool {
        self.config.flow_alarm.enabled && if self.state.alarm.active {
            self.state.switches.water_control == WaterControlState::On
        } else {
            self.next_alarm(now).alarm.active
        }
    }

    /// The flow alarm looked at.
    pub open spec fn alarm_evaluated(self, now: u64) -> AppModel {
        AppModel {
            state: DeviceSnapshot { alarm: self.next_alarm(now).alarm, ..self.state },
            valve: if self.alarm_closes(now) {
                self.valve.turn_off(now)
            } else {
                self.valve
            },
            high_since: self.next_alarm(now).high_since,
            ..self
        }
    }

    pub open spec fn tick(self, now: u64) -> AppModel {
        self.advanced(now).alarm_evaluated(now)
    }

    /// One tick after the other.
    pub open spec fn ticks(self, times: Seq<u64>) -> AppModel
        decreases times.len(),
    {
        if times.len() == 0 {
            self
        } else {
            self.ticks(times.drop_last()).tick(times.last())
        }
    }

    pub open spec fn outputs(self, now: u64) -> TickOutputs {
        TickOutputs {
            sprinkler_1: self.sprinkler_1.tick(now).is_on(),
            sprinkler_2: self.sprinkler_2.tick(now).is_on(),
            valve: self.valve.outputs(now),
        }
    }

    /// The model with another configuration. Timers and valve get their new times.
    pub open spec fn configured(self, cfg: config::ConfigView) -> AppModel {
        AppModel {
            config: cfg,
            sprinkler_1: SwitchModel {
                auto_off: auto_off(cfg.switches.sprinkler_1_auto_off_secs),
                ..self.sprinkler_1
            },
            sprinkler_2: SwitchModel {
                auto_off: auto_off(cfg.switches.sprinkler_2_auto_off_secs),
                ..self.sprinkler_2
            },
            valve: ValveModel { timing: cfg.switches.valve_timing, ..self.valve },
            ..self
        }
    }

    /// The model without its alarm.
    pub open spec fn alarm_cleared(self) -> AppModel {
        AppModel {
            state: DeviceSnapshot {
                alarm: FlowAlarm { active: false, elapsed_secs: 0 },
                ..self.state
            },
            high_since: None,
            ..self
        }
    }

    /// The byte to store, where the store does not hold the position yet.
    pub open spec fn due_write(self) -> Option<u8> {
        if self.persistent && self.last_persisted != Some(self.valve.user_state) {
            Some(if self.valve.user_state { 1u8 } else { 0u8 })
        } else {
            None
        }
    }

    /// The store holds the current position.
    pub open spec fn stored(self) -> AppModel {
        AppModel { last_persisted: Some(self.valve.user_state), ..self }
    }
}

/// A rule that has fired.
#[derive(Debug, PartialEq)]
pub struct FiredRule {
    pub rule: Rule,
    /// The rule names a switch that exists, or drives the water control.
    pub known: bool,
}

/// Fired rules by the views of the rules.
pub open spec fn fired_views(fired: Seq<FiredRule>) -> Seq<schedule::RuleView> {
    Seq::new(fired.len(), |i: int| fired[i].rule@)
}

/// The rule can be carried out.
pub open spec fn is_known(action: schedule::ActionView) -> bool {
    match action {
        schedule::ActionView::Switch { id } => id == "sprinkler_1"@ || id == "sprinkler_2"@,
        schedule::ActionView::WaterControl { .. } => true,
    }
}

pub struct App {
    state: DeviceState,
    config: Config,
    valve: WaterValve,
    sprinkler_1: TimedSwitch,
    sprinkler_2: TimedSwitch,
    persistent: bool,
    restored: Option<bool>,
    last_persisted: Option<bool>,
    high_since: Option<u64>,
}

impl View for App {
    type V = AppModel;

    closed spec fn view(&self) -> AppModel {
        AppModel {
            state: self.state@,
            config: self.config@,
            valve: self.valve@,
            sprinkler_1: self.sprinkler_1@,
            sprinkler_2: self.sprinkler_2@,
            persistent: self.persistent,
            restored: self.restored,
            last_persisted: self.last_persisted,
            high_since: self.high_since,
        }
    }
}

/// The position that a stored value stands for: its first byte, if any.
pub open spec fn stored_position(stored: Option<Seq<u8>>) -> Option<bool> {
    match stored {
        Some(b) => if b.len() > 0 {
            Some(b[0] != 0)
        } else {
            None
        },
        None => None,
    }
}

/// A controller that has just started: all off, with a position restored.
pub open spec fn started(
    m: AppModel,
    config: config::ConfigView,
    persistent: bool,
    restored: Option<bool>,
) -> bool {
    &&& m.state.is_fresh()
    &&& m == (AppModel {
        state: m.state,
        config,
        valve: ValveModel {
            phase: water_valve::Phase::Idle,
            user_state: restored == Some(true),
            timing: config.switches.valve_timing,
        },
        sprinkler_1: SwitchModel {
            active: None,
            auto_off: auto_off(config.switches.sprinkler_1_auto_off_secs),
        },
        sprinkler_2: SwitchModel {
            active: None,
            auto_off: auto_off(config.switches.sprinkler_2_auto_off_secs),
        },
        persistent,
        restored,
        last_persisted: restored,
        high_since: None,
    })
}

impl App {
    /// A controller without a store.
    pub fn new(config: Config) -> (app: Self)
        ensures
            started(app@, config@, false, None),
    {
        App::build(config, false, None)
    }

    /// A controller with a store, and what the store holds for the valve.
    pub fn with_nvs(config: Config, stored: Option<Vec<u8>>) -> (app: Self)
        ensures
            started(
                app@,
                config@,
                true,
                stored_position(
                    match stored {
                        Some(b) => Some(b@),
                        None => None,
                    },
                ),
            ),
    {
        let restored = match &stored {
            Some(b) => if b.len() > 0 {
                Some(b[0] != 0)
            } else {
                None
            },
            None => None,
        };
        App::build(config, true, restored)
    }

    fn build(config: Config, persistent: bool, restored: Option<bool>) -> (app: Self)
        ensures
            started(app@, config@, persistent, restored),
    {
        let sprinkler_1 = TimedSwitch::new(
            auto_off_or_none(config.switches.sprinkler_1_auto_off_secs),
        );
        let sprinkler_2 = TimedSwitch::new(
            auto_off_or_none(config.switches.sprinkler_2_auto_off_secs),
        );
        let mut valve = WaterValve::with_timing(config.switches.valve_timing);
        if let Some(on) = restored {
            valve.restore(on);
        }
        App {
            state: DeviceState::new(),
            config,
            valve,
            sprinkler_1,
            sprinkler_2,
            persistent,
            restored,
            last_persisted: restored,
            high_since: None,
        }
    }

    /// The position that was restored at the start; nothing on a device whose
    /// store held none.
    pub fn restored_valve_state(&self) -> (r: Option<bool>)
        ensures
            r == self@.restored,
    {
        self.restored
    }

    pub fn snapshot(&self) -> (s: DeviceSnapshot)
        ensures
            s == self@.state,
    {
        self.state.snapshot()
    }

    /// The published state, to be written to.
    pub fn update_state(&mut self) -> (s: &mut DeviceSnapshot)
        ensures
            *s == old(self)@.state,
            final(self)@ == (AppModel { state: *final(s), ..old(self)@ }),
    {
        self.state.update()
    }

    pub fn config(&self) -> (c: &Config)
        ensures
            c@ == self@.config,
    {
        &self.config
    }

    /// Replaces the configuration; timers and valve get their new times at once.
    pub fn replace_config(&mut self, cfg: Config)
        ensures
            final(self)@ == old(self)@.configured(cfg@),
    {
        self.sprinkler_1.set_auto_off(auto_off_or_none(cfg.switches.sprinkler_1_auto_off_secs));
        self.sprinkler_2.set_auto_off(auto_off_or_none(cfg.switches.sprinkler_2_auto_off_secs));
        self.valve.set_timing(cfg.switches.valve_timing);
        self.config = cfg;
    }

    /// Starts a scheduled run, with an auto-off time of its own or with the
    /// configured one. False where there is no such switch.
    pub fn fire_schedule_sprinkler(
        &mut self,
        now_ms: u64,
        id: &str,
        duration_secs: Option<u32>,
    ) -> (known: bool)
        ensures
            known == (id@ == "sprinkler_1"@ || id@ == "sprinkler_2"@),
            final(self)@ == old(self)@.scheduled_run(now_ms, id@, duration_secs),
    {
        if text::same(id, "sprinkler_1") {
            match duration_secs {
                Some(d) => self.sprinkler_1.turn_on_for(now_ms, Duration::from_secs(d as u64)),
                None => self.sprinkler_1.turn_on(now_ms),
            }
            true
        } else if text::same(id, "sprinkler_2") {
            match duration_secs {
                Some(d) => self.sprinkler_2.turn_on_for(now_ms, Duration::from_secs(d as u64)),
                None => self.sprinkler_2.turn_on(now_ms),
            }
            true
        } else {
            false
        }
    }

    /// Carries out a rule. False where it names a switch that does not exist.
    pub fn fire_rule(&mut self, now_ms: u64, rule: &Rule) -> (known: bool)
        ensures
            known == is_known(rule.action@),
            final(self)@ == old(self)@.fire(now_ms, rule@),
    {
        match &rule.action {
            Action::Switch { id } => self.fire_schedule_sprinkler(
                now_ms,
                id.as_str(),
                rule.duration_secs,
            ),
            Action::WaterControl { on } => {
                let _ = self.switch_command(now_ms, SwitchCommand::WaterControl { on: *on });
                true
            },
        }
    }

    /// Carries out every rule that fell due since the last evaluation, and
    /// lists them.
    pub fn run_schedule(&mut self, now_ms: u64, last: LocalTime, now: LocalTime) -> (fired: Vec<
        FiredRule,
    >)
        ensures
            fired_views(fired@) == schedule::fired(
                old(self)@.config.schedule,
                last.minute_index() + 1,
                schedule::window_end(last.minute_index(), now.minute_index()),
            ),
            forall|i: int|
                0 <= i < fired@.len() ==> (#[trigger] fired@[i]).known == is_known(
                    fired@[i].rule.action@,
                ),
            final(self)@ == old(self)@.fire_all(now_ms, fired_views(fired@)),
    {
        let rules = self.config.schedule.clone();
        let hits: Vec<&Rule> = rules.evaluate_range(last, now);
        let ghost views = schedule::rule_views(hits@);
        let mut fired: Vec<FiredRule> = Vec::new();
        let mut i: usize = 0;
        assert(views.take(0) =~= Seq::<schedule::RuleView>::empty());
        assert(fired_views(fired@) =~= views.take(0));
        while i < hits.len()
            invariant
                i <= hits@.len(),
                views == schedule::rule_views(hits@),
                fired@.len() == i,
                fired_views(fired@) == views.take(i as int),
                forall|j: int|
                    0 <= j < i ==> (#[trigger] fired@[j]).known == is_known(
                        fired@[j].rule.action@,
                    ),
                self@ == old(self)@.fire_all(now_ms, views.take(i as int)),
            decreases hits@.len() - i,
        {
            let rule = hits[i];
            let ghost before = fired@;
            let known = self.fire_rule(now_ms, rule);
            let copy = rule.clone();
            fired.push(FiredRule { rule: copy, known });
            proof {
                assert(views[i as int] == rule@);
                assert(views.take(i + 1).drop_last() =~= views.take(i as int));
                assert(views.take(i + 1).last() == rule@);
                assert(fired_views(fired@) =~= fired_views(before).push(rule@));
                assert(views.take(i + 1) =~= views.take(i as int).push(rule@));
            }
            i += 1;
        }
        assert(views.take(views.len() as int) =~= views);
        fired
    }

    /// Carries out a command. A command to the water control is refused while
    /// the valve is in the middle of a sequence.
    pub fn switch_command(&mut self, now_ms: u64, cmd: SwitchCommand) -> (outcome: CommandOutcome)
        ensures
            old(self)@.refuses(cmd) ==> final(self)@ == old(self)@ && outcome is Busy
                && outcome->reason@ == "valve sequence in progress"@,
            !old(self)@.refuses(cmd) ==> outcome is Accepted,
            final(self)@ == old(self)@.command(now_ms, cmd),
    {
        match cmd {
            SwitchCommand::Sprinkler1 { on } => {
                if on {
                    self.sprinkler_1.turn_on(now_ms);
                } else {
                    self.sprinkler_1.turn_off(now_ms);
                }
                CommandOutcome::Accepted
            },
            SwitchCommand::Sprinkler2 { on } => {
                if on {
                    self.sprinkler_2.turn_on(now_ms);
                } else {
                    self.sprinkler_2.turn_off(now_ms);
                }
                CommandOutcome::Accepted
            },
            SwitchCommand::WaterControl { on } => {
                if self.valve.is_busy() {
                    return CommandOutcome::Busy {
                        reason: "valve sequence in progress".to_owned(),
                    };
                }
                if on {
                    self.valve.turn_on(now_ms);
                } else {
                    self.valve.turn_off(now_ms);
                }
                CommandOutcome::Accepted
            },
        }
    }

    /// Advances everything to `now_ms`, publishes the switches, looks at the
    /// flow alarm, and returns the wanted pin levels.
    pub fn tick(&mut self, now_ms: u64) -> (outputs: TickOutputs)
        ensures
            outputs == old(self)@.outputs(now_ms),
            final(self)@ == old(self)@.tick(now_ms),
    {
        self.sprinkler_1.tick(now_ms);
        self.sprinkler_2.tick(now_ms);
        let valve = self.valve.tick(now_ms);
        let switches = Switches {
            sprinkler_1: self.sprinkler_1.is_on(),
            sprinkler_2: self.sprinkler_2.is_on(),
            water_control: WaterControlState::from(self.valve.state()),
        };
        self.state.update().switches = switches;
        assert(self@ == old(self)@.advanced(now_ms));
        self.evaluate_flow_alarm(now_ms);
        TickOutputs {
            sprinkler_1: switches.sprinkler_1,
            sprinkler_2: switches.sprinkler_2,
            valve,
        }
    }

    /// Looks at the flow alarm. High flow is timed from the look at which it was
    /// first seen, while no sprinkler is on; once that time reaches the
    /// configured one the alarm latches and the valve is closed, and is closed
    /// again whenever it is found open.
    fn evaluate_flow_alarm(&mut self, now_ms: u64)
        ensures
            final(self)@ == old(self)@.alarm_evaluated(now_ms),
    {
        let rule = self.config.flow_alarm;
        let snap = self.state.snapshot();
        if !rule.enabled {
            self.high_since = None;
            self.state.update().alarm = FlowAlarm { active: false, elapsed_secs: 0 };
            return;
        }
        let any_sprinkler_on = snap.switches.sprinkler_1 || snap.switches.sprinkler_2;
        let flow = match snap.sensors.flow_lph {
            Some(f) => f,
            None => Reading { bits: 0 },
        };
        let high = flow.at_least(&rule.threshold_lph) && !any_sprinkler_on;
        let mut seconds: u32 = 0;
        if high {
            let since: u64 = match self.high_since {
                Some(t) => t,
                None => now_ms,
            };
            let whole: u64 = now_ms.saturating_sub(since) / 1_000;
            seconds = if whole > u32::MAX as u64 {
                u32::MAX
            } else {
                whole as u32
            };
            self.high_since = Some(since);
        } else {
            self.high_since = None;
        }
        let just_fired = !snap.alarm.active && high && seconds >= rule.duration_secs;
        self.state.update().alarm = FlowAlarm {
            active: snap.alarm.active || just_fired,
            elapsed_secs: seconds,
        };
        let reopened = match snap.switches.water_control {
            WaterControlState::On => true,
            _ => false,
        };
        if just_fired || (snap.alarm.active && reopened) {
            let _ = self.switch_command(now_ms, SwitchCommand::WaterControl { on: false });
        }
    }

    /// Clears the latched alarm and its count.
    pub fn clear_flow_alarm(&mut self)
        ensures
            final(self)@ == old(self)@.alarm_cleared(),
    {
        self.high_since = None;
        self.state.update().alarm = FlowAlarm { active: false, elapsed_secs: 0 };
    }

    /// The byte to store under [`NVS_VALVE_STATE`], if one is due.
    pub fn valve_write_due(&self) -> (byte: Option<u8>)
        ensures
            byte == self@.due_write(),
    {
        let on = self.valve.user_state();
        let known = match self.last_persisted {
            Some(last) => last == on,
            None => false,
        };
        if self.persistent && !known {
            Some(if on { 1 } else { 0 })
        } else {
            None
        }
    }

    /// Takes note of how storing the byte went. After a failure the byte stays due.
    pub fn valve_written(&mut self, ok: bool)
        ensures
            final(self)@ == (if ok { old(self)@.stored() } else { old(self)@ }),
    {
        if ok {
            self.last_persisted = Some(self.valve.user_state());
        }
    }

    /// Stores the position of the valve where that is due: the store is handed
    /// the byte under [`NVS_VALVE_STATE`], and the note of what it holds changes
    /// exactly where it accepts the byte.
    pub fn persist_valve<N: NvsStore>(&mut self, nvs: &N)
        ensures
            old(self)@.due_write() is None ==> final(self)@ == old(self)@,
            old(self)@.due_write() matches Some(byte) ==> exists|
                value: &[u8],
                answer: Result<(), NvsError>,
            |
                {
                    &&& #[trigger] call_ensures(N::set, (nvs, NVS_VALVE_STATE, value), answer)
                    &&& value@ == seq![byte]
                    &&& final(self)@ == (if answer is Ok { old(self)@.stored() } else { old(self)@ })
                },
    {
        if let Some(byte) = self.valve_write_due() {
            let bytes: [u8; 1] = [byte];
            let value: &[u8] = &bytes;
            let answer = nvs.set(NVS_VALVE_STATE, value);
            assert(value@ =~= seq![byte]);
            assert(call_ensures(N::set, (nvs, NVS_VALVE_STATE, value), answer));
            self.valve_written(answer.is_ok());
        }
    }
}

/// Once it has fired, the alarm stays through every tick, whatever the flow
/// and the switches do, as long as it is enabled.
pub proof fn alarm_latches(m: AppModel, now: u64)
    requires
        m.config.flow_alarm.enabled,
        m.state.alarm.active,
    ensures
        m.tick(now).state.alarm.active,
{
}

/// A disabled alarm is reset by the next tick.
pub proof fn disabled_alarm_resets(m: AppModel, now: u64)
    requires
        !m.config.flow_alarm.enabled,
    ensures
        m.tick(now).state.alarm == (FlowAlarm { active: false, elapsed_secs: 0 }),
{
}

/// The alarm fires only on flow at or above the threshold while no sprinkler
/// is on; and while a sprinkler is on, or the flow is below, the count is zero.
pub proof fn alarm_needs_unexplained_flow(m: AppModel, now: u64)
    requires
        m.config.flow_alarm.enabled,
        !m.state.alarm.active,
    ensures
        m.tick(now).state.alarm.active ==> !m.outputs(now).sprinkler_1 && !m.outputs(
            now,
        ).sprinkler_2 && m.flow().reaches(m.config.flow_alarm.threshold_lph),
        m.outputs(now).sprinkler_1 || m.outputs(now).sprinkler_2 || !m.flow().reaches(
            m.config.flow_alarm.threshold_lph,
        ) ==> m.tick(now).state.alarm.elapsed_secs == 0,
{
}

/// Sustained high flow, ticked at whatever times: the count is the whole
/// seconds since the look at which it was first seen, and the alarm is active
/// from the tick at which they reach the configured time. The count stops at
/// the top of its range.
pub proof fn sustained_flow_fires(m: AppModel, times: Seq<u64>)
    requires
        m.config.flow_alarm.enabled,
        !m.state.alarm.active,
        m.high_since is None,
        !m.sprinkler_1.is_on(),
        !m.sprinkler_2.is_on(),
        m.flow().reaches(m.config.flow_alarm.threshold_lph),
        times.len() > 0,
        forall|i: int, j: int| 0 <= i <= j < times.len() ==> times[i] <= times[j],
    ensures
        m.ticks(times).state.alarm.elapsed_secs == alarm_seconds(times.last() - times[0]),
        m.ticks(times).state.alarm.active == (m.ticks(times).state.alarm.elapsed_secs
            >= m.config.flow_alarm.duration_secs),
{
    unexplained_flow_counts(m, times);
}

/// What ticks in high flow leave alone, and what they count.
proof fn unexplained_flow_counts(m: AppModel, times: Seq<u64>)
    requires
        m.config.flow_alarm.enabled,
        !m.state.alarm.active,
        m.high_since is None,
        !m.sprinkler_1.is_on(),
        !m.sprinkler_2.is_on(),
        m.flow().reaches(m.config.flow_alarm.threshold_lph),
        times.len() > 0,
        forall|i: int, j: int| 0 <= i <= j < times.len() ==> times[i] <= times[j],
    ensures
        ({
            let after = m.ticks(times);
            &&& after.config == m.config
            &&& !after.sprinkler_1.is_on()
            &&& !after.sprinkler_2.is_on()
            &&& after.flow() == m.flow()
            &&& after.high_since == Some(times[0])
            &&& after.state.alarm.elapsed_secs == alarm_seconds(times.last() - times[0])
            &&& after.state.alarm.active == (after.state.alarm.elapsed_secs
                >= m.config.flow_alarm.duration_secs)
        }),
    decreases times.len(),
{
    let before = times.drop_last();
    assert(m.ticks(times) == m.ticks(before).tick(times.last()));
    if times.len() > 1 {
        assert(before.last() == times[times.len() - 2]);
        assert(before[0] == times[0]);
        assert(times.last() == times[times.len() - 1]);
        unexplained_flow_counts(m, before);
    } else {
        assert(m.ticks(before) == m);
    }
}

/// A tick at which the flow was seen high while no sprinkler was on.
pub open spec fn seen_high(m: AppModel, now: u64) -> bool {
    m.advanced(now).high_flow()
}

/// The looks from the one at `a` to the one at `b` all saw high flow, and they
/// span the configured time.
pub open spec fn sustained(
    looks: Seq<(AppModel, u64)>,
    rule: config::FlowAlarmConfig,
    a: int,
    b: int,
) -> bool {
    &&& 0 <= a <= b < looks.len()
    &&& forall|k: int|
        a <= k <= b ==> seen_high((#[trigger] looks[k]).0, looks[k].1)
    &&& looks[b].1 - looks[a].1 >= rule.duration_secs * 1_000
}

/// A run of ticks, each given by the controller before it and its time. Between
/// two ticks anything may happen to the controller that leaves the alarm alone.
pub open spec fn ticked(looks: Seq<(AppModel, u64)>, rule: config::FlowAlarmConfig) -> bool {
    &&& forall|k: int| 0 <= k < looks.len() ==> (#[trigger] looks[k]).0.config.flow_alarm == rule
    &&& forall|j: int, k: int|
        0 <= j <= k < looks.len() ==> (#[trigger] looks[j]).1 <= (#[trigger] looks[k]).1
    &&& forall|j: int, k: int|
        0 <= j < looks.len() && k == j + 1 && k < looks.len() ==> (
        #[trigger] looks[k]).0.alarm_model() == (#[trigger] looks[j]).0.tick(
            looks[j].1,
        ).alarm_model()
}

/// The alarm fires exactly where high flow has been seen without a break, with
/// no sprinkler on, for the configured time: after a run of ticks that began
/// without an alarm it is active if and only if the run holds such a stretch.
/// Only what was seen counts: a stretch begins with its first look at high flow.
pub proof fn alarm_fires_exactly_on_sustained_flow(
    looks: Seq<(AppModel, u64)>,
    rule: config::FlowAlarmConfig,
)
    requires
        rule.enabled,
        looks.len() > 0,
        looks[0].0.alarm_model() == AlarmModel::clear(),
        ticked(looks, rule),
    ensures
        looks.last().0.tick(looks.last().1).state.alarm.active <==> exists|a: int, b: int|
            sustained(looks, rule, a, b),
{
    let h = Seq::new(looks.len(), |k: int| (seen_high(looks[k].0, looks[k].1), looks[k].1));
    run_is_looks(looks, rule, h);
    run_so_far(h, rule);
    assert forall|a: int, b: int| sustained(looks, rule, a, b) == #[trigger] stretch(
        h,
        rule,
        a,
        b,
    ) by {
        if sustained(looks, rule, a, b) {
            assert forall|k: int| a <= k <= b implies (#[trigger] h[k]).0 by {
                assert(seen_high(looks[k].0, looks[k].1));
            }
        }
        if stretch(h, rule, a, b) {
            assert forall|k: int| a <= k <= b implies seen_high(
                (#[trigger] looks[k]).0,
                looks[k].1,
            ) by {
                assert(h[k].0);
            }
        }
    }
    let after = run(h, rule).alarm;
    if after.active {
        let (a, b) = choose|a: int, b: int| stretch(h, rule, a, b);
        assert(sustained(looks, rule, a, b));
    }
    if exists|a: int, b: int| sustained(looks, rule, a, b) {
        let (a, b) = choose|a: int, b: int| sustained(looks, rule, a, b);
        assert(stretch(h, rule, a, b));
    }
}

/// The alarm after looks at given times, each of which saw high flow or not.
spec fn run(h: Seq<(bool, u64)>, rule: config::FlowAlarmConfig) -> AlarmModel
    decreases h.len(),
{
    if h.len() == 0 {
        AlarmModel::clear()
    } else {
        run(h.drop_last(), rule).step(rule, h.last().0, h.last().1)
    }
}

spec fn stretch(h: Seq<(bool, u64)>, rule: config::FlowAlarmConfig, a: int, b: int) -> bool {
    &&& 0 <= a <= b < h.len()
    &&& forall|k: int| a <= k <= b ==> (#[trigger] h[k]).0
    &&& h[b].1 - h[a].1 >= rule.duration_secs * 1_000
}

proof fn run_is_looks(
    looks: Seq<(AppModel, u64)>,
    rule: config::FlowAlarmConfig,
    h: Seq<(bool, u64)>,
)
    requires
        looks.len() > 0,
        looks[0].0.alarm_model() == AlarmModel::clear(),
        ticked(looks, rule),
        h == Seq::new(looks.len(), |k: int| (seen_high(looks[k].0, looks[k].1), looks[k].1)),
    ensures
        looks.last().0.tick(looks.last().1).alarm_model() == run(h, rule),
    decreases looks.len(),
{
    let n = looks.len() - 1;
    let m = looks[n].0;
    assert(m.config.flow_alarm == rule);
    assert(m.tick(looks[n].1).alarm_model() == m.alarm_model().step(
        rule,
        seen_high(m, looks[n].1),
        looks[n].1,
    ));
    assert(h.last() == (seen_high(m, looks[n].1), looks[n].1));
    if n > 0 {
        let before = looks.drop_last();
        assert(ticked(before, rule)) by {
            assert forall|k: int| 0 <= k < before.len() implies (
            #[trigger] before[k]).0.config.flow_alarm == rule by {
                assert(before[k] == looks[k]);
            }
            assert forall|j: int, k: int| 0 <= j <= k < before.len() implies (
            #[trigger] before[j]).1 <= (#[trigger] before[k]).1 by {
                assert(before[j] == looks[j] && before[k] == looks[k]);
            }
            assert forall|j: int, k: int|
                0 <= j < before.len() && k == j + 1 && k < before.len() implies (
            #[trigger] before[k]).0.alarm_model() == (#[trigger] before[j]).0.tick(
                before[j].1,
            ).alarm_model() by {
                assert(before[j] == looks[j] && before[k] == looks[k]);
            }
        }
        assert(h.drop_last() =~= Seq::new(
            before.len(),
            |k: int| (seen_high(before[k].0, before[k].1), before[k].1),
        ));
        run_is_looks(before, rule, h.drop_last());
        assert(before.last() == looks[n - 1]);
        assert(looks[n].0.alarm_model() == looks[n - 1].0.tick(looks[n - 1].1).alarm_model());
    } else {
        assert(run(h.drop_last(), rule) == AlarmModel::clear());
    }
}

/// Where the stretch begins that a run ends with.
spec fn begins(h: Seq<(bool, u64)>, a: int) -> bool {
    &&& 0 <= a < h.len()
    &&& forall|k: int| a <= k < h.len() ==> (#[trigger] h[k]).0
    &&& a > 0 ==> !h[a - 1].0
}

/// After a run the alarm is active where a stretch was long enough, and times
/// the stretch that the run ends with.
proof fn run_so_far(h: Seq<(bool, u64)>, rule: config::FlowAlarmConfig)
    requires
        rule.enabled,
        forall|j: int, k: int| 0 <= j <= k < h.len() ==> (#[trigger] h[j]).1 <= (#[trigger] h[k]).1,
    ensures
        run(h, rule).alarm.active <==> exists|a: int, b: int| stretch(h, rule, a, b),
        run(h, rule).high_since is Some == (h.len() > 0 && h.last().0),
        run(h, rule).high_since matches Some(t) ==> exists|a: int| #[trigger]
            begins(h, a) && h[a].1 == t,
    decreases h.len(),
{
    if h.len() > 0 {
        let n = h.len() - 1;
        let before = h.drop_last();
        let earlier = run(before, rule);
        assert forall|j: int, k: int| 0 <= j <= k < before.len() implies (#[trigger] before[j]).1
            <= (#[trigger] before[k]).1 by {
            assert(before[j] == h[j] && before[k] == h[k]);
        }
        run_so_far(before, rule);
        assert forall|a: int, b: int| b < n implies #[trigger] stretch(h, rule, a, b) == stretch(
            before,
            rule,
            a,
            b,
        ) by {
            shorter_run(h, rule, a, b);
        }
        if h[n].0 {
            let first = if earlier.high_since is Some {
                let a = choose|a: int| #[trigger]
                    begins(before, a) && before[a].1 == earlier.high_since->0;
                assert(begins(h, a)) by {
                    assert forall|k: int| a <= k < h.len() implies (#[trigger] h[k]).0 by {
                        if k < n {
                            assert(before[k] == h[k]);
                        }
                    }
                    if a > 0 {
                        assert(before[a - 1] == h[a - 1]);
                    }
                }
                a
            } else {
                assert(begins(h, n)) by {
                    if n > 0 {
                        assert(before.last() == h[n - 1]);
                    }
                }
                n
            };
            assert(begins(h, first) && run(h, rule).high_since == Some(h[first].1));
            last_stretch(h, rule, first);
        }
        active_or_earlier(h, rule);
    }
}

proof fn shorter_run(h: Seq<(bool, u64)>, rule: config::FlowAlarmConfig, a: int, b: int)
    requires
        h.len() > 0,
        b < h.len() - 1,
    ensures
        stretch(h, rule, a, b) == stretch(h.drop_last(), rule, a, b),
{
    let before = h.drop_last();
    if stretch(h, rule, a, b) {
        assert forall|k: int| a <= k <= b implies (#[trigger] before[k]).0 by {
            assert(before[k] == h[k]);
        }
    }
    if stretch(before, rule, a, b) {
        assert forall|k: int| a <= k <= b implies (#[trigger] h[k]).0 by {
            assert(before[k] == h[k]);
        }
    }
}

/// A long enough stretch lies in the earlier looks, or it ends with the last.
proof fn active_or_earlier(h: Seq<(bool, u64)>, rule: config::FlowAlarmConfig)
    requires
        h.len() > 0,
    ensures
        (exists|a: int, b: int| stretch(h, rule, a, b)) <==> ((exists|a: int, b: int|
            stretch(h.drop_last(), rule, a, b)) || (exists|a: int| #[trigger]
            stretch(h, rule, a, h.len() - 1))),
        (exists|a: int| #[trigger] stretch(h, rule, a, h.len() - 1)) ==> h.last().0,
{
    let n = h.len() - 1;
    if exists|a: int, b: int| stretch(h, rule, a, b) {
        let (a, b) = choose|a: int, b: int| stretch(h, rule, a, b);
        if b < n {
            shorter_run(h, rule, a, b);
            assert(stretch(h.drop_last(), rule, a, b));
        } else {
            assert(stretch(h, rule, a, n));
        }
    }
    if exists|a: int, b: int| stretch(h.drop_last(), rule, a, b) {
        let (a, b) = choose|a: int, b: int| stretch(h.drop_last(), rule, a, b);
        shorter_run(h, rule, a, b);
        assert(stretch(h, rule, a, b));
    }
    if exists|a: int| #[trigger] stretch(h, rule, a, n) {
        let a = choose|a: int| #[trigger] stretch(h, rule, a, n);
        assert(h[n].0);
    }
}

/// Of the stretches that end with the last look, the one that begins where the
/// high flow was first seen is the longest.
proof fn last_stretch(h: Seq<(bool, u64)>, rule: config::FlowAlarmConfig, first: int)
    requires
        begins(h, first),
        forall|j: int, k: int| 0 <= j <= k < h.len() ==> (#[trigger] h[j]).1 <= (#[trigger] h[k]).1,
    ensures
        (exists|a: int| #[trigger] stretch(h, rule, a, h.len() - 1)) <==> alarm_seconds(
            h.last().1 - h[first].1,
        ) >= rule.duration_secs,
{
    let n = h.len() - 1;
    assert(h[first].1 <= h[n].1);
    if alarm_seconds(h[n].1 - h[first].1) >= rule.duration_secs {
        assert(stretch(h, rule, first, n));
    }
    if exists|a: int| #[trigger] stretch(h, rule, a, n) {
        let a = choose|a: int| #[trigger] stretch(h, rule, a, n);
        if a < first {
            assert(h[first - 1].0);
        }
        assert(h[first].1 <= h[a].1);
    }
}

/// New readings, commands, scheduled runs and a new position in the store leave
/// the alarm alone; a clear resets it.
pub proof fn alarm_is_left_alone_between_ticks(
    m: AppModel,
    now: u64,
    cmd: SwitchCommand,
    rule: schedule::RuleView,
    sensors: state::Sensors,
)
    ensures
        (AppModel { state: DeviceSnapshot { sensors, ..m.state }, ..m }).alarm_model()
            == m.alarm_model(),
        m.command(now, cmd).alarm_model() == m.alarm_model(),
        m.fire(now, rule).alarm_model() == m.alarm_model(),
        m.stored().alarm_model() == m.alarm_model(),
        m.alarm_cleared().alarm_model() == AlarmModel::clear(),
{
}

/// A valve that rests open begins to close in the very tick in which the alarm
/// fires, and in every tick in which a latched alarm finds it open.
pub proof fn alarm_closes_the_valve(m: AppModel, now: u64)
    requires
        m.config.flow_alarm.enabled,
        m.valve.phase is Idle,
        m.valve.user_state,
        m.tick(now).state.alarm.active,
    ensures
        m.tick(now).valve.state() == water_valve::WaterState::TurningOff,
{
}

/// A refused command changes nothing at all.
pub proof fn refused_command_changes_nothing(m: AppModel, now: u64, cmd: SwitchCommand)
    requires
        m.refuses(cmd),
    ensures
        m.command(now, cmd) == m,
{
}

/// Commands to one output leave the others alone.
pub proof fn commands_are_separate(m: AppModel, now: u64, cmd: SwitchCommand)
    ensures
        !(cmd is Sprinkler1) ==> m.command(now, cmd).sprinkler_1 == m.sprinkler_1,
        !(cmd is Sprinkler2) ==> m.command(now, cmd).sprinkler_2 == m.sprinkler_2,
        !(cmd is WaterControl) ==> m.command(now, cmd).valve == m.valve,
        m.command(now, cmd).config == m.config,
        m.command(now, cmd).state == m.state,
{
}

/// Whatever commands and ticks came before, the pins of the valve are never on
/// together.
pub proof fn pins_are_exclusive(m: AppModel, now: u64)
    ensures
        !(m.outputs(now).valve.open_motor && m.outputs(now).valve.close_motor),
        !(m.outputs(now).valve.drain && (m.outputs(now).valve.open_motor || m.outputs(
            now,
        ).valve.close_motor)),
{
    water_valve::outputs_are_exclusive(m.valve, now);
}

/// The published switches are the pin levels that the same tick asks for.
pub proof fn published_switches_match_pins(m: AppModel, now: u64)
    ensures
        m.tick(now).state.switches.sprinkler_1 == m.outputs(now).sprinkler_1,
        m.tick(now).state.switches.sprinkler_2 == m.outputs(now).sprinkler_2,
{
}

/// The stored byte brings the position back: a controller started on what was
/// written has the position that the old one had, and nothing to write.
pub proof fn position_survives_restart(m: AppModel, fresh: AppModel, config: config::ConfigView)
    requires
        m.due_write() is Some,
        started(fresh, config, true, stored_position(Some(seq![m.due_write()->0]))),
    ensures
        fresh.valve.user_state == m.valve.user_state,
        fresh.last_persisted == Some(m.valve.user_state),
        fresh.due_write() is None,
{
}

/// What was restored at the start stays what it was, whatever comes after.
pub proof fn restored_position_stays(
    m: AppModel,
    now: u64,
    cmd: SwitchCommand,
    rule: schedule::RuleView,
    cfg: config::ConfigView,
)
    ensures
        m.tick(now).restored == m.restored,
        m.command(now, cmd).restored == m.restored,
        m.fire(now, rule).restored == m.restored,
        m.stored().restored == m.restored,
        m.configured(cfg).restored == m.restored,
        m.alarm_cleared().restored == m.restored,
{
}

/// After a successful write nothing is due until the position changes, and
/// after a failed one the same byte is still due.
pub proof fn writes_happen_on_change(m: AppModel)
    ensures
        m.stored().due_write() is None,
        m.persistent ==> (m.due_write() is None <==> m.last_persisted == Some(m.valve.user_state)),
        !m.persistent ==> m.due_write() is None,
{
}

/// One look of an enabled alarm at the measured flow. Flow at or above the
/// threshold with no sprinkler on, where a flow that is not measured counts as
/// zero, is timed from the first look that saw it, in whole seconds, and the
/// alarm is active once the configured seconds are reached. Any other look ends
/// the count and leaves the alarm as it was.
pub proof fn alarm_goes_by_the_measured_flow(m: AppModel, now: u64)
    requires
        m.config.flow_alarm.enabled,
    ensures
        ({
            let after = m.tick(now);
            let high = !m.outputs(now).sprinkler_1 && !m.outputs(now).sprinkler_2
                && (match m.state.sensors.flow_lph {
                Some(f) => f.reaches(m.config.flow_alarm.threshold_lph),
                None => (Reading { bits: 0 }).reaches(m.config.flow_alarm.threshold_lph),
            });
            &&& !high ==> after.state.alarm.elapsed_secs == 0 && after.high_since is None
                && after.state.alarm.active == m.state.alarm.active
            &&& high && m.high_since is None ==> after.state.alarm.elapsed_secs == 0
                && after.high_since == Some(now) && after.state.alarm.active == (
            m.state.alarm.active || m.config.flow_alarm.duration_secs == 0)
            &&& high ==> (m.high_since matches Some(t) ==> {
                &&& after.high_since == Some(t)
                &&& t <= now
                    && (now - t) / 1_000 <= u32::MAX ==> after.state.alarm.elapsed_secs == (now
                    - t) / 1_000
                &&& t <= now && (now - t) / 1_000 <= u32::MAX ==> after.state.alarm.active == (
                m.state.alarm.active || now - t >= 1_000 * m.config.flow_alarm.duration_secs)
                &&& t <= now && (now - t) / 1_000 > u32::MAX ==> after.state.alarm.active
                    && after.state.alarm.elapsed_secs == u32::MAX
                &&& t > now ==> after.state.alarm.elapsed_secs == 0
            })
        }),
{
}

/// The alarm and what it does to the valve depend on the measured flow alone:
/// whatever else was measured, a tick leaves the same alarm, the same count, the
/// same valve and the same pins.
pub proof fn other_measurements_do_not_matter(
    m: AppModel,
    battery_v: Option<Reading>,
    pressure_bar: Option<Reading>,
    total_l: Option<Reading>,
    loop_time_ms: Option<u32>,
    now: u64,
)
    ensures
        ({
            let sensors = state::Sensors {
                battery_v,
                pressure_bar,
                flow_lph: m.state.sensors.flow_lph,
                total_l,
                loop_time_ms,
            };
            let other = AppModel { state: DeviceSnapshot { sensors, ..m.state }, ..m };
            &&& other.tick(now).state.alarm == m.tick(now).state.alarm
            &&& other.tick(now).high_since == m.tick(now).high_since
            &&& other.tick(now).valve == m.tick(now).valve
            &&& other.tick(now).sprinkler_1 == m.tick(now).sprinkler_1
            &&& other.tick(now).sprinkler_2 == m.tick(now).sprinkler_2
            &&& other.outputs(now) == m.outputs(now)
        }),
{
}

/// Flow that is measured at or above the threshold, with no sprinkler on, at
/// every tick over the configured time, whatever the other sensors read: the
/// alarm is active exactly from the tick at which the configured seconds have
/// passed since the first.
pub proof fn measured_flow_fires_in_time(m: AppModel, f: Reading, times: Seq<u64>)
    requires
        m.config.flow_alarm.enabled,
        m.state.alarm == (FlowAlarm { active: false, elapsed_secs: 0 }),
        m.high_since is None,
        m.sprinkler_1.active is None,
        m.sprinkler_2.active is None,
        m.state.sensors.flow_lph == Some(f),
        f.reaches(m.config.flow_alarm.threshold_lph),
        times.len() > 0,
        forall|i: int, j: int| 0 <= i <= j < times.len() ==> times[i] <= times[j],
        (times.last() - times[0]) / 1_000 <= u32::MAX,
    ensures
        m.ticks(times).state.alarm.active <==> times.last() - times[0] >= 1_000
            * m.config.flow_alarm.duration_secs,
        m.ticks(times).state.alarm.elapsed_secs == (times.last() - times[0]) / 1_000,
        m.ticks(times).state.sensors == m.state.sensors,
{
    sustained_flow_fires(m, times);
    ticks_keep_the_sensors(m, times);
}

proof fn ticks_keep_the_sensors(m: AppModel, times: Seq<u64>)
    ensures
        m.ticks(times).state.sensors == m.state.sensors,
    decreases times.len(),
{
    if times.len() > 0 {
        ticks_keep_the_sensors(m, times.drop_last());
    }
}

/// At a tick the flow is measured at or above the threshold, and the tick leaves
/// both sprinklers off. A flow that is not measured counts as zero.
pub open spec fn measured_high(m: AppModel, now: u64, threshold: Reading) -> bool {
    &&& !m.outputs(now).sprinkler_1
    &&& !m.outputs(now).sprinkler_2
    &&& match m.state.sensors.flow_lph {
        Some(f) => f.reaches(threshold),
        None => (Reading { bits: 0 }).reaches(threshold),
    }
}

proof fn seen_is_measured(m: AppModel, now: u64)
    ensures
        seen_high(m, now) == measured_high(m, now, m.config.flow_alarm.threshold_lph),
{
}

/// After a run of ticks that began without an alarm, the alarm is active if and
/// only if the run holds a stretch, as long as the configured time, of looks
/// that all measured a flow at or above the threshold with no sprinkler on.
pub proof fn alarm_fires_exactly_on_measured_flow(
    looks: Seq<(AppModel, u64)>,
    rule: config::FlowAlarmConfig,
)
    requires
        rule.enabled,
        looks.len() > 0,
        looks[0].0.alarm_model() == AlarmModel::clear(),
        ticked(looks, rule),
    ensures
        looks.last().0.tick(looks.last().1).state.alarm.active <==> exists|a: int, b: int|
            #![trigger looks[a], looks[b]]
            {
                &&& 0 <= a <= b < looks.len()
                &&& looks[b].1 - looks[a].1 >= 1_000 * rule.duration_secs
                &&& forall|k: int|
                    a <= k <= b ==> measured_high(
                        (#[trigger] looks[k]).0,
                        looks[k].1,
                        rule.threshold_lph,
                    )
            },
{
    alarm_fires_exactly_on_sustained_flow(looks, rule);
    let active = looks.last().0.tick(looks.last().1).state.alarm.active;
    assert(active <==> exists|a: int, b: int| sustained(looks, rule, a, b));
    assert forall|k: int| 0 <= k < looks.len() implies seen_high(
        (#[trigger] looks[k]).0,
        looks[k].1,
    ) == measured_high(looks[k].0, looks[k].1, rule.threshold_lph) by {
        seen_is_measured(looks[k].0, looks[k].1);
        assert(looks[k].0.config.flow_alarm == rule);
    }
    stretches_are_measured(looks, rule);
}

proof fn stretches_are_measured(looks: Seq<(AppModel, u64)>, rule: config::FlowAlarmConfig)
    requires
        forall|k: int|
            0 <= k < looks.len() ==> seen_high((#[trigger] looks[k]).0, looks[k].1)
                == measured_high(looks[k].0, looks[k].1, rule.threshold_lph),
    ensures
        (exists|a: int, b: int| sustained(looks, rule, a, b)) <==> exists|a: int, b: int|
            #![trigger looks[a], looks[b]]
            {
                &&& 0 <= a <= b < looks.len()
                &&& looks[b].1 - looks[a].1 >= 1_000 * rule.duration_secs
                &&& forall|k: int|
                    a <= k <= b ==> measured_high(
                        (#[trigger] looks[k]).0,
                        looks[k].1,
                        rule.threshold_lph,
                    )
            },
{
    if exists|a: int, b: int| sustained(looks, rule, a, b) {
        let (a, b) = choose|a: int, b: int| sustained(looks, rule, a, b);
        assert(0 <= a <= b < looks.len());
        assert(looks[b].1 - looks[a].1 >= 1_000 * rule.duration_secs);
        assert forall|k: int| a <= k <= b implies measured_high(
            (#[trigger] looks[k]).0,
            looks[k].1,
            rule.threshold_lph,
        ) by {
            assert(seen_high(looks[k].0, looks[k].1));
        }
    }
    if exists|a: int, b: int|
        #![trigger looks[a], looks[b]]
        {
            &&& 0 <= a <= b < looks.len()
            &&& looks[b].1 - looks[a].1 >= 1_000 * rule.duration_secs
            &&& forall|k: int|
                a <= k <= b ==> measured_high(
                    (#[trigger] looks[k]).0,
                    looks[k].1,
                    rule.threshold_lph,
                )
        } {
        let (a, b) = choose|a: int, b: int|
            #![trigger looks[a], looks[b]]
            {
                &&& 0 <= a <= b < looks.len()
                &&& looks[b].1 - looks[a].1 >= 1_000 * rule.duration_secs
                &&& forall|k: int|
                    a <= k <= b ==> measured_high(
                        (#[trigger] looks[k]).0,
                        looks[k].1,
                        rule.threshold_lph,
                    )
            };
        assert forall|k: int| a <= k <= b implies seen_high(
            (#[trigger] looks[k]).0,
            looks[k].1,
        ) by {
            assert(measured_high(looks[k].0, looks[k].1, rule.threshold_lph));
        }
        assert(sustained(looks, rule, a, b));
    }
}

/// A sprinkler that was off and is turned on runs for as many seconds as are
/// configured for that sprinkler, and without end where zero is configured; a
/// scheduled run with a time of its own runs for that time.
pub proof fn sprinklers_run_for_their_seconds(
    m: AppModel,
    cfg: config::ConfigView,
    start: u64,
    secs: u32,
    now: u64,
)
    requires
        m.sprinkler_1.active is None,
        m.sprinkler_2.active is None,
        start <= now,
    ensures
        ({
            &&& m.configured(cfg).command(start, SwitchCommand::Sprinkler1 { on: true }).outputs(
                now,
            ).sprinkler_1 <==> cfg.switches.sprinkler_1_auto_off_secs == 0 || now - start < 1_000
                * cfg.switches.sprinkler_1_auto_off_secs
            &&& m.scheduled_run(start, "sprinkler_1"@, Some(secs)).outputs(now).sprinkler_1 <==> now
                - start < 1_000 * secs
            &&& m.configured(cfg).scheduled_run(start, "sprinkler_1"@, None)
                == m.configured(cfg).command(start, SwitchCommand::Sprinkler1 { on: true })
            &&& m.configured(cfg).command(start, SwitchCommand::Sprinkler2 { on: true }).outputs(
                now,
            ).sprinkler_2 <==> cfg.switches.sprinkler_2_auto_off_secs == 0 || now - start < 1_000
                * cfg.switches.sprinkler_2_auto_off_secs
            &&& m.scheduled_run(start, "sprinkler_2"@, Some(secs)).outputs(now).sprinkler_2 <==> now
                - start < 1_000 * secs
            &&& m.configured(cfg).scheduled_run(start, "sprinkler_2"@, None)
                == m.configured(cfg).command(start, SwitchCommand::Sprinkler2 { on: true })
        }),
{
    reveal_strlit("sprinkler_1");
    reveal_strlit("sprinkler_2");
    assert("sprinkler_1"@[10] != "sprinkler_2"@[10]);
}

/// A command reaches the output that it names and no other: turned off, that
/// pin is off; turned on, it is on in the same millisecond unless its auto-off
/// time is over; and the other sprinkler and the valve have the pins that they
/// had.
pub proof fn commands_reach_their_pins(m: AppModel, now: u64, then: u64)
    ensures
        !m.command(now, SwitchCommand::Sprinkler1 { on: false }).outputs(then).sprinkler_1,
        !m.command(now, SwitchCommand::Sprinkler2 { on: false }).outputs(then).sprinkler_2,
        forall|on: bool|
            (#[trigger] m.command(now, SwitchCommand::Sprinkler1 { on })).outputs(then).sprinkler_2
                == m.outputs(then).sprinkler_2,
        forall|on: bool|
            (#[trigger] m.command(now, SwitchCommand::Sprinkler2 { on })).outputs(then).sprinkler_1
                == m.outputs(then).sprinkler_1,
        forall|on: bool|
            (#[trigger] m.command(now, SwitchCommand::WaterControl { on })).outputs(then).sprinkler_1
                == m.outputs(then).sprinkler_1 && m.command(
                now,
                SwitchCommand::WaterControl { on },
            ).outputs(then).sprinkler_2 == m.outputs(then).sprinkler_2,
        forall|on: bool|
            (#[trigger] m.command(now, SwitchCommand::Sprinkler1 { on })).outputs(then).valve
                == m.outputs(then).valve,
        forall|on: bool|
            (#[trigger] m.command(now, SwitchCommand::Sprinkler2 { on })).outputs(then).valve
                == m.outputs(then).valve,
        m.sprinkler_1.active is None && m.sprinkler_1.auto_off is None ==> m.command(
            now,
            SwitchCommand::Sprinkler1 { on: true },
        ).outputs(then).sprinkler_1,
        m.sprinkler_2.active is None && m.sprinkler_2.auto_off is None ==> m.command(
            now,
            SwitchCommand::Sprinkler2 { on: true },
        ).outputs(then).sprinkler_2,
{
}

/// A command to the water control moves a resting valve the way that it names,
/// and is refused exactly while the valve reports that it is turning.
pub proof fn water_control_moves_the_valve(m: AppModel, now: u64)
    ensures
        forall|on: bool|
            #[trigger] m.refuses(SwitchCommand::WaterControl { on }) <==> (m.valve.state()
                == water_valve::WaterState::TurningOn || m.valve.state()
                == water_valve::WaterState::TurningOff),
        forall|on: bool|
            !#[trigger] m.refuses(SwitchCommand::Sprinkler1 { on }) && !m.refuses(
                SwitchCommand::Sprinkler2 { on },
            ),
        m.valve.state() == water_valve::WaterState::Off ==> m.command(
            now,
            SwitchCommand::WaterControl { on: true },
        ).valve.state() == water_valve::WaterState::TurningOn,
        m.valve.state() == water_valve::WaterState::On ==> m.command(
            now,
            SwitchCommand::WaterControl { on: false },
        ).valve.state() == water_valve::WaterState::TurningOff,
        m.valve.state() == water_valve::WaterState::On ==> m.command(
            now,
            SwitchCommand::WaterControl { on: true },
        ).valve == m.valve,
        m.valve.state() == water_valve::WaterState::Off ==> m.command(
            now,
            SwitchCommand::WaterControl { on: false },
        ).valve == m.valve,
{
}

/// A tick publishes what it leaves behind: sprinklers that are on, and a water
/// control that is on or off where the valve rests and in transition while it
/// turns. It changes no measurement and no setting, and without an alarm it
/// does nothing to the valve but let time pass.
pub proof fn ticks_publish_the_switches(m: AppModel, now: u64)
    ensures
        m.tick(now).state.switches.sprinkler_1 == m.sprinkler_1.tick(now).active is Some,
        m.tick(now).state.switches.sprinkler_2 == m.sprinkler_2.tick(now).active is Some,
        m.tick(now).state.switches.water_control == WaterControlState::On <==> m.valve.tick(
            now,
        ).state() == water_valve::WaterState::On,
        m.tick(now).state.switches.water_control == WaterControlState::Off <==> m.valve.tick(
            now,
        ).state() == water_valve::WaterState::Off,
        m.outputs(now).sprinkler_1 == m.sprinkler_1.tick(now).active is Some,
        m.outputs(now).sprinkler_2 == m.sprinkler_2.tick(now).active is Some,
        m.outputs(now).valve == m.valve.outputs(now),
        m.tick(now).sprinkler_1 == m.sprinkler_1.tick(now),
        m.tick(now).sprinkler_2 == m.sprinkler_2.tick(now),
        !m.tick(now).state.alarm.active ==> m.tick(now).valve == m.valve.tick(now),
        m.tick(now).valve == m.valve.tick(now) || m.tick(now).valve == m.valve.tick(now).turn_off(
            now,
        ),
        m.tick(now).state.sensors == m.state.sensors,
        m.tick(now).state.network == m.state.network,
        m.tick(now).state.diagnostics == m.state.diagnostics,
        m.tick(now).state.uptime_ms == m.state.uptime_ms,
        m.tick(now).config == m.config,
        m.tick(now).persistent == m.persistent,
        m.tick(now).last_persisted == m.last_persisted,
{
}

/// A new configuration is in force at once and disturbs nothing that is going
/// on: valve and sprinklers keep their phase and their start, and get the new
/// times.
pub proof fn new_configuration_is_in_force(m: AppModel, cfg: config::ConfigView)
    ensures
        m.configured(cfg).config == cfg,
        m.configured(cfg).valve.timing == cfg.switches.valve_timing,
        m.configured(cfg).valve.phase == m.valve.phase,
        m.configured(cfg).valve.user_state == m.valve.user_state,
        m.configured(cfg).sprinkler_1.active == m.sprinkler_1.active,
        m.configured(cfg).sprinkler_2.active == m.sprinkler_2.active,
        cfg.switches.sprinkler_1_auto_off_secs == 0 <==> m.configured(cfg).sprinkler_1.auto_off
            is None,
        cfg.switches.sprinkler_2_auto_off_secs == 0 <==> m.configured(cfg).sprinkler_2.auto_off
            is None,
        cfg.switches.sprinkler_1_auto_off_secs > 0 ==> m.configured(
            cfg,
        ).sprinkler_1.auto_off->0.millis == 1_000 * cfg.switches.sprinkler_1_auto_off_secs,
        cfg.switches.sprinkler_2_auto_off_secs > 0 ==> m.configured(
            cfg,
        ).sprinkler_2.auto_off->0.millis == 1_000 * cfg.switches.sprinkler_2_auto_off_secs,
        m.configured(cfg).state == m.state,
        m.configured(cfg).high_since == m.high_since,
        m.configured(cfg).last_persisted == m.last_persisted,
{
}

/// A rule acts on what it names: a sprinkler is turned on for the time of the
/// rule, the water control is commanded, and a switch that does not exist is
/// left alone. Rules act one after the other, in their order.
pub proof fn rules_act_on_what_they_name(
    m: AppModel,
    now: u64,
    rule: schedule::RuleView,
    rules: Seq<schedule::RuleView>,
)
    ensures
        rule.action matches schedule::ActionView::WaterControl { on } ==> m.fire(now, rule)
            == m.command(now, SwitchCommand::WaterControl { on }) && is_known(rule.action),
        rule.action matches schedule::ActionView::Switch { id } ==> {
            &&& m.fire(now, rule).valve == m.valve
            &&& id != "sprinkler_1"@ ==> m.fire(now, rule).sprinkler_1 == m.sprinkler_1
            &&& id != "sprinkler_2"@ ==> m.fire(now, rule).sprinkler_2 == m.sprinkler_2
            &&& id == "sprinkler_1"@ ==> m.fire(now, rule).sprinkler_1.active is Some && is_known(
                rule.action,
            )
            &&& id == "sprinkler_2"@ ==> m.fire(now, rule).sprinkler_2.active is Some && is_known(
                rule.action,
            )
            &&& id != "sprinkler_1"@ && id != "sprinkler_2"@ ==> m.fire(now, rule) == m
                && !is_known(rule.action)
            &&& rule.duration_secs matches Some(secs) ==> {
                &&& id == "sprinkler_1"@ && m.sprinkler_1.active is None ==> m.fire(
                    now,
                    rule,
                ).sprinkler_1.active->0.own_auto_off->0.millis == 1_000 * secs
                &&& id == "sprinkler_2"@ && m.sprinkler_2.active is None ==> m.fire(
                    now,
                    rule,
                ).sprinkler_2.active->0.own_auto_off->0.millis == 1_000 * secs
            }
        },
        m.fire(now, rule).state == m.state,
        m.fire(now, rule).config == m.config,
        m.fire_all(now, Seq::empty()) == m,
        m.fire_all(now, rules.push(rule)) == m.fire_all(now, rules).fire(now, rule),
{
    reveal_strlit("sprinkler_1");
    reveal_strlit("sprinkler_2");
    assert("sprinkler_1"@[10] != "sprinkler_2"@[10]);
    assert(rules.push(rule).drop_last() =~= rules);
}

/// The byte that is due says whether the valve is open, as one or zero, and a
/// stored byte other than zero brings an open valve back.
pub proof fn stored_byte_is_the_position(m: AppModel, byte: u8, more: Seq<u8>)
    ensures
        m.due_write() is Some ==> (m.due_write()->0 == 1 <==> m.valve.user_state) && (
        m.due_write()->0 == 0 <==> !m.valve.user_state),
        stored_position(Some(seq![byte] + more)) == Some(byte != 0),
        stored_position(Some(Seq::empty())) is None,
        stored_position(None) is None,
        m.stored().last_persisted == Some(m.valve.user_state),
        m.stored().valve == m.valve,
        m.stored().state == m.state,
{
    assert((seq![byte] + more)[0] == byte);
}

/// A controller that has just started drives no pin, reports nothing measured,
/// and has its valve where the store said, else closed.
pub proof fn started_controller_rests(
    m: AppModel,
    config: config::ConfigView,
    persistent: bool,
    restored: Option<bool>,
    now: u64,
)
    requires
        started(m, config, persistent, restored),
    ensures
        m.outputs(now) == (TickOutputs {
            sprinkler_1: false,
            sprinkler_2: false,
            valve: ValveOutputs { open_motor: false, close_motor: false, drain: false },
        }),
        m.valve.state() == (if restored == Some(true) {
            water_valve::WaterState::On
        } else {
            water_valve::WaterState::Off
        }),
        m.config == config,
        m.valve.timing == config.switches.valve_timing,
        !m.state.alarm.active,
        m.state.sensors.flow_lph is None,
        m.high_since is None,
        m.configured(config) == m,
        m.due_write() is Some <==> persistent && restored is None,
{
    if restored is Some {
        assert(restored == Some(true) || restored == Some(false));
    }
}

/// A clear takes the alarm and its count away and touches nothing else.
pub proof fn clear_only_clears(m: AppModel)
    ensures
        !m.alarm_cleared().state.alarm.active,
        m.alarm_cleared().state.alarm.elapsed_secs == 0,
        m.alarm_cleared().high_since is None,
        m.alarm_cleared().state.switches == m.state.switches,
        m.alarm_cleared().state.sensors == m.state.sensors,
        m.alarm_cleared().valve == m.valve,
        m.alarm_cleared().sprinkler_1 == m.sprinkler_1,
        m.alarm_cleared().sprinkler_2 == m.sprinkler_2,
        m.alarm_cleared().config == m.config,
        m.alarm_cleared().last_persisted == m.last_persisted,
{
}

} // verus!
