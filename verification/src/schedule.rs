//! Cron-like rules that turn switches on and drive the water control.
//!
//! Times are local times; whoever calls has applied the time zone. A window
//! is open on the left and closed on the right, so windows that follow one
//! another miss no minute and fire none twice.

use vstd::prelude::*;
use chrono::{DateTime, Datelike, NaiveDate, Offset, TimeZone};

verus! {

/// First and last day that the calendar represents, counted from the day
/// before 1 January of the year 1.
pub const MIN_DAY: i32 = -95_746_129;

pub const MAX_DAY: i32 = 95_745_399;

/// `chrono::NaiveDate::weekday`, reached through `from_num_days_from_ce_opt`
/// and read through `num_days_from_monday`: day 1 is a Monday, and the days of
/// the week follow one another.
#[verifier::external_body]
fn weekday_from_monday(day: i32) -> (w: u32)
    requires
        MIN_DAY <= day <= MAX_DAY,
    ensures
        w == (day - 1) % 7,
{
    let date = NaiveDate::from_num_days_from_ce_opt(day).unwrap();
    date.weekday().num_days_from_monday()
}

/// A local date and time of day.
#[derive(Debug, Clone, Copy, PartialEq, Eq)]
pub struct LocalTime {
    day: i32,
    second: u32,
}

impl LocalTime {
    #[verifier::type_invariant]
    spec fn in_range(self) -> bool {
        MIN_DAY <= self.day <= MAX_DAY && self.second < 86_400
    }

    /// Minutes since the start of day 0.
    pub closed spec fn minute_index(self) -> int {
        self.day * 1_440 + self.second / 60
    }

    /// A point in time by its day and the second of that day.
    pub fn new(day: i32, second: u32) -> (t: Option<LocalTime>)
        ensures
            t is Some == (MIN_DAY <= day <= MAX_DAY && second < 86_400),
            t is Some ==> t->0.minute_index() == day * 1_440 + second / 60,
    {
        if MIN_DAY <= day && day <= MAX_DAY && second < 86_400 {
            Some(LocalTime { day, second })
        } else {
            None
        }
    }

    fn minute(&self) -> (m: i64)
        ensures
            m == self.minute_index(),
            MIN_DAY * 1_440 <= m < (MAX_DAY + 1) * 1_440,
    {
        proof {
            use_type_invariant(self);
        }
        self.day as i64 * 1_440 + (self.second / 60) as i64
    }
}

/// How far local time is ahead of UTC, in seconds, in a zone of the tz database
/// at a time given in seconds since 1970. Nothing for an unknown zone, and for
/// a time that the calendar does not reach.
pub uninterp spec fn utc_offset(zone: Seq<char>, utc_secs: int) -> Option<int>;

/// The offset that `chrono_tz::Tz` has for a zone by its name, through its
/// `FromStr` and `offset_from_utc_datetime`, at the time that
/// `chrono::DateTime::from_timestamp` makes of the seconds. It depends on these
/// two alone, since the tz database is compiled in, and is less than a day, as
/// every `chrono::FixedOffset`. What the database holds is left unsaid.
#[verifier::external_body]
fn zone_offset(zone: &str, utc_secs: i64) -> (r: Option<i32>)
    ensures
        r is Some == utc_offset(zone@, utc_secs as int) is Some,
        r is Some ==> r->0 == utc_offset(zone@, utc_secs as int)->0,
        r is Some ==> -86_400 < r->0 < 86_400,
{
    let tz: chrono_tz::Tz = zone.parse().ok()?;
    let utc = DateTime::from_timestamp(utc_secs, 0)?.naive_utc();
    Some(tz.offset_from_utc_datetime(&utc).fix().local_minus_utc())
}

/// Day of 1 January 1970.
pub const EPOCH_DAY: i32 = 719_163;

/// Minutes since the start of day 0 at a time since 1970, with an offset.
pub open spec fn local_minute(utc_secs: int, offset: int) -> int {
    (utc_secs + offset) / 60 + EPOCH_DAY * 1_440
}

/// Local time at an offset from UTC. Nothing where the calendar does not reach.
pub fn local_at(utc_secs: i64, offset: i32) -> (t: Option<LocalTime>)
    ensures
        t is Some == (MIN_DAY * 1_440 <= local_minute(utc_secs as int, offset as int) < (MAX_DAY
            + 1) * 1_440),
        t is Some ==> t->0.minute_index() == local_minute(utc_secs as int, offset as int),
{
    // Seconds since the start of the first day.
    let since: i128 = utc_secs as i128 + offset as i128 + (EPOCH_DAY as i128 - MIN_DAY as i128)
        * 86_400;
    if since < 0 {
        return None;
    }
    let days: i128 = since / 86_400;
    if days > MAX_DAY as i128 - MIN_DAY as i128 {
        return None;
    }
    let day: i32 = MIN_DAY + days as i32;
    let second: u32 = (since % 86_400) as u32;
    assert(day * 1_440 + second / 60 == local_minute(utc_secs as int, offset as int));
    LocalTime::new(day, second)
}

/// Local time in a zone of the tz database, by its name. An unknown zone stands
/// for UTC.
pub fn to_local(utc_secs: i64, timezone: &str) -> (t: Option<LocalTime>)
    ensures
        ({
            let offset = match utc_offset(timezone@, utc_secs as int) {
                Some(o) => o,
                None => 0,
            };
            let minute = local_minute(utc_secs as int, offset);
            &&& t is Some == (MIN_DAY * 1_440 <= minute < (MAX_DAY + 1) * 1_440)
            &&& t is Some ==> t->0.minute_index() == minute
        }),
{
    let offset: i32 = match zone_offset(timezone, utc_secs) {
        Some(o) => o,
        None => 0,
    };
    local_at(utc_secs, offset)
}

/// What a rule does when it fires.
#[derive(Debug, PartialEq)]
pub enum Action {
    /// Turns a named switch on; the switch's auto-off timer ends it.
    Switch { id: String },
    /// Drives the composite water control.
    WaterControl { on: bool },
}

pub enum ActionView {
    Switch { id: Seq<char> },
    WaterControl { on: bool },
}

impl View for Action {
    type V = ActionView;

    open spec fn view(&self) -> ActionView {
        match self {
            Action::Switch { id } => ActionView::Switch { id: id@ },
            Action::WaterControl { on } => ActionView::WaterControl { on: *on },
        }
    }
}

impl Clone for Action {
    fn clone(&self) -> (a: Self)
        ensures
            a@ == self@,
    {
        match self {
            Action::Switch { id } => Action::Switch { id: id.clone() },
            Action::WaterControl { on } => Action::WaterControl { on: *on },
        }
    }
}

#[derive(Debug, PartialEq)]
pub struct Rule {
    pub id: String,
    pub action: Action,
    /// Hours of the day, 0 to 23.
    pub hours: Vec<u8>,
    /// Minutes of the hour, 0 to 59.
    pub minutes: Vec<u8>,
    /// Days of the week, Monday is 0. Empty stands for every day.
    pub days_of_week: Vec<u8>,
    pub enabled: bool,
    /// Auto-off time in seconds for the runs that this rule starts. Without
    /// one the switch's configured auto-off counts.
    pub duration_secs: Option<u32>,
}

pub struct RuleView {
    pub id: Seq<char>,
    pub action: ActionView,
    pub hours: Seq<u8>,
    pub minutes: Seq<u8>,
    pub days_of_week: Seq<u8>,
    pub enabled: bool,
    pub duration_secs: Option<u32>,
}

impl RuleView {
    /// The rule fires in this minute.
    pub open spec fn fires_at(self, minute: int) -> bool {
        &&& self.enabled
        &&& self.hours.contains((minute % 1_440 / 60) as u8)
        &&& self.minutes.contains((minute % 60) as u8)
        &&& self.days_of_week.len() == 0 || self.days_of_week.contains(
            ((minute / 1_440 - 1) % 7) as u8,
        )
    }
}

impl View for Rule {
    type V = RuleView;

    open spec fn view(&self) -> RuleView {
        RuleView {
            id: self.id@,
            action: self.action@,
            hours: self.hours@,
            minutes: self.minutes@,
            days_of_week: self.days_of_week@,
            enabled: self.enabled,
            duration_secs: self.duration_secs,
        }
    }
}

impl Clone for Rule {
    fn clone(&self) -> (r: Self)
        ensures
            r@ == self@,
    {
        let r = Rule {
            id: self.id.clone(),
            action: self.action.clone(),
            hours: self.hours.clone(),
            minutes: self.minutes.clone(),
            days_of_week: self.days_of_week.clone(),
            enabled: self.enabled,
            duration_secs: self.duration_secs,
        };
        assert(r.hours@ =~= self.hours@);
        assert(r.minutes@ =~= self.minutes@);
        assert(r.days_of_week@ =~= self.days_of_week@);
        r
    }
}

fn holds(v: &Vec<u8>, x: u8) -> (r: bool)
    ensures
        r == v@.contains(x),
{
    let mut i: usize = 0;
    while i < v.len()
        invariant
            i <= v.len(),
            forall|j: int| 0 <= j < i ==> v@[j] != x,
        decreases v.len() - i,
    {
        if v[i] == x {
            assert(v@[i as int] == x);
            return true;
        }
        i += 1;
    }
    false
}

impl Rule {
    fn matches_dow(&self, day: i32) -> (r: bool)
        requires
            MIN_DAY <= day <= MAX_DAY,
        ensures
            r == (self.days_of_week@.len() == 0 || self.days_of_week@.contains(
                ((day - 1) % 7) as u8,
            )),
    {
        if self.days_of_week.is_empty() {
            return true;
        }
        let idx: u32 = weekday_from_monday(day);
        holds(&self.days_of_week, idx as u8)
    }

    fn matches_minute(&self, day: i32, minute_of_day: u32) -> (r: bool)
        requires
            MIN_DAY <= day <= MAX_DAY,
            minute_of_day < 1_440,
        ensures
            r == self@.fires_at(day * 1_440 + minute_of_day),
    {
        proof {
            minute_parts(day as int, minute_of_day as int);
        }
        if !self.enabled {
            return false;
        }
        if !holds(&self.hours, (minute_of_day / 60) as u8) {
            return false;
        }
        if !holds(&self.minutes, (minute_of_day % 60) as u8) {
            return false;
        }
        self.matches_dow(day)
    }
}

proof fn minute_parts(day: int, minute_of_day: int)
    requires
        0 <= minute_of_day < 1_440,
    ensures
        (day * 1_440 + minute_of_day) % 1_440 == minute_of_day,
        (day * 1_440 + minute_of_day) / 1_440 == day,
        (day * 1_440 + minute_of_day) % 60 == minute_of_day % 60,
{
    let m = day * 1_440 + minute_of_day;
    vstd::arithmetic::div_mod::lemma_fundamental_div_mod_converse(m, 1_440, day, minute_of_day);
    vstd::arithmetic::div_mod::lemma_fundamental_div_mod_converse(
        m,
        60,
        day * 24 + minute_of_day / 60,
        minute_of_day % 60,
    );
}

/// The rules that fire in one minute, in the order in which they are listed.
pub open spec fn due(rules: Seq<RuleView>, minute: int) -> Seq<RuleView>
    decreases rules.len(),
{
    if rules.len() == 0 {
        Seq::empty()
    } else {
        let before = due(rules.drop_last(), minute);
        if rules.last().fires_at(minute) {
            before.push(rules.last())
        } else {
            before
        }
    }
}

/// The rules that fire from minute `first` to minute `last`, minute by minute.
pub open spec fn fired(rules: Seq<RuleView>, first: int, last: int) -> Seq<RuleView>
    decreases last - first + 1,
{
    if first > last {
        Seq::empty()
    } else {
        fired(rules, first, last - 1) + due(rules, last)
    }
}

/// Most minutes that one window covers.
pub const MAX_WINDOW_MINUTES: i64 = 1_500;

/// The last minute that a window from `last` to `now` covers.
pub open spec fn window_end(last: int, now: int) -> int {
    if now <= last + MAX_WINDOW_MINUTES {
        now
    } else {
        last + MAX_WINDOW_MINUTES
    }
}

/// Rules behind references, by their views.
pub open spec fn rule_views(rules: Seq<&Rule>) -> Seq<RuleView> {
    Seq::new(rules.len(), |i: int| rules[i]@)
}

#[derive(Debug, PartialEq)]
pub struct Schedule {
    pub rules: Vec<Rule>,
}

impl View for Schedule {
    type V = Seq<RuleView>;

    open spec fn view(&self) -> Seq<RuleView> {
        Seq::new(self.rules@.len(), |i: int| self.rules@[i]@)
    }
}

impl Clone for Schedule {
    fn clone(&self) -> (s: Self)
        ensures
            s@ == self@,
    {
        let s = Schedule { rules: self.rules.clone() };
        assert forall|i: int| 0 <= i < self.rules@.len() implies #[trigger] s@[i] == self@[i] by {
            assert(cloned(self.rules@[i], s.rules@[i]));
        }
        assert(s@ =~= self@);
        s
    }
}

impl Default for Schedule {
    fn default() -> (s: Self)
        ensures
            s@ == Seq::<RuleView>::empty(),
    {
        let s = Schedule { rules: Vec::new() };
        assert(s@ =~= Seq::<RuleView>::empty());
        s
    }
}

impl Schedule {
    pub fn new(rules: Vec<Rule>) -> (s: Self)
        ensures
            s.rules == rules,
    {
        Schedule { rules }
    }

    /// Adds to `hits` the rules that fire in one minute.
    fn add_due<'a>(&'a self, day: i32, minute_of_day: u32, hits: &mut Vec<&'a Rule>)
        requires
            MIN_DAY <= day <= MAX_DAY,
            minute_of_day < 1_440,
        ensures
            rule_views(final(hits)@) == rule_views(old(hits)@) + due(
                self@,
                day * 1_440 + minute_of_day,
            ),
    {
        let ghost m = day * 1_440 + minute_of_day;
        let ghost start = rule_views(hits@);
        let mut i: usize = 0;
        proof {
            assert(self@.take(0) =~= Seq::<RuleView>::empty());
            assert(start + due(self@.take(0), m) =~= start);
        }
        while i < self.rules.len()
            invariant
                MIN_DAY <= day <= MAX_DAY,
                minute_of_day < 1_440,
                m == day * 1_440 + minute_of_day,
                i <= self.rules.len(),
                rule_views(hits@) == start + due(self@.take(i as int), m),
            decreases self.rules.len() - i,
        {
            let r = &self.rules[i];
            let ghost before = hits@;
            proof {
                assert(self@.take(i + 1).drop_last() =~= self@.take(i as int));
                assert(self@.take(i + 1).last() == r@);
            }
            if r.matches_minute(day, minute_of_day) {
                hits.push(r);
                assert(rule_views(hits@) =~= rule_views(before).push(r@));
                assert(rule_views(hits@) =~= start + due(self@.take(i + 1), m));
            }
            i += 1;
        }
        assert(self@.take(self@.len() as int) =~= self@);
    }

    /// The rules that fire after `last` and not after `now`, minute by minute.
    /// At most 25 hours are looked at, from the old end on.
    pub fn evaluate_range(&self, last: LocalTime, now: LocalTime) -> (hits: Vec<&Rule>)
        ensures
            rule_views(hits@) == fired(
                self@,
                last.minute_index() + 1,
                window_end(last.minute_index(), now.minute_index()),
            ),
    {
        let from: i64 = last.minute();
        let now_minute: i64 = now.minute();
        let end: i64 = if now_minute <= from + MAX_WINDOW_MINUTES {
            now_minute
        } else {
            from + MAX_WINDOW_MINUTES
        };
        self.fire_minutes(from + 1, end)
    }

    fn fire_minutes(&self, first: i64, end: i64) -> (hits: Vec<&Rule>)
        requires
            MIN_DAY * 1_440 <= first <= (MAX_DAY + 1) * 1_440,
            end < (MAX_DAY + 1) * 1_440,
        ensures
            rule_views(hits@) == fired(self@, first as int, end as int),
    {
        let mut hits: Vec<&Rule> = Vec::new();
        let mut t: i64 = first;
        assert(rule_views(hits@) =~= Seq::<RuleView>::empty());
        while t <= end
            invariant
                MIN_DAY * 1_440 <= first <= t <= (MAX_DAY + 1) * 1_440,
                t <= first || t <= end + 1,
                end < (MAX_DAY + 1) * 1_440,
                rule_views(hits@) == fired(self@, first as int, t - 1),
            decreases end - t + 1,
        {
            let (day, minute_of_day) = split_minute(t);
            self.add_due(day, minute_of_day, &mut hits);
            t += 1;
        }
        if end < first {
            assert(fired(self@, first as int, end as int) =~= Seq::<RuleView>::empty());
        }
        hits
    }

    /// The rules that fire in the minute of `now`.
    pub fn evaluate_minute(&self, now: LocalTime) -> (hits: Vec<&Rule>)
        ensures
            rule_views(hits@) == due(self@, now.minute_index()),
    {
        let m: i64 = now.minute();
        let hits = self.fire_minutes(m, m);
        proof {
            let i = now.minute_index();
            assert(fired(self@, i, i - 1) =~= Seq::<RuleView>::empty());
            assert(fired(self@, i, i) =~= due(self@, i));
        }
        hits
    }
}

/// Day and minute of the day of a minute index.
fn split_minute(m: i64) -> (r: (i32, u32))
    requires
        MIN_DAY * 1_440 <= m < (MAX_DAY + 1) * 1_440,
    ensures
        MIN_DAY <= r.0 <= MAX_DAY,
        r.1 < 1_440,
        r.0 * 1_440 + r.1 == m,
{
    let base: i64 = MIN_DAY as i64 * 1_440;
    let offset: i64 = m - base;
    let day: i64 = offset / 1_440 + MIN_DAY as i64;
    let minute: i64 = offset % 1_440;
    (day as i32, minute as u32)
}

/// Ten and ten at night for the first sprinkler, half an hour later each time
/// for the second.
pub open spec fn default_rules() -> Seq<RuleView> {
    seq![
        RuleView {
            id: "riego_exterior"@,
            action: ActionView::Switch { id: "sprinkler_1"@ },
            hours: seq![10u8, 22u8],
            minutes: seq![0u8],
            days_of_week: Seq::empty(),
            enabled: true,
            duration_secs: None,
        },
        RuleView {
            id: "riego_interior"@,
            action: ActionView::Switch { id: "sprinkler_2"@ },
            hours: seq![10u8, 22u8],
            minutes: seq![30u8],
            days_of_week: Seq::empty(),
            enabled: true,
            duration_secs: None,
        },
    ]
}

pub fn default_schedule() -> (s: Schedule)
    ensures
        s@ == default_rules(),
{
    let first = Rule {
        id: "riego_exterior".to_owned(),
        action: Action::Switch { id: "sprinkler_1".to_owned() },
        hours: vec![10, 22],
        minutes: vec![0],
        days_of_week: vec![],
        enabled: true,
        duration_secs: None,
    };
    let second = Rule {
        id: "riego_interior".to_owned(),
        action: Action::Switch { id: "sprinkler_2".to_owned() },
        hours: vec![10, 22],
        minutes: vec![30],
        days_of_week: vec![],
        enabled: true,
        duration_secs: None,
    };
    assert(first.hours@ =~= seq![10u8, 22u8]);
    assert(first.minutes@ =~= seq![0u8]);
    assert(first.days_of_week@ =~= Seq::<u8>::empty());
    assert(second.hours@ =~= seq![10u8, 22u8]);
    assert(second.minutes@ =~= seq![30u8]);
    assert(second.days_of_week@ =~= Seq::<u8>::empty());
    let s = Schedule::new(vec![first, second]);
    assert(s@ =~= default_rules());
    s
}

/// Windows that follow one another fire together exactly what one window over
/// both fires: no minute is missed at the seam and none counts twice.
pub proof fn windows_join(rules: Seq<RuleView>, first: int, seam: int, last: int)
    requires
        first <= seam + 1,
        seam <= last,
    ensures
        fired(rules, first, seam) + fired(rules, seam + 1, last) == fired(rules, first, last),
    decreases last - seam,
{
    if seam == last {
        assert(fired(rules, seam + 1, last) =~= Seq::<RuleView>::empty());
        assert(fired(rules, first, seam) + Seq::<RuleView>::empty() =~= fired(rules, first, last));
    } else {
        windows_join(rules, first, seam, last - 1);
        assert(fired(rules, seam + 1, last) == fired(rules, seam + 1, last - 1) + due(rules, last));
        assert(fired(rules, first, seam) + (fired(rules, seam + 1, last - 1) + due(rules, last))
            =~= (fired(rules, first, seam) + fired(rules, seam + 1, last - 1)) + due(rules, last));
    }
}

/// Two evaluations in a row, each within 25 hours, fire what one evaluation
/// over both would.
pub proof fn evaluations_join(rules: Seq<RuleView>, a: LocalTime, b: LocalTime, c: LocalTime)
    requires
        a.minute_index() <= b.minute_index() <= c.minute_index(),
        c.minute_index() - a.minute_index() <= MAX_WINDOW_MINUTES,
    ensures
        fired(rules, a.minute_index() + 1, window_end(a.minute_index(), b.minute_index())) + fired(
            rules,
            b.minute_index() + 1,
            window_end(b.minute_index(), c.minute_index()),
        ) == fired(rules, a.minute_index() + 1, window_end(a.minute_index(), c.minute_index())),
{
    windows_join(rules, a.minute_index() + 1, b.minute_index(), c.minute_index());
}

/// A window without a new minute fires nothing, also where the clock was set back.
pub proof fn clock_set_back_fires_nothing(rules: Seq<RuleView>, last: LocalTime, now: LocalTime)
    requires
        now.minute_index() <= last.minute_index(),
    ensures
        fired(
            rules,
            last.minute_index() + 1,
            window_end(last.minute_index(), now.minute_index()),
        ).len() == 0,
{
}

/// Whatever fires in a window is an enabled rule of the schedule that is due
/// in one of the window's minutes.
pub proof fn only_due_rules_fire(rules: Seq<RuleView>, first: int, last: int, k: int)
    requires
        0 <= k < fired(rules, first, last).len(),
    ensures
        rules.contains(fired(rules, first, last)[k]),
        fired(rules, first, last)[k].enabled,
        exists|m: int|
            first <= m <= last && #[trigger] fired(rules, first, last)[k].fires_at(m),
    decreases last - first + 1,
{
    let before = fired(rules, first, last - 1);
    if k < before.len() {
        only_due_rules_fire(rules, first, last - 1, k);
        let m = choose|m: int| first <= m <= last - 1 && #[trigger] before[k].fires_at(m);
        assert(fired(rules, first, last)[k] == before[k]);
        assert(fired(rules, first, last)[k].fires_at(m));
    } else {
        due_rules_are_listed(rules, last, k - before.len());
        assert(fired(rules, first, last)[k].fires_at(last));
    }
}

proof fn due_rules_are_listed(rules: Seq<RuleView>, minute: int, k: int)
    requires
        0 <= k < due(rules, minute).len(),
    ensures
        rules.contains(due(rules, minute)[k]),
        due(rules, minute)[k].fires_at(minute),
    decreases rules.len(),
{
    let before = due(rules.drop_last(), minute);
    if k < before.len() {
        due_rules_are_listed(rules.drop_last(), minute, k);
        let i = rules.drop_last().index_of(before[k]);
        assert(rules[i] == before[k]);
    } else {
        assert(rules[rules.len() - 1] == rules.last());
    }
}

/// The calendar of rules. Minute `minute` of hour `hour` of day `day` is one in
/// which a rule fires exactly where the rule is enabled, lists the hour and the
/// minute, and lists no days or the day of the week: day 1 is a Monday and
/// Monday is 0, so that day `1 + 7 * week + d` is the day of the week `d`.
pub proof fn rules_follow_the_calendar(
    rule: RuleView,
    week: int,
    d: u8,
    hour: u8,
    minute: u8,
)
    requires
        d < 7,
        hour < 24,
        minute < 60,
    ensures
        rule.fires_at((1 + 7 * week + d) * 1_440 + hour * 60 + minute) <==> {
            &&& rule.enabled
            &&& rule.hours.contains(hour)
            &&& rule.minutes.contains(minute)
            &&& rule.days_of_week.len() == 0 || rule.days_of_week.contains(d)
        },
{
    let day = 1 + 7 * week + d;
    let m = day * 1_440 + hour * 60 + minute;
    minute_parts(day, hour * 60 + minute);
    assert(m % 1_440 / 60 == hour);
    assert(m % 60 == minute);
    assert((day - 1) % 7 == d) by {
        vstd::arithmetic::div_mod::lemma_fundamental_div_mod_converse(
            day - 1,
            7,
            week,
            d as int,
        );
    }
}

/// Every minute has such a place in the calendar.
pub proof fn every_minute_has_its_place(m: int) -> (place: (int, u8, u8, u8))
    ensures
        place.1 < 7,
        place.2 < 24,
        place.3 < 60,
        m == (1 + 7 * place.0 + place.1) * 1_440 + place.2 * 60 + place.3,
{
    let day = m / 1_440;
    let of_day = m % 1_440;
    let week = (day - 1) / 7;
    let d = (day - 1) % 7;
    assert(day - 1 == 7 * week + d);
    (week, d as u8, (of_day / 60) as u8, (of_day % 60) as u8)
}

/// A rule for a single day of the week fires on that day alone: in a minute of a
/// day that is `d` days after a Monday, day 1 being one.
pub proof fn day_filter_means_its_day(rule: RuleView, d: u8, m: int)
    requires
        rule.days_of_week == seq![d],
        d < 7,
        rule.fires_at(m),
    ensures
        (m / 1_440 - 1 - d) % 7 == 0,
{
    let (week, e, hour, minute) = every_minute_has_its_place(m);
    rules_follow_the_calendar(rule, week, e, hour, minute);
    assert(rule.days_of_week[0] == d);
    assert(e == d) by {
        let i = choose|i: int| 0 <= i < rule.days_of_week.len() && rule.days_of_week[i] == e;
        assert(i == 0);
    }
    let day = 1 + 7 * week + e;
    assert(m / 1_440 == day) by {
        minute_parts(day, hour * 60 + minute);
    }
    assert((7 * week) % 7 == 0);
}

/// In one minute exactly the rules fire that are enabled and list its hour, its
/// minute and its day, each as often as it is listed and in that order.
pub proof fn one_minute_fires_what_is_due(
    rules: Seq<RuleView>,
    week: int,
    d: u8,
    hour: u8,
    minute: u8,
)
    requires
        d < 7,
        hour < 24,
        minute < 60,
    ensures
        due(rules, (1 + 7 * week + d) * 1_440 + hour * 60 + minute) == rules.filter(
            |r: RuleView|
                r.enabled && r.hours.contains(hour) && r.minutes.contains(minute) && (
                r.days_of_week.len() == 0 || r.days_of_week.contains(d)),
        ),
    decreases rules.len(),
{
    reveal(Seq::filter);
    let m = (1 + 7 * week + d) * 1_440 + hour * 60 + minute;
    if rules.len() > 0 {
        one_minute_fires_what_is_due(rules.drop_last(), week, d, hour, minute);
        rules_follow_the_calendar(rules.last(), week, d, hour, minute);
    }
}

/// A window fires what its minutes fire, one after the other, from the minute
/// after `last` to the minute of `now`, and no more than 25 hours of them.
pub proof fn window_is_its_minutes(rules: Seq<RuleView>, last: int, now: int)
    ensures
        now <= last ==> fired(rules, last + 1, window_end(last, now)) == Seq::<RuleView>::empty(),
        last < now <= last + 1_500 ==> fired(rules, last + 1, window_end(last, now)) == fired(
            rules,
            last + 1,
            window_end(last, now - 1),
        ) + due(rules, now),
        now > last + 1_500 ==> fired(rules, last + 1, window_end(last, now)) == fired(
            rules,
            last + 1,
            window_end(last, last + 1_500),
        ),
{
}

/// No firing is missed: a rule that is due in a minute after `last` and not after
/// `now`, within 25 hours, is among those that the window fires.
pub proof fn due_rules_are_not_missed(
    rules: Seq<RuleView>,
    last: int,
    now: int,
    m: int,
    i: int,
)
    requires
        last < m <= now,
        m <= last + 1_500,
        0 <= i < rules.len(),
        rules[i].fires_at(m),
    ensures
        fired(rules, last + 1, window_end(last, now)).contains(rules[i]),
{
    let end = window_end(last, now);
    due_rule_is_listed(rules, m, i);
    windows_join(rules, last + 1, m, end);
    let d = due(rules, m);
    let upto = fired(rules, last + 1, m);
    let before = fired(rules, last + 1, m - 1);
    assert(upto == before + d);
    let k = choose|k: int| 0 <= k < d.len() && d[k] == rules[i];
    let all = fired(rules, last + 1, end);
    assert(all == upto + fired(rules, m + 1, end));
    assert(all[before.len() + k] == rules[i]);
}

proof fn due_rule_is_listed(rules: Seq<RuleView>, m: int, i: int)
    requires
        0 <= i < rules.len(),
        rules[i].fires_at(m),
    ensures
        due(rules, m).contains(rules[i]),
    decreases rules.len(),
{
    let before = due(rules.drop_last(), m);
    let all = due(rules, m);
    if i == rules.len() - 1 {
        assert(all[all.len() - 1] == rules[i]);
    } else {
        due_rule_is_listed(rules.drop_last(), m, i);
        let k = choose|k: int| 0 <= k < before.len() && before[k] == rules[i];
        assert(all[k] == rules[i]);
    }
}

/// Local time runs with the seconds since 1970, sixty to a minute, ahead by the
/// offset; day 719163 is 1 January 1970.
pub proof fn local_minutes_follow_the_seconds(utc_secs: int, offset: int)
    ensures
        60 * (local_minute(utc_secs, offset) - 719_163 * 1_440) <= utc_secs + offset,
        utc_secs + offset < 60 * (local_minute(utc_secs, offset) - 719_163 * 1_440) + 60,
{
}

/// The rules that a device comes with: the first sprinkler starts at ten in the
/// morning and at ten at night, the second half an hour later each time, every
/// day, and nothing else starts.
pub proof fn default_rules_fire_twice_a_day(day: int, hour: int, minute: int)
    requires
        0 <= hour < 24,
        0 <= minute < 60,
    ensures
        ({
            let rules = default_rules();
            let now = day * 1_440 + hour * 60 + minute;
            &&& rules.len() == 2
            &&& rules[0].fires_at(now) <==> (hour == 10 || hour == 22) && minute == 0
            &&& rules[1].fires_at(now) <==> (hour == 10 || hour == 22) && minute == 30
            &&& rules[0].action == (ActionView::Switch { id: "sprinkler_1"@ })
            &&& rules[1].action == (ActionView::Switch { id: "sprinkler_2"@ })
            &&& rules[0].duration_secs is None && rules[1].duration_secs is None
        }),
{
    let rules = default_rules();
    let now = day * 1_440 + hour * 60 + minute;
    minute_parts(day, hour * 60 + minute);
    assert(now % 1_440 / 60 == hour && now % 60 == minute);
    assert(rules[0].hours[0] == 10 && rules[0].hours[1] == 22);
    assert(rules[1].hours[0] == 10 && rules[1].hours[1] == 22);
    assert(rules[0].minutes[0] == 0 && rules[1].minutes[0] == 30);
    if hour == 10 || hour == 22 {
        assert(rules[0].hours.contains(hour as u8));
        assert(rules[1].hours.contains(hour as u8));
    }
    if minute == 0 {
        assert(rules[0].minutes.contains(minute as u8));
    }
    if minute == 30 {
        assert(rules[1].minutes.contains(minute as u8));
    }
}

} // verus!
