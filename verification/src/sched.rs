//! Recurrence rules: a window of weekdays and a time of day, and when such a
//! rule fires next. Times are local wall-clock times; a day has 86400
//! seconds and a week seven days, so a change of the clock for daylight
//! saving is not seen.

use crate::text::{all_digits, chars_of, decimal_value, read_digits, split, split_on};
use chrono::{Datelike, Timelike};
use vstd::prelude::*;

verus! {

/// The seconds of a day.
pub const DAY: u32 = 86400;

/// A moment of the local week: a weekday, 0 for Sunday to 6 for Saturday, and
/// the seconds since the midnight before.
#[derive(Debug, Clone, Copy)]
pub struct LocalTime {
    weekday: u32,
    second_of_day: u32,
}

/// A moment of the local week, over plain values.
pub struct LocalTimeView {
    pub weekday: int,
    pub second_of_day: int,
}

impl LocalTimeView {
    /// Whether this is a moment of the week: a weekday from 0 to 6 and a
    /// second of the day.
    pub open spec fn is_valid(self) -> bool {
        0 <= self.weekday <= 6 && 0 <= self.second_of_day <= 86399
    }

    /// The weekday that it is after `delay` seconds.
    pub open spec fn day_after(self, delay: int) -> int {
        (self.weekday + (self.second_of_day + delay) / 86400) % 7
    }

    /// The seconds since midnight that it is after `delay` seconds.
    pub open spec fn second_after(self, delay: int) -> int {
        (self.second_of_day + delay) % 86400
    }
}

impl View for LocalTime {
    type V = LocalTimeView;

    closed spec fn view(&self) -> LocalTimeView {
        LocalTimeView { weekday: self.weekday as int, second_of_day: self.second_of_day as int }
    }
}

/// The weekday, from Sunday as 0, and the seconds since midnight of the
/// current local time, from chrono's `Local::now`, `Datelike::weekday`,
/// `Weekday::num_days_from_sunday` and `Timelike::num_seconds_from_midnight`.
/// Only their ranges are claimed.
#[verifier::external_body]
fn local_clock() -> (now: (u32, u32))
    ensures
        now.0 <= 6,
        now.1 <= 86399,
{
    let now = chrono::Local::now();
    (now.weekday().num_days_from_sunday(), now.num_seconds_from_midnight())
}

impl LocalTime {
    #[verifier::type_invariant]
    spec fn well_formed(self) -> bool {
        self.weekday <= 6 && self.second_of_day <= 86399
    }

    /// The moment at `hour:minute:second` on `weekday`, where these are a
    /// weekday from 0 to 6 and a time of day.
    pub fn new(weekday: u32, hour: u32, minute: u32, second: u32) -> (time: Option<Self>)
        ensures
            time is Some <==> weekday <= 6 && hour <= 23 && minute <= 59 && second <= 59,
            time is Some ==> time->0@ == (LocalTimeView {
                weekday: weekday as int,
                second_of_day: hour * 3600 + minute * 60 + second,
            }),
    {
        if weekday <= 6 && hour <= 23 && minute <= 59 && second <= 59 {
            Some(LocalTime { weekday, second_of_day: hour * 3600 + minute * 60 + second })
        } else {
            None
        }
    }

    /// The moment `second_of_day` seconds after midnight on `weekday`, where
    /// these are a weekday from 0 to 6 and a second of the day: what a clock
    /// reads is taken as a moment of the week by this.
    pub fn at(weekday: u32, second_of_day: u32) -> (time: Option<Self>)
        ensures
            time is Some <==> weekday <= 6 && second_of_day <= 86399,
            time is Some ==> time->0@ == (LocalTimeView {
                weekday: weekday as int,
                second_of_day: second_of_day as int,
            }),
    {
        if weekday <= 6 && second_of_day <= 86399 {
            Some(LocalTime { weekday, second_of_day })
        } else {
            None
        }
    }

    /// The current moment of the local week: what the local clock reads,
    /// taken as a moment of the week by `at`. Which moment that is depends on
    /// when it is asked; it is always one of the week.
    pub fn now() -> (time: Self)
        ensures
            time@.is_valid(),
    {
        let (weekday, second_of_day) = local_clock();
        LocalTime::at(weekday, second_of_day).unwrap()
    }

    /// The weekday, 0 for Sunday to 6 for Saturday.
    pub fn weekday(&self) -> (weekday: u32)
        ensures
            weekday == self@.weekday,
            self@.is_valid(),
    {
        proof {
            use_type_invariant(self);
        }
        self.weekday
    }

    /// The seconds since midnight.
    pub fn second_of_day(&self) -> (second: u32)
        ensures
            second == self@.second_of_day,
            self@.is_valid(),
    {
        proof {
            use_type_invariant(self);
        }
        self.second_of_day
    }
}

/// A recurrence in the making: the weekdays from `from_dow` to `till_dow`,
/// both included, at `hour:minute:second`. A window whose first day comes
/// after its last wraps around the end of the week.
#[derive(Debug, Clone, Copy, PartialEq, Eq, Structural)]
pub struct RecurrenceRuleSet {
    pub from_dow: u32,
    pub till_dow: u32,
    pub hour: u32,
    pub minute: u32,
    pub second: u32,
}

impl RecurrenceRuleSet {
    /// Whether the time of day is one: a rule with an hour past 23, a minute
    /// or a second past 59 never fires.
    pub open spec fn valid_time(self) -> bool {
        self.hour <= 23 && self.minute <= 59 && self.second <= 59
    }

    /// The seconds since midnight at which the rule fires.
    pub open spec fn second_of_day(self) -> int {
        self.hour * 3600 + self.minute * 60 + self.second
    }

    /// Whether the weekday `day` is in the rule's window.
    pub open spec fn in_window(self, day: int) -> bool {
        if self.from_dow <= self.till_dow {
            self.from_dow <= day <= self.till_dow
        } else {
            day >= self.from_dow || day <= self.till_dow
        }
    }

    /// Whether the rule fires `delay` seconds after `now`.
    pub open spec fn fires_after(self, now: LocalTimeView, delay: int) -> bool {
        self.valid_time() && self.in_window(now.day_after(delay)) && now.second_after(delay)
            == self.second_of_day()
    }

    /// The seconds from `now` to the next time the rule fires, which lies
    /// after `now`; `None` where it never fires.
    pub open spec fn next_delay(self, now: LocalTimeView) -> Option<int> {
        if exists|delay: int| delay >= 1 && self.fires_after(now, delay) {
            Some(choose|delay: int| self.first_firing(now, delay))
        } else {
            None
        }
    }

    /// Whether the rule fires `delay` seconds after `now` for the first time
    /// after `now`.
    pub open spec fn first_firing(self, now: LocalTimeView, delay: int) -> bool {
        &&& delay >= 1
        &&& self.fires_after(now, delay)
        &&& forall|earlier: int| 1 <= earlier < delay ==> !self.fires_after(now, earlier)
    }

    /// Sets the window of weekdays.
    pub fn from_to_dow(&mut self, from: u32, till: u32)
        ensures
            *final(self) == (RecurrenceRuleSet { from_dow: from, till_dow: till, ..*old(self) }),
    {
        self.from_dow = from;
        self.till_dow = till;
    }

    /// Sets the time of day.
    pub fn at_time(&mut self, hour: u32, minute: u32, second: u32)
        ensures
            *final(self) == (RecurrenceRuleSet { hour, minute, second, ..*old(self) }),
    {
        self.hour = hour;
        self.minute = minute;
        self.second = second;
    }

    /// Whether the weekday `day` is in the rule's window.
    fn window_has(&self, day: u32) -> (held: bool)
        ensures
            held == self.in_window(day as int),
    {
        if self.from_dow <= self.till_dow {
            self.from_dow <= day && day <= self.till_dow
        } else {
            day >= self.from_dow || day <= self.till_dow
        }
    }
}

/// A recurrence on every day of the week at midnight, to be narrowed.
pub fn ruleset() -> (rule: RecurrenceRuleSet)
    ensures
        rule == (RecurrenceRuleSet { from_dow: 0, till_dow: 6, hour: 0, minute: 0, second: 0 }),
{
    RecurrenceRuleSet { from_dow: 0, till_dow: 6, hour: 0, minute: 0, second: 0 }
}

/// A rule that a scheduler can evaluate.
#[derive(Debug, Clone, Copy, PartialEq, Eq, Structural)]
pub struct SchedulingRule {
    pub rule: RecurrenceRuleSet,
}

/// The rule that fires as `rule` says.
pub fn recur(rule: &RecurrenceRuleSet) -> (scheduled: SchedulingRule)
    ensures
        scheduled.rule == *rule,
{
    SchedulingRule { rule: *rule }
}

/// The rule fires `k` days and the difference of the times of day after
/// `now`, if `k` days after today is a day of the window; and whenever it
/// fires, it does so at such a delay.
proof fn lemma_firing_delays(rule: RecurrenceRuleSet, now: LocalTimeView, delay: int)
    requires
        rule.valid_time(),
        now.is_valid(),
        delay >= 1,
    ensures
        rule.fires_after(now, delay) <==> exists|k: int|
            k >= 0 && #[trigger] days_ahead(rule, now, k) == delay && rule.in_window(
                (now.weekday + k) % 7,
            ),
{
    let t = rule.second_of_day();
    let sum = now.second_of_day + delay;
    let k0 = sum / 86400;
    if rule.fires_after(now, delay) {
        assert(sum == 86400 * k0 + sum % 86400);
        assert(days_ahead(rule, now, k0) == delay);
    }
    if exists|k: int|
        k >= 0 && #[trigger] days_ahead(rule, now, k) == delay && rule.in_window(
            (now.weekday + k) % 7,
        ) {
        let k = choose|k: int|
            k >= 0 && #[trigger] days_ahead(rule, now, k) == delay && rule.in_window(
                (now.weekday + k) % 7,
            );
        assert(sum == 86400 * k + t);
        assert(0 <= t < 86400);
        assert(sum / 86400 == k && sum % 86400 == t) by (nonlinear_arith)
            requires
                sum == 86400 * k + t,
                0 <= t < 86400,
        ;
    }
}

/// The delay from `now` to the rule's time of day `k` days later.
pub open spec fn days_ahead(rule: RecurrenceRuleSet, now: LocalTimeView, k: int) -> int {
    k * 86400 + rule.second_of_day() - now.second_of_day
}

impl SchedulingRule {
    /// The seconds from `now` to the next time the rule fires, which lies
    /// after `now` and no more than a week ahead; `None` where it never
    /// fires: where its time of day is none, or no weekday is in its window.
    pub fn next_from(&self, now: &LocalTime) -> (next: Option<u32>)
        ensures
            next is Some <==> exists|delay: int| delay >= 1 && self.rule.fires_after(now@, delay),
            next is Some ==> self.rule.first_firing(now@, next->0 as int) && next->0 <= 7 * DAY,
            next is Some ==> self.rule.next_delay(now@) == Some(next->0 as int),
            next is None ==> self.rule.next_delay(now@) is None,
    {
        let rule = self.rule;
        let weekday = now.weekday();
        let second_of_day = now.second_of_day();
        if !(rule.hour <= 23 && rule.minute <= 59 && rule.second <= 59) {
            return None;
        }
        let at: u32 = rule.hour * 3600 + rule.minute * 60 + rule.second;
        let mut k: u32 = 0;
        while k <= 7
            invariant
                k <= 8,
                rule == self.rule,
                rule.valid_time(),
                at == rule.second_of_day(),
                weekday == now@.weekday,
                second_of_day == now@.second_of_day,
                weekday <= 6,
                second_of_day <= 86399,
                forall|j: int|
                    0 <= j < k ==> !(rule.in_window((weekday + j) % 7) && #[trigger] days_ahead(
                        rule,
                        now@,
                        j,
                    ) >= 1),
            decreases 8 - k,
        {
            let day: u32 = (weekday + k) % 7;
            if rule.window_has(day) && k * DAY + at > second_of_day {
                let delay: u32 = k * DAY + at - second_of_day;
                proof {
                    assert(days_ahead(rule, now@, k as int) == delay);
                    if k == 7 {
                        assert((weekday + 0) % 7 == day);
                        assert(!(rule.in_window((weekday + 0) % 7) && days_ahead(rule, now@, 0)
                            >= 1));
                    }
                    lemma_firing_delays(rule, now@, delay as int);
                    assert forall|earlier: int| 1 <= earlier < delay implies !rule.fires_after(
                        now@,
                        earlier,
                    ) by {
                        lemma_firing_delays(rule, now@, earlier);
                        if rule.fires_after(now@, earlier) {
                            let j = choose|j: int|
                                j >= 0 && #[trigger] days_ahead(rule, now@, j) == earlier
                                    && rule.in_window((now@.weekday + j) % 7);
                            assert(j < k) by (nonlinear_arith)
                                requires
                                    j * 86400 + at - second_of_day < k * 86400 + at
                                        - second_of_day,
                            ;
                        }
                    }
                    assert(rule.first_firing(now@, delay as int));
                    lemma_first_firing_is_unique(rule, now@, delay as int);
                }
                return Some(delay);
            }
            k += 1;
        }
        proof {
            assert forall|delay: int| delay >= 1 implies !rule.fires_after(now@, delay) by {
                lemma_firing_delays(rule, now@, delay);
                if rule.fires_after(now@, delay) {
                    let j = choose|j: int|
                        j >= 0 && #[trigger] days_ahead(rule, now@, j) == delay && rule.in_window(
                            (now@.weekday + j) % 7,
                        );
                    if j >= 8 {
                        let r = j % 7;
                        let same = if r == 0 {
                            7
                        } else {
                            r
                        };
                        assert((now@.weekday + same) % 7 == (now@.weekday + j) % 7);
                        assert(days_ahead(rule, now@, same) >= 1);
                        assert(!(rule.in_window((weekday + same) % 7) && days_ahead(
                            rule,
                            now@,
                            same,
                        ) >= 1));
                    } else {
                        assert(!(rule.in_window((weekday + j) % 7) && days_ahead(rule, now@, j)
                            >= 1));
                    }
                }
            }
        }
        None
    }
}

/// There is one first firing after `now` at most.
pub proof fn lemma_first_firing_is_unique(rule: RecurrenceRuleSet, now: LocalTimeView, delay: int)
    requires
        rule.first_firing(now, delay),
    ensures
        rule.next_delay(now) == Some(delay),
{
    assert(delay >= 1 && rule.fires_after(now, delay));
    let chosen = choose|d: int| rule.first_firing(now, d);
    assert(rule.first_firing(now, chosen));
    if chosen < delay {
        assert(!rule.fires_after(now, chosen));
    } else if delay < chosen {
        assert(!rule.fires_after(now, delay));
    }
}

/// A rule whose time of day is none never fires.
pub proof fn lemma_rule_without_time_never_fires(rule: RecurrenceRuleSet, now: LocalTimeView)
    requires
        !rule.valid_time(),
    ensures
        rule.next_delay(now) is None,
{
}

/// A rule whose time of day is one and whose window holds a weekday fires
/// again within a week.
pub proof fn lemma_rule_fires_within_a_week(rule: RecurrenceRuleSet, now: LocalTimeView, day: int)
    requires
        rule.valid_time(),
        now.is_valid(),
        0 <= day <= 6,
        rule.in_window(day),
    ensures
        rule.next_delay(now) matches Some(delay) && 1 <= delay <= 7 * 86400
            && rule.first_firing(now, delay),
{
    let k = if day > now.weekday {
        day - now.weekday
    } else {
        day - now.weekday + 7
    };
    let later = days_ahead(rule, now, k);
    assert((now.weekday + k) % 7 == day);
    assert(later >= 1);
    lemma_firing_delays(rule, now, later);
    assert(rule.fires_after(now, later));
    let first = least_firing(rule, now, later, 1);
    lemma_first_firing_is_unique(rule, now, first);
    if first > 7 * 86400 {
        lemma_firing_delays(rule, now, first);
        let j = choose|j: int|
            j >= 0 && #[trigger] days_ahead(rule, now, j) == first && rule.in_window(
                (now.weekday + j) % 7,
            );
        assert(j >= 8 || (j == 7 && rule.second_of_day() > now.second_of_day));
        let same = if j % 7 == 0 && j >= 14 {
            7
        } else {
            j % 7
        };
        assert((now.weekday + same) % 7 == (now.weekday + j) % 7);
        let sooner = days_ahead(rule, now, same);
        assert(1 <= sooner < first);
        lemma_firing_delays(rule, now, sooner);
        assert(rule.fires_after(now, sooner));
    }
}

/// The first delay from `from` on at which the rule fires, given that it
/// fires at `later`.
proof fn least_firing(rule: RecurrenceRuleSet, now: LocalTimeView, later: int, from: int) -> (first:
    int)
    requires
        1 <= from <= later,
        rule.fires_after(now, later),
        forall|earlier: int| 1 <= earlier < from ==> !rule.fires_after(now, earlier),
    ensures
        rule.first_firing(now, first),
        first <= later,
    decreases later - from,
{
    if rule.fires_after(now, from) {
        from
    } else {
        least_firing(rule, now, later, from + 1)
    }
}

/// The field of a time of day that `s` writes: one or two digits worth at
/// most `max`.
pub open spec fn time_field(s: Seq<char>, max: nat) -> Option<nat> {
    if 1 <= s.len() <= 2 && all_digits(s) && decimal_value(s) <= max {
        Some(decimal_value(s))
    } else {
        None
    }
}

/// The time of day that `s` writes as `HH`, `HH:MM` or `HH:MM:SS`: an hour
/// up to 23, a minute and a second up to 59, each in one or two digits; the
/// fields that are left out are zero.
pub open spec fn time_of_day(s: Seq<char>) -> Option<(u32, u32, u32)> {
    let parts = split(s, ':');
    let hour = time_field(parts[0], 23);
    let minute = if parts.len() >= 2 {
        time_field(parts[1], 59)
    } else {
        Some(0nat)
    };
    let second = if parts.len() >= 3 {
        time_field(parts[2], 59)
    } else {
        Some(0nat)
    };
    if parts.len() <= 3 && hour is Some && minute is Some && second is Some {
        Some((hour->0 as u32, minute->0 as u32, second->0 as u32))
    } else {
        None
    }
}

/// Reads one field of a time of day.
fn read_time_field(part: &Vec<char>, max: u64) -> (value: Option<u32>)
    requires
        max <= 59,
    ensures
        value is Some <==> time_field(part@, max as nat) is Some,
        value is Some ==> value->0 == time_field(part@, max as nat)->0,
{
    if part.len() < 1 || part.len() > 2 {
        return None;
    }
    proof {
        assert(part@.skip(0) == part@);
    }
    match read_digits(part, 0, max) {
        Some(value) => Some(value as u32),
        None => None,
    }
}

/// Reads a time of day written as `HH`, `HH:MM` or `HH:MM:SS`.
pub fn parse_time(text: &str) -> (time: Option<(u32, u32, u32)>)
    ensures
        time == time_of_day(text@),
{
    let chars = chars_of(text);
    let parts = split_on(&chars, ':');
    if parts.len() > 3 {
        return None;
    }
    let hour = match read_time_field(&parts[0], 23) {
        Some(hour) => hour,
        None => {
            return None;
        },
    };
    let mut minute: u32 = 0;
    if parts.len() >= 2 {
        match read_time_field(&parts[1], 59) {
            Some(value) => {
                minute = value;
            },
            None => {
                return None;
            },
        }
    }
    let mut second: u32 = 0;
    if parts.len() >= 3 {
        match read_time_field(&parts[2], 59) {
            Some(value) => {
                second = value;
            },
            None => {
                return None;
            },
        }
    }
    Some((hour, minute, second))
}

} // verus!
