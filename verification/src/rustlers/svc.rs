//! The supervisor of the adapters: what it schedules for a market, when an
//! adapter is to run, and what it does with the messages that adapters send.

use crate::entities::{market, ticker};
use crate::rustlers::quote::{FloatText, MarketHourType, Quote, QuoteView};
use crate::rustlers::rustlerjar::RustlerJar;
use crate::rustlers::ticker::{Ticker, TickerView};
use crate::sched::{
    parse_time, recur, ruleset, time_of_day, LocalTime, LocalTimeView, RecurrenceRuleSet,
    SchedulingRule,
};
use tokio::sync::mpsc::{Receiver, Sender};
use vstd::prelude::*;
use vstd::string::StringExecFns;

verus! {

/// What an adapter sends to the supervisor.
#[derive(Debug)]
pub enum RustlerMsg {
    /// A quote to be published on the bus.
    QuoteMsg(Quote),
}

/// The message that carries a quote made of the given fields.
#[inline]
pub fn quote(
    symbol: String,
    market: String,
    price: FloatText,
    change_percent: FloatText,
    time: i64,
    market_hours: MarketHourType,
) -> (msg: RustlerMsg)
    ensures
        msg matches RustlerMsg::QuoteMsg(q) && q@ == (QuoteView {
            symbol: symbol@,
            market: market@,
            price: price@,
            change_percent: change_percent@,
            time,
            market_hours,
        }),
{
    RustlerMsg::QuoteMsg(Quote { symbol, market, price, change_percent, time, market_hours })
}

/// The message that carries `quote`.
#[inline]
pub fn to_msg(quote: Quote) -> (msg: RustlerMsg)
    ensures
        msg == RustlerMsg::QuoteMsg(quote),
{
    RustlerMsg::QuoteMsg(quote)
}

/// The receiving half of tokio's bounded channel. The supervisor drains it;
/// the core makes it and hands it out.
#[verifier::external_type_specification]
#[verifier::external_body]
#[verifier::reject_recursive_types(T)]
pub struct ExMpscReceiver<T>(Receiver<T>);

/// The number of messages that the channel from the adapters to the
/// supervisor holds. An adapter that finds it full waits.
pub const CHANNEL_CAPACITY: usize = 100;

/// The two ends of a new channel of tokio's `mpsc::channel` with room for
/// `capacity` messages. tokio panics on a capacity of zero or of more than an
/// eighth of the largest number.
#[verifier::external_body]
fn open_channel(capacity: usize) -> (ends: (Sender<RustlerMsg>, Receiver<RustlerMsg>))
    requires
        0 < capacity <= usize::MAX / 8,
{
    tokio::sync::mpsc::channel(capacity)
}

/// One more sender of the channel of `sender`, from the `Clone` of tokio's
/// `mpsc::Sender`.
#[verifier::external_body]
fn another_sender(sender: &Sender<RustlerMsg>) -> (copy: Sender<RustlerMsg>) {
    sender.clone()
}

/// Why a market cannot be scheduled.
#[derive(Debug, Clone, Copy, PartialEq, Eq, Structural)]
pub enum ConfigError {
    /// The opening time is no time of day.
    InvalidOpenTime,
    /// The closing time is no time of day.
    InvalidCloseTime,
}

/// Why the supervisor ends or refuses.
#[derive(Debug, Clone, Copy, PartialEq, Eq, Structural)]
pub enum SvcError {
    /// The catalog holds no market.
    NoMarketsFound,
    /// Every adapter has dropped its sender: no message can come any more.
    RustlersStopped,
    /// A quote could not be published, and the supervisor was told to stop
    /// on that.
    PublishFailed,
    /// The supervisor cannot be restarted.
    NotSupported,
}

impl SvcError {
    /// The error in words.
    pub fn message(&self) -> (text: String)
        ensures
            text@ == match self {
                SvcError::NoMarketsFound => "No markets found"@,
                SvcError::RustlersStopped => "Rustlers stopped"@,
                SvcError::PublishFailed => "Publishing failed"@,
                SvcError::NotSupported => "Restart is not supported"@,
            },
    {
        match self {
            SvcError::NoMarketsFound => String::from_str("No markets found"),
            SvcError::RustlersStopped => String::from_str("Rustlers stopped"),
            SvcError::PublishFailed => String::from_str("Publishing failed"),
            SvcError::NotSupported => String::from_str("Restart is not supported"),
        }
    }
}

/// Whether an offset is added to the hour or taken from it.
#[derive(Debug, Clone, Copy, PartialEq, Eq, Structural)]
pub enum Op {
    Add,
    Sub,
}

/// The hour `hour` moved by `offset` hours; it stops at zero and at the
/// largest number rather than wrap around.
pub open spec fn offset_hour(hour: u32, offset: u32, op: Op) -> u32 {
    match op {
        Op::Add => if hour + offset > u32::MAX {
            u32::MAX
        } else {
            (hour + offset) as u32
        },
        Op::Sub => if hour < offset {
            0
        } else {
            (hour - offset) as u32
        },
    }
}

/// The rule of `base` at the time of day `time` with its hour moved by
/// `offset`. An hour moved past 23 makes a rule that never fires.
pub fn make_rule(base: &RecurrenceRuleSet, time: (u32, u32, u32), offset: u32, op: Op) -> (rule:
    RecurrenceRuleSet)
    ensures
        rule == (RecurrenceRuleSet {
            hour: offset_hour(time.0, offset, op),
            minute: time.1,
            second: time.2,
            ..*base
        }),
{
    let (h, m, s) = time;
    let h = match op {
        Op::Add => h.saturating_add(offset),
        Op::Sub => h.saturating_sub(offset),
    };
    let mut rule = *base;
    rule.at_time(h, m, s);
    rule
}

/// The value of `field`, or zero where there is none.
pub open spec fn or_zero(field: Option<u32>) -> u32 {
    match field {
        Some(value) => value,
        None => 0,
    }
}

/// The rules at which collection for a market starts and stops. A market
/// without an opening or a closing time has none. Else both times must be
/// times of day; collection starts on the market's weekdays at the opening
/// time less the hours before the market, and stops on them at the closing
/// time plus the hours after it.
pub open spec fn schedule_rules(mkt: market::Model) -> Result<
    Option<(SchedulingRule, SchedulingRule)>,
    ConfigError,
> {
    if mkt.open_time is None || mkt.close_time is None {
        Ok(None)
    } else if time_of_day(mkt.open_time->0@) is None {
        Err(ConfigError::InvalidOpenTime)
    } else if time_of_day(mkt.close_time->0@) is None {
        Err(ConfigError::InvalidCloseTime)
    } else {
        let open = time_of_day(mkt.open_time->0@)->0;
        let close = time_of_day(mkt.close_time->0@)->0;
        let from_dow = or_zero(mkt.opens_from);
        let till_dow = or_zero(mkt.opens_till);
        Ok(
            Some(
                (
                    SchedulingRule {
                        rule: RecurrenceRuleSet {
                            from_dow,
                            till_dow,
                            hour: offset_hour(open.0, or_zero(mkt.pre_market_offset), Op::Sub),
                            minute: open.1,
                            second: open.2,
                        },
                    },
                    SchedulingRule {
                        rule: RecurrenceRuleSet {
                            from_dow,
                            till_dow,
                            hour: offset_hour(close.0, or_zero(mkt.post_market_offset), Op::Add),
                            minute: close.1,
                            second: close.2,
                        },
                    },
                ),
            ),
        )
    }
}

/// Whether an adapter is to run at the instant `now`, given the next instants
/// at which its start rule and its stop rule fire: where the start rule fires
/// again and the stop rule never does; or where both fire again, the stop
/// before the start, and the stop is still to come.
pub open spec fn should_run(now: int, start: Option<int>, stop: Option<int>) -> bool {
    match (start, stop) {
        (Some(s), None) => true,
        (Some(s), Some(e)) => e < s && now < e,
        _ => false,
    }
}

/// Whether an adapter with the rules `rules` is to run at the local time
/// `now`: always where it has no rules, else as the next firings of its two
/// rules after `now` say.
pub open spec fn should_run_at(
    rules: Option<(SchedulingRule, SchedulingRule)>,
    now: LocalTimeView,
) -> bool {
    match rules {
        None => true,
        Some((start, stop)) => should_run(
            0,
            start.rule.next_delay(now),
            stop.rule.next_delay(now),
        ),
    }
}

/// Whether an adapter is to run at the instant `now`, given the next instants
/// at which its start rule and its stop rule fire. The three are instants of
/// one clock, in any unit.
pub fn should_be_running(now: i64, start: Option<i64>, stop: Option<i64>) -> (running: bool)
    ensures
        running == should_run(
            now as int,
            match start {
                Some(s) => Some(s as int),
                None => None,
            },
            match stop {
                Some(e) => Some(e as int),
                None => None,
            },
        ),
{
    match (start, stop) {
        (Some(_), None) => true,
        (Some(s), Some(e)) => e < s && now < e,
        _ => false,
    }
}

/// Whether an adapter with the rules `rules` is to run at the local time
/// `now`.
pub fn should_be_running_at(rules: &Option<(SchedulingRule, SchedulingRule)>, now: &LocalTime) -> (running:
    bool)
    ensures
        running == should_run_at(*rules, now@),
{
    match rules {
        None => true,
        Some((start, stop)) => {
            let s = start.next_from(now);
            let e = stop.next_from(now);
            match (s, e) {
                (Some(_), None) => true,
                (Some(s), Some(e)) => e < s && 0 < e,
                _ => false,
            }
        },
    }
}

/// Whether an adapter with the rules `rules` is to run now, by the local
/// clock.
pub fn should_be_running_now(rules: &Option<(SchedulingRule, SchedulingRule)>) -> (running: bool)
    ensures
        *rules is None ==> running,
        exists|now: LocalTimeView| running == #[trigger] should_run_at(*rules, now),
{
    let now = LocalTime::now();
    should_be_running_at(rules, &now)
}

/// A job for the scheduler: a name and the rule at which it runs.
#[derive(Debug)]
pub struct Job {
    pub name: String,
    pub rule: SchedulingRule,
}

/// What the supervisor does for a market that has an adapter, in this order:
/// it hands the adapter the sender of its channel; it registers the two
/// jobs, where the market has a trading window, of which the first starts the
/// adapter for the tickers and the second stops it for them; and it starts
/// the adapter for the tickers right away where `start_now` says so.
pub struct MarketPlan<'a, R> {
    pub rustler: &'a R,
    pub sender: Sender<RustlerMsg>,
    pub tickers: Vec<Ticker>,
    pub jobs: Option<(Job, Job)>,
    pub start_now: bool,
}

/// What became of a market when the supervisor went through the catalog.
pub enum MarketOutcome<'a, R> {
    /// The market is scheduled as the plan says.
    Scheduled(MarketPlan<'a, R>),
    /// The jar holds no adapter for the market: it is passed over with a
    /// warning.
    NoRustler,
    /// The market's trading window cannot be read: it is passed over.
    InvalidConfig(ConfigError),
}

/// What the supervisor has when it has gone through the catalog: an outcome
/// for each market, and the receiving end of the channel whose senders the
/// plans carry. The channel closes when every adapter has dropped its sender.
pub struct Started<'a, R> {
    pub outcomes: Vec<MarketOutcome<'a, R>>,
    pub receiver: Receiver<RustlerMsg>,
}

/// The name of the job that starts the adapter of the market `short_name`.
pub open spec fn start_job_name(short_name: Seq<char>) -> Seq<char> {
    "start-rustler-"@ + short_name
}

/// The name of the job that stops the adapter of the market `short_name`.
pub open spec fn end_job_name(short_name: Seq<char>) -> Seq<char> {
    "end-rustler-"@ + short_name
}

/// The tickers of catalog rows on the market `m`, as plain values.
pub open spec fn tickers_of(rows: Seq<ticker::Model>, m: market::Model) -> Seq<TickerView> {
    Seq::new(
        rows.len(),
        |i: int|
            TickerView::of_row(
                rows[i].symbol@,
                match rows[i].quote_symbol {
                    Some(q) => Some(q@),
                    None => None,
                },
                m.effective_name(),
            ),
    )
}

/// What the supervisor does with its channel and its publisher.
pub enum ForwardEvent {
    /// An adapter has sent a message.
    Received(RustlerMsg),
    /// The quote that was handed to the publisher is published.
    Published,
    /// The publisher failed on the quote that was handed to it.
    PublishFailed,
    /// Every sender is dropped: the channel is closed.
    Closed,
}

/// What the supervisor does next.
pub enum ForwardAction {
    /// Hand this quote to the publisher.
    Publish(Quote),
    /// Wait for the next message of the channel.
    Receive,
    /// End with this error.
    Exit(SvcError),
}

/// What the supervisor does when the publisher fails on a quote.
#[derive(Debug, Clone, Copy, PartialEq, Eq, Structural)]
pub enum PublishFailurePolicy {
    /// Note the failure and go on with the next message.
    Continue,
    /// End with an error.
    Stop,
}

impl Default for PublishFailurePolicy {
    /// The supervisor goes on.
    fn default() -> (policy: Self)
        ensures
            policy == PublishFailurePolicy::Continue,
    {
        PublishFailurePolicy::Continue
    }
}

/// A step of starting or stopping an adapter for the tickers of a market.
#[derive(Debug, Clone, Copy, PartialEq, Eq, Structural)]
pub enum RustlerStep {
    /// The supervisor has taken the adapter's lock.
    Locked,
    /// The adapter's `start` has ended, well or not.
    Started(bool),
    /// The adapter's `add` has ended, well or not.
    Added(bool),
    /// The adapter's `delete` has ended, well or not.
    Deleted(bool),
}

/// What the supervisor asks of an adapter next.
#[derive(Debug, Clone, Copy, PartialEq, Eq, Structural)]
pub enum RustlerCall {
    /// Call the adapter's `start`.
    Start,
    /// Call the adapter's `add` with the tickers.
    Add,
    /// Call the adapter's `delete` with the tickers.
    Delete,
    /// Nothing more: release the lock. A step that failed is noted with a
    /// warning and ends nothing but this run.
    Done,
}

/// The supervisor of the adapters.
pub struct RustlersSvc<R> {
    rustlers: RustlerJar<R>,
    on_publish_failure: PublishFailurePolicy,
}

impl<R> RustlersSvc<R> {
    /// The jar that the supervisor picks adapters from.
    pub closed spec fn jar(&self) -> RustlerJar<R> {
        self.rustlers
    }

    /// What the supervisor does when the publisher fails.
    pub closed spec fn policy(&self) -> PublishFailurePolicy {
        self.on_publish_failure
    }

    /// A supervisor of the adapters of `rustlers` that goes on when the
    /// publisher fails.
    pub fn new(rustlers: RustlerJar<R>) -> (svc: Self)
        ensures
            svc.jar() == rustlers,
            svc.policy() == PublishFailurePolicy::Continue,
    {
        RustlersSvc { rustlers, on_publish_failure: PublishFailurePolicy::Continue }
    }

    /// Says what the supervisor does when the publisher fails.
    pub fn set_publish_failure_policy(&mut self, policy: PublishFailurePolicy)
        ensures
            final(self).jar() == old(self).jar(),
            final(self).policy() == policy,
    {
        self.on_publish_failure = policy;
    }

    /// The plan of the market `market` with its ticker rows at the local time
    /// `now`. The market's trading window is read first, and a window that
    /// cannot be read passes the market over; then the adapter is looked up
    /// by the market's short name, and a market without one is passed over.
    pub open spec fn outcome_matches(
        &self,
        outcome: MarketOutcome<'_, R>,
        market: (market::Model, Vec<ticker::Model>),
        now: LocalTimeView,
    ) -> bool {
        let (m, rows) = market;
        match schedule_rules(m) {
            Err(error) => outcome == MarketOutcome::<R>::InvalidConfig(error),
            Ok(rules) => match self.jar().resolve(m.short_name@) {
                None => outcome is NoRustler,
                Some(rustler) => {
                    &&& outcome matches MarketOutcome::Scheduled(plan)
                    &&& *plan.rustler == rustler
                    &&& crate::rustlers::rustler::views(plan.tickers@) == tickers_of(rows@, m)
                    &&& plan.start_now == should_run_at(rules, now)
                    &&& match rules {
                        None => plan.jobs is None,
                        Some((start, stop)) => {
                            &&& plan.jobs matches Some((start_job, end_job))
                            &&& start_job.name@ == start_job_name(m.short_name@)
                            &&& start_job.rule == start
                            &&& end_job.name@ == end_job_name(m.short_name@)
                            &&& end_job.rule == stop
                        },
                    }
                },
            },
        }
    }

    /// Whether `outcomes` are the outcomes of `markets` at the local time
    /// `now`, one for each market in their order.
    pub open spec fn outcomes_match(
        &self,
        outcomes: Seq<MarketOutcome<'_, R>>,
        markets: Seq<(market::Model, Vec<ticker::Model>)>,
        now: LocalTimeView,
    ) -> bool {
        outcomes.len() == markets.len() && forall|i: int|
            0 <= i < markets.len() ==> self.outcome_matches(#[trigger] outcomes[i], markets[i], now)
    }

    /// Plans a market at the local time `now`. The plan of a market that has
    /// an adapter carries `sender` for it.
    pub fn schedule_rustler_at(
        &self,
        market: (market::Model, Vec<ticker::Model>),
        sender: Sender<RustlerMsg>,
        now: &LocalTime,
    ) -> (outcome: MarketOutcome<'_, R>)
        ensures
            self.outcome_matches(outcome, market, now@),
            outcome matches MarketOutcome::Scheduled(plan) ==> plan.sender == sender,
    {
        let (m, rows) = market;
        let tickers = Ticker::many_from(rows.as_slice(), &m);
        proof {
            assert(crate::rustlers::rustler::views(tickers@) =~= tickers_of(rows@, m));
        }
        let rules = match self.get_schedule_rules_for(&m) {
            Ok(rules) => rules,
            Err(error) => {
                return MarketOutcome::InvalidConfig(error);
            },
        };
        match self.rustlers.get(&m) {
            None => MarketOutcome::NoRustler,
            Some(rustler) => {
                let jobs = match &rules {
                    None => None,
                    Some((start, stop)) => {
                        let mut start_name = String::from_str("start-rustler-");
                        start_name.append(m.short_name.as_str());
                        let mut end_name = String::from_str("end-rustler-");
                        end_name.append(m.short_name.as_str());
                        Some(
                            (
                                Job { name: start_name, rule: *start },
                                Job { name: end_name, rule: *stop },
                            ),
                        )
                    },
                };
                let start_now = should_be_running_at(&rules, now);
                MarketOutcome::Scheduled(MarketPlan { rustler, sender, tickers, jobs, start_now })
            },
        }
    }

    /// Plans a market now, by the local clock.
    pub fn schedule_rustler_for(
        &self,
        market: (market::Model, Vec<ticker::Model>),
        sender: Sender<RustlerMsg>,
    ) -> (outcome: MarketOutcome<'_, R>)
        ensures
            exists|now: LocalTimeView| #[trigger] self.outcome_matches(outcome, market, now),
            outcome matches MarketOutcome::Scheduled(plan) ==> plan.sender == sender,
    {
        let now = LocalTime::now();
        self.schedule_rustler_at(market, sender, &now)
    }

    /// The rules at which collection for a market starts and stops.
    pub fn get_schedule_rules_for(&self, mkt: &market::Model) -> (rules: Result<
        Option<(SchedulingRule, SchedulingRule)>,
        ConfigError,
    >)
        ensures
            rules == schedule_rules(*mkt),
    {
        let (open_text, close_text) = match (&mkt.open_time, &mkt.close_time) {
            (Some(open), Some(close)) => (open, close),
            _ => {
                return Ok(None);
            },
        };
        let open_time = match parse_time(open_text.as_str()) {
            Some(time) => time,
            None => {
                return Err(ConfigError::InvalidOpenTime);
            },
        };
        let close_time = match parse_time(close_text.as_str()) {
            Some(time) => time,
            None => {
                return Err(ConfigError::InvalidCloseTime);
            },
        };
        let pre_offset = match mkt.pre_market_offset {
            Some(offset) => offset,
            None => 0,
        };
        let post_offset = match mkt.post_market_offset {
            Some(offset) => offset,
            None => 0,
        };
        let from_dow = match mkt.opens_from {
            Some(day) => day,
            None => 0,
        };
        let till_dow = match mkt.opens_till {
            Some(day) => day,
            None => 0,
        };
        let mut rule = ruleset();
        rule.from_to_dow(from_dow, till_dow);
        let start_rule = make_rule(&rule, open_time, pre_offset, Op::Sub);
        let stop_rule = make_rule(&rule, close_time, post_offset, Op::Add);
        Ok(Some((recur(&start_rule), recur(&stop_rule))))
    }

    /// Goes through the markets of the catalog at the local time `now`:
    /// without a market the supervisor ends with an error; else it opens its
    /// channel and has one outcome for each market, in their order, each plan
    /// with a sender of the channel.
    pub fn start_at(&self, markets: Vec<(market::Model, Vec<ticker::Model>)>, now: &LocalTime) -> (started:
        Result<Started<'_, R>, SvcError>)
        ensures
            markets.len() == 0 ==> started matches Err(SvcError::NoMarketsFound),
            markets.len() > 0 ==> (started matches Ok(s) && self.outcomes_match(
                s.outcomes@,
                markets@,
                now@,
            )),
    {
        if markets.len() == 0 {
            return Err(SvcError::NoMarketsFound);
        }
        let (sender, receiver) = open_channel(CHANNEL_CAPACITY);
        let ghost all = markets@;
        let mut outcomes: Vec<MarketOutcome<'_, R>> = Vec::new();
        for market in it: markets
            invariant
                it.seq() == all,
                outcomes.len() == it.index(),
                forall|i: int|
                    0 <= i < outcomes.len() ==> self.outcome_matches(
                        #[trigger] outcomes[i],
                        all[i],
                        now@,
                    ),
        {
            let outcome = self.schedule_rustler_at(market, another_sender(&sender), now);
            outcomes.push(outcome);
        }
        Ok(Started { outcomes, receiver })
    }

    /// Goes through the markets of the catalog now, by the local clock.
    pub fn start(&self, markets: Vec<(market::Model, Vec<ticker::Model>)>) -> (started: Result<
        Started<'_, R>,
        SvcError,
    >)
        ensures
            markets.len() == 0 ==> started matches Err(SvcError::NoMarketsFound),
            markets.len() > 0 ==> (started matches Ok(s) && exists|now: LocalTimeView| #[trigger]
                self.outcomes_match(s.outcomes@, markets@, now)),
    {
        let now = LocalTime::now();
        self.start_at(markets, &now)
    }

    /// Restarting is not supported: the supervisor does not keep what it
    /// would have to take down.
    pub fn restart(&self) -> (done: Result<(), SvcError>)
        ensures
            done == Err::<(), SvcError>(SvcError::NotSupported),
    {
        Err(SvcError::NotSupported)
    }

    /// What the supervisor does next with its channel and its publisher. A
    /// quote that comes in goes to the publisher; after a quote is published
    /// the next message is awaited; after the publisher failed the policy
    /// decides; when the channel is closed the supervisor ends.
    pub fn forward(&self, event: ForwardEvent) -> (action: ForwardAction)
        ensures
            action == match event {
                ForwardEvent::Received(RustlerMsg::QuoteMsg(quote)) => ForwardAction::Publish(
                    quote,
                ),
                ForwardEvent::Published => ForwardAction::Receive,
                ForwardEvent::PublishFailed => match self.policy() {
                    PublishFailurePolicy::Continue => ForwardAction::Receive,
                    PublishFailurePolicy::Stop => ForwardAction::Exit(SvcError::PublishFailed),
                },
                ForwardEvent::Closed => ForwardAction::Exit(SvcError::RustlersStopped),
            },
    {
        match event {
            ForwardEvent::Received(RustlerMsg::QuoteMsg(quote)) => ForwardAction::Publish(quote),
            ForwardEvent::Published => ForwardAction::Receive,
            ForwardEvent::PublishFailed => match self.on_publish_failure {
                PublishFailurePolicy::Continue => ForwardAction::Receive,
                PublishFailurePolicy::Stop => ForwardAction::Exit(SvcError::PublishFailed),
            },
            ForwardEvent::Closed => ForwardAction::Exit(SvcError::RustlersStopped),
        }
    }

    /// What the supervisor asks next of an adapter that it starts for
    /// `tickers`: first `start`; after a `start` that went well, `add` where
    /// there are tickers; nothing more after that or after a failure.
    pub fn start_rustler_for(step: RustlerStep, tickers: &Vec<Ticker>) -> (call: RustlerCall)
        ensures
            call == match step {
                RustlerStep::Locked => RustlerCall::Start,
                RustlerStep::Started(true) => if tickers.len() > 0 {
                    RustlerCall::Add
                } else {
                    RustlerCall::Done
                },
                _ => RustlerCall::Done,
            },
    {
        match step {
            RustlerStep::Locked => RustlerCall::Start,
            RustlerStep::Started(true) => if tickers.len() > 0 {
                RustlerCall::Add
            } else {
                RustlerCall::Done
            },
            _ => RustlerCall::Done,
        }
    }

    /// What the supervisor asks next of an adapter that it stops for
    /// `tickers`: `delete` where there are tickers, and nothing more after
    /// that. An adapter that other markets share goes on for their tickers.
    pub fn stop_rustler_for(step: RustlerStep, tickers: &Vec<Ticker>) -> (call: RustlerCall)
        ensures
            call == match step {
                RustlerStep::Locked => if tickers.len() > 0 {
                    RustlerCall::Delete
                } else {
                    RustlerCall::Done
                },
                _ => RustlerCall::Done,
            },
    {
        match step {
            RustlerStep::Locked => if tickers.len() > 0 {
                RustlerCall::Delete
            } else {
                RustlerCall::Done
            },
            _ => RustlerCall::Done,
        }
    }
}

} // verus!
