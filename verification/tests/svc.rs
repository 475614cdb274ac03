use chrono::{Datelike, NaiveDate};
use rustler_core::entities::{market, ticker};
use rustler_core::rustlers::rustlerjar::RustlerJar;
use rustler_core::rustlers::svc::{
    make_rule, should_be_running, should_be_running_at, should_be_running_now, ConfigError,
    ForwardAction, ForwardEvent, MarketOutcome, Op, PublishFailurePolicy, RustlerCall,
    RustlerMsg, RustlerStep, RustlersSvc, SvcError, CHANNEL_CAPACITY,
};
use rustler_core::rustlers::{FloatText, MarketHourType, Quote, Ticker};
use rustler_core::sched::{recur, ruleset, LocalTime, RecurrenceRuleSet, SchedulingRule};
use tokio::sync::mpsc::error::TryRecvError;
use tokio::sync::mpsc::Sender;

fn a_sender() -> Sender<RustlerMsg> {
    tokio::sync::mpsc::channel(CHANNEL_CAPACITY).0
}

fn market_row(short_name: &str) -> market::Model {
    market::Model {
        id: format!("id-{}", short_name),
        short_name: short_name.to_string(),
        full_name: short_name.to_string(),
        pub_name: None,
        opens_from: Some(1),
        opens_till: Some(5),
        open_time: Some("09:30".to_string()),
        close_time: Some("16:00".to_string()),
        pre_market_offset: Some(1),
        post_market_offset: Some(1),
        time_zone_offset: None,
    }
}

fn ticker_row(symbol: &str) -> ticker::Model {
    ticker::Model {
        id: format!("t-{}", symbol),
        symbol: symbol.to_string(),
        quote_symbol: None,
        market_id: "m".to_string(),
    }
}

fn svc() -> RustlersSvc<&'static str> {
    RustlersSvc::new(RustlerJar::new(
        vec![("FooRustler".to_string(), "foo"), ("BarRustler".to_string(), "bar")],
        vec![
            ("NYSE".to_string(), "FooRustler".to_string()),
            ("NASDAQ".to_string(), "FooRustler".to_string()),
            ("BINANCE".to_string(), "BarRustler".to_string()),
        ],
    ))
}

fn weekday_of(year: i32, month: u32, day: u32) -> u32 {
    NaiveDate::from_ymd_opt(year, month, day).unwrap().weekday().num_days_from_sunday()
}

fn tuesday_noon() -> LocalTime {
    LocalTime::new(weekday_of(2024, 3, 26), 12, 0, 0).unwrap()
}

fn saturday_noon() -> LocalTime {
    LocalTime::new(weekday_of(2024, 3, 30), 12, 0, 0).unwrap()
}

fn window_rules() -> Option<(SchedulingRule, SchedulingRule)> {
    svc().get_schedule_rules_for(&market_row("NYSE")).unwrap()
}

fn a_quote() -> Quote {
    Quote {
        symbol: "BTCUSDT".to_string(),
        market: "BINANCE".to_string(),
        price: FloatText::parse("50000").unwrap(),
        change_percent: FloatText::parse("0").unwrap(),
        time: 198798798798,
        market_hours: MarketHourType::Regular,
    }
}

#[test]
fn offsets_move_the_hours_of_the_window() {
    let mut base = ruleset();
    base.from_to_dow(1, 5);
    let start = make_rule(&base, (9, 30, 0), 1, Op::Sub);
    let stop = make_rule(&base, (16, 0, 0), 1, Op::Add);
    assert_eq!(start.hour, 8);
    assert_eq!(stop.hour, 17);
    assert_eq!(
        start,
        RecurrenceRuleSet { from_dow: 1, till_dow: 5, hour: 8, minute: 30, second: 0 }
    );
    assert_eq!(
        stop,
        RecurrenceRuleSet { from_dow: 1, till_dow: 5, hour: 17, minute: 0, second: 0 }
    );
}

#[test]
fn offsets_stop_at_the_ends_instead_of_wrapping() {
    let base = ruleset();
    assert_eq!(make_rule(&base, (1, 15, 20), 3, Op::Sub).hour, 0);
    assert_eq!(make_rule(&base, (0, 0, 0), 0, Op::Sub).hour, 0);
    assert_eq!(make_rule(&base, (5, 0, 0), u32::MAX, Op::Sub).hour, 0);
    assert_eq!(make_rule(&base, (22, 0, 0), 3, Op::Add).hour, 25);
    assert_eq!(make_rule(&base, (22, 0, 0), u32::MAX, Op::Add).hour, u32::MAX);
    assert_eq!(make_rule(&base, (5, 7, 9), 0, Op::Add), RecurrenceRuleSet {
        from_dow: 0,
        till_dow: 6,
        hour: 5,
        minute: 7,
        second: 9,
    });
}

#[test]
fn market_with_a_window_gets_two_rules() {
    let (start, stop) = window_rules().unwrap();
    assert_eq!(
        start.rule,
        RecurrenceRuleSet { from_dow: 1, till_dow: 5, hour: 8, minute: 30, second: 0 }
    );
    assert_eq!(
        stop.rule,
        RecurrenceRuleSet { from_dow: 1, till_dow: 5, hour: 17, minute: 0, second: 0 }
    );
}

#[test]
fn market_without_opening_or_closing_time_gets_no_rules() {
    let mut m = market_row("NYSE");
    m.open_time = None;
    assert_eq!(svc().get_schedule_rules_for(&m), Ok(None));
    let mut m = market_row("NYSE");
    m.close_time = None;
    assert_eq!(svc().get_schedule_rules_for(&m), Ok(None));
    let mut m = market_row("NYSE");
    m.open_time = None;
    m.close_time = Some("nonsense".to_string());
    assert_eq!(svc().get_schedule_rules_for(&m), Ok(None));
}

#[test]
fn missing_days_and_offsets_count_as_zero() {
    let mut m = market_row("NYSE");
    m.opens_from = None;
    m.opens_till = None;
    m.pre_market_offset = None;
    m.post_market_offset = None;
    m.open_time = Some("09".to_string());
    m.close_time = Some("16:15:30".to_string());
    let (start, stop) = svc().get_schedule_rules_for(&m).unwrap().unwrap();
    assert_eq!(
        start.rule,
        RecurrenceRuleSet { from_dow: 0, till_dow: 0, hour: 9, minute: 0, second: 0 }
    );
    assert_eq!(
        stop.rule,
        RecurrenceRuleSet { from_dow: 0, till_dow: 0, hour: 16, minute: 15, second: 30 }
    );
}

#[test]
fn unreadable_times_are_configuration_errors() {
    let mut m = market_row("NYSE");
    m.open_time = Some("9h30".to_string());
    assert_eq!(svc().get_schedule_rules_for(&m), Err(ConfigError::InvalidOpenTime));
    let mut m = market_row("NYSE");
    m.close_time = Some("25:00".to_string());
    assert_eq!(svc().get_schedule_rules_for(&m), Err(ConfigError::InvalidCloseTime));
    let mut m = market_row("NYSE");
    m.open_time = Some("".to_string());
    m.close_time = Some("".to_string());
    assert_eq!(svc().get_schedule_rules_for(&m), Err(ConfigError::InvalidOpenTime));
}

#[test]
fn running_is_decided_by_the_next_start_and_stop() {
    // The stop comes before the next start and is still to come.
    assert!(should_be_running(100, Some(300), Some(200)));
    // The start comes first: the window has not opened.
    assert!(!should_be_running(100, Some(200), Some(300)));
    assert!(!should_be_running(100, Some(200), Some(200)));
    // The stop is not after now.
    assert!(!should_be_running(100, Some(300), Some(100)));
    assert!(!should_be_running(100, Some(300), Some(50)));
    // The stop never comes.
    assert!(should_be_running(100, Some(300), None));
    // The start never comes.
    assert!(!should_be_running(100, None, Some(200)));
    assert!(!should_be_running(100, None, None));
}

#[test]
fn adapter_runs_on_tuesday_noon() {
    assert!(should_be_running_at(&window_rules(), &tuesday_noon()));
}

#[test]
fn adapter_does_not_run_on_saturday_noon() {
    assert!(!should_be_running_at(&window_rules(), &saturday_noon()));
}

#[test]
fn adapter_runs_inside_the_window_only() {
    let rules = window_rules();
    let at = |weekday, hour, minute, second| LocalTime::new(weekday, hour, minute, second).unwrap();
    assert!(!should_be_running_at(&rules, &at(1, 8, 29, 59)));
    // At the instant of the start the next start is a day away.
    assert!(should_be_running_at(&rules, &at(1, 8, 30, 0)));
    assert!(should_be_running_at(&rules, &at(1, 8, 30, 1)));
    assert!(should_be_running_at(&rules, &at(5, 16, 59, 59)));
    assert!(!should_be_running_at(&rules, &at(5, 17, 0, 0)));
    assert!(!should_be_running_at(&rules, &at(0, 12, 0, 0)));
    assert!(!should_be_running_at(&rules, &at(3, 3, 0, 0)));
}

#[test]
fn adapter_without_rules_always_runs() {
    assert!(should_be_running_at(&None, &tuesday_noon()));
    assert!(should_be_running_at(&None, &saturday_noon()));
    assert!(should_be_running_now(&None));
}

#[test]
fn adapter_whose_stop_never_fires_runs_whenever_it_starts() {
    let mut start = ruleset();
    start.from_to_dow(1, 5);
    start.at_time(8, 0, 0);
    let mut stop = start;
    stop.at_time(25, 0, 0);
    let rules = Some((recur(&start), recur(&stop)));
    assert!(should_be_running_at(&rules, &saturday_noon()));
    let never = Some((recur(&stop), recur(&start)));
    assert!(!should_be_running_at(&never, &tuesday_noon()));
    let neither = Some((recur(&stop), recur(&stop)));
    assert!(!should_be_running_at(&neither, &tuesday_noon()));
    assert!(!should_be_running_now(&neither));
}

#[test]
fn now_agrees_with_the_clock() {
    let rules = window_rules();
    let before = LocalTime::now();
    let running = should_be_running_now(&rules);
    let after = LocalTime::now();
    assert!(
        running == should_be_running_at(&rules, &before)
            || running == should_be_running_at(&rules, &after)
    );
}

#[test]
fn cold_start_in_the_window_starts_right_away() {
    let svc = svc();
    let rows = vec![ticker_row("AAPL"), ticker_row("MSFT")];
    match svc.schedule_rustler_at((market_row("NYSE"), rows), a_sender(), &tuesday_noon()) {
        MarketOutcome::Scheduled(plan) => {
            assert_eq!(*plan.rustler, "foo");
            assert!(plan.start_now);
            let keys: Vec<String> = plan.tickers.iter().map(|t| t.key()).collect();
            assert_eq!(keys, vec!["NYSE:AAPL", "NYSE:MSFT"]);
            let (start, end) = plan.jobs.unwrap();
            assert_eq!(start.name, "start-rustler-NYSE");
            assert_eq!(end.name, "end-rustler-NYSE");
            assert_eq!(start.rule.rule.hour, 8);
            assert_eq!(end.rule.rule.hour, 17);
            assert_eq!(start.rule.next_from(&tuesday_noon()), Some(20 * 3600 + 30 * 60));
            assert_eq!(end.rule.next_from(&tuesday_noon()), Some(5 * 3600));
        }
        _ => panic!("a market with an adapter is scheduled"),
    }
}

#[test]
fn cold_start_outside_the_window_waits() {
    let svc = svc();
    match svc.schedule_rustler_at(
        (market_row("NASDAQ"), vec![ticker_row("GOOGL")]),
        a_sender(),
        &saturday_noon(),
    )
    {
        MarketOutcome::Scheduled(plan) => {
            assert_eq!(*plan.rustler, "foo");
            assert!(!plan.start_now);
            assert!(plan.jobs.is_some());
        }
        _ => panic!("a market with an adapter is scheduled"),
    }
}

#[test]
fn market_without_a_window_runs_forever() {
    let svc = svc();
    let mut m = market_row("BINANCE");
    m.open_time = None;
    m.close_time = None;
    m.pub_name = Some("Binance".to_string());
    match svc.schedule_rustler_at((m, vec![ticker_row("BTCUSDT")]), a_sender(), &saturday_noon()) {
        MarketOutcome::Scheduled(plan) => {
            assert_eq!(*plan.rustler, "bar");
            assert!(plan.start_now);
            assert!(plan.jobs.is_none());
            assert_eq!(plan.tickers[0].key(), "Binance:BTCUSDT");
        }
        _ => panic!("a market with an adapter is scheduled"),
    }
}

#[test]
fn market_without_an_adapter_is_passed_over() {
    let svc = svc();
    assert!(matches!(
        svc.schedule_rustler_at(
            (market_row("XYZ"), vec![ticker_row("A")]),
            a_sender(),
            &tuesday_noon()
        ),
        MarketOutcome::NoRustler
    ));
    assert!(matches!(
        svc.schedule_rustler_for((market_row("XYZ"), Vec::new()), a_sender()),
        MarketOutcome::NoRustler
    ));
}

#[test]
fn market_with_unreadable_times_is_passed_over() {
    let svc = svc();
    let mut m = market_row("NYSE");
    m.close_time = Some("late".to_string());
    assert!(matches!(
        svc.schedule_rustler_at((m, Vec::new()), a_sender(), &tuesday_noon()),
        MarketOutcome::InvalidConfig(ConfigError::InvalidCloseTime)
    ));
    let mut unknown = market_row("XYZ");
    unknown.open_time = Some("early".to_string());
    assert!(matches!(
        svc.schedule_rustler_at((unknown, Vec::new()), a_sender(), &tuesday_noon()),
        MarketOutcome::InvalidConfig(ConfigError::InvalidOpenTime)
    ));
}

#[test]
fn other_markets_are_scheduled_when_one_has_no_adapter() {
    let svc = svc();
    let mut broken = market_row("NASDAQ");
    broken.open_time = Some("x".to_string());
    let markets = vec![
        (market_row("NYSE"), vec![ticker_row("AAPL")]),
        (market_row("XYZ"), vec![ticker_row("A")]),
        (broken, vec![ticker_row("B")]),
        (market_row("BINANCE"), Vec::new()),
    ];
    let outcomes = svc.start_at(markets, &tuesday_noon()).ok().unwrap().outcomes;
    assert_eq!(outcomes.len(), 4);
    assert!(matches!(&outcomes[0], MarketOutcome::Scheduled(plan) if *plan.rustler == "foo"));
    assert!(matches!(outcomes[1], MarketOutcome::NoRustler));
    assert!(matches!(
        outcomes[2],
        MarketOutcome::InvalidConfig(ConfigError::InvalidOpenTime)
    ));
    assert!(matches!(
        &outcomes[3],
        MarketOutcome::Scheduled(plan) if *plan.rustler == "bar" && plan.tickers.is_empty()
    ));
}

#[test]
fn catalog_without_markets_is_an_error() {
    let svc = svc();
    assert!(matches!(
        svc.start_at(Vec::new(), &tuesday_noon()),
        Err(SvcError::NoMarketsFound)
    ));
    assert!(matches!(svc.start(Vec::new()), Err(SvcError::NoMarketsFound)));
    let one = svc.start(vec![(market_row("XYZ"), Vec::new())]).ok().unwrap();
    assert_eq!(one.outcomes.len(), 1);
}

#[test]
fn restart_is_not_supported() {
    assert_eq!(svc().restart(), Err(SvcError::NotSupported));
}

#[test]
fn errors_say_what_happened() {
    assert_eq!(SvcError::NoMarketsFound.message(), "No markets found");
    assert_eq!(SvcError::RustlersStopped.message(), "Rustlers stopped");
    assert_eq!(SvcError::PublishFailed.message(), "Publishing failed");
    assert_eq!(SvcError::NotSupported.message(), "Restart is not supported");
}

#[test]
fn quotes_go_to_the_publisher() {
    let svc = svc();
    match svc.forward(ForwardEvent::Received(RustlerMsg::QuoteMsg(a_quote()))) {
        ForwardAction::Publish(q) => {
            assert_eq!(q.symbol, "BTCUSDT");
            assert_eq!(q.price.as_str(), "50000");
            assert_eq!(q.time, 198798798798);
        }
        _ => panic!("a quote is published"),
    }
    assert!(matches!(svc.forward(ForwardEvent::Published), ForwardAction::Receive));
}

#[test]
fn closed_channel_ends_the_supervisor() {
    assert!(matches!(
        svc().forward(ForwardEvent::Closed),
        ForwardAction::Exit(SvcError::RustlersStopped)
    ));
}

#[test]
fn publish_failure_follows_the_policy() {
    let mut svc = svc();
    assert_eq!(PublishFailurePolicy::default(), PublishFailurePolicy::Continue);
    assert!(matches!(svc.forward(ForwardEvent::PublishFailed), ForwardAction::Receive));
    svc.set_publish_failure_policy(PublishFailurePolicy::Stop);
    assert!(matches!(
        svc.forward(ForwardEvent::PublishFailed),
        ForwardAction::Exit(SvcError::PublishFailed)
    ));
    assert!(matches!(svc.forward(ForwardEvent::Published), ForwardAction::Receive));
    svc.set_publish_failure_policy(PublishFailurePolicy::Continue);
    assert!(matches!(svc.forward(ForwardEvent::PublishFailed), ForwardAction::Receive));
}

#[test]
fn starting_an_adapter_adds_after_a_good_start() {
    let tickers = vec![Ticker {
        symbol: "AAPL".to_string(),
        market: "NYSE".to_string(),
        quote_asset: None,
    }];
    let none: Vec<Ticker> = Vec::new();
    type Svc = RustlersSvc<u8>;
    assert_eq!(Svc::start_rustler_for(RustlerStep::Locked, &tickers), RustlerCall::Start);
    assert_eq!(Svc::start_rustler_for(RustlerStep::Locked, &none), RustlerCall::Start);
    assert_eq!(Svc::start_rustler_for(RustlerStep::Started(true), &tickers), RustlerCall::Add);
    assert_eq!(Svc::start_rustler_for(RustlerStep::Started(true), &none), RustlerCall::Done);
    assert_eq!(Svc::start_rustler_for(RustlerStep::Started(false), &tickers), RustlerCall::Done);
    assert_eq!(Svc::start_rustler_for(RustlerStep::Added(true), &tickers), RustlerCall::Done);
    assert_eq!(Svc::start_rustler_for(RustlerStep::Added(false), &tickers), RustlerCall::Done);
    assert_eq!(Svc::start_rustler_for(RustlerStep::Deleted(true), &tickers), RustlerCall::Done);
}

#[test]
fn stopping_an_adapter_deletes_its_tickers() {
    let tickers = vec![Ticker {
        symbol: "AAPL".to_string(),
        market: "NYSE".to_string(),
        quote_asset: None,
    }];
    let none: Vec<Ticker> = Vec::new();
    type Svc = RustlersSvc<u8>;
    assert_eq!(Svc::stop_rustler_for(RustlerStep::Locked, &tickers), RustlerCall::Delete);
    assert_eq!(Svc::stop_rustler_for(RustlerStep::Locked, &none), RustlerCall::Done);
    assert_eq!(Svc::stop_rustler_for(RustlerStep::Deleted(true), &tickers), RustlerCall::Done);
    assert_eq!(Svc::stop_rustler_for(RustlerStep::Deleted(false), &tickers), RustlerCall::Done);
    assert_eq!(Svc::stop_rustler_for(RustlerStep::Started(true), &tickers), RustlerCall::Done);
}

#[test]
fn channel_holds_a_hundred_messages() {
    assert_eq!(CHANNEL_CAPACITY, 100);
}

#[test]
fn plans_carry_senders_of_the_supervisors_channel() {
    let svc = svc();
    let markets = vec![
        (market_row("NYSE"), vec![ticker_row("AAPL")]),
        (market_row("BINANCE"), vec![ticker_row("BTCUSDT")]),
    ];
    let started = svc.start_at(markets, &tuesday_noon()).ok().unwrap();
    let mut receiver = started.receiver;
    assert!(matches!(receiver.try_recv(), Err(TryRecvError::Empty)));
    let mut time = 0;
    for outcome in &started.outcomes {
        match outcome {
            MarketOutcome::Scheduled(plan) => {
                assert_eq!(plan.sender.max_capacity(), 100);
                let mut q = a_quote();
                q.time = time;
                assert!(plan.sender.try_send(RustlerMsg::QuoteMsg(q)).is_ok());
                time += 1;
            }
            _ => panic!("both markets have an adapter"),
        }
    }
    for expected in 0..2 {
        match receiver.try_recv() {
            Ok(RustlerMsg::QuoteMsg(q)) => assert_eq!(q.time, expected),
            Err(_) => panic!("what a plan's sender sends comes out of the channel"),
        }
    }
    drop(started.outcomes);
    assert!(matches!(receiver.try_recv(), Err(TryRecvError::Disconnected)));
}

#[test]
fn plan_carries_the_sender_it_was_given() {
    let svc = svc();
    let (sender, mut receiver) = tokio::sync::mpsc::channel(3);
    match svc.schedule_rustler_at((market_row("NYSE"), Vec::new()), sender, &tuesday_noon()) {
        MarketOutcome::Scheduled(plan) => {
            assert_eq!(plan.sender.max_capacity(), 3);
            assert!(plan.sender.try_send(RustlerMsg::QuoteMsg(a_quote())).is_ok());
        }
        _ => panic!("a market with an adapter is scheduled"),
    }
    assert!(receiver.try_recv().is_ok());
}
