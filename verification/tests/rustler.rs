use rustler_core::rustlers::svc::RustlerMsg;
use rustler_core::rustlers::{
    RustlerAction, RustlerBase, RustlerOpts, RustlerStatus, Ticker,
};
use rustler_core::strmap::StrMap;

fn ticker(market: &str, symbol: &str) -> Ticker {
    Ticker {
        symbol: symbol.to_string(),
        market: market.to_string(),
        quote_asset: None,
    }
}

fn keys(tickers: &[Ticker]) -> Vec<String> {
    tickers.iter().map(|t| t.key()).collect()
}

/// Takes the steps of an operation as an adapter would whose hooks succeed.
fn perform(base: &mut RustlerBase, actions: &[RustlerAction], log: &mut Vec<String>) {
    for action in actions {
        match action {
            RustlerAction::Connect => {
                if let Some(prior) = base.begin_connect() {
                    log.push(format!("connect:{:?}", base.status()));
                    base.finish_connect_at(prior, true, 1000);
                    log.push(format!("connect:{:?}", base.status()));
                }
            }
            RustlerAction::Disconnect => {
                if base.begin_disconnect() {
                    log.push(format!("disconnect:{:?}", base.status()));
                    base.finish_disconnect_at(2000);
                    log.push(format!("disconnect:{:?}", base.status()));
                }
            }
            RustlerAction::OnAdd(added) => log.push(format!("on_add:{}", keys(added).join(","))),
            RustlerAction::OnDelete(removed) => {
                log.push(format!("on_delete:{}", keys(removed).join(",")))
            }
        }
    }
}

#[test]
fn new_adapter_is_disconnected_and_empty() {
    let base = RustlerBase::new("FooRustler");
    assert_eq!(base.name(), "FooRustler");
    assert_eq!(*base.status(), RustlerStatus::Disconnected);
    assert!(base.is_disconnected());
    assert!(base.is_disconnected_or_disconnecting());
    assert!(!base.is_connected_or_connecting());
    assert!(base.tickers().is_empty());
    assert!(base.msg_sender().is_none());
    assert_eq!(base.next_run(), 0);
    assert_eq!(base.next_stop(), None);
    assert_eq!(base.last_run(), None);
    assert_eq!(base.last_stop(), None);
    assert_eq!(base.last_update(), None);
    assert!(base.opts().connect_on_start);
    assert!(base.opts().connect_on_add);
}

#[test]
fn default_status_is_disconnected_and_default_opts_connect() {
    assert_eq!(RustlerStatus::default(), RustlerStatus::Disconnected);
    assert_eq!(
        RustlerOpts::default(),
        RustlerOpts { connect_on_start: true, connect_on_add: true }
    );
}

#[test]
fn first_add_connects_then_reports_the_added() {
    let mut base = RustlerBase::new("FooRustler");
    let new = vec![ticker("BINANCE", "BTCUSDT"), ticker("BINANCE", "ETHUSDT")];
    let actions = base.add(&new);
    assert_eq!(actions.len(), 2);
    assert!(matches!(actions[0], RustlerAction::Connect));
    let mut log = Vec::new();
    perform(&mut base, &actions, &mut log);
    assert_eq!(
        log,
        vec![
            "connect:Connecting",
            "connect:Connected",
            "on_add:BINANCE:BTCUSDT,BINANCE:ETHUSDT",
        ]
    );
    assert_eq!(*base.status(), RustlerStatus::Connected);
    assert_eq!(base.last_run(), Some(1000));
    assert_eq!(base.tickers().len(), 2);
    assert!(base.tickers().contains_key("BINANCE:BTCUSDT"));
    assert!(base.tickers().contains_key("BINANCE:ETHUSDT"));
}

#[test]
fn add_reports_each_new_key_once() {
    let mut base = RustlerBase::new("FooRustler");
    let new = vec![
        ticker("BINANCE", "BTCUSDT"),
        ticker("BINANCE", "BTCUSDT"),
        ticker("NASDAQ", "GOOGL"),
        ticker("BINANCE", "BTCUSDT"),
    ];
    let actions = base.add(&new);
    match &actions[1] {
        RustlerAction::OnAdd(added) => {
            assert_eq!(keys(added), vec!["BINANCE:BTCUSDT", "NASDAQ:GOOGL"])
        }
        _ => panic!("the added tickers are reported after the connection"),
    }
    assert_eq!(base.tickers().len(), 2);
}

#[test]
fn add_skips_what_is_held() {
    let mut base = RustlerBase::new("FooRustler");
    let mut first = ticker("BINANCE", "BTCUSDT");
    first.quote_asset = Some("USDT".to_string());
    let actions = base.add(&vec![first]);
    let mut log = Vec::new();
    perform(&mut base, &actions, &mut log);

    let actions = base.add(&vec![ticker("BINANCE", "BTCUSDT"), ticker("BINANCE", "ETHUSDT")]);
    assert_eq!(actions.len(), 1);
    match &actions[0] {
        RustlerAction::OnAdd(added) => assert_eq!(keys(added), vec!["BINANCE:ETHUSDT"]),
        _ => panic!("a connected adapter only reports"),
    }
    let kept = base.tickers().get("BINANCE:BTCUSDT").unwrap();
    assert_eq!(kept.quote_asset, Some("USDT".to_string()));
}

#[test]
fn add_of_held_tickers_alone_reports_nothing() {
    let mut base = RustlerBase::new("FooRustler");
    let held = vec![ticker("BINANCE", "BTCUSDT")];
    let actions = base.add(&held);
    let mut log = Vec::new();
    perform(&mut base, &actions, &mut log);
    assert!(base.add(&held).is_empty());
    assert!(base.add(&Vec::new()).is_empty());
    assert_eq!(base.tickers().len(), 1);
}

#[test]
fn add_of_nothing_still_connects() {
    let mut base = RustlerBase::new("FooRustler");
    let actions = base.add(&Vec::new());
    assert_eq!(actions.len(), 1);
    assert!(matches!(actions[0], RustlerAction::Connect));
}

#[test]
fn add_without_connect_on_add_only_reports() {
    let mut base = RustlerBase::new("FooRustler");
    base.set_opts(RustlerOpts { connect_on_start: true, connect_on_add: false });
    let actions = base.add(&vec![ticker("BINANCE", "BTCUSDT")]);
    assert_eq!(actions.len(), 1);
    assert!(matches!(actions[0], RustlerAction::OnAdd(_)));
    assert_eq!(*base.status(), RustlerStatus::Disconnected);
}

#[test]
fn add_while_connecting_does_not_connect_again() {
    let mut base = RustlerBase::new("FooRustler");
    assert_eq!(base.begin_connect(), Some(RustlerStatus::Disconnected));
    let actions = base.add(&vec![ticker("BINANCE", "BTCUSDT")]);
    assert_eq!(actions.len(), 1);
    assert!(matches!(actions[0], RustlerAction::OnAdd(_)));
}

#[test]
fn keys_decide_not_the_pairs() {
    let mut base = RustlerBase::new("FooRustler");
    let actions = base.add(&vec![ticker("A:B", "C"), ticker("A", "B:C")]);
    match &actions[1] {
        RustlerAction::OnAdd(added) => {
            assert_eq!(added.len(), 1);
            assert_eq!(added[0].market, "A:B");
        }
        _ => panic!("the added tickers are reported after the connection"),
    }
}

#[test]
fn empty_subscription_tears_down() {
    let mut base = RustlerBase::new("FooRustler");
    let held = vec![ticker("M", "TIC1"), ticker("M", "TIC2")];
    let actions = base.add(&held);
    let mut log = Vec::new();
    perform(&mut base, &actions, &mut log);
    assert_eq!(*base.status(), RustlerStatus::Connected);

    let actions = base.delete(&held);
    assert_eq!(actions.len(), 2);
    assert!(matches!(actions[0], RustlerAction::Disconnect));
    let mut log = Vec::new();
    perform(&mut base, &actions, &mut log);
    assert_eq!(
        log,
        vec![
            "disconnect:Disconnecting",
            "disconnect:Disconnected",
            "on_delete:M:TIC1,M:TIC2",
        ]
    );
    assert_eq!(*base.status(), RustlerStatus::Disconnected);
    assert_eq!(base.last_stop(), Some(2000));
    assert!(base.tickers().is_empty());
}

#[test]
fn delete_reports_the_removed_only() {
    let mut base = RustlerBase::new("FooRustler");
    let held = vec![ticker("M", "TIC1"), ticker("M", "TIC2"), ticker("M", "TIC3")];
    let actions = base.add(&held);
    let mut log = Vec::new();
    perform(&mut base, &actions, &mut log);

    let actions = base.delete(&vec![
        ticker("M", "TIC2"),
        ticker("M", "NONE"),
        ticker("M", "TIC2"),
    ]);
    assert_eq!(actions.len(), 1);
    match &actions[0] {
        RustlerAction::OnDelete(removed) => assert_eq!(keys(removed), vec!["M:TIC2"]),
        _ => panic!("an adapter with tickers left only reports"),
    }
    assert_eq!(base.tickers().len(), 2);
    assert_eq!(*base.status(), RustlerStatus::Connected);
}

#[test]
fn delete_hands_back_what_was_held() {
    let mut base = RustlerBase::new("FooRustler");
    let mut held = ticker("M", "TIC1");
    held.quote_asset = Some("USD".to_string());
    let actions = base.add(&vec![held, ticker("M", "TIC2")]);
    let mut log = Vec::new();
    perform(&mut base, &actions, &mut log);
    let actions = base.delete(&vec![ticker("M", "TIC1")]);
    match &actions[0] {
        RustlerAction::OnDelete(removed) => {
            assert_eq!(removed[0].quote_asset, Some("USD".to_string()))
        }
        _ => panic!("an adapter with tickers left only reports"),
    }
}

#[test]
fn delete_of_unknown_tickers_reports_nothing() {
    let mut base = RustlerBase::new("FooRustler");
    let actions = base.add(&vec![ticker("M", "TIC1")]);
    let mut log = Vec::new();
    perform(&mut base, &actions, &mut log);
    assert!(base.delete(&vec![ticker("M", "NONE")]).is_empty());
    assert_eq!(base.tickers().len(), 1);
}

#[test]
fn delete_on_a_disconnected_adapter_does_not_disconnect() {
    let mut base = RustlerBase::new("FooRustler");
    base.set_opts(RustlerOpts { connect_on_start: false, connect_on_add: false });
    base.add(&vec![ticker("M", "TIC1")]);
    let actions = base.delete(&vec![ticker("M", "TIC1")]);
    assert_eq!(actions.len(), 1);
    assert!(matches!(actions[0], RustlerAction::OnDelete(_)));
}

#[test]
fn delete_on_an_empty_connected_adapter_disconnects() {
    let mut base = RustlerBase::new("FooRustler");
    base.set_status_at(RustlerStatus::Connected, 5);
    let actions = base.delete(&vec![ticker("M", "NONE")]);
    assert_eq!(actions.len(), 1);
    assert!(matches!(actions[0], RustlerAction::Disconnect));
}

#[test]
fn start_connects_unless_connected_or_told_not_to() {
    let mut base = RustlerBase::new("FooRustler");
    let actions = base.start();
    assert_eq!(actions.len(), 1);
    assert!(matches!(actions[0], RustlerAction::Connect));

    base.set_status_at(RustlerStatus::Connecting, 1);
    assert!(base.start().is_empty());
    base.set_status_at(RustlerStatus::Connected, 2);
    assert!(base.start().is_empty());
    base.set_status_at(RustlerStatus::Disconnecting, 3);
    assert_eq!(base.start().len(), 1);

    base.set_status_at(RustlerStatus::Disconnected, 4);
    base.set_opts(RustlerOpts { connect_on_start: false, connect_on_add: true });
    assert!(base.start().is_empty());
}

#[test]
fn connect_is_idempotent() {
    let mut base = RustlerBase::new("FooRustler");
    assert_eq!(base.begin_connect(), Some(RustlerStatus::Disconnected));
    assert!(base.is_connecting());
    assert_eq!(base.begin_connect(), None);
    assert!(base.is_connecting());
    base.finish_connect_at(RustlerStatus::Disconnected, true, 10);
    assert!(base.is_connected());
    assert_eq!(base.begin_connect(), None);
    assert!(base.is_connected());
    assert_eq!(base.last_run(), Some(10));
}

#[test]
fn failed_connect_leaves_the_adapter_as_it_was() {
    let mut base = RustlerBase::new("FooRustler");
    base.set_status_at(RustlerStatus::Disconnected, 3);
    let prior = base.begin_connect().unwrap();
    assert!(base.is_connecting());
    base.finish_connect_at(prior, false, 99);
    assert_eq!(*base.status(), RustlerStatus::Disconnected);
    assert_eq!(base.last_stop(), Some(3));
    assert_eq!(base.last_run(), None);
}

#[test]
fn disconnect_is_idempotent() {
    let mut base = RustlerBase::new("FooRustler");
    assert!(!base.begin_disconnect());
    assert!(base.is_disconnected());
    base.set_status_at(RustlerStatus::Connected, 1);
    assert!(base.begin_disconnect());
    assert!(base.is_disconnecting());
    assert!(!base.begin_disconnect());
    base.finish_disconnect_at(7);
    assert!(base.is_disconnected());
    assert_eq!(base.last_stop(), Some(7));
    assert_eq!(base.last_run(), Some(1));
}

#[test]
fn status_changes_are_stamped() {
    let mut base = RustlerBase::new("FooRustler");
    base.set_status_at(RustlerStatus::Connecting, 1);
    assert_eq!((base.last_run(), base.last_stop()), (None, None));
    base.set_status_at(RustlerStatus::Connected, 2);
    assert_eq!((base.last_run(), base.last_stop()), (Some(2), None));
    base.set_status_at(RustlerStatus::Disconnecting, 3);
    assert_eq!((base.last_run(), base.last_stop()), (Some(2), None));
    base.set_status_at(RustlerStatus::Disconnected, 4);
    assert_eq!((base.last_run(), base.last_stop()), (Some(2), Some(4)));
    base.handle_status_change_at(9);
    assert_eq!((base.last_run(), base.last_stop()), (Some(2), Some(9)));
}

#[test]
fn status_changes_are_stamped_with_the_clock() {
    let mut base = RustlerBase::new("FooRustler");
    base.set_status(RustlerStatus::Connected);
    let run = base.last_run().unwrap();
    assert!(run > 1_600_000_000_000);
    assert_eq!(base.last_stop(), None);
    base.set_status(RustlerStatus::Disconnected);
    assert!(base.last_stop().unwrap() >= run);
    base.set_last_stop(None);
    base.handle_status_change();
    assert!(base.last_stop().is_some());
    let prior = base.begin_connect().unwrap();
    base.finish_connect(prior, true);
    assert!(base.is_connected());
    assert!(base.begin_disconnect());
    base.finish_disconnect();
    assert!(base.is_disconnected());
}

#[test]
fn fields_can_be_set_and_read() {
    let mut base = RustlerBase::new("FooRustler");
    base.set_next_run(11);
    base.set_next_stop(Some(12));
    base.set_last_run(Some(13));
    base.set_last_stop(Some(14));
    base.set_last_update(Some(15));
    assert_eq!(base.next_run(), 11);
    assert_eq!(base.next_stop(), Some(12));
    assert_eq!(base.last_run(), Some(13));
    assert_eq!(base.last_stop(), Some(14));
    assert_eq!(base.last_update(), Some(15));
    let mut tickers = StrMap::new();
    tickers.insert("M:T".to_string(), ticker("M", "T"));
    base.set_tickers(tickers);
    assert_eq!(base.tickers().len(), 1);
    assert_eq!(base.name(), "FooRustler");
}

#[test]
fn sender_is_stored_and_handed_out() {
    let (sender, mut receiver) = tokio::sync::mpsc::channel::<RustlerMsg>(100);
    let mut base = RustlerBase::new("FooRustler");
    base.set_msg_sender(Some(sender));
    assert!(base.msg_sender().is_some());
    assert_eq!(base.msg_sender().as_ref().unwrap().max_capacity(), 100);
    assert!(receiver.try_recv().is_err());
    base.set_msg_sender(None);
    assert!(base.msg_sender().is_none());
}

#[test]
fn tickers_and_sender_can_be_changed_in_place() {
    let mut base = RustlerBase::new("FooRustler");
    base.tickers_mut().insert("M:T".to_string(), ticker("M", "T"));
    assert!(base.tickers().contains_key("M:T"));
    let actions = base.add(&vec![ticker("M", "T"), ticker("M", "U")]);
    match &actions[1] {
        RustlerAction::OnAdd(added) => assert_eq!(keys(added), vec!["M:U"]),
        _ => panic!("the added tickers are reported after the connection"),
    }
    let (sender, _receiver) = tokio::sync::mpsc::channel::<RustlerMsg>(1);
    *base.msg_sender_mut() = Some(sender);
    assert!(base.msg_sender().is_some());
    base.msg_sender_mut().take();
    assert!(base.msg_sender().is_none());
}
