//! The life cycle of an adapter: its status, its set of tickers, and what it
//! has to do when tickers come and go.

use crate::rustlers::svc::RustlerMsg;
use crate::rustlers::ticker::{Ticker, TickerView};
use crate::strmap::StrMap;
use tokio::sync::mpsc::Sender;
use vstd::prelude::*;

verus! {

/// The sending half of tokio's bounded channel. An adapter carries one to the
/// supervisor; the core only stores it and hands it out.
#[verifier::external_type_specification]
#[verifier::external_body]
#[verifier::reject_recursive_types(T)]
pub struct ExMpscSender<T>(Sender<T>);

/// The current time in milliseconds since the epoch, from chrono's
/// `Local::now` and `DateTime::timestamp_millis`. Nothing is claimed of it:
/// two calls may give any two values.
#[verifier::external_body]
fn now_millis() -> (now: i64) {
    chrono::Local::now().timestamp_millis()
}

/// Where an adapter stands with its data source.
#[derive(Debug, Clone, Copy, PartialEq, Eq, Structural)]
pub enum RustlerStatus {
    Connecting,
    Connected,
    Disconnecting,
    Disconnected,
}

impl Default for RustlerStatus {
    /// An adapter starts out disconnected.
    fn default() -> (status: Self)
        ensures
            status == RustlerStatus::Disconnected,
    {
        RustlerStatus::Disconnected
    }
}

/// When an adapter connects by itself.
#[derive(Debug, Clone, Copy, PartialEq, Eq, Structural)]
pub struct RustlerOpts {
    /// Connect when the adapter is started.
    pub connect_on_start: bool,
    /// Connect when tickers are added.
    pub connect_on_add: bool,
}

impl Default for RustlerOpts {
    /// Both options are on.
    fn default() -> (opts: Self)
        ensures
            opts == (RustlerOpts { connect_on_start: true, connect_on_add: true }),
    {
        RustlerOpts { connect_on_start: true, connect_on_add: true }
    }
}

/// A step that an adapter has to take with its data source. The steps of one
/// operation are taken in their order; the first that fails ends the operation
/// with that failure.
#[derive(Debug)]
pub enum RustlerAction {
    /// Connect to the data source.
    Connect,
    /// Disconnect from the data source.
    Disconnect,
    /// Start collecting quotes for these tickers, which were just added.
    OnAdd(Vec<Ticker>),
    /// Stop collecting quotes for these tickers, which were just removed.
    OnDelete(Vec<Ticker>),
}

/// A step of an adapter, over plain values.
pub enum ActionView {
    Connect,
    Disconnect,
    OnAdd(Seq<TickerView>),
    OnDelete(Seq<TickerView>),
}

impl View for RustlerAction {
    type V = ActionView;

    open spec fn view(&self) -> ActionView {
        match self {
            RustlerAction::Connect => ActionView::Connect,
            RustlerAction::Disconnect => ActionView::Disconnect,
            RustlerAction::OnAdd(tickers) => ActionView::OnAdd(views(tickers@)),
            RustlerAction::OnDelete(tickers) => ActionView::OnDelete(views(tickers@)),
        }
    }
}

/// The tickers of a list, as plain values.
pub open spec fn views(tickers: Seq<Ticker>) -> Seq<TickerView> {
    Seq::new(tickers.len(), |i: int| tickers[i]@)
}

/// The steps of a list, as plain values.
pub open spec fn action_views(actions: Seq<RustlerAction>) -> Seq<ActionView> {
    Seq::new(actions.len(), |i: int| actions[i]@)
}

/// The tickers of a map, as plain values.
pub open spec fn ticker_map(held: Map<Seq<char>, Ticker>) -> Map<Seq<char>, TickerView> {
    Map::new(|key: Seq<char>| held.dom().contains(key), |key: Seq<char>| held[key]@)
}

/// A map of tickers is empty as plain values just when it is empty.
proof fn lemma_ticker_map_empty(held: Map<Seq<char>, Ticker>)
    ensures
        ticker_map(held) == Map::<Seq<char>, TickerView>::empty() <==> held == Map::<
            Seq<char>,
            Ticker,
        >::empty(),
{
    if held == Map::<Seq<char>, Ticker>::empty() {
        assert(ticker_map(held) =~= Map::<Seq<char>, TickerView>::empty());
    }
    if ticker_map(held) == Map::<Seq<char>, TickerView>::empty() {
        assert forall|key: Seq<char>| !held.dom().contains(key) by {
            assert(!ticker_map(held).dom().contains(key));
        }
        assert(held =~= Map::<Seq<char>, Ticker>::empty());
    }
}

/// The ticker map after each of `new` was put under its key, in order, unless
/// the key was held already.
pub open spec fn tickers_after_add(
    held: Map<Seq<char>, TickerView>,
    new: Seq<TickerView>,
) -> Map<Seq<char>, TickerView>
    decreases new.len(),
{
    if new.len() == 0 {
        held
    } else {
        let before = tickers_after_add(held, new.drop_last());
        if before.dom().contains(new.last().key()) {
            before
        } else {
            before.insert(new.last().key(), new.last())
        }
    }
}

/// Those of `new` that adding them to `held` puts into the map, in order: each
/// whose key neither `held` nor an earlier one of `new` has.
pub open spec fn added_by(held: Map<Seq<char>, TickerView>, new: Seq<TickerView>) -> Seq<
    TickerView,
>
    decreases new.len(),
{
    if new.len() == 0 {
        Seq::empty()
    } else {
        let before = added_by(held, new.drop_last());
        if tickers_after_add(held, new.drop_last()).dom().contains(new.last().key()) {
            before
        } else {
            before.push(new.last())
        }
    }
}

/// The ticker map after the key of each of `gone` was taken out.
pub open spec fn tickers_after_delete(
    held: Map<Seq<char>, TickerView>,
    gone: Seq<TickerView>,
) -> Map<Seq<char>, TickerView>
    decreases gone.len(),
{
    if gone.len() == 0 {
        held
    } else {
        tickers_after_delete(held, gone.drop_last()).remove(gone.last().key())
    }
}

/// The tickers that deleting `gone` takes out of `held`, in order: what the
/// map held under the key of each of `gone`, once.
pub open spec fn removed_by(held: Map<Seq<char>, TickerView>, gone: Seq<TickerView>) -> Seq<
    TickerView,
>
    decreases gone.len(),
{
    if gone.len() == 0 {
        Seq::empty()
    } else {
        let before = removed_by(held, gone.drop_last());
        let left = tickers_after_delete(held, gone.drop_last());
        if left.dom().contains(gone.last().key()) {
            before.push(left[gone.last().key()])
        } else {
            before
        }
    }
}

/// The state of an adapter, over plain values.
pub struct RustlerState {
    pub name: Seq<char>,
    pub status: RustlerStatus,
    pub next_run: i64,
    pub next_stop: Option<i64>,
    pub last_run: Option<i64>,
    pub last_stop: Option<i64>,
    pub last_update: Option<i64>,
    pub opts: RustlerOpts,
    pub tickers: Map<Seq<char>, TickerView>,
    pub msg_sender: Option<Sender<RustlerMsg>>,
}

impl RustlerState {
    /// The state of an adapter that was just made.
    pub open spec fn initial(name: Seq<char>) -> Self {
        RustlerState {
            name,
            status: RustlerStatus::Disconnected,
            next_run: 0,
            next_stop: None,
            last_run: None,
            last_stop: None,
            last_update: None,
            opts: RustlerOpts { connect_on_start: true, connect_on_add: true },
            tickers: Map::empty(),
            msg_sender: None,
        }
    }

    /// Whether the adapter is connected or is connecting.
    pub open spec fn is_connected_or_connecting(self) -> bool {
        self.status == RustlerStatus::Connected || self.status == RustlerStatus::Connecting
    }

    /// Whether the adapter is disconnected or is disconnecting.
    pub open spec fn is_disconnected_or_disconnecting(self) -> bool {
        self.status == RustlerStatus::Disconnected || self.status
            == RustlerStatus::Disconnecting
    }

    /// The state after the status it has was noted at the time `now`: entering
    /// `Connected` sets the last run, entering `Disconnected` the last stop.
    pub open spec fn stamped(self, now: i64) -> Self {
        match self.status {
            RustlerStatus::Disconnected => RustlerState { last_stop: Some(now), ..self },
            RustlerStatus::Connected => RustlerState { last_run: Some(now), ..self },
            _ => self,
        }
    }

    /// The state after the status was set to `status` at the time `now`.
    pub open spec fn with_status(self, status: RustlerStatus, now: i64) -> Self {
        (RustlerState { status, ..self }).stamped(now)
    }

    /// The steps of starting the adapter: to connect, where the options ask
    /// for it and the adapter neither is connected nor is connecting.
    pub open spec fn start_actions(self) -> Seq<ActionView> {
        if self.opts.connect_on_start && !self.is_connected_or_connecting() {
            seq![ActionView::Connect]
        } else {
            Seq::empty()
        }
    }

    /// The state after `new` were added.
    pub open spec fn after_add(self, new: Seq<TickerView>) -> Self {
        RustlerState { tickers: tickers_after_add(self.tickers, new), ..self }
    }

    /// The steps of adding `new`: to connect, where the options ask for it
    /// and the adapter neither is connected nor is connecting; then to start
    /// collecting for those that were put into the map, where there are any.
    pub open spec fn add_actions(self, new: Seq<TickerView>) -> Seq<ActionView> {
        let connect = if self.opts.connect_on_add && !self.is_connected_or_connecting() {
            seq![ActionView::Connect]
        } else {
            Seq::empty()
        };
        let added = added_by(self.tickers, new);
        if added.len() > 0 {
            connect.push(ActionView::OnAdd(added))
        } else {
            connect
        }
    }

    /// The state after `gone` were deleted.
    pub open spec fn after_delete(self, gone: Seq<TickerView>) -> Self {
        RustlerState { tickers: tickers_after_delete(self.tickers, gone), ..self }
    }

    /// The steps of deleting `gone`: to disconnect, where the map is empty
    /// afterwards and the adapter neither is disconnected nor is
    /// disconnecting; then to stop collecting for those that were taken out of
    /// the map, where there are any.
    pub open spec fn delete_actions(self, gone: Seq<TickerView>) -> Seq<ActionView> {
        let disconnect = if tickers_after_delete(self.tickers, gone) == Map::<
            Seq<char>,
            TickerView,
        >::empty() && !self.is_disconnected_or_disconnecting() {
            seq![ActionView::Disconnect]
        } else {
            Seq::empty()
        };
        let removed = removed_by(self.tickers, gone);
        if removed.len() > 0 {
            disconnect.push(ActionView::OnDelete(removed))
        } else {
            disconnect
        }
    }

    /// The state after a connection attempt has begun: `Connecting`, unless the
    /// adapter is connected or connecting already.
    pub open spec fn connecting(self) -> Self {
        if self.is_connected_or_connecting() {
            self
        } else {
            RustlerState { status: RustlerStatus::Connecting, ..self }
        }
    }

    /// The state after a connection attempt that began from the status `prior`
    /// has ended at the time `now`: `Connected` where it succeeded, else the
    /// status from which it began.
    pub open spec fn connect_finished(self, prior: RustlerStatus, connected: bool, now: i64) -> Self {
        if connected {
            self.with_status(RustlerStatus::Connected, now)
        } else {
            RustlerState { status: prior, ..self }
        }
    }

    /// The state after a disconnection has begun: `Disconnecting`, unless the
    /// adapter is disconnected or disconnecting already.
    pub open spec fn disconnecting(self) -> Self {
        if self.is_disconnected_or_disconnecting() {
            self
        } else {
            RustlerState { status: RustlerStatus::Disconnecting, ..self }
        }
    }
}

/// The lifecycle fields that every adapter carries, with the operations that
/// keep them. An adapter embeds one and performs the steps that the
/// operations hand back.
pub struct RustlerBase {
    name: String,
    status: RustlerStatus,
    next_run: i64,
    next_stop: Option<i64>,
    last_run: Option<i64>,
    last_stop: Option<i64>,
    last_update: Option<i64>,
    opts: RustlerOpts,
    tickers: StrMap<Ticker>,
    msg_sender: Option<Sender<RustlerMsg>>,
}

impl View for RustlerBase {
    type V = RustlerState;

    closed spec fn view(&self) -> RustlerState {
        RustlerState {
            name: self.name@,
            status: self.status,
            next_run: self.next_run,
            next_stop: self.next_stop,
            last_run: self.last_run,
            last_stop: self.last_stop,
            last_update: self.last_update,
            opts: self.opts,
            tickers: ticker_map(self.tickers@),
            msg_sender: self.msg_sender,
        }
    }
}

impl RustlerBase {
    /// The fields of an adapter called `name` that was just made: disconnected,
    /// without tickers or sender, with both options on.
    pub fn new(name: &str) -> (base: Self)
        ensures
            base@ == RustlerState::initial(name@),
    {
        let base = RustlerBase {
            name: name.to_owned(),
            status: RustlerStatus::Disconnected,
            next_run: 0,
            next_stop: None,
            last_run: None,
            last_stop: None,
            last_update: None,
            opts: RustlerOpts { connect_on_start: true, connect_on_add: true },
            tickers: StrMap::new(),
            msg_sender: None,
        };
        proof {
            assert(base@.tickers =~= Map::<Seq<char>, TickerView>::empty());
        }
        base
    }

    /// The name of the adapter.
    pub fn name(&self) -> (name: String)
        ensures
            name@ == self@.name,
    {
        self.name.clone()
    }

    /// Where the adapter stands with its data source.
    pub fn status(&self) -> (status: &RustlerStatus)
        ensures
            *status == self@.status,
    {
        &self.status
    }

    /// Sets the status and notes it at the current time.
    pub fn set_status(&mut self, status: RustlerStatus)
        ensures
            exists|now: i64| final(self)@ == old(self)@.with_status(status, now),
    {
        let now = now_millis();
        self.set_status_at(status, now);
    }

    /// Sets the status and notes it at the time `now`: entering `Connected`
    /// sets the last run, entering `Disconnected` the last stop.
    pub fn set_status_at(&mut self, status: RustlerStatus, now: i64)
        ensures
            final(self)@ == old(self)@.with_status(status, now),
    {
        self.status = status;
        self.handle_status_change_at(now);
    }

    /// Notes the status that the adapter has at the current time.
    pub fn handle_status_change(&mut self)
        ensures
            exists|now: i64| final(self)@ == old(self)@.stamped(now),
    {
        let now = now_millis();
        self.handle_status_change_at(now);
    }

    /// Notes the status that the adapter has at the time `now`: `Connected`
    /// sets the last run, `Disconnected` the last stop, the others nothing.
    pub fn handle_status_change_at(&mut self, now: i64)
        ensures
            final(self)@ == old(self)@.stamped(now),
    {
        match self.status {
            RustlerStatus::Disconnected => {
                self.last_stop = Some(now);
            },
            RustlerStatus::Connected => {
                self.last_run = Some(now);
            },
            _ => {},
        }
    }

    /// Whether the adapter is connecting.
    pub fn is_connecting(&self) -> (b: bool)
        ensures
            b == (self@.status == RustlerStatus::Connecting),
    {
        self.status == RustlerStatus::Connecting
    }

    /// Whether the adapter is connected.
    pub fn is_connected(&self) -> (b: bool)
        ensures
            b == (self@.status == RustlerStatus::Connected),
    {
        self.status == RustlerStatus::Connected
    }

    /// Whether the adapter is disconnecting.
    pub fn is_disconnecting(&self) -> (b: bool)
        ensures
            b == (self@.status == RustlerStatus::Disconnecting),
    {
        self.status == RustlerStatus::Disconnecting
    }

    /// Whether the adapter is disconnected.
    pub fn is_disconnected(&self) -> (b: bool)
        ensures
            b == (self@.status == RustlerStatus::Disconnected),
    {
        self.status == RustlerStatus::Disconnected
    }

    /// Whether the adapter is connected or is connecting.
    pub fn is_connected_or_connecting(&self) -> (b: bool)
        ensures
            b == self@.is_connected_or_connecting(),
    {
        self.is_connected() || self.is_connecting()
    }

    /// Whether the adapter is disconnected or is disconnecting.
    pub fn is_disconnected_or_disconnecting(&self) -> (b: bool)
        ensures
            b == self@.is_disconnected_or_disconnecting(),
    {
        self.is_disconnected() || self.is_disconnecting()
    }

    /// When the adapter is to run next, in milliseconds since the epoch.
    pub fn next_run(&self) -> (at: i64)
        ensures
            at == self@.next_run,
    {
        self.next_run
    }

    /// Sets when the adapter is to run next.
    pub fn set_next_run(&mut self, next_run: i64)
        ensures
            final(self)@ == (RustlerState { next_run, ..old(self)@ }),
    {
        self.next_run = next_run;
    }

    /// When the adapter is to stop next, in milliseconds since the epoch.
    pub fn next_stop(&self) -> (at: Option<i64>)
        ensures
            at == self@.next_stop,
    {
        self.next_stop
    }

    /// Sets when the adapter is to stop next.
    pub fn set_next_stop(&mut self, next_stop: Option<i64>)
        ensures
            final(self)@ == (RustlerState { next_stop, ..old(self)@ }),
    {
        self.next_stop = next_stop;
    }

    /// When the adapter last became connected, in milliseconds since the
    /// epoch.
    pub fn last_run(&self) -> (at: Option<i64>)
        ensures
            at == self@.last_run,
    {
        self.last_run
    }

    /// Sets when the adapter last became connected.
    pub fn set_last_run(&mut self, last_run: Option<i64>)
        ensures
            final(self)@ == (RustlerState { last_run, ..old(self)@ }),
    {
        self.last_run = last_run;
    }

    /// When the adapter last became disconnected, in milliseconds since the
    /// epoch.
    pub fn last_stop(&self) -> (at: Option<i64>)
        ensures
            at == self@.last_stop,
    {
        self.last_stop
    }

    /// Sets when the adapter last became disconnected.
    pub fn set_last_stop(&mut self, last_stop: Option<i64>)
        ensures
            final(self)@ == (RustlerState { last_stop, ..old(self)@ }),
    {
        self.last_stop = last_stop;
    }

    /// When the adapter last produced a quote, in milliseconds since the
    /// epoch.
    pub fn last_update(&self) -> (at: Option<i64>)
        ensures
            at == self@.last_update,
    {
        self.last_update
    }

    /// Sets when the adapter last produced a quote.
    pub fn set_last_update(&mut self, last_update: Option<i64>)
        ensures
            final(self)@ == (RustlerState { last_update, ..old(self)@ }),
    {
        self.last_update = last_update;
    }

    /// When the adapter connects by itself.
    pub fn opts(&self) -> (opts: &RustlerOpts)
        ensures
            *opts == self@.opts,
    {
        &self.opts
    }

    /// Sets when the adapter connects by itself.
    pub fn set_opts(&mut self, opts: RustlerOpts)
        ensures
            final(self)@ == (RustlerState { opts, ..old(self)@ }),
    {
        self.opts = opts;
    }

    /// The tickers that the adapter collects quotes for, by their keys.
    pub fn tickers(&self) -> (tickers: &StrMap<Ticker>)
        ensures
            ticker_map(tickers@) == self@.tickers,
    {
        &self.tickers
    }

    /// The tickers that the adapter collects quotes for, to be changed in
    /// place.
    pub fn tickers_mut(&mut self) -> (tickers: &mut StrMap<Ticker>)
        ensures
            ticker_map(tickers@) == old(self)@.tickers,
            final(self)@ == (RustlerState {
                tickers: ticker_map(final(tickers)@),
                ..old(self)@
            }),
    {
        &mut self.tickers
    }

    /// Replaces the tickers that the adapter collects quotes for.
    pub fn set_tickers(&mut self, tickers: StrMap<Ticker>)
        ensures
            final(self)@ == (RustlerState { tickers: ticker_map(tickers@), ..old(self)@ }),
    {
        self.tickers = tickers;
    }

    /// The channel to the supervisor, once it was bound.
    pub fn msg_sender(&self) -> (sender: &Option<Sender<RustlerMsg>>)
        ensures
            *sender == self@.msg_sender,
    {
        &self.msg_sender
    }

    /// The channel to the supervisor, to be changed in place.
    pub fn msg_sender_mut(&mut self) -> (sender: &mut Option<Sender<RustlerMsg>>)
        ensures
            *sender == old(self)@.msg_sender,
            final(self)@ == (RustlerState { msg_sender: *final(sender), ..old(self)@ }),
    {
        &mut self.msg_sender
    }

    /// Binds the channel to the supervisor, or takes it away.
    pub fn set_msg_sender(&mut self, sender: Option<Sender<RustlerMsg>>)
        ensures
            final(self)@ == (RustlerState { msg_sender: sender, ..old(self)@ }),
    {
        self.msg_sender = sender;
    }

    /// Starts the adapter: hands back the steps that it has to take.
    pub fn start(&self) -> (actions: Vec<RustlerAction>)
        ensures
            action_views(actions@) == self@.start_actions(),
    {
        let mut actions: Vec<RustlerAction> = Vec::new();
        if self.opts.connect_on_start && !self.is_connected_or_connecting() {
            actions.push(RustlerAction::Connect);
        }
        proof {
            assert(action_views(actions@) =~= self@.start_actions());
        }
        actions
    }

    /// Adds tickers: puts each under its key unless the key is held already,
    /// and hands back the steps that the adapter has to take.
    pub fn add(&mut self, new_tickers: &Vec<Ticker>) -> (actions: Vec<RustlerAction>)
        ensures
            final(self)@ == old(self)@.after_add(views(new_tickers@)),
            action_views(actions@) == old(self)@.add_actions(views(new_tickers@)),
    {
        let ghost before = self@;
        let ghost new = views(new_tickers@);
        let mut added: Vec<Ticker> = Vec::new();
        let mut i: usize = 0;
        proof {
            assert(views(added@) =~= added_by(before.tickers, new.take(0)));
        }
        while i < new_tickers.len()
            invariant
                i <= new_tickers.len(),
                new == views(new_tickers@),
                self@ == (RustlerState {
                    tickers: tickers_after_add(before.tickers, new.take(i as int)),
                    ..before
                }),
                views(added@) == added_by(before.tickers, new.take(i as int)),
            decreases new_tickers.len() - i,
        {
            let ticker = &new_tickers[i];
            let key = ticker.key();
            proof {
                assert(new.take(i + 1).drop_last() == new.take(i as int));
                assert(new.take(i + 1).last() == ticker@);
            }
            if !self.tickers.contains_key(key.as_str()) {
                let ghost held = self.tickers@;
                let stored = ticker.clone();
                let listed = ticker.clone();
                self.tickers.insert(key, stored);
                let ghost listed_before = added@;
                added.push(listed);
                proof {
                    assert(ticker_map(held.insert(ticker@.key(), stored)) =~= ticker_map(
                        held,
                    ).insert(ticker@.key(), ticker@));
                    assert(views(added@) =~= views(listed_before).push(ticker@));
                }
            }
            i += 1;
        }
        proof {
            assert(new.take(i as int) == new);
        }
        let mut actions: Vec<RustlerAction> = Vec::new();
        if self.opts.connect_on_add && !self.is_connected_or_connecting() {
            actions.push(RustlerAction::Connect);
        }
        if added.len() > 0 {
            actions.push(RustlerAction::OnAdd(added));
        }
        proof {
            assert(action_views(actions@) =~= before.add_actions(new));
        }
        actions
    }

    /// Deletes tickers: takes the key of each out of the map, and hands back
    /// the steps that the adapter has to take.
    pub fn delete(&mut self, new_tickers: &Vec<Ticker>) -> (actions: Vec<RustlerAction>)
        ensures
            final(self)@ == old(self)@.after_delete(views(new_tickers@)),
            action_views(actions@) == old(self)@.delete_actions(views(new_tickers@)),
    {
        let ghost before = self@;
        let ghost gone = views(new_tickers@);
        let mut removed: Vec<Ticker> = Vec::new();
        let mut i: usize = 0;
        proof {
            assert(views(removed@) =~= removed_by(before.tickers, gone.take(0)));
        }
        while i < new_tickers.len()
            invariant
                i <= new_tickers.len(),
                gone == views(new_tickers@),
                self@ == (RustlerState {
                    tickers: tickers_after_delete(before.tickers, gone.take(i as int)),
                    ..before
                }),
                views(removed@) == removed_by(before.tickers, gone.take(i as int)),
            decreases new_tickers.len() - i,
        {
            let ticker = &new_tickers[i];
            let key = ticker.key();
            proof {
                assert(gone.take(i + 1).drop_last() == gone.take(i as int));
                assert(gone.take(i + 1).last() == ticker@);
            }
            let ghost held = self.tickers@;
            let taken = self.tickers.remove(key.as_str());
            proof {
                assert(ticker_map(held.remove(ticker@.key())) =~= ticker_map(held).remove(
                    ticker@.key(),
                ));
            }
            if let Some(removed_ticker) = taken {
                let ghost listed_before = removed@;
                removed.push(removed_ticker);
                proof {
                    assert(views(removed@) =~= views(listed_before).push(removed_ticker@));
                }
            }
            i += 1;
        }
        proof {
            assert(gone.take(i as int) == gone);
        }
        let mut actions: Vec<RustlerAction> = Vec::new();
        let ghost left = self.tickers@;
        if self.tickers.is_empty() && !self.is_disconnected_or_disconnecting() {
            actions.push(RustlerAction::Disconnect);
        }
        if removed.len() > 0 {
            actions.push(RustlerAction::OnDelete(removed));
        }
        proof {
            lemma_ticker_map_empty(left);
            assert(action_views(actions@) =~= before.delete_actions(gone));
        }
        actions
    }

    /// Begins a connection attempt. Where the adapter is connected or
    /// connecting already there is nothing to do, and nothing changes. Else
    /// the adapter is `Connecting` from now on, and the status that it had
    /// comes back, to be handed to `finish_connect` with the outcome.
    pub fn begin_connect(&mut self) -> (prior: Option<RustlerStatus>)
        ensures
            final(self)@ == old(self)@.connecting(),
            prior == if old(self)@.is_connected_or_connecting() {
                None
            } else {
                Some(old(self)@.status)
            },
    {
        if self.is_connected_or_connecting() {
            None
        } else {
            let prior = self.status;
            self.status = RustlerStatus::Connecting;
            Some(prior)
        }
    }

    /// Ends a connection attempt at the current time.
    pub fn finish_connect(&mut self, prior: RustlerStatus, connected: bool)
        ensures
            exists|now: i64| final(self)@ == old(self)@.connect_finished(prior, connected, now),
    {
        let now = now_millis();
        self.finish_connect_at(prior, connected, now);
    }

    /// Ends a connection attempt at the time `now`: the adapter is `Connected`
    /// where the attempt succeeded, and has the status from which the attempt
    /// began where it failed.
    pub fn finish_connect_at(&mut self, prior: RustlerStatus, connected: bool, now: i64)
        ensures
            final(self)@ == old(self)@.connect_finished(prior, connected, now),
    {
        if connected {
            self.set_status_at(RustlerStatus::Connected, now);
        } else {
            self.status = prior;
        }
    }

    /// Begins a disconnection. Where the adapter is disconnected or
    /// disconnecting already there is nothing to do, and nothing changes. Else
    /// the adapter is `Disconnecting` from now on.
    pub fn begin_disconnect(&mut self) -> (work: bool)
        ensures
            final(self)@ == old(self)@.disconnecting(),
            work == !old(self)@.is_disconnected_or_disconnecting(),
    {
        if self.is_disconnected_or_disconnecting() {
            false
        } else {
            self.status = RustlerStatus::Disconnecting;
            true
        }
    }

    /// Ends a disconnection at the current time.
    pub fn finish_disconnect(&mut self)
        ensures
            exists|now: i64|
                final(self)@ == old(self)@.with_status(RustlerStatus::Disconnected, now),
    {
        let now = now_millis();
        self.finish_disconnect_at(now);
    }

    /// Ends a disconnection at the time `now`: the adapter is `Disconnected`.
    pub fn finish_disconnect_at(&mut self, now: i64)
        ensures
            final(self)@ == old(self)@.with_status(RustlerStatus::Disconnected, now),
    {
        self.set_status_at(RustlerStatus::Disconnected, now);
    }
}

/// Whether one of `tickers` has the key `key`.
pub open spec fn has_key(tickers: Seq<TickerView>, key: Seq<char>) -> bool {
    exists|i: int| 0 <= i < tickers.len() && #[trigger] tickers[i].key() == key
}

/// Whether `ticker` is the first of `tickers` with its key.
pub open spec fn is_first_of_its_key(tickers: Seq<TickerView>, ticker: TickerView) -> bool {
    exists|i: int|
        0 <= i < tickers.len() && #[trigger] tickers[i] == ticker && !has_key(
            tickers.take(i),
            ticker.key(),
        )
}

/// Whether `ticker` is what `held` has under the key of one of `gone`.
pub open spec fn held_under_key_of(
    held: Map<Seq<char>, TickerView>,
    gone: Seq<TickerView>,
    ticker: TickerView,
) -> bool {
    exists|i: int|
        0 <= i < gone.len() && held.dom().contains(#[trigger] gone[i].key()) && held[gone[i].key()]
            == ticker
}

/// What adding does to the map: the keys afterwards are those held before and
/// those of the new tickers; what was held stays as it was; a key that was
/// not held gets the first new ticker that has it.
pub proof fn lemma_tickers_after_add(held: Map<Seq<char>, TickerView>, new: Seq<TickerView>)
    ensures
        forall|key: Seq<char>| #[trigger]
            tickers_after_add(held, new).dom().contains(key) <==> held.dom().contains(key)
                || has_key(new, key),
        forall|key: Seq<char>|
            held.dom().contains(key) ==> #[trigger] tickers_after_add(held, new)[key] == held[key],
        forall|i: int|
            #![trigger new[i]]
            0 <= i < new.len() && !held.dom().contains(new[i].key()) && !has_key(
                new.take(i),
                new[i].key(),
            ) ==> tickers_after_add(held, new)[new[i].key()] == new[i],
    decreases new.len(),
{
    if new.len() > 0 {
        let earlier = new.drop_last();
        let last = new.last();
        let n = new.len() - 1;
        lemma_tickers_after_add(held, earlier);
        let before = tickers_after_add(held, earlier);
        let after = tickers_after_add(held, new);
        assert forall|key: Seq<char>| #[trigger]
            after.dom().contains(key) <==> held.dom().contains(key) || has_key(new, key) by {
            if has_key(earlier, key) {
                let i = choose|i: int| 0 <= i < earlier.len() && #[trigger] earlier[i].key() == key;
                assert(new[i].key() == key);
            }
            if key == last.key() {
                assert(new[n].key() == key);
            }
            if has_key(new, key) {
                let i = choose|i: int| 0 <= i < new.len() && #[trigger] new[i].key() == key;
                if i < n {
                    assert(earlier[i].key() == key);
                }
            }
        }
        assert forall|i: int|
            #![trigger new[i]]
            0 <= i < new.len() && !held.dom().contains(new[i].key()) && !has_key(
                new.take(i),
                new[i].key(),
            ) implies after[new[i].key()] == new[i] by {
            if i < n {
                assert(earlier[i] == new[i]);
                assert(earlier.take(i) == new.take(i));
                assert(has_key(earlier, new[i].key()));
                assert(before.dom().contains(new[i].key()));
            } else {
                assert(new.take(i) == earlier);
            }
        }
    }
}

/// What adding reports: each reported ticker is the first of the new ones
/// with its key, its key was not held and is held afterwards, and no two
/// reported tickers share a key; and every key of a new ticker that was not
/// held is that of a reported one.
pub proof fn lemma_added_by(held: Map<Seq<char>, TickerView>, new: Seq<TickerView>)
    ensures
        forall|j: int|
            0 <= j < added_by(held, new).len() ==> !held.dom().contains(
                (#[trigger] added_by(held, new)[j]).key(),
            ) && is_first_of_its_key(new, added_by(held, new)[j]) && tickers_after_add(
                held,
                new,
            ).dom().contains(added_by(held, new)[j].key()),
        forall|j: int, k: int|
            0 <= j < k < added_by(held, new).len() ==> (#[trigger] added_by(held, new)[j]).key()
                != (#[trigger] added_by(held, new)[k]).key(),
        forall|key: Seq<char>|
            has_key(new, key) && !held.dom().contains(key) ==> #[trigger] has_key(
                added_by(held, new),
                key,
            ),
        added_by(held, new).len() <= new.len(),
    decreases new.len(),
{
    if new.len() > 0 {
        let earlier = new.drop_last();
        let last = new.last();
        let n = new.len() - 1;
        lemma_added_by(held, earlier);
        lemma_tickers_after_add(held, earlier);
        lemma_tickers_after_add(held, new);
        let before = tickers_after_add(held, earlier);
        let prev = added_by(held, earlier);
        let added = added_by(held, new);
        assert forall|j: int| 0 <= j < added.len() implies !held.dom().contains(
            (#[trigger] added[j]).key(),
        ) && is_first_of_its_key(new, added[j]) && tickers_after_add(held, new).dom().contains(
            added[j].key(),
        ) by {
            if j < prev.len() {
                assert(added[j] == prev[j]);
                let i = choose|i: int|
                    0 <= i < earlier.len() && #[trigger] earlier[i] == prev[j] && !has_key(
                        earlier.take(i),
                        prev[j].key(),
                    );
                assert(new[i] == prev[j]);
                assert(new.take(i) == earlier.take(i));
                assert(before.dom().contains(prev[j].key()));
            } else {
                assert(added[j] == new[n]);
                assert(new.take(n) == earlier);
                assert(!has_key(earlier, last.key()));
            }
        }
        assert forall|j: int, k: int| 0 <= j < k < added.len() implies (#[trigger] added[j]).key()
            != (#[trigger] added[k]).key() by {
            assert(added[j] == prev[j]);
            if k < prev.len() {
                assert(added[k] == prev[k]);
            } else {
                assert(before.dom().contains(prev[j].key()));
            }
        }
        assert forall|key: Seq<char>|
            has_key(new, key) && !held.dom().contains(key) implies #[trigger] has_key(
            added,
            key,
        ) by {
            let i = choose|i: int| 0 <= i < new.len() && #[trigger] new[i].key() == key;
            if i < n {
                assert(earlier[i].key() == key);
            }
            if has_key(earlier, key) {
                assert(has_key(prev, key));
                let j = choose|j: int| 0 <= j < prev.len() && #[trigger] prev[j].key() == key;
                assert(added[j] == prev[j]);
            } else {
                assert(!before.dom().contains(last.key()));
                assert(added[prev.len() as int] == last);
            }
        }
    }
}

/// What deleting does to the map: what is left is what was held under the
/// keys that none of the deleted tickers has.
pub proof fn lemma_tickers_after_delete(held: Map<Seq<char>, TickerView>, gone: Seq<TickerView>)
    ensures
        forall|key: Seq<char>| #[trigger]
            tickers_after_delete(held, gone).dom().contains(key) <==> held.dom().contains(key)
                && !has_key(gone, key),
        forall|key: Seq<char>|
            tickers_after_delete(held, gone).dom().contains(key) ==> #[trigger] tickers_after_delete(
                held,
                gone,
            )[key] == held[key],
    decreases gone.len(),
{
    if gone.len() > 0 {
        let earlier = gone.drop_last();
        let n = gone.len() - 1;
        lemma_tickers_after_delete(held, earlier);
        let before = tickers_after_delete(held, earlier);
        let after = tickers_after_delete(held, gone);
        assert forall|key: Seq<char>| #[trigger]
            after.dom().contains(key) <==> held.dom().contains(key) && !has_key(gone, key) by {
            if has_key(earlier, key) {
                let i = choose|i: int| 0 <= i < earlier.len() && #[trigger] earlier[i].key() == key;
                assert(gone[i].key() == key);
            }
            if key == gone[n].key() {
                assert(has_key(gone, key));
            }
            if has_key(gone, key) {
                let i = choose|i: int| 0 <= i < gone.len() && #[trigger] gone[i].key() == key;
                if i < n {
                    assert(earlier[i].key() == key);
                }
            }
        }
    }
}

/// What deleting reports: each reported ticker is what the map held under the
/// key of one of the deleted tickers; and for every held key that a deleted
/// ticker has, what was held under it is reported.
pub proof fn lemma_removed_by(held: Map<Seq<char>, TickerView>, gone: Seq<TickerView>)
    ensures
        forall|j: int|
            0 <= j < removed_by(held, gone).len() ==> held_under_key_of(
                held,
                gone,
                #[trigger] removed_by(held, gone)[j],
            ),
        forall|key: Seq<char>|
            held.dom().contains(key) && has_key(gone, key) ==> removed_by(held, gone).contains(
                #[trigger] held[key],
            ),
        removed_by(held, gone).len() <= gone.len(),
    decreases gone.len(),
{
    if gone.len() > 0 {
        let earlier = gone.drop_last();
        let last = gone.last();
        let n = gone.len() - 1;
        lemma_removed_by(held, earlier);
        lemma_tickers_after_delete(held, earlier);
        let left = tickers_after_delete(held, earlier);
        let prev = removed_by(held, earlier);
        let removed = removed_by(held, gone);
        assert forall|j: int| 0 <= j < removed.len() implies held_under_key_of(
            held,
            gone,
            #[trigger] removed[j],
        ) by {
            if j < prev.len() {
                assert(removed[j] == prev[j]);
                assert(held_under_key_of(held, earlier, prev[j]));
                let i = choose|i: int|
                    0 <= i < earlier.len() && held.dom().contains(#[trigger] earlier[i].key())
                        && held[earlier[i].key()] == prev[j];
                assert(gone[i] == earlier[i]);
                assert(held.dom().contains(gone[i].key()));
            } else {
                assert(removed[j] == left[last.key()]);
                assert(gone[n] == last);
                assert(held.dom().contains(gone[n].key()));
            }
        }
        assert forall|key: Seq<char>|
            held.dom().contains(key) && has_key(gone, key) implies removed.contains(
            #[trigger] held[key],
        ) by {
            if has_key(earlier, key) {
                let j = choose|j: int| 0 <= j < prev.len() && prev[j] == held[key];
                assert(removed[j] == prev[j]);
            } else {
                let i = choose|i: int| 0 <= i < gone.len() && #[trigger] gone[i].key() == key;
                if i < n {
                    assert(earlier[i].key() == key);
                }
                assert(left.dom().contains(key));
                assert(removed[prev.len() as int] == held[key]);
            }
        }
    }
}

/// Whether every ticker of the map is held under its own key.
pub open spec fn keyed_by_own_keys(tickers: Map<Seq<char>, TickerView>) -> bool {
    forall|key: Seq<char>| tickers.dom().contains(key) ==> (#[trigger] tickers[key]).key() == key
}

/// The ticker map of an adapter that only ever adds and deletes holds every
/// ticker under its own key: a new adapter's does, and adding and deleting
/// keep it so. What a deletion reports then has the keys of deleted tickers.
pub proof fn lemma_tickers_stay_under_their_keys(state: RustlerState, tickers: Seq<TickerView>)
    requires
        keyed_by_own_keys(state.tickers),
    ensures
        keyed_by_own_keys(RustlerState::initial(state.name).tickers),
        keyed_by_own_keys(state.after_add(tickers).tickers),
        keyed_by_own_keys(state.after_delete(tickers).tickers),
        forall|j: int|
            0 <= j < removed_by(state.tickers, tickers).len() ==> has_key(
                tickers,
                (#[trigger] removed_by(state.tickers, tickers)[j]).key(),
            ),
    decreases tickers.len(),
{
    lemma_tickers_after_delete(state.tickers, tickers);
    lemma_removed_by(state.tickers, tickers);
    if tickers.len() > 0 {
        lemma_tickers_stay_under_their_keys(state, tickers.drop_last());
    }
    let removed = removed_by(state.tickers, tickers);
    assert forall|j: int| 0 <= j < removed.len() implies has_key(
        tickers,
        (#[trigger] removed[j]).key(),
    ) by {
        assert(held_under_key_of(state.tickers, tickers, removed[j]));
    }
}

/// An adapter that is disconnected and holds no tickers, and that connects
/// when tickers are added, has two steps to take when tickers are added to
/// it: to connect, which takes it to `Connecting` and then to `Connected`,
/// and to start collecting, once, for the added tickers, which are the new
/// ones with each key taken once, at its first ticker.
pub proof fn lemma_first_add_connects(state: RustlerState, new: Seq<TickerView>, now: i64)
    requires
        state.status == RustlerStatus::Disconnected,
        state.tickers == Map::<Seq<char>, TickerView>::empty(),
        state.opts.connect_on_add,
        new.len() > 0,
    ensures
        state.add_actions(new) == seq![
            ActionView::Connect,
            ActionView::OnAdd(added_by(state.tickers, new)),
        ],
        state.after_add(new).connecting().status == RustlerStatus::Connecting,
        state.after_add(new).connecting().connect_finished(
            RustlerStatus::Disconnected,
            true,
            now,
        ).status == RustlerStatus::Connected,
        forall|i: int|
            0 <= i < new.len() ==> has_key(added_by(state.tickers, new), (#[trigger] new[i]).key()),
        forall|j: int|
            0 <= j < added_by(state.tickers, new).len() ==> is_first_of_its_key(
                new,
                #[trigger] added_by(state.tickers, new)[j],
            ),
        forall|j: int, k: int|
            0 <= j < k < added_by(state.tickers, new).len() ==> (#[trigger] added_by(
                state.tickers,
                new,
            )[j]).key() != (#[trigger] added_by(state.tickers, new)[k]).key(),
{
    lemma_added_by(state.tickers, new);
    let added = added_by(state.tickers, new);
    assert forall|i: int| 0 <= i < new.len() implies has_key(added, (#[trigger] new[i]).key()) by {
        assert(has_key(new, new[i].key()));
    }
    assert(has_key(added, new[0].key()));
    assert(added.len() > 0);
    assert(state.add_actions(new) =~= seq![ActionView::Connect, ActionView::OnAdd(added)]);
}

/// Adding a ticker whose key is held already reports nothing for that key and
/// leaves what was held under it; and no key is reported twice.
pub proof fn lemma_add_skips_held(state: RustlerState, new: Seq<TickerView>, i: int)
    requires
        0 <= i < new.len(),
        state.tickers.dom().contains(new[i].key()),
    ensures
        !has_key(added_by(state.tickers, new), new[i].key()),
        state.after_add(new).tickers.dom().contains(new[i].key()),
        state.after_add(new).tickers[new[i].key()] == state.tickers[new[i].key()],
        forall|j: int, k: int|
            0 <= j < k < added_by(state.tickers, new).len() ==> (#[trigger] added_by(
                state.tickers,
                new,
            )[j]).key() != (#[trigger] added_by(state.tickers, new)[k]).key(),
{
    lemma_added_by(state.tickers, new);
    lemma_tickers_after_add(state.tickers, new);
    let added = added_by(state.tickers, new);
    if has_key(added, new[i].key()) {
        let j = choose|j: int| 0 <= j < added.len() && #[trigger] added[j].key() == new[i].key();
        assert(!state.tickers.dom().contains(added[j].key()));
    }
}

/// An adapter that is connected or connecting and whose map a deletion
/// empties has to disconnect, which takes it to `Disconnecting` and then to
/// `Disconnected`, and then to stop collecting for what was removed: only
/// tickers that the map held under the keys of the deleted ones.
pub proof fn lemma_delete_to_empty_disconnects(state: RustlerState, gone: Seq<TickerView>, now: i64)
    requires
        state.is_connected_or_connecting(),
        state.after_delete(gone).tickers == Map::<Seq<char>, TickerView>::empty(),
    ensures
        state.delete_actions(gone) == if removed_by(state.tickers, gone).len() > 0 {
            seq![ActionView::Disconnect, ActionView::OnDelete(removed_by(state.tickers, gone))]
        } else {
            seq![ActionView::Disconnect]
        },
        state.after_delete(gone).disconnecting().status == RustlerStatus::Disconnecting,
        state.after_delete(gone).disconnecting().with_status(
            RustlerStatus::Disconnected,
            now,
        ).status == RustlerStatus::Disconnected,
        state.after_delete(gone).disconnecting().with_status(
            RustlerStatus::Disconnected,
            now,
        ).last_stop == Some(now),
        forall|j: int|
            0 <= j < removed_by(state.tickers, gone).len() ==> held_under_key_of(
                state.tickers,
                gone,
                #[trigger] removed_by(state.tickers, gone)[j],
            ),
        state.tickers != Map::<Seq<char>, TickerView>::empty() ==> removed_by(
            state.tickers,
            gone,
        ).len() > 0,
{
    lemma_removed_by(state.tickers, gone);
    lemma_tickers_after_delete(state.tickers, gone);
    let removed = removed_by(state.tickers, gone);
    if removed.len() > 0 {
        assert(state.delete_actions(gone) =~= seq![
            ActionView::Disconnect,
            ActionView::OnDelete(removed),
        ]);
    } else {
        assert(state.delete_actions(gone) =~= seq![ActionView::Disconnect]);
    }
    if state.tickers != Map::<Seq<char>, TickerView>::empty() {
        if forall|k: Seq<char>| !state.tickers.dom().contains(k) {
            assert(state.tickers =~= Map::<Seq<char>, TickerView>::empty());
        }
        let k = choose|k: Seq<char>| state.tickers.dom().contains(k);
        assert(!tickers_after_delete(state.tickers, gone).dom().contains(k));
        assert(removed.contains(state.tickers[k]));
    }
}

/// A connection attempt that fails leaves the adapter as it was before the
/// attempt began.
pub proof fn lemma_failed_connect_changes_nothing(state: RustlerState, now: i64)
    requires
        !state.is_connected_or_connecting(),
    ensures
        state.connecting().status == RustlerStatus::Connecting,
        state.connecting().connect_finished(state.status, false, now) == state,
{
}

/// Connecting an adapter that is connected or connecting, and disconnecting
/// one that is disconnected or disconnecting, changes nothing.
pub proof fn lemma_connect_and_disconnect_are_idempotent(state: RustlerState)
    ensures
        state.is_connected_or_connecting() ==> state.connecting() == state,
        state.is_disconnected_or_disconnecting() ==> state.disconnecting() == state,
        state.connecting().connecting() == state.connecting(),
        state.disconnecting().disconnecting() == state.disconnecting(),
{
}

} // verus!
