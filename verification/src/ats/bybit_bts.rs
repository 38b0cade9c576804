//! The back test on a recorded Bybit feed.  Each line of the feed runs
//! through the market simulator, the order book, the strategy and the order
//! manager: a message of the book topic moves the books and lets the
//! strategy act, a message of the trade topic fills resting orders.
use crate::ats::bybit_bts_agree::orders_agree;
use crate::engine::bybit_market_simulator::{
    sim_depth_post,
    sim_request_post,
    sim_trade_post,
    BybitMarketSimulator,
};
use crate::engine::bybit_order_book::{ob_depth_post, BybitOrderBook};
use crate::engine::common::{BookEvent, Depth, Order, Side, Status};
use crate::engine::error::EngineError;
use crate::engine::order_manager::{om_report_post, om_split_post, OrderManager};
use crate::engine::orders::all_on_side;
use crate::engine::trading_strategy::{ts_event_post, ts_response_post, TradingStrategy};
use crate::utils::decimal::{decimal_parse, parse_decimal, pow10, Dec};
use crate::utils::json::{member_is_str, JsonValue};
use crate::utils::text::{i64_text, parse_i64};
use crate::utils::time::{parse_utc_nanos, utc_now_nanos, utc_timestamp_nanos};
use vstd::prelude::*;

verus! {

/// The back-test system.
pub struct BybitBackTestSystem {}

/// The parts of a back test and their state.
pub struct BackTestRun {
    pub order_book: BybitOrderBook,
    pub trading_strategy: TradingStrategy,
    pub order_manager: OrderManager,
    pub simulator: BybitMarketSimulator,
}

/// `s` with the simulator `sim`.
pub open spec fn with_simulator(s: BackTestRun, sim: BybitMarketSimulator) -> BackTestRun {
    BackTestRun {
        order_book: s.order_book,
        trading_strategy: s.trading_strategy,
        order_manager: s.order_manager,
        simulator: sim,
    }
}

/// `s` with the order book `ob`.
pub open spec fn with_book(s: BackTestRun, ob: BybitOrderBook) -> BackTestRun {
    BackTestRun {
        order_book: ob,
        trading_strategy: s.trading_strategy,
        order_manager: s.order_manager,
        simulator: s.simulator,
    }
}

/// `s` with the strategy `ts`.
pub open spec fn with_strategy(s: BackTestRun, ts: TradingStrategy) -> BackTestRun {
    BackTestRun {
        order_book: s.order_book,
        trading_strategy: ts,
        order_manager: s.order_manager,
        simulator: s.simulator,
    }
}

/// `s` with the order manager `om`.
pub open spec fn with_manager(s: BackTestRun, om: OrderManager) -> BackTestRun {
    BackTestRun {
        order_book: s.order_book,
        trading_strategy: s.trading_strategy,
        order_manager: om,
        simulator: s.simulator,
    }
}

/// One step of a run over a list of orders: from the state `pre` to `post`
/// with the outcome `r` for the order `o`.
pub type OrderStep = spec_fn(BackTestRun, BackTestRun, Order, Result<(), EngineError>) -> bool;

/// `states` are the states of a run of `step` over the first `k` orders of
/// `s`, each of which succeeded: `states[i + 1]` follows `states[i]` by the
/// order `s[i]`.
pub open spec fn steps_ok(states: Seq<BackTestRun>, s: Seq<Order>, k: int, step: OrderStep) -> bool {
    &&& 0 <= k <= s.len()
    &&& states.len() == k + 1
    &&& forall|i: int| 0 <= i < k ==> step(states[i], #[trigger] states.drop_first()[i], s[i], Ok(()))
}

/// Taking the orders of `s` in turn by `step`, from `pre`, ends in `post`
/// with the outcome `r`; the first error ends the run.
pub open spec fn run_each(pre: BackTestRun, post: BackTestRun, s: Seq<Order>, r: Result<(), EngineError>, step: OrderStep) -> bool {
    exists|states: Seq<BackTestRun>, k: int|
        #[trigger] steps_ok(states, s, k, step) && states[0] == pre && match r {
            Ok(()) => k == s.len() && post == states[k],
            Err(_) => k < s.len() && step(states[k], post, s[k], r),
        }
}

/// The strategy's answer to what the order manager passed on: `ack` is
/// what the manager gave.  Where it passed nothing on, the outcome is
/// `missing`, or success where that is `None`.
pub open spec fn pass_on_post(
    pre: BackTestRun,
    post: BackTestRun,
    ack: Result<Option<Order>, EngineError>,
    missing: Option<EngineError>,
    r: Result<(), EngineError>,
) -> bool {
    match ack {
        Err(e) => post == pre && r == Err::<(), EngineError>(e),
        Ok(None) => post == pre && r == match missing {
            Some(e) => Err::<(), EngineError>(e),
            None => Ok(()),
        },
        Ok(Some(x)) => ts_response_post(pre.trading_strategy, post.trading_strategy, x, r) && post
            == with_strategy(pre, post.trading_strategy),
    }
}

/// What the order manager and the strategy make of the report `answer` of
/// the simulator.  Where the simulator gave nothing, the outcome is `missing`
/// (or success where that is `None`); where the manager passes nothing on,
/// it is `unpassed` (or success).
pub open spec fn report_post(
    pre: BackTestRun,
    post: BackTestRun,
    answer: Result<Option<Order>, EngineError>,
    missing: Option<EngineError>,
    unpassed: Option<EngineError>,
    r: Result<(), EngineError>,
) -> bool {
    match answer {
        Err(e) => post == pre && r == Err::<(), EngineError>(e),
        Ok(None) => post == pre && r == match missing {
            Some(e) => Err::<(), EngineError>(e),
            None => Ok(()),
        },
        Ok(Some(exec)) => exists|om: OrderManager, ack: Result<Option<Order>, EngineError>|
            #[trigger] om_report_post(pre.order_manager, om, exec, ack) && pass_on_post(
                with_manager(pre, om),
                post,
                ack,
                unpassed,
                r,
            ),
    }
}

/// `o` stamped with the time `now`.
pub open spec fn stamped(o: Order, now: Option<i64>) -> Order {
    Order {
        order_id: o.order_id,
        trade_id: o.trade_id,
        client_oid: o.client_oid,
        price: o.price,
        size: o.size,
        side: o.side,
        action: o.action,
        status: o.status,
        timstamp: now,
    }
}

/// Sending the order `o`, stamped with the time of sending, to the
/// simulator, and its answer back through the manager to the strategy.  The
/// simulator must answer and the manager must pass the answer on.
pub open spec fn route_post(pre: BackTestRun, post: BackTestRun, o: Order, r: Result<(), EngineError>) -> bool {
    exists|now: Option<i64>, sim: BybitMarketSimulator, answer: Result<Option<Order>, EngineError>|
        #[trigger] sim_request_post(pre.simulator, sim, stamped(o, now), answer) && report_post(
            with_simulator(pre, sim),
            post,
            answer,
            Some(EngineError::Unanswered),
            Some(EngineError::Unacknowledged),
            r,
        )
}

/// Handing the refused order `o` back to the strategy.
pub open spec fn refuse_post(pre: BackTestRun, post: BackTestRun, o: Order, r: Result<(), EngineError>) -> bool {
    ts_response_post(pre.trading_strategy, post.trading_strategy, o, r) && post == with_strategy(
        pre,
        post.trading_strategy,
    )
}

/// A trade `t` of the market against the simulator; the fill it gives goes
/// through the manager to the strategy.
pub open spec fn trade_post(pre: BackTestRun, post: BackTestRun, t: Order, r: Result<(), EngineError>) -> bool {
    exists|sim: BybitMarketSimulator, fill: Result<Option<Order>, EngineError>|
        #[trigger] sim_trade_post(pre.simulator, sim, t, fill) && report_post(
            with_simulator(pre, sim),
            post,
            fill,
            None,
            None,
            r,
        )
}

/// Which step a run over a list of orders takes.
#[derive(Copy, Clone)]
pub enum StepKind {
    /// Send the order to the simulator (`route_post`).
    Route,
    /// Hand the refused order back to the strategy (`refuse_post`).
    Refuse,
    /// Trade against the simulator (`trade_post`).
    Trade,
}

/// The step of `run_each` that `kind` names.
pub open spec fn step_of(kind: StepKind) -> OrderStep {
    |a: BackTestRun, b: BackTestRun, o: Order, r: Result<(), EngineError>|
        match kind {
            StepKind::Route => route_post(a, b, o, r),
            StepKind::Refuse => refuse_post(a, b, o, r),
            StepKind::Trade => trade_post(a, b, o, r),
        }
}

/// The strategy and the simulator agree on the number of resting orders of
/// each side.
pub open spec fn counts_agree(s: BackTestRun) -> bool {
    &&& s.trading_strategy.bid_orders@.len() == s.simulator.bid_orders@.len()
    &&& s.trading_strategy.ask_orders@.len() == s.simulator.ask_orders@.len()
}

/// The closing check of a message of the book topic: nothing changes, and
/// it is an error where the strategy and the simulator disagree.
pub open spec fn check_post(pre: BackTestRun, post: BackTestRun, r: Result<(), EngineError>) -> bool {
    post == pre && r == if counts_agree(pre) {
        Ok::<(), EngineError>(())
    } else {
        Err(EngineError::BookMismatch)
    }
}

/// After the order manager split the strategy's orders into `sent` and
/// `refused`: the refused ones go back to the strategy, then the sent ones
/// to the simulator, then the closing check.
pub open spec fn dispatch_post(
    pre: BackTestRun,
    post: BackTestRun,
    sent: Seq<Order>,
    refused: Seq<Order>,
    r: Result<(), EngineError>,
) -> bool {
    exists|mid: BackTestRun, r1: Result<(), EngineError>|
        #[trigger] run_each(pre, mid, refused, r1, step_of(StepKind::Refuse)) && match r1 {
            Err(e) => post == mid && r == Err::<(), EngineError>(e),
            Ok(()) => exists|last: BackTestRun, r2: Result<(), EngineError>|
                #[trigger] run_each(mid, last, sent, r2, step_of(StepKind::Route)) && match r2 {
                    Err(e) => post == last && r == Err::<(), EngineError>(e),
                    Ok(()) => check_post(last, post, r),
                },
        }
}

/// What the strategy's `orders` do: the order manager splits them (see
/// `om_split_post`) and they go on as `dispatch_post` says.
pub open spec fn orders_post(pre: BackTestRun, post: BackTestRun, orders: Seq<Order>, r: Result<(), EngineError>) -> bool {
    exists|om: OrderManager, split: (Vec<Order>, Vec<Order>)|
        #[trigger] om_split_post(pre.order_manager, om, orders, split) && dispatch_post(
            with_manager(pre, om),
            post,
            split.0@,
            split.1@,
            r,
        )
}

/// What a top of the book `be` does: the strategy takes it (see
/// `ts_event_post`), and the orders it plans go on as `orders_post` says;
/// where it plans none, the closing check follows.
pub open spec fn event_post(pre: BackTestRun, post: BackTestRun, be: BookEvent, r: Result<(), EngineError>) -> bool {
    exists|ts: TradingStrategy, planned: Result<Option<Vec<Order>>, EngineError>|
        #[trigger] ts_event_post(pre.trading_strategy, ts, be, planned) && match planned {
            Err(e) => post == with_strategy(pre, ts) && r == Err::<(), EngineError>(e),
            Ok(None) => check_post(with_strategy(pre, ts), post, r),
            Ok(Some(orders)) => orders_post(with_strategy(pre, ts), post, orders@, r),
        }
}

/// What a message of the book topic does once its time is read: the
/// simulator takes it (see `sim_depth_post`), then the order book (see
/// `ob_depth_post`); a top-of-book event goes on as `event_post` says,
/// and without one the closing check follows.
pub open spec fn book_post(pre: BackTestRun, post: BackTestRun, message: JsonValue, r: Result<(), EngineError>) -> bool {
    exists|sim: BybitMarketSimulator, r1: Result<(), EngineError>|
        #[trigger] sim_depth_post(pre.simulator, sim, message, r1) && match r1 {
            Err(e) => post == with_simulator(pre, sim) && r == Err::<(), EngineError>(e),
            Ok(()) => exists|ob: BybitOrderBook, ev: Result<Option<BookEvent>, EngineError>|
                #[trigger] ob_depth_post(pre.order_book, ob, message, ev) && match ev {
                    Err(e) => post == with_book(with_simulator(pre, sim), ob) && r == Err::<(), EngineError>(e),
                    Ok(None) => check_post(with_book(with_simulator(pre, sim), ob), post, r),
                    Ok(Some(be)) => event_post(with_book(with_simulator(pre, sim), ob), post, be, r),
                },
        }
}

/// The text of the member `key` of `v`, where it is a string.
pub open spec fn str_member(v: JsonValue, key: Seq<char>) -> Option<String> {
    match v.spec_get(key) {
        Some(m) => m.spec_as_str(),
        None => None,
    }
}

/// The text of the member `key` of `v`, where it is a number.
pub open spec fn number_member(v: JsonValue, key: Seq<char>) -> Option<String> {
    match v.spec_get(key) {
        Some(m) => m.spec_as_number(),
        None => None,
    }
}

/// The time of a message of the book topic: its `timestamp_e6` is the text
/// of an integer in microseconds, given here in nanoseconds.  `None` where
/// it is missing, not so written, or too large.
pub open spec fn book_time(v: JsonValue) -> Option<i64> {
    match str_member(v, "timestamp_e6"@) {
        Some(t) => match i64_text(t@) {
            Some(n) => if i64::MIN <= n * 1000 <= i64::MAX {
                Some((n * 1000) as i64)
            } else {
                None
            },
            None => None,
        },
        None => None,
    }
}

/// A trade of the market as the trade topic writes it: an object with the
/// string members `timestamp` (an RFC 3339 time), `trade_id`, `price` (a
/// decimal) and `side` (`Sell` for a trade on the ask side, anything else
/// for the bid side), and the number member `size`.  The trade is a filled
/// order at its time.  `None` where it is not so written.
pub open spec fn bybit_trade(v: JsonValue) -> Option<Order> {
    match (str_member(v, "timestamp"@), str_member(v, "trade_id"@), str_member(v, "price"@), number_member(v, "size"@), str_member(v, "side"@)) {
        (Some(t), Some(id), Some(p), Some(q), Some(side)) => match (utc_timestamp_nanos(t@), decimal_parse(p@), decimal_parse(q@)) {
            (Some(nanos), Some(price), Some(size)) => Some(
                Order {
                    order_id: None,
                    trade_id: Some(id),
                    client_oid: None,
                    price,
                    size,
                    side: if side@ == "Sell"@ {
                        Side::Ask
                    } else {
                        Side::Bid
                    },
                    action: None,
                    status: Some(Status::Filled),
                    timstamp: Some(nanos),
                },
            ),
            _ => None,
        },
        _ => None,
    }
}

/// The trades of the list `items`, where each is well written.
pub open spec fn bybit_trades(items: Seq<JsonValue>) -> Option<Seq<Order>> {
    if forall|i: int| 0 <= i < items.len() ==> #[trigger] bybit_trade(items[i]) is Some {
        Some(Seq::new(items.len(), |i: int| bybit_trade(items[i]).unwrap()))
    } else {
        None
    }
}

/// What a message of the trade topic does: its `data` is a list of trades,
/// which are taken in turn (see `trade_post`).  A message not so written is
/// an error and changes nothing.
pub open spec fn trades_post(pre: BackTestRun, post: BackTestRun, message: JsonValue, r: Result<(), EngineError>) -> bool {
    match message.spec_get("data"@) {
        Some(d) => match d.spec_as_array() {
            Some(items) => match bybit_trades(items) {
                Some(trades) => run_each(pre, post, trades, r, step_of(StepKind::Trade)),
                None => post == pre && r == Err::<(), EngineError>(EngineError::Malformed),
            },
            None => post == pre && r == Err::<(), EngineError>(EngineError::Malformed),
        },
        None => post == pre && r == Err::<(), EngineError>(EngineError::Malformed),
    }
}

/// What a line of the feed does.  It must be an object.  Where its `topic`
/// is the book topic of BTCUSDT, its time must be well written (see
/// `book_time`) and it goes on as `book_post` says; where it is the trade
/// topic of BTCUSDT it goes on as `trades_post` says; any other line changes
/// nothing.
pub open spec fn message_post(pre: BackTestRun, post: BackTestRun, message: JsonValue, r: Result<(), EngineError>) -> bool {
    match message {
        JsonValue::Object(_) => if member_is_str(message, "topic"@, "orderBook_200.100ms.BTCUSDT"@) {
            match book_time(message) {
                None => post == pre && r == Err::<(), EngineError>(EngineError::Malformed),
                Some(_) => book_post(pre, post, message, r),
            }
        } else if member_is_str(message, "topic"@, "trade.BTCUSDT"@) {
            trades_post(pre, post, message, r)
        } else {
            post == pre && r == Ok::<(), EngineError>(())
        },
        _ => post == pre && r == Err::<(), EngineError>(EngineError::Malformed),
    }
}

/// The strategy of `s` keeps its asks among its asks and its bids among its bids.
pub open spec fn strategy_sides_ok(s: BackTestRun) -> bool {
    &&& all_on_side(s.trading_strategy.ask_orders@, Side::Ask)
    &&& all_on_side(s.trading_strategy.bid_orders@, Side::Bid)
}

impl BackTestRun {
    /// Passes the manager's answer `ack` on to the strategy (see `pass_on_post`).
    fn pass_on(&mut self, ack: Result<Option<Order>, EngineError>, missing: Option<EngineError>) -> (r: Result<(), EngineError>)
        ensures
            pass_on_post(*old(self), *final(self), ack, missing, r),
    {
        match ack {
            Err(e) => Err(e),
            Ok(None) => match missing {
                Some(e) => Err(e),
                None => Ok(()),
            },
            Ok(Some(x)) => self.trading_strategy.handle_market_response(x),
        }
    }

    /// Takes the simulator's report `answer` through the manager to the
    /// strategy (see `report_post`).
    fn take_report(
        &mut self,
        answer: Result<Option<Order>, EngineError>,
        missing: Option<EngineError>,
        unpassed: Option<EngineError>,
    ) -> (r: Result<(), EngineError>)
        ensures
            report_post(*old(self), *final(self), answer, missing, unpassed, r),
    {
        match answer {
            Err(e) => Err(e),
            Ok(None) => match missing {
                Some(e) => Err(e),
                None => Ok(()),
            },
            Ok(Some(exec)) => {
                let ghost pre = *self;
                let ack = self.order_manager.handle_order_from_gateway(exec);
                let ghost mid = *self;
                let r = self.pass_on(ack, unpassed);
                assert(om_report_post(pre.order_manager, mid.order_manager, exec, ack) && pass_on_post(
                    with_manager(pre, mid.order_manager),
                    *self,
                    ack,
                    unpassed,
                    r,
                ));
                r
            },
        }
    }

    /// Sends an order of the strategy to the simulator (see `route_post`).
    fn route(&mut self, o: Order) -> (r: Result<(), EngineError>)
        ensures
            route_post(*old(self), *final(self), o, r),
    {
        let ghost pre = *self;
        let now = utc_now_nanos();
        let mut sent = o.clone();
        sent.timstamp = now;
        let answer = self.simulator.handle_orders_from_om(sent);
        let ghost mid = *self;
        let r = self.take_report(answer, Some(EngineError::Unanswered), Some(EngineError::Unacknowledged));
        assert(sim_request_post(pre.simulator, mid.simulator, stamped(o, now), answer) && report_post(
            with_simulator(pre, mid.simulator),
            *self,
            answer,
            Some(EngineError::Unanswered),
            Some(EngineError::Unacknowledged),
            r,
        ));
        r
    }

    /// Hands a refused order back to the strategy (see `refuse_post`).
    fn refuse(&mut self, o: Order) -> (r: Result<(), EngineError>)
        ensures
            refuse_post(*old(self), *final(self), o, r),
    {
        self.trading_strategy.handle_market_response(o)
    }

    /// Trades `t` against the simulator (see `trade_post`).
    fn trade(&mut self, t: Order) -> (r: Result<(), EngineError>)
        ensures
            trade_post(*old(self), *final(self), t, r),
    {
        let ghost pre = *self;
        let fill = self.simulator.handle_order_from_gw(t.clone());
        let ghost mid = *self;
        let r = self.take_report(fill, None, None);
        assert(sim_trade_post(pre.simulator, mid.simulator, t, fill) && report_post(
            with_simulator(pre, mid.simulator),
            *self,
            fill,
            None,
            None,
            r,
        ));
        r
    }

    /// Takes the step `kind` for the order `o`.
    fn take_step(&mut self, kind: StepKind, o: Order) -> (r: Result<(), EngineError>)
        ensures
            (step_of(kind))(*old(self), *final(self), o, r),
    {
        match kind {
            StepKind::Route => self.route(o),
            StepKind::Refuse => self.refuse(o),
            StepKind::Trade => self.trade(o),
        }
    }

    /// Takes the step `kind` for each of `orders` in turn; the first error
    /// ends the run.
    fn run_all(&mut self, kind: StepKind, orders: &Vec<Order>) -> (r: Result<(), EngineError>)
        ensures
            run_each(*old(self), *final(self), orders@, r, step_of(kind)),
    {
        let ghost mut states = seq![*self];
        let mut i: usize = 0;
        while i < orders.len()
            invariant
                i <= orders@.len(),
                steps_ok(states, orders@, i as int, step_of(kind)),
                states[0] == *old(self),
                states[i as int] == *self,
            decreases orders@.len() - i,
        {
            let o = orders[i].clone();
            let r = self.take_step(kind, o);
            match r {
                Err(e) => {
                    return Err(e);
                },
                Ok(()) => {},
            }
            proof {
                let next = states.push(*self);
                assert forall|j: int| 0 <= j < i + 1 implies (step_of(kind))(
                    next[j],
                    #[trigger] next.drop_first()[j],
                    orders@[j],
                    Ok(()),
                ) by {
                    if j < i {
                        assert(next.drop_first()[j] == states.drop_first()[j]);
                    }
                };
                states = next;
            }
            i = i + 1;
        }
        Ok(())
    }

    /// The closing check of a message of the book topic (see `check_post`).
    fn check_counts(&self) -> (r: Result<(), EngineError>)
        ensures
            r == if counts_agree(*self) {
                Ok::<(), EngineError>(())
            } else {
                Err(EngineError::BookMismatch)
            },
    {
        if self.trading_strategy.bid_orders.len() == self.simulator.bid_orders.len()
            && self.trading_strategy.ask_orders.len() == self.simulator.ask_orders.len() {
            Ok(())
        } else {
            Err(EngineError::BookMismatch)
        }
    }

    /// The refused orders go back to the strategy, the sent ones to the
    /// simulator, then the closing check (see `dispatch_post`).
    fn dispatch(&mut self, sent: &Vec<Order>, refused: &Vec<Order>) -> (r: Result<(), EngineError>)
        ensures
            dispatch_post(*old(self), *final(self), sent@, refused@, r),
    {
        let r1 = self.run_all(StepKind::Refuse, refused);
        match r1 {
            Err(e) => {
                return Err(e);
            },
            Ok(()) => {},
        }
        let r2 = self.run_all(StepKind::Route, sent);
        match r2 {
            Err(e) => Err(e),
            Ok(()) => self.check_counts(),
        }
    }

    /// The strategy's orders go through the order manager (see `orders_post`).
    fn send_orders(&mut self, orders: Vec<Order>) -> (r: Result<(), EngineError>)
        ensures
            orders_post(*old(self), *final(self), orders@, r),
    {
        let ghost pre = *self;
        let mut orders = orders;
        let split = self.order_manager.handle_orders_from_trading_strategy(&mut orders);
        let ghost mid = *self;
        let r = self.dispatch(&split.0, &split.1);
        assert(om_split_post(pre.order_manager, mid.order_manager, orders@, split) && dispatch_post(
            with_manager(pre, mid.order_manager),
            *self,
            split.0@,
            split.1@,
            r,
        ));
        r
    }

    /// The strategy takes a top of the book (see `event_post`).
    fn take_event(&mut self, be: BookEvent) -> (r: Result<(), EngineError>)
        ensures
            event_post(*old(self), *final(self), be, r),
    {
        let ghost pre = *self;
        let planned = self.trading_strategy.handle_book_event(be);
        let ghost mid = *self;
        let ghost planned_copy = planned;
        let r = match planned {
            Err(e) => Err(e),
            Ok(None) => self.check_counts(),
            Ok(Some(orders)) => self.send_orders(orders),
        };
        assert(ts_event_post(pre.trading_strategy, mid.trading_strategy, be, planned_copy) && match planned_copy {
            Err(e) => *self == with_strategy(pre, mid.trading_strategy) && r == Err::<(), EngineError>(e),
            Ok(None) => check_post(with_strategy(pre, mid.trading_strategy), *self, r),
            Ok(Some(orders)) => orders_post(with_strategy(pre, mid.trading_strategy), *self, orders@, r),
        });
        r
    }

    /// A message of the book topic once its time is read (see `book_post`).
    fn take_book(&mut self, message: &JsonValue) -> (r: Result<(), EngineError>)
        ensures
            book_post(*old(self), *final(self), *message, r),
    {
        let ghost pre = *self;
        let r1 = self.simulator.handle_depth_from_lp(message);
        let ghost s1 = *self;
        match r1 {
            Err(e) => {
                return Err(e);
            },
            Ok(()) => {},
        }
        let ev = self.order_book.handle_depth_from_gateway(message);
        let ghost s2 = *self;
        let r = match ev {
            Err(e) => Err(e),
            Ok(None) => self.check_counts(),
            Ok(Some(be)) => self.take_event(be),
        };
        assert(ob_depth_post(pre.order_book, s2.order_book, *message, ev) && match ev {
            Err(e) => *self == with_book(with_simulator(pre, s1.simulator), s2.order_book) && r == Err::<(), EngineError>(e),
            Ok(None) => check_post(with_book(with_simulator(pre, s1.simulator), s2.order_book), *self, r),
            Ok(Some(be)) => event_post(with_book(with_simulator(pre, s1.simulator), s2.order_book), *self, be, r),
        });
        r
    }

    /// A message of the trade topic (see `trades_post`).
    fn take_trades(&mut self, message: &JsonValue) -> (r: Result<(), EngineError>)
        ensures
            trades_post(*old(self), *final(self), *message, r),
    {
        let items = match message.get("data") {
            Some(d) => match d.as_array() {
                Some(items) => items,
                None => {
                    return Err(EngineError::Malformed);
                },
            },
            None => {
                return Err(EngineError::Malformed);
            },
        };
        match read_trades(items) {
            Some(trades) => self.run_all(StepKind::Trade, &trades),
            None => Err(EngineError::Malformed),
        }
    }

    /// A back test at its start: an empty book for BTCUSDT, a new strategy,
    /// an order manager that keeps no order, and a simulator with an empty
    /// book and no resting order.
    pub fn new() -> (r: BackTestRun)
        ensures
            r.order_book.map_asks@ == Map::<int, Depth>::empty(),
            r.order_book.map_bids@ == Map::<int, Depth>::empty(),
            r.order_book.current_bid is None,
            r.order_book.current_ask is None,
            r.order_book.symbol matches Some(symbol) && symbol@ == "BTCUSDT"@,
            r.trading_strategy.ask_orders@ == Map::<int, Order>::empty(),
            r.trading_strategy.bid_orders@ == Map::<int, Order>::empty(),
            r.trading_strategy.position == Dec::spec_zero(),
            r.trading_strategy.pnl == Dec::spec_zero(),
            r.trading_strategy.cash == Dec::spec_new(100, 0),
            r.trading_strategy.current_bid == Dec::spec_zero(),
            r.trading_strategy.current_ask == Dec::spec_zero(),
            r.trading_strategy.position@ == 0,
            r.trading_strategy.pnl@ == 0,
            r.trading_strategy.cash@ == 100 * pow10(28),
            r.trading_strategy.current_bid@ == 0,
            r.trading_strategy.current_ask@ == 0,
            r.trading_strategy.min_quantity == Dec::spec_new(1, 5),
            r.order_manager.ask_orders@ == Map::<int, Order>::empty(),
            r.order_manager.bid_orders@ == Map::<int, Order>::empty(),
            r.simulator.asks_map@ == Map::<int, Depth>::empty(),
            r.simulator.bids_map@ == Map::<int, Depth>::empty(),
            r.simulator.ask_orders@ == Map::<int, Order>::empty(),
            r.simulator.bid_orders@ == Map::<int, Order>::empty(),
            strategy_sides_ok(r),
            orders_agree(r),
    {
        BackTestRun {
            order_book: BybitOrderBook::new(Some(String::from_str("BTCUSDT"))),
            trading_strategy: TradingStrategy::new(),
            order_manager: OrderManager::new(),
            simulator: BybitMarketSimulator::new(),
        }
    }

    /// Runs a line of the feed through the back test (see `message_post`).
    /// Where the strategy and the simulator disagree on the number of
    /// resting orders after a message of the book topic, it is an error.
    pub fn handle_message(&mut self, message: &JsonValue) -> (r: Result<(), EngineError>)
        ensures
            message_post(*old(self), *final(self), *message, r),
    {
        match message {
            JsonValue::Object(_) => {},
            _ => {
                return Err(EngineError::Malformed);
            },
        }
        let is_book = match message.get("topic") {
            Some(t) => t.is_str("orderBook_200.100ms.BTCUSDT"),
            None => false,
        };
        if is_book {
            match read_book_time(message) {
                Some(_) => self.take_book(message),
                None => Err(EngineError::Malformed),
            }
        } else {
            let is_trade = match message.get("topic") {
                Some(t) => t.is_str("trade.BTCUSDT"),
                None => false,
            };
            if is_trade {
                self.take_trades(message)
            } else {
                Ok(())
            }
        }
    }
}

/// Reads the member `key` of `v` where it is a string.
fn read_str_member(v: &JsonValue, key: &str) -> (r: Option<String>)
    ensures
        r == str_member(*v, key@),
{
    match v.get(key) {
        Some(m) => match m.as_str() {
            Some(s) => Some(s.clone()),
            None => None,
        },
        None => None,
    }
}

/// Reads the member `key` of `v` where it is a number.
fn read_number_member(v: &JsonValue, key: &str) -> (r: Option<String>)
    ensures
        r == number_member(*v, key@),
{
    match v.get(key) {
        Some(m) => match m.as_number() {
            Some(s) => Some(s.clone()),
            None => None,
        },
        None => None,
    }
}

/// Reads the time of a message of the book topic (see `book_time`).
pub fn read_book_time(v: &JsonValue) -> (r: Option<i64>)
    ensures
        r == book_time(*v),
{
    match read_str_member(v, "timestamp_e6") {
        Some(t) => match parse_i64(t.as_str()) {
            Some(n) => n.checked_mul(1000),
            None => None,
        },
        None => None,
    }
}

/// Reads a trade of the market (see `bybit_trade`).
pub fn read_trade(v: &JsonValue) -> (r: Option<Order>)
    ensures
        r == bybit_trade(*v),
{
    let t = match read_str_member(v, "timestamp") {
        Some(x) => x,
        None => {
            return None;
        },
    };
    let id = match read_str_member(v, "trade_id") {
        Some(x) => x,
        None => {
            return None;
        },
    };
    let p = match read_str_member(v, "price") {
        Some(x) => x,
        None => {
            return None;
        },
    };
    let q = match read_number_member(v, "size") {
        Some(x) => x,
        None => {
            return None;
        },
    };
    let side = match read_str_member(v, "side") {
        Some(x) => x,
        None => {
            return None;
        },
    };
    let nanos = match parse_utc_nanos(t.as_str()) {
        Some(x) => x,
        None => {
            return None;
        },
    };
    let price = match parse_decimal(p.as_str()) {
        Some(x) => x,
        None => {
            return None;
        },
    };
    let size = match parse_decimal(q.as_str()) {
        Some(x) => x,
        None => {
            return None;
        },
    };
    let sell = String::from_str("Sell");
    Some(
        Order {
            order_id: None,
            trade_id: Some(id),
            client_oid: None,
            price,
            size,
            side: if side == sell {
                Side::Ask
            } else {
                Side::Bid
            },
            action: None,
            status: Some(Status::Filled),
            timstamp: Some(nanos),
        },
    )
}

/// Reads a list of trades of the market (see `bybit_trades`).
pub fn read_trades(items: &Vec<JsonValue>) -> (r: Option<Vec<Order>>)
    ensures
        match bybit_trades(items@) {
            Some(s) => r matches Some(v) && v@ == s,
            None => r is None,
        },
{
    let mut out: Vec<Order> = Vec::new();
    let mut i: usize = 0;
    while i < items.len()
        invariant
            i <= items@.len(),
            forall|j: int| 0 <= j < i ==> #[trigger] bybit_trade(items@[j]) is Some,
            out@ =~= Seq::new(i as nat, |j: int| bybit_trade(items@[j]).unwrap()),
        decreases items@.len() - i,
    {
        match read_trade(&items[i]) {
            Some(t) => {
                out.push(t);
            },
            None => {
                return None;
            },
        }
        i = i + 1;
    }
    Some(out)
}

} // verus!
