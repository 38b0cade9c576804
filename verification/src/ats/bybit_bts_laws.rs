//! What the back test keeps, line after line: every order that the strategy
//! sends is answered, and every answer passed on; the strategy keeps its asks
//! among its asks and its bids among its bids.
use crate::ats::bybit_bts::{
    book_time,
    bybit_trades,
    check_post,
    dispatch_post,
    event_post,
    message_post,
    orders_post,
    pass_on_post,
    report_post,
    route_post,
    run_each,
    stamped,
    step_of,
    steps_ok,
    strategy_sides_ok,
    trade_post,
    with_book,
    with_manager,
    with_simulator,
    with_strategy,
    BackTestRun,
    StepKind,
};
use crate::engine::bybit_book::{
    bybit_delta,
    bybit_levels,
    bybit_message,
    lemma_book_change_errors,
    BybitAction,
};
use crate::engine::bybit_market_simulator::{
    sim_depth_post,
    sim_request_post,
    sim_trade_post,
    BybitMarketSimulator,
};
use crate::engine::bybit_order_book::{ob_depth_post, BybitOrderBook};
use crate::engine::common::{Action, BookEvent, Order, Side};
use crate::engine::error::EngineError;
use crate::engine::order_manager::{
    lemma_record_orders_keeps,
    lemma_split_partitions,
    lemma_valid_orders_of,
    lemma_valid_orders_places,
    om_report_post,
    om_split_post,
    valid_orders,
    OrderManager,
};
use crate::engine::orders::{all_on_side, distinct_places, unique_prices};
use crate::engine::trading_strategy::{
    book_event_post,
    lemma_event_keeps_sides,
    lemma_response_keeps_sides,
    lemma_sent_orders_marked,
    lemma_sent_orders_places,
    sync_post,
    ts_event_post,
    ts_response_post,
    TradingStrategy,
};
use crate::utils::json::{member_is_str, JsonValue};
use crate::utils::time::decimal_text;
use vstd::prelude::*;

verus! {

/// The simulator leaves an order of the strategy unanswered only where it
/// does not know the order's action: an order to be sent, modified or
/// cancelled is always answered (as the strategy marks each order it sends
/// to be sent or to be cancelled).
pub proof fn lemma_unanswered_action(pre: BackTestRun, post: BackTestRun, o: Order)
    requires
        route_post(pre, post, o, Err(EngineError::Unanswered)),
    ensures
        o.action != Some(Action::ToBeSent),
        o.action != Some(Action::Modify),
        o.action != Some(Action::Cancel),
{
    let r = Err::<(), EngineError>(EngineError::Unanswered);
    let (now, sim, answer) = choose|now: Option<i64>, sim: BybitMarketSimulator, answer: Result<Option<Order>, EngineError>|
        #[trigger] sim_request_post(pre.simulator, sim, stamped(o, now), answer) && report_post(
            with_simulator(pre, sim),
            post,
            answer,
            Some(EngineError::Unanswered),
            Some(EngineError::Unacknowledged),
            r,
        );
    if let Ok(Some(exec)) = answer {
        let s1 = with_simulator(pre, sim);
        let (om, ack) = choose|om: OrderManager, ack: Result<Option<Order>, EngineError>|
            #[trigger] om_report_post(s1.order_manager, om, exec, ack) && pass_on_post(
                with_manager(s1, om),
                post,
                ack,
                Some(EngineError::Unacknowledged),
                r,
            );
        if let Ok(Some(x)) = ack {
            let s2 = with_manager(s1, om);
            assert(ts_response_post(s2.trading_strategy, post.trading_strategy, x, r));
            let st = choose|st: Result<(), EngineError>| sync_post(s2.trading_strategy, post.trading_strategy, x, st)
                && r == (match st {
                    Ok(()) => if post.trading_strategy.cash@ < 0 {
                        Err(EngineError::NegativeCash)
                    } else {
                        Ok(())
                    },
                    Err(e) => Err(e),
                });
            assert(false);
        }
    }
}

/// The orders that the manager `om` keeps on `side`.
pub open spec fn kept_orders(om: OrderManager, side: Side) -> Map<int, Order> {
    if side == Side::Ask {
        om.ask_orders@
    } else {
        om.bid_orders@
    }
}

/// The order manager leaves the simulator's answer to an order of the
/// strategy unpassed only where it keeps no order of the order's side at the
/// order's price (it keeps each order that it sends on).
pub proof fn lemma_unacknowledged_record(pre: BackTestRun, post: BackTestRun, o: Order)
    requires
        route_post(pre, post, o, Err(EngineError::Unacknowledged)),
    ensures
        !(kept_orders(pre.order_manager, o.side).contains_key(o.price@) && kept_orders(
            pre.order_manager,
            o.side,
        )[o.price@].side == o.side),
{
    let r = Err::<(), EngineError>(EngineError::Unacknowledged);
    let (now, sim, answer) = choose|now: Option<i64>, sim: BybitMarketSimulator, answer: Result<Option<Order>, EngineError>|
        #[trigger] sim_request_post(pre.simulator, sim, stamped(o, now), answer) && report_post(
            with_simulator(pre, sim),
            post,
            answer,
            Some(EngineError::Unanswered),
            Some(EngineError::Unacknowledged),
            r,
        );
    if let Ok(Some(exec)) = answer {
        let s1 = with_simulator(pre, sim);
        let (om, ack) = choose|om: OrderManager, ack: Result<Option<Order>, EngineError>|
            #[trigger] om_report_post(s1.order_manager, om, exec, ack) && pass_on_post(
                with_manager(s1, om),
                post,
                ack,
                Some(EngineError::Unacknowledged),
                r,
            );
        if let Ok(Some(x)) = ack {
            let s2 = with_manager(s1, om);
            assert(ts_response_post(s2.trading_strategy, post.trading_strategy, x, r));
            let st = choose|st: Result<(), EngineError>| sync_post(s2.trading_strategy, post.trading_strategy, x, st)
                && r == (match st {
                    Ok(()) => if post.trading_strategy.cash@ < 0 {
                        Err(EngineError::NegativeCash)
                    } else {
                        Ok(())
                    },
                    Err(e) => Err(e),
                });
            assert(false);
        }
    }
}

/// The strategy never answers an execution report with a complaint about
/// the simulator or the order manager.
proof fn lemma_response_errors(pre: TradingStrategy, post: TradingStrategy, x: Order, r: Result<(), EngineError>)
    requires
        ts_response_post(pre, post, x, r),
    ensures
        r != Err::<(), EngineError>(EngineError::Unanswered),
        r != Err::<(), EngineError>(EngineError::Unacknowledged),
{
    let st = choose|st: Result<(), EngineError>| sync_post(pre, post, x, st)
        && r == (match st {
            Ok(()) => if post.cash@ < 0 {
                Err(EngineError::NegativeCash)
            } else {
                Ok(())
            },
            Err(e) => Err(e),
        });
}

/// A message of the book channel fails in the simulator only as malformed
/// or on a level that stands, or does not stand, where it should not, or should.
pub proof fn lemma_sim_depth_errors(pre: BybitMarketSimulator, post: BybitMarketSimulator, m: JsonValue, e: EngineError)
    requires
        sim_depth_post(pre, post, m, Err(e)),
    ensures
        e == EngineError::Malformed || e == EngineError::LevelExists || e == EngineError::LevelMissing,
{
    match bybit_message(m) {
        Some(BybitAction::Snapshot(items)) => {
            if let Some(levels) = bybit_levels(items) {
                lemma_book_change_errors((Map::empty(), Map::empty()), Seq::empty(), Seq::empty(), levels, true);
            }
        },
        Some(BybitAction::Delta(d)) => {
            if let Some((deletes, updates, inserts)) = bybit_delta(d) {
                lemma_book_change_errors((pre.asks_map@, pre.bids_map@), deletes, updates, inserts, true);
            }
        },
        _ => {},
    }
}

/// A message of the book channel fails in the order book only as malformed
/// or on a level that stands, or does not stand, where it should not, or should.
pub proof fn lemma_ob_depth_errors(pre: BybitOrderBook, post: BybitOrderBook, m: JsonValue, e: EngineError)
    requires
        ob_depth_post(pre, post, m, Err(e)),
    ensures
        e == EngineError::Malformed || e == EngineError::LevelExists || e == EngineError::LevelMissing,
{
    match bybit_message(m) {
        Some(BybitAction::Snapshot(items)) => {
            if let Some(levels) = bybit_levels(items) {
                lemma_book_change_errors((Map::empty(), Map::empty()), Seq::empty(), Seq::empty(), levels, false);
            }
        },
        Some(BybitAction::Delta(d)) => {
            if let Some((deletes, updates, inserts)) = bybit_delta(d) {
                lemma_book_change_errors((pre.map_asks@, pre.map_bids@), deletes, updates, inserts, false);
            }
        },
        _ => {},
    }
}

/// The strategy's taking a top of the book never ends with an order that the
/// simulator leaves unanswered.
proof fn lemma_event_answered(pre: BackTestRun, post: BackTestRun, be: BookEvent)
    ensures
        !event_post(pre, post, be, Err(EngineError::Unanswered)),
{
    let r = Err::<(), EngineError>(EngineError::Unanswered);
    if event_post(pre, post, be, r) {
        let (ts, planned) = choose|ts: TradingStrategy, planned: Result<Option<Vec<Order>>, EngineError>|
            #[trigger] ts_event_post(pre.trading_strategy, ts, be, planned) && match planned {
                Err(e) => post == with_strategy(pre, ts) && r == Err::<(), EngineError>(e),
                Ok(None) => check_post(with_strategy(pre, ts), post, r),
                Ok(Some(orders)) => orders_post(with_strategy(pre, ts), post, orders@, r),
            };
        if let Err(e) = planned {
            let (bid_oid, ask_oid) = choose|bid_oid: String, ask_oid: String|
                (exists|n: i64| bid_oid@ == "okex"@ + decimal_text(n as int))
                && (exists|n: i64| ask_oid@ == "okex"@ + decimal_text(n as int))
                && book_event_post(pre.trading_strategy, ts, be, bid_oid, ask_oid, planned);
            assert(false);
        }
        if let Ok(Some(orders)) = planned {
            lemma_sent_orders_marked(pre.trading_strategy, ts, be, planned, orders);
            lemma_valid_orders_of(orders@);
            let s1 = with_strategy(pre, ts);
            let (om, split) = choose|om: OrderManager, split: (Vec<Order>, Vec<Order>)|
                #[trigger] om_split_post(s1.order_manager, om, orders@, split) && dispatch_post(
                    with_manager(s1, om),
                    post,
                    split.0@,
                    split.1@,
                    r,
                );
            let s2 = with_manager(s1, om);
            let (mid, r1) = choose|mid: BackTestRun, r1: Result<(), EngineError>|
                #[trigger] run_each(s2, mid, split.1@, r1, step_of(StepKind::Refuse)) && match r1 {
                    Err(e) => post == mid && r == Err::<(), EngineError>(e),
                    Ok(()) => exists|last: BackTestRun, r2: Result<(), EngineError>|
                        #[trigger] run_each(mid, last, split.0@, r2, step_of(StepKind::Route)) && match r2 {
                            Err(e) => post == last && r == Err::<(), EngineError>(e),
                            Ok(()) => check_post(last, post, r),
                        },
                };
            if r1 is Err {
                let (states, k) = choose|states: Seq<BackTestRun>, k: int|
                    #[trigger] steps_ok(states, split.1@, k, step_of(StepKind::Refuse)) && states[0] == s2
                        && k < split.1@.len() && (step_of(StepKind::Refuse))(states[k], mid, split.1@[k], r1);
                lemma_response_errors(states[k].trading_strategy, mid.trading_strategy, split.1@[k], r1);
            } else {
                let (last, r2) = choose|last: BackTestRun, r2: Result<(), EngineError>|
                    #[trigger] run_each(mid, last, split.0@, r2, step_of(StepKind::Route)) && match r2 {
                        Err(e) => post == last && r == Err::<(), EngineError>(e),
                        Ok(()) => check_post(last, post, r),
                    };
                if r2 is Err {
                    let (states, k) = choose|states: Seq<BackTestRun>, k: int|
                        #[trigger] steps_ok(states, split.0@, k, step_of(StepKind::Route)) && states[0] == mid
                            && k < split.0@.len() && (step_of(StepKind::Route))(states[k], last, split.0@[k], r2);
                    lemma_unanswered_action(states[k], last, split.0@[k]);
                    assert(orders@.contains(valid_orders(orders@)[k]));
                    let j = choose|j: int| 0 <= j < orders@.len() && orders@[j] == valid_orders(orders@)[k];
                    assert(orders@[j].action == Some(Action::ToBeSent) || orders@[j].action == Some(Action::Cancel));
                }
            }
        }
    }
}

/// A trade of the market never ends with an order left unanswered.
proof fn lemma_trade_answered(pre: BackTestRun, post: BackTestRun, t: Order)
    ensures
        !trade_post(pre, post, t, Err(EngineError::Unanswered)),
{
    let r = Err::<(), EngineError>(EngineError::Unanswered);
    if trade_post(pre, post, t, r) {
        let (sim, fill) = choose|sim: BybitMarketSimulator, fill: Result<Option<Order>, EngineError>|
            #[trigger] sim_trade_post(pre.simulator, sim, t, fill) && report_post(
                with_simulator(pre, sim),
                post,
                fill,
                None,
                None,
                r,
            );
        if let Ok(Some(exec)) = fill {
            let s1 = with_simulator(pre, sim);
            let (om, ack) = choose|om: OrderManager, ack: Result<Option<Order>, EngineError>|
                #[trigger] om_report_post(s1.order_manager, om, exec, ack) && pass_on_post(
                    with_manager(s1, om),
                    post,
                    ack,
                    None,
                    r,
                );
            if let Ok(Some(x)) = ack {
                lemma_response_errors(with_manager(s1, om).trading_strategy, post.trading_strategy, x, r);
            }
        }
    }
}

/// No line of the feed ends with an order that the simulator leaves
/// unanswered: every order that the strategy sends is answered.
pub proof fn lemma_every_order_answered(pre: BackTestRun, post: BackTestRun, message: JsonValue)
    ensures
        !message_post(pre, post, message, Err(EngineError::Unanswered)),
{
    let r = Err::<(), EngineError>(EngineError::Unanswered);
    if message_post(pre, post, message, r) {
        if member_is_str(message, "topic"@, "orderBook_200.100ms.BTCUSDT"@) {
            let (sim, r1) = choose|sim: BybitMarketSimulator, r1: Result<(), EngineError>|
                #[trigger] sim_depth_post(pre.simulator, sim, message, r1) && match r1 {
                    Err(e) => post == with_simulator(pre, sim) && r == Err::<(), EngineError>(e),
                    Ok(()) => exists|ob: BybitOrderBook, ev: Result<Option<BookEvent>, EngineError>|
                        #[trigger] ob_depth_post(pre.order_book, ob, message, ev) && match ev {
                            Err(e) => post == with_book(with_simulator(pre, sim), ob) && r == Err::<(), EngineError>(e),
                            Ok(None) => check_post(with_book(with_simulator(pre, sim), ob), post, r),
                            Ok(Some(be)) => event_post(with_book(with_simulator(pre, sim), ob), post, be, r),
                        },
                };
            if let Err(e) = r1 {
                lemma_sim_depth_errors(pre.simulator, sim, message, e);
            } else {
                let (ob, ev) = choose|ob: BybitOrderBook, ev: Result<Option<BookEvent>, EngineError>|
                    #[trigger] ob_depth_post(pre.order_book, ob, message, ev) && match ev {
                        Err(e) => post == with_book(with_simulator(pre, sim), ob) && r == Err::<(), EngineError>(e),
                        Ok(None) => check_post(with_book(with_simulator(pre, sim), ob), post, r),
                        Ok(Some(be)) => event_post(with_book(with_simulator(pre, sim), ob), post, be, r),
                    };
                match ev {
                    Err(e) => lemma_ob_depth_errors(pre.order_book, ob, message, e),
                    Ok(Some(be)) => lemma_event_answered(with_book(with_simulator(pre, sim), ob), post, be),
                    Ok(None) => {},
                }
            }
        } else if member_is_str(message, "topic"@, "trade.BTCUSDT"@) {
            let items = message.spec_get("data"@).unwrap().spec_as_array().unwrap();
            let trades = bybit_trades(items).unwrap();
            let (states, k) = choose|states: Seq<BackTestRun>, k: int|
                #[trigger] steps_ok(states, trades, k, step_of(StepKind::Trade)) && states[0] == pre
                    && k < trades.len() && (step_of(StepKind::Trade))(states[k], post, trades[k], r);
            lemma_trade_answered(states[k], post, trades[k]);
        }
    }
}

/// The manager keeps, for each of the orders `s` from index `from` on, an
/// order of its side at its price.
pub open spec fn keeps_from(om: OrderManager, s: Seq<Order>, from: int) -> bool {
    forall|j: int|
        from <= j < s.len() ==> kept_orders(om, (#[trigger] s[j]).side).contains_key(s[j].price@) && kept_orders(
            om,
            s[j].side,
        )[s[j].price@].side == s[j].side
}

/// A routing step that succeeds changes the manager's orders only at the
/// order's price on its side, where it may end the record.
proof fn lemma_route_touches_own_place(pre: BackTestRun, post: BackTestRun, o: Order)
    requires
        route_post(pre, post, o, Ok(())),
    ensures
        kept_orders(post.order_manager, o.side) == kept_orders(pre.order_manager, o.side) || kept_orders(
            post.order_manager,
            o.side,
        ) == kept_orders(pre.order_manager, o.side).remove(o.price@),
        o.side == Side::Ask ==> post.order_manager.bid_orders@ == pre.order_manager.bid_orders@,
        o.side == Side::Bid ==> post.order_manager.ask_orders@ == pre.order_manager.ask_orders@,
{
    let r = Ok::<(), EngineError>(());
    let (now, sim, answer) = choose|now: Option<i64>, sim: BybitMarketSimulator, answer: Result<Option<Order>, EngineError>|
        #[trigger] sim_request_post(pre.simulator, sim, stamped(o, now), answer) && report_post(
            with_simulator(pre, sim),
            post,
            answer,
            Some(EngineError::Unanswered),
            Some(EngineError::Unacknowledged),
            r,
        );
    let exec = answer->Ok_0->Some_0;
    let s1 = with_simulator(pre, sim);
    let (om, ack) = choose|om: OrderManager, ack: Result<Option<Order>, EngineError>|
        #[trigger] om_report_post(s1.order_manager, om, exec, ack) && pass_on_post(
            with_manager(s1, om),
            post,
            ack,
            Some(EngineError::Unacknowledged),
            r,
        );
}

/// Handing refused orders back to the strategy leaves the manager as it was.
proof fn lemma_refusals_keep_manager(states: Seq<BackTestRun>, s: Seq<Order>, k: int)
    requires
        steps_ok(states, s, k, step_of(StepKind::Refuse)),
    ensures
        states[k].order_manager == states[0].order_manager,
    decreases k,
{
    if k > 0 {
        let t = states.take(k);
        assert forall|i: int| 0 <= i < k - 1 implies (step_of(StepKind::Refuse))(
            t[i],
            #[trigger] t.drop_first()[i],
            s[i],
            Ok(()),
        ) by {
            assert(t[i] == states[i]);
            assert(t.drop_first()[i] == states.drop_first()[i]);
        }
        lemma_refusals_keep_manager(t, s, k - 1);
        assert(t[k - 1] == states[k - 1]);
        assert((step_of(StepKind::Refuse))(states[k - 1], states.drop_first()[k - 1], s[k - 1], Ok(())));
        assert(states.drop_first()[k - 1] == states[k]);
    }
}

/// Sending orders at distinct places to the simulator in turn leaves the
/// manager keeping a record of each order not yet sent.
proof fn lemma_routes_keep_records(states: Seq<BackTestRun>, sent: Seq<Order>, k: int)
    requires
        steps_ok(states, sent, k, step_of(StepKind::Route)),
        distinct_places(sent),
        keeps_from(states[0].order_manager, sent, 0),
    ensures
        keeps_from(states[k].order_manager, sent, k),
    decreases k,
{
    if k > 0 {
        let t = states.take(k);
        assert forall|i: int| 0 <= i < k - 1 implies (step_of(StepKind::Route))(
            t[i],
            #[trigger] t.drop_first()[i],
            sent[i],
            Ok(()),
        ) by {
            assert(t[i] == states[i]);
            assert(t.drop_first()[i] == states.drop_first()[i]);
        }
        lemma_routes_keep_records(t, sent, k - 1);
        assert(t[k - 1] == states[k - 1]);
        assert((step_of(StepKind::Route))(states[k - 1], states.drop_first()[k - 1], sent[k - 1], Ok(())));
        assert(states.drop_first()[k - 1] == states[k]);
        lemma_route_touches_own_place(states[k - 1], states[k], sent[k - 1]);
        let pre_om = states[k - 1].order_manager;
        let post_om = states[k].order_manager;
        assert forall|j: int| k <= j < sent.len() implies kept_orders(post_om, (#[trigger] sent[j]).side).contains_key(
            sent[j].price@,
        ) && kept_orders(post_om, sent[j].side)[sent[j].price@].side == sent[j].side by {
            assert(kept_orders(pre_om, sent[j].side).contains_key(sent[j].price@));
            if sent[j].side == sent[k - 1].side {
                assert(sent[j].price@ != sent[k - 1].price@);
            }
        }
    }
}

/// The strategy's taking a top of the book never ends with an answer of the
/// simulator that the manager does not pass on, for a strategy that keeps
/// its asks among its asks and its bids among its bids.
proof fn lemma_event_passed_on(pre: BackTestRun, post: BackTestRun, be: BookEvent)
    requires
        unique_prices(pre.trading_strategy.ask_orders.seq()),
        unique_prices(pre.trading_strategy.bid_orders.seq()),
        all_on_side(pre.trading_strategy.ask_orders@, Side::Ask),
        all_on_side(pre.trading_strategy.bid_orders@, Side::Bid),
    ensures
        !event_post(pre, post, be, Err(EngineError::Unacknowledged)),
{
    let r = Err::<(), EngineError>(EngineError::Unacknowledged);
    if event_post(pre, post, be, r) {
        let (ts, planned) = choose|ts: TradingStrategy, planned: Result<Option<Vec<Order>>, EngineError>|
            #[trigger] ts_event_post(pre.trading_strategy, ts, be, planned) && match planned {
                Err(e) => post == with_strategy(pre, ts) && r == Err::<(), EngineError>(e),
                Ok(None) => check_post(with_strategy(pre, ts), post, r),
                Ok(Some(orders)) => orders_post(with_strategy(pre, ts), post, orders@, r),
            };
        if let Err(e) = planned {
            let (bid_oid, ask_oid) = choose|bid_oid: String, ask_oid: String|
                (exists|n: i64| bid_oid@ == "okex"@ + decimal_text(n as int))
                && (exists|n: i64| ask_oid@ == "okex"@ + decimal_text(n as int))
                && book_event_post(pre.trading_strategy, ts, be, bid_oid, ask_oid, planned);
            assert(false);
        }
        if let Ok(Some(orders)) = planned {
            lemma_sent_orders_places(pre.trading_strategy, ts, be, planned, orders);
            lemma_valid_orders_places(orders@);
            lemma_valid_orders_of(orders@);
            lemma_split_partitions(orders@);
            let s1 = with_strategy(pre, ts);
            let (om, split) = choose|om: OrderManager, split: (Vec<Order>, Vec<Order>)|
                #[trigger] om_split_post(s1.order_manager, om, orders@, split) && dispatch_post(
                    with_manager(s1, om),
                    post,
                    split.0@,
                    split.1@,
                    r,
                );
            let s2 = with_manager(s1, om);
            let sent = split.0@;
            lemma_record_orders_keeps(s1.order_manager.ask_orders@, orders@, Side::Ask);
            lemma_record_orders_keeps(s1.order_manager.bid_orders@, orders@, Side::Bid);
            assert(keeps_from(om, sent, 0)) by {
                assert forall|j: int| 0 <= j < sent.len() implies kept_orders(om, (#[trigger] sent[j]).side).contains_key(
                    sent[j].price@,
                ) && kept_orders(om, sent[j].side)[sent[j].price@].side == sent[j].side by {
                    assert(orders@.contains(valid_orders(orders@)[j]));
                    let i = choose|i: int| 0 <= i < orders@.len() && orders@[i] == valid_orders(orders@)[j];
                    assert(orders@[i] == sent[j]);
                }
            }
            let (mid, r1) = choose|mid: BackTestRun, r1: Result<(), EngineError>|
                #[trigger] run_each(s2, mid, split.1@, r1, step_of(StepKind::Refuse)) && match r1 {
                    Err(e) => post == mid && r == Err::<(), EngineError>(e),
                    Ok(()) => exists|last: BackTestRun, r2: Result<(), EngineError>|
                        #[trigger] run_each(mid, last, split.0@, r2, step_of(StepKind::Route)) && match r2 {
                            Err(e) => post == last && r == Err::<(), EngineError>(e),
                            Ok(()) => check_post(last, post, r),
                        },
                };
            let (rstates, rk) = choose|states: Seq<BackTestRun>, k: int|
                #[trigger] steps_ok(states, split.1@, k, step_of(StepKind::Refuse)) && states[0] == s2 && match r1 {
                    Ok(()) => k == split.1@.len() && mid == states[k],
                    Err(_) => k < split.1@.len() && (step_of(StepKind::Refuse))(states[k], mid, split.1@[k], r1),
                };
            if r1 is Err {
                lemma_response_errors(rstates[rk].trading_strategy, mid.trading_strategy, split.1@[rk], r1);
            } else {
                lemma_refusals_keep_manager(rstates, split.1@, rk);
                let (last, r2) = choose|last: BackTestRun, r2: Result<(), EngineError>|
                    #[trigger] run_each(mid, last, split.0@, r2, step_of(StepKind::Route)) && match r2 {
                        Err(e) => post == last && r == Err::<(), EngineError>(e),
                        Ok(()) => check_post(last, post, r),
                    };
                if r2 is Err {
                    let (states, k) = choose|states: Seq<BackTestRun>, k: int|
                        #[trigger] steps_ok(states, sent, k, step_of(StepKind::Route)) && states[0] == mid
                            && k < sent.len() && (step_of(StepKind::Route))(states[k], last, sent[k], r2);
                    lemma_routes_keep_records(states, sent, k);
                    lemma_unacknowledged_record(states[k], last, sent[k]);
                }
            }
        }
    }
}

/// A trade of the market never ends with an answer that the manager does not
/// pass on.
proof fn lemma_trade_passed_on(pre: BackTestRun, post: BackTestRun, t: Order)
    ensures
        !trade_post(pre, post, t, Err(EngineError::Unacknowledged)),
{
    let r = Err::<(), EngineError>(EngineError::Unacknowledged);
    if trade_post(pre, post, t, r) {
        let (sim, fill) = choose|sim: BybitMarketSimulator, fill: Result<Option<Order>, EngineError>|
            #[trigger] sim_trade_post(pre.simulator, sim, t, fill) && report_post(
                with_simulator(pre, sim),
                post,
                fill,
                None,
                None,
                r,
            );
        if let Ok(Some(exec)) = fill {
            let s1 = with_simulator(pre, sim);
            let (om, ack) = choose|om: OrderManager, ack: Result<Option<Order>, EngineError>|
                #[trigger] om_report_post(s1.order_manager, om, exec, ack) && pass_on_post(
                    with_manager(s1, om),
                    post,
                    ack,
                    None,
                    r,
                );
            if let Ok(Some(x)) = ack {
                lemma_response_errors(with_manager(s1, om).trading_strategy, post.trading_strategy, x, r);
            }
        }
    }
}

/// No line of the feed ends with an answer of the simulator that the order
/// manager does not pass on, for a strategy that keeps its asks among its
/// asks and its bids among its bids (as a back test does from its start:
/// see `lemma_line_keeps_strategy_sides`).
pub proof fn lemma_every_answer_passed_on(pre: BackTestRun, post: BackTestRun, message: JsonValue)
    requires
        unique_prices(pre.trading_strategy.ask_orders.seq()),
        unique_prices(pre.trading_strategy.bid_orders.seq()),
        strategy_sides_ok(pre),
    ensures
        !message_post(pre, post, message, Err(EngineError::Unacknowledged)),
{
    let r = Err::<(), EngineError>(EngineError::Unacknowledged);
    if message_post(pre, post, message, r) {
        if member_is_str(message, "topic"@, "orderBook_200.100ms.BTCUSDT"@) {
            let (sim, r1) = choose|sim: BybitMarketSimulator, r1: Result<(), EngineError>|
                #[trigger] sim_depth_post(pre.simulator, sim, message, r1) && match r1 {
                    Err(e) => post == with_simulator(pre, sim) && r == Err::<(), EngineError>(e),
                    Ok(()) => exists|ob: BybitOrderBook, ev: Result<Option<BookEvent>, EngineError>|
                        #[trigger] ob_depth_post(pre.order_book, ob, message, ev) && match ev {
                            Err(e) => post == with_book(with_simulator(pre, sim), ob) && r == Err::<(), EngineError>(e),
                            Ok(None) => check_post(with_book(with_simulator(pre, sim), ob), post, r),
                            Ok(Some(be)) => event_post(with_book(with_simulator(pre, sim), ob), post, be, r),
                        },
                };
            if let Err(e) = r1 {
                lemma_sim_depth_errors(pre.simulator, sim, message, e);
            } else {
                let (ob, ev) = choose|ob: BybitOrderBook, ev: Result<Option<BookEvent>, EngineError>|
                    #[trigger] ob_depth_post(pre.order_book, ob, message, ev) && match ev {
                        Err(e) => post == with_book(with_simulator(pre, sim), ob) && r == Err::<(), EngineError>(e),
                        Ok(None) => check_post(with_book(with_simulator(pre, sim), ob), post, r),
                        Ok(Some(be)) => event_post(with_book(with_simulator(pre, sim), ob), post, be, r),
                    };
                match ev {
                    Err(e) => lemma_ob_depth_errors(pre.order_book, ob, message, e),
                    Ok(Some(be)) => lemma_event_passed_on(with_book(with_simulator(pre, sim), ob), post, be),
                    Ok(None) => {},
                }
            }
        } else if member_is_str(message, "topic"@, "trade.BTCUSDT"@) {
            let items = message.spec_get("data"@).unwrap().spec_as_array().unwrap();
            let trades = bybit_trades(items).unwrap();
            let (states, k) = choose|states: Seq<BackTestRun>, k: int|
                #[trigger] steps_ok(states, trades, k, step_of(StepKind::Trade)) && states[0] == pre
                    && k < trades.len() && (step_of(StepKind::Trade))(states[k], post, trades[k], r);
            lemma_trade_passed_on(states[k], post, trades[k]);
        }
    }
}

/// What the manager passes on keeps the strategy's sides.
proof fn lemma_pass_on_keeps_sides(
    pre: BackTestRun,
    post: BackTestRun,
    ack: Result<Option<Order>, EngineError>,
    missing: Option<EngineError>,
    r: Result<(), EngineError>,
)
    requires
        strategy_sides_ok(pre),
        pass_on_post(pre, post, ack, missing, r),
    ensures
        strategy_sides_ok(post),
{
    if let Ok(Some(x)) = ack {
        lemma_response_keeps_sides(pre.trading_strategy, post.trading_strategy, x, r);
    }
}

/// What the manager and the strategy make of a report of the simulator
/// keeps the strategy's sides.
proof fn lemma_report_keeps_sides(
    pre: BackTestRun,
    post: BackTestRun,
    answer: Result<Option<Order>, EngineError>,
    missing: Option<EngineError>,
    unpassed: Option<EngineError>,
    r: Result<(), EngineError>,
)
    requires
        strategy_sides_ok(pre),
        report_post(pre, post, answer, missing, unpassed, r),
    ensures
        strategy_sides_ok(post),
{
    if let Ok(Some(exec)) = answer {
        let (om, ack) = choose|om: OrderManager, ack: Result<Option<Order>, EngineError>|
            #[trigger] om_report_post(pre.order_manager, om, exec, ack) && pass_on_post(
                with_manager(pre, om),
                post,
                ack,
                unpassed,
                r,
            );
        lemma_pass_on_keeps_sides(with_manager(pre, om), post, ack, unpassed, r);
    }
}

/// Each step of a run over orders keeps the strategy's sides.
proof fn lemma_step_keeps_sides(kind: StepKind, pre: BackTestRun, post: BackTestRun, o: Order, r: Result<(), EngineError>)
    requires
        strategy_sides_ok(pre),
        (step_of(kind))(pre, post, o, r),
    ensures
        strategy_sides_ok(post),
{
    match kind {
        StepKind::Route => {
            let (now, sim, answer) = choose|now: Option<i64>, sim: BybitMarketSimulator, answer: Result<Option<Order>, EngineError>|
                #[trigger] sim_request_post(pre.simulator, sim, stamped(o, now), answer) && report_post(
                    with_simulator(pre, sim),
                    post,
                    answer,
                    Some(EngineError::Unanswered),
                    Some(EngineError::Unacknowledged),
                    r,
                );
            lemma_report_keeps_sides(
                with_simulator(pre, sim),
                post,
                answer,
                Some(EngineError::Unanswered),
                Some(EngineError::Unacknowledged),
                r,
            );
        },
        StepKind::Refuse => {
            lemma_response_keeps_sides(pre.trading_strategy, post.trading_strategy, o, r);
        },
        StepKind::Trade => {
            let (sim, fill) = choose|sim: BybitMarketSimulator, fill: Result<Option<Order>, EngineError>|
                #[trigger] sim_trade_post(pre.simulator, sim, o, fill) && report_post(
                    with_simulator(pre, sim),
                    post,
                    fill,
                    None,
                    None,
                    r,
                );
            lemma_report_keeps_sides(with_simulator(pre, sim), post, fill, None, None, r);
        },
    }
}

/// The states of a run whose steps all succeeded keep the strategy's sides.
proof fn lemma_steps_keep_sides(kind: StepKind, states: Seq<BackTestRun>, s: Seq<Order>, k: int)
    requires
        steps_ok(states, s, k, step_of(kind)),
        strategy_sides_ok(states[0]),
    ensures
        strategy_sides_ok(states[k]),
    decreases k,
{
    if k > 0 {
        let t = states.take(k);
        assert forall|i: int| 0 <= i < k - 1 implies (step_of(kind))(t[i], #[trigger] t.drop_first()[i], s[i], Ok(())) by {
            assert(t[i] == states[i]);
            assert(t.drop_first()[i] == states.drop_first()[i]);
        }
        lemma_steps_keep_sides(kind, t, s, k - 1);
        assert(t[k - 1] == states[k - 1]);
        assert((step_of(kind))(states[k - 1], states.drop_first()[k - 1], s[k - 1], Ok(())));
        assert(states.drop_first()[k - 1] == states[k]);
        lemma_step_keeps_sides(kind, states[k - 1], states[k], s[k - 1], Ok(()));
    }
}

/// A run over orders keeps the strategy's sides, whatever its outcome.
proof fn lemma_run_keeps_sides(kind: StepKind, pre: BackTestRun, post: BackTestRun, s: Seq<Order>, r: Result<(), EngineError>)
    requires
        strategy_sides_ok(pre),
        run_each(pre, post, s, r, step_of(kind)),
    ensures
        strategy_sides_ok(post),
{
    let (states, k) = choose|states: Seq<BackTestRun>, k: int|
        #[trigger] steps_ok(states, s, k, step_of(kind)) && states[0] == pre && match r {
            Ok(()) => k == s.len() && post == states[k],
            Err(_) => k < s.len() && (step_of(kind))(states[k], post, s[k], r),
        };
    lemma_steps_keep_sides(kind, states, s, k);
    if r is Err {
        lemma_step_keeps_sides(kind, states[k], post, s[k], r);
    }
}

/// The strategy's taking a top of the book, and what follows in the back
/// test, keep the strategy's sides.
proof fn lemma_event_keeps_strategy_sides(pre: BackTestRun, post: BackTestRun, be: BookEvent, r: Result<(), EngineError>)
    requires
        unique_prices(pre.trading_strategy.ask_orders.seq()),
        unique_prices(pre.trading_strategy.bid_orders.seq()),
        strategy_sides_ok(pre),
        event_post(pre, post, be, r),
    ensures
        strategy_sides_ok(post),
{
    let (ts, planned) = choose|ts: TradingStrategy, planned: Result<Option<Vec<Order>>, EngineError>|
        #[trigger] ts_event_post(pre.trading_strategy, ts, be, planned) && match planned {
            Err(e) => post == with_strategy(pre, ts) && r == Err::<(), EngineError>(e),
            Ok(None) => check_post(with_strategy(pre, ts), post, r),
            Ok(Some(orders)) => orders_post(with_strategy(pre, ts), post, orders@, r),
        };
    lemma_event_keeps_sides(pre.trading_strategy, ts, be, planned);
    if let Ok(Some(orders)) = planned {
        let s1 = with_strategy(pre, ts);
        let (om, split) = choose|om: OrderManager, split: (Vec<Order>, Vec<Order>)|
            #[trigger] om_split_post(s1.order_manager, om, orders@, split) && dispatch_post(
                with_manager(s1, om),
                post,
                split.0@,
                split.1@,
                r,
            );
        let s2 = with_manager(s1, om);
        let (mid, r1) = choose|mid: BackTestRun, r1: Result<(), EngineError>|
            #[trigger] run_each(s2, mid, split.1@, r1, step_of(StepKind::Refuse)) && match r1 {
                Err(e) => post == mid && r == Err::<(), EngineError>(e),
                Ok(()) => exists|last: BackTestRun, r2: Result<(), EngineError>|
                    #[trigger] run_each(mid, last, split.0@, r2, step_of(StepKind::Route)) && match r2 {
                        Err(e) => post == last && r == Err::<(), EngineError>(e),
                        Ok(()) => check_post(last, post, r),
                    },
            };
        lemma_run_keeps_sides(StepKind::Refuse, s2, mid, split.1@, r1);
        if r1 is Ok {
            let (last, r2) = choose|last: BackTestRun, r2: Result<(), EngineError>|
                #[trigger] run_each(mid, last, split.0@, r2, step_of(StepKind::Route)) && match r2 {
                    Err(e) => post == last && r == Err::<(), EngineError>(e),
                    Ok(()) => check_post(last, post, r),
                };
            lemma_run_keeps_sides(StepKind::Route, mid, last, split.0@, r2);
        }
    }
}

/// Every line of the feed keeps the strategy's asks among its asks and its
/// bids among its bids, whatever its outcome.
pub proof fn lemma_line_keeps_strategy_sides(pre: BackTestRun, post: BackTestRun, message: JsonValue, r: Result<(), EngineError>)
    requires
        unique_prices(pre.trading_strategy.ask_orders.seq()),
        unique_prices(pre.trading_strategy.bid_orders.seq()),
        strategy_sides_ok(pre),
        message_post(pre, post, message, r),
    ensures
        strategy_sides_ok(post),
{
    if message is Object && member_is_str(message, "topic"@, "orderBook_200.100ms.BTCUSDT"@) && book_time(message) is Some {
        let (sim, r1) = choose|sim: BybitMarketSimulator, r1: Result<(), EngineError>|
            #[trigger] sim_depth_post(pre.simulator, sim, message, r1) && match r1 {
                Err(e) => post == with_simulator(pre, sim) && r == Err::<(), EngineError>(e),
                Ok(()) => exists|ob: BybitOrderBook, ev: Result<Option<BookEvent>, EngineError>|
                    #[trigger] ob_depth_post(pre.order_book, ob, message, ev) && match ev {
                        Err(e) => post == with_book(with_simulator(pre, sim), ob) && r == Err::<(), EngineError>(e),
                        Ok(None) => check_post(with_book(with_simulator(pre, sim), ob), post, r),
                        Ok(Some(be)) => event_post(with_book(with_simulator(pre, sim), ob), post, be, r),
                    },
            };
        if r1 is Ok {
            let (ob, ev) = choose|ob: BybitOrderBook, ev: Result<Option<BookEvent>, EngineError>|
                #[trigger] ob_depth_post(pre.order_book, ob, message, ev) && match ev {
                    Err(e) => post == with_book(with_simulator(pre, sim), ob) && r == Err::<(), EngineError>(e),
                    Ok(None) => check_post(with_book(with_simulator(pre, sim), ob), post, r),
                    Ok(Some(be)) => event_post(with_book(with_simulator(pre, sim), ob), post, be, r),
                };
            if let Ok(Some(be)) = ev {
                lemma_event_keeps_strategy_sides(with_book(with_simulator(pre, sim), ob), post, be, r);
            }
        }
    } else if message is Object && !member_is_str(message, "topic"@, "orderBook_200.100ms.BTCUSDT"@)
        && member_is_str(message, "topic"@, "trade.BTCUSDT"@) {
        if let Some(d) = message.spec_get("data"@) {
            if let Some(items) = d.spec_as_array() {
                if let Some(trades) = bybit_trades(items) {
                    lemma_run_keeps_sides(StepKind::Trade, pre, post, trades, r);
                }
            }
        }
    }
}

} // verus!
