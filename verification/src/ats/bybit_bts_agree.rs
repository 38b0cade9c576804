//! What the back test keeps from line to line of the feed: the strategy and
//! the simulator agree on the resting orders of each side, so that the
//! closing check of a line of the book topic passes.
use crate::ats::bybit_bts::{
    book_time,
    bybit_trades,
    check_post,
    message_post,
    with_book,
    counts_agree,
    dispatch_post,
    event_post,
    orders_post,
    pass_on_post,
    refuse_post,
    run_each,
    step_of,
    steps_ok,
    StepKind,
    report_post,
    route_post,
    stamped,
    strategy_sides_ok,
    trade_post,
    with_manager,
    with_simulator,
    with_strategy,
    BackTestRun,
};
use crate::ats::bybit_bts_laws::{
    lemma_line_keeps_strategy_sides,
    lemma_ob_depth_errors,
    lemma_sim_depth_errors,
};
use crate::engine::bybit_order_book::{ob_depth_post, BybitOrderBook};
use crate::utils::json::{member_is_str, JsonValue};
use crate::engine::bybit_market_simulator::{
    lemma_trade_keeps_sides,
    sim_depth_post,
    sim_request_post,
    sim_trade_post,
    BybitMarketSimulator,
};
use crate::engine::market_simulator::{order_match, trade_effect};
use crate::utils::decimal::Dec;
use crate::engine::common::{Action, BookEvent, Order, Side, Status};
use crate::engine::error::EngineError;
use crate::engine::order_manager::{
    invalid_orders,
    lemma_valid_orders_of,
    lemma_valid_orders_places,
    om_report_post,
    om_split_post,
    order_valid,
    valid_orders,
    OrderManager,
};
use crate::engine::orders::{
    all_on_side,
    distinct_places,
    has_order_at,
    lemma_orders_map_at,
    orders_map,
    unique_prices,
};
use crate::engine::trading_strategy::{
    book_event_post,
    cancel_actions,
    cancel_marked,
    lemma_event_keeps_sides,
    lemma_sent_orders_places,
    planned_orders,
    signal_spec,
    ts_event_post,
    mark_cancel,
    mark_new,
    new_actions,
    planned_at,
    sync_post,
    ts_response_post,
    TradingStrategy,
};
use crate::utils::time::decimal_text;
use vstd::prelude::*;

verus! {

/// The strategy's orders `t` of a side and the simulator's resting orders
/// `s` of that side agree: they stand at the same prices with the same
/// sizes, and none of the strategy's is still waiting to be sent.
pub open spec fn side_agrees(t: Map<int, Order>, s: Map<int, Order>) -> bool {
    &&& t.dom() == s.dom()
    &&& forall|k: int| #[trigger] s.contains_key(k) ==> t[k].size == s[k].size
    &&& forall|k: int| #[trigger] t.contains_key(k) ==> t[k].action != Some(Action::ToBeSent)
}

/// The strategy and the simulator of `s` agree on the resting orders of each
/// side (see `side_agrees`), and each keeps its asks among its asks and its
/// bids among its bids.
pub open spec fn orders_agree(s: BackTestRun) -> bool {
    &&& sim_agrees(s)
    &&& strategy_sides_ok(s)
}

/// The strategy and the simulator of `s` agree on the resting orders of each
/// side (see `side_agrees`), and the simulator keeps its asks among its asks
/// and its bids among its bids.
pub open spec fn sim_agrees(s: BackTestRun) -> bool {
    &&& side_agrees(s.trading_strategy.ask_orders@, s.simulator.ask_orders@)
    &&& side_agrees(s.trading_strategy.bid_orders@, s.simulator.bid_orders@)
    &&& all_on_side(s.simulator.ask_orders@, Side::Ask)
    &&& all_on_side(s.simulator.bid_orders@, Side::Bid)
}

/// While the orders `rem` of `side` are still to go to the simulator: every
/// order resting in the simulator is the strategy's too, with the same size;
/// the strategy's orders missing from the simulator are exactly those to be
/// sent, and each is among `rem`; each order of `rem` on `side` is the
/// strategy's order to be sent at its price, or a cancel of an order the
/// strategy marked to be cancelled.
pub open spec fn side_pending(t: Map<int, Order>, s: Map<int, Order>, rem: Seq<Order>, side: Side) -> bool {
    &&& forall|k: int| #[trigger] s.contains_key(k) ==> t.contains_key(k) && t[k].size == s[k].size
    &&& forall|k: int| #[trigger] t.contains_key(k) ==> (t[k].action == Some(Action::ToBeSent) <==> !s.contains_key(k))
    &&& forall|k: int|
        #[trigger] t.contains_key(k) && t[k].action == Some(Action::ToBeSent) ==> exists|j: int|
            0 <= j < rem.len() && (#[trigger] rem[j]).side == side && rem[j].price@ == k
    &&& forall|j: int|
        0 <= j < rem.len() && (#[trigger] rem[j]).side == side ==> t.contains_key(rem[j].price@) && (
        rem[j].action == Some(Action::ToBeSent) ==> t[rem[j].price@] == rem[j]) && (rem[j].action != Some(
            Action::ToBeSent,
        ) ==> rem[j].action == Some(Action::Cancel) && t[rem[j].price@].action == Some(Action::Cancel))
}

/// `side_pending` on both sides of `s`, for orders `rem` at distinct places,
/// with the simulator keeping its asks among its asks and its bids among its bids.
pub open spec fn run_pending(s: BackTestRun, rem: Seq<Order>) -> bool {
    &&& side_pending(s.trading_strategy.ask_orders@, s.simulator.ask_orders@, rem, Side::Ask)
    &&& side_pending(s.trading_strategy.bid_orders@, s.simulator.bid_orders@, rem, Side::Bid)
    &&& distinct_places(rem)
    &&& all_on_side(s.simulator.ask_orders@, Side::Ask)
    &&& all_on_side(s.simulator.bid_orders@, Side::Bid)
}

/// One side after a routed order of that side: the new order rests in the
/// simulator and is acked in the strategy, or the cancelled order is gone
/// from both.
proof fn lemma_side_after_route(
    t: Map<int, Order>,
    s: Map<int, Order>,
    t2: Map<int, Order>,
    s2: Map<int, Order>,
    rem: Seq<Order>,
    side: Side,
)
    requires
        rem.len() > 0,
        rem[0].side == side,
        distinct_places(rem),
        side_pending(t, s, rem, side),
        rem[0].action == Some(Action::ToBeSent) ==> s2 == s.insert(rem[0].price@, s2[rem[0].price@])
            && s2[rem[0].price@].size == rem[0].size && t2 == t.insert(
            rem[0].price@,
            t2[rem[0].price@],
        ) && t2[rem[0].price@].size == t[rem[0].price@].size && t2[rem[0].price@].action != Some(
            Action::ToBeSent,
        ),
        rem[0].action != Some(Action::ToBeSent) ==> s2 == s.remove(rem[0].price@) && t2 == t.remove(
            rem[0].price@,
        ),
    ensures
        side_pending(t2, s2, rem.drop_first(), side),
{
    let k0 = rem[0].price@;
    let r2 = rem.drop_first();
    assert forall|k: int| #[trigger] t2.contains_key(k) && t2[k].action == Some(Action::ToBeSent) implies exists|j: int|
        0 <= j < r2.len() && (#[trigger] r2[j]).side == side && r2[j].price@ == k by {
        assert(k != k0);
        assert(t.contains_key(k) && t[k] == t2[k]);
        let j = choose|j: int| 0 <= j < rem.len() && (#[trigger] rem[j]).side == side && rem[j].price@ == k;
        assert(j != 0);
        assert(r2[j - 1] == rem[j]);
    }
    assert forall|j: int| 0 <= j < r2.len() && (#[trigger] r2[j]).side == side implies t2.contains_key(r2[j].price@) && (
    r2[j].action == Some(Action::ToBeSent) ==> t2[r2[j].price@] == r2[j]) && (r2[j].action != Some(
        Action::ToBeSent,
    ) ==> r2[j].action == Some(Action::Cancel) && t2[r2[j].price@].action == Some(Action::Cancel)) by {
        assert(r2[j] == rem[j + 1]);
        assert(rem[j + 1].price@ != rem[0].price@);
    }
}

/// One side that a routed order of the other side does not touch.
proof fn lemma_side_untouched(t: Map<int, Order>, s: Map<int, Order>, rem: Seq<Order>, side: Side)
    requires
        rem.len() > 0,
        rem[0].side != side,
        side_pending(t, s, rem, side),
    ensures
        side_pending(t, s, rem.drop_first(), side),
{
    let r2 = rem.drop_first();
    assert forall|k: int| #[trigger] t.contains_key(k) && t[k].action == Some(Action::ToBeSent) implies exists|j: int|
        0 <= j < r2.len() && (#[trigger] r2[j]).side == side && r2[j].price@ == k by {
        let j = choose|j: int| 0 <= j < rem.len() && (#[trigger] rem[j]).side == side && rem[j].price@ == k;
        assert(r2[j - 1] == rem[j]);
    }
    assert forall|j: int| 0 <= j < r2.len() && (#[trigger] r2[j]).side == side implies t.contains_key(r2[j].price@) && (
    r2[j].action == Some(Action::ToBeSent) ==> t[r2[j].price@] == r2[j]) && (r2[j].action != Some(
        Action::ToBeSent,
    ) ==> r2[j].action == Some(Action::Cancel) && t[r2[j].price@].action == Some(Action::Cancel)) by {
        assert(r2[j] == rem[j + 1]);
    }
}


/// Routing the first of the orders `rem`, when it succeeds, keeps the rest pending.
proof fn lemma_route_keeps_pending(pre: BackTestRun, post: BackTestRun, rem: Seq<Order>)
    requires
        rem.len() > 0,
        run_pending(pre, rem),
        route_post(pre, post, rem[0], Ok(())),
    ensures
        run_pending(post, rem.drop_first()),
{
    let ok = Ok::<(), EngineError>(());
    let o = rem[0];
    let (now, sim, answer) = choose|now: Option<i64>, sim: BybitMarketSimulator, answer: Result<Option<Order>, EngineError>|
        #[trigger] sim_request_post(pre.simulator, sim, stamped(o, now), answer) && report_post(
            with_simulator(pre, sim),
            post,
            answer,
            Some(EngineError::Unanswered),
            Some(EngineError::Unacknowledged),
            ok,
        );
    let exec = answer->Ok_0->Some_0;
    let s1 = with_simulator(pre, sim);
    let (om, ack) = choose|om: OrderManager, ack: Result<Option<Order>, EngineError>|
        #[trigger] om_report_post(s1.order_manager, om, exec, ack) && pass_on_post(
            with_manager(s1, om),
            post,
            ack,
            Some(EngineError::Unacknowledged),
            ok,
        );
    let x = ack->Ok_0->Some_0;
    assert(x == exec);
    let ts = pre.trading_strategy;
    let ts2 = post.trading_strategy;
    let ss = choose|ss: Result<(), EngineError>| sync_post(ts, ts2, x, ss) && ok == (match ss {
        Ok(()) => if ts2.cash@ < 0 {
            Err(EngineError::NegativeCash)
        } else {
            Ok(())
        },
        Err(e) => Err(e),
    });
    let k = o.price@;
    if o.side == Side::Ask {
        assert(o.action == Some(Action::ToBeSent) || o.action == Some(Action::Cancel));
        lemma_side_after_route(
            ts.ask_orders@,
            pre.simulator.ask_orders@,
            ts2.ask_orders@,
            post.simulator.ask_orders@,
            rem,
            Side::Ask,
        );
        lemma_side_untouched(ts.bid_orders@, pre.simulator.bid_orders@, rem, Side::Bid);
    } else {
        assert(o.action == Some(Action::ToBeSent) || o.action == Some(Action::Cancel));
        lemma_side_after_route(
            ts.bid_orders@,
            pre.simulator.bid_orders@,
            ts2.bid_orders@,
            post.simulator.bid_orders@,
            rem,
            Side::Bid,
        );
        lemma_side_untouched(ts.ask_orders@, pre.simulator.ask_orders@, rem, Side::Ask);
    }
    let r2 = rem.drop_first();
    assert(distinct_places(r2)) by {
        assert forall|i: int, j: int|
            0 <= i < r2.len() && 0 <= j < r2.len() && i != j && r2[i].side == r2[j].side implies (#[trigger] r2[i]).price@
                != (#[trigger] r2[j]).price@ by {
            assert(r2[i] == rem[i + 1] && r2[j] == rem[j + 1]);
        }
    }
}


/// Each cancel that goes out is a kept order that the plan does not hold,
/// marked to be cancelled.
proof fn lemma_cancel_actions_from(s: Seq<Order>, n: Option<Order>)
    ensures
        forall|j: int|
            0 <= j < cancel_actions(s, n).len() ==> exists|i: int|
                0 <= i < s.len() && !planned_at(n, s[i]) && #[trigger] cancel_actions(s, n)[j] == mark_cancel(
                    #[trigger] s[i],
                ),
    decreases s.len(),
{
    if s.len() > 0 {
        let p = s.drop_last();
        lemma_cancel_actions_from(p, n);
        let c = cancel_actions(s, n);
        let cp = cancel_actions(p, n);
        assert forall|j: int| 0 <= j < c.len() implies exists|i: int|
            0 <= i < s.len() && !planned_at(n, s[i]) && #[trigger] c[j] == mark_cancel(#[trigger] s[i]) by {
            if j < cp.len() {
                assert(c[j] == cp[j]);
                let i = choose|i: int| 0 <= i < p.len() && !planned_at(n, p[i]) && #[trigger] cp[j] == mark_cancel(
                    #[trigger] p[i],
                );
                assert(s[i] == p[i]);
            } else {
                assert(c[j] == mark_cancel(s[s.len() - 1]));
            }
        }
    }
}

/// The strategy's orders of a side after a top of the book: each kept order
/// stays at its price (marked to be cancelled or not), and the new order, if
/// any, stands at a price where none was kept.
proof fn lemma_event_table(s: Seq<Order>, n: Option<Order>)
    requires
        unique_prices(s),
    ensures
        unique_prices(cancel_marked(s, n) + new_actions(s, n)),
        new_actions(s, n).len() <= 1,
        forall|i: int|
            0 <= i < s.len() ==> orders_map(cancel_marked(s, n) + new_actions(s, n)).contains_key(
                (#[trigger] s[i]).price@,
            ) && orders_map(cancel_marked(s, n) + new_actions(s, n))[s[i].price@] == cancel_marked(s, n)[i]
                && orders_map(s).contains_key(s[i].price@) && orders_map(s)[s[i].price@] == s[i],
        forall|k: int|
            #[trigger] orders_map(cancel_marked(s, n) + new_actions(s, n)).contains_key(k) ==> has_order_at(s, k) || (
            new_actions(s, n).len() == 1 && k == new_actions(s, n)[0].price@),
        new_actions(s, n).len() == 1 ==> orders_map(cancel_marked(s, n) + new_actions(s, n)).contains_key(
            new_actions(s, n)[0].price@,
        ) && orders_map(cancel_marked(s, n) + new_actions(s, n))[new_actions(s, n)[0].price@] == new_actions(
            s,
            n,
        )[0] && !has_order_at(s, new_actions(s, n)[0].price@) && new_actions(s, n)[0] == mark_new(n.unwrap()),
{
    let c = cancel_marked(s, n);
    let a = new_actions(s, n);
    let t = c + a;
    assert forall|i: int| 0 <= i < c.len() implies (#[trigger] c[i]).price@ == s[i].price@ by {
    }
    if a.len() == 1 {
        assert(!orders_map(s).contains_key(a[0].price@));
    }
    assert(unique_prices(t)) by {
        assert forall|i: int, j: int|
            0 <= i < t.len() && 0 <= j < t.len() && i != j implies (#[trigger] t[i]).price@ != (#[trigger] t[j]).price@ by {
            if i < c.len() && j < c.len() {
                assert(t[i] == c[i] && t[j] == c[j]);
            } else if i < c.len() {
                assert(t[i] == c[i] && t[j] == a[0]);
                assert(has_order_at(s, s[i].price@));
            } else if j < c.len() {
                assert(t[j] == c[j] && t[i] == a[0]);
                assert(has_order_at(s, s[j].price@));
            }
        }
    }
    assert forall|i: int| 0 <= i < s.len() implies orders_map(t).contains_key((#[trigger] s[i]).price@) && orders_map(
        t,
    )[s[i].price@] == c[i] && orders_map(s).contains_key(s[i].price@) && orders_map(s)[s[i].price@] == s[i] by {
        assert(t[i] == c[i]);
        lemma_orders_map_at(t, i);
        lemma_orders_map_at(s, i);
    }
    assert forall|k: int| #[trigger] orders_map(t).contains_key(k) implies has_order_at(s, k) || (a.len() == 1 && k
        == a[0].price@) by {
        let j = choose|j: int| 0 <= j < t.len() && (#[trigger] t[j]).price@ == k;
        if j < c.len() {
            assert(t[j] == c[j]);
            assert(s[j].price@ == k);
        } else {
            assert(t[j] == a[0]);
        }
    }
    if a.len() == 1 {
        lemma_orders_map_at(t, c.len() as int);
        assert(t[c.len() as int] == a[0]);
    }
}


/// Every valid order of `s` is among the valid orders.
proof fn lemma_valid_orders_has(s: Seq<Order>)
    ensures
        forall|i: int| 0 <= i < s.len() && order_valid(#[trigger] s[i]) ==> valid_orders(s).contains(s[i]),
    decreases s.len(),
{
    if s.len() > 0 {
        let p = s.drop_last();
        lemma_valid_orders_has(p);
        assert forall|i: int| 0 <= i < s.len() && order_valid(#[trigger] s[i]) implies valid_orders(s).contains(s[i]) by {
            if i < p.len() {
                assert(s[i] == p[i]);
                let j = choose|j: int| 0 <= j < valid_orders(p).len() && valid_orders(p)[j] == p[i];
                assert(valid_orders(s)[j] == valid_orders(p)[j]);
            } else {
                let v = valid_orders(s);
                assert(v[v.len() - 1] == s[i]);
            }
        }
    }
}

/// The invalid orders are orders of `s`.
proof fn lemma_invalid_orders_of(s: Seq<Order>)
    ensures
        forall|i: int| 0 <= i < invalid_orders(s).len() ==> s.contains(#[trigger] invalid_orders(s)[i]),
    decreases s.len(),
{
    if s.len() > 0 {
        let p = s.drop_last();
        lemma_invalid_orders_of(p);
        assert forall|i: int| 0 <= i < invalid_orders(s).len() implies s.contains(#[trigger] invalid_orders(s)[i]) by {
            if i < invalid_orders(p).len() {
                assert(invalid_orders(s)[i] == invalid_orders(p)[i]);
                let j = choose|j: int| 0 <= j < p.len() && p[j] == invalid_orders(p)[i];
                assert(s[j] == p[j]);
            } else {
                assert(invalid_orders(s)[i] == s[s.len() - 1]);
            }
        }
    }
}

/// One side right after a top of the book: the strategy's orders `t2` of the
/// side are its kept orders `s` (marked to be cancelled where the plan `n`
/// does not hold them) and the new order, and the valid ones among `orders`
/// are pending (see `side_pending`) against the simulator's orders `sim`,
/// which agreed with the kept ones.
proof fn lemma_side_after_event(
    s: Seq<Order>,
    n: Option<Order>,
    sim: Map<int, Order>,
    t2: Map<int, Order>,
    orders: Seq<Order>,
    side: Side,
)
    requires
        unique_prices(s),
        side_agrees(orders_map(s), sim),
        t2 == orders_map(cancel_marked(s, n) + new_actions(s, n)),
        all_on_side(t2, side),
        forall|o: Order|
            #[trigger] orders.contains(o) && o.side == side ==> cancel_actions(s, n).contains(o) || new_actions(
                s,
                n,
            ).contains(o),
        new_actions(s, n).len() == 1 ==> valid_orders(orders).contains(new_actions(s, n)[0]),
    ensures
        side_pending(t2, sim, valid_orders(orders), side),
{
    let c = cancel_marked(s, n);
    let a = new_actions(s, n);
    let v = valid_orders(orders);
    let m = orders_map(s);
    lemma_event_table(s, n);
    lemma_cancel_actions_from(s, n);
    lemma_valid_orders_of(orders);
    assert forall|k: int| #[trigger] sim.contains_key(k) implies t2.contains_key(k) && t2[k].size == sim[k].size by {
        assert(m.contains_key(k));
        let i = choose|i: int| 0 <= i < s.len() && (#[trigger] s[i]).price@ == k;
        assert(t2[k] == c[i]);
    }
    assert forall|k: int| #[trigger] t2.contains_key(k) implies (t2[k].action == Some(Action::ToBeSent) <==> !sim.contains_key(
        k,
    )) by {
        if has_order_at(s, k) {
            let i = choose|i: int| 0 <= i < s.len() && (#[trigger] s[i]).price@ == k;
            assert(t2[k] == c[i]);
            assert(m.contains_key(k));
        } else {
            assert(!m.contains_key(k));
        }
    }
    assert forall|k: int| #[trigger] t2.contains_key(k) && t2[k].action == Some(Action::ToBeSent) implies exists|j: int|
        0 <= j < v.len() && (#[trigger] v[j]).side == side && v[j].price@ == k by {
        if has_order_at(s, k) {
            let i = choose|i: int| 0 <= i < s.len() && (#[trigger] s[i]).price@ == k;
            assert(t2[k] == c[i]);
            assert(m.contains_key(k));
        } else {
            assert(a.len() == 1 && k == a[0].price@);
            let j = choose|j: int| 0 <= j < v.len() && v[j] == a[0];
            assert(v[j].side == side);
        }
    }
    assert forall|j: int| 0 <= j < v.len() && (#[trigger] v[j]).side == side implies t2.contains_key(v[j].price@) && (
    v[j].action == Some(Action::ToBeSent) ==> t2[v[j].price@] == v[j]) && (v[j].action != Some(Action::ToBeSent)
        ==> v[j].action == Some(Action::Cancel) && t2[v[j].price@].action == Some(Action::Cancel)) by {
        assert(orders.contains(v[j]));
        if cancel_actions(s, n).contains(v[j]) {
            let q = choose|q: int| 0 <= q < cancel_actions(s, n).len() && cancel_actions(s, n)[q] == v[j];
            let i = choose|i: int|
                0 <= i < s.len() && !planned_at(n, s[i]) && #[trigger] cancel_actions(s, n)[q] == mark_cancel(
                    #[trigger] s[i],
                );
            assert(t2[s[i].price@] == c[i]);
        } else {
            assert(a.contains(v[j]));
            assert(a[0] == v[j]);
        }
    }
}


/// The orders that the strategy sends on a top of the book, where each new
/// one among them is valid: the valid ones are pending against the
/// simulator's orders, which agreed with the strategy's before, and at
/// distinct places; the refused ones are all cancels.
proof fn lemma_event_pending(
    pre: TradingStrategy,
    ts: TradingStrategy,
    be: BookEvent,
    orders: Vec<Order>,
    sim_ask: Map<int, Order>,
    sim_bid: Map<int, Order>,
)
    requires
        unique_prices(pre.ask_orders.seq()),
        unique_prices(pre.bid_orders.seq()),
        all_on_side(pre.ask_orders@, Side::Ask),
        all_on_side(pre.bid_orders@, Side::Bid),
        side_agrees(pre.ask_orders@, sim_ask),
        side_agrees(pre.bid_orders@, sim_bid),
        ts_event_post(pre, ts, be, Ok(Some(orders))),
        forall|i: int|
            0 <= i < orders@.len() && (#[trigger] orders@[i]).action == Some(Action::ToBeSent) ==> order_valid(
                orders@[i],
            ),
    ensures
        side_pending(ts.ask_orders@, sim_ask, valid_orders(orders@), Side::Ask),
        side_pending(ts.bid_orders@, sim_bid, valid_orders(orders@), Side::Bid),
        distinct_places(valid_orders(orders@)),
        forall|j: int|
            0 <= j < invalid_orders(orders@).len() ==> (#[trigger] invalid_orders(orders@)[j]).status == Some(
                Status::ToCancell,
            ),
{
    let r = Ok::<Option<Vec<Order>>, EngineError>(Some(orders));
    let (bid_oid, ask_oid) = choose|bid_oid: String, ask_oid: String|
        (exists|n: i64| bid_oid@ == "okex"@ + decimal_text(n as int))
        && (exists|n: i64| ask_oid@ == "okex"@ + decimal_text(n as int))
        && book_event_post(pre, ts, be, bid_oid, ask_oid, r);
    lemma_sent_orders_places(pre, ts, be, r, orders);
    lemma_valid_orders_places(orders@);
    lemma_event_keeps_sides(pre, ts, be, r);
    let asks = pre.ask_orders.seq();
    let bids = pre.bid_orders.seq();
    assert(signal_spec(be, pre.cash, pre.position));
    let planned = planned_orders(
        pre.cash,
        pre.position,
        pre.min_quantity,
        be.bid_price,
        be.ask_price,
        bid_oid,
        ask_oid,
    );
    let (ask, bid) = planned.unwrap();
    let c1 = cancel_actions(asks, ask);
    let c2 = cancel_actions(bids, bid);
    let n1 = new_actions(asks, ask);
    let n2 = new_actions(bids, bid);
    let a = orders@;
    assert(a == c1 + c2 + n1 + n2);
    let l1 = c1.len() as int;
    let l2 = l1 + c2.len();
    let l3 = l2 + n1.len();
    lemma_cancel_actions_from(asks, ask);
    lemma_cancel_actions_from(bids, bid);
    lemma_event_table(asks, ask);
    lemma_event_table(bids, bid);
    lemma_valid_orders_has(a);
    lemma_invalid_orders_of(a);
    // which part of the orders an order comes from, by its side
    assert forall|o: Order| #[trigger] a.contains(o) implies (o.side == Side::Ask ==> c1.contains(o) || n1.contains(o))
        && (o.side == Side::Bid ==> c2.contains(o) || n2.contains(o)) && (c1.contains(o) || c2.contains(o)
        ==> o.status == Some(Status::ToCancell)) && (n1.contains(o) || n2.contains(o) ==> o.action == Some(
        Action::ToBeSent,
    )) by {
        let i = choose|i: int| 0 <= i < a.len() && a[i] == o;
        if i < l1 {
            assert(a[i] == c1[i]);
            let q = choose|q: int|
                0 <= q < asks.len() && !planned_at(ask, asks[q]) && #[trigger] c1[i] == mark_cancel(#[trigger] asks[q]);
            assert(pre.ask_orders@[asks[q].price@] == asks[q]);
        } else if i < l2 {
            assert(a[i] == c2[i - l1]);
            let q = choose|q: int|
                0 <= q < bids.len() && !planned_at(bid, bids[q]) && #[trigger] c2[i - l1] == mark_cancel(#[trigger] bids[q]);
            assert(pre.bid_orders@[bids[q].price@] == bids[q]);
        } else if i < l3 {
            assert(a[i] == n1[i - l2]);
            assert(ts.ask_orders@[n1[0].price@] == n1[0]);
        } else {
            assert(a[i] == n2[i - l3]);
            assert(ts.bid_orders@[n2[0].price@] == n2[0]);
        }
    }
    if n1.len() == 1 {
        assert(a[l2] == n1[0]);
        assert(a.contains(n1[0]));
    }
    if n2.len() == 1 {
        assert(a[l3] == n2[0]);
        assert(a.contains(n2[0]));
    }
    lemma_side_after_event(asks, ask, sim_ask, ts.ask_orders@, a, Side::Ask);
    lemma_side_after_event(bids, bid, sim_bid, ts.bid_orders@, a, Side::Bid);
    assert forall|j: int| 0 <= j < invalid_orders(a).len() implies (#[trigger] invalid_orders(a)[j]).status == Some(
        Status::ToCancell,
    ) by {
        let o = invalid_orders(a)[j];
        assert(a.contains(o));
        let i = choose|i: int| 0 <= i < a.len() && a[i] == o;
        crate::engine::order_manager::lemma_split_partitions(a);
    }
}


/// With no order left to go to the simulator, the strategy and the
/// simulator agree on the side.
proof fn lemma_pending_done(t: Map<int, Order>, s: Map<int, Order>, side: Side)
    requires
        side_pending(t, s, Seq::empty(), side),
    ensures
        side_agrees(t, s),
        t.len() == s.len(),
{
    assert forall|k: int| #[trigger] t.contains_key(k) implies t[k].action != Some(Action::ToBeSent) by {
        if t[k].action == Some(Action::ToBeSent) {
            let j = choose|j: int|
                0 <= j < Seq::<Order>::empty().len() && (#[trigger] Seq::<Order>::empty()[j]).side == side
                    && Seq::<Order>::empty()[j].price@ == k;
        }
    }
    assert(t.dom() =~= s.dom());
}

/// Handing refused cancels back to the strategy, in turn, leaves the
/// strategy's orders and the simulator as they were.
proof fn lemma_refusals_keep_orders(states: Seq<BackTestRun>, s: Seq<Order>, k: int)
    requires
        steps_ok(states, s, k, step_of(StepKind::Refuse)),
        forall|j: int| 0 <= j < s.len() ==> (#[trigger] s[j]).status == Some(Status::ToCancell),
    ensures
        states[k].trading_strategy.ask_orders@ == states[0].trading_strategy.ask_orders@,
        states[k].trading_strategy.bid_orders@ == states[0].trading_strategy.bid_orders@,
        states[k].simulator == states[0].simulator,
    decreases k,
{
    if k > 0 {
        let t = states.take(k);
        assert forall|i: int| 0 <= i < k - 1 implies (step_of(StepKind::Refuse))(
            t[i],
            #[trigger] t.drop_first()[i],
            s[i],
            Ok(()),
        ) by {
            assert(t[i] == states[i]);
            assert(t.drop_first()[i] == states.drop_first()[i]);
        }
        lemma_refusals_keep_orders(t, s, k - 1);
        assert(t[k - 1] == states[k - 1]);
        assert((step_of(StepKind::Refuse))(states[k - 1], states.drop_first()[k - 1], s[k - 1], Ok(())));
        assert(states.drop_first()[k - 1] == states[k]);
        let a = states[k - 1];
        let b = states[k];
        let o = s[k - 1];
        assert(refuse_post(a, b, o, Ok(())));
        let ss = choose|ss: Result<(), EngineError>| sync_post(a.trading_strategy, b.trading_strategy, o, ss) && Ok::<(), EngineError>(()) == (match ss {
            Ok(()) => if b.trading_strategy.cash@ < 0 {
                Err(EngineError::NegativeCash)
            } else {
                Ok(())
            },
            Err(e) => Err(e),
        });
    }
}

/// Sending the orders `sent` to the simulator in turn, each step succeeding,
/// keeps the rest pending.
proof fn lemma_routes_keep_pending(states: Seq<BackTestRun>, sent: Seq<Order>, k: int)
    requires
        steps_ok(states, sent, k, step_of(StepKind::Route)),
        run_pending(states[0], sent),
    ensures
        run_pending(states[k], sent.skip(k)),
    decreases k,
{
    if k == 0 {
        assert(sent.skip(0) =~= sent);
    } else {
        let t = states.take(k);
        assert forall|i: int| 0 <= i < k - 1 implies (step_of(StepKind::Route))(
            t[i],
            #[trigger] t.drop_first()[i],
            sent[i],
            Ok(()),
        ) by {
            assert(t[i] == states[i]);
            assert(t.drop_first()[i] == states.drop_first()[i]);
        }
        lemma_routes_keep_pending(t, sent, k - 1);
        assert(t[k - 1] == states[k - 1]);
        assert((step_of(StepKind::Route))(states[k - 1], states.drop_first()[k - 1], sent[k - 1], Ok(())));
        assert(states.drop_first()[k - 1] == states[k]);
        let rem = sent.skip(k - 1);
        assert(rem[0] == sent[k - 1]);
        lemma_route_keeps_pending(states[k - 1], states[k], rem);
        assert(rem.drop_first() =~= sent.skip(k));
    }
}


/// In a map of orders by price value, each order stands at its own price.
proof fn lemma_orders_map_keys(s: Seq<Order>)
    ensures
        forall|k: int| #[trigger] orders_map(s).contains_key(k) ==> orders_map(s)[k].price@ == k,
{
    assert forall|k: int| #[trigger] orders_map(s).contains_key(k) implies orders_map(s)[k].price@ == k by {
        assert(has_order_at(s, k));
    }
}

/// One side after a trade of `q` at the price value `k` that filled the
/// simulator's order there: the strategy took the fill `exec` (see
/// `settle_fill`), and both keep what is left of the order, at the same size.
proof fn lemma_side_after_fill(
    t: Map<int, Order>,
    s: Map<int, Order>,
    t2: Map<int, Order>,
    s2: Map<int, Order>,
    k: int,
    q: Dec,
    ts: Option<i64>,
    exec: Order,
)
    requires
        side_agrees(t, s),
        s.contains_key(k),
        trade_effect(s, k, q, ts) == Some((Some(exec), s2)),
        exec.price@ == k,
        t[k].size@ == exec.size@ ==> !t2.contains_key(k),
        t2 == t.remove(k) || t2 == t.insert(
            k,
            Order { size: crate::utils::decimal::decimal_checked_sub(t[k].size, exec.size).unwrap(), ..t[k] },
        ),
        crate::utils::decimal::decimal_checked_sub(t[k].size, exec.size) is Some,
        crate::utils::decimal::decimal_checked_sub(t[k].size, exec.size).unwrap()@ == 0 ==> t2 == t.remove(k),
        crate::utils::decimal::decimal_checked_sub(t[k].size, exec.size).unwrap()@ != 0 ==> t2 == t.insert(
            k,
            Order { size: crate::utils::decimal::decimal_checked_sub(t[k].size, exec.size).unwrap(), ..t[k] },
        ),
    ensures
        side_agrees(t2, s2),
{
    let m = s[k];
    Dec::lemma_zero_value();
    assert(t.contains_key(k));
    if m.size@ > q@ {
        assert(t2.dom() =~= s2.dom());
    } else {
        assert(t2.dom() =~= s2.dom());
    }
}


/// A trade of the market that succeeds keeps the strategy and the simulator
/// agreeing on their resting orders.
proof fn lemma_trade_keeps_agree(pre: BackTestRun, post: BackTestRun, tr: Order)
    requires
        sim_agrees(pre),
        trade_post(pre, post, tr, Ok(())),
    ensures
        sim_agrees(post),
{
    let ok = Ok::<(), EngineError>(());
    let (sim, fill) = choose|sim: BybitMarketSimulator, fill: Result<Option<Order>, EngineError>|
        #[trigger] sim_trade_post(pre.simulator, sim, tr, fill) && report_post(
            with_simulator(pre, sim),
            post,
            fill,
            None,
            None,
            ok,
        );
    lemma_trade_keeps_sides(pre.simulator, sim, tr, fill);
    lemma_orders_map_keys(pre.simulator.ask_orders.seq());
    lemma_orders_map_keys(pre.simulator.bid_orders.seq());
    if let Ok(Some(exec)) = fill {
        let s1 = with_simulator(pre, sim);
        let (om, ack) = choose|om: OrderManager, ack: Result<Option<Order>, EngineError>|
            #[trigger] om_report_post(s1.order_manager, om, exec, ack) && pass_on_post(
                with_manager(s1, om),
                post,
                ack,
                None,
                ok,
            );
        let ts = pre.trading_strategy;
        let ts2 = post.trading_strategy;
        let ss = choose|ss: Result<(), EngineError>| sync_post(ts, ts2, exec, ss) && ok == (match ss {
            Ok(()) => if ts2.cash@ < 0 {
                Err(EngineError::NegativeCash)
            } else {
                Ok(())
            },
            Err(e) => Err(e),
        });
        let k = tr.price@;
        if tr.side == Side::Bid {
            lemma_side_after_fill(
                ts.ask_orders@,
                pre.simulator.ask_orders@,
                ts2.ask_orders@,
                sim.ask_orders@,
                k,
                tr.size,
                tr.timstamp,
                exec,
            );
        } else {
            lemma_side_after_fill(
                ts.bid_orders@,
                pre.simulator.bid_orders@,
                ts2.bid_orders@,
                sim.bid_orders@,
                k,
                tr.size,
                tr.timstamp,
                exec,
            );
        }
    }
}


/// The strategy never answers an execution report with a disagreement of
/// the books.
proof fn lemma_response_not_mismatch(pre: TradingStrategy, post: TradingStrategy, x: Order)
    ensures
        !ts_response_post(pre, post, x, Err(EngineError::BookMismatch)),
{
    let r = Err::<(), EngineError>(EngineError::BookMismatch);
    if ts_response_post(pre, post, x, r) {
        let ss = choose|ss: Result<(), EngineError>| sync_post(pre, post, x, ss) && r == (match ss {
            Ok(()) => if post.cash@ < 0 {
                Err(EngineError::NegativeCash)
            } else {
                Ok(())
            },
            Err(e) => Err(e),
        });
    }
}

/// No step of a run over orders ends with a disagreement of the books.
proof fn lemma_step_not_mismatch(kind: StepKind, pre: BackTestRun, post: BackTestRun, o: Order)
    ensures
        !(step_of(kind))(pre, post, o, Err(EngineError::BookMismatch)),
{
    let r = Err::<(), EngineError>(EngineError::BookMismatch);
    match kind {
        StepKind::Refuse => {
            lemma_response_not_mismatch(pre.trading_strategy, post.trading_strategy, o);
        },
        StepKind::Route => {
            if route_post(pre, post, o, r) {
                let (now, sim, answer) = choose|now: Option<i64>, sim: BybitMarketSimulator, answer: Result<Option<Order>, EngineError>|
                    #[trigger] sim_request_post(pre.simulator, sim, stamped(o, now), answer) && report_post(
                        with_simulator(pre, sim),
                        post,
                        answer,
                        Some(EngineError::Unanswered),
                        Some(EngineError::Unacknowledged),
                        r,
                    );
                if let Ok(Some(exec)) = answer {
                    let s1 = with_simulator(pre, sim);
                    let (om, ack) = choose|om: OrderManager, ack: Result<Option<Order>, EngineError>|
                        #[trigger] om_report_post(s1.order_manager, om, exec, ack) && pass_on_post(
                            with_manager(s1, om),
                            post,
                            ack,
                            Some(EngineError::Unacknowledged),
                            r,
                        );
                    if let Ok(Some(x)) = ack {
                        lemma_response_not_mismatch(s1.trading_strategy, post.trading_strategy, x);
                    }
                }
            }
        },
        StepKind::Trade => {
            if trade_post(pre, post, o, r) {
                let (sim, fill) = choose|sim: BybitMarketSimulator, fill: Result<Option<Order>, EngineError>|
                    #[trigger] sim_trade_post(pre.simulator, sim, o, fill) && report_post(
                        with_simulator(pre, sim),
                        post,
                        fill,
                        None,
                        None,
                        r,
                    );
                if let Ok(Some(exec)) = fill {
                    let s1 = with_simulator(pre, sim);
                    let (om, ack) = choose|om: OrderManager, ack: Result<Option<Order>, EngineError>|
                        #[trigger] om_report_post(s1.order_manager, om, exec, ack) && pass_on_post(
                            with_manager(s1, om),
                            post,
                            ack,
                            None,
                            r,
                        );
                    if let Ok(Some(x)) = ack {
                        lemma_response_not_mismatch(s1.trading_strategy, post.trading_strategy, x);
                    }
                }
            }
        },
    }
}

/// No run over orders ends with a disagreement of the books.
proof fn lemma_run_not_mismatch(kind: StepKind, pre: BackTestRun, post: BackTestRun, s: Seq<Order>)
    ensures
        !run_each(pre, post, s, Err(EngineError::BookMismatch), step_of(kind)),
{
    let r = Err::<(), EngineError>(EngineError::BookMismatch);
    if run_each(pre, post, s, r, step_of(kind)) {
        let (states, k) = choose|states: Seq<BackTestRun>, k: int|
            #[trigger] steps_ok(states, s, k, step_of(kind)) && states[0] == pre && match r {
                Ok(()) => k == s.len() && post == states[k],
                Err(_) => k < s.len() && (step_of(kind))(states[k], post, s[k], r),
            };
        lemma_step_not_mismatch(kind, states[k], post, s[k]);
    }
}

/// Trades of the market, taken in turn, each succeeding, keep the strategy
/// and the simulator agreeing on their resting orders.
proof fn lemma_trades_keep_agree(states: Seq<BackTestRun>, s: Seq<Order>, k: int)
    requires
        steps_ok(states, s, k, step_of(StepKind::Trade)),
        sim_agrees(states[0]),
    ensures
        sim_agrees(states[k]),
    decreases k,
{
    if k > 0 {
        let t = states.take(k);
        assert forall|i: int| 0 <= i < k - 1 implies (step_of(StepKind::Trade))(
            t[i],
            #[trigger] t.drop_first()[i],
            s[i],
            Ok(()),
        ) by {
            assert(t[i] == states[i]);
            assert(t.drop_first()[i] == states.drop_first()[i]);
        }
        lemma_trades_keep_agree(t, s, k - 1);
        assert(t[k - 1] == states[k - 1]);
        assert((step_of(StepKind::Trade))(states[k - 1], states.drop_first()[k - 1], s[k - 1], Ok(())));
        assert(states.drop_first()[k - 1] == states[k]);
        lemma_trade_keeps_agree(states[k - 1], states[k], s[k - 1]);
    }
}


/// Every new order among `orders` is valid (no negative price or size).
pub open spec fn new_orders_valid(orders: Seq<Order>) -> bool {
    forall|i: int|
        0 <= i < orders.len() && (#[trigger] orders[i]).action == Some(Action::ToBeSent) ==> order_valid(orders[i])
}

/// The strategy `ts`, on the top of the book `be`, plans a new order that
/// is not valid, which the order manager refuses and hands back: the
/// strategy then keeps an order that never reached the simulator.
pub open spec fn plans_invalid_new(ts: TradingStrategy, be: BookEvent) -> bool {
    exists|post: TradingStrategy, orders: Vec<Order>|
        #[trigger] ts_event_post(ts, post, be, Ok(Some(orders))) && !new_orders_valid(orders@)
}

/// The strategy's taking a top of the book, and what follows, never ends
/// with a disagreement of the books where the strategy and the simulator
/// agreed before and no new order planned is refused; where it succeeds
/// they agree after it.
proof fn lemma_event_agrees(pre: BackTestRun, post: BackTestRun, be: BookEvent, r: Result<(), EngineError>)
    requires
        sim_agrees(pre),
        strategy_sides_ok(pre),
        unique_prices(pre.trading_strategy.ask_orders.seq()),
        unique_prices(pre.trading_strategy.bid_orders.seq()),
        event_post(pre, post, be, r),
        !plans_invalid_new(pre.trading_strategy, be),
    ensures
        r != Err::<(), EngineError>(EngineError::BookMismatch),
        r is Ok ==> sim_agrees(post),
{
    let (ts, planned) = choose|ts: TradingStrategy, planned: Result<Option<Vec<Order>>, EngineError>|
        #[trigger] ts_event_post(pre.trading_strategy, ts, be, planned) && match planned {
            Err(e) => post == with_strategy(pre, ts) && r == Err::<(), EngineError>(e),
            Ok(None) => check_post(with_strategy(pre, ts), post, r),
            Ok(Some(orders)) => orders_post(with_strategy(pre, ts), post, orders@, r),
        };
    let (bid_oid, ask_oid) = choose|bid_oid: String, ask_oid: String|
        (exists|n: i64| bid_oid@ == "okex"@ + decimal_text(n as int))
        && (exists|n: i64| ask_oid@ == "okex"@ + decimal_text(n as int))
        && book_event_post(pre.trading_strategy, ts, be, bid_oid, ask_oid, planned);
    match planned {
        Err(e) => {},
        Ok(None) => {
            let s1 = with_strategy(pre, ts);
            assert(s1.trading_strategy.ask_orders@ == pre.trading_strategy.ask_orders@);
            assert(s1.trading_strategy.bid_orders@ == pre.trading_strategy.bid_orders@);
        },
        Ok(Some(orders)) => {
            assert(new_orders_valid(orders@)) by {
                if !new_orders_valid(orders@) {
                    assert(plans_invalid_new(pre.trading_strategy, be));
                }
            }
            lemma_event_pending(
                pre.trading_strategy,
                ts,
                be,
                orders,
                pre.simulator.ask_orders@,
                pre.simulator.bid_orders@,
            );
            let s1 = with_strategy(pre, ts);
            let (om, split) = choose|om: OrderManager, split: (Vec<Order>, Vec<Order>)|
                #[trigger] om_split_post(s1.order_manager, om, orders@, split) && dispatch_post(
                    with_manager(s1, om),
                    post,
                    split.0@,
                    split.1@,
                    r,
                );
            let s2 = with_manager(s1, om);
            let sent = split.0@;
            let refused = split.1@;
            let (mid, r1) = choose|mid: BackTestRun, r1: Result<(), EngineError>|
                #[trigger] run_each(s2, mid, refused, r1, step_of(StepKind::Refuse)) && match r1 {
                    Err(e) => post == mid && r == Err::<(), EngineError>(e),
                    Ok(()) => exists|last: BackTestRun, r2: Result<(), EngineError>|
                        #[trigger] run_each(mid, last, sent, r2, step_of(StepKind::Route)) && match r2 {
                            Err(e) => post == last && r == Err::<(), EngineError>(e),
                            Ok(()) => check_post(last, post, r),
                        },
                };
            if r1 is Err {
                lemma_run_not_mismatch(StepKind::Refuse, s2, mid, refused);
            } else {
                let (rstates, rk) = choose|states: Seq<BackTestRun>, k: int|
                    #[trigger] steps_ok(states, refused, k, step_of(StepKind::Refuse)) && states[0] == s2 && match r1 {
                        Ok(()) => k == refused.len() && mid == states[k],
                        Err(_) => k < refused.len() && (step_of(StepKind::Refuse))(states[k], mid, refused[k], r1),
                    };
                lemma_refusals_keep_orders(rstates, refused, rk);
                assert(run_pending(mid, sent));
                let (last, r2) = choose|last: BackTestRun, r2: Result<(), EngineError>|
                    #[trigger] run_each(mid, last, sent, r2, step_of(StepKind::Route)) && match r2 {
                        Err(e) => post == last && r == Err::<(), EngineError>(e),
                        Ok(()) => check_post(last, post, r),
                    };
                if r2 is Err {
                    lemma_run_not_mismatch(StepKind::Route, mid, last, sent);
                } else {
                    let (states, k) = choose|states: Seq<BackTestRun>, k: int|
                        #[trigger] steps_ok(states, sent, k, step_of(StepKind::Route)) && states[0] == mid && match r2 {
                            Ok(()) => k == sent.len() && last == states[k],
                            Err(_) => k < sent.len() && (step_of(StepKind::Route))(states[k], last, sent[k], r2),
                        };
                    lemma_routes_keep_pending(states, sent, k);
                    assert(sent.skip(k) =~= Seq::<Order>::empty());
                    lemma_pending_done(last.trading_strategy.ask_orders@, last.simulator.ask_orders@, Side::Ask);
                    lemma_pending_done(last.trading_strategy.bid_orders@, last.simulator.bid_orders@, Side::Bid);
                }
            }
        },
    }
}


/// On the line `message`, the book gives a top of the book on which the
/// strategy plans a new order that is not valid (see `plans_invalid_new`).
pub open spec fn line_plans_invalid_new(pre: BackTestRun, message: JsonValue) -> bool {
    exists|sim: BybitMarketSimulator, ob: BybitOrderBook, be: BookEvent|
        #![trigger sim_depth_post(pre.simulator, sim, message, Ok(())), ob_depth_post(pre.order_book, ob, message, Ok(Some(be)))]
        sim_depth_post(pre.simulator, sim, message, Ok(())) && ob_depth_post(pre.order_book, ob, message, Ok(Some(be)))
            && plans_invalid_new(pre.trading_strategy, be)
}

/// A line of the feed, handled where the strategy and the simulator agree
/// on their resting orders (as at the start of a back test: see
/// `BackTestRun::new`), never ends with their disagreeing on the number of
/// resting orders of a side, and where it succeeds they agree after it.
/// This holds on every line but one on which the strategy plans a new order
/// with a negative price or size: the order manager refuses such an order
/// and hands it back, and the strategy keeps it though the simulator never
/// had it.
pub proof fn lemma_line_keeps_orders_agree(pre: BackTestRun, post: BackTestRun, message: JsonValue, r: Result<(), EngineError>)
    requires
        unique_prices(pre.trading_strategy.ask_orders.seq()),
        unique_prices(pre.trading_strategy.bid_orders.seq()),
        orders_agree(pre),
        !line_plans_invalid_new(pre, message),
        message_post(pre, post, message, r),
    ensures
        r != Err::<(), EngineError>(EngineError::BookMismatch),
        r is Ok ==> orders_agree(post),
{
    lemma_line_keeps_strategy_sides(pre, post, message, r);
    if message is Object && member_is_str(message, "topic"@, "orderBook_200.100ms.BTCUSDT"@) && book_time(message) is Some {
        let (sim, r1) = choose|sim: BybitMarketSimulator, r1: Result<(), EngineError>|
            #[trigger] sim_depth_post(pre.simulator, sim, message, r1) && match r1 {
                Err(e) => post == with_simulator(pre, sim) && r == Err::<(), EngineError>(e),
                Ok(()) => exists|ob: BybitOrderBook, ev: Result<Option<BookEvent>, EngineError>|
                    #[trigger] ob_depth_post(pre.order_book, ob, message, ev) && match ev {
                        Err(e) => post == with_book(with_simulator(pre, sim), ob) && r == Err::<(), EngineError>(e),
                        Ok(None) => check_post(with_book(with_simulator(pre, sim), ob), post, r),
                        Ok(Some(be)) => event_post(with_book(with_simulator(pre, sim), ob), post, be, r),
                    },
            };
        if let Err(e) = r1 {
            lemma_sim_depth_errors(pre.simulator, sim, message, e);
        } else {
            let (ob, ev) = choose|ob: BybitOrderBook, ev: Result<Option<BookEvent>, EngineError>|
                #[trigger] ob_depth_post(pre.order_book, ob, message, ev) && match ev {
                    Err(e) => post == with_book(with_simulator(pre, sim), ob) && r == Err::<(), EngineError>(e),
                    Ok(None) => check_post(with_book(with_simulator(pre, sim), ob), post, r),
                    Ok(Some(be)) => event_post(with_book(with_simulator(pre, sim), ob), post, be, r),
                };
            let s1 = with_book(with_simulator(pre, sim), ob);
            assert(sim_agrees(s1));
            match ev {
                Err(e) => {
                    lemma_ob_depth_errors(pre.order_book, ob, message, e);
                },
                Ok(None) => {},
                Ok(Some(be)) => {
                    assert(!plans_invalid_new(pre.trading_strategy, be));
                    lemma_event_agrees(s1, post, be, r);
                },
            }
        }
    } else if message is Object && !member_is_str(message, "topic"@, "orderBook_200.100ms.BTCUSDT"@)
        && member_is_str(message, "topic"@, "trade.BTCUSDT"@) {
        if let Some(d) = message.spec_get("data"@) {
            if let Some(items) = d.spec_as_array() {
                if let Some(trades) = bybit_trades(items) {
                    lemma_run_not_mismatch(StepKind::Trade, pre, post, trades);
                    if r is Ok {
                        let (states, k) = choose|states: Seq<BackTestRun>, k: int|
                            #[trigger] steps_ok(states, trades, k, step_of(StepKind::Trade)) && states[0] == pre && match r {
                                Ok(()) => k == trades.len() && post == states[k],
                                Err(_) => k < trades.len() && (step_of(StepKind::Trade))(states[k], post, trades[k], r),
                            };
                        lemma_trades_keep_agree(states, trades, k);
                    }
                }
            }
        }
    }
}

} // verus!
