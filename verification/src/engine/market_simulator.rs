//! The market simulator answers orders as an exchange would, and fills
//! them against the trades of the market.
use crate::engine::common::{Action, Depth, Order, Side, Status};
use crate::engine::error::EngineError;
use crate::engine::levels::PriceLevels;
use crate::engine::orders::OrderTable;
use crate::engine::order_book::{book_data, insert_all, insert_levels, read_book_data};
use crate::utils::json::{member_is_str, JsonValue};
use crate::utils::time::{parse_utc_nanos, utc_timestamp_nanos};
use crate::utils::decimal::{
    dec_checked_sub,
    dec_eq,
    dec_lt,
    decimal_checked_sub,
    sub_exact,
    Dec,
};
use vstd::prelude::*;

verus! {

/// The fill report for `size` at `price` on `side`.
pub open spec fn fill_report(price: Dec, size: Dec, side: Side, ts: Option<i64>) -> Order {
    Order {
        order_id: None,
        trade_id: None,
        client_oid: None,
        price: price,
        size: size,
        side: side,
        action: None,
        status: Some(Status::Filled),
        timstamp: ts,
    }
}

/// A trade of `q` against the resting order `m`: the fill report, the size
/// left of `m` (zero if nothing is left) and `m` after the trade; `None`
/// where the subtraction overflows.
pub open spec fn order_match(m: Order, q: Dec, ts: Option<i64>) -> Option<(Order, Dec, Order)> {
    if m.size@ > q@ {
        match decimal_checked_sub(m.size, q) {
            Some(x) => Some(
                (fill_report(m.price, q, m.side, ts), x, Order { size: x, ..m }),
            ),
            None => None,
        }
    } else if m.size@ == q@ {
        Some((fill_report(m.price, q, m.side, ts), Dec::spec_zero(), m))
    } else {
        Some((fill_report(m.price, m.size, m.side, ts), Dec::spec_zero(), m))
    }
}

/// A trade of `q` against the level `d`: the quantity of the trade left over,
/// whether the level is used up, and the level after the trade; `None` where
/// the subtraction overflows.
pub open spec fn depth_match(d: Depth, q: Dec) -> Option<(Dec, bool, Depth)> {
    if d.size@ > q@ {
        match decimal_checked_sub(d.size, q) {
            Some(x) => Some((Dec::spec_zero(), false, Depth { size: x, ..d })),
            None => None,
        }
    } else if d.size@ == q@ {
        Some((Dec::spec_zero(), true, d))
    } else {
        match decimal_checked_sub(q, d.size) {
            Some(x) => Some((x, true, d)),
            None => None,
        }
    }
}

/// Trades `q` against the resting order `my_order`, which keeps what is left
/// of it; returns the fill report (stamped `ts`) and the size left.
pub fn match_order(my_order: &mut Order, q: Dec, ts: Option<i64>) -> (r: Result<
    (Option<Order>, Dec),
    EngineError,
>)
    ensures
        match order_match(*old(my_order), q, ts) {
            Some((fill, left, after)) => r == Ok::<(Option<Order>, Dec), EngineError>(
                (Some(fill), left),
            ) && *final(my_order) == after,
            None => r == Err::<(Option<Order>, Dec), EngineError>(EngineError::Overflow)
                && *final(my_order) == *old(my_order),
        },
        // what is filled and what is left make up the order, when the
        // subtraction is exact
        old(my_order).size@ > q@ && sub_exact(old(my_order).size, q) ==> (r matches Ok(
            (Some(fill), left),
        ) && fill.size@ + left@ == old(my_order).size@),
        old(my_order).size@ <= q@ ==> (r matches Ok((Some(fill), left)) && fill.size@
            == old(my_order).size@ && left@ == 0),
{
    if dec_lt(&q, &my_order.size) {
        match dec_checked_sub(my_order.size, q) {
            Some(x) => {
                my_order.size = x;
                Ok(
                    (
                        Some(
                            Order {
                                order_id: None,
                                trade_id: None,
                                client_oid: None,
                                price: my_order.price,
                                size: q,
                                side: my_order.side,
                                action: None,
                                status: Some(Status::Filled),
                                timstamp: ts,
                            },
                        ),
                        x,
                    ),
                )
            },
            None => Err(EngineError::Overflow),
        }
    } else if dec_eq(&my_order.size, &q) {
        Ok(
            (
                Some(
                    Order {
                        order_id: None,
                        trade_id: None,
                        client_oid: None,
                        price: my_order.price,
                        size: q,
                        side: my_order.side,
                        action: None,
                        status: Some(Status::Filled),
                        timstamp: ts,
                    },
                ),
                Dec::zero(),
            ),
        )
    } else {
        Ok(
            (
                Some(
                    Order {
                        order_id: None,
                        trade_id: None,
                        client_oid: None,
                        price: my_order.price,
                        size: my_order.size,
                        side: my_order.side,
                        action: None,
                        status: Some(Status::Filled),
                        timstamp: ts,
                    },
                ),
                Dec::zero(),
            ),
        )
    }
}

/// The levels that a depth message brings to the simulator: it is an
/// object whose `data` is a non-empty list whose first element is an
/// object with a string `timestamp`, a UTC time; if its `table` is
/// `spot/depth_l2_tbt`, the levels of that first element (see `book_data`),
/// stamped with that time.  `None` where it is not so written; `Some(None)`
/// for another table.
pub open spec fn lp_message(v: JsonValue) -> Option<Option<(Seq<Depth>, Seq<Depth>)>> {
    match v {
        JsonValue::Object(_) => match v.spec_get("data"@) {
            Some(d) => match d.spec_as_array() {
                Some(items) => if items.len() == 0 {
                    None
                } else {
                    let first = items[0];
                    match first {
                        JsonValue::Object(_) => match first.spec_get("timestamp"@) {
                            Some(t) => match t.spec_as_str() {
                                Some(text) => match utc_timestamp_nanos(text@) {
                                    Some(nanos) => if member_is_str(v, "table"@, "spot/depth_l2_tbt"@) {
                                        match book_data(first, Some(nanos)) {
                                            Some(levels) => Some(Some(levels)),
                                            None => None,
                                        }
                                    } else {
                                        Some(None)
                                    },
                                    None => None,
                                },
                                None => None,
                            },
                            None => None,
                        },
                        _ => None,
                    }
                },
                None => None,
            },
            None => None,
        },
        _ => None,
    }
}

/// Reads the levels of a depth message (see `lp_message`).
pub fn read_lp_message(v: &JsonValue) -> (r: Option<Option<(Vec<Depth>, Vec<Depth>)>>)
    ensures
        match lp_message(*v) {
            None => r is None,
            Some(None) => r == Some(None::<(Vec<Depth>, Vec<Depth>)>),
            Some(Some((a, b))) => r matches Some(Some((va, vb))) && va@ == a && vb@ == b,
        },
{
    match v {
        JsonValue::Object(_) => {},
        _ => {
            return None;
        },
    }
    let items = match v.get("data") {
        Some(d) => match d.as_array() {
            Some(items) => items,
            None => {
                return None;
            },
        },
        None => {
            return None;
        },
    };
    if items.len() == 0 {
        return None;
    }
    let first = &items[0];
    match first {
        JsonValue::Object(_) => {},
        _ => {
            return None;
        },
    }
    let text = match first.get("timestamp") {
        Some(t) => match t.as_str() {
            Some(text) => text,
            None => {
                return None;
            },
        },
        None => {
            return None;
        },
    };
    let nanos = match parse_utc_nanos(text.as_str()) {
        Some(n) => n,
        None => {
            return None;
        },
    };
    let table_ok = match v.get("table") {
        Some(t) => t.is_str("spot/depth_l2_tbt"),
        None => false,
    };
    if !table_ok {
        return Some(None);
    }
    match read_book_data(first, Some(nanos)) {
        Some(levels) => Some(Some(levels)),
        None => None,
    }
}

/// The market simulator: the book of the market and the orders resting on it.
pub struct MarketSimulator {
    pub ask_maps: PriceLevels,
    pub bid_maps: PriceLevels,
    pub ask_orders: OrderTable,
    pub bid_orders: OrderTable,
}

/// What an order request from the order manager does to the orders `m` of
/// its side: the answer (`None` for no answer), and the orders after it;
/// `None` for a cancel of an order that does not rest there.
pub open spec fn request_effect(m: Map<int, Order>, order: Order) -> Option<
    (Option<Order>, Map<int, Order>),
> {
    if order.action == Some(Action::ToBeSent) {
        Some((Some(Order { status: Some(Status::Acked), ..order }), m.insert(order.price@, order)))
    } else if order.action == Some(Action::Modify) {
        Some(
            (Some(Order { status: Some(Status::Modified), ..order }), m.insert(order.price@, order)),
        )
    } else if order.action == Some(Action::Cancel) {
        if m.contains_key(order.price@) {
            Some((Some(Order { status: Some(Status::Cancelled), ..order }), m.remove(order.price@)))
        } else {
            None
        }
    } else {
        Some((None, m))
    }
}

/// A cancel undoes a new order: sending a new order at a price where no
/// order rests, then a cancel at that price, is answered acked then
/// cancelled, and leaves the resting orders as they were.
pub proof fn lemma_cancel_undoes_new(m: Map<int, Order>, o: Order, c: Order)
    requires
        !m.contains_key(o.price@),
        o.action == Some(Action::ToBeSent),
        c.action == Some(Action::Cancel),
        c.price@ == o.price@,
    ensures
        request_effect(m, o) matches Some((Some(a), m1)) && a.status == Some(Status::Acked) && (
        request_effect(m1, c) matches Some((Some(b), m2)) && b.status == Some(Status::Cancelled) && m2
            == m),
{
}

/// What a trade of the market at price value `k` does to the resting orders
/// `m` of the other side: the fill report (`None` when no order rests at
/// `k`), and the orders after it; `None` on overflow.
pub open spec fn trade_effect(m: Map<int, Order>, k: int, q: Dec, ts: Option<i64>) -> Option<
    (Option<Order>, Map<int, Order>),
> {
    if m.contains_key(k) {
        match order_match(m[k], q, ts) {
            Some((fill, left, after)) => Some(
                (
                    Some(fill),
                    if left@ == 0 {
                        m.remove(k)
                    } else {
                        m.insert(k, after)
                    },
                ),
            ),
            None => None,
        }
    } else {
        Some((None, m))
    }
}

/// A trade of `q` at price value `k` against the resting orders `pre`, which
/// became `post` with the outcome `r`, conserves size: where an order rests
/// at `k` (and the subtraction is exact), the fill is the smaller of its size
/// and `q`, and the fill and what still rests there make up the order.
pub open spec fn fill_conserves(pre: Map<int, Order>, post: Map<int, Order>, k: int, q: Dec, r: Result<Option<Order>, EngineError>) -> bool {
    pre.contains_key(k) && (pre[k].size@ > q@ ==> sub_exact(pre[k].size, q)) ==> (r matches Ok(Some(fill))
        && fill.size@ == (if pre[k].size@ <= q@ {
        pre[k].size@
    } else {
        q@
    }) && (post.contains_key(k) ==> post[k].size@ + fill.size@ == pre[k].size@) && (!post.contains_key(k)
        ==> fill.size@ == pre[k].size@))
}

/// Applies a trade of the market to the resting orders of the other side.
pub fn trade_against(table: &mut OrderTable, trade_order: &Order, ts: Option<i64>) -> (r: Result<
    Option<Order>,
    EngineError,
>)
    ensures
        match trade_effect(old(table)@, trade_order.price@, trade_order.size, ts) {
            Some((fill, after)) => r == Ok::<Option<Order>, EngineError>(fill) && final(table)@
                == after,
            None => r == Err::<Option<Order>, EngineError>(EngineError::Overflow) && final(table)@
                == old(table)@,
        },
        fill_conserves(old(table)@, final(table)@, trade_order.price@, trade_order.size, r),
{
    let price = trade_order.price;
    match table.get(&price) {
        Some(my_order) => {
            let mut my_order = my_order;
            let (order, left) = match match_order(&mut my_order, trade_order.size, ts) {
                Ok(res) => res,
                Err(e) => {
                    return Err(e);
                },
            };
            table.insert(my_order);
            if dec_eq(&left, &Dec::zero()) {
                table.remove(&price);
            }
            Ok(order)
        },
        None => Ok(None),
    }
}

/// Applies an order request of the order manager to the resting orders of its side.
pub fn answer_request(table: &mut OrderTable, order: Order) -> (r: Result<
    Option<Order>,
    EngineError,
>)
    ensures
        match request_effect(old(table)@, order) {
            Some((answer, after)) => r == Ok::<Option<Order>, EngineError>(answer) && final(table)@ == after,
            None => r == Err::<Option<Order>, EngineError>(EngineError::UnknownOrder) && final(table)@ == old(table)@,
        },
{
    let mut order = order;
    if order.action == Some(Action::ToBeSent) {
        table.insert(order.clone());
        order.status = Some(Status::Acked);
        Ok(Some(order))
    } else if order.action == Some(Action::Modify) {
        table.insert(order.clone());
        order.status = Some(Status::Modified);
        Ok(Some(order))
    } else if order.action == Some(Action::Cancel) {
        if !table.contains(&order.price) {
            return Err(EngineError::UnknownOrder);
        }
        table.remove(&order.price);
        order.status = Some(Status::Cancelled);
        Ok(Some(order))
    } else {
        Ok(None)
    }
}

impl MarketSimulator {
    /// A simulator with an empty book and no resting order.
    pub fn new() -> (r: MarketSimulator)
        ensures
            r.ask_maps@ == Map::<int, Depth>::empty(),
            r.bid_maps@ == Map::<int, Depth>::empty(),
            r.ask_orders@ == Map::<int, Order>::empty(),
            r.bid_orders@ == Map::<int, Order>::empty(),
    {
        MarketSimulator {
            ask_maps: PriceLevels::new(),
            bid_maps: PriceLevels::new(),
            ask_orders: OrderTable::new(),
            bid_orders: OrderTable::new(),
        }
    }

    /// Fills the resting order at the price of a trade of the market: a buy
    /// trade meets the resting asks, a sell trade the resting bids.  The
    /// resting order keeps what is left, and goes when nothing is.
    pub fn handle_order_from_gw(&mut self, trade_order: Order) -> (r: Result<
        Option<Order>,
        EngineError,
    >)
        ensures
            final(self).ask_maps@ == old(self).ask_maps@,
            final(self).bid_maps@ == old(self).bid_maps@,
            trade_order.side == Side::Bid ==> final(self).bid_orders@ == old(self).bid_orders@
                && match trade_effect(
                old(self).ask_orders@,
                trade_order.price@,
                trade_order.size,
                None,
            ) {
                Some((fill, after)) => r == Ok::<Option<Order>, EngineError>(fill) && final(self).ask_orders@ == after,
                None => r == Err::<Option<Order>, EngineError>(EngineError::Overflow) && final(self).ask_orders@ == old(self).ask_orders@,
            },
            trade_order.side == Side::Ask ==> final(self).ask_orders@ == old(self).ask_orders@
                && match trade_effect(
                old(self).bid_orders@,
                trade_order.price@,
                trade_order.size,
                None,
            ) {
                Some((fill, after)) => r == Ok::<Option<Order>, EngineError>(fill) && final(self).bid_orders@ == after,
                None => r == Err::<Option<Order>, EngineError>(EngineError::Overflow) && final(self).bid_orders@ == old(self).bid_orders@,
            },
            trade_order.side == Side::Bid ==> fill_conserves(old(self).ask_orders@, final(self).ask_orders@, trade_order.price@, trade_order.size, r),
            trade_order.side == Side::Ask ==> fill_conserves(old(self).bid_orders@, final(self).bid_orders@, trade_order.price@, trade_order.size, r),
    {
        if trade_order.side == Side::Bid {
            trade_against(&mut self.ask_orders, &trade_order, None)
        } else {
            trade_against(&mut self.bid_orders, &trade_order, None)
        }
    }

    /// Trades `trade_quantity` against the level `depth`, which keeps what is
    /// left of it; returns the quantity left over and whether the level is
    /// used up.
    pub fn trade_with_depth(depth: &mut Depth, trade_quantity: Dec) -> (r: Result<
        (Dec, bool),
        EngineError,
    >)
        ensures
            match depth_match(*old(depth), trade_quantity) {
                Some((left, removed, after)) => r == Ok::<(Dec, bool), EngineError>(
                    (left, removed),
                ) && *final(depth) == after,
                None => r == Err::<(Dec, bool), EngineError>(EngineError::Overflow) && *final(depth) == *old(depth),
            },
            // what the level takes and what is left over make up the trade,
            // when the subtraction is exact
            old(depth).size@ > trade_quantity@ && sub_exact(old(depth).size, trade_quantity)
                ==> (r matches Ok((left, false)) && left@ == 0 && old(depth).size@ - final(depth).size@ == trade_quantity@),
            old(depth).size@ < trade_quantity@ && sub_exact(trade_quantity, old(depth).size)
                ==> (r matches Ok((left, true)) && old(depth).size@ + left@ == trade_quantity@),
    {
        if dec_lt(&trade_quantity, &depth.size) {
            match dec_checked_sub(depth.size, trade_quantity) {
                Some(x) => {
                    depth.size = x;
                    Ok((Dec::zero(), false))
                },
                None => Err(EngineError::Overflow),
            }
        } else if dec_eq(&depth.size, &trade_quantity) {
            Ok((Dec::zero(), true))
        } else {
            match dec_checked_sub(trade_quantity, depth.size) {
                Some(x) => Ok((x, true)),
                None => Err(EngineError::Overflow),
            }
        }
    }

    /// Trades `left_quantity` against the resting order `my_order`, which
    /// keeps what is left of it; returns the fill report and the size left.
    pub fn trade_with_order(my_order: &mut Order, left_quantity: Dec) -> (r: Result<
        (Option<Order>, Dec),
        EngineError,
    >)
        ensures
            match order_match(*old(my_order), left_quantity, None) {
                Some((fill, left, after)) => r == Ok::<(Option<Order>, Dec), EngineError>(
                    (Some(fill), left),
                ) && *final(my_order) == after,
                None => r == Err::<(Option<Order>, Dec), EngineError>(EngineError::Overflow)
                    && *final(my_order) == *old(my_order),
            },
    {
        match_order(my_order, left_quantity, None)
    }

    /// Records the levels of a depth message of the market (see
    /// `lp_message`), each put at its price.  A message not so written is an
    /// error and changes nothing.
    pub fn handle_depth_from_lp(&mut self, message: &JsonValue) -> (r: Result<(), EngineError>)
        ensures
            final(self).ask_orders@ == old(self).ask_orders@,
            final(self).bid_orders@ == old(self).bid_orders@,
            match lp_message(*message) {
                None => r == Err::<(), EngineError>(EngineError::Malformed) && final(self).ask_maps@ == old(self).ask_maps@
                    && final(self).bid_maps@ == old(self).bid_maps@,
                Some(None) => r == Ok::<(), EngineError>(()) && final(self).ask_maps@ == old(self).ask_maps@
                    && final(self).bid_maps@ == old(self).bid_maps@,
                Some(Some((asks, bids))) => r == Ok::<(), EngineError>(()) && final(self).ask_maps@ == insert_levels(old(self).ask_maps@, asks)
                    && final(self).bid_maps@ == insert_levels(old(self).bid_maps@, bids),
            },
    {
        match read_lp_message(message) {
            None => Err(EngineError::Malformed),
            Some(None) => Ok(()),
            Some(Some((asks, bids))) => {
                insert_all(&mut self.ask_maps, &asks);
                insert_all(&mut self.bid_maps, &bids);
                Ok(())
            },
        }
    }

    /// Looking an order up is not done: it always finds nothing.
    fn lookup_orders(&mut self, _order: &Order) -> (r: (Option<Order>, Option<usize>))
        ensures
            r == (None::<Order>, None::<usize>),
            *final(self) == *old(self),
    {
        (None, None)
    }

    /// Orders reach the simulator by `handle_orders_from_om`; this input does nothing.
    fn handle_input_from_gw(&mut self)
        ensures
            *final(self) == *old(self),
    {
    }

    /// Every order passes the simulator's check.
    fn check_order(&mut self, _order: &Order) -> (r: bool)
        ensures
            r,
            *final(self) == *old(self),
    {
        true
    }

    /// Answers an order request of the order manager: a new order is acked
    /// and rests at its price, a modify is answered modified and replaces
    /// the order at its price, a cancel is answered cancelled and removes the
    /// order at its price; other requests get no answer.  A cancel of an
    /// order that does not rest there is an error.
    pub fn handle_orders_from_om(&mut self, order: Order) -> (r: Result<
        Option<Order>,
        EngineError,
    >)
        ensures
            final(self).ask_maps@ == old(self).ask_maps@,
            final(self).bid_maps@ == old(self).bid_maps@,
            order.side == Side::Ask ==> final(self).bid_orders@ == old(self).bid_orders@
                && match request_effect(old(self).ask_orders@, order) {
                Some((answer, after)) => r == Ok::<Option<Order>, EngineError>(answer) && final(self).ask_orders@ == after,
                None => r == Err::<Option<Order>, EngineError>(EngineError::UnknownOrder)
                    && final(self).ask_orders@ == old(self).ask_orders@,
            },
            order.side == Side::Bid ==> final(self).ask_orders@ == old(self).ask_orders@
                && match request_effect(old(self).bid_orders@, order) {
                Some((answer, after)) => r == Ok::<Option<Order>, EngineError>(answer) && final(self).bid_orders@ == after,
                None => r == Err::<Option<Order>, EngineError>(EngineError::UnknownOrder)
                    && final(self).bid_orders@ == old(self).bid_orders@,
            },
    {
        let _ = self.check_order(&order);
        if order.side == Side::Ask {
            answer_request(&mut self.ask_orders, order)
        } else {
            answer_request(&mut self.bid_orders, order)
        }
    }
}

} // verus!
