//! The trading strategy: on each change of the top of the book it plans a
//! bid with its cash and an ask with its position, and turns the plan into
//! orders to send, modify or cancel; it keeps its orders, position, cash and
//! profit in step with the market's answers.
use crate::engine::common::{get_oid, Action, BookEvent, Order, Side, Status};
use crate::engine::error::EngineError;
use crate::engine::orders::{
    all_on_side,
    distinct_places,
    has_order_at,
    lemma_orders_map_at,
    orders_map,
    unique_prices,
    OrderTable,
};
use crate::utils::decimal::{
    add_exact,
    dec_checked_add,
    dec_checked_div,
    dec_checked_mul,
    dec_checked_sub,
    dec_eq,
    dec_lt,
    dec_round_dp,
    decimal_checked_add,
    decimal_checked_div,
    decimal_checked_mul,
    decimal_checked_sub,
    mul_exact,
    pow10,
    product_dec,
    spec_round_dp,
    sub_exact,
    Dec,
};
use crate::utils::time::decimal_text;
use vstd::prelude::*;

verus! {

/// An order marked to be cancelled.
pub open spec fn mark_cancel(o: Order) -> Order {
    Order { status: Some(Status::ToCancell), action: Some(Action::Cancel), ..o }
}

/// An order marked to be sent.
pub open spec fn mark_new(o: Order) -> Order {
    Order { status: Some(Status::New), action: Some(Action::ToBeSent), ..o }
}

/// Whether the planned order `n` stands at the price of `o`.
pub open spec fn planned_at(n: Option<Order>, o: Order) -> bool {
    n matches Some(x) && x.price@ == o.price@
}

/// The kept orders `s` after those that the plan `n` does not hold are marked to be cancelled.
pub open spec fn cancel_marked(s: Seq<Order>, n: Option<Order>) -> Seq<Order> {
    Seq::new(
        s.len(),
        |i: int|
            if planned_at(n, s[i]) {
                s[i]
            } else {
                mark_cancel(s[i])
            },
    )
}

/// The cancels that go out for the kept orders `s` that the plan `n` does not hold, in order.
pub open spec fn cancel_actions(s: Seq<Order>, n: Option<Order>) -> Seq<Order>
    decreases s.len(),
{
    if s.len() == 0 {
        s
    } else if planned_at(n, s.last()) {
        cancel_actions(s.drop_last(), n)
    } else {
        cancel_actions(s.drop_last(), n).push(mark_cancel(s.last()))
    }
}

/// Marking orders to be cancelled keeps their prices.
pub proof fn lemma_cancel_marked_prices(s: Seq<Order>, n: Option<Order>)
    ensures
        orders_map(cancel_marked(s, n)).dom() =~= orders_map(s).dom(),
{
    let t = cancel_marked(s, n);
    assert forall|k: int| #[trigger] orders_map(t).dom().contains(k) == orders_map(s).dom().contains(k) by {
        if orders_map(t).dom().contains(k) {
            let j = choose|j: int| 0 <= j < t.len() && (#[trigger] t[j]).price@ == k;
        }
        if orders_map(s).dom().contains(k) {
            let j = choose|j: int| 0 <= j < s.len() && (#[trigger] s[j]).price@ == k;
            assert(t[j].price@ == k);
        }
    }
}

/// Every cancel that goes out is marked to be cancelled.
pub proof fn lemma_cancel_actions_marked(s: Seq<Order>, n: Option<Order>)
    ensures
        forall|i: int| 0 <= i < cancel_actions(s, n).len() ==> (#[trigger] cancel_actions(s, n)[i]).action
            == Some(Action::Cancel),
    decreases s.len(),
{
    if s.len() > 0 {
        lemma_cancel_actions_marked(s.drop_last(), n);
    }
}

/// The cancels that go out for kept orders of distinct prices, all on
/// `side`, are on `side`, at distinct prices, each the price of a kept order.
pub proof fn lemma_cancel_actions_places(s: Seq<Order>, n: Option<Order>, side: Side)
    requires
        unique_prices(s),
        forall|i: int| 0 <= i < s.len() ==> (#[trigger] s[i]).side == side,
    ensures
        unique_prices(cancel_actions(s, n)),
        forall|i: int| 0 <= i < cancel_actions(s, n).len() ==> (#[trigger] cancel_actions(s, n)[i]).side == side
            && has_order_at(s, cancel_actions(s, n)[i].price@),
    decreases s.len(),
{
    if s.len() > 0 {
        let p = s.drop_last();
        assert forall|i: int| 0 <= i < p.len() implies (#[trigger] p[i]).side == side by {
            assert(p[i] == s[i]);
        }
        assert(unique_prices(p)) by {
            assert forall|a: int, b: int| 0 <= a < p.len() && 0 <= b < p.len() && a != b implies (#[trigger] p[a]).price@
                != (#[trigger] p[b]).price@ by {
                assert(p[a] == s[a] && p[b] == s[b]);
            }
        }
        lemma_cancel_actions_places(p, n, side);
        let c = cancel_actions(p, n);
        assert forall|i: int| 0 <= i < c.len() implies has_order_at(s, (#[trigger] c[i]).price@) by {
            let j = choose|j: int| 0 <= j < p.len() && (#[trigger] p[j]).price@ == c[i].price@;
            assert(s[j] == p[j]);
        }
        assert forall|i: int| 0 <= i < c.len() implies (#[trigger] c[i]).price@ != s.last().price@ by {
            let j = choose|j: int| 0 <= j < p.len() && (#[trigger] p[j]).price@ == c[i].price@;
            assert(s[j] == p[j]);
            assert(s[j].price@ != s[s.len() - 1].price@);
        }
        assert(has_order_at(s, s.last().price@)) by {
            assert(s[s.len() - 1].price@ == s.last().price@);
        }
    }
}

/// The planned order, marked to be sent, where no kept order stands at its price.
pub open spec fn new_actions(s: Seq<Order>, n: Option<Order>) -> Seq<Order> {
    match n {
        Some(x) => if orders_map(s).contains_key(x.price@) {
            Seq::empty()
        } else {
            seq![mark_new(x)]
        },
        None => Seq::empty(),
    }
}

/// The orders that the strategy plans: an ask and a bid, each where it is
/// due; `None` where the arithmetic overflows or the bid price is zero.
pub open spec fn planned_orders(
    cash: Dec,
    position: Dec,
    min_quantity: Dec,
    current_bid: Dec,
    current_ask: Dec,
    bid_oid: String,
    ask_oid: String,
) -> Option<(Option<Order>, Option<Order>)> {
    if cash@ > 0 {
        match decimal_checked_div(cash, current_bid) {
            None => None,
            Some(q) => match decimal_checked_mul(min_quantity, Dec::spec_new(10, 0)) {
                None => None,
                Some(floor) => {
                    let bid = if q@ > floor@ {
                        match decimal_checked_sub(spec_round_dp(q, 5), Dec::spec_new(1, 5)) {
                            None => None,
                            Some(size) => Some(
                                Some(
                                    Order {
                                        order_id: None,
                                        trade_id: None,
                                        client_oid: Some(bid_oid),
                                        price: current_bid,
                                        size: size,
                                        side: Side::Bid,
                                        action: Some(Action::ToBeSent),
                                        status: None,
                                        timstamp: None,
                                    },
                                ),
                            ),
                        }
                    } else {
                        Some(None)
                    };
                    match bid {
                        None => None,
                        Some(bid) => {
                            let ask = if position@ > min_quantity@ {
                                Some(
                                    Order {
                                        order_id: None,
                                        trade_id: None,
                                        client_oid: Some(ask_oid),
                                        price: current_ask,
                                        size: spec_round_dp(position, 5),
                                        side: Side::Ask,
                                        action: None,
                                        status: None,
                                        timstamp: None,
                                    },
                                )
                            } else {
                                None
                            };
                            Some((ask, bid))
                        },
                    }
                },
            },
        }
    } else {
        Some((None, None))
    }
}

/// Whether the strategy acts on a top of the book.  (The ask price is held
/// against the bid size, as the strategy has always done.)
pub open spec fn signal_spec(book_event: BookEvent, cash: Dec, position: Dec) -> bool {
    book_event.ask_price@ > book_event.bid_size@ && (cash@ > 0 || position@ > 0)
}

/// What a report with status `st` (other than a fill) at price value `k`
/// does to the kept orders `m` of its side; an error where no order is kept
/// there and the status asks for one.
pub open spec fn sync_status(m: Map<int, Order>, exec: Order, st: Status) -> Result<
    Map<int, Order>,
    EngineError,
> {
    let k = exec.price@;
    if st == Status::Acked || st == Status::Rejected || st == Status::Modified || st
        == Status::Cancelled {
        if !m.contains_key(k) {
            Err(EngineError::UnknownOrder)
        } else {
            let o = m[k];
            if st == Status::Acked {
                Ok(m.insert(k, Order { status: Some(Status::Acked), action: Some(Action::NoAction), ..o }))
            } else if st == Status::Rejected {
                if o.action == Some(Action::ToBeSent) {
                    Ok(m.remove(k))
                } else if o.status == Some(Status::ToModify) || o.status == Some(Status::ToCancell) {
                    Ok(m.insert(k, Order { status: Some(Status::Rejected), action: Some(Action::NoAction), ..o }))
                } else {
                    Ok(m)
                }
            } else if st == Status::Modified {
                Ok(m.insert(k, Order { status: Some(Status::Modified), action: Some(Action::NoAction), size: exec.size, ..o }))
            } else {
                if o.action == Some(Action::Cancel) {
                    Ok(m.remove(k))
                } else {
                    Ok(m)
                }
            }
        }
    } else {
        Ok(m)
    }
}

/// The signed quantity that a fill adds to the position: its size for a
/// bid, its size taken from zero for an ask; `None` on overflow.
pub open spec fn fill_quantity(o: Order, exec: Order) -> Option<Dec> {
    if o.side == Side::Bid {
        Some(exec.size)
    } else {
        decimal_checked_sub(Dec::spec_zero(), exec.size)
    }
}

/// The value of a fill: the signed quantity times the price of the kept order.
pub open spec fn fill_value(o: Order, exec: Order) -> Option<Dec> {
    match fill_quantity(o, exec) {
        Some(p) => decimal_checked_mul(p, o.price),
        None => None,
    }
}

/// What a fill at price value `k` does: the kept orders of its side, the
/// position, the profit and the cash after it.
pub open spec fn settle_fill(m: Map<int, Order>, exec: Order, position: Dec, pnl: Dec, cash: Dec) -> Result<
    (Map<int, Order>, Dec, Dec, Dec),
    EngineError,
> {
    let k = exec.price@;
    if !m.contains_key(k) {
        Err(EngineError::UnknownOrder)
    } else {
        let o = m[k];
        match decimal_checked_sub(o.size, exec.size) {
            None => Err(EngineError::Overflow),
            Some(rest) => {
                let m2 = if rest@ == 0 {
                    m.remove(k)
                } else {
                    m.insert(k, Order { size: rest, ..o })
                };
                match fill_quantity(o, exec) {
                    None => Err(EngineError::Overflow),
                    Some(p) => match (decimal_checked_add(position, p), decimal_checked_mul(p, o.price)) {
                        (Some(np), Some(v)) => match (decimal_checked_sub(pnl, v), decimal_checked_sub(cash, v)) {
                            (Some(npnl), Some(ncash)) => Ok((m2, np, npnl, ncash)),
                            _ => Err(EngineError::Overflow),
                        },
                        _ => Err(EngineError::Overflow),
                    },
                }
            },
        }
    }
}

/// Applies a report other than a fill to the kept orders of its side.
fn sync_table(table: &mut OrderTable, exec: &Order, st: Status) -> (r: Result<(), EngineError>)
    ensures
        match sync_status(old(table)@, *exec, st) {
            Ok(m) => r == Ok::<(), EngineError>(()) && final(table)@ == m,
            Err(e) => r == Err::<(), EngineError>(e) && final(table)@ == old(table)@,
        },
{
    if st == Status::Acked || st == Status::Rejected || st == Status::Modified || st
        == Status::Cancelled {
        let mut order = match table.get(&exec.price) {
            Some(o) => o,
            None => {
                return Err(EngineError::UnknownOrder);
            },
        };
        if st == Status::Acked {
            order.status = Some(Status::Acked);
            order.action = Some(Action::NoAction);
            table.insert(order);
        } else if st == Status::Rejected {
            if order.action == Some(Action::ToBeSent) {
                table.remove(&exec.price);
            } else if order.status == Some(Status::ToModify) || order.status == Some(Status::ToCancell) {
                order.status = Some(Status::Rejected);
                order.action = Some(Action::NoAction);
                table.insert(order);
            }
        } else if st == Status::Modified {
            order.status = Some(Status::Modified);
            order.action = Some(Action::NoAction);
            order.size = exec.size;
            table.insert(order);
        } else {
            if order.action == Some(Action::Cancel) {
                table.remove(&exec.price);
            }
        }
    }
    Ok(())
}

/// The strategy.
pub struct TradingStrategy {
    pub ask_orders: OrderTable,
    pub bid_orders: OrderTable,
    pub position: Dec,
    pub pnl: Dec,
    pub cash: Dec,
    pub current_bid: Dec,
    pub current_ask: Dec,
    pub min_quantity: Dec,
}

/// Marks the kept orders that the plan does not hold to be cancelled, and
/// appends the cancels to `actions`.
fn cancel_unplanned(table: &mut OrderTable, planned: &Option<Order>, actions: &mut Vec<Order>)
    ensures
        final(table).seq() == cancel_marked(old(table).seq(), *planned),
        final(actions)@ == old(actions)@ + cancel_actions(old(table).seq(), *planned),
        final(table)@.dom() == old(table)@.dom(),
{
    let ghost s = table.seq();
    let ghost a0 = actions@;
    let n = table.len();
    let mut i: usize = 0;
    while i < n
        invariant
            n == s.len(),
            i <= n,
            table.seq().len() == n,
            forall|j: int| 0 <= j < i ==> table.seq()[j] == cancel_marked(s, *planned)[j],
            forall|j: int| i <= j < n ==> table.seq()[j] == s[j],
            actions@ == a0 + cancel_actions(s.take(i as int), *planned),
        decreases n - i,
    {
        let order = table.at(i).clone();
        proof {
            assert(s.take(i + 1).drop_last() =~= s.take(i as int));
        }
        let keep = match planned {
            Some(x) => dec_eq(&x.price, &order.price),
            None => false,
        };
        if !keep {
            let mut order = order;
            order.status = Some(Status::ToCancell);
            order.action = Some(Action::Cancel);
            table.replace_at(i, order.clone());
            actions.push(order);
        }
        i = i + 1;
    }
    proof {
        assert(s.take(n as int) =~= s);
        lemma_cancel_marked_prices(s, *planned);
    }
}

/// Applies a fill to the kept orders of its side; returns the position, the
/// profit and the cash after it.  On an error the orders are unchanged.
fn settle(table: &mut OrderTable, exec: &Order, position: Dec, pnl: Dec, cash: Dec) -> (r: Result<
    (Dec, Dec, Dec),
    EngineError,
>)
    ensures
        match settle_fill(old(table)@, *exec, position, pnl, cash) {
            Ok((m, np, npnl, ncash)) => r == Ok::<(Dec, Dec, Dec), EngineError>((np, npnl, ncash))
                && final(table)@ == m,
            Err(e) => r == Err::<(Dec, Dec, Dec), EngineError>(e) && final(table)@ == old(table)@,
        },
        // a fill of the whole order takes it away
        r is Ok && old(table)@[exec.price@].size@ == exec.size@ ==> !final(table)@.contains_key(exec.price@),
        // the fill moves the position by its signed quantity, when the sum is exact
        r is Ok && fill_quantity(old(table)@[exec.price@], *exec) is Some && add_exact(
            position,
            fill_quantity(old(table)@[exec.price@], *exec).unwrap(),
        ) ==> (r->Ok_0).0@ == position@ + fill_quantity(old(table)@[exec.price@], *exec).unwrap()@,
        // the fill takes the same value from the profit as from the cash, when
        // the differences are exact
        r is Ok && fill_value(old(table)@[exec.price@], *exec) is Some && sub_exact(
            pnl,
            fill_value(old(table)@[exec.price@], *exec).unwrap(),
        ) && sub_exact(cash, fill_value(old(table)@[exec.price@], *exec).unwrap()) ==> (r->Ok_0).2@
            - (r->Ok_0).1@ == cash@ - pnl@,
        // a fill of a bid buys: the position rises by the size, and the cost
        // (size times price) comes out of the profit and the cash, when exact
        r is Ok && old(table)@[exec.price@].side == Side::Bid && add_exact(position, exec.size) ==> (r->Ok_0).0@
            == position@ + exec.size@,
        r is Ok && old(table)@[exec.price@].side == Side::Bid && mul_exact(exec.size, old(table)@[exec.price@].price)
            && sub_exact(pnl, product_dec(exec.size, old(table)@[exec.price@].price)) ==> (r->Ok_0).1@ * pow10(28)
            == pnl@ * pow10(28) - exec.size@ * old(table)@[exec.price@].price@,
        r is Ok && old(table)@[exec.price@].side == Side::Bid && mul_exact(exec.size, old(table)@[exec.price@].price)
            && sub_exact(cash, product_dec(exec.size, old(table)@[exec.price@].price)) ==> (r->Ok_0).2@ * pow10(28)
            == cash@ * pow10(28) - exec.size@ * old(table)@[exec.price@].price@,
        // a fill of an ask sells: the position falls by the size, and the
        // proceeds go to the profit and the cash, when exact
        r is Ok && old(table)@[exec.price@].side != Side::Bid && sub_exact(position, exec.size) ==> (r->Ok_0).0@
            == position@ - exec.size@,
        r is Ok && old(table)@[exec.price@].side != Side::Bid && mul_exact(exec.size, old(table)@[exec.price@].price)
            && add_exact(pnl, product_dec(exec.size, old(table)@[exec.price@].price)) ==> (r->Ok_0).1@ * pow10(28)
            == pnl@ * pow10(28) + exec.size@ * old(table)@[exec.price@].price@,
        r is Ok && old(table)@[exec.price@].side != Side::Bid && mul_exact(exec.size, old(table)@[exec.price@].price)
            && add_exact(cash, product_dec(exec.size, old(table)@[exec.price@].price)) ==> (r->Ok_0).2@ * pow10(28)
            == cash@ * pow10(28) + exec.size@ * old(table)@[exec.price@].price@,
{
    proof {
        use_type_invariant(&exec.size);
    }
    let order = match table.get(&exec.price) {
        Some(o) => o,
        None => {
            return Err(EngineError::UnknownOrder);
        },
    };
    let rest = match dec_checked_sub(order.size, exec.size) {
        Some(x) => x,
        None => {
            return Err(EngineError::Overflow);
        },
    };
    proof {
        if order.size@ == exec.size@ {
            use_type_invariant(&order.size);
            use_type_invariant(&exec.size);
            Dec::lemma_sub_equal_exact(order.size, exec.size);
        }
    }
    let p = if order.side == Side::Bid {
        exec.size
    } else {
        match dec_checked_sub(Dec::zero(), exec.size) {
            Some(x) => x,
            None => {
                return Err(EngineError::Overflow);
            },
        }
    };
    proof {
        if order.side != Side::Bid {
            Dec::lemma_neg_parts(exec.size);
            if mul_exact(exec.size, order.price) {
                Dec::lemma_product_neg(exec.size, order.price);
            }
        }
    }
    let np = match dec_checked_add(position, p) {
        Some(x) => x,
        None => {
            return Err(EngineError::Overflow);
        },
    };
    let v = match dec_checked_mul(p, order.price) {
        Some(x) => x,
        None => {
            return Err(EngineError::Overflow);
        },
    };
    let npnl = match dec_checked_sub(pnl, v) {
        Some(x) => x,
        None => {
            return Err(EngineError::Overflow);
        },
    };
    let ncash = match dec_checked_sub(cash, v) {
        Some(x) => x,
        None => {
            return Err(EngineError::Overflow);
        },
    };
    proof {
        if order.side != Side::Bid && mul_exact(exec.size, order.price) && add_exact(
            cash,
            product_dec(exec.size, order.price),
        ) {
            assert(ncash@ * pow10(28) == cash@ * pow10(28) + exec.size@ * order.price@) by (nonlinear_arith)
                requires
                    ncash@ == cash@ - v@,
                    v@ * pow10(28) == p@ * order.price@,
                    p@ == -exec.size@,
            ;
        }
        if order.side != Side::Bid && mul_exact(exec.size, order.price) && add_exact(
            pnl,
            product_dec(exec.size, order.price),
        ) {
            assert(npnl@ * pow10(28) == pnl@ * pow10(28) + exec.size@ * order.price@) by (nonlinear_arith)
                requires
                    npnl@ == pnl@ - v@,
                    v@ * pow10(28) == p@ * order.price@,
                    p@ == -exec.size@,
            ;
        }
        if order.side == Side::Bid && mul_exact(exec.size, order.price) && sub_exact(
            cash,
            product_dec(exec.size, order.price),
        ) {
            assert(ncash@ * pow10(28) == cash@ * pow10(28) - exec.size@ * order.price@) by (nonlinear_arith)
                requires
                    ncash@ == cash@ - v@,
                    v@ * pow10(28) == exec.size@ * order.price@,
            ;
        }
        if order.side == Side::Bid && mul_exact(exec.size, order.price) && sub_exact(
            pnl,
            product_dec(exec.size, order.price),
        ) {
            assert(npnl@ * pow10(28) == pnl@ * pow10(28) - exec.size@ * order.price@) by (nonlinear_arith)
                requires
                    npnl@ == pnl@ - v@,
                    v@ * pow10(28) == exec.size@ * order.price@,
            ;
        }
    }
    if dec_eq(&rest, &Dec::zero()) {
        table.remove(&exec.price);
    } else {
        let mut order = order;
        order.size = rest;
        table.insert(order);
    }
    Ok((np, npnl, ncash))
}

impl TradingStrategy {
    /// A strategy with 100 in cash, no position, no order and no profit yet.
    pub fn new() -> (r: TradingStrategy)
        ensures
            r.ask_orders@ == Map::<int, Order>::empty(),
            r.bid_orders@ == Map::<int, Order>::empty(),
            r.position == Dec::spec_zero(),
            r.pnl == Dec::spec_zero(),
            r.cash == Dec::spec_new(100, 0),
            r.current_bid == Dec::spec_zero(),
            r.current_ask == Dec::spec_zero(),
            r.position@ == 0,
            r.pnl@ == 0,
            r.cash@ == 100 * pow10(28),
            r.current_bid@ == 0,
            r.current_ask@ == 0,
            r.min_quantity == Dec::spec_new(1, 5),
    {
        TradingStrategy {
            ask_orders: OrderTable::new(),
            bid_orders: OrderTable::new(),
            position: Dec::zero(),
            pnl: Dec::zero(),
            cash: Dec::from_int(100),
            current_bid: Dec::zero(),
            current_ask: Dec::zero(),
            min_quantity: Dec::new(1, 5),
        }
    }

    fn signal(&self, book_event: &BookEvent) -> (r: bool)
        ensures
            r == signal_spec(*book_event, self.cash, self.position),
    {
        let zero = Dec::zero();
        if dec_lt(&book_event.bid_size, &book_event.ask_price) {
            if dec_lt(&zero, &self.cash) || dec_lt(&zero, &self.position) {
                return true;
            }
        }
        false
    }

    /// Plans an ask and a bid (see `planned_orders`).
    fn create_orders(&self, bid_oid: String, ask_oid: String) -> (r: Option<
        (Option<Order>, Option<Order>),
    >)
        ensures
            r == planned_orders(
                self.cash,
                self.position,
                self.min_quantity,
                self.current_bid,
                self.current_ask,
                bid_oid,
                ask_oid,
            ),
    {
        let zero = Dec::zero();
        if !dec_lt(&zero, &self.cash) {
            return Some((None, None));
        }
        let q = match dec_checked_div(self.cash, self.current_bid) {
            Some(q) => q,
            None => {
                return None;
            },
        };
        let floor = match dec_checked_mul(self.min_quantity, Dec::new(10, 0)) {
            Some(f) => f,
            None => {
                return None;
            },
        };
        let bid = if dec_lt(&floor, &q) {
            match dec_checked_sub(dec_round_dp(q, 5), Dec::new(1, 5)) {
                Some(size) => Some(
                    Order {
                        order_id: None,
                        trade_id: None,
                        client_oid: Some(bid_oid),
                        price: self.current_bid,
                        size: size,
                        side: Side::Bid,
                        action: Some(Action::ToBeSent),
                        status: None,
                        timstamp: None,
                    },
                ),
                None => {
                    return None;
                },
            }
        } else {
            None
        };
        let ask = if dec_lt(&self.min_quantity, &self.position) {
            Some(
                Order {
                    order_id: None,
                    trade_id: None,
                    client_oid: Some(ask_oid),
                    price: self.current_ask,
                    size: dec_round_dp(self.position, 5),
                    side: Side::Ask,
                    action: None,
                    status: None,
                    timstamp: None,
                },
            )
        } else {
            None
        };
        Some((ask, bid))
    }

    /// Turns the plan into orders to send: kept orders that the plan does not
    /// hold are marked and sent to be cancelled (asks, then bids); planned
    /// orders where no order is kept are kept and sent as new (ask, then bid).
    fn merge_orders(&mut self, ask_order: Option<Order>, bid_order: Option<Order>) -> (r: Option<
        Vec<Order>,
    >)
        ensures
            r matches Some(actions) && actions@ == cancel_actions(old(self).ask_orders.seq(), ask_order)
                + cancel_actions(old(self).bid_orders.seq(), bid_order) + new_actions(
                old(self).ask_orders.seq(),
                ask_order,
            ) + new_actions(old(self).bid_orders.seq(), bid_order),
            final(self).ask_orders.seq() == cancel_marked(old(self).ask_orders.seq(), ask_order)
                + new_actions(old(self).ask_orders.seq(), ask_order),
            final(self).bid_orders.seq() == cancel_marked(old(self).bid_orders.seq(), bid_order)
                + new_actions(old(self).bid_orders.seq(), bid_order),
            final(self).position == old(self).position,
            final(self).pnl == old(self).pnl,
            final(self).cash == old(self).cash,
            final(self).current_bid == old(self).current_bid,
            final(self).current_ask == old(self).current_ask,
            final(self).min_quantity == old(self).min_quantity,
    {
        let mut action_orders: Vec<Order> = Vec::new();
        let ghost asks0 = self.ask_orders.seq();
        let ghost bids0 = self.bid_orders.seq();
        cancel_unplanned(&mut self.ask_orders, &ask_order, &mut action_orders);
        cancel_unplanned(&mut self.bid_orders, &bid_order, &mut action_orders);
        if let Some(order) = ask_order {
            if !self.ask_orders.contains(&order.price) {
                let mut order = order;
                order.status = Some(Status::New);
                order.action = Some(Action::ToBeSent);
                self.ask_orders.insert(order.clone());
                action_orders.push(order);
            }
        }
        if let Some(order) = bid_order {
            if !self.bid_orders.contains(&order.price) {
                let mut order = order;
                order.status = Some(Status::New);
                order.action = Some(Action::ToBeSent);
                self.bid_orders.insert(order.clone());
                action_orders.push(order);
            }
        }
        proof {
            lemma_cancel_marked_prices(asks0, ask_order);
            lemma_cancel_marked_prices(bids0, bid_order);
            assert(self.ask_orders.seq() =~= cancel_marked(asks0, ask_order) + new_actions(
                asks0,
                ask_order,
            ));
            assert(self.bid_orders.seq() =~= cancel_marked(bids0, bid_order) + new_actions(
                bids0,
                bid_order,
            ));
        }
        Some(action_orders)
    }

    /// Applies an execution report to the kept orders of its side and, for a
    /// fill, to the position, the profit and the cash (see `sync_status` and
    /// `settle_fill`).  A report without status is an error; on an error
    /// nothing changes.
    fn sync_order(&mut self, exec_order: Order) -> (r: Result<(), EngineError>)
        ensures
            final(self).current_bid == old(self).current_bid,
            final(self).current_ask == old(self).current_ask,
            final(self).min_quantity == old(self).min_quantity,
            sync_post(*old(self), *final(self), exec_order, r),
    {
        let st = match exec_order.status {
            Some(st) => st,
            None => {
                return Err(EngineError::MissingStatus);
            },
        };
        if st == Status::Filled {
            let res = if exec_order.side == Side::Ask {
                settle(&mut self.ask_orders, &exec_order, self.position, self.pnl, self.cash)
            } else {
                settle(&mut self.bid_orders, &exec_order, self.position, self.pnl, self.cash)
            };
            match res {
                Ok((np, npnl, ncash)) => {
                    self.position = np;
                    self.pnl = npnl;
                    self.cash = ncash;
                    Ok(())
                },
                Err(e) => Err(e),
            }
        } else if exec_order.side == Side::Ask {
            sync_table(&mut self.ask_orders, &exec_order, st)
        } else {
            sync_table(&mut self.bid_orders, &exec_order, st)
        }
    }

    /// Takes a top of the book with the client order ids for a new bid and a
    /// new ask: records the best prices and, where the strategy acts on it,
    /// plans its orders and returns those to send (see `merge_orders`).  A
    /// plan whose arithmetic fails (a zero bid price among others) is an error.
    pub fn handle_book_event_with_oids(&mut self, book_event: BookEvent, bid_oid: String, ask_oid: String) -> (r: Result<
        Option<Vec<Order>>,
        EngineError,
    >)
        ensures
            final(self).current_bid == book_event.bid_price,
            final(self).current_ask == book_event.ask_price,
            final(self).position == old(self).position,
            final(self).pnl == old(self).pnl,
            final(self).cash == old(self).cash,
            final(self).min_quantity == old(self).min_quantity,
            !signal_spec(book_event, old(self).cash, old(self).position) ==> r == Ok::<Option<Vec<Order>>, EngineError>(None)
                && final(self).ask_orders.seq() == old(self).ask_orders.seq()
                && final(self).bid_orders.seq() == old(self).bid_orders.seq(),
            signal_spec(book_event, old(self).cash, old(self).position) ==> match planned_orders(
                old(self).cash,
                old(self).position,
                old(self).min_quantity,
                book_event.bid_price,
                book_event.ask_price,
                bid_oid,
                ask_oid,
            ) {
                None => r == Err::<Option<Vec<Order>>, EngineError>(EngineError::Overflow)
                    && final(self).ask_orders.seq() == old(self).ask_orders.seq()
                    && final(self).bid_orders.seq() == old(self).bid_orders.seq(),
                Some((ask, bid)) => r matches Ok(Some(actions))
                    && actions@ == cancel_actions(old(self).ask_orders.seq(), ask)
                    + cancel_actions(old(self).bid_orders.seq(), bid) + new_actions(old(self).ask_orders.seq(), ask)
                    + new_actions(old(self).bid_orders.seq(), bid)
                    && final(self).ask_orders.seq() == cancel_marked(old(self).ask_orders.seq(), ask)
                    + new_actions(old(self).ask_orders.seq(), ask)
                    && final(self).bid_orders.seq() == cancel_marked(old(self).bid_orders.seq(), bid)
                    + new_actions(old(self).bid_orders.seq(), bid),
            },
    {
        self.current_bid = book_event.bid_price;
        self.current_ask = book_event.ask_price;
        if self.signal(&book_event) {
            match self.create_orders(bid_oid, ask_oid) {
                Some((ask_orders, bid_orders)) => Ok(self.merge_orders(ask_orders, bid_orders)),
                None => Err(EngineError::Overflow),
            }
        } else {
            Ok(None)
        }
    }

    /// Takes a top of the book (see `handle_book_event_with_oids`); the new
    /// bid and the new ask get client order ids made from "okex" and the clock.
    pub fn handle_book_event(&mut self, book_event: BookEvent) -> (r: Result<
        Option<Vec<Order>>,
        EngineError,
    >)
        ensures
            ts_event_post(*old(self), *final(self), book_event, r),
    {
        let bid_oid = get_oid("okex");
        let ask_oid = get_oid("okex");
        let r = self.handle_book_event_with_oids(book_event, bid_oid, ask_oid);
        assert(book_event_post(*old(self), *self, book_event, bid_oid, ask_oid, r));
        r
    }

    /// Applies an execution report (see `sync_status` and `settle_fill`); an
    /// error where the cash is below zero after it.
    pub fn handle_market_response(&mut self, order_exec: Order) -> (r: Result<(), EngineError>)
        ensures
            ts_response_post(*old(self), *final(self), order_exec, r),
    {
        let s = self.sync_order(order_exec);
        match s {
            Ok(()) => {
                if dec_lt(&self.cash, &Dec::zero()) {
                    Err(EngineError::NegativeCash)
                } else {
                    Ok(())
                }
            },
            Err(e) => Err(e),
        }
    }

    /// The profit: what has been made plus the position valued at the middle
    /// of the best prices; an error where the arithmetic overflows.
    pub fn get_pnl(&self) -> (r: Result<Dec, EngineError>)
        ensures
            r == match decimal_checked_add(self.current_bid, self.current_ask) {
                Some(sum) => match decimal_checked_mul(self.position, sum) {
                    Some(value) => match decimal_checked_div(value, Dec::spec_new(2, 0)) {
                        Some(mid) => match decimal_checked_add(self.pnl, mid) {
                            Some(total) => Ok(total),
                            None => Err(EngineError::Overflow),
                        },
                        None => Err(EngineError::Overflow),
                    },
                    None => Err(EngineError::Overflow),
                },
                None => Err(EngineError::Overflow),
            },
    {
        let sum = match dec_checked_add(self.current_bid, self.current_ask) {
            Some(x) => x,
            None => {
                return Err(EngineError::Overflow);
            },
        };
        let value = match dec_checked_mul(self.position, sum) {
            Some(x) => x,
            None => {
                return Err(EngineError::Overflow);
            },
        };
        let mid = match dec_checked_div(value, Dec::new(2, 0)) {
            Some(x) => x,
            None => {
                return Err(EngineError::Overflow);
            },
        };
        match dec_checked_add(self.pnl, mid) {
            Some(x) => Ok(x),
            None => Err(EngineError::Overflow),
        }
    }
}

/// What `handle_book_event_with_oids` states of the strategy before and after it.
pub open spec fn book_event_post(
    pre: TradingStrategy,
    post: TradingStrategy,
    book_event: BookEvent,
    bid_oid: String,
    ask_oid: String,
    r: Result<Option<Vec<Order>>, EngineError>,
) -> bool {
    &&& post.current_bid == book_event.bid_price
    &&& post.current_ask == book_event.ask_price
    &&& post.position == pre.position
    &&& post.pnl == pre.pnl
    &&& post.cash == pre.cash
    &&& post.min_quantity == pre.min_quantity
    &&& !signal_spec(book_event, pre.cash, pre.position) ==> r == Ok::<Option<Vec<Order>>, EngineError>(None)
        && post.ask_orders.seq() == pre.ask_orders.seq()
        && post.bid_orders.seq() == pre.bid_orders.seq()
    &&& signal_spec(book_event, pre.cash, pre.position) ==> match planned_orders(
        pre.cash,
        pre.position,
        pre.min_quantity,
        book_event.bid_price,
        book_event.ask_price,
        bid_oid,
        ask_oid,
    ) {
        None => r == Err::<Option<Vec<Order>>, EngineError>(EngineError::Overflow)
            && post.ask_orders.seq() == pre.ask_orders.seq()
            && post.bid_orders.seq() == pre.bid_orders.seq(),
        Some((ask, bid)) => r matches Ok(Some(actions))
            && actions@ == cancel_actions(pre.ask_orders.seq(), ask)
            + cancel_actions(pre.bid_orders.seq(), bid) + new_actions(pre.ask_orders.seq(), ask)
            + new_actions(pre.bid_orders.seq(), bid)
            && post.ask_orders.seq() == cancel_marked(pre.ask_orders.seq(), ask)
            + new_actions(pre.ask_orders.seq(), ask)
            && post.bid_orders.seq() == cancel_marked(pre.bid_orders.seq(), bid)
            + new_actions(pre.bid_orders.seq(), bid),
    }
}

/// Every order that the strategy sends on a top of the book is either a new
/// order marked to be sent or a kept order marked to be cancelled.
pub proof fn lemma_sent_orders_marked(
    pre: TradingStrategy,
    post: TradingStrategy,
    book_event: BookEvent,
    r: Result<Option<Vec<Order>>, EngineError>,
    actions: Vec<Order>,
)
    requires
        ts_event_post(pre, post, book_event, r),
        r == Ok::<Option<Vec<Order>>, EngineError>(Some(actions)),
    ensures
        forall|i: int| 0 <= i < actions@.len() ==> (#[trigger] actions@[i]).action == Some(Action::ToBeSent)
            || actions@[i].action == Some(Action::Cancel),
{
    let (bid_oid, ask_oid) = choose|bid_oid: String, ask_oid: String|
        (exists|n: i64| bid_oid@ == "okex"@ + decimal_text(n as int))
        && (exists|n: i64| ask_oid@ == "okex"@ + decimal_text(n as int))
        && book_event_post(pre, post, book_event, bid_oid, ask_oid, r);
    let planned = planned_orders(
        pre.cash,
        pre.position,
        pre.min_quantity,
        book_event.bid_price,
        book_event.ask_price,
        bid_oid,
        ask_oid,
    );
    if let Some((ask, bid)) = planned {
        lemma_cancel_actions_marked(pre.ask_orders.seq(), ask);
        lemma_cancel_actions_marked(pre.bid_orders.seq(), bid);
        let c1 = cancel_actions(pre.ask_orders.seq(), ask);
        let c2 = cancel_actions(pre.bid_orders.seq(), bid);
        let n1 = new_actions(pre.ask_orders.seq(), ask);
        let n2 = new_actions(pre.bid_orders.seq(), bid);
        assert forall|i: int| 0 <= i < actions@.len() implies (#[trigger] actions@[i]).action == Some(
            Action::ToBeSent,
        ) || actions@[i].action == Some(Action::Cancel) by {
            if i < c1.len() {
                assert(actions@[i] == c1[i]);
            } else if i < c1.len() + c2.len() {
                assert(actions@[i] == c2[i - c1.len()]);
            } else if i < c1.len() + c2.len() + n1.len() {
                assert(actions@[i] == n1[i - c1.len() - c2.len()]);
            } else {
                assert(actions@[i] == n2[i - c1.len() - c2.len() - n1.len()]);
            }
        }
    }
}

/// Orders all on one side make a map of orders all on that side.
proof fn lemma_map_on_side(s: Seq<Order>, side: Side)
    requires
        forall|i: int| 0 <= i < s.len() ==> (#[trigger] s[i]).side == side,
    ensures
        all_on_side(orders_map(s), side),
{
    assert forall|k: int| orders_map(s).contains_key(k) implies (#[trigger] orders_map(s)[k]).side == side by {
        let i = choose|i: int| 0 <= i < s.len() && (#[trigger] s[i]).price@ == k;
    }
}

/// The orders of a sequence of distinct prices whose map holds only orders
/// on one side are all on that side.
proof fn lemma_seq_on_side(s: Seq<Order>, side: Side)
    requires
        unique_prices(s),
        all_on_side(orders_map(s), side),
    ensures
        forall|i: int| 0 <= i < s.len() ==> (#[trigger] s[i]).side == side,
{
    assert forall|i: int| 0 <= i < s.len() implies (#[trigger] s[i]).side == side by {
        lemma_orders_map_at(s, i);
    }
}

/// Taking a top of the book keeps the strategy's asks among its asks and its
/// bids among its bids.
pub proof fn lemma_event_keeps_sides(
    pre: TradingStrategy,
    post: TradingStrategy,
    book_event: BookEvent,
    r: Result<Option<Vec<Order>>, EngineError>,
)
    requires
        unique_prices(pre.ask_orders.seq()),
        unique_prices(pre.bid_orders.seq()),
        all_on_side(pre.ask_orders@, Side::Ask),
        all_on_side(pre.bid_orders@, Side::Bid),
        ts_event_post(pre, post, book_event, r),
    ensures
        all_on_side(post.ask_orders@, Side::Ask),
        all_on_side(post.bid_orders@, Side::Bid),
{
    let (bid_oid, ask_oid) = choose|bid_oid: String, ask_oid: String|
        (exists|n: i64| bid_oid@ == "okex"@ + decimal_text(n as int))
        && (exists|n: i64| ask_oid@ == "okex"@ + decimal_text(n as int))
        && book_event_post(pre, post, book_event, bid_oid, ask_oid, r);
    let asks = pre.ask_orders.seq();
    let bids = pre.bid_orders.seq();
    lemma_seq_on_side(asks, Side::Ask);
    lemma_seq_on_side(bids, Side::Bid);
    if signal_spec(book_event, pre.cash, pre.position) {
        let planned = planned_orders(
            pre.cash,
            pre.position,
            pre.min_quantity,
            book_event.bid_price,
            book_event.ask_price,
            bid_oid,
            ask_oid,
        );
        if let Some((ask, bid)) = planned {
            let a = cancel_marked(asks, ask) + new_actions(asks, ask);
            let b = cancel_marked(bids, bid) + new_actions(bids, bid);
            assert forall|i: int| 0 <= i < a.len() implies (#[trigger] a[i]).side == Side::Ask by {
                if i < asks.len() {
                    assert(a[i] == cancel_marked(asks, ask)[i]);
                }
            }
            assert forall|i: int| 0 <= i < b.len() implies (#[trigger] b[i]).side == Side::Bid by {
                if i < bids.len() {
                    assert(b[i] == cancel_marked(bids, bid)[i]);
                }
            }
            lemma_map_on_side(a, Side::Ask);
            lemma_map_on_side(b, Side::Bid);
        }
    }
}

/// Applying an execution report keeps the strategy's asks among its asks
/// and its bids among its bids.
pub proof fn lemma_response_keeps_sides(pre: TradingStrategy, post: TradingStrategy, exec: Order, r: Result<(), EngineError>)
    requires
        all_on_side(pre.ask_orders@, Side::Ask),
        all_on_side(pre.bid_orders@, Side::Bid),
        ts_response_post(pre, post, exec, r),
    ensures
        all_on_side(post.ask_orders@, Side::Ask),
        all_on_side(post.bid_orders@, Side::Bid),
{
    let s = choose|s: Result<(), EngineError>| sync_post(pre, post, exec, s)
        && r == (match s {
            Ok(()) => if post.cash@ < 0 {
                Err(EngineError::NegativeCash)
            } else {
                Ok(())
            },
            Err(e) => Err(e),
        });
}

/// No two orders that the strategy sends on a top of the book stand on the
/// same side at the same price.
pub proof fn lemma_sent_orders_places(
    pre: TradingStrategy,
    post: TradingStrategy,
    book_event: BookEvent,
    r: Result<Option<Vec<Order>>, EngineError>,
    actions: Vec<Order>,
)
    requires
        unique_prices(pre.ask_orders.seq()),
        unique_prices(pre.bid_orders.seq()),
        all_on_side(pre.ask_orders@, Side::Ask),
        all_on_side(pre.bid_orders@, Side::Bid),
        ts_event_post(pre, post, book_event, r),
        r == Ok::<Option<Vec<Order>>, EngineError>(Some(actions)),
    ensures
        distinct_places(actions@),
{
    let (bid_oid, ask_oid) = choose|bid_oid: String, ask_oid: String|
        (exists|n: i64| bid_oid@ == "okex"@ + decimal_text(n as int))
        && (exists|n: i64| ask_oid@ == "okex"@ + decimal_text(n as int))
        && book_event_post(pre, post, book_event, bid_oid, ask_oid, r);
    let asks = pre.ask_orders.seq();
    let bids = pre.bid_orders.seq();
    lemma_seq_on_side(asks, Side::Ask);
    lemma_seq_on_side(bids, Side::Bid);
    let planned = planned_orders(
        pre.cash,
        pre.position,
        pre.min_quantity,
        book_event.bid_price,
        book_event.ask_price,
        bid_oid,
        ask_oid,
    );
    let (ask, bid) = planned.unwrap();
    lemma_cancel_actions_places(asks, ask, Side::Ask);
    lemma_cancel_actions_places(bids, bid, Side::Bid);
    let c1 = cancel_actions(asks, ask);
    let c2 = cancel_actions(bids, bid);
    let n1 = new_actions(asks, ask);
    let n2 = new_actions(bids, bid);
    let a = actions@;
    assert(a == c1 + c2 + n1 + n2);
    // the new ask and the new bid stand where no kept order of their side does
    assert forall|i: int| 0 <= i < n1.len() implies (#[trigger] n1[i]).side == Side::Ask && !has_order_at(asks, n1[i].price@) by {
        assert(orders_map(asks).contains_key(n1[i].price@) == has_order_at(asks, n1[i].price@));
    }
    assert forall|i: int| 0 <= i < n2.len() implies (#[trigger] n2[i]).side == Side::Bid && !has_order_at(bids, n2[i].price@) by {
        assert(orders_map(bids).contains_key(n2[i].price@) == has_order_at(bids, n2[i].price@));
    }
    assert forall|i: int, j: int|
        0 <= i < a.len() && 0 <= j < a.len() && i != j && a[i].side == a[j].side implies (#[trigger] a[i]).price@
            != (#[trigger] a[j]).price@ by {
        let l1 = c1.len() as int;
        let l2 = l1 + c2.len();
        let l3 = l2 + n1.len();
        if i < l1 && j < l1 {
            assert(a[i] == c1[i] && a[j] == c1[j]);
        } else if i < l1 && l2 <= j < l3 {
            assert(a[i] == c1[i] && a[j] == n1[j - l2]);
        } else if j < l1 && l2 <= i < l3 {
            assert(a[j] == c1[j] && a[i] == n1[i - l2]);
        } else if l1 <= i < l2 && l1 <= j < l2 {
            assert(a[i] == c2[i - l1] && a[j] == c2[j - l1]);
        } else if l1 <= i < l2 && l3 <= j {
            assert(a[i] == c2[i - l1] && a[j] == n2[j - l3]);
        } else if l1 <= j < l2 && l3 <= i {
            assert(a[j] == c2[j - l1] && a[i] == n2[i - l3]);
        } else {
            if i < l1 {
                assert(a[i] == c1[i]);
            } else if i < l2 {
                assert(a[i] == c2[i - l1]);
            } else if i < l3 {
                assert(a[i] == n1[i - l2]);
            } else {
                assert(a[i] == n2[i - l3]);
            }
            if j < l1 {
                assert(a[j] == c1[j]);
            } else if j < l2 {
                assert(a[j] == c2[j - l1]);
            } else if j < l3 {
                assert(a[j] == n1[j - l2]);
            } else {
                assert(a[j] == n2[j - l3]);
            }
        }
    }
}

/// What applying the report `exec` does to the strategy: `r` is the outcome,
/// `pre` and `post` the strategy before and after (see `sync_status` and `settle_fill`).
pub open spec fn sync_post(pre: TradingStrategy, post: TradingStrategy, exec: Order, r: Result<(), EngineError>) -> bool {
    let unchanged = post.ask_orders@ == pre.ask_orders@ && post.bid_orders@ == pre.bid_orders@
        && post.position == pre.position && post.pnl == pre.pnl && post.cash == pre.cash;
    let own = if exec.side == Side::Ask { pre.ask_orders@ } else { pre.bid_orders@ };
    let own_after = if exec.side == Side::Ask { post.ask_orders@ } else { post.bid_orders@ };
    let other_kept = if exec.side == Side::Ask { post.bid_orders@ == pre.bid_orders@ } else { post.ask_orders@ == pre.ask_orders@ };
    match exec.status {
        None => r == Err::<(), EngineError>(EngineError::MissingStatus) && unchanged,
        Some(st) => if st == Status::Filled {
            match settle_fill(own, exec, pre.position, pre.pnl, pre.cash) {
                Ok((m, np, npnl, ncash)) => r == Ok::<(), EngineError>(()) && own_after == m && other_kept
                    && post.position == np && post.pnl == npnl && post.cash == ncash
                    // a fill of the whole order takes it away
                    && (own[exec.price@].size@ == exec.size@ ==> !own_after.contains_key(exec.price@))
                    // a fill of a bid buys and a fill of an ask sells (see `settle`)
                    && (own[exec.price@].side == Side::Bid && add_exact(pre.position, exec.size)
                        ==> post.position@ == pre.position@ + exec.size@)
                    && (own[exec.price@].side != Side::Bid && sub_exact(pre.position, exec.size)
                        ==> post.position@ == pre.position@ - exec.size@)
                    && (own[exec.price@].side == Side::Bid && mul_exact(exec.size, own[exec.price@].price)
                        && sub_exact(pre.cash, product_dec(exec.size, own[exec.price@].price))
                        ==> post.cash@ * pow10(28) == pre.cash@ * pow10(28) - exec.size@ * own[exec.price@].price@)
                    && (own[exec.price@].side != Side::Bid && mul_exact(exec.size, own[exec.price@].price)
                        && add_exact(pre.cash, product_dec(exec.size, own[exec.price@].price))
                        ==> post.cash@ * pow10(28) == pre.cash@ * pow10(28) + exec.size@ * own[exec.price@].price@)
                    && (own[exec.price@].side == Side::Bid && mul_exact(exec.size, own[exec.price@].price)
                        && sub_exact(pre.pnl, product_dec(exec.size, own[exec.price@].price))
                        ==> post.pnl@ * pow10(28) == pre.pnl@ * pow10(28) - exec.size@ * own[exec.price@].price@)
                    && (own[exec.price@].side != Side::Bid && mul_exact(exec.size, own[exec.price@].price)
                        && add_exact(pre.pnl, product_dec(exec.size, own[exec.price@].price))
                        ==> post.pnl@ * pow10(28) == pre.pnl@ * pow10(28) + exec.size@ * own[exec.price@].price@)
                    // the fill moves the position by its signed quantity, when the sum is exact
                    && (fill_quantity(own[exec.price@], exec) is Some && add_exact(pre.position, fill_quantity(own[exec.price@], exec).unwrap())
                        ==> post.position@ == pre.position@ + fill_quantity(own[exec.price@], exec).unwrap()@)
                    // the fill takes the same value from the profit as from the cash,
                    // when the differences are exact
                    && (fill_value(own[exec.price@], exec) is Some && sub_exact(pre.pnl, fill_value(own[exec.price@], exec).unwrap())
                        && sub_exact(pre.cash, fill_value(own[exec.price@], exec).unwrap()) ==> post.cash@ - post.pnl@ == pre.cash@ - pre.pnl@),
                Err(e) => r == Err::<(), EngineError>(e) && unchanged,
            }
        } else {
            match sync_status(own, exec, st) {
                Ok(m) => r == Ok::<(), EngineError>(()) && own_after == m && other_kept
                    && post.position == pre.position && post.pnl == pre.pnl && post.cash == pre.cash,
                Err(e) => r == Err::<(), EngineError>(e) && unchanged,
            }
        },
    }
}

/// What a top of the book does to the strategy, and what it gives: the
/// contract of `handle_book_event_with_oids` for two client order ids made
/// of "okex" and a time.
pub open spec fn ts_event_post(pre: TradingStrategy, post: TradingStrategy, book_event: BookEvent, r: Result<Option<Vec<Order>>, EngineError>) -> bool {
    exists|bid_oid: String, ask_oid: String|
        (exists|n: i64| bid_oid@ == "okex"@ + decimal_text(n as int))
        && (exists|n: i64| ask_oid@ == "okex"@ + decimal_text(n as int))
        && book_event_post(pre, post, book_event, bid_oid, ask_oid, r)
}

/// What an execution report does to the strategy, and what it gives: the
/// report is applied (see `sync_post`), and it is an error where the cash
/// is below zero after it.
pub open spec fn ts_response_post(pre: TradingStrategy, post: TradingStrategy, exec: Order, r: Result<(), EngineError>) -> bool {
    &&& post.current_bid == pre.current_bid
    &&& post.current_ask == pre.current_ask
    &&& post.min_quantity == pre.min_quantity
    &&& exists|s: Result<(), EngineError>| sync_post(pre, post, exec, s)
        && r == (match s {
            Ok(()) => if post.cash@ < 0 {
                Err(EngineError::NegativeCash)
            } else {
                Ok(())
            },
            Err(e) => Err(e),
        })
}


/// The strategy's orders of `side`.
pub open spec fn kept_on(ts: TradingStrategy, side: Side) -> Map<int, Order> {
    if side == Side::Ask {
        ts.ask_orders@
    } else {
        ts.bid_orders@
    }
}

/// A fill that the strategy takes without error is about one of its kept
/// orders.  A fill of a kept bid buys: the position rises by the filled
/// size, and the cost (size times price) comes out of the cash and the
/// profit.  A fill of a kept ask sells: the position falls by the filled
/// size, and the proceeds go to the cash and the profit.  Each where the
/// arithmetic is exact.
pub proof fn lemma_fill_buys_or_sells(pre: TradingStrategy, post: TradingStrategy, exec: Order)
    requires
        sync_post(pre, post, exec, Ok(())),
        exec.status == Some(Status::Filled),
    ensures
        kept_on(pre, exec.side).contains_key(exec.price@),
        ({
            let o = kept_on(pre, exec.side)[exec.price@];
            &&& o.side == Side::Bid && add_exact(pre.position, exec.size) ==> post.position@ == pre.position@
                + exec.size@
            &&& o.side == Side::Ask && sub_exact(pre.position, exec.size) ==> post.position@ == pre.position@
                - exec.size@
            &&& o.side == Side::Bid && mul_exact(exec.size, o.price) && sub_exact(pre.cash, product_dec(exec.size, o.price))
                ==> post.cash@ * pow10(28) == pre.cash@ * pow10(28) - exec.size@ * o.price@
            &&& o.side == Side::Ask && mul_exact(exec.size, o.price) && add_exact(pre.cash, product_dec(exec.size, o.price))
                ==> post.cash@ * pow10(28) == pre.cash@ * pow10(28) + exec.size@ * o.price@
            &&& o.side == Side::Bid && mul_exact(exec.size, o.price) && sub_exact(pre.pnl, product_dec(exec.size, o.price))
                ==> post.pnl@ * pow10(28) == pre.pnl@ * pow10(28) - exec.size@ * o.price@
            &&& o.side == Side::Ask && mul_exact(exec.size, o.price) && add_exact(pre.pnl, product_dec(exec.size, o.price))
                ==> post.pnl@ * pow10(28) == pre.pnl@ * pow10(28) + exec.size@ * o.price@
        }),
{
}

} // verus!
