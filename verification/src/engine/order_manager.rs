//! The order manager: checks the strategy's orders before they go to the
//! market, keeps the ones sent, and passes the market's answers back.
use crate::engine::common::{Action, Order, Side, Status};
use crate::engine::error::EngineError;
use crate::engine::orders::{all_on_side, distinct_places, OrderTable};
use crate::utils::decimal::{dec_lt, Dec};
use vstd::prelude::*;

verus! {

/// An order may go to the market when neither its size nor its price is negative.
pub open spec fn order_valid(o: Order) -> bool {
    o.size@ >= 0 && o.price@ >= 0
}

/// The valid orders of `s`, in order.
pub open spec fn valid_orders(s: Seq<Order>) -> Seq<Order>
    decreases s.len(),
{
    if s.len() == 0 {
        s
    } else if order_valid(s.last()) {
        valid_orders(s.drop_last()).push(s.last())
    } else {
        valid_orders(s.drop_last())
    }
}

/// The invalid orders of `s`, in order.
pub open spec fn invalid_orders(s: Seq<Order>) -> Seq<Order>
    decreases s.len(),
{
    if s.len() == 0 {
        s
    } else if !order_valid(s.last()) {
        invalid_orders(s.drop_last()).push(s.last())
    } else {
        invalid_orders(s.drop_last())
    }
}

/// `m` after each valid order of `s` on `side` is put at its price, in order.
pub open spec fn record_orders(m: Map<int, Order>, s: Seq<Order>, side: Side) -> Map<int, Order>
    decreases s.len(),
{
    if s.len() == 0 {
        m
    } else {
        let m1 = record_orders(m, s.drop_last(), side);
        let o = s.last();
        if order_valid(o) && o.side == side {
            m1.insert(o.price@, o)
        } else {
            m1
        }
    }
}

/// The statuses of a report that the manager answers when it knows the order.
pub open spec fn answered_status(st: Status) -> bool {
    st == Status::Acked || st == Status::Rejected || st == Status::Modified || st
        == Status::Cancelled
}

/// Whether a report with status `st` about the kept order `o` ends the
/// manager's record of it.
pub open spec fn ends_order(o: Order, st: Status) -> bool {
    if st == Status::Acked {
        true
    } else if st == Status::Rejected {
        o.action == Some(Action::ToBeSent) || o.status == Some(Status::ToModify) || o.status
            == Some(Status::ToCancell)
    } else if st == Status::Modified || st == Status::Cancelled {
        o.action == Some(Action::Cancel)
    } else {
        false
    }
}

/// What a report with status `st` at price value `k` and side `side` does
/// to the orders `m` of that side: whether it is answered, and the orders after it.
pub open spec fn report_effect(m: Map<int, Order>, k: int, side: Side, st: Status) -> (bool, Map<
    int,
    Order,
>) {
    if m.contains_key(k) && m[k].side == side && answered_status(st) {
        (true, if ends_order(m[k], st) {
            m.remove(k)
        } else {
            m
        })
    } else {
        (false, m)
    }
}

/// Keeps the orders that went to the market, one per price on each side.
pub struct OrderManager {
    pub ask_orders: OrderTable,
    pub bid_orders: OrderTable,
}

/// Applies a report to the orders of its side; returns whether it is answered.
fn apply_report(table: &mut OrderTable, exec_order: &Order, st: Status) -> (answered: bool)
    ensures
        (answered, final(table)@) == report_effect(old(table)@, exec_order.price@, exec_order.side, st),
{
    let price = exec_order.price;
    match table.get(&price) {
        Some(order) => {
            if order.side == exec_order.side {
                match st {
                    Status::Acked => {
                        table.remove(&price);
                        true
                    },
                    Status::Rejected => {
                        if order.action == Some(Action::ToBeSent) || order.status == Some(
                            Status::ToModify,
                        ) || order.status == Some(Status::ToCancell) {
                            table.remove(&price);
                        }
                        true
                    },
                    Status::Modified | Status::Cancelled => {
                        if order.action == Some(Action::Cancel) {
                            table.remove(&price);
                        }
                        true
                    },
                    _ => false,
                }
            } else {
                false
            }
        },
        None => false,
    }
}

impl OrderManager {
    /// A manager that keeps no order.
    pub fn new() -> (r: OrderManager)
        ensures
            r.ask_orders@ == Map::<int, Order>::empty(),
            r.bid_orders@ == Map::<int, Order>::empty(),
    {
        OrderManager { ask_orders: OrderTable::new(), bid_orders: OrderTable::new() }
    }

    /// Splits the strategy's orders into the valid ones, which are kept at
    /// their price on their side, and the invalid ones; both in order.
    pub fn handle_orders_from_trading_strategy(&mut self, orders: &mut Vec<Order>) -> (r: (
        Vec<Order>,
        Vec<Order>,
    ))
        ensures
            final(orders)@ == old(orders)@,
            om_split_post(*old(self), *final(self), old(orders)@, r),
    {
        let mut ok_orders: Vec<Order> = Vec::new();
        let mut error_orders: Vec<Order> = Vec::new();
        let ghost s = orders@;
        let ghost asks0 = self.ask_orders@;
        let ghost bids0 = self.bid_orders@;
        let mut i: usize = 0;
        while i < orders.len()
            invariant
                orders@ == s,
                i <= s.len(),
                ok_orders@ == valid_orders(s.take(i as int)),
                error_orders@ == invalid_orders(s.take(i as int)),
                self.ask_orders@ == record_orders(asks0, s.take(i as int), Side::Ask),
                self.bid_orders@ == record_orders(bids0, s.take(i as int), Side::Bid),
            decreases s.len() - i,
        {
            let order = orders[i].clone();
            proof {
                assert(s.take(i + 1).drop_last() =~= s.take(i as int));
            }
            if self.check_order_valid(&order) {
                if order.side == Side::Ask {
                    self.ask_orders.insert(order.clone());
                } else {
                    self.bid_orders.insert(order.clone());
                }
                ok_orders.push(order);
            } else {
                error_orders.push(order);
            }
            i = i + 1;
        }
        proof {
            assert(s.take(s.len() as int) =~= s);
        }
        (ok_orders, error_orders)
    }

    fn check_order_valid(&self, order: &Order) -> (r: bool)
        ensures
            r == order_valid(*order),
    {
        let zero = Dec::zero();
        if dec_lt(&order.size, &zero) {
            return false;
        }
        if dec_lt(&order.price, &zero) {
            return false;
        }
        true
    }

    /// Handles an execution report from the market.  A fill is passed on as
    /// it is.  A report about a kept order on the same side at the same price
    /// (acked, rejected, modified, cancelled) is passed on, and ends the
    /// record of that order where `ends_order` says so.  Other reports give
    /// `None`.  A report without status is an error.
    pub fn handle_order_from_gateway(&mut self, exec_order: Order) -> (r: Result<
        Option<Order>,
        EngineError,
    >)
        ensures
            om_report_post(*old(self), *final(self), exec_order, r),
    {
        let st = match exec_order.status {
            Some(st) => st,
            None => {
                return Err(EngineError::MissingStatus);
            },
        };
        if st == Status::Filled {
            return Ok(Some(exec_order));
        }
        let answered = if exec_order.side == Side::Ask {
            apply_report(&mut self.ask_orders, &exec_order, st)
        } else {
            apply_report(&mut self.bid_orders, &exec_order, st)
        };
        if answered {
            Ok(Some(exec_order))
        } else {
            Ok(None)
        }
    }
}

/// The manager splits the strategy's orders into a partition: each order is
/// either valid, and among the orders sent, or invalid, and among the orders
/// refused; no order is lost or added.
pub proof fn lemma_split_partitions(s: Seq<Order>)
    ensures
        valid_orders(s).len() + invalid_orders(s).len() == s.len(),
        forall|i: int| 0 <= i < valid_orders(s).len() ==> order_valid(#[trigger] valid_orders(s)[i]),
        forall|i: int| 0 <= i < invalid_orders(s).len() ==> !order_valid(#[trigger] invalid_orders(s)[i]),
    decreases s.len(),
{
    if s.len() > 0 {
        lemma_split_partitions(s.drop_last());
    }
}

/// An acknowledgement undoes the record that sending made: a valid order
/// sent at a price where the manager keeps no order of its side, then
/// acked there, is answered and leaves the kept orders as they were.
pub proof fn lemma_ack_clears_record(m: Map<int, Order>, o: Order)
    requires
        order_valid(o),
        !m.contains_key(o.price@),
    ensures
        report_effect(record_orders(m, seq![o], o.side), o.price@, o.side, Status::Acked) == (true, m),
{
    let s = seq![o];
    assert(s.drop_last() =~= Seq::<Order>::empty());
    assert(record_orders(m, Seq::<Order>::empty(), o.side) == m);
}

/// The valid orders are orders of `s`.
pub proof fn lemma_valid_orders_of(s: Seq<Order>)
    ensures
        forall|i: int| 0 <= i < valid_orders(s).len() ==> s.contains(#[trigger] valid_orders(s)[i]),
    decreases s.len(),
{
    if s.len() > 0 {
        let p = s.drop_last();
        lemma_valid_orders_of(p);
        assert forall|i: int| 0 <= i < valid_orders(s).len() implies s.contains(#[trigger] valid_orders(s)[i]) by {
            if i < valid_orders(p).len() {
                assert(valid_orders(s)[i] == valid_orders(p)[i]);
                let j = choose|j: int| 0 <= j < p.len() && p[j] == valid_orders(p)[i];
                assert(s[j] == p[j]);
            } else {
                assert(valid_orders(s)[i] == s[s.len() - 1]);
            }
        }
    }
}

/// Recording orders of a side keeps every kept order of that side on it.
proof fn lemma_record_orders_side(m: Map<int, Order>, s: Seq<Order>, side: Side)
    requires
        all_on_side(m, side),
    ensures
        all_on_side(record_orders(m, s, side), side),
    decreases s.len(),
{
    if s.len() > 0 {
        lemma_record_orders_side(m, s.drop_last(), side);
    }
}

/// Splitting the strategy's orders keeps the manager's asks among its asks
/// and its bids among its bids.
pub proof fn lemma_split_keeps_sides(pre: OrderManager, post: OrderManager, orders: Seq<Order>, split: (Vec<Order>, Vec<Order>))
    requires
        all_on_side(pre.ask_orders@, Side::Ask),
        all_on_side(pre.bid_orders@, Side::Bid),
        om_split_post(pre, post, orders, split),
    ensures
        all_on_side(post.ask_orders@, Side::Ask),
        all_on_side(post.bid_orders@, Side::Bid),
{
    lemma_record_orders_side(pre.ask_orders@, orders, Side::Ask);
    lemma_record_orders_side(pre.bid_orders@, orders, Side::Bid);
}

/// Handling a report keeps the manager's asks among its asks and its bids
/// among its bids.
pub proof fn lemma_report_keeps_sides(pre: OrderManager, post: OrderManager, exec: Order, r: Result<Option<Order>, EngineError>)
    requires
        all_on_side(pre.ask_orders@, Side::Ask),
        all_on_side(pre.bid_orders@, Side::Bid),
        om_report_post(pre, post, exec, r),
    ensures
        all_on_side(post.ask_orders@, Side::Ask),
        all_on_side(post.bid_orders@, Side::Bid),
{
}

/// The valid orders of orders that stand at distinct places stand at
/// distinct places.
pub proof fn lemma_valid_orders_places(s: Seq<Order>)
    requires
        distinct_places(s),
    ensures
        distinct_places(valid_orders(s)),
    decreases s.len(),
{
    if s.len() > 0 {
        let p = s.drop_last();
        assert(distinct_places(p)) by {
            assert forall|i: int, j: int|
                0 <= i < p.len() && 0 <= j < p.len() && i != j && p[i].side == p[j].side implies (#[trigger] p[i]).price@
                    != (#[trigger] p[j]).price@ by {
                assert(p[i] == s[i] && p[j] == s[j]);
            }
        }
        lemma_valid_orders_places(p);
        lemma_valid_orders_of(p);
        let v = valid_orders(p);
        let o = s.last();
        assert forall|i: int| 0 <= i < v.len() && (#[trigger] v[i]).side == o.side implies v[i].price@ != o.price@ by {
            let j = choose|j: int| 0 <= j < p.len() && p[j] == v[i];
            assert(s[j] == p[j]);
            assert(s[s.len() - 1] == o);
        }
    }
}

/// Recording orders keeps, for each valid order of `side`, an order of that
/// side at its price.
pub proof fn lemma_record_orders_keeps(m: Map<int, Order>, s: Seq<Order>, side: Side)
    ensures
        forall|i: int|
            0 <= i < s.len() && order_valid(s[i]) && s[i].side == side ==> record_orders(m, s, side).contains_key(
                (#[trigger] s[i]).price@,
            ) && record_orders(m, s, side)[s[i].price@].side == side,
    decreases s.len(),
{
    if s.len() > 0 {
        let p = s.drop_last();
        lemma_record_orders_keeps(m, p, side);
        assert forall|i: int|
            0 <= i < s.len() && order_valid(s[i]) && s[i].side == side implies record_orders(m, s, side).contains_key(
                (#[trigger] s[i]).price@,
            ) && record_orders(m, s, side)[s[i].price@].side == side by {
            if i < p.len() {
                assert(s[i] == p[i]);
            }
        }
    }
}

/// What splitting the strategy's `orders` does: `r` holds the valid ones and
/// the invalid ones, each in order, and the valid ones are kept at their
/// price on their side.
pub open spec fn om_split_post(pre: OrderManager, post: OrderManager, orders: Seq<Order>, r: (Vec<Order>, Vec<Order>)) -> bool {
    &&& r.0@ == valid_orders(orders)
    &&& r.1@ == invalid_orders(orders)
    &&& post.ask_orders@ == record_orders(pre.ask_orders@, orders, Side::Ask)
    &&& post.bid_orders@ == record_orders(pre.bid_orders@, orders, Side::Bid)
}

/// What handling the execution report `exec` does to the manager, and what
/// it gives: a fill is passed on as it is; a report without status is an
/// error; any other report goes by `report_effect` on the orders of its side.
pub open spec fn om_report_post(pre: OrderManager, post: OrderManager, exec: Order, r: Result<Option<Order>, EngineError>) -> bool {
    match exec.status {
        None => r == Err::<Option<Order>, EngineError>(EngineError::MissingStatus)
            && post.ask_orders@ == pre.ask_orders@ && post.bid_orders@ == pre.bid_orders@,
        Some(st) => if st == Status::Filled {
            r == Ok::<Option<Order>, EngineError>(Some(exec))
                && post.ask_orders@ == pre.ask_orders@ && post.bid_orders@ == pre.bid_orders@
        } else {
            let side_orders = if exec.side == Side::Ask { pre.ask_orders@ } else { pre.bid_orders@ };
            let (answered, after) = report_effect(side_orders, exec.price@, exec.side, st);
            &&& r == Ok::<Option<Order>, EngineError>(if answered { Some(exec) } else { None })
            &&& exec.side == Side::Ask ==> post.ask_orders@ == after && post.bid_orders@ == pre.bid_orders@
            &&& exec.side == Side::Bid ==> post.bid_orders@ == after && post.ask_orders@ == pre.ask_orders@
        },
    }
}


/// The orders that the manager `om` keeps on `side`.
pub open spec fn side_records(om: OrderManager, side: Side) -> Map<int, Order> {
    if side == Side::Ask {
        om.ask_orders@
    } else {
        om.bid_orders@
    }
}

/// What a report of the market does to the manager's record of the order it
/// is about (kept at its price, on its side): an ack, or a cancel or modify
/// of an order that was sent to be cancelled, is passed on and ends the
/// record; a cancel or modify of any other kept order is passed on and
/// keeps it; the manager's orders of the other side stay as they were.
pub proof fn lemma_report_ends_record(pre: OrderManager, post: OrderManager, exec: Order, r: Result<Option<Order>, EngineError>)
    requires
        om_report_post(pre, post, exec, r),
        side_records(pre, exec.side).contains_key(exec.price@),
        side_records(pre, exec.side)[exec.price@].side == exec.side,
        exec.status == Some(Status::Acked) || exec.status == Some(Status::Cancelled) || exec.status == Some(
            Status::Modified,
        ),
    ensures
        r == Ok::<Option<Order>, EngineError>(Some(exec)),
        exec.status == Some(Status::Acked) ==> side_records(post, exec.side) == side_records(pre, exec.side).remove(
            exec.price@,
        ),
        exec.status != Some(Status::Acked) && side_records(pre, exec.side)[exec.price@].action == Some(Action::Cancel)
            ==> side_records(post, exec.side) == side_records(pre, exec.side).remove(exec.price@),
        exec.status != Some(Status::Acked) && side_records(pre, exec.side)[exec.price@].action != Some(Action::Cancel)
            ==> side_records(post, exec.side) == side_records(pre, exec.side),
        exec.side == Side::Ask ==> post.bid_orders@ == pre.bid_orders@,
        exec.side == Side::Bid ==> post.ask_orders@ == pre.ask_orders@,
{
}

} // verus!
