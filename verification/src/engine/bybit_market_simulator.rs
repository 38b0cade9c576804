//! The market simulator fed by the Bybit book channel and trades.
use crate::engine::bybit_book::{
    apply_delta,
    apply_delta_levels,
    apply_snapshot,
    apply_snapshot_levels,
    bybit_delta,
    bybit_levels,
    bybit_message,
    read_bybit_delta,
    read_bybit_levels,
    read_bybit_message,
    BybitAction,
    BybitKind,
};
use crate::engine::common::{Depth, Order, Side};
use crate::engine::error::EngineError;
use crate::engine::levels::PriceLevels;
use crate::engine::market_simulator::{
    answer_request,
    depth_match,
    fill_conserves,
    match_order,
    order_match,
    request_effect,
    trade_against,
    trade_effect,
    MarketSimulator,
};
use crate::engine::orders::{all_on_side, OrderTable};
use crate::utils::decimal::Dec;
use crate::utils::json::JsonValue;
use vstd::prelude::*;

verus! {

/// The simulator: the book of the market and the orders resting on it.
pub struct BybitMarketSimulator {
    pub asks_map: PriceLevels,
    pub bids_map: PriceLevels,
    pub ask_orders: OrderTable,
    pub bid_orders: OrderTable,
}

/// The book of the simulator did not change.
pub open spec fn sim_book_unchanged(pre: BybitMarketSimulator, post: BybitMarketSimulator) -> bool {
    &&& post.asks_map@ == pre.asks_map@
    &&& post.bids_map@ == pre.bids_map@
}

/// What a snapshot of the levels `items` does to the book of the simulator
/// (see `apply_snapshot`); on an error nothing changes.
pub open spec fn sim_snapshot_post(pre: BybitMarketSimulator, post: BybitMarketSimulator, items: Seq<JsonValue>, r: Result<(), EngineError>) -> bool {
    match bybit_levels(items) {
        None => r == Err::<(), EngineError>(EngineError::Malformed) && sim_book_unchanged(pre, post),
        Some(levels) => match apply_snapshot(levels) {
            Err(e) => r == Err::<(), EngineError>(e) && sim_book_unchanged(pre, post),
            Ok((a, b)) => r == Ok::<(), EngineError>(()) && post.asks_map@ == a && post.bids_map@ == b,
        },
    }
}

/// What the delta `d` does to the book of the simulator (see `apply_delta`;
/// an ask to update that is missing is put in); on an error nothing changes.
pub open spec fn sim_delta_post(pre: BybitMarketSimulator, post: BybitMarketSimulator, d: JsonValue, r: Result<(), EngineError>) -> bool {
    match bybit_delta(d) {
        None => r == Err::<(), EngineError>(EngineError::Malformed) && sim_book_unchanged(pre, post),
        Some((deletes, updates, inserts)) => match apply_delta((pre.asks_map@, pre.bids_map@), deletes, updates, inserts, true) {
            Err(e) => r == Err::<(), EngineError>(e) && sim_book_unchanged(pre, post),
            Ok((a, b)) => r == Ok::<(), EngineError>(()) && post.asks_map@ == a && post.bids_map@ == b,
        },
    }
}

impl BybitMarketSimulator {
    /// A simulator with an empty book and no resting order.
    pub fn new() -> (r: BybitMarketSimulator)
        ensures
            r.asks_map@ == Map::<int, Depth>::empty(),
            r.bids_map@ == Map::<int, Depth>::empty(),
            r.ask_orders@ == Map::<int, Order>::empty(),
            r.bid_orders@ == Map::<int, Order>::empty(),
    {
        BybitMarketSimulator {
            asks_map: PriceLevels::new(),
            bids_map: PriceLevels::new(),
            ask_orders: OrderTable::new(),
            bid_orders: OrderTable::new(),
        }
    }

    /// Fills the resting order at the price of a trade of the market (see
    /// `trade_effect`); the fill report carries the trade's time.
    pub fn handle_order_from_gw(&mut self, trade_order: Order) -> (r: Result<Option<Order>, EngineError>)
        ensures
            sim_trade_post(*old(self), *final(self), trade_order, r),
            trade_order.side == Side::Bid ==> fill_conserves(old(self).ask_orders@, final(self).ask_orders@, trade_order.price@, trade_order.size, r),
            trade_order.side == Side::Ask ==> fill_conserves(old(self).bid_orders@, final(self).bid_orders@, trade_order.price@, trade_order.size, r),
    {
        let ts = trade_order.timstamp;
        if trade_order.side == Side::Bid {
            trade_against(&mut self.ask_orders, &trade_order, ts)
        } else {
            trade_against(&mut self.bid_orders, &trade_order, ts)
        }
    }

    /// Trades `trade_quantity` against the level `depth` (see `depth_match`).
    pub fn trade_with_depth(depth: &mut Depth, trade_quantity: Dec) -> (r: Result<(Dec, bool), EngineError>)
        ensures
            match depth_match(*old(depth), trade_quantity) {
                Some((left, removed, after)) => r == Ok::<(Dec, bool), EngineError>((left, removed)) && *final(depth) == after,
                None => r == Err::<(Dec, bool), EngineError>(EngineError::Overflow) && *final(depth) == *old(depth),
            },
    {
        MarketSimulator::trade_with_depth(depth, trade_quantity)
    }

    /// Trades the size of `trade_order` against the resting order
    /// `my_order` (see `order_match`); the fill report carries the trade's time.
    pub fn trade_with_order(my_order: &mut Order, trade_order: &Order) -> (r: Result<(Option<Order>, Dec), EngineError>)
        ensures
            match order_match(*old(my_order), trade_order.size, trade_order.timstamp) {
                Some((fill, left, after)) => r == Ok::<(Option<Order>, Dec), EngineError>((Some(fill), left))
                    && *final(my_order) == after,
                None => r == Err::<(Option<Order>, Dec), EngineError>(EngineError::Overflow) && *final(my_order)
                    == *old(my_order),
            },
    {
        match_order(my_order, trade_order.size, trade_order.timstamp)
    }

    /// Sets the book to the levels of a snapshot (see `apply_snapshot`).
    pub fn init_book(&mut self, order_data: &Vec<JsonValue>) -> (r: Result<(), EngineError>)
        ensures
            final(self).ask_orders@ == old(self).ask_orders@,
            final(self).bid_orders@ == old(self).bid_orders@,
            sim_snapshot_post(*old(self), *final(self), order_data@, r),
    {
        match read_bybit_levels(order_data) {
            None => Err(EngineError::Malformed),
            Some(levels) => apply_snapshot_levels(&mut self.asks_map, &mut self.bids_map, &levels),
        }
    }

    /// Changes the book by a delta (see `apply_delta`; an ask to update that
    /// is missing is put in).
    pub fn update_book(&mut self, delta_data: &JsonValue) -> (r: Result<(), EngineError>)
        ensures
            final(self).ask_orders@ == old(self).ask_orders@,
            final(self).bid_orders@ == old(self).bid_orders@,
            sim_delta_post(*old(self), *final(self), *delta_data, r),
    {
        match read_bybit_delta(delta_data) {
            None => Err(EngineError::Malformed),
            Some((deletes, updates, inserts)) => apply_delta_levels(
                &mut self.asks_map,
                &mut self.bids_map,
                &deletes,
                &updates,
                &inserts,
                true,
            ),
        }
    }

    /// Handles a message of the book channel (see `bybit_message`): a
    /// snapshot sets the book, a delta changes it; other messages change
    /// nothing.  A message not so written is an error and changes nothing.
    pub fn handle_depth_from_lp(&mut self, message: &JsonValue) -> (r: Result<(), EngineError>)
        ensures
            sim_depth_post(*old(self), *final(self), *message, r),
    {
        match read_bybit_message(message) {
            Some((BybitKind::Snapshot, Some(ob))) => {
                match ob.as_array() {
                    Some(items) => self.init_book(items),
                    None => Err(EngineError::Malformed),
                }
            },
            Some((BybitKind::Delta, Some(d))) => self.update_book(d),
            Some(_) => Ok(()),
            None => Err(EngineError::Malformed),
        }
    }

    /// Every order passes the simulator's check.
    fn check_order(&mut self, _order: &Order) -> (r: bool)
        ensures
            r,
            *final(self) == *old(self),
    {
        true
    }

    /// Answers an order request of the order manager (see `request_effect`).
    pub fn handle_orders_from_om(&mut self, order: Order) -> (r: Result<Option<Order>, EngineError>)
        ensures
            sim_request_post(*old(self), *final(self), order, r),
    {
        let _ = self.check_order(&order);
        if order.side == Side::Ask {
            answer_request(&mut self.ask_orders, order)
        } else {
            answer_request(&mut self.bid_orders, order)
        }
    }
}

/// What a trade of the market does to the simulator, and what it gives:
/// the resting order of the other side at the trade's price is filled (see
/// `trade_effect`), and the fill report carries the trade's time.
pub open spec fn sim_trade_post(pre: BybitMarketSimulator, post: BybitMarketSimulator, trade: Order, r: Result<Option<Order>, EngineError>) -> bool {
    &&& sim_book_unchanged(pre, post)
    &&& trade.side == Side::Bid ==> post.bid_orders@ == pre.bid_orders@
        && match trade_effect(pre.ask_orders@, trade.price@, trade.size, trade.timstamp) {
        Some((fill, after)) => r == Ok::<Option<Order>, EngineError>(fill) && post.ask_orders@ == after,
        None => r == Err::<Option<Order>, EngineError>(EngineError::Overflow) && post.ask_orders@ == pre.ask_orders@,
    }
    &&& trade.side == Side::Ask ==> post.ask_orders@ == pre.ask_orders@
        && match trade_effect(pre.bid_orders@, trade.price@, trade.size, trade.timstamp) {
        Some((fill, after)) => r == Ok::<Option<Order>, EngineError>(fill) && post.bid_orders@ == after,
        None => r == Err::<Option<Order>, EngineError>(EngineError::Overflow) && post.bid_orders@ == pre.bid_orders@,
    }
}

/// What a message of the book channel does to the simulator (see
/// `bybit_message`): a snapshot sets the book, a delta changes it, other
/// messages change nothing; a message not so written is an error and changes
/// nothing.  The resting orders stay.
pub open spec fn sim_depth_post(pre: BybitMarketSimulator, post: BybitMarketSimulator, message: JsonValue, r: Result<(), EngineError>) -> bool {
    &&& post.ask_orders@ == pre.ask_orders@
    &&& post.bid_orders@ == pre.bid_orders@
    &&& match bybit_message(message) {
        None => r == Err::<(), EngineError>(EngineError::Malformed) && sim_book_unchanged(pre, post),
        Some(BybitAction::Ignored) => r == Ok::<(), EngineError>(()) && sim_book_unchanged(pre, post),
        Some(BybitAction::Snapshot(items)) => sim_snapshot_post(pre, post, items, r),
        Some(BybitAction::Delta(d)) => sim_delta_post(pre, post, d, r),
    }
}

/// What an order request of the order manager does to the simulator, and
/// the answer (see `request_effect` on the orders of the request's side).
pub open spec fn sim_request_post(pre: BybitMarketSimulator, post: BybitMarketSimulator, order: Order, r: Result<Option<Order>, EngineError>) -> bool {
    &&& sim_book_unchanged(pre, post)
    &&& order.side == Side::Ask ==> post.bid_orders@ == pre.bid_orders@
        && match request_effect(pre.ask_orders@, order) {
        Some((answer, after)) => r == Ok::<Option<Order>, EngineError>(answer) && post.ask_orders@ == after,
        None => r == Err::<Option<Order>, EngineError>(EngineError::UnknownOrder) && post.ask_orders@ == pre.ask_orders@,
    }
    &&& order.side == Side::Bid ==> post.ask_orders@ == pre.ask_orders@
        && match request_effect(pre.bid_orders@, order) {
        Some((answer, after)) => r == Ok::<Option<Order>, EngineError>(answer) && post.bid_orders@ == after,
        None => r == Err::<Option<Order>, EngineError>(EngineError::UnknownOrder) && post.bid_orders@ == pre.bid_orders@,
    }
}

/// Answering an order request keeps the simulator's resting asks among its
/// asks and its resting bids among its bids.
pub proof fn lemma_request_keeps_sides(pre: BybitMarketSimulator, post: BybitMarketSimulator, order: Order, r: Result<Option<Order>, EngineError>)
    requires
        all_on_side(pre.ask_orders@, Side::Ask),
        all_on_side(pre.bid_orders@, Side::Bid),
        sim_request_post(pre, post, order, r),
    ensures
        all_on_side(post.ask_orders@, Side::Ask),
        all_on_side(post.bid_orders@, Side::Bid),
{
}

/// A trade of the market keeps the simulator's resting asks among its asks
/// and its resting bids among its bids.
pub proof fn lemma_trade_keeps_sides(pre: BybitMarketSimulator, post: BybitMarketSimulator, trade: Order, r: Result<Option<Order>, EngineError>)
    requires
        all_on_side(pre.ask_orders@, Side::Ask),
        all_on_side(pre.bid_orders@, Side::Bid),
        sim_trade_post(pre, post, trade, r),
    ensures
        all_on_side(post.ask_orders@, Side::Ask),
        all_on_side(post.bid_orders@, Side::Bid),
{
}

} // verus!
