//! The order book of the Bybit book channel: a snapshot sets the book, a
//! delta changes it, and each change of the best bid or the best ask gives a
//! top-of-book event.
use crate::engine::book::{best_ask, best_bid, create_event, event_of, follow_top, highest, level_moved, lowest};
use crate::engine::bybit_book::{
    apply_delta,
    lemma_delta_deletes,
    apply_delta_levels,
    apply_snapshot,
    apply_snapshot_levels,
    bybit_delta,
    bybit_levels,
    bybit_message,
    read_bybit_delta,
    read_bybit_levels,
    read_bybit_message,
    BybitAction,
    BybitKind,
};
use crate::engine::common::{BookEvent, Depth, Side};
use crate::engine::error::EngineError;
use crate::engine::levels::PriceLevels;
use crate::engine::order_book::{lemma_top_change_gives_event, top_post};
use crate::utils::json::JsonValue;
use vstd::prelude::*;

verus! {

/// The book.
pub struct BybitOrderBook {
    pub map_asks: PriceLevels,
    pub map_bids: PriceLevels,
    pub current_bid: Option<Depth>,
    pub current_ask: Option<Depth>,
    pub symbol: Option<String>,
}

/// The book did not change.
pub open spec fn bybit_book_unchanged(pre: BybitOrderBook, post: BybitOrderBook) -> bool {
    &&& post.map_asks@ == pre.map_asks@
    &&& post.map_bids@ == pre.map_bids@
    &&& post.current_bid == pre.current_bid
    &&& post.current_ask == pre.current_ask
    &&& post.symbol == pre.symbol
}

/// What a snapshot of the levels `items` does to the book: the sides are
/// set (see `apply_snapshot`), the recorded best levels stay; on an error
/// nothing changes.
pub open spec fn snapshot_post(pre: BybitOrderBook, post: BybitOrderBook, items: Seq<JsonValue>, r: Result<(), EngineError>) -> bool {
    match bybit_levels(items) {
        None => r == Err::<(), EngineError>(EngineError::Malformed) && bybit_book_unchanged(pre, post),
        Some(levels) => match apply_snapshot(levels) {
            Err(e) => r == Err::<(), EngineError>(e) && bybit_book_unchanged(pre, post),
            Ok((a, b)) => r == Ok::<(), EngineError>(()) && post.map_asks@ == a && post.map_bids@ == b
                && post.current_bid == pre.current_bid && post.current_ask == pre.current_ask
                && post.symbol == pre.symbol,
        },
    }
}

/// What the delta `d` does to the book: the sides change (see
/// `apply_delta`) and the top of the book follows (see `top_post`); on an
/// error nothing changes.
pub open spec fn delta_post(pre: BybitOrderBook, post: BybitOrderBook, d: JsonValue, r: Result<Option<BookEvent>, EngineError>) -> bool {
    match bybit_delta(d) {
        None => r == Err::<Option<BookEvent>, EngineError>(EngineError::Malformed) && bybit_book_unchanged(pre, post),
        Some((deletes, updates, inserts)) => match apply_delta((pre.map_asks@, pre.map_bids@), deletes, updates, inserts, false) {
            Err(e) => r == Err::<Option<BookEvent>, EngineError>(e) && bybit_book_unchanged(pre, post),
            Ok((a, b)) => r is Ok && post.map_asks@ == a && post.map_bids@ == b && post.symbol == pre.symbol
                && top_post(pre.current_bid, pre.current_ask, b, a, post.current_bid, post.current_ask, r->Ok_0),
        },
    }
}

impl BybitOrderBook {
    /// An empty book for `symbol` with no recorded best level.
    pub fn new(symbol: Option<String>) -> (r: BybitOrderBook)
        ensures
            r.map_asks@ == Map::<int, Depth>::empty(),
            r.map_bids@ == Map::<int, Depth>::empty(),
            r.current_bid is None,
            r.current_ask is None,
            r.symbol == symbol,
    {
        BybitOrderBook {
            map_asks: PriceLevels::new(),
            map_bids: PriceLevels::new(),
            current_bid: None,
            current_ask: None,
            symbol,
        }
    }

    /// Handles a message of the book channel (see `bybit_message`): a
    /// snapshot sets the book, a delta changes it and may give a top-of-book
    /// event; other messages change nothing.  A message not so written is
    /// an error and changes nothing.
    pub fn handle_depth_from_gateway(&mut self, message: &JsonValue) -> (r: Result<Option<BookEvent>, EngineError>)
        ensures
            ob_depth_post(*old(self), *final(self), *message, r),
    {
        match read_bybit_message(message) {
            Some((BybitKind::Snapshot, Some(ob))) => {
                let items = match ob.as_array() {
                    Some(items) => items,
                    None => {
                        return Err(EngineError::Malformed);
                    },
                };
                let s = self.init_book(items);
                match s {
                    Ok(()) => Ok(None),
                    Err(e) => Err(e),
                }
            },
            Some((BybitKind::Delta, Some(d))) => self.update_book(d),
            Some(_) => Ok(None),
            None => Err(EngineError::Malformed),
        }
    }

    /// Sets the book to the levels of a snapshot (see `apply_snapshot`); the
    /// recorded best levels stay.  A level not well written, or two levels
    /// at one price of a side, is an error and changes nothing.
    pub fn init_book(&mut self, order_data: &Vec<JsonValue>) -> (r: Result<(), EngineError>)
        ensures
            snapshot_post(*old(self), *final(self), order_data@, r),
    {
        match read_bybit_levels(order_data) {
            None => Err(EngineError::Malformed),
            Some(levels) => apply_snapshot_levels(&mut self.map_asks, &mut self.map_bids, &levels),
        }
    }

    /// Changes the book by a delta (see `apply_delta`): a missing level to
    /// update, or an existing level to insert, is an error and changes
    /// nothing; then gives the top-of-book event where the best bid or the
    /// best ask changed.
    pub fn update_book(&mut self, delta_data: &JsonValue) -> (r: Result<Option<BookEvent>, EngineError>)
        ensures
            delta_post(*old(self), *final(self), *delta_data, r),
    {
        match read_bybit_delta(delta_data) {
            None => Err(EngineError::Malformed),
            Some((deletes, updates, inserts)) => {
                match apply_delta_levels(&mut self.map_asks, &mut self.map_bids, &deletes, &updates, &inserts, false) {
                    Ok(()) => Ok(self.check_generate_top_of_book_event()),
                    Err(e) => Err(e),
                }
            },
        }
    }

    /// Compares the recorded best bid and best ask with the book's and
    /// records the book's (see `top_post`); gives an event of the new top
    /// where either changed.  A second check on an unchanged book gives none
    /// (see `lemma_top_check_settles`).
    pub fn check_generate_top_of_book_event(&mut self) -> (r: Option<BookEvent>)
        ensures
            final(self).map_asks@ == old(self).map_asks@,
            final(self).map_bids@ == old(self).map_bids@,
            final(self).symbol == old(self).symbol,
            top_post(
                old(self).current_bid,
                old(self).current_ask,
                old(self).map_bids@,
                old(self).map_asks@,
                final(self).current_bid,
                final(self).current_ask,
                r,
            ),
            // an event exactly where the best bid or the best ask moved in
            // price or size (or appeared, or went away)
            r is Some <==> level_moved(old(self).current_bid, highest(old(self).map_bids@)) || level_moved(
                old(self).current_ask,
                lowest(old(self).map_asks@),
            ),
            level_moved(old(self).current_bid, highest(old(self).map_bids@)) ==> final(self).current_bid == highest(
                old(self).map_bids@,
            ),
            level_moved(old(self).current_ask, lowest(old(self).map_asks@)) ==> final(self).current_ask == lowest(
                old(self).map_asks@,
            ),
    {
        let ghost pre = *self;
        let bid_changed = follow_top(&mut self.current_bid, best_bid(&self.map_bids));
        let ask_changed = follow_top(&mut self.current_ask, best_ask(&self.map_asks));
        let r = if bid_changed || ask_changed {
            Some(self.create_book_event())
        } else {
            None
        };
        proof {
            lemma_top_change_gives_event(
                pre.current_bid,
                pre.current_ask,
                pre.map_bids@,
                pre.map_asks@,
                self.current_bid,
                self.current_ask,
                r,
            );
        }
        r
    }

    fn create_book_event(&mut self) -> (r: BookEvent)
        ensures
            r == event_of(old(self).current_bid, old(self).current_ask),
            *final(self) == *old(self),
    {
        create_event(&self.current_bid, &self.current_ask)
    }
}

/// What a message of the book channel does to the book, and what it gives
/// (see `bybit_message`): a snapshot sets the book and gives no event, a
/// delta changes it and may give a top-of-book event, other messages change
/// nothing; a message not so written is an error and changes nothing.
pub open spec fn ob_depth_post(pre: BybitOrderBook, post: BybitOrderBook, message: JsonValue, r: Result<Option<BookEvent>, EngineError>) -> bool {
    match bybit_message(message) {
        None => r == Err::<Option<BookEvent>, EngineError>(EngineError::Malformed) && bybit_book_unchanged(pre, post),
        Some(BybitAction::Ignored) => r == Ok::<Option<BookEvent>, EngineError>(None) && bybit_book_unchanged(pre, post),
        Some(BybitAction::Snapshot(items)) => exists|s: Result<(), EngineError>| snapshot_post(pre, post, items, s)
            && r == match s {
                Ok(()) => Ok::<Option<BookEvent>, EngineError>(None),
                Err(e) => Err(e),
            },
        Some(BybitAction::Delta(d)) => delta_post(pre, post, d, r),
    }
}


/// A delta that the book takes without error leaves no ask level at the
/// price of a `Sell` delete and no bid level at the price of a `Buy` delete,
/// unless the same delta updates or inserts a level of that side there.
pub proof fn lemma_book_delta_deletes(pre: BybitOrderBook, post: BybitOrderBook, d: JsonValue, r: Result<Option<BookEvent>, EngineError>, k: int)
    requires
        delta_post(pre, post, d, r),
        r is Ok,
    ensures
        bybit_delta(d) matches Some((deletes, updates, inserts)) ==> ((exists|i: int|
            0 <= i < deletes.len() && (#[trigger] deletes[i]).0@ == k && deletes[i].1 == Some(Side::Ask)) && (forall|j: int|
            0 <= j < updates.len() ==> !((#[trigger] updates[j]).price@ == k && updates[j].side == Side::Ask)) && (
        forall|j: int| 0 <= j < inserts.len() ==> !((#[trigger] inserts[j]).price@ == k && inserts[j].side == Side::Ask))
            ==> !post.map_asks@.contains_key(k)) && ((exists|i: int|
            0 <= i < deletes.len() && (#[trigger] deletes[i]).0@ == k && deletes[i].1 == Some(Side::Bid)) && (forall|j: int|
            0 <= j < updates.len() ==> !((#[trigger] updates[j]).price@ == k && updates[j].side != Side::Ask)) && (
        forall|j: int| 0 <= j < inserts.len() ==> !((#[trigger] inserts[j]).price@ == k && inserts[j].side != Side::Ask))
            ==> !post.map_bids@.contains_key(k)),
{
    if let Some((deletes, updates, inserts)) = bybit_delta(d) {
        lemma_delta_deletes((pre.map_asks@, pre.map_bids@), deletes, updates, inserts, false, k);
    }
}

} // verus!
