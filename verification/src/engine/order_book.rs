//! The order book of a spot depth channel (`spot/depth_l2_tbt`): a partial
//! message sets the book, an update message changes it level by level, and
//! each change of the best bid or the best ask gives a top-of-book event.
use crate::engine::book::{
    best_ask,
    best_bid,
    create_event,
    event_of,
    follow_top,
    highest,
    level_moved,
    lowest,
    okex_levels,
    read_okex_levels,
    top_agrees,
    top_step,
};
use crate::engine::common::{BookEvent, Depth, Side};
use crate::engine::error::EngineError;
use crate::engine::levels::PriceLevels;
use crate::utils::decimal::{dec_eq, Dec};
use crate::utils::json::{member_is_str, JsonValue};
use vstd::prelude::*;

verus! {

/// `m` after each level of `ds` is put at its price, in order.
pub open spec fn insert_levels(m: Map<int, Depth>, ds: Seq<Depth>) -> Map<int, Depth>
    decreases ds.len(),
{
    if ds.len() == 0 {
        m
    } else {
        insert_levels(m, ds.drop_last()).insert(ds.last().price@, ds.last())
    }
}

/// `m` after each level of `ds`, in order, is removed where its size is zero
/// and put at its price otherwise.
pub open spec fn update_levels(m: Map<int, Depth>, ds: Seq<Depth>) -> Map<int, Depth>
    decreases ds.len(),
{
    if ds.len() == 0 {
        m
    } else if ds.last().size@ == 0 {
        update_levels(m, ds.drop_last()).remove(ds.last().price@)
    } else {
        update_levels(m, ds.drop_last()).insert(ds.last().price@, ds.last())
    }
}

/// The ask levels and the bid levels of the data of a depth message: an
/// object whose members `asks` and `bids` are lists of levels (see
/// `okex_level`); `None` where it is not so written.
pub open spec fn book_data(order_data: JsonValue, ts: Option<i64>) -> Option<(Seq<Depth>, Seq<Depth>)> {
    match order_data {
        JsonValue::Object(_) => match (order_data.spec_get("asks"@), order_data.spec_get("bids"@)) {
            (Some(a), Some(b)) => match (a.spec_as_array(), b.spec_as_array()) {
                (Some(ai), Some(bi)) => match (okex_levels(ai, Side::Ask, ts), okex_levels(bi, Side::Bid, ts)) {
                    (Some(asks), Some(bids)) => Some((asks, bids)),
                    _ => None,
                },
                _ => None,
            },
            _ => None,
        },
        _ => None,
    }
}

/// What a depth message asks of a book.
pub enum DepthAction {
    /// Nothing: another channel, or another action.
    Ignored,
    /// Set the book from this data.
    Partial(JsonValue),
    /// Change the book by this data.
    Update(JsonValue),
}

/// What the message `v` of the spot depth channel asks: it is an object; if
/// its `table` is `spot/depth_l2_tbt` and its `action` is a string, its
/// `data` is a list whose first element is an object, the data.  `None`
/// where the message is not so written.
pub open spec fn okex_message(v: JsonValue) -> Option<DepthAction> {
    match v {
        JsonValue::Object(_) => if member_is_str(v, "table"@, "spot/depth_l2_tbt"@) {
            match v.spec_get("action"@) {
                None => None,
                Some(a) => match a.spec_as_str() {
                    None => Some(DepthAction::Ignored),
                    Some(action) => match v.spec_get("data"@) {
                        None => None,
                        Some(d) => match d.spec_as_array() {
                            None => None,
                            Some(items) => if items.len() == 0 {
                                None
                            } else if !(items[0] is Object) {
                                None
                            } else if action@ == "partial"@ {
                                Some(DepthAction::Partial(items[0]))
                            } else if action@ == "update"@ {
                                Some(DepthAction::Update(items[0]))
                            } else {
                                Some(DepthAction::Ignored)
                            },
                        },
                    },
                },
            }
        } else {
            Some(DepthAction::Ignored)
        },
        _ => None,
    }
}

/// The book.
pub struct OrderBook {
    pub map_asks: PriceLevels,
    pub map_bids: PriceLevels,
    pub current_bid: Option<Depth>,
    pub current_ask: Option<Depth>,
}

/// What a top-of-book check states of the book before and after it: the
/// recorded best levels follow the book's best levels (see `top_step`), and
/// an event of the new ones is given exactly where one of them changed.
pub open spec fn top_post(
    pre_bid: Option<Depth>,
    pre_ask: Option<Depth>,
    bids: Map<int, Depth>,
    asks: Map<int, Depth>,
    post_bid: Option<Depth>,
    post_ask: Option<Depth>,
    r: Option<BookEvent>,
) -> bool {
    let (bid_changed, nb) = top_step(pre_bid, highest(bids));
    let (ask_changed, na) = top_step(pre_ask, lowest(asks));
    &&& post_bid == nb
    &&& post_ask == na
    &&& r == if bid_changed || ask_changed {
        Some(event_of(nb, na))
    } else {
        None
    }
    &&& top_agrees(post_bid, highest(bids))
    &&& top_agrees(post_ask, lowest(asks))
}

/// What a top-of-book check gives, in terms of the recorded best levels and
/// the book's: an event exactly where the best bid or the best ask moved
/// (appeared, went away, or changed in price or in size), and then the event
/// of the book's best bid and best ask, which are recorded; where neither
/// moved, no event and the recorded levels stay.
pub proof fn lemma_top_change_gives_event(
    pre_bid: Option<Depth>,
    pre_ask: Option<Depth>,
    bids: Map<int, Depth>,
    asks: Map<int, Depth>,
    post_bid: Option<Depth>,
    post_ask: Option<Depth>,
    r: Option<BookEvent>,
)
    requires
        top_post(pre_bid, pre_ask, bids, asks, post_bid, post_ask, r),
    ensures
        r is Some <==> level_moved(pre_bid, highest(bids)) || level_moved(pre_ask, lowest(asks)),
        level_moved(pre_bid, highest(bids)) ==> post_bid == highest(bids),
        level_moved(pre_ask, lowest(asks)) ==> post_ask == lowest(asks),
        !level_moved(pre_bid, highest(bids)) ==> post_bid == pre_bid,
        !level_moved(pre_ask, lowest(asks)) ==> post_ask == pre_ask,
        r is Some ==> r == Some(event_of(post_bid, post_ask)),
        // the event reports the book's best levels, a missing side as zero
        r is Some ==> r->Some_0.bid_price@ == (match highest(bids) {
            Some(b) => b.price@,
            None => 0,
        }) && r->Some_0.bid_size@ == (match highest(bids) {
            Some(b) => b.size@,
            None => 0,
        }) && r->Some_0.ask_price@ == (match lowest(asks) {
            Some(a) => a.price@,
            None => 0,
        }) && r->Some_0.ask_size@ == (match lowest(asks) {
            Some(a) => a.size@,
            None => 0,
        }),
{
    Dec::lemma_zero_value();
}

/// A second top-of-book check on a book that has not changed since the
/// first gives no event and leaves the recorded best bid and best ask as the
/// first check left them.
pub proof fn lemma_top_check_settles(
    pre_bid: Option<Depth>,
    pre_ask: Option<Depth>,
    bids: Map<int, Depth>,
    asks: Map<int, Depth>,
    bid1: Option<Depth>,
    ask1: Option<Depth>,
    r1: Option<BookEvent>,
    bid2: Option<Depth>,
    ask2: Option<Depth>,
    r2: Option<BookEvent>,
)
    requires
        top_post(pre_bid, pre_ask, bids, asks, bid1, ask1, r1),
        top_post(bid1, ask1, bids, asks, bid2, ask2, r2),
    ensures
        r2 is None,
        bid2 == bid1,
        ask2 == ask1,
{
}

/// Puts each level at its price, in order.
pub fn insert_all(levels: &mut PriceLevels, ds: &Vec<Depth>)
    ensures
        final(levels)@ == insert_levels(old(levels)@, ds@),
{
    let mut i: usize = 0;
    while i < ds.len()
        invariant
            i <= ds@.len(),
            levels@ == insert_levels(old(levels)@, ds@.take(i as int)),
        decreases ds@.len() - i,
    {
        proof {
            assert(ds@.take(i + 1).drop_last() =~= ds@.take(i as int));
        }
        levels.insert(ds[i]);
        i = i + 1;
    }
    proof {
        assert(ds@.take(ds@.len() as int) =~= ds@);
    }
}

/// Applies each level in order: removed where its size is zero, put at its price otherwise.
pub fn update_all(levels: &mut PriceLevels, ds: &Vec<Depth>)
    ensures
        final(levels)@ == update_levels(old(levels)@, ds@),
{
    let mut i: usize = 0;
    let zero = Dec::zero();
    while i < ds.len()
        invariant
            i <= ds@.len(),
            zero@ == 0,
            levels@ == update_levels(old(levels)@, ds@.take(i as int)),
        decreases ds@.len() - i,
    {
        proof {
            assert(ds@.take(i + 1).drop_last() =~= ds@.take(i as int));
        }
        let d = ds[i];
        if dec_eq(&d.size, &zero) {
            levels.remove(&d.price);
        } else {
            levels.insert(d);
        }
        i = i + 1;
    }
    proof {
        assert(ds@.take(ds@.len() as int) =~= ds@);
    }
}

/// Reads the ask and bid levels of the data of a depth message (see `book_data`).
pub fn read_book_data(order_data: &JsonValue, ts: Option<i64>) -> (r: Option<(Vec<Depth>, Vec<Depth>)>)
    ensures
        match book_data(*order_data, ts) {
            Some((a, b)) => r matches Some((va, vb)) && va@ == a && vb@ == b,
            None => r is None,
        },
{
    match order_data {
        JsonValue::Object(_) => {},
        _ => {
            return None;
        },
    }
    let asks = match order_data.get("asks") {
        Some(a) => match a.as_array() {
            Some(items) => items,
            None => {
                return None;
            },
        },
        None => {
            return None;
        },
    };
    let bids = match order_data.get("bids") {
        Some(b) => match b.as_array() {
            Some(items) => items,
            None => {
                return None;
            },
        },
        None => {
            return None;
        },
    };
    match (read_okex_levels(asks, Side::Ask, ts), read_okex_levels(bids, Side::Bid, ts)) {
        (Some(a), Some(b)) => Some((a, b)),
        _ => None,
    }
}

/// What a depth message asks of a book, without its data.
#[derive(Debug, Copy, Clone, PartialEq, Eq, Structural)]
pub enum MessageKind {
    Ignored,
    Partial,
    Update,
}

/// Reads what a message of the spot depth channel asks (see
/// `okex_message`), with a reference to its data.
pub fn read_okex_message(v: &JsonValue) -> (r: Option<(MessageKind, Option<&JsonValue>)>)
    ensures
        match okex_message(*v) {
            None => r is None,
            Some(DepthAction::Ignored) => r == Some((MessageKind::Ignored, None::<&JsonValue>)),
            Some(DepthAction::Partial(od)) => r == Some((MessageKind::Partial, Some(&od))),
            Some(DepthAction::Update(od)) => r == Some((MessageKind::Update, Some(&od))),
        },
{
    match v {
        JsonValue::Object(_) => {},
        _ => {
            return None;
        },
    }
    let table_ok = match v.get("table") {
        Some(t) => t.is_str("spot/depth_l2_tbt"),
        None => false,
    };
    if !table_ok {
        return Some((MessageKind::Ignored, None));
    }
    let action = match v.get("action") {
        Some(a) => match a.as_str() {
            Some(action) => action,
            None => {
                return Some((MessageKind::Ignored, None));
            },
        },
        None => {
            return None;
        },
    };
    let items = match v.get("data") {
        Some(d) => match d.as_array() {
            Some(items) => items,
            None => {
                return None;
            },
        },
        None => {
            return None;
        },
    };
    if items.len() == 0 {
        return None;
    }
    let first = &items[0];
    match first {
        JsonValue::Object(_) => {},
        _ => {
            return None;
        },
    }
    if *action == String::from_str("partial") {
        Some((MessageKind::Partial, Some(first)))
    } else if *action == String::from_str("update") {
        Some((MessageKind::Update, Some(first)))
    } else {
        Some((MessageKind::Ignored, None))
    }
}

impl OrderBook {
    /// An empty book with no recorded best level.
    pub fn new() -> (r: OrderBook)
        ensures
            r.map_asks@ == Map::<int, Depth>::empty(),
            r.map_bids@ == Map::<int, Depth>::empty(),
            r.current_bid is None,
            r.current_ask is None,
    {
        OrderBook {
            map_asks: PriceLevels::new(),
            map_bids: PriceLevels::new(),
            current_bid: None,
            current_ask: None,
        }
    }

    /// Handles a message of the depth channel (see `okex_message`): a partial
    /// sets the book (see `init_book`), an update changes it and may give a
    /// top-of-book event (see `update_book`); other messages change nothing.
    /// A message not so written is an error and changes nothing.
    pub fn handle_depth_from_gateway(&mut self, message: &JsonValue) -> (r: Result<Option<BookEvent>, EngineError>)
        ensures
            match okex_message(*message) {
                None => r == Err::<Option<BookEvent>, EngineError>(EngineError::Malformed)
                    && book_unchanged(*old(self), *final(self)),
                Some(DepthAction::Ignored) => r == Ok::<Option<BookEvent>, EngineError>(None)
                    && book_unchanged(*old(self), *final(self)),
                Some(DepthAction::Partial(od)) => match book_data(od, None) {
                    None => r == Err::<Option<BookEvent>, EngineError>(EngineError::Malformed)
                        && book_unchanged(*old(self), *final(self)),
                    Some((asks, bids)) => r == Ok::<Option<BookEvent>, EngineError>(None)
                        && init_post(*old(self), *final(self), asks, bids),
                },
                Some(DepthAction::Update(od)) => match book_data(od, None) {
                    None => r == Err::<Option<BookEvent>, EngineError>(EngineError::Malformed)
                        && book_unchanged(*old(self), *final(self)),
                    Some((asks, bids)) => r is Ok && update_post(*old(self), *final(self), asks, bids, r->Ok_0),
                },
            },
    {
        match read_okex_message(message) {
            Some((MessageKind::Partial, Some(od))) => {
                match self.init_book(od) {
                    Ok(()) => Ok(None),
                    Err(e) => Err(e),
                }
            },
            Some((MessageKind::Update, Some(od))) => self.update_book(od),
            Some(_) => Ok(None),
            None => Err(EngineError::Malformed),
        }
    }

    /// Sets the book to the levels of `order_data` (see `book_data`); the
    /// recorded best levels stay.  Data not so written is an error and
    /// changes nothing.
    pub fn init_book(&mut self, order_data: &JsonValue) -> (r: Result<(), EngineError>)
        ensures
            match book_data(*order_data, None) {
                None => r == Err::<(), EngineError>(EngineError::Malformed) && book_unchanged(*old(self), *final(self)),
                Some((asks, bids)) => r == Ok::<(), EngineError>(()) && init_post(*old(self), *final(self), asks, bids),
            },
    {
        match read_book_data(order_data, None) {
            None => Err(EngineError::Malformed),
            Some((asks, bids)) => {
                self.map_asks.clear();
                self.map_bids.clear();
                insert_all(&mut self.map_asks, &asks);
                insert_all(&mut self.map_bids, &bids);
                Ok(())
            },
        }
    }

    /// Changes the book by the levels of `order_data` (see `book_data` and
    /// `update_levels`), asks first, then gives the top-of-book event where
    /// the best bid or the best ask changed.  Data not so written is an error
    /// and changes nothing.
    pub fn update_book(&mut self, order_data: &JsonValue) -> (r: Result<Option<BookEvent>, EngineError>)
        ensures
            match book_data(*order_data, None) {
                None => r == Err::<Option<BookEvent>, EngineError>(EngineError::Malformed)
                    && book_unchanged(*old(self), *final(self)),
                Some((asks, bids)) => r is Ok && update_post(*old(self), *final(self), asks, bids, r->Ok_0),
            },
    {
        match read_book_data(order_data, None) {
            None => Err(EngineError::Malformed),
            Some((asks, bids)) => {
                update_all(&mut self.map_asks, &asks);
                update_all(&mut self.map_bids, &bids);
                Ok(self.check_generate_top_of_book_event())
            },
        }
    }

    /// Compares the recorded best bid and best ask with the book's and
    /// records the book's (see `top_post`); gives an event of the new top
    /// where either changed.  A second check on an unchanged book gives none
    /// (see `lemma_top_check_settles`).
    pub fn check_generate_top_of_book_event(&mut self) -> (r: Option<BookEvent>)
        ensures
            final(self).map_asks@ == old(self).map_asks@,
            final(self).map_bids@ == old(self).map_bids@,
            top_post(
                old(self).current_bid,
                old(self).current_ask,
                old(self).map_bids@,
                old(self).map_asks@,
                final(self).current_bid,
                final(self).current_ask,
                r,
            ),
            // an event exactly where the best bid or the best ask moved in
            // price or size (or appeared, or went away)
            r is Some <==> level_moved(old(self).current_bid, highest(old(self).map_bids@)) || level_moved(
                old(self).current_ask,
                lowest(old(self).map_asks@),
            ),
            level_moved(old(self).current_bid, highest(old(self).map_bids@)) ==> final(self).current_bid == highest(
                old(self).map_bids@,
            ),
            level_moved(old(self).current_ask, lowest(old(self).map_asks@)) ==> final(self).current_ask == lowest(
                old(self).map_asks@,
            ),
    {
        let ghost pre = *self;
        let bid_changed = follow_top(&mut self.current_bid, best_bid(&self.map_bids));
        let ask_changed = follow_top(&mut self.current_ask, best_ask(&self.map_asks));
        let r = if bid_changed || ask_changed {
            Some(self.create_book_event())
        } else {
            None
        };
        proof {
            lemma_top_change_gives_event(
                pre.current_bid,
                pre.current_ask,
                pre.map_bids@,
                pre.map_asks@,
                self.current_bid,
                self.current_ask,
                r,
            );
        }
        r
    }

    fn create_book_event(&mut self) -> (r: BookEvent)
        ensures
            r == event_of(old(self).current_bid, old(self).current_ask),
            *final(self) == *old(self),
    {
        create_event(&self.current_bid, &self.current_ask)
    }
}

/// The book did not change.
pub open spec fn book_unchanged(pre: OrderBook, post: OrderBook) -> bool {
    &&& post.map_asks@ == pre.map_asks@
    &&& post.map_bids@ == pre.map_bids@
    &&& post.current_bid == pre.current_bid
    &&& post.current_ask == pre.current_ask
}

/// The book was set to the levels `asks` and `bids`; the recorded best levels stayed.
pub open spec fn init_post(pre: OrderBook, post: OrderBook, asks: Seq<Depth>, bids: Seq<Depth>) -> bool {
    &&& post.map_asks@ == insert_levels(Map::empty(), asks)
    &&& post.map_bids@ == insert_levels(Map::empty(), bids)
    &&& post.current_bid == pre.current_bid
    &&& post.current_ask == pre.current_ask
}

/// The book was changed by the levels `asks` and `bids`, and the top of the
/// book followed (see `top_post`) with the event `r`.
pub open spec fn update_post(pre: OrderBook, post: OrderBook, asks: Seq<Depth>, bids: Seq<Depth>, r: Option<BookEvent>) -> bool {
    &&& post.map_asks@ == update_levels(pre.map_asks@, asks)
    &&& post.map_bids@ == update_levels(pre.map_bids@, bids)
    &&& top_post(pre.current_bid, pre.current_ask, post.map_bids@, post.map_asks@, post.current_bid, post.current_ask, r)
}


/// The level at index `i` of `ds` is the last of `ds` at its price.
pub open spec fn last_at_price(ds: Seq<Depth>, i: int) -> bool {
    forall|j: int| i < j < ds.len() ==> (#[trigger] ds[j]).price@ != ds[i].price@
}

/// What updating by the levels `ds` leaves at the price value `k`: where no
/// level is at `k`, what was there; where the last level at `k` has size
/// zero, nothing; otherwise that level.
proof fn lemma_update_levels_at(m: Map<int, Depth>, ds: Seq<Depth>, k: int)
    ensures
        (forall|i: int| 0 <= i < ds.len() ==> (#[trigger] ds[i]).price@ != k) ==> update_levels(m, ds).contains_key(k)
            == m.contains_key(k) && (m.contains_key(k) ==> update_levels(m, ds)[k] == m[k]),
        forall|i: int|
            0 <= i < ds.len() && (#[trigger] ds[i]).price@ == k && last_at_price(ds, i) ==> (ds[i].size@ == 0
                ==> !update_levels(m, ds).contains_key(k)) && (ds[i].size@ != 0 ==> update_levels(m, ds).contains_key(
                k,
            ) && update_levels(m, ds)[k] == ds[i]),
    decreases ds.len(),
{
    if ds.len() > 0 {
        let p = ds.drop_last();
        lemma_update_levels_at(m, p, k);
        assert forall|i: int|
            0 <= i < ds.len() && (#[trigger] ds[i]).price@ == k && last_at_price(ds, i) implies (ds[i].size@ == 0
                ==> !update_levels(m, ds).contains_key(k)) && (ds[i].size@ != 0 ==> update_levels(m, ds).contains_key(
                k,
            ) && update_levels(m, ds)[k] == ds[i]) by {
            if i < ds.len() - 1 {
                assert(ds[ds.len() - 1].price@ != k);
                assert(p[i] == ds[i]);
                assert(last_at_price(p, i)) by {
                    assert forall|j: int| i < j < p.len() implies (#[trigger] p[j]).price@ != p[i].price@ by {
                        assert(p[j] == ds[j]);
                    }
                }
            }
        }
        if forall|i: int| 0 <= i < ds.len() ==> (#[trigger] ds[i]).price@ != k {
            assert forall|i: int| 0 <= i < p.len() implies (#[trigger] p[i]).price@ != k by {
                assert(p[i] == ds[i]);
            }
            assert(ds[ds.len() - 1].price@ != k);
        }
    }
}

/// What an update does to each side of the book, level by level: at a
/// price where the update's last level has size zero the book holds no
/// level; where it has another size the book holds that level; at a price
/// the update does not name the book holds what it held.
pub proof fn lemma_update_book_levels(pre: OrderBook, post: OrderBook, asks: Seq<Depth>, bids: Seq<Depth>, r: Option<BookEvent>)
    requires
        update_post(pre, post, asks, bids, r),
    ensures
        forall|i: int|
            0 <= i < bids.len() && last_at_price(bids, i) ==> (#[trigger] bids[i]).size@ == 0 ==> !post.map_bids@.contains_key(
                bids[i].price@,
            ),
        forall|i: int|
            0 <= i < bids.len() && last_at_price(bids, i) && (#[trigger] bids[i]).size@ != 0 ==> post.map_bids@.contains_key(
                bids[i].price@,
            ) && post.map_bids@[bids[i].price@] == bids[i],
        forall|k: int|
            (forall|i: int| 0 <= i < bids.len() ==> (#[trigger] bids[i]).price@ != k) ==> (#[trigger] post.map_bids@.contains_key(k))
                == pre.map_bids@.contains_key(k) && (pre.map_bids@.contains_key(k) ==> post.map_bids@[k]
                == pre.map_bids@[k]),
        forall|i: int|
            0 <= i < asks.len() && last_at_price(asks, i) ==> (#[trigger] asks[i]).size@ == 0 ==> !post.map_asks@.contains_key(
                asks[i].price@,
            ),
        forall|i: int|
            0 <= i < asks.len() && last_at_price(asks, i) && (#[trigger] asks[i]).size@ != 0 ==> post.map_asks@.contains_key(
                asks[i].price@,
            ) && post.map_asks@[asks[i].price@] == asks[i],
        forall|k: int|
            (forall|i: int| 0 <= i < asks.len() ==> (#[trigger] asks[i]).price@ != k) ==> (#[trigger] post.map_asks@.contains_key(k))
                == pre.map_asks@.contains_key(k) && (pre.map_asks@.contains_key(k) ==> post.map_asks@[k]
                == pre.map_asks@[k]),
{
    assert forall|i: int| 0 <= i < bids.len() && last_at_price(bids, i) implies ((#[trigger] bids[i]).size@ == 0
        ==> !post.map_bids@.contains_key(bids[i].price@)) && (bids[i].size@ != 0 ==> post.map_bids@.contains_key(
        bids[i].price@,
    ) && post.map_bids@[bids[i].price@] == bids[i]) by {
        lemma_update_levels_at(pre.map_bids@, bids, bids[i].price@);
    }
    assert forall|i: int| 0 <= i < asks.len() && last_at_price(asks, i) implies ((#[trigger] asks[i]).size@ == 0
        ==> !post.map_asks@.contains_key(asks[i].price@)) && (asks[i].size@ != 0 ==> post.map_asks@.contains_key(
        asks[i].price@,
    ) && post.map_asks@[asks[i].price@] == asks[i]) by {
        lemma_update_levels_at(pre.map_asks@, asks, asks[i].price@);
    }
    assert forall|k: int| (forall|i: int| 0 <= i < bids.len() ==> (#[trigger] bids[i]).price@ != k) implies (
    #[trigger] post.map_bids@.contains_key(k)) == pre.map_bids@.contains_key(k) && (pre.map_bids@.contains_key(k)
        ==> post.map_bids@[k] == pre.map_bids@[k]) by {
        lemma_update_levels_at(pre.map_bids@, bids, k);
    }
    assert forall|k: int| (forall|i: int| 0 <= i < asks.len() ==> (#[trigger] asks[i]).price@ != k) implies (
    #[trigger] post.map_asks@.contains_key(k)) == pre.map_asks@.contains_key(k) && (pre.map_asks@.contains_key(k)
        ==> post.map_asks@[k] == pre.map_asks@[k]) by {
        lemma_update_levels_at(pre.map_asks@, asks, k);
    }
}

} // verus!
