//! What the order books share: the best levels of a side, the top-of-book
//! event, and the levels of a depth message.
use crate::engine::common::{BookEvent, Depth, Side};
use crate::engine::levels::PriceLevels;
use crate::utils::decimal::{dec_eq, decimal_parse, parse_decimal, Dec};
use crate::utils::json::JsonValue;
use crate::utils::text::{parse_usize, usize_text};
use vstd::prelude::*;

verus! {

/// `k` is the highest price value of `m`.
pub open spec fn is_highest(m: Map<int, Depth>, k: int) -> bool {
    m.contains_key(k) && forall|k2: int| #[trigger] m.contains_key(k2) ==> k2 <= k
}

/// `k` is the lowest price value of `m`.
pub open spec fn is_lowest(m: Map<int, Depth>, k: int) -> bool {
    m.contains_key(k) && forall|k2: int| #[trigger] m.contains_key(k2) ==> k <= k2
}

/// The level with the highest price, if any.
pub open spec fn highest(m: Map<int, Depth>) -> Option<Depth> {
    if exists|k: int| is_highest(m, k) {
        Some(m[choose|k: int| is_highest(m, k)])
    } else {
        None
    }
}

/// The level with the lowest price, if any.
pub open spec fn lowest(m: Map<int, Depth>) -> Option<Depth> {
    if exists|k: int| is_lowest(m, k) {
        Some(m[choose|k: int| is_lowest(m, k)])
    } else {
        None
    }
}

/// How the recorded best level `cur` follows the best level `best` of the
/// book: whether the top changed (in price or size), and the level recorded after.
pub open spec fn top_step(cur: Option<Depth>, best: Option<Depth>) -> (bool, Option<Depth>) {
    match best {
        None => (cur is Some, None),
        Some(b) => match cur {
            None => (true, Some(b)),
            Some(c) => if c.price@ != b.price@ || c.size@ != b.size@ {
                (true, Some(b))
            } else {
                (false, cur)
            },
        },
    }
}

/// The top-of-book event for the recorded best bid and best ask; a missing
/// side is reported with price and size zero.
pub open spec fn event_of(bid: Option<Depth>, ask: Option<Depth>) -> BookEvent {
    BookEvent {
        bid_price: match bid {
            Some(b) => b.price,
            None => Dec::spec_zero(),
        },
        bid_size: match bid {
            Some(b) => b.size,
            None => Dec::spec_zero(),
        },
        ask_price: match ask {
            Some(a) => a.price,
            None => Dec::spec_zero(),
        },
        ask_size: match ask {
            Some(a) => a.size,
            None => Dec::spec_zero(),
        },
    }
}

/// Whether the best level of a side moved from the recorded one `cur` to the
/// book's `best`: one is there and the other not, or the price or the size
/// differs.
pub open spec fn level_moved(cur: Option<Depth>, best: Option<Depth>) -> bool {
    match (cur, best) {
        (None, None) => false,
        (Some(c), Some(b)) => c.price@ != b.price@ || c.size@ != b.size@,
        _ => true,
    }
}

/// Whether the recorded best level `cur` agrees with the best level `best`
/// of the book: both absent, or both present with the same price and size.
pub open spec fn top_agrees(cur: Option<Depth>, best: Option<Depth>) -> bool {
    match (cur, best) {
        (None, None) => true,
        (Some(c), Some(b)) => c.price@ == b.price@ && c.size@ == b.size@,
        _ => false,
    }
}

/// The best bid of `bids`.
pub fn best_bid(bids: &PriceLevels) -> (r: Option<Depth>)
    ensures
        r == highest(bids@),
{
    let r = bids.last();
    proof {
        match r {
            Some(d) => {
                assert(is_highest(bids@, d.price@));
                let k = choose|k: int| is_highest(bids@, k);
            },
            None => {
                assert(!exists|k: int| is_highest(bids@, k)) by {
                    if exists|k: int| is_highest(bids@, k) {
                        let k = choose|k: int| is_highest(bids@, k);
                    }
                }
            },
        }
    }
    r
}

/// The best ask of `asks`.
pub fn best_ask(asks: &PriceLevels) -> (r: Option<Depth>)
    ensures
        r == lowest(asks@),
{
    let r = asks.first();
    proof {
        match r {
            Some(d) => {
                assert(is_lowest(asks@, d.price@));
                let k = choose|k: int| is_lowest(asks@, k);
            },
            None => {
                assert(!exists|k: int| is_lowest(asks@, k)) by {
                    if exists|k: int| is_lowest(asks@, k) {
                        let k = choose|k: int| is_lowest(asks@, k);
                    }
                }
            },
        }
    }
    r
}

/// Follows the best level of a side (see `top_step`); returns whether it changed.
pub fn follow_top(cur: &mut Option<Depth>, best: Option<Depth>) -> (changed: bool)
    ensures
        (changed, *final(cur)) == top_step(*old(cur), best),
        top_agrees(*final(cur), best),
{
    match best {
        None => {
            if cur.is_some() {
                *cur = None;
                true
            } else {
                false
            }
        },
        Some(b) => {
            let changed = match cur {
                None => true,
                Some(c) => !dec_eq(&c.price, &b.price) || !dec_eq(&c.size, &b.size),
            };
            if changed {
                *cur = Some(b);
            }
            changed
        },
    }
}

/// The top-of-book event for the recorded best levels.
pub fn create_event(bid: &Option<Depth>, ask: &Option<Depth>) -> (r: BookEvent)
    ensures
        r == event_of(*bid, *ask),
{
    BookEvent {
        bid_price: match bid {
            Some(b) => b.price,
            None => Dec::zero(),
        },
        bid_size: match bid {
            Some(b) => b.size,
            None => Dec::zero(),
        },
        ask_price: match ask {
            Some(a) => a.price,
            None => Dec::zero(),
        },
        ask_size: match ask {
            Some(a) => a.size,
            None => Dec::zero(),
        },
    }
}

/// A level of a depth message written `[price, size, _, count]` with every
/// field a string; `None` where it is not so written.
pub open spec fn okex_level(v: JsonValue, side: Side) -> Option<Depth> {
    match v.spec_as_array() {
        Some(a) => if a.len() < 4 {
            None
        } else {
            match (a[0].spec_as_str(), a[1].spec_as_str(), a[3].spec_as_str()) {
                (Some(p), Some(s), Some(c)) => match (
                    decimal_parse(p@),
                    decimal_parse(s@),
                    usize_text(c@),
                ) {
                    (Some(price), Some(size), Some(count)) => Some(
                        Depth {
                            price: price,
                            size: size,
                            side: side,
                            count: Some(count),
                            timestamp: None,
                        },
                    ),
                    _ => None,
                },
                _ => None,
            }
        },
        None => None,
    }
}

/// The levels of a list of depth entries, all of `side`, stamped `ts`; `None`
/// where one of them is not well written (see `okex_level`).
pub open spec fn okex_levels(items: Seq<JsonValue>, side: Side, ts: Option<i64>) -> Option<Seq<Depth>>
    decreases items.len(),
{
    if items.len() == 0 {
        Some(Seq::empty())
    } else {
        match (okex_levels(items.drop_last(), side, ts), okex_level(items.last(), side)) {
            (Some(ds), Some(d)) => Some(ds.push(Depth { timestamp: ts, ..d })),
            _ => None,
        }
    }
}

/// Reads a level written `[price, size, _, count]` (see `okex_level`).
pub fn read_okex_level(v: &JsonValue, side: Side) -> (r: Option<Depth>)
    ensures
        r == okex_level(*v, side),
{
    let a = match v.as_array() {
        Some(a) => a,
        None => {
            return None;
        },
    };
    if a.len() < 4 {
        return None;
    }
    let p = match a[0].as_str() {
        Some(p) => p,
        None => {
            return None;
        },
    };
    let s = match a[1].as_str() {
        Some(s) => s,
        None => {
            return None;
        },
    };
    let c = match a[3].as_str() {
        Some(c) => c,
        None => {
            return None;
        },
    };
    let price = parse_decimal(p.as_str());
    let size = parse_decimal(s.as_str());
    let count = parse_usize(c.as_str());
    match (price, size, count) {
        (Some(price), Some(size), Some(count)) => Some(
            Depth { price: price, size: size, side: side, count: Some(count), timestamp: None },
        ),
        _ => None,
    }
}

/// Reads a list of depth entries (see `okex_levels`).
pub fn read_okex_levels(items: &Vec<JsonValue>, side: Side, ts: Option<i64>) -> (r: Option<Vec<Depth>>)
    ensures
        match okex_levels(items@, side, ts) {
            Some(ds) => r matches Some(v) && v@ == ds,
            None => r is None,
        },
{
    let mut out: Vec<Depth> = Vec::new();
    let mut i: usize = 0;
    while i < items.len()
        invariant
            i <= items@.len(),
            okex_levels(items@.take(i as int), side, ts) == Some(out@),
        decreases items@.len() - i,
    {
        proof {
            assert(items@.take(i + 1).drop_last() =~= items@.take(i as int));
        }
        match read_okex_level(&items[i], side) {
            Some(d) => {
                out.push(Depth { timestamp: ts, ..d });
            },
            None => {
                proof {
                    lemma_okex_levels_prefix_none(items@, side, ts, i + 1);
                }
                return None;
            },
        }
        i = i + 1;
    }
    proof {
        assert(items@.take(items@.len() as int) =~= items@);
    }
    Some(out)
}

/// A badly written entry spoils every longer list.
proof fn lemma_okex_levels_prefix_none(items: Seq<JsonValue>, side: Side, ts: Option<i64>, n: int)
    requires
        0 <= n <= items.len(),
        okex_levels(items.take(n), side, ts) is None,
    ensures
        okex_levels(items, side, ts) is None,
    decreases items.len() - n,
{
    if n < items.len() {
        assert(items.take(n + 1).drop_last() =~= items.take(n));
        lemma_okex_levels_prefix_none(items, side, ts, n + 1);
    } else {
        assert(items.take(n) =~= items);
    }
}

} // verus!
