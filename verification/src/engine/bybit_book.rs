//! Messages of the Bybit book channel (`orderBook_200.100ms.BTCUSDT`): a
//! snapshot sets the book; a delta deletes, updates and inserts levels, in
//! that order.  Levels are objects with members `price` (a string), `size`
//! (a number) and `side` (`Sell` for an ask, anything else for a bid).
use crate::engine::common::{Depth, Side};
use crate::engine::error::EngineError;
use crate::engine::levels::PriceLevels;
use crate::utils::decimal::{decimal_parse, parse_decimal, Dec};
use crate::utils::json::{member_is_str, JsonValue};
use vstd::prelude::*;

verus! {

/// A level of a snapshot, an update or an insert: an object with a string
/// `price`, a number `size` and a `side`; `None` where it is not so written.
pub open spec fn bybit_level(v: JsonValue) -> Option<Depth> {
    match v {
        JsonValue::Object(_) => match (v.spec_get("price"@), v.spec_get("size"@), v.spec_get("side"@)) {
            (Some(p), Some(s), Some(_)) => match (p.spec_as_str(), s.spec_as_number()) {
                (Some(pt), Some(st)) => match (decimal_parse(pt@), decimal_parse(st@)) {
                    (Some(price), Some(size)) => Some(
                        Depth {
                            price: price,
                            size: size,
                            side: if member_is_str(v, "side"@, "Sell"@) {
                                Side::Ask
                            } else {
                                Side::Bid
                            },
                            count: None,
                            timestamp: None,
                        },
                    ),
                    _ => None,
                },
                _ => None,
            },
            _ => None,
        },
        _ => None,
    }
}

/// A level to delete: its price, a string, and its side: `Sell` for an ask,
/// `Buy` for a bid, `None` for anything else; `None` where the price is not so written.
pub open spec fn bybit_delete(v: JsonValue) -> Option<(Dec, Option<Side>)> {
    match v.spec_get("price"@) {
        Some(p) => match p.spec_as_str() {
            Some(pt) => match decimal_parse(pt@) {
                Some(price) => Some(
                    (
                        price,
                        if member_is_str(v, "side"@, "Sell"@) {
                            Some(Side::Ask)
                        } else if member_is_str(v, "side"@, "Buy"@) {
                            Some(Side::Bid)
                        } else {
                            None
                        },
                    ),
                ),
                None => None,
            },
            None => None,
        },
        None => None,
    }
}

/// The levels of a list; `None` where one is not well written.
pub open spec fn bybit_levels(items: Seq<JsonValue>) -> Option<Seq<Depth>>
    decreases items.len(),
{
    if items.len() == 0 {
        Some(Seq::empty())
    } else {
        match (bybit_levels(items.drop_last()), bybit_level(items.last())) {
            (Some(ds), Some(d)) => Some(ds.push(d)),
            _ => None,
        }
    }
}

/// The deletes of a list; `None` where one is not well written.
pub open spec fn bybit_deletes(items: Seq<JsonValue>) -> Option<Seq<(Dec, Option<Side>)>>
    decreases items.len(),
{
    if items.len() == 0 {
        Some(Seq::empty())
    } else {
        match (bybit_deletes(items.drop_last()), bybit_delete(items.last())) {
            (Some(ds), Some(d)) => Some(ds.push(d)),
            _ => None,
        }
    }
}

/// The deletes, updates and inserts of a delta: an object whose members
/// `delete`, `update` and `insert` are lists; `None` where it is not so written.
pub open spec fn bybit_delta(v: JsonValue) -> Option<(Seq<(Dec, Option<Side>)>, Seq<Depth>, Seq<Depth>)> {
    match v {
        JsonValue::Object(_) => match (v.spec_get("delete"@), v.spec_get("update"@), v.spec_get("insert"@)) {
            (Some(d), Some(u), Some(i)) => match (d.spec_as_array(), u.spec_as_array(), i.spec_as_array()) {
                (Some(di), Some(ui), Some(ii)) => match (bybit_deletes(di), bybit_levels(ui), bybit_levels(ii)) {
                    (Some(ds), Some(us), Some(is)) => Some((ds, us, is)),
                    _ => None,
                },
                _ => None,
            },
            _ => None,
        },
        _ => None,
    }
}

/// What a message of the Bybit book channel asks.
pub enum BybitAction {
    /// Nothing: another topic, or another type.
    Ignored,
    /// Set the book from this list of levels.
    Snapshot(Seq<JsonValue>),
    /// Change the book by this delta.
    Delta(JsonValue),
}

/// What the message `v` asks: it is an object; if its `topic` is
/// `orderBook_200.100ms.BTCUSDT` it has a `type`, and where that is
/// `snapshot` its `data` is an object whose `order_book` is a list, where it
/// is `delta` its `data` is an object.  `None` where it is not so written.
pub open spec fn bybit_message(v: JsonValue) -> Option<BybitAction> {
    match v {
        JsonValue::Object(_) => if member_is_str(v, "topic"@, "orderBook_200.100ms.BTCUSDT"@) {
            match v.spec_get("type"@) {
                None => None,
                Some(t) => match t.spec_as_str() {
                    None => Some(BybitAction::Ignored),
                    Some(ty) => if ty@ == "snapshot"@ {
                        match v.spec_get("data"@) {
                            Some(d) => match d {
                                JsonValue::Object(_) => match d.spec_get("order_book"@) {
                                    Some(ob) => match ob.spec_as_array() {
                                        Some(items) => Some(BybitAction::Snapshot(items)),
                                        None => None,
                                    },
                                    None => None,
                                },
                                _ => None,
                            },
                            None => None,
                        }
                    } else if ty@ == "delta"@ {
                        match v.spec_get("data"@) {
                            Some(d) => match d {
                                JsonValue::Object(_) => Some(BybitAction::Delta(d)),
                                _ => None,
                            },
                            None => None,
                        }
                    } else {
                        Some(BybitAction::Ignored)
                    },
                },
            }
        } else {
            Some(BybitAction::Ignored)
        },
        _ => None,
    }
}

/// Deletes the level at `price` on `side` where there is one (no side: nothing).
pub open spec fn delete_one(st: (Map<int, Depth>, Map<int, Depth>), d: (Dec, Option<Side>)) -> (
    Map<int, Depth>,
    Map<int, Depth>,
) {
    match d.1 {
        Some(Side::Ask) => (st.0.remove(d.0@), st.1),
        Some(Side::Bid) => (st.0, st.1.remove(d.0@)),
        None => st,
    }
}

/// Deletes levels, in order, from the asks and the bids.
pub open spec fn delete_all(st: (Map<int, Depth>, Map<int, Depth>), ds: Seq<(Dec, Option<Side>)>) -> (
    Map<int, Depth>,
    Map<int, Depth>,
)
    decreases ds.len(),
{
    if ds.len() == 0 {
        st
    } else {
        delete_one(delete_all(st, ds.drop_last()), ds.last())
    }
}

/// Inserts a level on its side; an error where a level stands at its price.
pub open spec fn insert_one(st: (Map<int, Depth>, Map<int, Depth>), d: Depth) -> Result<
    (Map<int, Depth>, Map<int, Depth>),
    EngineError,
> {
    if d.side == Side::Ask {
        if st.0.contains_key(d.price@) {
            Err(EngineError::LevelExists)
        } else {
            Ok((st.0.insert(d.price@, d), st.1))
        }
    } else {
        if st.1.contains_key(d.price@) {
            Err(EngineError::LevelExists)
        } else {
            Ok((st.0, st.1.insert(d.price@, d)))
        }
    }
}

/// Replaces a level on its side; an error where no level stands at its
/// price, except for an ask where `lenient_asks` holds.
pub open spec fn update_one(st: (Map<int, Depth>, Map<int, Depth>), d: Depth, lenient_asks: bool) -> Result<
    (Map<int, Depth>, Map<int, Depth>),
    EngineError,
> {
    if d.side == Side::Ask {
        if !st.0.contains_key(d.price@) && !lenient_asks {
            Err(EngineError::LevelMissing)
        } else {
            Ok((st.0.insert(d.price@, d), st.1))
        }
    } else {
        if !st.1.contains_key(d.price@) {
            Err(EngineError::LevelMissing)
        } else {
            Ok((st.0, st.1.insert(d.price@, d)))
        }
    }
}

/// Inserts levels in order; the first error stops it.
pub open spec fn insert_each(st: (Map<int, Depth>, Map<int, Depth>), ds: Seq<Depth>) -> Result<
    (Map<int, Depth>, Map<int, Depth>),
    EngineError,
>
    decreases ds.len(),
{
    if ds.len() == 0 {
        Ok(st)
    } else {
        match insert_each(st, ds.drop_last()) {
            Ok(s2) => insert_one(s2, ds.last()),
            Err(e) => Err(e),
        }
    }
}

/// Replaces levels in order; the first error stops it.
pub open spec fn update_each(st: (Map<int, Depth>, Map<int, Depth>), ds: Seq<Depth>, lenient_asks: bool) -> Result<
    (Map<int, Depth>, Map<int, Depth>),
    EngineError,
>
    decreases ds.len(),
{
    if ds.len() == 0 {
        Ok(st)
    } else {
        match update_each(st, ds.drop_last(), lenient_asks) {
            Ok(s2) => update_one(s2, ds.last(), lenient_asks),
            Err(e) => Err(e),
        }
    }
}

/// What a delta does to the asks and the bids: deletes, then updates, then inserts.
pub open spec fn apply_delta(
    st: (Map<int, Depth>, Map<int, Depth>),
    deletes: Seq<(Dec, Option<Side>)>,
    updates: Seq<Depth>,
    inserts: Seq<Depth>,
    lenient_asks: bool,
) -> Result<(Map<int, Depth>, Map<int, Depth>), EngineError> {
    match update_each(delete_all(st, deletes), updates, lenient_asks) {
        Ok(s2) => insert_each(s2, inserts),
        Err(e) => Err(e),
    }
}

/// What a snapshot does: clears both sides, then inserts the levels.
pub open spec fn apply_snapshot(levels: Seq<Depth>) -> Result<(Map<int, Depth>, Map<int, Depth>), EngineError> {
    insert_each((Map::empty(), Map::empty()), levels)
}

/// Inserting levels fails only on a level that already stands at its price.
pub proof fn lemma_insert_each_error(st: (Map<int, Depth>, Map<int, Depth>), ds: Seq<Depth>)
    ensures
        insert_each(st, ds) matches Err(e) ==> e == EngineError::LevelExists,
    decreases ds.len(),
{
    if ds.len() > 0 {
        lemma_insert_each_error(st, ds.drop_last());
    }
}

/// Replacing levels fails only on a level that does not stand at its price.
pub proof fn lemma_update_each_error(st: (Map<int, Depth>, Map<int, Depth>), ds: Seq<Depth>, lenient_asks: bool)
    ensures
        update_each(st, ds, lenient_asks) matches Err(e) ==> e == EngineError::LevelMissing,
    decreases ds.len(),
{
    if ds.len() > 0 {
        lemma_update_each_error(st, ds.drop_last(), lenient_asks);
    }
}

/// A delta or a snapshot fails only on a level that stands, or does not
/// stand, where it should not, or should.
pub proof fn lemma_book_change_errors(
    st: (Map<int, Depth>, Map<int, Depth>),
    deletes: Seq<(Dec, Option<Side>)>,
    updates: Seq<Depth>,
    inserts: Seq<Depth>,
    lenient_asks: bool,
)
    ensures
        apply_delta(st, deletes, updates, inserts, lenient_asks) matches Err(e) ==> e == EngineError::LevelExists
            || e == EngineError::LevelMissing,
        apply_snapshot(inserts) matches Err(e) ==> e == EngineError::LevelExists,
{
    lemma_update_each_error(delete_all(st, deletes), updates, lenient_asks);
    if let Ok(s2) = update_each(delete_all(st, deletes), updates, lenient_asks) {
        lemma_insert_each_error(s2, inserts);
    }
    lemma_insert_each_error((Map::empty(), Map::empty()), inserts);
}

/// Reads a level (see `bybit_level`).
pub fn read_bybit_level(v: &JsonValue) -> (r: Option<Depth>)
    ensures
        r == bybit_level(*v),
{
    match v {
        JsonValue::Object(_) => {},
        _ => {
            return None;
        },
    }
    let (p, s, side) = match (v.get("price"), v.get("size"), v.get("side")) {
        (Some(p), Some(s), Some(side)) => (p, s, side),
        _ => {
            return None;
        },
    };
    let (pt, st) = match (p.as_str(), s.as_number()) {
        (Some(pt), Some(st)) => (pt, st),
        _ => {
            return None;
        },
    };
    match (parse_decimal(pt.as_str()), parse_decimal(st.as_str())) {
        (Some(price), Some(size)) => Some(
            Depth {
                price: price,
                size: size,
                side: if side.is_str("Sell") {
                    Side::Ask
                } else {
                    Side::Bid
                },
                count: None,
                timestamp: None,
            },
        ),
        _ => None,
    }
}

/// Reads a delete (see `bybit_delete`).
pub fn read_bybit_delete(v: &JsonValue) -> (r: Option<(Dec, Option<Side>)>)
    ensures
        r == bybit_delete(*v),
{
    let pt = match v.get("price") {
        Some(p) => match p.as_str() {
            Some(pt) => pt,
            None => {
                return None;
            },
        },
        None => {
            return None;
        },
    };
    let price = match parse_decimal(pt.as_str()) {
        Some(price) => price,
        None => {
            return None;
        },
    };
    let side = match v.get("side") {
        Some(s) => if s.is_str("Sell") {
            Some(Side::Ask)
        } else if s.is_str("Buy") {
            Some(Side::Bid)
        } else {
            None
        },
        None => None,
    };
    Some((price, side))
}

/// Reads a list of levels (see `bybit_levels`).
pub fn read_bybit_levels(items: &Vec<JsonValue>) -> (r: Option<Vec<Depth>>)
    ensures
        match bybit_levels(items@) {
            Some(ds) => r matches Some(v) && v@ == ds,
            None => r is None,
        },
{
    let mut out: Vec<Depth> = Vec::new();
    let mut i: usize = 0;
    while i < items.len()
        invariant
            i <= items@.len(),
            bybit_levels(items@.take(i as int)) == Some(out@),
        decreases items@.len() - i,
    {
        proof {
            assert(items@.take(i + 1).drop_last() =~= items@.take(i as int));
        }
        match read_bybit_level(&items[i]) {
            Some(d) => {
                out.push(d);
            },
            None => {
                proof {
                    lemma_bybit_levels_prefix_none(items@, i + 1);
                }
                return None;
            },
        }
        i = i + 1;
    }
    proof {
        assert(items@.take(items@.len() as int) =~= items@);
    }
    Some(out)
}

proof fn lemma_bybit_levels_prefix_none(items: Seq<JsonValue>, n: int)
    requires
        0 <= n <= items.len(),
        bybit_levels(items.take(n)) is None,
    ensures
        bybit_levels(items) is None,
    decreases items.len() - n,
{
    if n < items.len() {
        assert(items.take(n + 1).drop_last() =~= items.take(n));
        lemma_bybit_levels_prefix_none(items, n + 1);
    } else {
        assert(items.take(n) =~= items);
    }
}

proof fn lemma_bybit_deletes_prefix_none(items: Seq<JsonValue>, n: int)
    requires
        0 <= n <= items.len(),
        bybit_deletes(items.take(n)) is None,
    ensures
        bybit_deletes(items) is None,
    decreases items.len() - n,
{
    if n < items.len() {
        assert(items.take(n + 1).drop_last() =~= items.take(n));
        lemma_bybit_deletes_prefix_none(items, n + 1);
    } else {
        assert(items.take(n) =~= items);
    }
}

/// Reads a list of deletes (see `bybit_deletes`).
pub fn read_bybit_deletes(items: &Vec<JsonValue>) -> (r: Option<Vec<(Dec, Option<Side>)>>)
    ensures
        match bybit_deletes(items@) {
            Some(ds) => r matches Some(v) && v@ == ds,
            None => r is None,
        },
{
    let mut out: Vec<(Dec, Option<Side>)> = Vec::new();
    let mut i: usize = 0;
    while i < items.len()
        invariant
            i <= items@.len(),
            bybit_deletes(items@.take(i as int)) == Some(out@),
        decreases items@.len() - i,
    {
        proof {
            assert(items@.take(i + 1).drop_last() =~= items@.take(i as int));
        }
        match read_bybit_delete(&items[i]) {
            Some(d) => {
                out.push(d);
            },
            None => {
                proof {
                    lemma_bybit_deletes_prefix_none(items@, i + 1);
                }
                return None;
            },
        }
        i = i + 1;
    }
    proof {
        assert(items@.take(items@.len() as int) =~= items@);
    }
    Some(out)
}

/// Reads a delta (see `bybit_delta`).
pub fn read_bybit_delta(v: &JsonValue) -> (r: Option<(Vec<(Dec, Option<Side>)>, Vec<Depth>, Vec<Depth>)>)
    ensures
        match bybit_delta(*v) {
            Some((ds, us, is)) => r matches Some((vd, vu, vi)) && vd@ == ds && vu@ == us && vi@ == is,
            None => r is None,
        },
{
    match v {
        JsonValue::Object(_) => {},
        _ => {
            return None;
        },
    }
    let (d, u, i) = match (v.get("delete"), v.get("update"), v.get("insert")) {
        (Some(d), Some(u), Some(i)) => (d, u, i),
        _ => {
            return None;
        },
    };
    let (di, ui, ii) = match (d.as_array(), u.as_array(), i.as_array()) {
        (Some(di), Some(ui), Some(ii)) => (di, ui, ii),
        _ => {
            return None;
        },
    };
    match (read_bybit_deletes(di), read_bybit_levels(ui), read_bybit_levels(ii)) {
        (Some(ds), Some(us), Some(is)) => Some((ds, us, is)),
        _ => None,
    }
}

/// What a message asks, without its data.
#[derive(Debug, Copy, Clone, PartialEq, Eq, Structural)]
pub enum BybitKind {
    Ignored,
    Snapshot,
    Delta,
}

/// Reads what a message asks (see `bybit_message`), with a reference to its data.
pub fn read_bybit_message(v: &JsonValue) -> (r: Option<(BybitKind, Option<&JsonValue>)>)
    ensures
        match bybit_message(*v) {
            None => r is None,
            Some(BybitAction::Ignored) => r == Some((BybitKind::Ignored, None::<&JsonValue>)),
            Some(BybitAction::Snapshot(items)) => r matches Some((BybitKind::Snapshot, Some(ob)))
                && ob.spec_as_array() == Some(items),
            Some(BybitAction::Delta(d)) => r == Some((BybitKind::Delta, Some(&d))),
        },
{
    match v {
        JsonValue::Object(_) => {},
        _ => {
            return None;
        },
    }
    let topic_ok = match v.get("topic") {
        Some(t) => t.is_str("orderBook_200.100ms.BTCUSDT"),
        None => false,
    };
    if !topic_ok {
        return Some((BybitKind::Ignored, None));
    }
    let ty = match v.get("type") {
        Some(t) => match t.as_str() {
            Some(ty) => ty,
            None => {
                return Some((BybitKind::Ignored, None));
            },
        },
        None => {
            return None;
        },
    };
    if *ty == String::from_str("snapshot") {
        match v.get("data") {
            Some(d) => match d {
                JsonValue::Object(_) => match d.get("order_book") {
                    Some(ob) => match ob.as_array() {
                        Some(_) => Some((BybitKind::Snapshot, Some(ob))),
                        None => None,
                    },
                    None => None,
                },
                _ => None,
            },
            None => None,
        }
    } else if *ty == String::from_str("delta") {
        match v.get("data") {
            Some(d) => match d {
                JsonValue::Object(_) => Some((BybitKind::Delta, Some(d))),
                _ => None,
            },
            None => None,
        }
    } else {
        Some((BybitKind::Ignored, None))
    }
}

/// Inserts a level on its side; an error where a level stands at its price.
pub fn insert_level(asks: &mut PriceLevels, bids: &mut PriceLevels, d: Depth) -> (r: Result<(), EngineError>)
    ensures
        match insert_one((old(asks)@, old(bids)@), d) {
            Ok((a, b)) => r == Ok::<(), EngineError>(()) && final(asks)@ == a && final(bids)@ == b,
            Err(e) => r == Err::<(), EngineError>(e) && final(asks)@ == old(asks)@ && final(bids)@ == old(bids)@,
        },
{
    if d.side == Side::Ask {
        if asks.contains(&d.price) {
            return Err(EngineError::LevelExists);
        }
        asks.insert(d);
    } else {
        if bids.contains(&d.price) {
            return Err(EngineError::LevelExists);
        }
        bids.insert(d);
    }
    Ok(())
}

/// Replaces a level on its side (see `update_one`).
pub fn update_level(asks: &mut PriceLevels, bids: &mut PriceLevels, d: Depth, lenient_asks: bool) -> (r: Result<(), EngineError>)
    ensures
        match update_one((old(asks)@, old(bids)@), d, lenient_asks) {
            Ok((a, b)) => r == Ok::<(), EngineError>(()) && final(asks)@ == a && final(bids)@ == b,
            Err(e) => r == Err::<(), EngineError>(e) && final(asks)@ == old(asks)@ && final(bids)@ == old(bids)@,
        },
{
    if d.side == Side::Ask {
        if !asks.contains(&d.price) && !lenient_asks {
            return Err(EngineError::LevelMissing);
        }
        asks.insert(d);
    } else {
        if !bids.contains(&d.price) {
            return Err(EngineError::LevelMissing);
        }
        bids.insert(d);
    }
    Ok(())
}

/// Inserts levels in order (see `insert_each`); on an error the sides are
/// left as they were.
pub fn insert_levels_each(asks: &mut PriceLevels, bids: &mut PriceLevels, ds: &Vec<Depth>) -> (r: Result<(), EngineError>)
    ensures
        match insert_each((old(asks)@, old(bids)@), ds@) {
            Ok((a, b)) => r == Ok::<(), EngineError>(()) && final(asks)@ == a && final(bids)@ == b,
            Err(e) => r == Err::<(), EngineError>(e) && final(asks)@ == old(asks)@ && final(bids)@ == old(bids)@,
        },
{
    let mut a = asks.copy();
    let mut b = bids.copy();
    let mut i: usize = 0;
    while i < ds.len()
        invariant
            i <= ds@.len(),
            insert_each((old(asks)@, old(bids)@), ds@.take(i as int)) == Ok::<(Map<int, Depth>, Map<int, Depth>), EngineError>((a@, b@)),
            asks@ == old(asks)@,
            bids@ == old(bids)@,
        decreases ds@.len() - i,
    {
        proof {
            assert(ds@.take(i + 1).drop_last() =~= ds@.take(i as int));
        }
        match insert_level(&mut a, &mut b, ds[i]) {
            Ok(()) => {},
            Err(e) => {
                proof {
                    lemma_insert_each_err(old(asks)@, old(bids)@, ds@, i + 1, e);
                }
                return Err(e);
            },
        }
        i = i + 1;
    }
    proof {
        assert(ds@.take(ds@.len() as int) =~= ds@);
    }
    *asks = a;
    *bids = b;
    Ok(())
}

proof fn lemma_insert_each_err(a: Map<int, Depth>, b: Map<int, Depth>, ds: Seq<Depth>, n: int, e: EngineError)
    requires
        0 <= n <= ds.len(),
        insert_each((a, b), ds.take(n)) == Err::<(Map<int, Depth>, Map<int, Depth>), EngineError>(e),
    ensures
        insert_each((a, b), ds) == Err::<(Map<int, Depth>, Map<int, Depth>), EngineError>(e),
    decreases ds.len() - n,
{
    if n < ds.len() {
        assert(ds.take(n + 1).drop_last() =~= ds.take(n));
        lemma_insert_each_err(a, b, ds, n + 1, e);
    } else {
        assert(ds.take(n) =~= ds);
    }
}

proof fn lemma_update_each_err(st: (Map<int, Depth>, Map<int, Depth>), ds: Seq<Depth>, lenient_asks: bool, n: int, e: EngineError)
    requires
        0 <= n <= ds.len(),
        update_each(st, ds.take(n), lenient_asks) == Err::<(Map<int, Depth>, Map<int, Depth>), EngineError>(e),
    ensures
        update_each(st, ds, lenient_asks) == Err::<(Map<int, Depth>, Map<int, Depth>), EngineError>(e),
    decreases ds.len() - n,
{
    if n < ds.len() {
        assert(ds.take(n + 1).drop_last() =~= ds.take(n));
        lemma_update_each_err(st, ds, lenient_asks, n + 1, e);
    } else {
        assert(ds.take(n) =~= ds);
    }
}

/// Applies a delta (see `apply_delta`); on an error the sides are left as they were.
pub fn apply_delta_levels(
    asks: &mut PriceLevels,
    bids: &mut PriceLevels,
    deletes: &Vec<(Dec, Option<Side>)>,
    updates: &Vec<Depth>,
    inserts: &Vec<Depth>,
    lenient_asks: bool,
) -> (r: Result<(), EngineError>)
    ensures
        match apply_delta((old(asks)@, old(bids)@), deletes@, updates@, inserts@, lenient_asks) {
            Ok((a, b)) => r == Ok::<(), EngineError>(()) && final(asks)@ == a && final(bids)@ == b,
            Err(e) => r == Err::<(), EngineError>(e) && final(asks)@ == old(asks)@ && final(bids)@ == old(bids)@,
        },
{
    let mut a = asks.copy();
    let mut b = bids.copy();
    let mut i: usize = 0;
    while i < deletes.len()
        invariant
            i <= deletes@.len(),
            delete_all((old(asks)@, old(bids)@), deletes@.take(i as int)) == (a@, b@),
            asks@ == old(asks)@,
            bids@ == old(bids)@,
        decreases deletes@.len() - i,
    {
        proof {
            assert(deletes@.take(i + 1).drop_last() =~= deletes@.take(i as int));
        }
        let (price, side) = deletes[i];
        match side {
            Some(Side::Ask) => a.remove(&price),
            Some(Side::Bid) => b.remove(&price),
            None => {},
        }
        i = i + 1;
    }
    proof {
        assert(deletes@.take(deletes@.len() as int) =~= deletes@);
    }
    let ghost after_deletes = (a@, b@);
    let mut j: usize = 0;
    while j < updates.len()
        invariant
            j <= updates@.len(),
            update_each(after_deletes, updates@.take(j as int), lenient_asks) == Ok::<(Map<int, Depth>, Map<int, Depth>), EngineError>((a@, b@)),
            after_deletes == delete_all((old(asks)@, old(bids)@), deletes@),
            asks@ == old(asks)@,
            bids@ == old(bids)@,
        decreases updates@.len() - j,
    {
        proof {
            assert(updates@.take(j + 1).drop_last() =~= updates@.take(j as int));
        }
        match update_level(&mut a, &mut b, updates[j], lenient_asks) {
            Ok(()) => {},
            Err(e) => {
                proof {
                    lemma_update_each_err(after_deletes, updates@, lenient_asks, j + 1, e);
                }
                return Err(e);
            },
        }
        j = j + 1;
    }
    proof {
        assert(updates@.take(updates@.len() as int) =~= updates@);
    }
    match insert_levels_each(&mut a, &mut b, inserts) {
        Ok(()) => {},
        Err(e) => {
            return Err(e);
        },
    }
    *asks = a;
    *bids = b;
    Ok(())
}

/// Applies a snapshot (see `apply_snapshot`); on an error the sides are left as they were.
pub fn apply_snapshot_levels(asks: &mut PriceLevels, bids: &mut PriceLevels, levels: &Vec<Depth>) -> (r: Result<(), EngineError>)
    ensures
        match apply_snapshot(levels@) {
            Ok((a, b)) => r == Ok::<(), EngineError>(()) && final(asks)@ == a && final(bids)@ == b,
            Err(e) => r == Err::<(), EngineError>(e) && final(asks)@ == old(asks)@ && final(bids)@ == old(bids)@,
        },
{
    let mut a = PriceLevels::new();
    let mut b = PriceLevels::new();
    match insert_levels_each(&mut a, &mut b, levels) {
        Ok(()) => {
            *asks = a;
            *bids = b;
            Ok(())
        },
        Err(e) => Err(e),
    }
}


/// Deleting levels never adds one, and leaves no level at the price of a
/// delete of its side.
proof fn lemma_delete_all_removes(st: (Map<int, Depth>, Map<int, Depth>), ds: Seq<(Dec, Option<Side>)>, k: int)
    ensures
        delete_all(st, ds).0.contains_key(k) ==> st.0.contains_key(k),
        delete_all(st, ds).1.contains_key(k) ==> st.1.contains_key(k),
        (exists|i: int| 0 <= i < ds.len() && (#[trigger] ds[i]).0@ == k && ds[i].1 == Some(Side::Ask)) ==> !delete_all(
            st,
            ds,
        ).0.contains_key(k),
        (exists|i: int| 0 <= i < ds.len() && (#[trigger] ds[i]).0@ == k && ds[i].1 == Some(Side::Bid)) ==> !delete_all(
            st,
            ds,
        ).1.contains_key(k),
    decreases ds.len(),
{
    if ds.len() > 0 {
        let p = ds.drop_last();
        lemma_delete_all_removes(st, p, k);
        if exists|i: int| 0 <= i < ds.len() && (#[trigger] ds[i]).0@ == k && ds[i].1 == Some(Side::Ask) {
            let i = choose|i: int| 0 <= i < ds.len() && (#[trigger] ds[i]).0@ == k && ds[i].1 == Some(Side::Ask);
            if i < p.len() {
                assert(p[i] == ds[i]);
            }
        }
        if exists|i: int| 0 <= i < ds.len() && (#[trigger] ds[i]).0@ == k && ds[i].1 == Some(Side::Bid) {
            let i = choose|i: int| 0 <= i < ds.len() && (#[trigger] ds[i]).0@ == k && ds[i].1 == Some(Side::Bid);
            if i < p.len() {
                assert(p[i] == ds[i]);
            }
        }
    }
}

/// Replacing levels adds a level only at the price of one of them, on its side.
proof fn lemma_update_each_adds(st: (Map<int, Depth>, Map<int, Depth>), ds: Seq<Depth>, lenient_asks: bool, k: int)
    ensures
        update_each(st, ds, lenient_asks) matches Ok(s2) ==> (s2.0.contains_key(k) && !st.0.contains_key(k) ==> exists|i: int|
            0 <= i < ds.len() && (#[trigger] ds[i]).price@ == k && ds[i].side == Side::Ask) && (s2.1.contains_key(k)
            && !st.1.contains_key(k) ==> exists|i: int|
            0 <= i < ds.len() && (#[trigger] ds[i]).price@ == k && ds[i].side != Side::Ask),
    decreases ds.len(),
{
    if ds.len() > 0 {
        let p = ds.drop_last();
        lemma_update_each_adds(st, p, lenient_asks, k);
        if let Ok(s1) = update_each(st, p, lenient_asks) {
            if s1.0.contains_key(k) && !st.0.contains_key(k) {
                let i = choose|i: int| 0 <= i < p.len() && (#[trigger] p[i]).price@ == k && p[i].side == Side::Ask;
                assert(ds[i] == p[i]);
            }
            if s1.1.contains_key(k) && !st.1.contains_key(k) {
                let i = choose|i: int| 0 <= i < p.len() && (#[trigger] p[i]).price@ == k && p[i].side != Side::Ask;
                assert(ds[i] == p[i]);
            }
            assert(ds[ds.len() - 1] == ds.last());
        }
    }
}

/// Inserting levels adds a level only at the price of one of them, on its side.
proof fn lemma_insert_each_adds(st: (Map<int, Depth>, Map<int, Depth>), ds: Seq<Depth>, k: int)
    ensures
        insert_each(st, ds) matches Ok(s2) ==> (s2.0.contains_key(k) && !st.0.contains_key(k) ==> exists|i: int|
            0 <= i < ds.len() && (#[trigger] ds[i]).price@ == k && ds[i].side == Side::Ask) && (s2.1.contains_key(k)
            && !st.1.contains_key(k) ==> exists|i: int|
            0 <= i < ds.len() && (#[trigger] ds[i]).price@ == k && ds[i].side != Side::Ask),
    decreases ds.len(),
{
    if ds.len() > 0 {
        let p = ds.drop_last();
        lemma_insert_each_adds(st, p, k);
        if let Ok(s1) = insert_each(st, p) {
            if s1.0.contains_key(k) && !st.0.contains_key(k) {
                let i = choose|i: int| 0 <= i < p.len() && (#[trigger] p[i]).price@ == k && p[i].side == Side::Ask;
                assert(ds[i] == p[i]);
            }
            if s1.1.contains_key(k) && !st.1.contains_key(k) {
                let i = choose|i: int| 0 <= i < p.len() && (#[trigger] p[i]).price@ == k && p[i].side != Side::Ask;
                assert(ds[i] == p[i]);
            }
            assert(ds[ds.len() - 1] == ds.last());
        }
    }
}

/// A delta that succeeds leaves no level at the price of a delete of a side,
/// unless an update or an insert of the same delta puts one there again on
/// that side (an ask for `Sell`, a bid for `Buy`).
pub proof fn lemma_delta_deletes(
    st: (Map<int, Depth>, Map<int, Depth>),
    deletes: Seq<(Dec, Option<Side>)>,
    updates: Seq<Depth>,
    inserts: Seq<Depth>,
    lenient_asks: bool,
    k: int,
)
    ensures
        apply_delta(st, deletes, updates, inserts, lenient_asks) matches Ok((asks, bids)) ==> ((exists|i: int|
            0 <= i < deletes.len() && (#[trigger] deletes[i]).0@ == k && deletes[i].1 == Some(Side::Ask)) && (forall|j: int|
            0 <= j < updates.len() ==> !((#[trigger] updates[j]).price@ == k && updates[j].side == Side::Ask)) && (
        forall|j: int| 0 <= j < inserts.len() ==> !((#[trigger] inserts[j]).price@ == k && inserts[j].side == Side::Ask))
            ==> !asks.contains_key(k)) && ((exists|i: int|
            0 <= i < deletes.len() && (#[trigger] deletes[i]).0@ == k && deletes[i].1 == Some(Side::Bid)) && (forall|j: int|
            0 <= j < updates.len() ==> !((#[trigger] updates[j]).price@ == k && updates[j].side != Side::Ask)) && (
        forall|j: int| 0 <= j < inserts.len() ==> !((#[trigger] inserts[j]).price@ == k && inserts[j].side != Side::Ask))
            ==> !bids.contains_key(k)),
{
    let s1 = delete_all(st, deletes);
    lemma_delete_all_removes(st, deletes, k);
    lemma_update_each_adds(s1, updates, lenient_asks, k);
    if let Ok(s2) = update_each(s1, updates, lenient_asks) {
        lemma_insert_each_adds(s2, inserts, k);
    }
}

} // verus!
