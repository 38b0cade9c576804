//! Types shared by the order books, the strategy, the order manager and the
//! market simulators.
use crate::utils::decimal::Dec;
use crate::utils::time::{decimal_text, get_nanos, i64_to_string};
use vstd::prelude::*;

verus! {

/// The side of a price level or an order.
#[derive(Debug, Copy, Clone, PartialEq, Eq, Structural)]
pub enum Side {
    Bid,
    Ask,
}

/// The exchanges that the bot can subscribe to.
#[derive(Debug, Copy, Clone, PartialEq, Eq, Structural)]
pub enum Exchange {
    Binance,
    Bitfinex,
    Bitmex,
    Coinbase,
    Huobi,
    Okex,
    Uniswap,
    Bybit,
}

/// What is to be done with an order.
#[derive(Debug, Copy, Clone, PartialEq, Eq, Structural)]
pub enum Action {
    New,
    /// for a price gateway
    Modify,
    /// for a price gateway
    Delete,
    /// for a market trade gateway
    ToBeSent,
    /// for a market trade gateway
    NoAction,
    /// for a market trade gateway
    Cancel,
    /// for a market trade gateway
    Amend,
}

/// Where an order stands.
#[derive(Debug, Copy, Clone, PartialEq, Eq, Structural)]
pub enum Status {
    New,
    Acked,
    Rejected,
    ToModify,
    Modified,
    ToCancell,
    Cancelled,
    Filled,
}

/// An order of the bot, or a trade or an execution report about one.
/// `timstamp` is a time in nanoseconds since the Unix epoch.
#[derive(Debug)]
pub struct Order {
    pub order_id: Option<usize>,
    pub trade_id: Option<String>,
    pub client_oid: Option<String>,
    pub price: Dec,
    pub size: Dec,
    pub side: Side,
    pub action: Option<Action>,
    pub status: Option<Status>,
    pub timstamp: Option<i64>,
}

fn clone_text(t: &Option<String>) -> (r: Option<String>)
    ensures
        r == *t,
{
    match t {
        Some(s) => Some(s.clone()),
        None => None,
    }
}

impl Clone for Order {
    fn clone(&self) -> (r: Order)
        ensures
            r == *self,
    {
        Order {
            order_id: self.order_id,
            trade_id: clone_text(&self.trade_id),
            client_oid: clone_text(&self.client_oid),
            price: self.price,
            size: self.size,
            side: self.side,
            action: self.action,
            status: self.status,
            timstamp: self.timstamp,
        }
    }
}

/// One price level of a book: the size resting at a price.
/// `timestamp` is a time in nanoseconds since the Unix epoch.
#[derive(Debug, Copy, Clone)]
pub struct Depth {
    pub price: Dec,
    pub size: Dec,
    pub side: Side,
    pub count: Option<usize>,
    pub timestamp: Option<i64>,
}

/// The top of a book: best bid and best ask with their sizes.
#[derive(Debug, Copy, Clone)]
pub struct BookEvent {
    pub bid_price: Dec,
    pub bid_size: Dec,
    pub ask_price: Dec,
    pub ask_size: Dec,
}

/// A client order id: `prefix` followed by the current time in nanoseconds.
pub fn get_oid(prefix: &str) -> (oid: String)
    ensures
        exists|n: i64| oid@ == prefix@ + decimal_text(n as int),
{
    let nanos = get_nanos();
    let digits = i64_to_string(nanos);
    let oid = String::from_str(prefix).concat(digits.as_str());
    assert(oid@ == prefix@ + decimal_text(nanos as int));
    oid
}

} // verus!
