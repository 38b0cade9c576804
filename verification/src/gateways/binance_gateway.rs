//! The binance market data gateway.  Its connection and the recording of what
//! it receives stand outside the library.
use crate::utils::json::{member_is_str, JsonValue};
use vstd::prelude::*;

verus! {

/// The binance market data gateway.
pub struct BinanceGateway {}

/// Whether a message of the combined stream comes from the depth stream
/// `btcusdt@depth@100ms`: the first such message is the moment to fetch the
/// 1000-level depth snapshot.
pub fn is_depth_stream(message: &JsonValue) -> (r: bool)
    ensures
        r == member_is_str(*message, "stream"@, "btcusdt@depth@100ms"@),
{
    match message.get("stream") {
        Some(s) => s.is_str("btcusdt@depth@100ms"),
        None => false,
    }
}

} // verus!
