//! The coinbase market data gateway.  Its connection and the recording of what
//! it receives stand outside the library.
use vstd::prelude::*;

verus! {

/// The coinbase market data gateway.
pub struct CoinbaseGateway {}

} // verus!
