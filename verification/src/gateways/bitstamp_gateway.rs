//! The bitstamp market data gateway.  Its connection and the recording of what
//! it receives stand outside the library.
use vstd::prelude::*;

verus! {

/// The bitstamp market data gateway.
pub struct BitstampGateway {}

} // verus!
