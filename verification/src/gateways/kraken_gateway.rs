//! The kraken market data gateway.  Its connection and the recording of what
//! it receives stand outside the library.
use vstd::prelude::*;

verus! {

/// The kraken market data gateway.
pub struct KrakenGateway {}

} // verus!
