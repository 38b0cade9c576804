//! The Okex market data gateway.  Its connection and the recording of what
//! it receives stand outside the library.
use vstd::prelude::*;

verus! {

/// The Okex market data gateway.
pub struct OkexGateway {
    pub address: String,
}

} // verus!
