//! The ftx market data gateway.  Its connection and the recording of what
//! it receives stand outside the library.
use vstd::prelude::*;

verus! {

/// The ftx market data gateway.
pub struct FTXGateway {}

} // verus!
