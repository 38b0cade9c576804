//! The phemex market data gateway.  Its connection and the recording of what
//! it receives stand outside the library.
use vstd::prelude::*;

verus! {

/// The phemex market data gateway.
pub struct PhemexGateway {}

} // verus!
