//! The simulated trading system: a recorded Okex depth feed runs through the
//! order book, the strategy and the order manager, each on a thread of its
//! own.  The threads and the channels between them stand outside the library.
use vstd::prelude::*;

verus! {

/// The simulated trading system.
pub struct SimTradingSystem {}

} // verus!
