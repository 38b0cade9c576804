//! What a trade gateway offers.
use vstd::prelude::*;

verus! {

/// A gateway that sends orders to an exchange.
pub trait TransactionGateway {
    fn send_order(&self);
}

} // verus!
