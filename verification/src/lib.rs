//! Core engine of an intelligent trade bot: order books fed by exchange
//! depth streams, a trading strategy, an order manager and market simulators
//! used for back tests.

pub mod ats;
pub mod engine;
pub mod gateways;
pub mod utils;
