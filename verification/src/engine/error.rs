//! The ways in which the engine refuses an input.
use vstd::prelude::*;

verus! {

/// Why an operation of the engine did not complete.
#[derive(Debug, Copy, Clone, PartialEq, Eq, Structural)]
pub enum EngineError {
    /// Decimal arithmetic overflowed, or a division had a zero divisor.
    Overflow,
    /// An execution report carried no status.
    MissingStatus,
    /// A report or a request named a price at which no order stands.
    UnknownOrder,
    /// The strategy's cash fell below zero.
    NegativeCash,
    /// A feed message was not of the expected shape.
    Malformed,
    /// A level was to be inserted at a price where one already stands.
    LevelExists,
    /// A level was to be updated at a price where none stands.
    LevelMissing,
    /// The market simulator gave no answer to an order it was sent.
    Unanswered,
    /// The order manager gave no answer to an execution report.
    Unacknowledged,
    /// The strategy and the market simulator disagree on the number of resting orders.
    BookMismatch,
}

} // verus!
