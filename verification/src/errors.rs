//! The error taxonomy of the core.
//!
//! Command-handler errors unwind the unit of work and surface to the
//! caller unchanged; event-handler errors never unwind committed work.
//! `StopSentinel` is not a true failure: it is the control signal that
//! halts the remaining handlers for the current event.

use vstd::prelude::*;

verus! {

/// Every failure a bus invocation can surface.
///
/// `DatabaseConnectionError` carries the driver's message.  The store
/// distinguishes a missing row (`EntityNotFound`) from an optimistic
/// concurrency failure (`Conflict`) on update.
#[derive(Debug)]
pub enum ApplicationError {
    DatabaseConnectionError(String),
    DeserializationError(String),
    EntityNotFound,
    EventNotFound,
    CommandNotFound,
    Conflict,
    InvalidURL,
    TransactionError,
    ParsingError,
    StopSentinel,
}

impl ApplicationError {
    /// Short stable text of the error kind, as a caller would log it.
    pub fn kind_text(&self) -> (r: &'static str)
        ensures
            r@ == self.spec_kind_text(),
    {
        match self {
            ApplicationError::DatabaseConnectionError(_) => "DatabaseConnectionError",
            ApplicationError::DeserializationError(_) => "DeserializationError",
            ApplicationError::EntityNotFound => "EntityNotFound",
            ApplicationError::EventNotFound => "EventNotFound",
            ApplicationError::CommandNotFound => "CommandNotFound",
            ApplicationError::Conflict => "Conflict",
            ApplicationError::InvalidURL => "InvalidURL",
            ApplicationError::TransactionError => "TransactionError",
            ApplicationError::ParsingError => "ParsingError",
            ApplicationError::StopSentinel => "StopSentinel",
        }
    }

    pub open spec fn spec_kind_text(&self) -> Seq<char> {
        match self {
            ApplicationError::DatabaseConnectionError(_) => "DatabaseConnectionError"@,
            ApplicationError::DeserializationError(_) => "DeserializationError"@,
            ApplicationError::EntityNotFound => "EntityNotFound"@,
            ApplicationError::EventNotFound => "EventNotFound"@,
            ApplicationError::CommandNotFound => "CommandNotFound"@,
            ApplicationError::Conflict => "Conflict"@,
            ApplicationError::InvalidURL => "InvalidURL"@,
            ApplicationError::TransactionError => "TransactionError"@,
            ApplicationError::ParsingError => "ParsingError"@,
            ApplicationError::StopSentinel => "StopSentinel"@,
        }
    }
}

} // verus!
