//! The transport-facing view of results: which status code each error
//! maps to and what body a response renders.  The HTTP framing itself
//! is a collaborator outside this core.

use vstd::prelude::*;

use crate::commands::{ServiceResponse, ServiceResponseV};
use crate::errors::ApplicationError;

verus! {

/// The status code an error kind maps to.
pub open spec fn spec_status_code(e: ApplicationError) -> u16 {
    match e {
        ApplicationError::DatabaseConnectionError(_) => 500,
        ApplicationError::DeserializationError(_) => 400,
        ApplicationError::EntityNotFound => 404,
        ApplicationError::EventNotFound => 404,
        ApplicationError::CommandNotFound => 404,
        ApplicationError::Conflict => 409,
        ApplicationError::InvalidURL => 400,
        ApplicationError::TransactionError => 502,
        ApplicationError::ParsingError => 500,
        ApplicationError::StopSentinel => 423,
    }
}

/// An application error on its way out to the transport layer.
pub struct Exception(pub ApplicationError);

impl Exception {
    /// The transport status code of the carried error.
    pub fn status_code(&self) -> (r: u16)
        ensures
            r == spec_status_code(self.0),
    {
        match &self.0 {
            ApplicationError::DatabaseConnectionError(_) => 500,
            ApplicationError::DeserializationError(_) => 400,
            ApplicationError::EntityNotFound => 404,
            ApplicationError::EventNotFound => 404,
            ApplicationError::CommandNotFound => 404,
            ApplicationError::Conflict => 409,
            ApplicationError::InvalidURL => 400,
            ApplicationError::TransactionError => 502,
            ApplicationError::ParsingError => 500,
            ApplicationError::StopSentinel => 423,
        }
    }

    /// The body message: the driver's words where the error carries
    /// them, the error kind's name otherwise.
    pub fn error_message(&self) -> (r: String)
        ensures
            match self.0 {
                ApplicationError::DatabaseConnectionError(m) => r@ == m@,
                ApplicationError::DeserializationError(m) => r@ == m@,
                _ => r@ == self.0.spec_kind_text(),
            },
    {
        match &self.0 {
            ApplicationError::DatabaseConnectionError(m) => m.clone(),
            ApplicationError::DeserializationError(m) => m.clone(),
            other => {
                let text = other.kind_text();
                text.to_owned()
            },
        }
    }
}

/// A successful service response on its way out to the transport layer.
pub struct WebResponse<T>(pub T);

impl WebResponse<ServiceResponse> {
    /// The body the response renders: the carried string, `true` or
    /// `false` for a flag, nothing for an empty response.
    pub fn body_text(self) -> (r: String)
        ensures
            match self.0@ {
                ServiceResponseV::String(s) => r@ == s,
                ServiceResponseV::Bool(b) => r@ == (if b {
                    "true"@
                } else {
                    "false"@
                }),
                ServiceResponseV::Empty => r@ == Seq::<char>::empty(),
            },
    {
        match self.0 {
            ServiceResponse::String(s) => s,
            ServiceResponse::Bool(b) => {
                if b {
                    "true".to_owned()
                } else {
                    "false".to_owned()
                }
            },
            ServiceResponse::Empty(_) => {
                let r = String::new();
                proof {
                    assert(r@ =~= Seq::<char>::empty());
                }
                r
            },
        }
    }
}

} // verus!
