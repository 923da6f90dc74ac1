//! The one error that the service shows to the outside.

use crate::codec::{DecodeError, EncodeError};
use vstd::prelude::*;
use vstd::std_specs::convert::FromSpecImpl;

verus! {

/// What went wrong while a request was served.
#[derive(Debug, Clone, Copy, PartialEq, Eq, Structural)]
pub enum Failure {
    /// A link could not be issued.
    Encode(EncodeError),
    /// A token gave no record.
    Decode(DecodeError),
    /// The request named no client address.
    MissingClientIp,
    /// The page could not be drawn.
    Render,
    /// The notification could not be delivered.
    Delivery,
}

/// An error of the service. It keeps the cause for the log; what the caller
/// is told is the same for every cause.
#[derive(Debug, Clone, Copy, PartialEq, Eq, Structural)]
pub struct AppError(pub Failure);

impl AppError {
    /// The status code of the response: always that of an internal error.
    pub fn status(&self) -> (code: u16)
        ensures
            code == 500,
    {
        500
    }

    /// The body of the response: always the same words, which tell the
    /// caller nothing of the cause.
    pub fn message(&self) -> (text: &'static str)
        ensures
            text@ == "Internal server error"@,
    {
        "Internal server error"
    }
}

impl From<EncodeError> for AppError {
    fn from(error: EncodeError) -> (out: AppError) {
        AppError(Failure::Encode(error))
    }
}

impl FromSpecImpl<EncodeError> for AppError {
    open spec fn obeys_from_spec() -> bool {
        true
    }

    open spec fn from_spec(error: EncodeError) -> AppError {
        AppError(Failure::Encode(error))
    }
}

impl From<DecodeError> for AppError {
    fn from(error: DecodeError) -> (out: AppError) {
        AppError(Failure::Decode(error))
    }
}

impl FromSpecImpl<DecodeError> for AppError {
    open spec fn obeys_from_spec() -> bool {
        true
    }

    open spec fn from_spec(error: DecodeError) -> AppError {
        AppError(Failure::Decode(error))
    }
}

} // verus!
