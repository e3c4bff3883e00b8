//! The ways in which the store and the work around it can fail.

use vstd::prelude::*;

verus! {

/// A failure. That an id does not resolve is no failure: a lookup then
/// answers with `None`.
#[derive(Debug, PartialEq, Eq)]
pub enum Error {
    /// The upstream could not be reached, did not answer in time or answered
    /// with an error. Such a failure is transient: the same request may
    /// succeed later. Holds the message of the failed request.
    ReqwestError(String),
    /// A query could not be answered. Holds the cause.
    GraphqlError(String),
    /// The storage layer failed. Holds the cause.
    DatabaseError(String),
}

impl Error {
    /// Whether the failure is a transient one of the upstream.
    pub fn is_transient(&self) -> (out: bool)
        ensures
            out == (self is ReqwestError),
    {
        match self {
            Error::ReqwestError(_) => true,
            _ => false,
        }
    }

    /// Whether the failure is one of the storage layer.
    pub fn is_persistence(&self) -> (out: bool)
        ensures
            out == (self is DatabaseError),
    {
        match self {
            Error::DatabaseError(_) => true,
            _ => false,
        }
    }

    /// The text that describes the failure to a reader: the message of a
    /// failed request itself, a fixed text for the other two.
    pub fn message(&self) -> (out: String)
        ensures
            out@ == match self {
                Error::ReqwestError(message) => message@,
                Error::GraphqlError(_) => "query error"@,
                Error::DatabaseError(_) => "database error"@,
            },
    {
        match self {
            Error::ReqwestError(message) => message.clone(),
            Error::GraphqlError(_) => "query error".to_owned(),
            Error::DatabaseError(_) => "database error".to_owned(),
        }
    }
}

} // verus!
