//! Errors of dispatch operations.

use vstd::prelude::*;

use crate::c_string::{NulError, NulErrorView};

verus! {

/// Error type for dispatch operations
#[derive(Debug)]
pub enum DispatchError {
    /// String contains null bytes
    NullByteInString(NulError),
    /// PostgreSQL error during dispatch
    PostgreSQLError(String),
}

/// What an error is in contracts.
pub enum ErrorView {
    NullByteInString(NulErrorView),
    PostgreSQLError(Seq<char>),
}

impl ErrorView {
    /// How the error reads.
    pub open spec fn message(self) -> Seq<char> {
        match self {
            ErrorView::NullByteInString(e) => "Command string contains null byte: "@ + e.message(),
            ErrorView::PostgreSQLError(msg) => "PostgreSQL error during dispatch: "@ + msg,
        }
    }
}

impl View for DispatchError {
    type V = ErrorView;

    open spec fn view(&self) -> ErrorView {
        match *self {
            DispatchError::NullByteInString(e) => ErrorView::NullByteInString(e@),
            DispatchError::PostgreSQLError(msg) => ErrorView::PostgreSQLError(msg@),
        }
    }
}

/// What a result of an operation is in contracts.
pub open spec fn outcome<T>(result: Result<T, DispatchError>) -> Result<T, ErrorView> {
    match result {
        Ok(value) => Ok(value),
        Err(e) => Err(e@),
    }
}

impl DispatchError {
    /// A PostgreSQL error with the given message
    pub(crate) fn postgres(msg: &str) -> (error: Self)
        ensures
            error@ == ErrorView::PostgreSQLError(msg@),
    {
        DispatchError::PostgreSQLError(msg.to_string())
    }

    /// The error as a text
    pub fn to_string(&self) -> (message: String)
        ensures
            message@ == self@.message(),
    {
        match self {
            DispatchError::NullByteInString(e) => {
                let mut message = String::new();
                message.append("Command string contains null byte: ");
                message.append(e.to_string().as_str());
                message
            },
            DispatchError::PostgreSQLError(msg) => {
                let mut message = String::new();
                message.append("PostgreSQL error during dispatch: ");
                message.append(msg.as_str());
                message
            },
        }
    }

    /// The error that caused this one, if there is one
    pub fn source(&self) -> (source: Option<&NulError>)
        ensures
            match *self {
                DispatchError::NullByteInString(e) => source == Some(&e),
                DispatchError::PostgreSQLError(_) => source is None,
            },
    {
        match self {
            DispatchError::NullByteInString(e) => Some(e),
            DispatchError::PostgreSQLError(_) => None,
        }
    }
}

impl From<NulError> for DispatchError {
    fn from(error: NulError) -> (wrapped: Self) {
        DispatchError::NullByteInString(error)
    }
}

impl vstd::std_specs::convert::FromSpecImpl<NulError> for DispatchError {
    open spec fn obeys_from_spec() -> bool {
        true
    }

    open spec fn from_spec(error: NulError) -> Self {
        DispatchError::NullByteInString(error)
    }
}

} // verus!
