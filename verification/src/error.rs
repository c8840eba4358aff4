//! The errors of the crate. Each is returned to the caller as a value;
//! nothing is retried or logged here.
use crate::scope::ScopeError;
use crate::text::{option_view, views};
use crate::transport::TransportError;
use vstd::prelude::*;
use vstd::string::*;

verus! {

/// A URI could not be rendered.
#[derive(Clone, Copy, Debug, PartialEq, Eq, Structural)]
pub enum EncodingError {
    /// The URI would be longer than [`crate::request::MAX_URI_LEN`]
    /// characters.
    TooLong,
}

/// A response body could not be decoded. No partial result is returned.
#[derive(Clone, Copy, Debug, PartialEq, Eq, Structural)]
pub enum ParseError {
    /// The body is not one well-formed JSON document.
    Document,
    /// The document is not an envelope: no object, no array under `data`, a
    /// cursor or a total of the wrong kind, or, in strict mode, a key that an
    /// envelope does not have.
    Envelope,
    /// The item at `index` of `data` could not be decoded; all before it
    /// could.
    Item { index: usize },
}

/// The kind of a response whose status is not a success.
#[derive(Debug, PartialEq, Eq)]
pub enum StatusKind {
    /// Status 429. Carries the value of the `Retry-After` header where the
    /// server sent one.
    RateLimited { retry_after: Option<String> },
    /// Status 401.
    Unauthorized,
    /// Any other status outside 200 to 299.
    Other,
}

/// Mathematical model of a [`StatusKind`].
pub ghost enum StatusKindModel {
    RateLimited { retry_after: Option<Seq<char>> },
    Unauthorized,
    Other,
}

impl View for StatusKind {
    type V = StatusKindModel;

    open spec fn view(&self) -> StatusKindModel {
        match self {
            StatusKind::RateLimited { retry_after } => StatusKindModel::RateLimited {
                retry_after: option_view(*retry_after),
            },
            StatusKind::Unauthorized => StatusKindModel::Unauthorized,
            StatusKind::Other => StatusKindModel::Other,
        }
    }
}

/// A response whose status is not a success, with its body for diagnostics.
#[derive(Debug, PartialEq, Eq)]
pub struct HttpStatusError {
    pub status: u16,
    pub kind: StatusKind,
    pub body: Vec<u8>,
}

/// Mathematical model of an [`HttpStatusError`].
pub ghost struct HttpStatusModel {
    pub status: u16,
    pub kind: StatusKindModel,
    pub body: Seq<u8>,
}

impl View for HttpStatusError {
    type V = HttpStatusModel;

    open spec fn view(&self) -> HttpStatusModel {
        HttpStatusModel { status: self.status, kind: self.kind@, body: self.body@ }
    }
}

/// Everything that can go wrong with one call.
#[derive(Debug, PartialEq, Eq)]
pub enum Error {
    /// The request could not be rendered as a URI.
    Encoding(EncodingError),
    /// The credential lacks scopes that the request requires.
    Scope(ScopeError),
    /// The transport failed; its error is handed on as it came.
    Transport(TransportError),
    /// The server answered with a status that is not a success.
    HttpStatus(HttpStatusError),
    /// The body of a successful response could not be decoded.
    Parse(ParseError),
}

/// Mathematical model of an [`Error`].
pub ghost enum ErrorModel {
    Encoding(EncodingError),
    Scope(Seq<Seq<char>>),
    Transport(Seq<char>),
    HttpStatus(HttpStatusModel),
    Parse(ParseError),
}

impl View for Error {
    type V = ErrorModel;

    open spec fn view(&self) -> ErrorModel {
        match self {
            Error::Encoding(e) => ErrorModel::Encoding(*e),
            Error::Scope(e) => ErrorModel::Scope(views(e.missing@)),
            Error::Transport(e) => ErrorModel::Transport(e.message@),
            Error::HttpStatus(e) => ErrorModel::HttpStatus(e@),
            Error::Parse(e) => ErrorModel::Parse(*e),
        }
    }
}

/// The view of a result: the view of what it holds, on either side.
pub open spec fn outcome_view<T: View>(r: Result<T, Error>) -> Result<T::V, ErrorModel> {
    match r {
        Ok(value) => Ok(value@),
        Err(e) => Err(e@),
    }
}

} // verus!
