//! What can go wrong with a request, and the status that answers it.

use crate::id::IdError;
use crate::read::{IoError, ReadError};
use crate::time::ExpiryError;
use vstd::prelude::*;

verus! {

/// The status of a response.
#[derive(Debug, Clone, Copy, PartialEq, Eq, Structural)]
pub enum Status {
    Okay,
    Created,
    MovedPermanently,
    BadRequest,
    NotFound,
    MethodNotAllowed,
    PayloadTooLarge,
    InternalServerError,
}

impl Status {
    /// The number of the status.
    pub open spec fn spec_code(self) -> u16 {
        match self {
            Status::Okay => 200,
            Status::Created => 201,
            Status::MovedPermanently => 301,
            Status::BadRequest => 400,
            Status::NotFound => 404,
            Status::MethodNotAllowed => 405,
            Status::PayloadTooLarge => 413,
            Status::InternalServerError => 500,
        }
    }

    /// The number of the status.
    #[verifier::when_used_as_spec(spec_code)]
    pub fn code(self) -> (code: u16)
        ensures
            code == self.spec_code(),
    {
        match self {
            Status::Okay => 200,
            Status::Created => 201,
            Status::MovedPermanently => 301,
            Status::BadRequest => 400,
            Status::NotFound => 404,
            Status::MethodNotAllowed => 405,
            Status::PayloadTooLarge => 413,
            Status::InternalServerError => 500,
        }
    }

    /// Whether the status reports success.
    pub open spec fn spec_is_success(self) -> bool {
        200 <= self.spec_code() < 300
    }

    /// Whether the status reports success.
    #[verifier::when_used_as_spec(spec_is_success)]
    pub fn is_success(self) -> (success: bool)
        ensures
            success == self.spec_is_success(),
    {
        let code = self.code();
        200 <= code && code < 300
    }
}

/// Errors that might happen while a request is processed. `E` is the error
/// of the storage backend.
#[derive(Debug, Clone, PartialEq, Eq)]
pub enum Error<E> {
    /// The body could not be read.
    Io(IoError),
    /// The body is larger than the storage takes.
    TooBig,
    /// The path holds no identifier.
    NoIdSegment,
    /// No paste has this identifier.
    IdNotFound(u64),
    /// The identifier in the path is none.
    IdDecode(IdError),
    /// No expiry could be settled.
    Expiry(ExpiryError),
    /// The address to redirect to is no URL.
    Url,
    /// A page could not be rendered.
    TemplateRender,
    /// The storage backend failed.
    Storage(E),
}

impl<E> Error<E> {
    /// The status that answers the error: not found for an unknown
    /// identifier, payload too large for a body over the limit, a server
    /// error for what the backend or the rendering of a page got wrong, and
    /// a bad request for the rest.
    pub open spec fn spec_status(&self) -> Status {
        match self {
            Error::IdNotFound(_) => Status::NotFound,
            Error::TooBig => Status::PayloadTooLarge,
            Error::Storage(_) => Status::InternalServerError,
            Error::TemplateRender => Status::InternalServerError,
            Error::Expiry(ExpiryError::OutOfRange) => Status::InternalServerError,
            _ => Status::BadRequest,
        }
    }

    /// The status that answers the error.
    #[verifier::when_used_as_spec(spec_status)]
    pub fn status(&self) -> (status: Status)
        ensures
            status == self.spec_status(),
    {
        match self {
            Error::IdNotFound(_) => Status::NotFound,
            Error::TooBig => Status::PayloadTooLarge,
            Error::Storage(_) => Status::InternalServerError,
            Error::TemplateRender => Status::InternalServerError,
            Error::Expiry(ExpiryError::OutOfRange) => Status::InternalServerError,
            _ => Status::BadRequest,
        }
    }

    /// The error of a request whose body could not be read.
    pub open spec fn spec_from_read(e: ReadError) -> Self {
        match e {
            ReadError::TooBig => Error::TooBig,
            ReadError::Io(io) => Error::Io(io),
        }
    }

    /// The error of a request whose body could not be read.
    #[verifier::when_used_as_spec(spec_from_read)]
    pub fn from_read(e: ReadError) -> (error: Self)
        ensures
            error == Self::spec_from_read(e),
    {
        match e {
            ReadError::TooBig => Error::TooBig,
            ReadError::Io(io) => Error::Io(io),
        }
    }
}

/// An error is answered with success under no circumstances.
pub proof fn lemma_error_is_no_success<E>(e: Error<E>)
    ensures
        !e.spec_status().spec_is_success(),
        e.spec_status().spec_code() >= 400,
{
}

} // verus!
