//! Error kinds: per-element decode failures, and the typed failure of a
//! whole operation.

use vstd::prelude::*;

verus! {

/// Why one element or property could not be decoded from a value.
#[derive(Clone, Copy, Debug, PartialEq, Eq, Structural)]
pub enum DecodeError {
    /// A map of child elements was expected.
    ExpectedChildren,
    /// Scalar text content was expected.
    ExpectedText,
    /// A `response` element has neither a `propstat` nor a `status` child.
    InvalidResponseShape,
    /// A status line is not `HTTP/<version> <code> <reason>` with a
    /// three-digit code.
    InvalidStatusLine,
    /// A `response` element lacks an `href` child.
    MissingHref,
    /// A `propstat` element lacks a `status` child.
    MissingStatus,
    /// A `propstat` element lacks a `prop` child.
    MissingProp,
    /// A date property is not a well-formed timestamp.
    MalformedDate,
    /// A length property is not a non-negative integer in range.
    MalformedInteger,
}

/// The typed failure of a whole WebDAV operation.
#[derive(Clone, Copy, Debug, PartialEq, Eq, Structural)]
pub enum WebdavError {
    /// The server answered 401.
    AuthenticationFailed,
    /// The server answered 403: the resource could not be opened.
    AccessDenied,
    /// The server answered 400 or 404.
    NotFound,
    /// Any other non-success status, or a body that does not decode as a
    /// `multistatus` document.
    ProtocolError,
}

} // verus!
