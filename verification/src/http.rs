//! The decisions of the HTTP fetcher. The transfer itself is the caller's.

use crate::error::Error;
use crate::error::ErrorView;
use crate::media::content_type;
use crate::media::content_type_of;
use vstd::prelude::*;

verus! {

/// The fetcher for `http` and `https` locators.
pub struct HttpProtocol;

/// The error for a failed transfer, by the status code that came with the
/// failure, if one did.
pub open spec fn status_error(status: Option<u16>) -> Error {
    match status {
        Some(code) => if code == 400 {
            Error::BadRequest
        } else if code == 401 {
            Error::NotAuthorized
        } else if code == 403 {
            Error::Forbidden
        } else if code == 404 {
            Error::NotFound
        } else if code == 405 {
            Error::MethodNotAllowed
        } else if code == 406 {
            Error::NotAcceptable
        } else if code == 410 {
            Error::Gone
        } else if code == 429 {
            Error::TooManyRequests
        } else if code == 500 {
            Error::Failure
        } else if code == 503 {
            Error::ServerUnavailable
        } else {
            Error::UnknownStatus(code as usize)
        },
        None => Error::InvalidStatus,
    }
}

/// Maps a failed transfer to an error by its status code. A failure
/// without a status code is `InvalidStatus`; a code without an error of its
/// own is `UnknownStatus` with that code.
pub fn match_reqwest_error(status: Option<u16>) -> (e: Error)
    ensures
        e == status_error(status),
{
    match status {
        Some(code) => {
            if code == 400 {
                Error::BadRequest
            } else if code == 401 {
                Error::NotAuthorized
            } else if code == 403 {
                Error::Forbidden
            } else if code == 404 {
                Error::NotFound
            } else if code == 405 {
                Error::MethodNotAllowed
            } else if code == 406 {
                Error::NotAcceptable
            } else if code == 410 {
                Error::Gone
            } else if code == 429 {
                Error::TooManyRequests
            } else if code == 500 {
                Error::Failure
            } else if code == 503 {
                Error::ServerUnavailable
            } else {
                Error::UnknownStatus(code as usize)
            }
        },
        None => Error::InvalidStatus,
    }
}

/// The value of the content-type header that counts: the header as sent,
/// or `text/plain` where none was sent or it could not be read.
pub open spec fn effective_header(header: Option<Seq<char>>) -> Seq<char> {
    match header {
        Some(value) => value,
        None => "text/plain"@,
    }
}

/// The view of an optional string slice.
pub open spec fn header_view(header: Option<&str>) -> Option<Seq<char>> {
    match header {
        Some(value) => Some(value@),
        None => None,
    }
}

impl HttpProtocol {
    /// The content type of a response, from its content-type header
    /// (`None` where the header is missing or is no text). The result is the
    /// media type's `type/subtype`; a header that is no media type gives
    /// `InvalidMimeType` with the parser's message.
    pub fn content_type(header: Option<&str>) -> (r: Result<String, Error>)
        ensures
            match content_type_of(effective_header(header_view(header))) {
                Ok(name) => r matches Ok(ty) && ty@ == name,
                Err(message) => r matches Err(e) && e@ == ErrorView::InvalidMimeType(message),
            },
    {
        let value = match header {
            Some(value) => value,
            None => "text/plain",
        };
        match content_type(value) {
            Ok(name) => Ok(name),
            Err(message) => Err(Error::InvalidMimeType(message)),
        }
    }
}

} // verus!
