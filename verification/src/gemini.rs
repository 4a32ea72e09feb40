//! The decisions of the Gemini fetcher. The transfer itself is the caller's.

use crate::error::Error;
use crate::error::ErrorView;
use vstd::prelude::*;

verus! {

/// The fetcher for `gemini` locators.
pub struct GeminiProtocol;

/// The status of a Gemini response.
#[derive(Debug, Clone, Copy, PartialEq, Eq, Structural)]
pub enum StatusCode {
    Input,
    InputSensitive,
    Success,
    TempRedirect,
    PermRedirect,
    TempFail,
    ServerUnavailable,
    CgiError,
    ProxyError,
    SlowDown,
    PermFail,
    NotFound,
    Gone,
    ProxyRequestRefused,
    BadRequest,
    ClientCerts,
    CertNotAuthorized,
    CertNotValid,
    Unknown(u8),
}

/// A failure of the Gemini transport, with the message of the underlying
/// error where the error that reports it carries one.
#[derive(Debug, PartialEq, Eq)]
pub enum LibError {
    IoError(String),
    InvalidUrlError,
    HostLookupError,
    RustlsError,
    StatusOutOfRange(u8),
    DataNotUtf8,
    InvalidMime(String),
}

/// What a response of status `status` means for the request: success, or
/// the error that the status stands for. Redirects are not followed, so both
/// kinds count as too many redirects; a refused proxy request counts, like a
/// failed one, as an unsupported protocol.
pub open spec fn status_outcome(status: StatusCode) -> Result<(), Error> {
    match status {
        StatusCode::Success => Ok(()),
        StatusCode::Input => Err(Error::GetInput),
        StatusCode::InputSensitive => Err(Error::GetSecureInput),
        StatusCode::NotFound => Err(Error::NotFound),
        StatusCode::TempRedirect => Err(Error::ExceededMaxRedirects),
        StatusCode::PermRedirect => Err(Error::ExceededMaxRedirects),
        StatusCode::TempFail => Err(Error::TemporalFailure),
        StatusCode::ServerUnavailable => Err(Error::ServerUnavailable),
        StatusCode::CgiError => Err(Error::Failure),
        StatusCode::ProxyError => Err(Error::UnsupportedProtocol),
        StatusCode::SlowDown => Err(Error::TooManyRequests),
        StatusCode::PermFail => Err(Error::Failure),
        StatusCode::Gone => Err(Error::Gone),
        StatusCode::ProxyRequestRefused => Err(Error::UnsupportedProtocol),
        StatusCode::BadRequest => Err(Error::BadRequest),
        StatusCode::ClientCerts => Err(Error::ClientCertRequired),
        StatusCode::CertNotAuthorized => Err(Error::NotAuthorized),
        StatusCode::CertNotValid => Err(Error::InvalidCert),
        StatusCode::Unknown(code) => Err(Error::UnknownStatus(code as usize)),
    }
}

/// The error that a transport failure is reported as.
pub open spec fn lib_error(e: LibError) -> ErrorView {
    match e {
        LibError::IoError(message) => ErrorView::IoError(message@),
        LibError::InvalidUrlError => ErrorView::InvalidUrl,
        LibError::HostLookupError => ErrorView::DnsFailed,
        LibError::RustlsError => ErrorView::TlsFailed,
        LibError::StatusOutOfRange(_) => ErrorView::ExceededStatusSize,
        LibError::DataNotUtf8 => ErrorView::InvalidEncoding,
        LibError::InvalidMime(message) => ErrorView::InvalidMimeType(message@),
    }
}

/// Maps a failure of the transport to the error it is reported as.
pub fn match_lib_err(e: LibError) -> (r: Error)
    ensures
        r@ == lib_error(e),
{
    match e {
        LibError::IoError(message) => Error::IoError(message),
        LibError::InvalidUrlError => Error::InvalidUrl,
        LibError::HostLookupError => Error::DnsFailed,
        LibError::RustlsError => Error::TlsFailed,
        LibError::StatusOutOfRange(_) => Error::ExceededStatusSize,
        LibError::DataNotUtf8 => Error::InvalidEncoding,
        LibError::InvalidMime(message) => Error::InvalidMimeType(message),
    }
}

impl GeminiProtocol {
    /// Decides by the status of a response whether its body is to be read:
    /// `Ok` for success alone, and for every other status the error that it
    /// stands for.
    pub fn check_status(status: StatusCode) -> (r: Result<(), Error>)
        ensures
            r == status_outcome(status),
    {
        match status {
            StatusCode::Success => Ok(()),
            StatusCode::Input => Err(Error::GetInput),
            StatusCode::InputSensitive => Err(Error::GetSecureInput),
            StatusCode::NotFound => Err(Error::NotFound),
            StatusCode::TempRedirect => Err(Error::ExceededMaxRedirects),
            StatusCode::PermRedirect => Err(Error::ExceededMaxRedirects),
            StatusCode::TempFail => Err(Error::TemporalFailure),
            StatusCode::ServerUnavailable => Err(Error::ServerUnavailable),
            StatusCode::CgiError => Err(Error::Failure),
            StatusCode::ProxyError => Err(Error::UnsupportedProtocol),
            StatusCode::SlowDown => Err(Error::TooManyRequests),
            StatusCode::PermFail => Err(Error::Failure),
            StatusCode::Gone => Err(Error::Gone),
            StatusCode::ProxyRequestRefused => Err(Error::UnsupportedProtocol),
            StatusCode::BadRequest => Err(Error::BadRequest),
            StatusCode::ClientCerts => Err(Error::ClientCertRequired),
            StatusCode::CertNotAuthorized => Err(Error::NotAuthorized),
            StatusCode::CertNotValid => Err(Error::InvalidCert),
            StatusCode::Unknown(code) => Err(Error::UnknownStatus(code as usize)),
        }
    }
}

} // verus!
