//! The failures that dispatch, fetching and conversion can report.

use vstd::prelude::*;

verus! {

/// Every way a request can fail. The set is flat: dispatch failures,
/// transport failures handed on from a fetcher, and conversion failures.
#[derive(Debug, PartialEq, Eq)]
pub enum Error {
    GetInput,
    GetSecureInput,
    ClientCertRequired,
    NotAuthorized,
    NotFound,
    MethodNotAllowed,
    NotAcceptable,
    InvalidUrl,
    UnsupportedProtocol,
    UnsupportedInput,
    IoError(String),
    DnsFailed,
    TlsFailed,
    ExceededStatusSize,
    InvalidEncoding,
    InvalidMimeType(String),
    InvalidCert,
    ExceededMaxRedirects,
    TemporalFailure,
    Failure,
    ServerUnavailable,
    TooManyRequests,
    Gone,
    BadRequest,
    Forbidden,
    UnknownStatus(usize),
    InvalidStatus,
    InvalidSyntax,
    ParserError(String),
}

/// Mathematical value of an [`Error`]: messages are sequences of characters.
pub enum ErrorView {
    GetInput,
    GetSecureInput,
    ClientCertRequired,
    NotAuthorized,
    NotFound,
    MethodNotAllowed,
    NotAcceptable,
    InvalidUrl,
    UnsupportedProtocol,
    UnsupportedInput,
    IoError(Seq<char>),
    DnsFailed,
    TlsFailed,
    ExceededStatusSize,
    InvalidEncoding,
    InvalidMimeType(Seq<char>),
    InvalidCert,
    ExceededMaxRedirects,
    TemporalFailure,
    Failure,
    ServerUnavailable,
    TooManyRequests,
    Gone,
    BadRequest,
    Forbidden,
    UnknownStatus(usize),
    InvalidStatus,
    InvalidSyntax,
    ParserError(Seq<char>),
}

impl View for Error {
    type V = ErrorView;

    open spec fn view(&self) -> ErrorView {
        match self {
            Error::GetInput => ErrorView::GetInput,
            Error::GetSecureInput => ErrorView::GetSecureInput,
            Error::ClientCertRequired => ErrorView::ClientCertRequired,
            Error::NotAuthorized => ErrorView::NotAuthorized,
            Error::NotFound => ErrorView::NotFound,
            Error::MethodNotAllowed => ErrorView::MethodNotAllowed,
            Error::NotAcceptable => ErrorView::NotAcceptable,
            Error::InvalidUrl => ErrorView::InvalidUrl,
            Error::UnsupportedProtocol => ErrorView::UnsupportedProtocol,
            Error::UnsupportedInput => ErrorView::UnsupportedInput,
            Error::IoError(m) => ErrorView::IoError(m@),
            Error::DnsFailed => ErrorView::DnsFailed,
            Error::TlsFailed => ErrorView::TlsFailed,
            Error::ExceededStatusSize => ErrorView::ExceededStatusSize,
            Error::InvalidEncoding => ErrorView::InvalidEncoding,
            Error::InvalidMimeType(m) => ErrorView::InvalidMimeType(m@),
            Error::InvalidCert => ErrorView::InvalidCert,
            Error::ExceededMaxRedirects => ErrorView::ExceededMaxRedirects,
            Error::TemporalFailure => ErrorView::TemporalFailure,
            Error::Failure => ErrorView::Failure,
            Error::ServerUnavailable => ErrorView::ServerUnavailable,
            Error::TooManyRequests => ErrorView::TooManyRequests,
            Error::Gone => ErrorView::Gone,
            Error::BadRequest => ErrorView::BadRequest,
            Error::Forbidden => ErrorView::Forbidden,
            Error::UnknownStatus(code) => ErrorView::UnknownStatus(*code),
            Error::InvalidStatus => ErrorView::InvalidStatus,
            Error::InvalidSyntax => ErrorView::InvalidSyntax,
            Error::ParserError(m) => ErrorView::ParserError(m@),
        }
    }
}

} // verus!
