use drova::error::Error;
use drova::gemini::match_lib_err;
use drova::gemini::GeminiProtocol;
use drova::gemini::LibError;
use drova::gemini::StatusCode;
use drova::http::match_reqwest_error;
use drova::http::HttpProtocol;
use drova::locator::parse_locator;
use drova::media::content_type;
use drova::media::is_text_type;
use drova::media::mime_to_str;

#[test]
fn media_type_name_is_type_slash_subtype() {
    assert_eq!(mime_to_str("text", "html"), "text/html");
    assert_eq!(mime_to_str("", ""), "/");
}

#[test]
fn content_type_drops_parameters_and_suffix() {
    assert_eq!(content_type("text/html; charset=utf-8"), Ok("text/html".to_string()));
    assert_eq!(content_type("image/svg+xml"), Ok("image/svg".to_string()));
    assert_eq!(content_type("text/gemini"), Ok("text/gemini".to_string()));
    assert_eq!(content_type("*/*"), Ok("*/*".to_string()));
}

#[test]
fn content_type_is_lower_case() {
    assert_eq!(content_type("TEXT/Plain"), Ok("text/plain".to_string()));
}

#[test]
fn content_type_of_what_is_no_media_type() {
    assert!(content_type("text").is_err());
    assert!(content_type("").is_err());
    assert!(content_type("/plain").is_err());
    let message = content_type("not a type").unwrap_err();
    assert!(message.starts_with("mime parse error"));
}

#[test]
fn text_types_start_with_text() {
    assert!(is_text_type("text/plain"));
    assert!(is_text_type("text"));
    assert!(is_text_type("textual/x"));
    assert!(!is_text_type("tex"));
    assert!(!is_text_type("application/text"));
    assert!(!is_text_type(""));
    assert!(!is_text_type("Text/plain"));
}

#[test]
fn http_content_type_defaults_to_plain_text() {
    assert_eq!(HttpProtocol::content_type(None), Ok("text/plain".to_string()));
    assert_eq!(
        HttpProtocol::content_type(Some("application/json; charset=utf-8")),
        Ok("application/json".to_string())
    );
}

#[test]
fn http_content_type_that_is_no_media_type() {
    match HttpProtocol::content_type(Some("garbage")) {
        Err(Error::InvalidMimeType(message)) => assert!(message.starts_with("mime parse error")),
        other => panic!("unexpected: {:?}", other),
    }
}

#[test]
fn http_failures_by_status() {
    assert_eq!(match_reqwest_error(Some(400)), Error::BadRequest);
    assert_eq!(match_reqwest_error(Some(401)), Error::NotAuthorized);
    assert_eq!(match_reqwest_error(Some(403)), Error::Forbidden);
    assert_eq!(match_reqwest_error(Some(404)), Error::NotFound);
    assert_eq!(match_reqwest_error(Some(405)), Error::MethodNotAllowed);
    assert_eq!(match_reqwest_error(Some(406)), Error::NotAcceptable);
    assert_eq!(match_reqwest_error(Some(410)), Error::Gone);
    assert_eq!(match_reqwest_error(Some(429)), Error::TooManyRequests);
    assert_eq!(match_reqwest_error(Some(500)), Error::Failure);
    assert_eq!(match_reqwest_error(Some(503)), Error::ServerUnavailable);
    assert_eq!(match_reqwest_error(Some(418)), Error::UnknownStatus(418));
    assert_eq!(match_reqwest_error(Some(0)), Error::UnknownStatus(0));
    assert_eq!(match_reqwest_error(Some(u16::MAX)), Error::UnknownStatus(65535));
    assert_eq!(match_reqwest_error(None), Error::InvalidStatus);
}

#[test]
fn gemini_status_decides_the_outcome() {
    let check = GeminiProtocol::check_status;
    assert_eq!(check(StatusCode::Success), Ok(()));
    assert_eq!(check(StatusCode::Input), Err(Error::GetInput));
    assert_eq!(check(StatusCode::InputSensitive), Err(Error::GetSecureInput));
    assert_eq!(check(StatusCode::NotFound), Err(Error::NotFound));
    assert_eq!(check(StatusCode::TempRedirect), Err(Error::ExceededMaxRedirects));
    assert_eq!(check(StatusCode::PermRedirect), Err(Error::ExceededMaxRedirects));
    assert_eq!(check(StatusCode::TempFail), Err(Error::TemporalFailure));
    assert_eq!(check(StatusCode::ServerUnavailable), Err(Error::ServerUnavailable));
    assert_eq!(check(StatusCode::CgiError), Err(Error::Failure));
    assert_eq!(check(StatusCode::ProxyError), Err(Error::UnsupportedProtocol));
    assert_eq!(check(StatusCode::SlowDown), Err(Error::TooManyRequests));
    assert_eq!(check(StatusCode::PermFail), Err(Error::Failure));
    assert_eq!(check(StatusCode::Gone), Err(Error::Gone));
    assert_eq!(check(StatusCode::ProxyRequestRefused), Err(Error::UnsupportedProtocol));
    assert_eq!(check(StatusCode::BadRequest), Err(Error::BadRequest));
    assert_eq!(check(StatusCode::ClientCerts), Err(Error::ClientCertRequired));
    assert_eq!(check(StatusCode::CertNotAuthorized), Err(Error::NotAuthorized));
    assert_eq!(check(StatusCode::CertNotValid), Err(Error::InvalidCert));
    assert_eq!(check(StatusCode::Unknown(29)), Err(Error::UnknownStatus(29)));
}

#[test]
fn gemini_transport_failures() {
    assert_eq!(match_lib_err(LibError::IoError("broken pipe".to_string())), Error::IoError("broken pipe".to_string()));
    assert_eq!(match_lib_err(LibError::InvalidUrlError), Error::InvalidUrl);
    assert_eq!(match_lib_err(LibError::HostLookupError), Error::DnsFailed);
    assert_eq!(match_lib_err(LibError::RustlsError), Error::TlsFailed);
    assert_eq!(match_lib_err(LibError::StatusOutOfRange(99)), Error::ExceededStatusSize);
    assert_eq!(match_lib_err(LibError::DataNotUtf8), Error::InvalidEncoding);
    assert_eq!(match_lib_err(LibError::InvalidMime("bad".to_string())), Error::InvalidMimeType("bad".to_string()));
}

#[test]
fn locator_parses_to_scheme_and_url() {
    let locator = parse_locator("Gemini://example.org/path?q=1").ok().unwrap();
    assert_eq!(locator.scheme, "gemini");
    assert_eq!(locator.url.host_str(), Some("example.org"));
    assert_eq!(locator.url.path(), "/path");
    let mail = parse_locator("mailto:someone@example.org").ok().unwrap();
    assert_eq!(mail.scheme, "mailto");
}

#[test]
fn locator_that_is_no_absolute_url() {
    assert_eq!(parse_locator("/relative/path").err(), Some(Error::InvalidUrl));
    assert_eq!(parse_locator("example.org").err(), Some(Error::InvalidUrl));
    assert_eq!(parse_locator("://missing").err(), Some(Error::InvalidUrl));
}
