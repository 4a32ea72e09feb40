//! Locators: the URL strings that name a resource and its transport scheme.

use crate::error::Error;
use url::ParseError;
use url::Url;
use vstd::prelude::*;

verus! {

/// A parsed URL of the `url` crate. Its inside is not visible to proofs; the
/// library only carries it from the parser to fetchers and converters.
#[verifier::external_type_specification]
#[verifier::external_body]
pub struct ExUrl(Url);

/// The reason the `url` crate gives for refusing a string.
#[verifier::external_type_specification]
#[verifier::external_body]
pub struct ExParseError(ParseError);

/// The scheme of `locator` as `Url::parse` and `Url::scheme` give it, or
/// `None` where `Url::parse` refuses the string.
pub uninterp spec fn locator_scheme(locator: Seq<char>) -> Option<Seq<char>>;

/// `Url::parse`, with the scheme of the parsed URL (`Url::scheme`) beside it.
/// Parsing depends on the string alone, so the contract ties the outcome to
/// [`locator_scheme`]: an error exactly where that is `None`, and otherwise
/// the scheme it names.
#[verifier::external_body]
fn parse_with_scheme(locator: &str) -> (r: Result<(String, Url), ParseError>)
    ensures
        match r {
            Ok(parsed) => locator_scheme(locator@) == Some(parsed.0@),
            Err(_) => locator_scheme(locator@) is None,
        },
{
    let url = Url::parse(locator)?;
    Ok((url.scheme().to_owned(), url))
}

impl From<ParseError> for Error {
    fn from(e: ParseError) -> (r: Error) {
        Error::InvalidUrl
    }
}

impl vstd::std_specs::convert::FromSpecImpl<ParseError> for Error {
    open spec fn obeys_from_spec() -> bool {
        true
    }

    open spec fn from_spec(e: ParseError) -> Error {
        Error::InvalidUrl
    }
}

/// A locator split into what dispatch reads (the scheme) and what fetchers
/// need (the parsed URL).
pub struct Locator {
    pub scheme: String,
    pub url: Url,
}

/// Parses `locator`. It fails with `InvalidUrl` exactly on the strings that
/// are no absolute URL.
pub fn parse_locator(locator: &str) -> (r: Result<Locator, Error>)
    ensures
        match locator_scheme(locator@) {
            Some(scheme) => r matches Ok(l) && l.scheme@ == scheme,
            None => r == Err::<Locator, Error>(Error::InvalidUrl),
        },
{
    match parse_with_scheme(locator) {
        Ok((scheme, url)) => Ok(Locator { scheme, url }),
        Err(e) => Err(Error::from(e)),
    }
}

} // verus!
