//! Content types: parsing a media type and naming it as `type/subtype`.

use crate::strings::has_prefix;
use crate::strings::chars_of;
use crate::strings::starts_with;
use mime::Mime;
use vstd::prelude::*;
use vstd::string::StringExecFns;

verus! {

/// What parsing `s` as a media type with the `mime` crate gives: the type
/// and the subtype of the parsed value, or the message of the parse error.
pub uninterp spec fn parsed_media_type(s: Seq<char>) -> Result<(Seq<char>, Seq<char>), Seq<char>>;

/// `<Mime as FromStr>::from_str`, with the outcome turned into strings: on
/// success the names that `Mime::type_` and `Mime::subtype` return, on
/// failure the error as `Display` prints it. The outcome depends on the
/// string alone and is known to contracts as [`parsed_media_type`].
#[verifier::external_body]
fn parse_media_type(s: &str) -> (r: Result<(String, String), String>)
    ensures
        parsed_media_type(s@) == (match r {
            Ok(parts) => Ok::<(Seq<char>, Seq<char>), Seq<char>>((parts.0@, parts.1@)),
            Err(message) => Err::<(Seq<char>, Seq<char>), Seq<char>>(message@),
        }),
{
    match s.parse::<Mime>() {
        Ok(m) => Ok((m.type_().as_str().to_owned(), m.subtype().as_str().to_owned())),
        Err(e) => Err(e.to_string()),
    }
}

/// The name `kind/subtype` of a media type.
pub open spec fn media_type_name(kind: Seq<char>, subtype: Seq<char>) -> Seq<char> {
    kind + seq!['/'] + subtype
}

/// The content type that the string `s` names: the type and subtype of the
/// media type it parses to, joined by a slash, without suffix or parameters;
/// or the parser's message where `s` is no media type.
pub open spec fn content_type_of(s: Seq<char>) -> Result<Seq<char>, Seq<char>> {
    match parsed_media_type(s) {
        Ok(parts) => Ok(media_type_name(parts.0, parts.1)),
        Err(message) => Err(message),
    }
}

/// Names a media type by its type and subtype, as `type/subtype`.
pub fn mime_to_str(kind: &str, subtype: &str) -> (name: String)
    ensures
        name@ == media_type_name(kind@, subtype@),
{
    let mut name = kind.to_owned();
    name.push('/');
    name.append(subtype);
    name
}

/// The content type that `s` names, or the parser's message.
pub fn content_type(s: &str) -> (r: Result<String, String>)
    ensures
        content_type_of(s@) == (match r {
            Ok(name) => Ok::<Seq<char>, Seq<char>>(name@),
            Err(message) => Err::<Seq<char>, Seq<char>>(message@),
        }),
{
    match parse_media_type(s) {
        Ok((kind, subtype)) => Ok(mime_to_str(kind.as_str(), subtype.as_str())),
        Err(message) => Err(message),
    }
}

/// Whether a payload of content type `name` is read as text: its name
/// starts with `text`.
pub fn is_text_type(name: &str) -> (b: bool)
    ensures
        b == starts_with(name@, "text"@),
{
    let chars = chars_of(name);
    has_prefix(&chars, "text")
}

} // verus!
