//! The standard set of registrations.

use crate::input::Input;
use crate::registry::register;
use crate::requester::RequesterBuilder;
use vstd::prelude::*;

verus! {

/// The fetchers of the standard set, in the order of their registration:
/// `http`, `https`, `gemini`.
pub open spec fn standard_protocols<P>(
    before: Seq<(Seq<char>, P)>,
    http: P,
    https: P,
    gemini: P,
) -> Seq<(Seq<char>, P)> {
    register(register(register(before, "http"@, http), "https"@, https), "gemini"@, gemini)
}

/// The converters of the standard set, in the order of their registration.
/// The order matters where patterns are concerned: `text/*` comes last, so
/// it catches only the text types that no earlier key names.
pub open spec fn standard_inputs<'a>(
    before: Seq<(Seq<char>, &'a dyn Input)>,
    gemtext: &'a dyn Input,
    markdown: &'a dyn Input,
    text: &'a dyn Input,
) -> Seq<(Seq<char>, &'a dyn Input)> {
    register(
        register(
            register(
                register(register(before, "text/gemini"@, gemtext), "text/markdown"@, markdown),
                "text/x-markdown"@,
                markdown,
            ),
            "text/plain"@,
            text,
        ),
        "text/*"@,
        text,
    )
}

/// Registers the standard set under its keys: the fetchers for `http`,
/// `https` and `gemini`, and the converters for gemtext (`text/gemini`),
/// markdown (`text/markdown`, `text/x-markdown`) and plain text
/// (`text/plain`, and `text/*` for every other text type).
///
/// The handlers come from the caller, who passes [`GemtextInput`] as
/// `gemtext` and [`TextInput`] as `text`; what this function fixes is which
/// keys they stand under, and in which order.
///
/// [`GemtextInput`]: crate::gemtext::GemtextInput
/// [`TextInput`]: crate::text::TextInput
pub fn requester_plugins<'a, P>(
    app: RequesterBuilder<'a, P>,
    http: P,
    https: P,
    gemini: P,
    gemtext: &'a dyn Input,
    markdown: &'a dyn Input,
    text: &'a dyn Input,
) -> (r: RequesterBuilder<'a, P>)
    ensures
        r.protocols() == standard_protocols(app.protocols(), http, https, gemini),
        r.inputs() == standard_inputs(app.inputs(), gemtext, markdown, text),
{
    app.protocol("http", http).protocol("https", https).protocol("gemini", gemini).input(
        "text/gemini",
        gemtext,
    ).input("text/markdown", markdown).input("text/x-markdown", markdown).input(
        "text/plain",
        text,
    ).input("text/*", text)
}

} // verus!
