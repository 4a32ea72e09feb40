//! The interface of a converter: payload in, document out.

use crate::document::Document;
use crate::document::DocumentView;
use crate::error::Error;
use crate::error::ErrorView;
use url::Url;
use vstd::prelude::*;

verus! {

/// The mathematical value of a conversion's outcome.
pub open spec fn outcome(r: Result<Document, Error>) -> Result<DocumentView, ErrorView> {
    match r {
        Ok(doc) => Ok(doc@),
        Err(e) => Err(e@),
    }
}

/// A converter from one kind of payload to the document model.
///
/// A converter is a function of its payload: `text_output` and
/// `bytes_output` say what it makes of each payload, and the two entry points
/// return exactly that. The locator the payload came from is handed over as
/// context and does not decide the outcome. A converter that supports one
/// kind of payload only answers `UnsupportedInput` for the other.
pub trait Input: Send + Sync {
    /// What this converter makes of the text `text`.
    spec fn text_output(&self, text: Seq<char>) -> Result<DocumentView, ErrorView>;

    /// What this converter makes of the bytes `bytes`.
    spec fn bytes_output(&self, bytes: Seq<u8>) -> Result<DocumentView, ErrorView>;

    /// Converts a text payload.
    fn process_text(&self, s: String, url: Option<&Url>) -> (r: Result<Document, Error>)
        ensures
            outcome(r) == self.text_output(s@),
    ;

    /// Converts a binary payload.
    fn process_bytes(&self, b: Vec<u8>, url: Option<&Url>) -> (r: Result<Document, Error>)
        ensures
            outcome(r) == self.bytes_output(b@),
    ;
}

/// Whether `f` is a function of its payload: it may be called on every
/// payload and locator, and what it returns depends on the value of the
/// payload alone.
pub open spec fn payload_function<A: View, F: Fn(A, Option<&Url>) -> Result<Document, Error>>(
    f: F,
) -> bool {
    &&& forall|a: A, url: Option<&Url>| call_requires(f, (a, url))
    &&& forall|
        a1: A,
        url1: Option<&Url>,
        r1: Result<Document, Error>,
        a2: A,
        url2: Option<&Url>,
        r2: Result<Document, Error>,
    |
        a1@ == a2@ && #[trigger] call_ensures(f, (a1, url1), r1) && #[trigger] call_ensures(
            f,
            (a2, url2),
            r2,
        ) ==> outcome(r1) == outcome(r2)
}

/// Whether `f` can return something of value `out` for a payload of value
/// `payload`.
pub open spec fn may_return<A: View, F: Fn(A, Option<&Url>) -> Result<Document, Error>>(
    f: F,
    payload: A::V,
    out: Result<DocumentView, ErrorView>,
) -> bool {
    exists|a: A, url: Option<&Url>, r: Result<Document, Error>|
        a@ == payload && #[trigger] call_ensures(f, (a, url), r) && outcome(r) == out
}

/// What the payload function `f` makes of the payload value `payload`.
pub open spec fn payload_output<A: View, F: Fn(A, Option<&Url>) -> Result<Document, Error>>(
    f: F,
    payload: A::V,
) -> Result<DocumentView, ErrorView> {
    choose|out: Result<DocumentView, ErrorView>| may_return(f, payload, out)
}

/// Whatever a payload function returns has the value that `payload_output`
/// names.
pub proof fn lemma_payload_output<A: View, F: Fn(A, Option<&Url>) -> Result<Document, Error>>(
    f: F,
    a: A,
    url: Option<&Url>,
    r: Result<Document, Error>,
)
    requires
        payload_function(f),
        call_ensures(f, (a, url), r),
    ensures
        outcome(r) == payload_output(f, a@),
{
    assert(may_return(f, a@, outcome(r)));
    let out = payload_output(f, a@);
    assert(may_return(f, a@, out));
}

/// A converter made of two functions, one for text and one for bytes.
pub struct FnInput<T, B> where
    T: Fn(String, Option<&Url>) -> Result<Document, Error> + Send + Sync,
    B: Fn(Vec<u8>, Option<&Url>) -> Result<Document, Error> + Send + Sync,
 {
    on_text: T,
    on_bytes: B,
}

impl<T, B> FnInput<T, B> where
    T: Fn(String, Option<&Url>) -> Result<Document, Error> + Send + Sync,
    B: Fn(Vec<u8>, Option<&Url>) -> Result<Document, Error> + Send + Sync,
 {
    #[verifier::type_invariant]
    spec fn well_formed(&self) -> bool {
        payload_function(self.on_text) && payload_function(self.on_bytes)
    }

    /// The converter that answers text with `on_text` and bytes with
    /// `on_bytes`.
    pub fn new(on_text: T, on_bytes: B) -> (r: Self)
        requires
            payload_function(on_text),
            payload_function(on_bytes),
        ensures
            forall|text: Seq<char>| #[trigger] r.text_output(text) == payload_output(on_text, text),
            forall|bytes: Seq<u8>| #[trigger]
                r.bytes_output(bytes) == payload_output(on_bytes, bytes),
    {
        FnInput { on_text, on_bytes }
    }
}

impl<T, B> Input for FnInput<T, B> where
    T: Fn(String, Option<&Url>) -> Result<Document, Error> + Send + Sync,
    B: Fn(Vec<u8>, Option<&Url>) -> Result<Document, Error> + Send + Sync,
 {
    closed spec fn text_output(&self, text: Seq<char>) -> Result<DocumentView, ErrorView> {
        payload_output(self.on_text, text)
    }

    closed spec fn bytes_output(&self, bytes: Seq<u8>) -> Result<DocumentView, ErrorView> {
        payload_output(self.on_bytes, bytes)
    }

    fn process_text(&self, s: String, url: Option<&Url>) -> (r: Result<Document, Error>) {
        proof {
            use_type_invariant(self);
        }
        let r = (self.on_text)(s, url);
        proof {
            lemma_payload_output(self.on_text, s, url, r);
        }
        r
    }

    fn process_bytes(&self, b: Vec<u8>, url: Option<&Url>) -> (r: Result<Document, Error>) {
        proof {
            use_type_invariant(self);
        }
        let r = (self.on_bytes)(b, url);
        proof {
            lemma_payload_output(self.on_bytes, b, url, r);
        }
        r
    }
}

} // verus!
