//! The dispatcher: routes a locator's scheme to a fetcher and a payload's
//! content type to a converter.
//!
//! Fetching is not done here. A request runs in two verified steps with the
//! fetch between them: [`Requester::route`] parses the locator and picks the
//! fetcher, the caller performs the fetch, and
//! [`Requester::process_response`] picks the converter for what came back
//! and runs it.

use crate::document::Document;
use crate::document::DocumentView;
use crate::error::Error;
use crate::error::ErrorView;
use crate::input::outcome;
use crate::input::Input;
use crate::locator::locator_scheme;
use crate::locator::parse_locator;
use crate::locator::Locator;
use crate::registry::distinct_keys;
use crate::registry::keys_of;
use crate::registry::register;
use crate::registry::resolve;
use crate::registry::Registry;
use url::Url;
use vstd::prelude::*;

verus! {

/// The payload of a fetched resource.
#[derive(Debug, PartialEq, Eq)]
pub enum ResponseData {
    TextOutput(String),
    BitsOutput(Vec<u8>),
}

/// What a fetcher returns: a payload and its content type, such as
/// `text/html`.
#[derive(Debug, PartialEq, Eq)]
pub struct Response {
    pub data: ResponseData,
    pub mime: String,
}

/// Mathematical value of a [`ResponseData`].
pub enum ResponseDataView {
    TextOutput(Seq<char>),
    BitsOutput(Seq<u8>),
}

/// Mathematical value of a [`Response`].
pub struct ResponseView {
    pub data: ResponseDataView,
    pub mime: Seq<char>,
}

impl View for ResponseData {
    type V = ResponseDataView;

    open spec fn view(&self) -> ResponseDataView {
        match self {
            ResponseData::TextOutput(s) => ResponseDataView::TextOutput(s@),
            ResponseData::BitsOutput(b) => ResponseDataView::BitsOutput(b@),
        }
    }
}

impl View for Response {
    type V = ResponseView;

    open spec fn view(&self) -> ResponseView {
        ResponseView { data: self.data@, mime: self.mime@ }
    }
}

/// What the converters `inputs` make of a payload `data` of content type
/// `content_type`: the converter that the content type resolves to decides,
/// by its text entry point for text and its binary one for bytes; without
/// such a converter the input is unsupported.
pub open spec fn converted<'a>(
    inputs: Seq<(Seq<char>, &'a dyn Input)>,
    content_type: Seq<char>,
    data: ResponseDataView,
) -> Result<DocumentView, ErrorView> {
    match resolve(inputs, content_type) {
        Some(input) => match data {
            ResponseDataView::TextOutput(text) => input.text_output(text),
            ResponseDataView::BitsOutput(bytes) => input.bytes_output(bytes),
        },
        None => Err(ErrorView::UnsupportedInput),
    }
}

/// The fetch that a locator was routed to: the fetcher to call and the
/// parsed locator to call it with.
pub struct Route<'r, P> {
    pub handler: &'r P,
    pub locator: Locator,
}

/// The registry of fetchers (of any type `P`) by scheme and of converters by
/// content type. Both keep their registration order, which is the priority
/// among patterns.
pub struct Requester<'a, P> {
    protocols: Registry<P>,
    inputs: Registry<&'a dyn Input>,
}

impl<'a, P> Requester<'a, P> {
    /// The registered fetchers with their scheme keys, in registration order.
    pub closed spec fn protocols(&self) -> Seq<(Seq<char>, P)> {
        self.protocols@
    }

    /// The registered converters with their content-type keys, in
    /// registration order.
    pub closed spec fn inputs(&self) -> Seq<(Seq<char>, &'a dyn Input)> {
        self.inputs@
    }

    /// The fetcher for `scheme`, or `UnsupportedProtocol` if `scheme` equals
    /// no registered key and matches none as a pattern.
    pub fn resolve_fetcher(&self, scheme: &str) -> (r: Result<&P, Error>)
        ensures
            match resolve(self.protocols(), scheme@) {
                Some(p) => r matches Ok(h) && *h == p,
                None => r matches Err(e) && e == Error::UnsupportedProtocol,
            },
            distinct_keys(keys_of(self.protocols())),
    {
        match self.protocols.resolve(scheme) {
            Some(h) => Ok(h),
            None => Err(Error::UnsupportedProtocol),
        }
    }

    /// The converter for `content_type`, or `UnsupportedInput` if
    /// `content_type` equals no registered key and matches none as a pattern.
    pub fn resolve_converter(&self, content_type: &str) -> (r: Result<&&'a dyn Input, Error>)
        ensures
            match resolve(self.inputs(), content_type@) {
                Some(i) => r matches Ok(h) && *h == i,
                None => r matches Err(e) && e == Error::UnsupportedInput,
            },
            distinct_keys(keys_of(self.inputs())),
    {
        match self.inputs.resolve(content_type) {
            Some(h) => Ok(h),
            None => Err(Error::UnsupportedInput),
        }
    }

    /// First step of a request: parses `locator` and picks its fetcher.
    ///
    /// A string that is no absolute URL gives `InvalidUrl`. A scheme that
    /// resolves to no fetcher gives `UnsupportedProtocol`; no route comes
    /// back then, so nothing is fetched. Otherwise the route names the
    /// fetcher that the scheme resolves to.
    pub fn route(&self, locator: &str) -> (r: Result<Route<'_, P>, Error>)
        ensures
            match locator_scheme(locator@) {
                None => r matches Err(e) && e == Error::InvalidUrl,
                Some(scheme) => match resolve(self.protocols(), scheme) {
                    None => r matches Err(e) && e == Error::UnsupportedProtocol,
                    Some(p) => r matches Ok(route) && *route.handler == p
                        && route.locator.scheme@ == scheme,
                },
            },
    {
        let parsed = match parse_locator(locator) {
            Ok(l) => l,
            Err(e) => {
                return Err(e);
            },
        };
        match self.resolve_fetcher(parsed.scheme.as_str()) {
            Ok(handler) => Ok(Route { handler, locator: parsed }),
            Err(e) => Err(e),
        }
    }

    /// Converts a fetched response with the converter that its content type
    /// resolves to, handing it `url` as context.
    pub fn convert(&self, resp: Response, url: Option<&Url>) -> (r: Result<Document, Error>)
        ensures
            outcome(r) == converted(self.inputs(), resp.mime@, resp.data@),
    {
        let Response { data, mime } = resp;
        let input = match self.resolve_converter(mime.as_str()) {
            Ok(i) => i,
            Err(e) => {
                return Err(e);
            },
        };
        match data {
            ResponseData::TextOutput(s) => input.process_text(s, url),
            ResponseData::BitsOutput(b) => input.process_bytes(b, url),
        }
    }

    /// Second step of a request: takes what the fetch returned. A failure of
    /// the fetcher is handed on unchanged; a response is converted.
    pub fn process_response(&self, fetched: Result<Response, Error>, url: Option<&Url>) -> (r:
        Result<Document, Error>)
        ensures
            match fetched {
                Ok(resp) => outcome(r) == converted(self.inputs(), resp.mime@, resp.data@),
                Err(e) => r == Err::<Document, Error>(e),
            },
    {
        match fetched {
            Ok(resp) => self.convert(resp, url),
            Err(e) => Err(e),
        }
    }

    /// Converts text that the caller has in hand, as content of type `ty`.
    pub fn process_text(&self, ty: &str, s: String) -> (r: Result<Document, Error>)
        ensures
            outcome(r) == converted(self.inputs(), ty@, ResponseDataView::TextOutput(s@)),
    {
        match self.resolve_converter(ty) {
            Ok(input) => input.process_text(s, None),
            Err(e) => Err(e),
        }
    }

    /// Converts bytes that the caller has in hand, as content of type `ty`.
    pub fn process_bytes(&self, ty: &str, b: Vec<u8>) -> (r: Result<Document, Error>)
        ensures
            outcome(r) == converted(self.inputs(), ty@, ResponseDataView::BitsOutput(b@)),
    {
        match self.resolve_converter(ty) {
            Ok(input) => input.process_bytes(b, None),
            Err(e) => Err(e),
        }
    }
}

impl<'a, P> Default for Requester<'a, P> {
    fn default() -> (r: Self)
        ensures
            r.protocols() == Seq::<(Seq<char>, P)>::empty(),
            r.inputs() == Seq::<(Seq<char>, &'a dyn Input)>::empty(),
    {
        Requester { protocols: Registry::new(), inputs: Registry::new() }
    }
}

/// Builds a [`Requester`] by registering fetchers and converters one by one.
pub struct RequesterBuilder<'a, P> {
    core: Requester<'a, P>,
}

impl<'a, P> Default for RequesterBuilder<'a, P> {
    fn default() -> (r: Self)
        ensures
            r.protocols() == Seq::<(Seq<char>, P)>::empty(),
            r.inputs() == Seq::<(Seq<char>, &'a dyn Input)>::empty(),
    {
        RequesterBuilder { core: Requester::default() }
    }
}

impl<'a, P> RequesterBuilder<'a, P> {
    /// The fetchers registered so far.
    pub closed spec fn protocols(&self) -> Seq<(Seq<char>, P)> {
        self.core.protocols()
    }

    /// The converters registered so far.
    pub closed spec fn inputs(&self) -> Seq<(Seq<char>, &'a dyn Input)> {
        self.core.inputs()
    }

    /// Lets `registrar` add its registrations; the result is whatever
    /// `registrar` makes of this builder.
    pub fn plugin<R>(self, registrar: R) -> (r: Self) where R: Fn(Self) -> Self
        requires
            registrar.requires((self,)),
        ensures
            registrar.ensures((self,), r),
    {
        registrar(self)
    }

    /// Registers the fetcher `protocol` for the scheme, or scheme pattern,
    /// `schema`.
    pub fn protocol(self, schema: &str, protocol: P) -> (r: Self)
        ensures
            r.protocols() == register(self.protocols(), schema@, protocol),
            r.inputs() == self.inputs(),
            distinct_keys(keys_of(r.protocols())),
    {
        let Requester { protocols, inputs } = self.core;
        let protocols = protocols.insert(schema.to_owned(), protocol);
        RequesterBuilder { core: Requester { protocols, inputs } }
    }

    /// Registers the converter `input` for the content type, or content-type
    /// pattern, `ty`.
    pub fn input(self, ty: &str, input: &'a dyn Input) -> (r: Self)
        ensures
            r.inputs() == register(self.inputs(), ty@, input),
            r.protocols() == self.protocols(),
            distinct_keys(keys_of(r.inputs())),
    {
        let Requester { protocols, inputs } = self.core;
        let inputs = inputs.insert(ty.to_owned(), input);
        RequesterBuilder { core: Requester { protocols, inputs } }
    }

    /// The finished registry.
    pub fn build(self) -> (r: Requester<'a, P>)
        ensures
            r.protocols() == self.protocols(),
            r.inputs() == self.inputs(),
    {
        self.core
    }
}

} // verus!
