//! Drova turns a resource named by a locator into a normalized document.
//!
//! A [`requester::Requester`] routes the scheme of a locator to a fetcher
//! and the content type of what was fetched to a converter. Keys are
//! resolved by exact match first and by the first matching glob pattern, in
//! registration order, otherwise ([`registry`]). The converters map gemtext
//! ([`gemtext`]), a markdown syntax tree ([`markdown`]) and plain text
//! ([`text`]) to one document model ([`document`]).
//!
//! The library performs no input or output. Fetching happens between the
//! two steps of a request, outside the library, and the decisions of the
//! HTTP and Gemini fetchers ([`http`], [`gemini`]) take plain values.

pub mod document;
pub mod error;
pub mod flatten;
pub mod footnotes;
pub mod gemini;
pub mod gemtext;
pub mod http;
pub mod input;
pub mod locator;
pub mod markdown;
pub mod markdown_laws;
pub mod media;
pub mod plugins;
pub mod registry;
pub mod requester;
pub mod strings;
pub mod syntax;
pub mod text;
