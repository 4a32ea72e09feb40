//! The plain-text converter.

use crate::document::Block;
use crate::document::BlockView;
use crate::document::block_views;
use crate::document::lemma_block_views_push;
use crate::document::Document;
use crate::document::DocumentView;
use crate::error::Error;
use crate::error::ErrorView;
use crate::input::Input;
use url::Url;
use vstd::prelude::*;
use vstd::string::StrSliceExecFns;

verus! {

/// Longest title, in characters, that the plain-text converter derives.
pub const TITLE_CHARS: usize = 20;

/// Longest description, in characters, that the plain-text converter derives.
pub const DESCRIPTION_CHARS: usize = 100;

/// The first `max_chars` characters of `s`, or all of `s` if it has fewer.
pub open spec fn prefix(s: Seq<char>, max_chars: nat) -> Seq<char> {
    if s.len() <= max_chars {
        s
    } else {
        s.take(max_chars as int)
    }
}

/// The document that plain text converts to: the whole text as one
/// preformatted block, with title and description cut from its start.
pub open spec fn plain_document(text: Seq<char>) -> DocumentView {
    DocumentView {
        title: Some(prefix(text, TITLE_CHARS as nat)),
        description: Some(prefix(text, DESCRIPTION_CHARS as nat)),
        body: seq![BlockView::Preformatted { text }],
        variables: None,
    }
}

/// Cuts `s` down to its first `max_chars` characters. Characters are code
/// points, so a character of several bytes is never split; a string that is
/// short enough comes back whole.
pub fn truncate(s: &str, max_chars: usize) -> (r: &str)
    ensures
        r@ == prefix(s@, max_chars as nat),
{
    if s.unicode_len() <= max_chars {
        s
    } else {
        let r = s.substring_char(0, max_chars);
        proof {
            assert(s@.subrange(0, max_chars as int) =~= s@.take(max_chars as int));
        }
        r
    }
}

/// Converter for plain text.
pub struct TextInput;

impl Input for TextInput {
    open spec fn text_output(&self, text: Seq<char>) -> Result<DocumentView, ErrorView> {
        Ok(plain_document(text))
    }

    open spec fn bytes_output(&self, bytes: Seq<u8>) -> Result<DocumentView, ErrorView> {
        Err(ErrorView::UnsupportedInput)
    }

    fn process_text(&self, s: String, url: Option<&Url>) -> (r: Result<Document, Error>) {
        let title = truncate(s.as_str(), TITLE_CHARS).to_owned();
        let description = truncate(s.as_str(), DESCRIPTION_CHARS).to_owned();
        let mut body: Vec<Block> = Vec::new();
        let block = Block::Preformatted { text: s };
        proof {
            lemma_block_views_push(body@, block);
            assert(block_views(body@).push(block@) =~= seq![block@]);
        }
        body.push(block);
        Ok(Document { title: Some(title), description: Some(description), body, variables: None })
    }

    fn process_bytes(&self, b: Vec<u8>, url: Option<&Url>) -> (r: Result<Document, Error>) {
        Err(Error::UnsupportedInput)
    }
}

} // verus!
