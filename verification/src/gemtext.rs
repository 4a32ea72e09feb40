//! The lightweight-markup converter: the line-oriented gemtext dialect.
//!
//! The text is read once, physical line by physical line, each line trimmed
//! of the white space around it. A small state is kept across lines: the
//! lines of a fenced block that is open, and the items of a list that has
//! not ended yet.

use crate::document::block_views;
use crate::document::lemma_block_views_push;
use crate::document::text_opt;
use crate::document::Block;
use crate::document::BlockView;
use crate::document::Body;
use crate::document::BodyView;
use crate::document::Document;
use crate::document::DocumentView;
use crate::document::HeadingLevel;
use crate::document::ListStyle;
use crate::error::Error;
use crate::error::ErrorView;
use crate::input::Input;
use crate::strings::chars_of;
use crate::strings::has_prefix;
use crate::strings::white_space;
use crate::strings::join;
use crate::strings::join_lines;
use crate::strings::lemma_word_end;
use crate::strings::lines;
use crate::strings::seqs;
use crate::strings::slice_of;
use crate::strings::split_lines;
use crate::strings::starts_with;
use crate::strings::string_of;
use crate::strings::trim;
use crate::strings::trimmed;
use crate::strings::word_end;
use url::Url;
use vstd::prelude::*;

verus! {

/// What the scan remembers between lines.
pub struct Scan {
    /// The nodes emitted so far.
    pub body: Seq<BlockView>,
    /// The text of the first level-one heading seen so far.
    pub title: Option<Seq<char>>,
    /// The lines gathered in the fenced block that is open, if one is.
    pub fence: Option<Seq<Seq<char>>>,
    /// The items gathered in the list that has not ended, if there is one.
    pub list: Option<Seq<BlockView>>,
}

/// The state before the first line.
pub open spec fn scan_start() -> Scan {
    Scan { body: Seq::empty(), title: None, fence: None, list: None }
}

/// The code block made of the lines of a fenced block: the lines joined by
/// line feeds, with no language.
pub open spec fn fence_block(fence: Seq<Seq<char>>) -> BlockView {
    BlockView::Code { text: join(fence, seq!['\n']), language: None }
}

/// Ends the pending list, if there is one, by emitting it as a bullet list.
pub open spec fn flush_list(st: Scan) -> Scan {
    match st.list {
        Some(items) => Scan {
            body: st.body.push(BlockView::List { items, style: ListStyle::Bullet }),
            list: None,
            ..st
        },
        None => st,
    }
}

/// The link for what follows the marker of a link line: the target runs up
/// to the first white space, and what follows it, trimmed, is the label.
pub open spec fn nav_link(rest: Seq<char>) -> BlockView {
    let body = trim(rest);
    let k = word_end(body);
    BlockView::NavLink {
        target: body.take(k),
        label: if k < body.len() {
            Some(trim(body.skip(k + 1)))
        } else {
            None
        },
    }
}

/// The state after emitting `block`.
pub open spec fn emit(st: Scan, block: BlockView) -> Scan {
    Scan { body: st.body.push(block), ..st }
}

/// The state after a heading line of level `level` whose marker is `marker`
/// characters long. The text of the first level-one heading becomes the
/// title.
pub open spec fn heading(st: Scan, line: Seq<char>, marker: int, level: HeadingLevel) -> Scan {
    let text = trim(line.skip(marker));
    Scan {
        body: st.body.push(BlockView::Heading { level, text }),
        title: if level == HeadingLevel::One && st.title is None {
            Some(text)
        } else {
            st.title
        },
        ..st
    }
}

/// The state after the trimmed line `line`, which is no list item, read
/// outside a fenced block with no list pending.
pub open spec fn place_line(st: Scan, line: Seq<char>) -> Scan {
    if starts_with(line, "=>"@) {
        emit(st, BlockView::Paragraph { body: BodyView::Blocks(seq![nav_link(line.skip(2))]) })
    } else if starts_with(line, "# "@) {
        heading(st, line, 2, HeadingLevel::One)
    } else if starts_with(line, "## "@) {
        heading(st, line, 3, HeadingLevel::Two)
    } else if starts_with(line, "### "@) {
        heading(st, line, 4, HeadingLevel::Three)
    } else if starts_with(line, "> "@) {
        emit(st, BlockView::BlockQuote { body: BodyView::Text(line.skip(2)) })
    } else if starts_with(line, "```"@) {
        Scan { fence: Some(Seq::empty()), ..st }
    } else if line.len() > 0 {
        emit(st, BlockView::Paragraph { body: BodyView::Text(line) })
    } else {
        st
    }
}

/// The state after the trimmed line `line`.
///
/// Inside a fenced block a fence line closes the block and emits it, and any
/// other line is gathered as it is. Outside, a list item joins the pending
/// list; any other line first ends the pending list and then has its own
/// effect, which for a blank line is none.
pub open spec fn scan_line(st: Scan, line: Seq<char>) -> Scan {
    match st.fence {
        Some(fence) => if starts_with(line, "```"@) {
            Scan { body: st.body.push(fence_block(fence)), fence: None, ..st }
        } else {
            Scan { fence: Some(fence.push(line)), ..st }
        },
        None => if starts_with(line, "* "@) {
            let item = BlockView::Element { body: BodyView::Text(line.skip(2)) };
            let items = match st.list {
                Some(items) => items,
                None => Seq::empty(),
            };
            Scan { list: Some(items.push(item)), ..st }
        } else {
            place_line(flush_list(st), line)
        },
    }
}

/// The state after the physical lines `raw`, each trimmed before it is read.
pub open spec fn scan(raw: Seq<Seq<char>>) -> Scan
    decreases raw.len(),
{
    if raw.len() == 0 {
        scan_start()
    } else {
        scan_line(scan(raw.drop_last()), trim(raw.last()))
    }
}

/// The document at the end of input: a list that is still pending is
/// emitted, and so is a fenced block that was never closed.
pub open spec fn scan_end(st: Scan) -> DocumentView {
    let flushed = flush_list(st);
    DocumentView {
        title: st.title,
        description: None,
        body: match flushed.fence {
            Some(fence) => flushed.body.push(fence_block(fence)),
            None => flushed.body,
        },
        variables: None,
    }
}

/// The document that the gemtext `text` converts to.
pub open spec fn gemtext_document(text: Seq<char>) -> DocumentView {
    scan_end(scan(lines(text)))
}

/// A fenced block that is still open at the end of input is not lost: the
/// last node of the document is the code block made of the lines gathered
/// since the fence opened.
pub proof fn lemma_open_fence_is_emitted(text: Seq<char>)
    requires
        scan(lines(text)).fence is Some,
    ensures
        gemtext_document(text).body.len() > 0,
        gemtext_document(text).body.last() == fence_block(scan(lines(text)).fence->0),
{
}

/// The text of the first level-one heading among `body`.
pub open spec fn first_title(body: Seq<BlockView>) -> Option<Seq<char>>
    decreases body.len(),
{
    if body.len() == 0 {
        None
    } else {
        match first_title(body.drop_last()) {
            Some(text) => Some(text),
            None => match body.last() {
                BlockView::Heading { level: HeadingLevel::One, text } => Some(text),
                _ => None,
            },
        }
    }
}

/// Emitting a node that is no level-one heading leaves the first title as
/// it is.
proof fn lemma_first_title_push(body: Seq<BlockView>, block: BlockView)
    ensures
        first_title(body.push(block)) == (match first_title(body) {
            Some(text) => Some(text),
            None => match block {
                BlockView::Heading { level: HeadingLevel::One, text } => Some(text),
                _ => None,
            },
        }),
{
    assert(body.push(block).drop_last() =~= body);
}

/// After every line, the title is the text of the first level-one heading
/// emitted so far.
proof fn lemma_scan_title(raw: Seq<Seq<char>>)
    ensures
        scan(raw).title == first_title(scan(raw).body),
    decreases raw.len(),
{
    if raw.len() > 0 {
        let st = scan(raw.drop_last());
        let line = trim(raw.last());
        lemma_scan_title(raw.drop_last());
        match st.fence {
            Some(fence) => {
                lemma_first_title_push(st.body, fence_block(fence));
            },
            None => {
                if !starts_with(line, "* "@) {
                    let flushed = flush_list(st);
                    if st.list is Some {
                        lemma_first_title_push(
                            st.body,
                            BlockView::List { items: st.list->0, style: ListStyle::Bullet },
                        );
                    }
                    let body = flushed.body;
                    lemma_first_title_push(
                        body,
                        BlockView::Paragraph {
                            body: BodyView::Blocks(seq![nav_link(line.skip(2))]),
                        },
                    );
                    lemma_first_title_push(
                        body,
                        BlockView::Heading { level: HeadingLevel::One, text: trim(line.skip(2)) },
                    );
                    lemma_first_title_push(
                        body,
                        BlockView::Heading { level: HeadingLevel::Two, text: trim(line.skip(3)) },
                    );
                    lemma_first_title_push(
                        body,
                        BlockView::Heading { level: HeadingLevel::Three, text: trim(line.skip(4)) },
                    );
                    lemma_first_title_push(
                        body,
                        BlockView::BlockQuote { body: BodyView::Text(line.skip(2)) },
                    );
                    lemma_first_title_push(body, BlockView::Paragraph { body: BodyView::Text(line) });
                }
            },
        }
    }
}

/// The title of a gemtext document is the text of its first level-one
/// heading, and a document without such a heading has no title.
pub proof fn lemma_title_is_first_heading(text: Seq<char>)
    ensures
        gemtext_document(text).title == first_title(gemtext_document(text).body),
{
    let st = scan(lines(text));
    lemma_scan_title(lines(text));
    let flushed = flush_list(st);
    if st.list is Some {
        lemma_first_title_push(
            st.body,
            BlockView::List { items: st.list->0, style: ListStyle::Bullet },
        );
    }
    if flushed.fence is Some {
        lemma_first_title_push(flushed.body, fence_block(flushed.fence->0));
    }
}

/// The scan state as the converter holds it.
struct Scanner {
    body: Vec<Block>,
    title: Option<String>,
    fence: Option<Vec<Vec<char>>>,
    list: Option<Vec<Block>>,
}

impl View for Scanner {
    type V = Scan;

    closed spec fn view(&self) -> Scan {
        Scan {
            body: block_views(self.body@),
            title: text_opt(self.title),
            fence: match self.fence {
                Some(f) => Some(seqs(f@)),
                None => None,
            },
            list: match self.list {
                Some(l) => Some(block_views(l@)),
                None => None,
            },
        }
    }
}

/// The string of the characters `chars`.
fn text_of(chars: &Vec<char>) -> (s: String)
    ensures
        s@ == chars@,
{
    let s = string_of(chars, 0, chars.len());
    proof {
        assert(chars@.subrange(0, chars.len() as int) =~= chars@);
    }
    s
}

/// `line` without its first `n` characters.
fn after(line: &Vec<char>, n: usize) -> (rest: Vec<char>)
    requires
        n <= line.len(),
    ensures
        rest@ == line@.skip(n as int),
{
    let rest = slice_of(line, n, line.len());
    proof {
        assert(line@.subrange(n as int, line.len() as int) =~= line@.skip(n as int));
    }
    rest
}

/// Appends `block` to `body`.
fn push_block(body: Vec<Block>, block: Block) -> (r: Vec<Block>)
    ensures
        block_views(r@) == block_views(body@).push(block@),
{
    let mut body = body;
    proof {
        lemma_block_views_push(body@, block);
    }
    body.push(block);
    body
}

/// Ends the pending list, if there is one.
fn flush(st: Scanner) -> (r: Scanner)
    ensures
        r@ == flush_list(st@),
{
    let Scanner { body, title, fence, list } = st;
    match list {
        Some(items) => {
            let body = push_block(body, Block::List { items, style: ListStyle::Bullet });
            Scanner { body, title, fence, list: None }
        },
        None => Scanner { body, title, fence, list: None },
    }
}

/// The link for what follows the marker of a link line.
fn link_of(rest: &Vec<char>) -> (b: Block)
    ensures
        b@ == nav_link(rest@),
{
    let body = trimmed(rest);
    let n = body.len();
    let mut k: usize = 0;
    while k < n && !body[k].is_whitespace()
        invariant
            k <= n == body.len(),
            forall|i: int| 0 <= i < k ==> !white_space(body@[i]),
        decreases n - k,
    {
        k += 1;
    }
    proof {
        lemma_word_end(body@, k as int);
        assert(body@.subrange(0, k as int) =~= body@.take(k as int));
    }
    let target = string_of(&body, 0, k);
    if k < n {
        let label = trimmed(&after(&body, k + 1));
        Block::NavLink { target, label: Some(text_of(&label)) }
    } else {
        Block::NavLink { target, label: None }
    }
}

/// Emits a heading line.
fn heading_line(st: Scanner, line: &Vec<char>, marker: usize, level: HeadingLevel) -> (r: Scanner)
    requires
        marker <= line.len(),
    ensures
        r@ == heading(st@, line@, marker as int, level),
{
    let Scanner { body, title, fence, list } = st;
    let text = trimmed(&after(line, marker));
    let title = match level {
        HeadingLevel::One => match title {
            Some(t) => Some(t),
            None => Some(text_of(&text)),
        },
        _ => title,
    };
    let body = push_block(body, Block::Heading { level, text: text_of(&text) });
    Scanner { body, title, fence, list }
}

/// Reads a trimmed line that is no list item, outside a fenced block and
/// with no list pending.
fn place(st: Scanner, line: &Vec<char>) -> (r: Scanner)
    ensures
        r@ == place_line(st@, line@),
{
    proof {
        reveal_strlit("=>");
        reveal_strlit("# ");
        reveal_strlit("## ");
        reveal_strlit("### ");
        reveal_strlit("> ");
    }
    if has_prefix(line, "=>") {
        let Scanner { body, title, fence, list } = st;
        let link = link_of(&after(line, 2));
        let mut inner: Vec<Block> = Vec::new();
        proof {
            lemma_block_views_push(inner@, link);
            assert(block_views(inner@).push(link@) =~= seq![link@]);
        }
        inner.push(link);
        let body = push_block(body, Block::Paragraph { body: Body::Blocks(inner) });
        Scanner { body, title, fence, list }
    } else if has_prefix(line, "# ") {
        heading_line(st, line, 2, HeadingLevel::One)
    } else if has_prefix(line, "## ") {
        heading_line(st, line, 3, HeadingLevel::Two)
    } else if has_prefix(line, "### ") {
        heading_line(st, line, 4, HeadingLevel::Three)
    } else if has_prefix(line, "> ") {
        let Scanner { body, title, fence, list } = st;
        let quote = Block::BlockQuote { body: Body::Text(text_of(&after(line, 2))) };
        let body = push_block(body, quote);
        Scanner { body, title, fence, list }
    } else if has_prefix(line, "```") {
        let Scanner { body, title, fence, list } = st;
        let opened: Vec<Vec<char>> = Vec::new();
        proof {
            assert(seqs(opened@) =~= Seq::<Seq<char>>::empty());
        }
        Scanner { body, title, fence: Some(opened), list }
    } else if line.len() > 0 {
        let Scanner { body, title, fence, list } = st;
        let body = push_block(body, Block::Paragraph { body: Body::Text(text_of(line)) });
        Scanner { body, title, fence, list }
    } else {
        st
    }
}

/// Reads one trimmed line.
fn step(st: Scanner, line: Vec<char>) -> (r: Scanner)
    ensures
        r@ == scan_line(st@, line@),
{
    let Scanner { body, title, fence, list } = st;
    match fence {
        Some(gathered) => {
            if has_prefix(&line, "```") {
                let code = Block::Code { text: join_lines(&gathered), language: None };
                let body = push_block(body, code);
                Scanner { body, title, fence: None, list }
            } else {
                let mut gathered = gathered;
                let ghost before = seqs(gathered@);
                gathered.push(line);
                proof {
                    assert(seqs(gathered@) =~= before.push(line@));
                }
                Scanner { body, title, fence: Some(gathered), list }
            }
        },
        None => {
            if has_prefix(&line, "* ") {
                proof {
                    reveal_strlit("* ");
                }
                let item = Block::Element { body: Body::Text(text_of(&after(&line, 2))) };
                let items = match list {
                    Some(items) => items,
                    None => Vec::new(),
                };
                let items = push_block(items, item);
                Scanner { body, title, fence: None, list: Some(items) }
            } else {
                place(flush(Scanner { body, title, fence: None, list }), &line)
            }
        },
    }
}

/// The document at the end of input.
fn finish(st: Scanner) -> (doc: Document)
    ensures
        doc@ == scan_end(st@),
{
    let ghost title_view = st@.title;
    let Scanner { body, title, fence, list } = flush(st);
    let body = match fence {
        Some(gathered) => push_block(
            body,
            Block::Code { text: join_lines(&gathered), language: None },
        ),
        None => body,
    };
    Document { title, description: None, body, variables: None }
}

/// Converter for gemtext.
pub struct GemtextInput;

impl Input for GemtextInput {
    open spec fn text_output(&self, text: Seq<char>) -> Result<DocumentView, ErrorView> {
        Ok(gemtext_document(text))
    }

    open spec fn bytes_output(&self, bytes: Seq<u8>) -> Result<DocumentView, ErrorView> {
        Err(ErrorView::UnsupportedInput)
    }

    fn process_text(&self, s: String, url: Option<&Url>) -> (r: Result<Document, Error>) {
        let text = chars_of(s.as_str());
        let raw = split_lines(&text);
        let mut st = Scanner { body: Vec::new(), title: None, fence: None, list: None };
        let mut i: usize = 0;
        while i < raw.len()
            invariant
                i <= raw.len(),
                st@ == scan(seqs(raw@).take(i as int)),
            decreases raw.len() - i,
        {
            proof {
                let all = seqs(raw@);
                assert(all.take(i + 1).drop_last() =~= all.take(i as int));
                assert(all.take(i + 1).last() == raw@[i as int]@);
            }
            st = step(st, trimmed(&raw[i]));
            i += 1;
        }
        proof {
            assert(seqs(raw@).take(raw.len() as int) =~= seqs(raw@));
        }
        Ok(finish(st))
    }

    fn process_bytes(&self, b: Vec<u8>, url: Option<&Url>) -> (r: Result<Document, Error>) {
        Err(Error::UnsupportedInput)
    }
}

} // verus!
