//! The normalized document model that every converter produces.

use vstd::prelude::*;

verus! {

/// Depth of a heading, from the outermost (`One`) to the innermost (`Six`).
#[derive(Debug, Clone, Copy, PartialEq, Eq, Structural)]
pub enum HeadingLevel {
    One,
    Two,
    Three,
    Four,
    Five,
    Six,
}

/// Marker style of a list.
#[derive(Debug, Clone, Copy, PartialEq, Eq, Structural)]
pub enum ListStyle {
    Bullet,
    Ordered,
}

/// Inline content: either one run of text or a sequence of nested nodes.
#[derive(Debug, PartialEq, Eq)]
pub enum Body {
    Text(String),
    Blocks(Vec<Block>),
}

/// One row of a table.
#[derive(Debug, PartialEq, Eq)]
pub enum Row {
    Header(Vec<Block>),
    Data(Vec<Block>),
}

/// A node of the document tree.
#[derive(Debug, PartialEq, Eq)]
#[allow(inconsistent_fields)]
pub enum Block {
    Heading { level: HeadingLevel, text: String },
    Paragraph { body: Body },
    BlockQuote { body: Body },
    List { items: Vec<Block>, style: ListStyle },
    Table { rows: Vec<Row> },
    Code { text: String, language: Option<String> },
    Preformatted { text: String },
    HorizontalBreak,
    LineBreak,
    Anchor { id: String },
    FootNote { body: Body, index: u64 },
    FootLink { index: u64 },
    NavLink { target: String, label: Option<String> },
    Link { target: String, label: Option<Body> },
    Image { src: String, alt: Option<String> },
    Bold { text: String },
    Italic { text: String },
    Strikethrough { text: String },
    Element { body: Body },
}

/// A converted document.
#[derive(Debug, PartialEq, Eq)]
pub struct Document {
    pub title: Option<String>,
    pub description: Option<String>,
    pub body: Vec<Block>,
    pub variables: Option<Vec<String>>,
}

/// Mathematical value of a [`Body`].
pub enum BodyView {
    Text(Seq<char>),
    Blocks(Seq<BlockView>),
}

/// Mathematical value of a [`Row`].
pub enum RowView {
    Header(Seq<BlockView>),
    Data(Seq<BlockView>),
}

/// Mathematical value of a [`Block`].
#[allow(inconsistent_fields)]
pub enum BlockView {
    Heading { level: HeadingLevel, text: Seq<char> },
    Paragraph { body: BodyView },
    BlockQuote { body: BodyView },
    List { items: Seq<BlockView>, style: ListStyle },
    Table { rows: Seq<RowView> },
    Code { text: Seq<char>, language: Option<Seq<char>> },
    Preformatted { text: Seq<char> },
    HorizontalBreak,
    LineBreak,
    Anchor { id: Seq<char> },
    FootNote { body: BodyView, index: u64 },
    FootLink { index: u64 },
    NavLink { target: Seq<char>, label: Option<Seq<char>> },
    Link { target: Seq<char>, label: Option<BodyView> },
    Image { src: Seq<char>, alt: Option<Seq<char>> },
    Bold { text: Seq<char> },
    Italic { text: Seq<char> },
    Strikethrough { text: Seq<char> },
    Element { body: BodyView },
}

/// Mathematical value of a [`Document`].
pub struct DocumentView {
    pub title: Option<Seq<char>>,
    pub description: Option<Seq<char>>,
    pub body: Seq<BlockView>,
    pub variables: Option<Seq<Seq<char>>>,
}

/// The value of an optional string.
pub open spec fn text_opt(s: Option<String>) -> Option<Seq<char>> {
    match s {
        Some(t) => Some(t@),
        None => None,
    }
}

/// The values of a sequence of strings, in order.
pub open spec fn text_views(s: Seq<String>) -> Seq<Seq<char>> {
    Seq::new(s.len(), |i: int| s[i]@)
}

/// The values of a sequence of nodes, in order.
pub open spec fn block_views(s: Seq<Block>) -> Seq<BlockView>
    decreases s, 0nat,
{
    if s.len() == 0 {
        Seq::empty()
    } else {
        block_views(s.drop_last()).push(s.last().view())
    }
}

/// The values of a sequence of table rows, in order.
pub open spec fn row_views(s: Seq<Row>) -> Seq<RowView>
    decreases s, 0nat,
{
    if s.len() == 0 {
        Seq::empty()
    } else {
        row_views(s.drop_last()).push(s.last().view())
    }
}

impl View for Body {
    type V = BodyView;

    open spec fn view(&self) -> BodyView
        decreases self, 0nat,
    {
        match self {
            Body::Text(t) => BodyView::Text(t@),
            Body::Blocks(b) => BodyView::Blocks(block_views(b@)),
        }
    }
}

impl View for Row {
    type V = RowView;

    open spec fn view(&self) -> RowView
        decreases self, 0nat,
    {
        match self {
            Row::Header(cells) => RowView::Header(block_views(cells@)),
            Row::Data(cells) => RowView::Data(block_views(cells@)),
        }
    }
}

impl View for Block {
    type V = BlockView;

    open spec fn view(&self) -> BlockView
        decreases self, 0nat,
    {
        match self {
            Block::Heading { level, text } => BlockView::Heading { level: *level, text: text@ },
            Block::Paragraph { body } => BlockView::Paragraph { body: body.view() },
            Block::BlockQuote { body } => BlockView::BlockQuote { body: body.view() },
            Block::List { items, style } => BlockView::List { items: block_views(items@), style: *style },
            Block::Table { rows: r } => BlockView::Table { rows: row_views(r@) },
            Block::Code { text, language } => BlockView::Code {
                text: text@,
                language: text_opt(*language),
            },
            Block::Preformatted { text } => BlockView::Preformatted { text: text@ },
            Block::HorizontalBreak => BlockView::HorizontalBreak,
            Block::LineBreak => BlockView::LineBreak,
            Block::Anchor { id } => BlockView::Anchor { id: id@ },
            Block::FootNote { body, index } => BlockView::FootNote {
                body: body.view(),
                index: *index,
            },
            Block::FootLink { index } => BlockView::FootLink { index: *index },
            Block::NavLink { target, label } => BlockView::NavLink {
                target: target@,
                label: text_opt(*label),
            },
            Block::Link { target, label } => BlockView::Link {
                target: target@,
                label: match label {
                    Some(b) => Some(b.view()),
                    None => None,
                },
            },
            Block::Image { src, alt } => BlockView::Image { src: src@, alt: text_opt(*alt) },
            Block::Bold { text } => BlockView::Bold { text: text@ },
            Block::Italic { text } => BlockView::Italic { text: text@ },
            Block::Strikethrough { text } => BlockView::Strikethrough { text: text@ },
            Block::Element { body } => BlockView::Element { body: body.view() },
        }
    }
}

impl View for Document {
    type V = DocumentView;

    open spec fn view(&self) -> DocumentView {
        DocumentView {
            title: text_opt(self.title),
            description: text_opt(self.description),
            body: block_views(self.body@),
            variables: match self.variables {
                Some(v) => Some(text_views(v@)),
                None => None,
            },
        }
    }
}

/// The values of a sequence with one more node at its end.
pub proof fn lemma_block_views_push(s: Seq<Block>, b: Block)
    ensures
        block_views(s.push(b)) == block_views(s).push(b@),
{
    assert(s.push(b).drop_last() =~= s);
}

/// The values of a sequence with one more row at its end.
pub proof fn lemma_row_views_push(s: Seq<Row>, r: Row)
    ensures
        row_views(s.push(r)) == row_views(s).push(r@),
{
    assert(s.push(r).drop_last() =~= s);
}

} // verus!
