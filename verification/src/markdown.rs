//! The rich-markup converter: maps a markdown syntax tree to the document
//! model.
//!
//! The tree comes from a parser outside this library. Conversion runs in two
//! passes over it: the first numbers the footnote definitions among the
//! root's children, so that a reference may stand before its definition; the
//! second maps every child of the root to one node of the document.

use crate::document::block_views;
use crate::document::lemma_block_views_push;
use crate::document::lemma_row_views_push;
use crate::document::row_views;
use crate::document::text_opt;
use crate::document::Block;
use crate::document::BlockView;
use crate::document::Body;
use crate::document::BodyView;
use crate::document::Document;
use crate::document::DocumentView;
use crate::document::HeadingLevel;
use crate::document::ListStyle;
use crate::document::Row;
use crate::document::RowView;
use crate::error::Error;
use crate::error::ErrorView;
use crate::flatten::flattened;
use crate::flatten::nodes_to_text;
use crate::footnotes::definition_count;
use crate::footnotes::footnote_table;
use crate::footnotes::lemma_definition_count_bound;
use crate::footnotes::manage_foot_links;
use crate::footnotes::FootnoteTable;
use crate::input::outcome;
use crate::syntax::lemma_node_views_index;
use crate::syntax::node_views;
use crate::syntax::Node;
use crate::syntax::NodeView;
use url::Url;
use vstd::prelude::*;
use vstd::string::StringExecFns;

verus! {

/// The heading level for a depth of the syntax tree. Depths one to six map
/// to their level; any other depth maps to the innermost level, `Six`.
pub open spec fn heading_level(depth: u8) -> HeadingLevel {
    if depth == 1 {
        HeadingLevel::One
    } else if depth == 2 {
        HeadingLevel::Two
    } else if depth == 3 {
        HeadingLevel::Three
    } else if depth == 4 {
        HeadingLevel::Four
    } else if depth == 5 {
        HeadingLevel::Five
    } else {
        HeadingLevel::Six
    }
}

/// Message of the error for a footnote reference without a definition.
pub open spec fn dangling_reference_message(identifier: Seq<char>) -> Seq<char> {
    "FootLink ("@ + identifier + ") does not have parent FootNote"@
}

/// Message of the error for a footnote definition that stands below the top
/// level, where definitions get no number.
pub open spec fn unnumbered_definition_message(identifier: Seq<char>) -> Seq<char> {
    "FootNote ("@ + identifier + ") is not defined at the top level"@
}

/// Message of the error for a table that holds something other than rows of
/// cells.
pub open spec fn table_shape_message() -> Seq<char> {
    "Invalid tag in Table"@
}

/// The node of the document that one syntax node maps to, given the
/// footnote numbers in `table`.
pub open spec fn converted_node(table: Map<Seq<char>, u64>, node: NodeView) -> Result<
    BlockView,
    ErrorView,
>
    decreases node, 0nat,
{
    match node {
        NodeView::Blockquote { children } => match converted_nodes(table, children) {
            Ok(items) => Ok(BlockView::BlockQuote { body: BodyView::Blocks(items) }),
            Err(e) => Err(e),
        },
        NodeView::Break => Ok(BlockView::LineBreak),
        NodeView::InlineCode { value } => Ok(BlockView::Element { body: BodyView::Text(value) }),
        NodeView::InlineMath { value } => Ok(BlockView::Element { body: BodyView::Text(value) }),
        NodeView::Text { value } => Ok(BlockView::Element { body: BodyView::Text(value) }),
        NodeView::Delete { children } => match flattened(children) {
            Ok(text) => Ok(BlockView::Strikethrough { text }),
            Err(e) => Err(e),
        },
        NodeView::Emphasis { children } => match flattened(children) {
            Ok(text) => Ok(BlockView::Italic { text }),
            Err(e) => Err(e),
        },
        NodeView::Strong { children } => match flattened(children) {
            Ok(text) => Ok(BlockView::Bold { text }),
            Err(e) => Err(e),
        },
        NodeView::Image { url, alt } => Ok(BlockView::Image { src: url, alt: Some(alt) }),
        NodeView::Link { url, children } => match flattened(children) {
            Ok(text) => Ok(BlockView::Link { target: url, label: Some(BodyView::Text(text)) }),
            Err(e) => Err(e),
        },
        NodeView::Code { value, lang } => Ok(BlockView::Code { text: value, language: lang }),
        NodeView::Math { value } => Ok(BlockView::Paragraph { body: BodyView::Text(value) }),
        NodeView::Definition { identifier } => Ok(BlockView::Anchor { id: identifier }),
        NodeView::FootnoteDefinition { identifier, children } => match flattened(children) {
            Ok(text) => if table.contains_key(identifier) {
                Ok(BlockView::FootNote { body: BodyView::Text(text), index: table[identifier] })
            } else {
                Err(ErrorView::ParserError(unnumbered_definition_message(identifier)))
            },
            Err(e) => Err(e),
        },
        NodeView::FootnoteReference { identifier } => if table.contains_key(identifier) {
            Ok(BlockView::FootLink { index: table[identifier] })
        } else {
            Err(ErrorView::ParserError(dangling_reference_message(identifier)))
        },
        NodeView::List { ordered, children } => match converted_nodes(table, children) {
            Ok(items) => Ok(
                BlockView::List {
                    items,
                    style: if ordered {
                        ListStyle::Ordered
                    } else {
                        ListStyle::Bullet
                    },
                },
            ),
            Err(e) => Err(e),
        },
        NodeView::ListItem { children } => match converted_nodes(table, children) {
            Ok(items) => Ok(BlockView::Element { body: BodyView::Blocks(items) }),
            Err(e) => Err(e),
        },
        NodeView::Table { children } => match converted_rows(table, children) {
            Ok(r) => Ok(BlockView::Table { rows: r }),
            Err(e) => Err(e),
        },
        NodeView::ThematicBreak => Ok(BlockView::HorizontalBreak),
        NodeView::Heading { depth, children } => match flattened(children) {
            Ok(text) => Ok(BlockView::Heading { level: heading_level(depth), text }),
            Err(e) => Err(e),
        },
        NodeView::Paragraph { children } => match converted_nodes(table, children) {
            Ok(items) => Ok(BlockView::Paragraph { body: BodyView::Blocks(items) }),
            Err(e) => Err(e),
        },
        NodeView::TableRow { .. } => Err(ErrorView::InvalidSyntax),
        NodeView::TableCell { .. } => Err(ErrorView::InvalidSyntax),
        NodeView::Root { .. } => Err(ErrorView::InvalidSyntax),
        NodeView::Html => Err(ErrorView::InvalidSyntax),
        NodeView::Toml => Err(ErrorView::InvalidSyntax),
        NodeView::Yaml => Err(ErrorView::InvalidSyntax),
        NodeView::LinkReference { .. } => Err(ErrorView::InvalidSyntax),
        NodeView::ImageReference { .. } => Err(ErrorView::InvalidSyntax),
        NodeView::MdxjsEsm => Err(ErrorView::InvalidSyntax),
        NodeView::MdxTextExpression => Err(ErrorView::InvalidSyntax),
        NodeView::MdxFlowExpression => Err(ErrorView::InvalidSyntax),
        NodeView::MdxJsxFlowElement => Err(ErrorView::InvalidSyntax),
        NodeView::MdxJsxTextElement => Err(ErrorView::InvalidSyntax),
    }
}

/// The nodes of the document that a sequence of syntax nodes maps to, one
/// for one and in order. The first node that fails makes the whole fail with
/// its error.
pub open spec fn converted_nodes(table: Map<Seq<char>, u64>, nodes: Seq<NodeView>) -> Result<
    Seq<BlockView>,
    ErrorView,
>
    decreases nodes, 1nat,
{
    if nodes.len() == 0 {
        Ok(Seq::empty())
    } else {
        match converted_nodes(table, nodes.drop_last()) {
            Err(e) => Err(e),
            Ok(before) => match converted_node(table, nodes.last()) {
                Err(e) => Err(e),
                Ok(block) => Ok(before.push(block)),
            },
        }
    }
}

/// The content of one table cell: an element that holds the cell's converted
/// children. Anything but a cell is a malformed table.
pub open spec fn converted_cell(table: Map<Seq<char>, u64>, cell: NodeView) -> Result<
    BlockView,
    ErrorView,
>
    decreases cell, 0nat,
{
    match cell {
        NodeView::TableCell { children } => match converted_nodes(table, children) {
            Ok(items) => Ok(BlockView::Element { body: BodyView::Blocks(items) }),
            Err(e) => Err(e),
        },
        _ => Err(ErrorView::ParserError(table_shape_message())),
    }
}

/// The contents of the cells of one table row, in order.
pub open spec fn converted_cells(table: Map<Seq<char>, u64>, cells: Seq<NodeView>) -> Result<
    Seq<BlockView>,
    ErrorView,
>
    decreases cells, 1nat,
{
    if cells.len() == 0 {
        Ok(Seq::empty())
    } else {
        match converted_cells(table, cells.drop_last()) {
            Err(e) => Err(e),
            Ok(before) => match converted_cell(table, cells.last()) {
                Err(e) => Err(e),
                Ok(block) => Ok(before.push(block)),
            },
        }
    }
}

/// The row of the document for the syntax node `row` of a table; `first`
/// says whether it is the table's first row. The first row is the header,
/// every later one is data, whatever the tree says of headers. Anything but
/// a row is a malformed table.
pub open spec fn converted_row(table: Map<Seq<char>, u64>, row: NodeView, first: bool) -> Result<
    RowView,
    ErrorView,
>
    decreases row, 2nat,
{
    match row {
        NodeView::TableRow { children } => match converted_cells(table, children) {
            Ok(cells) => if first {
                Ok(RowView::Header(cells))
            } else {
                Ok(RowView::Data(cells))
            },
            Err(e) => Err(e),
        },
        _ => Err(ErrorView::ParserError(table_shape_message())),
    }
}

/// The rows of the document for the children of a table node, in order.
pub open spec fn converted_rows(table: Map<Seq<char>, u64>, children: Seq<NodeView>) -> Result<
    Seq<RowView>,
    ErrorView,
>
    decreases children, 3nat,
{
    if children.len() == 0 {
        Ok(Seq::empty())
    } else {
        match converted_rows(table, children.drop_last()) {
            Err(e) => Err(e),
            Ok(before) => match converted_row(table, children.last(), children.len() == 1) {
                Err(e) => Err(e),
                Ok(row) => Ok(before.push(row)),
            },
        }
    }
}

/// The body of a document whose root has the children `children`. Each child
/// maps to one node; a child that is invalid syntax is left out, and any
/// other failure of a child makes the whole fail.
pub open spec fn root_blocks(table: Map<Seq<char>, u64>, children: Seq<NodeView>) -> Result<
    Seq<BlockView>,
    ErrorView,
>
    decreases children.len(),
{
    if children.len() == 0 {
        Ok(Seq::empty())
    } else {
        match root_blocks(table, children.drop_last()) {
            Err(e) => Err(e),
            Ok(before) => match converted_node(table, children.last()) {
                Ok(block) => Ok(before.push(block)),
                Err(ErrorView::InvalidSyntax) => Ok(before),
                Err(e) => Err(e),
            },
        }
    }
}

/// The document that the syntax tree `root` converts to. Only a root node
/// is a document.
pub open spec fn markdown_document(root: NodeView) -> Result<DocumentView, ErrorView> {
    match root {
        NodeView::Root { children } => match root_blocks(footnote_table(children), children) {
            Ok(body) => Ok(
                DocumentView { title: None, description: None, body, variables: None },
            ),
            Err(e) => Err(e),
        },
        _ => Err(ErrorView::InvalidSyntax),
    }
}

/// The mathematical value of the outcome of converting one node.
pub open spec fn block_outcome(r: Result<Block, Error>) -> Result<BlockView, ErrorView> {
    match r {
        Ok(b) => Ok(b@),
        Err(e) => Err(e@),
    }
}

/// The mathematical value of the outcome of converting a sequence of nodes.
pub open spec fn blocks_outcome(r: Result<Vec<Block>, Error>) -> Result<Seq<BlockView>, ErrorView> {
    match r {
        Ok(b) => Ok(block_views(b@)),
        Err(e) => Err(e@),
    }
}

/// The mathematical value of the outcome of converting one table row.
pub open spec fn row_outcome(r: Result<Row, Error>) -> Result<RowView, ErrorView> {
    match r {
        Ok(row) => Ok(row@),
        Err(e) => Err(e@),
    }
}

/// The mathematical value of the outcome of converting the rows of a table.
pub open spec fn rows_outcome(r: Result<Vec<Row>, Error>) -> Result<Seq<RowView>, ErrorView> {
    match r {
        Ok(rs) => Ok(row_views(rs@)),
        Err(e) => Err(e@),
    }
}

/// Once a prefix of `nodes` fails to convert, all of `nodes` fails the same
/// way.
pub proof fn lemma_converted_nodes_prefix(table: Map<Seq<char>, u64>, nodes: Seq<NodeView>, k: int)
    requires
        0 <= k <= nodes.len(),
        converted_nodes(table, nodes.take(k)) is Err,
    ensures
        converted_nodes(table, nodes) == converted_nodes(table, nodes.take(k)),
    decreases nodes.len() - k,
{
    if k < nodes.len() {
        assert(nodes.take(k + 1).drop_last() =~= nodes.take(k));
        lemma_converted_nodes_prefix(table, nodes, k + 1);
    } else {
        assert(nodes.take(k) =~= nodes);
    }
}

/// Once a prefix of the cells of a row fails to convert, the whole row fails
/// the same way.
pub proof fn lemma_converted_cells_prefix(table: Map<Seq<char>, u64>, cells: Seq<NodeView>, k: int)
    requires
        0 <= k <= cells.len(),
        converted_cells(table, cells.take(k)) is Err,
    ensures
        converted_cells(table, cells) == converted_cells(table, cells.take(k)),
    decreases cells.len() - k,
{
    if k < cells.len() {
        assert(cells.take(k + 1).drop_last() =~= cells.take(k));
        lemma_converted_cells_prefix(table, cells, k + 1);
    } else {
        assert(cells.take(k) =~= cells);
    }
}

/// Once a prefix of the rows of a table fails to convert, the whole table
/// fails the same way.
pub proof fn lemma_converted_rows_prefix(
    table: Map<Seq<char>, u64>,
    children: Seq<NodeView>,
    k: int,
)
    requires
        0 <= k <= children.len(),
        converted_rows(table, children.take(k)) is Err,
    ensures
        converted_rows(table, children) == converted_rows(table, children.take(k)),
    decreases children.len() - k,
{
    if k < children.len() {
        assert(children.take(k + 1).drop_last() =~= children.take(k));
        lemma_converted_rows_prefix(table, children, k + 1);
    } else {
        assert(children.take(k) =~= children);
    }
}

/// Once a prefix of the root's children aborts the conversion, the whole
/// document fails the same way.
pub proof fn lemma_root_blocks_prefix(table: Map<Seq<char>, u64>, children: Seq<NodeView>, k: int)
    requires
        0 <= k <= children.len(),
        root_blocks(table, children.take(k)) is Err,
    ensures
        root_blocks(table, children) == root_blocks(table, children.take(k)),
    decreases children.len() - k,
{
    if k < children.len() {
        assert(children.take(k + 1).drop_last() =~= children.take(k));
        lemma_root_blocks_prefix(table, children, k + 1);
    } else {
        assert(children.take(k) =~= children);
    }
}

/// The heading level for a depth of the syntax tree.
pub fn level_of(depth: u8) -> (level: HeadingLevel)
    ensures
        level == heading_level(depth),
{
    if depth == 1 {
        HeadingLevel::One
    } else if depth == 2 {
        HeadingLevel::Two
    } else if depth == 3 {
        HeadingLevel::Three
    } else if depth == 4 {
        HeadingLevel::Four
    } else if depth == 5 {
        HeadingLevel::Five
    } else {
        HeadingLevel::Six
    }
}

/// A copy of an optional string.
fn clone_opt(s: &Option<String>) -> (r: Option<String>)
    ensures
        text_opt(r) == text_opt(*s),
{
    match s {
        Some(t) => Some(t.clone()),
        None => None,
    }
}

/// The error for a table that holds anything but rows of cells.
fn table_shape_error() -> (e: Error)
    ensures
        e@ == ErrorView::ParserError(table_shape_message()),
{
    Error::ParserError("Invalid tag in Table".to_owned())
}

/// Maps one syntax node to one node of the document, looking footnote
/// numbers up in `footnotes`.
///
/// A footnote reference whose identifier has no number fails with
/// `ParserError`, and so does a footnote definition without one, or a table
/// that holds anything but rows of cells. A node that has no counterpart in
/// the document, or stands where it cannot (a table row or cell outside a
/// table), fails with `InvalidSyntax`. A failure below a node is the failure
/// of the node.
pub fn convert_node(footnotes: &FootnoteTable, node: &Node) -> (r: Result<Block, Error>)
    ensures
        block_outcome(r) == converted_node(footnotes@, node@),
    decreases node,
{
    match node {
        Node::Blockquote { children } => match convert_nodes(footnotes, children) {
            Ok(items) => Ok(Block::BlockQuote { body: Body::Blocks(items) }),
            Err(e) => Err(e),
        },
        Node::Break => Ok(Block::LineBreak),
        Node::InlineCode { value } => Ok(Block::Element { body: Body::Text(value.clone()) }),
        Node::InlineMath { value } => Ok(Block::Element { body: Body::Text(value.clone()) }),
        Node::Text { value } => Ok(Block::Element { body: Body::Text(value.clone()) }),
        Node::Delete { children } => match nodes_to_text(children) {
            Ok(text) => Ok(Block::Strikethrough { text }),
            Err(e) => Err(e),
        },
        Node::Emphasis { children } => match nodes_to_text(children) {
            Ok(text) => Ok(Block::Italic { text }),
            Err(e) => Err(e),
        },
        Node::Strong { children } => match nodes_to_text(children) {
            Ok(text) => Ok(Block::Bold { text }),
            Err(e) => Err(e),
        },
        Node::Image { url, alt } => Ok(Block::Image { src: url.clone(), alt: Some(alt.clone()) }),
        Node::Link { url, children } => match nodes_to_text(children) {
            Ok(text) => Ok(Block::Link { target: url.clone(), label: Some(Body::Text(text)) }),
            Err(e) => Err(e),
        },
        Node::Code { value, lang } => Ok(
            Block::Code { text: value.clone(), language: clone_opt(lang) },
        ),
        Node::Math { value } => Ok(Block::Paragraph { body: Body::Text(value.clone()) }),
        Node::Definition { identifier } => Ok(Block::Anchor { id: identifier.clone() }),
        Node::FootnoteDefinition { identifier, children } => match nodes_to_text(children) {
            Ok(text) => match footnotes.get(identifier.as_str()) {
                Some(index) => Ok(Block::FootNote { body: Body::Text(text), index }),
                None => {
                    let mut message = "FootNote (".to_owned();
                    message.append(identifier.as_str());
                    message.append(") is not defined at the top level");
                    Err(Error::ParserError(message))
                },
            },
            Err(e) => Err(e),
        },
        Node::FootnoteReference { identifier } => match footnotes.get(identifier.as_str()) {
            Some(index) => Ok(Block::FootLink { index }),
            None => {
                let mut message = "FootLink (".to_owned();
                message.append(identifier.as_str());
                message.append(") does not have parent FootNote");
                Err(Error::ParserError(message))
            },
        },
        Node::List { ordered, children } => match convert_nodes(footnotes, children) {
            Ok(items) => Ok(
                Block::List {
                    items,
                    style: if *ordered {
                        ListStyle::Ordered
                    } else {
                        ListStyle::Bullet
                    },
                },
            ),
            Err(e) => Err(e),
        },
        Node::ListItem { children } => match convert_nodes(footnotes, children) {
            Ok(items) => Ok(Block::Element { body: Body::Blocks(items) }),
            Err(e) => Err(e),
        },
        Node::Table { children } => match convert_rows(footnotes, children) {
            Ok(rows) => Ok(Block::Table { rows }),
            Err(e) => Err(e),
        },
        Node::ThematicBreak => Ok(Block::HorizontalBreak),
        Node::Heading { depth, children } => match nodes_to_text(children) {
            Ok(text) => Ok(Block::Heading { level: level_of(*depth), text }),
            Err(e) => Err(e),
        },
        Node::Paragraph { children } => match convert_nodes(footnotes, children) {
            Ok(items) => Ok(Block::Paragraph { body: Body::Blocks(items) }),
            Err(e) => Err(e),
        },
        Node::TableRow { .. } => Err(Error::InvalidSyntax),
        Node::TableCell { .. } => Err(Error::InvalidSyntax),
        Node::Root { .. } => Err(Error::InvalidSyntax),
        Node::Html => Err(Error::InvalidSyntax),
        Node::Toml => Err(Error::InvalidSyntax),
        Node::Yaml => Err(Error::InvalidSyntax),
        Node::LinkReference { .. } => Err(Error::InvalidSyntax),
        Node::ImageReference { .. } => Err(Error::InvalidSyntax),
        Node::MdxjsEsm => Err(Error::InvalidSyntax),
        Node::MdxTextExpression => Err(Error::InvalidSyntax),
        Node::MdxFlowExpression => Err(Error::InvalidSyntax),
        Node::MdxJsxFlowElement => Err(Error::InvalidSyntax),
        Node::MdxJsxTextElement => Err(Error::InvalidSyntax),
    }
}

/// Maps each of `nodes` to one node of the document, in order, and stops at
/// the first that fails.
pub fn convert_nodes(footnotes: &FootnoteTable, nodes: &Vec<Node>) -> (r: Result<
    Vec<Block>,
    Error,
>)
    ensures
        blocks_outcome(r) == converted_nodes(footnotes@, node_views(nodes@)),
    decreases nodes,
{
    let ghost all = node_views(nodes@);
    let mut out: Vec<Block> = Vec::new();
    let mut i: usize = 0;
    while i < nodes.len()
        invariant
            i <= nodes.len(),
            all == node_views(nodes@),
            converted_nodes(footnotes@, all.take(i as int)) == Ok::<Seq<BlockView>, ErrorView>(
                block_views(out@),
            ),
        decreases nodes.len() - i,
    {
        proof {
            lemma_node_views_index(nodes@);
            assert(all.take(i + 1).drop_last() =~= all.take(i as int));
            assert(all.take(i + 1).last() == nodes@[i as int]@);
        }
        let ghost before = out@;
        match convert_node(footnotes, &nodes[i]) {
            Ok(block) => {
                out.push(block);
                proof {
                    lemma_block_views_push(before, block);
                }
            },
            Err(e) => {
                proof {
                    lemma_converted_nodes_prefix(footnotes@, all, i + 1);
                }
                return Err(e);
            },
        }
        i += 1;
    }
    proof {
        lemma_node_views_index(nodes@);
        assert(all.take(nodes.len() as int) =~= all);
    }
    Ok(out)
}

/// The content of one table cell.
fn convert_cell(footnotes: &FootnoteTable, cell: &Node) -> (r: Result<Block, Error>)
    ensures
        block_outcome(r) == converted_cell(footnotes@, cell@),
    decreases cell,
{
    match cell {
        Node::TableCell { children } => match convert_nodes(footnotes, children) {
            Ok(items) => Ok(Block::Element { body: Body::Blocks(items) }),
            Err(e) => Err(e),
        },
        _ => Err(table_shape_error()),
    }
}

/// The contents of the cells of one table row, in order.
fn convert_cells(footnotes: &FootnoteTable, cells: &Vec<Node>) -> (r: Result<
    Vec<Block>,
    Error,
>)
    ensures
        blocks_outcome(r) == converted_cells(footnotes@, node_views(cells@)),
    decreases cells,
{
    let ghost all = node_views(cells@);
    let mut out: Vec<Block> = Vec::new();
    let mut i: usize = 0;
    while i < cells.len()
        invariant
            i <= cells.len(),
            all == node_views(cells@),
            converted_cells(footnotes@, all.take(i as int)) == Ok::<Seq<BlockView>, ErrorView>(
                block_views(out@),
            ),
        decreases cells.len() - i,
    {
        proof {
            lemma_node_views_index(cells@);
            assert(all.take(i + 1).drop_last() =~= all.take(i as int));
            assert(all.take(i + 1).last() == cells@[i as int]@);
        }
        let ghost before = out@;
        match convert_cell(footnotes, &cells[i]) {
            Ok(block) => {
                out.push(block);
                proof {
                    lemma_block_views_push(before, block);
                }
            },
            Err(e) => {
                proof {
                    lemma_converted_cells_prefix(footnotes@, all, i + 1);
                }
                return Err(e);
            },
        }
        i += 1;
    }
    proof {
        lemma_node_views_index(cells@);
        assert(all.take(cells.len() as int) =~= all);
    }
    Ok(out)
}

/// The row of the document for one child of a table node; `first` says
/// whether it is the table's first.
fn convert_row(footnotes: &FootnoteTable, row: &Node, first: bool) -> (r: Result<Row, Error>)
    ensures
        row_outcome(r) == converted_row(footnotes@, row@, first),
    decreases row,
{
    match row {
        Node::TableRow { children } => match convert_cells(footnotes, children) {
            Ok(cells) => if first {
                Ok(Row::Header(cells))
            } else {
                Ok(Row::Data(cells))
            },
            Err(e) => Err(e),
        },
        _ => Err(table_shape_error()),
    }
}

/// The rows of the document for the children of a table node: the first is
/// the header row, all later ones are data rows.
fn convert_rows(footnotes: &FootnoteTable, children: &Vec<Node>) -> (r: Result<
    Vec<Row>,
    Error,
>)
    ensures
        rows_outcome(r) == converted_rows(footnotes@, node_views(children@)),
    decreases children,
{
    let ghost all = node_views(children@);
    let mut out: Vec<Row> = Vec::new();
    let mut i: usize = 0;
    while i < children.len()
        invariant
            i <= children.len(),
            all == node_views(children@),
            converted_rows(footnotes@, all.take(i as int)) == Ok::<Seq<RowView>, ErrorView>(
                row_views(out@),
            ),
        decreases children.len() - i,
    {
        proof {
            lemma_node_views_index(children@);
            assert(all.take(i + 1).drop_last() =~= all.take(i as int));
            assert(all.take(i + 1).last() == children@[i as int]@);
        }
        let ghost before = out@;
        match convert_row(footnotes, &children[i], i == 0) {
            Ok(row) => {
                out.push(row);
                proof {
                    lemma_row_views_push(before, row);
                }
            },
            Err(e) => {
                proof {
                    lemma_converted_rows_prefix(footnotes@, all, i + 1);
                }
                return Err(e);
            },
        }
        i += 1;
    }
    proof {
        lemma_node_views_index(children@);
        assert(all.take(children.len() as int) =~= all);
    }
    Ok(out)
}

/// Converter for markdown, working on the parsed syntax tree.
pub struct MarkdownInput;

impl MarkdownInput {
    /// Converts the syntax tree `ast` to a document.
    ///
    /// Only a root node is a document; any other node is `InvalidSyntax`.
    /// Each child of the root that converts becomes one node of the body, in
    /// order. A child that is invalid syntax is left out of the body without
    /// failing the document; any other error of a child fails the document.
    /// The locator `url` is context and does not change the result.
    pub fn process_tree(&self, ast: &Node, url: Option<&Url>) -> (r: Result<Document, Error>)
        ensures
            outcome(r) == markdown_document(ast@),
    {
        match ast {
            Node::Root { children } => {
                let ghost all = node_views(children@);
                let mut foot_count: u64 = 0;
                let mut footnotes = FootnoteTable::new();
                proof {
                    lemma_node_views_index(children@);
                    lemma_definition_count_bound(all);
                    assert(definition_count(node_views(children@)) <= children.len());
                }
                manage_foot_links(&mut foot_count, &mut footnotes, children);
                let mut body: Vec<Block> = Vec::new();
                let mut i: usize = 0;
                while i < children.len()
                    invariant
                        i <= children.len(),
                        all == node_views(children@),
                        ast@ == (NodeView::Root { children: all }),
                        footnotes@ == footnote_table(all),
                        root_blocks(footnotes@, all.take(i as int)) == Ok::<
                            Seq<BlockView>,
                            ErrorView,
                        >(block_views(body@)),
                    decreases children.len() - i,
                {
                    proof {
                        lemma_node_views_index(children@);
                        assert(all.take(i + 1).drop_last() =~= all.take(i as int));
                        assert(all.take(i + 1).last() == children@[i as int]@);
                    }
                    let ghost before = body@;
                    match convert_node(&footnotes, &children[i]) {
                        Ok(block) => {
                            body.push(block);
                            proof {
                                lemma_block_views_push(before, block);
                            }
                        },
                        Err(Error::InvalidSyntax) => {},
                        Err(e) => {
                            proof {
                                assert(e@ != ErrorView::InvalidSyntax);
                                lemma_root_blocks_prefix(footnotes@, all, i + 1);
                            }
                            return Err(e);
                        },
                    }
                    i += 1;
                }
                proof {
                    lemma_node_views_index(children@);
                    assert(all.take(children.len() as int) =~= all);
                }
                Ok(Document { title: None, description: None, body, variables: None })
            },
            _ => Err(Error::InvalidSyntax),
        }
    }

    /// Markdown is text: binary input is always `UnsupportedInput`.
    pub fn process_bytes(&self, b: Vec<u8>, url: Option<&Url>) -> (r: Result<Document, Error>)
        ensures
            r == Err::<Document, Error>(Error::UnsupportedInput),
    {
        Err(Error::UnsupportedInput)
    }
}

} // verus!
