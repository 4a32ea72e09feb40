//! What holds of every markdown conversion.

use crate::document::BlockView;
use crate::document::BodyView;
use crate::document::DocumentView;
use crate::document::RowView;
use crate::error::ErrorView;
use crate::flatten::lemma_flattened_errors;
use crate::footnotes::defines;
use crate::footnotes::definitions;
use crate::footnotes::definition_count;
use crate::footnotes::footnote_table;
use crate::footnotes::lemma_definitions_remove;
use crate::footnotes::lemma_footnote_numbers_stable;
use crate::footnotes::lemma_recorded_definitions;
use crate::footnotes::lemma_recorded_domain;
use crate::footnotes::recorded;
use crate::markdown::converted_cell;
use crate::markdown::converted_cells;
use crate::markdown::converted_node;
use crate::markdown::converted_nodes;
use crate::markdown::converted_row;
use crate::markdown::converted_rows;
use crate::markdown::dangling_reference_message;
use crate::markdown::markdown_document;
use crate::markdown::root_blocks;
use crate::syntax::NodeView;
use vstd::prelude::*;

verus! {

/// In a document with one footnote definition among the children of its
/// root, that definition has the number 0 and a reference to it resolves to
/// 0, wherever the reference stands.
pub proof fn lemma_single_footnote(nodes: Seq<NodeView>, identifier: Seq<char>)
    requires
        definitions(nodes).len() == 1,
        defines(definitions(nodes)[0], identifier),
    ensures
        footnote_table(nodes) == Map::<Seq<char>, u64>::empty().insert(identifier, 0),
        converted_node(footnote_table(nodes), NodeView::FootnoteReference { identifier }) == Ok::<
            BlockView,
            ErrorView,
        >(BlockView::FootLink { index: 0 }),
{
    let d = definitions(nodes);
    lemma_recorded_definitions(Map::empty(), 0, nodes);
    assert(d.drop_last().len() == 0);
    assert(recorded(Map::empty(), 0, d.drop_last()) == Map::<Seq<char>, u64>::empty());
    assert(definition_count(d.drop_last()) == 0);
    assert(d.last() == d[0]);
}

/// Whether `e` is one of the two errors that conversion reports.
pub open spec fn conversion_error(e: ErrorView) -> bool {
    e is InvalidSyntax || e is ParserError
}

/// Converting a node fails with `InvalidSyntax` or `ParserError` and nothing
/// else.
pub proof fn lemma_converted_node_errors(table: Map<Seq<char>, u64>, node: NodeView)
    ensures
        converted_node(table, node) matches Err(e) ==> conversion_error(e),
    decreases node, 0nat,
{
    match node {
        NodeView::Blockquote { children } => lemma_converted_nodes_errors(table, children),
        NodeView::List { children, .. } => lemma_converted_nodes_errors(table, children),
        NodeView::ListItem { children } => lemma_converted_nodes_errors(table, children),
        NodeView::Paragraph { children } => lemma_converted_nodes_errors(table, children),
        NodeView::Table { children } => lemma_converted_rows_errors(table, children),
        NodeView::Delete { children } => lemma_flattened_errors(children),
        NodeView::Emphasis { children } => lemma_flattened_errors(children),
        NodeView::Strong { children } => lemma_flattened_errors(children),
        NodeView::Link { children, .. } => lemma_flattened_errors(children),
        NodeView::FootnoteDefinition { children, .. } => lemma_flattened_errors(children),
        NodeView::Heading { children, .. } => lemma_flattened_errors(children),
        _ => {},
    }
}

/// Converting a sequence of nodes fails with `InvalidSyntax` or
/// `ParserError` and nothing else.
pub proof fn lemma_converted_nodes_errors(table: Map<Seq<char>, u64>, nodes: Seq<NodeView>)
    ensures
        converted_nodes(table, nodes) matches Err(e) ==> conversion_error(e),
    decreases nodes, 1nat,
{
    if nodes.len() > 0 {
        lemma_converted_nodes_errors(table, nodes.drop_last());
        lemma_converted_node_errors(table, nodes.last());
    }
}

/// Converting the cells of a row fails with `InvalidSyntax` or `ParserError`
/// and nothing else.
pub proof fn lemma_converted_cells_errors(table: Map<Seq<char>, u64>, cells: Seq<NodeView>)
    ensures
        converted_cells(table, cells) matches Err(e) ==> conversion_error(e),
    decreases cells, 1nat,
{
    if cells.len() > 0 {
        lemma_converted_cells_errors(table, cells.drop_last());
        match cells.last() {
            NodeView::TableCell { children } => lemma_converted_nodes_errors(table, children),
            _ => {},
        }
        assert(converted_cell(table, cells.last()) matches Err(e) ==> conversion_error(e));
    }
}

/// Converting the rows of a table fails with `InvalidSyntax` or
/// `ParserError` and nothing else.
pub proof fn lemma_converted_rows_errors(table: Map<Seq<char>, u64>, children: Seq<NodeView>)
    ensures
        converted_rows(table, children) matches Err(e) ==> conversion_error(e),
    decreases children, 3nat,
{
    if children.len() > 0 {
        lemma_converted_rows_errors(table, children.drop_last());
        match children.last() {
            NodeView::TableRow { children: cells } => lemma_converted_cells_errors(table, cells),
            _ => {},
        }
        assert(converted_row(table, children.last(), children.len() == 1) matches Err(e)
            ==> conversion_error(e));
    }
}

/// In a sequence of nodes the first failure decides: where the nodes before
/// a failing node all convert, the sequence fails with the error of that
/// node. So a footnote reference without a definition fails every node
/// around it, up to the root, unless invalid syntax is met before it.
pub proof fn lemma_first_failure_decides(table: Map<Seq<char>, u64>, nodes: Seq<NodeView>, i: int)
    requires
        0 <= i < nodes.len(),
        converted_node(table, nodes[i]) is Err,
        forall|j: int| 0 <= j < i ==> converted_node(table, #[trigger] nodes[j]) is Ok,
    ensures
        converted_nodes(table, nodes) == Err::<Seq<BlockView>, ErrorView>(
            converted_node(table, nodes[i])->Err_0,
        ),
    decreases nodes.len(),
{
    let init = nodes.drop_last();
    if i < nodes.len() - 1 {
        assert(init[i] == nodes[i]);
        assert forall|j: int| 0 <= j < i implies converted_node(table, #[trigger] init[j]) is Ok by {
            assert(init[j] == nodes[j]);
        }
        lemma_first_failure_decides(table, init, i);
    } else {
        lemma_all_converted(table, init);
    }
}

/// A sequence of nodes that all convert converts.
pub proof fn lemma_all_converted(table: Map<Seq<char>, u64>, nodes: Seq<NodeView>)
    requires
        forall|j: int| 0 <= j < nodes.len() ==> converted_node(table, #[trigger] nodes[j]) is Ok,
    ensures
        converted_nodes(table, nodes) is Ok,
    decreases nodes.len(),
{
    if nodes.len() > 0 {
        let init = nodes.drop_last();
        assert forall|j: int| 0 <= j < init.len() implies converted_node(
            table,
            #[trigger] init[j],
        ) is Ok by {
            assert(init[j] == nodes[j]);
        }
        lemma_all_converted(table, init);
        assert(nodes.last() == nodes[nodes.len() - 1]);
    }
}

/// The body of a document fails with `ParserError` and nothing else.
pub proof fn lemma_root_blocks_errors(table: Map<Seq<char>, u64>, children: Seq<NodeView>)
    ensures
        root_blocks(table, children) matches Err(e) ==> e is ParserError,
    decreases children.len(),
{
    if children.len() > 0 {
        lemma_root_blocks_errors(table, children.drop_last());
        lemma_converted_node_errors(table, children.last());
    }
}

/// Where the body of a document fails, a child of the root failed with a
/// parser error.
pub proof fn lemma_first_parser_error(table: Map<Seq<char>, u64>, children: Seq<NodeView>)
    requires
        root_blocks(table, children) is Err,
    ensures
        exists|j: int|
            0 <= j < children.len() && (converted_node(table, #[trigger] children[j]) matches Err(e)
                && e is ParserError),
    decreases children.len(),
{
    let init = children.drop_last();
    if root_blocks(table, init) is Err {
        lemma_first_parser_error(table, init);
        let j = choose|j: int|
            0 <= j < init.len() && (converted_node(table, #[trigger] init[j]) matches Err(e)
                && e is ParserError);
        assert(init[j] == children[j]);
    } else {
        lemma_converted_node_errors(table, children.last());
        assert(children[children.len() - 1] == children.last());
    }
}

/// A child of the root that fails with a parser error fails the document
/// with a parser error: with its own, unless a child before it failed with
/// one already.
pub proof fn lemma_parser_error_aborts(table: Map<Seq<char>, u64>, children: Seq<NodeView>, i: int)
    requires
        0 <= i < children.len(),
        converted_node(table, children[i]) matches Err(e) && e is ParserError,
    ensures
        root_blocks(table, children) matches Err(e) && e is ParserError,
        (forall|j: int| 0 <= j < i ==> !(converted_node(table, #[trigger] children[j]) matches Err(
            e,
        ) && e is ParserError)) ==> root_blocks(table, children) == Err::<
            Seq<BlockView>,
            ErrorView,
        >(converted_node(table, children[i])->Err_0),
    decreases children.len(),
{
    let init = children.drop_last();
    lemma_converted_node_errors(table, children.last());
    if i < children.len() - 1 {
        assert(init[i] == children[i]);
        lemma_parser_error_aborts(table, init, i);
        if forall|j: int| 0 <= j < i ==> !(converted_node(table, #[trigger] children[j]) matches Err(
            e,
        ) && e is ParserError) {
            assert forall|j: int| 0 <= j < i implies !(converted_node(
                table,
                #[trigger] init[j],
            ) matches Err(e) && e is ParserError) by {
                assert(init[j] == children[j]);
            }
        }
    } else {
        lemma_root_blocks_errors(table, init);
        if root_blocks(table, init) is Err {
            lemma_first_parser_error(table, init);
            let j = choose|j: int|
                0 <= j < init.len() && (converted_node(table, #[trigger] init[j]) matches Err(e)
                    && e is ParserError);
            assert(init[j] == children[j]);
        }
    }
}

/// A footnote reference without a definition fails the whole conversion.
///
/// Where a child of the root is a reference to a footnote that no child of
/// the root defines, the document does not convert: the result is a
/// `ParserError`, and it is the error of that reference unless a child
/// before it failed with a parser error of its own.
pub proof fn lemma_dangling_reference_fails(children: Seq<NodeView>, i: int, identifier: Seq<char>)
    requires
        0 <= i < children.len(),
        children[i] == (NodeView::FootnoteReference { identifier }),
        forall|k: int| 0 <= k < children.len() ==> !defines(#[trigger] children[k], identifier),
    ensures
        markdown_document(NodeView::Root { children }) matches Err(e) && e is ParserError,
        (forall|j: int| 0 <= j < i ==> !(converted_node(
            footnote_table(children),
            #[trigger] children[j],
        ) matches Err(e) && e is ParserError)) ==> markdown_document(NodeView::Root { children })
            == Err::<DocumentView, ErrorView>(
            ErrorView::ParserError(dangling_reference_message(identifier)),
        ),
{
    let table = footnote_table(children);
    lemma_recorded_domain(Map::empty(), 0, children, identifier);
    lemma_parser_error_aborts(table, children, i);
}

/// The nodes of a converted sequence are the converted nodes, one for one
/// and in order.
pub proof fn lemma_converted_nodes_pointwise(
    table: Map<Seq<char>, u64>,
    nodes: Seq<NodeView>,
    out: Seq<BlockView>,
)
    requires
        converted_nodes(table, nodes) == Ok::<Seq<BlockView>, ErrorView>(out),
    ensures
        out.len() == nodes.len(),
        forall|k: int|
            0 <= k < nodes.len() ==> converted_node(table, #[trigger] nodes[k]) == Ok::<
                BlockView,
                ErrorView,
            >(out[k]),
    decreases nodes.len(),
{
    if nodes.len() > 0 {
        let init = nodes.drop_last();
        let before = converted_nodes(table, init)->Ok_0;
        lemma_converted_nodes_pointwise(table, init, before);
        assert forall|k: int| 0 <= k < nodes.len() implies converted_node(
            table,
            #[trigger] nodes[k],
        ) == Ok::<BlockView, ErrorView>(out[k]) by {
            if k < init.len() {
                assert(init[k] == nodes[k]);
            }
        }
    }
}

/// The cells of a converted row are the converted cells, one for one and in
/// order.
pub proof fn lemma_converted_cells_pointwise(
    table: Map<Seq<char>, u64>,
    cells: Seq<NodeView>,
    out: Seq<BlockView>,
)
    requires
        converted_cells(table, cells) == Ok::<Seq<BlockView>, ErrorView>(out),
    ensures
        out.len() == cells.len(),
        forall|k: int|
            0 <= k < cells.len() ==> converted_cell(table, #[trigger] cells[k]) == Ok::<
                BlockView,
                ErrorView,
            >(out[k]),
    decreases cells.len(),
{
    if cells.len() > 0 {
        let init = cells.drop_last();
        let before = converted_cells(table, init)->Ok_0;
        lemma_converted_cells_pointwise(table, init, before);
        assert forall|k: int| 0 <= k < cells.len() implies converted_cell(
            table,
            #[trigger] cells[k],
        ) == Ok::<BlockView, ErrorView>(out[k]) by {
            if k < init.len() {
                assert(init[k] == cells[k]);
            }
        }
    }
}

/// A table converts row for row: there are as many rows as the table node
/// has children, each is the conversion of the child in its place, the first
/// is the one header row and every other is a data row.
pub proof fn lemma_table_rows(table: Map<Seq<char>, u64>, children: Seq<NodeView>, out: Seq<RowView>)
    requires
        converted_rows(table, children) == Ok::<Seq<RowView>, ErrorView>(out),
    ensures
        out.len() == children.len(),
        forall|k: int|
            0 <= k < children.len() ==> converted_row(table, #[trigger] children[k], k == 0) == Ok::<
                RowView,
                ErrorView,
            >(out[k]),
        forall|k: int| 0 <= k < out.len() ==> ((#[trigger] out[k]) is Header <==> k == 0),
    decreases children.len(),
{
    if children.len() > 0 {
        let init = children.drop_last();
        let before = converted_rows(table, init)->Ok_0;
        lemma_table_rows(table, init, before);
        assert forall|k: int| 0 <= k < children.len() implies converted_row(
            table,
            #[trigger] children[k],
            k == 0,
        ) == Ok::<RowView, ErrorView>(out[k]) by {
            if k < init.len() {
                assert(init[k] == children[k]);
            }
        }
        assert forall|k: int| 0 <= k < out.len() implies ((#[trigger] out[k]) is Header <==> k
            == 0) by {
            if k < init.len() {
                assert(out[k] == before[k]);
            }
        }
    }
}

/// A child of the root that is invalid syntax is left out and nothing else
/// changes: the body is the body of the document without that child.
pub proof fn lemma_root_skips_invalid(table: Map<Seq<char>, u64>, children: Seq<NodeView>, i: int)
    requires
        0 <= i < children.len(),
        converted_node(table, children[i]) == Err::<BlockView, ErrorView>(ErrorView::InvalidSyntax),
    ensures
        root_blocks(table, children) == root_blocks(table, children.remove(i)),
    decreases children.len(),
{
    let init = children.drop_last();
    if i == children.len() - 1 {
        assert(children.remove(i) =~= init);
    } else {
        assert(init[i] == children[i]);
        lemma_root_skips_invalid(table, init, i);
        assert(children.remove(i).drop_last() =~= init.remove(i));
        assert(children.remove(i).last() == children.last());
    }
}

/// A stray node at the top level does not fail the document. Where a child
/// of the root is invalid syntax, as a table row outside a table is, and is
/// no footnote definition, the document converts to what it converts to
/// without that child: the child is left out of the body and all its
/// siblings are converted as they would be without it.
pub proof fn lemma_document_skips_invalid(children: Seq<NodeView>, i: int)
    requires
        0 <= i < children.len(),
        !(children[i] is FootnoteDefinition),
        converted_node(footnote_table(children), children[i]) == Err::<BlockView, ErrorView>(
            ErrorView::InvalidSyntax,
        ),
    ensures
        markdown_document(NodeView::Root { children }) == markdown_document(
            NodeView::Root { children: children.remove(i) },
        ),
{
    lemma_definitions_remove(children, i);
    lemma_footnote_numbers_stable(children, children.remove(i));
    lemma_root_skips_invalid(footnote_table(children), children, i);
}

/// Whether `number` is the number of a footnote in `table`.
pub open spec fn numbered(table: Map<Seq<char>, u64>, number: u64) -> bool {
    exists|identifier: Seq<char>|
        table.contains_key(identifier) && #[trigger] table[identifier] == number
}

/// Whether every footnote link in `block`, at any depth, carries the number
/// of a footnote in `table`.
pub open spec fn linked(table: Map<Seq<char>, u64>, block: BlockView) -> bool
    decreases block, 0nat,
{
    match block {
        BlockView::FootLink { index } => numbered(table, index),
        BlockView::Paragraph { body } => body_linked(table, body),
        BlockView::BlockQuote { body } => body_linked(table, body),
        BlockView::Element { body } => body_linked(table, body),
        BlockView::FootNote { body, .. } => body_linked(table, body),
        BlockView::Link { label, .. } => match label {
            Some(body) => body_linked(table, body),
            None => true,
        },
        BlockView::List { items, .. } => all_linked(table, items),
        BlockView::Table { rows } => rows_linked(table, rows),
        _ => true,
    }
}

/// Whether every footnote link in `body` carries the number of a footnote
/// in `table`.
pub open spec fn body_linked(table: Map<Seq<char>, u64>, body: BodyView) -> bool
    decreases body, 0nat,
{
    match body {
        BodyView::Text(_) => true,
        BodyView::Blocks(blocks) => all_linked(table, blocks),
    }
}

/// Whether every footnote link in `blocks` carries the number of a footnote
/// in `table`.
pub open spec fn all_linked(table: Map<Seq<char>, u64>, blocks: Seq<BlockView>) -> bool
    decreases blocks, 1nat,
{
    blocks.len() == 0 || (all_linked(table, blocks.drop_last()) && linked(table, blocks.last()))
}

/// Whether every footnote link in `rows` carries the number of a footnote
/// in `table`.
pub open spec fn rows_linked(table: Map<Seq<char>, u64>, rows: Seq<RowView>) -> bool
    decreases rows, 1nat,
{
    rows.len() == 0 || (rows_linked(table, rows.drop_last()) && match rows.last() {
        RowView::Header(cells) => all_linked(table, cells),
        RowView::Data(cells) => all_linked(table, cells),
    })
}

/// A converted node links only to footnotes of the table it was converted
/// with.
pub proof fn lemma_converted_node_linked(table: Map<Seq<char>, u64>, node: NodeView)
    ensures
        converted_node(table, node) matches Ok(block) ==> linked(table, block),
    decreases node, 0nat,
{
    match node {
        NodeView::Blockquote { children } => lemma_converted_nodes_linked(table, children),
        NodeView::List { children, .. } => lemma_converted_nodes_linked(table, children),
        NodeView::ListItem { children } => lemma_converted_nodes_linked(table, children),
        NodeView::Paragraph { children } => lemma_converted_nodes_linked(table, children),
        NodeView::Table { children } => lemma_converted_rows_linked(table, children),
        NodeView::FootnoteReference { identifier } => {
            if table.contains_key(identifier) {
                assert(table[identifier] == table[identifier]);
            }
        },
        _ => {},
    }
}

/// Converted nodes link only to footnotes of the table they were converted
/// with.
pub proof fn lemma_converted_nodes_linked(table: Map<Seq<char>, u64>, nodes: Seq<NodeView>)
    ensures
        converted_nodes(table, nodes) matches Ok(blocks) ==> all_linked(table, blocks),
    decreases nodes, 1nat,
{
    if nodes.len() > 0 {
        lemma_converted_nodes_linked(table, nodes.drop_last());
        lemma_converted_node_linked(table, nodes.last());
        if converted_nodes(table, nodes) is Ok {
            let before = converted_nodes(table, nodes.drop_last())->Ok_0;
            let block = converted_node(table, nodes.last())->Ok_0;
            assert(before.push(block).drop_last() =~= before);
        }
    }
}

/// Converted cells link only to footnotes of the table they were converted
/// with.
pub proof fn lemma_converted_cells_linked(table: Map<Seq<char>, u64>, cells: Seq<NodeView>)
    ensures
        converted_cells(table, cells) matches Ok(blocks) ==> all_linked(table, blocks),
    decreases cells, 1nat,
{
    if cells.len() > 0 {
        lemma_converted_cells_linked(table, cells.drop_last());
        match cells.last() {
            NodeView::TableCell { children } => lemma_converted_nodes_linked(table, children),
            _ => {},
        }
        assert(converted_cell(table, cells.last()) matches Ok(block) ==> linked(table, block));
        if converted_cells(table, cells) is Ok {
            let before = converted_cells(table, cells.drop_last())->Ok_0;
            let block = converted_cell(table, cells.last())->Ok_0;
            assert(before.push(block).drop_last() =~= before);
        }
    }
}

/// Converted rows link only to footnotes of the table they were converted
/// with.
pub proof fn lemma_converted_rows_linked(table: Map<Seq<char>, u64>, children: Seq<NodeView>)
    ensures
        converted_rows(table, children) matches Ok(rows) ==> rows_linked(table, rows),
    decreases children, 3nat,
{
    if children.len() > 0 {
        lemma_converted_rows_linked(table, children.drop_last());
        match children.last() {
            NodeView::TableRow { children: cells } => lemma_converted_cells_linked(table, cells),
            _ => {},
        }
        if converted_rows(table, children) is Ok {
            let before = converted_rows(table, children.drop_last())->Ok_0;
            let row = converted_row(table, children.last(), children.len() == 1)->Ok_0;
            assert(before.push(row).drop_last() =~= before);
        }
    }
}

/// The body of a document links only to footnotes of its table.
pub proof fn lemma_root_blocks_linked(table: Map<Seq<char>, u64>, children: Seq<NodeView>)
    ensures
        root_blocks(table, children) matches Ok(body) ==> all_linked(table, body),
    decreases children.len(),
{
    if children.len() > 0 {
        lemma_root_blocks_linked(table, children.drop_last());
        lemma_converted_node_linked(table, children.last());
        if root_blocks(table, children) is Ok {
            let before = root_blocks(table, children.drop_last())->Ok_0;
            if converted_node(table, children.last()) is Ok {
                let block = converted_node(table, children.last())->Ok_0;
                assert(before.push(block).drop_last() =~= before);
            }
        }
    }
}

/// A converted child of the root stands in the body.
pub proof fn lemma_converted_child_in_body(
    table: Map<Seq<char>, u64>,
    children: Seq<NodeView>,
    k: int,
)
    requires
        0 <= k < children.len(),
        root_blocks(table, children) is Ok,
        converted_node(table, children[k]) is Ok,
    ensures
        exists|j: int|
            0 <= j < root_blocks(table, children)->Ok_0.len() && #[trigger] root_blocks(
                table,
                children,
            )->Ok_0[j] == converted_node(table, children[k])->Ok_0,
    decreases children.len(),
{
    let init = children.drop_last();
    let body = root_blocks(table, children)->Ok_0;
    let before = root_blocks(table, init)->Ok_0;
    if k == children.len() - 1 {
        assert(body[body.len() - 1] == converted_node(table, children[k])->Ok_0);
    } else {
        assert(init[k] == children[k]);
        lemma_converted_child_in_body(table, init, k);
        let j = choose|j: int|
            0 <= j < before.len() && #[trigger] before[j] == converted_node(table, init[k])->Ok_0;
        assert(body[j] == before[j]);
    }
}

/// In a converted document no footnote link dangles: every link, at any
/// depth, carries the number of a footnote that a child of the root defines.
/// And the note itself stands in the body, with that number, unless its
/// definition was left out as invalid syntax.
pub proof fn lemma_links_resolve(children: Seq<NodeView>, doc: DocumentView)
    requires
        markdown_document(NodeView::Root { children }) == Ok::<DocumentView, ErrorView>(doc),
    ensures
        all_linked(footnote_table(children), doc.body),
        forall|number: u64|
            numbered(footnote_table(children), number) ==> exists|k: int|
                0 <= k < children.len() && (#[trigger] children[k]) is FootnoteDefinition && (
                converted_node(footnote_table(children), children[k]) matches Ok(note) ==> (
                note matches BlockView::FootNote { index, .. } && index == number
                    && exists|j: int|
                    0 <= j < doc.body.len() && #[trigger] doc.body[j] == note)),
{
    let table = footnote_table(children);
    lemma_root_blocks_linked(table, children);
    assert forall|number: u64| numbered(table, number) implies exists|k: int|
        0 <= k < children.len() && (#[trigger] children[k]) is FootnoteDefinition && (
        converted_node(table, children[k]) matches Ok(note) ==> (note matches BlockView::FootNote {
            index,
            ..
        } && index == number && exists|j: int|
            0 <= j < doc.body.len() && #[trigger] doc.body[j] == note)) by {
        let identifier = choose|identifier: Seq<char>|
            table.contains_key(identifier) && #[trigger] table[identifier] == number;
        lemma_recorded_domain(Map::empty(), 0, children, identifier);
        let k = choose|k: int| 0 <= k < children.len() && defines(#[trigger] children[k], identifier);
        assert(children[k] is FootnoteDefinition);
        if converted_node(table, children[k]) is Ok {
            let note = converted_node(table, children[k])->Ok_0;
            lemma_converted_child_in_body(table, children, k);
            assert(doc.body == root_blocks(table, children)->Ok_0);
            let j = choose|j: int|
                0 <= j < doc.body.len() && #[trigger] root_blocks(table, children)->Ok_0[j] == note;
            assert(doc.body[j] == note);
            assert(note matches BlockView::FootNote { index, .. } && index == number);
        }
    }
}

} // verus!
