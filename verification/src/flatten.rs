//! Flattening: the text that an inline subtree holds.

use crate::error::Error;
use crate::error::ErrorView;
use crate::syntax::lemma_node_views_index;
use crate::syntax::node_views;
use crate::syntax::Node;
use crate::syntax::NodeView;
use vstd::prelude::*;
use vstd::string::StringExecFns;

verus! {

/// The text of one node in inline context.
pub open spec fn flattened_node(node: NodeView) -> Result<Seq<char>, ErrorView>
    decreases node, 0nat,
{
    match node {
        NodeView::Break => Ok(seq!['\n']),
        NodeView::ThematicBreak => Ok(seq![' ']),
        NodeView::Math { value } => Ok(value),
        NodeView::InlineCode { value } => Ok(value),
        NodeView::InlineMath { value } => Ok(value),
        NodeView::Text { value } => Ok(value),
        NodeView::Code { value, .. } => Ok(value),
        NodeView::Image { alt, .. } => Ok(alt),
        NodeView::ImageReference { alt } => Ok(alt),
        NodeView::Definition { identifier } => Ok(identifier),
        NodeView::FootnoteReference { identifier } => Ok(identifier),
        NodeView::Blockquote { children } => flattened(children),
        NodeView::FootnoteDefinition { children, .. } => flattened(children),
        NodeView::List { children, .. } => flattened(children),
        NodeView::Emphasis { children } => flattened(children),
        NodeView::Delete { children } => flattened(children),
        NodeView::Link { children, .. } => flattened(children),
        NodeView::LinkReference { children } => flattened(children),
        NodeView::Strong { children } => flattened(children),
        NodeView::Heading { children, .. } => flattened(children),
        NodeView::Table { children } => flattened(children),
        NodeView::TableRow { children } => flattened(children),
        NodeView::TableCell { children } => flattened(children),
        NodeView::ListItem { children } => flattened(children),
        NodeView::Paragraph { children } => flattened(children),
        NodeView::Root { .. } => Err(ErrorView::InvalidSyntax),
        NodeView::Html => Err(ErrorView::InvalidSyntax),
        NodeView::Toml => Err(ErrorView::InvalidSyntax),
        NodeView::Yaml => Err(ErrorView::InvalidSyntax),
        NodeView::MdxjsEsm => Err(ErrorView::InvalidSyntax),
        NodeView::MdxTextExpression => Err(ErrorView::InvalidSyntax),
        NodeView::MdxFlowExpression => Err(ErrorView::InvalidSyntax),
        NodeView::MdxJsxFlowElement => Err(ErrorView::InvalidSyntax),
        NodeView::MdxJsxTextElement => Err(ErrorView::InvalidSyntax),
    }
}

/// The text of a sequence of nodes in inline context: the texts of the
/// nodes, one after the other. The first node without a text makes the whole
/// fail with its error.
pub open spec fn flattened(nodes: Seq<NodeView>) -> Result<Seq<char>, ErrorView>
    decreases nodes, 1nat,
{
    if nodes.len() == 0 {
        Ok(Seq::empty())
    } else {
        match flattened(nodes.drop_last()) {
            Err(e) => Err(e),
            Ok(before) => match flattened_node(nodes.last()) {
                Err(e) => Err(e),
                Ok(text) => Ok(before + text),
            },
        }
    }
}

/// The mathematical value of a flattening's outcome.
pub open spec fn text_outcome(r: Result<String, Error>) -> Result<Seq<char>, ErrorView> {
    match r {
        Ok(t) => Ok(t@),
        Err(e) => Err(e@),
    }
}

/// Once a prefix of `nodes` fails to flatten, all of `nodes` fails the same
/// way.
pub proof fn lemma_flattened_prefix(nodes: Seq<NodeView>, k: int)
    requires
        0 <= k <= nodes.len(),
        flattened(nodes.take(k)) is Err,
    ensures
        flattened(nodes) == flattened(nodes.take(k)),
    decreases nodes.len() - k,
{
    if k < nodes.len() {
        assert(nodes.take(k + 1).drop_last() =~= nodes.take(k));
        lemma_flattened_prefix(nodes, k + 1);
    } else {
        assert(nodes.take(k) =~= nodes);
    }
}

/// Flattening one node fails with `InvalidSyntax` and nothing else.
pub proof fn lemma_flattened_node_errors(node: NodeView)
    ensures
        flattened_node(node) matches Err(e) ==> e == ErrorView::InvalidSyntax,
    decreases node, 0nat,
{
    match node {
        NodeView::Blockquote { children } => lemma_flattened_errors(children),
        NodeView::FootnoteDefinition { children, .. } => lemma_flattened_errors(children),
        NodeView::List { children, .. } => lemma_flattened_errors(children),
        NodeView::Emphasis { children } => lemma_flattened_errors(children),
        NodeView::Delete { children } => lemma_flattened_errors(children),
        NodeView::Link { children, .. } => lemma_flattened_errors(children),
        NodeView::LinkReference { children } => lemma_flattened_errors(children),
        NodeView::Strong { children } => lemma_flattened_errors(children),
        NodeView::Heading { children, .. } => lemma_flattened_errors(children),
        NodeView::Table { children } => lemma_flattened_errors(children),
        NodeView::TableRow { children } => lemma_flattened_errors(children),
        NodeView::TableCell { children } => lemma_flattened_errors(children),
        NodeView::ListItem { children } => lemma_flattened_errors(children),
        NodeView::Paragraph { children } => lemma_flattened_errors(children),
        _ => {},
    }
}

/// Flattening fails with `InvalidSyntax` and nothing else.
pub proof fn lemma_flattened_errors(nodes: Seq<NodeView>)
    ensures
        flattened(nodes) matches Err(e) ==> e == ErrorView::InvalidSyntax,
    decreases nodes, 1nat,
{
    if nodes.len() > 0 {
        lemma_flattened_errors(nodes.drop_last());
        lemma_flattened_node_errors(nodes.last());
    }
}

/// The text of one node in inline context.
fn node_to_text(node: &Node) -> (r: Result<String, Error>)
    ensures
        text_outcome(r) == flattened_node(node@),
    decreases node,
{
    match node {
        Node::Break => {
            let mut t = String::new();
            t.push('\n');
            proof {
                assert(t@ =~= seq!['\n']);
            }
            Ok(t)
        },
        Node::ThematicBreak => {
            let mut t = String::new();
            t.push(' ');
            proof {
                assert(t@ =~= seq![' ']);
            }
            Ok(t)
        },
        Node::Math { value } => Ok(value.clone()),
        Node::InlineCode { value } => Ok(value.clone()),
        Node::InlineMath { value } => Ok(value.clone()),
        Node::Text { value } => Ok(value.clone()),
        Node::Code { value, .. } => Ok(value.clone()),
        Node::Image { alt, .. } => Ok(alt.clone()),
        Node::ImageReference { alt } => Ok(alt.clone()),
        Node::Definition { identifier } => Ok(identifier.clone()),
        Node::FootnoteReference { identifier } => Ok(identifier.clone()),
        Node::Blockquote { children } => nodes_to_text(children),
        Node::FootnoteDefinition { children, .. } => nodes_to_text(children),
        Node::List { children, .. } => nodes_to_text(children),
        Node::Emphasis { children } => nodes_to_text(children),
        Node::Delete { children } => nodes_to_text(children),
        Node::Link { children, .. } => nodes_to_text(children),
        Node::LinkReference { children } => nodes_to_text(children),
        Node::Strong { children } => nodes_to_text(children),
        Node::Heading { children, .. } => nodes_to_text(children),
        Node::Table { children } => nodes_to_text(children),
        Node::TableRow { children } => nodes_to_text(children),
        Node::TableCell { children } => nodes_to_text(children),
        Node::ListItem { children } => nodes_to_text(children),
        Node::Paragraph { children } => nodes_to_text(children),
        Node::Root { .. } => Err(Error::InvalidSyntax),
        Node::Html => Err(Error::InvalidSyntax),
        Node::Toml => Err(Error::InvalidSyntax),
        Node::Yaml => Err(Error::InvalidSyntax),
        Node::MdxjsEsm => Err(Error::InvalidSyntax),
        Node::MdxTextExpression => Err(Error::InvalidSyntax),
        Node::MdxFlowExpression => Err(Error::InvalidSyntax),
        Node::MdxJsxFlowElement => Err(Error::InvalidSyntax),
        Node::MdxJsxTextElement => Err(Error::InvalidSyntax),
    }
}

/// Flattens `nodes` to the text they hold: a break gives a line feed, a
/// thematic break one space, a literal its value, an image its alternative
/// text, a definition or footnote reference its identifier, and a container
/// the text of its children. A node that has no place in inline context
/// fails with `InvalidSyntax`.
pub fn nodes_to_text(nodes: &Vec<Node>) -> (r: Result<String, Error>)
    ensures
        text_outcome(r) == flattened(node_views(nodes@)),
    decreases nodes,
{
    let ghost all = node_views(nodes@);
    let mut output = String::new();
    let mut i: usize = 0;
    while i < nodes.len()
        invariant
            i <= nodes.len(),
            all == node_views(nodes@),
            flattened(all.take(i as int)) == Ok::<Seq<char>, ErrorView>(output@),
        decreases nodes.len() - i,
    {
        proof {
            lemma_node_views_index(nodes@);
            assert(all.take(i + 1).drop_last() =~= all.take(i as int));
            assert(all.take(i + 1).last() == nodes@[i as int]@);
        }
        match node_to_text(&nodes[i]) {
            Ok(text) => {
                output.append(text.as_str());
            },
            Err(e) => {
                proof {
                    lemma_flattened_prefix(all, i + 1);
                }
                return Err(e);
            },
        }
        i += 1;
    }
    proof {
        lemma_node_views_index(nodes@);
        assert(all.take(nodes.len() as int) =~= all);
    }
    Ok(output)
}

} // verus!
