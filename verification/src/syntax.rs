//! The markdown syntax tree, as the converter reads it.
//!
//! The tree is the output of a markdown parser that is not part of this
//! library. A node holds what conversion reads of the parser's node of the
//! same kind; kinds that have no counterpart in a document hold nothing.

use crate::document::text_opt;
use vstd::prelude::*;

verus! {

/// A node of the markdown syntax tree, with what conversion reads of it.
#[derive(Debug, PartialEq, Eq)]
pub enum Node {
    Root { children: Vec<Node> },
    Blockquote { children: Vec<Node> },
    FootnoteDefinition { identifier: String, children: Vec<Node> },
    MdxJsxFlowElement,
    List { ordered: bool, children: Vec<Node> },
    MdxjsEsm,
    Toml,
    Yaml,
    Break,
    InlineCode { value: String },
    InlineMath { value: String },
    Delete { children: Vec<Node> },
    Emphasis { children: Vec<Node> },
    MdxTextExpression,
    FootnoteReference { identifier: String },
    Html,
    Image { url: String, alt: String },
    ImageReference { alt: String },
    MdxJsxTextElement,
    Link { url: String, children: Vec<Node> },
    LinkReference { children: Vec<Node> },
    Strong { children: Vec<Node> },
    Text { value: String },
    Code { value: String, lang: Option<String> },
    Math { value: String },
    MdxFlowExpression,
    Heading { depth: u8, children: Vec<Node> },
    Table { children: Vec<Node> },
    ThematicBreak,
    TableRow { children: Vec<Node> },
    TableCell { children: Vec<Node> },
    ListItem { children: Vec<Node> },
    Definition { identifier: String },
    Paragraph { children: Vec<Node> },
}

/// Mathematical value of a [`Node`].
pub enum NodeView {
    Root { children: Seq<NodeView> },
    Blockquote { children: Seq<NodeView> },
    FootnoteDefinition { identifier: Seq<char>, children: Seq<NodeView> },
    MdxJsxFlowElement,
    List { ordered: bool, children: Seq<NodeView> },
    MdxjsEsm,
    Toml,
    Yaml,
    Break,
    InlineCode { value: Seq<char> },
    InlineMath { value: Seq<char> },
    Delete { children: Seq<NodeView> },
    Emphasis { children: Seq<NodeView> },
    MdxTextExpression,
    FootnoteReference { identifier: Seq<char> },
    Html,
    Image { url: Seq<char>, alt: Seq<char> },
    ImageReference { alt: Seq<char> },
    MdxJsxTextElement,
    Link { url: Seq<char>, children: Seq<NodeView> },
    LinkReference { children: Seq<NodeView> },
    Strong { children: Seq<NodeView> },
    Text { value: Seq<char> },
    Code { value: Seq<char>, lang: Option<Seq<char>> },
    Math { value: Seq<char> },
    MdxFlowExpression,
    Heading { depth: u8, children: Seq<NodeView> },
    Table { children: Seq<NodeView> },
    ThematicBreak,
    TableRow { children: Seq<NodeView> },
    TableCell { children: Seq<NodeView> },
    ListItem { children: Seq<NodeView> },
    Definition { identifier: Seq<char> },
    Paragraph { children: Seq<NodeView> },
}

/// The values of a sequence of syntax nodes, in order.
pub open spec fn node_views(s: Seq<Node>) -> Seq<NodeView>
    decreases s, 0nat,
{
    if s.len() == 0 {
        Seq::empty()
    } else {
        node_views(s.drop_last()).push(s.last().view())
    }
}

impl View for Node {
    type V = NodeView;

    open spec fn view(&self) -> NodeView
        decreases self, 0nat,
    {
        match self {
            Node::Root { children } => NodeView::Root { children: node_views(children@) },
            Node::Blockquote { children } => NodeView::Blockquote { children: node_views(children@) },
            Node::FootnoteDefinition { identifier, children } => NodeView::FootnoteDefinition {
                identifier: identifier@,
                children: node_views(children@),
            },
            Node::MdxJsxFlowElement => NodeView::MdxJsxFlowElement,
            Node::List { ordered, children } => NodeView::List {
                ordered: *ordered,
                children: node_views(children@),
            },
            Node::MdxjsEsm => NodeView::MdxjsEsm,
            Node::Toml => NodeView::Toml,
            Node::Yaml => NodeView::Yaml,
            Node::Break => NodeView::Break,
            Node::InlineCode { value } => NodeView::InlineCode { value: value@ },
            Node::InlineMath { value } => NodeView::InlineMath { value: value@ },
            Node::Delete { children } => NodeView::Delete { children: node_views(children@) },
            Node::Emphasis { children } => NodeView::Emphasis { children: node_views(children@) },
            Node::MdxTextExpression => NodeView::MdxTextExpression,
            Node::FootnoteReference { identifier } => NodeView::FootnoteReference {
                identifier: identifier@,
            },
            Node::Html => NodeView::Html,
            Node::Image { url, alt } => NodeView::Image { url: url@, alt: alt@ },
            Node::ImageReference { alt } => NodeView::ImageReference { alt: alt@ },
            Node::MdxJsxTextElement => NodeView::MdxJsxTextElement,
            Node::Link { url, children } => NodeView::Link {
                url: url@,
                children: node_views(children@),
            },
            Node::LinkReference { children } => NodeView::LinkReference {
                children: node_views(children@),
            },
            Node::Strong { children } => NodeView::Strong { children: node_views(children@) },
            Node::Text { value } => NodeView::Text { value: value@ },
            Node::Code { value, lang } => NodeView::Code { value: value@, lang: text_opt(*lang) },
            Node::Math { value } => NodeView::Math { value: value@ },
            Node::MdxFlowExpression => NodeView::MdxFlowExpression,
            Node::Heading { depth, children } => NodeView::Heading {
                depth: *depth,
                children: node_views(children@),
            },
            Node::Table { children } => NodeView::Table { children: node_views(children@) },
            Node::ThematicBreak => NodeView::ThematicBreak,
            Node::TableRow { children } => NodeView::TableRow { children: node_views(children@) },
            Node::TableCell { children } => NodeView::TableCell { children: node_views(children@) },
            Node::ListItem { children } => NodeView::ListItem { children: node_views(children@) },
            Node::Definition { identifier } => NodeView::Definition { identifier: identifier@ },
            Node::Paragraph { children } => NodeView::Paragraph { children: node_views(children@) },
        }
    }
}

/// `node_views` maps node for node.
pub proof fn lemma_node_views_index(s: Seq<Node>)
    ensures
        node_views(s).len() == s.len(),
        forall|i: int| 0 <= i < s.len() ==> (#[trigger] node_views(s)[i]) == s[i]@,
    decreases s.len(),
{
    if s.len() > 0 {
        let init = s.drop_last();
        lemma_node_views_index(init);
        assert(node_views(s) == node_views(init).push(s.last()@));
        assert forall|i: int| 0 <= i < s.len() implies (#[trigger] node_views(s)[i]) == s[i]@ by {
            if i < init.len() {
                assert(node_views(init)[i] == init[i]@);
                assert(init[i] == s[i]);
            }
        }
    }
}

} // verus!
