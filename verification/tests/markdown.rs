use drova::document::Block;
use drova::document::Body;
use drova::document::Document;
use drova::document::HeadingLevel;
use drova::document::ListStyle;
use drova::document::Row;
use drova::error::Error;
use drova::flatten::nodes_to_text;
use drova::footnotes::manage_foot_links;
use drova::footnotes::FootnoteTable;
use drova::markdown::convert_node;
use drova::markdown::convert_nodes;
use drova::markdown::level_of;
use drova::markdown::MarkdownInput;
use drova::syntax::Node;

fn text(value: &str) -> Node {
    Node::Text { value: value.to_string() }
}

fn paragraph(children: Vec<Node>) -> Node {
    Node::Paragraph { children }
}

fn root(children: Vec<Node>) -> Node {
    Node::Root { children }
}

fn definition(identifier: &str, children: Vec<Node>) -> Node {
    Node::FootnoteDefinition { identifier: identifier.to_string(), children }
}

fn reference(identifier: &str) -> Node {
    Node::FootnoteReference { identifier: identifier.to_string() }
}

fn cell(value: &str) -> Node {
    Node::TableCell { children: vec![text(value)] }
}

fn row(values: &[&str]) -> Node {
    Node::TableRow { children: values.iter().map(|v| cell(v)).collect() }
}

fn element(value: &str) -> Block {
    Block::Element { body: Body::Text(value.to_string()) }
}

fn cell_block(value: &str) -> Block {
    Block::Element { body: Body::Blocks(vec![element(value)]) }
}

fn paragraph_block(value: &str) -> Block {
    Block::Paragraph { body: Body::Blocks(vec![element(value)]) }
}

fn convert(ast: &Node) -> Result<Document, Error> {
    MarkdownInput.process_tree(ast, None)
}

fn body_of(children: Vec<Node>) -> Vec<Block> {
    convert(&root(children)).unwrap().body
}

fn one(node: Node) -> Result<Block, Error> {
    convert_node(&FootnoteTable::new(), &node)
}

fn unsupported() -> Vec<Node> {
    vec![
        Node::Html,
        Node::Toml,
        Node::Yaml,
        Node::MdxjsEsm,
        Node::MdxTextExpression,
        Node::MdxFlowExpression,
        Node::MdxJsxFlowElement,
        Node::MdxJsxTextElement,
    ]
}

#[test]
fn footnote_numbers_do_not_depend_on_where_the_reference_stands() {
    let before = root(vec![reference("n"), definition("n", vec![text("note")])]);
    let after = root(vec![definition("n", vec![text("note")]), reference("n")]);
    let note = Block::FootNote { body: Body::Text("note".to_string()), index: 0 };
    let link = Block::FootLink { index: 0 };
    assert_eq!(convert(&before).unwrap().body, vec![link, note]);
    let note = Block::FootNote { body: Body::Text("note".to_string()), index: 0 };
    let link = Block::FootLink { index: 0 };
    assert_eq!(convert(&after).unwrap().body, vec![note, link]);
}

#[test]
fn footnotes_are_numbered_in_the_order_of_their_definitions() {
    let body = body_of(vec![
        paragraph(vec![reference("b"), reference("a")]),
        definition("a", vec![text("first")]),
        text("between"),
        definition("b", vec![text("second")]),
    ]);
    assert_eq!(
        body,
        vec![
            Block::Paragraph {
                body: Body::Blocks(vec![
                    Block::FootLink { index: 1 },
                    Block::FootLink { index: 0 },
                ]),
            },
            Block::FootNote { body: Body::Text("first".to_string()), index: 0 },
            element("between"),
            Block::FootNote { body: Body::Text("second".to_string()), index: 1 },
        ]
    );
}

#[test]
fn a_later_definition_of_an_identifier_replaces_the_earlier_one() {
    let body = body_of(vec![
        definition("a", vec![text("one")]),
        definition("a", vec![text("two")]),
        reference("a"),
    ]);
    assert_eq!(
        body,
        vec![
            Block::FootNote { body: Body::Text("one".to_string()), index: 1 },
            Block::FootNote { body: Body::Text("two".to_string()), index: 1 },
            Block::FootLink { index: 1 },
        ]
    );
}

#[test]
fn first_pass_counts_on_from_the_given_number() {
    let mut count: u64 = 5;
    let mut table = FootnoteTable::new();
    table.insert("kept".to_string(), 2);
    let nodes = vec![
        text("x"),
        definition("a", vec![]),
        reference("ignored"),
        definition("b", vec![]),
    ];
    manage_foot_links(&mut count, &mut table, &nodes);
    assert_eq!(count, 7);
    assert_eq!(table.get("a"), Some(5));
    assert_eq!(table.get("b"), Some(6));
    assert_eq!(table.get("kept"), Some(2));
    assert_eq!(table.get("ignored"), None);
}

#[test]
fn first_pass_sees_only_the_children_it_is_given() {
    let mut count: u64 = 0;
    let mut table = FootnoteTable::new();
    let nodes = vec![Node::Blockquote { children: vec![definition("inner", vec![])] }];
    manage_foot_links(&mut count, &mut table, &nodes);
    assert_eq!(count, 0);
    assert_eq!(table.get("inner"), None);
}

#[test]
fn dangling_footnote_reference_fails_the_conversion() {
    let ast = root(vec![text("kept so far"), reference("missing"), text("never reached")]);
    assert_eq!(
        convert(&ast),
        Err(Error::ParserError("FootLink (missing) does not have parent FootNote".to_string()))
    );
}

#[test]
fn dangling_footnote_reference_below_the_top_level_fails_the_conversion() {
    let ast = root(vec![
        definition("other", vec![text("x")]),
        Node::Blockquote { children: vec![paragraph(vec![text("see"), reference("gone")])] },
    ]);
    assert_eq!(
        convert(&ast),
        Err(Error::ParserError("FootLink (gone) does not have parent FootNote".to_string()))
    );
}

#[test]
fn footnote_definition_below_the_top_level_has_no_number() {
    let ast = root(vec![Node::Blockquote { children: vec![definition("deep", vec![text("x")])] }]);
    assert_eq!(
        convert(&ast),
        Err(Error::ParserError("FootNote (deep) is not defined at the top level".to_string()))
    );
}

#[test]
fn table_of_three_rows() {
    let table = Node::Table {
        children: vec![row(&["h1", "h2"]), row(&["a1", "a2"]), row(&["b1", "b2"])],
    };
    assert_eq!(
        body_of(vec![table]),
        vec![Block::Table {
            rows: vec![
                Row::Header(vec![cell_block("h1"), cell_block("h2")]),
                Row::Data(vec![cell_block("a1"), cell_block("a2")]),
                Row::Data(vec![cell_block("b1"), cell_block("b2")]),
            ],
        }]
    );
}

#[test]
fn table_without_rows_and_row_without_cells() {
    assert_eq!(one(Node::Table { children: vec![] }), Ok(Block::Table { rows: vec![] }));
    assert_eq!(
        one(Node::Table { children: vec![Node::TableRow { children: vec![] }] }),
        Ok(Block::Table { rows: vec![Row::Header(vec![])] })
    );
}

#[test]
fn table_that_holds_something_else_is_a_parser_error() {
    let stray_cell = Node::Table { children: vec![row(&["a"]), cell("b")] };
    assert_eq!(
        one(stray_cell),
        Err(Error::ParserError("Invalid tag in Table".to_string()))
    );
    let stray_text = Node::Table { children: vec![Node::TableRow { children: vec![text("a")] }] };
    assert_eq!(
        one(stray_text),
        Err(Error::ParserError("Invalid tag in Table".to_string()))
    );
}

#[test]
fn stray_table_row_at_the_top_level_is_left_out() {
    let ast = root(vec![paragraph(vec![text("before")]), row(&["x"]), paragraph(vec![text("after")])]);
    assert_eq!(
        convert(&ast),
        Ok(Document {
            title: None,
            description: None,
            body: vec![paragraph_block("before"), paragraph_block("after")],
            variables: None,
        })
    );
}

#[test]
fn every_unsupported_node_at_the_top_level_is_left_out() {
    let mut children = unsupported();
    children.push(cell("stray"));
    children.push(Node::LinkReference { children: vec![text("x")] });
    children.push(Node::ImageReference { alt: "x".to_string() });
    children.push(root(vec![]));
    children.push(text("kept"));
    assert_eq!(body_of(children), vec![element("kept")]);
}

#[test]
fn invalid_syntax_below_the_top_level_leaves_out_the_whole_child() {
    let ast = root(vec![
        paragraph(vec![text("a"), Node::Html]),
        Node::Emphasis { children: vec![Node::Yaml] },
        text("kept"),
    ]);
    assert_eq!(convert(&ast).unwrap().body, vec![element("kept")]);
}

#[test]
fn only_a_root_is_a_document() {
    assert_eq!(convert(&paragraph(vec![text("x")])), Err(Error::InvalidSyntax));
    assert_eq!(convert(&text("x")), Err(Error::InvalidSyntax));
    assert_eq!(
        convert(&root(vec![])),
        Ok(Document { title: None, description: None, body: vec![], variables: None })
    );
}

#[test]
fn markdown_rejects_bytes() {
    assert_eq!(MarkdownInput.process_bytes(vec![35, 32, 97], None), Err(Error::UnsupportedInput));
}

#[test]
fn nodes_map_to_blocks() {
    assert_eq!(one(Node::Break), Ok(Block::LineBreak));
    assert_eq!(one(Node::ThematicBreak), Ok(Block::HorizontalBreak));
    assert_eq!(one(text("t")), Ok(element("t")));
    assert_eq!(one(Node::InlineCode { value: "c".to_string() }), Ok(element("c")));
    assert_eq!(one(Node::InlineMath { value: "m".to_string() }), Ok(element("m")));
    assert_eq!(
        one(Node::Math { value: "x^2".to_string() }),
        Ok(Block::Paragraph { body: Body::Text("x^2".to_string()) })
    );
    assert_eq!(
        one(Node::Code { value: "fn f() {}".to_string(), lang: Some("rust".to_string()) }),
        Ok(Block::Code { text: "fn f() {}".to_string(), language: Some("rust".to_string()) })
    );
    assert_eq!(
        one(Node::Code { value: "plain".to_string(), lang: None }),
        Ok(Block::Code { text: "plain".to_string(), language: None })
    );
    assert_eq!(
        one(Node::Definition { identifier: "anchor".to_string() }),
        Ok(Block::Anchor { id: "anchor".to_string() })
    );
    assert_eq!(
        one(Node::Image { url: "a.png".to_string(), alt: "An image".to_string() }),
        Ok(Block::Image { src: "a.png".to_string(), alt: Some("An image".to_string()) })
    );
}

#[test]
fn inline_wrappers_hold_flattened_text() {
    let children = || vec![text("a"), Node::Break, Node::Strong { children: vec![text("b")] }];
    assert_eq!(
        one(Node::Delete { children: children() }),
        Ok(Block::Strikethrough { text: "a\nb".to_string() })
    );
    assert_eq!(
        one(Node::Emphasis { children: children() }),
        Ok(Block::Italic { text: "a\nb".to_string() })
    );
    assert_eq!(
        one(Node::Strong { children: children() }),
        Ok(Block::Bold { text: "a\nb".to_string() })
    );
    assert_eq!(
        one(Node::Link { url: "gemini://x".to_string(), children: children() }),
        Ok(Block::Link {
            target: "gemini://x".to_string(),
            label: Some(Body::Text("a\nb".to_string())),
        })
    );
}

#[test]
fn containers_hold_converted_children() {
    let children = || vec![text("a"), Node::Break];
    let blocks = || vec![element("a"), Block::LineBreak];
    assert_eq!(
        one(Node::Blockquote { children: children() }),
        Ok(Block::BlockQuote { body: Body::Blocks(blocks()) })
    );
    assert_eq!(
        one(Node::Paragraph { children: children() }),
        Ok(Block::Paragraph { body: Body::Blocks(blocks()) })
    );
    assert_eq!(
        one(Node::ListItem { children: children() }),
        Ok(Block::Element { body: Body::Blocks(blocks()) })
    );
    assert_eq!(
        one(Node::List { ordered: false, children: children() }),
        Ok(Block::List { items: blocks(), style: ListStyle::Bullet })
    );
    assert_eq!(
        one(Node::List { ordered: true, children: vec![Node::ListItem { children: children() }] }),
        Ok(Block::List {
            items: vec![Block::Element { body: Body::Blocks(blocks()) }],
            style: ListStyle::Ordered,
        })
    );
}

#[test]
fn nodes_without_a_counterpart_are_invalid_syntax() {
    for node in unsupported() {
        assert_eq!(one(node), Err(Error::InvalidSyntax));
    }
    assert_eq!(one(row(&["x"])), Err(Error::InvalidSyntax));
    assert_eq!(one(cell("x")), Err(Error::InvalidSyntax));
    assert_eq!(one(root(vec![])), Err(Error::InvalidSyntax));
    assert_eq!(one(Node::LinkReference { children: vec![] }), Err(Error::InvalidSyntax));
    assert_eq!(one(Node::ImageReference { alt: String::new() }), Err(Error::InvalidSyntax));
}

#[test]
fn first_failing_node_decides() {
    let table = FootnoteTable::new();
    let nodes = vec![text("ok"), Node::Html, reference("missing")];
    assert_eq!(convert_nodes(&table, &nodes), Err(Error::InvalidSyntax));
    let nodes = vec![text("ok"), reference("missing"), Node::Html];
    assert_eq!(
        convert_nodes(&table, &nodes),
        Err(Error::ParserError("FootLink (missing) does not have parent FootNote".to_string()))
    );
    let nodes = vec![text("a"), text("b")];
    assert_eq!(convert_nodes(&table, &nodes), Ok(vec![element("a"), element("b")]));
    assert_eq!(convert_nodes(&table, &Vec::new()), Ok(vec![]));
}

#[test]
fn footnote_definition_flattens_before_it_looks_up() {
    let table = FootnoteTable::new();
    assert_eq!(
        convert_node(&table, &definition("a", vec![Node::Html])),
        Err(Error::InvalidSyntax)
    );
}

#[test]
fn heading_depths() {
    let heading = |depth: u8| Node::Heading { depth, children: vec![text("T")] };
    let expect = |level: HeadingLevel| Ok(Block::Heading { level, text: "T".to_string() });
    assert_eq!(one(heading(1)), expect(HeadingLevel::One));
    assert_eq!(one(heading(2)), expect(HeadingLevel::Two));
    assert_eq!(one(heading(3)), expect(HeadingLevel::Three));
    assert_eq!(one(heading(4)), expect(HeadingLevel::Four));
    assert_eq!(one(heading(5)), expect(HeadingLevel::Five));
    assert_eq!(one(heading(6)), expect(HeadingLevel::Six));
    assert_eq!(one(heading(0)), expect(HeadingLevel::Six));
    assert_eq!(one(heading(7)), expect(HeadingLevel::Six));
    assert_eq!(one(heading(255)), expect(HeadingLevel::Six));
    assert_eq!(level_of(3), HeadingLevel::Three);
    assert_eq!(level_of(200), HeadingLevel::Six);
}

#[test]
fn flattening_concatenates_in_order() {
    let nodes = vec![
        text("a"),
        Node::Break,
        Node::ThematicBreak,
        Node::InlineCode { value: "b".to_string() },
        Node::InlineMath { value: "c".to_string() },
        Node::Math { value: "d".to_string() },
        Node::Code { value: "e".to_string(), lang: Some("rust".to_string()) },
        Node::Image { url: "u".to_string(), alt: "f".to_string() },
        Node::ImageReference { alt: "g".to_string() },
        Node::Definition { identifier: "h".to_string() },
        reference("i"),
    ];
    assert_eq!(nodes_to_text(&nodes), Ok("a\n bcdefghi".to_string()));
    assert_eq!(nodes_to_text(&Vec::new()), Ok(String::new()));
}

#[test]
fn flattening_descends_into_containers() {
    let inner = || vec![text("x"), Node::Emphasis { children: vec![text("y")] }];
    let containers = vec![
        Node::Blockquote { children: inner() },
        definition("id", inner()),
        Node::List { ordered: true, children: inner() },
        Node::Emphasis { children: inner() },
        Node::Delete { children: inner() },
        Node::Link { url: "u".to_string(), children: inner() },
        Node::LinkReference { children: inner() },
        Node::Strong { children: inner() },
        Node::Heading { depth: 1, children: inner() },
        Node::Table { children: inner() },
        Node::TableRow { children: inner() },
        Node::TableCell { children: inner() },
        Node::ListItem { children: inner() },
        Node::Paragraph { children: inner() },
    ];
    assert_eq!(nodes_to_text(&containers), Ok("xy".repeat(14)));
}

#[test]
fn flattening_fails_on_nodes_without_text() {
    for node in unsupported() {
        assert_eq!(nodes_to_text(&vec![text("a"), node]), Err(Error::InvalidSyntax));
    }
    assert_eq!(nodes_to_text(&vec![root(vec![text("a")])]), Err(Error::InvalidSyntax));
    let deep = vec![Node::Strong { children: vec![Node::Emphasis { children: vec![Node::Html] }] }];
    assert_eq!(nodes_to_text(&deep), Err(Error::InvalidSyntax));
}
