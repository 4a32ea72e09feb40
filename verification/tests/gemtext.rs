use drova::document::Block;
use drova::document::Body;
use drova::document::Document;
use drova::document::HeadingLevel;
use drova::document::ListStyle;
use drova::error::Error;
use drova::gemtext::GemtextInput;
use drova::input::Input;

fn convert(text: &str) -> Document {
    GemtextInput.process_text(text.to_string(), None).unwrap()
}

fn item(text: &str) -> Block {
    Block::Element { body: Body::Text(text.to_string()) }
}

fn paragraph(text: &str) -> Block {
    Block::Paragraph { body: Body::Text(text.to_string()) }
}

fn bullets(items: Vec<Block>) -> Block {
    Block::List { items, style: ListStyle::Bullet }
}

fn heading(level: HeadingLevel, text: &str) -> Block {
    Block::Heading { level, text: text.to_string() }
}

fn code(text: &str) -> Block {
    Block::Code { text: text.to_string(), language: None }
}

fn link(target: &str, label: Option<&str>) -> Block {
    Block::Paragraph {
        body: Body::Blocks(vec![Block::NavLink {
            target: target.to_string(),
            label: label.map(|l| l.to_string()),
        }]),
    }
}

#[test]
fn heading_paragraph_and_list() {
    let doc = convert("# Title\n\nSome para\n* a\n* b\n");
    assert_eq!(
        doc,
        Document {
            title: Some("Title".to_string()),
            description: None,
            body: vec![
                heading(HeadingLevel::One, "Title"),
                paragraph("Some para"),
                bullets(vec![item("a"), item("b")]),
            ],
            variables: None,
        }
    );
}

#[test]
fn unterminated_fence_still_yields_code() {
    let doc = convert("intro\n```\nlet x = 1;\n  let y = 2;  \n");
    assert_eq!(doc.body, vec![paragraph("intro"), code("let x = 1;\nlet y = 2;")]);
    assert_eq!(doc.title, None);
}

#[test]
fn unterminated_fence_without_lines() {
    let doc = convert("```");
    assert_eq!(doc.body, vec![code("")]);
}

#[test]
fn fence_gathers_lines_that_look_like_markup() {
    let doc = convert("```rust\n# not a heading\n* not an item\n\n=> not a link\n```\nafter");
    assert_eq!(
        doc.body,
        vec![code("# not a heading\n* not an item\n\n=> not a link"), paragraph("after")]
    );
    assert_eq!(doc.title, None);
}

#[test]
fn two_fences() {
    let doc = convert("```\na\n```\n```\nb\n```");
    assert_eq!(doc.body, vec![code("a"), code("b")]);
}

#[test]
fn empty_input_is_an_empty_document() {
    assert_eq!(
        convert(""),
        Document { title: None, description: None, body: vec![], variables: None }
    );
    assert_eq!(convert("\n\n  \n").body, vec![]);
}

#[test]
fn link_lines() {
    let doc = convert("=> gemini://example.org/ An example\n=>gemini://a.b\n=>\t x \t y z  \n=>");
    assert_eq!(
        doc.body,
        vec![
            link("gemini://example.org/", Some("An example")),
            link("gemini://a.b", None),
            link("x", Some("y z")),
            link("", None),
        ]
    );
}

#[test]
fn heading_levels() {
    let doc = convert("# One\n##  Two \n### Three\n#### Four\n#NoSpace\n##\n");
    assert_eq!(
        doc.body,
        vec![
            heading(HeadingLevel::One, "One"),
            heading(HeadingLevel::Two, "Two"),
            heading(HeadingLevel::Three, "Three"),
            paragraph("#### Four"),
            paragraph("#NoSpace"),
            paragraph("##"),
        ]
    );
    assert_eq!(doc.title, Some("One".to_string()));
}

#[test]
fn title_is_the_first_level_one_heading() {
    let doc = convert("## Sub\n# First\n# Second");
    assert_eq!(doc.title, Some("First".to_string()));
    assert_eq!(doc.description, None);
    assert_eq!(doc.variables, None);
    let none = convert("## Sub\n### Deeper");
    assert_eq!(none.title, None);
}

#[test]
fn quote_line() {
    let doc = convert(">  quoted text\n>unquoted");
    assert_eq!(
        doc.body,
        vec![
            Block::BlockQuote { body: Body::Text(" quoted text".to_string()) },
            paragraph(">unquoted"),
        ]
    );
}

#[test]
fn list_item_keeps_what_follows_the_marker() {
    let doc = convert("*   spaced\n*tight");
    assert_eq!(doc.body, vec![bullets(vec![item("  spaced")]), paragraph("*tight")]);
}

#[test]
fn list_ends_at_a_line_that_is_no_item() {
    let doc = convert("* a\n* b\n# Next\n* c\npara\n* d\n\n* e");
    assert_eq!(
        doc.body,
        vec![
            bullets(vec![item("a"), item("b")]),
            heading(HeadingLevel::One, "Next"),
            bullets(vec![item("c")]),
            paragraph("para"),
            bullets(vec![item("d")]),
            bullets(vec![item("e")]),
        ]
    );
}

#[test]
fn list_ends_at_a_fence() {
    let doc = convert("* a\n```\n* b\n```\n* c");
    assert_eq!(
        doc.body,
        vec![bullets(vec![item("a")]), code("* b"), bullets(vec![item("c")])]
    );
}

#[test]
fn lines_end_at_line_feeds_with_or_without_carriage_return() {
    let doc = convert("one\r\ntwo\nthree\r\n");
    assert_eq!(doc.body, vec![paragraph("one"), paragraph("two"), paragraph("three")]);
}

#[test]
fn carriage_return_alone_ends_no_line() {
    let doc = convert("one\rtwo\n");
    assert_eq!(doc.body, vec![paragraph("one\rtwo")]);
}

#[test]
fn blank_lines_inside_a_fence_are_kept() {
    let doc = convert("```\n\na\n\n\nb\n```\n");
    assert_eq!(doc.body, vec![code("\na\n\n\nb")]);
}

#[test]
fn lines_are_trimmed_of_any_white_space() {
    let doc = convert("\u{3000}# Wide\u{2003}\n\t* item\u{a0}\n");
    assert_eq!(
        doc.body,
        vec![heading(HeadingLevel::One, "Wide"), bullets(vec![item("item")])]
    );
}

#[test]
fn last_line_needs_no_line_feed() {
    assert_eq!(convert("only").body, vec![paragraph("only")]);
    assert_eq!(convert("only\n").body, vec![paragraph("only")]);
}

#[test]
fn gemtext_rejects_bytes() {
    assert_eq!(GemtextInput.process_bytes(vec![1, 2, 3], None), Err(Error::UnsupportedInput));
}
