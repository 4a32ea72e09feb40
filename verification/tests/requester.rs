use drova::document::Block;
use drova::document::Body;
use drova::document::Document;
use drova::error::Error;
use drova::gemtext::GemtextInput;
use drova::input::FnInput;
use drova::input::Input;
use drova::plugins::requester_plugins;
use drova::registry::Registry;
use drova::requester::Requester;
use drova::requester::RequesterBuilder;
use drova::requester::Response;
use drova::requester::ResponseData;
use drova::text::TextInput;
use url::Url;

fn tagged(
    tag: &'static str,
) -> FnInput<
    impl Fn(String, Option<&Url>) -> Result<Document, Error> + Send + Sync,
    impl Fn(Vec<u8>, Option<&Url>) -> Result<Document, Error> + Send + Sync,
> {
    FnInput::new(
        move |s: String, url: Option<&Url>| {
            Ok(Document {
                title: Some(tag.to_string()),
                description: url.map(|u| u.to_string()),
                body: vec![Block::Element { body: Body::Text(s) }],
                variables: None,
            })
        },
        move |b: Vec<u8>, _url: Option<&Url>| {
            Ok(Document {
                title: Some(tag.to_string()),
                description: Some(format!("{} bytes", b.len())),
                body: vec![],
                variables: None,
            })
        },
    )
}

fn title_of(r: Result<Document, Error>) -> Option<String> {
    r.unwrap().title
}

#[test]
fn exact_key_wins_over_an_earlier_pattern() {
    let registry = Registry::new().insert("text/*".to_string(), 1).insert("text/plain".to_string(), 2);
    assert_eq!(registry.resolve("text/plain"), Some(&2));
    assert_eq!(registry.resolve("text/html"), Some(&1));
    let reversed = Registry::new().insert("text/plain".to_string(), 2).insert("text/*".to_string(), 1);
    assert_eq!(reversed.resolve("text/plain"), Some(&2));
    assert_eq!(reversed.resolve("text/html"), Some(&1));
}

#[test]
fn a_pattern_is_also_an_exact_key() {
    let registry = Registry::new().insert("te*".to_string(), 1).insert("text/*".to_string(), 2);
    assert_eq!(registry.resolve("text/*"), Some(&2));
    assert_eq!(registry.get("text/*"), Some(&2));
    assert_eq!(registry.get("text/plain"), None);
}

#[test]
fn first_matching_pattern_in_registration_order_wins() {
    let narrow_first = Registry::new().insert("text/h*".to_string(), 1).insert("text/*".to_string(), 2);
    assert_eq!(narrow_first.resolve("text/html"), Some(&1));
    assert_eq!(narrow_first.resolve("text/css"), Some(&2));
    let wide_first = Registry::new().insert("text/*".to_string(), 2).insert("text/h*".to_string(), 1);
    assert_eq!(wide_first.resolve("text/html"), Some(&2));
}

#[test]
fn patterns_follow_glob_rules() {
    let registry = Registry::new()
        .insert("http?".to_string(), 1)
        .insert("{gemini,gopher}".to_string(), 2)
        .insert("[a-f]tp".to_string(), 3);
    assert_eq!(registry.resolve("https"), Some(&1));
    assert_eq!(registry.resolve("http"), None);
    assert_eq!(registry.resolve("gopher"), Some(&2));
    assert_eq!(registry.resolve("ftp"), Some(&3));
    assert_eq!(registry.resolve("HTTPS"), None);
    let star = Registry::new().insert("*".to_string(), 1);
    assert_eq!(star.resolve("text"), Some(&1));
    assert_eq!(star.resolve("text/plain"), None);
}

#[test]
fn registering_a_key_again_keeps_its_place() {
    let registry = Registry::new()
        .insert("text/*".to_string(), 1)
        .insert("text/h*".to_string(), 2)
        .insert("text/*".to_string(), 3);
    assert_eq!(registry.len(), 2);
    assert_eq!(registry.get("text/*"), Some(&3));
    assert_eq!(registry.resolve("text/html"), Some(&3));
}

#[test]
fn nothing_resolves_in_an_empty_registry() {
    let registry: Registry<u8> = Registry::new();
    assert_eq!(registry.len(), 0);
    assert_eq!(registry.resolve("anything"), None);
    assert_eq!(registry.get(""), None);
}

fn requester<'a>(any_text: &'a dyn Input, plain: &'a dyn Input) -> Requester<'a, &'static str> {
    RequesterBuilder::default()
        .protocol("http", "http fetcher")
        .protocol("gem*", "gemini fetcher")
        .input("text/*", any_text)
        .input("text/plain", plain)
        .build()
}

#[test]
fn route_names_the_fetcher_of_the_scheme() {
    let (any_text, plain) = (tagged("any text"), tagged("plain"));
    let r = requester(&any_text, &plain);
    let route = r.route("http://example.org/index.html").ok().unwrap();
    assert_eq!(*route.handler, "http fetcher");
    assert_eq!(route.locator.scheme, "http");
    assert_eq!(route.locator.url.as_str(), "http://example.org/index.html");
    let route = r.route("gemini://example.org/").ok().unwrap();
    assert_eq!(*route.handler, "gemini fetcher");
}

#[test]
fn route_reads_the_scheme_as_the_parser_gives_it() {
    let (any_text, plain) = (tagged("any text"), tagged("plain"));
    let r = requester(&any_text, &plain);
    let route = r.route("HTTP://EXAMPLE.org").ok().unwrap();
    assert_eq!(*route.handler, "http fetcher");
    assert_eq!(route.locator.scheme, "http");
}

#[test]
fn route_fails_for_a_scheme_without_fetcher() {
    let (any_text, plain) = (tagged("any text"), tagged("plain"));
    let r = requester(&any_text, &plain);
    assert_eq!(r.route("ftp://example.org/").err(), Some(Error::UnsupportedProtocol));
    assert_eq!(r.route("https://example.org/").err(), Some(Error::UnsupportedProtocol));
    let empty: Requester<'_, u8> = Requester::default();
    assert_eq!(empty.route("http://example.org/").err(), Some(Error::UnsupportedProtocol));
}

#[test]
fn route_fails_for_what_is_no_locator() {
    let (any_text, plain) = (tagged("any text"), tagged("plain"));
    let r = requester(&any_text, &plain);
    assert_eq!(r.route("no scheme here").err(), Some(Error::InvalidUrl));
    assert_eq!(r.route("").err(), Some(Error::InvalidUrl));
    assert_eq!(r.route("http://[::1").err(), Some(Error::InvalidUrl));
}

#[test]
fn resolve_fetcher_and_converter() {
    let (any_text, plain) = (tagged("any text"), tagged("plain"));
    let r = requester(&any_text, &plain);
    assert_eq!(r.resolve_fetcher("http"), Ok(&"http fetcher"));
    assert_eq!(r.resolve_fetcher("gemlog"), Ok(&"gemini fetcher"));
    assert_eq!(r.resolve_fetcher("file"), Err(Error::UnsupportedProtocol));
    assert!(r.resolve_converter("text/plain").is_ok());
    assert_eq!(r.resolve_converter("image/png").err(), Some(Error::UnsupportedInput));
}

#[test]
fn response_goes_to_the_converter_of_its_content_type() {
    let (any_text, plain) = (tagged("any text"), tagged("plain"));
    let r = requester(&any_text, &plain);
    let plain = Response { data: ResponseData::TextOutput("x".to_string()), mime: "text/plain".to_string() };
    assert_eq!(title_of(r.process_response(Ok(plain), None)), Some("plain".to_string()));
    let html = Response { data: ResponseData::TextOutput("x".to_string()), mime: "text/html".to_string() };
    assert_eq!(title_of(r.convert(html, None)), Some("any text".to_string()));
}

#[test]
fn response_payload_kind_picks_the_entry_point() {
    let (any_text, plain) = (tagged("any text"), tagged("plain"));
    let r = requester(&any_text, &plain);
    let text = Response { data: ResponseData::TextOutput("abc".to_string()), mime: "text/plain".to_string() };
    let doc = r.convert(text, None).unwrap();
    assert_eq!(doc.body.len(), 1);
    assert_eq!(doc.description, None);
    let bytes = Response { data: ResponseData::BitsOutput(vec![1, 2, 3]), mime: "text/plain".to_string() };
    let doc = r.convert(bytes, None).unwrap();
    assert_eq!(doc.description, Some("3 bytes".to_string()));
}

#[test]
fn response_hands_the_locator_to_the_converter() {
    let (any_text, plain) = (tagged("any text"), tagged("plain"));
    let r = requester(&any_text, &plain);
    let url = Url::parse("http://example.org/a").unwrap();
    let text = Response { data: ResponseData::TextOutput("abc".to_string()), mime: "text/plain".to_string() };
    let doc = r.process_response(Ok(text), Some(&url)).unwrap();
    assert_eq!(doc.description, Some("http://example.org/a".to_string()));
}

#[test]
fn response_without_converter_is_unsupported_input() {
    let (any_text, plain) = (tagged("any text"), tagged("plain"));
    let r = requester(&any_text, &plain);
    let png = Response { data: ResponseData::BitsOutput(vec![0x89]), mime: "image/png".to_string() };
    assert_eq!(r.process_response(Ok(png), None), Err(Error::UnsupportedInput));
}

#[test]
fn fetch_failure_is_handed_on_unchanged() {
    let (any_text, plain) = (tagged("any text"), tagged("plain"));
    let r = requester(&any_text, &plain);
    assert_eq!(r.process_response(Err(Error::NotFound), None), Err(Error::NotFound));
    assert_eq!(
        r.process_response(Err(Error::IoError("reset".to_string())), None),
        Err(Error::IoError("reset".to_string()))
    );
    assert_eq!(r.process_response(Err(Error::UnknownStatus(418)), None), Err(Error::UnknownStatus(418)));
}

#[test]
fn converter_failure_is_handed_on_unchanged() {
    let r: Requester<'_, u8> = RequesterBuilder::default().input("text/plain", &TextInput).build();
    assert_eq!(r.process_bytes("text/plain", vec![1]), Err(Error::UnsupportedInput));
}

#[test]
fn payload_in_hand_is_converted_without_a_fetch() {
    let (any_text, plain) = (tagged("any text"), tagged("plain"));
    let r = requester(&any_text, &plain);
    assert_eq!(title_of(r.process_text("text/plain", "x".to_string())), Some("plain".to_string()));
    assert_eq!(title_of(r.process_text("text/markdown", "x".to_string())), Some("any text".to_string()));
    assert_eq!(r.process_text("application/json", "{}".to_string()), Err(Error::UnsupportedInput));
    assert_eq!(title_of(r.process_bytes("text/plain", vec![1])), Some("plain".to_string()));
    assert_eq!(r.process_bytes("image/png", vec![1]), Err(Error::UnsupportedInput));
}

#[test]
fn library_converters_work_through_the_requester() {
    let r: Requester<'_, u8> = RequesterBuilder::default()
        .input("text/gemini", &GemtextInput)
        .input("text/*", &TextInput)
        .build();
    let doc = r.process_text("text/gemini", "# T".to_string()).unwrap();
    assert_eq!(doc.title, Some("T".to_string()));
    let doc = r.process_text("text/csv", "a,b".to_string()).unwrap();
    assert_eq!(doc.body, vec![Block::Preformatted { text: "a,b".to_string() }]);
}

#[test]
fn plugin_applies_the_registrar() {
    let html = tagged("html");
    let r = RequesterBuilder::default()
        .protocol("http", 1)
        .plugin(|b| b.protocol("gemini", 2).input("text/html", &html))
        .build();
    assert_eq!(r.resolve_fetcher("gemini"), Ok(&2));
    assert_eq!(r.resolve_fetcher("http"), Ok(&1));
    assert_eq!(title_of(r.process_text("text/html", String::new())), Some("html".to_string()));
}

#[test]
fn standard_set_of_registrations() {
    let markdown = tagged("markdown");
    let r = requester_plugins(
        RequesterBuilder::default(),
        "http",
        "https",
        "gemini",
        &GemtextInput,
        &markdown,
        &TextInput,
    )
    .build();
    assert_eq!(r.resolve_fetcher("http"), Ok(&"http"));
    assert_eq!(r.resolve_fetcher("https"), Ok(&"https"));
    assert_eq!(r.resolve_fetcher("gemini"), Ok(&"gemini"));
    assert_eq!(r.resolve_fetcher("ftp"), Err(Error::UnsupportedProtocol));
    assert_eq!(title_of(r.process_text("text/markdown", String::new())), Some("markdown".to_string()));
    assert_eq!(title_of(r.process_text("text/x-markdown", String::new())), Some("markdown".to_string()));
    assert_eq!(title_of(r.process_text("text/gemini", "# G".to_string())), Some("G".to_string()));
    let plain = r.process_text("text/plain", "p".to_string()).unwrap();
    assert_eq!(plain.body, vec![Block::Preformatted { text: "p".to_string() }]);
    let other = r.process_text("text/css", "c".to_string()).unwrap();
    assert_eq!(other.body, vec![Block::Preformatted { text: "c".to_string() }]);
    assert_eq!(r.process_text("image/png", String::new()), Err(Error::UnsupportedInput));
}

#[test]
fn odd_patterns_are_keys_like_any_other() {
    let patterns = [
        "[", "]", "[a", "[!", "[a-", "{", "}", "{a", "{a,", "a}", "\\", "a\\", "{{{{{{{{{{{a}}}}}}}}}}}",
        "{{{{{{{{{{{{{{{{{{{{", ",", "{,}", "{,,,}", "**", "***", "**/", "/**", "a/**/b", "!", "!!", "!!!a",
        "[]", "[]]", "[^]", "{[}", "{]}", "{a,b}{c,d}{e,f}", "*{a,b}*", "?{", "*[", "{*", "{a,{b,{c,{d}}}}",
        "", "\u{e9}*", "*\u{e9}", "[\u{e9}]", "{\u{e9},\u{65e5}}",
    ];
    let targets = ["", "a", "abc", "text/plain", "a/b/c", "{", "[", "\\", "\u{e9}", "\u{65e5}\u{672c}", "!a"];
    let mut registry: Registry<usize> = Registry::new();
    for (i, pattern) in patterns.iter().enumerate() {
        registry = registry.insert(pattern.to_string(), i);
    }
    for target in targets {
        let found = registry.resolve(target);
        if let Some(i) = found {
            assert!(*i < patterns.len());
        }
    }
    let brace = patterns.iter().position(|p| *p == "{").unwrap();
    let empty = patterns.iter().position(|p| p.is_empty()).unwrap();
    assert_eq!(registry.resolve("{"), Some(&brace));
    assert_eq!(registry.resolve(""), Some(&empty));
    assert_eq!(registry.len(), patterns.len());
}
