use docreader::epub::{decode_entities_of, is_block_tag_name, strip_html_to_paragraphs, tag_base_of};
use docreader::error::RenderError;
use docreader::fb2::{paragraphs_from_events, parse_paragraphs, Fb2Parser, XmlEvent};
use docreader::text::{
    from_chars, matches_at, replace_all, skip_whitespace, skip_word, split_words, to_chars, trim,
};

fn chars(s: &str) -> Vec<char> {
    s.chars().collect()
}

#[test]
fn chars_and_back() {
    assert_eq!(to_chars("héllo"), chars("héllo"));
    assert_eq!(to_chars(""), Vec::<char>::new());
    let v = chars("héllo wörld");
    assert_eq!(from_chars(&v, 0, v.len()), "héllo wörld");
    assert_eq!(from_chars(&v, 6, 11), "wörld");
    assert_eq!(from_chars(&v, 3, 3), "");
}

#[test]
fn trim_is_the_trim_of_std() {
    for s in ["", " ", "a", "  a b  ", "\t\n x \r\n", "\u{a0}x\u{3000}", "x\u{2003}\u{2003}", "\u{feff}x"] {
        assert_eq!(trim(s), s.trim());
    }
}

#[test]
fn split_words_is_split_whitespace() {
    for s in ["", "   ", "one", " one  two\tthree\n", "a\u{a0}b", "x \u{2028} y", "trailing "] {
        let expected: Vec<String> = s.split_whitespace().map(|w| w.to_string()).collect();
        assert_eq!(split_words(s), expected);
    }
}

#[test]
fn skipping_stops_where_it_says() {
    let v = chars("  ab  c");
    assert_eq!(skip_whitespace(&v, 0), 2);
    assert_eq!(skip_whitespace(&v, 2), 2);
    assert_eq!(skip_word(&v, 2), 4);
    assert_eq!(skip_word(&v, 4), 4);
    assert_eq!(skip_whitespace(&v, 4), 6);
    assert_eq!(skip_word(&v, 6), 7);
    assert_eq!(skip_whitespace(&v, 7), 7);
    assert_eq!(skip_word(&v, 7), 7);
}

#[test]
fn replace_all_is_the_replace_of_std() {
    for (s, p, w) in [
        ("a&amp;b&amp;", "&amp;", "&"),
        ("aaaa", "aa", "b"),
        ("aaa", "aa", "b"),
        ("abc", "x", "y"),
        ("", "x", "y"),
        ("xx", "x", ""),
        ("ab", "abc", "z"),
        ("ababab", "ab", "abab"),
    ] {
        let got: String = replace_all(&chars(s), &chars(p), &chars(w)).into_iter().collect();
        assert_eq!(got, s.replace(p, w));
    }
}

#[test]
fn matches_at_examples() {
    let v = chars("hello");
    assert!(matches_at(&v, 0, &chars("he")));
    assert!(matches_at(&v, 3, &chars("lo")));
    assert!(!matches_at(&v, 4, &chars("lo")));
    assert!(matches_at(&v, 5, &chars("")));
    assert!(!matches_at(&v, 1, &chars("he")));
}

#[test]
fn entities_are_resolved_one_kind_after_the_other() {
    assert_eq!(decode_entities_of("a &amp; b"), "a & b");
    assert_eq!(decode_entities_of("&lt;p&gt; &quot;x&quot; &apos;y&apos;"), "<p> \"x\" 'y'");
    assert_eq!(decode_entities_of("a&nbsp;b"), "a b");
    // The ampersand is resolved first, so what it leaves is resolved again.
    assert_eq!(decode_entities_of("&amp;lt;"), "<");
    assert_eq!(decode_entities_of("&amp;amp;"), "&amp;");
    assert_eq!(decode_entities_of("&unknown; &#65;"), "&unknown; &#65;");
}

#[test]
fn tag_names_are_lowered_and_cut_at_whitespace() {
    assert_eq!(tag_base_of("p"), "p");
    assert_eq!(tag_base_of("/P"), "p");
    assert_eq!(tag_base_of("DIV class=\"x\""), "div");
    assert_eq!(tag_base_of("//  h1\tid=a"), "h1");
    assert_eq!(tag_base_of("br/"), "br/");
    assert_eq!(tag_base_of("br /"), "br");
    assert_eq!(tag_base_of(""), "");
    assert_eq!(tag_base_of("/"), "");
    assert!(is_block_tag_name("blockquote"));
    assert!(is_block_tag_name("h6"));
    assert!(is_block_tag_name("tr"));
    assert!(!is_block_tag_name("span"));
    assert!(!is_block_tag_name("h7"));
    assert!(!is_block_tag_name("P"));
    assert!(!is_block_tag_name(""));
}

#[test]
fn html_is_split_at_block_tags() {
    assert_eq!(
        strip_html_to_paragraphs("<html><body><h1>Title</h1><p>First <b>bold</b> text.</p><p>Second</p></body></html>"),
        vec!["Title", "First bold text.", "Second"]
    );
    assert_eq!(strip_html_to_paragraphs("<p>World &amp; all</p>"), vec!["World & all"]);
    assert_eq!(strip_html_to_paragraphs("no tags at all "), vec!["no tags at all"]);
    assert_eq!(strip_html_to_paragraphs(""), Vec::<String>::new());
    assert_eq!(strip_html_to_paragraphs("<p>  </p><div></div>"), Vec::<String>::new());
    assert_eq!(strip_html_to_paragraphs("<P CLASS='x'>a</P><LI>b</LI>"), vec!["a", "b"]);
}

#[test]
fn html_oddities_are_taken_as_they_come() {
    // A self-closing break without a space is no block tag.
    assert_eq!(strip_html_to_paragraphs("<div>a<br/>b</div>"), vec!["ab"]);
    assert_eq!(strip_html_to_paragraphs("<div>a<br />b</div>"), vec!["a", "b"]);
    // A greater-than sign outside a tag is text.
    assert_eq!(strip_html_to_paragraphs("1 > 0<p>x"), vec!["1 > 0", "x"]);
    // A less-than sign opens a tag wherever it stands.
    assert_eq!(strip_html_to_paragraphs("a < b<p>c</p>"), vec!["a", "c"]);
    // A tag that is never closed swallows the rest.
    assert_eq!(strip_html_to_paragraphs("a<p"), vec!["a"]);
    // An entity that resolves to a space leaves the paragraph in place.
    assert_eq!(strip_html_to_paragraphs("<p>&nbsp;</p>"), vec![" "]);
}

fn start(name: &str) -> XmlEvent {
    XmlEvent::Start(name.to_string())
}

fn end(name: &str) -> XmlEvent {
    XmlEvent::End(name.to_string())
}

fn text(t: &str) -> XmlEvent {
    XmlEvent::Text(Some(t.to_string()))
}

#[test]
fn events_make_paragraphs_inside_the_body() {
    let events = vec![
        start("FictionBook"),
        start("description"),
        start("p"),
        text("not in the body"),
        end("p"),
        end("description"),
        start("body"),
        start("section"),
        start("title"),
        text(" A title "),
        end("title"),
        start("p"),
        text("  Hello "),
        start("emphasis"),
        text("brave"),
        end("emphasis"),
        text("world  "),
        end("p"),
        start("empty-line"),
        end("empty-line"),
        start("p"),
        text("   "),
        end("p"),
        XmlEvent::Other,
        XmlEvent::Text(None),
        end("section"),
        end("body"),
        start("p"),
        text("after the body"),
        end("p"),
        XmlEvent::Eof,
        start("body"),
        start("p"),
        text("after the end"),
        end("p"),
    ];
    assert_eq!(
        paragraphs_from_events(&events),
        Ok(vec!["A title".to_string(), "Hello brave world".to_string(), "".to_string()])
    );
}

#[test]
fn events_stop_at_the_first_malformed_piece() {
    let events = vec![
        start("body"),
        start("p"),
        text("x"),
        end("p"),
        XmlEvent::Malformed("bad".to_string()),
        XmlEvent::Eof,
    ];
    assert_eq!(paragraphs_from_events(&events), Err("bad".to_string()));
    assert_eq!(paragraphs_from_events(&Vec::new()), Ok(Vec::new()));
    assert_eq!(
        paragraphs_from_events(&vec![start("body"), start("p"), text("open")]),
        Ok(Vec::new())
    );
}

#[test]
fn a_text_block_that_opens_again_starts_anew() {
    let mut parser = Fb2Parser::new();
    for event in [start("body"), start("p"), text("lost"), start("title"), text("kept"), end("p")] {
        parser.feed(&event);
    }
    // The closing tag that follows finds no open block.
    parser.feed(&end("title"));
    assert_eq!(parser.finish(), vec!["kept"]);
}

#[test]
fn fb2_is_read_through_the_xml_reader() {
    let book = "<?xml version=\"1.0\" encoding=\"utf-8\"?>\n<FictionBook><description><title-info><p>skip</p></title-info></description>\
<body><section><title><p>The Title</p></title><p>Hello <emphasis>brave</emphasis> world</p>\
<empty-line/><p>Fish &amp; chips &lt;now&gt;</p><!-- note --><p>Привет</p></section></body></FictionBook>";
    assert_eq!(
        parse_paragraphs(book.as_bytes()).unwrap(),
        vec!["The Title", "Hello brave world", "Fish & chips <now>", "Привет"]
    );
}

#[test]
fn fb2_empty_line_written_in_two_tags_is_an_empty_paragraph() {
    let book = "<body><p>a</p><empty-line></empty-line><p>b</p></body>";
    assert_eq!(parse_paragraphs(book.as_bytes()).unwrap(), vec!["a", "", "b"]);
    assert_eq!(parse_paragraphs(b"").unwrap(), Vec::<String>::new());
    assert_eq!(parse_paragraphs(b"<body/>").unwrap(), Vec::<String>::new());
}

#[test]
fn fb2_text_with_an_unknown_entity_is_left_out() {
    let book = "<body><p>a &bogus; b</p><p>c</p></body>";
    assert_eq!(parse_paragraphs(book.as_bytes()).unwrap(), vec!["c"]);
}

#[test]
fn fb2_that_is_not_utf8_is_a_decode_error() {
    match parse_paragraphs(&[0x3c, 0x70, 0x3e, 0xff, 0xfe]) {
        Err(RenderError::Decode(message)) => {
            assert_eq!(message, "FB2 файл не является валидным UTF-8")
        }
        other => panic!("{:?}", other),
    }
}

#[test]
fn fb2_with_malformed_markup_is_a_parse_error() {
    match parse_paragraphs(b"<body><p>text</b></body>") {
        Err(RenderError::Parse(message)) => assert!(!message.is_empty()),
        other => panic!("{:?}", other),
    }
    match parse_paragraphs(b"<body><p>text</p") {
        Err(RenderError::Parse(_)) => {}
        other => panic!("{:?}", other),
    }
}

fn has_white_space(c: char) -> bool {
    matches!(
        c as u32,
        0x9..=0xd | 0x20 | 0x85 | 0xa0 | 0x1680 | 0x2000..=0x200a | 0x2028 | 0x2029 | 0x202f | 0x205f | 0x3000
    )
}

#[test]
fn whitespace_is_the_white_space_of_unicode() {
    let mut count = 0;
    for code in 0..=0x10ffffu32 {
        if let Some(c) = char::from_u32(code) {
            let text = c.to_string();
            assert_eq!(trim(&text).is_empty(), has_white_space(c), "U+{:04X}", code);
            assert_eq!(split_words(&text).is_empty(), has_white_space(c), "U+{:04X}", code);
            if has_white_space(c) {
                count += 1;
            }
        }
    }
    assert_eq!(count, 25);
}

#[test]
fn text_is_trimmed_and_split_at_every_kind_of_whitespace() {
    assert_eq!(trim("\u{2003}\u{a0} a\u{3000}b \u{85}\u{1680}"), "a\u{3000}b");
    assert_eq!(split_words("a\u{2028}b\u{205f}\u{200a}c\u{b}d"), vec!["a", "b", "c", "d"]);
    // A zero width space and a word joiner are no whitespace.
    assert_eq!(split_words("a\u{200b}b\u{2060}c\u{feff}d\u{180e}e"), vec!["a\u{200b}b\u{2060}c\u{feff}d\u{180e}e"]);
}
