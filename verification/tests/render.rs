use shiba_preview::content::MarkdownContent;
use shiba_preview::events::{events_ok, Alignment, LinkKind, MdEvent, MdTag, MdTagEnd};
use shiba_preview::render::{encode_string_content, write_render_tree};
use shiba_preview::renderer::{MarkdownParser, RawMessageWriter};
use shiba_preview::config::SearchMatcher;
use shiba_preview::search::{DisplayText, PlainText};
use std::ops::Range;

type Ev = (MdEvent, Range<usize>);

fn ev(e: MdEvent, r: Range<usize>) -> Ev {
    (e, r)
}

fn text(s: &str, start: usize) -> Ev {
    (MdEvent::Text(s.to_string()), start..start + s.len())
}

fn render(events: &[Ev], base_dir: &str, offset: Option<usize>) -> String {
    assert!(events_ok(events));
    let (out, _) = write_render_tree(events, base_dir, offset, PlainText);
    String::from_utf8(out).unwrap()
}

fn tree(body: &str) -> String {
    format!(r#"JSON.parse('{{"kind":"render_tree","tree":[{body}]}}')"#)
}

fn para(events: Vec<Ev>, range: Range<usize>) -> Vec<Ev> {
    let mut v = vec![ev(MdEvent::Start(MdTag::Paragraph), range.clone())];
    v.extend(events);
    v.push(ev(MdEvent::End(MdTagEnd::Paragraph), range));
    v
}

#[test]
fn paragraph_of_text() {
    let events = para(vec![text("Hello", 0)], 0..5);
    assert_eq!(render(&events, "", None), tree(r#"{"t":"p","c":["Hello"]}"#));
}

#[test]
fn empty_document() {
    assert_eq!(render(&[], "", None), tree(""));
}

#[test]
fn strings_are_escaped_for_json_inside_javascript() {
    let events = para(vec![text("it's \"x\"\\\n", 0)], 0..11);
    assert_eq!(
        render(&events, "", None),
        tree(r#"{"t":"p","c":["it\'s \\"x\\"\\\\\\n"]}"#),
    );
}

#[test]
fn control_characters_are_written_as_unicode_escapes() {
    let events = para(vec![text("a\u{1b}b", 0)], 0..3);
    assert_eq!(render(&events, "", None), tree(r#"{"t":"p","c":["a\\u001bb"]}"#));
}

#[test]
fn emoji_shortcodes_become_emoji() {
    let events = para(vec![text("hello :dog: world :cat: nyan", 0)], 0..28);
    assert_eq!(
        render(&events, "", None),
        tree(&[
            r#"{"t":"p","c":["hello ",{"t":"emoji","name":"dog face","c":["🐶"]}," world ","#,
            r#"{"t":"emoji","name":"cat face","c":["🐱"]}," nyan"]}"#,
        ].concat()),
    );
}

#[test]
fn emoji_tokenizer() {
    for (input, expected) in [
        (":dog:", r#"{"t":"emoji","name":"dog face","c":["🐶"]}"#),
        (":+1:", r#"{"t":"emoji","name":"thumbs up","c":["👍"]}"#),
        (":dog::cat:", r#"{"t":"emoji","name":"dog face","c":["🐶"]},{"t":"emoji","name":"cat face","c":["🐱"]}"#),
        ("dog:", r#""dog",":""#),
        (":dog", r#"":dog""#),
        (":this-is-not-an-emoji:", r#"":this-is-not-an-emoji",":""#),
        (
            ":not-emoji:not-emoji:dog:",
            r#"":not-emoji",":not-emoji",{"t":"emoji","name":"dog face","c":["🐶"]}"#,
        ),
        ("::::", r#"":",":",":",":""#),
        ("hello, world", r#""hello, world""#),
    ] {
        let events = para(vec![text(input, 0)], 0..input.len());
        let want = tree(&format!(r#"{{"t":"p","c":[{expected}]}}"#));
        assert_eq!(render(&events, "", None), want, "input={input:?}");
    }
}

#[test]
fn urls_in_text_become_links() {
    let events = para(vec![text("see https://example.com now", 0)], 0..27);
    assert_eq!(
        render(&events, "", None),
        tree(&[
            r#"{"t":"p","c":["see ",{"t":"a","auto":true,"href":"https://example.com","#,
            r#""c":["https://example.com"]}," now"]}"#,
        ].concat()),
    );
}

#[test]
fn text_inside_link_is_not_linked_again() {
    let events = para(
        vec![
            ev(MdEvent::Start(MdTag::Link(LinkKind::Other, "https://a.com".to_string(), String::new())), 0..30),
            text("https://b.com", 1),
            ev(MdEvent::End(MdTagEnd::Link), 0..30),
        ],
        0..30,
    );
    assert_eq!(
        render(&events, "", None),
        tree(r#"{"t":"p","c":[{"t":"a","href":"https://a.com","c":["https://b.com"]}]}"#),
    );
}

#[test]
fn relative_links_are_rebased() {
    let events = para(
        vec![
            ev(MdEvent::Start(MdTag::Link(LinkKind::Other, "foo.md".to_string(), "T".to_string())), 0..12),
            text("foo", 1),
            ev(MdEvent::End(MdTagEnd::Link), 0..12),
            ev(MdEvent::Start(MdTag::Image("/img.png".to_string(), String::new())), 12..24),
            ev(MdEvent::End(MdTagEnd::Image), 12..24),
            ev(MdEvent::Start(MdTag::Link(LinkKind::Email, "a@b.c".to_string(), String::new())), 24..31),
            ev(MdEvent::End(MdTagEnd::Link), 24..31),
        ],
        0..31,
    );
    assert_eq!(
        render(&events, "/a/b", None),
        tree(&[
            r#"{"t":"p","c":[{"t":"a","href":"/a/b/foo.md","title":"T","c":["foo"]},"#,
            r#"{"t":"img","src":"/a/b/img.png","c":[]},{"t":"a","href":"mailto:a@b.c","c":[]}]}"#,
        ].concat()),
    );
}

#[test]
fn modified_marker_splits_text() {
    let events = para(vec![text("Hello", 0)], 0..5);
    assert_eq!(
        render(&events, "", Some(2)),
        tree(r#"{"t":"p","c":["He",{"t":"modified"},"llo"]}"#),
    );
    assert_eq!(render(&events, "", Some(0)), tree(r#"{"t":"p","c":[{"t":"modified"},"Hello"]}"#));
}

#[test]
fn modified_marker_after_all_text_goes_last() {
    let events = para(vec![text("Hello", 0)], 0..5);
    assert_eq!(
        render(&events, "", Some(10000000)),
        tree(r#"{"t":"p","c":["Hello"]},{"t":"modified"}"#),
    );
}

#[test]
fn code_blocks_and_spans() {
    let events = vec![
        ev(MdEvent::Start(MdTag::CodeBlock(Some("rust ignore".to_string()))), 0..20),
        text("let x = https://a;\n", 8),
        ev(MdEvent::End(MdTagEnd::CodeBlock), 0..20),
        ev(MdEvent::Start(MdTag::Paragraph), 20..27),
        ev(MdEvent::Code("ab".to_string()), 20..26),
        ev(MdEvent::End(MdTagEnd::Paragraph), 20..27),
    ];
    assert_eq!(
        render(&events, "", None),
        tree(&[
            r#"{"t":"pre","c":[{"t":"code","lang":"rust","c":["let x = https://a;\\n"]}]},"#,
            r#"{"t":"p","c":[{"t":"code","c":["ab"]}]}"#,
        ].concat()),
    );
}

#[test]
fn headings_lists_and_tables() {
    let events = vec![
        ev(MdEvent::Start(MdTag::Heading(2, None)), 0..5),
        text("H", 3),
        ev(MdEvent::End(MdTagEnd::Heading), 0..5),
        ev(MdEvent::Start(MdTag::List(Some(3))), 5..10),
        ev(MdEvent::Start(MdTag::Item), 5..10),
        ev(MdEvent::TaskListMarker(true), 8..11),
        text("x", 12),
        ev(MdEvent::End(MdTagEnd::Item), 5..10),
        ev(MdEvent::End(MdTagEnd::List), 5..10),
        ev(MdEvent::Start(MdTag::Table(vec![Alignment::Unset, Alignment::Left, Alignment::Right])), 20..40),
        ev(MdEvent::Start(MdTag::TableHead), 20..30),
        ev(MdEvent::Start(MdTag::TableCell), 20..22),
        ev(MdEvent::End(MdTagEnd::TableCell), 20..22),
        ev(MdEvent::End(MdTagEnd::TableHead), 20..30),
        ev(MdEvent::Start(MdTag::TableRow), 30..40),
        ev(MdEvent::Start(MdTag::TableCell), 30..32),
        ev(MdEvent::End(MdTagEnd::TableCell), 30..32),
        ev(MdEvent::End(MdTagEnd::TableRow), 30..40),
        ev(MdEvent::End(MdTagEnd::Table), 20..40),
    ];
    assert_eq!(
        render(&events, "", None),
        tree(&[
            r#"{"t":"h","level":2,"c":["H"]},"#,
            r#"{"t":"ol","start":3,"c":[{"t":"task-list","c":[{"t":"checkbox","checked":true},"x"]}]},"#,
            r#"{"t":"table","align":[null,"left","right"],"c":[{"t":"thead","c":[{"t":"tr","c":[{"t":"th","c":[]}]}]},"#,
            r#"{"t":"tbody","c":[{"t":"tr","c":[{"t":"td","c":[]}]}]}]}"#,
        ].concat()),
    );
}

#[test]
fn footnotes_keep_their_ids() {
    let events = vec![
        ev(MdEvent::FootnoteReference("a".to_string()), 0..4),
        ev(MdEvent::FootnoteReference("b".to_string()), 4..8),
        ev(MdEvent::Start(MdTag::FootnoteDefinition("a".to_string())), 8..12),
        ev(MdEvent::End(MdTagEnd::FootnoteDefinition), 8..12),
    ];
    assert_eq!(
        render(&events, "", None),
        tree(r#"{"t":"fn-ref","id":1},{"t":"fn-ref","id":2},{"t":"fn-def","name":"a","id":1,"c":[]}"#),
    );
}

#[test]
fn breaks_rules_and_math() {
    let events = vec![
        ev(MdEvent::HardBreak, 0..2),
        ev(MdEvent::Rule, 2..5),
        ev(MdEvent::InlineMath("x^2".to_string()), 5..10),
        ev(MdEvent::DisplayMath("y".to_string()), 10..15),
        text("a", 15),
        ev(MdEvent::SoftBreak, 16..18),
        text("b", 18),
    ];
    assert_eq!(
        render(&events, "", None),
        tree(&[
            r#"{"t":"br"},{"t":"hr"},{"t":"math","inline":true,"expr":"x^2"},"#,
            r#"{"t":"math","inline":false,"expr":"y"},"a"," ","b""#,
        ].concat()),
    );
}

#[test]
fn text_event_inside_html_block() {
    let events = vec![
        ev(MdEvent::Start(MdTag::HtmlBlock), 0..11),
        text(" ", 0),
        ev(MdEvent::Html("<p>foo</p>".to_string()), 1..11),
        ev(MdEvent::End(MdTagEnd::HtmlBlock), 0..11),
    ];
    let buf = render(&events, "", None);
    assert!(
        buf.contains(r#"{"t":"html","raw":" <p>foo</p>"}"#),
        "expected HTML block is not contained: {buf:?}",
    );
}

#[test]
fn inline_html_is_read_up_to_its_closing_tag_and_sanitized() {
    let events = para(
        vec![
            ev(MdEvent::InlineHtml("<span onclick=\"alert()\">".to_string()), 0..24),
            text("x", 24),
            ev(MdEvent::InlineHtml("</span>".to_string()), 25..32),
            text(" after", 32),
        ],
        0..38,
    );
    assert_eq!(
        render(&events, "", None),
        tree(r#"{"t":"p","c":[{"t":"html","raw":"<span>x</span>"}," after"]}"#),
    );
}

#[test]
fn scripts_are_removed_from_raw_html() {
    let events = vec![
        ev(MdEvent::Start(MdTag::HtmlBlock), 0..25),
        ev(MdEvent::Html("<script>alert()</script>".to_string()), 0..25),
        ev(MdEvent::End(MdTagEnd::HtmlBlock), 0..25),
    ];
    assert_eq!(render(&events, "", None), tree(r#"{"t":"html","raw":""}"#));
}

#[test]
fn relative_urls_in_raw_html_are_rebased() {
    let events = vec![
        ev(MdEvent::Start(MdTag::HtmlBlock), 0..30),
        ev(MdEvent::Html("<a href=\"foo/bar\">foo</a>".to_string()), 0..30),
        ev(MdEvent::End(MdTagEnd::HtmlBlock), 0..30),
    ];
    let buf = render(&events, "/a/b/c/d/e", None);
    assert!(buf.contains(r#"href=\\"/a/b/c/d/e/foo/bar\\""#), "{buf:?}");
}

#[test]
fn malformed_html_block_is_refused() {
    let events = vec![
        ev(MdEvent::Start(MdTag::HtmlBlock), 0..5),
        ev(MdEvent::Rule, 0..5),
        ev(MdEvent::End(MdTagEnd::HtmlBlock), 0..5),
    ];
    assert!(!events_ok(&events));
    assert!(!events_ok(&[ev(MdEvent::End(MdTagEnd::HtmlBlock), 0..1)]));
}

#[test]
fn parser_writes_tree_and_collects_text() {
    let content = MarkdownContent::new("Hello".to_string(), Some("/docs"));
    let events = para(vec![text("Hello", 0)], 0..5);
    let parser = MarkdownParser::with_events(&content, events, None, PlainText);
    let (out, text) = parser.write_to();
    assert_eq!(String::from_utf8(out).unwrap(), tree(r#"{"t":"p","c":["Hello"]}"#));
    assert_eq!(text.raw_text(), "Hello");
    assert_eq!(text.sourcemap(), &[0..5]);
}

#[test]
fn search_matches_are_marked() {
    let mut t = DisplayText::new();
    t.visit(b"ab ab", &(0..5));
    let matches = t.search("ab", SearchMatcher::CaseSensitive).unwrap();
    let tokenizer = matches.tokenizer(Some(1)).unwrap();
    let events = para(vec![text("ab ab", 0)], 0..5);
    let (out, _) = write_render_tree(&events, "", None, tokenizer);
    assert_eq!(
        String::from_utf8(out).unwrap(),
        tree(&[
            r#"{"t":"p","c":[{"t":"match-start","c":["ab"]}," ","#,
            r#"{"t":"match-current-start","c":["ab"]}]}"#,
        ].concat()),
    );
}

#[test]
fn parser_parses_the_document_itself() {
    let content = MarkdownContent::new("Hello".to_string(), Some("/docs"));
    let parser = MarkdownParser::new(&content, None, PlainText).unwrap();
    let (out, text) = parser.write_to();
    assert_eq!(String::from_utf8(out).unwrap(), tree(r#"{"t":"p","c":["Hello"]}"#));
    assert_eq!(text.raw_text(), "Hello");
    assert_eq!(text.sourcemap(), &[0..5]);
}

#[test]
fn parser_renders_github_flavored_markdown() {
    let source = "# Title\n\n- [x] done\n\n| a |\n|---|\n| b |\n\n~~gone~~ `code`\n";
    let content = MarkdownContent::new(source.to_string(), None);
    let (out, _) = MarkdownParser::new(&content, None, PlainText).unwrap().write_to();
    let out = String::from_utf8(out).unwrap();
    for element in [r#""t":"h","level":1"#, r#""t":"task-list""#, r#""t":"table""#, r#""t":"del""#, r#""t":"code""#] {
        assert!(out.contains(element), "{element} in {out}");
    }
}

#[test]
fn parsed_events_can_be_rendered() {
    let events = shiba_preview::cmark::parse_markdown("> [!NOTE]\n> x\n\n<div>\n<b>y</b>\n</div>\n\n$a$ [^1]\n\n[^1]: z\n");
    assert!(events_ok(&events));
}

#[test]
fn literal_search_finds_leftmost_occurrences_without_overlap() {
    let mut t = DisplayText::new();
    t.visit(b"aaaa ab Ab AB", &(0..13));
    let ms = t.search("aa", SearchMatcher::CaseSensitive).unwrap();
    assert_eq!(ms.len(), 2);
    let ms = t.search("ab", SearchMatcher::SmartCase).unwrap();
    assert_eq!(ms.len(), 3);
    let ms = t.search("Ab", SearchMatcher::SmartCase).unwrap();
    assert_eq!(ms.len(), 1);
    let ms = t.search("ab", SearchMatcher::CaseSensitive).unwrap();
    assert_eq!(ms.len(), 1);
}

#[test]
fn string_content_escapes_each_byte() {
    let mut out = b"x".to_vec();
    encode_string_content(&mut out, b"a\\b'c\"d\x08\t\n\x0c\r\x01\x7f\x1f\xe3");
    let mut expected = b"xa".to_vec();
    expected.extend_from_slice(b"\\\\\\\\b\\'c\\\\\"d");
    expected.extend_from_slice(b"\\\\b\\\\t\\\\n\\\\f\\\\r");
    expected.extend_from_slice(b"\\\\u0001\\\\u007f\\\\u001f\xe3");
    assert_eq!(out, expected);

    let mut empty = Vec::new();
    encode_string_content(&mut empty, b"");
    assert!(empty.is_empty());
}
