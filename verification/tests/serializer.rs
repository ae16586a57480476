use shiba_preview::events::{LinkKind, MdEvent, MdTag, MdTagEnd};
use shiba_preview::renderer::{parse_local_path_from_url, InitScroll};
use shiba_preview::search::PlainText;
use shiba_preview::serializer::{ser_events_ok, serialize_render_tree};
use std::ops::Range;

type Ev = (MdEvent, Range<usize>);

fn ev(e: MdEvent, r: Range<usize>) -> Ev {
    (e, r)
}

fn text(s: &str, start: usize) -> Ev {
    (MdEvent::Text(s.to_string()), start..start + s.len())
}

fn serialize(events: &[Ev], offset: Option<usize>) -> String {
    assert!(ser_events_ok(events));
    let (out, _) = serialize_render_tree(events, offset, PlainText);
    String::from_utf8(out).unwrap()
}

fn tree(body: &str) -> String {
    format!(r#"'{{"kind":"render_tree","tree":[{body}]}}'"#)
}

#[test]
fn serialized_paragraph() {
    let events = vec![
        ev(MdEvent::Start(MdTag::Heading(1, Some("intro".to_string()))), 0..9),
        text("Intro", 2),
        ev(MdEvent::End(MdTagEnd::Heading), 0..9),
        ev(MdEvent::Start(MdTag::Paragraph), 9..20),
        text("a", 9),
        ev(MdEvent::SoftBreak, 10..11),
        text("b", 11),
        ev(MdEvent::End(MdTagEnd::Paragraph), 9..20),
    ];
    assert_eq!(
        serialize(&events, None),
        tree(r#"{"t":"h","level":1,"id":"intro","c":["Intro"]},{"t":"p","c":["a","\\n","b"]}"#),
    );
}

#[test]
fn serialized_links_keep_their_destinations() {
    let events = vec![
        ev(MdEvent::Start(MdTag::Link(LinkKind::Other, "foo.md".to_string(), String::new())), 0..12),
        text("foo", 1),
        ev(MdEvent::End(MdTagEnd::Link), 0..12),
        ev(MdEvent::Start(MdTag::Link(LinkKind::Email, "a@b.c".to_string(), String::new())), 12..19),
        ev(MdEvent::End(MdTagEnd::Link), 12..19),
    ];
    assert_eq!(
        serialize(&events, None),
        tree(r#"{"t":"a","href":"foo.md","c":["foo"]},{"t":"a","href":"mailto:a@b.c","c":[]}"#),
    );
}

#[test]
fn serialized_urls_are_linked_after_letters_too() {
    let events = vec![text("foohttp://aaa.com", 0)];
    assert_eq!(
        serialize(&events, None),
        tree(r#""foo",{"t":"a","auto":true,"href":"http://aaa.com","c":["http://aaa.com"]}"#),
    );
}

#[test]
fn serialized_html_is_joined_and_kept() {
    let events = vec![
        ev(MdEvent::Html("<div>\n".to_string()), 0..6),
        ev(MdEvent::Html("<script>x</script>\n".to_string()), 6..25),
        ev(MdEvent::Rule, 25..28),
    ];
    assert_eq!(
        serialize(&events, None),
        tree(r#"{"t":"html","raw":"<div>\\n<script>x</script>\\n"},{"t":"hr"}"#),
    );
}

#[test]
fn serialized_modified_marker() {
    let events = vec![text("Hello", 0)];
    assert_eq!(serialize(&events, Some(3)), tree(r#""Hel",{"t":"modified"},"lo""#));
    assert_eq!(serialize(&events, Some(99)), tree(r#""Hello",{"t":"modified"}"#));
}

#[test]
fn inline_html_is_not_serialized() {
    assert!(!ser_events_ok(&[ev(MdEvent::InlineHtml("<b>".to_string()), 0..3)]));
}

#[test]
fn local_links_are_read_from_custom_scheme_urls() {
    let f = parse_local_path_from_url("shiba://localhost/a/b.md#intro".to_string()).unwrap();
    assert_eq!(f.path, "/a/b.md");
    assert!(matches!(f.scroll, InitScroll::Fragment(ref s) if s == "intro"));

    let f = parse_local_path_from_url("shiba://localhost/a#b/c.md".to_string()).unwrap();
    assert_eq!(f.path, "/a#b/c.md");
    assert!(matches!(f.scroll, InitScroll::Nop));

    let f = parse_local_path_from_url("shiba://localhost/".to_string()).unwrap();
    assert_eq!(f.path, "/");

    let url = parse_local_path_from_url("https://example.com/#top".to_string()).unwrap_err();
    assert_eq!(url, "https://example.com/#top");
}

#[test]
fn local_link_gives_back_its_path() {
    for path in ["/home/u/doc.md", "/a b/c.md", "/"] {
        let f = parse_local_path_from_url(format!("shiba://localhost{path}")).unwrap();
        assert_eq!(f.path, path);
        assert!(matches!(f.scroll, InitScroll::Nop));
    }
}
