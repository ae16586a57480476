use shiba_preview::bytes::{modified_offset, modified_offset_scalar};
use shiba_preview::config::SearchMatcher;
use shiba_preview::content::MarkdownContent;
use shiba_preview::links::Autolinker;
use shiba_preview::sanitizer::{should_rebase_url, RebaseUrl, Sanitizer, SlashPath};
use shiba_preview::search::DisplayText;
use std::ops::Range;

fn build_text(input: &str, maps: &[Range<usize>]) -> DisplayText {
    let mut text = DisplayText::new();
    for m in maps {
        text.visit(&input.as_bytes()[m.clone()], m);
    }
    text
}

#[test]
fn utf8_aware_byte_offset() {
    for (before, after, expected) in [
        ("あ", "い", Some(0)),
        ("ああ", "あい", Some(3)),
        ("あああ", "あいう", Some(3)),
        ("あああ", "あいあ", Some(3)),
        ("あいう", "ああうえお", Some(3)),
        ("あいう", "あいえ", Some(6)),
        ("", "あ", Some(0)),
        ("あ", "", Some(0)),
        ("あ", "あい", Some(3)),
        ("あ", "あ", None),
        ("あい", "あい", None),
        ("あいう", "あいう", None),
        ("", "", None),
    ] {
        let prev = MarkdownContent::new(before.into(), None);
        let now = MarkdownContent::new(after.into(), None);
        let offset = prev.modified_utf8_offset(&now);
        assert_eq!(offset, expected, "{before:?}, {after:?}");
    }
}

#[test]
fn create_slash_path_non_windows() {
    for (input, want) in [("", ""), ("/a/b/c", "/a/b/c"), ("/a/b/c/", "/a/b/c"), ("/", "")] {
        let path = SlashPath::new(input);
        assert_eq!(path.as_str(), want);
    }
}

#[test]
fn create_slash_path_windows() {
    for (input, want) in [
        ("", ""),
        (r"\\?\C:\a\b\c", "/a/b/c"),
        (r"\\?\C:\a\b\c\", "/a/b/c"),
        (r"C:\a\b\c", "/a/b/c"),
        (r"C:\a\b\c\", "/a/b/c"),
        (r"\a\b\c", "/a/b/c"),
        (r"\a\b\c\", "/a/b/c"),
        (r"\\?\C:\", ""),
        (r"C:\", ""),
        (r"\", ""),
        (r"\\?\C:\a\.\b\.\c", "/a/b/c"),
        (r"\\?\C:\a\b\d\..\c", "/a/b/d/../c"),
    ] {
        let path = SlashPath::from_windows(input);
        assert_eq!(path.as_str(), want);
    }
}

#[test]
fn rebase_relative_url() {
    let rebase = RebaseUrl { prefix: "/foo/bar".to_string() };

    for (url, want) in [
        ("", "/foo/bar/"),
        ("aaa", "/foo/bar/aaa"),
        ("aaa/", "/foo/bar/aaa/"),
        ("/aaa", "/foo/bar/aaa"),
        ("..", "/foo/bar/.."),
        ("./aaa", "/foo/bar/./aaa"),
        ("http://example.com", "http://example.com"),
        ("https://example.com", "https://example.com"),
        ("//example.com", "//example.com"),
        ("#hash", "#hash"),
    ] {
        let have = rebase.evaluate(url).unwrap();
        assert_eq!(&have, want);
    }
}

#[test]
fn should_rebase_only_relative_urls() {
    assert!(should_rebase_url("foo/bar.png"));
    assert!(should_rebase_url("/abs/path"));
    assert!(!should_rebase_url("#top"));
    assert!(!should_rebase_url("https://example.com"));
    assert!(!should_rebase_url("http://example.com"));
    assert!(!should_rebase_url("//cdn.example.com/x.js"));
}

#[test]
fn collect_text_with_source_maps() {
    //           ab  ef hijkl ;
    let input = "abcdefghijkl";
    let maps = [0..2, 4..6, 7..12];
    let text = build_text(input, &maps);
    assert_eq!(text.raw_text(), "abefhijkl");
    assert_eq!(text.sourcemap(), &maps);
}

#[test]
fn merge_contiguous_mappings() {
    let input = "abcdefghijkl";
    let maps = [0..2, 2..4, 4..6, 6..7, 7..12];
    let text = build_text(input, &maps);
    assert_eq!(text.raw_text(), "abcdefghijkl");
    assert_eq!(text.sourcemap(), [0..12]);
}

#[test]
fn search_case_sensitive() {
    //           ab  ef  JK  ab  Gh
    let input = "abcdefghJKababefGh";
    let text = build_text(input, &[0..2, 4..6, 8..10, 12..14, 16..18]);

    let matches = text.search("ab", SearchMatcher::CaseSensitive).unwrap();
    assert_eq!(&matches.0, &[0..2, 12..14]);
    let matches = text.search("ef", SearchMatcher::CaseSensitive).unwrap();
    assert_eq!(&matches.0, &[4..6]);
    let matches = text.search("Gh", SearchMatcher::CaseSensitive).unwrap();
    assert_eq!(&matches.0, &[16..18]);
    let matches = text.search("be", SearchMatcher::CaseSensitive).unwrap();
    assert_eq!(&matches.0, &[1..5]);
    let matches = text.search("befJ", SearchMatcher::CaseSensitive).unwrap();
    assert_eq!(&matches.0, &[1..9]);
    let matches = text.search("abefJKabGh", SearchMatcher::CaseSensitive).unwrap();
    assert_eq!(&matches.0, &[0..18]);
    let matches = text.search("cd", SearchMatcher::CaseSensitive).unwrap();
    assert_eq!(&matches.0, &[] as &[Range<usize>; 0]);
    let matches = text.search("abefJKabGhab", SearchMatcher::CaseSensitive).unwrap();
    assert_eq!(&matches.0, &[] as &[Range<usize>; 0]);
}

#[test]
fn search_case_insensitive() {
    //           ab  ef  JK  ab  Gh
    let input = "abcdefghJKababefGh";
    let text = build_text(input, &[0..2, 4..6, 8..10, 12..14, 16..18]);

    let matches = text.search("AB", SearchMatcher::CaseInsensitive).unwrap();
    assert_eq!(&matches.0, &[0..2, 12..14]);
    let matches = text.search("EF", SearchMatcher::CaseInsensitive).unwrap();
    assert_eq!(&matches.0, &[4..6]);
    let matches = text.search("gh", SearchMatcher::CaseInsensitive).unwrap();
    assert_eq!(&matches.0, &[16..18]);
    let matches = text.search("GH", SearchMatcher::CaseInsensitive).unwrap();
    assert_eq!(&matches.0, &[16..18]);
    let matches = text.search("BE", SearchMatcher::CaseInsensitive).unwrap();
    assert_eq!(&matches.0, &[1..5]);
    let matches = text.search("BEFj", SearchMatcher::CaseInsensitive).unwrap();
    assert_eq!(&matches.0, &[1..9]);
    let matches = text.search("abefjkabgh", SearchMatcher::CaseInsensitive).unwrap();
    assert_eq!(&matches.0, &[0..18]);
    let matches = text.search("cd", SearchMatcher::CaseInsensitive).unwrap();
    assert_eq!(&matches.0, &[] as &[Range<usize>; 0]);
    let matches = text.search("abefjkabghab", SearchMatcher::CaseInsensitive).unwrap();
    assert_eq!(&matches.0, &[] as &[Range<usize>; 0]);
}

#[test]
fn search_smart_case() {
    let input = "ab aB Ab AB";
    let text = build_text(input, &[0..2, 3..5, 6..8, 9..11]);

    let matches = text.search("ab", SearchMatcher::SmartCase).unwrap();
    assert_eq!(&matches.0, &[0..2, 3..5, 6..8, 9..11]);
    let matches = text.search("aB", SearchMatcher::SmartCase).unwrap();
    assert_eq!(&matches.0, &[3..5]);
    let matches = text.search("Ab", SearchMatcher::SmartCase).unwrap();
    assert_eq!(&matches.0, &[6..8]);
    let matches = text.search("AB", SearchMatcher::SmartCase).unwrap();
    assert_eq!(&matches.0, &[9..11]);

    let matches = text.search("ba", SearchMatcher::SmartCase).unwrap();
    assert_eq!(&matches.0, &[1..4, 4..7, 7..10]);
    let matches = text.search("BA", SearchMatcher::SmartCase).unwrap();
    assert_eq!(&matches.0, &[4..7]);
    let matches = text.search("bA", SearchMatcher::SmartCase).unwrap();
    assert_eq!(&matches.0, &[7..10]);
    let matches = text.search("Ba", SearchMatcher::SmartCase).unwrap();
    assert_eq!(&matches.0, &[] as &[Range<usize>; 0]);
}

#[test]
fn search_regex() {
    let input = "fo foo fooo";
    let text = build_text(input, &[0..2, 3..6, 7..11]);

    let matches = text.search("foo+", SearchMatcher::CaseSensitiveRegex).unwrap();
    assert_eq!(&matches.0, &[3..6, 7..11]);
    let matches = text.search("foo?", SearchMatcher::CaseSensitiveRegex).unwrap();
    assert_eq!(&matches.0, &[0..2, 3..6, 7..10]);
    let matches = text.search("o+f", SearchMatcher::CaseSensitiveRegex).unwrap();
    assert_eq!(&matches.0, &[1..4, 4..8]);
    let matches = text.search("o?f", SearchMatcher::CaseSensitiveRegex).unwrap();
    assert_eq!(&matches.0, &[0..1, 1..4, 5..8]);
    let matches = text.search("(fo+)+", SearchMatcher::CaseSensitiveRegex).unwrap();
    assert_eq!(&matches.0, &[0..11]);
}

#[test]
fn search_invalid_regex_is_an_error() {
    let text = build_text("abc", &[0..3]);
    assert!(text.search("(", SearchMatcher::CaseSensitiveRegex).is_err());
}

#[test]
fn auto_linker() {
    for (input, url) in [
        ("http://example.com", Some("http://example.com")),
        ("https://example.com", Some("https://example.com")),
        ("http://example.com/foo", Some("http://example.com/foo")),
        ("http://example.com/foo/", Some("http://example.com/foo/")),
        ("http://example.com&foo=bar", Some("http://example.com&foo=bar")),
        ("hello http://example.com world", Some("http://example.com")),
        ("[foo](http://example.com)", Some("http://example.com")),
        ("[http://example.com]", Some("http://example.com")),
        ("Nice URL https://example.com!", Some("https://example.com")),
        ("This is URL https://example.com.", Some("https://example.com")),
        ("Is this URL https://example.com?", Some("https://example.com")),
        ("He said 'https://example.com'", Some("https://example.com")),
        ("Open https://example.com, and click button", Some("https://example.com")),
        ("https://example.com&", Some("https://example.com")),
        ("123http://aaa.com", Some("http://aaa.com")),
        ("file:///foo/bar", None),
        ("", None),
        ("hello, world", None),
        ("http:", None),
        ("http://", None),
        ("foohttp://aaa.com", None),
    ] {
        let found = Autolinker::default().find_autolink(input.as_bytes());
        assert_eq!(
            url.is_some(),
            found.is_some(),
            "input={input:?}, found={found:?}, expected={url:?}",
        );
        if let Some(url) = url {
            let (s, e) = found.unwrap();
            assert_eq!(url, &input[s..e]);
        }
    }
}

fn offset_cases() -> Vec<(Vec<u8>, Vec<u8>, Option<usize>)> {
    let mut cases: Vec<(Vec<u8>, Vec<u8>, Option<usize>)> = vec![
        (b"".to_vec(), b"".to_vec(), None),
        (b"".to_vec(), b"a".to_vec(), Some(0)),
        (b"a".to_vec(), b"".to_vec(), Some(0)),
        (b"a".to_vec(), b"a".to_vec(), None),
        (b"a".to_vec(), b"b".to_vec(), Some(0)),
        (b"abcdef".to_vec(), b"abcxef".to_vec(), Some(3)),
        (b"abcdef".to_vec(), b"abcdefg".to_vec(), Some(6)),
        (b"abcdefg".to_vec(), b"abcdef".to_vec(), Some(6)),
        (b"abcdefghijklmnopqrstuvwxyz".to_vec(), b"abcdefghijklmnopqrstuvwxyz".to_vec(), None),
        (b"abcdefghijklmnopqrstuvwxyz".to_vec(), b"abcdefghijklmnopqrstuvwxzz".to_vec(), Some(24)),
    ];

    for (size, pos) in [
        (32, 31),
        (33, 32),
        (34, 33),
        (63, 62),
        (64, 63),
        (65, 64),
        (127, 126),
        (128, 127),
        (129, 128),
        (255, 254),
        (256, 255),
        (257, 256),
        (256, 0),
        (256, 50),
        (256, 100),
        (256, 150),
        (256, 200),
        (256, 250),
    ] {
        let lhs = vec![b'a'; size];
        let mut rhs = lhs.clone();
        rhs[pos] = b'b';
        cases.push((lhs, rhs, Some(pos)));
    }

    for (len1, len2) in [
        (31, 31),
        (32, 32),
        (63, 63),
        (64, 64),
        (127, 127),
        (128, 128),
        (31, 32),
        (32, 31),
        (63, 64),
        (64, 63),
        (127, 128),
        (128, 127),
    ] {
        let expected = if len1 != len2 { Some(len1.min(len2)) } else { None };
        cases.push((vec![b'a'; len1], vec![b'a'; len2], expected));
    }

    for len in [30, 31, 32, 62, 63, 64, 126, 127, 128] {
        let lhs = vec![b'a'; len];
        let mut rhs = lhs.clone();
        rhs.extend_from_slice(b"tail");
        cases.push((lhs, rhs, Some(len)));
    }

    cases
}

#[test]
fn scalar_modified_offset() {
    for (left, right, expected) in offset_cases() {
        assert_eq!(expected, modified_offset_scalar(&left, &right), "left={left:?}, right={right:?}");
    }
}

#[test]
fn simd_modified_offset() {
    for (left, right, expected) in offset_cases() {
        assert_eq!(expected, modified_offset(&left, &right), "left={left:?}, right={right:?}");
    }
}

#[test]
fn sanitize_raw_html() {
    const BASE_DIR: &str = "/a/b/c/d/e";
    let base_dir = SlashPath::new(BASE_DIR);
    let sanitizer = Sanitizer::new(&base_dir);

    for (input, want) in [
        ("", ""),
        ("foo", "foo"),
        ("<div>foo</div>", "<div>foo</div>"),
        (
            "<div><span>aaa</span><span>bbb</span></div>",
            "<div><span>aaa</span><span>bbb</span></div>",
        ),
        (
            "<img src=\"https://example.com\" alt=\"hello\">",
            "<img src=\"https://example.com\" alt=\"hello\">",
        ),
        ("<script>alert()</script>", ""),
        ("<span><script>alert()</script>foo</span>", "<span>foo</span>"),
        ("<div onclick=\"alert\">hello</div>", "<div>hello</div>"),
        (
            "<a href=\"javascript:alert()\">hello</a>",
            "<a rel=\"noopener noreferrer\">hello</a>",
        ),
        (
            "<a href=\"data:aGVsbG8sd29ybGQK\">hello</a>",
            "<a rel=\"noopener noreferrer\">hello</a>",
        ),
        (
            "<a href=\"https://example.com\">foo</a>",
            "<a href=\"https://example.com\" rel=\"noopener noreferrer\">foo</a>",
        ),
        (
            "<a href=\"http://example.com\">foo</a>",
            "<a href=\"http://example.com\" rel=\"noopener noreferrer\">foo</a>",
        ),
        (
            "<a href=\"//example.com\">foo</a>",
            "<a href=\"//example.com\" rel=\"noopener noreferrer\">foo</a>",
        ),
        (
            "<a href=\"foo/bar\">foo</a>",
            "<a href=\"/a/b/c/d/e/foo/bar\" rel=\"noopener noreferrer\">foo</a>",
        ),
        (
            "<a href=\"../foo/bar\">foo</a>",
            "<a href=\"/a/b/c/d/e/../foo/bar\" rel=\"noopener noreferrer\">foo</a>",
        ),
        (
            "<a href=\"#hash-link\">foo</a>",
            "<a href=\"#hash-link\" rel=\"noopener noreferrer\">foo</a>",
        ),
        (
            "<a name=\"hash-link\"></a>",
            "<a name=\"hash-link\" rel=\"noopener noreferrer\"></a>",
        ),
        (
            "<a id=\"hash-link-id\"></a>",
            "<a id=\"hash-link-id\" rel=\"noopener noreferrer\"></a>",
        ),
        (
            "<a href=\"hello&world\">hello</a>",
            "<a href=\"/a/b/c/d/e/hello&amp;world\" rel=\"noopener noreferrer\">hello</a>",
        ),
    ] {
        let mut have = Vec::new();
        sanitizer.clean(&mut have, input.as_bytes());
        let have = String::from_utf8(have).unwrap();
        assert_eq!(&have, want);
    }
}

#[test]
fn schemes_are_found_where_they_end_first() {
    let a = Autolinker::default();
    assert_eq!(a.find_autolink(b"x http://a https://b"), Some((2, 10)));
    assert_eq!(a.find_autolink(b"https://b http://a"), Some((0, 9)));
    assert_eq!(a.find_autolink(b"xhttps://b http://a"), Some((11, 19)));
    assert_eq!(a.find_any_autolink(b"xhttps://b http://a"), Some((1, 10)));
    assert_eq!(a.find_autolink(b"a"), None);
}
