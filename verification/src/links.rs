use crate::search::occurs_at;
use vstd::prelude::*;
use vstd::utf8::{encode_utf8, is_ascii_chars, is_ascii_chars_encode_utf8};

verus! {

/// How a character may appear in a URL found in plain text.
#[derive(Clone, Copy, PartialEq, Eq, Structural, Debug)]
pub enum UrlCharKind {
    /// Ends the URL.
    Invalid,
    /// May end the URL.
    Term,
    /// May appear inside a URL but not at its end (punctuation).
    NonTerm,
}

/// The classification of RFC 3987: controls, space and the delimiters
/// `|"<>`()[]` end a URL; trailing punctuation `?!.,:;*&\{}'` is not part of
/// it; anything else is.
pub open spec fn spec_url_char_kind(c: char) -> UrlCharKind {
    if ('\u{00}' <= c <= '\u{1F}') || c == ' ' || c == '|' || c == '"' || c == '<' || c == '>'
        || c == '`' || c == '(' || c == ')' || c == '[' || c == ']' || ('\u{7F}' <= c <= '\u{9F}') {
        UrlCharKind::Invalid
    } else if c == '?' || c == '!' || c == '.' || c == ',' || c == ':' || c == ';' || c == '*'
        || c == '&' || c == '\\' || c == '{' || c == '}' || c == '\'' {
        UrlCharKind::NonTerm
    } else {
        UrlCharKind::Term
    }
}

impl UrlCharKind {
    /// Classifies a character.
    pub fn of(c: char) -> (k: UrlCharKind)
        ensures
            k == spec_url_char_kind(c),
    {
        if ('\u{00}' <= c && c <= '\u{1F}') || c == ' ' || c == '|' || c == '"' || c == '<'
            || c == '>' || c == '`' || c == '(' || c == ')' || c == '[' || c == ']' || ('\u{7F}'
            <= c && c <= '\u{9F}') {
            UrlCharKind::Invalid
        } else if c == '?' || c == '!' || c == '.' || c == ',' || c == ':' || c == ';' || c == '*'
            || c == '&' || c == '\\' || c == '{' || c == '}' || c == '\'' {
            UrlCharKind::NonTerm
        } else {
            UrlCharKind::Term
        }
    }
}

/// The kind of the character that byte `i` of UTF-8 text belongs to. An
/// ASCII byte is its own character; the non-ASCII characters that end a URL,
/// U+0080..U+009F, are exactly the two-byte sequences C2 80..C2 9F; every
/// other byte belongs to a character that may end a URL.
pub open spec fn url_byte_kind(t: Seq<u8>, i: int) -> UrlCharKind {
    let b = t[i];
    if b < 0x80 {
        spec_url_char_kind(b as char)
    } else if b == 0xC2 && i + 1 < t.len() && 0x80 <= t[i + 1] <= 0x9F {
        UrlCharKind::Invalid
    } else {
        UrlCharKind::Term
    }
}

/// Where a URL whose characters start at `i` ends: after its last character
/// that may end it, before the first character that cannot be in it. `last`
/// is the end found so far.
pub open spec fn url_end(t: Seq<u8>, i: int, last: int) -> int
    decreases t.len() - i,
{
    if i < 0 || i >= t.len() {
        last
    } else {
        match url_byte_kind(t, i) {
            UrlCharKind::Invalid => last,
            UrlCharKind::Term => url_end(t, i + 1, i + 1),
            UrlCharKind::NonTerm => url_end(t, i + 1, last),
        }
    }
}

/// The ASCII bytes that cannot be inside a URL in text: controls, space,
/// DEL and the delimiters `|"<>`()[]`.
pub open spec fn url_delimiter_byte(b: u8) -> bool {
    b <= 0x20 || b == 0x7f || b == 0x7c || b == 0x22 || b == 0x3c || b == 0x3e || b == 0x60
        || b == 0x28 || b == 0x29 || b == 0x5b || b == 0x5d
}

/// The ASCII punctuation that a URL in text never ends with:
/// `?!.,:;*&\{}'`.
pub open spec fn url_trailing_byte(b: u8) -> bool {
    b == 0x3f || b == 0x21 || b == 0x2e || b == 0x2c || b == 0x3a || b == 0x3b || b == 0x2a
        || b == 0x26 || b == 0x5c || b == 0x7b || b == 0x7d || b == 0x27
}

proof fn lemma_url_end_bytes(t: Seq<u8>, lo: int, i: int, last: int)
    requires
        0 <= lo <= last <= i <= t.len(),
        forall|k: int| lo <= k < i ==> !url_delimiter_byte(#[trigger] t[k]),
        last == lo || !url_trailing_byte(t[last - 1]),
    ensures
        last <= url_end(t, i, last) <= t.len(),
        forall|k: int| lo <= k < url_end(t, i, last) ==> !url_delimiter_byte(#[trigger] t[k]),
        url_end(t, i, last) == lo || !url_trailing_byte(t[url_end(t, i, last) - 1]),
        forall|k: int| #![trigger t[k]]
            i <= k < t.len() && !url_trailing_byte(t[k])
                && (forall|m: int| i <= m <= k ==> t[m] < 0x80 && !url_delimiter_byte(#[trigger] t[m]))
                ==> k < url_end(t, i, last),
    decreases t.len() - i,
{
    if i < t.len() {
        let b = t[i];
        let k = url_byte_kind(t, i);
        if b < 0x80 {
            let c = b as char;
            assert(url_delimiter_byte(b) ==> k == UrlCharKind::Invalid);
            assert(url_trailing_byte(b) ==> k == UrlCharKind::NonTerm);
            assert(!url_delimiter_byte(b) ==> k != UrlCharKind::Invalid);
            assert(!url_delimiter_byte(b) && !url_trailing_byte(b) ==> k == UrlCharKind::Term);
        }
        match k {
            UrlCharKind::Invalid => {},
            UrlCharKind::Term => {
                lemma_url_end_bytes(t, lo, i + 1, i + 1);
            },
            UrlCharKind::NonTerm => {
                lemma_url_end_bytes(t, lo, i + 1, last);
            },
        }
    }
}

/// A URL found in text is made of the bytes up to the first one that cannot
/// be in a URL: it holds no control, space, DEL or delimiter `|"<>`()[]`,
/// it does not end with trailing punctuation `?!.,:;*&\{}'`, and it takes
/// in every other ASCII byte before the first delimiter.
pub proof fn law_url_has_no_delimiter(t: Seq<u8>, i: int)
    requires
        0 <= i <= t.len(),
    ensures
        i <= url_end(t, i, i) <= t.len(),
        forall|k: int| i <= k < url_end(t, i, i) ==> !url_delimiter_byte(#[trigger] t[k]),
        url_end(t, i, i) == i || !url_trailing_byte(t[url_end(t, i, i) - 1]),
        forall|k: int| #![trigger t[k]]
            i <= k < t.len() && !url_trailing_byte(t[k])
                && (forall|m: int| i <= m <= k ==> t[m] < 0x80 && !url_delimiter_byte(#[trigger] t[m]))
                ==> k < url_end(t, i, i),
{
    lemma_url_end_bytes(t, i, i, i);
}

fn url_byte_kind_at(t: &[u8], i: usize) -> (k: UrlCharKind)
    requires
        i < t@.len(),
    ensures
        k == url_byte_kind(t@, i as int),
{
    let b = t[i];
    if b < 0x80 {
        UrlCharKind::of(b as char)
    } else if b == 0xC2 && i + 1 < t.len() && 0x80 <= t[i + 1] && t[i + 1] <= 0x9F {
        UrlCharKind::Invalid
    } else {
        UrlCharKind::Term
    }
}

/// The end of the URL whose characters start at `from`.
fn find_url_end(t: &[u8], from: usize) -> (e: usize)
    requires
        from <= t@.len(),
    ensures
        e == url_end(t@, from as int, from as int),
        from <= e <= t@.len(),
{
    let mut i = from;
    let mut last = from;
    while i < t.len()
        invariant
            from <= last <= i <= t@.len(),
            url_end(t@, i as int, last as int) == url_end(t@, from as int, from as int),
        decreases t.len() - i,
    {
        match url_byte_kind_at(t, i) {
            UrlCharKind::Invalid => {
                return last;
            },
            UrlCharKind::Term => {
                last = i + 1;
            },
            UrlCharKind::NonTerm => {},
        }
        i = i + 1;
    }
    last
}

/// The occurrences of either pattern in a text, as found by `aho_corasick`
/// (standard match semantics); `None` when no automaton can be built.
pub uninterp spec fn either_matches(a: Seq<char>, b: Seq<char>, haystack: Seq<u8>) -> Option<Seq<(usize, usize)>>;

/// Whether `a` ends `b`.
pub open spec fn is_suffix(a: Seq<u8>, b: Seq<u8>) -> bool {
    a.len() <= b.len() && b.skip(b.len() - a.len()) == a
}

/// The non-overlapping occurrences of either pattern, as a search with the
/// standard match semantics reports them: from `from` on, the occurrence
/// that ends first (`j` being the end looked at), then the one that ends
/// first from its end on, and so on. Where neither pattern ends the other,
/// no two occurrences end at the same place.
pub open spec fn either_from(a: Seq<u8>, b: Seq<u8>, t: Seq<u8>, from: int, j: int) -> Seq<(usize, usize)>
    decreases t.len() + 1 - j,
{
    if a.len() == 0 || b.len() == 0 || j < 0 || j > t.len() {
        Seq::empty()
    } else if j - a.len() >= from && occurs_at(a, t, j - a.len(), false) {
        seq![((j - a.len()) as usize, j as usize)] + either_from(a, b, t, j, j + 1)
    } else if j - b.len() >= from && occurs_at(b, t, j - b.len(), false) {
        seq![((j - b.len()) as usize, j as usize)] + either_from(a, b, t, j, j + 1)
    } else {
        either_from(a, b, t, from, j + 1)
    }
}

/// Builds an `aho_corasick::AhoCorasick` for the two patterns and collects
/// `find_iter` over the text. The default standard match semantics reports,
/// from where the search stands, the match that is seen first, which is the
/// one that ends first, and the search goes on after its end; for two
/// non-empty patterns neither of which ends the other (so that two matches
/// never end at the same place) that is what this contract states. When an
/// automaton cannot be built is named, not stated.
#[verifier::external_body]
fn find_either(a: &str, b: &str, haystack: &[u8]) -> (r: Option<Vec<(usize, usize)>>)
    ensures
        r matches Some(v) ==> either_matches(a@, b@, haystack@) == Some(v@)
            && crate::search::matches_in_text(v@, haystack@.len()),
        r is None <==> either_matches(a@, b@, haystack@) is None,
        ({
            let (x, y) = (encode_utf8(a@), encode_utf8(b@));
            x.len() > 0 && y.len() > 0 && !is_suffix(x, y) && !is_suffix(y, x)
                ==> (r matches Some(v) ==> v@ == either_from(x, y, haystack@, 0, 1))
        }),
{
    match aho_corasick::AhoCorasick::new([a, b]) {
        Ok(ac) => Some(ac.find_iter(haystack).map(|m| (m.start(), m.end())).collect()),
        Err(_) => None,
    }
}

/// An ASCII letter.
pub open spec fn is_ascii_alpha(b: u8) -> bool {
    (65 <= b <= 90) || (97 <= b <= 122)
}

/// The first URL among the scheme occurrences `ms[k..]`: an occurrence right
/// after a letter (as in "foohttp://") is skipped, and so is one after which
/// no character may end a URL.
pub open spec fn autolink_from(t: Seq<u8>, ms: Seq<(usize, usize)>, k: int) -> Option<(int, int)>
    decreases ms.len() - k,
{
    if k < 0 || k >= ms.len() {
        None
    } else {
        let s = ms[k].0 as int;
        let e = ms[k].1 as int;
        if s > 0 && is_ascii_alpha(t[s - 1]) {
            autolink_from(t, ms, k + 1)
        } else if url_end(t, e, e) > e {
            Some((s, url_end(t, e, e)))
        } else {
            autolink_from(t, ms, k + 1)
        }
    }
}

/// The first URL written in plain text, as byte offsets of its start and end:
/// an "http://" or "https://" that is not preceded by a letter, followed by
/// at least one character that may end a URL.
pub open spec fn spec_find_autolink(t: Seq<u8>) -> Option<(int, int)> {
    match either_matches("https://"@, "http://"@, t) {
        None => None,
        Some(ms) => autolink_from(t, ms, 0),
    }
}

/// The first URL among the scheme occurrences `ms[k..]`, whatever precedes
/// them: an occurrence after which no character may end a URL is skipped.
pub open spec fn any_autolink_from(t: Seq<u8>, ms: Seq<(usize, usize)>, k: int) -> Option<(int, int)>
    decreases ms.len() - k,
{
    if k < 0 || k >= ms.len() {
        None
    } else {
        let s = ms[k].0 as int;
        let e = ms[k].1 as int;
        if url_end(t, e, e) > e {
            Some((s, url_end(t, e, e)))
        } else {
            any_autolink_from(t, ms, k + 1)
        }
    }
}

/// The first URL written in plain text when a letter may precede the
/// scheme: an "http://" or "https://" followed by at least one character
/// that may end a URL.
pub open spec fn spec_find_any_autolink(t: Seq<u8>) -> Option<(int, int)> {
    match either_matches("https://"@, "http://"@, t) {
        None => None,
        Some(ms) => any_autolink_from(t, ms, 0),
    }
}

/// The bytes of "https://".
pub open spec fn https_bytes() -> Seq<u8> {
    seq![104u8, 116u8, 116u8, 112u8, 115u8, 58u8, 47u8, 47u8]
}

/// The bytes of "http://".
pub open spec fn http_bytes() -> Seq<u8> {
    seq![104u8, 116u8, 116u8, 112u8, 58u8, 47u8, 47u8]
}

/// Where the schemes occur in a text, when they can be searched for.
pub open spec fn scheme_matches(t: Seq<u8>) -> bool {
    either_matches("https://"@, "http://"@, t) matches Some(ms) ==> ms == either_from(https_bytes(), http_bytes(), t, 0, 1)
}

proof fn lemma_schemes()
    ensures
        encode_utf8("https://"@) == https_bytes(),
        encode_utf8("http://"@) == http_bytes(),
        !is_suffix(https_bytes(), http_bytes()),
        !is_suffix(http_bytes(), https_bytes()),
{
    reveal_strlit("https://");
    reveal_strlit("http://");
    assert(is_ascii_chars("https://"@));
    assert(is_ascii_chars("http://"@));
    is_ascii_chars_encode_utf8("https://"@);
    is_ascii_chars_encode_utf8("http://"@);
    assert(encode_utf8("https://"@) =~= https_bytes());
    assert(encode_utf8("http://"@) =~= http_bytes());
    assert(https_bytes().skip(1)[0] != http_bytes()[0]);
}

/// Finds the URLs written in plain text.
pub struct Autolinker;

impl Autolinker {
    /// The first URL in the text.
    pub fn find_autolink(&self, text: &[u8]) -> (r: Option<(usize, usize)>)
        ensures
            match spec_find_autolink(text@) {
                None => r.is_none(),
                Some((s, e)) => r == Some((s as usize, e as usize)) && 0 <= s < e <= text@.len(),
            },
            scheme_matches(text@),
    {
        proof {
            lemma_schemes();
        }
        let ms = match find_either("https://", "http://", text) {
            Some(v) => v,
            None => {
                return None;
            },
        };
        let mut k: usize = 0;
        while k < ms.len()
            invariant
                k <= ms@.len(),
                crate::search::matches_in_text(ms@, text@.len()),
                either_matches("https://"@, "http://"@, text@) == Some(ms@),
                scheme_matches(text@),
                autolink_from(text@, ms@, k as int) == autolink_from(text@, ms@, 0),
            decreases ms.len() - k,
        {
            let (s, e) = ms[k];
            assert(ms@[k as int].0 <= ms@[k as int].1 <= text@.len());
            if s > 0 && ((65 <= text[s - 1] && text[s - 1] <= 90) || (97 <= text[s - 1] && text[s - 1] <= 122)) {
                k = k + 1;
            } else {
                let end = find_url_end(text, e);
                if end > e {
                    return Some((s, end));
                }
                k = k + 1;
            }
        }
        None
    }
}

impl Autolinker {
    /// The first URL in the text, also where a letter precedes its scheme.
    pub fn find_any_autolink(&self, text: &[u8]) -> (r: Option<(usize, usize)>)
        ensures
            match spec_find_any_autolink(text@) {
                None => r.is_none(),
                Some((s, e)) => r == Some((s as usize, e as usize)) && 0 <= s < e <= text@.len(),
            },
            scheme_matches(text@),
    {
        proof {
            lemma_schemes();
        }
        let ms = match find_either("https://", "http://", text) {
            Some(v) => v,
            None => {
                return None;
            },
        };
        let mut k: usize = 0;
        while k < ms.len()
            invariant
                k <= ms@.len(),
                crate::search::matches_in_text(ms@, text@.len()),
                either_matches("https://"@, "http://"@, text@) == Some(ms@),
                scheme_matches(text@),
                any_autolink_from(text@, ms@, k as int) == any_autolink_from(text@, ms@, 0),
            decreases ms.len() - k,
        {
            let (s, e) = ms[k];
            assert(ms@[k as int].0 <= ms@[k as int].1 <= text@.len());
            let end = find_url_end(text, e);
            if end > e {
                return Some((s, end));
            }
            k = k + 1;
        }
        None
    }
}

impl Default for Autolinker {
    fn default() -> (a: Self) {
        Autolinker
    }
}

} // verus!
