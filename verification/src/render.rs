use crate::emoji::{emoji_by_shortcode, find_colon, lookup_emoji};
use crate::events::{
    append_bytes, bytes_of, event_ok, events_ok_from, html_block_from, inline_html, lemma_next_byte,
    next_byte, next_event_index, next_index, read_html_block, read_inline_html, string_bytes,
    AlertKind, Alignment, LinkKind, MdEvent, MdTag, MdTagEnd,
};
use crate::links::{spec_find_autolink, Autolinker};
use crate::sanitizer::{clean_html, sanitized_html, should_rebase_url, spec_should_rebase_url};
use crate::search::{spec_push_range, DisplayText, TextTokenizer, TextVisitor, TokenKind};
use crate::text::starts_with_char;
use crate::tree::{
    decimal, element_name, lit_align, lit_autolink, lit_center, lit_checked_false, lit_checked_true, lit_children_begin, lit_close_brace, lit_close_bracket, lit_comma, lit_display_math, lit_href, lit_id, lit_inline_math, lit_kind, lit_lang, lit_left, lit_level, lit_mailto, lit_message_begin, lit_message_end, lit_name, lit_null, lit_open_bracket, lit_quote, lit_raw, lit_raw_end, lit_right, lit_slash, lit_src, lit_start, lit_tag_end, lit_tag_open, lit_title, write_align, write_autolink, write_center, write_checked_false, write_checked_true, write_children_begin, write_close_brace, write_close_bracket, write_comma, write_decimal, write_display_math, write_element_name, write_href, write_id, write_inline_math, write_kind, write_lang, write_left, write_level, write_mailto, write_message_begin, write_message_end, write_name, write_null, write_open_bracket, write_quote, write_raw, write_raw_end, write_right, write_slash, write_src, write_start, write_tag_end, write_tag_open, write_title, Element,
};
use std::ops::Range;
use vstd::prelude::*;
use vstd::string::*;
use vstd::utf8::*;

verus! {

/// A hexadecimal digit in lower case.
pub open spec fn hex_digit(d: int) -> u8 {
    if d < 10 { (48 + d) as u8 } else { (87 + d) as u8 }
}

/// How one byte of a string is written into the render tree. The tree is
/// JSON placed inside a single-quoted JavaScript string, so JSON escapes are
/// escaped once more: backslash, quote and control characters become
/// escapes (`\\n`, `\\u001b`, ...), the single quote becomes `\'`, and any
/// other byte stays as it is.
pub open spec fn escape_byte(b: u8) -> Seq<u8> {
    if b == 0x08 {
        seq![92u8, 92u8, 98u8]
    } else if b == 0x09 {
        seq![92u8, 92u8, 116u8]
    } else if b == 0x0a {
        seq![92u8, 92u8, 110u8]
    } else if b == 0x0c {
        seq![92u8, 92u8, 102u8]
    } else if b == 0x0d {
        seq![92u8, 92u8, 114u8]
    } else if b == 0x22 {
        seq![92u8, 92u8, 34u8]
    } else if b == 0x27 {
        seq![92u8, 39u8]
    } else if b == 0x5c {
        seq![92u8, 92u8, 92u8, 92u8]
    } else if b < 0x20 || b == 0x7f {
        seq![92u8, 92u8, 117u8, 48u8, 48u8, hex_digit((b / 16) as int), hex_digit((b % 16) as int)]
    } else {
        seq![b]
    }
}

/// The escaped form of a whole byte string.
pub open spec fn escape_bytes(s: Seq<u8>) -> Seq<u8>
    decreases s.len(),
{
    if s.len() == 0 {
        Seq::empty()
    } else {
        escape_bytes(s.drop_last()) + escape_byte(s.last())
    }
}

fn push_hex_digit(out: &mut Vec<u8>, d: u8)
    requires
        d < 16,
    ensures
        final(out)@ == old(out)@.push(hex_digit(d as int)),
{
    if d < 10 {
        out.push(48 + d);
    } else {
        out.push(87 + d);
    }
}

/// Writes one byte of a string, escaped.
fn encode_string_byte(out: &mut Vec<u8>, b: u8)
    ensures
        final(out)@ == old(out)@ + escape_byte(b),
{
    let ghost before = out@;
    if b == 0x08 {
        out.push(92); out.push(92); out.push(98);
    } else if b == 0x09 {
        out.push(92); out.push(92); out.push(116);
    } else if b == 0x0a {
        out.push(92); out.push(92); out.push(110);
    } else if b == 0x0c {
        out.push(92); out.push(92); out.push(102);
    } else if b == 0x0d {
        out.push(92); out.push(92); out.push(114);
    } else if b == 0x22 {
        out.push(92); out.push(92); out.push(34);
    } else if b == 0x27 {
        out.push(92); out.push(39);
    } else if b == 0x5c {
        out.push(92); out.push(92); out.push(92); out.push(92);
    } else if b < 0x20 || b == 0x7f {
        out.push(92); out.push(92); out.push(117); out.push(48); out.push(48);
        push_hex_digit(out, b / 16);
        push_hex_digit(out, b % 16);
    } else {
        out.push(b);
    }
    assert(out@ =~= before + escape_byte(b));
}

/// Writes a whole byte string, escaped, as the render tree holds strings:
/// each byte is written as `escape_byte` gives it, in order.
pub fn encode_string_content(out: &mut Vec<u8>, s: &[u8])
    ensures
        final(out)@ == old(out)@ + escape_bytes(s@),
{
    let ghost before = out@;
    let mut i: usize = 0;
    while i < s.len()
        invariant
            i <= s@.len(),
            out@ == before + escape_bytes(s@.take(i as int)),
        decreases s.len() - i,
    {
        encode_string_byte(out, s[i]);
        assert(s@.take(i + 1).drop_last() =~= s@.take(i as int));
        i = i + 1;
    }
    assert(s@.take(i as int) =~= s@);
}

} // verus!

verus! {

/// The state of the render tree encoder, as far as its output goes.
pub struct Enc<T> {
    /// What was written so far.
    pub out: Seq<u8>,
    /// No item was written yet in the current list of children.
    pub is_start: bool,
    /// The current table row is in the table head.
    pub table_head: bool,
    /// Footnote names in the order they were first seen; a name's id is its
    /// position plus one.
    pub ids: Seq<Seq<u8>>,
    /// The offset of the last modification, until it is marked.
    pub modified: Option<usize>,
    /// The text shown in the preview so far.
    pub text: Seq<u8>,
    /// The source ranges of that text.
    pub srcmap: Seq<Range<usize>>,
    /// A range that continues the last one extends it.
    pub merge: bool,
    /// The tokenizer that marks search matches.
    pub tokenizer: T,
}

/// The source map after a text at `range` is collected.
pub open spec fn enc_srcmap<T>(s: Enc<T>, range: Range<usize>) -> Seq<Range<usize>> {
    if s.merge {
        spec_push_range(s.srcmap, range)
    } else {
        s.srcmap.push(range)
    }
}

/// Where the encoder is in the document.
#[derive(Clone, Copy)]
pub struct Flags {
    /// Inside a code block: texts are not linked.
    pub in_code_block: bool,
    /// Inside a link written as `<https://...>`, which is not written out.
    pub in_auto_link: bool,
    /// Inside a link: texts are not linked.
    pub in_link: bool,
}

/// Items of a list of children are separated by commas.
pub open spec fn enc_comma<T>(s: Enc<T>) -> Enc<T> {
    if !s.is_start {
        Enc { out: s.out + lit_comma(), ..s }
    } else {
        Enc { is_start: false, ..s }
    }
}

/// The start of an element with the given name, before its attributes.
pub open spec fn enc_tag<T>(s: Enc<T>, e: Element) -> Enc<T> {
    let s1 = enc_comma(s);
    Enc { out: s1.out + lit_tag_open() + element_name(e) + lit_quote(), ..s1 }
}

/// Raw bytes.
pub open spec fn enc_raw<T>(s: Enc<T>, bytes: Seq<u8>) -> Enc<T> {
    Enc { out: s.out + bytes, ..s }
}

/// A quoted and escaped string.
pub open spec fn enc_string<T>(s: Enc<T>, bytes: Seq<u8>) -> Enc<T> {
    Enc { out: s.out + lit_quote() + escape_bytes(bytes) + lit_quote(), ..s }
}

/// The start of the children of an element.
pub open spec fn enc_children_begin<T>(s: Enc<T>) -> Enc<T> {
    Enc { out: s.out + lit_children_begin(), is_start: true, ..s }
}

/// The end of an element with children.
pub open spec fn enc_tag_end<T>(s: Enc<T>) -> Enc<T> {
    Enc { out: s.out + lit_tag_end(), is_start: false, ..s }
}

/// The empty element that marks the last modification.
pub open spec fn enc_marker<T>(s: Enc<T>) -> Enc<T> {
    enc_raw(enc_tag(s, Element::Modified), lit_close_brace())
}

/// The element of a marked search match.
pub open spec fn token_element(kind: TokenKind) -> Element {
    match kind {
        TokenKind::MatchOther => Element::Match,
        TokenKind::MatchCurrent => Element::MatchCurrent,
        TokenKind::MatchOtherStart => Element::MatchStart,
        _ => Element::MatchCurrentStart,
    }
}

/// Text split into pieces by the tokenizer: normal pieces are strings,
/// marked pieces are elements holding the string.
#[verifier::opaque]
pub open spec fn enc_text_tokens<T: TextTokenizer>(s: Enc<T>, text: Seq<u8>, start: int) -> Enc<T>
    decreases text.len(),
{
    if text.len() == 0 {
        s
    } else {
        let (t2, kind, n) = s.tokenizer.spec_tokenize(text.len(), start);
        if n == 0 || n > text.len() {
            s
        } else {
            let s2 = Enc { tokenizer: t2, ..s };
            let piece = text.take(n as int);
            let s3 = if kind == TokenKind::Normal {
                enc_string(enc_comma(s2), piece)
            } else {
                enc_tag_end(enc_string(enc_children_begin(enc_tag(s2, token_element(kind))), piece))
            };
            enc_text_tokens(s3, text.skip(n as int), start + n)
        }
    }
}

/// A text of the document at `start..end` in the source: it is collected
/// into the preview text, and when it reaches the last modification the
/// modification marker is placed at that offset (before the text, after
/// it, or splitting it).
#[verifier::opaque]
pub open spec fn enc_text<T: TextTokenizer>(s: Enc<T>, text: Seq<u8>, start: int, end: int) -> Enc<T> {
    let s1 = Enc {
        text: s.text + text,
        srcmap: enc_srcmap(s, Range { start: start as usize, end: end as usize }),
        ..s
    };
    match s1.modified {
        None => enc_text_tokens(s1, text, start),
        Some(off) => if end < off {
            enc_text_tokens(s1, text, start)
        } else {
            let s2 = Enc { modified: None, ..s1 };
            if off <= start {
                enc_text_tokens(enc_marker(s2), text, start)
            } else if end == off {
                enc_marker(enc_text_tokens(s2, text, start))
            } else {
                let i = if off - start <= text.len() { off - start } else { text.len() as int };
                enc_text_tokens(
                    enc_marker(enc_text_tokens(s2, text.take(i), start)),
                    text.skip(i),
                    off as int,
                )
            }
        },
    }
}

/// An emoji element: its name as an attribute and the emoji as its child.
pub open spec fn enc_emoji_elem<T>(s: Enc<T>, name: Seq<u8>, glyph: Seq<u8>) -> Enc<T> {
    enc_tag_end(
        enc_string(
            enc_children_begin(enc_string(enc_raw(enc_tag(s, Element::Emoji), lit_name()), name)),
            glyph,
        ),
    )
}

/// A text in which emoji shortcodes such as `:dog:` become emoji elements,
/// from byte `k` on; the text starts at `base` in the source. Text before a
/// colon is written as it is; a colon starts a shortcode that ends at the
/// next colon, and when no emoji has that shortcode the colon is written as
/// text and the closing colon may start the next shortcode.
#[verifier::opaque]
pub open spec fn enc_emoji<T: TextTokenizer>(s: Enc<T>, t: Seq<u8>, k: int, base: int) -> Enc<T>
    decreases t.len() - k,
{
    if k < 0 || k >= t.len() {
        s
    } else if t[k] != 58u8 {
        let e = next_byte(t, k, 58u8);
        if k < e <= t.len() {
            enc_emoji(enc_text(s, t.subrange(k, e), base + k, base + e), t, e, base)
        } else {
            s
        }
    } else {
        let e = next_byte(t, k + 1, 58u8);
        if e <= k || e > t.len() {
            s
        } else if e == t.len() {
            enc_text(s, t.subrange(k, e), base + k, base + e)
        } else {
            match emoji_by_shortcode(t.subrange(k + 1, e)) {
                Some((name, glyph)) => enc_emoji(enc_emoji_elem(s, name, glyph), t, e + 1, base),
                None => enc_emoji(enc_text(s, t.subrange(k, e), base + k, base + e), t, e, base),
            }
        }
    }
}

/// A piece of a text that emoji shortcodes are looked for in: plain text
/// between two offsets, or a shortcode written with its colons between two
/// offsets, with the name and the bytes of its emoji.
pub enum EmojiPiece {
    Text(int, int),
    Emoji(int, int, Seq<u8>, Seq<u8>),
}

/// The pieces that a text splits into from byte `k` on, as `enc_emoji`
/// writes them: text up to the next colon, a shortcode between two colons
/// when an emoji has it, or else the colon and the text after it up to the
/// next colon.
pub open spec fn emoji_pieces(t: Seq<u8>, k: int) -> Seq<EmojiPiece>
    decreases t.len() - k,
{
    if k < 0 || k >= t.len() {
        Seq::empty()
    } else if t[k] != 58u8 {
        let e = next_byte(t, k, 58u8);
        if k < e <= t.len() {
            seq![EmojiPiece::Text(k, e)] + emoji_pieces(t, e)
        } else {
            Seq::empty()
        }
    } else {
        let e = next_byte(t, k + 1, 58u8);
        if e <= k || e > t.len() {
            Seq::empty()
        } else if e == t.len() {
            seq![EmojiPiece::Text(k, e)]
        } else {
            match emoji_by_shortcode(t.subrange(k + 1, e)) {
                Some((name, glyph)) => seq![EmojiPiece::Emoji(k, e + 1, name, glyph)] + emoji_pieces(t, e + 1),
                None => seq![EmojiPiece::Text(k, e)] + emoji_pieces(t, e),
            }
        }
    }
}

/// The bytes of the text that the pieces cover, one after the other.
pub open spec fn pieces_text(t: Seq<u8>, ps: Seq<EmojiPiece>) -> Seq<u8>
    decreases ps.len(),
{
    if ps.len() == 0 {
        Seq::empty()
    } else {
        let (a, b) = match ps[0] {
            EmojiPiece::Text(a, b) => (a, b),
            EmojiPiece::Emoji(a, b, _, _) => (a, b),
        };
        t.subrange(a, b) + pieces_text(t, ps.drop_first())
    }
}

/// What each piece is: plain text is never empty; a shortcode piece is a
/// colon, a shortcode that names its emoji, and a colon.
pub open spec fn pieces_ok(t: Seq<u8>, ps: Seq<EmojiPiece>) -> bool {
    forall|i: int| 0 <= i < ps.len() ==> match #[trigger] ps[i] {
        EmojiPiece::Text(a, b) => 0 <= a < b <= t.len(),
        EmojiPiece::Emoji(a, b, name, glyph) => {
            &&& 0 <= a && a + 2 <= b <= t.len()
            &&& t[a] == 58u8 && t[b - 1] == 58u8
            &&& emoji_by_shortcode(t.subrange(a + 1, b - 1)) == Some((name, glyph))
        },
    }
}

/// The writing of a text's pieces: plain text as text, shortcodes as emoji
/// elements.
pub open spec fn enc_pieces<T: TextTokenizer>(s: Enc<T>, t: Seq<u8>, ps: Seq<EmojiPiece>, base: int) -> Enc<T>
    decreases ps.len(),
{
    if ps.len() == 0 {
        s
    } else {
        let s1 = match ps[0] {
            EmojiPiece::Text(a, b) => enc_text(s, t.subrange(a, b), base + a, base + b),
            EmojiPiece::Emoji(_, _, name, glyph) => enc_emoji_elem(s, name, glyph),
        };
        enc_pieces(s1, t, ps.drop_first(), base)
    }
}

/// Splitting a text into emoji pieces loses nothing: the pieces, one after
/// the other, are the text from `k` on; no plain text piece is empty and
/// each shortcode piece names its emoji; and writing the text with emoji is
/// writing its pieces.
pub proof fn law_emoji_pieces_cover_text<T: TextTokenizer>(s: Enc<T>, t: Seq<u8>, k: int, base: int)
    requires
        0 <= k <= t.len(),
    ensures
        pieces_text(t, emoji_pieces(t, k)) == t.skip(k),
        pieces_ok(t, emoji_pieces(t, k)),
        emoji_pieces(t, k).len() <= t.len() - k,
        enc_emoji(s, t, k, base) == enc_pieces(s, t, emoji_pieces(t, k), base),
{
    lemma_emoji_pieces_cover(t, k);
    lemma_enc_emoji_pieces(s, t, k, base);
}

proof fn lemma_emoji_pieces_cover(t: Seq<u8>, k: int)
    requires
        0 <= k <= t.len(),
    ensures
        pieces_text(t, emoji_pieces(t, k)) == t.skip(k),
        pieces_ok(t, emoji_pieces(t, k)),
        emoji_pieces(t, k).len() <= t.len() - k,
    decreases t.len() - k,
{
    let ps = emoji_pieces(t, k);
    if k == t.len() {
        assert(t.skip(k) =~= Seq::<u8>::empty());
    } else if t[k] != 58u8 {
        lemma_next_byte(t, k, 58u8);
        let e = next_byte(t, k, 58u8);
        assert(e > k) by {
            if e == k {
                assert(t[e] == 58u8);
            }
        }
        lemma_emoji_pieces_cover(t, e);
        assert(ps.drop_first() =~= emoji_pieces(t, e));
        assert(pieces_text(t, ps) == t.subrange(k, e) + pieces_text(t, ps.drop_first()));
        assert(t.subrange(k, e) + t.skip(e) =~= t.skip(k));
        lemma_pieces_ok_cons(t, ps);
    } else {
        lemma_next_byte(t, k + 1, 58u8);
        let e = next_byte(t, k + 1, 58u8);
        if e == t.len() {
            assert(ps.drop_first() =~= Seq::<EmojiPiece>::empty());
            assert(pieces_text(t, ps.drop_first()) =~= Seq::<u8>::empty());
            assert(pieces_text(t, ps) == t.subrange(k, e) + pieces_text(t, ps.drop_first()));
            assert(t.subrange(k, e) + Seq::<u8>::empty() =~= t.skip(k));
            assert(pieces_ok(t, ps.drop_first()));
            lemma_pieces_ok_cons(t, ps);
        } else {
            match emoji_by_shortcode(t.subrange(k + 1, e)) {
                Some((name, glyph)) => {
                    lemma_emoji_pieces_cover(t, e + 1);
                    assert(ps.drop_first() =~= emoji_pieces(t, e + 1));
                    assert(pieces_text(t, ps) == t.subrange(k, e + 1) + pieces_text(t, ps.drop_first()));
                    assert(t.subrange(k, e + 1) + t.skip(e + 1) =~= t.skip(k));
                    assert(t.subrange(k + 1, (e + 1) - 1) =~= t.subrange(k + 1, e));
                    lemma_pieces_ok_cons(t, ps);
                },
                None => {
                    lemma_emoji_pieces_cover(t, e);
                    assert(ps.drop_first() =~= emoji_pieces(t, e));
                    assert(pieces_text(t, ps) == t.subrange(k, e) + pieces_text(t, ps.drop_first()));
                    assert(t.subrange(k, e) + t.skip(e) =~= t.skip(k));
                    lemma_pieces_ok_cons(t, ps);
                },
            }
        }
    }
}

proof fn lemma_enc_emoji_pieces<T: TextTokenizer>(s: Enc<T>, t: Seq<u8>, k: int, base: int)
    requires
        0 <= k <= t.len(),
    ensures
        enc_emoji(s, t, k, base) == enc_pieces(s, t, emoji_pieces(t, k), base),
    decreases t.len() - k,
{
    reveal(enc_emoji);
    let ps = emoji_pieces(t, k);
    if k == t.len() {
    } else if t[k] != 58u8 {
        lemma_next_byte(t, k, 58u8);
        let e = next_byte(t, k, 58u8);
        assert(e > k) by {
            if e == k {
                assert(t[e] == 58u8);
            }
        }
        let s1 = enc_text(s, t.subrange(k, e), base + k, base + e);
        lemma_enc_emoji_pieces(s1, t, e, base);
        assert(ps.drop_first() =~= emoji_pieces(t, e));
        assert(enc_pieces(s, t, ps, base) == enc_pieces(s1, t, ps.drop_first(), base));
    } else {
        lemma_next_byte(t, k + 1, 58u8);
        let e = next_byte(t, k + 1, 58u8);
        if e == t.len() {
            let s1 = enc_text(s, t.subrange(k, e), base + k, base + e);
            assert(ps.drop_first() =~= Seq::<EmojiPiece>::empty());
            assert(enc_pieces(s1, t, ps.drop_first(), base) == s1);
            assert(enc_pieces(s, t, ps, base) == enc_pieces(s1, t, ps.drop_first(), base));
        } else {
            match emoji_by_shortcode(t.subrange(k + 1, e)) {
                Some((name, glyph)) => {
                    let s1 = enc_emoji_elem(s, name, glyph);
                    lemma_enc_emoji_pieces(s1, t, e + 1, base);
                    assert(ps.drop_first() =~= emoji_pieces(t, e + 1));
                    assert(enc_pieces(s, t, ps, base) == enc_pieces(s1, t, ps.drop_first(), base));
                },
                None => {
                    let s1 = enc_text(s, t.subrange(k, e), base + k, base + e);
                    lemma_enc_emoji_pieces(s1, t, e, base);
                    assert(ps.drop_first() =~= emoji_pieces(t, e));
                    assert(enc_pieces(s, t, ps, base) == enc_pieces(s1, t, ps.drop_first(), base));
                },
            }
        }
    }
}

proof fn lemma_pieces_ok_cons(t: Seq<u8>, ps: Seq<EmojiPiece>)
    requires
        ps.len() > 0,
        pieces_ok(t, ps.drop_first()),
        pieces_ok(t, seq![ps[0]]),
    ensures
        pieces_ok(t, ps),
{
    assert forall|i: int| 0 <= i < ps.len() implies match #[trigger] ps[i] {
        EmojiPiece::Text(a, b) => 0 <= a < b <= t.len(),
        EmojiPiece::Emoji(a, b, name, glyph) => {
            &&& 0 <= a && a + 2 <= b <= t.len()
            &&& t[a] == 58u8 && t[b - 1] == 58u8
            &&& emoji_by_shortcode(t.subrange(a + 1, b - 1)) == Some((name, glyph))
        },
    } by {
        if i == 0 {
            assert(seq![ps[0]][0] == ps[0]);
        } else {
            assert(ps.drop_first()[i - 1] == ps[i]);
        }
    }
}

/// A text in which plain URLs become links (the URL is the link's text),
/// and the rest goes through `enc_emoji`; the text starts at `base`.
#[verifier::opaque]
pub open spec fn enc_autolink<T: TextTokenizer>(s: Enc<T>, t: Seq<u8>, base: int) -> Enc<T>
    decreases t.len(),
{
    match spec_find_autolink(t) {
        Some((a, b)) => if 0 <= a < b <= t.len() {
            let s1 = if a > 0 { enc_emoji(s, t.take(a), 0, base) } else { s };
            let url = t.subrange(a, b);
            let s2 = enc_children_begin(enc_string(enc_raw(enc_tag(s1, Element::A), lit_autolink()), url));
            let s3 = enc_tag_end(enc_text(s2, url, base + a, base + b));
            enc_autolink(s3, t.skip(b), base + b)
        } else {
            s
        },
        None => if t.len() > 0 {
            enc_emoji(s, t, 0, base)
        } else {
            s
        },
    }
}

/// An HTML element holding the sanitized form of raw HTML.
pub open spec fn enc_html<T>(s: Enc<T>, raw: Seq<u8>, dir: Seq<char>) -> Enc<T> {
    enc_raw(
        enc_raw(enc_raw(enc_tag(s, Element::Html), lit_raw()), escape_bytes(sanitized_html(raw, dir))),
        lit_raw_end(),
    )
}

/// A link destination as a quoted string: a relative link is resolved
/// against the document's directory.
pub open spec fn rebased_link(dir: Seq<char>, dest: Seq<char>) -> Seq<u8> {
    if !spec_should_rebase_url(dest) {
        lit_quote() + escape_bytes(encode_utf8(dest)) + lit_quote()
    } else {
        let sep = if dest.len() > 0 && dest[0] == '/' { Seq::<u8>::empty() } else { lit_slash() };
        lit_quote() + escape_bytes(encode_utf8(dir)) + sep + escape_bytes(encode_utf8(dest)) + lit_quote()
    }
}

/// The alignment of a table column.
pub open spec fn align_lit(a: Alignment) -> Seq<u8> {
    match a {
        Alignment::Unset => lit_null(),
        Alignment::Left => lit_left(),
        Alignment::Center => lit_center(),
        Alignment::Right => lit_right(),
    }
}

/// A table column's alignment is written as JSON: `null` when the column
/// has none, else the quoted name of its alignment, `"left"`, `"center"` or
/// `"right"` (bytes below); different alignments are never written alike.
pub proof fn law_alignment_written_by_name(a: Alignment, b: Alignment)
    ensures
        a != b ==> align_lit(a) != align_lit(b),
        align_lit(a) == match a {
            Alignment::Unset => seq![0x6eu8, 0x75u8, 0x6cu8, 0x6cu8],
            Alignment::Left => seq![0x22u8, 0x6cu8, 0x65u8, 0x66u8, 0x74u8, 0x22u8],
            Alignment::Center => seq![0x22u8, 0x63u8, 0x65u8, 0x6eu8, 0x74u8, 0x65u8, 0x72u8, 0x22u8],
            Alignment::Right => seq![0x22u8, 0x72u8, 0x69u8, 0x67u8, 0x68u8, 0x74u8, 0x22u8],
        },
{
    assert(align_lit(a).len() != align_lit(b).len() || a == b);
}

/// The alignments of a table's columns, separated by commas.
pub open spec fn aligns_list(a: Seq<Alignment>) -> Seq<u8>
    decreases a.len(),
{
    if a.len() == 0 {
        Seq::empty()
    } else if a.len() == 1 {
        align_lit(a[0])
    } else {
        aligns_list(a.drop_last()) + lit_comma() + align_lit(a.last())
    }
}

/// The name of an alert kind.
pub open spec fn alert_kind_name(k: AlertKind) -> Seq<u8> {
    match k {
        AlertKind::Note => seq![110u8, 111u8, 116u8, 101u8],
        AlertKind::Tip => seq![116u8, 105u8, 112u8],
        AlertKind::Important => seq![105u8, 109u8, 112u8, 111u8, 114u8, 116u8, 97u8, 110u8, 116u8],
        AlertKind::Warning => seq![119u8, 97u8, 114u8, 110u8, 105u8, 110u8, 103u8],
        AlertKind::Caution => seq![99u8, 97u8, 117u8, 116u8, 105u8, 111u8, 110u8],
    }
}

/// The first word of a code block's info string: the language.
pub open spec fn first_word(t: Seq<u8>) -> Seq<u8> {
    t.take(next_byte(t, 0, 32u8))
}

/// The first position of a name among the footnote names from `k` on, or
/// -1 when it is not there.
pub open spec fn position_from(ids: Seq<Seq<u8>>, name: Seq<u8>, k: int) -> int
    decreases ids.len() - k,
{
    if k < 0 || k >= ids.len() {
        -1
    } else if ids[k] == name {
        k
    } else {
        position_from(ids, name, k + 1)
    }
}

/// The id of a footnote name, given on first sight in order from 1, and the
/// names known after it.
pub open spec fn footnote_id(ids: Seq<Seq<u8>>, name: Seq<u8>) -> (Seq<Seq<u8>>, nat) {
    let p = position_from(ids, name, 0);
    if p >= 0 {
        (ids, (p + 1) as nat)
    } else {
        (ids.push(name), ids.len() + 1)
    }
}

/// A title attribute, written when the title is not empty.
pub open spec fn enc_title<T>(s: Enc<T>, title: Seq<u8>) -> Enc<T> {
    if title.len() > 0 {
        enc_string(enc_raw(s, lit_title()), title)
    } else {
        s
    }
}

/// A heading with its level.
pub open spec fn enc_heading<T>(s: Enc<T>, level: u8) -> Enc<T> {
    enc_raw(enc_tag(s, Element::H), lit_level() + decimal(level as nat))
}

/// A table with the alignment of its columns.
pub open spec fn enc_table<T>(s: Enc<T>, aligns: Seq<Alignment>) -> Enc<T> {
    enc_raw(enc_tag(s, Element::Table), lit_align() + aligns_list(aligns) + lit_close_bracket())
}

/// The head of a table: its row starts at once.
pub open spec fn enc_table_head<T>(s: Enc<T>) -> Enc<T> {
    enc_tag(enc_children_begin(enc_tag(Enc { table_head: true, ..s }, Element::Thead)), Element::Tr)
}

/// A block quote, or an alert with its kind.
pub open spec fn enc_block_quote<T>(s: Enc<T>, kind: Option<AlertKind>) -> Enc<T> {
    match kind {
        None => enc_tag(s, Element::Blockquote),
        Some(k) => enc_raw(enc_tag(s, Element::Alert), lit_kind() + alert_kind_name(k) + lit_quote()),
    }
}

/// A code block: a `pre` holding a `code` element with the language of a
/// fenced block, when its info string names one.
pub open spec fn enc_code_block<T>(s: Enc<T>, info: Option<String>) -> Enc<T> {
    let s2 = enc_tag(enc_children_begin(enc_tag(s, Element::Pre)), Element::Code);
    match info {
        Some(i) => if first_word(bytes_of(i)).len() > 0 {
            enc_string(enc_raw(s2, lit_lang()), first_word(bytes_of(i)))
        } else {
            s2
        },
        None => s2,
    }
}

/// A list: ordered lists that do not start at 1 say where they start.
pub open spec fn enc_list<T>(s: Enc<T>, start: Option<u64>) -> Enc<T> {
    match start {
        Some(n) => if n == 1 {
            enc_tag(s, Element::Ol)
        } else {
            enc_raw(enc_tag(s, Element::Ol), lit_start() + decimal(n as nat))
        },
        None => enc_tag(s, Element::Ul),
    }
}

/// A link: an email link points to `mailto:`, others are rebased.
pub open spec fn enc_link<T>(s: Enc<T>, kind: LinkKind, dest: String, title: String, dir: Seq<char>) -> Enc<T> {
    let s2 = enc_raw(enc_tag(s, Element::A), lit_href());
    let s3 = if kind == LinkKind::Email {
        enc_raw(s2, lit_mailto() + escape_bytes(bytes_of(dest)) + lit_quote())
    } else {
        enc_raw(s2, rebased_link(dir, dest@))
    };
    enc_title(s3, bytes_of(title))
}

/// An image with its title and rebased source.
pub open spec fn enc_image<T>(s: Enc<T>, dest: String, title: String, dir: Seq<char>) -> Enc<T> {
    enc_raw(enc_raw(enc_title(enc_tag(s, Element::Img), bytes_of(title)), lit_src()), rebased_link(dir, dest@))
}

/// The id attribute of a footnote name, which is given an id on first sight.
pub open spec fn enc_footnote_id<T>(s: Enc<T>, name: Seq<u8>) -> Enc<T> {
    let (ids, id) = footnote_id(s.ids, name);
    enc_raw(Enc { ids: ids, ..s }, lit_id() + decimal(id))
}

/// A footnote definition with its name, when it has one, and its id.
pub open spec fn enc_footnote_def<T>(s: Enc<T>, name: Seq<u8>) -> Enc<T> {
    let s2 = enc_tag(s, Element::FnDef);
    let s3 = if name.len() > 0 { enc_string(enc_raw(s2, lit_name()), name) } else { s2 };
    enc_footnote_id(s3, name)
}

/// The name and attributes of an element that starts. An item is a task
/// list item when a task marker follows it.
pub open spec fn enc_open<T>(s: Enc<T>, tag: MdTag, task: bool, dir: Seq<char>) -> Enc<T> {
    match tag {
        MdTag::Paragraph => enc_tag(s, Element::P),
        MdTag::Heading(level, _) => enc_heading(s, level),
        MdTag::Table(aligns) => enc_table(s, aligns@),
        MdTag::TableHead => enc_table_head(s),
        MdTag::TableRow => enc_tag(Enc { table_head: false, ..s }, Element::Tr),
        MdTag::TableCell => enc_tag(s, if s.table_head { Element::Th } else { Element::Td }),
        MdTag::BlockQuote(kind) => enc_block_quote(s, kind),
        MdTag::CodeBlock(info) => enc_code_block(s, info),
        MdTag::List(start) => enc_list(s, start),
        MdTag::Item => enc_tag(s, if task { Element::TaskList } else { Element::Li }),
        MdTag::Emphasis => enc_tag(s, Element::Em),
        MdTag::Strong => enc_tag(s, Element::Strong),
        MdTag::Strikethrough => enc_tag(s, Element::Del),
        MdTag::Link(kind, dest, title) => enc_link(s, kind, dest, title, dir),
        MdTag::Image(dest, title) => enc_image(s, dest, title, dir),
        MdTag::FootnoteDefinition(name) => enc_footnote_def(s, bytes_of(name)),
        MdTag::HtmlBlock => s,
        MdTag::Disabled => s,
    }
}

/// The start of an element: its name, its attributes, and the start of its
/// children.
pub open spec fn enc_start<T>(s: Enc<T>, tag: MdTag, task: bool, dir: Seq<char>) -> Enc<T> {
    enc_children_begin(enc_open(s, tag, task, dir))
}

/// The end of an element.
pub open spec fn enc_end<T>(s: Enc<T>, tag: MdTagEnd, f: Flags) -> (Enc<T>, Flags) {
    match tag {
        MdTagEnd::Link => if f.in_auto_link {
            (s, Flags { in_auto_link: false, ..f })
        } else {
            (enc_tag_end(s), Flags { in_link: false, ..f })
        },
        MdTagEnd::CodeBlock => (enc_tag_end(enc_tag_end(s)), Flags { in_code_block: false, ..f }),
        MdTagEnd::Table => (enc_tag_end(enc_tag_end(s)), f),
        MdTagEnd::TableHead => (
            enc_children_begin(enc_tag(enc_tag_end(enc_tag_end(s)), Element::Tbody)),
            f,
        ),
        MdTagEnd::HtmlBlock => (s, f),
        _ => (enc_tag_end(s), f),
    }
}

/// A text event: texts in code blocks and links are written as they are,
/// others are scanned for URLs and emoji.
pub open spec fn enc_text_event<T: TextTokenizer>(s: Enc<T>, t: Seq<u8>, r: Range<usize>, f: Flags) -> Enc<T> {
    if f.in_code_block || f.in_link {
        enc_text(s, t, r.start as int, r.end as int)
    } else {
        enc_autolink(s, t, r.start as int)
    }
}

/// A code span: its text sits in the middle of its range, between the
/// backticks.
pub open spec fn enc_code_span<T: TextTokenizer>(s: Enc<T>, t: Seq<u8>, r: Range<usize>) -> Enc<T> {
    let pad = (r.end - r.start - t.len()) / 2;
    let s1 = enc_children_begin(enc_tag(s, Element::Code));
    enc_tag_end(enc_text(s1, t, r.start + pad, r.end - pad))
}

/// A soft break is a space at the last byte of its line ending.
pub open spec fn enc_soft_break<T: TextTokenizer>(s: Enc<T>, r: Range<usize>) -> Enc<T> {
    let start = if r.end - r.start == 1 { r.start as int } else { r.end - 1 };
    enc_text(s, seq![32u8], start, r.end as int)
}

/// An element without children or attributes.
pub open spec fn enc_empty_elem<T>(s: Enc<T>, e: Element) -> Enc<T> {
    enc_raw(enc_tag(s, e), lit_close_brace())
}

/// A reference to a footnote by its id.
pub open spec fn enc_footnote_ref<T>(s: Enc<T>, name: Seq<u8>) -> Enc<T> {
    enc_raw(enc_footnote_id(enc_tag(s, Element::FnRef), name), lit_close_brace())
}

/// A task list marker.
pub open spec fn enc_checkbox<T>(s: Enc<T>, checked: bool) -> Enc<T> {
    enc_raw(enc_tag(s, Element::Checkbox), if checked { lit_checked_true() } else { lit_checked_false() })
}

/// A math expression, shown as a block or inline.
pub open spec fn enc_math<T>(s: Enc<T>, inline: bool, t: Seq<u8>) -> Enc<T> {
    let attr = if inline { lit_inline_math() } else { lit_display_math() };
    enc_raw(enc_string(enc_raw(enc_tag(s, Element::Math), attr), t), lit_close_brace())
}

/// The start of an element, with what it does to the flags.
pub open spec fn enc_start_event<T>(
    s: Enc<T>,
    ev: Seq<(MdEvent, Range<usize>)>,
    i: int,
    tag: MdTag,
    f: Flags,
    dir: Seq<char>,
) -> (Enc<T>, Flags) {
    match tag {
        MdTag::Link(LinkKind::Autolink, _, _) => (s, Flags { in_auto_link: true, ..f }),
        MdTag::HtmlBlock => (enc_html(s, html_block_from(ev, i + 1, Seq::empty()).0, dir), f),
        MdTag::CodeBlock(_) => (enc_start(s, tag, false, dir), Flags { in_code_block: true, ..f }),
        MdTag::Link(_, _, _) => (enc_start(s, tag, false, dir), Flags { in_link: true, ..f }),
        MdTag::Item => (
            enc_start(s, tag, i + 1 < ev.len() && ev[i + 1].0 is TaskListMarker, dir),
            f,
        ),
        _ => (enc_start(s, tag, false, dir), f),
    }
}

/// The event at `i`, with what it consumes of the events after it.
pub open spec fn enc_event<T: TextTokenizer>(
    s: Enc<T>,
    ev: Seq<(MdEvent, Range<usize>)>,
    i: int,
    f: Flags,
    dir: Seq<char>,
) -> (Enc<T>, Flags) {
    let r = ev[i].1;
    match ev[i].0 {
        MdEvent::Start(tag) => enc_start_event(s, ev, i, tag, f, dir),
        MdEvent::End(tag) => enc_end(s, tag, f),
        MdEvent::Text(t) => (enc_text_event(s, bytes_of(t), r, f), f),
        MdEvent::Code(t) => (enc_code_span(s, bytes_of(t), r), f),
        MdEvent::Html(h) => (enc_html(s, inline_html(ev, i, bytes_of(h)).0, dir), f),
        MdEvent::InlineHtml(h) => (enc_html(s, inline_html(ev, i, bytes_of(h)).0, dir), f),
        MdEvent::SoftBreak => (enc_soft_break(s, r), f),
        MdEvent::HardBreak => (enc_empty_elem(s, Element::Br), f),
        MdEvent::Rule => (enc_empty_elem(s, Element::Hr), f),
        MdEvent::FootnoteReference(name) => (enc_footnote_ref(s, bytes_of(name)), f),
        MdEvent::TaskListMarker(checked) => (enc_checkbox(s, checked), f),
        MdEvent::DisplayMath(t) => (enc_math(s, false, bytes_of(t)), f),
        MdEvent::InlineMath(t) => (enc_math(s, true, bytes_of(t)), f),
    }
}

/// The events from `i` on.
pub open spec fn enc_events<T: TextTokenizer>(
    s: Enc<T>,
    ev: Seq<(MdEvent, Range<usize>)>,
    i: int,
    f: Flags,
    dir: Seq<char>,
) -> Enc<T>
    decreases ev.len() - i,
{
    if i < 0 || i >= ev.len() {
        s
    } else {
        let (s2, f2) = enc_event(s, ev, i, f, dir);
        let j = next_index(ev, i);
        if i < j <= ev.len() {
            enc_events(s2, ev, j, f2, dir)
        } else {
            s2
        }
    }
}

/// The encoder's state before any output.
pub open spec fn enc_init<T>(offset: Option<usize>, tokenizer: T, merge: bool) -> Enc<T> {
    Enc {
        out: Seq::empty(),
        is_start: true,
        table_head: true,
        ids: Seq::empty(),
        modified: offset,
        text: Seq::empty(),
        srcmap: Seq::empty(),
        merge: merge,
        tokenizer: tokenizer,
    }
}

/// A whole document: a JavaScript expression that parses the render tree,
/// a list of the elements of the events. When the last modification was not
/// met by any text, its marker is placed after the last element.
pub open spec fn enc_document<T: TextTokenizer>(
    ev: Seq<(MdEvent, Range<usize>)>,
    dir: Seq<char>,
    offset: Option<usize>,
    tokenizer: T,
) -> Enc<T> {
    let s1 = enc_raw(enc_init(offset, tokenizer, true), lit_message_begin() + lit_open_bracket());
    let s2 = enc_events(s1, ev, 0, Flags { in_code_block: false, in_auto_link: false, in_link: false }, dir);
    let s3 = if s2.modified is Some { enc_marker(s2) } else { s2 };
    enc_raw(s3, lit_close_bracket() + lit_message_end())
}

} // verus!

verus! {

/// Whether two byte strings are equal.
fn bytes_equal(a: &[u8], b: &[u8]) -> (r: bool)
    ensures
        r == (a@ == b@),
{
    if a.len() != b.len() {
        return false;
    }
    let mut i: usize = 0;
    while i < a.len()
        invariant
            a@.len() == b@.len(),
            i <= a@.len(),
            forall|j: int| 0 <= j < i ==> a@[j] == b@[j],
        decreases a.len() - i,
    {
        if a[i] != b[i] {
            return false;
        }
        i = i + 1;
    }
    assert(a@ =~= b@);
    true
}

/// Writes the name of an alert kind.
fn write_alert_kind(out: &mut Vec<u8>, k: AlertKind)
    ensures
        final(out)@ == old(out)@ + alert_kind_name(k),
{
    match k {
        AlertKind::Note => append_bytes(out, &[110, 111, 116, 101]),
        AlertKind::Tip => append_bytes(out, &[116, 105, 112]),
        AlertKind::Important => append_bytes(out, &[105, 109, 112, 111, 114, 116, 97, 110, 116]),
        AlertKind::Warning => append_bytes(out, &[119, 97, 114, 110, 105, 110, 103]),
        AlertKind::Caution => append_bytes(out, &[99, 97, 117, 116, 105, 111, 110]),
    }
    assert(out@ =~= old(out)@ + alert_kind_name(k));
}

/// Writes the alignment of a table column.
fn write_alignment(out: &mut Vec<u8>, a: Alignment)
    ensures
        final(out)@ == old(out)@ + align_lit(a),
{
    match a {
        Alignment::Unset => write_null(out),
        Alignment::Left => write_left(out),
        Alignment::Center => write_center(out),
        Alignment::Right => write_right(out),
    }
}

/// Writes the alignments of a table's columns, separated by commas.
fn write_alignments(out: &mut Vec<u8>, aligns: &Vec<Alignment>)
    ensures
        final(out)@ == old(out)@ + aligns_list(aligns@),
{
    let ghost before = out@;
    let mut i: usize = 0;
    while i < aligns.len()
        invariant
            i <= aligns@.len(),
            out@ == before + aligns_list(aligns@.take(i as int)),
        decreases aligns.len() - i,
    {
        if i > 0 {
            write_comma(out);
        }
        write_alignment(out, aligns[i]);
        assert(aligns@.take(i + 1).drop_last() =~= aligns@.take(i as int));
        if i == 0 {
            assert(aligns_list(aligns@.take(1)) == align_lit(aligns@[0]));
        }
        assert(out@ =~= before + aligns_list(aligns@.take(i + 1)));
        i = i + 1;
    }
    assert(aligns@.take(i as int) =~= aligns@);
}

/// The first word of a code block's info string.
fn first_word_len(t: &[u8]) -> (n: usize)
    ensures
        n == next_byte(t@, 0, 32u8),
        n <= t@.len(),
{
    proof {
        lemma_next_byte(t@, 0, 32u8);
    }
    let mut i: usize = 0;
    while i < t.len() && t[i] != 32
        invariant
            i <= t@.len(),
            next_byte(t@, i as int, 32u8) == next_byte(t@, 0, 32u8),
        decreases t.len() - i,
    {
        i = i + 1;
    }
    i
}

/// Encodes Markdown events into the render tree that the preview draws.
pub struct RenderTreeEncoder<'a, T: TextTokenizer, V: TextVisitor> {
    out: Vec<u8>,
    base_dir: &'a str,
    table_head: bool,
    is_start: bool,
    ids: Vec<Vec<u8>>,
    modified: Option<usize>,
    text_visitor: V,
    text_tokenizer: T,
    autolinker: Autolinker,
}

impl<'a, T: TextTokenizer, V: TextVisitor> RenderTreeEncoder<'a, T, V> {
    /// The encoder's state.
    pub closed spec fn state(&self) -> Enc<T> {
        Enc {
            out: self.out@,
            is_start: self.is_start,
            table_head: self.table_head,
            ids: self.ids@.map_values(|v: Vec<u8>| v@),
            modified: self.modified,
            text: self.text_visitor.visitor_text(),
            srcmap: self.text_visitor.visitor_srcmap(),
            merge: V::merges_ranges(),
            tokenizer: self.text_tokenizer,
        }
    }

    /// The directory that relative links are resolved against.
    pub closed spec fn spec_base_dir(&self) -> Seq<char> {
        self.base_dir@
    }

    /// The encoder's invariant.
    pub closed spec fn wf(&self) -> bool {
        &&& self.text_visitor.visitor_inv()
        &&& self.text_tokenizer.inv()
    }

    /// A new encoder for a document in the directory `base_dir`; `modified`
    /// is the offset of the last modification, if any.
    pub fn new(base_dir: &'a str, modified: Option<usize>, text_tokenizer: T, text_visitor: V) -> (e: Self)
        requires
            text_tokenizer.inv(),
            text_visitor.visitor_inv(),
            text_visitor.visitor_text() == Seq::<u8>::empty(),
            text_visitor.visitor_srcmap() == Seq::<Range<usize>>::empty(),
        ensures
            e.state() == enc_init(modified, text_tokenizer, V::merges_ranges()),
            e.spec_base_dir() == base_dir@,
            e.wf(),
    {
        let e = RenderTreeEncoder {
            out: Vec::new(),
            base_dir,
            table_head: true,
            is_start: true,
            ids: Vec::new(),
            modified,
            text_visitor,
            text_tokenizer,
            autolinker: Autolinker,
        };
        assert(e.ids@.map_values(|v: Vec<u8>| v@) =~= Seq::<Seq<u8>>::empty());
        e
    }

    /// Writes a byte string, escaped, without quotes.
    pub(crate) fn escaped(&mut self, bytes: &[u8])
        ensures
            final(self).state() == enc_raw(old(self).state(), escape_bytes(bytes@)),
            final(self).wf() == old(self).wf(),
            final(self).spec_base_dir() == old(self).spec_base_dir(),
    {
        encode_string_content(&mut self.out, bytes);
    }

    /// Whether the last modification was not marked yet.
    pub(crate) fn marker_pending(&self) -> (b: bool)
        ensures
            b == (self.state().modified is Some),
    {
        self.modified.is_some()
    }

    /// The output and the visitor.
    pub(crate) fn into_parts(self) -> (r: (Vec<u8>, V))
        ensures
            r.0@ == self.state().out,
            r.1.visitor_text() == self.state().text,
            r.1.visitor_srcmap() == self.state().srcmap,
            self.wf() ==> r.1.visitor_inv(),
    {
        (self.out, self.text_visitor)
    }

    fn comma(&mut self)
        ensures
            final(self).state() == enc_comma(old(self).state()),
            final(self).wf() == old(self).wf(),
            final(self).spec_base_dir() == old(self).spec_base_dir(),
    {
        if !self.is_start {
            write_comma(&mut self.out);
        } else {
            self.is_start = false;
        }
    }

    pub(crate) fn tag(&mut self, e: Element)
        ensures
            final(self).state() == enc_tag(old(self).state(), e),
            final(self).wf() == old(self).wf(),
            final(self).spec_base_dir() == old(self).spec_base_dir(),
    {
        self.comma();
        write_tag_open(&mut self.out);
        write_element_name(&mut self.out, e);
        write_quote(&mut self.out);
        assert(self.out@ =~= enc_tag(old(self).state(), e).out);
    }

    pub(crate) fn raw(&mut self, bytes: &[u8])
        ensures
            final(self).state() == enc_raw(old(self).state(), bytes@),
            final(self).wf() == old(self).wf(),
            final(self).spec_base_dir() == old(self).spec_base_dir(),
    {
        append_bytes(&mut self.out, bytes);
    }

    pub(crate) fn string(&mut self, s: &[u8])
        ensures
            final(self).state() == enc_string(old(self).state(), s@),
            final(self).wf() == old(self).wf(),
            final(self).spec_base_dir() == old(self).spec_base_dir(),
    {
        write_quote(&mut self.out);
        encode_string_content(&mut self.out, s);
        write_quote(&mut self.out);
        assert(self.out@ =~= enc_string(old(self).state(), s@).out);
    }

    pub(crate) fn children_begin(&mut self)
        ensures
            final(self).state() == enc_children_begin(old(self).state()),
            final(self).wf() == old(self).wf(),
            final(self).spec_base_dir() == old(self).spec_base_dir(),
    {
        self.is_start = true;
        write_children_begin(&mut self.out);
    }

    pub(crate) fn tag_end(&mut self)
        ensures
            final(self).state() == enc_tag_end(old(self).state()),
            final(self).wf() == old(self).wf(),
            final(self).spec_base_dir() == old(self).spec_base_dir(),
    {
        self.is_start = false;
        write_tag_end(&mut self.out);
    }

    pub(crate) fn marker(&mut self)
        ensures
            final(self).state() == enc_marker(old(self).state()),
            final(self).wf() == old(self).wf(),
            final(self).spec_base_dir() == old(self).spec_base_dir(),
    {
        self.tag(Element::Modified);
        write_close_brace(&mut self.out);
    }

    fn text_tokens(&mut self, text: &[u8], start: usize)
        requires
            old(self).wf(),
            start + text@.len() <= usize::MAX,
        ensures
            final(self).state() == enc_text_tokens(old(self).state(), text@, start as int),
            final(self).wf(),
            final(self).spec_base_dir() == old(self).spec_base_dir(),
    {
        reveal(enc_text_tokens);
        let ghost goal = enc_text_tokens(self.state(), text@, start as int);
        assert(text@.skip(0) =~= text@);
        let mut i: usize = 0;
        while i < text.len()
            invariant
                self.wf(),
                self.spec_base_dir() == old(self).spec_base_dir(),
                i <= text@.len(),
                start + text@.len() <= usize::MAX,
                enc_text_tokens(self.state(), text@.skip(i as int), start + i) == goal,
                goal == enc_text_tokens(old(self).state(), text@, start as int),
            decreases text.len() - i,
        {
            proof {
                reveal(enc_text_tokens);
            }
            let rest = &text[i..text.len()];
            let range = Range { start: start + i, end: start + text.len() };
            let (kind, n) = self.text_tokenizer.tokenize(rest, &range);
            let piece = &rest[0..n];
            match kind {
                TokenKind::Normal => {
                    self.comma();
                    self.string(piece);
                },
                _ => {
                    let e = match kind {
                        TokenKind::MatchOther => Element::Match,
                        TokenKind::MatchCurrent => Element::MatchCurrent,
                        TokenKind::MatchOtherStart => Element::MatchStart,
                        _ => Element::MatchCurrentStart,
                    };
                    self.tag(e);
                    self.children_begin();
                    self.string(piece);
                    self.tag_end();
                },
            }
            assert(text@.skip(i as int).skip(n as int) =~= text@.skip(i + n));
            assert(rest@.take(n as int) =~= piece@);
            i = i + n;
        }
        assert(text@.skip(i as int) =~= Seq::<u8>::empty());
    }

    pub(crate) fn text(&mut self, text: &[u8], start: usize, end: usize)
        requires
            old(self).wf(),
            start <= end,
            start + text@.len() <= usize::MAX,
        ensures
            final(self).state() == enc_text(old(self).state(), text@, start as int, end as int),
            final(self).wf(),
            final(self).spec_base_dir() == old(self).spec_base_dir(),
    {
        reveal(enc_text);
        let range = Range { start, end };
        self.text_visitor.visit(text, &range);
        match self.modified {
            None => self.text_tokens(text, start),
            Some(offset) => {
                if end < offset {
                    self.text_tokens(text, start);
                } else {
                    self.modified = None;
                    if offset <= start {
                        self.marker();
                        self.text_tokens(text, start);
                    } else if end == offset {
                        self.text_tokens(text, start);
                        self.marker();
                    } else {
                        let i = if offset - start <= text.len() { offset - start } else { text.len() };
                        self.text_tokens(&text[0..i], start);
                        self.marker();
                        self.text_tokens(&text[i..text.len()], offset);
                    }
                }
            },
        }
    }

    fn emoji(&mut self, name: &[u8], glyph: &[u8])
        ensures
            final(self).state() == enc_emoji_elem(old(self).state(), name@, glyph@),
            final(self).wf() == old(self).wf(),
            final(self).spec_base_dir() == old(self).spec_base_dir(),
    {
        self.tag(Element::Emoji);
        write_name(&mut self.out);
        self.string(name);
        self.children_begin();
        self.string(glyph);
        self.tag_end();
    }

    pub(crate) fn emoji_text(&mut self, t: &[u8], base: usize)
        requires
            old(self).wf(),
            base + t@.len() <= usize::MAX,
        ensures
            final(self).state() == enc_emoji(old(self).state(), t@, 0, base as int),
            final(self).wf(),
            final(self).spec_base_dir() == old(self).spec_base_dir(),
    {
        reveal(enc_emoji);
        let ghost goal = enc_emoji(self.state(), t@, 0, base as int);
        let mut k: usize = 0;
        while k < t.len()
            invariant
                self.wf(),
                self.spec_base_dir() == old(self).spec_base_dir(),
                k <= t@.len(),
                base + t@.len() <= usize::MAX,
                enc_emoji(self.state(), t@, k as int, base as int) == goal,
            decreases t.len() - k,
        {
            proof {
                reveal(enc_emoji);
            }
            if t[k] != 58 {
                let e = find_colon(t, k);
                self.text(&t[k..e], base + k, base + e);
                k = e;
            } else {
                let e = find_colon(t, k + 1);
                if e == t.len() {
                    self.text(&t[k..e], base + k, base + e);
                    k = e;
                } else {
                    match lookup_emoji(&t[k + 1..e]) {
                        Some((name, glyph)) => {
                            self.emoji(name, glyph);
                            k = e + 1;
                        },
                        None => {
                            self.text(&t[k..e], base + k, base + e);
                            k = e;
                        },
                    }
                }
            }
        }
    }

    fn autolink_text(&mut self, t: &[u8], base: usize)
        requires
            old(self).wf(),
            base + t@.len() <= usize::MAX,
        ensures
            final(self).state() == enc_autolink(old(self).state(), t@, base as int),
            final(self).wf(),
            final(self).spec_base_dir() == old(self).spec_base_dir(),
    {
        reveal(enc_autolink);
        let ghost goal = enc_autolink(self.state(), t@, base as int);
        let mut i: usize = 0;
        assert(t@.skip(0) =~= t@);
        loop
            invariant_except_break
                enc_autolink(self.state(), t@.skip(i as int), base + i) == goal,
            invariant
                self.wf(),
                self.spec_base_dir() == old(self).spec_base_dir(),
                i <= t@.len(),
                base + t@.len() <= usize::MAX,
                goal == enc_autolink(old(self).state(), t@, base as int),
            ensures
                self.state() == goal,
                self.wf(),
                self.spec_base_dir() == old(self).spec_base_dir(),
            decreases t.len() - i,
        {
            proof {
                reveal(enc_autolink);
            }
            let rest = &t[i..t.len()];
            assert(rest@ =~= t@.skip(i as int));
            match self.autolinker.find_autolink(rest) {
                Some((a, b)) => {
                    if a > 0 {
                        self.emoji_text(&rest[0..a], base + i);
                        assert(rest@.take(a as int) =~= rest@.subrange(0, a as int));
                    }
                    let url = &rest[a..b];
                    self.tag(Element::A);
                    write_autolink(&mut self.out);
                    self.string(url);
                    self.children_begin();
                    self.text(url, base + i + a, base + i + b);
                    self.tag_end();
                    assert(t@.skip(i as int).skip(b as int) =~= t@.skip(i + b));
                    i = i + b;
                },
                None => {
                    if rest.len() > 0 {
                        self.emoji_text(rest, base + i);
                    }
                    break;
                },
            }
        }
    }

    fn html(&mut self, raw: &[u8])
        ensures
            final(self).state() == enc_html(old(self).state(), raw@, old(self).spec_base_dir()),
            final(self).wf() == old(self).wf(),
            final(self).spec_base_dir() == old(self).spec_base_dir(),
    {
        let clean = clean_html(raw, self.base_dir);
        self.tag(Element::Html);
        write_raw(&mut self.out);
        encode_string_content(&mut self.out, clean.as_slice());
        write_raw_end(&mut self.out);
        assert(self.out@ =~= enc_html(old(self).state(), raw@, old(self).spec_base_dir()).out);
    }

    fn rebase_link(&mut self, dest: &String)
        ensures
            final(self).state() == enc_raw(old(self).state(), rebased_link(old(self).spec_base_dir(), dest@)),
            final(self).wf() == old(self).wf(),
            final(self).spec_base_dir() == old(self).spec_base_dir(),
    {
        let d = dest.as_str();
        if !should_rebase_url(d) {
            self.string(d.as_bytes());
            assert(self.out@ =~= old(self).state().out + rebased_link(old(self).spec_base_dir(), dest@));
            return;
        }
        write_quote(&mut self.out);
        encode_string_content(&mut self.out, self.base_dir.as_bytes());
        let slash = starts_with_char(d, '/');
        if !slash {
            write_slash(&mut self.out);
        }
        encode_string_content(&mut self.out, d.as_bytes());
        write_quote(&mut self.out);
        assert(self.out@ =~= old(self).state().out + rebased_link(old(self).spec_base_dir(), dest@));
    }

    fn id(&mut self, name: &[u8]) -> (id: u64)
        ensures
            final(self).state() == (Enc { ids: footnote_id(old(self).state().ids, name@).0, ..old(self).state() }),
            id == footnote_id(old(self).state().ids, name@).1,
            final(self).wf() == old(self).wf(),
            final(self).spec_base_dir() == old(self).spec_base_dir(),
    {
        let ghost ids = self.state().ids;
        let mut k: usize = 0;
        while k < self.ids.len()
            invariant
                k <= ids.len(),
                self.ids@.len() == ids.len(),
                ids == self.state().ids,
                self == old(self),
                position_from(ids, name@, k as int) == position_from(ids, name@, 0),
            decreases self.ids.len() - k,
        {
            if bytes_equal(self.ids[k].as_slice(), name) {
                return (k as u64) + 1;
            }
            k = k + 1;
        }
        let mut v: Vec<u8> = Vec::new();
        append_bytes(&mut v, name);
        self.ids.push(v);
        assert(self.ids@.map_values(|v: Vec<u8>| v@) =~= ids.push(name@));
        self.ids.len() as u64
    }

    pub(crate) fn title(&mut self, title: &String)
        ensures
            final(self).state() == enc_title(old(self).state(), bytes_of(*title)),
            final(self).wf() == old(self).wf(),
            final(self).spec_base_dir() == old(self).spec_base_dir(),
    {
        let t = string_bytes(title);
        if t.len() > 0 {
            write_title(&mut self.out);
            self.string(t);
        }
    }

    pub(crate) fn heading(&mut self, level: u8)
        ensures
            final(self).state() == enc_heading(old(self).state(), level),
            final(self).wf() == old(self).wf(),
            final(self).spec_base_dir() == old(self).spec_base_dir(),
    {
        self.tag(Element::H);
        write_level(&mut self.out);
        write_decimal(&mut self.out, level as u64);
        assert(self.out@ =~= enc_heading(old(self).state(), level).out);
    }

    pub(crate) fn table(&mut self, aligns: &Vec<Alignment>)
        ensures
            final(self).state() == enc_table(old(self).state(), aligns@),
            final(self).wf() == old(self).wf(),
            final(self).spec_base_dir() == old(self).spec_base_dir(),
    {
        self.tag(Element::Table);
        write_align(&mut self.out);
        write_alignments(&mut self.out, aligns);
        write_close_bracket(&mut self.out);
        assert(self.out@ =~= enc_table(old(self).state(), aligns@).out);
    }

    fn block_quote(&mut self, kind: Option<AlertKind>)
        ensures
            final(self).state() == enc_block_quote(old(self).state(), kind),
            final(self).wf() == old(self).wf(),
            final(self).spec_base_dir() == old(self).spec_base_dir(),
    {
        match kind {
            None => self.tag(Element::Blockquote),
            Some(k) => {
                self.tag(Element::Alert);
                write_kind(&mut self.out);
                write_alert_kind(&mut self.out, k);
                write_quote(&mut self.out);
                assert(self.out@ =~= enc_block_quote(old(self).state(), kind).out);
            },
        }
    }

    pub(crate) fn code_block(&mut self, info: &Option<String>)
        ensures
            final(self).state() == enc_code_block(old(self).state(), *info),
            final(self).wf() == old(self).wf(),
            final(self).spec_base_dir() == old(self).spec_base_dir(),
    {
        self.tag(Element::Pre);
        self.children_begin();
        self.tag(Element::Code);
        match info {
            Some(i) => {
                let b = string_bytes(i);
                let n = first_word_len(b);
                let word = &b[0..n];
                assert(b@.take(n as int) =~= word@);
                if n > 0 {
                    write_lang(&mut self.out);
                    self.string(word);
                }
            },
            None => {},
        }
    }

    pub(crate) fn list(&mut self, start: Option<u64>)
        ensures
            final(self).state() == enc_list(old(self).state(), start),
            final(self).wf() == old(self).wf(),
            final(self).spec_base_dir() == old(self).spec_base_dir(),
    {
        match start {
            Some(n) => {
                self.tag(Element::Ol);
                if n != 1 {
                    write_start(&mut self.out);
                    write_decimal(&mut self.out, n);
                    assert(self.out@ =~= enc_list(old(self).state(), start).out);
                }
            },
            None => self.tag(Element::Ul),
        }
    }

    fn link(&mut self, kind: LinkKind, dest: &String, title: &String)
        ensures
            final(self).state() == enc_link(old(self).state(), kind, *dest, *title, old(self).spec_base_dir()),
            final(self).wf() == old(self).wf(),
            final(self).spec_base_dir() == old(self).spec_base_dir(),
    {
        self.tag(Element::A);
        write_href(&mut self.out);
        let ghost s2 = self.state();
        match kind {
            LinkKind::Email => {
                write_mailto(&mut self.out);
                encode_string_content(&mut self.out, string_bytes(dest));
                write_quote(&mut self.out);
                assert(self.out@ =~= s2.out + (lit_mailto() + escape_bytes(bytes_of(*dest)) + lit_quote()));
            },
            _ => self.rebase_link(dest),
        }
        self.title(title);
    }

    fn image(&mut self, dest: &String, title: &String)
        ensures
            final(self).state() == enc_image(old(self).state(), *dest, *title, old(self).spec_base_dir()),
            final(self).wf() == old(self).wf(),
            final(self).spec_base_dir() == old(self).spec_base_dir(),
    {
        self.tag(Element::Img);
        self.title(title);
        write_src(&mut self.out);
        self.rebase_link(dest);
    }

    fn footnote_id(&mut self, name: &[u8])
        ensures
            final(self).state() == enc_footnote_id(old(self).state(), name@),
            final(self).wf() == old(self).wf(),
            final(self).spec_base_dir() == old(self).spec_base_dir(),
    {
        let id = self.id(name);
        write_id(&mut self.out);
        write_decimal(&mut self.out, id);
        assert(self.out@ =~= enc_footnote_id(old(self).state(), name@).out);
    }

    pub(crate) fn footnote_def(&mut self, name: &[u8])
        ensures
            final(self).state() == enc_footnote_def(old(self).state(), name@),
            final(self).wf() == old(self).wf(),
            final(self).spec_base_dir() == old(self).spec_base_dir(),
    {
        self.tag(Element::FnDef);
        if name.len() > 0 {
            write_name(&mut self.out);
            self.string(name);
        }
        self.footnote_id(name);
    }

    pub(crate) fn open_tag(&mut self, tag: &MdTag, task: bool)
        ensures
            final(self).state() == enc_open(old(self).state(), *tag, task, old(self).spec_base_dir()),
            final(self).wf() == old(self).wf(),
            final(self).spec_base_dir() == old(self).spec_base_dir(),
    {
        match tag {
            MdTag::Paragraph => self.tag(Element::P),
            MdTag::Heading(level, _) => self.heading(*level),
            MdTag::Table(aligns) => self.table(aligns),
            MdTag::TableHead => {
                self.table_head = true;
                self.tag(Element::Thead);
                self.children_begin();
                self.tag(Element::Tr);
            },
            MdTag::TableRow => {
                self.table_head = false;
                self.tag(Element::Tr);
            },
            MdTag::TableCell => {
                if self.table_head {
                    self.tag(Element::Th);
                } else {
                    self.tag(Element::Td);
                }
            },
            MdTag::BlockQuote(kind) => self.block_quote(*kind),
            MdTag::CodeBlock(info) => self.code_block(info),
            MdTag::List(start) => self.list(*start),
            MdTag::Item => {
                if task {
                    self.tag(Element::TaskList);
                } else {
                    self.tag(Element::Li);
                }
            },
            MdTag::Emphasis => self.tag(Element::Em),
            MdTag::Strong => self.tag(Element::Strong),
            MdTag::Strikethrough => self.tag(Element::Del),
            MdTag::Link(kind, dest, title) => self.link(*kind, dest, title),
            MdTag::Image(dest, title) => self.image(dest, title),
            MdTag::FootnoteDefinition(name) => self.footnote_def(string_bytes(name)),
            MdTag::HtmlBlock => {},
            MdTag::Disabled => {},
        }
    }

    fn start_tag(&mut self, tag: &MdTag, task: bool)
        ensures
            final(self).state() == enc_start(old(self).state(), *tag, task, old(self).spec_base_dir()),
            final(self).wf() == old(self).wf(),
            final(self).spec_base_dir() == old(self).spec_base_dir(),
    {
        self.open_tag(tag, task);
        self.children_begin();
    }

    pub(crate) fn end_tag(&mut self, tag: MdTagEnd, f: Flags) -> (f2: Flags)
        ensures
            (final(self).state(), f2) == enc_end(old(self).state(), tag, f),
            final(self).wf() == old(self).wf(),
            final(self).spec_base_dir() == old(self).spec_base_dir(),
    {
        match tag {
            MdTagEnd::Link => {
                if f.in_auto_link {
                    Flags { in_auto_link: false, ..f }
                } else {
                    self.tag_end();
                    Flags { in_link: false, ..f }
                }
            },
            MdTagEnd::CodeBlock => {
                self.tag_end();
                self.tag_end();
                Flags { in_code_block: false, ..f }
            },
            MdTagEnd::Table => {
                self.tag_end();
                self.tag_end();
                f
            },
            MdTagEnd::TableHead => {
                self.tag_end();
                self.tag_end();
                self.tag(Element::Tbody);
                self.children_begin();
                f
            },
            MdTagEnd::HtmlBlock => f,
            _ => {
                self.tag_end();
                f
            },
        }
    }

    fn start_event(&mut self, ev: &[(MdEvent, Range<usize>)], i: usize, tag: &MdTag, f: Flags) -> (f2: Flags)
        requires
            i < ev@.len(),
            ev@[i as int].0 == MdEvent::Start(*tag),
        ensures
            (final(self).state(), f2) == enc_start_event(old(self).state(), ev@, i as int, *tag, f, old(self).spec_base_dir()),
            final(self).wf() == old(self).wf(),
            final(self).spec_base_dir() == old(self).spec_base_dir(),
    {
        let n = ev.len();
        match tag {
            MdTag::Link(LinkKind::Autolink, _, _) => Flags { in_auto_link: true, ..f },
            MdTag::HtmlBlock => {
                let (raw, _) = read_html_block(ev, i + 1);
                self.html(raw.as_slice());
                f
            },
            MdTag::CodeBlock(_) => {
                self.start_tag(tag, false);
                Flags { in_code_block: true, ..f }
            },
            MdTag::Link(_, _, _) => {
                self.start_tag(tag, false);
                Flags { in_link: true, ..f }
            },
            MdTag::Item => {
                let task = i + 1 < ev.len() && match &ev[i + 1].0 {
                    MdEvent::TaskListMarker(_) => true,
                    _ => false,
                };
                self.start_tag(tag, task);
                f
            },
            _ => {
                self.start_tag(tag, false);
                f
            },
        }
    }

    pub(crate) fn code_span(&mut self, t: &[u8], r: &Range<usize>)
        requires
            old(self).wf(),
            r.start <= r.end,
            t@.len() <= r.end - r.start,
        ensures
            final(self).state() == enc_code_span(old(self).state(), t@, *r),
            final(self).wf(),
            final(self).spec_base_dir() == old(self).spec_base_dir(),
    {
        let pad = (r.end - r.start - t.len()) / 2;
        self.tag(Element::Code);
        self.children_begin();
        self.text(t, r.start + pad, r.end - pad);
        self.tag_end();
    }

    pub(crate) fn empty_elem(&mut self, e: Element)
        ensures
            final(self).state() == enc_empty_elem(old(self).state(), e),
            final(self).wf() == old(self).wf(),
            final(self).spec_base_dir() == old(self).spec_base_dir(),
    {
        self.tag(e);
        write_close_brace(&mut self.out);
    }

    pub(crate) fn footnote_ref(&mut self, name: &[u8])
        ensures
            final(self).state() == enc_footnote_ref(old(self).state(), name@),
            final(self).wf() == old(self).wf(),
            final(self).spec_base_dir() == old(self).spec_base_dir(),
    {
        self.tag(Element::FnRef);
        self.footnote_id(name);
        write_close_brace(&mut self.out);
    }

    pub(crate) fn checkbox(&mut self, checked: bool)
        ensures
            final(self).state() == enc_checkbox(old(self).state(), checked),
            final(self).wf() == old(self).wf(),
            final(self).spec_base_dir() == old(self).spec_base_dir(),
    {
        self.tag(Element::Checkbox);
        if checked {
            write_checked_true(&mut self.out);
        } else {
            write_checked_false(&mut self.out);
        }
    }

    pub(crate) fn math(&mut self, inline: bool, t: &[u8])
        ensures
            final(self).state() == enc_math(old(self).state(), inline, t@),
            final(self).wf() == old(self).wf(),
            final(self).spec_base_dir() == old(self).spec_base_dir(),
    {
        self.tag(Element::Math);
        if inline {
            write_inline_math(&mut self.out);
        } else {
            write_display_math(&mut self.out);
        }
        self.string(t);
        write_close_brace(&mut self.out);
    }

    fn event(&mut self, ev: &[(MdEvent, Range<usize>)], i: usize, f: Flags) -> (f2: Flags)
        requires
            old(self).wf(),
            i < ev@.len(),
            event_ok(ev@, i as int),
        ensures
            (final(self).state(), f2) == enc_event(old(self).state(), ev@, i as int, f, old(self).spec_base_dir()),
            final(self).wf(),
            final(self).spec_base_dir() == old(self).spec_base_dir(),
    {
        let r = &ev[i].1;
        match &ev[i].0 {
            MdEvent::Start(tag) => self.start_event(ev, i, tag, f),
            MdEvent::End(tag) => self.end_tag(*tag, f),
            MdEvent::Text(t) => {
                let b = string_bytes(t);
                if f.in_code_block || f.in_link {
                    self.text(b, r.start, r.end);
                } else {
                    self.autolink_text(b, r.start);
                }
                f
            },
            MdEvent::Code(t) => {
                self.code_span(string_bytes(t), r);
                f
            },
            MdEvent::Html(h) => {
                let (raw, _) = read_inline_html(ev, i, string_bytes(h));
                self.html(raw.as_slice());
                f
            },
            MdEvent::InlineHtml(h) => {
                let (raw, _) = read_inline_html(ev, i, string_bytes(h));
                self.html(raw.as_slice());
                f
            },
            MdEvent::SoftBreak => {
                let start = if r.end - r.start == 1 { r.start } else { r.end - 1 };
                let space: &[u8] = &[32];
                assert(space@ =~= seq![32u8]);
                self.text(space, start, r.end);
                f
            },
            MdEvent::HardBreak => {
                self.empty_elem(Element::Br);
                f
            },
            MdEvent::Rule => {
                self.empty_elem(Element::Hr);
                f
            },
            MdEvent::FootnoteReference(name) => {
                self.footnote_ref(string_bytes(name));
                f
            },
            MdEvent::TaskListMarker(checked) => {
                self.checkbox(*checked);
                f
            },
            MdEvent::DisplayMath(t) => {
                self.math(false, string_bytes(t));
                f
            },
            MdEvent::InlineMath(t) => {
                self.math(true, string_bytes(t));
                f
            },
        }
    }

    fn events(&mut self, ev: &[(MdEvent, Range<usize>)], f: Flags)
        requires
            old(self).wf(),
            events_ok_from(ev@, 0),
        ensures
            final(self).state() == enc_events(old(self).state(), ev@, 0, f, old(self).spec_base_dir()),
            final(self).wf(),
            final(self).spec_base_dir() == old(self).spec_base_dir(),
    {
        let ghost goal = enc_events(self.state(), ev@, 0, f, self.spec_base_dir());
        let mut i: usize = 0;
        let mut f = f;
        while i < ev.len()
            invariant
                self.wf(),
                self.spec_base_dir() == old(self).spec_base_dir(),
                i <= ev@.len(),
                events_ok_from(ev@, i as int),
                enc_events(self.state(), ev@, i as int, f, self.spec_base_dir()) == goal,
            decreases ev.len() - i,
        {
            f = self.event(ev, i, f);
            i = next_event_index(ev, i);
        }
    }

    /// Finishes the document: the marker of a modification that no text
    /// met, the end of the element list and of the expression.
    fn finish(&mut self)
        ensures
            final(self).state() == enc_raw(
                if old(self).state().modified is Some { enc_marker(old(self).state()) } else { old(self).state() },
                lit_close_bracket() + lit_message_end(),
            ),
            final(self).wf() == old(self).wf(),
    {
        if self.modified.is_some() {
            self.marker();
        }
        write_close_bracket(&mut self.out);
        write_message_end(&mut self.out);
        assert(self.out@ =~= enc_raw(
            if old(self).state().modified is Some { enc_marker(old(self).state()) } else { old(self).state() },
            lit_close_bracket() + lit_message_end(),
        ).out);
    }
}

/// Writes the render tree of a document's events: a JavaScript expression
/// that the preview evaluates to the tree. Relative links are resolved
/// against `base_dir`; `offset` is where the document was last modified, and
/// the tokenizer marks search matches in the text. Returns the expression and
/// the text that the preview shows, with its source map.
pub fn write_render_tree<T: TextTokenizer>(
    ev: &[(MdEvent, Range<usize>)],
    base_dir: &str,
    offset: Option<usize>,
    tokenizer: T,
) -> (r: (Vec<u8>, DisplayText))
    requires
        events_ok_from(ev@, 0),
        tokenizer.inv(),
    ensures
        r.0@ == enc_document(ev@, base_dir@, offset, tokenizer).out,
        r.1.spec_text() == enc_document(ev@, base_dir@, offset, tokenizer).text,
        r.1.spec_srcmap() == enc_document(ev@, base_dir@, offset, tokenizer).srcmap,
        r.1.wf(),
{
    let mut enc = RenderTreeEncoder::new(base_dir, offset, tokenizer, DisplayText::new());
    write_message_begin(&mut enc.out);
    write_open_bracket(&mut enc.out);
    assert(enc.out@ =~= lit_message_begin() + lit_open_bracket());
    enc.events(ev, Flags { in_code_block: false, in_auto_link: false, in_link: false });
    enc.finish();
    (enc.out, enc.text_visitor)
}

} // verus!

verus! {

/// Whether a byte may appear in the render tree as it is, inside the
/// single-quoted JavaScript string: no control character or line break.
pub open spec fn is_printable(b: u8) -> bool {
    b >= 0x20 && b != 0x7f
}

/// Escaping works byte by byte: the escaped form of two strings one after
/// the other is the escaped form of the first followed by that of the
/// second, and a single byte is escaped as `escape_byte` says.
pub proof fn law_escape_is_bytewise(a: Seq<u8>, b: Seq<u8>)
    ensures
        escape_bytes(a + b) == escape_bytes(a) + escape_bytes(b),
        forall|x: u8| escape_bytes(#[trigger] seq![x]) == escape_byte(x),
    decreases b.len(),
{
    assert forall|x: u8| escape_bytes(#[trigger] seq![x]) == escape_byte(x) by {
        let one = seq![x];
        assert(one.len() == 1 && one.last() == x);
        assert(one.drop_last() =~= Seq::<u8>::empty());
        assert(escape_bytes(Seq::<u8>::empty()) == Seq::<u8>::empty());
        assert(escape_bytes(one) == escape_bytes(one.drop_last()) + escape_byte(one.last()));
        assert(Seq::<u8>::empty() + escape_byte(x) =~= escape_byte(x));
    }
    if b.len() == 0 {
        assert(a + b =~= a);
        assert(escape_bytes(a) + Seq::<u8>::empty() =~= escape_bytes(a));
    } else {
        law_escape_is_bytewise(a, b.drop_last());
        assert((a + b).drop_last() =~= a + b.drop_last());
        assert((a + b).last() == b.last());
        assert(escape_bytes(a) + escape_bytes(b.drop_last()) + escape_byte(b.last())
            =~= escape_bytes(a) + (escape_bytes(b.drop_last()) + escape_byte(b.last())));
    }
}

proof fn lemma_escape_byte_safe(b: u8)
    ensures
        forall|k: int| 0 <= k < escape_byte(b).len() ==> is_printable(#[trigger] escape_byte(b)[k]),
        forall|k: int|
            0 <= k < escape_byte(b).len() && (#[trigger] escape_byte(b)[k] == 0x27u8 || escape_byte(b)[k] == 0x22u8)
                ==> k > 0 && escape_byte(b)[k - 1] == 0x5cu8,
        escape_byte(b).len() > 0 && escape_byte(b)[0] != 0x27u8 && escape_byte(b)[0] != 0x22u8,
{
    assert(forall|d: int| 0 <= d < 16 ==> is_printable(#[trigger] hex_digit(d)) && hex_digit(d) != 0x27u8
        && hex_digit(d) != 0x22u8);
}

/// An escaped string can stand inside the single-quoted JavaScript string
/// that holds the render tree: it holds no control character or line break,
/// and each quote in it (single or double) is escaped by the backslash
/// before it.
pub proof fn law_escaped_string_is_safe(s: Seq<u8>)
    ensures
        forall|k: int| 0 <= k < escape_bytes(s).len() ==> is_printable(#[trigger] escape_bytes(s)[k]),
        forall|k: int|
            0 <= k < escape_bytes(s).len() && (#[trigger] escape_bytes(s)[k] == 0x27u8 || escape_bytes(s)[k] == 0x22u8)
                ==> k > 0 && escape_bytes(s)[k - 1] == 0x5cu8,
    decreases s.len(),
{
    if s.len() > 0 {
        let a = escape_bytes(s.drop_last());
        let b = escape_byte(s.last());
        law_escaped_string_is_safe(s.drop_last());
        lemma_escape_byte_safe(s.last());
        let e = escape_bytes(s);
        assert(e =~= a + b);
        assert forall|k: int| 0 <= k < e.len() implies is_printable(#[trigger] e[k]) by {
            if k < a.len() {
                assert(e[k] == a[k]);
            } else {
                assert(e[k] == b[k - a.len()]);
            }
        }
        assert forall|k: int|
            0 <= k < e.len() && (#[trigger] e[k] == 0x27u8 || e[k] == 0x22u8) implies k > 0 && e[k - 1] == 0x5cu8 by {
            if k < a.len() {
                assert(e[k] == a[k] && e[k - 1] == a[k - 1]);
            } else {
                assert(e[k] == b[k - a.len()]);
                if k > a.len() {
                    assert(e[k - 1] == b[k - 1 - a.len()]);
                }
            }
        }
    }
}

/// A footnote name keeps the id it was first given: asking again gives the
/// same id and adds no name, and a new name gets the next id.
pub proof fn law_footnote_id_is_stable(ids: Seq<Seq<u8>>, name: Seq<u8>)
    ensures
        footnote_id(footnote_id(ids, name).0, name) == footnote_id(ids, name),
        position_from(ids, name, 0) < 0 ==> footnote_id(ids, name).1 == ids.len() + 1,
        1 <= footnote_id(ids, name).1 <= footnote_id(ids, name).0.len(),
{
    lemma_position_from(ids, name, 0);
    let (ids2, id) = footnote_id(ids, name);
    if position_from(ids, name, 0) < 0 {
        lemma_position_from(ids2, name, 0);
        assert(ids2[ids.len() as int] == name);
        if position_from(ids2, name, 0) < ids.len() {
            let p = position_from(ids2, name, 0);
            assert(ids2[p] == ids[p]);
        }
    }
}

proof fn lemma_position_from(ids: Seq<Seq<u8>>, name: Seq<u8>, k: int)
    requires
        0 <= k,
    ensures
        position_from(ids, name, k) == -1 || k <= position_from(ids, name, k) < ids.len(),
        position_from(ids, name, k) >= 0 ==> ids[position_from(ids, name, k)] == name,
        position_from(ids, name, k) < 0 ==> forall|j: int| k <= j < ids.len() ==> ids[j] != name,
        forall|j: int| k <= j < ids.len() && ids[j] == name ==> position_from(ids, name, k) <= j,
    decreases ids.len() - k,
{
    if k < ids.len() && ids[k] != name {
        lemma_position_from(ids, name, k + 1);
    }
}

} // verus!

verus! {

/// `a` is where `b` starts.
pub open spec fn is_prefix(a: Seq<u8>, b: Seq<u8>) -> bool {
    a.len() <= b.len() && b.subrange(0, a.len() as int) == a
}

proof fn lemma_prefix_trans(a: Seq<u8>, b: Seq<u8>, c: Seq<u8>)
    requires
        is_prefix(a, b),
        is_prefix(b, c),
    ensures
        is_prefix(a, c),
{
    assert(c.subrange(0, a.len() as int) =~= b.subrange(0, a.len() as int));
}

proof fn lemma_prefix_append(a: Seq<u8>, x: Seq<u8>)
    ensures
        is_prefix(a, a + x),
{
    assert((a + x).subrange(0, a.len() as int) =~= a);
}

proof fn lemma_basic_grow<T>(s: Enc<T>, e: Element, bytes: Seq<u8>)
    ensures
        is_prefix(s.out, enc_comma(s).out),
        is_prefix(s.out, enc_tag(s, e).out),
        is_prefix(s.out, enc_raw(s, bytes).out),
        is_prefix(s.out, enc_string(s, bytes).out),
        is_prefix(s.out, enc_children_begin(s).out),
        is_prefix(s.out, enc_tag_end(s).out),
        is_prefix(s.out, enc_marker(s).out),
{
    lemma_prefix_append(s.out, lit_comma());
    assert(s.out.subrange(0, s.out.len() as int) =~= s.out);
    assert(is_prefix(s.out, enc_comma(s).out));
    let c = enc_comma(s);
    lemma_prefix_append(c.out, lit_tag_open() + element_name(e) + lit_quote());
    assert(enc_tag(s, e).out =~= c.out + (lit_tag_open() + element_name(e) + lit_quote()));
    lemma_prefix_trans(s.out, c.out, enc_tag(s, e).out);
    lemma_prefix_append(s.out, bytes);
    lemma_prefix_append(s.out, lit_quote() + escape_bytes(bytes) + lit_quote());
    assert(enc_string(s, bytes).out =~= s.out + (lit_quote() + escape_bytes(bytes) + lit_quote()));
    lemma_prefix_append(s.out, lit_children_begin());
    lemma_prefix_append(s.out, lit_tag_end());
    let t = enc_tag(s, Element::Modified);
    lemma_prefix_append(c.out, lit_tag_open() + element_name(Element::Modified) + lit_quote());
    assert(t.out =~= c.out + (lit_tag_open() + element_name(Element::Modified) + lit_quote()));
    lemma_prefix_trans(s.out, c.out, t.out);
    lemma_prefix_append(t.out, lit_close_brace());
    lemma_prefix_trans(s.out, t.out, enc_marker(s).out);
}

proof fn lemma_text_tokens_grow<T: TextTokenizer>(s: Enc<T>, text: Seq<u8>, start: int)
    ensures
        is_prefix(s.out, enc_text_tokens(s, text, start).out),
    decreases text.len(),
{
    reveal(enc_text_tokens);
    lemma_prefix_append(s.out, Seq::empty());
    assert(s.out + Seq::<u8>::empty() =~= s.out);
    if text.len() > 0 {
        let (t2, kind, n) = s.tokenizer.spec_tokenize(text.len(), start);
        if n > 0 && n <= text.len() {
            let s2 = Enc { tokenizer: t2, ..s };
            let piece = text.take(n as int);
            let s3 = if kind == TokenKind::Normal {
                enc_string(enc_comma(s2), piece)
            } else {
                enc_tag_end(enc_string(enc_children_begin(enc_tag(s2, token_element(kind))), piece))
            };
            if kind == TokenKind::Normal {
                lemma_basic_grow(s2, Element::P, piece);
                lemma_basic_grow(enc_comma(s2), Element::P, piece);
                lemma_prefix_trans(s.out, enc_comma(s2).out, s3.out);
            } else {
                let a = enc_tag(s2, token_element(kind));
                let b = enc_children_begin(a);
                let c = enc_string(b, piece);
                lemma_basic_grow(s2, token_element(kind), piece);
                lemma_basic_grow(a, Element::P, piece);
                lemma_basic_grow(b, Element::P, piece);
                lemma_basic_grow(c, Element::P, piece);
                lemma_prefix_trans(s.out, a.out, b.out);
                lemma_prefix_trans(s.out, b.out, c.out);
                lemma_prefix_trans(s.out, c.out, s3.out);
            }
            lemma_text_tokens_grow(s3, text.skip(n as int), start + n);
            lemma_prefix_trans(s.out, s3.out, enc_text_tokens(s, text, start).out);
        }
    }
}

proof fn lemma_text_grow<T: TextTokenizer>(s: Enc<T>, text: Seq<u8>, start: int, end: int)
    ensures
        is_prefix(s.out, enc_text(s, text, start, end).out),
{
    reveal(enc_text);
    let s1 = Enc {
        text: s.text + text,
        srcmap: enc_srcmap(s, Range { start: start as usize, end: end as usize }),
        ..s
    };
    let s2 = Enc { modified: None, ..s1 };
    lemma_text_tokens_grow(s1, text, start);
    lemma_text_tokens_grow(s2, text, start);
    lemma_basic_grow(s2, Element::P, text);
    lemma_text_tokens_grow(enc_marker(s2), text, start);
    lemma_prefix_trans(s2.out, enc_marker(s2).out, enc_text_tokens(enc_marker(s2), text, start).out);
    let t = enc_text_tokens(s2, text, start);
    lemma_basic_grow(t, Element::P, text);
    lemma_prefix_trans(s2.out, t.out, enc_marker(t).out);
    if let Some(off) = s1.modified {
        if end >= off && off > start && end != off {
            let i = if off - start <= text.len() { off - start } else { text.len() as int };
            let a = enc_text_tokens(s2, text.take(i), start);
            lemma_text_tokens_grow(s2, text.take(i), start);
            lemma_basic_grow(a, Element::P, text);
            let b = enc_marker(a);
            lemma_text_tokens_grow(b, text.skip(i), off as int);
            lemma_prefix_trans(s2.out, a.out, b.out);
            lemma_prefix_trans(s2.out, b.out, enc_text_tokens(b, text.skip(i), off as int).out);
        }
    }
}


proof fn lemma_prefix_refl(a: Seq<u8>)
    ensures
        is_prefix(a, a),
{
    assert(a.subrange(0, a.len() as int) =~= a);
}

proof fn lemma_emoji_grow<T: TextTokenizer>(s: Enc<T>, t: Seq<u8>, k: int, base: int)
    ensures
        is_prefix(s.out, enc_emoji(s, t, k, base).out),
    decreases t.len() - k,
{
    reveal(enc_emoji);
    lemma_prefix_refl(s.out);
    if 0 <= k < t.len() {
        if t[k] != 58u8 {
            let e = next_byte(t, k, 58u8);
            if k < e <= t.len() {
                let s1 = enc_text(s, t.subrange(k, e), base + k, base + e);
                lemma_text_grow(s, t.subrange(k, e), base + k, base + e);
                lemma_emoji_grow(s1, t, e, base);
                lemma_prefix_trans(s.out, s1.out, enc_emoji(s, t, k, base).out);
            }
        } else {
            let e = next_byte(t, k + 1, 58u8);
            if k < e <= t.len() {
                lemma_text_grow(s, t.subrange(k, e), base + k, base + e);
                if e < t.len() {
                    match emoji_by_shortcode(t.subrange(k + 1, e)) {
                        Some((name, glyph)) => {
                            let a = enc_tag(s, Element::Emoji);
                            let b = enc_raw(a, lit_name());
                            let c = enc_string(b, name);
                            let d = enc_children_begin(c);
                            let f = enc_string(d, glyph);
                            let g = enc_tag_end(f);
                            lemma_basic_grow(s, Element::Emoji, name);
                            lemma_basic_grow(a, Element::Emoji, lit_name());
                            lemma_basic_grow(b, Element::Emoji, name);
                            lemma_basic_grow(c, Element::Emoji, glyph);
                            lemma_basic_grow(d, Element::Emoji, glyph);
                            lemma_basic_grow(f, Element::Emoji, glyph);
                            lemma_prefix_trans(s.out, a.out, b.out);
                            lemma_prefix_trans(s.out, b.out, c.out);
                            lemma_prefix_trans(s.out, c.out, d.out);
                            lemma_prefix_trans(s.out, d.out, f.out);
                            lemma_prefix_trans(s.out, f.out, g.out);
                            lemma_emoji_grow(g, t, e + 1, base);
                            lemma_prefix_trans(s.out, g.out, enc_emoji(s, t, k, base).out);
                        },
                        None => {
                            let s1 = enc_text(s, t.subrange(k, e), base + k, base + e);
                            lemma_emoji_grow(s1, t, e, base);
                            lemma_prefix_trans(s.out, s1.out, enc_emoji(s, t, k, base).out);
                        },
                    }
                }
            }
        }
    }
}

proof fn lemma_autolink_grow<T: TextTokenizer>(s: Enc<T>, t: Seq<u8>, base: int)
    ensures
        is_prefix(s.out, enc_autolink(s, t, base).out),
    decreases t.len(),
{
    reveal(enc_autolink);
    lemma_prefix_refl(s.out);
    match spec_find_autolink(t) {
        Some((a, b)) => if 0 <= a < b <= t.len() {
            let s1 = if a > 0 { enc_emoji(s, t.take(a), 0, base) } else { s };
            lemma_emoji_grow(s, t.take(a), 0, base);
            let url = t.subrange(a, b);
            let p = enc_tag(s1, Element::A);
            let q = enc_raw(p, lit_autolink());
            let r = enc_string(q, url);
            let s2 = enc_children_begin(r);
            let u = enc_text(s2, url, base + a, base + b);
            let s3 = enc_tag_end(u);
            lemma_basic_grow(s1, Element::A, url);
            lemma_basic_grow(p, Element::A, lit_autolink());
            lemma_basic_grow(q, Element::A, url);
            lemma_basic_grow(r, Element::A, url);
            lemma_text_grow(s2, url, base + a, base + b);
            lemma_basic_grow(u, Element::A, url);
            lemma_prefix_trans(s.out, s1.out, p.out);
            lemma_prefix_trans(s.out, p.out, q.out);
            lemma_prefix_trans(s.out, q.out, r.out);
            lemma_prefix_trans(s.out, r.out, s2.out);
            lemma_prefix_trans(s.out, s2.out, u.out);
            lemma_prefix_trans(s.out, u.out, s3.out);
            lemma_autolink_grow(s3, t.skip(b), base + b);
            lemma_prefix_trans(s.out, s3.out, enc_autolink(s, t, base).out);
        },
        None => {
            lemma_emoji_grow(s, t, 0, base);
        },
    }
}


proof fn lemma_tag_raw_grow<T>(s: Enc<T>, e: Element, bytes: Seq<u8>)
    ensures
        is_prefix(s.out, enc_raw(enc_tag(s, e), bytes).out),
{
    lemma_basic_grow(s, e, bytes);
    lemma_basic_grow(enc_tag(s, e), e, bytes);
    lemma_prefix_trans(s.out, enc_tag(s, e).out, enc_raw(enc_tag(s, e), bytes).out);
}

proof fn lemma_title_grow<T>(s: Enc<T>, title: Seq<u8>)
    ensures
        is_prefix(s.out, enc_title(s, title).out),
{
    lemma_prefix_refl(s.out);
    if title.len() > 0 {
        lemma_basic_grow(s, Element::P, lit_title());
        lemma_basic_grow(enc_raw(s, lit_title()), Element::P, title);
        lemma_prefix_trans(s.out, enc_raw(s, lit_title()).out, enc_title(s, title).out);
    }
}

proof fn lemma_footnote_id_grow<T>(s: Enc<T>, name: Seq<u8>)
    ensures
        is_prefix(s.out, enc_footnote_id(s, name).out),
{
    let (ids, id) = footnote_id(s.ids, name);
    lemma_prefix_append(s.out, lit_id() + decimal(id));
}

proof fn lemma_open_grow<T>(s: Enc<T>, tag: MdTag, task: bool, dir: Seq<char>)
    ensures
        is_prefix(s.out, enc_start(s, tag, task, dir).out),
{
    let o = enc_open(s, tag, task, dir);
    lemma_prefix_refl(s.out);
    match tag {
        MdTag::Paragraph => lemma_basic_grow(s, Element::P, Seq::empty()),
        MdTag::Heading(level, _) => lemma_tag_raw_grow(s, Element::H, lit_level() + decimal(level as nat)),
        MdTag::Table(aligns) => lemma_tag_raw_grow(
            s,
            Element::Table,
            lit_align() + aligns_list(aligns@) + lit_close_bracket(),
        ),
        MdTag::TableHead => {
            let s0 = Enc { table_head: true, ..s };
            let a = enc_tag(s0, Element::Thead);
            let b = enc_children_begin(a);
            lemma_basic_grow(s0, Element::Thead, Seq::empty());
            lemma_basic_grow(a, Element::Thead, Seq::empty());
            lemma_basic_grow(b, Element::Tr, Seq::empty());
            lemma_prefix_trans(s.out, a.out, b.out);
            lemma_prefix_trans(s.out, b.out, o.out);
        },
        MdTag::TableRow => lemma_basic_grow(Enc { table_head: false, ..s }, Element::Tr, Seq::empty()),
        MdTag::TableCell => {
            lemma_basic_grow(s, Element::Th, Seq::empty());
            lemma_basic_grow(s, Element::Td, Seq::empty());
        },
        MdTag::BlockQuote(kind) => {
            lemma_basic_grow(s, Element::Blockquote, Seq::empty());
            match kind {
                Some(k) => lemma_tag_raw_grow(s, Element::Alert, lit_kind() + alert_kind_name(k) + lit_quote()),
                None => {},
            }
        },
        MdTag::CodeBlock(info) => {
            let a = enc_tag(s, Element::Pre);
            let b = enc_children_begin(a);
            let c = enc_tag(b, Element::Code);
            lemma_basic_grow(s, Element::Pre, Seq::empty());
            lemma_basic_grow(a, Element::Pre, Seq::empty());
            lemma_basic_grow(b, Element::Code, Seq::empty());
            lemma_prefix_trans(s.out, a.out, b.out);
            lemma_prefix_trans(s.out, b.out, c.out);
            match info {
                Some(i) => {
                    let w = first_word(bytes_of(i));
                    let d = enc_raw(c, lit_lang());
                    lemma_basic_grow(c, Element::Code, lit_lang());
                    lemma_basic_grow(d, Element::Code, w);
                    lemma_prefix_trans(s.out, c.out, d.out);
                    lemma_prefix_trans(s.out, d.out, enc_string(d, w).out);
                },
                None => {},
            }
        },
        MdTag::List(start) => {
            lemma_basic_grow(s, Element::Ol, Seq::empty());
            lemma_basic_grow(s, Element::Ul, Seq::empty());
            match start {
                Some(n) => lemma_tag_raw_grow(s, Element::Ol, lit_start() + decimal(n as nat)),
                None => {},
            }
        },
        MdTag::Item => {
            lemma_basic_grow(s, Element::TaskList, Seq::empty());
            lemma_basic_grow(s, Element::Li, Seq::empty());
        },
        MdTag::Emphasis => lemma_basic_grow(s, Element::Em, Seq::empty()),
        MdTag::Strong => lemma_basic_grow(s, Element::Strong, Seq::empty()),
        MdTag::Strikethrough => lemma_basic_grow(s, Element::Del, Seq::empty()),
        MdTag::Link(kind, dest, title) => {
            let a = enc_raw(enc_tag(s, Element::A), lit_href());
            lemma_tag_raw_grow(s, Element::A, lit_href());
            let b = if kind == LinkKind::Email {
                enc_raw(a, lit_mailto() + escape_bytes(bytes_of(dest)) + lit_quote())
            } else {
                enc_raw(a, rebased_link(dir, dest@))
            };
            lemma_basic_grow(a, Element::A, lit_mailto() + escape_bytes(bytes_of(dest)) + lit_quote());
            lemma_basic_grow(a, Element::A, rebased_link(dir, dest@));
            lemma_prefix_trans(s.out, a.out, b.out);
            lemma_title_grow(b, bytes_of(title));
            lemma_prefix_trans(s.out, b.out, o.out);
        },
        MdTag::Image(dest, title) => {
            let a = enc_tag(s, Element::Img);
            let b = enc_title(a, bytes_of(title));
            let c = enc_raw(b, lit_src());
            lemma_basic_grow(s, Element::Img, Seq::empty());
            lemma_title_grow(a, bytes_of(title));
            lemma_basic_grow(b, Element::Img, lit_src());
            lemma_basic_grow(c, Element::Img, rebased_link(dir, dest@));
            lemma_prefix_trans(s.out, a.out, b.out);
            lemma_prefix_trans(s.out, b.out, c.out);
            lemma_prefix_trans(s.out, c.out, o.out);
        },
        MdTag::FootnoteDefinition(name) => {
            let n = bytes_of(name);
            let a = enc_tag(s, Element::FnDef);
            let b = enc_raw(a, lit_name());
            let c = if n.len() > 0 { enc_string(b, n) } else { a };
            lemma_basic_grow(s, Element::FnDef, n);
            lemma_basic_grow(a, Element::FnDef, lit_name());
            lemma_basic_grow(b, Element::FnDef, n);
            lemma_prefix_trans(s.out, a.out, b.out);
            lemma_prefix_trans(s.out, b.out, enc_string(b, n).out);
            lemma_footnote_id_grow(c, n);
            lemma_prefix_trans(s.out, c.out, o.out);
        },
        MdTag::HtmlBlock => {},
        MdTag::Disabled => {},
    }
    lemma_basic_grow(o, Element::P, Seq::empty());
    lemma_prefix_trans(s.out, o.out, enc_start(s, tag, task, dir).out);
}


proof fn lemma_end_grow<T>(s: Enc<T>, tag: MdTagEnd, f: Flags)
    ensures
        is_prefix(s.out, enc_end(s, tag, f).0.out),
{
    lemma_prefix_refl(s.out);
    let a = enc_tag_end(s);
    let b = enc_tag_end(a);
    let c = enc_tag(b, Element::Tbody);
    lemma_basic_grow(s, Element::P, Seq::empty());
    lemma_basic_grow(a, Element::P, Seq::empty());
    lemma_basic_grow(b, Element::Tbody, Seq::empty());
    lemma_basic_grow(c, Element::P, Seq::empty());
    lemma_prefix_trans(s.out, a.out, b.out);
    lemma_prefix_trans(s.out, b.out, c.out);
    lemma_prefix_trans(s.out, c.out, enc_children_begin(c).out);
}

proof fn lemma_html_grow<T>(s: Enc<T>, raw: Seq<u8>, dir: Seq<char>)
    ensures
        is_prefix(s.out, enc_html(s, raw, dir).out),
{
    let a = enc_tag(s, Element::Html);
    let b = enc_raw(a, lit_raw());
    let c = enc_raw(b, escape_bytes(sanitized_html(raw, dir)));
    lemma_basic_grow(s, Element::Html, Seq::empty());
    lemma_basic_grow(a, Element::Html, lit_raw());
    lemma_basic_grow(b, Element::Html, escape_bytes(sanitized_html(raw, dir)));
    lemma_basic_grow(c, Element::Html, lit_raw_end());
    lemma_prefix_trans(s.out, a.out, b.out);
    lemma_prefix_trans(s.out, b.out, c.out);
    lemma_prefix_trans(s.out, c.out, enc_html(s, raw, dir).out);
}

proof fn lemma_event_grow<T: TextTokenizer>(
    s: Enc<T>,
    ev: Seq<(MdEvent, Range<usize>)>,
    i: int,
    f: Flags,
    dir: Seq<char>,
)
    requires
        0 <= i < ev.len(),
    ensures
        is_prefix(s.out, enc_event(s, ev, i, f, dir).0.out),
{
    lemma_prefix_refl(s.out);
    let r = ev[i].1;
    match ev[i].0 {
        MdEvent::Start(tag) => {
            lemma_html_grow(s, html_block_from(ev, i + 1, Seq::empty()).0, dir);
            lemma_open_grow(s, tag, false, dir);
            lemma_open_grow(s, tag, true, dir);
        },
        MdEvent::End(tag) => lemma_end_grow(s, tag, f),
        MdEvent::Text(t) => {
            lemma_text_grow(s, bytes_of(t), r.start as int, r.end as int);
            lemma_autolink_grow(s, bytes_of(t), r.start as int);
        },
        MdEvent::Code(t) => {
            let pad = (r.end - r.start - bytes_of(t).len()) / 2;
            let a = enc_tag(s, Element::Code);
            let b = enc_children_begin(a);
            let c = enc_text(b, bytes_of(t), r.start + pad, r.end - pad);
            lemma_basic_grow(s, Element::Code, Seq::empty());
            lemma_basic_grow(a, Element::Code, Seq::empty());
            lemma_text_grow(b, bytes_of(t), r.start + pad, r.end - pad);
            lemma_basic_grow(c, Element::Code, Seq::empty());
            lemma_prefix_trans(s.out, a.out, b.out);
            lemma_prefix_trans(s.out, b.out, c.out);
            lemma_prefix_trans(s.out, c.out, enc_tag_end(c).out);
        },
        MdEvent::Html(h) => lemma_html_grow(s, inline_html(ev, i, bytes_of(h)).0, dir),
        MdEvent::InlineHtml(h) => lemma_html_grow(s, inline_html(ev, i, bytes_of(h)).0, dir),
        MdEvent::SoftBreak => {
            let start = if r.end - r.start == 1 { r.start as int } else { r.end - 1 };
            lemma_text_grow(s, seq![32u8], start, r.end as int);
        },
        MdEvent::HardBreak => lemma_tag_raw_grow(s, Element::Br, lit_close_brace()),
        MdEvent::Rule => lemma_tag_raw_grow(s, Element::Hr, lit_close_brace()),
        MdEvent::FootnoteReference(name) => {
            let a = enc_tag(s, Element::FnRef);
            let b = enc_footnote_id(a, bytes_of(name));
            lemma_basic_grow(s, Element::FnRef, Seq::empty());
            lemma_footnote_id_grow(a, bytes_of(name));
            lemma_basic_grow(b, Element::FnRef, lit_close_brace());
            lemma_prefix_trans(s.out, a.out, b.out);
            lemma_prefix_trans(s.out, b.out, enc_raw(b, lit_close_brace()).out);
        },
        MdEvent::TaskListMarker(checked) => {
            lemma_tag_raw_grow(s, Element::Checkbox, if checked { lit_checked_true() } else { lit_checked_false() });
        },
        MdEvent::DisplayMath(t) => lemma_math_grow(s, false, bytes_of(t)),
        MdEvent::InlineMath(t) => lemma_math_grow(s, true, bytes_of(t)),
    }
}

proof fn lemma_math_grow<T>(s: Enc<T>, inline: bool, t: Seq<u8>)
    ensures
        is_prefix(s.out, enc_math(s, inline, t).out),
{
    let attr = if inline { lit_inline_math() } else { lit_display_math() };
    let a = enc_raw(enc_tag(s, Element::Math), attr);
    let b = enc_string(a, t);
    lemma_tag_raw_grow(s, Element::Math, attr);
    lemma_basic_grow(a, Element::Math, t);
    lemma_basic_grow(b, Element::Math, lit_close_brace());
    lemma_prefix_trans(s.out, a.out, b.out);
    lemma_prefix_trans(s.out, b.out, enc_math(s, inline, t).out);
}

proof fn lemma_events_grow<T: TextTokenizer>(
    s: Enc<T>,
    ev: Seq<(MdEvent, Range<usize>)>,
    i: int,
    f: Flags,
    dir: Seq<char>,
)
    ensures
        is_prefix(s.out, enc_events(s, ev, i, f, dir).out),
    decreases ev.len() - i,
{
    lemma_prefix_refl(s.out);
    if 0 <= i < ev.len() {
        let (s2, f2) = enc_event(s, ev, i, f, dir);
        lemma_event_grow(s, ev, i, f, dir);
        let j = next_index(ev, i);
        if i < j <= ev.len() {
            lemma_events_grow(s2, ev, j, f2, dir);
            lemma_prefix_trans(s.out, s2.out, enc_events(s, ev, i, f, dir).out);
        }
    }
}

/// Whatever the events, the render tree is one JavaScript expression:
/// it starts with the call that parses the tree and the opening of the
/// element list, and ends with the closing of the list and of the call.
pub proof fn law_render_tree_is_framed<T: TextTokenizer>(
    ev: Seq<(MdEvent, Range<usize>)>,
    dir: Seq<char>,
    offset: Option<usize>,
    tokenizer: T,
)
    ensures
        is_prefix(
            lit_message_begin() + lit_open_bracket(),
            enc_document(ev, dir, offset, tokenizer).out,
        ),
        enc_document(ev, dir, offset, tokenizer).out.len() >= (lit_message_begin() + lit_open_bracket()
            + lit_close_bracket() + lit_message_end()).len(),
        enc_document(ev, dir, offset, tokenizer).out.skip(
            enc_document(ev, dir, offset, tokenizer).out.len() - (lit_close_bracket() + lit_message_end()).len(),
        ) == lit_close_bracket() + lit_message_end(),
{
    let head = lit_message_begin() + lit_open_bracket();
    let tail = lit_close_bracket() + lit_message_end();
    let s0 = enc_init(offset, tokenizer, true);
    let s1 = enc_raw(s0, head);
    assert(s1.out =~= head);
    let s2 = enc_events(s1, ev, 0, Flags { in_code_block: false, in_auto_link: false, in_link: false }, dir);
    lemma_events_grow(s1, ev, 0, Flags { in_code_block: false, in_auto_link: false, in_link: false }, dir);
    let s3 = if s2.modified is Some { enc_marker(s2) } else { s2 };
    lemma_basic_grow(s2, Element::P, Seq::empty());
    lemma_prefix_refl(s2.out);
    lemma_prefix_trans(s1.out, s2.out, s3.out);
    let out = enc_document(ev, dir, offset, tokenizer).out;
    assert(out =~= s3.out + tail);
    lemma_prefix_append(s3.out, tail);
    lemma_prefix_trans(head, s3.out, out);
    assert(out.skip(out.len() - tail.len()) =~= tail);
}

} // verus!
