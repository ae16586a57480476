use crate::emoji::emoji_by_shortcode;
use crate::events::{bytes_of, string_bytes, Alignment, LinkKind, MdEvent, MdTag, MdTagEnd};
use crate::links::{spec_find_any_autolink, Autolinker};
use crate::render::{
    enc_checkbox, enc_children_begin, enc_code_span, enc_emoji, enc_empty_elem, enc_end, enc_footnote_ref,
    enc_heading, enc_init, enc_marker, enc_math, enc_open, enc_raw, enc_string, enc_tag, enc_tag_end, enc_text,
    enc_title, escape_bytes, Enc, Flags, RenderTreeEncoder,
};
use crate::search::{Text, TextTokenizer, TextVisitor};
use crate::tree::{
    lit_autolink, lit_close_bracket, lit_href, lit_id, lit_open_bracket, lit_raw, lit_raw_end, lit_src, Element,
};
use std::ops::Range;
use vstd::prelude::*;
use vstd::string::*;

verus! {

/// The start of the render tree written as a JSON string in single quotes:
/// `'{"kind":"render_tree","tree":`.
pub open spec fn lit_string_begin() -> Seq<u8> {
    seq![39u8, 123u8, 34u8, 107u8, 105u8, 110u8, 100u8, 34u8, 58u8, 34u8, 114u8, 101u8, 110u8, 100u8,
        101u8, 114u8, 95u8, 116u8, 114u8, 101u8, 101u8, 34u8, 44u8, 34u8, 116u8, 114u8, 101u8, 101u8,
        34u8, 58u8]
}

/// The end of the render tree written as a JSON string: `}'`.
pub open spec fn lit_string_end() -> Seq<u8> {
    seq![125u8, 39u8]
}

/// `mailto:`.
pub open spec fn lit_mailto_scheme() -> Seq<u8> {
    seq![109u8, 97u8, 105u8, 108u8, 116u8, 111u8, 58u8]
}

/// A text in which plain URLs become links, wherever their scheme starts,
/// and the rest goes through `enc_emoji`; the text starts at `base`.
#[verifier::opaque]
pub open spec fn ser_autolink<T: TextTokenizer>(s: Enc<T>, t: Seq<u8>, base: int) -> Enc<T>
    decreases t.len(),
{
    match spec_find_any_autolink(t) {
        Some((a, b)) => if 0 <= a < b <= t.len() {
            let s1 = if a > 0 { enc_emoji(s, t.take(a), 0, base) } else { s };
            let url = t.subrange(a, b);
            let s2 = enc_children_begin(enc_string(enc_raw(enc_tag(s1, Element::A), lit_autolink()), url));
            let s3 = enc_tag_end(enc_text(s2, url, base + a, base + b));
            ser_autolink(s3, t.skip(b), base + b)
        } else {
            s
        },
        None => if t.len() > 0 {
            enc_emoji(s, t, 0, base)
        } else {
            s
        },
    }
}

/// The raw HTML of consecutive `Html` events from `k` on, after `acc`, and
/// the index of the first other event.
pub open spec fn html_run_from(ev: Seq<(MdEvent, Range<usize>)>, k: int, acc: Seq<u8>) -> (Seq<u8>, int)
    decreases ev.len() - k,
{
    if k < 0 || k >= ev.len() {
        (acc, k)
    } else {
        match ev[k].0 {
            MdEvent::Html(h) => html_run_from(ev, k + 1, acc + bytes_of(h)),
            _ => (acc, k),
        }
    }
}

/// An HTML element holding raw HTML as it is written.
pub open spec fn ser_html<T>(s: Enc<T>, raw: Seq<u8>) -> Enc<T> {
    enc_raw(enc_raw(enc_raw(enc_tag(s, Element::Html), lit_raw()), escape_bytes(raw)), lit_raw_end())
}

/// The name and attributes of an element that starts: headings carry their
/// id, block quotes and items have no kinds, and links and images keep
/// their destination as it is.
pub open spec fn ser_open<T>(s: Enc<T>, tag: MdTag) -> Enc<T> {
    match tag {
        MdTag::Heading(level, id) => match id {
            Some(i) => enc_string(enc_raw(enc_heading(s, level), lit_id()), bytes_of(i)),
            None => enc_heading(s, level),
        },
        MdTag::BlockQuote(_) => enc_tag(s, Element::Blockquote),
        MdTag::Item => enc_tag(s, Element::Li),
        MdTag::Link(kind, dest, title) => {
            let href = if kind == LinkKind::Email { lit_mailto_scheme() + bytes_of(dest) } else { bytes_of(dest) };
            enc_title(enc_string(enc_raw(enc_tag(s, Element::A), lit_href()), href), bytes_of(title))
        },
        MdTag::Image(dest, title) => enc_string(
            enc_raw(enc_title(enc_tag(s, Element::Img), bytes_of(title)), lit_src()),
            bytes_of(dest),
        ),
        _ => enc_open(s, tag, false, Seq::empty()),
    }
}

/// No flag is set.
pub open spec fn no_flags() -> Flags {
    Flags { in_code_block: false, in_auto_link: false, in_link: false }
}

/// The event at `i`.
pub open spec fn ser_event<T: TextTokenizer>(s: Enc<T>, ev: Seq<(MdEvent, Range<usize>)>, i: int) -> Enc<T> {
    let r = ev[i].1;
    match ev[i].0 {
        MdEvent::Start(tag) => enc_children_begin(ser_open(s, tag)),
        MdEvent::End(tag) => enc_end(s, tag, no_flags()).0,
        MdEvent::Text(t) => ser_autolink(s, bytes_of(t), r.start as int),
        MdEvent::Code(t) => enc_code_span(s, bytes_of(t), r),
        MdEvent::Html(h) => ser_html(s, html_run_from(ev, i + 1, bytes_of(h)).0),
        MdEvent::SoftBreak => enc_text(s, seq![10u8], r.start as int, r.end as int),
        MdEvent::HardBreak => enc_empty_elem(s, Element::Br),
        MdEvent::Rule => enc_empty_elem(s, Element::Hr),
        MdEvent::FootnoteReference(name) => enc_footnote_ref(s, bytes_of(name)),
        MdEvent::TaskListMarker(checked) => enc_checkbox(s, checked),
        MdEvent::DisplayMath(t) => enc_math(s, false, bytes_of(t)),
        MdEvent::InlineMath(t) => enc_math(s, true, bytes_of(t)),
        MdEvent::InlineHtml(_) => s,
    }
}

/// The index of the event handled after the one at `i`: consecutive `Html`
/// events are handled together.
pub open spec fn ser_next_index(ev: Seq<(MdEvent, Range<usize>)>, i: int) -> int {
    match ev[i].0 {
        MdEvent::Html(h) => html_run_from(ev, i + 1, bytes_of(h)).1,
        _ => i + 1,
    }
}

/// What the serializer needs of the event at `i`: a well-formed range with
/// room for its text, a code span no longer than its range, a soft break
/// that is not empty, and none of the events of HTML blocks and inline HTML,
/// which this format does not know.
pub open spec fn ser_event_ok(ev: Seq<(MdEvent, Range<usize>)>, i: int) -> bool {
    let r = ev[i].1;
    &&& r.start <= r.end
    &&& match ev[i].0 {
        MdEvent::Start(MdTag::HtmlBlock) => false,
        MdEvent::End(MdTagEnd::HtmlBlock) => false,
        MdEvent::InlineHtml(_) => false,
        MdEvent::Text(t) => r.start + bytes_of(t).len() <= usize::MAX,
        MdEvent::Code(t) => bytes_of(t).len() <= r.end - r.start,
        MdEvent::SoftBreak => r.start < r.end,
        _ => true,
    }
}

/// Every event from `i` on is as the serializer needs.
pub open spec fn ser_events_ok_from(ev: Seq<(MdEvent, Range<usize>)>, i: int) -> bool
    decreases ev.len() - i,
{
    if i < 0 || i >= ev.len() {
        true
    } else if ser_next_index(ev, i) <= i || ser_next_index(ev, i) > ev.len() {
        false
    } else {
        ser_event_ok(ev, i) && ser_events_ok_from(ev, ser_next_index(ev, i))
    }
}

/// The events from `i` on.
pub open spec fn ser_events<T: TextTokenizer>(s: Enc<T>, ev: Seq<(MdEvent, Range<usize>)>, i: int) -> Enc<T>
    decreases ev.len() - i,
{
    if i < 0 || i >= ev.len() {
        s
    } else {
        let j = ser_next_index(ev, i);
        if i < j <= ev.len() {
            ser_events(ser_event(s, ev, i), ev, j)
        } else {
            ser_event(s, ev, i)
        }
    }
}

/// A whole document as a JSON string in single quotes: the element list of
/// its events; when the last modification was not met by any text, its
/// marker is placed after the last element.
pub open spec fn ser_document<T: TextTokenizer>(ev: Seq<(MdEvent, Range<usize>)>, offset: Option<usize>, tokenizer: T) -> Enc<T> {
    let s1 = enc_raw(enc_init(offset, tokenizer, false), lit_string_begin() + lit_open_bracket());
    let s2 = ser_events(s1, ev, 0);
    let s3 = if s2.modified is Some { enc_marker(s2) } else { s2 };
    enc_raw(s3, lit_close_bracket() + lit_string_end())
}

/// Reads consecutive `Html` events from `k` on.
fn read_html_run(ev: &[(MdEvent, Range<usize>)], k: usize, h: &[u8]) -> (r: (Vec<u8>, usize))
    requires
        k <= ev@.len(),
    ensures
        r.0@ == html_run_from(ev@, k as int, h@).0,
        r.1 == html_run_from(ev@, k as int, h@).1,
        k <= r.1 <= ev@.len(),
{
    let mut acc: Vec<u8> = Vec::new();
    acc.extend_from_slice(h);
    assert(acc@ =~= h@);
    let mut j = k;
    let ghost goal = html_run_from(ev@, k as int, h@);
    while j < ev.len()
        invariant_except_break
            html_run_from(ev@, j as int, acc@) == goal,
        invariant
            k <= j <= ev@.len(),
        ensures
            goal == (acc@, j as int),
        decreases ev.len() - j,
    {
        match &ev[j].0 {
            MdEvent::Html(t) => {
                let b = string_bytes(t);
                let ghost before = acc@;
                acc.extend_from_slice(b);
                assert(acc@ =~= before + b@);
            },
            _ => {
                break;
            },
        }
        j = j + 1;
    }
    (acc, j)
}

/// The index of the event handled after the one at `i`.
fn ser_next_event_index(ev: &[(MdEvent, Range<usize>)], i: usize) -> (j: usize)
    requires
        i < ev@.len(),
    ensures
        j == ser_next_index(ev@, i as int),
        i < j <= ev@.len(),
{
    match &ev[i].0 {
        MdEvent::Html(h) => read_html_run(ev, i + 1, string_bytes(h)).1,
        _ => i + 1,
    }
}

/// Whether a stream of events can be serialized.
pub fn ser_events_ok(ev: &[(MdEvent, Range<usize>)]) -> (b: bool)
    ensures
        b == ser_events_ok_from(ev@, 0),
{
    let mut i: usize = 0;
    while i < ev.len()
        invariant
            i <= ev@.len(),
            ser_events_ok_from(ev@, i as int) == ser_events_ok_from(ev@, 0),
        decreases ev.len() - i,
    {
        let r = &ev[i].1;
        if r.start > r.end {
            return false;
        }
        let ok = match &ev[i].0 {
            MdEvent::Start(MdTag::HtmlBlock) => false,
            MdEvent::End(MdTagEnd::HtmlBlock) => false,
            MdEvent::InlineHtml(_) => false,
            MdEvent::Text(t) => string_bytes(t).len() <= usize::MAX - r.start,
            MdEvent::Code(t) => string_bytes(t).len() <= r.end - r.start,
            MdEvent::SoftBreak => r.start < r.end,
            _ => true,
        };
        if !ok {
            return false;
        }
        i = ser_next_event_index(ev, i);
    }
    true
}

impl<'a, T: TextTokenizer, V: TextVisitor> RenderTreeEncoder<'a, T, V> {
    fn any_autolink_text(&mut self, t: &[u8], base: usize)
        requires
            old(self).wf(),
            base + t@.len() <= usize::MAX,
        ensures
            final(self).state() == ser_autolink(old(self).state(), t@, base as int),
            final(self).wf(),
    {
        reveal(ser_autolink);
        let ghost goal = ser_autolink(self.state(), t@, base as int);
        let mut i: usize = 0;
        assert(t@.skip(0) =~= t@);
        let auto: &[u8] = &[44, 34, 97, 117, 116, 111, 34, 58, 116, 114, 117, 101, 44, 34, 104, 114, 101, 102, 34, 58];
        assert(auto@ =~= lit_autolink());
        loop
            invariant_except_break
                ser_autolink(self.state(), t@.skip(i as int), base + i) == goal,
            invariant
                self.wf(),
                i <= t@.len(),
                base + t@.len() <= usize::MAX,
                auto@ == lit_autolink(),
                goal == ser_autolink(old(self).state(), t@, base as int),
            ensures
                self.state() == goal,
                self.wf(),
            decreases t.len() - i,
        {
            proof {
                reveal(ser_autolink);
            }
            let rest = &t[i..t.len()];
            assert(rest@ =~= t@.skip(i as int));
            match Autolinker.find_any_autolink(rest) {
                Some((a, b)) => {
                    if a > 0 {
                        self.emoji_text(&rest[0..a], base + i);
                        assert(rest@.take(a as int) =~= rest@.subrange(0, a as int));
                    }
                    let url = &rest[a..b];
                    self.tag(Element::A);
                    self.raw(auto);
                    self.string(url);
                    self.children_begin();
                    self.text(url, base + i + a, base + i + b);
                    self.tag_end();
                    assert(t@.skip(i as int).skip(b as int) =~= t@.skip(i + b));
                    i = i + b;
                },
                None => {
                    if rest.len() > 0 {
                        self.emoji_text(rest, base + i);
                    }
                    break;
                },
            }
        }
    }

    fn ser_start_tag(&mut self, tag: &MdTag)
        ensures
            final(self).state() == enc_children_begin(ser_open(old(self).state(), *tag)),
            final(self).wf() == old(self).wf(),
    {
        let id: &[u8] = &[44, 34, 105, 100, 34, 58];
        let href: &[u8] = &[44, 34, 104, 114, 101, 102, 34, 58];
        let src: &[u8] = &[44, 34, 115, 114, 99, 34, 58];
        assert(id@ =~= lit_id());
        assert(href@ =~= lit_href());
        assert(src@ =~= lit_src());
        match tag {
            MdTag::Heading(level, hid) => {
                self.heading(*level);
                match hid {
                    Some(i) => {
                        self.raw(id);
                        self.string(string_bytes(i));
                    },
                    None => {},
                }
            },
            MdTag::BlockQuote(_) => self.tag(Element::Blockquote),
            MdTag::Item => self.tag(Element::Li),
            MdTag::Link(kind, dest, title) => {
                self.tag(Element::A);
                self.raw(href);
                match kind {
                    LinkKind::Email => {
                        let mut h: Vec<u8> = Vec::new();
                        h.push(109);
                        h.push(97);
                        h.push(105);
                        h.push(108);
                        h.push(116);
                        h.push(111);
                        h.push(58);
                        let ghost scheme = h@;
                        h.extend_from_slice(string_bytes(dest));
                        assert(scheme =~= lit_mailto_scheme());
                        assert(h@ =~= lit_mailto_scheme() + bytes_of(*dest));
                        self.string(h.as_slice());
                    },
                    _ => self.string(string_bytes(dest)),
                }
                self.title(title);
            },
            MdTag::Image(dest, title) => {
                self.tag(Element::Img);
                self.title(title);
                self.raw(src);
                self.string(string_bytes(dest));
            },
            _ => {
                self.open_tag(tag, false);
            },
        }
        self.children_begin();
    }
}


impl<'a, T: TextTokenizer, V: TextVisitor> RenderTreeEncoder<'a, T, V> {
    fn ser_event(&mut self, ev: &[(MdEvent, Range<usize>)], i: usize)
        requires
            old(self).wf(),
            i < ev@.len(),
            ser_event_ok(ev@, i as int),
        ensures
            final(self).state() == ser_event(old(self).state(), ev@, i as int),
            final(self).wf(),
    {
        let r = &ev[i].1;
        match &ev[i].0 {
            MdEvent::Start(tag) => self.ser_start_tag(tag),
            MdEvent::End(tag) => {
                self.end_tag(*tag, Flags { in_code_block: false, in_auto_link: false, in_link: false });
            },
            MdEvent::Text(t) => self.any_autolink_text(string_bytes(t), r.start),
            MdEvent::Code(t) => self.code_span(string_bytes(t), r),
            MdEvent::Html(h) => {
                let (raw, _) = read_html_run(ev, i + 1, string_bytes(h));
                let open: &[u8] = &[44, 34, 114, 97, 119, 34, 58, 34];
                let close: &[u8] = &[34, 125];
                assert(open@ =~= lit_raw());
                assert(close@ =~= lit_raw_end());
                self.tag(Element::Html);
                self.raw(open);
                self.escaped(raw.as_slice());
                self.raw(close);
            },
            MdEvent::SoftBreak => {
                let newline: &[u8] = &[10];
                assert(newline@ =~= seq![10u8]);
                self.text(newline, r.start, r.end);
            },
            MdEvent::HardBreak => self.empty_elem(Element::Br),
            MdEvent::Rule => self.empty_elem(Element::Hr),
            MdEvent::FootnoteReference(name) => self.footnote_ref(string_bytes(name)),
            MdEvent::TaskListMarker(checked) => self.checkbox(*checked),
            MdEvent::DisplayMath(t) => self.math(false, string_bytes(t)),
            MdEvent::InlineMath(t) => self.math(true, string_bytes(t)),
            MdEvent::InlineHtml(_) => {},
        }
    }

    fn ser_events(&mut self, ev: &[(MdEvent, Range<usize>)])
        requires
            old(self).wf(),
            ser_events_ok_from(ev@, 0),
        ensures
            final(self).state() == ser_events(old(self).state(), ev@, 0),
            final(self).wf(),
    {
        let ghost goal = ser_events(self.state(), ev@, 0);
        let mut i: usize = 0;
        while i < ev.len()
            invariant
                self.wf(),
                i <= ev@.len(),
                ser_events_ok_from(ev@, i as int),
                ser_events(self.state(), ev@, i as int) == goal,
            decreases ev.len() - i,
        {
            self.ser_event(ev, i);
            i = ser_next_event_index(ev, i);
        }
    }
}

/// Writes the render tree of a document's events as a JSON string in single
/// quotes; `offset` is where the document was last modified, and the
/// tokenizer marks search matches in the text. Returns the string and the
/// texts of the document with the source range of each.
pub fn serialize_render_tree<T: TextTokenizer>(
    ev: &[(MdEvent, Range<usize>)],
    offset: Option<usize>,
    tokenizer: T,
) -> (r: (Vec<u8>, Text))
    requires
        ser_events_ok_from(ev@, 0),
        tokenizer.inv(),
    ensures
        r.0@ == ser_document(ev@, offset, tokenizer).out,
        r.1.spec_text() == ser_document(ev@, offset, tokenizer).text,
        r.1.spec_maps() == ser_document(ev@, offset, tokenizer).srcmap,
        r.1.wf(),
{
    let mut enc = RenderTreeEncoder::new("", offset, tokenizer, Text::new());
    let begin: &[u8] = &[39, 123, 34, 107, 105, 110, 100, 34, 58, 34, 114, 101, 110, 100, 101, 114, 95, 116,
        114, 101, 101, 34, 44, 34, 116, 114, 101, 101, 34, 58, 91];
    assert(begin@ =~= lit_string_begin() + lit_open_bracket());
    enc.raw(begin);
    enc.ser_events(ev);
    if enc.marker_pending() {
        enc.marker();
    }
    let end: &[u8] = &[93, 125, 39];
    assert(end@ =~= lit_close_bracket() + lit_string_end());
    enc.raw(end);
    let (out, text) = enc.into_parts();
    (out, text)
}
} // verus!
