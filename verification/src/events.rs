use std::ops::Range;
use vstd::prelude::*;
use vstd::string::*;
use vstd::utf8::*;

verus! {

/// How a table column is aligned; `Unset` when the table does not say.
#[derive(Clone, Copy, PartialEq, Eq, Structural, Debug)]
pub enum Alignment {
    Unset,
    Left,
    Center,
    Right,
}

/// The kind of a GitHub alert block quote.
#[derive(Clone, Copy, PartialEq, Eq, Structural, Debug)]
pub enum AlertKind {
    Note,
    Tip,
    Important,
    Warning,
    Caution,
}

/// How a link was written. Links written as `<https://...>` are autolinks;
/// `<foo@example.com>` is an email link; everything else is `Other`.
#[derive(Clone, Copy, PartialEq, Eq, Structural, Debug)]
pub enum LinkKind {
    Autolink,
    Email,
    Other,
}

/// The start of a Markdown element.
pub enum MdTag {
    Paragraph,
    /// A heading with its level (1 to 6) and the id given to it in the
    /// document, if any.
    Heading(u8, Option<String>),
    /// A table with the alignment of each column.
    Table(Vec<Alignment>),
    TableHead,
    TableRow,
    TableCell,
    /// A block quote, or an alert when the kind is given.
    BlockQuote(Option<AlertKind>),
    /// A code block with the info string of a fenced block; `None` for an
    /// indented block.
    CodeBlock(Option<String>),
    /// A list: ordered with its first number, or unordered.
    List(Option<u64>),
    Item,
    Emphasis,
    Strong,
    Strikethrough,
    /// A link with its kind, destination and title.
    Link(LinkKind, String, String),
    /// An image with its destination and title.
    Image(String, String),
    HtmlBlock,
    /// A footnote definition with its label.
    FootnoteDefinition(String),
    /// An element of a Markdown extension that the parser is not asked to
    /// recognize (definition lists, super- and subscripts, metadata blocks),
    /// so that it never emits one.
    Disabled,
}

/// The end of a Markdown element.
#[derive(Clone, Copy, PartialEq, Eq, Structural, Debug)]
pub enum MdTagEnd {
    Paragraph,
    Heading,
    Table,
    TableHead,
    TableRow,
    TableCell,
    BlockQuote,
    CodeBlock,
    List,
    Item,
    Emphasis,
    Strong,
    Strikethrough,
    Link,
    Image,
    HtmlBlock,
    FootnoteDefinition,
    /// The end of an element of an extension that is not enabled.
    Disabled,
}

/// One event of a parsed Markdown document.
pub enum MdEvent {
    Start(MdTag),
    End(MdTagEnd),
    Text(String),
    Code(String),
    Html(String),
    InlineHtml(String),
    SoftBreak,
    HardBreak,
    Rule,
    FootnoteReference(String),
    TaskListMarker(bool),
    DisplayMath(String),
    InlineMath(String),
}

/// The UTF-8 bytes of a string.
pub open spec fn bytes_of(s: String) -> Seq<u8> {
    encode_utf8(s@)
}

/// The bytes of a string, as a slice.
pub fn string_bytes(s: &String) -> (b: &[u8])
    ensures
        b@ == bytes_of(*s),
{
    s.as_str().as_bytes()
}

/// Appends bytes to a buffer.
pub fn append_bytes(out: &mut Vec<u8>, b: &[u8])
    ensures
        final(out)@ == old(out)@ + b@,
{
    out.extend_from_slice(b);
    assert(out@ =~= old(out)@ + b@);
}

/// The first index at or after `from` that holds the byte `b`, or the
/// length when there is none.
pub open spec fn next_byte(t: Seq<u8>, from: int, b: u8) -> int
    decreases t.len() - from,
{
    if from >= t.len() {
        t.len() as int
    } else if t[from] == b {
        from
    } else {
        next_byte(t, from + 1, b)
    }
}

/// `next_byte` stays within the text and finds exactly the first such byte.
pub proof fn lemma_next_byte(t: Seq<u8>, from: int, b: u8)
    requires
        0 <= from <= t.len(),
    ensures
        from <= next_byte(t, from, b) <= t.len(),
        next_byte(t, from, b) < t.len() ==> t[next_byte(t, from, b)] == b,
        forall|j: int| from <= j < next_byte(t, from, b) ==> t[j] != b,
    decreases t.len() - from,
{
    if from < t.len() && t[from] != b {
        lemma_next_byte(t, from + 1, b);
    }
}

/// Whether raw HTML starts with a closing tag.
pub open spec fn is_closing_tag(h: Seq<u8>) -> bool {
    h.len() >= 2 && h[0] == 60u8 && h[1] == 47u8
}

/// The bytes that follow an inline HTML piece up to where its outermost tag
/// closes, starting at event `k`: `tags` tags are open, `children` Markdown
/// elements were entered inside them, and `acc` was read so far. Inline HTML
/// text, plain text, code and math are read; a soft break reads as a space
/// and a hard break as a newline; other events are passed over. The read
/// stops when the tags are closed, at the end of an element that was not
/// entered inside, or at the end of the events. Returns what was read and the
/// index of the first event that was not consumed.
pub open spec fn inline_html_from(
    ev: Seq<(MdEvent, Range<usize>)>,
    k: int,
    tags: nat,
    children: nat,
    acc: Seq<u8>,
) -> (Seq<u8>, int)
    decreases ev.len() - k,
{
    if k < 0 || k >= ev.len() || tags == 0 {
        (acc, k)
    } else {
        match ev[k].0 {
            MdEvent::InlineHtml(h) => inline_html_from(
                ev,
                k + 1,
                if is_closing_tag(bytes_of(h)) { (tags - 1) as nat } else { tags + 1 },
                children,
                acc + bytes_of(h),
            ),
            MdEvent::Start(_) => inline_html_from(ev, k + 1, tags, children + 1, acc),
            MdEvent::End(_) => if children == 0 {
                (acc, k)
            } else {
                inline_html_from(ev, k + 1, tags, (children - 1) as nat, acc)
            },
            MdEvent::Text(t) => inline_html_from(ev, k + 1, tags, children, acc + bytes_of(t)),
            MdEvent::Code(t) => inline_html_from(ev, k + 1, tags, children, acc + bytes_of(t)),
            MdEvent::DisplayMath(t) => inline_html_from(ev, k + 1, tags, children, acc + bytes_of(t)),
            MdEvent::InlineMath(t) => inline_html_from(ev, k + 1, tags, children, acc + bytes_of(t)),
            MdEvent::SoftBreak => inline_html_from(ev, k + 1, tags, children, acc.push(32u8)),
            MdEvent::HardBreak => inline_html_from(ev, k + 1, tags, children, acc.push(10u8)),
            _ => inline_html_from(ev, k + 1, tags, children, acc),
        }
    }
}

/// The raw HTML of an `Html` or `InlineHtml` event at `i` together with what
/// follows it up to where its tag closes, and the index of the next event.
pub open spec fn inline_html(ev: Seq<(MdEvent, Range<usize>)>, i: int, h: Seq<u8>) -> (Seq<u8>, int) {
    inline_html_from(ev, i + 1, if is_closing_tag(h) { 0 } else { 1 }, 0, h)
}

/// The raw HTML of an HTML block whose events start at `k`: the `Html` and
/// `Text` events up to the end of the block, and the index after that end.
pub open spec fn html_block_from(ev: Seq<(MdEvent, Range<usize>)>, k: int, acc: Seq<u8>) -> (Seq<u8>, int)
    decreases ev.len() - k,
{
    if k < 0 || k >= ev.len() {
        (acc, k)
    } else {
        match ev[k].0 {
            MdEvent::End(MdTagEnd::HtmlBlock) => (acc, k + 1),
            MdEvent::Html(h) => html_block_from(ev, k + 1, acc + bytes_of(h)),
            MdEvent::Text(t) => html_block_from(ev, k + 1, acc + bytes_of(t)),
            _ => (acc, k),
        }
    }
}

/// An HTML block holds nothing but `Html` and `Text` events before its end.
pub open spec fn html_block_ok(ev: Seq<(MdEvent, Range<usize>)>, k: int) -> bool
    decreases ev.len() - k,
{
    if k < 0 || k >= ev.len() {
        true
    } else {
        match ev[k].0 {
            MdEvent::End(MdTagEnd::HtmlBlock) => true,
            MdEvent::Html(_) => html_block_ok(ev, k + 1),
            MdEvent::Text(_) => html_block_ok(ev, k + 1),
            _ => false,
        }
    }
}

/// The index of the event that the render tree encoder handles after the
/// one at `i`: HTML consumes the events that its raw text is read from.
pub open spec fn next_index(ev: Seq<(MdEvent, Range<usize>)>, i: int) -> int {
    match ev[i].0 {
        MdEvent::Start(MdTag::HtmlBlock) => html_block_from(ev, i + 1, Seq::empty()).1,
        MdEvent::Html(h) => inline_html(ev, i, bytes_of(h)).1,
        MdEvent::InlineHtml(h) => inline_html(ev, i, bytes_of(h)).1,
        _ => i + 1,
    }
}

/// What the encoder needs of the event at `i`: a range that does not run
/// backwards and leaves room for the offsets of its text, a code span no
/// longer than its range, a soft break of one or two bytes, and a well
/// formed HTML block; the end of an HTML block is never met on its own.
pub open spec fn event_ok(ev: Seq<(MdEvent, Range<usize>)>, i: int) -> bool {
    let r = ev[i].1;
    &&& r.start <= r.end
    &&& match ev[i].0 {
        MdEvent::Start(MdTag::HtmlBlock) => html_block_ok(ev, i + 1),
        MdEvent::End(MdTagEnd::HtmlBlock) => false,
        MdEvent::Start(MdTag::Disabled) => false,
        MdEvent::End(MdTagEnd::Disabled) => false,
        MdEvent::Text(t) => r.start + bytes_of(t).len() <= usize::MAX,
        MdEvent::Code(t) => bytes_of(t).len() <= r.end - r.start,
        MdEvent::SoftBreak => r.start < r.end,
        _ => true,
    }
}

/// Every event that the encoder handles from `i` on is as it needs.
pub open spec fn events_ok_from(ev: Seq<(MdEvent, Range<usize>)>, i: int) -> bool
    decreases ev.len() - i,
{
    if i < 0 || i >= ev.len() {
        true
    } else if next_index(ev, i) <= i || next_index(ev, i) > ev.len() {
        false
    } else {
        event_ok(ev, i) && events_ok_from(ev, next_index(ev, i))
    }
}

/// Whether raw HTML starts with a closing tag.
fn closing_tag(h: &[u8]) -> (b: bool)
    ensures
        b == is_closing_tag(h@),
{
    h.len() >= 2 && h[0] == 60 && h[1] == 47
}

/// Reads the raw HTML of an `Html` or `InlineHtml` event at `i` (whose text
/// is `h`) and of what follows it up to where its tag closes.
pub fn read_inline_html(ev: &[(MdEvent, Range<usize>)], i: usize, h: &[u8]) -> (r: (Vec<u8>, usize))
    requires
        i < ev@.len(),
    ensures
        r.0@ == inline_html(ev@, i as int, h@).0,
        r.1 == inline_html(ev@, i as int, h@).1,
        i < r.1 <= ev@.len(),
{
    let n = ev.len();
    let mut acc: Vec<u8> = Vec::new();
    append_bytes(&mut acc, h);
    let mut tags: usize = if closing_tag(h) { 0 } else { 1 };
    let mut children: usize = 0;
    let mut k: usize = i + 1;
    let ghost goal = inline_html(ev@, i as int, h@);
    assert(acc@ =~= h@);
    while k < ev.len() && tags > 0
        invariant
            i < k <= ev@.len(),
            tags <= k,
            children <= k,
            inline_html_from(ev@, k as int, tags as nat, children as nat, acc@) == goal,
            goal == inline_html(ev@, i as int, h@),
        ensures
            inline_html_from(ev@, k as int, tags as nat, children as nat, acc@) == goal,
            i < k <= ev@.len(),
            k >= ev@.len() || tags == 0 || goal == (acc@, k as int),
        decreases ev.len() - k,
    {
        let ghost acc0 = acc@;
        let ghost t0 = tags;
        let ghost c0 = children;
        match &ev[k].0 {
            MdEvent::InlineHtml(t) => {
                let b = string_bytes(t);
                if closing_tag(b) {
                    tags = tags - 1;
                } else {
                    tags = tags + 1;
                }
                append_bytes(&mut acc, b);
                assert(inline_html_from(ev@, k as int, t0 as nat, c0 as nat, acc0) == inline_html_from(ev@, k + 1, tags as nat, children as nat, acc@));
            },
            MdEvent::Start(_) => {
                children = children + 1;
                assert(inline_html_from(ev@, k as int, t0 as nat, c0 as nat, acc0) == inline_html_from(ev@, k + 1, tags as nat, children as nat, acc@));
            },
            MdEvent::End(_) => {
                if children == 0 {
                    break;
                }
                children = children - 1;
                assert(inline_html_from(ev@, k as int, t0 as nat, c0 as nat, acc0) == inline_html_from(ev@, k + 1, tags as nat, children as nat, acc@));
            },
            MdEvent::Text(t) => {
                append_bytes(&mut acc, string_bytes(t));
                assert(inline_html_from(ev@, k as int, t0 as nat, c0 as nat, acc0) == inline_html_from(ev@, k + 1, tags as nat, children as nat, acc@));
            },
            MdEvent::Code(t) => {
                append_bytes(&mut acc, string_bytes(t));
                assert(inline_html_from(ev@, k as int, t0 as nat, c0 as nat, acc0) == inline_html_from(ev@, k + 1, tags as nat, children as nat, acc@));
            },
            MdEvent::DisplayMath(t) => {
                append_bytes(&mut acc, string_bytes(t));
                assert(inline_html_from(ev@, k as int, t0 as nat, c0 as nat, acc0) == inline_html_from(ev@, k + 1, tags as nat, children as nat, acc@));
            },
            MdEvent::InlineMath(t) => {
                append_bytes(&mut acc, string_bytes(t));
                assert(inline_html_from(ev@, k as int, t0 as nat, c0 as nat, acc0) == inline_html_from(ev@, k + 1, tags as nat, children as nat, acc@));
            },
            MdEvent::SoftBreak => {
                acc.push(32);
                assert(inline_html_from(ev@, k as int, t0 as nat, c0 as nat, acc0) == inline_html_from(ev@, k + 1, tags as nat, children as nat, acc@));
            },
            MdEvent::HardBreak => {
                acc.push(10);
                assert(inline_html_from(ev@, k as int, t0 as nat, c0 as nat, acc0) == inline_html_from(ev@, k + 1, tags as nat, children as nat, acc@));
            },
            _ => {assert(inline_html_from(ev@, k as int, t0 as nat, c0 as nat, acc0) == inline_html_from(ev@, k + 1, tags as nat, children as nat, acc@));},
        }
        k = k + 1;
    }
    (acc, k)
}

/// Reads the raw HTML of an HTML block whose events start at `k`.
pub fn read_html_block(ev: &[(MdEvent, Range<usize>)], k: usize) -> (r: (Vec<u8>, usize))
    requires
        k <= ev@.len(),
    ensures
        r.0@ == html_block_from(ev@, k as int, Seq::empty()).0,
        r.1 == html_block_from(ev@, k as int, Seq::empty()).1,
        k <= r.1 <= ev@.len(),
{
    let mut acc: Vec<u8> = Vec::new();
    let mut j: usize = k;
    let ghost goal = html_block_from(ev@, k as int, Seq::empty());
    assert(acc@ =~= Seq::<u8>::empty());
    while j < ev.len()
        invariant_except_break
            html_block_from(ev@, j as int, acc@) == goal,
        invariant
            k <= j <= ev@.len(),
        ensures
            k <= j <= ev@.len(),
            goal == (acc@, j as int),
        decreases ev.len() - j,
    {
        match &ev[j].0 {
            MdEvent::End(MdTagEnd::HtmlBlock) => {
                j = j + 1;
                break;
            },
            MdEvent::Html(h) => {
                append_bytes(&mut acc, string_bytes(h));
            },
            MdEvent::Text(t) => {
                append_bytes(&mut acc, string_bytes(t));
            },
            _ => {
                break;
            },
        }
        j = j + 1;
    }
    (acc, j)
}

/// Checks that an HTML block holds nothing but `Html` and `Text` events.
fn check_html_block(ev: &[(MdEvent, Range<usize>)], k: usize) -> (b: bool)
    requires
        k <= ev@.len(),
    ensures
        b == html_block_ok(ev@, k as int),
{
    let mut j: usize = k;
    while j < ev.len()
        invariant
            k <= j <= ev@.len(),
            html_block_ok(ev@, j as int) == html_block_ok(ev@, k as int),
        decreases ev.len() - j,
    {
        match &ev[j].0 {
            MdEvent::End(MdTagEnd::HtmlBlock) => {
                return true;
            },
            MdEvent::Html(_) => {},
            MdEvent::Text(_) => {},
            _ => {
                return false;
            },
        }
        j = j + 1;
    }
    true
}

/// The index of the event handled after the one at `i`.
pub fn next_event_index(ev: &[(MdEvent, Range<usize>)], i: usize) -> (j: usize)
    requires
        i < ev@.len(),
    ensures
        j == next_index(ev@, i as int),
        i < j <= ev@.len(),
{
    match &ev[i].0 {
        MdEvent::Start(MdTag::HtmlBlock) => read_html_block(ev, i + 1).1,
        MdEvent::Html(h) => read_inline_html(ev, i, string_bytes(h)).1,
        MdEvent::InlineHtml(h) => read_inline_html(ev, i, string_bytes(h)).1,
        _ => i + 1,
    }
}

/// Whether the event at `i` is as the encoder needs it.
fn check_event(ev: &[(MdEvent, Range<usize>)], i: usize) -> (b: bool)
    requires
        i < ev@.len(),
    ensures
        b == event_ok(ev@, i as int),
{
    let r = &ev[i].1;
    if r.start > r.end {
        return false;
    }
    match &ev[i].0 {
        MdEvent::Start(MdTag::HtmlBlock) => check_html_block(ev, i + 1),
        MdEvent::End(MdTagEnd::HtmlBlock) => false,
        MdEvent::Start(MdTag::Disabled) => false,
        MdEvent::End(MdTagEnd::Disabled) => false,
        MdEvent::Text(t) => string_bytes(t).len() <= usize::MAX - r.start,
        MdEvent::Code(t) => string_bytes(t).len() <= r.end - r.start,
        MdEvent::SoftBreak => r.start < r.end,
        _ => true,
    }
}

/// Whether a stream of events can be encoded: what a Markdown parser emits
/// always can.
pub fn events_ok(ev: &[(MdEvent, Range<usize>)]) -> (b: bool)
    ensures
        b == events_ok_from(ev@, 0),
{
    let mut i: usize = 0;
    while i < ev.len()
        invariant
            i <= ev@.len(),
            events_ok_from(ev@, i as int) == events_ok_from(ev@, 0),
        decreases ev.len() - i,
    {
        if !check_event(ev, i) {
            return false;
        }
        i = next_event_index(ev, i);
    }
    true
}

} // verus!
