use crate::config::SearchMatcher;
use std::ops::Range;
use vstd::prelude::*;
use vstd::string::*;
use vstd::utf8::encode_utf8;

verus! {

/// How a piece of text is marked in the render tree when search matches are
/// highlighted.
#[derive(Clone, Copy, PartialEq, Eq, Structural, Debug)]
pub enum TokenKind {
    Normal,
    MatchOther,
    MatchCurrent,
    MatchOtherStart,
    MatchCurrentStart,
}

/// The name of the render tree element for a marked piece of text.
pub open spec fn spec_token_tag(kind: TokenKind) -> Seq<char> {
    match kind {
        TokenKind::MatchOther => "match"@,
        TokenKind::MatchCurrent => "match-current"@,
        TokenKind::MatchOtherStart => "match-start"@,
        TokenKind::MatchCurrentStart => "match-current-start"@,
        TokenKind::Normal => Seq::empty(),
    }
}

impl TokenKind {
    /// The element name of a marked token; normal text has no element.
    pub fn tag(self) -> (s: &'static str)
        requires
            self != TokenKind::Normal,
        ensures
            s@ == spec_token_tag(self),
    {
        match self {
            TokenKind::MatchOther => "match",
            TokenKind::MatchCurrent => "match-current",
            TokenKind::MatchOtherStart => "match-start",
            TokenKind::MatchCurrentStart => "match-current-start",
            TokenKind::Normal => "",
        }
    }
}

/// Splits text of the document into pieces that are marked differently.
/// Given a non-empty text and its byte range in the source, a tokenizer
/// tells how to mark a non-empty prefix of the text and how long it is.
pub trait TextTokenizer: Sized {
    /// The tokenizer after the call, the marking, and the prefix length, for
    /// a text of `len` bytes that starts at byte `start` of the source.
    spec fn spec_tokenize(self, len: nat, start: int) -> (Self, TokenKind, nat);

    /// The tokenizer's own invariant.
    spec fn inv(self) -> bool;

    fn tokenize(&mut self, text: &[u8], range: &Range<usize>) -> (r: (TokenKind, usize))
        requires
            old(self).inv(),
            text@.len() > 0,
            range.start + text@.len() == range.end,
        ensures
            final(self).inv(),
            old(self).spec_tokenize(text@.len(), range.start as int) == (*final(self), r.0, r.1 as nat),
            0 < r.1 <= text@.len(),
    ;
}

/// Leaves all text unmarked.
pub struct PlainText;

impl TextTokenizer for PlainText {
    open spec fn spec_tokenize(self, len: nat, start: int) -> (Self, TokenKind, nat) {
        (self, TokenKind::Normal, len)
    }

    open spec fn inv(self) -> bool {
        true
    }

    fn tokenize(&mut self, text: &[u8], range: &Range<usize>) -> (r: (TokenKind, usize)) {
        (TokenKind::Normal, text.len())
    }
}

/// Length of a well-formed range.
pub open spec fn range_len(r: Range<usize>) -> int {
    r.end - r.start
}

/// Every range starts no later than it ends.
pub open spec fn ranges_wf(m: Seq<Range<usize>>) -> bool {
    forall|i: int| 0 <= i < m.len() ==> (#[trigger] m[i]).start <= m[i].end
}

/// Total length of the first `k` ranges.
pub open spec fn cum_len(m: Seq<Range<usize>>, k: int) -> int
    decreases k,
{
    if k <= 0 || k > m.len() {
        0
    } else {
        cum_len(m, k - 1) + range_len(m[k - 1])
    }
}

/// Maps the offset `idx` of the collected text to the source, scanning the
/// ranges from the `k`-th one, whose text starts at offset `off`: the first
/// range that holds `idx` before its end gives the answer. Also returns the
/// range and offset where the scan stopped, where the next scan resumes.
pub open spec fn find_inclusive(m: Seq<Range<usize>>, idx: int, k: int, off: int) -> (Option<int>, int, int)
    decreases m.len() - k,
{
    if k < 0 || k >= m.len() {
        (None, k, off)
    } else if off + range_len(m[k]) <= idx {
        if k + 1 < m.len() {
            find_inclusive(m, idx, k + 1, off + range_len(m[k]))
        } else {
            (None, k, off)
        }
    } else {
        (Some(m[k].start + (idx - off)), k, off)
    }
}

/// Like `find_inclusive`, but a range also holds the offset at its end.
pub open spec fn find_exclusive(m: Seq<Range<usize>>, idx: int, k: int, off: int) -> (Option<int>, int, int)
    decreases m.len() - k,
{
    if k < 0 || k >= m.len() {
        (None, k, off)
    } else if off + range_len(m[k]) < idx {
        if k + 1 < m.len() {
            find_exclusive(m, idx, k + 1, off + range_len(m[k]))
        } else {
            (None, k, off)
        }
    } else {
        (Some(m[k].start + (idx - off)), k, off)
    }
}

/// The source ranges of the matches `pairs[i..]` (start and end offsets in
/// the collected text, in increasing order), scanning the source map from
/// its `k`-th range at text offset `off`. The list stops at the first match
/// that does not fall inside the collected text.
pub open spec fn map_matches(m: Seq<Range<usize>>, pairs: Seq<(usize, usize)>, i: int, k: int, off: int) -> Seq<Range<usize>>
    decreases pairs.len() - i,
{
    if i < 0 || i >= pairs.len() {
        Seq::empty()
    } else {
        let (s, k1, off1) = find_inclusive(m, pairs[i].0 as int, k, off);
        match s {
            None => Seq::empty(),
            Some(s) => {
                let (e, k2, off2) = find_exclusive(m, pairs[i].1 as int, k1, off1);
                match e {
                    None => Seq::empty(),
                    Some(e) => seq![Range { start: s as usize, end: e as usize }] + map_matches(m, pairs, i + 1, k2, off2),
                }
            },
        }
    }
}

/// Matches come in order and do not overlap: each starts no later than it
/// ends, and no earlier than the previous one ends.
pub open spec fn sorted_matches(pairs: Seq<(usize, usize)>) -> bool {
    &&& forall|i: int| 0 <= i < pairs.len() ==> (#[trigger] pairs[i]).0 <= pairs[i].1
    &&& forall|i: int| 0 < i < pairs.len() ==> pairs[i - 1].1 <= (#[trigger] pairs[i]).0
}

/// Maps offsets in the collected text back to offsets in the source, for
/// offsets that are queried in increasing order.
struct SourceMapper<'a> {
    srcmap: &'a [Range<usize>],
    head: usize,
    offset: usize,
}

impl<'a> SourceMapper<'a> {
    spec fn wf(&self) -> bool {
        &&& ranges_wf(self.srcmap@)
        &&& self.head < self.srcmap@.len()
        &&& self.offset == cum_len(self.srcmap@, self.head as int)
    }

    fn new(srcmap: &'a [Range<usize>]) -> (r: Option<SourceMapper<'a>>)
        requires
            ranges_wf(srcmap@),
        ensures
            srcmap@.len() == 0 <==> r.is_none(),
            r matches Some(m) ==> m.wf() && m.srcmap@ == srcmap@ && m.offset == 0 && m.head == 0,
    {
        if srcmap.len() == 0 {
            None
        } else {
            Some(SourceMapper { srcmap, head: 0, offset: 0 })
        }
    }

    fn next(&mut self) -> (moved: bool)
        requires
            old(self).wf(),
            old(self).offset + range_len(old(self).srcmap@[old(self).head as int]) <= usize::MAX,
        ensures
            final(self).wf(),
            final(self).srcmap == old(self).srcmap,
            moved == (old(self).head + 1 < old(self).srcmap@.len()),
            moved ==> final(self).head == old(self).head + 1,
            !moved ==> *final(self) == *old(self),
    {
        if self.head >= self.srcmap.len() - 1 {
            return false;
        }
        let len = self.srcmap[self.head].end - self.srcmap[self.head].start;
        assert(self.srcmap@[self.head as int].start <= self.srcmap@[self.head as int].end);
        self.offset = self.offset + len;
        self.head = self.head + 1;
        true
    }
}

} // verus!

verus! {

impl<'a> SourceMapper<'a> {
    /// Where the start of a match at `index` of the collected text lies in
    /// the source.
    fn map_inclusive(&mut self, index: usize) -> (r: Option<usize>)
        requires
            old(self).wf(),
            old(self).offset <= index,
        ensures
            final(self).wf(),
            final(self).srcmap == old(self).srcmap,
            ({
                let (v, k, off) = find_inclusive(old(self).srcmap@, index as int, old(self).head as int, old(self).offset as int);
                &&& r == match v { Some(x) => Some(x as usize), None => None::<usize> }
                &&& final(self).head == k
                &&& final(self).offset == off
            }),
            r.is_some() ==> final(self).offset <= index,
    {
        let ghost m = self.srcmap@;
        let ghost goal = find_inclusive(m, index as int, self.head as int, self.offset as int);
        loop
            invariant
                self.wf(),
                self.srcmap == old(self).srcmap,
                self.srcmap@ == m,
                self.offset <= index,
                find_inclusive(m, index as int, self.head as int, self.offset as int) == goal,
                m == old(self).srcmap@,
                goal == find_inclusive(old(self).srcmap@, index as int, old(self).head as int, old(self).offset as int),
            decreases m.len() - self.head,
        {
            let start = self.srcmap[self.head].start;
            let len = self.srcmap[self.head].end - start;
            if index - self.offset >= len {
                let ghost k = self.head as int;
                let ghost off = self.offset as int;
                if !self.next() {
                    assert(find_inclusive(m, index as int, k, off) == (None::<int>, k, off));
                    return None;
                }
            } else {
                assert(find_inclusive(m, index as int, self.head as int, self.offset as int) == (
                    Some(start + (index - self.offset)),
                    self.head as int,
                    self.offset as int,
                ));
                return Some(start + (index - self.offset));
            }
        }
    }

    /// Where the end of a match at `index` of the collected text lies in
    /// the source.
    fn map_exclusive(&mut self, index: usize) -> (r: Option<usize>)
        requires
            old(self).wf(),
            old(self).offset <= index,
        ensures
            final(self).wf(),
            final(self).srcmap == old(self).srcmap,
            ({
                let (v, k, off) = find_exclusive(old(self).srcmap@, index as int, old(self).head as int, old(self).offset as int);
                &&& r == match v { Some(x) => Some(x as usize), None => None::<usize> }
                &&& final(self).head == k
                &&& final(self).offset == off
            }),
            r.is_some() ==> final(self).offset <= index,
    {
        let ghost m = self.srcmap@;
        let ghost goal = find_exclusive(m, index as int, self.head as int, self.offset as int);
        loop
            invariant
                self.wf(),
                self.srcmap == old(self).srcmap,
                self.srcmap@ == m,
                self.offset <= index,
                find_exclusive(m, index as int, self.head as int, self.offset as int) == goal,
                m == old(self).srcmap@,
                goal == find_exclusive(old(self).srcmap@, index as int, old(self).head as int, old(self).offset as int),
            decreases m.len() - self.head,
        {
            let start = self.srcmap[self.head].start;
            let len = self.srcmap[self.head].end - start;
            if index - self.offset > len {
                let ghost k = self.head as int;
                let ghost off = self.offset as int;
                if !self.next() {
                    assert(find_exclusive(m, index as int, k, off) == (None::<int>, k, off));
                    return None;
                }
            } else {
                assert(find_exclusive(m, index as int, self.head as int, self.offset as int) == (
                    Some(start + (index - self.offset)),
                    self.head as int,
                    self.offset as int,
                ));
                return Some(start + (index - self.offset));
            }
        }
    }
}

/// `String::from_utf8_lossy`: text that is valid UTF-8 decodes to exactly
/// its characters. What it makes of invalid UTF-8 (replacement characters)
/// is left unsaid.
#[verifier::external_body]
fn utf8_lossy(bytes: &[u8]) -> (s: String)
    ensures
        vstd::utf8::valid_utf8(bytes@) ==> s@ == vstd::utf8::decode_utf8(bytes@),
{
    String::from_utf8_lossy(bytes).into_owned()
}

/// The source map after a text of the document at `range` is collected:
/// a range that continues the last one extends it, any other is appended.
pub open spec fn spec_push_range(m: Seq<Range<usize>>, range: Range<usize>) -> Seq<Range<usize>> {
    if m.len() > 0 && m.last().end == range.start {
        m.update(m.len() - 1, Range { start: m.last().start, end: range.end })
    } else {
        m.push(range)
    }
}

/// Why a search could not run.
#[derive(Clone, Copy, PartialEq, Eq, Structural, Debug)]
pub enum SearchError {
    /// The query could not be compiled into a matcher.
    InvalidQuery,
}

/// The text shown in the preview, collected while rendering, with the map
/// from each piece of it back to its bytes in the Markdown source.
pub struct DisplayText {
    text: Vec<u8>,
    srcmap: Vec<Range<usize>>,
}

/// A search query contains an ASCII upper-case letter.
pub open spec fn has_ascii_uppercase(q: Seq<char>) -> bool {
    exists|i: int| 0 <= i < q.len() && 'A' <= #[trigger] q[i] <= 'Z'
}

/// Whether a search matcher ignores case for the query.
pub open spec fn spec_ignore_case(query: Seq<char>, matcher: SearchMatcher) -> bool {
    match matcher {
        SearchMatcher::SmartCase => !has_ascii_uppercase(query),
        SearchMatcher::CaseInsensitive => true,
        SearchMatcher::CaseSensitive | SearchMatcher::CaseSensitiveRegex => false,
    }
}

/// The matches of a literal query (ASCII case folded when `ignore_case`)
/// in a text, as start and end byte offsets; `None` when no matcher can be
/// built for the query.
pub uninterp spec fn literal_matches(query: Seq<char>, ignore_case: bool, haystack: Seq<u8>) -> Option<Seq<(usize, usize)>>;

/// The matches of a regular expression in a UTF-8 text, as start and end
/// byte offsets; `None` when the expression does not compile or the text is
/// not UTF-8.
pub uninterp spec fn regex_matches(pattern: Seq<char>, ignore_case: bool, haystack: Seq<u8>) -> Option<Seq<(usize, usize)>>;

/// Leftmost non-overlapping matches lie in the text, in order.
pub open spec fn matches_in_text(pairs: Seq<(usize, usize)>, len: nat) -> bool {
    &&& sorted_matches(pairs)
    &&& forall|i: int| 0 <= i < pairs.len() ==> (#[trigger] pairs[i]).1 <= len
}

/// The lower-case form of an ASCII letter; any other byte as it is.
pub open spec fn ascii_lower(b: u8) -> u8 {
    if 65 <= b <= 90 { (b + 32) as u8 } else { b }
}

/// Whether a byte of the text matches a byte of the pattern: the same
/// byte, or the same ASCII letter in the other case when case is ignored.
pub open spec fn byte_matches(t: u8, p: u8, ignore_case: bool) -> bool {
    t == p || (ignore_case && ascii_lower(t) == ascii_lower(p))
}

/// Whether the pattern occurs in the text at `i`.
pub open spec fn occurs_at(pattern: Seq<u8>, text: Seq<u8>, i: int, ignore_case: bool) -> bool {
    &&& 0 <= i
    &&& i + pattern.len() <= text.len()
    &&& forall|k: int| 0 <= k < pattern.len() ==> byte_matches(#[trigger] text[i + k], pattern[k], ignore_case)
}

/// The occurrences of a non-empty pattern in the text from `from` on, as a
/// single-pattern search finds them: the leftmost one, then the leftmost
/// one after its end, and so on.
pub open spec fn literal_occurrences(pattern: Seq<u8>, ignore_case: bool, text: Seq<u8>, from: int) -> Seq<(usize, usize)>
    decreases text.len() - from,
{
    if pattern.len() == 0 || from < 0 || from + pattern.len() > text.len() {
        Seq::empty()
    } else if occurs_at(pattern, text, from, ignore_case) {
        seq![(from as usize, (from + pattern.len()) as usize)]
            + literal_occurrences(pattern, ignore_case, text, from + pattern.len())
    } else {
        literal_occurrences(pattern, ignore_case, text, from + 1)
    }
}

/// Builds an `aho_corasick` automaton for the single pattern `query`
/// (`ascii_case_insensitive` as asked) and collects `find_iter` over the
/// text. With one pattern, the standard match semantics that `find_iter`
/// uses reports the leftmost occurrence, and the search goes on after its
/// end: for a non-empty query that is what this contract states. When an
/// automaton cannot be built is named, not stated.
#[verifier::external_body]
fn find_literal(query: &str, ignore_case: bool, haystack: &[u8]) -> (r: Option<Vec<(usize, usize)>>)
    ensures
        r matches Some(v) ==> literal_matches(query@, ignore_case, haystack@) == Some(v@)
            && matches_in_text(v@, haystack@.len()),
        r is None <==> literal_matches(query@, ignore_case, haystack@) is None,
        query@.len() > 0 ==> (r matches Some(v) ==> v@ == literal_occurrences(encode_utf8(query@), ignore_case, haystack@, 0)),
{
    match aho_corasick::AhoCorasickBuilder::new().ascii_case_insensitive(ignore_case).build([query]) {
        Ok(ac) => Some(ac.find_iter(haystack).map(|m| (m.start(), m.end())).collect()),
        Err(_) => None,
    }
}

/// Compiles `pattern` with `regex::RegexBuilder` (`case_insensitive` as
/// asked) and collects `find_iter` over the text, read as UTF-8 text; a text
/// that is not UTF-8 gives `None` as a pattern that does not compile does.
/// The crate documents successive non-overlapping matches in order; which
/// ones are reported is named, not stated.
#[verifier::external_body]
fn find_regex(pattern: &str, ignore_case: bool, haystack: &[u8]) -> (r: Option<Vec<(usize, usize)>>)
    ensures
        r matches Some(v) ==> regex_matches(pattern@, ignore_case, haystack@) == Some(v@)
            && matches_in_text(v@, haystack@.len()),
        r is None <==> regex_matches(pattern@, ignore_case, haystack@) is None,
{
    match (std::str::from_utf8(haystack), regex::RegexBuilder::new(pattern).case_insensitive(ignore_case).build()) {
        (Ok(text), Ok(re)) => Some(re.find_iter(text).map(|m| (m.start(), m.end())).collect()),
        _ => None,
    }
}

/// Whether the query has an ASCII upper-case letter.
fn contains_ascii_uppercase(query: &str) -> (b: bool)
    ensures
        b == has_ascii_uppercase(query@),
{
    let n = query.unicode_len();
    let mut i: usize = 0;
    while i < n
        invariant
            n == query@.len(),
            i <= n,
            forall|j: int| 0 <= j < i ==> !('A' <= #[trigger] query@[j] <= 'Z'),
        decreases n - i,
    {
        let c = query.get_char(i);
        if 'A' <= c && c <= 'Z' {
            return true;
        }
        i = i + 1;
    }
    false
}

/// The source ranges of the given matches in a text whose pieces come from
/// the source ranges `srcmap`.
pub fn map_to_source(srcmap: &[Range<usize>], pairs: &[(usize, usize)]) -> (r: SearchMatches)
    requires
        ranges_wf(srcmap@),
        sorted_matches(pairs@),
    ensures
        r.0@ == map_matches(srcmap@, pairs@, 0, 0, 0),
{
    let mut matches: Vec<Range<usize>> = Vec::new();
    let mut mapper = match SourceMapper::new(srcmap) {
        Some(m) => m,
        None => {
            return SearchMatches(matches);
        },
    };
    let ghost m = srcmap@;
    let mut i: usize = 0;
    while i < pairs.len()
        invariant
            mapper.wf(),
            mapper.srcmap@ == m,
            m == srcmap@,
            sorted_matches(pairs@),
            i <= pairs.len(),
            i > 0 ==> mapper.offset <= pairs@[i - 1].1,
            i == 0 ==> mapper.offset == 0,
            matches@ + map_matches(m, pairs@, i as int, mapper.head as int, mapper.offset as int)
                == map_matches(m, pairs@, 0, 0, 0),
        decreases pairs.len() - i,
    {
        let (s, e) = pairs[i];
        assert(pairs@[i as int].0 <= pairs@[i as int].1);
        let ghost k0 = mapper.head as int;
        let ghost off0 = mapper.offset as int;
        let start = match mapper.map_inclusive(s) {
            Some(v) => v,
            None => {
                assert(map_matches(m, pairs@, i as int, k0, off0) =~= Seq::<Range<usize>>::empty());
                assert(matches@ =~= matches@ + Seq::<Range<usize>>::empty());
                return SearchMatches(matches);
            },
        };
        let ghost k1 = mapper.head as int;
        let ghost off1 = mapper.offset as int;
        let end = match mapper.map_exclusive(e) {
            Some(v) => v,
            None => {
                assert(map_matches(m, pairs@, i as int, k0, off0) =~= Seq::<Range<usize>>::empty());
                assert(matches@ =~= matches@ + Seq::<Range<usize>>::empty());
                return SearchMatches(matches);
            },
        };
        matches.push(Range { start, end });
        assert(matches@ + map_matches(m, pairs@, i + 1, mapper.head as int, mapper.offset as int)
            =~= matches@.drop_last() + map_matches(m, pairs@, i as int, k0, off0));
        i = i + 1;
    }
    assert(map_matches(m, pairs@, i as int, mapper.head as int, mapper.offset as int) =~= Seq::<Range<usize>>::empty());
    assert(matches@ =~= matches@ + Seq::<Range<usize>>::empty());
    SearchMatches(matches)
}


impl DisplayText {
    /// Collected text and source map are both empty.
    pub fn new() -> (t: DisplayText)
        ensures
            t.spec_text() == Seq::<u8>::empty(),
            t.spec_srcmap() == Seq::<Range<usize>>::empty(),
            t.wf(),
    {
        DisplayText { text: Vec::new(), srcmap: Vec::new() }
    }

    /// The collected text, as UTF-8 bytes.
    pub closed spec fn spec_text(&self) -> Seq<u8> {
        self.text@
    }

    /// The source range of each piece of the collected text, in order.
    pub closed spec fn spec_srcmap(&self) -> Seq<Range<usize>> {
        self.srcmap@
    }

    /// Every range of the source map is well formed.
    pub closed spec fn wf(&self) -> bool {
        ranges_wf(self.srcmap@)
    }

    /// Collects a text of the document that was rendered from the source
    /// bytes at `range`.
    pub fn visit(&mut self, text: &[u8], range: &Range<usize>)
        requires
            old(self).wf(),
            range.start <= range.end,
        ensures
            final(self).wf(),
            final(self).spec_text() == old(self).spec_text() + text@,
            final(self).spec_srcmap() == spec_push_range(old(self).spec_srcmap(), *range),
    {
        self.text.extend_from_slice(text);
        let n = self.srcmap.len();
        if n > 0 && self.srcmap[n - 1].end == range.start {
            let start = self.srcmap[n - 1].start;
            self.srcmap.set(n - 1, Range { start, end: range.end });
        } else {
            self.srcmap.push(Range { start: range.start, end: range.end });
        }
        assert(ranges_wf(self.srcmap@)) by {
            assert forall|i: int| 0 <= i < self.srcmap@.len() implies (#[trigger] self.srcmap@[i]).start
                <= self.srcmap@[i].end by {
                if i < n {
                    assert(old(self).srcmap@[i].start <= old(self).srcmap@[i].end);
                }
            }
        }
    }

    /// The collected text.
    pub fn raw_text(&self) -> (s: String)
        ensures
            vstd::utf8::valid_utf8(self.spec_text()) ==> s@ == vstd::utf8::decode_utf8(self.spec_text()),
    {
        utf8_lossy(self.text.as_slice())
    }

    /// The source map.
    pub fn sourcemap(&self) -> (m: &[Range<usize>])
        ensures
            m@ == self.spec_srcmap(),
    {
        self.srcmap.as_slice()
    }

    /// The source ranges of the given matches in the collected text.
    pub fn matches_from(&self, pairs: &[(usize, usize)]) -> (r: SearchMatches)
        requires
            self.wf(),
            sorted_matches(pairs@),
        ensures
            r.0@ == map_matches(self.spec_srcmap(), pairs@, 0, 0, 0),
    {
        map_to_source(self.srcmap.as_slice(), pairs)
    }

    /// Searches the collected text for a literal query, or for a regular
    /// expression when `regex` is set; matches are given as source ranges.
    pub fn search_with(&self, query: &str, ignore_case: bool, regex: bool) -> (r: Result<SearchMatches, SearchError>)
        requires
            self.wf(),
        ensures
            ({
                let found = if regex {
                    regex_matches(query@, ignore_case, self.spec_text())
                } else {
                    literal_matches(query@, ignore_case, self.spec_text())
                };
                match found {
                    None => r == Err::<SearchMatches, SearchError>(SearchError::InvalidQuery),
                    Some(pairs) => r matches Ok(ms) && ms.0@ == map_matches(self.spec_srcmap(), pairs, 0, 0, 0),
                }
            }),
            !regex && query@.len() > 0 ==> (r matches Ok(ms) ==> ms.0@ == map_matches(
                self.spec_srcmap(),
                literal_occurrences(encode_utf8(query@), ignore_case, self.spec_text(), 0),
                0, 0, 0,
            )),
    {
        let found = if regex {
            find_regex(query, ignore_case, self.text.as_slice())
        } else {
            find_literal(query, ignore_case, self.text.as_slice())
        };
        match found {
            Some(pairs) => Ok(self.matches_from(pairs.as_slice())),
            None => Err(SearchError::InvalidQuery),
        }
    }

    /// Searches the collected text as the matcher says; matches are given as
    /// source ranges.
    pub fn search(&self, query: &str, matcher: SearchMatcher) -> (r: Result<SearchMatches, SearchError>)
        requires
            self.wf(),
        ensures
            ({
                let ignore_case = spec_ignore_case(query@, matcher);
                let found = if matcher == SearchMatcher::CaseSensitiveRegex {
                    regex_matches(query@, ignore_case, self.spec_text())
                } else {
                    literal_matches(query@, ignore_case, self.spec_text())
                };
                match found {
                    None => r == Err::<SearchMatches, SearchError>(SearchError::InvalidQuery),
                    Some(pairs) => r matches Ok(ms) && ms.0@ == map_matches(self.spec_srcmap(), pairs, 0, 0, 0),
                }
            }),
            matcher != SearchMatcher::CaseSensitiveRegex && query@.len() > 0 ==> (r matches Ok(ms) ==> ms.0@ == map_matches(
                self.spec_srcmap(),
                literal_occurrences(encode_utf8(query@), spec_ignore_case(query@, matcher), self.spec_text(), 0),
                0, 0, 0,
            )),
    {
        let ignore_case = match matcher {
            SearchMatcher::SmartCase => !contains_ascii_uppercase(query),
            SearchMatcher::CaseInsensitive => true,
            SearchMatcher::CaseSensitive | SearchMatcher::CaseSensitiveRegex => false,
        };
        let regex = match matcher {
            SearchMatcher::CaseSensitiveRegex => true,
            _ => false,
        };
        self.search_with(query, ignore_case, regex)
    }
}

/// The source ranges of search matches, in order.
pub struct SearchMatches(pub Vec<Range<usize>>);

/// Something that collects the texts of a document as they are rendered,
/// with the source range of each.
pub trait TextVisitor: Sized {
    /// The texts collected so far.
    spec fn visitor_text(&self) -> Seq<u8>;

    /// The source ranges collected so far.
    spec fn visitor_srcmap(&self) -> Seq<Range<usize>>;

    /// What the visitor keeps true.
    spec fn visitor_inv(&self) -> bool;

    /// Whether a range that continues the last one extends it.
    spec fn merges_ranges() -> bool;

    fn visit(&mut self, text: &[u8], range: &Range<usize>)
        requires
            old(self).visitor_inv(),
            range.start <= range.end,
        ensures
            final(self).visitor_inv(),
            final(self).visitor_text() == old(self).visitor_text() + text@,
            final(self).visitor_srcmap() == if Self::merges_ranges() {
                spec_push_range(old(self).visitor_srcmap(), *range)
            } else {
                old(self).visitor_srcmap().push(*range)
            },
    ;
}

impl TextVisitor for DisplayText {
    open spec fn visitor_text(&self) -> Seq<u8> {
        self.spec_text()
    }

    open spec fn visitor_srcmap(&self) -> Seq<Range<usize>> {
        self.spec_srcmap()
    }

    open spec fn visitor_inv(&self) -> bool {
        self.wf()
    }

    open spec fn merges_ranges() -> bool {
        true
    }

    fn visit(&mut self, text: &[u8], range: &Range<usize>) {
        DisplayText::visit(self, text, range)
    }
}

impl TextVisitor for Text {
    open spec fn visitor_text(&self) -> Seq<u8> {
        self.spec_text()
    }

    open spec fn visitor_srcmap(&self) -> Seq<Range<usize>> {
        self.spec_maps()
    }

    open spec fn visitor_inv(&self) -> bool {
        self.wf()
    }

    open spec fn merges_ranges() -> bool {
        false
    }

    fn visit(&mut self, text: &[u8], range: &Range<usize>) {
        Text::on_text(self, text, range)
    }
}

/// Something that is told each text of a parsed document with its source
/// range.
pub trait ParseResult: Sized {
    /// What the result keeps true.
    spec fn result_inv(&self) -> bool;

    fn on_text(&mut self, text: &[u8], range: &Range<usize>)
        requires
            old(self).result_inv(),
            range.start <= range.end,
        ensures
            final(self).result_inv(),
    ;
}

impl ParseResult for Text {
    open spec fn result_inv(&self) -> bool {
        self.wf()
    }

    fn on_text(&mut self, text: &[u8], range: &Range<usize>)
        ensures
            final(self).spec_text() == old(self).spec_text() + text@,
            final(self).spec_maps() == old(self).spec_maps().push(*range),
    {
        Text::on_text(self, text, range)
    }
}

/// The text shown in the preview with the source range of each piece, one
/// range per piece as it was collected.
pub struct Text {
    text: Vec<u8>,
    maps: Vec<Range<usize>>,
}

impl Text {
    /// The collected text, as UTF-8 bytes.
    pub closed spec fn spec_text(&self) -> Seq<u8> {
        self.text@
    }

    /// The source range of each piece, in order.
    pub closed spec fn spec_maps(&self) -> Seq<Range<usize>> {
        self.maps@
    }

    /// Every range is well formed.
    pub closed spec fn wf(&self) -> bool {
        ranges_wf(self.maps@)
    }

    /// Nothing collected.
    pub fn new() -> (t: Text)
        ensures
            t.spec_text() == Seq::<u8>::empty(),
            t.spec_maps() == Seq::<Range<usize>>::empty(),
            t.wf(),
    {
        Text { text: Vec::new(), maps: Vec::new() }
    }

    /// Collects a text of the document that was rendered from `range`.
    pub fn on_text(&mut self, text: &[u8], range: &Range<usize>)
        requires
            old(self).wf(),
            range.start <= range.end,
        ensures
            final(self).wf(),
            final(self).spec_text() == old(self).spec_text() + text@,
            final(self).spec_maps() == old(self).spec_maps().push(*range),
    {
        self.text.extend_from_slice(text);
        assert(self.text@ =~= old(self).text@ + text@);
        self.maps.push(Range { start: range.start, end: range.end });
        assert(ranges_wf(self.maps@)) by {
            assert forall|i: int| 0 <= i < self.maps@.len() implies (#[trigger] self.maps@[i]).start <= self.maps@[i].end by {
                if i < old(self).maps@.len() {
                    assert(self.maps@[i] == old(self).maps@[i]);
                }
            }
        }
    }

    /// Searches the collected text as the matcher says; matches are given as
    /// source ranges.
    pub fn search(&self, query: &str, matcher: SearchMatcher) -> (r: Result<SearchMatches, SearchError>)
        requires
            self.wf(),
        ensures
            ({
                let ignore_case = spec_ignore_case(query@, matcher);
                let found = if matcher == SearchMatcher::CaseSensitiveRegex {
                    regex_matches(query@, ignore_case, self.spec_text())
                } else {
                    literal_matches(query@, ignore_case, self.spec_text())
                };
                match found {
                    None => r == Err::<SearchMatches, SearchError>(SearchError::InvalidQuery),
                    Some(pairs) => r matches Ok(ms) && ms.0@ == map_matches(self.spec_maps(), pairs, 0, 0, 0),
                }
            }),
            matcher != SearchMatcher::CaseSensitiveRegex && query@.len() > 0 ==> (r matches Ok(ms) ==> ms.0@ == map_matches(
                self.spec_maps(),
                literal_occurrences(encode_utf8(query@), spec_ignore_case(query@, matcher), self.spec_text(), 0),
                0, 0, 0,
            )),
    {
        let ignore_case = match matcher {
            SearchMatcher::SmartCase => !contains_ascii_uppercase(query),
            SearchMatcher::CaseInsensitive => true,
            SearchMatcher::CaseSensitive | SearchMatcher::CaseSensitiveRegex => false,
        };
        let found = match matcher {
            SearchMatcher::CaseSensitiveRegex => find_regex(query, ignore_case, self.text.as_slice()),
            _ => find_literal(query, ignore_case, self.text.as_slice()),
        };
        match found {
            Some(pairs) => Ok(map_to_source(self.maps.as_slice(), pairs.as_slice())),
            None => Err(SearchError::InvalidQuery),
        }
    }
}

} // verus!

verus! {

/// The first match from `head` on that ends after `start`: the index of the
/// match and whether one was found; when none is, the scan stops at the last
/// match.
pub open spec fn skip_matches(ms: Seq<Range<usize>>, head: int, start: int) -> (int, bool)
    decreases ms.len() - head,
{
    if head < 0 || head >= ms.len() {
        (head, false)
    } else if ms[head].end > start {
        (head, true)
    } else if head + 1 < ms.len() {
        skip_matches(ms, head + 1, start)
    } else {
        (head, false)
    }
}

proof fn lemma_skip_matches_range(ms: Seq<Range<usize>>, head: int, start: int)
    requires
        0 <= head,
    ensures
        skip_matches(ms, head, start).0 == head || 0 <= skip_matches(ms, head, start).0 < ms.len(),
    decreases ms.len() - head,
{
    if 0 <= head < ms.len() && ms[head].end <= start && head + 1 < ms.len() {
        lemma_skip_matches_range(ms, head + 1, start);
    }
}

proof fn lemma_skip_matches_from(ms: Seq<Range<usize>>, head: int, start: int)
    ensures
        skip_matches(ms, head, start).0 >= head,
    decreases ms.len() - head,
{
    if 0 <= head < ms.len() && ms[head].end <= start && head + 1 < ms.len() {
        lemma_skip_matches_from(ms, head + 1, start);
    }
}

/// How a match is marked: the current match (by index) and other matches
/// are marked differently, and so is the first piece of each match. Returns
/// the marking and whether the next piece is still the first one.
pub open spec fn spec_match_token(index: Option<usize>, current: int, is_start: bool) -> (TokenKind, bool) {
    if index.is_some() && index.unwrap() == current {
        if is_start { (TokenKind::MatchCurrentStart, false) } else { (TokenKind::MatchCurrent, false) }
    } else if is_start {
        (TokenKind::MatchOtherStart, false)
    } else {
        (TokenKind::MatchOther, false)
    }
}

/// A piece of text inside a match is marked as part of the current match
/// exactly when the match it lies in is the current one, and as the start of
/// a match exactly when it is the first piece of that match; every later
/// piece of the same match, current or not, is no longer a start.
pub proof fn law_match_piece_marks(index: Option<usize>, current: int, is_start: bool)
    ensures
        ({
            let (k, next) = spec_match_token(index, current, is_start);
            &&& k != TokenKind::Normal
            &&& (k == TokenKind::MatchCurrent || k == TokenKind::MatchCurrentStart)
                <==> (index is Some && index.unwrap() == current)
            &&& (k == TokenKind::MatchCurrentStart || k == TokenKind::MatchOtherStart) <==> is_start
            &&& !next
        }),
{
}

/// Marks the pieces of text that fall inside search matches.
pub struct MatchTokenizer<'a> {
    matches: &'a [Range<usize>],
    current: usize,
    is_start: bool,
    index: Option<usize>,
}

impl<'a> MatchTokenizer<'a> {
    /// The matches that are marked.
    pub closed spec fn spec_matches(self) -> Seq<Range<usize>> {
        self.matches@
    }

    /// The index of the match that the next piece is compared with.
    pub closed spec fn spec_current(self) -> int {
        self.current as int
    }

    /// Whether the next marked piece is the first of its match.
    pub closed spec fn spec_is_start(self) -> bool {
        self.is_start
    }

    /// The index of the match that is marked as the current one.
    pub closed spec fn spec_index(self) -> Option<usize> {
        self.index
    }

    pub closed spec fn wf(self) -> bool {
        self.current < self.matches@.len()
    }

    /// The tokenizer after a text starting at `start` skipped past the
    /// matches that end before it.
    pub closed spec fn after_skip(self, start: int) -> (Self, bool) {
        let (h, found) = skip_matches(self.matches@, self.current as int, start);
        let is_start = if h != self.current { true } else { self.is_start };
        (MatchTokenizer { matches: self.matches, current: h as usize, is_start, index: self.index }, found)
    }

    fn next(&mut self) -> (moved: bool)
        requires
            old(self).wf(),
        ensures
            final(self).wf(),
            moved == (old(self).current + 1 < old(self).matches@.len()),
            moved ==> *final(self) == (MatchTokenizer {
                matches: old(self).matches,
                current: (old(self).current + 1) as usize,
                is_start: true,
                index: old(self).index,
            }),
            !moved ==> *final(self) == *old(self),
    {
        if self.current >= self.matches.len() - 1 {
            return false;
        }
        self.current = self.current + 1;
        self.is_start = true;
        true
    }

    fn match_token(&mut self) -> (k: TokenKind)
        ensures
            (k, final(self).is_start) == spec_match_token(old(self).index, old(self).current as int, old(self).is_start),
            final(self).matches == old(self).matches,
            final(self).current == old(self).current,
            final(self).index == old(self).index,
    {
        match self.index {
            Some(idx) if idx == self.current => {
                if self.is_start {
                    self.is_start = false;
                    TokenKind::MatchCurrentStart
                } else {
                    TokenKind::MatchCurrent
                }
            },
            _ => {
                if self.is_start {
                    self.is_start = false;
                    TokenKind::MatchOtherStart
                } else {
                    TokenKind::MatchOther
                }
            },
        }
    }
}

impl<'a> TextTokenizer for MatchTokenizer<'a> {
    /// Pieces before a match are normal; the piece of a text that lies in a
    /// match is marked, up to the end of the match or of the text.
    open spec fn spec_tokenize(self, len: nat, start: int) -> (Self, TokenKind, nat) {
        let end = start + len;
        let (t, found) = self.after_skip(start);
        let head = t.spec_matches()[t.spec_current()];
        if !found {
            (t, TokenKind::Normal, len)
        } else if head.start <= start {
            let (k, is_start) = spec_match_token(t.spec_index(), t.spec_current(), t.spec_is_start());
            let n = if head.end < end { (head.end - start) as nat } else { len };
            (t.with_is_start(is_start), k, n)
        } else if head.start < end {
            (t, TokenKind::Normal, (head.start - start) as nat)
        } else {
            (t, TokenKind::Normal, len)
        }
    }

    open spec fn inv(self) -> bool {
        self.wf()
    }

    fn tokenize(&mut self, text: &[u8], range: &Range<usize>) -> (r: (TokenKind, usize)) {
        let start = range.start;
        let end = range.end;
        let ghost t0 = *self;
        while self.matches[self.current].end <= start
            invariant
                self.wf(),
                self.matches == t0.matches,
                self.index == t0.index,
                t0.wf(),
                t0 == *old(self),
                text@.len() > 0,
                start == range.start,
                self.after_skip(start as int) == t0.after_skip(start as int),
            decreases self.matches@.len() - self.current,
        {
            let ghost c = self.current as int;
            if !self.next() {
                assert(t0.after_skip(start as int) == (*self, false));
                return (TokenKind::Normal, text.len());
            }
            assert(skip_matches(self.matches@, c, start as int) == skip_matches(self.matches@, c + 1, start as int));
            assert(skip_matches(self.matches@, c + 1, start as int).0 >= c + 1) by {
                lemma_skip_matches_from(self.matches@, c + 1, start as int);
            }
        }
        assert(t0.after_skip(start as int) == (*self, true));
        let head_start = self.matches[self.current].start;
        let head_end = self.matches[self.current].end;
        if head_start <= start {
            let token = self.match_token();
            if head_end < end {
                (token, head_end - start)
            } else {
                (token, text.len())
            }
        } else if head_start < end {
            (TokenKind::Normal, head_start - start)
        } else {
            (TokenKind::Normal, text.len())
        }
    }
}

impl<'a> MatchTokenizer<'a> {
    /// The same tokenizer with another first-piece flag.
    pub closed spec fn with_is_start(self, is_start: bool) -> Self {
        MatchTokenizer { is_start, ..self }
    }

    /// What skipping past the matches that end before `start` does: the
    /// matches and the current index stay, the compared match is the one
    /// that `skip_matches` finds, which starts a marked piece anew when it
    /// is another one.
    pub proof fn lemma_after_skip(self, start: int)
        ensures
            self.after_skip(start).0.spec_matches() == self.spec_matches(),
            self.after_skip(start).0.spec_index() == self.spec_index(),
            self.after_skip(start).0.spec_current() == skip_matches(self.spec_matches(), self.spec_current(), start).0,
            self.after_skip(start).1 == skip_matches(self.spec_matches(), self.spec_current(), start).1,
            self.after_skip(start).0.spec_is_start() == if self.after_skip(start).0.spec_current() != self.spec_current() {
                true
            } else {
                self.spec_is_start()
            },
    {
        lemma_skip_matches_range(self.matches@, self.current as int, start);
        assert(vstd::slice::spec_slice_len(self.matches) == self.matches@.len()) by {
            broadcast use vstd::slice::axiom_spec_len;
        }
    }

    /// Changing the first-piece flag changes nothing else.
    pub proof fn lemma_with_is_start(self, is_start: bool)
        ensures
            self.with_is_start(is_start).spec_matches() == self.spec_matches(),
            self.with_is_start(is_start).spec_index() == self.spec_index(),
            self.with_is_start(is_start).spec_current() == self.spec_current(),
            self.with_is_start(is_start).spec_is_start() == is_start,
    {
    }

    /// A tokenizer is what its matches, its compared match, its first-piece
    /// flag and its current index are.
    pub proof fn lemma_tokenizer_ext(self, other: Self)
        requires
            self.spec_matches() == other.spec_matches(),
            self.spec_index() == other.spec_index(),
            self.spec_current() == other.spec_current(),
            self.spec_is_start() == other.spec_is_start(),
        ensures
            self == other,
    {
        broadcast use vstd::slice::axiom_slice_ext_equal;
        assert(self.matches =~= other.matches);
    }
}

impl SearchMatches {
    /// The number of matches.
    pub fn len(&self) -> (n: usize)
        ensures
            n == self.0@.len(),
    {
        self.0.len()
    }

    /// A tokenizer that marks these matches, with the `index`-th one as the
    /// current match; none when there are no matches.
    pub fn tokenizer(&self, index: Option<usize>) -> (t: Option<MatchTokenizer<'_>>)
        ensures
            self.0@.len() == 0 <==> t.is_none(),
            t matches Some(t) ==> t.wf() && t.spec_matches() == self.0@ && t.spec_current() == 0
                && t.spec_is_start() && t.spec_index() == index,
    {
        if self.0.len() == 0 {
            None
        } else {
            Some(MatchTokenizer { matches: self.0.as_slice(), current: 0, is_start: true, index })
        }
    }
}

} // verus!
