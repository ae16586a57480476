use crate::config::SearchMatcher;
use crate::bytes::{is_modified_offset, law_modified_offset_unique};
use crate::content::{spec_modified_utf8_offset, MarkdownContent};
use crate::cmark::{markdown_events, parse_markdown};
use crate::events::{events_ok, events_ok_from, MdEvent};
use crate::render::{enc_document, write_render_tree};
use crate::search::{map_matches, literal_matches, regex_matches, spec_ignore_case, DisplayText, MatchTokenizer, PlainText, TextTokenizer};
use std::ops::Range;
use crate::text::{is_prefix_of, same_str, starts_with};
use vstd::prelude::*;
use vstd::string::*;
use vstd::utf8::*;

verus! {

/// The title of a preview window: the document's path, written from `~`
/// when it is inside the home directory.
pub open spec fn spec_title(home: Option<Seq<char>>, path: Seq<char>) -> Seq<char> {
    match home {
        Some(h) => if path == h {
            "Shiba: ~/"@
        } else if is_prefix_of(h + seq!['/'], path) {
            "Shiba: ~/"@ + path.skip(h.len() + 1int)
        } else {
            "Shiba: "@ + path
        },
        None => "Shiba: "@ + path,
    }
}

/// The render tree of a document's parsed events, with nothing marked but
/// the place of the last change.
pub closed spec fn plain_render(events: Seq<(MdEvent, Range<usize>)>, base_dir: Seq<char>, offset: Option<usize>) -> Seq<u8> {
    enc_document(events, base_dir, offset, PlainText).out
}

/// Where a preview that shows `prev` marks the last change when it is given
/// `content` read from `path`: nothing for another document, else where the
/// source changed.
pub open spec fn shown_offset(prev: Preview, path: Seq<char>, content: MarkdownContent) -> Option<usize> {
    if prev.spec_path() != path {
        None
    } else {
        choose|o: Option<usize>| spec_modified_utf8_offset(
            encode_utf8(prev.spec_content().spec_source()),
            encode_utf8(content.spec_source()),
            o,
        )
    }
}

proof fn lemma_offset_unique(prev: Seq<u8>, new: Seq<u8>, a: Option<usize>)
    requires
        spec_modified_utf8_offset(prev, new, a),
    ensures
        (choose|o: Option<usize>| spec_modified_utf8_offset(prev, new, o)) == a,
{
    let o = choose|o: Option<usize>| spec_modified_utf8_offset(prev, new, o);
    let r1 = choose|raw: Option<usize>| #![trigger is_modified_offset(prev, new, raw)]
        is_modified_offset(prev, new, raw) && a == match raw {
            None => None,
            Some(i) => if i == crate::bytes::shorter_len(prev, new) {
                Some(i)
            } else {
                Some(crate::content::spec_floor_char_boundary(new, i as int) as usize)
            },
        };
    let r2 = choose|raw: Option<usize>| #![trigger is_modified_offset(prev, new, raw)]
        is_modified_offset(prev, new, raw) && o == match raw {
            None => None,
            Some(i) => if i == crate::bytes::shorter_len(prev, new) {
                Some(i)
            } else {
                Some(crate::content::spec_floor_char_boundary(new, i as int) as usize)
            },
        };
    law_modified_offset_unique(prev, new, r1, r2);
}

/// Showing the document shown again, with the same source, marks no
/// change.
pub proof fn law_unchanged_document_marks_nothing(p: Preview, content: MarkdownContent)
    requires
        content.spec_source() == p.spec_content().spec_source(),
    ensures
        shown_offset(p, p.spec_path(), content) is None,
{
    let b = encode_utf8(p.spec_content().spec_source());
    assert(is_modified_offset(b, b, None));
    assert(spec_modified_utf8_offset(b, b, None));
    lemma_offset_unique(b, b, None);
}

/// The document shown in a window and what is known of it.
pub struct Preview {
    home_dir: Option<String>,
    content: MarkdownContent,
    events: Vec<(MdEvent, Range<usize>)>,
    text: DisplayText,
    path: String,
}

/// The source ranges that a search of the shown text finds, or `None` when
/// the query cannot be searched for.
pub open spec fn spec_search_found(text: DisplayText, query: Seq<char>, matcher: SearchMatcher) -> Option<Seq<Range<usize>>> {
    let ignore_case = spec_ignore_case(query, matcher);
    let found = if matcher == SearchMatcher::CaseSensitiveRegex {
        regex_matches(query, ignore_case, text.spec_text())
    } else {
        literal_matches(query, ignore_case, text.spec_text())
    };
    match found {
        Some(pairs) => Some(map_matches(text.spec_srcmap(), pairs, 0, 0, 0)),
        None => None,
    }
}

impl Preview {
    #[verifier::type_invariant]
    closed spec fn inv(&self) -> bool {
        events_ok_from(self.events@, 0) && self.text.wf()
    }

    /// The parsed events of the document shown.
    pub closed spec fn spec_events(&self) -> Seq<(MdEvent, Range<usize>)> {
        self.events@
    }

    /// The text that the preview shows, as it was last rendered.
    pub closed spec fn spec_text(&self) -> DisplayText {
        self.text
    }

    /// The render tree of the document shown, with the place of the last
    /// change and the tokenizer that marks search matches.
    pub open spec fn spec_render<T: TextTokenizer>(&self, offset: Option<usize>, tokenizer: T) -> Seq<u8> {
        enc_document(self.spec_events(), self.spec_content().spec_base_dir(), offset, tokenizer).out
    }

    /// The render tree that a search of the shown text gives: the plain
    /// document for an empty query, a query that cannot be searched for or
    /// one that matches nothing; else the document with the matches marked
    /// and the `index`-th one as the current match.
    pub open spec fn spec_search_render(&self, query: Seq<char>, index: Option<usize>, matcher: SearchMatcher, out: Seq<u8>) -> bool {
        if query.len() == 0 {
            out == self.spec_render(None, PlainText)
        } else {
            match spec_search_found(self.spec_text(), query, matcher) {
                Some(ms) => if ms.len() == 0 {
                    out == self.spec_render(None, PlainText)
                } else {
                    exists|t: MatchTokenizer| {
                        &&& t.wf()
                        &&& t.spec_matches() == ms
                        &&& t.spec_current() == 0
                        &&& t.spec_is_start()
                        &&& t.spec_index() == index
                        &&& out == #[trigger] self.spec_render(None, t)
                    }
                },
                None => out == self.spec_render(None, PlainText),
            }
        }
    }

    /// The user's home directory.
    pub closed spec fn spec_home_dir(&self) -> Option<Seq<char>> {
        match &self.home_dir {
            Some(h) => Some(h@),
            None => None,
        }
    }

    /// The path of the document shown.
    pub closed spec fn spec_path(&self) -> Seq<char> {
        self.path@
    }

    /// The document's source.
    pub closed spec fn spec_content(&self) -> MarkdownContent {
        self.content
    }

    /// An empty preview for a user whose home directory is `home_dir`.
    pub fn new(home_dir: Option<String>) -> (p: Preview)
        ensures
            p.spec_home_dir() == match home_dir {
                Some(h) => Some(h@),
                None => None::<Seq<char>>,
            },
            p.spec_path() == Seq::<char>::empty(),
            p.spec_content().spec_source() == Seq::<char>::empty(),
            p.spec_content().spec_base_dir() == Seq::<char>::empty(),
            p.spec_events() == Seq::<(MdEvent, Range<usize>)>::empty(),
    {
        Preview {
            home_dir,
            content: MarkdownContent::default(),
            events: Vec::new(),
            text: DisplayText::new(),
            path: String::new(),
        }
    }

    /// The user's home directory.
    pub fn home_dir(&self) -> (h: Option<&str>)
        ensures
            match h {
                Some(s) => self.spec_home_dir() == Some(s@),
                None => self.spec_home_dir() is None,
            },
    {
        match &self.home_dir {
            Some(h) => Some(h.as_str()),
            None => None,
        }
    }

    /// The path of the document shown; empty before one was shown.
    pub fn path(&self) -> (p: &str)
        ensures
            p@ == self.spec_path(),
    {
        self.path.as_str()
    }

    /// Whether no document was shown yet.
    pub fn is_empty(&self) -> (b: bool)
        ensures
            b == (self.spec_content().spec_source().len() == 0
                && self.spec_content().spec_base_dir().len() == 0),
    {
        self.content.is_empty()
    }

    /// The title of the window.
    pub fn title(&self) -> (t: String)
        ensures
            t@ == spec_title(self.spec_home_dir(), self.spec_path()),
    {
        let path = self.path.as_str();
        match &self.home_dir {
            Some(h) => {
                let home = h.as_str();
                if same_str(path, home) {
                    let t = String::from_str("Shiba: ~/");
                    proof {
                        reveal_strlit("Shiba: ~/");
                    }
                    return t;
                }
                let mut prefix = String::from_str(home);
                prefix.append("/");
                proof {
                    reveal_strlit("/");
                    assert(prefix@ =~= home@ + seq!['/']);
                }
                if starts_with(path, prefix.as_str()) {
                    let n = path.unicode_len();
                    let m = prefix.as_str().unicode_len();
                    let rest = path.substring_char(m, n);
                    let mut t = String::from_str("Shiba: ~/");
                    t.append(rest);
                    proof {
                        assert(rest@ =~= path@.skip(home@.len() + 1int));
                    }
                    return t;
                }
            },
            None => {},
        }
        let mut t = String::from_str("Shiba: ");
        t.append(path);
        t
    }

    /// Shows a document read from `path`, with its parsed events: returns
    /// whether it is another document than the one shown, and where the
    /// shown document was last modified when it is the same one.
    pub fn update_parsed(&mut self, path: &str, content: MarkdownContent, events: Vec<(MdEvent, Range<usize>)>) -> (r: (bool, Option<usize>))
        requires
            events_ok_from(events@, 0),
        ensures
            r.0 == (old(self).spec_path() != path@),
            r.0 ==> r.1 is None,
            !r.0 ==> spec_modified_utf8_offset(
                encode_utf8(old(self).spec_content().spec_source()),
                encode_utf8(content.spec_source()),
                r.1,
            ),
            final(self).spec_content() == content,
            final(self).spec_events() == events@,
            final(self).spec_path() == path@,
            final(self).spec_home_dir() == old(self).spec_home_dir(),
            final(self).spec_text() == old(self).spec_text(),
    {
        proof {
            use_type_invariant(&*self);
        }
        let is_new = !same_str(self.path.as_str(), path);
        let offset = if is_new { None } else { self.content.modified_utf8_offset(&content) };
        self.content = content;
        self.events = events;
        if is_new {
            self.path = String::from_str(path);
        }
        (is_new, offset)
    }

    /// Shows a document read from `path`, which is parsed here: returns
    /// whether it is another document than the one shown, and where the
    /// shown document was last modified when it is the same one. `None`,
    /// and nothing changed, when the parser's events cannot be rendered.
    pub fn update(&mut self, path: &str, content: MarkdownContent) -> (r: Option<(bool, Option<usize>)>)
        ensures
            match r {
                Some((is_new, offset)) => {
                    &&& events_ok_from(markdown_events(content.spec_source()), 0)
                    &&& is_new == (old(self).spec_path() != path@)
                    &&& is_new ==> offset is None
                    &&& !is_new ==> spec_modified_utf8_offset(
                        encode_utf8(old(self).spec_content().spec_source()),
                        encode_utf8(content.spec_source()),
                        offset,
                    )
                    &&& final(self).spec_content() == content
                    &&& final(self).spec_events() == markdown_events(content.spec_source())
                    &&& final(self).spec_path() == path@
                    &&& final(self).spec_home_dir() == old(self).spec_home_dir()
                    &&& final(self).spec_text() == old(self).spec_text()
                },
                None => {
                    &&& !events_ok_from(markdown_events(content.spec_source()), 0)
                    &&& *final(self) == *old(self)
                },
            },
    {
        let events = parse_markdown(content.source());
        if events_ok(events.as_slice()) {
            Some(self.update_parsed(path, content, events))
        } else {
            None
        }
    }

    /// Shows a document read from `path`, which is parsed here: gives the
    /// render tree, marking where the document changed when it is the one
    /// shown, and whether it is another document than the one shown.
    /// `None`, and nothing changed, when the parser's events cannot be
    /// rendered.
    pub fn show(&mut self, path: &str, content: MarkdownContent) -> (r: Option<(Vec<u8>, bool)>)
        ensures
            match r {
                Some((out, is_new)) => {
                    &&& events_ok_from(markdown_events(content.spec_source()), 0)
                    &&& is_new == (old(self).spec_path() != path@)
                    &&& out@ == plain_render(markdown_events(content.spec_source()), content.spec_base_dir(), shown_offset(*old(self), path@, content))
                    &&& final(self).spec_content() == content
                    &&& final(self).spec_events() == markdown_events(content.spec_source())
                    &&& final(self).spec_path() == path@
                    &&& final(self).spec_home_dir() == old(self).spec_home_dir()
                },
                None => {
                    &&& !events_ok_from(markdown_events(content.spec_source()), 0)
                    &&& *final(self) == *old(self)
                },
            },
    {
        let events = parse_markdown(content.source());
        if events_ok(events.as_slice()) {
            Some(self.show_parsed(path, content, events))
        } else {
            None
        }
    }

    /// The content shown.
    pub fn content(&self) -> (c: &MarkdownContent)
        ensures
            *c == self.spec_content(),
    {
        &self.content
    }

    /// Shows a document read from `path`, with its parsed events: gives the
    /// render tree, marking where the document changed when it is the one
    /// shown, and whether it is another document than the one shown.
    pub fn show_parsed(&mut self, path: &str, content: MarkdownContent, events: Vec<(MdEvent, Range<usize>)>) -> (r: (Vec<u8>, bool))
        requires
            events_ok_from(events@, 0),
        ensures
            r.1 == (old(self).spec_path() != path@),
            r.0@ == plain_render(events@, content.spec_base_dir(), shown_offset(*old(self), path@, content)),
            final(self).spec_content() == content,
            final(self).spec_events() == events@,
            final(self).spec_path() == path@,
            final(self).spec_home_dir() == old(self).spec_home_dir(),
    {
        let ghost prev = *self;
        let ghost c = content;
        let (is_new, offset) = self.update_parsed(path, content, events);
        proof {
            if !is_new {
                lemma_offset_unique(
                    encode_utf8(prev.spec_content().spec_source()),
                    encode_utf8(c.spec_source()),
                    offset,
                );
            }
        }
        let out = self.render(offset);
        (out, is_new)
    }

    /// The render tree of the document shown, marking where it was last
    /// modified; the text it shows is kept for searching.
    pub fn render(&mut self, offset: Option<usize>) -> (out: Vec<u8>)
        ensures
            out@ == old(self).spec_render(offset, PlainText),
            final(self).spec_text().spec_text() == enc_document(old(self).spec_events(), old(self).spec_content().spec_base_dir(), offset, PlainText).text,
            final(self).spec_text().spec_srcmap() == enc_document(old(self).spec_events(), old(self).spec_content().spec_base_dir(), offset, PlainText).srcmap,
            final(self).spec_content() == old(self).spec_content(),
            final(self).spec_events() == old(self).spec_events(),
            final(self).spec_path() == old(self).spec_path(),
            final(self).spec_home_dir() == old(self).spec_home_dir(),
    {
        proof {
            use_type_invariant(&*self);
        }
        let (out, text) = write_render_tree(self.events.as_slice(), self.content.base_dir().as_str(), offset, PlainText);
        self.text = text;
        out
    }

    /// The render tree of the document shown, with nothing marked.
    pub fn rerender(&self) -> (out: Vec<u8>)
        ensures
            out@ == self.spec_render(None, PlainText),
    {
        proof {
            use_type_invariant(self);
        }
        let (out, _text) = write_render_tree(self.events.as_slice(), self.content.base_dir().as_str(), None, PlainText);
        out
    }

    /// The render tree with the matches of a search of the shown text
    /// marked, the `index`-th one as the current match.
    pub fn search(&self, query: &str, index: Option<usize>, matcher: SearchMatcher) -> (out: Vec<u8>)
        ensures
            self.spec_search_render(query@, index, matcher, out@),
    {
        proof {
            use_type_invariant(self);
        }
        if query.unicode_len() == 0 {
            return self.rerender();
        }
        let matches = match self.text.search(query, matcher) {
            Ok(m) => m,
            Err(_) => {
                return self.rerender();
            },
        };
        match matches.tokenizer(index) {
            None => self.rerender(),
            Some(t) => {
                let (out, _text) = write_render_tree(self.events.as_slice(), self.content.base_dir().as_str(), None, t);
                assert(out@ == self.spec_render(None, t));
                out
            },
        }
    }
}

} // verus!
