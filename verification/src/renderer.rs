use crate::content::MarkdownContent;
use crate::cmark::{markdown_events, parse_markdown};
use crate::events::{events_ok, events_ok_from, MdEvent};
use crate::render::{enc_document, write_render_tree};
use crate::search::{DisplayText, TextTokenizer};
use std::ops::Range;
use crate::text::{is_prefix_of, same_str, starts_with};
use vstd::prelude::*;
use vstd::string::*;

verus! {

/// How the window looks.
#[derive(Clone, Copy, PartialEq, Eq, Structural, Debug)]
pub struct WindowAppearance {
    pub title: bool,
    pub vibrancy: bool,
    pub scroll_bar: bool,
    pub border_top: bool,
}

/// Where a window scrolls to.
#[derive(Debug)]
pub enum ScrollRequest {
    Fragment(String),
    Heading(usize),
}

/// Where a newly opened document is scrolled to first.
#[derive(Debug)]
pub enum InitScroll {
    Fragment(String),
    Heading(usize),
    Nop,
}

/// A document to open first, with where to scroll.
#[derive(Debug)]
pub struct InitFile {
    pub path: String,
    pub scroll: InitScroll,
}

impl InitFile {
    /// A document opened at its top.
    pub fn from_path(path: String) -> (f: InitFile)
        ensures
            f.path == path,
            f.scroll is Nop,
    {
        InitFile { path, scroll: InitScroll::Nop }
    }
}

/// The index of the last `c` among the first `n` characters, or -1.
pub open spec fn last_index_of(s: Seq<char>, c: char, n: int) -> int
    decreases n,
{
    if n <= 0 {
        -1
    } else if s[n - 1] == c {
        n - 1
    } else {
        last_index_of(s, c, n - 1)
    }
}

/// A link in the preview to a local file, written with the custom scheme
/// as `shiba://localhost/path#fragment`: the path (with its leading `/`)
/// and the fragment after the last `#`, unless a `/` follows that `#`.
/// Any other URL is external.
pub open spec fn spec_local_url(url: Seq<char>) -> Option<(Seq<char>, Option<Seq<char>>)> {
    if !is_prefix_of("shiba://localhost/"@, url) {
        None
    } else {
        let rest = url.skip(17);
        let h = last_index_of(rest, '#', rest.len() as int);
        if h >= 0 && !rest.skip(h).contains('/') {
            Some((rest.take(h), Some(rest.skip(h + 1))))
        } else {
            Some((rest, None))
        }
    }
}

/// Reads the local file that a link in the preview points to, with the
/// fragment to scroll to; an external URL is given back as the error.
pub fn parse_local_path_from_url(url: String) -> (r: Result<InitFile, String>)
    ensures
        match spec_local_url(url@) {
            None => r matches Err(u) && u@ == url@,
            Some((path, frag)) => r matches Ok(f) && f.path@ == path && match frag {
                Some(x) => f.scroll matches InitScroll::Fragment(g) && g@ == x,
                None => f.scroll is Nop,
            },
        },
{
    proof {
        reveal_strlit("shiba://localhost/");
    }
    if !starts_with(url.as_str(), "shiba://localhost/") {
        return Err(url);
    }
    let n = url.as_str().unicode_len();
    let rest = url.as_str().substring_char(17, n);
    let m = rest.unicode_len();
    let mut i: usize = m;
    while i > 0 && rest.get_char(i - 1) != '#'
        invariant
            m == rest@.len(),
            i <= m,
            last_index_of(rest@, '#', i as int) == last_index_of(rest@, '#', m as int),
        decreases i,
    {
        i = i - 1;
    }
    if i > 0 {
        let h = i - 1;
        let mut j: usize = h;
        let mut slash = false;
        while j < m
            invariant
                h <= j <= m,
                m == rest@.len(),
                slash == exists|k: int| h <= k < j && rest@[k] == '/',
            decreases m - j,
        {
            if rest.get_char(j) == '/' {
                slash = true;
            }
            j = j + 1;
        }
        assert(slash == rest@.skip(h as int).contains('/')) by {
            if slash {
                let k = choose|k: int| h <= k < m && rest@[k] == '/';
                assert(rest@.skip(h as int)[k - h] == '/');
            }
            if rest@.skip(h as int).contains('/') {
                let k = choose|k: int| 0 <= k < rest@.skip(h as int).len() && rest@.skip(h as int)[k] == '/';
                assert(rest@[h + k] == '/');
            }
        }
        if !slash {
            let path = rest.substring_char(0, h);
            let frag = rest.substring_char(h + 1, m);
            assert(path@ =~= rest@.take(h as int));
            assert(frag@ =~= rest@.skip(h + 1));
            return Ok(InitFile { path: String::from_str(path), scroll: InitScroll::Fragment(String::from_str(frag)) });
        }
    }
    assert(rest@ =~= url@.skip(17));
    Ok(InitFile { path: String::from_str(rest), scroll: InitScroll::Nop })
}

/// What a window does when its page is about to navigate to a URL.
#[derive(Debug)]
pub enum Navigation {
    /// The page of the application itself: the navigation goes on.
    Allow,
    /// A local document, to be opened in the window; the navigation stops.
    OpenLocal(InitFile),
    /// Any other URL, to be opened outside the application; the navigation
    /// stops.
    External(String),
}

/// What a window does when its page asks for a new window with a URL.
#[derive(Debug)]
pub enum NewWindowRequest {
    /// The page of the application itself: the window is duplicated, then
    /// scrolled as the URL says.
    Duplicate(InitScroll),
    /// A local document, to be opened in a new window.
    Open(InitFile),
    /// Any other URL, to be opened outside the application.
    External(String),
}

/// The page of the application, as the custom scheme names it.
pub open spec fn is_app_page(path: Seq<char>) -> bool {
    path == "/index.html"@
}

/// Whether the scroll that a file is opened with is the fragment given.
pub open spec fn scroll_matches(scroll: InitScroll, frag: Option<Seq<char>>) -> bool {
    match frag {
        Some(x) => scroll matches InitScroll::Fragment(g) && g@ == x,
        None => scroll is Nop,
    }
}

/// Decides what a navigation of the page to `url` does.
pub fn navigation(url: String) -> (n: Navigation)
    ensures
        match spec_local_url(url@) {
            None => n matches Navigation::External(u) && u@ == url@,
            Some((path, frag)) => if is_app_page(path) {
                n is Allow
            } else {
                n matches Navigation::OpenLocal(f) && f.path@ == path && scroll_matches(f.scroll, frag)
            },
        },
{
    proof {
        reveal_strlit("/index.html");
    }
    match parse_local_path_from_url(url) {
        Ok(file) => {
            if same_str(file.path.as_str(), "/index.html") {
                Navigation::Allow
            } else {
                Navigation::OpenLocal(file)
            }
        },
        Err(u) => Navigation::External(u),
    }
}

/// Decides what a request of the page for a new window with `url` does.
pub fn new_window_request(url: String) -> (r: NewWindowRequest)
    ensures
        match spec_local_url(url@) {
            None => r matches NewWindowRequest::External(u) && u@ == url@,
            Some((path, frag)) => if is_app_page(path) {
                r matches NewWindowRequest::Duplicate(scroll) && scroll_matches(scroll, frag)
            } else {
                r matches NewWindowRequest::Open(f) && f.path@ == path && scroll_matches(f.scroll, frag)
            },
        },
{
    proof {
        reveal_strlit("/index.html");
    }
    match parse_local_path_from_url(url) {
        Ok(file) => {
            if same_str(file.path.as_str(), "/index.html") {
                NewWindowRequest::Duplicate(file.scroll)
            } else {
                NewWindowRequest::Open(file)
            }
        },
        Err(u) => NewWindowRequest::External(u),
    }
}

/// A link to a local file, written with the custom scheme, gives back the
/// file's path when the path has no `#`.
pub proof fn law_local_link_round_trip(path: Seq<char>)
    requires
        path.len() > 0,
        path[0] == '/',
        !path.contains('#'),
    ensures
        spec_local_url("shiba://localhost"@ + path) == Some((path, None::<Seq<char>>)),
{
    reveal_strlit("shiba://localhost");
    reveal_strlit("shiba://localhost/");
    let url = "shiba://localhost"@ + path;
    assert(url.skip(17) =~= path);
    assert("shiba://localhost/"@.len() == 18);
    assert(is_prefix_of("shiba://localhost/"@, url)) by {
        assert forall|i: int| 0 <= i < 18 implies url.subrange(0, 18)[i] == "shiba://localhost/"@[i] by {
            if i < 17 {
                assert(url[i] == "shiba://localhost"@[i]);
            } else {
                assert(url[17] == path[0]);
            }
        }
        assert(url.subrange(0, 18) =~= "shiba://localhost/"@);
    }
    lemma_no_hash(path, path.len() as int);
}

proof fn lemma_no_hash(s: Seq<char>, n: int)
    requires
        0 <= n <= s.len(),
        !s.contains('#'),
    ensures
        last_index_of(s, '#', n) == -1,
    decreases n,
{
    if n > 0 {
        assert(s[n - 1] != '#') by {
            if s[n - 1] == '#' {
                assert(s.contains('#'));
            }
        }
        lemma_no_hash(s, n - 1);
    }
}

/// What happened to a window.
pub enum WindowEvent<W> {
    Created(W),
    Minimized(bool),
    Focused,
    Closed,
}

/// Whether the windows of the application are minimized, as the sizes
/// they are resized to tell: a window of no width or no height is.
pub struct MinimizedState {
    is_minimized: bool,
}

impl MinimizedState {
    /// Whether the last resize minimized a window.
    pub closed spec fn spec_is_minimized(&self) -> bool {
        self.is_minimized
    }

    /// No window minimized yet.
    pub fn new() -> (s: MinimizedState)
        ensures
            !s.spec_is_minimized(),
    {
        MinimizedState { is_minimized: false }
    }

    /// Takes a window resized to `width` by `height`; gives back whether it
    /// is minimized now, where that changed.
    pub fn on_resized(&mut self, width: u32, height: u32) -> (changed: Option<bool>)
        ensures
            final(self).spec_is_minimized() == (width == 0 || height == 0),
            changed == if (width == 0 || height == 0) != old(self).spec_is_minimized() {
                Some(width == 0 || height == 0)
            } else {
                None::<bool>
            },
    {
        let next = height == 0 || width == 0;
        if next != self.is_minimized {
            self.is_minimized = next;
            Some(next)
        } else {
            None
        }
    }
}

/// The items of the application menu.
#[derive(Clone, Copy, PartialEq, Eq, Structural, Debug)]
pub enum MenuItem {
    Quit,
    Forward,
    Back,
    Top,
    Reload,
    OpenFiles,
    OpenFilesInNewWindow,
    WatchDirs,
    Search,
    SearchNext,
    SearchPrevious,
    Outline,
    Print,
    ZoomIn,
    ZoomOut,
    History,
    Help,
    OpenRepo,
    ToggleAlwaysOnTop,
    ToggleMinimizeWindow,
    ToggleMaximizeWindow,
    NewWindow,
    DuplicateWindow,
    CloseWindow,
    CloseAllOtherWindows,
    EditConfig,
    ToggleMenuBar,
    DeleteHistory,
}

/// The theme the window is drawn with.
#[derive(Clone, Copy, PartialEq, Eq, Structural, Debug)]
pub enum Theme {
    Dark,
    Light,
}

/// Whether the event loop goes on after an event, or the application exits
/// with a status.
#[derive(Clone, Copy, PartialEq, Eq, Structural, Debug)]
pub enum RenderingFlow {
    Continue,
    Exit(i32),
}

/// Whether the application goes on after an event.
#[derive(Clone, Copy, PartialEq, Eq, Structural, Debug)]
pub enum AppControl {
    Continue,
    Exit,
}

/// A message that is written directly as JavaScript source for the preview
/// to evaluate, with something that the writer gives back.
pub trait RawMessageWriter {
    type Output;

    fn write_to(self) -> (Vec<u8>, Self::Output);
}

/// The render tree of a parsed document, ready to be written.
pub struct MarkdownParser<'a, T: TextTokenizer> {
    events: Vec<(MdEvent, Range<usize>)>,
    base_dir: &'a str,
    offset: Option<usize>,
    text_tokenizer: T,
}

impl<'a, T: TextTokenizer> MarkdownParser<'a, T> {
    /// The events of the document.
    pub closed spec fn spec_events(&self) -> Seq<(MdEvent, Range<usize>)> {
        self.events@
    }

    /// The directory of the document.
    pub closed spec fn spec_base_dir(&self) -> Seq<char> {
        self.base_dir@
    }

    /// Where the document was last modified.
    pub closed spec fn spec_offset(&self) -> Option<usize> {
        self.offset
    }

    /// The tokenizer that marks search matches.
    pub closed spec fn spec_tokenizer(&self) -> T {
        self.text_tokenizer
    }

    #[verifier::type_invariant]
    closed spec fn inv(&self) -> bool {
        events_ok_from(self.events@, 0) && self.text_tokenizer.inv()
    }

    /// The render tree of a document, which is parsed here; `offset` is
    /// where the document was last modified. `None` when the parser's
    /// events cannot be rendered, which a Markdown parser never gives.
    pub fn new(content: &'a MarkdownContent, offset: Option<usize>, text_tokenizer: T) -> (p: Option<Self>)
        requires
            text_tokenizer.inv(),
        ensures
            match p {
                Some(p) => {
                    &&& events_ok_from(markdown_events(content.spec_source()), 0)
                    &&& p.spec_events() == markdown_events(content.spec_source())
                    &&& p.spec_base_dir() == content.spec_base_dir()
                    &&& p.spec_offset() == offset
                    &&& p.spec_tokenizer() == text_tokenizer
                },
                None => !events_ok_from(markdown_events(content.spec_source()), 0),
            },
    {
        let events = parse_markdown(content.source());
        if events_ok(events.as_slice()) {
            Some(MarkdownParser::with_events(content, events, offset, text_tokenizer))
        } else {
            None
        }
    }

    /// The render tree of a document's events; `offset` is where the
    /// document was last modified.
    pub fn with_events(
        content: &'a MarkdownContent,
        events: Vec<(MdEvent, Range<usize>)>,
        offset: Option<usize>,
        text_tokenizer: T,
    ) -> (p: Self)
        requires
            events_ok_from(events@, 0),
            text_tokenizer.inv(),
        ensures
            p.spec_events() == events@,
            p.spec_base_dir() == content.spec_base_dir(),
            p.spec_offset() == offset,
            p.spec_tokenizer() == text_tokenizer,
    {
        MarkdownParser { events, base_dir: content.base_dir().as_str(), offset, text_tokenizer }
    }
}

impl<'a, T: TextTokenizer> RawMessageWriter for MarkdownParser<'a, T> {
    type Output = DisplayText;

    /// The render tree as a JavaScript expression, and the text that the
    /// preview shows.
    fn write_to(self) -> (r: (Vec<u8>, DisplayText))
        ensures
            r.0@ == enc_document(self.spec_events(), self.spec_base_dir(), self.spec_offset(), self.spec_tokenizer()).out,
            r.1.spec_text() == enc_document(self.spec_events(), self.spec_base_dir(), self.spec_offset(), self.spec_tokenizer()).text,
            r.1.spec_srcmap() == enc_document(self.spec_events(), self.spec_base_dir(), self.spec_offset(), self.spec_tokenizer()).srcmap,
    {
        proof {
            use_type_invariant(&self);
        }
        write_render_tree(self.events.as_slice(), self.base_dir, self.offset, self.text_tokenizer)
    }
}

} // verus!
