use crate::cli::PathArgs;
use crate::config::{FileExtensions, KeyAction, Search, SearchMatcher};
use crate::config::path_extension;
use crate::content::MarkdownContent;
use crate::cmark::{markdown_events, parse_markdown};
use crate::events::{events_ok, events_ok_from, MdEvent};
use crate::history::{moved, moved_index, pushed_items, Direction, History};
use crate::text::{decimal_chars, decimal_string, same_str};
use crate::preview::{plain_render, shown_offset, spec_title, Preview};
use crate::renderer::{InitFile, InitScroll, MenuItem, RenderingFlow, ScrollRequest, WindowAppearance, WindowEvent};
use crate::window::{Error as WindowError, WindowManager};
use crate::zoom::{spec_zoom_in, spec_zoom_out, step_percent, ZoomLevel};
use std::ops::Range;
use vstd::prelude::*;
use vstd::string::*;

verus! {

/// A message that the page in a window sends to the application.
pub enum MessageFromWindow {
    Init,
    Reload,
    FileDialog,
    FileDialogNewWindow,
    DirDialog,
    GoForward,
    GoBack,
    GoTop,
    History,
    Quit,
    Search { query: String, index: Option<usize>, matcher: SearchMatcher },
    OpenFile { path: String },
    ZoomIn,
    ZoomOut,
    DragWindow,
    ToggleMaximized,
    ToggleMinimized,
    NewWindow { path: Option<String> },
    DuplicateWindow { heading: Option<usize> },
    CloseWindow,
    CloseAllOtherWindows,
    ToggleMenuBar,
    ToggleAlwaysOnTop,
    EditConfig,
    Error { message: String },
}

/// A message that the application sends to the page in a window.
pub enum MessageToWindow {
    Config { keymaps: Vec<(String, KeyAction)>, search: Search, home: Option<String>, window: WindowAppearance },
    Path { path: String },
    Search,
    SearchNext,
    SearchPrevious,
    Welcome,
    Outline,
    History { paths: Vec<String> },
    Help,
    Zoomed { percent: u16 },
    Reload,
    AlwaysOnTop { pinned: bool },
    Scroll { scroll: ScrollRequest },
    Debug,
}

/// The state of the window that an event is about, as the caller reads it
/// from that window when the event comes.
#[derive(Clone, Copy)]
pub struct WindowFacts {
    pub zoom_level: ZoomLevel,
    pub always_on_top: bool,
    pub maximized: bool,
    pub minimized: bool,
    pub appearance: WindowAppearance,
}

/// An event that the application handles.
pub enum AppEvent {
    WindowMessage { message: MessageFromWindow, id: u64 },
    /// A file dropped into a window, by its absolute path.
    FileDrop { path: String, id: u64 },
    WatchedFilesChanged(Vec<String>),
    /// A link to a local path clicked in a window; `is_file` tells whether
    /// the path is an existing file that is not a directory.
    OpenLocalPath { file: InitFile, id: u64, is_file: bool },
    OpenExternalLink(String),
    Menu(MenuItem),
    /// A new window asked for, with the document to open in it; `is_file`
    /// tells whether that path is an existing file that is not a directory.
    NewWindow { init_file: Option<InitFile>, is_file: bool },
    DuplicateWindow { scroll: InitScroll, id: u64 },
    /// Paths handed over by another process of the application, which
    /// then exits: it was started while this one runs.
    ProcessSingleton { paths: PathArgs },
    Error(String),
}

/// What happens once a document was read into a window.
#[derive(Clone, Copy, PartialEq, Eq, Structural, Debug)]
pub enum AfterLoad {
    /// The document becomes the newest item of the history when it was read.
    Push,
    /// The history moves on in the direction when the document could not
    /// be read.
    Navigate(Direction),
    /// The window is told to reload.
    Reload,
    Nothing,
}

/// Something that the application asks its caller to do. The caller does
/// the actions in order; when one fails, it skips the rest and reports the
/// failure with `Shiba::on_error`.
pub enum Action {
    Send { id: u64, message: MessageToWindow },
    /// Sends a render tree to the window.
    SendRaw { id: u64, bytes: Vec<u8> },
    SetTitle { id: u64, title: String },
    Show(u64),
    Hide(u64),
    /// Brings the window to the front.
    Focus(u64),
    CreateWindow,
    Watch(String),
    /// Reads and parses the document at the path, then hands it to
    /// `Shiba::loaded` with `then`.
    Load { id: u64, path: String, then: AfterLoad },
    /// Lets the user pick files, then hands them to `Shiba::files_picked`.
    PickFiles { id: u64, new_window: bool },
    /// Lets the user pick directories and watches each.
    PickDirs(u64),
    Zoom { id: u64, level: ZoomLevel },
    SetAlwaysOnTop { id: u64, pinned: bool },
    Maximize { id: u64, maximized: bool },
    Minimize { id: u64, minimized: bool },
    DragWindow(u64),
    Print(u64),
    ToggleMenu(u64),
    SaveMemory { id: u64, low: bool },
    /// Opens a path or a URL with the program the system chooses.
    Open(String),
    OpenConfig,
    /// Saves the window's state and the history before the application
    /// exits; the caller hands what came of it to `Shiba::saved`, whose
    /// flow ends the application.
    Save(u64),
    Alert { title: String, message: String },
    /// Asks the user, over the window, whether to delete all the history,
    /// then hands the answer to `Shiba::history_deletion_answered`.
    ConfirmDeleteHistory(u64),
    /// Deletes what the window's page keeps in its cache.
    DeleteCache(u64),
}

/// Where a window scrolls to, as values.
pub enum ScrollView {
    Fragment(Seq<char>),
    Heading(usize),
}

/// A message to a window, as values.
pub enum MsgView {
    Config(Seq<(Seq<char>, KeyAction)>, Search, Option<Seq<char>>, WindowAppearance),
    Path(Seq<char>),
    Search,
    SearchNext,
    SearchPrevious,
    Welcome,
    Outline,
    History(Seq<Seq<char>>),
    Help,
    Zoomed(u16),
    Reload,
    AlwaysOnTop(bool),
    Scroll(ScrollView),
    Debug,
}

/// An action, as values.
pub enum Act {
    Send(u64, MsgView),
    SendRaw(u64, Seq<u8>),
    SetTitle(u64, Seq<char>),
    Show(u64),
    Hide(u64),
    Focus(u64),
    CreateWindow,
    Watch(Seq<char>),
    Load(u64, Seq<char>, AfterLoad),
    PickFiles(u64, bool),
    PickDirs(u64),
    Zoom(u64, ZoomLevel),
    SetAlwaysOnTop(u64, bool),
    Maximize(u64, bool),
    Minimize(u64, bool),
    DragWindow(u64),
    Print(u64),
    ToggleMenu(u64),
    SaveMemory(u64, bool),
    Open(Seq<char>),
    OpenConfig,
    Save(u64),
    Alert(Seq<char>, Seq<char>),
    ConfirmDeleteHistory(u64),
    DeleteCache(u64),
}

/// The paths, as values.
pub open spec fn path_views(v: Seq<String>) -> Seq<Seq<char>> {
    v.map_values(|s: String| s@)
}

/// Where a window scrolls to, as values.
pub open spec fn scroll_view(s: ScrollRequest) -> ScrollView {
    match s {
        ScrollRequest::Fragment(f) => ScrollView::Fragment(f@),
        ScrollRequest::Heading(i) => ScrollView::Heading(i),
    }
}

/// Key bindings as values.
pub open spec fn keymap_views(k: Seq<(String, KeyAction)>) -> Seq<(Seq<char>, KeyAction)> {
    k.map_values(|e: (String, KeyAction)| (e.0@, e.1))
}

impl View for MessageToWindow {
    type V = MsgView;

    open spec fn view(&self) -> MsgView {
        match self {
            MessageToWindow::Config { keymaps, search, home, window } => MsgView::Config(
                keymap_views(keymaps@),
                *search,
                match home {
                    Some(h) => Some(h@),
                    None => None,
                },
                *window,
            ),
            MessageToWindow::Path { path } => MsgView::Path(path@),
            MessageToWindow::Search => MsgView::Search,
            MessageToWindow::SearchNext => MsgView::SearchNext,
            MessageToWindow::SearchPrevious => MsgView::SearchPrevious,
            MessageToWindow::Welcome => MsgView::Welcome,
            MessageToWindow::Outline => MsgView::Outline,
            MessageToWindow::History { paths } => MsgView::History(path_views(paths@)),
            MessageToWindow::Help => MsgView::Help,
            MessageToWindow::Zoomed { percent } => MsgView::Zoomed(*percent),
            MessageToWindow::Reload => MsgView::Reload,
            MessageToWindow::AlwaysOnTop { pinned } => MsgView::AlwaysOnTop(*pinned),
            MessageToWindow::Scroll { scroll } => MsgView::Scroll(scroll_view(*scroll)),
            MessageToWindow::Debug => MsgView::Debug,
        }
    }
}

impl View for Action {
    type V = Act;

    open spec fn view(&self) -> Act {
        match self {
            Action::Send { id, message } => Act::Send(*id, message@),
            Action::SendRaw { id, bytes } => Act::SendRaw(*id, bytes@),
            Action::SetTitle { id, title } => Act::SetTitle(*id, title@),
            Action::Show(id) => Act::Show(*id),
            Action::Hide(id) => Act::Hide(*id),
            Action::Focus(id) => Act::Focus(*id),
            Action::CreateWindow => Act::CreateWindow,
            Action::Watch(p) => Act::Watch(p@),
            Action::Load { id, path, then } => Act::Load(*id, path@, *then),
            Action::PickFiles { id, new_window } => Act::PickFiles(*id, *new_window),
            Action::PickDirs(id) => Act::PickDirs(*id),
            Action::Zoom { id, level } => Act::Zoom(*id, *level),
            Action::SetAlwaysOnTop { id, pinned } => Act::SetAlwaysOnTop(*id, *pinned),
            Action::Maximize { id, maximized } => Act::Maximize(*id, *maximized),
            Action::Minimize { id, minimized } => Act::Minimize(*id, *minimized),
            Action::DragWindow(id) => Act::DragWindow(*id),
            Action::Print(id) => Act::Print(*id),
            Action::ToggleMenu(id) => Act::ToggleMenu(*id),
            Action::SaveMemory { id, low } => Act::SaveMemory(*id, *low),
            Action::Open(p) => Act::Open(p@),
            Action::OpenConfig => Act::OpenConfig,
            Action::Save(id) => Act::Save(*id),
            Action::Alert { title, message } => Act::Alert(title@, message@),
            Action::ConfirmDeleteHistory(id) => Act::ConfirmDeleteHistory(*id),
            Action::DeleteCache(id) => Act::DeleteCache(*id),
        }
    }
}

/// The actions, as values.
pub open spec fn acts(v: Seq<Action>) -> Seq<Act> {
    v.map_values(|a: Action| a@)
}

/// A document to open, as values: its path and where it scrolls to.
pub open spec fn file_view(f: InitFile) -> (Seq<char>, Option<ScrollView>) {
    (f.path@, match f.scroll {
        InitScroll::Fragment(h) => Some(ScrollView::Fragment(h@)),
        InitScroll::Heading(i) => Some(ScrollView::Heading(i)),
        InitScroll::Nop => None,
    })
}

/// The documents waiting for new windows, as values.
pub open spec fn file_views(v: Seq<InitFile>) -> Seq<(Seq<char>, Option<ScrollView>)> {
    v.map_values(|f: InitFile| file_view(f))
}

fn emit(out: &mut Vec<Action>, a: Action)
    ensures
        acts(final(out)@) == acts(old(out)@).push(a@),
{
    out.push(a);
    assert(acts(out@) =~= acts(old(out)@).push(a@));
}

/// The message of an error about an unknown window.
pub open spec fn unknown_window_message(id: u64) -> Seq<char> {
    "unknown window ID: "@ + decimal_chars(id as nat)
}

fn unknown_window(id: u64) -> (s: String)
    ensures
        s@ == unknown_window_message(id),
{
    WindowError::UnknownWindow(id).message(decimal_string(id).as_str())
}


/// The message that a window may scroll to first, as actions.
pub open spec fn scroll_acts(id: u64, scroll: Option<ScrollView>) -> Seq<Act> {
    match scroll {
        Some(s) => seq![Act::Send(id, MsgView::Scroll(s))],
        None => Seq::empty(),
    }
}

/// Opening a document in a window: the path is watched first, since the
/// file may not exist yet; then, when the window is open, the window is
/// scrolled as asked and the document is read, to become the newest item of
/// the history once it was read.
pub open spec fn open_preview_acts(known: bool, id: u64, file: (Seq<char>, Option<ScrollView>)) -> Seq<Act> {
    seq![Act::Watch(file.0)] + if known {
        scroll_acts(id, file.1) + seq![Act::Load(id, file.0, AfterLoad::Push)]
    } else {
        Seq::empty()
    }
}

/// The application: its windows, each with the document it shows, the
/// history of opened documents, the documents waiting for the windows that
/// were asked for, and the status it exits with.
pub struct Shiba<W> {
    windows: WindowManager<W>,
    history: History,
    init_files: Vec<InitFile>,
    exit_status: i32,
    debug: bool,
    home_dir: Option<String>,
    extensions: FileExtensions,
    keymaps: Vec<(String, KeyAction)>,
    search: Search,
}

impl<W> Shiba<W> {
    /// The windows and their previews.
    pub closed spec fn spec_windows(&self) -> WindowManager<W> {
        self.windows
    }

    /// The history of opened documents.
    pub closed spec fn spec_history(&self) -> History {
        self.history
    }

    /// The documents waiting for the windows that were asked for, first
    /// asked first.
    pub closed spec fn spec_init_files(&self) -> Seq<(Seq<char>, Option<ScrollView>)> {
        file_views(self.init_files@)
    }

    /// The status that the application exits with: 1 once an error was
    /// reported, else 0.
    pub closed spec fn spec_exit_status(&self) -> i32 {
        self.exit_status
    }

    /// Whether the debug features are on.
    pub closed spec fn spec_debug(&self) -> bool {
        self.debug
    }

    /// The key bindings that the page is told of.
    pub closed spec fn spec_keymaps(&self) -> Seq<(Seq<char>, KeyAction)> {
        keymap_views(self.keymaps@)
    }

    /// How search in the page is configured.
    pub closed spec fn spec_search(&self) -> Search {
        self.search
    }

    /// The user's home directory.
    pub closed spec fn spec_home_dir(&self) -> Option<Seq<char>> {
        match self.home_dir {
            Some(h) => Some(h@),
            None => None,
        }
    }

    /// The extensions of the files that are previewed.
    pub closed spec fn spec_extensions(&self) -> Seq<Seq<char>> {
        self.extensions.spec_extensions()
    }

    /// The application's invariant: that of its windows and of its history.
    pub open spec fn wf(&self) -> bool {
        &&& self.spec_windows().wf()
        &&& self.spec_history().wf()
    }

    /// What never changes after the application started.
    pub open spec fn same_setup(&self, other: &Self) -> bool {
        &&& self.spec_debug() == other.spec_debug()
        &&& self.spec_home_dir() == other.spec_home_dir()
        &&& self.spec_extensions() == other.spec_extensions()
    }

    /// Starts the application: the paths to watch are watched and pushed to
    /// the history in turn, and one window is asked for each document to
    /// open, or one window when there is none.
    pub fn new(
        watch_paths: Vec<String>,
        init_files: Vec<String>,
        history: History,
        debug: bool,
        home_dir: Option<String>,
        extensions: FileExtensions,
        keymaps: Vec<(String, KeyAction)>,
        search: Search,
    ) -> (r: (Shiba<W>, Vec<Action>))
        requires
            history.wf(),
        ensures
            r.0.wf(),
            r.0.spec_windows().spec_ids().len() == 0,
            r.0.spec_windows().spec_focused() is None,
            r.0.spec_history().spec_max_items() == history.spec_max_items(),
            r.0.spec_history().spec_items() == pushed_all(history.spec_items(), history.spec_max_items(), path_views(watch_paths@)),
            r.0.spec_init_files() == path_views(init_files@).map_values(|p: Seq<char>| (p, None::<ScrollView>)),
            r.0.spec_exit_status() == 0,
            r.0.spec_debug() == debug,
            r.0.spec_home_dir() == match home_dir {
                Some(h) => Some(h@),
                None => None::<Seq<char>>,
            },
            r.0.spec_extensions() == extensions.spec_extensions(),
            r.0.spec_keymaps() == keymap_views(keymaps@),
            r.0.spec_search() == search,
            acts(r.1@) == path_views(watch_paths@).map_values(|p: Seq<char>| Act::Watch(p))
                + Seq::new(if init_files@.len() > 0 { init_files@.len() } else { 1 }, |i: int| Act::CreateWindow),
    {
        let ghost h0 = history;
        let mut history = history;
        let mut out: Vec<Action> = Vec::new();
        let mut i: usize = 0;
        while i < watch_paths.len()
            invariant
                i <= watch_paths@.len(),
                history.wf(),
                history.spec_max_items() == h0.spec_max_items(),
                history.spec_items() == pushed_all(h0.spec_items(), h0.spec_max_items(), path_views(watch_paths@.take(i as int))),
                acts(out@) == path_views(watch_paths@.take(i as int)).map_values(|p: Seq<char>| Act::Watch(p)),
            decreases watch_paths.len() - i,
        {
            let p = watch_paths[i].clone();
            let q = watch_paths[i].clone();
            emit(&mut out, Action::Watch(p));
            history.push(q);
            proof {
                let w = watch_paths@;
                assert(w.take(i + 1) =~= w.take(i as int).push(w[i as int]));
                assert(path_views(w.take(i + 1)) =~= path_views(w.take(i as int)).push(w[i as int]@));
                assert(path_views(w.take(i + 1)).drop_last() =~= path_views(w.take(i as int)));
                assert(path_views(w.take(i + 1)).last() == w[i as int]@);
                assert(path_views(w.take(i + 1)).map_values(|p: Seq<char>| Act::Watch(p))
                    =~= path_views(w.take(i as int)).map_values(|p: Seq<char>| Act::Watch(p)).push(Act::Watch(w[i as int]@)));
            }
            i = i + 1;
        }
        assert(watch_paths@.take(i as int) =~= watch_paths@);
        let ghost watched = acts(out@);
        let n = if init_files.len() > 0 { init_files.len() } else { 1 };
        let mut k: usize = 0;
        while k < n
            invariant
                k <= n,
                acts(out@) == watched + Seq::new(k as nat, |i: int| Act::CreateWindow),
            decreases n - k,
        {
            emit(&mut out, Action::CreateWindow);
            assert(Seq::new((k + 1) as nat, |i: int| Act::CreateWindow)
                =~= Seq::new(k as nat, |i: int| Act::CreateWindow).push(Act::CreateWindow));
            assert(watched + Seq::new((k + 1) as nat, |i: int| Act::CreateWindow)
                =~= (watched + Seq::new(k as nat, |i: int| Act::CreateWindow)).push(Act::CreateWindow));
            k = k + 1;
        }
        let mut files: Vec<InitFile> = Vec::new();
        let mut j: usize = 0;
        while j < init_files.len()
            invariant
                j <= init_files@.len(),
                file_views(files@) == path_views(init_files@.take(j as int)).map_values(|p: Seq<char>| (p, None::<ScrollView>)),
            decreases init_files.len() - j,
        {
            let f = InitFile::from_path(init_files[j].clone());
            let ghost fv = file_view(f);
            let ghost before = files@;
            files.push(f);
            proof {
                let v = init_files@;
                assert(v.take(j + 1) =~= v.take(j as int).push(v[j as int]));
                assert(path_views(v.take(j + 1)) =~= path_views(v.take(j as int)).push(v[j as int]@));
                assert(file_views(files@) =~= file_views(files@.drop_last()).push(fv));
                assert(files@.drop_last() =~= before);
            }
            j = j + 1;
        }
        assert(init_files@.take(j as int) =~= init_files@);
        let shiba = Shiba {
            windows: WindowManager::new(match &home_dir {
                Some(h) => Some(h.clone()),
                None => None,
            }),
            history,
            init_files: files,
            exit_status: 0,
            debug,
            home_dir,
            extensions,
            keymaps,
            search,
        };
        (shiba, out)
    }
}


impl<W> Shiba<W> {
    /// Whether a window with the id is open.
    pub open spec fn has_window(&self, id: u64) -> bool {
        self.spec_windows().spec_ids().contains(id)
    }

    fn known(&self, id: u64) -> (b: bool)
        requires
            self.wf(),
        ensures
            b == self.has_window(id),
    {
        self.windows.preview(id).is_some()
    }

    fn open_preview(&mut self, id: u64, file: InitFile, out: &mut Vec<Action>) -> (r: Result<(), String>)
        requires
            old(self).wf(),
        ensures
            *final(self) == *old(self),
            acts(final(out)@) == acts(old(out)@) + open_preview_acts(old(self).has_window(id), id, file_view(file)),
            r is Ok <==> old(self).has_window(id),
            r matches Err(e) ==> e@ == unknown_window_message(id),
    {
        let ghost a0 = acts(out@);
        let ghost fv = file_view(file);
        let InitFile { path, scroll } = file;
        emit(out, Action::Watch(path.clone()));
        if !self.known(id) {
            assert(acts(out@) =~= a0 + open_preview_acts(false, id, fv));
            return Err(unknown_window(id));
        }
        match scroll {
            InitScroll::Fragment(h) => emit(out, Action::Send { id, message: MessageToWindow::Scroll { scroll: ScrollRequest::Fragment(h) } }),
            InitScroll::Heading(i) => emit(out, Action::Send { id, message: MessageToWindow::Scroll { scroll: ScrollRequest::Heading(i) } }),
            InitScroll::Nop => {},
        }
        emit(out, Action::Load { id, path, then: AfterLoad::Push });
        assert(acts(out@) =~= a0 + open_preview_acts(true, id, fv));
        Ok(())
    }

    fn open_window(&mut self, file: InitFile, out: &mut Vec<Action>)
        requires
            old(self).wf(),
        ensures
            final(self).wf(),
            final(self).same_setup(old(self)),
            final(self).spec_windows() == old(self).spec_windows(),
            final(self).spec_history() == old(self).spec_history(),
            final(self).spec_exit_status() == old(self).spec_exit_status(),
            final(self).spec_init_files() == old(self).spec_init_files().push(file_view(file)),
            acts(final(out)@) == acts(old(out)@).push(Act::CreateWindow),
    {
        let ghost fv = file_view(file);
        self.init_files.push(file);
        assert(file_views(self.init_files@) =~= file_views(old(self).init_files@).push(fv));
        emit(out, Action::CreateWindow);
    }
}


/// Whether a preview shows no document yet.
pub open spec fn preview_empty(p: Preview) -> bool {
    p.spec_content().spec_source().len() == 0 && p.spec_content().spec_base_dir().len() == 0
}

/// The document that moving in the history shows first. A window that
/// shows no document yet, where the history already points at the newest
/// item, goes back, or to the newest item, by showing that item, and goes
/// forward nowhere.
pub open spec fn navigate_target(empty: bool, h: History, dir: Direction) -> Option<Seq<char>> {
    if empty {
        match dir {
            Direction::Forward => None,
            Direction::Back | Direction::Top => h.spec_current(),
        }
    } else if moved(h.spec_index(), h.spec_items().len(), dir) {
        Some(h.spec_items()[moved_index(h.spec_index(), h.spec_items().len(), dir) as int])
    } else {
        None
    }
}

/// Moving in the history: the first document that way is read, and the
/// history moves on past the documents that cannot be read.
pub open spec fn navigate_acts(id: u64, empty: bool, h: History, dir: Direction) -> Seq<Act> {
    match navigate_target(empty, h, dir) {
        Some(p) => seq![Act::Load(id, p, AfterLoad::Navigate(if empty { Direction::Back } else { dir }))],
        None => Seq::empty(),
    }
}

/// Reloading a window: its document is read again and the window told to
/// reload; a window that shows no document is left as it is.
pub open spec fn reload_acts(id: u64, empty: bool, h: History) -> Seq<Act> {
    if empty {
        Seq::empty()
    } else {
        match h.spec_current() {
            Some(p) => seq![Act::Load(id, p, AfterLoad::Reload)],
            None => Seq::empty(),
        }
    }
}

/// Zooming a window in or out by a step, and telling the page the new
/// percentage; nothing at the last step.
pub open spec fn zoom_acts(id: u64, zoom_in: bool, level: ZoomLevel) -> Seq<Act> {
    match if zoom_in { spec_zoom_in(level) } else { spec_zoom_out(level) } {
        Some(l) => seq![Act::Zoom(id, l), Act::Send(id, MsgView::Zoomed(step_percent(l.0 as int) as u16))],
        None => Seq::empty(),
    }
}

impl<W> Shiba<W> {
    /// The preview of the window with the id.
    pub open spec fn preview_of(&self, id: u64) -> Preview {
        self.spec_windows().spec_preview_of(id)
    }

    /// Whether everything but the history stays the same.
    pub open spec fn same_but_history(&self, other: &Self) -> bool {
        &&& self.same_setup(other)
        &&& self.spec_windows() == other.spec_windows()
        &&& self.spec_init_files() == other.spec_init_files()
        &&& self.spec_exit_status() == other.spec_exit_status()
    }

    fn is_empty_preview(&self, id: u64) -> (b: bool)
        requires
            self.wf(),
            self.has_window(id),
        ensures
            b == preview_empty(self.preview_of(id)),
    {
        match self.windows.preview(id) {
            Some(p) => p.is_empty(),
            None => true,
        }
    }

    fn navigate(&mut self, id: u64, dir: Direction, out: &mut Vec<Action>)
        requires
            old(self).wf(),
            old(self).has_window(id),
        ensures
            final(self).wf(),
            final(self).same_but_history(old(self)),
            final(self).spec_history().spec_items() == old(self).spec_history().spec_items(),
            final(self).spec_history().spec_max_items() == old(self).spec_history().spec_max_items(),
            final(self).spec_history().spec_index() == if preview_empty(old(self).preview_of(id)) {
                old(self).spec_history().spec_index()
            } else {
                moved_index(old(self).spec_history().spec_index(), old(self).spec_history().spec_items().len(), dir)
            },
            acts(final(out)@) == acts(old(out)@) + navigate_acts(id, preview_empty(old(self).preview_of(id)), old(self).spec_history(), dir),
    {
        let ghost a0 = acts(out@);
        let empty = self.is_empty_preview(id);
        if empty {
            match dir {
                Direction::Forward => {
                    assert(acts(out@) =~= a0 + navigate_acts(id, true, old(self).spec_history(), dir));
                },
                Direction::Back | Direction::Top => {
                    match self.history.current() {
                        Some(p) => {
                            let p = p.clone();
                            emit(out, Action::Load { id, path: p, then: AfterLoad::Navigate(Direction::Back) });
                        },
                        None => {},
                    }
                    assert(acts(out@) =~= a0 + navigate_acts(id, true, old(self).spec_history(), dir));
                },
            }
        } else {
            let target = match self.history.navigate(dir) {
                Some(p) => Some(p.clone()),
                None => None,
            };
            match target {
                Some(p) => emit(out, Action::Load { id, path: p, then: AfterLoad::Navigate(dir) }),
                None => {},
            }
            assert(acts(out@) =~= a0 + navigate_acts(id, false, old(self).spec_history(), dir));
        }
    }

    fn reload(&mut self, id: u64, out: &mut Vec<Action>)
        requires
            old(self).wf(),
            old(self).has_window(id),
        ensures
            *final(self) == *old(self),
            acts(final(out)@) == acts(old(out)@) + reload_acts(id, preview_empty(old(self).preview_of(id)), old(self).spec_history()),
    {
        let ghost a0 = acts(out@);
        if self.is_empty_preview(id) {
            assert(acts(out@) =~= a0 + reload_acts(id, true, old(self).spec_history()));
            return;
        }
        match self.history.current() {
            Some(p) => {
                let p = p.clone();
                emit(out, Action::Load { id, path: p, then: AfterLoad::Reload });
            },
            None => {},
        }
        assert(acts(out@) =~= a0 + reload_acts(id, false, old(self).spec_history()));
    }

    fn zoom(&self, id: u64, zoom_in: bool, level: ZoomLevel, out: &mut Vec<Action>)
        requires
            level.valid(),
        ensures
            acts(final(out)@) == acts(old(out)@) + zoom_acts(id, zoom_in, level),
    {
        let ghost a0 = acts(out@);
        let next = if zoom_in { level.zoom_in() } else { level.zoom_out() };
        match next {
            Some(l) => {
                emit(out, Action::Zoom { id, level: l });
                let percent = l.percent();
                emit(out, Action::Send { id, message: MessageToWindow::Zoomed { percent } });
            },
            None => {},
        }
        assert(acts(out@) =~= a0 + zoom_acts(id, zoom_in, level));
    }
}


/// The windows after one was closed: the others stay open with their
/// previews, and focus is lost when the closed window had it.
pub open spec fn window_closed<W>(before: WindowManager<W>, after: WindowManager<W>, id: u64) -> bool {
    &&& !after.spec_ids().contains(id)
    &&& forall|x: u64| x != id ==> (#[trigger] after.spec_ids().contains(x) == before.spec_ids().contains(x))
    &&& after.spec_focused() == if before.spec_focused() == Some(id) { None } else { before.spec_focused() }
    &&& forall|x: u64| x != id && #[trigger] before.spec_ids().contains(x) ==> after.spec_preview_of(x) == before.spec_preview_of(x)
    &&& after.spec_home_dir() == before.spec_home_dir()
}

/// The windows after all but one were closed: that one is left, focused,
/// with its preview; when it was not open, none is left.
pub open spec fn others_closed<W>(before: WindowManager<W>, after: WindowManager<W>, id: u64) -> bool {
    &&& before.spec_ids().contains(id) ==> {
        &&& after.spec_ids() == seq![id]
        &&& after.spec_focused() == Some(id)
        &&& after.spec_preview_of(id) == before.spec_preview_of(id)
    }
    &&& !before.spec_ids().contains(id) ==> after.spec_ids().len() == 0 && after.spec_focused() is None
    &&& after.spec_home_dir() == before.spec_home_dir()
}

/// The document that duplicating a window opens: the one it shows, scrolled
/// as asked.
pub open spec fn scroll_of(scroll: InitScroll) -> Option<ScrollView> {
    match scroll {
        InitScroll::Fragment(h) => Some(ScrollView::Fragment(h@)),
        InitScroll::Heading(i) => Some(ScrollView::Heading(i)),
        InitScroll::Nop => None,
    }
}

impl<W> Shiba<W> {
    /// Whether only the windows changed.
    pub open spec fn same_but_windows(&self, other: &Self) -> bool {
        &&& self.same_setup(other)
        &&& self.spec_history() == other.spec_history()
        &&& self.spec_init_files() == other.spec_init_files()
        &&& self.spec_exit_status() == other.spec_exit_status()
    }

    fn quit(&self, id: u64, out: &mut Vec<Action>) -> (flow: RenderingFlow)
        ensures
            flow == RenderingFlow::Continue,
            acts(final(out)@) == acts(old(out)@) + seq![Act::Hide(id), Act::Save(id)],
    {
        let ghost a0 = acts(out@);
        emit(out, Action::Hide(id));
        emit(out, Action::Save(id));
        assert(acts(out@) =~= a0 + seq![Act::Hide(id), Act::Save(id)]);
        RenderingFlow::Continue
    }

    fn close_window(&mut self, id: u64, out: &mut Vec<Action>) -> (flow: RenderingFlow)
        requires
            old(self).wf(),
        ensures
            final(self).wf(),
            final(self).same_but_windows(old(self)),
            ({
                let last = old(self).spec_windows().spec_ids().len() == 1 && old(self).has_window(id);
                &&& last ==> {
                    &&& final(self).spec_windows() == old(self).spec_windows()
                    &&& flow == RenderingFlow::Continue
                    &&& acts(final(out)@) == acts(old(out)@) + seq![Act::Hide(id), Act::Save(id)]
                }
                &&& !last ==> {
                    &&& window_closed(old(self).spec_windows(), final(self).spec_windows(), id)
                    &&& flow == RenderingFlow::Continue
                    &&& acts(final(out)@) == acts(old(out)@)
                }
            }),
    {
        if self.windows.is_last(id) {
            self.quit(id, out)
        } else {
            self.windows.close(id);
            RenderingFlow::Continue
        }
    }

    fn close_other_windows(&mut self, id: u64)
        requires
            old(self).wf(),
        ensures
            final(self).wf(),
            final(self).same_but_windows(old(self)),
            others_closed(old(self).spec_windows(), final(self).spec_windows(), id),
    {
        self.windows.close_others(id);
    }

    fn duplicate_window(&mut self, id: u64, scroll: InitScroll, out: &mut Vec<Action>)
        requires
            old(self).wf(),
            old(self).has_window(id),
        ensures
            final(self).wf(),
            final(self).same_setup(old(self)),
            final(self).spec_windows() == old(self).spec_windows(),
            final(self).spec_history() == old(self).spec_history(),
            final(self).spec_exit_status() == old(self).spec_exit_status(),
            final(self).spec_init_files() == if preview_empty(old(self).preview_of(id)) {
                old(self).spec_init_files()
            } else {
                old(self).spec_init_files().push((old(self).preview_of(id).spec_path(), scroll_of(scroll)))
            },
            acts(final(out)@) == acts(old(out)@).push(Act::CreateWindow),
    {
        let path = match self.windows.preview(id) {
            Some(p) => {
                if p.is_empty() {
                    None
                } else {
                    Some(String::from_str(p.path()))
                }
            },
            None => None,
        };
        match path {
            None => emit(out, Action::CreateWindow),
            Some(path) => self.open_window(InitFile { path, scroll }, out),
        }
    }
}


/// A document read from `path` is shown in a preview that showed `before`.
pub open spec fn preview_shown(before: Preview, after: Preview, path: Seq<char>, content: MarkdownContent, events: Seq<(MdEvent, Range<usize>)>) -> bool {
    &&& after.spec_content() == content
    &&& after.spec_events() == events
    &&& after.spec_path() == path
    &&& after.spec_home_dir() == before.spec_home_dir()
}

/// Showing a document read into a window: its render tree is sent, marking
/// where it changed; for another document than the one shown, the window
/// gets the new title and the page the new path.
pub open spec fn show_acts(id: u64, before: Preview, path: Seq<char>, content: MarkdownContent, events: Seq<(MdEvent, Range<usize>)>) -> Seq<Act> {
    seq![Act::SendRaw(id, plain_render(events, content.spec_base_dir(), shown_offset(before, path, content)))]
        + if before.spec_path() != path {
            seq![Act::SetTitle(id, spec_title(before.spec_home_dir(), path)), Act::Send(id, MsgView::Path(path))]
        } else {
            Seq::empty()
        }
}

/// The history after a path was pushed to it.
pub open spec fn history_pushed(before: History, after: History, path: Seq<char>) -> bool {
    &&& after.spec_max_items() == before.spec_max_items()
    &&& after.spec_items() == pushed_items(before.spec_items(), before.spec_max_items(), path)
    &&& before.spec_max_items() > 0 ==> after.spec_index() == after.spec_items().len() - 1
    &&& before.spec_max_items() == 0 ==> after.spec_index() == before.spec_index()
}

/// The history after the path shown now was deleted, moving on in the
/// direction.
pub open spec fn history_deleted(before: History, after: History, dir: Direction) -> bool {
    &&& after.spec_max_items() == before.spec_max_items()
    &&& before.spec_index() < before.spec_items().len() ==> {
        let items = before.spec_items().remove(before.spec_index() as int);
        &&& after.spec_items() == items
        &&& dir == Direction::Forward ==> after.spec_index() == before.spec_index()
        &&& dir == Direction::Back ==> after.spec_index() == moved_index(before.spec_index(), items.len(), Direction::Back)
        &&& dir == Direction::Top ==> after.spec_index() == moved_index(before.spec_index(), items.len(), Direction::Top)
    }
    &&& before.spec_index() >= before.spec_items().len() ==> {
        &&& after.spec_items() == before.spec_items()
        &&& after.spec_index() == before.spec_index()
    }
}

/// The path that the history shows after the one shown was deleted, if
/// there is one in the direction.
pub open spec fn next_after_delete(before: History, after: History, dir: Direction) -> Option<Seq<char>> {
    if before.spec_index() < before.spec_items().len() && match dir {
        Direction::Forward | Direction::Top => after.spec_current() is Some,
        Direction::Back => moved(before.spec_index(), (before.spec_items().len() - 1) as nat, Direction::Back),
    } {
        after.spec_current()
    } else {
        None
    }
}

impl<W> Shiba<W> {
    fn show_document(&mut self, id: u64, path: &str, content: MarkdownContent, events: Vec<(MdEvent, Range<usize>)>, out: &mut Vec<Action>)
        requires
            old(self).wf(),
            old(self).has_window(id),
            events_ok_from(events@, 0),
        ensures
            final(self).wf(),
            final(self).same_setup(old(self)),
            final(self).spec_init_files() == old(self).spec_init_files(),
            final(self).spec_exit_status() == old(self).spec_exit_status(),
            final(self).spec_history() == old(self).spec_history(),
            final(self).spec_windows().spec_ids() == old(self).spec_windows().spec_ids(),
            final(self).spec_windows().spec_focused() == old(self).spec_windows().spec_focused(),
            final(self).spec_windows().spec_home_dir() == old(self).spec_windows().spec_home_dir(),
            forall|x: u64| x != id && #[trigger] old(self).has_window(x) ==> final(self).preview_of(x) == old(self).preview_of(x),
            preview_shown(old(self).preview_of(id), final(self).preview_of(id), path@, content, events@),
            acts(final(out)@) == acts(old(out)@) + show_acts(id, old(self).preview_of(id), path@, content, events@),
    {
        let ghost a0 = acts(out@);
        let ghost c = content;
        let ghost ev = events@;
        let taken = self.windows.replace_preview(id, Preview::new(None));
        match taken {
            Some(mut preview) => {
                let (bytes, is_new) = preview.show_parsed(path, content, events);
                emit(out, Action::SendRaw { id, bytes });
                if is_new {
                    let title = preview.title();
                    emit(out, Action::SetTitle { id, title });
                    emit(out, Action::Send { id, message: MessageToWindow::Path { path: String::from_str(path) } });
                }
                assert(acts(out@) =~= a0 + show_acts(id, old(self).preview_of(id), path@, c, ev));
                self.windows.replace_preview(id, preview);
            },
            None => {},
        }
    }

    /// What showing a document, or learning that it could not be read, does
    /// to the application and which actions it asks for: `doc` is the
    /// document with its parsed events, or `None` when it could not be read.
    pub open spec fn load_outcome(
        &self,
        fin: &Self,
        id: u64,
        path: Seq<char>,
        doc: Option<(MarkdownContent, Seq<(MdEvent, Range<usize>)>)>,
        then: AfterLoad,
        r: Seq<Act>,
    ) -> bool {
        &&& fin.same_setup(self)
        &&& fin.spec_init_files() == self.spec_init_files()
        &&& fin.spec_exit_status() == self.spec_exit_status()
        &&& fin.spec_windows().spec_ids() == self.spec_windows().spec_ids()
        &&& fin.spec_windows().spec_focused() == self.spec_windows().spec_focused()
        &&& fin.spec_windows().spec_home_dir() == self.spec_windows().spec_home_dir()
        &&& forall|x: u64| x != id && #[trigger] self.has_window(x) ==> fin.preview_of(x) == self.preview_of(x)
        &&& ({
            let known = self.has_window(id);
            let before = self.spec_history();
            let after = fin.spec_history();
            match doc {
                Some(d) if known => {
                    &&& preview_shown(self.preview_of(id), fin.preview_of(id), path, d.0, d.1)
                    &&& then == AfterLoad::Push ==> history_pushed(before, after, path)
                    &&& then != AfterLoad::Push ==> after == before
                    &&& r == show_acts(id, self.preview_of(id), path, d.0, d.1)
                        + if then == AfterLoad::Reload { seq![Act::Send(id, MsgView::Reload)] } else { Seq::empty() }
                },
                _ => {
                    &&& fin.preview_of(id) == self.preview_of(id)
                    &&& match then {
                        AfterLoad::Navigate(dir) if known => {
                            &&& history_deleted(before, after, dir)
                            &&& r == match next_after_delete(before, after, dir) {
                                Some(p) => seq![Act::Load(id, p, AfterLoad::Navigate(dir))],
                                None => Seq::<Act>::empty(),
                            }
                        },
                        AfterLoad::Reload if known => {
                            &&& after == before
                            &&& r == seq![Act::Send(id, MsgView::Reload)]
                        },
                        _ => {
                            &&& after == before
                            &&& r == Seq::<Act>::empty()
                        },
                    }
                },
            }
        })
    }

    /// A document was read, or could not be read (`None`), for the window
    /// with the id, as an `Action::Load` asked; `then` is what that action
    /// said. A read document is shown in the window. Then: a shown document
    /// asked with `Push` becomes the newest item of the history; a document
    /// that could not be read while moving in the history is deleted from
    /// it, and the next one that way is read; a reloaded window is told to
    /// reload. Nothing happens for a window that was closed meanwhile.
    pub fn loaded_parsed(
        &mut self,
        id: u64,
        path: String,
        doc: Option<(MarkdownContent, Vec<(MdEvent, Range<usize>)>)>,
        then: AfterLoad,
    ) -> (r: Vec<Action>)
        requires
            old(self).wf(),
            doc matches Some(d) ==> events_ok_from(d.1@, 0),
        ensures
            final(self).wf(),
            old(self).load_outcome(&*final(self), id, path@, match doc {
                Some(d) => Some((d.0, d.1@)),
                None => None,
            }, then, acts(r@)),
    {
        let mut out: Vec<Action> = Vec::new();
        let known = self.known(id);
        if !known {
            assert(acts(out@) =~= Seq::<Act>::empty());
            return out;
        }
        match doc {
            Some((content, events)) => {
                let ghost c = content;
                let ghost ev = events@;
                self.show_document(id, path.as_str(), content, events, &mut out);
                let ghost shown = acts(out@);
                match then {
                    AfterLoad::Push => self.history.push(path),
                    AfterLoad::Reload => emit(&mut out, Action::Send { id, message: MessageToWindow::Reload }),
                    _ => {},
                }
                assert(acts(out@) =~= shown + if then == AfterLoad::Reload {
                    seq![Act::Send(id, MsgView::Reload)]
                } else {
                    Seq::<Act>::empty()
                });
            },
            None => {
                assert(acts(out@) =~= Seq::<Act>::empty());
                match then {
                    AfterLoad::Navigate(dir) => {
                        let next = match self.history.delete(dir) {
                            Some(p) => Some(p.clone()),
                            None => None,
                        };
                        match next {
                            Some(p) => emit(&mut out, Action::Load { id, path: p, then: AfterLoad::Navigate(dir) }),
                            None => {},
                        }
                    },
                    AfterLoad::Reload => emit(&mut out, Action::Send { id, message: MessageToWindow::Reload }),
                    _ => {},
                }
            },
        }
        out
    }

    /// A document was read, or could not be read (`None`), for the window
    /// with the id, as an `Action::Load` asked; `then` is what that action
    /// said. A read document is parsed and shown, and the rest goes as
    /// `loaded_parsed` says. Nothing changes, and nothing is asked for, when
    /// the parser's events cannot be rendered, which a Markdown parser never
    /// gives.
    pub fn loaded(&mut self, id: u64, path: String, doc: Option<MarkdownContent>, then: AfterLoad) -> (r: Vec<Action>)
        requires
            old(self).wf(),
        ensures
            final(self).wf(),
            match doc {
                Some(c) => if events_ok_from(markdown_events(c.spec_source()), 0) {
                    old(self).load_outcome(&*final(self), id, path@, Some((c, markdown_events(c.spec_source()))), then, acts(r@))
                } else {
                    &&& *final(self) == *old(self)
                    &&& acts(r@) == Seq::<Act>::empty()
                },
                None => old(self).load_outcome(&*final(self), id, path@, None, then, acts(r@)),
            },
    {
        match doc {
            Some(c) => {
                let events = parse_markdown(c.source());
                if events_ok(events.as_slice()) {
                    self.loaded_parsed(id, path, Some((c, events)), then)
                } else {
                    let out: Vec<Action> = Vec::new();
                    assert(acts(out@) =~= Seq::<Act>::empty());
                    out
                }
            },
            None => self.loaded_parsed(id, path, None, then),
        }
    }
}


/// The title of the error shown when the persistent data could not be
/// saved as the application quits.
pub open spec fn quit_error_title() -> Seq<char> {
    "Error while the application quits"@
}

/// The title of the error shown when an application event could not be
/// handled.
pub open spec fn event_error_title() -> Seq<char> {
    "Could not handle application event"@
}

/// The title of the error shown when a window event could not be handled.
pub open spec fn window_error_title() -> Seq<char> {
    "Could not handle window event"@
}

/// The index of the first occurrence of a path, or -1.
pub open spec fn first_index(s: Seq<Seq<char>>, x: Seq<char>, from: int) -> int
    decreases s.len() - from,
{
    if from < 0 || from >= s.len() {
        -1
    } else if s[from] == x {
        from
    } else {
        first_index(s, x, from + 1)
    }
}

proof fn lemma_first_index(s: Seq<Seq<char>>, x: Seq<char>, from: int)
    requires
        0 <= from,
    ensures
        first_index(s, x, from) >= 0 ==> from <= first_index(s, x, from) < s.len() && s[first_index(s, x, from)] == x,
        first_index(s, x, from) < 0 ==> forall|j: int| from <= j < s.len() ==> s[j] != x,
        first_index(s, x, from) >= 0 || first_index(s, x, from) == -1,
    decreases s.len() - from,
{
    if from < s.len() && s[from] != x {
        lemma_first_index(s, x, from + 1);
    }
}

/// What handling changed files has found after looking at some windows:
/// the documents to read again, the changed paths not matched yet, the
/// paths already matched, and whether the focused window is among the
/// windows updated.
pub struct ScanState {
    pub acts: Seq<Act>,
    pub paths: Seq<Seq<char>>,
    pub updated: Seq<Seq<char>>,
    pub focused_updated: bool,
}

/// The windows are looked at in turn: a window showing one of the changed
/// paths takes that path out of the changed ones (the last one moves into
/// its place) and reads it again; a window showing a path that another
/// window took reads it again too.
pub open spec fn scan_windows<W>(wm: WindowManager<W>, focused: u64, paths: Seq<Seq<char>>, k: nat) -> ScanState
    decreases k,
{
    if k == 0 {
        ScanState { acts: Seq::empty(), paths, updated: Seq::empty(), focused_updated: false }
    } else {
        let st = scan_windows(wm, focused, paths, (k - 1) as nat);
        let id = wm.spec_ids()[k - 1];
        let p = wm.spec_preview_of(id).spec_path();
        let idx = first_index(st.paths, p, 0);
        if idx >= 0 {
            ScanState {
                acts: st.acts.push(Act::Load(id, p, AfterLoad::Nothing)),
                paths: st.paths.update(idx, st.paths.last()).drop_last(),
                updated: st.updated.push(p),
                focused_updated: st.focused_updated || id == focused,
            }
        } else if st.updated.contains(p) {
            ScanState {
                acts: st.acts.push(Act::Load(id, p, AfterLoad::Nothing)),
                paths: st.paths,
                updated: st.updated,
                focused_updated: st.focused_updated || id == focused,
            }
        } else {
            st
        }
    }
}

/// Handling changed files: every window showing a changed path reads it
/// again; when the focused window is not among them, it shows the last of
/// the changed paths left, which becomes the newest item of the history.
pub open spec fn file_changes_acts<W>(wm: WindowManager<W>, focused: u64, paths: Seq<Seq<char>>) -> Seq<Act> {
    let st = scan_windows(wm, focused, paths, wm.spec_ids().len());
    st.acts + if !st.focused_updated && st.paths.len() > 0 {
        seq![Act::Load(focused, st.paths.last(), AfterLoad::Push)]
    } else {
        Seq::empty()
    }
}

impl<W> Shiba<W> {
    fn alert(&mut self, title: &str, message: String, out: &mut Vec<Action>)
        requires
            old(self).wf(),
        ensures
            final(self).wf(),
            final(self).same_setup(old(self)),
            final(self).spec_windows() == old(self).spec_windows(),
            final(self).spec_history() == old(self).spec_history(),
            final(self).spec_init_files() == old(self).spec_init_files(),
            final(self).spec_exit_status() == 1,
            acts(final(out)@) == acts(old(out)@).push(Act::Alert(title@, message@)),
    {
        self.exit_status = 1;
        emit(out, Action::Alert { title: String::from_str(title), message });
    }

    /// Takes what came of saving the persistent data when the application
    /// quits (`Action::Save`): the application exits with its status, which
    /// a failure to save sets to 1 once the failure is reported.
    pub fn saved(&mut self, result: Result<(), String>) -> (r: (RenderingFlow, Vec<Action>))
        requires
            old(self).wf(),
        ensures
            final(self).wf(),
            final(self).same_setup(old(self)),
            final(self).spec_windows() == old(self).spec_windows(),
            final(self).spec_history() == old(self).spec_history(),
            final(self).spec_init_files() == old(self).spec_init_files(),
            match result {
                Ok(_) => {
                    &&& final(self).spec_exit_status() == old(self).spec_exit_status()
                    &&& r.0 == RenderingFlow::Exit(old(self).spec_exit_status())
                    &&& acts(r.1@) == Seq::<Act>::empty()
                },
                Err(m) => {
                    &&& final(self).spec_exit_status() == 1
                    &&& r.0 == RenderingFlow::Exit(1)
                    &&& acts(r.1@) == seq![Act::Alert(quit_error_title(), m@)]
                },
            },
    {
        let mut out: Vec<Action> = Vec::new();
        match result {
            Ok(_) => {
                assert(acts(out@) =~= Seq::<Act>::empty());
            },
            Err(m) => {
                self.alert("Error while the application quits", m, &mut out);
                assert(acts(out@) =~= seq![Act::Alert(quit_error_title(), m@)]);
            },
        }
        (RenderingFlow::Exit(self.exit_status), out)
    }

    /// Reports that an action failed, with the title of the call that asked
    /// for it: the error is shown and the application will exit with 1.
    pub fn on_error(&mut self, title: &str, message: String) -> (r: Vec<Action>)
        requires
            old(self).wf(),
        ensures
            final(self).wf(),
            final(self).same_setup(old(self)),
            final(self).spec_windows() == old(self).spec_windows(),
            final(self).spec_history() == old(self).spec_history(),
            final(self).spec_init_files() == old(self).spec_init_files(),
            final(self).spec_exit_status() == 1,
            acts(r@) == seq![Act::Alert(title@, message@)],
    {
        let mut out: Vec<Action> = Vec::new();
        self.alert(title, message, &mut out);
        assert(acts(out@) =~= seq![Act::Alert(title@, message@)]);
        out
    }

    /// Files were picked for the window with the id, as an
    /// `Action::PickFiles` asked. For a new window, each file is opened in a
    /// window of its own. Else all but the last are watched and pushed to
    /// the history in turn, and the last is opened in the window; when that
    /// window was closed meanwhile, the error is shown.
    pub fn files_picked(&mut self, id: u64, files: Vec<String>, new_window: bool) -> (r: Vec<Action>)
        requires
            old(self).wf(),
        ensures
            final(self).wf(),
            final(self).same_setup(old(self)),
            final(self).spec_windows() == old(self).spec_windows(),
            new_window ==> {
                &&& final(self).spec_history() == old(self).spec_history()
                &&& final(self).spec_exit_status() == old(self).spec_exit_status()
                &&& final(self).spec_init_files() == old(self).spec_init_files()
                    + path_views(files@).map_values(|p: Seq<char>| (p, None::<ScrollView>))
                &&& acts(r@) == Seq::new(files@.len(), |i: int| Act::CreateWindow)
            },
            !new_window && files@.len() == 0 ==> {
                &&& final(self).spec_history() == old(self).spec_history()
                &&& final(self).spec_exit_status() == old(self).spec_exit_status()
                &&& final(self).spec_init_files() == old(self).spec_init_files()
                &&& acts(r@) == Seq::<Act>::empty()
            },
            !new_window && files@.len() > 0 ==> {
                let rest = path_views(files@).drop_last();
                let last = path_views(files@).last();
                let known = old(self).has_window(id);
                &&& final(self).spec_history().spec_max_items() == old(self).spec_history().spec_max_items()
                &&& final(self).spec_history().spec_items() == pushed_all(
                    old(self).spec_history().spec_items(),
                    old(self).spec_history().spec_max_items(),
                    rest,
                )
                &&& final(self).spec_init_files() == old(self).spec_init_files()
                &&& final(self).spec_exit_status() == if known { old(self).spec_exit_status() } else { 1 }
                &&& acts(r@) == rest.map_values(|p: Seq<char>| Act::Watch(p))
                    + open_preview_acts(known, id, (last, None))
                    + if known { Seq::empty() } else { seq![Act::Alert(event_error_title(), unknown_window_message(id))] }
            },
    {
        let mut out: Vec<Action> = Vec::new();
        let mut files = files;
        let ghost fs = files@;
        if new_window {
            let mut i: usize = 0;
            while i < files.len()
                invariant
                    i <= files@.len(),
                    files@ == fs,
                    self.wf(),
                    self.same_setup(old(self)),
                    self.spec_windows() == old(self).spec_windows(),
                    self.spec_history() == old(self).spec_history(),
                    self.spec_exit_status() == old(self).spec_exit_status(),
                    self.spec_init_files() == old(self).spec_init_files()
                        + path_views(fs.take(i as int)).map_values(|p: Seq<char>| (p, None::<ScrollView>)),
                    acts(out@) == Seq::new(i as nat, |j: int| Act::CreateWindow),
                decreases files.len() - i,
            {
                let f = InitFile::from_path(files[i].clone());
                self.open_window(f, &mut out);
                proof {
                    assert(fs.take(i + 1) =~= fs.take(i as int).push(fs[i as int]));
                    assert(path_views(fs.take(i + 1)) =~= path_views(fs.take(i as int)).push(fs[i as int]@));
                    assert(path_views(fs.take(i + 1)).map_values(|p: Seq<char>| (p, None::<ScrollView>))
                        =~= path_views(fs.take(i as int)).map_values(|p: Seq<char>| (p, None::<ScrollView>)).push((fs[i as int]@, None::<ScrollView>)));
                    assert(Seq::new((i + 1) as nat, |j: int| Act::CreateWindow) =~= Seq::new(i as nat, |j: int| Act::CreateWindow).push(Act::CreateWindow));
                }
                i = i + 1;
            }
            assert(fs.take(i as int) =~= fs);
            return out;
        }
        let last = match files.pop() {
            Some(l) => l,
            None => {
                assert(acts(out@) =~= Seq::<Act>::empty());
                return out;
            },
        };
        let ghost rest = path_views(files@);
        assert(rest =~= path_views(fs).drop_last());
        let mut i: usize = 0;
        while i < files.len()
            invariant
                i <= files@.len(),
                rest == path_views(files@),
                self.wf(),
                self.same_setup(old(self)),
                self.spec_windows() == old(self).spec_windows(),
                self.spec_init_files() == old(self).spec_init_files(),
                self.spec_exit_status() == old(self).spec_exit_status(),
                self.spec_history().spec_max_items() == old(self).spec_history().spec_max_items(),
                self.spec_history().spec_items() == pushed_all(
                    old(self).spec_history().spec_items(),
                    old(self).spec_history().spec_max_items(),
                    rest.take(i as int),
                ),
                acts(out@) == rest.take(i as int).map_values(|p: Seq<char>| Act::Watch(p)),
            decreases files.len() - i,
        {
            emit(&mut out, Action::Watch(files[i].clone()));
            self.history.push(files[i].clone());
            proof {
                assert(rest.take(i + 1) =~= rest.take(i as int).push(rest[i as int]));
                assert(rest.take(i + 1).drop_last() =~= rest.take(i as int));
                assert(rest.take(i + 1).map_values(|p: Seq<char>| Act::Watch(p))
                    =~= rest.take(i as int).map_values(|p: Seq<char>| Act::Watch(p)).push(Act::Watch(rest[i as int])));
            }
            i = i + 1;
        }
        assert(rest.take(i as int) =~= rest);
        let ghost a1 = acts(out@);
        let ghost known = self.has_window(id);
        let ghost lastv = last@;
        match self.open_preview(id, InitFile::from_path(last), &mut out) {
            Ok(()) => {
                assert(acts(out@) =~= a1 + open_preview_acts(known, id, (lastv, None)) + Seq::<Act>::empty());
            },
            Err(e) => {
                let ghost a2 = acts(out@);
                proof {
                    reveal_strlit("Could not handle application event");
                }
                self.alert("Could not handle application event", e, &mut out);
                assert(acts(out@) =~= a2.push(Act::Alert(event_error_title(), unknown_window_message(id))));
            },
        }
        out
    }

    fn file_changes(&mut self, paths: Vec<String>, out: &mut Vec<Action>)
        requires
            old(self).wf(),
            old(self).spec_windows().spec_focused_id() is Some,
        ensures
            *final(self) == *old(self),
            acts(final(out)@) == acts(old(out)@) + file_changes_acts(
                old(self).spec_windows(),
                old(self).spec_windows().spec_focused_id().unwrap(),
                path_views(paths@),
            ),
    {
        let ghost a0 = acts(out@);
        let ghost wm = self.windows;
        let focused = match self.windows.focused_id() {
            Ok(f) => f,
            Err(_) => 0,
        };
        let ids = self.windows.ids();
        let mut paths = paths;
        let ghost paths0 = path_views(paths@);
        let mut updated: Vec<String> = Vec::new();
        let mut focused_updated = false;
        let mut k: usize = 0;
        while k < ids.len()
            invariant
                k <= ids@.len(),
                ids@ == wm.spec_ids(),
                self.windows == wm,
                wm.wf(),
                ({
                    let st = scan_windows(wm, focused, paths0, k as nat);
                    &&& acts(out@) == a0 + st.acts
                    &&& path_views(paths@) == st.paths
                    &&& path_views(updated@) == st.updated
                    &&& focused_updated == st.focused_updated
                }),
            decreases ids.len() - k,
        {
            let id = ids[k];
            let ghost st = scan_windows(wm, focused, paths0, k as nat);
            assert(wm.spec_ids().contains(id)) by {
                assert(wm.spec_ids()[k as int] == id);
            }
            let pv = match self.windows.preview(id) {
                Some(p) => p.path(),
                None => "",
            };
            let ghost pp = pv@;
            let idx = self.position_of(&paths, pv);
            proof {
                lemma_first_index(path_views(paths@), pp, 0);
            }
            if idx < paths.len() {
                assert(path_views(paths@)[idx as int] == pp);
                let path = paths.swap_remove(idx);
                proof {
                    assert(path_views(paths@) =~= st.paths.update(idx as int, st.paths.last()).drop_last());
                }
                let ghost u = updated@;
                updated.push(String::from_str(path.as_str()));
                assert(path_views(updated@) =~= path_views(u).push(pp));
                emit(out, Action::Load { id, path, then: AfterLoad::Nothing });
                if id == focused {
                    focused_updated = true;
                }
            } else if self.contains_path(&updated, pv) {
                emit(out, Action::Load { id, path: String::from_str(pv), then: AfterLoad::Nothing });
                if id == focused {
                    focused_updated = true;
                }
            }
            proof {
                let st2 = scan_windows(wm, focused, paths0, (k + 1) as nat);
                assert(st2.acts == st.acts || st2.acts == st.acts.push(Act::Load(id, pp, AfterLoad::Nothing)));
            }
            assert(acts(out@) =~= a0 + scan_windows(wm, focused, paths0, (k + 1) as nat).acts);
            k = k + 1;
        }
        let ghost st = scan_windows(wm, focused, paths0, ids@.len());
        if !focused_updated && paths.len() > 0 {
            match paths.pop() {
                Some(path) => emit(out, Action::Load { id: focused, path, then: AfterLoad::Push }),
                None => {},
            }
        }
        assert(acts(out@) =~= a0 + file_changes_acts(wm, focused, paths0));
    }

    fn position_of(&self, paths: &Vec<String>, p: &str) -> (i: usize)
        ensures
            i <= paths@.len(),
            first_index(path_views(paths@), p@, 0) == if i < paths@.len() { i as int } else { -1 },
    {
        let mut i: usize = 0;
        while i < paths.len()
            invariant
                i <= paths@.len(),
                first_index(path_views(paths@), p@, 0) == first_index(path_views(paths@), p@, i as int),
            decreases paths.len() - i,
        {
            if same_str(paths[i].as_str(), p) {
                return i;
            }
            i = i + 1;
        }
        i
    }

    fn contains_path(&self, paths: &Vec<String>, p: &str) -> (b: bool)
        ensures
            b == path_views(paths@).contains(p@),
    {
        let mut i: usize = 0;
        while i < paths.len()
            invariant
                i <= paths@.len(),
                forall|j: int| 0 <= j < i ==> paths@[j]@ != p@,
            decreases paths.len() - i,
        {
            if same_str(paths[i].as_str(), p) {
                assert(path_views(paths@)[i as int] == p@);
                return true;
            }
            i = i + 1;
        }
        assert(!path_views(paths@).contains(p@)) by {
            if path_views(paths@).contains(p@) {
                let j = choose|j: int| 0 <= j < path_views(paths@).len() && path_views(paths@)[j] == p@;
                assert(paths@[j]@ == p@);
            }
        }
        false
    }
}


/// Whether a message is about the window that sent it, which must then be
/// open.
pub open spec fn needs_window(msg: MessageFromWindow) -> bool {
    match msg {
        MessageFromWindow::OpenFile { .. } | MessageFromWindow::NewWindow { .. } | MessageFromWindow::CloseWindow
        | MessageFromWindow::CloseAllOtherWindows | MessageFromWindow::EditConfig | MessageFromWindow::Error { .. } => false,
        _ => true,
    }
}

/// The message of the error that a page reports.
pub open spec fn page_error_message(message: Seq<char>) -> Seq<char> {
    "Error reported from renderer: "@ + message
}

impl<W> Shiba<W> {
    /// The actions for a message from the page in an open window, other
    /// than a search. The page is set up when it is ready: the debug
    /// features when they are on, then the configuration, then the window
    /// is shown and opens the first document waiting for a window, or the
    /// welcome page.
    pub open spec fn message_acts(&self, id: u64, msg: MessageFromWindow, facts: WindowFacts) -> Seq<Act> {
        let empty = preview_empty(self.preview_of(id));
        let h = self.spec_history();
        match msg {
            MessageFromWindow::Init => (if self.spec_debug() { seq![Act::Send(id, MsgView::Debug)] } else { Seq::empty() })
                + seq![Act::Send(id, MsgView::Config(self.spec_keymaps(), self.spec_search(), self.spec_home_dir(), facts.appearance)), Act::Show(id)]
                + if self.spec_init_files().len() > 0 {
                    open_preview_acts(true, id, self.spec_init_files()[0])
                } else {
                    seq![Act::Send(id, MsgView::Welcome)]
                },
            MessageFromWindow::GoForward => navigate_acts(id, empty, h, Direction::Forward),
            MessageFromWindow::GoBack => navigate_acts(id, empty, h, Direction::Back),
            MessageFromWindow::GoTop => navigate_acts(id, empty, h, Direction::Top),
            MessageFromWindow::History => seq![Act::Send(id, MsgView::History(h.spec_items()))],
            MessageFromWindow::Reload => reload_acts(id, empty, h),
            MessageFromWindow::FileDialog => seq![Act::PickFiles(id, false)],
            MessageFromWindow::FileDialogNewWindow => seq![Act::PickFiles(id, true)],
            MessageFromWindow::DirDialog => seq![Act::PickDirs(id)],
            MessageFromWindow::OpenFile { path } => open_preview_acts(self.has_window(id), id, (path@, None)),
            MessageFromWindow::ZoomIn => zoom_acts(id, true, facts.zoom_level),
            MessageFromWindow::ZoomOut => zoom_acts(id, false, facts.zoom_level),
            MessageFromWindow::DragWindow => seq![Act::DragWindow(id)],
            MessageFromWindow::ToggleMaximized => seq![Act::Maximize(id, !facts.maximized)],
            MessageFromWindow::ToggleMinimized => seq![Act::Minimize(id, !facts.minimized)],
            MessageFromWindow::NewWindow { .. } => seq![Act::CreateWindow],
            MessageFromWindow::DuplicateWindow { .. } => seq![Act::CreateWindow],
            MessageFromWindow::CloseWindow => if self.spec_windows().spec_ids().len() == 1 && self.has_window(id) {
                seq![Act::Hide(id), Act::Save(id)]
            } else {
                Seq::empty()
            },
            MessageFromWindow::Quit => seq![Act::Hide(id), Act::Save(id)],
            MessageFromWindow::ToggleMenuBar => seq![Act::ToggleMenu(id)],
            MessageFromWindow::ToggleAlwaysOnTop => seq![
                Act::SetAlwaysOnTop(id, !facts.always_on_top),
                Act::Send(id, MsgView::AlwaysOnTop(!facts.always_on_top)),
            ],
            MessageFromWindow::EditConfig => seq![Act::OpenConfig],
            _ => Seq::empty(),
        }
    }

    /// How handling a message from an open window ends: an error for a
    /// message from a window that is not open (a file to open is watched
    /// first) or for an error that the page reports; the exit of the
    /// application for quitting or closing the last window.
    pub open spec fn message_result(&self, id: u64, msg: MessageFromWindow) -> Result<RenderingFlow, Seq<char>> {
        if needs_window(msg) && !self.has_window(id) {
            Err(unknown_window_message(id))
        } else {
            match msg {
                MessageFromWindow::OpenFile { .. } => if self.has_window(id) {
                    Ok(RenderingFlow::Continue)
                } else {
                    Err(unknown_window_message(id))
                },
                MessageFromWindow::Error { message } => Err(page_error_message(message@)),
                MessageFromWindow::Quit => Ok(RenderingFlow::Continue),
                _ => Ok(RenderingFlow::Continue),
            }
        }
    }

    /// The state after a message from a window: the first document waiting
    /// for a window is taken when a page is ready; a new or duplicated
    /// window waits for its document; moving in the history moves it;
    /// closing windows closes them; nothing else changes.
    pub open spec fn message_state(&self, after: &Self, id: u64, msg: MessageFromWindow) -> bool {
        &&& after.wf()
        &&& after.same_setup(self)
        &&& if needs_window(msg) && !self.has_window(id) {
            &&& after.spec_windows() == self.spec_windows()
            &&& after.spec_history() == self.spec_history()
            &&& after.spec_init_files() == self.spec_init_files()
        } else {
            &&& match msg {
                MessageFromWindow::CloseWindow => if self.spec_windows().spec_ids().len() == 1 && self.has_window(id) {
                    after.spec_windows() == self.spec_windows()
                } else {
                    window_closed(self.spec_windows(), after.spec_windows(), id)
                },
                MessageFromWindow::CloseAllOtherWindows => others_closed(self.spec_windows(), after.spec_windows(), id),
                _ => after.spec_windows() == self.spec_windows(),
            }
            &&& match msg {
                MessageFromWindow::GoForward | MessageFromWindow::GoBack | MessageFromWindow::GoTop => {
                    let dir = if msg is GoForward {
                        Direction::Forward
                    } else if msg is GoBack {
                        Direction::Back
                    } else {
                        Direction::Top
                    };
                    &&& after.spec_history().spec_items() == self.spec_history().spec_items()
                    &&& after.spec_history().spec_max_items() == self.spec_history().spec_max_items()
                    &&& after.spec_history().spec_index() == if preview_empty(self.preview_of(id)) {
                        self.spec_history().spec_index()
                    } else {
                        moved_index(self.spec_history().spec_index(), self.spec_history().spec_items().len(), dir)
                    }
                },
                _ => after.spec_history() == self.spec_history(),
            }
            &&& after.spec_init_files() == match msg {
                MessageFromWindow::Init => if self.spec_init_files().len() > 0 {
                    self.spec_init_files().drop_first()
                } else {
                    self.spec_init_files()
                },
                MessageFromWindow::NewWindow { path } => match path {
                    Some(p) => self.spec_init_files().push((p@, None)),
                    None => self.spec_init_files(),
                },
                MessageFromWindow::DuplicateWindow { heading } => if preview_empty(self.preview_of(id)) {
                    self.spec_init_files()
                } else {
                    self.spec_init_files().push((self.preview_of(id).spec_path(), match heading {
                        Some(i) => Some(ScrollView::Heading(i)),
                        None => None,
                    }))
                },
                _ => self.spec_init_files(),
            }
        }
    }
}


fn message_needs_window(msg: &MessageFromWindow) -> (b: bool)
    ensures
        b == needs_window(*msg),
{
    match msg {
        MessageFromWindow::OpenFile { .. } | MessageFromWindow::NewWindow { .. } | MessageFromWindow::CloseWindow
        | MessageFromWindow::CloseAllOtherWindows | MessageFromWindow::EditConfig | MessageFromWindow::Error { .. } => false,
        _ => true,
    }
}

impl<W> Shiba<W> {
    fn history_paths(&self) -> (v: Vec<String>)
        ensures
            path_views(v@) == self.spec_history().spec_items(),
    {
        let v = self.history.items();
        assert(path_views(v@) =~= self.spec_history().spec_items());
        v
    }

    fn home_dir_copy(&self) -> (h: Option<String>)
        ensures
            match h {
                Some(s) => self.spec_home_dir() == Some(s@),
                None => self.spec_home_dir() is None,
            },
    {
        match &self.home_dir {
            Some(h) => Some(h.clone()),
            None => None,
        }
    }

    fn keymaps_copy(&self) -> (k: Vec<(String, KeyAction)>)
        ensures
            keymap_views(k@) == self.spec_keymaps(),
    {
        let mut k: Vec<(String, KeyAction)> = Vec::new();
        let mut i: usize = 0;
        while i < self.keymaps.len()
            invariant
                i <= self.keymaps@.len(),
                keymap_views(k@) == keymap_views(self.keymaps@.take(i as int)),
            decreases self.keymaps.len() - i,
        {
            let key = self.keymaps[i].0.clone();
            let action = self.keymaps[i].1;
            let ghost before = k@;
            k.push((key, action));
            proof {
                let t = self.keymaps@.take(i + 1);
                assert(t =~= self.keymaps@.take(i as int).push(self.keymaps@[i as int]));
                assert(keymap_views(t) =~= keymap_views(self.keymaps@.take(i as int)).push((key@, action)));
                assert(k@ =~= before.push((key, action)));
                assert(keymap_views(k@) =~= keymap_views(before).push((key@, action)));
            }
            i = i + 1;
        }
        assert(self.keymaps@.take(i as int) =~= self.keymaps@);
        k
    }

    fn init_page(&mut self, id: u64, facts: WindowFacts, out: &mut Vec<Action>)
        requires
            old(self).wf(),
            old(self).has_window(id),
        ensures
            old(self).message_state(&*final(self), id, MessageFromWindow::Init),
            final(self).spec_exit_status() == old(self).spec_exit_status(),
            acts(final(out)@) == acts(old(out)@) + old(self).message_acts(id, MessageFromWindow::Init, facts),
    {
        let ghost a0 = acts(out@);
        if self.debug {
            emit(out, Action::Send { id, message: MessageToWindow::Debug });
        }
        let home = self.home_dir_copy();
        let keymaps = self.keymaps_copy();
        emit(out, Action::Send { id, message: MessageToWindow::Config { keymaps, search: self.search, home, window: facts.appearance } });
        emit(out, Action::Show(id));
        let ghost a1 = acts(out@);
        assert(a1 =~= a0 + (if self.spec_debug() { seq![Act::Send(id, MsgView::Debug)] } else { Seq::<Act>::empty() })
            + seq![Act::Send(id, MsgView::Config(self.spec_keymaps(), self.spec_search(), self.spec_home_dir(), facts.appearance)), Act::Show(id)]);
        if self.init_files.len() > 0 {
            let ghost files = self.init_files@;
            let file = self.init_files.remove(0);
            assert(file_views(self.init_files@) =~= file_views(files).drop_first());
            assert(file_view(file) == file_views(files)[0]);
            let r = self.open_preview(id, file, out);
            assert(acts(out@) =~= a0 + old(self).message_acts(id, MessageFromWindow::Init, facts));
        } else {
            emit(out, Action::Send { id, message: MessageToWindow::Welcome });
            assert(acts(out@) =~= a0 + old(self).message_acts(id, MessageFromWindow::Init, facts));
        }
    }

    fn window_message(&mut self, id: u64, msg: MessageFromWindow, facts: WindowFacts, out: &mut Vec<Action>) -> (r: Result<RenderingFlow, String>)
        requires
            old(self).wf(),
            facts.zoom_level.valid(),
        ensures
            old(self).message_state(&*final(self), id, msg),
            final(self).spec_exit_status() == old(self).spec_exit_status(),
            match old(self).message_result(id, msg) {
                Ok(f) => r == Ok::<RenderingFlow, String>(f),
                Err(e) => r matches Err(m) && m@ == e,
            },
            !(msg is Search) || !old(self).has_window(id) ==> acts(final(out)@) == acts(old(out)@) + if needs_window(msg) && !old(self).has_window(id) {
                Seq::empty()
            } else {
                old(self).message_acts(id, msg, facts)
            },
            match msg {
                MessageFromWindow::Search { query, index, matcher } => old(self).has_window(id) ==> {
                    &&& acts(final(out)@).len() == acts(old(out)@).len() + 1
                    &&& acts(final(out)@).take(acts(old(out)@).len() as int) == acts(old(out)@)
                    &&& acts(final(out)@).last() matches Act::SendRaw(i, b) && i == id
                        && old(self).preview_of(id).spec_search_render(query@, index, matcher, b)
                },
                _ => true,
            },
    {
        let ghost a0 = acts(out@);
        if message_needs_window(&msg) && !self.known(id) {
            assert(acts(out@) =~= a0 + Seq::<Act>::empty());
            return Err(unknown_window(id));
        }
        let ghost known = self.has_window(id);
        match msg {
            MessageFromWindow::Init => {
                self.init_page(id, facts, out);
                Ok(RenderingFlow::Continue)
            },
            MessageFromWindow::Search { query, index, matcher } => {
                let bytes = match self.windows.preview(id) {
                    Some(p) => p.search(query.as_str(), index, matcher),
                    None => Vec::new(),
                };
                emit(out, Action::SendRaw { id, bytes });
                assert(acts(out@).take(a0.len() as int) =~= a0);
                Ok(RenderingFlow::Continue)
            },
            MessageFromWindow::GoForward => {
                self.navigate(id, Direction::Forward, out);
                Ok(RenderingFlow::Continue)
            },
            MessageFromWindow::GoBack => {
                self.navigate(id, Direction::Back, out);
                Ok(RenderingFlow::Continue)
            },
            MessageFromWindow::GoTop => {
                self.navigate(id, Direction::Top, out);
                Ok(RenderingFlow::Continue)
            },
            MessageFromWindow::History => {
                let paths = self.history_paths();
                emit(out, Action::Send { id, message: MessageToWindow::History { paths } });
                assert(acts(out@) =~= a0 + old(self).message_acts(id, msg, facts));
                Ok(RenderingFlow::Continue)
            },
            MessageFromWindow::Reload => {
                self.reload(id, out);
                Ok(RenderingFlow::Continue)
            },
            MessageFromWindow::FileDialog => {
                emit(out, Action::PickFiles { id, new_window: false });
                assert(acts(out@) =~= a0 + old(self).message_acts(id, msg, facts));
                Ok(RenderingFlow::Continue)
            },
            MessageFromWindow::FileDialogNewWindow => {
                emit(out, Action::PickFiles { id, new_window: true });
                assert(acts(out@) =~= a0 + old(self).message_acts(id, msg, facts));
                Ok(RenderingFlow::Continue)
            },
            MessageFromWindow::DirDialog => {
                emit(out, Action::PickDirs(id));
                assert(acts(out@) =~= a0 + old(self).message_acts(id, msg, facts));
                Ok(RenderingFlow::Continue)
            },
            MessageFromWindow::OpenFile { path } => {
                match self.open_preview(id, InitFile::from_path(path), out) {
                    Ok(()) => Ok(RenderingFlow::Continue),
                    Err(e) => Err(e),
                }
            },
            MessageFromWindow::ZoomIn => {
                self.zoom(id, true, facts.zoom_level, out);
                Ok(RenderingFlow::Continue)
            },
            MessageFromWindow::ZoomOut => {
                self.zoom(id, false, facts.zoom_level, out);
                Ok(RenderingFlow::Continue)
            },
            MessageFromWindow::DragWindow => {
                emit(out, Action::DragWindow(id));
                assert(acts(out@) =~= a0 + old(self).message_acts(id, msg, facts));
                Ok(RenderingFlow::Continue)
            },
            MessageFromWindow::ToggleMaximized => {
                emit(out, Action::Maximize { id, maximized: !facts.maximized });
                assert(acts(out@) =~= a0 + old(self).message_acts(id, msg, facts));
                Ok(RenderingFlow::Continue)
            },
            MessageFromWindow::ToggleMinimized => {
                emit(out, Action::Minimize { id, minimized: !facts.minimized });
                assert(acts(out@) =~= a0 + old(self).message_acts(id, msg, facts));
                Ok(RenderingFlow::Continue)
            },
            MessageFromWindow::NewWindow { path } => {
                match path {
                    None => emit(out, Action::CreateWindow),
                    Some(p) => self.open_window(InitFile::from_path(p), out),
                }
                assert(acts(out@) =~= a0 + old(self).message_acts(id, msg, facts));
                Ok(RenderingFlow::Continue)
            },
            MessageFromWindow::DuplicateWindow { heading } => {
                let scroll = match heading {
                    Some(i) => InitScroll::Heading(i),
                    None => InitScroll::Nop,
                };
                self.duplicate_window(id, scroll, out);
                assert(acts(out@) =~= a0 + old(self).message_acts(id, msg, facts));
                Ok(RenderingFlow::Continue)
            },
            MessageFromWindow::CloseWindow => {
                let flow = self.close_window(id, out);
                assert(acts(out@) =~= a0 + old(self).message_acts(id, msg, facts));
                Ok(flow)
            },
            MessageFromWindow::CloseAllOtherWindows => {
                self.close_other_windows(id);
                assert(acts(out@) =~= a0 + old(self).message_acts(id, msg, facts));
                Ok(RenderingFlow::Continue)
            },
            MessageFromWindow::Quit => {
                let flow = self.quit(id, out);
                Ok(flow)
            },
            MessageFromWindow::ToggleMenuBar => {
                emit(out, Action::ToggleMenu(id));
                assert(acts(out@) =~= a0 + old(self).message_acts(id, msg, facts));
                Ok(RenderingFlow::Continue)
            },
            MessageFromWindow::ToggleAlwaysOnTop => {
                let pinned = !facts.always_on_top;
                emit(out, Action::SetAlwaysOnTop { id, pinned });
                emit(out, Action::Send { id, message: MessageToWindow::AlwaysOnTop { pinned } });
                assert(acts(out@) =~= a0 + old(self).message_acts(id, msg, facts));
                Ok(RenderingFlow::Continue)
            },
            MessageFromWindow::EditConfig => {
                emit(out, Action::OpenConfig);
                assert(acts(out@) =~= a0 + old(self).message_acts(id, msg, facts));
                Ok(RenderingFlow::Continue)
            },
            MessageFromWindow::Error { message } => {
                let mut m = String::from_str("Error reported from renderer: ");
                m.append(message.as_str());
                proof {
                    reveal_strlit("Error reported from renderer: ");
                }
                assert(acts(out@) =~= a0 + old(self).message_acts(id, msg, facts));
                Err(m)
            },
        }
    }
}


/// The message from a window that a menu item does the same as.
pub open spec fn menu_message(item: MenuItem) -> Option<MessageFromWindow> {
    match item {
        MenuItem::Quit => Some(MessageFromWindow::Quit),
        MenuItem::Forward => Some(MessageFromWindow::GoForward),
        MenuItem::Back => Some(MessageFromWindow::GoBack),
        MenuItem::Top => Some(MessageFromWindow::GoTop),
        MenuItem::Reload => Some(MessageFromWindow::Reload),
        MenuItem::OpenFiles => Some(MessageFromWindow::FileDialog),
        MenuItem::OpenFilesInNewWindow => Some(MessageFromWindow::FileDialogNewWindow),
        MenuItem::WatchDirs => Some(MessageFromWindow::DirDialog),
        MenuItem::ZoomIn => Some(MessageFromWindow::ZoomIn),
        MenuItem::ZoomOut => Some(MessageFromWindow::ZoomOut),
        MenuItem::ToggleMenuBar => Some(MessageFromWindow::ToggleMenuBar),
        MenuItem::History => Some(MessageFromWindow::History),
        MenuItem::ToggleAlwaysOnTop => Some(MessageFromWindow::ToggleAlwaysOnTop),
        MenuItem::ToggleMinimizeWindow => Some(MessageFromWindow::ToggleMinimized),
        MenuItem::ToggleMaximizeWindow => Some(MessageFromWindow::ToggleMaximized),
        MenuItem::NewWindow => Some(MessageFromWindow::NewWindow { path: None }),
        MenuItem::DuplicateWindow => Some(MessageFromWindow::DuplicateWindow { heading: None }),
        MenuItem::CloseWindow => Some(MessageFromWindow::CloseWindow),
        MenuItem::CloseAllOtherWindows => Some(MessageFromWindow::CloseAllOtherWindows),
        MenuItem::EditConfig => Some(MessageFromWindow::EditConfig),
        _ => None,
    }
}

/// The repository of the application, which a menu item opens.
pub open spec fn repository_url() -> Seq<char> {
    "https://github.com/rhysd/Shiba"@
}

fn menu_message_of(item: MenuItem) -> (m: Option<MessageFromWindow>)
    ensures
        m == menu_message(item),
{
    match item {
        MenuItem::Quit => Some(MessageFromWindow::Quit),
        MenuItem::Forward => Some(MessageFromWindow::GoForward),
        MenuItem::Back => Some(MessageFromWindow::GoBack),
        MenuItem::Top => Some(MessageFromWindow::GoTop),
        MenuItem::Reload => Some(MessageFromWindow::Reload),
        MenuItem::OpenFiles => Some(MessageFromWindow::FileDialog),
        MenuItem::OpenFilesInNewWindow => Some(MessageFromWindow::FileDialogNewWindow),
        MenuItem::WatchDirs => Some(MessageFromWindow::DirDialog),
        MenuItem::ZoomIn => Some(MessageFromWindow::ZoomIn),
        MenuItem::ZoomOut => Some(MessageFromWindow::ZoomOut),
        MenuItem::ToggleMenuBar => Some(MessageFromWindow::ToggleMenuBar),
        MenuItem::History => Some(MessageFromWindow::History),
        MenuItem::ToggleAlwaysOnTop => Some(MessageFromWindow::ToggleAlwaysOnTop),
        MenuItem::ToggleMinimizeWindow => Some(MessageFromWindow::ToggleMinimized),
        MenuItem::ToggleMaximizeWindow => Some(MessageFromWindow::ToggleMaximized),
        MenuItem::NewWindow => Some(MessageFromWindow::NewWindow { path: None }),
        MenuItem::DuplicateWindow => Some(MessageFromWindow::DuplicateWindow { heading: None }),
        MenuItem::CloseWindow => Some(MessageFromWindow::CloseWindow),
        MenuItem::CloseAllOtherWindows => Some(MessageFromWindow::CloseAllOtherWindows),
        MenuItem::EditConfig => Some(MessageFromWindow::EditConfig),
        _ => None,
    }
}

impl<W> Shiba<W> {
    /// The actions of a menu item that no message from a window does: the
    /// search and outline items and help are told to the page, printing
    /// prints a window that shows a document, and the repository is opened.
    pub open spec fn menu_acts(&self, id: u64, item: MenuItem) -> Seq<Act> {
        match item {
            MenuItem::Search => seq![Act::Send(id, MsgView::Search)],
            MenuItem::SearchNext => seq![Act::Send(id, MsgView::SearchNext)],
            MenuItem::SearchPrevious => seq![Act::Send(id, MsgView::SearchPrevious)],
            MenuItem::Outline => seq![Act::Send(id, MsgView::Outline)],
            MenuItem::Help => seq![Act::Send(id, MsgView::Help)],
            MenuItem::Print => if preview_empty(self.preview_of(id)) { Seq::empty() } else { seq![Act::Print(id)] },
            MenuItem::OpenRepo => seq![Act::Open(repository_url())],
            MenuItem::DeleteHistory => seq![Act::ConfirmDeleteHistory(id)],
            _ => Seq::empty(),
        }
    }

    /// The user answered whether to delete all the history, as an
    /// `Action::ConfirmDeleteHistory` for the window with the id asked: on
    /// yes, the history is emptied and the window's page cache deleted; on
    /// no, nothing happens.
    pub fn history_deletion_answered(&mut self, id: u64, yes: bool) -> (r: Vec<Action>)
        requires
            old(self).wf(),
        ensures
            final(self).wf(),
            final(self).same_setup(old(self)),
            final(self).spec_windows() == old(self).spec_windows(),
            final(self).spec_init_files() == old(self).spec_init_files(),
            final(self).spec_exit_status() == old(self).spec_exit_status(),
            yes ==> final(self).spec_history().spec_items() == Seq::<Seq<char>>::empty()
                && final(self).spec_history().spec_index() == 0
                && final(self).spec_history().spec_max_items() == old(self).spec_history().spec_max_items()
                && acts(r@) == seq![Act::DeleteCache(id)],
            !yes ==> final(self).spec_history() == old(self).spec_history() && acts(r@) == Seq::<Act>::empty(),
    {
        let mut out: Vec<Action> = Vec::new();
        if yes {
            self.history.clear();
            emit(&mut out, Action::DeleteCache(id));
            assert(acts(out@) =~= seq![Act::DeleteCache(id)]);
        } else {
            assert(acts(out@) =~= Seq::<Act>::empty());
        }
        out
    }

    /// A menu item was chosen: it acts on the focused window, or on the
    /// first one open when none has focus.
    fn menu_item(&mut self, item: MenuItem, facts: WindowFacts, out: &mut Vec<Action>) -> (r: RenderingFlow)
        requires
            old(self).wf(),
            facts.zoom_level.valid(),
            old(self).spec_windows().spec_focused_id() is Some,
        ensures
            ({
                let id = old(self).spec_windows().spec_focused_id().unwrap();
                match menu_message(item) {
                    Some(msg) => {
                        &&& old(self).message_state(&*final(self), id, msg)
                        &&& final(self).spec_exit_status() == old(self).spec_exit_status()
                        &&& old(self).message_result(id, msg) == Ok::<RenderingFlow, Seq<char>>(r)
                        &&& acts(final(out)@) == acts(old(out)@) + old(self).message_acts(id, msg, facts)
                    },
                    None => {
                        &&& *final(self) == *old(self)
                        &&& r == RenderingFlow::Continue
                        &&& acts(final(out)@) == acts(old(out)@) + old(self).menu_acts(id, item)
                    },
                }
            }),
    {
        let ghost a0 = acts(out@);
        let id = match self.windows.focused_id() {
            Ok(id) => id,
            Err(_) => 0,
        };
        assert(self.has_window(id)) by {
            if self.spec_windows().spec_focused() is None {
                assert(self.spec_windows().spec_ids()[0] == id);
            }
        }
        match menu_message_of(item) {
            Some(msg) => {
                match self.window_message(id, msg, facts, out) {
                    Ok(flow) => flow,
                    Err(_) => RenderingFlow::Continue,
                }
            },
            None => {
                match item {
                    MenuItem::Search => emit(out, Action::Send { id, message: MessageToWindow::Search }),
                    MenuItem::SearchNext => emit(out, Action::Send { id, message: MessageToWindow::SearchNext }),
                    MenuItem::SearchPrevious => emit(out, Action::Send { id, message: MessageToWindow::SearchPrevious }),
                    MenuItem::Outline => emit(out, Action::Send { id, message: MessageToWindow::Outline }),
                    MenuItem::Help => emit(out, Action::Send { id, message: MessageToWindow::Help }),
                    MenuItem::Print => {
                        if !self.is_empty_preview(id) {
                            emit(out, Action::Print(id));
                        }
                    },
                    MenuItem::OpenRepo => {
                        proof {
                            reveal_strlit("https://github.com/rhysd/Shiba");
                        }
                        emit(out, Action::Open(String::from_str("https://github.com/rhysd/Shiba")));
                    },
                    MenuItem::DeleteHistory => emit(out, Action::ConfirmDeleteHistory(id)),
                    _ => {},
                }
                assert(acts(out@) =~= a0 + old(self).menu_acts(id, item));
                RenderingFlow::Continue
            },
        }
    }
}


impl<W> Shiba<W> {
    /// Whether a path is a document to preview: an existing file, not a
    /// directory, with one of the extensions.
    pub open spec fn is_document(&self, path: Seq<char>, is_file: bool) -> bool {
        is_file && match path_extension(path) {
            Some(e) => self.spec_extensions().contains(e),
            None => false,
        }
    }

    /// The window that a menu item acts on.
    pub open spec fn menu_window(&self) -> u64 {
        self.spec_windows().spec_focused_id().unwrap()
    }

    /// Everything but the exit status stays the same.
    pub open spec fn unchanged(&self, after: &Self) -> bool {
        &&& after.wf()
        &&& after.same_setup(self)
        &&& after.spec_windows() == self.spec_windows()
        &&& after.spec_history() == self.spec_history()
        &&& after.spec_init_files() == self.spec_init_files()
    }

    /// The actions for an event, other than a search from a window. A
    /// dropped file is opened in the window; a clicked local link opens the
    /// document in the window, or any other path with the program the
    /// system chooses; a new window opens a document, or asks the system to
    /// open any other path.
    pub open spec fn event_acts(&self, event: AppEvent, facts: WindowFacts) -> Seq<Act> {
        match event {
            AppEvent::WindowMessage { message, id } => if needs_window(message) && !self.has_window(id) {
                Seq::empty()
            } else {
                self.message_acts(id, message, facts)
            },
            AppEvent::FileDrop { path, id } => open_preview_acts(self.has_window(id), id, (path@, None)),
            AppEvent::WatchedFilesChanged(paths) => file_changes_acts(self.spec_windows(), self.menu_window(), path_views(paths@)),
            AppEvent::OpenLocalPath { file, id, is_file } => if self.is_document(file.path@, is_file) {
                open_preview_acts(self.has_window(id), id, file_view(file))
            } else {
                seq![Act::Open(file.path@)]
            },
            AppEvent::OpenExternalLink(link) => seq![Act::Open(link@)],
            AppEvent::Menu(item) => match menu_message(item) {
                Some(m) => self.message_acts(self.menu_window(), m, facts),
                None => self.menu_acts(self.menu_window(), item),
            },
            AppEvent::NewWindow { init_file, is_file } => match init_file {
                Some(f) => if self.is_document(f.path@, is_file) {
                    seq![Act::CreateWindow]
                } else {
                    seq![Act::Open(f.path@)]
                },
                None => seq![Act::CreateWindow],
            },
            AppEvent::DuplicateWindow { scroll, id } => if self.has_window(id) { seq![Act::CreateWindow] } else { Seq::empty() },
            AppEvent::ProcessSingleton { paths } => self.hand_over_acts(paths),
            AppEvent::Error(_) => Seq::empty(),
        }
    }

    /// How handling an event ends.
    pub open spec fn event_result(&self, event: AppEvent) -> Result<RenderingFlow, Seq<char>> {
        match event {
            AppEvent::WindowMessage { message, id } => self.message_result(id, message),
            AppEvent::FileDrop { id, .. } => if self.has_window(id) {
                Ok(RenderingFlow::Continue)
            } else {
                Err(unknown_window_message(id))
            },
            AppEvent::OpenLocalPath { file, id, is_file } => if self.is_document(file.path@, is_file) && !self.has_window(id) {
                Err(unknown_window_message(id))
            } else {
                Ok(RenderingFlow::Continue)
            },
            AppEvent::Menu(item) => match menu_message(item) {
                Some(m) => self.message_result(self.menu_window(), m),
                None => Ok(RenderingFlow::Continue),
            },
            AppEvent::DuplicateWindow { id, .. } => if self.has_window(id) {
                Ok(RenderingFlow::Continue)
            } else {
                Err(unknown_window_message(id))
            },
            AppEvent::Error(message) => Err(message@),
            _ => Ok(RenderingFlow::Continue),
        }
    }

    /// The state after an event, but for the exit status: a new window for
    /// a document waits for it; a duplicated window waits for the document
    /// of the window it duplicates.
    pub open spec fn event_state(&self, after: &Self, event: AppEvent) -> bool {
        match event {
            AppEvent::WindowMessage { message, id } => self.message_state(after, id, message),
            AppEvent::Menu(item) => match menu_message(item) {
                Some(m) => self.message_state(after, self.menu_window(), m),
                None => self.unchanged(after),
            },
            AppEvent::NewWindow { init_file, is_file } => {
                &&& after.wf()
                &&& after.same_setup(self)
                &&& after.spec_windows() == self.spec_windows()
                &&& after.spec_history() == self.spec_history()
                &&& after.spec_init_files() == match init_file {
                    Some(f) => if self.is_document(f.path@, is_file) {
                        self.spec_init_files().push(file_view(f))
                    } else {
                        self.spec_init_files()
                    },
                    None => self.spec_init_files(),
                }
            },
            AppEvent::ProcessSingleton { paths } => {
                &&& after.wf()
                &&& after.same_setup(self)
                &&& after.spec_windows() == self.spec_windows()
                &&& after.spec_history() == self.spec_history()
                &&& after.spec_init_files() == if paths.spec_is_empty() {
                    self.spec_init_files()
                } else {
                    self.spec_init_files() + path_views(paths.additional_windows@).map_values(|p: Seq<char>| (p, None::<ScrollView>))
                }
            },
            AppEvent::DuplicateWindow { scroll, id } => {
                &&& after.wf()
                &&& after.same_setup(self)
                &&& after.spec_windows() == self.spec_windows()
                &&& after.spec_history() == self.spec_history()
                &&& after.spec_init_files() == if self.has_window(id) && !preview_empty(self.preview_of(id)) {
                    self.spec_init_files().push((self.preview_of(id).spec_path(), scroll_of(scroll)))
                } else {
                    self.spec_init_files()
                }
            },
            _ => self.unchanged(after),
        }
    }

    /// Paths handed over by another process: nothing asks for a new window;
    /// else the paths to watch are watched, the file to open first is opened
    /// in the focused window, which comes to the front, and each further
    /// file waits for a window of its own.
    pub open spec fn hand_over_acts(&self, paths: PathArgs) -> Seq<Act> {
        if paths.spec_is_empty() {
            seq![Act::CreateWindow]
        } else {
            path_views(paths.watched@).map_values(|p: Seq<char>| Act::Watch(p))
                + match paths.init {
                    Some(i) => open_preview_acts(true, self.menu_window(), (i@, None))
                        + seq![Act::Focus(self.menu_window())],
                    None => Seq::empty(),
                }
                + Seq::new(paths.additional_windows@.len(), |k: int| Act::CreateWindow)
        }
    }

    /// Whether the event is a search sent by a window that is open.
    pub open spec fn is_search(&self, event: AppEvent) -> bool {
        event matches AppEvent::WindowMessage { message, id } && message is Search && self.has_window(id)
    }

    fn is_document_path(&self, path: &str, is_file: bool) -> (b: bool)
        ensures
            b == self.is_document(path@, is_file),
    {
        is_file && self.extensions.matches(path)
    }

    fn handle_event(&mut self, event: AppEvent, facts: WindowFacts, out: &mut Vec<Action>) -> (r: Result<RenderingFlow, String>)
        requires
            old(self).wf(),
            facts.zoom_level.valid(),
            old(self).spec_windows().spec_ids().len() > 0,
        ensures
            old(self).event_state(&*final(self), event),
            final(self).spec_exit_status() == old(self).spec_exit_status(),
            match old(self).event_result(event) {
                Ok(f) => r == Ok::<RenderingFlow, String>(f),
                Err(e) => r matches Err(m) && m@ == e,
            },
            !old(self).is_search(event) ==> acts(final(out)@) == acts(old(out)@) + old(self).event_acts(event, facts),
            match event {
                AppEvent::WindowMessage { message: MessageFromWindow::Search { query, index, matcher }, id } => old(self).has_window(id) ==> {
                    &&& acts(final(out)@).len() == acts(old(out)@).len() + 1
                    &&& acts(final(out)@).take(acts(old(out)@).len() as int) == acts(old(out)@)
                    &&& acts(final(out)@).last() matches Act::SendRaw(i, b) && i == id
                        && old(self).preview_of(id).spec_search_render(query@, index, matcher, b)
                },
                _ => true,
            },
    {
        let ghost a0 = acts(out@);
        proof {
            if old(self).spec_windows().spec_focused() is None {
                assert(old(self).spec_windows().spec_ids().len() > 0);
            }
        }
        match event {
            AppEvent::WindowMessage { message, id } => self.window_message(id, message, facts, out),
            AppEvent::FileDrop { path, id } => {
                match self.open_preview(id, InitFile::from_path(path), out) {
                    Ok(()) => Ok(RenderingFlow::Continue),
                    Err(e) => Err(e),
                }
            },
            AppEvent::WatchedFilesChanged(paths) => {
                self.file_changes(paths, out);
                Ok(RenderingFlow::Continue)
            },
            AppEvent::OpenLocalPath { file, id, is_file } => {
                if self.is_document_path(file.path.as_str(), is_file) {
                    match self.open_preview(id, file, out) {
                        Ok(()) => Ok(RenderingFlow::Continue),
                        Err(e) => Err(e),
                    }
                } else {
                    emit(out, Action::Open(file.path));
                    Ok(RenderingFlow::Continue)
                }
            },
            AppEvent::OpenExternalLink(link) => {
                emit(out, Action::Open(link));
                Ok(RenderingFlow::Continue)
            },
            AppEvent::Menu(item) => Ok(self.menu_item(item, facts, out)),
            AppEvent::NewWindow { init_file, is_file } => {
                match init_file {
                    None => emit(out, Action::CreateWindow),
                    Some(file) => {
                        if self.is_document_path(file.path.as_str(), is_file) {
                            self.open_window(file, out);
                        } else {
                            emit(out, Action::Open(file.path));
                        }
                    },
                }
                Ok(RenderingFlow::Continue)
            },
            AppEvent::DuplicateWindow { scroll, id } => {
                if !self.known(id) {
                    assert(acts(out@) =~= a0 + Seq::<Act>::empty());
                    return Err(unknown_window(id));
                }
                self.duplicate_window(id, scroll, out);
                Ok(RenderingFlow::Continue)
            },
            AppEvent::ProcessSingleton { paths } => {
                self.hand_over(paths, out);
                Ok(RenderingFlow::Continue)
            },
            AppEvent::Error(message) => {
                assert(acts(out@) =~= a0 + Seq::<Act>::empty());
                Err(message)
            },
        }
    }

    fn watch_all(&self, paths: Vec<String>, out: &mut Vec<Action>)
        ensures
            acts(final(out)@) == acts(old(out)@) + path_views(paths@).map_values(|p: Seq<char>| Act::Watch(p)),
    {
        let ghost a0 = acts(out@);
        let mut i: usize = 0;
        while i < paths.len()
            invariant
                i <= paths@.len(),
                acts(out@) == a0 + path_views(paths@.take(i as int)).map_values(|p: Seq<char>| Act::Watch(p)),
            decreases paths.len() - i,
        {
            emit(out, Action::Watch(paths[i].clone()));
            proof {
                let v = paths@;
                assert(v.take(i + 1) =~= v.take(i as int).push(v[i as int]));
                assert(path_views(v.take(i + 1)).map_values(|p: Seq<char>| Act::Watch(p))
                    =~= path_views(v.take(i as int)).map_values(|p: Seq<char>| Act::Watch(p)).push(Act::Watch(v[i as int]@)));
            }
            i = i + 1;
        }
        assert(paths@.take(i as int) =~= paths@);
    }

    fn open_windows(&mut self, paths: Vec<String>, out: &mut Vec<Action>)
        requires
            old(self).wf(),
        ensures
            final(self).wf(),
            final(self).same_setup(old(self)),
            final(self).spec_windows() == old(self).spec_windows(),
            final(self).spec_history() == old(self).spec_history(),
            final(self).spec_exit_status() == old(self).spec_exit_status(),
            final(self).spec_init_files() == old(self).spec_init_files()
                + path_views(paths@).map_values(|p: Seq<char>| (p, None::<ScrollView>)),
            acts(final(out)@) == acts(old(out)@) + Seq::new(paths@.len(), |k: int| Act::CreateWindow),
    {
        let ghost a0 = acts(out@);
        let mut i: usize = 0;
        while i < paths.len()
            invariant
                i <= paths@.len(),
                self.wf(),
                self.same_setup(old(self)),
                self.spec_windows() == old(self).spec_windows(),
                self.spec_history() == old(self).spec_history(),
                self.spec_exit_status() == old(self).spec_exit_status(),
                self.spec_init_files() == old(self).spec_init_files()
                    + path_views(paths@.take(i as int)).map_values(|p: Seq<char>| (p, None::<ScrollView>)),
                acts(out@) == a0 + Seq::new(i as nat, |k: int| Act::CreateWindow),
            decreases paths.len() - i,
        {
            self.open_window(InitFile::from_path(paths[i].clone()), out);
            proof {
                let v = paths@;
                assert(v.take(i + 1) =~= v.take(i as int).push(v[i as int]));
                assert(path_views(v.take(i + 1)).map_values(|p: Seq<char>| (p, None::<ScrollView>))
                    =~= path_views(v.take(i as int)).map_values(|p: Seq<char>| (p, None::<ScrollView>)).push((v[i as int]@, None::<ScrollView>)));
                assert(Seq::new((i + 1) as nat, |k: int| Act::CreateWindow) =~= Seq::new(i as nat, |k: int| Act::CreateWindow).push(Act::CreateWindow));
            }
            i = i + 1;
        }
        assert(paths@.take(i as int) =~= paths@);
    }

    fn hand_over(&mut self, paths: PathArgs, out: &mut Vec<Action>)
        requires
            old(self).wf(),
            old(self).spec_windows().spec_ids().len() > 0,
        ensures
            old(self).event_state(&*final(self), AppEvent::ProcessSingleton { paths }),
            final(self).spec_exit_status() == old(self).spec_exit_status(),
            acts(final(out)@) == acts(old(out)@) + old(self).hand_over_acts(paths),
    {
        let ghost a0 = acts(out@);
        let ghost p0 = paths;
        if paths.is_empty() {
            emit(out, Action::CreateWindow);
            return;
        }
        let id = match self.windows.focused_id() {
            Ok(id) => id,
            Err(_) => 0,
        };
        assert(self.has_window(id)) by {
            if self.spec_windows().spec_focused() is None {
                assert(self.spec_windows().spec_ids()[0] == id);
            }
        }
        let PathArgs { init, watched, additional_windows } = paths;
        self.watch_all(watched, out);
        let ghost a1 = acts(out@);
        match init {
            Some(path) => {
                let _opened = self.open_preview(id, InitFile::from_path(path), out);
                emit(out, Action::Focus(id));
            },
            None => {},
        }
        let ghost a2 = acts(out@);
        self.open_windows(additional_windows, out);
        assert(acts(out@) =~= a0 + old(self).hand_over_acts(p0));
    }
}


impl<W> Shiba<W> {
    /// Handles an event; `facts` is the state of the window the event is
    /// about (for a menu item, the focused window). With no window open the
    /// event is ignored. An error is shown, and the application will exit
    /// with 1, while the event loop goes on.
    pub fn on_event(&mut self, event: AppEvent, facts: WindowFacts) -> (r: (RenderingFlow, Vec<Action>))
        requires
            old(self).wf(),
            facts.zoom_level.valid(),
        ensures
            final(self).wf(),
            old(self).spec_windows().spec_ids().len() == 0 ==> {
                &&& old(self).unchanged(&*final(self))
                &&& final(self).spec_exit_status() == old(self).spec_exit_status()
                &&& r.0 == RenderingFlow::Continue
                &&& acts(r.1@) == Seq::<Act>::empty()
            },
            old(self).spec_windows().spec_ids().len() > 0 ==> {
                &&& old(self).event_state(&*final(self), event)
                &&& match old(self).event_result(event) {
                    Ok(f) => {
                        &&& r.0 == f
                        &&& final(self).spec_exit_status() == old(self).spec_exit_status()
                        &&& !old(self).is_search(event) ==> acts(r.1@) == old(self).event_acts(event, facts)
                    },
                    Err(e) => {
                        &&& r.0 == RenderingFlow::Continue
                        &&& final(self).spec_exit_status() == 1
                        &&& acts(r.1@) == old(self).event_acts(event, facts).push(Act::Alert(event_error_title(), e))
                    },
                }
                &&& match event {
                    AppEvent::WindowMessage { message: MessageFromWindow::Search { query, index, matcher }, id } => old(self).has_window(id) ==> {
                        &&& acts(r.1@).len() == 1
                        &&& acts(r.1@)[0] matches Act::SendRaw(i, b) && i == id
                            && old(self).preview_of(id).spec_search_render(query@, index, matcher, b)
                    },
                    _ => true,
                }
            },
    {
        let mut out: Vec<Action> = Vec::new();
        if self.windows.ids().len() == 0 {
            assert(acts(out@) =~= Seq::<Act>::empty());
            return (RenderingFlow::Continue, out);
        }
        let ghost search = old(self).is_search(event);
        match self.handle_event(event, facts, &mut out) {
            Ok(flow) => (flow, out),
            Err(e) => {
                proof {
                    reveal_strlit("Could not handle application event");
                    assert(!search);
                }
                self.alert("Could not handle application event", e, &mut out);
                (RenderingFlow::Continue, out)
            },
        }
    }

    /// Handles what happened to the window with the id: a created window is
    /// managed with an empty preview and gets focus; a minimized or restored
    /// window saves or regains memory; a focused window gets focus; a
    /// closed window is closed, and closing the last one exits. With no
    /// window open, only a created window is handled. An error is shown,
    /// and the application will exit with 1.
    pub fn on_window(&mut self, id: u64, event: WindowEvent<W>) -> (r: (RenderingFlow, Vec<Action>))
        requires
            old(self).wf(),
        ensures
            final(self).wf(),
            final(self).same_setup(old(self)),
            final(self).spec_history() == old(self).spec_history(),
            final(self).spec_init_files() == old(self).spec_init_files(),
            old(self).spec_windows().spec_ids().len() == 0 && !(event is Created) ==> {
                &&& final(self).spec_windows() == old(self).spec_windows()
                &&& final(self).spec_exit_status() == old(self).spec_exit_status()
                &&& r.0 == RenderingFlow::Continue
                &&& acts(r.1@) == Seq::<Act>::empty()
            },
            old(self).spec_windows().spec_ids().len() > 0 || event is Created ==> match event {
                WindowEvent::Created(_) => {
                    &&& final(self).spec_windows().spec_ids() == if old(self).has_window(id) {
                        old(self).spec_windows().spec_ids()
                    } else {
                        old(self).spec_windows().spec_ids().push(id)
                    }
                    &&& final(self).spec_windows().spec_focused() == Some(id)
                    &&& preview_empty(final(self).preview_of(id))
                    &&& final(self).preview_of(id).spec_path().len() == 0
                    &&& forall|x: u64| x != id && #[trigger] old(self).has_window(x) ==> final(self).preview_of(x) == old(self).preview_of(x)
                    &&& final(self).spec_windows().spec_home_dir() == old(self).spec_windows().spec_home_dir()
                    &&& final(self).spec_exit_status() == old(self).spec_exit_status()
                    &&& r.0 == RenderingFlow::Continue
                    &&& acts(r.1@) == Seq::<Act>::empty()
                },
                WindowEvent::Minimized(low) => {
                    &&& final(self).spec_windows() == old(self).spec_windows()
                    &&& r.0 == RenderingFlow::Continue
                    &&& old(self).has_window(id) ==> {
                        &&& final(self).spec_exit_status() == old(self).spec_exit_status()
                        &&& acts(r.1@) == seq![Act::SaveMemory(id, low)]
                    }
                    &&& !old(self).has_window(id) ==> {
                        &&& final(self).spec_exit_status() == 1
                        &&& acts(r.1@) == seq![Act::Alert(window_error_title(), unknown_window_message(id))]
                    }
                },
                WindowEvent::Focused => {
                    &&& final(self).spec_windows().spec_ids() == old(self).spec_windows().spec_ids()
                    &&& final(self).spec_windows().spec_previews() == old(self).spec_windows().spec_previews()
                    &&& final(self).spec_windows().spec_focused() == if old(self).has_window(id) {
                        Some(id)
                    } else {
                        old(self).spec_windows().spec_focused()
                    }
                    &&& final(self).spec_exit_status() == old(self).spec_exit_status()
                    &&& r.0 == RenderingFlow::Continue
                    &&& acts(r.1@) == Seq::<Act>::empty()
                },
                WindowEvent::Closed => {
                    let last = old(self).spec_windows().spec_ids().len() == 1 && old(self).has_window(id);
                    &&& final(self).spec_exit_status() == old(self).spec_exit_status()
                    &&& last ==> {
                        &&& final(self).spec_windows() == old(self).spec_windows()
                        &&& r.0 == RenderingFlow::Continue
                        &&& acts(r.1@) == seq![Act::Hide(id), Act::Save(id)]
                    }
                    &&& !last ==> {
                        &&& window_closed(old(self).spec_windows(), final(self).spec_windows(), id)
                        &&& r.0 == RenderingFlow::Continue
                        &&& acts(r.1@) == Seq::<Act>::empty()
                    }
                },
            },
    {
        let mut out: Vec<Action> = Vec::new();
        let no_window = self.windows.ids().len() == 0;
        match event {
            WindowEvent::Created(window) => {
                self.windows.add(id, window);
                assert(acts(out@) =~= Seq::<Act>::empty());
                (RenderingFlow::Continue, out)
            },
            WindowEvent::Minimized(low) => {
                if no_window {
                    assert(acts(out@) =~= Seq::<Act>::empty());
                    return (RenderingFlow::Continue, out);
                }
                if self.known(id) {
                    emit(&mut out, Action::SaveMemory { id, low });
                } else {
                    proof {
                        reveal_strlit("Could not handle window event");
                    }
                    let e = unknown_window(id);
                    self.alert("Could not handle window event", e, &mut out);
                }
                (RenderingFlow::Continue, out)
            },
            WindowEvent::Focused => {
                if no_window {
                    assert(acts(out@) =~= Seq::<Act>::empty());
                    return (RenderingFlow::Continue, out);
                }
                self.windows.set_focus(id);
                assert(acts(out@) =~= Seq::<Act>::empty());
                (RenderingFlow::Continue, out)
            },
            WindowEvent::Closed => {
                if no_window {
                    assert(acts(out@) =~= Seq::<Act>::empty());
                    return (RenderingFlow::Continue, out);
                }
                let flow = self.close_window(id, &mut out);
                (flow, out)
            },
        }
    }
}


impl<W> Shiba<W> {
    /// The windows and their previews.
    pub fn windows(&self) -> (w: &WindowManager<W>)
        ensures
            *w == self.spec_windows(),
    {
        &self.windows
    }

    /// The history of opened documents.
    pub fn history(&self) -> (h: &History)
        ensures
            *h == self.spec_history(),
    {
        &self.history
    }

    /// The status that the application exits with.
    pub fn exit_status(&self) -> (s: i32)
        ensures
            s == self.spec_exit_status(),
    {
        self.exit_status
    }

    /// How many documents wait for the windows that were asked for.
    pub fn pending_files(&self) -> (n: usize)
        ensures
            n == self.spec_init_files().len(),
    {
        self.init_files.len()
    }
}


/// A test of the running application that sends it a fixed series of
/// messages through a handle: two documents are opened, the history is
/// walked back and forth, the document reloaded, the window maximized and
/// restored, and the application quit.
pub struct SanityTest<H> {
    handle: H,
}

/// The messages of the sanity test, as values: the paths of the two
/// documents it opens, then the steps after them.
pub open spec fn sanity_paths(cwd: Seq<char>) -> (Seq<char>, Seq<char>) {
    (cwd + "/README.md"@, cwd + "/docs/installation.md"@)
}

impl<H> SanityTest<H> {
    /// A test that sends through the given handle.
    pub fn new(handle: H) -> (t: SanityTest<H>)
        ensures
            t.spec_handle() == handle,
    {
        SanityTest { handle }
    }

    /// The handle that messages go through.
    pub closed spec fn spec_handle(&self) -> H {
        self.handle
    }

    /// The handle.
    pub fn handle(&self) -> (h: &H)
        ensures
            *h == self.spec_handle(),
    {
        &self.handle
    }

    /// The messages that the test sends in turn, for the documents of the
    /// repository at `cwd`.
    pub fn messages(&self, cwd: &str) -> (m: Vec<MessageFromWindow>)
        ensures
            m@.len() == 8,
            m@[0] matches MessageFromWindow::OpenFile { path } && path@ == sanity_paths(cwd@).0,
            m@[1] matches MessageFromWindow::OpenFile { path } && path@ == sanity_paths(cwd@).1,
            m@[2] is GoBack,
            m@[3] is GoForward,
            m@[4] is Reload,
            m@[5] is ToggleMaximized,
            m@[6] is ToggleMaximized,
            m@[7] is Quit,
    {
        let mut readme = String::from_str(cwd);
        readme.append("/README.md");
        let mut installation = String::from_str(cwd);
        installation.append("/docs/installation.md");
        vec![
            MessageFromWindow::OpenFile { path: readme },
            MessageFromWindow::OpenFile { path: installation },
            MessageFromWindow::GoBack,
            MessageFromWindow::GoForward,
            MessageFromWindow::Reload,
            MessageFromWindow::ToggleMaximized,
            MessageFromWindow::ToggleMaximized,
            MessageFromWindow::Quit,
        ]
    }
}

/// The items of a history after the paths were pushed in turn.
pub open spec fn pushed_all(items: Seq<Seq<char>>, max: nat, paths: Seq<Seq<char>>) -> Seq<Seq<char>>
    decreases paths.len(),
{
    if paths.len() == 0 {
        items
    } else {
        pushed_items(pushed_all(items, max, paths.drop_last()), max, paths.last())
    }
}

impl<W> Shiba<W> {
    /// The History menu items move the history of the focused window the
    /// way their names say: "Forward" goes forward, "Back" goes back and
    /// "Latest" goes to the newest item, each as the window's own message of
    /// that direction does; the first document that way is read and the
    /// history moves there. "Reload" reloads the focused window and "Zoom In"
    /// and "Zoom Out" zoom it a step in and out.
    pub proof fn law_history_menu_items_navigate(&self, after: &Self, facts: WindowFacts)
        requires
            self.wf(),
            self.spec_windows().spec_ids().len() > 0,
        ensures
            ({
                let id = self.menu_window();
                let empty = preview_empty(self.preview_of(id));
                let h = self.spec_history();
                let moved_to = |dir: Direction| if empty {
                    h.spec_index()
                } else {
                    moved_index(h.spec_index(), h.spec_items().len(), dir)
                };
                &&& self.event_acts(AppEvent::Menu(MenuItem::Forward), facts) == navigate_acts(id, empty, h, Direction::Forward)
                &&& self.event_acts(AppEvent::Menu(MenuItem::Back), facts) == navigate_acts(id, empty, h, Direction::Back)
                &&& self.event_acts(AppEvent::Menu(MenuItem::Top), facts) == navigate_acts(id, empty, h, Direction::Top)
                &&& self.event_acts(AppEvent::Menu(MenuItem::Reload), facts) == reload_acts(id, empty, h)
                &&& self.event_acts(AppEvent::Menu(MenuItem::ZoomIn), facts) == zoom_acts(id, true, facts.zoom_level)
                &&& self.event_acts(AppEvent::Menu(MenuItem::ZoomOut), facts) == zoom_acts(id, false, facts.zoom_level)
                &&& self.event_state(after, AppEvent::Menu(MenuItem::Forward))
                    ==> after.spec_history().spec_index() == moved_to(Direction::Forward)
                &&& self.event_state(after, AppEvent::Menu(MenuItem::Back))
                    ==> after.spec_history().spec_index() == moved_to(Direction::Back)
                &&& self.event_state(after, AppEvent::Menu(MenuItem::Top))
                    ==> after.spec_history().spec_index() == moved_to(Direction::Top)
            }),
    {
        self.spec_windows().law_focus_names_open_window();
        assert(self.has_window(self.menu_window()));
    }
}

} // verus!
