use shiba_preview::cli::PathArgs;
use shiba_preview::config::{FileExtensions, KeyAction, Search, SearchMatcher, UserConfig};
use shiba_preview::content::MarkdownContent;
use shiba_preview::events::{MdEvent, MdTag, MdTagEnd};
use shiba_preview::history::{Direction, History};
use shiba_preview::renderer::{InitFile, InitScroll, MenuItem, RenderingFlow, WindowAppearance, WindowEvent};
use shiba_preview::shiba::{Action, AfterLoad, AppEvent, MessageFromWindow, MessageToWindow, SanityTest, Shiba, WindowFacts};
use shiba_preview::zoom::ZoomLevel;
use std::ops::Range;

type Ev = (MdEvent, Range<usize>);

fn facts() -> WindowFacts {
    WindowFacts {
        zoom_level: ZoomLevel::default(),
        always_on_top: false,
        maximized: false,
        minimized: false,
        appearance: WindowAppearance { title: true, vibrancy: false, scroll_bar: true, border_top: false },
    }
}

fn md() -> FileExtensions {
    FileExtensions(vec!["md".to_string(), "markdown".to_string()])
}

fn para(text: &str) -> Vec<Ev> {
    let n = text.len();
    vec![
        (MdEvent::Start(MdTag::Paragraph), 0..n),
        (MdEvent::Text(text.to_string()), 0..n),
        (MdEvent::End(MdTagEnd::Paragraph), 0..n),
    ]
}

fn doc(text: &str, dir: &str) -> Option<(MarkdownContent, Vec<Ev>)> {
    Some((MarkdownContent::new(text.to_string(), Some(dir)), para(text)))
}

fn app(init: &[&str]) -> Shiba<()> {
    let (mut s, actions) = Shiba::new(
        vec![],
        init.iter().map(|p| p.to_string()).collect(),
        History::new(10),
        false,
        Some("/home/u".to_string()),
        md(),
        UserConfig::default().keymaps,
        Search { matcher: SearchMatcher::CaseSensitive },
    );
    assert!(actions.iter().all(|a| matches!(a, Action::CreateWindow)));
    let (flow, actions) = s.on_window(1, WindowEvent::Created(()));
    assert!(matches!(flow, RenderingFlow::Continue));
    assert!(actions.is_empty());
    s
}

fn message(s: &mut Shiba<()>, id: u64, m: MessageFromWindow) -> (RenderingFlow, Vec<Action>) {
    s.on_event(AppEvent::WindowMessage { message: m, id }, facts())
}

#[test]
fn start_watches_paths_and_asks_windows() {
    let (s, actions): (Shiba<()>, _) = Shiba::new(
        vec!["/a/dir".to_string(), "/a/b.md".to_string()],
        vec!["/a/c.md".to_string(), "/a/d.md".to_string()],
        History::new(10),
        false,
        None,
        md(),
        vec![],
        Search::default(),
    );
    assert_eq!(actions.len(), 4);
    assert!(matches!(&actions[0], Action::Watch(p) if p == "/a/dir"));
    assert!(matches!(&actions[1], Action::Watch(p) if p == "/a/b.md"));
    assert!(matches!(&actions[2], Action::CreateWindow));
    assert!(matches!(&actions[3], Action::CreateWindow));
    assert_eq!(s.history().items(), vec!["/a/dir".to_string(), "/a/b.md".to_string()]);
    assert_eq!(s.pending_files(), 2);

    let (_, actions): (Shiba<()>, _) = Shiba::new(vec![], vec![], History::new(10), false, None, md(), vec![], Search::default());
    assert_eq!(actions.len(), 1);
    assert!(matches!(&actions[0], Action::CreateWindow));
}

#[test]
fn ready_page_opens_the_first_waiting_document() {
    let mut s = app(&["/home/u/a.md"]);
    let (flow, actions) = message(&mut s, 1, MessageFromWindow::Init);
    assert!(matches!(flow, RenderingFlow::Continue));
    assert_eq!(actions.len(), 4);
    assert!(matches!(&actions[0], Action::Send { id: 1, message: MessageToWindow::Config { home: Some(h), .. } } if h == "/home/u"));
    match &actions[0] {
        Action::Send { message: MessageToWindow::Config { keymaps, search, .. }, .. } => {
            assert_eq!(keymaps.len(), UserConfig::default().keymaps.len());
            assert!(keymaps.iter().any(|(k, a)| k == "ctrl+o" && *a == KeyAction::OpenFile));
            assert_eq!(search.matcher, SearchMatcher::CaseSensitive);
        }
        _ => panic!("the configuration is sent first"),
    }
    assert!(matches!(&actions[1], Action::Show(1)));
    assert!(matches!(&actions[2], Action::Watch(p) if p == "/home/u/a.md"));
    assert!(matches!(&actions[3], Action::Load { id: 1, path, then: AfterLoad::Push } if path == "/home/u/a.md"));
    assert_eq!(s.pending_files(), 0);

    let actions = s.loaded_parsed(1, "/home/u/a.md".to_string(), doc("Hello", "/home/u"), AfterLoad::Push);
    assert_eq!(actions.len(), 3);
    match &actions[0] {
        Action::SendRaw { id: 1, bytes } => {
            let tree = String::from_utf8(bytes.clone()).unwrap();
            assert_eq!(tree, r#"JSON.parse('{"kind":"render_tree","tree":[{"t":"p","c":["Hello"]}]}')"#);
        }
        _ => panic!("render tree expected"),
    }
    assert!(matches!(&actions[1], Action::SetTitle { id: 1, title } if title == "Shiba: ~/a.md"));
    assert!(matches!(&actions[2], Action::Send { id: 1, message: MessageToWindow::Path { path } } if path == "/home/u/a.md"));
    assert_eq!(s.history().items(), vec!["/home/u/a.md".to_string()]);
}

#[test]
fn ready_page_without_document_shows_welcome() {
    let (mut s, _): (Shiba<()>, _) = Shiba::new(vec![], vec![], History::new(10), true, None, md(), vec![], Search::default());
    s.on_window(7, WindowEvent::Created(()));
    let (_, actions) = message(&mut s, 7, MessageFromWindow::Init);
    assert_eq!(actions.len(), 4);
    assert!(matches!(&actions[0], Action::Send { id: 7, message: MessageToWindow::Debug }));
    assert!(matches!(&actions[1], Action::Send { id: 7, message: MessageToWindow::Config { home: None, .. } }));
    assert!(matches!(&actions[2], Action::Show(7)));
    assert!(matches!(&actions[3], Action::Send { id: 7, message: MessageToWindow::Welcome }));
}

#[test]
fn reloading_the_same_document_marks_the_change() {
    let mut s = app(&[]);
    s.loaded_parsed(1, "/d/a.md".to_string(), doc("Hello", "/d"), AfterLoad::Push);
    let actions = s.loaded_parsed(1, "/d/a.md".to_string(), doc("Hellp", "/d"), AfterLoad::Nothing);
    assert_eq!(actions.len(), 1);
    match &actions[0] {
        Action::SendRaw { id: 1, bytes } => {
            let tree = String::from_utf8(bytes.clone()).unwrap();
            assert_eq!(tree, r#"JSON.parse('{"kind":"render_tree","tree":[{"t":"p","c":["Hell",{"t":"modified"},"p"]}]}')"#);
        }
        _ => panic!("render tree expected"),
    }
}

#[test]
fn navigation_skips_documents_that_cannot_be_read() {
    let mut s = app(&[]);
    for p in ["/d/a.md", "/d/b.md", "/d/c.md"] {
        s.loaded_parsed(1, p.to_string(), doc("x", "/d"), AfterLoad::Push);
    }
    let (_, actions) = message(&mut s, 1, MessageFromWindow::GoBack);
    assert_eq!(actions.len(), 1);
    assert!(matches!(&actions[0], Action::Load { id: 1, path, then: AfterLoad::Navigate(_) } if path == "/d/b.md"));
    // b.md was removed meanwhile: it leaves the history and a.md is read next.
    let actions = s.loaded_parsed(1, "/d/b.md".to_string(), None, AfterLoad::Navigate(shiba_preview::history::Direction::Back));
    assert_eq!(actions.len(), 1);
    assert!(matches!(&actions[0], Action::Load { id: 1, path, .. } if path == "/d/a.md"));
    assert_eq!(s.history().items(), vec!["/d/a.md".to_string(), "/d/c.md".to_string()]);

    let (_, actions) = message(&mut s, 1, MessageFromWindow::GoForward);
    assert_eq!(actions.len(), 1);
    assert!(matches!(&actions[0], Action::Load { path, .. } if path == "/d/c.md"));
}

#[test]
fn empty_window_goes_back_to_the_newest_document_only() {
    let (mut s, _): (Shiba<()>, _) = Shiba::new(vec!["/d/a.md".to_string()], vec![], History::new(10), false, None, md(), vec![], Search::default());
    s.on_window(1, WindowEvent::Created(()));
    let (_, actions) = message(&mut s, 1, MessageFromWindow::GoForward);
    assert!(actions.is_empty());
    let (_, actions) = message(&mut s, 1, MessageFromWindow::GoBack);
    assert_eq!(actions.len(), 1);
    assert!(matches!(&actions[0], Action::Load { path, .. } if path == "/d/a.md"));
}

#[test]
fn zoom_stops_at_the_last_step() {
    let mut s = app(&[]);
    let mut f = facts();
    let (_, actions) = s.on_event(AppEvent::WindowMessage { message: MessageFromWindow::ZoomIn, id: 1 }, f);
    assert_eq!(actions.len(), 2);
    assert!(matches!(&actions[0], Action::Zoom { id: 1, level: ZoomLevel(8) }));
    assert!(matches!(&actions[1], Action::Send { id: 1, message: MessageToWindow::Zoomed { percent: 110 } }));
    f.zoom_level = ZoomLevel(ZoomLevel::MAX);
    let (_, actions) = s.on_event(AppEvent::WindowMessage { message: MessageFromWindow::ZoomIn, id: 1 }, f);
    assert!(actions.is_empty());
    f.zoom_level = ZoomLevel(0);
    let (_, actions) = s.on_event(AppEvent::WindowMessage { message: MessageFromWindow::ZoomOut, id: 1 }, f);
    assert!(actions.is_empty());
}

#[test]
fn closing_the_last_window_exits() {
    let mut s = app(&[]);
    s.on_window(2, WindowEvent::Created(()));
    let (flow, actions) = message(&mut s, 2, MessageFromWindow::CloseWindow);
    assert!(matches!(flow, RenderingFlow::Continue));
    assert!(actions.is_empty());
    assert_eq!(s.windows().ids(), vec![1]);
    let (flow, actions) = s.on_window(1, WindowEvent::Closed);
    assert!(matches!(flow, RenderingFlow::Continue));
    assert!(matches!(&actions[0], Action::Hide(1)));
    assert!(matches!(&actions[1], Action::Save(1)));
    let (flow, actions) = s.saved(Ok(()));
    assert!(matches!(flow, RenderingFlow::Exit(0)));
    assert!(actions.is_empty());
}

#[test]
fn failing_to_save_on_quit_exits_with_one() {
    let mut s = app(&[]);
    let (flow, actions) = message(&mut s, 1, MessageFromWindow::Quit);
    assert!(matches!(flow, RenderingFlow::Continue));
    assert!(matches!(&actions[0], Action::Hide(1)));
    assert!(matches!(&actions[1], Action::Save(1)));
    let (flow, actions) = s.saved(Err("disk full".to_string()));
    assert!(matches!(flow, RenderingFlow::Exit(1)));
    assert!(matches!(&actions[0], Action::Alert { title, message } if title == "Error while the application quits" && message == "disk full"));
    assert_eq!(s.exit_status(), 1);
}

#[test]
fn unknown_window_is_an_error() {
    let mut s = app(&[]);
    let (flow, actions) = message(&mut s, 9, MessageFromWindow::Reload);
    assert!(matches!(flow, RenderingFlow::Continue));
    assert_eq!(actions.len(), 1);
    assert!(matches!(&actions[0], Action::Alert { title, message }
        if title == "Could not handle application event" && message == "unknown window ID: 9"));
    assert_eq!(s.exit_status(), 1);
}

#[test]
fn page_error_is_shown() {
    let mut s = app(&[]);
    let (_, actions) = message(&mut s, 1, MessageFromWindow::Error { message: "oops".to_string() });
    assert!(matches!(&actions[0], Action::Alert { message, .. } if message == "Error reported from renderer: oops"));
    assert_eq!(s.exit_status(), 1);
}

#[test]
fn changed_files_update_their_windows() {
    let mut s = app(&[]);
    s.on_window(2, WindowEvent::Created(()));
    s.loaded_parsed(1, "/d/a.md".to_string(), doc("a", "/d"), AfterLoad::Push);
    s.loaded_parsed(2, "/d/b.md".to_string(), doc("b", "/d"), AfterLoad::Push);
    // Window 2 has focus: it shows b.md, which did not change, so it shows
    // the last changed path left.
    let (_, actions) = s.on_event(AppEvent::WatchedFilesChanged(vec!["/d/a.md".to_string(), "/d/z.md".to_string()]), facts());
    assert_eq!(actions.len(), 2);
    assert!(matches!(&actions[0], Action::Load { id: 1, path, then: AfterLoad::Nothing } if path == "/d/a.md"));
    assert!(matches!(&actions[1], Action::Load { id: 2, path, then: AfterLoad::Push } if path == "/d/z.md"));
}

#[test]
fn local_links_open_documents_or_other_files() {
    let mut s = app(&[]);
    let file = InitFile { path: "/d/x.md".to_string(), scroll: InitScroll::Fragment("sec".to_string()) };
    let (_, actions) = s.on_event(AppEvent::OpenLocalPath { file, id: 1, is_file: true }, facts());
    assert_eq!(actions.len(), 3);
    assert!(matches!(&actions[0], Action::Watch(p) if p == "/d/x.md"));
    assert!(matches!(&actions[1], Action::Send { id: 1, message: MessageToWindow::Scroll { .. } }));
    assert!(matches!(&actions[2], Action::Load { id: 1, .. }));
    let file = InitFile::from_path("/d/picture.png".to_string());
    let (_, actions) = s.on_event(AppEvent::OpenLocalPath { file, id: 1, is_file: true }, facts());
    assert_eq!(actions.len(), 1);
    assert!(matches!(&actions[0], Action::Open(p) if p == "/d/picture.png"));
}

#[test]
fn menu_items_act_on_the_focused_window() {
    let mut s = app(&[]);
    let (_, actions) = s.on_event(AppEvent::Menu(MenuItem::OpenRepo), facts());
    assert!(matches!(&actions[0], Action::Open(u) if u == "https://github.com/rhysd/Shiba"));
    let (_, actions) = s.on_event(AppEvent::Menu(MenuItem::Print), facts());
    assert!(actions.is_empty());
    s.loaded_parsed(1, "/d/a.md".to_string(), doc("a", "/d"), AfterLoad::Push);
    let (_, actions) = s.on_event(AppEvent::Menu(MenuItem::Print), facts());
    assert!(matches!(&actions[0], Action::Print(1)));
    let (flow, actions) = s.on_event(AppEvent::Menu(MenuItem::Quit), facts());
    assert!(matches!(flow, RenderingFlow::Continue));
    assert_eq!(actions.len(), 2);
    let (flow, _) = s.saved(Ok(()));
    assert!(matches!(flow, RenderingFlow::Exit(0)));
}

#[test]
fn search_marks_the_matches() {
    let mut s = app(&[]);
    s.loaded_parsed(1, "/d/a.md".to_string(), doc("abcabc", "/d"), AfterLoad::Push);
    let m = MessageFromWindow::Search { query: "bc".to_string(), index: Some(1), matcher: SearchMatcher::SmartCase };
    let (_, actions) = message(&mut s, 1, m);
    match &actions[0] {
        Action::SendRaw { id: 1, bytes } => {
            let tree = String::from_utf8(bytes.clone()).unwrap();
            assert!(tree.contains(r#"{"t":"match-start","c":["bc"]}"#), "{tree}");
            assert!(tree.contains(r#"{"t":"match-current-start","c":["bc"]}"#), "{tree}");
        }
        _ => panic!("render tree expected"),
    }
}

#[test]
fn duplicated_window_waits_for_the_same_document() {
    let mut s = app(&[]);
    let (_, actions) = message(&mut s, 1, MessageFromWindow::DuplicateWindow { heading: None });
    assert!(matches!(&actions[0], Action::CreateWindow));
    assert_eq!(s.pending_files(), 0);
    s.loaded_parsed(1, "/d/a.md".to_string(), doc("a", "/d"), AfterLoad::Push);
    let (_, actions) = message(&mut s, 1, MessageFromWindow::DuplicateWindow { heading: Some(3) });
    assert!(matches!(&actions[0], Action::CreateWindow));
    assert_eq!(s.pending_files(), 1);
}

#[test]
fn picked_files_are_pushed_and_the_last_opened() {
    let mut s = app(&[]);
    let actions = s.files_picked(1, vec!["/d/a.md".to_string(), "/d/b.md".to_string()], false);
    assert_eq!(actions.len(), 3);
    assert!(matches!(&actions[0], Action::Watch(p) if p == "/d/a.md"));
    assert!(matches!(&actions[1], Action::Watch(p) if p == "/d/b.md"));
    assert!(matches!(&actions[2], Action::Load { path, then: AfterLoad::Push, .. } if path == "/d/b.md"));
    assert_eq!(s.history().items(), vec!["/d/a.md".to_string()]);
    let actions = s.files_picked(1, vec!["/d/c.md".to_string(), "/d/e.md".to_string()], true);
    assert_eq!(actions.len(), 2);
    assert_eq!(s.pending_files(), 2);
}

#[test]
fn reloading_an_unchanged_document_marks_nothing() {
    let mut s = app(&[]);
    s.loaded_parsed(1, "/d/a.md".to_string(), doc("Hello", "/d"), AfterLoad::Push);
    let actions = s.loaded_parsed(1, "/d/a.md".to_string(), doc("Hello", "/d"), AfterLoad::Reload);
    assert_eq!(actions.len(), 2);
    match &actions[0] {
        Action::SendRaw { id: 1, bytes } => {
            let tree = String::from_utf8(bytes.clone()).unwrap();
            assert_eq!(tree, r#"JSON.parse('{"kind":"render_tree","tree":[{"t":"p","c":["Hello"]}]}')"#);
        }
        _ => panic!("render tree expected"),
    }
    assert!(matches!(&actions[1], Action::Send { id: 1, message: MessageToWindow::Reload }));
}

#[test]
fn paths_from_another_process_are_handed_over() {

    let mut s = app(&[]);
    let (_, actions) = s.on_event(AppEvent::ProcessSingleton { paths: PathArgs::default() }, facts());
    assert_eq!(actions.len(), 1);
    assert!(matches!(&actions[0], Action::CreateWindow));
    let paths = PathArgs {
        init: Some("/d/foo.md".to_string()),
        watched: vec!["/d/dir1".to_string(), "/d/dir2".to_string()],
        additional_windows: vec!["/d/a.md".to_string(), "/d/b.md".to_string()],
    };
    let (_, actions) = s.on_event(AppEvent::ProcessSingleton { paths }, facts());
    assert_eq!(actions.len(), 7);
    assert!(matches!(&actions[0], Action::Watch(p) if p == "/d/dir1"));
    assert!(matches!(&actions[1], Action::Watch(p) if p == "/d/dir2"));
    assert!(matches!(&actions[2], Action::Watch(p) if p == "/d/foo.md"));
    assert!(matches!(&actions[3], Action::Load { id: 1, path, then: AfterLoad::Push } if path == "/d/foo.md"));
    assert!(matches!(&actions[4], Action::Focus(1)));
    assert!(matches!(&actions[5], Action::CreateWindow));
    assert!(matches!(&actions[6], Action::CreateWindow));
    assert_eq!(s.pending_files(), 2);
}

#[test]
fn sanity_test_sends_fixed_messages() {
    let t = SanityTest::new(7u32);
    assert_eq!(*t.handle(), 7);
    let m = t.messages("/repo");
    assert_eq!(m.len(), 8);
    match &m[0] {
        MessageFromWindow::OpenFile { path } => assert_eq!(path, "/repo/README.md"),
        _ => panic!("first message opens the readme"),
    }
    match &m[1] {
        MessageFromWindow::OpenFile { path } => assert_eq!(path, "/repo/docs/installation.md"),
        _ => panic!("second message opens the installation guide"),
    }
    assert!(matches!(m[2], MessageFromWindow::GoBack));
    assert!(matches!(m[3], MessageFromWindow::GoForward));
    assert!(matches!(m[4], MessageFromWindow::Reload));
    assert!(matches!(m[5], MessageFromWindow::ToggleMaximized));
    assert!(matches!(m[6], MessageFromWindow::ToggleMaximized));
    assert!(matches!(m[7], MessageFromWindow::Quit));
}

#[test]
fn launch_opens_additional_windows_before_the_first_file() {
    let paths = PathArgs {
        init: Some("/a/README.md".to_string()),
        watched: vec!["/a/docs".to_string()],
        additional_windows: vec!["/a/b.md".to_string(), "/a/c.md".to_string()],
    };
    let (watched, files) = paths.into_launch();
    assert_eq!(watched, vec!["/a/docs"]);
    assert_eq!(files, vec!["/a/b.md", "/a/c.md", "/a/README.md"]);
    let (watched, files) = PathArgs::default().into_launch();
    assert!(watched.is_empty() && files.is_empty());
}

#[test]
fn loaded_document_is_parsed_and_shown() {
    let mut s = app(&[]);
    let actions = s.loaded(1, "/d/a.md".to_string(), Some(MarkdownContent::new("Hello".to_string(), Some("/d"))), AfterLoad::Push);
    assert!(actions.iter().any(|a| matches!(a, Action::SendRaw { id: 1, bytes } if String::from_utf8_lossy(bytes).contains(r#"["Hello"]"#))));
    assert!(actions.iter().any(|a| matches!(a, Action::SetTitle { id: 1, title } if title == "Shiba: /d/a.md")));
    assert_eq!(s.history().current().map(|p| p.as_str()), Some("/d/a.md"));
}

#[test]
fn deleting_history_asks_first() {
    let mut s = app(&[]);
    s.loaded_parsed(1, "/d/a.md".to_string(), doc("a", "/d"), AfterLoad::Push);
    let (_, actions) = s.on_event(AppEvent::Menu(MenuItem::DeleteHistory), facts());
    assert!(matches!(actions.as_slice(), [Action::ConfirmDeleteHistory(1)]));
    assert!(s.history_deletion_answered(1, false).is_empty());
    assert_eq!(s.history().current().map(|p| p.as_str()), Some("/d/a.md"));
    let actions = s.history_deletion_answered(1, true);
    assert!(matches!(actions.as_slice(), [Action::DeleteCache(1)]));
    assert_eq!(s.history().current(), None);
}

#[test]
fn latest_goes_to_the_newest_readable_document() {
    let mut s = app(&[]);
    for p in ["/d/a.md", "/d/b.md", "/d/c.md"] {
        s.loaded_parsed(1, p.to_string(), doc("x", "/d"), AfterLoad::Push);
    }
    let (_, actions) = message(&mut s, 1, MessageFromWindow::GoTop);
    assert!(actions.is_empty());
    message(&mut s, 1, MessageFromWindow::GoBack);
    message(&mut s, 1, MessageFromWindow::GoBack);
    let (_, actions) = s.on_event(AppEvent::Menu(MenuItem::Top), facts());
    assert_eq!(actions.len(), 1);
    assert!(matches!(&actions[0], Action::Load { id: 1, path, then: AfterLoad::Navigate(Direction::Top) } if path == "/d/c.md"));
    // c.md was removed meanwhile: it leaves the history and b.md, now the newest, is read.
    let actions = s.loaded_parsed(1, "/d/c.md".to_string(), None, AfterLoad::Navigate(Direction::Top));
    assert_eq!(actions.len(), 1);
    assert!(matches!(&actions[0], Action::Load { id: 1, path, then: AfterLoad::Navigate(Direction::Top) } if path == "/d/b.md"));
    assert_eq!(s.history().items(), vec!["/d/a.md".to_string(), "/d/b.md".to_string()]);
}

#[test]
fn empty_window_goes_to_the_newest_document() {
    let (mut s, _): (Shiba<()>, _) = Shiba::new(vec!["/d/a.md".to_string()], vec![], History::new(10), false, None, md(), vec![], Search::default());
    s.on_window(1, WindowEvent::Created(()));
    let (_, actions) = message(&mut s, 1, MessageFromWindow::GoTop);
    assert_eq!(actions.len(), 1);
    assert!(matches!(&actions[0], Action::Load { path, then: AfterLoad::Navigate(Direction::Back), .. } if path == "/d/a.md"));
}
