use shiba_preview::renderer::{navigation, new_window_request, InitScroll, Navigation, NewWindowRequest};

#[test]
fn navigation_to_app_page_goes_on() {
    assert!(matches!(navigation("shiba://localhost/index.html".to_string()), Navigation::Allow));
    assert!(matches!(navigation("shiba://localhost/index.html#top".to_string()), Navigation::Allow));
}

#[test]
fn navigation_to_local_document_opens_it() {
    match navigation("shiba://localhost/a/b.md#intro".to_string()) {
        Navigation::OpenLocal(f) => {
            assert_eq!(f.path, "/a/b.md");
            assert!(matches!(f.scroll, InitScroll::Fragment(ref g) if g == "intro"));
        }
        other => panic!("unexpected {other:?}"),
    }
    match navigation("shiba://localhost/a/b.md".to_string()) {
        Navigation::OpenLocal(f) => {
            assert_eq!(f.path, "/a/b.md");
            assert!(matches!(f.scroll, InitScroll::Nop));
        }
        other => panic!("unexpected {other:?}"),
    }
}

#[test]
fn navigation_to_other_site_is_external() {
    match navigation("https://github.com/rhysd/Shiba".to_string()) {
        Navigation::External(u) => assert_eq!(u, "https://github.com/rhysd/Shiba"),
        other => panic!("unexpected {other:?}"),
    }
}

#[test]
fn new_window_for_app_page_duplicates_window() {
    match new_window_request("shiba://localhost/index.html#section".to_string()) {
        NewWindowRequest::Duplicate(InitScroll::Fragment(g)) => assert_eq!(g, "section"),
        other => panic!("unexpected {other:?}"),
    }
    assert!(matches!(
        new_window_request("shiba://localhost/index.html".to_string()),
        NewWindowRequest::Duplicate(InitScroll::Nop)
    ));
}

#[test]
fn new_window_for_document_or_site() {
    match new_window_request("shiba://localhost/docs/x.md".to_string()) {
        NewWindowRequest::Open(f) => assert_eq!(f.path, "/docs/x.md"),
        other => panic!("unexpected {other:?}"),
    }
    match new_window_request("https://example.com/".to_string()) {
        NewWindowRequest::External(u) => assert_eq!(u, "https://example.com/"),
        other => panic!("unexpected {other:?}"),
    }
}

#[test]
fn resizing_to_nothing_minimizes() {
    let mut s = shiba_preview::renderer::MinimizedState::new();
    assert_eq!(s.on_resized(800, 600), None);
    assert_eq!(s.on_resized(0, 0), Some(true));
    assert_eq!(s.on_resized(0, 10), None);
    assert_eq!(s.on_resized(800, 600), Some(false));
    assert_eq!(s.on_resized(10, 0), Some(true));
}
