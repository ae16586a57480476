use shiba_preview::watcher::{find_watch_path, should_watch_event, FsEventKind, PathState, RecursiveMode, WatchingPaths};

#[test]
fn files_are_watched_through_their_parent() {
    let mut w = WatchingPaths::new();
    let r = w.watched_path("/a/b.md", PathState::File).unwrap();
    assert_eq!(r, Some(("/a".to_string(), RecursiveMode::NonRecursive)));
    assert!(w.should_retain("/a/b.md"));
    assert!(!w.should_retain("/a/c.md"));
    assert!(w.should_retain("/x/y.md"));
    let r = w.watched_path("/a/c.md", PathState::File).unwrap();
    assert_eq!(r, Some(("/a".to_string(), RecursiveMode::NonRecursive)));
    assert!(w.should_retain("/a/c.md"));
}

#[test]
fn directories_cover_the_files_under_them() {
    let mut w = WatchingPaths::new();
    w.watched_path("/a/sub/b.md", PathState::File).unwrap();
    assert!(!w.should_retain("/a/sub/other.md"));
    let r = w.watched_path("/a", PathState::Dir).unwrap();
    assert_eq!(r, Some(("/a".to_string(), RecursiveMode::Recursive)));
    assert!(w.should_retain("/a/sub/other.md"));
    assert_eq!(w.watched_path("/a/sub/c.md", PathState::File).unwrap(), None);
    // `/ab` is not under `/a`: paths compare whole components.
    let r = w.watched_path("/ab/d.md", PathState::File).unwrap();
    assert_eq!(r, Some(("/ab".to_string(), RecursiveMode::NonRecursive)));
}

#[test]
fn missing_paths_are_watched_through_an_ancestor() {
    let mut w = WatchingPaths::new();
    let r = w.watched_path("/a/new/x.md", PathState::Missing { ancestor: Some("/a".to_string()) }).unwrap();
    assert_eq!(r, Some(("/a".to_string(), RecursiveMode::Recursive)));
    let err = w.watched_path("/nowhere/x.md", PathState::Missing { ancestor: None }).unwrap_err();
    assert_eq!(err, r#"Could not watch path "/nowhere/x.md" since its ancestors cannot be watched"#);
    let r = find_watch_path("/a/b.md", PathState::File).unwrap();
    assert_eq!(r, ("/a/b.md".to_string(), RecursiveMode::NonRecursive));
    let r = find_watch_path("/a", PathState::Dir).unwrap();
    assert_eq!(r, ("/a".to_string(), RecursiveMode::Recursive));
}

#[test]
fn only_creations_and_content_changes_are_watched() {
    assert!(should_watch_event(FsEventKind::CreateFile));
    assert!(should_watch_event(FsEventKind::ModifyAny));
    assert!(should_watch_event(FsEventKind::ModifyDataAny));
    assert!(should_watch_event(FsEventKind::ModifyDataContent));
    assert!(!should_watch_event(FsEventKind::CreateOther));
    assert!(!should_watch_event(FsEventKind::ModifyDataOther));
    assert!(!should_watch_event(FsEventKind::ModifyOther));
    assert!(!should_watch_event(FsEventKind::Other));
}
