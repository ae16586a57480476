use shiba_preview::config::FileExtensions;
use shiba_preview::dialog::SystemDialog;
use shiba_preview::window::{Error, WindowManager};

struct TestWindow {
    window_id: u64,
}

fn add(wm: &mut WindowManager<TestWindow>, next: &mut u64) -> u64 {
    *next += 1;
    let id = *next;
    wm.add(id, TestWindow { window_id: id });
    id
}

#[test]
fn add_and_close() {
    let mut next = 0;
    let wm = &mut WindowManager::<TestWindow>::new(None);

    let id1 = add(wm, &mut next);
    assert_eq!(wm.get(id1).unwrap().0.window_id, id1);
    assert_eq!(wm.get_mut(id1).unwrap().0.window_id, id1);

    let id2 = add(wm, &mut next);
    assert!(wm.close(id2)); // Focus is lost here
    assert!(!wm.close(id2));

    assert!(wm.get(id1).is_ok());
    assert!(wm.get_mut(id1).is_ok());
    assert!(matches!(wm.get(id2), Err(Error::UnknownWindow(id)) if id == id2));
    assert!(matches!(wm.get_mut(id2), Err(Error::UnknownWindow(id)) if id == id2));

    assert!(wm.close(id1));
    assert!(!wm.close(id1));

    assert!(matches!(wm.get(id1), Err(Error::UnknownWindow(id)) if id == id1));
    assert!(matches!(wm.get_mut(id1), Err(Error::UnknownWindow(id)) if id == id1));

    // Removing an invalid ID does nothing
    assert!(!wm.close(id1 + 100));
}

#[test]
fn manage_focus() {
    let mut next = 0;
    let wm = &mut WindowManager::<TestWindow>::new(None);
    let id = add(wm, &mut next);

    // Fallback to the first window when focus is not set
    assert_eq!(wm.focused_id().unwrap(), id);
    assert_eq!(wm.focused().unwrap().0.window_id, id);

    wm.set_focus(id);
    assert_eq!(wm.focused_id().unwrap(), id);

    wm.set_focus(id); // This does nothing
    assert_eq!(wm.focused_id().unwrap(), id);

    wm.set_focus(id + 1); // Do nothing on invalid window ID
    assert_eq!(wm.focused_id().unwrap(), id);

    // Add the second window
    let id2 = add(wm, &mut next);

    assert_eq!(wm.focused_id().unwrap(), id2);
    assert_eq!(wm.focused().unwrap().0.window_id, id2);

    wm.set_focus(id); // Set focus back to the first window
    assert_eq!(wm.focused_id().unwrap(), id);

    assert!(wm.close(id)); // Close the first window

    // Fallback to the second window
    assert_eq!(wm.focused_id().unwrap(), id2);
    assert_eq!(wm.focused().unwrap().0.window_id, id2);

    wm.set_focus(id2);
    assert_eq!(wm.focused_id().unwrap(), id2);
    assert_eq!(wm.focused().unwrap().0.window_id, id2);

    // This no longer does nothing
    wm.set_focus(id);
    assert_eq!(wm.focused_id().unwrap(), id2);
}

#[test]
fn close_unfocused_window() {
    let mut next = 0;
    let wm = &mut WindowManager::<TestWindow>::new(None);
    let (id1, id2, id3) = (add(wm, &mut next), add(wm, &mut next), add(wm, &mut next));
    assert_eq!(wm.focused_id().unwrap(), id3);
    assert!(wm.close(id2));
    assert_eq!(wm.focused_id().unwrap(), id3);
    assert!(wm.close(id1));
    assert_eq!(wm.focused_id().unwrap(), id3);
}

#[test]
fn iter_windows() {
    let mut next = 0;
    let wm = &mut WindowManager::<TestWindow>::new(None);
    let expected = [add(wm, &mut next), add(wm, &mut next), add(wm, &mut next)];
    let mut actual = (0..wm.ids().len())
        .map(|i| {
            let (id, w, _) = wm.entry_mut(i);
            assert_eq!(id, w.window_id);
            id
        })
        .collect::<Vec<_>>();
    actual.sort();
    assert_eq!(&expected, actual.as_slice());
    let (id, w, _) = wm.entry_mut(1);
    w.window_id = 100;
    assert_eq!(wm.get(id).unwrap().0.window_id, 100);
}

#[test]
fn close_other_windows() {
    let mut next = 0;
    let wm = &mut WindowManager::<TestWindow>::new(None);
    let (_, id, _) = (add(wm, &mut next), add(wm, &mut next), add(wm, &mut next));
    wm.close_others(id);
    assert!(wm.is_last(id));
    assert_eq!(wm.focused_id().unwrap(), id);
}

#[test]
fn check_last_window() {
    let mut next = 0;
    let invalid_id = 100;
    let wm = &mut WindowManager::<TestWindow>::new(None);
    assert!(!wm.is_last(0));

    let id1 = add(wm, &mut next);
    assert!(wm.is_last(id1));
    assert!(!wm.is_last(invalid_id));

    let id2 = add(wm, &mut next);
    assert!(!wm.is_last(id1));
    assert!(!wm.is_last(id2));
    assert!(!wm.is_last(invalid_id));

    assert!(wm.close(id1));
    assert!(!wm.is_last(id1));
    assert!(wm.is_last(id2));
    assert!(!wm.is_last(invalid_id));
}

#[test]
fn no_window_available() {
    let wm = WindowManager::<TestWindow>::new(None);
    assert!(matches!(wm.focused_id(), Err(Error::NoWindowAvailable)));
    assert!(matches!(wm.focused(), Err(Error::NoWindowAvailable)));
    assert_eq!(Error::<u64>::NoWindowAvailable.message(""), "no window is available");
    assert_eq!(Error::UnknownWindow(3u64).message("3"), "unknown window ID: 3");
}

#[test]
fn alert_text_lists_causes() {
    let (title, message) = shiba_preview::dialog::alert_text(
        "Could not handle application event",
        &["unknown window ID: 3".to_string(), "gone".to_string()],
    );
    assert_eq!(title, "Error: Could not handle application event");
    assert_eq!(
        message,
        "Error: Could not handle application event\n  Caused by: unknown window ID: 3\n  Caused by: gone"
    );
    let (title, message) = shiba_preview::dialog::alert_text("failed", &[]);
    assert_eq!(title, "Error: failed");
    assert_eq!(message, "Error: failed");
}

#[test]
fn file_dialogs_start_in_directory_once() {
    let mut d = SystemDialog {
        extensions: FileExtensions(vec!["md".to_string(), "markdown".to_string()]),
        start_dir: Some("/home/u/docs".to_string()),
    };
    let r = d.files_request();
    assert_eq!(r.title, "Open files to preview");
    assert_eq!(r.filter, Some(("Markdown".to_string(), vec!["md".to_string(), "markdown".to_string()])));
    assert_eq!(r.start_dir.as_deref(), Some("/home/u/docs"));
    let r = d.dirs_request();
    assert_eq!(r.title, "Choose directories to watch");
    assert_eq!(r.filter, None);
    assert_eq!(r.start_dir, None);
}

#[test]
fn focus_always_names_an_open_window() {
    let mut next = 0;
    let wm = &mut WindowManager::<TestWindow>::new(None);
    let (id1, id2, id3) = (add(wm, &mut next), add(wm, &mut next), add(wm, &mut next));
    let check = |wm: &WindowManager<TestWindow>| match wm.focused_id() {
        Ok(f) => assert!(wm.ids().contains(&f)),
        Err(e) => {
            assert_eq!(e, Error::NoWindowAvailable);
            assert!(wm.ids().is_empty());
        }
    };
    check(wm);
    assert_eq!(wm.focused_id(), Ok(id3));
    wm.set_focus(id2);
    assert!(wm.close(id2));
    check(wm);
    assert_eq!(wm.focused_id(), Ok(id1));
    wm.close_others(id3);
    check(wm);
    assert_eq!(wm.focused_id(), Ok(id3));
    assert!(wm.close(id3));
    check(wm);
    assert_eq!(wm.focused_id(), Err(Error::NoWindowAvailable));
}
