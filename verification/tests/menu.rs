use shiba_preview::menu::{item_label, menu_bar, menu_item_of_id, MenuBarAction, MenuEntry, Platform, Predefined, WindowMenu};
use shiba_preview::renderer::MenuItem;

const ALL_ITEMS: [MenuItem; 28] = [
    MenuItem::Quit,
    MenuItem::Forward,
    MenuItem::Back,
    MenuItem::Top,
    MenuItem::Reload,
    MenuItem::OpenFiles,
    MenuItem::OpenFilesInNewWindow,
    MenuItem::WatchDirs,
    MenuItem::Search,
    MenuItem::SearchNext,
    MenuItem::SearchPrevious,
    MenuItem::Outline,
    MenuItem::Print,
    MenuItem::ZoomIn,
    MenuItem::ZoomOut,
    MenuItem::History,
    MenuItem::Help,
    MenuItem::OpenRepo,
    MenuItem::ToggleAlwaysOnTop,
    MenuItem::ToggleMinimizeWindow,
    MenuItem::ToggleMaximizeWindow,
    MenuItem::NewWindow,
    MenuItem::DuplicateWindow,
    MenuItem::CloseWindow,
    MenuItem::CloseAllOtherWindows,
    MenuItem::EditConfig,
    MenuItem::ToggleMenuBar,
    MenuItem::DeleteHistory,
];

fn count(platform: Platform, item: MenuItem) -> usize {
    menu_bar(platform)
        .iter()
        .flat_map(|m| m.entries.iter())
        .filter(|e| **e == MenuEntry::Item(item))
        .count()
}

#[test]
fn menu_bar_titles_per_platform() {
    let titles = |p| menu_bar(p).into_iter().map(|m| m.title).collect::<Vec<_>>();
    assert_eq!(titles(Platform::MacOs), vec!["Shiba", "&File", "&Edit", "History", "&Window", "&Help"]);
    assert_eq!(titles(Platform::Linux), vec!["&File", "&Edit", "History", "&Window", "&Help"]);
    assert_eq!(titles(Platform::Windows), vec!["&File", "&Edit", "History", "&Window", "&Help"]);
}

#[test]
fn every_item_has_one_place_in_menu_bar() {
    for item in ALL_ITEMS {
        assert_eq!(count(Platform::Linux, item), 1, "{item:?}");
        assert_eq!(count(Platform::Windows, item), 1, "{item:?}");
        let on_mac = if item == MenuItem::ToggleMenuBar { 0 } else { 1 };
        assert_eq!(count(Platform::MacOs, item), on_mac, "{item:?}");
    }
}

#[test]
fn file_menu_entries_per_platform() {
    let bar = menu_bar(Platform::Windows);
    assert_eq!(
        bar[0].entries,
        vec![
            MenuEntry::Item(MenuItem::OpenFiles),
            MenuEntry::Item(MenuItem::OpenFilesInNewWindow),
            MenuEntry::Item(MenuItem::WatchDirs),
            MenuEntry::Item(MenuItem::Reload),
            MenuEntry::Predefined(Predefined::Separator),
            MenuEntry::Item(MenuItem::Print),
            MenuEntry::Predefined(Predefined::Separator),
            MenuEntry::Predefined(Predefined::About),
            MenuEntry::Predefined(Predefined::Separator),
            MenuEntry::Predefined(Predefined::Hide),
            MenuEntry::Predefined(Predefined::HideOthers),
            MenuEntry::Predefined(Predefined::Separator),
            MenuEntry::Item(MenuItem::EditConfig),
            MenuEntry::Predefined(Predefined::Separator),
            MenuEntry::Item(MenuItem::Quit),
        ]
    );
    let mac = menu_bar(Platform::MacOs);
    assert_eq!(mac[1].entries.len(), 6);
    assert_eq!(mac[0].entries.last(), Some(&MenuEntry::Item(MenuItem::Quit)));
}

#[test]
fn item_labels() {
    assert_eq!(item_label(MenuItem::OpenFiles), "Open Files…");
    assert_eq!(item_label(MenuItem::EditConfig), "Settings…");
    assert_eq!(item_label(MenuItem::ToggleAlwaysOnTop), "Pin/Unpin On Top");
    assert_eq!(item_label(MenuItem::Help), "Show Key Guide…");
    assert_eq!(item_label(MenuItem::DeleteHistory), "Delete History");
    assert_eq!(item_label(MenuItem::Top), "Latest");
}

#[test]
fn history_menu_entries() {
    let bar = menu_bar(Platform::Linux);
    assert_eq!(bar[2].title, "History");
    assert_eq!(
        bar[2].entries,
        vec![
            MenuEntry::Item(MenuItem::Forward),
            MenuEntry::Item(MenuItem::Back),
            MenuEntry::Item(MenuItem::Top),
            MenuEntry::Predefined(Predefined::Separator),
            MenuEntry::Item(MenuItem::History),
            MenuEntry::Item(MenuItem::DeleteHistory),
        ]
    );
}

#[test]
fn menu_item_by_id() {
    let ids = vec![("1".to_string(), MenuItem::Quit), ("2".to_string(), MenuItem::Reload)];
    assert_eq!(menu_item_of_id(&ids, "2"), Ok(MenuItem::Reload));
    assert_eq!(menu_item_of_id(&ids, "1"), Ok(MenuItem::Quit));
    assert_eq!(menu_item_of_id(&ids, "3"), Err("Unknown menu item ID in event: 3".to_string()));
}

#[test]
fn menu_bar_toggles_between_shown_and_hidden() {
    let mut m = WindowMenu::new(false);
    assert!(!m.is_visible());
    assert_eq!(m.toggle(), Some(MenuBarAction::Init));
    assert!(m.is_visible());
    assert_eq!(m.toggle(), Some(MenuBarAction::Hide));
    assert!(!m.is_visible());
    assert_eq!(m.toggle(), Some(MenuBarAction::Show));
    assert!(m.is_visible());
}

#[test]
fn menu_bar_always_shown_ignores_toggle() {
    let mut m = WindowMenu::new(true);
    assert!(m.is_visible());
    assert_eq!(m.toggle(), None);
    assert!(m.is_visible());
}
