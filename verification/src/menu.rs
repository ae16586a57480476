use crate::renderer::MenuItem;
use vstd::prelude::*;

verus! {

/// What has to be done to the menu bar of a window when it is toggled.
#[derive(Clone, Copy, PartialEq, Eq, Structural, Debug)]
pub enum MenuBarAction {
    /// The menu bar was never put into the window: it is put there, shown.
    Init,
    Hide,
    Show,
}

/// The menu bar of a window: whether it is shown. On a platform whose menu
/// bar is always shown (macOS), toggling it does nothing.
#[derive(Debug)]
pub struct WindowMenu {
    always_visible: bool,
    is_visible: Option<bool>,
}

impl WindowMenu {
    /// Whether the platform always shows the menu bar.
    pub closed spec fn spec_always_visible(&self) -> bool {
        self.always_visible
    }

    /// Whether the menu bar was put into the window, and then whether it
    /// is shown.
    pub closed spec fn spec_state(&self) -> Option<bool> {
        self.is_visible
    }

    /// Whether the menu bar is shown: always where the platform shows it;
    /// elsewhere only once it was put into the window and not hidden since.
    pub open spec fn spec_is_visible(&self) -> bool {
        visible_in(self.spec_always_visible(), self.spec_state())
    }

    /// The menu bar of a new window, not yet put into it.
    pub fn new(always_visible: bool) -> (m: WindowMenu)
        ensures
            m.spec_always_visible() == always_visible,
            m.spec_state() is None,
    {
        WindowMenu { always_visible, is_visible: None }
    }

    /// Whether the menu bar is shown.
    pub fn is_visible(&self) -> (b: bool)
        ensures
            b == self.spec_is_visible(),
    {
        if self.always_visible {
            true
        } else {
            match self.is_visible {
                Some(v) => v,
                None => false,
            }
        }
    }

    /// Shows a hidden menu bar and hides a shown one, and says what has to
    /// be done to the window for that; nothing where the platform always
    /// shows it.
    pub fn toggle(&mut self) -> (a: Option<MenuBarAction>)
        ensures
            final(self).spec_always_visible() == old(self).spec_always_visible(),
            final(self).spec_state() == toggled_state(old(self).spec_always_visible(), old(self).spec_state()),
            a == if old(self).spec_always_visible() {
                None
            } else {
                match old(self).spec_state() {
                    None => Some(MenuBarAction::Init),
                    Some(true) => Some(MenuBarAction::Hide),
                    Some(false) => Some(MenuBarAction::Show),
                }
            },
    {
        if self.always_visible {
            return None;
        }
        let (action, visible) = match self.is_visible {
            None => (MenuBarAction::Init, true),
            Some(true) => (MenuBarAction::Hide, false),
            Some(false) => (MenuBarAction::Show, true),
        };
        self.is_visible = Some(visible);
        Some(action)
    }
}

/// The platform that the application runs on, which decides some entries of
/// the menus.
#[derive(Clone, Copy, PartialEq, Eq, Structural, Debug)]
pub enum Platform {
    MacOs,
    Windows,
    Linux,
}

/// An entry of a menu that the platform provides itself.
#[derive(Clone, Copy, PartialEq, Eq, Structural, Debug)]
pub enum Predefined {
    Separator,
    About,
    Services,
    Hide,
    HideOthers,
    ShowAll,
    Fullscreen,
    BringAllToFront,
    Undo,
    Redo,
    Cut,
    Copy,
    Paste,
    SelectAll,
}

/// An entry of a menu: an item of the application, or one that the
/// platform provides.
#[derive(Clone, Copy, PartialEq, Eq, Structural, Debug)]
pub enum MenuEntry {
    Item(MenuItem),
    Predefined(Predefined),
}

/// A menu of the menu bar: its title and its entries, in order.
#[derive(Debug)]
pub struct Submenu {
    pub title: String,
    pub entries: Vec<MenuEntry>,
}

/// The text of an item of the application in the menus.
pub open spec fn spec_item_label(item: MenuItem) -> Seq<char> {
    match item {
        MenuItem::Quit => "Quit"@,
        MenuItem::Forward => "Forward"@,
        MenuItem::Back => "Back"@,
        MenuItem::Top => "Latest"@,
        MenuItem::Reload => "Reload"@,
        MenuItem::OpenFiles => "Open Files…"@,
        MenuItem::OpenFilesInNewWindow => "Open in New Window…"@,
        MenuItem::WatchDirs => "Watch Directories…"@,
        MenuItem::Search => "Search…"@,
        MenuItem::SearchNext => "Search Next"@,
        MenuItem::SearchPrevious => "Search Previous"@,
        MenuItem::Outline => "Section Outline…"@,
        MenuItem::Print => "Print…"@,
        MenuItem::ZoomIn => "Zoom In"@,
        MenuItem::ZoomOut => "Zoom Out"@,
        MenuItem::History => "History…"@,
        MenuItem::Help => "Show Key Guide…"@,
        MenuItem::OpenRepo => "Open Repository Page"@,
        MenuItem::ToggleAlwaysOnTop => "Pin/Unpin On Top"@,
        MenuItem::ToggleMinimizeWindow => "Minimize"@,
        MenuItem::ToggleMaximizeWindow => "Maximize"@,
        MenuItem::NewWindow => "New Window"@,
        MenuItem::DuplicateWindow => "Duplicate Window"@,
        MenuItem::CloseWindow => "Close Window"@,
        MenuItem::CloseAllOtherWindows => "Close All Other Windows"@,
        MenuItem::EditConfig => "Settings…"@,
        MenuItem::ToggleMenuBar => "Toggle Menu Bar"@,
        MenuItem::DeleteHistory => "Delete History"@,
    }
}

/// The text of an item of the application in the menus.
pub fn item_label(item: MenuItem) -> (s: &'static str)
    ensures
        s@ == spec_item_label(item),
{
    match item {
        MenuItem::Quit => "Quit",
        MenuItem::Forward => "Forward",
        MenuItem::Back => "Back",
        MenuItem::Top => "Latest",
        MenuItem::Reload => "Reload",
        MenuItem::OpenFiles => "Open Files…",
        MenuItem::OpenFilesInNewWindow => "Open in New Window…",
        MenuItem::WatchDirs => "Watch Directories…",
        MenuItem::Search => "Search…",
        MenuItem::SearchNext => "Search Next",
        MenuItem::SearchPrevious => "Search Previous",
        MenuItem::Outline => "Section Outline…",
        MenuItem::Print => "Print…",
        MenuItem::ZoomIn => "Zoom In",
        MenuItem::ZoomOut => "Zoom Out",
        MenuItem::History => "History…",
        MenuItem::Help => "Show Key Guide…",
        MenuItem::OpenRepo => "Open Repository Page",
        MenuItem::ToggleAlwaysOnTop => "Pin/Unpin On Top",
        MenuItem::ToggleMinimizeWindow => "Minimize",
        MenuItem::ToggleMaximizeWindow => "Maximize",
        MenuItem::NewWindow => "New Window",
        MenuItem::DuplicateWindow => "Duplicate Window",
        MenuItem::CloseWindow => "Close Window",
        MenuItem::CloseAllOtherWindows => "Close All Other Windows",
        MenuItem::EditConfig => "Settings…",
        MenuItem::ToggleMenuBar => "Toggle Menu Bar",
        MenuItem::DeleteHistory => "Delete History",
    }
}

/// The application menu, which only macOS has.
pub open spec fn app_entries(p: Platform) -> Seq<MenuEntry> {
    if p == Platform::MacOs {
        seq![
            MenuEntry::Predefined(Predefined::About),
            MenuEntry::Predefined(Predefined::Separator),
            MenuEntry::Item(MenuItem::EditConfig),
            MenuEntry::Predefined(Predefined::Separator),
            MenuEntry::Predefined(Predefined::Services),
            MenuEntry::Predefined(Predefined::Separator),
            MenuEntry::Predefined(Predefined::Hide),
            MenuEntry::Predefined(Predefined::HideOthers),
            MenuEntry::Predefined(Predefined::ShowAll),
            MenuEntry::Predefined(Predefined::Separator),
            MenuEntry::Item(MenuItem::Quit),
        ]
    } else {
        Seq::empty()
    }
}

/// The File menu.
pub open spec fn file_entries(p: Platform) -> Seq<MenuEntry> {
    seq![
        MenuEntry::Item(MenuItem::OpenFiles),
        MenuEntry::Item(MenuItem::OpenFilesInNewWindow),
        MenuEntry::Item(MenuItem::WatchDirs),
        MenuEntry::Item(MenuItem::Reload),
        MenuEntry::Predefined(Predefined::Separator),
        MenuEntry::Item(MenuItem::Print),
    ] + if p == Platform::MacOs {
        Seq::empty()
    } else {
        seq![MenuEntry::Predefined(Predefined::Separator), MenuEntry::Predefined(Predefined::About)]
    } + if p == Platform::Windows {
        seq![
            MenuEntry::Predefined(Predefined::Separator),
            MenuEntry::Predefined(Predefined::Hide),
            MenuEntry::Predefined(Predefined::HideOthers),
        ]
    } else {
        Seq::empty()
    } + if p == Platform::MacOs {
        Seq::empty()
    } else {
        seq![
            MenuEntry::Predefined(Predefined::Separator),
            MenuEntry::Item(MenuItem::EditConfig),
            MenuEntry::Predefined(Predefined::Separator),
            MenuEntry::Item(MenuItem::Quit),
        ]
    }
}

/// The Edit menu.
pub open spec fn edit_entries(p: Platform) -> Seq<MenuEntry> {
    (if p == Platform::MacOs {
        seq![
            MenuEntry::Predefined(Predefined::Undo),
            MenuEntry::Predefined(Predefined::Redo),
            MenuEntry::Predefined(Predefined::Separator),
        ]
    } else {
        Seq::empty()
    }) + seq![
        MenuEntry::Predefined(Predefined::Cut),
        MenuEntry::Predefined(Predefined::Copy),
        MenuEntry::Predefined(Predefined::Paste),
        MenuEntry::Predefined(Predefined::SelectAll),
        MenuEntry::Predefined(Predefined::Separator),
        MenuEntry::Item(MenuItem::Search),
        MenuEntry::Item(MenuItem::SearchNext),
        MenuEntry::Item(MenuItem::SearchPrevious),
        MenuEntry::Item(MenuItem::Outline),
    ]
}

/// The History menu.
pub open spec fn history_entries() -> Seq<MenuEntry> {
    seq![
        MenuEntry::Item(MenuItem::Forward),
        MenuEntry::Item(MenuItem::Back),
        MenuEntry::Item(MenuItem::Top),
        MenuEntry::Predefined(Predefined::Separator),
        MenuEntry::Item(MenuItem::History),
        MenuEntry::Item(MenuItem::DeleteHistory),
    ]
}

/// The Window menu.
pub open spec fn window_entries(p: Platform) -> Seq<MenuEntry> {
    seq![
        MenuEntry::Item(MenuItem::NewWindow),
        MenuEntry::Item(MenuItem::DuplicateWindow),
        MenuEntry::Item(MenuItem::CloseWindow),
        MenuEntry::Item(MenuItem::CloseAllOtherWindows),
        MenuEntry::Predefined(Predefined::Separator),
        MenuEntry::Item(MenuItem::ToggleMinimizeWindow),
        MenuEntry::Item(MenuItem::ToggleMaximizeWindow),
    ] + if p == Platform::MacOs {
        seq![
            MenuEntry::Predefined(Predefined::Fullscreen),
            MenuEntry::Item(MenuItem::ToggleAlwaysOnTop),
            MenuEntry::Predefined(Predefined::BringAllToFront),
        ]
    } else {
        seq![MenuEntry::Item(MenuItem::ToggleAlwaysOnTop)]
    } + seq![
        MenuEntry::Predefined(Predefined::Separator),
        MenuEntry::Item(MenuItem::ZoomIn),
        MenuEntry::Item(MenuItem::ZoomOut),
        MenuEntry::Predefined(Predefined::Separator),
    ] + if p == Platform::MacOs {
        Seq::empty()
    } else {
        seq![
            MenuEntry::Item(MenuItem::ToggleMenuBar),
            MenuEntry::Predefined(Predefined::BringAllToFront),
        ]
    }
}

/// The Help menu.
pub open spec fn help_entries() -> Seq<MenuEntry> {
    seq![MenuEntry::Item(MenuItem::Help), MenuEntry::Item(MenuItem::OpenRepo)]
}

/// The menus of the menu bar, by title, in order.
pub open spec fn spec_menu_bar(p: Platform) -> Seq<(Seq<char>, Seq<MenuEntry>)> {
    (if p == Platform::MacOs { seq![("Shiba"@, app_entries(p))] } else { Seq::empty() }) + seq![
        ("&File"@, file_entries(p)),
        ("&Edit"@, edit_entries(p)),
        ("History"@, history_entries()),
        ("&Window"@, window_entries(p)),
        ("&Help"@, help_entries()),
    ]
}

/// All the entries of the menu bar, menu after menu.
pub open spec fn bar_entries(p: Platform) -> Seq<MenuEntry> {
    app_entries(p) + file_entries(p) + edit_entries(p) + history_entries() + window_entries(p) + help_entries()
}

/// The menus of a submenu list, as values.
pub open spec fn submenu_views(s: Seq<Submenu>) -> Seq<(Seq<char>, Seq<MenuEntry>)> {
    s.map_values(|m: Submenu| (m.title@, m.entries@))
}

fn submenu(title: &str, entries: Vec<MenuEntry>) -> (m: Submenu)
    ensures
        m.title@ == title@,
        m.entries@ == entries@,
{
    Submenu { title: String::from_str(title), entries }
}

fn item(i: MenuItem) -> (e: MenuEntry)
    ensures
        e == MenuEntry::Item(i),
{
    MenuEntry::Item(i)
}

fn predefined(p: Predefined) -> (e: MenuEntry)
    ensures
        e == MenuEntry::Predefined(p),
{
    MenuEntry::Predefined(p)
}

fn file_menu(p: Platform) -> (v: Vec<MenuEntry>)
    ensures
        v@ == file_entries(p),
{
    let mut v = vec![
        item(MenuItem::OpenFiles),
        item(MenuItem::OpenFilesInNewWindow),
        item(MenuItem::WatchDirs),
        item(MenuItem::Reload),
        predefined(Predefined::Separator),
        item(MenuItem::Print),
    ];
    if p != Platform::MacOs {
        v.push(predefined(Predefined::Separator));
        v.push(predefined(Predefined::About));
    }
    if p == Platform::Windows {
        v.push(predefined(Predefined::Separator));
        v.push(predefined(Predefined::Hide));
        v.push(predefined(Predefined::HideOthers));
    }
    if p != Platform::MacOs {
        v.push(predefined(Predefined::Separator));
        v.push(item(MenuItem::EditConfig));
        v.push(predefined(Predefined::Separator));
        v.push(item(MenuItem::Quit));
    }
    assert(v@ =~= file_entries(p));
    v
}

fn edit_menu(p: Platform) -> (v: Vec<MenuEntry>)
    ensures
        v@ == edit_entries(p),
{
    let mut v: Vec<MenuEntry> = Vec::new();
    if p == Platform::MacOs {
        v.push(predefined(Predefined::Undo));
        v.push(predefined(Predefined::Redo));
        v.push(predefined(Predefined::Separator));
    }
    v.push(predefined(Predefined::Cut));
    v.push(predefined(Predefined::Copy));
    v.push(predefined(Predefined::Paste));
    v.push(predefined(Predefined::SelectAll));
    v.push(predefined(Predefined::Separator));
    v.push(item(MenuItem::Search));
    v.push(item(MenuItem::SearchNext));
    v.push(item(MenuItem::SearchPrevious));
    v.push(item(MenuItem::Outline));
    assert(v@ =~= edit_entries(p));
    v
}

fn window_menu(p: Platform) -> (v: Vec<MenuEntry>)
    ensures
        v@ == window_entries(p),
{
    let mut v = vec![
        item(MenuItem::NewWindow),
        item(MenuItem::DuplicateWindow),
        item(MenuItem::CloseWindow),
        item(MenuItem::CloseAllOtherWindows),
        predefined(Predefined::Separator),
        item(MenuItem::ToggleMinimizeWindow),
        item(MenuItem::ToggleMaximizeWindow),
    ];
    if p == Platform::MacOs {
        v.push(predefined(Predefined::Fullscreen));
        v.push(item(MenuItem::ToggleAlwaysOnTop));
        v.push(predefined(Predefined::BringAllToFront));
    } else {
        v.push(item(MenuItem::ToggleAlwaysOnTop));
    }
    v.push(predefined(Predefined::Separator));
    v.push(item(MenuItem::ZoomIn));
    v.push(item(MenuItem::ZoomOut));
    v.push(predefined(Predefined::Separator));
    if p != Platform::MacOs {
        v.push(item(MenuItem::ToggleMenuBar));
        v.push(predefined(Predefined::BringAllToFront));
    }
    assert(v@ =~= window_entries(p));
    v
}

/// The menus of the menu bar on the platform.
pub fn menu_bar(p: Platform) -> (bar: Vec<Submenu>)
    ensures
        submenu_views(bar@) == spec_menu_bar(p),
{
    let mut bar: Vec<Submenu> = Vec::new();
    if p == Platform::MacOs {
        let app = vec![
            predefined(Predefined::About),
            predefined(Predefined::Separator),
            item(MenuItem::EditConfig),
            predefined(Predefined::Separator),
            predefined(Predefined::Services),
            predefined(Predefined::Separator),
            predefined(Predefined::Hide),
            predefined(Predefined::HideOthers),
            predefined(Predefined::ShowAll),
            predefined(Predefined::Separator),
            item(MenuItem::Quit),
        ];
        assert(app@ =~= app_entries(p));
        bar.push(submenu("Shiba", app));
    }
    let ghost first = submenu_views(bar@);
    bar.push(submenu("&File", file_menu(p)));
    bar.push(submenu("&Edit", edit_menu(p)));
    let history = vec![
        item(MenuItem::Forward),
        item(MenuItem::Back),
        item(MenuItem::Top),
        predefined(Predefined::Separator),
        item(MenuItem::History),
        item(MenuItem::DeleteHistory),
    ];
    assert(history@ =~= history_entries());
    bar.push(submenu("History", history));
    bar.push(submenu("&Window", window_menu(p)));
    let help = vec![item(MenuItem::Help), item(MenuItem::OpenRepo)];
    assert(help@ =~= help_entries());
    bar.push(submenu("&Help", help));
    assert(submenu_views(bar@) =~= spec_menu_bar(p));
    bar
}

/// Where an item of the application stands among the entries of the menu
/// bar; -1 where it has no place.
pub open spec fn item_position(p: Platform, item: MenuItem) -> int {
    match p {
        Platform::MacOs => match item {
            MenuItem::Quit => 10,
            MenuItem::Forward => 29,
            MenuItem::Back => 30,
            MenuItem::Top => 31,
            MenuItem::Reload => 14,
            MenuItem::OpenFiles => 11,
            MenuItem::OpenFilesInNewWindow => 12,
            MenuItem::WatchDirs => 13,
            MenuItem::Search => 25,
            MenuItem::SearchNext => 26,
            MenuItem::SearchPrevious => 27,
            MenuItem::Outline => 28,
            MenuItem::Print => 16,
            MenuItem::ZoomIn => 46,
            MenuItem::ZoomOut => 47,
            MenuItem::History => 33,
            MenuItem::Help => 49,
            MenuItem::OpenRepo => 50,
            MenuItem::ToggleAlwaysOnTop => 43,
            MenuItem::ToggleMinimizeWindow => 40,
            MenuItem::ToggleMaximizeWindow => 41,
            MenuItem::NewWindow => 35,
            MenuItem::DuplicateWindow => 36,
            MenuItem::CloseWindow => 37,
            MenuItem::CloseAllOtherWindows => 38,
            MenuItem::EditConfig => 2,
            MenuItem::ToggleMenuBar => -1,
            MenuItem::DeleteHistory => 34,
        },
        Platform::Windows => match item {
            MenuItem::Quit => 14,
            MenuItem::Forward => 24,
            MenuItem::Back => 25,
            MenuItem::Top => 26,
            MenuItem::Reload => 3,
            MenuItem::OpenFiles => 0,
            MenuItem::OpenFilesInNewWindow => 1,
            MenuItem::WatchDirs => 2,
            MenuItem::Search => 20,
            MenuItem::SearchNext => 21,
            MenuItem::SearchPrevious => 22,
            MenuItem::Outline => 23,
            MenuItem::Print => 5,
            MenuItem::ZoomIn => 39,
            MenuItem::ZoomOut => 40,
            MenuItem::History => 28,
            MenuItem::Help => 44,
            MenuItem::OpenRepo => 45,
            MenuItem::ToggleAlwaysOnTop => 37,
            MenuItem::ToggleMinimizeWindow => 35,
            MenuItem::ToggleMaximizeWindow => 36,
            MenuItem::NewWindow => 30,
            MenuItem::DuplicateWindow => 31,
            MenuItem::CloseWindow => 32,
            MenuItem::CloseAllOtherWindows => 33,
            MenuItem::EditConfig => 12,
            MenuItem::ToggleMenuBar => 42,
            MenuItem::DeleteHistory => 29,
        },
        Platform::Linux => match item {
            MenuItem::Quit => 11,
            MenuItem::Forward => 21,
            MenuItem::Back => 22,
            MenuItem::Top => 23,
            MenuItem::Reload => 3,
            MenuItem::OpenFiles => 0,
            MenuItem::OpenFilesInNewWindow => 1,
            MenuItem::WatchDirs => 2,
            MenuItem::Search => 17,
            MenuItem::SearchNext => 18,
            MenuItem::SearchPrevious => 19,
            MenuItem::Outline => 20,
            MenuItem::Print => 5,
            MenuItem::ZoomIn => 36,
            MenuItem::ZoomOut => 37,
            MenuItem::History => 25,
            MenuItem::Help => 41,
            MenuItem::OpenRepo => 42,
            MenuItem::ToggleAlwaysOnTop => 34,
            MenuItem::ToggleMinimizeWindow => 32,
            MenuItem::ToggleMaximizeWindow => 33,
            MenuItem::NewWindow => 27,
            MenuItem::DuplicateWindow => 28,
            MenuItem::CloseWindow => 29,
            MenuItem::CloseAllOtherWindows => 30,
            MenuItem::EditConfig => 9,
            MenuItem::ToggleMenuBar => 39,
            MenuItem::DeleteHistory => 26,
        },
    }
}

/// Every item of the application has one place in the menu bar, and no
/// more, but the one that toggles the menu bar on macOS, whose menu bar is
/// always shown: that one has none.
pub proof fn law_every_item_in_menu_bar(p: Platform, item: MenuItem)
    ensures
        bar_entries(p).contains(MenuEntry::Item(item)) <==> !(item == MenuItem::ToggleMenuBar && p == Platform::MacOs),
        forall|i: int, j: int| 0 <= i < bar_entries(p).len() && 0 <= j < bar_entries(p).len()
            && bar_entries(p)[i] == MenuEntry::Item(item) && bar_entries(p)[j] == MenuEntry::Item(item) ==> i == j,
{
    let s = bar_entries(p);
    let e = MenuEntry::Item(item);
    if item == MenuItem::ToggleMenuBar && p == Platform::MacOs {
        assert forall|i: int| 0 <= i < s.len() implies s[i] != e by {}
    } else {
        assert(s[item_position(p, item)] == e);
        assert forall|i: int| 0 <= i < s.len() && s[i] == e implies i == item_position(p, item) by {}
    }
}

/// The item that the first of the ids given to the items of the menus that
/// equals `id` stands for.
pub open spec fn spec_item_of_id(ids: Seq<(Seq<char>, MenuItem)>, id: Seq<char>) -> Option<MenuItem>
    decreases ids.len(),
{
    if ids.len() == 0 {
        None
    } else if ids[0].0 == id {
        Some(ids[0].1)
    } else {
        spec_item_of_id(ids.drop_first(), id)
    }
}

/// The ids given to the items of the menus, as values.
pub open spec fn id_views(ids: Seq<(String, MenuItem)>) -> Seq<(Seq<char>, MenuItem)> {
    ids.map_values(|e: (String, MenuItem)| (e.0@, e.1))
}

/// The item that a click in a menu is about, by the id that the menu gave
/// it; an id that no item was given is an error.
pub fn menu_item_of_id(ids: &[(String, MenuItem)], id: &str) -> (r: Result<MenuItem, String>)
    ensures
        match spec_item_of_id(id_views(ids@), id@) {
            Some(item) => r == Ok::<MenuItem, String>(item),
            None => r matches Err(m) && m@ == "Unknown menu item ID in event: "@ + id@,
        },
{
    let mut k: usize = 0;
    assert(id_views(ids@).skip(0) =~= id_views(ids@));
    while k < ids.len()
        invariant
            k <= ids@.len(),
            spec_item_of_id(id_views(ids@), id@) == spec_item_of_id(id_views(ids@).skip(k as int), id@),
        decreases ids.len() - k,
    {
        let ghost rest = id_views(ids@).skip(k as int);
        assert(rest.drop_first() =~= id_views(ids@).skip(k + 1));
        assert(rest[0] == (ids@[k as int].0@, ids@[k as int].1));
        if crate::text::same_str(ids[k].0.as_str(), id) {
            return Ok(ids[k].1);
        }
        k = k + 1;
    }
    assert(id_views(ids@).skip(k as int).len() == 0);
    let mut m = String::from_str("Unknown menu item ID in event: ");
    m.append(id);
    Err(m)
}

/// Whether a menu bar is shown, from whether the platform always shows it
/// and the state it is in.
pub open spec fn visible_in(always_visible: bool, state: Option<bool>) -> bool {
    always_visible || state == Some(true)
}

/// The state of a menu bar after it was toggled.
pub open spec fn toggled_state(always_visible: bool, state: Option<bool>) -> Option<bool> {
    if always_visible {
        state
    } else {
        match state {
            None => Some(true),
            Some(v) => Some(!v),
        }
    }
}

/// Toggling the menu bar of a window flips whether it is shown, unless the
/// platform always shows it; toggling it twice shows it as before.
pub proof fn law_toggle_flips_visibility(always_visible: bool, state: Option<bool>)
    ensures
        !always_visible ==> visible_in(always_visible, toggled_state(always_visible, state))
            == !visible_in(always_visible, state),
        visible_in(always_visible, toggled_state(always_visible, toggled_state(always_visible, state)))
            == visible_in(always_visible, state),
{
}

} // verus!
