use crate::preview::Preview;
use vstd::prelude::*;

verus! {

/// What can go wrong when a window is looked up.
#[derive(Clone, Copy, PartialEq, Eq, Structural, Debug)]
pub enum Error<Id> {
    UnknownWindow(Id),
    NoWindowAvailable,
}

impl<Id: Copy> Error<Id> {
    /// The error message; the window's id is written by `id_text`.
    pub fn message(&self, id_text: &str) -> (s: String)
        ensures
            match self {
                Error::UnknownWindow(_) => s@ == "unknown window ID: "@ + id_text@,
                Error::NoWindowAvailable => s@ == "no window is available"@,
            },
    {
        match self {
            Error::UnknownWindow(_) => {
                let mut s = String::from_str("unknown window ID: ");
                s.append(id_text);
                s
            },
            Error::NoWindowAvailable => String::from_str("no window is available"),
        }
    }
}

/// The console of the parent process on Windows, when it could be attached.
pub struct WindowsConsole {
    pub attached: bool,
}

/// The windows that are open, each with the document it previews, and the
/// one that has focus.
pub struct WindowManager<W> {
    windows: Vec<(u64, W, Preview)>,
    focused: Option<u64>,
    home_dir: Option<String>,
}

impl<W> WindowManager<W> {
    /// The ids of the open windows, in the order they were opened.
    pub closed spec fn spec_ids(&self) -> Seq<u64> {
        self.windows@.map_values(|e: (u64, W, Preview)| e.0)
    }

    /// The previews of the open windows, in the order of `spec_ids`.
    pub closed spec fn spec_previews(&self) -> Seq<Preview> {
        self.windows@.map_values(|e: (u64, W, Preview)| e.2)
    }

    /// The windows themselves, in the order of `spec_ids`.
    pub closed spec fn spec_handles(&self) -> Seq<W> {
        self.windows@.map_values(|e: (u64, W, Preview)| e.1)
    }

    /// The window with the id.
    pub open spec fn spec_window_of(&self, id: u64) -> W {
        self.spec_handles()[self.spec_ids().index_of(id)]
    }

    /// The home directory that previews of new windows are given.
    pub closed spec fn spec_home_dir(&self) -> Option<Seq<char>> {
        match self.home_dir {
            Some(h) => Some(h@),
            None => None,
        }
    }

    /// The preview of the window with the id.
    pub open spec fn spec_preview_of(&self, id: u64) -> Preview {
        self.spec_previews()[self.spec_ids().index_of(id)]
    }

    /// The window that has focus, if one was focused.
    pub closed spec fn spec_focused(&self) -> Option<u64> {
        self.focused
    }

    /// The manager's invariant: no id twice, and focus on an open window.
    pub open spec fn wf(&self) -> bool {
        &&& self.spec_ids().no_duplicates()
        &&& self.spec_focused() matches Some(f) ==> self.spec_ids().contains(f)
    }

    /// The window that counts as focused: the focused one, or else the first
    /// one that is open.
    pub open spec fn spec_focused_id(&self) -> Option<u64> {
        match self.spec_focused() {
            Some(f) => Some(f),
            None => if self.spec_ids().len() > 0 { Some(self.spec_ids()[0]) } else { None },
        }
    }

    /// The window that counts as focused is always an open one: the
    /// focused window, or else the first one open, and there is one exactly
    /// when a window is open. Every operation of the manager keeps `wf`, so
    /// this holds after any sequence of them.
    pub proof fn law_focus_names_open_window(&self)
        requires
            self.wf(),
        ensures
            self.spec_focused_id() is None <==> self.spec_ids().len() == 0,
            self.spec_focused_id() matches Some(f) ==> self.spec_ids().contains(f),
            self.spec_focused() matches Some(f) ==> self.spec_focused_id() == Some(f),
            self.spec_focused() is None && self.spec_ids().len() > 0
                ==> self.spec_focused_id() == Some(self.spec_ids()[0]),
    {
        if let Some(f) = self.spec_focused() {
            assert(self.spec_ids().contains(f));
        } else if self.spec_ids().len() > 0 {
            assert(self.spec_ids().contains(self.spec_ids()[0]));
        }
    }

    /// No window; previews of new windows show paths from `home_dir`.
    pub fn new(home_dir: Option<String>) -> (m: Self)
        ensures
            m.wf(),
            m.spec_ids().len() == 0,
            m.spec_focused() is None,
            m.spec_home_dir() == match home_dir {
                Some(h) => Some(h@),
                None => None::<Seq<char>>,
            },
    {
        let m = WindowManager { windows: Vec::new(), focused: None, home_dir };
        assert(m.spec_ids() =~= Seq::<u64>::empty());
        m
    }

    fn position(&self, id: u64) -> (r: Option<usize>)
        ensures
            match r {
                Some(i) => i < self.spec_ids().len() && self.spec_ids()[i as int] == id,
                None => !self.spec_ids().contains(id),
            },
    {
        let mut i: usize = 0;
        while i < self.windows.len()
            invariant
                i <= self.windows@.len(),
                forall|j: int| 0 <= j < i ==> self.spec_ids()[j] != id,
            decreases self.windows.len() - i,
        {
            if self.windows[i].0 == id {
                return Some(i);
            }
            i = i + 1;
        }
        None
    }

    /// The window with the id and its preview.
    pub fn get(&self, id: u64) -> (r: Result<(&W, &Preview), Error<u64>>)
        ensures
            r is Ok <==> self.spec_ids().contains(id),
            r is Err ==> r == Err::<(&W, &Preview), Error<u64>>(Error::UnknownWindow(id)),
            self.wf() ==> (r matches Ok((w, p)) ==> *w == self.spec_window_of(id) && *p == self.spec_preview_of(id)),
    {
        match self.position(id) {
            Some(i) => {
                proof {
                    if self.wf() {
                        self.lemma_index_of(id, i as int);
                    }
                }
                Ok((&self.windows[i].1, &self.windows[i].2))
            },
            None => Err(Error::UnknownWindow(id)),
        }
    }

    /// The window with the id and its preview, to change them.
    pub fn get_mut(&mut self, id: u64) -> (r: Result<(&mut W, &mut Preview), Error<u64>>)
        ensures
            r is Ok <==> old(self).spec_ids().contains(id),
            r is Err ==> r == Err::<(&mut W, &mut Preview), Error<u64>>(Error::UnknownWindow(id)),
            final(self).spec_ids() == old(self).spec_ids(),
            final(self).spec_focused() == old(self).spec_focused(),
            final(self).spec_home_dir() == old(self).spec_home_dir(),
            r is Err ==> final(self).spec_previews() == old(self).spec_previews(),
            old(self).wf() ==> (r matches Ok((w, p)) ==> {
                &&& *w == old(self).spec_window_of(id)
                &&& *p == old(self).spec_preview_of(id)
            }),
            old(self).wf() ==> (r matches Ok((w, p)) ==> {
                &&& final(self).spec_window_of(id) == *final(w)
                &&& final(self).spec_preview_of(id) == *final(p)
                &&& forall|x: u64| x != id && #[trigger] old(self).spec_ids().contains(x)
                    ==> final(self).spec_preview_of(x) == old(self).spec_preview_of(x)
                        && final(self).spec_window_of(x) == old(self).spec_window_of(x)
            }),
    {
        match self.position(id) {
            Some(i) => {
                proof {
                    if self.wf() {
                        self.lemma_index_of(id, i as int);
                    }
                }
                proof {
                    let ghost m0 = *self;
                    if m0.wf() {
                        assert forall|m2: Self| #![trigger m2.spec_window_of(id)] #![trigger m2.spec_preview_of(id)]
                            m2.windows@ == m0.windows@.update(i as int, (id, m2.windows@[i as int].1, m2.windows@[i as int].2))
                            implies m2.spec_window_of(id) == m2.windows@[i as int].1
                                && m2.spec_preview_of(id) == m2.windows@[i as int].2 by {
                            m0.lemma_index_of(id, i as int);
                            assert(m2.spec_ids() =~= m0.spec_ids());
                            m2.lemma_index_of(id, i as int);
                        }
                        assert forall|m2: Self, x: u64| #![trigger m2.spec_window_of(x), m0.spec_ids().contains(x)]
                            #![trigger m2.spec_preview_of(x), m0.spec_ids().contains(x)]
                            x != id && m0.spec_ids().contains(x)
                            && m2.windows@ == m0.windows@.update(i as int, (id, m2.windows@[i as int].1, m2.windows@[i as int].2))
                            implies m2.spec_window_of(x) == m0.spec_window_of(x)
                                && m2.spec_preview_of(x) == m0.spec_preview_of(x) by {
                            let k = m0.spec_ids().index_of(x);
                            assert(0 <= k < m0.spec_ids().len() && m0.spec_ids()[k] == x);
                            m0.lemma_index_of(x, k);
                            assert(m2.spec_ids() =~= m0.spec_ids());
                            m2.lemma_index_of(x, k);
                            assert(k != i);
                        }
                    }
                }
                let entry = &mut self.windows[i];
                Ok((&mut entry.1, &mut entry.2))
            },
            None => Err(Error::UnknownWindow(id)),
        }
    }

    /// The `index`-th open window with its id and its preview, to change
    /// them; going through the indices below the number of windows visits
    /// every window once.
    pub fn entry_mut(&mut self, index: usize) -> (r: (u64, &mut W, &mut Preview))
        requires
            old(self).wf(),
            index < old(self).spec_ids().len(),
        ensures
            r.0 == old(self).spec_ids()[index as int],
            *r.1 == old(self).spec_window_of(r.0),
            *r.2 == old(self).spec_preview_of(r.0),
            final(self).spec_ids() == old(self).spec_ids(),
            final(self).spec_focused() == old(self).spec_focused(),
            final(self).spec_home_dir() == old(self).spec_home_dir(),
            final(self).spec_window_of(r.0) == *final(r.1),
            final(self).spec_preview_of(r.0) == *final(r.2),
            forall|x: u64| x != r.0 && #[trigger] old(self).spec_ids().contains(x)
                ==> final(self).spec_preview_of(x) == old(self).spec_preview_of(x)
                    && final(self).spec_window_of(x) == old(self).spec_window_of(x),
    {
        let i = index;
        let id = self.windows[i].0;
        proof {
            let ghost m0 = *self;
            m0.lemma_index_of(id, i as int);
            assert forall|m2: Self| #![trigger m2.spec_window_of(id)] #![trigger m2.spec_preview_of(id)]
                m2.windows@ == m0.windows@.update(i as int, (id, m2.windows@[i as int].1, m2.windows@[i as int].2))
                implies m2.spec_window_of(id) == m2.windows@[i as int].1
                    && m2.spec_preview_of(id) == m2.windows@[i as int].2 by {
                assert(m2.spec_ids() =~= m0.spec_ids());
                m2.lemma_index_of(id, i as int);
            }
            assert forall|m2: Self, x: u64| #![trigger m2.spec_window_of(x), m0.spec_ids().contains(x)]
                #![trigger m2.spec_preview_of(x), m0.spec_ids().contains(x)]
                x != id && m0.spec_ids().contains(x)
                && m2.windows@ == m0.windows@.update(i as int, (id, m2.windows@[i as int].1, m2.windows@[i as int].2))
                implies m2.spec_window_of(x) == m0.spec_window_of(x)
                    && m2.spec_preview_of(x) == m0.spec_preview_of(x) by {
                let k = m0.spec_ids().index_of(x);
                assert(0 <= k < m0.spec_ids().len() && m0.spec_ids()[k] == x);
                m0.lemma_index_of(x, k);
                assert(m2.spec_ids() =~= m0.spec_ids());
                m2.lemma_index_of(x, k);
                assert(k != i);
            }
        }
        let entry = &mut self.windows[i];
        (id, &mut entry.1, &mut entry.2)
    }

    /// The window that has focus and its preview: the focused window, or
    /// else the first one open.
    pub fn focused(&self) -> (r: Result<(&W, &Preview), Error<u64>>)
        requires
            self.wf(),
        ensures
            r is Ok <==> self.spec_focused_id() is Some,
            r is Err ==> r == Err::<(&W, &Preview), Error<u64>>(Error::NoWindowAvailable),
            r matches Ok((w, p)) ==> self.spec_focused_id() matches Some(f)
                && *w == self.spec_window_of(f) && *p == self.spec_preview_of(f),
    {
        match self.focused {
            Some(id) => self.get(id),
            None => {
                if self.windows.len() > 0 {
                    proof {
                        self.lemma_index_of(self.windows@[0].0, 0);
                    }
                    Ok((&self.windows[0].1, &self.windows[0].2))
                } else {
                    Err(Error::NoWindowAvailable)
                }
            },
        }
    }

    /// The preview of the window with the id.
    pub fn preview(&self, id: u64) -> (r: Option<&Preview>)
        requires
            self.wf(),
        ensures
            r is Some <==> self.spec_ids().contains(id),
            r matches Some(p) ==> *p == self.spec_preview_of(id),
    {
        match self.position(id) {
            Some(i) => {
                proof {
                    self.lemma_index_of(id, i as int);
                }
                Some(&self.windows[i].2)
            },
            None => None,
        }
    }

    proof fn lemma_index_of(&self, id: u64, i: int)
        requires
            self.spec_ids().no_duplicates(),
            0 <= i < self.spec_ids().len(),
            self.spec_ids()[i] == id,
        ensures
            self.spec_ids().index_of(id) == i,
            self.spec_preview_of(id) == self.windows@[i].2,
            self.spec_window_of(id) == self.windows@[i].1,
            self.spec_previews().len() == self.spec_ids().len(),
    {
        let k = self.spec_ids().index_of(id);
        assert(self.spec_ids().contains(id));
        assert(0 <= k < self.spec_ids().len() && self.spec_ids()[k] == id);
    }

    /// Puts a preview in the window with the id and gives back the one it
    /// had; `None`, and no change, when no window has the id.
    pub fn replace_preview(&mut self, id: u64, preview: Preview) -> (r: Option<Preview>)
        requires
            old(self).wf(),
        ensures
            final(self).wf(),
            final(self).spec_ids() == old(self).spec_ids(),
            final(self).spec_focused() == old(self).spec_focused(),
            final(self).spec_home_dir() == old(self).spec_home_dir(),
            r is Some <==> old(self).spec_ids().contains(id),
            r matches Some(p) ==> p == old(self).spec_preview_of(id) && final(self).spec_preview_of(id) == preview,
            r is None ==> final(self).spec_previews() == old(self).spec_previews(),
            forall|x: u64| x != id && #[trigger] old(self).spec_ids().contains(x)
                ==> final(self).spec_preview_of(x) == old(self).spec_preview_of(x),
    {
        match self.position(id) {
            Some(i) => {
                proof {
                    self.lemma_index_of(id, i as int);
                }
                let ghost ids = self.spec_ids();
                let ghost previews = self.spec_previews();
                let mut p = preview;
                let entry = &mut self.windows[i];
                std::mem::swap(&mut entry.2, &mut p);
                assert(self.spec_ids() =~= ids);
                assert(self.spec_previews() =~= previews.update(i as int, preview));
                proof {
                    self.lemma_index_of(id, i as int);
                    assert forall|x: u64| x != id && #[trigger] ids.contains(x) implies
                        self.spec_preview_of(x) == old(self).spec_preview_of(x) by {
                        let k = ids.index_of(x);
                        assert(ids.contains(x));
                        assert(0 <= k < ids.len() && ids[k] == x);
                        assert(k != i);
                    }
                }
                Some(p)
            },
            None => None,
        }
    }

    /// The id of the window that has focus: the focused window, or else the
    /// first one open.
    pub fn focused_id(&self) -> (r: Result<u64, Error<u64>>)
        ensures
            match self.spec_focused_id() {
                Some(id) => r == Ok::<u64, Error<u64>>(id),
                None => r == Err::<u64, Error<u64>>(Error::NoWindowAvailable),
            },
    {
        match self.focused {
            Some(id) => Ok(id),
            None => {
                if self.windows.len() > 0 {
                    Ok(self.windows[0].0)
                } else {
                    Err(Error::NoWindowAvailable)
                }
            },
        }
    }

    /// The ids of the open windows.
    pub fn ids(&self) -> (v: Vec<u64>)
        ensures
            v@ == self.spec_ids(),
    {
        let mut v: Vec<u64> = Vec::new();
        let mut i: usize = 0;
        while i < self.windows.len()
            invariant
                i <= self.windows@.len(),
                v@ == self.spec_ids().take(i as int),
            decreases self.windows.len() - i,
        {
            v.push(self.windows[i].0);
            assert(self.spec_ids().take(i + 1) =~= self.spec_ids().take(i as int).push(self.spec_ids()[i as int]));
            i = i + 1;
        }
        assert(self.spec_ids().take(i as int) =~= self.spec_ids());
        v
    }

    /// Whether the window is the only one open.
    pub fn is_last(&self, id: u64) -> (b: bool)
        ensures
            b == (self.spec_ids().len() == 1 && self.spec_ids().contains(id)),
    {
        self.windows.len() == 1 && self.position(id).is_some()
    }

    /// Focuses a window that is open; an unknown id changes nothing.
    pub fn set_focus(&mut self, id: u64)
        requires
            old(self).wf(),
        ensures
            final(self).wf(),
            final(self).spec_ids() == old(self).spec_ids(),
            final(self).spec_previews() == old(self).spec_previews(),
            final(self).spec_home_dir() == old(self).spec_home_dir(),
            final(self).spec_focused() == if old(self).spec_ids().contains(id) {
                Some(id)
            } else {
                old(self).spec_focused()
            },
    {
        if self.focused == Some(id) {
            return;
        }
        if self.position(id).is_none() {
            return;
        }
        self.focused = Some(id);
    }

    /// Opens a window with an empty preview and focuses it; a window that
    /// had the id is replaced in its place.
    pub fn add(&mut self, id: u64, window: W)
        requires
            old(self).wf(),
        ensures
            final(self).wf(),
            final(self).spec_focused() == Some(id),
            old(self).spec_ids().contains(id) ==> final(self).spec_ids() == old(self).spec_ids(),
            !old(self).spec_ids().contains(id) ==> final(self).spec_ids() == old(self).spec_ids().push(id),
            final(self).spec_home_dir() == old(self).spec_home_dir(),
            final(self).spec_preview_of(id).spec_path().len() == 0,
            final(self).spec_preview_of(id).spec_content().spec_source().len() == 0,
            final(self).spec_preview_of(id).spec_content().spec_base_dir().len() == 0,
            final(self).spec_preview_of(id).spec_home_dir() == old(self).spec_home_dir(),
            forall|x: u64| x != id && #[trigger] old(self).spec_ids().contains(x)
                ==> final(self).spec_preview_of(x) == old(self).spec_preview_of(x),
    {
        let home = match &self.home_dir {
            Some(h) => Some(h.clone()),
            None => None,
        };
        let preview = Preview::new(home);
        let ghost ids = self.spec_ids();
        let ghost previews = self.spec_previews();
        let ghost fresh = preview;
        match self.position(id) {
            Some(i) => {
                self.windows.set(i, (id, window, preview));
                assert(self.spec_ids() =~= ids);
                assert(self.spec_ids()[i as int] == id);
                assert(self.spec_previews() =~= previews.update(i as int, fresh));
                proof {
                    self.lemma_index_of(id, i as int);
                    assert forall|x: u64| x != id && #[trigger] ids.contains(x) implies
                        self.spec_preview_of(x) == old(self).spec_preview_of(x) by {
                        let k = ids.index_of(x);
                        assert(ids.contains(x));
                        assert(0 <= k < ids.len() && ids[k] == x);
                    }
                }
            },
            None => {
                self.windows.push((id, window, preview));
                assert(self.spec_ids() =~= ids.push(id));
                assert(self.spec_previews() =~= previews.push(fresh));
                assert(self.spec_ids()[ids.len() as int] == id);
                assert forall|a: int, b: int| 0 <= a < b < self.spec_ids().len() implies
                    self.spec_ids()[a] != self.spec_ids()[b] by {
                    if b < ids.len() {
                        assert(ids[a] != ids[b]);
                    } else {
                        assert(ids[a] != id);
                    }
                }
                proof {
                    self.lemma_index_of(id, ids.len() as int);
                    assert forall|x: u64| x != id && #[trigger] ids.contains(x) implies
                        self.spec_preview_of(x) == old(self).spec_preview_of(x) by {
                        let k = ids.index_of(x);
                        assert(ids.contains(x));
                        assert(0 <= k < ids.len() && ids[k] == x);
                        assert(self.spec_ids()[k] == x);
                        self.lemma_index_of(x, k);
                    }
                }
            },
        }
        self.focused = Some(id);
    }

    /// Closes a window; returns whether it was open. Closing the focused
    /// window leaves no window focused.
    pub fn close(&mut self, id: u64) -> (removed: bool)
        requires
            old(self).wf(),
        ensures
            final(self).wf(),
            removed == old(self).spec_ids().contains(id),
            !final(self).spec_ids().contains(id),
            forall|x: u64| x != id ==> (final(self).spec_ids().contains(x) == old(self).spec_ids().contains(x)),
            final(self).spec_focused() == if old(self).spec_focused() == Some(id) {
                None
            } else {
                old(self).spec_focused()
            },
            final(self).spec_home_dir() == old(self).spec_home_dir(),
            forall|x: u64| x != id && #[trigger] old(self).spec_ids().contains(x)
                ==> final(self).spec_preview_of(x) == old(self).spec_preview_of(x)
                    && final(self).spec_window_of(x) == old(self).spec_window_of(x),
            removed ==> final(self).spec_ids() == old(self).spec_ids().remove(old(self).spec_ids().index_of(id)),
            !removed ==> final(self).spec_ids() == old(self).spec_ids()
                && final(self).spec_previews() == old(self).spec_previews()
                && final(self).spec_handles() == old(self).spec_handles(),
    {
        let ghost ids = self.spec_ids();
        let ghost previews = self.spec_previews();
        let ghost handles = self.spec_handles();
        let removed = match self.position(id) {
            Some(i) => {
                self.windows.remove(i);
                assert(self.spec_ids() =~= ids.remove(i as int));
                assert forall|a: int, b: int| 0 <= a < b < self.spec_ids().len() implies
                    self.spec_ids()[a] != self.spec_ids()[b] by {
                    let a2 = if a < i { a } else { a + 1 };
                    let b2 = if b < i { b } else { b + 1 };
                    assert(self.spec_ids()[a] == ids[a2] && self.spec_ids()[b] == ids[b2]);
                }
                assert forall|x: u64| #[trigger] self.spec_ids().contains(x) <==> (x != id && ids.contains(x)) by {
                    if self.spec_ids().contains(x) {
                        let k = choose|k: int| 0 <= k < self.spec_ids().len() && self.spec_ids()[k] == x;
                        let k2 = if k < i { k } else { k + 1 };
                        assert(ids[k2] == x);
                        assert(k2 != i);
                    }
                    if x != id && ids.contains(x) {
                        let k = choose|k: int| 0 <= k < ids.len() && ids[k] == x;
                        assert(k != i);
                        let k2 = if k < i { k } else { k - 1 };
                        assert(self.spec_ids()[k2] == x);
                    }
                }
                assert(self.spec_previews() =~= previews.remove(i as int));
                assert(self.spec_handles() =~= handles.remove(i as int));
                proof {
                    old(self).lemma_index_of(id, i as int);
                }
                assert forall|x: u64| x != id && #[trigger] ids.contains(x) implies
                    self.spec_preview_of(x) == old(self).spec_preview_of(x)
                    && self.spec_window_of(x) == old(self).spec_window_of(x) by {
                    let k = ids.index_of(x);
                    assert(ids.contains(x));
                    assert(0 <= k < ids.len() && ids[k] == x);
                    old(self).lemma_index_of(x, k);
                    assert(k != i);
                    let k2 = if k < i { k } else { k - 1 };
                    assert(self.spec_ids()[k2] == x);
                    self.lemma_index_of(x, k2);
                }
                true
            },
            None => false,
        };
        if self.focused == Some(id) {
            self.focused = None;
        }
        removed
    }

    /// Closes every window but the given one, which keeps or gets focus
    /// when it is open.
    pub fn close_others(&mut self, id: u64)
        requires
            old(self).wf(),
        ensures
            final(self).wf(),
            old(self).spec_ids().contains(id) ==> final(self).spec_ids() == seq![id],
            !old(self).spec_ids().contains(id) ==> final(self).spec_ids().len() == 0,
            final(self).spec_focused() == if old(self).spec_ids().contains(id) { Some(id) } else { None::<u64> },
            final(self).spec_home_dir() == old(self).spec_home_dir(),
            old(self).spec_ids().contains(id) ==> final(self).spec_preview_of(id) == old(self).spec_preview_of(id),
    {
        match self.position(id) {
            Some(i) => {
                let ghost ids = self.spec_ids();
                let ghost entry = self.windows@[i as int];
                proof {
                    self.lemma_index_of(id, i as int);
                }
                let mut rest = self.windows.split_off(i);
                let mut tail = rest.split_off(1);
                self.windows = rest;
                assert(self.windows@[0] == entry);
                assert(self.spec_ids() =~= seq![id]);
                assert(self.spec_ids()[0] == id);
                proof {
                    self.lemma_index_of(id, 0);
                }
                self.focused = Some(id);
            },
            None => {
                self.windows = Vec::new();
                assert(self.spec_ids() =~= Seq::<u64>::empty());
                self.focused = None;
            },
        }
    }
}

} // verus!
