use crate::config::{path_extension, FileExtensions, Watch};
use crate::text::same_str;
use vstd::prelude::*;
use vstd::string::*;

verus! {

/// How long ago, in milliseconds, `then` was at `now`; a time after `now`
/// was no time ago.
pub open spec fn elapsed(now: u64, then: u64) -> int {
    if now >= then { now - then } else { 0 }
}

/// The last change time of a path among the debouncer's entries.
pub open spec fn last_change_of(entries: Seq<(Seq<char>, u64)>, path: Seq<char>) -> Option<u64>
    decreases entries.len(),
{
    if entries.len() == 0 {
        None
    } else if entries.last().0 == path {
        Some(entries.last().1)
    } else {
        last_change_of(entries.drop_last(), path)
    }
}

/// No path has two entries.
pub open spec fn distinct_paths(entries: Seq<(Seq<char>, u64)>) -> bool {
    forall|i: int, j: int| 0 <= i < j < entries.len() ==> #[trigger] entries[i].0 != #[trigger] entries[j].0
}

proof fn lemma_last_change_found(e: Seq<(Seq<char>, u64)>, i: int)
    requires
        distinct_paths(e),
        0 <= i < e.len(),
    ensures
        last_change_of(e, e[i].0) == Some(e[i].1),
    decreases e.len(),
{
    if i < e.len() - 1 {
        assert(e.last().0 != e[i].0);
        assert(e.drop_last()[i] == e[i]);
        lemma_last_change_found(e.drop_last(), i);
    }
}

proof fn lemma_last_change_absent(e: Seq<(Seq<char>, u64)>, p: Seq<char>)
    requires
        forall|j: int| 0 <= j < e.len() ==> e[j].0 != p,
    ensures
        last_change_of(e, p) is None,
    decreases e.len(),
{
    if e.len() > 0 {
        assert forall|j: int| 0 <= j < e.drop_last().len() implies e.drop_last()[j].0 != p by {
            assert(e.drop_last()[j] == e[j]);
        }
        lemma_last_change_absent(e.drop_last(), p);
    }
}

proof fn lemma_last_change_update(e: Seq<(Seq<char>, u64)>, i: int, t: u64, q: Seq<char>)
    requires
        0 <= i < e.len(),
        q != e[i].0,
    ensures
        last_change_of(e.update(i, (e[i].0, t)), q) == last_change_of(e, q),
    decreases e.len(),
{
    let u = e.update(i, (e[i].0, t));
    if i < e.len() - 1 {
        assert(u.drop_last() =~= e.drop_last().update(i, (e[i].0, t)));
        assert(e.drop_last()[i] == e[i]);
        lemma_last_change_update(e.drop_last(), i, t, q);
    } else {
        assert(u.drop_last() =~= e.drop_last());
    }
}

proof fn lemma_distinct_filter(e: Seq<(Seq<char>, u64)>, pred: spec_fn((Seq<char>, u64)) -> bool)
    requires
        distinct_paths(e),
    ensures
        distinct_paths(e.filter(pred)),
    decreases e.len(),
{
    reveal(Seq::filter);
    if e.len() > 0 {
        assert forall|i: int, j: int| 0 <= i < j < e.drop_last().len() implies
            #[trigger] e.drop_last()[i].0 != #[trigger] e.drop_last()[j].0 by {
            assert(e.drop_last()[i] == e[i] && e.drop_last()[j] == e[j]);
        }
        lemma_distinct_filter(e.drop_last(), pred);
        let f = e.drop_last().filter(pred);
        if pred(e.last()) {
            assert forall|k: int| 0 <= k < f.len() implies f[k].0 != e.last().0 by {
                assert(f.contains(f[k]));
                e.drop_last().lemma_filter_contains_rev(pred, f[k]);
                let m = choose|m: int| 0 <= m < e.drop_last().len() && e.drop_last()[m] == f[k];
                assert(e[m] == f[k]);
            }
            let g = f.push(e.last());
            assert forall|i: int, j: int| 0 <= i < j < g.len() implies #[trigger] g[i].0 != #[trigger] g[j].0 by {
                if j == g.len() - 1 {
                    assert(g[i] == f[i]);
                } else {
                    assert(g[i] == f[i] && g[j] == f[j]);
                }
            }
        }
    }
}

/// Filters the file changes that the watcher reports: only previewed files,
/// and not the same file again within the debounce interval.
pub struct PathFilter {
    extensions: FileExtensions,
    last_changed: Vec<(String, u64)>,
    debounce_throttle: u64,
}

impl PathFilter {
    /// The debouncer's entries: a path and when it last changed.
    pub closed spec fn spec_entries(&self) -> Seq<(Seq<char>, u64)> {
        self.last_changed@.map_values(|e: (String, u64)| (e.0@, e.1))
    }

    /// The debounce interval in milliseconds.
    pub closed spec fn spec_throttle(&self) -> u64 {
        self.debounce_throttle
    }

    /// The extensions of the files that are kept.
    pub closed spec fn spec_extensions(&self) -> Seq<Seq<char>> {
        self.extensions.spec_extensions()
    }

    /// The filter's invariant.
    pub open spec fn wf(&self) -> bool {
        distinct_paths(self.spec_entries())
    }

    /// A filter for the configured extensions and debounce interval.
    pub fn new(config: &Watch) -> (f: PathFilter)
        ensures
            f.wf(),
            f.spec_entries().len() == 0,
            f.spec_throttle() == config.debounce_throttle,
            f.spec_extensions() == config.file_extensions.spec_extensions(),
    {
        let mut exts: Vec<String> = Vec::new();
        let src = config.file_extensions().as_slice();
        let mut i: usize = 0;
        while i < src.len()
            invariant
                i <= src@.len(),
                src@ == config.file_extensions.0@,
                exts@.len() == i,
                forall|j: int| 0 <= j < i ==> exts@[j]@ == src@[j]@,
            decreases src.len() - i,
        {
            exts.push(src[i].clone());
            i = i + 1;
        }
        let f = PathFilter {
            extensions: FileExtensions(exts),
            last_changed: Vec::new(),
            debounce_throttle: config.debounce_throttle(),
        };
        assert(f.spec_extensions() =~= config.file_extensions.spec_extensions());
        assert(f.spec_entries() =~= Seq::<(Seq<char>, u64)>::empty());
        f
    }

    /// Whether a change of the path at `now` counts: not when the path
    /// changed within the debounce interval before. A change that counts
    /// is remembered; one that does not leaves the entries as they are.
    pub fn debounce(&mut self, path: &str, now: u64) -> (b: bool)
        requires
            old(self).wf(),
        ensures
            final(self).wf(),
            final(self).spec_throttle() == old(self).spec_throttle(),
            final(self).spec_extensions() == old(self).spec_extensions(),
            b == passes_debounce(old(self).spec_entries(), path@, now, old(self).spec_throttle()),
            b ==> last_change_of(final(self).spec_entries(), path@) == Some(now),
            !b ==> final(self).spec_entries() == old(self).spec_entries(),
            forall|p: Seq<char>| p != path@ ==> #[trigger] last_change_of(final(self).spec_entries(), p)
                == last_change_of(old(self).spec_entries(), p),
    {
        let ghost e = self.spec_entries();
        let n = self.last_changed.len();
        let mut i: usize = 0;
        while i < n
            invariant
                n == self.last_changed@.len(),
                i <= n,
                e == self.spec_entries(),
                e == old(self).spec_entries(),
                distinct_paths(e),
                self.debounce_throttle == old(self).debounce_throttle,
                self.extensions == old(self).extensions,
                forall|j: int| 0 <= j < i ==> e[j].0 != path@,
            decreases n - i,
        {
            assert(e[i as int] == (self.last_changed@[i as int].0@, self.last_changed@[i as int].1));
            if same_str(self.last_changed[i].0.as_str(), path) {
                proof {
                    lemma_last_change_found(e, i as int);
                }
                let then = self.last_changed[i].1;
                let passed = if now >= then { now - then } else { 0 };
                if passed <= self.debounce_throttle {
                    return false;
                }
                let key = self.last_changed[i].0.clone();
                self.last_changed.set(i, (key, now));
                proof {
                    let u = e.update(i as int, (e[i as int].0, now));
                    assert(self.spec_entries() =~= u);
                    assert forall|p: Seq<char>| p != path@ implies #[trigger] last_change_of(self.spec_entries(), p)
                        == last_change_of(e, p) by {
                        lemma_last_change_update(e, i as int, now, p);
                    }
                    assert forall|a: int, b: int| 0 <= a < b < u.len() implies #[trigger] u[a].0 != #[trigger] u[b].0 by {
                        assert(u[a].0 == e[a].0 && u[b].0 == e[b].0);
                    }
                    lemma_last_change_found(u, i as int);
                }
                return true;
            }
            i = i + 1;
        }
        proof {
            lemma_last_change_absent(e, path@);
        }
        self.last_changed.push((String::from_str(path), now));
        proof {
            let u = e.push((path@, now));
            assert(self.spec_entries() =~= u);
            assert(u.drop_last() =~= e);
            assert forall|a: int, b: int| 0 <= a < b < u.len() implies #[trigger] u[a].0 != #[trigger] u[b].0 by {
                if b == u.len() - 1 {
                    assert(u[a] == e[a]);
                } else {
                    assert(u[a] == e[a] && u[b] == e[b]);
                }
            }
        }
        true
    }

    /// Whether a change of a path counts: the file has one of the previewed
    /// extensions, is a file, and passes the debouncer, which sees it only
    /// when the first two hold.
    pub fn should_retain(&mut self, path: &str, is_file: bool, now: u64) -> (b: bool)
        requires
            old(self).wf(),
        ensures
            final(self).wf(),
            final(self).spec_throttle() == old(self).spec_throttle(),
            final(self).spec_extensions() == old(self).spec_extensions(),
            ({
                let ext_ok = match path_extension(path@) {
                    Some(e) => old(self).spec_extensions().contains(e),
                    None => false,
                };
                let fresh = passes_debounce(old(self).spec_entries(), path@, now, old(self).spec_throttle());
                &&& b == (ext_ok && is_file && fresh)
                &&& !(ext_ok && is_file) ==> final(self).spec_entries() == old(self).spec_entries()
            }),
    {
        self.extensions.matches(path) && is_file && self.debounce(path, now)
    }

    /// Forgets the paths whose last change is older than the debounce
    /// interval at `now`.
    pub fn cleanup_debouncer(&mut self, now: u64)
        requires
            old(self).wf(),
        ensures
            final(self).wf(),
            final(self).spec_throttle() == old(self).spec_throttle(),
            final(self).spec_extensions() == old(self).spec_extensions(),
            final(self).spec_entries() == old(self).spec_entries().filter(
                |e: (Seq<char>, u64)| elapsed(now, e.1) <= old(self).spec_throttle(),
            ),
    {
        let ghost e = self.spec_entries();
        let ghost pred = |x: (Seq<char>, u64)| elapsed(now, x.1) <= self.debounce_throttle;
        let mut old_entries: Vec<(String, u64)> = Vec::new();
        std::mem::swap(&mut old_entries, &mut self.last_changed);
        let mut i: usize = 0;
        assert(e.take(0).filter(pred) =~= Seq::<(Seq<char>, u64)>::empty()) by {
            reveal(Seq::filter);
        }
        assert(self.spec_entries() =~= Seq::<(Seq<char>, u64)>::empty());
        while i < old_entries.len()
            invariant
                i <= old_entries@.len(),
                e == old_entries@.map_values(|x: (String, u64)| (x.0@, x.1)),
                self.spec_entries() == e.take(i as int).filter(pred),
                pred == (|x: (Seq<char>, u64)| elapsed(now, x.1) <= self.debounce_throttle),
                self.debounce_throttle == old(self).debounce_throttle,
                self.extensions == old(self).extensions,
            decreases old_entries.len() - i,
        {
            let then = old_entries[i].1;
            let passed = if now >= then { now - then } else { 0 };
            let ghost before = self.spec_entries();
            proof {
                reveal(Seq::filter);
                assert(e.take(i + 1).drop_last() =~= e.take(i as int));
                assert(e.take(i + 1).last() == e[i as int]);
            }
            if passed <= self.debounce_throttle {
                let key = old_entries[i].0.clone();
                self.last_changed.push((key, then));
                assert(self.spec_entries() =~= before.push(e[i as int]));
            }
            i = i + 1;
        }
        proof {
            assert(e.take(i as int) =~= e);
            lemma_distinct_filter(e, pred);
        }
    }
}

/// A watcher that watches nothing.
pub struct NopWatcher;

/// Whether a change of `path` at `now` passes the debouncer whose entries
/// are `entries`.
pub open spec fn passes_debounce(entries: Seq<(Seq<char>, u64)>, path: Seq<char>, now: u64, throttle: u64) -> bool {
    match last_change_of(entries, path) {
        Some(t) => elapsed(now, t) > throttle,
        None => true,
    }
}

/// Once a change of a path counted at `t1`, another change of it within the
/// interval does not count, and a change after the interval does.
pub proof fn law_debounce_suppresses_repeats(
    entries: Seq<(Seq<char>, u64)>,
    path: Seq<char>,
    t1: u64,
    t2: u64,
    throttle: u64,
)
    requires
        last_change_of(entries, path) == Some(t1),
    ensures
        elapsed(t2, t1) <= throttle ==> !passes_debounce(entries, path, t2, throttle),
        elapsed(t2, t1) > throttle ==> passes_debounce(entries, path, t2, throttle),
{
}


/// How a path is watched: with everything under it, or alone.
#[derive(Clone, Copy, PartialEq, Eq, Structural, Debug)]
pub enum RecursiveMode {
    Recursive,
    NonRecursive,
}

/// What the file system says of a path to watch: a directory, a file, or
/// nothing, with the nearest existing ancestor directory when there is one.
pub enum PathState {
    Dir,
    File,
    Missing { ancestor: Option<String> },
}

/// The parent that `std::path::Path::parent` gives for a path, named.
pub uninterp spec fn path_parent(path: Seq<char>) -> Option<Seq<char>>;

/// The file name that `std::path::Path::file_name` gives for a path, named.
pub uninterp spec fn path_file_name(path: Seq<char>) -> Option<Seq<char>>;

/// Whether `std::path::Path::starts_with` finds `base` at the start of
/// `path`, comparing whole components; named.
pub uninterp spec fn path_starts_with(path: Seq<char>, base: Seq<char>) -> bool;

/// Calls `std::path::Path::parent`; what the parent is, is named.
#[verifier::external_body]
fn parent_of(path: &str) -> (r: Option<String>)
    ensures
        match r {
            Some(p) => path_parent(path@) == Some(p@),
            None => path_parent(path@) is None,
        },
{
    std::path::Path::new(path).parent().map(|p| p.to_string_lossy().into_owned())
}

/// Calls `std::path::Path::file_name`; what the file name is, is named.
#[verifier::external_body]
fn file_name_of(path: &str) -> (r: Option<String>)
    ensures
        match r {
            Some(n) => path_file_name(path@) == Some(n@),
            None => path_file_name(path@) is None,
        },
{
    std::path::Path::new(path).file_name().map(|n| n.to_string_lossy().into_owned())
}

/// Calls `std::path::Path::starts_with`; whether it holds is named.
#[verifier::external_body]
fn starts_with_path(path: &str, base: &str) -> (b: bool)
    ensures
        b == path_starts_with(path@, base@),
{
    std::path::Path::new(path).starts_with(base)
}

/// The paths, as values.
pub open spec fn str_views(v: Seq<String>) -> Seq<Seq<char>> {
    v.map_values(|s: String| s@)
}

/// The pairs of paths, as values.
pub open spec fn pair_views(v: Seq<(String, String)>) -> Seq<(Seq<char>, Seq<char>)> {
    v.map_values(|e: (String, String)| (e.0@, e.1@))
}

/// The message when no directory can be watched for a path.
pub open spec fn unwatchable_message(path: Seq<char>) -> Seq<char> {
    "Could not watch path \""@ + path + "\" since its ancestors cannot be watched"@
}

/// What is watched on Linux, where a file is watched through its parent
/// directory: the directories watched with everything under them, and for
/// each parent watched alone, the names of the files in it that are
/// watched.
pub struct WatchingPaths {
    dirs: Vec<String>,
    files: Vec<(String, String)>,
}

impl WatchingPaths {
    /// The directories watched recursively.
    pub closed spec fn spec_dirs(&self) -> Seq<Seq<char>> {
        str_views(self.dirs@)
    }

    /// The files watched through their parents, as (parent, file name).
    pub closed spec fn spec_files(&self) -> Seq<(Seq<char>, Seq<char>)> {
        pair_views(self.files@)
    }

    /// No directory and no file is held twice.
    pub open spec fn wf(&self) -> bool {
        self.spec_dirs().no_duplicates() && self.spec_files().no_duplicates()
    }

    /// Whether some file in the parent is watched.
    pub open spec fn has_parent(&self, parent: Seq<char>) -> bool {
        exists|n: Seq<char>| #[trigger] self.spec_files().contains((parent, n))
    }

    /// Nothing is watched.
    pub fn new() -> (w: WatchingPaths)
        ensures
            w.wf(),
            w.spec_dirs().len() == 0,
            w.spec_files().len() == 0,
    {
        let w = WatchingPaths { dirs: Vec::new(), files: Vec::new() };
        assert(w.spec_dirs() =~= Seq::<Seq<char>>::empty());
        assert(w.spec_files() =~= Seq::<(Seq<char>, Seq<char>)>::empty());
        w
    }

    /// The path to watch for `path`, and how; `None` when it is already
    /// watched through a directory. A directory is watched recursively and
    /// takes the place of the files under it; a file is watched through its
    /// parent directory, unless a watched directory holds that parent; a
    /// missing path is watched through its nearest existing ancestor. A path
    /// without parent or file name, or without existing ancestor, cannot be
    /// watched.
    pub fn watched_path(&mut self, path: &str, state: PathState) -> (r: Result<Option<(String, RecursiveMode)>, String>)
        requires
            old(self).wf(),
        ensures
            final(self).wf(),
            match state {
                PathState::Dir => {
                    &&& r matches Ok(Some((p, m))) && p@ == path@ && m == RecursiveMode::Recursive
                    &&& forall|d: Seq<char>| #[trigger] final(self).spec_dirs().contains(d) <==> (old(self).spec_dirs().contains(d) || d == path@)
                    &&& forall|e: (Seq<char>, Seq<char>)| #[trigger] final(self).spec_files().contains(e)
                        <==> (old(self).spec_files().contains(e) && !path_starts_with(e.0, path@))
                },
                PathState::File => match (path_parent(path@), path_file_name(path@)) {
                    (Some(parent), Some(name)) => if exists|d: Seq<char>| #[trigger] old(self).spec_dirs().contains(d) && path_starts_with(parent, d) {
                        &&& r == Ok::<Option<(String, RecursiveMode)>, String>(None)
                        &&& final(self).spec_dirs() == old(self).spec_dirs()
                        &&& final(self).spec_files() == old(self).spec_files()
                    } else {
                        &&& r matches Ok(Some((p, m))) && p@ == parent && m == RecursiveMode::NonRecursive
                        &&& final(self).spec_dirs() == old(self).spec_dirs()
                        &&& forall|e: (Seq<char>, Seq<char>)| #[trigger] final(self).spec_files().contains(e)
                            <==> (old(self).spec_files().contains(e) || e == (parent, name))
                    },
                    _ => {
                        &&& r is Err
                        &&& final(self).spec_dirs() == old(self).spec_dirs()
                        &&& final(self).spec_files() == old(self).spec_files()
                    },
                },
                PathState::Missing { ancestor } => {
                    &&& final(self).spec_dirs() == old(self).spec_dirs()
                    &&& final(self).spec_files() == old(self).spec_files()
                    &&& match ancestor {
                        Some(a) => r matches Ok(Some((p, m))) && p@ == a@ && m == RecursiveMode::Recursive,
                        None => r matches Err(e) && e@ == unwatchable_message(path@),
                    }
                },
            },
    {
        match state {
            PathState::Dir => {
                self.retain_files_outside(path);
                self.add_dir(path);
                Ok(Some((String::from_str(path), RecursiveMode::Recursive)))
            },
            PathState::File => {
                let parent = match parent_of(path) {
                    Some(p) => p,
                    None => return Err(String::from_str("Could not find the parent directory of the path to watch")),
                };
                let name = match file_name_of(path) {
                    Some(n) => n,
                    None => return Err(String::from_str("Could not find the file name of the path to watch")),
                };
                if self.covered(parent.as_str()) {
                    return Ok(None);
                }
                self.add_file(parent.as_str(), name.as_str());
                Ok(Some((parent, RecursiveMode::NonRecursive)))
            },
            PathState::Missing { ancestor } => match ancestor {
                Some(a) => Ok(Some((a, RecursiveMode::Recursive))),
                None => {
                    let mut e = String::from_str("Could not watch path \"");
                    e.append(path);
                    e.append("\" since its ancestors cannot be watched");
                    Err(e)
                },
            },
        }
    }

    fn covered(&self, parent: &str) -> (b: bool)
        ensures
            b == exists|d: Seq<char>| #[trigger] self.spec_dirs().contains(d) && path_starts_with(parent@, d),
    {
        let mut i: usize = 0;
        while i < self.dirs.len()
            invariant
                i <= self.dirs@.len(),
                forall|j: int| 0 <= j < i ==> !path_starts_with(parent@, #[trigger] self.dirs@[j]@),
            decreases self.dirs.len() - i,
        {
            if starts_with_path(parent, self.dirs[i].as_str()) {
                assert(self.spec_dirs()[i as int] == self.dirs@[i as int]@);
                assert(self.spec_dirs().contains(self.dirs@[i as int]@));
                return true;
            }
            i = i + 1;
        }
        assert forall|d: Seq<char>| #[trigger] self.spec_dirs().contains(d) implies !path_starts_with(parent@, d) by {
            let j = choose|j: int| 0 <= j < self.spec_dirs().len() && self.spec_dirs()[j] == d;
            assert(self.dirs@[j]@ == d);
        }
        false
    }

    fn add_dir(&mut self, path: &str)
        requires
            old(self).wf(),
        ensures
            final(self).wf(),
            final(self).spec_files() == old(self).spec_files(),
            forall|d: Seq<char>| #[trigger] final(self).spec_dirs().contains(d) <==> (old(self).spec_dirs().contains(d) || d == path@),
    {
        let mut i: usize = 0;
        while i < self.dirs.len()
            invariant
                i <= self.dirs@.len(),
                self.wf(),
                forall|j: int| 0 <= j < i ==> #[trigger] self.dirs@[j]@ != path@,
            decreases self.dirs.len() - i,
        {
            if same_str(self.dirs[i].as_str(), path) {
                assert(self.spec_dirs()[i as int] == path@);
                return;
            }
            i = i + 1;
        }
        let ghost before = self.spec_dirs();
        assert(!before.contains(path@)) by {
            if before.contains(path@) {
                let j = choose|j: int| 0 <= j < before.len() && before[j] == path@;
                assert(self.dirs@[j]@ == path@);
            }
        }
        self.dirs.push(String::from_str(path));
        assert(self.spec_dirs() =~= before.push(path@));
        assert forall|a: int, b: int| 0 <= a < b < self.spec_dirs().len() implies self.spec_dirs()[a] != self.spec_dirs()[b] by {
            if b == before.len() {
                assert(before.contains(before[a]));
            }
        }
        assert forall|d: Seq<char>| #[trigger] self.spec_dirs().contains(d) <==> (before.contains(d) || d == path@) by {
            if self.spec_dirs().contains(d) && d != path@ {
                let j = choose|j: int| 0 <= j < self.spec_dirs().len() && self.spec_dirs()[j] == d;
                assert(j < before.len());
                assert(before[j] == d);
            }
            if before.contains(d) {
                let j = choose|j: int| 0 <= j < before.len() && before[j] == d;
                assert(self.spec_dirs()[j] == d);
            }
            if d == path@ {
                assert(self.spec_dirs()[before.len() as int] == d);
            }
        }
    }

    fn add_file(&mut self, parent: &str, name: &str)
        requires
            old(self).wf(),
        ensures
            final(self).wf(),
            final(self).spec_dirs() == old(self).spec_dirs(),
            forall|e: (Seq<char>, Seq<char>)| #[trigger] final(self).spec_files().contains(e)
                <==> (old(self).spec_files().contains(e) || e == (parent@, name@)),
    {
        let mut i: usize = 0;
        while i < self.files.len()
            invariant
                i <= self.files@.len(),
                self.wf(),
                forall|j: int| 0 <= j < i ==> #[trigger] pair_views(self.files@)[j] != (parent@, name@),
            decreases self.files.len() - i,
        {
            if same_str(self.files[i].0.as_str(), parent) && same_str(self.files[i].1.as_str(), name) {
                assert(self.spec_files()[i as int] == (parent@, name@));
                return;
            }
            i = i + 1;
        }
        let ghost before = self.spec_files();
        let ghost x = (parent@, name@);
        assert(!before.contains(x)) by {
            if before.contains(x) {
                let j = choose|j: int| 0 <= j < before.len() && before[j] == x;
                assert(pair_views(self.files@)[j] == x);
            }
        }
        self.files.push((String::from_str(parent), String::from_str(name)));
        assert(self.spec_files() =~= before.push(x));
        assert forall|a: int, b: int| 0 <= a < b < self.spec_files().len() implies self.spec_files()[a] != self.spec_files()[b] by {
            if b == before.len() {
                assert(before.contains(before[a]));
            }
        }
        assert forall|e: (Seq<char>, Seq<char>)| #[trigger] self.spec_files().contains(e) <==> (before.contains(e) || e == x) by {
            if self.spec_files().contains(e) && e != x {
                let j = choose|j: int| 0 <= j < self.spec_files().len() && self.spec_files()[j] == e;
                assert(j < before.len());
                assert(before[j] == e);
            }
            if before.contains(e) {
                let j = choose|j: int| 0 <= j < before.len() && before[j] == e;
                assert(self.spec_files()[j] == e);
            }
            if e == x {
                assert(self.spec_files()[before.len() as int] == e);
            }
        }
    }

    fn retain_files_outside(&mut self, path: &str)
        requires
            old(self).wf(),
        ensures
            final(self).wf(),
            final(self).spec_dirs() == old(self).spec_dirs(),
            forall|e: (Seq<char>, Seq<char>)| #[trigger] final(self).spec_files().contains(e)
                <==> (old(self).spec_files().contains(e) && !path_starts_with(e.0, path@)),
    {
        let ghost before = self.spec_files();
        let mut kept: Vec<(String, String)> = Vec::new();
        let mut i: usize = 0;
        while i < self.files.len()
            invariant
                i <= self.files@.len(),
                before == pair_views(self.files@),
                before.no_duplicates(),
                forall|e: (Seq<char>, Seq<char>)| #[trigger] pair_views(kept@).contains(e)
                    <==> (before.take(i as int).contains(e) && !path_starts_with(e.0, path@)),
                pair_views(kept@).no_duplicates(),
                forall|k: int| 0 <= k < kept@.len() ==> before.take(i as int).contains(#[trigger] pair_views(kept@)[k]),
            decreases self.files.len() - i,
        {
            let keep = !starts_with_path(self.files[i].0.as_str(), path);
            let ghost e = before[i as int];
            let ghost t0 = before.take(i as int);
            let ghost t1 = before.take(i + 1);
            assert(t1 =~= t0.push(e));
            assert(!t0.contains(e)) by {
                if t0.contains(e) {
                    let j = choose|j: int| 0 <= j < i && t0[j] == e;
                    assert(before[j] == before[i as int]);
                }
            }
            if keep {
                let ghost kv = pair_views(kept@);
                let p = (self.files[i].0.clone(), self.files[i].1.clone());
                kept.push(p);
                assert(pair_views(kept@) =~= kv.push(e));
                assert forall|a: int, b: int| 0 <= a < b < pair_views(kept@).len() implies pair_views(kept@)[a] != pair_views(kept@)[b] by {
                    if b == kv.len() {
                        assert(t0.contains(kv[a]));
                    }
                }
                assert(!path_starts_with(e.0, path@));
                assert forall|x: (Seq<char>, Seq<char>)| #[trigger] pair_views(kept@).contains(x)
                    <==> (t1.contains(x) && !path_starts_with(x.0, path@)) by {
                    if pair_views(kept@).contains(x) {
                        let j = choose|j: int| 0 <= j < pair_views(kept@).len() && pair_views(kept@)[j] == x;
                        if j < kv.len() {
                            assert(kv[j] == x);
                            assert(kv.contains(x));
                            assert(t0.contains(x));
                            let m = choose|m: int| 0 <= m < t0.len() && t0[m] == x;
                            assert(t1[m] == x);
                        } else {
                            assert(x == e);
                            assert(t1[i as int] == e);
                        }
                    }
                    if t1.contains(x) && !path_starts_with(x.0, path@) {
                        let j = choose|j: int| 0 <= j < t1.len() && t1[j] == x;
                        if j < i {
                            assert(t0[j] == x);
                            assert(t0.contains(x));
                            assert(kv.contains(x));
                            let k = choose|k: int| 0 <= k < kv.len() && kv[k] == x;
                            assert(pair_views(kept@)[k] == x);
                        } else {
                            assert(x == e);
                            assert(pair_views(kept@)[kv.len() as int] == e);
                        }
                    }
                }
                assert forall|k: int| 0 <= k < kept@.len() implies t1.contains(#[trigger] pair_views(kept@)[k]) by {
                    if k < kv.len() {
                        let y = kv[k];
                        assert(t0.contains(y));
                        let j = choose|j: int| 0 <= j < i && t0[j] == y;
                        assert(t1[j] == y);
                    } else {
                        assert(t1[i as int] == e);
                    }
                }
            } else {
                assert forall|x: (Seq<char>, Seq<char>)| #[trigger] pair_views(kept@).contains(x)
                    <==> (t1.contains(x) && !path_starts_with(x.0, path@)) by {
                    if t1.contains(x) && x != e {
                        let j = choose|j: int| 0 <= j < i + 1 && t1[j] == x;
                        assert(t0[j] == x);
                    }
                    if t0.contains(x) {
                        let j = choose|j: int| 0 <= j < i && t0[j] == x;
                        assert(t1[j] == x);
                    }
                }
                assert forall|k: int| 0 <= k < kept@.len() implies t1.contains(#[trigger] pair_views(kept@)[k]) by {
                    let y = pair_views(kept@)[k];
                    assert(t0.contains(y));
                    let j = choose|j: int| 0 <= j < i && t0[j] == y;
                    assert(t1[j] == y);
                }
            }
            i = i + 1;
        }
        assert(before.take(i as int) =~= before);
        self.files = kept;
    }

    /// Whether a change of `path` concerns a watched file: a path in a
    /// parent watched for some files counts only when it is one of them.
    pub fn should_retain(&self, path: &str) -> (b: bool)
        ensures
            b == match (path_parent(path@), path_file_name(path@)) {
                (Some(parent), Some(name)) => !self.has_parent(parent) || self.spec_files().contains((parent, name)),
                _ => true,
            },
    {
        let parent = match parent_of(path) {
            Some(p) => p,
            None => return true,
        };
        let name = match file_name_of(path) {
            Some(n) => n,
            None => return true,
        };
        let mut found_parent = false;
        let mut i: usize = 0;
        while i < self.files.len()
            invariant
                i <= self.files@.len(),
                path_parent(path@) == Some(parent@),
                path_file_name(path@) == Some(name@),
                found_parent == exists|j: int| 0 <= j < i && #[trigger] pair_views(self.files@)[j].0 == parent@,
                forall|j: int| 0 <= j < i ==> #[trigger] pair_views(self.files@)[j] != (parent@, name@),
            decreases self.files.len() - i,
        {
            if same_str(self.files[i].0.as_str(), parent.as_str()) {
                if same_str(self.files[i].1.as_str(), name.as_str()) {
                    assert(self.spec_files()[i as int] == (parent@, name@));
                    assert(self.spec_files().contains((parent@, name@)));
                    return true;
                }
                found_parent = true;
                assert(pair_views(self.files@)[i as int].0 == parent@);
            }
            i = i + 1;
        }
        proof {
            assert(!self.spec_files().contains((parent@, name@))) by {
                if self.spec_files().contains((parent@, name@)) {
                    let j = choose|j: int| 0 <= j < self.spec_files().len() && self.spec_files()[j] == (parent@, name@);
                    assert(pair_views(self.files@)[j] == (parent@, name@));
                }
            }
            if found_parent {
                let j = choose|j: int| 0 <= j < i && #[trigger] pair_views(self.files@)[j].0 == parent@;
                let n = self.spec_files()[j].1;
                assert(self.spec_files()[j] == (parent@, n));
                assert(self.spec_files().contains((parent@, n)));
            } else {
                assert(!self.has_parent(parent@)) by {
                    if self.has_parent(parent@) {
                        let n = choose|n: Seq<char>| #[trigger] self.spec_files().contains((parent@, n));
                        let j = choose|j: int| 0 <= j < self.spec_files().len() && self.spec_files()[j] == (parent@, n);
                        assert(pair_views(self.files@)[j].0 == parent@);
                    }
                }
            }
        }
        !found_parent
    }
}

/// What a file system event says happened, as far as the watcher tells
/// them apart.
#[derive(Clone, Copy, PartialEq, Eq, Structural, Debug)]
pub enum FsEventKind {
    CreateFile,
    CreateOther,
    ModifyAny,
    ModifyDataAny,
    ModifyDataContent,
    ModifyDataOther,
    ModifyOther,
    Other,
}

/// Whether a file system event can change what a preview shows: a file was
/// created, or its content (or something unknown about it) was modified.
pub open spec fn spec_should_watch_event(kind: FsEventKind) -> bool {
    kind == FsEventKind::CreateFile || kind == FsEventKind::ModifyAny || kind == FsEventKind::ModifyDataAny
        || kind == FsEventKind::ModifyDataContent
}

/// Whether a file system event can change what a preview shows.
pub fn should_watch_event(kind: FsEventKind) -> (b: bool)
    ensures
        b == spec_should_watch_event(kind),
{
    match kind {
        FsEventKind::CreateFile | FsEventKind::ModifyAny | FsEventKind::ModifyDataAny | FsEventKind::ModifyDataContent => true,
        _ => false,
    }
}

/// Where a path is watched from when it has no metadata: a directory is
/// watched recursively, a file alone, and a missing path through its
/// nearest existing ancestor, recursively.
pub fn find_watch_path(path: &str, state: PathState) -> (r: Result<(String, RecursiveMode), String>)
    ensures
        match state {
            PathState::Dir => r matches Ok((p, m)) && p@ == path@ && m == RecursiveMode::Recursive,
            PathState::File => r matches Ok((p, m)) && p@ == path@ && m == RecursiveMode::NonRecursive,
            PathState::Missing { ancestor } => match ancestor {
                Some(a) => r matches Ok((p, m)) && p@ == a@ && m == RecursiveMode::Recursive,
                None => r matches Err(e) && e@ == unwatchable_message(path@),
            },
        },
{
    match state {
        PathState::Dir => Ok((String::from_str(path), RecursiveMode::Recursive)),
        PathState::File => Ok((String::from_str(path), RecursiveMode::NonRecursive)),
        PathState::Missing { ancestor } => match ancestor {
            Some(a) => Ok((a, RecursiveMode::Recursive)),
            None => {
                let mut e = String::from_str("Could not watch path \"");
                e.append(path);
                e.append("\" since its ancestors cannot be watched");
                Err(e)
            },
        },
    }
}

} // verus!
