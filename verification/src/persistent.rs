use vstd::prelude::*;

verus! {

/// The directory where the application keeps its data, when there is one.
#[derive(Debug)]
pub struct DataDir {
    path: Option<String>,
}

impl DataDir {
    /// A data directory at the given path; `None` when the system has no
    /// data directory or it could not be created.
    pub fn new(path: Option<String>) -> (d: DataDir)
        ensures
            d.spec_path() == path,
    {
        DataDir { path }
    }

    /// The path of the directory.
    pub closed spec fn spec_path(&self) -> Option<String> {
        self.path
    }

    /// The path of the directory, if there is one.
    pub fn path(&self) -> (p: Option<&str>)
        ensures
            match p {
                Some(s) => self.spec_path() matches Some(q) && s@ == q@,
                None => self.spec_path() is None,
            },
    {
        match &self.path {
            Some(p) => Some(p.as_str()),
            None => None,
        }
    }
}

/// `dirs::data_dir`: the directory of the platform for the data of
/// applications, as a string, when there is one. What it returns depends on
/// the platform and the environment, so nothing is stated of it.
#[verifier::external_body]
fn system_data_dir() -> (d: Option<String>) {
    match dirs::data_dir() {
        Some(p) => Some(p.to_string_lossy().into_owned()),
        None => None,
    }
}

/// A path with one more component: the separator is added unless the path
/// is empty or already ends with one.
pub open spec fn joined_path(base: Seq<char>, name: Seq<char>) -> Seq<char> {
    if base.len() == 0 || base.last() == '/' {
        base + name
    } else {
        base + seq!['/'] + name
    }
}

/// The application's own directory inside a directory of the platform.
pub open spec fn app_dir(base: Option<Seq<char>>) -> Option<Seq<char>> {
    match base {
        Some(b) => Some(joined_path(b, "Shiba"@)),
        None => None,
    }
}

/// The application's own directory inside `base`, a directory of the
/// platform (for data, or for configuration); none without one.
pub fn app_dir_in(base: Option<String>) -> (r: Option<String>)
    ensures
        match r {
            Some(p) => app_dir(match base { Some(b) => Some(b@), None => None }) == Some(p@),
            None => base is None,
        },
{
    proof {
        reveal_strlit("Shiba");
        reveal_strlit("/");
    }
    match base {
        None => None,
        Some(b) => {
            let mut p = b.clone();
            let n = b.unicode_len();
            if !(n == 0 || b.as_str().get_char(n - 1) == '/') {
                p.append("/");
            }
            p.append("Shiba");
            Some(p)
        },
    }
}

impl DataDir {
    /// The data directory of the application inside `base`, the directory
    /// of the platform for the data of applications; none without one.
    pub fn under(base: Option<String>) -> (d: DataDir)
        ensures
            match d.spec_path() {
                Some(p) => app_dir(match base { Some(b) => Some(b@), None => None }) == Some(p@),
                None => base is None,
            },
    {
        DataDir { path: app_dir_in(base) }
    }
}

impl DataDir {
    /// Where a file of persistent data with the name is kept: in the data
    /// directory, when there is one.
    pub fn file_path(&self, name: &str) -> (p: Option<String>)
        ensures
            match p {
                Some(q) => self.spec_path() matches Some(d) && q@ == joined_path(d@, name@),
                None => self.spec_path() is None,
            },
    {
        proof {
            reveal_strlit("/");
        }
        match &self.path {
            None => None,
            Some(d) => {
                let mut q = d.clone();
                let n = d.unicode_len();
                if !(n == 0 || d.as_str().get_char(n - 1) == '/') {
                    q.append("/");
                }
                q.append(name);
                Some(q)
            },
        }
    }
}

/// The name of the file that keeps the history of opened documents.
pub const HISTORY_FILE: &'static str = "history.json";

/// The name of the file that keeps the state of the last window.
pub const WINDOW_STATE_FILE: &'static str = "window.json";

impl Default for DataDir {
    /// The data directory of the application under the one of the platform.
    /// The directory is not created here: whoever writes in it does that.
    fn default() -> (d: Self)
        ensures
            match d.spec_path() {
                Some(p) => exists|b: Seq<char>| app_dir(Some(b)) == Some(p@),
                None => true,
            },
    {
        DataDir::under(system_data_dir())
    }
}

/// The recent files that are saved, from the paths at `k` on: each path
/// once, at its first place, and no more than `max` of them.
pub open spec fn recent_from(paths: Seq<Seq<char>>, k: int, acc: Seq<Seq<char>>, max: nat) -> Seq<Seq<char>>
    decreases paths.len() - k,
{
    if k < 0 || k >= paths.len() || acc.len() >= max {
        acc
    } else if acc.contains(paths[k]) {
        recent_from(paths, k + 1, acc, max)
    } else {
        recent_from(paths, k + 1, acc.push(paths[k]), max)
    }
}

/// Whether two strings are equal.
fn string_eq(a: &String, b: &String) -> (r: bool)
    ensures
        r == (a@ == b@),
{
    *a == *b
}

/// The recently opened files as they are saved.
pub struct SerializeRecentFiles {
    pub paths: Vec<String>,
}

impl SerializeRecentFiles {
    /// The most recent paths first as given, each once, at most `max_size`.
    pub fn new(paths: &[String], max_size: usize) -> (r: SerializeRecentFiles)
        ensures
            r.paths@.map_values(|s: String| s@) == recent_from(
                paths@.map_values(|s: String| s@),
                0,
                Seq::empty(),
                max_size as nat,
            ),
    {
        let ghost input = paths@.map_values(|s: String| s@);
        let mut out: Vec<String> = Vec::new();
        let mut k: usize = 0;
        assert(out@.map_values(|s: String| s@) =~= Seq::<Seq<char>>::empty());
        while k < paths.len() && out.len() < max_size
            invariant
                k <= paths@.len(),
                input == paths@.map_values(|s: String| s@),
                recent_from(input, k as int, out@.map_values(|s: String| s@), max_size as nat)
                    == recent_from(input, 0, Seq::empty(), max_size as nat),
            decreases paths.len() - k,
        {
            let ghost acc = out@.map_values(|s: String| s@);
            let mut seen = false;
            let mut j: usize = 0;
            while j < out.len()
                invariant
                    j <= out@.len(),
                    acc == out@.map_values(|s: String| s@),
                    k < paths@.len(),
                    seen == (exists|i: int| 0 <= i < j && out@[i]@ == paths@[k as int]@),
                decreases out.len() - j,
            {
                if string_eq(&out[j], &paths[k]) {
                    seen = true;
                }
                j = j + 1;
            }
            assert(seen == acc.contains(input[k as int])) by {
                if seen {
                    let i = choose|i: int| 0 <= i < out@.len() && out@[i]@ == paths@[k as int]@;
                    assert(acc[i] == input[k as int]);
                }
                if acc.contains(input[k as int]) {
                    let i = choose|i: int| 0 <= i < acc.len() && acc[i] == input[k as int];
                    assert(out@[i]@ == acc[i]);
                }
            }
            if !seen {
                out.push(paths[k].clone());
                assert(out@.map_values(|s: String| s@) =~= acc.push(input[k as int]));
            }
            k = k + 1;
        }
        SerializeRecentFiles { paths: out }
    }
}

/// Saving keeps every path once and no more than asked for.
pub proof fn law_recent_files_unique_and_bounded(paths: Seq<Seq<char>>, k: int, acc: Seq<Seq<char>>, max: nat)
    requires
        acc.no_duplicates(),
        acc.len() <= max,
    ensures
        recent_from(paths, k, acc, max).no_duplicates(),
        recent_from(paths, k, acc, max).len() <= max,
        forall|p: Seq<char>| #[trigger] recent_from(paths, k, acc, max).contains(p) ==> acc.contains(p) || paths.contains(p),
    decreases paths.len() - k,
{
    if k < 0 || k >= paths.len() || acc.len() >= max {
    } else if acc.contains(paths[k]) {
        law_recent_files_unique_and_bounded(paths, k + 1, acc, max);
    } else {
        let a2 = acc.push(paths[k]);
        assert forall|a: int, b: int| 0 <= a < a2.len() && 0 <= b < a2.len() && a != b implies a2[a] != a2[b] by {
            if a < acc.len() && b < acc.len() {
            } else if a < acc.len() {
                assert(acc[a] == a2[a]);
            } else if b < acc.len() {
                assert(acc[b] == a2[b]);
            }
        }
        law_recent_files_unique_and_bounded(paths, k + 1, a2, max);
        assert forall|p: Seq<char>| #[trigger] a2.contains(p) implies acc.contains(p) || paths.contains(p) by {
            let i = choose|i: int| 0 <= i < a2.len() && a2[i] == p;
            if i < acc.len() {
                assert(acc[i] == p);
            }
        }
    }
}

/// The recently opened files as they are loaded.
pub struct RecentFiles {
    pub paths: Vec<String>,
}

impl RecentFiles {
    /// Keeps the newest `max` paths (the last ones), dropping older ones.
    pub fn configure(&mut self, max: usize)
        ensures
            old(self).paths@.len() > max ==> final(self).paths@ == old(self).paths@.skip(
                old(self).paths@.len() - max,
            ),
            old(self).paths@.len() <= max ==> final(self).paths@ == old(self).paths@,
    {
        let n = self.paths.len();
        if n > max {
            let tail = self.paths.split_off(n - max);
            self.paths = tail;
        }
    }
}

} // verus!
