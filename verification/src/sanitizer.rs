use crate::text::{ends_with_char, is_prefix_of, starts_with, starts_with_char};
use vstd::prelude::*;
use vstd::string::*;

verus! {

/// A directory path written with '/' separators and without a trailing '/',
/// used as the base against which relative links are resolved.
pub struct SlashPath(String);

impl View for SlashPath {
    type V = Seq<char>;

    closed spec fn view(&self) -> Seq<char> {
        self.0@
    }
}

/// The path without its trailing '/', if it has one.
pub open spec fn without_trailing_slash(path: Seq<char>) -> Seq<char> {
    if path.len() > 0 && path.last() == '/' {
        path.drop_last()
    } else {
        path
    }
}

impl SlashPath {
    /// A slash path for a path written with '/' separators.
    pub fn new(path: &str) -> (p: SlashPath)
        ensures
            p@ == without_trailing_slash(path@),
    {
        if ends_with_char(path, '/') {
            let n = path.unicode_len();
            SlashPath(String::from_str(path.substring_char(0, n - 1)))
        } else {
            SlashPath(String::from_str(path))
        }
    }

    /// A slash path for a Windows path: its drive is dropped and its
    /// separators become `/`, as the preview loads local files by absolute
    /// path without a drive.
    pub fn from_windows(path: &str) -> (p: SlashPath)
        ensures
            p@ == spec_windows_slash_path(path@),
    {
        let n = path.unicode_len();
        let ghost s = path@;
        let p: usize = if n >= 6 && path.get_char(0) == '\\' && path.get_char(1) == '\\'
            && path.get_char(2) == '?' && path.get_char(3) == '\\' && path.get_char(5) == ':' {
            6
        } else if n >= 2 && path.get_char(1) == ':' {
            2
        } else {
            0
        };
        let mut out = String::new();
        let mut from = p;
        if p < n && path.get_char(p) == '\\' {
            out.append("/");
            from = p + 1;
            proof {
                reveal_strlit("/");
            }
        }
        let ghost root = out@;
        let ghost start = from;
        loop
            invariant_except_break
                out@ + slash_components(s, from as int) == root + slash_components(s, start as int),
            invariant
                n == s.len(),
                s == path@,
                from <= n,
            ensures
                out@ == root + slash_components(s, start as int),
            decreases n - from,
        {
            let mut k = from;
            while k < n && path.get_char(k) != '\\'
                invariant
                    n == s.len(),
                    s == path@,
                    from <= k <= n,
                    next_char(s, k as int, '\\') == next_char(s, from as int, '\\'),
                decreases n - k,
            {
                k = k + 1;
            }
            proof {
                lemma_next_char(s, from as int, '\\');
            }
            let seg = path.substring_char(from, k);
            let ghost before = out@;
            if seg.unicode_len() == 0 || (seg.unicode_len() == 1 && seg.get_char(0) == '.') {
                assert(slash_component(seg@) =~= Seq::<char>::empty()) by {
                    if seg@.len() == 1 {
                        assert(seg@ =~= seq!['.']);
                    }
                }
            } else {
                out.append(seg);
                out.append("/");
                proof {
                    reveal_strlit("/");
                    if seg@.len() == 1 {
                        assert(seg@ != seq!['.']) by {
                            assert(seg@[0] != '.');
                        }
                    }
                }
                assert(out@ =~= before + slash_component(seg@));
            }
            if k >= n {
                assert(slash_components(s, from as int) == slash_component(seg@));
                assert(out@ =~= root + slash_components(s, start as int));
                break;
            }
            assert(before + slash_components(s, from as int) =~= out@ + slash_components(s, k + 1));
            from = k + 1;
        }
        let mut r = SlashPath(out);
        if ends_with_char(r.0.as_str(), '/') {
            let m = r.0.as_str().unicode_len();
            r = SlashPath(String::from_str(r.0.as_str().substring_char(0, m - 1)));
        }
        r
    }

    /// The empty slash path.
    pub fn empty() -> (p: SlashPath)
        ensures
            p@ == Seq::<char>::empty(),
    {
        SlashPath(String::new())
    }

    /// The path as a string.
    pub fn as_str(&self) -> (s: &str)
        ensures
            s@ == self@,
    {
        self.0.as_str()
    }

    /// Whether the path is empty.
    pub fn is_empty(&self) -> (b: bool)
        ensures
            b == (self@.len() == 0),
    {
        self.0.as_str().unicode_len() == 0
    }
}

impl Default for SlashPath {
    fn default() -> (p: Self)
        ensures
            p@ == Seq::<char>::empty(),
    {
        SlashPath(String::new())
    }
}

/// The first index at or after `from` that holds the character `c`, or
/// the length.
pub open spec fn next_char(s: Seq<char>, from: int, c: char) -> int
    decreases s.len() - from,
{
    if from >= s.len() {
        s.len() as int
    } else if s[from] == c {
        from
    } else {
        next_char(s, from + 1, c)
    }
}

proof fn lemma_next_char(s: Seq<char>, from: int, c: char)
    requires
        0 <= from <= s.len(),
    ensures
        from <= next_char(s, from, c) <= s.len(),
        next_char(s, from, c) < s.len() ==> s[next_char(s, from, c)] == c,
    decreases s.len() - from,
{
    if from < s.len() && s[from] != c {
        lemma_next_char(s, from + 1, c);
    }
}

/// A component of a Windows path as it is written with slashes: `.` and
/// empty components are dropped, others end with `/`.
pub open spec fn slash_component(seg: Seq<char>) -> Seq<char> {
    if seg.len() == 0 || seg == seq!['.'] {
        Seq::empty()
    } else {
        seg + seq!['/']
    }
}

/// The components of a Windows path from `from` on, separated by `\`.
pub open spec fn slash_components(s: Seq<char>, from: int) -> Seq<char>
    decreases s.len() - from,
{
    if from < 0 || from > s.len() {
        Seq::empty()
    } else {
        let k = next_char(s, from, '\\');
        if k < s.len() && k >= from {
            slash_component(s.subrange(from, k)) + slash_components(s, k + 1)
        } else {
            slash_component(s.subrange(from, s.len() as int))
        }
    }
}

/// The length of the prefix of a Windows path: `\\?\C:` or `C:`.
pub open spec fn windows_prefix_len(s: Seq<char>) -> int {
    if s.len() >= 6 && s[0] == '\\' && s[1] == '\\' && s[2] == '?' && s[3] == '\\' && s[5] == ':' {
        6
    } else if s.len() >= 2 && s[1] == ':' {
        2
    } else {
        0
    }
}

/// A Windows path written with slashes, without its drive: the root is
/// `/`, each component ends with `/`, before the last `/` is taken off.
pub open spec fn spec_windows_slash_path(s: Seq<char>) -> Seq<char> {
    let p = windows_prefix_len(s);
    let root = if p < s.len() && s[p] == '\\' { seq!['/'] } else { Seq::empty() };
    let from = if p < s.len() && s[p] == '\\' { p + 1 } else { p };
    without_trailing_slash(root + slash_components(s, from))
}

/// A link is rebased onto the document's directory unless it is a fragment
/// ('#...'), an absolute http(s) URL, or a protocol-relative URL ('//...').
pub open spec fn spec_should_rebase_url(url: Seq<char>) -> bool {
    &&& !is_prefix_of(seq!['#'], url)
    &&& !is_prefix_of("https://"@, url)
    &&& !is_prefix_of("http://"@, url)
    &&& !is_prefix_of("//"@, url)
}

/// Whether a link must be resolved against the document's directory.
pub fn should_rebase_url(url: &str) -> (b: bool)
    ensures
        b == spec_should_rebase_url(url@),
{
    let hash = starts_with_char(url, '#');
    assert(hash == is_prefix_of(seq!['#'], url@)) by {
        if url@.len() > 0 {
            let first = url@.subrange(0, 1);
            assert(first.len() == 1 && first[0] == url@[0]);
            if hash {
                assert(first =~= seq!['#']);
            } else {
                assert(first[0] != seq!['#'][0]);
            }
        }
    }
    !hash && !starts_with(url, "https://") && !starts_with(url, "http://") && !starts_with(url, "//")
}

/// The link as it is written into the preview: links that must be rebased
/// become `prefix` + '/' + link (no extra '/' when the link starts with one).
pub open spec fn spec_rebased_url(prefix: Seq<char>, url: Seq<char>) -> Seq<char> {
    if !spec_should_rebase_url(url) {
        url
    } else if url.len() > 0 && url[0] == '/' {
        prefix + url
    } else {
        prefix + seq!['/'] + url
    }
}

/// Rewrites relative URLs in raw HTML against a base directory.
pub struct RebaseUrl {
    pub prefix: String,
}

impl RebaseUrl {
    /// The rewritten URL; every URL has one.
    pub fn evaluate(&self, url: &str) -> (r: Option<String>)
        ensures
            r matches Some(s) && s@ == spec_rebased_url(self.prefix@, url@),
    {
        if !should_rebase_url(url) {
            return Some(String::from_str(url));
        }
        let mut s = self.prefix.clone();
        if !starts_with_char(url, '/') {
            s.append("/");
            proof {
                reveal_strlit("/");
            }
        }
        s.append(url);
        Some(s)
    }
}

/// The HTML that ammonia's cleaner makes of raw HTML: its default allow
/// lists with the generic attributes `name` and `id` added, and relative
/// URLs resolved with a `RebaseUrl` whose prefix is `base_dir`.
pub uninterp spec fn sanitized_html(html: Seq<u8>, base_dir: Seq<char>) -> Seq<u8>;

/// Sanitizes raw HTML with `ammonia::Builder::clean_from_reader` and
/// serializes the document. The builder is configured as the name says and
/// is deterministic, so the result depends on its two inputs alone; what
/// ammonia keeps is named, not stated. Reading from a byte slice cannot
/// fail; the error arm, which is never taken, gives no bytes.
#[verifier::external_body]
pub(crate) fn clean_html(html: &[u8], base_dir: &str) -> (r: Vec<u8>)
    ensures
        r@ == sanitized_html(html@, base_dir@),
{
    let rebase = RebaseUrl { prefix: base_dir.to_string() };
    let eval: Box<dyn for<'u> Fn(&'u str) -> Option<std::borrow::Cow<'u, str>> + Send + Sync> =
        Box::new(move |url| rebase.evaluate(url).map(std::borrow::Cow::Owned));
    let mut builder = ammonia::Builder::default();
    builder.add_generic_attributes(&["name", "id"]).url_relative(ammonia::UrlRelative::Custom(Box::new(eval)));
    match builder.clean_from_reader(html) {
        Ok(doc) => doc.to_string().into_bytes(),
        Err(_) => Vec::new(),
    }
}


/// A cleaner of raw HTML in a document, whose relative URLs are resolved
/// against the document's directory.
pub struct Sanitizer<'a> {
    base_dir: &'a SlashPath,
}

impl<'a> Sanitizer<'a> {
    /// A cleaner for a document in `base_dir`.
    pub fn new(base_dir: &'a SlashPath) -> (s: Sanitizer<'a>)
        ensures
            s.spec_base_dir() == base_dir@,
    {
        Sanitizer { base_dir }
    }

    /// The directory that relative URLs are resolved against.
    pub closed spec fn spec_base_dir(&self) -> Seq<char> {
        self.base_dir@
    }

    /// Appends the sanitized form of raw HTML to `out`.
    pub fn clean(&self, out: &mut Vec<u8>, html: &[u8])
        ensures
            final(out)@ == old(out)@ + sanitized_html(html@, self.spec_base_dir()),
    {
        let cleaned = clean_html(html, self.base_dir.as_str());
        out.extend_from_slice(cleaned.as_slice());
    }
}

} // verus!
