use crate::bytes::{is_modified_offset, modified_offset, shorter_len};
use crate::sanitizer::SlashPath;
use vstd::prelude::*;
use vstd::string::*;
use vstd::utf8::*;

verus! {

broadcast use group_utf8_lib;

/// The largest character boundary of `bytes` that is not after `i`.
pub open spec fn spec_floor_char_boundary(bytes: Seq<u8>, i: int) -> int
    decreases i,
{
    if i <= 0 || is_char_boundary(bytes, i) {
        i
    } else {
        spec_floor_char_boundary(bytes, i - 1)
    }
}

proof fn lemma_floor_char_boundary(bytes: Seq<u8>, i: int)
    requires
        valid_utf8(bytes),
        0 <= i <= bytes.len(),
    ensures
        0 <= spec_floor_char_boundary(bytes, i) <= i,
        is_char_boundary(bytes, spec_floor_char_boundary(bytes, i)),
    decreases i,
{
    is_char_boundary_start_end_of_seq(bytes);
    if i > 0 && !is_char_boundary(bytes, i) {
        lemma_floor_char_boundary(bytes, i - 1);
    }
}

/// Moves a byte offset back to the start of the character it falls in.
fn floor_char_boundary(s: &str, i: usize) -> (r: usize)
    requires
        i <= s.spec_bytes().len(),
    ensures
        r == spec_floor_char_boundary(s.spec_bytes(), i as int),
        is_char_boundary(s.spec_bytes(), r as int),
{
    let ghost bytes = s.spec_bytes();
    proof {
        lemma_floor_char_boundary(bytes, i as int);
        is_char_boundary_start_end_of_seq(bytes);
    }
    let ghost start = i;
    let mut i = i;
    while !s.is_char_boundary(i)
        invariant
            i <= bytes.len(),
            bytes == s.spec_bytes(),
            valid_utf8(bytes),
            spec_floor_char_boundary(bytes, i as int) == spec_floor_char_boundary(
                s.spec_bytes(),
                start as int,
            ),
        decreases i,
    {
        i = i - 1;
    }
    i
}

/// A Markdown document together with the directory that its relative links
/// are resolved against.
pub struct MarkdownContent {
    source: String,
    base_dir: SlashPath,
}

/// Where the preview marks the last modification when the document changes
/// from `prev` to `new` (both UTF-8 encoded): nothing when they are equal; the
/// end of the shorter one when one is a prefix of the other; otherwise the
/// first differing byte, moved back to the start of its character in `new`.
pub open spec fn spec_modified_utf8_offset(prev: Seq<u8>, new: Seq<u8>, res: Option<usize>) -> bool {
    exists|raw: Option<usize>|
        #![trigger is_modified_offset(prev, new, raw)]
        is_modified_offset(prev, new, raw) && res == match raw {
            None => None,
            Some(i) => if i == shorter_len(prev, new) {
                Some(i)
            } else {
                Some(spec_floor_char_boundary(new, i as int) as usize)
            },
        }
}

impl MarkdownContent {
    /// The Markdown source.
    pub closed spec fn spec_source(&self) -> Seq<char> {
        self.source@
    }

    /// The directory of the document.
    pub closed spec fn spec_base_dir(&self) -> Seq<char> {
        self.base_dir@
    }

    /// A document with its source and the directory of its file, if any.
    pub fn new(source: String, base_dir: Option<&str>) -> (c: MarkdownContent)
        ensures
            c.spec_source() == source@,
            c.spec_base_dir() == match base_dir {
                Some(dir) => crate::sanitizer::without_trailing_slash(dir@),
                None => Seq::<char>::empty(),
            },
    {
        let base_dir = match base_dir {
            Some(path) => SlashPath::new(path),
            None => SlashPath::empty(),
        };
        MarkdownContent { source, base_dir }
    }

    /// The Markdown source.
    pub fn source(&self) -> (s: &str)
        ensures
            s@ == self.spec_source(),
    {
        self.source.as_str()
    }

    /// The directory of the document.
    pub fn base_dir(&self) -> (p: &SlashPath)
        ensures
            p@ == self.spec_base_dir(),
    {
        &self.base_dir
    }

    /// The byte offset in `new` where the preview marks the last change since
    /// `self`; it always falls on a character boundary of `new`.
    pub fn modified_utf8_offset(&self, new: &Self) -> (res: Option<usize>)
        ensures
            spec_modified_utf8_offset(
                encode_utf8(self.spec_source()),
                encode_utf8(new.spec_source()),
                res,
            ),
    {
        let prev_source = self.source.as_str();
        let new_source = new.source.as_str();
        let prev = prev_source.as_bytes();
        let next = new_source.as_bytes();
        let raw = modified_offset(prev, next);
        let min_len: usize = if prev.len() < next.len() { prev.len() } else { next.len() };
        proof {
            is_char_boundary_start_end_of_seq(next@);
            is_char_boundary_start_end_of_seq(prev@);
        }
        match raw {
            None => {
                assert(is_modified_offset(prev@, next@, raw));
                None
            },
            Some(i) => {
                if i == min_len {
                    assert(is_modified_offset(prev@, next@, raw));
                    Some(i)
                } else {
                    let r = floor_char_boundary(new_source, i);
                    assert(is_modified_offset(prev@, next@, raw));
                    Some(r)
                }
            },
        }
    }

    /// Whether both the source and the directory are empty.
    pub fn is_empty(&self) -> (b: bool)
        ensures
            b == (self.spec_source().len() == 0 && self.spec_base_dir().len() == 0),
    {
        self.source.as_str().unicode_len() == 0 && self.base_dir.is_empty()
    }
}

impl Default for MarkdownContent {
    fn default() -> (c: Self)
        ensures
            c.spec_source() == Seq::<char>::empty(),
            c.spec_base_dir() == Seq::<char>::empty(),
    {
        MarkdownContent { source: String::new(), base_dir: SlashPath::empty() }
    }
}

} // verus!
