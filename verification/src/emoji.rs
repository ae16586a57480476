use crate::events::{lemma_next_byte, next_byte};
use vstd::prelude::*;

verus! {

/// Finds the first occurrence of a byte with `memchr::memchr`, which returns
/// the index of the first byte equal to `needle`, or `None` when there is
/// none; this contract says exactly that.
#[verifier::external_body]
fn memchr_first(needle: u8, haystack: &[u8]) -> (r: Option<usize>)
    ensures
        match r {
            Some(i) => {
                &&& i < haystack@.len()
                &&& haystack@[i as int] == needle
                &&& forall|j: int| 0 <= j < i ==> haystack@[j] != needle
            },
            None => forall|j: int| 0 <= j < haystack@.len() ==> haystack@[j] != needle,
        },
{
    memchr::memchr(needle, haystack)
}

/// The first colon at or after `from`, or the length of the text.
pub fn find_colon(t: &[u8], from: usize) -> (e: usize)
    requires
        from <= t@.len(),
    ensures
        e == next_byte(t@, from as int, 58u8),
        from <= e <= t@.len(),
        e < t@.len() ==> t@[e as int] == 58u8,
        forall|j: int| from <= j < e ==> t@[j] != 58u8,
{
    let rest = &t[from..t.len()];
    proof {
        lemma_next_byte(t@, from as int, 58u8);
    }
    match memchr_first(58, rest) {
        Some(i) => {
            assert(rest@[i as int] == t@[from + i]);
            proof {
                let n = next_byte(t@, from as int, 58u8);
                if n < from + i {
                    assert(rest@[n - from] == t@[n]);
                }
            }
            from + i
        },
        None => {
            proof {
                let n = next_byte(t@, from as int, 58u8);
                if n < t@.len() {
                    assert(rest@[n - from] == t@[n]);
                }
            }
            t.len()
        },
    }
}

/// The emoji whose GitHub shortcode (the text between the colons of
/// `:dog:`) is the given bytes, as the UTF-8 bytes of its name and of the
/// emoji itself; `None` when no emoji has that shortcode.
pub uninterp spec fn emoji_by_shortcode(shortcode: Seq<u8>) -> Option<(Seq<u8>, Seq<u8>)>;

/// Looks the shortcode up with `emojis::get_by_shortcode` and gives the
/// emoji's `name()` and `as_bytes()`; bytes that are not UTF-8 name no
/// emoji. The emoji table is fixed, so the result depends on the shortcode
/// alone; which shortcodes name which emoji is named, not stated.
#[verifier::external_body]
pub(crate) fn lookup_emoji(shortcode: &[u8]) -> (r: Option<(&'static [u8], &'static [u8])>)
    ensures
        match r {
            Some((name, glyph)) => emoji_by_shortcode(shortcode@) == Some((name@, glyph@)),
            None => emoji_by_shortcode(shortcode@) is None,
        },
{
    match std::str::from_utf8(shortcode) {
        Ok(s) => emojis::get_by_shortcode(s).map(|e| (e.name().as_bytes(), e.as_bytes())),
        Err(_) => None,
    }
}

} // verus!
