use vstd::bytes::*;
use vstd::prelude::*;

verus! {

/// `k` is the length of a prefix that `left` and `right` have in common.
pub open spec fn common_prefix(left: Seq<u8>, right: Seq<u8>, k: int) -> bool {
    &&& 0 <= k <= left.len()
    &&& k <= right.len()
    &&& forall|j: int| 0 <= j < k ==> left[j] == right[j]
}

/// The shorter of the two lengths.
pub open spec fn shorter_len(left: Seq<u8>, right: Seq<u8>) -> int {
    if left.len() <= right.len() { left.len() as int } else { right.len() as int }
}

/// What a modified-offset search answers for two byte sequences: `None` when
/// they are equal, otherwise the first index at which they differ, where the
/// end of the shorter sequence counts as a difference.
pub open spec fn is_modified_offset(left: Seq<u8>, right: Seq<u8>, res: Option<usize>) -> bool {
    match res {
        None => left == right,
        Some(i) => {
            &&& common_prefix(left, right, i as int)
            &&& (i < shorter_len(left, right) ==> left[i as int] != right[i as int])
            &&& (i == shorter_len(left, right) ==> left.len() != right.len())
        },
    }
}

/// Continues a modified-offset search from `index`, below which the two
/// sequences are known to agree.
pub fn modified_offset_from_index(index: usize, left: &[u8], right: &[u8]) -> (res: Option<usize>)
    requires
        common_prefix(left@, right@, index as int),
    ensures
        is_modified_offset(left@, right@, res),
{
    let min_len: usize = if left.len() < right.len() { left.len() } else { right.len() };
    let mut index: usize = index;
    while index <= min_len && min_len - index >= 8
        invariant
            min_len == shorter_len(left@, right@),
            common_prefix(left@, right@, index as int),
        decreases min_len - index,
    {
        let left_word = u64_from_le_bytes(&left[index..index + 8]);
        let right_word = u64_from_le_bytes(&right[index..index + 8]);
        if left_word != right_word {
            break;
        }
        proof {
            lemma_auto_spec_u64_to_from_le_bytes();
            let ls = left@.subrange(index as int, index + 8);
            let rs = right@.subrange(index as int, index + 8);
            assert(spec_u64_to_le_bytes(spec_u64_from_le_bytes(ls)) == ls);
            assert(spec_u64_to_le_bytes(spec_u64_from_le_bytes(rs)) == rs);
            assert forall|j: int| 0 <= j < index + 8 implies left@[j] == right@[j] by {
                if j >= index {
                    assert(ls[j - index] == rs[j - index]);
                }
            }
        }
        index = index + 8;
    }
    while index < min_len && left[index] == right[index]
        invariant
            min_len == shorter_len(left@, right@),
            index <= min_len,
            common_prefix(left@, right@, index as int),
        decreases min_len - index,
    {
        index = index + 1;
    }
    if index == min_len {
        if left.len() != right.len() {
            return Some(min_len);
        }
        assert(left@ =~= right@);
        return None;
    }
    Some(index)
}

/// The first byte offset at which `left` and `right` differ, comparing
/// chunks of 32 bytes first; `None` when they are equal.
pub fn modified_offset_scalar(left: &[u8], right: &[u8]) -> (res: Option<usize>)
    ensures
        is_modified_offset(left@, right@, res),
{
    let min_len: usize = if left.len() < right.len() { left.len() } else { right.len() };
    let mut offset: usize = 0;
    while offset <= min_len && min_len - offset >= 32
        invariant
            min_len == shorter_len(left@, right@),
            common_prefix(left@, right@, offset as int),
        decreases min_len - offset,
    {
        let end = offset + 32;
        let mut j: usize = offset;
        while j < end && left[j] == right[j]
            invariant
                offset <= j <= end,
                end <= min_len,
                min_len == shorter_len(left@, right@),
                common_prefix(left@, right@, j as int),
            decreases end - j,
        {
            j = j + 1;
        }
        if j < end {
            break;
        }
        offset = end;
    }
    modified_offset_from_index(offset, left, right)
}

/// The first byte offset at which `left` and `right` differ; `None` when
/// they are equal. When either side is empty the answer is `Some(0)` for a
/// non-empty other side.
pub fn modified_offset(left: &[u8], right: &[u8]) -> (res: Option<usize>)
    ensures
        is_modified_offset(left@, right@, res),
{
    let min_len: usize = if left.len() < right.len() { left.len() } else { right.len() };
    if min_len == 0 {
        if left.len() != right.len() {
            return Some(0);
        }
        assert(left@ =~= right@);
        return None;
    }
    modified_offset_scalar(left, right)
}

/// There is exactly one answer to a modified-offset search, so every search
/// strategy gives the same result.
pub proof fn law_modified_offset_unique(left: Seq<u8>, right: Seq<u8>, a: Option<usize>, b: Option<usize>)
    requires
        is_modified_offset(left, right, a),
        is_modified_offset(left, right, b),
    ensures
        a == b,
{
    match (a, b) {
        (Some(i), Some(j)) => {
            if i < j {
                assert(left[i as int] == right[i as int]);
            } else if j < i {
                assert(left[j as int] == right[j as int]);
            }
        },
        (Some(i), None) => {
            assert(left == right);
        },
        (None, Some(j)) => {
            assert(left == right);
        },
        (None, None) => {},
    }
}

/// A sequence compared with itself has no modified offset, and one compared
/// with a strict extension of itself is modified exactly where it ends.
pub proof fn law_modified_offset_of_extension(left: Seq<u8>, tail: Seq<u8>, res: Option<usize>)
    requires
        is_modified_offset(left, left + tail, res),
    ensures
        tail.len() == 0 ==> res.is_none(),
        tail.len() > 0 ==> res == Some(left.len() as usize),
{
    if tail.len() == 0 {
        assert(left + tail =~= left);
    } else {
        match res {
            Some(i) => {
                if i < left.len() {
                    assert((left + tail)[i as int] == left[i as int]);
                }
            },
            None => {
                assert((left + tail).len() != left.len());
            },
        }
    }
}

} // verus!
