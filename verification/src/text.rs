//! Case-insensitive substring matching over character sequences: the rule
//! that decides which catalog entries a typed filter keeps visible.

use vstd::prelude::*;

verus! {

/// ASCII case folding of one character: uppercase letters map to their
/// lowercase counterparts, every other character is unchanged.
pub open spec fn lower_char(c: char) -> char {
    if 'A' <= c && c <= 'Z' {
        (((c as u32) + 32) as u8) as char
    } else {
        c
    }
}

/// The needle occurs at position `i` of the haystack, comparing characters
/// case-insensitively.
pub open spec fn matches_at(hay: Seq<char>, needle: Seq<char>, i: int) -> bool {
    &&& 0 <= i
    &&& i + needle.len() <= hay.len()
    &&& forall|j: int| 0 <= j < needle.len() ==> lower_char(hay[i + j]) == lower_char(needle[j])
}

/// The needle is a case-insensitive substring of the haystack.
pub open spec fn contains_ci(hay: Seq<char>, needle: Seq<char>) -> bool {
    exists|i: int| matches_at(hay, needle, i)
}

/// ASCII case folding of one character.
pub fn to_lower(c: char) -> (r: char)
    ensures
        r == lower_char(c),
{
    if 'A' <= c && c <= 'Z' {
        (((c as u32) + 32) as u8) as char
    } else {
        c
    }
}

/// Checks whether the needle occurs at position `i` of the haystack,
/// case-insensitively.
fn match_at(hay: &str, needle: &Vec<char>, i: usize) -> (r: bool)
    requires
        hay@.len() <= usize::MAX,
        i + needle@.len() <= hay@.len(),
    ensures
        r == matches_at(hay@, needle@, i as int),
{
    let m = needle.len();
    let mut j: usize = 0;
    while j < m
        invariant
            j <= m,
            m == needle@.len(),
            hay@.len() <= usize::MAX,
            i + m <= hay@.len(),
            forall|k: int| 0 <= k < j ==> lower_char(hay@[i + k]) == lower_char(needle@[k]),
        decreases m - j,
    {
        let hc = hay.get_char(i + j);
        let nc = needle[j];
        if to_lower(hc) != to_lower(nc) {
            proof {
                assert(lower_char(hay@[i + j]) != lower_char(needle@[j as int]));
            }
            return false;
        }
        j += 1;
    }
    true
}

/// Checks whether the needle is a case-insensitive substring of the
/// haystack. An empty needle matches every haystack.
pub fn contains_filter(hay: &str, needle: &Vec<char>) -> (r: bool)
    ensures
        r == contains_ci(hay@, needle@),
{
    let n = hay.unicode_len();
    let m = needle.len();
    if m == 0 {
        proof {
            assert(matches_at(hay@, needle@, 0));
        }
        return true;
    }
    if m > n {
        proof {
            assert forall|k: int| !matches_at(hay@, needle@, k) by {
                if matches_at(hay@, needle@, k) {
                    assert(k + m <= n);
                }
            }
        }
        return false;
    }
    let last = n - m;
    let mut i: usize = 0;
    while i <= last
        invariant
            i <= last + 1,
            last == n - m,
            1 <= m <= n,
            n == hay@.len(),
            m == needle@.len(),
            forall|k: int| 0 <= k < i ==> !matches_at(hay@, needle@, k),
        decreases last + 1 - i,
    {
        if match_at(hay, needle, i) {
            return true;
        }
        i += 1;
    }
    proof {
        assert forall|k: int| !matches_at(hay@, needle@, k) by {
            if matches_at(hay@, needle@, k) {
                assert(0 <= k && k + m <= n);
                assert(k < i);
            }
        }
    }
    false
}

} // verus!
