//! Locating a run's manifest among the entries of its directory.
use vstd::prelude::*;
use vstd::string::StrSliceExecFns;

verus! {

/// Name fragment that identifies the manifest file of a run directory.
pub const MANIFEST_NAME: &'static str = "meta_data";

/// `t` occurs in `s` starting at position `i`.
pub open spec fn occurs_at(s: Seq<char>, t: Seq<char>, i: int) -> bool {
    0 <= i && i + t.len() <= s.len() && s.subrange(i, i + t.len()) == t
}

/// `t` occurs somewhere in `s`.
pub open spec fn has_fragment(s: Seq<char>, t: Seq<char>) -> bool {
    exists|i: int| occurs_at(s, t, i)
}

/// Whether `t` occurs in `s`.
pub fn contains_fragment(s: &str, t: &str) -> (r: bool)
    ensures
        r == has_fragment(s@, t@),
{
    let n = s.unicode_len();
    let m = t.unicode_len();
    if m > n {
        assert forall|i: int| !occurs_at(s@, t@, i) by {}
        return false;
    }
    let mut i: usize = 0;
    while i <= n - m
        invariant
            n == s@.len(),
            m == t@.len(),
            m <= n,
            i <= n - m + 1,
            forall|k: int| 0 <= k < i ==> !occurs_at(s@, t@, k),
        decreases n - m + 1 - i,
    {
        let mut j: usize = 0;
        while j < m
            invariant
                n == s@.len(),
                m == t@.len(),
                i + m <= n,
                j <= m,
                forall|k: int| 0 <= k < j ==> s@[i + k] == t@[k],
            ensures
                j <= m,
                j < m ==> s@[i + j] != t@[j as int],
                forall|k: int| 0 <= k < j ==> s@[i + k] == t@[k],
            decreases m - j,
        {
            if s.get_char(i + j) != t.get_char(j) {
                break;
            }
            j = j + 1;
        }
        if j == m {
            assert(s@.subrange(i as int, i + m) =~= t@);
            assert(occurs_at(s@, t@, i as int));
            return true;
        }
        assert(!occurs_at(s@, t@, i as int)) by {
            assert(s@.subrange(i as int, i + m)[j as int] == s@[i + j]);
        }
        i = i + 1;
    }
    assert forall|k: int| !occurs_at(s@, t@, k) by {
        if 0 <= k && k + m <= n {
            assert(k < i);
        }
    }
    false
}

/// The position of the first entry whose name contains `fragment`.
pub fn find_entry(entries: &Vec<String>, fragment: &str) -> (r: Option<usize>)
    ensures
        r matches Some(i) ==> i < entries@.len() && has_fragment(entries@[i as int]@, fragment@)
            && forall|j: int| 0 <= j < i ==> !has_fragment(#[trigger] entries@[j]@, fragment@),
        r is None ==> forall|j: int| 0 <= j < entries@.len() ==> !has_fragment(#[trigger] entries@[j]@, fragment@),
{
    let mut i: usize = 0;
    while i < entries.len()
        invariant
            i <= entries@.len(),
            forall|j: int| 0 <= j < i ==> !has_fragment(#[trigger] entries@[j]@, fragment@),
        decreases entries@.len() - i,
    {
        if contains_fragment(entries[i].as_str(), fragment) {
            return Some(i);
        }
        i = i + 1;
    }
    None
}

} // verus!
