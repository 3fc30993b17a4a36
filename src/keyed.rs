//! Tables keyed by unique names, held as parallel vectors.
use vstd::prelude::*;

verus! {

/// The views of a sequence of strings.
pub open spec fn string_seq(v: Seq<String>) -> Seq<Seq<char>> {
    v.map_values(|s: String| s@)
}

/// The table whose keys are `keys` and whose value for `keys[i]` is `vals[i]`.
pub open spec fn keyed_map<T>(keys: Seq<Seq<char>>, vals: Seq<T>) -> Map<Seq<char>, T> {
    Map::new(|k: Seq<char>| keys.contains(k), |k: Seq<char>| vals[keys.index_of(k)])
}

pub proof fn lemma_index_of(s: Seq<Seq<char>>, k: Seq<char>)
    requires
        s.contains(k),
    ensures
        0 <= s.index_of(k) < s.len(),
        s[s.index_of(k)] == k,
{
}

pub proof fn lemma_index_of_unique(s: Seq<Seq<char>>, k: Seq<char>, j: int)
    requires
        s.no_duplicates(),
        0 <= j < s.len(),
        s[j] == k,
    ensures
        s.index_of(k) == j,
{
    assert(s.contains(k));
    lemma_index_of(s, k);
}

/// Replacing the value at a key's position replaces it in the table.
pub proof fn lemma_keyed_update<T>(keys: Seq<Seq<char>>, vals: Seq<T>, i: int, v: T)
    requires
        keys.no_duplicates(),
        keys.len() == vals.len(),
        0 <= i < keys.len(),
    ensures
        keyed_map(keys, vals.update(i, v)) == keyed_map(keys, vals).insert(keys[i], v),
{
    lemma_index_of_unique(keys, keys[i], i);
    assert forall|k: Seq<char>| keys.contains(k) && k != keys[i] implies keys.index_of(k) != i by {
        lemma_index_of(keys, k);
    }
    assert(keyed_map(keys, vals.update(i, v)) =~= keyed_map(keys, vals).insert(keys[i], v)) by {
        assert forall|k: Seq<char>| #[trigger] keys.contains(k)
            implies keyed_map(keys, vals.update(i, v))[k] == keyed_map(keys, vals).insert(keys[i], v)[k] by {
            lemma_index_of(keys, k);
        }
    }
}

/// Appending a new key and its value adds them to the table.
pub proof fn lemma_keyed_push<T>(keys: Seq<Seq<char>>, vals: Seq<T>, k: Seq<char>, v: T)
    requires
        keys.no_duplicates(),
        keys.len() == vals.len(),
        !keys.contains(k),
    ensures
        keys.push(k).no_duplicates(),
        keyed_map(keys.push(k), vals.push(v)) == keyed_map(keys, vals).insert(k, v),
{
    let n = keys.push(k);
    assert(n.no_duplicates()) by {
        assert forall|a: int, b: int| 0 <= a < n.len() && 0 <= b < n.len() && a != b implies n[a] != n[b] by {
            if a == keys.len() {
                assert(keys[b] == n[b]);
            } else if b == keys.len() {
                assert(keys[a] == n[a]);
            } else {
                assert(keys[a] == n[a] && keys[b] == n[b]);
            }
        }
    }
    assert forall|x: Seq<char>| #[trigger] n.contains(x) <==> (keys.contains(x) || x == k) by {
        if n.contains(x) {
            let j = choose|j: int| 0 <= j < n.len() && n[j] == x;
            if j < keys.len() {
                assert(keys[j] == x);
            }
        }
        if keys.contains(x) {
            let j = choose|j: int| 0 <= j < keys.len() && keys[j] == x;
            assert(n[j] == x);
        }
        if x == k {
            assert(n[keys.len() as int] == x);
        }
    }
    assert(keyed_map(n, vals.push(v)) =~= keyed_map(keys, vals).insert(k, v)) by {
        assert forall|x: Seq<char>| #[trigger] n.contains(x)
            implies keyed_map(n, vals.push(v))[x] == keyed_map(keys, vals).insert(k, v)[x] by {
            if x == k {
                lemma_index_of_unique(n, x, keys.len() as int);
            } else {
                lemma_index_of(keys, x);
                assert(n[keys.index_of(x)] == x);
                lemma_index_of_unique(n, x, keys.index_of(x));
            }
        }
    }
}

/// The position of `k` among `keys`, if it is there.
pub fn find_key(keys: &Vec<String>, k: &String) -> (r: Option<usize>)
    ensures
        r matches Some(i) ==> i < keys@.len() && keys@[i as int]@ == k@,
        r is None ==> !string_seq(keys@).contains(k@),
{
    let mut i: usize = 0;
    while i < keys.len()
        invariant
            i <= keys@.len(),
            forall|j: int| 0 <= j < i ==> keys@[j]@ != k@,
        decreases keys@.len() - i,
    {
        if keys[i] == *k {
            return Some(i);
        }
        i = i + 1;
    }
    assert(!string_seq(keys@).contains(k@)) by {
        if string_seq(keys@).contains(k@) {
            let j = choose|j: int| 0 <= j < keys@.len() && string_seq(keys@)[j] == k@;
            assert(keys@[j]@ == k@);
        }
    }
    None
}

} // verus!
