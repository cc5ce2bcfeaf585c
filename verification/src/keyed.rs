//! Small string-keyed tables held as vectors of entries with distinct keys.

use vstd::prelude::*;
use crate::text::str_eq;

verus! {

/// No key occurs twice.
pub open spec fn distinct_keys<V>(v: Seq<(String, V)>) -> bool {
    forall|i: int, j: int| 0 <= i < v.len() && 0 <= j < v.len() && i != j ==> #[trigger] v[i].0@ != #[trigger] v[j].0@
}

/// Whether some entry has key `k`.
pub open spec fn has_key<V>(v: Seq<(String, V)>, k: Seq<char>) -> bool {
    exists|i: int| 0 <= i < v.len() && #[trigger] v[i].0@ == k
}

/// The table as a map from key to value.
pub open spec fn keyed_map<V>(v: Seq<(String, V)>) -> Map<Seq<char>, V> {
    Map::new(
        |k: Seq<char>| has_key(v, k),
        |k: Seq<char>| v[choose|i: int| 0 <= i < v.len() && #[trigger] v[i].0@ == k].1,
    )
}

/// In a table with distinct keys, the map holds each entry's value under its key.
pub proof fn lemma_keyed_map_at<V>(v: Seq<(String, V)>, i: int)
    requires
        distinct_keys(v),
        0 <= i < v.len(),
    ensures
        keyed_map(v).dom().contains(v[i].0@),
        keyed_map(v)[v[i].0@] == v[i].1,
{
    let k = v[i].0@;
    assert(has_key(v, k));
    let j = choose|j: int| 0 <= j < v.len() && #[trigger] v[j].0@ == k;
    assert(0 <= j < v.len() && v[j].0@ == k);
    if j != i {
        assert(v[i].0@ != v[j].0@);
    }
}

/// Index of the entry with key `key`, if any.
pub fn find_key<V>(v: &Vec<(String, V)>, key: &str) -> (r: Option<usize>)
    ensures
        match r {
            Some(i) => i < v@.len() && v@[i as int].0@ == key@,
            None => !has_key(v@, key@),
        },
{
    let mut i: usize = 0;
    while i < v.len()
        invariant
            0 <= i <= v@.len(),
            forall|j: int| 0 <= j < i ==> #[trigger] v@[j].0@ != key@,
        decreases v@.len() - i,
    {
        if str_eq(v[i].0.as_str(), key) {
            return Some(i);
        }
        i = i + 1;
    }
    None
}

/// Sets the value under `key`, replacing the entry that has it in place or
/// appending a new entry at the end.
pub fn keyed_set<V>(v: &mut Vec<(String, V)>, key: &str, val: V)
    requires
        distinct_keys(old(v)@),
    ensures
        distinct_keys(final(v)@),
        keyed_map(final(v)@) == keyed_map(old(v)@).insert(key@, val),
        has_key(old(v)@, key@) ==> final(v)@.len() == old(v)@.len(),
        !has_key(old(v)@, key@) ==> final(v)@.len() == old(v)@.len() + 1
            && final(v)@.last().0@ == key@
            && final(v)@.drop_last() == old(v)@,
{
    let ghost old_v = v@;
    let owned = key.to_owned();
    match find_key(v, key) {
        Some(i) => {
            v.set(i, (owned, val));
            proof {
                let nv = v@;
                assert forall|a: int, b: int| 0 <= a < nv.len() && 0 <= b < nv.len() && a != b
                    implies #[trigger] nv[a].0@ != #[trigger] nv[b].0@ by {
                    assert(old_v[a].0@ != old_v[b].0@);
                }
                assert forall|k: Seq<char>| #[trigger] keyed_map(nv).dom().contains(k)
                    <==> keyed_map(old_v).insert(key@, val).dom().contains(k) by {
                    if has_key(nv, k) {
                        let a = choose|a: int| 0 <= a < nv.len() && #[trigger] nv[a].0@ == k;
                        if a != i as int {
                            assert(old_v[a].0@ == k);
                        }
                    }
                    if has_key(old_v, k) {
                        let a = choose|a: int| 0 <= a < old_v.len() && #[trigger] old_v[a].0@ == k;
                        assert(nv[a].0@ == k);
                    }
                }
                assert forall|k: Seq<char>| #[trigger] keyed_map(nv).dom().contains(k)
                    implies keyed_map(nv)[k] == keyed_map(old_v).insert(key@, val)[k] by {
                    let a = choose|a: int| 0 <= a < nv.len() && #[trigger] nv[a].0@ == k;
                    lemma_keyed_map_at(nv, a);
                    if a != i as int {
                        lemma_keyed_map_at(old_v, a);
                    }
                }
                assert(keyed_map(nv) =~= keyed_map(old_v).insert(key@, val));
            }
        },
        None => {
            v.push((owned, val));
            proof {
                let nv = v@;
                assert forall|a: int, b: int| 0 <= a < nv.len() && 0 <= b < nv.len() && a != b
                    implies #[trigger] nv[a].0@ != #[trigger] nv[b].0@ by {
                    if a < old_v.len() && b < old_v.len() {
                        assert(old_v[a].0@ != old_v[b].0@);
                    } else if a < old_v.len() {
                        assert(old_v[a].0@ != key@);
                    } else {
                        assert(old_v[b].0@ != key@);
                    }
                }
                assert forall|k: Seq<char>| #[trigger] keyed_map(nv).dom().contains(k)
                    <==> keyed_map(old_v).insert(key@, val).dom().contains(k) by {
                    if has_key(nv, k) {
                        let a = choose|a: int| 0 <= a < nv.len() && #[trigger] nv[a].0@ == k;
                        if a < old_v.len() {
                            assert(old_v[a].0@ == k);
                        }
                    }
                    if has_key(old_v, k) {
                        let a = choose|a: int| 0 <= a < old_v.len() && #[trigger] old_v[a].0@ == k;
                        assert(nv[a].0@ == k);
                    }
                    if k == key@ {
                        assert(nv[old_v.len() as int].0@ == k);
                    }
                }
                assert forall|k: Seq<char>| #[trigger] keyed_map(nv).dom().contains(k)
                    implies keyed_map(nv)[k] == keyed_map(old_v).insert(key@, val)[k] by {
                    let a = choose|a: int| 0 <= a < nv.len() && #[trigger] nv[a].0@ == k;
                    lemma_keyed_map_at(nv, a);
                    if a < old_v.len() {
                        lemma_keyed_map_at(old_v, a);
                    }
                }
                assert(keyed_map(nv) =~= keyed_map(old_v).insert(key@, val));
                assert(nv.drop_last() =~= old_v);
            }
        },
    }
}

/// Removes the entry at index `i`, keeping the order of the others.
pub fn keyed_remove_at<V>(v: &mut Vec<(String, V)>, i: usize)
    requires
        distinct_keys(old(v)@),
        i < old(v)@.len(),
    ensures
        distinct_keys(final(v)@),
        final(v)@ == old(v)@.remove(i as int),
        keyed_map(final(v)@) == keyed_map(old(v)@).remove(old(v)@[i as int].0@),
{
    let ghost old_v = v@;
    let ghost k0 = v@[i as int].0@;
    v.remove(i);
    proof {
        let nv = v@;
        assert forall|a: int, b: int| 0 <= a < nv.len() && 0 <= b < nv.len() && a != b
            implies #[trigger] nv[a].0@ != #[trigger] nv[b].0@ by {
            let oa = if a < i { a } else { a + 1 };
            let ob = if b < i { b } else { b + 1 };
            assert(nv[a] == old_v[oa]);
            assert(nv[b] == old_v[ob]);
            assert(old_v[oa].0@ != old_v[ob].0@);
        }
        assert forall|k: Seq<char>| #[trigger] keyed_map(nv).dom().contains(k)
            <==> keyed_map(old_v).remove(k0).dom().contains(k) by {
            if has_key(nv, k) {
                let a = choose|a: int| 0 <= a < nv.len() && #[trigger] nv[a].0@ == k;
                let oa = if a < i { a } else { a + 1 };
                assert(nv[a] == old_v[oa]);
                assert(old_v[oa].0@ == k);
                assert(old_v[i as int].0@ != old_v[oa].0@);
            }
            if has_key(old_v, k) && k != k0 {
                let a = choose|a: int| 0 <= a < old_v.len() && #[trigger] old_v[a].0@ == k;
                assert(a != i);
                let na = if a < i { a } else { a - 1 };
                assert(nv[na] == old_v[a]);
                assert(nv[na].0@ == k);
            }
        }
        assert forall|k: Seq<char>| #[trigger] keyed_map(nv).dom().contains(k)
            implies keyed_map(nv)[k] == keyed_map(old_v).remove(k0)[k] by {
            let a = choose|a: int| 0 <= a < nv.len() && #[trigger] nv[a].0@ == k;
            let oa = if a < i { a } else { a + 1 };
            assert(nv[a] == old_v[oa]);
            lemma_keyed_map_at(nv, a);
            lemma_keyed_map_at(old_v, oa);
        }
        assert(keyed_map(nv) =~= keyed_map(old_v).remove(k0));
    }
}

} // verus!
