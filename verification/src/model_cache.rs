//! Which models the engine keeps loaded, and which one to evict when there
//! are too many: the least recently used.

use vstd::prelude::*;
use crate::keyed::{keyed_map, distinct_keys, has_key, find_key, keyed_set, keyed_remove_at, lemma_keyed_map_at};
use crate::text::str_eq;

verus! {

/// Loaded models by file path with the tick of their last use, and the
/// model ids that name them.
#[derive(Debug)]
pub struct ModelCacheIndex {
    by_path: Vec<(String, u64)>,
    id_to_path: Vec<(String, String)>,
    max_loaded_models: usize,
}

/// Whether entry `i` is the least recently used one other than `keep`: no
/// other entry was used earlier, and no earlier entry was used as early.
pub open spec fn is_lru(entries: Seq<(String, u64)>, keep: Seq<char>, i: int) -> bool {
    &&& 0 <= i < entries.len()
    &&& entries[i].0@ != keep
    &&& forall|j: int| 0 <= j < entries.len() && (#[trigger] entries[j]).0@ != keep ==> entries[i].1 <= entries[j].1
    &&& forall|j: int| 0 <= j < i && (#[trigger] entries[j]).0@ != keep ==> entries[j].1 > entries[i].1
}

/// The id table after dropping every id that names `path`.
pub open spec fn ids_without_path(ids: Map<Seq<char>, String>, path: Seq<char>) -> Map<Seq<char>, String> {
    ids.restrict(ids.dom().filter(|k: Seq<char>| ids[k]@ != path))
}

/// The entries whose path is not `path`, in order.
pub open spec fn drop_path(s: Seq<(String, String)>, path: Seq<char>) -> Seq<(String, String)>
    decreases s.len(),
{
    if s.len() == 0 {
        Seq::empty()
    } else {
        let r = drop_path(s.drop_last(), path);
        if s.last().1@ != path { r.push(s.last()) } else { r }
    }
}

/// Every kept entry is an entry of `s` with another path.
proof fn lemma_drop_path_sound(s: Seq<(String, String)>, path: Seq<char>)
    ensures
        forall|a: int| 0 <= a < drop_path(s, path).len() ==> exists|b: int| 0 <= b < s.len()
            && #[trigger] s[b] == #[trigger] drop_path(s, path)[a] && s[b].1@ != path,
    decreases s.len(),
{
    if s.len() > 0 {
        let init = s.drop_last();
        lemma_drop_path_sound(init, path);
        let r0 = drop_path(init, path);
        let r = drop_path(s, path);
        assert forall|a: int| 0 <= a < r.len() implies exists|b: int| 0 <= b < s.len()
            && #[trigger] s[b] == #[trigger] r[a] && s[b].1@ != path by {
            if a < r0.len() {
                let b = choose|b: int| 0 <= b < init.len() && #[trigger] init[b] == #[trigger] r0[a] && init[b].1@ != path;
                assert(s[b] == init[b]);
                assert(r[a] == r0[a]);
            } else {
                assert(s[s.len() - 1] == r[a]);
            }
        }
    }
}

/// Every entry of `s` with another path is kept.
proof fn lemma_drop_path_complete(s: Seq<(String, String)>, path: Seq<char>)
    ensures
        forall|b: int| 0 <= b < s.len() && s[b].1@ != path ==> exists|a: int| 0 <= a < drop_path(s, path).len()
            && #[trigger] drop_path(s, path)[a] == #[trigger] s[b],
    decreases s.len(),
{
    if s.len() > 0 {
        let init = s.drop_last();
        lemma_drop_path_complete(init, path);
        let r0 = drop_path(init, path);
        let r = drop_path(s, path);
        assert forall|b: int| 0 <= b < s.len() && s[b].1@ != path implies exists|a: int| 0 <= a < r.len()
            && #[trigger] r[a] == #[trigger] s[b] by {
            if b < init.len() {
                assert(init[b] == s[b]);
                let a = choose|a: int| 0 <= a < r0.len() && #[trigger] r0[a] == #[trigger] init[b];
                assert(r[a] == r0[a]);
            } else {
                assert(r[r.len() - 1] == s[b]);
            }
        }
    }
}

/// Dropping entries keeps the keys distinct.
proof fn lemma_drop_path_distinct(s: Seq<(String, String)>, path: Seq<char>)
    requires
        distinct_keys(s),
    ensures
        distinct_keys(drop_path(s, path)),
    decreases s.len(),
{
    if s.len() > 0 {
        let init = s.drop_last();
        assert(distinct_keys(init)) by {
            assert forall|a: int, c: int| 0 <= a < init.len() && 0 <= c < init.len() && a != c
                implies #[trigger] init[a].0@ != #[trigger] init[c].0@ by {
                assert(s[a].0@ != s[c].0@);
            }
        }
        lemma_drop_path_distinct(init, path);
        lemma_drop_path_sound(init, path);
        let r0 = drop_path(init, path);
        let r = drop_path(s, path);
        if s.last().1@ != path {
            assert forall|a: int, c: int| 0 <= a < r.len() && 0 <= c < r.len() && a != c
                implies #[trigger] r[a].0@ != #[trigger] r[c].0@ by {
                if a < r0.len() && c < r0.len() {
                    assert(r0[a].0@ != r0[c].0@);
                } else {
                    let x = if a < r0.len() { a } else { c };
                    let b = choose|b: int| 0 <= b < init.len() && #[trigger] init[b] == #[trigger] r0[x] && init[b].1@ != path;
                    assert(s[b].0@ != s[s.len() - 1].0@);
                }
            }
        }
    }
}

/// Dropping the entries of a path keeps the keys distinct and drops exactly
/// the ids naming that path.
proof fn lemma_drop_path(s: Seq<(String, String)>, path: Seq<char>)
    requires
        distinct_keys(s),
    ensures
        distinct_keys(drop_path(s, path)),
        keyed_map(drop_path(s, path)) == ids_without_path(keyed_map(s), path),
{
    lemma_drop_path_sound(s, path);
    lemma_drop_path_complete(s, path);
    lemma_drop_path_distinct(s, path);
    let r = drop_path(s, path);
    let m = keyed_map(r);
    let want = ids_without_path(keyed_map(s), path);
    assert forall|k: Seq<char>| #[trigger] m.dom().contains(k) <==> want.dom().contains(k) by {
        if has_key(r, k) {
            let a = choose|a: int| 0 <= a < r.len() && #[trigger] r[a].0@ == k;
            let b = choose|b: int| 0 <= b < s.len() && #[trigger] s[b] == #[trigger] r[a] && s[b].1@ != path;
            lemma_keyed_map_at(s, b);
        }
        if want.dom().contains(k) {
            assert(has_key(s, k));
            let b = choose|b: int| 0 <= b < s.len() && #[trigger] s[b].0@ == k;
            lemma_keyed_map_at(s, b);
            let a = choose|a: int| 0 <= a < r.len() && #[trigger] r[a] == #[trigger] s[b];
            assert(r[a].0@ == k);
        }
    }
    assert forall|k: Seq<char>| #[trigger] m.dom().contains(k) implies m[k] == want[k] by {
        let a = choose|a: int| 0 <= a < r.len() && #[trigger] r[a].0@ == k;
        let b = choose|b: int| 0 <= b < s.len() && #[trigger] s[b] == #[trigger] r[a] && s[b].1@ != path;
        lemma_keyed_map_at(s, b);
        lemma_keyed_map_at(r, a);
    }
    assert(m =~= want);
}

impl ModelCacheIndex {
    /// No key is listed twice.
    pub closed spec fn wf(&self) -> bool {
        &&& distinct_keys(self.by_path@)
        &&& distinct_keys(self.id_to_path@)
    }

    /// The loaded models in load order, each with the tick of its last use.
    pub closed spec fn entries(&self) -> Seq<(String, u64)> {
        self.by_path@
    }

    /// The loaded models by path, with the tick of their last use.
    pub closed spec fn loaded(&self) -> Map<Seq<char>, u64> {
        keyed_map(self.by_path@)
    }

    /// The path each model id was loaded from.
    pub closed spec fn ids(&self) -> Map<Seq<char>, String> {
        keyed_map(self.id_to_path@)
    }

    /// How many models may stay loaded; 0 means no limit.
    pub closed spec fn limit(&self) -> usize {
        self.max_loaded_models
    }

    /// An empty cache keeping at most `max_loaded_models` models (0: no limit).
    pub fn new(max_loaded_models: usize) -> (r: ModelCacheIndex)
        ensures
            r.wf(),
            r.entries().len() == 0,
            r.loaded() == Map::<Seq<char>, u64>::empty(),
            r.ids() == Map::<Seq<char>, String>::empty(),
            r.limit() == max_loaded_models,
    {
        let r = ModelCacheIndex { by_path: Vec::new(), id_to_path: Vec::new(), max_loaded_models };
        assert(r.loaded() =~= Map::<Seq<char>, u64>::empty());
        assert(r.ids() =~= Map::<Seq<char>, String>::empty());
        r
    }

    /// A cache hit: marks the model at `key` as used at `now`. Gives whether it was loaded.
    pub fn touch(&mut self, key: &str, now: u64) -> (r: bool)
        requires
            old(self).wf(),
        ensures
            final(self).wf(),
            r == old(self).loaded().dom().contains(key@),
            r ==> final(self).loaded() == old(self).loaded().insert(key@, now),
            !r ==> final(self).loaded() == old(self).loaded(),
            final(self).entries().len() == old(self).entries().len(),
            final(self).ids() == old(self).ids(),
            final(self).limit() == old(self).limit(),
    {
        match find_key(&self.by_path, key) {
            Some(_) => {
                keyed_set(&mut self.by_path, key, now);
                true
            },
            None => false,
        }
    }

    /// Index of the least recently used entry other than `keep`, if any.
    fn lru_victim(&self, keep: &str) -> (r: Option<usize>)
        ensures
            match r {
                Some(i) => is_lru(self.by_path@, keep@, i as int),
                None => forall|j: int| 0 <= j < self.by_path@.len() ==> (#[trigger] self.by_path@[j]).0@ == keep@,
            },
    {
        let mut best: Option<usize> = None;
        let mut i: usize = 0;
        while i < self.by_path.len()
            invariant
                0 <= i <= self.by_path@.len(),
                match best {
                    Some(b) => b < i && self.by_path@[b as int].0@ != keep@
                        && (forall|j: int| 0 <= j < i && (#[trigger] self.by_path@[j]).0@ != keep@
                            ==> self.by_path@[b as int].1 <= self.by_path@[j].1)
                        && (forall|j: int| 0 <= j < b && (#[trigger] self.by_path@[j]).0@ != keep@
                            ==> self.by_path@[j].1 > self.by_path@[b as int].1),
                    None => forall|j: int| 0 <= j < i ==> (#[trigger] self.by_path@[j]).0@ == keep@,
                },
            decreases self.by_path@.len() - i,
        {
            if !str_eq(self.by_path[i].0.as_str(), keep) {
                match best {
                    None => {
                        best = Some(i);
                    },
                    Some(b) => {
                        if self.by_path[i].1 < self.by_path[b].1 {
                            best = Some(i);
                        }
                    },
                }
            }
            i = i + 1;
        }
        best
    }

    /// Evicts the least recently used model other than `keep`, dropping the
    /// ids that name it; gives its path.
    fn evict_lru(&mut self, keep: &str) -> (r: Option<String>)
        requires
            old(self).wf(),
        ensures
            final(self).wf(),
            final(self).limit() == old(self).limit(),
            match r {
                Some(p) => exists|i: int| is_lru(old(self).entries(), keep@, i) && #[trigger] old(self).entries()[i].0@ == p@
                    && final(self).entries() == old(self).entries().remove(i)
                    && final(self).loaded() == old(self).loaded().remove(p@)
                    && final(self).ids() == ids_without_path(old(self).ids(), p@),
                None => final(self).entries() == old(self).entries() && final(self).ids() == old(self).ids()
                    && forall|j: int| 0 <= j < old(self).entries().len() ==> (#[trigger] old(self).entries()[j]).0@ == keep@,
            },
    {
        match self.lru_victim(keep) {
            None => None,
            Some(i) => {
                let victim = self.by_path[i].0.clone();
                let ghost old_entries = self.by_path@;
                keyed_remove_at(&mut self.by_path, i);
                let ghost old_ids = self.id_to_path@;
                let mut kept: Vec<(String, String)> = Vec::new();
                let mut j: usize = 0;
                while j < self.id_to_path.len()
                    invariant
                        old_ids == self.id_to_path@,
                        0 <= j <= old_ids.len(),
                        kept@ == drop_path(old_ids.take(j as int), victim@),
                    decreases old_ids.len() - j,
                {
                    proof {
                        assert(old_ids.take(j + 1).drop_last() =~= old_ids.take(j as int));
                    }
                    if !str_eq(self.id_to_path[j].1.as_str(), victim.as_str()) {
                        let e = (self.id_to_path[j].0.clone(), self.id_to_path[j].1.clone());
                        kept.push(e);
                    }
                    j = j + 1;
                }
                proof {
                    assert(old_ids.take(old_ids.len() as int) =~= old_ids);
                    lemma_drop_path(old_ids, victim@);
                    assert(old_entries[i as int].0@ == victim@);
                    assert(is_lru(old_entries, keep@, i as int));
                }
                self.id_to_path = kept;
                assert(old(self).entries() == old_entries);
                assert(old(self).ids() == keyed_map(old_ids));
                assert(is_lru(old(self).entries(), keep@, i as int) && old(self).entries()[i as int].0@ == victim@
                    && self.entries() == old_entries.remove(i as int)
                    && self.loaded() == keyed_map(old_entries).remove(victim@)
                    && self.ids() == ids_without_path(keyed_map(old_ids), victim@));
                Some(victim)
            },
        }
    }

    /// Records a model just loaded from `key` at tick `now`. When that puts
    /// more models in the cache than the limit allows, the least recently
    /// used other model is evicted and its path given back.
    pub fn insert_loaded(&mut self, key: &str, now: u64) -> (r: Option<String>)
        requires
            old(self).wf(),
        ensures
            final(self).wf(),
            final(self).limit() == old(self).limit(),
            final(self).loaded().dom().contains(key@),
            final(self).loaded()[key@] == now,
            match r {
                Some(p) => p@ != key@
                    && old(self).loaded().dom().contains(p@)
                    && (forall|k: Seq<char>| #[trigger] old(self).loaded().dom().contains(k) && k != key@
                        ==> old(self).loaded()[p@] <= old(self).loaded()[k])
                    && final(self).loaded() == old(self).loaded().insert(key@, now).remove(p@)
                    && final(self).ids() == ids_without_path(old(self).ids(), p@)
                    && old(self).limit() > 0,
                None => final(self).loaded() == old(self).loaded().insert(key@, now)
                    && final(self).ids() == old(self).ids(),
            },
            old(self).limit() > 0 && old(self).entries().len() <= old(self).limit()
                ==> final(self).entries().len() <= final(self).limit(),
            r is Some <==> (old(self).limit() > 0 && old(self).entries().len()
                + (if old(self).loaded().dom().contains(key@) { 0int } else { 1int }) > old(self).limit()),
    {
        keyed_set(&mut self.by_path, key, now);
        if self.max_loaded_models > 0 && self.by_path.len() > self.max_loaded_models {
            let ghost mid = self.by_path@;
            proof {
                lemma_keyed_map_at(mid, mid.len() - 1);
            }
            let r = self.evict_lru(key);
            proof {
                if let Some(p) = &r {
                    let i = choose|i: int| is_lru(mid, key@, i) && #[trigger] mid[i].0@ == p@;
                    lemma_keyed_map_at(mid, i);
                    assert forall|k: Seq<char>| #[trigger] old(self).loaded().dom().contains(k) && k != key@
                        implies old(self).loaded()[p@] <= old(self).loaded()[k] by {
                        assert(keyed_map(mid).dom().contains(k));
                        let j = choose|j: int| 0 <= j < mid.len() && #[trigger] mid[j].0@ == k;
                        lemma_keyed_map_at(mid, j);
                        assert(mid[i].1 <= mid[j].1);
                    }
                }
                if r is None {
                    assert(mid[0].0@ == key@);
                    assert(mid[1].0@ == key@);
                    assert(mid[0].0@ != mid[1].0@);
                }
            }
            r
        } else {
            None
        }
    }

    /// Records that model id `model_id` names the model loaded from `key`.
    pub fn record_id(&mut self, model_id: &str, key: &str)
        requires
            old(self).wf(),
        ensures
            final(self).wf(),
            final(self).ids().dom().contains(model_id@),
            final(self).ids()[model_id@]@ == key@,
            forall|k: Seq<char>| k != model_id@ ==> (#[trigger] final(self).ids().dom().contains(k)) == old(self).ids().dom().contains(k),
            final(self).loaded() == old(self).loaded(),
            final(self).entries() == old(self).entries(),
            final(self).limit() == old(self).limit(),
    {
        keyed_set(&mut self.id_to_path, model_id, key.to_owned());
    }

    /// Unloads the model a model id names: drops the id and the model loaded
    /// from its path, and gives that path; `None` when the id is unknown.
    pub fn unload(&mut self, model_id: &str) -> (r: Option<String>)
        requires
            old(self).wf(),
        ensures
            final(self).wf(),
            final(self).limit() == old(self).limit(),
            match r {
                Some(p) => old(self).ids().dom().contains(model_id@) && old(self).ids()[model_id@]@ == p@
                    && final(self).ids() == old(self).ids().remove(model_id@)
                    && final(self).loaded() == old(self).loaded().remove(p@),
                None => !old(self).ids().dom().contains(model_id@)
                    && final(self).ids() == old(self).ids()
                    && final(self).loaded() == old(self).loaded(),
            },
    {
        match find_key(&self.id_to_path, model_id) {
            None => None,
            Some(i) => {
                proof { lemma_keyed_map_at(self.id_to_path@, i as int); }
                let path = self.id_to_path[i].1.clone();
                keyed_remove_at(&mut self.id_to_path, i);
                match find_key(&self.by_path, path.as_str()) {
                    Some(j) => {
                        keyed_remove_at(&mut self.by_path, j);
                    },
                    None => {
                        proof {
                            assert(keyed_map(self.by_path@).remove(path@) =~= keyed_map(self.by_path@));
                        }
                    },
                }
                Some(path)
            },
        }
    }
}

} // verus!
