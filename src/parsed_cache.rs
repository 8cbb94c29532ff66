use vstd::prelude::*;
use crate::clock::now_seconds;
use crate::slots::{hash_slots_of, HashSlots};

verus! {

/// A parsed beatmap handle and the time it was cached.
pub struct PPbeatmapCache<B> {
    pub key: String,
    pub handle: B,
    pub time: i64,
}

/// Whether something cached at `time` is older than `timeout` seconds at `now`.
pub open spec fn aged(time: int, now: int, timeout: int) -> bool {
    now - time > timeout
}

/// Parsed beatmaps keyed by content hash (or by `bid_<id>`), at most `max` of them.
pub struct ParsedCache<B> {
    index: HashSlots,
    entries: Vec<PPbeatmapCache<B>>,
    max: usize,
}

impl<B> ParsedCache<B> {
    pub closed spec fn wf(&self) -> bool {
        &&& forall|k: Seq<char>| #[trigger]
            hash_slots_of(self.index).contains_key(k) ==> {
                &&& hash_slots_of(self.index)[k] < self.entries@.len()
                &&& self.entries@[hash_slots_of(self.index)[k] as int].key@ == k
            }
        &&& forall|i: int|
            0 <= i < self.entries@.len() ==> {
                &&& hash_slots_of(self.index).contains_key(#[trigger] self.entries@[i].key@)
                &&& hash_slots_of(self.index)[self.entries@[i].key@] == i
            }
        &&& self.entries@.len() <= self.max
    }

    /// Each key's handle and caching time.
    pub closed spec fn view(&self) -> Map<Seq<char>, (B, i64)> {
        Map::new(
            |k: Seq<char>| hash_slots_of(self.index).contains_key(k),
            |k: Seq<char>|
                (
                    self.entries@[hash_slots_of(self.index)[k] as int].handle,
                    self.entries@[hash_slots_of(self.index)[k] as int].time,
                ),
        )
    }

    /// How many handles are cached.
    pub closed spec fn count(&self) -> nat {
        self.entries@.len()
    }

    pub closed spec fn spec_max(&self) -> nat {
        self.max as nat
    }

    /// An empty cache that holds at most `max` handles.
    pub fn new(max: usize) -> (r: Self)
        ensures
            r.wf(),
            r.view().dom().is_empty(),
            r.count() == 0,
            r.spec_max() == max,
    {
        let r = ParsedCache { index: HashSlots::new(), entries: Vec::new(), max };
        assert(r.view().dom() =~= Set::empty());
        r
    }

    /// The number of cached handles is the number of keys.
    pub proof fn lemma_count_is_keys(&self)
        requires
            self.wf(),
        ensures
            self@.dom().len() == self.count(),
            self@.dom().finite(),
    {
        let keys = self.entries@.map_values(|e: PPbeatmapCache<B>| e.key@);
        assert(keys.no_duplicates()) by {
            assert forall|i: int, j: int| 0 <= i < keys.len() && 0 <= j < keys.len() && i != j implies keys[i]
                != keys[j] by {
                assert(hash_slots_of(self.index)[self.entries@[i].key@] == i);
                assert(hash_slots_of(self.index)[self.entries@[j].key@] == j);
            }
        }
        assert(self@.dom() =~= keys.to_set()) by {
            assert forall|k: Seq<char>| self@.dom().contains(k) implies keys.to_set().contains(k) by {
                let i = hash_slots_of(self.index)[k] as int;
                assert(keys[i] == k);
            }
            assert forall|k: Seq<char>| keys.to_set().contains(k) implies self@.dom().contains(k) by {
                let i = choose|i: int| 0 <= i < keys.len() && keys[i] == k;
                assert(self.entries@[i].key@ == k);
            }
        }
        keys.unique_seq_to_set();
        vstd::seq_lib::seq_to_set_is_finite(keys);
    }

    /// How many handles are cached: the number of keys, never above the bound.
    pub fn len(&self) -> (r: usize)
        requires
            self.wf(),
        ensures
            r == self.count(),
            r == self@.dom().len(),
            r <= self.spec_max(),
    {
        proof {
            self.lemma_count_is_keys();
        }
        self.entries.len()
    }

    /// The handle cached under `key`.
    pub fn get(&self, key: &str) -> (r: Option<&B>)
        requires
            self.wf(),
        ensures
            r matches Some(b) ==> self@.contains_key(key@) && *b == self@[key@].0,
            r is None ==> !self@.contains_key(key@),
    {
        match self.index.get(key) {
            Some(i) => Some(&self.entries[i].handle),
            None => None,
        }
    }

    /// Whether a handle is cached under `key`.
    pub fn contains(&self, key: &str) -> (r: bool)
        requires
            self.wf(),
        ensures
            r == self@.contains_key(key@),
    {
        self.index.get(key).is_some()
    }

    /// Caches `handle` under `key` at `now`. A new key is refused when the cache is
    /// full; an existing key is replaced.
    pub fn insert_at(&mut self, key: String, handle: B, now: i64)
        requires
            old(self).wf(),
        ensures
            final(self).wf(),
            final(self).spec_max() == old(self).spec_max(),
            final(self)@ == if old(self)@.contains_key(key@) || old(self).count() < old(self).spec_max() {
                old(self)@.insert(key@, (handle, now))
            } else {
                old(self)@
            },
            final(self).count() == if old(self)@.contains_key(key@) {
                old(self).count()
            } else if old(self).count() < old(self).spec_max() {
                old(self).count() + 1
            } else {
                old(self).count()
            },
    {
        let ghost old_view = self@;
        let ghost k = key@;
        match self.index.get(key.as_str()) {
            Some(pos) => {
                self.entries.set(pos, PPbeatmapCache { key, handle, time: now });
                assert(self@ =~= old_view.insert(k, (handle, now)));
            },
            None => {
                if self.entries.len() >= self.max {
                    return;
                }
                let slot = self.entries.len();
                let kc = key.clone();
                self.index.insert(kc, slot);
                self.entries.push(PPbeatmapCache { key, handle, time: now });
                assert(self@ =~= old_view.insert(k, (handle, now)));
            },
        }
    }

    /// Drops the handle cached under `key`, if any.
    pub fn remove(&mut self, key: &str)
        requires
            old(self).wf(),
        ensures
            final(self).wf(),
            final(self).spec_max() == old(self).spec_max(),
            final(self)@ == old(self)@.remove(key@),
            old(self)@.contains_key(key@) ==> final(self).count() + 1 == old(self).count(),
            !old(self)@.contains_key(key@) ==> final(self).count() == old(self).count(),
    {
        let ghost old_view = self@;
        let ghost old_entries = self.entries@;
        let ghost old_index = hash_slots_of(self.index);
        match self.index.get(key) {
            None => {
                assert(self@ =~= old_view.remove(key@));
            },
            Some(pos) => {
                let last = self.entries.len() - 1;
                let _removed = self.entries.swap_remove(pos);
                self.index.remove(key);
                if pos < last {
                    let moved = self.entries[pos].key.clone();
                    assert(moved@ == old_entries[last as int].key@);
                    self.index.insert(moved, pos);
                }
                proof {
                    let idx = hash_slots_of(self.index);
                    assert forall|k: Seq<char>| #[trigger] idx.contains_key(k) implies {
                        &&& idx[k] < self.entries@.len()
                        &&& self.entries@[idx[k] as int].key@ == k
                    } by {
                        if k != old_entries[last as int].key@ {
                            assert(old_index.contains_key(k));
                            assert(old_index[k] != last);
                        }
                    }
                    assert forall|i: int| 0 <= i < self.entries@.len() implies {
                        &&& idx.contains_key(#[trigger] self.entries@[i].key@)
                        &&& idx[self.entries@[i].key@] == i
                    } by {
                        if i == pos {
                        } else {
                            assert(self.entries@[i] == old_entries[i]);
                            assert(old_index[old_entries[i].key@] == i);
                        }
                    }
                    assert(self@ =~= old_view.remove(key@));
                }
            },
        }
    }

    /// Drops every handle.
    pub fn clear(&mut self)
        requires
            old(self).wf(),
        ensures
            final(self).wf(),
            final(self)@.dom().is_empty(),
            final(self).spec_max() == old(self).spec_max(),
    {
        self.index = HashSlots::new();
        self.entries = Vec::new();
        assert(self@.dom() =~= Set::empty());
    }

    /// The keys whose handles are older than `timeout` seconds at `now`.
    pub fn expired_keys(&self, now: i64, timeout: i64) -> (r: Vec<String>)
        requires
            self.wf(),
        ensures
            forall|j: int|
                0 <= j < r@.len() ==> self@.contains_key(#[trigger] r@[j]@) && aged(
                    self@[r@[j]@].1 as int,
                    now as int,
                    timeout as int,
                ),
            forall|k: Seq<char>|
                #[trigger] self@.contains_key(k) && aged(self@[k].1 as int, now as int, timeout as int)
                    ==> exists|j: int| 0 <= j < r@.len() && r@[j]@ == k,
    {
        let mut out: Vec<String> = Vec::new();
        let mut i: usize = 0;
        while i < self.entries.len()
            invariant
                self.wf(),
                i <= self.entries@.len(),
                forall|j: int|
                    0 <= j < out@.len() ==> self@.contains_key(#[trigger] out@[j]@) && aged(
                        self@[out@[j]@].1 as int,
                        now as int,
                        timeout as int,
                    ),
                forall|m: int|
                    0 <= m < i && aged(self.entries@[m].time as int, now as int, timeout as int)
                        ==> exists|j: int| 0 <= j < out@.len() && out@[j]@ == #[trigger] self.entries@[m].key@,
            decreases self.entries@.len() - i,
        {
            let ghost prev = out@;
            let e = &self.entries[i];
            if (now as i128) - (e.time as i128) > timeout as i128 {
                let k = e.key.clone();
                proof {
                    assert(self@.contains_key(k@));
                }
                out.push(k);
                assert(out@[out@.len() - 1]@ == self.entries@[i as int].key@);
            }
            proof {
                assert forall|m: int|
                    0 <= m < i + 1 && aged(self.entries@[m].time as int, now as int, timeout as int)
                        implies exists|j: int| 0 <= j < out@.len() && out@[j]@ == #[trigger] self.entries@[m].key@ by {
                    if m < i {
                        let j = choose|j: int| 0 <= j < prev.len() && prev[j]@ == self.entries@[m].key@;
                        assert(out@[j] == prev[j]);
                    } else {
                        assert(out@[out@.len() - 1]@ == self.entries@[m].key@);
                    }
                }
            }
            i = i + 1;
        }
        proof {
            assert forall|k: Seq<char>|
                #[trigger] self@.contains_key(k) && aged(self@[k].1 as int, now as int, timeout as int)
                implies exists|j: int| 0 <= j < out@.len() && out@[j]@ == k by {
                let m = hash_slots_of(self.index)[k] as int;
                assert(self.entries@[m].key@ == k);
            }
        }
        out
    }

    /// One sweep of the reaper: drops every handle older than `timeout` seconds at
    /// `now` and keeps the rest as they were.
    pub fn reap(&mut self, now: i64, timeout: i64)
        requires
            old(self).wf(),
        ensures
            final(self).wf(),
            final(self).spec_max() == old(self).spec_max(),
            forall|k: Seq<char>|
                #[trigger] final(self)@.contains_key(k) <==> old(self)@.contains_key(k) && !aged(
                    old(self)@[k].1 as int,
                    now as int,
                    timeout as int,
                ),
            forall|k: Seq<char>| #[trigger] final(self)@.contains_key(k) ==> final(self)@[k] == old(self)@[k],
    {
        let ghost start = self@;
        let keys = self.expired_keys(now, timeout);
        let mut i: usize = 0;
        while i < keys.len()
            invariant
                self.wf(),
                self.spec_max() == old(self).spec_max(),
                start == old(self)@,
                i <= keys@.len(),
                forall|j: int|
                    0 <= j < keys@.len() ==> start.contains_key(#[trigger] keys@[j]@) && aged(
                        start[keys@[j]@].1 as int,
                        now as int,
                        timeout as int,
                    ),
                forall|k: Seq<char>|
                    #[trigger] start.contains_key(k) && aged(start[k].1 as int, now as int, timeout as int)
                        ==> exists|j: int| 0 <= j < keys@.len() && keys@[j]@ == k,
                forall|k: Seq<char>|
                    #[trigger] self@.contains_key(k) <==> start.contains_key(k) && !(exists|j: int|
                        0 <= j < i && keys@[j]@ == k),
                forall|k: Seq<char>| #[trigger] self@.contains_key(k) ==> self@[k] == start[k],
            decreases keys@.len() - i,
        {
            self.remove(keys[i].as_str());
            proof {
                assert forall|k: Seq<char>|
                    #[trigger] self@.contains_key(k) <==> start.contains_key(k) && !(exists|j: int|
                        0 <= j < i + 1 && keys@[j]@ == k) by {
                    if k == keys@[i as int]@ {
                        assert(0 <= i < i + 1 && keys@[i as int]@ == k);
                    } else {
                        if exists|j: int| 0 <= j < i + 1 && keys@[j]@ == k {
                            let j = choose|j: int| 0 <= j < i + 1 && keys@[j]@ == k;
                            assert(j < i);
                        }
                    }
                }
            }
            i = i + 1;
        }
        proof {
            assert forall|k: Seq<char>|
                #[trigger] self@.contains_key(k) <==> start.contains_key(k) && !aged(
                    start[k].1 as int,
                    now as int,
                    timeout as int,
                ) by {
                if start.contains_key(k) && !aged(start[k].1 as int, now as int, timeout as int) {
                    if exists|j: int| 0 <= j < i && keys@[j]@ == k {
                        let j = choose|j: int| 0 <= j < i && keys@[j]@ == k;
                        assert(start.contains_key(keys@[j]@));
                    }
                }
            }
        }
    }
    /// Caches `handle` under `key`, stamped with the local clock.
    pub fn insert(&mut self, key: String, handle: B)
        requires
            old(self).wf(),
        ensures
            final(self).wf(),
            final(self).spec_max() == old(self).spec_max(),
            old(self)@.contains_key(key@) || old(self).count() < old(self).spec_max() ==> final(self)@.contains_key(key@)
                && final(self)@[key@].0 == handle && final(self)@.remove(key@) == old(self)@.remove(key@),
            !old(self)@.contains_key(key@) && old(self).count() >= old(self).spec_max() ==> final(self)@ == old(self)@,
    {
        let now = now_seconds();
        let ghost k = key@;
        let ghost before = self@;
        self.insert_at(key, handle, now);
        proof {
            if before.contains_key(k) || old(self).count() < old(self).spec_max() {
                assert(self@.remove(k) =~= before.remove(k));
            }
        }
    }

    /// One reaper sweep by the local clock.
    pub fn reap_now(&mut self, timeout: i64)
        requires
            old(self).wf(),
        ensures
            final(self).wf(),
            forall|k: Seq<char>| #[trigger] final(self)@.contains_key(k) ==> old(self)@.contains_key(k) && final(self)@[k] == old(self)@[k],
    {
        let now = now_seconds();
        self.reap(now, timeout);
    }
}

} // verus!
