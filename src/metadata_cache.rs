use vstd::prelude::*;
use crate::beatmap::{stale_at, Beatmap};
use crate::clock::now_seconds;
use crate::text::{opt_text, opt_text_ref};
use crate::slots::{hash_slots_of, id_slots_of, HashSlots, IdSlots};

verus! {

/// A cached lookup result. `beatmap: None` is a negative entry: upstream said the
/// key is unknown.
#[derive(Debug)]
pub struct BeatmapCache {
    pub beatmap: Option<Beatmap>,
    pub create_time: i64,
}

/// Whether a cache entry is stale at `now` for `ttl` seconds.
pub open spec fn entry_stale_at(e: BeatmapCache, now: int, ttl: int) -> bool {
    match e.beatmap {
        None => now - e.create_time > ttl,
        Some(b) => stale_at(b.fixed_rank_status, b.update_time as int, now, ttl),
    }
}

impl BeatmapCache {
    /// Whether the entry is stale at `now`: a negative entry by its creation time,
    /// a record by its own staleness rule.
    pub fn is_expired_at(&self, now: i64, ttl: i64) -> (r: bool)
        ensures
            r == entry_stale_at(*self, now as int, ttl as int),
    {
        match &self.beatmap {
            None => (now as i128) - (self.create_time as i128) > ttl as i128,
            Some(b) => b.is_expired_at(now, ttl),
        }
    }

    /// Whether the entry is stale now, by the local clock.
    pub fn is_expired(&self, ttl: i64) -> (r: bool)
        ensures
            self.beatmap matches Some(b) && b.fixed_rank_status ==> !r,
    {
        let now = now_seconds();
        self.is_expired_at(now, ttl)
    }
}

/// Beatmap metadata indexed both by content hash and by beatmap id; each insert
/// makes one entry that both keys point at.
pub struct BeatmapCaches {
    by_hash: HashSlots,
    by_bid: IdSlots,
    entries: Vec<BeatmapCache>,
    max: i32,
}

/// How one insert changes the cache: when taken, the counter grows by one and each
/// given key maps to a fresh entry; otherwise nothing changes.
pub open spec fn inserted(
    c: BeatmapCaches,
    d: BeatmapCaches,
    hash: Option<Seq<char>>,
    bid: Option<i32>,
    beatmap: Option<Beatmap>,
    now: int,
) -> bool {
    if c.accepts(hash, bid) {
        &&& d.size() == c.size() + 1
        &&& d.hash_view() == (match hash {
            Some(h) => c.hash_view().insert(h, BeatmapCache { beatmap, create_time: now as i64 }),
            None => c.hash_view(),
        })
        &&& d.bid_view() == (match bid {
            Some(b) => c.bid_view().insert(b, BeatmapCache { beatmap, create_time: now as i64 }),
            None => c.bid_view(),
        })
    } else {
        d == c
    }
}

impl BeatmapCaches {
    pub closed spec fn wf(&self) -> bool {
        &&& forall|k: Seq<char>| #[trigger]
            hash_slots_of(self.by_hash).contains_key(k) ==> hash_slots_of(self.by_hash)[k]
                < self.entries@.len()
        &&& forall|b: i32| #[trigger]
            id_slots_of(self.by_bid).contains_key(b) ==> id_slots_of(self.by_bid)[b]
                < self.entries@.len()
    }

    /// Entries by content hash.
    pub closed spec fn hash_view(&self) -> Map<Seq<char>, BeatmapCache> {
        Map::new(
            |k: Seq<char>| hash_slots_of(self.by_hash).contains_key(k),
            |k: Seq<char>| self.entries@[hash_slots_of(self.by_hash)[k] as int],
        )
    }

    /// Entries by beatmap id.
    pub closed spec fn bid_view(&self) -> Map<i32, BeatmapCache> {
        Map::new(
            |b: i32| id_slots_of(self.by_bid).contains_key(b),
            |b: i32| self.entries@[id_slots_of(self.by_bid)[b] as int],
        )
    }

    /// How many inserts were taken.
    pub closed spec fn size(&self) -> nat {
        self.entries@.len()
    }

    pub closed spec fn spec_max(&self) -> int {
        self.max as int
    }

    /// What `get` returns: the entry under the hash when there is one, else the
    /// entry under the id.
    pub open spec fn lookup(&self, hash: Option<Seq<char>>, bid: Option<i32>) -> Option<BeatmapCache> {
        if hash is Some && self.hash_view().contains_key(hash->0) {
            Some(self.hash_view()[hash->0])
        } else if bid is Some && self.bid_view().contains_key(bid->0) {
            Some(self.bid_view()[bid->0])
        } else {
            None
        }
    }

    /// Whether an insert is taken: the counter is within the bound and a key is given.
    pub open spec fn accepts(&self, hash: Option<Seq<char>>, bid: Option<i32>) -> bool {
        self.size() <= self.spec_max() && (hash is Some || bid is Some)
    }

    /// An empty cache that takes inserts while its counter is at most `max`.
    pub fn new(max: i32) -> (r: Self)
        ensures
            r.wf(),
            r.size() == 0,
            r.spec_max() == max,
            r.hash_view().dom().is_empty(),
            r.bid_view().dom().is_empty(),
    {
        let r = BeatmapCaches { by_hash: HashSlots::new(), by_bid: IdSlots::new(), entries: Vec::new(), max };
        assert(r.hash_view().dom() =~= Set::empty());
        assert(r.bid_view().dom() =~= Set::empty());
        r
    }

    /// How many inserts were taken.
    pub fn len(&self) -> (r: usize)
        ensures
            r == self.size(),
    {
        self.entries.len()
    }

    /// The entry under `hash` if present, else the one under `bid`.
    pub fn get(&self, hash: Option<&String>, bid: Option<i32>) -> (r: Option<&BeatmapCache>)
        requires
            self.wf(),
        ensures
            r matches Some(e) ==> self.lookup(opt_text_ref(hash), bid) == Some(*e),
            r is None ==> self.lookup(opt_text_ref(hash), bid) is None,
    {
        if let Some(h) = hash {
            if let Some(i) = self.by_hash.get(h.as_str()) {
                return Some(&self.entries[i]);
            }
        }
        if let Some(b) = bid {
            if let Some(i) = self.by_bid.get(b) {
                return Some(&self.entries[i]);
            }
        }
        None
    }

    /// Records `beatmap` (or a negative entry) created at `now` under whichever keys
    /// are given, as one entry. Dropped when the counter already exceeds the bound.
    pub fn insert_at(&mut self, hash: Option<String>, bid: Option<i32>, beatmap: Option<Beatmap>, now: i64)
        requires
            old(self).wf(),
        ensures
            final(self).wf(),
            final(self).spec_max() == old(self).spec_max(),
            inserted(*old(self), *final(self), opt_text(hash), bid, beatmap, now as int),
    {
        if self.max < 0 || self.entries.len() > self.max as usize {
            return;
        }
        if hash.is_none() && bid.is_none() {
            return;
        }
        let ghost old_hash = self.hash_view();
        let ghost old_bid = self.bid_view();
        let slot = self.entries.len();
        let ghost hk = opt_text(hash);
        self.entries.push(BeatmapCache { beatmap, create_time: now });
        let ghost e = BeatmapCache { beatmap, create_time: now };
        if let Some(h) = hash {
            self.by_hash.insert(h, slot);
        }
        if let Some(b) = bid {
            self.by_bid.insert(b, slot);
        }
        proof {
            match hk {
                Some(k) => {
                    assert(self.hash_view() =~= old_hash.insert(k, e));
                },
                None => {
                    assert(self.hash_view() =~= old_hash);
                },
            }
            match bid {
                Some(b) => {
                    assert(self.bid_view() =~= old_bid.insert(b, e));
                },
                None => {
                    assert(self.bid_view() =~= old_bid);
                },
            }
        }
    }

    /// `insert_at` stamped with the local clock.
    pub fn insert(&mut self, hash: Option<String>, bid: Option<i32>, beatmap: Option<Beatmap>)
        requires
            old(self).wf(),
        ensures
            final(self).wf(),
            final(self).spec_max() == old(self).spec_max(),
            old(self).accepts(opt_text(hash), bid) ==> {
                &&& final(self).size() == old(self).size() + 1
                &&& hash matches Some(h) ==> final(self).hash_view().contains_key(h@)
                    && final(self).hash_view()[h@].beatmap == beatmap
                &&& bid matches Some(b) ==> final(self).bid_view().contains_key(b)
                    && final(self).bid_view()[b].beatmap == beatmap
            },
            !old(self).accepts(opt_text(hash), bid) ==> *final(self) == *old(self),
    {
        let now = now_seconds();
        self.insert_at(hash, bid, beatmap, now);
    }
}

impl Beatmap {
    /// The cached payload for `beatmap_md5` (or else `bid`) when the entry is fresh
    /// at `now`; `Err` when there is no entry or it is stale.
    pub fn from_cache(beatmap_md5: &String, bid: i32, cache: &BeatmapCaches, expire: i64, now: i64) -> (r: Result<
        Option<Beatmap>,
        (),
    >)
        requires
            cache.wf(),
        ensures
            ({
                let hit = cache.lookup(Some(beatmap_md5@), Some(bid));
                match hit {
                    Some(e) => if entry_stale_at(e, now as int, expire as int) {
                        r is Err
                    } else {
                        r == Ok::<Option<Beatmap>, ()>(e.beatmap)
                    },
                    None => r is Err,
                }
            }),
    {
        match cache.get(Some(beatmap_md5), Some(bid)) {
            Some(c) => {
                if c.is_expired_at(now, expire) {
                    Err(())
                } else {
                    match &c.beatmap {
                        Some(b) => Ok(Some(b.duplicate())),
                        None => Ok(None),
                    }
                }
            },
            None => Err(()),
        }
    }
}

/// After an insert of a record under a hash and an id, looking up either key alone
/// finds that record, and the counter grew by exactly one.
pub proof fn lemma_insert_then_get(
    c: BeatmapCaches,
    d: BeatmapCaches,
    h: Seq<char>,
    b: i32,
    m: Beatmap,
    now: int,
)
    requires
        c.accepts(Some(h), Some(b)),
        inserted(c, d, Some(h), Some(b), Some(m), now),
    ensures
        d.lookup(Some(h), None) matches Some(e) && e.beatmap == Some(m),
        d.lookup(None, Some(b)) matches Some(e) && e.beatmap == Some(m),
        d.size() == c.size() + 1,
{
}

/// After a negative insert under a hash and an id, a lookup by that hash (with or
/// without an id) finds an entry without a record, and that entry is not stale
/// at any time up to `ttl` seconds after the insert.
pub proof fn lemma_negative_entry(
    c: BeatmapCaches,
    d: BeatmapCaches,
    h: Seq<char>,
    b: i32,
    other: Option<i32>,
    now: int,
    ttl: int,
)
    requires
        c.accepts(Some(h), Some(b)),
        inserted(c, d, Some(h), Some(b), None, now),
        i64::MIN <= now <= i64::MAX,
    ensures
        d.lookup(Some(h), other) matches Some(e) && e.beatmap is None,
        forall|t: int|
            t - now <= ttl ==> !entry_stale_at(#[trigger] d.lookup(Some(h), other)->0, t, ttl),
{
}

} // verus!
