use vstd::prelude::*;
use crate::api_pool::ApiError;
use crate::beatmap::{copy_text, raw_file_name, stale_at, Beatmap, LookupKey};
use crate::metadata_cache::{entry_stale_at, inserted, BeatmapCaches};
use crate::text::{file_name_safe, opt_text, safe_file_name};

verus! {

/// What a caller asks the resolver for.
#[derive(Debug)]
pub struct ResolveQuery {
    pub md5: Option<String>,
    pub bid: Option<i32>,
    pub sid: Option<i32>,
    pub file_name: Option<String>,
    pub try_from_cache: bool,
}

/// Where a resolution stands: which source it waits on, or that it is done.
#[derive(Debug, Clone, Copy, PartialEq, Eq, Structural)]
pub enum ResolveStage {
    StoreByMd5,
    StoreByBid,
    ApiByMd5,
    ApiByBid,
    ApiBySid,
    Finished,
}

/// What the resolver wants done next.
#[derive(Debug)]
pub enum ResolveAction {
    /// Look the key up in the durable metadata store; answer with `on_store_answer`.
    QueryStore(LookupKey),
    /// Ask the upstream API by the key; answer with `on_api_answer`.
    QueryApi(LookupKey),
    /// The resolution is over with this result.
    Finish(Option<Beatmap>),
}

/// One resolution in progress.
#[derive(Debug)]
pub struct Resolution {
    pub query: ResolveQuery,
    pub stage: ResolveStage,
    pub backup: Option<Beatmap>,
    pub ttl: i64,
    pub use_store: bool,
}

pub open spec fn stage_at(i: int) -> ResolveStage {
    if i == 0 {
        ResolveStage::StoreByMd5
    } else if i == 1 {
        ResolveStage::StoreByBid
    } else if i == 2 {
        ResolveStage::ApiByMd5
    } else if i == 3 {
        ResolveStage::ApiByBid
    } else if i == 4 {
        ResolveStage::ApiBySid
    } else {
        ResolveStage::Finished
    }
}

pub open spec fn stage_index(s: ResolveStage) -> int {
    match s {
        ResolveStage::StoreByMd5 => 0,
        ResolveStage::StoreByBid => 1,
        ResolveStage::ApiByMd5 => 2,
        ResolveStage::ApiByBid => 3,
        ResolveStage::ApiBySid => 4,
        ResolveStage::Finished => 5,
    }
}

/// Whether a stage has what it needs: the store only when caches are tried and a
/// store is in use, each source only with its key, the set id only with a file name.
pub open spec fn applies(q: ResolveQuery, use_store: bool, s: ResolveStage) -> bool {
    match s {
        ResolveStage::StoreByMd5 => q.try_from_cache && use_store && q.md5 is Some,
        ResolveStage::StoreByBid => q.try_from_cache && use_store && q.bid is Some,
        ResolveStage::ApiByMd5 => q.md5 is Some,
        ResolveStage::ApiByBid => q.bid is Some,
        ResolveStage::ApiBySid => q.sid is Some && q.file_name is Some,
        ResolveStage::Finished => true,
    }
}

/// The first stage from position `i` on that applies.
pub open spec fn first_stage(q: ResolveQuery, use_store: bool, i: int) -> ResolveStage
    decreases 5 - i,
{
    if i >= 5 {
        ResolveStage::Finished
    } else if applies(q, use_store, stage_at(i)) {
        stage_at(i)
    } else {
        first_stage(q, use_store, i + 1)
    }
}

/// The action a stage asks for.
pub open spec fn action_of(q: ResolveQuery, s: ResolveStage, backup: Option<Beatmap>) -> ResolveAction {
    match s {
        ResolveStage::StoreByMd5 => ResolveAction::QueryStore(LookupKey::Md5(q.md5->0)),
        ResolveStage::StoreByBid => ResolveAction::QueryStore(LookupKey::Bid(q.bid->0)),
        ResolveStage::ApiByMd5 => ResolveAction::QueryApi(LookupKey::Md5(q.md5->0)),
        ResolveStage::ApiByBid => ResolveAction::QueryApi(LookupKey::Bid(q.bid->0)),
        ResolveStage::ApiBySid => ResolveAction::QueryApi(LookupKey::Sid(q.sid->0)),
        ResolveStage::Finished => ResolveAction::Finish(backup),
    }
}

/// The keys an upstream record is cached under: the asked hash for a hash lookup,
/// the record's own hash for an id lookup, and the asked hash if any for a set
/// lookup; always the record's id.
pub open spec fn api_keys(q: ResolveQuery, s: ResolveStage, b: Beatmap) -> (Option<Seq<char>>, Option<i32>) {
    match s {
        ResolveStage::ApiByMd5 => (opt_text(q.md5), Some(b.id)),
        ResolveStage::ApiByBid => (Some(b.md5@), Some(b.id)),
        _ => (
            Some(
                match q.md5 {
                    Some(h) => h@,
                    None => b.md5@,
                },
            ),
            Some(b.id),
        ),
    }
}

/// Whether a stage waits on the store.
pub open spec fn is_store_stage(s: ResolveStage) -> bool {
    s == ResolveStage::StoreByMd5 || s == ResolveStage::StoreByBid
}

/// Whether a stage waits on the upstream API.
pub open spec fn is_api_stage(s: ResolveStage) -> bool {
    s == ResolveStage::ApiByMd5 || s == ResolveStage::ApiByBid || s == ResolveStage::ApiBySid
}

fn copy_beatmap(b: &Option<Beatmap>) -> (r: Option<Beatmap>)
    ensures
        r == *b,
{
    match b {
        Some(m) => Some(m.duplicate()),
        None => None,
    }
}

fn stage_of(i: u8) -> (r: ResolveStage)
    ensures
        r == stage_at(i as int),
{
    match i {
        0 => ResolveStage::StoreByMd5,
        1 => ResolveStage::StoreByBid,
        2 => ResolveStage::ApiByMd5,
        3 => ResolveStage::ApiByBid,
        4 => ResolveStage::ApiBySid,
        _ => ResolveStage::Finished,
    }
}

fn index_of(s: ResolveStage) -> (r: u8)
    ensures
        r as int == stage_index(s),
{
    match s {
        ResolveStage::StoreByMd5 => 0,
        ResolveStage::StoreByBid => 1,
        ResolveStage::ApiByMd5 => 2,
        ResolveStage::ApiByBid => 3,
        ResolveStage::ApiBySid => 4,
        ResolveStage::Finished => 5,
    }
}

impl Resolution {
    fn stage_applies(&self, s: ResolveStage) -> (r: bool)
        ensures
            r == applies(self.query, self.use_store, s),
    {
        let q = &self.query;
        match s {
            ResolveStage::StoreByMd5 => q.try_from_cache && self.use_store && q.md5.is_some(),
            ResolveStage::StoreByBid => q.try_from_cache && self.use_store && q.bid.is_some(),
            ResolveStage::ApiByMd5 => q.md5.is_some(),
            ResolveStage::ApiByBid => q.bid.is_some(),
            ResolveStage::ApiBySid => q.sid.is_some() && q.file_name.is_some(),
            ResolveStage::Finished => true,
        }
    }

    fn first_from(&self, i: u8) -> (r: ResolveStage)
        ensures
            r == first_stage(self.query, self.use_store, i as int),
        decreases 5 - i,
    {
        if i >= 5 {
            return ResolveStage::Finished;
        }
        let s = stage_of(i);
        if self.stage_applies(s) {
            s
        } else {
            self.first_from(i + 1)
        }
    }

    /// The action of the current stage.
    fn current_action(&self) -> (r: ResolveAction)
        requires
            applies(self.query, self.use_store, self.stage),
        ensures
            r == action_of(self.query, self.stage, self.backup),
    {
        match self.stage {
            ResolveStage::StoreByMd5 => ResolveAction::QueryStore(
                LookupKey::Md5(self.query.md5.as_ref().unwrap().clone()),
            ),
            ResolveStage::StoreByBid => ResolveAction::QueryStore(LookupKey::Bid(self.query.bid.unwrap())),
            ResolveStage::ApiByMd5 => ResolveAction::QueryApi(
                LookupKey::Md5(self.query.md5.as_ref().unwrap().clone()),
            ),
            ResolveStage::ApiByBid => ResolveAction::QueryApi(LookupKey::Bid(self.query.bid.unwrap())),
            ResolveStage::ApiBySid => ResolveAction::QueryApi(LookupKey::Sid(self.query.sid.unwrap())),
            ResolveStage::Finished => ResolveAction::Finish(copy_beatmap(&self.backup)),
        }
    }

    /// Moves to the first applicable stage after the current one and returns its action.
    fn advance(&mut self) -> (r: ResolveAction)
        requires
            stage_index(old(self).stage) < 5,
        ensures
            final(self).query == old(self).query,
            final(self).use_store == old(self).use_store,
            final(self).ttl == old(self).ttl,
            final(self).backup == old(self).backup,
            final(self).stage == first_stage(old(self).query, old(self).use_store, stage_index(old(self).stage) + 1),
            r == action_of(final(self).query, final(self).stage, final(self).backup),
    {
        let i = index_of(self.stage);
        self.stage = self.first_from(i + 1);
        proof {
            lemma_first_stage_applies(self.query, self.use_store, i + 1);
        }
        self.current_action()
    }

    /// Starts resolving `query`. When caches are tried and the metadata cache holds
    /// a fresh entry for the keys, that entry's payload is the result at once (no
    /// store or upstream query); a stale entry's payload is kept as the fallback.
    pub fn start(query: ResolveQuery, ttl: i64, use_store: bool, cache: &BeatmapCaches, now: i64) -> (r: (
        Resolution,
        ResolveAction,
    ))
        requires
            cache.wf(),
        ensures
            r.0.query == query,
            r.0.ttl == ttl,
            r.0.use_store == use_store,
            ({
                let hit = cache.lookup(opt_text(query.md5), query.bid);
                if query.try_from_cache && hit is Some && !entry_stale_at(hit->0, now as int, ttl as int) {
                    &&& r.0.stage == ResolveStage::Finished
                    &&& r.1 == ResolveAction::Finish(hit->0.beatmap)
                } else {
                    &&& r.0.stage == first_stage(query, use_store, 0)
                    &&& r.0.backup == (if query.try_from_cache && hit is Some {
                        hit->0.beatmap
                    } else {
                        None
                    })
                    &&& r.1 == action_of(query, r.0.stage, r.0.backup)
                }
            }),
    {
        let mut backup: Option<Beatmap> = None;
        if query.try_from_cache {
            match cache.get(query.md5.as_ref(), query.bid) {
                Some(c) => {
                    if !c.is_expired_at(now, ttl) {
                        let found = copy_beatmap(&c.beatmap);
                        let res = Resolution { query, stage: ResolveStage::Finished, backup: None, ttl, use_store };
                        return (res, ResolveAction::Finish(found));
                    }
                    backup = copy_beatmap(&c.beatmap);
                },
                None => {},
            }
        }
        let mut res = Resolution { query, stage: ResolveStage::Finished, backup, ttl, use_store };
        res.stage = res.first_from(0);
        proof {
            lemma_first_stage_applies(res.query, res.use_store, 0);
        }
        let a = res.current_action();
        (res, a)
    }

    /// Takes the store's answer for the current stage. A fresh record is written
    /// through to the metadata cache and is the result; a stale one becomes the
    /// fallback; either way without a fresh record the next stage follows.
    pub fn on_store_answer(&mut self, answer: Option<Beatmap>, cache: &mut BeatmapCaches, now: i64) -> (r:
        ResolveAction)
        requires
            is_store_stage(old(self).stage),
            old(cache).wf(),
        ensures
            final(cache).wf(),
            final(self).query == old(self).query,
            final(self).use_store == old(self).use_store,
            final(self).ttl == old(self).ttl,
            match answer {
                Some(b) => if !stale_at(b.fixed_rank_status, b.update_time as int, now as int, old(self).ttl as int) {
                    &&& inserted(*old(cache), *final(cache), opt_text(old(self).query.md5), old(self).query.bid, Some(b), now as int)
                    &&& final(self).stage == ResolveStage::Finished
                    &&& r == ResolveAction::Finish(Some(b))
                } else {
                    &&& *final(cache) == *old(cache)
                    &&& final(self).backup == Some(b)
                    &&& final(self).stage == first_stage(old(self).query, old(self).use_store, stage_index(old(self).stage) + 1)
                    &&& r == action_of(final(self).query, final(self).stage, final(self).backup)
                },
                None => {
                    &&& *final(cache) == *old(cache)
                    &&& final(self).backup == old(self).backup
                    &&& final(self).stage == first_stage(old(self).query, old(self).use_store, stage_index(old(self).stage) + 1)
                    &&& r == action_of(final(self).query, final(self).stage, final(self).backup)
                },
            },
    {
        match answer {
            Some(b) => {
                if !b.is_expired_at(now, self.ttl) {
                    let keep = b.duplicate();
                    cache.insert_at(copy_text(&self.query.md5), self.query.bid, Some(b), now);
                    self.stage = ResolveStage::Finished;
                    return ResolveAction::Finish(Some(keep));
                }
                self.backup = Some(b);
                self.advance()
            },
            None => self.advance(),
        }
    }

    /// Takes the upstream answer for the current stage. A record is written through
    /// to the metadata cache and is the result. A transport error leaves the cache
    /// alone; any other error records a negative entry under the asked keys. Then the
    /// next stage follows.
    pub fn on_api_answer(&mut self, answer: Result<Beatmap, ApiError>, cache: &mut BeatmapCaches, now: i64) -> (r:
        ResolveAction)
        requires
            is_api_stage(old(self).stage),
            old(cache).wf(),
        ensures
            final(cache).wf(),
            final(self).query == old(self).query,
            final(self).use_store == old(self).use_store,
            final(self).ttl == old(self).ttl,
            match answer {
                Ok(b) => {
                    &&& inserted(*old(cache), *final(cache), api_keys(old(self).query, old(self).stage, b).0,
                        api_keys(old(self).query, old(self).stage, b).1, Some(b), now as int)
                    &&& final(self).stage == ResolveStage::Finished
                    &&& r == ResolveAction::Finish(Some(b))
                },
                Err(e) => {
                    &&& (e == ApiError::RequestError ==> *final(cache) == *old(cache))
                    &&& (e != ApiError::RequestError ==> inserted(*old(cache), *final(cache),
                        opt_text(old(self).query.md5), old(self).query.bid, None, now as int))
                    &&& final(self).backup == old(self).backup
                    &&& final(self).stage == first_stage(old(self).query, old(self).use_store, stage_index(old(self).stage) + 1)
                    &&& r == action_of(final(self).query, final(self).stage, final(self).backup)
                },
            },
    {
        match answer {
            Ok(b) => {
                let keep = b.duplicate();
                let hash = match self.stage {
                    ResolveStage::ApiByMd5 => copy_text(&self.query.md5),
                    ResolveStage::ApiByBid => Some(b.md5.clone()),
                    _ => match &self.query.md5 {
                        Some(h) => Some(h.clone()),
                        None => Some(b.md5.clone()),
                    },
                };
                let id = b.id;
                cache.insert_at(hash, Some(id), Some(b), now);
                self.stage = ResolveStage::Finished;
                ResolveAction::Finish(Some(keep))
            },
            Err(e) => {
                if e != ApiError::RequestError {
                    cache.insert_at(copy_text(&self.query.md5), self.query.bid, None, now);
                }
                self.advance()
            },
        }
    }
}

proof fn lemma_first_stage_applies(q: ResolveQuery, use_store: bool, i: int)
    requires
        0 <= i <= 5,
    ensures
        applies(q, use_store, first_stage(q, use_store, i)),
        stage_index(first_stage(q, use_store, i)) >= i,
    decreases 5 - i,
{
    if i < 5 && !applies(q, use_store, stage_at(i)) {
        lemma_first_stage_applies(q, use_store, i + 1);
    }
}

/// Whether a record's synthesised file name is the wanted one, both sanitised.
pub open spec fn record_matches(b: Beatmap, wanted: Seq<char>) -> bool {
    file_name_safe(raw_file_name(b.artist@, b.title@, b.mapper@, b.diff_name@)) == file_name_safe(wanted)
}

/// Chooses the record an upstream list answers with: the first record whose file
/// name matches when a file name is given, else the first record. `NotExists`
/// when there is none.
pub fn pick_api_record(records: &Vec<Beatmap>, file_name: Option<&String>) -> (r: Result<Beatmap, ApiError>)
    ensures
        file_name is None ==> (if records@.len() == 0 {
            r == Err::<Beatmap, ApiError>(ApiError::NotExists)
        } else {
            r == Ok::<Beatmap, ApiError>(records@[0])
        }),
        file_name matches Some(f) ==> (match r {
            Ok(b) => exists|i: int|
                0 <= i < records@.len() && records@[i] == b && record_matches(records@[i], f@) && forall|j: int|
                    0 <= j < i ==> !record_matches(#[trigger] records@[j], f@),
            Err(e) => e == ApiError::NotExists && forall|i: int|
                0 <= i < records@.len() ==> !record_matches(#[trigger] records@[i], f@),
        }),
{
    match file_name {
        None => {
            if records.len() == 0 {
                Err(ApiError::NotExists)
            } else {
                Ok(records[0].duplicate())
            }
        },
        Some(f) => {
            let wanted = safe_file_name(f.clone());
            let mut i: usize = 0;
            while i < records.len()
                invariant
                    file_name == Some(f),
                    i <= records@.len(),
                    wanted@ == file_name_safe(f@),
                    forall|j: int| 0 <= j < i ==> !record_matches(#[trigger] records@[j], f@),
                decreases records@.len() - i,
            {
                let name = records[i].file_name();
                if name == wanted {
                    return Ok(records[i].duplicate());
                }
                i = i + 1;
            }
            Err(ApiError::NotExists)
        },
    }
}

} // verus!
