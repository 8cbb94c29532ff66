use vstd::prelude::*;
use crate::beatmap::Beatmap;
use crate::metadata_cache::{BeatmapCache, BeatmapCaches};
use crate::parsed_cache::ParsedCache;
use crate::settings::Settings;
use crate::text::{opt_text, opt_text_ref};

verus! {

/// The process-wide caches: parsed beatmaps and beatmap metadata.
pub struct Caches<B> {
    pub pp_beatmap_cache: ParsedCache<B>,
    pub beatmap_cache: BeatmapCaches,
}

impl<B> Caches<B> {
    pub open spec fn wf(&self) -> bool {
        self.pp_beatmap_cache.wf() && self.beatmap_cache.wf()
    }

    /// Empty caches bounded as the settings say.
    pub fn new(config: &Settings) -> (r: Self)
        ensures
            r.wf(),
            r.pp_beatmap_cache@.dom().is_empty(),
            r.beatmap_cache.size() == 0,
            r.beatmap_cache.spec_max() == config.beatmap_cache_max,
            config.beatmap_cache_max >= 0 ==> r.pp_beatmap_cache.spec_max() == config.beatmap_cache_max,
    {
        Caches {
            pp_beatmap_cache: ParsedCache::new(config.parsed_cache_max()),
            beatmap_cache: BeatmapCaches::new(config.beatmap_cache_max),
        }
    }

    /// Caches a parsed beatmap under `md5`, now.
    pub fn cache_pp_beatmap(&mut self, md5: String, handle: B)
        requires
            old(self).wf(),
        ensures
            final(self).wf(),
            final(self).beatmap_cache == old(self).beatmap_cache,
            old(self).pp_beatmap_cache@.contains_key(md5@) || old(self).pp_beatmap_cache.count()
                < old(self).pp_beatmap_cache.spec_max() ==> final(self).pp_beatmap_cache@.contains_key(md5@)
                && final(self).pp_beatmap_cache@[md5@].0 == handle,
    {
        self.pp_beatmap_cache.insert(md5, handle);
    }

    /// Caches beatmap metadata (or a negative entry), now.
    pub fn cache_beatmap(&mut self, md5: Option<String>, bid: Option<i32>, beatmap: Option<Beatmap>)
        requires
            old(self).wf(),
        ensures
            final(self).wf(),
            old(self).beatmap_cache.accepts(opt_text(md5), bid) ==> {
                &&& md5 matches Some(h) ==> final(self).beatmap_cache.hash_view().contains_key(h@)
                    && final(self).beatmap_cache.hash_view()[h@].beatmap == beatmap
                &&& bid matches Some(b) ==> final(self).beatmap_cache.bid_view().contains_key(b)
                    && final(self).beatmap_cache.bid_view()[b].beatmap == beatmap
            },
    {
        self.beatmap_cache.insert(md5, bid, beatmap);
    }

    /// The metadata entry under `md5` if present, else under `bid`.
    pub fn get_beatmap(&self, md5: Option<&String>, bid: Option<i32>) -> (r: Option<&BeatmapCache>)
        requires
            self.wf(),
        ensures
            r matches Some(e) ==> self.beatmap_cache.lookup(opt_text_ref(md5), bid) == Some(*e),
            r is None ==> self.beatmap_cache.lookup(opt_text_ref(md5), bid) is None,
    {
        self.beatmap_cache.get(md5, bid)
    }
}

} // verus!
