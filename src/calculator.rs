use vstd::prelude::*;
use crate::clock::now_seconds;
use crate::metadata_cache::{entry_stale_at, BeatmapCaches};
use crate::parsed_cache::ParsedCache;
use crate::text::{append_signed, decimal_text, input_safe, opt_text, safe_string};

verus! {

/// Why a local beatmap could not be had.
#[derive(Debug, Clone, Copy, PartialEq, Eq, Structural)]
pub enum GetBeatmapError {
    FileNotFound,
    ParseError,
}

impl GetBeatmapError {
    pub open spec fn message(self) -> Seq<char> {
        match self {
            GetBeatmapError::FileNotFound => "cannot find .osu file"@,
            GetBeatmapError::ParseError => "cannot parse .osu file"@,
        }
    }

    /// The message a client sees.
    pub fn error_message(&self) -> (r: &'static str)
        ensures
            r@ == self.message(),
    {
        match self {
            Self::FileNotFound => "cannot find .osu file",
            Self::ParseError => "cannot parse .osu file",
        }
    }

    /// The status a client sees: -1 for a missing file, -2 for a file that does not parse.
    pub fn error_status(&self) -> (r: i32)
        ensures
            *self == GetBeatmapError::FileNotFound ==> r == -1,
            *self == GetBeatmapError::ParseError ==> r == -2,
    {
        match self {
            Self::FileNotFound => -1,
            Self::ParseError => -2,
        }
    }
}

/// Which per-mode calculator a request uses.
#[derive(Debug, Clone, Copy, PartialEq, Eq, Structural)]
pub enum CalcMode {
    Osu,
    Taiko,
    Fruits,
    Mania,
    Any,
}

/// Mode 0 to 3 picks its calculator; any other mode, or none, the generic one.
pub open spec fn calc_mode_of(mode: Option<u8>) -> CalcMode {
    match mode {
        Some(0) => CalcMode::Osu,
        Some(1) => CalcMode::Taiko,
        Some(2) => CalcMode::Fruits,
        Some(3) => CalcMode::Mania,
        _ => CalcMode::Any,
    }
}

/// The calculator for a requested mode.
pub fn calc_mode(mode: Option<u8>) -> (r: CalcMode)
    ensures
        r == calc_mode_of(mode),
{
    match mode {
        Some(0) => CalcMode::Osu,
        Some(1) => CalcMode::Taiko,
        Some(2) => CalcMode::Fruits,
        Some(3) => CalcMode::Mania,
        _ => CalcMode::Any,
    }
}

/// A calculation needs at least one of a hash, a beatmap id or a set id.
pub fn has_beatmap_key(md5: Option<&String>, bid: Option<i32>, sid: Option<i32>) -> (r: bool)
    ensures
        r == (md5 is Some || bid is Some || sid is Some),
{
    md5.is_some() || bid.is_some() || sid.is_some()
}

/// A caller's hash, sanitised; `None` unless 32 characters remain.
pub fn normalize_md5(md5: String) -> (r: Option<String>)
    ensures
        input_safe(md5@).len() == 32 ==> (r matches Some(h) && h@ == input_safe(md5@)),
        input_safe(md5@).len() != 32 ==> r is None,
{
    let h = safe_string(md5);
    if h.as_str().unicode_len() == 32 {
        Some(h)
    } else {
        None
    }
}

/// The keys a calculation looks a beatmap up by: when the metadata cache holds a
/// fresh record for the asked keys, that record's hash and id; otherwise the
/// asked keys.
pub fn beatmap_keys(
    cache: &BeatmapCaches,
    md5: Option<String>,
    bid: Option<i32>,
    ttl: i64,
    now: i64,
) -> (r: (Option<String>, Option<i32>))
    requires
        cache.wf(),
    ensures
        ({
            let hit = cache.lookup(opt_text(md5), bid);
            if hit is Some && !entry_stale_at(hit->0, now as int, ttl as int) && hit->0.beatmap is Some {
                opt_text(r.0) == Some(hit->0.beatmap->0.md5@) && r.1 == Some(hit->0.beatmap->0.id)
            } else {
                opt_text(r.0) == opt_text(md5) && r.1 == bid
            }
        }),
{
    let found = match cache.get(md5.as_ref(), bid) {
        Some(c) => {
            if !c.is_expired_at(now, ttl) {
                match &c.beatmap {
                    Some(b) => Some((b.md5.clone(), b.id)),
                    None => None,
                }
            } else {
                None
            }
        },
        None => None,
    };
    match found {
        Some((h, id)) => (Some(h), Some(id)),
        None => (md5, bid),
    }
}

/// The cache key `bid_<id>` under which a downloaded beatmap is also kept.
pub fn bid_cache_key(bid: i32) -> (r: String)
    ensures
        r@ == seq!['b', 'i', 'd', '_'] + decimal_text(bid as int),
{
    proof {
        reveal_strlit("bid_");
    }
    let mut s = String::from_str("bid_");
    append_signed(&mut s, bid as i64);
    s
}

/// The path `<dir>/<md5>.osu` of a beatmap file.
pub fn osu_file_path(dir: &str, md5: &str) -> (r: String)
    ensures
        r@ == dir@ + seq!['/'] + md5@ + seq!['.', 'o', 's', 'u'],
{
    proof {
        reveal_strlit("/");
        reveal_strlit(".osu");
    }
    let mut s = String::from_str(dir);
    s.append("/");
    s.append(md5);
    s.append(".osu");
    s
}

/// Where a local beatmap comes from.
#[derive(Debug, Clone, Copy, PartialEq, Eq, Structural)]
pub enum LocalSource {
    /// Cached under the hash.
    CachedByHash,
    /// Not cached: read and parse `<dir>/<md5>.osu`, then cache it.
    ReadFile,
    /// Cached under `bid_<id>`.
    CachedByBid,
    /// Nothing to go on.
    Missing,
}

/// Plans a local lookup: with a hash, the cache or else the file; without one, the
/// cache under `bid_<id>`.
pub fn local_source<B>(cache: &ParsedCache<B>, md5: Option<&String>, bid: Option<i32>) -> (r: LocalSource)
    requires
        cache.wf(),
    ensures
        md5 matches Some(h) ==> r == (if cache@.contains_key(h@) {
            LocalSource::CachedByHash
        } else {
            LocalSource::ReadFile
        }),
        md5 is None ==> r == (match bid {
            Some(b) => if cache@.contains_key(seq!['b', 'i', 'd', '_'] + decimal_text(b as int)) {
                LocalSource::CachedByBid
            } else {
                LocalSource::Missing
            },
            None => LocalSource::Missing,
        }),
{
    match md5 {
        Some(h) => if cache.contains(h.as_str()) {
            LocalSource::CachedByHash
        } else {
            LocalSource::ReadFile
        },
        None => match bid {
            Some(b) => {
                let k = bid_cache_key(b);
                if cache.contains(k.as_str()) {
                    LocalSource::CachedByBid
                } else {
                    LocalSource::Missing
                }
            },
            None => LocalSource::Missing,
        },
    }
}

/// Caches a downloaded beatmap under `bid_<id>` and under its hash, at `now`, and
/// says whether its hash is the one the caller asked for (true when none was asked).
pub fn accept_download<B: Clone>(
    cache: &mut ParsedCache<B>,
    request_md5: Option<&String>,
    bid: i32,
    md5: &String,
    handle: B,
    now: i64,
) -> (r: bool)
    requires
        old(cache).wf(),
    ensures
        final(cache).wf(),
        final(cache).spec_max() == old(cache).spec_max(),
        r == (match request_md5 {
            Some(h) => h@ == md5@,
            None => true,
        }),
        final(cache)@.contains_key(md5@) ==> final(cache)@[md5@] == (handle, now),
        old(cache).count() + 2 <= old(cache).spec_max() ==> final(cache)@.contains_key(md5@)
            && final(cache)@.contains_key(seq!['b', 'i', 'd', '_'] + decimal_text(bid as int)),
        forall|k: Seq<char>|
            k != md5@ && k != seq!['b', 'i', 'd', '_'] + decimal_text(bid as int) ==> (
            #[trigger] final(cache)@.contains_key(k) == old(cache)@.contains_key(k)),
{
    let key = bid_cache_key(bid);
    cache.insert_at(key, handle.clone(), now);
    cache.insert_at(md5.clone(), handle, now);
    match request_md5 {
        Some(h) => *h == *md5,
        None => true,
    }
}

/// `accept_download` stamped with the local clock.
pub fn accept_download_now<B: Clone>(
    cache: &mut ParsedCache<B>,
    request_md5: Option<&String>,
    bid: i32,
    md5: &String,
    handle: B,
) -> (r: bool)
    requires
        old(cache).wf(),
    ensures
        final(cache).wf(),
        r == (match request_md5 {
            Some(h) => h@ == md5@,
            None => true,
        }),
        final(cache)@.contains_key(md5@) ==> final(cache)@[md5@].0 == handle,
        old(cache).count() + 2 <= old(cache).spec_max() ==> final(cache)@.contains_key(md5@)
            && final(cache)@.contains_key(seq!['b', 'i', 'd', '_'] + decimal_text(bid as int)),
{
    let now = now_seconds();
    accept_download(cache, request_md5, bid, md5, handle, now)
}

} // verus!
