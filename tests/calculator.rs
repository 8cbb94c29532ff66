use pp_server::calculator::{accept_download, bid_cache_key, calc_mode, has_beatmap_key, local_source, normalize_md5, osu_file_path, CalcMode, GetBeatmapError, LocalSource};
use pp_server::files::{osu_file_stem, preload_step, preload_warning, rehash_target, PreloadOutcome};
use pp_server::parsed_cache::ParsedCache;

const H: &str = "ccb1f31b5eeaf26d40f8c905293efc03";

#[test]
fn error_codes() {
    assert_eq!(GetBeatmapError::FileNotFound.error_status(), -1);
    assert_eq!(GetBeatmapError::ParseError.error_status(), -2);
    assert_eq!(GetBeatmapError::FileNotFound.error_message(), "cannot find .osu file");
    assert_eq!(GetBeatmapError::ParseError.error_message(), "cannot parse .osu file");
}

#[test]
fn request_needs_a_key() {
    assert!(!has_beatmap_key(None, None, None));
    assert!(has_beatmap_key(None, None, Some(1)));
    assert!(has_beatmap_key(Some(&H.to_string()), None, None));
}

#[test]
fn md5_is_sanitised_and_checked() {
    assert_eq!(normalize_md5(H.to_string()), Some(H.to_string()));
    assert_eq!(normalize_md5(format!("{}!", H)), Some(H.to_string()));
    assert_eq!(normalize_md5("abc".to_string()), None);
    assert_eq!(normalize_md5(format!("{}0", H)), None);
}

#[test]
fn modes_pick_calculators() {
    assert_eq!(calc_mode(Some(0)), CalcMode::Osu);
    assert_eq!(calc_mode(Some(1)), CalcMode::Taiko);
    assert_eq!(calc_mode(Some(2)), CalcMode::Fruits);
    assert_eq!(calc_mode(Some(3)), CalcMode::Mania);
    assert_eq!(calc_mode(Some(4)), CalcMode::Any);
    assert_eq!(calc_mode(None), CalcMode::Any);
}

#[test]
fn keys_and_paths() {
    assert_eq!(bid_cache_key(2848898), "bid_2848898");
    assert_eq!(osu_file_path("dir", H), format!("dir/{}.osu", H));
    assert_eq!(osu_file_stem(&format!("{}.osu", H)), Some(H.to_string()));
    assert_eq!(osu_file_stem("a.txt"), None);
    assert_eq!(osu_file_stem(".os"), None);
    assert_eq!(rehash_target("d", &b"abc".to_vec()), "d/900150983cd24fb0d6963f7d28e17f72.osu");
}

#[test]
fn cold_calc_by_hash_reads_file() {
    let mut cache: ParsedCache<u32> = ParsedCache::new(10);
    assert_eq!(local_source(&cache, Some(&H.to_string()), None), LocalSource::ReadFile);
    cache.insert_at(H.to_string(), 1, 0);
    assert_eq!(local_source(&cache, Some(&H.to_string()), None), LocalSource::CachedByHash);
    assert!(cache.contains(H));
}

#[test]
fn cold_calc_by_bid_caches_both_keys() {
    let mut cache: ParsedCache<u32> = ParsedCache::new(10);
    assert_eq!(local_source(&cache, None, Some(2848898)), LocalSource::Missing);
    let ok = accept_download(&mut cache, None, 2848898, &H.to_string(), 5, 0);
    assert!(ok);
    assert_eq!(cache.get(H), Some(&5));
    assert!(cache.contains("bid_2848898"));
    assert_eq!(local_source(&cache, None, Some(2848898)), LocalSource::CachedByBid);
}

#[test]
fn hash_mismatch_after_download() {
    let a = "a".repeat(32);
    let b = "b".repeat(32);
    let mut cache: ParsedCache<u32> = ParsedCache::new(10);
    let ok = accept_download(&mut cache, Some(&a), 2848898, &b, 5, 0);
    assert!(!ok);
    assert!(!cache.contains(&a));
    assert!(cache.contains(&b));
}

#[test]
fn preload_counting() {
    assert_eq!(preload_step(0, 2, PreloadOutcome::Loaded), (1, false));
    assert_eq!(preload_step(1, 2, PreloadOutcome::Unreadable), (2, true));
    assert_eq!(preload_step(1, 2, PreloadOutcome::ParseFailed), (1, false));
    assert!(preload_warning(9001, 9001));
    assert!(!preload_warning(9000, 10000));
    assert!(!preload_warning(10000, 9000));
}
