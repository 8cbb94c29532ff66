use pp_server::beatmap::{Beatmap, BeatmapFromApi};
use pp_server::metadata_cache::BeatmapCaches;
use pp_server::parsed_cache::ParsedCache;

fn record(id: i32, md5: &str, rank_status: i32, now: i64) -> Beatmap {
    Beatmap::from_api(
        BeatmapFromApi {
            id,
            set_id: 1,
            md5: md5.to_string(),
            title: "t".to_string(),
            artist: "a".to_string(),
            diff_name: "d".to_string(),
            mapper: "m".to_string(),
            mapper_id: 2,
            rank_status,
            mode: 0,
            length: 1,
            length_drain: 1,
            max_combo: None,
            last_update: None,
        },
        now,
    )
}

const H: &str = "ccb1f31b5eeaf26d40f8c905293efc03";

#[test]
fn insert_then_get_by_either_key() {
    let mut c = BeatmapCaches::new(10);
    c.insert_at(Some(H.to_string()), Some(2848898), Some(record(2848898, H, 0, 5)), 5);
    assert_eq!(c.len(), 1);
    let by_hash = c.get(Some(&H.to_string()), None).unwrap();
    assert_eq!(by_hash.beatmap.as_ref().unwrap().id, 2848898);
    assert_eq!(by_hash.create_time, 5);
    let by_bid = c.get(None, Some(2848898)).unwrap();
    assert_eq!(by_bid.beatmap.as_ref().unwrap().md5, H);
    assert!(c.get(None, Some(1)).is_none());
    assert!(c.get(Some(&"x".to_string()), None).is_none());
}

#[test]
fn hash_miss_falls_back_to_bid() {
    let mut c = BeatmapCaches::new(10);
    c.insert_at(None, Some(7), None, 0);
    assert!(c.get(Some(&H.to_string()), Some(7)).is_some());
}

#[test]
fn negative_entry_is_fresh_within_ttl() {
    let mut c = BeatmapCaches::new(10);
    c.insert_at(Some(H.to_string()), Some(9), None, 100);
    let e = c.get(Some(&H.to_string()), Some(123)).unwrap();
    assert!(e.beatmap.is_none());
    assert!(!e.is_expired_at(100, 60));
    assert!(!e.is_expired_at(160, 60));
    assert!(e.is_expired_at(161, 60));
}

#[test]
fn fixed_entry_never_stale() {
    let mut c = BeatmapCaches::new(10);
    c.insert_at(Some(H.to_string()), None, Some(record(1, H, 2, 0)), 0);
    let e = c.get(Some(&H.to_string()), None).unwrap();
    assert!(!e.is_expired_at(i64::MAX, 0));
}

#[test]
fn insert_without_keys_or_over_bound_is_dropped() {
    let mut c = BeatmapCaches::new(1);
    c.insert_at(None, None, None, 0);
    assert_eq!(c.len(), 0);
    c.insert_at(None, Some(1), None, 0);
    c.insert_at(None, Some(2), None, 0);
    assert_eq!(c.len(), 2);
    c.insert_at(None, Some(3), None, 0);
    assert_eq!(c.len(), 2);
    assert!(c.get(None, Some(3)).is_none());
}

#[test]
fn parsed_cache_bound_and_replace() {
    let mut p: ParsedCache<u32> = ParsedCache::new(2);
    p.insert_at("a".to_string(), 1, 0);
    p.insert_at("b".to_string(), 2, 0);
    p.insert_at("c".to_string(), 3, 0);
    assert_eq!(p.len(), 2);
    assert!(!p.contains("c"));
    p.insert_at("a".to_string(), 10, 0);
    assert_eq!(p.get("a"), Some(&10));
    assert_eq!(p.len(), 2);
}

#[test]
fn parsed_cache_remove_keeps_others() {
    let mut p: ParsedCache<u32> = ParsedCache::new(5);
    for (i, k) in ["a", "b", "c", "d"].iter().enumerate() {
        p.insert_at(k.to_string(), i as u32, 0);
    }
    p.remove("a");
    p.remove("zz");
    assert_eq!(p.len(), 3);
    assert_eq!(p.get("a"), None);
    assert_eq!(p.get("b"), Some(&1));
    assert_eq!(p.get("c"), Some(&2));
    assert_eq!(p.get("d"), Some(&3));
    p.clear();
    assert_eq!(p.len(), 0);
}

#[test]
fn reaper_drops_only_expired() {
    let mut p: ParsedCache<u32> = ParsedCache::new(5);
    p.insert_at("old".to_string(), 1, 0);
    p.insert_at("edge".to_string(), 2, 40);
    p.insert_at("new".to_string(), 3, 90);
    let mut keys = p.expired_keys(100, 60);
    keys.sort();
    assert_eq!(keys, vec!["old".to_string()]);
    p.reap(100, 60);
    assert_eq!(p.get("old"), None);
    assert_eq!(p.get("edge"), Some(&2));
    assert_eq!(p.get("new"), Some(&3));
    p.reap(200, 60);
    assert_eq!(p.len(), 0);
}
