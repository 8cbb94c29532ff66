use pp_server::api_pool::ApiError;
use pp_server::beatmap::{Beatmap, BeatmapFromApi, LookupKey};
use pp_server::metadata_cache::BeatmapCaches;
use pp_server::resolver::{pick_api_record, Resolution, ResolveAction, ResolveQuery, ResolveStage};

fn record(id: i32, md5: &str, rank_status: i32, now: i64) -> Beatmap {
    Beatmap::from_api(
        BeatmapFromApi {
            id,
            set_id: 1378720,
            md5: md5.to_string(),
            title: "Bridge".to_string(),
            artist: "Tanchiky".to_string(),
            diff_name: "Extension".to_string(),
            mapper: "NyarkoO".to_string(),
            mapper_id: 2,
            rank_status,
            mode: 0,
            length: 1,
            length_drain: 1,
            max_combo: None,
            last_update: None,
        },
        now,
    )
}

fn query(md5: Option<&str>, bid: Option<i32>) -> ResolveQuery {
    ResolveQuery { md5: md5.map(|s| s.to_string()), bid, sid: None, file_name: None, try_from_cache: true }
}

const H: &str = "ccb1f31b5eeaf26d40f8c905293efc03";
const Z: &str = "ffffffffffffffffffffffffffffffff";

#[test]
fn fresh_cache_hit_makes_no_upstream_call() {
    let mut cache = BeatmapCaches::new(10);
    cache.insert_at(Some(H.to_string()), Some(5), Some(record(5, H, 0, 1000)), 1000);
    let (res, action) = Resolution::start(query(Some(H), None), 3600, false, &cache, 1100);
    assert_eq!(res.stage, ResolveStage::Finished);
    match action {
        ResolveAction::Finish(Some(b)) => assert_eq!(b.id, 5),
        other => panic!("unexpected {:?}", other),
    }
}

#[test]
fn cold_lookup_asks_upstream_and_writes_through() {
    let mut cache = BeatmapCaches::new(10);
    let (mut res, action) = Resolution::start(query(None, Some(2848898)), 3600, false, &cache, 0);
    assert!(matches!(action, ResolveAction::QueryApi(LookupKey::Bid(2848898))));
    let a = res.on_api_answer(Ok(record(2848898, H, 0, 0)), &mut cache, 0);
    assert!(matches!(a, ResolveAction::Finish(Some(_))));
    assert!(cache.get(Some(&H.to_string()), None).is_some());
    assert!(cache.get(None, Some(2848898)).is_some());
}

#[test]
fn store_is_asked_before_upstream() {
    let mut cache = BeatmapCaches::new(10);
    let (mut res, action) = Resolution::start(query(Some(H), Some(5)), 3600, true, &cache, 0);
    assert!(matches!(action, ResolveAction::QueryStore(LookupKey::Md5(_))));
    let a = res.on_store_answer(None, &mut cache, 0);
    assert!(matches!(a, ResolveAction::QueryStore(LookupKey::Bid(5))));
    let a = res.on_store_answer(Some(record(5, H, 0, 0)), &mut cache, 10);
    assert!(matches!(a, ResolveAction::Finish(Some(_))));
    assert!(cache.get(Some(&H.to_string()), None).is_some());
}

#[test]
fn stale_record_is_returned_when_upstream_unreachable() {
    let mut cache = BeatmapCaches::new(10);
    cache.insert_at(Some(H.to_string()), None, Some(record(5, H, 0, 0)), 0);
    let (mut res, action) = Resolution::start(query(Some(H), None), 60, false, &cache, 1000);
    assert!(matches!(action, ResolveAction::QueryApi(LookupKey::Md5(_))));
    let before = cache.len();
    let a = res.on_api_answer(Err(ApiError::RequestError), &mut cache, 1000);
    match a {
        ResolveAction::Finish(Some(b)) => assert_eq!(b.id, 5),
        other => panic!("unexpected {:?}", other),
    }
    assert_eq!(cache.len(), before);
    assert!(cache.get(Some(&H.to_string()), None).unwrap().beatmap.is_some());
}

#[test]
fn negative_cache_suppresses_repeat_queries() {
    let mut cache = BeatmapCaches::new(10);
    let (mut res, action) = Resolution::start(query(Some(Z), None), 3600, false, &cache, 0);
    assert!(matches!(action, ResolveAction::QueryApi(_)));
    let a = res.on_api_answer(Err(ApiError::NotExists), &mut cache, 0);
    assert!(matches!(a, ResolveAction::Finish(None)));
    for t in [10, 20] {
        let (_, again) = Resolution::start(query(Some(Z), None), 3600, false, &cache, t);
        assert!(matches!(again, ResolveAction::Finish(None)));
    }
}

#[test]
fn bid_lookup_caches_under_upstream_hash() {
    let mut cache = BeatmapCaches::new(10);
    let (mut res, _) = Resolution::start(query(Some(Z), Some(2848898)), 3600, false, &cache, 0);
    let a = res.on_api_answer(Err(ApiError::ParseError), &mut cache, 0);
    assert!(matches!(a, ResolveAction::QueryApi(LookupKey::Bid(2848898))));
    let a = res.on_api_answer(Ok(record(2848898, H, 0, 0)), &mut cache, 0);
    assert!(matches!(a, ResolveAction::Finish(Some(_))));
    assert_eq!(cache.get(Some(&H.to_string()), None).unwrap().beatmap.as_ref().unwrap().md5, H);
    assert!(cache.get(None, Some(2848898)).unwrap().beatmap.is_some());
}

#[test]
fn set_lookup_picks_by_file_name() {
    let mut other = record(1, Z, 0, 0);
    other.diff_name = "Hard".to_string();
    let records = vec![other, record(2, H, 0, 0)];
    let want = "Tanchiky - Bridge (NyarkoO) [Extension].osu".to_string();
    assert_eq!(pick_api_record(&records, Some(&want)).unwrap().id, 2);
    let none = "nothing.osu".to_string();
    assert_eq!(pick_api_record(&records, Some(&none)).unwrap_err(), ApiError::NotExists);
    assert_eq!(pick_api_record(&records, None).unwrap().id, 1);
    assert_eq!(pick_api_record(&vec![], None).unwrap_err(), ApiError::NotExists);
}

#[test]
fn set_stage_needs_file_name() {
    let cache = BeatmapCaches::new(10);
    let q = ResolveQuery { md5: None, bid: None, sid: Some(1378720), file_name: None, try_from_cache: true };
    let (_, a) = Resolution::start(q, 60, false, &cache, 0);
    assert!(matches!(a, ResolveAction::Finish(None)));
    let q = ResolveQuery { md5: None, bid: None, sid: Some(1378720), file_name: Some("x.osu".to_string()), try_from_cache: false };
    let (_, a) = Resolution::start(q, 60, false, &cache, 0);
    assert!(matches!(a, ResolveAction::QueryApi(LookupKey::Sid(1378720))));
}
