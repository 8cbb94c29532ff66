use pp_server::beatmap::{Beatmap, BeatmapFromApi, GetBeatmapMethod, LookupKey};
use pp_server::constants::RankStatusInServer;

fn api_record(rank_status: i32) -> BeatmapFromApi {
    BeatmapFromApi {
        id: 2848898,
        set_id: 1378720,
        md5: "ccb1f31b5eeaf26d40f8c905293efc03".to_string(),
        title: "Bridge".to_string(),
        artist: "Tanchiky".to_string(),
        diff_name: "Extension".to_string(),
        mapper: "NyarkoO".to_string(),
        mapper_id: 1,
        rank_status,
        mode: 0,
        length: 120,
        length_drain: 110,
        max_combo: Some(900),
        last_update: None,
    }
}

#[test]
fn rank_status_mapping_is_total() {
    let cases = [
        (-3, RankStatusInServer::Unknown),
        (-2, RankStatusInServer::Pending),
        (-1, RankStatusInServer::Pending),
        (0, RankStatusInServer::Pending),
        (1, RankStatusInServer::Ranked),
        (2, RankStatusInServer::Approved),
        (3, RankStatusInServer::Qualified),
        (4, RankStatusInServer::Loved),
        (5, RankStatusInServer::Unknown),
        (i32::MIN, RankStatusInServer::Unknown),
        (i32::MAX, RankStatusInServer::Unknown),
    ];
    for (i, want) in cases {
        assert_eq!(RankStatusInServer::from_api_rank_status(i), want, "{}", i);
    }
    assert_eq!(RankStatusInServer::NotSubmitted.server_code(), Some(-1));
    assert_eq!(RankStatusInServer::Loved.server_code(), Some(5));
    assert_eq!(RankStatusInServer::Unknown.server_code(), None);
}

#[test]
fn from_api_sets_fixed_status() {
    let b = Beatmap::from_api(api_record(1), 1000);
    assert!(b.fixed_rank_status);
    assert_eq!(b.server, "ppy");
    assert_eq!(b.update_time, 1000);
    assert_eq!(b.id, 2848898);
    assert!(Beatmap::from_api(api_record(2), 0).fixed_rank_status);
    assert!(!Beatmap::from_api(api_record(3), 0).fixed_rank_status);
    assert!(!Beatmap::from_api(api_record(0), 0).fixed_rank_status);
}

#[test]
fn rank_predicates() {
    let b = Beatmap::from_api(api_record(3), 0);
    assert!(b.is_qualified());
    assert!(b.is_ranked());
    assert!(!b.is_unranked());
    assert_eq!(b.rank_status_in_server(), RankStatusInServer::Qualified);
    let loved = Beatmap::from_api(api_record(4), 0);
    assert!(!loved.is_ranked());
    let pending = Beatmap::from_api(api_record(0), 0);
    assert!(pending.is_unranked());
}

#[test]
fn file_name_is_synthesised() {
    let mut r = api_record(1);
    r.title = "Bri:dge?".to_string();
    let b = Beatmap::from_api(r, 0);
    assert_eq!(b.file_name(), "Tanchiky - Bridge (NyarkoO) [Extension].osu");
}

#[test]
fn fixed_record_never_expires() {
    let b = Beatmap::from_api(api_record(1), 0);
    assert!(!b.is_expired_at(i64::MAX, 0));
    assert!(!b.is_expired_at(i64::MAX, i64::MIN));
    assert!(!b.is_expired(-1));
}

#[test]
fn unfixed_record_expires_after_ttl() {
    let b = Beatmap::from_api(api_record(0), 100);
    assert!(!b.is_expired_at(200, 100));
    assert!(b.is_expired_at(201, 100));
    assert!(b.is_expired_at(i64::MAX, 0));
}

#[test]
fn lookup_methods() {
    assert_eq!(GetBeatmapMethod::Md5.db_column_name(), "md5");
    assert_eq!(GetBeatmapMethod::Bid.db_column_name(), "id");
    assert_eq!(GetBeatmapMethod::Sid.db_column_name(), "set_id");
    assert_eq!(GetBeatmapMethod::Md5.query_param(), "h");
    assert_eq!(GetBeatmapMethod::Bid.query_param(), "b");
    assert_eq!(GetBeatmapMethod::Sid.query_param(), "s");
    let k = LookupKey::Bid(2848898);
    assert_eq!(k.method(), GetBeatmapMethod::Bid);
    assert_eq!(k.value_text(), "2848898");
}

#[test]
fn query_fields_list() {
    let f = Beatmap::get_query_fields();
    assert!(f.starts_with("\"server\",\"id\",\"set_id\",\"md5\""));
    assert!(f.ends_with("\"last_update\",\"update_time\""));
    assert_eq!(f.split(',').count(), 18);
}
