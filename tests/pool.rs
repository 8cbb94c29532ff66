use pp_server::api_pool::{beatmap_file_url, downloaded_beatmap, get_json_result, ApiError, OsuApi};
use pp_server::digest::content_hash;

fn keys(v: &[&str]) -> Vec<String> {
    v.iter().map(|s| s.to_string()).collect()
}

fn pool_keys(p: &OsuApi) -> Vec<String> {
    p.api_clients.iter().map(|c| c.key.clone()).collect()
}

#[test]
fn reload_keeps_survivors_and_counters() {
    let mut p = OsuApi::new(&keys(&["a", "b", "c"]));
    p.record_success(1, 10);
    p.record_failure(1, 20);
    p.record_failure(2, 30);
    p.reload_clients(&keys(&["c", "d", "b"]));
    assert_eq!(pool_keys(&p), keys(&["b", "c", "d"]));
    assert_eq!((p.api_clients[0].success_count, p.api_clients[0].failed_count), (1, 1));
    assert_eq!((p.api_clients[1].success_count, p.api_clients[1].failed_count), (0, 1));
    assert_eq!((p.api_clients[2].success_count, p.api_clients[2].failed_count), (0, 0));
    let mut got = pool_keys(&p);
    got.sort();
    let mut want = keys(&["c", "d", "b"]);
    want.sort();
    assert_eq!(got, want);
}

#[test]
fn reload_to_empty() {
    let mut p = OsuApi::new(&keys(&["a"]));
    p.reload_clients(&vec![]);
    assert!(p.api_clients.is_empty());
    assert_eq!(p.attempt_target(0), None);
}

#[test]
fn attempts_rotate_for_three_passes() {
    let p = OsuApi::new(&keys(&["a", "b"]));
    let targets: Vec<Option<usize>> = (0..7).map(|i| p.attempt_target(i)).collect();
    assert_eq!(targets, vec![Some(0), Some(1), Some(0), Some(1), Some(0), Some(1), None]);
    assert_eq!(p.attempt_target(u64::MAX), None);
}

#[test]
fn counters_accumulate() {
    let mut p = OsuApi::new(&keys(&["a"]));
    p.record_success(0, 12);
    p.record_success(0, 13);
    p.record_failure(0, 99);
    assert_eq!(p.success_count, 2);
    assert_eq!(p.failed_count, 1);
    assert_eq!(p.delay, 99);
    assert_eq!(p.api_clients[0].success_count, 2);
    assert_eq!(p.api_clients[0].failed_count, 1);
}

#[test]
fn json_outcomes() {
    assert_eq!(get_json_result::<u8>(None), Err(ApiError::NotExists));
    assert_eq!(get_json_result::<u8>(Some(None)), Err(ApiError::ParseError));
    assert_eq!(get_json_result(Some(Some(3u8))), Ok(3));
}

#[test]
fn content_hash_is_md5_hex() {
    assert_eq!(content_hash(&vec![]), "d41d8cd98f00b204e9800998ecf8427e");
    assert_eq!(content_hash(&b"abc".to_vec()), "900150983cd24fb0d6963f7d28e17f72");
}

#[test]
fn download_hash_is_md5_of_bytes() {
    let bytes = b"osu file format v14\n".to_vec();
    let d = downloaded_beatmap(bytes.clone(), Some(7u8)).ok().unwrap();
    assert_eq!(d.md5, content_hash(&bytes));
    assert_eq!(d.md5.len(), 32);
    assert_eq!(d.bytes, bytes);
    assert_eq!(d.beatmap, 7);
    assert!(matches!(downloaded_beatmap::<u8>(bytes, None), Err(ApiError::ParseError)));
}

#[test]
fn file_url() {
    assert_eq!(beatmap_file_url(2848898), "https://old.ppy.sh/osu/2848898");
}
