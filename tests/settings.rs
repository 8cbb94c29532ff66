use pp_server::beatmap::{select_by_column_sql, Beatmap, BeatmapFromApi, QUERY_FIELDS};
use pp_server::caches::Caches;
use pp_server::calculator::beatmap_keys;
use pp_server::metadata_cache::BeatmapCaches;
use pp_server::settings::{AutoPPRecalculate, DirCheck, Logger, LoggerMode, Prometheus, Server, Settings};
use pp_server::text::{from_str_bool, strip_port};

fn settings(dir: &str, rehash: bool, max: i32, timeout: u64, durable_ttl: Option<i64>) -> Settings {
    Settings {
        env: "development".to_string(),
        debug: false,
        osu_api_keys: vec![],
        osu_files_dir: dir.to_string(),
        recalculate_osu_file_md5: rehash,
        preload_osu_files: false,
        beatmap_cache_max: max,
        beatmap_cache_timeout: timeout,
        timeout_beatmap_cache: durable_ttl,
        auto_clean_cache: true,
        auto_clean_interval: 60,
        auto_pp_recalculate: AutoPPRecalculate { interval: 60, max_retry: 3 },
        server: Server { host: "127.0.0.1".to_string(), port: "8088".to_string() },
        logger: Logger {
            level: "info".to_string(),
            mode: LoggerMode { debug: String::new(), error: String::new(), warn: String::new(), info: String::new() },
            actix_log_format: String::new(),
            exclude_endpoints: vec![],
            exclude_endpoints_regex: vec![],
        },
        prom: Prometheus { namespace: "pp".to_string(), endpoint: "/metrics".to_string(), exclude_endpoint_log: true },
    }
}

fn record(id: i32, md5: &str, now: i64) -> Beatmap {
    Beatmap::from_api(
        BeatmapFromApi {
            id,
            set_id: 1,
            md5: md5.to_string(),
            title: "t".to_string(),
            artist: "a".to_string(),
            diff_name: "d".to_string(),
            mapper: "m".to_string(),
            mapper_id: 2,
            rank_status: 0,
            mode: 0,
            length: 1,
            length_drain: 1,
            max_combo: None,
            last_update: None,
        },
        now,
    )
}

const H: &str = "ccb1f31b5eeaf26d40f8c905293efc03";

#[test]
fn settings_derivations() {
    let s = settings("", false, 5, 3600, None);
    assert_eq!(s.checking_osu_dir(), DirCheck::Missing);
    assert_eq!(settings("d", true, 5, 1, None).checking_osu_dir(), DirCheck::Rehash);
    assert_eq!(settings("d", false, 5, 1, None).checking_osu_dir(), DirCheck::Keep);
    assert_eq!(s.metadata_ttl(), 3600);
    assert_eq!(settings("d", false, 5, 3600, Some(60)).metadata_ttl(), 60);
    assert_eq!(settings("d", false, 5, u64::MAX, None).metadata_ttl(), i64::MAX);
    assert_eq!(settings("d", false, 5, u64::MAX, None).reap_timeout(), i64::MAX);
    assert_eq!(settings("d", false, -1, 1, None).parsed_cache_max(), 0);
    assert_eq!(s.parsed_cache_max(), 5);
    assert_eq!(s.server.addr(), "127.0.0.1:8088");
}

#[test]
fn caches_bundle() {
    let s = settings("d", false, 5, 3600, None);
    let mut c: Caches<u8> = Caches::new(&s);
    c.cache_pp_beatmap(H.to_string(), 3);
    assert_eq!(c.pp_beatmap_cache.get(H), Some(&3));
    c.cache_beatmap(Some(H.to_string()), Some(9), Some(record(9, H, 0)));
    assert_eq!(c.get_beatmap(None, Some(9)).unwrap().beatmap.as_ref().unwrap().md5, H);
    assert!(c.get_beatmap(Some(&"x".to_string()), None).is_none());
}

#[test]
fn from_cache_needs_fresh_entry() {
    let mut c = BeatmapCaches::new(5);
    assert!(Beatmap::from_cache(&H.to_string(), 9, &c, 60, 0).is_err());
    c.insert_at(Some(H.to_string()), Some(9), Some(record(9, H, 0)), 0);
    assert_eq!(Beatmap::from_cache(&H.to_string(), 9, &c, 60, 30).unwrap().unwrap().id, 9);
    assert!(Beatmap::from_cache(&H.to_string(), 9, &c, 60, 61).is_err());
    c.insert_at(None, Some(10), None, 0);
    assert!(Beatmap::from_cache(&"y".to_string(), 10, &c, 60, 30).unwrap().is_none());
}

#[test]
fn fresh_metadata_refreshes_keys() {
    let mut c = BeatmapCaches::new(5);
    c.insert_at(None, Some(2848898), Some(record(2848898, H, 0)), 0);
    let (m, b) = beatmap_keys(&c, None, Some(2848898), 60, 10);
    assert_eq!(m, Some(H.to_string()));
    assert_eq!(b, Some(2848898));
    let (m, b) = beatmap_keys(&c, None, Some(2848898), 60, 100);
    assert_eq!((m, b), (None, Some(2848898)));
    let (m, b) = beatmap_keys(&c, Some("q".to_string()), None, 60, 10);
    assert_eq!((m, b), (Some("q".to_string()), None));
}

#[test]
fn select_statement() {
    assert_eq!(
        select_by_column_sql("beatmaps", "maps", "md5", "\"id\""),
        "SELECT \"id\" FROM \"beatmaps\".\"maps\" WHERE \"md5\" = $1;"
    );
    assert!(QUERY_FIELDS.contains("\"fixed_rank_status\""));
}

#[test]
fn flags_and_hosts() {
    assert!(from_str_bool("1"));
    assert!(!from_str_bool("true"));
    assert!(!from_str_bool(""));
    assert_eq!(strip_port("10.0.0.1:8080"), "10.0.0.1");
    assert_eq!(strip_port("10.0.0.1"), "10.0.0.1");
    assert_eq!(strip_port(""), "");
}
