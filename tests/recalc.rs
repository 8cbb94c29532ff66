use pp_server::recalc::{entry_outcome, parse_queue_key, plan_entry, retry_value, score_update_sql, update_task_for, EntryPlan, QueueAction, RecalcTick, UpdateUserTask};

const H: &str = "ccb1f31b5eeaf26d40f8c905293efc03";

#[test]
fn worker_happy_path() {
    let key = parse_queue_key("calc:scores:42:7").unwrap();
    assert_eq!(key.table, "scores");
    assert_eq!(key.score_id, 42);
    assert_eq!(key.player_id, 7);
    let value = format!("0:md5={}&mode=0&acc=100", H);
    let job = match plan_entry(&value, 3) {
        EntryPlan::Process(v) => v,
        other => panic!("unexpected {:?}", other),
    };
    assert_eq!(job.try_count, 0);
    assert_eq!(job.params, format!("md5={}&mode=0&acc=100", H));
    assert_eq!(score_update_sql(&key.table), "UPDATE \"game_scores\".\"scores\" SET pp_v2 = $1, pp_v2_raw = $2, stars = $3 WHERE \"id\" = $4");
    assert!(matches!(entry_outcome(&job, true, true), QueueAction::Delete));
    let mut tick = RecalcTick::new();
    tick.record_update(update_task_for(key.player_id, Some(0)));
    tick.record_update(update_task_for(key.player_id, None));
    assert_eq!(tick.update_user_tasks, vec![UpdateUserTask { player_id: 7, mode: 0, recalc: false }]);
}

#[test]
fn worker_retry_rewrites_value() {
    let job = match plan_entry("2:md5=abc&mode=1", 5) {
        EntryPlan::Process(v) => v,
        other => panic!("unexpected {:?}", other),
    };
    match entry_outcome(&job, false, false) {
        QueueAction::Rewrite(v) => assert_eq!(v, "3:md5=abc&mode=1"),
        other => panic!("unexpected {:?}", other),
    }
    match entry_outcome(&job, true, false) {
        QueueAction::Rewrite(v) => assert_eq!(v, "3:md5=abc&mode=1"),
        other => panic!("unexpected {:?}", other),
    }
    assert_eq!(retry_value(-1, "x"), "0:x");
}

#[test]
fn worker_skips_over_limit() {
    assert!(matches!(plan_entry("3:md5=abc", 3), EntryPlan::Skip));
    assert!(matches!(plan_entry("9:md5=abc", 3), EntryPlan::Skip));
    assert!(matches!(plan_entry("2:md5=abc", 3), EntryPlan::Process(_)));
}

#[test]
fn worker_discards_malformed() {
    assert!(parse_queue_key("calc:scores:42").is_none());
    assert!(parse_queue_key("calc:scores:x:7").is_none());
    assert!(parse_queue_key("calc:scores:42:99999999999").is_none());
    assert!(parse_queue_key("calx:scores:42:7").is_none());
    assert!(parse_queue_key("calc:scores:42:7:1").is_none());
    assert!(matches!(plan_entry("md5=abc", 3), EntryPlan::Discard));
    assert!(matches!(plan_entry("x:md5=abc", 3), EntryPlan::Discard));
    assert!(matches!(plan_entry("1:a:b", 3), EntryPlan::Discard));
}

#[test]
fn tick_dedups_per_player_and_mode() {
    let mut tick = RecalcTick::new();
    tick.record_update(update_task_for(7, Some(0)));
    tick.record_update(update_task_for(7, Some(1)));
    tick.record_update(update_task_for(8, Some(0)));
    tick.record_update(update_task_for(7, Some(0)));
    assert_eq!(tick.update_user_tasks.len(), 3);
    tick.count_process();
    tick.count_failed();
    assert_eq!((tick.process, tick.failed), (1, 1));
}
