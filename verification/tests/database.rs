use faber::clock::make_clock;
use faber::database::{Clock, DataRow, MessageRow, Store};
use faber::dispatch::{dispatch, Answer};
use faber::store::RunInfo;

fn clock_at(t: chrono::DateTime<chrono::Utc>) -> Clock {
    make_clock(t.timestamp(), t.timestamp_subsec_nanos()).unwrap()
}

fn clock() -> Clock {
    clock_at(chrono::Utc::now())
}

/// A time that is always the same: 2026-01-02 03:04:05.
fn fixed(seconds: i64) -> Clock {
    clock_at(chrono::DateTime::from_timestamp(1_767_323_045 + seconds, 0).unwrap())
}

fn run(task_type: &str, cron: Option<&str>, max_runs: Option<i64>) -> RunInfo {
    RunInfo {
        task_type: task_type.to_string(),
        cron_expression: cron.map(|c| c.to_string()),
        max_runs,
    }
}

fn message(role: &str, content: &str) -> String {
    let mut map = serde_json::Map::new();
    map.insert("role".to_string(), serde_json::Value::from(role));
    if !content.is_empty() {
        map.insert("content".to_string(), serde_json::Value::from(content));
    }
    serde_json::Value::Object(map).to_string()
}

fn content(json: &str) -> String {
    let value: serde_json::Value = serde_json::from_str(json).unwrap();
    value["content"].as_str().unwrap().to_string()
}

#[test]
fn a_clock_has_the_time_in_all_forms() {
    let c = make_clock(1_700_000_000, 123_456_789).unwrap();
    assert_eq!(c.now, "2023-11-14 22:13:20");
    assert_eq!(c.cutoff, "2023-11-14 22:13:10");
    assert_eq!(c.stamp, "2023-11-14T22:13:20.123456789+00:00");
    assert_eq!(c.millis, 1_700_000_000_123);
    assert_eq!(make_clock(0, 0).unwrap().cutoff, "1969-12-31 23:59:50");
    assert_eq!(make_clock(253_402_300_799, 0).unwrap().now, "9999-12-31 23:59:59");
    assert!(make_clock(253_402_300_800, 0).is_none());
    assert!(make_clock(-1, 0).is_none());
    assert!(make_clock(0, 1_000_000_000).is_none());
}

#[test]
fn ownership_expires_after_ten_seconds() {
    let mut db = Store::new();
    db.create_agent("a", "", &fixed(0)).unwrap();
    assert!(db.claim_agent("a", "mine", &fixed(0)));
    assert!(!db.claim_agent("a", "other", &fixed(10)));
    assert!(db.claim_agent("a", "other", &fixed(11)));
    db.heartbeat_all("other", &fixed(20));
    assert!(!db.claim_agent("a", "mine", &fixed(30)));
    assert!(db.claim_agent("a", "mine", &fixed(31)));
}

#[test]
fn rows_of_agents_that_are_not_there() {
    let mut db = Store::new();
    db.data.push(DataRow {
        agent: "gone".to_string(),
        key: "k".to_string(),
        value: "v".to_string(),
    });
    db.messages.push(MessageRow { agent: "gone".to_string(), json: "{}".to_string() });
    assert_eq!(db.get_agent_data("gone", "k"), Some("v".to_string()));
    assert_eq!(db.agent_message_count("gone"), 1);
    assert!(!db.delete_agent("gone"));
    assert_eq!(db.agent_message_count("gone"), 1);
    db.create_agent("gone", "", &fixed(0)).unwrap();
    assert!(db.delete_agent("gone"));
    assert_eq!(db.agent_message_count("gone"), 0);
    assert_eq!(db.get_agent_data("gone", "k"), None);
}

#[test]
fn test_create_and_get_agent() {
    let mut db = Store::new();
    db.create_agent("alice", "Test agent", &clock()).unwrap();
    let agent = db.get_agent("alice").unwrap();
    assert_eq!(agent.name, "alice");
    assert_eq!(agent.description, "Test agent");
}

#[test]
fn test_create_duplicate_agent_fails() {
    let mut db = Store::new();
    db.create_agent("alice", "first", &clock()).unwrap();
    let result = db.create_agent("alice", "second", &clock());
    assert!(result.is_err());
    assert_eq!(result, Err("Agent 'alice' already exists".to_string()));
    assert_eq!(db.get_agent("alice").unwrap().description, "first");
}

#[test]
fn test_delete_agent() {
    let mut db = Store::new();
    db.create_agent("alice", "", &clock()).unwrap();
    assert!(db.delete_agent("alice"));
    assert!(db.get_agent("alice").is_none());
}

#[test]
fn test_delete_nonexistent_agent() {
    let mut db = Store::new();
    assert!(!db.delete_agent("nobody"));
}

#[test]
fn test_list_agents() {
    let mut db = Store::new();
    db.create_agent("bob", "", &clock()).unwrap();
    db.create_agent("alice", "", &clock()).unwrap();
    let names: Vec<&str> = db.list_agents().iter().map(|a| a.name.as_str()).collect();
    assert_eq!(names, vec!["alice", "bob"]);
}

#[test]
fn test_agent_data_crud() {
    let mut db = Store::new();
    db.create_agent("alice", "", &clock()).unwrap();

    db.set_agent_data("alice", "color", "blue").unwrap();
    assert_eq!(db.get_agent_data("alice", "color"), Some("blue".to_string()));

    db.set_agent_data("alice", "color", "red").unwrap();
    assert_eq!(db.get_agent_data("alice", "color"), Some("red".to_string()));

    assert!(db.delete_agent_data("alice", "color"));
    assert!(db.get_agent_data("alice", "color").is_none());
}

#[test]
fn test_list_agent_data() {
    let mut db = Store::new();
    db.create_agent("alice", "", &clock()).unwrap();
    db.set_agent_data("alice", "b_key", "val_b").unwrap();
    db.set_agent_data("alice", "a_key", "val_a").unwrap();
    let data = db.list_agent_data("alice");
    assert_eq!(data.len(), 2);
    assert_eq!(data[0].key, "a_key");
    assert_eq!(data[1].key, "b_key");
}

#[test]
fn test_agent_data_cascade_on_delete() {
    let mut db = Store::new();
    db.create_agent("alice", "", &clock()).unwrap();
    db.set_agent_data("alice", "k", "v").unwrap();
    db.delete_agent("alice");
    let data = db.list_agent_data("alice");
    assert!(data.is_empty());
}

#[test]
fn test_save_and_load_agent_messages() {
    let mut db = Store::new();
    db.create_agent("alice", "", &clock()).unwrap();
    let msgs = vec![message("user", "hello"), message("assistant", "hi")];
    db.save_agent_messages("alice", &msgs).unwrap();
    let loaded = db.load_agent_messages("alice");
    assert_eq!(loaded.len(), 2);
    assert_eq!(content(&loaded[0]), "hello");
    assert_eq!(content(&loaded[1]), "hi");
}

#[test]
fn test_save_agent_messages_replaces() {
    let mut db = Store::new();
    db.create_agent("alice", "", &clock()).unwrap();
    let msgs1 = vec![message("user", "first")];
    db.save_agent_messages("alice", &msgs1).unwrap();
    let msgs2 = vec![message("user", "second")];
    db.save_agent_messages("alice", &msgs2).unwrap();
    let loaded = db.load_agent_messages("alice");
    assert_eq!(loaded.len(), 1);
    assert_eq!(content(&loaded[0]), "second");
}

#[test]
fn test_append_agent_message() {
    let mut db = Store::new();
    db.create_agent("alice", "", &clock()).unwrap();
    db.append_agent_message("alice", &message("user", "")).unwrap();
    db.append_agent_message("alice", &message("assistant", "")).unwrap();
    assert_eq!(db.agent_message_count("alice"), 2);
}

#[test]
fn test_clear_agent_messages() {
    let mut db = Store::new();
    db.create_agent("alice", "", &clock()).unwrap();
    db.append_agent_message("alice", &message("user", "")).unwrap();
    db.clear_agent_messages("alice");
    assert_eq!(db.agent_message_count("alice"), 0);
}

#[test]
fn test_claim_and_release_agent() {
    let mut db = Store::new();
    db.create_agent("alice", "", &clock()).unwrap();

    assert!(db.claim_agent("alice", "session-1", &clock()));
    let agent = db.get_agent("alice").unwrap();
    assert_eq!(agent.session_id, Some("session-1".to_string()));

    assert!(!db.claim_agent("alice", "session-2", &clock()));

    db.release_agent("alice", "session-1");
    let agent = db.get_agent("alice").unwrap();
    assert!(agent.session_id.is_none());

    assert!(db.claim_agent("alice", "session-2", &clock()));
}

#[test]
fn test_release_all_agents() {
    let mut db = Store::new();
    db.create_agent("alice", "", &clock()).unwrap();
    db.create_agent("bob", "", &clock()).unwrap();
    db.claim_agent("alice", "s1", &clock());
    db.claim_agent("bob", "s1", &clock());
    db.release_all_agents("s1");
    let alice = db.get_agent("alice").unwrap();
    let bob = db.get_agent("bob").unwrap();
    assert!(alice.session_id.is_none());
    assert!(bob.session_id.is_none());
}

#[test]
fn test_send_notification() {
    let mut db = Store::new();
    db.create_agent("alice", "", &clock()).unwrap();
    db.create_agent("bob", "", &clock()).unwrap();
    let id = db.send_notification("alice", "bob", "hello bob", &clock()).unwrap();
    assert!(id > 0);
}

#[test]
fn test_poll_notifications_for_session() {
    let mut db = Store::new();
    db.create_agent("alice", "", &clock()).unwrap();
    db.create_agent("bob", "", &clock()).unwrap();
    db.claim_agent("bob", "s1", &clock());
    db.send_notification("alice", "bob", "msg1", &clock()).unwrap();
    db.send_notification("alice", "bob", "msg2", &clock()).unwrap();

    let notifs = db.poll_notifications_for_session("s1", &clock());
    assert_eq!(notifs.len(), 2);
    assert_eq!(notifs[0].message, "msg1");
    assert_eq!(notifs[1].message, "msg2");

    let notifs2 = db.poll_notifications_for_session("s1", &clock());
    assert!(notifs2.is_empty());
}

#[test]
fn test_create_oneshot_task() {
    let mut db = Store::new();
    let run_at = chrono::Utc::now().to_rfc3339();
    let id = db.create_oneshot_task("task1", "desc", &run_at, "echo hi", None, &clock()).unwrap();
    let task = db.get_task(id).unwrap();
    assert_eq!(task.name, "task1");
    assert_eq!(task.task_type, "oneshot");
    assert!(task.enabled);
}

#[test]
fn test_create_cron_task() {
    let mut db = Store::new();
    let id = db
        .create_cron_task("cron1", "every sec", "* * * * * * *", "echo hi", None, None, &clock())
        .unwrap();
    let task = db.get_task(id).unwrap();
    assert_eq!(task.name, "cron1");
    assert_eq!(task.task_type, "cron");
}

#[test]
fn test_create_cron_task_invalid_expression() {
    let mut db = Store::new();
    let result = db.create_cron_task("bad", "", "not a cron", "", None, None, &clock());
    assert!(result.is_err());
    assert!(result.unwrap_err().starts_with("Invalid cron expression 'not a cron': "));
}

#[test]
fn test_delete_task() {
    let mut db = Store::new();
    let run_at = chrono::Utc::now().to_rfc3339();
    let id = db.create_oneshot_task("t", "", &run_at, "", None, &clock()).unwrap();
    assert!(db.delete_task(id));
    assert!(db.get_task(id).is_none());
}

#[test]
fn test_set_task_enabled() {
    let mut db = Store::new();
    let run_at = chrono::Utc::now().to_rfc3339();
    let id = db.create_oneshot_task("t", "", &run_at, "", None, &clock()).unwrap();
    db.set_task_enabled(id, false);
    let task = db.get_task(id).unwrap();
    assert!(!task.enabled);
}

#[test]
fn test_mark_oneshot_task_executed() {
    let mut db = Store::new();
    let run_at = chrono::Utc::now().to_rfc3339();
    let id = db.create_oneshot_task("t", "", &run_at, "", None, &clock()).unwrap();
    db.mark_task_executed(id, &run("oneshot", None, None), &clock()).unwrap();
    let task = db.get_task(id).unwrap();
    assert!(!task.enabled);
    assert_eq!(task.run_count, 1);
}

#[test]
fn test_mark_cron_task_executed_with_max_runs() {
    let mut db = Store::new();
    let id = db.create_cron_task("c", "", "* * * * * * *", "", None, Some(2), &clock()).unwrap();
    db.mark_task_executed(id, &run("cron", Some("* * * * * * *"), Some(2)), &clock()).unwrap();
    let task = db.get_task(id).unwrap();
    assert!(task.enabled);
    assert_eq!(task.run_count, 1);

    db.mark_task_executed(id, &run("cron", Some("* * * * * * *"), Some(2)), &clock()).unwrap();
    let task = db.get_task(id).unwrap();
    assert!(!task.enabled);
    assert_eq!(task.run_count, 2);
}

#[test]
fn test_mark_cron_task_with_no_expression_disables() {
    let mut db = Store::new();
    let id = db.create_cron_task("c", "", "* * * * * * *", "", None, None, &clock()).unwrap();
    db.mark_task_executed(id, &run("cron", None, None), &clock()).unwrap();
    let task = db.get_task(id).unwrap();
    assert!(!task.enabled);
}

#[test]
fn test_delete_agent_cascades_tasks() {
    let mut db = Store::new();
    db.create_agent("alice", "", &clock()).unwrap();
    db.create_cron_task("t", "", "* * * * * * *", "", Some("alice"), None, &clock()).unwrap();
    db.delete_agent("alice");
    let tasks = db.list_tasks(Some("alice"));
    assert!(tasks.is_empty());
}

#[test]
fn test_get_agent_config() {
    let mut db = Store::new();
    db.create_agent("alice", "", &clock()).unwrap();
    db.set_agent_data("alice", "config:model", "gpt-4").unwrap();
    db.set_agent_data("alice", "config:system_prompt", "be nice").unwrap();
    let config = db.get_agent_config("alice");
    assert_eq!(config.model, Some("gpt-4".to_string()));
    assert_eq!(config.system_prompt, Some("be nice".to_string()));
    assert!(config.endpoint.is_none());
}

#[test]
fn test_ensure_default_agent() {
    let mut db = Store::new();
    db.ensure_default_agent(&clock());
    db.ensure_default_agent(&clock());
    let agent = db.get_agent("default").unwrap();
    assert_eq!(agent.name, "default");
    assert_eq!(db.list_agents().len(), 1);
}

#[test]
fn test_gc_agents_removes_dormant() {
    let mut db = Store::new();
    db.create_agent("dormant", "", &clock()).unwrap();
    let removed = db.gc_agents(&clock());
    assert_eq!(removed, vec!["dormant"]);
    assert!(db.get_agent("dormant").is_none());
}

#[test]
fn test_gc_agents_preserves_default() {
    let mut db = Store::new();
    db.ensure_default_agent(&clock());
    let removed = db.gc_agents(&clock());
    assert!(removed.is_empty());
    assert!(db.get_agent("default").is_some());
}

#[test]
fn test_list_tasks_filter_by_agent() {
    let mut db = Store::new();
    db.create_agent("alice", "", &clock()).unwrap();
    db.create_agent("bob", "", &clock()).unwrap();
    db.create_cron_task("t1", "", "* * * * * * *", "", Some("alice"), None, &clock()).unwrap();
    db.create_cron_task("t2", "", "* * * * * * *", "", Some("bob"), None, &clock()).unwrap();
    let alice_tasks = db.list_tasks(Some("alice"));
    assert_eq!(alice_tasks.len(), 1);
    assert_eq!(alice_tasks[0].name, "t1");
    let all_tasks = db.list_tasks(None);
    assert_eq!(all_tasks.len(), 2);
}

#[test]
fn test_get_pending_tasks() {
    let mut db = Store::new();
    let past = (chrono::Utc::now() - chrono::Duration::seconds(60)).to_rfc3339();
    db.create_oneshot_task("due", "", &past, "echo", None, &clock()).unwrap();
    let future = (chrono::Utc::now() + chrono::Duration::seconds(3600)).to_rfc3339();
    db.create_oneshot_task("later", "", &future, "echo", None, &clock()).unwrap();
    let pending = db.get_pending_tasks(&clock());
    assert_eq!(pending.len(), 1);
    assert_eq!(pending[0].name, "due");
}

#[test]
fn a_claim_lapses_with_its_session() {
    let mut db = Store::new();
    db.create_agent("alice", "", &fixed(0)).unwrap();
    assert_eq!(db.get_agent("alice").unwrap().created_at, "2026-01-02 03:04:05");
    assert!(db.claim_agent("alice", "s1", &fixed(0)));
    assert!(!db.claim_agent("alice", "s2", &fixed(10)));
    db.heartbeat_all("s1", &fixed(10));
    assert!(!db.claim_agent("alice", "s2", &fixed(20)));
    db.release_agent("alice", "s2");
    assert!(!db.claim_agent("alice", "s2", &fixed(20)));
    assert!(db.claim_agent("alice", "s2", &fixed(21)));
    assert!(!db.claim_agent("nobody", "s2", &fixed(21)));
}

#[test]
fn nothing_belongs_to_an_agent_that_is_not_there() {
    let mut db = Store::new();
    let refusal = Err("FOREIGN KEY constraint failed".to_string());
    assert_eq!(db.set_agent_data("nobody", "k", "v"), refusal);
    assert_eq!(db.append_agent_message("nobody", "{}"), refusal);
    assert_eq!(db.save_agent_messages("nobody", &["{}".to_string()]), refusal);
    assert_eq!(db.save_agent_messages("nobody", &[]), Ok(()));
    db.create_agent("alice", "", &fixed(0)).unwrap();
    let sent = db.send_notification("alice", "nobody", "hi", &fixed(0));
    assert_eq!(sent, Err("FOREIGN KEY constraint failed".to_string()));
    let sent = db.send_notification("nobody", "alice", "hi", &fixed(0));
    assert_eq!(sent, Err("FOREIGN KEY constraint failed".to_string()));
    let made = db.create_cron_task("t", "", "* * * * * * *", "", Some("nobody"), None, &fixed(0));
    assert_eq!(made, Err("FOREIGN KEY constraint failed".to_string()));
    let at = "2030-01-01T00:00:00Z";
    let made = db.create_oneshot_task("t", "", at, "", Some("nobody"), &fixed(0));
    assert_eq!(made, Err("FOREIGN KEY constraint failed".to_string()));
}

#[test]
fn numbers_run_out() {
    let mut db = Store::new();
    db.create_agent("alice", "", &fixed(0)).unwrap();
    db.next_note = i64::MAX;
    db.next_task = i64::MAX;
    let full = Err("database or disk is full".to_string());
    assert_eq!(db.send_notification("alice", "alice", "hi", &fixed(0)), full);
    let made = db.create_cron_task("t", "", "* * * * * * *", "", None, None, &fixed(0));
    assert_eq!(made, full);
    let made = db.create_oneshot_task("t", "", "2030-01-01T00:00:00Z", "", None, &fixed(0));
    assert_eq!(made, full);
}

#[test]
fn conversations_are_kept_apart() {
    let mut db = Store::new();
    db.create_agent("a", "", &fixed(0)).unwrap();
    db.create_agent("b", "", &fixed(0)).unwrap();
    db.append_agent_message("a", "1").unwrap();
    db.append_agent_message("b", "2").unwrap();
    db.append_agent_message("a", "3").unwrap();
    assert_eq!(db.load_agent_messages("a"), vec!["1", "3"]);
    db.save_agent_messages("a", &["4".to_string(), "5".to_string()]).unwrap();
    assert_eq!(db.load_agent_messages("a"), vec!["4", "5"]);
    assert_eq!(db.load_agent_messages("b"), vec!["2"]);
    db.append_agent_message("a", "6").unwrap();
    assert_eq!(db.load_agent_messages("a"), vec!["4", "5", "6"]);
    assert_eq!(db.load_agent_messages("c"), Vec::<String>::new());
}

#[test]
fn messages_wait_for_their_session() {
    let mut db = Store::new();
    db.create_agent("alice", "", &fixed(0)).unwrap();
    db.create_agent("bob", "", &fixed(0)).unwrap();
    db.claim_agent("alice", "s1", &fixed(0));
    db.claim_agent("bob", "s2", &fixed(0));
    assert_eq!(db.send_notification("alice", "bob", "one", &fixed(0)), Ok(1));
    assert_eq!(db.send_notification("bob", "alice", "two", &fixed(0)), Ok(2));
    assert_eq!(db.send_notification("alice", "bob", "three", &fixed(0)), Ok(3));
    let first = db.poll_notifications_for_session("s1", &fixed(0));
    assert_eq!(first.len(), 1);
    assert_eq!((first[0].id, first[0].message.as_str()), (2, "two"));
    assert_eq!(first[0].from_agent, "bob");
    assert_eq!(first[0].created_at, "2026-01-02 03:04:05");
    // The session of the other agent is gone by now, and comes back.
    assert!(db.poll_notifications_for_session("s2", &fixed(11)).is_empty());
    db.heartbeat_all("s2", &fixed(12));
    let second = db.poll_notifications_for_session("s2", &fixed(12));
    let ids: Vec<i64> = second.iter().map(|n| n.id).collect();
    assert_eq!(ids, vec![1, 3]);
    assert!(db.poll_notifications_for_session("s2", &fixed(12)).is_empty());
}

#[test]
fn deleting_an_agent_leaves_nothing_of_it() {
    let mut db = Store::new();
    db.create_agent("a", "", &fixed(0)).unwrap();
    db.create_agent("b", "", &fixed(0)).unwrap();
    db.set_agent_data("a", "k", "v").unwrap();
    db.set_agent_data("b", "k", "w").unwrap();
    db.append_agent_message("a", "1").unwrap();
    db.append_agent_message("b", "2").unwrap();
    db.send_notification("a", "b", "x", &fixed(0)).unwrap();
    db.send_notification("b", "a", "y", &fixed(0)).unwrap();
    db.send_notification("b", "b", "z", &fixed(0)).unwrap();
    db.create_oneshot_task("t", "", "2030-01-01T00:00:00Z", "", Some("a"), &fixed(0)).unwrap();
    db.create_oneshot_task("u", "", "2030-01-01T00:00:00Z", "", None, &fixed(0)).unwrap();
    assert!(db.delete_agent("a"));
    assert!(!db.has_agent("a"));
    assert_eq!(db.get_agent_data("a", "k"), None);
    assert_eq!(db.get_agent_data("b", "k"), Some("w".to_string()));
    assert_eq!(db.agent_message_count("a"), 0);
    assert_eq!(db.agent_message_count("b"), 1);
    assert_eq!(db.notes.len(), 1);
    assert_eq!(db.notes[0].message, "z");
    let left = db.list_tasks(None);
    assert_eq!(left.len(), 1);
    assert_eq!(left[0].name, "u");
}

#[test]
fn collecting_agents_keeps_their_tasks() {
    let mut db = Store::new();
    db.ensure_default_agent(&fixed(0));
    for name in ["gone", "live", "stale"] {
        db.create_agent(name, "", &fixed(0)).unwrap();
        db.set_agent_data(name, "k", "v").unwrap();
        db.append_agent_message(name, "1").unwrap();
        db.create_cron_task(name, "", "* * * * * * *", "", Some(name), None, &fixed(0)).unwrap();
    }
    db.send_notification("gone", "live", "x", &fixed(0)).unwrap();
    db.send_notification("live", "live", "y", &fixed(0)).unwrap();
    db.claim_agent("stale", "s1", &fixed(0));
    db.claim_agent("live", "s2", &fixed(15));
    assert_eq!(db.gc_agents(&fixed(20)), vec!["gone", "stale"]);
    let names: Vec<&str> = db.list_agents().iter().map(|a| a.name.as_str()).collect();
    assert_eq!(names, vec!["default", "live"]);
    assert_eq!(db.get_agent_data("gone", "k"), None);
    assert_eq!(db.get_agent_data("live", "k"), Some("v".to_string()));
    assert_eq!(db.agent_message_count("stale"), 0);
    assert_eq!(db.notes.len(), 1);
    let owners: Vec<Option<String>> = db.list_tasks(None).into_iter().map(|t| t.agent_name).collect();
    assert_eq!(owners, vec![None, Some("live".to_string()), None]);
}

#[test]
fn tasks_run_in_the_order_of_their_times() {
    let mut db = Store::new();
    let early = "2026-01-02T03:00:00+00:00";
    let late = "2026-01-02T03:04:05+00:00";
    db.create_oneshot_task("b", "", late, "", None, &fixed(0)).unwrap();
    db.create_oneshot_task("a", "", early, "", None, &fixed(0)).unwrap();
    db.create_oneshot_task("c", "", late, "", None, &fixed(0)).unwrap();
    db.create_oneshot_task("d", "", "2026-01-02T03:04:06+00:00", "", None, &fixed(0)).unwrap();
    let off = db.create_oneshot_task("e", "", early, "", None, &fixed(0)).unwrap();
    db.set_task_enabled(off, false);
    let names: Vec<String> = db.get_pending_tasks(&fixed(0)).into_iter().map(|t| t.name).collect();
    assert_eq!(names, vec!["a", "b", "c"]);
}

#[test]
fn a_run_of_a_cron_task_gives_the_next_time() {
    let mut db = Store::new();
    let every_minute = "0 * * * * * *";
    let id = db.create_cron_task("c", "", every_minute, "", None, None, &fixed(0)).unwrap();
    assert_eq!(id, 1);
    let next = db.get_task(id).unwrap().next_run_at.clone();
    assert_eq!(next, Some("2026-01-02T03:05:00+00:00".to_string()));
    db.mark_task_executed(id, &run("cron", Some(every_minute), None), &fixed(60)).unwrap();
    let task = db.get_task(id).unwrap();
    assert_eq!(task.next_run_at, Some("2026-01-02T03:06:00+00:00".to_string()));
    assert_eq!(task.last_run_at, Some("2026-01-02T03:05:05+00:00".to_string()));
    assert!(task.enabled);
}

#[test]
fn a_run_with_a_bad_expression_is_counted_and_refused() {
    let mut db = Store::new();
    let id = db.create_cron_task("c", "", "* * * * * * *", "", None, None, &fixed(0)).unwrap();
    let before = db.get_task(id).unwrap().clone();
    let r = db.mark_task_executed(id, &run("cron", Some("bad"), None), &fixed(0));
    assert!(r.is_err());
    let after = db.get_task(id).unwrap();
    assert_eq!(after.run_count, 1);
    assert_eq!(after.next_run_at, before.next_run_at);
    assert_eq!(after.last_run_at, None);
    assert!(after.enabled);
    assert_eq!(db.mark_task_executed(99, &run("oneshot", None, None), &fixed(0)), Ok(()));
    assert!(db.mark_task_executed(99, &run("cron", Some("bad"), None), &fixed(0)).is_err());
    db.tasks[0].run_count = i64::MAX;
    let r = db.mark_task_executed(id, &run("oneshot", None, None), &fixed(0));
    assert_eq!(r, Err("integer overflow".to_string()));
}

#[test]
fn one_shot_times_are_checked() {
    let mut db = Store::new();
    let r = db.create_oneshot_task("t", "", "tomorrow", "", None, &fixed(0));
    assert!(r.unwrap_err().starts_with("Invalid RFC 3339 datetime 'tomorrow': "));
    let id = db.create_oneshot_task("t", "d", "2030-01-01T00:00:00Z", "", None, &fixed(0)).unwrap();
    let task = db.get_task(id).unwrap();
    assert_eq!(task.run_at, Some("2030-01-01T00:00:00Z".to_string()));
    assert_eq!(task.next_run_at, task.run_at);
    assert!(!db.set_task_enabled(7, true));
    assert!(!db.delete_task(7));
}

fn text(answer: Answer) -> Option<String> {
    match answer {
        Answer::Text(t) => t,
        _ => panic!("no text"),
    }
}

#[test]
fn requests_are_carried_out() {
    let mut db = Store::new();
    let clock = fixed(0);
    let r = dispatch(&mut db, "create_agent", r#"{"name":"alice","description":"x"}"#, &clock);
    assert!(matches!(r, Ok(Answer::Flag(true))));
    let r = dispatch(&mut db, "create_agent", r#"{"name":"alice","description":"x"}"#, &clock);
    assert_eq!(r.err(), Some("Agent 'alice' already exists".to_string()));
    let r = dispatch(
        &mut db,
        "set_agent_data",
        r#"{"agent":"alice","key":"k","value":"v"}"#,
        &clock,
    );
    assert!(matches!(r, Ok(Answer::Flag(true))));
    let r = dispatch(&mut db, "get_agent_data", r#"{"agent":"alice","key":"k"}"#, &clock);
    assert_eq!(text(r.ok().unwrap()), Some("v".to_string()));
    let r = dispatch(&mut db, "get_agent_data", r#"{"agent":"alice","key":"j"}"#, &clock);
    assert_eq!(text(r.ok().unwrap()), None);
    let r = dispatch(&mut db, "claim_agent", r#"{"name":"alice","session_id":"s"}"#, &clock);
    assert!(matches!(r, Ok(Answer::Flag(true))));
    let r = dispatch(&mut db, "list_agents", "{}", &clock);
    match r {
        Ok(Answer::Agents(v)) => assert_eq!(v[0].session_id, Some("s".to_string())),
        _ => panic!("no agents"),
    }
    let r = dispatch(&mut db, "gc_agents", "{}", &clock);
    assert!(matches!(r, Ok(Answer::Names(v)) if v.is_empty()));
    let r = dispatch(&mut db, "delete_agent", r#"{"name":"alice"}"#, &clock);
    assert!(matches!(r, Ok(Answer::Flag(true))));
    let r = dispatch(&mut db, "get_agent", r#"{"name":"alice"}"#, &clock);
    assert!(matches!(r, Ok(Answer::Agent(None))));
}

#[test]
fn requests_on_conversations_keep_the_json_values() {
    let mut db = Store::new();
    let clock = fixed(0);
    db.create_agent("a", "", &clock).unwrap();
    let r = dispatch(
        &mut db,
        "save_agent_messages",
        r#"{"agent_name":"a","messages":[ {"role":"user"}, "x", 3 ]}"#,
        &clock,
    );
    assert!(matches!(r, Ok(Answer::Flag(true))));
    assert_eq!(db.load_agent_messages("a"), vec![r#"{"role":"user"}"#, r#""x""#, "3"]);
    let r = dispatch(
        &mut db,
        "append_agent_message",
        r#"{"agent_name":"a","message":"say \"hi\""}"#,
        &clock,
    );
    assert!(matches!(r, Ok(Answer::Flag(true))));
    let r = dispatch(&mut db, "agent_message_count", r#"{"agent_name":"a"}"#, &clock);
    assert!(matches!(r, Ok(Answer::Count(4))));
    let r = dispatch(&mut db, "load_agent_messages", r#"{"agent_name":"a"}"#, &clock);
    match r {
        Ok(Answer::Messages(v)) => assert_eq!(v[3], r#""say \"hi\"""#),
        _ => panic!("no messages"),
    }
    let r = dispatch(&mut db, "append_agent_message", r#"{"agent_name":"a"}"#, &clock);
    assert_eq!(r.err(), Some("missing param 'message'".to_string()));
    let r = dispatch(&mut db, "save_agent_messages", r#"{"agent_name":"a"}"#, &clock);
    assert_eq!(r.err(), Some("missing param 'messages'".to_string()));
    let r = dispatch(&mut db, "clear_agent_messages", r#"{"agent_name":"a"}"#, &clock);
    assert!(matches!(r, Ok(Answer::Flag(true))));
    assert_eq!(db.agent_message_count("a"), 0);
}

#[test]
fn requests_on_tasks() {
    let mut db = Store::new();
    let clock = fixed(0);
    let r = dispatch(
        &mut db,
        "create_cron_task",
        concat_cron().as_str(),
        &clock,
    );
    assert!(matches!(r, Ok(Answer::Number(1))));
    let r = dispatch(&mut db, "get_task", r#"{"task_id":1}"#, &clock);
    match r {
        Ok(Answer::Task(Some(t))) => {
            assert_eq!(t.max_runs, Some(1));
            assert_eq!(t.agent_name, None);
        }
        _ => panic!("no task"),
    }
    let r = dispatch(&mut db, "set_task_enabled", r#"{"task_id":1}"#, &clock);
    assert_eq!(r.err(), Some("missing param 'enabled'".to_string()));
    let r = dispatch(&mut db, "get_task", r#"{"task_id":"1"}"#, &clock);
    assert_eq!(r.err(), Some("missing param 'task_id'".to_string()));
    let r = dispatch(
        &mut db,
        "mark_task_executed",
        r#"{"task_id":1,"task_type":"cron","cron_expression":"* * * * * * *","max_runs":1}"#,
        &clock,
    );
    assert!(matches!(r, Ok(Answer::Flag(true))));
    assert!(!db.get_task(1).unwrap().enabled);
    let r = dispatch(&mut db, "list_tasks", "{}", &clock);
    assert!(matches!(r, Ok(Answer::Tasks(v)) if v.len() == 1));
    let r = dispatch(&mut db, "delete_task", r#"{"task_id":1}"#, &clock);
    assert!(matches!(r, Ok(Answer::Flag(true))));
    let r = dispatch(&mut db, "delete_task", r#"{"task_id":1}"#, &clock);
    assert!(matches!(r, Ok(Answer::Flag(false))));
    let r = dispatch(&mut db, "drop_everything", "{}", &clock);
    assert_eq!(r.err(), Some("unknown method: drop_everything".to_string()));
}

fn concat_cron() -> String {
    format!(
        r#"{{"name":"c","description":"d","cron_expression":"{}","command":"x","max_runs":1}}"#,
        "* * * * * * *"
    )
}

#[test]
fn requests_on_sessions_and_messages() {
    let mut db = Store::new();
    let clock = fixed(0);
    db.create_agent("a", "", &clock).unwrap();
    db.create_agent("b", "", &clock).unwrap();
    db.claim_agent("b", "s", &clock);
    let r = dispatch(
        &mut db,
        "send_notification",
        r#"{"from_agent":"a","to_agent":"b","message":"m"}"#,
        &clock,
    );
    assert!(matches!(r, Ok(Answer::Number(1))));
    let r = dispatch(&mut db, "heartbeat_all", r#"{"session_id":"s"}"#, &fixed(9));
    assert!(matches!(r, Ok(Answer::Flag(true))));
    let poll = "poll_notifications_for_session";
    let r = dispatch(&mut db, poll, r#"{"session_id":"s"}"#, &fixed(15));
    assert!(matches!(r, Ok(Answer::Notifications(v)) if v.len() == 1));
    let r = dispatch(&mut db, "release_agent", r#"{"name":"b","session_id":"s"}"#, &clock);
    assert!(matches!(r, Ok(Answer::Flag(true))));
    assert_eq!(db.get_agent("b").unwrap().session_id, None);
    let r = dispatch(&mut db, "get_agent_config", r#"{"agent_name":"a"}"#, &clock);
    assert!(matches!(r, Ok(Answer::Config(c)) if c.model.is_none()));
    let r = dispatch(&mut db, "list_agent_data", r#"{"agent":"a"}"#, &clock);
    assert!(matches!(r, Ok(Answer::Data(v)) if v.is_empty()));
    let r = dispatch(&mut db, "get_pending_tasks", "{}", &clock);
    assert!(matches!(r, Ok(Answer::Tasks(v)) if v.is_empty()));
}
