use faber::agent_tools::{
    agent_created, agent_deleted, agent_shown, agents_listed, calling_agent, check_spawn,
    cron_task_created, data_deleted, data_got, data_listed, data_set, message_sent,
    oneshot_task_created, pending_tasks_listed, prepare_subagent, subagent_description,
    subagent_opts, subagent_result, subagent_spawned, subagent_text, task_agent, task_deleted,
    task_enabled_set, task_shown, tasks_listed, SubagentEnd,
};
use faber::chat_loop::read_notification;
use faber::context::ToolContext;
use faber::database::DataRow;
use faber::options::{AgentConfig, RequestOpts};
use faber::store::{AgentRow, TaskRow};

fn context() -> ToolContext {
    let mut ctx = ToolContext::new();
    ctx.has_db = true;
    ctx.agent_name = Some("me".to_string());
    ctx
}

fn json(text: &str) -> serde_json::Value {
    serde_json::from_str(text).unwrap()
}

fn agent(name: &str) -> AgentRow {
    AgentRow {
        name: name.to_string(),
        description: "d".to_string(),
        created_at: String::new(),
        session_id: None,
        heartbeat_at: None,
    }
}

fn task(id: i64, enabled: bool) -> TaskRow {
    TaskRow {
        id,
        agent_name: None,
        name: "t".to_string(),
        description: String::new(),
        task_type: "cron".to_string(),
        cron_expression: None,
        run_at: None,
        next_run_at: if enabled { Some("soon".to_string()) } else { None },
        last_run_at: None,
        enabled,
        created_at: String::new(),
        command: String::new(),
        max_runs: None,
        run_count: 0,
    }
}

#[test]
fn agents_are_reported() {
    let mut ctx = context();
    let r = json(&agent_created(&mut ctx, "bob"));
    assert_eq!((r["status"].as_str(), r["name"].as_str()), (Some("created"), Some("bob")));
    let r = json(&agent_deleted(&mut ctx, "bob", true));
    assert_eq!(r["status"], "deleted");
    let r = json(&agent_deleted(&mut ctx, "bob", false));
    assert_eq!(r["status"], "not_found");
    agents_listed(&mut ctx, &[agent("a"), agent("b")]);
    assert!(agent_shown(&mut ctx, "a", Some(&agent("a"))).is_none());
    let r = json(&agent_shown(&mut ctx, "z", None).unwrap());
    assert_eq!(r["error"], "Agent 'z' not found");
    assert_eq!(
        ctx.lines,
        vec![
            "Agent 'bob' created successfully",
            "Agent 'bob' deleted",
            "Found 2 agent(s)",
            "  - a (d)",
            "  - b (d)",
            "Agent 'a': d",
        ]
    );
}

#[test]
fn data_is_reported() {
    let mut ctx = context();
    let r = json(&data_set(&mut ctx, "a", "k", "say \"hi\""));
    assert_eq!((r["status"].as_str(), r["key"].as_str()), (Some("ok"), Some("k")));
    let r = json(&data_got(&mut ctx, "a", "k", Some("v".to_string())));
    assert_eq!(r["value"], "v");
    let r = json(&data_got(&mut ctx, "a", "k", None));
    assert!(r["value"].is_null());
    let r = json(&data_deleted(&mut ctx, "a", "k", true));
    assert_eq!(r["deleted"], true);
    let r = json(&data_deleted(&mut ctx, "a", "k", false));
    assert_eq!(r["deleted"], false);
    let item = |key: &str| DataRow {
        agent: "a".to_string(),
        key: key.to_string(),
        value: "v".to_string(),
    };
    let r = json(&data_listed(&mut ctx, "a", &[item("x"), item("y")]));
    assert_eq!(r[1]["key"], "y");
    assert_eq!(r.as_array().unwrap().len(), 2);
    assert_eq!(
        ctx.lines,
        vec![
            "Set data for agent 'a': k = say \"hi\"",
            "Agent 'a' data: k = v",
            "Deleted key 'k' for agent 'a'",
            "Agent 'a' has 2 data entries",
            "  x = v",
            "  y = v",
        ]
    );
}

#[test]
fn tasks_are_reported() {
    let mut ctx = context();
    assert_eq!(task_agent(&Some("x".to_string()), &ctx), Some("x".to_string()));
    assert_eq!(task_agent(&None, &ctx), Some("me".to_string()));
    let r = json(&cron_task_created(&mut ctx, "t", 4, "* *"));
    assert_eq!((r["id"].as_i64(), r["status"].as_str()), (Some(4), Some("created")));
    let r = json(&oneshot_task_created(&mut ctx, "t", 5, "then"));
    assert_eq!(r["run_at"], "then");
    let r = json(&task_deleted(&mut ctx, 5, true));
    assert_eq!((r["deleted"].as_bool(), r["id"].as_i64()), (Some(true), Some(5)));
    task_deleted(&mut ctx, 6, false);
    tasks_listed(&mut ctx, &[task(1, true), task(-2, false)]);
    assert!(task_shown(&mut ctx, 1, Some(&task(1, true))).is_none());
    let r = json(&task_shown(&mut ctx, 9, None).unwrap());
    assert_eq!(r["error"], "Task id=9 not found");
    let r = json(&task_enabled_set(&mut ctx, 1, false, true));
    assert_eq!((r["enabled"].as_bool(), r["updated"].as_bool()), (Some(false), Some(true)));
    task_enabled_set(&mut ctx, 1, true, false);
    pending_tasks_listed(&mut ctx, &[task(1, true), task(2, false)]);
    assert_eq!(
        ctx.lines,
        vec![
            "Created cron task 't' (id=4) with schedule '* *'",
            "Created one-shot task 't' (id=5) scheduled at 'then'",
            "Deleted task id=5",
            "Found 2 task(s)",
            "  [1] t - cron (enabled)",
            "  [-2] t - cron (disabled)",
            "Task [1]: t (cron)",
            "Task id=1 disabled",
            "Found 2 pending task(s)",
            "  [1] t - cron (next: soon)",
            "  [2] t - cron (next: N/A)",
        ]
    );
}

#[test]
fn messages_to_agents_are_reported() {
    let mut ctx = context();
    assert_eq!(calling_agent(&ctx), "me");
    assert_eq!(calling_agent(&ToolContext::new()), "default");
    let r = json(&message_sent(&mut ctx, "bob", 3));
    assert_eq!((r["from"].as_str(), r["to"].as_str()), (Some("me"), Some("bob")));
    assert_eq!(ctx.lines, vec!["Message sent to agent 'bob' (notification #3)"]);
}

#[test]
fn a_sub_agent_needs_a_session_and_a_database() {
    let mut ctx = ToolContext::new();
    assert_eq!(check_spawn(false, &ctx), Err("Sub-agent context not configured".to_string()));
    assert_eq!(check_spawn(true, &ctx), Err("Database required for sub-agents".to_string()));
    ctx.has_db = true;
    assert_eq!(check_spawn(true, &ctx), Ok(()));
    assert_eq!(ctx.db(), Ok(()));
    let none = "Database not configured. Set 'db_path' in your config file.".to_string();
    assert_eq!(ToolContext::new().db(), Err(none));
}

#[test]
fn a_sub_agent_is_prepared() {
    let mut ctx = context();
    let config = AgentConfig {
        model: Some("m2".to_string()),
        endpoint: None,
        system_prompt: Some("be brief".to_string()),
    };
    let list = prepare_subagent(&mut ctx, "sub", &config, "count");
    let shown: Vec<(&str, &str)> =
        list.iter().map(|m| (m.role.as_str(), m.content.as_deref().unwrap())).collect();
    assert_eq!(
        shown,
        vec![
            (
                "system",
                "You are a sub-agent named 'sub'. Complete the task and return a concise result."
            ),
            ("system", "be brief"),
            ("user", "count"),
        ]
    );
    assert_eq!(ctx.lines, vec!["Spawning sub-agent 'sub'..."]);
    assert_eq!(subagent_description("sub"), "Sub-agent: sub");
    let opts = RequestOpts {
        max_tokens: Some(5),
        model: "m1".to_string(),
        endpoint: "e1".to_string(),
        tool_choice: None,
        api_key: None,
    };
    let opts = subagent_opts(opts, &config);
    assert_eq!((opts.model.as_str(), opts.endpoint.as_str()), ("m2", "e1"));
}

#[test]
fn the_parent_hears_the_result_of_a_sub_agent() {
    assert_eq!(subagent_text(SubagentEnd::Answered(Some("42".to_string()))), "42");
    assert_eq!(subagent_text(SubagentEnd::Answered(None)), "(no response)");
    assert_eq!(subagent_text(SubagentEnd::Refused("no".to_string())), "Error: no");
    assert_eq!(subagent_text(SubagentEnd::Empty), "(empty response)");
    assert_eq!(subagent_text(SubagentEnd::Failed("x".to_string())), "Error: x");
    let message = subagent_result("sub", "count", "forty\n\"two\"");
    let notice = read_notification("sub", &message);
    assert_eq!(notice.shown, "forty\n\"two\"");
    assert_eq!(notice.finished, Some("sub".to_string()));
    assert_eq!(notice.injection, format!("[Message from agent 'sub']: {}", message));
    let r = json(&subagent_spawned("sub", "count"));
    assert_eq!((r["status"].as_str(), r["agent"].as_str()), (Some("spawned"), Some("sub")));
}
