use faber::rpc::{
    call_result, check_authentication, find_method, flag_result, name_of_method, number_result,
    params_of_method, read_request, text_result, write_request, Arg, DbMethod, DbRequest,
    ServerAction, ServerState,
};

#[test]
fn every_method_is_found_by_its_name() {
    let all = [
        DbMethod::ClaimAgent,
        DbMethod::HeartbeatAll,
        DbMethod::ReleaseAgent,
        DbMethod::ReleaseAllAgents,
        DbMethod::CreateAgent,
        DbMethod::DeleteAgent,
        DbMethod::ListAgents,
        DbMethod::GetAgent,
        DbMethod::EnsureDefaultAgent,
        DbMethod::SetAgentData,
        DbMethod::GetAgentData,
        DbMethod::DeleteAgentData,
        DbMethod::ListAgentData,
        DbMethod::GetAgentConfig,
        DbMethod::SaveAgentMessages,
        DbMethod::LoadAgentMessages,
        DbMethod::AppendAgentMessage,
        DbMethod::ClearAgentMessages,
        DbMethod::AgentMessageCount,
        DbMethod::SendNotification,
        DbMethod::PollNotificationsForSession,
        DbMethod::CreateCronTask,
        DbMethod::CreateOneshotTask,
        DbMethod::DeleteTask,
        DbMethod::ListTasks,
        DbMethod::GetTask,
        DbMethod::SetTaskEnabled,
        DbMethod::GetPendingTasks,
        DbMethod::MarkTaskExecuted,
        DbMethod::GcAgents,
    ];
    for m in all {
        assert_eq!(find_method(name_of_method(m)), Some(m));
    }
    assert_eq!(name_of_method(DbMethod::GcAgents), "gc_agents");
    assert_eq!(find_method("nothing"), None);
}

#[test]
fn a_request_is_read_as_it_was_written() {
    let q = DbRequest {
        method: DbMethod::CreateCronTask,
        args: vec![
            Arg::Text("a \"name\"".to_string()),
            Arg::Text("".to_string()),
            Arg::Text("* * * * * * *".to_string()),
            Arg::Text("x\ny".to_string()),
            Arg::OptText(None),
            Arg::OptNumber(Some(-3)),
        ],
    };
    let params = write_request(&q);
    assert_eq!(read_request("create_cron_task", &params), Ok(q));
    let q = DbRequest {
        method: DbMethod::SetTaskEnabled,
        args: vec![Arg::Flag(false), Arg::Number(i64::MIN)],
    };
    assert_eq!(read_request("set_task_enabled", &write_request(&q)), Ok(q));
    let q = DbRequest {
        method: DbMethod::SaveAgentMessages,
        args: vec![Arg::Json("[1,{\"a\":2}]".to_string()), Arg::Text("x".to_string())],
    };
    assert_eq!(read_request("save_agent_messages", &write_request(&q)), Ok(q));
}

#[test]
fn missing_parameters_are_named() {
    let e = |method: &str, params: &str| read_request(method, params).unwrap_err();
    assert_eq!(e("claim_agent", r#"{"session_id":"s"}"#), "missing param 'name'");
    assert_eq!(e("claim_agent", r#"{"name":3,"session_id":"s"}"#), "missing param 'name'");
    assert_eq!(e("get_task", r#"{"task_id":1.5}"#), "missing param 'task_id'");
    assert_eq!(e("get_task", "no json"), "missing param 'task_id'");
    assert_eq!(e("save_agent_messages", r#"{"messages":{}}"#), "missing param 'messages'");
    assert_eq!(
        e("append_agent_message", r#"{"message":null,"agent_name":"a"}"#),
        "missing param 'message'"
    );
    assert_eq!(e("jump", "{}"), "unknown method: jump");
    let q = read_request("list_tasks", r#"{"agent_name":7}"#).unwrap();
    assert_eq!(q.args, vec![Arg::OptText(None)]);
    assert_eq!(params_of_method(DbMethod::GetTask)[0].key, "task_id");
}

#[test]
fn a_client_has_to_give_the_key_first() {
    let mut s = ServerState::new(Some("secret".to_string()));
    assert_eq!(s.take("list_agents", "{}"), ServerAction::Close("auth required".to_string()));
    assert_eq!(
        s.take("auth", r#"{"key":"guess"}"#),
        ServerAction::Close("unauthorized".to_string())
    );
    assert_eq!(s.take("auth", "{}"), ServerAction::Close("unauthorized".to_string()));
    assert_eq!(s.take("auth", r#"{"key":"secret"}"#), ServerAction::Accept);
    assert!(matches!(s.take("list_agents", "{}"), ServerAction::Run(_)));
    let refused = ServerAction::Refuse("unknown method: auth".to_string());
    assert_eq!(s.take("auth", r#"{"key":"secret"}"#), refused);
    let mut open = ServerState::new(None);
    assert!(matches!(open.take("gc_agents", "{}"), ServerAction::Run(_)));
}

#[test]
fn lines_without_a_request() {
    assert!(ServerState::is_blank(" \t"));
    assert!(!ServerState::is_blank("{}"));
    assert_eq!(ServerState::invalid_request("eof"), "invalid request: eof");
}

#[test]
fn what_a_client_makes_of_a_reply() {
    let some = |t: &str| Some(t.to_string());
    assert_eq!(call_result(some("bad"), some("1")), Err("bad".to_string()));
    assert_eq!(call_result(None, some("1")), Ok("1".to_string()));
    assert_eq!(call_result(None, None), Ok("null".to_string()));
    assert!(flag_result("true"));
    assert!(!flag_result("false"));
    assert!(!flag_result("null"));
    assert_eq!(number_result("42"), Ok(42));
    assert_eq!(number_result("-7"), Ok(-7));
    assert_eq!(number_result("true"), Err("expected integer".to_string()));
    assert_eq!(text_result("null"), Ok(None));
    assert_eq!(text_result("\"a\\nb\""), Ok(some("a\nb")));
    assert_eq!(text_result("3"), Err("expected string value".to_string()));
    assert_eq!(check_authentication("true"), Ok(()));
    assert_eq!(check_authentication("null"), Err("authentication failed".to_string()));
}
