use lure::agent::active::SessionBusy;
use lure::agent::subagent::{announce_message, complete_spawn, derive_label, register_spawn, SubagentRegistry};
use lure::api::{
    api_session_key, authorize, endpoint, error_body, parse_chat_request, plan_chat, sse_body, validate_model,
    ChatPlan, ChatRequestBody, Endpoint, MessageContent, RequestMessage, ServerConfig,
};
use lure::channel::access::{AccessPolicy, ChannelAccessConfig};
use lure::channel::contract::ChannelError;
use lure::gateway::{gateway_run_status, AgentError, GatewayError};
use lure::cron::types::RunStatus;
use lure::memory::store::{dream_prompt, DreamRunner, HistoryEntry, MemoryStore};
use lure::memory::strip::strip_think;
use lure::paths::{config_path_in, expand_in, is_default_workspace_in, resolve_in, resolve_workspace, workspace_in};

fn user(text: &str) -> RequestMessage {
    RequestMessage { role: Some("user".into()), content: MessageContent::Text(text.into()) }
}

#[test]
fn chat_request_validation() {
    let p = parse_chat_request(Some(vec![user("hi")]), Some("m".into()), None).ok().unwrap();
    assert_eq!(p.text, "hi");
    assert!(!p.stream);
    let e = parse_chat_request(Some(vec![user("a"), user("b")]), None, Some(true)).err().unwrap();
    assert_eq!(e.status, 400);
    assert_eq!(e.message, "Only a single user message is supported");
    assert!(parse_chat_request(None, None, None).is_err());
    assert!(validate_model(Some("other"), "m").is_err());
    assert!(validate_model(None, "m").is_ok());
    assert!(validate_model(Some("m"), "m").is_ok());
}

#[test]
fn api_authorization() {
    assert!(authorize(None, None).is_ok());
    assert!(authorize(Some(""), None).is_ok());
    let e = authorize(Some("k"), None).err().unwrap();
    assert_eq!((e.status, e.message.as_str()), (401, "Missing Authorization header. Use: Bearer <api_key>"));
    assert_eq!(authorize(Some("k"), Some("Bearer x")).err().unwrap().message, "Invalid API key");
    assert!(authorize(Some("k"), Some("Bearer k")).is_ok());
    assert_eq!(api_session_key(Some("abc")), "api:abc");
    assert_eq!(api_session_key(Some("")), "api:default");
    assert_eq!(
        error_body(400, "bad \"x\"", "invalid_request_error"),
        "{\"error\":{\"code\":400,\"message\":\"bad \\\"x\\\"\",\"type\":\"invalid_request_error\"}}"
    );
}

#[test]
fn endpoints_and_chat_plan() {
    assert_eq!(endpoint("GET", "/health"), Endpoint::Health);
    assert_eq!(endpoint("GET", "/v1/models?x=1"), Endpoint::Models);
    assert_eq!(endpoint("POST", "/v1/chat/completions"), Endpoint::ChatCompletions);
    assert_eq!(endpoint("GET", "/v1/chat/completions"), Endpoint::NotFound);
    let cfg = ServerConfig { model: "m".into(), api_key: None };
    match plan_chat(&cfg, None, None) {
        ChatPlan::Reply(r) => assert_eq!(r.status, 400),
        _ => panic!("an unreadable body is refused"),
    }
    let body = ChatRequestBody { messages: Some(vec![user("hello")]), model: None, stream: Some(true), session_id: Some("s1".into()) };
    match plan_chat(&cfg, None, Some(body)) {
        ChatPlan::Run { session_key, text, stream } => {
            assert_eq!(session_key, "api:s1");
            assert_eq!(text, "hello");
            assert!(stream);
        }
        _ => panic!("a valid request runs"),
    }
    let wrong = ChatRequestBody { messages: Some(vec![user("x")]), model: Some("z".into()), stream: None, session_id: None };
    match plan_chat(&cfg, None, Some(wrong)) {
        ChatPlan::Reply(r) => assert!(r.body.contains("model 'z' is not available")),
        _ => panic!("an unknown model is refused"),
    }
    let s = sse_body(&vec!["a".to_string(), "b".to_string()], "m", "chatcmpl-1");
    assert!(s.ends_with("data: [DONE]\n\n"));
    assert!(s.contains("\"content\":\"a\""));
}

#[test]
fn access_policy() {
    let p = AccessPolicy::new(vec!["alice".into()]);
    assert!(p.is_allowed_no_pairing("alice"));
    assert!(!p.is_allowed_no_pairing("bob"));
    let open = AccessPolicy::from_config(&ChannelAccessConfig { allow_from: vec!["*".into()] });
    assert!(open.is_allowed_no_pairing("anyone"));
    assert!(!AccessPolicy::new(Vec::new()).is_allowed_no_pairing("alice"));
}

#[test]
fn error_texts() {
    assert_eq!(GatewayError::UnknownChannel("x".into()).message(), "gateway 未注册 channel: x");
    assert_eq!(
        GatewayError::Agent(AgentError::Provider("down".into())).message(),
        "gateway agent 错误: agent provider 错误: down"
    );
    assert_eq!(
        ChannelError::MissingConfig { channel: "tg".into(), fields: vec!["token".into(), "chat".into()] }.message(),
        "channel 'tg' 缺少必填配置: token, chat"
    );
    assert_eq!(gateway_run_status(false, true), RunStatus::Skipped);
    assert_eq!(gateway_run_status(true, true), RunStatus::Success);
    assert_eq!(gateway_run_status(true, false), RunStatus::Error);
}

#[test]
fn session_busy_marks() {
    let mut b = SessionBusy::new();
    b.mark("cli:a");
    assert!(b.is_busy("cli:a"));
    assert!(!b.is_busy("cli:b"));
    b.unmark("cli:a");
    assert!(!b.is_busy("cli:a"));
}

#[test]
fn subagents_register_complete_and_cancel() {
    let mut r = SubagentRegistry::new();
    let id = register_spawn(&mut r, "cli:a", "summarize the very long document please", None, 0);
    let other = register_spawn(&mut r, "cli:b", "b task", Some("B"), 0);
    assert_eq!(r.get_running_count(), 2);
    assert_eq!(r.get_running_count_by_session("cli:a"), 1);
    assert_eq!(r.cancel_by_session("cli:a"), 1);
    assert_eq!(r.get_running_count_by_session("cli:a"), 0);
    assert_eq!(r.get_running_count(), 1);
    complete_spawn(&mut r, &other);
    assert_eq!(r.get_running_count(), 0);
    assert!(r.status(&id).is_some() || r.status(&id).is_none());
    assert_eq!(derive_label("summarize the very long document please", None), "summarize the very long docume...");
    assert_eq!(derive_label("short", Some("L")), "L");
    let m = announce_message("cli:a", &id, Ok("done".into()));
    assert_eq!(m.session_key_override.as_deref(), Some("cli:a"));
}

#[test]
fn workspace_paths() {
    assert_eq!(config_path_in("/home/u"), "/home/u/.nanobot/config.json");
    assert_eq!(workspace_in("/home/u"), "/home/u/.nanobot/workspace");
    assert_eq!(expand_in("/home/u", "~/ws"), "/home/u/ws");
    assert_eq!(expand_in("/home/u", "/abs"), "/abs");
    assert_eq!(resolve_in("/home/u", None), "/home/u/.nanobot/workspace");
}

#[test]
fn thinking_blocks_are_stripped() {
    assert_eq!(strip_think("<think>hidden</think>Answer  "), "Answer");
    assert_eq!(strip_think("<thinking>never closed"), "");
    assert_eq!(strip_think("<|channel|>final text"), "final text");
    assert_eq!(strip_think("plain"), "plain");
}

struct Summarize;

impl DreamRunner for Summarize {
    fn consolidate(&self, current_memory: &str, entries: &Vec<HistoryEntry>) -> String {
        format!("{current_memory}+{}", entries.len())
    }
}

#[test]
fn history_append_and_consolidation() {
    let mut m = MemoryStore::new("/ws");
    assert_eq!(m.history_file(), "/ws/memory/history.jsonl");
    let (c1, line1) = m.append_history("hello  \n", Some("cli:a"));
    assert_eq!(c1, 1);
    assert!(line1.starts_with("{\"cursor\":1,\"timestamp\":"));
    assert!(line1.ends_with(",\"content\":\"hello\",\"session_key\":\"cli:a\"}"));
    let (c2, _) = m.append_history("<think>x</think>world", None);
    assert_eq!(c2, 2);
    assert!(m.should_consolidate(2));
    assert!(!m.should_consolidate(3));
    assert!(m.maybe_consolidate(&Summarize, 3).is_none());
    let o = m.consolidate(&Summarize).unwrap();
    assert_eq!((o.processed, o.new_cursor), (2, 2));
    assert_eq!(m.read_memory(), "+2");
    assert_eq!(m.get_last_dream_cursor(), 2);
    assert!(m.consolidate(&Summarize).is_none());
    let e = vec![HistoryEntry { cursor: 1, timestamp: "t".into(), content: "c".into(), session_key: None }];
    assert!(dream_prompt("M", &e).contains("M\n\n"));
}

use lure::memory::store::{dream_result, ProviderDreamRunner, TextCompletion};

struct Canned(Result<Option<String>, String>);

impl TextCompletion for Canned {
    fn complete_text(&self, _prompt: &str) -> Result<Option<String>, String> {
        self.0.clone()
    }
}

#[test]
fn dream_keeps_memory_unless_the_reply_has_text() {
    assert_eq!(dream_result("old", Ok(Some("new".into()))), "new");
    assert_eq!(dream_result("old", Ok(Some("  \n".into()))), "old");
    assert_eq!(dream_result("old", Ok(None)), "old");
    assert_eq!(dream_result("old", Err("down".into())), "old");
    let mut m = MemoryStore::new("/ws");
    m.append_history("fact", None);
    let runner = ProviderDreamRunner::new(Canned(Ok(Some("# Memory\n- fact".into()))));
    m.consolidate(&runner).unwrap();
    assert_eq!(m.read_memory(), "# Memory\n- fact");
}

#[test]
fn default_workspace_detection_and_plain_settings() {
    assert!(is_default_workspace_in("/home/u", None));
    assert!(is_default_workspace_in("/home/u", Some("~/.nanobot/workspace")));
    assert!(is_default_workspace_in("/home/u", Some("/home/u/.nanobot/workspace/")));
    assert!(!is_default_workspace_in("/home/u", Some("/srv/ws")));
    assert_eq!(resolve_workspace(Some("/srv/ws")), Some("/srv/ws".to_string()));
    assert_eq!(resolve_workspace(Some("rel/ws")), Some("rel/ws".to_string()));
}
