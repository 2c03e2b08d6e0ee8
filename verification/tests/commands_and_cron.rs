use lure::agent::scheduler::{SchedulerAction, SchedulerConfig, SessionScheduler};
use lure::bus::{InboundMessage, MessageBus};
use lure::command::builtin::{build_help_text, register_builtin_commands, BuiltinCommand};
use lure::command::router::{normalize_command_text, CommandContext, CommandRouter};
use lure::cron::schedule::compute_next_run;
use lure::cron::types::CronSchedule;
use lure::mcp::{classify_response, filter_tools, is_transient, should_retry, McpError, McpTool, ResponseStep, RpcResponse};

fn ctx(raw: &str) -> CommandContext {
    CommandContext::new("telegram".into(), "1".into(), "telegram:1".into(), raw.into())
}

fn router() -> CommandRouter<BuiltinCommand> {
    let mut r = CommandRouter::new();
    register_builtin_commands(&mut r);
    r
}

#[test]
fn exact_command_wins_and_prefix_takes_arguments() {
    let r = router();
    let mut c = ctx("/model");
    assert!(matches!(r.dispatch(&mut c), Some(BuiltinCommand::Runtime("/model"))));
    assert_eq!(c.args, "");
    let mut c = ctx("/model gpt-4");
    assert!(matches!(r.dispatch(&mut c), Some(BuiltinCommand::Runtime("/model"))));
    assert_eq!(c.args, "gpt-4");
    let mut c = ctx("/pairing approve ABCD-EFGH");
    assert!(matches!(r.dispatch(&mut c), Some(BuiltinCommand::Pairing)));
    assert_eq!(c.args, "approve ABCD-EFGH");
    let mut c = ctx("/nothing");
    assert!(r.dispatch(&mut c).is_none());
}

#[test]
fn priority_commands_and_bot_suffix() {
    let r = router();
    assert!(r.is_priority("/stop"));
    assert!(r.is_priority("/STOP@MyBot"));
    assert!(!r.is_priority("/help"));
    let mut c = ctx("/stop@my_bot");
    assert!(matches!(r.dispatch_priority(&mut c), Some(BuiltinCommand::Runtime("/stop"))));
    assert_eq!(normalize_command_text("/help@my_bot"), "/help");
    assert_eq!(normalize_command_text("/model@bot gpt"), "/model gpt");
    assert_eq!(normalize_command_text("hello@bot"), "hello@bot");
}

#[test]
fn help_lists_the_commands() {
    let h = build_help_text();
    assert!(h.contains("/help"));
    assert!(h.contains("/pairing"));
}

#[test]
fn next_run_of_every_and_at_schedules() {
    assert_eq!(compute_next_run(&CronSchedule::every(5_000), 1_000), Some(6_000));
    assert_eq!(compute_next_run(&CronSchedule::every(0), 1_000), None);
    assert_eq!(compute_next_run(&CronSchedule::at(2_000), 1_000), Some(2_000));
    assert_eq!(compute_next_run(&CronSchedule::at(1_000), 1_000), None);
}

#[test]
fn next_run_of_utc_cron_is_the_next_matching_minute() {
    // 2024-01-01T00:00:30Z; the next minute divisible by 15 is 00:15.
    let now = 1_704_067_230_000;
    let s = CronSchedule::cron("*/15 * * * *".into(), Some("UTC".into()));
    assert_eq!(compute_next_run(&s, now), Some(1_704_068_100_000));
    let bad = CronSchedule::cron("nope".into(), Some("UTC".into()));
    assert_eq!(compute_next_run(&bad, now), None);
    let unknown_zone = CronSchedule::cron("* * * * *".into(), Some("Mars/Base".into()));
    assert_eq!(compute_next_run(&unknown_zone, now), None);
}

fn msg(chat: &str, text: &str) -> InboundMessage {
    InboundMessage::new("cli".into(), chat.into(), text.into())
}

#[test]
fn scheduler_runs_one_turn_per_session_in_order() {
    let cfg = SchedulerConfig { consume_timeout_ms: 1000, pending_capacity: 2 };
    let mut s = SessionScheduler::new(&cfg);
    assert!(matches!(s.on_message(msg("a", "one")), SchedulerAction::Dispatch { .. }));
    assert!(s.is_active("cli:a"));
    assert!(matches!(s.on_message(msg("a", "two")), SchedulerAction::Queued { .. }));
    assert!(matches!(s.on_message(msg("a", "three")), SchedulerAction::Queued { .. }));
    assert!(matches!(s.on_message(msg("a", "four")), SchedulerAction::Dropped { .. }));
    assert!(matches!(s.on_message(msg("b", "other")), SchedulerAction::Dispatch { .. }));
    assert_eq!(s.pending_len("cli:a"), 2);
    assert_eq!(s.on_turn_finished("cli:a").unwrap().content, "two");
    assert_eq!(s.on_turn_finished("cli:a").unwrap().content, "three");
    assert!(s.on_turn_finished("cli:a").is_none());
    assert!(!s.is_active("cli:a"));
    assert!(s.is_active("cli:b"));
}

#[test]
fn scheduler_stop_clears_the_session() {
    let mut s = SessionScheduler::new(&SchedulerConfig::default());
    s.on_message(msg("a", "one"));
    s.on_message(msg("a", "two"));
    match s.on_message(msg("a", "  /stop ")) {
        SchedulerAction::Cancel { session_key } => assert_eq!(session_key, "cli:a"),
        _ => panic!("/stop cancels"),
    }
    assert!(!s.is_active("cli:a"));
    assert_eq!(s.pending_len("cli:a"), 0);
    assert!(matches!(s.on_idle(), SchedulerAction::Heartbeat));
    let d = SchedulerConfig::default();
    assert_eq!((d.consume_timeout_ms, d.pending_capacity), (1000, 32));
}

#[test]
fn bus_delivers_in_order() {
    let mut bus = MessageBus::new();
    bus.publish_inbound(msg("a", "first"));
    bus.publish_inbound(msg("a", "second"));
    assert_eq!(bus.consume_inbound().unwrap().content, "first");
    assert_eq!(bus.consume_inbound().unwrap().content, "second");
    assert!(bus.consume_inbound().is_none());
}

#[test]
fn mcp_errors_and_retries() {
    assert!(is_transient(&McpError::Timeout));
    assert!(is_transient(&McpError::Transport("x".into())));
    assert!(is_transient(&McpError::Rpc { code: -32000, message: String::new() }));
    assert!(!is_transient(&McpError::Rpc { code: -32601, message: String::new() }));
    assert!(!is_transient(&McpError::Protocol("x".into())));
    assert!(should_retry(2, 1, &McpError::Timeout));
    assert!(!should_retry(2, 2, &McpError::Timeout));
    assert!(!should_retry(0, 0, &McpError::Timeout));
    assert_eq!(McpError::Rpc { code: -32000, message: "busy".into() }.message(), "MCP RPC 错误 (-32000): busy");
    assert_eq!(McpError::Timeout.message(), "MCP 响应超时");
}

#[test]
fn mcp_response_classification() {
    let other = RpcResponse { id: Some(3), result: Some("{}".into()), error: None };
    assert!(matches!(classify_response(4, &other), ResponseStep::Skip));
    let ok = RpcResponse { id: Some(4), result: Some("{\"tools\":[]}".into()), error: None };
    assert!(matches!(classify_response(4, &ok), ResponseStep::Done(ref s) if s == "{\"tools\":[]}"));
    let err = RpcResponse { id: Some(4), result: None, error: Some((None, None)) };
    match classify_response(4, &err) {
        ResponseStep::Failed(McpError::Rpc { code, message }) => {
            assert_eq!(code, -1);
            assert_eq!(message, "rpc error");
        }
        _ => panic!("an error response fails the request"),
    }
    let neither = RpcResponse { id: Some(4), result: None, error: None };
    assert!(matches!(classify_response(4, &neither), ResponseStep::Failed(McpError::Protocol(_))));
}

#[test]
fn mcp_tool_whitelist() {
    let tools = || {
        vec![
            McpTool { name: "read".into(), description: String::new(), input_schema: "{}".into() },
            McpTool { name: "write".into(), description: String::new(), input_schema: "{}".into() },
        ]
    };
    assert_eq!(filter_tools(tools(), None).len(), 2);
    let only = vec!["write".to_string()];
    let kept = filter_tools(tools(), Some(&only));
    assert_eq!(kept.len(), 1);
    assert_eq!(kept[0].name, "write");
}
