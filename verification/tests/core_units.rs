use lure::agent::turn::ensure_nonempty_tool_result;
use lure::cron::expr::{bit, CronExpr, WallClock};
use lure::version;

#[test]
fn empty_and_whitespace_results_become_marker() {
    assert_eq!(ensure_nonempty_tool_result("noop", String::new()), "(noop completed with no output)");
    assert_eq!(
        ensure_nonempty_tool_result("noop", "  \n\t ".to_string()),
        "(noop completed with no output)"
    );
}

#[test]
fn nonempty_result_is_unchanged() {
    assert_eq!(ensure_nonempty_tool_result("echo", "hello".to_string()), "hello");
}

#[test]
fn rejects_wrong_field_count() {
    assert!(CronExpr::parse("* * * *").is_none());
    assert!(CronExpr::parse("* * * * * *").is_none());
}

#[test]
fn rejects_out_of_range() {
    assert!(CronExpr::parse("60 * * * *").is_none());
    assert!(CronExpr::parse("* 24 * * *").is_none());
    assert!(CronExpr::parse("* * 0 * *").is_none());
    assert!(CronExpr::parse("* * * 13 *").is_none());
    assert!(CronExpr::parse("* * * * 8").is_none());
}

#[test]
fn parses_star_as_unrestricted() {
    let e = CronExpr::parse("* * * * *").unwrap();
    assert!(!e.dom_restricted && !e.dow_restricted);
}

#[test]
fn step_and_list_and_range() {
    let e = CronExpr::parse("*/20 * * * *").unwrap();
    assert!(bit(e.minutes, 0) && bit(e.minutes, 20) && bit(e.minutes, 40));
    assert!(!bit(e.minutes, 10));
    let e = CronExpr::parse("0 9-11,15 * * *").unwrap();
    for h in [9, 10, 11, 15] {
        assert!(bit(e.hours as u64, h));
    }
    assert!(!bit(e.hours as u64, 12));
}

#[test]
fn version_matches_package_metadata() {
    assert_eq!(version(), "0.1.0");
}

#[test]
fn cron_matches_selected_minutes_only() {
    let e = CronExpr::parse("30 9 * * 1-5").unwrap();
    let monday_0930 = WallClock { minute: 30, hour: 9, day: 6, month: 1, weekday: 1 };
    let sunday_0930 = WallClock { minute: 30, hour: 9, day: 5, month: 1, weekday: 0 };
    let monday_0931 = WallClock { minute: 31, hour: 9, day: 6, month: 1, weekday: 1 };
    assert!(e.matches(&monday_0930));
    assert!(!e.matches(&sunday_0930));
    assert!(!e.matches(&monday_0931));
}

#[test]
fn cron_day_of_week_seven_is_sunday() {
    let e = CronExpr::parse("0 0 * * 7").unwrap();
    let sunday = WallClock { minute: 0, hour: 0, day: 5, month: 1, weekday: 0 };
    assert!(e.matches(&sunday));
}

use lure::agent::turn::{tool_arguments, tool_calls_to_json, tool_result_for, ToolCall};

fn call(name: &str, args: &str) -> ToolCall {
    ToolCall { id: "call_1".into(), name: name.into(), arguments: args.into() }
}

#[test]
fn tool_arguments_are_checked() {
    assert_eq!(tool_arguments(&call("grep", "  ")).ok().unwrap(), "{}");
    assert_eq!(tool_arguments(&call("grep", "{\"q\":1}")).ok().unwrap(), "{\"q\":1}");
    let e = tool_arguments(&call("grep", "{oops")).err().unwrap();
    assert!(e.starts_with("工具 'grep' 参数不是合法 JSON: "), "{e}");
    assert_eq!(tool_result_for(&call("grep", "{}"), Ok(" ".into())), "(grep completed with no output)");
    assert_eq!(tool_result_for(&call("grep", "{}"), Err("boom".into())), "boom");
}

#[test]
fn tool_calls_serialize_like_openai() {
    let calls = vec![call("grep", "{\"q\":\"x\"}"), ToolCall { id: "c2".into(), name: "ls".into(), arguments: "{}".into() }];
    let text = tool_calls_to_json(&calls);
    let parsed: serde_json::Value = serde_json::from_str(&text).unwrap();
    let expected: serde_json::Value = serde_json::from_str(
        r#"[{"id":"call_1","type":"function","function":{"name":"grep","arguments":"{\"q\":\"x\"}"}},
            {"id":"c2","type":"function","function":{"name":"ls","arguments":"{}"}}]"#,
    )
    .unwrap();
    assert_eq!(parsed, expected);
    assert_eq!(tool_calls_to_json(&Vec::new()), "[]");
}
