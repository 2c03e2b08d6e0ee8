use lure::agent::turn::{ProgressEvent, TurnOutcome};
use lure::cli_args::{onboard_plan_in, onboard_summary, parse_agent_args, parse_onboard_args};
use lure::interactive::{interactive_banner, next_input, one_shot_output, InputAction, InteractiveTurn};
use lure::provider::{build_provider, ProviderSelection};

fn args(v: &[&str]) -> Vec<String> {
    v.iter().map(|s| s.to_string()).collect()
}

#[test]
fn echo_model_returns_offline_echo_provider() {
    match build_provider(None, None, Some("echo")).unwrap() {
        ProviderSelection::Echo(p) => {
            assert_eq!(p.default_model(), "echo");
            assert_eq!(p.reply("hello"), "echo: hello");
        }
        _ => panic!("--model echo selects the echo provider"),
    }
}

#[test]
fn preset_and_model_are_mutually_exclusive() {
    let err = match build_provider(None, Some("fast"), Some("gpt-4")) {
        Ok(_) => panic!("preset 与 model 同时给出应报错"),
        Err(e) => e,
    };
    assert!(err.contains("互斥"), "错误应说明 preset/model 互斥: {err}");
}

#[test]
fn other_models_are_resolved_from_config() {
    match build_provider(Some("/tmp/c.json"), None, Some("gpt-4")).unwrap() {
        ProviderSelection::Configured { config_path, preset, model } => {
            assert_eq!(config_path.as_deref(), Some("/tmp/c.json"));
            assert_eq!(preset, None);
            assert_eq!(model.as_deref(), Some("gpt-4"));
        }
        _ => panic!("a real model is resolved from the config"),
    }
}

#[test]
fn agent_args_defaults() {
    let a = parse_agent_args(&args(&[])).unwrap();
    assert_eq!(a.message, None);
    assert_eq!(a.session_id, "cli:direct");
    assert!(!a.show_reasoning);
}

#[test]
fn agent_args_all_flags() {
    let a = parse_agent_args(&args(&[
        "-m", "hello", "--session", "cli:custom", "-w", "/ws", "--config", "/c.json", "-p", "fast",
        "--show-reasoning",
    ]))
    .unwrap();
    assert_eq!(a.message.as_deref(), Some("hello"));
    assert_eq!(a.session_id, "cli:custom");
    assert_eq!(a.workspace.as_deref(), Some("/ws"));
    assert_eq!(a.config_path.as_deref(), Some("/c.json"));
    assert_eq!(a.preset.as_deref(), Some("fast"));
    assert_eq!(a.model, None);
    assert!(a.show_reasoning);
    let b = parse_agent_args(&args(&["--model", "echo", "--message", "x", "-m", "y"])).unwrap();
    assert_eq!(b.model.as_deref(), Some("echo"));
    assert_eq!(b.message.as_deref(), Some("y"));
}

#[test]
fn agent_args_errors() {
    assert_eq!(parse_agent_args(&args(&["-m"])).err().unwrap(), "-m 缺少消息内容");
    assert_eq!(parse_agent_args(&args(&["--session"])).err().unwrap(), "--session 缺少会话 ID");
    assert_eq!(parse_agent_args(&args(&["-w"])).err().unwrap(), "--workspace 缺少路径");
    assert_eq!(parse_agent_args(&args(&["-c"])).err().unwrap(), "--config 缺少路径");
    assert_eq!(parse_agent_args(&args(&["--preset"])).err().unwrap(), "--preset 缺少 preset 名");
    assert_eq!(parse_agent_args(&args(&["--model"])).err().unwrap(), "--model 缺少模型名");
    assert_eq!(parse_agent_args(&args(&["--bogus"])).err().unwrap(), "未知参数: --bogus");
    assert_eq!(parse_agent_args(&args(&["-m", "hi", "extra"])).err().unwrap(), "未知参数: extra");
}

#[test]
fn onboard_args() {
    assert_eq!(parse_onboard_args(&args(&[])).unwrap(), None);
    assert_eq!(parse_onboard_args(&args(&["-r", "/data"])).unwrap().as_deref(), Some("/data"));
    assert_eq!(parse_onboard_args(&args(&["--root"])).err().unwrap(), "--root 缺少路径");
    assert_eq!(parse_onboard_args(&args(&["x"])).err().unwrap(), "未知参数: x");
}

#[test]
fn onboard_plan_layout() {
    let p = onboard_plan_in("/data", "/home/u/.lure");
    assert_eq!(p.workspace, "/data/workspace");
    assert_eq!(p.config_path, "/data/config.json");
    assert_eq!(p.config_workspace, "/data/workspace");
    assert_eq!(p.dirs.len(), 11);
    assert_eq!(p.dirs[0], "/data/cli-apps");
    assert_eq!(p.dirs[10], "/data/workspace/triggers");
    assert_eq!(p.files[5].0, "/data/workspace/memory/MEMORY.md");
    assert_eq!(p.files[5].1, "# Memory\n\n");
    assert_eq!(
        onboard_summary(&p),
        "已初始化 Lure 目录: /data\nconfig: /data/config.json\nworkspace: /data/workspace"
    );
    let d = onboard_plan_in("/home/u/.lure/", "/home/u/.lure");
    assert_eq!(d.config_workspace, "~/.lure/workspace");
}

#[test]
fn interactive_input_decisions() {
    assert!(matches!(next_input(None), InputAction::Quit { ref farewell } if farewell == "\nGoodbye!\n"));
    assert!(matches!(next_input(Some(b"   \n")), InputAction::Skip));
    assert!(matches!(next_input(Some(b":Q\r\n")), InputAction::Quit { ref farewell } if farewell == "Goodbye!\n"));
    match next_input(Some(b"  hello \n")) {
        InputAction::Submit { line } => assert_eq!(line, "  hello "),
        _ => panic!("a message is submitted"),
    }
    assert_eq!(
        interactive_banner("cli", "scratch"),
        "Lure interactive mode (cli:scratch) — type exit, quit, /exit, /quit, or :q to quit；Ctrl-C 中断当前回合"
    );
}

fn outcome(content: &str, reasoning: Option<&str>, stop: &str) -> TurnOutcome {
    TurnOutcome {
        final_content: content.to_string(),
        reasoning: reasoning.map(|s| s.to_string()),
        progress: Vec::new(),
        stop_reason: stop.to_string(),
        usage: Vec::new(),
    }
}

#[test]
fn interactive_turn_streams_and_finishes() {
    let mut t = InteractiveTurn::new(false);
    let e = t.on_event(&ProgressEvent::ContentDelta { text: "echo: ".into() }, false);
    assert!(e.suspend && !e.resume);
    assert_eq!(e.stdout, "Assistant: echo: ");
    let e = t.on_event(&ProgressEvent::ContentDelta { text: "hi".into() }, false);
    assert_eq!(e.stdout, "hi");
    let e = t.on_event(&ProgressEvent::ToolInvoked { name: "grep".into() }, false);
    assert!(e.resume);
    assert_eq!(e.stdout, "\n🔧 grep\n");
    let end = t.finish(&Ok(outcome("echo: hi", None, "completed")));
    assert_eq!(end.stdout, "Assistant: echo: hi\n");
    assert_eq!(end.stderr, "");
}

#[test]
fn interactive_turn_interrupt_and_error() {
    let mut t = InteractiveTurn::new(false);
    let e = t.on_event(&ProgressEvent::ContentDelta { text: "late".into() }, true);
    assert!(!e.suspend && e.stdout.is_empty());
    let end = t.finish(&Ok(outcome("", None, "interrupted")));
    assert_eq!(end.stdout, "\n⚠ 已中断当前回合\n");
    let mut t = InteractiveTurn::new(false);
    let end = t.finish(&Err("boom".to_string()));
    assert_eq!(end.stderr, "⚠ 本轮出错: boom\n");
    assert!(end.stdout.is_empty());
}

#[test]
fn interactive_turn_reasoning() {
    let mut t = InteractiveTurn::new(true);
    let e = t.on_event(&ProgressEvent::ReasoningDelta { text: "Think".into() }, false);
    assert!(e.stderr.is_empty());
    let e = t.on_event(&ProgressEvent::ReasoningDelta { text: " hard.".into() }, false);
    assert_eq!(e.stderr, "✻ Think hard.\n");
    t.on_event(&ProgressEvent::ReasoningDelta { text: "rest".into() }, false);
    let end = t.finish(&Ok(outcome("ok", Some("all"), "completed")));
    assert_eq!(end.stderr, "✻ rest\n");
    let mut t = InteractiveTurn::new(true);
    let end = t.finish(&Ok(outcome("ok", Some("all"), "completed")));
    assert_eq!(end.stderr, "💭 思维链:\nall\n\n");
    let one = one_shot_output("echo: hello", &Some("why".to_string()), true);
    assert_eq!(one.stdout, "echo: hello\n");
    assert_eq!(one.stderr, "💭 思维链:\nwhy\n\n");
    let quiet = one_shot_output("echo: hello", &Some("why".to_string()), false);
    assert_eq!(quiet.stderr, "");
}
