use lure::agent::turn::ProgressEvent;
use lure::cli::{
    decode_interactive_line, format_progress_line, is_exit_command, spinner_frame, split_session_id,
    ReasoningBuffer, Spinner, StreamRenderer, SPINNER_FRAME_COUNT,
};

fn rendered(prefix: &str, deltas: &[&str]) -> String {
    let mut buf = String::new();
    let mut renderer = StreamRenderer::new(prefix);
    for d in deltas {
        renderer.push(&mut buf, d);
    }
    renderer.finish(&mut buf);
    buf
}

#[test]
fn stream_renderer_writes_prefix_once_and_trailing_newline() {
    assert_eq!(rendered("Assistant: ", &["echo: ", "hi"]), "Assistant: echo: hi\n");
}

#[test]
fn stream_renderer_no_deltas_writes_nothing() {
    assert_eq!(rendered("Assistant: ", &[]), "");
}

#[test]
fn stream_renderer_reports_whether_started() {
    let mut buf = String::new();
    let mut renderer = StreamRenderer::new("P:");
    assert!(!renderer.started());
    renderer.push(&mut buf, "x");
    assert!(renderer.started());
}

#[test]
fn stream_renderer_line_breaks_content_and_resets_prefix() {
    let mut buf = String::new();
    let mut renderer = StreamRenderer::new("A: ");
    renderer.push(&mut buf, "part-a");
    renderer.line(&mut buf, "🔧 echo");
    renderer.push(&mut buf, "part-b");
    renderer.finish(&mut buf);
    assert_eq!(buf, "A: part-a\n🔧 echo\nA: part-b\n");
}

#[test]
fn stream_renderer_line_before_any_piece_has_no_break() {
    let mut buf = String::new();
    let mut renderer = StreamRenderer::new("A: ");
    renderer.line(&mut buf, "tool");
    assert_eq!(buf, "tool\n");
    assert!(!renderer.started());
}

#[test]
fn spinner_tick_advances_frames_with_carriage_return() {
    let mut buf = String::new();
    let mut spinner = Spinner::new("Working");
    spinner.tick(&mut buf);
    spinner.tick(&mut buf);
    assert_eq!(buf, format!("\r{} Working\r{} Working", spinner_frame(0), spinner_frame(1)));
}

#[test]
fn spinner_reports_active_after_tick() {
    let mut buf = String::new();
    let mut spinner = Spinner::new("Working");
    assert!(!spinner.active());
    spinner.tick(&mut buf);
    assert!(spinner.active());
}

#[test]
fn spinner_clear_erases_line_with_equal_width_spaces() {
    let mut buf = String::new();
    let mut spinner = Spinner::new("Working");
    spinner.tick(&mut buf);
    buf.clear();
    spinner.clear(&mut buf);
    let width = format!("{} Working", spinner_frame(0)).chars().count();
    assert_eq!(buf, format!("\r{}\r", " ".repeat(width)));
    assert!(!spinner.active());
}

#[test]
fn spinner_clear_is_noop_when_inactive() {
    let mut buf = String::new();
    let mut spinner = Spinner::new("Working");
    spinner.clear(&mut buf);
    assert!(buf.is_empty());
    assert!(!spinner.active());
}

#[test]
fn spinner_frame_wraps_after_full_cycle() {
    let mut buf = String::new();
    let mut spinner = Spinner::new("W");
    for _ in 0..SPINNER_FRAME_COUNT {
        spinner.tick(&mut buf);
    }
    buf.clear();
    spinner.tick(&mut buf);
    assert_eq!(buf, format!("\r{} W", spinner_frame(0)));
}

#[test]
fn spinner_frames_are_the_braille_cycle() {
    let frames: String = (0..SPINNER_FRAME_COUNT).map(spinner_frame).collect();
    assert_eq!(frames, "⠋⠙⠹⠸⠼⠴⠦⠧⠇⠏");
}

#[test]
fn reasoning_buffer_holds_until_sentence_boundary() {
    let mut buf = ReasoningBuffer::new();
    assert_eq!(buf.add("The"), None);
    assert_eq!(buf.add(" user asked."), Some("The user asked.".to_string()));
}

#[test]
fn reasoning_buffer_flushes_on_newline() {
    let mut buf = ReasoningBuffer::new();
    assert_eq!(buf.add("partial\n"), Some("partial".to_string()));
}

#[test]
fn reasoning_buffer_flush_returns_remainder_then_none() {
    let mut buf = ReasoningBuffer::new();
    assert_eq!(buf.add("no boundary yet"), None);
    assert_eq!(buf.flush(), Some("no boundary yet".to_string()));
    assert_eq!(buf.flush(), None);
}

#[test]
fn reasoning_buffer_empty_add_is_none() {
    let mut buf = ReasoningBuffer::new();
    assert_eq!(buf.add(""), None);
}

#[test]
fn reasoning_buffer_flushes_on_full_width_stop_and_length() {
    let mut buf = ReasoningBuffer::new();
    assert_eq!(buf.add("好的。"), Some("好的。".to_string()));
    let long = "a".repeat(60);
    assert_eq!(buf.add(&long), Some(long.clone()));
}

#[test]
fn format_progress_line_renders_tool_invoked_only() {
    assert_eq!(
        format_progress_line(&ProgressEvent::ToolInvoked { name: "echo".into() }),
        Some("🔧 echo".to_string())
    );
    assert_eq!(format_progress_line(&ProgressEvent::ContentDelta { text: "x".into() }), None);
    assert_eq!(format_progress_line(&ProgressEvent::FinalResponse { content: "y".into() }), None);
}

#[test]
fn split_session_id_uses_cli_without_colon() {
    assert_eq!(split_session_id("telegram:42"), ("telegram".to_string(), "42".to_string()));
    assert_eq!(split_session_id("a:b:c"), ("a".to_string(), "b:c".to_string()));
    assert_eq!(split_session_id("scratch"), ("cli".to_string(), "scratch".to_string()));
}

#[test]
fn exit_words_in_any_case() {
    for w in ["exit", "QUIT", "/Exit", "/quit", ":q"] {
        assert!(is_exit_command(w), "{w}");
    }
    assert!(!is_exit_command("exit now"));
    assert!(!is_exit_command(":wq"));
}

#[test]
fn decode_interactive_line_drops_line_break_and_replaces_bad_bytes() {
    assert_eq!(decode_interactive_line(b"hello\r\n"), "hello");
    assert_eq!(decode_interactive_line(b"a\xffb\n"), "a\u{FFFD}b");
    assert_eq!(decode_interactive_line(b"  keep  \n\n"), "  keep  ");
}
