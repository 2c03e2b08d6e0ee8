use lure::agent::subagent::{register_spawn, SubagentPhase, SubagentRegistry};
use lure::agent::turn::TurnState;
use lure::cli::ReasoningBuffer;
use lure::interactive::InteractiveTurn;
use lure::agent::turn::ProgressEvent;
use lure::agent::skills::{
    frontmatter_body, metadata_text, skill_meta_of, KnownRequirements, SkillFile, SkillMeta, SkillsLoader,
};
use lure::api::{answer_chat, ChatRunError, ChatRunner, ServerConfig};
use lure::cron::expr::{CronExpr, WallClock};
use lure::doc::DocValue;
use lure::memory::store::MemoryStore;
use lure::memory::strip::finish_strip;
use lure::pairing::data::PendingEntry;
use lure::pairing::store::{PairingStore, DEFAULT_TTL_MS};

fn s(t: &str) -> DocValue {
    DocValue::Str(t.to_string())
}

fn map(entries: Vec<(&str, DocValue)>) -> DocValue {
    DocValue::Mapping(entries.into_iter().map(|(k, v)| (k.to_string(), v)).collect())
}

fn num(n: u64) -> DocValue {
    DocValue::Number { unsigned: Some(n), nonzero: n != 0 }
}

#[test]
fn frontmatter_body_is_the_yaml_block() {
    let text = "---\ndescription: Notes\nalways: true\n---\n\nBody\n";
    assert_eq!(frontmatter_body(text), Some("description: Notes\nalways: true".to_string()));
    assert_eq!(frontmatter_body("# No frontmatter\n"), None);
    assert_eq!(frontmatter_body("---\nunterminated: yes\n"), None);
}

#[test]
fn skill_meta_reads_top_level_and_nanobot_payload() {
    let doc = map(vec![
        ("description", s("Weather lookups")),
        ("always", num(1)),
        (
            "metadata",
            map(vec![
                (
                    "nanobot",
                    map(vec![
                        ("always", s("")),
                        ("requires", map(vec![("bins", DocValue::List(vec![s("curl"), num(3), s("jq")])), ("env", DocValue::List(vec![s("API_KEY")]))])),
                    ]),
                ),
                ("openclaw", map(vec![("always", DocValue::Bool(true))])),
            ]),
        ),
    ]);
    let m = skill_meta_of(&doc, None).unwrap();
    assert_eq!(m.description, Some("Weather lookups".to_string()));
    assert!(m.always);
    assert!(!m.payload_always);
    assert_eq!(m.bins, vec!["curl".to_string(), "jq".to_string()]);
    assert_eq!(m.env, vec!["API_KEY".to_string()]);
    assert!(skill_meta_of(&DocValue::List(vec![]), None).is_none());
}

#[test]
fn skill_meta_falls_back_to_openclaw_and_reads_string_metadata() {
    let doc = map(vec![("metadata", map(vec![("openclaw", map(vec![("always", num(2))]))]))]);
    let m = skill_meta_of(&doc, None).unwrap();
    assert!(m.payload_always);
    assert!(!m.always);
    assert_eq!(m.description, None);

    let doc = map(vec![("metadata", s("{\"nanobot\":{\"always\":true}}"))]);
    assert_eq!(metadata_text(&doc), Some("{\"nanobot\":{\"always\":true}}".to_string()));
    let parsed = map(vec![("nanobot", map(vec![("always", DocValue::Bool(true))]))]);
    assert!(skill_meta_of(&doc, Some(&parsed)).unwrap().payload_always);
    assert!(!skill_meta_of(&doc, None).unwrap().payload_always);

    let doc = map(vec![("metadata", map(vec![("nanobot", s("not a mapping")), ("openclaw", map(vec![("always", DocValue::Bool(true))]))]))]);
    assert!(!skill_meta_of(&doc, None).unwrap().payload_always);
    assert_eq!(metadata_text(&doc), None);
}

#[test]
fn history_records_keep_only_well_formed_objects() {
    let good = map(vec![("cursor", num(7)), ("timestamp", s("2025-01-01 10:00")), ("content", s("hi")), ("session_key", s("cli:a"))]);
    let e = MemoryStore::parse_entry(&good).unwrap();
    assert_eq!((e.cursor, e.timestamp.as_str(), e.content.as_str()), (7, "2025-01-01 10:00", "hi"));
    assert_eq!(e.session_key, Some("cli:a".to_string()));
    let null_key = map(vec![("cursor", num(1)), ("timestamp", s("t")), ("content", s("c")), ("session_key", DocValue::Null)]);
    assert_eq!(MemoryStore::parse_entry(&null_key).unwrap().session_key, None);
    let bad_key = map(vec![("cursor", num(1)), ("timestamp", s("t")), ("content", s("c")), ("session_key", num(5))]);
    assert!(MemoryStore::parse_entry(&bad_key).is_none());
    let negative = map(vec![("cursor", DocValue::Number { unsigned: None, nonzero: true }), ("timestamp", s("t")), ("content", s("c"))]);
    assert!(MemoryStore::parse_entry(&negative).is_none());
    let bool_cursor = map(vec![("cursor", DocValue::Bool(true)), ("timestamp", s("t")), ("content", s("c"))]);
    assert!(MemoryStore::parse_entry(&bool_cursor).is_none());
    assert!(MemoryStore::parse_entry(&s("not an object")).is_none());
}

struct FixedRunner(Result<String, String>, Vec<(String, String)>);

impl ChatRunner for FixedRunner {
    fn run(&mut self, session_key: &str, text: &str) -> Result<String, ChatRunError> {
        self.1.push((session_key.to_string(), text.to_string()));
        self.0.clone().map_err(ChatRunError)
    }
}

#[test]
fn chat_answer_carries_the_reply_or_a_server_error() {
    let config = ServerConfig { model: "lure".to_string(), api_key: None };
    let mut ok = FixedRunner(Ok("Hello \"there\"".to_string()), Vec::new());
    let r = answer_chat(&config, &mut ok, "api:default", "hi");
    assert_eq!(r.status, 200);
    assert!(!r.event_stream);
    assert!(r.body.contains("\"content\":\"Hello \\\"there\\\"\""));
    assert!(r.body.contains("\"model\":\"lure\""));
    assert_eq!(ok.1, vec![("api:default".to_string(), "hi".to_string())]);
    let mut bad = FixedRunner(Err("down".to_string()), Vec::new());
    let r = answer_chat(&config, &mut bad, "api:x", "hi");
    assert_eq!(r.status, 500);
    assert!(r.body.contains("Internal server error"));
}

#[test]
fn strip_finish_trims_trailing_whitespace() {
    assert_eq!(finish_strip("Answer \n\t "), "Answer");
    assert_eq!(finish_strip("  kept leading"), "  kept leading");
}

#[test]
fn cron_day_fields_combine_by_or_and_seven_is_sunday() {
    let e = CronExpr::parse("0 0 13 * 5").unwrap();
    let friday_12 = WallClock { minute: 0, hour: 0, day: 12, month: 12, weekday: 5 };
    let saturday_13 = WallClock { minute: 0, hour: 0, day: 13, month: 12, weekday: 6 };
    let sunday_14 = WallClock { minute: 0, hour: 0, day: 14, month: 12, weekday: 0 };
    assert!(e.matches(&friday_12));
    assert!(e.matches(&saturday_13));
    assert!(!e.matches(&sunday_14));
    let dom_only = CronExpr::parse("0 0 13 * *").unwrap();
    assert!(!dom_only.matches(&friday_12));
    assert!(dom_only.matches(&saturday_13));
    let seven = CronExpr::parse("0 0 * * 7").unwrap();
    assert!(seven.matches(&sunday_14));
    assert!(!seven.matches(&saturday_13));
}

#[test]
fn dream_cursor_reads_back_what_was_set() {
    let mut m = MemoryStore::new("/ws");
    assert_eq!(m.get_last_dream_cursor(), 0);
    m.set_last_dream_cursor(42);
    assert_eq!(m.get_last_dream_cursor(), 42);
    m.set_last_dream_cursor(u64::MAX);
    assert_eq!(m.get_last_dream_cursor(), u64::MAX);
}

#[test]
fn approved_code_leaves_the_pending_list() {
    let mut st = PairingStore::new("/tmp/pairing.json");
    let code = st.generate_code("telegram", "u1", DEFAULT_TTL_MS, 0);
    let other = st.generate_code("telegram", "u2", DEFAULT_TTL_MS, 0);
    assert!(st.approve_code(&code, 10).is_some());
    let pending = st.list_pending(20);
    assert!(pending.iter().all(|p| p.code != code));
    assert!(pending.iter().any(|p| p.code == other));
}

#[test]
fn channel_counts_match_the_lists_cleared() {
    let mut st = PairingStore::new("/tmp/pairing.json");
    st.load_approved("qq".to_string(), "b".to_string());
    st.load_approved("qq".to_string(), "a".to_string());
    st.load_approved("telegram".to_string(), "c".to_string());
    let before = st.get_approved("qq");
    assert_eq!(st.revoke_channel("qq"), before.len());
    assert!(st.get_approved("qq").is_empty());
    assert_eq!(st.get_approved("telegram"), vec!["c".to_string()]);

    st.load_approved("telegram".to_string(), "d".to_string());
    st.load_pending(
        "AAAA-0001".to_string(),
        PendingEntry { channel: "telegram".into(), sender_id: "x".into(), created_at_ms: 0, expires_at_ms: 0 },
    );
    st.load_pending(
        "AAAA-0002".to_string(),
        PendingEntry { channel: "qq".into(), sender_id: "y".into(), created_at_ms: 0, expires_at_ms: 0 },
    );
    let approved = st.get_approved("telegram").len();
    let counts = st.clear_channel("telegram");
    assert_eq!((counts.approved, counts.pending), (approved, 1));
}

fn file(root: &str, name: &str, source: &str, meta: Option<SkillMeta>) -> SkillFile {
    SkillFile {
        name: name.into(),
        path: format!("{root}/{name}/SKILL.md"),
        source: source.into(),
        content: String::new(),
        meta,
    }
}

fn needs(bins: &[&str], env: &[&str]) -> Option<SkillMeta> {
    Some(SkillMeta {
        description: None,
        always: false,
        payload_always: false,
        bins: bins.iter().map(|s| s.to_string()).collect(),
        env: env.iter().map(|s| s.to_string()).collect(),
    })
}

#[test]
fn filtered_listing_and_availability_follow_the_requirements() {
    let probe = KnownRequirements { bins: vec!["git".to_string()], env: vec!["HOME".to_string()] };
    let mut l = SkillsLoader::new("/ws", Some("/b".to_string()), Vec::new(), probe);
    l.load(
        vec![file("/ws/skills", "a", "workspace", needs(&["git"], &[])), file("/ws/skills", "b", "workspace", needs(&["gh"], &["TOKEN"]))],
        vec![file("/b", "a", "builtin", None), file("/b", "c", "builtin", needs(&[], &["HOME"]))],
    );
    let all: Vec<String> = l.list_skills(false).into_iter().map(|e| e.name).collect();
    let ok: Vec<String> = l.list_skills(true).into_iter().map(|e| e.name).collect();
    assert_eq!(all, vec!["a", "b", "c"]);
    assert_eq!(ok, vec!["a", "c"]);
    let (avail, why) = l.get_skill_availability("b");
    let req = l.get_skill_requirements("b");
    assert!(!avail);
    assert_eq!((req.missing_bins.clone(), req.missing_env.clone()), (vec!["gh".to_string()], vec!["TOKEN".to_string()]));
    assert_eq!(why, "CLI: gh, ENV: TOKEN");
    assert_eq!(l.get_skill_availability("a"), (true, String::new()));
}

#[test]
fn spawned_subagent_records_its_status() {
    let mut r = SubagentRegistry::new();
    let id = register_spawn(&mut r, "cli:a", "read the docs", None, 1234);
    let st = r.status(&id).unwrap();
    assert_eq!(st.task_id, id);
    assert_eq!(st.label, "subagent");
    assert_eq!(st.task_description, "read the docs");
    assert_eq!(st.started_at_ms, 1234);
    assert_eq!(st.phase, SubagentPhase::Initializing);
    let id2 = register_spawn(&mut r, "cli:a", "other", Some("Docs"), 5);
    assert_eq!(r.status(&id2).unwrap().label, "Docs");
}

#[test]
fn shown_reasoning_goes_to_stderr_by_sentence() {
    let mut t = InteractiveTurn::new(true);
    let e = t.on_event(&ProgressEvent::ReasoningDelta { text: "Weigh it".into() }, false);
    assert!(!e.suspend);
    assert_eq!(e.stderr, "");
    let e = t.on_event(&ProgressEvent::ReasoningDelta { text: " first!".into() }, false);
    assert!(e.suspend);
    assert_eq!(e.stderr, "✻ Weigh it first!\n");
    let e = t.on_event(&ProgressEvent::ReasoningDelta { text: "   \n".into() }, false);
    assert!(!e.suspend);
    assert_eq!(e.stderr, "");
    let mut b = ReasoningBuffer::new();
    assert_eq!(b.add("a line\n"), Some("a line".to_string()));
}

#[test]
fn pairing_command_marks_the_store_for_saving_only_on_change() {
    let mut st = PairingStore::new("/tmp/pairing.json");
    let code = st.generate_code("telegram", "u1", DEFAULT_TTL_MS, 0);
    st.mark_saved();
    st.handle_pairing_command("telegram", "list", 10);
    assert!(!st.needs_save());
    st.handle_pairing_command("telegram", "approve NOPE-NOPE", 10);
    assert!(!st.needs_save());
    st.handle_pairing_command("telegram", &format!("approve {code}"), 10);
    assert!(st.needs_save());
    st.mark_saved();
    st.handle_pairing_command("telegram", "revoke nobody", 10);
    assert!(!st.needs_save());
    st.handle_pairing_command("telegram", "revoke u1", 10);
    assert!(st.needs_save());
}

#[test]
fn turn_checks_reported_usage_fits() {
    let turn = TurnState::start("cli:a".to_string());
    assert!(turn.response_fits(&Vec::new()));
    assert!(turn.response_fits(&vec![("prompt_tokens".to_string(), 5)]));
    assert!(turn.response_fits(&vec![("t".to_string(), i64::MAX), ("u".to_string(), 1)]));
    assert!(!turn.response_fits(&vec![("t".to_string(), i64::MAX), ("t".to_string(), 1)]));
}
