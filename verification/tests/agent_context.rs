use lure::agent::context::{
    identity, is_empty_memory_template, load_bootstrap_files, truncate_utf8, ContextBuilder, HistoryMessage,
    PromptBuildOptions, PromptEnvironment,
};
use lure::agent::skills::{strip_frontmatter, KnownRequirements, SkillFile, SkillMeta, SkillsLoader};
use lure::agent::templates::{DEFAULT_AGENTS, DEFAULT_USER};
use lure::memory::store::{HistoryEntry, MemoryStore};

fn meta(desc: Option<&str>, always: bool, bins: &[&str]) -> Option<SkillMeta> {
    Some(SkillMeta {
        description: desc.map(|s| s.to_string()),
        always,
        payload_always: false,
        bins: bins.iter().map(|s| s.to_string()).collect(),
        env: Vec::new(),
    })
}

fn skill(root: &str, name: &str, source: &str, content: &str, m: Option<SkillMeta>) -> SkillFile {
    SkillFile {
        name: name.into(),
        path: format!("{root}/{name}/SKILL.md"),
        source: source.into(),
        content: content.into(),
        meta: m,
    }
}

fn probe(bins: &[&str]) -> KnownRequirements {
    KnownRequirements { bins: bins.iter().map(|s| s.to_string()).collect(), env: Vec::new() }
}

fn loader(disabled: &[&str], bins: &[&str]) -> SkillsLoader<KnownRequirements> {
    let mut l = SkillsLoader::new(
        "/ws",
        Some("/builtin".to_string()),
        disabled.iter().map(|s| s.to_string()).collect(),
        probe(bins),
    );
    l.load(
        vec![
            skill("/ws/skills", "notes", "workspace", "---\ndescription: Take notes\nalways: true\n---\n\nNotes body\n", meta(Some("Take notes"), true, &[])),
            skill("/ws/skills", "weather", "workspace", "# Weather\n", None),
        ],
        vec![
            skill("/builtin", "weather", "builtin", "builtin weather", meta(Some("Builtin weather"), false, &[])),
            skill("/builtin", "github", "builtin", "---\ndescription: GitHub\n---\nUse gh.", meta(Some("GitHub"), false, &["gh"])),
        ],
    );
    l
}

fn names(l: &SkillsLoader<KnownRequirements>, filter: bool) -> Vec<String> {
    l.list_skills(filter).into_iter().map(|e| e.name).collect()
}

#[test]
fn workspace_skills_shadow_builtin_and_disabled_are_left_out() {
    let l = loader(&[], &[]);
    assert_eq!(names(&l, false), vec!["notes", "weather", "github"]);
    assert_eq!(names(&l, true), vec!["notes", "weather"]);
    assert_eq!(l.load_skill("weather").as_deref(), Some("# Weather\n"));
    let l = loader(&["notes"], &["gh"]);
    assert_eq!(names(&l, true), vec!["weather", "github"]);
}

#[test]
fn skill_requirements_and_availability() {
    let l = loader(&[], &[]);
    assert_eq!(l.get_skill_availability("github"), (false, "CLI: gh".to_string()));
    assert_eq!(l.get_skill_availability("notes"), (true, String::new()));
    let r = l.get_skill_requirements("github");
    assert_eq!(r.bins, vec!["gh".to_string()]);
    assert_eq!(r.missing_bins, vec!["gh".to_string()]);
    assert!(r.env.is_empty());
    assert_eq!(l.skill_description("notes"), "Take notes");
    assert_eq!(l.skill_description("weather"), "weather");
    assert_eq!(l.get_always_skills(), vec!["notes".to_string()]);
    assert!(l.get_skill_metadata("weather").is_none());
}

#[test]
fn frontmatter_is_stripped_for_context() {
    assert_eq!(strip_frontmatter("---\na: 1\n---\n\n  Body \n"), "Body");
    assert_eq!(strip_frontmatter("No frontmatter\n"), "No frontmatter\n");
    assert_eq!(strip_frontmatter("---\nunterminated"), "---\nunterminated");
    let l = loader(&[], &[]);
    assert_eq!(
        l.load_skills_for_context(&vec!["notes".to_string(), "missing".to_string(), "weather".to_string()]),
        "### Skill: notes\n\nNotes body\n\n---\n\n### Skill: weather\n\n# Weather\n"
    );
}

#[test]
fn explicit_skill_references() {
    let l = loader(&[], &[]);
    assert_eq!(
        l.get_explicitly_invoked_skills("use $weather and $github and $weather, not $HOME"),
        vec!["weather".to_string()]
    );
    assert!(l.get_explicitly_invoked_skills("").is_empty());
}

#[test]
fn skills_summary_groups_by_source() {
    let l = loader(&[], &[]);
    let s = l.build_skills_summary(None);
    assert_eq!(
        s,
        "### Workspace skills (`/ws/skills`)\n- **notes** — Take notes  `notes/SKILL.md`\n- **weather** — weather  `weather/SKILL.md`\n\n### Built-in skills (`/builtin`)\n- **github** — GitHub (unavailable: CLI: gh)  `github/SKILL.md`"
    );
    let ex = vec!["notes".to_string(), "weather".to_string()];
    assert_eq!(
        l.build_skills_summary(Some(&ex)),
        "### Built-in skills (`/builtin`)\n- **github** — GitHub (unavailable: CLI: gh)  `github/SKILL.md`"
    );
}

#[test]
fn truncation_keeps_characters_whole() {
    assert_eq!(truncate_utf8("short", 100), "short");
    let t = truncate_utf8(&"é".repeat(20), 20);
    assert_eq!(t, "éé\n... (truncated)");
    assert!(t.len() <= 20);
    let t = truncate_utf8(&"a".repeat(30), 20);
    assert_eq!(t, "aaaa\n... (truncated)");
}

#[test]
fn memory_template_detection() {
    assert!(is_empty_memory_template("  # Memory\n"));
    assert!(is_empty_memory_template(""));
    assert!(is_empty_memory_template("# Long-term Memory"));
    assert!(!is_empty_memory_template("# Memory\n- likes tea"));
}

#[test]
fn identity_and_bootstrap_sections() {
    let id = identity("/ws", "macos", "aarch64", Some("telegram"));
    assert!(id.starts_with("## Runtime\nmacOS aarch64, Rust\n\n## Workspace\nYour current project workspace is at: /ws\n"));
    assert!(id.contains("## Platform Policy (POSIX)"));
    assert!(id.contains("This conversation is on a messaging app."));
    assert!(identity("C:/ws", "windows", "x86_64", None).contains("## Platform Policy (Windows)"));
    let boot = load_bootstrap_files(
        &Some(DEFAULT_AGENTS.to_string()),
        &Some("I am Lure.".to_string()),
        &Some(format!("\n{DEFAULT_USER}\n")),
    );
    assert_eq!(boot, "## SOUL.md\n\nI am Lure.");
    assert_eq!(load_bootstrap_files(&None, &Some("  ".into()), &None), "");
}

fn env() -> PromptEnvironment {
    PromptEnvironment {
        workspace_abs: "/ws".into(),
        os: "linux".into(),
        arch: "x86_64".into(),
        agents: None,
        soul: Some("I am Lure.".into()),
        user: None,
        tool_contract: "\n# Tools\nUse tools.\n".into(),
    }
}

fn options(msg: &str, summary: Option<&str>) -> PromptBuildOptions {
    PromptBuildOptions {
        current_message: msg.into(),
        channel: Some("cli".into()),
        session_key: Some("cli:direct".into()),
        session_summary: summary.map(|s| s.to_string()),
    }
}

#[test]
fn system_prompt_sections_in_order() {
    let mut mem = MemoryStore::new("/ws");
    mem.load(
        "# Memory\n- likes tea".into(),
        String::new(),
        String::new(),
        vec![
            HistoryEntry { cursor: 1, timestamp: "2024-01-01 10:00".into(), content: "hi".into(), session_key: Some("cli:direct".into()) },
            HistoryEntry { cursor: 2, timestamp: "2024-01-01 10:01".into(), content: "other".into(), session_key: Some("tg:1".into()) },
        ],
        "2".into(),
        String::new(),
    );
    let l = loader(&[], &[]);
    let b = ContextBuilder::for_workspace("/ws");
    let p = b.build_system_prompt(&options("try $weather", Some("earlier talk")), &env(), Some(&mem), Some(&l)).unwrap();
    let sections: Vec<&str> = p.split("\n\n---\n\n").collect();
    assert!(sections[0].starts_with("## Runtime\nlinux x86_64, Rust"));
    assert_eq!(sections[1], "## SOUL.md\n\nI am Lure.");
    assert_eq!(sections[2], "# Tools\nUse tools.");
    assert_eq!(sections[3], "# Memory\n\n## Long-term Memory\n# Memory\n- likes tea");
    assert_eq!(sections[4], "# Active Skills\n\n### Skill: notes\n\nNotes body");
    assert_eq!(sections[5], "### Skill: weather\n\n# Weather\n");
    assert!(sections[6].starts_with("# Skills\n\nThe following skills extend your capabilities."));
    assert!(sections[6].contains("github"));
    assert!(!sections[6].contains("**notes**"));
    assert_eq!(sections[7], "# Recent History\n\n- [2024-01-01 10:00] hi");
    assert_eq!(sections[8], "[Archived Context Summary]\n\nearlier talk");
    assert_eq!(sections.len(), 9);
    let plain = ContextBuilder::new(Some("be brief".into()));
    assert_eq!(
        plain.build_system_prompt::<KnownRequirements>(&options("", None), &env(), None, None).as_deref(),
        Some("be brief")
    );
}

#[test]
fn provider_messages_keep_role_content_and_tool_fields() {
    let b = ContextBuilder::new(Some("sys".into())).with_memory(Some(String::new()));
    let history = vec![
        HistoryMessage { role: None, content: None, tool_calls: None, tool_call_id: None },
        HistoryMessage {
            role: Some("tool".into()),
            content: Some("\"done\"".into()),
            tool_calls: None,
            tool_call_id: Some("\"call_1\"".into()),
        },
    ];
    let out = b.build(&history);
    assert_eq!(out.len(), 3);
    assert_eq!((out[0].role.as_str(), out[0].content.as_str()), ("system", "\"sys\""));
    assert_eq!((out[1].role.as_str(), out[1].content.as_str()), ("user", "\"\""));
    assert_eq!(out[2].tool_call_id.as_deref(), Some("\"call_1\""));
    let with_mem = ContextBuilder::new(None).with_memory(Some("facts".into()));
    assert_eq!(with_mem.build(&Vec::new())[0].content, "\"facts\"");
}

#[test]
fn skill_command_lists_skills() {
    let l = loader(&[], &[]);
    assert_eq!(
        l.skill_command_reply(),
        "Available skills (3):\n\n- **notes** — Take notes\n- **weather** — weather\n- **github** — GitHub"
    );
    let mut empty = SkillsLoader::new("/ws", None, Vec::new(), probe(&[]));
    empty.load(Vec::new(), Vec::new());
    assert_eq!(empty.skill_command_reply(), "No skills available.");
}
