# lure

The verified core of the Lure agent framework, written in Verus.

- `src/` — the library, verified against its contracts. The calls it makes into
  outside crates and into parts of std that Verus has no specification for go
  through small trusted wrappers (`#[verifier::external_body]`), whose contracts
  are assumed, not proved:
  - `agent/` — the turn state machine (`turn`), per-session scheduling
    (`scheduler`), the system prompt (`context`), skills (`skills`), subagents
    (`subagent`), busy sessions (`active`) and the workspace templates.
  - `cron/` — cron expressions, schedules, the job store and its service.
  - `pairing/` — sender pairing: codes, approvals and the `/pairing` command.
  - `command/` — slash-command routing and the built-in commands.
  - `memory/` — long-term memory, the history log and its consolidation.
  - `api.rs`, `gateway.rs`, `bus.rs`, `channel/`, `mcp.rs` — the OpenAI-style
    chat endpoint, message orchestration, the message bus, channel access and the
    MCP client's decisions.
  - `cli.rs`, `cli_args.rs`, `interactive.rs`, `provider.rs` — the terminal
    presentation, the command line, the interactive session and provider choice.
  - `text.rs`, `paths.rs`, `doc.rs` — the text, path and document-value handling
    the rest shares.
- `tests/` — tests of the library.
- `app/` — the `lure` binary: file and terminal I/O, signals, the spinner thread,
  the serde forms of the stored files, and YAML/JSON text read into document values.
