//! The built-in slash commands: their table (for help text and command palettes),
//! their registration in a router, and the handlers that need no runtime.

use vstd::prelude::*;

use crate::command::router::{lower_text, table_put, CommandContext, CommandOutput, CommandRouter};
use crate::pairing::store::{command_ok, command_saves, PairingStore};

verus! {

/// How a command interacts with the chat's active turn.
#[derive(PartialEq, Eq, Structural, Clone, Copy, Debug)]
pub enum CommandLifecycle {
    /// Answered on the side; the active turn goes on.
    SideChannel,
    /// The active turn is finished first.
    FinalizeActiveTurn,
    /// The active turn is cancelled.
    StopActiveTurn,
    /// Starts an agent turn with the arguments.
    AgentTurnWithArgs,
}

/// One built-in command.
#[derive(Clone, Copy, Debug)]
pub struct CommandSpec {
    pub command: &'static str,
    pub title: &'static str,
    pub description: &'static str,
    pub icon: &'static str,
    pub arg_hint: &'static str,
    pub lifecycle: CommandLifecycle,
    pub accepts_args: bool,
}

/// A command's table row: command, title, description, icon, argument hint,
/// lifecycle and whether it takes arguments.
pub type SpecRow = (Seq<char>, Seq<char>, Seq<char>, Seq<char>, Seq<char>, CommandLifecycle, bool);

pub open spec fn row(s: CommandSpec) -> SpecRow {
    (s.command@, s.title@, s.description@, s.icon@, s.arg_hint@, s.lifecycle, s.accepts_args)
}

pub open spec fn rows(s: Seq<CommandSpec>) -> Seq<SpecRow> {
    s.map_values(|c: CommandSpec| row(c))
}

/// The built-in commands, in help order.
pub open spec fn builtin_rows() -> Seq<SpecRow> {
    seq![
        ("/new"@, "New chat"@, "Reset this chat and start a fresh conversation."@, "square-pen"@, ""@, CommandLifecycle::FinalizeActiveTurn, false),
        ("/stop"@, "Stop current task"@, "Cancel the active agent turn for this chat."@, "square"@, ""@, CommandLifecycle::StopActiveTurn, false),
        ("/restart"@, "Restart nanobot"@, "Restart the bot process."@, "rotate-cw"@, ""@, CommandLifecycle::SideChannel, false),
        ("/status"@, "Show status"@, "Display runtime, provider, and channel status."@, "activity"@, ""@, CommandLifecycle::SideChannel, false),
        ("/model"@, "Switch model preset"@, "Show or switch the active model preset."@, "brain"@, "[preset]"@, CommandLifecycle::SideChannel, true),
        ("/history"@, "Show conversation history"@, "Print the last N persisted conversation messages."@, "history"@, "[n]"@, CommandLifecycle::SideChannel, true),
        ("/goal"@, "Start long-running goal"@, "Tell the agent to treat the request as a long-running goal."@, "activity"@, "<goal>"@, CommandLifecycle::AgentTurnWithArgs, true),
        ("/trigger"@, "Create named local trigger"@, "Create a named CLI trigger bound to this chat session."@, "zap"@, "<name>"@, CommandLifecycle::SideChannel, true),
        ("/dream"@, "Run Dream"@, "Manually trigger memory consolidation."@, "sparkles"@, ""@, CommandLifecycle::SideChannel, false),
        ("/dream-log"@, "Show Dream log"@, "Show what the last Dream consolidation changed."@, "book-open"@, ""@, CommandLifecycle::SideChannel, true),
        ("/dream-restore"@, "Restore memory"@, "Revert memory to a previous Dream snapshot."@, "undo-2"@, ""@, CommandLifecycle::SideChannel, true),
        ("/dream-prompt"@, "Dream memory"@, "Tell Dream how to organize this workspace's memory."@, "file-text"@, "[init]"@, CommandLifecycle::SideChannel, true),
        ("/evaluator-prompt"@, "Heartbeat evaluator"@, "Customize the heartbeat notification gate prompt for this workspace."@, "file-text"@, "[init]"@, CommandLifecycle::SideChannel, true),
        ("/skill"@, "List skills"@, "List all enabled skills available to the agent."@, "wrench"@, ""@, CommandLifecycle::SideChannel, false),
        ("/help"@, "Show help"@, "List available slash commands."@, "circle-help"@, ""@, CommandLifecycle::SideChannel, false)
    ]
}

/// The `/pairing` command, listed after the others in the help text.
pub open spec fn pairing_row() -> SpecRow {
    ("/pairing"@, "Manage pairing"@, "List, approve, deny or revoke pairing requests."@, "shield"@,
     "[list|approve <code>|deny <code>|revoke <user_id>]"@, CommandLifecycle::SideChannel, true)
}

fn spec_of(
    command: &'static str,
    title: &'static str,
    description: &'static str,
    icon: &'static str,
    arg_hint: &'static str,
    lifecycle: CommandLifecycle,
    accepts_args: bool,
) -> (s: CommandSpec)
    ensures
        row(s) == (command@, title@, description@, icon@, arg_hint@, lifecycle, accepts_args),
{
    CommandSpec { command, title, description, icon, arg_hint, lifecycle, accepts_args }
}

/// The built-in commands, in help order (`/pairing` is listed separately).
pub fn builtin_command_specs() -> (r: Vec<CommandSpec>)
    ensures
        rows(r@) == builtin_rows(),
{
    let mut v: Vec<CommandSpec> = Vec::new();
    v.push(spec_of("/new", "New chat", "Reset this chat and start a fresh conversation.", "square-pen", "", CommandLifecycle::FinalizeActiveTurn, false));
    v.push(spec_of("/stop", "Stop current task", "Cancel the active agent turn for this chat.", "square", "", CommandLifecycle::StopActiveTurn, false));
    v.push(spec_of("/restart", "Restart nanobot", "Restart the bot process.", "rotate-cw", "", CommandLifecycle::SideChannel, false));
    v.push(spec_of("/status", "Show status", "Display runtime, provider, and channel status.", "activity", "", CommandLifecycle::SideChannel, false));
    v.push(spec_of("/model", "Switch model preset", "Show or switch the active model preset.", "brain", "[preset]", CommandLifecycle::SideChannel, true));
    v.push(spec_of("/history", "Show conversation history", "Print the last N persisted conversation messages.", "history", "[n]", CommandLifecycle::SideChannel, true));
    v.push(spec_of("/goal", "Start long-running goal", "Tell the agent to treat the request as a long-running goal.", "activity", "<goal>", CommandLifecycle::AgentTurnWithArgs, true));
    v.push(spec_of("/trigger", "Create named local trigger", "Create a named CLI trigger bound to this chat session.", "zap", "<name>", CommandLifecycle::SideChannel, true));
    v.push(spec_of("/dream", "Run Dream", "Manually trigger memory consolidation.", "sparkles", "", CommandLifecycle::SideChannel, false));
    v.push(spec_of("/dream-log", "Show Dream log", "Show what the last Dream consolidation changed.", "book-open", "", CommandLifecycle::SideChannel, true));
    v.push(spec_of("/dream-restore", "Restore memory", "Revert memory to a previous Dream snapshot.", "undo-2", "", CommandLifecycle::SideChannel, true));
    v.push(spec_of("/dream-prompt", "Dream memory", "Tell Dream how to organize this workspace's memory.", "file-text", "[init]", CommandLifecycle::SideChannel, true));
    v.push(spec_of("/evaluator-prompt", "Heartbeat evaluator", "Customize the heartbeat notification gate prompt for this workspace.", "file-text", "[init]", CommandLifecycle::SideChannel, true));
    v.push(spec_of("/skill", "List skills", "List all enabled skills available to the agent.", "wrench", "", CommandLifecycle::SideChannel, false));
    v.push(spec_of("/help", "Show help", "List available slash commands.", "circle-help", "", CommandLifecycle::SideChannel, false));
    assert(rows(v@) =~= builtin_rows());
    v
}

/// The `/pairing` command's table row.
pub fn pairing_command_spec() -> (s: CommandSpec)
    ensures
        row(s) == pairing_row(),
{
    spec_of("/pairing", "Manage pairing", "List, approve, deny or revoke pairing requests.", "shield",
        "[list|approve <code>|deny <code>|revoke <user_id>]", CommandLifecycle::SideChannel, true)
}

/// A help line: `<command>[ <arg hint>] — <description>`.
pub open spec fn help_line(r: SpecRow) -> Seq<char> {
    let command = if r.4.len() == 0 { r.0 } else { r.0 + " "@ + r.4 };
    command + " \u{2014} "@ + r.2
}

/// The help lines of `rs`, each after a line break.
pub open spec fn help_lines(rs: Seq<SpecRow>) -> Seq<char>
    decreases rs.len(),
{
    if rs.len() == 0 {
        Seq::empty()
    } else {
        help_lines(rs.drop_last()) + "\n"@ + help_line(rs.last())
    }
}

/// The help text shared by all channels.
pub open spec fn help_text_spec() -> Seq<char> {
    "\u{1F408} nanobot commands:"@ + help_lines(builtin_rows().push(pairing_row()))
}

/// The help text shared by all channels: a title, then one line per command.
pub fn build_help_text() -> (r: String)
    ensures
        r@ == help_text_spec(),
{
    let mut specs = builtin_command_specs();
    specs.push(pairing_command_spec());
    let ghost rs = builtin_rows().push(pairing_row());
    assert(rows(specs@) =~= rs);
    let mut out = String::new();
    out.append("\u{1F408} nanobot commands:");
    let mut i: usize = 0;
    while i < specs.len()
        invariant
            i <= specs@.len(),
            rows(specs@) == rs,
            out@ == "\u{1F408} nanobot commands:"@ + help_lines(rs.subrange(0, i as int)),
        decreases specs@.len() - i,
    {
        let s = specs[i];
        assert(row(s) == rs[i as int]);
        out.append("\n");
        out.append(s.command);
        if !s.arg_hint.is_empty() {
            out.append(" ");
            out.append(s.arg_hint);
        }
        out.append(" \u{2014} ");
        out.append(s.description);
        proof {
            let next = rs.subrange(0, i + 1);
            assert(next.drop_last() =~= rs.subrange(0, i as int));
            assert(next.last() == rs[i as int]);
        }
        i = i + 1;
        assert(out@ =~= "\u{1F408} nanobot commands:"@ + help_lines(rs.subrange(0, i as int)));
    }
    assert(rs.subrange(0, rs.len() as int) =~= rs);
    out
}

/// What a registered built-in command does.
#[derive(Clone, Copy, Debug)]
pub enum BuiltinCommand {
    /// A command whose runtime is wired by the application.
    Runtime(&'static str),
    /// `/help`.
    Help,
    /// `/pairing`.
    Pairing,
    /// `/skill`.
    Skill,
}

/// `t` with each entry registered in turn.
pub open spec fn put_all<H>(t: Seq<(Seq<char>, H)>, entries: Seq<(Seq<char>, H)>) -> Seq<(Seq<char>, H)>
    decreases entries.len(),
{
    if entries.len() == 0 {
        t
    } else {
        let prev = put_all(t, entries.drop_last());
        table_put(prev, entries.last().0, entries.last().1)
    }
}

/// `t` with each prefix entry registered in turn, longest first.
pub open spec fn add_prefixes<H>(t: Seq<(Seq<char>, H)>, entries: Seq<(Seq<char>, H)>) -> Seq<(Seq<char>, H)>
    decreases entries.len(),
{
    if entries.len() == 0 {
        t
    } else {
        let prev = add_prefixes(t, entries.drop_last());
        prev.insert(crate::command::router::prefix_slot(prev, entries.last().0.len()), entries.last())
    }
}

/// The priority registrations of the built-in commands.
pub open spec fn builtin_priority() -> Seq<(Seq<char>, BuiltinCommand)> {
    seq![
        (lower_text("/stop"@), BuiltinCommand::Runtime("/stop")),
        (lower_text("/restart"@), BuiltinCommand::Runtime("/restart")),
        (lower_text("/status"@), BuiltinCommand::Runtime("/status"))
    ]
}

/// The exact registrations of the built-in commands.
pub open spec fn builtin_exact() -> Seq<(Seq<char>, BuiltinCommand)> {
    seq![
        (lower_text("/new"@), BuiltinCommand::Runtime("/new")),
        (lower_text("/status"@), BuiltinCommand::Runtime("/status")),
        (lower_text("/model"@), BuiltinCommand::Runtime("/model")),
        (lower_text("/history"@), BuiltinCommand::Runtime("/history")),
        (lower_text("/goal"@), BuiltinCommand::Runtime("/goal")),
        (lower_text("/trigger"@), BuiltinCommand::Runtime("/trigger")),
        (lower_text("/dream"@), BuiltinCommand::Runtime("/dream")),
        (lower_text("/dream-log"@), BuiltinCommand::Runtime("/dream-log")),
        (lower_text("/dream-restore"@), BuiltinCommand::Runtime("/dream-restore")),
        (lower_text("/dream-prompt"@), BuiltinCommand::Runtime("/dream-prompt")),
        (lower_text("/evaluator-prompt"@), BuiltinCommand::Runtime("/evaluator-prompt")),
        (lower_text("/skill"@), BuiltinCommand::Skill),
        (lower_text("/help"@), BuiltinCommand::Help),
        (lower_text("/pairing"@), BuiltinCommand::Pairing)
    ]
}

/// The prefix registrations of the built-in commands.
pub open spec fn builtin_prefixes() -> Seq<(Seq<char>, BuiltinCommand)> {
    seq![
        (lower_text("/model "@), BuiltinCommand::Runtime("/model")),
        (lower_text("/history "@), BuiltinCommand::Runtime("/history")),
        (lower_text("/goal "@), BuiltinCommand::Runtime("/goal")),
        (lower_text("/trigger "@), BuiltinCommand::Runtime("/trigger")),
        (lower_text("/dream-log "@), BuiltinCommand::Runtime("/dream-log")),
        (lower_text("/dream-restore "@), BuiltinCommand::Runtime("/dream-restore")),
        (lower_text("/dream-prompt "@), BuiltinCommand::Runtime("/dream-prompt")),
        (lower_text("/evaluator-prompt "@), BuiltinCommand::Runtime("/evaluator-prompt")),
        (lower_text("/pairing "@), BuiltinCommand::Pairing)
    ]
}

/// Registers the built-in commands: `/stop`, `/restart` and `/status` as priority
/// commands; the others as exact commands, those that take arguments also as
/// `<command> ` prefixes.
pub fn register_builtin_commands(router: &mut CommandRouter<BuiltinCommand>)
    requires
        old(router).wf(),
    ensures
        final(router).wf(),
        final(router).priority_view() == put_all(old(router).priority_view(), builtin_priority()),
        final(router).exact_view() == put_all(old(router).exact_view(), builtin_exact()),
        final(router).prefix_view() == add_prefixes(old(router).prefix_view(), builtin_prefixes()),
{
    let ghost p0 = router.priority_view();
    let ghost e0 = router.exact_view();
    let ghost x0 = router.prefix_view();
    router.priority("/stop", BuiltinCommand::Runtime("/stop"));
    router.priority("/restart", BuiltinCommand::Runtime("/restart"));
    router.priority("/status", BuiltinCommand::Runtime("/status"));
    router.exact("/new", BuiltinCommand::Runtime("/new"));
    router.exact("/status", BuiltinCommand::Runtime("/status"));
    router.exact("/model", BuiltinCommand::Runtime("/model"));
    router.prefix("/model ", BuiltinCommand::Runtime("/model"));
    router.exact("/history", BuiltinCommand::Runtime("/history"));
    router.prefix("/history ", BuiltinCommand::Runtime("/history"));
    router.exact("/goal", BuiltinCommand::Runtime("/goal"));
    router.prefix("/goal ", BuiltinCommand::Runtime("/goal"));
    router.exact("/trigger", BuiltinCommand::Runtime("/trigger"));
    router.prefix("/trigger ", BuiltinCommand::Runtime("/trigger"));
    router.exact("/dream", BuiltinCommand::Runtime("/dream"));
    router.exact("/dream-log", BuiltinCommand::Runtime("/dream-log"));
    router.prefix("/dream-log ", BuiltinCommand::Runtime("/dream-log"));
    router.exact("/dream-restore", BuiltinCommand::Runtime("/dream-restore"));
    router.prefix("/dream-restore ", BuiltinCommand::Runtime("/dream-restore"));
    router.exact("/dream-prompt", BuiltinCommand::Runtime("/dream-prompt"));
    router.prefix("/dream-prompt ", BuiltinCommand::Runtime("/dream-prompt"));
    router.exact("/evaluator-prompt", BuiltinCommand::Runtime("/evaluator-prompt"));
    router.prefix("/evaluator-prompt ", BuiltinCommand::Runtime("/evaluator-prompt"));
    router.exact("/skill", BuiltinCommand::Skill);
    router.exact("/help", BuiltinCommand::Help);
    router.exact("/pairing", BuiltinCommand::Pairing);
    router.prefix("/pairing ", BuiltinCommand::Pairing);
    proof {
        reveal_with_fuel(put_all, 15);
        reveal_with_fuel(add_prefixes, 10);
        let bp = builtin_priority();
        let be = builtin_exact();
        let bx = builtin_prefixes();
        assert(bp.drop_last().drop_last().drop_last() =~= Seq::<(Seq<char>, BuiltinCommand)>::empty());
        assert(bp.drop_last().drop_last().last() == bp[0]);
        assert(bp.drop_last().last() == bp[1]);
        assert(bp.last() == bp[2]);
    }
}

/// The metadata key that marks pairing command replies.
pub const PAIRING_COMMAND_META_KEY: &'static str = "_pairing_command";

/// The `/help` reply: the help text, rendered as plain text.
pub fn help_output(ctx: &CommandContext) -> (o: CommandOutput)
    ensures
        o.channel == ctx.channel,
        o.chat_id == ctx.chat_id,
        o.content@ == help_text_spec(),
        o.metadata@.len() == 1,
        o.metadata@[0].0@ == "render_as"@,
        o.metadata@[0].1@ == "\"text\""@,
{
    let o = CommandOutput::text(ctx, build_help_text());
    let mut o2 = o;
    o2.metadata.push(("render_as".to_owned(), "\"text\"".to_owned()));
    o2
}

/// The `/pairing` reply: the store's answer to the command's arguments, marked as a
/// pairing command reply.
pub fn pairing_output(ctx: &CommandContext, store: &mut PairingStore, now_ms: i64) -> (o: CommandOutput)
    requires
        old(store).wf(),
    ensures
        final(store).wf(),
        final(store).path_view() == old(store).path_view(),
        o.channel == ctx.channel,
        o.chat_id == ctx.chat_id,
        command_ok(old(store).data_view(), final(store).data_view(), ctx.channel@, ctx.args@, now_ms, o.content@),
        final(store).dirty_view()
            == (old(store).dirty_view() || command_saves(old(store).data_view(), ctx.channel@, ctx.args@, now_ms)),
        o.metadata@.len() == 1,
        o.metadata@[0].0@ == PAIRING_COMMAND_META_KEY@,
        o.metadata@[0].1@ == "true"@,
{
    let reply = store.handle_pairing_command(ctx.channel.as_str(), ctx.args.as_str(), now_ms);
    let mut o = CommandOutput::text(ctx, reply);
    o.metadata.push((PAIRING_COMMAND_META_KEY.to_owned(), "true".to_owned()));
    o
}

/// The reply of a registered command whose runtime is not wired in yet.
pub fn pending_output(ctx: &CommandContext, cmd: &str) -> (o: CommandOutput)
    ensures
        o.channel == ctx.channel,
        o.chat_id == ctx.chat_id,
        o.content@ == "命令 `"@ + cmd@ + "` 已登记但尚未在 lure 接入（随对应运行时/子系统落地）。"@,
        o.metadata@.len() == 0,
{
    let mut s = String::new();
    s.append("命令 `");
    s.append(cmd);
    s.append("` 已登记但尚未在 lure 接入（随对应运行时/子系统落地）。");
    CommandOutput::text(ctx, s)
}

} // verus!
