//! The command line of `lure agent` and `lure onboard`, and the layout that
//! onboarding creates.

use vstd::prelude::*;

use crate::paths::{join, join_path};
use crate::text::{chars_of, str_eq, string_from};

verus! {

/// The options of `lure agent`.
pub struct AgentArgs {
    /// `-m` / `--message`: a one-shot message (interactive mode without one).
    pub message: Option<String>,
    /// `-s` / `--session`: the session id, `cli:direct` by default.
    pub session_id: String,
    /// `-w` / `--workspace`.
    pub workspace: Option<String>,
    /// `-c` / `--config`.
    pub config_path: Option<String>,
    /// `-p` / `--preset`.
    pub preset: Option<String>,
    /// `--model`.
    pub model: Option<String>,
    /// `--show-reasoning`.
    pub show_reasoning: bool,
}

/// The options of `lure agent` as plain values: message, session, workspace, config,
/// preset, model and whether to show reasoning.
pub type AgentArgsView = (
    Option<Seq<char>>,
    Seq<char>,
    Option<Seq<char>>,
    Option<Seq<char>>,
    Option<Seq<char>>,
    Option<Seq<char>>,
    bool,
);

/// The options as plain values.
pub open spec fn agent_args_view(a: AgentArgs) -> AgentArgsView {
    (
        crate::bus::opt_view(a.message),
        a.session_id@,
        crate::bus::opt_view(a.workspace),
        crate::bus::opt_view(a.config_path),
        crate::bus::opt_view(a.preset),
        crate::bus::opt_view(a.model),
        a.show_reasoning,
    )
}

/// The options before any argument is read.
pub open spec fn agent_defaults() -> AgentArgsView {
    (None, "cli:direct"@, None, None, None, None, false)
}

/// Whether `a` is one of the two spellings of a flag.
pub open spec fn is_flag(a: Seq<char>, short: Seq<char>, long: Seq<char>) -> bool {
    a == short || a == long
}

/// Reads the arguments from index `i` on into the options `st`: each flag that takes
/// a value takes the next argument (the last occurrence wins); an unknown argument,
/// or a flag without its value, is an error.
pub open spec fn agent_parse_from(args: Seq<Seq<char>>, i: int, st: AgentArgsView) -> Result<AgentArgsView, Seq<char>>
    decreases args.len() - i,
{
    if i < 0 || i >= args.len() {
        Ok(st)
    } else {
        let a = args[i];
        let has_value = i + 1 < args.len();
        if is_flag(a, "-m"@, "--message"@) {
            if has_value {
                agent_parse_from(args, i + 2, (Some(args[i + 1]), st.1, st.2, st.3, st.4, st.5, st.6))
            } else {
                Err("-m 缺少消息内容"@)
            }
        } else if is_flag(a, "-s"@, "--session"@) {
            if has_value {
                agent_parse_from(args, i + 2, (st.0, args[i + 1], st.2, st.3, st.4, st.5, st.6))
            } else {
                Err("--session 缺少会话 ID"@)
            }
        } else if is_flag(a, "-w"@, "--workspace"@) {
            if has_value {
                agent_parse_from(args, i + 2, (st.0, st.1, Some(args[i + 1]), st.3, st.4, st.5, st.6))
            } else {
                Err("--workspace 缺少路径"@)
            }
        } else if is_flag(a, "-c"@, "--config"@) {
            if has_value {
                agent_parse_from(args, i + 2, (st.0, st.1, st.2, Some(args[i + 1]), st.4, st.5, st.6))
            } else {
                Err("--config 缺少路径"@)
            }
        } else if is_flag(a, "-p"@, "--preset"@) {
            if has_value {
                agent_parse_from(args, i + 2, (st.0, st.1, st.2, st.3, Some(args[i + 1]), st.5, st.6))
            } else {
                Err("--preset 缺少 preset 名"@)
            }
        } else if a == "--model"@ {
            if has_value {
                agent_parse_from(args, i + 2, (st.0, st.1, st.2, st.3, st.4, Some(args[i + 1]), st.6))
            } else {
                Err("--model 缺少模型名"@)
            }
        } else if a == "--show-reasoning"@ {
            agent_parse_from(args, i + 1, (st.0, st.1, st.2, st.3, st.4, st.5, true))
        } else {
            Err("未知参数: "@ + a)
        }
    }
}

/// Whether `a` is `short` or `long`.
fn flag_is(a: &str, short: &str, long: &str) -> (r: bool)
    ensures
        r == is_flag(a@, short@, long@),
{
    str_eq(a, short) || str_eq(a, long)
}

/// The error `未知参数: <arg>`.
fn unknown_arg(a: &str) -> (r: String)
    ensures
        r@ == "未知参数: "@ + a@,
{
    let mut s = String::new();
    s.append("未知参数: ");
    s.append(a);
    s
}

/// Parses the arguments of `lure agent` (after the subcommand): `-m`/`--message`,
/// `-s`/`--session`, `-w`/`--workspace`, `-c`/`--config`, `-p`/`--preset` and
/// `--model` each take the next argument, `--show-reasoning` none.
pub fn parse_agent_args(args: &Vec<String>) -> (r: Result<AgentArgs, String>)
    ensures
        match r {
            Ok(a) => agent_parse_from(crate::text::texts(args@), 0, agent_defaults()) == Ok::<AgentArgsView, Seq<char>>(agent_args_view(a)),
            Err(e) => agent_parse_from(crate::text::texts(args@), 0, agent_defaults()) == Err::<AgentArgsView, Seq<char>>(e@),
        },
{
    let ghost ts = crate::text::texts(args@);
    let mut out = AgentArgs {
        message: None,
        session_id: "cli:direct".to_owned(),
        workspace: None,
        config_path: None,
        preset: None,
        model: None,
        show_reasoning: false,
    };
    let mut i: usize = 0;
    while i < args.len()
        invariant
            i <= args@.len(),
            ts == crate::text::texts(args@),
            agent_parse_from(ts, 0, agent_defaults()) == agent_parse_from(ts, i as int, agent_args_view(out)),
        decreases args@.len() - i,
    {
        let a = args[i].as_str();
        let has_value = i + 1 < args.len();
        assert(ts[i as int] == a@);
        if has_value {
            assert(ts[i + 1] == args@[i + 1]@);
        }
        if flag_is(a, "-m", "--message") {
            if !has_value {
                return Err("-m 缺少消息内容".to_owned());
            }
            out.message = Some(args[i + 1].clone());
            i = i + 2;
        } else if flag_is(a, "-s", "--session") {
            if !has_value {
                return Err("--session 缺少会话 ID".to_owned());
            }
            out.session_id = args[i + 1].clone();
            i = i + 2;
        } else if flag_is(a, "-w", "--workspace") {
            if !has_value {
                return Err("--workspace 缺少路径".to_owned());
            }
            out.workspace = Some(args[i + 1].clone());
            i = i + 2;
        } else if flag_is(a, "-c", "--config") {
            if !has_value {
                return Err("--config 缺少路径".to_owned());
            }
            out.config_path = Some(args[i + 1].clone());
            i = i + 2;
        } else if flag_is(a, "-p", "--preset") {
            if !has_value {
                return Err("--preset 缺少 preset 名".to_owned());
            }
            out.preset = Some(args[i + 1].clone());
            i = i + 2;
        } else if str_eq(a, "--model") {
            if !has_value {
                return Err("--model 缺少模型名".to_owned());
            }
            out.model = Some(args[i + 1].clone());
            i = i + 2;
        } else if str_eq(a, "--show-reasoning") {
            out.show_reasoning = true;
            i = i + 1;
        } else {
            return Err(unknown_arg(a));
        }
    }
    Ok(out)
}

/// Reads the arguments of `lure onboard` from index `i` on: `-r`/`--root` takes the
/// next argument (the last occurrence wins).
pub open spec fn onboard_parse_from(args: Seq<Seq<char>>, i: int, root: Option<Seq<char>>) -> Result<Option<Seq<char>>, Seq<char>>
    decreases args.len() - i,
{
    if i < 0 || i >= args.len() {
        Ok(root)
    } else if is_flag(args[i], "-r"@, "--root"@) {
        if i + 1 < args.len() {
            onboard_parse_from(args, i + 2, Some(args[i + 1]))
        } else {
            Err("--root 缺少路径"@)
        }
    } else {
        Err("未知参数: "@ + args[i])
    }
}

/// Parses the arguments of `lure onboard`: the data root given with `-r`/`--root`,
/// if any.
pub fn parse_onboard_args(args: &Vec<String>) -> (r: Result<Option<String>, String>)
    ensures
        match r {
            Ok(root) => onboard_parse_from(crate::text::texts(args@), 0, None) == Ok::<Option<Seq<char>>, Seq<char>>(crate::bus::opt_view(root)),
            Err(e) => onboard_parse_from(crate::text::texts(args@), 0, None) == Err::<Option<Seq<char>>, Seq<char>>(e@),
        },
{
    let ghost ts = crate::text::texts(args@);
    let mut root: Option<String> = None;
    let mut i: usize = 0;
    while i < args.len()
        invariant
            i <= args@.len(),
            ts == crate::text::texts(args@),
            onboard_parse_from(ts, 0, None) == onboard_parse_from(ts, i as int, crate::bus::opt_view(root)),
        decreases args@.len() - i,
    {
        let a = args[i].as_str();
        assert(ts[i as int] == a@);
        if flag_is(a, "-r", "--root") {
            if i + 1 >= args.len() {
                return Err("--root 缺少路径".to_owned());
            }
            assert(ts[i + 1] == args@[i + 1]@);
            root = Some(args[i + 1].clone());
            i = i + 2;
        } else {
            return Err(unknown_arg(a));
        }
    }
    Ok(root)
}

} // verus!

verus! {

/// The initial long-term memory file.
pub const INITIAL_MEMORY: &'static str = "# Memory\n\n";

/// The workspace recorded in a new config under the default data root.
pub const DEFAULT_ROOT_WORKSPACE: &'static str = "~/.lure/workspace";

/// What onboarding creates under a data root: directories (created when missing), a
/// config (written only when there is none) and the workspace's starter files
/// (each written only when missing).
pub struct OnboardPlan {
    pub root: String,
    pub workspace: String,
    pub config_path: String,
    /// `agents.defaults.workspace` of a new config.
    pub config_workspace: String,
    pub dirs: Vec<String>,
    /// (path, contents) of each starter file.
    pub files: Vec<(String, String)>,
}

/// The directories onboarding creates under `root`.
pub open spec fn onboard_dirs(root: Seq<char>) -> Seq<Seq<char>> {
    let w = join_path(root, "workspace"@);
    seq![
        join_path(root, "cli-apps"@),
        join_path(root, "cron"@),
        join_path(root, "history"@),
        join_path(root, "webui"@),
        w,
        join_path(w, "cron"@),
        join_path(w, "memory"@),
        join_path(w, "prompts"@),
        join_path(w, "sessions"@),
        join_path(w, "skills"@),
        join_path(w, "triggers"@)
    ]
}

/// The starter files of the workspace under `root`, with their contents.
pub open spec fn onboard_files(root: Seq<char>) -> Seq<(Seq<char>, Seq<char>)> {
    let w = join_path(root, "workspace"@);
    seq![
        (join_path(w, ".gitignore"@), crate::agent::templates::DEFAULT_GITIGNORE@),
        (join_path(w, "SOUL.md"@), crate::agent::templates::DEFAULT_SOUL@),
        (join_path(w, "USER.md"@), crate::agent::templates::DEFAULT_USER@),
        (join_path(w, "AGENTS.md"@), crate::agent::templates::DEFAULT_AGENTS@),
        (join_path(w, "HEARTBEAT.md"@), crate::agent::templates::DEFAULT_HEARTBEAT@),
        (join_path(join_path(w, "memory"@), "MEMORY.md"@), INITIAL_MEMORY@)
    ]
}

/// The files of a plan as plain values.
pub open spec fn file_views(v: Seq<(String, String)>) -> Seq<(Seq<char>, Seq<char>)> {
    v.map_values(|p: (String, String)| (p.0@, p.1@))
}

/// A path under `root` as a string.
fn under(root: &Vec<char>, part: &str) -> (r: String)
    ensures
        r@ == join_path(root@, part@),
{
    string_from(&join(root, part))
}

/// The plan of onboarding a data root `root`, where `default_root` is `~/.lure`.
pub fn onboard_plan_in(root: &str, default_root: &str) -> (p: OnboardPlan)
    ensures
        p.root@ == root@,
        p.workspace@ == join_path(root@, "workspace"@),
        p.config_path@ == join_path(root@, "config.json"@),
        p.config_workspace@ == (if crate::paths::same_components(root@, default_root@) {
            DEFAULT_ROOT_WORKSPACE@
        } else {
            join_path(root@, "workspace"@)
        }),
        root@ == default_root@ ==> p.config_workspace@ == DEFAULT_ROOT_WORKSPACE@,
        crate::text::texts(p.dirs@) == onboard_dirs(root@),
        file_views(p.files@) == onboard_files(root@),
{
    let r = chars_of(root);
    let w = join(&r, "workspace");
    let mut dirs: Vec<String> = Vec::new();
    dirs.push(under(&r, "cli-apps"));
    dirs.push(under(&r, "cron"));
    dirs.push(under(&r, "history"));
    dirs.push(under(&r, "webui"));
    dirs.push(string_from(&w));
    dirs.push(under(&w, "cron"));
    dirs.push(under(&w, "memory"));
    dirs.push(under(&w, "prompts"));
    dirs.push(under(&w, "sessions"));
    dirs.push(under(&w, "skills"));
    dirs.push(under(&w, "triggers"));
    let mem_dir = join(&w, "memory");
    let mut files: Vec<(String, String)> = Vec::new();
    files.push((under(&w, ".gitignore"), crate::agent::templates::DEFAULT_GITIGNORE.to_owned()));
    files.push((under(&w, "SOUL.md"), crate::agent::templates::DEFAULT_SOUL.to_owned()));
    files.push((under(&w, "USER.md"), crate::agent::templates::DEFAULT_USER.to_owned()));
    files.push((under(&w, "AGENTS.md"), crate::agent::templates::DEFAULT_AGENTS.to_owned()));
    files.push((under(&w, "HEARTBEAT.md"), crate::agent::templates::DEFAULT_HEARTBEAT.to_owned()));
    files.push((under(&mem_dir, "MEMORY.md"), INITIAL_MEMORY.to_owned()));
    let config_workspace = if crate::paths::paths_equal(root, default_root) {
        DEFAULT_ROOT_WORKSPACE.to_owned()
    } else {
        string_from(&w)
    };
    let p = OnboardPlan {
        root: root.to_owned(),
        workspace: string_from(&w),
        config_path: under(&r, "config.json"),
        config_workspace,
        dirs,
        files,
    };
    assert(crate::text::texts(p.dirs@) =~= onboard_dirs(root@));
    assert(file_views(p.files@) =~= onboard_files(root@));
    p
}

/// The default data root `~/.lure` of the home directory `home`.
pub open spec fn lure_root_under(home: Seq<char>) -> Seq<char> {
    join_path(home, ".lure"@)
}

/// What the configuration names as the workspace when onboarding `root`, where
/// `default_root` is the default data root.
pub open spec fn config_workspace_for(root: Seq<char>, default_root: Seq<char>) -> Seq<char> {
    if crate::paths::same_components(root, default_root) {
        DEFAULT_ROOT_WORKSPACE@
    } else {
        join_path(root, "workspace"@)
    }
}

/// The plan of onboarding the data root given, or `~/.lure`; `None` when the home
/// directory cannot be determined (it is needed to tell the default root).
pub fn onboard_plan(root: Option<&str>) -> (p: Option<OnboardPlan>)
    ensures
        p matches Some(plan) ==> exists|h: Seq<char>| {
            &&& plan.root@ == (match root {
                Some(r) => r@,
                None => lure_root_under(h),
            })
            &&& plan.config_workspace@ == config_workspace_for(plan.root@, #[trigger] lure_root_under(h))
        },
        p matches Some(plan) ==> {
            &&& root matches Some(r) ==> plan.root@ == r@
            &&& root is None ==> plan.config_workspace@ == DEFAULT_ROOT_WORKSPACE@
            &&& plan.workspace@ == join_path(plan.root@, "workspace"@)
            &&& plan.config_path@ == join_path(plan.root@, "config.json"@)
            &&& crate::text::texts(plan.dirs@) == onboard_dirs(plan.root@)
            &&& file_views(plan.files@) == onboard_files(plan.root@)
        },
{
    let home = crate::paths::home_dir();
    match (root, home) {
        (Some(r), Some(h)) => {
            let d = string_from(&join(&chars_of(h.as_str()), ".lure"));
            let plan = onboard_plan_in(r, d.as_str());
            assert(d@ == lure_root_under(h@));
            assert(plan.config_workspace@ == config_workspace_for(plan.root@, lure_root_under(h@)));
            Some(plan)
        },
        (None, Some(h)) => {
            let d = string_from(&join(&chars_of(h.as_str()), ".lure"));
            let plan = onboard_plan_in(d.as_str(), d.as_str());
            assert(d@ == lure_root_under(h@));
            assert(plan.config_workspace@ == config_workspace_for(plan.root@, lure_root_under(h@)));
            Some(plan)
        },
        (_, None) => None,
    }
}

/// The report of a finished onboarding.
pub fn onboard_summary(plan: &OnboardPlan) -> (r: String)
    ensures
        r@ == "已初始化 Lure 目录: "@ + plan.root@ + "\nconfig: "@ + plan.config_path@ + "\nworkspace: "@ + plan.workspace@,
{
    let mut s = String::new();
    s.append("已初始化 Lure 目录: ");
    s.append(plan.root.as_str());
    s.append("\nconfig: ");
    s.append(plan.config_path.as_str());
    s.append("\nworkspace: ");
    s.append(plan.workspace.as_str());
    s
}

} // verus!
