//! Path joining and the default locations of the configuration and workspace:
//! `~/.nanobot/config.json` and `~/.nanobot/workspace`, with `~` expansion for
//! workspaces given by the user.

use vstd::prelude::*;

use crate::text::{chars_of, push_chars, string_from};

verus! {

/// `base` joined with `part` as `PathBuf::join` does on Unix: an absolute `part`
/// replaces `base`; otherwise a `/` separates them unless `base` is empty or already
/// ends with one.
pub open spec fn join_path(base: Seq<char>, part: Seq<char>) -> Seq<char> {
    if part.len() > 0 && part[0] == '/' {
        part
    } else if base.len() == 0 || base.last() == '/' {
        base + part
    } else {
        base + seq!['/'] + part
    }
}

/// `base` joined with `part` (see [`join_path`]).
pub fn join(base: &[char], part: &str) -> (r: Vec<char>)
    ensures
        r@ == join_path(base@, part@),
{
    let p = chars_of(part);
    let mut out: Vec<char> = Vec::new();
    if p.len() > 0 && p[0] == '/' {
        push_chars(&mut out, &p);
        return out;
    }
    push_chars(&mut out, base);
    if base.len() > 0 && base[base.len() - 1] != '/' {
        out.push('/');
    }
    push_chars(&mut out, &p);
    out
}

/// The user's home directory, from the environment (`dirs::home_dir`); `None` where
/// it cannot be determined. It depends on the environment, so nothing is stated of it.
#[verifier::external_body]
pub(crate) fn home_dir() -> (r: Option<String>) {
    dirs::home_dir().map(|p| p.to_string_lossy().into_owned())
}

/// Whether two paths have the same components (`Path`'s `==`, which ignores repeated
/// and trailing separators and interior `.` components).
pub uninterp spec fn same_components(a: Seq<char>, b: Seq<char>) -> bool;

/// Whether `a` and `b` name the same path, compared component by component
/// (`Path::eq`). Equal texts are the same path.
#[verifier::external_body]
pub(crate) fn paths_equal(a: &str, b: &str) -> (r: bool)
    ensures
        r == same_components(a@, b@),
        a@ == b@ ==> r,
{
    std::path::Path::new(a) == std::path::Path::new(b)
}

/// `<home>/.nanobot/config.json`.
pub open spec fn config_path_under(home: Seq<char>) -> Seq<char> {
    join_path(join_path(home, ".nanobot"@), "config.json"@)
}

/// `<home>/.nanobot/workspace`.
pub open spec fn workspace_under(home: Seq<char>) -> Seq<char> {
    join_path(join_path(home, ".nanobot"@), "workspace"@)
}

/// `path` with a leading `~` (alone, or followed by `/`) replaced by `home`.
pub open spec fn expand_under(home: Seq<char>, path: Seq<char>) -> Seq<char> {
    if path == "~"@ {
        home
    } else if path.len() >= 2 && path[0] == '~' && path[1] == '/' {
        join_path(home, path.subrange(2, path.len() as int))
    } else {
        path
    }
}

/// The workspace a user setting selects: the default one when absent, else the
/// setting with `~` expanded.
pub open spec fn resolve_under(home: Seq<char>, workspace: Option<Seq<char>>) -> Seq<char> {
    match workspace {
        Some(w) => expand_under(home, w),
        None => workspace_under(home),
    }
}

/// View of an optional text.
pub open spec fn opt_str(o: Option<&str>) -> Option<Seq<char>> {
    match o {
        Some(w) => Some(w@),
        None => None,
    }
}

/// Whether `path` needs the home directory to be resolved.
pub open spec fn needs_home(path: Seq<char>) -> bool {
    path == "~"@ || (path.len() >= 2 && path[0] == '~' && path[1] == '/')
}

/// `<home>/.nanobot/config.json` for a given home directory.
pub fn config_path_in(home: &str) -> (r: String)
    ensures
        r@ == config_path_under(home@),
{
    let h = chars_of(home);
    let a = join(&h, ".nanobot");
    let b = join(&a, "config.json");
    string_from(&b)
}

/// `<home>/.nanobot/workspace` for a given home directory.
pub fn workspace_in(home: &str) -> (r: String)
    ensures
        r@ == workspace_under(home@),
{
    let h = chars_of(home);
    let a = join(&h, ".nanobot");
    let b = join(&a, "workspace");
    string_from(&b)
}

/// `path` with a leading `~` expanded to `home`.
pub fn expand_in(home: &str, path: &str) -> (r: String)
    ensures
        r@ == expand_under(home@, path@),
{
    let p = chars_of(path);
    if p.len() == 1 && p[0] == '~' {
        assert(p@ == "~"@) by {
            reveal_strlit("~");
        }
        return home.to_owned();
    }
    proof {
        reveal_strlit("~");
    }
    if p.len() >= 2 && p[0] == '~' && p[1] == '/' {
        let mut rest: Vec<char> = Vec::new();
        let mut i: usize = 2;
        while i < p.len()
            invariant
                2 <= i <= p@.len(),
                rest@ == p@.subrange(2, i as int),
            decreases p@.len() - i,
        {
            rest.push(p[i]);
            i = i + 1;
        }
        let h = chars_of(home);
        let rest_s = string_from(&rest);
        let j = join(&h, rest_s.as_str());
        return string_from(&j);
    }
    path.to_owned()
}

/// The workspace a user setting selects, for a given home directory.
pub fn resolve_in(home: &str, workspace: Option<&str>) -> (r: String)
    ensures
        r@ == resolve_under(home@, opt_str(workspace)),
{
    match workspace {
        Some(w) => expand_in(home, w),
        None => workspace_in(home),
    }
}

/// The default configuration file, `~/.nanobot/config.json`; `None` when the home
/// directory cannot be determined.
pub fn default_config_path() -> (r: Option<String>)
    ensures
        r matches Some(p) ==> exists|h: Seq<char>| p@ == #[trigger] config_path_under(h),
{
    match home_dir() {
        Some(h) => Some(config_path_in(h.as_str())),
        None => None,
    }
}

/// The default workspace, `~/.nanobot/workspace`; `None` when the home directory
/// cannot be determined.
pub fn default_workspace() -> (r: Option<String>)
    ensures
        r matches Some(p) ==> exists|h: Seq<char>| p@ == #[trigger] workspace_under(h),
{
    match home_dir() {
        Some(h) => Some(workspace_in(h.as_str())),
        None => None,
    }
}

/// `path` with a leading `~` expanded to the home directory. Paths without one are
/// returned as they are; `None` only when one needs expanding and the home directory
/// cannot be determined.
pub fn expand_user(path: &str) -> (r: Option<String>)
    ensures
        !needs_home(path@) ==> (r matches Some(p) && p@ == path@),
        r matches Some(p) ==> exists|h: Seq<char>| p@ == #[trigger] expand_under(h, path@),
{
    let p = chars_of(path);
    proof {
        reveal_strlit("~");
    }
    let needs = (p.len() == 1 && p[0] == '~') || (p.len() >= 2 && p[0] == '~' && p[1] == '/');
    proof {
        if p@.len() == 1 && p@[0] == '~' {
            assert(p@ =~= "~"@);
        }
    }
    assert(needs == needs_home(path@));
    if !needs {
        let r = path.to_owned();
        assert(r@ == expand_under(r@, path@));
        return Some(r);
    }
    match home_dir() {
        Some(h) => Some(expand_in(h.as_str(), path)),
        None => None,
    }
}

/// The workspace a user setting selects: the default workspace when absent, else
/// the setting with `~` expanded; `None` when the home directory is needed and
/// cannot be determined. A setting without a leading `~` is returned as it is.
pub fn resolve_workspace(workspace: Option<&str>) -> (r: Option<String>)
    ensures
        match workspace {
            Some(w) => !needs_home(w@) ==> (r matches Some(p) && p@ == w@),
            None => true,
        },
        r matches Some(p) ==> exists|h: Seq<char>|
            p@ == #[trigger] resolve_under(h, opt_str(workspace)),
{
    match workspace {
        Some(w) => {
            let r = expand_user(w);
            proof {
                if r is Some {
                    let p = r->0;
                    let h = choose|h: Seq<char>| p@ == #[trigger] expand_under(h, w@);
                    assert(p@ == resolve_under(h, opt_str(workspace)));
                }
            }
            r
        },
        None => {
            let r = default_workspace();
            proof {
                if r is Some {
                    let p = r->0;
                    let h = choose|h: Seq<char>| p@ == #[trigger] workspace_under(h);
                    assert(p@ == resolve_under(h, opt_str(workspace)));
                }
            }
            r
        },
    }
}

/// Whether a user setting selects the default workspace of the home directory
/// `home` (paths compared component by component).
pub fn is_default_workspace_in(home: &str, workspace: Option<&str>) -> (r: bool)
    ensures
        r == same_components(resolve_under(home@, opt_str(workspace)), workspace_under(home@)),
        workspace is None ==> r,
{
    let a = resolve_in(home, workspace);
    let b = workspace_in(home);
    paths_equal(a.as_str(), b.as_str())
}

/// Whether a user setting selects the default workspace (paths compared component
/// by component); `false` when the home directory cannot be determined.
pub fn is_default_workspace(workspace: Option<&str>) -> (r: bool)
    ensures
        r ==> exists|h: Seq<char>| #[trigger] same_components(
            resolve_under(h, opt_str(workspace)),
            workspace_under(h),
        ),
{
    match home_dir() {
        Some(h) => is_default_workspace_in(h.as_str(), workspace),
        None => false,
    }
}

} // verus!
