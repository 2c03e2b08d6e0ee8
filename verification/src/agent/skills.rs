//! Agent skills: directories holding a `SKILL.md` (with YAML frontmatter) that teach
//! the agent a tool or task. Workspace skills shadow built-in ones of the same name;
//! disabled skills are left out; skills whose required binaries or environment
//! variables are missing are unavailable.
//!
//! The caller reads the two skill directories (and each skill's frontmatter fields)
//! into [`SkillFile`]s; requirement checks go through a [`RequirementProbe`].

use vstd::prelude::*;

use crate::doc::{flag, get, get_in, get_opt, get_spec, is_map, is_truthy, opt_doc, string_list, string_list_spec, DocValue};
use crate::memory::strip::regex_valid;
use crate::text::{chars_of, is_prefix, join_seqs, join_strings, str_eq, string_from, texts, trim, trim_chars};

verus! {

/// The frontmatter fields of a skill that the loader uses.
pub struct SkillMeta {
    /// `description`, when a string.
    pub description: Option<String>,
    /// The top-level `always` flag, when truthy.
    pub always: bool,
    /// The `always` flag of the `metadata` payload (`nanobot`, else `openclaw`), when truthy.
    pub payload_always: bool,
    /// The payload's `requires.bins` strings.
    pub bins: Vec<String>,
    /// The payload's `requires.env` strings.
    pub env: Vec<String>,
}

/// A skill directory as read: its name, the path of its `SKILL.md`, its source
/// (`workspace` or `builtin`), the file's text and its frontmatter (if it has one).
pub struct SkillFile {
    pub name: String,
    pub path: String,
    pub source: String,
    pub content: String,
    pub meta: Option<SkillMeta>,
}

/// A listed skill.
pub struct SkillEntry {
    pub name: String,
    /// Path of its `SKILL.md`.
    pub path: String,
    /// `workspace` or `builtin`.
    pub source: String,
}

/// A skill's requirements and which of them are missing.
pub struct SkillRequirements {
    pub bins: Vec<String>,
    pub env: Vec<String>,
    pub missing_bins: Vec<String>,
    pub missing_env: Vec<String>,
}

/// Answers whether a binary is on the path and whether an environment variable is
/// set and non-empty.
pub trait RequirementProbe {
    spec fn has_bin_spec(&self, name: Seq<char>) -> bool;

    spec fn has_env_spec(&self, name: Seq<char>) -> bool;

    fn has_bin(&self, name: &str) -> (r: bool)
        ensures
            r == self.has_bin_spec(name@);

    fn has_env(&self, name: &str) -> (r: bool)
        ensures
            r == self.has_env_spec(name@);
}

/// A probe that knows in advance which binaries are present and which environment
/// variables are set.
pub struct KnownRequirements {
    pub bins: Vec<String>,
    pub env: Vec<String>,
}

impl RequirementProbe for KnownRequirements {
    open spec fn has_bin_spec(&self, name: Seq<char>) -> bool {
        in_list(self.bins@, name)
    }

    open spec fn has_env_spec(&self, name: Seq<char>) -> bool {
        in_list(self.env@, name)
    }

    fn has_bin(&self, name: &str) -> (r: bool) {
        list_has(&self.bins, name)
    }

    fn has_env(&self, name: &str) -> (r: bool) {
        list_has(&self.env, name)
    }
}

/// The first skill named `name`.
pub open spec fn find_skill(files: Seq<SkillFile>, name: Seq<char>) -> Option<SkillFile>
    decreases files.len(),
{
    if files.len() == 0 {
        None
    } else if files[0].name@ == name {
        Some(files[0])
    } else {
        find_skill(files.drop_first(), name)
    }
}

/// The names of the skills.
pub open spec fn skill_names(files: Seq<SkillFile>) -> Seq<Seq<char>> {
    files.map_values(|f: SkillFile| f.name@)
}

/// Whether `name` is among `list`.
pub open spec fn in_list(list: Seq<String>, name: Seq<char>) -> bool {
    exists|i: int| 0 <= i < list.len() && #[trigger] list[i]@ == name
}

/// Whether every required binary and variable is present.
pub open spec fn meets<P: RequirementProbe>(p: P, meta: Option<SkillMeta>) -> bool {
    match meta {
        Some(m) => (forall|i: int| 0 <= i < m.bins@.len() ==> p.has_bin_spec(#[trigger] m.bins@[i]@))
            && (forall|i: int| 0 <= i < m.env@.len() ==> p.has_env_spec(#[trigger] m.env@[i]@)),
        None => true,
    }
}

/// Whether some skill of `files` is named `name`.
pub open spec fn names_contain(files: Seq<SkillFile>, name: Seq<char>) -> bool {
    exists|k: int| 0 <= k < files.len() && #[trigger] files[k].name@ == name
}

/// A listed skill as (name, path, source).
pub open spec fn file_triple(f: SkillFile) -> (Seq<char>, Seq<char>, Seq<char>) {
    (f.name@, f.path@, f.source@)
}

/// An entry as (name, path, source).
pub open spec fn entry_triple(e: SkillEntry) -> (Seq<char>, Seq<char>, Seq<char>) {
    (e.name@, e.path@, e.source@)
}

/// The entries as (name, path, source).
pub open spec fn entry_triples(es: Seq<SkillEntry>) -> Seq<(Seq<char>, Seq<char>, Seq<char>)> {
    es.map_values(|e: SkillEntry| entry_triple(e))
}

/// The skill files as (name, path, source).
pub open spec fn file_triples(fs: Seq<SkillFile>) -> Seq<(Seq<char>, Seq<char>, Seq<char>)> {
    fs.map_values(|f: SkillFile| file_triple(f))
}

/// Whether some triple of `ts` has the name `n`.
pub open spec fn triples_have_name(ts: Seq<(Seq<char>, Seq<char>, Seq<char>)>, n: Seq<char>) -> bool {
    exists|k: int| 0 <= k < ts.len() && #[trigger] ts[k].0 == n
}

/// The required binaries of a skill's frontmatter.
pub open spec fn bins_of(meta: Option<SkillMeta>) -> Seq<String> {
    match meta {
        Some(m) => m.bins@,
        None => Seq::empty(),
    }
}

/// The required environment variables of a skill's frontmatter.
pub open spec fn env_of(meta: Option<SkillMeta>) -> Seq<String> {
    match meta {
        Some(m) => m.env@,
        None => Seq::empty(),
    }
}

/// The binaries of `bins` that are not present, in order.
pub open spec fn missing_bins<P: RequirementProbe>(p: P, bins: Seq<String>) -> Seq<String>
    decreases bins.len(),
{
    if bins.len() == 0 {
        Seq::empty()
    } else if p.has_bin_spec(bins.last()@) {
        missing_bins(p, bins.drop_last())
    } else {
        missing_bins(p, bins.drop_last()).push(bins.last())
    }
}

/// The variables of `env` that are not set, in order.
pub open spec fn missing_env<P: RequirementProbe>(p: P, env: Seq<String>) -> Seq<String>
    decreases env.len(),
{
    if env.len() == 0 {
        Seq::empty()
    } else if p.has_env_spec(env.last()@) {
        missing_env(p, env.drop_last())
    } else {
        missing_env(p, env.drop_last()).push(env.last())
    }
}

/// `CLI: <bin>` for each binary of `bins` that is not present, in order.
pub open spec fn missing_bin_texts<P: RequirementProbe>(p: P, bins: Seq<String>) -> Seq<Seq<char>>
    decreases bins.len(),
{
    if bins.len() == 0 {
        Seq::empty()
    } else if p.has_bin_spec(bins.last()@) {
        missing_bin_texts(p, bins.drop_last())
    } else {
        missing_bin_texts(p, bins.drop_last()).push("CLI: "@ + bins.last()@)
    }
}

/// `ENV: <var>` for each variable of `env` that is not set, in order.
pub open spec fn missing_env_texts<P: RequirementProbe>(p: P, env: Seq<String>) -> Seq<Seq<char>>
    decreases env.len(),
{
    if env.len() == 0 {
        Seq::empty()
    } else if p.has_env_spec(env.last()@) {
        missing_env_texts(p, env.drop_last())
    } else {
        missing_env_texts(p, env.drop_last()).push("ENV: "@ + env.last()@)
    }
}

/// The missing requirements of `meta`, binaries first, joined with `, `.
pub open spec fn missing_text<P: RequirementProbe>(p: P, meta: Option<SkillMeta>) -> Seq<char> {
    join_seqs(missing_bin_texts(p, bins_of(meta)) + missing_env_texts(p, env_of(meta)), ", "@)
}

/// A copy of the strings.
fn clone_strings(v: &Vec<String>) -> (r: Vec<String>)
    ensures
        r@ == v@,
{
    let mut out: Vec<String> = Vec::new();
    let mut i: usize = 0;
    while i < v.len()
        invariant
            i <= v@.len(),
            out@ == v@.take(i as int),
        decreases v@.len() - i,
    {
        out.push(v[i].clone());
        i = i + 1;
        assert(out@ =~= v@.take(i as int));
    }
    assert(v@.take(v@.len() as int) =~= v@);
    out
}

/// Whether two frontmatters hold the same fields.
pub open spec fn same_meta(a: SkillMeta, b: SkillMeta) -> bool {
    &&& crate::bus::opt_view(a.description) == crate::bus::opt_view(b.description)
    &&& a.always == b.always
    &&& a.payload_always == b.payload_always
    &&& a.bins@ == b.bins@
    &&& a.env@ == b.env@
}

/// A copy of a skill's frontmatter fields.
fn clone_meta(m: &SkillMeta) -> (r: SkillMeta)
    ensures
        same_meta(r, *m),
{
    SkillMeta {
        description: crate::bus::clone_opt(&m.description),
        always: m.always,
        payload_always: m.payload_always,
        bins: clone_strings(&m.bins),
        env: clone_strings(&m.env),
    }
}

/// The frontmatter block at the start of a skill file: an opening `---` line, the
/// YAML body, and a closing `---` line (CRLF accepted).
pub const FRONTMATTER: &'static str = "(?s)^---[ \\t]*\\r?\\n(.*?)\\r?\\n---[ \\t]*\\r?\\n?";

/// A `$skill-name` reference in user text (a name starts with a letter or digit).
pub const SKILL_REFERENCE: &'static str = "\\$([A-Za-z0-9][A-Za-z0-9_-]*)";

/// The text after the first match of `pattern` in `text`, `None` without a match
/// (`regex::Regex::find`).
pub uninterp spec fn regex_after_first_match(pattern: Seq<char>, text: Seq<char>) -> Option<Seq<char>>;

/// For each successive match of `pattern` in `text`, its first capture group, if
/// it took part (`regex::Regex::captures_iter`).
pub uninterp spec fn regex_first_groups(pattern: Seq<char>, text: Seq<char>) -> Seq<Option<Seq<char>>>;

/// `Path::strip_prefix` of `path` by `base`, compared component by component, as
/// text (`to_string_lossy`); `None` where `base` is not a prefix.
pub uninterp spec fn path_stripped(path: Seq<char>, base: Seq<char>) -> Option<Seq<char>>;

/// The views of optional strings.
pub open spec fn opt_views(v: Seq<Option<String>>) -> Seq<Option<Seq<char>>> {
    v.map_values(|o: Option<String>| crate::bus::opt_view(o))
}

/// The text after the first match of `pattern` in `text` (`regex` crate:
/// `Regex::new`, then `find`); `None` exactly for an invalid pattern.
#[verifier::external_body]
fn after_first_match(pattern: &str, text: &str) -> (r: Option<Option<String>>)
    ensures
        r is Some <==> regex_valid(pattern@),
        r matches Some(x) ==> crate::bus::opt_view(x) == regex_after_first_match(pattern@, text@),
{
    match regex::Regex::new(pattern) {
        Ok(re) => Some(re.find(text).map(|m| text[m.end()..].to_string())),
        Err(_) => None,
    }
}

/// The first capture group of each match of `pattern` in `text` (`regex` crate:
/// `Regex::new`, then `captures_iter`); `None` exactly for an invalid pattern.
#[verifier::external_body]
fn first_groups(pattern: &str, text: &str) -> (r: Option<Vec<Option<String>>>)
    ensures
        r is Some <==> regex_valid(pattern@),
        r matches Some(v) ==> opt_views(v@) == regex_first_groups(pattern@, text@),
{
    match regex::Regex::new(pattern) {
        Ok(re) => Some(re.captures_iter(text).map(|c| c.get(1).map(|m| m.as_str().to_string())).collect()),
        Err(_) => None,
    }
}

/// `path` relative to `base` (`std::path::Path::strip_prefix`), as text.
#[verifier::external_body]
fn strip_path_prefix(path: &str, base: &str) -> (r: Option<String>)
    ensures
        crate::bus::opt_view(r) == path_stripped(path@, base@),
{
    std::path::Path::new(path).strip_prefix(base).ok().map(|p| p.to_string_lossy().into_owned())
}

/// The markdown body of a skill file: without a leading frontmatter block, trimmed;
/// text that does not start with `---`, or has no complete block, is kept as it is.
pub open spec fn strip_frontmatter_spec(content: Seq<char>) -> Seq<char> {
    if !is_prefix("---"@, content) || !regex_valid(FRONTMATTER@) {
        content
    } else {
        match regex_after_first_match(FRONTMATTER@, content) {
            Some(rest) => trim(rest),
            None => content,
        }
    }
}

/// The markdown body of a skill file, without its frontmatter.
pub fn strip_frontmatter(content: &str) -> (r: String)
    ensures
        r@ == strip_frontmatter_spec(content@),
{
    let cs = chars_of(content);
    let dashes = chars_of("---");
    if !crate::text::starts_with(&cs, &dashes) {
        return content.to_owned();
    }
    match after_first_match(FRONTMATTER, content) {
        Some(Some(rest)) => {
            let rc = chars_of(rest.as_str());
            string_from(&trim_chars(&rc))
        },
        _ => content.to_owned(),
    }
}

/// The YAML text of a skill file's frontmatter block: the first capture of
/// [`FRONTMATTER`]'s first match; `None` for text that does not start with `---` or
/// has no complete block.
pub open spec fn frontmatter_body_spec(content: Seq<char>) -> Option<Seq<char>> {
    if !is_prefix("---"@, content) || !regex_valid(FRONTMATTER@) {
        None
    } else {
        let groups = regex_first_groups(FRONTMATTER@, content);
        if groups.len() == 0 {
            None
        } else {
            groups[0]
        }
    }
}

/// The YAML text of a skill file's frontmatter block (see [`frontmatter_body_spec`]).
pub fn frontmatter_body(content: &str) -> (r: Option<String>)
    ensures
        crate::bus::opt_view(r) == frontmatter_body_spec(content@),
{
    let cs = chars_of(content);
    let dashes = chars_of("---");
    if !crate::text::starts_with(&cs, &dashes) {
        return None;
    }
    match first_groups(FRONTMATTER, content) {
        Some(groups) => {
            if groups.len() == 0 {
                None
            } else {
                let g = &groups[0];
                let r = match g {
                    Some(t) => Some(t.as_str().to_owned()),
                    None => None,
                };
                assert(opt_views(groups@)[0] == crate::bus::opt_view(groups@[0]));
                r
            }
        },
        None => None,
    }
}

/// The `metadata` field's text, where it is a string (it holds JSON then).
pub open spec fn metadata_text_spec(doc: DocValue) -> Option<Seq<char>> {
    match get_spec(doc, "metadata"@) {
        Some(DocValue::Str(t)) => Some(t@),
        _ => None,
    }
}

/// The `metadata` field's text, where it is a string: the reader parses it as JSON
/// and hands the result to [`skill_meta_of`].
pub fn metadata_text(doc: &DocValue) -> (r: Option<String>)
    ensures
        crate::bus::opt_view(r) == metadata_text_spec(*doc),
{
    match get(doc, "metadata") {
        Some(DocValue::Str(t)) => Some(t.as_str().to_owned()),
        _ => None,
    }
}

/// The metadata mapping: the `metadata` field where it is a mapping, or, where it is
/// a string, `parsed` (the string read as JSON) where that is a mapping.
pub open spec fn metadata_data(doc: DocValue, parsed: Option<DocValue>) -> Option<DocValue> {
    match get_spec(doc, "metadata"@) {
        Some(DocValue::Mapping(m)) => Some(DocValue::Mapping(m)),
        Some(DocValue::Str(_)) => match parsed {
            Some(DocValue::Mapping(m)) => Some(DocValue::Mapping(m)),
            _ => None,
        },
        _ => None,
    }
}

/// The payload of the metadata: its `nanobot` entry, else its `openclaw` entry,
/// where the one picked is a mapping; `None` stands for the empty mapping.
pub open spec fn payload_spec(doc: DocValue, parsed: Option<DocValue>) -> Option<DocValue> {
    let data = metadata_data(doc, parsed);
    let picked = match get_opt(data, "nanobot"@) {
        Some(x) => Some(x),
        None => get_opt(data, "openclaw"@),
    };
    match picked {
        Some(DocValue::Mapping(m)) => Some(DocValue::Mapping(m)),
        _ => None,
    }
}

/// Whether `m` holds the fields of the frontmatter `doc` (with `parsed` the
/// `metadata` string read as JSON): the string `description`, the truthiness of the
/// top-level and the payload's `always`, and the payload's `requires.bins` and
/// `requires.env` strings.
pub open spec fn meta_of_doc(m: SkillMeta, doc: DocValue, parsed: Option<DocValue>) -> bool {
    let p = payload_spec(doc, parsed);
    &&& crate::bus::opt_view(m.description) == match get_spec(doc, "description"@) {
        Some(DocValue::Str(d)) => Some(d@),
        _ => None,
    }
    &&& m.always == flag(get_spec(doc, "always"@))
    &&& m.payload_always == flag(get_opt(p, "always"@))
    &&& texts(m.bins@) == string_list_spec(get_opt(get_opt(p, "requires"@), "bins"@))
    &&& texts(m.env@) == string_list_spec(get_opt(get_opt(p, "requires"@), "env"@))
}

/// The skill fields of a frontmatter document; `None` where it is not a mapping.
/// `parsed` is the `metadata` string (see [`metadata_text`]) read as JSON, if it is
/// one and reads.
pub fn skill_meta_of(doc: &DocValue, parsed: Option<&DocValue>) -> (r: Option<SkillMeta>)
    ensures
        match r {
            Some(m) => is_map(*doc) && meta_of_doc(m, *doc, opt_doc(parsed)),
            None => !is_map(*doc),
        },
{
    match doc {
        DocValue::Mapping(_) => {},
        _ => {
            return None;
        },
    }
    let raw = get(doc, "metadata");
    let data: Option<&DocValue> = match raw {
        Some(DocValue::Mapping(_)) => raw,
        Some(DocValue::Str(_)) => match parsed {
            Some(DocValue::Mapping(_)) => parsed,
            _ => None,
        },
        _ => None,
    };
    assert(opt_doc(data) == metadata_data(*doc, opt_doc(parsed)));
    let nano = get_in(data, "nanobot");
    let picked = match nano {
        Some(_) => nano,
        None => get_in(data, "openclaw"),
    };
    let payload: Option<&DocValue> = match picked {
        Some(DocValue::Mapping(_)) => picked,
        _ => None,
    };
    assert(opt_doc(payload) == payload_spec(*doc, opt_doc(parsed)));
    let description = match get(doc, "description") {
        Some(DocValue::Str(d)) => Some(d.as_str().to_owned()),
        _ => None,
    };
    let needs = get_in(payload, "requires");
    let m = SkillMeta {
        description,
        always: is_truthy(get(doc, "always")),
        payload_always: is_truthy(get_in(payload, "always")),
        bins: string_list(get_in(needs, "bins")),
        env: string_list(get_in(needs, "env")),
    };
    Some(m)
}

/// Backslashes turned into slashes.
pub open spec fn slashes(s: Seq<char>) -> Seq<char> {
    s.map_values(|c: char| if c == '\\' { '/' } else { c })
}

/// `path` relative to `root` with `/` separators; the whole path where `root` is
/// not a prefix of it.
pub open spec fn relative_spec(path: Seq<char>, root: Seq<char>) -> Seq<char> {
    match path_stripped(path, root) {
        Some(r) => slashes(r),
        None => path,
    }
}

/// `path` relative to `root` with `/` separators.
fn relative_path(path: &str, root: &str) -> (r: String)
    ensures
        r@ == relative_spec(path@, root@),
{
    match strip_path_prefix(path, root) {
        Some(rel) => {
            let cs = chars_of(rel.as_str());
            let mut out: Vec<char> = Vec::new();
            let mut i: usize = 0;
            while i < cs.len()
                invariant
                    i <= cs@.len(),
                    out@ == slashes(cs@.take(i as int)),
                decreases cs@.len() - i,
            {
                let c = cs[i];
                if c == '\\' {
                    out.push('/');
                } else {
                    out.push(c);
                }
                i = i + 1;
                assert(out@ =~= slashes(cs@.take(i as int)));
            }
            assert(cs@.take(cs@.len() as int) =~= cs@);
            string_from(&out)
        },
        None => path.to_owned(),
    }
}

/// A one-element sequence for `Some`, else empty.
pub open spec fn opt_seq(o: Option<Seq<char>>) -> Seq<Seq<char>> {
    match o {
        Some(x) => seq![x],
        None => Seq::empty(),
    }
}

/// A skills loader over the two skill directories of a workspace.
pub struct SkillsLoader<P> {
    workspace_skills: String,
    builtin_skills: Option<String>,
    disabled: Vec<String>,
    workspace_files: Vec<SkillFile>,
    builtin_files: Vec<SkillFile>,
    probe: P,
}

impl<P: RequirementProbe> SkillsLoader<P> {
    pub closed spec fn ws_view(&self) -> Seq<SkillFile> { self.workspace_files@ }
    pub closed spec fn bs_view(&self) -> Seq<SkillFile> { self.builtin_files@ }
    pub closed spec fn disabled_view(&self) -> Seq<String> { self.disabled@ }
    pub closed spec fn probe_view(&self) -> P { self.probe }
    pub closed spec fn ws_dir_view(&self) -> Seq<char> { self.workspace_skills@ }
    pub closed spec fn bs_dir_view(&self) -> Option<Seq<char>> { crate::bus::opt_view(self.builtin_skills) }

    /// Each skills directory holds a skill name once (a directory's entries are
    /// distinct).
    pub open spec fn wf(&self) -> bool {
        &&& skill_names(self.ws_view()).no_duplicates()
        &&& skill_names(self.bs_view()).no_duplicates()
    }

    /// The skill file read for `name`: the workspace's, else the built-in one.
    pub open spec fn lookup(&self, name: Seq<char>) -> Option<SkillFile> {
        match find_skill(self.ws_view(), name) {
            Some(f) => Some(f),
            None => find_skill(self.bs_view(), name),
        }
    }

    /// The frontmatter of the skill read for `name`, if it has one.
    pub open spec fn meta_of(&self, name: Seq<char>) -> Option<SkillMeta> {
        match self.lookup(name) {
            Some(f) => f.meta,
            None => None,
        }
    }

    /// Whether the requirements of the skill read for `name` are met (a skill
    /// without frontmatter, or without a file, has none).
    pub open spec fn available_spec(&self, name: Seq<char>) -> bool {
        meets(self.probe_view(), self.meta_of(name))
    }

    /// Whether a skill named `name` is listed: not disabled, and with
    /// `filter_unavailable` also available.
    pub open spec fn keeps(&self, name: Seq<char>, filter_unavailable: bool) -> bool {
        !in_list(self.disabled_view(), name) && (filter_unavailable ==> self.available_spec(name))
    }

    /// The skills of `files` that are listed and not shadowed by a skill of `shadowing`.
    pub open spec fn kept(&self, files: Seq<SkillFile>, filter_unavailable: bool, shadowing: Seq<SkillFile>) -> Seq<SkillFile>
        decreases files.len(),
    {
        if files.len() == 0 {
            Seq::empty()
        } else {
            let prev = self.kept(files.drop_last(), filter_unavailable, shadowing);
            let f = files.last();
            if !names_contain(shadowing, f.name@) && self.keeps(f.name@, filter_unavailable) {
                prev.push(f)
            } else {
                prev
            }
        }
    }

    /// The skills listed: the workspace skills, then the built-in skills that no
    /// workspace skill shadows; disabled ones left out, and with `filter_unavailable`
    /// the unavailable ones too.
    pub open spec fn listed(&self, filter_unavailable: bool) -> Seq<SkillFile> {
        self.kept(self.ws_view(), filter_unavailable, Seq::empty())
            + self.kept(self.bs_view(), filter_unavailable, self.ws_view())
    }

    /// The content of the skill read for `name`.
    pub open spec fn loaded(&self, name: Seq<char>) -> Option<Seq<char>> {
        match self.lookup(name) {
            Some(f) => Some(f.content@),
            None => None,
        }
    }

    /// The description of the skill named `name`: its frontmatter `description`,
    /// else the name.
    pub open spec fn description_of(&self, name: Seq<char>) -> Seq<char> {
        match self.meta_of(name) {
            Some(m) => match m.description {
                Some(d) => d@,
                None => name,
            },
            None => name,
        }
    }

    /// The names of the skills of `ts` marked `always`, in order.
    pub open spec fn always_from(&self, ts: Seq<(Seq<char>, Seq<char>, Seq<char>)>) -> Seq<Seq<char>>
        decreases ts.len(),
    {
        if ts.len() == 0 {
            Seq::empty()
        } else {
            let prev = self.always_from(ts.drop_last());
            let n = ts.last().0;
            match self.meta_of(n) {
                Some(m) => if m.payload_always || m.always { prev.push(n) } else { prev },
                None => prev,
            }
        }
    }

    /// The context parts for `names`: `### Skill: <name>` and the body of each skill
    /// that exists, in order.
    pub open spec fn context_parts(&self, names: Seq<Seq<char>>) -> Seq<Seq<char>>
        decreases names.len(),
    {
        if names.len() == 0 {
            Seq::empty()
        } else {
            let prev = self.context_parts(names.drop_last());
            let n = names.last();
            match self.loaded(n) {
                Some(md) => prev.push("### Skill: "@ + n + "\n\n"@ + strip_frontmatter_spec(md)),
                None => prev,
            }
        }
    }

    /// The names referenced in `found` that are listed as available, each once, in
    /// order of first reference.
    pub open spec fn invoked_from(&self, found: Seq<Option<Seq<char>>>) -> Seq<Seq<char>>
        decreases found.len(),
    {
        if found.len() == 0 {
            Seq::empty()
        } else {
            let prev = self.invoked_from(found.drop_last());
            match found.last() {
                Some(n) => if triples_have_name(file_triples(self.listed(true)), n) && !prev.contains(n) {
                    prev.push(n)
                } else {
                    prev
                },
                None => prev,
            }
        }
    }

    /// The suffix after a skill's description in the summary: empty when available,
    /// else ` (unavailable)` with the missing requirements, if any.
    pub open spec fn suffix_of(&self, name: Seq<char>) -> Seq<char> {
        if self.available_spec(name) {
            Seq::empty()
        } else {
            let m = missing_text(self.probe_view(), self.meta_of(name));
            if m.len() == 0 {
                " (unavailable)"@
            } else {
                " (unavailable: "@ + m + ")"@
            }
        }
    }

    /// The summary line of a listed skill under `root`.
    pub open spec fn entry_line(&self, t: (Seq<char>, Seq<char>, Seq<char>), root: Seq<char>) -> Seq<char> {
        "- **"@ + t.0 + "** — "@ + self.description_of(t.0) + self.suffix_of(t.0) + "  `"@
            + relative_spec(t.1, root) + "`"@
    }

    /// The summary lines of the skills of `ts` from `source` that are not excluded.
    pub open spec fn section_lines(&self, ts: Seq<(Seq<char>, Seq<char>, Seq<char>)>, source: Seq<char>, exclude: Seq<Seq<char>>, root: Seq<char>) -> Seq<Seq<char>>
        decreases ts.len(),
    {
        if ts.len() == 0 {
            Seq::empty()
        } else {
            let prev = self.section_lines(ts.drop_last(), source, exclude, root);
            let t = ts.last();
            if t.2 == source && !exclude.contains(t.0) {
                prev.push(self.entry_line(t, root))
            } else {
                prev
            }
        }
    }

    /// The summary section of one source: a heading and its lines; `None` without lines.
    pub open spec fn section_of(&self, ts: Seq<(Seq<char>, Seq<char>, Seq<char>)>, label: Seq<char>, source: Seq<char>, exclude: Seq<Seq<char>>, root: Seq<char>) -> Option<Seq<char>> {
        let lines = self.section_lines(ts, source, exclude, root);
        if lines.len() == 0 {
            None
        } else {
            Some(join_seqs(seq!["### "@ + label + " (`"@ + root + "`)"@] + lines, "\n"@))
        }
    }

    /// `- **<name>** — <description>` for each skill of `ts`.
    pub open spec fn skill_lines(&self, ts: Seq<(Seq<char>, Seq<char>, Seq<char>)>) -> Seq<Seq<char>>
        decreases ts.len(),
    {
        if ts.len() == 0 {
            Seq::empty()
        } else {
            self.skill_lines(ts.drop_last()).push("- **"@ + ts.last().0 + "** — "@ + self.description_of(ts.last().0))
        }
    }

    /// The skills summary: the workspace section, then the built-in section (when
    /// there is a built-in directory), separated by a blank line.
    pub open spec fn summary_spec(&self, exclude: Seq<Seq<char>>) -> Seq<char> {
        let ts = file_triples(self.listed(false));
        if ts.len() == 0 {
            Seq::empty()
        } else {
            let w = self.section_of(ts, "Workspace skills"@, "workspace"@, exclude, self.ws_dir_view());
            let b = match self.bs_dir_view() {
                Some(root) => self.section_of(ts, "Built-in skills"@, "builtin"@, exclude, root),
                None => None,
            };
            join_seqs(opt_seq(w) + opt_seq(b), "\n\n"@)
        }
    }

    /// A loader for `workspace` (skills under `<workspace>/skills`), an optional
    /// built-in skills directory, and the disabled skill names; `probe` checks
    /// requirements. The directories are read in with [`Self::load`].
    pub fn new(workspace: &str, builtin_skills_dir: Option<String>, disabled_skills: Vec<String>, probe: P) -> (s: Self)
        ensures
            s.ws_dir_view() == crate::paths::join_path(workspace@, "skills"@),
            s.bs_dir_view() == crate::bus::opt_view(builtin_skills_dir),
            s.disabled_view() == disabled_skills@,
            s.ws_view().len() == 0,
            s.bs_view().len() == 0,
            s.probe_view() == probe,
            s.wf(),
    {
        let w = chars_of(workspace);
        let dir = crate::paths::join(&w, "skills");
        SkillsLoader {
            workspace_skills: string_from(&dir),
            builtin_skills: builtin_skills_dir,
            disabled: disabled_skills,
            workspace_files: Vec::new(),
            builtin_files: Vec::new(),
            probe,
        }
    }

    /// The workspace skills directory.
    pub fn workspace_dir(&self) -> (r: &str)
        ensures
            r@ == self.ws_dir_view(),
    {
        self.workspace_skills.as_str()
    }

    /// The built-in skills directory, if any.
    pub fn builtin_dir(&self) -> (r: Option<&str>)
        ensures
            crate::paths::opt_str(r) == self.bs_dir_view(),
    {
        match &self.builtin_skills {
            Some(b) => Some(b.as_str()),
            None => None,
        }
    }

    /// Loads the skills read from the two directories; the built-in ones only where
    /// the loader has a built-in directory.
    pub fn load(&mut self, workspace_files: Vec<SkillFile>, builtin_files: Vec<SkillFile>)
        requires
            skill_names(workspace_files@).no_duplicates(),
            skill_names(builtin_files@).no_duplicates(),
        ensures
            final(self).wf(),
            final(self).ws_view() == workspace_files@,
            final(self).bs_view() == (if old(self).bs_dir_view() is Some { builtin_files@ } else { Seq::empty() }),
            final(self).disabled_view() == old(self).disabled_view(),
            final(self).probe_view() == old(self).probe_view(),
            final(self).ws_dir_view() == old(self).ws_dir_view(),
            final(self).bs_dir_view() == old(self).bs_dir_view(),
    {
        self.workspace_files = workspace_files;
        if self.builtin_skills.is_some() {
            self.builtin_files = builtin_files;
        } else {
            self.builtin_files = Vec::new();
        }
    }

    /// The loader with other requirement probes.
    pub fn with_probes<Q: RequirementProbe>(self, probe: Q) -> (s: SkillsLoader<Q>)
        ensures
            s.ws_view() == self.ws_view(),
            s.bs_view() == self.bs_view(),
            s.disabled_view() == self.disabled_view(),
            s.probe_view() == probe,
            s.ws_dir_view() == self.ws_dir_view(),
            s.bs_dir_view() == self.bs_dir_view(),
    {
        SkillsLoader {
            workspace_skills: self.workspace_skills,
            builtin_skills: self.builtin_skills,
            disabled: self.disabled,
            workspace_files: self.workspace_files,
            builtin_files: self.builtin_files,
            probe,
        }
    }

    /// Whether the skill read for `name` has its requirements met.
    fn available(&self, name: &str) -> (r: bool)
        ensures
            r == self.available_spec(name@),
    {
        match self.lookup_file(name) {
            Some(f) => self.meets_exec(&f.meta),
            None => true,
        }
    }

    /// Whether the requirements of `meta` are met.
    fn meets_exec(&self, meta: &Option<SkillMeta>) -> (r: bool)
        ensures
            r == meets(self.probe_view(), *meta),
    {
        match meta {
            None => true,
            Some(m) => {
                let mut i: usize = 0;
                while i < m.bins.len()
                    invariant
                        *meta == Some(*m),
                        i <= m.bins@.len(),
                        forall|k: int| 0 <= k < i ==> self.probe.has_bin_spec(#[trigger] m.bins@[k]@),
                    decreases m.bins@.len() - i,
                {
                    if !self.probe.has_bin(m.bins[i].as_str()) {
                        assert(!self.probe_view().has_bin_spec(m.bins@[i as int]@));
                        return false;
                    }
                    i = i + 1;
                }
                let mut j: usize = 0;
                while j < m.env.len()
                    invariant
                        *meta == Some(*m),
                        j <= m.env@.len(),
                        forall|k: int| 0 <= k < m.bins@.len() ==> self.probe.has_bin_spec(#[trigger] m.bins@[k]@),
                        forall|k: int| 0 <= k < j ==> self.probe.has_env_spec(#[trigger] m.env@[k]@),
                    decreases m.env@.len() - j,
                {
                    if !self.probe.has_env(m.env[j].as_str()) {
                        assert(!self.probe_view().has_env_spec(m.env@[j as int]@));
                        return false;
                    }
                    j = j + 1;
                }
                true
            },
        }
    }

    /// The skill file read for `name`.
    fn lookup_file(&self, name: &str) -> (r: Option<&SkillFile>)
        ensures
            match r {
                Some(f) => self.lookup(name@) == Some(*f),
                None => self.lookup(name@) is None,
            },
    {
        match find_index(&self.workspace_files, name) {
            Some(i) => Some(&self.workspace_files[i]),
            None => match find_index(&self.builtin_files, name) {
                Some(i) => Some(&self.builtin_files[i]),
                None => None,
            },
        }
    }

    /// Whether a skill named `name` is listed.
    fn keeps_exec(&self, name: &str, filter_unavailable: bool) -> (r: bool)
        ensures
            r == self.keeps(name@, filter_unavailable),
    {
        if list_has(&self.disabled, name) {
            return false;
        }
        if filter_unavailable {
            self.available(name)
        } else {
            true
        }
    }

    /// Appends to `out` the entries of the skills of `files` that are listed and not
    /// shadowed by `shadowing`.
    fn push_kept(&self, out: &mut Vec<SkillEntry>, files: &Vec<SkillFile>, filter_unavailable: bool, shadowing: &Vec<SkillFile>)
        ensures
            entry_triples(final(out)@) == entry_triples(old(out)@) + file_triples(self.kept(files@, filter_unavailable, shadowing@)),
    {
        let ghost start = entry_triples(out@);
        let mut i: usize = 0;
        while i < files.len()
            invariant
                i <= files@.len(),
                entry_triples(out@) == start + file_triples(self.kept(files@.take(i as int), filter_unavailable, shadowing@)),
            decreases files@.len() - i,
        {
            let f = &files[i];
            let ghost before = out@;
            proof {
                assert(files@.take(i + 1).drop_last() =~= files@.take(i as int));
                assert(files@.take(i + 1).last() == files@[i as int]);
            }
            if !names_have(shadowing, f.name.as_str()) && self.keeps_exec(f.name.as_str(), filter_unavailable) {
                let e = SkillEntry { name: f.name.clone(), path: f.path.clone(), source: f.source.clone() };
                out.push(e);
                proof {
                    let prev = self.kept(files@.take(i as int), filter_unavailable, shadowing@);
                    assert(file_triples(prev.push(files@[i as int])) =~= file_triples(prev).push(file_triple(files@[i as int])));
                    assert(entry_triples(out@) =~= entry_triples(before).push(entry_triple(e)));
                }
            }
            i = i + 1;
        }
        assert(files@.take(files@.len() as int) =~= files@);
    }

    /// The listed skills: workspace skills, then the built-in ones they do not
    /// shadow; disabled skills left out, and with `filter_unavailable` also those
    /// whose required binaries or environment variables are missing.
    pub fn list_skills(&self, filter_unavailable: bool) -> (r: Vec<SkillEntry>)
        ensures
            entry_triples(r@) == file_triples(self.listed(filter_unavailable)),
    {
        let mut out: Vec<SkillEntry> = Vec::new();
        let empty: Vec<SkillFile> = Vec::new();
        proof {
            assert(entry_triples(out@) =~= Seq::empty());
        }
        self.push_kept(&mut out, &self.workspace_files, filter_unavailable, &empty);
        self.push_kept(&mut out, &self.builtin_files, filter_unavailable, &self.workspace_files);
        proof {
            let a = self.kept(self.ws_view(), filter_unavailable, Seq::empty());
            let b = self.kept(self.bs_view(), filter_unavailable, self.ws_view());
            assert(empty@ =~= Seq::<SkillFile>::empty());
            assert(file_triples(a + b) =~= file_triples(a) + file_triples(b));
            assert(Seq::<(Seq<char>, Seq<char>, Seq<char>)>::empty() + file_triples(a) =~= file_triples(a));
        }
        out
    }

    /// The content of the skill named `name`: the workspace's, else the built-in one.
    pub fn load_skill(&self, name: &str) -> (r: Option<String>)
        ensures
            crate::bus::opt_view(r) == self.loaded(name@),
    {
        match self.lookup_file(name) {
            Some(f) => Some(f.content.clone()),
            None => None,
        }
    }

    /// The missing requirements of `meta` as `CLI: <bin>` / `ENV: <var>` texts.
    fn missing_parts(&self, meta: &Option<SkillMeta>) -> (r: Vec<String>)
        ensures
            texts(r@) == missing_bin_texts(self.probe_view(), bins_of(*meta)) + missing_env_texts(self.probe_view(), env_of(*meta)),
    {
        let mut out: Vec<String> = Vec::new();
        match meta {
            None => {
                assert(texts(out@) =~= Seq::<Seq<char>>::empty() + Seq::<Seq<char>>::empty());
            },
            Some(m) => {
                let mut i: usize = 0;
                while i < m.bins.len()
                    invariant
                        *meta == Some(*m),
                        i <= m.bins@.len(),
                        texts(out@) == missing_bin_texts(self.probe_view(), m.bins@.take(i as int)),
                    decreases m.bins@.len() - i,
                {
                    proof {
                        assert(m.bins@.take(i + 1).drop_last() =~= m.bins@.take(i as int));
                    }
                    if !self.probe.has_bin(m.bins[i].as_str()) {
                        let mut t = String::new();
                        t.append("CLI: ");
                        t.append(m.bins[i].as_str());
                        let ghost before = out@;
                        out.push(t);
                        assert(texts(out@) =~= texts(before).push(t@));
                    }
                    i = i + 1;
                }
                assert(m.bins@.take(m.bins@.len() as int) =~= m.bins@);
                let ghost head = texts(out@);
                let mut j: usize = 0;
                assert(head + missing_env_texts(self.probe_view(), m.env@.take(0)) =~= head);
                while j < m.env.len()
                    invariant
                        *meta == Some(*m),
                        j <= m.env@.len(),
                        texts(out@) == head + missing_env_texts(self.probe_view(), m.env@.take(j as int)),
                    decreases m.env@.len() - j,
                {
                    proof {
                        assert(m.env@.take(j + 1).drop_last() =~= m.env@.take(j as int));
                    }
                    if !self.probe.has_env(m.env[j].as_str()) {
                        let mut t = String::new();
                        t.append("ENV: ");
                        t.append(m.env[j].as_str());
                        let ghost before = out@;
                        out.push(t);
                        assert(texts(out@) =~= texts(before).push(t@));
                    }
                    j = j + 1;
                }
                assert(m.env@.take(m.env@.len() as int) =~= m.env@);
            },
        }
        out
    }

    /// Whether the skill named `name` can run, and otherwise which requirements are
    /// missing (`CLI: <bin>` / `ENV: <var>`, joined with `, `).
    pub fn get_skill_availability(&self, name: &str) -> (r: (bool, String))
        ensures
            r.0 == self.available_spec(name@),
            r.1@ == (if r.0 { Seq::empty() } else { missing_text(self.probe_view(), self.meta_of(name@)) }),
    {
        let f = self.lookup_file(name);
        let ok = self.available(name);
        if ok {
            (true, String::new())
        } else {
            let parts = match f {
                Some(f) => self.missing_parts(&f.meta),
                None => self.missing_parts(&None),
            };
            (false, join_strings(&parts, ", "))
        }
    }

    /// The required binaries and environment variables of the skill named `name`,
    /// and those of them that are missing.
    pub fn get_skill_requirements(&self, name: &str) -> (r: SkillRequirements)
        ensures
            r.bins@ == bins_of(self.meta_of(name@)),
            r.env@ == env_of(self.meta_of(name@)),
            r.missing_bins@ == missing_bins(self.probe_view(), bins_of(self.meta_of(name@))),
            r.missing_env@ == missing_env(self.probe_view(), env_of(self.meta_of(name@))),
    {
        let (bins, env) = match self.lookup_file(name) {
            Some(f) => match &f.meta {
                Some(m) => (clone_strings(&m.bins), clone_strings(&m.env)),
                None => (Vec::new(), Vec::new()),
            },
            None => (Vec::new(), Vec::new()),
        };
        let mut missing_b: Vec<String> = Vec::new();
        let mut i: usize = 0;
        while i < bins.len()
            invariant
                i <= bins@.len(),
                missing_b@ == missing_bins(self.probe_view(), bins@.take(i as int)),
            decreases bins@.len() - i,
        {
            proof {
                assert(bins@.take(i + 1).drop_last() =~= bins@.take(i as int));
            }
            if !self.probe.has_bin(bins[i].as_str()) {
                missing_b.push(bins[i].clone());
            }
            i = i + 1;
        }
        assert(bins@.take(bins@.len() as int) =~= bins@);
        let mut missing_e: Vec<String> = Vec::new();
        let mut j: usize = 0;
        while j < env.len()
            invariant
                j <= env@.len(),
                missing_e@ == missing_env(self.probe_view(), env@.take(j as int)),
            decreases env@.len() - j,
        {
            proof {
                assert(env@.take(j + 1).drop_last() =~= env@.take(j as int));
            }
            if !self.probe.has_env(env[j].as_str()) {
                missing_e.push(env[j].clone());
            }
            j = j + 1;
        }
        assert(env@.take(env@.len() as int) =~= env@);
        SkillRequirements { bins, env, missing_bins: missing_b, missing_env: missing_e }
    }

    /// The frontmatter fields of the skill named `name`; `None` without a skill or
    /// without frontmatter.
    pub fn get_skill_metadata(&self, name: &str) -> (r: Option<SkillMeta>)
        ensures
            r is Some == self.meta_of(name@) is Some,
            r matches Some(m) ==> same_meta(m, self.meta_of(name@).unwrap()),
    {
        match self.lookup_file(name) {
            Some(f) => match &f.meta {
                Some(m) => Some(clone_meta(m)),
                None => None,
            },
            None => None,
        }
    }

    /// The description of the skill named `name` (its frontmatter `description`,
    /// else the name itself).
    pub fn skill_description(&self, name: &str) -> (r: String)
        ensures
            r@ == self.description_of(name@),
    {
        match self.lookup_file(name) {
            Some(f) => match &f.meta {
                Some(m) => match &m.description {
                    Some(d) => d.clone(),
                    None => name.to_owned(),
                },
                None => name.to_owned(),
            },
            None => name.to_owned(),
        }
    }

    /// The listed available skills marked `always` (in the frontmatter or its
    /// `metadata` payload), in listing order.
    pub fn get_always_skills(&self) -> (r: Vec<String>)
        ensures
            texts(r@) == self.always_from(file_triples(self.listed(true))),
    {
        let all = self.list_skills(true);
        let mut out: Vec<String> = Vec::new();
        let mut i: usize = 0;
        while i < all.len()
            invariant
                i <= all@.len(),
                entry_triples(all@) == file_triples(self.listed(true)),
                texts(out@) == self.always_from(entry_triples(all@).take(i as int)),
            decreases all@.len() - i,
        {
            proof {
                assert(entry_triples(all@).take(i + 1).drop_last() =~= entry_triples(all@).take(i as int));
                assert(entry_triples(all@).take(i + 1).last() == entry_triple(all@[i as int]));
            }
            let marked = match self.get_skill_metadata(all[i].name.as_str()) {
                Some(m) => m.payload_always || m.always,
                None => false,
            };
            if marked {
                let ghost before = out@;
                out.push(all[i].name.clone());
                assert(texts(out@) =~= texts(before).push(all@[i as int].name@));
            }
            i = i + 1;
        }
        assert(entry_triples(all@).take(all@.len() as int) =~= entry_triples(all@));
        out
    }

    /// The named skills for the agent's context: `### Skill: <name>`, a blank line
    /// and the body of each skill that exists, separated by `---` lines.
    pub fn load_skills_for_context(&self, skill_names: &Vec<String>) -> (r: String)
        ensures
            r@ == join_seqs(self.context_parts(texts(skill_names@)), "\n\n---\n\n"@),
    {
        let mut parts: Vec<String> = Vec::new();
        let mut i: usize = 0;
        while i < skill_names.len()
            invariant
                i <= skill_names@.len(),
                texts(parts@) == self.context_parts(texts(skill_names@.take(i as int))),
            decreases skill_names@.len() - i,
        {
            proof {
                assert(texts(skill_names@.take(i + 1)).drop_last() =~= texts(skill_names@.take(i as int)));
                assert(texts(skill_names@.take(i + 1)).last() == skill_names@[i as int]@);
            }
            let name = skill_names[i].as_str();
            match self.load_skill(name) {
                Some(md) => {
                    let mut part = String::new();
                    part.append("### Skill: ");
                    part.append(name);
                    part.append("\n\n");
                    let body = strip_frontmatter(md.as_str());
                    part.append(body.as_str());
                    let ghost before = parts@;
                    parts.push(part);
                    assert(texts(parts@) =~= texts(before).push(part@));
                },
                None => {},
            }
            i = i + 1;
        }
        assert(skill_names@.take(skill_names@.len() as int) =~= skill_names@);
        join_strings(&parts, "\n\n---\n\n")
    }

    /// The names referenced in `found` (one capture per `$name` reference) that are
    /// listed as available, each once, in order of first reference.
    pub fn select_invoked(&self, found: &Vec<Option<String>>) -> (r: Vec<String>)
        ensures
            texts(r@) == self.invoked_from(opt_views(found@)),
    {
        let all = self.list_skills(true);
        let mut out: Vec<String> = Vec::new();
        let mut i: usize = 0;
        while i < found.len()
            invariant
                i <= found@.len(),
                entry_triples(all@) == file_triples(self.listed(true)),
                texts(out@) == self.invoked_from(opt_views(found@.take(i as int))),
            decreases found@.len() - i,
        {
            proof {
                assert(opt_views(found@.take(i + 1)).drop_last() =~= opt_views(found@.take(i as int)));
                assert(opt_views(found@.take(i + 1)).last() == crate::bus::opt_view(found@[i as int]));
            }
            match &found[i] {
                Some(n) => {
                    let listed = entries_have(&all, n.as_str());
                    let seen = list_has(&out, n.as_str());
                    proof {
                        lemma_in_list_texts(out@, n@);
                    }
                    if listed && !seen {
                        let ghost before = out@;
                        out.push(n.clone());
                        assert(texts(out@) =~= texts(before).push(n@));
                    }
                },
                None => {},
            }
            i = i + 1;
        }
        assert(found@.take(found@.len() as int) =~= found@);
        out
    }

    /// The available skills that `text` references as `$name`, each once, in order of
    /// first reference.
    pub fn get_explicitly_invoked_skills(&self, text: &str) -> (r: Vec<String>)
        ensures
            texts(r@) == (if text@.len() == 0 || !regex_valid(SKILL_REFERENCE@) {
                Seq::empty()
            } else {
                self.invoked_from(regex_first_groups(SKILL_REFERENCE@, text@))
            }),
    {
        if text.is_empty() {
            let r: Vec<String> = Vec::new();
            assert(texts(r@) =~= Seq::empty());
            return r;
        }
        match first_groups(SKILL_REFERENCE, text) {
            Some(found) => self.select_invoked(&found),
            None => {
                let r: Vec<String> = Vec::new();
                assert(texts(r@) =~= Seq::empty());
                r
            },
        }
    }

    /// The suffix after a skill's description in the summary.
    fn suffix(&self, name: &str) -> (r: String)
        ensures
            r@ == self.suffix_of(name@),
    {
        let (ok, missing) = self.get_skill_availability(name);
        if ok {
            String::new()
        } else if missing.as_str().is_empty() {
            " (unavailable)".to_owned()
        } else {
            let mut out = String::new();
            out.append(" (unavailable: ");
            out.append(missing.as_str());
            out.append(")");
            out
        }
    }

    /// The summary line of a listed skill under `root`.
    fn summary_line(&self, e: &SkillEntry, root: &str) -> (r: String)
        ensures
            r@ == self.entry_line(entry_triple(*e), root@),
    {
        let mut out = String::new();
        out.append("- **");
        out.append(e.name.as_str());
        out.append("** — ");
        let d = self.skill_description(e.name.as_str());
        out.append(d.as_str());
        let sfx = self.suffix(e.name.as_str());
        out.append(sfx.as_str());
        out.append("  `");
        let rel = relative_path(e.path.as_str(), root);
        out.append(rel.as_str());
        out.append("`");
        out
    }

    /// The summary section of the skills of `all` from `source` under `root`.
    fn section(&self, all: &Vec<SkillEntry>, label: &str, source: &str, exclude: &Vec<String>, root: &str) -> (r: Option<String>)
        ensures
            crate::bus::opt_view(r) == self.section_of(entry_triples(all@), label@, source@, texts(exclude@), root@),
    {
        let mut lines: Vec<String> = Vec::new();
        let mut i: usize = 0;
        while i < all.len()
            invariant
                i <= all@.len(),
                texts(lines@) == self.section_lines(entry_triples(all@).take(i as int), source@, texts(exclude@), root@),
            decreases all@.len() - i,
        {
            proof {
                assert(entry_triples(all@).take(i + 1).drop_last() =~= entry_triples(all@).take(i as int));
                assert(entry_triples(all@).take(i + 1).last() == entry_triple(all@[i as int]));
            }
            let e = &all[i];
            proof {
                lemma_in_list_texts(exclude@, e.name@);
            }
            if str_eq(e.source.as_str(), source) && !list_has(exclude, e.name.as_str()) {
                let line = self.summary_line(e, root);
                let ghost before = lines@;
                lines.push(line);
                assert(texts(lines@) =~= texts(before).push(line@));
            }
            i = i + 1;
        }
        assert(entry_triples(all@).take(all@.len() as int) =~= entry_triples(all@));
        if lines.len() == 0 {
            return None;
        }
        let mut head = String::new();
        head.append("### ");
        head.append(label);
        head.append(" (`");
        head.append(root);
        head.append("`)");
        let mut block: Vec<String> = Vec::new();
        block.push(head);
        let ghost hv = head@;
        let mut j: usize = 0;
        while j < lines.len()
            invariant
                j <= lines@.len(),
                texts(block@) == seq![hv] + texts(lines@).take(j as int),
            decreases lines@.len() - j,
        {
            let ghost before = block@;
            block.push(lines[j].clone());
            assert(texts(block@) =~= texts(before).push(lines@[j as int]@));
            assert(texts(lines@)[j as int] == lines@[j as int]@);
            assert(texts(lines@).take(j + 1) =~= texts(lines@).take(j as int).push(lines@[j as int]@));
            assert(texts(block@) =~= seq![hv] + texts(lines@).take(j + 1));
            j = j + 1;
        }
        assert(texts(lines@).take(lines@.len() as int) =~= texts(lines@));
        Some(join_strings(&block, "\n"))
    }

    /// The reply of the `/skill` command: every listed skill with its description,
    /// or that there is none.
    pub fn skill_command_reply(&self) -> (r: String)
        ensures
            r@ == (if self.listed(false).len() == 0 {
                "No skills available."@
            } else {
                join_seqs(seq!["Available skills ("@ + crate::text::dec(self.listed(false).len()) + "):"@, Seq::<char>::empty()]
                    + self.skill_lines(file_triples(self.listed(false))), "\n"@)
            }),
    {
        let all = self.list_skills(false);
        if all.len() == 0 {
            return "No skills available.".to_owned();
        }
        let mut lines: Vec<String> = Vec::new();
        let mut head = String::new();
        head.append("Available skills (");
        let n = crate::text::string_from(&crate::text::fmt_u64(all.len() as u64));
        head.append(n.as_str());
        head.append("):");
        let ghost hv = head@;
        lines.push(head);
        lines.push(String::new());
        let ghost base = texts(lines@);
        proof {
            assert(entry_triples(all@).len() == file_triples(self.listed(false)).len());
            assert(all@.len() == self.listed(false).len());
            assert(base =~= seq![hv, Seq::<char>::empty()]);
            assert(hv == "Available skills ("@ + crate::text::dec(self.listed(false).len()) + "):"@);
        }
        let mut i: usize = 0;
        while i < all.len()
            invariant
                i <= all@.len(),
                entry_triples(all@) == file_triples(self.listed(false)),
                texts(lines@) == base + self.skill_lines(entry_triples(all@).take(i as int)),
            decreases all@.len() - i,
        {
            proof {
                assert(entry_triples(all@).take(i + 1).drop_last() =~= entry_triples(all@).take(i as int));
                assert(entry_triples(all@).take(i + 1).last() == entry_triple(all@[i as int]));
            }
            let mut line = String::new();
            line.append("- **");
            line.append(all[i].name.as_str());
            line.append("** — ");
            let d = self.skill_description(all[i].name.as_str());
            line.append(d.as_str());
            let ghost before = lines@;
            lines.push(line);
            assert(texts(lines@) =~= texts(before).push(line@));
            i = i + 1;
        }
        proof {
            assert(entry_triples(all@).take(all@.len() as int) =~= entry_triples(all@));
        }
        join_strings(&lines, "\n")
    }

    /// The summary of all listed skills (name, description, availability and path
    /// relative to its skills directory), grouped by source; skills named in
    /// `exclude` are left out. Empty when no skill is listed.
    pub fn build_skills_summary(&self, exclude: Option<&Vec<String>>) -> (r: String)
        ensures
            r@ == self.summary_spec(match exclude {
                Some(v) => texts(v@),
                None => Seq::empty(),
            }),
    {
        let all = self.list_skills(false);
        if all.len() == 0 {
            return String::new();
        }
        let empty: Vec<String> = Vec::new();
        let ex: &Vec<String> = match exclude {
            Some(v) => v,
            None => &empty,
        };
        assert(texts(empty@) =~= Seq::<Seq<char>>::empty());
        let w = self.section(&all, "Workspace skills", "workspace", ex, self.workspace_skills.as_str());
        let b = match &self.builtin_skills {
            Some(root) => self.section(&all, "Built-in skills", "builtin", ex, root.as_str()),
            None => None,
        };
        let mut sections: Vec<String> = Vec::new();
        match w {
            Some(x) => sections.push(x),
            None => {},
        }
        match b {
            Some(x) => sections.push(x),
            None => {},
        }
        proof {
            assert(texts(sections@) =~= opt_seq(crate::bus::opt_view(w)) + opt_seq(crate::bus::opt_view(b)));
        }
        join_strings(&sections, "\n\n")
    }
}

/// Whether `name` is among `list`.
fn list_has(list: &Vec<String>, name: &str) -> (r: bool)
    ensures
        r == in_list(list@, name@),
{
    let mut i: usize = 0;
    while i < list.len()
        invariant
            i <= list@.len(),
            forall|k: int| 0 <= k < i ==> #[trigger] list@[k]@ != name@,
        decreases list@.len() - i,
    {
        if str_eq(list[i].as_str(), name) {
            return true;
        }
        i = i + 1;
    }
    false
}

/// Whether a skill of `files` is named `name`.
fn names_have(files: &Vec<SkillFile>, name: &str) -> (r: bool)
    ensures
        r == names_contain(files@, name@),
{
    let mut i: usize = 0;
    while i < files.len()
        invariant
            i <= files@.len(),
            forall|k: int| 0 <= k < i ==> #[trigger] files@[k].name@ != name@,
        decreases files@.len() - i,
    {
        if str_eq(files[i].name.as_str(), name) {
            return true;
        }
        i = i + 1;
    }
    false
}

/// The index of the first skill of `files` named `name`.
fn find_index(files: &Vec<SkillFile>, name: &str) -> (r: Option<usize>)
    ensures
        match r {
            Some(i) => i < files@.len() && find_skill(files@, name@) == Some(files@[i as int]),
            None => find_skill(files@, name@) is None,
        },
{
    let mut i: usize = 0;
    assert(files@.skip(0) =~= files@);
    while i < files.len()
        invariant
            i <= files@.len(),
            find_skill(files@, name@) == find_skill(files@.skip(i as int), name@),
        decreases files@.len() - i,
    {
        proof {
            assert(files@.skip(i as int)[0] == files@[i as int]);
            assert(files@.skip(i as int).drop_first() =~= files@.skip(i + 1));
        }
        if str_eq(files[i].name.as_str(), name) {
            return Some(i);
        }
        i = i + 1;
    }
    assert(files@.skip(i as int).len() == 0);
    None
}

/// Whether an entry of `all` is named `name`.
fn entries_have(all: &Vec<SkillEntry>, name: &str) -> (r: bool)
    ensures
        r == triples_have_name(entry_triples(all@), name@),
{
    let mut i: usize = 0;
    while i < all.len()
        invariant
            i <= all@.len(),
            forall|k: int| 0 <= k < i ==> #[trigger] entry_triples(all@)[k].0 != name@,
        decreases all@.len() - i,
    {
        if str_eq(all[i].name.as_str(), name) {
            assert(entry_triples(all@)[i as int].0 == name@);
            return true;
        }
        i = i + 1;
    }
    false
}

/// `name` is among the strings exactly when it is among their texts.
pub proof fn lemma_in_list_texts(v: Seq<String>, name: Seq<char>)
    ensures
        in_list(v, name) == texts(v).contains(name),
{
    if in_list(v, name) {
        let i = choose|i: int| 0 <= i < v.len() && #[trigger] v[i]@ == name;
        assert(texts(v)[i] == name);
    }
    if texts(v).contains(name) {
        let j = choose|j: int| 0 <= j < texts(v).len() && texts(v)[j] == name;
        assert(v[j]@ == name);
    }
}

} // verus!

verus! {

/// Every kept skill is listed (not disabled; available when filtering) and not
/// shadowed.
proof fn lemma_kept<P: RequirementProbe>(l: &SkillsLoader<P>, files: Seq<SkillFile>, fu: bool, shadowing: Seq<SkillFile>, j: int)
    requires
        0 <= j < l.kept(files, fu, shadowing).len(),
    ensures
        !names_contain(shadowing, l.kept(files, fu, shadowing)[j].name@),
        l.keeps(l.kept(files, fu, shadowing)[j].name@, fu),
    decreases files.len(),
{
    if files.len() > 0 {
        let prev = l.kept(files.drop_last(), fu, shadowing);
        if j < prev.len() {
            lemma_kept(l, files.drop_last(), fu, shadowing, j);
        }
    }
}

/// A workspace skill shadows the built-in skill of the same name: no listed built-in
/// skill has the name of a workspace skill.
pub proof fn law_workspace_shadows_builtin<P: RequirementProbe>(l: &SkillsLoader<P>, fu: bool, j: int)
    requires
        l.kept(l.ws_view(), fu, Seq::empty()).len() <= j < l.listed(fu).len(),
    ensures
        !names_contain(l.ws_view(), l.listed(fu)[j].name@),
{
    let a = l.kept(l.ws_view(), fu, Seq::empty());
    lemma_kept(l, l.bs_view(), fu, l.ws_view(), j - a.len());
}

/// A disabled skill is never listed, and a listing that filters out unavailable
/// skills lists only skills whose requirements are met.
pub proof fn law_listed_skills_are_enabled<P: RequirementProbe>(l: &SkillsLoader<P>, fu: bool, j: int)
    requires
        0 <= j < l.listed(fu).len(),
    ensures
        !in_list(l.disabled_view(), l.listed(fu)[j].name@),
        fu ==> l.available_spec(l.listed(fu)[j].name@),
{
    let a = l.kept(l.ws_view(), fu, Seq::empty());
    if j < a.len() {
        lemma_kept(l, l.ws_view(), fu, Seq::empty(), j);
    } else {
        lemma_kept(l, l.bs_view(), fu, l.ws_view(), j - a.len());
    }
}

} // verus!

verus! {

/// Every kept skill is one of `files`.
proof fn lemma_kept_from<P: RequirementProbe>(l: &SkillsLoader<P>, files: Seq<SkillFile>, fu: bool, shadowing: Seq<SkillFile>, j: int)
    requires
        0 <= j < l.kept(files, fu, shadowing).len(),
    ensures
        exists|k: int| 0 <= k < files.len() && files[k] == #[trigger] l.kept(files, fu, shadowing)[j],
    decreases files.len(),
{
    let prev = l.kept(files.drop_last(), fu, shadowing);
    if j < prev.len() {
        lemma_kept_from(l, files.drop_last(), fu, shadowing, j);
        let k = choose|k: int| 0 <= k < files.drop_last().len() && files.drop_last()[k] == #[trigger] prev[j];
        assert(files[k] == l.kept(files, fu, shadowing)[j]);
    } else {
        assert(files[files.len() - 1] == l.kept(files, fu, shadowing)[j]);
    }
}

/// Kept skills of files with distinct names have distinct names.
proof fn lemma_kept_distinct<P: RequirementProbe>(l: &SkillsLoader<P>, files: Seq<SkillFile>, fu: bool, shadowing: Seq<SkillFile>)
    requires
        skill_names(files).no_duplicates(),
    ensures
        skill_names(l.kept(files, fu, shadowing)).no_duplicates(),
    decreases files.len(),
{
    if files.len() > 0 {
        let init = files.drop_last();
        assert(skill_names(init) =~= skill_names(files).drop_last());
        lemma_kept_distinct(l, init, fu, shadowing);
        let prev = l.kept(init, fu, shadowing);
        let cur = l.kept(files, fu, shadowing);
        let f = files.last();
        if cur.len() > prev.len() {
            assert(cur =~= prev.push(f));
            assert forall|i: int, j: int| 0 <= i < cur.len() && 0 <= j < cur.len() && i != j
                implies skill_names(cur)[i] != skill_names(cur)[j] by {
                if i < prev.len() && j < prev.len() {
                    assert(skill_names(cur)[i] == skill_names(prev)[i]);
                    assert(skill_names(cur)[j] == skill_names(prev)[j]);
                } else {
                    let a = if i < prev.len() { i } else { j };
                    lemma_kept_from(l, init, fu, shadowing, a);
                    let k = choose|k: int| 0 <= k < init.len() && init[k] == #[trigger] prev[a];
                    assert(skill_names(files)[k] == prev[a].name@);
                    assert(skill_names(files)[files.len() - 1] == f.name@);
                }
            }
        } else {
            assert(cur == prev);
        }
    }
}

/// Listed skills have distinct names.
pub proof fn law_listed_names_distinct<P: RequirementProbe>(l: &SkillsLoader<P>, fu: bool)
    requires
        l.wf(),
    ensures
        skill_names(l.listed(fu)).no_duplicates(),
{
    let a = l.kept(l.ws_view(), fu, Seq::empty());
    let b = l.kept(l.bs_view(), fu, l.ws_view());
    lemma_kept_distinct(l, l.ws_view(), fu, Seq::empty());
    lemma_kept_distinct(l, l.bs_view(), fu, l.ws_view());
    let all = l.listed(fu);
    assert(all == a + b);
    assert forall|i: int, j: int| 0 <= i < all.len() && 0 <= j < all.len() && i != j
        implies skill_names(all)[i] != skill_names(all)[j] by {
        if i < a.len() && j < a.len() {
            assert(skill_names(a)[i] == skill_names(all)[i]);
            assert(skill_names(a)[j] == skill_names(all)[j]);
        } else if i >= a.len() && j >= a.len() {
            assert(skill_names(b)[i - a.len()] == skill_names(all)[i]);
            assert(skill_names(b)[j - a.len()] == skill_names(all)[j]);
        } else {
            let (x, y) = if i < a.len() { (i, j) } else { (j, i) };
            lemma_kept_from(l, l.ws_view(), fu, Seq::empty(), x);
            let k = choose|k: int| 0 <= k < l.ws_view().len() && l.ws_view()[k] == #[trigger] a[x];
            lemma_kept(l, l.bs_view(), fu, l.ws_view(), y - a.len());
            assert(all[y] == b[y - a.len()]);
            assert(l.ws_view()[k].name@ == all[x].name@);
        }
    }
}

/// Kept skills of a filtering listing are those of an unfiltered one that are
/// available.
proof fn lemma_kept_filtered<P: RequirementProbe>(l: &SkillsLoader<P>, files: Seq<SkillFile>, shadowing: Seq<SkillFile>)
    ensures
        l.kept(files, true, shadowing)
            == l.kept(files, false, shadowing).filter(|f: SkillFile| l.available_spec(f.name@)),
    decreases files.len(),
{
    let pred = |f: SkillFile| l.available_spec(f.name@);
    reveal_with_fuel(Seq::filter, 1);
    if files.len() == 0 {
        assert(l.kept(files, false, shadowing).filter(pred) =~= Seq::<SkillFile>::empty());
    } else {
        lemma_kept_filtered(l, files.drop_last(), shadowing);
        let prev = l.kept(files.drop_last(), false, shadowing);
        prev.lemma_filter_push(files.last(), pred);
    }
}

/// A listing that leaves out unavailable skills is the unfiltered listing with the
/// unavailable skills taken out, in the same order.
pub proof fn law_available_listing_is_filtered<P: RequirementProbe>(l: &SkillsLoader<P>)
    ensures
        l.listed(true) == l.listed(false).filter(|f: SkillFile| l.available_spec(f.name@)),
{
    let pred = |f: SkillFile| l.available_spec(f.name@);
    lemma_kept_filtered(l, l.ws_view(), Seq::empty());
    lemma_kept_filtered(l, l.bs_view(), l.ws_view());
    Seq::filter_distributes_over_add(
        l.kept(l.ws_view(), false, Seq::empty()),
        l.kept(l.bs_view(), false, l.ws_view()),
        pred,
    );
}

/// The binaries are all present exactly when none is missing, and the missing texts
/// are `CLI: ` before each missing binary.
proof fn lemma_missing_bins<P: RequirementProbe>(p: P, bins: Seq<String>)
    ensures
        (missing_bins(p, bins).len() == 0) == (forall|i: int| 0 <= i < bins.len() ==> p.has_bin_spec(#[trigger] bins[i]@)),
        missing_bin_texts(p, bins) == missing_bins(p, bins).map_values(|b: String| "CLI: "@ + b@),
    decreases bins.len(),
{
    if bins.len() > 0 {
        let init = bins.drop_last();
        lemma_missing_bins(p, init);
        if missing_bins(p, init).len() == 0 && p.has_bin_spec(bins.last()@) {
            assert forall|i: int| 0 <= i < bins.len() implies p.has_bin_spec(#[trigger] bins[i]@) by {
                if i < init.len() {
                    assert(init[i] == bins[i]);
                }
            }
        }
        if forall|i: int| 0 <= i < bins.len() ==> p.has_bin_spec(#[trigger] bins[i]@) {
            assert(p.has_bin_spec(bins[bins.len() - 1]@));
            assert forall|i: int| 0 <= i < init.len() implies p.has_bin_spec(#[trigger] init[i]@) by {
                assert(init[i] == bins[i]);
            }
        }
        assert(missing_bin_texts(p, bins) =~= missing_bins(p, bins).map_values(|b: String| "CLI: "@ + b@));
    } else {
        assert(missing_bin_texts(p, bins) =~= missing_bins(p, bins).map_values(|b: String| "CLI: "@ + b@));
    }
}

/// The variables are all set exactly when none is missing, and the missing texts are
/// `ENV: ` before each missing variable.
proof fn lemma_missing_env<P: RequirementProbe>(p: P, env: Seq<String>)
    ensures
        (missing_env(p, env).len() == 0) == (forall|i: int| 0 <= i < env.len() ==> p.has_env_spec(#[trigger] env[i]@)),
        missing_env_texts(p, env) == missing_env(p, env).map_values(|e: String| "ENV: "@ + e@),
    decreases env.len(),
{
    if env.len() > 0 {
        let init = env.drop_last();
        lemma_missing_env(p, init);
        if missing_env(p, init).len() == 0 && p.has_env_spec(env.last()@) {
            assert forall|i: int| 0 <= i < env.len() implies p.has_env_spec(#[trigger] env[i]@) by {
                if i < init.len() {
                    assert(init[i] == env[i]);
                }
            }
        }
        if forall|i: int| 0 <= i < env.len() ==> p.has_env_spec(#[trigger] env[i]@) {
            assert(p.has_env_spec(env[env.len() - 1]@));
            assert forall|i: int| 0 <= i < init.len() implies p.has_env_spec(#[trigger] init[i]@) by {
                assert(init[i] == env[i]);
            }
        }
        assert(missing_env_texts(p, env) =~= missing_env(p, env).map_values(|e: String| "ENV: "@ + e@));
    } else {
        assert(missing_env_texts(p, env) =~= missing_env(p, env).map_values(|e: String| "ENV: "@ + e@));
    }
}

/// A skill is available exactly when its requirements list nothing missing, and the
/// reason given otherwise names the missing binaries (`CLI: `) and then the missing
/// variables (`ENV: `), joined with `, `.
pub proof fn law_availability_matches_requirements<P: RequirementProbe>(l: &SkillsLoader<P>, name: Seq<char>)
    ensures
        l.available_spec(name) == (missing_bins(l.probe_view(), bins_of(l.meta_of(name))).len() == 0
            && missing_env(l.probe_view(), env_of(l.meta_of(name))).len() == 0),
        missing_text(l.probe_view(), l.meta_of(name)) == join_seqs(
            missing_bins(l.probe_view(), bins_of(l.meta_of(name))).map_values(|b: String| "CLI: "@ + b@)
                + missing_env(l.probe_view(), env_of(l.meta_of(name))).map_values(|e: String| "ENV: "@ + e@),
            ", "@,
        ),
{
    lemma_missing_bins(l.probe_view(), bins_of(l.meta_of(name)));
    lemma_missing_env(l.probe_view(), env_of(l.meta_of(name)));
}

} // verus!

verus! {

/// Whether the frontmatter of the skill read for `name` marks it always-on, at the
/// top level or in its metadata payload.
pub open spec fn marked_always<P: RequirementProbe>(l: &SkillsLoader<P>, name: Seq<char>) -> bool {
    l.meta_of(name) matches Some(m) && (m.always || m.payload_always)
}

proof fn lemma_always_from_members<P: RequirementProbe>(l: &SkillsLoader<P>, ts: Seq<(Seq<char>, Seq<char>, Seq<char>)>, name: Seq<char>)
    ensures
        l.always_from(ts).contains(name)
            == (marked_always(l, name) && exists|k: int| 0 <= k < ts.len() && #[trigger] ts[k].0 == name),
    decreases ts.len(),
{
    if ts.len() > 0 {
        let init = ts.drop_last();
        lemma_always_from_members(l, init, name);
        let prev = l.always_from(init);
        if exists|k: int| 0 <= k < init.len() && #[trigger] init[k].0 == name {
            let k = choose|k: int| 0 <= k < init.len() && #[trigger] init[k].0 == name;
            assert(ts[k] == init[k]);
        }
        if exists|k: int| 0 <= k < ts.len() && #[trigger] ts[k].0 == name {
            let k = choose|k: int| 0 <= k < ts.len() && #[trigger] ts[k].0 == name;
            if k < init.len() {
                assert(init[k] == ts[k]);
            }
        }
        let n = ts.last().0;
        if l.meta_of(n) matches Some(m) && (m.payload_always || m.always) {
            assert(l.always_from(ts) == prev.push(n));
            if name == n {
                assert(l.always_from(ts)[prev.len() as int] == n);
            }
            if l.always_from(ts).contains(name) && name != n {
                let i = choose|i: int| 0 <= i < l.always_from(ts).len() && l.always_from(ts)[i] == name;
                assert(prev[i] == name);
            }
            if prev.contains(name) {
                let i = choose|i: int| 0 <= i < prev.len() && prev[i] == name;
                assert(l.always_from(ts)[i] == name);
            }
        }
    }
}

/// The always-on skills are exactly the listed (available, enabled) skills whose
/// frontmatter marks them always-on, by the top-level `always` flag or by the
/// `always` flag of the metadata payload.
pub proof fn law_always_skills_are_the_marked_listed_ones<P: RequirementProbe>(l: &SkillsLoader<P>, name: Seq<char>)
    ensures
        l.always_from(file_triples(l.listed(true))).contains(name)
            == (marked_always(l, name) && exists|j: int| 0 <= j < l.listed(true).len() && #[trigger] l.listed(true)[j].name@ == name),
{
    let ts = file_triples(l.listed(true));
    lemma_always_from_members(l, ts, name);
    if exists|k: int| 0 <= k < ts.len() && #[trigger] ts[k].0 == name {
        let k = choose|k: int| 0 <= k < ts.len() && #[trigger] ts[k].0 == name;
        assert(l.listed(true)[k].name@ == name);
    }
    if exists|j: int| 0 <= j < l.listed(true).len() && #[trigger] l.listed(true)[j].name@ == name {
        let j = choose|j: int| 0 <= j < l.listed(true).len() && #[trigger] l.listed(true)[j].name@ == name;
        assert(ts[j].0 == name);
    }
}

} // verus!
