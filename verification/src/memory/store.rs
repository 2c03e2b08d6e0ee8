//! The memory of a workspace: `memory/MEMORY.md` (long-term facts), `SOUL.md`,
//! `USER.md`, the append-only `memory/history.jsonl` with its cursor file, and the
//! `.dream_cursor` of consolidation.
//!
//! The store holds the files' paths and contents; the caller reads them in before
//! and writes back what changed.

use vstd::prelude::*;

use crate::doc::{get, get_spec, is_map, DocValue};
use crate::memory::strip::{strip_think, strip_think_spec};
use crate::paths::{join, join_path};
use crate::text::{json_quote, json_quoted, chars_of, dec, fmt_u64, parse_nat, parse_u64, string_from, trim, trim_chars, trim_end, trim_end_chars};

verus! {

/// Longest history entry kept, in characters.
pub const HISTORY_ENTRY_HARD_CAP: usize = 64000;

/// One history record.
pub struct HistoryEntry {
    pub cursor: u64,
    /// `YYYY-MM-DD HH:MM` (local time).
    pub timestamp: String,
    /// The content, cleaned of thinking blocks.
    pub content: String,
    pub session_key: Option<String>,
}

impl HistoryEntry {
    /// A copy of this entry.
    pub fn duplicate(&self) -> (r: Self)
        ensures
            r == *self,
    {
        HistoryEntry {
            cursor: self.cursor,
            timestamp: self.timestamp.clone(),
            content: self.content.clone(),
            session_key: crate::bus::clone_opt(&self.session_key),
        }
    }
}

/// Whether a record lies beyond the cursor `since`.
pub open spec fn past(since: u64) -> spec_fn(HistoryEntry) -> bool {
    |x: HistoryEntry| x.cursor > since
}

/// Whether a record belongs to the session `key`.
pub open spec fn in_session(key: Seq<char>) -> spec_fn(HistoryEntry) -> bool {
    |x: HistoryEntry| x.session_key matches Some(k) && k@ == key
}

/// The entries after `since`, in order.
pub open spec fn after(e: Seq<HistoryEntry>, since: u64) -> Seq<HistoryEntry> {
    e.filter(past(since))
}

/// The entries of session `key`, in order.
pub open spec fn of_session(e: Seq<HistoryEntry>, key: Seq<char>) -> Seq<HistoryEntry> {
    e.filter(in_session(key))
}

/// The greatest cursor of the entries (zero for none).
pub open spec fn max_cursor(e: Seq<HistoryEntry>) -> u64
    decreases e.len(),
{
    if e.len() == 0 {
        0
    } else {
        let m = max_cursor(e.drop_last());
        if e.last().cursor > m { e.last().cursor } else { m }
    }
}

/// A cursor file's value: its trimmed text as a number, zero when absent or bad.
pub open spec fn cursor_value(text: Seq<char>) -> nat {
    match parse_nat(trim(text)) {
        Some(n) => if n <= u64::MAX { n } else { 0 },
        None => 0,
    }
}

/// The file paths of a workspace's memory.
pub open spec fn memory_path(workspace: Seq<char>) -> Seq<char> {
    join_path(join_path(workspace, "memory"@), "MEMORY.md"@)
}

/// The memory of a workspace.
pub struct MemoryStore {
    memory_file: String,
    soul_file: String,
    user_file: String,
    history_file: String,
    cursor_file: String,
    dream_cursor_file: String,
    memory: String,
    soul: String,
    user: String,
    entries: Vec<HistoryEntry>,
    cursor_text: String,
    dream_cursor_text: String,
}

impl MemoryStore {
    pub closed spec fn memory_view(&self) -> Seq<char> { self.memory@ }
    pub closed spec fn soul_view(&self) -> Seq<char> { self.soul@ }
    pub closed spec fn user_view(&self) -> Seq<char> { self.user@ }
    /// The valid history records, in file order.
    pub closed spec fn entries_view(&self) -> Seq<HistoryEntry> { self.entries@ }
    pub closed spec fn cursor_text_view(&self) -> Seq<char> { self.cursor_text@ }
    pub closed spec fn dream_cursor_text_view(&self) -> Seq<char> { self.dream_cursor_text@ }
    pub closed spec fn history_file_view(&self) -> Seq<char> { self.history_file@ }
    pub closed spec fn memory_file_view(&self) -> Seq<char> { self.memory_file@ }
    pub closed spec fn soul_file_view(&self) -> Seq<char> { self.soul_file@ }
    pub closed spec fn user_file_view(&self) -> Seq<char> { self.user_file@ }
    pub closed spec fn cursor_file_view(&self) -> Seq<char> { self.cursor_file@ }
    pub closed spec fn dream_cursor_file_view(&self) -> Seq<char> { self.dream_cursor_file@ }

    /// The memory of `workspace`, with all files empty until loaded.
    pub fn new(workspace: &str) -> (s: Self)
        ensures
            s.memory_file_view() == memory_path(workspace@),
            s.history_file_view() == join_path(join_path(workspace@, "memory"@), "history.jsonl"@),
            s.soul_file_view() == join_path(workspace@, "SOUL.md"@),
            s.user_file_view() == join_path(workspace@, "USER.md"@),
            s.cursor_file_view() == join_path(join_path(workspace@, "memory"@), ".cursor"@),
            s.dream_cursor_file_view() == join_path(join_path(workspace@, "memory"@), ".dream_cursor"@),
            s.memory_view().len() == 0,
            s.soul_view().len() == 0,
            s.user_view().len() == 0,
            s.entries_view().len() == 0,
            s.cursor_text_view().len() == 0,
            s.dream_cursor_text_view().len() == 0,
    {
        let w = chars_of(workspace);
        let dir = join(&w, "memory");
        MemoryStore {
            memory_file: string_from(&join(&dir, "MEMORY.md")),
            soul_file: string_from(&join(&w, "SOUL.md")),
            user_file: string_from(&join(&w, "USER.md")),
            history_file: string_from(&join(&dir, "history.jsonl")),
            cursor_file: string_from(&join(&dir, ".cursor")),
            dream_cursor_file: string_from(&join(&dir, ".dream_cursor")),
            memory: String::new(),
            soul: String::new(),
            user: String::new(),
            entries: Vec::new(),
            cursor_text: String::new(),
            dream_cursor_text: String::new(),
        }
    }

    /// Loads the files' contents (missing files as empty text) and the valid history
    /// records.
    pub fn load(&mut self, memory: String, soul: String, user: String, entries: Vec<HistoryEntry>, cursor_text: String, dream_cursor_text: String)
        ensures
            final(self).memory_view() == memory@,
            final(self).soul_view() == soul@,
            final(self).user_view() == user@,
            final(self).entries_view() == entries@,
            final(self).cursor_text_view() == cursor_text@,
            final(self).dream_cursor_text_view() == dream_cursor_text@,
            final(self).history_file_view() == old(self).history_file_view(),
            final(self).memory_file_view() == old(self).memory_file_view(),
            final(self).soul_file_view() == old(self).soul_file_view(),
            final(self).user_file_view() == old(self).user_file_view(),
            final(self).cursor_file_view() == old(self).cursor_file_view(),
            final(self).dream_cursor_file_view() == old(self).dream_cursor_file_view(),
    {
        self.memory = memory;
        self.soul = soul;
        self.user = user;
        self.entries = entries;
        self.cursor_text = cursor_text;
        self.dream_cursor_text = dream_cursor_text;
    }

    /// Path of `history.jsonl`.
    pub fn history_file(&self) -> (r: &str)
        ensures
            r@ == self.history_file_view(),
    {
        self.history_file.as_str()
    }

    /// Paths of `MEMORY.md`, `SOUL.md`, `USER.md`, `.cursor` and `.dream_cursor`.
    pub fn file_paths(&self) -> (r: (&str, &str, &str, &str, &str))
        ensures
            r.0@ == self.memory_file_view(),
            r.1@ == self.soul_file_view(),
            r.2@ == self.user_file_view(),
            r.3@ == self.cursor_file_view(),
            r.4@ == self.dream_cursor_file_view(),
    {
        (self.memory_file.as_str(), self.soul_file.as_str(), self.user_file.as_str(), self.cursor_file.as_str(), self.dream_cursor_file.as_str())
    }

    /// `MEMORY.md`.
    pub fn read_memory(&self) -> (r: String)
        ensures
            r@ == self.memory_view(),
    {
        self.memory.clone()
    }

    /// Replaces `MEMORY.md`.
    pub fn write_memory(&mut self, content: &str)
        ensures
            final(self).memory_view() == content@,
            final(self).entries_view() == old(self).entries_view(),
            final(self).dream_cursor_text_view() == old(self).dream_cursor_text_view(),
            final(self).cursor_text_view() == old(self).cursor_text_view(),
    {
        self.memory = content.to_owned();
    }

    /// `SOUL.md`.
    pub fn read_soul(&self) -> (r: String)
        ensures
            r@ == self.soul_view(),
    {
        self.soul.clone()
    }

    /// Replaces `SOUL.md`.
    pub fn write_soul(&mut self, content: &str)
        ensures
            final(self).soul_view() == content@,
            final(self).memory_view() == old(self).memory_view(),
            final(self).user_view() == old(self).user_view(),
            final(self).entries_view() == old(self).entries_view(),
    {
        self.soul = content.to_owned();
    }

    /// `USER.md`.
    pub fn read_user(&self) -> (r: String)
        ensures
            r@ == self.user_view(),
    {
        self.user.clone()
    }

    /// Replaces `USER.md`.
    pub fn write_user(&mut self, content: &str)
        ensures
            final(self).user_view() == content@,
            final(self).memory_view() == old(self).memory_view(),
            final(self).soul_view() == old(self).soul_view(),
            final(self).entries_view() == old(self).entries_view(),
    {
        self.user = content.to_owned();
    }

    /// The long-term memory block of the context: `## Long-term Memory` and the memory,
    /// or nothing when the memory is empty.
    pub fn get_memory_context(&self) -> (r: String)
        ensures
            r@ == if self.memory_view().len() == 0 {
                Seq::<char>::empty()
            } else {
                "## Long-term Memory\n"@ + self.memory_view()
            },
    {
        if self.memory.as_str().is_empty() {
            String::new()
        } else {
            let mut s = String::new();
            s.append("## Long-term Memory\n");
            s.append(self.memory.as_str());
            s
        }
    }

    /// The records after cursor `since_cursor`, in order.
    pub fn read_unprocessed_history(&self, since_cursor: u64) -> (r: Vec<HistoryEntry>)
        ensures
            r@ == after(self.entries_view(), since_cursor),
    {
        let ghost es = self.entries@;
        let ghost pred = past(since_cursor);
        let mut out: Vec<HistoryEntry> = Vec::new();
        let mut i: usize = 0;
        while i < self.entries.len()
            invariant
                i <= es.len(),
                es == self.entries@,
                pred == past(since_cursor),
                out@ == es.subrange(0, i as int).filter(pred),
            decreases es.len() - i,
        {
            proof {
                let pre = es.subrange(0, i as int);
                assert(es.subrange(0, i + 1) == pre.push(es[i as int]));
                pre.lemma_filter_push(es[i as int], pred);
            }
            if self.entries[i].cursor > since_cursor {
                out.push(self.entries[i].duplicate());
            }
            i = i + 1;
        }
        assert(es.subrange(0, es.len() as int) == es);
        out
    }

    /// The records after `since_cursor` that may go into the prompt: all of them
    /// without a session, else those of that session.
    pub fn read_recent_history_for_prompt(&self, since_cursor: u64, session_key: Option<&str>) -> (r: Vec<HistoryEntry>)
        ensures
            r@ == match session_key {
                None => after(self.entries_view(), since_cursor),
                Some(k) => of_session(after(self.entries_view(), since_cursor), k@),
            },
    {
        let entries = self.read_unprocessed_history(since_cursor);
        match session_key {
            None => entries,
            Some(key) => {
                let ghost es = entries@;
                let ghost pred = in_session(key@);
                let mut out: Vec<HistoryEntry> = Vec::new();
                let mut i: usize = 0;
                while i < entries.len()
                    invariant
                        i <= es.len(),
                        es == entries@,
                        pred == in_session(key@),
                        out@ == es.subrange(0, i as int).filter(pred),
                    decreases es.len() - i,
                {
                    proof {
                        let pre = es.subrange(0, i as int);
                        assert(es.subrange(0, i + 1) == pre.push(es[i as int]));
                        pre.lemma_filter_push(es[i as int], pred);
                    }
                    let keep = match &entries[i].session_key {
                        Some(k) => crate::text::str_eq(k.as_str(), key),
                        None => false,
                    };
                    if keep {
                        out.push(entries[i].duplicate());
                    }
                    i = i + 1;
                }
                assert(es.subrange(0, es.len() as int) == es);
                out
            },
        }
    }

    /// The cursor consolidation has reached (zero when the file is missing or bad).
    pub fn get_last_dream_cursor(&self) -> (r: u64)
        ensures
            r == cursor_value(self.dream_cursor_text_view()),
    {
        cursor_of(&self.dream_cursor_text)
    }

    /// Records the cursor consolidation has reached.
    pub fn set_last_dream_cursor(&mut self, cursor: u64)
        ensures
            final(self).dream_cursor_text_view() == dec(cursor as nat),
            final(self).memory_view() == old(self).memory_view(),
            final(self).entries_view() == old(self).entries_view(),
            final(self).cursor_text_view() == old(self).cursor_text_view(),
    {
        self.dream_cursor_text = string_from(&fmt_u64(cursor));
    }

    /// Whether at least `min_entries` records await consolidation.
    pub fn should_consolidate(&self, min_entries: usize) -> (r: bool)
        ensures
            r == (after(self.entries_view(), cursor_value(self.dream_cursor_text_view()) as u64).len() >= min_entries),
    {
        let since = self.get_last_dream_cursor();
        self.read_unprocessed_history(since).len() >= min_entries
    }
}

/// The value of a cursor file's text.
fn cursor_of(text: &String) -> (r: u64)
    ensures
        r == cursor_value(text@),
{
    let cs = chars_of(text.as_str());
    let t = trim_chars(&cs);
    match parse_u64(&t) {
        Some(v) => v,
        None => 0,
    }
}

/// The local time as `YYYY-MM-DD HH:MM` (`chrono::Local::now` formatted). It depends
/// on the clock and the machine's zone, so nothing is stated of it.
#[verifier::external_body]
fn local_timestamp() -> (r: String) {
    chrono::Local::now().format("%Y-%m-%d %H:%M").to_string()
}

/// The first `n` characters of `s` (all of it when shorter).
pub open spec fn take_chars(s: Seq<char>, n: nat) -> Seq<char> {
    if s.len() > n { s.subrange(0, n as int) } else { s }
}

/// The JSON line of a history record (fields in declaration order, `session_key`
/// only when present).
pub open spec fn history_line(cursor: u64, timestamp: Seq<char>, content: Seq<char>, session_key: Option<Seq<char>>) -> Seq<char> {
    "{\"cursor\":"@ + dec(cursor as nat) + ",\"timestamp\":"@ + json_quoted(timestamp)
        + ",\"content\":"@ + json_quoted(content)
        + match session_key {
            Some(k) => ",\"session_key\":"@ + json_quoted(k),
            None => Seq::<char>::empty(),
        } + "}"@
}

/// The cursor the next record gets.
pub open spec fn next_cursor_spec(cursor_text: Seq<char>, entries: Seq<HistoryEntry>) -> int {
    let c = cursor_value(cursor_text);
    let m = max_cursor(entries);
    (if c >= m { c as int } else { m as int }) + 1
}

/// Takes the records and the text a dream runner turns into the new long-term memory.
pub trait DreamRunner {
    /// Whether `out` is a possible new memory made from `current` and `entries`; a
    /// runner that states nothing of its result leaves every text possible.
    open spec fn may_produce(&self, current: Seq<char>, entries: Seq<HistoryEntry>, out: Seq<char>) -> bool {
        true
    }

    /// The new `MEMORY.md` made from the current one and the records to consolidate.
    fn consolidate(&self, current_memory: &str, entries: &Vec<HistoryEntry>) -> (r: String)
        ensures
            self.may_produce(current_memory@, entries@, r@);
}

/// What one consolidation did.
#[derive(PartialEq, Eq, Structural, Clone, Copy, Debug)]
pub struct ConsolidationOutcome {
    /// Records consolidated.
    pub processed: usize,
    /// The cursor reached.
    pub new_cursor: u64,
}

/// The fields of a history record read from a document: a mapping whose `cursor` is
/// an unsigned integer, whose `timestamp` and `content` are strings and whose
/// `session_key` is absent, null or a string; `None` for anything else.
pub open spec fn entry_fields(v: DocValue) -> Option<(u64, Seq<char>, Seq<char>, Option<Seq<char>>)> {
    if !is_map(v) {
        None
    } else {
        match (get_spec(v, "cursor"@), get_spec(v, "timestamp"@), get_spec(v, "content"@)) {
            (
                Some(DocValue::Number { unsigned: Some(c), .. }),
                Some(DocValue::Str(t)),
                Some(DocValue::Str(x)),
            ) => match get_spec(v, "session_key"@) {
                None => Some((c, t@, x@, None)),
                Some(DocValue::Null) => Some((c, t@, x@, None)),
                Some(DocValue::Str(k)) => Some((c, t@, x@, Some(k@))),
                _ => None,
            },
            _ => None,
        }
    }
}

impl MemoryStore {
    /// A history record read from one line's document (see [`entry_fields`]).
    pub fn parse_entry(value: &DocValue) -> (r: Option<HistoryEntry>)
        ensures
            match r {
                Some(e) => entry_fields(*value) == Some((e.cursor, e.timestamp@, e.content@, crate::bus::opt_view(e.session_key))),
                None => entry_fields(*value) is None,
            },
    {
        match value {
            DocValue::Mapping(_) => {},
            _ => {
                return None;
            },
        }
        let cursor = match get(value, "cursor") {
            Some(DocValue::Number { unsigned: Some(c), .. }) => *c,
            _ => {
                return None;
            },
        };
        let timestamp = match get(value, "timestamp") {
            Some(DocValue::Str(t)) => t.as_str().to_owned(),
            _ => {
                return None;
            },
        };
        let content = match get(value, "content") {
            Some(DocValue::Str(x)) => x.as_str().to_owned(),
            _ => {
                return None;
            },
        };
        let session_key = match get(value, "session_key") {
            None => None,
            Some(DocValue::Null) => None,
            Some(DocValue::Str(k)) => Some(k.as_str().to_owned()),
            _ => {
                return None;
            },
        };
        Some(HistoryEntry { cursor, timestamp, content, session_key })
    }

    fn max_entry_cursor(&self) -> (r: u64)
        ensures
            r == max_cursor(self.entries_view()),
    {
        let mut m: u64 = 0;
        let mut i: usize = 0;
        while i < self.entries.len()
            invariant
                i <= self.entries@.len(),
                m == max_cursor(self.entries@.subrange(0, i as int)),
            decreases self.entries@.len() - i,
        {
            assert(self.entries@.subrange(0, i + 1).drop_last() =~= self.entries@.subrange(0, i as int));
            if self.entries[i].cursor > m {
                m = self.entries[i].cursor;
            }
            i = i + 1;
        }
        assert(self.entries@.subrange(0, self.entries@.len() as int) =~= self.entries@);
        m
    }

    /// Whether another record can be numbered (the next cursor fits in `u64`).
    pub fn can_append(&self) -> (r: bool)
        ensures
            r == (next_cursor_spec(self.cursor_text_view(), self.entries_view()) <= u64::MAX),
    {
        let c = cursor_of(&self.cursor_text);
        let m = self.max_entry_cursor();
        let top = if c >= m { c } else { m };
        top < u64::MAX
    }

    /// Appends a record of `entry` for `session_key`: trailing whitespace removed, cut to
    /// [`HISTORY_ENTRY_HARD_CAP`] characters, cleaned of thinking blocks, numbered with
    /// the next cursor and stamped with the local time. Returns the cursor and the JSON
    /// line to append to `history.jsonl`; the cursor file gets the new cursor.
    pub fn append_history(&mut self, entry: &str, session_key: Option<&str>) -> (r: (u64, String))
        requires
            next_cursor_spec(old(self).cursor_text_view(), old(self).entries_view()) <= u64::MAX,
        ensures
            r.0 == next_cursor_spec(old(self).cursor_text_view(), old(self).entries_view()),
            final(self).cursor_text_view() == dec(r.0 as nat),
            final(self).entries_view().len() == old(self).entries_view().len() + 1,
            final(self).entries_view().drop_last() == old(self).entries_view(),
            ({
                let e = final(self).entries_view().last();
                &&& e.cursor == r.0
                &&& e.content@ == strip_think_spec(take_chars(trim_end(entry@), HISTORY_ENTRY_HARD_CAP as nat))
                &&& crate::bus::opt_view(e.session_key) == crate::paths::opt_str(session_key)
                &&& r.1@ == history_line(r.0, e.timestamp@, e.content@, crate::paths::opt_str(session_key))
            }),
            final(self).memory_view() == old(self).memory_view(),
            final(self).dream_cursor_text_view() == old(self).dream_cursor_text_view(),
    {
        let timestamp = local_timestamp();
        let cs = chars_of(entry);
        let t = trim_end_chars(&cs);
        let mut raw: Vec<char> = Vec::new();
        let n = if t.len() > HISTORY_ENTRY_HARD_CAP { HISTORY_ENTRY_HARD_CAP } else { t.len() };
        let mut i: usize = 0;
        while i < n
            invariant
                i <= n <= t@.len(),
                raw@ == t@.subrange(0, i as int),
            decreases n - i,
        {
            raw.push(t[i]);
            i = i + 1;
        }
        assert(raw@ == take_chars(trim_end(entry@), HISTORY_ENTRY_HARD_CAP as nat)) by {
            if t@.len() <= HISTORY_ENTRY_HARD_CAP {
                assert(t@.subrange(0, t@.len() as int) =~= t@);
            }
        }
        let raw_s = string_from(&raw);
        let content = strip_think(raw_s.as_str());
        let c = cursor_of(&self.cursor_text);
        let m = self.max_entry_cursor();
        let cursor = (if c >= m { c } else { m }) + 1;
        let mut line = String::new();
        line.append("{\"cursor\":");
        line.append(string_from(&fmt_u64(cursor)).as_str());
        line.append(",\"timestamp\":");
        line.append(json_quote(timestamp.as_str()).as_str());
        line.append(",\"content\":");
        line.append(json_quote(content.as_str()).as_str());
        match session_key {
            Some(k) => {
                line.append(",\"session_key\":");
                line.append(json_quote(k).as_str());
            },
            None => {},
        }
        line.append("}");
        let key_owned: Option<String> = match session_key {
            Some(k) => Some(k.to_owned()),
            None => None,
        };
        self.entries.push(HistoryEntry { cursor, timestamp, content, session_key: key_owned });
        assert(self.entries@.drop_last() =~= old(self).entries@);
        self.cursor_text = string_from(&fmt_u64(cursor));
        (cursor, line)
    }

    /// Consolidates (see [`Self::consolidate`]) only when at least `min_entries`
    /// records await it; otherwise `None`, changing nothing.
    pub fn maybe_consolidate<R: DreamRunner>(&mut self, runner: &R, min_entries: usize) -> (r: Option<ConsolidationOutcome>)
        ensures
            ({
                let pending = after(old(self).entries_view(), cursor_value(old(self).dream_cursor_text_view()) as u64);
                if pending.len() < min_entries || pending.len() == 0 {
                    r is None && final(self).memory_view() == old(self).memory_view()
                        && final(self).dream_cursor_text_view() == old(self).dream_cursor_text_view()
                } else {
                    &&& r matches Some(o)
                    &&& o.processed == pending.len()
                    &&& o.new_cursor == max_cursor(pending)
                    &&& final(self).dream_cursor_text_view() == dec(o.new_cursor as nat)
                    &&& runner.may_produce(old(self).memory_view(), pending, final(self).memory_view())
                }
            }),
            final(self).entries_view() == old(self).entries_view(),
    {
        if !self.should_consolidate(min_entries) {
            return None;
        }
        self.consolidate(runner)
    }

    /// Consolidates the records after the dream cursor with `runner`: the memory becomes
    /// what the runner returns and the dream cursor moves to the greatest cursor
    /// consolidated. `None`, changing nothing, when there is nothing to consolidate.
    pub fn consolidate<R: DreamRunner>(&mut self, runner: &R) -> (r: Option<ConsolidationOutcome>)
        ensures
            ({
                let pending = after(old(self).entries_view(), cursor_value(old(self).dream_cursor_text_view()) as u64);
                if pending.len() == 0 {
                    r is None && final(self).memory_view() == old(self).memory_view()
                        && final(self).dream_cursor_text_view() == old(self).dream_cursor_text_view()
                } else {
                    &&& r matches Some(o)
                    &&& o.processed == pending.len()
                    &&& o.new_cursor == max_cursor(pending)
                    &&& final(self).dream_cursor_text_view() == dec(o.new_cursor as nat)
                    &&& runner.may_produce(old(self).memory_view(), pending, final(self).memory_view())
                }
            }),
            final(self).entries_view() == old(self).entries_view(),
    {
        let since = self.get_last_dream_cursor();
        let entries = self.read_unprocessed_history(since);
        if entries.len() == 0 {
            return None;
        }
        let new_memory = runner.consolidate(self.memory.as_str(), &entries);
        Some(self.finish_consolidation(new_memory, &entries))
    }

    /// Records a consolidation of `entries` whose result is `new_memory`: the memory
    /// becomes it and the dream cursor moves to the greatest cursor of the entries.
    pub fn finish_consolidation(&mut self, new_memory: String, entries: &Vec<HistoryEntry>) -> (o: ConsolidationOutcome)
        ensures
            final(self).memory_view() == new_memory@,
            o.processed == entries@.len(),
            o.new_cursor == max_cursor(entries@),
            final(self).dream_cursor_text_view() == dec(o.new_cursor as nat),
            final(self).entries_view() == old(self).entries_view(),
            final(self).cursor_text_view() == old(self).cursor_text_view(),
    {
        self.memory = new_memory;
        let mut m: u64 = 0;
        let mut i: usize = 0;
        while i < entries.len()
            invariant
                i <= entries@.len(),
                m == max_cursor(entries@.subrange(0, i as int)),
            decreases entries@.len() - i,
        {
            assert(entries@.subrange(0, i + 1).drop_last() =~= entries@.subrange(0, i as int));
            if entries[i].cursor > m {
                m = entries[i].cursor;
            }
            i = i + 1;
        }
        assert(entries@.subrange(0, entries@.len() as int) =~= entries@);
        self.set_last_dream_cursor(m);
        ConsolidationOutcome { processed: entries.len(), new_cursor: m }
    }
}

/// A text completion service for the dream runner.
pub trait TextCompletion {
    /// The reply text to `prompt` (`Ok(None)` for a reply without text), or an error.
    fn complete_text(&self, prompt: &str) -> Result<Option<String>, String>;
}

/// The records' contents, separated by blank lines.
pub open spec fn joined_contents(e: Seq<HistoryEntry>) -> Seq<char>
    decreases e.len(),
{
    if e.len() == 0 {
        Seq::empty()
    } else if e.len() == 1 {
        e[0].content@
    } else {
        joined_contents(e.drop_last()) + "\n\n"@ + e.last().content@
    }
}

/// The consolidation prompt: the current memory and the new records.
pub open spec fn dream_prompt_spec(memory: Seq<char>, e: Seq<HistoryEntry>) -> Seq<char> {
    "你是一个记忆整合助手。下面是当前的长期记忆：\n\n"@ + memory
        + "\n\n下面是最近的对话历史条目，请提取其中有价值的信息并更新上面的长期记忆。直接返回更新后的完整 MEMORY.md 内容，不要加额外解释。\n\n"@
        + joined_contents(e)
}

/// The consolidation prompt for the current memory and the records.
pub fn dream_prompt(current_memory: &str, entries: &Vec<HistoryEntry>) -> (r: String)
    ensures
        r@ == dream_prompt_spec(current_memory@, entries@),
{
    let mut out = String::new();
    out.append("你是一个记忆整合助手。下面是当前的长期记忆：\n\n");
    out.append(current_memory);
    out.append("\n\n下面是最近的对话历史条目，请提取其中有价值的信息并更新上面的长期记忆。直接返回更新后的完整 MEMORY.md 内容，不要加额外解释。\n\n");
    let ghost head = out@;
    let mut i: usize = 0;
    while i < entries.len()
        invariant
            i <= entries@.len(),
            out@ == head + joined_contents(entries@.subrange(0, i as int)),
        decreases entries@.len() - i,
    {
        if i > 0 {
            out.append("\n\n");
        }
        out.append(entries[i].content.as_str());
        proof {
            let nx = entries@.subrange(0, i + 1);
            assert(nx.drop_last() =~= entries@.subrange(0, i as int));
            if i == 0 {
                assert(nx.len() == 1);
            }
        }
        i = i + 1;
    }
    assert(entries@.subrange(0, entries@.len() as int) =~= entries@);
    out
}

/// The new memory from a completion: its text when non-blank, else the current memory
/// (also when the completion failed).
pub open spec fn dream_result_spec(current: Seq<char>, reply: Result<Option<Seq<char>>, Seq<char>>) -> Seq<char> {
    match reply {
        Ok(Some(t)) => if trim(t).len() == 0 { current } else { t },
        _ => current,
    }
}

/// Consolidation by a language model.
pub struct ProviderDreamRunner<P> {
    provider: P,
}

impl<P: TextCompletion> ProviderDreamRunner<P> {
    pub closed spec fn provider_view(&self) -> P {
        self.provider
    }

    /// A runner that asks `provider`.
    pub fn new(provider: P) -> (r: Self)
        ensures
            r.provider_view() == provider,
    {
        ProviderDreamRunner { provider }
    }
}

/// The new memory from a completion's reply (see [`dream_result_spec`]).
pub fn dream_result(current_memory: &str, reply: Result<Option<String>, String>) -> (r: String)
    ensures
        r@ == dream_result_spec(current_memory@, match reply {
            Ok(Some(t)) => Ok(Some(t@)),
            Ok(None) => Ok(None),
            Err(e) => Err(e@),
        }),
{
    match reply {
        Ok(Some(text)) => {
            let cs = chars_of(text.as_str());
            if crate::text::is_blank(&cs) {
                current_memory.to_owned()
            } else {
                text
            }
        },
        _ => current_memory.to_owned(),
    }
}

impl<P: TextCompletion> DreamRunner for ProviderDreamRunner<P> {
    /// The provider's reply to [`dream_prompt`] where it has non-blank text, else
    /// the current memory unchanged.
    open spec fn may_produce(&self, current: Seq<char>, entries: Seq<HistoryEntry>, out: Seq<char>) -> bool {
        out == current || trim(out).len() > 0
    }

    fn consolidate(&self, current_memory: &str, entries: &Vec<HistoryEntry>) -> (r: String) {
        let prompt = dream_prompt(current_memory, entries);
        dream_result(current_memory, self.provider.complete_text(prompt.as_str()))
    }
}

} // verus!

verus! {

/// Setting the dream cursor and reading it back gives the cursor set: the decimal
/// text written for `cursor` reads back as `cursor`.
pub proof fn law_dream_cursor_round_trip(cursor: u64)
    ensures
        cursor_value(dec(cursor as nat)) == cursor,
{
    crate::text::lemma_dec_parses(cursor as nat);
}

} // verus!

verus! {

/// Whether `text` holds the contents of `e`, in order and without overlap, at the
/// positions `pos`.
pub open spec fn holds_in_order(text: Seq<char>, e: Seq<HistoryEntry>, pos: Seq<int>) -> bool {
    &&& pos.len() == e.len()
    &&& forall|k: int| 0 <= k < e.len() ==> {
        &&& 0 <= #[trigger] pos[k]
        &&& pos[k] + e[k].content@.len() <= text.len()
        &&& text.subrange(pos[k], pos[k] + e[k].content@.len()) == e[k].content@
    }
    &&& forall|k: int| 0 <= k < e.len() - 1 ==> #[trigger] pos[k] + e[k].content@.len() <= pos[k + 1]
}

proof fn lemma_joined_holds(e: Seq<HistoryEntry>) -> (pos: Seq<int>)
    ensures
        holds_in_order(joined_contents(e), e, pos),
    decreases e.len(),
{
    if e.len() == 0 {
        Seq::empty()
    } else if e.len() == 1 {
        assert(joined_contents(e).subrange(0, e[0].content@.len() as int) =~= e[0].content@);
        seq![0int]
    } else {
        let init = e.drop_last();
        let p = lemma_joined_holds(init);
        let j = joined_contents(init);
        let text = joined_contents(e);
        reveal_strlit("\n\n");
        assert("\n\n"@.len() == 2);
        let at: int = j.len() as int + 2;
        let q = p.push(at);
        assert(text == j + "\n\n"@ + e.last().content@);
        assert forall|k: int| 0 <= k < e.len() implies {
            &&& 0 <= #[trigger] q[k]
            &&& q[k] + e[k].content@.len() <= text.len()
            &&& text.subrange(q[k], q[k] + e[k].content@.len()) == e[k].content@
        } by {
            if k < init.len() {
                assert(init[k] == e[k]);
                assert(text.subrange(q[k], q[k] + e[k].content@.len()) =~= j.subrange(p[k], p[k] + init[k].content@.len()));
            } else {
                assert(e[k] == e.last());
                assert(q[k] == at);
                assert(text.subrange(at, at + e[k].content@.len()) =~= e.last().content@);
            }
        }
        assert forall|k: int| 0 <= k < e.len() - 1 implies #[trigger] q[k] + e[k].content@.len() <= q[k + 1] by {
            assert(init[k] == e[k]);
            if k < init.len() - 1 {
            } else {
                assert(p[k] + init[k].content@.len() <= j.len());
            }
        }
        q
    }
}

/// The consolidation prompt carries every record handed to it: the content of each
/// appears in the prompt, in the records' order and without overlap, after the
/// current memory.
pub proof fn law_dream_prompt_holds_every_record(memory: Seq<char>, e: Seq<HistoryEntry>)
    ensures
        exists|pos: Seq<int>| #[trigger] holds_in_order(dream_prompt_spec(memory, e), e, pos)
            && forall|k: int| 0 <= k < pos.len() ==> memory.len() < #[trigger] pos[k],
{
    let p = lemma_joined_holds(e);
    let head = "你是一个记忆整合助手。下面是当前的长期记忆：\n\n"@ + memory
        + "\n\n下面是最近的对话历史条目，请提取其中有价值的信息并更新上面的长期记忆。直接返回更新后的完整 MEMORY.md 内容，不要加额外解释。\n\n"@;
    let text = dream_prompt_spec(memory, e);
    let j = joined_contents(e);
    assert(text == head + j);
    let q = Seq::new(p.len(), |k: int| p[k] + head.len());
    assert forall|k: int| 0 <= k < e.len() implies {
        &&& 0 <= #[trigger] q[k]
        &&& q[k] + e[k].content@.len() <= text.len()
        &&& text.subrange(q[k], q[k] + e[k].content@.len()) == e[k].content@
    } by {
        assert(text.subrange(q[k], q[k] + e[k].content@.len()) =~= j.subrange(p[k], p[k] + e[k].content@.len()));
    }
    assert(holds_in_order(text, e, q));
    reveal_strlit("你是一个记忆整合助手。下面是当前的长期记忆：\n\n");
    assert("你是一个记忆整合助手。下面是当前的长期记忆：\n\n"@.len() > 0);
    assert(head.len() > memory.len());
    assert forall|k: int| 0 <= k < q.len() implies memory.len() < #[trigger] q[k] by {}
}

} // verus!
