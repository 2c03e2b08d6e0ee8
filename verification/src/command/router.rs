//! Slash-command routing: normalization of the command text and a three-layer table
//! (priority, exact, then prefix with the longest prefix first).
//!
//! The router is generic over what it routes to; [`CommandRouter::dispatch`] returns
//! the handler that matches and fills the context's arguments, and the caller runs it.

use vstd::prelude::*;

use crate::text::{
    chars_of, is_prefix, push_chars, rsplit_once, rsplit_once_char, split_once,
    split_once_char, starts_with, string_from, trim, trim_chars,
};

verus! {

/// The context of one command.
pub struct CommandContext {
    pub channel: String,
    pub chat_id: String,
    /// Session key (`channel:chat_id`).
    pub key: String,
    /// The command text (normalized by dispatch).
    pub raw: String,
    /// What follows a prefix command's prefix (empty for exact matches).
    pub args: String,
}

impl CommandContext {
    /// A context with no arguments yet.
    pub fn new(channel: String, chat_id: String, key: String, raw: String) -> (c: Self)
        ensures
            c.channel == channel,
            c.chat_id == chat_id,
            c.key == key,
            c.raw == raw,
            c.args@ == Seq::<char>::empty(),
    {
        CommandContext { channel, chat_id, key, raw, args: String::new() }
    }
}

/// A command's reply.
pub struct CommandOutput {
    pub channel: String,
    pub chat_id: String,
    pub content: String,
    /// Metadata entries as `(key, JSON text of the value)`, one per key.
    pub metadata: Vec<(String, String)>,
}

impl CommandOutput {
    /// A plain-text reply to the context's chat.
    pub fn text(ctx: &CommandContext, content: String) -> (o: Self)
        ensures
            o.channel == ctx.channel,
            o.chat_id == ctx.chat_id,
            o.content == content,
            o.metadata@.len() == 0,
    {
        CommandOutput {
            channel: ctx.channel.clone(),
            chat_id: ctx.chat_id.clone(),
            content,
            metadata: Vec::new(),
        }
    }

    /// The reply with metadata `key` set to the JSON text `value` (replacing an earlier
    /// value of that key).
    pub fn with_meta(self, key: String, value: String) -> (o: Self)
        ensures
            o.channel == self.channel,
            o.chat_id == self.chat_id,
            o.content == self.content,
            exists|i: int| 0 <= i < o.metadata@.len() && o.metadata@[i].0@ == key@ && o.metadata@[i].1 == value,
            forall|i: int| 0 <= i < o.metadata@.len() && o.metadata@[i].0@ != key@
                ==> self.metadata@.contains(#[trigger] o.metadata@[i]),
            forall|i: int| 0 <= i < self.metadata@.len() && self.metadata@[i].0@ != key@
                ==> o.metadata@.contains(#[trigger] self.metadata@[i]),
    {
        let mut o = self;
        let mut i: usize = 0;
        while i < o.metadata.len()
            invariant
                i <= o.metadata@.len(),
                o.metadata@ == self.metadata@,
                o.channel == self.channel,
                o.chat_id == self.chat_id,
                o.content == self.content,
                forall|k: int| 0 <= k < i ==> o.metadata@[k].0@ != key@,
            decreases o.metadata@.len() - i,
        {
            if o.metadata[i].0 == key {
                let ghost before = o.metadata@;
                o.metadata.set(i, (key, value));
                proof {
                    assert(o.metadata@[i as int].0@ == key@);
                    assert forall|k: int| 0 <= k < o.metadata@.len() && o.metadata@[k].0@ != key@
                        implies self.metadata@.contains(#[trigger] o.metadata@[k]) by {
                        assert(o.metadata@[k] == before[k]);
                    }
                    assert forall|k: int| 0 <= k < self.metadata@.len() && self.metadata@[k].0@ != key@
                        implies o.metadata@.contains(#[trigger] self.metadata@[k]) by {
                        assert(k != i);
                        assert(o.metadata@[k] == self.metadata@[k]);
                    }
                }
                return o;
            }
            i = i + 1;
        }
        let ghost before = o.metadata@;
        o.metadata.push((key, value));
        proof {
            let n = before.len() as int;
            assert(o.metadata@[n].0@ == key@);
            assert forall|k: int| 0 <= k < o.metadata@.len() && o.metadata@[k].0@ != key@
                implies self.metadata@.contains(#[trigger] o.metadata@[k]) by {
                assert(k < n);
                assert(o.metadata@[k] == before[k]);
            }
            assert forall|k: int| 0 <= k < self.metadata@.len() && self.metadata@[k].0@ != key@
                implies o.metadata@.contains(#[trigger] self.metadata@[k]) by {
                assert(o.metadata@[k] == self.metadata@[k]);
            }
        }
        o
    }
}

/// Whether `c` may end a bot-name suffix (ASCII letter or digit, or `_`).
pub open spec fn is_word_char(c: char) -> bool {
    ('a' <= c <= 'z') || ('A' <= c <= 'Z') || ('0' <= c <= '9') || c == '_'
}

/// The command text without the transport's `@bot` suffix: for a slash command
/// whose first word is `/cmd@bot` with a non-empty `/cmd` and a bot name of ASCII
/// letters, digits and `_`, the suffix is dropped and the arguments kept as they are;
/// any text is trimmed.
pub open spec fn normalize_spec(text: Seq<char>) -> Seq<char> {
    let s = trim(text);
    if !(s.len() > 0 && s[0] == '/') {
        s
    } else {
        match split_once(s, ' ') {
            Some((first, rest)) => strip_suffix(s, first, true, rest),
            None => strip_suffix(s, s, false, Seq::empty()),
        }
    }
}

/// Whether `suffix` is a bot name: non-empty, of ASCII letters, digits and `_`.
pub open spec fn is_bot_name(suffix: Seq<char>) -> bool {
    suffix.len() > 0 && forall|i: int| 0 <= i < suffix.len() ==> is_word_char(#[trigger] suffix[i])
}

/// `s` with the `@bot` suffix of its first word `first` dropped, when it has one.
pub open spec fn strip_suffix(s: Seq<char>, first: Seq<char>, sep: bool, rest: Seq<char>) -> Seq<char> {
    match rsplit_once(first, '@') {
        None => s,
        Some((command, suffix)) => if command.len() > 0 && is_bot_name(suffix) {
            if sep {
                command + seq![' '] + rest
            } else {
                command
            }
        } else {
            s
        },
    }
}

fn all_word_chars(s: &[char]) -> (r: bool)
    ensures
        r == forall|i: int| 0 <= i < s@.len() ==> is_word_char(#[trigger] s@[i]),
{
    let mut i: usize = 0;
    while i < s.len()
        invariant
            i <= s@.len(),
            forall|k: int| 0 <= k < i ==> is_word_char(#[trigger] s@[k]),
        decreases s@.len() - i,
    {
        let c = s[i];
        if !(('a' <= c && c <= 'z') || ('A' <= c && c <= 'Z') || ('0' <= c && c <= '9') || c == '_') {
            return false;
        }
        i = i + 1;
    }
    true
}

/// The command text without the transport's `@bot` suffix (see [`normalize_spec`]).
pub fn normalize_command_text(text: &str) -> (r: String)
    ensures
        r@ == normalize_spec(text@),
{
    let t = chars_of(text);
    let s = trim_chars(&t);
    if !(s.len() > 0 && s[0] == '/') {
        return string_from(&s);
    }
    let sp = split_once_char(&s, ' ');
    let sep = sp.is_some();
    let empty: Vec<char> = Vec::new();
    let (first, rest): (&[char], &[char]) = match &sp {
        Some((f, r)) => (f.as_slice(), r.as_slice()),
        None => (s.as_slice(), empty.as_slice()),
    };
    assert(empty@ =~= Seq::<char>::empty());
    match rsplit_once_char(first, '@') {
        None => string_from(&s),
        Some((command, suffix)) => {
            if command.len() > 0 && suffix.len() > 0 && all_word_chars(&suffix) {
                let mut out: Vec<char> = Vec::new();
                push_chars(&mut out, &command);
                if sep {
                    out.push(' ');
                    push_chars(&mut out, rest);
                }
                proof {
                    if sep {
                        assert(out@ =~= command@ + seq![' '] + rest@);
                    } else {
                        assert(out@ =~= command@);
                    }
                }
                string_from(&out)
            } else {
                string_from(&s)
            }
        },
    }
}

/// Unicode lowercase of a text, as `str::to_lowercase` computes it.
pub uninterp spec fn lower_text(s: Seq<char>) -> Seq<char>;

/// `s` in Unicode lowercase (`str::to_lowercase`).
#[verifier::external_body]
fn lowercase(s: &str) -> (r: String)
    ensures
        r@ == lower_text(s@),
{
    s.to_lowercase()
}

/// A routing table as `(key, handler)` pairs.
pub open spec fn table_view<H>(t: Seq<(String, H)>) -> Seq<(Seq<char>, H)> {
    t.map_values(|e: (String, H)| (e.0@, e.1))
}

/// Position of the first entry with key `k`.
pub open spec fn key_index<H>(t: Seq<(Seq<char>, H)>, k: Seq<char>) -> Option<int>
    decreases t.len(),
{
    if t.len() == 0 {
        None
    } else {
        match key_index(t.drop_last(), k) {
            Some(i) => Some(i),
            None => if t.last().0 == k { Some(t.len() - 1) } else { None },
        }
    }
}

/// Position of the first entry whose key is a prefix of `cmd`.
pub open spec fn prefix_index<H>(t: Seq<(Seq<char>, H)>, cmd: Seq<char>) -> Option<int>
    decreases t.len(),
{
    if t.len() == 0 {
        None
    } else {
        match prefix_index(t.drop_last(), cmd) {
            Some(i) => Some(i),
            None => if is_prefix(t.last().0, cmd) { Some(t.len() - 1) } else { None },
        }
    }
}

/// Where a prefix of length `n` goes in a table kept longest first: after every key
/// at least as long (so equal lengths keep their registration order).
pub open spec fn prefix_slot<H>(t: Seq<(Seq<char>, H)>, n: nat) -> int
    decreases t.len(),
{
    if t.len() == 0 {
        0
    } else if t.last().0.len() >= n {
        t.len() as int
    } else {
        prefix_slot(t.drop_last(), n)
    }
}

/// `t` with `(k, h)` registered: replacing the entry with key `k`, or added last.
pub open spec fn table_put<H>(t: Seq<(Seq<char>, H)>, k: Seq<char>, h: H) -> Seq<(Seq<char>, H)> {
    match key_index(t, k) {
        Some(i) => t.update(i, (k, h)),
        None => t.push((k, h)),
    }
}

/// Whether the keys are longest first.
pub open spec fn longest_first<H>(t: Seq<(Seq<char>, H)>) -> bool {
    forall|i: int, j: int| 0 <= i < j < t.len() ==> (#[trigger] t[i]).0.len() >= (#[trigger] t[j]).0.len()
}

proof fn lemma_key_index<H>(t: Seq<(Seq<char>, H)>, k: Seq<char>)
    ensures
        match key_index(t, k) {
            Some(i) => 0 <= i < t.len() && t[i].0 == k && forall|j: int| 0 <= j < i ==> t[j].0 != k,
            None => forall|j: int| 0 <= j < t.len() ==> t[j].0 != k,
        },
    decreases t.len(),
{
    if t.len() > 0 {
        lemma_key_index(t.drop_last(), k);
        assert forall|j: int| 0 <= j < t.len() - 1 implies t[j] == t.drop_last()[j] by {}
    }
}

proof fn lemma_prefix_index<H>(t: Seq<(Seq<char>, H)>, cmd: Seq<char>)
    ensures
        match prefix_index(t, cmd) {
            Some(i) => 0 <= i < t.len() && is_prefix(t[i].0, cmd) && forall|j: int| 0 <= j < i ==> !is_prefix(t[j].0, cmd),
            None => forall|j: int| 0 <= j < t.len() ==> !is_prefix(t[j].0, cmd),
        },
    decreases t.len(),
{
    if t.len() > 0 {
        lemma_prefix_index(t.drop_last(), cmd);
        assert forall|j: int| 0 <= j < t.len() - 1 implies t[j] == t.drop_last()[j] by {}
    }
}

proof fn lemma_prefix_slot<H>(t: Seq<(Seq<char>, H)>, n: nat)
    requires
        longest_first(t),
    ensures
        0 <= prefix_slot(t, n) <= t.len(),
        forall|j: int| 0 <= j < prefix_slot(t, n) ==> t[j].0.len() >= n,
        forall|j: int| prefix_slot(t, n) <= j < t.len() ==> t[j].0.len() < n,
    decreases t.len(),
{
    if t.len() > 0 {
        let d = t.drop_last();
        assert forall|i: int, j: int| 0 <= i < j < d.len() implies (#[trigger] d[i]).0.len() >= (#[trigger] d[j]).0.len() by {
            assert(d[i] == t[i] && d[j] == t[j]);
        }
        lemma_prefix_slot(d, n);
        if t.last().0.len() >= n {
            assert forall|j: int| 0 <= j < t.len() implies t[j].0.len() >= n by {
                if j < t.len() - 1 {
                    assert(t[j].0.len() >= t[t.len() - 1].0.len());
                }
            }
        } else {
            assert forall|j: int| 0 <= j < prefix_slot(t, n) implies t[j].0.len() >= n by {
                assert(t[j] == d[j]);
            }
            assert forall|j: int| prefix_slot(t, n) <= j < t.len() implies t[j].0.len() < n by {
                if j < t.len() - 1 {
                    assert(t[j] == d[j]);
                }
            }
        }
    }
}

/// A three-layer command table: priority commands (handled before the session lock),
/// then exact commands, then prefix commands, longest prefix first. Keys are stored in
/// lowercase; lookups lowercase the normalized command text.
pub struct CommandRouter<H> {
    priority: Vec<(String, H)>,
    exact: Vec<(String, H)>,
    prefix: Vec<(String, H)>,
}

impl<H> CommandRouter<H> {
    pub closed spec fn priority_view(&self) -> Seq<(Seq<char>, H)> {
        table_view(self.priority@)
    }

    pub closed spec fn exact_view(&self) -> Seq<(Seq<char>, H)> {
        table_view(self.exact@)
    }

    pub closed spec fn prefix_view(&self) -> Seq<(Seq<char>, H)> {
        table_view(self.prefix@)
    }

    /// Prefix commands are kept longest first.
    pub open spec fn wf(&self) -> bool {
        longest_first(self.prefix_view())
    }

    /// An empty router.
    pub fn new() -> (r: Self)
        ensures
            r.wf(),
            r.priority_view().len() == 0,
            r.exact_view().len() == 0,
            r.prefix_view().len() == 0,
    {
        let r = CommandRouter { priority: Vec::new(), exact: Vec::new(), prefix: Vec::new() };
        assert(r.prefix_view() =~= Seq::<(Seq<char>, H)>::empty());
        r
    }

    fn put(t: &mut Vec<(String, H)>, key: String, handler: H)
        ensures
            table_view(final(t)@) == table_put(table_view(old(t)@), key@, handler),
    {
        let ghost tv = table_view(t@);
        proof {
            lemma_key_index(tv, key@);
        }
        let mut i: usize = 0;
        while i < t.len()
            invariant
                i <= t@.len(),
                tv == table_view(t@),
                t@ == old(t)@,
                forall|j: int| 0 <= j < i ==> tv[j].0 != key@,
            decreases t@.len() - i,
        {
            if t[i].0 == key {
                proof {
                    lemma_key_index(tv, key@);
                }
                assert(tv[i as int].0 == key@);
                assert(key_index(tv, key@) == Some(i as int));
                let ghost kv = key@;
                t.set(i, (key, handler));
                assert(table_view(t@) =~= tv.update(i as int, (kv, handler)));
                assert(tv == table_view(old(t)@));
                assert(table_view(t@) == table_put(tv, kv, handler));
                return;
            }
            i = i + 1;
        }
        proof {
            lemma_key_index(tv, key@);
        }
        assert(key_index(tv, key@) is None);
        let ghost kv = key@;
        t.push((key, handler));
        assert(table_view(t@) =~= tv.push((kv, handler)));
    }

    /// Registers a priority command (matched case-insensitively; replaces an earlier
    /// registration of the same command).
    pub fn priority(&mut self, cmd: &str, handler: H)
        requires
            old(self).wf(),
        ensures
            final(self).wf(),
            final(self).priority_view() == table_put(old(self).priority_view(), lower_text(cmd@), handler),
            final(self).exact_view() == old(self).exact_view(),
            final(self).prefix_view() == old(self).prefix_view(),
    {
        let key = lowercase(cmd);
        Self::put(&mut self.priority, key, handler);
    }

    /// Registers an exact command (matched case-insensitively; replaces an earlier
    /// registration of the same command).
    pub fn exact(&mut self, cmd: &str, handler: H)
        requires
            old(self).wf(),
        ensures
            final(self).wf(),
            final(self).exact_view() == table_put(old(self).exact_view(), lower_text(cmd@), handler),
            final(self).priority_view() == old(self).priority_view(),
            final(self).prefix_view() == old(self).prefix_view(),
    {
        let key = lowercase(cmd);
        Self::put(&mut self.exact, key, handler);
    }

    /// Registers a prefix command, after every prefix at least as long.
    pub fn prefix(&mut self, pfx: &str, handler: H)
        requires
            old(self).wf(),
        ensures
            final(self).wf(),
            final(self).prefix_view() == old(self).prefix_view().insert(
                prefix_slot(old(self).prefix_view(), lower_text(pfx@).len()),
                (lower_text(pfx@), handler),
            ),
            final(self).priority_view() == old(self).priority_view(),
            final(self).exact_view() == old(self).exact_view(),
    {
        let key = lowercase(pfx);
        let kc = chars_of(key.as_str());
        let n = kc.len();
        let ghost tv = self.prefix_view();
        let ghost kv = key@;
        proof {
            lemma_prefix_slot(tv, n as nat);
        }
        let mut i: usize = self.prefix.len();
        while i > 0
            invariant
                i <= self.prefix@.len(),
                tv == table_view(self.prefix@),
                n == kv.len(),
                forall|j: int| i <= j < tv.len() ==> tv[j].0.len() < n,
            ensures
                i == 0 || tv[i - 1].0.len() >= n,
                forall|j: int| i <= j < tv.len() ==> tv[j].0.len() < n,
                i <= self.prefix@.len(),
                tv == table_view(self.prefix@),
            decreases i,
        {
            let c = chars_of(self.prefix[i - 1].0.as_str());
            assert(tv[i - 1].0 == self.prefix@[i - 1].0@);
            if c.len() >= n {
                break;
            }
            i = i - 1;
        }
        proof {
            lemma_prefix_slot(tv, n as nat);
            assert(i as int == prefix_slot(tv, n as nat)) by {
                if (i as int) < prefix_slot(tv, n as nat) {
                    assert(tv[prefix_slot(tv, n as nat) - 1].0.len() >= n);
                } else if (i as int) > prefix_slot(tv, n as nat) {
                    assert(tv[i - 1].0.len() < n);
                }
            }
        }
        self.prefix.insert(i, (key, handler));
        proof {
            let nv = self.prefix_view();
            assert(nv =~= tv.insert(i as int, (kv, handler)));
            assert forall|a: int, b: int| 0 <= a < b < nv.len() implies (#[trigger] nv[a]).0.len() >= (#[trigger] nv[b]).0.len() by {
                if b < i {
                } else if b == i {
                    assert(tv[a].0.len() >= n);
                } else if a < i {
                    assert(nv[b] == tv[b - 1]);
                } else if a == i {
                    assert(nv[b] == tv[b - 1]);
                } else {
                    assert(nv[a] == tv[a - 1] && nv[b] == tv[b - 1]);
                }
            }
        }
    }
}

/// The lowercase form of the normalized command text, by which commands are found.
pub open spec fn command_key(text: Seq<char>) -> Seq<char> {
    lower_text(normalize_spec(text))
}

/// What a prefix command's handler gets as arguments: the normalized text after as
/// many characters as the prefix has (nothing if it is shorter).
pub open spec fn args_after(raw: Seq<char>, n: nat) -> Seq<char> {
    if n <= raw.len() {
        raw.subrange(n as int, raw.len() as int)
    } else {
        Seq::empty()
    }
}

impl<H> CommandRouter<H> {
    fn find_key(t: &Vec<(String, H)>, key: &str) -> (r: Option<usize>)
        ensures
            match r {
                Some(i) => key_index(table_view(t@), key@) == Some(i as int),
                None => key_index(table_view(t@), key@) is None,
            },
            r matches Some(i) ==> i < t@.len() && table_view(t@)[i as int].1 == t@[i as int].1,
    {
        let ghost tv = table_view(t@);
        proof {
            lemma_key_index(tv, key@);
        }
        let kc = chars_of(key);
        let mut i: usize = 0;
        while i < t.len()
            invariant
                i <= t@.len(),
                tv == table_view(t@),
                kc@ == key@,
                forall|j: int| 0 <= j < i ==> tv[j].0 != key@,
            decreases t@.len() - i,
        {
            let c = chars_of(t[i].0.as_str());
            assert(tv[i as int].0 == t@[i as int].0@);
            if crate::text::eq_chars(&c, &kc) {
                proof {
                    lemma_key_index(tv, key@);
                    assert(tv[i as int].0 == t@[i as int].0@);
                }
                return Some(i);
            }
            i = i + 1;
        }
        proof {
            lemma_key_index(tv, key@);
        }
        None
    }

    fn find_prefix(t: &Vec<(String, H)>, cmd: &[char]) -> (r: Option<usize>)
        ensures
            match r {
                Some(i) => prefix_index(table_view(t@), cmd@) == Some(i as int),
                None => prefix_index(table_view(t@), cmd@) is None,
            },
            r matches Some(i) ==> i < t@.len() && table_view(t@)[i as int].1 == t@[i as int].1
                && table_view(t@)[i as int].0 == t@[i as int].0@,
    {
        let ghost tv = table_view(t@);
        let mut i: usize = 0;
        while i < t.len()
            invariant
                i <= t@.len(),
                tv == table_view(t@),
                forall|j: int| 0 <= j < i ==> !is_prefix(tv[j].0, cmd@),
            decreases t@.len() - i,
        {
            let c = chars_of(t[i].0.as_str());
            assert(tv[i as int].0 == t@[i as int].0@);
            if starts_with(cmd, &c) {
                proof {
                    lemma_prefix_index(tv, cmd@);
                    assert(tv[i as int].0 == t@[i as int].0@);
                }
                return Some(i);
            }
            i = i + 1;
        }
        proof {
            lemma_prefix_index(tv, cmd@);
        }
        None
    }

    /// Whether `text` names a priority command.
    pub fn is_priority(&self, text: &str) -> (r: bool)
        ensures
            r == key_index(self.priority_view(), command_key(text@)) is Some,
    {
        let norm = normalize_command_text(text);
        let cmd = lowercase(norm.as_str());
        Self::find_key(&self.priority, cmd.as_str()).is_some()
    }

    /// Whether `text` names an exact or prefix command, so that [`Self::dispatch`]
    /// finds a handler for it.
    pub fn is_dispatchable_command(&self, text: &str) -> (r: bool)
        ensures
            r == (key_index(self.exact_view(), command_key(text@)) is Some
                || prefix_index(self.prefix_view(), command_key(text@)) is Some),
    {
        let norm = normalize_command_text(text);
        let cmd = lowercase(norm.as_str());
        if Self::find_key(&self.exact, cmd.as_str()).is_some() {
            return true;
        }
        let cc = chars_of(cmd.as_str());
        Self::find_prefix(&self.prefix, &cc).is_some()
    }

    /// Normalizes the context's text and finds its priority command.
    pub fn dispatch_priority(&self, ctx: &mut CommandContext) -> (r: Option<&H>)
        ensures
            final(ctx).raw@ == normalize_spec(old(ctx).raw@),
            final(ctx).args == old(ctx).args,
            final(ctx).channel == old(ctx).channel,
            final(ctx).chat_id == old(ctx).chat_id,
            final(ctx).key == old(ctx).key,
            r == match key_index(self.priority_view(), command_key(old(ctx).raw@)) {
                Some(i) => Some(&self.priority_view()[i].1),
                None => None::<&H>,
            },
    {
        ctx.raw = normalize_command_text(ctx.raw.as_str());
        let cmd = lowercase(ctx.raw.as_str());
        assert(cmd@ == command_key(old(ctx).raw@));
        match Self::find_key(&self.priority, cmd.as_str()) {
            Some(i) => {
                assert(key_index(self.priority_view(), cmd@) == Some(i as int));
                Some(&self.priority[i].1)
            },
            None => None,
        }
    }

    /// Normalizes the context's text and finds its handler: an exact command first,
    /// then the first (longest) matching prefix, whose arguments — the normalized text
    /// after the prefix — go into `ctx.args`.
    pub fn dispatch(&self, ctx: &mut CommandContext) -> (r: Option<&H>)
        ensures
            final(ctx).raw@ == normalize_spec(old(ctx).raw@),
            final(ctx).channel == old(ctx).channel,
            final(ctx).chat_id == old(ctx).chat_id,
            final(ctx).key == old(ctx).key,
            ({
                let cmd = command_key(old(ctx).raw@);
                match key_index(self.exact_view(), cmd) {
                    Some(i) => r == Some(&self.exact_view()[i].1) && final(ctx).args == old(ctx).args,
                    None => match prefix_index(self.prefix_view(), cmd) {
                        Some(j) => r == Some(&self.prefix_view()[j].1)
                            && final(ctx).args@ == args_after(final(ctx).raw@, self.prefix_view()[j].0.len()),
                        None => r is None && final(ctx).args == old(ctx).args,
                    },
                }
            }),
    {
        ctx.raw = normalize_command_text(ctx.raw.as_str());
        let cmd = lowercase(ctx.raw.as_str());
        match Self::find_key(&self.exact, cmd.as_str()) {
            Some(i) => {
                return Some(&self.exact[i].1);
            },
            None => {},
        }
        let cc = chars_of(cmd.as_str());
        match Self::find_prefix(&self.prefix, &cc) {
            Some(j) => {
                let p = chars_of(self.prefix[j].0.as_str());
                let raw = chars_of(ctx.raw.as_str());
                let n = p.len();
                let mut rest: Vec<char> = Vec::new();
                if n <= raw.len() {
                    let mut k: usize = n;
                    while k < raw.len()
                        invariant
                            n <= k <= raw@.len(),
                            rest@ == raw@.subrange(n as int, k as int),
                        decreases raw@.len() - k,
                    {
                        rest.push(raw[k]);
                        k = k + 1;
                    }
                }
                proof {
                    assert(table_view(self.prefix@)[j as int].0 == self.prefix@[j as int].0@);
                }
                ctx.args = string_from(&rest);
                Some(&self.prefix[j].1)
            },
            None => None,
        }
    }
}

} // verus!
