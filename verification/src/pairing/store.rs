//! The pairing store of `~/.nanobot/pairing.json` and the `/pairing` command.
//!
//! The caller reads the file into a store before each operation and writes the store
//! back when [`PairingStore::needs_save`] says so; times are milliseconds since the
//! epoch.

use vstd::prelude::*;

use crate::pairing::data::{
    approved_in, has_code, lists, live, pending_off, pending_on, unexpired, users_count, PairingData, PendingEntry, PendingRequest,
};
use crate::pairing::sorted::views;
use crate::pairing::data::code_keys;
use crate::text::{chars_of, dec, fmt_u64, push_str, split_whitespace, split_ws, string_from, strictly_sorted};

verus! {

/// Lifetime of a pairing code: ten minutes.
pub const DEFAULT_TTL_MS: i64 = 600000;

/// The characters of pairing codes.
pub const ALPHABET: &'static str = "ABCDEFGHIJKLMNOPQRSTUVWXYZ0123456789";

/// Counts of what `clear_channel` removed.
#[derive(PartialEq, Eq, Structural, Clone, Copy, Debug)]
pub struct ClearCounts {
    pub approved: usize,
    pub pending: usize,
}

/// Whether `e` is the request of `sender` on `channel` under `code`, created at
/// `created` and expiring at `expires`.
pub open spec fn fresh_entry(e: (String, PendingEntry), code: Seq<char>, channel: Seq<char>, sender: Seq<char>, created: int, expires: int) -> bool {
    &&& e.0@ == code
    &&& e.1.channel@ == channel
    &&& e.1.sender_id@ == sender
    &&& e.1.created_at_ms == created
    &&& e.1.expires_at_ms == expires
}

/// Whether `p` is `g` with the request `fresh_entry(.., code, ..)` stored under its
/// code: in place of the request with that code, or at its place in code order.
pub open spec fn put_result(g: Seq<(String, PendingEntry)>, p: Seq<(String, PendingEntry)>, code: Seq<char>, channel: Seq<char>, sender: Seq<char>, created: int, expires: int) -> bool {
    &&& has_code(g, code) ==> exists|i: int| 0 <= i < g.len() && g[i].0@ == code
        && p == g.update(i, p[i]) && fresh_entry(p[i], code, channel, sender, created, expires)
    &&& !has_code(g, code) ==> exists|i: int| 0 <= i <= g.len()
        && p == g.insert(i, p[i]) && fresh_entry(p[i], code, channel, sender, created, expires)
}

/// The code character for a random byte.
pub open spec fn code_char(b: u8) -> char {
    ALPHABET@[(b % 36) as int]
}

/// The code `XXXX-XXXX` made from the first eight bytes.
pub open spec fn code_from(b: Seq<u8>) -> Seq<char> {
    seq![code_char(b[0]), code_char(b[1]), code_char(b[2]), code_char(b[3]), '-',
         code_char(b[4]), code_char(b[5]), code_char(b[6]), code_char(b[7])]
}

/// Sixteen random bytes: the bytes of a fresh version-4 UUID (`uuid::Uuid::new_v4`).
/// They are random, so only their number is stated.
#[verifier::external_body]
fn random_bytes() -> (r: Vec<u8>)
    ensures
        r@.len() == 16,
{
    uuid::Uuid::new_v4().as_bytes().to_vec()
}

/// A fresh pairing code `XXXX-XXXX` over [`ALPHABET`], drawn from random bytes.
fn new_code() -> (r: String)
    ensures
        exists|b: Seq<u8>| b.len() == 16 && r@ == code_from(b),
{
    let bytes = random_bytes();
    let alpha = chars_of(ALPHABET);
    proof {
        reveal_strlit("ABCDEFGHIJKLMNOPQRSTUVWXYZ0123456789");
    }
    assert(alpha@.len() == 36);
    let mut out: Vec<char> = Vec::new();
    let mut i: usize = 0;
    while i < 8
        invariant
            i <= 8,
            bytes@.len() == 16,
            alpha@ == ALPHABET@,
            alpha@.len() == 36,
            out@.len() == if i <= 4 { i as int } else { i as int + 1 },
            forall|k: int| #![trigger bytes@[k]] 0 <= k < i && k < 4 ==> out@[k] == code_char(bytes@[k]),
            forall|k: int| #![trigger bytes@[k]] 4 <= k < i ==> out@[k + 1] == code_char(bytes@[k]),
            i > 4 ==> out@[4] == '-',
        decreases 8 - i,
    {
        if i == 4 {
            out.push('-');
        }
        let idx = (bytes[i] % 36) as usize;
        out.push(alpha[idx]);
        i = i + 1;
    }
    assert(out@[0] == code_char(bytes@[0]) && out@[1] == code_char(bytes@[1]));
    assert(out@[2] == code_char(bytes@[2]) && out@[3] == code_char(bytes@[3]));
    assert(out@[5] == code_char(bytes@[4]) && out@[6] == code_char(bytes@[5]));
    assert(out@[7] == code_char(bytes@[6]) && out@[8] == code_char(bytes@[7]));
    assert(out@ =~= code_from(bytes@));
    string_from(&out)
}

/// `<n>s` for the whole seconds left until `expires`, or `expired` when less than one
/// second is left.
pub open spec fn expiry_spec(expires: i64, now: i64) -> Seq<char> {
    let d = expires - now;
    if d >= 1000 {
        dec((d / 1000) as nat) + "s"@
    } else {
        "expired"@
    }
}

/// The time left until `expires_at_ms`, as `<n>s` in whole seconds, or `expired`.
pub fn format_expiry(expires_at_ms: i64, now_ms: i64) -> (r: String)
    ensures
        r@ == expiry_spec(expires_at_ms, now_ms),
{
    let d: i128 = (expires_at_ms as i128) - (now_ms as i128);
    if d >= 1000 {
        let secs = (d / 1000) as u64;
        let mut out = fmt_u64(secs);
        push_str(&mut out, "s");
        string_from(&out)
    } else {
        "expired".to_owned()
    }
}

/// The reply sent to an unknown sender of a direct message.
pub open spec fn pairing_reply_spec(code: Seq<char>) -> Seq<char> {
    "Hi there! This assistant only responds to approved users.\n\nYour pairing code is: `"@ + code
        + "`\n\nTo get access, ask the owner to approve this request in the nanobot WebUI.\nIf the WebUI is not available, the owner can also send `/pairing approve "@
        + code + "`."@
}

/// The reply that gives an unknown sender their pairing code.
pub fn format_pairing_reply(code: &str) -> (r: String)
    ensures
        r@ == pairing_reply_spec(code@),
{
    let mut out = String::new();
    out.append("Hi there! This assistant only responds to approved users.\n\nYour pairing code is: `");
    out.append(code);
    out.append("`\n\nTo get access, ask the owner to approve this request in the nanobot WebUI.\nIf the WebUI is not available, the owner can also send `/pairing approve ");
    out.append(code);
    out.append("`.");
    out
}

/// The pairing store.
pub struct PairingStore {
    path: String,
    data: PairingData,
    dirty: bool,
}

impl PairingStore {
    pub closed spec fn path_view(&self) -> Seq<char> {
        self.path@
    }

    pub closed spec fn data_view(&self) -> PairingData {
        self.data
    }

    /// Whether an operation changed something that the file must receive.
    pub closed spec fn dirty_view(&self) -> bool {
        self.dirty
    }

    pub open spec fn wf(&self) -> bool {
        self.data_view().wf()
    }

    /// An empty store for the file at `path`.
    pub fn new(path: &str) -> (s: Self)
        ensures
            s.wf(),
            s.path_view() == path@,
            s.data_view().approved@.len() == 0,
            s.data_view().pending@.len() == 0,
            !s.dirty_view(),
    {
        PairingStore { path: path.to_owned(), data: PairingData::new(), dirty: false }
    }

    /// Path of the store file.
    pub fn path(&self) -> (r: &str)
        ensures
            r@ == self.path_view(),
    {
        self.path.as_str()
    }

    /// The data, for writing back.
    pub fn data(&self) -> (r: &PairingData)
        ensures
            *r == self.data_view(),
    {
        &self.data
    }

    /// Whether the file must be written back.
    pub fn needs_save(&self) -> (r: bool)
        ensures
            r == self.dirty_view(),
    {
        self.dirty
    }

    /// Records that the file was written.
    pub fn mark_saved(&mut self)
        ensures
            final(self).data_view() == old(self).data_view(),
            final(self).path_view() == old(self).path_view(),
            !final(self).dirty_view(),
    {
        self.dirty = false;
    }

    /// Loads an approval read from the file.
    pub fn load_approved(&mut self, channel: String, sender_id: String)
        requires
            old(self).wf(),
        ensures
            final(self).wf(),
            final(self).path_view() == old(self).path_view(),
            final(self).dirty_view() == old(self).dirty_view(),
            final(self).data_view().pending@ == old(self).data_view().pending@,
            forall|c: Seq<char>, v: Seq<char>| #[trigger] approved_in(final(self).data_view().approved@, c, v)
                == (approved_in(old(self).data_view().approved@, c, v) || (c == channel@ && v == sender_id@)),
    {
        self.data.add_approved(channel, sender_id);
    }

    /// Loads a pending request read from the file.
    pub fn load_pending(&mut self, code: String, entry: PendingEntry)
        requires
            old(self).wf(),
        ensures
            final(self).wf(),
            final(self).path_view() == old(self).path_view(),
            final(self).dirty_view() == old(self).dirty_view(),
            final(self).data_view().approved@ == old(self).data_view().approved@,
            has_code(old(self).data_view().pending@, code@) ==> exists|i: int| 0 <= i < old(self).data_view().pending@.len()
                && old(self).data_view().pending@[i].0@ == code@
                && final(self).data_view().pending@ == old(self).data_view().pending@.update(i, (code, entry)),
            !has_code(old(self).data_view().pending@, code@) ==> exists|i: int| 0 <= i <= old(self).data_view().pending@.len()
                && final(self).data_view().pending@ == old(self).data_view().pending@.insert(i, (code, entry)),
    {
        self.data.put_pending(code, entry);
    }

    /// Whether `sender_id` is approved on `channel`.
    pub fn is_approved(&self, channel: &str, sender_id: &str) -> (r: bool)
        requires
            self.wf(),
        ensures
            r == approved_in(self.data_view().approved@, channel@, sender_id@),
    {
        self.data.is_approved(channel, sender_id)
    }

    /// The senders approved on `channel`, in increasing order.
    pub fn get_approved(&self, channel: &str) -> (r: Vec<String>)
        requires
            self.wf(),
        ensures
            strictly_sorted(views(r@)),
            forall|u: Seq<char>| views(r@).contains(u) == approved_in(self.data_view().approved@, channel@, u),
    {
        self.data.users(channel)
    }

    /// A new code for `sender_id` on `channel`, valid for `ttl_ms` from `now_ms`; expired
    /// requests are dropped first.
    pub fn generate_code(&mut self, channel: &str, sender_id: &str, ttl_ms: i64, now_ms: i64) -> (code: String)
        requires
            old(self).wf(),
            i64::MIN <= now_ms + ttl_ms <= i64::MAX,
        ensures
            final(self).wf(),
            final(self).path_view() == old(self).path_view(),
            final(self).dirty_view(),
            final(self).data_view().approved@ == old(self).data_view().approved@,
            exists|b: Seq<u8>| b.len() == 16 && code@ == code_from(b),
            put_result(live(old(self).data_view().pending@, now_ms), final(self).data_view().pending@,
                code@, channel@, sender_id@, now_ms as int, now_ms + ttl_ms),
    {
        self.data.gc(now_ms);
        let code = new_code();
        let entry = PendingEntry {
            channel: channel.to_owned(),
            sender_id: sender_id.to_owned(),
            created_at_ms: now_ms,
            expires_at_ms: now_ms + ttl_ms,
        };
        let ghost g = self.data.pending@;
        let key = code.clone();
        let ghost item = (key, entry);
        self.data.put_pending(key, entry);
        proof {
            let p = self.data.pending@;
            assert(g == live(old(self).data_view().pending@, now_ms));
            if has_code(g, code@) {
                let i = choose|i: int| 0 <= i < g.len() && g[i].0@ == code@ && p == g.update(i, item);
                assert(p[i] == item);
                assert(fresh_entry(p[i], code@, channel@, sender_id@, now_ms as int, now_ms + ttl_ms));
                assert(p == g.update(i, p[i]));
            } else {
                let i = choose|i: int| 0 <= i <= g.len() && p == g.insert(i, item);
                assert(p[i] == item);
                assert(fresh_entry(p[i], code@, channel@, sender_id@, now_ms as int, now_ms + ttl_ms));
                assert(p == g.insert(i, p[i]));
            }
            assert(put_result(g, p, code@, channel@, sender_id@, now_ms as int, now_ms + ttl_ms));
        }
        self.dirty = true;
        code
    }
}

/// Whether `n` is `o` with `ch`/`sid` approved in addition.
pub open spec fn approvals_added(o: Seq<(String, Vec<String>)>, n: Seq<(String, Vec<String>)>, ch: Seq<char>, sid: Seq<char>) -> bool {
    forall|c: Seq<char>, v: Seq<char>| #[trigger] approved_in(n, c, v) == (approved_in(o, c, v) || (c == ch && v == sid))
}

/// What approving `code` at `now` does: the live request with that code is removed and
/// its sender approved on its channel, which are returned; without one nothing but the
/// expiry sweep happens.
pub open spec fn approve_ok(o: PairingData, n: PairingData, code: Seq<char>, now: i64, r: Option<(String, String)>) -> bool {
    let g = live(o.pending@, now);
    match r {
        Some((ch, sid)) => exists|i: int| 0 <= i < g.len() && #[trigger] g[i].0@ == code
            && ch == g[i].1.channel && sid == g[i].1.sender_id
            && n.pending@ == g.remove(i) && approvals_added(o.approved@, n.approved@, ch@, sid@),
        None => !has_code(g, code) && n.pending@ == g && n.approved@ == o.approved@,
    }
}

/// What denying `code` at `now` does: the live request with that code is dropped.
pub open spec fn deny_ok(o: PairingData, n: PairingData, code: Seq<char>, now: i64, r: bool) -> bool {
    let g = live(o.pending@, now);
    &&& n.approved@ == o.approved@
    &&& r == has_code(g, code)
    &&& r ==> exists|i: int| 0 <= i < g.len() && #[trigger] g[i].0@ == code && n.pending@ == g.remove(i)
    &&& !r ==> n.pending@ == g
}

/// What revoking `sid` on `ch` does.
pub open spec fn revoke_ok(o: PairingData, n: PairingData, ch: Seq<char>, sid: Seq<char>, r: bool) -> bool {
    &&& n.pending@ == o.pending@
    &&& r == approved_in(o.approved@, ch, sid)
    &&& forall|c: Seq<char>, v: Seq<char>| #[trigger] approved_in(n.approved@, c, v)
        == (approved_in(o.approved@, c, v) && !(c == ch && v == sid))
}

/// What listing at `now` does: expired requests are swept and the rest listed in code
/// order.
pub open spec fn list_ok(o: PairingData, n: PairingData, now: i64, r: Seq<PendingRequest>) -> bool {
    &&& n.approved@ == o.approved@
    &&& n.pending@ == live(o.pending@, now)
    &&& r.len() == n.pending@.len()
    &&& forall|i: int| 0 <= i < r.len() ==> lists(#[trigger] r[i], n.pending@[i])
}

/// Approving a live request approves its sender on its channel.
pub proof fn law_approve_approves(o: PairingData, n: PairingData, code: Seq<char>, now: i64, r: Option<(String, String)>)
    requires
        approve_ok(o, n, code, now, r),
        r is Some,
    ensures
        approved_in(n.approved@, r.unwrap().0@, r.unwrap().1@),
{
}

/// A code that names a live request is approved, never refused.
pub proof fn law_live_code_approvable(o: PairingData, n: PairingData, code: Seq<char>, now: i64, r: Option<(String, String)>)
    requires
        approve_ok(o, n, code, now, r),
        has_code(live(o.pending@, now), code),
    ensures
        r is Some,
{
}

/// Revoking undoes an approval: once a request is approved and its sender revoked,
/// the sender is no longer approved, the revocation reports that it removed
/// something, and every other approval is as it was before the request was approved.
pub proof fn law_revoke_undoes_approve(
    o: PairingData,
    m: PairingData,
    n: PairingData,
    code: Seq<char>,
    now: i64,
    r: Option<(String, String)>,
    revoked: bool,
)
    requires
        approve_ok(o, m, code, now, r),
        r is Some,
        revoke_ok(m, n, r.unwrap().0@, r.unwrap().1@, revoked),
    ensures
        revoked,
        !approved_in(n.approved@, r.unwrap().0@, r.unwrap().1@),
        forall|c: Seq<char>, v: Seq<char>| !(c == r.unwrap().0@ && v == r.unwrap().1@) ==>
            (#[trigger] approved_in(n.approved@, c, v) == approved_in(o.approved@, c, v)),
{
}

/// An expired request cannot be approved: approving its code once its expiry time
/// has passed finds nothing.
pub proof fn law_expired_code_rejected(o: PairingData, n: PairingData, now: i64, i: int, r: Option<(String, String)>)
    requires
        o.wf(),
        0 <= i < o.pending@.len(),
        !unexpired(o.pending@[i], now),
        approve_ok(o, n, o.pending@[i].0@, now, r),
    ensures
        r is None,
{
    let p = o.pending@;
    let code = p[i].0@;
    let pred = |e: (String, PendingEntry)| unexpired(e, now);
    let g = live(p, now);
    if has_code(g, code) {
        let j = choose|j: int| 0 <= j < g.len() && #[trigger] g[j].0@ == code;
        p.lemma_filter_pred(pred, j);
        assert(g.contains(g[j]));
        p.lemma_filter_contains_rev(pred, g[j]);
        let k = choose|k: int| 0 <= k < p.len() && p[k] == g[j];
        assert(code_keys(p)[k] == code);
        assert(code_keys(p)[i] == code);
        crate::pairing::sorted::lemma_sorted_unique(code_keys(p), i, k);
        assert(false);
    }
}

/// A code is approvable until it expires: once a code is generated at `created`
/// to expire at `expires`, approving it at any `now` up to its expiry (with no
/// other change to the requests in between) succeeds.
pub proof fn law_fresh_code_approvable(
    g: Seq<(String, PendingEntry)>,
    o: PairingData,
    n: PairingData,
    code: Seq<char>,
    channel: Seq<char>,
    sender: Seq<char>,
    created: int,
    expires: int,
    now: i64,
    r: Option<(String, String)>,
)
    requires
        put_result(g, o.pending@, code, channel, sender, created, expires),
        now <= expires,
        approve_ok(o, n, code, now, r),
    ensures
        r is Some,
{
    let p = o.pending@;
    let i = if has_code(g, code) {
        choose|i: int| 0 <= i < g.len() && g[i].0@ == code
            && p == g.update(i, p[i]) && fresh_entry(p[i], code, channel, sender, created, expires)
    } else {
        choose|i: int| 0 <= i <= g.len()
            && p == g.insert(i, p[i]) && fresh_entry(p[i], code, channel, sender, created, expires)
    };
    assert(0 <= i < p.len());
    let pred = |e: (String, PendingEntry)| unexpired(e, now);
    assert(pred(p[i]));
    p.lemma_filter_contains(pred, i);
    let lv = live(p, now);
    let j = choose|j: int| 0 <= j < lv.len() && lv[j] == p[i];
    assert(lv[j].0@ == code);
    assert(has_code(lv, code));
}

impl PairingStore {
    /// Approves the live request with code `code`: returns its `(channel, sender_id)`,
    /// or `None` when there is no such request (expired requests are swept first).
    pub fn approve_code(&mut self, code: &str, now_ms: i64) -> (r: Option<(String, String)>)
        requires
            old(self).wf(),
        ensures
            final(self).wf(),
            final(self).path_view() == old(self).path_view(),
            approve_ok(old(self).data_view(), final(self).data_view(), code@, now_ms, r),
            final(self).dirty_view() == (old(self).dirty_view() || r is Some),
    {
        self.data.gc(now_ms);
        let ghost g = self.data.pending@;
        let taken = self.data.take_pending(code);
        match taken {
            None => None,
            Some(e) => {
                let ghost i = choose|i: int| 0 <= i < g.len() && g[i].0@ == code@
                    && e == g[i].1 && self.data.pending@ == g.remove(i);
                let ch = e.channel.clone();
                let sid = e.sender_id.clone();
                self.data.add_approved(e.channel, e.sender_id);
                self.dirty = true;
                proof {
                    assert(g[i].0@ == code@);
                }
                Some((ch, sid))
            },
        }
    }

    /// Drops the live request with code `code`; says whether there was one.
    pub fn deny_code(&mut self, code: &str, now_ms: i64) -> (r: bool)
        requires
            old(self).wf(),
        ensures
            final(self).wf(),
            final(self).path_view() == old(self).path_view(),
            deny_ok(old(self).data_view(), final(self).data_view(), code@, now_ms, r),
            final(self).dirty_view() == (old(self).dirty_view() || r),
    {
        self.data.gc(now_ms);
        let ghost g = self.data.pending@;
        match self.data.take_pending(code) {
            None => false,
            Some(_e) => {
                self.dirty = true;
                proof {
                    let i = choose|i: int| 0 <= i < g.len() && g[i].0@ == code@
                        && self.data.pending@ == g.remove(i);
                    assert(g[i].0@ == code@);
                }
                true
            },
        }
    }

    /// The live requests, in code order (expired ones are swept from the store too).
    pub fn list_pending(&mut self, now_ms: i64) -> (r: Vec<PendingRequest>)
        requires
            old(self).wf(),
        ensures
            final(self).wf(),
            final(self).path_view() == old(self).path_view(),
            list_ok(old(self).data_view(), final(self).data_view(), now_ms, r@),
            final(self).dirty_view() == old(self).dirty_view(),
    {
        self.data.gc(now_ms);
        self.data.pending_requests()
    }

    /// Withdraws the approval of `sender_id` on `channel`; says whether it was there.
    pub fn revoke(&mut self, channel: &str, sender_id: &str) -> (r: bool)
        requires
            old(self).wf(),
        ensures
            final(self).wf(),
            final(self).path_view() == old(self).path_view(),
            revoke_ok(old(self).data_view(), final(self).data_view(), channel@, sender_id@, r),
            final(self).dirty_view() == (old(self).dirty_view() || r),
    {
        let r = self.data.remove_user(channel, sender_id);
        if r {
            self.dirty = true;
        }
        r
    }

    /// Withdraws every approval on `channel`; returns how many there were.
    pub fn revoke_channel(&mut self, channel: &str) -> (r: usize)
        requires
            old(self).wf(),
        ensures
            final(self).wf(),
            final(self).path_view() == old(self).path_view(),
            final(self).data_view().pending@ == old(self).data_view().pending@,
            r == users_count(old(self).data_view().approved@, channel@),
            forall|c: Seq<char>, v: Seq<char>| #[trigger] approved_in(final(self).data_view().approved@, c, v)
                == (approved_in(old(self).data_view().approved@, c, v) && c != channel@),
            final(self).dirty_view() == (old(self).dirty_view() || r > 0),
    {
        let r = self.data.remove_channel(channel);
        if r > 0 {
            self.dirty = true;
        }
        r
    }

    /// Withdraws every approval on `channel` and drops its pending requests; returns
    /// how many of each there were.
    pub fn clear_channel(&mut self, channel: &str) -> (r: ClearCounts)
        requires
            old(self).wf(),
        ensures
            final(self).wf(),
            final(self).path_view() == old(self).path_view(),
            r.approved == users_count(old(self).data_view().approved@, channel@),
            forall|c: Seq<char>, v: Seq<char>| #[trigger] approved_in(final(self).data_view().approved@, c, v)
                == (approved_in(old(self).data_view().approved@, c, v) && c != channel@),
            final(self).data_view().pending@ == pending_off(old(self).data_view().pending@, channel@),
            r.pending == pending_on(old(self).data_view().pending@, channel@).len(),
            final(self).dirty_view() == (old(self).dirty_view() || r.approved > 0 || r.pending > 0),
    {
        let approved = self.data.remove_channel(channel);
        let pending = self.data.remove_channel_pending(channel);
        if approved > 0 || pending > 0 {
            self.dirty = true;
        }
        ClearCounts { approved, pending }
    }
}

/// The lines of the pending list: `\n- `code` | channel | sender | expiry` for each.
pub open spec fn pending_lines(r: Seq<PendingRequest>, now: i64) -> Seq<char>
    decreases r.len(),
{
    if r.len() == 0 {
        Seq::empty()
    } else {
        let e = r.last();
        pending_lines(r.drop_last(), now) + "\n- `"@ + e.code@ + "` | "@ + e.channel@ + " | "@
            + e.sender_id@ + " | "@ + expiry_spec(e.expires_at_ms, now)
    }
}

/// The reply to `/pairing list`.
pub open spec fn list_reply(r: Seq<PendingRequest>, now: i64) -> Seq<char> {
    if r.len() == 0 {
        "No pending pairing requests."@
    } else {
        "Pending pairing requests:"@ + pending_lines(r, now)
    }
}

/// The reply to `/pairing approve <code>`.
pub open spec fn approve_reply(code: Seq<char>, r: Option<(String, String)>) -> Seq<char> {
    match r {
        None => "Invalid or expired pairing code: `"@ + code + "`"@,
        Some((ch, sid)) => "Approved pairing code `"@ + code + "` \u{2014} "@ + sid@ + " can now access "@ + ch@,
    }
}

/// The reply to `/pairing deny <code>`.
pub open spec fn deny_reply(code: Seq<char>, r: bool) -> Seq<char> {
    if r {
        "Denied pairing code `"@ + code + "`"@
    } else {
        "Pairing code `"@ + code + "` not found or already expired"@
    }
}

/// The reply to `/pairing revoke`.
pub open spec fn revoke_reply(user: Seq<char>, ch: Seq<char>, r: bool) -> Seq<char> {
    if r {
        "Revoked "@ + user + " from "@ + ch
    } else {
        user + " was not in the approved list for "@ + ch
    }
}

/// The reply to an unknown subcommand.
pub open spec fn unknown_reply() -> Seq<char> {
    "Unknown pairing command.\nUsage: `/pairing [list|approve <code>|deny <code>|revoke <user_id>|revoke <channel> <user_id>]`"@
}

/// What `/pairing <text>` sent on `channel` at `now` does to the data and replies.
pub open spec fn command_ok(o: PairingData, n: PairingData, channel: Seq<char>, text: Seq<char>, now: i64, reply: Seq<char>) -> bool {
    let parts = split_ws(text);
    let sub = if parts.len() == 0 { "list"@ } else { parts[0] };
    if sub == "list"@ {
        exists|r: Seq<PendingRequest>| #[trigger] list_ok(o, n, now, r) && reply == list_reply(r, now)
    } else if sub == "approve"@ {
        if parts.len() < 2 {
            reply == "Usage: `/pairing approve <code>`"@ && n == o
        } else {
            exists|r: Option<(String, String)>| #[trigger] approve_ok(o, n, parts[1], now, r) && reply == approve_reply(parts[1], r)
        }
    } else if sub == "deny"@ {
        if parts.len() < 2 {
            reply == "Usage: `/pairing deny <code>`"@ && n == o
        } else {
            exists|r: bool| #[trigger] deny_ok(o, n, parts[1], now, r) && reply == deny_reply(parts[1], r)
        }
    } else if sub == "revoke"@ {
        if parts.len() == 2 {
            exists|r: bool| #[trigger] revoke_ok(o, n, channel, parts[1], r) && reply == revoke_reply(parts[1], channel, r)
        } else if parts.len() == 3 {
            exists|r: bool| #[trigger] revoke_ok(o, n, parts[1], parts[2], r) && reply == revoke_reply(parts[2], parts[1], r)
        } else {
            reply == "Usage: `/pairing revoke <user_id>` or `/pairing revoke <channel> <user_id>`"@ && n == o
        }
    } else {
        reply == unknown_reply() && n == o
    }
}

/// Whether `/pairing <text>` sent on `channel` at `now` changes what the file holds
/// (and so must be written back): an approval or denial of a live code, or the
/// revocation of an approved sender. Listing sweeps expired requests without that.
pub open spec fn command_saves(o: PairingData, channel: Seq<char>, text: Seq<char>, now: i64) -> bool {
    let parts = split_ws(text);
    let sub = if parts.len() == 0 { "list"@ } else { parts[0] };
    if sub == "approve"@ || sub == "deny"@ {
        parts.len() >= 2 && has_code(live(o.pending@, now), parts[1])
    } else if sub == "revoke"@ {
        if parts.len() == 2 {
            approved_in(o.approved@, channel, parts[1])
        } else if parts.len() == 3 {
            approved_in(o.approved@, parts[1], parts[2])
        } else {
            false
        }
    } else {
        false
    }
}

#[verifier::rlimit(40)]
fn list_text(r: &Vec<PendingRequest>, now_ms: i64) -> (s: String)
    ensures
        s@ == list_reply(r@, now_ms),
{
    if r.len() == 0 {
        return "No pending pairing requests.".to_owned();
    }
    let mut out = String::new();
    out.append("Pending pairing requests:");
    let mut i: usize = 0;
    while i < r.len()
        invariant
            i <= r@.len(),
            out@ == "Pending pairing requests:"@ + pending_lines(r@.subrange(0, i as int), now_ms),
        decreases r@.len() - i,
    {
        let e = &r[i];
        let expiry = format_expiry(e.expires_at_ms, now_ms);
        out.append("\n- `");
        out.append(e.code.as_str());
        out.append("` | ");
        out.append(e.channel.as_str());
        out.append(" | ");
        out.append(e.sender_id.as_str());
        out.append(" | ");
        out.append(expiry.as_str());
        proof {
            let pre = r@.subrange(0, i as int);
            let next = r@.subrange(0, i + 1);
            assert(next.drop_last() =~= pre);
            assert(next.last() == r@[i as int]);
            assert(out@ =~= "Pending pairing requests:"@ + pending_lines(next, now_ms));
        }
        i = i + 1;
    }
    assert(r@.subrange(0, r@.len() as int) =~= r@);
    out
}

impl PairingStore {
    /// Runs the `/pairing` subcommand `subcommand_text` sent on `channel` at `now_ms` and
    /// returns the reply: `list` (also for an empty text), `approve <code>`,
    /// `deny <code>`, `revoke <user_id>` (on `channel`) or `revoke <channel> <user_id>`.
    pub fn handle_pairing_command(&mut self, channel: &str, subcommand_text: &str, now_ms: i64) -> (reply: String)
        requires
            old(self).wf(),
        ensures
            final(self).wf(),
            final(self).path_view() == old(self).path_view(),
            command_ok(old(self).data_view(), final(self).data_view(), channel@, subcommand_text@, now_ms, reply@),
            final(self).dirty_view()
                == (old(self).dirty_view() || command_saves(old(self).data_view(), channel@, subcommand_text@, now_ms)),
    {
        let text = chars_of(subcommand_text);
        let parts = split_whitespace(&text);
        let ghost ps = split_ws(subcommand_text@);
        proof {
            reveal_strlit("list");
            reveal_strlit("approve");
            reveal_strlit("deny");
            reveal_strlit("revoke");
        }
        let is_list = parts.len() == 0 || crate::text::eq_str(&parts[0], "list");
        if is_list {
            let r = self.list_pending(now_ms);
            let reply = list_text(&r, now_ms);
            proof {
                assert(list_ok(old(self).data_view(), self.data_view(), now_ms, r@));
                assert(ps.len() == 0 || ps[0] == "list"@);
                assert("list"@.len() != "approve"@.len() && "list"@.len() != "revoke"@.len());
                assert("list"@[0] != "deny"@[0]);
                assert(self.dirty_view() == (old(self).dirty_view() || command_saves(old(self).data_view(), channel@, subcommand_text@, now_ms)));
            }
            return reply;
        }
        let ghost sub = ps[0];
        if crate::text::eq_str(&parts[0], "approve") {
            if parts.len() < 2 {
                return "Usage: `/pairing approve <code>`".to_owned();
            }
            let code = string_from(&parts[1]);
            let r = self.approve_code(code.as_str(), now_ms);
            let mut out = String::new();
            match &r {
                None => {
                    out.append("Invalid or expired pairing code: `");
                    out.append(code.as_str());
                    out.append("`");
                },
                Some((ch, sid)) => {
                    out.append("Approved pairing code `");
                    out.append(code.as_str());
                    out.append("` \u{2014} ");
                    out.append(sid.as_str());
                    out.append(" can now access ");
                    out.append(ch.as_str());
                },
            }
            proof {
                assert(approve_ok(old(self).data_view(), self.data_view(), ps[1], now_ms, r));
                if r is Some {
                    let g = live(old(self).data_view().pending@, now_ms);
                    let i = choose|i: int| 0 <= i < g.len() && #[trigger] g[i].0@ == ps[1]
                        && r.unwrap().0 == g[i].1.channel && r.unwrap().1 == g[i].1.sender_id
                        && self.data_view().pending@ == g.remove(i)
                        && approvals_added(old(self).data_view().approved@, self.data_view().approved@, r.unwrap().0@, r.unwrap().1@);
                    assert(has_code(g, ps[1]));
                }
                assert(self.dirty_view() == (old(self).dirty_view() || command_saves(old(self).data_view(), channel@, subcommand_text@, now_ms)));
            }
            return out;
        }
        if crate::text::eq_str(&parts[0], "deny") {
            if parts.len() < 2 {
                return "Usage: `/pairing deny <code>`".to_owned();
            }
            let code = string_from(&parts[1]);
            let r = self.deny_code(code.as_str(), now_ms);
            let mut out = String::new();
            if r {
                out.append("Denied pairing code `");
                out.append(code.as_str());
                out.append("`");
            } else {
                out.append("Pairing code `");
                out.append(code.as_str());
                out.append("` not found or already expired");
            }
            proof {
                assert(deny_ok(old(self).data_view(), self.data_view(), ps[1], now_ms, r));
                assert(self.dirty_view() == (old(self).dirty_view() || command_saves(old(self).data_view(), channel@, subcommand_text@, now_ms)));
            }
            return out;
        }
        if crate::text::eq_str(&parts[0], "revoke") {
            if parts.len() == 2 || parts.len() == 3 {
                let (ch, user) = if parts.len() == 2 {
                    (channel.to_owned(), string_from(&parts[1]))
                } else {
                    (string_from(&parts[1]), string_from(&parts[2]))
                };
                let r = self.revoke(ch.as_str(), user.as_str());
                let mut out = String::new();
                if r {
                    out.append("Revoked ");
                    out.append(user.as_str());
                    out.append(" from ");
                    out.append(ch.as_str());
                } else {
                    out.append(user.as_str());
                    out.append(" was not in the approved list for ");
                    out.append(ch.as_str());
                }
                proof {
                    assert(revoke_ok(old(self).data_view(), self.data_view(), ch@, user@, r));
                    assert(self.dirty_view() == (old(self).dirty_view() || command_saves(old(self).data_view(), channel@, subcommand_text@, now_ms)));
                }
                return out;
            }
            return "Usage: `/pairing revoke <user_id>` or `/pairing revoke <channel> <user_id>`".to_owned();
        }
        "Unknown pairing command.\nUsage: `/pairing [list|approve <code>|deny <code>|revoke <user_id>|revoke <channel> <user_id>]`".to_owned()
    }
}

} // verus!

verus! {

/// A strictly sorted sequence of texts has as many elements as the set it holds.
proof fn lemma_sorted_len_is_set_len(s: Seq<Seq<char>>)
    requires
        strictly_sorted(s),
    ensures
        s.len() == s.to_set().len(),
{
    assert forall|i: int, j: int| 0 <= i < s.len() && 0 <= j < s.len() && i != j implies s[i] != s[j] by {
        if s[i] == s[j] {
            crate::pairing::sorted::lemma_sorted_unique(s, i, j);
        }
    }
    s.unique_seq_to_set();
}

/// With channels in strictly increasing order, `users_count` counts the senders of the
/// channel's own entry.
proof fn lemma_users_count_at(a: Seq<(String, Vec<String>)>, ch: Seq<char>, k: int)
    requires
        strictly_sorted(crate::pairing::data::chan_keys(a)),
        0 <= k < a.len(),
        a[k].0@ == ch,
    ensures
        users_count(a, ch) == a[k].1@.len(),
{
    assert forall|j: int| 0 <= j < a.len() && #[trigger] a[j].0@ == ch implies j == k by {
        assert(crate::pairing::data::chan_keys(a)[j] == crate::pairing::data::chan_keys(a)[k]);
        crate::pairing::sorted::lemma_sorted_unique(crate::pairing::data::chan_keys(a), j, k);
    }
    assert(exists|w: int| 0 <= w < a.len() && #[trigger] a[w].0@ == ch);
}

/// The senders listed for `ch` (as `get_approved` lists them: strictly sorted, and
/// exactly the approved ones) are as many as `users_count` counts.
proof fn lemma_listed_users_count(d: PairingData, ch: Seq<char>, u: Seq<Seq<char>>)
    requires
        d.wf(),
        strictly_sorted(u),
        forall|x: Seq<char>| u.contains(x) == approved_in(d.approved@, ch, x),
    ensures
        u.len() == users_count(d.approved@, ch),
{
    let a = d.approved@;
    lemma_sorted_len_is_set_len(u);
    if exists|i: int| 0 <= i < a.len() && #[trigger] a[i].0@ == ch {
        let k = choose|i: int| 0 <= i < a.len() && #[trigger] a[i].0@ == ch;
        let w = views(a[k].1@);
        assert(strictly_sorted(w));
        lemma_sorted_len_is_set_len(w);
        assert forall|x: Seq<char>| u.to_set().contains(x) == w.to_set().contains(x) by {
            if u.contains(x) {
                let (i, j) = choose|i: int, j: int|
                    0 <= i < a.len() && 0 <= j < a[i].1@.len() && a[i].0@ == ch && #[trigger] a[i].1@[j]@ == x;
                assert(crate::pairing::data::chan_keys(a)[i] == crate::pairing::data::chan_keys(a)[k]);
                crate::pairing::sorted::lemma_sorted_unique(crate::pairing::data::chan_keys(a), i, k);
                assert(w[j] == x);
            }
            if w.contains(x) {
                let j = choose|j: int| 0 <= j < w.len() && w[j] == x;
                assert(a[k].1@[j]@ == x);
                assert(approved_in(a, ch, x));
            }
        }
        assert(u.to_set() =~= w.to_set());
        assert(w.len() == a[k].1@.len());
        assert(u.len() == w.len());
        lemma_users_count_at(a, ch, k);
    } else {
        assert forall|x: Seq<char>| !u.to_set().contains(x) by {
            if u.contains(x) {
                let (i, j) = choose|i: int, j: int|
                    0 <= i < a.len() && 0 <= j < a[i].1@.len() && a[i].0@ == ch && #[trigger] a[i].1@[j]@ == x;
                assert(a[i].0@ == ch);
            }
        }
        assert(u.to_set() =~= Set::<Seq<char>>::empty());
        assert(u.len() == 0);
    }
}

/// An approved code is gone: it is no longer among the pending requests, and no
/// later listing of them shows it.
pub proof fn law_approved_code_leaves_pending(
    o: PairingData,
    n: PairingData,
    code: Seq<char>,
    now: i64,
    r: Option<(String, String)>,
    m: PairingData,
    later: i64,
    listed: Seq<PendingRequest>,
)
    requires
        o.wf(),
        approve_ok(o, n, code, now, r),
        r is Some,
        list_ok(n, m, later, listed),
    ensures
        !has_code(n.pending@, code),
        forall|i: int| 0 <= i < listed.len() ==> #[trigger] listed[i].code@ != code,
{
    let g = live(o.pending@, now);
    let pred = |e: (String, PendingEntry)| unexpired(e, now);
    crate::pairing::data::lemma_filter_sorted(o.pending@, pred);
    let i = choose|i: int| 0 <= i < g.len() && #[trigger] g[i].0@ == code
        && n.pending@ == g.remove(i);
    if has_code(n.pending@, code) {
        let j = choose|j: int| 0 <= j < n.pending@.len() && #[trigger] n.pending@[j].0@ == code;
        let jj = if j < i { j } else { j + 1 };
        assert(g[jj] == n.pending@[j]);
        assert(code_keys(g)[jj] == code_keys(g)[i]);
        crate::pairing::sorted::lemma_sorted_unique(code_keys(g), jj, i);
    }
    assert forall|k: int| 0 <= k < listed.len() implies #[trigger] listed[k].code@ != code by {
        let lp = |e: (String, PendingEntry)| unexpired(e, later);
        assert(lists(listed[k], m.pending@[k]));
        assert(m.pending@ == n.pending@.filter(lp));
        assert(n.pending@.filter(lp).contains(m.pending@[k]));
        n.pending@.lemma_filter_contains_rev(lp, m.pending@[k]);
        let q = choose|q: int| 0 <= q < n.pending@.len() && n.pending@[q] == m.pending@[k];
        if listed[k].code@ == code {
            assert(n.pending@[q].0@ == code);
        }
    }
}

/// Revoking a channel answers how many senders were approved on it: as many as
/// `get_approved` lists for it beforehand.
pub proof fn law_revoke_channel_counts_approved(o: PairingData, ch: Seq<char>, approved: Seq<Seq<char>>)
    requires
        o.wf(),
        strictly_sorted(approved),
        forall|x: Seq<char>| approved.contains(x) == approved_in(o.approved@, ch, x),
    ensures
        users_count(o.approved@, ch) == approved.len(),
{
    lemma_listed_users_count(o, ch, approved);
}

/// Clearing a channel answers how many senders were approved on it (as many as
/// `get_approved` lists beforehand) and how many stored requests were on it.
pub proof fn law_clear_channel_counts(o: PairingData, ch: Seq<char>, approved: Seq<Seq<char>>)
    requires
        o.wf(),
        strictly_sorted(approved),
        forall|x: Seq<char>| approved.contains(x) == approved_in(o.approved@, ch, x),
    ensures
        users_count(o.approved@, ch) == approved.len(),
        pending_on(o.pending@, ch).len() + pending_off(o.pending@, ch).len() == o.pending@.len(),
{
    lemma_listed_users_count(o, ch, approved);
    crate::pairing::data::lemma_pending_split(o.pending@, ch);
}

} // verus!

verus! {

/// `/pairing revoke <channel> <user>` withdraws the approval of `<user>` on the
/// channel it names, whatever channel the command was sent on, and
/// `/pairing revoke <user>` withdraws it on the channel the command came from; every
/// other approval and every pending request stays. The reply says which sender was
/// revoked from which channel, or that it was not approved there.
pub proof fn law_revoke_command_targets_named_channel(
    o: PairingData,
    n: PairingData,
    channel: Seq<char>,
    text: Seq<char>,
    now: i64,
    reply: Seq<char>,
)
    requires
        command_ok(o, n, channel, text, now, reply),
        split_ws(text).len() == 2 || split_ws(text).len() == 3,
        split_ws(text)[0] == "revoke"@,
    ensures
        ({
            let parts = split_ws(text);
            let ch = if parts.len() == 3 { parts[1] } else { channel };
            let user = parts[parts.len() - 1];
            &&& !approved_in(n.approved@, ch, user)
            &&& forall|c: Seq<char>, v: Seq<char>| !(c == ch && v == user) ==>
                (#[trigger] approved_in(n.approved@, c, v) == approved_in(o.approved@, c, v))
            &&& n.pending@ == o.pending@
            &&& reply == if approved_in(o.approved@, ch, user) {
                "Revoked "@ + user + " from "@ + ch
            } else {
                user + " was not in the approved list for "@ + ch
            }
        }),
{
    reveal_strlit("revoke");
    reveal_strlit("list");
    reveal_strlit("approve");
    reveal_strlit("deny");
    let parts = split_ws(text);
    assert("revoke"@.len() == 6 && "list"@.len() == 4 && "approve"@.len() == 7 && "deny"@.len() == 4);
    assert(parts[0] != "list"@ && parts[0] != "approve"@ && parts[0] != "deny"@);
}

} // verus!
