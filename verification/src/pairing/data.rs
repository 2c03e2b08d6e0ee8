//! The pairing data: approved senders by channel, and pending codes.
//!
//! Channels, the senders of each channel and the pending codes are each kept in
//! strictly increasing order, which is the order in which they are listed and
//! stored.

use vstd::prelude::*;

use crate::pairing::sorted::{insert_sorted, lemma_sorted_insert, lemma_sorted_remove, lemma_sorted_unique, locate, views};
use crate::text::{str_lt, strictly_sorted};

verus! {

/// A pending pairing request, under its code.
pub struct PendingEntry {
    pub channel: String,
    pub sender_id: String,
    /// Creation time (ms since the epoch).
    pub created_at_ms: i64,
    /// Expiry time (ms since the epoch).
    pub expires_at_ms: i64,
}

impl PendingEntry {
    /// A copy of this entry.
    pub fn duplicate(&self) -> (r: Self)
        ensures
            r == *self,
    {
        PendingEntry {
            channel: self.channel.clone(),
            sender_id: self.sender_id.clone(),
            created_at_ms: self.created_at_ms,
            expires_at_ms: self.expires_at_ms,
        }
    }
}

/// The channels of the approved list.
pub open spec fn chan_keys(a: Seq<(String, Vec<String>)>) -> Seq<Seq<char>> {
    a.map_values(|e: (String, Vec<String>)| e.0@)
}

/// The codes of the pending list.
pub open spec fn code_keys(p: Seq<(String, PendingEntry)>) -> Seq<Seq<char>> {
    p.map_values(|e: (String, PendingEntry)| e.0@)
}

/// Whether sender `u` is approved on channel `ch`.
pub open spec fn approved_in(a: Seq<(String, Vec<String>)>, ch: Seq<char>, u: Seq<char>) -> bool {
    exists|i: int, j: int|
        0 <= i < a.len() && 0 <= j < a[i].1@.len() && a[i].0@ == ch && #[trigger] a[i].1@[j]@ == u
}

/// Whether a pending request has code `code`.
pub open spec fn has_code(p: Seq<(String, PendingEntry)>, code: Seq<char>) -> bool {
    exists|i: int| 0 <= i < p.len() && #[trigger] p[i].0@ == code
}

/// Whether a pending entry is still valid at `now` (it expires strictly after... or at `now`).
pub open spec fn unexpired(e: (String, PendingEntry), now: i64) -> bool {
    e.1.expires_at_ms >= now
}

/// The pending list after dropping what expired before `now`.
pub open spec fn live(p: Seq<(String, PendingEntry)>, now: i64) -> Seq<(String, PendingEntry)> {
    p.filter(|e: (String, PendingEntry)| unexpired(e, now))
}

/// Approved senders by channel and pending requests by code.
pub struct PairingData {
    pub approved: Vec<(String, Vec<String>)>,
    pub pending: Vec<(String, PendingEntry)>,
}

/// A strictly sorted list of texts has no repeats and its order is fixed by its set.
pub proof fn lemma_filter_sorted(p: Seq<(String, PendingEntry)>, pred: spec_fn((String, PendingEntry)) -> bool)
    requires
        strictly_sorted(code_keys(p)),
    ensures
        strictly_sorted(code_keys(p.filter(pred))),
    decreases p.len(),
{
    reveal(Seq::filter);
    if p.len() > 0 {
        let rest = p.drop_last();
        assert(code_keys(rest) =~= code_keys(p).drop_last());
        assert forall|i: int, j: int| 0 <= i < j < code_keys(rest).len() implies str_lt(#[trigger] code_keys(rest)[i], #[trigger] code_keys(rest)[j]) by {
            assert(code_keys(rest)[i] == code_keys(p)[i]);
            assert(code_keys(rest)[j] == code_keys(p)[j]);
        }
        lemma_filter_sorted(rest, pred);
        let sub = rest.filter(pred);
        if pred(p.last()) {
            let t = sub.push(p.last());
            assert forall|i: int, j: int| 0 <= i < j < code_keys(t).len() implies str_lt(#[trigger] code_keys(t)[i], #[trigger] code_keys(t)[j]) by {
                if j == t.len() - 1 {
                    assert(sub.contains(t[i]));
                    rest.lemma_filter_contains_rev(pred, t[i]);
                    let k = choose|k: int| 0 <= k < rest.len() && rest[k] == t[i];
                    assert(code_keys(p)[k] == t[i].0@);
                    assert(code_keys(p)[p.len() - 1] == p.last().0@);
                } else {
                    assert(code_keys(t)[i] == code_keys(sub)[i]);
                    assert(code_keys(t)[j] == code_keys(sub)[j]);
                }
            }
        }
    }
}

/// Whether a pending request was made on a channel other than `ch`.
pub open spec fn off_channel(ch: Seq<char>) -> spec_fn((String, PendingEntry)) -> bool {
    |e: (String, PendingEntry)| e.1.channel@ != ch
}

/// Whether a pending request was made on `ch`.
pub open spec fn on_channel(ch: Seq<char>) -> spec_fn((String, PendingEntry)) -> bool {
    |e: (String, PendingEntry)| e.1.channel@ == ch
}

/// The pending requests of channels other than `ch`, in order.
pub open spec fn pending_off(p: Seq<(String, PendingEntry)>, ch: Seq<char>) -> Seq<(String, PendingEntry)> {
    p.filter(off_channel(ch))
}

/// The pending requests of `ch`, in order.
pub open spec fn pending_on(p: Seq<(String, PendingEntry)>, ch: Seq<char>) -> Seq<(String, PendingEntry)> {
    p.filter(on_channel(ch))
}

/// The requests of `ch` and those of other channels add up to all of them.
pub proof fn lemma_pending_split(p: Seq<(String, PendingEntry)>, ch: Seq<char>)
    ensures
        pending_on(p, ch).len() + pending_off(p, ch).len() == p.len(),
    decreases p.len(),
{
    reveal_with_fuel(Seq::filter, 1);
    if p.len() > 0 {
        lemma_pending_split(p.drop_last(), ch);
    }
}

/// The number of senders approved on `ch`.
pub open spec fn users_count(a: Seq<(String, Vec<String>)>, ch: Seq<char>) -> nat {
    if exists|i: int| 0 <= i < a.len() && #[trigger] a[i].0@ == ch {
        a[choose|i: int| 0 <= i < a.len() && #[trigger] a[i].0@ == ch].1@.len()
    } else {
        0
    }
}

impl PairingData {
    /// Channels, senders and codes each strictly increasing; no channel without senders.
    pub open spec fn wf(&self) -> bool {
        &&& strictly_sorted(chan_keys(self.approved@))
        &&& forall|i: int| 0 <= i < self.approved@.len() ==> {
            &&& strictly_sorted(views(#[trigger] self.approved@[i].1@))
            &&& self.approved@[i].1@.len() > 0
        }
        &&& strictly_sorted(code_keys(self.pending@))
    }

    /// No approvals and no pending requests.
    pub fn new() -> (d: Self)
        ensures
            d.wf(),
            d.approved@.len() == 0,
            d.pending@.len() == 0,
    {
        let d = PairingData { approved: Vec::new(), pending: Vec::new() };
        assert(chan_keys(d.approved@) =~= Seq::<Seq<char>>::empty());
        assert(code_keys(d.pending@) =~= Seq::<Seq<char>>::empty());
        d
    }

    /// Drops the requests that expired before `now` (those with `expires_at < now`).
    pub fn gc(&mut self, now_ms: i64)
        requires
            old(self).wf(),
        ensures
            final(self).wf(),
            final(self).approved@ == old(self).approved@,
            final(self).pending@ == live(old(self).pending@, now_ms),
    {
        let ghost old_p = self.pending@;
        let ghost pred = |e: (String, PendingEntry)| unexpired(e, now_ms);
        let mut kept: Vec<(String, PendingEntry)> = Vec::new();
        let mut i: usize = 0;
        while i < self.pending.len()
            invariant
                self.pending@ == old_p,
                i <= old_p.len(),
                pred == (|e: (String, PendingEntry)| unexpired(e, now_ms)),
                kept@ == old_p.subrange(0, i as int).filter(pred),
            decreases old_p.len() - i,
        {
            let ghost prefix = old_p.subrange(0, i as int);
            assert(old_p.subrange(0, i + 1) == prefix.push(old_p[i as int]));
            proof {
                prefix.lemma_filter_push(old_p[i as int], pred);
            }
            if self.pending[i].1.expires_at_ms >= now_ms {
                let e = (self.pending[i].0.clone(), self.pending[i].1.duplicate());
                kept.push(e);
            }
            i = i + 1;
        }
        assert(old_p.subrange(0, old_p.len() as int) == old_p);
        proof {
            lemma_filter_sorted(old_p, pred);
        }
        self.pending = kept;
    }
}

impl PairingData {
    fn channel_names(&self) -> (r: Vec<String>)
        ensures
            views(r@) == chan_keys(self.approved@),
    {
        let mut out: Vec<String> = Vec::new();
        let mut i: usize = 0;
        while i < self.approved.len()
            invariant
                i <= self.approved@.len(),
                out@.len() == i,
                forall|k: int| 0 <= k < i ==> (#[trigger] out@[k])@ == self.approved@[k].0@,
            decreases self.approved@.len() - i,
        {
            out.push(self.approved[i].0.clone());
            i = i + 1;
        }
        assert(views(out@) =~= chan_keys(self.approved@));
        out
    }

    fn code_names(&self) -> (r: Vec<String>)
        ensures
            views(r@) == code_keys(self.pending@),
    {
        let mut out: Vec<String> = Vec::new();
        let mut i: usize = 0;
        while i < self.pending.len()
            invariant
                i <= self.pending@.len(),
                out@.len() == i,
                forall|k: int| 0 <= k < i ==> (#[trigger] out@[k])@ == self.pending@[k].0@,
            decreases self.pending@.len() - i,
        {
            out.push(self.pending[i].0.clone());
            i = i + 1;
        }
        assert(views(out@) =~= code_keys(self.pending@));
        out
    }

    /// Where channel `ch` is, or belongs, in the approved list.
    fn locate_channel(&self, ch: &str) -> (r: (bool, usize))
        requires
            self.wf(),
        ensures
            r.1 <= self.approved@.len(),
            r.0 ==> r.1 < self.approved@.len() && self.approved@[r.1 as int].0@ == ch@,
            r.0 ==> forall|k: int| 0 <= k < self.approved@.len() && self.approved@[k].0@ == ch@ ==> k == r.1,
            !r.0 ==> forall|k: int| 0 <= k < self.approved@.len() ==> self.approved@[k].0@ != ch@,
            !r.0 ==> forall|k: int| 0 <= k < r.1 ==> str_lt(#[trigger] chan_keys(self.approved@)[k], ch@),
            !r.0 ==> forall|k: int| r.1 <= k < self.approved@.len() ==> str_lt(ch@, #[trigger] chan_keys(self.approved@)[k]),
    {
        let names = self.channel_names();
        let (found, pos) = locate(&names, ch);
        proof {
            let ks = chan_keys(self.approved@);
            assert(views(names@).len() == names@.len());
            assert(ks.len() == self.approved@.len());
            assert forall|k: int| 0 <= k < self.approved@.len() implies ks[k] == self.approved@[k].0@ && names@[k]@ == ks[k] by {
                assert(views(names@)[k] == names@[k]@);
            }
            if found {
                assert(names@[pos as int]@ == ks[pos as int]);
                assert forall|k: int| 0 <= k < self.approved@.len() && self.approved@[k].0@ == ch@ implies k == pos by {
                    lemma_sorted_unique(ks, k, pos as int);
                }
            } else {
                assert forall|k: int| 0 <= k < self.approved@.len() implies self.approved@[k].0@ != ch@ by {
                    if self.approved@[k].0@ == ch@ {
                        assert(names@[k]@ == ks[k]);
                    }
                }
            }
        }
        (found, pos)
    }

    /// Where code `code` is, or belongs, in the pending list.
    fn locate_code(&self, code: &str) -> (r: (bool, usize))
        requires
            self.wf(),
        ensures
            r.1 <= self.pending@.len(),
            r.0 ==> r.1 < self.pending@.len() && self.pending@[r.1 as int].0@ == code@,
            r.0 ==> forall|k: int| 0 <= k < self.pending@.len() && self.pending@[k].0@ == code@ ==> k == r.1,
            !r.0 ==> forall|k: int| 0 <= k < self.pending@.len() ==> self.pending@[k].0@ != code@,
            !r.0 ==> forall|k: int| 0 <= k < r.1 ==> str_lt(#[trigger] code_keys(self.pending@)[k], code@),
            !r.0 ==> forall|k: int| r.1 <= k < self.pending@.len() ==> str_lt(code@, #[trigger] code_keys(self.pending@)[k]),
    {
        let names = self.code_names();
        let (found, pos) = locate(&names, code);
        proof {
            let ks = code_keys(self.pending@);
            assert(views(names@).len() == names@.len());
            assert(ks.len() == self.pending@.len());
            assert forall|k: int| 0 <= k < self.pending@.len() implies ks[k] == self.pending@[k].0@ && names@[k]@ == ks[k] by {
                assert(views(names@)[k] == names@[k]@);
            }
            if found {
                assert(names@[pos as int]@ == ks[pos as int]);
                assert forall|k: int| 0 <= k < self.pending@.len() && self.pending@[k].0@ == code@ implies k == pos by {
                    lemma_sorted_unique(ks, k, pos as int);
                }
            } else {
                assert forall|k: int| 0 <= k < self.pending@.len() implies self.pending@[k].0@ != code@ by {
                    if self.pending@[k].0@ == code@ {
                        assert(names@[k]@ == ks[k]);
                    }
                }
            }
        }
        (found, pos)
    }

    /// Whether `sender_id` is approved on `channel`.
    pub fn is_approved(&self, channel: &str, sender_id: &str) -> (r: bool)
        requires
            self.wf(),
        ensures
            r == approved_in(self.approved@, channel@, sender_id@),
    {
        let (found, i) = self.locate_channel(channel);
        if !found {
            return false;
        }
        let (present, j) = locate(&self.approved[i].1, sender_id);
        proof {
            if present {
                assert(self.approved@[i as int].1@[j as int]@ == sender_id@);
            } else {
                assert forall|a: int, b: int| 0 <= a < self.approved@.len() && 0 <= b < self.approved@[a].1@.len()
                    && self.approved@[a].0@ == channel@ implies #[trigger] self.approved@[a].1@[b]@ != sender_id@ by {
                    assert(a == i);
                }
            }
        }
        present
    }

    /// The senders approved on `channel`, in increasing order.
    pub fn users(&self, channel: &str) -> (r: Vec<String>)
        requires
            self.wf(),
        ensures
            strictly_sorted(views(r@)),
            forall|u: Seq<char>| views(r@).contains(u) == approved_in(self.approved@, channel@, u),
            r@.len() == users_count(self.approved@, channel@),
    {
        let (found, i) = self.locate_channel(channel);
        if !found {
            let r: Vec<String> = Vec::new();
            assert(views(r@) =~= Seq::<Seq<char>>::empty());
            return r;
        }
        let r = self.approved[i].1.clone();
        proof {
            assert(r@ == self.approved@[i as int].1@);
            assert forall|u: Seq<char>| views(r@).contains(u) == approved_in(self.approved@, channel@, u) by {
                if views(r@).contains(u) {
                    let j = choose|j: int| 0 <= j < views(r@).len() && views(r@)[j] == u;
                    assert(self.approved@[i as int].1@[j]@ == u);
                }
                if approved_in(self.approved@, channel@, u) {
                    let (a, b) = choose|a: int, b: int| 0 <= a < self.approved@.len() && 0 <= b < self.approved@[a].1@.len()
                        && self.approved@[a].0@ == channel@ && #[trigger] self.approved@[a].1@[b]@ == u;
                    assert(a == i);
                    assert(views(r@)[b] == u);
                }
            }
        }
        r
    }
}

impl PairingData {
    /// Approves `sender_id` on `channel`.
    pub fn add_approved(&mut self, channel: String, sender_id: String)
        requires
            old(self).wf(),
        ensures
            final(self).wf(),
            final(self).pending@ == old(self).pending@,
            forall|c: Seq<char>, v: Seq<char>| #[trigger] approved_in(final(self).approved@, c, v)
                == (approved_in(old(self).approved@, c, v) || (c == channel@ && v == sender_id@)),
    {
        let (found, i) = self.locate_channel(channel.as_str());
        let ghost old_a = self.approved@;
        let ghost ch = channel@;
        let ghost u = sender_id@;
        if found {
            let mut list = self.approved[i].1.clone();
            assert(list@ == old_a[i as int].1@);
            insert_sorted(&mut list, sender_id);
            let ghost new_list = list@;
            let name = self.approved[i].0.clone();
            self.approved.set(i, (name, list));
            proof {
                let new_a = self.approved@;
                assert(chan_keys(new_a) =~= chan_keys(old_a));
                assert forall|c: Seq<char>, v: Seq<char>| #[trigger] approved_in(new_a, c, v)
                    == (approved_in(old_a, c, v) || (c == ch && v == u)) by {
                    if approved_in(new_a, c, v) {
                        let (a, b) = choose|a: int, b: int| 0 <= a < new_a.len() && 0 <= b < new_a[a].1@.len()
                            && new_a[a].0@ == c && #[trigger] new_a[a].1@[b]@ == v;
                        if a != i {
                            assert(old_a[a].1@[b]@ == v);
                        } else {
                            assert(views(new_list).contains(v)) by {
                                assert(views(new_list)[b] == v);
                            }
                            assert(views(new_list).to_set().contains(v));
                            if v != u {
                                assert(views(old_a[a].1@).to_set().contains(v));
                                let j = choose|j: int| 0 <= j < views(old_a[a].1@).len() && views(old_a[a].1@)[j] == v;
                                assert(old_a[a].1@[j]@ == v);
                            }
                        }
                    }
                    if approved_in(old_a, c, v) {
                        let (a, b) = choose|a: int, b: int| 0 <= a < old_a.len() && 0 <= b < old_a[a].1@.len()
                            && old_a[a].0@ == c && #[trigger] old_a[a].1@[b]@ == v;
                        if a != i {
                            assert(new_a[a].1@[b]@ == v);
                        } else {
                            assert(views(old_a[a].1@)[b] == v);
                            assert(views(old_a[a].1@).to_set().contains(v));
                            assert(views(new_list).to_set().contains(v));
                            let j = choose|j: int| 0 <= j < views(new_list).len() && views(new_list)[j] == v;
                            assert(new_a[a].1@[j]@ == v);
                        }
                    }
                    if c == ch && v == u {
                        assert(views(new_list).to_set().contains(v));
                        let j = choose|j: int| 0 <= j < views(new_list).len() && views(new_list)[j] == v;
                        assert(new_a[i as int].1@[j]@ == v);
                    }
                }
            }
        } else {
            let mut list: Vec<String> = Vec::new();
            list.push(sender_id);
            self.approved.insert(i, (channel, list));
            proof {
                let new_a = self.approved@;
                assert(chan_keys(new_a) =~= chan_keys(old_a).insert(i as int, ch));
                lemma_sorted_insert(chan_keys(old_a), i as int, ch);
                assert(strictly_sorted(views(new_a[i as int].1@))) by {
                    assert(views(new_a[i as int].1@).len() == 1);
                }
                assert forall|k: int| 0 <= k < new_a.len() implies {
                    &&& strictly_sorted(views(#[trigger] new_a[k].1@))
                    &&& new_a[k].1@.len() > 0
                } by {
                    if k < i {
                        assert(new_a[k] == old_a[k]);
                    } else if k > i {
                        assert(new_a[k] == old_a[k - 1]);
                    }
                }
                assert forall|c: Seq<char>, v: Seq<char>| #[trigger] approved_in(new_a, c, v)
                    == (approved_in(old_a, c, v) || (c == ch && v == u)) by {
                    if approved_in(new_a, c, v) {
                        let (a, b) = choose|a: int, b: int| 0 <= a < new_a.len() && 0 <= b < new_a[a].1@.len()
                            && new_a[a].0@ == c && #[trigger] new_a[a].1@[b]@ == v;
                        if a < i {
                            assert(old_a[a].1@[b]@ == v);
                        } else if a > i {
                            assert(new_a[a] == old_a[a - 1]);
                            assert(old_a[a - 1].1@[b]@ == v);
                        }
                    }
                    if approved_in(old_a, c, v) {
                        let (a, b) = choose|a: int, b: int| 0 <= a < old_a.len() && 0 <= b < old_a[a].1@.len()
                            && old_a[a].0@ == c && #[trigger] old_a[a].1@[b]@ == v;
                        if a < i {
                            assert(new_a[a].1@[b]@ == v);
                        } else {
                            assert(new_a[a + 1] == old_a[a]);
                            assert(new_a[a + 1].1@[b]@ == v);
                        }
                    }
                    if c == ch && v == u {
                        assert(new_a[i as int].1@[0]@ == v);
                    }
                }
            }
        }
    }
}

/// A pending request as listed.
pub struct PendingRequest {
    pub code: String,
    pub channel: String,
    pub sender_id: String,
    pub created_at_ms: i64,
    pub expires_at_ms: i64,
}

/// Whether a listed request shows the entry `e` under its code.
pub open spec fn lists(r: PendingRequest, e: (String, PendingEntry)) -> bool {
    &&& r.code == e.0
    &&& r.channel == e.1.channel
    &&& r.sender_id == e.1.sender_id
    &&& r.created_at_ms == e.1.created_at_ms
    &&& r.expires_at_ms == e.1.expires_at_ms
}

impl PairingData {
    /// Withdraws the approval of `sender_id` on `channel`; says whether it was there. A
    /// channel left without senders disappears.
    pub fn remove_user(&mut self, channel: &str, sender_id: &str) -> (r: bool)
        requires
            old(self).wf(),
        ensures
            final(self).wf(),
            final(self).pending@ == old(self).pending@,
            r == approved_in(old(self).approved@, channel@, sender_id@),
            forall|c: Seq<char>, v: Seq<char>| #[trigger] approved_in(final(self).approved@, c, v)
                == (approved_in(old(self).approved@, c, v) && !(c == channel@ && v == sender_id@)),
    {
        let was = self.is_approved(channel, sender_id);
        let (found, i) = self.locate_channel(channel);
        if !found {
            return false;
        }
        let (present, j) = locate(&self.approved[i].1, sender_id);
        if !present {
            return false;
        }
        let ghost old_a = self.approved@;
        let mut list = self.approved[i].1.clone();
        assert(list@ == old_a[i as int].1@);
        list.remove(j);
        let ghost new_list = list@;
        proof {
            assert(views(new_list) =~= views(old_a[i as int].1@).remove(j as int));
            lemma_sorted_remove(views(old_a[i as int].1@), j as int);
        }
        if list.len() == 0 {
            self.approved.remove(i);
            proof {
                let new_a = self.approved@;
                assert(chan_keys(new_a) =~= chan_keys(old_a).remove(i as int));
                lemma_sorted_remove(chan_keys(old_a), i as int);
                assert(old_a[i as int].1@.len() == 1);
                assert forall|k: int| 0 <= k < new_a.len() implies {
                    &&& strictly_sorted(views(#[trigger] new_a[k].1@))
                    &&& new_a[k].1@.len() > 0
                } by {
                    if k < i {
                        assert(new_a[k] == old_a[k]);
                    } else {
                        assert(new_a[k] == old_a[k + 1]);
                    }
                }
                assert forall|c: Seq<char>, v: Seq<char>| #[trigger] approved_in(new_a, c, v)
                    == (approved_in(old_a, c, v) && !(c == channel@ && v == sender_id@)) by {
                    if approved_in(new_a, c, v) {
                        let (a, b) = choose|a: int, b: int| 0 <= a < new_a.len() && 0 <= b < new_a[a].1@.len()
                            && new_a[a].0@ == c && #[trigger] new_a[a].1@[b]@ == v;
                        if a < i {
                            assert(old_a[a].1@[b]@ == v);
                            assert(a != i);
                        } else {
                            assert(new_a[a] == old_a[a + 1]);
                            assert(old_a[a + 1].1@[b]@ == v);
                            assert(chan_keys(old_a)[a + 1] != chan_keys(old_a)[i as int]) by {
                                crate::text::lemma_str_lt_irreflexive(chan_keys(old_a)[i as int]);
                            }
                        }
                    }
                    if approved_in(old_a, c, v) && !(c == channel@ && v == sender_id@) {
                        let (a, b) = choose|a: int, b: int| 0 <= a < old_a.len() && 0 <= b < old_a[a].1@.len()
                            && old_a[a].0@ == c && #[trigger] old_a[a].1@[b]@ == v;
                        if a < i {
                            assert(new_a[a].1@[b]@ == v);
                        } else if a > i {
                            assert(new_a[a - 1] == old_a[a]);
                            assert(new_a[a - 1].1@[b]@ == v);
                        } else {
                            assert(b == 0 && j == 0);
                        }
                    }
                }
            }
        } else {
            let name = self.approved[i].0.clone();
            self.approved.set(i, (name, list));
            proof {
                let new_a = self.approved@;
                assert(chan_keys(new_a) =~= chan_keys(old_a));
                let ov = views(old_a[i as int].1@);
                assert forall|c: Seq<char>, v: Seq<char>| #[trigger] approved_in(new_a, c, v)
                    == (approved_in(old_a, c, v) && !(c == channel@ && v == sender_id@)) by {
                    if approved_in(new_a, c, v) {
                        let (a, b) = choose|a: int, b: int| 0 <= a < new_a.len() && 0 <= b < new_a[a].1@.len()
                            && new_a[a].0@ == c && #[trigger] new_a[a].1@[b]@ == v;
                        if a != i {
                            assert(old_a[a].1@[b]@ == v);
                            assert(chan_keys(old_a)[a] != chan_keys(old_a)[i as int]) by {
                                if chan_keys(old_a)[a] == chan_keys(old_a)[i as int] {
                                    crate::pairing::sorted::lemma_sorted_unique(chan_keys(old_a), a, i as int);
                                }
                            }
                        } else {
                            let ob = if b < j { b } else { b + 1 };
                            assert(new_list[b] == old_a[i as int].1@[ob]);
                            assert(old_a[i as int].1@[ob]@ == v);
                            assert(ov[ob] == v && ov[j as int] == sender_id@);
                            if v == sender_id@ {
                                crate::pairing::sorted::lemma_sorted_unique(ov, ob, j as int);
                            }
                        }
                    }
                    if approved_in(old_a, c, v) && !(c == channel@ && v == sender_id@) {
                        let (a, b) = choose|a: int, b: int| 0 <= a < old_a.len() && 0 <= b < old_a[a].1@.len()
                            && old_a[a].0@ == c && #[trigger] old_a[a].1@[b]@ == v;
                        if a != i {
                            assert(new_a[a].1@[b]@ == v);
                        } else {
                            assert(b != j);
                            let nb = if b < j { b } else { b - 1 };
                            assert(new_list[nb] == old_a[i as int].1@[b]);
                            assert(new_a[a].1@[nb]@ == v);
                        }
                    }
                }
            }
        }
        proof {
            assert(old_a[i as int].1@[j as int]@ == sender_id@);
        }
        true
    }

    /// Withdraws every approval on `channel`; returns how many there were.
    pub fn remove_channel(&mut self, channel: &str) -> (r: usize)
        requires
            old(self).wf(),
        ensures
            final(self).wf(),
            final(self).pending@ == old(self).pending@,
            r == users_count(old(self).approved@, channel@),
            forall|c: Seq<char>, v: Seq<char>| #[trigger] approved_in(final(self).approved@, c, v)
                == (approved_in(old(self).approved@, c, v) && c != channel@),
    {
        let (found, i) = self.locate_channel(channel);
        if !found {
            return 0;
        }
        let ghost old_a = self.approved@;
        let n = self.approved[i].1.len();
        self.approved.remove(i);
        proof {
            let new_a = self.approved@;
            assert(chan_keys(new_a) =~= chan_keys(old_a).remove(i as int));
            lemma_sorted_remove(chan_keys(old_a), i as int);
            assert forall|k: int| 0 <= k < new_a.len() implies {
                &&& strictly_sorted(views(#[trigger] new_a[k].1@))
                &&& new_a[k].1@.len() > 0
            } by {
                if k < i {
                    assert(new_a[k] == old_a[k]);
                } else {
                    assert(new_a[k] == old_a[k + 1]);
                }
            }
            assert forall|c: Seq<char>, v: Seq<char>| #[trigger] approved_in(new_a, c, v)
                == (approved_in(old_a, c, v) && c != channel@) by {
                if approved_in(new_a, c, v) {
                    let (a, b) = choose|a: int, b: int| 0 <= a < new_a.len() && 0 <= b < new_a[a].1@.len()
                        && new_a[a].0@ == c && #[trigger] new_a[a].1@[b]@ == v;
                    let oa = if a < i { a } else { a + 1 };
                    assert(new_a[a] == old_a[oa]);
                    assert(old_a[oa].1@[b]@ == v);
                }
                if approved_in(old_a, c, v) && c != channel@ {
                    let (a, b) = choose|a: int, b: int| 0 <= a < old_a.len() && 0 <= b < old_a[a].1@.len()
                        && old_a[a].0@ == c && #[trigger] old_a[a].1@[b]@ == v;
                    assert(a != i);
                    let na = if a < i { a } else { a - 1 };
                    assert(new_a[na] == old_a[a]);
                    assert(new_a[na].1@[b]@ == v);
                }
            }
            assert(old_a[i as int].0@ == channel@);
            let w = choose|w: int| 0 <= w < old_a.len() && #[trigger] old_a[w].0@ == channel@;
            assert(w == i);
        }
        n
    }

    /// Removes the pending request with code `code`, returning it.
    pub fn take_pending(&mut self, code: &str) -> (r: Option<PendingEntry>)
        requires
            old(self).wf(),
        ensures
            final(self).wf(),
            final(self).approved@ == old(self).approved@,
            match r {
                Some(e) => exists|i: int| 0 <= i < old(self).pending@.len() && old(self).pending@[i].0@ == code@
                    && e == old(self).pending@[i].1 && final(self).pending@ == old(self).pending@.remove(i),
                None => !has_code(old(self).pending@, code@) && final(self).pending@ == old(self).pending@,
            },
    {
        let (found, i) = self.locate_code(code);
        if !found {
            return None;
        }
        let ghost old_p = self.pending@;
        let (_c, e) = self.pending.remove(i);
        proof {
            assert(code_keys(self.pending@) =~= code_keys(old_p).remove(i as int));
            lemma_sorted_remove(code_keys(old_p), i as int);
        }
        Some(e)
    }

    /// Stores `entry` under `code`, replacing a request with the same code.
    pub fn put_pending(&mut self, code: String, entry: PendingEntry)
        requires
            old(self).wf(),
        ensures
            final(self).wf(),
            final(self).approved@ == old(self).approved@,
            has_code(old(self).pending@, code@) ==> exists|i: int| 0 <= i < old(self).pending@.len()
                && old(self).pending@[i].0@ == code@
                && final(self).pending@ == old(self).pending@.update(i, (code, entry)),
            !has_code(old(self).pending@, code@) ==> exists|i: int| 0 <= i <= old(self).pending@.len()
                && final(self).pending@ == old(self).pending@.insert(i, (code, entry)),
    {
        let (found, i) = self.locate_code(code.as_str());
        let ghost old_p = self.pending@;
        let ghost item = (code, entry);
        if found {
            self.pending.set(i, (code, entry));
            assert(code_keys(self.pending@) =~= code_keys(old_p));
        } else {
            let ghost cv = code@;
            self.pending.insert(i, (code, entry));
            proof {
                assert(code_keys(self.pending@) =~= code_keys(old_p).insert(i as int, cv));
                lemma_sorted_insert(code_keys(old_p), i as int, cv);
            }
        }
    }

    /// Drops the pending requests of `channel`; returns how many there were.
    pub fn remove_channel_pending(&mut self, channel: &str) -> (r: usize)
        requires
            old(self).wf(),
        ensures
            final(self).wf(),
            final(self).approved@ == old(self).approved@,
            final(self).pending@ == pending_off(old(self).pending@, channel@),
            r == pending_on(old(self).pending@, channel@).len(),
    {
        let ghost old_p = self.pending@;
        let ghost pred = off_channel(channel@);
        let mut kept: Vec<(String, PendingEntry)> = Vec::new();
        let mut removed: usize = 0;
        let mut i: usize = 0;
        while i < self.pending.len()
            invariant
                self.pending@ == old_p,
                i <= old_p.len(),
                pred == off_channel(channel@),
                kept@ == old_p.subrange(0, i as int).filter(pred),
                removed + kept@.len() == i,
            decreases old_p.len() - i,
        {
            let ghost prefix = old_p.subrange(0, i as int);
            assert(old_p.subrange(0, i + 1) == prefix.push(old_p[i as int]));
            proof {
                prefix.lemma_filter_push(old_p[i as int], pred);
            }
            if crate::text::str_eq(self.pending[i].1.channel.as_str(), channel) {
                removed = removed + 1;
            } else {
                let e = (self.pending[i].0.clone(), self.pending[i].1.duplicate());
                kept.push(e);
            }
            i = i + 1;
        }
        assert(old_p.subrange(0, old_p.len() as int) == old_p);
        proof {
            lemma_filter_sorted(old_p, pred);
            lemma_pending_split(old_p, channel@);
        }
        self.pending = kept;
        removed
    }

    /// The pending requests, in code order.
    pub fn pending_requests(&self) -> (r: Vec<PendingRequest>)
        ensures
            r@.len() == self.pending@.len(),
            forall|i: int| 0 <= i < r@.len() ==> lists(#[trigger] r@[i], self.pending@[i]),
    {
        let mut out: Vec<PendingRequest> = Vec::new();
        let mut i: usize = 0;
        while i < self.pending.len()
            invariant
                i <= self.pending@.len(),
                out@.len() == i,
                forall|k: int| 0 <= k < i ==> lists(#[trigger] out@[k], self.pending@[k]),
            decreases self.pending@.len() - i,
        {
            let e = &self.pending[i];
            out.push(PendingRequest {
                code: e.0.clone(),
                channel: e.1.channel.clone(),
                sender_id: e.1.sender_id.clone(),
                created_at_ms: e.1.created_at_ms,
                expires_at_ms: e.1.expires_at_ms,
            });
            i = i + 1;
        }
        out
    }
}

} // verus!
