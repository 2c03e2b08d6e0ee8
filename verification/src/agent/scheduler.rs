//! Per-session scheduling of inbound messages: one turn at a time per session,
//! later messages of a busy session wait in its queue (up to a capacity, beyond
//! which they are dropped), `/stop` cancels a session's turn and clears its queue,
//! and an idle wait is a heartbeat. The caller runs the turns and the timer.

use vstd::prelude::*;

use crate::bus::{opt_view, session_key_of, InboundMessage};
use crate::text::{chars_of, eq_str, trim, trim_chars};

verus! {

/// The command that cancels a session's work.
pub const STOP_COMMAND: &'static str = "/stop";

/// The scheduler's settings.
pub struct SchedulerConfig {
    /// How long an idle wait lasts before a heartbeat, in milliseconds.
    pub consume_timeout_ms: u64,
    /// How many messages a busy session may have waiting.
    pub pending_capacity: usize,
}

impl Default for SchedulerConfig {
    /// One second between heartbeats, 32 waiting messages per session.
    fn default() -> (c: Self)
        ensures
            c.consume_timeout_ms == 1000,
            c.pending_capacity == 32,
    {
        SchedulerConfig { consume_timeout_ms: 1000, pending_capacity: 32 }
    }
}

/// What the caller does after the scheduler saw an event.
pub enum SchedulerAction {
    /// The wait timed out: run the heartbeat.
    Heartbeat,
    /// Cancel the session's running turn, if any.
    Cancel { session_key: String },
    /// The message waits in the session's queue.
    Queued { session_key: String },
    /// The session's queue is full: the message is dropped.
    Dropped { session_key: String },
    /// Start a turn for the message.
    Dispatch { session_key: String, message: InboundMessage },
}

/// An active session and its waiting messages.
struct SessionSlot {
    key: String,
    pending: Vec<InboundMessage>,
}

/// The session key of a message.
pub open spec fn key_of(m: InboundMessage) -> Seq<char> {
    session_key_of(m.channel@, m.chat_id@, opt_view(m.session_key_override))
}

/// Whether a message is the stop command.
pub open spec fn is_stop(m: InboundMessage) -> bool {
    trim(m.content@) == STOP_COMMAND@
}

/// No two slots belong to the same session.
spec fn keys_unique(s: Seq<SessionSlot>) -> bool {
    forall|i: int, j: int| 0 <= i < j < s.len() ==> #[trigger] s[i].key@ != #[trigger] s[j].key@
}

/// Whether some slot belongs to session `k`.
spec fn has_slot(s: Seq<SessionSlot>, k: Seq<char>) -> bool {
    exists|i: int| 0 <= i < s.len() && #[trigger] s[i].key@ == k
}

/// The slot of session `k`.
spec fn slot_of(s: Seq<SessionSlot>, k: Seq<char>) -> int {
    choose|i: int| 0 <= i < s.len() && #[trigger] s[i].key@ == k
}

/// The active sessions and their queues.
spec fn queues_of(s: Seq<SessionSlot>) -> Map<Seq<char>, Seq<InboundMessage>> {
    Map::new(|k: Seq<char>| has_slot(s, k), |k: Seq<char>| s[slot_of(s, k)].pending@)
}

proof fn lemma_queue_at(s: Seq<SessionSlot>, i: int)
    requires
        keys_unique(s),
        0 <= i < s.len(),
    ensures
        queues_of(s).contains_key(s[i].key@),
        queues_of(s)[s[i].key@] == s[i].pending@,
{
    let k = s[i].key@;
    assert(has_slot(s, k));
    let j = slot_of(s, k);
    if j != i {
        if j < i {
            assert(s[j].key@ != s[i].key@);
        } else {
            assert(s[i].key@ != s[j].key@);
        }
    }
}

/// Replacing a slot's queue replaces that session's queue.
proof fn lemma_update(s: Seq<SessionSlot>, i: int, slot: SessionSlot)
    requires
        keys_unique(s),
        0 <= i < s.len(),
        slot.key@ == s[i].key@,
    ensures
        keys_unique(s.update(i, slot)),
        queues_of(s.update(i, slot)) == queues_of(s).insert(slot.key@, slot.pending@),
{
    let t = s.update(i, slot);
    assert(keys_unique(t)) by {
        assert forall|a: int, b: int| 0 <= a < b < t.len() implies #[trigger] t[a].key@ != #[trigger] t[b].key@ by {
            assert(s[a].key@ != s[b].key@);
        }
    }
    let m = queues_of(s).insert(slot.key@, slot.pending@);
    assert forall|k: Seq<char>| #[trigger] queues_of(t).contains_key(k) <==> m.contains_key(k) by {
        if queues_of(t).contains_key(k) {
            let j = choose|j: int| 0 <= j < t.len() && #[trigger] t[j].key@ == k;
            if j != i {
                assert(s[j].key@ == k);
            }
        }
        if m.contains_key(k) && k != slot.key@ {
            let j = choose|j: int| 0 <= j < s.len() && #[trigger] s[j].key@ == k;
            assert(t[j].key@ == k);
        }
        if k == slot.key@ {
            assert(t[i].key@ == k);
        }
    }
    assert forall|k: Seq<char>| #[trigger] queues_of(t).contains_key(k) implies queues_of(t)[k] == m[k] by {
        let j = choose|j: int| 0 <= j < t.len() && #[trigger] t[j].key@ == k;
        lemma_queue_at(t, j);
        if j != i {
            assert(s[j].key@ == k);
            lemma_queue_at(s, j);
        }
    }
    assert(queues_of(t) =~= m);
}

/// Dropping a slot drops that session.
proof fn lemma_remove(s: Seq<SessionSlot>, i: int)
    requires
        keys_unique(s),
        0 <= i < s.len(),
    ensures
        keys_unique(s.remove(i)),
        queues_of(s.remove(i)) == queues_of(s).remove(s[i].key@),
{
    let t = s.remove(i);
    let k0 = s[i].key@;
    assert(keys_unique(t)) by {
        assert forall|a: int, b: int| 0 <= a < b < t.len() implies #[trigger] t[a].key@ != #[trigger] t[b].key@ by {
            let a2 = if a < i { a } else { a + 1 };
            let b2 = if b < i { b } else { b + 1 };
            assert(t[a] == s[a2]);
            assert(t[b] == s[b2]);
            assert(s[a2].key@ != s[b2].key@);
        }
    }
    let m = queues_of(s).remove(k0);
    assert forall|k: Seq<char>| #[trigger] queues_of(t).contains_key(k) <==> m.contains_key(k) by {
        if queues_of(t).contains_key(k) {
            let j = choose|j: int| 0 <= j < t.len() && #[trigger] t[j].key@ == k;
            let j2 = if j < i { j } else { j + 1 };
            assert(t[j] == s[j2]);
            assert(s[j2].key@ == k);
            if k == k0 {
                if j2 < i {
                    assert(s[j2].key@ != s[i].key@);
                } else {
                    assert(s[i].key@ != s[j2].key@);
                }
            }
        }
        if m.contains_key(k) {
            let j = choose|j: int| 0 <= j < s.len() && #[trigger] s[j].key@ == k;
            assert(j != i);
            let j2 = if j < i { j } else { j - 1 };
            assert(t[j2] == s[j]);
        }
    }
    assert forall|k: Seq<char>| #[trigger] queues_of(t).contains_key(k) implies queues_of(t)[k] == m[k] by {
        let j = choose|j: int| 0 <= j < t.len() && #[trigger] t[j].key@ == k;
        lemma_queue_at(t, j);
        let j2 = if j < i { j } else { j + 1 };
        assert(t[j] == s[j2]);
        lemma_queue_at(s, j2);
    }
    assert(queues_of(t) =~= m);
}

/// Adding a slot for a new session adds that session.
proof fn lemma_push(s: Seq<SessionSlot>, slot: SessionSlot)
    requires
        keys_unique(s),
        !has_slot(s, slot.key@),
    ensures
        keys_unique(s.push(slot)),
        queues_of(s.push(slot)) == queues_of(s).insert(slot.key@, slot.pending@),
{
    let t = s.push(slot);
    assert(keys_unique(t)) by {
        assert forall|a: int, b: int| 0 <= a < b < t.len() implies #[trigger] t[a].key@ != #[trigger] t[b].key@ by {
            if b == s.len() {
                assert(t[a] == s[a]);
            } else {
                assert(s[a].key@ != s[b].key@);
            }
        }
    }
    let m = queues_of(s).insert(slot.key@, slot.pending@);
    assert forall|k: Seq<char>| #[trigger] queues_of(t).contains_key(k) <==> m.contains_key(k) by {
        if queues_of(t).contains_key(k) {
            let j = choose|j: int| 0 <= j < t.len() && #[trigger] t[j].key@ == k;
            if j < s.len() {
                assert(t[j] == s[j]);
            }
        }
        if m.contains_key(k) && k != slot.key@ {
            let j = choose|j: int| 0 <= j < s.len() && #[trigger] s[j].key@ == k;
            assert(t[j] == s[j]);
        }
        if k == slot.key@ {
            assert(t[s.len() as int].key@ == k);
        }
    }
    assert forall|k: Seq<char>| #[trigger] queues_of(t).contains_key(k) implies queues_of(t)[k] == m[k] by {
        let j = choose|j: int| 0 <= j < t.len() && #[trigger] t[j].key@ == k;
        lemma_queue_at(t, j);
        if j < s.len() {
            assert(t[j] == s[j]);
            lemma_queue_at(s, j);
        }
    }
    assert(queues_of(t) =~= m);
}

/// The sessions with a running turn and the messages waiting for each.
pub struct SessionScheduler {
    slots: Vec<SessionSlot>,
    capacity: usize,
}

impl SessionScheduler {
    /// The active sessions, each with its waiting messages in arrival order.
    pub closed spec fn queues(&self) -> Map<Seq<char>, Seq<InboundMessage>> {
        queues_of(self.slots@)
    }

    /// How many messages a busy session may have waiting.
    pub closed spec fn capacity(&self) -> nat {
        self.capacity as nat
    }

    /// Each session once; no queue beyond the capacity.
    pub closed spec fn wf(&self) -> bool {
        &&& keys_unique(self.slots@)
        &&& forall|i: int| 0 <= i < self.slots@.len() ==> (#[trigger] self.slots@[i]).pending@.len() <= self.capacity
    }

    /// A scheduler with no active session.
    pub fn new(config: &SchedulerConfig) -> (s: Self)
        ensures
            s.wf(),
            s.queues() == Map::<Seq<char>, Seq<InboundMessage>>::empty(),
            s.capacity() == config.pending_capacity,
    {
        let s = SessionScheduler { slots: Vec::new(), capacity: config.pending_capacity };
        assert(s.queues() =~= Map::<Seq<char>, Seq<InboundMessage>>::empty());
        s
    }

    /// The slot of session `key`.
    fn find(&self, key: &str) -> (r: Option<usize>)
        requires
            self.wf(),
        ensures
            match r {
                Some(i) => i < self.slots@.len() && self.slots@[i as int].key@ == key@,
                None => !has_slot(self.slots@, key@),
            },
    {
        let mut i: usize = 0;
        while i < self.slots.len()
            invariant
                i <= self.slots@.len(),
                forall|j: int| 0 <= j < i ==> #[trigger] self.slots@[j].key@ != key@,
            decreases self.slots@.len() - i,
        {
            if crate::text::str_eq(self.slots[i].key.as_str(), key) {
                return Some(i);
            }
            i = i + 1;
        }
        None
    }

    /// Whether session `key` has a running turn.
    pub fn is_active(&self, key: &str) -> (r: bool)
        requires
            self.wf(),
        ensures
            r == self.queues().contains_key(key@),
    {
        match self.find(key) {
            Some(i) => {
                proof {
                    lemma_queue_at(self.slots@, i as int);
                }
                true
            },
            None => false,
        }
    }

    /// How many messages of session `key` are waiting.
    pub fn pending_len(&self, key: &str) -> (r: usize)
        requires
            self.wf(),
        ensures
            r == (if self.queues().contains_key(key@) { self.queues()[key@].len() } else { 0 }),
    {
        match self.find(key) {
            Some(i) => {
                proof {
                    lemma_queue_at(self.slots@, i as int);
                }
                self.slots[i].pending.len()
            },
            None => 0,
        }
    }

    /// The idle wait ended without a message.
    pub fn on_idle(&self) -> (r: SchedulerAction)
        ensures
            r is Heartbeat,
    {
        SchedulerAction::Heartbeat
    }

    /// Takes in a message: `/stop` ends the session (its running turn is to be
    /// cancelled, its queue cleared); a message of a busy session waits in its queue
    /// while there is room and is dropped otherwise; a message of an idle session
    /// starts a turn.
    pub fn on_message(&mut self, msg: InboundMessage) -> (r: SchedulerAction)
        requires
            old(self).wf(),
        ensures
            final(self).wf(),
            final(self).capacity() == old(self).capacity(),
            ({
                let k = key_of(msg);
                let q = old(self).queues();
                if is_stop(msg) {
                    &&& r matches SchedulerAction::Cancel { session_key } && session_key@ == k
                    &&& final(self).queues() == q.remove(k)
                } else if q.contains_key(k) {
                    if q[k].len() < old(self).capacity() {
                        &&& r matches SchedulerAction::Queued { session_key } && session_key@ == k
                        &&& final(self).queues() == q.insert(k, q[k].push(msg))
                    } else {
                        &&& r matches SchedulerAction::Dropped { session_key } && session_key@ == k
                        &&& final(self).queues() == q
                    }
                } else {
                    &&& r matches SchedulerAction::Dispatch { session_key, message } && session_key@ == k && message == msg
                    &&& final(self).queues() == q.insert(k, Seq::empty())
                }
            }),
    {
        let key = msg.session_key();
        let content = trim_chars(&chars_of(msg.content.as_str()));
        if eq_str(&content, STOP_COMMAND) {
            match self.find(key.as_str()) {
                Some(i) => {
                    proof {
                        lemma_remove(self.slots@, i as int);
                    }
                    let ghost before = self.slots@;
                    let _ = self.slots.remove(i);
                    assert(self.slots@ == before.remove(i as int));
                    proof {
                        assert forall|j: int| 0 <= j < self.slots@.len() implies (#[trigger] self.slots@[j]).pending@.len() <= self.capacity by {
                            let j2 = if j < i { j } else { j + 1 };
                            assert(self.slots@[j] == before[j2]);
                        }
                    }
                },
                None => {
                    assert(self.queues() =~= old(self).queues().remove(key@));
                },
            }
            return SchedulerAction::Cancel { session_key: key };
        }
        match self.find(key.as_str()) {
            Some(i) => {
                proof {
                    lemma_queue_at(self.slots@, i as int);
                }
                if self.slots[i].pending.len() < self.capacity {
                    let ghost before = self.slots@;
                    let mut slot = self.slots.remove(i);
                    slot.pending.push(msg);
                    self.slots.insert(i, slot);
                    proof {
                        assert(self.slots@ =~= before.update(i as int, slot));
                        lemma_update(before, i as int, slot);
                        assert forall|j: int| 0 <= j < self.slots@.len() implies (#[trigger] self.slots@[j]).pending@.len() <= self.capacity by {
                            if j != i {
                                assert(self.slots@[j] == before[j]);
                            }
                        }
                    }
                    SchedulerAction::Queued { session_key: key }
                } else {
                    SchedulerAction::Dropped { session_key: key }
                }
            },
            None => {
                let slot = SessionSlot { key: key.clone(), pending: Vec::new() };
                let ghost before = self.slots@;
                proof {
                    lemma_push(before, slot);
                }
                self.slots.push(slot);
                proof {
                    assert forall|j: int| 0 <= j < self.slots@.len() implies (#[trigger] self.slots@[j]).pending@.len() <= self.capacity by {
                        if j < before.len() {
                            assert(self.slots@[j] == before[j]);
                        }
                    }
                }
                SchedulerAction::Dispatch { session_key: key, message: msg }
            },
        }
    }

    /// A turn of session `key` ended: the next waiting message of the session, in
    /// arrival order, to run next; when none waits the session becomes idle.
    pub fn on_turn_finished(&mut self, key: &str) -> (r: Option<InboundMessage>)
        requires
            old(self).wf(),
        ensures
            final(self).wf(),
            final(self).capacity() == old(self).capacity(),
            ({
                let q = old(self).queues();
                if !q.contains_key(key@) {
                    r is None && final(self).queues() == q
                } else if q[key@].len() == 0 {
                    r is None && final(self).queues() == q.remove(key@)
                } else {
                    r == Some(q[key@][0]) && final(self).queues() == q.insert(key@, q[key@].drop_first())
                }
            }),
    {
        match self.find(key) {
            None => None,
            Some(i) => {
                proof {
                    lemma_queue_at(self.slots@, i as int);
                }
                let ghost before = self.slots@;
                if self.slots[i].pending.len() == 0 {
                    proof {
                        lemma_remove(before, i as int);
                    }
                    let _ = self.slots.remove(i);
                    proof {
                        assert forall|j: int| 0 <= j < self.slots@.len() implies (#[trigger] self.slots@[j]).pending@.len() <= self.capacity by {
                            let j2 = if j < i { j } else { j + 1 };
                            assert(self.slots@[j] == before[j2]);
                        }
                    }
                    None
                } else {
                    let mut slot = self.slots.remove(i);
                    let next = slot.pending.remove(0);
                    self.slots.insert(i, slot);
                    proof {
                        assert(slot.pending@ =~= before[i as int].pending@.drop_first());
                        assert(self.slots@ =~= before.update(i as int, slot));
                        lemma_update(before, i as int, slot);
                        assert forall|j: int| 0 <= j < self.slots@.len() implies (#[trigger] self.slots@[j]).pending@.len() <= self.capacity by {
                            if j != i {
                                assert(self.slots@[j] == before[j]);
                            }
                        }
                    }
                    Some(next)
                }
            },
        }
    }
}

/// No session ever has more messages waiting than the capacity.
pub proof fn law_queues_within_capacity(s: &SessionScheduler, k: Seq<char>)
    requires
        s.wf(),
        s.queues().contains_key(k),
    ensures
        s.queues()[k].len() <= s.capacity(),
{
    let i = choose|i: int| 0 <= i < s.slots@.len() && #[trigger] s.slots@[i].key@ == k;
    lemma_queue_at(s.slots@, i);
}

/// A session's waiting messages run in the order they arrived: a message queued
/// behind `waiting` is handed out only after all of them, and then first.
pub proof fn law_queue_is_fifo(waiting: Seq<InboundMessage>, m: InboundMessage)
    ensures
        waiting.push(m).len() == waiting.len() + 1,
        forall|j: int| 0 <= j < waiting.len() ==> waiting.push(m)[j] == waiting[j],
        waiting.push(m).skip(waiting.len() as int)[0] == m,
{
}

} // verus!
