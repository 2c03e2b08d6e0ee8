//! The sessions with a turn under way, so that scheduled turns can give way to a
//! session that is busy.

use vstd::prelude::*;

use crate::text::str_eq;

verus! {

/// Whether `k` is among the first `n` keys.
pub open spec fn holds_before(s: Seq<String>, n: int, k: Seq<char>) -> bool {
    exists|m: int| 0 <= m < n && m < s.len() && #[trigger] s[m]@ == k
}

/// The set of busy session keys (`channel:chat_id`).
pub struct SessionBusy {
    keys: Vec<String>,
}

impl SessionBusy {
    /// The busy keys.
    pub closed spec fn view_set(&self) -> Set<Seq<char>> {
        Set::new(|k: Seq<char>| exists|i: int| 0 <= i < self.keys@.len() && #[trigger] self.keys@[i]@ == k)
    }

    /// No busy session.
    pub fn new() -> (s: Self)
        ensures
            s.view_set() == Set::<Seq<char>>::empty(),
    {
        let s = SessionBusy { keys: Vec::new() };
        assert(s.view_set() =~= Set::<Seq<char>>::empty());
        s
    }

    fn find(&self, key: &str) -> (r: Option<usize>)
        ensures
            match r {
                Some(i) => i < self.keys@.len() && self.keys@[i as int]@ == key@,
                None => !self.view_set().contains(key@),
            },
    {
        let mut i: usize = 0;
        while i < self.keys.len()
            invariant
                i <= self.keys@.len(),
                forall|k: int| 0 <= k < i ==> self.keys@[k]@ != key@,
            decreases self.keys@.len() - i,
        {
            if str_eq(self.keys[i].as_str(), key) {
                return Some(i);
            }
            i = i + 1;
        }
        None
    }

    /// Marks a session busy (its turn started).
    pub fn mark(&mut self, session_key: &str)
        ensures
            final(self).view_set() == old(self).view_set().insert(session_key@),
    {
        match self.find(session_key) {
            Some(_) => {
                assert(self.view_set().insert(session_key@) =~= self.view_set());
            },
            None => {
                let ghost old_keys = self.keys@;
                self.keys.push(session_key.to_owned());
                proof {
                    assert forall|k: Seq<char>| self.view_set().contains(k) == old(self).view_set().insert(session_key@).contains(k) by {
                        if self.view_set().contains(k) {
                            let i = choose|i: int| 0 <= i < self.keys@.len() && #[trigger] self.keys@[i]@ == k;
                            if i < old_keys.len() {
                                assert(old_keys[i]@ == k);
                            }
                        }
                        if old(self).view_set().contains(k) {
                            let i = choose|i: int| 0 <= i < old_keys.len() && #[trigger] old_keys[i]@ == k;
                            assert(self.keys@[i]@ == k);
                        }
                        if k == session_key@ {
                            assert(self.keys@[old_keys.len() as int]@ == k);
                        }
                    }
                    assert(self.view_set() =~= old(self).view_set().insert(session_key@));
                }
            },
        }
    }

    /// Marks a session idle again (its turn ended).
    pub fn unmark(&mut self, session_key: &str)
        ensures
            final(self).view_set() == old(self).view_set().remove(session_key@),
    {
        let ghost old_keys = self.keys@;
        let mut kept: Vec<String> = Vec::new();
        let mut i: usize = 0;
        while i < self.keys.len()
            invariant
                i <= old_keys.len(),
                self.keys@ == old_keys,
                forall|k: int| 0 <= k < kept@.len() ==> kept@[k]@ != session_key@,
                forall|k: Seq<char>| #[trigger] holds_before(kept@, kept@.len() as int, k)
                    == (k != session_key@ && holds_before(old_keys, i as int, k)),
            decreases old_keys.len() - i,
        {
            if !str_eq(self.keys[i].as_str(), session_key) {
                let ghost before = kept@;
                kept.push(self.keys[i].clone());
                proof {
                    assert forall|k: Seq<char>| #[trigger] holds_before(kept@, kept@.len() as int, k)
                        == (k != session_key@ && holds_before(old_keys, i + 1, k)) by {
                        if holds_before(kept@, kept@.len() as int, k) {
                            let m = choose|m: int| 0 <= m < kept@.len() && m < kept@.len() && #[trigger] kept@[m]@ == k;
                            if m < before.len() {
                                assert(before[m]@ == k);
                                assert(holds_before(before, before.len() as int, k));
                            } else {
                                assert(old_keys[i as int]@ == k);
                            }
                        }
                        if k != session_key@ && holds_before(old_keys, i + 1, k) {
                            let m = choose|m: int| 0 <= m < i + 1 && m < old_keys.len() && #[trigger] old_keys[m]@ == k;
                            if m < i {
                                assert(holds_before(old_keys, i as int, k));
                                assert(holds_before(before, before.len() as int, k));
                                let n = choose|n: int| 0 <= n < before.len() && n < before.len() && #[trigger] before[n]@ == k;
                                assert(kept@[n]@ == k);
                            } else {
                                assert(kept@[before.len() as int]@ == k);
                            }
                        }
                    }
                }
            } else {
                proof {
                    assert forall|k: Seq<char>| #[trigger] holds_before(kept@, kept@.len() as int, k)
                        == (k != session_key@ && holds_before(old_keys, i + 1, k)) by {
                        if k != session_key@ && holds_before(old_keys, i + 1, k) {
                            let m = choose|m: int| 0 <= m < i + 1 && m < old_keys.len() && #[trigger] old_keys[m]@ == k;
                            assert(m < i);
                            assert(holds_before(old_keys, i as int, k));
                        }
                        if holds_before(kept@, kept@.len() as int, k) {
                            assert(holds_before(old_keys, i as int, k));
                        }
                    }
                }
            }
            i = i + 1;
        }
        self.keys = kept;
        proof {
            assert forall|k: Seq<char>| self.view_set().contains(k) == old(self).view_set().remove(session_key@).contains(k) by {
                assert(self.view_set().contains(k) == holds_before(self.keys@, self.keys@.len() as int, k));
                assert(old(self).view_set().contains(k) == holds_before(old_keys, old_keys.len() as int, k));
            }
            assert(self.view_set() =~= old(self).view_set().remove(session_key@));
        }
    }

    /// Whether a session is busy.
    pub fn is_busy(&self, session_key: &str) -> (r: bool)
        ensures
            r == self.view_set().contains(session_key@),
    {
        self.find(session_key).is_some()
    }
}

/// Marking a session busy and then idle again leaves the busy set as it was (for
/// a session that was not busy), and neither touches any other session.
pub proof fn law_mark_then_unmark(busy: Set<Seq<char>>, k: Seq<char>, other: Seq<char>)
    requires
        !busy.contains(k),
        other != k,
    ensures
        busy.insert(k).contains(k),
        busy.insert(k).remove(k) == busy,
        busy.insert(k).contains(other) == busy.contains(other),
        busy.remove(k).contains(other) == busy.contains(other),
{
    assert(busy.insert(k).remove(k) =~= busy);
}

} // verus!
