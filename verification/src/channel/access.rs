//! Who may talk to the agent on a channel: `*` admits everyone, then an exact
//! allow-list entry, then a pairing approval; everyone else is refused. Allow-list
//! entries are opaque tokens compared exactly.

use vstd::prelude::*;

use crate::text::str_eq;

verus! {

/// Answers whether a sender not on the allow-list was approved by pairing.
pub trait PairingApprover {
    /// What the approver answers for `sender`.
    spec fn approves(&self, sender: Seq<char>) -> bool;

    /// Whether `sender_id` was approved by pairing.
    fn is_approved(&self, sender_id: &str) -> (r: bool)
        ensures
            r == self.approves(sender_id@);
}

/// An approver that approves nobody (channels without pairing).
pub struct DenyAllPairing;

impl PairingApprover for DenyAllPairing {
    open spec fn approves(&self, sender: Seq<char>) -> bool {
        false
    }

    fn is_approved(&self, sender_id: &str) -> (r: bool) {
        false
    }
}

/// The allow-list of a channel, as configured (`allowFrom`; absent or null is empty).
pub struct ChannelAccessConfig {
    pub allow_from: Vec<String>,
}

/// Whether the allow-list admits `sender`: it holds `*` or `sender` itself.
pub open spec fn listed(allow: Seq<String>, sender: Seq<char>) -> bool {
    exists|i: int| 0 <= i < allow.len() && (allow[i]@ == "*"@ || allow[i]@ == sender)
}

/// A channel's sender policy.
pub struct AccessPolicy {
    allow_from: Vec<String>,
}

impl AccessPolicy {
    pub closed spec fn allow_view(&self) -> Seq<String> {
        self.allow_from@
    }

    /// A policy with this allow-list.
    pub fn new(allow_from: Vec<String>) -> (p: Self)
        ensures
            p.allow_view() == allow_from@,
    {
        AccessPolicy { allow_from }
    }

    /// The policy of a channel's configuration.
    pub fn from_config(config: &ChannelAccessConfig) -> (p: Self)
        ensures
            p.allow_view() == config.allow_from@,
    {
        AccessPolicy { allow_from: config.allow_from.clone() }
    }

    fn listed(&self, sender_id: &str) -> (r: bool)
        ensures
            r == listed(self.allow_view(), sender_id@),
    {
        let mut i: usize = 0;
        while i < self.allow_from.len()
            invariant
                i <= self.allow_from@.len(),
                forall|k: int| 0 <= k < i ==> !(self.allow_from@[k]@ == "*"@ || self.allow_from@[k]@ == sender_id@),
            decreases self.allow_from@.len() - i,
        {
            if str_eq(self.allow_from[i].as_str(), "*") || str_eq(self.allow_from[i].as_str(), sender_id) {
                return true;
            }
            i = i + 1;
        }
        false
    }

    /// Whether `sender_id` may talk: `*` or an exact allow-list entry admits it, else
    /// the pairing approver decides.
    pub fn is_allowed<A: PairingApprover>(&self, sender_id: &str, approver: &A) -> (r: bool)
        ensures
            r == (listed(self.allow_view(), sender_id@) || approver.approves(sender_id@)),
    {
        if self.listed(sender_id) {
            return true;
        }
        approver.is_approved(sender_id)
    }

    /// Whether `sender_id` may talk when no pairing is in use.
    pub fn is_allowed_no_pairing(&self, sender_id: &str) -> (r: bool)
        ensures
            r == listed(self.allow_view(), sender_id@),
    {
        self.is_allowed(sender_id, &DenyAllPairing)
    }
}

} // verus!
