//! The gateway's bookkeeping: its errors, its health snapshot, and the progress
//! updates it forwards to channels.

use vstd::prelude::*;

use crate::agent::turn::{event_view, ProgressEvent, TurnOutcome};
use crate::bus::{InboundMessage, MessageBus, OutboundMessage, ProgressKind, ProgressUpdate};
use crate::channel::contract::{Channel, ChannelError};
use crate::cron::types::RunStatus;

verus! {

/// Why the agent could not process a message.
pub enum AgentError {
    /// The provider failed.
    Provider(String),
    /// Reading or writing the session failed.
    Session(String),
    /// Reading or writing the memory files failed.
    Memory(String),
}

/// The text of an agent error.
pub open spec fn agent_error_text(e: AgentError) -> Seq<char> {
    match e {
        AgentError::Provider(e) => "agent provider 错误: "@ + e@,
        AgentError::Session(e) => "agent session 错误: "@ + e@,
        AgentError::Memory(e) => "agent memory 错误: "@ + e@,
    }
}

impl AgentError {
    /// The error's text.
    pub fn message(&self) -> (r: String)
        ensures
            r@ == agent_error_text(*self),
    {
        let mut s = String::new();
        match self {
            AgentError::Provider(e) => {
                s.append("agent provider 错误: ");
                s.append(e.as_str());
            },
            AgentError::Session(e) => {
                s.append("agent session 错误: ");
                s.append(e.as_str());
            },
            AgentError::Memory(e) => {
                s.append("agent memory 错误: ");
                s.append(e.as_str());
            },
        }
        s
    }
}

/// A gateway error.
pub enum GatewayError {
    /// The agent failed.
    Agent(AgentError),
    /// A channel failed.
    Channel(ChannelError),
    /// A reply was addressed to a channel that is not registered.
    UnknownChannel(String),
}

impl GatewayError {
    /// The error's text.
    pub fn message(&self) -> (r: String)
        ensures
            r@ == match *self {
                GatewayError::Agent(e) => "gateway agent 错误: "@ + agent_error_text(e),
                GatewayError::Channel(e) => "gateway channel 错误: "@ + crate::channel::contract::channel_error_text(e),
                GatewayError::UnknownChannel(name) => "gateway 未注册 channel: "@ + name@,
            },
    {
        let mut s = String::new();
        match self {
            GatewayError::Agent(e) => {
                s.append("gateway agent 错误: ");
                s.append(e.message().as_str());
            },
            GatewayError::Channel(e) => {
                s.append("gateway channel 错误: ");
                s.append(e.message().as_str());
            },
            GatewayError::UnknownChannel(name) => {
                s.append("gateway 未注册 channel: ");
                s.append(name.as_str());
            },
        }
        s
    }
}

/// The gateway's health.
#[derive(PartialEq, Eq, Structural, Clone, Copy, Debug)]
pub struct GatewayHealth {
    pub running: bool,
    /// Registered channels.
    pub channels: usize,
    /// Inbound messages waiting.
    pub pending_inbound: usize,
}

/// The progress update forwarded to the chat of `inbound` for an agent event: the
/// event's kind and text, routed to the message's channel and chat.
pub fn progress_update(inbound: &InboundMessage, event: &ProgressEvent) -> (u: ProgressUpdate)
    ensures
        u.channel == inbound.channel,
        u.chat_id == inbound.chat_id,
        (u.kind, u.content@) == event_view(*event),
{
    let (kind, content) = match event {
        ProgressEvent::TurnStarted { session_key } => (ProgressKind::Started, session_key.clone()),
        ProgressEvent::ContentDelta { text } => (ProgressKind::ContentDelta, text.clone()),
        ProgressEvent::ReasoningDelta { text } => (ProgressKind::ReasoningDelta, text.clone()),
        ProgressEvent::ToolInvoked { name } => (ProgressKind::ToolInvoked, name.clone()),
        ProgressEvent::FinalResponse { content } => (ProgressKind::Final, content.clone()),
    };
    ProgressUpdate::new(inbound.channel.clone(), inbound.chat_id.clone(), kind, content)
}

/// The outcome recorded for a cron job run through the gateway: skipped without an
/// origin session, an error when dispatching failed, else a success.
pub fn gateway_run_status(has_origin: bool, dispatched: bool) -> (r: RunStatus)
    ensures
        r == if !has_origin { RunStatus::Skipped } else if dispatched { RunStatus::Success } else { RunStatus::Error },
{
    if !has_origin {
        RunStatus::Skipped
    } else if dispatched {
        RunStatus::Success
    } else {
        RunStatus::Error
    }
}

/// The agent behind the gateway: runs the turn of an inbound message.
pub trait TurnProcessor {
    /// The outcome of the message's turn, or why it failed.
    fn process(&mut self, inbound: &InboundMessage) -> Result<TurnOutcome, AgentError>;
}

/// The names of the registered channels.
pub open spec fn channel_names<C>(cs: Seq<(String, C)>) -> Seq<Seq<char>> {
    cs.map_values(|c: (String, C)| c.0@)
}

/// The message orchestration: inbound messages go through the agent, their progress
/// and reply are routed to the channel they came from.
pub struct Gateway<A, C> {
    bus: MessageBus,
    agent: A,
    channels: Vec<(String, C)>,
    running: bool,
}

impl<A: TurnProcessor, C: Channel> Gateway<A, C> {
    pub closed spec fn running_view(&self) -> bool { self.running }
    pub closed spec fn inbound_view(&self) -> Seq<InboundMessage> { self.bus.inbound_queue() }
    /// The registered channel names, in registration order.
    pub closed spec fn names_view(&self) -> Seq<Seq<char>> { channel_names(self.channels@) }

    /// A stopped gateway with no channel and nothing queued.
    pub fn new(agent: A) -> (g: Self)
        ensures
            !g.running_view(),
            g.inbound_view().len() == 0,
            g.names_view().len() == 0,
    {
        let g = Gateway { bus: MessageBus::new(), agent, channels: Vec::new(), running: false };
        assert(g.names_view() =~= Seq::<Seq<char>>::empty());
        g
    }

    /// The registered channel named `name`.
    fn find_channel(&self, name: &str) -> (r: Option<usize>)
        ensures
            match r {
                Some(i) => i < self.names_view().len() && self.names_view()[i as int] == name@,
                None => !self.names_view().contains(name@),
            },
    {
        let mut i: usize = 0;
        while i < self.channels.len()
            invariant
                i <= self.channels@.len(),
                forall|k: int| 0 <= k < i ==> #[trigger] self.channels@[k].0@ != name@,
            decreases self.channels@.len() - i,
        {
            if crate::text::str_eq(self.channels[i].0.as_str(), name) {
                return Some(i);
            }
            i = i + 1;
        }
        proof {
            if self.names_view().contains(name@) {
                let k = choose|k: int| 0 <= k < self.names_view().len() && self.names_view()[k] == name@;
                assert(self.channels@[k].0@ == name@);
            }
        }
        None
    }

    /// Adds `channel` under `name`; a channel of the same name is replaced in place.
    pub fn insert_channel(&mut self, name: String, channel: C)
        ensures
            final(self).running_view() == old(self).running_view(),
            final(self).inbound_view() == old(self).inbound_view(),
            final(self).names_view() == (if old(self).names_view().contains(name@) {
                old(self).names_view()
            } else {
                old(self).names_view().push(name@)
            }),
    {
        let ghost n = name@;
        let ghost before = self.channels@;
        match self.find_channel(name.as_str()) {
            Some(i) => {
                let _ = self.channels.remove(i);
                self.channels.insert(i, (name, channel));
                proof {
                    assert(channel_names(self.channels@) =~= channel_names(before));
                    assert(channel_names(before)[i as int] == n);
                    assert(old(self).names_view().contains(n));
                }
            },
            None => {
                self.channels.push((name, channel));
                proof {
                    assert(channel_names(self.channels@) =~= channel_names(before).push(n));
                }
            },
        }
    }

    /// Registers a channel after checking its configuration; a channel of the same
    /// name is replaced.
    pub fn register_channel(&mut self, channel: C) -> (r: Result<(), ChannelError>)
        ensures
            final(self).running_view() == old(self).running_view(),
            final(self).inbound_view() == old(self).inbound_view(),
            r is Err ==> final(self).names_view() == old(self).names_view(),
            r is Ok ==> (exists|n: Seq<char>| #[trigger] final(self).names_view().contains(n)
                && (final(self).names_view() == (if old(self).names_view().contains(n) {
                    old(self).names_view()
                } else {
                    old(self).names_view().push(n)
                }))),
    {
        match channel.validate() {
            Err(e) => Err(e),
            Ok(()) => {
                let name = channel.name();
                let ghost n = name@;
                self.insert_channel(name, channel);
                proof {
                    if !old(self).names_view().contains(n) {
                        assert(self.names_view()[old(self).names_view().len() as int] == n);
                    }
                    assert(self.names_view().contains(n));
                }
                Ok(())
            },
        }
    }

    /// Enters the running state.
    pub fn start(&mut self)
        ensures
            final(self).running_view(),
            final(self).inbound_view() == old(self).inbound_view(),
            final(self).names_view() == old(self).names_view(),
    {
        self.running = true;
    }

    /// Leaves the running state; queued messages stay queued.
    pub fn stop(&mut self)
        ensures
            !final(self).running_view(),
            final(self).inbound_view() == old(self).inbound_view(),
            final(self).names_view() == old(self).names_view(),
    {
        self.running = false;
    }

    /// Queues an inbound message.
    pub fn submit(&mut self, message: InboundMessage)
        ensures
            final(self).inbound_view() == old(self).inbound_view().push(message),
            final(self).running_view() == old(self).running_view(),
            final(self).names_view() == old(self).names_view(),
    {
        self.bus.publish_inbound(message);
    }

    /// The health snapshot.
    pub fn health(&self) -> (h: GatewayHealth)
        ensures
            h.running == self.running_view(),
            h.channels == self.names_view().len(),
            h.pending_inbound == self.inbound_view().len(),
    {
        GatewayHealth { running: self.running, channels: self.channels.len(), pending_inbound: self.bus.inbound_size() }
    }

    /// How many inbound messages wait.
    pub fn pending_inbound(&self) -> (n: usize)
        ensures
            n == self.inbound_view().len(),
    {
        self.bus.inbound_size()
    }

    /// Delivers to the channel named `name`, or fails for an unknown channel.
    fn route(&self, name: &str, outbound: Option<&OutboundMessage>, update: Option<&ProgressUpdate>) -> (r: Result<(), GatewayError>)
        ensures
            !self.names_view().contains(name@) ==> (r matches Err(GatewayError::UnknownChannel(c)) && c@ == name@),
            (r matches Err(GatewayError::UnknownChannel(c)) ==> c@ == name@ && !self.names_view().contains(name@)),
    {
        match self.find_channel(name) {
            None => Err(GatewayError::UnknownChannel(name.to_owned())),
            Some(i) => {
                let res = match (outbound, update) {
                    (Some(o), _) => self.channels[i].1.deliver(o),
                    (None, Some(u)) => self.channels[i].1.deliver_progress(u),
                    (None, None) => Ok(()),
                };
                match res {
                    Ok(()) => Ok(()),
                    Err(e) => Err(GatewayError::Channel(e)),
                }
            },
        }
    }

    /// Processes every queued inbound message in order while running: the agent runs
    /// its turn, each progress event goes to the message's channel, then the reply.
    /// Returns how many were processed; stops at the first failure, the failing
    /// message consumed. A stopped gateway processes nothing.
    pub fn dispatch_pending(&mut self) -> (r: Result<usize, GatewayError>)
        ensures
            final(self).running_view() == old(self).running_view(),
            final(self).names_view() == old(self).names_view(),
            !old(self).running_view() ==> (r matches Ok(n) && n == 0 && final(self).inbound_view() == old(self).inbound_view()),
            old(self).running_view() ==> match r {
                Ok(n) => n == old(self).inbound_view().len() && final(self).inbound_view().len() == 0,
                Err(e) => exists|k: int| 1 <= k <= old(self).inbound_view().len()
                    && final(self).inbound_view() == old(self).inbound_view().skip(k)
                    && (e matches GatewayError::UnknownChannel(c) ==> c@ == old(self).inbound_view()[k - 1].channel@
                        && !old(self).names_view().contains(c@)),
            },
    {
        if !self.running {
            return Ok(0);
        }
        let ghost q = self.bus.inbound_queue();
        let total = self.bus.inbound_size();
        let mut processed: usize = 0;
        assert(q.skip(0) =~= q);
        while self.bus.inbound_size() > 0
            invariant
                old(self).running_view(),
                total == q.len(),
                processed <= q.len(),
                self.bus.inbound_queue() == q.skip(processed as int),
                self.running,
                self.names_view() == old(self).names_view(),
                q == old(self).inbound_view(),
            decreases q.len() - processed,
        {
            let inbound = match self.bus.consume_inbound() {
                Some(m) => m,
                None => { return Ok(processed); },
            };
            proof {
                assert(q.skip(processed as int)[0] == q[processed as int]);
                assert(q.skip(processed as int).drop_first() =~= q.skip(processed + 1));
            }
            assert(self.bus.inbound_queue() == q.skip(processed + 1));
            let outcome = match self.agent.process(&inbound) {
                Ok(o) => o,
                Err(e) => {
                    return Err(GatewayError::Agent(e));
                },
            };
            let mut j: usize = 0;
            while j < outcome.progress.len()
                invariant
                    j <= outcome.progress@.len(),
                    self.names_view() == old(self).names_view(),
                    old(self).running_view(),
                    self.running,
                    processed < q.len(),
                    total == q.len(),
                    q == old(self).inbound_view(),
                    self.bus.inbound_queue() == q.skip(processed + 1),
                    inbound == q[processed as int],
                decreases outcome.progress@.len() - j,
            {
                let update = progress_update(&inbound, &outcome.progress[j]);
                match self.route(inbound.channel.as_str(), None, Some(&update)) {
                    Ok(()) => {},
                    Err(e) => {
                        return Err(e);
                    },
                }
                j = j + 1;
            }
            let outbound = OutboundMessage::reply(&inbound, outcome.final_content);
            match self.route(inbound.channel.as_str(), Some(&outbound), None) {
                Ok(()) => {},
                Err(e) => {
                    return Err(e);
                },
            }
            processed = processed + 1;
        }
        Ok(processed)
    }
}

} // verus!
