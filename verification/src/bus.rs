//! Message contract between channels and the agent: inbound and outbound
//! messages, the in-memory message bus and transport-neutral progress updates.

use vstd::prelude::*;

use crate::text::{push_chars, string_from};

verus! {

/// A message received from a channel.
///
/// `metadata` holds the channel-specific entries as `(key, JSON text of the value)`
/// pairs, in insertion order.
pub struct InboundMessage {
    pub channel: String,
    pub sender_id: String,
    pub chat_id: String,
    pub content: String,
    pub media: Vec<String>,
    pub metadata: Vec<(String, String)>,
    pub session_key_override: Option<String>,
}

/// The session key of a message: the override when present, else `channel:chat_id`.
pub open spec fn session_key_of(
    channel: Seq<char>,
    chat_id: Seq<char>,
    session_key_override: Option<Seq<char>>,
) -> Seq<char> {
    match session_key_override {
        Some(k) => k,
        None => channel + seq![':'] + chat_id,
    }
}

/// View of an optional string.
pub open spec fn opt_view(o: Option<String>) -> Option<Seq<char>> {
    match o {
        Some(s) => Some(s@),
        None => None,
    }
}

/// A copy of an optional string.
pub fn clone_opt(o: &Option<String>) -> (r: Option<String>)
    ensures
        r == *o,
{
    match o {
        Some(s) => Some(s.clone()),
        None => None,
    }
}

impl InboundMessage {
    /// A minimal inbound message: no sender, media, metadata or override.
    pub fn new(channel: String, chat_id: String, content: String) -> (m: Self)
        ensures
            m.channel == channel,
            m.chat_id == chat_id,
            m.content == content,
            m.sender_id@ == Seq::<char>::empty(),
            m.media@.len() == 0,
            m.metadata@.len() == 0,
            m.session_key_override is None,
    {
        InboundMessage {
            channel,
            sender_id: String::new(),
            chat_id,
            content,
            media: Vec::new(),
            metadata: Vec::new(),
            session_key_override: None,
        }
    }

    /// The key that identifies the conversation: the override, else `channel:chat_id`.
    pub fn session_key(&self) -> (k: String)
        ensures
            k@ == session_key_of(
                self.channel@,
                self.chat_id@,
                opt_view(self.session_key_override),
            ),
    {
        match &self.session_key_override {
            Some(k) => k.clone(),
            None => {
                let mut out: Vec<char> = crate::text::chars_of(self.channel.as_str());
                out.push(':');
                let chat = crate::text::chars_of(self.chat_id.as_str());
                push_chars(&mut out, &chat);
                string_from(&out)
            },
        }
    }
}

/// A message to deliver to a channel.
pub struct OutboundMessage {
    pub channel: String,
    pub chat_id: String,
    pub content: String,
    pub reply_to: Option<String>,
    pub media: Vec<String>,
    pub metadata: Vec<(String, String)>,
}

impl OutboundMessage {
    /// A minimal outbound message.
    pub fn new(channel: String, chat_id: String, content: String) -> (m: Self)
        ensures
            m.channel == channel,
            m.chat_id == chat_id,
            m.content == content,
            m.reply_to is None,
            m.media@.len() == 0,
            m.metadata@.len() == 0,
    {
        OutboundMessage {
            channel,
            chat_id,
            content,
            reply_to: None,
            media: Vec::new(),
            metadata: Vec::new(),
        }
    }

    /// A reply that goes back to the channel and chat the inbound message came from.
    pub fn reply(inbound: &InboundMessage, content: String) -> (m: Self)
        ensures
            m.channel@ == inbound.channel@,
            m.chat_id@ == inbound.chat_id@,
            m.content == content,
            m.reply_to is None,
            m.media@.len() == 0,
            m.metadata@.len() == 0,
    {
        OutboundMessage::new(inbound.channel.clone(), inbound.chat_id.clone(), content)
    }
}

/// Kind of a progress update forwarded to a channel.
#[derive(PartialEq, Eq, Structural, Clone, Copy, Debug)]
pub enum ProgressKind {
    Started,
    ContentDelta,
    ReasoningDelta,
    ToolInvoked,
    Final,
}

/// A runtime progress update for one chat.
pub struct ProgressUpdate {
    pub channel: String,
    pub chat_id: String,
    pub kind: ProgressKind,
    pub content: String,
}

impl ProgressUpdate {
    /// A progress update with the given routing, kind and content.
    pub fn new(channel: String, chat_id: String, kind: ProgressKind, content: String) -> (u: Self)
        ensures
            u.channel == channel,
            u.chat_id == chat_id,
            u.kind == kind,
            u.content == content,
    {
        ProgressUpdate { channel, chat_id, kind, content }
    }
}

/// In-memory message bus: a FIFO queue of inbound and one of outbound messages.
pub struct MessageBus {
    inbound: Vec<InboundMessage>,
    outbound: Vec<OutboundMessage>,
}

impl MessageBus {
    /// The inbound messages waiting, oldest first.
    pub closed spec fn inbound_queue(&self) -> Seq<InboundMessage> {
        self.inbound@
    }

    /// The outbound messages waiting, oldest first.
    pub closed spec fn outbound_queue(&self) -> Seq<OutboundMessage> {
        self.outbound@
    }

    /// An empty bus.
    pub fn new() -> (b: Self)
        ensures
            b.inbound_queue().len() == 0,
            b.outbound_queue().len() == 0,
    {
        MessageBus { inbound: Vec::new(), outbound: Vec::new() }
    }

    /// Queues an inbound message.
    pub fn publish_inbound(&mut self, message: InboundMessage)
        ensures
            final(self).inbound_queue() == old(self).inbound_queue().push(message),
            final(self).outbound_queue() == old(self).outbound_queue(),
    {
        self.inbound.push(message);
    }

    /// Takes the oldest inbound message, if any.
    pub fn consume_inbound(&mut self) -> (m: Option<InboundMessage>)
        ensures
            old(self).inbound_queue().len() == 0 ==> m is None && final(self).inbound_queue()
                == old(self).inbound_queue(),
            old(self).inbound_queue().len() > 0 ==> m == Some(old(self).inbound_queue()[0])
                && final(self).inbound_queue() == old(self).inbound_queue().drop_first(),
            final(self).outbound_queue() == old(self).outbound_queue(),
    {
        if self.inbound.len() == 0 {
            None
        } else {
            let m = self.inbound.remove(0);
            assert(self.inbound@ =~= old(self).inbound@.drop_first());
            Some(m)
        }
    }

    /// Queues an outbound message.
    pub fn publish_outbound(&mut self, message: OutboundMessage)
        ensures
            final(self).outbound_queue() == old(self).outbound_queue().push(message),
            final(self).inbound_queue() == old(self).inbound_queue(),
    {
        self.outbound.push(message);
    }

    /// Takes the oldest outbound message, if any.
    pub fn consume_outbound(&mut self) -> (m: Option<OutboundMessage>)
        ensures
            old(self).outbound_queue().len() == 0 ==> m is None && final(self).outbound_queue()
                == old(self).outbound_queue(),
            old(self).outbound_queue().len() > 0 ==> m == Some(old(self).outbound_queue()[0])
                && final(self).outbound_queue() == old(self).outbound_queue().drop_first(),
            final(self).inbound_queue() == old(self).inbound_queue(),
    {
        if self.outbound.len() == 0 {
            None
        } else {
            let m = self.outbound.remove(0);
            assert(self.outbound@ =~= old(self).outbound@.drop_first());
            Some(m)
        }
    }

    /// Number of inbound messages waiting.
    pub fn inbound_size(&self) -> (n: usize)
        ensures
            n == self.inbound_queue().len(),
    {
        self.inbound.len()
    }

    /// Number of outbound messages waiting.
    pub fn outbound_size(&self) -> (n: usize)
        ensures
            n == self.outbound_queue().len(),
    {
        self.outbound.len()
    }
}

} // verus!

verus! {

/// Errors of the asynchronous message queue.
#[derive(PartialEq, Eq, Structural, Clone, Copy, Debug)]
pub enum AsyncBusError {
    /// The consuming side has gone.
    ReceiverClosed,
    /// The queue is full (the message was dropped).
    Full,
}

impl AsyncBusError {
    /// The error's text.
    pub fn message(&self) -> (r: String)
        ensures
            r@ == match *self {
                AsyncBusError::ReceiverClosed => "\u{5f02}\u{6b65}\u{603b}\u{7ebf}\u{63a5}\u{6536}\u{7aef}\u{5df2}\u{5173}\u{95ed}"@,
                AsyncBusError::Full => "\u{5f02}\u{6b65}\u{603b}\u{7ebf}\u{961f}\u{5217}\u{5df2}\u{6ee1}"@,
            },
    {
        match self {
            AsyncBusError::ReceiverClosed => "\u{5f02}\u{6b65}\u{603b}\u{7ebf}\u{63a5}\u{6536}\u{7aef}\u{5df2}\u{5173}\u{95ed}".to_owned(),
            AsyncBusError::Full => "\u{5f02}\u{6b65}\u{603b}\u{7ebf}\u{961f}\u{5217}\u{5df2}\u{6ee1}".to_owned(),
        }
    }
}

/// The bus delivers in publication order: of two messages published one after the
/// other onto an empty queue, consumption yields the first, then the second.
pub proof fn law_bus_fifo(q: Seq<InboundMessage>, a: InboundMessage, b: InboundMessage)
    requires
        q.len() == 0,
    ensures
        q.push(a).push(b).len() > 0,
        q.push(a).push(b)[0] == a,
        q.push(a).push(b).drop_first().len() > 0,
        q.push(a).push(b).drop_first()[0] == b,
        q.push(a).push(b).drop_first().drop_first().len() == 0,
{
}

} // verus!
