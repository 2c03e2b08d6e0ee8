//! What channels report back: configuration and delivery errors, and the streamed
//! events of a turn routed to the connection that started it.

use vstd::prelude::*;

use crate::bus::{OutboundMessage, ProgressUpdate};

verus! {

/// A channel error.
pub enum ChannelError {
    /// The configuration lacks required fields.
    MissingConfig { channel: String, fields: Vec<String> },
    /// Delivering to the platform failed.
    Delivery { channel: String, reason: String },
}

/// The fields joined with `, `.
pub open spec fn joined(fields: Seq<String>) -> Seq<char>
    decreases fields.len(),
{
    if fields.len() == 0 {
        Seq::empty()
    } else if fields.len() == 1 {
        fields[0]@
    } else {
        joined(fields.drop_last()) + ", "@ + fields.last()@
    }
}

/// The text of a channel error.
pub open spec fn channel_error_text(e: ChannelError) -> Seq<char> {
    match e {
        ChannelError::MissingConfig { channel, fields } =>
            "channel '"@ + channel@ + "' 缺少必填配置: "@ + joined(fields@),
        ChannelError::Delivery { channel, reason } =>
            "channel '"@ + channel@ + "' 投递失败: "@ + reason@,
    }
}

impl ChannelError {
    /// The error's text.
    pub fn message(&self) -> (r: String)
        ensures
            r@ == channel_error_text(*self),
    {
        match self {
            ChannelError::MissingConfig { channel, fields } => {
                let mut s = String::new();
                s.append("channel '");
                s.append(channel.as_str());
                s.append("' 缺少必填配置: ");
                let ghost head = s@;
                let mut i: usize = 0;
                while i < fields.len()
                    invariant
                        i <= fields@.len(),
                        s@ == head + joined(fields@.subrange(0, i as int)),
                    decreases fields@.len() - i,
                {
                    if i > 0 {
                        s.append(", ");
                    }
                    s.append(fields[i].as_str());
                    proof {
                        let next = fields@.subrange(0, i + 1);
                        assert(next.drop_last() =~= fields@.subrange(0, i as int));
                        if i == 0 {
                            assert(next.len() == 1);
                        }
                    }
                    i = i + 1;
                }
                assert(fields@.subrange(0, fields@.len() as int) =~= fields@);
                s
            },
            ChannelError::Delivery { channel, reason } => {
                let mut s = String::new();
                s.append("channel '");
                s.append(channel.as_str());
                s.append("' 投递失败: ");
                s.append(reason.as_str());
                s
            },
        }
    }
}

/// A chat platform the gateway delivers to.
pub trait Channel {
    /// The name outbound messages are routed by.
    fn name(&self) -> String;

    /// Checks the configuration (missing fields and the like).
    fn validate(&self) -> Result<(), ChannelError>;

    /// Delivers an outbound message to the platform.
    fn deliver(&self, message: &OutboundMessage) -> Result<(), ChannelError>;

    /// Forwards a progress update of a turn; channels without progress ignore it.
    fn deliver_progress(&self, update: &ProgressUpdate) -> Result<(), ChannelError> {
        Ok(())
    }
}

/// A streamed event of a turn, routed to the connection that started it.
pub enum TurnEvent {
    /// A piece of reply text.
    Delta(String),
    /// A piece of reasoning.
    Reasoning(String),
    /// A tool was called (its name).
    Tool(String),
    /// The final reply.
    Final(String),
    /// The turn failed.
    Error(String),
    /// The turn is over, whatever its outcome.
    Done,
}

} // verus!
