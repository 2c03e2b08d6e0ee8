//! Session-bound delivery: a cron turn is routed back to the session it was
//! created in (channel, chat id and channel metadata).

use vstd::prelude::*;

use crate::bus::InboundMessage;
use crate::cron::types::CronJob;

verus! {

/// A session-bound job lacks its origin channel or chat id.
#[derive(Debug, Clone, PartialEq, Eq)]
pub struct MissingOriginError {
    pub job_id: String,
}

impl MissingOriginError {
    /// The error's text: `cron job <id> is missing origin delivery context`.
    pub fn message(&self) -> (r: String)
        ensures
            r@ == "cron job "@ + self.job_id@ + " is missing origin delivery context"@,
    {
        let mut out = String::new();
        out.append("cron job ");
        out.append(self.job_id.as_str());
        out.append(" is missing origin delivery context");
        out
    }
}

/// Whether the job names a non-empty origin channel and chat id.
pub open spec fn has_origin(job: CronJob) -> bool {
    &&& job.payload.origin_channel matches Some(c) && c@.len() > 0
    &&& job.payload.origin_chat_id matches Some(c) && c@.len() > 0
}

/// The `(channel, chat_id, metadata)` a session-bound job delivers to; the metadata is
/// the origin's JSON object text.
pub fn origin_delivery_context(job: &CronJob) -> (r: Result<(String, String, String), MissingOriginError>)
    ensures
        has_origin(*job) <==> r is Ok,
        match r {
            Ok((channel, chat_id, metadata)) => {
                &&& job.payload.origin_channel == Some(channel)
                &&& job.payload.origin_chat_id == Some(chat_id)
                &&& metadata == job.payload.origin_metadata
            },
            Err(e) => e.job_id == job.id,
        },
{
    let payload = &job.payload;
    match (&payload.origin_channel, &payload.origin_chat_id) {
        (Some(channel), Some(chat_id)) => {
            if !channel.as_str().is_empty() && !chat_id.as_str().is_empty() {
                return Ok((channel.clone(), chat_id.clone(), payload.origin_metadata.clone()));
            }
        },
        _ => {},
    }
    Err(MissingOriginError { job_id: job.id.clone() })
}

/// The inbound message that submits a due job's turn to its origin session: the
/// job's message on the origin channel and chat, keyed by the job's session key when
/// it names a non-empty one.
pub fn cron_submit_message(job: &CronJob) -> (r: Result<InboundMessage, MissingOriginError>)
    ensures
        has_origin(*job) <==> r is Ok,
        match r {
            Ok(m) => {
                &&& job.payload.origin_channel == Some(m.channel)
                &&& job.payload.origin_chat_id == Some(m.chat_id)
                &&& m.content == job.payload.message
                &&& m.sender_id@.len() == 0
                &&& m.media@.len() == 0
                &&& m.metadata@.len() == 0
                &&& m.session_key_override == match job.payload.session_key {
                    Some(k) => if k@.len() > 0 { Some(k) } else { None },
                    None => None,
                }
            },
            Err(e) => e.job_id == job.id,
        },
{
    let (channel, chat_id, _metadata) = match origin_delivery_context(job) {
        Ok(t) => t,
        Err(e) => {
            return Err(e);
        },
    };
    let mut msg = InboundMessage::new(channel, chat_id, job.payload.message.clone());
    match &job.payload.session_key {
        Some(k) => {
            if !k.as_str().is_empty() {
                msg.session_key_override = Some(k.clone());
            }
        },
        None => {},
    }
    Ok(msg)
}

} // verus!
