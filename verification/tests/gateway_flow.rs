use std::cell::RefCell;
use std::rc::Rc;

use lure::agent::turn::{ProgressEvent, TurnOutcome};
use lure::bus::{InboundMessage, OutboundMessage, ProgressKind, ProgressUpdate};
use lure::channel::contract::{Channel, ChannelError};
use lure::command::builtin::pending_output;
use lure::command::router::CommandContext;
use lure::gateway::{AgentError, Gateway, GatewayError, TurnProcessor};

/// A channel that records what it was given.
struct RecordingChannel {
    name: String,
    missing: Vec<String>,
    delivered: Rc<RefCell<Vec<String>>>,
    progress: Rc<RefCell<Vec<ProgressKind>>>,
}

impl RecordingChannel {
    fn new(name: &str) -> Self {
        RecordingChannel {
            name: name.into(),
            missing: Vec::new(),
            delivered: Rc::new(RefCell::new(Vec::new())),
            progress: Rc::new(RefCell::new(Vec::new())),
        }
    }
}

impl Channel for RecordingChannel {
    fn name(&self) -> String {
        self.name.clone()
    }

    fn validate(&self) -> Result<(), ChannelError> {
        if self.missing.is_empty() {
            Ok(())
        } else {
            Err(ChannelError::MissingConfig { channel: self.name.clone(), fields: self.missing.clone() })
        }
    }

    fn deliver(&self, message: &OutboundMessage) -> Result<(), ChannelError> {
        self.delivered.borrow_mut().push(format!("{}:{}", message.chat_id, message.content));
        Ok(())
    }

    fn deliver_progress(&self, update: &ProgressUpdate) -> Result<(), ChannelError> {
        self.progress.borrow_mut().push(update.kind);
        Ok(())
    }
}

struct EchoAgent;

impl TurnProcessor for EchoAgent {
    fn process(&mut self, inbound: &InboundMessage) -> Result<TurnOutcome, AgentError> {
        if inbound.content == "fail" {
            return Err(AgentError::Provider("down".into()));
        }
        let reply = format!("echo: {}", inbound.content);
        Ok(TurnOutcome {
            final_content: reply.clone(),
            reasoning: None,
            progress: vec![
                ProgressEvent::TurnStarted { session_key: inbound.session_key() },
                ProgressEvent::FinalResponse { content: reply },
            ],
            stop_reason: "completed".into(),
            usage: Vec::new(),
        })
    }
}

fn msg(channel: &str, text: &str) -> InboundMessage {
    InboundMessage::new(channel.into(), "42".into(), text.into())
}

#[test]
fn gateway_routes_progress_and_reply_to_the_source_channel() {
    let ch = RecordingChannel::new("telegram");
    let delivered = Rc::clone(&ch.delivered);
    let progress = Rc::clone(&ch.progress);
    let mut g = Gateway::new(EchoAgent);
    assert!(g.register_channel(ch).is_ok());
    g.submit(msg("telegram", "hi"));
    assert_eq!(g.dispatch_pending().ok(), Some(0));
    assert_eq!(g.pending_inbound(), 1);
    g.start();
    let h = g.health();
    assert!(h.running && h.channels == 1 && h.pending_inbound == 1);
    assert_eq!(g.dispatch_pending().ok(), Some(1));
    assert_eq!(*delivered.borrow(), vec!["42:echo: hi".to_string()]);
    assert_eq!(*progress.borrow(), vec![ProgressKind::Started, ProgressKind::Final]);
    assert_eq!(g.pending_inbound(), 0);
}

#[test]
fn gateway_errors() {
    let mut g: Gateway<EchoAgent, RecordingChannel> = Gateway::new(EchoAgent);
    let mut bad = RecordingChannel::new("qq");
    bad.missing = vec!["token".into()];
    assert!(g.register_channel(bad).is_err());
    assert_eq!(g.health().channels, 0);
    g.start();
    g.submit(msg("nowhere", "hi"));
    g.submit(msg("nowhere", "again"));
    match g.dispatch_pending() {
        Err(GatewayError::UnknownChannel(c)) => assert_eq!(c, "nowhere"),
        _ => panic!("an unregistered channel is an error"),
    }
    assert_eq!(g.pending_inbound(), 1);
    assert!(g.register_channel(RecordingChannel::new("nowhere")).is_ok());
    g.submit(msg("nowhere", "fail"));
    match g.dispatch_pending() {
        Err(GatewayError::Agent(AgentError::Provider(e))) => assert_eq!(e, "down"),
        _ => panic!("the agent error is passed on"),
    }
}

#[test]
fn unwired_command_reply() {
    let ctx = CommandContext::new("cli".into(), "1".into(), "cli:1".into(), "/dream".into());
    assert_eq!(
        pending_output(&ctx, "/dream").content,
        "命令 `/dream` 已登记但尚未在 lure 接入（随对应运行时/子系统落地）。"
    );
}

#[test]
fn inserting_a_channel_of_a_known_name_replaces_it() {
    let mut g: Gateway<EchoAgent, RecordingChannel> = Gateway::new(EchoAgent);
    g.insert_channel("a".into(), RecordingChannel::new("a"));
    g.insert_channel("b".into(), RecordingChannel::new("b"));
    assert_eq!(g.health().channels, 2);
    g.insert_channel("a".into(), RecordingChannel::new("a"));
    assert_eq!(g.health().channels, 2);
}
