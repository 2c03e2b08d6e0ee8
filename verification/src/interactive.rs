//! The decisions of the interactive `lure agent` session: what each input line
//! asks for, how each progress event of a turn is shown, and what is printed when a
//! turn ends. The caller reads the lines, runs the turns, animates the spinner and
//! writes what these functions return.

use vstd::prelude::*;

use crate::agent::turn::{event_view, ProgressEvent, TurnOutcome};
use crate::bus::ProgressKind;
use crate::cli::{
    decode_interactive_line, format_progress_line, reasoning_kept, reasoning_out, is_exit_command, is_exit_spec, trim_line_end, utf8_lossy,
    ReasoningBuffer, StreamRenderer,
};
use crate::text::{chars_of, str_eq, trim};

verus! {

/// The prompt before each input line.
pub const INPUT_PROMPT: &'static str = "You: ";
/// The prefix of the assistant's reply line.
pub const REPLY_PREFIX: &'static str = "Assistant: ";

/// What an input line asks for.
pub enum InputAction {
    /// A blank line: prompt again.
    Skip,
    /// End the session after printing `farewell`.
    Quit { farewell: String },
    /// Run a turn with this message.
    Submit { line: String },
}

/// The line of raw input bytes: decoded, without the trailing line break.
pub open spec fn input_line(raw: Seq<u8>) -> Seq<char> {
    trim_line_end(utf8_lossy(raw))
}

/// What the input asks for (`None` is the end of input): end of input and exit
/// words quit, blank lines are skipped, anything else is submitted whole.
pub fn next_input(raw: Option<&[u8]>) -> (r: InputAction)
    ensures
        match raw {
            None => r matches InputAction::Quit { farewell } && farewell@ == "\nGoodbye!\n"@,
            Some(b) => {
                let line = input_line(b@);
                if trim(line).len() == 0 {
                    r is Skip
                } else if is_exit_spec(trim(line)) {
                    r matches InputAction::Quit { farewell } && farewell@ == "Goodbye!\n"@
                } else {
                    r matches InputAction::Submit { line: l } && l@ == line
                }
            },
        },
{
    match raw {
        None => InputAction::Quit { farewell: "\nGoodbye!\n".to_owned() },
        Some(b) => {
            let line = decode_interactive_line(b);
            let command = crate::text::string_from(&crate::text::trim_chars(&chars_of(line.as_str())));
            if command.as_str().is_empty() {
                InputAction::Skip
            } else if is_exit_command(command.as_str()) {
                InputAction::Quit { farewell: "Goodbye!\n".to_owned() }
            } else {
                InputAction::Submit { line }
            }
        },
    }
}

/// The banner of the interactive session.
pub fn interactive_banner(channel: &str, chat_id: &str) -> (r: String)
    ensures
        r@ == "Lure interactive mode ("@ + channel@ + ":"@ + chat_id@
            + ") — type exit, quit, /exit, /quit, or :q to quit；Ctrl-C 中断当前回合"@,
{
    let mut s = String::new();
    s.append("Lure interactive mode (");
    s.append(channel);
    s.append(":");
    s.append(chat_id);
    s.append(") — type exit, quit, /exit, /quit, or :q to quit；Ctrl-C 中断当前回合");
    s
}

/// What to do on the terminal for one progress event.
pub struct EventEffect {
    /// Clear and pause the spinner before writing.
    pub suspend: bool,
    /// Text for standard output.
    pub stdout: String,
    /// Text for standard error.
    pub stderr: String,
    /// Let the spinner run again afterwards (a tool ran; the model is awaited again).
    pub resume: bool,
}

/// What to print when a turn ends.
pub struct TurnEnd {
    pub stdout: String,
    pub stderr: String,
}

/// The display state of one interactive turn.
pub struct InteractiveTurn {
    renderer: StreamRenderer,
    reasoning: ReasoningBuffer,
    streamed_reasoning: bool,
    show_reasoning: bool,
}

impl InteractiveTurn {
    pub closed spec fn started_view(&self) -> bool { self.renderer.started_view() }
    pub closed spec fn prefix_view(&self) -> Seq<char> { self.renderer.prefix_view() }
    pub closed spec fn buffered_view(&self) -> Seq<char> { self.reasoning.text_view() }
    pub closed spec fn streamed_view(&self) -> bool { self.streamed_reasoning }
    pub closed spec fn show_view(&self) -> bool { self.show_reasoning }

    /// The display state at the start of a turn.
    pub fn new(show_reasoning: bool) -> (t: Self)
        ensures
            !t.started_view(),
            t.prefix_view() == REPLY_PREFIX@,
            t.buffered_view().len() == 0,
            !t.streamed_view(),
            t.show_view() == show_reasoning,
    {
        InteractiveTurn {
            renderer: StreamRenderer::new(REPLY_PREFIX),
            reasoning: ReasoningBuffer::new(),
            streamed_reasoning: false,
            show_reasoning,
        }
    }

    /// Shows one progress event: reply text streams to standard output (not after an
    /// interrupt), reasoning is buffered into sentences for standard error (when
    /// shown), a tool call gets a line of its own and lets the spinner run again.
    pub fn on_event(&mut self, event: &ProgressEvent, cancelled: bool) -> (r: EventEffect)
        ensures
            final(self).prefix_view() == old(self).prefix_view(),
            final(self).show_view() == old(self).show_view(),
            ({
                let (kind, text) = event_view(*event);
                if kind == ProgressKind::ContentDelta {
                    if cancelled {
                        !r.suspend && r.stdout@.len() == 0 && r.stderr@.len() == 0 && !r.resume
                            && final(self).started_view() == old(self).started_view()
                    } else {
                        &&& r.suspend && !r.resume && r.stderr@.len() == 0
                        &&& r.stdout@ == (if old(self).started_view() { Seq::<char>::empty() } else { old(self).prefix_view() }) + text
                        &&& final(self).started_view()
                    }
                } else if kind == ProgressKind::ReasoningDelta {
                    &&& !r.resume && r.stdout@.len() == 0
                    &&& final(self).started_view() == old(self).started_view()
                    &&& if !old(self).show_view() {
                        !r.suspend && r.stderr@.len() == 0
                    } else {
                        &&& final(self).streamed_view()
                        &&& final(self).buffered_view() == reasoning_kept(old(self).buffered_view(), text)
                        &&& r.suspend == reasoning_out(old(self).buffered_view(), text) is Some
                        &&& r.stderr@ == match reasoning_out(old(self).buffered_view(), text) {
                            Some(sentence) => "✻ "@ + sentence + "\n"@,
                            None => Seq::<char>::empty(),
                        }
                    }
                } else if kind == ProgressKind::ToolInvoked {
                    &&& r.suspend && r.resume && r.stderr@.len() == 0
                    &&& r.stdout@ == (if old(self).started_view() { "\n"@ } else { Seq::<char>::empty() }) + "\u{1F527} "@ + text + "\n"@
                    &&& !final(self).started_view()
                } else {
                    !r.suspend && r.stdout@.len() == 0 && r.stderr@.len() == 0 && !r.resume
                        && final(self).started_view() == old(self).started_view()
                }
            }),
    {
        let mut eff = EventEffect { suspend: false, stdout: String::new(), stderr: String::new(), resume: false };
        match event {
            ProgressEvent::TurnStarted { .. } => {},
            ProgressEvent::ContentDelta { text } => {
                if !cancelled {
                    eff.suspend = true;
                    self.renderer.push(&mut eff.stdout, text.as_str());
                }
            },
            ProgressEvent::ReasoningDelta { text } => {
                if self.show_reasoning {
                    self.streamed_reasoning = true;
                    match self.reasoning.add(text.as_str()) {
                        Some(sentence) => {
                            eff.suspend = true;
                            eff.stderr.append("✻ ");
                            eff.stderr.append(sentence.as_str());
                            eff.stderr.append("\n");
                        },
                        None => {},
                    }
                }
            },
            _ => {
                match format_progress_line(event) {
                    Some(line) => {
                        eff.suspend = true;
                        self.renderer.line(&mut eff.stdout, line.as_str());
                        eff.resume = true;
                    },
                    None => {},
                }
            },
        }
        eff
    }

    /// What to print when the turn ends: an error goes to standard error; an
    /// interrupted turn gets a notice; otherwise the final reply is printed if
    /// nothing was streamed, the reply line is ended, and (when reasoning is shown)
    /// the rest of the streamed reasoning, or the whole reasoning of a turn that
    /// streamed none, goes to standard error.
    pub fn finish(&mut self, result: &Result<TurnOutcome, String>) -> (r: TurnEnd)
        ensures
            match *result {
                Err(e) => r.stdout@.len() == 0 && r.stderr@ == "⚠ 本轮出错: "@ + e@ + "\n"@,
                Ok(o) => if o.stop_reason@ == "interrupted"@ {
                    r.stdout@ == "\n⚠ 已中断当前回合\n"@ && r.stderr@.len() == 0
                } else {
                    &&& r.stdout@ == (if old(self).started_view() {
                        "\n"@
                    } else {
                        old(self).prefix_view() + o.final_content@ + "\n"@
                    })
                    &&& !old(self).show_view() ==> r.stderr@.len() == 0
                    &&& old(self).show_view() && old(self).streamed_view() ==> r.stderr@ == (
                        if trim(old(self).buffered_view()).len() > 0 {
                            "✻ "@ + trim(old(self).buffered_view()) + "\n"@
                        } else {
                            Seq::<char>::empty()
                        })
                    &&& old(self).show_view() && !old(self).streamed_view() ==> r.stderr@ == (match o.reasoning {
                        Some(t) => "💭 思维链:\n"@ + t@ + "\n\n"@,
                        None => Seq::<char>::empty(),
                    })
                },
            },
    {
        let mut end = TurnEnd { stdout: String::new(), stderr: String::new() };
        match result {
            Err(e) => {
                end.stderr.append("⚠ 本轮出错: ");
                end.stderr.append(e.as_str());
                end.stderr.append("\n");
            },
            Ok(o) => {
                if str_eq(o.stop_reason.as_str(), "interrupted") {
                    end.stdout.append("\n⚠ 已中断当前回合\n");
                } else {
                    if !self.renderer.started() {
                        self.renderer.push(&mut end.stdout, o.final_content.as_str());
                    }
                    self.renderer.finish(&mut end.stdout);
                    if self.show_reasoning {
                        if self.streamed_reasoning {
                            match self.reasoning.flush() {
                                Some(rest) => {
                                    end.stderr.append("✻ ");
                                    end.stderr.append(rest.as_str());
                                    end.stderr.append("\n");
                                },
                                None => {},
                            }
                        } else {
                            match &o.reasoning {
                                Some(t) => {
                                    end.stderr.append("💭 思维链:\n");
                                    end.stderr.append(t.as_str());
                                    end.stderr.append("\n\n");
                                },
                                None => {},
                            }
                        }
                    }
                }
            },
        }
        end
    }
}

/// What a one-shot `lure agent -m` prints: the reasoning on standard error (when
/// asked for and present), the final reply on standard output.
pub fn one_shot_output(final_content: &str, reasoning: &Option<String>, show_reasoning: bool) -> (r: TurnEnd)
    ensures
        r.stdout@ == final_content@ + "\n"@,
        r.stderr@ == (if show_reasoning {
            match *reasoning {
                Some(t) => "💭 思维链:\n"@ + t@ + "\n\n"@,
                None => Seq::<char>::empty(),
            }
        } else {
            Seq::<char>::empty()
        }),
{
    let mut end = TurnEnd { stdout: String::new(), stderr: String::new() };
    if show_reasoning {
        match reasoning {
            Some(t) => {
                end.stderr.append("💭 思维链:\n");
                end.stderr.append(t.as_str());
                end.stderr.append("\n\n");
            },
            None => {},
        }
    }
    end.stdout.append(final_content);
    end.stdout.append("\n");
    end
}

} // verus!
