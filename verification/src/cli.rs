//! Terminal presentation of a turn and command-line handling: the streamed reply
//! renderer, the waiting spinner, sentence buffering of reasoning, progress lines,
//! session ids, exit words and argument parsing.
//!
//! Renderers write into a `String`; the caller copies it to the terminal.

use vstd::prelude::*;

use crate::agent::turn::{event_view, ProgressEvent};
use crate::bus::ProgressKind;
use crate::text::{
    ascii_lower, ascii_lowercase, chars_of, contains_char, eq_str, split_once,
    split_once_char, string_from, trim, trim_chars, trim_end, trim_end_chars,
};

verus! {

/// What writing a reply piece adds to `out`: the prefix when the line has not
/// started, then the piece.
pub open spec fn pushed_text(out: Seq<char>, started: bool, prefix: Seq<char>, delta: Seq<char>) -> Seq<char> {
    out + (if started { Seq::<char>::empty() } else { prefix }) + delta
}

/// What writing a line of its own adds to `out`: a break of the reply line when it
/// has started, the text and a line break.
pub open spec fn line_text(out: Seq<char>, started: bool, text: Seq<char>) -> Seq<char> {
    (if started { out + "\n"@ } else { out }) + text + "\n"@
}

/// The prefix is written once per reply line: two pieces written one after the
/// other show the prefix only before the first, and after a line of its own the
/// next piece starts a new line with the prefix again.
pub proof fn law_prefix_once_per_line(out: Seq<char>, prefix: Seq<char>, d1: Seq<char>, d2: Seq<char>, text: Seq<char>)
    ensures
        pushed_text(pushed_text(out, false, prefix, d1), true, prefix, d2) == out + prefix + d1 + d2,
        pushed_text(line_text(pushed_text(out, false, prefix, d1), true, text), false, prefix, d2)
            == out + prefix + d1 + "\n"@ + text + "\n"@ + prefix + d2,
{
    assert(pushed_text(pushed_text(out, false, prefix, d1), true, prefix, d2) =~= out + prefix + d1 + d2);
    assert(pushed_text(line_text(pushed_text(out, false, prefix, d1), true, text), false, prefix, d2)
        =~= out + prefix + d1 + "\n"@ + text + "\n"@ + prefix + d2);
}

/// The streamed reply on the terminal: the prefix before the first piece, each
/// piece as it comes, and a line break at the end.
pub struct StreamRenderer {
    prefix: String,
    started: bool,
}

impl StreamRenderer {
    pub closed spec fn prefix_view(&self) -> Seq<char> {
        self.prefix@
    }

    pub closed spec fn started_view(&self) -> bool {
        self.started
    }

    /// A renderer that writes `prefix` before the first piece of a line.
    pub fn new(prefix: &str) -> (r: Self)
        ensures
            r.prefix_view() == prefix@,
            !r.started_view(),
    {
        StreamRenderer { prefix: prefix.to_owned(), started: false }
    }

    /// Whether anything was written.
    pub fn started(&self) -> (r: bool)
        ensures
            r == self.started_view(),
    {
        self.started
    }

    /// Writes a piece of the reply, after the prefix if the line has not started.
    pub fn push(&mut self, out: &mut String, delta: &str)
        ensures
            final(out)@ == pushed_text(old(out)@, old(self).started_view(), old(self).prefix_view(), delta@),
            final(self).started_view(),
            final(self).prefix_view() == old(self).prefix_view(),
    {
        let ghost o = out@;
        if !self.started {
            out.append(self.prefix.as_str());
            self.started = true;
        }
        out.append(delta);
        assert(out@ =~= o + (if old(self).started { Seq::<char>::empty() } else { old(self).prefix@ }) + delta@);
    }

    /// Ends the reply with a line break, if anything was written.
    pub fn finish(&mut self, out: &mut String)
        ensures
            final(out)@ == if old(self).started_view() { old(out)@ + "\n"@ } else { old(out)@ },
            *final(self) == *old(self),
    {
        if self.started {
            out.append("\n");
        }
    }

    /// Writes `text` on a line of its own, breaking the reply line first; the next
    /// piece starts a new line with the prefix.
    pub fn line(&mut self, out: &mut String, text: &str)
        ensures
            final(out)@ == line_text(old(out)@, old(self).started_view(), text@),
            !final(self).started_view(),
            final(self).prefix_view() == old(self).prefix_view(),
    {
        let ghost o = out@;
        if self.started {
            out.append("\n");
            self.started = false;
        }
        let ghost mid = out@;
        out.append(text);
        out.append("\n");
        assert(out@ =~= mid + text@ + "\n"@);
    }
}

/// Number of spinner frames.
pub const SPINNER_FRAME_COUNT: usize = 10;

/// The spinner frames, in order.
pub open spec fn frame_spec(i: nat) -> char {
    if i == 0 { '\u{280B}' }
    else if i == 1 { '\u{2819}' }
    else if i == 2 { '\u{2839}' }
    else if i == 3 { '\u{2838}' }
    else if i == 4 { '\u{283C}' }
    else if i == 5 { '\u{2834}' }
    else if i == 6 { '\u{2826}' }
    else if i == 7 { '\u{2827}' }
    else if i == 8 { '\u{2807}' }
    else { '\u{280F}' }
}

/// Spinner frame `i` (of [`SPINNER_FRAME_COUNT`]).
pub fn spinner_frame(i: usize) -> (c: char)
    requires
        i < SPINNER_FRAME_COUNT,
    ensures
        c == frame_spec(i as nat),
{
    if i == 0 { '\u{280B}' }
    else if i == 1 { '\u{2819}' }
    else if i == 2 { '\u{2839}' }
    else if i == 3 { '\u{2838}' }
    else if i == 4 { '\u{283C}' }
    else if i == 5 { '\u{2834}' }
    else if i == 6 { '\u{2826}' }
    else if i == 7 { '\u{2827}' }
    else if i == 8 { '\u{2807}' }
    else { '\u{280F}' }
}

/// The waiting indicator: each tick redraws the line as `<frame> <label>`; clearing
/// blanks it with as many spaces.
pub struct Spinner {
    label: String,
    index: usize,
    active: bool,
    last_width: usize,
}

impl Spinner {
    pub closed spec fn label_view(&self) -> Seq<char> {
        self.label@
    }

    pub closed spec fn index_view(&self) -> nat {
        self.index as nat
    }

    pub closed spec fn active_view(&self) -> bool {
        self.active
    }

    pub closed spec fn width_view(&self) -> nat {
        self.last_width as nat
    }

    pub closed spec fn wf(&self) -> bool {
        self.index < SPINNER_FRAME_COUNT
    }

    /// An inactive spinner at its first frame.
    pub fn new(label: &str) -> (s: Self)
        ensures
            s.wf(),
            s.label_view() == label@,
            s.index_view() == 0,
            !s.active_view(),
            s.width_view() == 0,
    {
        Spinner { label: label.to_owned(), index: 0, active: false, last_width: 0 }
    }

    /// Whether it is drawn.
    pub fn active(&self) -> (r: bool)
        ensures
            r == self.active_view(),
    {
        self.active
    }

    /// Draws the next frame over the line: `\r<frame> <label>`.
    pub fn tick(&mut self, out: &mut String)
        requires
            old(self).wf(),
            old(self).label_view().len() + 2 <= usize::MAX,
        ensures
            final(self).wf(),
            final(out)@ == old(out)@ + seq!['\r', frame_spec(old(self).index_view())] + " "@ + old(self).label_view(),
            final(self).index_view() == (old(self).index_view() + 1) % (SPINNER_FRAME_COUNT as nat),
            final(self).active_view(),
            final(self).width_view() == old(self).label_view().len() + 2,
            final(self).label_view() == old(self).label_view(),
    {
        let frame = spinner_frame(self.index);
        let ghost o = out@;
        let label = chars_of(self.label.as_str());
        out.append("\r");
        let fs = vec![frame];
        let fstr = string_from(&fs);
        out.append(fstr.as_str());
        out.append(" ");
        out.append(self.label.as_str());
        assert(out@ =~= o + seq!['\r', frame] + " "@ + self.label@) by {
            reveal_strlit(" ");
            reveal_strlit("\r");
        }
        self.last_width = label.len() + 2;
        self.index = (self.index + 1) % SPINNER_FRAME_COUNT;
        self.active = true;
    }

    /// Blanks the drawn spinner (`\r`, spaces as wide as it, `\r`); nothing when it is
    /// not drawn.
    pub fn clear(&mut self, out: &mut String)
        ensures
            final(out)@ == if old(self).active_view() {
                old(out)@ + seq!['\r'] + Seq::new(old(self).width_view(), |i: int| ' ') + seq!['\r']
            } else {
                old(out)@
            },
            !final(self).active_view(),
            final(self).index_view() == old(self).index_view(),
            final(self).label_view() == old(self).label_view(),
            final(self).width_view() == old(self).width_view(),
            old(self).wf() ==> final(self).wf(),
    {
        if !self.active {
            return;
        }
        let mut cs: Vec<char> = Vec::new();
        cs.push('\r');
        let mut i: usize = 0;
        while i < self.last_width
            invariant
                i <= self.last_width,
                cs@ == seq!['\r'] + Seq::new(i as nat, |k: int| ' '),
            decreases self.last_width - i,
        {
            cs.push(' ');
            i = i + 1;
            assert(cs@ =~= seq!['\r'] + Seq::new(i as nat, |k: int| ' '));
        }
        cs.push('\r');
        let s = string_from(&cs);
        out.append(s.as_str());
        self.active = false;
    }
}

/// Whether `c` ends a sentence (`.`, `!`, `?` and their full-width forms).
pub open spec fn is_sentence_end(c: char) -> bool {
    c == '.' || c == '!' || c == '?' || c == '\u{3002}' || c == '\u{FF01}' || c == '\u{FF1F}'
}

/// Characters buffered before a flush without a sentence boundary.
pub const REASONING_FLUSH_CHARS: usize = 60;

/// Whether the buffer flushes after `delta` was added and the buffer holds `text`.
pub open spec fn should_flush_spec(delta: Seq<char>, text: Seq<char>) -> bool {
    delta.contains('\n')
        || (trim_end(delta).len() > 0 && is_sentence_end(trim_end(delta).last()))
        || text.len() >= REASONING_FLUSH_CHARS
}

/// The sentence handed out when `delta` is added to a buffer holding `buffered`.
pub open spec fn reasoning_out(buffered: Seq<char>, delta: Seq<char>) -> Option<Seq<char>> {
    let text = buffered + delta;
    if delta.len() > 0 && should_flush_spec(delta, text) && trim(text).len() > 0 {
        Some(trim(text))
    } else {
        None
    }
}

/// What the buffer holds after `delta` is added to `buffered`.
pub open spec fn reasoning_kept(buffered: Seq<char>, delta: Seq<char>) -> Seq<char> {
    let text = buffered + delta;
    if delta.len() == 0 {
        buffered
    } else if should_flush_spec(delta, text) {
        Seq::empty()
    } else {
        text
    }
}

/// Sentence buffering of streamed reasoning: pieces are held until a line break, a
/// sentence end or [`REASONING_FLUSH_CHARS`] characters, then handed out trimmed.
pub struct ReasoningBuffer {
    text: String,
}

impl ReasoningBuffer {
    pub closed spec fn text_view(&self) -> Seq<char> {
        self.text@
    }

    /// An empty buffer.
    pub fn new() -> (b: Self)
        ensures
            b.text_view() == Seq::<char>::empty(),
    {
        ReasoningBuffer { text: String::new() }
    }

    /// Hands out the buffered text, trimmed, and empties the buffer; `None` when that
    /// is blank.
    pub fn flush(&mut self) -> (r: Option<String>)
        ensures
            final(self).text_view() == Seq::<char>::empty(),
            match r {
                Some(s) => s@ == trim(old(self).text_view()) && s@.len() > 0,
                None => trim(old(self).text_view()).len() == 0,
            },
    {
        let cs = chars_of(self.text.as_str());
        let t = trim_chars(&cs);
        self.text = String::new();
        if t.len() == 0 {
            None
        } else {
            Some(string_from(&t))
        }
    }

    /// Adds a piece of reasoning; returns the buffered text (trimmed) when the piece
    /// completes a line or sentence or the buffer is long enough, else `None`.
    pub fn add(&mut self, delta: &str) -> (r: Option<String>)
        ensures
            ({
                let text = old(self).text_view() + delta@;
                if delta@.len() == 0 {
                    r is None && final(self).text_view() == old(self).text_view()
                } else if should_flush_spec(delta@, text) {
                    &&& final(self).text_view() == Seq::<char>::empty()
                    &&& match r {
                        Some(s) => s@ == trim(text) && s@.len() > 0,
                        None => trim(text).len() == 0,
                    }
                } else {
                    r is None && final(self).text_view() == text
                }
            }),
    {
        if delta.is_empty() {
            return None;
        }
        self.text.append(delta);
        let d = chars_of(delta);
        let t = chars_of(self.text.as_str());
        let de = trim_end_chars(&d);
        let ends = de.len() > 0 && {
            let c = de[de.len() - 1];
            c == '.' || c == '!' || c == '?' || c == '\u{3002}' || c == '\u{FF01}' || c == '\u{FF1F}'
        };
        if contains_char(&d, '\n') || ends || t.len() >= REASONING_FLUSH_CHARS {
            self.flush()
        } else {
            None
        }
    }
}

/// The display line of a progress event other than reply text: `🔧 <tool>` for a
/// tool call, nothing for the others.
pub fn format_progress_line(event: &ProgressEvent) -> (r: Option<String>)
    ensures
        match r {
            Some(s) => event_view(*event).0 == ProgressKind::ToolInvoked && s@ == "\u{1F527} "@ + event_view(*event).1,
            None => event_view(*event).0 != ProgressKind::ToolInvoked,
        },
{
    match event {
        ProgressEvent::ToolInvoked { name } => {
            let mut s = String::new();
            s.append("\u{1F527} ");
            s.append(name.as_str());
            Some(s)
        },
        _ => None,
    }
}

/// `(channel, chat_id)` of a session id: split at the first `:`, or on channel `cli`.
pub open spec fn split_session_spec(id: Seq<char>) -> (Seq<char>, Seq<char>) {
    match split_once(id, ':') {
        Some((a, b)) => (a, b),
        None => ("cli"@, id),
    }
}

/// The channel and chat id of a session id (`cli` when it has no `:`).
pub fn split_session_id(session_id: &str) -> (r: (String, String))
    ensures
        (r.0@, r.1@) == split_session_spec(session_id@),
{
    let cs = chars_of(session_id);
    match split_once_char(&cs, ':') {
        Some((a, b)) => (string_from(&a), string_from(&b)),
        None => ("cli".to_owned(), session_id.to_owned()),
    }
}

/// Whether a line ends the interactive session: `exit`, `quit`, `/exit`, `/quit` or
/// `:q`, in any ASCII case.
pub open spec fn is_exit_spec(command: Seq<char>) -> bool {
    let l = command.map_values(|c: char| ascii_lower(c));
    l == "exit"@ || l == "quit"@ || l == "/exit"@ || l == "/quit"@ || l == ":q"@
}

/// Whether `command` ends the interactive session.
pub fn is_exit_command(command: &str) -> (r: bool)
    ensures
        r == is_exit_spec(command@),
{
    let cs = chars_of(command);
    let l = ascii_lowercase(&cs);
    eq_str(&l, "exit") || eq_str(&l, "quit") || eq_str(&l, "/exit") || eq_str(&l, "/quit") || eq_str(&l, ":q")
}

/// The text of raw input bytes with invalid UTF-8 replaced by U+FFFD, as
/// `String::from_utf8_lossy` decodes it.
pub uninterp spec fn utf8_lossy(raw: Seq<u8>) -> Seq<char>;

/// `String::from_utf8_lossy`.
#[verifier::external_body]
fn decode_utf8_lossy(raw: &[u8]) -> (r: String)
    ensures
        r@ == utf8_lossy(raw@),
{
    String::from_utf8_lossy(raw).into_owned()
}

/// `s` without its trailing `\r` and `\n` characters.
pub open spec fn trim_line_end(s: Seq<char>) -> Seq<char>
    decreases s.len(),
{
    if s.len() > 0 && (s.last() == '\r' || s.last() == '\n') {
        trim_line_end(s.drop_last())
    } else {
        s
    }
}

/// An input line: the bytes decoded (invalid UTF-8 replaced) without the trailing
/// line break characters.
pub fn decode_interactive_line(raw: &[u8]) -> (r: String)
    ensures
        r@ == trim_line_end(utf8_lossy(raw@)),
{
    let s = decode_utf8_lossy(raw);
    let cs = chars_of(s.as_str());
    let mut j: usize = cs.len();
    assert(cs@.subrange(0, j as int) =~= cs@);
    while j > 0 && (cs[j - 1] == '\r' || cs[j - 1] == '\n')
        invariant
            j <= cs@.len(),
            trim_line_end(cs@) == trim_line_end(cs@.subrange(0, j as int)),
        decreases j,
    {
        assert(cs@.subrange(0, j as int).drop_last() =~= cs@.subrange(0, j - 1));
        j = j - 1;
    }
    let mut out: Vec<char> = Vec::new();
    let mut i: usize = 0;
    while i < j
        invariant
            i <= j <= cs@.len(),
            out@ == cs@.subrange(0, i as int),
        decreases j - i,
    {
        out.push(cs[i]);
        i = i + 1;
    }
    string_from(&out)
}

} // verus!
