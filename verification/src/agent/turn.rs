//! The decisions of one agent turn, as a state machine.
//!
//! A turn runs up to [`MAX_TOOL_ITERATIONS`] provider requests. A reply without tool
//! calls ends the turn; an empty one is retried silently up to
//! [`MAX_EMPTY_RETRIES`] times in all, then a finalization request (the conversation
//! plus [`FINALIZATION_RETRY_PROMPT`]) is made, and if that is empty too the turn
//! ends with [`EMPTY_FINAL_RESPONSE_MESSAGE`]. A reply with tool calls (when tools
//! are mounted) starts a tool round. A cancellation, checked before each request
//! and after each reply, abandons the turn without persisting anything.
//!
//! The caller performs each [`TurnAction`] (provider requests, session writes, tool
//! execution) and hands the outcome back.

use vstd::prelude::*;

use crate::bus::ProgressKind;
use crate::text::{all_ws, chars_of, is_blank};

verus! {

/// Provider requests per turn, tool rounds included.
pub const MAX_TOOL_ITERATIONS: usize = 8;

/// Empty replies tolerated before the finalization request.
pub const MAX_EMPTY_RETRIES: usize = 2;

/// The reply of a turn whose finalization request came back empty too.
pub const EMPTY_FINAL_RESPONSE_MESSAGE: &'static str = "I completed the tool steps but couldn't produce a final answer. Please try again or narrow the task.";

/// The user prompt appended to the conversation for the finalization request.
pub const FINALIZATION_RETRY_PROMPT: &'static str = "Please provide your response to the user based on the conversation above.";

/// A tool call requested by the model.
pub struct ToolCall {
    pub id: String,
    pub name: String,
    /// Arguments as JSON text.
    pub arguments: String,
}

/// A completed provider reply.
pub struct ProviderResponse {
    pub content: Option<String>,
    pub reasoning_content: Option<String>,
    pub tool_calls: Vec<ToolCall>,
    /// The integer usage counters of the reply (`prompt_tokens`, ...), by name.
    pub usage: Vec<(String, i64)>,
}

/// A structured progress event of a turn.
pub enum ProgressEvent {
    /// The turn started for this session.
    TurnStarted { session_key: String },
    /// A piece of streamed reply text.
    ContentDelta { text: String },
    /// A piece of streamed reasoning.
    ReasoningDelta { text: String },
    /// A tool is about to run.
    ToolInvoked { name: String },
    /// The final reply of the turn.
    FinalResponse { content: String },
}

/// What a turn produced.
pub struct TurnOutcome {
    pub final_content: String,
    pub reasoning: Option<String>,
    /// Every progress event of the turn, in the order they were emitted.
    pub progress: Vec<ProgressEvent>,
    /// `completed`, `empty_final_response`, `max_iterations` or `interrupted`.
    pub stop_reason: String,
    /// Usage counters summed over every request of the turn, by name.
    pub usage: Vec<(String, i64)>,
}

/// Where a turn stands.
#[derive(PartialEq, Eq, Structural, Clone, Copy, Debug)]
pub enum TurnPhase {
    /// Between requests: call [`TurnState::begin_iteration`].
    Idle,
    /// A provider request is under way.
    AwaitingResponse,
    /// The finalization request is under way.
    AwaitingFinalization,
    /// The turn has ended.
    Finished,
}

/// What the caller does next.
pub enum TurnAction {
    /// Request a reply for the session's conversation, streaming chunks to
    /// [`TurnState::on_chunk`] and the reply to [`TurnState::on_response`].
    CallProvider,
    /// Request a reply for the conversation plus [`FINALIZATION_RETRY_PROMPT`] (not
    /// stored in the session), then hand it to [`TurnState::on_finalization_response`].
    CallFinalization,
    /// The reply was empty: go on with [`TurnState::begin_iteration`].
    Retry,
    /// Store the assistant turn (`content`, `reasoning`, `calls`), run each call and
    /// store each result as a tool turn (through [`ensure_nonempty_tool_result`]), then go on with
    /// [`TurnState::begin_iteration`].
    RunTools { content: String, reasoning: Option<String>, calls: Vec<ToolCall> },
    /// The turn is over. With `persist_reply`, store the final assistant turn
    /// (`final_content`, `reasoning`); with `save`, save the session and append the
    /// final content to the memory history.
    Finish { outcome: TurnOutcome, persist_reply: bool, save: bool },
}

// ---------------------------------------------------------------------------
// Specifications
// ---------------------------------------------------------------------------

/// View of an optional string.
pub open spec fn opt_seq(o: Option<String>) -> Option<Seq<char>> {
    match o {
        Some(s) => Some(s@),
        None => None,
    }
}

/// Usage counters as `(name, value)` pairs.
pub open spec fn usage_seq(u: Seq<(String, i64)>) -> Seq<(Seq<char>, int)> {
    u.map_values(|e: (String, i64)| (e.0@, e.1 as int))
}

/// Position of the counter named `k`.
pub open spec fn usage_index(u: Seq<(Seq<char>, int)>, k: Seq<char>) -> Option<int>
    decreases u.len(),
{
    if u.len() == 0 {
        None
    } else {
        match usage_index(u.drop_last(), k) {
            Some(i) => Some(i),
            None => if u.last().0 == k { Some(u.len() - 1) } else { None },
        }
    }
}

/// `u` with `n` added to the counter named `k` (a new counter starts at zero).
pub open spec fn add_usage(u: Seq<(Seq<char>, int)>, k: Seq<char>, n: int) -> Seq<(Seq<char>, int)> {
    match usage_index(u, k) {
        Some(i) => u.update(i, (k, u[i].1 + n)),
        None => u.push((k, n)),
    }
}

/// `u` with every counter of `add` added in turn.
pub open spec fn accumulate(u: Seq<(Seq<char>, int)>, add: Seq<(Seq<char>, int)>) -> Seq<(Seq<char>, int)>
    decreases add.len(),
{
    if add.len() == 0 {
        u
    } else {
        let prev = accumulate(u, add.drop_last());
        add_usage(prev, add.last().0, add.last().1)
    }
}

/// Whether every partial sum of the accumulation fits in `i64`.
pub open spec fn accumulate_fits(u: Seq<(Seq<char>, int)>, add: Seq<(Seq<char>, int)>) -> bool
    decreases add.len(),
{
    if add.len() == 0 {
        forall|i: int| 0 <= i < u.len() ==> i64::MIN <= #[trigger] u[i].1 <= i64::MAX
    } else {
        let prev = accumulate(u, add.drop_last());
        &&& accumulate_fits(u, add.drop_last())
        &&& match usage_index(prev, add.last().0) {
            Some(i) => i64::MIN <= prev[i].1 + add.last().1 <= i64::MAX,
            None => true,
        }
    }
}

/// The text of a reply (empty when it has none).
pub open spec fn content_of(r: ProviderResponse) -> Seq<char> {
    match r.content {
        Some(c) => c@,
        None => Seq::empty(),
    }
}

/// The reasoning of a reply, when it has a non-empty one.
pub open spec fn reasoning_of(r: ProviderResponse) -> Option<Seq<char>> {
    match r.reasoning_content {
        Some(c) => if c@.len() > 0 { Some(c@) } else { None },
        None => None,
    }
}

/// An event as its kind and text.
pub open spec fn event_view(e: ProgressEvent) -> (ProgressKind, Seq<char>) {
    match e {
        ProgressEvent::TurnStarted { session_key } => (ProgressKind::Started, session_key@),
        ProgressEvent::ContentDelta { text } => (ProgressKind::ContentDelta, text@),
        ProgressEvent::ReasoningDelta { text } => (ProgressKind::ReasoningDelta, text@),
        ProgressEvent::ToolInvoked { name } => (ProgressKind::ToolInvoked, name@),
        ProgressEvent::FinalResponse { content } => (ProgressKind::Final, content@),
    }
}

/// A sequence of events as kinds and texts.
pub open spec fn events_view(p: Seq<ProgressEvent>) -> Seq<(ProgressKind, Seq<char>)> {
    p.map_values(|e: ProgressEvent| event_view(e))
}

/// The events a streamed chunk produces: its reasoning, then its text, each when
/// present and non-empty.
pub open spec fn chunk_events(reasoning: Option<Seq<char>>, content: Option<Seq<char>>) -> Seq<(ProgressKind, Seq<char>)> {
    let r: Seq<(ProgressKind, Seq<char>)> = match reasoning {
        Some(t) => if t.len() > 0 { seq![(ProgressKind::ReasoningDelta, t)] } else { Seq::empty() },
        None => Seq::empty(),
    };
    let c: Seq<(ProgressKind, Seq<char>)> = match content {
        Some(t) => if t.len() > 0 { seq![(ProgressKind::ContentDelta, t)] } else { Seq::empty() },
        None => Seq::empty(),
    };
    r + c
}

/// The `ToolInvoked` events of a list of calls, in order.
pub open spec fn tool_events(calls: Seq<ToolCall>) -> Seq<(ProgressKind, Seq<char>)> {
    calls.map_values(|c: ToolCall| (ProgressKind::ToolInvoked, c.name@))
}

/// The text stored for a tool result: the result, or a marker when it is blank.
pub open spec fn tool_result_spec(name: Seq<char>, content: Seq<char>) -> Seq<char> {
    if all_ws(content) {
        "("@ + name + " completed with no output)"@
    } else {
        content
    }
}

/// The tool result text to store: `content`, or `(<name> completed with no output)`
/// when `content` is empty or whitespace only.
pub fn ensure_nonempty_tool_result(tool_name: &str, content: String) -> (r: String)
    ensures
        r@ == tool_result_spec(tool_name@, content@),
{
    let cs = chars_of(content.as_str());
    if is_blank(&cs) {
        let mut out = String::new();
        out.append("(");
        out.append(tool_name);
        out.append(" completed with no output)");
        out
    } else {
        content
    }
}

/// The state of one turn.
pub struct TurnState {
    session_key: String,
    iterations: usize,
    empty_retries: usize,
    final_content: String,
    final_reasoning: Option<String>,
    usage: Vec<(String, i64)>,
    progress: Vec<ProgressEvent>,
    phase: TurnPhase,
}

/// A finished turn's outcome as a tuple of views: final content, reasoning, events,
/// stop reason and usage.
pub open spec fn outcome_view(o: TurnOutcome) -> (Seq<char>, Option<Seq<char>>, Seq<(ProgressKind, Seq<char>)>, Seq<char>, Seq<(Seq<char>, int)>) {
    (o.final_content@, opt_seq(o.reasoning), events_view(o.progress@), o.stop_reason@, usage_seq(o.usage@))
}

impl TurnState {
    pub closed spec fn phase_view(&self) -> TurnPhase {
        self.phase
    }

    /// Provider requests of the main loop so far (silent retries included).
    pub closed spec fn iterations_view(&self) -> nat {
        self.iterations as nat
    }

    pub closed spec fn empty_retries_view(&self) -> nat {
        self.empty_retries as nat
    }

    pub closed spec fn key_view(&self) -> Seq<char> {
        self.session_key@
    }

    /// The content of the last tool round.
    pub closed spec fn last_content_view(&self) -> Seq<char> {
        self.final_content@
    }

    /// The reasoning of the last tool round.
    pub closed spec fn last_reasoning_view(&self) -> Option<Seq<char>> {
        opt_seq(self.final_reasoning)
    }

    pub closed spec fn usage_view(&self) -> Seq<(Seq<char>, int)> {
        usage_seq(self.usage@)
    }

    pub closed spec fn progress_view(&self) -> Seq<(ProgressKind, Seq<char>)> {
        events_view(self.progress@)
    }

    /// Internal consistency: counters within their bounds, usage values in `i64`.
    pub closed spec fn wf(&self) -> bool {
        &&& self.iterations <= MAX_TOOL_ITERATIONS
        &&& self.empty_retries <= MAX_EMPTY_RETRIES
        &&& self.progress@.len() >= 1
        &&& event_view(self.progress@[0]) == (ProgressKind::Started, self.session_key@)
        &&& self.phase == TurnPhase::Idle ==> self.empty_retries < MAX_EMPTY_RETRIES
        &&& self.phase == TurnPhase::AwaitingResponse ==> {
            &&& self.iterations < MAX_TOOL_ITERATIONS
            &&& self.empty_retries < MAX_EMPTY_RETRIES
        }
    }

    /// A turn for `session_key` that has emitted `TurnStarted`.
    pub fn start(session_key: String) -> (s: Self)
        ensures
            s.wf(),
            s.phase_view() == TurnPhase::Idle,
            s.key_view() == session_key@,
            s.iterations_view() == 0,
            s.empty_retries_view() == 0,
            s.last_content_view() == Seq::<char>::empty(),
            s.last_reasoning_view() is None,
            s.usage_view() == Seq::<(Seq<char>, int)>::empty(),
            s.progress_view() == seq![(ProgressKind::Started, session_key@)],
    {
        let mut progress: Vec<ProgressEvent> = Vec::new();
        progress.push(ProgressEvent::TurnStarted { session_key: session_key.clone() });
        let s = TurnState {
            session_key,
            iterations: 0,
            empty_retries: 0,
            final_content: String::new(),
            final_reasoning: None,
            usage: Vec::new(),
            progress,
            phase: TurnPhase::Idle,
        };
        assert(s.progress_view() =~= seq![(ProgressKind::Started, s.session_key@)]);
        assert(s.usage_view() =~= Seq::<(Seq<char>, int)>::empty());
        s
    }

    /// The progress events so far.
    pub fn progress(&self) -> (r: &[ProgressEvent])
        ensures
            events_view(r@) == self.progress_view(),
    {
        self.progress.as_slice()
    }

    /// Where the turn stands.
    pub fn phase(&self) -> (r: TurnPhase)
        ensures
            r == self.phase_view(),
    {
        self.phase
    }
}

/// `usage_index` finds the first counter named `k`.
pub proof fn lemma_usage_index(u: Seq<(Seq<char>, int)>, k: Seq<char>)
    ensures
        match usage_index(u, k) {
            Some(i) => 0 <= i < u.len() && u[i].0 == k && forall|j: int| 0 <= j < i ==> u[j].0 != k,
            None => forall|j: int| 0 <= j < u.len() ==> u[j].0 != k,
        },
    decreases u.len(),
{
    if u.len() > 0 {
        lemma_usage_index(u.drop_last(), k);
        assert forall|j: int| 0 <= j < u.len() - 1 implies u[j] == u.drop_last()[j] by {}
    }
}

proof fn lemma_fits_prefix(u: Seq<(Seq<char>, int)>, add: Seq<(Seq<char>, int)>, i: int)
    requires
        accumulate_fits(u, add),
        0 <= i <= add.len(),
    ensures
        accumulate_fits(u, add.subrange(0, i)),
    decreases add.len(),
{
    if i == add.len() {
        assert(add.subrange(0, i) =~= add);
    } else {
        assert(add.drop_last().subrange(0, i) =~= add.subrange(0, i));
        lemma_fits_prefix(u, add.drop_last(), i);
    }
}

proof fn lemma_fits_base(u: Seq<(Seq<char>, int)>, add: Seq<(Seq<char>, int)>)
    requires
        accumulate_fits(u, add),
    ensures
        forall|i: int| 0 <= i < u.len() ==> i64::MIN <= #[trigger] u[i].1 <= i64::MAX,
    decreases add.len(),
{
    if add.len() > 0 {
        lemma_fits_base(u, add.drop_last());
    }
}

/// Adds each counter of `add` to `target`.
fn accumulate_usage(target: &mut Vec<(String, i64)>, add: &Vec<(String, i64)>)
    requires
        accumulate_fits(usage_seq(old(target)@), usage_seq(add@)),
    ensures
        usage_seq(final(target)@) == accumulate(usage_seq(old(target)@), usage_seq(add@)),
{
    let ghost u0 = usage_seq(target@);
    let ghost a = usage_seq(add@);
    let mut i: usize = 0;
    while i < add.len()
        invariant
            i <= add@.len(),
            a == usage_seq(add@),
            accumulate_fits(u0, a),
            usage_seq(target@) == accumulate(u0, a.subrange(0, i as int)),
        decreases add@.len() - i,
    {
        proof {
            lemma_fits_prefix(u0, a, i + 1);
            assert(a.subrange(0, i + 1).drop_last() =~= a.subrange(0, i as int));
            if i == 0 {
                lemma_fits_base(u0, a);
                assert(a.subrange(0, 0) =~= Seq::<(Seq<char>, int)>::empty());
            }
        }
        let ghost prev = usage_seq(target@);
        let key = &add[i].0;
        let n = add[i].1;
        proof {
            lemma_usage_index(prev, key@);
        }
        let mut j: usize = 0;
        let mut found = false;
        while j < target.len()
            invariant_except_break
                !found,
                forall|m: int| 0 <= m < j ==> target@[m].0@ != key@,
            invariant
                j <= target@.len(),
                usage_seq(target@) == prev,
            ensures
                found ==> j < target@.len() && target@[j as int].0@ == key@ && forall|m: int| 0 <= m < j ==> target@[m].0@ != key@,
                !found ==> forall|m: int| 0 <= m < target@.len() ==> target@[m].0@ != key@,
            decreases target@.len() - j,
        {
            if target[j].0 == *key {
                found = true;
                break;
            }
            j = j + 1;
        }
        if found {
            assert(prev[j as int].0 == key@);
            assert(usage_index(prev, key@) == Some(j as int));
            let sum = target[j].1 + n;
            target.set(j, (key.clone(), sum));
            assert(usage_seq(target@) =~= prev.update(j as int, (key@, prev[j as int].1 + n)));
        } else {
            assert(usage_index(prev, key@) is None);
            target.push((key.clone(), n));
            assert(usage_seq(target@) =~= prev.push((key@, n as int)));
        }
        i = i + 1;
    }
    assert(a.subrange(0, add@.len() as int) =~= a);
}

/// Whether adding each counter of `add` to `target` in turn stays within `i64`.
fn usage_fits(target: &Vec<(String, i64)>, add: &Vec<(String, i64)>) -> (r: bool)
    ensures
        r == accumulate_fits(usage_seq(target@), usage_seq(add@)),
{
    let ghost u0 = usage_seq(target@);
    let ghost a = usage_seq(add@);
    let mut work: Vec<(String, i64)> = Vec::new();
    let mut k: usize = 0;
    while k < target.len()
        invariant
            k <= target@.len(),
            work@ == target@.subrange(0, k as int),
        decreases target@.len() - k,
    {
        work.push((target[k].0.clone(), target[k].1));
        k = k + 1;
        assert(work@ =~= target@.subrange(0, k as int));
    }
    assert(target@.subrange(0, target@.len() as int) =~= target@);
    assert(a.subrange(0, 0) =~= Seq::<(Seq<char>, int)>::empty());
    let mut i: usize = 0;
    while i < add.len()
        invariant
            i <= add@.len(),
            a == usage_seq(add@),
            u0 == usage_seq(target@),
            accumulate_fits(u0, a.subrange(0, i as int)),
            usage_seq(work@) == accumulate(u0, a.subrange(0, i as int)),
        decreases add@.len() - i,
    {
        proof {
            assert(a.subrange(0, i + 1).drop_last() =~= a.subrange(0, i as int));
        }
        let ghost prev = usage_seq(work@);
        let key = &add[i].0;
        let n = add[i].1;
        proof {
            lemma_usage_index(prev, key@);
        }
        let mut j: usize = 0;
        let mut found = false;
        while j < work.len()
            invariant_except_break
                !found,
                forall|m: int| 0 <= m < j ==> work@[m].0@ != key@,
            invariant
                j <= work@.len(),
                usage_seq(work@) == prev,
            ensures
                found ==> j < work@.len() && work@[j as int].0@ == key@ && forall|m: int| 0 <= m < j ==> work@[m].0@ != key@,
                !found ==> forall|m: int| 0 <= m < work@.len() ==> work@[m].0@ != key@,
            decreases work@.len() - j,
        {
            if work[j].0 == *key {
                found = true;
                break;
            }
            j = j + 1;
        }
        if found {
            assert(prev[j as int].0 == key@);
            assert(usage_index(prev, key@) == Some(j as int));
            match work[j].1.checked_add(n) {
                Some(sum) => {
                    work.set(j, (key.clone(), sum));
                    assert(usage_seq(work@) =~= prev.update(j as int, (key@, prev[j as int].1 + n)));
                },
                None => {
                    proof {
                        if accumulate_fits(u0, a) {
                            lemma_fits_prefix(u0, a, i + 1);
                        }
                    }
                    return false;
                },
            }
        } else {
            assert(usage_index(prev, key@) is None);
            work.push((key.clone(), n));
            assert(usage_seq(work@) =~= prev.push((key@, n as int)));
        }
        i = i + 1;
    }
    assert(a.subrange(0, add@.len() as int) =~= a);
    true
}

/// Whether `a` ends the turn with this outcome and these instructions.
pub open spec fn finishes(
    a: TurnAction,
    content: Seq<char>,
    reasoning: Option<Seq<char>>,
    progress: Seq<(ProgressKind, Seq<char>)>,
    stop: Seq<char>,
    usage: Seq<(Seq<char>, int)>,
    persist: bool,
    save: bool,
) -> bool {
    match a {
        TurnAction::Finish { outcome, persist_reply, save: sv } => {
            &&& outcome_view(outcome) == (content, reasoning, progress, stop, usage)
            &&& persist_reply == persist
            &&& sv == save
        },
        _ => false,
    }
}

impl ProgressEvent {
    /// A copy of this event.
    pub fn duplicate(&self) -> (r: Self)
        ensures
            event_view(r) == event_view(*self),
    {
        match self {
            ProgressEvent::TurnStarted { session_key } => ProgressEvent::TurnStarted { session_key: session_key.clone() },
            ProgressEvent::ContentDelta { text } => ProgressEvent::ContentDelta { text: text.clone() },
            ProgressEvent::ReasoningDelta { text } => ProgressEvent::ReasoningDelta { text: text.clone() },
            ProgressEvent::ToolInvoked { name } => ProgressEvent::ToolInvoked { name: name.clone() },
            ProgressEvent::FinalResponse { content } => ProgressEvent::FinalResponse { content: content.clone() },
        }
    }
}

fn copy_events(p: &Vec<ProgressEvent>) -> (r: Vec<ProgressEvent>)
    ensures
        events_view(r@) == events_view(p@),
{
    let mut out: Vec<ProgressEvent> = Vec::new();
    let mut i: usize = 0;
    while i < p.len()
        invariant
            i <= p@.len(),
            out@.len() == i,
            forall|k: int| 0 <= k < i ==> event_view(#[trigger] out@[k]) == event_view(p@[k]),
        decreases p@.len() - i,
    {
        out.push(p[i].duplicate());
        i = i + 1;
    }
    assert(events_view(out@) =~= events_view(p@));
    out
}

fn copy_usage(u: &Vec<(String, i64)>) -> (r: Vec<(String, i64)>)
    ensures
        usage_seq(r@) == usage_seq(u@),
{
    let mut out: Vec<(String, i64)> = Vec::new();
    let mut i: usize = 0;
    while i < u.len()
        invariant
            i <= u@.len(),
            out@.len() == i,
            forall|k: int| 0 <= k < i ==> (#[trigger] out@[k]).0@ == u@[k].0@ && out@[k].1 == u@[k].1,
        decreases u@.len() - i,
    {
        out.push((u[i].0.clone(), u[i].1));
        i = i + 1;
    }
    assert(usage_seq(out@) =~= usage_seq(u@));
    out
}

impl TurnState {
    /// Ends the turn: optionally emits `FinalResponse`, and returns `Finish`.
    fn finish(&mut self, content: String, reasoning: Option<String>, stop: &str, final_event: bool, persist: bool, save: bool) -> (a: TurnAction)
        requires
            old(self).wf(),
        ensures
            final(self).wf(),
            final(self).phase_view() == TurnPhase::Finished,
            final(self).key_view() == old(self).key_view(),
            final(self).iterations_view() == old(self).iterations_view(),
            final(self).empty_retries_view() == old(self).empty_retries_view(),
            final(self).usage_view() == old(self).usage_view(),
            final(self).last_content_view() == old(self).last_content_view(),
            final(self).last_reasoning_view() == old(self).last_reasoning_view(),
            final(self).progress_view() == if final_event {
                old(self).progress_view().push((ProgressKind::Final, content@))
            } else {
                old(self).progress_view()
            },
            finishes(a, content@, opt_seq(reasoning), final(self).progress_view(), stop@, old(self).usage_view(), persist, save),
    {
        if final_event {
            self.progress.push(ProgressEvent::FinalResponse { content: content.clone() });
            assert(events_view(self.progress@) =~= events_view(old(self).progress@).push((ProgressKind::Final, content@)));
        }
        assert(self.progress@[0] == old(self).progress@[0]);
        self.phase = TurnPhase::Finished;
        let outcome = TurnOutcome {
            final_content: content,
            reasoning,
            progress: copy_events(&self.progress),
            stop_reason: stop.to_owned(),
            usage: copy_usage(&self.usage),
        };
        TurnAction::Finish { outcome, persist_reply: persist, save }
    }

    /// Before each request: after [`MAX_TOOL_ITERATIONS`] requests the turn
    /// ends with the last tool round's content (`max_iterations`, saved, not stored
    /// again); a cancelled turn ends as `interrupted`, empty and unsaved; otherwise the
    /// next request is due.
    pub fn begin_iteration(&mut self, cancelled: bool) -> (a: TurnAction)
        requires
            old(self).wf(),
            old(self).phase_view() == TurnPhase::Idle,
        ensures
            final(self).wf(),
            final(self).key_view() == old(self).key_view(),
            final(self).usage_view() == old(self).usage_view(),
            final(self).iterations_view() == old(self).iterations_view(),
            final(self).empty_retries_view() == old(self).empty_retries_view(),
            final(self).last_content_view() == old(self).last_content_view(),
            final(self).last_reasoning_view() == old(self).last_reasoning_view(),
            if old(self).iterations_view() >= MAX_TOOL_ITERATIONS {
                &&& final(self).phase_view() == TurnPhase::Finished
                &&& final(self).progress_view() == old(self).progress_view().push((ProgressKind::Final, old(self).last_content_view()))
                &&& finishes(a, old(self).last_content_view(), old(self).last_reasoning_view(),
                    final(self).progress_view(), "max_iterations"@, old(self).usage_view(), false, true)
            } else if cancelled {
                &&& final(self).phase_view() == TurnPhase::Finished
                &&& final(self).progress_view() == old(self).progress_view()
                &&& finishes(a, Seq::empty(), None, old(self).progress_view(), "interrupted"@,
                    old(self).usage_view(), false, false)
            } else {
                &&& a is CallProvider
                &&& final(self).phase_view() == TurnPhase::AwaitingResponse
                &&& final(self).progress_view() == old(self).progress_view()
            },
    {
        if self.iterations >= MAX_TOOL_ITERATIONS {
            let content = self.final_content.clone();
            let reasoning = crate::bus::clone_opt(&self.final_reasoning);
            return self.finish(content, reasoning, "max_iterations", true, false, true);
        }
        if cancelled {
            return self.finish(String::new(), None, "interrupted", false, false, false);
        }
        self.phase = TurnPhase::AwaitingResponse;
        TurnAction::CallProvider
    }

    /// A streamed chunk: emits its reasoning and then its text, each when present and
    /// non-empty, and returns the events emitted.
    pub fn on_chunk(&mut self, reasoning_delta: Option<String>, content_delta: Option<String>) -> (r: Vec<ProgressEvent>)
        requires
            old(self).wf(),
            old(self).phase_view() == TurnPhase::AwaitingResponse
                || old(self).phase_view() == TurnPhase::AwaitingFinalization,
        ensures
            final(self).wf(),
            events_view(r@) == chunk_events(opt_seq(reasoning_delta), opt_seq(content_delta)),
            final(self).progress_view() == old(self).progress_view() + events_view(r@),
            final(self).phase_view() == old(self).phase_view(),
            final(self).key_view() == old(self).key_view(),
            final(self).usage_view() == old(self).usage_view(),
            final(self).iterations_view() == old(self).iterations_view(),
            final(self).empty_retries_view() == old(self).empty_retries_view(),
            final(self).last_content_view() == old(self).last_content_view(),
            final(self).last_reasoning_view() == old(self).last_reasoning_view(),
    {
        let mut out: Vec<ProgressEvent> = Vec::new();
        match reasoning_delta {
            Some(t) => {
                if !t.as_str().is_empty() {
                    out.push(ProgressEvent::ReasoningDelta { text: t });
                }
            },
            None => {},
        }
        match content_delta {
            Some(t) => {
                if !t.as_str().is_empty() {
                    out.push(ProgressEvent::ContentDelta { text: t });
                }
            },
            None => {},
        }
        assert(events_view(out@) =~= chunk_events(opt_seq(reasoning_delta), opt_seq(content_delta)));
        let mut i: usize = 0;
        let ghost p0 = self.progress@;
        while i < out.len()
            invariant
                i <= out@.len(),
                self.progress@.len() == p0.len() + i,
                forall|k: int| 0 <= k < p0.len() ==> #[trigger] self.progress@[k] == p0[k],
                forall|k: int| 0 <= k < i ==> event_view(#[trigger] self.progress@[p0.len() + k]) == event_view(out@[k]),
                self.session_key == old(self).session_key,
                self.phase == old(self).phase,
                self.iterations == old(self).iterations,
                self.empty_retries == old(self).empty_retries,
                self.usage == old(self).usage,
                self.final_content == old(self).final_content,
                self.final_reasoning == old(self).final_reasoning,
                p0 == old(self).progress@,
            decreases out@.len() - i,
        {
            let e = out[i].duplicate();
            self.progress.push(e);
            i = i + 1;
        }
        assert(events_view(self.progress@) =~= events_view(p0) + events_view(out@)) by {
            assert forall|k: int| p0.len() <= k < self.progress@.len() implies
                event_view(#[trigger] self.progress@[k]) == event_view(out@[k - p0.len()]) by {
                assert(self.progress@[p0.len() + (k - p0.len())] == self.progress@[k]);
            }
        }
        out
    }
}

fn reasoning_filtered(r: &Option<String>) -> (o: Option<String>)
    ensures
        opt_seq(o) == match *r {
            Some(c) => if c@.len() > 0 { Some(c@) } else { None },
            None => None,
        },
{
    match r {
        Some(c) => if c.as_str().is_empty() {
            None
        } else {
            Some(c.clone())
        },
        None => None,
    }
}

fn content_text(r: &Option<String>) -> (o: String)
    ensures
        o@ == match *r {
            Some(c) => c@,
            None => Seq::empty(),
        },
{
    match r {
        Some(c) => c.clone(),
        None => String::new(),
    }
}

impl TurnState {
    /// Whether a reply reporting `usage` can be taken: adding its counters to the
    /// turn's stays within `i64` (what [`Self::on_response`] requires).
    pub fn response_fits(&self, usage: &Vec<(String, i64)>) -> (r: bool)
        ensures
            r == accumulate_fits(self.usage_view(), usage_seq(usage@)),
    {
        usage_fits(&self.usage, usage)
    }

    /// A reply to a main-loop request. Its usage is added to the turn's. A cancelled
    /// turn ends as `interrupted`. A reply without tool calls (or with tools not
    /// mounted) ends the turn as `completed` unless its text is blank; a blank one is
    /// retried silently until [`MAX_EMPTY_RETRIES`] blank replies have come, then the
    /// finalization request is due. A reply with tool calls starts a tool round and
    /// emits `ToolInvoked` for each call.
    pub fn on_response(&mut self, response: ProviderResponse, tools_enabled: bool, cancelled: bool) -> (a: TurnAction)
        requires
            old(self).wf(),
            old(self).phase_view() == TurnPhase::AwaitingResponse,
            accumulate_fits(old(self).usage_view(), usage_seq(response.usage@)),
        ensures
            final(self).wf(),
            final(self).key_view() == old(self).key_view(),
            final(self).usage_view() == accumulate(old(self).usage_view(), usage_seq(response.usage@)),
            ({
                let usage = accumulate(old(self).usage_view(), usage_seq(response.usage@));
                let content = content_of(response);
                let reasoning = reasoning_of(response);
                if cancelled {
                    &&& final(self).phase_view() == TurnPhase::Finished
                    &&& final(self).progress_view() == old(self).progress_view()
                    &&& finishes(a, Seq::empty(), None, old(self).progress_view(), "interrupted"@, usage, false, false)
                } else if !(tools_enabled && response.tool_calls@.len() > 0) {
                    if all_ws(content) {
                        &&& final(self).empty_retries_view() == old(self).empty_retries_view() + 1
                        &&& final(self).progress_view() == old(self).progress_view()
                        &&& final(self).last_content_view() == old(self).last_content_view()
                        &&& final(self).last_reasoning_view() == old(self).last_reasoning_view()
                        &&& if final(self).empty_retries_view() < MAX_EMPTY_RETRIES {
                            &&& a is Retry
                            &&& final(self).phase_view() == TurnPhase::Idle
                            &&& final(self).iterations_view() == old(self).iterations_view() + 1
                        } else {
                            &&& a is CallFinalization
                            &&& final(self).phase_view() == TurnPhase::AwaitingFinalization
                            &&& final(self).iterations_view() == old(self).iterations_view()
                        }
                    } else {
                        &&& final(self).phase_view() == TurnPhase::Finished
                        &&& final(self).progress_view() == old(self).progress_view().push((ProgressKind::Final, content))
                        &&& finishes(a, content, reasoning, final(self).progress_view(), "completed"@, usage, true, true)
                    }
                } else {
                    &&& final(self).phase_view() == TurnPhase::Idle
                    &&& final(self).iterations_view() == old(self).iterations_view() + 1
                    &&& final(self).empty_retries_view() == old(self).empty_retries_view()
                    &&& final(self).last_content_view() == content
                    &&& final(self).last_reasoning_view() == reasoning
                    &&& final(self).progress_view() == old(self).progress_view() + tool_events(response.tool_calls@)
                    &&& match a {
                        TurnAction::RunTools { content: c, reasoning: r, calls } => {
                            &&& c@ == content
                            &&& opt_seq(r) == reasoning
                            &&& calls@ == response.tool_calls@
                        },
                        _ => false,
                    }
                }
            }),
    {
        accumulate_usage(&mut self.usage, &response.usage);
        if cancelled {
            return self.finish(String::new(), None, "interrupted", false, false, false);
        }
        let content = content_text(&response.content);
        let reasoning = reasoning_filtered(&response.reasoning_content);
        let run_tools = tools_enabled && response.tool_calls.len() > 0;
        if !run_tools {
            let cs = chars_of(content.as_str());
            if is_blank(&cs) {
                self.empty_retries = self.empty_retries + 1;
                if self.empty_retries < MAX_EMPTY_RETRIES {
                    self.iterations = self.iterations + 1;
                    self.phase = TurnPhase::Idle;
                    return TurnAction::Retry;
                }
                self.phase = TurnPhase::AwaitingFinalization;
                return TurnAction::CallFinalization;
            }
            return self.finish(content, reasoning, "completed", true, true, true);
        }
        let ghost p0 = self.progress@;
        let ghost usage_before = self.usage;
        let calls = response.tool_calls;
        let mut i: usize = 0;
        while i < calls.len()
            invariant
                i <= calls@.len(),
                self.progress@.len() == p0.len() + i,
                forall|k: int| 0 <= k < p0.len() ==> #[trigger] self.progress@[k] == p0[k],
                forall|k: int| 0 <= k < i ==> event_view(#[trigger] self.progress@[p0.len() + k])
                    == (ProgressKind::ToolInvoked, calls@[k].name@),
                self.iterations == old(self).iterations,
                self.empty_retries == old(self).empty_retries,
                self.session_key == old(self).session_key,
                self.phase == old(self).phase,
                self.usage == usage_before,
                p0 == old(self).progress@,
            decreases calls@.len() - i,
        {
            self.progress.push(ProgressEvent::ToolInvoked { name: calls[i].name.clone() });
            i = i + 1;
        }
        assert(events_view(self.progress@) =~= events_view(p0) + tool_events(calls@)) by {
            assert forall|k: int| p0.len() <= k < self.progress@.len() implies
                event_view(#[trigger] self.progress@[k]) == tool_events(calls@)[k - p0.len()] by {
                assert(self.progress@[p0.len() + (k - p0.len())] == self.progress@[k]);
            }
        }
        self.final_content = content.clone();
        self.final_reasoning = crate::bus::clone_opt(&reasoning);
        self.iterations = self.iterations + 1;
        self.phase = TurnPhase::Idle;
        TurnAction::RunTools { content, reasoning, calls }
    }

    /// The reply to the finalization request: its usage is added, and the turn ends
    /// with its text as `completed`, or, when that is blank, with
    /// [`EMPTY_FINAL_RESPONSE_MESSAGE`] as `empty_final_response`.
    pub fn on_finalization_response(&mut self, response: ProviderResponse) -> (a: TurnAction)
        requires
            old(self).wf(),
            old(self).phase_view() == TurnPhase::AwaitingFinalization,
            accumulate_fits(old(self).usage_view(), usage_seq(response.usage@)),
        ensures
            final(self).wf(),
            final(self).phase_view() == TurnPhase::Finished,
            final(self).key_view() == old(self).key_view(),
            final(self).usage_view() == accumulate(old(self).usage_view(), usage_seq(response.usage@)),
            ({
                let usage = accumulate(old(self).usage_view(), usage_seq(response.usage@));
                let content = content_of(response);
                let text = if all_ws(content) { EMPTY_FINAL_RESPONSE_MESSAGE@ } else { content };
                let stop = if all_ws(content) { "empty_final_response"@ } else { "completed"@ };
                &&& final(self).progress_view() == old(self).progress_view().push((ProgressKind::Final, text))
                &&& finishes(a, text, reasoning_of(response), final(self).progress_view(), stop, usage, true, true)
            }),
    {
        accumulate_usage(&mut self.usage, &response.usage);
        let content = content_text(&response.content);
        let reasoning = reasoning_filtered(&response.reasoning_content);
        let cs = chars_of(content.as_str());
        if is_blank(&cs) {
            self.finish(EMPTY_FINAL_RESPONSE_MESSAGE.to_owned(), reasoning, "empty_final_response", true, true, true)
        } else {
            self.finish(content, reasoning, "completed", true, true, true)
        }
    }
}

} // verus!

verus! {

/// What `serde_json::from_str` reports for `text` read as a JSON value: `None` when
/// it parses, else the error's text.
pub uninterp spec fn json_parse_error(text: Seq<char>) -> Option<Seq<char>>;

/// Whether `text` parses as a JSON value (`serde_json::from_str`), and if not the
/// error's text.
#[verifier::external_body]
fn check_json(text: &str) -> (r: Option<String>)
    ensures
        crate::bus::opt_view(r) == json_parse_error(text@),
{
    match serde_json::from_str::<serde_json::Value>(text) {
        Ok(_) => None,
        Err(e) => Some(e.to_string()),
    }
}

/// The arguments a tool call is run with: `{}` for blank arguments, the arguments
/// when they are JSON, else the error text handed back to the model instead.
pub open spec fn tool_arguments_spec(name: Seq<char>, arguments: Seq<char>) -> Result<Seq<char>, Seq<char>> {
    if all_ws(arguments) {
        Ok("{}"@)
    } else {
        match json_parse_error(arguments) {
            None => Ok(arguments),
            Some(e) => Err("工具 '"@ + name + "' 参数不是合法 JSON: "@ + e),
        }
    }
}

/// The arguments to run `call` with, or the text to store as its result when they
/// are not JSON.
pub fn tool_arguments(call: &ToolCall) -> (r: Result<String, String>)
    ensures
        match r {
            Ok(a) => tool_arguments_spec(call.name@, call.arguments@) == Ok::<Seq<char>, Seq<char>>(a@),
            Err(e) => tool_arguments_spec(call.name@, call.arguments@) == Err::<Seq<char>, Seq<char>>(e@),
        },
{
    let cs = chars_of(call.arguments.as_str());
    if is_blank(&cs) {
        return Ok("{}".to_owned());
    }
    match check_json(call.arguments.as_str()) {
        None => Ok(call.arguments.clone()),
        Some(e) => {
            let mut s = String::new();
            s.append("工具 '");
            s.append(call.name.as_str());
            s.append("' 参数不是合法 JSON: ");
            s.append(e.as_str());
            Err(s)
        },
    }
}

/// The text stored for a tool call's result: the tool's output or error text, or a
/// marker when that is blank.
pub fn tool_result_for(call: &ToolCall, result: Result<String, String>) -> (r: String)
    ensures
        r@ == tool_result_spec(call.name@, match result { Ok(c) => c@, Err(e) => e@ }),
{
    let content = match result {
        Ok(c) => c,
        Err(e) => e,
    };
    ensure_nonempty_tool_result(call.name.as_str(), content)
}

/// The OpenAI `tool_calls` entry of a call (keys in JSON object order).
pub open spec fn tool_call_json(c: ToolCall) -> Seq<char> {
    "{\"function\":{\"arguments\":"@ + crate::text::json_quoted(c.arguments@) + ",\"name\":"@
        + crate::text::json_quoted(c.name@) + "},\"id\":"@ + crate::text::json_quoted(c.id@)
        + ",\"type\":\"function\"}"@
}

/// The entries of calls, each as JSON text.
pub open spec fn tool_call_jsons(calls: Seq<ToolCall>) -> Seq<Seq<char>> {
    calls.map_values(|c: ToolCall| tool_call_json(c))
}

/// The calls as the OpenAI `tool_calls` array, stored with the assistant turn so the
/// provider sees them again.
pub fn tool_calls_to_json(calls: &Vec<ToolCall>) -> (r: String)
    ensures
        r@ == "["@ + crate::text::join_seqs(tool_call_jsons(calls@), ","@) + "]"@,
{
    let mut parts: Vec<String> = Vec::new();
    let mut i: usize = 0;
    while i < calls.len()
        invariant
            i <= calls@.len(),
            crate::text::texts(parts@) == tool_call_jsons(calls@.take(i as int)),
        decreases calls@.len() - i,
    {
        let c = &calls[i];
        let mut s = String::new();
        s.append("{\"function\":{\"arguments\":");
        s.append(crate::text::json_quote(c.arguments.as_str()).as_str());
        s.append(",\"name\":");
        s.append(crate::text::json_quote(c.name.as_str()).as_str());
        s.append("},\"id\":");
        s.append(crate::text::json_quote(c.id.as_str()).as_str());
        s.append(",\"type\":\"function\"}");
        let ghost before = parts@;
        parts.push(s);
        proof {
            assert(crate::text::texts(parts@) =~= crate::text::texts(before).push(s@));
            assert(tool_call_jsons(calls@.take(i + 1)) =~= tool_call_jsons(calls@.take(i as int)).push(tool_call_json(calls@[i as int])));
        }
        i = i + 1;
    }
    assert(calls@.take(calls@.len() as int) =~= calls@);
    let mut out = String::new();
    out.append("[");
    let body = crate::text::join_strings(&parts, ",");
    out.append(body.as_str());
    out.append("]");
    out
}

} // verus!
