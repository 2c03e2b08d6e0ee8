//! Background subagents: their status, display label, partial-progress summary, and
//! the registry of running tasks by session (the cancellation primitive of `/stop`).

use vstd::prelude::*;

use crate::bus::InboundMessage;
use crate::text::{chars_of, json_quote, json_quoted, push_str, str_eq, string_from};

verus! {

/// Where a subagent's execution stands.
#[derive(PartialEq, Eq, Structural, Clone, Copy, Debug)]
pub enum SubagentPhase {
    Initializing,
    AwaitingTools,
    ToolsCompleted,
    FinalResponse,
    Done,
    Error,
}

/// A tool event of a subagent run.
pub struct ToolEvent {
    pub name: String,
    /// `ok` or `error`.
    pub status: String,
    pub detail: String,
}

/// What a subagent run produced, as far as the partial progress needs.
pub struct SubagentRunResult {
    pub tool_events: Vec<ToolEvent>,
    pub error: Option<String>,
}

/// The label shown for a subagent: the explicit label, else the task's first 30
/// characters, with `...` when it is longer.
pub open spec fn label_spec(task: Seq<char>, label: Option<Seq<char>>) -> Seq<char> {
    match label {
        Some(l) => l,
        None => if task.len() > 30 { task.subrange(0, 30) + "..."@ } else { task },
    }
}

/// The label shown for a subagent.
pub fn derive_label(task: &str, label: Option<&str>) -> (r: String)
    ensures
        r@ == label_spec(task@, crate::paths::opt_str(label)),
{
    match label {
        Some(l) => l.to_owned(),
        None => {
            let cs = chars_of(task);
            if cs.len() > 30 {
                let mut out: Vec<char> = Vec::new();
                let mut i: usize = 0;
                while i < 30
                    invariant
                        i <= 30 < cs@.len(),
                        out@ == cs@.subrange(0, i as int),
                    decreases 30 - i,
                {
                    out.push(cs[i]);
                    i = i + 1;
                }
                push_str(&mut out, "...");
                string_from(&out)
            } else {
                task.to_owned()
            }
        },
    }
}

/// The events with status `ok`, in order.
pub open spec fn completed(e: Seq<ToolEvent>) -> Seq<ToolEvent>
    decreases e.len(),
{
    if e.len() == 0 {
        Seq::empty()
    } else if e.last().status@ == "ok"@ {
        completed(e.drop_last()).push(e.last())
    } else {
        completed(e.drop_last())
    }
}

/// The last event with status `error`.
pub open spec fn last_failure(e: Seq<ToolEvent>) -> Option<ToolEvent>
    decreases e.len(),
{
    if e.len() == 0 {
        None
    } else if e.last().status@ == "error"@ {
        Some(e.last())
    } else {
        last_failure(e.drop_last())
    }
}

/// `- <name>: <detail>` lines for the events, each after a line break.
pub open spec fn step_lines(e: Seq<ToolEvent>) -> Seq<char>
    decreases e.len(),
{
    if e.len() == 0 {
        Seq::empty()
    } else {
        step_lines(e.drop_last()) + "\n- "@ + e.last().name@ + ": "@ + e.last().detail@
    }
}

/// The partial progress of a failed run: the last three completed steps, then the
/// last failed tool event (or the run's error); without either, the error or a
/// fallback sentence.
pub open spec fn partial_progress_spec(r: SubagentRunResult) -> Seq<char> {
    let done = completed(r.tool_events@);
    let shown = if done.len() > 3 { done.subrange(done.len() - 3, done.len() as int) } else { done };
    let head = if done.len() > 0 { "Completed steps:"@ + step_lines(shown) } else { Seq::<char>::empty() };
    let sep = if done.len() > 0 { "\n\n"@ } else { Seq::<char>::empty() };
    match last_failure(r.tool_events@) {
        Some(f) => head + sep + "Failure:\n- "@ + f.name@ + ": "@ + f.detail@,
        None => match r.error {
            Some(err) => head + sep + "Failure:\n- "@ + err@,
            None => if done.len() > 0 { head } else { "Error: subagent execution failed."@ },
        },
    }
}

/// The partial progress of a failed subagent run.
pub fn format_partial_progress(result: &SubagentRunResult) -> (r: String)
    ensures
        r@ == partial_progress_spec(*result),
{
    let events = &result.tool_events;
    let mut done: Vec<usize> = Vec::new();
    let mut failure: Option<usize> = None;
    let mut i: usize = 0;
    while i < events.len()
        invariant
            i <= events@.len(),
            done@.len() == completed(events@.subrange(0, i as int)).len(),
            forall|k: int| 0 <= k < done@.len() ==> #[trigger] done@[k] < events@.len()
                && events@[done@[k] as int] == completed(events@.subrange(0, i as int))[k],
            match failure {
                Some(f) => f < i && last_failure(events@.subrange(0, i as int)) == Some(events@[f as int]),
                None => last_failure(events@.subrange(0, i as int)) is None,
            },
        decreases events@.len() - i,
    {
        let ghost pre = events@.subrange(0, i as int);
        let ghost next = events@.subrange(0, i + 1);
        proof {
            assert(next.drop_last() =~= pre);
            assert(next.last() == events@[i as int]);
        }
        if str_eq(events[i].status.as_str(), "ok") {
            let ghost before = done@;
            done.push(i);
            proof {
                assert forall|k: int| 0 <= k < done@.len() implies #[trigger] done@[k] < events@.len()
                    && events@[done@[k] as int] == completed(next)[k] by {
                    if k < before.len() {
                        assert(done@[k] == before[k]);
                    }
                }
            }
        }
        if str_eq(events[i].status.as_str(), "error") {
            failure = Some(i);
        }
        i = i + 1;
    }
    assert(events@.subrange(0, events@.len() as int) =~= events@);
    let ghost all_done = completed(events@);
    let start: usize = if done.len() > 3 { done.len() - 3 } else { 0 };
    let mut out = String::new();
    let has_lines = done.len() > 0;
    if has_lines {
        out.append("Completed steps:");
        let mut j: usize = start;
        let ghost shown = all_done.subrange(start as int, done@.len() as int);
        while j < done.len()
            invariant
                start <= j <= done@.len(),
                shown == all_done.subrange(start as int, done@.len() as int),
                all_done == completed(events@),
                done@.len() == all_done.len(),
                forall|k: int| 0 <= k < done@.len() ==> #[trigger] done@[k] < events@.len()
                    && events@[done@[k] as int] == all_done[k],
                out@ == "Completed steps:"@ + step_lines(all_done.subrange(start as int, j as int)),
            decreases done@.len() - j,
        {
            let e = &events[done[j]];
            out.append("\n- ");
            out.append(e.name.as_str());
            out.append(": ");
            out.append(e.detail.as_str());
            proof {
                let nx = all_done.subrange(start as int, j + 1);
                assert(nx.drop_last() =~= all_done.subrange(start as int, j as int));
                assert(nx.last() == all_done[j as int]);
            }
            j = j + 1;
        }
        proof {
            if all_done.len() <= 3 {
                assert(all_done.subrange(0, all_done.len() as int) =~= all_done);
            }
        }
    }
    match failure {
        Some(f) => {
            if has_lines {
                out.append("\n\n");
            }
            out.append("Failure:\n- ");
            out.append(events[f].name.as_str());
            out.append(": ");
            out.append(events[f].detail.as_str());
            out
        },
        None => match &result.error {
            Some(err) => {
                if has_lines {
                    out.append("\n\n");
                }
                out.append("Failure:\n- ");
                out.append(err.as_str());
                out
            },
            None => {
                if has_lines {
                    out
                } else {
                    "Error: subagent execution failed.".to_owned()
                }
            },
        },
    }
}

/// The live status of a subagent.
pub struct SubagentStatus {
    pub task_id: String,
    pub label: String,
    pub task_description: String,
    /// Start time (ms since the epoch).
    pub started_at_ms: i64,
    pub phase: SubagentPhase,
    pub iteration: u32,
    pub tool_events: Vec<ToolEvent>,
    pub usage: Vec<(String, i64)>,
    pub stop_reason: Option<String>,
    pub error: Option<String>,
}

impl SubagentStatus {
    /// A status in phase `Initializing`, with no events yet.
    pub fn new(task_id: String, label: String, task_description: String, started_at_ms: i64) -> (s: Self)
        ensures
            s.task_id == task_id,
            s.label == label,
            s.task_description == task_description,
            s.started_at_ms == started_at_ms,
            s.phase == SubagentPhase::Initializing,
            s.iteration == 0,
            s.tool_events@.len() == 0,
            s.usage@.len() == 0,
            s.stop_reason is None,
            s.error is None,
    {
        SubagentStatus {
            task_id,
            label,
            task_description,
            started_at_ms,
            phase: SubagentPhase::Initializing,
            iteration: 0,
            tool_events: Vec::new(),
            usage: Vec::new(),
            stop_reason: None,
            error: None,
        }
    }
}

/// A registered task.
pub struct TaskEntry {
    pub session_key: Option<String>,
    /// Finished, but not yet cleaned up.
    pub done: bool,
    pub status: SubagentStatus,
}

/// Whether task `id` is registered.
pub open spec fn has_task(t: Seq<(String, TaskEntry)>, id: Seq<char>) -> bool {
    exists|i: int| 0 <= i < t.len() && #[trigger] t[i].0@ == id
}

/// Whether task `id` is registered and still running.
pub open spec fn running(t: Seq<(String, TaskEntry)>, id: Seq<char>) -> bool {
    exists|i: int| 0 <= i < t.len() && #[trigger] t[i].0@ == id && !t[i].1.done
}

/// Whether task `id` is indexed under session `key`.
pub open spec fn indexed(s: Seq<(String, Vec<String>)>, key: Seq<char>, id: Seq<char>) -> bool {
    exists|i: int, j: int| 0 <= i < s.len() && 0 <= j < s[i].1@.len() && s[i].0@ == key && #[trigger] s[i].1@[j]@ == id
}

/// Whether task `id` is registered, running, started by session `key`, with status
/// `st`.
pub open spec fn holds_task(t: Seq<(String, TaskEntry)>, id: Seq<char>, key: Option<Seq<char>>, st: SubagentStatus) -> bool {
    exists|i: int| 0 <= i < t.len() && #[trigger] t[i].0@ == id && !t[i].1.done
        && crate::bus::opt_view(t[i].1.session_key) == key && t[i].1.status == st
}

/// Whether the ids are distinct.
pub open spec fn distinct_ids(t: Seq<(String, TaskEntry)>) -> bool {
    forall|i: int, j: int| 0 <= i < j < t.len() ==> (#[trigger] t[i]).0@ != (#[trigger] t[j]).0@
}

/// Whether the session keys, and the ids under each, are distinct.
pub open spec fn distinct_index(s: Seq<(String, Vec<String>)>) -> bool {
    &&& forall|i: int, j: int| 0 <= i < j < s.len() ==> (#[trigger] s[i]).0@ != (#[trigger] s[j]).0@
    &&& forall|i: int| 0 <= i < s.len() ==> {
        &&& (#[trigger] s[i]).1@.len() > 0
        &&& forall|a: int, b: int| 0 <= a < b < s[i].1@.len() ==> s[i].1@[a]@ != s[i].1@[b]@
    }
}

/// The tasks that run in the background, and which sessions started them.
pub struct SubagentRegistry {
    tasks: Vec<(String, TaskEntry)>,
    sessions: Vec<(String, Vec<String>)>,
}

impl SubagentRegistry {
    pub closed spec fn tasks_view(&self) -> Seq<(String, TaskEntry)> {
        self.tasks@
    }

    pub closed spec fn index_view(&self) -> Seq<(String, Vec<String>)> {
        self.sessions@
    }

    pub open spec fn wf(&self) -> bool {
        distinct_ids(self.tasks_view()) && distinct_index(self.index_view())
    }

    /// An empty registry.
    pub fn new() -> (r: Self)
        ensures
            r.wf(),
            r.tasks_view().len() == 0,
            r.index_view().len() == 0,
    {
        SubagentRegistry { tasks: Vec::new(), sessions: Vec::new() }
    }

    fn task_index(&self, id: &str) -> (r: Option<usize>)
        ensures
            match r {
                Some(i) => i < self.tasks@.len() && self.tasks@[i as int].0@ == id@,
                None => !has_task(self.tasks@, id@),
            },
    {
        let mut i: usize = 0;
        while i < self.tasks.len()
            invariant
                i <= self.tasks@.len(),
                forall|k: int| 0 <= k < i ==> self.tasks@[k].0@ != id@,
            decreases self.tasks@.len() - i,
        {
            if str_eq(self.tasks[i].0.as_str(), id) {
                return Some(i);
            }
            i = i + 1;
        }
        None
    }

    fn session_index(&self, key: &str) -> (r: Option<usize>)
        ensures
            match r {
                Some(i) => i < self.sessions@.len() && self.sessions@[i as int].0@ == key@,
                None => forall|k: int| 0 <= k < self.sessions@.len() ==> self.sessions@[k].0@ != key@,
            },
    {
        let mut i: usize = 0;
        while i < self.sessions.len()
            invariant
                i <= self.sessions@.len(),
                forall|k: int| 0 <= k < i ==> self.sessions@[k].0@ != key@,
            decreases self.sessions@.len() - i,
        {
            if str_eq(self.sessions[i].0.as_str(), key) {
                return Some(i);
            }
            i = i + 1;
        }
        None
    }

    /// Registered tasks, finished or not (until cleaned up).
    pub fn get_running_count(&self) -> (r: usize)
        ensures
            r == self.tasks_view().len(),
    {
        self.tasks.len()
    }
}

/// The ids under session `key` (none when the session is not indexed).
pub open spec fn ids_under(s: Seq<(String, Vec<String>)>, key: Seq<char>) -> Seq<String> {
    if exists|i: int| 0 <= i < s.len() && #[trigger] s[i].0@ == key {
        s[choose|i: int| 0 <= i < s.len() && #[trigger] s[i].0@ == key].1@
    } else {
        Seq::empty()
    }
}

/// The running tasks among `ids`.
pub open spec fn running_ids(t: Seq<(String, TaskEntry)>, ids: Seq<String>) -> Seq<String> {
    ids.filter(|x: String| running(t, x@))
}

impl SubagentRegistry {
    /// Registers a spawned task, under its session when it has one (replacing a task
    /// with the same id).
    pub fn register(&mut self, task_id: &str, session_key: Option<&str>, status: SubagentStatus)
        requires
            old(self).wf(),
        ensures
            final(self).wf(),
            forall|x: Seq<char>| #[trigger] has_task(final(self).tasks_view(), x) == (has_task(old(self).tasks_view(), x) || x == task_id@),
            forall|x: Seq<char>| x != task_id@ ==> #[trigger] running(final(self).tasks_view(), x) == running(old(self).tasks_view(), x),
            running(final(self).tasks_view(), task_id@),
            holds_task(final(self).tasks_view(), task_id@, crate::paths::opt_str(session_key), status),
            forall|k: Seq<char>, x: Seq<char>| #[trigger] indexed(final(self).index_view(), k, x)
                == (indexed(old(self).index_view(), k, x) || (crate::paths::opt_str(session_key) == Some(k) && x == task_id@)),
    {
        let ghost st = status;
        match session_key {
            Some(key) => self.index_add(key, task_id),
            None => {},
        }
        let entry = TaskEntry {
            session_key: match session_key { Some(k) => Some(k.to_owned()), None => None },
            done: false,
            status,
        };
        let ghost old_t = self.tasks@;
        match self.task_index(task_id) {
            Some(i) => {
                self.tasks.set(i, (task_id.to_owned(), entry));
                proof {
                    let nt = self.tasks@;
                    assert forall|a: int, b: int| 0 <= a < b < nt.len() implies (#[trigger] nt[a]).0@ != (#[trigger] nt[b]).0@ by {
                        assert(old_t[a].0@ != old_t[b].0@);
                    }
                    assert forall|x: Seq<char>| #[trigger] has_task(nt, x) == (has_task(old_t, x) || x == task_id@) by {
                        if has_task(old_t, x) {
                            let j = choose|j: int| 0 <= j < old_t.len() && #[trigger] old_t[j].0@ == x;
                            assert(nt[j].0@ == x);
                        }
                        if has_task(nt, x) {
                            let j = choose|j: int| 0 <= j < nt.len() && #[trigger] nt[j].0@ == x;
                            if j != i {
                                assert(old_t[j].0@ == x);
                            }
                        }
                        if x == task_id@ {
                            assert(nt[i as int].0@ == x);
                        }
                    }
                    assert forall|x: Seq<char>| x != task_id@ implies #[trigger] running(nt, x) == running(old_t, x) by {
                        if running(old_t, x) {
                            let j = choose|j: int| 0 <= j < old_t.len() && #[trigger] old_t[j].0@ == x && !old_t[j].1.done;
                            assert(nt[j] == old_t[j]);
                        }
                        if running(nt, x) {
                            let j = choose|j: int| 0 <= j < nt.len() && #[trigger] nt[j].0@ == x && !nt[j].1.done;
                            assert(nt[j] == old_t[j]);
                        }
                    }
                    assert(nt[i as int].0@ == task_id@ && !nt[i as int].1.done);
                    assert(nt[i as int].1.status == st);
                }
            },
            None => {
                self.tasks.push((task_id.to_owned(), entry));
                proof {
                    let nt = self.tasks@;
                    assert forall|a: int, b: int| 0 <= a < b < nt.len() implies (#[trigger] nt[a]).0@ != (#[trigger] nt[b]).0@ by {
                        if b == old_t.len() {
                            assert(nt[a] == old_t[a]);
                        } else {
                            assert(old_t[a].0@ != old_t[b].0@);
                        }
                    }
                    assert forall|x: Seq<char>| #[trigger] has_task(nt, x) == (has_task(old_t, x) || x == task_id@) by {
                        if has_task(old_t, x) {
                            let j = choose|j: int| 0 <= j < old_t.len() && #[trigger] old_t[j].0@ == x;
                            assert(nt[j].0@ == x);
                        }
                        if has_task(nt, x) {
                            let j = choose|j: int| 0 <= j < nt.len() && #[trigger] nt[j].0@ == x;
                            if j < old_t.len() {
                                assert(old_t[j].0@ == x);
                            }
                        }
                        if x == task_id@ {
                            assert(nt[old_t.len() as int].0@ == x);
                        }
                    }
                    assert forall|x: Seq<char>| x != task_id@ implies #[trigger] running(nt, x) == running(old_t, x) by {
                        if running(old_t, x) {
                            let j = choose|j: int| 0 <= j < old_t.len() && #[trigger] old_t[j].0@ == x && !old_t[j].1.done;
                            assert(nt[j] == old_t[j]);
                        }
                        if running(nt, x) {
                            let j = choose|j: int| 0 <= j < nt.len() && #[trigger] nt[j].0@ == x && !nt[j].1.done;
                            assert(nt[j] == old_t[j]);
                        }
                    }
                    assert(nt[old_t.len() as int].0@ == task_id@);
                    assert(nt[old_t.len() as int].1.status == st);
                }
            },
        }
    }

    /// Adds `id` under session `key`.
    fn index_add(&mut self, key: &str, id: &str)
        requires
            distinct_index(old(self).index_view()),
        ensures
            distinct_index(final(self).index_view()),
            final(self).tasks_view() == old(self).tasks_view(),
            forall|k: Seq<char>, x: Seq<char>| #[trigger] indexed(final(self).index_view(), k, x)
                == (indexed(old(self).index_view(), k, x) || (k == key@ && x == id@)),
    {
        let ghost old_s = self.sessions@;
        match self.session_index(key) {
            Some(i) => {
                let mut ids = self.sessions[i].1.clone();
                let ghost old_ids = ids@;
                assert(old_ids == old_s[i as int].1@);
                let mut present = false;
                let mut j: usize = 0;
                while j < ids.len()
                    invariant
                        j <= ids@.len(),
                        ids@ == old_ids,
                        !present ==> forall|m: int| 0 <= m < j ==> ids@[m]@ != id@,
                        present ==> exists|m: int| 0 <= m < ids@.len() && ids@[m]@ == id@,
                    decreases ids@.len() - j,
                {
                    if str_eq(ids[j].as_str(), id) {
                        present = true;
                    }
                    j = j + 1;
                }
                if present {
                    proof {
                        assert forall|k: Seq<char>, x: Seq<char>| #[trigger] indexed(self.sessions@, k, x)
                            == (indexed(old_s, k, x) || (k == key@ && x == id@)) by {
                            if k == key@ && x == id@ {
                                let m = choose|m: int| 0 <= m < ids@.len() && ids@[m]@ == id@;
                                assert(old_s[i as int].1@[m]@ == x);
                            }
                        }
                    }
                    return;
                }
                ids.push(id.to_owned());
                let name = self.sessions[i].0.clone();
                self.sessions.set(i, (name, ids));
                proof {
                    let ns = self.sessions@;
                    assert forall|a: int, b: int| 0 <= a < b < ns.len() implies (#[trigger] ns[a]).0@ != (#[trigger] ns[b]).0@ by {
                        assert(old_s[a].0@ != old_s[b].0@);
                    }
                    assert forall|a: int| 0 <= a < ns.len() implies {
                        &&& (#[trigger] ns[a]).1@.len() > 0
                        &&& forall|p: int, q: int| 0 <= p < q < ns[a].1@.len() ==> ns[a].1@[p]@ != ns[a].1@[q]@
                    } by {
                        if a == i {
                            assert forall|p: int, q: int| 0 <= p < q < ns[a].1@.len() implies ns[a].1@[p]@ != ns[a].1@[q]@ by {
                                if q == old_ids.len() {
                                    assert(ns[a].1@[p] == old_ids[p]);
                                } else {
                                    assert(ns[a].1@[p] == old_ids[p] && ns[a].1@[q] == old_ids[q]);
                                }
                            }
                        } else {
                            assert(ns[a] == old_s[a]);
                        }
                    }
                    assert forall|k: Seq<char>, x: Seq<char>| #[trigger] indexed(ns, k, x)
                        == (indexed(old_s, k, x) || (k == key@ && x == id@)) by {
                        if indexed(old_s, k, x) {
                            let (a, b) = choose|a: int, b: int| 0 <= a < old_s.len() && 0 <= b < old_s[a].1@.len()
                                && old_s[a].0@ == k && #[trigger] old_s[a].1@[b]@ == x;
                            if a == i {
                                assert(ns[a].1@[b] == old_ids[b]);
                            } else {
                                assert(ns[a] == old_s[a]);
                            }
                            assert(ns[a].1@[b]@ == x);
                        }
                        if indexed(ns, k, x) {
                            let (a, b) = choose|a: int, b: int| 0 <= a < ns.len() && 0 <= b < ns[a].1@.len()
                                && ns[a].0@ == k && #[trigger] ns[a].1@[b]@ == x;
                            if a == i {
                                if b < old_ids.len() {
                                    assert(ns[a].1@[b] == old_ids[b]);
                                    assert(old_s[a].1@[b]@ == x);
                                }
                            } else {
                                assert(ns[a] == old_s[a]);
                                assert(old_s[a].1@[b]@ == x);
                            }
                        }
                        if k == key@ && x == id@ {
                            assert(ns[i as int].1@[old_ids.len() as int]@ == x);
                        }
                    }
                }
            },
            None => {
                let mut ids: Vec<String> = Vec::new();
                ids.push(id.to_owned());
                self.sessions.push((key.to_owned(), ids));
                proof {
                    let ns = self.sessions@;
                    let n = old_s.len() as int;
                    assert forall|a: int, b: int| 0 <= a < b < ns.len() implies (#[trigger] ns[a]).0@ != (#[trigger] ns[b]).0@ by {
                        if b == n {
                            assert(ns[a] == old_s[a]);
                        } else {
                            assert(old_s[a].0@ != old_s[b].0@);
                        }
                    }
                    assert forall|a: int| 0 <= a < ns.len() implies {
                        &&& (#[trigger] ns[a]).1@.len() > 0
                        &&& forall|p: int, q: int| 0 <= p < q < ns[a].1@.len() ==> ns[a].1@[p]@ != ns[a].1@[q]@
                    } by {
                        if a < n {
                            assert(ns[a] == old_s[a]);
                        }
                    }
                    assert forall|k: Seq<char>, x: Seq<char>| #[trigger] indexed(ns, k, x)
                        == (indexed(old_s, k, x) || (k == key@ && x == id@)) by {
                        if indexed(old_s, k, x) {
                            let (a, b) = choose|a: int, b: int| 0 <= a < old_s.len() && 0 <= b < old_s[a].1@.len()
                                && old_s[a].0@ == k && #[trigger] old_s[a].1@[b]@ == x;
                            assert(ns[a] == old_s[a]);
                            assert(ns[a].1@[b]@ == x);
                        }
                        if indexed(ns, k, x) {
                            let (a, b) = choose|a: int, b: int| 0 <= a < ns.len() && 0 <= b < ns[a].1@.len()
                                && ns[a].0@ == k && #[trigger] ns[a].1@[b]@ == x;
                            if a < n {
                                assert(ns[a] == old_s[a]);
                                assert(old_s[a].1@[b]@ == x);
                            }
                        }
                        if k == key@ && x == id@ {
                            assert(ns[n].1@[0]@ == x);
                        }
                    }
                }
            },
        }
    }
}

/// The session task `id` was registered under.
pub open spec fn session_of(t: Seq<(String, TaskEntry)>, id: Seq<char>) -> Option<Seq<char>> {
    if has_task(t, id) {
        crate::bus::opt_view(t[choose|i: int| 0 <= i < t.len() && #[trigger] t[i].0@ == id].1.session_key)
    } else {
        None
    }
}

/// Whether `x` is among the texts of `ids`.
pub open spec fn among(ids: Seq<String>, x: Seq<char>) -> bool {
    exists|m: int| 0 <= m < ids.len() && #[trigger] ids[m]@ == x
}

impl SubagentRegistry {
    fn is_running(&self, id: &str) -> (r: bool)
        requires
            distinct_ids(self.tasks@),
        ensures
            r == running(self.tasks@, id@),
    {
        match self.task_index(id) {
            Some(i) => {
                proof {
                    if running(self.tasks@, id@) {
                        let j = choose|j: int| 0 <= j < self.tasks@.len() && #[trigger] self.tasks@[j].0@ == id@ && !self.tasks@[j].1.done;
                        if j != i {
                            if j < i {
                                assert(self.tasks@[j].0@ != self.tasks@[i as int].0@);
                            } else {
                                assert(self.tasks@[i as int].0@ != self.tasks@[j].0@);
                            }
                        }
                    }
                }
                !self.tasks[i].1.done
            },
            None => false,
        }
    }

    /// Marks task `id` finished (phase `Done`); it stays registered until cleaned up.
    pub fn mark_done(&mut self, task_id: &str)
        requires
            old(self).wf(),
        ensures
            final(self).wf(),
            final(self).index_view() == old(self).index_view(),
            forall|x: Seq<char>| #[trigger] has_task(final(self).tasks_view(), x) == has_task(old(self).tasks_view(), x),
            forall|x: Seq<char>| #[trigger] running(final(self).tasks_view(), x) == (running(old(self).tasks_view(), x) && x != task_id@),
    {
        let ghost old_t = self.tasks@;
        match self.task_index(task_id) {
            None => {
                proof {
                    assert forall|x: Seq<char>| #[trigger] running(old_t, x) implies x != task_id@ by {
                        if x == task_id@ {
                            let j = choose|j: int| 0 <= j < old_t.len() && #[trigger] old_t[j].0@ == x && !old_t[j].1.done;
                        }
                    }
                }
            },
            Some(i) => {
                let (name, mut entry) = self.tasks.remove(i);
                entry.done = true;
                entry.status.phase = SubagentPhase::Done;
                self.tasks.insert(i, (name, entry));
                proof {
                    let nt = self.tasks@;
                    assert forall|k: int| 0 <= k < nt.len() && k != i implies nt[k] == old_t[k] by {}
                    assert(nt[i as int].0 == old_t[i as int].0);
                    assert forall|a: int, b: int| 0 <= a < b < nt.len() implies (#[trigger] nt[a]).0@ != (#[trigger] nt[b]).0@ by {
                        assert(old_t[a].0@ != old_t[b].0@);
                    }
                    assert forall|x: Seq<char>| #[trigger] has_task(nt, x) == has_task(old_t, x) by {
                        if has_task(old_t, x) {
                            let j = choose|j: int| 0 <= j < old_t.len() && #[trigger] old_t[j].0@ == x;
                            assert(nt[j].0@ == x);
                        }
                        if has_task(nt, x) {
                            let j = choose|j: int| 0 <= j < nt.len() && #[trigger] nt[j].0@ == x;
                            assert(old_t[j].0@ == x);
                        }
                    }
                    assert forall|x: Seq<char>| #[trigger] running(nt, x) == (running(old_t, x) && x != task_id@) by {
                        if running(old_t, x) && x != task_id@ {
                            let j = choose|j: int| 0 <= j < old_t.len() && #[trigger] old_t[j].0@ == x && !old_t[j].1.done;
                            assert(j != i);
                            assert(nt[j] == old_t[j]);
                        }
                        if running(nt, x) {
                            let j = choose|j: int| 0 <= j < nt.len() && #[trigger] nt[j].0@ == x && !nt[j].1.done;
                            assert(j != i);
                            assert(nt[j] == old_t[j]);
                            if x == task_id@ {
                                assert(old_t[j].0@ != old_t[i as int].0@ || j == i);
                            }
                        }
                    }
                }
            },
        }
    }

    /// The running tasks of session `key`.
    pub fn get_running_count_by_session(&self, session_key: &str) -> (r: usize)
        requires
            self.wf(),
        ensures
            r == running_ids(self.tasks_view(), ids_under(self.index_view(), session_key@)).len(),
    {
        let ids = self.running_under(session_key);
        ids.len()
    }

    fn running_under(&self, key: &str) -> (r: Vec<String>)
        requires
            self.wf(),
        ensures
            r@ == running_ids(self.tasks@, ids_under(self.sessions@, key@)),
    {
        let ghost pred = |x: String| running(self.tasks@, x@);
        match self.session_index(key) {
            None => {
                let r: Vec<String> = Vec::new();
                proof {
                    assert(!(exists|i: int| 0 <= i < self.sessions@.len() && #[trigger] self.sessions@[i].0@ == key@));
                    assert(Seq::<String>::empty().filter(pred) =~= Seq::<String>::empty()) by {
                        reveal(Seq::filter);
                    }
                    assert(r@ =~= Seq::<String>::empty());
                }
                r
            },
            Some(i) => {
                proof {
                    let c = choose|c: int| 0 <= c < self.sessions@.len() && #[trigger] self.sessions@[c].0@ == key@;
                    if c != i {
                        if c < i {
                            assert(self.sessions@[c].0@ != self.sessions@[i as int].0@);
                        } else {
                            assert(self.sessions@[i as int].0@ != self.sessions@[c].0@);
                        }
                    }
                }
                let ids = &self.sessions[i].1;
                let ghost all = ids@;
                let mut out: Vec<String> = Vec::new();
                let mut j: usize = 0;
                while j < ids.len()
                    invariant
                        j <= all.len(),
                        all == ids@,
                        distinct_ids(self.tasks@),
                        pred == (|x: String| running(self.tasks@, x@)),
                        out@ == all.subrange(0, j as int).filter(pred),
                    decreases all.len() - j,
                {
                    proof {
                        let pre = all.subrange(0, j as int);
                        assert(all.subrange(0, j + 1) == pre.push(all[j as int]));
                        pre.lemma_filter_push(all[j as int], pred);
                    }
                    if self.is_running(ids[j].as_str()) {
                        out.push(ids[j].clone());
                    }
                    j = j + 1;
                }
                assert(all.subrange(0, all.len() as int) == all);
                out
            },
        }
    }
}

impl SubagentRegistry {
    /// Removes `id` from session `key`; a session left empty disappears.
    fn index_remove(&mut self, key: &str, id: &str)
        requires
            distinct_index(old(self).index_view()),
        ensures
            distinct_index(final(self).index_view()),
            final(self).tasks_view() == old(self).tasks_view(),
            forall|k: Seq<char>, x: Seq<char>| #[trigger] indexed(final(self).index_view(), k, x)
                == (indexed(old(self).index_view(), k, x) && !(k == key@ && x == id@)),
    {
        let ghost old_s = self.sessions@;
        let i = match self.session_index(key) {
            Some(i) => i,
            None => {
                proof {
                    assert forall|k: Seq<char>, x: Seq<char>| #[trigger] indexed(old_s, k, x) && k == key@ implies false by {
                        let (a, b) = choose|a: int, b: int| 0 <= a < old_s.len() && 0 <= b < old_s[a].1@.len()
                            && old_s[a].0@ == k && #[trigger] old_s[a].1@[b]@ == x;
                    }
                }
                return;
            },
        };
        let ghost old_ids = old_s[i as int].1@;
        let mut pos: Option<usize> = None;
        let mut j: usize = 0;
        while j < self.sessions[i].1.len()
            invariant
                j <= old_ids.len(),
                self.sessions@ == old_s,
                i < old_s.len(),
                old_ids == old_s[i as int].1@,
                pos is None ==> forall|m: int| 0 <= m < j ==> old_ids[m]@ != id@,
                pos matches Some(p) ==> p < old_ids.len() && old_ids[p as int]@ == id@,
            decreases old_ids.len() - j,
        {
            if str_eq(self.sessions[i].1[j].as_str(), id) {
                pos = Some(j);
            }
            j = j + 1;
        }
        let p = match pos {
            Some(p) => p,
            None => {
                proof {
                    assert forall|k: Seq<char>, x: Seq<char>| #[trigger] indexed(old_s, k, x) && k == key@ && x == id@ implies false by {
                        let (a, b) = choose|a: int, b: int| 0 <= a < old_s.len() && 0 <= b < old_s[a].1@.len()
                            && old_s[a].0@ == k && #[trigger] old_s[a].1@[b]@ == x;
                        if a != i {
                            if a < i { assert(old_s[a].0@ != old_s[i as int].0@); } else { assert(old_s[i as int].0@ != old_s[a].0@); }
                        }
                    }
                }
                return;
            },
        };
        let mut ids = self.sessions[i].1.clone();
        ids.remove(p);
        let ghost new_ids = ids@;
        proof {
            assert forall|m: int| 0 <= m < new_ids.len() implies new_ids[m] == old_ids[if m < p { m } else { m + 1 }] by {}
        }
        if ids.len() == 0 {
            self.sessions.remove(i);
        } else {
            let name = self.sessions[i].0.clone();
            self.sessions.set(i, (name, ids));
        }
        proof {
            let ns = self.sessions@;
            assert forall|a: int, b: int| 0 <= a < b < ns.len() implies (#[trigger] ns[a]).0@ != (#[trigger] ns[b]).0@ by {
                if new_ids.len() == 0 {
                    let oa = if a < i { a } else { a + 1 };
                    let ob = if b < i { b } else { b + 1 };
                    assert(ns[a] == old_s[oa] && ns[b] == old_s[ob]);
                } else {
                    assert(ns[a].0@ == old_s[a].0@ && ns[b].0@ == old_s[b].0@);
                }
            }
            assert forall|a: int| 0 <= a < ns.len() implies {
                &&& (#[trigger] ns[a]).1@.len() > 0
                &&& forall|u: int, v: int| 0 <= u < v < ns[a].1@.len() ==> ns[a].1@[u]@ != ns[a].1@[v]@
            } by {
                if new_ids.len() == 0 {
                    let oa = if a < i { a } else { a + 1 };
                    assert(ns[a] == old_s[oa]);
                } else if a != i {
                    assert(ns[a] == old_s[a]);
                } else {
                    assert forall|u: int, v: int| 0 <= u < v < ns[a].1@.len() implies ns[a].1@[u]@ != ns[a].1@[v]@ by {
                        let ou = if u < p { u } else { u + 1 };
                        let ov = if v < p { v } else { v + 1 };
                        assert(ns[a].1@[u] == old_ids[ou] && ns[a].1@[v] == old_ids[ov]);
                    }
                }
            }
            assert forall|k: Seq<char>, x: Seq<char>| #[trigger] indexed(ns, k, x)
                == (indexed(old_s, k, x) && !(k == key@ && x == id@)) by {
                if indexed(old_s, k, x) && !(k == key@ && x == id@) {
                    let (a, b) = choose|a: int, b: int| 0 <= a < old_s.len() && 0 <= b < old_s[a].1@.len()
                        && old_s[a].0@ == k && #[trigger] old_s[a].1@[b]@ == x;
                    if a == i {
                        assert(k == key@);
                        assert(b != p);
                        let nb = if b < p { b } else { b - 1 };
                        assert(new_ids[nb] == old_ids[b]);
                        assert(new_ids.len() > 0);
                        assert(ns[a].1@[nb]@ == x);
                    } else if new_ids.len() == 0 {
                        let na = if a < i { a } else { a - 1 };
                        assert(ns[na] == old_s[a]);
                        assert(ns[na].1@[b]@ == x);
                    } else {
                        assert(ns[a] == old_s[a]);
                        assert(ns[a].1@[b]@ == x);
                    }
                }
                if indexed(ns, k, x) {
                    let (a, b) = choose|a: int, b: int| 0 <= a < ns.len() && 0 <= b < ns[a].1@.len()
                        && ns[a].0@ == k && #[trigger] ns[a].1@[b]@ == x;
                    if new_ids.len() == 0 {
                        let oa = if a < i { a } else { a + 1 };
                        assert(ns[a] == old_s[oa]);
                        assert(old_s[oa].1@[b]@ == x);
                        if k == key@ {
                            assert(old_s[oa].0@ != old_s[i as int].0@ || oa == i);
                        }
                    } else if a == i {
                        let ob = if b < p { b } else { b + 1 };
                        assert(ns[a].1@[b] == old_ids[ob]);
                        assert(old_s[a].1@[ob]@ == x);
                        assert(ob != p);
                        assert(old_ids[ob]@ != old_ids[p as int]@);
                    } else {
                        assert(ns[a] == old_s[a]);
                        assert(old_s[a].1@[b]@ == x);
                        if k == key@ {
                            if a < i { assert(old_s[a].0@ != old_s[i as int].0@); } else { assert(old_s[i as int].0@ != old_s[a].0@); }
                        }
                    }
                }
            }
        }
    }

    /// Cleans up task `id`: it leaves the registry and its session's index.
    pub fn finish(&mut self, task_id: &str)
        requires
            old(self).wf(),
        ensures
            final(self).wf(),
            forall|x: Seq<char>| #[trigger] has_task(final(self).tasks_view(), x) == (has_task(old(self).tasks_view(), x) && x != task_id@),
            forall|x: Seq<char>| #[trigger] running(final(self).tasks_view(), x) == (running(old(self).tasks_view(), x) && x != task_id@),
            forall|k: Seq<char>, x: Seq<char>| #[trigger] indexed(final(self).index_view(), k, x)
                == (indexed(old(self).index_view(), k, x) && !(x == task_id@ && session_of(old(self).tasks_view(), task_id@) == Some(k))),
    {
        let ghost old_t = self.tasks@;
        let i = match self.task_index(task_id) {
            Some(i) => i,
            None => {
                proof {
                    assert forall|x: Seq<char>| #[trigger] running(old_t, x) implies x != task_id@ by {
                        if x == task_id@ {
                            let j = choose|j: int| 0 <= j < old_t.len() && #[trigger] old_t[j].0@ == x && !old_t[j].1.done;
                        }
                    }
                }
                return;
            },
        };
        proof {
            let c = choose|c: int| 0 <= c < old_t.len() && #[trigger] old_t[c].0@ == task_id@;
            if c != i {
                if c < i { assert(old_t[c].0@ != old_t[i as int].0@); } else { assert(old_t[i as int].0@ != old_t[c].0@); }
            }
        }
        let key = crate::bus::clone_opt(&self.tasks[i].1.session_key);
        self.tasks.remove(i);
        proof {
            let nt = self.tasks@;
            assert forall|m: int| 0 <= m < nt.len() implies nt[m] == old_t[if m < i { m } else { m + 1 }] by {}
            assert forall|a: int, b: int| 0 <= a < b < nt.len() implies (#[trigger] nt[a]).0@ != (#[trigger] nt[b]).0@ by {
                let oa = if a < i { a } else { a + 1 };
                let ob = if b < i { b } else { b + 1 };
                assert(nt[a] == old_t[oa] && nt[b] == old_t[ob]);
            }
            assert forall|x: Seq<char>| #[trigger] has_task(nt, x) == (has_task(old_t, x) && x != task_id@) by {
                if has_task(old_t, x) && x != task_id@ {
                    let j = choose|j: int| 0 <= j < old_t.len() && #[trigger] old_t[j].0@ == x;
                    assert(j != i);
                    let nj = if j < i { j } else { j - 1 };
                    assert(nt[nj] == old_t[j]);
                }
                if has_task(nt, x) {
                    let j = choose|j: int| 0 <= j < nt.len() && #[trigger] nt[j].0@ == x;
                    let oj = if j < i { j } else { j + 1 };
                    assert(nt[j] == old_t[oj]);
                    if x == task_id@ {
                        if oj < i { assert(old_t[oj].0@ != old_t[i as int].0@); } else { assert(old_t[i as int].0@ != old_t[oj].0@); }
                    }
                }
            }
            assert forall|x: Seq<char>| #[trigger] running(nt, x) == (running(old_t, x) && x != task_id@) by {
                if running(old_t, x) && x != task_id@ {
                    let j = choose|j: int| 0 <= j < old_t.len() && #[trigger] old_t[j].0@ == x && !old_t[j].1.done;
                    assert(j != i);
                    let nj = if j < i { j } else { j - 1 };
                    assert(nt[nj] == old_t[j]);
                }
                if running(nt, x) {
                    let j = choose|j: int| 0 <= j < nt.len() && #[trigger] nt[j].0@ == x && !nt[j].1.done;
                    let oj = if j < i { j } else { j + 1 };
                    assert(nt[j] == old_t[oj]);
                    if x == task_id@ {
                        if oj < i { assert(old_t[oj].0@ != old_t[i as int].0@); } else { assert(old_t[i as int].0@ != old_t[oj].0@); }
                    }
                }
            }
        }
        match key {
            Some(k) => {
                self.index_remove(k.as_str(), task_id);
            },
            None => {},
        }
    }

    /// Cancels the running tasks of session `key` (each cleaned up); returns how many.
    pub fn cancel_by_session(&mut self, session_key: &str) -> (r: usize)
        requires
            old(self).wf(),
        ensures
            final(self).wf(),
            r == running_ids(old(self).tasks_view(), ids_under(old(self).index_view(), session_key@)).len(),
            forall|x: Seq<char>| #[trigger] running(final(self).tasks_view(), x)
                == (running(old(self).tasks_view(), x) && !among(running_ids(old(self).tasks_view(), ids_under(old(self).index_view(), session_key@)), x)),
    {
        let targets = self.running_under(session_key);
        let ghost ts = targets@;
        let ghost old_t = self.tasks@;
        let mut i: usize = 0;
        while i < targets.len()
            invariant
                i <= ts.len(),
                ts == targets@,
                self.wf(),
                forall|x: Seq<char>| #[trigger] running(self.tasks@, x)
                    == (running(old_t, x) && !among(ts.subrange(0, i as int), x)),
            decreases ts.len() - i,
        {
            let ghost before = self.tasks@;
            self.finish(targets[i].as_str());
            proof {
                assert forall|x: Seq<char>| #[trigger] running(self.tasks@, x)
                    == (running(old_t, x) && !among(ts.subrange(0, i + 1), x)) by {
                    if among(ts.subrange(0, i + 1), x) && !among(ts.subrange(0, i as int), x) {
                        let m = choose|m: int| 0 <= m < ts.subrange(0, i + 1).len() && #[trigger] ts.subrange(0, i + 1)[m]@ == x;
                        if m < i {
                            assert(ts.subrange(0, i as int)[m]@ == x);
                        }
                    }
                    if among(ts.subrange(0, i as int), x) {
                        let m = choose|m: int| 0 <= m < ts.subrange(0, i as int).len() && #[trigger] ts.subrange(0, i as int)[m]@ == x;
                        assert(ts.subrange(0, i + 1)[m]@ == x);
                    }
                    if x == ts[i as int]@ {
                        assert(ts.subrange(0, i + 1)[i as int]@ == x);
                    }
                }
            }
            i = i + 1;
        }
        assert(ts.subrange(0, ts.len() as int) =~= ts);
        targets.len()
    }

    /// The status of task `id`, while it is registered.
    pub fn status(&self, task_id: &str) -> (r: Option<&SubagentStatus>)
        requires
            self.wf(),
        ensures
            match r {
                Some(st) => exists|i: int| 0 <= i < self.tasks_view().len() && self.tasks_view()[i].0@ == task_id@
                    && *st == self.tasks_view()[i].1.status,
                None => !has_task(self.tasks_view(), task_id@),
            },
    {
        match self.task_index(task_id) {
            Some(i) => Some(&self.tasks[i].1.status),
            None => None,
        }
    }
}

/// A fresh task id: a random version-4 UUID in its hyphenated form
/// (`uuid::Uuid::new_v4`). It is random, so nothing is stated of it.
#[verifier::external_body]
fn new_task_id() -> (r: String) {
    uuid::Uuid::new_v4().to_string()
}

/// The status a subagent starts with: its id, its label (else `subagent`), its task
/// and start time, in phase `Initializing` with nothing recorded yet.
pub open spec fn spawn_status(st: SubagentStatus, id: Seq<char>, task: Seq<char>, label: Option<Seq<char>>, now_ms: i64) -> bool {
    &&& st.task_id@ == id
    &&& st.label@ == match label { Some(l) => l, None => "subagent"@ }
    &&& st.task_description@ == task
    &&& st.started_at_ms == now_ms
    &&& st.phase == SubagentPhase::Initializing
    &&& st.iteration == 0
    &&& st.tool_events@.len() == 0
    &&& st.usage@.len() == 0
    &&& st.stop_reason is None
    &&& st.error is None
}

/// Registers a subagent spawned by session `session_key` for `task`, labelled
/// `label` (else `subagent`), started at `now_ms`; returns its fresh id.
pub fn register_spawn(registry: &mut SubagentRegistry, session_key: &str, task: &str, label: Option<&str>, now_ms: i64) -> (id: String)
    requires
        old(registry).wf(),
    ensures
        final(registry).wf(),
        running(final(registry).tasks_view(), id@),
        exists|st: SubagentStatus| #[trigger] holds_task(final(registry).tasks_view(), id@, Some(session_key@), st)
            && spawn_status(st, id@, task@, crate::paths::opt_str(label), now_ms),
        forall|x: Seq<char>| x != id@ ==> #[trigger] running(final(registry).tasks_view(), x) == running(old(registry).tasks_view(), x),
        forall|k: Seq<char>, x: Seq<char>| #[trigger] indexed(final(registry).index_view(), k, x)
            == (indexed(old(registry).index_view(), k, x) || (k == session_key@ && x == id@)),
{
    let task_id = new_task_id();
    let lbl = match label {
        Some(l) => l.to_owned(),
        None => "subagent".to_owned(),
    };
    let status = SubagentStatus::new(task_id.clone(), lbl, task.to_owned(), now_ms);
    let ghost st = status;
    registry.register(task_id.as_str(), Some(session_key), status);
    assert(spawn_status(st, task_id@, task@, crate::paths::opt_str(label), now_ms));
    task_id
}

/// Marks a finished subagent done and cleans it up.
pub fn complete_spawn(registry: &mut SubagentRegistry, task_id: &str)
    requires
        old(registry).wf(),
    ensures
        final(registry).wf(),
        forall|x: Seq<char>| #[trigger] has_task(final(registry).tasks_view(), x) == (has_task(old(registry).tasks_view(), x) && x != task_id@),
        forall|x: Seq<char>| #[trigger] running(final(registry).tasks_view(), x) == (running(old(registry).tasks_view(), x) && x != task_id@),
{
    registry.mark_done(task_id);
    registry.finish(task_id);
}

/// The message that hands a subagent's result back to the session that spawned it:
/// on channel `subagent`, keyed by that session, with the reply (empty on failure) and
/// metadata marking it as a result, naming the task and, on failure, the error.
pub fn announce_message(session_key: &str, task_id: &str, result: Result<String, String>) -> (m: InboundMessage)
    ensures
        m.channel@ == "subagent"@,
        m.chat_id@ == session_key@,
        m.content@ == match result { Ok(c) => c@, Err(_) => Seq::<char>::empty() },
        m.session_key_override matches Some(k) && k@ == session_key@,
        m.metadata@.len() == if result is Ok { 2int } else { 3int },
        m.metadata@[0].0@ == "subagent_result"@ && m.metadata@[0].1@ == "true"@,
        m.metadata@[1].0@ == "subagent_task_id"@ && m.metadata@[1].1@ == json_quoted(task_id@),
        result matches Err(e) ==> m.metadata@[2].0@ == "subagent_error"@ && m.metadata@[2].1@ == json_quoted(e@),
{
    let (content, error) = match result {
        Ok(c) => (c, None),
        Err(e) => (String::new(), Some(e)),
    };
    let mut m = InboundMessage::new("subagent".to_owned(), session_key.to_owned(), content);
    m.session_key_override = Some(session_key.to_owned());
    m.metadata.push(("subagent_result".to_owned(), "true".to_owned()));
    m.metadata.push(("subagent_task_id".to_owned(), json_quote(task_id)));
    match error {
        Some(e) => {
            m.metadata.push(("subagent_error".to_owned(), json_quote(e.as_str())));
        },
        None => {},
    }
    m
}

} // verus!

verus! {

/// Once a session's tasks are cancelled none of the tasks indexed under that session
/// is running.
pub proof fn law_cancel_stops_session(
    old_tasks: Seq<(String, TaskEntry)>,
    new_tasks: Seq<(String, TaskEntry)>,
    index: Seq<(String, Vec<String>)>,
    key: Seq<char>,
    x: Seq<char>,
)
    requires
        forall|y: Seq<char>| #[trigger] running(new_tasks, y)
            == (running(old_tasks, y) && !among(running_ids(old_tasks, ids_under(index, key)), y)),
        among(ids_under(index, key), x),
    ensures
        !running(new_tasks, x),
{
    let ids = ids_under(index, key);
    if running(old_tasks, x) {
        let m = choose|m: int| 0 <= m < ids.len() && #[trigger] ids[m]@ == x;
        let pred = |s: String| running(old_tasks, s@);
        ids.lemma_filter_contains(pred, m);
        let f = ids.filter(pred);
        let k = choose|k: int| 0 <= k < f.len() && f[k] == ids[m];
        assert(f[k]@ == x);
        assert(among(running_ids(old_tasks, ids), x));
    }
}

} // verus!
