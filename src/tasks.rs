//! Background tasks bound to component instances, and the print channel they
//! share: prints go out as whole lines, in one global order, and nothing a
//! cancelled task prints is ever committed.
use crate::element::{column, string_lines, render_column};
use vstd::prelude::*;
use vstd::string::*;

verus! {

/// The tasks and the print channel as the render loop sees them.
pub ghost struct PoolModel {
    /// The instance that owns each task, by task id.
    pub owners: Seq<u64>,
    /// Whether each task still runs.
    pub live: Seq<bool>,
    /// What each task has printed since its last line end.
    pub pending: Seq<Seq<char>>,
    /// The whole lines committed above the dynamic region, in call order.
    pub lines: Seq<Seq<char>>,
}

/// One call of a task on the print channel: `print`, or `println` when
/// `line_end` holds.
pub ghost struct PrintCall {
    pub task: int,
    pub text: Seq<char>,
    pub line_end: bool,
}

/// The pool after a task owned by `owner` is spawned.
pub open spec fn spawned(m: PoolModel, owner: u64) -> PoolModel {
    PoolModel {
        owners: m.owners.push(owner),
        live: m.live.push(true),
        pending: m.pending.push(Seq::empty()),
        lines: m.lines,
    }
}

/// The pool after the instance `owner` is destroyed: its tasks are cancelled
/// and what they left unfinished is dropped.
pub open spec fn destroyed(m: PoolModel, owner: u64) -> PoolModel {
    PoolModel {
        owners: m.owners,
        live: Seq::new(m.live.len(), |i: int| m.live[i] && m.owners[i] != owner),
        pending: Seq::new(
            m.pending.len(),
            |i: int|
                if m.owners[i] == owner {
                    Seq::empty()
                } else {
                    m.pending[i]
                },
        ),
        lines: m.lines,
    }
}

/// Whether `task` names a task that still runs.
pub open spec fn runs(m: PoolModel, task: int) -> bool {
    0 <= task < m.live.len() && m.live[task]
}

/// The pool after one call on the print channel: a `print` extends the
/// task's pending text, a `println` commits it with the text as one line. A
/// call from a task that does not run changes nothing.
pub open spec fn after_call(m: PoolModel, c: PrintCall) -> PoolModel {
    if !runs(m, c.task) {
        m
    } else if c.line_end {
        PoolModel {
            pending: m.pending.update(c.task, Seq::empty()),
            lines: m.lines.push(m.pending[c.task] + c.text),
            ..m
        }
    } else {
        PoolModel { pending: m.pending.update(c.task, m.pending[c.task] + c.text), ..m }
    }
}

/// The pool after a sequence of calls, in order.
pub open spec fn after_calls(m: PoolModel, calls: Seq<PrintCall>) -> PoolModel
    decreases calls.len(),
{
    if calls.len() == 0 {
        m
    } else {
        after_call(after_calls(m, calls.drop_last()), calls.last())
    }
}

/// The calls made by `task`, in order.
pub open spec fn calls_of(calls: Seq<PrintCall>, task: int) -> Seq<PrintCall> {
    calls.filter(|c: PrintCall| c.task == task)
}

/// The calls made by any task but `task`, in order.
pub open spec fn calls_without(calls: Seq<PrintCall>, task: int) -> Seq<PrintCall> {
    calls.filter(|c: PrintCall| c.task != task)
}

/// The same number of tasks, and one text pending for each.
pub open spec fn pool_wf(m: PoolModel) -> bool {
    m.owners.len() == m.live.len() && m.live.len() == m.pending.len()
}

/// The background tasks of the instances of a tree, and the print channel
/// through which they write above the dynamic region.
pub struct TaskPool {
    owners: Vec<u64>,
    live: Vec<bool>,
    pending: Vec<String>,
    lines: Vec<String>,
}

impl TaskPool {
    /// The tasks and the channel, as plain values.
    pub closed spec fn model(&self) -> PoolModel {
        PoolModel {
            owners: self.owners@,
            live: self.live@,
            pending: string_lines(self.pending@),
            lines: string_lines(self.lines@),
        }
    }

    /// One owner and one pending text per task.
    pub closed spec fn wf(&self) -> bool {
        self.owners@.len() == self.live@.len() && self.live@.len() == self.pending@.len()
    }

    /// No tasks and nothing printed.
    pub fn new() -> (r: TaskPool)
        ensures
            r.wf(),
            r.model().owners.len() == 0,
            r.model().lines.len() == 0,
    {
        TaskPool { owners: Vec::new(), live: Vec::new(), pending: Vec::new(), lines: Vec::new() }
    }

    /// Starts a task owned by instance `owner`; returns its id.
    pub fn spawn(&mut self, owner: u64) -> (id: usize)
        requires
            old(self).wf(),
            old(self).model().owners.len() < usize::MAX,
        ensures
            final(self).wf(),
            id == old(self).model().owners.len(),
            final(self).model() == spawned(old(self).model(), owner),
    {
        let id = self.owners.len();
        self.owners.push(owner);
        self.live.push(true);
        self.pending.push(String::new());
        assert(final(self).model().pending =~= old(self).model().pending.push(Seq::empty()));
        id
    }

    /// Whether task `task` still runs.
    pub fn is_live(&self, task: usize) -> (r: bool)
        requires
            self.wf(),
        ensures
            r == runs(self.model(), task as int),
    {
        task < self.live.len() && self.live[task]
    }

    /// Destroys instance `owner`: cancels every task it owns and drops what
    /// they left unfinished.
    pub fn destroy_instance(&mut self, owner: u64)
        requires
            old(self).wf(),
        ensures
            final(self).wf(),
            final(self).model() == destroyed(old(self).model(), owner),
    {
        let ghost before = self.model();
        let mut i: usize = 0;
        while i < self.owners.len()
            invariant
                self.wf(),
                pool_wf(before),
                i <= self.owners.len(),
                self.owners@ == before.owners,
                self.live@.len() == before.live.len(),
                self.model().lines == before.lines,
                forall|j: int|
                    0 <= j < self.live@.len() ==> #[trigger] self.live@[j] == if j < i {
                        destroyed(before, owner).live[j]
                    } else {
                        before.live[j]
                    },
                forall|j: int|
                    0 <= j < self.live@.len() ==> #[trigger] self.model().pending[j] == if j < i {
                        destroyed(before, owner).pending[j]
                    } else {
                        before.pending[j]
                    },
            decreases self.owners.len() - i,
        {
            let ghost prev = self.model().pending;
            if self.owners[i] == owner {
                self.live.set(i, false);
                self.pending.set(i, String::new());
                assert(self.model().pending =~= prev.update(i as int, Seq::empty()));
            }
            i = i + 1;
        }
        assert(self.model().live =~= destroyed(before, owner).live);
        assert(self.model().pending =~= destroyed(before, owner).pending);
    }

    /// `print` from task `task`: extends its pending line. Ignored once the
    /// task is cancelled.
    pub fn print(&mut self, task: usize, text: &str)
        requires
            old(self).wf(),
        ensures
            final(self).wf(),
            final(self).model() == after_call(
                old(self).model(),
                PrintCall { task: task as int, text: text@, line_end: false },
            ),
    {
        if task < self.live.len() && self.live[task] {
            let mut line = self.pending[task].clone();
            line.append(text);
            self.pending.set(task, line);
            assert(self.model().pending =~= old(self).model().pending.update(
                task as int,
                old(self).model().pending[task as int] + text@,
            ));
        }
    }

    /// `println` from task `task`: commits its pending text and `text` as one
    /// whole line after every line committed before. Ignored once the task is
    /// cancelled.
    pub fn println(&mut self, task: usize, text: &str)
        requires
            old(self).wf(),
        ensures
            final(self).wf(),
            final(self).model() == after_call(
                old(self).model(),
                PrintCall { task: task as int, text: text@, line_end: true },
            ),
    {
        if task < self.live.len() && self.live[task] {
            let mut line = self.pending[task].clone();
            line.append(text);
            self.lines.push(line);
            self.pending.set(task, String::new());
            assert(self.model().pending =~= old(self).model().pending.update(
                task as int,
                Seq::empty(),
            ));
            assert(self.model().lines =~= old(self).model().lines.push(
                old(self).model().pending[task as int] + text@,
            ));
        }
    }

    /// The committed lines, stacked in a column.
    pub fn to_string(&self) -> (r: String)
        ensures
            r@ == column(self.model().lines),
    {
        render_column(&self.lines)
    }
}

/// Calls on the print channel neither start nor stop tasks.
pub proof fn lemma_calls_keep_tasks(m: PoolModel, calls: Seq<PrintCall>)
    requires
        pool_wf(m),
    ensures
        after_calls(m, calls).owners == m.owners,
        after_calls(m, calls).live == m.live,
        after_calls(m, calls).pending.len() == m.pending.len(),
    decreases calls.len(),
{
    if calls.len() > 0 {
        lemma_calls_keep_tasks(m, calls.drop_last());
    }
}

/// Prints never tear: what a task has pending depends on its own calls
/// alone, whatever the other tasks printed in between, so each `println`
/// commits, at its place in the one global order, a whole line made of that
/// task's own text.
pub proof fn lemma_prints_never_tear(m: PoolModel, calls: Seq<PrintCall>, task: int)
    requires
        pool_wf(m),
        0 <= task < m.live.len(),
    ensures
        after_calls(m, calls).pending[task] == after_calls(m, calls_of(calls, task)).pending[task],
        calls.len() > 0 && calls.last().task == task && calls.last().line_end && m.live[task]
            ==> after_calls(m, calls).lines == after_calls(m, calls.drop_last()).lines.push(
            after_calls(m, calls_of(calls.drop_last(), task)).pending[task] + calls.last().text,
        ),
    decreases calls.len(),
{
    lemma_calls_keep_tasks(m, calls);
    lemma_calls_keep_tasks(m, calls_of(calls, task));
    if calls.len() > 0 {
        let rest = calls.drop_last();
        let c = calls.last();
        lemma_prints_never_tear(m, rest, task);
        lemma_calls_keep_tasks(m, rest);
        lemma_calls_keep_tasks(m, calls_of(rest, task));
        reveal(Seq::filter);
        if c.task == task {
            assert(calls_of(calls, task) == calls_of(rest, task).push(c));
            assert(calls_of(calls, task).drop_last() =~= calls_of(rest, task));
        } else {
            assert(calls_of(calls, task) == calls_of(rest, task));
        }
    }
}

/// Nothing a cancelled task prints is ever committed: its calls leave the
/// committed lines as if it had made none.
pub proof fn lemma_cancelled_task_silent(m: PoolModel, calls: Seq<PrintCall>, task: int)
    requires
        pool_wf(m),
        0 <= task < m.live.len(),
        !m.live[task],
    ensures
        after_calls(m, calls).lines == after_calls(m, calls_without(calls, task)).lines,
        forall|i: int|
            0 <= i < m.pending.len() && i != task ==> #[trigger] after_calls(m, calls).pending[i]
                == after_calls(m, calls_without(calls, task)).pending[i],
    decreases calls.len(),
{
    lemma_calls_keep_tasks(m, calls);
    lemma_calls_keep_tasks(m, calls_without(calls, task));
    if calls.len() > 0 {
        let rest = calls.drop_last();
        let c = calls.last();
        lemma_cancelled_task_silent(m, rest, task);
        lemma_calls_keep_tasks(m, rest);
        lemma_calls_keep_tasks(m, calls_without(rest, task));
        reveal(Seq::filter);
        if c.task == task {
            assert(calls_without(calls, task) == calls_without(rest, task));
        } else {
            assert(calls_without(calls, task) == calls_without(rest, task).push(c));
            assert(calls_without(calls, task).drop_last() =~= calls_without(rest, task));
        }
    }
}

/// Destroying an instance silences every task it owned: whatever such a
/// task prints afterwards, the committed lines are those of the calls of the
/// other tasks alone.
pub proof fn lemma_destroyed_instance_tasks_silent(
    m: PoolModel,
    owner: u64,
    calls: Seq<PrintCall>,
    task: int,
)
    requires
        pool_wf(m),
        0 <= task < m.owners.len(),
        m.owners[task] == owner,
    ensures
        after_calls(destroyed(m, owner), calls).lines == after_calls(
            destroyed(m, owner),
            calls_without(calls, task),
        ).lines,
{
    lemma_cancelled_task_silent(destroyed(m, owner), calls, task);
}

} // verus!
