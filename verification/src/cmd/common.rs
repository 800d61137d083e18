use vstd::prelude::*;

use crate::git::GitError;

verus! {

/// Where one scheduled operation stands: not yet admitted, holding a
/// permit, running its unit of work, or finished with its permit
/// given back.
#[derive(Clone, Copy, Debug, PartialEq, Eq, Structural)]
pub enum TaskState {
    NotStarted,
    PermitHeld,
    Running,
    Done,
}

/// How many of `tasks` satisfy `p`.
pub open spec fn count_where(tasks: Seq<TaskState>, p: spec_fn(TaskState) -> bool) -> int
    decreases tasks.len(),
{
    if tasks.len() == 0 {
        0
    } else {
        count_where(tasks.drop_last(), p) + if p(tasks.last()) {
            1int
        } else {
            0int
        }
    }
}

/// The task holds one unit of the budget: admitted but not yet done.
pub open spec fn holds_permit(t: TaskState) -> bool {
    t is PermitHeld || t is Running
}

/// How many operations hold a permit.
pub open spec fn count_holding(tasks: Seq<TaskState>) -> int {
    count_where(tasks, |t: TaskState| holds_permit(t))
}

/// How many operations are running their unit of work.
pub open spec fn count_running(tasks: Seq<TaskState>) -> int {
    count_where(tasks, |t: TaskState| t is Running)
}

/// A count never goes below zero nor above the number of tasks.
pub proof fn lemma_count_where_bounds(tasks: Seq<TaskState>, p: spec_fn(TaskState) -> bool)
    ensures
        0 <= count_where(tasks, p) <= tasks.len(),
    decreases tasks.len(),
{
    if tasks.len() > 0 {
        lemma_count_where_bounds(tasks.drop_last(), p);
    }
}

/// Replacing the task at `i` adjusts the count by what `p` makes of
/// the old and new states.
pub proof fn lemma_count_where_update(
    tasks: Seq<TaskState>,
    i: int,
    s: TaskState,
    p: spec_fn(TaskState) -> bool,
)
    requires
        0 <= i < tasks.len(),
    ensures
        count_where(tasks.update(i, s), p) == count_where(tasks, p) - (if p(tasks[i]) {
            1int
        } else {
            0int
        }) + (if p(s) {
            1int
        } else {
            0int
        }),
    decreases tasks.len(),
{
    let t2 = tasks.update(i, s);
    if i == tasks.len() - 1 {
        assert(t2.drop_last() =~= tasks.drop_last());
        assert(t2.last() == s);
    } else {
        assert(t2.drop_last() =~= tasks.drop_last().update(i, s));
        assert(t2.last() == tasks.last());
        lemma_count_where_update(tasks.drop_last(), i, s, p);
    }
}

/// Appending one task adjusts the count by what `p` makes of it.
pub proof fn lemma_count_where_push(
    tasks: Seq<TaskState>,
    s: TaskState,
    p: spec_fn(TaskState) -> bool,
)
    ensures
        count_where(tasks.push(s), p) == count_where(tasks, p) + (if p(s) {
            1int
        } else {
            0int
        }),
{
    assert(tasks.push(s).drop_last() =~= tasks);
    assert(tasks.push(s).last() == s);
}

/// When no task satisfies `p`, the count is zero.
pub proof fn lemma_count_where_zero(tasks: Seq<TaskState>, p: spec_fn(TaskState) -> bool)
    requires
        forall|i: int| 0 <= i < tasks.len() ==> !p(#[trigger] tasks[i]),
    ensures
        count_where(tasks, p) == 0,
    decreases tasks.len(),
{
    if tasks.len() > 0 {
        assert(forall|i: int|
            0 <= i < tasks.drop_last().len() ==> tasks.drop_last()[i] == tasks[i]);
        lemma_count_where_zero(tasks.drop_last(), p);
        assert(!p(tasks[tasks.len() - 1]));
    }
}

/// When the task at `w` satisfies `p`, the count is at least one.
pub proof fn lemma_count_where_pos(tasks: Seq<TaskState>, w: int, p: spec_fn(TaskState) -> bool)
    requires
        0 <= w < tasks.len(),
        p(tasks[w]),
    ensures
        count_where(tasks, p) >= 1,
    decreases tasks.len(),
{
    lemma_count_where_bounds(tasks.drop_last(), p);
    if w == tasks.len() - 1 {
    } else {
        lemma_count_where_pos(tasks.drop_last(), w, p);
    }
}

/// A count under a weaker predicate is no smaller.
pub proof fn lemma_count_where_le(
    tasks: Seq<TaskState>,
    p: spec_fn(TaskState) -> bool,
    q: spec_fn(TaskState) -> bool,
)
    requires
        forall|t: TaskState| #[trigger] p(t) ==> q(t),
    ensures
        count_where(tasks, p) <= count_where(tasks, q),
    decreases tasks.len(),
{
    if tasks.len() > 0 {
        lemma_count_where_le(tasks.drop_last(), p, q);
    }
}

/// The bounded-concurrency core as a state machine: a counting permit
/// pool of fixed budget `K`, and the admission state of every
/// scheduled operation. Work is admitted by `try_acquire`, performed
/// between `begin` and `finish`, and `finish` gives the permit back —
/// exactly once, because only a `Running` task can finish and a
/// finished task is `Done` for good.
pub struct Dispatcher {
    budget: usize,
    available: usize,
    tasks: Vec<TaskState>,
}

impl Dispatcher {
    pub closed spec fn spec_budget(&self) -> int {
        self.budget as int
    }

    pub closed spec fn spec_available(&self) -> int {
        self.available as int
    }

    pub closed spec fn spec_tasks(&self) -> Seq<TaskState> {
        self.tasks@
    }

    /// How many operations are running at this instant.
    pub open spec fn running_count(&self) -> int {
        count_running(self.spec_tasks())
    }

    /// Every scheduled operation has finished.
    pub open spec fn spec_all_done(&self) -> bool {
        forall|i: int| 0 <= i < self.spec_tasks().len() ==> self.spec_tasks()[i] is Done
    }

    /// The permit-pool invariant: the budget is positive, and free
    /// permits plus held permits always add up to exactly the budget
    /// — so permits are neither leaked nor conjured.
    pub open spec fn wf(&self) -> bool {
        &&& self.spec_budget() >= 1
        &&& self.spec_available() + count_holding(self.spec_tasks()) == self.spec_budget()
    }

    /// A fresh dispatcher: budget `k`, all permits free, `n`
    /// scheduled operations none of which has started.
    pub fn new(k: usize, n: usize) -> (d: Dispatcher)
        requires
            k >= 1,
        ensures
            d.wf(),
            d.spec_budget() == k,
            d.spec_available() == k,
            d.spec_tasks().len() == n,
            forall|i: int| 0 <= i < n ==> d.spec_tasks()[i] is NotStarted,
    {
        let mut tasks: Vec<TaskState> = Vec::new();
        let mut i: usize = 0;
        while i < n
            invariant
                i <= n,
                tasks@.len() == i,
                forall|j: int| 0 <= j < i ==> tasks@[j] is NotStarted,
                count_holding(tasks@) == 0,
            decreases n - i,
        {
            proof {
                lemma_count_where_push(tasks@, TaskState::NotStarted, |t: TaskState| holds_permit(t));
            }
            tasks.push(TaskState::NotStarted);
            i += 1;
        }
        Dispatcher { budget: k, available: k, tasks }
    }

    pub fn budget(&self) -> (k: usize)
        ensures
            k == self.spec_budget(),
    {
        self.budget
    }

    pub fn available(&self) -> (a: usize)
        ensures
            a == self.spec_available(),
    {
        self.available
    }

    pub fn len(&self) -> (n: usize)
        ensures
            n == self.spec_tasks().len(),
    {
        self.tasks.len()
    }

    pub fn state(&self, i: usize) -> (s: TaskState)
        requires
            i < self.spec_tasks().len(),
        ensures
            s == self.spec_tasks()[i as int],
    {
        self.tasks[i]
    }

    /// Admission: succeeds exactly when a permit is free. On success
    /// one permit leaves the pool and the operation holds it; on
    /// failure nothing changes and the operation must wait.
    pub fn try_acquire(&mut self, i: usize) -> (got: bool)
        requires
            old(self).wf(),
            i < old(self).spec_tasks().len(),
            old(self).spec_tasks()[i as int] is NotStarted,
        ensures
            final(self).wf(),
            final(self).spec_budget() == old(self).spec_budget(),
            got == (old(self).spec_available() > 0),
            got ==> final(self).spec_available() == old(self).spec_available() - 1
                && final(self).spec_tasks() == old(self).spec_tasks().update(
                i as int,
                TaskState::PermitHeld,
            ),
            !got ==> *final(self) == *old(self),
    {
        if self.available > 0 {
            proof {
                lemma_count_where_update(
                    self.tasks@,
                    i as int,
                    TaskState::PermitHeld,
                    |t: TaskState| holds_permit(t),
                );
            }
            self.available = self.available - 1;
            self.tasks[i] = TaskState::PermitHeld;
            true
        } else {
            false
        }
    }

    /// The operation begins its unit of work. It keeps the permit it
    /// holds; nothing else changes.
    pub fn begin(&mut self, i: usize)
        requires
            old(self).wf(),
            i < old(self).spec_tasks().len(),
            old(self).spec_tasks()[i as int] is PermitHeld,
        ensures
            final(self).wf(),
            final(self).spec_budget() == old(self).spec_budget(),
            final(self).spec_available() == old(self).spec_available(),
            final(self).spec_tasks() == old(self).spec_tasks().update(
                i as int,
                TaskState::Running,
            ),
    {
        proof {
            lemma_count_where_update(
                self.tasks@,
                i as int,
                TaskState::Running,
                |t: TaskState| holds_permit(t),
            );
        }
        self.tasks[i] = TaskState::Running;
    }

    /// The operation's work has finished — well or badly, the same
    /// way. Its permit goes back to the pool, exactly once: only a
    /// `Running` task can finish, and afterwards it is `Done` for
    /// good.
    pub fn finish(&mut self, i: usize)
        requires
            old(self).wf(),
            i < old(self).spec_tasks().len(),
            old(self).spec_tasks()[i as int] is Running,
        ensures
            final(self).wf(),
            final(self).spec_budget() == old(self).spec_budget(),
            final(self).spec_available() == old(self).spec_available() + 1,
            final(self).spec_tasks() == old(self).spec_tasks().update(i as int, TaskState::Done),
    {
        proof {
            lemma_count_where_pos(self.tasks@, i as int, |t: TaskState| holds_permit(t));
            lemma_count_where_bounds(self.tasks@, |t: TaskState| holds_permit(t));
            lemma_count_where_update(
                self.tasks@,
                i as int,
                TaskState::Done,
                |t: TaskState| holds_permit(t),
            );
        }
        self.available = self.available + 1;
        self.tasks[i] = TaskState::Done;
    }

    /// How many operations are running at this instant, counted.
    pub fn running(&self) -> (n: usize)
        ensures
            n == self.running_count(),
    {
        let ghost p = |t: TaskState| t is Running;
        let mut n: usize = 0;
        let mut i: usize = 0;
        proof {
            assert(self.tasks@.subrange(0, 0) =~= Seq::<TaskState>::empty());
        }
        while i < self.tasks.len()
            invariant
                i <= self.tasks@.len(),
                n == count_where(self.tasks@.subrange(0, i as int), p),
                n <= i,
                p == (|t: TaskState| t is Running),
            decreases self.tasks@.len() - i,
        {
            proof {
                assert(self.tasks@.subrange(0, i as int + 1).drop_last() =~= self.tasks@.subrange(
                    0,
                    i as int,
                ));
                assert(self.tasks@.subrange(0, i as int + 1).last() == self.tasks@[i as int]);
            }
            if matches!(self.tasks[i], TaskState::Running) {
                n = n + 1;
            }
            i += 1;
        }
        proof {
            assert(self.tasks@.subrange(0, self.tasks@.len() as int) =~= self.tasks@);
        }
        n
    }

    /// Whether every scheduled operation has finished.
    pub fn all_done(&self) -> (r: bool)
        ensures
            r == self.spec_all_done(),
    {
        let mut i: usize = 0;
        while i < self.tasks.len()
            invariant
                i <= self.tasks@.len(),
                forall|j: int| 0 <= j < i ==> self.tasks@[j] is Done,
            decreases self.tasks@.len() - i,
        {
            if !matches!(self.tasks[i], TaskState::Done) {
                return false;
            }
            i += 1;
        }
        true
    }

    /// At no instant do more operations run than the budget admits.
    pub proof fn lemma_running_bounded(&self)
        requires
            self.wf(),
        ensures
            self.running_count() <= self.spec_budget(),
    {
        lemma_count_where_le(
            self.spec_tasks(),
            |t: TaskState| t is Running,
            |t: TaskState| holds_permit(t),
        );
        lemma_count_where_bounds(self.spec_tasks(), |t: TaskState| holds_permit(t));
    }

    /// After the join barrier — every operation `Done` — the permit
    /// count is back at its initial value: no permit was leaked and
    /// none was released twice.
    pub proof fn lemma_no_leak(&self)
        requires
            self.wf(),
            self.spec_all_done(),
        ensures
            self.spec_available() == self.spec_budget(),
    {
        lemma_count_where_zero(self.spec_tasks(), |t: TaskState| holds_permit(t));
    }
}

/// The failures among a run's outcomes, in arrival order.
pub open spec fn spec_failures(rs: Seq<Result<String, GitError>>) -> Seq<GitError>
    decreases rs.len(),
{
    if rs.len() == 0 {
        Seq::empty()
    } else {
        match rs[0] {
            Ok(_) => spec_failures(rs.drop_first()),
            Err(e) => seq![e] + spec_failures(rs.drop_first()),
        }
    }
}

/// The consolidated report of one run: every failure in arrival
/// order, and whether the run as a whole succeeded.
pub struct Summary {
    pub failures: Vec<GitError>,
    pub ok: bool,
}

/// Aggregates a run: collects the failures among the outcomes, in
/// order, and judges the whole run — it succeeds exactly when no
/// operation failed and no requested name was missing. One failing
/// operation never swallows another: every failure is kept.
pub fn summarize(outcomes: Vec<Result<String, GitError>>, resolution_errors: usize) -> (s: Summary)
    ensures
        s.failures@ == spec_failures(outcomes@),
        s.ok == (spec_failures(outcomes@).len() == 0 && resolution_errors == 0),
{
    let ghost orig = outcomes@;
    let mut rest = outcomes;
    let mut failures: Vec<GitError> = Vec::new();
    proof {
        assert(failures@ + spec_failures(rest@) =~= spec_failures(orig));
    }
    while rest.len() > 0
        invariant
            failures@ + spec_failures(rest@) == spec_failures(orig),
        decreases rest@.len(),
    {
        let ghost prev = rest@;
        let r = rest.remove(0);
        proof {
            assert(prev.remove(0) =~= prev.drop_first());
        }
        match r {
            Ok(_) => {
                proof {
                    assert(failures@ + spec_failures(prev.drop_first()) =~= failures@
                        + spec_failures(prev));
                }
            },
            Err(e) => {
                proof {
                    assert(failures@.push(e) + spec_failures(prev.drop_first()) =~= failures@ + (
                    seq![e] + spec_failures(prev.drop_first())));
                }
                failures.push(e);
            },
        }
    }
    proof {
        assert(spec_failures(rest@) =~= Seq::<GitError>::empty());
        assert(failures@ + spec_failures(rest@) =~= failures@);
    }
    let ok = failures.len() == 0 && resolution_errors == 0;
    Summary { failures, ok }
}

/// The one-time banner shown before the failure lines, naming the
/// operation that ran: `The following <name> got error!`.
pub fn banner(name: &str) -> (s: String)
    ensures
        s@ == "The following "@ + name@ + " got error!"@,
{
    let mut s = String::from_str("The following ");
    s.append(name);
    s.append(" got error!");
    s
}

} // verus!
