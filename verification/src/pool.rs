//! Bounded-concurrency scheduler for RDP capture tasks.
//!
//! The pool dispatches one capture task per target, in source order, with
//! at most [`MAX_CONCURRENT`] tasks in flight at once. A finished task
//! signals the scheduling loop, which frees its concurrency slot; after
//! every target has been dispatched, each task handle is joined in spawn
//! order. A task's own capture failure is a non-fatal warning: it never
//! affects sibling tasks and never fails the pool itself.
//!
//! The threads, the status channel and the capture calls themselves live
//! outside this crate; [`WorkerPool`] is the scheduler-owned state those
//! loops drive, and every transition on it is verified.

use vstd::prelude::*;

verus! {

/// Fixed cap on the number of concurrently executing capture tasks.
pub const MAX_CONCURRENT: usize = 3;

/// Lifecycle of the capture task for one target.
///
/// `Idle` until the scheduler dispatches the target; `Running` from
/// dispatch until the scheduler observes the task's completion signal;
/// `Completed` until its handle is joined; `Joined` is terminal.
#[derive(Clone, Copy, Debug, PartialEq, Eq, Structural)]
pub enum TaskPhase {
    Idle,
    Running,
    Completed,
    Joined,
}

/// How many entries of `s` are in phase `p`.
pub open spec fn count_in_phase(s: Seq<TaskPhase>, p: TaskPhase) -> nat
    decreases s.len(),
{
    if s.len() == 0 {
        0
    } else {
        count_in_phase(s.drop_last(), p) + if s.last() == p {
            1nat
        } else {
            0nat
        }
    }
}

proof fn lemma_count_push(s: Seq<TaskPhase>, p: TaskPhase, v: TaskPhase)
    ensures
        count_in_phase(s.push(v), p) == count_in_phase(s, p) + if v == p {
            1nat
        } else {
            0nat
        },
{
    assert(s.push(v).drop_last() =~= s);
}

proof fn lemma_count_update(s: Seq<TaskPhase>, p: TaskPhase, i: int, v: TaskPhase)
    requires
        0 <= i < s.len(),
    ensures
        count_in_phase(s.update(i, v), p) == count_in_phase(s, p) + (if v == p {
            1int
        } else {
            0int
        }) - (if s[i] == p {
            1int
        } else {
            0int
        }),
    decreases s.len(),
{
    if i == s.len() - 1 {
        assert(s.update(i, v).drop_last() =~= s.drop_last());
    } else {
        assert(s.update(i, v).drop_last() =~= s.drop_last().update(i, v));
        lemma_count_update(s.drop_last(), p, i, v);
    }
}

/// If every one of `s.len()` entries counted for phase `p`, every entry
/// is in phase `p`.
proof fn lemma_full_count(s: Seq<TaskPhase>, p: TaskPhase)
    requires
        count_in_phase(s, p) == s.len(),
    ensures
        forall|i: int| 0 <= i < s.len() ==> s[i] == p,
    decreases s.len(),
{
    if s.len() > 0 {
        assert(count_in_phase(s.drop_last(), p) <= s.drop_last().len()) by {
            lemma_count_le_len(s.drop_last(), p);
        }
        lemma_full_count(s.drop_last(), p);
        assert forall|i: int| 0 <= i < s.len() implies s[i] == p by {
            if i < s.len() - 1 {
                assert(s.drop_last()[i] == p);
            } else {
                assert(s.last() == p);
            }
        }
    }
}

/// An entry that is not in phase `p` keeps the count for `p` strictly
/// below the length.
proof fn lemma_count_below_len(s: Seq<TaskPhase>, p: TaskPhase, i: int)
    requires
        0 <= i < s.len(),
        s[i] != p,
    ensures
        count_in_phase(s, p) < s.len(),
    decreases s.len(),
{
    lemma_count_le_len(s.drop_last(), p);
    if i < s.len() - 1 {
        lemma_count_below_len(s.drop_last(), p, i);
    }
}

proof fn lemma_count_le_len(s: Seq<TaskPhase>, p: TaskPhase)
    ensures
        count_in_phase(s, p) <= s.len(),
    decreases s.len(),
{
    if s.len() > 0 {
        lemma_count_le_len(s.drop_last(), p);
    }
}

/// Scheduler-owned state of the RDP worker pool over `n` targets.
///
/// One phase entry per target, in target-list order. `next` is the number
/// of targets dispatched so far (targets `0 .. next` in order, each
/// exactly once); `active` counts dispatched tasks whose completion
/// signal has not yet been consumed, and never exceeds
/// [`MAX_CONCURRENT`]; `joined` counts tasks whose handle has been
/// joined.
pub struct WorkerPool {
    phases: Vec<TaskPhase>,
    next: usize,
    active: usize,
    joined: usize,
}

impl WorkerPool {
    /// Phases of all tasks, in target order.
    pub closed spec fn phases(&self) -> Seq<TaskPhase> {
        self.phases@
    }

    /// Number of targets the pool was created for.
    pub open spec fn n(&self) -> nat {
        self.phases().len()
    }

    /// Number of targets dispatched so far.
    pub closed spec fn dispatched(&self) -> nat {
        self.next as nat
    }

    /// Number of dispatched tasks whose completion signal has not yet
    /// been consumed by the scheduling loop.
    pub closed spec fn active(&self) -> nat {
        self.active as nat
    }

    /// Number of task handles joined so far.
    pub closed spec fn joined(&self) -> nat {
        self.joined as nat
    }

    /// Well-formedness: targets are dispatched in order without gaps,
    /// the phase entries agree with the counters, and the number of
    /// running tasks never exceeds the concurrency cap.
    pub open spec fn inv(&self) -> bool {
        &&& self.dispatched() <= self.n()
        &&& forall|i: int|
            0 <= i < self.dispatched() ==> self.phases()[i] != TaskPhase::Idle
        &&& forall|i: int|
            self.dispatched() <= i < self.n() ==> self.phases()[i] == TaskPhase::Idle
        &&& self.active() == count_in_phase(self.phases(), TaskPhase::Running)
        &&& self.active() <= MAX_CONCURRENT
        &&& self.joined() == count_in_phase(self.phases(), TaskPhase::Joined)
    }

    /// A fresh pool for `n` targets: nothing dispatched, every task idle.
    pub fn new(n: usize) -> (pool: WorkerPool)
        ensures
            pool.inv(),
            pool.n() == n,
            pool.dispatched() == 0,
            pool.active() == 0,
            pool.joined() == 0,
            forall|i: int| 0 <= i < n ==> pool.phases()[i] == TaskPhase::Idle,
    {
        let mut phases: Vec<TaskPhase> = Vec::new();
        let mut i: usize = 0;
        while i < n
            invariant
                i <= n,
                phases@.len() == i,
                forall|j: int| 0 <= j < i ==> phases@[j] == TaskPhase::Idle,
                count_in_phase(phases@, TaskPhase::Running) == 0,
                count_in_phase(phases@, TaskPhase::Joined) == 0,
            decreases n - i,
        {
            proof {
                lemma_count_push(phases@, TaskPhase::Running, TaskPhase::Idle);
                lemma_count_push(phases@, TaskPhase::Joined, TaskPhase::Idle);
            }
            phases.push(TaskPhase::Idle);
            i = i + 1;
        }
        WorkerPool { phases, next: 0, active: 0, joined: 0 }
    }

    /// Number of targets, as the scheduling loop reads it.
    pub fn target_count(&self) -> (n: usize)
        ensures
            n == self.n(),
    {
        self.phases.len()
    }

    /// Number of targets dispatched so far.
    pub fn dispatched_count(&self) -> (d: usize)
        ensures
            d == self.dispatched(),
    {
        self.next
    }

    /// Number of tasks currently occupying a concurrency slot.
    pub fn active_count(&self) -> (a: usize)
        ensures
            a == self.active(),
    {
        self.active
    }

    /// Number of task handles joined so far.
    pub fn joined_count(&self) -> (j: usize)
        ensures
            j == self.joined(),
    {
        self.joined
    }

    /// Phase of the task for target `i`.
    pub fn phase_of(&self, i: usize) -> (p: TaskPhase)
        requires
            i < self.n(),
        ensures
            p == self.phases()[i as int],
    {
        self.phases[i]
    }

    /// Whether the scheduling loop may dispatch another task now: a
    /// concurrency slot is free and a target remains.
    pub fn can_dispatch(&self) -> (b: bool)
        ensures
            b == (self.active() < MAX_CONCURRENT && self.dispatched() < self.n()),
    {
        self.active < MAX_CONCURRENT && self.next < self.phases.len()
    }

    /// Dispatch the next target: spawn its capture task, occupying one
    /// concurrency slot. Returns the index of the target dispatched.
    /// Every other task's phase is untouched, so each target is
    /// dispatched exactly once, in source order.
    pub fn dispatch_next(&mut self) -> (idx: usize)
        requires
            old(self).inv(),
            old(self).active() < MAX_CONCURRENT,
            old(self).dispatched() < old(self).n(),
        ensures
            final(self).inv(),
            idx == old(self).dispatched(),
            old(self).phases()[idx as int] == TaskPhase::Idle,
            final(self).n() == old(self).n(),
            final(self).dispatched() == old(self).dispatched() + 1,
            final(self).active() == old(self).active() + 1,
            final(self).joined() == old(self).joined(),
            final(self).phases() == old(self).phases().update(idx as int, TaskPhase::Running),
            final(self).phases()[idx as int] == TaskPhase::Running,
            forall|j: int|
                0 <= j < final(self).n() && j != idx ==> final(self).phases()[j] == old(
                    self,
                ).phases()[j],
    {
        let idx = self.next;
        let n = self.phases.len();
        assert(idx < n);
        proof {
            lemma_count_update(self.phases@, TaskPhase::Running, idx as int, TaskPhase::Running);
            lemma_count_update(self.phases@, TaskPhase::Joined, idx as int, TaskPhase::Running);
        }
        self.phases.set(idx, TaskPhase::Running);
        self.next = self.next + 1;
        self.active = self.active + 1;
        idx
    }

    /// Consume one completion signal ([`crate::ThreadStatus::Complete`])
    /// from the status channel, attributed to the running task `finished`
    /// that sent it, freeing that task's concurrency slot. No other
    /// task's phase changes.
    pub fn consume_signal(&mut self, finished: usize)
        requires
            old(self).inv(),
            finished < old(self).n(),
            old(self).phases()[finished as int] == TaskPhase::Running,
        ensures
            final(self).inv(),
            final(self).n() == old(self).n(),
            final(self).dispatched() == old(self).dispatched(),
            final(self).active() == old(self).active() - 1,
            final(self).joined() == old(self).joined(),
            final(self).phases() == old(self).phases().update(
                finished as int,
                TaskPhase::Completed,
            ),
            final(self).phases()[finished as int] == TaskPhase::Completed,
            forall|j: int|
                0 <= j < final(self).n() && j != finished ==> final(self).phases()[j] == old(
                    self,
                ).phases()[j],
    {
        proof {
            lemma_count_update(
                self.phases@,
                TaskPhase::Running,
                finished as int,
                TaskPhase::Completed,
            );
            lemma_count_update(
                self.phases@,
                TaskPhase::Joined,
                finished as int,
                TaskPhase::Completed,
            );
            assert(count_in_phase(self.phases@, TaskPhase::Running) >= 1) by {
                lemma_phase_counted(self.phases@, TaskPhase::Running, finished as int);
            }
        }
        self.phases.set(finished, TaskPhase::Completed);
        self.active = self.active - 1;
    }

    /// Join the handle of the completed task `i`, observing whether its
    /// own capture succeeded. Returns whether the scheduling loop should
    /// log a non-fatal warning. A task's failure has no effect on any
    /// sibling task's phase and none on the pool's own outcome.
    pub fn join_task(&mut self, i: usize, capture_ok: bool) -> (warn: bool)
        requires
            old(self).inv(),
            i < old(self).n(),
            old(self).phases()[i as int] == TaskPhase::Completed,
        ensures
            final(self).inv(),
            warn == !capture_ok,
            final(self).n() == old(self).n(),
            final(self).dispatched() == old(self).dispatched(),
            final(self).active() == old(self).active(),
            final(self).joined() == old(self).joined() + 1,
            final(self).phases() == old(self).phases().update(i as int, TaskPhase::Joined),
            final(self).phases()[i as int] == TaskPhase::Joined,
            forall|j: int|
                0 <= j < final(self).n() && j != i ==> final(self).phases()[j] == old(
                    self,
                ).phases()[j],
    {
        proof {
            lemma_count_update(self.phases@, TaskPhase::Running, i as int, TaskPhase::Joined);
            lemma_count_update(self.phases@, TaskPhase::Joined, i as int, TaskPhase::Joined);
            lemma_count_below_len(self.phases@, TaskPhase::Joined, i as int);
        }
        let n = self.phases.len();
        assert(self.joined < n);
        self.phases.set(i, TaskPhase::Joined);
        self.joined = self.joined + 1;
        !capture_ok
    }

    /// Whether every task handle has been joined: the pool's return
    /// condition.
    pub fn all_joined(&self) -> (b: bool)
        ensures
            b == (self.joined() == self.n()),
    {
        self.joined == self.phases.len()
    }
}

/// The scheduling loop of the RDP worker pool, run to completion.
///
/// Dispatches every one of the `n` targets exactly once, in source
/// order, never letting more than [`MAX_CONCURRENT`] tasks occupy a slot
/// at once, and then joins every task handle in spawn order, returning
/// only once all `n` are joined. The environment's only influence is
/// each task's own capture result, given as `capture_ok`; here tasks are
/// observed to finish in dispatch order (a join of a still-running task
/// waits for it first). Whatever the capture results are — any target
/// failing, all of them failing — every task reaches the terminal
/// `Joined` phase, and a task's failure surfaces only as its own warning
/// flag in the returned vector. The returned dispatch log holds target
/// `i` at position `i`: each target is dispatched exactly once, in
/// source order.
pub fn run_rdp_schedule(n: usize, capture_ok: &Vec<bool>) -> (r: (
    WorkerPool,
    Vec<bool>,
    Vec<usize>,
))
    requires
        capture_ok@.len() == n,
    ensures
        r.0.inv(),
        r.0.n() == n,
        r.0.dispatched() == n,
        r.0.joined() == n,
        r.0.active() == 0,
        forall|i: int| 0 <= i < n ==> r.0.phases()[i] == TaskPhase::Joined,
        r.1@.len() == n,
        forall|i: int| 0 <= i < n ==> r.1@[i] == !capture_ok@[i],
        r.2@.len() == n,
        forall|i: int| 0 <= i < n ==> r.2@[i] == i,
{
    let mut pool = WorkerPool::new(n);
    let mut dispatch_log: Vec<usize> = Vec::new();
    let mut oldest: usize = 0;
    while pool.dispatched_count() < n
        invariant
            pool.inv(),
            pool.n() == n,
            oldest <= pool.dispatched() <= n,
            pool.joined() == 0,
            pool.active() == pool.dispatched() - oldest,
            dispatch_log@.len() == pool.dispatched(),
            forall|j: int| 0 <= j < dispatch_log@.len() ==> dispatch_log@[j] == j,
            forall|j: int| 0 <= j < oldest ==> pool.phases()[j] == TaskPhase::Completed,
            forall|j: int|
                oldest <= j < pool.dispatched() ==> pool.phases()[j] == TaskPhase::Running,
        decreases 2 * n - pool.dispatched() - oldest,
    {
        if pool.active_count() < MAX_CONCURRENT {
            let idx = pool.dispatch_next();
            dispatch_log.push(idx);
        } else {
            pool.consume_signal(oldest);
            oldest = oldest + 1;
        }
    }
    while oldest < n
        invariant
            pool.inv(),
            pool.n() == n,
            pool.dispatched() == n,
            oldest <= n,
            pool.joined() == 0,
            pool.active() == n - oldest,
            dispatch_log@.len() == n,
            forall|j: int| 0 <= j < n ==> dispatch_log@[j] == j,
            forall|j: int| 0 <= j < oldest ==> pool.phases()[j] == TaskPhase::Completed,
            forall|j: int| oldest <= j < n ==> pool.phases()[j] == TaskPhase::Running,
        decreases n - oldest,
    {
        pool.consume_signal(oldest);
        oldest = oldest + 1;
    }
    let mut warns: Vec<bool> = Vec::new();
    let mut i: usize = 0;
    while i < n
        invariant
            pool.inv(),
            pool.n() == n,
            pool.dispatched() == n,
            pool.active() == 0,
            pool.joined() == i,
            i <= n,
            capture_ok@.len() == n,
            warns@.len() == i,
            dispatch_log@.len() == n,
            forall|j: int| 0 <= j < n ==> dispatch_log@[j] == j,
            forall|j: int| 0 <= j < i ==> pool.phases()[j] == TaskPhase::Joined,
            forall|j: int| i <= j < n ==> pool.phases()[j] == TaskPhase::Completed,
            forall|j: int| 0 <= j < i ==> warns@[j] == !capture_ok@[j],
        decreases n - i,
    {
        let warn = pool.join_task(i, capture_ok[i]);
        warns.push(warn);
        i = i + 1;
    }
    (pool, warns, dispatch_log)
}

/// An entry in phase `p` contributes to the count for `p`; here, a lower
/// bound used when a counter is decremented.
proof fn lemma_phase_counted(s: Seq<TaskPhase>, p: TaskPhase, i: int)
    requires
        0 <= i < s.len(),
        s[i] == p,
    ensures
        count_in_phase(s, p) >= 1,
    decreases s.len(),
{
    if i < s.len() - 1 {
        lemma_phase_counted(s.drop_last(), p, i);
    }
}

/// At every instant, at most [`MAX_CONCURRENT`] tasks are in `Running`
/// phase: the count of running tasks is bounded by the active counter,
/// which the scheduler keeps below the cap.
pub proof fn lemma_running_bounded(pool: &WorkerPool)
    requires
        pool.inv(),
    ensures
        count_in_phase(pool.phases(), TaskPhase::Running) <= MAX_CONCURRENT,
{
}

/// Once the pool reports that every handle is joined, every task — the
/// failed ones included — is in the terminal `Joined` phase, and every
/// target was dispatched.
pub proof fn lemma_all_joined_terminal(pool: &WorkerPool)
    requires
        pool.inv(),
        pool.joined() == pool.n(),
    ensures
        forall|i: int| 0 <= i < pool.n() ==> pool.phases()[i] == TaskPhase::Joined,
        pool.dispatched() == pool.n(),
{
    lemma_full_count(pool.phases(), TaskPhase::Joined);
    if pool.dispatched() < pool.n() {
        assert(pool.phases()[pool.dispatched() as int] == TaskPhase::Idle);
    }
}

} // verus!
