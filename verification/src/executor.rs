//! Cooperative task executor for a thread driven by a message pump.
//!
//! The executor owns a FIFO run queue of ready tasks and a registry of all
//! tasks it has ever spawned. It never owns the event loop: whenever it
//! needs the loop to call [`AsyncExecutor::poll_all`] it *requests* a wakeup,
//! and the request is returned to the caller as a boolean ("post the wakeup
//! message now"). At most one wakeup request is outstanding at any time:
//! `is_scheduled` is true exactly while a request has been issued and not
//! yet consumed, and a new request is issued only when none is pending.
//!
//! Every state change is mirrored by a specification-level transition on
//! [`ExecModel`], so properties of the scheduler (idempotent wakes, the
//! at-most-once run-queue invariant, the fairness cap) are proved about the
//! model and carried to the executable code by the method contracts.

use std::collections::VecDeque;
use vstd::prelude::*;

verus! {

/// Number of polls one wakeup cycle performs before yielding back to the
/// event loop, unless the run queue empties first.
pub const DEFAULT_MAX_POLLS_PER_CYCLE: u32 = 32;

/// Outcome of polling a task once.
#[derive(Copy, Clone, PartialEq, Eq, Structural, Debug)]
pub enum PollStatus {
    /// The task has completed and must be dropped.
    Ready,
    /// The task is waiting; only a wake can re-queue it.
    Pending,
}

/// A cloneable handle that re-queues its task when given back to the
/// executor. Cloning the handle never changes the executor: redundant
/// wakes are absorbed by the task's `in_run_queue` guard.
#[derive(Copy, Clone, PartialEq, Eq, Structural, Debug)]
pub struct Waker {
    /// Identifier of the task this handle wakes.
    pub task: usize,
}

impl Waker {
    /// A handle for the task with identifier `task`.
    pub fn for_task(task: usize) -> (w: Waker)
        ensures
            w.task == task,
    {
        Waker { task }
    }
}

/// Specification-level state of one task.
#[verifier::ext_equal]
pub ghost struct TaskModel {
    /// False once the task completed (its future was dropped).
    pub live: bool,
    /// True exactly while the task sits in the run queue.
    pub in_run_queue: bool,
    /// Diagnostic label given at spawn time.
    pub label: Seq<char>,
}

/// Specification-level state of the executor.
#[verifier::ext_equal]
pub ghost struct ExecModel {
    /// Every task ever spawned, indexed by its identifier.
    pub tasks: Seq<TaskModel>,
    /// Identifiers of tasks awaiting a poll, front first.
    pub runnable: Seq<int>,
    /// True while a wakeup request is outstanding.
    pub is_scheduled: bool,
    /// Fairness cap: polls permitted per wakeup cycle.
    pub max_polls: int,
}

/// Invariants of the executor state. In particular `in_run_queue` is the
/// exact membership guard of the run queue, and the queue never holds a
/// task twice.
pub open spec fn wf_model(m: ExecModel) -> bool {
    &&& forall|i: int| 0 <= i < m.runnable.len() ==> 0 <= #[trigger] m.runnable[i] < m.tasks.len()
    &&& forall|i: int, j: int|
        0 <= i < j < m.runnable.len() ==> m.runnable[i] != m.runnable[j]
    &&& forall|t: int|
        0 <= t < m.tasks.len() ==> ((#[trigger] m.tasks[t]).in_run_queue <==> m.runnable.contains(
            t,
        ))
    &&& forall|t: int| 0 <= t < m.tasks.len() && (#[trigger] m.tasks[t]).in_run_queue ==> m.tasks[t].live
    &&& m.max_polls >= 1
}

/// Issue a wakeup request unless one is already outstanding. Returns the
/// new state and whether a request was issued.
pub open spec fn spec_request_wakeup(m: ExecModel) -> (ExecModel, bool) {
    if m.is_scheduled {
        (m, false)
    } else {
        (ExecModel { is_scheduled: true, ..m }, true)
    }
}

/// Consume the outstanding wakeup: the poll entry point runs in response
/// to it, so a fresh request may be issued afterwards.
pub open spec fn spec_consume_wakeup(m: ExecModel) -> ExecModel {
    ExecModel { is_scheduled: false, ..m }
}

/// The state change of a spawn before any wakeup request: a new task,
/// already marked queued, appended to the registry and the run queue.
pub open spec fn spec_spawn_raw(m: ExecModel, label: Seq<char>) -> ExecModel {
    ExecModel {
        tasks: m.tasks.push(TaskModel { live: true, in_run_queue: true, label }),
        runnable: m.runnable.push(m.tasks.len() as int),
        ..m
    }
}

/// Spawn: append a new task, already marked queued, to the registry and the
/// run queue, then request a wakeup if none is pending.
pub open spec fn spec_spawn(m: ExecModel, label: Seq<char>) -> (ExecModel, bool) {
    spec_request_wakeup(spec_spawn_raw(m, label))
}

/// Wake: a no-op on an unknown, completed, or already-queued task;
/// otherwise the task is marked and queued at the back, and a wakeup is
/// requested when the push made the queue non-empty.
pub open spec fn spec_wake(m: ExecModel, t: int) -> (ExecModel, bool) {
    if 0 <= t < m.tasks.len() && m.tasks[t].live && !m.tasks[t].in_run_queue {
        let m1 = spec_wake_raw(m, t);
        if m.runnable.len() == 0 {
            spec_request_wakeup(m1)
        } else {
            (m1, false)
        }
    } else {
        (m, false)
    }
}

/// The state change of an effective wake before any wakeup request.
pub open spec fn spec_wake_raw(m: ExecModel, t: int) -> ExecModel {
    ExecModel {
        tasks: m.tasks.update(t, TaskModel { in_run_queue: true, ..m.tasks[t] }),
        runnable: m.runnable.push(t),
        ..m
    }
}

/// One poll performed during a wakeup cycle: which task was polled, what
/// its poll reported, and which wakes and spawns it requested.
#[verifier::ext_equal]
pub ghost struct PollEvent {
    /// Identifier of the polled task; always the front of the run queue.
    pub task: int,
    /// True when the poll reported completion.
    pub ready: bool,
    /// Tasks the poll asked to wake, in order.
    pub wakes: Seq<int>,
    /// Labels of tasks the poll asked to spawn, in order.
    pub spawned: Seq<Seq<char>>,
}

/// Pop the front task and clear its guard flag; drop it when `ready`.
/// This is the queue change of one poll, before the wakes and spawns the
/// poll requested are applied.
pub open spec fn spec_poll_core(m: ExecModel, t: int, ready: bool) -> ExecModel {
    ExecModel {
        tasks: m.tasks.update(
            t,
            TaskModel {
                in_run_queue: false,
                live: m.tasks[t].live && !ready,
                label: m.tasks[t].label,
            },
        ),
        runnable: m.runnable.drop_first(),
        ..m
    }
}

/// A spawn requested from inside a poll: refused only when the task
/// registry cannot grow any further.
pub open spec fn spec_spawn_step(m: ExecModel, label: Seq<char>) -> (ExecModel, bool) {
    if m.tasks.len() < usize::MAX {
        spec_spawn(m, label)
    } else {
        (m, false)
    }
}

/// Apply a list of wakes in order.
pub open spec fn spec_apply_wakes(m: ExecModel, wakes: Seq<int>) -> ExecModel
    decreases wakes.len(),
{
    if wakes.len() == 0 {
        m
    } else {
        spec_apply_wakes(spec_wake(m, wakes[0]).0, wakes.drop_first())
    }
}

/// Apply a list of spawns in order.
pub open spec fn spec_apply_spawns(m: ExecModel, labels: Seq<Seq<char>>) -> ExecModel
    decreases labels.len(),
{
    if labels.len() == 0 {
        m
    } else {
        spec_apply_spawns(spec_spawn_step(m, labels[0]).0, labels.drop_first())
    }
}

/// The full state change of one poll: pop and poll the front task, then
/// apply its wakes, then its spawns. A task completing (`ready`) is
/// dropped before its own wakes apply, so a self-wake from a completing
/// poll is a no-op.
pub open spec fn spec_poll_event(m: ExecModel, e: PollEvent) -> ExecModel {
    spec_apply_spawns(spec_apply_wakes(spec_poll_core(m, e.task, e.ready), e.wakes), e.spawned)
}

/// Fold a sequence of polls over the state, in order.
pub open spec fn spec_apply_events(m: ExecModel, events: Seq<PollEvent>) -> ExecModel
    decreases events.len(),
{
    if events.len() == 0 {
        m
    } else {
        spec_apply_events(spec_poll_event(m, events[0]), events.drop_first())
    }
}

/// Events describe a real cycle when each in turn polls exactly the task
/// then at the front of the run queue.
pub open spec fn events_admissible(m: ExecModel, events: Seq<PollEvent>) -> bool
    decreases events.len(),
{
    events.len() == 0 || {
        &&& m.runnable.len() > 0
        &&& events[0].task == m.runnable[0]
        &&& events_admissible(spec_poll_event(m, events[0]), events.drop_first())
    }
}

/// Everything [`AsyncExecutor::poll_all`] promises about one wakeup cycle,
/// relating the state before (`m_in`) and after (`m_out`) through the
/// polls that ran (`events`) and whether a wakeup request came out of the
/// cycle (`posted`).
pub open spec fn spec_cycle_post(
    m_in: ExecModel,
    m_out: ExecModel,
    events: Seq<PollEvent>,
    posted: bool,
) -> bool {
    let m0 = spec_consume_wakeup(m_in);
    let mid = spec_apply_events(m0, events);
    &&& events_admissible(m0, events)
    &&& events.len() <= m_in.max_polls
    &&& (events.len() < m_in.max_polls ==> mid.runnable.len() == 0)
    &&& m_out == (if mid.runnable.len() > 0 {
        spec_request_wakeup(mid).0
    } else {
        mid
    })
    &&& posted == m_out.is_scheduled
}

/// What a task told the executor while being polled: deferred wakes and
/// deferred spawns, applied in order once the poll returns.
pub struct PollContext<F> {
    wakes: Vec<usize>,
    spawns: Vec<(String, F)>,
}

impl<F> PollContext<F> {
    /// Tasks this poll asked to wake, in order.
    pub closed spec fn wake_list(&self) -> Seq<int> {
        self.wakes@.map_values(|t: usize| t as int)
    }

    /// Labels of tasks this poll asked to spawn, in order.
    pub closed spec fn spawn_labels(&self) -> Seq<Seq<char>> {
        self.spawns@.map_values(|s: (String, F)| s.0@)
    }

    /// Ask the executor to wake `waker`'s task once this poll returns.
    pub fn wake(&mut self, waker: Waker)
        ensures
            final(self).wake_list() == old(self).wake_list().push(waker.task as int),
            final(self).spawn_labels() == old(self).spawn_labels(),
    {
        self.wakes.push(waker.task);
        proof {
            assert(final(self).wake_list() =~= old(self).wake_list().push(waker.task as int));
        }
    }

    /// Ask the executor to spawn a new task once this poll returns.
    pub fn spawn(&mut self, label: String, future: F)
        ensures
            final(self).wake_list() == old(self).wake_list(),
            final(self).spawn_labels() == old(self).spawn_labels().push(label@),
    {
        self.spawns.push((label, future));
        proof {
            assert(final(self).spawn_labels() =~= old(self).spawn_labels().push(label@));
        }
    }
}

/// One asynchronous computation driven by the executor. Implementors are
/// user code: nothing is assumed about what `poll` reports or requests.
pub trait TaskFuture: Sized {
    /// Poll once. `self_id` identifies the task so it can build a [`Waker`]
    /// for itself; `ctx` records wakes and spawns to apply after the poll.
    fn poll(&mut self, ctx: &mut PollContext<Self>, self_id: usize) -> PollStatus;
}

struct TaskEntry<F> {
    future: Option<F>,
    in_run_queue: bool,
    live: bool,
    label: String,
}

impl<F> TaskEntry<F> {
    closed spec fn model(self) -> TaskModel {
        TaskModel { live: self.live, in_run_queue: self.in_run_queue, label: self.label@ }
    }
}

/// The executor: a task registry, a FIFO run queue, the wakeup-outstanding
/// flag, and the fairness cap.
pub struct AsyncExecutor<F: TaskFuture> {
    tasks: Vec<TaskEntry<F>>,
    runnable: VecDeque<usize>,
    is_scheduled: bool,
    max_polls_per_cycle: u32,
}

impl<F: TaskFuture> View for AsyncExecutor<F> {
    type V = ExecModel;

    closed spec fn view(&self) -> ExecModel {
        ExecModel {
            tasks: self.tasks@.map_values(|t: TaskEntry<F>| t.model()),
            runnable: self.runnable@.map_values(|i: usize| i as int),
            is_scheduled: self.is_scheduled,
            max_polls: self.max_polls_per_cycle as int,
        }
    }
}

impl<F: TaskFuture> AsyncExecutor<F> {
    /// Model invariants plus: a task holds its future exactly while live.
    pub closed spec fn wf(&self) -> bool {
        &&& wf_model(self@)
        &&& forall|t: int|
            0 <= t < self.tasks@.len() ==> ((#[trigger] self.tasks@[t]).live <==> self.tasks@[t].future
                is Some)
    }

    /// A fresh executor: no tasks, nothing runnable, no wakeup pending,
    /// default fairness cap.
    pub fn new() -> (e: Self)
        ensures
            e.wf(),
            e@.tasks.len() == 0,
            e@.runnable.len() == 0,
            !e@.is_scheduled,
            e@.max_polls == DEFAULT_MAX_POLLS_PER_CYCLE,
    {
        let e = AsyncExecutor {
            tasks: Vec::new(),
            runnable: VecDeque::new(),
            is_scheduled: false,
            max_polls_per_cycle: DEFAULT_MAX_POLLS_PER_CYCLE,
        };
        proof {
            assert(e@.tasks =~= Seq::<TaskModel>::empty());
            assert(e@.runnable =~= Seq::<int>::empty());
        }
        e
    }

    /// The fairness cap currently in force.
    pub fn max_polls_per_cycle(&self) -> (n: u32)
        ensures
            n == self@.max_polls,
    {
        self.max_polls_per_cycle
    }

    /// Change the fairness cap. At least one poll per cycle must remain
    /// permitted, or a wakeup cycle could make no progress at all.
    pub fn set_max_polls_per_cycle(&mut self, n: u32)
        requires
            old(self).wf(),
            n >= 1,
        ensures
            final(self).wf(),
            final(self)@ == (ExecModel { max_polls: n as int, ..old(self)@ }),
    {
        self.max_polls_per_cycle = n;
        proof {
            assert(self@ =~= (ExecModel { max_polls: n as int, ..old(self)@ }));
        }
    }

    /// Request a wakeup if none is outstanding. Returns true when the
    /// caller must now post the wakeup message to the event loop.
    fn request_wakeup(&mut self) -> (posted: bool)
        ensures
            final(self)@ == spec_request_wakeup(old(self)@).0,
            posted == spec_request_wakeup(old(self)@).1,
            final(self).wf() == old(self).wf(),
    {
        let need = !self.is_scheduled;
        if need {
            self.is_scheduled = true;
        }
        proof {
            assert(self@ =~= spec_request_wakeup(old(self)@).0);
            assert(self.tasks@ =~= old(self).tasks@);
            assert(self@.tasks =~= old(self)@.tasks);
            assert(self@.runnable =~= old(self)@.runnable);
        }
        need
    }

    /// Spawn a new task. Returns its identifier and whether the caller
    /// must post a wakeup message. The task starts marked as queued, so a
    /// wake delivered before its first poll is a no-op.
    pub fn spawn(&mut self, label: String, future: F) -> (r: (usize, bool))
        requires
            old(self).wf(),
        ensures
            final(self).wf(),
            r.0 == old(self)@.tasks.len(),
            final(self)@ == spec_spawn(old(self)@, label@).0,
            r.1 == spec_spawn(old(self)@, label@).1,
    {
        let id = self.tasks.len();
        let ghost label_view = label@;
        self.tasks.push(TaskEntry { future: Some(future), in_run_queue: true, live: true, label });
        self.runnable.push_back(id);
        proof {
            let m1 = spec_spawn_raw(old(self)@, label_view);
            assert(self@.tasks =~= m1.tasks);
            assert(self@.runnable =~= m1.runnable);
            assert(self@ =~= m1);
            lemma_spawn_wf(old(self)@, label_view);
            assert forall|t: int| 0 <= t < self.tasks@.len() implies ((
            #[trigger] self.tasks@[t]).live <==> self.tasks@[t].future is Some) by {
                if t < old(self).tasks@.len() {
                    assert(self.tasks@[t] == old(self).tasks@[t]);
                }
            }
            assert(self.wf());
        }
        let posted = self.request_wakeup();
        proof {
            assert(self@ =~= spec_spawn(old(self)@, label_view).0);
        }
        (id, posted)
    }

    /// Wake the task `waker` refers to, consuming this handle; equivalent
    /// to a wake through a reference followed by dropping the handle.
    /// Returns whether the caller must post a wakeup message.
    pub fn wake(&mut self, waker: Waker) -> (posted: bool)
        requires
            old(self).wf(),
        ensures
            final(self).wf(),
            final(self)@ == spec_wake(old(self)@, waker.task as int).0,
            posted == spec_wake(old(self)@, waker.task as int).1,
    {
        self.wake_by_ref(&waker)
    }

    /// Wake the task `waker` refers to. Idempotent: if the task is already
    /// queued, completed, or unknown, nothing changes. Returns whether the
    /// caller must post a wakeup message.
    pub fn wake_by_ref(&mut self, waker: &Waker) -> (posted: bool)
        requires
            old(self).wf(),
        ensures
            final(self).wf(),
            final(self)@ == spec_wake(old(self)@, waker.task as int).0,
            posted == spec_wake(old(self)@, waker.task as int).1,
    {
        let t = waker.task;
        if t >= self.tasks.len() {
            return false;
        }
        if !self.tasks[t].live || self.tasks[t].in_run_queue {
            return false;
        }
        let was_empty = self.runnable.len() == 0;
        self.tasks[t].in_run_queue = true;
        self.runnable.push_back(t);
        proof {
            let m = old(self)@;
            let m1 = spec_wake_raw(m, t as int);
            assert(self@.tasks =~= m1.tasks);
            assert(self@.runnable =~= m1.runnable);
            assert(self@ =~= m1);
            lemma_wake_wf(m, t as int);
            assert forall|u: int| 0 <= u < self.tasks@.len() implies ((
            #[trigger] self.tasks@[u]).live <==> self.tasks@[u].future is Some) by {
                if u != t as int {
                    assert(self.tasks@[u] == old(self).tasks@[u]);
                }
            }
            assert(self.wf());
        }
        if was_empty {
            let posted = self.request_wakeup();
            proof {
                assert(self@ =~= spec_wake(old(self)@, t as int).0);
            }
            posted
        } else {
            proof {
                assert(self@ =~= spec_wake(old(self)@, t as int).0);
            }
            false
        }
    }
    /// One wakeup cycle, run on the owning thread in response to the wakeup
    /// message. The outstanding wakeup request is consumed first; then the
    /// front task is popped and polled repeatedly until the run queue is
    /// empty or the fairness cap is reached. When the cap stops the cycle
    /// while work remains, a fresh wakeup is requested so that the event
    /// loop dispatches other messages before asynchronous work resumes.
    ///
    /// No executor state is held across a call into user code: a task's
    /// poll never sees the executor itself, only a [`PollContext`] whose
    /// wake and spawn requests are applied after the poll returns.
    ///
    /// Returns whether the caller must post a wakeup message, and the
    /// record of the polls performed, which [`spec_cycle_post`] ties to the
    /// state change.
    pub fn poll_all(&mut self) -> (r: (bool, Ghost<Seq<PollEvent>>))
        requires
            old(self).wf(),
        ensures
            final(self).wf(),
            spec_cycle_post(old(self)@, final(self)@, r.1@, r.0),
    {
        self.is_scheduled = false;
        let ghost m0 = self@;
        proof {
            assert(m0 =~= spec_consume_wakeup(old(self)@));
            assert(self.tasks@ =~= old(self).tasks@);
            assert(self@.tasks =~= old(self)@.tasks);
            assert(self@.runnable =~= old(self)@.runnable);
            assert(self.wf());
        }
        let max_polls = self.max_polls_per_cycle;
        let mut num_polls: u32 = 0;
        let mut posted = false;
        let mut need_reschedule = false;
        let ghost mut events: Seq<PollEvent> = Seq::empty();
        loop
            invariant_except_break
                !need_reschedule,
            invariant
                self.wf(),
                events_admissible(m0, events),
                self@ == spec_apply_events(m0, events),
                events.len() == num_polls,
                num_polls <= max_polls,
                max_polls == m0.max_polls,
                posted == self@.is_scheduled,
            ensures
                self.wf(),
                events_admissible(m0, events),
                self@ == spec_apply_events(m0, events),
                events.len() <= max_polls,
                max_polls == m0.max_polls,
                posted == self@.is_scheduled,
                need_reschedule ==> events.len() == max_polls && self@.runnable.len() > 0,
                !need_reschedule ==> self@.runnable.len() == 0,
            decreases max_polls - num_polls,
        {
            if self.runnable.len() == 0 {
                break;
            }
            if num_polls >= max_polls {
                need_reschedule = true;
                break;
            }
            let ghost m_iter = self@;
            let ghost tasks0 = self.tasks@;
            proof {
                assert(m_iter.runnable.contains(m_iter.runnable[0]));
            }
            let id = self.runnable.pop_front().unwrap();
            proof {
                assert(id as int == m_iter.runnable[0]);
                assert(self@.runnable =~= m_iter.runnable.drop_first());
            }
            // The task at the front is queued, hence live, hence holds its
            // future. Clear the guard flag before polling: a wake arriving
            // from inside the poll must re-queue the task for a later
            // cycle, not be lost.
            proof {
                assert(m_iter.tasks[id as int].in_run_queue);
                assert(m_iter.tasks[id as int].live);
                assert(m_iter.tasks[id as int] == tasks0[id as int].model());
                assert(tasks0[id as int].future is Some);
            }
            self.tasks[id].in_run_queue = false;
            proof {
                assert(self.tasks@[id as int].future == tasks0[id as int].future);
            }
            let fut_opt = self.tasks[id].future.take();
            let mut f = fut_opt.unwrap();
            let mut ctx = PollContext { wakes: Vec::new(), spawns: Vec::new() };
            proof {
                assert(ctx.wake_list() =~= Seq::<int>::empty());
                assert(ctx.spawn_labels() =~= Seq::<Seq<char>>::empty());
            }
            let status = f.poll(&mut ctx, id);
            let ready = status == PollStatus::Ready;
            if ready {
                // The task completed: its future has already been taken
                // out and is dropped when `f` goes out of scope.
                self.tasks[id].live = false;
            } else {
                self.tasks[id].future = Some(f);
            }
            let ghost mcore = spec_poll_core(m_iter, id as int, ready);
            proof {
                assert(self@.tasks =~~= mcore.tasks);
                assert(self@.runnable =~= mcore.runnable);
                assert(self@ =~= mcore);
                lemma_poll_core_wf(m_iter, id as int, ready);
                assert forall|u: int| 0 <= u < self.tasks@.len() implies ((
                #[trigger] self.tasks@[u]).live <==> self.tasks@[u].future is Some) by {
                    if u != id as int {
                        assert(self.tasks@[u] == tasks0[u]);
                    }
                }
                assert(self.wf());
            }
            let ghost wlist = ctx.wake_list();
            let ghost slist = ctx.spawn_labels();
            let mut wi: usize = 0;
            while wi < ctx.wakes.len()
                invariant
                    self.wf(),
                    wi <= ctx.wakes.len(),
                    ctx.wake_list() == wlist,
                    self@ == spec_apply_wakes(mcore, wlist.take(wi as int)),
                    posted == self@.is_scheduled,
                decreases ctx.wakes.len() - wi,
            {
                let w = ctx.wakes[wi];
                proof {
                    assert(wlist[wi as int] == w as int);
                    assert(wlist.take(wi as int + 1) =~= wlist.take(wi as int).push(w as int));
                    lemma_apply_wakes_push(mcore, wlist.take(wi as int), w as int);
                }
                let p = self.wake(Waker { task: w });
                posted = posted || p;
                wi += 1;
            }
            proof {
                assert(wlist.take(ctx.wakes@.len() as int) =~= wlist);
            }
            let ghost mwakes = self@;
            let ghost mut si: int = 0;
            while ctx.spawns.len() > 0
                invariant
                    self.wf(),
                    0 <= si <= slist.len(),
                    ctx.spawn_labels() == slist.skip(si),
                    self@ == spec_apply_spawns(mwakes, slist.take(si)),
                    posted == self@.is_scheduled,
                decreases ctx.spawns.len(),
            {
                let ghost remaining = ctx.spawns@;
                let ghost labels_before = ctx.spawn_labels();
                let (label, f2) = ctx.spawns.remove(0);
                proof {
                    assert(labels_before == slist.skip(si));
                    assert(remaining[0].0 == label);
                    assert(labels_before.len() > 0);
                    assert(0 <= si < slist.len());
                    vstd::seq_lib::lemma_seq_skip_index(slist, si, 0);
                    assert(slist.skip(si)[0] == slist[0 + si]);
                    assert(labels_before[0] == slist[si]);
                    assert(slist[si] == label@);
                    assert(ctx.spawns@ =~= remaining.drop_first());
                    assert(ctx.spawn_labels() =~= labels_before.drop_first());
                    assert(labels_before.drop_first() =~= slist.skip(si + 1));
                    assert(slist.take(si + 1) =~= slist.take(si).push(slist[si]));
                    lemma_apply_spawns_push(mwakes, slist.take(si), label@);
                }
                if self.tasks.len() < usize::MAX {
                    let (_id2, p2) = self.spawn(label, f2);
                    posted = posted || p2;
                } else {
                    // The registry cannot grow further: the spawn request
                    // is refused and the new task is dropped unpolled.
                }
                proof {
                    si = si + 1;
                }
            }
            proof {
                assert(slist.skip(si).len() == 0);
                assert(si == slist.len());
                assert(slist.take(si) =~= slist);
                let e = PollEvent { task: id as int, ready, wakes: wlist, spawned: slist };
                assert(self@ == spec_poll_event(m_iter, e));
                lemma_apply_events_push(m0, events, e);
                lemma_admissible_push(m0, events, e);
                events = events.push(e);
            }
            num_polls += 1;
        }
        if need_reschedule {
            let ghost mid = self@;
            let p = self.request_wakeup();
            posted = posted || p;
            proof {
                assert(self@ == spec_request_wakeup(mid).0);
            }
        }
        (posted, Ghost(events))
    }
}

/// Appending a wake to a wake list folds as one more wake at the end.
pub proof fn lemma_apply_wakes_push(m: ExecModel, wakes: Seq<int>, t: int)
    ensures
        spec_apply_wakes(m, wakes.push(t)) == spec_wake(spec_apply_wakes(m, wakes), t).0,
    decreases wakes.len(),
{
    if wakes.len() == 0 {
        assert(wakes.push(t)[0] == t);
        assert(wakes.push(t).drop_first() =~= Seq::<int>::empty());
        assert(spec_apply_wakes(spec_wake(m, t).0, wakes.push(t).drop_first()) == spec_wake(
            m,
            t,
        ).0);
        assert(spec_apply_wakes(m, wakes.push(t)) == spec_wake(m, t).0);
        assert(spec_apply_wakes(m, wakes) == m);
    } else {
        assert(wakes.push(t)[0] == wakes[0]);
        assert(wakes.push(t).drop_first() =~= wakes.drop_first().push(t));
        lemma_apply_wakes_push(spec_wake(m, wakes[0]).0, wakes.drop_first(), t);
    }
}

/// Appending a spawn to a spawn list folds as one more spawn at the end.
pub proof fn lemma_apply_spawns_push(m: ExecModel, labels: Seq<Seq<char>>, l: Seq<char>)
    ensures
        spec_apply_spawns(m, labels.push(l)) == spec_spawn_step(
            spec_apply_spawns(m, labels),
            l,
        ).0,
    decreases labels.len(),
{
    if labels.len() == 0 {
        assert(labels.push(l)[0] == l);
        assert(labels.push(l).drop_first() =~= Seq::<Seq<char>>::empty());
        assert(spec_apply_spawns(spec_spawn_step(m, l).0, labels.push(l).drop_first())
            == spec_spawn_step(m, l).0);
        assert(spec_apply_spawns(m, labels.push(l)) == spec_spawn_step(m, l).0);
        assert(spec_apply_spawns(m, labels) == m);
    } else {
        assert(labels.push(l)[0] == labels[0]);
        assert(labels.push(l).drop_first() =~= labels.drop_first().push(l));
        lemma_apply_spawns_push(spec_spawn_step(m, labels[0]).0, labels.drop_first(), l);
    }
}

/// Appending a poll to an event list folds as one more poll at the end.
pub proof fn lemma_apply_events_push(m: ExecModel, events: Seq<PollEvent>, e: PollEvent)
    ensures
        spec_apply_events(m, events.push(e)) == spec_poll_event(spec_apply_events(m, events), e),
    decreases events.len(),
{
    if events.len() == 0 {
        assert(events.push(e)[0] == e);
        assert(events.push(e).drop_first() =~= Seq::<PollEvent>::empty());
        assert(spec_apply_events(spec_poll_event(m, e), events.push(e).drop_first())
            == spec_poll_event(m, e));
        assert(spec_apply_events(m, events.push(e)) == spec_poll_event(m, e));
        assert(spec_apply_events(m, events) == m);
    } else {
        assert(events.push(e)[0] == events[0]);
        assert(events.push(e).drop_first() =~= events.drop_first().push(e));
        lemma_apply_events_push(spec_poll_event(m, events[0]), events.drop_first(), e);
    }
}

/// An admissible event list stays admissible when one more poll of the
/// then-current front task is appended.
pub proof fn lemma_admissible_push(m: ExecModel, events: Seq<PollEvent>, e: PollEvent)
    requires
        events_admissible(m, events),
        spec_apply_events(m, events).runnable.len() > 0,
        e.task == spec_apply_events(m, events).runnable[0],
    ensures
        events_admissible(m, events.push(e)),
    decreases events.len(),
{
    if events.len() == 0 {
        assert(events.push(e)[0] == e);
        assert(events.push(e).drop_first() =~= Seq::<PollEvent>::empty());
        assert(spec_apply_events(m, events) == m);
        assert(events_admissible(spec_poll_event(m, e), events.push(e).drop_first()));
        assert(events_admissible(m, events.push(e)));
    } else {
        assert(events.push(e)[0] == events[0]);
        assert(events.push(e).drop_first() =~= events.drop_first().push(e));
        lemma_admissible_push(spec_poll_event(m, events[0]), events.drop_first(), e);
    }
}

/// Popping and polling the front task preserves the executor invariants.
pub proof fn lemma_poll_core_wf(m: ExecModel, t: int, ready: bool)
    requires
        wf_model(m),
        m.runnable.len() > 0,
        t == m.runnable[0],
    ensures
        wf_model(spec_poll_core(m, t, ready)),
{
    let m1 = spec_poll_core(m, t, ready);
    assert(0 <= t < m.tasks.len());
    assert forall|u: int| 0 <= u < m1.tasks.len() implies ((#[trigger] m1.tasks[u]).in_run_queue
        <==> m1.runnable.contains(u)) by {
        if u == t {
            if m1.runnable.contains(t) {
                let i = choose|i: int| 0 <= i < m1.runnable.len() && m1.runnable[i] == t;
                assert(m.runnable[i + 1] == t);
                assert(m.runnable[0] == t);
            }
        } else {
            assert(m1.tasks[u] == m.tasks[u]);
            if m.runnable.contains(u) {
                let i = choose|i: int| 0 <= i < m.runnable.len() && m.runnable[i] == u;
                assert(i != 0);
                assert(m1.runnable[i - 1] == u);
            } else if m1.runnable.contains(u) {
                let i = choose|i: int| 0 <= i < m1.runnable.len() && m1.runnable[i] == u;
                assert(m.runnable[i + 1] == u);
            }
        }
    }
}

/// Spawning preserves the executor invariants.
pub proof fn lemma_spawn_wf(m: ExecModel, label: Seq<char>)
    requires
        wf_model(m),
    ensures
        wf_model(spec_spawn_raw(m, label)),
        wf_model(spec_spawn(m, label).0),
{
    let id = m.tasks.len() as int;
    let m1 = spec_spawn_raw(m, label);
    assert forall|t: int| 0 <= t < m1.tasks.len() implies ((#[trigger] m1.tasks[t]).in_run_queue
        <==> m1.runnable.contains(t)) by {
        if t == id {
            assert(m1.runnable[m1.runnable.len() - 1] == t);
        } else {
            assert(m1.tasks[t] == m.tasks[t]);
            if m.runnable.contains(t) {
                let i = choose|i: int| 0 <= i < m.runnable.len() && m.runnable[i] == t;
                assert(m1.runnable[i] == t);
            } else if m1.runnable.contains(t) {
                let i = choose|i: int| 0 <= i < m1.runnable.len() && m1.runnable[i] == t;
                assert(0 <= i < m.runnable.len() && m.runnable[i] == t);
            }
        }
    }
    lemma_request_wakeup_wf(m1);
}

/// A wakeup request changes no queue and no task state, so it preserves
/// the executor invariants.
pub proof fn lemma_request_wakeup_wf(m: ExecModel)
    requires
        wf_model(m),
    ensures
        wf_model(spec_request_wakeup(m).0),
{
    let m1 = spec_request_wakeup(m).0;
    assert(m1.tasks == m.tasks);
    assert(m1.runnable == m.runnable);
}

/// Waking preserves the executor invariants.
pub proof fn lemma_wake_wf(m: ExecModel, t: int)
    requires
        wf_model(m),
    ensures
        0 <= t < m.tasks.len() && m.tasks[t].live && !m.tasks[t].in_run_queue ==> wf_model(
            spec_wake_raw(m, t),
        ),
        wf_model(spec_wake(m, t).0),
{
    if 0 <= t < m.tasks.len() && m.tasks[t].live && !m.tasks[t].in_run_queue {
        let m1 = spec_wake_raw(m, t);
        assert(!m.runnable.contains(t));
        assert forall|u: int| 0 <= u < m1.tasks.len() implies ((#[trigger] m1.tasks[u]).in_run_queue
            <==> m1.runnable.contains(u)) by {
            if u == t {
                assert(m1.runnable[m1.runnable.len() - 1] == t);
            } else {
                if m.runnable.contains(u) {
                    let i = choose|i: int| 0 <= i < m.runnable.len() && m.runnable[i] == u;
                    assert(m1.runnable[i] == u);
                } else if m1.runnable.contains(u) {
                    let i = choose|i: int| 0 <= i < m1.runnable.len() && m1.runnable[i] == u;
                    assert(0 <= i < m.runnable.len() && m.runnable[i] == u);
                }
            }
        }
        lemma_request_wakeup_wf(m1);
    }
}

/// Waking the same task twice is the same as waking it once, and the
/// second wake never issues a signal: redundant wake requests are
/// absorbed.
pub proof fn lemma_wake_idempotent(m: ExecModel, t: int)
    requires
        wf_model(m),
    ensures
        spec_wake(spec_wake(m, t).0, t).0 == spec_wake(m, t).0,
        !spec_wake(spec_wake(m, t).0, t).1,
{
    let m1 = spec_wake(m, t).0;
    if 0 <= t < m.tasks.len() && m.tasks[t].live && !m.tasks[t].in_run_queue {
        assert(m1.tasks[t].in_run_queue);
    }
}

/// A well-formed executor satisfies the model invariants, so a caller
/// holding one may use the public model lemmas on its view directly.
pub proof fn lemma_wf_exports_model<F: TaskFuture>(e: &AsyncExecutor<F>)
    requires
        e.wf(),
    ensures
        wf_model(e@),
{
}

/// Applying any list of wakes preserves the executor invariants and the
/// set of known tasks.
pub proof fn lemma_apply_wakes_wf(m: ExecModel, wakes: Seq<int>)
    requires
        wf_model(m),
    ensures
        wf_model(spec_apply_wakes(m, wakes)),
        spec_apply_wakes(m, wakes).tasks.len() == m.tasks.len(),
    decreases wakes.len(),
{
    if wakes.len() > 0 {
        lemma_wake_wf(m, wakes[0]);
        lemma_apply_wakes_wf(spec_wake(m, wakes[0]).0, wakes.drop_first());
    }
}

/// Applying any list of spawns preserves the executor invariants and
/// never forgets a task.
pub proof fn lemma_apply_spawns_wf(m: ExecModel, labels: Seq<Seq<char>>)
    requires
        wf_model(m),
    ensures
        wf_model(spec_apply_spawns(m, labels)),
        spec_apply_spawns(m, labels).tasks.len() >= m.tasks.len(),
    decreases labels.len(),
{
    if labels.len() > 0 {
        if m.tasks.len() < usize::MAX {
            lemma_spawn_wf(m, labels[0]);
        }
        lemma_apply_spawns_wf(spec_spawn_step(m, labels[0]).0, labels.drop_first());
    }
}

/// One full poll of the front task preserves the executor invariants.
pub proof fn lemma_poll_event_wf(m: ExecModel, e: PollEvent)
    requires
        wf_model(m),
        m.runnable.len() > 0,
        e.task == m.runnable[0],
    ensures
        wf_model(spec_poll_event(m, e)),
        spec_poll_event(m, e).tasks.len() >= m.tasks.len(),
    decreases 0int,
{
    lemma_poll_core_wf(m, e.task, e.ready);
    lemma_apply_wakes_wf(spec_poll_core(m, e.task, e.ready), e.wakes);
    lemma_apply_spawns_wf(
        spec_apply_wakes(spec_poll_core(m, e.task, e.ready), e.wakes),
        e.spawned,
    );
}

/// A completed task stays completed through any list of wakes.
pub proof fn lemma_dead_stays_dead_wakes(m: ExecModel, wakes: Seq<int>, t: int)
    requires
        wf_model(m),
        0 <= t < m.tasks.len(),
        !m.tasks[t].live,
    ensures
        wf_model(spec_apply_wakes(m, wakes)),
        spec_apply_wakes(m, wakes).tasks.len() == m.tasks.len(),
        !spec_apply_wakes(m, wakes).tasks[t].live,
    decreases wakes.len(),
{
    if wakes.len() > 0 {
        let m1 = spec_wake(m, wakes[0]).0;
        lemma_wake_wf(m, wakes[0]);
        assert(!m1.tasks[t].live);
        lemma_dead_stays_dead_wakes(m1, wakes.drop_first(), t);
    }
}

/// A completed task stays completed through any list of spawns.
pub proof fn lemma_dead_stays_dead_spawns(m: ExecModel, labels: Seq<Seq<char>>, t: int)
    requires
        wf_model(m),
        0 <= t < m.tasks.len(),
        !m.tasks[t].live,
    ensures
        wf_model(spec_apply_spawns(m, labels)),
        spec_apply_spawns(m, labels).tasks.len() >= m.tasks.len(),
        !spec_apply_spawns(m, labels).tasks[t].live,
    decreases labels.len(),
{
    if labels.len() > 0 {
        let m1 = spec_spawn_step(m, labels[0]).0;
        if m.tasks.len() < usize::MAX {
            lemma_spawn_wf(m, labels[0]);
            assert(m1.tasks[t] == m.tasks[t]);
        }
        lemma_dead_stays_dead_spawns(m1, labels.drop_first(), t);
    }
}

/// A completed task stays completed through one full poll of another
/// task, and that poll cannot be of the completed task itself.
pub proof fn lemma_dead_stays_dead_event(m: ExecModel, e: PollEvent, t: int)
    requires
        wf_model(m),
        m.runnable.len() > 0,
        e.task == m.runnable[0],
        0 <= t < m.tasks.len(),
        !m.tasks[t].live,
    ensures
        wf_model(spec_poll_event(m, e)),
        spec_poll_event(m, e).tasks.len() >= m.tasks.len(),
        !spec_poll_event(m, e).tasks[t].live,
        e.task != t,
    decreases 0int,
{
    assert(m.runnable.contains(m.runnable[0]));
    assert(m.tasks[e.task].in_run_queue);
    assert(m.tasks[e.task].live);
    let mc = spec_poll_core(m, e.task, e.ready);
    lemma_poll_core_wf(m, e.task, e.ready);
    assert(mc.tasks[t] == m.tasks[t]);
    lemma_dead_stays_dead_wakes(mc, e.wakes, t);
    lemma_dead_stays_dead_spawns(spec_apply_wakes(mc, e.wakes), e.spawned, t);
}

/// A completed task is never polled again: no admissible cycle from a
/// state in which the task is dead ever has it at the front of the run
/// queue, it stays dead, and it stays out of the queue.
pub proof fn lemma_dead_task_never_polled(m: ExecModel, events: Seq<PollEvent>, t: int)
    requires
        wf_model(m),
        events_admissible(m, events),
        0 <= t < m.tasks.len(),
        !m.tasks[t].live,
    ensures
        wf_model(spec_apply_events(m, events)),
        spec_apply_events(m, events).tasks.len() >= m.tasks.len(),
        !spec_apply_events(m, events).tasks[t].live,
        !spec_apply_events(m, events).runnable.contains(t),
        forall|j: int| 0 <= j < events.len() ==> events[j].task != t,
    decreases events.len(),
{
    if events.len() == 0 {
        if m.runnable.contains(t) {
            assert(m.tasks[t].in_run_queue);
        }
    } else {
        lemma_dead_stays_dead_event(m, events[0], t);
        lemma_dead_task_never_polled(spec_poll_event(m, events[0]), events.drop_first(), t);
        assert forall|j: int| 0 <= j < events.len() implies events[j].task != t by {
            if j > 0 {
                assert(events.drop_first()[j - 1] == events[j]);
            }
        }
    }
}

/// Law (at-most-once queuing): whatever interleaving of wake calls runs
/// against the executor, the run queue never holds any task twice, and
/// every task's queue membership agrees with its guard flag. Together
/// with [`lemma_wake_idempotent`], redundant wakes of one task are
/// absorbed without effect.
pub proof fn lemma_wakes_queue_at_most_once(m: ExecModel, wakes: Seq<int>)
    requires
        wf_model(m),
    ensures
        wf_model(spec_apply_wakes(m, wakes)),
        forall|i: int, j: int|
            0 <= i < j < spec_apply_wakes(m, wakes).runnable.len() ==> spec_apply_wakes(
                m,
                wakes,
            ).runnable[i] != spec_apply_wakes(m, wakes).runnable[j],
{
    lemma_apply_wakes_wf(m, wakes);
}

/// A wake of a completed task changes nothing and requests no wakeup:
/// after a task is retired no signal is ever issued on its behalf.
pub proof fn lemma_wake_completed_noop(m: ExecModel, t: int)
    requires
        0 <= t < m.tasks.len(),
        !m.tasks[t].live,
    ensures
        spec_wake(m, t).0 == m,
        !spec_wake(m, t).1,
{
}

/// Consuming the wakeup changes no queue and no task state, so it
/// preserves the executor invariants.
pub proof fn lemma_consume_wakeup_wf(m: ExecModel)
    requires
        wf_model(m),
    ensures
        wf_model(spec_consume_wakeup(m)),
{
    let m1 = spec_consume_wakeup(m);
    assert(m1.tasks == m.tasks);
    assert(m1.runnable == m.runnable);
}

/// Law (eventual polling): when the poll of a task reports Ready, the
/// task is retired then and there: no later poll in the cycle touches it,
/// it is no longer live afterwards, and it is out of the run queue for
/// good. A Ready task is therefore polled exactly once.
pub proof fn lemma_ready_task_polled_once(m: ExecModel, events: Seq<PollEvent>, k: int)
    requires
        wf_model(m),
        events_admissible(m, events),
        0 <= k < events.len(),
        events[k].ready,
    ensures
        forall|j: int| k < j < events.len() ==> events[j].task != events[k].task,
        0 <= events[k].task < spec_apply_events(m, events).tasks.len(),
        !spec_apply_events(m, events).tasks[events[k].task].live,
        !spec_apply_events(m, events).runnable.contains(events[k].task),
    decreases k,
{
    let t = events[k].task;
    if k == 0 {
        let e = events[0];
        assert(m.runnable.contains(m.runnable[0]));
        assert(m.tasks[e.task].in_run_queue);
        let mc = spec_poll_core(m, e.task, e.ready);
        lemma_poll_core_wf(m, e.task, e.ready);
        assert(!mc.tasks[t].live);
        lemma_dead_stays_dead_wakes(mc, e.wakes, t);
        lemma_dead_stays_dead_spawns(spec_apply_wakes(mc, e.wakes), e.spawned, t);
        lemma_dead_task_never_polled(spec_poll_event(m, e), events.drop_first(), t);
        assert forall|j: int| k < j < events.len() implies events[j].task != t by {
            assert(events.drop_first()[j - 1] == events[j]);
        }
    } else {
        assert(m.runnable.contains(m.runnable[0]));
        lemma_poll_event_wf(m, events[0]);
        assert(events.drop_first()[k - 1] == events[k]);
        lemma_ready_task_polled_once(spec_poll_event(m, events[0]), events.drop_first(), k - 1);
        assert forall|j: int| k < j < events.len() implies events[j].task != t by {
            assert(events.drop_first()[j - 1] == events[j]);
        }
    }
}

/// Law (eventual polling), stated at the poll-cycle contract: in any
/// wakeup cycle of a well-formed executor whose `k`-th poll reported
/// Ready, that task is polled exactly once in the cycle and is retired
/// by its end: no longer live and out of the run queue. Together with
/// [`lemma_wake_completed_noop`], no wakeup is ever requested on its
/// behalf again.
pub proof fn lemma_cycle_retires_ready_task(
    m_in: ExecModel,
    m_out: ExecModel,
    events: Seq<PollEvent>,
    posted: bool,
    k: int,
)
    requires
        wf_model(m_in),
        spec_cycle_post(m_in, m_out, events, posted),
        0 <= k < events.len(),
        events[k].ready,
    ensures
        forall|j: int| k < j < events.len() ==> events[j].task != events[k].task,
        0 <= events[k].task < m_out.tasks.len(),
        !m_out.tasks[events[k].task].live,
        !m_out.runnable.contains(events[k].task),
{
    let m0 = spec_consume_wakeup(m_in);
    lemma_consume_wakeup_wf(m_in);
    lemma_ready_task_polled_once(m0, events, k);
    let mid = spec_apply_events(m0, events);
    assert(m_out.tasks == mid.tasks);
    assert(m_out.runnable == mid.runnable);
}

/// In a cycle whose polls neither wake nor spawn anything, each poll
/// removes exactly one task from the run queue.
pub proof fn lemma_quiet_cycle_queue_len(m: ExecModel, events: Seq<PollEvent>)
    requires
        wf_model(m),
        events_admissible(m, events),
        forall|j: int|
            0 <= j < events.len() ==> (#[trigger] events[j]).wakes.len() == 0 && events[j].spawned.len()
                == 0,
    ensures
        wf_model(spec_apply_events(m, events)),
        spec_apply_events(m, events).runnable.len() == m.runnable.len() - events.len(),
    decreases events.len(),
{
    if events.len() > 0 {
        let e = events[0];
        let mc = spec_poll_core(m, e.task, e.ready);
        lemma_poll_core_wf(m, e.task, e.ready);
        assert(spec_apply_wakes(mc, e.wakes) == mc);
        assert(spec_apply_spawns(mc, e.spawned) == mc);
        assert(spec_poll_event(m, e) == mc);
        assert(mc.runnable.len() == m.runnable.len() - 1);
        assert forall|j: int|
            0 <= j < events.drop_first().len() implies (#[trigger] events.drop_first()[j]).wakes.len()
            == 0 && events.drop_first()[j].spawned.len() == 0 by {
            assert(events.drop_first()[j] == events[j + 1]);
        }
        lemma_quiet_cycle_queue_len(mc, events.drop_first());
    }
}

/// In a cycle whose polls neither wake nor spawn anything, the tasks are
/// polled exactly in run-queue order: the queue is FIFO, and a task
/// queued earlier is polled earlier.
pub proof fn lemma_quiet_cycle_polls_in_order(m: ExecModel, events: Seq<PollEvent>)
    requires
        wf_model(m),
        events_admissible(m, events),
        forall|j: int|
            0 <= j < events.len() ==> (#[trigger] events[j]).wakes.len() == 0 && events[j].spawned.len()
                == 0,
    ensures
        forall|j: int| 0 <= j < events.len() ==> (#[trigger] events[j]).task == m.runnable[j],
    decreases events.len(),
{
    if events.len() > 0 {
        let e = events[0];
        let mc = spec_poll_core(m, e.task, e.ready);
        lemma_poll_core_wf(m, e.task, e.ready);
        assert(spec_apply_wakes(mc, e.wakes) == mc);
        assert(spec_apply_spawns(mc, e.spawned) == mc);
        assert(spec_poll_event(m, e) == mc);
        assert forall|j: int|
            0 <= j < events.drop_first().len() implies (#[trigger] events.drop_first()[j]).wakes.len()
            == 0 && events.drop_first()[j].spawned.len() == 0 by {
            assert(events.drop_first()[j] == events[j + 1]);
        }
        lemma_quiet_cycle_polls_in_order(mc, events.drop_first());
        lemma_quiet_cycle_queue_len(m, events);
        assert(events.len() <= m.runnable.len());
        assert forall|j: int| 0 <= j < events.len() implies (#[trigger] events[j]).task
            == m.runnable[j] by {
            if j > 0 {
                assert(events.drop_first()[j - 1] == events[j]);
                assert(mc.runnable =~= m.runnable.skip(1));
                vstd::seq_lib::lemma_seq_skip_index(m.runnable, 1, j - 1);
                assert(mc.runnable[j - 1] == m.runnable[j]);
            }
        }
    }
}

/// Law (fairness cap): when a wakeup cycle begins with more runnable
/// tasks than the fairness cap and none of its polls wakes or spawns
/// anything, the cycle stops exactly at the cap, leaves the surplus in
/// the run queue, and hands the caller a fresh wakeup request: the event
/// loop gets control back between drains instead of being starved.
pub proof fn lemma_fairness_cap(
    m_in: ExecModel,
    m_out: ExecModel,
    events: Seq<PollEvent>,
    posted: bool,
)
    requires
        wf_model(m_in),
        spec_cycle_post(m_in, m_out, events, posted),
        m_in.runnable.len() > m_in.max_polls,
        forall|j: int|
            0 <= j < events.len() ==> (#[trigger] events[j]).wakes.len() == 0 && events[j].spawned.len()
                == 0,
    ensures
        events.len() == m_in.max_polls,
        m_out.runnable.len() > 0,
        m_out.is_scheduled,
        posted,
{
    let m0 = spec_consume_wakeup(m_in);
    assert(m0.tasks == m_in.tasks);
    assert(m0.runnable == m_in.runnable);
    assert(wf_model(m0));
    lemma_quiet_cycle_queue_len(m0, events);
    let mid = spec_apply_events(m0, events);
    assert(mid.runnable.len() == m_in.runnable.len() - events.len());
    assert(mid.runnable.len() > 0);
    assert(events.len() == m_in.max_polls);
}

} // verus!
