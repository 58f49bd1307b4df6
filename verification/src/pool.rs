//! A fixed-size worker pool with an explicit, race-free shutdown protocol.
//!
//! The pool owns a bounded set of long-lived workers that drain a shared
//! dispatch channel. Each submitted task is wrapped in a message and handed
//! to exactly one worker; on shutdown the pool enqueues exactly one stop
//! signal per worker, so every worker observes exactly one termination
//! signal and none is left blocked.
//!
//! This module is the pool's state machine: construction, submission,
//! dispatch and shutdown are all modelled over a single message queue, and
//! their contracts pin down how the queue, the workers and the execution
//! log evolve. A runtime that spreads the workers over real threads drives
//! one worker loop per thread against these same transitions.

use vstd::prelude::*;

verus! {

/// A single unit of work: an identifier for the execution log, plus a flag
/// saying whether invoking the task faults instead of completing.
///
/// Faults are contained at the worker-loop boundary: a faulting task is
/// recorded and its worker returns to taking messages, so one misbehaving
/// task cannot shrink the pool's capacity.
#[derive(Clone, Copy, PartialEq, Eq, Structural, Debug)]
pub struct Task {
    /// Identifier recorded when the task is invoked.
    pub id: u64,
    /// Whether the invocation raises a fault instead of completing.
    pub faults: bool,
}

impl Task {
    /// A task that completes normally.
    pub fn new(id: u64) -> (t: Task)
        ensures
            t == (Task { id, faults: false }),
    {
        Task { id, faults: false }
    }

    /// A task whose invocation faults.
    pub fn faulting(id: u64) -> (t: Task)
        ensures
            t == (Task { id, faults: true }),
    {
        Task { id, faults: true }
    }
}

/// A message carried by the dispatch channel: either a task to run, or a
/// signal telling the worker that receives it to terminate.
#[derive(Clone, Copy, PartialEq, Eq, Structural, Debug)]
pub enum Message {
    /// Run the carried task, then return to taking messages.
    Run(Task),
    /// Terminate the worker that receives this message.
    Stop,
}

/// An ordered, unbounded mailbox of [`Message`] values.
///
/// `send` enqueues at the tail and never fails; `receive` removes the head,
/// so each message is delivered to exactly one receiver and each sender's
/// messages are taken in the order that sender enqueued them.
#[derive(Debug)]
pub struct Channel {
    /// The queued messages, oldest first.
    pub queue: Vec<Message>,
}

impl View for Channel {
    type V = Seq<Message>;

    open spec fn view(&self) -> Seq<Message> {
        self.queue@
    }
}

impl Channel {
    /// Creates an empty channel.
    pub fn new() -> (c: Channel)
        ensures
            c@ == Seq::<Message>::empty(),
    {
        Channel { queue: Vec::new() }
    }

    /// The number of queued messages.
    pub fn len(&self) -> (n: usize)
        ensures
            n == self@.len(),
    {
        self.queue.len()
    }

    /// Enqueues `msg`; never blocks and never fails.
    pub fn send(&mut self, msg: Message)
        ensures
            final(self)@ == old(self)@.push(msg),
    {
        self.queue.push(msg);
    }

    /// Takes the oldest queued message, removing it so that no other
    /// receiver can also take it. A receiver with no available message
    /// waits instead: availability is this call's precondition.
    pub fn receive(&mut self) -> (msg: Message)
        requires
            old(self)@.len() > 0,
        ensures
            msg == old(self)@.first(),
            final(self)@ == old(self)@.drop_first(),
    {
        let msg = self.queue.remove(0);
        proof {
            assert(self@ =~= old(self)@.drop_first());
        }
        msg
    }
}

/// The number of stop signals among the queued messages.
pub open spec fn stop_count(q: Seq<Message>) -> nat
    decreases q.len(),
{
    if q.len() == 0 {
        0
    } else {
        (if q.first() is Stop {
            1nat
        } else {
            0nat
        }) + stop_count(q.drop_first())
    }
}

/// The identifiers of the queued tasks that complete normally when
/// invoked, in queue order.
pub open spec fn completed_ids(q: Seq<Message>) -> Seq<u64>
    decreases q.len(),
{
    if q.len() == 0 {
        Seq::empty()
    } else {
        let rest = completed_ids(q.drop_first());
        match q.first() {
            Message::Run(t) => if !t.faults {
                seq![t.id] + rest
            } else {
                rest
            },
            Message::Stop => rest,
        }
    }
}

/// The identifiers of the queued tasks whose invocation faults, in queue
/// order.
pub open spec fn faulted_ids(q: Seq<Message>) -> Seq<u64>
    decreases q.len(),
{
    if q.len() == 0 {
        Seq::empty()
    } else {
        let rest = faulted_ids(q.drop_first());
        match q.first() {
            Message::Run(t) => if t.faults {
                seq![t.id] + rest
            } else {
                rest
            },
            Message::Stop => rest,
        }
    }
}

/// Holds when every stop signal sits behind every queued task, as after a
/// shutdown that appends its signals to the pending submissions.
pub open spec fn runs_before_stops(q: Seq<Message>) -> bool {
    forall|i: int, j: int| 0 <= i < j < q.len() && q[i] is Stop ==> q[j] is Stop
}

/// The queue produced by submitting the given tasks in order.
pub open spec fn submission_queue(ts: Seq<Task>) -> Seq<Message>
    decreases ts.len(),
{
    if ts.len() == 0 {
        Seq::empty()
    } else {
        seq![Message::Run(ts.first())] + submission_queue(ts.drop_first())
    }
}

/// One stop signal per worker of a pool of the given size.
pub open spec fn stop_signals(n: nat) -> Seq<Message> {
    Seq::new(n, |i: int| Message::Stop)
}

/// The identifiers of the given tasks, in order.
pub open spec fn task_ids(ts: Seq<Task>) -> Seq<u64>
    decreases ts.len(),
{
    if ts.len() == 0 {
        Seq::empty()
    } else {
        seq![ts.first().id] + task_ids(ts.drop_first())
    }
}

/// The reason a pool could not be constructed.
#[non_exhaustive]
#[derive(Debug, Clone, PartialEq, Eq, Structural)]
pub enum PoolInitialisationErrorKind {
    /// A pool must own at least one worker.
    ZeroThreads,
}

/// An error returned when constructing a pool fails.
///
/// Construction is the only operation that can fail: submission cannot
/// fail while the pool is live, and shutdown always completes.
#[derive(Debug, Clone, PartialEq, Eq, Structural)]
pub struct PoolInitialisationError {
    /// The reason the construction attempt was rejected.
    pub kind: PoolInitialisationErrorKind,
}

impl PoolInitialisationError {
    /// The detailed cause of the failed construction.
    pub fn kind(&self) -> (k: &PoolInitialisationErrorKind)
        ensures
            k == &self.kind,
    {
        &self.kind
    }

    /// A human-readable description of the error.
    pub fn message(&self) -> (m: &'static str)
        ensures
            self.kind is ZeroThreads ==> m@ == "pools cannot be initialised with no threads"@,
    {
        match self.kind {
            PoolInitialisationErrorKind::ZeroThreads => "pools cannot be initialised with no threads",
        }
    }
}

/// What a worker is doing. Execution of a task begins and completes within
/// one dispatch step, so between steps a worker is either waiting for a
/// message or terminated; termination is absorbing.
#[derive(Clone, Copy, PartialEq, Eq, Structural, Debug)]
pub enum WorkerPhase {
    /// Waiting to take the next message from the channel.
    Idle,
    /// Took a stop signal and exited its dispatch loop.
    Terminated,
}

/// One worker: an identifier for diagnostics plus its current phase.
#[derive(Clone, Copy, PartialEq, Eq, Structural, Debug)]
pub struct Worker {
    /// Position of this worker within its pool.
    pub id: usize,
    /// What this worker is currently doing.
    pub phase: WorkerPhase,
}

/// One dispatch step of a worker's state machine: a waiting worker takes
/// one message, either invoking the carried task and returning to wait,
/// or terminating on a stop signal. Termination is absorbing, so only a
/// waiting worker takes a step.
pub fn worker_step(phase: WorkerPhase, msg: Message) -> (outcome: (WorkerPhase, Option<Task>))
    requires
        phase is Idle,
    ensures
        outcome == match msg {
            Message::Run(t) => (WorkerPhase::Idle, Some(t)),
            Message::Stop => (WorkerPhase::Terminated, None::<Task>),
        },
{
    match msg {
        Message::Run(t) => (WorkerPhase::Idle, Some(t)),
        Message::Stop => (WorkerPhase::Terminated, None),
    }
}

/// Holds when the workers carry their own positions as identifiers.
pub open spec fn workers_numbered(ws: Seq<Worker>) -> bool {
    forall|i: int| 0 <= i < ws.len() ==> (#[trigger] ws[i]).id == i
}

/// Holds when every worker is waiting for a message.
pub open spec fn all_idle(ws: Seq<Worker>) -> bool {
    forall|i: int| 0 <= i < ws.len() ==> (#[trigger] ws[i]).phase is Idle
}

/// Holds when every worker has exited its dispatch loop.
pub open spec fn all_terminated(ws: Seq<Worker>) -> bool {
    forall|i: int| 0 <= i < ws.len() ==> (#[trigger] ws[i]).phase is Terminated
}

/// A fixed-size set of workers draining one shared dispatch channel.
///
/// The pool records every invocation: identifiers of tasks that completed
/// normally go to `executed`, identifiers of tasks that faulted go to
/// `faulted`. Faults are contained at the dispatch loop, so a faulting
/// task never costs the pool a worker.
#[derive(Debug)]
pub struct ThreadPool {
    /// The workers, numbered from zero; the count is fixed at construction.
    pub workers: Vec<Worker>,
    /// The shared dispatch channel.
    pub channel: Channel,
    /// Identifiers of the tasks invoked so far that completed normally.
    pub executed: Vec<u64>,
    /// Identifiers of the tasks invoked so far that faulted.
    pub faulted: Vec<u64>,
    /// Whether shutdown has run; a stopped pool accepts no more work.
    pub stopping: bool,
}

impl ThreadPool {
    /// Well-formedness: at least one numbered worker; while the pool is
    /// live all workers are waiting and only submissions are queued, and
    /// once it has stopped the queue is drained and every worker has
    /// terminated.
    pub open spec fn wf(&self) -> bool {
        &&& self.workers@.len() >= 1
        &&& workers_numbered(self.workers@)
        &&& if self.stopping {
            self.channel@.len() == 0 && all_terminated(self.workers@)
        } else {
            all_idle(self.workers@) && forall|i: int|
                0 <= i < self.channel@.len() ==> self.channel@[i] is Run
        }
    }

    /// Creates a pool of `threads` workers sharing one dispatch channel.
    ///
    /// Fails with [`PoolInitialisationErrorKind::ZeroThreads`] when
    /// `threads` is zero; this is the only constructor error. For every
    /// `threads >= 1` the call succeeds and the pool owns exactly
    /// `threads` idle workers, an empty channel and empty logs.
    pub fn new(threads: usize) -> (result: Result<ThreadPool, PoolInitialisationError>)
        ensures
            match result {
                Ok(p) => {
                    &&& threads >= 1
                    &&& p.wf()
                    &&& p.workers@.len() == threads
                    &&& !p.stopping
                    &&& p.channel@.len() == 0
                    &&& p.executed@.len() == 0
                    &&& p.faulted@.len() == 0
                },
                Err(e) => threads == 0 && e.kind is ZeroThreads,
            },
    {
        if threads > 0 {
            let mut workers: Vec<Worker> = Vec::with_capacity(threads);
            let mut i: usize = 0;
            while i < threads
                invariant
                    i <= threads,
                    workers@.len() == i,
                    workers_numbered(workers@),
                    all_idle(workers@),
                decreases threads - i,
            {
                workers.push(Worker { id: i, phase: WorkerPhase::Idle });
                i += 1;
            }
            Ok(ThreadPool {
                workers,
                channel: Channel::new(),
                executed: Vec::new(),
                faulted: Vec::new(),
                stopping: false,
            })
        } else {
            Err(PoolInitialisationError { kind: PoolInitialisationErrorKind::ZeroThreads })
        }
    }

    /// The number of workers this pool was constructed with.
    pub fn worker_count(&self) -> (n: usize)
        ensures
            n == self.workers@.len(),
    {
        self.workers.len()
    }

    /// Wraps `task` in a run message and enqueues it; the send cannot fail
    /// and does not wait for the task to be dispatched. Some waiting
    /// worker takes it later, during a dispatch step.
    pub fn execute(&mut self, task: Task)
        requires
            old(self).wf(),
            !old(self).stopping,
        ensures
            final(self).wf(),
            !final(self).stopping,
            final(self).channel@ == old(self).channel@.push(Message::Run(task)),
            final(self).workers == old(self).workers,
            final(self).executed == old(self).executed,
            final(self).faulted == old(self).faulted,
    {
        self.channel.send(Message::Run(task));
    }

    /// Dispatches queued messages until the channel is empty: each message
    /// is taken by exactly one worker, run messages are invoked (completing
    /// or faulting) and each stop signal terminates one worker.
    ///
    /// Requires one stop signal per still-idle worker to be queued behind
    /// the submissions, which is exactly the state `shutdown` sets up.
    fn drain(&mut self)
        requires
            old(self).workers@.len() >= 1,
            workers_numbered(old(self).workers@),
            all_idle(old(self).workers@),
            stop_count(old(self).channel@) == old(self).workers@.len(),
            runs_before_stops(old(self).channel@),
        ensures
            final(self).workers@.len() == old(self).workers@.len(),
            workers_numbered(final(self).workers@),
            all_terminated(final(self).workers@),
            final(self).channel@.len() == 0,
            final(self).executed@ == old(self).executed@ + completed_ids(old(self).channel@),
            final(self).faulted@ == old(self).faulted@ + faulted_ids(old(self).channel@),
            final(self).stopping == old(self).stopping,
    {
        let ghost q0 = self.channel@;
        let n = self.workers.len();
        let mut t: usize = 0;
        while self.channel.len() > 0
            invariant
                self.workers@.len() == n,
                n >= 1,
                workers_numbered(self.workers@),
                t <= n,
                forall|i: int|
                    0 <= i < n ==> ((#[trigger] self.workers@[i]).phase is Terminated <==> i < t),
                stop_count(self.channel@) == n - t,
                runs_before_stops(self.channel@),
                self.executed@ + completed_ids(self.channel@) == old(self).executed@
                    + completed_ids(q0),
                self.faulted@ + faulted_ids(self.channel@) == old(self).faulted@ + faulted_ids(q0),
                self.stopping == old(self).stopping,
            decreases self.channel@.len(),
        {
            let ghost q_before = self.channel@;
            let msg = self.channel.receive();
            let step = worker_step(WorkerPhase::Idle, msg);
            match step.1 {
                Some(task) => {
                    if task.faults {
                        self.faulted.push(task.id);
                    } else {
                        self.executed.push(task.id);
                    }
                    proof {
                        assert(self.executed@ + completed_ids(self.channel@) == old(self).executed@
                            + completed_ids(q0)) by {
                            assert(completed_ids(q_before) == (if !task.faults {
                                seq![task.id] + completed_ids(self.channel@)
                            } else {
                                completed_ids(self.channel@)
                            }));
                            assert(self.executed@ + completed_ids(self.channel@) =~= (if !task.faults {
                                old(self).executed@ + completed_ids(q0)
                            } else {
                                self.executed@ + completed_ids(self.channel@)
                            }));
                        }
                        assert(self.faulted@ + faulted_ids(self.channel@) == old(self).faulted@
                            + faulted_ids(q0)) by {
                            assert(faulted_ids(q_before) == (if task.faults {
                                seq![task.id] + faulted_ids(self.channel@)
                            } else {
                                faulted_ids(self.channel@)
                            }));
                            assert(self.faulted@ + faulted_ids(self.channel@) =~= (if task.faults {
                                old(self).faulted@ + faulted_ids(q0)
                            } else {
                                self.faulted@ + faulted_ids(self.channel@)
                            }));
                        }
                    }
                },
                None => {
                    proof {
                        assert(stop_count(q_before) >= 1);
                    }
                    self.workers[t].phase = step.0;
                    t += 1;
                },
            }
        }
        proof {
            assert(self.executed@ =~= old(self).executed@ + completed_ids(q0));
            assert(self.faulted@ =~= old(self).faulted@ + faulted_ids(q0));
        }
    }

    /// Shuts the pool down: enqueues exactly one stop signal per worker
    /// behind the already-queued submissions, then dispatches until every
    /// worker has taken its signal and terminated.
    ///
    /// The call returns only once no worker is still running; it cannot
    /// block forever, because each queued task is dispatched before the
    /// signals behind it. Shutting an already stopped pool down again is
    /// a no-op.
    pub fn shutdown(&mut self)
        requires
            old(self).wf(),
        ensures
            final(self).wf(),
            final(self).stopping,
            final(self).channel@.len() == 0,
            all_terminated(final(self).workers@),
            final(self).workers@.len() == old(self).workers@.len(),
            old(self).stopping ==> *final(self) == *old(self),
            !old(self).stopping ==> {
                &&& final(self).executed@ == old(self).executed@ + completed_ids(
                    old(self).channel@,
                )
                &&& final(self).faulted@ == old(self).faulted@ + faulted_ids(old(self).channel@)
            },
    {
        if self.stopping {
            return ;
        }
        let ghost pending = self.channel@;
        let n = self.workers.len();
        let mut i: usize = 0;
        while i < n
            invariant
                i <= n,
                self.workers == old(self).workers,
                self.executed == old(self).executed,
                self.faulted == old(self).faulted,
                self.stopping == old(self).stopping,
                self.channel@ == pending + stop_signals(i as nat),
                forall|k: int| 0 <= k < pending.len() ==> pending[k] is Run,
            decreases n - i,
        {
            self.channel.send(Message::Stop);
            proof {
                assert(self.channel@ =~= pending + stop_signals((i + 1) as nat));
            }
            i += 1;
        }
        proof {
            lemma_dispatch_log_append(pending, stop_signals(n as nat));
            lemma_stop_signals_counts(n as nat);
            lemma_all_runs_counts(pending);
            assert(completed_ids(self.channel@) =~= completed_ids(pending));
            assert(faulted_ids(self.channel@) =~= faulted_ids(pending));
        }
        self.drain();
        self.stopping = true;
    }
}

/// Splitting a queue splits its stop count and its completion and fault
/// logs: the two halves are dispatched independently, back to back.
pub proof fn lemma_dispatch_log_append(a: Seq<Message>, b: Seq<Message>)
    ensures
        stop_count(a + b) == stop_count(a) + stop_count(b),
        completed_ids(a + b) == completed_ids(a) + completed_ids(b),
        faulted_ids(a + b) == faulted_ids(a) + faulted_ids(b),
    decreases a.len(),
{
    if a.len() == 0 {
        assert(a + b =~= b);
        assert(completed_ids(a) + completed_ids(b) =~= completed_ids(b));
        assert(faulted_ids(a) + faulted_ids(b) =~= faulted_ids(b));
    } else {
        assert((a + b).drop_first() =~= a.drop_first() + b);
        lemma_dispatch_log_append(a.drop_first(), b);
        assert(completed_ids(a + b) =~= completed_ids(a) + completed_ids(b));
        assert(faulted_ids(a + b) =~= faulted_ids(a) + faulted_ids(b));
    }
}

/// A batch of stop signals carries one stop per worker and no work.
pub proof fn lemma_stop_signals_counts(n: nat)
    ensures
        stop_signals(n).len() == n,
        stop_count(stop_signals(n)) == n,
        completed_ids(stop_signals(n)) == Seq::<u64>::empty(),
        faulted_ids(stop_signals(n)) == Seq::<u64>::empty(),
        runs_before_stops(stop_signals(n)),
    decreases n,
{
    if n > 0 {
        assert(stop_signals(n).drop_first() =~= stop_signals((n - 1) as nat));
        lemma_stop_signals_counts((n - 1) as nat);
    }
}

/// Law: dispatching a queue of submitted tasks followed by the shutdown
/// signals invokes every submitted task exactly once, whatever the worker
/// count — the completed and the faulted identifiers together are exactly
/// the submitted identifiers, with no loss and no duplication.
pub proof fn lemma_each_task_invoked_once(ts: Seq<Task>, n: nat)
    ensures
        completed_ids(submission_queue(ts) + stop_signals(n)).to_multiset().add(
            faulted_ids(submission_queue(ts) + stop_signals(n)).to_multiset(),
        ) == task_ids(ts).to_multiset(),
{
    lemma_dispatch_log_append(submission_queue(ts), stop_signals(n));
    lemma_stop_signals_counts(n);
    assert(completed_ids(submission_queue(ts) + stop_signals(n)) =~= completed_ids(
        submission_queue(ts),
    ));
    assert(faulted_ids(submission_queue(ts) + stop_signals(n)) =~= faulted_ids(
        submission_queue(ts),
    ));
    lemma_submissions_partition_ids(ts);
}

/// Law: over a queue of submissions, the completed and the faulted
/// identifiers partition the submitted identifiers.
pub proof fn lemma_submissions_partition_ids(ts: Seq<Task>)
    ensures
        completed_ids(submission_queue(ts)).to_multiset().add(
            faulted_ids(submission_queue(ts)).to_multiset(),
        ) == task_ids(ts).to_multiset(),
    decreases ts.len(),
{
    broadcast use vstd::seq_lib::group_to_multiset_ensures;

    if ts.len() == 0 {
        assert(completed_ids(submission_queue(ts)).to_multiset().add(
            faulted_ids(submission_queue(ts)).to_multiset(),
        ) =~= task_ids(ts).to_multiset());
    } else {
        let rest = ts.drop_first();
        let q = submission_queue(ts);
        lemma_submissions_partition_ids(rest);
        assert(q.drop_first() =~= submission_queue(rest));
        let c = completed_ids(submission_queue(rest));
        let f = faulted_ids(submission_queue(rest));
        let ids = task_ids(rest);
        assert(seq![ts.first().id] + ids =~= ids.insert(0, ts.first().id));
        vstd::seq_lib::to_multiset_insert(ids, 0, ts.first().id);
        if ts.first().faults {
            assert(completed_ids(q) == c);
            assert(faulted_ids(q) =~= f.insert(0, ts.first().id));
            vstd::seq_lib::to_multiset_insert(f, 0, ts.first().id);
            assert(c.to_multiset().add(f.to_multiset().insert(ts.first().id)) =~= c.to_multiset()
                .add(f.to_multiset()).insert(ts.first().id));
        } else {
            assert(faulted_ids(q) == f);
            assert(completed_ids(q) =~= c.insert(0, ts.first().id));
            vstd::seq_lib::to_multiset_insert(c, 0, ts.first().id);
            assert(c.to_multiset().insert(ts.first().id).add(f.to_multiset()) =~= c.to_multiset()
                .add(f.to_multiset()).insert(ts.first().id));
        }
        assert(task_ids(ts) =~= ids.insert(0, ts.first().id));
    }
}

/// A queue of submissions alone carries no stop signal.
pub proof fn lemma_all_runs_counts(q: Seq<Message>)
    requires
        forall|i: int| 0 <= i < q.len() ==> q[i] is Run,
    ensures
        stop_count(q) == 0,
    decreases q.len(),
{
    if q.len() > 0 {
        lemma_all_runs_counts(q.drop_first());
    }
}

} // verus!
