//! The worker-pool state machine.
//!
//! A pool owns a fixed set of workers and an unbounded FIFO backlog of
//! submitted tasks. Tasks are identified by the order of their submission:
//! the `i`-th successful submission creates task id `i`. The model records
//! every state a task can be in and proves that each submitted task is, at
//! every well-formed state, in exactly one place: queued, running on exactly
//! one worker, or completed exactly once.

use vstd::prelude::*;

verus! {

/// The state of one worker: blocked waiting for a task, executing one task,
/// or exited after the pool was closed and drained.
#[derive(Clone, Copy, Debug, PartialEq, Eq, Structural)]
pub enum WorkerState {
    /// Blocked on the shared queue, ready to pick up the next task.
    Idle,
    /// Executing the task with the recorded id.
    Running(usize),
    /// Exited: the queue was closed and empty when the worker last looked.
    Stopped,
}

/// The errors the pool surfaces to its caller.
#[derive(Clone, Copy, Debug, PartialEq, Eq, Structural)]
pub enum PoolError {
    /// A pool of zero workers was requested.
    ZeroSize,
    /// A task was submitted after the pool was closed.
    Closed,
}

/// The record of one finished task execution: which task ran, on which
/// worker, and whether the task body faulted. A faulting task is contained:
/// its worker returns to `Idle` and keeps serving (see [`ThreadPool::complete`]).
#[derive(Clone, Copy, Debug, PartialEq, Eq, Structural)]
pub struct Completion {
    /// The id of the task that ran.
    pub task: usize,
    /// The worker that ran it.
    pub worker: usize,
    /// Whether the task body failed internally. The failure never propagates:
    /// submission is fire-and-forget.
    pub faulted: bool,
}

/// The pool: a fixed set of workers, the FIFO backlog of queued task ids,
/// the count of submissions so far, the completion log, and whether the
/// submission side is still open.
pub struct ThreadPool {
    /// One entry per worker; the length is fixed at construction.
    pub workers: Vec<WorkerState>,
    /// Ids of submitted tasks no worker has picked up yet, oldest first.
    pub pending: Vec<usize>,
    /// How many tasks were ever submitted; the next task gets this id.
    pub submitted: usize,
    /// One record per finished execution, in completion order.
    pub done: Vec<Completion>,
    /// Whether submissions are still accepted; closed at shutdown, never reopened.
    pub is_open: bool,
}

/// Some worker in `ws` is executing the task `id`.
pub open spec fn running_in(ws: Seq<WorkerState>, id: usize) -> bool {
    exists|w: int| 0 <= w < ws.len() && ws[w] == WorkerState::Running(id)
}

/// Some record in `ds` says the task `id` finished.
pub open spec fn done_in(ds: Seq<Completion>, id: usize) -> bool {
    exists|j: int| 0 <= j < ds.len() && (#[trigger] ds[j]).task == id
}

/// The task `id` is somewhere in the backlog `ps`.
pub open spec fn pending_in(ps: Seq<usize>, id: usize) -> bool {
    exists|i: int| 0 <= i < ps.len() && ps[i] == id
}

impl ThreadPool {
    /// How many ids have left the backlog: every id below this bound has been
    /// handed to some worker; every id at or above it and below `submitted`
    /// is still queued.
    pub open spec fn taken(self) -> int {
        self.submitted - self.pending@.len()
    }

    /// Task `id` is currently executing on some worker.
    pub open spec fn is_running(self, id: usize) -> bool {
        running_in(self.workers@, id)
    }

    /// Task `id` has a completion record.
    pub open spec fn is_done(self, id: usize) -> bool {
        done_in(self.done@, id)
    }

    /// Task `id` is still in the backlog.
    pub open spec fn is_pending(self, id: usize) -> bool {
        pending_in(self.pending@, id)
    }

    /// The backlog holds exactly the ids `taken() .. submitted`, oldest first:
    /// submission order is a total order and delivery follows it.
    pub open spec fn pending_fifo(self) -> bool {
        &&& self.pending@.len() <= self.submitted
        &&& forall|i: int|
            0 <= i < self.pending@.len() ==> (#[trigger] self.pending@[i]) as int == self.taken()
                + i
    }

    /// Every running id was handed out, is not also recorded as done, and no
    /// two workers run the same task.
    pub open spec fn workers_wf(self) -> bool {
        &&& self.workers@.len() >= 1
        &&& forall|w: int|
            0 <= w < self.workers@.len() ==> ((#[trigger] self.workers@[w]) matches
            WorkerState::Running(id) ==> id < self.taken() && !done_in(self.done@, id))
        &&& forall|w1: int, w2: int|
            #![trigger self.workers@[w1], self.workers@[w2]]
            0 <= w1 < self.workers@.len() && 0 <= w2 < self.workers@.len() && w1 != w2 ==> (
            self.workers@[w1] matches WorkerState::Running(a) ==> (self.workers@[w2] matches
            WorkerState::Running(b) ==> a != b))
    }

    /// Every completion record names a handed-out task and a real worker, and
    /// no task is recorded as done twice.
    pub open spec fn done_wf(self) -> bool {
        &&& forall|j: int|
            0 <= j < self.done@.len() ==> (#[trigger] self.done@[j]).task < self.taken()
                && self.done@[j].worker < self.workers@.len()
        &&& forall|j1: int, j2: int|
            #![trigger self.done@[j1], self.done@[j2]]
            0 <= j1 < self.done@.len() && 0 <= j2 < self.done@.len() && j1 != j2
                ==> self.done@[j1].task != self.done@[j2].task
    }

    /// Every handed-out task is accounted for: it is running or done.
    pub open spec fn accounted(self) -> bool {
        forall|id: usize|
            id < self.taken() ==> #[trigger] running_in(self.workers@, id) || done_in(
                self.done@,
                id,
            )
    }

    /// A worker stops only once the pool is closed and the backlog is empty,
    /// and neither can change afterwards.
    pub open spec fn stopped_wf(self) -> bool {
        forall|w: int|
            0 <= w < self.workers@.len() && (#[trigger] self.workers@[w]) is Stopped
                ==> self.pending@.len() == 0 && !self.is_open
    }

    /// The pool's invariant: established by construction, preserved by every
    /// transition. Together with [`Self::pending_fifo`] it puts every
    /// submitted task in exactly one place (see [`lemma_exactly_once`]).
    pub open spec fn wf(self) -> bool {
        &&& self.pending_fifo()
        &&& self.workers_wf()
        &&& self.done_wf()
        &&& self.accounted()
        &&& self.stopped_wf()
    }

    /// Create a pool of `size` workers, each immediately idle on the queue.
    ///
    /// A zero-sized pool is a fatal construction error: that input is
    /// excluded here, and [`Self::construct`] reports it as
    /// [`PoolError::ZeroSize`] instead.
    pub fn new(size: usize) -> (pool: ThreadPool)
        requires
            size >= 1,
        ensures
            pool.wf(),
            pool.workers@.len() == size,
            forall|w: int| 0 <= w < size ==> (#[trigger] pool.workers@[w]) is Idle,
            Self::live_count(pool.workers@) == size,
            pool.submitted == 0,
            pool.pending@.len() == 0,
            pool.done@.len() == 0,
            pool.is_open,
    {
        let mut workers: Vec<WorkerState> = Vec::new();
        let mut i: usize = 0;
        while i < size
            invariant
                i <= size,
                workers@.len() == i,
                forall|w: int| 0 <= w < i ==> (#[trigger] workers@[w]) is Idle,
            decreases size - i,
        {
            workers.push(WorkerState::Idle);
            i = i + 1;
        }
        let pool = ThreadPool {
            workers,
            pending: Vec::new(),
            submitted: 0,
            done: Vec::new(),
            is_open: true,
        };
        proof {
            lemma_live_count_full(pool.workers@);
        }
        pool
    }

    /// Create a pool of `size` workers, rejecting a zero-sized request: the
    /// result is `Ok` exactly when `size >= 1`, and the new pool has exactly
    /// `size` workers, all idle, with nothing submitted yet.
    pub fn construct(size: usize) -> (r: Result<ThreadPool, PoolError>)
        ensures
            size == 0 ==> r == Err::<ThreadPool, PoolError>(PoolError::ZeroSize),
            size >= 1 ==> (r matches Ok(pool) && pool.wf() && pool.workers@.len() == size && (
            forall|w: int| 0 <= w < size ==> (#[trigger] pool.workers@[w]) is Idle)
                && Self::live_count(pool.workers@) == size && pool.submitted == 0
                && pool.pending@.len() == 0 && pool.done@.len() == 0 && pool.is_open),
    {
        if size == 0 {
            Err(PoolError::ZeroSize)
        } else {
            Ok(ThreadPool::new(size))
        }
    }

    /// Submit one task. On an open pool this enqueues a new task id at the
    /// back of the backlog and returns it; nothing is ever dropped. On a
    /// closed pool nothing changes and the submission is rejected as
    /// [`PoolError::Closed`] — never silently swallowed. Submission is
    /// fire-and-forget: no completion signal is owed to the caller.
    pub fn execute(&mut self) -> (r: Result<usize, PoolError>)
        requires
            old(self).wf(),
            old(self).submitted < usize::MAX,
        ensures
            final(self).wf(),
            old(self).is_open ==> r == Ok::<usize, PoolError>(old(self).submitted)
                && final(self).submitted == old(self).submitted + 1 && final(self).pending@ == old(
                self,
            ).pending@.push(old(self).submitted) && final(self).workers@ == old(self).workers@
                && final(self).done@ == old(self).done@ && final(self).is_open,
            !old(self).is_open ==> r == Err::<usize, PoolError>(PoolError::Closed) && *final(self)
                == *old(self),
    {
        if !self.is_open {
            return Err(PoolError::Closed);
        }
        let id = self.submitted;
        self.pending.push(id);
        self.submitted = self.submitted + 1;
        proof {
            assert(self.taken() == old(self).taken());
            assert forall|w: int|
                0 <= w < self.workers@.len() && (#[trigger] self.workers@[w]) is Stopped implies
                self.pending@.len() == 0 && !self.is_open by {
                assert(old(self).workers@[w] is Stopped);
            }
            assert(self.wf());
        }
        Ok(id)
    }

    /// Close the submission side: later submissions fail, nothing else
    /// changes. Closing is idempotent and is never undone.
    pub fn close(&mut self)
        requires
            old(self).wf(),
        ensures
            final(self).wf(),
            !final(self).is_open,
            final(self).workers@ == old(self).workers@,
            final(self).pending@ == old(self).pending@,
            final(self).submitted == old(self).submitted,
            final(self).done@ == old(self).done@,
    {
        self.is_open = false;
    }

    /// Worker `w`, idle until now, picks up the oldest queued task: exactly
    /// the head of the backlog, so delivery follows submission order. The
    /// returned id is the one the worker now runs; no other worker, and no
    /// other part of the state, changes — the task left the queue for exactly
    /// one worker.
    pub fn dispatch(&mut self, w: usize) -> (id: usize)
        requires
            old(self).wf(),
            w < old(self).workers@.len(),
            old(self).workers@[w as int] is Idle,
            old(self).pending@.len() > 0,
        ensures
            final(self).wf(),
            id == old(self).pending@[0],
            id as int == old(self).taken(),
            final(self).pending@ == old(self).pending@.remove(0),
            final(self).workers@ == old(self).workers@.update(
                w as int,
                WorkerState::Running(id),
            ),
            Self::live_count(final(self).workers@) == Self::live_count(old(self).workers@),
            final(self).submitted == old(self).submitted,
            final(self).done@ == old(self).done@,
            final(self).is_open == old(self).is_open,
    {
        proof {
            lemma_live_count_update(
                old(self).workers@,
                w as int,
                WorkerState::Running(old(self).pending@[0]),
            );
        }
        let id = self.pending.remove(0);
        self.workers.set(w, WorkerState::Running(id));
        proof {
            let pre = *old(self);
            assert(self.taken() == pre.taken() + 1);
            // The dispatched id was queued, so it is not yet running or done.
            assert(id < self.taken());
            assert(!done_in(self.done@, id));
            assert forall|x: usize| x < self.taken() implies #[trigger] running_in(
                self.workers@,
                x,
            ) || done_in(self.done@, x) by {
                if x == id {
                    assert(self.workers@[w as int] == WorkerState::Running(x));
                } else {
                    assert(running_in(pre.workers@, x) || done_in(pre.done@, x));
                    if running_in(pre.workers@, x) {
                        let w0 = choose|v: int|
                            0 <= v < pre.workers@.len() && pre.workers@[v]
                                == WorkerState::Running(x);
                        assert(self.workers@[w0] == WorkerState::Running(x));
                    }
                }
            }
            assert forall|v: int|
                0 <= v < self.workers@.len() && (#[trigger] self.workers@[v]) is Stopped implies
                self.pending@.len() == 0 && !self.is_open by {
                assert(pre.workers@[v] is Stopped);
                assert(pre.pending@.len() == 0);
            }
            assert(self.wf());
        }
        id
    }

    /// Worker `w` finishes the task it was running: the execution is recorded
    /// and the worker goes back to waiting on the queue. `faulted` says the
    /// task body failed internally; the failure is contained at this boundary,
    /// so the worker stays live either way and the pool never loses capacity
    /// to a bad task.
    pub fn complete(&mut self, w: usize, faulted: bool)
        requires
            old(self).wf(),
            w < old(self).workers@.len(),
            old(self).workers@[w as int] is Running,
        ensures
            final(self).wf(),
            final(self).workers@ == old(self).workers@.update(w as int, WorkerState::Idle),
            Self::live_count(final(self).workers@) == Self::live_count(old(self).workers@),
            old(self).workers@[w as int] matches WorkerState::Running(id) ==> final(self).done@
                == old(self).done@.push(
                (Completion { task: id, worker: w, faulted }),
            ),
            final(self).pending@ == old(self).pending@,
            final(self).submitted == old(self).submitted,
            final(self).is_open == old(self).is_open,
    {
        proof {
            lemma_live_count_update(old(self).workers@, w as int, WorkerState::Idle);
        }
        let state = self.workers[w];
        match state {
            WorkerState::Running(id) => {
                self.workers.set(w, WorkerState::Idle);
                self.done.push(Completion { task: id, worker: w, faulted });
                proof {
                    let pre = *old(self);
                    assert(self.taken() == pre.taken());
                    // The finished id was running on `w` alone, and not yet done.
                    assert forall|v: int|
                        0 <= v < self.workers@.len() implies ((#[trigger] self.workers@[v])
                        matches WorkerState::Running(x) ==> x < self.taken() && !done_in(
                        self.done@,
                        x,
                    )) by {
                        if self.workers@[v] is Running {
                            let x = self.workers@[v]->Running_0;
                            assert(pre.workers@[v] == WorkerState::Running(x));
                            assert(v != w as int);
                            assert(x != id);
                            assert(!done_in(pre.done@, x));
                            assert forall|j: int|
                                0 <= j < self.done@.len() implies (#[trigger] self.done@[j]).task
                                != x by {
                                if j < pre.done@.len() {
                                    assert(pre.done@[j].task != x);
                                }
                            }
                        }
                    }
                    assert forall|x: usize| x < self.taken() implies #[trigger] running_in(
                        self.workers@,
                        x,
                    ) || done_in(self.done@, x) by {
                        assert(running_in(pre.workers@, x) || done_in(pre.done@, x));
                        if x == id {
                            assert(self.done@[pre.done@.len() as int].task == x);
                        } else if running_in(pre.workers@, x) {
                            let w0 = choose|v: int|
                                0 <= v < pre.workers@.len() && pre.workers@[v]
                                    == WorkerState::Running(x);
                            assert(w0 != w as int);
                            assert(self.workers@[w0] == WorkerState::Running(x));
                        } else {
                            let j0 = choose|j: int|
                                0 <= j < pre.done@.len() && (#[trigger] pre.done@[j]).task == x;
                            assert(self.done@[j0].task == x);
                        }
                    }
                    assert forall|v: int|
                        0 <= v < self.workers@.len() && (#[trigger] self.workers@[v]) is Stopped
                        implies self.pending@.len() == 0 && !self.is_open by {
                        assert(pre.workers@[v] is Stopped);
                    }
                    assert(self.wf());
                }
            },
            _ => {
                proof {
                    assert(false);
                }
            },
        }
    }

    /// Worker `w` observes the closed, drained queue and exits. Only a closed
    /// pool with an empty backlog lets a worker stop, so no queued task is
    /// ever abandoned.
    pub fn stop_worker(&mut self, w: usize)
        requires
            old(self).wf(),
            !old(self).is_open,
            old(self).pending@.len() == 0,
            w < old(self).workers@.len(),
            old(self).workers@[w as int] is Idle,
        ensures
            final(self).wf(),
            final(self).workers@ == old(self).workers@.update(w as int, WorkerState::Stopped),
            final(self).pending@ == old(self).pending@,
            final(self).submitted == old(self).submitted,
            final(self).done@ == old(self).done@,
            final(self).is_open == old(self).is_open,
    {
        self.workers.set(w, WorkerState::Stopped);
        proof {
            let pre = *old(self);
            assert forall|x: usize| x < self.taken() implies #[trigger] running_in(
                self.workers@,
                x,
            ) || done_in(self.done@, x) by {
                assert(running_in(pre.workers@, x) || done_in(pre.done@, x));
                if running_in(pre.workers@, x) {
                    let w0 = choose|v: int|
                        0 <= v < pre.workers@.len() && pre.workers@[v] == WorkerState::Running(x);
                    assert(w0 != w as int);
                    assert(self.workers@[w0] == WorkerState::Running(x));
                }
            }
            assert(self.wf());
        }
    }

    /// Tear the pool down: close the submission side, let every in-flight
    /// task finish, run the whole backlog, and only then let every worker
    /// exit. Afterwards every worker has stopped and every task that was ever
    /// submitted has a completion record: nothing submitted before shutdown
    /// is left unexecuted.
    pub fn shutdown(&mut self)
        requires
            old(self).wf(),
        ensures
            final(self).wf(),
            !final(self).is_open,
            final(self).workers@.len() == old(self).workers@.len(),
            forall|w: int|
                0 <= w < final(self).workers@.len() ==> (#[trigger] final(self).workers@[w]) is Stopped,
            final(self).pending@.len() == 0,
            final(self).submitted == old(self).submitted,
            forall|id: usize| id < final(self).submitted ==> final(self).is_done(id),
    {
        self.close();
        let n = self.workers.len();
        // Wait out the tasks the workers are executing right now.
        let mut w: usize = 0;
        while w < n
            invariant
                self.wf(),
                !self.is_open,
                n == self.workers@.len(),
                w <= n,
                self.submitted == old(self).submitted,
                forall|v: int| 0 <= v < w ==> !((#[trigger] self.workers@[v]) is Running),
            decreases n - w,
        {
            let state = self.workers[w];
            if let WorkerState::Running(_) = state {
                self.complete(w, false);
            }
            w = w + 1;
        }
        // Run the backlog down to empty. No worker can have stopped while
        // tasks were still queued, so the first worker is idle each time.
        while self.pending.len() > 0
            invariant
                self.wf(),
                !self.is_open,
                n == self.workers@.len(),
                self.submitted == old(self).submitted,
                forall|v: int| 0 <= v < n ==> !((#[trigger] self.workers@[v]) is Running),
            decreases self.pending@.len(),
        {
            proof {
                assert(!(self.workers@[0] is Stopped));
                assert(self.workers@[0] is Idle);
            }
            let _id = self.dispatch(0);
            self.complete(0, false);
        }
        // Every worker now observes the closed, empty queue and exits.
        let mut w: usize = 0;
        while w < n
            invariant
                self.wf(),
                !self.is_open,
                n == self.workers@.len(),
                w <= n,
                self.pending@.len() == 0,
                self.submitted == old(self).submitted,
                forall|v: int| 0 <= v < n ==> !((#[trigger] self.workers@[v]) is Running),
                forall|v: int| 0 <= v < w ==> (#[trigger] self.workers@[v]) is Stopped,
            decreases n - w,
        {
            let state = self.workers[w];
            if let WorkerState::Idle = state {
                self.stop_worker(w);
            }
            w = w + 1;
        }
        proof {
            assert forall|id: usize| id < self.submitted implies self.is_done(id) by {
                assert(self.taken() == self.submitted);
                assert(running_in(self.workers@, id) || done_in(self.done@, id));
                if running_in(self.workers@, id) {
                    let w0 = choose|v: int|
                        0 <= v < self.workers@.len() && self.workers@[v] == WorkerState::Running(
                            id,
                        );
                    assert(self.workers@[w0] is Stopped);
                    assert(false);
                }
            }
        }
    }

    /// How many workers in `ws` have not stopped. A pool's capacity is the
    /// number of live workers; it never erodes from task faults.
    pub open spec fn live_count(ws: Seq<WorkerState>) -> nat
        decreases ws.len(),
    {
        if ws.len() == 0 {
            0
        } else {
            Self::live_count(ws.drop_last()) + (if ws.last() is Stopped {
                0nat
            } else {
                1nat
            })
        }
    }

    /// Count the live (not stopped) workers.
    pub fn live_workers(&self) -> (n: usize)
        ensures
            n == Self::live_count(self.workers@),
    {
        let mut n: usize = 0;
        let mut w: usize = 0;
        while w < self.workers.len()
            invariant
                w <= self.workers@.len(),
                n <= w,
                n == Self::live_count(self.workers@.take(w as int)),
            decreases self.workers@.len() - w,
        {
            let state = self.workers[w];
            proof {
                assert(self.workers@.take(w + 1int).drop_last() =~= self.workers@.take(w as int));
                assert(self.workers@.take(w + 1int).last() == self.workers@[w as int]);
            }
            if let WorkerState::Stopped = state {
            } else {
                n = n + 1;
            }
            w = w + 1;
        }
        proof {
            assert(self.workers@.take(self.workers@.len() as int) =~= self.workers@);
        }
        n
    }
}

/// Replacing one live worker's state by another live state keeps the live
/// count: in particular, a worker that finishes a task — faulted or not —
/// costs no capacity.
pub proof fn lemma_live_count_update(ws: Seq<WorkerState>, w: int, s: WorkerState)
    requires
        0 <= w < ws.len(),
        !(ws[w] is Stopped),
        !(s is Stopped),
    ensures
        ThreadPool::live_count(ws.update(w, s)) == ThreadPool::live_count(ws),
    decreases ws.len(),
{
    if w == ws.len() - 1 {
        assert(ws.update(w, s).drop_last() =~= ws.drop_last());
    } else {
        assert(ws.update(w, s).drop_last() =~= ws.drop_last().update(w, s));
        lemma_live_count_update(ws.drop_last(), w, s);
    }
}

/// No worker in `ws` has stopped: the pool's full capacity is live.
pub proof fn lemma_live_count_full(ws: Seq<WorkerState>)
    requires
        forall|w: int| 0 <= w < ws.len() ==> !((#[trigger] ws[w]) is Stopped),
    ensures
        ThreadPool::live_count(ws) == ws.len(),
    decreases ws.len(),
{
    if ws.len() > 0 {
        lemma_live_count_full(ws.drop_last());
    }
}

/// Exactly-once placement: in any well-formed pool, every submitted task is
/// in exactly one place — still queued, running on exactly one worker, or
/// completed in exactly one record — with no duplication and no loss.
pub proof fn lemma_exactly_once(p: ThreadPool, id: usize)
    requires
        p.wf(),
        id < p.submitted,
    ensures
        p.is_pending(id) || p.is_running(id) || p.is_done(id),
        p.is_pending(id) ==> !p.is_running(id) && !p.is_done(id),
        p.is_running(id) ==> !p.is_pending(id) && !p.is_done(id),
        p.is_done(id) ==> !p.is_pending(id) && !p.is_running(id),
        forall|i1: int, i2: int|
            #![trigger p.pending@[i1], p.pending@[i2]]
            0 <= i1 < p.pending@.len() && 0 <= i2 < p.pending@.len() && p.pending@[i1] == id
                && p.pending@[i2] == id ==> i1 == i2,
        forall|w1: int, w2: int|
            #![trigger p.workers@[w1], p.workers@[w2]]
            0 <= w1 < p.workers@.len() && 0 <= w2 < p.workers@.len() && p.workers@[w1]
                == WorkerState::Running(id) && p.workers@[w2] == WorkerState::Running(id) ==> w1
                == w2,
        forall|j1: int, j2: int|
            #![trigger p.done@[j1], p.done@[j2]]
            0 <= j1 < p.done@.len() && 0 <= j2 < p.done@.len() && p.done@[j1].task == id
                && p.done@[j2].task == id ==> j1 == j2,
{
    if id >= p.taken() {
        // Still queued, at the position its submission order fixes.
        assert(p.pending@[id - p.taken()] == id);
        assert(p.is_pending(id));
        if running_in(p.workers@, id) {
            let w0 = choose|v: int|
                0 <= v < p.workers@.len() && p.workers@[v] == WorkerState::Running(id);
            assert(p.workers@[w0] matches WorkerState::Running(x) && x == id);
            assert(false);
        }
        if done_in(p.done@, id) {
            let j0 = choose|j: int| 0 <= j < p.done@.len() && (#[trigger] p.done@[j]).task == id;
            assert(false);
        }
    } else {
        // Handed out: running or done, and never both.
        assert(running_in(p.workers@, id) || done_in(p.done@, id));
        assert(!p.is_pending(id));
        if running_in(p.workers@, id) {
            let w0 = choose|v: int|
                0 <= v < p.workers@.len() && p.workers@[v] == WorkerState::Running(id);
            assert(p.workers@[w0] matches WorkerState::Running(x) && x == id);
            assert(!done_in(p.done@, id));
        }
    }
}

/// Orderly teardown reaches a drained pool: once every worker has stopped,
/// the backlog is empty and every submitted task has completed — exactly one
/// completion record per submission, so the log's length is the number of
/// submissions.
pub proof fn lemma_all_stopped_all_done(p: ThreadPool)
    requires
        p.wf(),
        forall|w: int| 0 <= w < p.workers@.len() ==> (#[trigger] p.workers@[w]) is Stopped,
    ensures
        p.pending@.len() == 0,
        forall|id: usize| id < p.submitted ==> p.is_done(id),
        p.done@.len() == p.submitted,
{
    assert(p.workers@[0] is Stopped);
    assert(p.pending@.len() == 0);
    assert forall|id: usize| id < p.submitted implies p.is_done(id) by {
        assert(running_in(p.workers@, id) || done_in(p.done@, id));
        if running_in(p.workers@, id) {
            let w0 = choose|v: int|
                0 <= v < p.workers@.len() && p.workers@[v] == WorkerState::Running(id);
            assert(p.workers@[w0] is Stopped);
            assert(false);
        }
    }
    // One record per submission: the recorded task ids, pairwise distinct,
    // are exactly 0 .. submitted, so there are exactly `submitted` of them.
    let ts = p.done@.map_values(|c: Completion| c.task as int);
    assert forall|j1: int, j2: int|
        0 <= j1 < ts.len() && 0 <= j2 < ts.len() && j1 != j2 implies ts[j1] != ts[j2] by {
        assert(p.done@[j1].task != p.done@[j2].task);
    }
    assert(ts.no_duplicates());
    ts.unique_seq_to_set();
    let range = vstd::set_lib::set_int_range(0, p.submitted as int);
    assert forall|x: int| ts.to_set().contains(x) implies range.contains(x) by {
        let j0 = choose|j: int| 0 <= j < ts.len() && ts[j] == x;
        assert(p.done@[j0].task < p.taken());
    }
    assert forall|x: int| range.contains(x) implies ts.to_set().contains(x) by {
        assert(p.is_done(x as usize));
        let j0 = choose|j: int|
            0 <= j < p.done@.len() && (#[trigger] p.done@[j]).task == x as usize;
        assert(ts[j0] == x);
        assert(ts.contains(x));
    }
    assert(ts.to_set() =~= range);
    vstd::set_lib::lemma_int_range(0, p.submitted as int);
}

} // verus!
