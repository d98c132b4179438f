//! A pool of download workers of a fixed size.
//!
//! Tasks are queued as they are dispatched; the queue is closed when the last
//! one is in. A worker takes the next task when fewer than `size` tasks are
//! running, and reports back when its task has ended. The caller runs the
//! workers; the pool only keeps the books, so that never more than `size`
//! tasks run at once and so that the end of the run can be told.

use crate::dispatch::{DownloadTask, TaskView};
use crate::transfer::TaskResult;
use vstd::prelude::*;
use vstd::string::*;

verus! {

/// The number of workers of a pool where nothing else is asked for.
pub const DEFAULT_WORKERS: usize = 8;

/// The books of a pool, as plain values.
pub struct PoolView {
    /// The number of workers.
    pub size: nat,
    /// All tasks that were queued, in order.
    pub queued: Seq<TaskView>,
    /// How many of them were taken by a worker.
    pub taken: nat,
    /// How many tasks are running now.
    pub running: nat,
    pub skipped: nat,
    pub succeeded: nat,
    pub failed: nat,
    /// No further task will be queued.
    pub closed: bool,
}

/// What can happen to a pool.
pub enum PoolStep {
    /// A task is queued.
    Submit(TaskView),
    /// The queue is closed.
    Close,
    /// A worker asks for a task.
    Take,
    /// A worker reports that its task was fetched and stored.
    Succeed,
    /// A worker reports that its task was skipped.
    Skip,
    /// A worker reports that its task failed.
    Fail,
}

impl PoolView {
    /// A pool of `size` workers to which nothing has happened yet.
    pub open spec fn fresh(size: nat) -> PoolView {
        PoolView {
            size: size,
            queued: Seq::empty(),
            taken: 0,
            running: 0,
            skipped: 0,
            succeeded: 0,
            failed: 0,
            closed: false,
        }
    }

    /// The number of tasks that have ended.
    pub open spec fn processed(self) -> nat {
        self.skipped + self.succeeded + self.failed
    }

    /// A worker that asks for a task gets one.
    pub open spec fn can_take(self) -> bool {
        self.running < self.size && self.taken < self.queued.len()
    }

    /// The run is over: the queue is closed, every task was taken and none
    /// is running.
    pub open spec fn is_finished(self) -> bool {
        self.closed && self.taken == self.queued.len() && self.running == 0
    }

    /// The tasks that were handed to workers, in the order in which they
    /// were handed out: those at the front of the queue.
    pub open spec fn handed_out(self) -> Seq<TaskView> {
        self.queued.take(self.taken as int)
    }

    /// The books are in order: no more tasks run than there are workers, and
    /// every task that was taken is running or has ended.
    pub open spec fn in_order(self) -> bool {
        &&& self.running <= self.size
        &&& self.taken <= self.queued.len()
        &&& self.taken == self.running + self.processed()
    }

    /// The pool after `step`. A task that is submitted after the queue was
    /// closed is not queued; a worker that asks in vain, or reports though
    /// nothing is running, changes nothing.
    pub open spec fn after(self, step: PoolStep) -> PoolView {
        match step {
            PoolStep::Submit(task) => if self.closed {
                self
            } else {
                PoolView { queued: self.queued.push(task), ..self }
            },
            PoolStep::Close => PoolView { closed: true, ..self },
            PoolStep::Take => if self.can_take() {
                PoolView { taken: self.taken + 1, running: self.running + 1, ..self }
            } else {
                self
            },
            PoolStep::Succeed => if self.running > 0 {
                PoolView {
                    running: (self.running - 1) as nat,
                    succeeded: self.succeeded + 1,
                    ..self
                }
            } else {
                self
            },
            PoolStep::Skip => if self.running > 0 {
                PoolView {
                    running: (self.running - 1) as nat,
                    skipped: self.skipped + 1,
                    ..self
                }
            } else {
                self
            },
            PoolStep::Fail => if self.running > 0 {
                PoolView {
                    running: (self.running - 1) as nat,
                    failed: self.failed + 1,
                    ..self
                }
            } else {
                self
            },
        }
    }

    /// The pool after `steps`, one after the other.
    pub open spec fn after_all(self, steps: Seq<PoolStep>) -> PoolView
        decreases steps.len(),
    {
        if steps.len() == 0 {
            self
        } else {
            self.after_all(steps.drop_last()).after(steps.last())
        }
    }
}

/// The step that a worker's report of `result` is.
pub open spec fn report_of(result: TaskResult) -> PoolStep {
    match result {
        TaskResult::Succeeded => PoolStep::Succeed,
        TaskResult::Skipped => PoolStep::Skip,
        TaskResult::Failed(_) => PoolStep::Fail,
    }
}

/// No step brings the books out of order.
pub proof fn lemma_step_keeps_order(pool: PoolView, step: PoolStep)
    requires
        pool.in_order(),
    ensures
        pool.after(step).in_order(),
        pool.after(step).size == pool.size,
{
}

/// Whatever happens to a pool, and however many tasks are queued, never more
/// tasks run than it has workers.
pub proof fn lemma_never_above_size(size: nat, steps: Seq<PoolStep>)
    ensures
        PoolView::fresh(size).after_all(steps).in_order(),
        PoolView::fresh(size).after_all(steps).size == size,
        PoolView::fresh(size).after_all(steps).running <= size,
    decreases steps.len(),
{
    if steps.len() > 0 {
        lemma_never_above_size(size, steps.drop_last());
        lemma_step_keeps_order(PoolView::fresh(size).after_all(steps.drop_last()), steps.last());
    }
}

/// When the run is over, every task that was queued has ended: it was
/// skipped, or it succeeded, or it failed.
pub proof fn lemma_finished_means_all_ended(pool: PoolView)
    requires
        pool.in_order(),
        pool.is_finished(),
    ensures
        pool.processed() == pool.queued.len(),
{
}

/// When the run is over, every task that was queued was handed to a worker
/// once, in the order of the queue.
pub proof fn lemma_finished_means_all_handed_out(pool: PoolView)
    requires
        pool.in_order(),
        pool.is_finished(),
    ensures
        pool.handed_out() == pool.queued,
{
    assert(pool.queued.take(pool.queued.len() as int) =~= pool.queued);
}

/// The books of a pool of workers.
pub struct WorkerPool {
    size: usize,
    queue: Vec<DownloadTask>,
    taken: usize,
    running: usize,
    skipped: usize,
    succeeded: usize,
    failed: usize,
    closed: bool,
}

impl View for WorkerPool {
    type V = PoolView;

    closed spec fn view(&self) -> PoolView {
        PoolView {
            size: self.size as nat,
            queued: self.queue.deep_view(),
            taken: self.taken as nat,
            running: self.running as nat,
            skipped: self.skipped as nat,
            succeeded: self.succeeded as nat,
            failed: self.failed as nat,
            closed: self.closed,
        }
    }
}

impl WorkerPool {
    #[verifier::type_invariant]
    spec fn books_in_order(&self) -> bool {
        self@.in_order()
    }

    /// A pool of `size` workers, with nothing queued.
    pub fn new(size: usize) -> (pool: WorkerPool)
        ensures
            pool@ == PoolView::fresh(size as nat),
    {
        let pool = WorkerPool {
            size,
            queue: Vec::new(),
            taken: 0,
            running: 0,
            skipped: 0,
            succeeded: 0,
            failed: 0,
            closed: false,
        };
        assert(pool@.queued =~= Seq::<TaskView>::empty());
        pool
    }

    /// Writes all counts at once, so that the books are in order before and
    /// after.
    fn set_counts(
        &mut self,
        taken: usize,
        running: usize,
        skipped: usize,
        succeeded: usize,
        failed: usize,
    )
        requires
            (PoolView {
                taken: taken as nat,
                running: running as nat,
                skipped: skipped as nat,
                succeeded: succeeded as nat,
                failed: failed as nat,
                ..old(self)@
            }).in_order(),
        ensures
            final(self)@ == (PoolView {
                taken: taken as nat,
                running: running as nat,
                skipped: skipped as nat,
                succeeded: succeeded as nat,
                failed: failed as nat,
                ..old(self)@
            }),
    {
        let mut held = WorkerPool::new(0);
        core::mem::swap(self, &mut held);
        let WorkerPool { size, queue, closed, .. } = held;
        *self = WorkerPool { size, queue, taken, running, skipped, succeeded, failed, closed };
    }

    /// Queues `task`, unless the queue was closed. Tells whether it was queued.
    pub fn submit(&mut self, task: DownloadTask) -> (queued: bool)
        ensures
            final(self)@ == old(self)@.after(PoolStep::Submit(task@)),
            queued == !old(self)@.closed,
            final(self)@.in_order(),
    {
        proof {
            use_type_invariant(&*self);
        }
        if self.closed {
            return false;
        }
        // The books must be in order at every moment, so the queue does not
        // grow in place: the pool is taken apart and put together again.
        let mut held = WorkerPool::new(0);
        core::mem::swap(self, &mut held);
        let WorkerPool { size, mut queue, taken, running, skipped, succeeded, failed, closed } =
            held;
        let ghost before = queue.deep_view();
        queue.push(task);
        assert(queue.deep_view() =~= before.push(task@));
        *self = WorkerPool { size, queue, taken, running, skipped, succeeded, failed, closed };
        true
    }

    /// Closes the queue: no further task will be queued.
    pub fn close(&mut self)
        ensures
            final(self)@ == old(self)@.after(PoolStep::Close),
            final(self)@.in_order(),
    {
        proof {
            use_type_invariant(&*self);
        }
        self.closed = true;
    }

    /// Hands the next task to a worker, if there is one and fewer tasks are
    /// running than the pool has workers.
    pub fn take(&mut self) -> (task: Option<DownloadTask>)
        ensures
            final(self)@ == old(self)@.after(PoolStep::Take),
            task is Some <==> old(self)@.can_take(),
            task matches Some(t) ==> t@ == old(self)@.queued[old(self)@.taken as int],
            final(self)@.handed_out() == match task {
                Some(t) => old(self)@.handed_out().push(t@),
                None => old(self)@.handed_out(),
            },
            final(self)@.in_order(),
            final(self)@.running <= final(self)@.size,
    {
        proof {
            use_type_invariant(&*self);
        }
        if self.running < self.size && self.taken < self.queue.len() {
            let next = &self.queue[self.taken];
            let task = DownloadTask {
                url: next.url.clone(),
                directory: next.directory.clone(),
                filename: next.filename.clone(),
            };
            self.set_counts(
                self.taken + 1,
                self.running + 1,
                self.skipped,
                self.succeeded,
                self.failed,
            );
            Some(task)
        } else {
            None
        }
    }

    /// Takes a worker's report that its task has ended with `result`. Tells
    /// whether a task was running at all; if none was, nothing changes.
    pub fn complete(&mut self, result: &TaskResult) -> (counted: bool)
        ensures
            final(self)@ == old(self)@.after(report_of(*result)),
            counted == (old(self)@.running > 0),
            final(self)@.in_order(),
            final(self)@.running <= final(self)@.size,
    {
        proof {
            use_type_invariant(&*self);
        }
        if self.running == 0 {
            return false;
        }
        let running: usize = self.running - 1;
        match result {
            TaskResult::Succeeded => {
                self.set_counts(
                    self.taken,
                    running,
                    self.skipped,
                    self.succeeded + 1,
                    self.failed,
                );
            },
            TaskResult::Skipped => {
                self.set_counts(
                    self.taken,
                    running,
                    self.skipped + 1,
                    self.succeeded,
                    self.failed,
                );
            },
            TaskResult::Failed(_) => {
                self.set_counts(
                    self.taken,
                    running,
                    self.skipped,
                    self.succeeded,
                    self.failed + 1,
                );
            },
        }
        true
    }

    /// Tells whether the run is over.
    pub fn is_finished(&self) -> (r: bool)
        ensures
            r == self@.is_finished(),
            r ==> self@.processed() == self@.queued.len(),
    {
        proof {
            use_type_invariant(self);
        }
        self.closed && self.taken == self.queue.len() && self.running == 0
    }

    /// The number of workers.
    pub fn size(&self) -> (r: usize)
        ensures
            r == self@.size,
    {
        self.size
    }

    /// The number of tasks that are running now. It is never above the
    /// number of workers.
    pub fn running(&self) -> (r: usize)
        ensures
            r == self@.running,
            r <= self@.size,
    {
        proof {
            use_type_invariant(self);
        }
        self.running
    }

    /// The number of tasks that were queued.
    pub fn dispatched(&self) -> (r: usize)
        ensures
            r == self@.queued.len(),
    {
        self.queue.len()
    }

    /// The number of tasks that have ended. It is never above the number of
    /// tasks that were queued.
    pub fn processed(&self) -> (r: usize)
        ensures
            r == self@.processed(),
            r <= self@.queued.len(),
    {
        proof {
            use_type_invariant(self);
        }
        self.skipped + self.succeeded + self.failed
    }

    /// The number of tasks that were skipped.
    pub fn skipped(&self) -> (r: usize)
        ensures
            r == self@.skipped,
    {
        self.skipped
    }

    /// The number of tasks that succeeded.
    pub fn succeeded(&self) -> (r: usize)
        ensures
            r == self@.succeeded,
    {
        self.succeeded
    }

    /// The number of tasks that failed.
    pub fn failed(&self) -> (r: usize)
        ensures
            r == self@.failed,
    {
        self.failed
    }
}

} // verus!
