//! The life of one download task.
//!
//! A task waits, then is either skipped, because its file is already there,
//! or downloaded piece by piece until it has succeeded or failed. The caller
//! does the work on disk and on the network and reports what happened; what
//! to do next is decided here.

use crate::dispatch::DownloadTask;
use vstd::prelude::*;

verus! {

/// How a task ended.
#[derive(Debug, PartialEq, Eq)]
pub enum TaskResult {
    /// The file was fetched and stored.
    Succeeded,
    /// The file was already there; nothing was fetched.
    Skipped,
    /// Fetching or storing went wrong, for the reason given.
    Failed(String),
}

/// A task together with how it ended.
#[derive(Debug, PartialEq, Eq)]
pub struct DownloadOutcome {
    pub task: DownloadTask,
    pub result: TaskResult,
}

/// Where a task stands.
#[derive(Debug, PartialEq, Eq)]
pub enum TaskState {
    /// Not begun.
    Queued,
    /// Being fetched; so many bytes have been stored.
    Downloading(u64),
    /// Ended.
    Done(TaskResult),
}

/// What the caller reports.
#[derive(Debug, PartialEq, Eq)]
pub enum TaskEvent {
    /// The destination file exists already.
    Found,
    /// The destination file does not exist.
    Missing,
    /// A piece of so many bytes has arrived.
    Chunk(usize),
    /// The last piece has been stored.
    Finished,
    /// The network or the disk failed while the file was being fetched, for
    /// the reason given.
    Broken(String),
}

/// What the caller is to do next.
#[derive(Clone, Copy, Debug, PartialEq, Eq, Structural)]
pub enum TaskAction {
    /// Request the file and create its destination.
    Fetch,
    /// Store the piece that has arrived; with it so many bytes are stored.
    Store(u64),
    /// Nothing.
    Rest,
}

impl TaskState {
    /// The task has ended.
    pub open spec fn is_final(self) -> bool {
        self is Done
    }
}

/// The state that follows `state` on `event`, and what is to be done then.
/// An event that the state does not expect changes nothing.
pub open spec fn next(state: TaskState, event: TaskEvent) -> (TaskState, TaskAction) {
    match (state, event) {
        (TaskState::Queued, TaskEvent::Found) => (
            TaskState::Done(TaskResult::Skipped),
            TaskAction::Rest,
        ),
        (TaskState::Queued, TaskEvent::Missing) => (TaskState::Downloading(0), TaskAction::Fetch),
        (TaskState::Downloading(stored), TaskEvent::Chunk(len)) => (
            TaskState::Downloading((stored + len) as u64),
            TaskAction::Store((stored + len) as u64),
        ),
        (TaskState::Downloading(_), TaskEvent::Finished) => (
            TaskState::Done(TaskResult::Succeeded),
            TaskAction::Rest,
        ),
        (TaskState::Downloading(_), TaskEvent::Broken(reason)) => (
            TaskState::Done(TaskResult::Failed(reason)),
            TaskAction::Rest,
        ),
        _ => (state, TaskAction::Rest),
    }
}

/// The count of stored bytes stays a 64-bit number when `event` arrives.
pub open spec fn fits(state: TaskState, event: TaskEvent) -> bool {
    match (state, event) {
        (TaskState::Downloading(stored), TaskEvent::Chunk(len)) => stored + len <= u64::MAX,
        _ => true,
    }
}

/// The state that a task is in after `events`, one after the other.
pub open spec fn state_after(state: TaskState, events: Seq<TaskEvent>) -> TaskState
    decreases events.len(),
{
    if events.len() == 0 {
        state
    } else {
        next(state_after(state, events.drop_last()), events.last()).0
    }
}

/// What the caller was told to do on each of `events`.
pub open spec fn actions_on(state: TaskState, events: Seq<TaskEvent>) -> Seq<TaskAction>
    decreases events.len(),
{
    if events.len() == 0 {
        Seq::empty()
    } else {
        actions_on(state, events.drop_last()).push(
            next(state_after(state, events.drop_last()), events.last()).1,
        )
    }
}

/// A task goes the way of its life and no other: from waiting to skipped or
/// to downloading, from downloading to succeeded or to failed. Nothing is
/// requested but on the way into downloading, and nothing is stored but
/// while downloading.
pub proof fn lemma_way_of_a_task(state: TaskState, event: TaskEvent)
    ensures
        ({
            let (after, action) = next(state, event);
            &&& match state {
                TaskState::Queued => after == state || after == TaskState::Done(
                    TaskResult::Skipped,
                ) || after == TaskState::Downloading(0),
                TaskState::Downloading(_) => after == state || after is Downloading || after
                    == TaskState::Done(TaskResult::Succeeded) || (after matches TaskState::Done(
                    result,
                ) && result is Failed),
                TaskState::Done(_) => after == state,
            }
            &&& action == TaskAction::Fetch <==> state is Queued && after is Downloading
            &&& action is Store ==> state is Downloading && after is Downloading
        }),
{
}

/// A task that has ended stays as it is, whatever is reported, and asks for
/// nothing more.
pub proof fn lemma_final_stays(state: TaskState, events: Seq<TaskEvent>)
    requires
        state.is_final(),
    ensures
        state_after(state, events) == state,
        forall|i: int| 0 <= i < events.len() ==> actions_on(state, events)[i] == TaskAction::Rest,
        actions_on(state, events).len() == events.len(),
    decreases events.len(),
{
    if events.len() > 0 {
        lemma_final_stays(state, events.drop_last());
    }
}

/// What happens on `events` after a first event `first`.
proof fn lemma_first_event(state: TaskState, first: TaskEvent, events: Seq<TaskEvent>)
    ensures
        state_after(state, seq![first] + events) == state_after(next(state, first).0, events),
        actions_on(state, seq![first] + events) == seq![next(state, first).1] + actions_on(
            next(state, first).0,
            events,
        ),
    decreases events.len(),
{
    let all = seq![first] + events;
    if events.len() == 0 {
        assert(all.drop_last() =~= Seq::<TaskEvent>::empty());
        assert(state_after(state, all.drop_last()) == state);
        assert(actions_on(state, all.drop_last()) =~= Seq::<TaskAction>::empty());
        assert(all.last() == first);
        assert(actions_on(state, all) =~= seq![next(state, first).1]);
        assert(actions_on(next(state, first).0, events) =~= Seq::<TaskAction>::empty());
    } else {
        lemma_first_event(state, first, events.drop_last());
        assert(all.drop_last() =~= seq![first] + events.drop_last());
        assert(all.last() == events.last());
        assert(actions_on(state, all) =~= seq![next(state, first).1] + actions_on(
            next(state, first).0,
            events,
        ));
    }
}

/// A task whose file is found to be there is skipped for good: whatever is
/// reported later, nothing is ever requested and nothing is ever stored.
pub proof fn lemma_found_is_skipped(events: Seq<TaskEvent>)
    ensures
        state_after(TaskState::Queued, seq![TaskEvent::Found] + events) == TaskState::Done(
            TaskResult::Skipped,
        ),
        forall|i: int|
            0 <= i < events.len() + 1 ==> actions_on(
                TaskState::Queued,
                seq![TaskEvent::Found] + events,
            )[i] == TaskAction::Rest,
{
    lemma_first_event(TaskState::Queued, TaskEvent::Found, events);
    lemma_final_stays(TaskState::Done(TaskResult::Skipped), events);
}

/// Moves a task on by one event. Gives the new state and what the caller is
/// to do next.
pub fn advance(state: TaskState, event: TaskEvent) -> (r: (TaskState, TaskAction))
    requires
        fits(state, event),
    ensures
        r == next(state, event),
{
    match state {
        TaskState::Queued => match event {
            TaskEvent::Found => (TaskState::Done(TaskResult::Skipped), TaskAction::Rest),
            TaskEvent::Missing => (TaskState::Downloading(0), TaskAction::Fetch),
            _ => (TaskState::Queued, TaskAction::Rest),
        },
        TaskState::Downloading(stored) => match event {
            TaskEvent::Chunk(len) => {
                let total: u64 = stored + len as u64;
                (TaskState::Downloading(total), TaskAction::Store(total))
            },
            TaskEvent::Finished => (TaskState::Done(TaskResult::Succeeded), TaskAction::Rest),
            TaskEvent::Broken(reason) => (
                TaskState::Done(TaskResult::Failed(reason)),
                TaskAction::Rest,
            ),
            _ => (TaskState::Downloading(stored), TaskAction::Rest),
        },
        TaskState::Done(result) => (TaskState::Done(result), TaskAction::Rest),
    }
}

/// Tells whether the count of stored bytes stays a 64-bit number when
/// `event` arrives.
pub fn can_advance(state: &TaskState, event: &TaskEvent) -> (r: bool)
    ensures
        r == fits(*state, *event),
{
    match state {
        TaskState::Downloading(stored) => match event {
            TaskEvent::Chunk(len) => *len as u64 <= u64::MAX - *stored,
            _ => true,
        },
        _ => true,
    }
}

/// How the task ended, where it has.
pub fn outcome(task: DownloadTask, state: TaskState) -> (r: Option<DownloadOutcome>)
    ensures
        r is Some <==> state.is_final(),
        r matches Some(found) ==> found.task == task && state == TaskState::Done(found.result),
{
    match state {
        TaskState::Done(result) => Some(DownloadOutcome { task, result }),
        _ => None,
    }
}

} // verus!
