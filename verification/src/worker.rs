//! The watch-worker lifecycle.
//!
//! One worker owns one watched directory.  Its life is a loop: take a
//! snapshot, wait for change, commit, and begin again — until it is
//! cancelled or hits a condition fatal to it alone.  The decisions of
//! that loop are the transition function here; the loop body around it
//! performs the filesystem work, the sleeping, and the version-control
//! calls, and feeds the outcome back as the next event.
//!
//! A worker that cannot snapshot its directory, or whose commit step
//! fails, is a fatal condition for that worker only: it announces its
//! exit (the live-worker counter is decremented) and terminates;
//! other workers are unaffected.

use crate::paths::{is_prefix, strip_prefix};
use vstd::prelude::*;

verus! {

/// The states of a watch worker.
#[derive(Clone, Copy, Debug, PartialEq, Eq, Structural)]
pub enum WorkerState {
    /// Producing a fresh snapshot of the directory.
    Scanning,
    /// Waiting for the change detector to report.
    Waiting,
    /// Asking the version-control collaborator to record a snapshot.
    Committing,
    /// Announcing the exit: the live-worker counter is decremented.
    Draining,
    /// Finished; the thread returns.
    Terminated,
}

/// What the surrounding loop reports back to the worker.
#[derive(Clone, Copy, Debug, PartialEq, Eq, Structural)]
pub enum WorkerEvent {
    /// The snapshot was produced.
    ScanOk,
    /// The directory could not be read at all.
    ScanFailed,
    /// The wait ended with a concrete change.
    Changed,
    /// The wait ended because a cancellation was pending.
    Cancelled,
    /// The commit sequence finished.
    CommitFinished,
    /// The commit sequence could not be run.
    CommitFailed,
    /// The exit announcement is done.
    ExitAcknowledged,
}

/// What the surrounding loop must do next.
#[derive(Clone, Copy, Debug, PartialEq, Eq, Structural)]
pub enum WorkerAction {
    /// Take a fresh filtered snapshot.
    Scan,
    /// Run the change detector's polling wait on the snapshot.
    Wait,
    /// Stage all paths, unstage the inverted scan, commit.
    Commit,
    /// Log and decrement the live-worker counter.
    AnnounceExit,
    /// Nothing is left to do.
    Halt,
}

/// Which events can arrive in which state.
pub open spec fn worker_event_fits(s: WorkerState, ev: WorkerEvent) -> bool {
    match s {
        WorkerState::Scanning => ev == WorkerEvent::ScanOk || ev == WorkerEvent::ScanFailed,
        WorkerState::Waiting => ev == WorkerEvent::Changed || ev == WorkerEvent::Cancelled,
        WorkerState::Committing => ev == WorkerEvent::CommitFinished || ev
            == WorkerEvent::CommitFailed,
        WorkerState::Draining => ev == WorkerEvent::ExitAcknowledged,
        WorkerState::Terminated => false,
    }
}

/// The state a worker starts in.
pub fn worker_start() -> (s: WorkerState)
    ensures
        s == WorkerState::Scanning,
{
    WorkerState::Scanning
}

/// The worker transition table.  A successful scan leads to waiting; a
/// change leads to committing; a finished commit leads back to
/// scanning.  Cancellation, a failed scan, and a failed commit all
/// drain the worker, and a drained worker terminates once its exit is
/// announced.
pub open spec fn worker_next(s: WorkerState, ev: WorkerEvent) -> (WorkerState, WorkerAction) {
    match (s, ev) {
        (WorkerState::Scanning, WorkerEvent::ScanOk) => (WorkerState::Waiting, WorkerAction::Wait),
        (WorkerState::Scanning, WorkerEvent::ScanFailed) => (
            WorkerState::Draining,
            WorkerAction::AnnounceExit,
        ),
        (WorkerState::Waiting, WorkerEvent::Changed) => (
            WorkerState::Committing,
            WorkerAction::Commit,
        ),
        (WorkerState::Waiting, WorkerEvent::Cancelled) => (
            WorkerState::Draining,
            WorkerAction::AnnounceExit,
        ),
        (WorkerState::Committing, WorkerEvent::CommitFinished) => (
            WorkerState::Scanning,
            WorkerAction::Scan,
        ),
        (WorkerState::Committing, WorkerEvent::CommitFailed) => (
            WorkerState::Draining,
            WorkerAction::AnnounceExit,
        ),
        (WorkerState::Draining, WorkerEvent::ExitAcknowledged) => (
            WorkerState::Terminated,
            WorkerAction::Halt,
        ),
        _ => (WorkerState::Terminated, WorkerAction::Halt),
    }
}

/// One transition of the worker lifecycle: exactly the transition
/// table.
pub fn worker_step(s: WorkerState, ev: WorkerEvent) -> (r: (WorkerState, WorkerAction))
    requires
        worker_event_fits(s, ev),
    ensures
        r == worker_next(s, ev),
{
    match (s, ev) {
        (WorkerState::Scanning, WorkerEvent::ScanOk) => (WorkerState::Waiting, WorkerAction::Wait),
        (WorkerState::Scanning, WorkerEvent::ScanFailed) => (
            WorkerState::Draining,
            WorkerAction::AnnounceExit,
        ),
        (WorkerState::Waiting, WorkerEvent::Changed) => (
            WorkerState::Committing,
            WorkerAction::Commit,
        ),
        (WorkerState::Waiting, WorkerEvent::Cancelled) => (
            WorkerState::Draining,
            WorkerAction::AnnounceExit,
        ),
        (WorkerState::Committing, WorkerEvent::CommitFinished) => (
            WorkerState::Scanning,
            WorkerAction::Scan,
        ),
        (WorkerState::Committing, WorkerEvent::CommitFailed) => (
            WorkerState::Draining,
            WorkerAction::AnnounceExit,
        ),
        (WorkerState::Draining, WorkerEvent::ExitAcknowledged) => (
            WorkerState::Terminated,
            WorkerAction::Halt,
        ),
        _ => {
            proof {
                assert(false);
            }
            (WorkerState::Terminated, WorkerAction::Halt)
        },
    }
}

/// A worker only ever terminates through the drain state: every path
/// into `Terminated` announces the exit first, so the live-worker
/// counter accounts for every ending, cancelled or fatal.
pub proof fn lemma_worker_exits_through_drain(s: WorkerState, ev: WorkerEvent)
    requires
        worker_event_fits(s, ev),
        worker_next(s, ev).0 == WorkerState::Terminated,
    ensures
        s == WorkerState::Draining,
        worker_next(s, ev).1 == WorkerAction::Halt,
{
}

/// The paths of a scan made relative to the watched directory, as the
/// version-control tool expects them.  A path the directory is not a
/// prefix of becomes empty rather than failing the whole commit.
pub fn relative_paths(paths: &Vec<Vec<u8>>, root: &Vec<u8>) -> (r: Vec<Vec<u8>>)
    ensures
        r@.len() == paths@.len(),
        forall|i: int|
            0 <= i < paths@.len() ==> (#[trigger] r@[i])@ == (if is_prefix(root@, paths@[i]@) {
                paths@[i]@.skip(root@.len() as int)
            } else {
                Seq::<u8>::empty()
            }),
{
    let mut r: Vec<Vec<u8>> = Vec::new();
    let n = paths.len();
    for i in 0..n
        invariant
            n == paths@.len(),
            r@.len() == i,
            forall|k: int|
                0 <= k < i ==> (#[trigger] r@[k])@ == (if is_prefix(root@, paths@[k]@) {
                    paths@[k]@.skip(root@.len() as int)
                } else {
                    Seq::<u8>::empty()
                }),
    {
        match strip_prefix(&paths[i], root) {
            Some(rel) => {
                r.push(rel);
            },
            None => {
                r.push(Vec::new());
            },
        }
    }
    r
}

} // verus!
