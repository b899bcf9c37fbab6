use cbak::worker::{
    WorkerAction, WorkerEvent, WorkerState, relative_paths, worker_start, worker_step,
};

#[test]
fn worker_happy_cycle() {
    let s = worker_start();
    assert_eq!(s, WorkerState::Scanning);
    let (s, a) = worker_step(s, WorkerEvent::ScanOk);
    assert_eq!((s, a), (WorkerState::Waiting, WorkerAction::Wait));
    let (s, a) = worker_step(s, WorkerEvent::Changed);
    assert_eq!((s, a), (WorkerState::Committing, WorkerAction::Commit));
    let (s, a) = worker_step(s, WorkerEvent::CommitFinished);
    assert_eq!((s, a), (WorkerState::Scanning, WorkerAction::Scan));
}

#[test]
fn cancellation_drains_then_terminates() {
    let (s, a) = worker_step(WorkerState::Waiting, WorkerEvent::Cancelled);
    assert_eq!((s, a), (WorkerState::Draining, WorkerAction::AnnounceExit));
    let (s, a) = worker_step(s, WorkerEvent::ExitAcknowledged);
    assert_eq!((s, a), (WorkerState::Terminated, WorkerAction::Halt));
}

#[test]
fn unreadable_directory_is_fatal_to_this_worker_only() {
    let (s, a) = worker_step(WorkerState::Scanning, WorkerEvent::ScanFailed);
    assert_eq!((s, a), (WorkerState::Draining, WorkerAction::AnnounceExit));
}

#[test]
fn failed_commit_drains_the_worker() {
    let (s, a) = worker_step(WorkerState::Committing, WorkerEvent::CommitFailed);
    assert_eq!((s, a), (WorkerState::Draining, WorkerAction::AnnounceExit));
}

#[test]
fn unstage_paths_are_relative() {
    let paths = vec![b"/w/a/b".to_vec(), b"/w/c.tmp".to_vec(), b"/other/x".to_vec()];
    let r = relative_paths(&paths, &b"/w/".to_vec());
    assert_eq!(r, vec![b"a/b".to_vec(), b"c.tmp".to_vec(), b"".to_vec()]);
}
