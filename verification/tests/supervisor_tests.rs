use cbak::protocol::Frame;
use cbak::supervisor::{SupAction, SupEvent, SupPhase, Supervisor};

fn reload_frame() -> SupEvent {
    SupEvent::FrameReceived(Frame { reload: true, query_path: false })
}

#[test]
fn boot_spawns_one_worker_per_entry() {
    let (mut s, a) = Supervisor::boot(2);
    assert_eq!(a, SupAction::Spawn { idx: 0 });
    let a = s.step(SupEvent::Spawned);
    assert_eq!(a, SupAction::Spawn { idx: 1 });
    let a = s.step(SupEvent::Spawned);
    assert_eq!(a, SupAction::Idle);
    assert_eq!(s.phase, SupPhase::Serving);
    assert_eq!(s.live, 2);
}

#[test]
fn boot_with_no_entries_serves_at_once() {
    let (s, a) = Supervisor::boot(0);
    assert_eq!(a, SupAction::Idle);
    assert_eq!(s.phase, SupPhase::Serving);
    assert_eq!(s.live, 0);
}

#[test]
fn path_query_is_answered() {
    let (mut s, _) = Supervisor::boot(0);
    let a = s.step(SupEvent::FrameReceived(Frame { reload: false, query_path: true }));
    assert_eq!(a, SupAction::Reply);
    assert_eq!(s.phase, SupPhase::Serving);
}

#[test]
fn empty_frame_is_a_noop() {
    let (mut s, _) = Supervisor::boot(0);
    let a = s.step(SupEvent::FrameReceived(Frame { reload: false, query_path: false }));
    assert_eq!(a, SupAction::Idle);
    assert_eq!(s.phase, SupPhase::Serving);
}

#[test]
fn reload_with_two_workers_drains_to_zero_then_respawns() {
    // bring two workers up
    let (mut s, a) = Supervisor::boot(2);
    assert_eq!(a, SupAction::Spawn { idx: 0 });
    assert_eq!(s.step(SupEvent::Spawned), SupAction::Spawn { idx: 1 });
    assert_eq!(s.step(SupEvent::Spawned), SupAction::Idle);
    assert_eq!(s.live, 2);

    // the reload frame: both channels are signalled in order
    assert_eq!(s.step(reload_frame()), SupAction::SendCancel { idx: 0 });
    assert_eq!(s.step(SupEvent::SendOk), SupAction::SendCancel { idx: 1 });
    assert_eq!(s.step(SupEvent::SendOk), SupAction::PollCounter);

    // the drain barrier: nothing is loaded or spawned while the
    // counter is above zero
    assert_eq!(s.step(SupEvent::DrainTick), SupAction::PollCounter);
    assert_eq!(s.step(SupEvent::WorkerExited), SupAction::Idle);
    assert_eq!(s.step(SupEvent::DrainTick), SupAction::PollCounter);
    assert_eq!(s.step(SupEvent::WorkerExited), SupAction::Idle);
    assert_eq!(s.live, 0);
    assert_eq!(s.step(SupEvent::DrainTick), SupAction::LoadConfig);

    // the new configuration has two entries: exactly two spawns
    assert_eq!(s.step(SupEvent::Loaded { entries: 2 }), SupAction::Spawn { idx: 0 });
    assert_eq!(s.step(SupEvent::Spawned), SupAction::Spawn { idx: 1 });
    assert_eq!(s.step(SupEvent::Spawned), SupAction::Idle);
    assert_eq!(s.phase, SupPhase::Serving);
    assert_eq!(s.live, 2);
    assert_eq!(s.channels, 2);
}

#[test]
fn reload_shrinking_watch_list() {
    let (mut s, _) = Supervisor::boot(1);
    assert_eq!(s.step(SupEvent::Spawned), SupAction::Idle);
    assert_eq!(s.step(reload_frame()), SupAction::SendCancel { idx: 0 });
    assert_eq!(s.step(SupEvent::SendOk), SupAction::PollCounter);
    assert_eq!(s.step(SupEvent::WorkerExited), SupAction::Idle);
    assert_eq!(s.step(SupEvent::DrainTick), SupAction::LoadConfig);
    assert_eq!(s.step(SupEvent::Loaded { entries: 0 }), SupAction::Idle);
    assert_eq!(s.phase, SupPhase::Serving);
    assert_eq!(s.live, 0);
    assert_eq!(s.channels, 0);
}

#[test]
fn combined_frame_replies_after_the_reload() {
    let (mut s, _) = Supervisor::boot(1);
    assert_eq!(s.step(SupEvent::Spawned), SupAction::Idle);
    let a = s.step(SupEvent::FrameReceived(Frame { reload: true, query_path: true }));
    assert_eq!(a, SupAction::SendCancel { idx: 0 });
    assert_eq!(s.step(SupEvent::SendOk), SupAction::PollCounter);
    assert_eq!(s.step(SupEvent::WorkerExited), SupAction::Idle);
    assert_eq!(s.step(SupEvent::DrainTick), SupAction::LoadConfig);
    assert_eq!(s.step(SupEvent::Loaded { entries: 1 }), SupAction::Spawn { idx: 0 });
    // the held path query is answered once the respawn is done
    assert_eq!(s.step(SupEvent::Spawned), SupAction::Reply);
    assert_eq!(s.phase, SupPhase::Serving);
}

#[test]
fn send_is_retried_once_then_fatal() {
    let (mut s, _) = Supervisor::boot(1);
    assert_eq!(s.step(SupEvent::Spawned), SupAction::Idle);
    assert_eq!(s.step(reload_frame()), SupAction::SendCancel { idx: 0 });
    assert_eq!(s.step(SupEvent::SendFailed), SupAction::RetrySend { idx: 0 });
    assert_eq!(s.step(SupEvent::SendFailed), SupAction::Fatal);
    assert_eq!(s.phase, SupPhase::Failed);
}

#[test]
fn retried_send_that_succeeds_continues() {
    let (mut s, _) = Supervisor::boot(1);
    assert_eq!(s.step(SupEvent::Spawned), SupAction::Idle);
    assert_eq!(s.step(reload_frame()), SupAction::SendCancel { idx: 0 });
    assert_eq!(s.step(SupEvent::SendFailed), SupAction::RetrySend { idx: 0 });
    assert_eq!(s.step(SupEvent::SendOk), SupAction::PollCounter);
    assert_eq!(s.phase, SupPhase::Draining);
}

#[test]
fn reload_failure_is_fatal() {
    let (mut s, _) = Supervisor::boot(0);
    assert_eq!(
        s.step(SupEvent::FrameReceived(Frame { reload: true, query_path: false })),
        SupAction::PollCounter
    );
    assert_eq!(s.step(SupEvent::DrainTick), SupAction::LoadConfig);
    assert_eq!(s.step(SupEvent::LoadFailed), SupAction::Fatal);
    assert_eq!(s.phase, SupPhase::Failed);
}
