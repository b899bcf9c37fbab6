//! The supervisor: control dispatch and drain-and-respawn reload.
//!
//! The daemon's main thread owns the configuration, one cancellation
//! channel per worker, and the control listener.  Its decisions are the
//! transition function here; the accept loop around it performs the
//! socket reads, the channel sends, the sleeps, and the thread spawns,
//! and feeds each outcome back as the next event.
//!
//! A reload strictly orders: signal every worker's channel (one retry
//! after a short backoff if a send fails; a failure after the retry is
//! fatal to the daemon) — poll the live-worker counter until it reaches
//! zero — reload the configuration — spawn the new generation.  No
//! worker of one generation ever overlaps a worker of the next for the
//! same directory, because nothing is spawned before the counter has
//! been seen at zero.
//!
//! The live-worker counter is the only state touched by more than one
//! thread; here it is mirrored as a plain field, changed exactly when
//! the process's shared counter is changed (a spawn increments it, a
//! worker's exit announcement decrements it).

use crate::protocol::Frame;
use vstd::prelude::*;

verus! {

/// The phases of the supervisor's control loop.
#[derive(Clone, Copy, Debug, PartialEq, Eq, Structural)]
pub enum SupPhase {
    /// Serving control connections.
    Serving,
    /// Broadcasting the cancellation signal: which channel is next, and
    /// whether the current send has already been retried.
    Cancelling { next: usize, retried: bool },
    /// Every channel signalled: waiting for the counter to reach zero.
    Draining,
    /// Counter seen at zero: reloading the configuration from disk.
    Loading,
    /// Spawning the workers of the new generation.
    Respawning { next: usize, total: usize },
    /// A condition fatal to the whole daemon.
    Failed,
}

/// The supervisor's control state.
#[derive(Clone, Copy, Debug, PartialEq, Eq, Structural)]
pub struct Supervisor {
    /// The mirror of the shared live-worker counter.
    pub live: usize,
    /// How many worker channels the current generation has.
    pub channels: usize,
    pub phase: SupPhase,
    /// Whether a path query arrived in the same frame as the pending
    /// reload, to be answered once the reload is done.
    pub reply_after: bool,
}

/// What the accept loop reports to the supervisor.
#[derive(Clone, Copy, Debug, PartialEq, Eq, Structural)]
pub enum SupEvent {
    /// A control frame arrived.
    FrameReceived(Frame),
    /// The cancellation send went through.
    SendOk,
    /// The cancellation send failed.
    SendFailed,
    /// One drain poll tick elapsed.
    DrainTick,
    /// A worker announced its exit: the shared counter was decremented.
    WorkerExited,
    /// The configuration was reloaded, with this many watch entries.
    Loaded { entries: usize },
    /// The configuration could not be reloaded.
    LoadFailed,
    /// The commanded worker was spawned: the shared counter was
    /// incremented.
    Spawned,
}

/// What the accept loop must do next.
#[derive(Clone, Copy, Debug, PartialEq, Eq, Structural)]
pub enum SupAction {
    /// Nothing; keep serving.
    Idle,
    /// Answer with the configuration file path, newline-terminated.
    Reply,
    /// Send the cancellation signal on this channel.
    SendCancel { idx: usize },
    /// Back off briefly, then send on this channel once more.
    RetrySend { idx: usize },
    /// Sleep briefly and read the counter again.
    PollCounter,
    /// Reload the configuration from disk.
    LoadConfig,
    /// Spawn a worker for this watch entry.
    Spawn { idx: usize },
    /// The daemon must exit.
    Fatal,
}

/// The supervisor's phase invariant.
pub open spec fn sup_inv(s: Supervisor) -> bool {
    match s.phase {
        SupPhase::Cancelling { next, retried } => next < s.channels,
        SupPhase::Loading => s.live == 0,
        SupPhase::Respawning { next, total } => next < total && s.channels == total && s.live
            <= next,
        _ => true,
    }
}

/// Which events can arrive in which phase.
pub open spec fn sup_event_fits(s: Supervisor, ev: SupEvent) -> bool {
    match ev {
        SupEvent::FrameReceived(_) => s.phase == SupPhase::Serving,
        SupEvent::SendOk => s.phase is Cancelling,
        SupEvent::SendFailed => s.phase is Cancelling,
        SupEvent::DrainTick => s.phase == SupPhase::Draining,
        SupEvent::WorkerExited => s.live > 0 && (s.phase == SupPhase::Serving
            || s.phase is Cancelling || s.phase == SupPhase::Draining || s.phase is Respawning),
        SupEvent::Loaded { .. } => s.phase == SupPhase::Loading,
        SupEvent::LoadFailed => s.phase == SupPhase::Loading,
        SupEvent::Spawned => s.phase is Respawning && s.live < usize::MAX,
    }
}

/// The state that ends a reload: back to serving, answering the held
/// path query if one was combined with the reload frame.
pub open spec fn sup_finish(s: Supervisor) -> (Supervisor, SupAction) {
    if s.reply_after {
        (Supervisor { phase: SupPhase::Serving, reply_after: false, ..s }, SupAction::Reply)
    } else {
        (Supervisor { phase: SupPhase::Serving, ..s }, SupAction::Idle)
    }
}

/// The supervisor transition table.
pub open spec fn sup_next(s: Supervisor, ev: SupEvent) -> (Supervisor, SupAction) {
    match (s.phase, ev) {
        (SupPhase::Serving, SupEvent::FrameReceived(f)) => {
            if f.reload {
                if s.channels > 0 {
                    (
                        Supervisor {
                            phase: SupPhase::Cancelling { next: 0, retried: false },
                            reply_after: f.query_path,
                            ..s
                        },
                        SupAction::SendCancel { idx: 0 },
                    )
                } else {
                    (
                        Supervisor {
                            phase: SupPhase::Draining,
                            reply_after: f.query_path,
                            ..s
                        },
                        SupAction::PollCounter,
                    )
                }
            } else if f.query_path {
                (s, SupAction::Reply)
            } else {
                (s, SupAction::Idle)
            }
        },
        (SupPhase::Cancelling { next, retried }, SupEvent::SendOk) => {
            if next + 1 == s.channels {
                (Supervisor { phase: SupPhase::Draining, ..s }, SupAction::PollCounter)
            } else {
                (
                    Supervisor {
                        phase: SupPhase::Cancelling { next: (next + 1) as usize, retried: false },
                        ..s
                    },
                    SupAction::SendCancel { idx: (next + 1) as usize },
                )
            }
        },
        (SupPhase::Cancelling { next, retried }, SupEvent::SendFailed) => {
            if retried {
                (Supervisor { phase: SupPhase::Failed, ..s }, SupAction::Fatal)
            } else {
                (
                    Supervisor { phase: SupPhase::Cancelling { next, retried: true }, ..s },
                    SupAction::RetrySend { idx: next },
                )
            }
        },
        (SupPhase::Draining, SupEvent::DrainTick) => {
            if s.live == 0 {
                (Supervisor { phase: SupPhase::Loading, ..s }, SupAction::LoadConfig)
            } else {
                (s, SupAction::PollCounter)
            }
        },
        (SupPhase::Loading, SupEvent::Loaded { entries }) => {
            if entries == 0 {
                sup_finish(Supervisor { channels: 0, ..s })
            } else {
                (
                    Supervisor {
                        phase: SupPhase::Respawning { next: 0, total: entries },
                        channels: entries,
                        ..s
                    },
                    SupAction::Spawn { idx: 0 },
                )
            }
        },
        (SupPhase::Loading, SupEvent::LoadFailed) => {
            (Supervisor { phase: SupPhase::Failed, ..s }, SupAction::Fatal)
        },
        (SupPhase::Respawning { next, total }, SupEvent::Spawned) => {
            if next + 1 == total {
                sup_finish(Supervisor { live: (s.live + 1) as usize, ..s })
            } else {
                (
                    Supervisor {
                        live: (s.live + 1) as usize,
                        phase: SupPhase::Respawning { next: (next + 1) as usize, total },
                        ..s
                    },
                    SupAction::Spawn { idx: (next + 1) as usize },
                )
            }
        },
        (_, SupEvent::WorkerExited) => {
            (Supervisor { live: (s.live - 1) as usize, ..s }, SupAction::Idle)
        },
        _ => (s, SupAction::Idle),
    }
}

impl Supervisor {
    /// The supervisor as the daemon starts it, about to spawn one
    /// worker per watch entry of the loaded configuration.
    pub fn boot(entries: usize) -> (r: (Supervisor, SupAction))
        ensures
            r.0.live == 0,
            r.0.channels == entries,
            r.0.reply_after == false,
            entries == 0 ==> (r.0.phase == SupPhase::Serving && r.1 == SupAction::Idle),
            entries > 0 ==> (r.0.phase == (SupPhase::Respawning { next: 0, total: entries })
                && r.1 == (SupAction::Spawn { idx: 0 })),
            sup_inv(r.0),
    {
        if entries == 0 {
            (
                Supervisor { live: 0, channels: 0, phase: SupPhase::Serving, reply_after: false },
                SupAction::Idle,
            )
        } else {
            (
                Supervisor {
                    live: 0,
                    channels: entries,
                    phase: SupPhase::Respawning { next: 0, total: entries },
                    reply_after: false,
                },
                SupAction::Spawn { idx: 0 },
            )
        }
    }

    /// One transition of the control loop: exactly the transition
    /// table, with the phase invariant preserved.
    pub fn step(&mut self, ev: SupEvent) -> (a: SupAction)
        requires
            sup_inv(*old(self)),
            sup_event_fits(*old(self), ev),
        ensures
            *final(self) == sup_next(*old(self), ev).0,
            a == sup_next(*old(self), ev).1,
            sup_inv(*final(self)),
    {
        let s = *self;
        match ev {
            SupEvent::FrameReceived(f) => {
                if f.reload {
                    if s.channels > 0 {
                        self.phase = SupPhase::Cancelling { next: 0, retried: false };
                        self.reply_after = f.query_path;
                        SupAction::SendCancel { idx: 0 }
                    } else {
                        self.phase = SupPhase::Draining;
                        self.reply_after = f.query_path;
                        SupAction::PollCounter
                    }
                } else if f.query_path {
                    SupAction::Reply
                } else {
                    SupAction::Idle
                }
            },
            SupEvent::SendOk => {
                match s.phase {
                    SupPhase::Cancelling { next, retried } => {
                        if next + 1 == s.channels {
                            self.phase = SupPhase::Draining;
                            SupAction::PollCounter
                        } else {
                            self.phase = SupPhase::Cancelling { next: next + 1, retried: false };
                            SupAction::SendCancel { idx: next + 1 }
                        }
                    },
                    _ => {
                        proof {
                            assert(false);
                        }
                        SupAction::Idle
                    },
                }
            },
            SupEvent::SendFailed => {
                match s.phase {
                    SupPhase::Cancelling { next, retried } => {
                        if retried {
                            self.phase = SupPhase::Failed;
                            SupAction::Fatal
                        } else {
                            self.phase = SupPhase::Cancelling { next, retried: true };
                            SupAction::RetrySend { idx: next }
                        }
                    },
                    _ => {
                        proof {
                            assert(false);
                        }
                        SupAction::Idle
                    },
                }
            },
            SupEvent::DrainTick => {
                if s.live == 0 {
                    self.phase = SupPhase::Loading;
                    SupAction::LoadConfig
                } else {
                    SupAction::PollCounter
                }
            },
            SupEvent::WorkerExited => {
                self.live = s.live - 1;
                SupAction::Idle
            },
            SupEvent::Loaded { entries } => {
                if entries == 0 {
                    self.channels = 0;
                    self.phase = SupPhase::Serving;
                    if s.reply_after {
                        self.reply_after = false;
                        SupAction::Reply
                    } else {
                        SupAction::Idle
                    }
                } else {
                    self.channels = entries;
                    self.phase = SupPhase::Respawning { next: 0, total: entries };
                    SupAction::Spawn { idx: 0 }
                }
            },
            SupEvent::LoadFailed => {
                self.phase = SupPhase::Failed;
                SupAction::Fatal
            },
            SupEvent::Spawned => {
                match s.phase {
                    SupPhase::Respawning { next, total } => {
                        self.live = s.live + 1;
                        if next + 1 == total {
                            self.phase = SupPhase::Serving;
                            if s.reply_after {
                                self.reply_after = false;
                                SupAction::Reply
                            } else {
                                SupAction::Idle
                            }
                        } else {
                            self.phase = SupPhase::Respawning { next: next + 1, total };
                            SupAction::Spawn { idx: next + 1 }
                        }
                    },
                    _ => {
                        proof {
                            assert(false);
                        }
                        SupAction::Idle
                    },
                }
            },
        }
    }
}

/// Drain correctness, for any number of live workers: nothing is ever
/// spawned before the live-worker counter has been seen at exactly
/// zero.  A spawn is commanded only on the way into or through the
/// respawn phase; the respawn phase is reachable only through the
/// loading phase, which holds the counter at zero; and the loading
/// phase is entered only from the drain barrier, on a tick that saw
/// the counter at zero.
pub proof fn lemma_drain_before_respawn(s: Supervisor, ev: SupEvent)
    requires
        sup_inv(s),
        sup_event_fits(s, ev),
    ensures
        sup_inv(sup_next(s, ev).0),
        (sup_next(s, ev).1 matches SupAction::Spawn { idx: _ }) ==> ((s.phase == SupPhase::Loading
            && s.live == 0) || s.phase is Respawning),
        (sup_next(s, ev).0.phase is Respawning && !(s.phase is Respawning)) ==> (s.phase
            == SupPhase::Loading && s.live == 0),
        (sup_next(s, ev).0.phase == SupPhase::Loading && s.phase != SupPhase::Loading) ==> (s.phase
            == SupPhase::Draining && s.live == 0 && ev == SupEvent::DrainTick),
        (s.phase is Cancelling || s.phase == SupPhase::Draining) ==> sup_next(s, ev).0.live
            <= s.live,
{
}

} // verus!
