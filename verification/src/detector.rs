//! Change classification: the polling state machine.
//!
//! A worker waits for change by polling.  Each cycle it sleeps one
//! poll interval, observes whether a cancellation is pending, and takes
//! fresh fingerprints of the root, the subdirectories, and the files.
//! [`classify_poll`] decides what the cycle means, in strict precedence:
//! a pending cancellation ends the wait at once; else a changed root is
//! always reported as a root change, even when subdirectories or files
//! changed in the same interval; else a changed subdirectory
//! fingerprint is a structure change; else changed file contents start
//! the settle phase.
//!
//! The settle phase debounces in-progress writes: the file fingerprint
//! is re-sampled after each write delay until two consecutive reads are
//! identical ([`settle_step`]), and only then are the changed files
//! reported.  The settle phase does not re-check cancellation: a
//! pending shutdown is honored only at the top of the poll cycle.
//! That bounded extra latency is a deliberate trade-off, not an
//! oversight.

use crate::fingerprint::{Fingerprint, changed_at, changed_paths, fingerprints_agree,
    fingerprints_identical, fp_identical, fp_same};
use crate::paths::path_views;
use vstd::prelude::*;

verus! {

/// What a completed wait reports.
#[derive(Debug, PartialEq, Eq)]
pub enum ChangeResult {
    /// The root's own timestamp changed.
    RootChanged,
    /// The subdirectory fingerprint changed: the paths whose recorded
    /// times are new, altered, or gone.
    StructureChanged(Vec<Vec<u8>>),
    /// File contents changed and settled: the changed file paths.
    ContentChanged(Vec<Vec<u8>>),
    /// A cancellation was pending at the top of a poll cycle.
    Cancelled,
}

/// The fingerprints taken when the wait began.
pub struct Baseline {
    pub root_fp: Fingerprint,
    pub subdir_fp: Fingerprint,
    pub files_fp: Fingerprint,
}

/// One poll-cycle observation: whether a cancellation is pending, and
/// the three fresh fingerprints.
pub struct PollObservation {
    pub cancel: bool,
    pub root_fp: Fingerprint,
    pub subdir_fp: Fingerprint,
    pub files_fp: Fingerprint,
}

/// What to do after one poll cycle.
#[derive(Debug, PartialEq, Eq)]
pub enum PollOutcome {
    /// Nothing changed: sleep one poll interval and observe again.
    Continue,
    /// File contents changed: enter the settle phase, with the observed
    /// file fingerprint as the first sample.
    Settle,
    /// The wait is over.
    Done(ChangeResult),
}

/// Classify one poll cycle.  Cancellation wins over everything; a root
/// change wins over a structure change; a structure change wins over a
/// content change; a content change only starts the settle phase.
pub fn classify_poll(base: &Baseline, obs: &PollObservation) -> (r: PollOutcome)
    ensures
        obs.cancel ==> r == PollOutcome::Done(ChangeResult::Cancelled),
        (!obs.cancel && !fp_same(base.root_fp@, obs.root_fp@)) ==> r == PollOutcome::Done(
            ChangeResult::RootChanged,
        ),
        (!obs.cancel && fp_same(base.root_fp@, obs.root_fp@) && !fp_same(
            base.subdir_fp@,
            obs.subdir_fp@,
        )) ==> (r matches PollOutcome::Done(ChangeResult::StructureChanged(v)) && (forall|
            p: Seq<u8>,
        |
            #[trigger] path_views(v@).contains(p) <==> changed_at(
                base.subdir_fp@,
                obs.subdir_fp@,
                p,
            ))),
        (!obs.cancel && fp_same(base.root_fp@, obs.root_fp@) && fp_same(
            base.subdir_fp@,
            obs.subdir_fp@,
        ) && !fp_same(base.files_fp@, obs.files_fp@)) ==> r == PollOutcome::Settle,
        (!obs.cancel && fp_same(base.root_fp@, obs.root_fp@) && fp_same(
            base.subdir_fp@,
            obs.subdir_fp@,
        ) && fp_same(base.files_fp@, obs.files_fp@)) ==> r == PollOutcome::Continue,
{
    if obs.cancel {
        return PollOutcome::Done(ChangeResult::Cancelled);
    }
    if !fingerprints_agree(&base.root_fp, &obs.root_fp) {
        return PollOutcome::Done(ChangeResult::RootChanged);
    }
    if !fingerprints_agree(&base.subdir_fp, &obs.subdir_fp) {
        let changed = changed_paths(&base.subdir_fp, &obs.subdir_fp);
        return PollOutcome::Done(ChangeResult::StructureChanged(changed));
    }
    if !fingerprints_agree(&base.files_fp, &obs.files_fp) {
        return PollOutcome::Settle;
    }
    PollOutcome::Continue
}

/// The outcome of one settle-phase sample.
#[derive(Debug, PartialEq, Eq)]
pub enum SettleOutcome {
    /// Two consecutive reads were identical: writes have settled, and
    /// these are the files changed against the baseline.
    Stable(Vec<Vec<u8>>),
    /// Still changing: keep the fresh sample as the new last read and
    /// sleep one write delay more.
    Again,
}

/// One step of the settle phase.  `base_files` is the file fingerprint
/// the wait began with, `last` the previous read, `sample` the fresh
/// one.  The phase ends exactly when two consecutive reads are
/// identical: a file that stabilizes is reported then, not earlier.
pub fn settle_step(base_files: &Fingerprint, last: &Fingerprint, sample: &Fingerprint) -> (r:
    SettleOutcome)
    ensures
        fp_identical(last@, sample@) ==> (r matches SettleOutcome::Stable(v) && (forall|
            p: Seq<u8>,
        |
            #[trigger] path_views(v@).contains(p) <==> changed_at(base_files@, sample@, p))),
        !fp_identical(last@, sample@) ==> r == SettleOutcome::Again,
{
    if fingerprints_identical(last, sample) {
        let changed = changed_paths(base_files, sample);
        SettleOutcome::Stable(changed)
    } else {
        SettleOutcome::Again
    }
}

} // verus!
