//! The decisions of a scan of one library scope, taken in turn with the
//! outside work that the caller does: walking the folder, asking who owns a
//! file, taking snapshots, processing images in batches and writing to the
//! store.
//!
//! The walk comes first: every supported image becomes a candidate, every
//! other file is skipped, and every entry the walk cannot read counts as a
//! failure. Then each candidate is handled in order, until the scan is
//! cancelled: files of other libraries are passed over, files whose snapshot
//! fails are recorded as failed, unchanged files are marked as seen, and the
//! others are queued and processed batch by batch. When the candidates run
//! out, the last batch is processed and the store completes the scan.
use vstd::prelude::*;

verus! {

/// Where a scope scan stands.
#[derive(Debug, Clone, Copy, PartialEq, Eq, Structural)]
pub enum ScopePhase {
    Discovering,
    Processing,
    Completed,
    Cancelled,
}

/// The counters of a scope scan.
#[derive(Debug, Clone, Copy, PartialEq, Eq, Structural)]
pub struct ScopeCounts {
    pub discovered: u64,
    pub processed: u64,
    pub succeeded: u64,
    pub failed: u64,
    pub skipped: u64,
    pub missing: u64,
    pub processed_files: u64,
    pub skipped_files: u64,
    pub failed_files: u64,
}

/// The state of a scope scan: its phase, its counters, the last error, how
/// many candidates wait in the current batch, and how many make a batch.
#[derive(Debug, Clone, PartialEq, Eq)]
pub struct ScopeState {
    pub phase: ScopePhase,
    pub counts: ScopeCounts,
    pub error: Option<String>,
    pub pending: u64,
    pub batch: u64,
}

/// What the caller saw while doing the outside work.
#[derive(Debug, Clone, PartialEq, Eq)]
pub enum ScanEvent {
    /// The walk met a file; whether it is a supported image.
    File(bool),
    /// The walk could not read an entry.
    WalkError(String),
    /// The walk is over and found this many candidates.
    Discovered(u64),
    /// The next candidate is up; whether cancellation was asked.
    Next(bool),
    /// Whether the candidate belongs to the scanned library.
    Owner(bool),
    /// The candidate's snapshot failed with this error.
    SnapshotFailed(String),
    /// The candidate's snapshot was taken; whether the file is unchanged
    /// since the last scan (same size and time, analysis complete at the
    /// current version, thumbnail ready).
    Snapshot(bool),
    /// An image of a batch was processed; the error where it failed.
    Processed(Option<String>),
    /// No candidate is left.
    EndOfCandidates,
    /// The store completed the scan and counted this many missing files.
    Completed(u64),
}

/// What the caller does next.
#[derive(Debug, Clone, Copy, PartialEq, Eq, Structural)]
pub enum ScanAction {
    /// Nothing: go on with the next entry or candidate.
    Continue,
    /// Keep the file as a candidate.
    KeepCandidate,
    /// Report progress (as often as reporting allows).
    Report,
    /// Report progress now.
    ForceReport,
    /// Ask who owns the candidate.
    LookUpOwner,
    /// Take the candidate's snapshot.
    TakeSnapshot,
    /// Record the candidate as failed, then report.
    RecordFailure,
    /// Mark the unchanged candidate as seen, then report.
    MarkSeen,
    /// Queue the candidate for the current batch.
    Queue,
    /// Queue the candidate (where one is up), report now, then process the
    /// queued batch.
    ProcessBatch,
    /// Store the processed image, then report.
    StoreProcessed,
    /// Cancel the scan in the store and report now; the scan ends.
    Cancel,
    /// Ask the store to complete the scan.
    Complete,
}

/// One more, saturating at the largest `u64`.
pub open spec fn bump(n: u64) -> u64 {
    if n == u64::MAX {
        n
    } else {
        (n + 1) as u64
    }
}

fn bumped(n: u64) -> (r: u64)
    ensures
        r == bump(n),
{
    if n == u64::MAX {
        n
    } else {
        n + 1
    }
}

/// The state at the start of a scope scan: discovering, with every counter
/// at zero, no error and an empty batch of `batch` candidates (at least one).
pub open spec fn spec_scope_start(batch: u64) -> ScopeState {
    ScopeState {
        phase: ScopePhase::Discovering,
        counts: ScopeCounts {
            discovered: 0,
            processed: 0,
            succeeded: 0,
            failed: 0,
            skipped: 0,
            missing: 0,
            processed_files: 0,
            skipped_files: 0,
            failed_files: 0,
        },
        error: None,
        pending: 0,
        batch: if batch == 0 {
            1
        } else {
            batch
        },
    }
}

pub fn scope_start(batch: u64) -> (r: ScopeState)
    ensures
        r == spec_scope_start(batch),
{
    ScopeState {
        phase: ScopePhase::Discovering,
        counts: ScopeCounts {
            discovered: 0,
            processed: 0,
            succeeded: 0,
            failed: 0,
            skipped: 0,
            missing: 0,
            processed_files: 0,
            skipped_files: 0,
            failed_files: 0,
        },
        error: None,
        pending: 0,
        batch: if batch == 0 {
            1
        } else {
            batch
        },
    }
}

/// The next state and action of a scope scan after an event. An event that
/// does not belong to the current phase changes nothing.
pub open spec fn spec_scope_step(s: ScopeState, e: ScanEvent) -> (ScopeState, ScanAction) {
    let c = s.counts;
    match s.phase {
        ScopePhase::Discovering => match e {
            ScanEvent::File(supported) => if supported {
                (s, ScanAction::KeepCandidate)
            } else {
                (ScopeState { counts: ScopeCounts { skipped: bump(c.skipped), ..c }, ..s }, ScanAction::Continue)
            },
            ScanEvent::WalkError(message) => (
                ScopeState { counts: ScopeCounts { failed: bump(c.failed), ..c }, error: Some(message), ..s },
                ScanAction::Report,
            ),
            ScanEvent::Discovered(n) => (
                ScopeState {
                    phase: ScopePhase::Processing,
                    counts: ScopeCounts { discovered: n, ..c },
                    error: None,
                    ..s
                },
                ScanAction::ForceReport,
            ),
            _ => (s, ScanAction::Continue),
        },
        ScopePhase::Processing => match e {
            ScanEvent::Next(cancelled) => if cancelled {
                (ScopeState { phase: ScopePhase::Cancelled, ..s }, ScanAction::Cancel)
            } else {
                (s, ScanAction::LookUpOwner)
            },
            ScanEvent::Owner(owned) => if owned {
                (s, ScanAction::TakeSnapshot)
            } else {
                (s, ScanAction::Continue)
            },
            ScanEvent::SnapshotFailed(message) => (
                ScopeState {
                    counts: ScopeCounts {
                        processed: bump(c.processed),
                        failed: bump(c.failed),
                        failed_files: bump(c.failed_files),
                        ..c
                    },
                    error: Some(message),
                    ..s
                },
                ScanAction::RecordFailure,
            ),
            ScanEvent::Snapshot(unchanged) => if unchanged {
                (
                    ScopeState {
                        counts: ScopeCounts {
                            processed: bump(c.processed),
                            skipped: bump(c.skipped),
                            skipped_files: bump(c.skipped_files),
                            ..c
                        },
                        error: None,
                        ..s
                    },
                    ScanAction::MarkSeen,
                )
            } else if bump(s.pending) >= s.batch {
                (ScopeState { pending: 0, ..s }, ScanAction::ProcessBatch)
            } else {
                (ScopeState { pending: bump(s.pending), ..s }, ScanAction::Queue)
            },
            ScanEvent::Processed(failure) => match failure {
                None => (
                    ScopeState {
                        counts: ScopeCounts {
                            processed: bump(c.processed),
                            succeeded: bump(c.succeeded),
                            processed_files: bump(c.processed_files),
                            ..c
                        },
                        error: None,
                        ..s
                    },
                    ScanAction::StoreProcessed,
                ),
                Some(message) => (
                    ScopeState {
                        counts: ScopeCounts {
                            processed: bump(c.processed),
                            failed: bump(c.failed),
                            failed_files: bump(c.failed_files),
                            ..c
                        },
                        error: Some(message),
                        ..s
                    },
                    ScanAction::RecordFailure,
                ),
            },
            ScanEvent::EndOfCandidates => if s.pending > 0 {
                (ScopeState { pending: 0, ..s }, ScanAction::ProcessBatch)
            } else {
                (s, ScanAction::Complete)
            },
            ScanEvent::Completed(missing) => (
                ScopeState {
                    phase: ScopePhase::Completed,
                    counts: ScopeCounts { missing, ..c },
                    error: None,
                    ..s
                },
                ScanAction::ForceReport,
            ),
            _ => (s, ScanAction::Continue),
        },
        _ => (s, ScanAction::Continue),
    }
}

/// The next state and action of a scope scan after an event.
pub fn scope_step(state: ScopeState, event: ScanEvent) -> (r: (ScopeState, ScanAction))
    ensures
        r == spec_scope_step(state, event),
{
    let c = state.counts;
    match state.phase {
        ScopePhase::Discovering => match event {
            ScanEvent::File(supported) => if supported {
                (state, ScanAction::KeepCandidate)
            } else {
                (
                    ScopeState { counts: ScopeCounts { skipped: bumped(c.skipped), ..c }, ..state },
                    ScanAction::Continue,
                )
            },
            ScanEvent::WalkError(message) => (
                ScopeState {
                    counts: ScopeCounts { failed: bumped(c.failed), ..c },
                    error: Some(message),
                    ..state
                },
                ScanAction::Report,
            ),
            ScanEvent::Discovered(n) => (
                ScopeState {
                    phase: ScopePhase::Processing,
                    counts: ScopeCounts { discovered: n, ..c },
                    error: None,
                    ..state
                },
                ScanAction::ForceReport,
            ),
            _ => (state, ScanAction::Continue),
        },
        ScopePhase::Processing => match event {
            ScanEvent::Next(cancelled) => if cancelled {
                (ScopeState { phase: ScopePhase::Cancelled, ..state }, ScanAction::Cancel)
            } else {
                (state, ScanAction::LookUpOwner)
            },
            ScanEvent::Owner(owned) => if owned {
                (state, ScanAction::TakeSnapshot)
            } else {
                (state, ScanAction::Continue)
            },
            ScanEvent::SnapshotFailed(message) => (
                ScopeState {
                    counts: ScopeCounts {
                        processed: bumped(c.processed),
                        failed: bumped(c.failed),
                        failed_files: bumped(c.failed_files),
                        ..c
                    },
                    error: Some(message),
                    ..state
                },
                ScanAction::RecordFailure,
            ),
            ScanEvent::Snapshot(unchanged) => if unchanged {
                (
                    ScopeState {
                        counts: ScopeCounts {
                            processed: bumped(c.processed),
                            skipped: bumped(c.skipped),
                            skipped_files: bumped(c.skipped_files),
                            ..c
                        },
                        error: None,
                        ..state
                    },
                    ScanAction::MarkSeen,
                )
            } else {
                let queued = bumped(state.pending);
                if queued >= state.batch {
                    (ScopeState { pending: 0, ..state }, ScanAction::ProcessBatch)
                } else {
                    (ScopeState { pending: queued, ..state }, ScanAction::Queue)
                }
            },
            ScanEvent::Processed(failure) => match failure {
                None => (
                    ScopeState {
                        counts: ScopeCounts {
                            processed: bumped(c.processed),
                            succeeded: bumped(c.succeeded),
                            processed_files: bumped(c.processed_files),
                            ..c
                        },
                        error: None,
                        ..state
                    },
                    ScanAction::StoreProcessed,
                ),
                Some(message) => (
                    ScopeState {
                        counts: ScopeCounts {
                            processed: bumped(c.processed),
                            failed: bumped(c.failed),
                            failed_files: bumped(c.failed_files),
                            ..c
                        },
                        error: Some(message),
                        ..state
                    },
                    ScanAction::RecordFailure,
                ),
            },
            ScanEvent::EndOfCandidates => if state.pending > 0 {
                (ScopeState { pending: 0, ..state }, ScanAction::ProcessBatch)
            } else {
                (state, ScanAction::Complete)
            },
            ScanEvent::Completed(missing) => (
                ScopeState {
                    phase: ScopePhase::Completed,
                    counts: ScopeCounts { missing, ..c },
                    error: None,
                    ..state
                },
                ScanAction::ForceReport,
            ),
            _ => (state, ScanAction::Continue),
        },
        _ => (state, ScanAction::Continue),
    }
}

/// The stage a phase is reported under.
pub open spec fn phase_stage(phase: ScopePhase) -> Seq<char> {
    match phase {
        ScopePhase::Discovering => "discovering"@,
        ScopePhase::Processing => "processing"@,
        ScopePhase::Completed => "completed"@,
        ScopePhase::Cancelled => "cancelled"@,
    }
}

/// The status a phase is reported under.
pub open spec fn phase_status(phase: ScopePhase) -> Seq<char> {
    match phase {
        ScopePhase::Completed => "completed"@,
        ScopePhase::Cancelled => "cancelled"@,
        _ => "running"@,
    }
}

pub fn stage_name(phase: ScopePhase) -> (r: &'static str)
    ensures
        r@ == phase_stage(phase),
{
    match phase {
        ScopePhase::Discovering => "discovering",
        ScopePhase::Processing => "processing",
        ScopePhase::Completed => "completed",
        ScopePhase::Cancelled => "cancelled",
    }
}

pub fn status_name(phase: ScopePhase) -> (r: &'static str)
    ensures
        r@ == phase_status(phase),
{
    match phase {
        ScopePhase::Completed => "completed",
        ScopePhase::Cancelled => "cancelled",
        _ => "running",
    }
}

/// A scan that ended stays as it is, whatever is reported to it.
pub proof fn lemma_ended_scan_is_final(s: ScopeState, e: ScanEvent)
    requires
        s.phase == ScopePhase::Completed || s.phase == ScopePhase::Cancelled,
    ensures
        spec_scope_step(s, e) == (s, ScanAction::Continue),
{
}

/// Every candidate handled while processing adds at most one to the
/// processed count, and the queue never holds a full batch.
pub proof fn lemma_queue_stays_below_batch(s: ScopeState, e: ScanEvent)
    requires
        s.pending < s.batch,
    ensures
        spec_scope_step(s, e).0.pending < spec_scope_step(s, e).0.batch,
        spec_scope_step(s, e).0.batch == s.batch,
        spec_scope_step(s, e).0.counts.processed == s.counts.processed || spec_scope_step(
            s,
            e,
        ).0.counts.processed == bump(s.counts.processed),
{
}

/// The counts of a scan agree: every processed candidate was stored,
/// skipped as unchanged, or failed, and the succeeded ones are the stored
/// ones.
pub open spec fn counts_agree(c: ScopeCounts) -> bool {
    &&& c.processed == c.processed_files + c.skipped_files + c.failed_files
    &&& c.succeeded == c.processed_files
}

/// A scan starts with counts that agree.
pub proof fn lemma_start_counts_agree(batch: u64)
    ensures
        counts_agree(spec_scope_start(batch).counts),
{
}

/// Every event keeps the counts in agreement (short of the largest `u64`,
/// where they saturate), and counts each candidate at most once.
pub proof fn lemma_step_keeps_counts_agreeing(s: ScopeState, e: ScanEvent)
    requires
        counts_agree(s.counts),
        s.counts.processed < u64::MAX,
    ensures
        counts_agree(spec_scope_step(s, e).0.counts),
        spec_scope_step(s, e).0.counts.processed <= s.counts.processed + 1,
        s.phase == ScopePhase::Discovering ==> spec_scope_step(s, e).0.counts.processed == s.counts.processed,
{
}

} // verus!
