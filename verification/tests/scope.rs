use photo_organizer::scope::{
    scope_start, scope_step, stage_name, status_name, ScanAction, ScanEvent, ScopePhase, ScopeState,
};

fn step(state: ScopeState, event: ScanEvent) -> (ScopeState, ScanAction) {
    scope_step(state, event)
}

#[test]
fn discovery_keeps_images_and_counts_the_rest() {
    let state = scope_start(2);
    assert_eq!(state.phase, ScopePhase::Discovering);
    assert_eq!(state.batch, 2);
    let (state, action) = step(state, ScanEvent::File(true));
    assert_eq!(action, ScanAction::KeepCandidate);
    let (state, action) = step(state, ScanEvent::File(false));
    assert_eq!(action, ScanAction::Continue);
    assert_eq!(state.counts.skipped, 1);
    let (state, action) = step(state, ScanEvent::WalkError("denied".to_owned()));
    assert_eq!(action, ScanAction::Report);
    assert_eq!(state.counts.failed, 1);
    assert_eq!(state.error, Some("denied".to_owned()));
    let (state, action) = step(state, ScanEvent::Discovered(3));
    assert_eq!(action, ScanAction::ForceReport);
    assert_eq!(state.phase, ScopePhase::Processing);
    assert_eq!(state.counts.discovered, 3);
    assert_eq!(state.error, None);
    assert_eq!(stage_name(state.phase), "processing");
    assert_eq!(status_name(state.phase), "running");
}

#[test]
fn candidates_are_skipped_failed_or_batched() {
    let (state, _) = step(scope_start(2), ScanEvent::Discovered(4));
    let (state, action) = step(state, ScanEvent::Next(false));
    assert_eq!(action, ScanAction::LookUpOwner);
    let (state, action) = step(state, ScanEvent::Owner(false));
    assert_eq!(action, ScanAction::Continue);
    let (state, action) = step(state, ScanEvent::Owner(true));
    assert_eq!(action, ScanAction::TakeSnapshot);
    let (state, action) = step(state, ScanEvent::Snapshot(true));
    assert_eq!(action, ScanAction::MarkSeen);
    assert_eq!((state.counts.processed, state.counts.skipped, state.counts.skipped_files), (1, 1, 1));
    let (state, action) = step(state, ScanEvent::SnapshotFailed("gone".to_owned()));
    assert_eq!(action, ScanAction::RecordFailure);
    assert_eq!((state.counts.processed, state.counts.failed, state.counts.failed_files), (2, 1, 1));
    let (state, action) = step(state, ScanEvent::Snapshot(false));
    assert_eq!(action, ScanAction::Queue);
    assert_eq!(state.pending, 1);
    let (state, action) = step(state, ScanEvent::Snapshot(false));
    assert_eq!(action, ScanAction::ProcessBatch);
    assert_eq!(state.pending, 0);
    let (state, action) = step(state, ScanEvent::Processed(None));
    assert_eq!(action, ScanAction::StoreProcessed);
    let (state, action) = step(state, ScanEvent::Processed(Some("bad image".to_owned())));
    assert_eq!(action, ScanAction::RecordFailure);
    assert_eq!(state.counts.succeeded, 1);
    assert_eq!(state.counts.processed, 4);
    assert_eq!(state.error, Some("bad image".to_owned()));
}

#[test]
fn the_last_batch_runs_before_the_scan_completes() {
    let (state, _) = step(scope_start(3), ScanEvent::Discovered(1));
    let (state, _) = step(state, ScanEvent::Snapshot(false));
    assert_eq!(state.pending, 1);
    let (state, action) = step(state, ScanEvent::EndOfCandidates);
    assert_eq!(action, ScanAction::ProcessBatch);
    let (state, action) = step(state, ScanEvent::EndOfCandidates);
    assert_eq!(action, ScanAction::Complete);
    let (state, action) = step(state, ScanEvent::Completed(5));
    assert_eq!(action, ScanAction::ForceReport);
    assert_eq!(state.phase, ScopePhase::Completed);
    assert_eq!(state.counts.missing, 5);
    assert_eq!(status_name(state.phase), "completed");
    let (after, action) = step(state.clone(), ScanEvent::File(false));
    assert_eq!(action, ScanAction::Continue);
    assert_eq!(after, state);
}

#[test]
fn cancellation_ends_the_scan() {
    let (state, _) = step(scope_start(0), ScanEvent::Discovered(2));
    assert_eq!(state.batch, 1);
    let (state, action) = step(state, ScanEvent::Next(true));
    assert_eq!(action, ScanAction::Cancel);
    assert_eq!(state.phase, ScopePhase::Cancelled);
    assert_eq!(stage_name(state.phase), "cancelled");
    let (after, action) = step(state.clone(), ScanEvent::Next(false));
    assert_eq!(action, ScanAction::Continue);
    assert_eq!(after, state);
}
