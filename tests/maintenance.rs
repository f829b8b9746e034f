use docs_queue::maintenance::{
    archive_path, audit_index, audit_release, index_path, needs_rebuild, ArtifactKind,
    AuditOutcome, IndexProbe, INDEX_ROW_LIMIT,
};
use docs_queue::queue::BuildQueue;
use docs_queue::watcher::{apply_batch, ChangeKind, RegistryChange};

#[test]
fn row_limit_threshold() {
    assert_eq!(INDEX_ROW_LIMIT, 65000);
    assert!(!needs_rebuild(IndexProbe::Rows { count: 64999 }));
    assert!(needs_rebuild(IndexProbe::Rows { count: 65000 }));
    assert!(needs_rebuild(IndexProbe::Corrupt));
    assert!(!needs_rebuild(IndexProbe::Missing));
    assert!(!needs_rebuild(IndexProbe::Rows { count: 0 }));
}

#[test]
fn audit_each_index_state() {
    let mut q = BuildQueue::new();
    assert_eq!(
        audit_index(&mut q, "small", "1.0.0", IndexProbe::Rows { count: 64999 }),
        AuditOutcome::Healthy
    );
    assert_eq!(q.pending_count(), 0);

    assert_eq!(
        audit_index(&mut q, "big", "1.0.0", IndexProbe::Rows { count: 65000 }),
        AuditOutcome::RebuildQueued
    );
    assert_eq!(q.pending_count(), 1);

    assert_eq!(audit_index(&mut q, "broken", "1.0.0", IndexProbe::Corrupt), AuditOutcome::RebuildQueued);
    assert_eq!(q.pending_count(), 2);

    assert_eq!(audit_index(&mut q, "gone", "1.0.0", IndexProbe::Missing), AuditOutcome::NoIndex);
    assert_eq!(q.pending_count(), 2);

    // a second audit finds the rebuild pending
    assert_eq!(audit_index(&mut q, "broken", "1.0.0", IndexProbe::Corrupt), AuditOutcome::AlreadyPending);
    assert_eq!(q.pending_count(), 2);

    let reqs = q.pending_requests();
    assert_eq!(reqs[0].name, "big");
    assert_eq!(reqs[0].priority, 5);
    assert_eq!(reqs[1].name, "broken");
}

#[test]
fn release_with_two_bad_indexes_is_rebuilt_once() {
    let mut q = BuildQueue::new();
    let r = audit_release(&mut q, "x", "1.0.0", IndexProbe::Corrupt, IndexProbe::Rows { count: 70000 });
    assert_eq!(r, (AuditOutcome::RebuildQueued, AuditOutcome::AlreadyPending));
    assert_eq!(q.pending_count(), 1);
}

#[test]
fn end_to_end_watch_then_audit() {
    let mut q = BuildQueue::new();
    let batch = vec![RegistryChange {
        name: "demo".to_string(),
        version: "1.2.0".to_string(),
        kind: ChangeKind::Added,
    }];
    assert_eq!(apply_batch(&mut q, &batch, "head"), 1);
    assert_eq!(q.last_seen_reference(), Some("head".to_string()));
    assert_eq!(q.pending_requests()[0].priority, 0);

    // audit while the build is still pending: deduplicated
    let r = audit_release(&mut q, "demo", "1.2.0", IndexProbe::Missing, IndexProbe::Rows { count: 70000 });
    assert_eq!(r, (AuditOutcome::NoIndex, AuditOutcome::AlreadyPending));
    assert_eq!(q.pending_count(), 1);

    // after the build was taken, the audit queues a rebuild at the default priority
    let built = q.dequeue_next().unwrap();
    assert_eq!(built.name, "demo");
    let r = audit_release(&mut q, "demo", "1.2.0", IndexProbe::Missing, IndexProbe::Rows { count: 70000 });
    assert_eq!(r, (AuditOutcome::NoIndex, AuditOutcome::RebuildQueued));
    let reqs = q.pending_requests();
    assert_eq!(reqs.len(), 1);
    assert_eq!(reqs[0].name, "demo");
    assert_eq!(reqs[0].version, "1.2.0");
    assert_eq!(reqs[0].priority, 5);
}

#[test]
fn artifact_paths() {
    assert_eq!(archive_path(ArtifactKind::Rustdoc, "demo", "1.2.0"), "rustdoc/demo/1.2.0.zip");
    assert_eq!(archive_path(ArtifactKind::Source, "demo", "1.2.0"), "sources/demo/1.2.0.zip");
    assert_eq!(index_path(ArtifactKind::Source, "demo", "1.2.0"), "sources/demo/1.2.0.zip.index");
}
