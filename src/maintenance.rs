//! The archive-index audit: each built artifact has a companion index with
//! one row per file. An index that cannot be opened, or that has reached the
//! row count past which its addressing can no longer be trusted, gets its
//! release rebuilt. A missing index is nothing to audit.
//!
//! Downloading the index, opening it and counting its rows is the caller's
//! work; the audit decides from what that found.
use vstd::prelude::*;
use crate::priority::DEFAULT_PRIORITY;
use crate::queue::{BuildQueue, QueueOutcome, is_pending};

verus! {

/// Row count at and above which an archive index must be rebuilt.
pub const INDEX_ROW_LIMIT: u64 = 65000;

/// Priority of a rebuild scheduled by the audit.
pub const REBUILD_PRIORITY: i32 = DEFAULT_PRIORITY;

/// The two artifacts built for each release.
#[derive(PartialEq, Eq, Structural, Clone, Copy, Debug)]
pub enum ArtifactKind {
    Rustdoc,
    Source,
}

/// What was found where an artifact's index should be.
#[derive(PartialEq, Eq, Structural, Clone, Copy, Debug)]
pub enum IndexProbe {
    /// No index is stored for the artifact.
    Missing,
    /// The index exists but does not open as a valid store.
    Corrupt,
    /// The index opened and holds this many file rows.
    Rows { count: u64 },
}

/// What the audit of one index did.
#[derive(PartialEq, Eq, Structural, Clone, Copy, Debug)]
pub enum AuditOutcome {
    /// There was no index.
    NoIndex,
    /// The index is healthy; nothing was queued.
    Healthy,
    /// A rebuild was queued.
    RebuildQueued,
    /// A rebuild was needed, but a build of the release was already pending.
    AlreadyPending,
}

pub open spec fn rebuild_needed(probe: IndexProbe) -> bool {
    match probe {
        IndexProbe::Missing => false,
        IndexProbe::Corrupt => true,
        IndexProbe::Rows { count } => count >= INDEX_ROW_LIMIT,
    }
}

/// Whether an index in the state `probe` calls for a rebuild.
pub fn needs_rebuild(probe: IndexProbe) -> (r: bool)
    ensures
        r == rebuild_needed(probe),
{
    match probe {
        IndexProbe::Missing => false,
        IndexProbe::Corrupt => true,
        IndexProbe::Rows { count } => count >= INDEX_ROW_LIMIT,
    }
}

/// Audits one index of `name` at `version`: queues a rebuild at
/// [`REBUILD_PRIORITY`] when the index needs one and no build of the release
/// is pending, and otherwise leaves the queue alone.
pub fn audit_index(queue: &mut BuildQueue, name: &str, version: &str, probe: IndexProbe) -> (r:
    AuditOutcome)
    requires
        old(queue).wf(),
    ensures
        final(queue).wf(),
        !rebuild_needed(probe) ==> final(queue)@ == old(queue)@ && r == (if probe
            == IndexProbe::Missing {
            AuditOutcome::NoIndex
        } else {
            AuditOutcome::Healthy
        }),
        rebuild_needed(probe) && is_pending(old(queue)@.pending, name@, version@) ==> final(queue)@ == old(queue)@ && r == AuditOutcome::AlreadyPending,
        rebuild_needed(probe) && !is_pending(old(queue)@.pending, name@, version@) ==> final(queue)@ == old(queue)@.add(name@, version@, Some(REBUILD_PRIORITY), None) && r
            == AuditOutcome::RebuildQueued,
{
    if !needs_rebuild(probe) {
        return if probe == IndexProbe::Missing {
            AuditOutcome::NoIndex
        } else {
            AuditOutcome::Healthy
        };
    }
    if queue.has_pending(name, version) {
        return AuditOutcome::AlreadyPending;
    }
    match queue.add(name, version, Some(REBUILD_PRIORITY), None) {
        QueueOutcome::Added { .. } => AuditOutcome::RebuildQueued,
        QueueOutcome::AlreadyQueued => AuditOutcome::AlreadyPending,
    }
}

/// Audits both indexes of a release, the rustdoc one first. A release gets at
/// most one rebuild however many of its indexes need one.
pub fn audit_release(
    queue: &mut BuildQueue,
    name: &str,
    version: &str,
    rustdoc: IndexProbe,
    source: IndexProbe,
) -> (r: (AuditOutcome, AuditOutcome))
    requires
        old(queue).wf(),
    ensures
        final(queue).wf(),
        (rebuild_needed(rustdoc) || rebuild_needed(source)) ==> final(queue)@ == old(queue)@.add(
            name@,
            version@,
            Some(REBUILD_PRIORITY),
            None,
        ),
        !(rebuild_needed(rustdoc) || rebuild_needed(source)) ==> final(queue)@ == old(queue)@,
        is_pending(old(queue)@.pending, name@, version@) ==> r.0 != AuditOutcome::RebuildQueued
            && r.1 != AuditOutcome::RebuildQueued,
        rebuild_needed(rustdoc) && !is_pending(old(queue)@.pending, name@, version@) ==> r.0
            == AuditOutcome::RebuildQueued,
        rebuild_needed(source) && !rebuild_needed(rustdoc) && !is_pending(
            old(queue)@.pending,
            name@,
            version@,
        ) ==> r.1 == AuditOutcome::RebuildQueued,
        rebuild_needed(rustdoc) ==> r.1 != AuditOutcome::RebuildQueued,
{
    let first = audit_index(queue, name, version, rustdoc);
    proof {
        if rebuild_needed(rustdoc) {
            crate::queue::lemma_add_keeps(old(queue)@, name@, version@, Some(REBUILD_PRIORITY), None);
        }
    }
    let second = audit_index(queue, name, version, source);
    (first, second)
}

/// Where the artifact of `kind` for `name` at `version` is stored.
pub open spec fn archive_path_of(kind: ArtifactKind, name: Seq<char>, version: Seq<char>) -> Seq<
    char,
> {
    let prefix = match kind {
        ArtifactKind::Rustdoc => "rustdoc/"@,
        ArtifactKind::Source => "sources/"@,
    };
    prefix + name + "/"@ + version + ".zip"@
}

/// Where the index of that artifact is stored: beside it, under the same name
/// with `.index` appended.
pub open spec fn index_path_of(kind: ArtifactKind, name: Seq<char>, version: Seq<char>) -> Seq<
    char,
> {
    archive_path_of(kind, name, version) + ".index"@
}

/// The storage path of the artifact of `kind` for `name` at `version`.
pub fn archive_path(kind: ArtifactKind, name: &str, version: &str) -> (r: String)
    ensures
        r@ == archive_path_of(kind, name@, version@),
{
    let prefix = match kind {
        ArtifactKind::Rustdoc => String::from_str("rustdoc/"),
        ArtifactKind::Source => String::from_str("sources/"),
    };
    prefix.concat(name).concat("/").concat(version).concat(".zip")
}

/// The storage path of the index of that artifact.
pub fn index_path(kind: ArtifactKind, name: &str, version: &str) -> (r: String)
    ensures
        r@ == index_path_of(kind, name@, version@),
{
    archive_path(kind, name, version).concat(".index")
}

} // verus!
