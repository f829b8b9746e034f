//! Acting on the differences that a consistency check found between the
//! registry and what was built: missing builds are queued, builds of releases
//! the registry no longer has are handed back for deletion. A dry run only
//! reports.
use vstd::prelude::*;
use crate::queue::{BuildQueue, QueueState};

verus! {

/// One difference between the registry and the built releases.
pub enum Divergence {
    /// The registry has this release and no build of it exists.
    NotBuilt { name: String, version: String },
    /// A build exists for a release the registry no longer has.
    NotInRegistry { name: String, version: String },
}

/// A difference as the contracts see it: name, version, and whether it asks
/// for a build (else for a deletion).
pub type DivergenceView = (Seq<char>, Seq<char>, bool);

impl View for Divergence {
    type V = DivergenceView;

    open spec fn view(&self) -> DivergenceView {
        match self {
            Divergence::NotBuilt { name, version } => (name@, version@, true),
            Divergence::NotInRegistry { name, version } => (name@, version@, false),
        }
    }
}

/// A release to delete.
pub struct Deletion {
    pub name: String,
    pub version: String,
}

pub open spec fn divergences_view(d: Seq<Divergence>) -> Seq<DivergenceView> {
    d.map_values(|x: Divergence| x@)
}

/// The queue after the builds asked for by the first `n` differences.
pub open spec fn queue_missing(s: QueueState, d: Seq<DivergenceView>, n: int) -> QueueState
    decreases n,
{
    if n <= 0 {
        s
    } else {
        let t = queue_missing(s, d, n - 1);
        if d[n - 1].2 {
            t.add(d[n - 1].0, d[n - 1].1, None, None)
        } else {
            t
        }
    }
}

/// The releases to delete among the first `n` differences, in order.
pub open spec fn deletions_in(d: Seq<DivergenceView>, n: int) -> Seq<(Seq<char>, Seq<char>)>
    decreases n,
{
    if n <= 0 {
        Seq::empty()
    } else if d[n - 1].2 {
        deletions_in(d, n - 1)
    } else {
        deletions_in(d, n - 1).push((d[n - 1].0, d[n - 1].1))
    }
}

/// Resolves the differences found: in a live run each missing build is queued
/// at the priority the store gives it, and the releases to delete are
/// returned, in order, for the caller to delete. A dry run changes nothing
/// and returns nothing.
pub fn reconcile(queue: &mut BuildQueue, found: &Vec<Divergence>, dry_run: bool) -> (r: Vec<Deletion>)
    requires
        old(queue).wf(),
    ensures
        final(queue).wf(),
        dry_run ==> final(queue)@ == old(queue)@ && r@.len() == 0,
        !dry_run ==> final(queue)@ == queue_missing(
            old(queue)@,
            divergences_view(found@),
            found@.len() as int,
        ),
        !dry_run ==> r@.map_values(|x: Deletion| (x.name@, x.version@)) == deletions_in(
            divergences_view(found@),
            found@.len() as int,
        ),
{
    let mut out: Vec<Deletion> = Vec::new();
    if dry_run {
        return out;
    }
    let ghost dv = divergences_view(found@);
    let mut k: usize = 0;
    while k < found.len()
        invariant
            k <= found@.len(),
            dv == divergences_view(found@),
            queue.wf(),
            queue@ == queue_missing(old(queue)@, dv, k as int),
            out@.map_values(|x: Deletion| (x.name@, x.version@)) == deletions_in(dv, k as int),
        decreases found@.len() - k,
    {
        match &found[k] {
            Divergence::NotBuilt { name, version } => {
                queue.add(name.as_str(), version.as_str(), None, None);
            },
            Divergence::NotInRegistry { name, version } => {
                out.push(Deletion { name: name.clone(), version: version.clone() });
            },
        }
        k = k + 1;
        assert(out@.map_values(|x: Deletion| (x.name@, x.version@)) =~= deletions_in(dv, k as int));
    }
    out
}

} // verus!
