//! The registry watcher: it peeks at the changes between the resume reference
//! and the registry's head, queues each new release ahead of other work, and
//! only then advances the resume reference. A crash between the two replays
//! the batch, which deduplication absorbs.
//!
//! The peek itself is network work done by the caller; the watcher decides
//! what to ask for and what to do with the answer.
use vstd::prelude::*;
use crate::queue::{BuildQueue, QueueState, is_pending, lemma_add_keeps, lemma_add_pending_is_noop};

verus! {

/// Priority given to newly published releases.
pub const NEW_RELEASE_PRIORITY: i32 = 0;

/// What happened to a release in the registry.
#[derive(PartialEq, Eq, Structural, Clone, Copy, Debug)]
pub enum ChangeKind {
    /// A version was published.
    Added,
    /// A version was yanked.
    Yanked,
    /// A yanked version was restored.
    Unyanked,
    /// A version or a whole crate was deleted.
    Deleted,
}

/// One change observed between two registry states.
pub struct RegistryChange {
    pub name: String,
    pub version: String,
    pub kind: ChangeKind,
}

/// A change as the contracts see it: name, version, and whether it asks for a
/// build.
pub type ChangeView = (Seq<char>, Seq<char>, bool);

impl View for RegistryChange {
    type V = ChangeView;

    open spec fn view(&self) -> ChangeView {
        (self.name@, self.version@, self.kind == ChangeKind::Added)
    }
}

pub open spec fn changes_view(changes: Seq<RegistryChange>) -> Seq<ChangeView> {
    changes.map_values(|c: RegistryChange| c@)
}

/// The queue after the first `n` changes have been handled.
pub open spec fn enqueue_changes(s: QueueState, changes: Seq<ChangeView>, n: int) -> QueueState
    decreases n,
{
    if n <= 0 {
        s
    } else {
        let t = enqueue_changes(s, changes, n - 1);
        let c = changes[n - 1];
        if c.2 {
            t.add(c.0, c.1, Some(NEW_RELEASE_PRIORITY), None)
        } else {
            t
        }
    }
}

/// The queue after a whole peeked batch: its releases queued, then `head`
/// recorded as the resume reference.
pub open spec fn sync_batch(s: QueueState, changes: Seq<ChangeView>, head: Seq<char>) -> QueueState {
    enqueue_changes(s, changes, changes.len() as int).set_reference(head)
}

/// Queues the releases of a peeked batch at [`NEW_RELEASE_PRIORITY`], then
/// records `head` as processed. Returns how many requests were newly queued:
/// releases already pending are not queued again.
pub fn apply_batch(queue: &mut BuildQueue, changes: &Vec<RegistryChange>, head: &str) -> (r: usize)
    requires
        old(queue).wf(),
    ensures
        final(queue).wf(),
        final(queue)@ == sync_batch(old(queue)@, changes_view(changes@), head@),
        r == final(queue)@.pending.len() - old(queue)@.pending.len(),
{
    let ghost cv = changes_view(changes@);
    let mut added: usize = 0;
    let mut k: usize = 0;
    while k < changes.len()
        invariant
            k <= changes@.len(),
            added <= k,
            cv == changes_view(changes@),
            queue.wf(),
            queue@ == enqueue_changes(old(queue)@, cv, k as int),
            added == queue@.pending.len() - old(queue)@.pending.len(),
        decreases changes@.len() - k,
    {
        let c = &changes[k];
        if c.kind == ChangeKind::Added {
            let outcome = queue.add(c.name.as_str(), c.version.as_str(), Some(NEW_RELEASE_PRIORITY), None);
            if outcome != crate::queue::QueueOutcome::AlreadyQueued {
                added = added + 1;
            }
        }
        k = k + 1;
    }
    queue.set_last_seen_reference(head);
    added
}

proof fn lemma_enqueue_keeps(s: QueueState, changes: Seq<ChangeView>, n: int)
    requires
        s.wf(),
        0 <= n <= changes.len(),
    ensures
        enqueue_changes(s, changes, n).wf(),
        enqueue_changes(s, changes, n).reference == s.reference,
        forall|nm: Seq<char>, v: Seq<char>|
            #[trigger] is_pending(s.pending, nm, v) ==> is_pending(
                enqueue_changes(s, changes, n).pending,
                nm,
                v,
            ),
        forall|m: int|
            0 <= m < n && (#[trigger] changes[m]).2 ==> is_pending(
                enqueue_changes(s, changes, n).pending,
                changes[m].0,
                changes[m].1,
            ),
    decreases n,
{
    if n > 0 {
        lemma_enqueue_keeps(s, changes, n - 1);
        let t = enqueue_changes(s, changes, n - 1);
        let c = changes[n - 1];
        if c.2 {
            lemma_add_keeps(t, c.0, c.1, Some(NEW_RELEASE_PRIORITY), None);
        }
    }
}

proof fn lemma_enqueue_noop(s: QueueState, changes: Seq<ChangeView>, n: int)
    requires
        0 <= n <= changes.len(),
        forall|m: int|
            0 <= m < n && (#[trigger] changes[m]).2 ==> is_pending(
                s.pending,
                changes[m].0,
                changes[m].1,
            ),
    ensures
        enqueue_changes(s, changes, n) == s,
    decreases n,
{
    if n > 0 {
        lemma_enqueue_noop(s, changes, n - 1);
        let c = changes[n - 1];
        if c.2 {
            lemma_add_pending_is_noop(s, c.0, c.1, Some(NEW_RELEASE_PRIORITY), None);
        }
    }
}

/// Handling the same peeked batch a second time, as after a crash before the
/// resume reference was written, leaves the queue as handling it once did.
pub proof fn lemma_replay_is_absorbed(s: QueueState, changes: Seq<ChangeView>, head: Seq<char>)
    requires
        s.wf(),
    ensures
        sync_batch(sync_batch(s, changes, head), changes, head) == sync_batch(s, changes, head),
        sync_batch(s, changes, head).wf(),
{
    let n = changes.len() as int;
    lemma_enqueue_keeps(s, changes, n);
    let once = sync_batch(s, changes, head);
    lemma_enqueue_noop(once, changes, n);
}

/// Where the watcher is in its cycle.
#[derive(PartialEq, Eq, Structural, Clone, Copy, Debug)]
pub enum WatcherState {
    /// Waiting for the next poll.
    Idle,
    /// A peek is out; its answer is awaited.
    Diffing,
}

/// What the caller reports to the watcher.
pub enum WatcherEvent {
    /// Time to poll the registry.
    Tick,
    /// The peek answered with these changes up to `head`.
    Peeked { changes: Vec<RegistryChange>, head: String },
    /// The peek failed; it is retried on a later tick.
    PeekFailed,
}

/// What the watcher asks the caller to do.
pub enum WatcherAction {
    /// Nothing to do until the next event.
    Wait,
    /// Peek at the changes after `from`; `None` means from the beginning.
    Peek { from: Option<String> },
    /// A batch was handled: `added` new requests, resume reference now `head`.
    Synced { added: usize, head: String },
}

/// The watcher's decisions, one event at a time.
pub struct RegistryWatcher {
    pub state: WatcherState,
}

impl RegistryWatcher {
    pub fn new() -> (r: RegistryWatcher)
        ensures
            r.state == WatcherState::Idle,
    {
        RegistryWatcher { state: WatcherState::Idle }
    }

    /// Moves the watcher on by one event. A tick while idle starts a peek from
    /// the resume reference; an answer while diffing is applied with
    /// [`apply_batch`]; a failure returns to idle with the queue untouched.
    /// Events that do not fit the state are ignored.
    pub fn on_event(&mut self, queue: &mut BuildQueue, event: WatcherEvent) -> (r: WatcherAction)
        requires
            old(queue).wf(),
        ensures
            final(queue).wf(),
            match (old(self).state, event) {
                (WatcherState::Idle, WatcherEvent::Tick) => {
                    &&& final(self).state == WatcherState::Diffing
                    &&& final(queue)@ == old(queue)@
                    &&& r matches WatcherAction::Peek { from } && crate::queue::opt_text(from)
                        == old(queue)@.reference
                },
                (WatcherState::Diffing, WatcherEvent::Peeked { changes, head }) => {
                    &&& final(self).state == WatcherState::Idle
                    &&& final(queue)@ == sync_batch(old(queue)@, changes_view(changes@), head@)
                    &&& r matches WatcherAction::Synced { added, head: h } && h@ == head@
                        && added == final(queue)@.pending.len() - old(queue)@.pending.len()
                },
                (WatcherState::Diffing, WatcherEvent::PeekFailed) => {
                    &&& final(self).state == WatcherState::Idle
                    &&& final(queue)@ == old(queue)@
                    &&& r matches WatcherAction::Wait
                },
                _ => {
                    &&& final(self).state == old(self).state
                    &&& final(queue)@ == old(queue)@
                    &&& r matches WatcherAction::Wait
                },
            },
    {
        match (self.state, event) {
            (WatcherState::Idle, WatcherEvent::Tick) => {
                self.state = WatcherState::Diffing;
                WatcherAction::Peek { from: queue.last_seen_reference() }
            },
            (WatcherState::Diffing, WatcherEvent::Peeked { changes, head }) => {
                let added = apply_batch(queue, &changes, head.as_str());
                self.state = WatcherState::Idle;
                WatcherAction::Synced { added, head }
            },
            (WatcherState::Diffing, WatcherEvent::PeekFailed) => {
                self.state = WatcherState::Idle;
                WatcherAction::Wait
            },
            _ => WatcherAction::Wait,
        }
    }
}

/// On a first run, records `head` as the resume reference so that the
/// registry's history is not backfilled. Returns whether it did; a queue that
/// has a reference already is left as it is.
pub fn bootstrap_reference(queue: &mut BuildQueue, head: &str) -> (r: bool)
    requires
        old(queue).wf(),
    ensures
        final(queue).wf(),
        r == old(queue)@.reference.is_none(),
        r ==> final(queue)@ == old(queue)@.set_reference(head@),
        !r ==> final(queue)@ == old(queue)@,
{
    if queue.last_seen_reference().is_none() {
        queue.set_last_seen_reference(head);
        true
    } else {
        false
    }
}

} // verus!
