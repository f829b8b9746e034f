//! The build queue: pending build requests, the queue lock, the registry
//! watcher's resume reference and the priority store, with the operations
//! that producers and the single consumer perform on them.
//!
//! Requests are kept in order of arrival, so a request's position stands for
//! its enqueue time: among requests of equal priority the earlier one leaves
//! first.
use vstd::prelude::*;
use crate::priority::{
    PriorityPattern, PriorityStore, DEFAULT_PRIORITY, first_match, has_pattern, patterns_unique, resolved_priority,
};

verus! {

/// What a pending request is, as the contracts speak of it: name, version,
/// priority and the alternate registry it comes from, if any.
pub type RequestView = (Seq<char>, Seq<char>, i32, Option<Seq<char>>);

pub open spec fn opt_text(o: Option<String>) -> Option<Seq<char>> {
    match o {
        Some(s) => Some(s@),
        None => None,
    }
}

pub open spec fn opt_str(o: Option<&str>) -> Option<Seq<char>> {
    match o {
        Some(s) => Some(s@),
        None => None,
    }
}

/// A pending request to build the documentation of one release.
pub struct BuildRequest {
    pub name: String,
    pub version: String,
    pub priority: i32,
    pub registry: Option<String>,
}

impl View for BuildRequest {
    type V = RequestView;

    open spec fn view(&self) -> RequestView {
        (self.name@, self.version@, self.priority, opt_text(self.registry))
    }
}

fn copy_text(o: &Option<String>) -> (r: Option<String>)
    ensures
        opt_text(r) == opt_text(*o),
{
    match o {
        Some(s) => Some(s.clone()),
        None => None,
    }
}

fn text_of(o: Option<&str>) -> (r: Option<String>)
    ensures
        opt_text(r) == opt_str(o),
{
    match o {
        Some(s) => Some(s.to_owned()),
        None => None,
    }
}

impl BuildRequest {
    pub fn duplicate(&self) -> (r: BuildRequest)
        ensures
            r@ == self@,
    {
        BuildRequest {
            name: self.name.clone(),
            version: self.version.clone(),
            priority: self.priority,
            registry: copy_text(&self.registry),
        }
    }
}

/// The whole state of a queue.
pub struct QueueState {
    pub pending: Seq<RequestView>,
    pub locked: bool,
    pub reference: Option<Seq<char>>,
    pub priorities: Seq<(Seq<char>, i32)>,
}

/// Whether a request for `name` at `version` is pending in `q`.
pub open spec fn is_pending(q: Seq<RequestView>, name: Seq<char>, version: Seq<char>) -> bool {
    exists|k: int| 0 <= k < q.len() && (#[trigger] q[k]).0 == name && q[k].1 == version
}

/// No release has two pending requests.
pub open spec fn releases_unique(q: Seq<RequestView>) -> bool {
    forall|a: int, b: int|
        0 <= a < q.len() && 0 <= b < q.len() && (#[trigger] q[a]).0 == (#[trigger] q[b]).0
            && q[a].1 == q[b].1 ==> a == b
}

/// The request at `k` is the only one pending for `name` at `version`.
pub open spec fn only_at(q: Seq<RequestView>, name: Seq<char>, version: Seq<char>, k: int) -> bool {
    &&& 0 <= k < q.len()
    &&& q[k].0 == name
    &&& q[k].1 == version
    &&& forall|j: int| 0 <= j < q.len() && (#[trigger] q[j]).0 == name && q[j].1 == version ==> j == k
}

/// `k` is the request that leaves next: none has a lower priority, and none
/// before it has the same.
pub open spec fn is_next(q: Seq<RequestView>, k: int) -> bool {
    &&& 0 <= k < q.len()
    &&& forall|j: int| 0 <= j < q.len() ==> (#[trigger] q[j]).2 >= q[k].2
    &&& forall|j: int| 0 <= j < k ==> (#[trigger] q[j]).2 > q[k].2
}

/// The earliest request of lowest priority among the first `n`.
pub open spec fn best_among(q: Seq<RequestView>, n: int) -> int
    decreases n,
{
    if n <= 1 {
        0
    } else {
        let b = best_among(q, n - 1);
        if q[n - 1].2 < q[b].2 {
            n - 1
        } else {
            b
        }
    }
}

/// The priority a request gets: the explicit one, else the store's.
pub open spec fn effective_priority(
    priorities: Seq<(Seq<char>, i32)>,
    name: Seq<char>,
    explicit: Option<i32>,
) -> i32 {
    match explicit {
        Some(p) => p,
        None => resolved_priority(priorities, name),
    }
}

impl QueueState {
    pub open spec fn wf(self) -> bool {
        releases_unique(self.pending) && patterns_unique(self.priorities)
    }

    /// The state after `add`.
    pub open spec fn add(
        self,
        name: Seq<char>,
        version: Seq<char>,
        explicit: Option<i32>,
        registry: Option<Seq<char>>,
    ) -> QueueState {
        if is_pending(self.pending, name, version) {
            self
        } else {
            QueueState {
                pending: self.pending.push(
                    (name, version, effective_priority(self.priorities, name, explicit), registry),
                ),
                ..self
            }
        }
    }

    /// Index of the request that `dequeue_next` hands out, if it hands one out.
    pub open spec fn next_index(self) -> Option<int> {
        if self.locked || self.pending.len() == 0 {
            None
        } else {
            Some(best_among(self.pending, self.pending.len() as int))
        }
    }

    /// The state after `dequeue_next`.
    pub open spec fn dequeue(self) -> QueueState {
        match self.next_index() {
            Some(k) => QueueState { pending: self.pending.remove(k), ..self },
            None => self,
        }
    }

    pub open spec fn set_locked(self, locked: bool) -> QueueState {
        QueueState { locked, ..self }
    }

    pub open spec fn set_reference(self, reference: Seq<char>) -> QueueState {
        QueueState { reference: Some(reference), ..self }
    }
}

proof fn lemma_best_among(q: Seq<RequestView>, n: int)
    requires
        1 <= n <= q.len(),
    ensures
        0 <= best_among(q, n) < n,
        forall|j: int| 0 <= j < n ==> (#[trigger] q[j]).2 >= q[best_among(q, n)].2,
        forall|j: int| 0 <= j < best_among(q, n) ==> (#[trigger] q[j]).2 > q[best_among(q, n)].2,
    decreases n,
{
    if n > 1 {
        lemma_best_among(q, n - 1);
    }
}

/// The request that `dequeue_next` hands out has the lowest priority of all
/// pending ones, and every pending request of that priority arrived after it.
pub proof fn lemma_dequeue_order(s: QueueState)
    requires
        s.next_index().is_some(),
    ensures
        is_next(s.pending, s.next_index().unwrap()),
{
    lemma_best_among(s.pending, s.pending.len() as int);
}

/// At most one position satisfies `is_next`.
pub proof fn lemma_next_unique(q: Seq<RequestView>, a: int, b: int)
    requires
        is_next(q, a),
        is_next(q, b),
    ensures
        a == b,
{
    if a < b {
        assert(q[a].2 > q[b].2);
    } else if b < a {
        assert(q[b].2 > q[a].2);
    }
}

/// `add` keeps the queue well formed, keeps every pending request pending,
/// and leaves the added release pending.
pub proof fn lemma_add_keeps(
    s: QueueState,
    name: Seq<char>,
    version: Seq<char>,
    explicit: Option<i32>,
    registry: Option<Seq<char>>,
)
    requires
        s.wf(),
    ensures
        s.add(name, version, explicit, registry).wf(),
        is_pending(s.add(name, version, explicit, registry).pending, name, version),
        forall|n: Seq<char>, v: Seq<char>|
            #[trigger] is_pending(s.pending, n, v) ==> is_pending(
                s.add(name, version, explicit, registry).pending,
                n,
                v,
            ),
        s.add(name, version, explicit, registry).locked == s.locked,
        s.add(name, version, explicit, registry).reference == s.reference,
        s.add(name, version, explicit, registry).priorities == s.priorities,
{
    let t = s.add(name, version, explicit, registry);
    if !is_pending(s.pending, name, version) {
        let last = t.pending.len() - 1;
        assert(t.pending[last].0 == name && t.pending[last].1 == version);
        assert forall|n: Seq<char>, v: Seq<char>| #[trigger] is_pending(s.pending, n, v) implies is_pending(
            t.pending,
            n,
            v,
        ) by {
            let k = choose|k: int| 0 <= k < s.pending.len() && (#[trigger] s.pending[k]).0 == n && s.pending[k].1 == v;
            assert(t.pending[k] == s.pending[k]);
        }
    }
}

/// Adding a release that is pending changes nothing.
pub proof fn lemma_add_pending_is_noop(
    s: QueueState,
    name: Seq<char>,
    version: Seq<char>,
    explicit: Option<i32>,
    registry: Option<Seq<char>>,
)
    requires
        is_pending(s.pending, name, version),
    ensures
        s.add(name, version, explicit, registry) == s,
{
}

/// Adding the same release twice, with nothing taken out between, leaves
/// exactly one pending request for it; the second add changes nothing.
pub proof fn lemma_add_twice(
    s: QueueState,
    name: Seq<char>,
    version: Seq<char>,
    first_priority: Option<i32>,
    first_registry: Option<Seq<char>>,
    second_priority: Option<i32>,
    second_registry: Option<Seq<char>>,
)
    requires
        s.wf(),
    ensures
        s.add(name, version, first_priority, first_registry).add(
            name,
            version,
            second_priority,
            second_registry,
        ) == s.add(name, version, first_priority, first_registry),
        s.add(name, version, first_priority, first_registry).wf(),
        exists|k: int|
            #[trigger] only_at(
                s.add(name, version, first_priority, first_registry).pending,
                name,
                version,
                k,
            ),
{
    lemma_add_keeps(s, name, version, first_priority, first_registry);
    let q = s.add(name, version, first_priority, first_registry).pending;
    let k = choose|k: int| 0 <= k < q.len() && (#[trigger] q[k]).0 == name && q[k].1 == version;
    assert(only_at(q, name, version, k));
}

/// While the queue is locked nothing is handed out and `dequeue_next` changes
/// nothing; unlocking again gives back the same pending requests, so they
/// leave in the order they would have left before.
pub proof fn lemma_lock_unlock(s: QueueState)
    ensures
        s.set_locked(true).next_index().is_none(),
        s.set_locked(true).dequeue() == s.set_locked(true),
        s.set_locked(true).set_locked(false).pending == s.pending,
        !s.locked ==> s.set_locked(true).set_locked(false) == s,
        !s.locked ==> s.set_locked(true).set_locked(false).next_index() == s.next_index(),
{
}

/// The lock does not stop `add`: adding while locked queues the same request.
pub proof fn lemma_add_while_locked(
    s: QueueState,
    name: Seq<char>,
    version: Seq<char>,
    explicit: Option<i32>,
    registry: Option<Seq<char>>,
)
    ensures
        s.set_locked(true).add(name, version, explicit, registry).pending == s.add(
            name,
            version,
            explicit,
            registry,
        ).pending,
{
}

/// An explicit priority is used as it is, whatever patterns match the name;
/// without one the first matching pattern decides.
pub proof fn lemma_priority_choice(
    priorities: Seq<(Seq<char>, i32)>,
    name: Seq<char>,
    explicit: i32,
)
    ensures
        effective_priority(priorities, name, Some(explicit)) == explicit,
        effective_priority(priorities, name, None) == resolved_priority(priorities, name),
        first_match(priorities, name).is_none() ==> effective_priority(priorities, name, None)
            == DEFAULT_PRIORITY,
{
}

/// What `add` did.
#[derive(PartialEq, Eq, Structural, Clone, Copy, Debug)]
pub enum QueueOutcome {
    /// A new request was queued with this priority.
    Added { priority: i32 },
    /// A request for the same release was already pending; nothing changed.
    AlreadyQueued,
}

/// The priority-ordered queue of build requests.
pub struct BuildQueue {
    pending: Vec<BuildRequest>,
    locked: bool,
    reference: Option<String>,
    priorities: PriorityStore,
}

impl View for BuildQueue {
    type V = QueueState;

    closed spec fn view(&self) -> QueueState {
        QueueState {
            pending: self.pending@.map_values(|r: BuildRequest| r@),
            locked: self.locked,
            reference: opt_text(self.reference),
            priorities: self.priorities@,
        }
    }
}

impl BuildQueue {
    pub open spec fn wf(&self) -> bool {
        self@.wf()
    }

    /// An empty, unlocked queue with no resume reference and no priority
    /// patterns.
    pub fn new() -> (r: BuildQueue)
        ensures
            r.wf(),
            r@.pending == Seq::<RequestView>::empty(),
            !r@.locked,
            r@.reference.is_none(),
            r@.priorities == Seq::<(Seq<char>, i32)>::empty(),
    {
        let r = BuildQueue {
            pending: Vec::new(),
            locked: false,
            reference: None,
            priorities: PriorityStore::new(),
        };
        assert(r@.pending =~= Seq::<RequestView>::empty());
        r
    }

    fn find(&self, name: &str, version: &str) -> (r: Option<usize>)
        ensures
            match r {
                Some(k) => k < self@.pending.len() && self@.pending[k as int].0 == name@
                    && self@.pending[k as int].1 == version@,
                None => !is_pending(self@.pending, name@, version@),
            },
    {
        let n = name.to_owned();
        let v = version.to_owned();
        let mut k: usize = 0;
        while k < self.pending.len()
            invariant
                k <= self.pending@.len(),
                n@ == name@,
                v@ == version@,
                forall|m: int|
                    0 <= m < k ==> !((#[trigger] self@.pending[m]).0 == name@
                        && self@.pending[m].1 == version@),
            decreases self.pending@.len() - k,
        {
            if self.pending[k].name == n && self.pending[k].version == v {
                return Some(k);
            }
            k = k + 1;
        }
        None
    }

    /// Whether a request for `name` at `version` is pending.
    pub fn has_pending(&self, name: &str, version: &str) -> (r: bool)
        ensures
            r == is_pending(self@.pending, name@, version@),
    {
        self.find(name, version).is_some()
    }

    /// Queues a build of `name` at `version`, unless one is pending already.
    /// Without an explicit priority the priority store decides.
    pub fn add(
        &mut self,
        name: &str,
        version: &str,
        explicit_priority: Option<i32>,
        registry: Option<&str>,
    ) -> (r: QueueOutcome)
        requires
            old(self).wf(),
        ensures
            final(self).wf(),
            final(self)@ == old(self)@.add(
                name@,
                version@,
                explicit_priority,
                opt_str(registry),
            ),
            r == (if is_pending(old(self)@.pending, name@, version@) {
                QueueOutcome::AlreadyQueued
            } else {
                QueueOutcome::Added {
                    priority: effective_priority(old(self)@.priorities, name@, explicit_priority),
                }
            }),
    {
        if self.find(name, version).is_some() {
            return QueueOutcome::AlreadyQueued;
        }
        let priority = match explicit_priority {
            Some(p) => p,
            None => self.priorities.resolve(name),
        };
        let req = BuildRequest {
            name: name.to_owned(),
            version: version.to_owned(),
            priority,
            registry: text_of(registry),
        };
        self.pending.push(req);
        assert(self@.pending =~= old(self)@.pending.push(
            (name@, version@, priority, opt_str(registry)),
        ));
        QueueOutcome::Added { priority }
    }

    /// Takes out the request to build next: the one of lowest priority value,
    /// the earliest among equals. Nothing while the queue is locked or empty.
    pub fn dequeue_next(&mut self) -> (r: Option<BuildRequest>)
        requires
            old(self).wf(),
        ensures
            final(self).wf(),
            final(self)@ == old(self)@.dequeue(),
            match old(self)@.next_index() {
                Some(k) => r.is_some() && r.unwrap()@ == old(self)@.pending[k],
                None => r.is_none(),
            },
    {
        if self.locked || self.pending.len() == 0 {
            return None;
        }
        let ghost q = self@.pending;
        let n = self.pending.len();
        let mut best: usize = 0;
        let mut k: usize = 1;
        while k < n
            invariant
                1 <= k <= n,
                n == self.pending@.len(),
                self@.pending == q,
                best as int == best_among(q, k as int),
                best < k,
            decreases n - k,
        {
            if self.pending[k].priority < self.pending[best].priority {
                best = k;
            }
            k = k + 1;
        }
        let req = self.pending.remove(best);
        assert(self@.pending =~= q.remove(best as int));
        Some(req)
    }

    /// Sets the queue lock: `dequeue_next` hands out nothing until `unlock`.
    pub fn lock(&mut self)
        requires
            old(self).wf(),
        ensures
            final(self).wf(),
            final(self)@ == old(self)@.set_locked(true),
    {
        self.locked = true;
    }

    /// Clears the queue lock.
    pub fn unlock(&mut self)
        requires
            old(self).wf(),
        ensures
            final(self).wf(),
            final(self)@ == old(self)@.set_locked(false),
    {
        self.locked = false;
    }

    pub fn is_locked(&self) -> (r: bool)
        ensures
            r == self@.locked,
    {
        self.locked
    }

    /// Number of pending requests.
    pub fn pending_count(&self) -> (r: usize)
        ensures
            r == self@.pending.len(),
    {
        self.pending.len()
    }

    /// The pending requests, in order of arrival.
    pub fn pending_requests(&self) -> (r: Vec<BuildRequest>)
        ensures
            r@.len() == self@.pending.len(),
            forall|m: int| 0 <= m < r@.len() ==> #[trigger] r@[m]@ == self@.pending[m],
    {
        let mut r: Vec<BuildRequest> = Vec::new();
        let mut k: usize = 0;
        while k < self.pending.len()
            invariant
                k <= self.pending@.len(),
                r@.len() == k,
                forall|m: int| 0 <= m < k ==> #[trigger] r@[m]@ == self@.pending[m],
            decreases self.pending@.len() - k,
        {
            r.push(self.pending[k].duplicate());
            k = k + 1;
        }
        r
    }

    /// The registry state the watcher has fully processed, if any.
    pub fn last_seen_reference(&self) -> (r: Option<String>)
        ensures
            opt_text(r) == self@.reference,
    {
        copy_text(&self.reference)
    }

    /// Records `reference` as fully processed; the last write wins.
    pub fn set_last_seen_reference(&mut self, reference: &str)
        requires
            old(self).wf(),
        ensures
            final(self).wf(),
            final(self)@ == old(self)@.set_reference(reference@),
    {
        self.reference = Some(reference.to_owned());
    }

    /// Stores `priority` for the crate-name pattern `pattern`.
    pub fn set_priority(&mut self, pattern: &str, priority: i32)
        requires
            old(self).wf(),
        ensures
            final(self).wf(),
            final(self)@.pending == old(self)@.pending,
            final(self)@.locked == old(self)@.locked,
            final(self)@.reference == old(self)@.reference,
            has_pattern(old(self)@.priorities, pattern@) ==> exists|k: int|
                0 <= k < old(self)@.priorities.len() && old(self)@.priorities[k].0 == pattern@
                    && final(self)@.priorities == old(self)@.priorities.update(
                    k,
                    (pattern@, priority),
                ),
            !has_pattern(old(self)@.priorities, pattern@) ==> final(self)@.priorities == old(
                self,
            )@.priorities.push((pattern@, priority)),
    {
        self.priorities.set(pattern, priority);
    }

    /// Removes the crate-name pattern `pattern`, returning its priority;
    /// `None`, and no change, if it was not stored.
    pub fn remove_priority(&mut self, pattern: &str) -> (r: Option<i32>)
        requires
            old(self).wf(),
        ensures
            final(self).wf(),
            final(self)@.pending == old(self)@.pending,
            final(self)@.locked == old(self)@.locked,
            final(self)@.reference == old(self)@.reference,
            has_pattern(old(self)@.priorities, pattern@) ==> exists|k: int|
                0 <= k < old(self)@.priorities.len() && old(self)@.priorities[k].0 == pattern@
                    && r == Some(old(self)@.priorities[k].1) && final(self)@.priorities == old(
                    self,
                )@.priorities.remove(k),
            !has_pattern(old(self)@.priorities, pattern@) ==> r.is_none() && final(self)@
                == old(self)@,
    {
        self.priorities.remove(pattern)
    }

    /// The first stored pattern that `name` matches, with its priority.
    pub fn get_priority(&self, name: &str) -> (r: Option<PriorityPattern>)
        ensures
            match first_match(self@.priorities, name@) {
                Some(k) => r.is_some() && r.unwrap()@ == self@.priorities[k],
                None => r.is_none(),
            },
    {
        self.priorities.get(name)
    }

    /// The priority `add` gives `name` when none is passed explicitly.
    pub fn resolve_priority(&self, name: &str) -> (r: i32)
        ensures
            r == resolved_priority(self@.priorities, name@),
    {
        self.priorities.resolve(name)
    }

    /// All priority patterns, in store order.
    pub fn list_priorities(&self) -> (r: Vec<PriorityPattern>)
        ensures
            r@.len() == self@.priorities.len(),
            forall|m: int| 0 <= m < r@.len() ==> #[trigger] r@[m]@ == self@.priorities[m],
    {
        self.priorities.list()
    }
}

} // verus!
