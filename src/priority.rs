//! The priority store: default build priorities keyed by `LIKE` patterns over
//! crate names.
//!
//! When several patterns match a name, the one stored first wins. Setting the
//! priority of a pattern that is already stored keeps its place.
use vstd::prelude::*;
use crate::pattern::{like, like_matches};

verus! {

/// Priority of a request whose name matches no stored pattern.
pub const DEFAULT_PRIORITY: i32 = 5;

/// One entry of the store: a `LIKE` pattern and the priority it gives.
pub struct PriorityPattern {
    pub pattern: String,
    pub priority: i32,
}

impl View for PriorityPattern {
    type V = (Seq<char>, i32);

    open spec fn view(&self) -> (Seq<char>, i32) {
        (self.pattern@, self.priority)
    }
}

impl PriorityPattern {
    pub fn duplicate(&self) -> (r: PriorityPattern)
        ensures
            r@ == self@,
    {
        PriorityPattern { pattern: self.pattern.clone(), priority: self.priority }
    }
}

/// Index of the first entry at or after `k` whose pattern matches `name`.
pub open spec fn first_match_from(entries: Seq<(Seq<char>, i32)>, name: Seq<char>, k: int) -> Option<
    int,
>
    decreases entries.len() - k,
{
    if k < 0 || k >= entries.len() {
        None
    } else if like(entries[k].0, name) {
        Some(k)
    } else {
        first_match_from(entries, name, k + 1)
    }
}

/// Index of the entry that decides the priority of `name`, if any matches.
pub open spec fn first_match(entries: Seq<(Seq<char>, i32)>, name: Seq<char>) -> Option<int> {
    first_match_from(entries, name, 0)
}

/// The priority that `name` gets when none is given explicitly.
pub open spec fn resolved_priority(entries: Seq<(Seq<char>, i32)>, name: Seq<char>) -> i32 {
    match first_match(entries, name) {
        Some(k) => entries[k].1,
        None => DEFAULT_PRIORITY,
    }
}

/// Whether some entry has exactly the pattern `p`.
pub open spec fn has_pattern(entries: Seq<(Seq<char>, i32)>, p: Seq<char>) -> bool {
    exists|k: int| 0 <= k < entries.len() && #[trigger] entries[k].0 == p
}

/// No pattern is stored twice.
pub open spec fn patterns_unique(entries: Seq<(Seq<char>, i32)>) -> bool {
    forall|a: int, b: int|
        #![trigger entries[a], entries[b]]
        0 <= a < entries.len() && 0 <= b < entries.len() && entries[a].0 == entries[b].0 ==> a
            == b
}

proof fn lemma_first_match_bounds(entries: Seq<(Seq<char>, i32)>, name: Seq<char>, k: int)
    requires
        0 <= k,
    ensures
        match first_match_from(entries, name, k) {
            Some(m) => k <= m < entries.len() && like(entries[m].0, name),
            None => true,
        },
    decreases entries.len() - k,
{
    if k < entries.len() && !like(entries[k].0, name) {
        lemma_first_match_bounds(entries, name, k + 1);
    }
}

/// Stored priority patterns, in the order in which they were first set.
pub struct PriorityStore {
    entries: Vec<PriorityPattern>,
}

impl View for PriorityStore {
    type V = Seq<(Seq<char>, i32)>;

    closed spec fn view(&self) -> Seq<(Seq<char>, i32)> {
        self.entries@.map_values(|e: PriorityPattern| e@)
    }
}

impl PriorityStore {
    pub open spec fn wf(&self) -> bool {
        patterns_unique(self@)
    }

    /// An empty store.
    pub fn new() -> (r: PriorityStore)
        ensures
            r.wf(),
            r@ == Seq::<(Seq<char>, i32)>::empty(),
    {
        let r = PriorityStore { entries: Vec::new() };
        assert(r@ =~= Seq::<(Seq<char>, i32)>::empty());
        r
    }

    /// Position of the entry whose pattern is exactly `pattern`.
    pub fn find(&self, pattern: &str) -> (r: Option<usize>)
        ensures
            match r {
                Some(k) => k < self@.len() && self@[k as int].0 == pattern@,
                None => !has_pattern(self@, pattern@),
            },
    {
        let key = pattern.to_owned();
        let mut k: usize = 0;
        while k < self.entries.len()
            invariant
                k <= self.entries@.len(),
                key@ == pattern@,
                forall|m: int| 0 <= m < k ==> #[trigger] self@[m].0 != pattern@,
            decreases self.entries@.len() - k,
        {
            if self.entries[k].pattern == key {
                return Some(k);
            }
            k = k + 1;
        }
        None
    }

    /// The first stored pattern that `name` matches, with its priority.
    pub fn get(&self, name: &str) -> (r: Option<PriorityPattern>)
        ensures
            match first_match(self@, name@) {
                Some(k) => r.is_some() && r.unwrap()@ == self@[k],
                None => r.is_none(),
            },
    {
        let mut k: usize = 0;
        while k < self.entries.len()
            invariant
                k <= self.entries@.len(),
                first_match(self@, name@) == first_match_from(self@, name@, k as int),
            decreases self.entries@.len() - k,
        {
            if like_matches(self.entries[k].pattern.as_str(), name) {
                return Some(self.entries[k].duplicate());
            }
            k = k + 1;
        }
        None
    }

    /// The priority of `name`: that of the first matching pattern, else
    /// [`DEFAULT_PRIORITY`].
    pub fn resolve(&self, name: &str) -> (r: i32)
        ensures
            r == resolved_priority(self@, name@),
    {
        match self.get(name) {
            Some(e) => e.priority,
            None => DEFAULT_PRIORITY,
        }
    }

    /// Stores `priority` for `pattern`, replacing the priority it had.
    pub fn set(&mut self, pattern: &str, priority: i32)
        requires
            old(self).wf(),
        ensures
            final(self).wf(),
            has_pattern(old(self)@, pattern@) ==> exists|k: int|
                0 <= k < old(self)@.len() && old(self)@[k].0 == pattern@ && final(self)@
                    == old(self)@.update(k, (pattern@, priority)),
            !has_pattern(old(self)@, pattern@) ==> final(self)@ == old(self)@.push(
                (pattern@, priority),
            ),
    {
        match self.find(pattern) {
            Some(k) => {
                self.entries.set(k, PriorityPattern { pattern: pattern.to_owned(), priority });
                assert(self@ =~= old(self)@.update(k as int, (pattern@, priority)));
            },
            None => {
                self.entries.push(PriorityPattern { pattern: pattern.to_owned(), priority });
                assert(self@ =~= old(self)@.push((pattern@, priority)));
            },
        }
    }

    /// Removes `pattern`, returning the priority it had; `None` if it was not
    /// stored, and then nothing changes.
    pub fn remove(&mut self, pattern: &str) -> (r: Option<i32>)
        requires
            old(self).wf(),
        ensures
            final(self).wf(),
            has_pattern(old(self)@, pattern@) ==> exists|k: int|
                0 <= k < old(self)@.len() && old(self)@[k].0 == pattern@ && r == Some(
                    old(self)@[k].1,
                ) && final(self)@ == old(self)@.remove(k),
            !has_pattern(old(self)@, pattern@) ==> r.is_none() && final(self)@ == old(self)@,
            !has_pattern(final(self)@, pattern@),
    {
        match self.find(pattern) {
            Some(k) => {
                let e = self.entries.remove(k);
                assert(self@ =~= old(self)@.remove(k as int));
                Some(e.priority)
            },
            None => None,
        }
    }

    /// All entries, in store order.
    pub fn list(&self) -> (r: Vec<PriorityPattern>)
        ensures
            r@.len() == self@.len(),
            forall|m: int| 0 <= m < r@.len() ==> #[trigger] r@[m]@ == self@[m],
    {
        let mut r: Vec<PriorityPattern> = Vec::new();
        let mut k: usize = 0;
        while k < self.entries.len()
            invariant
                k <= self.entries@.len(),
                r@.len() == k,
                forall|m: int| 0 <= m < k ==> #[trigger] r@[m]@ == self@[m],
            decreases self.entries@.len() - k,
        {
            r.push(self.entries[k].duplicate());
            k = k + 1;
        }
        r
    }
}

} // verus!
