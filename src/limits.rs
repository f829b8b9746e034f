//! Per-crate overrides of the build sandbox's limits, kept for the build
//! executor and changed by administrative commands.
use vstd::prelude::*;

verus! {

/// Overrides for one crate. `None` keeps the sandbox's default.
#[derive(PartialEq, Eq, Structural, Clone, Copy, Debug)]
pub struct Overrides {
    /// Memory ceiling in bytes.
    pub memory: Option<u64>,
    /// Most targets to build for.
    pub targets: Option<u64>,
    /// Build timeout in seconds.
    pub timeout_seconds: Option<u64>,
}

/// Whether some entry is for the crate `name`.
pub open spec fn has_crate(entries: Seq<(Seq<char>, Overrides)>, name: Seq<char>) -> bool {
    exists|k: int| 0 <= k < entries.len() && #[trigger] entries[k].0 == name
}

pub open spec fn crates_unique(entries: Seq<(Seq<char>, Overrides)>) -> bool {
    forall|a: int, b: int|
        #![trigger entries[a], entries[b]]
        0 <= a < entries.len() && 0 <= b < entries.len() && entries[a].0 == entries[b].0 ==> a
            == b
}

/// The overrides stored for `name`, if any.
pub open spec fn overrides_of(entries: Seq<(Seq<char>, Overrides)>, name: Seq<char>) -> Option<
    Overrides,
> {
    if has_crate(entries, name) {
        Some(entries[choose|k: int| 0 <= k < entries.len() && #[trigger] entries[k].0 == name].1)
    } else {
        None
    }
}

/// One stored entry.
pub struct CrateOverrides {
    pub crate_name: String,
    pub overrides: Overrides,
}

impl View for CrateOverrides {
    type V = (Seq<char>, Overrides);

    open spec fn view(&self) -> (Seq<char>, Overrides) {
        (self.crate_name@, self.overrides)
    }
}

/// Sandbox overrides by crate name, in the order the crates were first set.
pub struct OverrideStore {
    entries: Vec<CrateOverrides>,
}

impl View for OverrideStore {
    type V = Seq<(Seq<char>, Overrides)>;

    closed spec fn view(&self) -> Seq<(Seq<char>, Overrides)> {
        self.entries@.map_values(|e: CrateOverrides| e@)
    }
}

impl OverrideStore {
    pub open spec fn wf(&self) -> bool {
        crates_unique(self@)
    }

    pub fn new() -> (r: OverrideStore)
        ensures
            r.wf(),
            r@ == Seq::<(Seq<char>, Overrides)>::empty(),
    {
        let r = OverrideStore { entries: Vec::new() };
        assert(r@ =~= Seq::<(Seq<char>, Overrides)>::empty());
        r
    }

    fn find(&self, name: &str) -> (r: Option<usize>)
        requires
            self.wf(),
        ensures
            match r {
                Some(k) => k < self@.len() && self@[k as int].0 == name@ && overrides_of(
                    self@,
                    name@,
                ) == Some(self@[k as int].1),
                None => !has_crate(self@, name@) && overrides_of(self@, name@).is_none(),
            },
    {
        let key = name.to_owned();
        let mut k: usize = 0;
        while k < self.entries.len()
            invariant
                k <= self.entries@.len(),
                key@ == name@,
                self.wf(),
                forall|m: int| 0 <= m < k ==> #[trigger] self@[m].0 != name@,
            decreases self.entries@.len() - k,
        {
            if self.entries[k].crate_name == key {
                proof {
                    assert(self@.len() == self.entries@.len());
                    assert(self@[k as int] == self.entries@[k as int]@);
                    assert(self@[k as int].0 == name@);
                    assert(has_crate(self@, name@));
                    let c = choose|c: int| 0 <= c < self@.len() && #[trigger] self@[c].0 == name@;
                    assert(self@[c].0 == self@[k as int].0);
                    assert(c == k);
                }
                return Some(k);
            }
            k = k + 1;
        }
        None
    }

    /// The overrides for `name`, if any are stored.
    pub fn get(&self, name: &str) -> (r: Option<Overrides>)
        requires
            self.wf(),
        ensures
            r == overrides_of(self@, name@),
    {
        match self.find(name) {
            Some(k) => Some(self.entries[k].overrides),
            None => None,
        }
    }

    /// Stores `overrides` for `name`, returning what was stored before.
    pub fn set(&mut self, name: &str, overrides: Overrides) -> (r: Option<Overrides>)
        requires
            old(self).wf(),
        ensures
            final(self).wf(),
            r == overrides_of(old(self)@, name@),
            overrides_of(final(self)@, name@) == Some(overrides),
            forall|other: Seq<char>|
                other != name@ ==> #[trigger] overrides_of(final(self)@, other) == overrides_of(
                    old(self)@,
                    other,
                ),
    {
        let entry = CrateOverrides { crate_name: name.to_owned(), overrides };
        let ghost before = self@;
        match self.find(name) {
            Some(k) => {
                let prev = self.entries[k].overrides;
                self.entries.set(k, entry);
                assert(self@ =~= before.update(k as int, (name@, overrides)));
                proof { self.lemma_update_lookup(before, k as int, name@, overrides); }
                Some(prev)
            },
            None => {
                self.entries.push(entry);
                assert(self@ =~= before.push((name@, overrides)));
                proof { self.lemma_push_lookup(before, name@, overrides); }
                None
            },
        }
    }

    proof fn lemma_update_lookup(&self, before: Seq<(Seq<char>, Overrides)>, k: int, name: Seq<char>, o: Overrides)
        requires
            crates_unique(before),
            0 <= k < before.len(),
            before[k].0 == name,
            self@ == before.update(k, (name, o)),
        ensures
            crates_unique(self@),
            overrides_of(self@, name) == Some(o),
            forall|other: Seq<char>|
                other != name ==> #[trigger] overrides_of(self@, other) == overrides_of(before, other),
    {
        let after = self@;
        assert(after[k].0 == name);
        assert forall|other: Seq<char>| other != name implies #[trigger] overrides_of(after, other) == overrides_of(before, other) by {
            if has_crate(before, other) {
                let c = choose|c: int| 0 <= c < before.len() && #[trigger] before[c].0 == other;
                assert(after[c] == before[c]);
                let d = choose|d: int| 0 <= d < after.len() && #[trigger] after[d].0 == other;
                assert(after[d] == before[d]);
            }
            if has_crate(after, other) {
                let d = choose|d: int| 0 <= d < after.len() && #[trigger] after[d].0 == other;
                assert(after[d] == before[d]);
            }
        }
    }

    proof fn lemma_push_lookup(&self, before: Seq<(Seq<char>, Overrides)>, name: Seq<char>, o: Overrides)
        requires
            crates_unique(before),
            !has_crate(before, name),
            self@ == before.push((name, o)),
        ensures
            crates_unique(self@),
            overrides_of(self@, name) == Some(o),
            forall|other: Seq<char>|
                other != name ==> #[trigger] overrides_of(self@, other) == overrides_of(before, other),
    {
        let after = self@;
        let last = before.len() as int;
        assert(after[last].0 == name);
        assert forall|other: Seq<char>| other != name implies #[trigger] overrides_of(after, other) == overrides_of(before, other) by {
            if has_crate(before, other) {
                let c = choose|c: int| 0 <= c < before.len() && #[trigger] before[c].0 == other;
                assert(after[c] == before[c]);
            }
            if has_crate(after, other) {
                let d = choose|d: int| 0 <= d < after.len() && #[trigger] after[d].0 == other;
                assert(d != last);
                assert(after[d] == before[d]);
            }
        }
    }

    proof fn lemma_remove_lookup(&self, before: Seq<(Seq<char>, Overrides)>, k: int, name: Seq<char>)
        requires
            crates_unique(before),
            0 <= k < before.len(),
            before[k].0 == name,
            self@ == before.remove(k),
        ensures
            crates_unique(self@),
            overrides_of(self@, name).is_none(),
            forall|other: Seq<char>|
                other != name ==> #[trigger] overrides_of(self@, other) == overrides_of(before, other),
    {
        let after = self@;
        assert forall|other: Seq<char>| #[trigger] has_crate(after, other) implies other != name by {
            let d = choose|d: int| 0 <= d < after.len() && #[trigger] after[d].0 == other;
            if d < k {
                assert(after[d] == before[d]);
            } else {
                assert(after[d] == before[d + 1]);
            }
        }
        assert forall|other: Seq<char>| other != name implies #[trigger] overrides_of(after, other) == overrides_of(before, other) by {
            if has_crate(before, other) {
                let c = choose|c: int| 0 <= c < before.len() && #[trigger] before[c].0 == other;
                if c < k {
                    assert(after[c] == before[c]);
                } else {
                    assert(after[c - 1] == before[c]);
                }
            }
            if has_crate(after, other) {
                let d = choose|d: int| 0 <= d < after.len() && #[trigger] after[d].0 == other;
                if d < k {
                    assert(after[d] == before[d]);
                } else {
                    assert(after[d] == before[d + 1]);
                }
            }
        }
    }

    /// Removes the overrides for `name`, returning them; `None`, and no
    /// change, if there were none.
    pub fn remove(&mut self, name: &str) -> (r: Option<Overrides>)
        requires
            old(self).wf(),
        ensures
            final(self).wf(),
            r == overrides_of(old(self)@, name@),
            overrides_of(final(self)@, name@).is_none(),
            forall|other: Seq<char>|
                other != name@ ==> #[trigger] overrides_of(final(self)@, other) == overrides_of(
                    old(self)@,
                    other,
                ),
    {
        let ghost before = self@;
        match self.find(name) {
            Some(k) => {
                let e = self.entries.remove(k);
                assert(self@ =~= before.remove(k as int));
                proof { self.lemma_remove_lookup(before, k as int, name@); }
                Some(e.overrides)
            },
            None => None,
        }
    }

    /// All stored entries, in store order.
    pub fn list(&self) -> (r: Vec<CrateOverrides>)
        ensures
            r@.len() == self@.len(),
            forall|m: int| 0 <= m < r@.len() ==> #[trigger] r@[m]@ == self@[m],
    {
        let mut r: Vec<CrateOverrides> = Vec::new();
        let mut k: usize = 0;
        while k < self.entries.len()
            invariant
                k <= self.entries@.len(),
                r@.len() == k,
                forall|m: int| 0 <= m < k ==> #[trigger] r@[m]@ == self@[m],
            decreases self.entries@.len() - k,
        {
            let e = &self.entries[k];
            r.push(CrateOverrides { crate_name: e.crate_name.clone(), overrides: e.overrides });
            k = k + 1;
        }
        r
    }
}

} // verus!
