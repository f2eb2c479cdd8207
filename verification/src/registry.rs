use vstd::prelude::*;

verus! {

/// Whether the ids of an (id, state) entry sequence strictly increase.
///
/// This is the registry's ordering invariant; it makes every id name at most
/// one entry.
pub open spec fn strictly_increasing_ids<S>(entries: Seq<(u64, S)>) -> bool {
    forall|i: int, j: int|
        0 <= i < j < entries.len() ==> #[trigger] entries[i].0 < #[trigger] entries[j].0
}

/// Whether some entry carries the id.
pub open spec fn entries_contain<S>(entries: Seq<(u64, S)>, id: u64) -> bool {
    exists|i: int| 0 <= i < entries.len() && #[trigger] entries[i].0 == id
}

/// The position of the entry carrying the id, where one exists.
pub open spec fn entry_index<S>(entries: Seq<(u64, S)>, id: u64) -> int {
    choose|i: int| 0 <= i < entries.len() && #[trigger] entries[i].0 == id
}

/// The state stored under the id, where one exists.
pub open spec fn entry_state<S>(entries: Seq<(u64, S)>, id: u64) -> S {
    entries[entry_index(entries, id)].1
}

/// Uniqueness law: with strictly increasing ids, two distinct entries always
/// carry distinct ids — every live agent has exactly one id and every id at
/// most one agent.
pub proof fn lemma_ids_unique<S>(entries: Seq<(u64, S)>, i: int, j: int)
    requires
        strictly_increasing_ids(entries),
        0 <= i < entries.len(),
        0 <= j < entries.len(),
        i != j,
    ensures
        entries[i].0 != entries[j].0,
{
}

/// With strictly increasing ids, an entry carrying `id` pins both
/// `entries_contain` and `entry_index`.
pub proof fn lemma_entry_index_unique<S>(entries: Seq<(u64, S)>, id: u64, i: int)
    requires
        strictly_increasing_ids(entries),
        0 <= i < entries.len(),
        entries[i].0 == id,
    ensures
        entries_contain(entries, id),
        entry_index(entries, id) == i,
{
    assert(entries_contain(entries, id));
    let j = entry_index(entries, id);
    if i != j {
        lemma_ids_unique(entries, i, j);
    }
}

/// Owns the (id, behavior, state) collection of the map-backed strategy.
///
/// Entries are kept in ascending id order, behaviors beside them position by
/// position.  Ids are assigned by the owning engine's allocator and never
/// reused, so insertion happens at the end and removal truly deletes —
/// surviving ids stay put.
pub struct Registry<B, S> {
    entries: Vec<(u64, S)>,
    behaviors: Vec<B>,
}

/// The mathematical model of a [`Registry`]: the (id, state) entries and the
/// behaviors, as two sequences of equal length.
pub struct RegistryView<B, S> {
    /// The (id, state) pairs, in ascending id order.
    pub entries: Seq<(u64, S)>,
    /// The behavior of the agent at each position.
    pub behaviors: Seq<B>,
}

impl<B, S> RegistryView<B, S> {
    /// Well-formedness: one behavior per entry, ids strictly increasing.
    pub open spec fn wf(&self) -> bool {
        self.behaviors.len() == self.entries.len() && strictly_increasing_ids(self.entries)
    }
}

impl<B, S> View for Registry<B, S> {
    type V = RegistryView<B, S>;

    closed spec fn view(&self) -> RegistryView<B, S> {
        RegistryView { entries: self.entries@, behaviors: self.behaviors@ }
    }
}

impl<B, S> Registry<B, S> {
    /// An empty registry.
    pub fn new() -> (r: Self)
        ensures
            r@.entries == Seq::<(u64, S)>::empty(),
            r@.behaviors == Seq::<B>::empty(),
            r@.wf(),
    {
        Registry { entries: Vec::new(), behaviors: Vec::new() }
    }

    /// The number of live entries.
    pub fn len(&self) -> (n: usize)
        ensures
            n == self@.entries.len(),
    {
        self.entries.len()
    }

    /// The (id, state) entries, in ascending id order.
    pub fn entries(&self) -> (r: &Vec<(u64, S)>)
        ensures
            r@ == self@.entries,
    {
        &self.entries
    }

    /// Exclusive access to the (id, state) entries; the behaviors stay as they
    /// are.
    pub fn entries_mut(&mut self) -> (r: &mut Vec<(u64, S)>)
        ensures
            r@ == old(self)@.entries,
            final(self)@.entries == final(r)@,
            final(self)@.behaviors == old(self)@.behaviors,
    {
        &mut self.entries
    }

    /// The behavior of the entry at position `i`.
    pub fn behavior_at(&self, i: usize) -> (r: &B)
        requires
            i < self@.behaviors.len(),
        ensures
            *r == self@.behaviors[i as int],
    {
        &self.behaviors[i]
    }

    /// Replaces the state of the entry at position `i`, keeping its id.
    pub fn set_state_at(&mut self, i: usize, state: S)
        requires
            old(self)@.wf(),
            i < old(self)@.entries.len(),
        ensures
            final(self)@.wf(),
            final(self)@.entries == old(self)@.entries.update(
                i as int,
                (old(self)@.entries[i as int].0, state),
            ),
            final(self)@.behaviors == old(self)@.behaviors,
    {
        self.entries[i].1 = state;
        proof {
            assert(strictly_increasing_ids(self@.entries)) by {
                assert(forall|k: int|
                    0 <= k < self@.entries.len() ==> #[trigger] self@.entries[k].0 == old(
                        self,
                    )@.entries[k].0);
            }
        }
    }

    /// The position of the entry carrying `id`, if the id is live.
    pub fn index_of(&self, id: u64) -> (r: Option<usize>)
        requires
            self@.wf(),
        ensures
            match r {
                Some(i) => i < self@.entries.len() && self@.entries[i as int].0 == id && i as int
                    == entry_index(self@.entries, id),
                None => !entries_contain(self@.entries, id),
            },
    {
        let n = self.entries.len();
        let mut i: usize = 0;
        while i < n
            invariant
                i <= n,
                n == self@.entries.len(),
                self@.wf(),
                forall|j: int| 0 <= j < i ==> #[trigger] self@.entries[j].0 != id,
            decreases n - i,
        {
            if self.entries[i].0 == id {
                proof {
                    lemma_entry_index_unique(self@.entries, id, i as int);
                }
                return Some(i);
            }
            i += 1;
        }
        None
    }

    /// Whether the id names a live entry.
    pub fn contains(&self, id: u64) -> (r: bool)
        requires
            self@.wf(),
        ensures
            r == entries_contain(self@.entries, id),
    {
        match self.index_of(id) {
            Some(i) => {
                proof {
                    lemma_entry_index_unique(self@.entries, id, i as int);
                }
                true
            },
            None => false,
        }
    }

    /// The state stored under the id, if the id is live.
    pub fn get(&self, id: u64) -> (r: Option<&S>)
        requires
            self@.wf(),
        ensures
            match r {
                Some(s) => entries_contain(self@.entries, id) && *s == entry_state(
                    self@.entries,
                    id,
                ),
                None => !entries_contain(self@.entries, id),
            },
    {
        match self.index_of(id) {
            Some(i) => {
                proof {
                    lemma_entry_index_unique(self@.entries, id, i as int);
                }
                Some(&self.entries[i].1)
            },
            None => None,
        }
    }

    /// Exclusive access to the state stored under the id, if the id is live.
    /// The entry keeps its id, so the ordering invariant survives whatever the
    /// caller writes.
    pub fn get_mut(&mut self, id: u64) -> (r: Option<&mut S>)
        requires
            old(self)@.wf(),
        ensures
            match r {
                Some(s) => {
                    let i = entry_index(old(self)@.entries, id);
                    &&& entries_contain(old(self)@.entries, id)
                    &&& *s == old(self)@.entries[i].1
                    &&& final(self)@.entries == old(self)@.entries.update(i, (id, *final(s)))
                    &&& final(self)@.behaviors == old(self)@.behaviors
                    &&& final(self)@.wf()
                },
                None => !entries_contain(old(self)@.entries, id) && final(self)@ == old(self)@,
            },
    {
        match self.index_of(id) {
            Some(i) => {
                proof {
                    lemma_entry_index_unique(self@.entries, id, i as int);
                }
                let ghost pre = self@.entries;
                proof {
                    assert forall|v: S| strictly_increasing_ids(
                        #[trigger] pre.update(i as int, (id, v)),
                    ) by {
                        let post = pre.update(i as int, (id, v));
                        assert forall|k1: int, k2: int|
                            0 <= k1 < k2 < post.len() implies (#[trigger] post[k1].0) < (
                        #[trigger] post[k2].0) by {
                            assert(post[k1].0 == pre[k1].0);
                            assert(post[k2].0 == pre[k2].0);
                        }
                    }
                }
                let entry = &mut self.entries[i];
                Some(&mut entry.1)
            },
            None => None,
        }
    }

    /// Appends an entry under an id larger than every stored one; the ordering
    /// invariant is preserved by construction.
    pub fn insert(&mut self, id: u64, behavior: B, state: S)
        requires
            old(self)@.wf(),
            forall|i: int|
                0 <= i < old(self)@.entries.len() ==> #[trigger] old(self)@.entries[i].0 < id,
        ensures
            final(self)@.wf(),
            final(self)@.entries == old(self)@.entries.push((id, state)),
            final(self)@.behaviors == old(self)@.behaviors.push(behavior),
    {
        self.entries.push((id, state));
        self.behaviors.push(behavior);
        proof {
            assert(strictly_increasing_ids(self@.entries)) by {
                assert(forall|k: int|
                    0 <= k < old(self)@.entries.len() ==> #[trigger] self@.entries[k] == old(
                        self,
                    )@.entries[k]);
            }
        }
    }

    /// Removes the entry carrying `id`, handing back its id, behavior and
    /// state; later entries move one position down, keeping their ids.
    /// Returns `None`, and changes nothing, if the id is not live.
    pub fn remove(&mut self, id: u64) -> (r: Option<(u64, B, S)>)
        requires
            old(self)@.wf(),
        ensures
            final(self)@.wf(),
            match r {
                Some(entry) => {
                    let i = entry_index(old(self)@.entries, id);
                    entries_contain(old(self)@.entries, id) && entry.0 == id && entry.1 == old(
                        self,
                    )@.behaviors[i] && entry.2 == old(self)@.entries[i].1 && final(self)@.entries
                        == old(self)@.entries.remove(i) && final(self)@.behaviors == old(
                        self,
                    )@.behaviors.remove(i) && !entries_contain(final(self)@.entries, id)
                },
                None => !entries_contain(old(self)@.entries, id) && final(self)@.entries == old(
                    self,
                )@.entries && final(self)@.behaviors == old(self)@.behaviors,
            },
    {
        match self.index_of(id) {
            Some(i) => {
                let ghost pre = self@.entries;
                let (eid, state) = self.entries.remove(i);
                let behavior = self.behaviors.remove(i);
                proof {
                    assert(strictly_increasing_ids(self@.entries)) by {
                        assert(forall|k: int|
                            0 <= k < self@.entries.len() ==> #[trigger] self@.entries[k] == (
                            if k < i {
                                pre[k]
                            } else {
                                pre[k + 1]
                            }));
                    }
                    assert(!entries_contain(self@.entries, id)) by {
                        assert(forall|k: int|
                            0 <= k < self@.entries.len() ==> #[trigger] self@.entries[k].0 != id)
                            by {
                            assert(forall|k: int|
                                0 <= k < pre.len() && k != i ==> #[trigger] pre[k].0 != id) by {
                                assert forall|k: int|
                                    0 <= k < pre.len() && k != i implies #[trigger] pre[k].0
                                    != id by {
                                    lemma_ids_unique(pre, k, i as int);
                                }
                            }
                        }
                    }
                }
                Some((eid, behavior, state))
            },
            None => None,
        }
    }
}

} // verus!
