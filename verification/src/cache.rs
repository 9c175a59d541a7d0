//! The bounded validation cache: remembers what the formula checker said of a
//! text, for at most `capacity` texts, and forgets the least recently used one
//! when a new text would not fit.
//!
//! The checker itself is a program outside this library. A caller asks the
//! cache first ([`ValidationCache::lookup`]); on a miss it runs the checker
//! and hands the answer back ([`ValidationCache::record`]). Every operation
//! takes `&mut self` and does its whole get / evict / insert in one call, so
//! a caller that shares the cache behind a lock gets each as one atomic unit.
//!
//! The entries are kept in one list in the order of their last use, and an
//! operation walks that list: its cost grows with the number of texts held,
//! which is small beside one run of the checker.

use vstd::prelude::*;

verus! {

/// What the formula checker said of one text.
#[derive(Debug)]
pub enum ValidationOutcome {
    /// The text is a well-formed formula.
    Valid,
    /// The text was refused; the string is the checker's diagnostic.
    Invalid(String),
}

/// The mathematical value of a [`ValidationOutcome`].
pub enum OutcomeView {
    Valid,
    Invalid(Seq<char>),
}

impl View for ValidationOutcome {
    type V = OutcomeView;

    open spec fn view(&self) -> OutcomeView {
        match self {
            ValidationOutcome::Valid => OutcomeView::Valid,
            ValidationOutcome::Invalid(diagnostic) => OutcomeView::Invalid(diagnostic@),
        }
    }
}

impl ValidationOutcome {
    /// A second value with the same content.
    pub fn duplicate(&self) -> (copy: ValidationOutcome)
        ensures
            copy@ == self@,
    {
        match self {
            ValidationOutcome::Valid => ValidationOutcome::Valid,
            ValidationOutcome::Invalid(diagnostic) => ValidationOutcome::Invalid(
                diagnostic.clone(),
            ),
        }
    }

    /// Whether the checker accepted the text.
    pub fn is_valid(&self) -> (valid: bool)
        ensures
            valid == (self@ == OutcomeView::Valid),
    {
        match self {
            ValidationOutcome::Valid => true,
            ValidationOutcome::Invalid(_) => false,
        }
    }
}

/// The mathematical value of a cache: its capacity and its entries, each a
/// text with the outcome stored for it, ordered from the least recently used
/// (index 0) to the most recently used (last).
pub struct CacheModel {
    pub capacity: nat,
    pub entries: Seq<(Seq<char>, OutcomeView)>,
}

impl CacheModel {
    /// The cache of the given capacity that holds nothing.
    pub open spec fn empty(capacity: nat) -> CacheModel {
        CacheModel { capacity, entries: Seq::empty() }
    }

    /// No text is stored twice, and no more texts than the capacity allows.
    pub open spec fn wf(self) -> bool {
        &&& self.entries.len() <= self.capacity
        &&& forall|i: int, j: int|
            0 <= i < j < self.entries.len() ==> self.entries[i].0 != self.entries[j].0
    }

    /// Whether entry `i` exists and is stored for `key`.
    pub open spec fn at(self, i: int, key: Seq<char>) -> bool {
        0 <= i < self.entries.len() && self.entries[i].0 == key
    }

    /// Whether an outcome is stored for `key`.
    pub open spec fn contains(self, key: Seq<char>) -> bool {
        exists|i: int| self.at(i, key)
    }

    /// The index of the entry stored for `key`, where there is one.
    pub open spec fn slot(self, key: Seq<char>) -> int {
        choose|i: int| self.at(i, key)
    }

    /// The outcome stored for `key`, where there is one.
    pub open spec fn stored(self, key: Seq<char>) -> OutcomeView {
        self.entries[self.slot(key)].1
    }

    /// The cache after `key` was looked up: a stored key becomes the most
    /// recently used one, and a lookup that misses changes nothing.
    pub open spec fn touched(self, key: Seq<char>) -> CacheModel {
        if self.contains(key) {
            let i = self.slot(key);
            CacheModel {
                capacity: self.capacity,
                entries: self.entries.remove(i).push(self.entries[i]),
            }
        } else {
            self
        }
    }

    /// The entries without the one stored for `key`, if there is one.
    pub open spec fn without(self, key: Seq<char>) -> Seq<(Seq<char>, OutcomeView)> {
        if self.contains(key) {
            self.entries.remove(self.slot(key))
        } else {
            self.entries
        }
    }

    /// The cache after `outcome` was recorded for `key`: the pair becomes the
    /// most recently used entry, replacing what was stored for `key` before,
    /// and where that makes one entry too many, the least recently used
    /// entry leaves.
    pub open spec fn recorded(self, key: Seq<char>, outcome: OutcomeView) -> CacheModel {
        let grown = self.without(key).push((key, outcome));
        CacheModel {
            capacity: self.capacity,
            entries: if grown.len() > self.capacity {
                grown.drop_first()
            } else {
                grown
            },
        }
    }

    /// In a well-formed cache the entry stored for a key is the only one.
    pub proof fn lemma_slot_is_unique(self, i: int, key: Seq<char>)
        requires
            self.wf(),
            self.at(i, key),
        ensures
            self.contains(key),
            self.slot(key) == i,
            self.stored(key) == self.entries[i].1,
    {
        let j = self.slot(key);
        assert(self.at(j, key));
        if i < j {
            assert(self.entries[i].0 != self.entries[j].0);
        } else if j < i {
            assert(self.entries[j].0 != self.entries[i].0);
        }
    }

    /// The cache after each pair of `pairs` was recorded, in order.
    pub open spec fn recorded_all(self, pairs: Seq<(Seq<char>, OutcomeView)>) -> CacheModel
        decreases pairs.len(),
    {
        if pairs.len() == 0 {
            self
        } else {
            self.recorded_all(pairs.drop_last()).recorded(pairs.last().0, pairs.last().1)
        }
    }

    /// No entry of `without(key)` is stored for `key`, and no two of them for
    /// the same text.
    pub proof fn lemma_without(self, key: Seq<char>)
        requires
            self.wf(),
        ensures
            forall|j: int|
                0 <= j < self.without(key).len() ==> (#[trigger] self.without(key)[j]).0 != key,
            forall|i: int, j: int|
                0 <= i < j < self.without(key).len() ==> self.without(key)[i].0 != self.without(
                    key,
                )[j].0,
            self.without(key).len() <= self.entries.len(),
            self.contains(key) ==> self.without(key).len() + 1 == self.entries.len(),
    {
        let kept = self.without(key);
        if self.contains(key) {
            let at = self.slot(key);
            assert(self.at(at, key));
            assert forall|j: int| 0 <= j < kept.len() implies (#[trigger] kept[j]).0 != key by {
                let from = if j < at {
                    j
                } else {
                    j + 1
                };
                assert(kept[j] == self.entries[from]);
                if kept[j].0 == key {
                    self.lemma_slot_is_unique(from, key);
                }
            }
            assert forall|i: int, j: int| 0 <= i < j < kept.len() implies kept[i].0
                != kept[j].0 by {
                let from_i = if i < at {
                    i
                } else {
                    i + 1
                };
                let from_j = if j < at {
                    j
                } else {
                    j + 1
                };
                assert(kept[i] == self.entries[from_i]);
                assert(kept[j] == self.entries[from_j]);
            }
        } else {
            assert forall|j: int| 0 <= j < kept.len() implies (#[trigger] kept[j]).0 != key by {
                assert(!self.at(j, key));
            }
        }
    }

    /// Recording keeps a cache well-formed.
    pub proof fn lemma_recorded_wf(self, key: Seq<char>, outcome: OutcomeView)
        requires
            self.wf(),
        ensures
            self.recorded(key, outcome).wf(),
    {
        self.lemma_without(key);
        let grown = self.without(key).push((key, outcome));
        assert forall|i: int, j: int| 0 <= i < j < grown.len() implies grown[i].0
            != grown[j].0 by {
            if j < grown.len() - 1 {
                assert(grown[i] == self.without(key)[i]);
                assert(grown[j] == self.without(key)[j]);
            } else {
                assert(grown[i] == self.without(key)[i]);
            }
        }
        let after = self.recorded(key, outcome).entries;
        if grown.len() > self.capacity {
            assert forall|i: int, j: int| 0 <= i < j < after.len() implies after[i].0
                != after[j].0 by {
                assert(after[i] == grown[i + 1]);
                assert(after[j] == grown[j + 1]);
            }
        }
    }

    /// A lookup keeps a cache well-formed.
    pub proof fn lemma_touched_wf(self, key: Seq<char>)
        requires
            self.wf(),
        ensures
            self.touched(key).wf(),
    {
        if self.contains(key) {
            let at = self.slot(key);
            assert(self.at(at, key));
            self.lemma_without(key);
            let kept = self.without(key);
            let after = self.touched(key).entries;
            assert(after == kept.push(self.entries[at]));
            assert forall|i: int, j: int| 0 <= i < j < after.len() implies after[i].0
                != after[j].0 by {
                if j < after.len() - 1 {
                    assert(after[i] == kept[i]);
                    assert(after[j] == kept[j]);
                } else {
                    assert(after[i] == kept[i]);
                }
            }
        }
    }

    /// Eviction takes exactly the least recently used entry: when a full
    /// cache records a text that it does not hold, the entry at the front
    /// leaves, every other entry stays with its outcome and its rank, and the
    /// new pair is the most recently used one.
    pub proof fn lemma_overflow_evicts_least_recent(self, key: Seq<char>, outcome: OutcomeView)
        requires
            self.wf(),
            self.capacity >= 1,
            self.entries.len() == self.capacity,
            !self.contains(key),
        ensures
            self.recorded(key, outcome).entries == self.entries.drop_first().push((key, outcome)),
            !self.recorded(key, outcome).contains(self.entries[0].0),
            self.recorded(key, outcome).contains(key),
            self.recorded(key, outcome).stored(key) == outcome,
            forall|k: Seq<char>|
                #![trigger self.recorded(key, outcome).contains(k)]
                self.contains(k) && k != self.entries[0].0 ==> self.recorded(
                    key,
                    outcome,
                ).contains(k) && self.recorded(key, outcome).stored(k) == self.stored(k),
            forall|k: Seq<char>|
                #![trigger self.recorded(key, outcome).contains(k)]
                self.recorded(key, outcome).contains(k) ==> k == key || self.contains(k),
    {
        let after = self.recorded(key, outcome);
        self.lemma_recorded_wf(key, outcome);
        assert(after.entries =~= self.entries.drop_first().push((key, outcome)));
        let last = after.entries.len() - 1;
        assert(after.at(last, key));
        after.lemma_slot_is_unique(last, key);
        assert(self.at(0, self.entries[0].0));
        if after.contains(self.entries[0].0) {
            let i = after.slot(self.entries[0].0);
            assert(after.at(i, self.entries[0].0));
            if i < last {
                assert(after.entries[i] == self.entries[i + 1]);
            }
        }
        assert forall|k: Seq<char>|
            #![trigger after.contains(k)]
            self.contains(k) && k != self.entries[0].0 implies after.contains(k) && after.stored(
            k,
        ) == self.stored(k) by {
            let i = self.slot(k);
            assert(self.at(i, k));
            assert(after.entries[i - 1] == self.entries[i]);
            assert(after.at(i - 1, k));
            after.lemma_slot_is_unique(i - 1, k);
        }
        assert forall|k: Seq<char>|
            #![trigger after.contains(k)]
            after.contains(k) implies k == key || self.contains(k) by {
            let i = after.slot(k);
            assert(after.at(i, k));
            if i < last {
                assert(after.entries[i] == self.entries[i + 1]);
                assert(self.at(i + 1, k));
            }
        }
    }

    /// Whether no two pairs of `pairs` are for the same text.
    pub open spec fn distinct_keys(pairs: Seq<(Seq<char>, OutcomeView)>) -> bool {
        forall|i: int, j: int| 0 <= i < j < pairs.len() ==> pairs[i].0 != pairs[j].0
    }

    /// An empty cache that records pairs for distinct texts ends up holding
    /// the latest `capacity` of them, oldest first.
    pub proof fn lemma_recording_keeps_the_latest(
        capacity: nat,
        pairs: Seq<(Seq<char>, OutcomeView)>,
    )
        requires
            Self::distinct_keys(pairs),
        ensures
            Self::empty(capacity).recorded_all(pairs).wf(),
            Self::empty(capacity).recorded_all(pairs).capacity == capacity,
            Self::empty(capacity).recorded_all(pairs).entries == pairs.subrange(
                if pairs.len() > capacity {
                    pairs.len() - capacity
                } else {
                    0
                },
                pairs.len() as int,
            ),
        decreases pairs.len(),
    {
        let done = Self::empty(capacity).recorded_all(pairs);
        if pairs.len() == 0 {
            assert(done.entries =~= pairs.subrange(0, 0));
        } else {
            let earlier = pairs.drop_last();
            let before = Self::empty(capacity).recorded_all(earlier);
            let (key, outcome) = pairs.last();
            assert(Self::distinct_keys(earlier)) by {
                assert forall|i: int, j: int| 0 <= i < j < earlier.len() implies earlier[i].0
                    != earlier[j].0 by {
                    assert(earlier[i] == pairs[i]);
                    assert(earlier[j] == pairs[j]);
                }
            }
            Self::lemma_recording_keeps_the_latest(capacity, earlier);
            let from = if earlier.len() > capacity {
                earlier.len() - capacity
            } else {
                0
            };
            assert(before.entries == earlier.subrange(from, earlier.len() as int));
            assert(!before.contains(key)) by {
                if before.contains(key) {
                    let i = before.slot(key);
                    assert(before.at(i, key));
                    assert(before.entries[i] == pairs[from + i]);
                    assert(pairs[from + i].0 != pairs[pairs.len() - 1].0);
                }
            }
            before.lemma_recorded_wf(key, outcome);
            assert(done == before.recorded(key, outcome));
            let to = if pairs.len() > capacity {
                pairs.len() - capacity
            } else {
                0
            };
            assert(done.entries =~= pairs.subrange(to, pairs.len() as int));
        }
    }

    /// Filling an empty cache with one text more than it can hold, all of
    /// them distinct, evicts the text that was recorded first and no other.
    pub proof fn lemma_one_past_capacity_evicts_the_first(
        capacity: nat,
        pairs: Seq<(Seq<char>, OutcomeView)>,
    )
        requires
            Self::distinct_keys(pairs),
            pairs.len() == capacity + 1,
        ensures
            Self::empty(capacity).recorded_all(pairs).entries == pairs.drop_first(),
            !Self::empty(capacity).recorded_all(pairs).contains(pairs[0].0),
            forall|i: int|
                1 <= i < pairs.len() ==> Self::empty(capacity).recorded_all(pairs).contains(
                    #[trigger] pairs[i].0,
                ) && Self::empty(capacity).recorded_all(pairs).stored(pairs[i].0) == pairs[i].1,
    {
        let done = Self::empty(capacity).recorded_all(pairs);
        Self::lemma_recording_keeps_the_latest(capacity, pairs);
        assert(done.entries =~= pairs.drop_first());
        if done.contains(pairs[0].0) {
            let i = done.slot(pairs[0].0);
            assert(done.at(i, pairs[0].0));
            assert(done.entries[i] == pairs[i + 1]);
        }
        assert forall|i: int| 1 <= i < pairs.len() implies done.contains(#[trigger] pairs[i].0)
            && done.stored(pairs[i].0) == pairs[i].1 by {
            assert(done.entries[i - 1] == pairs[i]);
            assert(done.at(i - 1, pairs[i].0));
            done.lemma_slot_is_unique(i - 1, pairs[i].0);
        }
    }

    /// A lookup refreshes recency: in a cache that can hold two texts or
    /// more, a text that was just looked up survives the next recording of a
    /// text that the cache does not hold, whether or not that evicts.
    pub proof fn lemma_lookup_protects_from_next_eviction(
        self,
        key: Seq<char>,
        fresh: Seq<char>,
        outcome: OutcomeView,
    )
        requires
            self.wf(),
            self.capacity >= 2,
            self.contains(key),
            !self.contains(fresh),
        ensures
            self.touched(key).recorded(fresh, outcome).contains(key),
            self.touched(key).recorded(fresh, outcome).stored(key) == self.stored(key),
    {
        let at = self.slot(key);
        assert(self.at(at, key));
        let looked = self.touched(key);
        self.lemma_touched_wf(key);
        let top = looked.entries.len() - 1;
        assert(looked.entries[top] == self.entries[at]);
        assert(!looked.contains(fresh)) by {
            if looked.contains(fresh) {
                let i = looked.slot(fresh);
                assert(looked.at(i, fresh));
                if i < top {
                    let from = if i < at {
                        i
                    } else {
                        i + 1
                    };
                    assert(looked.entries[i] == self.entries[from]);
                    assert(self.at(from, fresh));
                } else {
                    assert(self.at(at, fresh));
                }
            }
        }
        let after = looked.recorded(fresh, outcome);
        looked.lemma_recorded_wf(fresh, outcome);
        let grown = looked.entries.push((fresh, outcome));
        assert(grown[top] == self.entries[at]);
        let place = if grown.len() > looked.capacity {
            top - 1
        } else {
            top
        };
        assert(after.entries[place] == self.entries[at]);
        assert(after.at(place, key));
        after.lemma_slot_is_unique(place, key);
    }
}

/// One stored text with the checker's outcome for it.
struct Entry {
    key: String,
    outcome: ValidationOutcome,
}

/// The texts and outcomes of a list of entries.
spec fn pairs(entries: Seq<Entry>) -> Seq<(Seq<char>, OutcomeView)> {
    entries.map_values(|e: Entry| (e.key@, e.outcome@))
}

/// The index of the entry stored for `key`, if there is one.
fn find(entries: &Vec<Entry>, key: &String) -> (found: Option<usize>)
    ensures
        match found {
            Some(i) => i < entries.len() && entries[i as int].key@ == key@,
            None => forall|j: int| 0 <= j < entries.len() ==> entries[j].key@ != key@,
        },
{
    let mut i: usize = 0;
    while i < entries.len()
        invariant
            i <= entries.len(),
            forall|j: int| 0 <= j < i ==> entries[j].key@ != key@,
        decreases entries.len() - i,
    {
        if entries[i].key == *key {
            return Some(i);
        }
        i += 1;
    }
    None
}

/// The cache itself. Its value is a [`CacheModel`], which is well-formed at
/// all times.
pub struct ValidationCache {
    capacity: usize,
    entries: Vec<Entry>,
}

impl View for ValidationCache {
    type V = CacheModel;

    closed spec fn view(&self) -> CacheModel {
        CacheModel { capacity: self.capacity as nat, entries: pairs(self.entries@) }
    }
}

impl ValidationCache {
    #[verifier::type_invariant]
    spec fn well_formed(self) -> bool {
        self@.wf()
    }

    /// An empty cache that will hold at most `capacity` texts.
    pub fn new(capacity: usize) -> (cache: ValidationCache)
        ensures
            cache@ == CacheModel::empty(capacity as nat),
            cache@.wf(),
    {
        let cache = ValidationCache { capacity, entries: Vec::new() };
        assert(cache@.entries =~= Seq::empty());
        cache
    }

    /// The number of texts the cache may hold.
    pub fn capacity(&self) -> (capacity: usize)
        ensures
            capacity == self@.capacity,
    {
        self.capacity
    }

    /// The number of texts the cache holds now, which is never more than it
    /// may hold.
    pub fn len(&self) -> (len: usize)
        ensures
            len == self@.entries.len(),
            len <= self@.capacity,
            self@.wf(),
    {
        proof {
            use_type_invariant(self);
        }
        self.entries.len()
    }

    /// Looks `text` up. On a hit the stored outcome comes back and `text`
    /// becomes the most recently used entry; on a miss nothing changes.
    pub fn lookup(&mut self, text: &str) -> (found: Option<ValidationOutcome>)
        ensures
            old(self)@.wf(),
            final(self)@.wf(),
            final(self)@ == old(self)@.touched(text@),
            old(self)@.contains(text@) ==> found is Some && found->0@ == old(self)@.stored(
                text@,
            ),
            !old(self)@.contains(text@) ==> found is None,
    {
        proof {
            use_type_invariant(&*self);
            old(self)@.lemma_touched_wf(text@);
        }
        let key = text.to_owned();
        match find(&self.entries, &key) {
            Some(at) => {
                proof {
                    assert(self@.at(at as int, text@));
                    self@.lemma_slot_is_unique(at as int, text@);
                }
                let mut entries: Vec<Entry> = Vec::new();
                core::mem::swap(&mut self.entries, &mut entries);
                let outcome = entries[at].outcome.duplicate();
                let entry = entries.remove(at);
                entries.push(entry);
                proof {
                    assert(pairs(entries@) =~= old(self)@.touched(text@).entries);
                }
                self.entries = entries;
                Some(outcome)
            },
            None => {
                proof {
                    assert(!self@.contains(text@)) by {
                        if self@.contains(text@) {
                            assert(self@.at(self@.slot(text@), text@));
                        }
                    }
                }
                None
            },
        }
    }

    /// Stores what the checker said of `text`. The pair becomes the most
    /// recently used entry and replaces what was stored for `text` before;
    /// where the cache would then hold more than its capacity, the least
    /// recently used entry is evicted.
    pub fn record(&mut self, text: String, outcome: ValidationOutcome)
        ensures
            old(self)@.wf(),
            final(self)@.wf(),
            final(self)@ == old(self)@.recorded(text@, outcome@),
    {
        proof {
            use_type_invariant(&*self);
            old(self)@.lemma_recorded_wf(text@, outcome@);
        }
        let stale = find(&self.entries, &text);
        let mut entries: Vec<Entry> = Vec::new();
        core::mem::swap(&mut self.entries, &mut entries);
        match stale {
            Some(at) => {
                proof {
                    assert(old(self)@.at(at as int, text@));
                    old(self)@.lemma_slot_is_unique(at as int, text@);
                }
                entries.remove(at);
            },
            None => {
                proof {
                    assert(!old(self)@.contains(text@)) by {
                        if old(self)@.contains(text@) {
                            assert(old(self)@.at(old(self)@.slot(text@), text@));
                        }
                    }
                }
            },
        }
        let ghost kept = old(self)@.without(text@);
        assert(pairs(entries@) =~= kept);
        entries.push(Entry { key: text, outcome });
        assert(pairs(entries@) =~= kept.push((text@, outcome@)));
        if entries.len() > self.capacity {
            entries.remove(0);
        }
        assert(pairs(entries@) =~= old(self)@.recorded(text@, outcome@).entries);
        self.entries = entries;
    }
}

} // verus!
