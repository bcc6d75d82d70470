//! A keyed store from names to 64-bit values, modelled as a map.

use vstd::prelude::*;

verus! {

/// The map that a sequence of entries denotes; a later entry for a key
/// overrides an earlier one.
pub open spec fn map_of(s: Seq<(String, u64)>) -> Map<Seq<char>, u64>
    decreases s.len(),
{
    if s.len() == 0 {
        Map::empty()
    } else {
        map_of(s.drop_last()).insert(s.last().0@, s.last().1)
    }
}

/// The map of a sequence of entries has finitely many keys.
pub proof fn lemma_map_of_finite(s: Seq<(String, u64)>)
    ensures
        map_of(s).dom().finite(),
    decreases s.len(),
{
    if s.len() > 0 {
        lemma_map_of_finite(s.drop_last());
    }
}

/// Names mapped to values, such as pseudonyms to verifiers or user
/// identifiers to commitments.
#[derive(Debug, Clone, PartialEq, Eq)]
pub struct KeyedStore {
    entries: Vec<(String, u64)>,
}

impl View for KeyedStore {
    type V = Map<Seq<char>, u64>;

    closed spec fn view(&self) -> Map<Seq<char>, u64> {
        map_of(self.entries@)
    }
}

impl KeyedStore {
    /// A store holds finitely many names.
    pub proof fn lemma_finite(&self)
        ensures
            self@.dom().finite(),
    {
        lemma_map_of_finite(self.entries@);
    }

    /// An empty store.
    pub fn new() -> (r: KeyedStore)
        ensures
            r@ == Map::<Seq<char>, u64>::empty(),
    {
        KeyedStore { entries: Vec::new() }
    }

    /// The value stored under `key`, if any.
    pub fn get(&self, key: &str) -> (r: Option<u64>)
        ensures
            r == (if self@.contains_key(key@) { Some(self@[key@]) } else { None }),
    {
        let k = key.to_owned();
        let mut i: usize = self.entries.len();
        assert(self.entries@.subrange(0, i as int) =~= self.entries@);
        while i > 0
            invariant
                i <= self.entries@.len(),
                k@ == key@,
                map_of(self.entries@).contains_key(k@) == map_of(self.entries@.subrange(0, i as int)).contains_key(k@),
                map_of(self.entries@).contains_key(k@) ==> map_of(self.entries@)[k@] == map_of(
                    self.entries@.subrange(0, i as int),
                )[k@],
            decreases i,
        {
            proof {
                assert(self.entries@.subrange(0, i as int).drop_last() =~= self.entries@.subrange(0, i - 1));
            }
            if self.entries[i - 1].0 == k {
                return Some(self.entries[i - 1].1);
            }
            i = i - 1;
        }
        None
    }

    /// Whether a value is stored under `key`.
    pub fn contains(&self, key: &str) -> (r: bool)
        ensures
            r == self@.contains_key(key@),
    {
        self.get(key).is_some()
    }

    /// Removes the value stored under `key`, if any.
    pub fn remove(&mut self, key: &str)
        ensures
            final(self)@ == old(self)@.remove(key@),
    {
        let k = key.to_owned();
        let mut kept: Vec<(String, u64)> = Vec::new();
        let mut j: usize = 0;
        while j < self.entries.len()
            invariant
                j <= self.entries@.len(),
                k@ == key@,
                map_of(kept@) == map_of(self.entries@.subrange(0, j as int)).remove(k@),
            decreases self.entries@.len() - j,
        {
            proof {
                assert(self.entries@.subrange(0, j + 1).drop_last() =~= self.entries@.subrange(0, j as int));
            }
            if self.entries[j].0 != k {
                let name = self.entries[j].0.clone();
                let value = self.entries[j].1;
                proof {
                    assert(kept@.push((name, value)).drop_last() =~= kept@);
                    assert(map_of(kept@.push((name, value))) =~= map_of(self.entries@.subrange(0, j + 1)).remove(k@));
                }
                kept.push((name, value));
            } else {
                proof {
                    assert(map_of(kept@) =~= map_of(self.entries@.subrange(0, j + 1)).remove(k@));
                }
            }
            j = j + 1;
        }
        proof {
            assert(self.entries@.subrange(0, self.entries@.len() as int) =~= self.entries@);
        }
        self.entries = kept;
    }

    /// Stores `value` under `key`, replacing what was stored there.
    pub fn insert(&mut self, key: String, value: u64)
        ensures
            final(self)@ == old(self)@.insert(key@, value),
    {
        self.remove(key.as_str());
        let ghost before = self.entries@;
        self.entries.push((key, value));
        proof {
            assert(self.entries@.drop_last() =~= before);
            assert(map_of(self.entries@) =~= old(self)@.insert(key@, value));
        }
    }
}

} // verus!
