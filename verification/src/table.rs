//! Tables in which every entry has a name of its own.

use crate::text::{entry_name, lemma_first_free, lemma_taken_count, suffix, suffixed};
use vstd::hash_map::StringHashMap;
use vstd::prelude::*;

verus! {

/// A table of named entries.
#[verifier::reject_recursive_types(V)]
pub struct Table<V> {
    map: StringHashMap<V>,
}

impl<V> View for Table<V> {
    type V = Map<Seq<char>, V>;

    closed spec fn view(&self) -> Map<Seq<char>, V> {
        self.map@
    }
}

impl<V> Table<V> {
    #[verifier::type_invariant]
    spec fn finite(self) -> bool {
        self.map@.dom().finite()
    }

    /// A table without entries.
    pub fn new() -> (r: Table<V>)
        ensures
            r@ == Map::<Seq<char>, V>::empty(),
    {
        let map = StringHashMap::new();
        assert(map@.dom() =~= Set::empty());
        Table { map }
    }

    /// The number of entries.
    pub fn len(&self) -> (r: usize)
        ensures
            r == self@.len(),
    {
        self.map.len()
    }

    /// Is there an entry of that name?
    pub fn contains_key(&self, name: &str) -> (r: bool)
        ensures
            r == self@.contains_key(name@),
    {
        self.map.contains_key(name)
    }

    /// The entry of a name.
    pub fn get(&self, name: &str) -> (r: Option<&V>)
        ensures
            match r {
                Some(value) => self@.contains_key(name@) && *value == self@[name@],
                None => !self@.contains_key(name@),
            },
    {
        self.map.get(name)
    }

    /// Adds an entry, or replaces the one of that name.
    pub fn insert(&mut self, name: String, value: V)
        ensures
            final(self)@ == old(self)@.insert(name@, value),
            final(self)@.len() == (if old(self)@.contains_key(name@) {
                old(self)@.len()
            } else {
                old(self)@.len() + 1
            }),
    {
        proof {
            use_type_invariant(&*self);
        }
        let mut map = StringHashMap::new();
        assert(map@.dom() =~= Set::empty());
        std::mem::swap(&mut self.map, &mut map);
        map.insert(name, value);
        assert(map@.dom() =~= old(self)@.dom().insert(name@));
        self.map = map;
    }

    /// The name that a new entry gets, which no entry has: the one that is asked
    /// for, or that with a number behind it.
    pub fn free_name(&self, name: String) -> (r: String)
        ensures
            r@ == entry_name(self@.dom(), name@),
            !self@.contains_key(r@),
            self@.dom().finite(),
    {
        proof {
            use_type_invariant(self);
        }
        if !self.map.contains_key(name.as_str()) {
            return name;
        }
        let size: u128 = self.map.len() as u128;
        let mut number: u128 = size;
        let mut r = suffix(name.as_str(), number);
        while self.map.contains_key(r.as_str())
            invariant
                self@.dom().finite(),
                self@ == self.map@,
                size == self@.len(),
                size <= usize::MAX,
                size <= number,
                number - size <= size,
                r@ == suffixed(name@, number as nat),
                forall|j: nat|
                    size <= j < number ==> self@.contains_key(#[trigger] suffixed(name@, j)),
            decreases 2 * size - number,
        {
            proof {
                lemma_taken_count(
                    self@.dom(),
                    name@,
                    size as nat,
                    (number + 1 - size) as nat,
                );
            }
            number = number + 1;
            r = suffix(name.as_str(), number);
        }
        proof {
            lemma_first_free(self@.dom(), name@, number as nat);
        }
        r
    }
}

} // verus!
