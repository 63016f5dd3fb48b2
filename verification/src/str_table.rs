//! A table keyed by text whose values can be changed in place.
use vstd::hash_map::StringHashMap;
use vstd::prelude::*;

verus! {

/// Values of type `V` under text keys. A hash index finds the slot of a key.
#[verifier::reject_recursive_types(V)]
pub struct StrTable<V> {
    index: StringHashMap<usize>,
    slots: Vec<V>,
}

impl<V> View for StrTable<V> {
    type V = Map<Seq<char>, V>;

    closed spec fn view(&self) -> Map<Seq<char>, V> {
        Map::new(
            |key: Seq<char>| self.index@.dom().contains(key),
            |key: Seq<char>| self.slots@[self.index@[key] as int],
        )
    }
}

impl<V> StrTable<V> {
    /// Every key has a slot of its own.
    pub closed spec fn wf(&self) -> bool {
        &&& forall|key: Seq<char>| #[trigger]
            self.index@.dom().contains(key) ==> self.index@[key] < self.slots@.len()
        &&& forall|one: Seq<char>, two: Seq<char>|
            #![trigger self.index@[one], self.index@[two]]
            self.index@.dom().contains(one) && self.index@.dom().contains(two)
                && self.index@[one] == self.index@[two] ==> one == two
    }

    pub fn new() -> (table: Self)
        ensures
            table.wf(),
            table@ == Map::<Seq<char>, V>::empty(),
    {
        let table = StrTable { index: StringHashMap::new(), slots: Vec::new() };
        assert(table@ =~= Map::<Seq<char>, V>::empty());
        table
    }

    pub fn get(&self, key: &str) -> (value: Option<&V>)
        requires
            self.wf(),
        ensures
            match value {
                Some(v) => self@.dom().contains(key@) && *v == self@[key@],
                None => !self@.dom().contains(key@),
            },
    {
        match self.index.get(key) {
            Some(at) => Some(&self.slots[*at]),
            None => None,
        }
    }

    /// The value under `key`, to be changed in place.
    pub fn get_mut(&mut self, key: &str) -> (value: Option<&mut V>)
        requires
            old(self).wf(),
        ensures
            match value {
                Some(v) => {
                    &&& old(self)@.dom().contains(key@)
                    &&& *v == old(self)@[key@]
                    &&& final(self).wf()
                    &&& final(self)@ == old(self)@.insert(key@, *final(v))
                },
                None => !old(self)@.dom().contains(key@) && *final(self) == *old(self),
            },
    {
        match self.index.get(key) {
            Some(at) => {
                let at: usize = *at;
                let value = &mut self.slots[at];
                assert(after_borrow(self)@ =~= old(self)@.insert(key@, *final(value)));
                Some(value)
            },
            None => None,
        }
    }

    /// Files `value` under a key that the table does not hold.
    pub fn insert_new(&mut self, key: String, value: V)
        requires
            old(self).wf(),
            !old(self)@.dom().contains(key@),
        ensures
            final(self).wf(),
            final(self)@ == old(self)@.insert(key@, value),
    {
        let at: usize = self.slots.len();
        self.index.insert(key, at);
        self.slots.push(value);
        assert(self@ =~= old(self)@.insert(key@, value));
    }
}

} // verus!
