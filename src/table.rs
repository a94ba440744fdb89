//! Name-keyed tables and name sets backed by vectors.
//!
//! Metric names are compared as character sequences. A table keeps its keys
//! in the order in which they were first inserted; the same holds for a set.
use vstd::prelude::*;

verus! {

/// Maps each metric name to one value, keeping names in first-insertion order.
pub struct NameTable<V> {
    names: Vec<String>,
    values: Vec<V>,
    model: Ghost<Map<Seq<char>, V>>,
}

impl<V: Copy> NameTable<V> {
    /// The names held, in first-insertion order.
    pub closed spec fn keys(&self) -> Seq<Seq<char>> {
        self.names@.map_values(|s: String| s@)
    }

    /// The value held under each name.
    pub closed spec fn map(&self) -> Map<Seq<char>, V> {
        self.model@
    }

    pub closed spec fn wf(&self) -> bool {
        &&& self.names@.len() == self.values@.len()
        &&& self.keys().no_duplicates()
        &&& forall|i: int| 0 <= i < self.keys().len() ==> #[trigger] self.map()[self.keys()[i]] == self.values@[i]
        &&& forall|k: Seq<char>| #[trigger] self.map().contains_key(k) <==> self.keys().contains(k)
    }

    /// A well-formed table's keys are its map's domain, without repetition.
    pub proof fn lemma_keyed(&self)
        requires
            self.wf(),
        ensures
            self.keys().no_duplicates(),
            forall|k: Seq<char>| #[trigger] self.map().contains_key(k) <==> self.keys().contains(k),
    {
    }

    pub fn new() -> (r: Self)
        ensures
            r.wf(),
            r.keys() == Seq::<Seq<char>>::empty(),
            r.map() == Map::<Seq<char>, V>::empty(),
    {
        let r = NameTable { names: Vec::new(), values: Vec::new(), model: Ghost(Map::empty()) };
        assert(r.keys() =~= Seq::<Seq<char>>::empty());
        r
    }

    /// The names held, in first-insertion order.
    pub fn names(&self) -> (r: &Vec<String>)
        ensures
            r@.map_values(|s: String| s@) == self.keys(),
    {
        &self.names
    }

    /// Position of `name` among the keys, if present.
    fn find(&self, name: &String) -> (r: Option<usize>)
        requires
            self.wf(),
        ensures
            r is None ==> !self.keys().contains(name@),
            r matches Some(i) ==> i < self.keys().len() && self.keys()[i as int] == name@,
    {
        let mut i: usize = 0;
        while i < self.names.len()
            invariant
                self.wf(),
                i <= self.keys().len(),
                forall|j: int| 0 <= j < i ==> self.keys()[j] != name@,
            decreases self.names.len() - i,
        {
            if self.names[i] == *name {
                return Some(i);
            }
            i = i + 1;
        }
        None
    }

    pub fn get(&self, name: &String) -> (r: Option<V>)
        requires
            self.wf(),
        ensures
            r == (if self.map().contains_key(name@) {
                Some(self.map()[name@])
            } else {
                None::<V>
            }),
    {
        match self.find(name) {
            Some(i) => Some(self.values[i]),
            None => None,
        }
    }

    /// Sets the value under `name`, adding the name at the end if it is new.
    pub fn upsert(&mut self, name: String, v: V)
        requires
            old(self).wf(),
        ensures
            final(self).wf(),
            final(self).map() == old(self).map().insert(name@, v),
            final(self).keys() == (if old(self).keys().contains(name@) {
                old(self).keys()
            } else {
                old(self).keys().push(name@)
            }),
    {
        let ghost k = name@;
        match self.find(&name) {
            Some(i) => {
                self.values.set(i, v);
                self.model = Ghost(self.model@.insert(k, v));
                assert(self.keys() == old(self).keys());
                assert forall|j: int| 0 <= j < self.keys().len() implies #[trigger] self.map()[self.keys()[j]] == self.values@[j] by {
                    if j != i {
                        assert(old(self).keys()[j] != old(self).keys()[i as int]);
                        assert(old(self).map()[old(self).keys()[j]] == old(self).values@[j]);
                    }
                }
                assert forall|q: Seq<char>| #[trigger] self.map().contains_key(q) <==> self.keys().contains(q) by {
                    assert(old(self).map().contains_key(q) <==> old(self).keys().contains(q));
                    if q == k {
                        assert(self.keys()[i as int] == k);
                    }
                }
            },
            None => {
                let ghost old_keys = self.keys();
                self.names.push(name);
                self.values.push(v);
                self.model = Ghost(self.model@.insert(k, v));
                assert(self.keys() =~= old_keys.push(k));
                assert forall|j: int| 0 <= j < self.keys().len() implies #[trigger] self.map()[self.keys()[j]] == self.values@[j] by {
                    if j < old_keys.len() {
                        assert(old_keys[j] == old(self).keys()[j]);
                        assert(old(self).map()[old_keys[j]] == old(self).values@[j]);
                        assert(old_keys.contains(old_keys[j]));
                        assert(old_keys[j] != k);
                    } else {
                        assert(self.keys()[j] == k);
                    }
                }
                assert forall|q: Seq<char>| #[trigger] self.map().contains_key(q) <==> self.keys().contains(q) by {
                    assert(old(self).map().contains_key(q) <==> old(self).keys().contains(q));
                    if q == k {
                        assert(self.keys()[old_keys.len() as int] == k);
                    } else if old_keys.contains(q) {
                        let w = choose|w: int| 0 <= w < old_keys.len() && old_keys[w] == q;
                        assert(self.keys()[w] == q);
                    }
                }
            },
        }
    }
}

/// A set of metric names, kept in first-insertion order.
pub struct NameSet {
    names: Vec<String>,
}

impl NameSet {
    /// The names held, in first-insertion order.
    pub closed spec fn elems(&self) -> Seq<Seq<char>> {
        self.names@.map_values(|s: String| s@)
    }

    pub closed spec fn wf(&self) -> bool {
        self.elems().no_duplicates()
    }

    /// A well-formed set holds no name twice.
    pub proof fn lemma_distinct(&self)
        requires
            self.wf(),
        ensures
            self.elems().no_duplicates(),
    {
    }

    pub fn new() -> (r: Self)
        ensures
            r.wf(),
            r.elems() == Seq::<Seq<char>>::empty(),
    {
        let r = NameSet { names: Vec::new() };
        assert(r.elems() =~= Seq::<Seq<char>>::empty());
        r
    }

    /// The names held, in first-insertion order.
    pub fn names(&self) -> (r: &Vec<String>)
        ensures
            r@.map_values(|s: String| s@) == self.elems(),
    {
        &self.names
    }

    /// Adds `name` at the end unless it is already present.
    pub fn insert(&mut self, name: String)
        requires
            old(self).wf(),
        ensures
            final(self).wf(),
            final(self).elems() == (if old(self).elems().contains(name@) {
                old(self).elems()
            } else {
                old(self).elems().push(name@)
            }),
    {
        let mut i: usize = 0;
        while i < self.names.len()
            invariant
                self.wf(),
                self.elems() == old(self).elems(),
                i <= self.elems().len(),
                forall|j: int| 0 <= j < i ==> self.elems()[j] != name@,
            decreases self.names.len() - i,
        {
            if self.names[i] == name {
                assert(self.elems()[i as int] == name@);
                return;
            }
            i = i + 1;
        }
        let ghost old_elems = self.elems();
        self.names.push(name);
        assert(self.elems() =~= old_elems.push(name@));
    }

    /// Removes every name.
    pub fn clear(&mut self)
        ensures
            final(self).wf(),
            final(self).elems() == Seq::<Seq<char>>::empty(),
    {
        self.names = Vec::new();
        assert(self.elems() =~= Seq::<Seq<char>>::empty());
    }
}

} // verus!
