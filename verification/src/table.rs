//! A small table from names to values, in which every name stands once.
use vstd::prelude::*;

verus! {

/// A table from names to values. A name stands in it at most once; names come out in the order
/// in which they first went in.
#[derive(Debug)]
pub struct NameTable<V> {
    entries: Vec<(String, V)>,
}

/// The names after one was given a value: a name that stands there keeps its place, and a
/// new name goes to the end.
pub open spec fn names_after_insert(names: Seq<Seq<char>>, name: Seq<char>) -> Seq<Seq<char>> {
    if names.contains(name) {
        names
    } else {
        names.push(name)
    }
}

/// The names after one was taken out: the others keep their order.
pub open spec fn names_after_remove(names: Seq<Seq<char>>, name: Seq<char>) -> Seq<Seq<char>> {
    if names.contains(name) {
        names.remove(names.index_of(name))
    } else {
        names
    }
}

impl<V> NameTable<V> {
    /// The names of the table, in order.
    pub closed spec fn names(self) -> Seq<Seq<char>> {
        Seq::new(self.entries@.len(), |at: int| self.entries@[at].0@)
    }

    /// The values of the table, each at the place of its name in `names`.
    pub closed spec fn values(self) -> Seq<V> {
        Seq::new(self.entries@.len(), |at: int| self.entries@[at].1)
    }

    /// No name stands twice.
    #[verifier::type_invariant]
    pub closed spec fn distinct(self) -> bool {
        forall|i: int, j: int|
            0 <= i < j < self.entries@.len() ==> self.entries@[i].0@ != self.entries@[j].0@
    }

    /// The table as a map from each name to its value.
    pub open spec fn model(self) -> Map<Seq<char>, V> {
        Map::new(
            |name: Seq<char>| self.names().contains(name),
            |name: Seq<char>| self.values()[self.names().index_of(name)],
        )
    }

    /// The order of the names and the map agree: `names` has no name twice and the same length
    /// as `values`, and each name maps to the value at its place.
    pub proof fn lemma_names(self)
        requires
            self.distinct(),
        ensures
            self.names().no_duplicates(),
            self.names().len() == self.values().len(),
            self.names().to_set() == self.model().dom(),
            forall|at: int|
                0 <= at < self.names().len() ==> self.model()[#[trigger] self.names()[at]]
                    == self.values()[at],
    {
    }

    /// The empty table.
    pub fn new() -> (table: Self)
        ensures
            table.model() == Map::<Seq<char>, V>::empty(),
            table.names() == Seq::<Seq<char>>::empty(),
    {
        let table = NameTable { entries: Vec::new() };
        table
    }

    /// The number of names.
    pub fn len(&self) -> (len: usize)
        ensures
            len == self.names().len(),
    {
        self.entries.len()
    }

    /// Where `name` stands, if it stands in the table.
    fn find(&self, name: &str) -> (found: Option<usize>)
        ensures
            match found {
                Some(at) => at < self.names().len() && self.names()[at as int] == name@
                    && self.names().index_of(name@) == at,
                None => !self.names().contains(name@),
            },
    {
        proof {
            use_type_invariant(self);
        }
        let key: String = name.to_owned();
        let mut index: usize = 0;
        while index < self.entries.len()
            invariant
                index <= self.entries@.len(),
                key@ == name@,
                self.distinct(),
                forall|at: int| 0 <= at < index ==> self.names()[at] != name@,
            decreases self.entries@.len() - index,
        {
            if self.entries[index].0 == key {
                return Some(index);
            }
            index = index + 1;
        }
        None
    }

    /// The value of `name`, if the table has one.
    pub fn get(&self, name: &str) -> (value: Option<&V>)
        ensures
            match value {
                Some(value) => self.model().contains_key(name@) && self.model()[name@] == *value,
                None => !self.model().contains_key(name@),
            },
    {
        match self.find(name) {
            Some(at) => Some(&self.entries[at].1),
            None => None,
        }
    }

    /// The name at place `at`.
    pub fn name_at(&self, at: usize) -> (name: &String)
        requires
            at < self.names().len(),
        ensures
            name@ == self.names()[at as int],
    {
        &self.entries[at].0
    }

    /// The value at place `at`.
    pub fn value_at(&self, at: usize) -> (value: &V)
        requires
            at < self.names().len(),
        ensures
            *value == self.values()[at as int],
    {
        &self.entries[at].1
    }

    /// The names of the table, in order.
    pub fn name_list(&self) -> (names: Vec<String>)
        ensures
            names@.len() == self.names().len(),
            forall|at: int| 0 <= at < names@.len() ==> (#[trigger] names@[at])@ == self.names()[at],
    {
        let mut names: Vec<String> = Vec::new();
        let mut index: usize = 0;
        while index < self.entries.len()
            invariant
                index <= self.entries@.len(),
                names@.len() == index,
                forall|at: int| 0 <= at < index ==> (#[trigger] names@[at])@ == self.names()[at],
            decreases self.entries@.len() - index,
        {
            names.push(self.entries[index].0.clone());
            index = index + 1;
        }
        names
    }

    /// Gives `name` the value `value`. A name that the table has keeps its place; a new name
    /// goes to the end.
    pub fn insert(&mut self, name: &str, value: V)
        ensures
            final(self).model() == old(self).model().insert(name@, value),
            final(self).names() == names_after_insert(old(self).names(), name@),
    {
        proof {
            use_type_invariant(&*self);
        }
        let ghost before = *self;
        match self.find(name) {
            Some(at) => {
                let mut entries: Vec<(String, V)> = Vec::new();
                core::mem::swap(&mut self.entries, &mut entries);
                entries[at] = (name.to_owned(), value);
                self.entries = entries;
                assert(self.names() =~= before.names());
            },
            None => {
                let mut entries: Vec<(String, V)> = Vec::new();
                core::mem::swap(&mut self.entries, &mut entries);
                entries.push((name.to_owned(), value));
                assert forall|i: int, j: int| 0 <= i < j < entries@.len() implies entries@[i].0@
                    != entries@[j].0@ by {
                    assert(before.names()[i] == entries@[i].0@);
                }
                self.entries = entries;
                assert(self.names() =~= before.names().push(name@));
                assert(self.model() =~= before.model().insert(name@, value)) by {
                    assert forall|key: Seq<char>|
                        before.names().contains(key) implies self.names().contains(key) by {
                        let there = before.names().index_of(key);
                        assert(self.names()[there] == key);
                    }
                    assert(self.names()[before.names().len() as int] == name@);
                }
            },
        }
    }

    /// Takes `name` out of the table, if it stands there. The other names keep their order.
    pub fn remove(&mut self, name: &str)
        ensures
            final(self).model() == old(self).model().remove(name@),
            final(self).names() == names_after_remove(old(self).names(), name@),
    {
        proof {
            use_type_invariant(&*self);
        }
        let ghost before = *self;
        match self.find(name) {
            Some(at) => {
                let mut entries: Vec<(String, V)> = Vec::new();
                core::mem::swap(&mut self.entries, &mut entries);
                let _ = entries.remove(at);
                self.entries = entries;
                assert(self.names() =~= before.names().remove(at as int));
                assert(self.model() =~= before.model().remove(name@)) by {
                    assert forall|key: Seq<char>|
                        before.names().contains(key) && key != name@ implies self.names().contains(
                        key,
                    ) by {
                        let there = before.names().index_of(key);
                        let here = if there < at {
                            there
                        } else {
                            there - 1
                        };
                        assert(self.names()[here] == key);
                    }
                }
            },
            None => {},
        }
    }
}

impl<V: Clone> Clone for NameTable<V> {
    /// A table of the same names in the same order, each with a clone of its value.
    fn clone(&self) -> (copy: Self)
        ensures
            copy.names() == self.names(),
            copy.values().len() == self.values().len(),
            forall|at: int|
                0 <= at < self.values().len() ==> cloned(
                    #[trigger] self.values()[at],
                    copy.values()[at],
                ),
    {
        proof {
            use_type_invariant(self);
        }
        let mut entries: Vec<(String, V)> = Vec::new();
        let mut index: usize = 0;
        while index < self.entries.len()
            invariant
                index <= self.entries@.len(),
                self.distinct(),
                entries@.len() == index,
                forall|at: int| 0 <= at < index ==> entries@[at].0@ == self.entries@[at].0@,
                forall|at: int|
                    0 <= at < index ==> cloned(#[trigger] self.entries@[at].1, entries@[at].1),
            decreases self.entries@.len() - index,
        {
            let name: String = self.entries[index].0.clone();
            let value: V = self.entries[index].1.clone();
            entries.push((name, value));
            index = index + 1;
        }
        NameTable { entries }
    }
}

} // verus!
