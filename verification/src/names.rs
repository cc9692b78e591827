//! A table from names to values.

use vstd::prelude::*;

verus! {

/// The names of a sequence of entries, in order.
pub open spec fn names_of<V>(entries: Seq<(String, V)>) -> Seq<Seq<char>> {
    entries.map_values(|e: (String, V)| e.0@)
}

/// The mapping that a sequence of entries with distinct names stands for.
pub open spec fn mapping_of<V>(entries: Seq<(String, V)>) -> Map<Seq<char>, V> {
    Map::new(
        |k: Seq<char>| names_of(entries).contains(k),
        |k: Seq<char>| entries[names_of(entries).index_of(k)].1,
    )
}

proof fn lemma_mapping_at<V>(entries: Seq<(String, V)>, i: int)
    requires
        names_of(entries).no_duplicates(),
        0 <= i < entries.len(),
    ensures
        mapping_of(entries).contains_key(entries[i].0@),
        mapping_of(entries)[entries[i].0@] == entries[i].1,
{
    let names = names_of(entries);
    assert(names[i] == entries[i].0@);
    assert(names.contains(entries[i].0@));
    let j = names.index_of(entries[i].0@);
    assert(names[j] == names[i]);
}

proof fn lemma_mapping_push<V>(entries: Seq<(String, V)>, name: String, value: V)
    requires
        names_of(entries).no_duplicates(),
        !names_of(entries).contains(name@),
    ensures
        names_of(entries.push((name, value))).no_duplicates(),
        mapping_of(entries.push((name, value))) == mapping_of(entries).insert(name@, value),
{
    let after = entries.push((name, value));
    let names = names_of(entries);
    let names_after = names_of(after);
    assert(names_after =~= names.push(name@));
    assert forall|i: int, j: int|
        0 <= i < names_after.len() && 0 <= j < names_after.len() && i != j implies names_after[i]
        != names_after[j] by {
        if i < names.len() {
            assert(names.contains(names[i]));
        }
        if j < names.len() {
            assert(names.contains(names[j]));
        }
    }
    assert forall|k: Seq<char>| names_after.contains(k) <==> (k == name@ || names.contains(k)) by {
        if names.contains(k) {
            let i = names.index_of(k);
            assert(names_after[i] == k);
        }
        if k == name@ {
            assert(names_after[names.len() as int] == k);
        }
    }
    assert forall|k: Seq<char>| names_after.contains(k) implies #[trigger] mapping_of(after)[k]
        == mapping_of(entries).insert(name@, value)[k] by {
        let i = names_after.index_of(k);
        lemma_mapping_at(after, i);
        if k != name@ {
            assert(i < names.len());
            lemma_mapping_at(entries, i);
        }
    }
    assert(mapping_of(after) =~= mapping_of(entries).insert(name@, value));
}

proof fn lemma_mapping_update<V>(entries: Seq<(String, V)>, i: int, name: String, value: V)
    requires
        names_of(entries).no_duplicates(),
        0 <= i < entries.len(),
        entries[i].0@ == name@,
    ensures
        names_of(entries.update(i, (name, value))).no_duplicates(),
        names_of(entries.update(i, (name, value))) == names_of(entries),
        mapping_of(entries.update(i, (name, value))) == mapping_of(entries).insert(name@, value),
{
    let after = entries.update(i, (name, value));
    assert(names_of(after) =~= names_of(entries));
    lemma_mapping_at(entries, i);
    assert forall|k: Seq<char>| names_of(after).contains(k) implies #[trigger] mapping_of(after)[k]
        == mapping_of(entries).insert(name@, value)[k] by {
        let names = names_of(entries);
        let j = names.index_of(k);
        assert(names[j] == k);
        assert(names[i] == name@);
        lemma_mapping_at(after, j);
        if j != i {
            lemma_mapping_at(entries, j);
        }
    }
    assert(mapping_of(after) =~= mapping_of(entries).insert(name@, value));
}

proof fn lemma_mapping_len<V>(entries: Seq<(String, V)>)
    requires
        names_of(entries).no_duplicates(),
    ensures
        mapping_of(entries).dom().finite(),
        mapping_of(entries).dom().len() == entries.len(),
{
    let names = names_of(entries);
    assert(mapping_of(entries).dom() =~= names.to_set());
    vstd::seq_lib::seq_to_set_is_finite(names);
    names.unique_seq_to_set();
}

/// A table from names to values that holds each name once.
///
/// Storing under a name that is present replaces its value and keeps the
/// entry's place; a new name is put last. Two tables are `==` when they list
/// the same entries in the same order.
#[derive(Debug, PartialEq, Eq)]
pub struct NameMap<V> {
    entries: Vec<(String, V)>,
}

impl<V> NameMap<V> {
    #[verifier::type_invariant]
    spec fn distinct_names(&self) -> bool {
        names_of(self.entries@).no_duplicates()
    }
}

impl<V: Copy> Clone for NameMap<V> {
    fn clone(&self) -> (copy: Self)
        ensures
            copy@ == self@,
            copy.listing() == self.listing(),
    {
        proof {
            use_type_invariant(self);
        }
        let mut entries: Vec<(String, V)> = Vec::new();
        let mut i: usize = 0;
        while i < self.entries.len()
            invariant
                i <= self.entries@.len(),
                entries@ == self.entries@.subrange(0, i as int),
            decreases self.entries@.len() - i,
        {
            let name = self.entries[i].0.clone();
            entries.push((name, self.entries[i].1));
            assert(entries@ =~= self.entries@.subrange(0, i + 1));
            i += 1;
        }
        assert(entries@ =~= self.entries@);
        NameMap { entries }
    }
}

impl<V> View for NameMap<V> {
    type V = Map<Seq<char>, V>;

    closed spec fn view(&self) -> Map<Seq<char>, V> {
        mapping_of(self.entries@)
    }
}

impl<V> NameMap<V> {
    /// The entries in the order in which their names were first stored.
    pub closed spec fn listing(&self) -> Seq<(String, V)> {
        self.entries@
    }
}

impl<V: Copy> NameMap<V> {
    /// A table without entries.
    pub fn new() -> (table: Self)
        ensures
            table@ == Map::<Seq<char>, V>::empty(),
            table.listing().len() == 0,
    {
        let table = NameMap { entries: Vec::new() };
        assert(table@ =~= Map::<Seq<char>, V>::empty());
        table
    }

    /// The place of `name` among the entries.
    fn position(&self, name: &str) -> (found: Option<usize>)
        ensures
            match found {
                Some(i) => i < self.entries@.len() && self.entries@[i as int].0@ == name@,
                None => !names_of(self.entries@).contains(name@),
            },
    {
        let mut i: usize = 0;
        while i < self.entries.len()
            invariant
                i <= self.entries@.len(),
                forall|j: int| 0 <= j < i ==> self.entries@[j].0@ != name@,
            decreases self.entries@.len() - i,
        {
            if crate::text::same_text(self.entries[i].0.as_str(), name) {
                return Some(i);
            }
            i += 1;
        }
        None
    }

    /// Stores `value` under `name`, in place of the value that the name had.
    /// A name that is present keeps its place in the listing; a new name is
    /// put last.
    pub fn insert(&mut self, name: String, value: V)
        ensures
            final(self)@ == old(self)@.insert(name@, value),
            old(self)@.contains_key(name@) ==> final(self).listing() == old(self).listing().update(
                names_of(old(self).listing()).index_of(name@),
                (name, value),
            ),
            !old(self)@.contains_key(name@) ==> final(self).listing() == old(self).listing().push(
                (name, value),
            ),
    {
        proof {
            use_type_invariant(&*self);
        }
        let found = self.position(name.as_str());
        proof {
            if let Some(i) = found {
                let names = names_of(self.entries@);
                assert(names[i as int] == name@);
                assert(names[names.index_of(name@)] == name@);
            }
        }
        let mut entries: Vec<(String, V)> = Vec::new();
        assert(names_of(entries@) =~= Seq::<Seq<char>>::empty());
        core::mem::swap(&mut self.entries, &mut entries);
        match found {
            Some(i) => {
                proof {
                    lemma_mapping_update(entries@, i as int, name, value);
                }
                entries.set(i, (name, value));
            },
            None => {
                proof {
                    lemma_mapping_push(entries@, name, value);
                }
                entries.push((name, value));
            },
        }
        self.entries = entries;
    }

    /// The value stored under `name`, if there is one.
    pub fn get(&self, name: &str) -> (value: Option<V>)
        ensures
            value == (if self@.contains_key(name@) {
                Some(self@[name@])
            } else {
                None
            }),
    {
        proof {
            use_type_invariant(self);
        }
        match self.position(name) {
            Some(i) => {
                proof {
                    lemma_mapping_at(self.entries@, i as int);
                }
                Some(self.entries[i].1)
            },
            None => None,
        }
    }

    /// The entries, each name once, in the order of the listing.
    pub fn entries(&self) -> (list: &Vec<(String, V)>)
        ensures
            list@ == self.listing(),
            names_of(list@).no_duplicates(),
            self@ == mapping_of(list@),
    {
        proof {
            use_type_invariant(self);
        }
        &self.entries
    }

    /// The number of names in the table.
    pub fn len(&self) -> (n: usize)
        ensures
            self@.dom().finite(),
            n == self@.dom().len(),
            n == self.listing().len(),
    {
        proof {
            use_type_invariant(self);
            lemma_mapping_len(self.entries@);
        }
        self.entries.len()
    }
}

} // verus!
