//! A small map from names to values that keeps the order in which the names
//! were first inserted.

use vstd::prelude::*;

verus! {

/// The map that a list of names and a list of values of the same length
/// stand for: each name is bound to the value at the position of the name.
pub open spec fn table<T>(names: Seq<Seq<char>>, values: Seq<T>) -> Map<Seq<char>, T> {
    Map::new(|k: Seq<char>| names.contains(k), |k: Seq<char>| values[names.index_of(k)])
}

/// In a list without repetition, the name at position `i` is bound to the
/// value at position `i`.
pub proof fn lemma_table_at<T>(names: Seq<Seq<char>>, values: Seq<T>, i: int)
    requires
        names.no_duplicates(),
        0 <= i < names.len(),
    ensures
        table(names, values).contains_key(names[i]),
        table(names, values)[names[i]] == values[i],
{
}

/// Appending a fresh name binds it and leaves the rest alone.
pub proof fn lemma_table_push<T>(names: Seq<Seq<char>>, values: Seq<T>, k: Seq<char>, v: T)
    requires
        names.no_duplicates(),
        names.len() == values.len(),
        !names.contains(k),
    ensures
        names.push(k).no_duplicates(),
        table(names.push(k), values.push(v)) == table(names, values).insert(k, v),
{
    let n2 = names.push(k);
    let v2 = values.push(v);
    assert forall|x: Seq<char>| #[trigger] n2.contains(x) <==> (names.contains(x) || x == k) by {
        if names.contains(x) {
            let j = names.index_of(x);
            assert(n2[j] == x);
        }
        if x == k {
            assert(n2[names.len() as int] == x);
        }
    }
    assert forall|x: Seq<char>| n2.contains(x) implies #[trigger] table(n2, v2)[x] == table(
        names,
        values,
    ).insert(k, v)[x] by {
    }
}

/// Taking out position `i` unbinds the name at position `i`.
pub proof fn lemma_table_remove<T>(names: Seq<Seq<char>>, values: Seq<T>, i: int)
    requires
        names.no_duplicates(),
        names.len() == values.len(),
        0 <= i < names.len(),
    ensures
        names.remove(i).no_duplicates(),
        table(names.remove(i), values.remove(i)) == table(names, values).remove(names[i]),
{
    let n2 = names.remove(i);
    let v2 = values.remove(i);
    assert forall|x: Seq<char>| #[trigger] n2.contains(x) <==> (names.contains(x) && x != names[i]) by {
        if names.contains(x) && x != names[i] {
            let j = names.index_of(x);
            if j < i {
                assert(n2[j] == x);
            } else {
                assert(n2[j - 1] == x);
            }
        }
    }
    assert forall|x: Seq<char>| n2.contains(x) implies #[trigger] table(n2, v2)[x] == table(
        names,
        values,
    ).remove(names[i])[x] by {
    }
}

/// The names of a list of entries, in order.
pub open spec fn names_of<V: View>(entries: Seq<(String, V)>) -> Seq<Seq<char>> {
    entries.map_values(|e: (String, V)| e.0@)
}

/// The values of a list of entries, in order.
pub open spec fn values_of<V: View>(entries: Seq<(String, V)>) -> Seq<V::V> {
    entries.map_values(|e: (String, V)| e.1@)
}

/// A map from names to values, kept as a list of entries in which no name
/// occurs twice.
#[derive(Debug)]
pub struct NameMap<V: View> {
    entries: Vec<(String, V)>,
}

impl<V: View> NameMap<V> {
    #[verifier::type_invariant]
    spec fn distinct(self) -> bool {
        self.names().no_duplicates()
    }

    /// The names in the order in which they entered the map.
    pub closed spec fn names(self) -> Seq<Seq<char>> {
        names_of(self.entries@)
    }

    /// The values, each at the position of its name.
    pub closed spec fn values(self) -> Seq<V::V> {
        values_of(self.entries@)
    }

    /// The map is the one that its names and values stand for.
    pub proof fn lemma_view(&self)
        ensures
            self.names().len() == self.values().len(),
            self@ == table(self.names(), self.values()),
    {
    }

    /// A map that binds no name.
    pub fn new() -> (m: Self)
        ensures
            m@ == Map::<Seq<char>, V::V>::empty(),
            m.names() == Seq::<Seq<char>>::empty(),
    {
        let m = NameMap { entries: Vec::new() };
        m
    }

    /// The number of names. No name occurs twice among them, so it is the
    /// number of bindings of the map.
    pub fn len(&self) -> (n: usize)
        ensures
            n == self.names().len(),
            self.names().no_duplicates(),
            self@.dom().finite(),
            n == self@.dom().len(),
    {
        proof {
            use_type_invariant(self);
            self.names().unique_seq_to_set();
        }
        self.entries.len()
    }

    /// The name at position `i`.
    pub fn name_at(&self, i: usize) -> (name: &String)
        requires
            i < self.names().len(),
        ensures
            name@ == self.names()[i as int],
            self@.contains_key(name@),
    {
        proof {
            use_type_invariant(self);
        }
        &self.entries[i].0
    }

    /// The value at position `i`.
    pub fn value_at(&self, i: usize) -> (value: &V)
        requires
            i < self.names().len(),
        ensures
            value@ == self.values()[i as int],
            value@ == self@[self.names()[i as int]],
    {
        proof {
            use_type_invariant(self);
        }
        &self.entries[i].1
    }

    /// The position of `name` among the names, if it is bound.
    fn position(&self, name: &str) -> (at: Option<usize>)
        ensures
            match at {
                Some(i) => i < self.names().len() && self.names()[i as int] == name@,
                None => !self.names().contains(name@),
            },
    {
        let mut i: usize = 0;
        while i < self.entries.len()
            invariant
                i <= self.entries.len(),
                forall|j: int| 0 <= j < i ==> self.names()[j] != name@,
            decreases self.entries.len() - i,
        {
            if crate::text::same_text(self.entries[i].0.as_str(), name) {
                return Some(i);
            }
            i += 1;
        }
        None
    }

    /// Whether `name` is bound.
    pub fn contains_key(&self, name: &str) -> (bound: bool)
        ensures
            bound == self@.contains_key(name@),
    {
        self.position(name).is_some()
    }

    /// The value bound to `name`, if there is one.
    pub fn get(&self, name: &str) -> (value: Option<&V>)
        ensures
            match value {
                Some(v) => self@.contains_key(name@) && self@[name@] == v@,
                None => !self@.contains_key(name@),
            },
    {
        match self.position(name) {
            Some(i) => {
                proof {
                    use_type_invariant(self);
                }
                Some(&self.entries[i].1)
            },
            None => None,
        }
    }

    /// Binds `name` to `value`. A name that was bound keeps its position; a
    /// new name goes to the end.
    pub fn insert(&mut self, name: String, value: V)
        ensures
            final(self)@ == old(self)@.insert(name@, value@),
            final(self).names() == if old(self).names().contains(name@) {
                old(self).names()
            } else {
                old(self).names().push(name@)
            },
            final(self).values() == if old(self).names().contains(name@) {
                old(self).values().update(old(self).names().index_of(name@), value@)
            } else {
                old(self).values().push(value@)
            },
    {
        proof {
            use_type_invariant(&*self);
        }
        let ghost names = self.names();
        let ghost values = self.values();
        let at = self.position(name.as_str());
        let mut entries: Vec<(String, V)> = Vec::new();
        std::mem::swap(&mut entries, &mut self.entries);
        match at {
            Some(i) => {
                entries.set(i, (name, value));
                assert(names_of(entries@) =~= names);
                self.entries = entries;
            },
            None => {
                proof {
                    lemma_table_push(names, values, name@, value@);
                }
                entries.push((name, value));
                assert(names_of(entries@) =~= names.push(name@));
                self.entries = entries;
            },
        }
    }

    /// Unbinds `name`; the other names keep their order.
    pub fn remove(&mut self, name: &str)
        ensures
            final(self)@ == old(self)@.remove(name@),
    {
        proof {
            use_type_invariant(&*self);
        }
        let ghost names = self.names();
        let ghost values = self.values();
        match self.position(name) {
            Some(i) => {
                proof {
                    lemma_table_remove(names, values, i as int);
                }
                let mut entries: Vec<(String, V)> = Vec::new();
                std::mem::swap(&mut entries, &mut self.entries);
                entries.remove(i);
                assert(names_of(entries@) =~= names.remove(i as int));
                self.entries = entries;
            },
            None => {
            },
        }
    }
}

impl<V: View> View for NameMap<V> {
    type V = Map<Seq<char>, V::V>;

    closed spec fn view(&self) -> Map<Seq<char>, V::V> {
        table(self.names(), self.values())
    }
}

/// A value of which a copy can be made that stands for the same.
pub trait Replicate: View + Sized {
    /// A copy that stands for the same as `self`.
    fn replicate(&self) -> (copy: Self)
        ensures
            copy@ == self@,
    ;
}

impl Replicate for String {
    fn replicate(&self) -> (copy: String) {
        self.clone()
    }
}

impl<V: Replicate> Clone for NameMap<V> {
    fn clone(&self) -> (copy: Self)
        ensures
            copy@ == self@,
            copy.names() == self.names(),
    {
        let mut copy: NameMap<V> = NameMap::new();
        proof {
            copy.lemma_view();
        }
        let mut i: usize = 0;
        while i < self.len()
            invariant
                i <= self.names().len(),
                copy.names() == self.names().take(i as int),
                copy.values() == self.values().take(i as int),
            decreases self.names().len() - i,
        {
            let name = self.name_at(i).clone();
            let value = self.value_at(i).replicate();
            copy.insert(name, value);
            i += 1;
        }
        assert(self.names().take(i as int) =~= self.names());
        copy
    }
}

} // verus!
