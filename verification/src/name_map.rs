//! A map from names to values that remembers the order in which the names came.

use vstd::prelude::*;
use crate::text::same_text;

verus! {

/// A map from names to values. No name occurs twice, and the names keep the
/// order in which they were first put in.
#[derive(Debug)]
pub struct NameMap<T> {
    items: Vec<(String, T)>,
}

impl<T> View for NameMap<T> {
    type V = Map<Seq<char>, T>;

    open spec fn view(&self) -> Map<Seq<char>, T> {
        Map::new(
            |name: Seq<char>| self.names().contains(name),
            |name: Seq<char>| self.values()[self.names().index_of(name)],
        )
    }
}

impl<T> NameMap<T> {
    /// The names, in the order in which they came.
    pub closed spec fn names(&self) -> Seq<Seq<char>> {
        Seq::new(self.items@.len(), |i: int| self.items@[i].0@)
    }

    /// The values, each at the place of its name.
    pub closed spec fn values(&self) -> Seq<T> {
        Seq::new(self.items@.len(), |i: int| self.items@[i].1)
    }

    #[verifier::type_invariant]
    closed spec fn names_are_distinct(self) -> bool {
        self.names().no_duplicates()
    }

    /// The map with nothing in it.
    pub fn new() -> (r: Self)
        ensures
            r@ == Map::<Seq<char>, T>::empty(),
            r.names() == Seq::<Seq<char>>::empty(),
    {
        let r = NameMap { items: Vec::new() };
        proof {
            assert(r.names() =~= Seq::<Seq<char>>::empty());
            assert(r@ =~= Map::<Seq<char>, T>::empty());
        }
        r
    }

    /// The number of names, each of which occurs once.
    pub fn len(&self) -> (r: usize)
        ensures
            r == self.names().len(),
            r == self.values().len(),
            self.names().no_duplicates(),
    {
        proof {
            use_type_invariant(self);
        }
        self.items.len()
    }

    /// The name at position `i`, with the value under it.
    pub fn at(&self, i: usize) -> (r: (&String, &T))
        requires
            i < self.names().len(),
        ensures
            r.0@ == self.names()[i as int],
            *r.1 == self.values()[i as int],
            self@.contains_key(r.0@),
            *r.1 == self@[r.0@],
    {
        proof {
            use_type_invariant(self);
            self.lemma_place(i as int);
        }
        let entry = &self.items[i];
        (&entry.0, &entry.1)
    }

    /// The name at place `i` has the value at place `i`.
    proof fn lemma_place(&self, i: int)
        requires
            0 <= i < self.names().len(),
            self.names_are_distinct(),
        ensures
            self.names().index_of(self.names()[i]) == i,
            self@.contains_key(self.names()[i]),
            self@[self.names()[i]] == self.values()[i],
    {
        let name = self.names()[i];
        assert(self.names().contains(name));
        let j = self.names().index_of(name);
        assert(self.names()[j] == name);
    }

    /// The position of a name.
    fn position(&self, name: &str) -> (r: Option<usize>)
        ensures
            match r {
                Some(i) => i < self.names().len() && self.names()[i as int] == name@,
                None => !self.names().contains(name@),
            },
    {
        let mut i: usize = 0;
        while i < self.items.len()
            invariant
                i <= self.items@.len(),
                forall|j: int| 0 <= j < i ==> self.names()[j] != name@,
            decreases self.items@.len() - i,
        {
            if same_text(self.items[i].0.as_str(), name) {
                return Some(i);
            }
            i += 1;
        }
        None
    }

    /// The value under a name.
    pub fn get(&self, name: &str) -> (r: Option<&T>)
        ensures
            match r {
                Some(value) => self@.contains_key(name@) && *value == self@[name@],
                None => !self@.contains_key(name@),
            },
    {
        proof {
            use_type_invariant(self);
        }
        match self.position(name) {
            Some(i) => {
                proof {
                    self.lemma_place(i as int);
                }
                Some(&self.items[i].1)
            },
            None => None,
        }
    }

    /// Tells whether a name has a value.
    pub fn contains_key(&self, name: &str) -> (r: bool)
        ensures
            r == self@.contains_key(name@),
    {
        self.get(name).is_some()
    }

    /// Puts a value under a name and hands back the value it replaces.
    pub fn insert(&mut self, name: String, value: T) -> (r: Option<T>)
        ensures
            final(self)@ == old(self)@.insert(name@, value),
            final(self).names() == (if old(self).names().contains(name@) {
                old(self).names()
            } else {
                old(self).names().push(name@)
            }),
            r == (if old(self)@.contains_key(name@) {
                Some(old(self)@[name@])
            } else {
                None
            }),
    {
        proof {
            use_type_invariant(&*self);
        }
        let ghost before = *self;
        let place = self.position(name.as_str());
        let mut items: Vec<(String, T)> = Vec::new();
        std::mem::swap(&mut items, &mut self.items);
        let ghost key = name@;
        let replaced = match place {
            Some(i) => {
                items.push((name, value));
                Some(items.swap_remove(i).1)
            },
            None => {
                items.push((name, value));
                None
            },
        };
        proof {
            let after = NameMap { items };
            match place {
                Some(i) => {
                    before.lemma_place(i as int);
                    assert(after.names() =~= before.names());
                    assert(after.values() =~= before.values().update(i as int, value));
                    assert forall|k: Seq<char>| #[trigger] after@.contains_key(k) implies after@[k]
                        == before@.insert(key, value)[k] by {
                        let j = before.names().index_of(k);
                        assert(before.names()[j] == k);
                        if k != key {
                            assert(j != i);
                        }
                    }
                    assert(after@ =~= before@.insert(key, value));
                },
                None => {
                    assert(after.names() =~= before.names().push(key));
                    assert(after.values() =~= before.values().push(value));
                    assert(after.names_are_distinct());
                    assert forall|k: Seq<char>| #[trigger]
                        after@.contains_key(k) == before@.insert(key, value).contains_key(k) by {
                        if before.names().contains(k) {
                            let j = before.names().index_of(k);
                            assert(after.names()[j] == k);
                        }
                        assert(after.names()[before.names().len() as int] == key);
                    }
                    assert forall|k: Seq<char>| #[trigger] after@.contains_key(k) implies after@[k]
                        == before@.insert(key, value)[k] by {
                        let j = after.names().index_of(k);
                        assert(after.names()[j] == k);
                        after.lemma_place(j);
                        if k != key {
                            assert(before.names()[j] == k);
                            before.lemma_place(j);
                        } else {
                            assert(j == before.names().len());
                        }
                    }
                    assert(after@ =~= before@.insert(key, value));
                },
            }
        }
        self.items = items;
        replaced
    }

    /// Takes a name out and hands back its value.
    pub fn remove(&mut self, name: &str) -> (r: Option<T>)
        ensures
            final(self)@ == old(self)@.remove(name@),
            final(self).names() == old(self).names().remove_value(name@),
            r == (if old(self)@.contains_key(name@) {
                Some(old(self)@[name@])
            } else {
                None
            }),
    {
        proof {
            use_type_invariant(&*self);
        }
        let ghost before = *self;
        let place = self.position(name);
        match place {
            Some(i) => {
                let mut items: Vec<(String, T)> = Vec::new();
                std::mem::swap(&mut items, &mut self.items);
                let removed = items.remove(i);
                proof {
                    let after = NameMap { items };
                    before.lemma_place(i as int);
                    assert(after.names() =~= before.names().remove(i as int));
                    assert(after.values() =~= before.values().remove(i as int));
                    assert(before.names().index_of_first(name@) == Some(i as int)) by {
                        before.names().index_of_first_ensures(name@);
                    }
                    assert forall|k: Seq<char>| #[trigger]
                        after@.contains_key(k) == before@.remove(name@).contains_key(k) by {
                        if before.names().contains(k) && k != name@ {
                            let j = before.names().index_of(k);
                            assert(before.names()[j] == k);
                            if j < i {
                                assert(after.names()[j] == k);
                            } else {
                                assert(after.names()[j - 1] == k);
                            }
                        }
                        if after.names().contains(k) {
                            let j = after.names().index_of(k);
                            assert(after.names()[j] == k);
                            if j < i {
                                assert(before.names()[j] == k);
                            } else {
                                assert(before.names()[j + 1] == k);
                            }
                        }
                    }
                    assert forall|k: Seq<char>| #[trigger] after@.contains_key(k) implies after@[k]
                        == before@.remove(name@)[k] by {
                        let j = after.names().index_of(k);
                        assert(after.names()[j] == k);
                        after.lemma_place(j);
                        if j < i {
                            before.lemma_place(j);
                        } else {
                            before.lemma_place(j + 1);
                        }
                    }
                    assert(after@ =~= before@.remove(name@));
                }
                self.items = items;
                Some(removed.1)
            },
            None => {
                proof {
                    before.names().index_of_first_ensures(name@);
                    assert(before@.remove(name@) =~= before@);
                }
                None
            },
        }
    }

    /// There are as many values as names.
    pub proof fn lemma_lengths(&self)
        ensures
            self.names().len() == self.values().len(),
    {
    }

    /// Every value in the map is structurally smaller than the map.
    pub proof fn lemma_values_decrease(self)
        ensures
            forall|name: Seq<char>| #[trigger]
                self@.contains_key(name) ==> decreases_to!(self => self@[name]),
    {
        assert forall|name: Seq<char>| #[trigger] self@.contains_key(name) implies decreases_to!(
            self => self@[name]) by {
            let i = self.names().index_of(name);
            assert(self.names()[i] == name);
            assert(decreases_to!(self => self.items));
            assert(decreases_to!(self.items => self.items[i]));
            assert(decreases_to!(self.items[i] => self.items[i].1));
        }
    }
}

/// A map has one value under each name. Putting one in replaces the value under its name
/// alone, at the place that the name has or else at the end; taking one out leaves the
/// others in their order; and both hand back the value that was there.
pub proof fn law_map_keeps_one_value_per_name<T>(
    name: String,
    text: &str,
    value: T,
    other: Seq<char>,
)
    ensures
        forall|map: &mut NameMap<T>, r: Option<T>| #[trigger]
            call_ensures(NameMap::<T>::insert, (map, name, value), r) ==> {
                &&& final(map)@.contains_key(name@) && final(map)@[name@] == value
                &&& other != name@ ==> final(map)@.contains_key(other) == map@.contains_key(other)
                &&& other != name@ && map@.contains_key(other) ==> final(map)@[other] == map@[other]
                &&& map@.contains_key(name@) ==> r == Some(map@[name@]) && final(map).names()
                    == map.names()
                &&& !map@.contains_key(name@) ==> r is None && final(map).names()
                    == map.names().push(name@)
            },
        forall|map: &mut NameMap<T>, r: Option<T>| #[trigger]
            call_ensures(NameMap::<T>::remove, (map, text), r) ==> {
                &&& !final(map)@.contains_key(text@)
                &&& other != text@ ==> final(map)@.contains_key(other) == map@.contains_key(other)
                &&& other != text@ && map@.contains_key(other) ==> final(map)@[other] == map@[other]
                &&& map@.contains_key(text@) ==> r == Some(map@[text@])
                &&& !map@.contains_key(text@) ==> r is None && final(map).names() == map.names()
            },
        forall|map: &NameMap<T>, r: Option<&T>| #[trigger]
            call_ensures(NameMap::<T>::get, (map, text), r) ==> (match r {
                Some(found) => map@.contains_key(text@) && *found == map@[text@],
                None => !map@.contains_key(text@),
            }),
        forall|map: &NameMap<T>, r: bool| #[trigger]
            call_ensures(NameMap::<T>::contains_key, (map, text), r) ==> r == map@.contains_key(
                text@,
            ),
        forall|map: &NameMap<T>, i: usize, r: (&String, &T)|
            i < map.names().len() && #[trigger] call_ensures(NameMap::<T>::at, (map, i), r)
                ==> r.0@ == map.names()[i as int] && *r.1 == map@[r.0@],
        forall|map: NameMap<T>| #[trigger]
            call_ensures(NameMap::<T>::new, (), map) ==> !map@.contains_key(other)
                && map.names().len() == 0,
{
    assert forall|map: &mut NameMap<T>, r: Option<T>| #[trigger]
        call_ensures(NameMap::<T>::remove, (map, text), r) && !map@.contains_key(
            text@,
        ) implies final(map).names() == map.names() by {
        map.names().index_of_first_ensures(text@);
    }
}

} // verus!
