use vstd::prelude::*;
use crate::utils::{
    seq_lt, str_eq, str_lt, lemma_seq_lt_irreflexive, lemma_seq_lt_transitive, lemma_seq_lt_total,
    lemma_seq_lt_asymmetric,
};

verus! {

/// Whether every key comes strictly before the keys after it.
pub open spec fn keys_sorted(keys: Seq<Seq<char>>) -> bool {
    forall|i: int, j: int| 0 <= i < j < keys.len() ==> seq_lt(#[trigger] keys[i], #[trigger] keys[j])
}

/// The names of a list of named entries.
pub open spec fn entry_keys<T>(e: Seq<(String, T)>) -> Seq<Seq<char>> {
    e.map_values(|x: (String, T)| x.0@)
}

/// The values of a list of named entries.
pub open spec fn entry_values<T>(e: Seq<(String, T)>) -> Seq<T> {
    e.map_values(|x: (String, T)| x.1)
}

/// Whether a list of named entries is sorted by name, each name once.
pub open spec fn sorted_entries<T>(e: Seq<(String, T)>) -> bool {
    keys_sorted(entry_keys(e))
}

/// What each name of a list of named entries is mapped to.
pub open spec fn entries_map<T>(e: Seq<(String, T)>) -> Map<Seq<char>, T> {
    Map::new(
        |k: Seq<char>| entry_keys(e).contains(k),
        |k: Seq<char>| entry_values(e)[entry_keys(e).index_of(k)],
    )
}

/// In a sorted list of entries, each name's position is the one `index_of` picks, and the map
/// agrees with the names and values.
pub proof fn lemma_entries_shape<T>(e: Seq<(String, T)>)
    requires
        sorted_entries(e),
    ensures
        entry_keys(e).len() == e.len(),
        entry_values(e).len() == e.len(),
        forall|i: int| 0 <= i < e.len() ==> #[trigger] entry_keys(e).index_of(entry_keys(e)[i]) == i,
        forall|i: int| 0 <= i < e.len() ==> entries_map(e).contains_key(#[trigger] entry_keys(e)[i]),
        forall|i: int| 0 <= i < e.len() ==> entries_map(e)[#[trigger] entry_keys(e)[i]] == entry_values(e)[i],
{
    assert forall|i: int| 0 <= i < e.len() implies #[trigger] entry_keys(e).index_of(entry_keys(e)[i]) == i by {
        lemma_index_of_sorted(entry_keys(e), i);
    }
}

/// The position of the entry named `name`, if it is there.
pub fn find_entry<T>(v: &Vec<(String, T)>, name: &str) -> (r: Option<usize>)
    ensures
        match r {
            Some(i) => i < v@.len() && entry_keys(v@)[i as int] == name@,
            None => !entry_keys(v@).contains(name@),
        },
{
    let mut i: usize = 0;
    while i < v.len()
        invariant
            i <= v.len(),
            forall|j: int| 0 <= j < i ==> entry_keys(v@)[j] != name@,
        decreases v.len() - i,
    {
        if str_eq(v[i].0.as_str(), name) {
            return Some(i);
        }
        i = i + 1;
    }
    None
}

/// The value of the entry named `name` of a sorted list, if it is there.
pub fn sorted_get<'a, T>(v: &'a Vec<(String, T)>, name: &str) -> (r: Option<&'a T>)
    requires
        sorted_entries(v@),
    ensures
        match r {
            Some(x) => entries_map(v@).contains_key(name@) && *x == entries_map(v@)[name@],
            None => !entries_map(v@).contains_key(name@),
        },
{
    proof {
        lemma_entries_shape(v@);
    }
    match find_entry(v, name) {
        Some(i) => Some(&v[i].1),
        None => None,
    }
}

/// Maps `name` to `value` in a sorted list, keeping it sorted; returns the replaced value.
pub fn sorted_insert<T>(v: &mut Vec<(String, T)>, name: String, value: T) -> (r: Option<T>)
    requires
        sorted_entries(old(v)@),
    ensures
        sorted_entries(final(v)@),
        entries_map(final(v)@) == entries_map(old(v)@).insert(name@, value),
        match r {
            Some(x) => entries_map(old(v)@).contains_key(name@) && x == entries_map(old(v)@)[name@],
            None => !entries_map(old(v)@).contains_key(name@),
        },
{
    proof {
        lemma_entries_shape(v@);
    }
    let ghost old_e = v@;
    let ghost old_keys = entry_keys(v@);
    let ghost old_values = entry_values(v@);
    let ghost keys = old_keys;
    // find the first position whose name is not before `name`
    let mut i: usize = 0;
    while i < v.len() && str_lt(v[i].0.as_str(), name.as_str())
        invariant
            i <= v.len(),
            v@ == old_e,
            keys == entry_keys(v@),
            keys_sorted(keys),
            forall|j: int| 0 <= j < i ==> seq_lt(#[trigger] keys[j], name@),
        decreases v.len() - i,
    {
        i = i + 1;
    }
    let ghost n = keys.len();
    if i < v.len() && str_eq(v[i].0.as_str(), name.as_str()) {
        let ghost name_view = name@;
        let mut replaced = (name, value);
        std::mem::swap(&mut replaced, &mut v[i]);
        let ghost new_e = v@;
        assert(entry_keys(new_e) =~= keys);
        assert(entry_values(new_e) =~= old_values.update(i as int, value));
        proof {
            lemma_entries_shape(new_e);
            assert(old_keys[i as int] == name_view);
            assert(old_keys.index_of(name_view) == i);
            assert(entries_map(new_e) =~= entries_map(old_e).insert(name_view, value)) by {
                assert forall|k: Seq<char>| #[trigger] entries_map(new_e).contains_key(k)
                    <==> entries_map(old_e).insert(name_view, value).contains_key(k) by {
                    if k == name_view {
                        assert(old_keys.contains(k));
                    }
                }
                assert forall|k: Seq<char>| #[trigger] entries_map(new_e).contains_key(k)
                    implies entries_map(new_e)[k] == entries_map(old_e).insert(name_view, value)[k] by {
                    let j = old_keys.index_of(k);
                    assert(0 <= j < old_keys.len() && old_keys[j] == k);
                    if k != name_view {
                        assert(j != i);
                        assert(entry_values(new_e)[j] == old_values[j]);
                    }
                }
            }
        }
        Some(replaced.1)
    } else {
        proof {
            if i < n {
                assert(keys[i as int] != name@);
                assert(!seq_lt(keys[i as int], name@));
                lemma_seq_lt_total(keys[i as int], name@);
            }
        }
        let ghost name_view = name@;
        v.insert(i, (name, value));
        let ghost new_e = v@;
        let ghost new_keys = entry_keys(new_e);
        assert(new_keys =~= keys.insert(i as int, name_view));
        assert(entry_values(new_e) =~= old_values.insert(i as int, value));
        proof {
            assert forall|a: int, b: int| 0 <= a < b < new_keys.len() implies seq_lt(#[trigger] new_keys[a], #[trigger] new_keys[b]) by {
                if b < i {
                } else if a < i && b == i {
                } else if a < i && b > i {
                    assert(seq_lt(keys[a], name_view));
                    if i < n {
                        assert(seq_lt(name_view, keys[i as int]));
                        if b - 1 > i {
                            lemma_seq_lt_transitive(name_view, keys[i as int], keys[b - 1]);
                        }
                        lemma_seq_lt_transitive(keys[a], name_view, keys[b - 1]);
                    }
                } else if a == i {
                    assert(seq_lt(name_view, keys[i as int]));
                    if b - 1 > i {
                        lemma_seq_lt_transitive(name_view, keys[i as int], keys[b - 1]);
                    }
                } else {
                }
            }
            assert(!keys.contains(name_view)) by {
                if keys.contains(name_view) {
                    let j = keys.index_of(name_view);
                    if j < i {
                        lemma_seq_lt_irreflexive(name_view);
                    } else if j == i {
                    } else {
                        assert(seq_lt(keys[i as int], keys[j]));
                        lemma_seq_lt_asymmetric(name_view, keys[i as int]);
                    }
                }
            }
            lemma_entries_shape(new_e);
            assert(entries_map(new_e) =~= entries_map(old_e).insert(name_view, value)) by {
                assert forall|k: Seq<char>| #[trigger] entries_map(new_e).contains_key(k)
                    <==> entries_map(old_e).insert(name_view, value).contains_key(k) by {
                    if k == name_view {
                        assert(new_keys[i as int] == k);
                    }
                    if new_keys.contains(k) {
                        let j = new_keys.index_of(k);
                        if j < i {
                            assert(old_keys[j] == k);
                        } else if j > i {
                            assert(old_keys[j - 1] == k);
                        }
                    }
                    if old_keys.contains(k) {
                        let j = old_keys.index_of(k);
                        if j < i {
                            assert(new_keys[j] == k);
                        } else {
                            assert(new_keys[j + 1] == k);
                        }
                    }
                }
                assert forall|k: Seq<char>| #[trigger] entries_map(new_e).contains_key(k)
                    implies entries_map(new_e)[k] == entries_map(old_e).insert(name_view, value)[k] by {
                    let j = new_keys.index_of(k);
                    if j < i {
                        assert(old_keys[j] == k);
                        assert(old_keys.index_of(k) == j);
                    } else if j > i {
                        assert(old_keys[j - 1] == k);
                        assert(old_keys.index_of(k) == j - 1);
                    }
                }
            }
        }
        None
    }
}

/// Removes `name` from a sorted list, keeping it sorted; returns what it was mapped to.
pub fn sorted_remove<T>(v: &mut Vec<(String, T)>, name: &str) -> (r: Option<T>)
    requires
        sorted_entries(old(v)@),
    ensures
        sorted_entries(final(v)@),
        entries_map(final(v)@) == entries_map(old(v)@).remove(name@),
        match r {
            Some(x) => entries_map(old(v)@).contains_key(name@) && x == entries_map(old(v)@)[name@],
            None => !entries_map(old(v)@).contains_key(name@),
        },
{
    proof {
        lemma_entries_shape(v@);
    }
    let ghost old_e = v@;
    let ghost old_keys = entry_keys(v@);
    let ghost old_values = entry_values(v@);
    match find_entry(v, name) {
        None => {
            assert(entries_map(v@) =~= entries_map(old_e).remove(name@));
            None
        },
        Some(i) => {
            let e = v.remove(i);
            let ghost new_e = v@;
            let ghost new_keys = entry_keys(new_e);
            assert(new_keys =~= old_keys.remove(i as int));
            assert(entry_values(new_e) =~= old_values.remove(i as int));
            assert(keys_sorted(new_keys)) by {
                assert forall|a: int, b: int| 0 <= a < b < new_keys.len() implies seq_lt(#[trigger] new_keys[a], #[trigger] new_keys[b]) by {
                    let a0 = if a < i { a } else { a + 1 };
                    let b0 = if b < i { b } else { b + 1 };
                    assert(new_keys[a] == old_keys[a0]);
                    assert(new_keys[b] == old_keys[b0]);
                }
            }
            proof {
                lemma_entries_shape(new_e);
                assert(old_keys[i as int] == name@);
                assert(old_keys.index_of(name@) == i);
                assert(entries_map(new_e) =~= entries_map(old_e).remove(name@)) by {
                    assert forall|k: Seq<char>| #[trigger] entries_map(new_e).contains_key(k)
                        <==> entries_map(old_e).remove(name@).contains_key(k) by {
                        if new_keys.contains(k) {
                            let j = new_keys.index_of(k);
                            let j0 = if j < i { j } else { j + 1 };
                            assert(old_keys[j0] == k);
                            if k == name@ {
                                assert(old_keys.index_of(k) == j0);
                            }
                        }
                        if old_keys.contains(k) && k != name@ {
                            let j = old_keys.index_of(k);
                            assert(j != i);
                            if j < i {
                                assert(new_keys[j] == k);
                            } else {
                                assert(new_keys[j - 1] == k);
                            }
                        }
                    }
                    assert forall|k: Seq<char>| #[trigger] entries_map(new_e).contains_key(k)
                        implies entries_map(new_e)[k] == entries_map(old_e).remove(name@)[k] by {
                        let j = new_keys.index_of(k);
                        let j0 = if j < i { j } else { j + 1 };
                        assert(old_keys[j0] == k);
                        assert(old_keys.index_of(k) == j0);
                    }
                }
            }
            assert(e.1 == old_values[i as int]);
            Some(e.1)
        },
    }
}

/// A map from names to values, kept in the order of its names as a `BTreeMap<String, T>` is.
/// No name occurs twice.
#[derive(Debug)]
pub struct NameMap<T> {
    entries: Vec<(String, T)>,
}

impl<T> NameMap<T> {
    /// The names, in ascending order.
    pub closed spec fn keys(&self) -> Seq<Seq<char>> {
        entry_keys(self.entries@)
    }

    /// The values, in the order of their names.
    pub closed spec fn values(&self) -> Seq<T> {
        entry_values(self.entries@)
    }

    #[verifier::type_invariant]
    closed spec fn sorted(&self) -> bool {
        sorted_entries(self.entries@)
    }

    /// What each name is mapped to.
    pub closed spec fn view(&self) -> Map<Seq<char>, T> {
        entries_map(self.entries@)
    }

    /// An empty map.
    pub fn new() -> (m: Self)
        ensures
            m.keys() == Seq::<Seq<char>>::empty(),
            m.values() == Seq::<T>::empty(),
            m@ == Map::<Seq<char>, T>::empty(),
    {
        let m = NameMap { entries: Vec::new() };
        assert(m.keys() =~= Seq::<Seq<char>>::empty());
        assert(m.values() =~= Seq::<T>::empty());
        assert(m@ =~= Map::<Seq<char>, T>::empty());
        m
    }

    /// The number of names.
    pub fn len(&self) -> (n: usize)
        ensures
            n == self.keys().len(),
            n == self.values().len(),
    {
        self.entries.len()
    }

    /// The name at position `i` and its value.
    pub fn entry_at(&self, i: usize) -> (r: (&String, &T))
        requires
            i < self.keys().len(),
        ensures
            r.0@ == self.keys()[i as int],
            *r.1 == self.values()[i as int],
            self@.contains_key(r.0@),
            self@[r.0@] == *r.1,
    {
        proof {
            use_type_invariant(self);
            lemma_entries_shape(self.entries@);
        }
        let e = &self.entries[i];
        proof {
            assert(entry_keys(self.entries@)[i as int] == e.0@);
            assert(entry_values(self.entries@)[i as int] == e.1);
        }
        (&e.0, &e.1)
    }

    /// Whether `name` is mapped.
    pub fn contains_key(&self, name: &str) -> (r: bool)
        ensures
            r == self@.contains_key(name@),
    {
        find_entry(&self.entries, name).is_some()
    }

    /// The value of `name`, if it is there.
    pub fn get(&self, name: &str) -> (r: Option<&T>)
        ensures
            match r {
                Some(v) => self@.contains_key(name@) && *v == self@[name@],
                None => !self@.contains_key(name@),
            },
    {
        proof {
            use_type_invariant(self);
        }
        sorted_get(&self.entries, name)
    }

    /// Maps `name` to `value`, replacing what it was mapped to; returns the replaced value.
    pub fn insert(&mut self, name: String, value: T) -> (r: Option<T>)
        ensures
            final(self)@ == old(self)@.insert(name@, value),
            match r {
                Some(v) => old(self)@.contains_key(name@) && v == old(self)@[name@],
                None => !old(self)@.contains_key(name@),
            },
    {
        proof {
            use_type_invariant(&*self);
        }
        let mut entries: Vec<(String, T)> = Vec::new();
        std::mem::swap(&mut entries, &mut self.entries);
        let r = sorted_insert(&mut entries, name, value);
        self.entries = entries;
        r
    }

    /// Removes `name` and returns what it was mapped to.
    pub fn remove(&mut self, name: &str) -> (r: Option<T>)
        ensures
            final(self)@ == old(self)@.remove(name@),
            match r {
                Some(v) => old(self)@.contains_key(name@) && v == old(self)@[name@],
                None => !old(self)@.contains_key(name@),
            },
    {
        proof {
            use_type_invariant(&*self);
        }
        let mut entries: Vec<(String, T)> = Vec::new();
        std::mem::swap(&mut entries, &mut self.entries);
        let r = sorted_remove(&mut entries, name);
        self.entries = entries;
        r
    }
}

/// In a sorted sequence of names, a name's position is the one `index_of` picks.
pub proof fn lemma_index_of_sorted(keys: Seq<Seq<char>>, i: int)
    requires
        keys_sorted(keys),
        0 <= i < keys.len(),
    ensures
        keys.index_of(keys[i]) == i,
{
    let k = keys[i];
    assert(keys.contains(k));
    let j = keys.index_of(k);
    assert(keys[j] == k);
    if j < i {
        assert(seq_lt(keys[j], keys[i]));
        lemma_seq_lt_irreflexive(k);
    } else if j > i {
        assert(seq_lt(keys[i], keys[j]));
        lemma_seq_lt_irreflexive(k);
    }
}

} // verus!
