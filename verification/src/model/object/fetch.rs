use vstd::prelude::*;
use crate::model::maps::{entries_find, entries_get, entries_insert, lemma_entries_find};
use crate::model::object::input::InputValue;
use crate::model::object::object::Object;
use crate::model::relation::Relation;
use crate::utils::str_eq;

verus! {

/// Where a condition of a relation query takes its value from: an entry of the caller's
/// `where`, or this object's value in a local field of the relation.
#[derive(Debug)]
pub enum Condition<'a, V> {
    Given(&'a InputValue),
    Local(&'a V),
}

/// How the objects of a relation are fetched.
#[derive(Debug)]
pub enum RelationFetch<'a, V> {
    /// A local field of the relation holds no value: nothing can be related, and no query
    /// is made.
    Empty,
    /// The relation goes through a join table: this object is fetched again by its
    /// identifier, including the relation with the caller's arguments (none for `{}`).
    ThroughJoin,
    /// One find-many query on the related model. Its arguments are `entries` in order, where
    /// the entry holding no value is `where`, whose value is `conditions` in order.
    Query {
        entries: Vec<(String, Option<&'a InputValue>)>,
        conditions: Vec<(String, Condition<'a, V>)>,
    },
}

/// The entries of a list, each name taken by its characters.
pub open spec fn keyed<T>(v: Seq<(String, T)>) -> Seq<(Seq<char>, T)> {
    v.map_values(|e: (String, T)| (e.0@, e.1))
}

/// The entries of `base` after inserting those of `items` in turn, as a map that keeps the
/// place of a name inserted again does.
pub open spec fn inserted_all<T>(base: Seq<(Seq<char>, T)>, items: Seq<(Seq<char>, T)>) -> Seq<(Seq<char>, T)>
    decreases items.len(),
{
    if items.len() == 0 {
        base
    } else {
        entries_insert(inserted_all(base, items.drop_last()), items.last().0, items.last().1)
    }
}

/// The caller's arguments of a find-many, as entries: those of a dictionary, none for
/// no arguments.
pub open spec fn given_entries<'a>(arg: Option<&'a InputValue>) -> Seq<(Seq<char>, Option<&'a InputValue>)> {
    match arg {
        Some(InputValue::Dictionary(d)) => Seq::new(d@.len(), |i: int| (d@[i].0@, Some(&d@[i].1))),
        _ => Seq::empty(),
    }
}

/// The arguments of the query before the relation's conditions are added: the caller's,
/// each name once, with the `where` among them.
pub open spec fn finder_entries<'a>(arg: Option<&'a InputValue>) -> Seq<(Seq<char>, Option<&'a InputValue>)> {
    inserted_all(Seq::empty(), given_entries(arg))
}

/// The entries of the caller's `where`, none where it gives none.
pub open spec fn given_where<'a>(arg: Option<&'a InputValue>) -> Seq<(String, InputValue)> {
    match entries_get(finder_entries(arg), "where"@) {
        Some(Some(w)) => match *w {
            InputValue::Dictionary(d) => d@,
            _ => Seq::empty(),
        },
        _ => Seq::empty(),
    }
}

/// Whether the caller's arguments can be merged with a relation's conditions: they are a
/// dictionary, and its `where`, if any, is a dictionary too.
pub open spec fn mergeable(arg: Option<&InputValue>) -> bool {
    &&& arg matches Some(a) ==> a is Dictionary
    &&& entries_get(finder_entries(arg), "where"@) matches Some(Some(w)) ==> w is Dictionary
}

impl<V> Object<V> {
    /// Whether a local field of `relation` holds no value.
    pub open spec fn lacks_local_value(self, relation: Relation) -> bool {
        exists|i: int| 0 <= i < relation.fields@.len()
            && !self.value_map@.contains_key(#[trigger] relation.fields@[i]@)
    }

    /// The conditions that a query for the objects of `relation` holds: the entries of the
    /// caller's `where`, then each field of the related model that the relation refers to,
    /// equal to this object's value in the local field paired with it.
    pub open spec fn query_conditions<'a>(&'a self, relation: Relation, arg: Option<&'a InputValue>) -> Seq<(Seq<char>, Condition<'a, V>)> {
        let w = given_where(arg);
        let given = Seq::new(w.len(), |i: int| (w[i].0@, Condition::Given(&w[i].1)));
        let local = Seq::new(relation.fields@.len(), |i: int|
            (relation.references@[i]@, Condition::Local(&self.value_map@[relation.fields@[i]@])));
        inserted_all(inserted_all(Seq::empty(), given), local)
    }

    /// How the objects of `relation` are fetched with the caller's find-many arguments
    /// `find_many_arg` (none for `{}`). Through a join table, this object is fetched again.
    /// Otherwise, where a local field of the relation holds no value, nothing is fetched.
    /// Else the query takes the caller's arguments, with a `where` appended where they have
    /// none, and the `where` holds the caller's conditions and then, for each field the
    /// relation refers to, this object's value in the local field paired with it; a name
    /// given again keeps its place and takes the later value.
    pub fn relation_fetch<'a>(&'a self, relation: &Relation, find_many_arg: Option<&'a InputValue>) -> (r: RelationFetch<'a, V>)
        requires
            relation.fields@.len() <= relation.references@.len(),
            relation.through is None ==> mergeable(find_many_arg),
        ensures
            relation.through is Some ==> r is ThroughJoin,
            relation.through is None && self.lacks_local_value(*relation) ==> r is Empty,
            relation.through is None && !self.lacks_local_value(*relation) ==> (r matches RelationFetch::Query { entries, conditions }
                && keyed(entries@) == entries_insert(finder_entries(find_many_arg), "where"@, None)
                && keyed(conditions@) == self.query_conditions(*relation, find_many_arg)),
    {
        if relation.has_join_table() {
            return RelationFetch::ThroughJoin;
        }
        let mut i: usize = 0;
        while i < relation.fields.len()
            invariant
                relation.through is None,
                i <= relation.fields@.len(),
                forall|j: int| 0 <= j < i ==> self.value_map@.contains_key(#[trigger] relation.fields@[j]@),
            decreases relation.fields@.len() - i,
        {
            if !self.value_map.contains_key(relation.fields[i].as_str()) {
                return RelationFetch::Empty;
            }
            i = i + 1;
        }
        assert(!self.lacks_local_value(*relation));
        let mut entries: Vec<(String, Option<&'a InputValue>)> = Vec::new();
        if let Some(InputValue::Dictionary(d)) = find_many_arg {
            let mut j: usize = 0;
            while j < d.len()
                invariant
                    j <= d@.len(),
                    find_many_arg == Some(&InputValue::Dictionary(*d)),
                    keyed(entries@) == inserted_all(Seq::empty(), given_entries(find_many_arg).take(j as int)),
                decreases d@.len() - j,
            {
                insert_entry(&mut entries, d[j].0.clone(), Some(&d[j].1));
                proof {
                    let g = given_entries(find_many_arg);
                    assert(g.take(j + 1).drop_last() =~= g.take(j as int));
                }
                j = j + 1;
            }
            assert(given_entries(find_many_arg).take(d@.len() as int) =~= given_entries(find_many_arg));
        } else {
            assert(given_entries(find_many_arg) =~= Seq::empty());
        }
        assert(keyed(entries@) == finder_entries(find_many_arg));
        let mut conditions: Vec<(String, Condition<'a, V>)> = Vec::new();
        let given = find_value(&entries, "where");
        proof {
            lemma_entries_find(finder_entries(find_many_arg), "where"@);
        }
        if let Some(Some(InputValue::Dictionary(w))) = given {
            let mut j: usize = 0;
            while j < w.len()
                invariant
                    j <= w@.len(),
                    given_where(find_many_arg) == w@,
                    keyed(conditions@) == inserted_all(Seq::empty(),
                        Seq::new(w@.len(), |k: int| (w@[k].0@, Condition::<'a, V>::Given(&w@[k].1))).take(j as int)),
                decreases w@.len() - j,
            {
                insert_entry(&mut conditions, w[j].0.clone(), Condition::Given(&w[j].1));
                proof {
                    let g = Seq::new(w@.len(), |k: int| (w@[k].0@, Condition::<'a, V>::Given(&w@[k].1)));
                    assert(g.take(j + 1).drop_last() =~= g.take(j as int));
                }
                j = j + 1;
            }
            assert(Seq::new(w@.len(), |k: int| (w@[k].0@, Condition::<'a, V>::Given(&w@[k].1))).take(w@.len() as int)
                =~= Seq::new(w@.len(), |k: int| (w@[k].0@, Condition::<'a, V>::Given(&w@[k].1))));
        } else {
            assert(given_where(find_many_arg) =~= Seq::empty());
            assert(Seq::new(0, |k: int| (given_where(find_many_arg)[k].0@, Condition::<'a, V>::Given(&given_where(find_many_arg)[k].1)))
                =~= Seq::empty());
        }
        let ghost w = given_where(find_many_arg);
        let ghost given_conditions = Seq::new(w.len(), |k: int| (w[k].0@, Condition::<'a, V>::Given(&w[k].1)));
        let ghost local = Seq::new(relation.fields@.len(), |k: int|
            (relation.references@[k]@, Condition::<'a, V>::Local(&self.value_map@[relation.fields@[k]@])));
        assert(keyed(conditions@) == inserted_all(Seq::empty(), given_conditions));
        let mut i: usize = 0;
        while i < relation.fields.len()
            invariant
                i <= relation.fields@.len(),
                relation.fields@.len() <= relation.references@.len(),
                forall|j: int| 0 <= j < relation.fields@.len() ==> self.value_map@.contains_key(#[trigger] relation.fields@[j]@),
                local == Seq::new(relation.fields@.len(), |k: int|
                    (relation.references@[k]@, Condition::<'a, V>::Local(&self.value_map@[relation.fields@[k]@]))),
                keyed(conditions@) == inserted_all(inserted_all(Seq::empty(), given_conditions), local.take(i as int)),
            decreases relation.fields@.len() - i,
        {
            let value = self.value_map.get(relation.fields[i].as_str()).unwrap();
            insert_entry(&mut conditions, relation.references[i].clone(), Condition::Local(value));
            assert(local.take(i + 1).drop_last() =~= local.take(i as int));
            i = i + 1;
        }
        assert(local.take(relation.fields@.len() as int) =~= local);
        insert_entry(&mut entries, "where".to_string(), None);
        RelationFetch::Query { entries, conditions }
    }
}

/// The value of the entry named `key`, if there is one.
fn find_value<'a, T>(v: &'a Vec<(String, T)>, key: &str) -> (r: Option<&'a T>)
    ensures
        (match r {
            Some(x) => entries_get(keyed(v@), key@) == Some(*x),
            None => entries_get(keyed(v@), key@) is None,
        }),
{
    proof {
        lemma_entries_find(keyed(v@), key@);
    }
    let mut i: usize = 0;
    while i < v.len()
        invariant
            i <= v@.len(),
            -1 <= entries_find(keyed(v@), key@) < v@.len(),
            entries_find(keyed(v@), key@) >= 0 ==> keyed(v@)[entries_find(keyed(v@), key@)].0 == key@,
            entries_find(keyed(v@), key@) >= 0 ==> forall|j: int| 0 <= j < entries_find(keyed(v@), key@) ==> keyed(v@)[j].0 != key@,
            entries_find(keyed(v@), key@) < 0 ==> forall|j: int| 0 <= j < v@.len() ==> keyed(v@)[j].0 != key@,
            forall|j: int| 0 <= j < i ==> keyed(v@)[j].0 != key@,
        decreases v@.len() - i,
    {
        if str_eq(v[i].0.as_str(), key) {
            assert(keyed(v@)[i as int].0 == key@);
            return Some(&v[i].1);
        }
        i = i + 1;
    }
    None
}

/// Inserts `value` under `key`, as a map that keeps the place of a name inserted again does.
fn insert_entry<T>(v: &mut Vec<(String, T)>, key: String, value: T)
    ensures
        keyed(final(v)@) == entries_insert(keyed(old(v)@), key@, value),
{
    proof {
        lemma_entries_find(keyed(v@), key@);
    }
    let mut i: usize = 0;
    while i < v.len()
        invariant
            i <= v@.len(),
            v@ == old(v)@,
            -1 <= entries_find(keyed(v@), key@) < v@.len(),
            entries_find(keyed(v@), key@) >= 0 ==> keyed(v@)[entries_find(keyed(v@), key@)].0 == key@,
            entries_find(keyed(v@), key@) >= 0 ==> forall|j: int| 0 <= j < entries_find(keyed(v@), key@) ==> keyed(v@)[j].0 != key@,
            entries_find(keyed(v@), key@) < 0 ==> forall|j: int| 0 <= j < v@.len() ==> keyed(v@)[j].0 != key@,
            forall|j: int| 0 <= j < i ==> keyed(v@)[j].0 != key@,
        decreases v@.len() - i,
    {
        if str_eq(v[i].0.as_str(), key.as_str()) {
            assert(keyed(v@)[i as int].0 == key@);
            let ghost k = key@;
            v.set(i, (key, value));
            assert(keyed(v@) =~= keyed(old(v)@).update(i as int, (k, value)));
            return;
        }
        i = i + 1;
    }
    let ghost k = key@;
    v.push((key, value));
    assert(keyed(v@) =~= keyed(old(v)@).push((k, value)));
}

/// `entries_find` gives the first position of an entry named `key`, or -1 where there is none.
proof fn lemma_find_is_first<V>(entries: Seq<(Seq<char>, V)>, key: Seq<char>, i: int)
    requires
        -1 <= i < entries.len(),
        i >= 0 ==> entries[i].0 == key,
        forall|j: int| 0 <= j < entries.len() && (i < 0 || j < i) ==> entries[j].0 != key,
    ensures
        entries_find(entries, key) == i,
{
    lemma_entries_find(entries, key);
    let f = entries_find(entries, key);
    if f != i {
        if f >= 0 && (i < 0 || f < i) {
            assert(entries[f].0 == key);
        } else if f >= 0 {
            assert(entries[i].0 == key);
        } else {
            assert(entries[i].0 == key);
        }
    }
}

/// After inserting `value` under `key`, `key` gives `value`, and every other name gives what
/// it gave before.
pub proof fn lemma_insert_get<V>(entries: Seq<(Seq<char>, V)>, key: Seq<char>, value: V, other: Seq<char>)
    ensures
        entries_get(entries_insert(entries, key, value), other)
            == if other == key { Some(value) } else { entries_get(entries, other) },
{
    let after = entries_insert(entries, key, value);
    lemma_entries_find(entries, key);
    lemma_entries_find(entries, other);
    let p = entries_find(entries, key);
    let q = entries_find(entries, other);
    if p >= 0 {
        assert(after.len() == entries.len());
        assert forall|j: int| 0 <= j < entries.len() implies #[trigger] after[j].0 == entries[j].0 by {}
        if other == key {
            lemma_find_is_first(after, other, p);
        } else {
            lemma_find_is_first(after, other, q);
            if q >= 0 {
                assert(q != p);
            }
        }
    } else {
        assert(after == entries.push((key, value)));
        if other == key {
            lemma_find_is_first(after, other, entries.len() as int);
        } else {
            lemma_find_is_first(after, other, q);
        }
    }
}

/// After inserting `items` in turn, a name that none of them has gives what it gave before.
pub proof fn lemma_inserted_all_untouched<V>(base: Seq<(Seq<char>, V)>, items: Seq<(Seq<char>, V)>, key: Seq<char>)
    requires
        forall|j: int| 0 <= j < items.len() ==> (#[trigger] items[j]).0 != key,
    ensures
        entries_get(inserted_all(base, items), key) == entries_get(base, key),
    decreases items.len(),
{
    if items.len() > 0 {
        assert forall|j: int| 0 <= j < items.drop_last().len() implies (#[trigger] items.drop_last()[j]).0 != key by {
            assert(items.drop_last()[j] == items[j]);
        }
        lemma_inserted_all_untouched(base, items.drop_last(), key);
        assert(items.last() == items[items.len() - 1]);
        lemma_insert_get(inserted_all(base, items.drop_last()), items.last().0, items.last().1, key);
    }
}

/// After inserting `items` in turn, the name of the item at `i` gives that item's value where
/// no later item has the same name.
pub proof fn lemma_inserted_all_last<V>(base: Seq<(Seq<char>, V)>, items: Seq<(Seq<char>, V)>, i: int)
    requires
        0 <= i < items.len(),
        forall|j: int| i < j < items.len() ==> (#[trigger] items[j]).0 != items[i].0,
    ensures
        entries_get(inserted_all(base, items), items[i].0) == Some(items[i].1),
    decreases items.len(),
{
    let rest = items.drop_last();
    assert(items.last() == items[items.len() - 1]);
    if i == items.len() - 1 {
        lemma_insert_get(inserted_all(base, rest), items.last().0, items.last().1, items[i].0);
    } else {
        assert(rest[i] == items[i]);
        assert forall|j: int| i < j < rest.len() implies (#[trigger] rest[j]).0 != rest[i].0 by {
            assert(rest[j] == items[j]);
        }
        lemma_inserted_all_last(base, rest, i);
        lemma_insert_get(inserted_all(base, rest), items.last().0, items.last().1, items[i].0);
    }
}

/// The query for a relation's objects holds each field the relation refers to equal to this
/// object's value in the local field paired with it, whatever the caller's `where` says of
/// that field (where the same field is not referred to again later).
pub proof fn law_relation_query_local<V>(object: Object<V>, relation: Relation, arg: Option<&InputValue>, i: int)
    requires
        relation.fields@.len() <= relation.references@.len(),
        0 <= i < relation.fields@.len(),
        forall|j: int| i < j < relation.fields@.len() ==> (#[trigger] relation.references@[j])@ != relation.references@[i]@,
    ensures
        entries_get(object.query_conditions(relation, arg), relation.references@[i]@)
            == Some(Condition::Local(&object.value_map@[relation.fields@[i]@])),
{
    let w = given_where(arg);
    let given = Seq::new(w.len(), |k: int| (w[k].0@, Condition::<V>::Given(&w[k].1)));
    let local = Seq::new(relation.fields@.len(), |k: int|
        (relation.references@[k]@, Condition::Local(&object.value_map@[relation.fields@[k]@])));
    assert forall|j: int| i < j < local.len() implies (#[trigger] local[j]).0 != local[i].0 by {
        assert(relation.references@[j]@ != relation.references@[i]@);
    }
    lemma_inserted_all_last(inserted_all(Seq::empty(), given), local, i);
}

/// The query for a relation's objects keeps each condition of the caller's `where` on a field
/// the relation does not refer to (where the caller does not name the field again later).
pub proof fn law_relation_query_given<V>(object: Object<V>, relation: Relation, arg: Option<&InputValue>, i: int)
    requires
        relation.fields@.len() <= relation.references@.len(),
        0 <= i < given_where(arg).len(),
        forall|j: int| i < j < given_where(arg).len() ==> (#[trigger] given_where(arg)[j]).0@ != given_where(arg)[i].0@,
        forall|j: int| 0 <= j < relation.fields@.len() ==> (#[trigger] relation.references@[j])@ != given_where(arg)[i].0@,
    ensures
        entries_get(object.query_conditions(relation, arg), given_where(arg)[i].0@)
            == Some(Condition::<V>::Given(&given_where(arg)[i].1)),
{
    let w = given_where(arg);
    let given = Seq::new(w.len(), |k: int| (w[k].0@, Condition::<V>::Given(&w[k].1)));
    let local = Seq::new(relation.fields@.len(), |k: int|
        (relation.references@[k]@, Condition::Local(&object.value_map@[relation.fields@[k]@])));
    assert forall|j: int| 0 <= j < local.len() implies (#[trigger] local[j]).0 != w[i].0@ by {
        assert(relation.references@[j]@ != w[i].0@);
    }
    lemma_inserted_all_untouched(inserted_all(Seq::empty(), given), local, w[i].0@);
    assert forall|j: int| i < j < given.len() implies (#[trigger] given[j]).0 != given[i].0 by {
        assert(w[j].0@ != w[i].0@);
    }
    lemma_inserted_all_last(Seq::empty(), given, i);
}

/// The arguments of the query hold the `where` (which holds the conditions) and, under each
/// other name the caller gives, the caller's value (the last given under that name).
pub proof fn law_relation_query_arguments(arg: Option<&InputValue>, key: Seq<char>)
    ensures
        entries_get(entries_insert(finder_entries(arg), "where"@, None), "where"@) == Some(None::<&InputValue>),
        key != "where"@ ==> entries_get(entries_insert(finder_entries(arg), "where"@, None), key)
            == entries_get(finder_entries(arg), key),
        arg matches Some(InputValue::Dictionary(d)) ==> forall|i: int| 0 <= i < d@.len()
            && (forall|j: int| i < j < d@.len() ==> (#[trigger] d@[j]).0@ != d@[i].0@)
            ==> entries_get(finder_entries(arg), (#[trigger] d@[i]).0@) == Some(Some(&d@[i].1)),
{
    lemma_insert_get(finder_entries(arg), "where"@, None, "where"@);
    lemma_insert_get(finder_entries(arg), "where"@, None, key);
    match arg {
        Some(InputValue::Dictionary(d)) => {
            let g = given_entries(arg);
            assert forall|i: int| 0 <= i < d@.len()
                && (forall|j: int| i < j < d@.len() ==> (#[trigger] d@[j]).0@ != d@[i].0@)
                implies entries_get(finder_entries(arg), (#[trigger] d@[i]).0@) == Some(Some(&d@[i].1)) by {
                assert forall|j: int| i < j < g.len() implies (#[trigger] g[j]).0 != g[i].0 by {
                    assert(d@[j].0@ != d@[i].0@);
                }
                lemma_inserted_all_last(Seq::empty(), g, i);
            }
        },
        _ => {},
    }
}

} // verus!
