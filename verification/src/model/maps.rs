use vstd::prelude::*;
use indexmap::IndexMap;
use crate::model::field::Field;
use crate::model::relation::Relation;
use crate::model::property::Property;
use crate::model::index::Index;

verus! {

/// `indexmap::IndexMap`: a hash map that keeps its entries in insertion order.
#[verifier::external_type_specification]
#[verifier::external_body]
#[verifier::reject_recursive_types(K)]
#[verifier::reject_recursive_types(V)]
#[verifier::reject_recursive_types(S)]
pub struct ExIndexMap<K, V, S>(IndexMap<K, V, S>);

/// The position of the first entry of `entries` named `key`, or -1 when there is none.
pub open spec fn entries_find<V>(entries: Seq<(Seq<char>, V)>, key: Seq<char>) -> int
    decreases entries.len(),
{
    if entries.len() == 0 {
        -1
    } else if entries[0].0 == key {
        0
    } else {
        let r = entries_find(entries.drop_first(), key);
        if r < 0 {
            -1
        } else {
            r + 1
        }
    }
}

/// Whether an entry of `entries` has the name `key`.
pub open spec fn entries_contain<V>(entries: Seq<(Seq<char>, V)>, key: Seq<char>) -> bool {
    entries_find(entries, key) >= 0
}

/// The position of the entry named `key`, where `entries_contain` holds.
pub open spec fn entries_position<V>(entries: Seq<(Seq<char>, V)>, key: Seq<char>) -> int {
    entries_find(entries, key)
}

/// `entries_find` gives a position of an entry named `key` when there is one, the first.
pub proof fn lemma_entries_find<V>(entries: Seq<(Seq<char>, V)>, key: Seq<char>)
    ensures
        -1 <= entries_find(entries, key) < entries.len(),
        entries_find(entries, key) >= 0 ==> entries[entries_find(entries, key)].0 == key,
        entries_find(entries, key) >= 0 ==> forall|j: int| 0 <= j < entries_find(entries, key) ==> entries[j].0 != key,
        entries_find(entries, key) < 0 ==> forall|j: int| 0 <= j < entries.len() ==> entries[j].0 != key,
    decreases entries.len(),
{
    if entries.len() > 0 && entries[0].0 != key {
        lemma_entries_find(entries.drop_first(), key);
        assert forall|j: int| 1 <= j < entries.len() implies entries[j] == entries.drop_first()[j - 1] by {}
    }
}

/// Two lists of entries with the same names in the same order find a name at the same place.
pub proof fn lemma_entries_find_same_keys<V, W>(a: Seq<(Seq<char>, V)>, b: Seq<(Seq<char>, W)>, key: Seq<char>)
    requires
        a.len() == b.len(),
        forall|i: int| 0 <= i < a.len() ==> #[trigger] a[i].0 == b[i].0,
    ensures
        entries_find(a, key) == entries_find(b, key),
    decreases a.len(),
{
    if a.len() > 0 {
        assert(a[0].0 == b[0].0);
        assert forall|i: int| 0 <= i < a.drop_first().len() implies #[trigger] a.drop_first()[i].0 == b.drop_first()[i].0 by {
            assert(a[i + 1].0 == b[i + 1].0);
        }
        lemma_entries_find_same_keys(a.drop_first(), b.drop_first(), key);
    }
}

/// The value of the entry named `key`.
pub open spec fn entries_get<V>(entries: Seq<(Seq<char>, V)>, key: Seq<char>) -> Option<V> {
    if entries_contain(entries, key) {
        Some(entries[entries_position(entries, key)].1)
    } else {
        None
    }
}

/// The entries after `IndexMap::insert(key, value)`: an entry named `key` keeps its place and
/// takes the new value; otherwise the entry is appended.
pub open spec fn entries_insert<V>(entries: Seq<(Seq<char>, V)>, key: Seq<char>, value: V) -> Seq<(Seq<char>, V)> {
    if entries_contain(entries, key) {
        entries.update(entries_position(entries, key), (key, value))
    } else {
        entries.push((key, value))
    }
}

/// The values of the entries, in order.
pub open spec fn entries_values<V>(entries: Seq<(Seq<char>, V)>) -> Seq<V> {
    entries.map_values(|e: (Seq<char>, V)| e.1)
}

/// The entries of an `IndexMap<String, Field>`, in order, each name taken by its characters.
pub uninterp spec fn field_map_entries(m: IndexMap<String, Field>) -> Seq<(Seq<char>, Field)>;

/// `IndexMap::new`: a map with no entries.
#[verifier::external_body]
pub(crate) fn field_map_new() -> (m: IndexMap<String, Field>)
    ensures
        field_map_entries(m) == Seq::<(Seq<char>, Field)>::empty(),
{
    IndexMap::new()
}

/// `IndexMap::insert`: an entry with the same name keeps its place and takes the new value,
/// and its old value is returned; otherwise the entry is appended and `None` is returned.
#[verifier::external_body]
pub(crate) fn field_map_insert(m: &mut IndexMap<String, Field>, key: String, value: Field) -> (r: Option<Field>)
    ensures
        field_map_entries(*final(m)) == entries_insert(field_map_entries(*old(m)), key@, value),
        r == entries_get(field_map_entries(*old(m)), key@),
{
    m.insert(key, value)
}

/// `IndexMap::len`: the number of entries.
#[verifier::external_body]
pub(crate) fn field_map_len(m: &IndexMap<String, Field>) -> (n: usize)
    ensures
        n == field_map_entries(*m).len(),
{
    m.len()
}

/// `IndexMap::get_index`: the entry at position `i`, if there is one.
#[verifier::external_body]
pub(crate) fn field_map_get_index(m: &IndexMap<String, Field>, i: usize) -> (r: Option<(&String, &Field)>)
    ensures
        match r {
            Some(e) => i < field_map_entries(*m).len() && e.0@ == field_map_entries(*m)[i as int].0
                && *e.1 == field_map_entries(*m)[i as int].1,
            None => i >= field_map_entries(*m).len(),
        },
{
    m.get_index(i)
}

/// `IndexMap::get`: the value of the entry named `key`, if there is one.
#[verifier::external_body]
pub(crate) fn field_map_get<'a>(m: &'a IndexMap<String, Field>, key: &str) -> (r: Option<&'a Field>)
    ensures
        match r {
            Some(v) => entries_get(field_map_entries(*m), key@) == Some(*v),
            None => entries_get(field_map_entries(*m), key@) is None,
        },
{
    m.get(key)
}

/// The entries of an `IndexMap<String, Relation>`, in order, each name taken by its characters.
pub uninterp spec fn relation_map_entries(m: IndexMap<String, Relation>) -> Seq<(Seq<char>, Relation)>;

/// `IndexMap::new`: a map with no entries.
#[verifier::external_body]
pub(crate) fn relation_map_new() -> (m: IndexMap<String, Relation>)
    ensures
        relation_map_entries(m) == Seq::<(Seq<char>, Relation)>::empty(),
{
    IndexMap::new()
}

/// `IndexMap::insert`: an entry with the same name keeps its place and takes the new value,
/// and its old value is returned; otherwise the entry is appended and `None` is returned.
#[verifier::external_body]
pub(crate) fn relation_map_insert(m: &mut IndexMap<String, Relation>, key: String, value: Relation) -> (r: Option<Relation>)
    ensures
        relation_map_entries(*final(m)) == entries_insert(relation_map_entries(*old(m)), key@, value),
        r == entries_get(relation_map_entries(*old(m)), key@),
{
    m.insert(key, value)
}

/// `IndexMap::len`: the number of entries.
#[verifier::external_body]
pub(crate) fn relation_map_len(m: &IndexMap<String, Relation>) -> (n: usize)
    ensures
        n == relation_map_entries(*m).len(),
{
    m.len()
}

/// `IndexMap::get_index`: the entry at position `i`, if there is one.
#[verifier::external_body]
pub(crate) fn relation_map_get_index(m: &IndexMap<String, Relation>, i: usize) -> (r: Option<(&String, &Relation)>)
    ensures
        match r {
            Some(e) => i < relation_map_entries(*m).len() && e.0@ == relation_map_entries(*m)[i as int].0
                && *e.1 == relation_map_entries(*m)[i as int].1,
            None => i >= relation_map_entries(*m).len(),
        },
{
    m.get_index(i)
}

/// `IndexMap::get`: the value of the entry named `key`, if there is one.
#[verifier::external_body]
pub(crate) fn relation_map_get<'a>(m: &'a IndexMap<String, Relation>, key: &str) -> (r: Option<&'a Relation>)
    ensures
        match r {
            Some(v) => entries_get(relation_map_entries(*m), key@) == Some(*v),
            None => entries_get(relation_map_entries(*m), key@) is None,
        },
{
    m.get(key)
}

/// The entries of an `IndexMap<String, Property>`, in order, each name taken by its characters.
pub uninterp spec fn property_map_entries(m: IndexMap<String, Property>) -> Seq<(Seq<char>, Property)>;

/// `IndexMap::new`: a map with no entries.
#[verifier::external_body]
pub(crate) fn property_map_new() -> (m: IndexMap<String, Property>)
    ensures
        property_map_entries(m) == Seq::<(Seq<char>, Property)>::empty(),
{
    IndexMap::new()
}

/// `IndexMap::insert`: an entry with the same name keeps its place and takes the new value,
/// and its old value is returned; otherwise the entry is appended and `None` is returned.
#[verifier::external_body]
pub(crate) fn property_map_insert(m: &mut IndexMap<String, Property>, key: String, value: Property) -> (r: Option<Property>)
    ensures
        property_map_entries(*final(m)) == entries_insert(property_map_entries(*old(m)), key@, value),
        r == entries_get(property_map_entries(*old(m)), key@),
{
    m.insert(key, value)
}

/// `IndexMap::len`: the number of entries.
#[verifier::external_body]
pub(crate) fn property_map_len(m: &IndexMap<String, Property>) -> (n: usize)
    ensures
        n == property_map_entries(*m).len(),
{
    m.len()
}

/// `IndexMap::get_index`: the entry at position `i`, if there is one.
#[verifier::external_body]
pub(crate) fn property_map_get_index(m: &IndexMap<String, Property>, i: usize) -> (r: Option<(&String, &Property)>)
    ensures
        match r {
            Some(e) => i < property_map_entries(*m).len() && e.0@ == property_map_entries(*m)[i as int].0
                && *e.1 == property_map_entries(*m)[i as int].1,
            None => i >= property_map_entries(*m).len(),
        },
{
    m.get_index(i)
}

/// `IndexMap::get`: the value of the entry named `key`, if there is one.
#[verifier::external_body]
pub(crate) fn property_map_get<'a>(m: &'a IndexMap<String, Property>, key: &str) -> (r: Option<&'a Property>)
    ensures
        match r {
            Some(v) => entries_get(property_map_entries(*m), key@) == Some(*v),
            None => entries_get(property_map_entries(*m), key@) is None,
        },
{
    m.get(key)
}

/// The entries of an `IndexMap<String, Index>`, in order, each name taken by its characters.
pub uninterp spec fn index_map_entries(m: IndexMap<String, Index>) -> Seq<(Seq<char>, Index)>;

/// `IndexMap::new`: a map with no entries.
#[verifier::external_body]
pub(crate) fn index_map_new() -> (m: IndexMap<String, Index>)
    ensures
        index_map_entries(m) == Seq::<(Seq<char>, Index)>::empty(),
{
    IndexMap::new()
}

/// `IndexMap::insert`: an entry with the same name keeps its place and takes the new value,
/// and its old value is returned; otherwise the entry is appended and `None` is returned.
#[verifier::external_body]
pub(crate) fn index_map_insert(m: &mut IndexMap<String, Index>, key: String, value: Index) -> (r: Option<Index>)
    ensures
        index_map_entries(*final(m)) == entries_insert(index_map_entries(*old(m)), key@, value),
        r == entries_get(index_map_entries(*old(m)), key@),
{
    m.insert(key, value)
}

/// `IndexMap::len`: the number of entries.
#[verifier::external_body]
pub(crate) fn index_map_len(m: &IndexMap<String, Index>) -> (n: usize)
    ensures
        n == index_map_entries(*m).len(),
{
    m.len()
}

/// `IndexMap::get_index`: the entry at position `i`, if there is one.
#[verifier::external_body]
pub(crate) fn index_map_get_index(m: &IndexMap<String, Index>, i: usize) -> (r: Option<(&String, &Index)>)
    ensures
        match r {
            Some(e) => i < index_map_entries(*m).len() && e.0@ == index_map_entries(*m)[i as int].0
                && *e.1 == index_map_entries(*m)[i as int].1,
            None => i >= index_map_entries(*m).len(),
        },
{
    m.get_index(i)
}

} // verus!
