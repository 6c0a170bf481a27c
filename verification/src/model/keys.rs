use vstd::prelude::*;
use indexmap::IndexMap;
use crate::model::field::Field;
use crate::model::relation::Relation;
use crate::model::relation::delete::Delete;
use crate::model::property::Property;
use crate::model::maps::{entries_values, field_map_entries, field_map_len, field_map_get_index, relation_map_entries, relation_map_len, relation_map_get_index, property_map_entries, property_map_len, property_map_get_index};
use crate::utils::strings_view;

verus! {

/// Which fields a key list of a model takes.
#[derive(Clone, Copy, Debug, PartialEq, Eq, Structural)]
pub enum FieldKeys {
    /// Every field.
    All,
    /// The fields that can be written.
    Input,
    /// The fields that are saved, that is, not virtual.
    Save,
    /// The fields that can be read.
    Output,
    /// The sortable fields.
    Sort,
    /// The queryable fields.
    Query,
    /// The fields that the database fills in.
    Auto,
    /// The fields of a number type.
    Number,
}

/// Which relations a key list of a model takes.
#[derive(Clone, Copy, Debug, PartialEq, Eq, Structural)]
pub enum RelationKeys {
    /// Every relation.
    All,
    /// The relations whose delete rule is `Deny`.
    Deny,
}

/// Which properties a key list of a model takes.
#[derive(Clone, Copy, Debug, PartialEq, Eq, Structural)]
pub enum PropertyKeys {
    /// Every property.
    All,
    /// The properties that can be set.
    Input,
    /// The properties that are cached.
    Save,
    /// The properties that can be read.
    Output,
}

/// Whether the key list `which` takes the field `f`.
pub open spec fn field_selected(f: Field, which: FieldKeys) -> bool {
    match which {
        FieldKeys::All => true,
        FieldKeys::Input => !(f.write is NoWrite),
        FieldKeys::Save => !f.is_virtual,
        FieldKeys::Output => !(f.read is NoRead),
        FieldKeys::Sort => f.sortable,
        FieldKeys::Query => f.queryable,
        FieldKeys::Auto => f.auto || f.auto_increment,
        FieldKeys::Number => f.ty.int_or_float || f.ty.decimal,
    }
}

/// Whether the key list `which` takes the relation `r`.
pub open spec fn relation_selected(r: Relation, which: RelationKeys) -> bool {
    match which {
        RelationKeys::All => true,
        RelationKeys::Deny => r.delete == Delete::Deny,
    }
}

/// Whether the key list `which` takes the property `p`.
pub open spec fn property_selected(p: Property, which: PropertyKeys) -> bool {
    match which {
        PropertyKeys::All => true,
        PropertyKeys::Input => p.setter is Some,
        PropertyKeys::Save => p.cached,
        PropertyKeys::Output => p.getter is Some,
    }
}

/// The names of the fields in `xs` that the key list `which` takes, in order.
pub open spec fn field_keys(xs: Seq<Field>, which: FieldKeys) -> Seq<Seq<char>>
    decreases xs.len(),
{
    if xs.len() == 0 {
        Seq::empty()
    } else {
        field_keys(xs.drop_last(), which) + if field_selected(xs.last(), which) {
            seq![xs.last().name@]
        } else {
            Seq::empty()
        }
    }
}

/// Whether the key list `which` takes the field `f`.
fn field_is_selected(f: &Field, which: FieldKeys) -> (r: bool)
    ensures
        r == field_selected(*f, which),
{
        match which {
            FieldKeys::All => true,
            FieldKeys::Input => !f.write().is_no_write(),
            FieldKeys::Save => !f.is_virtual(),
            FieldKeys::Output => !f.read().is_no_read(),
            FieldKeys::Sort => f.sortable(),
            FieldKeys::Query => f.queryable(),
            FieldKeys::Auto => f.auto() || f.auto_increment(),
            FieldKeys::Number => f.ty.is_any_int_or_float() || f.ty.is_decimal(),
        }
}

/// The names of the fields of `map` that the key list `which` takes, in order.
pub fn select_field_keys(map: &IndexMap<String, Field>, which: FieldKeys) -> (r: Vec<String>)
    ensures
        strings_view(r@) == field_keys(entries_values(field_map_entries(*map)), which),
{
    let ghost xs = entries_values(field_map_entries(*map));
    let n = field_map_len(map);
    let mut r: Vec<String> = Vec::new();
    let mut i: usize = 0;
    while i < n
        invariant
            n == field_map_entries(*map).len(),
            xs == entries_values(field_map_entries(*map)),
            i <= n,
            strings_view(r@) == field_keys(xs.take(i as int), which),
        decreases n - i,
    {
        let e = field_map_get_index(map, i);
        let f = e.unwrap().1;
        assert(xs.take(i + 1).drop_last() =~= xs.take(i as int));
        assert(xs.take(i + 1).last() == *f);
        if field_is_selected(f, which) {
            let ghost old_r = r@;
            r.push(f.name.clone());
            proof {
                assert(strings_view(r@) =~= strings_view(old_r) + seq![f.name@]);
            }
        } else {
            assert(strings_view(r@) =~= strings_view(r@) + Seq::<Seq<char>>::empty());
        }
        i = i + 1;
    }
    assert(xs.len() == n);
    assert(xs.take(n as int) =~= xs);
    r
}

/// The names of the relations in `xs` that the key list `which` takes, in order.
pub open spec fn relation_keys(xs: Seq<Relation>, which: RelationKeys) -> Seq<Seq<char>>
    decreases xs.len(),
{
    if xs.len() == 0 {
        Seq::empty()
    } else {
        relation_keys(xs.drop_last(), which) + if relation_selected(xs.last(), which) {
            seq![xs.last().name@]
        } else {
            Seq::empty()
        }
    }
}

/// Whether the key list `which` takes the relation `f`.
fn relation_is_selected(f: &Relation, which: RelationKeys) -> (r: bool)
    ensures
        r == relation_selected(*f, which),
{
        match which {
            RelationKeys::All => true,
            RelationKeys::Deny => match f.delete() {
                Delete::Deny => true,
                _ => false,
            },
        }
}

/// The names of the relations of `map` that the key list `which` takes, in order.
pub fn select_relation_keys(map: &IndexMap<String, Relation>, which: RelationKeys) -> (r: Vec<String>)
    ensures
        strings_view(r@) == relation_keys(entries_values(relation_map_entries(*map)), which),
{
    let ghost xs = entries_values(relation_map_entries(*map));
    let n = relation_map_len(map);
    let mut r: Vec<String> = Vec::new();
    let mut i: usize = 0;
    while i < n
        invariant
            n == relation_map_entries(*map).len(),
            xs == entries_values(relation_map_entries(*map)),
            i <= n,
            strings_view(r@) == relation_keys(xs.take(i as int), which),
        decreases n - i,
    {
        let e = relation_map_get_index(map, i);
        let f = e.unwrap().1;
        assert(xs.take(i + 1).drop_last() =~= xs.take(i as int));
        assert(xs.take(i + 1).last() == *f);
        if relation_is_selected(f, which) {
            let ghost old_r = r@;
            r.push(f.name.clone());
            proof {
                assert(strings_view(r@) =~= strings_view(old_r) + seq![f.name@]);
            }
        } else {
            assert(strings_view(r@) =~= strings_view(r@) + Seq::<Seq<char>>::empty());
        }
        i = i + 1;
    }
    assert(xs.len() == n);
    assert(xs.take(n as int) =~= xs);
    r
}

/// The names of the propertys in `xs` that the key list `which` takes, in order.
pub open spec fn property_keys(xs: Seq<Property>, which: PropertyKeys) -> Seq<Seq<char>>
    decreases xs.len(),
{
    if xs.len() == 0 {
        Seq::empty()
    } else {
        property_keys(xs.drop_last(), which) + if property_selected(xs.last(), which) {
            seq![xs.last().name@]
        } else {
            Seq::empty()
        }
    }
}

/// Whether the key list `which` takes the property `f`.
fn property_is_selected(f: &Property, which: PropertyKeys) -> (r: bool)
    ensures
        r == property_selected(*f, which),
{
        match which {
            PropertyKeys::All => true,
            PropertyKeys::Input => f.setter().is_some(),
            PropertyKeys::Save => f.cached(),
            PropertyKeys::Output => f.getter().is_some(),
        }
}

/// The names of the propertys of `map` that the key list `which` takes, in order.
pub fn select_property_keys(map: &IndexMap<String, Property>, which: PropertyKeys) -> (r: Vec<String>)
    ensures
        strings_view(r@) == property_keys(entries_values(property_map_entries(*map)), which),
{
    let ghost xs = entries_values(property_map_entries(*map));
    let n = property_map_len(map);
    let mut r: Vec<String> = Vec::new();
    let mut i: usize = 0;
    while i < n
        invariant
            n == property_map_entries(*map).len(),
            xs == entries_values(property_map_entries(*map)),
            i <= n,
            strings_view(r@) == property_keys(xs.take(i as int), which),
        decreases n - i,
    {
        let e = property_map_get_index(map, i);
        let f = e.unwrap().1;
        assert(xs.take(i + 1).drop_last() =~= xs.take(i as int));
        assert(xs.take(i + 1).last() == *f);
        if property_is_selected(f, which) {
            let ghost old_r = r@;
            r.push(f.name.clone());
            proof {
                assert(strings_view(r@) =~= strings_view(old_r) + seq![f.name@]);
            }
        } else {
            assert(strings_view(r@) =~= strings_view(r@) + Seq::<Seq<char>>::empty());
        }
        i = i + 1;
    }
    assert(xs.len() == n);
    assert(xs.take(n as int) =~= xs);
    r
}

} // verus!
