use vstd::prelude::*;
use crate::model::builder::cache_derived_from;
use crate::model::cache::Cache;
use crate::model::field::Field;
use crate::model::index::Index;
use crate::model::keys::{
    FieldKeys, PropertyKeys, RelationKeys, field_keys, field_selected, property_keys, property_selected,
    relation_keys, relation_selected,
};
use crate::model::property::Property;
use crate::model::relation::Relation;
use crate::model::relation::delete::Delete;
use crate::utils::strings_view;

verus! {

/// The names of the fields of `fields` that satisfy `p`, in order.
pub open spec fn field_names_where(fields: Seq<Field>, p: spec_fn(Field) -> bool) -> Seq<Seq<char>> {
    fields.filter_map(|f: Field| if p(f) { Some(f.name@) } else { None })
}

/// The names of the relations of `relations` that satisfy `p`, in order.
pub open spec fn relation_names_where(relations: Seq<Relation>, p: spec_fn(Relation) -> bool) -> Seq<Seq<char>> {
    relations.filter_map(|r: Relation| if p(r) { Some(r.name@) } else { None })
}

/// The names of the properties of `properties` that satisfy `p`, in order.
pub open spec fn property_names_where(properties: Seq<Property>, p: spec_fn(Property) -> bool) -> Seq<Seq<char>> {
    properties.filter_map(|x: Property| if p(x) { Some(x.name@) } else { None })
}

/// A field key list takes, in order, the names of the fields it selects.
proof fn lemma_field_keys(xs: Seq<Field>, which: FieldKeys)
    ensures
        field_keys(xs, which) == field_names_where(xs, |f: Field| field_selected(f, which)),
    decreases xs.len(),
{
    if xs.len() > 0 {
        lemma_field_keys(xs.drop_last(), which);
        if !field_selected(xs.last(), which) {
            assert(field_keys(xs, which) =~= field_keys(xs.drop_last(), which));
        }
    }
}

/// A relation key list takes, in order, the names of the relations it selects.
proof fn lemma_relation_keys(xs: Seq<Relation>, which: RelationKeys)
    ensures
        relation_keys(xs, which) == relation_names_where(xs, |r: Relation| relation_selected(r, which)),
    decreases xs.len(),
{
    if xs.len() > 0 {
        lemma_relation_keys(xs.drop_last(), which);
        if !relation_selected(xs.last(), which) {
            assert(relation_keys(xs, which) =~= relation_keys(xs.drop_last(), which));
        }
    }
}

/// A property key list takes, in order, the names of the properties it selects.
proof fn lemma_property_keys(xs: Seq<Property>, which: PropertyKeys)
    ensures
        property_keys(xs, which) == property_names_where(xs, |p: Property| property_selected(p, which)),
    decreases xs.len(),
{
    if xs.len() > 0 {
        lemma_property_keys(xs.drop_last(), which);
        if !property_selected(xs.last(), which) {
            assert(property_keys(xs, which) =~= property_keys(xs.drop_last(), which));
        }
    }
}

/// The key lists of a model whose lists are derived from its declarations, as `build`
/// derives them, each in declaration order: all keys are the fields', then the relations',
/// then the properties'; input keys are the writable fields, every relation and the
/// properties with a setter; save keys are the fields that are not virtual and the cached
/// properties; output keys are the readable fields, every relation and the properties with a
/// getter; query keys are the queryable fields and every relation; sort keys the sortable
/// fields; auto keys the fields the database fills in; deny keys the relations whose delete
/// rule is `Deny`; number keys the fields of a number type.
pub proof fn law_key_lists(
    cache: Cache,
    fields: Seq<Field>,
    relations: Seq<Relation>,
    properties: Seq<Property>,
    indexes: Seq<Index>,
)
    requires
        cache_derived_from(cache, fields, relations, properties, indexes),
    ensures
        strings_view(cache.all_keys@) == fields.map_values(|f: Field| f.name@)
            + relations.map_values(|r: Relation| r.name@) + properties.map_values(|p: Property| p.name@),
        strings_view(cache.input_keys@) == field_names_where(fields, |f: Field| !(f.write is NoWrite))
            + relations.map_values(|r: Relation| r.name@) + property_names_where(properties, |p: Property| p.setter is Some),
        strings_view(cache.save_keys@) == field_names_where(fields, |f: Field| !f.is_virtual)
            + property_names_where(properties, |p: Property| p.cached),
        strings_view(cache.save_keys_and_virtual_keys@) == fields.map_values(|f: Field| f.name@)
            + property_names_where(properties, |p: Property| p.cached),
        strings_view(cache.output_keys@) == field_names_where(fields, |f: Field| !(f.read is NoRead))
            + relations.map_values(|r: Relation| r.name@) + property_names_where(properties, |p: Property| p.getter is Some),
        strings_view(cache.query_keys@) == field_names_where(fields, |f: Field| f.queryable)
            + relations.map_values(|r: Relation| r.name@),
        strings_view(cache.sort_keys@) == field_names_where(fields, |f: Field| f.sortable),
        strings_view(cache.auto_keys@) == field_names_where(fields, |f: Field| f.auto || f.auto_increment),
        strings_view(cache.deny_relation_keys@) == relation_names_where(relations, |r: Relation| r.delete == Delete::Deny),
        strings_view(cache.scalar_keys@) == fields.map_values(|f: Field| f.name@),
        strings_view(cache.scalar_number_keys@) == field_names_where(fields, |f: Field| f.ty.int_or_float || f.ty.decimal),
        strings_view(cache.local_output_keys@) == field_names_where(fields, |f: Field| !(f.read is NoRead))
            + property_names_where(properties, |p: Property| p.getter is Some),
        strings_view(cache.relation_output_keys@) == relations.map_values(|r: Relation| r.name@),
{
    lemma_field_keys(fields, FieldKeys::All);
    lemma_field_keys(fields, FieldKeys::Input);
    lemma_field_keys(fields, FieldKeys::Save);
    lemma_field_keys(fields, FieldKeys::Output);
    lemma_field_keys(fields, FieldKeys::Sort);
    lemma_field_keys(fields, FieldKeys::Query);
    lemma_field_keys(fields, FieldKeys::Auto);
    lemma_field_keys(fields, FieldKeys::Number);
    lemma_relation_keys(relations, RelationKeys::All);
    lemma_relation_keys(relations, RelationKeys::Deny);
    lemma_property_keys(properties, PropertyKeys::All);
    lemma_property_keys(properties, PropertyKeys::Input);
    lemma_property_keys(properties, PropertyKeys::Save);
    lemma_property_keys(properties, PropertyKeys::Output);
    assert((|f: Field| field_selected(f, FieldKeys::Input)) =~= (|f: Field| !(f.write is NoWrite)));
    assert((|f: Field| field_selected(f, FieldKeys::Save)) =~= (|f: Field| !f.is_virtual));
    assert((|f: Field| field_selected(f, FieldKeys::Output)) =~= (|f: Field| !(f.read is NoRead)));
    assert((|f: Field| field_selected(f, FieldKeys::Sort)) =~= (|f: Field| f.sortable));
    assert((|f: Field| field_selected(f, FieldKeys::Query)) =~= (|f: Field| f.queryable));
    assert((|f: Field| field_selected(f, FieldKeys::Auto)) =~= (|f: Field| f.auto || f.auto_increment));
    assert((|f: Field| field_selected(f, FieldKeys::Number)) =~= (|f: Field| f.ty.int_or_float || f.ty.decimal));
    assert((|r: Relation| relation_selected(r, RelationKeys::Deny)) =~= (|r: Relation| r.delete == Delete::Deny));
    assert((|p: Property| property_selected(p, PropertyKeys::Input)) =~= (|p: Property| p.setter is Some));
    assert((|p: Property| property_selected(p, PropertyKeys::Save)) =~= (|p: Property| p.cached));
    assert((|p: Property| property_selected(p, PropertyKeys::Output)) =~= (|p: Property| p.getter is Some));
    lemma_all_field_names(fields);
    lemma_all_relation_names(relations);
    lemma_all_property_names(properties);
}

/// Taking every field gives all their names, in order.
proof fn lemma_all_field_names(xs: Seq<Field>)
    ensures
        field_keys(xs, FieldKeys::All) == xs.map_values(|f: Field| f.name@),
    decreases xs.len(),
{
    if xs.len() > 0 {
        lemma_all_field_names(xs.drop_last());
        assert(xs.map_values(|f: Field| f.name@) =~= xs.drop_last().map_values(|f: Field| f.name@).push(xs.last().name@));
        assert(field_keys(xs, FieldKeys::All) =~= xs.map_values(|f: Field| f.name@));
    } else {
        assert(xs.map_values(|f: Field| f.name@) =~= Seq::empty());
    }
}

/// Taking every relation gives all their names, in order.
proof fn lemma_all_relation_names(xs: Seq<Relation>)
    ensures
        relation_keys(xs, RelationKeys::All) == xs.map_values(|r: Relation| r.name@),
    decreases xs.len(),
{
    if xs.len() > 0 {
        lemma_all_relation_names(xs.drop_last());
        assert(xs.map_values(|r: Relation| r.name@) =~= xs.drop_last().map_values(|r: Relation| r.name@).push(xs.last().name@));
        assert(relation_keys(xs, RelationKeys::All) =~= xs.map_values(|r: Relation| r.name@));
    } else {
        assert(xs.map_values(|r: Relation| r.name@) =~= Seq::empty());
    }
}

/// Taking every property gives all their names, in order.
proof fn lemma_all_property_names(xs: Seq<Property>)
    ensures
        property_keys(xs, PropertyKeys::All) == xs.map_values(|p: Property| p.name@),
    decreases xs.len(),
{
    if xs.len() > 0 {
        lemma_all_property_names(xs.drop_last());
        assert(xs.map_values(|p: Property| p.name@) =~= xs.drop_last().map_values(|p: Property| p.name@).push(xs.last().name@));
        assert(property_keys(xs, PropertyKeys::All) =~= xs.map_values(|p: Property| p.name@));
    } else {
        assert(xs.map_values(|p: Property| p.name@) =~= Seq::empty());
    }
}

} // verus!
