use vstd::prelude::*;
use crate::model::model::Model;
use crate::model::maps::{entries_get, relation_map_entries};
use crate::model::object::object::{Object, OutputSource};
use crate::utils::strings_view;
use crate::model::builder::{cache_derived_from, lemma_derived_keys_consistent};
use crate::model::object::deletion::{DeleteEffect, spec_delete_effect};
use crate::model::object::relations::RelationStep;
use crate::model::relation::Relation;
use crate::model::relation::delete::Delete;
use crate::readwrite::Write;
use crate::model::maps::field_map_entries;
use crate::model::field::previous::Previous;

verus! {

/// A value set at a key is the value read back there; setting no value leaves none there.
pub proof fn law_value_read_after_set<V: Clone>(
    before: Object<V>,
    after: Object<V>,
    model: Model,
    key: Seq<char>,
    value: Option<V>,
)
    requires
        before.value_set(after, model, key, value),
    ensures
        after.value_map@.get(key) == value,
{
}

/// For every model a builder builds (its key lists are derived from its declarations, as
/// `build` ensures), setting a value where the model lets one be set (the call succeeds) and
/// reading it back gives the value set: the key is one of the model's keys, so the read
/// succeeds, and it finds the value (none, for null).
pub proof fn law_set_then_get<V: Clone>(
    before: Object<V>,
    after: Object<V>,
    model: Model,
    key: Seq<char>,
    value: Option<V>,
)
    requires
        cache_derived_from(
            model.cache,
            model.spec_fields(),
            model.spec_relations(),
            model.spec_properties(),
            model.spec_indexes(),
        ),
        strings_view(model.cache.save_keys_and_virtual_keys@).contains(key),
        before.value_set(after, model, key, value),
    ensures
        strings_view(model.cache.all_keys@).contains(key),
        after.value_map@.get(key) == value,
{
    lemma_derived_keys_consistent(
        model.cache,
        model.spec_fields(),
        model.spec_relations(),
        model.spec_properties(),
        model.spec_indexes(),
    );
}

/// Setting a value leaves the values at the other keys as they were.
pub proof fn law_other_values_unchanged<V: Clone>(
    before: Object<V>,
    after: Object<V>,
    model: Model,
    key: Seq<char>,
    value: Option<V>,
    other: Seq<char>,
)
    requires
        before.value_set(after, model, key, value),
        other != key,
    ensures
        after.value_map@.get(other) == before.value_map@.get(other),
{
}

/// Setting a value on a new object records no change; on an object that has been saved or
/// read, the key is among those to save next.
pub proof fn law_changes_tracked_after_save<V: Clone>(
    before: Object<V>,
    after: Object<V>,
    model: Model,
    key: Seq<char>,
    value: Option<V>,
)
    requires
        before.value_set(after, model, key, value),
    ensures
        before.is_new ==> after.is_modified == before.is_modified
            && after.modified_fields == before.modified_fields,
        !before.is_new ==> after.is_modified && after.key_changed(key),
{
}

/// A relation's key is put out exactly when its related objects were fetched: once objects
/// are recorded as fetched for it, its key is put out from them; before any are, it is not.
pub proof fn law_relation_output_after_fetch<V>(
    before: Object<V>,
    after: Object<V>,
    model: Model,
    key: Seq<char>,
    objects: Vec<Object<V>>,
)
    requires
        entries_get(relation_map_entries(model.relations), key) is Some,
        after.relation_query_map@ == before.relation_query_map@.insert(key, objects),
    ensures
        after.spec_output_source(model, key) == OutputSource::Relation,
        !before.relation_query_map@.contains_key(key)
            ==> before.spec_output_source(model, key) == OutputSource::Nothing,
{
}

/// What deleting a record does through a relation linking records to it follows from the
/// relation's delete rule alone: no action and a denial leave the linked records as they
/// are; nullifying sets their relation fields to null exactly when the relation holds a
/// foreign key (else it leaves them); cascading deletes them; resetting gives them their
/// defaults.
pub proof fn law_delete_effect_of_rule(relation: Relation)
    ensures
        relation.delete == Delete::NoAction ==> spec_delete_effect(relation) == DeleteEffect::Nothing,
        relation.delete == Delete::Deny ==> spec_delete_effect(relation) == DeleteEffect::Nothing,
        relation.delete == Delete::Nullify && relation.has_foreign_key
            ==> spec_delete_effect(relation) == DeleteEffect::Nullify,
        relation.delete == Delete::Nullify && !relation.has_foreign_key
            ==> spec_delete_effect(relation) == DeleteEffect::Nothing,
        relation.delete == Delete::Cascade ==> spec_delete_effect(relation) == DeleteEffect::Cascade,
        relation.delete == Delete::Default ==> spec_delete_effect(relation) == DeleteEffect::SetDefault,
        spec_delete_effect(relation) == DeleteEffect::Nullify
            <==> (relation.delete == Delete::Nullify && relation.has_foreign_key),
        spec_delete_effect(relation) == DeleteEffect::Cascade <==> relation.delete == Delete::Cascade,
        spec_delete_effect(relation) == DeleteEffect::SetDefault <==> relation.delete == Delete::Default,
{
}

/// A write-once field can be written while the object is new, and afterwards as long as the
/// object holds no value for it; it is refused only for a saved or read object that already
/// holds a value there, whether the value written is null or not.
pub proof fn law_write_once<V>(object: Object<V>, key: Seq<char>, value_is_null: bool)
    ensures
        object.write_rule_verdict(Write::WriteOnce, key, value_is_null) is Some,
        object.write_rule_verdict(Write::WriteOnce, key, value_is_null) == Some(false)
            <==> (!object.is_new && object.value_map@.contains_key(key)),
        object.is_new ==> object.write_rule_verdict(Write::WriteOnce, key, value_is_null) == Some(true),
        !object.value_map@.contains_key(key)
            ==> object.write_rule_verdict(Write::WriteOnce, key, value_is_null) == Some(true),
{
}

/// The other write rules that no pipeline decides: never writable; always writable;
/// writable only while the object is new; writable while new, and afterwards only with a
/// value that is not null.
pub proof fn law_write_rules<V>(object: Object<V>, key: Seq<char>, value_is_null: bool)
    ensures
        object.write_rule_verdict(Write::NoWrite, key, value_is_null) == Some(false),
        object.write_rule_verdict(Write::Write, key, value_is_null) == Some(true),
        object.write_rule_verdict(Write::WriteOnCreate, key, value_is_null) == Some(object.is_new),
        object.write_rule_verdict(Write::WriteNonNull, key, value_is_null) == Some(false)
            <==> (!object.is_new && value_is_null),
{
}

/// Each object given to disconnect through a relation is disconnected, at its position,
/// through the join table where the relation has one; else, where the relation holds the
/// foreign key, by removing the linked values from this object; and only where it has
/// neither, by removing them from the related object.
pub proof fn law_disconnect_steps<V>(object: Object<V>, relation: Relation, i: int)
    requires
        object.object_disconnect_map@.contains_key(relation.name@),
        0 <= i < object.object_disconnect_map@[relation.name@]@.len(),
    ensures
        object.disconnect_steps(relation).len() == object.object_disconnect_map@[relation.name@]@.len(),
        object.disconnect_steps(relation)[i].0 == relation.name@,
        relation.through is Some ==> object.disconnect_steps(relation)[i].1 == RelationStep::DeleteJoin(i as usize),
        relation.through is None && relation.has_foreign_key
            ==> object.disconnect_steps(relation)[i].1 == RelationStep::RemoveLocalLink(i as usize),
        relation.through is None && !relation.has_foreign_key
            ==> object.disconnect_steps(relation)[i].1 == RelationStep::RemoveRelatedLink(i as usize),
        object.disconnect_steps(relation)[i].1 == RelationStep::RemoveRelatedLink(i as usize)
            <==> (relation.through is None && !relation.has_foreign_key),
{
}

/// Setting a field records the value it held before only for an object that has been saved
/// or read, only for a field that keeps previous values, and only the first time: the value
/// (none for null) is recorded under the field's name, and nothing else changes; in every
/// other case the recorded previous values stay as they were.
pub proof fn law_previous_recorded_once<V: Clone>(
    before: Object<V>,
    after: Object<V>,
    model: Model,
    key: Seq<char>,
    value: Option<V>,
)
    requires
        before.value_set(after, model, key, value),
        entries_get(field_map_entries(model.fields), key) is Some,
    ensures
        ({
            let f = entries_get(field_map_entries(model.fields), key)->0;
            &&& (before.is_new || f.previous == Previous::DontKeep || before.previous_value_map@.contains_key(f.name@))
                ==> after.previous_value_map@ == before.previous_value_map@
            &&& (!before.is_new && f.previous == Previous::Keep && !before.previous_value_map@.contains_key(f.name@)) ==> {
                &&& after.previous_value_map@.dom() == before.previous_value_map@.dom().insert(f.name@)
                &&& forall|k: Seq<char>| k != f.name@ && before.previous_value_map@.contains_key(k)
                    ==> after.previous_value_map@[k] == before.previous_value_map@[k]
                &&& (before.value_map@.contains_key(f.name@) <==> after.previous_value_map@[f.name@] is Some)
            }
        }),
{
    let f = entries_get(field_map_entries(model.fields), key)->0;
    if !before.is_new && f.previous == Previous::Keep && !before.previous_value_map@.contains_key(f.name@) {
        assert(after.previous_value_map@.dom() =~= before.previous_value_map@.dom().insert(f.name@));
    }
}

} // verus!
