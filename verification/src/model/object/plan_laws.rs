use vstd::prelude::*;
use crate::model::field::default::FieldDefault;
use crate::model::maps::{entries_get, field_map_entries, property_map_entries, relation_map_entries};
use crate::model::model::Model;
use crate::model::object::assign::AssignKind;
use crate::model::object::deletion::first_denial;
use crate::model::object::input::{InputValue, entry_value};
use crate::model::object::object::{Object, OutputSource, first_unallowed, keys_present, kept_names, key_name};
use crate::model::object::relations::RelationStep;
use crate::model::relation::Relation;
use crate::model::relation::delete::Delete;
use crate::utils::strings_view;
use crate::optionality::Optionality;
use crate::model::index::Index;
use crate::model::index::Type;
use crate::model::model::first_primary;
use crate::model::object::save::{SaveStep, save_steps};

verus! {

/// The relation found to deny a deletion is one whose rule is to deny it and which links at
/// least one record, and no relation before it does both; where none is found, no relation
/// does.
pub proof fn law_first_denial(relations: Seq<(&Model, &Relation)>, counts: Seq<u64>)
    requires
        counts.len() == relations.len(),
    ensures
        first_denial(relations, counts) matches Some(i) ==> {
            &&& 0 <= i < relations.len()
            &&& relations[i].1.delete == Delete::Deny
            &&& counts[i] > 0
            &&& forall|j: int| 0 <= j < i ==> !((#[trigger] relations[j]).1.delete == Delete::Deny && counts[j] > 0)
        },
        first_denial(relations, counts) is None
            ==> forall|j: int| 0 <= j < relations.len() ==> !((#[trigger] relations[j]).1.delete == Delete::Deny && counts[j] > 0),
    decreases relations.len(),
{
    if relations.len() > 0 {
        let rs = relations.drop_last();
        let cs = counts.drop_last();
        law_first_denial(rs, cs);
        assert forall|j: int| 0 <= j < rs.len() implies #[trigger] relations[j] == rs[j] && counts[j] == cs[j] by {}
    }
}

/// What assigning an input takes at a key. For a field: where the input gives nothing, its
/// default (its value set, or its pipeline run) if the object is not yet initialized and has
/// one, else nothing; where the input gives a dictionary whose first key is `set`, setting
/// that entry's value; another dictionary, an atomic update with it; any other value, setting
/// it. For a relation, the manipulation given, if any. For a property with a setter, the
/// setter with the value given (or the `set` entry's), and any other dictionary is
/// unexpected; a property without a setter takes nothing. Any other key takes nothing.
pub proof fn law_assign_step<V>(object: Object<V>, model: Model, key: Seq<char>, input: Seq<(String, InputValue)>)
    ensures
        entries_get(field_map_entries(model.fields), key) is Some
            && !entries_get(field_map_entries(model.fields), key)->0.dropped ==> {
            let f = entries_get(field_map_entries(model.fields), key)->0;
            &&& entry_value(input, key) is None && object.is_initialized
                ==> object.spec_assign_step(model, key, input) == (AssignKind::Nothing, None::<InputValue>)
            &&& entry_value(input, key) is None && !object.is_initialized && f.default is None
                ==> object.spec_assign_step(model, key, input) == (AssignKind::Nothing, None::<InputValue>)
            &&& entry_value(input, key) is None && !object.is_initialized && (f.default matches Some(FieldDefault::Value(_)))
                ==> object.spec_assign_step(model, key, input) == (AssignKind::SetDefault, None::<InputValue>)
            &&& entry_value(input, key) is None && !object.is_initialized && (f.default matches Some(FieldDefault::Pipeline(_)))
                ==> object.spec_assign_step(model, key, input) == (AssignKind::RunDefaultPipeline, None::<InputValue>)
            &&& (match entry_value(input, key) {
                Some(InputValue::Dictionary(es)) => es@.len() > 0 ==> if es@[0].0@ == "set"@ {
                    object.spec_assign_step(model, key, input) == (AssignKind::SetField, Some(es@[0].1))
                } else {
                    object.spec_assign_step(model, key, input) == (AssignKind::AtomicUpdate, entry_value(input, key))
                },
                _ => true,
            })
            &&& (match entry_value(input, key) {
                Some(InputValue::Dictionary(_)) => true,
                Some(v) => object.spec_assign_step(model, key, input) == (AssignKind::SetField, Some(v)),
                None => true,
            })
        },
        !(entries_get(field_map_entries(model.fields), key) matches Some(f) && !f.dropped)
            && entries_get(relation_map_entries(model.relations), key) is Some ==> {
            &&& (match entry_value(input, key) {
                Some(v) => object.spec_assign_step(model, key, input) == (AssignKind::RelationManipulation, Some(v)),
                None => true,
            })
            &&& entry_value(input, key) is None
                ==> object.spec_assign_step(model, key, input) == (AssignKind::Nothing, None::<InputValue>)
        },
        !(entries_get(field_map_entries(model.fields), key) matches Some(f) && !f.dropped)
            && entries_get(relation_map_entries(model.relations), key) is None
            && entries_get(property_map_entries(model.properties), key) is Some ==> {
            let p = entries_get(property_map_entries(model.properties), key)->0;
            &&& p.setter is None ==> object.spec_assign_step(model, key, input).0 == AssignKind::Nothing
            &&& entry_value(input, key) is None ==> object.spec_assign_step(model, key, input).0 == AssignKind::Nothing
            &&& p.setter is Some ==> (match entry_value(input, key) {
                Some(InputValue::Dictionary(_)) => true,
                Some(v) => object.spec_assign_step(model, key, input) == (AssignKind::PropertySetter, Some(v)),
                None => true,
            })
            &&& p.setter is Some ==> (match entry_value(input, key) {
                Some(InputValue::Dictionary(es)) => es@.len() > 0 ==> if es@[0].0@ == "set"@ {
                    object.spec_assign_step(model, key, input) == (AssignKind::PropertySetter, Some(es@[0].1))
                } else {
                    object.spec_assign_step(model, key, input) == (AssignKind::UnexpectedInput, None::<InputValue>)
                },
                _ => true,
            })
        },
        !(entries_get(field_map_entries(model.fields), key) matches Some(f) && !f.dropped)
            && entries_get(relation_map_entries(model.relations), key) is None
            && entries_get(property_map_entries(model.properties), key) is None
            ==> object.spec_assign_step(model, key, input) == (AssignKind::Nothing, None::<InputValue>),
{
}

/// The steps for a relation come in this order: first what replaces its related objects (for
/// a to-many relation the objects given; for a to-one relation the current object
/// disconnected and, where one was given, the new one connected), then each object given to
/// connect, by its position, then each object given to disconnect, then the input's
/// manipulation, on many related objects or on one.
pub proof fn law_relation_steps<V>(object: Object<V>, relation: Relation)
    ensures
        object.relation_steps(relation) == object.set_steps(relation) + object.connect_steps(relation)
            + object.disconnect_steps(relation) + object.mutation_step(relation),
        relation.is_vec && object.object_set_many_map@.contains_key(relation.name@)
            ==> object.set_steps(relation) == seq![(relation.name@, RelationStep::SetMany)],
        relation.is_vec && !object.object_set_many_map@.contains_key(relation.name@)
            ==> object.set_steps(relation).len() == 0,
        !relation.is_vec && object.object_set_map@.contains_key(relation.name@)
            && object.object_set_map@[relation.name@] is Some
            ==> object.set_steps(relation) == seq![(relation.name@, RelationStep::DisconnectCurrent),
                (relation.name@, RelationStep::ConnectNew)],
        !relation.is_vec && object.object_set_map@.contains_key(relation.name@)
            && object.object_set_map@[relation.name@] is None
            ==> object.set_steps(relation) == seq![(relation.name@, RelationStep::DisconnectCurrent)],
        !relation.is_vec && !object.object_set_map@.contains_key(relation.name@)
            ==> object.set_steps(relation).len() == 0,
        object.object_connect_map@.contains_key(relation.name@) ==> {
            &&& object.connect_steps(relation).len() == object.object_connect_map@[relation.name@]@.len()
            &&& forall|i: int| 0 <= i < object.connect_steps(relation).len()
                ==> #[trigger] object.connect_steps(relation)[i] == (relation.name@, RelationStep::Connect(i as usize))
        },
        !object.object_connect_map@.contains_key(relation.name@) ==> object.connect_steps(relation).len() == 0,
        !object.object_disconnect_map@.contains_key(relation.name@) ==> object.disconnect_steps(relation).len() == 0,
        object.relation_mutation_map@.contains_key(relation.name@)
            ==> object.mutation_step(relation) == seq![(relation.name@, RelationStep::Mutation(relation.is_vec))],
        !object.relation_mutation_map@.contains_key(relation.name@) ==> object.mutation_step(relation).len() == 0,
{
}

/// Where the output takes a key's value from: for a relation, its fetched objects where they
/// were fetched, else nothing; a key left out of the selection gives nothing; a selected
/// field (not dropped) gives its value; a selected property gives its cached value where it
/// is cached and has one, else its getter where it has one, else nothing; any other key
/// gives nothing.
pub proof fn law_output_source<V>(object: Object<V>, model: Model, key: Seq<char>)
    ensures
        entries_get(relation_map_entries(model.relations), key) is Some ==> (
            object.spec_output_source(model, key) == OutputSource::Relation
                <==> object.relation_query_map@.contains_key(key)),
        entries_get(relation_map_entries(model.relations), key) is Some ==> (
            object.spec_output_source(model, key) == OutputSource::Relation
                || object.spec_output_source(model, key) == OutputSource::Nothing),
        entries_get(relation_map_entries(model.relations), key) is None
            && object.selected_fields@.len() > 0 && !strings_view(object.selected_fields@).contains(key)
            ==> object.spec_output_source(model, key) == OutputSource::Nothing,
        entries_get(relation_map_entries(model.relations), key) is None
            && (object.selected_fields@.len() == 0 || strings_view(object.selected_fields@).contains(key))
            && entries_get(field_map_entries(model.fields), key) is Some
            && !entries_get(field_map_entries(model.fields), key)->0.dropped
            ==> object.spec_output_source(model, key) == OutputSource::Field,
        entries_get(relation_map_entries(model.relations), key) is None
            && (object.selected_fields@.len() == 0 || strings_view(object.selected_fields@).contains(key))
            && !(entries_get(field_map_entries(model.fields), key) is Some
                && !entries_get(field_map_entries(model.fields), key)->0.dropped) ==> {
            let p = entries_get(property_map_entries(model.properties), key);
            &&& p is None ==> object.spec_output_source(model, key) == OutputSource::Nothing
            &&& p is Some && p->0.cached && object.cached_property_map@.contains_key(key)
                ==> object.spec_output_source(model, key) == OutputSource::CachedProperty
            &&& p is Some && !(p->0.cached && object.cached_property_map@.contains_key(key)) && p->0.getter is Some
                ==> object.spec_output_source(model, key) == OutputSource::PropertyGetter
            &&& p is Some && !(p->0.cached && object.cached_property_map@.contains_key(key)) && p->0.getter is None
                ==> object.spec_output_source(model, key) == OutputSource::Nothing
        },
{
}

/// What a field requires of an object before it is saved. A key that names no field (or a
/// dropped one), a field the database fills in or that holds a foreign key, and a field that
/// holds a value require nothing. Otherwise: an optional field requires nothing; a required
/// field fails, naming its key; a field present with others fails (made required by them)
/// exactly when one of those holds a value; a field present without others fails exactly
/// when the first of them holds no value; a field present under a pipeline fails exactly
/// when that pipeline failed.
pub proof fn law_field_requirement<V>(object: Object<V>, model: Model, key: Seq<char>, failed: Set<Seq<char>>)
    ensures
        ({
            let e = entries_get(field_map_entries(model.fields), key);
            let r = object.field_requirement_failure(model, key, failed);
            &&& (e is None || e->0.dropped || e->0.auto || e->0.auto_increment || e->0.foreign_key
                || object.value_map@.contains_key(key)) ==> r is None
            &&& (e is Some && !e->0.dropped && !(e->0.auto || e->0.auto_increment || e->0.foreign_key)
                && !object.value_map@.contains_key(key)) ==> {
                &&& e->0.optionality is Optional ==> r is None
                &&& e->0.optionality is Required ==> r == Some((key, false))
                &&& (match e->0.optionality {
                    Optionality::PresentWith(names) => (r == Some((key, true)) <==> exists|i: int|
                        0 <= i < names@.len() && object.value_map@.contains_key(#[trigger] names@[i]@))
                        && (r is None || r == Some((key, true))),
                    Optionality::PresentWithout(names) => (r == Some((key, true))
                        <==> (names@.len() > 0 && !object.value_map@.contains_key(names@[0]@)))
                        && (r is None || r == Some((key, true))),
                    _ => true,
                })
                &&& e->0.optionality is PresentIf ==> (
                    (r is Some <==> failed.contains(key)) && (r is Some ==> r == Some((e->0.name@, false))))
            }
        }),
{
}

/// The failure found among the fields of `keys` is that of the first key whose field fails
/// its requirement; where none is found, no field of `keys` fails.
pub proof fn law_first_field_failure<V>(object: Object<V>, model: Model, keys: Seq<Seq<char>>, failed: Set<Seq<char>>)
    ensures
        object.first_field_failure(model, keys, failed) matches Some(e) ==> exists|i: int| {
            &&& 0 <= i < keys.len()
            &&& object.field_requirement_failure(model, keys[i], failed) == Some(e)
            &&& forall|j: int| 0 <= j < i ==> (#[trigger] object.field_requirement_failure(model, keys[j], failed)) is None
        },
        object.first_field_failure(model, keys, failed) is None ==> forall|j: int| 0 <= j < keys.len()
            ==> (#[trigger] object.field_requirement_failure(model, keys[j], failed)) is None,
    decreases keys.len(),
{
    if keys.len() > 0 {
        let rest = keys.drop_first();
        law_first_field_failure(object, model, rest, failed);
        assert forall|j: int| 1 <= j < keys.len() implies #[trigger] keys[j] == rest[j - 1] by {}
        if object.field_requirement_failure(model, keys[0], failed) is None {
            if object.first_field_failure(model, keys, failed) is Some {
                let e = object.first_field_failure(model, keys, failed)->0;
                let k = choose|k: int| {
                    &&& 0 <= k < rest.len()
                    &&& object.field_requirement_failure(model, rest[k], failed) == Some(e)
                    &&& forall|j: int| 0 <= j < k ==> (#[trigger] object.field_requirement_failure(model, rest[j], failed)) is None
                };
                assert(keys[k + 1] == rest[k]);
                assert forall|j: int| 0 <= j < k + 1 implies (#[trigger] object.field_requirement_failure(model, keys[j], failed)) is None by {
                    if j > 0 {
                        assert(keys[j] == rest[j - 1]);
                    }
                }
            } else {
                assert forall|j: int| 0 <= j < keys.len() implies (#[trigger] object.field_requirement_failure(model, keys[j], failed)) is None by {
                    if j > 0 {
                        assert(keys[j] == rest[j - 1]);
                    }
                }
            }
        }
    }
}

/// A required relation is missing exactly for a new object, where the relation is required,
/// relates to one record, is not left out of the check (by name or for all relations), has
/// no manipulation given, and one of its local fields holds no value. The relation found
/// missing among `keys` is the first such; where none is found, none is missing.
pub proof fn law_first_relation_failure<V>(object: Object<V>, model: Model, keys: Seq<Seq<char>>, ignore: bool)
    ensures
        forall|k: Seq<char>| #[trigger] object.relation_requirement_fails(model, k, ignore) ==> {
            let r = entries_get(relation_map_entries(model.relations), k)->0;
            &&& entries_get(relation_map_entries(model.relations), k) is Some
            &&& object.is_new && !ignore && !r.is_vec && r.optionality is Required
            &&& !object.relation_mutation_map@.contains_key(k)
            &&& exists|i: int| 0 <= i < r.fields@.len() && !object.value_map@.contains_key(#[trigger] r.fields@[i]@)
        },
        !object.is_new || ignore ==> forall|k: Seq<char>| !#[trigger] object.relation_requirement_fails(model, k, ignore),
        object.first_relation_failure(model, keys, ignore) matches Some(k) ==> exists|i: int| {
            &&& 0 <= i < keys.len()
            &&& keys[i] == k
            &&& object.relation_requirement_fails(model, k, ignore)
            &&& forall|j: int| 0 <= j < i ==> !#[trigger] object.relation_requirement_fails(model, keys[j], ignore)
        },
        object.first_relation_failure(model, keys, ignore) is None ==> forall|j: int| 0 <= j < keys.len()
            ==> !#[trigger] object.relation_requirement_fails(model, keys[j], ignore),
    decreases keys.len(),
{
    if keys.len() > 0 {
        let rest = keys.drop_first();
        law_first_relation_failure(object, model, rest, ignore);
        assert forall|j: int| 1 <= j < keys.len() implies #[trigger] keys[j] == rest[j - 1] by {}
        if !object.relation_requirement_fails(model, keys[0], ignore) {
            if object.first_relation_failure(model, keys, ignore) is Some {
                let k0 = object.first_relation_failure(model, keys, ignore)->0;
                let k = choose|k: int| {
                    &&& 0 <= k < rest.len()
                    &&& rest[k] == k0
                    &&& object.relation_requirement_fails(model, k0, ignore)
                    &&& forall|j: int| 0 <= j < k ==> !#[trigger] object.relation_requirement_fails(model, rest[j], ignore)
                };
                assert(keys[k + 1] == rest[k]);
                assert forall|j: int| 0 <= j < k + 1 implies !#[trigger] object.relation_requirement_fails(model, keys[j], ignore) by {
                    if j > 0 {
                        assert(keys[j] == rest[j - 1]);
                    }
                }
            } else {
                assert forall|j: int| 0 <= j < keys.len() implies !#[trigger] object.relation_requirement_fails(model, keys[j], ignore) by {
                    if j > 0 {
                        assert(keys[j] == rest[j - 1]);
                    }
                }
            }
        }
    }
}

/// The key of an input found not allowed is the first of its keys that is not among the
/// allowed ones; where none is found, every key is allowed.
pub proof fn law_first_unallowed(keys: Seq<Seq<char>>, allowed: Seq<Seq<char>>)
    ensures
        first_unallowed(keys, allowed) matches Some(k) ==> exists|i: int| {
            &&& 0 <= i < keys.len()
            &&& keys[i] == k
            &&& !allowed.contains(k)
            &&& forall|j: int| 0 <= j < i ==> allowed.contains(#[trigger] keys[j])
        },
        first_unallowed(keys, allowed) is None ==> forall|j: int| 0 <= j < keys.len() ==> allowed.contains(#[trigger] keys[j]),
    decreases keys.len(),
{
    if keys.len() > 0 {
        let rest = keys.drop_first();
        law_first_unallowed(rest, allowed);
        assert forall|j: int| 1 <= j < keys.len() implies #[trigger] keys[j] == rest[j - 1] by {}
        if allowed.contains(keys[0]) {
            if first_unallowed(keys, allowed) is Some {
                let k0 = first_unallowed(keys, allowed)->0;
                let k = choose|k: int| {
                    &&& 0 <= k < rest.len()
                    &&& rest[k] == k0
                    &&& !allowed.contains(k0)
                    &&& forall|j: int| 0 <= j < k ==> allowed.contains(#[trigger] rest[j])
                };
                assert(keys[k + 1] == rest[k]);
                assert forall|j: int| 0 <= j < k + 1 implies allowed.contains(#[trigger] keys[j]) by {
                    if j > 0 {
                        assert(keys[j] == rest[j - 1]);
                    }
                }
            } else {
                assert forall|j: int| 0 <= j < keys.len() implies allowed.contains(#[trigger] keys[j]) by {
                    if j > 0 {
                        assert(keys[j] == rest[j - 1]);
                    }
                }
            }
        }
    }
}

/// The keys to assign from an input to an initialized object are the keys of `keys` that the
/// input holds, in the order of `keys`.
pub proof fn law_keys_present(keys: Seq<Seq<char>>, present: Seq<Seq<char>>)
    ensures
        keys_present(keys, present) == keys.filter_map(|k: Seq<char>| if present.contains(k) { Some(k) } else { None }),
    decreases keys.len(),
{
    if keys.len() > 0 {
        law_keys_present(keys.drop_last(), present);
        let f = |k: Seq<char>| if present.contains(k) { Some(k) } else { None };
        if present.contains(keys.last()) {
            assert(keys_present(keys, present) =~= keys.drop_last().filter_map(f) + seq![keys.last()]);
        }
    }
}

/// The names chosen for output from a selection are those of the fields (not dropped) and
/// properties that keys of `keys` name, for the keys that are in `list` when `keep_listed`
/// and for those that are not otherwise, in the order of `keys`.
pub proof fn law_kept_names(model: Model, keys: Seq<Seq<char>>, list: Set<Seq<char>>, keep_listed: bool)
    ensures
        kept_names(model, keys, list, keep_listed) == keys.filter_map(|k: Seq<char>|
            if list.contains(k) == keep_listed { key_name(model, k) } else { None }),
        forall|k: Seq<char>| key_name(model, k) == (match entries_get(field_map_entries(model.fields), k) {
            Some(f) => if !f.dropped {
                Some(f.name@)
            } else {
                match entries_get(property_map_entries(model.properties), k) {
                    Some(p) => Some(p.name@),
                    None => None,
                }
            },
            None => match entries_get(property_map_entries(model.properties), k) {
                Some(p) => Some(p.name@),
                None => None,
            },
        }),
    decreases keys.len(),
{
    if keys.len() > 0 {
        law_kept_names(model, keys.drop_last(), list, keep_listed);
        let f = |k: Seq<char>| if list.contains(k) == keep_listed { key_name(model, k) } else { None };
        match f(keys.last()) {
            Some(n) => {
                assert(kept_names(model, keys, list, keep_listed) =~= keys.drop_last().filter_map(f) + seq![n]);
            },
            None => {},
        }
    }
}

/// The output plan takes the keys of `keys` in order, each with where its value comes from,
/// leaving out the keys whose value comes from nowhere and the fields whose read permission
/// failed (as `readable` says, key by key).
pub proof fn law_output_steps<V>(object: Object<V>, model: Model, keys: Seq<Seq<char>>, readable: Seq<bool>)
    requires
        readable.len() == keys.len(),
    ensures
        object.output_steps(model, keys, readable) == Seq::new(keys.len(), |i: int| (keys[i], readable[i])).filter_map(
            |e: (Seq<char>, bool)| {
                let s = object.spec_output_source(model, e.0);
                if s == OutputSource::Nothing || (s == OutputSource::Field && !e.1) {
                    None
                } else {
                    Some((e.0, s))
                }
            }),
    decreases keys.len(),
{
    let zipped = Seq::new(keys.len(), |i: int| (keys[i], readable[i]));
    if keys.len() > 0 {
        law_output_steps(object, model, keys.drop_last(), readable.drop_last());
        assert(zipped.drop_last() =~= Seq::new(keys.drop_last().len(), |i: int| (keys.drop_last()[i], readable.drop_last()[i])));
        assert(zipped.last() == (keys.last(), readable.last()));
        let s = object.spec_output_source(model, keys.last());
        if !(s == OutputSource::Nothing || (s == OutputSource::Field && !readable.last())) {
            let f = |e: (Seq<char>, bool)| {
                let s = object.spec_output_source(model, e.0);
                if s == OutputSource::Nothing || (s == OutputSource::Field && !e.1) {
                    None
                } else {
                    Some((e.0, s))
                }
            };
            assert(object.output_steps(model, keys, readable) =~= zipped.drop_last().filter_map(f) + seq![(keys.last(), s)]);
        }
    }
}

/// The keys whose on-save pipeline runs before a save are the keys of `keys`, in order, that
/// name a field (not dropped) with an on-save pipeline.
pub proof fn law_on_save_keys<V>(model: Model, keys: Seq<Seq<char>>)
    ensures
        Object::<V>::on_save_pending(model, keys) == keys.filter_map(|k: Seq<char>|
            if entries_get(field_map_entries(model.fields), k) is Some
                && !entries_get(field_map_entries(model.fields), k)->0.dropped
                && entries_get(field_map_entries(model.fields), k)->0.on_save.items@.len() > 0 {
                Some(k)
            } else {
                None
            }),
    decreases keys.len(),
{
    if keys.len() > 0 {
        law_on_save_keys::<V>(model, keys.drop_last());
        let f = |k: Seq<char>|
            if entries_get(field_map_entries(model.fields), k) is Some
                && !entries_get(field_map_entries(model.fields), k)->0.dropped
                && entries_get(field_map_entries(model.fields), k)->0.on_save.items@.len() > 0 {
                Some(k)
            } else {
                None
            };
        if f(keys.last()) is Some {
            assert(Object::<V>::on_save_pending(model, keys) =~= keys.drop_last().filter_map(f) + seq![keys.last()]);
        }
    }
}

/// The keys whose present-if pipeline runs before a save are the keys of `keys`, in order,
/// that name a field (not dropped, not filled in by the database, holding no foreign key)
/// that is present under a pipeline and holds no value.
pub proof fn law_present_if_keys<V>(object: Object<V>, model: Model, keys: Seq<Seq<char>>)
    ensures
        object.pending_keys(model, keys) == keys.filter_map(|k: Seq<char>| {
            let e = entries_get(field_map_entries(model.fields), k);
            if e is Some && !e->0.dropped && !(e->0.auto || e->0.auto_increment || e->0.foreign_key)
                && !object.value_map@.contains_key(k) && e->0.optionality is PresentIf {
                Some(k)
            } else {
                None
            }
        }),
    decreases keys.len(),
{
    if keys.len() > 0 {
        law_present_if_keys(object, model, keys.drop_last());
        let f = |k: Seq<char>| {
            let e = entries_get(field_map_entries(model.fields), k);
            if e is Some && !e->0.dropped && !(e->0.auto || e->0.auto_increment || e->0.foreign_key)
                && !object.value_map@.contains_key(k) && e->0.optionality is PresentIf {
                Some(k)
            } else {
                None
            }
        };
        if f(keys.last()) is Some {
            assert(object.pending_keys(model, keys) =~= keys.drop_last().filter_map(f) + seq![keys.last()]);
        }
    }
}

/// The primary index of a model is the first of its indexes that is primary; where none is
/// found, none of them is.
pub proof fn law_first_primary(xs: Seq<Index>)
    ensures
        first_primary(xs) matches Some(ix) ==> exists|i: int| {
            &&& 0 <= i < xs.len()
            &&& xs[i] == ix
            &&& ix@.0 == Type::Primary
            &&& forall|j: int| 0 <= j < i ==> (#[trigger] xs[j])@.0 != Type::Primary
        },
        first_primary(xs) is None ==> forall|j: int| 0 <= j < xs.len() ==> (#[trigger] xs[j])@.0 != Type::Primary,
    decreases xs.len(),
{
    if xs.len() > 0 {
        let rest = xs.drop_first();
        law_first_primary(rest);
        assert forall|j: int| 1 <= j < xs.len() implies #[trigger] xs[j] == rest[j - 1] by {}
        if xs[0]@.0 != Type::Primary {
            if first_primary(xs) is Some {
                let ix = first_primary(xs)->0;
                let k = choose|k: int| {
                    &&& 0 <= k < rest.len()
                    &&& rest[k] == ix
                    &&& ix@.0 == Type::Primary
                    &&& forall|j: int| 0 <= j < k ==> (#[trigger] rest[j])@.0 != Type::Primary
                };
                assert(xs[k + 1] == rest[k]);
                assert forall|j: int| 0 <= j < k + 1 implies (#[trigger] xs[j])@.0 != Type::Primary by {
                    if j > 0 {
                        assert(xs[j] == rest[j - 1]);
                    }
                }
            } else {
                assert forall|j: int| 0 <= j < xs.len() implies (#[trigger] xs[j])@.0 != Type::Primary by {
                    if j > 0 {
                        assert(xs[j] == rest[j - 1]);
                    }
                }
            }
        }
    }
}

/// An object identifies its stored record by the values it held when last read or saved: a
/// field that changed and for which a previous value (not null) was recorded gives that
/// previous value; any other field gives its value.
pub proof fn law_previous_identity<V>(object: Object<V>, key: Seq<char>)
    ensures
        object.modified_fields@.contains_key(key) && (object.previous_value_map@.get(key) matches Some(Some(_)))
            ==> object.previous_or_current(key) == object.previous_value_map@[key],
        !(object.modified_fields@.contains_key(key) && (object.previous_value_map@.get(key) matches Some(Some(_))))
            ==> object.previous_or_current(key) == object.value_map@.get(key),
{
}

/// Saving an object that is new or changed validates it, runs the before-save callbacks,
/// performs the changes of its relations that hold a foreign key, and writes it, in that
/// order, before performing the changes of its other relations and clearing its state; the
/// after-save callbacks then run, last, unless they are running already. Saving any other
/// object only performs the changes of its relations (those with a foreign key first) and
/// clears its state: it is not validated or written, and no callback runs.
pub proof fn law_save_steps(changed: bool, inside_after_save_callback: bool)
    ensures
        changed ==> {
            let s = save_steps(changed, inside_after_save_callback);
            &&& s.len() == if inside_after_save_callback { 6int } else { 7int }
            &&& s[0] == SaveStep::ValidateForSave
            &&& s[1] == SaveStep::BeforeSaveCallbacks
            &&& s[2] == SaveStep::RelationManipulations(true)
            &&& s[3] == SaveStep::SaveToDatabase
            &&& s[4] == SaveStep::RelationManipulations(false)
            &&& s[5] == SaveStep::ClearState
            &&& !inside_after_save_callback ==> s[6] == SaveStep::AfterSaveCallbacks
        },
        !changed ==> save_steps(changed, inside_after_save_callback) == seq![
            SaveStep::RelationManipulations(true),
            SaveStep::RelationManipulations(false),
            SaveStep::ClearState,
        ],
{
    if !changed {
        assert(save_steps(changed, inside_after_save_callback) =~= seq![
            SaveStep::RelationManipulations(true),
            SaveStep::RelationManipulations(false),
            SaveStep::ClearState,
        ]);
    }
}

} // verus!
