use vstd::prelude::*;
use crate::model::maps::{entries_get, field_map_entries, property_map_entries, relation_map_entries};
use crate::model::model::Model;
use crate::model::object::object::{Object, kept_names, listed_keys};
use crate::utils::strings_view;

verus! {

/// A value of a database record as an object reads it: the value of a field or a property
/// (none for null), or the records related through a relation, each read into an object.
#[derive(Debug)]
pub enum RecordValue<V> {
    Value(Option<V>),
    Related(Vec<Object<V>>),
}

/// Whether `key` names a field of `model` that is not dropped.
pub open spec fn is_field_key(model: Model, key: Seq<char>) -> bool {
    entries_get(field_map_entries(model.fields), key) matches Some(f) && !f.dropped
}

/// Whether `key` names a relation of `model`, and no field.
pub open spec fn is_relation_key(model: Model, key: Seq<char>) -> bool {
    !is_field_key(model, key) && entries_get(relation_map_entries(model.relations), key) is Some
}

/// Whether `key` names a property of `model`, and no field or relation.
pub open spec fn is_property_key(model: Model, key: Seq<char>) -> bool {
    !is_field_key(model, key) && !is_relation_key(model, key)
        && entries_get(property_map_entries(model.properties), key) is Some
}

/// Whether each value of `record` is of the kind its key takes: related records for a
/// relation, a value for anything else.
pub open spec fn record_well_kinded<V>(model: Model, record: Seq<(String, RecordValue<V>)>) -> bool {
    forall|i: int| 0 <= i < record.len()
        ==> (is_relation_key(model, (#[trigger] record[i]).0@) <==> record[i].1 is Related)
}

/// The values after reading `record` into values `vm`: each field's value is set (removed
/// for null), in order.
pub open spec fn values_read<V>(vm: Map<Seq<char>, V>, model: Model, record: Seq<(String, RecordValue<V>)>) -> Map<Seq<char>, V>
    decreases record.len(),
{
    if record.len() == 0 {
        vm
    } else {
        let rest = values_read(vm, model, record.drop_last());
        let k = record.last().0@;
        if is_field_key(model, k) {
            match record.last().1 {
                RecordValue::Value(Some(x)) => rest.insert(k, x),
                RecordValue::Value(None) => rest.remove(k),
                RecordValue::Related(_) => rest,
            }
        } else {
            rest
        }
    }
}

/// The fetched related objects after reading `record`: each relation's records, in order.
pub open spec fn queries_read<V>(qm: Map<Seq<char>, Vec<Object<V>>>, model: Model, record: Seq<(String, RecordValue<V>)>) -> Map<Seq<char>, Vec<Object<V>>>
    decreases record.len(),
{
    if record.len() == 0 {
        qm
    } else {
        let rest = queries_read(qm, model, record.drop_last());
        let k = record.last().0@;
        match record.last().1 {
            RecordValue::Related(objects) => if is_relation_key(model, k) {
                rest.insert(k, objects)
            } else {
                rest
            },
            RecordValue::Value(_) => rest,
        }
    }
}

/// The cached property values after reading `record`, in order: each property's value is
/// cached; for an object that has been saved or read, setting a field forgets what was
/// cached for the properties that depend on it.
pub open spec fn cache_read<V>(cm: Map<Seq<char>, Option<V>>, is_new: bool, model: Model, record: Seq<(String, RecordValue<V>)>) -> Map<Seq<char>, Option<V>>
    decreases record.len(),
{
    if record.len() == 0 {
        cm
    } else {
        let rest = cache_read(cm, is_new, model, record.drop_last());
        let k = record.last().0@;
        if is_field_key(model, k) {
            if is_new {
                rest
            } else {
                rest.remove_keys(Object::<V>::dependent_properties(model, k))
            }
        } else if is_property_key(model, k) {
            match record.last().1 {
                RecordValue::Value(v) => rest.insert(k, v),
                RecordValue::Related(_) => rest,
            }
        } else {
            rest
        }
    }
}

/// The keys recorded as changed after reading `record`: for an object that has been saved or
/// read, each field set and the properties that depend on it.
pub open spec fn changes_read<V>(md: Set<Seq<char>>, is_new: bool, model: Model, record: Seq<(String, RecordValue<V>)>) -> Set<Seq<char>>
    decreases record.len(),
{
    if record.len() == 0 {
        md
    } else {
        let rest = changes_read(md, is_new, model, record.drop_last());
        let k = record.last().0@;
        if is_field_key(model, k) && !is_new {
            rest.insert(k) + Object::<V>::dependent_properties(model, k)
        } else {
            rest
        }
    }
}

/// The names selected for output after choosing `select` for an object that selected
/// `selected`, as `set_select` chooses them.
pub open spec fn selection_read(selected: Seq<Seq<char>>, model: Model, select: Option<Seq<(String, bool)>>) -> Seq<Seq<char>> {
    match select {
        None => selected,
        Some(s) => if s.len() == 0 {
            selected
        } else if exists|i: int| 0 <= i < s.len() && s[i].1 == false {
            kept_names(model, strings_view(model.cache.all_keys@), listed_keys(s, false), false)
        } else {
            kept_names(model, strings_view(model.cache.all_keys@), listed_keys(s, true), true)
        },
    }
}

impl<V: Clone> Object<V> {
    /// Reads the database record `record` into the object, entry by entry: a field's value is
    /// set as setting it sets it; a relation's records become its fetched objects; a
    /// property's value is cached. Then `select` chooses the keys to output, and the object
    /// counts as read and unchanged.
    pub fn set_from_database_result_value(
        &mut self,
        model: &Model,
        record: Vec<(String, RecordValue<V>)>,
        select: Option<&Vec<(String, bool)>>,
    )
        requires
            record_well_kinded(*model, record@),
        ensures
            final(self).value_map@ == values_read(old(self).value_map@, *model, record@),
            final(self).relation_query_map@ == queries_read(old(self).relation_query_map@, *model, record@),
            final(self).cached_property_map@ == cache_read(old(self).cached_property_map@, old(self).is_new, *model, record@),
            final(self).modified_fields@.dom() == changes_read(old(self).modified_fields@.dom(), old(self).is_new, *model, record@),
            old(self).is_new ==> final(self).previous_value_map@ == old(self).previous_value_map@,
            strings_view(final(self).selected_fields@) == selection_read(strings_view(old(self).selected_fields@), *model,
                match select {
                    Some(s) => Some(s@),
                    None => None,
                }),
            *final(self) == (Object {
                value_map: final(self).value_map,
                previous_value_map: final(self).previous_value_map,
                modified_fields: final(self).modified_fields,
                cached_property_map: final(self).cached_property_map,
                relation_query_map: final(self).relation_query_map,
                selected_fields: final(self).selected_fields,
                is_new: false,
                is_modified: false,
                ..*old(self)
            }),
    {
        let ghost all = record@;
        let ghost start = *self;
        let mut record = record;
        let n = record.len();
        assert(all.len() == n);
        let mut i: usize = 0;
        while record.len() > 0
            invariant
                record_well_kinded(*model, all),
                i + record@.len() == all.len(),
                record@ == all.skip(i as int),
                self.value_map@ == values_read(start.value_map@, *model, all.take(i as int)),
                self.relation_query_map@ == queries_read(start.relation_query_map@, *model, all.take(i as int)),
                self.cached_property_map@ == cache_read(start.cached_property_map@, start.is_new, *model, all.take(i as int)),
                self.modified_fields@.dom() == changes_read(start.modified_fields@.dom(), start.is_new, *model, all.take(i as int)),
                start.is_new ==> self.previous_value_map@ == start.previous_value_map@,
                all.len() <= usize::MAX,
                *self == (Object {
                    value_map: self.value_map,
                    previous_value_map: self.previous_value_map,
                    modified_fields: self.modified_fields,
                    cached_property_map: self.cached_property_map,
                    relation_query_map: self.relation_query_map,
                    is_modified: self.is_modified,
                    ..start
                }),
            decreases record@.len(),
        {
            let ghost before = *self;
            let (key, value) = record.remove(0);
            proof {
                assert(all[i as int] == (key, value));
                assert(all.take(i + 1).drop_last() =~= all.take(i as int));
                assert(all.take(i + 1).last() == (key, value));
                assert(record@ =~= all.skip(i + 1));
            }
            if model.field(key.as_str()).is_some() {
                match value {
                    RecordValue::Value(v) => {
                        self.set_value_to_value_map(model, key.as_str(), v);
                    },
                    RecordValue::Related(_) => {},
                }
            } else if model.relation(key.as_str()).is_some() {
                match value {
                    RecordValue::Related(objects) => {
                        self.relation_query_map.insert(key, objects);
                    },
                    RecordValue::Value(_) => {},
                }
            } else if model.property(key.as_str()).is_some() {
                match value {
                    RecordValue::Value(v) => {
                        self.cached_property_map.insert(key, v);
                    },
                    RecordValue::Related(_) => {},
                }
            }
            i = i + 1;
        }
        proof {
            assert(all.take(i as int) =~= all);
        }
        self.set_select(model, select);
        self.is_new = false;
        self.is_modified = false;
    }
}

/// Reading a record sets each field it gives a value for to that value (removes it, for
/// null), where no later entry names the same field; a key the record does not name keeps
/// the value it held.
pub proof fn law_record_values<V>(vm: Map<Seq<char>, V>, model: Model, record: Seq<(String, RecordValue<V>)>, key: Seq<char>)
    ensures
        (forall|j: int| 0 <= j < record.len() ==> (#[trigger] record[j]).0@ != key)
            ==> values_read(vm, model, record).get(key) == vm.get(key),
        forall|i: int| 0 <= i < record.len() && is_field_key(model, (#[trigger] record[i]).0@)
            && (forall|j: int| i < j < record.len() ==> (#[trigger] record[j]).0@ != record[i].0@)
            ==> (match record[i].1 {
                RecordValue::Value(v) => values_read(vm, model, record).get(record[i].0@) == v,
                RecordValue::Related(_) => true,
            }),
    decreases record.len(),
{
    if record.len() > 0 {
        let rest = record.drop_last();
        law_record_values(vm, model, rest, key);
        assert forall|j: int| 0 <= j < rest.len() implies #[trigger] rest[j] == record[j] by {}
        assert(record.last() == record[record.len() - 1]);
        assert forall|i: int| 0 <= i < record.len() && is_field_key(model, (#[trigger] record[i]).0@)
            && (forall|j: int| i < j < record.len() ==> (#[trigger] record[j]).0@ != record[i].0@)
            implies (match record[i].1 {
                RecordValue::Value(v) => values_read(vm, model, record).get(record[i].0@) == v,
                RecordValue::Related(_) => true,
            }) by {
            if i < record.len() - 1 {
                assert(rest[i] == record[i]);
                assert forall|j: int| i < j < rest.len() implies (#[trigger] rest[j]).0@ != rest[i].0@ by {
                    assert(rest[j] == record[j]);
                }
                assert(record[record.len() - 1].0@ != record[i].0@);
            }
        }
    }
}

/// Reading a record makes each relation's records it gives the relation's fetched objects,
/// where no later entry names the same relation; a key the record does not name keeps what
/// was fetched for it.
pub proof fn law_record_relations<V>(qm: Map<Seq<char>, Vec<Object<V>>>, model: Model, record: Seq<(String, RecordValue<V>)>, key: Seq<char>)
    ensures
        (forall|j: int| 0 <= j < record.len() ==> (#[trigger] record[j]).0@ != key)
            ==> queries_read(qm, model, record).get(key) == qm.get(key),
        forall|i: int| 0 <= i < record.len() && is_relation_key(model, (#[trigger] record[i]).0@)
            && (forall|j: int| i < j < record.len() ==> (#[trigger] record[j]).0@ != record[i].0@)
            ==> (match record[i].1 {
                RecordValue::Related(objects) => queries_read(qm, model, record).get(record[i].0@) == Some(objects),
                RecordValue::Value(_) => true,
            }),
    decreases record.len(),
{
    if record.len() > 0 {
        let rest = record.drop_last();
        law_record_relations(qm, model, rest, key);
        assert forall|j: int| 0 <= j < rest.len() implies #[trigger] rest[j] == record[j] by {}
        assert(record.last() == record[record.len() - 1]);
        assert forall|i: int| 0 <= i < record.len() && is_relation_key(model, (#[trigger] record[i]).0@)
            && (forall|j: int| i < j < record.len() ==> (#[trigger] record[j]).0@ != record[i].0@)
            implies (match record[i].1 {
                RecordValue::Related(objects) => queries_read(qm, model, record).get(record[i].0@) == Some(objects),
                RecordValue::Value(_) => true,
            }) by {
            if i < record.len() - 1 {
                assert(rest[i] == record[i]);
                assert forall|j: int| i < j < rest.len() implies (#[trigger] rest[j]).0@ != rest[i].0@ by {
                    assert(rest[j] == record[j]);
                }
                assert(record[record.len() - 1].0@ != record[i].0@);
            }
        }
    }
}

/// Reading a record into a new object caches each property value it gives, where no later
/// entry names the same property; a key the record does not name keeps what was cached.
pub proof fn law_record_properties<V>(cm: Map<Seq<char>, Option<V>>, model: Model, record: Seq<(String, RecordValue<V>)>, key: Seq<char>)
    ensures
        (forall|j: int| 0 <= j < record.len() ==> (#[trigger] record[j]).0@ != key)
            ==> cache_read(cm, true, model, record).get(key) == cm.get(key),
        forall|i: int| 0 <= i < record.len() && is_property_key(model, (#[trigger] record[i]).0@)
            && (forall|j: int| i < j < record.len() ==> (#[trigger] record[j]).0@ != record[i].0@)
            ==> (match record[i].1 {
                RecordValue::Value(v) => cache_read(cm, true, model, record).get(record[i].0@) == Some(v),
                RecordValue::Related(_) => true,
            }),
    decreases record.len(),
{
    if record.len() > 0 {
        let rest = record.drop_last();
        law_record_properties(cm, model, rest, key);
        assert forall|j: int| 0 <= j < rest.len() implies #[trigger] rest[j] == record[j] by {}
        assert(record.last() == record[record.len() - 1]);
        assert forall|i: int| 0 <= i < record.len() && is_property_key(model, (#[trigger] record[i]).0@)
            && (forall|j: int| i < j < record.len() ==> (#[trigger] record[j]).0@ != record[i].0@)
            implies (match record[i].1 {
                RecordValue::Value(v) => cache_read(cm, true, model, record).get(record[i].0@) == Some(v),
                RecordValue::Related(_) => true,
            }) by {
            if i < record.len() - 1 {
                assert(rest[i] == record[i]);
                assert forall|j: int| i < j < rest.len() implies (#[trigger] rest[j]).0@ != rest[i].0@ by {
                    assert(rest[j] == record[j]);
                }
                assert(record[record.len() - 1].0@ != record[i].0@);
            }
        }
    }
}

} // verus!
