use vstd::prelude::*;
use crate::model::model::{Model, first_primary};
use crate::action::Action;
use crate::model::relation::Relation;
use crate::model::maps::{entries_get, field_map_entries, property_map_entries, relation_map_entries};
use crate::optionality::Optionality;
use crate::readwrite::Write;
use crate::model::field::previous::Previous;
use crate::name_map::NameMap;
use crate::utils::{strings_view, contains_str};

verus! {

/// Why a value could not be set on an object, or an object could not be saved.
#[derive(Debug)]
pub enum ObjectError {
    /// The key is none of the model's keys that can take a value.
    InvalidKey(String),
    /// The input holds a key that is not allowed there.
    KeyNotAllowed(String),
    /// The key may not be written now.
    UnexpectedKey(String),
    /// A required value is missing at the key.
    MissingRequiredInput(String),
    /// A value is missing at the key that the other values present make required.
    MissingRequiredInputWithType(String),
    /// The operation may not be performed now; the message says why.
    InvalidOperation(String),
}

/// The keys that a selection lists with the flag `flag`.
pub open spec fn listed_keys(select: Seq<(String, bool)>, flag: bool) -> Set<Seq<char>> {
    Set::new(|k: Seq<char>| exists|i: int| 0 <= i < select.len() && select[i].0@ == k && select[i].1 == flag)
}

/// The name of the field (one that is not dropped) or else the property that `key` names in
/// `model`.
pub open spec fn key_name(model: Model, key: Seq<char>) -> Option<Seq<char>> {
    match entries_get(field_map_entries(model.fields), key) {
        Some(f) if !f.dropped => Some(f.name@),
        _ => match entries_get(property_map_entries(model.properties), key) {
            Some(p) => Some(p.name@),
            None => None,
        },
    }
}

/// The names of the fields and properties that the keys of `keys` name in `model`, in order,
/// of the keys that are in `list` if `keep_listed`, else of those that are not.
pub open spec fn kept_names(model: Model, keys: Seq<Seq<char>>, list: Set<Seq<char>>, keep_listed: bool) -> Seq<Seq<char>>
    decreases keys.len(),
{
    if keys.len() == 0 {
        Seq::empty()
    } else {
        let rest = kept_names(model, keys.drop_last(), list, keep_listed);
        match key_name(model, keys.last()) {
            Some(n) => if list.contains(keys.last()) == keep_listed {
                rest.push(n)
            } else {
                rest
            },
            None => rest,
        }
    }
}

/// Whether `select` lists `key` with the flag `flag`.
fn listed(select: &Vec<(String, bool)>, key: &str, flag: bool) -> (r: bool)
    ensures
        r == listed_keys(select@, flag).contains(key@),
{
    let mut i: usize = 0;
    while i < select.len()
        invariant
            i <= select@.len(),
            forall|j: int| 0 <= j < i ==> !(select@[j].0@ == key@ && select@[j].1 == flag),
        decreases select@.len() - i,
    {
        if select[i].1 == flag && crate::utils::str_eq(select[i].0.as_str(), key) {
            return true;
        }
        i = i + 1;
    }
    false
}

/// Whether `select` lists some key with the flag `flag`.
fn has_flag(select: &Vec<(String, bool)>, flag: bool) -> (r: bool)
    ensures
        r == exists|i: int| 0 <= i < select@.len() && select@[i].1 == flag,
{
    let mut i: usize = 0;
    while i < select.len()
        invariant
            i <= select@.len(),
            forall|j: int| 0 <= j < i ==> select@[j].1 != flag,
        decreases select@.len() - i,
    {
        if select[i].1 == flag {
            return true;
        }
        i = i + 1;
    }
    false
}

/// The names of the fields and properties that `model`'s keys name, in the order of its keys,
/// of the keys in `list` if `keep_listed`, else of those not in it.
fn names_of_keys(model: &Model, select: &Vec<(String, bool)>, flag: bool, keep_listed: bool) -> (r: Vec<String>)
    ensures
        strings_view(r@) == kept_names(*model, strings_view(model.cache.all_keys@), listed_keys(select@, flag), keep_listed),
{
    let keys = &model.cache.all_keys;
    let ghost ks = strings_view(keys@);
    let ghost list = listed_keys(select@, flag);
    let mut result: Vec<String> = Vec::new();
    let mut i: usize = 0;
    assert(ks.take(0) =~= Seq::<Seq<char>>::empty());
    while i < keys.len()
        invariant
            ks == strings_view(keys@),
            list == listed_keys(select@, flag),
            i <= keys@.len(),
            strings_view(result@) == kept_names(*model, ks.take(i as int), list, keep_listed),
        decreases keys@.len() - i,
    {
        let k = keys[i].as_str();
        assert(ks.take(i + 1).drop_last() =~= ks.take(i as int));
        assert(ks.take(i + 1).last() == k@);
        let ghost before = result@;
        let name: Option<&String> = match model.field(k) {
            Some(f) => Some(&f.name),
            None => match model.property(k) {
                Some(p) => Some(&p.name),
                None => None,
            },
        };
        match name {
            Some(n) => {
                if listed(select, k, flag) == keep_listed {
                    result.push(n.clone());
                    assert(strings_view(result@) =~= strings_view(before).push(n@));
                }
            },
            None => {},
        }
        i = i + 1;
    }
    assert(ks.take(keys@.len() as int) =~= ks);
    result
}

/// The first key of `keys` that `allowed` does not hold.
pub open spec fn first_unallowed(keys: Seq<Seq<char>>, allowed: Seq<Seq<char>>) -> Option<Seq<char>>
    decreases keys.len(),
{
    if keys.len() == 0 {
        None
    } else if !allowed.contains(keys[0]) {
        Some(keys[0])
    } else {
        first_unallowed(keys.drop_first(), allowed)
    }
}

/// Checks that every key of an input is allowed; the first that is not gives `KeyNotAllowed`.
pub fn check_user_json_keys(keys: &Vec<String>, allowed: &Vec<String>) -> (r: Result<(), ObjectError>)
    ensures
        match first_unallowed(strings_view(keys@), strings_view(allowed@)) {
            Some(k) => r matches Err(ObjectError::KeyNotAllowed(s)) && s@ == k,
            None => r is Ok,
        },
{
    let ghost ks = strings_view(keys@);
    let mut i: usize = 0;
    assert(ks.skip(0) =~= ks);
    while i < keys.len()
        invariant
            ks == strings_view(keys@),
            i <= ks.len(),
            first_unallowed(ks.skip(i as int), strings_view(allowed@)) == first_unallowed(ks, strings_view(allowed@)),
        decreases ks.len() - i,
    {
        assert(ks.skip(i as int)[0] == keys@[i as int]@);
        assert(ks.skip(i as int).drop_first() =~= ks.skip(i + 1));
        if !contains_str(allowed, keys[i].as_str()) {
            return Err(ObjectError::KeyNotAllowed(keys[i].clone()));
        }
        i = i + 1;
    }
    assert(ks.skip(i as int).len() == 0);
    Ok(())
}

/// The keys of `keys` that `present` holds, in order.
pub open spec fn keys_present(keys: Seq<Seq<char>>, present: Seq<Seq<char>>) -> Seq<Seq<char>>
    decreases keys.len(),
{
    if keys.len() == 0 {
        Seq::empty()
    } else if present.contains(keys.last()) {
        keys_present(keys.drop_last(), present).push(keys.last())
    } else {
        keys_present(keys.drop_last(), present)
    }
}

/// The values the references of `r` point to.
pub open spec fn deref_option<V>(r: Option<&V>) -> Option<V> {
    match r {
        Some(x) => Some(*x),
        None => None,
    }
}

/// Where the output of an object takes the value of a key from.
#[derive(Debug, Clone, Copy, PartialEq, Eq, Structural)]
pub enum OutputSource {
    /// The related objects fetched for the relation.
    Relation,
    /// The field's value, through its output pipeline.
    Field,
    /// The value cached for the property.
    CachedProperty,
    /// The property's getter.
    PropertyGetter,
    /// The key is left out.
    Nothing,
}

/// What an object of a model holds between its reads and saves: its values, what changed since
/// it was read, and the keys chosen for output. `V` is the type of the values; a null value is
/// held as no value. The object's model is the one at `model_path`; `action` is the handler
/// the object was made for.
#[derive(Debug)]
pub struct Object<V> {
    pub model_path: Vec<String>,
    pub action: Action,
    /// Whether the model's before-save callbacks are running for the object.
    pub inside_before_save_callback: bool,
    /// Whether the model's after-save callbacks are running for the object.
    pub inside_after_save_callback: bool,
    pub is_initialized: bool,
    pub is_new: bool,
    pub is_modified: bool,
    pub selected_fields: Vec<String>,
    pub modified_fields: NameMap<()>,
    pub value_map: NameMap<V>,
    pub previous_value_map: NameMap<Option<V>>,
    pub atomic_updater_map: NameMap<V>,
    pub relation_mutation_map: NameMap<V>,
    /// The cached value of each cached property (none for null).
    pub cached_property_map: NameMap<Option<V>>,
    /// The related objects fetched for each relation.
    pub relation_query_map: NameMap<Vec<Object<V>>>,
    /// The object given to replace what each to-one relation relates to (none to relate
    /// nothing).
    pub object_set_map: NameMap<Option<Object<V>>>,
    /// The objects given to replace what each to-many relation relates to.
    pub object_set_many_map: NameMap<Vec<Object<V>>>,
    /// The objects given to connect through each relation.
    pub object_connect_map: NameMap<Vec<Object<V>>>,
    /// The objects given to disconnect through each relation.
    pub object_disconnect_map: NameMap<Vec<Object<V>>>,
    pub ignore_relation: Option<String>,
}

impl<V> Object<V> {
    /// A new object of `model`, made for the handler `action`: not yet initialized, not saved,
    /// holding nothing.
    pub fn new(model: &Model, action: Action) -> (r: Self)
        ensures
            strings_view(r.model_path@) == strings_view(model.path@),
            r.action == action,
            !r.inside_before_save_callback,
            !r.inside_after_save_callback,
            !r.is_initialized,
            r.is_new,
            !r.is_modified,
            r.selected_fields@.len() == 0,
            r.modified_fields@ == Map::<Seq<char>, ()>::empty(),
            r.value_map@ == Map::<Seq<char>, V>::empty(),
            r.previous_value_map@ == Map::<Seq<char>, Option<V>>::empty(),
            r.atomic_updater_map@ == Map::<Seq<char>, V>::empty(),
            r.relation_mutation_map@ == Map::<Seq<char>, V>::empty(),
            r.cached_property_map@ == Map::<Seq<char>, Option<V>>::empty(),
            r.relation_query_map@ == Map::<Seq<char>, Vec<Object<V>>>::empty(),
            r.object_set_map@ == Map::<Seq<char>, Option<Object<V>>>::empty(),
            r.object_set_many_map@ == Map::<Seq<char>, Vec<Object<V>>>::empty(),
            r.object_connect_map@ == Map::<Seq<char>, Vec<Object<V>>>::empty(),
            r.object_disconnect_map@ == Map::<Seq<char>, Vec<Object<V>>>::empty(),
            r.ignore_relation is None,
    {
        Object {
            model_path: crate::utils::clone_strings(&model.path),
            action,
            inside_before_save_callback: false,
            inside_after_save_callback: false,
            is_initialized: false,
            is_new: true,
            is_modified: false,
            selected_fields: Vec::new(),
            modified_fields: NameMap::new(),
            value_map: NameMap::new(),
            previous_value_map: NameMap::new(),
            atomic_updater_map: NameMap::new(),
            relation_mutation_map: NameMap::new(),
            cached_property_map: NameMap::new(),
            relation_query_map: NameMap::new(),
            object_set_map: NameMap::new(),
            object_set_many_map: NameMap::new(),
            object_connect_map: NameMap::new(),
            object_disconnect_map: NameMap::new(),
            ignore_relation: None,
        }
    }

    /// The path of the object's model.
    pub fn model_path(&self) -> (r: &Vec<String>)
        ensures
            *r == self.model_path,
    {
        &self.model_path
    }

    /// The handler the object was made for.
    pub fn action(&self) -> (r: Action)
        ensures
            r == self.action,
    {
        self.action
    }

    /// Whether the object has not been saved or read yet.
    pub fn is_new(&self) -> (r: bool)
        ensures
            r == self.is_new,
    {
        self.is_new
    }

    /// Whether a value of the object changed since it was read or saved.
    pub fn is_modified(&self) -> (r: bool)
        ensures
            r == self.is_modified,
    {
        self.is_modified
    }

    /// Records that the value at `key` changed, for an object that has been saved or read.
    fn set_modified_field(&mut self, key: &str)
        ensures
            old(self).is_new ==> *final(self) == *old(self),
            !old(self).is_new ==> final(self).is_modified
                && final(self).modified_fields@ == old(self).modified_fields@.insert(key@, ())
                && *final(self) == (Object { is_modified: true, modified_fields: final(self).modified_fields, ..*old(self) }),
    {
        if !self.is_new {
            self.is_modified = true;
            self.modified_fields.insert(key.to_owned(), ());
        }
    }

    /// The cached properties of `model` that depend on the field `key`.
    pub open spec fn dependent_properties(model: Model, key: Seq<char>) -> Set<Seq<char>> {
        if model.cache.field_property_map@.contains_key(key) {
            strings_view(model.cache.field_property_map@[key]@).to_set()
        } else {
            Set::empty()
        }
    }

    /// Records the atomic update `value` for `key`, and `key` as changed.
    pub fn set_value_to_atomic_updator_map(&mut self, key: &str, value: V)
        ensures
            final(self).atomic_updater_map@ == old(self).atomic_updater_map@.insert(key@, value),
            old(self).is_new ==> *final(self) == (Object { atomic_updater_map: final(self).atomic_updater_map, ..*old(self) }),
            !old(self).is_new ==> final(self).modified_fields@ == old(self).modified_fields@.insert(key@, ())
                && *final(self) == (Object {
                    atomic_updater_map: final(self).atomic_updater_map,
                    is_modified: true,
                    modified_fields: final(self).modified_fields,
                    ..*old(self)
                }),
    {
        self.atomic_updater_map.insert(key.to_owned(), value);
        self.set_modified_field(key);
    }

    /// Records the relation manipulation `value` for `key`, and `key` as changed.
    pub fn set_value_to_relation_manipulation_map(&mut self, key: &str, value: V)
        ensures
            final(self).relation_mutation_map@ == old(self).relation_mutation_map@.insert(key@, value),
            old(self).is_new ==> *final(self) == (Object { relation_mutation_map: final(self).relation_mutation_map, ..*old(self) }),
            !old(self).is_new ==> final(self).modified_fields@ == old(self).modified_fields@.insert(key@, ())
                && *final(self) == (Object {
                    relation_mutation_map: final(self).relation_mutation_map,
                    is_modified: true,
                    modified_fields: final(self).modified_fields,
                    ..*old(self)
                }),
    {
        self.relation_mutation_map.insert(key.to_owned(), value);
        self.set_modified_field(key);
    }

    /// The value at `key` (none for null), where `key` is one of the model's keys; else
    /// `InvalidKey`.
    pub fn get_value(&self, model: &Model, key: &str) -> (r: Result<Option<&V>, ObjectError>)
        ensures
            strings_view(model.cache.all_keys@).contains(key@) ==> (r matches Ok(v) && (match v {
                Some(x) => self.value_map@.contains_key(key@) && *x == self.value_map@[key@],
                None => !self.value_map@.contains_key(key@),
            })),
            !strings_view(model.cache.all_keys@).contains(key@) ==> (r matches Err(ObjectError::InvalidKey(k))
                && k@ == key@),
    {
        if !contains_str(&model.cache.all_keys, key) {
            return Err(ObjectError::InvalidKey(key.to_owned()));
        }
        Ok(self.value_map.get(key))
    }

    /// The atomic update recorded for `key`.
    pub fn get_atomic_updator(&self, key: &str) -> (r: Option<&V>)
        ensures
            match r {
                Some(x) => self.atomic_updater_map@.contains_key(key@) && *x == self.atomic_updater_map@[key@],
                None => !self.atomic_updater_map@.contains_key(key@),
            },
    {
        self.atomic_updater_map.get(key)
    }

    /// Whether the value at `key` changed or has an atomic update.
    pub open spec fn key_changed(self, key: Seq<char>) -> bool {
        self.modified_fields@.contains_key(key) || self.atomic_updater_map@.contains_key(key)
    }

    /// The keys of `keys` that changed or have an atomic update, in order.
    pub open spec fn changed_keys(self, keys: Seq<Seq<char>>) -> Seq<Seq<char>>
        decreases keys.len(),
    {
        if keys.len() == 0 {
            Seq::empty()
        } else if self.key_changed(keys.last()) {
            self.changed_keys(keys.drop_last()).push(keys.last())
        } else {
            self.changed_keys(keys.drop_last())
        }
    }

    /// The keys to save: all the model's save keys for a new object, else those of them that
    /// changed or have an atomic update.
    pub fn keys_for_save(&self, model: &Model) -> (r: Vec<String>)
        ensures
            self.is_new ==> strings_view(r@) == strings_view(model.cache.save_keys@),
            !self.is_new ==> strings_view(r@) == self.changed_keys(strings_view(model.cache.save_keys@)),
    {
        let keys = &model.cache.save_keys;
        if self.is_new {
            return crate::utils::clone_strings(keys);
        }
        let ghost ks = strings_view(keys@);
        let mut result: Vec<String> = Vec::new();
        let mut i: usize = 0;
        assert(ks.take(0) =~= Seq::<Seq<char>>::empty());
        while i < keys.len()
            invariant
                ks == strings_view(keys@),
                i <= keys@.len(),
                strings_view(result@) == self.changed_keys(ks.take(i as int)),
            decreases keys@.len() - i,
        {
            let k = keys[i].as_str();
            assert(ks.take(i + 1).drop_last() =~= ks.take(i as int));
            assert(ks.take(i + 1).last() == k@);
            if self.modified_fields.contains_key(k) || self.atomic_updater_map.contains_key(k) {
                let ghost before = result@;
                result.push(keys[i].clone());
                assert(strings_view(result@) =~= strings_view(before).push(k@));
            }
            i = i + 1;
        }
        assert(ks.take(keys@.len() as int) =~= ks);
        result
    }

    /// Marks the object as saved and unchanged.
    pub fn clear_new_state(&mut self)
        ensures
            *final(self) == (Object { is_new: false, is_modified: false, ..*old(self) }),
    {
        self.is_new = false;
        self.is_modified = false;
    }

    /// Marks the object as saved and unchanged, forgetting which values changed.
    pub fn clear_state(&mut self)
        ensures
            final(self).modified_fields@ == Map::<Seq<char>, ()>::empty(),
            *final(self) == (Object {
                is_new: false,
                is_modified: false,
                modified_fields: final(self).modified_fields,
                ..*old(self)
            }),
    {
        self.is_new = false;
        self.is_modified = false;
        self.modified_fields = NameMap::new();
    }

    /// Leaves the relation named `name` out of the check of required relations.
    pub fn ignore_relation(&mut self, name: &str)
        ensures
            final(self).ignore_relation is Some,
            final(self).ignore_relation->0@ == name@,
            *final(self) == (Object { ignore_relation: final(self).ignore_relation, ..*old(self) }),
    {
        self.ignore_relation = Some(name.to_owned());
    }

    /// Chooses the fields and properties to output from the selection `select` (key and flag
    /// pairs): with a key flagged `false`, all of the model's but those so flagged; else, with
    /// a key flagged `true`, those so flagged. No selection, or an empty one, changes nothing.
    pub fn set_select(&mut self, model: &Model, select: Option<&Vec<(String, bool)>>)
        ensures
            (match select {
                None => *final(self) == *old(self),
                Some(s) => if s@.len() == 0 {
                    *final(self) == *old(self)
                } else {
                    let has_false = exists|i: int| 0 <= i < s@.len() && s@[i].1 == false;
                    &&& strings_view(final(self).selected_fields@) == (if has_false {
                        kept_names(*model, strings_view(model.cache.all_keys@), listed_keys(s@, false), false)
                    } else {
                        kept_names(*model, strings_view(model.cache.all_keys@), listed_keys(s@, true), true)
                    })
                    &&& *final(self) == (Object { selected_fields: final(self).selected_fields, ..*old(self) })
                },
            }),
    {
        match select {
            None => {},
            Some(s) => {
                if s.len() == 0 {
                    return;
                }
                if has_flag(s, false) {
                    self.selected_fields = names_of_keys(model, s, false, false);
                } else {
                    self.selected_fields = names_of_keys(model, s, true, true);
                }
            },
        }
    }

    /// Whether the field or property `key` is output: every one is when none was selected,
    /// else the selected ones.
    pub fn is_selected_for_output(&self, key: &str) -> (r: bool)
        ensures
            r == (self.selected_fields@.len() == 0 || strings_view(self.selected_fields@).contains(key@)),
    {
        self.selected_fields.len() == 0 || contains_str(&self.selected_fields, key)
    }

    /// Whether the object holds a value at `key`.
    pub open spec fn has_value(self, key: Seq<char>) -> bool {
        self.value_map@.contains_key(key)
    }

    /// The requirement that the field `key` of `model` fails, if it fails one, with the key the
    /// error names and whether the other values make the field required: for a field without a
    /// value, a required one fails at `key`; one present with one of its fields that has a
    /// value, or present without the first of its fields, which has none, fails at `key` with
    /// the other values; one present if a pipeline passes fails at the field's name where that
    /// pipeline failed, as `failed_present_if` says. Automatic fields and foreign keys are not
    /// checked.
    pub open spec fn field_requirement_failure(
        self,
        model: Model,
        key: Seq<char>,
        failed_present_if: Set<Seq<char>>,
    ) -> Option<(Seq<char>, bool)> {
        match entries_get(field_map_entries(model.fields), key) {
            Some(f) if !f.dropped && !(f.auto || f.auto_increment || f.foreign_key) => {
                if self.has_value(key) {
                    None
                } else {
                    match f.optionality {
                        Optionality::Optional => None,
                        Optionality::Required => Some((key, false)),
                        Optionality::PresentWith(names) => if exists|i: int|
                            0 <= i < names@.len() && self.has_value(#[trigger] names@[i]@) {
                            Some((key, true))
                        } else {
                            None
                        },
                        Optionality::PresentWithout(names) => if names@.len() > 0 && !self.has_value(names@[0]@) {
                            Some((key, true))
                        } else {
                            None
                        },
                        Optionality::PresentIf(_) => if failed_present_if.contains(key) {
                            Some((f.name@, false))
                        } else {
                            None
                        },
                    }
                }
            },
            _ => None,
        }
    }

    /// The first key of `keys` whose field fails its requirement: the key the error names and
    /// whether the other values make the field required.
    pub open spec fn first_field_failure(
        self,
        model: Model,
        keys: Seq<Seq<char>>,
        failed_present_if: Set<Seq<char>>,
    ) -> Option<(Seq<char>, bool)>
        decreases keys.len(),
    {
        if keys.len() == 0 {
            None
        } else {
            match self.field_requirement_failure(model, keys[0], failed_present_if) {
                Some(e) => Some(e),
                None => self.first_field_failure(model, keys.drop_first(), failed_present_if),
            }
        }
    }

    /// Whether the relation `key` of `model` is required and missing: for a new object, a
    /// required relation to one record, not ignored, with no manipulation given, and one of
    /// its fields without a value.
    pub open spec fn relation_requirement_fails(self, model: Model, key: Seq<char>, ignore_required_relation: bool) -> bool {
        match entries_get(relation_map_entries(model.relations), key) {
            Some(r) => {
                &&& !(self.ignore_relation is Some && self.ignore_relation->0@ == r.name@)
                &&& self.is_new
                &&& r.optionality is Required
                &&& !r.is_vec
                &&& !ignore_required_relation
                &&& !self.relation_mutation_map@.contains_key(key)
                &&& exists|i: int| 0 <= i < r.fields@.len() && !self.has_value(#[trigger] r.fields@[i]@)
            },
            None => false,
        }
    }

    /// The first key of `keys` whose relation is required and missing.
    pub open spec fn first_relation_failure(self, model: Model, keys: Seq<Seq<char>>, ignore_required_relation: bool) -> Option<Seq<char>>
        decreases keys.len(),
    {
        if keys.len() == 0 {
            None
        } else if self.relation_requirement_fails(model, keys[0], ignore_required_relation) {
            Some(keys[0])
        } else {
            self.first_relation_failure(model, keys.drop_first(), ignore_required_relation)
        }
    }

    /// Checks that the object holds the values that `model` requires before saving: the fields
    /// of its save keys in order, then the relations of its relation output keys in order.
    /// `failed_present_if` lists the keys whose present-if pipeline failed. The first failure
    /// gives the error: `MissingRequiredInput` or `MissingRequiredInputWithType` for a field,
    /// `MissingRequiredInput` for a relation.
    pub fn validate_required_fields(
        &self,
        model: &Model,
        ignore_required_relation: bool,
        failed_present_if: &Vec<String>,
    ) -> (r: Result<(), ObjectError>)
        ensures
            ({
                let ff = self.first_field_failure(
                    *model,
                    strings_view(model.cache.save_keys@),
                    strings_view(failed_present_if@).to_set(),
                );
                let rf = self.first_relation_failure(*model, strings_view(model.cache.relation_output_keys@), ignore_required_relation);
                match ff {
                    Some((k, false)) => r matches Err(ObjectError::MissingRequiredInput(s)) && s@ == k,
                    Some((k, true)) => r matches Err(ObjectError::MissingRequiredInputWithType(s)) && s@ == k,
                    None => match rf {
                        Some(k) => r matches Err(ObjectError::MissingRequiredInput(s)) && s@ == k,
                        None => r is Ok,
                    },
                }
            }),
    {
        let ghost failed = strings_view(failed_present_if@).to_set();
        let keys = &model.cache.save_keys;
        let ghost ks = strings_view(keys@);
        let mut i: usize = 0;
        assert(ks.skip(0) =~= ks);
        while i < keys.len()
            invariant
                ks == strings_view(keys@),
                *keys == model.cache.save_keys,
                failed == strings_view(failed_present_if@).to_set(),
                i <= ks.len(),
                self.first_field_failure(*model, ks.skip(i as int), failed) == self.first_field_failure(*model, ks, failed),
            decreases ks.len() - i,
        {
            let key = keys[i].as_str();
            assert(ks.skip(i as int)[0] == key@);
            assert(ks.skip(i as int).drop_first() =~= ks.skip(i + 1));
            match self.field_failure(model, key, failed_present_if) {
                Some((name, with_type)) => {
                    assert(self.first_field_failure(*model, ks.skip(i as int), failed) == Some((name@, with_type)));
                    if with_type {
                        return Err(ObjectError::MissingRequiredInputWithType(name));
                    } else {
                        return Err(ObjectError::MissingRequiredInput(name));
                    }
                },
                None => {},
            }
            i = i + 1;
        }
        assert(ks.skip(i as int).len() == 0);
        assert(self.first_field_failure(*model, ks, failed) is None);
        let rkeys = &model.cache.relation_output_keys;
        let ghost rks = strings_view(rkeys@);
        let mut j: usize = 0;
        assert(rks.skip(0) =~= rks);
        while j < rkeys.len()
            invariant
                rks == strings_view(rkeys@),
                *rkeys == model.cache.relation_output_keys,
                j <= rks.len(),
                self.first_relation_failure(*model, rks.skip(j as int), ignore_required_relation)
                    == self.first_relation_failure(*model, rks, ignore_required_relation),
                self.first_field_failure(*model, strings_view(model.cache.save_keys@),
                    strings_view(failed_present_if@).to_set()) is None,
            decreases rks.len() - j,
        {
            let key = rkeys[j].as_str();
            assert(rks.skip(j as int)[0] == key@);
            assert(rks.skip(j as int).drop_first() =~= rks.skip(j + 1));
            if self.relation_fails(model, key, ignore_required_relation) {
                assert(self.first_relation_failure(*model, rks.skip(j as int), ignore_required_relation) == Some(key@));
                return Err(ObjectError::MissingRequiredInput(key.to_owned()));
            }
            j = j + 1;
        }
        assert(rks.skip(j as int).len() == 0);
        Ok(())
    }

    /// How the field `key` of `model` fails its requirement, if it does: the key the error
    /// names and whether the other values make it required.
    fn field_failure(&self, model: &Model, key: &str, failed_present_if: &Vec<String>) -> (r: Option<(String, bool)>)
        ensures
            (match r {
                Some((s, t)) => Some((s@, t)),
                None => None,
            }) == self.field_requirement_failure(*model, key@, strings_view(failed_present_if@).to_set()),
    {
        let field = match model.field(key) {
            Some(f) => f,
            None => return None,
        };
        if field.auto || field.auto_increment || field.foreign_key {
            return None;
        }
        if self.value_map.contains_key(key) {
            return None;
        }
        match &field.optionality {
            Optionality::Optional => None,
            Optionality::Required => Some((key.to_owned(), false)),
            Optionality::PresentWith(names) => {
                if self.any_has_value(names) {
                    Some((key.to_owned(), true))
                } else {
                    None
                }
            },
            Optionality::PresentWithout(names) => {
                if names.len() > 0 && !self.value_map.contains_key(names[0].as_str()) {
                    Some((key.to_owned(), true))
                } else {
                    None
                }
            },
            Optionality::PresentIf(_) => {
                if contains_str(failed_present_if, key) {
                    proof {
                        assert(strings_view(failed_present_if@).to_set().contains(key@));
                    }
                    Some((field.name.clone(), false))
                } else {
                    proof {
                        assert(!strings_view(failed_present_if@).to_set().contains(key@));
                    }
                    None
                }
            },
        }
    }

    /// The save keys of `model` whose field has no value and is required only where its
    /// present-if pipeline fails: the keys whose pipeline has to be run before validating.
    pub open spec fn present_if_pending(self, model: Model, key: Seq<char>) -> bool {
        match entries_get(field_map_entries(model.fields), key) {
            Some(f) => !f.dropped && !(f.auto || f.auto_increment || f.foreign_key)
                && !self.has_value(key) && f.optionality is PresentIf,
            None => false,
        }
    }

    /// The keys of `keys` whose present-if pipeline has to be run, in order.
    pub open spec fn pending_keys(self, model: Model, keys: Seq<Seq<char>>) -> Seq<Seq<char>>
        decreases keys.len(),
    {
        if keys.len() == 0 {
            Seq::empty()
        } else if self.present_if_pending(model, keys.last()) {
            self.pending_keys(model, keys.drop_last()).push(keys.last())
        } else {
            self.pending_keys(model, keys.drop_last())
        }
    }

    /// The save keys whose present-if pipeline has to be run before validating, in order.
    pub fn present_if_keys(&self, model: &Model) -> (r: Vec<String>)
        ensures
            strings_view(r@) == self.pending_keys(*model, strings_view(model.cache.save_keys@)),
    {
        let keys = &model.cache.save_keys;
        let ghost ks = strings_view(keys@);
        let mut result: Vec<String> = Vec::new();
        let mut i: usize = 0;
        assert(ks.take(0) =~= Seq::<Seq<char>>::empty());
        while i < keys.len()
            invariant
                ks == strings_view(keys@),
                *keys == model.cache.save_keys,
                i <= keys@.len(),
                strings_view(result@) == self.pending_keys(*model, ks.take(i as int)),
            decreases keys@.len() - i,
        {
            let k = keys[i].as_str();
            assert(ks.take(i + 1).drop_last() =~= ks.take(i as int));
            assert(ks.take(i + 1).last() == k@);
            let pending = match model.field(k) {
                Some(f) => !(f.auto || f.auto_increment || f.foreign_key) && !self.value_map.contains_key(k)
                    && match &f.optionality {
                        Optionality::PresentIf(_) => true,
                        _ => false,
                    },
                None => false,
            };
            if pending {
                let ghost before = result@;
                result.push(keys[i].clone());
                assert(strings_view(result@) =~= strings_view(before).push(k@));
            }
            i = i + 1;
        }
        assert(ks.take(keys@.len() as int) =~= ks);
        result
    }

    /// The save keys whose field has an on-save pipeline, in order.
    pub open spec fn on_save_pending(model: Model, keys: Seq<Seq<char>>) -> Seq<Seq<char>>
        decreases keys.len(),
    {
        if keys.len() == 0 {
            Seq::empty()
        } else {
            let rest = Self::on_save_pending(model, keys.drop_last());
            match entries_get(field_map_entries(model.fields), keys.last()) {
                Some(f) if !f.dropped && f.on_save.items@.len() > 0 => rest.push(keys.last()),
                _ => rest,
            }
        }
    }

    /// The save keys whose field has an on-save pipeline, to be run before validating, in
    /// order.
    pub fn on_save_keys(model: &Model) -> (r: Vec<String>)
        ensures
            strings_view(r@) == Self::on_save_pending(*model, strings_view(model.cache.save_keys@)),
    {
        let keys = &model.cache.save_keys;
        let ghost ks = strings_view(keys@);
        let mut result: Vec<String> = Vec::new();
        let mut i: usize = 0;
        assert(ks.take(0) =~= Seq::<Seq<char>>::empty());
        while i < keys.len()
            invariant
                ks == strings_view(keys@),
                *keys == model.cache.save_keys,
                i <= keys@.len(),
                strings_view(result@) == Self::on_save_pending(*model, ks.take(i as int)),
            decreases keys@.len() - i,
        {
            let k = keys[i].as_str();
            assert(ks.take(i + 1).drop_last() =~= ks.take(i as int));
            assert(ks.take(i + 1).last() == k@);
            let pending = match model.field(k) {
                Some(f) => !f.on_save.is_empty(),
                None => false,
            };
            if pending {
                let ghost before = result@;
                result.push(keys[i].clone());
                assert(strings_view(result@) =~= strings_view(before).push(k@));
            }
            i = i + 1;
        }
        assert(ks.take(keys@.len() as int) =~= ks);
        result
    }

    /// Puts the value that the on-save pipeline of the field `key` gave (none for null), and
    /// records `key` as changed for an object that has been saved or read.
    pub fn apply_on_save_value(&mut self, key: &str, value: Option<V>)
        ensures
            final(self).value_map@ == (match value {
                Some(v) => old(self).value_map@.insert(key@, v),
                None => old(self).value_map@.remove(key@),
            }),
            old(self).is_new ==> *final(self) == (Object { value_map: final(self).value_map, ..*old(self) }),
            !old(self).is_new ==> final(self).modified_fields@ == old(self).modified_fields@.insert(key@, ())
                && *final(self) == (Object {
                    value_map: final(self).value_map,
                    is_modified: true,
                    modified_fields: final(self).modified_fields,
                    ..*old(self)
                }),
    {
        match value {
            Some(v) => {
                self.value_map.insert(key.to_owned(), v);
            },
            None => {
                self.value_map.remove(key);
            },
        }
        self.set_modified_field(key);
    }

    /// Whether the relation `key` of `model` is required and missing.
    fn relation_fails(&self, model: &Model, key: &str, ignore_required_relation: bool) -> (r: bool)
        ensures
            r == self.relation_requirement_fails(*model, key@, ignore_required_relation),
    {
        let relation = match model.relation(key) {
            Some(r) => r,
            None => return false,
        };
        match &self.ignore_relation {
            Some(ignore) => {
                if crate::utils::str_eq(ignore.as_str(), relation.name.as_str()) {
                    return false;
                }
            },
            None => {},
        }
        if !(self.is_new && relation.optionality.is_required() && !relation.is_vec) {
            return false;
        }
        if ignore_required_relation {
            return false;
        }
        if self.relation_mutation_map.contains_key(key) {
            return false;
        }
        !self.all_have_values(&relation.fields)
    }

    /// Whether the object holds a value at one of `names`.
    fn any_has_value(&self, names: &Vec<String>) -> (r: bool)
        ensures
            r == exists|i: int| 0 <= i < names@.len() && self.has_value(#[trigger] names@[i]@),
    {
        let mut i: usize = 0;
        while i < names.len()
            invariant
                i <= names@.len(),
                forall|j: int| 0 <= j < i ==> !self.has_value(#[trigger] names@[j]@),
            decreases names@.len() - i,
        {
            if self.value_map.contains_key(names[i].as_str()) {
                assert(self.has_value(names@[i as int]@));
                return true;
            }
            i = i + 1;
        }
        false
    }

    /// Whether the object holds a value at each of `names`.
    fn all_have_values(&self, names: &Vec<String>) -> (r: bool)
        ensures
            r == !exists|i: int| 0 <= i < names@.len() && !self.has_value(#[trigger] names@[i]@),
    {
        let mut i: usize = 0;
        while i < names.len()
            invariant
                i <= names@.len(),
                forall|j: int| 0 <= j < i ==> self.has_value(#[trigger] names@[j]@),
            decreases names@.len() - i,
        {
            if !self.value_map.contains_key(names[i].as_str()) {
                assert(!self.has_value(names@[i as int]@));
                return false;
            }
            i = i + 1;
        }
        true
    }

    /// The keys of `model` to assign from an input that holds `value_keys`: for an object not
    /// yet initialized, all of them (to apply default values); else those the input holds.
    pub fn keys_to_assign(&self, model: &Model, value_keys: &Vec<String>) -> (r: Vec<String>)
        ensures
            !self.is_initialized ==> strings_view(r@) == strings_view(model.cache.all_keys@),
            self.is_initialized ==> strings_view(r@) == keys_present(
                strings_view(model.cache.all_keys@), strings_view(value_keys@)),
    {
        let keys = &model.cache.all_keys;
        if !self.is_initialized {
            return crate::utils::clone_strings(keys);
        }
        let ghost ks = strings_view(keys@);
        let mut result: Vec<String> = Vec::new();
        let mut i: usize = 0;
        assert(ks.take(0) =~= Seq::<Seq<char>>::empty());
        while i < keys.len()
            invariant
                ks == strings_view(keys@),
                *keys == model.cache.all_keys,
                i <= keys@.len(),
                strings_view(result@) == keys_present(ks.take(i as int), strings_view(value_keys@)),
            decreases keys@.len() - i,
        {
            assert(ks.take(i + 1).drop_last() =~= ks.take(i as int));
            assert(ks.take(i + 1).last() == keys@[i as int]@);
            if contains_str(value_keys, keys[i].as_str()) {
                let ghost before = result@;
                result.push(keys[i].clone());
                assert(strings_view(result@) =~= strings_view(before).push(keys@[i as int]@));
            }
            i = i + 1;
        }
        assert(ks.take(keys@.len() as int) =~= ks);
        result
    }

    /// Whether the write rule of the field lets `value` (null or not) be written at `key` now,
    /// where it does not depend on a pipeline: never, always, only while the object is new,
    /// while new or while the field has no value, while new or for a value that is not null.
    /// `None` where a pipeline decides.
    pub open spec fn write_rule_verdict(self, write: Write, key: Seq<char>, value_is_null: bool) -> Option<bool> {
        match write {
            Write::NoWrite => Some(false),
            Write::Write => Some(true),
            Write::WriteOnCreate => Some(self.is_new),
            Write::WriteOnce => Some(self.is_new || !self.has_value(key)),
            Write::WriteNonNull => Some(self.is_new || !value_is_null),
            Write::WriteIf(_) => None,
        }
    }

    /// Checks that the write rule of the field `key` of `model` lets a value (null or not) be
    /// written now; where the rule is a pipeline, `pipeline_passed` says whether it passed. A
    /// value it does not let be written gives `UnexpectedKey`.
    pub fn check_write_rule(&self, model: &Model, key: &str, value_is_null: bool, pipeline_passed: bool) -> (r: Result<(), ObjectError>)
        requires
            entries_get(field_map_entries(model.fields), key@) is Some,
            !entries_get(field_map_entries(model.fields), key@)->0.dropped,
        ensures
            ({
                let f = entries_get(field_map_entries(model.fields), key@)->0;
                let valid = match self.write_rule_verdict(f.write, key@, value_is_null) {
                    Some(v) => v,
                    None => pipeline_passed,
                };
                &&& valid ==> r is Ok
                &&& !valid ==> (r matches Err(ObjectError::UnexpectedKey(s)) && s@ == key@)
            }),
    {
        let field = model.field(key).unwrap();
        let valid = match &field.write {
            Write::NoWrite => false,
            Write::Write => true,
            Write::WriteOnCreate => self.is_new,
            Write::WriteOnce => self.is_new || !self.value_map.contains_key(key),
            Write::WriteNonNull => self.is_new || !value_is_null,
            Write::WriteIf(_) => pipeline_passed,
        };
        if valid {
            Ok(())
        } else {
            Err(ObjectError::UnexpectedKey(key.to_owned()))
        }
    }

    /// The fields of the primary index of `model`, in order.
    pub open spec fn primary_fields(model: Model) -> Seq<Seq<char>> {
        first_primary(model.spec_indexes())->0.spec_items().map_values(|it: crate::model::index::Item| it.field@)
    }

    /// The previous value recorded at `key`: none where none is recorded or a null one is.
    pub open spec fn recorded_previous(self, key: Seq<char>) -> Option<V> {
        match self.previous_value_map@.get(key) {
            Some(Some(v)) => Some(v),
            _ => None,
        }
    }

    /// The previous value recorded at `key`, none where none is recorded or a null one is.
    fn previous_of(&self, key: &str) -> (r: Option<&V>)
        ensures
            deref_option(r) == self.recorded_previous(key@),
    {
        match self.previous_value_map.get(key) {
            Some(Some(v)) => Some(v),
            _ => None,
        }
    }

    /// The value by which the object was last saved or read at `key`: the previous value where
    /// the value changed and a previous one was recorded, else the value.
    pub open spec fn previous_or_current(self, key: Seq<char>) -> Option<V> {
        if self.modified_fields@.contains_key(key) && self.recorded_previous(key) is Some {
            self.recorded_previous(key)
        } else {
            self.value_map@.get(key)
        }
    }

    /// The value the database holds at `key`: the previous value (none where none was
    /// recorded) where the value changed, else the value.
    pub open spec fn stored_value(self, key: Seq<char>) -> Option<V> {
        if self.modified_fields@.contains_key(key) {
            self.recorded_previous(key)
        } else {
            self.value_map@.get(key)
        }
    }

    /// The fields of the model's primary index, each with the object's value there.
    pub fn identifier(&self, model: &Model) -> (r: Vec<(String, Option<&V>)>)
        requires
            first_primary(model.spec_indexes()) is Some,
        ensures
            r@.len() == Self::primary_fields(*model).len(),
            forall|i: int| 0 <= i < r@.len() ==> (#[trigger] r@[i]).0@ == Self::primary_fields(*model)[i]
                && deref_option(r@[i].1) == self.value_map@.get(Self::primary_fields(*model)[i]),
    {
        let items = model.primary_index().unwrap().items();
        let ghost fs = Self::primary_fields(*model);
        let mut result: Vec<(String, Option<&V>)> = Vec::new();
        let mut i: usize = 0;
        while i < items.len()
            invariant
                fs == items@.map_values(|it: crate::model::index::Item| it.field@),
                i <= items@.len(),
                result@.len() == i,
                forall|j: int| 0 <= j < i ==> (#[trigger] result@[j]).0@ == fs[j]
                    && deref_option(result@[j].1) == self.value_map@.get(fs[j]),
            decreases items@.len() - i,
        {
            let f = &items[i].field;
            result.push((f.clone(), self.value_map.get(f.as_str())));
            i = i + 1;
        }
        result
    }

    /// The fields of the model's primary index, each with the value by which the object was
    /// last saved or read.
    pub fn previous_identifier(&self, model: &Model) -> (r: Vec<(String, Option<&V>)>)
        requires
            first_primary(model.spec_indexes()) is Some,
        ensures
            r@.len() == Self::primary_fields(*model).len(),
            forall|i: int| 0 <= i < r@.len() ==> (#[trigger] r@[i]).0@ == Self::primary_fields(*model)[i]
                && deref_option(r@[i].1) == self.previous_or_current(Self::primary_fields(*model)[i]),
    {
        let items = model.primary_index().unwrap().items();
        let ghost fs = Self::primary_fields(*model);
        let mut result: Vec<(String, Option<&V>)> = Vec::new();
        let mut i: usize = 0;
        while i < items.len()
            invariant
                fs == items@.map_values(|it: crate::model::index::Item| it.field@),
                i <= items@.len(),
                result@.len() == i,
                forall|j: int| 0 <= j < i ==> (#[trigger] result@[j]).0@ == fs[j]
                    && deref_option(result@[j].1) == self.previous_or_current(fs[j]),
            decreases items@.len() - i,
        {
            let f = items[i].field.as_str();
            let v = if self.modified_fields.contains_key(f) && self.previous_of(f).is_some() {
                self.previous_of(f)
            } else {
                self.value_map.get(f)
            };
            result.push((items[i].field.clone(), v));
            i = i + 1;
        }
        result
    }

    /// The column of each field of the model's primary index, with the value the database
    /// holds there.
    pub fn db_identifier(&self, model: &Model) -> (r: Vec<(String, Option<&V>)>)
        requires
            first_primary(model.spec_indexes()) is Some,
            forall|i: int| 0 <= i < Self::primary_fields(*model).len() ==> {
                let f = entries_get(field_map_entries(model.fields), #[trigger] Self::primary_fields(*model)[i]);
                f is Some && !f->0.dropped
            },
        ensures
            r@.len() == Self::primary_fields(*model).len(),
            forall|i: int| 0 <= i < r@.len() ==> (#[trigger] r@[i]).0@ == entries_get(
                field_map_entries(model.fields), Self::primary_fields(*model)[i])->0.column_name@
                && deref_option(r@[i].1) == self.stored_value(Self::primary_fields(*model)[i]),
    {
        let items = model.primary_index().unwrap().items();
        let ghost fs = Self::primary_fields(*model);
        let mut result: Vec<(String, Option<&V>)> = Vec::new();
        let mut i: usize = 0;
        while i < items.len()
            invariant
                fs == items@.map_values(|it: crate::model::index::Item| it.field@),
                fs == Self::primary_fields(*model),
                forall|j: int| 0 <= j < fs.len() ==> {
                    let f = entries_get(field_map_entries(model.fields), #[trigger] fs[j]);
                    f is Some && !f->0.dropped
                },
                i <= items@.len(),
                result@.len() == i,
                forall|j: int| 0 <= j < i ==> (#[trigger] result@[j]).0@ == entries_get(
                    field_map_entries(model.fields), fs[j])->0.column_name@
                    && deref_option(result@[j].1) == self.stored_value(fs[j]),
            decreases items@.len() - i,
        {
            let f = items[i].field.as_str();
            assert(fs[i as int] == f@);
            let field = model.field(f).unwrap();
            let v = if self.modified_fields.contains_key(f) {
                self.previous_of(f)
            } else {
                self.value_map.get(f)
            };
            result.push((field.column_name.clone(), v));
            i = i + 1;
        }
        result
    }

    /// The value the object held at `key` before it changed (none for null), where `key` is one
    /// of the model's keys; else `InvalidKey`.
    pub fn get_previous_value(&self, model: &Model, key: &str) -> (r: Result<Option<&V>, ObjectError>)
        ensures
            strings_view(model.cache.all_keys@).contains(key@) ==> (r matches Ok(v)
                && deref_option(v) == self.recorded_previous(key@)),
            !strings_view(model.cache.all_keys@).contains(key@) ==> (r matches Err(ObjectError::InvalidKey(k))
                && k@ == key@),
    {
        if !contains_str(&model.cache.all_keys, key) {
            return Err(ObjectError::InvalidKey(key.to_owned()));
        }
        Ok(self.previous_of(key))
    }

    /// The entries of `keys` and `values`, in order, whose field of `model` is copied.
    pub open spec fn copied_entries(model: Model, keys: Seq<Seq<char>>, values: Seq<V>) -> Seq<(Seq<char>, V)>
        decreases keys.len(),
    {
        if keys.len() == 0 {
            Seq::empty()
        } else {
            let rest = Self::copied_entries(model, keys.drop_last(), values.drop_last());
            if entries_get(field_map_entries(model.fields), keys.last())->0.copy {
                rest.push((keys.last(), values.last()))
            } else {
                rest
            }
        }
    }

    /// The values of the object, in the order of their keys, whose field is copied when a
    /// record is copied.
    pub fn copied_value(&self, model: &Model) -> (r: Vec<(&String, &V)>)
        requires
            forall|i: int| 0 <= i < self.value_map.keys().len() ==> {
                let f = entries_get(field_map_entries(model.fields), #[trigger] self.value_map.keys()[i]);
                f is Some && !f->0.dropped
            },
        ensures
            r@.map_values(|e: (&String, &V)| (e.0@, *e.1)) == Self::copied_entries(
                *model, self.value_map.keys(), self.value_map.values()),
    {
        let ghost ks = self.value_map.keys();
        let ghost vs = self.value_map.values();
        let n = self.value_map.len();
        let mut result: Vec<(&String, &V)> = Vec::new();
        let mut i: usize = 0;
        assert(ks.take(0) =~= Seq::<Seq<char>>::empty());
        while i < n
            invariant
                ks == self.value_map.keys(),
                vs == self.value_map.values(),
                n == ks.len(),
                n == vs.len(),
                i <= n,
                forall|j: int| 0 <= j < ks.len() ==> {
                    let f = entries_get(field_map_entries(model.fields), #[trigger] ks[j]);
                    f is Some && !f->0.dropped
                },
                result@.map_values(|e: (&String, &V)| (e.0@, *e.1)) == Self::copied_entries(
                    *model, ks.take(i as int), vs.take(i as int)),
            decreases n - i,
        {
            let (k, v) = self.value_map.entry_at(i);
            assert(ks.take(i + 1).drop_last() =~= ks.take(i as int));
            assert(vs.take(i + 1).drop_last() =~= vs.take(i as int));
            assert(ks.take(i + 1).last() == k@);
            assert(vs.take(i + 1).last() == *v);
            let field = model.field(k.as_str()).unwrap();
            let ghost before = result@;
            if field.copy {
                result.push((k, v));
                assert(result@.map_values(|e: (&String, &V)| (e.0@, *e.1)) =~= before.map_values(
                    |e: (&String, &V)| (e.0@, *e.1)).push((k@, *v)));
            }
            i = i + 1;
        }
        assert(ks.take(n as int) =~= ks);
        assert(vs.take(n as int) =~= vs);
        result
    }

    /// Whether assigning an input applies the default value of the field `key`: for an object
    /// not yet initialized, where the input holds no value at `key`.
    pub fn needs_default_value(&self, key: &str, value_keys: &Vec<String>) -> (r: bool)
        ensures
            r == (!self.is_initialized && !strings_view(value_keys@).contains(key@)),
    {
        !self.is_initialized && !contains_str(value_keys, key)
    }

    /// Marks the object as initialized by an input.
    pub fn mark_initialized(&mut self)
        ensures
            *final(self) == (Object { is_initialized: true, ..*old(self) }),
    {
        self.is_initialized = true;
    }

    /// Where the output of the object takes the value of `key` from: a relation's objects, where
    /// they were fetched (else nothing); for a selected key, the field's value, or the property's cached value where it
    /// is cached and one is held, else its getter where it has one; else nothing.
    pub open spec fn spec_output_source(self, model: Model, key: Seq<char>) -> OutputSource {
        if entries_get(relation_map_entries(model.relations), key) is Some {
            if self.relation_query_map@.contains_key(key) {
                OutputSource::Relation
            } else {
                OutputSource::Nothing
            }
        } else if !(self.selected_fields@.len() == 0 || strings_view(self.selected_fields@).contains(key)) {
            OutputSource::Nothing
        } else {
            match entries_get(field_map_entries(model.fields), key) {
                Some(f) if !f.dropped => OutputSource::Field,
                _ => match entries_get(property_map_entries(model.properties), key) {
                    Some(p) => if p.cached && self.cached_property_map@.contains_key(key) {
                        OutputSource::CachedProperty
                    } else if p.getter is Some {
                        OutputSource::PropertyGetter
                    } else {
                        OutputSource::Nothing
                    },
                    None => OutputSource::Nothing,
                },
            }
        }
    }

    /// Where the output of the object takes the value of `key` from.
    pub fn output_source(&self, model: &Model, key: &str) -> (r: OutputSource)
        ensures
            r == self.spec_output_source(*model, key@),
    {
        if model.relation(key).is_some() {
            if self.relation_query_map.contains_key(key) {
                return OutputSource::Relation;
            } else {
                return OutputSource::Nothing;
            }
        }
        if !self.is_selected_for_output(key) {
            return OutputSource::Nothing;
        }
        if model.field(key).is_some() {
            return OutputSource::Field;
        }
        match model.property(key) {
            Some(p) => {
                if p.cached && self.cached_property_map.contains_key(key) {
                    OutputSource::CachedProperty
                } else if p.getter.is_some() {
                    OutputSource::PropertyGetter
                } else {
                    OutputSource::Nothing
                }
            },
            None => OutputSource::Nothing,
        }
    }

    /// What finds the records that `relation` links this object to: each field the relation
    /// refers to, with this object's value in the local field paired with it (none for null).
    pub fn relation_finder<'a>(&'a self, relation: &'a Relation) -> (r: Vec<(&'a str, Option<&'a V>)>)
        requires
            relation.fields@.len() <= relation.references@.len(),
        ensures
            r@.len() == relation.fields@.len(),
            forall|i: int| 0 <= i < r@.len() ==> (#[trigger] r@[i]).0@ == relation.references@[i]@
                && deref_option(r@[i].1) == self.value_map@.get(relation.fields@[i]@),
    {
        let mut result: Vec<(&'a str, Option<&'a V>)> = Vec::new();
        let mut i: usize = 0;
        while i < relation.fields.len()
            invariant
                relation.fields@.len() <= relation.references@.len(),
                i <= relation.fields@.len(),
                result@.len() == i,
                forall|j: int| 0 <= j < i ==> (#[trigger] result@[j]).0@ == relation.references@[j]@
                    && deref_option(result@[j].1) == self.value_map@.get(relation.fields@[j]@),
            decreases relation.fields@.len() - i,
        {
            result.push((relation.references[i].as_str(), self.value_map.get(relation.fields[i].as_str())));
            i = i + 1;
        }
        result
    }

    /// What finds the records that link to this object through `relation`, a relation of
    /// another model: each local field of the relation, with this object's value in the field
    /// it refers to (none for null).
    pub fn opposite_relation_finder<'a>(&'a self, relation: &'a Relation) -> (r: Vec<(&'a str, Option<&'a V>)>)
        requires
            relation.fields@.len() <= relation.references@.len(),
        ensures
            r@.len() == relation.fields@.len(),
            forall|i: int| 0 <= i < r@.len() ==> (#[trigger] r@[i]).0@ == relation.fields@[i]@
                && deref_option(r@[i].1) == self.value_map@.get(relation.references@[i]@),
    {
        let mut result: Vec<(&'a str, Option<&'a V>)> = Vec::new();
        let mut i: usize = 0;
        while i < relation.fields.len()
            invariant
                relation.fields@.len() <= relation.references@.len(),
                i <= relation.fields@.len(),
                result@.len() == i,
                forall|j: int| 0 <= j < i ==> (#[trigger] result@[j]).0@ == relation.fields@[j]@
                    && deref_option(result@[j].1) == self.value_map@.get(relation.references@[j]@),
            decreases relation.fields@.len() - i,
        {
            result.push((relation.fields[i].as_str(), self.value_map.get(relation.references[i].as_str())));
            i = i + 1;
        }
        result
    }

    /// The plan of the output of the object: the keys of `keys` in order whose value is put
    /// out, each with where it comes from; a field whose read permission failed (as `readable`
    /// says, key by key) is left out.
    pub open spec fn output_steps(self, model: Model, keys: Seq<Seq<char>>, readable: Seq<bool>) -> Seq<(Seq<char>, OutputSource)>
        decreases keys.len(),
    {
        if keys.len() == 0 {
            Seq::empty()
        } else {
            let rest = self.output_steps(model, keys.drop_last(), readable.drop_last());
            let source = self.spec_output_source(model, keys.last());
            if source == OutputSource::Nothing || (source == OutputSource::Field && !readable.last()) {
                rest
            } else {
                rest.push((keys.last(), source))
            }
        }
    }

    /// The plan of the output of the object over the model's output keys, in order: each key
    /// put out with where its value comes from; `readable` says, key by key, whether the read
    /// permission of a field passed. A relation's key is put out exactly where its objects
    /// were fetched.
    pub fn output_plan(&self, model: &Model, readable: &Vec<bool>) -> (r: Vec<(String, OutputSource)>)
        requires
            readable@.len() == model.cache.output_keys@.len(),
        ensures
            r@.map_values(|e: (String, OutputSource)| (e.0@, e.1)) == self.output_steps(
                *model, strings_view(model.cache.output_keys@), readable@),
    {
        let keys = &model.cache.output_keys;
        let ghost ks = strings_view(keys@);
        let mut result: Vec<(String, OutputSource)> = Vec::new();
        let mut i: usize = 0;
        assert(ks.take(0) =~= Seq::<Seq<char>>::empty());
        assert(readable@.take(0) =~= Seq::<bool>::empty());
        while i < keys.len()
            invariant
                ks == strings_view(keys@),
                *keys == model.cache.output_keys,
                readable@.len() == keys@.len(),
                i <= keys@.len(),
                result@.map_values(|e: (String, OutputSource)| (e.0@, e.1)) == self.output_steps(
                    *model, ks.take(i as int), readable@.take(i as int)),
            decreases keys@.len() - i,
        {
            let k = keys[i].as_str();
            assert(ks.take(i + 1).drop_last() =~= ks.take(i as int));
            assert(readable@.take(i + 1).drop_last() =~= readable@.take(i as int));
            assert(ks.take(i + 1).last() == k@);
            assert(readable@.take(i + 1).last() == readable@[i as int]);
            let source = self.output_source(model, k);
            let skip = match source {
                OutputSource::Nothing => true,
                OutputSource::Field => !readable[i],
                _ => false,
            };
            if !skip {
                let ghost before = result@;
                result.push((keys[i].clone(), source));
                assert(result@.map_values(|e: (String, OutputSource)| (e.0@, e.1)) =~= before.map_values(
                    |e: (String, OutputSource)| (e.0@, e.1)).push((k@, source)));
            }
            i = i + 1;
        }
        assert(ks.take(keys@.len() as int) =~= ks);
        assert(readable@.take(keys@.len() as int) =~= readable@);
        result
    }

    /// Records `objects` as the related objects fetched for the relation `key`.
    pub fn record_fetched_relation(&mut self, key: &str, objects: Vec<Object<V>>)
        ensures
            final(self).relation_query_map@ == old(self).relation_query_map@.insert(key@, objects),
            *final(self) == (Object { relation_query_map: final(self).relation_query_map, ..*old(self) }),
    {
        self.relation_query_map.insert(key.to_owned(), objects);
    }

    /// The related objects fetched for the relation `key`, if they were fetched.
    pub fn fetched_relation_objects(&self, key: &str) -> (r: Option<&Vec<Object<V>>>)
        ensures
            r == (if self.relation_query_map@.contains_key(key@) {
                Some(&self.relation_query_map@[key@])
            } else {
                None
            }),
    {
        self.relation_query_map.get(key)
    }

    /// Whether the related objects of the relation `key` were fetched.
    pub fn has_query_relation_fetched(&self, key: &str) -> (r: bool)
        ensures
            r == self.relation_query_map@.contains_key(key@),
    {
        self.relation_query_map.contains_key(key)
    }
}

impl<V: Clone> Object<V> {
    /// Whether `new_previous` is what the object's recorded previous values become when the
    /// field `key` of `model` is set: for an object that has been saved or read, where the
    /// field keeps previous values and none is recorded under its name, a copy of the value the
    /// object holds under that name (none for null) is recorded; else nothing changes.
    pub open spec fn previous_recorded(self, new_previous: Map<Seq<char>, Option<V>>, model: Model, key: Seq<char>) -> bool {
        let f = entries_get(field_map_entries(model.fields), key)->0;
        if !self.is_new && f.previous == Previous::Keep && !self.previous_value_map@.contains_key(f.name@) {
            &&& new_previous == self.previous_value_map@.insert(f.name@, new_previous[f.name@])
            &&& (match self.value_map@.get(f.name@) {
                None => new_previous[f.name@] is None,
                Some(v) => new_previous[f.name@] matches Some(x) && cloned::<V>(v, x),
            })
        } else {
            new_previous == self.previous_value_map@
        }
    }

    /// Whether `new` is this object with `value` put at `key` (or the value there removed, for no
    /// value), the value it held there first recorded as `previous_recorded` says; for an
    /// object that has been saved or read, with `key` and the cached properties of `model` that
    /// depend on it recorded as changed, and what was cached for those properties forgotten.
    pub open spec fn value_set(self, new: Self, model: Model, key: Seq<char>, value: Option<V>) -> bool {
        &&& self.previous_recorded(new.previous_value_map@, model, key)
        &&& new.value_map@ == (match value {
            Some(v) => self.value_map@.insert(key, v),
            None => self.value_map@.remove(key),
        })
        &&& self.is_new ==> new == (Object {
            value_map: new.value_map,
            previous_value_map: new.previous_value_map,
            ..self
        })
        &&& !self.is_new ==> {
            &&& new.is_modified
            &&& new.modified_fields@.dom() == self.modified_fields@.dom().insert(key)
                + Self::dependent_properties(model, key)
            &&& new.cached_property_map@ == self.cached_property_map@.remove_keys(
                Self::dependent_properties(model, key))
            &&& new == (Object {
                value_map: new.value_map,
                previous_value_map: new.previous_value_map,
                is_modified: true,
                modified_fields: new.modified_fields,
                cached_property_map: new.cached_property_map,
                ..self
            })
        }
    }

    /// Puts `value` at `key`, or removes the value there for no value. For an object that has
    /// been saved or read, records `key` and the cached properties that depend on it as
    /// changed, and forgets what was cached for those properties.
    pub fn set_value_to_value_map(&mut self, model: &Model, key: &str, value: Option<V>)
        requires
            entries_get(field_map_entries(model.fields), key@) is Some,
            !entries_get(field_map_entries(model.fields), key@)->0.dropped,
        ensures
            old(self).value_set(*final(self), *model, key@, value),
    {
        let field = model.field(key).unwrap();
        if !self.is_new && field.previous.is_keep() && !self.previous_value_map.contains_key(field.name.as_str()) {
            let current: Option<V> = match self.value_map.get(field.name.as_str()) {
                Some(v) => Some(v.clone()),
                None => None,
            };
            self.previous_value_map.insert(field.name.clone(), current);
        }
        let ghost pm = self.previous_value_map;
        match value {
            Some(v) => {
                self.value_map.insert(key.to_owned(), v);
            },
            None => {
                self.value_map.remove(key);
            },
        }
        let ghost vm = self.value_map;
        if !self.is_new {
            self.is_modified = true;
            self.modified_fields.insert(key.to_owned(), ());
            let ghost m0 = self.modified_fields@.dom();
            let ghost c0 = self.cached_property_map@;
            match model.cache.field_property_map.get(key) {
                Some(properties) => {
                    let ghost ps = strings_view(properties@);
                    let mut i: usize = 0;
                    assert(ps.take(0).to_set() =~= Set::<Seq<char>>::empty());
                    assert(m0 + Set::<Seq<char>>::empty() =~= m0);
                    assert(c0.remove_keys(Set::<Seq<char>>::empty()) =~= c0);
                    while i < properties.len()
                        invariant
                            ps == strings_view(properties@),
                            i <= properties@.len(),
                            self.modified_fields@.dom() == m0 + ps.take(i as int).to_set(),
                            self.cached_property_map@ == c0.remove_keys(ps.take(i as int).to_set()),
                            self.value_map == vm,
                            self.is_new == old(self).is_new,
                            self.is_modified,
                            self.is_initialized == old(self).is_initialized,
                            self.selected_fields == old(self).selected_fields,
                            self.previous_value_map == pm,
                            self.atomic_updater_map == old(self).atomic_updater_map,
                            self.relation_mutation_map == old(self).relation_mutation_map,
                            self.ignore_relation == old(self).ignore_relation,
                            self.relation_query_map == old(self).relation_query_map,
                            self.model_path == old(self).model_path,
                            self.action == old(self).action,
                            self.inside_before_save_callback == old(self).inside_before_save_callback,
                            self.inside_after_save_callback == old(self).inside_after_save_callback,
                            self.object_set_map == old(self).object_set_map,
                            self.object_set_many_map == old(self).object_set_many_map,
                            self.object_connect_map == old(self).object_connect_map,
                            self.object_disconnect_map == old(self).object_disconnect_map,
                        decreases properties@.len() - i,
                    {
                        let p = &properties[i];
                        self.modified_fields.insert(p.clone(), ());
                        self.cached_property_map.remove(p.as_str());
                        proof {
                            assert(ps.take(i + 1) =~= ps.take(i as int).push(p@));
                            assert(ps.take(i + 1).to_set() =~= ps.take(i as int).to_set().insert(p@)) by {
                                vstd::seq_lib::lemma_seq_contains_after_push(ps.take(i as int), p@, p@);
                            }
                            assert(self.modified_fields@.dom() =~= m0 + ps.take(i + 1).to_set());
                            assert(self.cached_property_map@ =~= c0.remove_keys(ps.take(i + 1).to_set()));
                        }
                        i = i + 1;
                    }
                    assert(ps.take(properties@.len() as int) =~= ps);
                },
                None => {
                    assert(self.modified_fields@.dom() =~= m0 + Set::<Seq<char>>::empty());
                    assert(self.cached_property_map@ =~= c0.remove_keys(Set::<Seq<char>>::empty()));
                },
            }
        }
    }

    /// Sets `value` at `key` (no value for null), where the model lets a value be saved or
    /// held there; else fails with `InvalidKey`, changing nothing.
    pub fn set_value(&mut self, model: &Model, key: &str, value: Option<V>) -> (r: Result<(), ObjectError>)
        requires
            strings_view(model.cache.save_keys_and_virtual_keys@).contains(key@) ==> {
                let f = entries_get(field_map_entries(model.fields), key@);
                f is Some && !f->0.dropped
            },
        ensures
            strings_view(model.cache.save_keys_and_virtual_keys@).contains(key@) ==> r is Ok
                && old(self).value_set(*final(self), *model, key@, value),
            !strings_view(model.cache.save_keys_and_virtual_keys@).contains(key@) ==> (r matches Err(
                ObjectError::InvalidKey(k)) && k@ == key@ && *final(self) == *old(self)),
    {
        if !contains_str(&model.cache.save_keys_and_virtual_keys, key) {
            return Err(ObjectError::InvalidKey(key.to_owned()));
        }
        self.set_value_to_value_map(model, key, value);
        Ok(())
    }

}

} // verus!
