use vstd::prelude::*;
use crate::model::maps::{entries_get, field_map_entries, property_map_entries, relation_map_entries};
use crate::model::model::Model;
use crate::model::field::default::FieldDefault;
use crate::model::object::input::{InputValue, entry_value, find_entry};
use crate::model::object::object::{Object, ObjectError, check_user_json_keys, keys_present};
use crate::utils::{str_eq, strings_view};

verus! {

/// What assigning the input at a key to an object takes.
#[derive(Debug, Clone, Copy, PartialEq, Eq, Structural)]
pub enum AssignKind {
    /// Nothing is assigned at the key.
    Nothing,
    /// The field's default value is set.
    SetDefault,
    /// The field's default pipeline is run on null, and its output is set.
    RunDefaultPipeline,
    /// The given value is set on the field, through its on-set pipeline and write rule.
    SetField,
    /// The given atomic update is recorded for the field.
    AtomicUpdate,
    /// The given manipulation is recorded for the relation.
    RelationManipulation,
    /// The property's setter is run with the given value.
    PropertySetter,
    /// The input is not one a property's setter takes: the assignment fails.
    UnexpectedInput,
}

/// Whether every dictionary among the values of an input has an entry, so that decoding it
/// finds its first key.
pub open spec fn decodable(input: Seq<(String, InputValue)>) -> bool {
    forall|i: int| 0 <= i < input.len() ==> ((#[trigger] input[i]).1 matches InputValue::Dictionary(es)
        ==> es@.len() > 0)
}

/// The keys of an input, in order.
pub open spec fn input_keys(input: Seq<(String, InputValue)>) -> Seq<Seq<char>> {
    input.map_values(|e: (String, InputValue)| e.0@)
}

/// How a field input decodes: a dictionary whose first key is `set` sets the value of that
/// entry; any other dictionary is an atomic update; any other value is set as it is.
pub open spec fn decoded(v: InputValue) -> (AssignKind, Option<InputValue>) {
    match v {
        InputValue::Dictionary(es) => if es@[0].0@ == "set"@ {
            (AssignKind::SetField, Some(es@[0].1))
        } else {
            (AssignKind::AtomicUpdate, Some(v))
        },
        _ => (AssignKind::SetField, Some(v)),
    }
}

/// The value of the first entry named `key` is one of the entries' values.
proof fn lemma_entry_value_in(entries: Seq<(String, InputValue)>, key: Seq<char>)
    ensures
        entry_value(entries, key) matches Some(v) ==> exists|i: int| 0 <= i < entries.len() && entries[i].1 == v,
    decreases entries.len(),
{
    if entries.len() > 0 && entries[0].0@ != key {
        lemma_entry_value_in(entries.drop_first(), key);
        if entry_value(entries, key) is Some {
            let v = entry_value(entries, key)->0;
            let i = choose|i: int| 0 <= i < entries.drop_first().len() && entries.drop_first()[i].1 == v;
            assert(entries[i + 1].1 == v);
        }
    }
}

impl<V> Object<V> {
    /// What assigning the input `input` at `key` takes: for a field, its default where the
    /// object is not yet initialized and the input holds nothing there (its value is set, or
    /// its pipeline is run on null and the output set; nothing without a default), else the
    /// decoded input; for a relation, the manipulation the input holds there; for a property with a
    /// setter, the value the input sets there (any other input is unexpected); else nothing.
    pub open spec fn spec_assign_step(self, model: Model, key: Seq<char>, input: Seq<(String, InputValue)>)
        -> (AssignKind, Option<InputValue>)
    {
        let entry = entry_value(input, key);
        match entries_get(field_map_entries(model.fields), key) {
            Some(f) if !f.dropped => match entry {
                None => if !self.is_initialized {
                    match f.default {
                        Some(FieldDefault::Value(_)) => (AssignKind::SetDefault, None),
                        Some(FieldDefault::Pipeline(_)) => (AssignKind::RunDefaultPipeline, None),
                        None => (AssignKind::Nothing, None),
                    }
                } else {
                    (AssignKind::Nothing, None)
                },
                Some(v) => decoded(v),
            },
            _ => if entries_get(relation_map_entries(model.relations), key) is Some {
                match entry {
                    Some(v) => (AssignKind::RelationManipulation, Some(v)),
                    None => (AssignKind::Nothing, None),
                }
            } else {
                match entries_get(property_map_entries(model.properties), key) {
                    Some(p) => match entry {
                        Some(v) => if p.setter is Some {
                            match decoded(v) {
                                (AssignKind::SetField, x) => (AssignKind::PropertySetter, x),
                                _ => (AssignKind::UnexpectedInput, None),
                            }
                        } else {
                            (AssignKind::Nothing, None)
                        },
                        None => (AssignKind::Nothing, None),
                    },
                    None => (AssignKind::Nothing, None),
                }
            },
        }
    }

    /// What assigning the input `input` at `key` takes, with the input value it takes.
    pub fn assign_step<'a>(&self, model: &Model, key: &str, input: &'a Vec<(String, InputValue)>)
        -> (r: (AssignKind, Option<&'a InputValue>))
        requires
            decodable(input@),
        ensures
            (r.0, match r.1 {
                Some(v) => Some(*v),
                None => None,
            }) == self.spec_assign_step(*model, key@, input@),
    {
        let entry = find_entry(input, key);
        proof {
            lemma_entry_value_in(input@, key@);
        }
        if let Some(f) = model.field(key) {
            return match entry {
                None => if !self.is_initialized {
                    match &f.default {
                        Some(FieldDefault::Value(_)) => (AssignKind::SetDefault, None),
                        Some(FieldDefault::Pipeline(_)) => (AssignKind::RunDefaultPipeline, None),
                        None => (AssignKind::Nothing, None),
                    }
                } else {
                    (AssignKind::Nothing, None)
                },
                Some(v) => Self::decode(v),
            };
        }
        if model.relation(key).is_some() {
            return match entry {
                Some(v) => (AssignKind::RelationManipulation, Some(v)),
                None => (AssignKind::Nothing, None),
            };
        }
        match model.property(key) {
            Some(p) => match entry {
                Some(v) => if p.setter.is_some() {
                    let d = Self::decode(v);
                    match d.0 {
                        AssignKind::SetField => (AssignKind::PropertySetter, d.1),
                        _ => (AssignKind::UnexpectedInput, None),
                    }
                } else {
                    (AssignKind::Nothing, None)
                },
                None => (AssignKind::Nothing, None),
            },
            None => (AssignKind::Nothing, None),
        }
    }

    /// How a field input decodes.
    fn decode<'a>(v: &'a InputValue) -> (r: (AssignKind, Option<&'a InputValue>))
        requires
            v matches InputValue::Dictionary(es) ==> es@.len() > 0,
        ensures
            (r.0, match r.1 {
                Some(x) => Some(*x),
                None => None,
            }) == decoded(*v),
    {
        match v {
            InputValue::Dictionary(es) => {
                if str_eq(es[0].0.as_str(), "set") {
                    (AssignKind::SetField, Some(&es[0].1))
                } else {
                    (AssignKind::AtomicUpdate, Some(v))
                }
            },
            _ => (AssignKind::SetField, Some(v)),
        }
    }

    /// The keys to assign from `input`, each with what assigning it takes: the input's keys are
    /// first checked against the model's input keys where the permission check is bypassed,
    /// the first key not allowed giving `KeyNotAllowed`; then come the keys `keys_to_assign`
    /// gives, in order.
    pub fn assignment_plan<'a>(
        &self,
        model: &Model,
        input: &'a Vec<(String, InputValue)>,
        bypass_permission_check: bool,
    ) -> (r: Result<Vec<(String, AssignKind, Option<&'a InputValue>)>, ObjectError>)
        requires
            decodable(input@),
        ensures
            ({
                let unallowed = crate::model::object::object::first_unallowed(
                    input_keys(input@), strings_view(model.cache.input_keys@));
                let keys = if !self.is_initialized {
                    strings_view(model.cache.all_keys@)
                } else {
                    keys_present(strings_view(model.cache.all_keys@), input_keys(input@))
                };
                if bypass_permission_check && unallowed is Some {
                    r matches Err(ObjectError::KeyNotAllowed(k)) && k@ == unallowed->0
                } else {
                    r matches Ok(plan) && plan@.len() == keys.len()
                        && forall|i: int| 0 <= i < keys.len() ==> {
                            &&& (#[trigger] plan@[i]).0@ == keys[i]
                            &&& (plan@[i].1, match plan@[i].2 {
                                Some(v) => Some(*v),
                                None => None,
                            }) == self.spec_assign_step(*model, keys[i], input@)
                        }
                }
            }),
    {
        let mut names: Vec<String> = Vec::new();
        let mut j: usize = 0;
        while j < input.len()
            invariant
                j <= input@.len(),
                strings_view(names@) == input_keys(input@).take(j as int),
            decreases input@.len() - j,
        {
            let ghost before = names@;
            names.push(input[j].0.clone());
            assert(strings_view(names@) =~= strings_view(before).push(input@[j as int].0@));
            assert(input_keys(input@).take(j + 1) =~= input_keys(input@).take(j as int).push(input@[j as int].0@));
            j = j + 1;
        }
        assert(input_keys(input@).take(j as int) =~= input_keys(input@));
        if bypass_permission_check {
            match check_user_json_keys(&names, &model.cache.input_keys) {
                Err(e) => {
                    return Err(e);
                },
                Ok(()) => {},
            }
        }
        let keys = self.keys_to_assign(model, &names);
        let mut plan: Vec<(String, AssignKind, Option<&'a InputValue>)> = Vec::new();
        let mut i: usize = 0;
        while i < keys.len()
            invariant
                decodable(input@),
                i <= keys@.len(),
                plan@.len() == i,
                forall|k: int| 0 <= k < i ==> {
                    &&& (#[trigger] plan@[k]).0@ == keys@[k]@
                    &&& (plan@[k].1, match plan@[k].2 {
                        Some(v) => Some(*v),
                        None => None,
                    }) == self.spec_assign_step(*model, keys@[k]@, input@)
                },
            decreases keys@.len() - i,
        {
            let step = self.assign_step(model, keys[i].as_str(), input);
            plan.push((keys[i].clone(), step.0, step.1));
            i = i + 1;
        }
        proof {
            let ks = if !self.is_initialized {
                strings_view(model.cache.all_keys@)
            } else {
                keys_present(strings_view(model.cache.all_keys@), input_keys(input@))
            };
            assert(strings_view(keys@) == ks);
            assert forall|k: int| 0 <= k < ks.len() implies keys@[k]@ == ks[k] by {
                assert(strings_view(keys@)[k] == keys@[k]@);
            }
        }
        Ok(plan)
    }
}

} // verus!
