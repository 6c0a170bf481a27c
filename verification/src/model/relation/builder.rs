use vstd::prelude::*;
use crate::name_map::NameMap;
use crate::value::Value;
use crate::model::field::Field;
use crate::model::relation::delete::Delete;
use crate::model::relation::relation::Relation;
use crate::model::relation::update::Update;
use crate::optionality::Optionality;
use crate::traits::Named;
use crate::type_info::TypeInfo;
use crate::utils::str_eq;

verus! {

/// Collects what the decorators of a relation declare, then builds the relation.
#[derive(Debug)]
pub struct Builder {
    pub name: String,
    pub ty: TypeInfo,
    pub optionality: Optionality,
    pub model: Vec<String>,
    pub through: Option<Vec<String>>,
    pub local: Option<String>,
    pub foreign: Option<String>,
    pub is_vec: bool,
    pub fields: Vec<String>,
    pub references: Vec<String>,
    pub delete: Delete,
    pub update: Update,
    pub delete_specified: bool,
    pub update_specified: bool,
    pub data: NameMap<Value>,
}

/// Whether a relation with local fields `names` and the given join model has a foreign key
/// among `fields`: it has none when it goes through a join table; else it has one when one of
/// its local fields names a field of `fields` that is a foreign key.
pub open spec fn spec_has_foreign_key(
    through: Option<Vec<String>>,
    names: Seq<String>,
    fields: Seq<&Field>,
) -> bool {
    through is None && exists|i: int, j: int|
        0 <= i < names.len() && 0 <= j < fields.len() && (#[trigger] fields[j]).name@ == (#[trigger] names[i])@
            && fields[j].foreign_key
}

/// The delete rule of a relation that declares none: an optional relation does nothing when
/// it has no foreign key and nullifies it when it has one; a relation to many does nothing;
/// any other relation cascades.
pub open spec fn default_delete(ty: TypeInfo, has_foreign_key: bool) -> Delete {
    if ty.optional {
        if !has_foreign_key {
            Delete::NoAction
        } else {
            Delete::Nullify
        }
    } else if ty.array {
        Delete::NoAction
    } else {
        Delete::Cascade
    }
}

/// The update rule of a relation that declares none: an optional relation nullifies, a
/// relation to many does nothing, any other relation updates.
pub open spec fn default_update(ty: TypeInfo) -> Update {
    if ty.optional {
        Update::Nullify
    } else if ty.array {
        Update::NoAction
    } else {
        Update::Update
    }
}

impl Builder {
    /// A builder for the relation `name` declared with type `ty`: optional, to no model yet,
    /// with no fields, and with no delete or update rule declared.
    pub fn new(name: String, ty: TypeInfo) -> (r: Self)
        ensures
            r.name == name,
            r.ty == ty,
            r.optionality is Optional,
            r.model@.len() == 0,
            r.through is None,
            r.local is None,
            r.foreign is None,
            !r.is_vec,
            r.fields@.len() == 0,
            r.references@.len() == 0,
            r.delete == Delete::Nullify,
            r.update == Update::Nullify,
            !r.delete_specified,
            !r.update_specified,
            r.data@ == Map::<Seq<char>, Value>::empty(),
    {
        Builder {
            name,
            ty,
            optionality: Optionality::Optional,
            model: Vec::new(),
            through: None,
            local: None,
            foreign: None,
            is_vec: false,
            fields: Vec::new(),
            references: Vec::new(),
            delete: Delete::Nullify,
            update: Update::Nullify,
            delete_specified: false,
            update_specified: false,
            data: NameMap::new(),
        }
    }

    /// The data attached to the relation.
    pub fn data(&self) -> (r: &NameMap<Value>)
        ensures
            *r == self.data,
    {
        &self.data
    }

    /// Attaches `value` under `key`, replacing what was attached there.
    pub fn insert_data_entry(&mut self, key: String, value: Value)
        ensures
            final(self).data@ == old(self).data@.insert(key@, value),
            *final(self) == (Builder { data: final(self).data, ..*old(self) }),
    {
        self.data.insert(key, value);
    }

    /// Removes what is attached under `key`.
    pub fn remove_data_entry(&mut self, key: &str)
        ensures
            final(self).data@ == old(self).data@.remove(key@),
            *final(self) == (Builder { data: final(self).data, ..*old(self) }),
    {
        self.data.remove(key);
    }

    /// Replaces the data attached to the relation.
    pub fn set_data(&mut self, data: NameMap<Value>)
        ensures
            *final(self) == (Builder { data, ..*old(self) }),
    {
        self.data = data;
    }

    /// What is attached under `key`, if anything.
    pub fn data_entry(&self, key: &str) -> (r: Option<&Value>)
        ensures
            r == (if self.data@.contains_key(key@) { Some(&self.data@[key@]) } else { None }),
    {
        self.data.get(key)
    }

    /// The type the relation is declared with.
    pub fn ty(&self) -> (r: &TypeInfo)
        ensures
            *r == self.ty,
    {
        &self.ty
    }

    /// Whether the relation is optional, required or present under a condition.
    pub fn optionality(&self) -> (r: &Optionality)
        ensures
            *r == self.optionality,
    {
        &self.optionality
    }

    /// Sets whether the relation is optional, required or present under a condition.
    pub fn set_optionality(&mut self, optionality: Optionality)
        ensures
            *final(self) == (Builder { optionality, ..*old(self) }),
    {
        self.optionality = optionality;
    }

    /// The path of the related model.
    pub fn model(&self) -> (r: &Vec<String>)
        ensures
            *r == self.model,
    {
        &self.model
    }

    /// Sets the path of the related model.
    pub fn set_model(&mut self, model: Vec<String>)
        ensures
            *final(self) == (Builder { model, ..*old(self) }),
    {
        self.model = model;
    }

    /// The path of the join model, for a relation through a join table.
    pub fn through(&self) -> (r: &Option<Vec<String>>)
        ensures
            *r == self.through,
    {
        &self.through
    }

    /// Sets the path of the join model.
    pub fn set_through(&mut self, through: Option<Vec<String>>)
        ensures
            *final(self) == (Builder { through, ..*old(self) }),
    {
        self.through = through;
    }

    /// The name of the join model's relation to this model.
    pub fn local(&self) -> (r: &Option<String>)
        ensures
            *r == self.local,
    {
        &self.local
    }

    /// Sets the name of the join model's relation to this model.
    pub fn set_local(&mut self, local: Option<String>)
        ensures
            *final(self) == (Builder { local, ..*old(self) }),
    {
        self.local = local;
    }

    /// The name of the join model's relation to the related model.
    pub fn foreign(&self) -> (r: &Option<String>)
        ensures
            *r == self.foreign,
    {
        &self.foreign
    }

    /// Sets the name of the join model's relation to the related model.
    pub fn set_foreign(&mut self, foreign: Option<String>)
        ensures
            *final(self) == (Builder { foreign, ..*old(self) }),
    {
        self.foreign = foreign;
    }

    /// Whether the relation relates to many records.
    pub fn is_vec(&self) -> (r: bool)
        ensures
            r == self.is_vec,
    {
        self.is_vec
    }

    /// Sets whether the relation relates to many records.
    pub fn set_is_vec(&mut self, is_vec: bool)
        ensures
            *final(self) == (Builder { is_vec, ..*old(self) }),
    {
        self.is_vec = is_vec;
    }

    /// The local fields of the relation.
    pub fn fields(&self) -> (r: &Vec<String>)
        ensures
            *r == self.fields,
    {
        &self.fields
    }

    /// Sets the local fields of the relation.
    pub fn set_fields(&mut self, fields: Vec<String>)
        ensures
            *final(self) == (Builder { fields, ..*old(self) }),
    {
        self.fields = fields;
    }

    /// The fields of the related model that the local fields refer to.
    pub fn references(&self) -> (r: &Vec<String>)
        ensures
            *r == self.references,
    {
        &self.references
    }

    /// Sets the fields of the related model that the local fields refer to.
    pub fn set_references(&mut self, references: Vec<String>)
        ensures
            *final(self) == (Builder { references, ..*old(self) }),
    {
        self.references = references;
    }

    /// The delete rule as declared so far.
    pub fn delete(&self) -> (r: Delete)
        ensures
            r == self.delete,
    {
        self.delete
    }

    /// Declares the delete rule.
    pub fn set_delete(&mut self, delete: Delete)
        ensures
            *final(self) == (Builder { delete, delete_specified: true, ..*old(self) }),
    {
        self.delete = delete;
        self.delete_specified = true;
    }

    /// The update rule as declared so far.
    pub fn update(&self) -> (r: Update)
        ensures
            r == self.update,
    {
        self.update
    }

    /// Declares the update rule.
    pub fn set_update(&mut self, update: Update)
        ensures
            *final(self) == (Builder { update, update_specified: true, ..*old(self) }),
    {
        self.update = update;
        self.update_specified = true;
    }

    /// Whether one of the relation's local fields names a foreign key among `fields`; a
    /// relation through a join table has none.
    pub fn has_foreign_key(&self, fields: &Vec<&Field>) -> (r: bool)
        ensures
            r == spec_has_foreign_key(self.through, self.fields@, fields@),
    {
        if self.through.is_some() {
            return false;
        }
        let mut i: usize = 0;
        while i < self.fields.len()
            invariant
                self.through is None,
                i <= self.fields@.len(),
                forall|a: int, b: int|
                    0 <= a < i && 0 <= b < fields@.len() && (#[trigger] fields@[b]).name@ == (#[trigger] self.fields@[a])@
                        ==> !fields@[b].foreign_key,
            decreases self.fields.len() - i,
        {
            let mut j: usize = 0;
            while j < fields.len()
                invariant
                    self.through is None,
                    i < self.fields@.len(),
                    j <= fields@.len(),
                    forall|a: int, b: int|
                        0 <= a < i && 0 <= b < fields@.len() && (#[trigger] fields@[b]).name@ == (#[trigger] self.fields@[a])@
                            ==> !fields@[b].foreign_key,
                    forall|b: int|
                        0 <= b < j && (#[trigger] fields@[b]).name@ == self.fields@[i as int]@ ==> !fields@[b].foreign_key,
                decreases fields.len() - j,
            {
                let f: &Field = fields[j];
                if str_eq(f.name(), self.fields[i].as_str()) && f.foreign_key() {
                    assert(fields@[j as int].name@ == self.fields@[i as int]@);
                    return true;
                }
                j = j + 1;
            }
            i = i + 1;
        }
        false
    }

    /// The relation as declared. A delete or update rule that was not declared is the
    /// default one for the relation's type and foreign key (`default_delete`,
    /// `default_update`); whether it has a foreign key is read from `fields`.
    pub fn build(self, fields: &Vec<&Field>) -> (r: Relation)
        ensures
            r.has_foreign_key == spec_has_foreign_key(self.through, self.fields@, fields@),
            r.delete == (if self.delete_specified {
                self.delete
            } else {
                default_delete(self.ty, r.has_foreign_key)
            }),
            r.update == (if self.update_specified { self.update } else { default_update(self.ty) }),
            r.name == self.name,
            r.ty == self.ty,
            r.optionality == self.optionality,
            r.model == self.model,
            r.through == self.through,
            r.local == self.local,
            r.foreign == self.foreign,
            r.is_vec == self.is_vec,
            r.fields == self.fields,
            r.references == self.references,
            r.data == self.data,
    {
        let has_foreign_key = self.has_foreign_key(fields);
        let ty = self.ty;
        let delete_rule = if !self.delete_specified {
            if ty.is_optional() {
                if !has_foreign_key {
                    Delete::NoAction
                } else {
                    Delete::Nullify
                }
            } else if ty.is_array() {
                Delete::NoAction
            } else {
                Delete::Cascade
            }
        } else {
            self.delete
        };
        let update_rule = if !self.update_specified {
            if ty.is_optional() {
                Update::Nullify
            } else if ty.is_array() {
                Update::NoAction
            } else {
                Update::Update
            }
        } else {
            self.update
        };
        Relation {
            name: self.name,
            ty: self.ty,
            optionality: self.optionality,
            model: self.model,
            through: self.through,
            local: self.local,
            foreign: self.foreign,
            is_vec: self.is_vec,
            fields: self.fields,
            references: self.references,
            delete: delete_rule,
            update: update_rule,
            has_foreign_key,
            data: self.data,
        }
    }
}

impl Named for Builder {
    open spec fn spec_name(&self) -> Seq<char> {
        self.name@
    }

    fn name(&self) -> (r: &str) {
        self.name.as_str()
    }
}

} // verus!
