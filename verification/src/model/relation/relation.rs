use vstd::prelude::*;
use crate::name_map::NameMap;
use crate::value::Value;
use crate::model::field::is_optional::IsOptional;
use crate::model::field::typed::Typed;
use crate::model::relation::delete::Delete;
use crate::model::relation::update::Update;
use crate::optionality::Optionality;
use crate::traits::Named;
use crate::type_info::TypeInfo;

verus! {

/// A relation of a model to another model, as built from its declaration.
///
/// `fields[i]` of this model refers to `references[i]` of the related model.
#[derive(Debug)]
pub struct Relation {
    pub name: String,
    pub ty: TypeInfo,
    pub optionality: Optionality,
    pub model: Vec<String>,
    pub through: Option<Vec<String>>,
    pub local: Option<String>,
    pub foreign: Option<String>,
    pub is_vec: bool,
    pub fields: Vec<String>,
    pub references: Vec<String>,
    pub delete: Delete,
    pub update: Update,
    pub has_foreign_key: bool,
    pub data: NameMap<Value>,
}

impl Relation {
    /// The data attached to the relation.
    pub fn data(&self) -> (r: &NameMap<Value>)
        ensures
            *r == self.data,
    {
        &self.data
    }

    /// Each local field of the relation with the field of the related model it refers to.
    pub fn iter(&self) -> (r: Vec<(&str, &str)>)
        requires
            self.fields@.len() <= self.references@.len(),
        ensures
            r@.len() == self.fields@.len(),
            forall|i: int| 0 <= i < r@.len() ==> (#[trigger] r@[i]).0@ == self.fields@[i]@
                && r@[i].1@ == self.references@[i]@,
    {
        let mut r: Vec<(&str, &str)> = Vec::new();
        let mut i: usize = 0;
        while i < self.fields.len()
            invariant
                i <= self.fields@.len(),
                self.fields@.len() <= self.references@.len(),
                r@.len() == i,
                forall|j: int| 0 <= j < i ==> (#[trigger] r@[j]).0@ == self.fields@[j]@
                    && r@[j].1@ == self.references@[j]@,
            decreases self.fields.len() - i,
        {
            r.push((self.fields[i].as_str(), self.references[i].as_str()));
            i = i + 1;
        }
        r
    }

    /// Whether the relation is optional, required or present under a condition.
    pub fn optionality(&self) -> (r: &Optionality)
        ensures
            *r == self.optionality,
    {
        &self.optionality
    }

    /// What happens to this record when the related record is deleted.
    pub fn delete(&self) -> (r: Delete)
        ensures
            r == self.delete,
    {
        self.delete
    }

    /// What happens to this record when the related record's referenced values change.
    pub fn update(&self) -> (r: Update)
        ensures
            r == self.update,
    {
        self.update
    }

    /// Whether one of the relation's local fields is a foreign key.
    pub fn has_foreign_key(&self) -> (r: bool)
        ensures
            r == self.has_foreign_key,
    {
        self.has_foreign_key
    }

    /// The path of the related model.
    pub fn model(&self) -> (r: &Vec<String>)
        ensures
            *r == self.model,
    {
        &self.model
    }

    /// Whether the relation relates to many records.
    pub fn is_vec(&self) -> (r: bool)
        ensures
            r == self.is_vec,
    {
        self.is_vec
    }

    /// The path of the join model, for a relation through a join table.
    pub fn through(&self) -> (r: Option<&Vec<String>>)
        ensures
            r == (match self.through {
                Some(p) => Some(&p),
                None => None::<&Vec<String>>,
            }),
    {
        self.through.as_ref()
    }

    /// The number of local fields of the relation.
    pub fn len(&self) -> (r: usize)
        ensures
            r == self.fields@.len(),
    {
        self.fields.len()
    }

    /// The path of the related model.
    pub fn model_path(&self) -> (r: &Vec<String>)
        ensures
            *r == self.model,
    {
        &self.model
    }

    /// The path of the join model, for a relation through a join table.
    pub fn through_path(&self) -> (r: Option<&Vec<String>>)
        ensures
            r == (match self.through {
                Some(p) => Some(&p),
                None => None::<&Vec<String>>,
            }),
    {
        self.through.as_ref()
    }

    /// The name of the join model's relation to this model.
    pub fn local(&self) -> (r: Option<&str>)
        ensures
            match r {
                Some(s) => self.local is Some && s@ == self.local->0@,
                None => self.local is None,
            },
    {
        match &self.local {
            Some(s) => Some(s.as_str()),
            None => None,
        }
    }

    /// The name of the join model's relation to the related model.
    pub fn foreign(&self) -> (r: Option<&str>)
        ensures
            match r {
                Some(s) => self.foreign is Some && s@ == self.foreign->0@,
                None => self.foreign is None,
            },
    {
        match &self.foreign {
            Some(s) => Some(s.as_str()),
            None => None,
        }
    }

    /// Whether the relation goes through a join table.
    pub fn has_join_table(&self) -> (r: bool)
        ensures
            r == (self.through is Some),
    {
        self.through_path().is_some()
    }

    /// The local fields of the relation.
    pub fn fields(&self) -> (r: &Vec<String>)
        ensures
            *r == self.fields,
    {
        &self.fields
    }

    /// The fields of the related model that the local fields refer to.
    pub fn references(&self) -> (r: &Vec<String>)
        ensures
            *r == self.references,
    {
        &self.references
    }
}

impl Named for Relation {
    open spec fn spec_name(&self) -> Seq<char> {
        self.name@
    }

    fn name(&self) -> (r: &str) {
        self.name.as_str()
    }
}

impl IsOptional for Relation {
    open spec fn spec_is_optional(&self) -> bool {
        !(self.optionality is Required)
    }

    fn is_optional(&self) -> (r: bool) {
        self.optionality.is_any_optional()
    }

    fn is_required(&self) -> (r: bool) {
        self.optionality.is_required()
    }
}

impl Typed for Relation {
    open spec fn spec_ty(&self) -> TypeInfo {
        self.ty
    }

    fn ty(&self) -> (r: &TypeInfo) {
        &self.ty
    }
}

} // verus!
