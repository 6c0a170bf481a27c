use vstd::prelude::*;
use crate::model::field::{Index, Migration};
use crate::model::field::indexable::Indexable;
use crate::model::field::is_optional::IsOptional;
use crate::model::field::typed::Typed;
use crate::optionality::Optionality;
use crate::pipeline::Pipeline;
use crate::model::field::previous::Previous;
use crate::model::field::default::FieldDefault;
use crate::name_map::NameMap;
use crate::value::Value;
use crate::readwrite::{Read, Write};
use crate::traits::Named;
use crate::type_info::TypeInfo;

verus! {

/// A scalar field of a model, as built from its declaration.
#[derive(Debug)]
pub struct Field {
    pub name: String,
    pub column_name: String,
    pub foreign_key: bool,
    pub dropped: bool,
    pub migration: Option<Migration>,
    pub ty: TypeInfo,
    pub optionality: Optionality,
    pub copy: bool,
    pub read: Read,
    pub write: Write,
    pub atomic: bool,
    pub is_virtual: bool,
    pub input_omissible: bool,
    pub output_omissible: bool,
    pub index: Option<Index>,
    pub queryable: bool,
    pub sortable: bool,
    pub auto: bool,
    pub auto_increment: bool,
    pub on_set: Pipeline,
    pub on_save: Pipeline,
    pub on_output: Pipeline,
    pub can_mutate: Pipeline,
    pub can_read: Pipeline,
    pub previous: Previous,
    pub default: Option<FieldDefault>,
    pub data: NameMap<Value>,
}

impl Field {
    /// The field's default.
    pub fn default(&self) -> (r: Option<&FieldDefault>)
        ensures
            r == match self.default {
                Some(d) => Some(&d),
                None => None,
            },
    {
        self.default.as_ref()
    }

    /// The data attached to the field.
    pub fn data(&self) -> (r: &NameMap<Value>)
        ensures
            *r == self.data,
    {
        &self.data
    }

    /// Whether the field holds a foreign key.
    pub fn foreign_key(&self) -> (r: bool)
        ensures
            r == self.foreign_key,
    {
        self.foreign_key
    }

    /// Whether the field was dropped from the schema and is kept for migration only.
    pub fn dropped(&self) -> (r: bool)
        ensures
            r == self.dropped,
    {
        self.dropped
    }

    /// Whether the field is optional, required or present under a condition.
    pub fn optionality(&self) -> (r: &Optionality)
        ensures
            *r == self.optionality,
    {
        &self.optionality
    }

    /// Whether the field is copied when a record is copied.
    pub fn copy(&self) -> (r: bool)
        ensures
            r == self.copy,
    {
        self.copy
    }

    /// When the field may be read.
    pub fn read(&self) -> (r: &Read)
        ensures
            *r == self.read,
    {
        &self.read
    }

    /// When the field may be written.
    pub fn write(&self) -> (r: &Write)
        ensures
            *r == self.write,
    {
        &self.write
    }

    /// Whether the field accepts atomic updates.
    pub fn atomic(&self) -> (r: bool)
        ensures
            r == self.atomic,
    {
        self.atomic
    }

    /// Whether the field is virtual, that is, never saved.
    pub fn is_virtual(&self) -> (r: bool)
        ensures
            r == self.is_virtual,
    {
        self.is_virtual
    }

    /// Whether the field may be left out of input.
    pub fn input_omissible(&self) -> (r: bool)
        ensures
            r == self.input_omissible,
    {
        self.input_omissible
    }

    /// Whether the field may be left out of output.
    pub fn output_omissible(&self) -> (r: bool)
        ensures
            r == self.output_omissible,
    {
        self.output_omissible
    }

    /// Whether the field may be queried on.
    pub fn queryable(&self) -> (r: bool)
        ensures
            r == self.queryable,
    {
        self.queryable
    }

    /// Whether records may be sorted by the field.
    pub fn sortable(&self) -> (r: bool)
        ensures
            r == self.sortable,
    {
        self.sortable
    }

    /// Whether the database fills the field in.
    pub fn auto(&self) -> (r: bool)
        ensures
            r == self.auto,
    {
        self.auto
    }

    /// Whether the database fills the field in with an increasing number.
    pub fn auto_increment(&self) -> (r: bool)
        ensures
            r == self.auto_increment,
    {
        self.auto_increment
    }

    /// The pipeline run when the field is set.
    pub fn on_set(&self) -> (r: &Pipeline)
        ensures
            *r == self.on_set,
    {
        &self.on_set
    }

    /// The pipeline run when the record is saved.
    pub fn on_save(&self) -> (r: &Pipeline)
        ensures
            *r == self.on_save,
    {
        &self.on_save
    }

    /// The pipeline run when the field is output.
    pub fn on_output(&self) -> (r: &Pipeline)
        ensures
            *r == self.on_output,
    {
        &self.on_output
    }

    /// The pipeline that decides whether the field may be changed.
    pub fn can_mutate(&self) -> (r: &Pipeline)
        ensures
            *r == self.can_mutate,
    {
        &self.can_mutate
    }

    /// The pipeline that decides whether the field may be read.
    pub fn can_read(&self) -> (r: &Pipeline)
        ensures
            *r == self.can_read,
    {
        &self.can_read
    }

    /// How the field is carried over from an earlier schema, if that is declared.
    pub fn migration(&self) -> (r: Option<&Migration>)
        ensures
            r == (match self.migration {
                Some(m) => Some(&m),
                None => None::<&Migration>,
            }),
    {
        self.migration.as_ref()
    }

    /// The name of the column that stores the field.
    pub fn column_name(&self) -> (r: &str)
        ensures
            r@ == self.column_name@,
    {
        self.column_name.as_str()
    }

}

impl Named for Field {
    open spec fn spec_name(&self) -> Seq<char> {
        self.name@
    }

    fn name(&self) -> (r: &str) {
        self.name.as_str()
    }
}

impl Indexable for Field {
    open spec fn spec_index(&self) -> Option<Index> {
        self.index
    }

    fn index(&self) -> (r: Option<&Index>) {
        self.index.as_ref()
    }
}

impl Typed for Field {
    open spec fn spec_ty(&self) -> TypeInfo {
        self.ty
    }

    fn ty(&self) -> (r: &TypeInfo) {
        &self.ty
    }
}

impl IsOptional for Field {
    open spec fn spec_is_optional(&self) -> bool {
        !(self.optionality is Required)
    }

    fn is_optional(&self) -> (r: bool) {
        self.optionality.is_any_optional()
    }

    fn is_required(&self) -> (r: bool) {
        self.optionality.is_required()
    }
}

} // verus!
