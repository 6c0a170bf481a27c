use vstd::prelude::*;
use crate::name_map::NameMap;
use crate::value::Value;
use crate::model::field::Index;
use crate::model::field::indexable::Indexable;
use crate::model::field::is_optional::IsOptional;
use crate::model::field::typed::Typed;
use crate::optionality::Optionality;
use crate::pipeline::Pipeline;
use crate::traits::Named;
use crate::type_info::TypeInfo;

verus! {

/// A computed property of a model, as built from its declaration.
#[derive(Debug)]
pub struct Property {
    pub name: String,
    pub ty: TypeInfo,
    pub column_name: String,
    pub optionality: Optionality,
    pub dependencies: Vec<String>,
    pub setter: Option<Pipeline>,
    pub getter: Option<Pipeline>,
    pub input_omissible: bool,
    pub output_omissible: bool,
    pub cached: bool,
    pub index: Option<Index>,
    pub data: NameMap<Value>,
}

impl Property {
    /// The data attached to the property.
    pub fn data(&self) -> (r: &NameMap<Value>)
        ensures
            *r == self.data,
    {
        &self.data
    }

    /// Whether the property is optional, required or present under a condition.
    pub fn optionality(&self) -> (r: &Optionality)
        ensures
            *r == self.optionality,
    {
        &self.optionality
    }

    /// The fields whose values the property is computed from.
    pub fn dependencies(&self) -> (r: &Vec<String>)
        ensures
            *r == self.dependencies,
    {
        &self.dependencies
    }

    /// The pipeline that sets the property, if it can be set.
    pub fn setter(&self) -> (r: &Option<Pipeline>)
        ensures
            *r == self.setter,
    {
        &self.setter
    }

    /// The pipeline that computes the property, if it can be read.
    pub fn getter(&self) -> (r: &Option<Pipeline>)
        ensures
            *r == self.getter,
    {
        &self.getter
    }

    /// Whether the property may be left out of input.
    pub fn input_omissible(&self) -> (r: bool)
        ensures
            r == self.input_omissible,
    {
        self.input_omissible
    }

    /// Whether the property may be left out of output.
    pub fn output_omissible(&self) -> (r: bool)
        ensures
            r == self.output_omissible,
    {
        self.output_omissible
    }

    /// Whether the computed value is saved with the record.
    pub fn cached(&self) -> (r: bool)
        ensures
            r == self.cached,
    {
        self.cached
    }

    /// The name of the column that caches the property.
    pub fn column_name(&self) -> (r: &str)
        ensures
            r@ == self.column_name@,
    {
        self.column_name.as_str()
    }
}

impl Named for Property {
    open spec fn spec_name(&self) -> Seq<char> {
        self.name@
    }

    fn name(&self) -> (r: &str) {
        self.name.as_str()
    }
}

impl Indexable for Property {
    open spec fn spec_index(&self) -> Option<Index> {
        self.index
    }

    fn index(&self) -> (r: Option<&Index>) {
        self.index.as_ref()
    }
}

impl Typed for Property {
    open spec fn spec_ty(&self) -> TypeInfo {
        self.ty
    }

    fn ty(&self) -> (r: &TypeInfo) {
        &self.ty
    }
}

impl IsOptional for Property {
    open spec fn spec_is_optional(&self) -> bool {
        !(self.optionality is Required)
    }

    fn is_optional(&self) -> (r: bool) {
        self.optionality.is_any_optional()
    }

    fn is_required(&self) -> (r: bool) {
        self.optionality.is_required()
    }
}

} // verus!
