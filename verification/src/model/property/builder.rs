use vstd::prelude::*;
use crate::model::field::Index;
use crate::model::property::Property;
use crate::optionality::Optionality;
use crate::pipeline::Pipeline;
use crate::traits::Named;
use crate::name_map::NameMap;
use crate::value::Value;
use crate::type_info::TypeInfo;

verus! {

/// Collects what the decorators of a property declare, then builds the property.
#[derive(Debug)]
pub struct Builder {
    pub name: String,
    pub ty: TypeInfo,
    pub column_name: String,
    pub optionality: Optionality,
    pub dependencies: Vec<String>,
    pub setter: Option<Pipeline>,
    pub getter: Option<Pipeline>,
    pub input_omissible: bool,
    pub output_omissible: bool,
    pub cached: bool,
    pub index: Option<Index>,
    pub data: NameMap<Value>,
}

impl Builder {
    /// A builder for the property `name` declared with type `ty`: its column is named after it;
    /// it is optional, has no dependencies, setter, getter or index, and is not cached.
    pub fn new(name: String, ty: TypeInfo) -> (r: Self)
        ensures
            r.name == name,
            r.ty == ty,
            r.column_name@ == name@,
            r.optionality is Optional,
            r.dependencies@.len() == 0,
            r.setter is None,
            r.getter is None,
            !r.input_omissible,
            !r.output_omissible,
            !r.cached,
            r.index is None,
            r.data@ == Map::<Seq<char>, Value>::empty(),
    {
        let column_name = name.clone();
        Builder {
            name,
            ty,
            column_name,
            optionality: Optionality::Optional,
            dependencies: Vec::new(),
            setter: None,
            getter: None,
            input_omissible: false,
            output_omissible: false,
            cached: false,
            index: None,
            data: NameMap::new(),
        }
    }

    /// The data attached to the property.
    pub fn data(&self) -> (r: &NameMap<Value>)
        ensures
            *r == self.data,
    {
        &self.data
    }

    /// Attaches `value` under `key`, replacing what was attached there.
    pub fn insert_data_entry(&mut self, key: String, value: Value)
        ensures
            final(self).data@ == old(self).data@.insert(key@, value),
            *final(self) == (Builder { data: final(self).data, ..*old(self) }),
    {
        self.data.insert(key, value);
    }

    /// Removes what is attached under `key`.
    pub fn remove_data_entry(&mut self, key: &str)
        ensures
            final(self).data@ == old(self).data@.remove(key@),
            *final(self) == (Builder { data: final(self).data, ..*old(self) }),
    {
        self.data.remove(key);
    }

    /// Replaces the data attached to the property.
    pub fn set_data(&mut self, data: NameMap<Value>)
        ensures
            *final(self) == (Builder { data, ..*old(self) }),
    {
        self.data = data;
    }

    /// What is attached under `key`, if anything.
    pub fn data_entry(&self, key: &str) -> (r: Option<&Value>)
        ensures
            r == (if self.data@.contains_key(key@) { Some(&self.data@[key@]) } else { None }),
    {
        self.data.get(key)
    }

    /// The type the property is declared with.
    pub fn ty(&self) -> (r: &TypeInfo)
        ensures
            *r == self.ty,
    {
        &self.ty
    }

    /// The name of the column that caches the property.
    pub fn column_name(&self) -> (r: &str)
        ensures
            r@ == self.column_name@,
    {
        self.column_name.as_str()
    }

    /// Sets the name of the column that caches the property.
    pub fn set_column_name(&mut self, column_name: String)
        ensures
            *final(self) == (Builder { column_name, ..*old(self) }),
    {
        self.column_name = column_name;
    }

    /// Whether the property is optional, required or present under a condition.
    pub fn optionality(&self) -> (r: &Optionality)
        ensures
            *r == self.optionality,
    {
        &self.optionality
    }

    /// Sets whether the property is optional, required or present under a condition.
    pub fn set_optionality(&mut self, optionality: Optionality)
        ensures
            *final(self) == (Builder { optionality, ..*old(self) }),
    {
        self.optionality = optionality;
    }

    /// The fields whose values the property is computed from.
    pub fn dependencies(&self) -> (r: &Vec<String>)
        ensures
            *r == self.dependencies,
    {
        &self.dependencies
    }

    /// Sets the fields whose values the property is computed from.
    pub fn set_dependencies(&mut self, dependencies: Vec<String>)
        ensures
            *final(self) == (Builder { dependencies, ..*old(self) }),
    {
        self.dependencies = dependencies;
    }

    /// The pipeline that sets the property, if it can be set.
    pub fn setter(&self) -> (r: &Option<Pipeline>)
        ensures
            *r == self.setter,
    {
        &self.setter
    }

    /// Sets the pipeline that sets the property, if it can be set.
    pub fn set_setter(&mut self, setter: Option<Pipeline>)
        ensures
            *final(self) == (Builder { setter, ..*old(self) }),
    {
        self.setter = setter;
    }

    /// The pipeline that computes the property, if it can be read.
    pub fn getter(&self) -> (r: &Option<Pipeline>)
        ensures
            *r == self.getter,
    {
        &self.getter
    }

    /// Sets the pipeline that computes the property, if it can be read.
    pub fn set_getter(&mut self, getter: Option<Pipeline>)
        ensures
            *final(self) == (Builder { getter, ..*old(self) }),
    {
        self.getter = getter;
    }

    /// Whether the property may be left out of input.
    pub fn input_omissible(&self) -> (r: bool)
        ensures
            r == self.input_omissible,
    {
        self.input_omissible
    }

    /// Sets whether the property may be left out of input.
    pub fn set_input_omissible(&mut self, input_omissible: bool)
        ensures
            *final(self) == (Builder { input_omissible, ..*old(self) }),
    {
        self.input_omissible = input_omissible;
    }

    /// Whether the property may be left out of output.
    pub fn output_omissible(&self) -> (r: bool)
        ensures
            r == self.output_omissible,
    {
        self.output_omissible
    }

    /// Sets whether the property may be left out of output.
    pub fn set_output_omissible(&mut self, output_omissible: bool)
        ensures
            *final(self) == (Builder { output_omissible, ..*old(self) }),
    {
        self.output_omissible = output_omissible;
    }

    /// Whether the computed value is saved with the record.
    pub fn cached(&self) -> (r: bool)
        ensures
            r == self.cached,
    {
        self.cached
    }

    /// Sets whether the computed value is saved with the record.
    pub fn set_cached(&mut self, cached: bool)
        ensures
            *final(self) == (Builder { cached, ..*old(self) }),
    {
        self.cached = cached;
    }

    /// The index the property declares on itself.
    pub fn index(&self) -> (r: &Option<Index>)
        ensures
            *r == self.index,
    {
        &self.index
    }

    /// Sets the index the property declares on itself.
    pub fn set_index(&mut self, index: Option<Index>)
        ensures
            *final(self) == (Builder { index, ..*old(self) }),
    {
        self.index = index;
    }

    /// The property as declared.
    pub fn build(self) -> (p: Property)
        ensures
            p == (Property {
                name: self.name,
                ty: self.ty,
                column_name: self.column_name,
                optionality: self.optionality,
                dependencies: self.dependencies,
                setter: self.setter,
                getter: self.getter,
                input_omissible: self.input_omissible,
                output_omissible: self.output_omissible,
                cached: self.cached,
                index: self.index,
                data: self.data,
            }),
    {
        Property {
            name: self.name,
            ty: self.ty,
            column_name: self.column_name,
            optionality: self.optionality,
            dependencies: self.dependencies,
            setter: self.setter,
            getter: self.getter,
            input_omissible: self.input_omissible,
            output_omissible: self.output_omissible,
            cached: self.cached,
            index: self.index,
            data: self.data,
        }
    }
}

impl Named for Builder {
    open spec fn spec_name(&self) -> Seq<char> {
        self.name@
    }

    fn name(&self) -> (r: &str) {
        self.name.as_str()
    }
}

} // verus!
