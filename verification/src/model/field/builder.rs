use vstd::prelude::*;
use crate::model::field::{Field, Index, Migration};
use crate::model::field::indexable::SetIndex;
use crate::optionality::Optionality;
use crate::pipeline::Pipeline;
use crate::model::field::previous::Previous;
use crate::model::field::default::FieldDefault;
use crate::name_map::NameMap;
use crate::value::Value;
use crate::readwrite::{Read, Write};
use crate::traits::Named;
use crate::type_info::TypeInfo;

verus! {

/// Collects what the decorators of a field declare, then builds the field.
#[derive(Debug)]
pub struct Builder {
    pub name: String,
    pub ty: TypeInfo,
    pub column_name: String,
    pub foreign_key: bool,
    pub dropped: bool,
    pub migration: Option<Migration>,
    pub optionality: Optionality,
    pub copy: bool,
    pub read: Read,
    pub write: Write,
    pub atomic: bool,
    pub is_virtual: bool,
    pub input_omissible: bool,
    pub output_omissible: bool,
    pub index: Option<Index>,
    pub queryable: bool,
    pub sortable: bool,
    pub auto: bool,
    pub auto_increment: bool,
    pub on_set: Pipeline,
    pub on_save: Pipeline,
    pub on_output: Pipeline,
    pub can_mutate: Pipeline,
    pub can_read: Pipeline,
    pub previous: Previous,
    pub default: Option<FieldDefault>,
    pub data: NameMap<Value>,
}

/// Whether a field declaring `index` is copied when `copy` says it would be: a field under a
/// unique or primary index is never copied.
pub open spec fn copies(copy: bool, index: Option<Index>) -> bool {
    copy && !(match index {
        Some(i) => i.kind == crate::model::index::Type::Unique || i.kind == crate::model::index::Type::Primary,
        None => false,
    })
}

impl Builder {
    /// A builder for the field `name` declared with type `ty`: its column is named after it;
    /// it is required, readable, writable, queryable, sortable and copied; nothing else is set.
    pub fn new(name: String, ty: TypeInfo) -> (r: Self)
        ensures
            r.name == name,
            r.ty == ty,
            r.column_name@ == name@,
            !r.foreign_key,
            !r.dropped,
            r.migration is None,
            r.optionality is Required,
            r.copy,
            r.read is Read,
            r.write is Write,
            !r.atomic,
            !r.is_virtual,
            !r.input_omissible,
            !r.output_omissible,
            r.index is None,
            r.queryable,
            r.sortable,
            !r.auto,
            !r.auto_increment,
            r.on_set.items@.len() == 0,
            r.on_save.items@.len() == 0,
            r.on_output.items@.len() == 0,
            r.can_mutate.items@.len() == 0,
            r.can_read.items@.len() == 0,
            r.previous == Previous::DontKeep,
            r.default is None,
            r.data@ == Map::<Seq<char>, Value>::empty(),
    {
        let column_name = name.clone();
        Builder {
            name,
            ty,
            column_name,
            foreign_key: false,
            dropped: false,
            migration: None,
            optionality: Optionality::Required,
            copy: true,
            read: Read::Read,
            write: Write::Write,
            atomic: false,
            is_virtual: false,
            input_omissible: false,
            output_omissible: false,
            index: None,
            queryable: true,
            sortable: true,
            auto: false,
            auto_increment: false,
            on_set: Pipeline::new(),
            on_save: Pipeline::new(),
            on_output: Pipeline::new(),
            can_mutate: Pipeline::new(),
            can_read: Pipeline::new(),
            previous: Previous::DontKeep,
            default: None,
            data: NameMap::new(),
        }
    }

    /// The field's default.
    pub fn default(&self) -> (r: Option<&FieldDefault>)
        ensures
            r == match self.default {
                Some(d) => Some(&d),
                None => None,
            },
    {
        self.default.as_ref()
    }

    /// Sets the field's default.
    pub fn set_default(&mut self, default: Option<FieldDefault>)
        ensures
            *final(self) == (Builder { default, ..*old(self) }),
    {
        self.default = default;
    }

    /// The data attached to the field.
    pub fn data(&self) -> (r: &NameMap<Value>)
        ensures
            *r == self.data,
    {
        &self.data
    }

    /// Attaches `value` under `key`, replacing what was attached there.
    pub fn insert_data_entry(&mut self, key: String, value: Value)
        ensures
            final(self).data@ == old(self).data@.insert(key@, value),
            *final(self) == (Builder { data: final(self).data, ..*old(self) }),
    {
        self.data.insert(key, value);
    }

    /// Removes what is attached under `key`.
    pub fn remove_data_entry(&mut self, key: &str)
        ensures
            final(self).data@ == old(self).data@.remove(key@),
            *final(self) == (Builder { data: final(self).data, ..*old(self) }),
    {
        self.data.remove(key);
    }

    /// Replaces the data attached to the field.
    pub fn set_data(&mut self, data: NameMap<Value>)
        ensures
            *final(self) == (Builder { data, ..*old(self) }),
    {
        self.data = data;
    }

    /// What is attached under `key`, if anything.
    pub fn data_entry(&self, key: &str) -> (r: Option<&Value>)
        ensures
            r == (if self.data@.contains_key(key@) { Some(&self.data@[key@]) } else { None }),
    {
        self.data.get(key)
    }

    /// The type the field is declared with.
    pub fn ty(&self) -> (r: &TypeInfo)
        ensures
            *r == self.ty,
    {
        &self.ty
    }

    /// The name of the column that stores the field.
    pub fn column_name(&self) -> (r: &str)
        ensures
            r@ == self.column_name@,
    {
        self.column_name.as_str()
    }

    /// Sets the name of the column that stores the field.
    pub fn set_column_name(&mut self, column_name: String)
        ensures
            *final(self) == (Builder { column_name, ..*old(self) }),
    {
        self.column_name = column_name;
    }

    /// Whether the field holds a foreign key.
    pub fn foreign_key(&self) -> (r: bool)
        ensures
            r == self.foreign_key,
    {
        self.foreign_key
    }

    /// Sets whether the field holds a foreign key.
    pub fn set_foreign_key(&mut self, foreign_key: bool)
        ensures
            *final(self) == (Builder { foreign_key, ..*old(self) }),
    {
        self.foreign_key = foreign_key;
    }

    /// Whether the field was dropped from the schema and is kept for migration only.
    pub fn dropped(&self) -> (r: bool)
        ensures
            r == self.dropped,
    {
        self.dropped
    }

    /// Sets whether the field was dropped from the schema and is kept for migration only.
    pub fn set_dropped(&mut self, dropped: bool)
        ensures
            *final(self) == (Builder { dropped, ..*old(self) }),
    {
        self.dropped = dropped;
    }

    /// How the field is carried over from an earlier schema.
    pub fn migration(&self) -> (r: &Option<Migration>)
        ensures
            *r == self.migration,
    {
        &self.migration
    }

    /// Sets how the field is carried over from an earlier schema.
    pub fn set_migration(&mut self, migration: Option<Migration>)
        ensures
            *final(self) == (Builder { migration, ..*old(self) }),
    {
        self.migration = migration;
    }

    /// Whether the field is optional, required or present under a condition.
    pub fn optionality(&self) -> (r: &Optionality)
        ensures
            *r == self.optionality,
    {
        &self.optionality
    }

    /// Sets whether the field is optional, required or present under a condition.
    pub fn set_optionality(&mut self, optionality: Optionality)
        ensures
            *final(self) == (Builder { optionality, ..*old(self) }),
    {
        self.optionality = optionality;
    }

    /// Whether the field is copied when a record is copied.
    pub fn copy(&self) -> (r: bool)
        ensures
            r == self.copy,
    {
        self.copy
    }

    /// Sets whether the field is copied when a record is copied.
    pub fn set_copy(&mut self, copy: bool)
        ensures
            *final(self) == (Builder { copy, ..*old(self) }),
    {
        self.copy = copy;
    }

    /// When the field may be read.
    pub fn read(&self) -> (r: &Read)
        ensures
            *r == self.read,
    {
        &self.read
    }

    /// Sets when the field may be read.
    pub fn set_read(&mut self, read: Read)
        ensures
            *final(self) == (Builder { read, ..*old(self) }),
    {
        self.read = read;
    }

    /// When the field may be written.
    pub fn write(&self) -> (r: &Write)
        ensures
            *r == self.write,
    {
        &self.write
    }

    /// Sets when the field may be written.
    pub fn set_write(&mut self, write: Write)
        ensures
            *final(self) == (Builder { write, ..*old(self) }),
    {
        self.write = write;
    }

    /// Whether the field accepts atomic updates.
    pub fn atomic(&self) -> (r: bool)
        ensures
            r == self.atomic,
    {
        self.atomic
    }

    /// Sets whether the field accepts atomic updates.
    pub fn set_atomic(&mut self, atomic: bool)
        ensures
            *final(self) == (Builder { atomic, ..*old(self) }),
    {
        self.atomic = atomic;
    }

    /// Whether the field is virtual, that is, never saved.
    pub fn is_virtual(&self) -> (r: bool)
        ensures
            r == self.is_virtual,
    {
        self.is_virtual
    }

    /// Sets whether the field is virtual, that is, never saved.
    pub fn set_virtual(&mut self, is_virtual: bool)
        ensures
            *final(self) == (Builder { is_virtual, ..*old(self) }),
    {
        self.is_virtual = is_virtual;
    }

    /// Whether the field may be left out of input.
    pub fn input_omissible(&self) -> (r: bool)
        ensures
            r == self.input_omissible,
    {
        self.input_omissible
    }

    /// Sets whether the field may be left out of input.
    pub fn set_input_omissible(&mut self, input_omissible: bool)
        ensures
            *final(self) == (Builder { input_omissible, ..*old(self) }),
    {
        self.input_omissible = input_omissible;
    }

    /// Whether the field may be left out of output.
    pub fn output_omissible(&self) -> (r: bool)
        ensures
            r == self.output_omissible,
    {
        self.output_omissible
    }

    /// Sets whether the field may be left out of output.
    pub fn set_output_omissible(&mut self, output_omissible: bool)
        ensures
            *final(self) == (Builder { output_omissible, ..*old(self) }),
    {
        self.output_omissible = output_omissible;
    }

    /// The index the field declares on itself.
    pub fn index(&self) -> (r: &Option<Index>)
        ensures
            *r == self.index,
    {
        &self.index
    }

    /// Sets the index the field declares on itself.
    pub fn set_index(&mut self, index: Option<Index>)
        ensures
            *final(self) == (Builder { index, ..*old(self) }),
    {
        self.index = index;
    }

    /// Whether the field may be queried on.
    pub fn queryable(&self) -> (r: bool)
        ensures
            r == self.queryable,
    {
        self.queryable
    }

    /// Sets whether the field may be queried on.
    pub fn set_queryable(&mut self, queryable: bool)
        ensures
            *final(self) == (Builder { queryable, ..*old(self) }),
    {
        self.queryable = queryable;
    }

    /// Whether records may be sorted by the field.
    pub fn sortable(&self) -> (r: bool)
        ensures
            r == self.sortable,
    {
        self.sortable
    }

    /// Sets whether records may be sorted by the field.
    pub fn set_sortable(&mut self, sortable: bool)
        ensures
            *final(self) == (Builder { sortable, ..*old(self) }),
    {
        self.sortable = sortable;
    }

    /// Whether the database fills the field in.
    pub fn auto(&self) -> (r: bool)
        ensures
            r == self.auto,
    {
        self.auto
    }

    /// Sets whether the database fills the field in.
    pub fn set_auto(&mut self, auto: bool)
        ensures
            *final(self) == (Builder { auto, ..*old(self) }),
    {
        self.auto = auto;
    }

    /// Whether the database fills the field in with an increasing number.
    pub fn auto_increment(&self) -> (r: bool)
        ensures
            r == self.auto_increment,
    {
        self.auto_increment
    }

    /// Sets whether the database fills the field in with an increasing number.
    pub fn set_auto_increment(&mut self, auto_increment: bool)
        ensures
            *final(self) == (Builder { auto_increment, ..*old(self) }),
    {
        self.auto_increment = auto_increment;
    }

    /// The pipeline run when the field is set.
    pub fn on_set(&self) -> (r: &Pipeline)
        ensures
            *r == self.on_set,
    {
        &self.on_set
    }

    /// Sets the pipeline run when the field is set.
    pub fn set_on_set(&mut self, on_set: Pipeline)
        ensures
            *final(self) == (Builder { on_set, ..*old(self) }),
    {
        self.on_set = on_set;
    }

    /// The pipeline run when the record is saved.
    pub fn on_save(&self) -> (r: &Pipeline)
        ensures
            *r == self.on_save,
    {
        &self.on_save
    }

    /// Sets the pipeline run when the record is saved.
    pub fn set_on_save(&mut self, on_save: Pipeline)
        ensures
            *final(self) == (Builder { on_save, ..*old(self) }),
    {
        self.on_save = on_save;
    }

    /// The pipeline run when the field is output.
    pub fn on_output(&self) -> (r: &Pipeline)
        ensures
            *r == self.on_output,
    {
        &self.on_output
    }

    /// Sets the pipeline run when the field is output.
    pub fn set_on_output(&mut self, on_output: Pipeline)
        ensures
            *final(self) == (Builder { on_output, ..*old(self) }),
    {
        self.on_output = on_output;
    }

    /// The pipeline that decides whether the field may be changed.
    pub fn can_mutate(&self) -> (r: &Pipeline)
        ensures
            *r == self.can_mutate,
    {
        &self.can_mutate
    }

    /// Sets the pipeline that decides whether the field may be changed.
    pub fn set_can_mutate(&mut self, can_mutate: Pipeline)
        ensures
            *final(self) == (Builder { can_mutate, ..*old(self) }),
    {
        self.can_mutate = can_mutate;
    }

    /// The pipeline that decides whether the field may be read.
    pub fn can_read(&self) -> (r: &Pipeline)
        ensures
            *r == self.can_read,
    {
        &self.can_read
    }

    /// Sets the pipeline that decides whether the field may be read.
    pub fn set_can_read(&mut self, can_read: Pipeline)
        ensures
            *final(self) == (Builder { can_read, ..*old(self) }),
    {
        self.can_read = can_read;
    }

    /// Whether objects keep the value the field had when it was read.
    pub fn previous(&self) -> (r: Previous)
        ensures
            r == self.previous,
    {
        self.previous
    }

    /// Sets whether objects keep the value the field had when it was read.
    pub fn set_previous(&mut self, previous: Previous)
        ensures
            *final(self) == (Builder { previous, ..*old(self) }),
    {
        self.previous = previous;
    }

    /// Makes the field optional, and omissible in input and output.
    pub fn set_optional(&mut self)
        ensures
            *final(self) == (Builder {
                optionality: Optionality::Optional,
                input_omissible: true,
                output_omissible: true,
                ..*old(self)
            }),
    {
        self.set_optionality(Optionality::Optional);
        self.set_input_omissible(true);
        self.set_output_omissible(true);
    }

    /// Makes the field required.
    pub fn set_required(&mut self)
        ensures
            *final(self) == (Builder { optionality: Optionality::Required, ..*old(self) }),
    {
        self.set_optionality(Optionality::Required);
    }

    /// The field as declared; a field under a unique or primary index is not copied, whatever
    /// `copy` says.
    pub fn build(self) -> (f: Field)
        ensures
            f == (Field {
                name: self.name,
                column_name: self.column_name,
                foreign_key: self.foreign_key,
                dropped: self.dropped,
                migration: self.migration,
                ty: self.ty,
                optionality: self.optionality,
                copy: copies(self.copy, self.index),
                read: self.read,
                write: self.write,
                atomic: self.atomic,
                is_virtual: self.is_virtual,
                input_omissible: self.input_omissible,
                output_omissible: self.output_omissible,
                index: self.index,
                queryable: self.queryable,
                sortable: self.sortable,
                auto: self.auto,
                auto_increment: self.auto_increment,
                on_set: self.on_set,
                on_save: self.on_save,
                on_output: self.on_output,
                can_mutate: self.can_mutate,
                can_read: self.can_read,
                previous: self.previous,
                default: self.default,
                data: self.data,
            }),
    {
        let mut copy = self.copy;
        match &self.index {
            Some(index) => {
                if index.kind().is_unique_or_primary() {
                    copy = false;
                }
            },
            None => {},
        }
        Field {
            name: self.name,
            column_name: self.column_name,
            foreign_key: self.foreign_key,
            dropped: self.dropped,
            migration: self.migration,
            ty: self.ty,
            optionality: self.optionality,
            copy,
            read: self.read,
            write: self.write,
            atomic: self.atomic,
            is_virtual: self.is_virtual,
            input_omissible: self.input_omissible,
            output_omissible: self.output_omissible,
            index: self.index,
            queryable: self.queryable,
            sortable: self.sortable,
            auto: self.auto,
            auto_increment: self.auto_increment,
            on_set: self.on_set,
            on_save: self.on_save,
            on_output: self.on_output,
            can_mutate: self.can_mutate,
            can_read: self.can_read,
            previous: self.previous,
            default: self.default,
            data: self.data,
        }
    }
}

impl Named for Builder {
    open spec fn spec_name(&self) -> Seq<char> {
        self.name@
    }

    fn name(&self) -> (r: &str) {
        self.name.as_str()
    }
}

impl SetIndex for Builder {
    open spec fn spec_declared_index(&self) -> Option<Index> {
        self.index
    }

    fn set_index(&mut self, index: Index) {
        self.index = Some(index);
    }
}

} // verus!
