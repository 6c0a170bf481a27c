use vstd::prelude::*;
use crate::value::Value;
use indexmap::IndexMap;
use crate::model::cache::Cache;
use crate::model::field::Field;
use crate::model::index::Index;
use crate::model::migration::Migration;
use crate::model::property::Property;
use crate::model::relation::Relation;
use crate::model::maps::{
    entries_values, field_map_entries, relation_map_entries, property_map_entries,
    index_map_entries, field_map_new, relation_map_new, property_map_new, index_map_new,
};
use crate::pipeline::Pipeline;
use crate::action::Action;
use crate::model::maps::{
    entries_get, field_map_get, field_map_len, field_map_get_index, relation_map_get,
    property_map_get, property_map_len, property_map_get_index, index_map_len, index_map_get_index,
};
use crate::name_map::NameMap;
use crate::traits::Named;
use crate::utils::{str_eq, strings_view};

verus! {

/// The first index of `xs` that is a primary index.
pub open spec fn first_primary(xs: Seq<Index>) -> Option<Index>
    decreases xs.len(),
{
    if xs.len() == 0 {
        None
    } else if xs[0]@.0 == crate::model::index::Type::Primary {
        Some(xs[0])
    } else {
        first_primary(xs.drop_first())
    }
}

/// A model of the schema: its fields, relations, properties and indexes, with the key lists
/// derived from them.
#[derive(Debug)]
pub struct Model {
    pub path: Vec<String>,
    pub parser_path: Vec<usize>,
    pub namespace_path: Vec<String>,
    pub table_name: String,
    pub actions: Vec<Action>,
    pub generate_client: bool,
    pub generate_entity: bool,
    pub show_in_studio: bool,
    pub synthesize_shapes: bool,
    pub fields: IndexMap<String, Field>,
    pub relations: IndexMap<String, Relation>,
    pub properties: IndexMap<String, Property>,
    pub indexes: IndexMap<String, Index>,
    pub primary_index: String,
    pub before_save: Pipeline,
    pub after_save: Pipeline,
    pub before_delete: Pipeline,
    pub after_delete: Pipeline,
    pub can_read: Pipeline,
    pub can_mutate: Pipeline,
    pub migration: Migration,
    pub cache: Cache,
    pub builtin_handlers: Vec<Action>,
    pub data: NameMap<Value>,
}

impl Model {
    /// Whether each key at which the model lets a value be saved or held is one of its keys,
    /// as it is for every model that a builder builds.
    pub open spec fn keys_consistent(&self) -> bool {
        forall|k: Seq<char>| #[trigger] strings_view(self.cache.save_keys_and_virtual_keys@).contains(k)
            ==> strings_view(self.cache.all_keys@).contains(k)
    }
}

impl Model {
    /// The fields, in declaration order.
    pub open spec fn spec_fields(&self) -> Seq<Field> {
        entries_values(field_map_entries(self.fields))
    }

    /// The relations, in declaration order.
    pub open spec fn spec_relations(&self) -> Seq<Relation> {
        entries_values(relation_map_entries(self.relations))
    }

    /// The properties, in declaration order.
    pub open spec fn spec_properties(&self) -> Seq<Property> {
        entries_values(property_map_entries(self.properties))
    }

    /// The indexes, in the order they were added.
    pub open spec fn spec_indexes(&self) -> Seq<Index> {
        entries_values(index_map_entries(self.indexes))
    }

    /// A model with an empty path and nothing declared; clients and entities are generated,
    /// it is shown in the studio and its shapes are synthesized.
    pub fn new() -> (r: Self)
        ensures
            r.path@.len() == 0,
            r.parser_path@.len() == 0,
            r.namespace_path@.len() == 0,
            r.table_name@.len() == 0,
            r.actions@.len() == 0,
            r.generate_client,
            r.generate_entity,
            r.show_in_studio,
            r.synthesize_shapes,
            r.spec_fields().len() == 0,
            r.spec_relations().len() == 0,
            r.spec_properties().len() == 0,
            r.spec_indexes().len() == 0,
            r.primary_index@.len() == 0,
            r.migration.renamed is None,
            r.migration.version is None,
            !r.migration.drop,
            r.builtin_handlers@.len() == 0,
            r.data@ == Map::<Seq<char>, Value>::empty(),
    {
        Model {
            path: Vec::new(),
            parser_path: Vec::new(),
            namespace_path: Vec::new(),
            table_name: String::new(),
            actions: Vec::new(),
            generate_client: true,
            generate_entity: true,
            show_in_studio: true,
            synthesize_shapes: true,
            fields: field_map_new(),
            relations: relation_map_new(),
            properties: property_map_new(),
            indexes: index_map_new(),
            primary_index: String::new(),
            before_save: Pipeline::new(),
            after_save: Pipeline::new(),
            before_delete: Pipeline::new(),
            after_delete: Pipeline::new(),
            can_read: Pipeline::new(),
            can_mutate: Pipeline::new(),
            migration: Migration::default(),
            cache: Cache::new(),
            builtin_handlers: Vec::new(),
            data: NameMap::new(),
        }
    }
}

impl Model {
    /// The data attached to the model.
    pub fn data(&self) -> (r: &NameMap<Value>)
        ensures
            *r == self.data,
    {
        &self.data
    }

    /// The path of the model: its namespaces' names, then its own.
    pub fn path(&self) -> (r: &Vec<String>)
        ensures
            *r == self.path,
    {
        &self.path
    }

    /// The model's position in the parsed schema.
    pub fn parser_path(&self) -> (r: &Vec<usize>)
        ensures
            *r == self.parser_path,
    {
        &self.parser_path
    }

    /// The path of the model's namespace.
    pub fn namespace_path(&self) -> (r: &Vec<String>)
        ensures
            *r == self.namespace_path,
    {
        &self.namespace_path
    }

    /// The name of the model's table.
    pub fn table_name(&self) -> (r: &str)
        ensures
            r@ == self.table_name@,
    {
        self.table_name.as_str()
    }

    /// The actions the model allows.
    pub fn actions(&self) -> (r: &Vec<Action>)
        ensures
            *r == self.actions,
    {
        &self.actions
    }

    /// The model's name: the last name of its path.
    pub fn name(&self) -> (r: &str)
        requires
            self.path@.len() >= 1,
        ensures
            r@ == self.path@.last()@,
    {
        self.path[self.path.len() - 1].as_str()
    }

    /// Whether a client is generated for the model.
    pub fn generate_client(&self) -> (r: bool)
        ensures
            r == self.generate_client,
    {
        self.generate_client
    }

    /// Whether an entity is generated for the model.
    pub fn generate_entity(&self) -> (r: bool)
        ensures
            r == self.generate_entity,
    {
        self.generate_entity
    }

    /// Whether the model is shown in the studio.
    pub fn show_in_studio(&self) -> (r: bool)
        ensures
            r == self.show_in_studio,
    {
        self.show_in_studio
    }

    /// Whether the model's shapes are synthesized.
    pub fn synthesize_shapes(&self) -> (r: bool)
        ensures
            r == self.synthesize_shapes,
    {
        self.synthesize_shapes
    }

    /// The pipeline run before a record is saved.
    pub fn before_save(&self) -> (r: &Pipeline)
        ensures
            *r == self.before_save,
    {
        &self.before_save
    }

    /// The pipeline run after a record is saved.
    pub fn after_save(&self) -> (r: &Pipeline)
        ensures
            *r == self.after_save,
    {
        &self.after_save
    }

    /// The pipeline run before a record is deleted.
    pub fn before_delete(&self) -> (r: &Pipeline)
        ensures
            *r == self.before_delete,
    {
        &self.before_delete
    }

    /// The pipeline run after a record is deleted.
    pub fn after_delete(&self) -> (r: &Pipeline)
        ensures
            *r == self.after_delete,
    {
        &self.after_delete
    }

    /// The pipeline that decides whether a record may be read.
    pub fn can_read(&self) -> (r: &Pipeline)
        ensures
            *r == self.can_read,
    {
        &self.can_read
    }

    /// The pipeline that decides whether a record may be changed.
    pub fn can_mutate(&self) -> (r: &Pipeline)
        ensures
            *r == self.can_mutate,
    {
        &self.can_mutate
    }

    /// The fields, under their names.
    pub fn fields(&self) -> (r: &IndexMap<String, Field>)
        ensures
            *r == self.fields,
    {
        &self.fields
    }

    /// The relations, under their names.
    pub fn relations(&self) -> (r: &IndexMap<String, Relation>)
        ensures
            *r == self.relations,
    {
        &self.relations
    }

    /// The properties, under their names.
    pub fn properties(&self) -> (r: &IndexMap<String, Property>)
        ensures
            *r == self.properties,
    {
        &self.properties
    }

    /// The indexes, under their names.
    pub fn indexes(&self) -> (r: &IndexMap<String, Index>)
        ensures
            *r == self.indexes,
    {
        &self.indexes
    }

    /// The name of the model's primary index.
    pub fn primary_index_name(&self) -> (r: &str)
        ensures
            r@ == self.primary_index@,
    {
        self.primary_index.as_str()
    }

    /// The first of the model's indexes that is primary.
    pub fn primary_index(&self) -> (r: Option<&Index>)
        ensures
            (match r {
                Some(i) => Some(*i),
                None => None,
            }) == first_primary(self.spec_indexes()),
    {
        let ghost xs = self.spec_indexes();
        let n = index_map_len(&self.indexes);
        let mut i: usize = 0;
        assert(xs.skip(0) =~= xs);
        while i < n
            invariant
                n == xs.len(),
                xs == self.spec_indexes(),
                i <= n,
                first_primary(xs.skip(i as int)) == first_primary(xs),
            decreases n - i,
        {
            let index = index_map_get_index(&self.indexes, i).unwrap().1;
            assert(xs[i as int] == *index);
            assert(xs.skip(i as int)[0] == xs[i as int]);
            assert(xs.skip(i as int).drop_first() =~= xs.skip(i + 1));
            if index.kind().is_primary() {
                return Some(index);
            }
            i = i + 1;
        }
        assert(xs.skip(i as int).len() == 0);
        None
    }

    /// How the model is carried over from an earlier schema.
    pub fn migration(&self) -> (r: &Migration)
        ensures
            *r == self.migration,
    {
        &self.migration
    }

    /// The key lists derived when the model was built.
    pub fn cache(&self) -> (r: &Cache)
        ensures
            *r == self.cache,
    {
        &self.cache
    }

    /// The field named `name`, unless it was dropped.
    pub fn field(&self, name: &str) -> (r: Option<&Field>)
        ensures
            match r {
                Some(f) => entries_get(field_map_entries(self.fields), name@) == Some(*f) && !f.dropped,
                None => match entries_get(field_map_entries(self.fields), name@) {
                    Some(f) => f.dropped,
                    None => true,
                },
            },
    {
        match field_map_get(&self.fields, name) {
            Some(f) => if !f.dropped() {
                Some(f)
            } else {
                None
            },
            None => None,
        }
    }

    /// The field named `name`, if it was dropped.
    pub fn dropped_field(&self, name: &str) -> (r: Option<&Field>)
        ensures
            match r {
                Some(f) => entries_get(field_map_entries(self.fields), name@) == Some(*f) && f.dropped,
                None => match entries_get(field_map_entries(self.fields), name@) {
                    Some(f) => !f.dropped,
                    None => true,
                },
            },
    {
        match field_map_get(&self.fields, name) {
            Some(f) => if f.dropped() {
                Some(f)
            } else {
                None
            },
            None => None,
        }
    }

    /// The relation named `name`.
    pub fn relation(&self, name: &str) -> (r: Option<&Relation>)
        ensures
            match r {
                Some(v) => entries_get(relation_map_entries(self.relations), name@) == Some(*v),
                None => entries_get(relation_map_entries(self.relations), name@) is None,
            },
    {
        relation_map_get(&self.relations, name)
    }

    /// The property named `name`.
    pub fn property(&self, name: &str) -> (r: Option<&Property>)
        ensures
            match r {
                Some(v) => entries_get(property_map_entries(self.properties), name@) == Some(*v),
                None => entries_get(property_map_entries(self.properties), name@) is None,
            },
    {
        property_map_get(&self.properties, name)
    }

    /// The first field, in declaration order, whose column is named `name`.
    pub fn field_with_column_name(&self, name: &str) -> (r: Option<&Field>)
        ensures
            match r {
                Some(f) => exists|k: int| 0 <= k < self.spec_fields().len() && self.spec_fields()[k] == *f
                    && f.column_name@ == name@
                    && forall|j: int| 0 <= j < k ==> (#[trigger] self.spec_fields()[j]).column_name@ != name@,
                None => forall|j: int| 0 <= j < self.spec_fields().len()
                    ==> (#[trigger] self.spec_fields()[j]).column_name@ != name@,
            },
    {
        let ghost xs = self.spec_fields();
        let n = field_map_len(&self.fields);
        let mut i: usize = 0;
        while i < n
            invariant
                n == xs.len(),
                xs == self.spec_fields(),
                i <= n,
                forall|j: int| 0 <= j < i ==> (#[trigger] xs[j]).column_name@ != name@,
            decreases n - i,
        {
            let f = field_map_get_index(&self.fields, i).unwrap().1;
            assert(xs[i as int] == *f);
            if str_eq(f.column_name(), name) {
                return Some(f);
            }
            i = i + 1;
        }
        None
    }

    /// The first property, in declaration order, whose column is named `name`.
    pub fn property_with_column_name(&self, name: &str) -> (r: Option<&Property>)
        ensures
            match r {
                Some(p) => exists|k: int| 0 <= k < self.spec_properties().len() && self.spec_properties()[k] == *p
                    && p.column_name@ == name@
                    && forall|j: int| 0 <= j < k ==> (#[trigger] self.spec_properties()[j]).column_name@ != name@,
                None => forall|j: int| 0 <= j < self.spec_properties().len()
                    ==> (#[trigger] self.spec_properties()[j]).column_name@ != name@,
            },
    {
        let ghost xs = self.spec_properties();
        let n = property_map_len(&self.properties);
        let mut i: usize = 0;
        while i < n
            invariant
                n == xs.len(),
                xs == self.spec_properties(),
                i <= n,
                forall|j: int| 0 <= j < i ==> (#[trigger] xs[j]).column_name@ != name@,
            decreases n - i,
        {
            let p = property_map_get_index(&self.properties, i).unwrap().1;
            assert(xs[i as int] == *p);
            if str_eq(p.column_name(), name) {
                return Some(p);
            }
            i = i + 1;
        }
        None
    }

    /// The keys that the aggregate `name` accepts: for `_count` the scalar keys and `_all`;
    /// for `_min` and `_max` the scalar keys; for any other the scalar keys of a number type.
    pub fn allowed_keys_for_aggregate(&self, name: &str) -> (r: NameMap<()>)
        ensures
            r@.dom() == (if name@ == "_count"@ {
                strings_view(self.cache.scalar_keys@).to_set().insert("_all"@)
            } else if name@ == "_min"@ || name@ == "_max"@ {
                strings_view(self.cache.scalar_keys@).to_set()
            } else {
                strings_view(self.cache.scalar_number_keys@).to_set()
            }),
    {
        if str_eq(name, "_count") {
            let mut r = name_set(&self.cache.scalar_keys);
            r.insert("_all".to_owned(), ());
            r
        } else if str_eq(name, "_min") || str_eq(name, "_max") {
            name_set(&self.cache.scalar_keys)
        } else {
            name_set(&self.cache.scalar_number_keys)
        }
    }

    /// Whether the model's table may be dropped when migrating.
    pub fn allows_drop_when_migrate(&self) -> (r: bool)
        ensures
            r == self.migration.drop,
    {
        self.migration.drop
    }
}

/// The set of the strings of a list.
pub fn name_set(names: &Vec<String>) -> (r: NameMap<()>)
    ensures
        r@.dom() == strings_view(names@).to_set(),
{
    let ghost fs = strings_view(names@);
    let mut r: NameMap<()> = NameMap::new();
    let mut j: usize = 0;
    while j < names.len()
        invariant
            j <= names.len(),
            fs == strings_view(names@),
            r@.dom() == fs.take(j as int).to_set(),
        decreases names.len() - j,
    {
        let key = names[j].clone();
        r.insert(key, ());
        proof {
            assert(fs[j as int] == key@);
            assert forall|k: Seq<char>| #[trigger] fs.take(j + 1).to_set().contains(k) <==> fs.take(j as int).to_set().insert(key@).contains(k) by {
                if fs.take(j + 1).contains(k) {
                    let x = choose|x: int| 0 <= x < j + 1 && #[trigger] fs.take(j + 1)[x] == k;
                    if x < j {
                        assert(fs.take(j as int)[x] == k);
                    }
                }
                if fs.take(j as int).contains(k) {
                    let x = choose|x: int| 0 <= x < j && #[trigger] fs.take(j as int)[x] == k;
                    assert(fs.take(j + 1)[x] == k);
                }
                if k == key@ {
                    assert(fs.take(j + 1)[j as int] == k);
                }
            }
            assert(r@.dom() =~= fs.take(j + 1).to_set());
        }
        j = j + 1;
    }
    assert(fs.take(names.len() as int) =~= fs);
    r
}

} // verus!
