use vstd::prelude::*;
use crate::value::Value;
use indexmap::IndexMap;
use crate::error::Error;
use teo_parser::ast::model::ModelResolved;
use crate::model::cache::Cache;
use crate::model::field::{self, Field};
use crate::model::field::indexable::Indexable;
use crate::model::index::{Index, Item, Type};
use crate::model::index::item::item_fields;
use crate::model::keys::{
    FieldKeys, PropertyKeys, RelationKeys, field_keys, property_keys, relation_keys,
    select_field_keys, select_property_keys, select_relation_keys,
};
use crate::model::maps::{
    entries_insert, entries_values, field_map_entries, field_map_get_index, field_map_insert,
    field_map_len, field_map_new, index_map_entries, index_map_get_index, index_map_insert,
    index_map_len, index_map_new, property_map_entries, property_map_get_index,
    property_map_insert, property_map_len, property_map_new, relation_map_entries,
    relation_map_insert, relation_map_new, lemma_entries_find, lemma_entries_find_same_keys,
};
use crate::model::migration::Migration;
use crate::model::model::Model;
use crate::model::property::Property;
use crate::model::relation::Relation;
use crate::model::relation::delete::Delete;
use crate::name_map::NameMap;
use crate::pipeline::Pipeline;
use crate::action::{Action, spec_builtin_handlers};
use crate::traits::Named;
use crate::utils::{clone_prefix, concat_strings, join_prefix, seq_join, strings_view};

verus! {

/// The view of an index: its kind, its name and its items.
pub type IndexView = (Type, Seq<char>, Seq<Item>);

/// The name of the table of the model at `path`: the names of its namespaces joined by `_`,
/// then `__`, then the model's name; a model of the main namespace is named after itself.
pub open spec fn spec_table_name(path: Seq<Seq<char>>) -> Seq<char> {
    let prefix = seq_join(path.drop_last(), seq!['_']);
    if prefix.len() == 0 {
        path.last()
    } else {
        prefix + seq!['_', '_'] + path.last()
    }
}

/// The name of the last primary index among `indexes`.
pub open spec fn declared_primary_name(indexes: Seq<Index>) -> Option<Seq<char>>
    decreases indexes.len(),
{
    if indexes.len() == 0 {
        None
    } else if indexes.last()@.0 == Type::Primary {
        Some(indexes.last()@.1)
    } else {
        declared_primary_name(indexes.drop_last())
    }
}

/// The model index made of the index `index` that the field or property `name` declares:
/// named after the field, with one item that carries the field index's name.
pub open spec fn field_index_view(name: Seq<char>, index: field::Index) -> IndexView {
    (index.kind, name, seq![Item { field: index.name, sort: index.sort, len: index.length }])
}

/// The model indexes that the fields in `fields` declare, in order.
pub open spec fn field_index_views(fields: Seq<Field>) -> Seq<IndexView>
    decreases fields.len(),
{
    if fields.len() == 0 {
        Seq::empty()
    } else {
        field_index_views(fields.drop_last()) + match fields.last().index {
            Some(i) => seq![field_index_view(fields.last().name@, i)],
            None => Seq::empty(),
        }
    }
}

/// The model indexes that the properties in `properties` declare, in order.
pub open spec fn property_index_views(properties: Seq<Property>) -> Seq<IndexView>
    decreases properties.len(),
{
    if properties.len() == 0 {
        Seq::empty()
    } else {
        property_index_views(properties.drop_last()) + match properties.last().index {
            Some(i) => seq![field_index_view(properties.last().name@, i)],
            None => Seq::empty(),
        }
    }
}

/// The name of the last primary index among `views`.
pub open spec fn last_primary_view(views: Seq<IndexView>) -> Option<Seq<char>>
    decreases views.len(),
{
    if views.len() == 0 {
        None
    } else if views.last().0 == Type::Primary {
        Some(views.last().1)
    } else {
        last_primary_view(views.drop_last())
    }
}

/// The entries of an index map, each index taken by its view.
pub open spec fn index_entries_view(entries: Seq<(Seq<char>, Index)>) -> Seq<(Seq<char>, IndexView)> {
    entries.map_values(|e: (Seq<char>, Index)| (e.0, e.1@))
}

/// The entries after inserting each of `views`, in order, under its own name.
pub open spec fn insert_index_views(
    entries: Seq<(Seq<char>, IndexView)>,
    views: Seq<IndexView>,
) -> Seq<(Seq<char>, IndexView)>
    decreases views.len(),
{
    if views.len() == 0 {
        entries
    } else {
        entries_insert(insert_index_views(entries, views.drop_last()), views.last().1, views.last())
    }
}

/// The primary index that a model ends up with: the last primary index that its fields or
/// properties declare; else the last primary index it was given, if that has a name; else
/// the primary index set on the builder.
pub open spec fn resolved_primary(
    builder_primary: Seq<char>,
    declared: Seq<Index>,
    from_fields: Seq<IndexView>,
) -> Seq<char> {
    match last_primary_view(from_fields) {
        Some(n) => n,
        None => match declared_primary_name(declared) {
            Some(n) => if n.len() > 0 {
                n
            } else {
                builder_primary
            },
            None => builder_primary,
        },
    }
}

/// The last primary index of `views` is absent exactly when none of them is primary, and is
/// otherwise the name of one of them.
pub proof fn lemma_last_primary_view(views: Seq<IndexView>)
    ensures
        (last_primary_view(views) is None) == (forall|i: int| 0 <= i < views.len() ==> views[i].0 != Type::Primary),
        last_primary_view(views) matches Some(n) ==> exists|i: int| 0 <= i < views.len()
            && views[i].0 == Type::Primary && views[i].1 == n,
    decreases views.len(),
{
    if views.len() > 0 {
        lemma_last_primary_view(views.drop_last());
        if last_primary_view(views.drop_last()) is None && views.last().0 != Type::Primary {
            assert forall|i: int| 0 <= i < views.len() implies views[i].0 != Type::Primary by {
                if i < views.len() - 1 {
                    assert(views[i] == views.drop_last()[i]);
                }
            }
        }
        if views.last().0 != Type::Primary && last_primary_view(views.drop_last()) is Some {
            let i = choose|i: int| 0 <= i < views.drop_last().len() && views.drop_last()[i].0 == Type::Primary
                && views.drop_last()[i].1 == last_primary_view(views.drop_last())->0;
            assert(views[i] == views.drop_last()[i]);
        }
        if views.last().0 == Type::Primary {
            assert(views[views.len() - 1].0 == Type::Primary);
        }
    }
}

/// The last primary index of `indexes` is absent exactly when none of them is primary, and is
/// otherwise the name of one of them.
pub proof fn lemma_declared_primary_name(indexes: Seq<Index>)
    ensures
        (declared_primary_name(indexes) is None) == (forall|i: int| 0 <= i < indexes.len() ==> indexes[i]@.0 != Type::Primary),
        declared_primary_name(indexes) matches Some(n) ==> exists|i: int| 0 <= i < indexes.len()
            && indexes[i]@.0 == Type::Primary && indexes[i]@.1 == n,
    decreases indexes.len(),
{
    if indexes.len() > 0 {
        lemma_declared_primary_name(indexes.drop_last());
        if declared_primary_name(indexes.drop_last()) is None && indexes.last()@.0 != Type::Primary {
            assert forall|i: int| 0 <= i < indexes.len() implies indexes[i]@.0 != Type::Primary by {
                if i < indexes.len() - 1 {
                    assert(indexes[i] == indexes.drop_last()[i]);
                }
            }
        }
        if indexes.last()@.0 != Type::Primary && declared_primary_name(indexes.drop_last()) is Some {
            let i = choose|i: int| 0 <= i < indexes.drop_last().len() && indexes.drop_last()[i]@.0 == Type::Primary
                && indexes.drop_last()[i]@.1 == declared_primary_name(indexes.drop_last())->0;
            assert(indexes[i] == indexes.drop_last()[i]);
        }
        if indexes.last()@.0 == Type::Primary {
            assert(indexes[indexes.len() - 1]@.0 == Type::Primary);
        }
    }
}

/// The number of times `name` occurs in `names`.
pub open spec fn occurrences(names: Seq<Seq<char>>, name: Seq<char>) -> nat
    decreases names.len(),
{
    if names.len() == 0 {
        0
    } else {
        occurrences(names.drop_last(), name) + if names.last() == name {
            1nat
        } else {
            0nat
        }
    }
}

/// The names of the cached properties among `properties` that depend on the field `field`,
/// in order, each once for each time it lists the field.
pub open spec fn dependents(properties: Seq<Property>, field: Seq<char>) -> Seq<Seq<char>>
    decreases properties.len(),
{
    if properties.len() == 0 {
        Seq::empty()
    } else {
        let p = properties.last();
        dependents(properties.drop_last(), field) + if p.cached {
            Seq::new(occurrences(strings_view(p.dependencies@), field), |_i: int| p.name@)
        } else {
            Seq::empty()
        }
    }
}

/// Collects what the decorators of a model declare, then builds the model.
#[derive(Debug)]
pub struct Builder {
    pub path: Vec<String>,
    pub namespace_path: Vec<String>,
    pub parser_path: Vec<usize>,
    pub table_name: String,
    pub actions: Vec<Action>,
    pub generate_client: bool,
    pub generate_entity: bool,
    pub show_in_studio: bool,
    pub synthesize_shapes: bool,
    pub fields: IndexMap<String, Field>,
    pub relations: IndexMap<String, Relation>,
    pub properties: IndexMap<String, Property>,
    pub indexes: IndexMap<String, Index>,
    pub primary_index: String,
    pub before_save: Pipeline,
    pub after_save: Pipeline,
    pub before_delete: Pipeline,
    pub after_delete: Pipeline,
    pub can_read: Pipeline,
    pub can_mutate: Pipeline,
    pub migration: Migration,
    pub data: NameMap<Value>,
}

impl Builder {
    /// A builder for the model at `path`: its table is named by `spec_table_name`, its
    /// namespace is the path without its last name, and nothing is declared yet.
    pub fn new(path: Vec<String>, parser_path: Vec<usize>) -> (r: Self)
        requires
            path@.len() >= 1,
        ensures
            r.path == path,
            r.parser_path == parser_path,
            strings_view(r.namespace_path@) == strings_view(path@).drop_last(),
            r.table_name@ == spec_table_name(strings_view(path@)),
            r.generate_client,
            r.generate_entity,
            r.show_in_studio,
            r.synthesize_shapes,
            field_map_entries(r.fields).len() == 0,
            relation_map_entries(r.relations).len() == 0,
            property_map_entries(r.properties).len() == 0,
            index_map_entries(r.indexes).len() == 0,
            r.primary_index@.len() == 0,
            r.actions@.len() == 0,
            r.migration.renamed is None,
            r.migration.version is None,
            !r.migration.drop,
            r.data@ == Map::<Seq<char>, Value>::empty(),
    {
        let n = path.len();
        proof {
            reveal_strlit("_");
            reveal_strlit("__");
            assert("_"@ =~= seq!['_']);
            assert("__"@ =~= seq!['_', '_']);
        }
        let mut table_name = join_prefix(&path, n - 1, "_");
        assert(strings_view(path@).take(n - 1) =~= strings_view(path@).drop_last());
        if !table_name.as_str().is_empty() {
            table_name.append("__");
        }
        table_name.append(path[n - 1].as_str());
        assert(strings_view(path@).last() == path@[n - 1]@);
        assert(table_name@ =~= spec_table_name(strings_view(path@)));
        let namespace_path = clone_prefix(&path, n - 1);
        Builder {
            path,
            namespace_path,
            parser_path,
            table_name,
            actions: Vec::new(),
            generate_client: true,
            generate_entity: true,
            show_in_studio: true,
            synthesize_shapes: true,
            fields: field_map_new(),
            relations: relation_map_new(),
            properties: property_map_new(),
            indexes: index_map_new(),
            primary_index: String::new(),
            before_save: Pipeline::new(),
            after_save: Pipeline::new(),
            before_delete: Pipeline::new(),
            after_delete: Pipeline::new(),
            can_read: Pipeline::new(),
            can_mutate: Pipeline::new(),
            migration: Migration::default(),
            data: NameMap::new(),
        }
    }

    /// The data attached to the model.
    pub fn data(&self) -> (r: &NameMap<Value>)
        ensures
            *r == self.data,
    {
        &self.data
    }

    /// Attaches `value` under `key`, replacing what was attached there.
    pub fn insert_data_entry(&mut self, key: String, value: Value)
        ensures
            final(self).data@ == old(self).data@.insert(key@, value),
            *final(self) == (Builder { data: final(self).data, ..*old(self) }),
    {
        self.data.insert(key, value);
    }

    /// Removes what is attached under `key`.
    pub fn remove_data_entry(&mut self, key: &str)
        ensures
            final(self).data@ == old(self).data@.remove(key@),
            *final(self) == (Builder { data: final(self).data, ..*old(self) }),
    {
        self.data.remove(key);
    }

    /// Replaces the data attached to the model.
    pub fn set_data(&mut self, data: NameMap<Value>)
        ensures
            *final(self) == (Builder { data, ..*old(self) }),
    {
        self.data = data;
    }

    /// What is attached under `key`, if anything.
    pub fn data_entry(&self, key: &str) -> (r: Option<&Value>)
        ensures
            r == (if self.data@.contains_key(key@) { Some(&self.data@[key@]) } else { None }),
    {
        self.data.get(key)
    }

    /// The builtin handlers the model offers: all of them.
    fn figure_out_builtin_handlers(&self) -> (r: Vec<Action>)
        ensures
            r@ == spec_builtin_handlers(),
    {
        let mut result: Vec<Action> = Vec::new();
        let all = Action::builtin_handlers();
        let mut i: usize = 0;
        while i < all.len()
            invariant
                all@ == spec_builtin_handlers(),
                i <= all@.len(),
                result@ == all@.take(i as int),
            decreases all@.len() - i,
        {
            result.push(all[i]);
            assert(result@ =~= all@.take(i + 1));
            i = i + 1;
        }
        assert(all@.take(all@.len() as int) =~= all@);
        result
    }

    /// The model index made of the index that `indexable` declares, if it declares one: it
    /// is named after `indexable` and has one item that carries the declared index's name,
    /// direction and length.
    pub fn collect_field_index<I: Indexable>(&self, indexable: &I) -> (r: Option<Index>)
        ensures
            match indexable.spec_index() {
                Some(fi) => r is Some && r->0@ == field_index_view(indexable.spec_name(), fi),
                None => r is None,
            },
    {
        match indexable.index() {
            Some(field_index) => {
                let name = indexable.name();
                let item = Item::new(field_index.name.clone(), field_index.sort(), field_index.length());
                let mut items: Vec<Item> = Vec::new();
                items.push(item);
                let index = Index::new(field_index.kind(), name.to_owned(), items);
                assert(index@.2 =~= seq![Item { field: field_index.name, sort: field_index.sort, len: field_index.length }]);
                Some(index)
            },
            None => None,
        }
    }
}

/// The name of the last primary index of `indexes`, or an empty string when there is none.
fn declared_primary(indexes: &IndexMap<String, Index>) -> (r: String)
    ensures
        r@ == (match declared_primary_name(entries_values(index_map_entries(*indexes))) {
            Some(n) => n,
            None => Seq::<char>::empty(),
        }),
{
    let ghost xs = entries_values(index_map_entries(*indexes));
    let n = index_map_len(indexes);
    let mut name = String::new();
    let mut i: usize = 0;
    while i < n
        invariant
            n == index_map_entries(*indexes).len(),
            xs == entries_values(index_map_entries(*indexes)),
            i <= n,
            name@ == (match declared_primary_name(xs.take(i as int)) {
                Some(n) => n,
                None => Seq::<char>::empty(),
            }),
        decreases n - i,
    {
        let idx = index_map_get_index(indexes, i).unwrap().1;
        assert(xs.take(i + 1).drop_last() =~= xs.take(i as int));
        assert(xs.take(i + 1).last() == *idx);
        if idx.kind().is_primary() {
            name = idx.name().to_owned();
        }
        i = i + 1;
    }
    assert(xs.len() == n);
    assert(xs.take(n as int) =~= xs);
    name
}

/// The views of a list of indexes.
pub open spec fn index_views(indexes: Seq<Index>) -> Seq<IndexView> {
    indexes.map_values(|i: Index| i@)
}

/// Taking the indexes by their views commutes with `IndexMap::insert`.
proof fn lemma_view_insert(entries: Seq<(Seq<char>, Index)>, key: Seq<char>, value: Index)
    ensures
        index_entries_view(entries_insert(entries, key, value))
            == entries_insert(index_entries_view(entries), key, value@),
{
    let vs = index_entries_view(entries);
    assert(vs.len() == entries.len());
    assert forall|i: int| 0 <= i < entries.len() implies #[trigger] entries[i].0 == vs[i].0 by {}
    lemma_entries_find_same_keys(entries, vs, key);
    lemma_entries_find(entries, key);
    assert(index_entries_view(entries_insert(entries, key, value))
        =~= entries_insert(index_entries_view(entries), key, value@));
}

/// The model indexes that the fields of `fields` declare, in order.
fn field_declared_indexes(builder: &Builder, fields: &IndexMap<String, Field>) -> (r: Vec<Index>)
    ensures
        index_views(r@) == field_index_views(entries_values(field_map_entries(*fields))),
{
    let ghost xs = entries_values(field_map_entries(*fields));
    let n = field_map_len(fields);
    let mut r: Vec<Index> = Vec::new();
    let mut i: usize = 0;
    while i < n
        invariant
            n == field_map_entries(*fields).len(),
            xs == entries_values(field_map_entries(*fields)),
            i <= n,
            index_views(r@) == field_index_views(xs.take(i as int)),
        decreases n - i,
    {
        let f = field_map_get_index(fields, i).unwrap().1;
        assert(xs.take(i + 1).drop_last() =~= xs.take(i as int));
        assert(xs.take(i + 1).last() == *f);
        let ghost old_r = r@;
        match builder.collect_field_index(f) {
            Some(index) => {
                r.push(index);
                assert(index_views(r@) =~= index_views(old_r) + seq![index@]);
            },
            None => {
                assert(index_views(r@) =~= index_views(old_r) + Seq::<IndexView>::empty());
            },
        }
        i = i + 1;
    }
    assert(xs.len() == n);
    assert(xs.take(n as int) =~= xs);
    r
}

/// The model indexes that the properties of `properties` declare, in order.
fn property_declared_indexes(builder: &Builder, properties: &IndexMap<String, Property>) -> (r: Vec<Index>)
    ensures
        index_views(r@) == property_index_views(entries_values(property_map_entries(*properties))),
{
    let ghost xs = entries_values(property_map_entries(*properties));
    let n = property_map_len(properties);
    let mut r: Vec<Index> = Vec::new();
    let mut i: usize = 0;
    while i < n
        invariant
            n == property_map_entries(*properties).len(),
            xs == entries_values(property_map_entries(*properties)),
            i <= n,
            index_views(r@) == property_index_views(xs.take(i as int)),
        decreases n - i,
    {
        let p = property_map_get_index(properties, i).unwrap().1;
        assert(xs.take(i + 1).drop_last() =~= xs.take(i as int));
        assert(xs.take(i + 1).last() == *p);
        let ghost old_r = r@;
        match builder.collect_field_index(p) {
            Some(index) => {
                r.push(index);
                assert(index_views(r@) =~= index_views(old_r) + seq![index@]);
            },
            None => {
                assert(index_views(r@) =~= index_views(old_r) + Seq::<IndexView>::empty());
            },
        }
        i = i + 1;
    }
    assert(xs.len() == n);
    assert(xs.take(n as int) =~= xs);
    r
}

/// Inserts each of `list`, in order, into `indexes` under its own name; `primary` becomes the
/// name of the last primary index of `list`, if it has one.
fn insert_indexes(indexes: &mut IndexMap<String, Index>, primary: &mut String, list: Vec<Index>)
    ensures
        index_entries_view(index_map_entries(*final(indexes)))
            == insert_index_views(index_entries_view(index_map_entries(*old(indexes))), index_views(list@)),
        final(primary)@ == (match last_primary_view(index_views(list@)) {
            Some(n) => n,
            None => old(primary)@,
        }),
{
    let ghost views = index_views(list@);
    let ghost e0 = index_entries_view(index_map_entries(*indexes));
    let ghost p0 = primary@;
    let mut list = list;
    let n = list.len();
    let mut j: usize = 0;
    while j < n
        invariant
            n == views.len(),
            j <= n,
            index_views(list@) == views.skip(j as int),
            index_entries_view(index_map_entries(*indexes)) == insert_index_views(e0, views.take(j as int)),
            primary@ == (match last_primary_view(views.take(j as int)) {
                Some(n) => n,
                None => p0,
            }),
        decreases n - j,
    {
        assert(index_views(list@).len() == n - j);
        let ghost old_list = list@;
        let index = list.remove(0);
        assert(index_views(old_list)[0] == old_list[0]@);
        assert(views.skip(j as int)[0] == views[j as int]);
        assert(index@ == views[j as int]);
        assert forall|k: int| 0 <= k < list@.len() implies #[trigger] index_views(list@)[k] == views.skip(j + 1)[k] by {
            assert(list@[k] == old_list[k + 1]);
            assert(index_views(old_list)[k + 1] == views.skip(j as int)[k + 1]);
        }
        assert(index_views(list@) =~= views.skip(j + 1));
        assert(views.take(j + 1).drop_last() =~= views.take(j as int));
        assert(views.take(j + 1).last() == views[j as int]);
        if index.kind().is_primary() {
            *primary = index.name().to_owned();
        }
        let name = index.name().to_owned();
        proof {
            lemma_view_insert(index_map_entries(*indexes), name@, index);
        }
        index_map_insert(indexes, name, index);
        j = j + 1;
    }
    assert(views.take(n as int) =~= views);
}

/// The set of fields that a list of index items covers.
fn item_field_set(items: &Vec<Item>) -> (r: NameMap<()>)
    ensures
        r@.dom() == item_fields(items@).to_set(),
{
    let ghost fs = item_fields(items@);
    let mut r: NameMap<()> = NameMap::new();
    let mut j: usize = 0;
    while j < items.len()
        invariant
            j <= items.len(),
            fs == item_fields(items@),
            r@.dom() == fs.take(j as int).to_set(),
        decreases items.len() - j,
    {
        let ghost before = r@;
        let key = items[j].field.clone();
        r.insert(key, ());
        proof {
            assert(fs[j as int] == key@);
            assert(fs.take(j + 1) =~= fs.take(j as int).push(key@));
            assert forall|k: Seq<char>| #[trigger] fs.take(j + 1).to_set().contains(k) <==> fs.take(j as int).to_set().insert(key@).contains(k) by {
                if fs.take(j + 1).contains(k) {
                    let x = choose|x: int| 0 <= x < j + 1 && #[trigger] fs.take(j + 1)[x] == k;
                    if x < j {
                        assert(fs.take(j as int)[x] == k);
                    }
                }
                if fs.take(j as int).contains(k) {
                    let x = choose|x: int| 0 <= x < j && #[trigger] fs.take(j as int)[x] == k;
                    assert(fs.take(j + 1)[x] == k);
                }
                if k == key@ {
                    assert(fs.take(j + 1)[j as int] == k);
                }
            }
            assert(r@.dom() =~= fs.take(j + 1).to_set());
        }
        j = j + 1;
    }
    assert(fs.take(items.len() as int) =~= fs);
    r
}

/// For each index of `indexes`, in order, the set of fields it covers.
fn unique_query_keys(indexes: &IndexMap<String, Index>) -> (r: Vec<NameMap<()>>)
    ensures
        r@.len() == index_map_entries(*indexes).len(),
        forall|i: int| 0 <= i < r@.len() ==> (#[trigger] r@[i])@.dom()
            == item_fields(entries_values(index_map_entries(*indexes))[i]@.2).to_set(),
{
    let ghost xs = entries_values(index_map_entries(*indexes));
    let n = index_map_len(indexes);
    let mut r: Vec<NameMap<()>> = Vec::new();
    let mut i: usize = 0;
    while i < n
        invariant
            n == index_map_entries(*indexes).len(),
            xs == entries_values(index_map_entries(*indexes)),
            i <= n,
            r@.len() == i,
            forall|k: int| 0 <= k < i ==> (#[trigger] r@[k])@.dom() == item_fields(xs[k]@.2).to_set(),
        decreases n - i,
    {
        let index = index_map_get_index(indexes, i).unwrap().1;
        assert(xs[i as int] == *index);
        let set = item_field_set(index.items());
        r.push(set);
        i = i + 1;
    }
    r
}

/// What `field_property_map` maps `field` to once the properties before position `i` are
/// done and `j` dependencies of property `name` with dependencies `deps` are.
pub open spec fn pending_dependents(
    done: Seq<Property>,
    name: Seq<char>,
    deps: Seq<Seq<char>>,
    j: int,
    field: Seq<char>,
) -> Seq<Seq<char>> {
    dependents(done, field) + Seq::new(occurrences(deps.take(j), field), |_i: int| name)
}

/// For each field that cached properties depend on, the names of those properties.
fn field_property_map(properties: &IndexMap<String, Property>) -> (r: NameMap<Vec<String>>)
    ensures
        forall|f: Seq<char>| #[trigger] r@.contains_key(f)
            <==> dependents(entries_values(property_map_entries(*properties)), f).len() > 0,
        forall|f: Seq<char>| #[trigger] r@.contains_key(f)
            ==> strings_view(r@[f]@) == dependents(entries_values(property_map_entries(*properties)), f),
{
    let ghost xs = entries_values(property_map_entries(*properties));
    let n = property_map_len(properties);
    let mut map: NameMap<Vec<String>> = NameMap::new();
    let mut i: usize = 0;
    while i < n
        invariant
            n == property_map_entries(*properties).len(),
            xs == entries_values(property_map_entries(*properties)),
            i <= n,
            forall|f: Seq<char>| #[trigger] map@.contains_key(f) <==> dependents(xs.take(i as int), f).len() > 0,
            forall|f: Seq<char>| #[trigger] map@.contains_key(f) ==> strings_view(map@[f]@) == dependents(xs.take(i as int), f),
        decreases n - i,
    {
        let p = property_map_get_index(properties, i).unwrap().1;
        assert(xs.take(i + 1).drop_last() =~= xs.take(i as int));
        assert(xs.take(i + 1).last() == *p);
        let ghost done = xs.take(i as int);
        let ghost deps = strings_view(p.dependencies@);
        if p.cached() {
            let mut j: usize = 0;
            assert forall|f: Seq<char>| #[trigger] pending_dependents(done, p.name@, deps, 0, f) == dependents(done, f) by {
                assert(deps.take(0) =~= Seq::<Seq<char>>::empty());
                assert(pending_dependents(done, p.name@, deps, 0, f) =~= dependents(done, f));
            }
            while j < p.dependencies.len()
                invariant
                    j <= p.dependencies@.len(),
                    deps == strings_view(p.dependencies@),
                    forall|f: Seq<char>| #[trigger] map@.contains_key(f)
                        <==> pending_dependents(done, p.name@, deps, j as int, f).len() > 0,
                    forall|f: Seq<char>| #[trigger] map@.contains_key(f)
                        ==> strings_view(map@[f]@) == pending_dependents(done, p.name@, deps, j as int, f),
                decreases p.dependencies.len() - j,
            {
                let dep = &p.dependencies[j];
                assert(deps[j as int] == dep@);
                assert(deps.take(j + 1).drop_last() =~= deps.take(j as int));
                assert(deps.take(j + 1).last() == dep@);
                let mut list = match map.get(dep.as_str()) {
                    Some(v) => crate::utils::clone_strings(v),
                    None => Vec::new(),
                };
                let ghost before = strings_view(list@);
                list.push(p.name.clone());
                assert(strings_view(list@) =~= before.push(p.name@));
                let ghost old_map = map@;
                map.insert(dep.clone(), list);
                proof {
                    assert forall|f: Seq<char>| #[trigger] map@.contains_key(f)
                        <==> pending_dependents(done, p.name@, deps, j + 1, f).len() > 0 by {
                        if f != dep@ {
                            assert(occurrences(deps.take(j + 1), f) == occurrences(deps.take(j as int), f));
                        } else {
                            assert(occurrences(deps.take(j + 1), f) == occurrences(deps.take(j as int), f) + 1);
                        }
                    }
                    assert forall|f: Seq<char>| #[trigger] map@.contains_key(f)
                        implies strings_view(map@[f]@) == pending_dependents(done, p.name@, deps, j + 1, f) by {
                        if f != dep@ {
                            assert(occurrences(deps.take(j + 1), f) == occurrences(deps.take(j as int), f));
                            assert(pending_dependents(done, p.name@, deps, j + 1, f)
                                =~= pending_dependents(done, p.name@, deps, j as int, f));
                        } else {
                            let k = occurrences(deps.take(j as int), f);
                            assert(occurrences(deps.take(j + 1), f) == k + 1);
                            if !old_map.contains_key(f) {
                                assert(pending_dependents(done, p.name@, deps, j as int, f).len() == 0);
                                assert(before =~= Seq::<Seq<char>>::empty());
                            }
                            assert(pending_dependents(done, p.name@, deps, j + 1, f)
                                =~= pending_dependents(done, p.name@, deps, j as int, f).push(p.name@));
                        }
                    }
                }
                j = j + 1;
            }
            proof {
                assert(deps.take(p.dependencies@.len() as int) =~= deps);
                assert forall|f: Seq<char>| #[trigger] dependents(xs.take(i + 1), f)
                    == pending_dependents(done, p.name@, deps, p.dependencies@.len() as int, f) by {
                    assert(dependents(xs.take(i + 1), f) =~= pending_dependents(done, p.name@, deps, p.dependencies@.len() as int, f));
                }
            }
        } else {
            proof {
                assert forall|f: Seq<char>| #[trigger] dependents(xs.take(i + 1), f) == dependents(done, f) by {
                    assert(dependents(xs.take(i + 1), f) =~= dependents(done, f));
                }
            }
        }
        i = i + 1;
    }
    assert(xs.len() == n);
    assert(xs.take(n as int) =~= xs);
    map
}

/// The key lists and maps that a model with these fields, relations, properties and indexes
/// derives from them.
pub open spec fn cache_derived_from(
    cache: Cache,
    fields: Seq<Field>,
    relations: Seq<Relation>,
    properties: Seq<Property>,
    indexes: Seq<Index>,
) -> bool {
    &&& strings_view(cache.all_keys@) == field_keys(fields, FieldKeys::All) + relation_keys(relations, RelationKeys::All)
        + property_keys(properties, PropertyKeys::All)
    &&& strings_view(cache.input_keys@) == field_keys(fields, FieldKeys::Input) + relation_keys(relations, RelationKeys::All)
        + property_keys(properties, PropertyKeys::Input)
    &&& strings_view(cache.save_keys@) == field_keys(fields, FieldKeys::Save) + property_keys(properties, PropertyKeys::Save)
    &&& strings_view(cache.save_keys_and_virtual_keys@) == field_keys(fields, FieldKeys::All)
        + property_keys(properties, PropertyKeys::Save)
    &&& strings_view(cache.output_keys@) == field_keys(fields, FieldKeys::Output) + relation_keys(relations, RelationKeys::All)
        + property_keys(properties, PropertyKeys::Output)
    &&& strings_view(cache.query_keys@) == field_keys(fields, FieldKeys::Query) + relation_keys(relations, RelationKeys::All)
    &&& cache.unique_query_keys@.len() == indexes.len()
    &&& forall|i: int| 0 <= i < indexes.len() ==> (#[trigger] cache.unique_query_keys@[i])@.dom()
        == item_fields(indexes[i]@.2).to_set()
    &&& strings_view(cache.sort_keys@) == field_keys(fields, FieldKeys::Sort)
    &&& strings_view(cache.auto_keys@) == field_keys(fields, FieldKeys::Auto)
    &&& strings_view(cache.deny_relation_keys@) == relation_keys(relations, RelationKeys::Deny)
    &&& strings_view(cache.scalar_keys@) == field_keys(fields, FieldKeys::All)
    &&& strings_view(cache.scalar_number_keys@) == field_keys(fields, FieldKeys::Number)
    &&& strings_view(cache.local_output_keys@) == field_keys(fields, FieldKeys::Output)
        + property_keys(properties, PropertyKeys::Output)
    &&& strings_view(cache.relation_output_keys@) == relation_keys(relations, RelationKeys::All)
    &&& forall|f: Seq<char>| #[trigger] cache.field_property_map@.contains_key(f) <==> dependents(properties, f).len() > 0
    &&& forall|f: Seq<char>| #[trigger] cache.field_property_map@.contains_key(f)
        ==> strings_view(cache.field_property_map@[f]@) == dependents(properties, f)
    &&& !cache.has_virtual_fields
}

/// A property's key that the save list takes is among all the property keys.
pub proof fn lemma_property_save_keys_among_all(xs: Seq<Property>, k: Seq<char>)
    requires
        property_keys(xs, PropertyKeys::Save).contains(k),
    ensures
        property_keys(xs, PropertyKeys::All).contains(k),
    decreases xs.len(),
{
    if xs.len() > 0 {
        let rest_save = property_keys(xs.drop_last(), PropertyKeys::Save);
        let rest_all = property_keys(xs.drop_last(), PropertyKeys::All);
        let j = choose|j: int| 0 <= j < property_keys(xs, PropertyKeys::Save).len()
            && property_keys(xs, PropertyKeys::Save)[j] == k;
        if j < rest_save.len() {
            assert(rest_save[j] == k);
            lemma_property_save_keys_among_all(xs.drop_last(), k);
            let i = choose|i: int| 0 <= i < rest_all.len() && rest_all[i] == k;
            assert(property_keys(xs, PropertyKeys::All)[i] == k);
        } else {
            assert(k == xs.last().name@);
            assert(property_keys(xs, PropertyKeys::All)[rest_all.len() as int] == k);
        }
    }
}

/// In a cache derived from a model's declarations, the keys at which values are saved or
/// held are among all the keys.
pub proof fn lemma_derived_keys_consistent(
    cache: Cache,
    fields: Seq<Field>,
    relations: Seq<Relation>,
    properties: Seq<Property>,
    indexes: Seq<Index>,
)
    requires
        cache_derived_from(cache, fields, relations, properties, indexes),
    ensures
        forall|k: Seq<char>| #[trigger] strings_view(cache.save_keys_and_virtual_keys@).contains(k)
            ==> strings_view(cache.all_keys@).contains(k),
{
    let fa = field_keys(fields, FieldKeys::All);
    let ra = relation_keys(relations, RelationKeys::All);
    let pa = property_keys(properties, PropertyKeys::All);
    let ps = property_keys(properties, PropertyKeys::Save);
    assert forall|k: Seq<char>| #[trigger] strings_view(cache.save_keys_and_virtual_keys@).contains(k)
        implies strings_view(cache.all_keys@).contains(k) by {
        let sv = fa + ps;
        let i = choose|i: int| 0 <= i < sv.len() && sv[i] == k;
        if i < fa.len() {
            assert((fa + ra + pa)[i] == k);
        } else {
            assert(ps[i - fa.len()] == k);
            lemma_property_save_keys_among_all(properties, k);
            let j = choose|j: int| 0 <= j < pa.len() && pa[j] == k;
            assert((fa + ra + pa)[fa.len() + ra.len() + j] == k);
        }
    }
}

/// The names of the relations whose delete rule is to deny deletion, in declaration order.
pub open spec fn denying_relation_names(relations: Seq<Relation>) -> Seq<Seq<char>> {
    relations.filter_map(|r: Relation| if r.delete == Delete::Deny { Some(r.name@) } else { None })
}

/// The relations that the deny key list takes are those that deny deletion.
proof fn lemma_deny_keys(relations: Seq<Relation>)
    ensures
        relation_keys(relations, RelationKeys::Deny) == denying_relation_names(relations),
    decreases relations.len(),
{
    if relations.len() > 0 {
        lemma_deny_keys(relations.drop_last());
        let f = |r: Relation| if r.delete == Delete::Deny { Some(r.name@) } else { None };
        assert(relations.filter_map(f) == (match f(relations.last()) {
            Some(s) => relations.drop_last().filter_map(f) + seq![s],
            None => relations.drop_last().filter_map(f),
        }));
        if relations.last().delete != Delete::Deny {
            assert(relation_keys(relations, RelationKeys::Deny) =~= relation_keys(relations.drop_last(), RelationKeys::Deny));
        }
    }
}

/// For a model whose key lists are derived from its declarations, as `build` derives them,
/// the keys of the relations that deny deletion are the names of exactly those relations
/// whose delete rule is `Deny`, in declaration order: a relation with another rule is never
/// among them.
pub proof fn law_deny_relation_keys(
    cache: Cache,
    fields: Seq<Field>,
    relations: Seq<Relation>,
    properties: Seq<Property>,
    indexes: Seq<Index>,
)
    requires
        cache_derived_from(cache, fields, relations, properties, indexes),
    ensures
        strings_view(cache.deny_relation_keys@) == denying_relation_names(relations),
        forall|i: int| 0 <= i < relations.len() && (#[trigger] relations[i]).delete == Delete::Deny
            ==> strings_view(cache.deny_relation_keys@).contains(relations[i].name@),
        forall|k: Seq<char>| strings_view(cache.deny_relation_keys@).contains(k) ==> exists|i: int|
            0 <= i < relations.len() && (#[trigger] relations[i]).name@ == k && relations[i].delete == Delete::Deny,
{
    lemma_deny_keys(relations);
    lemma_deny_key_members(relations);
}

/// A relation denying deletion has its name among the deny keys, and each deny key names
/// such a relation.
proof fn lemma_deny_key_members(relations: Seq<Relation>)
    ensures
        forall|i: int| 0 <= i < relations.len() && (#[trigger] relations[i]).delete == Delete::Deny
            ==> relation_keys(relations, RelationKeys::Deny).contains(relations[i].name@),
        forall|k: Seq<char>| relation_keys(relations, RelationKeys::Deny).contains(k) ==> exists|i: int|
            0 <= i < relations.len() && (#[trigger] relations[i]).name@ == k && relations[i].delete == Delete::Deny,
    decreases relations.len(),
{
    if relations.len() > 0 {
        let rest = relations.drop_last();
        lemma_deny_key_members(rest);
        let ks = relation_keys(relations, RelationKeys::Deny);
        let rk = relation_keys(rest, RelationKeys::Deny);
        let last = relations.last();
        let tail: Seq<Seq<char>> = if last.delete == Delete::Deny { seq![last.name@] } else { Seq::empty() };
        assert(ks == rk + tail);
        assert forall|i: int| 0 <= i < relations.len() && (#[trigger] relations[i]).delete == Delete::Deny
            implies ks.contains(relations[i].name@) by {
            if i < relations.len() - 1 {
                assert(rest[i] == relations[i]);
                let j = choose|j: int| 0 <= j < rk.len() && rk[j] == relations[i].name@;
                assert(ks[j] == rk[j]);
            } else {
                assert(ks[rk.len() as int] == last.name@);
            }
        }
        assert forall|k: Seq<char>| ks.contains(k) implies exists|i: int|
            0 <= i < relations.len() && (#[trigger] relations[i]).name@ == k && relations[i].delete == Delete::Deny by {
            let j = choose|j: int| 0 <= j < ks.len() && ks[j] == k;
            if j < rk.len() {
                assert(rk[j] == k);
                assert(rk.contains(k));
                let i = choose|i: int| 0 <= i < rest.len() && (#[trigger] rest[i]).name@ == k && rest[i].delete == Delete::Deny;
                assert(relations[i] == rest[i]);
            } else {
                assert(relations[relations.len() - 1] == last);
            }
        }
    }
}

/// Building a model fails exactly when no primary index is declared anywhere: not on the
/// builder, not among its indexes, and not by any of its fields or properties (where the
/// names of the fields, properties and primary indexes are not empty).
pub proof fn law_build_fails_without_primary(b: Builder)
    requires
        forall|i: int| 0 <= i < b.declared_index_views().len()
            ==> (#[trigger] b.declared_index_views()[i]).1.len() > 0,
        forall|i: int| 0 <= i < entries_values(index_map_entries(b.indexes)).len()
            && (#[trigger] entries_values(index_map_entries(b.indexes))[i])@.0 == Type::Primary
            ==> entries_values(index_map_entries(b.indexes))[i]@.1.len() > 0,
    ensures
        (b.spec_primary().len() == 0) == (b.primary_index@.len() == 0
            && (forall|i: int| 0 <= i < b.declared_index_views().len()
                ==> (#[trigger] b.declared_index_views()[i]).0 != Type::Primary)
            && (forall|i: int| 0 <= i < entries_values(index_map_entries(b.indexes)).len()
                ==> (#[trigger] entries_values(index_map_entries(b.indexes))[i])@.0 != Type::Primary)),
{
    let views = b.declared_index_views();
    let declared = entries_values(index_map_entries(b.indexes));
    lemma_last_primary_view(views);
    lemma_declared_primary_name(declared);
    if last_primary_view(views) is Some {
        let i = choose|i: int| 0 <= i < views.len() && views[i].0 == Type::Primary
            && views[i].1 == last_primary_view(views)->0;
        assert(views[i].1.len() > 0);
    }
    if declared_primary_name(declared) is Some {
        let i = choose|i: int| 0 <= i < declared.len() && declared[i]@.0 == Type::Primary
            && declared[i]@.1 == declared_primary_name(declared)->0;
        assert(declared[i]@.1.len() > 0);
    }
}

impl Builder {
    /// The model indexes that the builder's fields and then its properties declare.
    pub open spec fn declared_index_views(&self) -> Seq<IndexView> {
        field_index_views(entries_values(field_map_entries(self.fields)))
            + property_index_views(entries_values(property_map_entries(self.properties)))
    }

    /// The primary index of the model this builder builds, empty if it has none.
    pub open spec fn spec_primary(&self) -> Seq<char> {
        resolved_primary(
            self.primary_index@,
            entries_values(index_map_entries(self.indexes)),
            self.declared_index_views(),
        )
    }

    /// The model as declared. Every index that a field or property declares is added,
    /// named after it, in order, replacing an index of the same name. The model's primary
    /// index is the one `resolved_primary` gives; without one the build fails. The key lists
    /// are derived as `cache_derived_from` says, over the final indexes, and `shape` is kept.
    pub fn build(self, shape: ModelResolved) -> (r: Result<Model, Error>)
        requires
            self.path@.len() >= 1,
        ensures
            match r {
                Err(e) => e == Error::MissingPrimaryIndex && self.spec_primary().len() == 0,
                Ok(m) => {
                    &&& self.spec_primary().len() > 0
                    &&& m.primary_index@ == self.spec_primary()
                    &&& m.primary_index@.len() > 0
                    &&& index_entries_view(index_map_entries(m.indexes)) == insert_index_views(
                        index_entries_view(index_map_entries(self.indexes)),
                        self.declared_index_views(),
                    )
                    &&& m.path == self.path
                    &&& m.parser_path == self.parser_path
                    &&& strings_view(m.namespace_path@) == strings_view(self.path@).drop_last()
                    &&& m.table_name == self.table_name
                    &&& m.actions == self.actions
                    &&& m.builtin_handlers@ == spec_builtin_handlers()
                    &&& m.generate_client == self.generate_client
                    &&& m.generate_entity == self.generate_entity
                    &&& m.show_in_studio == self.show_in_studio
                    &&& m.synthesize_shapes == self.synthesize_shapes
                    &&& m.fields == self.fields
                    &&& m.relations == self.relations
                    &&& m.properties == self.properties
                    &&& m.before_save == self.before_save
                    &&& m.after_save == self.after_save
                    &&& m.before_delete == self.before_delete
                    &&& m.after_delete == self.after_delete
                    &&& m.can_read == self.can_read
                    &&& m.can_mutate == self.can_mutate
                    &&& m.migration == self.migration
                    &&& m.data == self.data
                    &&& m.keys_consistent()
                    &&& m.cache.shape == shape
                    &&& cache_derived_from(
                        m.cache,
                        m.spec_fields(),
                        m.spec_relations(),
                        m.spec_properties(),
                        m.spec_indexes(),
                    )
                },
            },
    {
        let ghost spec_primary = self.spec_primary();
        let ghost declared_views = self.declared_index_views();
        let ghost e0 = index_entries_view(index_map_entries(self.indexes));
        let mut builder = self;
        // the primary index that the model's own indexes declare
        let declared = declared_primary(&builder.indexes);
        if !declared.as_str().is_empty() {
            builder.primary_index = declared;
        }
        // the indexes that fields and properties declare
        let mut list = field_declared_indexes(&builder, &builder.fields);
        let mut plist = property_declared_indexes(&builder, &builder.properties);
        let ghost l1 = list@;
        let ghost l2 = plist@;
        list.append(&mut plist);
        assert(index_views(list@) =~= index_views(l1) + index_views(l2));
        insert_indexes(&mut builder.indexes, &mut builder.primary_index, list);
        assert(builder.primary_index@ == spec_primary);
        if builder.primary_index.as_str().is_empty() {
            return Err(Error::MissingPrimaryIndex);
        }
        // the key lists
        let field_all = select_field_keys(&builder.fields, FieldKeys::All);
        let relation_all = select_relation_keys(&builder.relations, RelationKeys::All);
        let property_all = select_property_keys(&builder.properties, PropertyKeys::All);
        let all_keys = concat_strings(concat_strings(crate::utils::clone_strings(&field_all), crate::utils::clone_strings(&relation_all)), crate::utils::clone_strings(&property_all));
        let input_keys = concat_strings(
            concat_strings(select_field_keys(&builder.fields, FieldKeys::Input), crate::utils::clone_strings(&relation_all)),
            select_property_keys(&builder.properties, PropertyKeys::Input),
        );
        let property_save = select_property_keys(&builder.properties, PropertyKeys::Save);
        let save_keys = concat_strings(select_field_keys(&builder.fields, FieldKeys::Save), crate::utils::clone_strings(&property_save));
        let save_keys_and_virtual_keys = concat_strings(crate::utils::clone_strings(&field_all), property_save);
        let field_output = select_field_keys(&builder.fields, FieldKeys::Output);
        let property_output = select_property_keys(&builder.properties, PropertyKeys::Output);
        let output_keys = concat_strings(
            concat_strings(crate::utils::clone_strings(&field_output), crate::utils::clone_strings(&relation_all)),
            crate::utils::clone_strings(&property_output),
        );
        let local_output_keys = concat_strings(field_output, property_output);
        let sort_keys = select_field_keys(&builder.fields, FieldKeys::Sort);
        let query_keys = concat_strings(select_field_keys(&builder.fields, FieldKeys::Query), crate::utils::clone_strings(&relation_all));
        let unique = unique_query_keys(&builder.indexes);
        let auto_keys = select_field_keys(&builder.fields, FieldKeys::Auto);
        let deny_relation_keys = select_relation_keys(&builder.relations, RelationKeys::Deny);
        let scalar_number_keys = select_field_keys(&builder.fields, FieldKeys::Number);
        let field_property = field_property_map(&builder.properties);
        let cache = Cache {
            all_keys,
            input_keys,
            save_keys,
            save_keys_and_virtual_keys,
            output_keys,
            query_keys,
            unique_query_keys: unique,
            sort_keys,
            auto_keys,
            deny_relation_keys,
            scalar_keys: field_all,
            scalar_number_keys,
            local_output_keys,
            relation_output_keys: relation_all,
            field_property_map: field_property,
            has_virtual_fields: false,
            shape,
        };
        let builtin_handlers = builder.figure_out_builtin_handlers();
        let n = builder.path.len();
        let namespace_path = clone_prefix(&builder.path, n - 1);
        assert(strings_view(builder.path@).take(n - 1) =~= strings_view(builder.path@).drop_last());
        let m = Model {
            path: builder.path,
            parser_path: builder.parser_path,
            namespace_path,
            table_name: builder.table_name,
            actions: builder.actions,
            generate_client: builder.generate_client,
            generate_entity: builder.generate_entity,
            show_in_studio: builder.show_in_studio,
            synthesize_shapes: builder.synthesize_shapes,
            fields: builder.fields,
            relations: builder.relations,
            properties: builder.properties,
            indexes: builder.indexes,
            primary_index: builder.primary_index,
            before_save: builder.before_save,
            after_save: builder.after_save,
            before_delete: builder.before_delete,
            after_delete: builder.after_delete,
            can_read: builder.can_read,
            can_mutate: builder.can_mutate,
            migration: builder.migration,
            data: builder.data,
            cache,
            builtin_handlers,
        };
        proof {
            assert(cache_derived_from(m.cache, m.spec_fields(), m.spec_relations(), m.spec_properties(), m.spec_indexes()));
            lemma_derived_keys_consistent(m.cache, m.spec_fields(), m.spec_relations(), m.spec_properties(), m.spec_indexes());
        }
        Ok(m)
    }
}

impl Builder {
    /// The path of the model's namespace.
    pub fn namespace_path(&self) -> (r: &Vec<String>)
        ensures
            *r == self.namespace_path,
    {
        &self.namespace_path
    }

    /// The name of the model's table.
    pub fn table_name(&self) -> (r: &str)
        ensures
            r@ == self.table_name@,
    {
        self.table_name.as_str()
    }

    /// Sets the name of the model's table.
    pub fn set_table_name(&mut self, table_name: String)
        ensures
            *final(self) == (Builder { table_name, ..*old(self) }),
    {
        self.table_name = table_name;
    }

    /// The actions the model allows.
    pub fn actions(&self) -> (r: &Vec<Action>)
        ensures
            *r == self.actions,
    {
        &self.actions
    }

    /// Sets the actions the model allows.
    pub fn set_actions(&mut self, actions: Vec<Action>)
        ensures
            *final(self) == (Builder { actions, ..*old(self) }),
    {
        self.actions = actions;
    }

    /// Whether a client is generated for the model.
    pub fn generate_client(&self) -> (r: bool)
        ensures
            r == self.generate_client,
    {
        self.generate_client
    }

    /// Sets whether a client is generated for the model.
    pub fn set_generate_client(&mut self, generate_client: bool)
        ensures
            *final(self) == (Builder { generate_client, ..*old(self) }),
    {
        self.generate_client = generate_client;
    }

    /// Whether an entity is generated for the model.
    pub fn generate_entity(&self) -> (r: bool)
        ensures
            r == self.generate_entity,
    {
        self.generate_entity
    }

    /// Sets whether an entity is generated for the model.
    pub fn set_generate_entity(&mut self, generate_entity: bool)
        ensures
            *final(self) == (Builder { generate_entity, ..*old(self) }),
    {
        self.generate_entity = generate_entity;
    }

    /// Whether the model is shown in the studio.
    pub fn show_in_studio(&self) -> (r: bool)
        ensures
            r == self.show_in_studio,
    {
        self.show_in_studio
    }

    /// Sets whether the model is shown in the studio.
    pub fn set_show_in_studio(&mut self, show_in_studio: bool)
        ensures
            *final(self) == (Builder { show_in_studio, ..*old(self) }),
    {
        self.show_in_studio = show_in_studio;
    }

    /// Whether the model's shapes are synthesized.
    pub fn synthesize_shapes(&self) -> (r: bool)
        ensures
            r == self.synthesize_shapes,
    {
        self.synthesize_shapes
    }

    /// Sets whether the model's shapes are synthesized.
    pub fn set_synthesize_shapes(&mut self, synthesize_shapes: bool)
        ensures
            *final(self) == (Builder { synthesize_shapes, ..*old(self) }),
    {
        self.synthesize_shapes = synthesize_shapes;
    }

    /// Adds the field `field` under `name`; a field already under that name keeps its place and is
    /// replaced.
    pub fn insert_field(&mut self, name: String, field: Field)
        ensures
            field_map_entries(final(self).fields) == entries_insert(field_map_entries(old(self).fields), name@, field),
            *final(self) == (Builder { fields: final(self).fields, ..*old(self) }),
    {
        field_map_insert(&mut self.fields, name, field);
    }

    /// The fields declared so far.
    pub fn fields(&self) -> (r: &IndexMap<String, Field>)
        ensures
            *r == self.fields,
    {
        &self.fields
    }

    /// Replaces the fields declared so far.
    pub fn set_fields(&mut self, fields: IndexMap<String, Field>)
        ensures
            *final(self) == (Builder { fields, ..*old(self) }),
    {
        self.fields = fields;
    }

    /// Adds the relation `relation` under `name`; a relation already under that name keeps its place and is
    /// replaced.
    pub fn insert_relation(&mut self, name: String, relation: Relation)
        ensures
            relation_map_entries(final(self).relations) == entries_insert(relation_map_entries(old(self).relations), name@, relation),
            *final(self) == (Builder { relations: final(self).relations, ..*old(self) }),
    {
        relation_map_insert(&mut self.relations, name, relation);
    }

    /// The relations declared so far.
    pub fn relations(&self) -> (r: &IndexMap<String, Relation>)
        ensures
            *r == self.relations,
    {
        &self.relations
    }

    /// Replaces the relations declared so far.
    pub fn set_relations(&mut self, relations: IndexMap<String, Relation>)
        ensures
            *final(self) == (Builder { relations, ..*old(self) }),
    {
        self.relations = relations;
    }

    /// Adds the property `property` under `name`; a property already under that name keeps its place and is
    /// replaced.
    pub fn insert_property(&mut self, name: String, property: Property)
        ensures
            property_map_entries(final(self).properties) == entries_insert(property_map_entries(old(self).properties), name@, property),
            *final(self) == (Builder { properties: final(self).properties, ..*old(self) }),
    {
        property_map_insert(&mut self.properties, name, property);
    }

    /// The properties declared so far.
    pub fn properties(&self) -> (r: &IndexMap<String, Property>)
        ensures
            *r == self.properties,
    {
        &self.properties
    }

    /// Replaces the properties declared so far.
    pub fn set_properties(&mut self, properties: IndexMap<String, Property>)
        ensures
            *final(self) == (Builder { properties, ..*old(self) }),
    {
        self.properties = properties;
    }

    /// Adds the index `index` under `name`; a index already under that name keeps its place and is
    /// replaced.
    pub fn insert_index(&mut self, name: String, index: Index)
        ensures
            index_map_entries(final(self).indexes) == entries_insert(index_map_entries(old(self).indexes), name@, index),
            *final(self) == (Builder { indexes: final(self).indexes, ..*old(self) }),
    {
        index_map_insert(&mut self.indexes, name, index);
    }

    /// The indexes declared so far.
    pub fn indexes(&self) -> (r: &IndexMap<String, Index>)
        ensures
            *r == self.indexes,
    {
        &self.indexes
    }

    /// Replaces the indexes declared so far.
    pub fn set_indexes(&mut self, indexes: IndexMap<String, Index>)
        ensures
            *final(self) == (Builder { indexes, ..*old(self) }),
    {
        self.indexes = indexes;
    }

    /// The name of the primary index declared so far.
    pub fn primary_index(&self) -> (r: &str)
        ensures
            r@ == self.primary_index@,
    {
        self.primary_index.as_str()
    }

    /// Declares the name of the primary index.
    pub fn set_primary_index(&mut self, primary_index: String)
        ensures
            *final(self) == (Builder { primary_index, ..*old(self) }),
    {
        self.primary_index = primary_index;
    }

    /// The pipeline run before a record is saved.
    pub fn before_save(&self) -> (r: &Pipeline)
        ensures
            *r == self.before_save,
    {
        &self.before_save
    }

    /// Sets the pipeline run before a record is saved.
    pub fn set_before_save(&mut self, before_save: Pipeline)
        ensures
            *final(self) == (Builder { before_save, ..*old(self) }),
    {
        self.before_save = before_save;
    }

    /// The pipeline run after a record is saved.
    pub fn after_save(&self) -> (r: &Pipeline)
        ensures
            *r == self.after_save,
    {
        &self.after_save
    }

    /// Sets the pipeline run after a record is saved.
    pub fn set_after_save(&mut self, after_save: Pipeline)
        ensures
            *final(self) == (Builder { after_save, ..*old(self) }),
    {
        self.after_save = after_save;
    }

    /// The pipeline run before a record is deleted.
    pub fn before_delete(&self) -> (r: &Pipeline)
        ensures
            *r == self.before_delete,
    {
        &self.before_delete
    }

    /// Sets the pipeline run before a record is deleted.
    pub fn set_before_delete(&mut self, before_delete: Pipeline)
        ensures
            *final(self) == (Builder { before_delete, ..*old(self) }),
    {
        self.before_delete = before_delete;
    }

    /// The pipeline run after a record is deleted.
    pub fn after_delete(&self) -> (r: &Pipeline)
        ensures
            *r == self.after_delete,
    {
        &self.after_delete
    }

    /// Sets the pipeline run after a record is deleted.
    pub fn set_after_delete(&mut self, after_delete: Pipeline)
        ensures
            *final(self) == (Builder { after_delete, ..*old(self) }),
    {
        self.after_delete = after_delete;
    }

    /// The pipeline that decides whether a record may be read.
    pub fn can_read(&self) -> (r: &Pipeline)
        ensures
            *r == self.can_read,
    {
        &self.can_read
    }

    /// Sets the pipeline that decides whether a record may be read.
    pub fn set_can_read(&mut self, can_read: Pipeline)
        ensures
            *final(self) == (Builder { can_read, ..*old(self) }),
    {
        self.can_read = can_read;
    }

    /// The pipeline that decides whether a record may be changed.
    pub fn can_mutate(&self) -> (r: &Pipeline)
        ensures
            *r == self.can_mutate,
    {
        &self.can_mutate
    }

    /// Sets the pipeline that decides whether a record may be changed.
    pub fn set_can_mutate(&mut self, can_mutate: Pipeline)
        ensures
            *final(self) == (Builder { can_mutate, ..*old(self) }),
    {
        self.can_mutate = can_mutate;
    }

    /// How the model is carried over from an earlier schema.
    pub fn migration(&self) -> (r: &Migration)
        ensures
            *r == self.migration,
    {
        &self.migration
    }

    /// Sets how the model is carried over from an earlier schema.
    pub fn set_migration(&mut self, migration: Migration)
        ensures
            *final(self) == (Builder { migration, ..*old(self) }),
    {
        self.migration = migration;
    }
}

} // verus!
