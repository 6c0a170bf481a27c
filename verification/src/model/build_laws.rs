use vstd::prelude::*;
use crate::model::builder::{IndexView, declared_primary_name, insert_index_views, last_primary_view, resolved_primary};
use crate::model::index::{Index, Type};
use crate::model::maps::entries_get;
use crate::model::object::fetch::{inserted_all, lemma_inserted_all_last, lemma_inserted_all_untouched};
use crate::model::relation::builder::{default_delete, default_update};
use crate::model::relation::delete::Delete;
use crate::model::relation::update::Update;
use crate::type_info::TypeInfo;
use crate::model::field::builder::copies;
use crate::model::field::Index as FieldIndex;
use crate::model::relation::builder::spec_has_foreign_key;
use crate::model::field::Field;

verus! {

/// The last primary index among `views`: the name of a primary one with none after it, or
/// none where none is primary.
proof fn lemma_last_primary_is_last(views: Seq<IndexView>)
    ensures
        last_primary_view(views) matches Some(n) ==> exists|i: int| {
            &&& 0 <= i < views.len()
            &&& views[i].0 == Type::Primary
            &&& views[i].1 == n
            &&& forall|j: int| i < j < views.len() ==> (#[trigger] views[j]).0 != Type::Primary
        },
        last_primary_view(views) is None ==> forall|j: int| 0 <= j < views.len() ==> (#[trigger] views[j]).0 != Type::Primary,
    decreases views.len(),
{
    if views.len() > 0 {
        let rest = views.drop_last();
        lemma_last_primary_is_last(rest);
        assert forall|j: int| 0 <= j < rest.len() implies #[trigger] views[j] == rest[j] by {}
        if views.last().0 == Type::Primary {
            assert(views[views.len() - 1] == views.last());
        }
    }
}

/// The last primary index among the indexes a model was given: the name of a primary one with
/// none after it, or none where none is primary.
proof fn lemma_declared_primary_is_last(indexes: Seq<Index>)
    ensures
        declared_primary_name(indexes) matches Some(n) ==> exists|i: int| {
            &&& 0 <= i < indexes.len()
            &&& indexes[i]@.0 == Type::Primary
            &&& indexes[i]@.1 == n
            &&& forall|j: int| i < j < indexes.len() ==> (#[trigger] indexes[j])@.0 != Type::Primary
        },
        declared_primary_name(indexes) is None ==> forall|j: int| 0 <= j < indexes.len() ==> (#[trigger] indexes[j])@.0 != Type::Primary,
    decreases indexes.len(),
{
    if indexes.len() > 0 {
        let rest = indexes.drop_last();
        lemma_declared_primary_is_last(rest);
        assert forall|j: int| 0 <= j < rest.len() implies #[trigger] indexes[j] == rest[j] by {}
        if indexes.last()@.0 == Type::Primary {
            assert(indexes[indexes.len() - 1] == indexes.last());
        }
    }
}

/// Which primary index a model ends up with. Where its fields or properties declare primary
/// indexes (`from_fields`, in order), it is the last of those. Otherwise, where the indexes it
/// was given hold a primary one, it is the last of those if that one has a name, else the
/// primary index set on the builder; where they hold none, it is the primary index set on the
/// builder.
pub proof fn law_primary_resolution(builder_primary: Seq<char>, declared: Seq<Index>, from_fields: Seq<IndexView>)
    ensures
        (exists|i: int| 0 <= i < from_fields.len() && (#[trigger] from_fields[i]).0 == Type::Primary) ==> exists|i: int| {
            &&& 0 <= i < from_fields.len()
            &&& from_fields[i].0 == Type::Primary
            &&& resolved_primary(builder_primary, declared, from_fields) == from_fields[i].1
            &&& forall|j: int| i < j < from_fields.len() ==> (#[trigger] from_fields[j]).0 != Type::Primary
        },
        (forall|i: int| 0 <= i < from_fields.len() ==> (#[trigger] from_fields[i]).0 != Type::Primary)
            && (exists|i: int| 0 <= i < declared.len() && (#[trigger] declared[i])@.0 == Type::Primary) ==> exists|i: int| {
            &&& 0 <= i < declared.len()
            &&& declared[i]@.0 == Type::Primary
            &&& forall|j: int| i < j < declared.len() ==> (#[trigger] declared[j])@.0 != Type::Primary
            &&& resolved_primary(builder_primary, declared, from_fields)
                == if declared[i]@.1.len() > 0 { declared[i]@.1 } else { builder_primary }
        },
        (forall|i: int| 0 <= i < from_fields.len() ==> (#[trigger] from_fields[i]).0 != Type::Primary)
            && (forall|i: int| 0 <= i < declared.len() ==> (#[trigger] declared[i])@.0 != Type::Primary)
            ==> resolved_primary(builder_primary, declared, from_fields) == builder_primary,
{
    lemma_last_primary_is_last(from_fields);
    lemma_declared_primary_is_last(declared);
}

/// Inserting index views one by one under their own names is inserting the entries that
/// pair each view with its name.
proof fn lemma_insert_index_views(entries: Seq<(Seq<char>, IndexView)>, views: Seq<IndexView>)
    ensures
        insert_index_views(entries, views) == inserted_all(entries, views.map_values(|v: IndexView| (v.1, v))),
    decreases views.len(),
{
    if views.len() > 0 {
        lemma_insert_index_views(entries, views.drop_last());
        assert(views.map_values(|v: IndexView| (v.1, v)).drop_last() =~= views.drop_last().map_values(|v: IndexView| (v.1, v)));
    }
}

/// The indexes a model ends up with: each index that a field or property declares is there
/// under its name (the last one declared under a name wins), and an index under a name that
/// none of them declares is the one the model was given.
pub proof fn law_declared_indexes(entries: Seq<(Seq<char>, IndexView)>, views: Seq<IndexView>, name: Seq<char>)
    ensures
        forall|i: int| 0 <= i < views.len() && (forall|j: int| i < j < views.len() ==> (#[trigger] views[j]).1 != views[i].1)
            ==> entries_get(insert_index_views(entries, views), (#[trigger] views[i]).1) == Some(views[i]),
        (forall|j: int| 0 <= j < views.len() ==> (#[trigger] views[j]).1 != name)
            ==> entries_get(insert_index_views(entries, views), name) == entries_get(entries, name),
{
    lemma_insert_index_views(entries, views);
    let items = views.map_values(|v: IndexView| (v.1, v));
    assert forall|i: int| 0 <= i < views.len() && (forall|j: int| i < j < views.len() ==> (#[trigger] views[j]).1 != views[i].1)
        implies entries_get(insert_index_views(entries, views), (#[trigger] views[i]).1) == Some(views[i]) by {
        assert forall|j: int| i < j < items.len() implies (#[trigger] items[j]).0 != items[i].0 by {
            assert(views[j].1 != views[i].1);
        }
        lemma_inserted_all_last(entries, items, i);
    }
    if forall|j: int| 0 <= j < views.len() ==> (#[trigger] views[j]).1 != name {
        assert forall|j: int| 0 <= j < items.len() implies (#[trigger] items[j]).0 != name by {
            assert(views[j].1 != name);
        }
        lemma_inserted_all_untouched(entries, items, name);
    }
}

/// The rules a relation gets where it declares none. Deleting the related record: for an
/// optional relation, its foreign key is nulled where it holds one, else nothing happens; for
/// a required relation to many, nothing happens; for a required relation to one, this record
/// is deleted too. Updating: an optional relation is nulled, a required relation to many is
/// left, a required relation to one follows the update.
pub proof fn law_default_relation_rules(ty: TypeInfo, has_foreign_key: bool)
    ensures
        ty.optional && has_foreign_key ==> default_delete(ty, has_foreign_key) == Delete::Nullify,
        ty.optional && !has_foreign_key ==> default_delete(ty, has_foreign_key) == Delete::NoAction,
        !ty.optional && ty.array ==> default_delete(ty, has_foreign_key) == Delete::NoAction,
        !ty.optional && !ty.array ==> default_delete(ty, has_foreign_key) == Delete::Cascade,
        ty.optional ==> default_update(ty) == Update::Nullify,
        !ty.optional && ty.array ==> default_update(ty) == Update::NoAction,
        !ty.optional && !ty.array ==> default_update(ty) == Update::Update,
{
}

/// A field under a unique or primary index is never copied; any other field is copied as it
/// was declared.
pub proof fn law_field_copy(copy: bool, index: Option<FieldIndex>)
    ensures
        (index matches Some(i) && (i.kind == Type::Unique || i.kind == Type::Primary)) ==> !copies(copy, index),
        !(index matches Some(i) && (i.kind == Type::Unique || i.kind == Type::Primary)) ==> copies(copy, index) == copy,
{
}

/// A relation holds a foreign key exactly when it goes through no join table and one of its
/// local fields names a field (of `fields`) that is a foreign key.
pub proof fn law_relation_foreign_key(through: Option<Vec<String>>, names: Seq<String>, fields: Seq<&Field>)
    ensures
        through is Some ==> !spec_has_foreign_key(through, names, fields),
        through is None ==> (spec_has_foreign_key(through, names, fields) <==> exists|i: int, j: int|
            0 <= i < names.len() && 0 <= j < fields.len() && (#[trigger] fields[j]).name@ == (#[trigger] names[i])@
                && fields[j].foreign_key),
        (forall|j: int| 0 <= j < fields.len() ==> !(#[trigger] fields[j]).foreign_key)
            ==> !spec_has_foreign_key(through, names, fields),
{
}

} // verus!
