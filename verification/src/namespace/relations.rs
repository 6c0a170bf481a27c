use vstd::prelude::*;
use crate::model::Model;
use crate::model::relation::Relation;
use crate::model::maps::{entries_get, entries_values, relation_map_entries, relation_map_len, relation_map_get_index};
use crate::namespace::namespace::Namespace;
use crate::utils::{strings_view, strings_eq};

verus! {

/// Whether `r` is the opposite of `of`: its fields are the references of `of`, and its
/// references the fields of `of`.
pub open spec fn is_opposite(r: Relation, of: Relation) -> bool {
    &&& strings_view(r.fields@) == strings_view(of.references@)
    &&& strings_view(r.references@) == strings_view(of.fields@)
}

/// The first relation of `rels` that is the opposite of `of`.
pub open spec fn first_opposite(rels: Seq<Relation>, of: Relation) -> Option<Relation>
    decreases rels.len(),
{
    if rels.len() == 0 {
        None
    } else if is_opposite(rels[0], of) {
        Some(rels[0])
    } else {
        first_opposite(rels.drop_first(), of)
    }
}

/// The relations listed for the model at `path`: those of the first entry of `entries` with
/// that path.
pub open spec fn opposite_relations_entry(
    entries: Seq<(Vec<String>, Vec<(Vec<String>, String)>)>,
    path: Seq<Seq<char>>,
) -> Option<Vec<(Vec<String>, String)>>
    decreases entries.len(),
{
    if entries.len() == 0 {
        None
    } else if strings_view(entries[0].0@) == path {
        Some(entries[0].1)
    } else {
        opposite_relations_entry(entries.drop_first(), path)
    }
}

impl<H, C, FD, PD, RD> Namespace<H, C, FD, PD, RD> {
    /// Whether every entry of `list` names a model of this namespace that has a relation of
    /// the name it gives.
    pub open spec fn relations_resolvable(self, list: Seq<(Vec<String>, String)>) -> bool {
        forall|i: int| 0 <= i < list.len() ==> {
            &&& (#[trigger] list[i]).0@.len() >= 1
            &&& self.model_lookup(strings_view(list[i].0@)) is Some
            &&& entries_get(
                relation_map_entries(self.model_lookup(strings_view(list[i].0@))->0.relations),
                list[i].1@,
            ) is Some
        }
    }

    /// The relations that other models hold to `model`, with their models, as the opposite
    /// relations map lists them.
    pub fn model_opposite_relations(&self, model: &Model) -> (r: Vec<(&Model, &Relation)>)
        requires
            self.well_formed(),
            opposite_relations_entry(self.model_opposite_relations_map@, strings_view(model.path@)) is Some,
            self.relations_resolvable(
                opposite_relations_entry(self.model_opposite_relations_map@, strings_view(model.path@))->0@,
            ),
        ensures
            ({
                let list = opposite_relations_entry(
                    self.model_opposite_relations_map@,
                    strings_view(model.path@),
                )->0@;
                &&& r@.len() == list.len()
                &&& forall|i: int| 0 <= i < list.len() ==> {
                    &&& self.model_lookup(strings_view(list[i].0@)) == Some(*(#[trigger] r@[i]).0)
                    &&& entries_get(relation_map_entries(r@[i].0.relations), list[i].1@) == Some(*r@[i].1)
                }
            }),
    {
        let ghost p = strings_view(model.path@);
        let ghost entries = self.model_opposite_relations_map@;
        let mut k: usize = 0;
        assert(entries.skip(0) =~= entries);
        while k < self.model_opposite_relations_map.len()
            && !strings_eq(&self.model_opposite_relations_map[k].0, &model.path)
            invariant
                entries == self.model_opposite_relations_map@,
                p == strings_view(model.path@),
                k <= entries.len(),
                opposite_relations_entry(entries.skip(k as int), p) == opposite_relations_entry(entries, p),
            decreases entries.len() - k,
        {
            assert(entries.skip(k as int)[0] == entries[k as int]);
            assert(entries.skip(k as int).drop_first() =~= entries.skip(k + 1));
            assert(strings_view(entries[k as int].0@) != p);
            assert(opposite_relations_entry(entries.skip(k as int), p)
                == opposite_relations_entry(entries.skip(k as int).drop_first(), p));
            k = k + 1;
        }
        if k >= self.model_opposite_relations_map.len() {
            assert(entries.skip(k as int).len() == 0);
        }
        assert(entries.skip(k as int)[0] == entries[k as int]);
        let list = &self.model_opposite_relations_map[k].1;
        let ghost l = list@;
        let mut result: Vec<(&Model, &Relation)> = Vec::new();
        let mut i: usize = 0;
        while i < list.len()
            invariant
                self.well_formed(),
                l == list@,
                self.relations_resolvable(l),
                i <= l.len(),
                result@.len() == i,
                forall|j: int| 0 <= j < i ==> {
                    &&& self.model_lookup(strings_view(l[j].0@)) == Some(*(#[trigger] result@[j]).0)
                    &&& entries_get(relation_map_entries(result@[j].0.relations), l[j].1@) == Some(*result@[j].1)
                },
            decreases l.len() - i,
        {
            assert(l[i as int].0@.len() >= 1);
            let m = self.model_at_path(&list[i].0).unwrap();
            let rel = m.relation(list[i].1.as_str()).unwrap();
            result.push((m, rel));
            i = i + 1;
        }
        result
    }

    /// The related model of `relation`, and the first of its relations, in declaration order,
    /// that is the opposite of `relation`, if there is one.
    pub fn opposite_relation(&self, relation: &Relation) -> (r: (&Model, Option<&Relation>))
        requires
            self.well_formed(),
            relation.model@.len() >= 1,
            self.model_lookup(strings_view(relation.model@)) is Some,
        ensures
            self.model_lookup(strings_view(relation.model@)) == Some(*r.0),
            (match r.1 {
                Some(x) => Some(*x),
                None => None,
            }) == first_opposite(r.0.spec_relations(), *relation),
    {
        let model = self.model_at_path(relation.model_path()).unwrap();
        let ghost rels = model.spec_relations();
        let ghost entries = relation_map_entries(model.relations);
        let n = relation_map_len(&model.relations);
        let mut i: usize = 0;
        assert(rels.len() == n);
        assert(rels.skip(0) =~= rels);
        while i < n
            invariant
                n == rels.len(),
                self.model_lookup(strings_view(relation.model@)) == Some(*model),
                rels == model.spec_relations(),
                rels == entries_values(entries),
                entries == relation_map_entries(model.relations),
                i <= n,
                first_opposite(rels.skip(i as int), *relation) == first_opposite(rels, *relation),
            decreases n - i,
        {
            let (_, x) = relation_map_get_index(&model.relations, i).unwrap();
            assert(*x == rels[i as int]);
            assert(rels.skip(i as int)[0] == rels[i as int]);
            assert(rels.skip(i as int).drop_first() =~= rels.skip(i + 1));
            if strings_eq(&x.fields, &relation.references) && strings_eq(&x.references, &relation.fields) {
                return (model, Some(x));
            }
            i = i + 1;
        }
        (model, None)
    }

    /// The join model of `relation`, which goes through one, and its relation named by the
    /// local name of `relation`.
    pub fn through_relation(&self, relation: &Relation) -> (r: (&Model, &Relation))
        requires
            self.well_formed(),
            relation.through is Some,
            relation.through->0@.len() >= 1,
            relation.local is Some,
            self.model_lookup(strings_view(relation.through->0@)) is Some,
            entries_get(
                relation_map_entries(self.model_lookup(strings_view(relation.through->0@))->0.relations),
                relation.local->0@,
            ) is Some,
        ensures
            self.model_lookup(strings_view(relation.through->0@)) == Some(*r.0),
            entries_get(relation_map_entries(r.0.relations), relation.local->0@) == Some(*r.1),
    {
        let through_model = self.model_at_path(relation.through_path().unwrap()).unwrap();
        let local = through_model.relation(relation.local().unwrap()).unwrap();
        (through_model, local)
    }

    /// The join model of `relation`, which goes through one, and its relation named by the
    /// foreign name of `relation`.
    pub fn through_opposite_relation(&self, relation: &Relation) -> (r: (&Model, &Relation))
        requires
            self.well_formed(),
            relation.through is Some,
            relation.through->0@.len() >= 1,
            relation.foreign is Some,
            self.model_lookup(strings_view(relation.through->0@)) is Some,
            entries_get(
                relation_map_entries(self.model_lookup(strings_view(relation.through->0@))->0.relations),
                relation.foreign->0@,
            ) is Some,
        ensures
            self.model_lookup(strings_view(relation.through->0@)) == Some(*r.0),
            entries_get(relation_map_entries(r.0.relations), relation.foreign->0@) == Some(*r.1),
    {
        let through_model = self.model_at_path(relation.through_path().unwrap()).unwrap();
        let foreign = through_model.relation(relation.foreign().unwrap()).unwrap();
        (through_model, foreign)
    }
}

} // verus!
