use vstd::prelude::*;
use crate::model::model::Model;
use crate::model::object::fetch::keyed;
use crate::model::object::object::Object;
use crate::model::relation::Relation;

verus! {

/// One step of performing the changes given for an object's relations.
#[derive(Debug, Clone, Copy, PartialEq, Eq, Structural)]
pub enum RelationStep {
    /// The objects given replace what the to-many relation relates to.
    SetMany,
    /// What the to-one relation relates to is disconnected.
    DisconnectCurrent,
    /// The object given is connected through the to-one relation, and saved.
    ConnectNew,
    /// The object given to connect at this position is connected, and saved.
    Connect(usize),
    /// The object given to disconnect at this position is disconnected by deleting the
    /// record of the join table that links it.
    DeleteJoin(usize),
    /// The object given to disconnect at this position is disconnected by removing the
    /// linked values from this object.
    RemoveLocalLink(usize),
    /// The object given to disconnect at this position is disconnected by removing the
    /// linked values from it, and it is saved.
    RemoveRelatedLink(usize),
    /// The manipulation given in the input for the relation is performed, on many related
    /// objects or on one.
    Mutation(bool),
}

/// How the object given to disconnect at position `i` through `relation` is disconnected:
/// through its join table, else by this object's foreign key, else by the related object's.
pub open spec fn disconnect_step(relation: Relation, i: usize) -> RelationStep {
    if relation.through is Some {
        RelationStep::DeleteJoin(i)
    } else if relation.has_foreign_key {
        RelationStep::RemoveLocalLink(i)
    } else {
        RelationStep::RemoveRelatedLink(i)
    }
}

impl<V> Object<V> {
    /// The steps that replace what `relation` relates to: for a to-many relation, the
    /// objects given; for a to-one relation, disconnecting the current object and then
    /// connecting the new one, if one was given.
    pub open spec fn set_steps(self, relation: Relation) -> Seq<(Seq<char>, RelationStep)> {
        let name = relation.name@;
        if relation.is_vec {
            if self.object_set_many_map@.contains_key(name) {
                seq![(name, RelationStep::SetMany)]
            } else {
                Seq::empty()
            }
        } else if self.object_set_map@.contains_key(name) {
            if self.object_set_map@[name] is Some {
                seq![(name, RelationStep::DisconnectCurrent), (name, RelationStep::ConnectNew)]
            } else {
                seq![(name, RelationStep::DisconnectCurrent)]
            }
        } else {
            Seq::empty()
        }
    }

    /// The steps that connect each object given to connect through `relation`.
    pub open spec fn connect_steps(self, relation: Relation) -> Seq<(Seq<char>, RelationStep)> {
        let name = relation.name@;
        if self.object_connect_map@.contains_key(name) {
            Seq::new(self.object_connect_map@[name]@.len(), |i: int| (name, RelationStep::Connect(i as usize)))
        } else {
            Seq::empty()
        }
    }

    /// The steps that disconnect each object given to disconnect through `relation`.
    pub open spec fn disconnect_steps(self, relation: Relation) -> Seq<(Seq<char>, RelationStep)> {
        let name = relation.name@;
        if self.object_disconnect_map@.contains_key(name) {
            Seq::new(self.object_disconnect_map@[name]@.len(), |i: int| (name, disconnect_step(relation, i as usize)))
        } else {
            Seq::empty()
        }
    }

    /// The step that performs the manipulation of the input for `relation`, if it holds one.
    pub open spec fn mutation_step(self, relation: Relation) -> Seq<(Seq<char>, RelationStep)> {
        if self.relation_mutation_map@.contains_key(relation.name@) {
            seq![(relation.name@, RelationStep::Mutation(relation.is_vec))]
        } else {
            Seq::empty()
        }
    }

    /// The steps for `relation`, in order: what was given to replace its related objects,
    /// then each object given to connect, then each object given to disconnect, then the
    /// manipulation of the input, if any.
    pub open spec fn relation_steps(self, relation: Relation) -> Seq<(Seq<char>, RelationStep)> {
        self.set_steps(relation) + self.connect_steps(relation) + self.disconnect_steps(relation)
            + self.mutation_step(relation)
    }

    /// The steps for the relations of `rels` that are chosen (as `chosen` says, relation by
    /// relation), relation after relation.
    pub open spec fn manipulation_steps(self, rels: Seq<Relation>, chosen: Seq<bool>) -> Seq<(Seq<char>, RelationStep)>
        decreases rels.len(),
    {
        if rels.len() == 0 {
            Seq::empty()
        } else {
            let rest = self.manipulation_steps(rels.drop_last(), chosen.drop_last());
            if chosen.last() {
                rest + self.relation_steps(rels.last())
            } else {
                rest
            }
        }
    }

    /// Records `objects` to replace what the to-many relation `key` relates to.
    pub fn force_set_relation_objects(&mut self, key: &str, objects: Vec<Object<V>>)
        ensures
            final(self).object_set_many_map@ == old(self).object_set_many_map@.insert(key@, objects),
            *final(self) == (Object { object_set_many_map: final(self).object_set_many_map, ..*old(self) }),
    {
        self.object_set_many_map.insert(key.to_owned(), objects);
    }

    /// Records `objects` to connect through the relation `key`.
    pub fn force_add_relation_objects(&mut self, key: &str, objects: Vec<Object<V>>)
        ensures
            final(self).object_connect_map@ == old(self).object_connect_map@.insert(key@, objects),
            *final(self) == (Object { object_connect_map: final(self).object_connect_map, ..*old(self) }),
    {
        self.object_connect_map.insert(key.to_owned(), objects);
    }

    /// Records `objects` to disconnect through the relation `key`.
    pub fn force_remove_relation_objects(&mut self, key: &str, objects: Vec<Object<V>>)
        ensures
            final(self).object_disconnect_map@ == old(self).object_disconnect_map@.insert(key@, objects),
            *final(self) == (Object { object_disconnect_map: final(self).object_disconnect_map, ..*old(self) }),
    {
        self.object_disconnect_map.insert(key.to_owned(), objects);
    }

    /// Records `object` to replace what the to-one relation `key` relates to (none to relate
    /// nothing).
    pub fn force_set_relation_object(&mut self, key: &str, object: Option<Object<V>>)
        ensures
            final(self).object_set_map@ == old(self).object_set_map@.insert(key@, object),
            *final(self) == (Object { object_set_map: final(self).object_set_map, ..*old(self) }),
    {
        self.object_set_map.insert(key.to_owned(), object);
    }

    /// Appends the steps that replace what `relation` relates to.
    fn push_set_steps(&self, relation: &Relation, steps: &mut Vec<(String, RelationStep)>)
        ensures
            keyed(final(steps)@) == keyed(old(steps)@) + self.set_steps(*relation),
    {
        let name = relation.name.as_str();
        if relation.is_vec {
            if self.object_set_many_map.contains_key(name) {
                push_step(steps, relation, RelationStep::SetMany);
            }
        } else {
            match self.object_set_map.get(name) {
                Some(o) => {
                    push_step(steps, relation, RelationStep::DisconnectCurrent);
                    if o.is_some() {
                        push_step(steps, relation, RelationStep::ConnectNew);
                    }
                },
                None => {},
            }
        }
        assert(keyed(steps@) =~= keyed(old(steps)@) + self.set_steps(*relation));
    }

    /// Appends the steps that connect the objects given to connect through `relation`.
    fn push_connect_steps(&self, relation: &Relation, steps: &mut Vec<(String, RelationStep)>)
        ensures
            keyed(final(steps)@) == keyed(old(steps)@) + self.connect_steps(*relation),
    {
        let ghost start = keyed(steps@);
        let ghost name = relation.name@;
        match self.object_connect_map.get(relation.name.as_str()) {
            Some(objects) => {
                let ghost all = Seq::new(objects@.len(), |i: int| (name, RelationStep::Connect(i as usize)));
                let mut j: usize = 0;
                assert(start + all.take(0) =~= start);
                while j < objects.len()
                    invariant
                        j <= objects@.len(),
                        name == relation.name@,
                        all == Seq::new(objects@.len(), |i: int| (name, RelationStep::Connect(i as usize))),
                        keyed(steps@) == start + all.take(j as int),
                    decreases objects@.len() - j,
                {
                    push_step(steps, relation, RelationStep::Connect(j));
                    assert(all.take(j + 1) =~= all.take(j as int).push((name, RelationStep::Connect(j))));
                    assert(start + all.take(j + 1) =~= (start + all.take(j as int)).push((name, RelationStep::Connect(j))));
                    j = j + 1;
                }
                assert(all.take(objects@.len() as int) =~= all);
            },
            None => {
                assert(start + Seq::empty() =~= start);
            },
        }
    }

    /// Appends the steps that disconnect the objects given to disconnect through `relation`.
    fn push_disconnect_steps(&self, relation: &Relation, steps: &mut Vec<(String, RelationStep)>)
        ensures
            keyed(final(steps)@) == keyed(old(steps)@) + self.disconnect_steps(*relation),
    {
        let ghost start = keyed(steps@);
        let ghost name = relation.name@;
        match self.object_disconnect_map.get(relation.name.as_str()) {
            Some(objects) => {
                let ghost all = Seq::new(objects@.len(), |i: int| (name, disconnect_step(*relation, i as usize)));
                let mut j: usize = 0;
                assert(start + all.take(0) =~= start);
                while j < objects.len()
                    invariant
                        j <= objects@.len(),
                        name == relation.name@,
                        all == Seq::new(objects@.len(), |i: int| (name, disconnect_step(*relation, i as usize))),
                        keyed(steps@) == start + all.take(j as int),
                    decreases objects@.len() - j,
                {
                    let step = if relation.has_join_table() {
                        RelationStep::DeleteJoin(j)
                    } else if relation.has_foreign_key {
                        RelationStep::RemoveLocalLink(j)
                    } else {
                        RelationStep::RemoveRelatedLink(j)
                    };
                    push_step(steps, relation, step);
                    assert(all.take(j + 1) =~= all.take(j as int).push((name, disconnect_step(*relation, j))));
                    assert(start + all.take(j + 1) =~= (start + all.take(j as int)).push((name, step)));
                    j = j + 1;
                }
                assert(all.take(objects@.len() as int) =~= all);
            },
            None => {
                assert(start + Seq::empty() =~= start);
            },
        }
    }

    /// Appends the steps for `relation` to `steps`.
    fn push_relation_steps(&self, relation: &Relation, steps: &mut Vec<(String, RelationStep)>)
        ensures
            keyed(final(steps)@) == keyed(old(steps)@) + self.relation_steps(*relation),
    {
        self.push_set_steps(relation, steps);
        self.push_connect_steps(relation, steps);
        self.push_disconnect_steps(relation, steps);
        let ghost before = keyed(steps@);
        if self.relation_mutation_map.contains_key(relation.name.as_str()) {
            push_step(steps, relation, RelationStep::Mutation(relation.is_vec));
        }
        assert(keyed(steps@) =~= before + self.mutation_step(*relation));
        assert(keyed(steps@) =~= keyed(old(steps)@) + self.relation_steps(*relation));
    }

    /// The steps that perform the changes given for the relations of `model` that are chosen
    /// (as `chosen` says, relation by relation), in declaration order: for each, what was
    /// given to replace its related objects, the objects given to connect and to disconnect,
    /// and the manipulation of the input, as `relation_steps` says.
    pub fn relation_manipulation_plan(&self, model: &Model, chosen: &Vec<bool>) -> (r: Vec<(String, RelationStep)>)
        requires
            chosen@.len() == model.spec_relations().len(),
        ensures
            keyed(r@) == self.manipulation_steps(model.spec_relations(), chosen@),
    {
        let ghost rels = model.spec_relations();
        let n = crate::model::maps::relation_map_len(&model.relations);
        let mut result: Vec<(String, RelationStep)> = Vec::new();
        let mut i: usize = 0;
        assert(rels.take(0) =~= Seq::<Relation>::empty());
        assert(chosen@.take(0) =~= Seq::<bool>::empty());
        assert(keyed(result@) =~= Seq::empty());
        while i < n
            invariant
                rels == model.spec_relations(),
                n == rels.len(),
                chosen@.len() == n,
                i <= n,
                keyed(result@) == self.manipulation_steps(rels.take(i as int), chosen@.take(i as int)),
            decreases n - i,
        {
            let relation = crate::model::maps::relation_map_get_index(&model.relations, i).unwrap().1;
            assert(rels[i as int] == *relation);
            assert(rels.take(i + 1).drop_last() =~= rels.take(i as int));
            assert(chosen@.take(i + 1).drop_last() =~= chosen@.take(i as int));
            assert(rels.take(i + 1).last() == *relation);
            assert(chosen@.take(i + 1).last() == chosen@[i as int]);
            if chosen[i] {
                self.push_relation_steps(relation, &mut result);
            }
            i = i + 1;
        }
        assert(rels.take(n as int) =~= rels);
        assert(chosen@.take(n as int) =~= chosen@);
        result
    }
}

/// Appends the step `step` for `relation`.
fn push_step(steps: &mut Vec<(String, RelationStep)>, relation: &Relation, step: RelationStep)
    ensures
        keyed(final(steps)@) == keyed(old(steps)@).push((relation.name@, step)),
{
    steps.push((relation.name.clone(), step));
    assert(keyed(steps@) =~= keyed(old(steps)@).push((relation.name@, step)));
}

} // verus!
