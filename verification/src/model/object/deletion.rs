use vstd::prelude::*;
use crate::model::model::Model;
use crate::model::relation::Relation;
use crate::model::relation::delete::Delete;
use crate::utils::{join_prefix, seq_join, strings_view};

verus! {

/// What deleting a record does to the records that a relation of another model links to it.
#[derive(Debug, Clone, Copy, PartialEq, Eq, Structural)]
pub enum DeleteEffect {
    /// They are left as they are.
    Nothing,
    /// The fields of the relation are set to null in each of them.
    Nullify,
    /// They are deleted too.
    Cascade,
    /// The fields of the relation are set to their default values in each of them.
    SetDefault,
}

/// What deleting a record does through the relation `relation` of another model that links
/// to it: nothing for no action or a denial (checked before the deletion); nulling the
/// relation's fields where it holds a foreign key, else nothing; deleting them; or resetting
/// the relation's fields to their defaults.
pub open spec fn spec_delete_effect(relation: Relation) -> DeleteEffect {
    match relation.delete {
        Delete::NoAction => DeleteEffect::Nothing,
        Delete::Deny => DeleteEffect::Nothing,
        Delete::Nullify => if relation.has_foreign_key {
            DeleteEffect::Nullify
        } else {
            DeleteEffect::Nothing
        },
        Delete::Cascade => DeleteEffect::Cascade,
        Delete::Default => DeleteEffect::SetDefault,
    }
}

/// What deleting a record does through the relation `relation` of another model that links
/// to it.
pub fn delete_effect(relation: &Relation) -> (r: DeleteEffect)
    ensures
        r == spec_delete_effect(*relation),
{
    match relation.delete {
        Delete::NoAction => DeleteEffect::Nothing,
        Delete::Deny => DeleteEffect::Nothing,
        Delete::Nullify => if relation.has_foreign_key {
            DeleteEffect::Nullify
        } else {
            DeleteEffect::Nothing
        },
        Delete::Cascade => DeleteEffect::Cascade,
        Delete::Default => DeleteEffect::SetDefault,
    }
}

/// The first of the relations that link records to the record being deleted which denies the
/// deletion: one whose rule is to deny it and which links at least one record, as `counts`
/// says, relation by relation.
pub open spec fn first_denial(relations: Seq<(&Model, &Relation)>, counts: Seq<u64>) -> Option<int>
    decreases relations.len(),
{
    if relations.len() == 0 {
        None
    } else {
        match first_denial(relations.drop_last(), counts.drop_last()) {
            Some(i) => Some(i),
            None => if relations.last().1.delete == Delete::Deny && counts.last() > 0 {
                Some(relations.len() - 1)
            } else {
                None
            },
        }
    }
}

/// The position of the first relation that denies the deletion, given for each relation how
/// many records it links to the record being deleted.
pub fn find_denial(relations: &Vec<(&Model, &Relation)>, counts: &Vec<u64>) -> (r: Option<usize>)
    requires
        counts@.len() == relations@.len(),
    ensures
        (match r {
            Some(i) => Some(i as int),
            None => None,
        }) == first_denial(relations@, counts@),
{
    let mut i: usize = 0;
    assert(relations@.take(0) =~= Seq::<(&Model, &Relation)>::empty());
    while i < relations.len()
        invariant
            counts@.len() == relations@.len(),
            i <= relations@.len(),
            first_denial(relations@.take(i as int), counts@.take(i as int)) is None,
        decreases relations@.len() - i,
    {
        assert(relations@.take(i + 1).drop_last() =~= relations@.take(i as int));
        assert(counts@.take(i + 1).drop_last() =~= counts@.take(i as int));
        if relations[i].1.delete == Delete::Deny && counts[i] > 0 {
            proof {
                lemma_first_denial_prefix(relations@, counts@, i + 1);
            }
            return Some(i);
        }
        i = i + 1;
    }
    assert(relations@.take(i as int) =~= relations@);
    assert(counts@.take(i as int) =~= counts@);
    None
}

/// Where the prefix of length `n` has a denial, the whole list has the same first denial.
proof fn lemma_first_denial_prefix(relations: Seq<(&Model, &Relation)>, counts: Seq<u64>, n: int)
    requires
        0 <= n <= relations.len(),
        counts.len() == relations.len(),
        first_denial(relations.take(n), counts.take(n)) is Some,
    ensures
        first_denial(relations, counts) == first_denial(relations.take(n), counts.take(n)),
    decreases relations.len() - n,
{
    if n < relations.len() {
        assert(relations.take(n + 1).drop_last() =~= relations.take(n));
        assert(counts.take(n + 1).drop_last() =~= counts.take(n));
        assert(first_denial(relations.take(n + 1), counts.take(n + 1)) == first_denial(relations.take(n), counts.take(n)));
        lemma_first_denial_prefix(relations, counts, n + 1);
    } else {
        assert(relations.take(n) =~= relations);
        assert(counts.take(n) =~= counts);
    }
}

/// The key that names a relation denying a deletion: the path of its model joined by dots,
/// a dot, and the relation's name.
pub fn denied_relation_key(model: &Model, relation: &Relation) -> (r: String)
    ensures
        r@ == seq_join(strings_view(model.path@), "."@) + "."@ + relation.name@,
{
    let mut r = join_prefix(&model.path, model.path.len(), ".");
    assert(strings_view(model.path@).take(model.path@.len() as int) =~= strings_view(model.path@));
    r.append(".");
    r.append(relation.name.as_str());
    r
}

/// The first denial is a position of the list.
proof fn lemma_first_denial_in_range(relations: Seq<(&Model, &Relation)>, counts: Seq<u64>)
    ensures
        first_denial(relations, counts) matches Some(i) ==> 0 <= i < relations.len(),
    decreases relations.len(),
{
    if relations.len() > 0 {
        lemma_first_denial_in_range(relations.drop_last(), counts.drop_last());
    }
}

/// What deleting a record does through each of the relations that link records to it, in
/// order; or, where one of them denies the deletion (as `deny_counts` says, relation by
/// relation, how many records each links), the key of the first that does.
pub fn deletion_plan(relations: &Vec<(&Model, &Relation)>, deny_counts: &Vec<u64>) -> (r: Result<Vec<DeleteEffect>, String>)
    requires
        deny_counts@.len() == relations@.len(),
    ensures
        match first_denial(relations@, deny_counts@) {
            Some(i) => r matches Err(k) && k@ == seq_join(strings_view(relations@[i].0.path@), "."@) + "."@
                + relations@[i].1.name@,
            None => r matches Ok(effects) && effects@ == relations@.map_values(
                |e: (&Model, &Relation)| spec_delete_effect(*e.1)),
        },
{
    proof {
        lemma_first_denial_in_range(relations@, deny_counts@);
    }
    match find_denial(relations, deny_counts) {
        Some(i) => {
            return Err(denied_relation_key(relations[i].0, relations[i].1));
        },
        None => {},
    }
    let mut effects: Vec<DeleteEffect> = Vec::new();
    let mut i: usize = 0;
    while i < relations.len()
        invariant
            i <= relations@.len(),
            effects@ == relations@.take(i as int).map_values(|e: (&Model, &Relation)| spec_delete_effect(*e.1)),
        decreases relations@.len() - i,
    {
        effects.push(delete_effect(relations[i].1));
        assert(relations@.take(i + 1) =~= relations@.take(i as int).push(relations@[i as int]));
        assert(effects@ =~= relations@.take(i + 1).map_values(|e: (&Model, &Relation)| spec_delete_effect(*e.1)));
        i = i + 1;
    }
    assert(relations@.take(i as int) =~= relations@);
    Ok(effects)
}

} // verus!
