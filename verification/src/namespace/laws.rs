use vstd::prelude::*;
use crate::model::Model;
use crate::namespace::group::groups_view;
use crate::namespace::namespace::Namespace;
use crate::namespace::update::Change;
use crate::utils::strings_view;
use crate::model::relation::Relation;
use crate::namespace::relations::first_opposite;

verus! {

/// The opposite found for a relation among `rels` (the relations of its related model, in
/// declaration order) is a relation whose fields are the given relation's references and
/// whose references are its fields, the first such; and where none is found, no relation
/// of `rels` has both.
pub proof fn law_opposite_relation(rels: Seq<Relation>, of: Relation)
    ensures
        first_opposite(rels, of) matches Some(x) ==> exists|i: int| {
            &&& 0 <= i < rels.len()
            &&& rels[i] == x
            &&& strings_view(x.fields@) == strings_view(of.references@)
            &&& strings_view(x.references@) == strings_view(of.fields@)
            &&& forall|j: int| 0 <= j < i ==> !(strings_view((#[trigger] rels[j]).fields@) == strings_view(of.references@)
                && strings_view(rels[j].references@) == strings_view(of.fields@))
        },
        first_opposite(rels, of) is None ==> forall|j: int| 0 <= j < rels.len()
            ==> !(strings_view((#[trigger] rels[j]).fields@) == strings_view(of.references@)
                && strings_view(rels[j].references@) == strings_view(of.fields@)),
    decreases rels.len(),
{
    if rels.len() > 0 {
        let rest = rels.drop_first();
        law_opposite_relation(rest, of);
        assert forall|j: int| 1 <= j < rels.len() implies #[trigger] rels[j] == rest[j - 1] by {}
        if first_opposite(rels, of) is Some && first_opposite(rest, of) is Some
            && !(strings_view(rels[0].fields@) == strings_view(of.references@)
                && strings_view(rels[0].references@) == strings_view(of.fields@)) {
            let x = first_opposite(rest, of)->0;
            let k = choose|k: int| {
                &&& 0 <= k < rest.len()
                &&& rest[k] == x
                &&& strings_view(x.fields@) == strings_view(of.references@)
                &&& strings_view(x.references@) == strings_view(of.fields@)
                &&& forall|j: int| 0 <= j < k ==> !(strings_view((#[trigger] rest[j]).fields@) == strings_view(of.references@)
                    && strings_view(rest[j].references@) == strings_view(of.fields@))
            };
            assert(rels[k + 1] == x);
            assert forall|j: int| 0 <= j < k + 1 implies !(strings_view((#[trigger] rels[j]).fields@) == strings_view(of.references@)
                && strings_view(rels[j].references@) == strings_view(of.fields@)) by {
                if j > 0 {
                    assert(rels[j] == rest[j - 1]);
                }
            }
        }
        if first_opposite(rels, of) is None {
            assert forall|j: int| 0 <= j < rels.len() implies !(strings_view((#[trigger] rels[j]).fields@) == strings_view(of.references@)
                && strings_view(rels[j].references@) == strings_view(of.fields@)) by {
                if j > 0 {
                    assert(rels[j] == rest[j - 1]);
                }
            }
        }
    }
}

/// A model put at a path is the model found at that path.
pub proof fn law_model_found_where_inserted<H, C, FD, PD, RD>(
    before: Namespace<H, C, FD, PD, RD>,
    after: Namespace<H, C, FD, PD, RD>,
    p: Seq<Seq<char>>,
    name: String,
    model: Model,
)
    requires
        p.len() >= 1,
        name@ == p.last(),
        before.updated_at(after, p.drop_last(), Change::Model(name, model)),
    ensures
        after.model_lookup(p) == Some(model),
{
}

/// Putting a model at a path leaves the model found at every other path as it was.
pub proof fn law_other_models_unchanged<H, C, FD, PD, RD>(
    before: Namespace<H, C, FD, PD, RD>,
    after: Namespace<H, C, FD, PD, RD>,
    p: Seq<Seq<char>>,
    name: String,
    model: Model,
    q: Seq<Seq<char>>,
)
    requires
        p.len() >= 1,
        name@ == p.last(),
        before.updated_at(after, p.drop_last(), Change::Model(name, model)),
        q.len() >= 1,
        q != p,
    ensures
        after.model_lookup(q) == before.model_lookup(q),
{
    let qd = q.drop_last();
    let pd = p.drop_last();
    if qd == pd {
        assert(q.last() != p.last()) by {
            if q.last() == p.last() {
                assert(q =~= qd.push(q.last()));
                assert(p =~= pd.push(p.last()));
            }
        }
    } else if before.ns_at(qd) is Some {
        assert(before.ns_at(qd)->0.same_content(after.ns_at(qd)->0));
    } else if after.ns_at(qd) is Some {
        assert(after.ns_at(qd)->0.is_blank());
    }
}

/// A handler put at a path outside any group is the handler found at that path.
pub proof fn law_handler_found_where_replaced<H, C, FD, PD, RD>(
    before: Namespace<H, C, FD, PD, RD>,
    after: Namespace<H, C, FD, PD, RD>,
    p: Seq<Seq<char>>,
    name: String,
    handler: H,
)
    requires
        p.len() >= 1,
        name@ == p.last(),
        before.updated_at(after, p.drop_last(), Change::Handler(name, handler)),
    ensures
        after.handler_lookup(p) == Some(handler),
{
}

/// A handler put at a path inside a group is the handler found at that path, where no
/// namespace was named like the group.
pub proof fn law_group_handler_found_where_replaced<H, C, FD, PD, RD>(
    before: Namespace<H, C, FD, PD, RD>,
    after: Namespace<H, C, FD, PD, RD>,
    p: Seq<Seq<char>>,
    group: String,
    name: String,
    handler: H,
)
    requires
        p.len() >= 2,
        group@ == p[p.len() - 2],
        name@ == p.last(),
        before.ns_at(p.drop_last()) is None,
        before.updated_at(after, p.take(p.len() - 2), Change::GroupHandler(group, name, handler)),
    ensures
        after.handler_lookup(p) == Some(handler),
{
    let pd = p.drop_last();
    let pt = p.take(p.len() - 2);
    assert(after.ns_at(pd) is None) by {
        if after.ns_at(pd) is Some {
            assert(pd.is_prefix_of(pt));
        }
    }
    let base = before.ns_at(pt);
    let n = after.ns_at(pt)->0;
    let g = group@;
    assert(groups_view(n.handler_groups).contains_key(g) == n.handler_groups@.contains_key(g));
    assert(groups_view(n.model_handler_groups).contains_key(g) == n.model_handler_groups@.contains_key(g));
    if n.handler_groups@.contains_key(g) {
        assert(groups_view(n.handler_groups)[g].1 == n.handler_groups@[g].handlers@);
    } else {
        assert(groups_view(n.model_handler_groups)[g].1 == n.model_handler_groups@[g].handlers@);
    }
}

/// A handler template put at a path is the handler template found at that path.
pub proof fn law_handler_template_found_where_replaced<H, C, FD, PD, RD>(
    before: Namespace<H, C, FD, PD, RD>,
    after: Namespace<H, C, FD, PD, RD>,
    p: Seq<Seq<char>>,
    name: String,
    template: H,
)
    requires
        p.len() >= 1,
        name@ == p.last(),
        before.updated_at(after, p.drop_last(), Change::HandlerTemplate(name, template)),
    ensures
        after.handler_template_lookup(p) == Some(template),
{
}

/// In a well-formed namespace, the path of each namespace is the path of the one above it
/// with its own name appended.
pub proof fn law_child_path_extends_parent<H, C, FD, PD, RD>(ns: Namespace<H, C, FD, PD, RD>, q: Seq<Seq<char>>, name: Seq<char>)
    requires
        ns.well_formed(),
        ns.ns_at(q.push(name)) is Some,
    ensures
        ns.ns_at(q) is Some,
        strings_view(ns.ns_at(q.push(name))->0.path@) == strings_view(ns.ns_at(q)->0.path@).push(name),
{
    ns.lemma_ns_at_push(q, name);
    assert(strings_view(ns.path@) + q.push(name) =~= (strings_view(ns.path@) + q).push(name));
}

/// Making the namespaces at a path that is already there changes nothing: the same namespaces
/// are there, holding the same.
pub proof fn law_create_existing_changes_nothing<H, C, FD, PD, RD>(
    before: Namespace<H, C, FD, PD, RD>,
    after: Namespace<H, C, FD, PD, RD>,
    p: Seq<Seq<char>>,
)
    requires
        before.ns_at(p) is Some,
        before.created_at(after, p),
    ensures
        forall|q: Seq<Seq<char>>|
            #![trigger before.ns_at(q)]
            #![trigger after.ns_at(q)]
            (before.ns_at(q) is Some) == (after.ns_at(q) is Some),
        forall|q: Seq<Seq<char>>| #[trigger] before.ns_at(q) is Some
            ==> before.ns_at(q)->0.same_content(after.ns_at(q)->0),
{
    assert forall|q: Seq<Seq<char>>|
        #![trigger before.ns_at(q)]
        #![trigger after.ns_at(q)]
        (before.ns_at(q) is Some) == (after.ns_at(q) is Some) by {
        if after.ns_at(q) is Some && before.ns_at(q) is None {
            assert(q.is_prefix_of(p));
            assert(p.take(q.len() as int) =~= q);
            before.lemma_ns_at_none_extends(q, p);
        }
    }
}

/// The namespace at a path that starts with a name is the one at the rest of the path below
/// the child of that name, and there is none where there is no such child.
proof fn lemma_ns_at_cons<H, C, FD, PD, RD>(ns: Namespace<H, C, FD, PD, RD>, c: Seq<char>, p: Seq<Seq<char>>)
    ensures
        ns.ns_at(seq![c] + p) == if ns.children().contains_key(c) { ns.children()[c].ns_at(p) } else { None },
{
    let q = seq![c] + p;
    assert(q[0] == c);
    assert(q.drop_first() =~= p);
}

/// A model, handler template or decorator is looked up by its path name by name: a path of one
/// name finds it among those of the namespace itself, and a longer path finds it at the rest
/// of the path below the child named by its first name (none where there is no such child).
pub proof fn law_lookup_by_path<H, C, FD, PD, RD>(
    ns: Namespace<H, C, FD, PD, RD>,
    c: Seq<char>,
    p: Seq<Seq<char>>,
    name: Seq<char>,
)
    ensures
        ns.model_lookup(seq![name]) == ns.models@.get(name),
        ns.handler_template_lookup(seq![name]) == ns.handler_templates@.get(name),
        ns.field_decorator_lookup(seq![name]) == ns.model_field_decorators@.get(name),
        ns.property_decorator_lookup(seq![name]) == ns.model_property_decorators@.get(name),
        ns.relation_decorator_lookup(seq![name]) == ns.model_relation_decorators@.get(name),
        p.len() >= 1 && ns.children().contains_key(c) ==> {
            let child = ns.children()[c];
            &&& ns.model_lookup(seq![c] + p) == child.model_lookup(p)
            &&& ns.handler_template_lookup(seq![c] + p) == child.handler_template_lookup(p)
            &&& ns.field_decorator_lookup(seq![c] + p) == child.field_decorator_lookup(p)
            &&& ns.property_decorator_lookup(seq![c] + p) == child.property_decorator_lookup(p)
            &&& ns.relation_decorator_lookup(seq![c] + p) == child.relation_decorator_lookup(p)
        },
        p.len() >= 1 && !ns.children().contains_key(c) ==> {
            &&& ns.model_lookup(seq![c] + p) is None
            &&& ns.handler_template_lookup(seq![c] + p) is None
            &&& ns.field_decorator_lookup(seq![c] + p) is None
            &&& ns.property_decorator_lookup(seq![c] + p) is None
            &&& ns.relation_decorator_lookup(seq![c] + p) is None
        },
{
    assert(seq![name].drop_last() =~= Seq::<Seq<char>>::empty());
    assert(seq![name].last() == name);
    if p.len() >= 1 {
        let q = seq![c] + p;
        assert(q.drop_last() =~= seq![c] + p.drop_last());
        assert(q.last() == p.last());
        lemma_ns_at_cons(ns, c, p.drop_last());
    }
}

/// A handler is looked up by its path name by name: a path of one name finds it among the
/// namespace's own handlers; a path of two names whose first names no child namespace finds
/// it in the handler group of that name, else in the model handler group of that name; and a
/// path of three or more names whose first names a child finds it at the rest of the path
/// below that child.
pub proof fn law_handler_lookup_by_path<H, C, FD, PD, RD>(
    ns: Namespace<H, C, FD, PD, RD>,
    c: Seq<char>,
    p: Seq<Seq<char>>,
    name: Seq<char>,
)
    ensures
        ns.handler_lookup(seq![name]) == ns.handlers@.get(name),
        !ns.children().contains_key(c) ==> ns.handler_lookup(seq![c, name]) == if ns.handler_groups@.contains_key(c) {
            ns.handler_groups@[c].handlers@.get(name)
        } else if ns.model_handler_groups@.contains_key(c) {
            ns.model_handler_groups@[c].handlers@.get(name)
        } else {
            None
        },
        p.len() >= 2 && ns.children().contains_key(c)
            ==> ns.handler_lookup(seq![c] + p) == ns.children()[c].handler_lookup(p),
{
    assert(seq![name].drop_last() =~= Seq::<Seq<char>>::empty());
    assert(seq![name].last() == name);
    let two = seq![c, name];
    assert(two.drop_last() =~= seq![c]);
    assert(two.take(0) =~= Seq::<Seq<char>>::empty());
    lemma_ns_at_cons(ns, c, Seq::empty());
    assert(seq![c] + Seq::<Seq<char>>::empty() =~= seq![c]);
    if p.len() >= 2 {
        let q = seq![c] + p;
        assert(q.drop_last() =~= seq![c] + p.drop_last());
        assert(q.last() == p.last());
        assert(q[q.len() - 2] == p[p.len() - 2]);
        assert(q.take(q.len() - 2) =~= seq![c] + p.take(p.len() - 2));
        lemma_ns_at_cons(ns, c, p.drop_last());
        lemma_ns_at_cons(ns, c, p.take(p.len() - 2));
    }
}

/// Namespaces that have a connector of their own keep their models out of those under the
/// connector of the namespace above: where every namespace directly below has one, the
/// models under this namespace's connector are its own models only; a namespace below
/// without a connector adds the models under it after those of the ones before it.
pub proof fn law_models_under_connector<H, C, FD, PD, RD>(ns: Namespace<H, C, FD, PD, RD>)
    ensures
        (forall|i: int| 0 <= i < ns.namespaces@.len() ==> (#[trigger] ns.namespaces@[i]).1.connector is Some)
            ==> ns.models_under_connector_spec() == ns.models.values(),
        ns.namespaces@.len() > 0 ==> Namespace::<H, C, FD, PD, RD>::entries_models_under_connector(ns.namespaces@)
            == Namespace::<H, C, FD, PD, RD>::entries_models_under_connector(ns.namespaces@.drop_last())
                + if ns.namespaces@.last().1.connector is None {
                    ns.namespaces@.last().1.models_under_connector_spec()
                } else {
                    Seq::empty()
                },
{
    if forall|i: int| 0 <= i < ns.namespaces@.len() ==> (#[trigger] ns.namespaces@[i]).1.connector is Some {
        lemma_connected_entries_add_nothing(ns.namespaces@);
        assert(ns.models.values() + Seq::empty() =~= ns.models.values());
    }
}

/// Namespaces that all have a connector of their own add no models under the connector above.
proof fn lemma_connected_entries_add_nothing<H, C, FD, PD, RD>(e: Seq<(String, Namespace<H, C, FD, PD, RD>)>)
    requires
        forall|i: int| 0 <= i < e.len() ==> (#[trigger] e[i]).1.connector is Some,
    ensures
        Namespace::<H, C, FD, PD, RD>::entries_models_under_connector(e) == Seq::<Model>::empty(),
    decreases e.len(),
{
    if e.len() > 0 {
        assert forall|i: int| 0 <= i < e.drop_last().len() implies (#[trigger] e.drop_last()[i]).1.connector is Some by {
            assert(e.drop_last()[i] == e[i]);
        }
        lemma_connected_entries_add_nothing(e.drop_last());
        assert(e.last() == e[e.len() - 1]);
        assert(Seq::<Model>::empty() + Seq::<Model>::empty() =~= Seq::<Model>::empty());
    }
}

} // verus!
