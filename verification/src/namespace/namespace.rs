use vstd::prelude::*;
use crate::model::Model;
use crate::model::field::decorator::Decorator as FieldDecorator;
use crate::model::property::decorator::Decorator as PropertyDecorator;
use crate::model::relation::decorator::Decorator as RelationDecorator;
use crate::name_map::{NameMap, entries_map, sorted_entries, sorted_get, sorted_insert, sorted_remove};
use crate::namespace::group::{HandlerGroup, GroupView, groups_view};
use crate::utils::{str_eq, strings_view, clone_prefix, next_path, spec_next_path};

verus! {

/// A namespace of the schema: its models, handlers, handler groups and decorators, and the
/// namespaces nested in it. `H` is the handler type, `C` the connector configuration type, and
/// `FD`, `PD` and `RD` the types of what the decorators of model fields, properties and
/// relations do.
#[derive(Debug)]
pub struct Namespace<H, C, FD, PD, RD> {
    pub path: Vec<String>,
    pub namespaces: Vec<(String, Namespace<H, C, FD, PD, RD>)>,
    pub models: NameMap<Model>,
    pub handlers: NameMap<H>,
    pub handler_templates: NameMap<H>,
    pub handler_groups: NameMap<HandlerGroup<H>>,
    pub model_handler_groups: NameMap<HandlerGroup<H>>,
    pub connector: Option<C>,
    pub connector_reference: Option<Vec<String>>,
    pub model_opposite_relations_map: Vec<(Vec<String>, Vec<(Vec<String>, String)>)>,
    pub model_field_decorators: NameMap<FieldDecorator<FD>>,
    pub model_property_decorators: NameMap<PropertyDecorator<PD>>,
    pub model_relation_decorators: NameMap<RelationDecorator<RD>>,
}

impl<H, C, FD, PD, RD> Namespace<H, C, FD, PD, RD> {
    /// The namespaces directly below this one, under their names.
    pub open spec fn children(self) -> Map<Seq<char>, Namespace<H, C, FD, PD, RD>> {
        entries_map(self.namespaces@)
    }

    /// The namespace at `path` below this one: this one for the empty path, else the one at
    /// the rest of the path below the child named by its first name.
    pub open spec fn ns_at(self, path: Seq<Seq<char>>) -> Option<Namespace<H, C, FD, PD, RD>>
        decreases path.len(),
    {
        if path.len() == 0 {
            Some(self)
        } else if self.children().contains_key(path[0]) {
            self.children()[path[0]].ns_at(path.drop_first())
        } else {
            None
        }
    }

    /// Every namespace below this one keeps its children sorted by name, and has this one's
    /// path extended by the names that lead to it.
    pub open spec fn well_formed(self) -> bool {
        forall|p: Seq<Seq<char>>| #[trigger] self.ns_at(p) is Some
            ==> strings_view(self.ns_at(p)->0.path@) == strings_view(self.path@) + p
                && sorted_entries(self.ns_at(p)->0.namespaces@)
    }

    /// Whether `self` and `other` hold the same things, apart from the namespaces below them.
    pub open spec fn same_content(self, other: Self) -> bool {
        &&& strings_view(self.path@) == strings_view(other.path@)
        &&& self.models@ == other.models@
        &&& self.handlers@ == other.handlers@
        &&& self.handler_templates@ == other.handler_templates@
        &&& groups_view(self.handler_groups) == groups_view(other.handler_groups)
        &&& groups_view(self.model_handler_groups) == groups_view(other.model_handler_groups)
        &&& self.connector == other.connector
        &&& self.connector_reference == other.connector_reference
        &&& self.model_opposite_relations_map == other.model_opposite_relations_map
        &&& self.model_field_decorators@ == other.model_field_decorators@
        &&& self.model_property_decorators@ == other.model_property_decorators@
        &&& self.model_relation_decorators@ == other.model_relation_decorators@
    }

    /// Whether the namespace holds nothing of its own: no model, handler, handler template or
    /// handler group, and no connector.
    pub open spec fn is_blank(self) -> bool {
        &&& self.models@ == Map::<Seq<char>, Model>::empty()
        &&& self.handlers@ == Map::<Seq<char>, H>::empty()
        &&& self.handler_templates@ == Map::<Seq<char>, H>::empty()
        &&& groups_view(self.handler_groups) == Map::<Seq<char>, GroupView<H>>::empty()
        &&& groups_view(self.model_handler_groups) == Map::<Seq<char>, GroupView<H>>::empty()
        &&& self.connector is None
        &&& self.connector_reference is None
        &&& self.model_opposite_relations_map@.len() == 0
        &&& self.model_field_decorators@ == Map::<Seq<char>, FieldDecorator<FD>>::empty()
        &&& self.model_property_decorators@ == Map::<Seq<char>, PropertyDecorator<PD>>::empty()
        &&& self.model_relation_decorators@ == Map::<Seq<char>, RelationDecorator<RD>>::empty()
    }

    /// A step further down: the namespace at `path` extended by `name` is the child `name`
    /// of the namespace at `path`.
    pub proof fn lemma_ns_at_push(self, path: Seq<Seq<char>>, name: Seq<char>)
        ensures
            self.ns_at(path.push(name)) == (match self.ns_at(path) {
                Some(n) => if n.children().contains_key(name) {
                    Some(n.children()[name])
                } else {
                    None
                },
                None => None,
            }),
        decreases path.len(),
    {
        if path.len() == 0 {
            assert(path.push(name).drop_first() =~= Seq::<Seq<char>>::empty());
            assert(path.push(name)[0] == name);
            if self.children().contains_key(name) {
                assert(self.children()[name].ns_at(Seq::<Seq<char>>::empty()) == Some(self.children()[name]));
            }
        } else {
            assert(path.push(name)[0] == path[0]);
            assert(path.push(name).drop_first() =~= path.drop_first().push(name));
            if self.children().contains_key(path[0]) {
                self.children()[path[0]].lemma_ns_at_push(path.drop_first(), name);
            }
        }
    }

    /// The namespace at `p` extended by `q` is the namespace at `q` below the namespace at `p`.
    pub proof fn lemma_ns_at_concat(self, p: Seq<Seq<char>>, q: Seq<Seq<char>>)
        requires
            self.ns_at(p) is Some,
        ensures
            self.ns_at(p + q) == self.ns_at(p)->0.ns_at(q),
        decreases p.len(),
    {
        if p.len() > 0 {
            assert((p + q)[0] == p[0]);
            assert((p + q).drop_first() =~= p.drop_first() + q);
            self.children()[p[0]].lemma_ns_at_concat(p.drop_first(), q);
        } else {
            assert(p + q =~= q);
        }
    }

    /// A namespace below a well-formed namespace is well-formed.
    pub proof fn lemma_well_formed_below(self, p: Seq<Seq<char>>)
        requires
            self.well_formed(),
            self.ns_at(p) is Some,
        ensures
            self.ns_at(p)->0.well_formed(),
    {
        let n = self.ns_at(p)->0;
        assert(strings_view(n.path@) == strings_view(self.path@) + p);
        assert forall|q: Seq<Seq<char>>| #[trigger] n.ns_at(q) is Some
            implies strings_view(n.ns_at(q)->0.path@) == strings_view(n.path@) + q
                && sorted_entries(n.ns_at(q)->0.namespaces@) by {
            self.lemma_ns_at_concat(p, q);
            assert(self.ns_at(p + q) is Some);
            assert(strings_view(self.path@) + (p + q) =~= strings_view(self.path@) + p + q);
        }
    }

    /// An empty namespace at `path`.
    pub(crate) fn new(path: Vec<String>) -> (r: Self)
        ensures
            r.path == path,
            r.children() == Map::<Seq<char>, Namespace<H, C, FD, PD, RD>>::empty(),
            r.models@ == Map::<Seq<char>, Model>::empty(),
            r.handlers@ == Map::<Seq<char>, H>::empty(),
            r.handler_templates@ == Map::<Seq<char>, H>::empty(),
            r.handler_groups@ == Map::<Seq<char>, HandlerGroup<H>>::empty(),
            r.model_handler_groups@ == Map::<Seq<char>, HandlerGroup<H>>::empty(),
            r.connector is None,
            r.connector_reference is None,
            r.is_blank(),
            r.well_formed(),
    {
        let r = Namespace {
            path,
            namespaces: Vec::new(),
            models: NameMap::new(),
            handlers: NameMap::new(),
            handler_templates: NameMap::new(),
            handler_groups: NameMap::new(),
            model_handler_groups: NameMap::new(),
            connector: None,
            connector_reference: None,
            model_opposite_relations_map: Vec::new(),
            model_field_decorators: NameMap::new(),
            model_property_decorators: NameMap::new(),
            model_relation_decorators: NameMap::new(),
        };
        assert(r.children() =~= Map::<Seq<char>, Namespace<H, C, FD, PD, RD>>::empty());
        assert(groups_view(r.handler_groups) =~= Map::<Seq<char>, GroupView<H>>::empty());
        assert(groups_view(r.model_handler_groups) =~= Map::<Seq<char>, GroupView<H>>::empty());
        assert forall|p: Seq<Seq<char>>| #[trigger] r.ns_at(p) is Some
            implies strings_view(r.ns_at(p)->0.path@) == strings_view(r.path@) + p
                && sorted_entries(r.ns_at(p)->0.namespaces@) by {
            if p.len() > 0 {
                assert(!r.children().contains_key(p[0]));
            } else {
                assert(strings_view(r.path@) + p =~= strings_view(r.path@));
            }
        }
        r
    }

    /// The main namespace: the root, with an empty path.
    pub fn main() -> (r: Self)
        ensures
            r.path@.len() == 0,
            r.children() == Map::<Seq<char>, Namespace<H, C, FD, PD, RD>>::empty(),
            r.models@ == Map::<Seq<char>, Model>::empty(),
            r.handlers@ == Map::<Seq<char>, H>::empty(),
            r.connector is None,
            r.well_formed(),
    {
        Self::new(Vec::new())
    }

    /// Whether this is the main namespace.
    pub fn is_main(&self) -> (r: bool)
        ensures
            r == (self.path@.len() == 0),
    {
        self.path.len() == 0
    }

    /// Whether this is the standard library's namespace, `std` below the main one.
    pub fn is_std(&self) -> (r: bool)
        ensures
            r == (strings_view(self.path@) == seq!["std"@]),
    {
        proof {
            reveal_strlit("std");
        }
        if self.path.len() == 1 {
            let r = str_eq(self.path[0].as_str(), "std");
            assert(r ==> strings_view(self.path@) =~= seq!["std"@]);
            assert(strings_view(self.path@) == seq!["std"@] ==> strings_view(self.path@)[0] == "std"@);
            r
        } else {
            assert(strings_view(self.path@).len() != 1);
            false
        }
    }

    /// The path of the namespace.
    pub fn path(&self) -> (r: &Vec<String>)
        ensures
            *r == self.path,
    {
        &self.path
    }

    /// The name of the namespace: `main` for the main one, else the last name of its path.
    pub fn name(&self) -> (r: &str)
        ensures
            r@ == (if self.path@.len() == 0 { "main"@ } else { self.path@.last()@ }),
    {
        if self.path.len() == 0 {
            "main"
        } else {
            self.path[self.path.len() - 1].as_str()
        }
    }

    /// The namespace named `name` directly below this one.
    pub fn namespace(&self, name: &str) -> (r: Option<&Namespace<H, C, FD, PD, RD>>)
        requires
            self.well_formed(),
        ensures
            match r {
                Some(n) => self.children().contains_key(name@) && *n == self.children()[name@],
                None => !self.children().contains_key(name@),
            },
    {
        assert(self.ns_at(Seq::empty()) is Some);
        sorted_get(&self.namespaces, name)
    }

    /// The namespace at `path` below this one.
    pub fn namespace_at_path(&self, path: &Vec<String>) -> (r: Option<&Namespace<H, C, FD, PD, RD>>)
        requires
            self.well_formed(),
        ensures
            r == (match self.ns_at(strings_view(path@)) {
                Some(n) => Some(&n),
                None => None::<&Namespace<H, C, FD, PD, RD>>,
            }),
    {
        assert(strings_view(path@).take(path@.len() as int) =~= strings_view(path@));
        self.namespace_at_prefix(path, path.len())
    }

    /// The namespace at the first `count` names of `path` below this one.
    pub(crate) fn namespace_at_prefix(&self, path: &Vec<String>, count: usize) -> (r: Option<&Namespace<H, C, FD, PD, RD>>)
        requires
            self.well_formed(),
            count <= path@.len(),
        ensures
            r == (match self.ns_at(strings_view(path@).take(count as int)) {
                Some(n) => Some(&n),
                None => None::<&Namespace<H, C, FD, PD, RD>>,
            }),
    {
        let ghost p = strings_view(path@);
        let mut current: &Namespace<H, C, FD, PD, RD> = self;
        let mut i: usize = 0;
        assert(p.take(0) =~= Seq::<Seq<char>>::empty());
        while i < count
            invariant
                self.well_formed(),
                current.well_formed(),
                count <= path@.len(),
                p == strings_view(path@),
                i <= count,
                self.ns_at(p.take(i as int)) == Some(*current),
            decreases count - i,
        {
            proof {
                self.lemma_ns_at_push(p.take(i as int), p[i as int]);
                assert(p.take(i as int).push(p[i as int]) =~= p.take(i + 1));
            }
            match current.namespace(path[i].as_str()) {
                Some(n) => {
                    proof {
                        self.lemma_well_formed_below(p.take(i + 1));
                    }
                    current = n;
                },
                None => {
                    proof {
                        assert forall|j: int| i + 1 <= j <= count implies #[trigger] self.ns_at(p.take(j)) is None by {
                            assert(p.take(j).take(i + 1) =~= p.take(i + 1));
                            self.lemma_ns_at_none_extends(p.take(i + 1), p.take(j));
                        }
                    }
                    return None;
                },
            }
            i = i + 1;
        }
        Some(current)
    }

    /// Below a path with no namespace there is no namespace at any longer path.
    pub proof fn lemma_ns_at_none_extends(self, path: Seq<Seq<char>>, longer: Seq<Seq<char>>)
        requires
            self.ns_at(path) is None,
            path.len() <= longer.len(),
            longer.take(path.len() as int) == path,
        ensures
            self.ns_at(longer) is None,
        decreases path.len(),
    {
        if path.len() > 0 {
            assert(longer[0] == path[0]);
            if self.children().contains_key(path[0]) {
                assert(longer.drop_first().take(path.drop_first().len() as int) =~= path.drop_first());
                self.children()[path[0]].lemma_ns_at_none_extends(path.drop_first(), longer.drop_first());
            }
        }
    }
}

} // verus!
