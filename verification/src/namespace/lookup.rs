use vstd::prelude::*;
use crate::model::Model;
use crate::model::field::decorator::Decorator as FieldDecorator;
use crate::model::property::decorator::Decorator as PropertyDecorator;
use crate::model::relation::decorator::Decorator as RelationDecorator;
use crate::name_map::NameMap;
use crate::namespace::group::HandlerGroup;
use crate::namespace::namespace::Namespace;
use crate::utils::strings_view;

verus! {

impl<H, C, FD, PD, RD> Namespace<H, C, FD, PD, RD> {
    /// The model at `p`: the model named by the last name of `p` in the namespace at the names
    /// before it.
    pub open spec fn model_lookup(self, p: Seq<Seq<char>>) -> Option<Model> {
        match self.ns_at(p.drop_last()) {
            Some(n) => n.models@.get(p.last()),
            None => None,
        }
    }

    /// The handler template at `p`: the template named by the last name of `p` in the namespace
    /// at the names before it.
    pub open spec fn handler_template_lookup(self, p: Seq<Seq<char>>) -> Option<H> {
        match self.ns_at(p.drop_last()) {
            Some(n) => n.handler_templates@.get(p.last()),
            None => None,
        }
    }

    /// The handler at `p`: the handler named by the last name of `p` in the namespace at the
    /// names before it; where there is no such namespace, the handler of that name in the group
    /// named by the name before it (a handler group first, then a model handler group) of the
    /// namespace at the names before that.
    pub open spec fn handler_lookup(self, p: Seq<Seq<char>>) -> Option<H> {
        match self.ns_at(p.drop_last()) {
            Some(n) => n.handlers@.get(p.last()),
            None => if p.len() < 2 {
                None
            } else {
                let group = p[p.len() - 2];
                match self.ns_at(p.take(p.len() - 2)) {
                    Some(n) => if n.handler_groups@.contains_key(group) {
                        n.handler_groups@[group].handlers@.get(p.last())
                    } else if n.model_handler_groups@.contains_key(group) {
                        n.model_handler_groups@[group].handlers@.get(p.last())
                    } else {
                        None
                    },
                    None => None,
                }
            },
        }
    }

    /// The model field decorator at `p`: the one named by the last name of `p` in the namespace
    /// at the names before it.
    pub open spec fn field_decorator_lookup(self, p: Seq<Seq<char>>) -> Option<FieldDecorator<FD>> {
        match self.ns_at(p.drop_last()) {
            Some(n) => n.model_field_decorators@.get(p.last()),
            None => None,
        }
    }

    /// The model property decorator at `p`: the one named by the last name of `p` in the
    /// namespace at the names before it.
    pub open spec fn property_decorator_lookup(self, p: Seq<Seq<char>>) -> Option<PropertyDecorator<PD>> {
        match self.ns_at(p.drop_last()) {
            Some(n) => n.model_property_decorators@.get(p.last()),
            None => None,
        }
    }

    /// The model relation decorator at `p`: the one named by the last name of `p` in the
    /// namespace at the names before it.
    pub open spec fn relation_decorator_lookup(self, p: Seq<Seq<char>>) -> Option<RelationDecorator<RD>> {
        match self.ns_at(p.drop_last()) {
            Some(n) => n.model_relation_decorators@.get(p.last()),
            None => None,
        }
    }

    /// The model at `path`: the one named by its last name in the namespace at the names
    /// before it.
    pub fn model_at_path(&self, path: &Vec<String>) -> (r: Option<&Model>)
        requires
            self.well_formed(),
            path@.len() >= 1,
        ensures
            match r {
                Some(m) => self.model_lookup(strings_view(path@)) == Some(*m),
                None => self.model_lookup(strings_view(path@)) is None,
            },
    {
        let last = path.len() - 1;
        assert(strings_view(path@).take(last as int) =~= strings_view(path@).drop_last());
        match self.namespace_at_prefix(path, last) {
            Some(ns) => ns.models.get(path[last].as_str()),
            None => None,
        }
    }

    /// The handler template at `path`: the one named by its last name in the namespace at the
    /// names before it.
    pub fn handler_template_at_path(&self, path: &Vec<String>) -> (r: Option<&H>)
        requires
            self.well_formed(),
            path@.len() >= 1,
        ensures
            match r {
                Some(h) => self.handler_template_lookup(strings_view(path@)) == Some(*h),
                None => self.handler_template_lookup(strings_view(path@)) is None,
            },
    {
        let last = path.len() - 1;
        assert(strings_view(path@).take(last as int) =~= strings_view(path@).drop_last());
        if path.len() == 1 {
            assert(self.ns_at(Seq::empty()) == Some(*self));
            self.handler_templates.get(path[0].as_str())
        } else {
            match self.namespace_at_prefix(path, last) {
                Some(ns) => ns.handler_templates.get(path[last].as_str()),
                None => None,
            }
        }
    }

    /// The handler at `path`: the one named by its last name in the namespace at the names
    /// before it or, where there is no such namespace, in the group named by the name before
    /// it.
    pub fn handler_at_path(&self, path: &Vec<String>) -> (r: Option<&H>)
        requires
            self.well_formed(),
            path@.len() >= 1,
        ensures
            match r {
                Some(h) => self.handler_lookup(strings_view(path@)) == Some(*h),
                None => self.handler_lookup(strings_view(path@)) is None,
            },
    {
        let ghost p = strings_view(path@);
        let last = path.len() - 1;
        assert(p.take(last as int) =~= p.drop_last());
        if path.len() == 1 {
            assert(self.ns_at(Seq::empty()) == Some(*self));
            return self.handlers.get(path[0].as_str());
        }
        match self.namespace_at_prefix(path, last) {
            Some(ns) => ns.handlers.get(path[last].as_str()),
            None => {
                let group_name = path[last - 1].as_str();
                assert(p[p.len() - 2] == group_name@);
                match self.namespace_at_prefix(path, last - 1) {
                    Some(ns) => {
                        match ns.handler_groups.get(group_name) {
                            Some(group) => group.handler(path[last].as_str()),
                            None => match ns.model_handler_groups.get(group_name) {
                                Some(group) => group.handler(path[last].as_str()),
                                None => None,
                            },
                        }
                    },
                    None => None,
                }
            },
        }
    }

    /// Where the connector of this namespace is defined, if it refers to one.
    pub fn connector_reference(&self) -> (r: Option<&Vec<String>>)
        ensures
            r == (match self.connector_reference {
                Some(v) => Some(&v),
                None => None::<&Vec<String>>,
            }),
    {
        self.connector_reference.as_ref()
    }

    /// The namespaces directly below this one, with their names, in the order of their names.
    pub fn namespaces(&self) -> (r: &Vec<(String, Namespace<H, C, FD, PD, RD>)>)
        ensures
            *r == self.namespaces,
    {
        &self.namespaces
    }

    /// The models of this namespace.
    pub fn models(&self) -> (r: &NameMap<Model>)
        ensures
            *r == self.models,
    {
        &self.models
    }

    /// The handlers of this namespace.
    pub fn handlers(&self) -> (r: &NameMap<H>)
        ensures
            *r == self.handlers,
    {
        &self.handlers
    }

    /// The handler templates of this namespace.
    pub fn handler_templates(&self) -> (r: &NameMap<H>)
        ensures
            *r == self.handler_templates,
    {
        &self.handler_templates
    }

    /// The handler groups of this namespace.
    pub fn handler_groups(&self) -> (r: &NameMap<HandlerGroup<H>>)
        ensures
            *r == self.handler_groups,
    {
        &self.handler_groups
    }

    /// The model handler groups of this namespace.
    pub fn model_handler_groups(&self) -> (r: &NameMap<HandlerGroup<H>>)
        ensures
            *r == self.model_handler_groups,
    {
        &self.model_handler_groups
    }

    /// The connector of this namespace, if it has one of its own.
    pub fn connector(&self) -> (r: Option<&C>)
        ensures
            r == (match self.connector {
                Some(c) => Some(&c),
                None => None::<&C>,
            }),
    {
        self.connector.as_ref()
    }

    /// The model named `name` in this namespace.
    pub fn model(&self, name: &str) -> (r: Option<&Model>)
        ensures
            (match r {
                Some(m) => Some(*m),
                None => None,
            }) == self.models@.get(name@),
    {
        self.models.get(name)
    }

    /// The handler named `name` in this namespace.
    pub fn handler(&self, name: &str) -> (r: Option<&H>)
        ensures
            (match r {
                Some(h) => Some(*h),
                None => None,
            }) == self.handlers@.get(name@),
    {
        self.handlers.get(name)
    }

    /// The handler template named `name` in this namespace.
    pub fn handler_template(&self, name: &str) -> (r: Option<&H>)
        ensures
            (match r {
                Some(h) => Some(*h),
                None => None,
            }) == self.handler_templates@.get(name@),
    {
        self.handler_templates.get(name)
    }

    /// The handler group named `name` in this namespace.
    pub fn handler_group(&self, name: &str) -> (r: Option<&HandlerGroup<H>>)
        ensures
            (match r {
                Some(g) => Some(*g),
                None => None,
            }) == self.handler_groups@.get(name@),
    {
        self.handler_groups.get(name)
    }

    /// The model handler group named `name` in this namespace.
    pub fn model_handler_group(&self, name: &str) -> (r: Option<&HandlerGroup<H>>)
        ensures
            (match r {
                Some(g) => Some(*g),
                None => None,
            }) == self.model_handler_groups@.get(name@),
    {
        self.model_handler_groups.get(name)
    }

    /// The namespace named `name` directly below this one.
    pub fn child_namespace(&self, name: &str) -> (r: Option<&Namespace<H, C, FD, PD, RD>>)
        requires
            self.well_formed(),
        ensures
            (match r {
                Some(n) => Some(*n),
                None => None,
            }) == self.ns_at(seq![name@]),
    {
        assert(seq![name@].drop_first() =~= Seq::<Seq<char>>::empty());
        let r = self.namespace(name);
        proof {
            if let Some(n) = r {
                assert(n.ns_at(Seq::<Seq<char>>::empty()) == Some(*n));
            }
        }
        r
    }

    /// The namespace at `path` below this one.
    pub fn descendant_namespace_at_path(&self, path: &Vec<String>) -> (r: Option<&Namespace<H, C, FD, PD, RD>>)
        requires
            self.well_formed(),
        ensures
            (match r {
                Some(n) => Some(*n),
                None => None,
            }) == self.ns_at(strings_view(path@)),
    {
        self.namespace_at_path(path)
    }

    /// The model field decorator at `path`: the one named by its last name in the namespace at
    /// the names before it.
    pub fn model_field_decorator_at_path(&self, path: &Vec<String>) -> (r: Option<&FieldDecorator<FD>>)
        requires
            self.well_formed(),
            path@.len() >= 1,
        ensures
            (match r {
                Some(d) => Some(*d),
                None => None,
            }) == self.field_decorator_lookup(strings_view(path@)),
    {
        let last = path.len() - 1;
        assert(strings_view(path@).take(last as int) =~= strings_view(path@).drop_last());
        match self.namespace_at_prefix(path, last) {
            Some(ns) => ns.model_field_decorators.get(path[last].as_str()),
            None => None,
        }
    }

    /// The model field decorators of this namespace.
    pub fn model_field_decorators(&self) -> (r: &NameMap<FieldDecorator<FD>>)
        ensures
            *r == self.model_field_decorators,
    {
        &self.model_field_decorators
    }

    /// The model property decorator at `path`: the one named by its last name in the namespace at
    /// the names before it.
    pub fn model_property_decorator_at_path(&self, path: &Vec<String>) -> (r: Option<&PropertyDecorator<PD>>)
        requires
            self.well_formed(),
            path@.len() >= 1,
        ensures
            (match r {
                Some(d) => Some(*d),
                None => None,
            }) == self.property_decorator_lookup(strings_view(path@)),
    {
        let last = path.len() - 1;
        assert(strings_view(path@).take(last as int) =~= strings_view(path@).drop_last());
        match self.namespace_at_prefix(path, last) {
            Some(ns) => ns.model_property_decorators.get(path[last].as_str()),
            None => None,
        }
    }

    /// The model property decorators of this namespace.
    pub fn model_property_decorators(&self) -> (r: &NameMap<PropertyDecorator<PD>>)
        ensures
            *r == self.model_property_decorators,
    {
        &self.model_property_decorators
    }

    /// The model relation decorator at `path`: the one named by its last name in the namespace at
    /// the names before it.
    pub fn model_relation_decorator_at_path(&self, path: &Vec<String>) -> (r: Option<&RelationDecorator<RD>>)
        requires
            self.well_formed(),
            path@.len() >= 1,
        ensures
            (match r {
                Some(d) => Some(*d),
                None => None,
            }) == self.relation_decorator_lookup(strings_view(path@)),
    {
        let last = path.len() - 1;
        assert(strings_view(path@).take(last as int) =~= strings_view(path@).drop_last());
        match self.namespace_at_prefix(path, last) {
            Some(ns) => ns.model_relation_decorators.get(path[last].as_str()),
            None => None,
        }
    }

    /// The model relation decorators of this namespace.
    pub fn model_relation_decorators(&self) -> (r: &NameMap<RelationDecorator<RD>>)
        ensures
            *r == self.model_relation_decorators,
    {
        &self.model_relation_decorators
    }
}

} // verus!
