use vstd::prelude::*;
use crate::model::Model;
use crate::model::field::decorator::Decorator as FieldDecorator;
use crate::model::property::decorator::Decorator as PropertyDecorator;
use crate::model::relation::decorator::Decorator as RelationDecorator;
use crate::name_map::{sorted_insert, sorted_remove};
use crate::namespace::group::{HandlerGroup, GroupView, groups_view};
use crate::namespace::namespace::Namespace;
use crate::utils::{strings_view, next_path, clone_prefix};

verus! {

/// A change to what one namespace holds of its own.
pub enum Change<H> {
    /// The model is put under the name, replacing a model of that name.
    Model(String, Model),
    /// The handler is put under the name, replacing a handler of that name.
    Handler(String, H),
    /// The handler template is put under the name, replacing a template of that name.
    HandlerTemplate(String, H),
    /// The handler is put under the name (the second string) in the group named by the first
    /// string: a handler group of that name, else a model handler group of that name, else a
    /// new, empty model handler group made for it.
    GroupHandler(String, String, H),
    /// A new, empty handler group is put under the name, replacing a group of that name.
    HandlerGroup(String),
    /// A new, empty model handler group is put under the name, replacing a group of that name.
    ModelHandlerGroup(String),
    /// The map from model paths to the relations that other models hold to them is replaced.
    OppositeRelationsMap(Vec<(Vec<String>, Vec<(Vec<String>, String)>)>),
}

/// The map of groups `m` with `handler` put under `name` in the group `group`, if there is one.
pub open spec fn group_map_insert<H>(
    m: Map<Seq<char>, GroupView<H>>,
    group: Seq<char>,
    name: Seq<char>,
    handler: H,
) -> Map<Seq<char>, GroupView<H>> {
    if m.contains_key(group) {
        m.insert(group, (m[group].0, m[group].1.insert(name, handler)))
    } else {
        m
    }
}

impl<H, C, FD, PD, RD> Namespace<H, C, FD, PD, RD> {
    /// `new` is `self` with the namespaces at `p` and above made where they were missing:
    /// it is well-formed, every namespace of `self` is still there with the same content,
    /// every namespace that was not there is blank and on the way to `p`, and there is a
    /// namespace at `p`.
    pub open spec fn created_at(self, new: Self, p: Seq<Seq<char>>) -> bool {
        &&& new.well_formed()
        &&& forall|q: Seq<Seq<char>>| #[trigger] self.ns_at(q) is Some
            ==> new.ns_at(q) is Some && self.ns_at(q)->0.same_content(new.ns_at(q)->0)
        &&& forall|q: Seq<Seq<char>>| #[trigger] new.ns_at(q) is Some && self.ns_at(q) is None
            ==> q.is_prefix_of(p) && new.ns_at(q)->0.is_blank()
        &&& new.ns_at(p) is Some
    }

    /// Makes the namespaces at the names of `path` from position `i` on, below this one, where
    /// they are missing.
    fn make_path(&mut self, path: &Vec<String>, i: usize)
        requires
            old(self).well_formed(),
            i <= path@.len(),
        ensures
            old(self).created_at(*final(self), strings_view(path@).skip(i as int)),
        decreases path@.len() - i,
    {
        let ghost r = strings_view(path@).skip(i as int);
        let ghost o = *self;
        if i < path.len() {
            let ghost name = path@[i as int]@;
            assert(r[0] == name);
            assert(r.drop_first() =~= strings_view(path@).skip(i + 1));
            let removed = sorted_remove(&mut self.namespaces, path[i].as_str());
            let ghost existed = removed is Some;
            let mut child = match removed {
                Some(c) => {
                    proof {
                        assert(o.ns_at(seq![name]) == Some(c)) by {
                            assert(seq![name][0] == name);
                            assert(seq![name].drop_first() =~= Seq::<Seq<char>>::empty());
                            assert(o.children().contains_key(name));
                            assert(c.ns_at(Seq::<Seq<char>>::empty()) == Some(c));
                        }
                        o.lemma_well_formed_below(seq![name]);
                        assert(strings_view(c.path@) == strings_view(o.path@) + seq![name]);
                    }
                    c
                },
                None => {
                    let c = Namespace::new(next_path(&self.path, path[i].as_str()));
                    proof {
                        assert(strings_view(c.path@) == strings_view(o.path@) + seq![name]);
                    }
                    c
                },
            };
            let ghost c0 = child;
            child.make_path(path, i + 1);
            let ghost c1 = child;
            sorted_insert(&mut self.namespaces, path[i].clone(), child);
            proof {
                let f = *self;
                assert(f.children() =~= o.children().insert(name, c1));
                assert(c0.ns_at(Seq::empty()) is Some);
                assert(strings_view(c1.path@) == strings_view(c0.path@));
                self.lemma_created_at_step(o, c0, c1, name, r, existed);
            }
        } else {
            proof {
                assert(r =~= Seq::<Seq<char>>::empty());
                assert forall|q: Seq<Seq<char>>| #[trigger] o.ns_at(q) is Some
                    implies o.ns_at(q)->0.same_content(o.ns_at(q)->0) by {}
            }
        }
    }

    /// The step of `make_path`: `self` is `o` with its child `name` replaced by `c1`, made from
    /// `c0` (the former child, or a blank namespace where there was none).
    proof fn lemma_created_at_step(
        self,
        o: Self,
        c0: Self,
        c1: Self,
        name: Seq<char>,
        r: Seq<Seq<char>>,
        existed: bool,
    )
        requires
            o.well_formed(),
            r.len() > 0,
            r[0] == name,
            self.children() == o.children().insert(name, c1),
            sorted_entries_of(self),
            strings_view(self.path@) == strings_view(o.path@),
            self.models == o.models,
            self.handlers == o.handlers,
            self.handler_templates == o.handler_templates,
            self.handler_groups == o.handler_groups,
            self.model_handler_groups == o.model_handler_groups,
            self.connector == o.connector,
            self.connector_reference == o.connector_reference,
            self.model_opposite_relations_map == o.model_opposite_relations_map,
            self.model_field_decorators == o.model_field_decorators,
            self.model_property_decorators == o.model_property_decorators,
            self.model_relation_decorators == o.model_relation_decorators,
            existed ==> o.children().contains_key(name) && o.children()[name] == c0,
            !existed ==> !o.children().contains_key(name) && c0.is_blank()
                && c0.children() == Map::<Seq<char>, Self>::empty(),
            strings_view(c0.path@) == strings_view(o.path@) + seq![name],
            c0.created_at(c1, r.drop_first()),
            c0.well_formed(),
        ensures
            o.created_at(self, r),
    {
        assert(self.ns_at(Seq::empty()) == Some(self));
        assert(o.ns_at(Seq::empty()) == Some(o));
        assert(c1.ns_at(Seq::empty()) is Some);
        assert(c0.ns_at(Seq::empty()) is Some);
        // the namespaces of `self`, by where they come from
        assert forall|q: Seq<Seq<char>>| q.len() > 0 && q[0] == name
            implies #[trigger] self.ns_at(q) == c1.ns_at(q.drop_first()) by {}
        assert forall|q: Seq<Seq<char>>| q.len() > 0 && q[0] != name
            implies #[trigger] self.ns_at(q) == o.ns_at(q) by {}
        assert forall|q: Seq<Seq<char>>| q.len() > 0 && q[0] == name && existed
            implies #[trigger] o.ns_at(q) == c0.ns_at(q.drop_first()) by {}
        // well-formed
        assert forall|q: Seq<Seq<char>>| #[trigger] self.ns_at(q) is Some
            implies strings_view(self.ns_at(q)->0.path@) == strings_view(self.path@) + q
                && crate::name_map::sorted_entries(self.ns_at(q)->0.namespaces@) by {
            if q.len() == 0 {
                assert(strings_view(self.path@) + q =~= strings_view(self.path@));
            } else if q[0] == name {
                let q1 = q.drop_first();
                assert(c1.ns_at(q1) is Some);
                assert(strings_view(c1.ns_at(q1)->0.path@) == strings_view(c1.path@) + q1);
                assert(strings_view(c1.path@) == strings_view(c0.path@));
                assert(q =~= seq![name] + q1);
                assert(strings_view(o.path@) + seq![name] + q1 =~= strings_view(o.path@) + q);
            } else {
                assert(o.ns_at(q) is Some);
            }
        }
        // what was there stays, with its content
        assert forall|q: Seq<Seq<char>>| #[trigger] o.ns_at(q) is Some
            implies self.ns_at(q) is Some && o.ns_at(q)->0.same_content(self.ns_at(q)->0) by {
            if q.len() > 0 && q[0] == name {
                assert(existed);
                assert(c0.ns_at(q.drop_first()) is Some);
            }
        }
        // what is new is blank and on the way
        assert forall|q: Seq<Seq<char>>| #[trigger] self.ns_at(q) is Some && o.ns_at(q) is None
            implies q.is_prefix_of(r) && self.ns_at(q)->0.is_blank() by {
            assert(q.len() > 0);
            assert(q[0] == name);
            let q1 = q.drop_first();
            if c0.ns_at(q1) is Some {
                assert(!existed);
                if q1.len() > 0 {
                    assert(!c0.children().contains_key(q1[0]));
                }
                assert(q1.len() == 0);
                assert(c0.same_content(c1));
                assert(q =~= r.take(1));
            } else {
                assert(c1.ns_at(q1) is Some);
                assert(q1.is_prefix_of(r.drop_first()));
                assert(q1 =~= r.drop_first().subrange(0, q1.len() as int));
                assert forall|k: int| 0 <= k < q.len() implies q[k] == r[k] by {
                    if k > 0 {
                        assert(q[k] == q1[k - 1]);
                        assert(r[k] == r.drop_first()[k - 1]);
                    }
                }
                assert(q =~= r.subrange(0, q.len() as int));
            }
        }
        assert(self.ns_at(r) == c1.ns_at(r.drop_first()));
    }
}

impl<H, C, FD, PD, RD> Namespace<H, C, FD, PD, RD> {
    /// The models of `b`, none where there is no namespace.
    pub open spec fn models_of(b: Option<Self>) -> Map<Seq<char>, Model> {
        match b {
            Some(n) => n.models@,
            None => Map::empty(),
        }
    }

    /// The handlers of `b`, none where there is no namespace.
    pub open spec fn handlers_of(b: Option<Self>) -> Map<Seq<char>, H> {
        match b {
            Some(n) => n.handlers@,
            None => Map::empty(),
        }
    }

    /// The handler templates of `b`, none where there is no namespace.
    pub open spec fn templates_of(b: Option<Self>) -> Map<Seq<char>, H> {
        match b {
            Some(n) => n.handler_templates@,
            None => Map::empty(),
        }
    }

    /// The handler groups of `b`, none where there is no namespace.
    pub open spec fn groups_of(b: Option<Self>) -> Map<Seq<char>, GroupView<H>> {
        match b {
            Some(n) => groups_view(n.handler_groups),
            None => Map::empty(),
        }
    }

    /// The model handler groups of `b`, none where there is no namespace.
    pub open spec fn model_groups_of(b: Option<Self>) -> Map<Seq<char>, GroupView<H>> {
        match b {
            Some(n) => groups_view(n.model_handler_groups),
            None => Map::empty(),
        }
    }

    /// The connector of `b`, none where there is no namespace.
    pub open spec fn connector_of(b: Option<Self>) -> Option<C> {
        match b {
            Some(n) => n.connector,
            None => None,
        }
    }

    /// The connector reference of `b`, none where there is no namespace.
    pub open spec fn connector_reference_of(b: Option<Self>) -> Option<Vec<String>> {
        match b {
            Some(n) => n.connector_reference,
            None => None,
        }
    }

    /// The opposite relations map of `b`, empty where there is no namespace.
    pub open spec fn opposite_relations_map_of(b: Option<Self>) -> Seq<(Vec<String>, Vec<(Vec<String>, String)>)> {
        match b {
            Some(n) => n.model_opposite_relations_map@,
            None => Seq::empty(),
        }
    }

    /// The model field decorators of `b`, none where there is no namespace.
    pub open spec fn field_decorators_of(b: Option<Self>) -> Map<Seq<char>, FieldDecorator<FD>> {
        match b {
            Some(n) => n.model_field_decorators@,
            None => Map::empty(),
        }
    }

    /// The model property decorators of `b`, none where there is no namespace.
    pub open spec fn property_decorators_of(b: Option<Self>) -> Map<Seq<char>, PropertyDecorator<PD>> {
        match b {
            Some(n) => n.model_property_decorators@,
            None => Map::empty(),
        }
    }

    /// The model relation decorators of `b`, none where there is no namespace.
    pub open spec fn relation_decorators_of(b: Option<Self>) -> Map<Seq<char>, RelationDecorator<RD>> {
        match b {
            Some(n) => n.model_relation_decorators@,
            None => Map::empty(),
        }
    }

    /// Whether `new` holds what `base` held (nothing, where there was no namespace) with the
    /// change `e` made.
    pub open spec fn change_applied(base: Option<Self>, new: Self, e: Change<H>) -> bool {
        &&& new.models@ == (match e {
            Change::Model(n, m) => Self::models_of(base).insert(n@, m),
            _ => Self::models_of(base),
        })
        &&& new.handlers@ == (match e {
            Change::Handler(n, h) => Self::handlers_of(base).insert(n@, h),
            _ => Self::handlers_of(base),
        })
        &&& new.handler_templates@ == (match e {
            Change::HandlerTemplate(n, h) => Self::templates_of(base).insert(n@, h),
            _ => Self::templates_of(base),
        })
        &&& groups_view(new.handler_groups) == (match e {
            Change::GroupHandler(g, n, h) => group_map_insert(Self::groups_of(base), g@, n@, h),
            Change::HandlerGroup(g) => Self::groups_of(base).insert(
                g@,
                (strings_view(new.path@).push(g@), Map::<Seq<char>, H>::empty()),
            ),
            _ => Self::groups_of(base),
        })
        &&& groups_view(new.model_handler_groups) == (match e {
            Change::GroupHandler(g, n, h) => if Self::groups_of(base).contains_key(g@) {
                Self::model_groups_of(base)
            } else if Self::model_groups_of(base).contains_key(g@) {
                group_map_insert(Self::model_groups_of(base), g@, n@, h)
            } else {
                Self::model_groups_of(base).insert(
                    g@,
                    (strings_view(new.path@).push(g@), Map::<Seq<char>, H>::empty().insert(n@, h)),
                )
            },
            Change::ModelHandlerGroup(g) => Self::model_groups_of(base).insert(
                g@,
                (strings_view(new.path@).push(g@), Map::<Seq<char>, H>::empty()),
            ),
            _ => Self::model_groups_of(base),
        })
        &&& new.connector == Self::connector_of(base)
        &&& new.connector_reference == Self::connector_reference_of(base)
        &&& new.model_opposite_relations_map@ == (match e {
            Change::OppositeRelationsMap(m) => m@,
            _ => Self::opposite_relations_map_of(base),
        })
        &&& new.model_field_decorators@ == Self::field_decorators_of(base)
        &&& new.model_property_decorators@ == Self::property_decorators_of(base)
        &&& new.model_relation_decorators@ == Self::relation_decorators_of(base)
    }

    /// Makes the change `e` to what this namespace holds of its own.
    fn apply_change(&mut self, e: Change<H>)
        ensures
            Self::change_applied(Some(*old(self)), *final(self), e),
            final(self).path == old(self).path,
            final(self).namespaces == old(self).namespaces,
    {
        let ghost o = *self;
        match e {
            Change::Model(n, m) => {
                self.models.insert(n, m);
            },
            Change::Handler(n, h) => {
                self.handlers.insert(n, h);
            },
            Change::HandlerTemplate(n, h) => {
                self.handler_templates.insert(n, h);
            },
            Change::GroupHandler(g, n, h) => {
                let ghost gv = g@;
                let ghost nv = n@;
                match self.handler_groups.remove(g.as_str()) {
                    Some(group) => {
                        let mut group = group;
                        group.insert_handler(n, h);
                        let ghost g1 = group;
                        self.handler_groups.insert(g, group);
                        assert(groups_view(o.handler_groups).contains_key(gv));
                        assert(groups_view(self.handler_groups) =~= group_map_insert(
                            groups_view(o.handler_groups), gv, nv, h));
                    },
                    None => {
                        assert(self.handler_groups@ =~= o.handler_groups@);
                        assert(groups_view(self.handler_groups) =~= groups_view(o.handler_groups));
                        assert(!groups_view(o.handler_groups).contains_key(gv));
                        match self.model_handler_groups.remove(g.as_str()) {
                            Some(group) => {
                                let mut group = group;
                                group.insert_handler(n, h);
                                self.model_handler_groups.insert(g, group);
                                assert(groups_view(self.model_handler_groups) =~= group_map_insert(
                                    groups_view(o.model_handler_groups), gv, nv, h));
                            },
                            None => {
                                let mut group = HandlerGroup::new(next_path(&self.path, g.as_str()));
                                group.insert_handler(n, h);
                                self.model_handler_groups.insert(g, group);
                                assert(group.handlers@ =~= Map::<Seq<char>, H>::empty().insert(nv, h));
                                assert(groups_view(self.model_handler_groups) =~= groups_view(
                                    o.model_handler_groups).insert(
                                    gv,
                                    (strings_view(o.path@).push(gv), Map::<Seq<char>, H>::empty().insert(nv, h)),
                                ));
                            },
                        }
                    },
                }
            },
            Change::HandlerGroup(g) => {
                let ghost gv = g@;
                let group = HandlerGroup::new(next_path(&self.path, g.as_str()));
                self.handler_groups.insert(g, group);
                assert(groups_view(self.handler_groups) =~= groups_view(o.handler_groups).insert(
                    gv,
                    (strings_view(o.path@).push(gv), Map::<Seq<char>, H>::empty()),
                ));
            },
            Change::OppositeRelationsMap(m) => {
                self.model_opposite_relations_map = m;
            },
            Change::ModelHandlerGroup(g) => {
                let ghost gv = g@;
                let group = HandlerGroup::new(next_path(&self.path, g.as_str()));
                self.model_handler_groups.insert(g, group);
                assert(groups_view(self.model_handler_groups) =~= groups_view(o.model_handler_groups).insert(
                    gv,
                    (strings_view(o.path@).push(gv), Map::<Seq<char>, H>::empty()),
                ));
            },
        }
    }
}

impl<H, C, FD, PD, RD> Namespace<H, C, FD, PD, RD> {
    /// `new` is `self` with the change `e` made at `p`, where there is a namespace: it is
    /// well-formed, has the same namespaces, and all but the one at `p` hold the same.
    pub open spec fn changed_at(self, new: Self, p: Seq<Seq<char>>, e: Change<H>) -> bool {
        &&& new.well_formed()
        &&& strings_view(new.path@) == strings_view(self.path@)
        &&& forall|q: Seq<Seq<char>>|
            #![trigger self.ns_at(q)]
            #![trigger new.ns_at(q)]
            (self.ns_at(q) is Some) == (new.ns_at(q) is Some)
        &&& forall|q: Seq<Seq<char>>| q != p && #[trigger] self.ns_at(q) is Some
            ==> self.ns_at(q)->0.same_content(new.ns_at(q)->0)
        &&& new.ns_at(p) is Some
        &&& Self::change_applied(self.ns_at(p), new.ns_at(p)->0, e)
    }

    /// `new` is `self` with the change `e` made at `p`, the namespaces on the way to `p` made
    /// where they were missing: it is well-formed, every namespace of `self` is still there and
    /// all but the one at `p` hold the same, every namespace that was not there is on the way to
    /// `p` and holds nothing if it is not at `p`, and the one at `p` holds what was there
    /// (nothing, where there was no namespace) with the change made.
    pub open spec fn updated_at(self, new: Self, p: Seq<Seq<char>>, e: Change<H>) -> bool {
        &&& new.well_formed()
        &&& strings_view(new.path@) == strings_view(self.path@)
        &&& forall|q: Seq<Seq<char>>| #[trigger] self.ns_at(q) is Some ==> new.ns_at(q) is Some
        &&& forall|q: Seq<Seq<char>>| q != p && #[trigger] self.ns_at(q) is Some
            ==> self.ns_at(q)->0.same_content(new.ns_at(q)->0)
        &&& forall|q: Seq<Seq<char>>| #[trigger] new.ns_at(q) is Some && self.ns_at(q) is None
            ==> q.is_prefix_of(p) && (q != p ==> new.ns_at(q)->0.is_blank())
        &&& new.ns_at(p) is Some
        &&& Self::change_applied(self.ns_at(p), new.ns_at(p)->0, e)
    }

    /// Makes the change `e` in the namespace at the names of `path` from position `i` on, below
    /// this one, which is there.
    fn change_at(&mut self, path: &Vec<String>, i: usize, e: Change<H>)
        requires
            old(self).well_formed(),
            i <= path@.len(),
            old(self).ns_at(strings_view(path@).skip(i as int)) is Some,
        ensures
            old(self).changed_at(*final(self), strings_view(path@).skip(i as int), e),
        decreases path@.len() - i,
    {
        let ghost r = strings_view(path@).skip(i as int);
        let ghost o = *self;
        if i < path.len() {
            let ghost name = path@[i as int]@;
            assert(r[0] == name);
            assert(r.drop_first() =~= strings_view(path@).skip(i + 1));
            assert(o.ns_at(Seq::<Seq<char>>::empty()) == Some(o));
            let removed = sorted_remove(&mut self.namespaces, path[i].as_str());
            let mut child = removed.unwrap();
            let ghost c0 = child;
            proof {
                assert(o.ns_at(seq![name]) == Some(c0)) by {
                    assert(seq![name][0] == name);
                    assert(seq![name].drop_first() =~= Seq::<Seq<char>>::empty());
                    assert(c0.ns_at(Seq::<Seq<char>>::empty()) == Some(c0));
                }
                o.lemma_well_formed_below(seq![name]);
            }
            child.change_at(path, i + 1, e);
            let ghost c1 = child;
            sorted_insert(&mut self.namespaces, path[i].clone(), child);
            proof {
                assert(self.children() =~= o.children().insert(name, c1));
                self.lemma_changed_at_step(o, c0, c1, name, r, e);
            }
        } else {
            assert(r =~= Seq::<Seq<char>>::empty());
            self.apply_change(e);
            proof {
                let f = *self;
                assert(f.children() == o.children());
                assert(f.ns_at(r) == Some(f));
                assert(o.ns_at(r) == Some(o));
                assert forall|q: Seq<Seq<char>>| q.len() > 0 implies #[trigger] f.ns_at(q) == o.ns_at(q) by {}
                assert forall|q: Seq<Seq<char>>| #[trigger] f.ns_at(q) is Some
                    implies strings_view(f.ns_at(q)->0.path@) == strings_view(f.path@) + q
                        && crate::name_map::sorted_entries(f.ns_at(q)->0.namespaces@) by {
                    if q.len() == 0 {
                        assert(o.ns_at(q) is Some);
                    }
                }
                assert forall|q: Seq<Seq<char>>| q != r && #[trigger] o.ns_at(q) is Some
                    implies o.ns_at(q)->0.same_content(f.ns_at(q)->0) by {
                    if q.len() == 0 {
                        assert(q =~= r);
                    }
                }
            }
        }
    }

    /// The step of `change_at`: `self` is `o` with its child `name`, `c0`, replaced by `c1`.
    proof fn lemma_changed_at_step(
        self,
        o: Self,
        c0: Self,
        c1: Self,
        name: Seq<char>,
        r: Seq<Seq<char>>,
        e: Change<H>,
    )
        requires
            o.well_formed(),
            r.len() > 0,
            r[0] == name,
            self.children() == o.children().insert(name, c1),
            sorted_entries_of(self),
            self.path == o.path,
            self.models == o.models,
            self.handlers == o.handlers,
            self.handler_templates == o.handler_templates,
            self.handler_groups == o.handler_groups,
            self.model_handler_groups == o.model_handler_groups,
            self.connector == o.connector,
            self.connector_reference == o.connector_reference,
            self.model_opposite_relations_map == o.model_opposite_relations_map,
            self.model_field_decorators == o.model_field_decorators,
            self.model_property_decorators == o.model_property_decorators,
            self.model_relation_decorators == o.model_relation_decorators,
            o.children().contains_key(name),
            o.children()[name] == c0,
            strings_view(c0.path@) == strings_view(o.path@) + seq![name],
            c0.changed_at(c1, r.drop_first(), e),
        ensures
            o.changed_at(self, r, e),
    {
        assert(self.ns_at(Seq::empty()) == Some(self));
        assert(o.ns_at(Seq::empty()) == Some(o));
        assert(c1.ns_at(Seq::empty()) is Some);
        assert(c0.ns_at(Seq::empty()) is Some);
        assert forall|q: Seq<Seq<char>>| q.len() > 0 && q[0] == name
            implies #[trigger] self.ns_at(q) == c1.ns_at(q.drop_first()) by {}
        assert forall|q: Seq<Seq<char>>| q.len() > 0 && q[0] != name
            implies #[trigger] self.ns_at(q) == o.ns_at(q) by {}
        assert forall|q: Seq<Seq<char>>| q.len() > 0 && q[0] == name
            implies #[trigger] o.ns_at(q) == c0.ns_at(q.drop_first()) by {}
        assert forall|q: Seq<Seq<char>>| #[trigger] self.ns_at(q) is Some
            implies strings_view(self.ns_at(q)->0.path@) == strings_view(self.path@) + q
                && crate::name_map::sorted_entries(self.ns_at(q)->0.namespaces@) by {
            if q.len() == 0 {
                assert(strings_view(self.path@) + q =~= strings_view(self.path@));
            } else if q[0] == name {
                let q1 = q.drop_first();
                assert(c1.ns_at(q1) is Some);
                assert(strings_view(c1.ns_at(q1)->0.path@) == strings_view(c1.path@) + q1);
                assert(q =~= seq![name] + q1);
                assert(strings_view(o.path@) + seq![name] + q1 =~= strings_view(o.path@) + q);
            } else {
                assert(o.ns_at(q) is Some);
            }
        }
        assert forall|q: Seq<Seq<char>>|
            #![trigger o.ns_at(q)]
            #![trigger self.ns_at(q)]
            (o.ns_at(q) is Some) == (self.ns_at(q) is Some) by {
            if q.len() > 0 && q[0] == name {
                assert(c0.ns_at(q.drop_first()) is Some == c1.ns_at(q.drop_first()) is Some);
            }
        }
        assert forall|q: Seq<Seq<char>>| q != r && #[trigger] o.ns_at(q) is Some
            implies o.ns_at(q)->0.same_content(self.ns_at(q)->0) by {
            if q.len() > 0 && q[0] == name {
                assert(q.drop_first() != r.drop_first()) by {
                    if q.drop_first() == r.drop_first() {
                        assert(q =~= seq![name] + q.drop_first());
                        assert(r =~= seq![name] + r.drop_first());
                    }
                }
                assert(c0.ns_at(q.drop_first()) is Some);
            }
        }
        assert(self.ns_at(r) == c1.ns_at(r.drop_first()));
        assert(o.ns_at(r) == c0.ns_at(r.drop_first()));
    }

    /// Makes the change `e` in the namespace at `path` below this one, making the namespaces on
    /// the way where they are missing.
    pub(crate) fn update_at(&mut self, path: &Vec<String>, e: Change<H>)
        requires
            old(self).well_formed(),
        ensures
            old(self).updated_at(*final(self), strings_view(path@), e),
    {
        let ghost o = *self;
        let ghost p = strings_view(path@);
        assert(p.skip(0) =~= p);
        self.make_path(path, 0);
        let ghost mid = *self;
        self.change_at(path, 0, e);
        proof {
            let f = *self;
            assert(o.ns_at(Seq::empty()) is Some);
            assert forall|q: Seq<Seq<char>>| q != p && #[trigger] o.ns_at(q) is Some
                implies o.ns_at(q)->0.same_content(f.ns_at(q)->0) by {
                assert(mid.ns_at(q) is Some);
            }
            assert forall|q: Seq<Seq<char>>| #[trigger] f.ns_at(q) is Some && o.ns_at(q) is None
                implies q.is_prefix_of(p) && (q != p ==> f.ns_at(q)->0.is_blank()) by {
                assert(mid.ns_at(q) is Some);
                assert(mid.ns_at(q)->0.is_blank());
                if q != p {
                    assert(mid.ns_at(q)->0.same_content(f.ns_at(q)->0));
                    assert(groups_view(f.ns_at(q)->0.handler_groups) == groups_view(mid.ns_at(q)->0.handler_groups));
                }
            }
            let md = mid.ns_at(p)->0;
            assert(Self::models_of(mid.ns_at(p)) == Self::models_of(o.ns_at(p)));
            assert(Self::handlers_of(mid.ns_at(p)) == Self::handlers_of(o.ns_at(p)));
            assert(Self::templates_of(mid.ns_at(p)) == Self::templates_of(o.ns_at(p)));
            assert(Self::groups_of(mid.ns_at(p)) == Self::groups_of(o.ns_at(p)));
            assert(Self::model_groups_of(mid.ns_at(p)) == Self::model_groups_of(o.ns_at(p)));
            assert(Self::connector_of(mid.ns_at(p)) == Self::connector_of(o.ns_at(p)));
            assert(Self::connector_reference_of(mid.ns_at(p)) == Self::connector_reference_of(o.ns_at(p)));
            assert(Self::opposite_relations_map_of(mid.ns_at(p)) =~= Self::opposite_relations_map_of(o.ns_at(p)));
            assert(Self::field_decorators_of(mid.ns_at(p)) == Self::field_decorators_of(o.ns_at(p)));
            assert(Self::property_decorators_of(mid.ns_at(p)) == Self::property_decorators_of(o.ns_at(p)));
            assert(Self::relation_decorators_of(mid.ns_at(p)) == Self::relation_decorators_of(o.ns_at(p)));
        }
    }
}

impl<H, C, FD, PD, RD> Namespace<H, C, FD, PD, RD> {
    /// Makes the namespace named `name` directly below this one, if there is none.
    pub fn child_namespace_or_create(&mut self, name: &str)
        requires
            old(self).well_formed(),
        ensures
            old(self).created_at(*final(self), seq![name@]),
    {
        let mut path: Vec<String> = Vec::new();
        path.push(name.to_owned());
        assert(strings_view(path@).skip(0) =~= seq![name@]);
        self.make_path(&path, 0);
    }

    /// Makes the namespaces at `path` below this one, and those on the way, where they are
    /// missing.
    pub fn descendant_namespace_or_create_at_path(&mut self, path: &Vec<String>)
        requires
            old(self).well_formed(),
        ensures
            old(self).created_at(*final(self), strings_view(path@)),
    {
        assert(strings_view(path@).skip(0) =~= strings_view(path@));
        self.make_path(path, 0);
    }

    /// Puts `model` under `name` in this namespace, replacing a model of that name.
    pub fn insert_model(&mut self, name: String, model: Model)
        requires
            old(self).well_formed(),
        ensures
            old(self).updated_at(*final(self), Seq::empty(), Change::Model(name, model)),
    {
        let path: Vec<String> = Vec::new();
        assert(strings_view(path@) =~= Seq::<Seq<char>>::empty());
        self.update_at(&path, Change::Model(name, model));
    }

    /// Puts `model` under the last name of `path` in the namespace at the names before it,
    /// making that namespace and those on the way where they are missing.
    pub fn insert_model_at_path(&mut self, path: &Vec<String>, model: Model)
        requires
            old(self).well_formed(),
            path@.len() >= 1,
        ensures
            old(self).updated_at(
                *final(self),
                strings_view(path@).drop_last(),
                Change::Model(path@.last(), model),
            ),
    {
        let last = path.len() - 1;
        let ns_path = clone_prefix(path, last);
        assert(strings_view(path@).take(last as int) =~= strings_view(path@).drop_last());
        let name = path[last].clone();
        self.update_at(&ns_path, Change::Model(name, model));
    }

    /// Puts `handler` under `name` in this namespace, replacing a handler of that name.
    pub fn insert_handler(&mut self, name: String, handler: H)
        requires
            old(self).well_formed(),
        ensures
            old(self).updated_at(*final(self), Seq::empty(), Change::Handler(name, handler)),
    {
        let path: Vec<String> = Vec::new();
        assert(strings_view(path@) =~= Seq::<Seq<char>>::empty());
        self.update_at(&path, Change::Handler(name, handler));
    }

    /// Puts `handler_template` under `name` in this namespace, replacing a template of that
    /// name.
    pub fn insert_handler_template(&mut self, name: String, handler_template: H)
        requires
            old(self).well_formed(),
        ensures
            old(self).updated_at(
                *final(self),
                Seq::empty(),
                Change::HandlerTemplate(name, handler_template),
            ),
    {
        let path: Vec<String> = Vec::new();
        assert(strings_view(path@) =~= Seq::<Seq<char>>::empty());
        self.update_at(&path, Change::HandlerTemplate(name, handler_template));
    }

    /// Defines an empty handler group named `name` in this namespace, replacing a group of
    /// that name.
    pub fn define_handler_group(&mut self, name: String)
        requires
            old(self).well_formed(),
        ensures
            old(self).updated_at(*final(self), Seq::empty(), Change::HandlerGroup(name)),
    {
        let path: Vec<String> = Vec::new();
        assert(strings_view(path@) =~= Seq::<Seq<char>>::empty());
        self.update_at(&path, Change::HandlerGroup(name));
    }

    /// Defines an empty model handler group named `name` in this namespace, replacing a model
    /// handler group of that name.
    pub fn define_model_handler_group(&mut self, name: String)
        requires
            old(self).well_formed(),
        ensures
            old(self).updated_at(*final(self), Seq::empty(), Change::ModelHandlerGroup(name)),
    {
        let path: Vec<String> = Vec::new();
        assert(strings_view(path@) =~= Seq::<Seq<char>>::empty());
        self.update_at(&path, Change::ModelHandlerGroup(name));
    }

    /// Makes an empty handler group named `name` in this namespace, if there is none.
    pub fn handler_group_or_create(&mut self, name: &str)
        requires
            old(self).well_formed(),
        ensures
            groups_view(final(self).handler_groups) == (if groups_view(old(self).handler_groups).contains_key(name@) {
                groups_view(old(self).handler_groups)
            } else {
                groups_view(old(self).handler_groups).insert(
                    name@,
                    (strings_view(old(self).path@).push(name@), Map::<Seq<char>, H>::empty()),
                )
            }),
            *final(self) == (Namespace { handler_groups: final(self).handler_groups, ..*old(self) }),
            final(self).well_formed(),
    {
        if !self.handler_groups.contains_key(name) {
            let ghost o = *self;
            let group = HandlerGroup::new(next_path(&self.path, name));
            self.handler_groups.insert(name.to_owned(), group);
            assert(groups_view(self.handler_groups) =~= groups_view(o.handler_groups).insert(
                name@,
                (strings_view(o.path@).push(name@), Map::<Seq<char>, H>::empty()),
            ));
        }
        proof {
            self.lemma_own_content_change(*old(self));
        }
    }

    /// Makes an empty model handler group named `name` in this namespace, if there is none.
    pub fn model_handler_group_or_create(&mut self, name: &str)
        requires
            old(self).well_formed(),
        ensures
            groups_view(final(self).model_handler_groups) == (if groups_view(old(self).model_handler_groups).contains_key(name@) {
                groups_view(old(self).model_handler_groups)
            } else {
                groups_view(old(self).model_handler_groups).insert(
                    name@,
                    (strings_view(old(self).path@).push(name@), Map::<Seq<char>, H>::empty()),
                )
            }),
            *final(self) == (Namespace { model_handler_groups: final(self).model_handler_groups, ..*old(self) }),
            final(self).well_formed(),
    {
        if !self.model_handler_groups.contains_key(name) {
            let ghost o = *self;
            let group = HandlerGroup::new(next_path(&self.path, name));
            self.model_handler_groups.insert(name.to_owned(), group);
            assert(groups_view(self.model_handler_groups) =~= groups_view(o.model_handler_groups).insert(
                name@,
                (strings_view(o.path@).push(name@), Map::<Seq<char>, H>::empty()),
            ));
        }
        proof {
            self.lemma_own_content_change(*old(self));
        }
    }

    /// Defines the model field decorator `name` of this namespace, which does `call`; its path
    /// is this namespace's path with `name` appended. A decorator of that name is replaced.
    pub fn define_model_field_decorator(&mut self, name: &str, call: FD)
        requires
            old(self).well_formed(),
        ensures
            final(self).model_field_decorators@.contains_key(name@),
            final(self).model_field_decorators@ == old(self).model_field_decorators@.insert(
                name@, final(self).model_field_decorators@[name@]),
            strings_view(final(self).model_field_decorators@[name@].spec_path()@) == strings_view(old(self).path@).push(name@),
            final(self).model_field_decorators@[name@].spec_call() == call,
            *final(self) == (Namespace { model_field_decorators: final(self).model_field_decorators, ..*old(self) }),
            final(self).well_formed(),
    {
        let decorator = FieldDecorator::new(next_path(&self.path, name), call);
        self.model_field_decorators.insert(name.to_owned(), decorator);
        proof {
            self.lemma_own_content_change(*old(self));
        }
    }

    /// Defines the model property decorator `name` of this namespace, which does `call`; its path
    /// is this namespace's path with `name` appended. A decorator of that name is replaced.
    pub fn define_model_property_decorator(&mut self, name: &str, call: PD)
        requires
            old(self).well_formed(),
        ensures
            final(self).model_property_decorators@.contains_key(name@),
            final(self).model_property_decorators@ == old(self).model_property_decorators@.insert(
                name@, final(self).model_property_decorators@[name@]),
            strings_view(final(self).model_property_decorators@[name@].spec_path()@) == strings_view(old(self).path@).push(name@),
            final(self).model_property_decorators@[name@].spec_call() == call,
            *final(self) == (Namespace { model_property_decorators: final(self).model_property_decorators, ..*old(self) }),
            final(self).well_formed(),
    {
        let decorator = PropertyDecorator::new(next_path(&self.path, name), call);
        self.model_property_decorators.insert(name.to_owned(), decorator);
        proof {
            self.lemma_own_content_change(*old(self));
        }
    }

    /// Defines the model relation decorator `name` of this namespace, which does `call`; its path
    /// is this namespace's path with `name` appended. A decorator of that name is replaced.
    pub fn define_model_relation_decorator(&mut self, name: &str, call: RD)
        requires
            old(self).well_formed(),
        ensures
            final(self).model_relation_decorators@.contains_key(name@),
            final(self).model_relation_decorators@ == old(self).model_relation_decorators@.insert(
                name@, final(self).model_relation_decorators@[name@]),
            strings_view(final(self).model_relation_decorators@[name@].path@) == strings_view(old(self).path@).push(name@),
            final(self).model_relation_decorators@[name@].call == call,
            *final(self) == (Namespace { model_relation_decorators: final(self).model_relation_decorators, ..*old(self) }),
            final(self).well_formed(),
    {
        let decorator = RelationDecorator { path: next_path(&self.path, name), call };
        self.model_relation_decorators.insert(name.to_owned(), decorator);
        proof {
            self.lemma_own_content_change(*old(self));
        }
    }

    /// Sets or clears the connector of this namespace.
    pub fn set_connector(&mut self, connector: Option<C>)
        requires
            old(self).well_formed(),
        ensures
            *final(self) == (Namespace { connector, ..*old(self) }),
            final(self).well_formed(),
    {
        self.connector = connector;
        proof {
            self.lemma_own_content_change(*old(self));
        }
    }

    /// Sets or clears where the connector of this namespace is defined.
    pub fn set_connector_reference(&mut self, connector_reference: Option<Vec<String>>)
        requires
            old(self).well_formed(),
        ensures
            *final(self) == (Namespace { connector_reference, ..*old(self) }),
            final(self).well_formed(),
    {
        self.connector_reference = connector_reference;
        proof {
            self.lemma_own_content_change(*old(self));
        }
    }

    /// A namespace that differs from a well-formed one only in what it holds of its own is
    /// well-formed, and has the same namespaces below it.
    pub proof fn lemma_own_content_change(self, o: Self)
        requires
            o.well_formed(),
            self.path == o.path,
            self.namespaces == o.namespaces,
        ensures
            self.well_formed(),
            forall|q: Seq<Seq<char>>| q.len() > 0 ==> #[trigger] self.ns_at(q) == o.ns_at(q),
    {
        assert(o.ns_at(Seq::empty()) == Some(o));
        assert forall|q: Seq<Seq<char>>| q.len() > 0 implies #[trigger] self.ns_at(q) == o.ns_at(q) by {}
        assert forall|q: Seq<Seq<char>>| #[trigger] self.ns_at(q) is Some
            implies strings_view(self.ns_at(q)->0.path@) == strings_view(self.path@) + q
                && crate::name_map::sorted_entries(self.ns_at(q)->0.namespaces@) by {
            if q.len() == 0 {
                assert(strings_view(self.path@) + q =~= strings_view(self.path@));
                assert(strings_view(o.path@) + q =~= strings_view(o.path@));
            } else {
                assert(o.ns_at(q) is Some);
            }
        }
    }

    /// Replaces the map from model paths to the relations (model path and relation name) that
    /// other models hold to them.
    pub fn set_model_opposite_relations_map(
        &mut self,
        map: Vec<(Vec<String>, Vec<(Vec<String>, String)>)>,
    )
        requires
            old(self).well_formed(),
        ensures
            old(self).updated_at(*final(self), Seq::empty(), Change::OppositeRelationsMap(map)),
    {
        let path: Vec<String> = Vec::new();
        assert(strings_view(path@) =~= Seq::<Seq<char>>::empty());
        self.update_at(&path, Change::OppositeRelationsMap(map));
    }

    /// Puts `handler` as the handler template named by the last name of `path` in the
    /// namespace at the names before it, making that namespace and those on the way where they
    /// are missing.
    pub fn replace_handler_template_at_path(&mut self, path: &Vec<String>, handler: H)
        requires
            old(self).well_formed(),
            path@.len() >= 1,
        ensures
            old(self).updated_at(
                *final(self),
                strings_view(path@).drop_last(),
                Change::HandlerTemplate(path@.last(), handler),
            ),
    {
        let last = path.len() - 1;
        let ns_path = clone_prefix(path, last);
        assert(strings_view(path@).take(last as int) =~= strings_view(path@).drop_last());
        let name = path[last].clone();
        self.update_at(&ns_path, Change::HandlerTemplate(name, handler));
    }

    /// Puts `handler` as the handler named by the last name of `path`: with `inside_group`, in
    /// the group named by the name before it (a handler group, else a model handler group, else
    /// a new model handler group) of the namespace at the names before that; else in the
    /// namespace at the names before it. The namespaces on the way are made where they are
    /// missing.
    pub fn replace_handler_at_path(&mut self, path: &Vec<String>, handler: H, inside_group: bool)
        requires
            old(self).well_formed(),
            path@.len() >= 1,
            inside_group ==> path@.len() >= 2,
        ensures
            inside_group ==> old(self).updated_at(
                *final(self),
                strings_view(path@).take(path@.len() - 2),
                Change::GroupHandler(path@[path@.len() - 2], path@.last(), handler),
            ),
            !inside_group ==> old(self).updated_at(
                *final(self),
                strings_view(path@).drop_last(),
                Change::Handler(path@.last(), handler),
            ),
    {
        let last = path.len() - 1;
        let name = path[last].clone();
        if inside_group {
            let ns_path = clone_prefix(path, last - 1);
            let group = path[last - 1].clone();
            self.update_at(&ns_path, Change::GroupHandler(group, name, handler));
        } else {
            let ns_path = clone_prefix(path, last);
            assert(strings_view(path@).take(last as int) =~= strings_view(path@).drop_last());
            self.update_at(&ns_path, Change::Handler(name, handler));
        }
    }
}

/// Whether the namespaces right below `n` are kept sorted by name.
pub open spec fn sorted_entries_of<H, C, FD, PD, RD>(n: Namespace<H, C, FD, PD, RD>) -> bool {
    crate::name_map::sorted_entries(n.namespaces@)
}

} // verus!
