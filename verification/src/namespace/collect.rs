use vstd::prelude::*;
use crate::model::Model;
use crate::namespace::namespace::Namespace;

verus! {

/// The models of `models` whose flag in `keep` is set, in their order.
pub open spec fn select_models(models: Seq<Model>, keep: Seq<bool>) -> Seq<Model>
    decreases models.len(),
{
    if models.len() == 0 {
        Seq::empty()
    } else {
        select_models(models.drop_last(), keep.drop_last()) + (if keep.last() {
            seq![models.last()]
        } else {
            Seq::empty()
        })
    }
}

/// The models a list of references points to.
pub open spec fn deref_models(r: Seq<&Model>) -> Seq<Model> {
    r.map_values(|m: &Model| *m)
}

/// Selecting from two lists one after the other selects from each, one after the other.
pub proof fn lemma_select_models_concat(a: Seq<Model>, ka: Seq<bool>, b: Seq<Model>, kb: Seq<bool>)
    requires
        a.len() == ka.len(),
        b.len() == kb.len(),
    ensures
        select_models(a + b, ka + kb) == select_models(a, ka) + select_models(b, kb),
    decreases b.len(),
{
    if b.len() == 0 {
        assert(a + b =~= a);
        assert(ka + kb =~= ka);
        assert(select_models(a, ka) + select_models(b, kb) =~= select_models(a, ka));
    } else {
        lemma_select_models_concat(a, ka, b.drop_last(), kb.drop_last());
        assert((a + b).drop_last() =~= a + b.drop_last());
        assert((ka + kb).drop_last() =~= ka + kb.drop_last());
        assert(select_models(a, ka) + select_models(b.drop_last(), kb.drop_last()) + (if kb.last() {
            seq![b.last()]
        } else {
            Seq::empty()
        }) =~= select_models(a, ka) + (select_models(b.drop_last(), kb.drop_last()) + (if kb.last() {
            seq![b.last()]
        } else {
            Seq::empty()
        })));
    }
}

impl<H, C, FD, PD, RD> Namespace<H, C, FD, PD, RD> {
    /// The models of this namespace, then those under each namespace below it that has no
    /// connector of its own, in the order of their names.
    pub open spec fn models_under_connector_spec(self) -> Seq<Model>
        decreases self,
    {
        self.models.values() + Self::entries_models_under_connector(self.namespaces@)
    }

    /// The models under each namespace of `e` that has no connector of its own, one after the
    /// other.
    pub open spec fn entries_models_under_connector(e: Seq<(String, Self)>) -> Seq<Model>
        decreases e,
    {
        if e.len() == 0 {
            Seq::empty()
        } else {
            Self::entries_models_under_connector(e.drop_last()) + (if e.last().1.connector is None {
                e.last().1.models_under_connector_spec()
            } else {
                Seq::empty()
            })
        }
    }

    /// The models of this namespace, then those of the namespaces below it, in the order of
    /// their names.
    pub open spec fn all_models(self) -> Seq<Model>
        decreases self,
    {
        self.models.values() + Self::entries_all_models(self.namespaces@)
    }

    /// The models of each namespace of `e` and of those below it, one after the other.
    pub open spec fn entries_all_models(e: Seq<(String, Self)>) -> Seq<Model>
        decreases e,
    {
        if e.len() == 0 {
            Seq::empty()
        } else {
            Self::entries_all_models(e.drop_last()) + e.last().1.all_models()
        }
    }

    /// The models of this namespace, then those under each namespace below it that has no
    /// connector of its own.
    pub fn models_under_connector(&self) -> (r: Vec<&Model>)
        ensures
            deref_models(r@) == self.models_under_connector_spec(),
        decreases self,
    {
        let mut result: Vec<&Model> = Vec::new();
        let n = self.models.len();
        let mut i: usize = 0;
        while i < n
            invariant
                n == self.models.values().len(),
                n == self.models.keys().len(),
                i <= n,
                deref_models(result@) == self.models.values().take(i as int),
            decreases n - i,
        {
            let (_, m) = self.models.entry_at(i);
            let ghost before = result@;
            result.push(m);
            assert(deref_models(result@) =~= self.models.values().take(i + 1)) by {
                assert(result@ =~= before.push(m));
                assert(deref_models(result@) =~= deref_models(before).push(*m));
                assert(self.models.values().take(i + 1) =~= self.models.values().take(i as int).push(
                    self.models.values()[i as int]));
            }
            i = i + 1;
        }
        assert(self.models.values().take(n as int) =~= self.models.values());
        let ghost e = self.namespaces@;
        let mut j: usize = 0;
        assert(e.take(0) =~= Seq::<(String, Self)>::empty());
        assert(deref_models(result@) =~= self.models.values() + Self::entries_models_under_connector(e.take(0)));
        while j < self.namespaces.len()
            invariant
                e == self.namespaces@,
                j <= e.len(),
                deref_models(result@) == self.models.values()
                    + Self::entries_models_under_connector(e.take(j as int)),
            decreases e.len() - j,
        {
            let child = &self.namespaces[j].1;
            assert(e.take(j + 1).drop_last() =~= e.take(j as int));
            assert(e.take(j + 1).last() == e[j as int]);
            let ghost before = result@;
            if child.connector.is_none() {
                assert(decreases_to!(self => self.namespaces));
                assert(decreases_to!(self.namespaces => self.namespaces@));
                assert(decreases_to!(self.namespaces@ => self.namespaces@[j as int]));
                let mut sub = child.models_under_connector();
                let ghost sub0 = sub@;
                result.append(&mut sub);
                assert(deref_models(result@) =~= deref_models(before) + deref_models(sub0));
            }
            j = j + 1;
        }
        assert(e.take(e.len() as int) =~= e);
        result
    }

    /// The models of this namespace and of those below it that `f` keeps: what every call of
    /// `f` gave is in `keep`, model by model.
    fn collect_models_with<F: Fn(&Model) -> bool>(&self, f: &F) -> (r: (Vec<&Model>, Ghost<Seq<bool>>))
        requires
            forall|m: &Model| #[trigger] f.requires((m,)),
        ensures
            r.1@.len() == self.all_models().len(),
            forall|i: int| 0 <= i < r.1@.len() ==> f.ensures((&self.all_models()[i],), #[trigger] r.1@[i]),
            deref_models(r.0@) == select_models(self.all_models(), r.1@),
        decreases self,
    {
        let mut result: Vec<&Model> = Vec::new();
        let ghost mut keep: Seq<bool> = Seq::empty();
        let n = self.models.len();
        let mut i: usize = 0;
        while i < n
            invariant
                forall|m: &Model| #[trigger] f.requires((m,)),
                n == self.models.values().len(),
                n == self.models.keys().len(),
                i <= n,
                keep.len() == i,
                forall|k: int| 0 <= k < i ==> f.ensures((&self.models.values()[k],), #[trigger] keep[k]),
                deref_models(result@) == select_models(self.models.values().take(i as int), keep),
            decreases n - i,
        {
            let (_, m) = self.models.entry_at(i);
            let ghost before = result@;
            let ghost keep0 = keep;
            let b = f(m);
            if b {
                result.push(m);
            }
            proof {
                keep = keep.push(b);
                let vs = self.models.values();
                assert(vs.take(i + 1) =~= vs.take(i as int).push(vs[i as int]));
                assert(vs.take(i + 1).drop_last() =~= vs.take(i as int));
                assert(keep.drop_last() =~= keep0);
                if b {
                    assert(result@ =~= before.push(m));
                    assert(deref_models(result@) =~= deref_models(before).push(*m));
                } else {
                    assert(deref_models(result@) =~= deref_models(before) + Seq::<Model>::empty());
                }
                assert forall|k: int| 0 <= k < i + 1 implies f.ensures((&vs[k],), #[trigger] keep[k]) by {
                    if k < i {
                        assert(keep[k] == keep0[k]);
                    }
                }
            }
            i = i + 1;
        }
        assert(self.models.values().take(n as int) =~= self.models.values());
        let ghost e = self.namespaces@;
        let ghost own = self.models.values();
        let mut j: usize = 0;
        assert(e.take(0) =~= Seq::<(String, Self)>::empty());
        assert(own + Self::entries_all_models(e.take(0)) =~= own);
        assert(keep + Seq::<bool>::empty() =~= keep);
        while j < self.namespaces.len()
            invariant
                forall|m: &Model| #[trigger] f.requires((m,)),
                e == self.namespaces@,
                own == self.models.values(),
                j <= e.len(),
                keep.len() == own.len() + Self::entries_all_models(e.take(j as int)).len(),
                forall|k: int| 0 <= k < keep.len()
                    ==> f.ensures((&(own + Self::entries_all_models(e.take(j as int)))[k],), #[trigger] keep[k]),
                deref_models(result@) == select_models(own + Self::entries_all_models(e.take(j as int)), keep),
            decreases e.len() - j,
        {
            let child = &self.namespaces[j].1;
            assert(e.take(j + 1).drop_last() =~= e.take(j as int));
            assert(e.take(j + 1).last() == e[j as int]);
            let ghost before = result@;
            let ghost keep0 = keep;
            let ghost all0 = own + Self::entries_all_models(e.take(j as int));
            assert(decreases_to!(self => self.namespaces));
            assert(decreases_to!(self.namespaces => self.namespaces@));
            assert(decreases_to!(self.namespaces@ => self.namespaces@[j as int]));
            let (mut sub, sub_keep) = child.collect_models_with(f);
            let ghost sub0 = sub@;
            result.append(&mut sub);
            proof {
                let cm = child.all_models();
                keep = keep0 + sub_keep@;
                assert(own + Self::entries_all_models(e.take(j + 1)) =~= all0 + cm);
                lemma_select_models_concat(all0, keep0, cm, sub_keep@);
                assert(deref_models(result@) =~= deref_models(before) + deref_models(sub0));
                assert forall|k: int| 0 <= k < keep.len()
                    implies f.ensures((&(all0 + cm)[k],), #[trigger] keep[k]) by {
                    if k < keep0.len() {
                        assert(keep[k] == keep0[k]);
                    } else {
                        assert(keep[k] == sub_keep@[k - keep0.len()]);
                        assert((all0 + cm)[k] == cm[k - keep0.len()]);
                    }
                }
            }
            j = j + 1;
        }
        assert(e.take(e.len() as int) =~= e);
        (result, Ghost(keep))
    }

    /// The models of this namespace and of those below it for which `f` gives `true`, in
    /// order: those of this namespace first, then those under each namespace below it in the
    /// order of their names.
    pub fn collect_models<F: Fn(&Model) -> bool>(&self, f: F) -> (r: Vec<&Model>)
        requires
            forall|m: &Model| #[trigger] f.requires((m,)),
        ensures
            exists|keep: Seq<bool>|
                #![trigger select_models(self.all_models(), keep)]
                keep.len() == self.all_models().len()
                && (forall|i: int| 0 <= i < keep.len() ==> f.ensures((&self.all_models()[i],), #[trigger] keep[i]))
                && deref_models(r@) == select_models(self.all_models(), keep),
    {
        let (r, keep) = self.collect_models_with(&f);
        assert(select_models(self.all_models(), keep@) == deref_models(r@));
        r
    }
}

} // verus!
