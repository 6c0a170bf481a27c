pub mod kind;
pub mod item;

use vstd::prelude::*;
pub use kind::Type;
pub use item::Item;
use item::{item_fields, clone_items};
use crate::utils::strings_view;

verus! {

/// A model index: its kind, its name and the items it covers.
///
/// The field names that the items cover are kept alongside, in item order.
#[derive(Debug)]
pub struct Index {
    kind: Type,
    name: String,
    items: Vec<Item>,
    cache: Cache,
}

/// Values derived from an index's items when it is made.
#[derive(Debug)]
pub struct Cache {
    pub keys: Vec<String>,
}

impl View for Index {
    type V = (Type, Seq<char>, Seq<Item>);

    /// The kind, the name and the items of the index.
    open spec fn view(&self) -> (Type, Seq<char>, Seq<Item>) {
        (self.spec_kind(), self.spec_name(), self.spec_items())
    }
}

impl Clone for Index {
    fn clone(&self) -> (r: Self)
        ensures
            r.spec_kind() == self.spec_kind(),
            r.spec_name() == self.spec_name(),
            r.spec_items() == self.spec_items(),
    {
        Index::new(self.kind, self.name.clone(), clone_items(&self.items))
    }
}

impl Index {
    #[verifier::type_invariant]
    closed spec fn keys_follow_items(&self) -> bool {
        strings_view(self.cache.keys@) == item_fields(self.items@)
    }

    /// The kind of the index.
    pub closed spec fn spec_kind(&self) -> Type {
        self.kind
    }

    /// The name of the index.
    pub closed spec fn spec_name(&self) -> Seq<char> {
        self.name@
    }

    /// The items of the index.
    pub closed spec fn spec_items(&self) -> Seq<Item> {
        self.items@
    }

    /// An index of the given kind and name over the given items.
    pub fn new(kind: Type, name: String, items: Vec<Item>) -> (r: Self)
        ensures
            r.spec_kind() == kind,
            r.spec_name() == name@,
            r.spec_items() == items@,
    {
        let mut keys: Vec<String> = Vec::new();
        let mut i: usize = 0;
        while i < items.len()
            invariant
                i <= items.len(),
                keys.len() == i,
                strings_view(keys@) == item_fields(items@).take(i as int),
            decreases items.len() - i,
        {
            let ghost old_keys = keys@;
            let k = items[i].field.clone();
            keys.push(k);
            proof {
                assert(keys@ =~= old_keys.push(k));
                assert forall|j: int| 0 <= j < i implies strings_view(keys@)[j] == strings_view(old_keys)[j] by {
                    assert(keys@[j] == old_keys[j]);
                }
                assert(strings_view(keys@)[i as int] == k@);
                assert(item_fields(items@)[i as int] == items@[i as int].field@);
                assert(strings_view(keys@) =~= item_fields(items@).take(i + 1));
            }
            i = i + 1;
        }
        assert(item_fields(items@).take(items.len() as int) =~= item_fields(items@));
        Self { kind, name, items, cache: Cache { keys } }
    }

    /// The kind of the index.
    pub fn kind(&self) -> (r: Type)
        ensures
            r == self.spec_kind(),
    {
        self.kind
    }

    /// The name of the index.
    pub fn name(&self) -> (r: &str)
        ensures
            r@ == self.spec_name(),
    {
        self.name.as_str()
    }

    /// The items of the index.
    pub fn items(&self) -> (r: &Vec<Item>)
        ensures
            r@ == self.spec_items(),
    {
        &self.items
    }

    /// The field names that the items cover, in item order.
    pub fn keys(&self) -> (r: &Vec<String>)
        ensures
            strings_view(r@) == item_fields(self.spec_items()),
    {
        proof {
            use_type_invariant(self);
        }
        &self.cache.keys
    }
}

} // verus!
