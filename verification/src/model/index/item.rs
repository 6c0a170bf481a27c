use vstd::prelude::*;
use crate::sort::Sort;

verus! {

/// One column of an index: the field it covers, its direction and an optional prefix length.
#[derive(Debug, PartialEq)]
pub struct Item {
    pub field: String,
    pub sort: Sort,
    pub len: Option<usize>,
}

impl Item {
    /// An index item over `field`.
    pub fn new(field: String, sort: Sort, len: Option<usize>) -> (r: Self)
        ensures
            r.field == field,
            r.sort == sort,
            r.len == len,
    {
        Self { field, sort, len }
    }
}

impl Clone for Item {
    fn clone(&self) -> (r: Self)
        ensures
            r == *self,
    {
        Item { field: self.field.clone(), sort: self.sort, len: self.len }
    }
}

/// Copies a list of index items.
pub fn clone_items(items: &Vec<Item>) -> (r: Vec<Item>)
    ensures
        r@ == items@,
{
    let mut r: Vec<Item> = Vec::new();
    let mut i: usize = 0;
    while i < items.len()
        invariant
            i <= items.len(),
            r@ == items@.take(i as int),
        decreases items.len() - i,
    {
        r.push(items[i].clone());
        assert(r@ =~= items@.take(i + 1));
        i = i + 1;
    }
    assert(items@.take(items.len() as int) =~= items@);
    r
}

/// The fields that a list of index items covers, in order.
pub open spec fn item_fields(items: Seq<Item>) -> Seq<Seq<char>> {
    items.map_values(|i: Item| i.field@)
}

} // verus!
