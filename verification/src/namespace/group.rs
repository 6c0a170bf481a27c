use vstd::prelude::*;
use crate::name_map::NameMap;
use crate::utils::strings_view;

verus! {

/// What a handler group holds, as values: its path and its handlers by name.
pub type GroupView<H> = (Seq<Seq<char>>, Map<Seq<char>, H>);

/// What each group of a map of handler groups holds, by group name.
pub open spec fn groups_view<H>(m: NameMap<HandlerGroup<H>>) -> Map<Seq<char>, GroupView<H>> {
    m@.map_values(|g: HandlerGroup<H>| (strings_view(g.path@), g.handlers@))
}

/// A named group of handlers within a namespace.
#[derive(Debug)]
pub struct HandlerGroup<H> {
    pub path: Vec<String>,
    pub handlers: NameMap<H>,
}

impl<H> HandlerGroup<H> {
    /// An empty group at `path`.
    pub fn new(path: Vec<String>) -> (r: Self)
        ensures
            r.path == path,
            r.handlers@ == Map::<Seq<char>, H>::empty(),
    {
        HandlerGroup { path, handlers: NameMap::new() }
    }

    /// The path of the group.
    pub fn path(&self) -> (r: &Vec<String>)
        ensures
            *r == self.path,
    {
        &self.path
    }

    /// The handler named `name` in the group.
    pub fn handler(&self, name: &str) -> (r: Option<&H>)
        ensures
            match r {
                Some(h) => self.handlers@.contains_key(name@) && *h == self.handlers@[name@],
                None => !self.handlers@.contains_key(name@),
            },
    {
        self.handlers.get(name)
    }

    /// Adds `handler` to the group under `name`, replacing a handler of that name.
    pub fn insert_handler(&mut self, name: String, handler: H)
        ensures
            final(self).handlers@ == old(self).handlers@.insert(name@, handler),
            final(self).path == old(self).path,
    {
        self.handlers.insert(name, handler);
    }
}

} // verus!
