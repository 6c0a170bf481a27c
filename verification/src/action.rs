use vstd::prelude::*;

verus! {

/// A builtin handler of a model: the operations every model offers.
#[derive(Debug, Clone, Copy, PartialEq, Eq, Structural)]
pub enum Action {
    FindUnique,
    FindFirst,
    FindMany,
    Create,
    Update,
    Copy,
    Upsert,
    Delete,
    CreateMany,
    UpdateMany,
    CopyMany,
    DeleteMany,
    Count,
    Aggregate,
    GroupBy,
}

/// The builtin handlers, in the order in which they are listed.
pub open spec fn spec_builtin_handlers() -> Seq<Action> {
    seq![
        Action::FindUnique,
        Action::FindFirst,
        Action::FindMany,
        Action::Create,
        Action::Update,
        Action::Copy,
        Action::Upsert,
        Action::Delete,
        Action::CreateMany,
        Action::UpdateMany,
        Action::CopyMany,
        Action::DeleteMany,
        Action::Count,
        Action::Aggregate,
        Action::GroupBy,
    ]
}

impl Action {
    /// The builtin handlers, each once.
    pub fn builtin_handlers() -> (r: Vec<Action>)
        ensures
            r@ == spec_builtin_handlers(),
    {
        let r = vec![
            Action::FindUnique,
            Action::FindFirst,
            Action::FindMany,
            Action::Create,
            Action::Update,
            Action::Copy,
            Action::Upsert,
            Action::Delete,
            Action::CreateMany,
            Action::UpdateMany,
            Action::CopyMany,
            Action::DeleteMany,
            Action::Count,
            Action::Aggregate,
            Action::GroupBy,
        ];
        assert(r@ =~= spec_builtin_handlers());
        r
    }

    /// Whether the handler works on many records at once and answers with a list and paging
    /// information.
    pub open spec fn spec_handles_many(self) -> bool {
        match self {
            Action::FindMany | Action::CreateMany | Action::UpdateMany | Action::CopyMany
            | Action::DeleteMany => true,
            _ => false,
        }
    }

    /// Whether the handler works on many records at once and answers with a list and paging
    /// information.
    pub fn handles_many(&self) -> (r: bool)
        ensures
            r == self.spec_handles_many(),
    {
        match self {
            Action::FindMany | Action::CreateMany | Action::UpdateMany | Action::CopyMany
            | Action::DeleteMany => true,
            _ => false,
        }
    }
}

} // verus!
