use vstd::prelude::*;
use crate::action::Action;
use crate::model::handler_type::{ShapeKind, args_shape, result_shape};

verus! {

/// The types of a model's builtin handlers. Each handler takes the arguments shape named
/// after it. Finding, creating, updating, copying and deleting many records answer with a
/// list and paging information; every other handler answers with one value, which for
/// aggregating and grouping is the aggregate or group-by result and otherwise the plain
/// result (counting, which answers with an integer, aside).
pub proof fn law_builtin_handler_types(handler: Action)
    ensures
        args_shape(Action::FindUnique) == ShapeKind::FindUniqueArgs,
        args_shape(Action::FindFirst) == ShapeKind::FindFirstArgs,
        args_shape(Action::FindMany) == ShapeKind::FindManyArgs,
        args_shape(Action::Create) == ShapeKind::CreateArgs,
        args_shape(Action::Update) == ShapeKind::UpdateArgs,
        args_shape(Action::Copy) == ShapeKind::CopyArgs,
        args_shape(Action::Upsert) == ShapeKind::UpsertArgs,
        args_shape(Action::Delete) == ShapeKind::DeleteArgs,
        args_shape(Action::CreateMany) == ShapeKind::CreateManyArgs,
        args_shape(Action::UpdateMany) == ShapeKind::UpdateManyArgs,
        args_shape(Action::CopyMany) == ShapeKind::CopyManyArgs,
        args_shape(Action::DeleteMany) == ShapeKind::DeleteManyArgs,
        args_shape(Action::Count) == ShapeKind::CountArgs,
        args_shape(Action::Aggregate) == ShapeKind::AggregateArgs,
        args_shape(Action::GroupBy) == ShapeKind::GroupByArgs,
        handler.spec_handles_many() <==> (handler == Action::FindMany || handler == Action::CreateMany
            || handler == Action::UpdateMany || handler == Action::CopyMany || handler == Action::DeleteMany),
        handler == Action::Aggregate ==> result_shape(handler) == ShapeKind::AggregateResult,
        handler == Action::GroupBy ==> result_shape(handler) == ShapeKind::GroupByResult,
        handler != Action::Aggregate && handler != Action::GroupBy ==> result_shape(handler) == ShapeKind::Result,
{
}

} // verus!
