use vstd::prelude::*;
use crate::action::Action;
use crate::model::model::Model;
use crate::utils::{strings_view, clone_strings};

verus! {

/// A shape synthesized from a model.
#[derive(Debug, Clone, Copy, PartialEq, Eq, Structural)]
pub enum ShapeKind {
    FindUniqueArgs,
    FindFirstArgs,
    FindManyArgs,
    CreateArgs,
    UpdateArgs,
    CopyArgs,
    UpsertArgs,
    DeleteArgs,
    CreateManyArgs,
    UpdateManyArgs,
    CopyManyArgs,
    DeleteManyArgs,
    CountArgs,
    AggregateArgs,
    GroupByArgs,
    Result,
    AggregateResult,
    GroupByResult,
}

/// A reference to a declaration of the schema: where the parser found it and its path.
#[derive(Debug)]
pub struct TypeReference {
    pub parser_path: Vec<usize>,
    pub path: Vec<String>,
}

/// The type a builtin handler takes or gives.
#[derive(Debug)]
pub enum HandlerType {
    /// A shape synthesized from the model that the reference names.
    Shape(ShapeKind, TypeReference),
    /// A 64-bit integer.
    Int64,
    /// A list of the given type.
    Array(Box<HandlerType>),
    /// An object of the interface that the reference names, with the given type arguments.
    InterfaceObject(TypeReference, Vec<HandlerType>),
}

/// Whether `r` names what is at `parser_path` and `path`.
pub open spec fn refers_to(r: TypeReference, parser_path: Seq<usize>, path: Seq<Seq<char>>) -> bool {
    r.parser_path@ == parser_path && strings_view(r.path@) == path
}

/// Whether `a` and `b` name the same declaration.
pub open spec fn same_reference(a: TypeReference, b: TypeReference) -> bool {
    refers_to(a, b.parser_path@, strings_view(b.path@))
}

/// The arguments shape of each builtin handler.
pub open spec fn args_shape(handler: Action) -> ShapeKind {
    match handler {
        Action::FindUnique => ShapeKind::FindUniqueArgs,
        Action::FindFirst => ShapeKind::FindFirstArgs,
        Action::FindMany => ShapeKind::FindManyArgs,
        Action::Create => ShapeKind::CreateArgs,
        Action::Update => ShapeKind::UpdateArgs,
        Action::Copy => ShapeKind::CopyArgs,
        Action::Upsert => ShapeKind::UpsertArgs,
        Action::Delete => ShapeKind::DeleteArgs,
        Action::CreateMany => ShapeKind::CreateManyArgs,
        Action::UpdateMany => ShapeKind::UpdateManyArgs,
        Action::CopyMany => ShapeKind::CopyManyArgs,
        Action::DeleteMany => ShapeKind::DeleteManyArgs,
        Action::Count => ShapeKind::CountArgs,
        Action::Aggregate => ShapeKind::AggregateArgs,
        Action::GroupBy => ShapeKind::GroupByArgs,
    }
}

/// The shape of what a builtin handler that answers with one value gives, but for counting,
/// which gives an integer.
pub open spec fn result_shape(handler: Action) -> ShapeKind {
    match handler {
        Action::Aggregate => ShapeKind::AggregateResult,
        Action::GroupBy => ShapeKind::GroupByResult,
        _ => ShapeKind::Result,
    }
}

/// Whether `t` is the shape `kind` of the model at `parser_path` and `path`.
pub open spec fn is_model_shape(t: HandlerType, kind: ShapeKind, parser_path: Seq<usize>, path: Seq<Seq<char>>) -> bool {
    t matches HandlerType::Shape(k, r) && k == kind && refers_to(r, parser_path, path)
}

/// Whether `t` is a `data_meta` object of a list of result shapes of the model at
/// `parser_path` and `path`, and of a `paging_info` object.
pub open spec fn is_many_output(
    t: HandlerType,
    data_meta: TypeReference,
    paging_info: TypeReference,
    parser_path: Seq<usize>,
    path: Seq<Seq<char>>,
) -> bool {
    &&& t matches HandlerType::InterfaceObject(o, args)
    &&& same_reference(o, data_meta)
    &&& args@.len() == 2
    &&& args@[0] matches HandlerType::Array(b)
    &&& is_model_shape(*b, ShapeKind::Result, parser_path, path)
    &&& args@[1] matches HandlerType::InterfaceObject(p, none)
    &&& same_reference(p, paging_info)
    &&& none@.len() == 0
}

/// Whether `t` is a `data` object of an integer.
pub open spec fn is_count_output(t: HandlerType, data: TypeReference) -> bool {
    &&& t matches HandlerType::InterfaceObject(o, args)
    &&& same_reference(o, data)
    &&& args@.len() == 1
    &&& args@[0] is Int64
}

/// Whether `t` is a `data` object of the shape `kind` of the model at `parser_path` and
/// `path`.
pub open spec fn is_single_output(
    t: HandlerType,
    data: TypeReference,
    kind: ShapeKind,
    parser_path: Seq<usize>,
    path: Seq<Seq<char>>,
) -> bool {
    &&& t matches HandlerType::InterfaceObject(o, args)
    &&& same_reference(o, data)
    &&& args@.len() == 1
    &&& is_model_shape(args@[0], kind, parser_path, path)
}

/// Copies a reference.
pub fn clone_reference(r: &TypeReference) -> (c: TypeReference)
    ensures
        same_reference(c, *r),
{
    TypeReference { parser_path: r.parser_path.clone(), path: clone_strings(&r.path) }
}

impl Model {
    /// A reference to this model.
    pub fn as_type_reference(&self) -> (r: TypeReference)
        ensures
            refers_to(r, self.parser_path@, strings_view(self.path@)),
    {
        TypeReference { parser_path: self.parser_path.clone(), path: clone_strings(&self.path) }
    }

    /// What the builtin handler `handler` of this model takes: its arguments shape of this
    /// model.
    pub fn input_type_for_builtin_handler(&self, handler: Action) -> (r: HandlerType)
        ensures
            is_model_shape(r, args_shape(handler), self.parser_path@, strings_view(self.path@)),
    {
        let kind = match handler {
            Action::FindUnique => ShapeKind::FindUniqueArgs,
            Action::FindFirst => ShapeKind::FindFirstArgs,
            Action::FindMany => ShapeKind::FindManyArgs,
            Action::Create => ShapeKind::CreateArgs,
            Action::Update => ShapeKind::UpdateArgs,
            Action::Copy => ShapeKind::CopyArgs,
            Action::Upsert => ShapeKind::UpsertArgs,
            Action::Delete => ShapeKind::DeleteArgs,
            Action::CreateMany => ShapeKind::CreateManyArgs,
            Action::UpdateMany => ShapeKind::UpdateManyArgs,
            Action::CopyMany => ShapeKind::CopyManyArgs,
            Action::DeleteMany => ShapeKind::DeleteManyArgs,
            Action::Count => ShapeKind::CountArgs,
            Action::Aggregate => ShapeKind::AggregateArgs,
            Action::GroupBy => ShapeKind::GroupByArgs,
        };
        HandlerType::Shape(kind, self.as_type_reference())
    }

    /// What the builtin handler `handler` of this model gives. Those on many records give a
    /// `data_meta` object of a list of result shapes and a `paging_info` object; counting gives
    /// a `data` object of an integer; the others give a `data` object of their result shape:
    /// the aggregate or group-by result for aggregating and grouping, else the plain result.
    pub fn output_type_for_builtin_handler(
        &self,
        handler: Action,
        data: &TypeReference,
        data_meta: &TypeReference,
        paging_info: &TypeReference,
    ) -> (r: HandlerType)
        ensures
            handler.spec_handles_many() ==> is_many_output(
                r, *data_meta, *paging_info, self.parser_path@, strings_view(self.path@)),
            handler == Action::Count ==> is_count_output(r, *data),
            !handler.spec_handles_many() && handler != Action::Count ==> is_single_output(
                r, *data, result_shape(handler), self.parser_path@, strings_view(self.path@)),
    {
        if handler.handles_many() {
            let result = HandlerType::Shape(ShapeKind::Result, self.as_type_reference());
            let args = vec![
                HandlerType::Array(Box::new(result)),
                HandlerType::InterfaceObject(clone_reference(paging_info), Vec::new()),
            ];
            HandlerType::InterfaceObject(clone_reference(data_meta), args)
        } else {
            let arg = match handler {
                Action::Count => HandlerType::Int64,
                Action::Aggregate => HandlerType::Shape(ShapeKind::AggregateResult, self.as_type_reference()),
                Action::GroupBy => HandlerType::Shape(ShapeKind::GroupByResult, self.as_type_reference()),
                _ => HandlerType::Shape(ShapeKind::Result, self.as_type_reference()),
            };
            HandlerType::InterfaceObject(clone_reference(data), vec![arg])
        }
    }
}

} // verus!
