use vstd::prelude::*;
use crate::name_map::NameMap;
use teo_parser::ast::model::ModelResolved;

verus! {

/// `teo_parser::ast::model::ModelResolved`: the shapes, enums and interface enums the parser
/// synthesized for a model.
#[verifier::external_type_specification]
#[verifier::external_body]
pub struct ExModelResolved(ModelResolved);

/// `ModelResolved::new`: a resolved model with nothing synthesized yet. The value is carried
/// through unread, so nothing is stated of it.
#[verifier::external_body]
fn empty_shape() -> (r: ModelResolved) {
    ModelResolved::new()
}

/// The key lists that a model derives from its fields, relations, properties and indexes
/// when it is built.
#[derive(Debug)]
pub struct Cache {
    pub all_keys: Vec<String>,
    pub input_keys: Vec<String>,
    pub save_keys: Vec<String>,
    pub save_keys_and_virtual_keys: Vec<String>,
    pub output_keys: Vec<String>,
    pub query_keys: Vec<String>,
    /// For each index, the set of fields it covers.
    pub unique_query_keys: Vec<NameMap<()>>,
    pub sort_keys: Vec<String>,
    pub auto_keys: Vec<String>,
    pub deny_relation_keys: Vec<String>,
    pub scalar_keys: Vec<String>,
    pub scalar_number_keys: Vec<String>,
    pub local_output_keys: Vec<String>,
    pub relation_output_keys: Vec<String>,
    /// For each field, the cached properties that depend on it.
    pub field_property_map: NameMap<Vec<String>>,
    pub has_virtual_fields: bool,
    /// The shapes the parser synthesized for the model.
    pub shape: ModelResolved,
}

impl Cache {
    /// A cache with every list and map empty.
    pub fn new() -> (r: Self)
        ensures
            r.all_keys@.len() == 0,
            r.input_keys@.len() == 0,
            r.save_keys@.len() == 0,
            r.save_keys_and_virtual_keys@.len() == 0,
            r.output_keys@.len() == 0,
            r.query_keys@.len() == 0,
            r.unique_query_keys@.len() == 0,
            r.sort_keys@.len() == 0,
            r.auto_keys@.len() == 0,
            r.deny_relation_keys@.len() == 0,
            r.scalar_keys@.len() == 0,
            r.scalar_number_keys@.len() == 0,
            r.local_output_keys@.len() == 0,
            r.relation_output_keys@.len() == 0,
            r.field_property_map@ == Map::<Seq<char>, Vec<String>>::empty(),
            !r.has_virtual_fields,
    {
        Cache {
            all_keys: Vec::new(),
            input_keys: Vec::new(),
            save_keys: Vec::new(),
            save_keys_and_virtual_keys: Vec::new(),
            output_keys: Vec::new(),
            query_keys: Vec::new(),
            unique_query_keys: Vec::new(),
            sort_keys: Vec::new(),
            auto_keys: Vec::new(),
            deny_relation_keys: Vec::new(),
            scalar_keys: Vec::new(),
            scalar_number_keys: Vec::new(),
            local_output_keys: Vec::new(),
            relation_output_keys: Vec::new(),
            field_property_map: NameMap::new(),
            has_virtual_fields: false,
            shape: empty_shape(),
        }
    }
}

} // verus!
