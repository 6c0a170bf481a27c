use teo_parser::ast::model::ModelResolved;
use teo_runtime::action::Action;
use teo_runtime::error::Error;
use teo_runtime::model::builder::Builder as ModelBuilder;
use teo_runtime::model::field::Builder as FieldBuilder;
use teo_runtime::model::field::Index as FieldIndex;
use teo_runtime::model::handler_type::{HandlerType, ShapeKind, TypeReference};
use teo_runtime::model::index::{Index, Item, Type};
use teo_runtime::model::property::Builder as PropertyBuilder;
use teo_runtime::model::relation::Builder as RelationBuilder;
use teo_runtime::model::relation::delete::Delete;
use teo_runtime::model::relation::update::Update;
use teo_runtime::model::Model;
use teo_runtime::pipeline::Pipeline;
use teo_runtime::readwrite::{Read, Write};
use teo_runtime::sort::Sort;
use teo_runtime::type_info::TypeInfo;

fn strings(v: &[&str]) -> Vec<String> {
    v.iter().map(|s| s.to_string()).collect()
}

fn scalar() -> TypeInfo {
    TypeInfo { optional: false, array: false, int_or_float: false, decimal: false }
}

fn int_type() -> TypeInfo {
    TypeInfo { optional: false, array: false, int_or_float: true, decimal: false }
}

fn optional() -> TypeInfo {
    TypeInfo { optional: true, array: false, int_or_float: false, decimal: false }
}

fn many() -> TypeInfo {
    TypeInfo { optional: false, array: true, int_or_float: false, decimal: false }
}

fn user_builder() -> ModelBuilder {
    let mut b = ModelBuilder::new(strings(&["auth", "User"]), vec![0, 3]);
    let mut id = FieldBuilder::new("id".to_string(), int_type());
    id.set_index(Some(FieldIndex::new(Type::Primary, "id".to_string(), Sort::Asc, None)));
    id.set_auto_increment(true);
    b.insert_field("id".to_string(), id.build());
    let mut email = FieldBuilder::new("email".to_string(), scalar());
    email.set_index(Some(FieldIndex::new(Type::Unique, "email".to_string(), Sort::Desc, None)));
    email.set_column_name("e_mail".to_string());
    b.insert_field("email".to_string(), email.build());
    let mut age = FieldBuilder::new("age".to_string(), int_type());
    age.set_optional();
    age.set_write(Write::NoWrite);
    b.insert_field("age".to_string(), age.build());
    let mut secret = FieldBuilder::new("secret".to_string(), scalar());
    secret.set_read(Read::NoRead);
    secret.set_virtual(true);
    b.insert_field("secret".to_string(), secret.build());
    let mut full = PropertyBuilder::new("fullName".to_string(), scalar());
    full.set_getter(Some(Pipeline::new()));
    full.set_cached(true);
    full.set_dependencies(strings(&["email"]));
    b.insert_property("fullName".to_string(), full.build());
    b
}

#[test]
fn builder_derives_table_name_and_namespace() {
    let b = ModelBuilder::new(strings(&["std", "admin", "User"]), vec![]);
    assert_eq!(b.table_name(), "std_admin__User");
    assert_eq!(b.namespace_path(), &strings(&["std", "admin"]));
    let top = ModelBuilder::new(strings(&["User"]), vec![]);
    assert_eq!(top.table_name(), "User");
    assert_eq!(top.namespace_path().len(), 0);
}

#[test]
fn build_without_primary_index_fails() {
    let mut b = ModelBuilder::new(strings(&["Post"]), vec![]);
    b.insert_field("title".to_string(), FieldBuilder::new("title".to_string(), scalar()).build());
    match b.build(ModelResolved::new()) {
        Err(e) => assert_eq!(e, Error::MissingPrimaryIndex),
        Ok(_) => panic!("a model without a primary index was built"),
    }
}

#[test]
fn build_resolves_primary_index_and_indexes() {
    let model = user_builder().build(ModelResolved::new()).unwrap();
    assert_eq!(model.primary_index_name(), "id");
    let primary = model.primary_index().unwrap();
    assert_eq!(primary.kind(), Type::Primary);
    assert_eq!(primary.keys(), &strings(&["id"]));
    assert_eq!(model.name(), "User");
    assert_eq!(model.table_name(), "auth__User");
    assert_eq!(model.namespace_path(), &strings(&["auth"]));
    assert_eq!(model.builtin_handlers.len(), 15);
}

#[test]
fn build_derives_key_lists() {
    let model = user_builder().build(ModelResolved::new()).unwrap();
    let cache = model.cache();
    assert_eq!(cache.all_keys, strings(&["id", "email", "age", "secret", "fullName"]));
    assert_eq!(cache.input_keys, strings(&["id", "email", "secret"]));
    assert_eq!(cache.save_keys, strings(&["id", "email", "age", "fullName"]));
    assert_eq!(cache.output_keys, strings(&["id", "email", "age", "fullName"]));
    assert_eq!(cache.auto_keys, strings(&["id"]));
    assert_eq!(cache.scalar_keys, strings(&["id", "email", "age", "secret"]));
    assert_eq!(cache.scalar_number_keys, strings(&["id", "age"]));
    assert_eq!(cache.unique_query_keys.len(), 2);
    assert!(cache.field_property_map.get("email").is_some());
    assert_eq!(cache.field_property_map.get("email").unwrap(), &strings(&["fullName"]));
}

#[test]
fn aggregate_keys() {
    let model = user_builder().build(ModelResolved::new()).unwrap();
    let count = model.allowed_keys_for_aggregate("_count");
    assert!(count.contains_key("_all"));
    assert!(count.contains_key("email"));
    let min = model.allowed_keys_for_aggregate("_min");
    assert!(!min.contains_key("_all"));
    assert!(min.contains_key("email"));
    let avg = model.allowed_keys_for_aggregate("_avg");
    assert!(avg.contains_key("age"));
    assert!(!avg.contains_key("email"));
}

#[test]
fn field_lookups() {
    let model = user_builder().build(ModelResolved::new()).unwrap();
    assert_eq!(model.field("email").unwrap().column_name(), "e_mail");
    assert!(model.field("missing").is_none());
    assert_eq!(model.field_with_column_name("e_mail").unwrap().name, "email");
    assert!(model.property("fullName").is_some());
}

#[test]
fn unique_field_is_not_copied() {
    let mut email = FieldBuilder::new("email".to_string(), scalar());
    email.set_index(Some(FieldIndex::new(Type::Unique, "email".to_string(), Sort::Asc, None)));
    assert!(!email.build().copy());
    let mut tag = FieldBuilder::new("tag".to_string(), scalar());
    tag.set_index(Some(FieldIndex::new(Type::Index, "tag".to_string(), Sort::Asc, None)));
    assert!(tag.build().copy());
    assert!(FieldBuilder::new("plain".to_string(), scalar()).build().copy());
}

#[test]
fn relation_default_rules() {
    let mut fk = FieldBuilder::new("authorId".to_string(), int_type());
    fk.set_foreign_key(true);
    let fk = fk.build();
    let fields = vec![&fk];

    let mut optional_with_key = RelationBuilder::new("author".to_string(), optional());
    optional_with_key.set_fields(strings(&["authorId"]));
    optional_with_key.set_references(strings(&["id"]));
    let r = optional_with_key.build(&fields);
    assert!(r.has_foreign_key());
    assert_eq!(r.delete(), Delete::Nullify);
    assert_eq!(r.update(), Update::Nullify);

    let optional_without_key = RelationBuilder::new("profile".to_string(), optional()).build(&fields);
    assert!(!optional_without_key.has_foreign_key());
    assert_eq!(optional_without_key.delete(), Delete::NoAction);

    let to_many = RelationBuilder::new("posts".to_string(), many()).build(&fields);
    assert_eq!(to_many.delete(), Delete::NoAction);
    assert_eq!(to_many.update(), Update::NoAction);

    let required = RelationBuilder::new("owner".to_string(), scalar()).build(&fields);
    assert_eq!(required.delete(), Delete::Cascade);
    assert_eq!(required.update(), Update::Update);

    let mut declared = RelationBuilder::new("owner".to_string(), scalar());
    declared.set_delete(Delete::Deny);
    declared.set_update(Update::Delete);
    let declared = declared.build(&fields);
    assert_eq!(declared.delete(), Delete::Deny);
    assert_eq!(declared.update(), Update::Delete);
}

#[test]
fn relation_pairs_fields_with_references() {
    let mut b = RelationBuilder::new("author".to_string(), scalar());
    b.set_fields(strings(&["authorId", "authorTenant"]));
    b.set_references(strings(&["id", "tenant"]));
    let r = b.build(&vec![]);
    assert_eq!(r.iter(), vec![("authorId", "id"), ("authorTenant", "tenant")]);
    assert_eq!(r.len(), 2);
    assert!(!r.has_join_table());
}

#[test]
fn collect_field_index_names_the_index_after_the_field() {
    let b = ModelBuilder::new(strings(&["User"]), vec![]);
    let mut email = FieldBuilder::new("email".to_string(), scalar());
    email.set_index(Some(FieldIndex::new(Type::Unique, "email_col".to_string(), Sort::Desc, Some(3))));
    let email = email.build();
    let index = b.collect_field_index(&email).unwrap();
    assert_eq!(index.kind(), Type::Unique);
    assert_eq!(index.name(), "email");
    assert_eq!(index.items()[0], Item::new("email_col".to_string(), Sort::Desc, Some(3)));
    let plain = FieldBuilder::new("plain".to_string(), scalar()).build();
    assert!(b.collect_field_index(&plain).is_none());
}

#[test]
fn declared_primary_index_is_kept() {
    let mut b = ModelBuilder::new(strings(&["Pair"]), vec![]);
    b.insert_field("a".to_string(), FieldBuilder::new("a".to_string(), scalar()).build());
    b.insert_field("b".to_string(), FieldBuilder::new("b".to_string(), scalar()).build());
    b.insert_index(
        "a_b".to_string(),
        Index::new(Type::Primary, "a_b".to_string(), vec![
            Item::new("a".to_string(), Sort::Asc, None),
            Item::new("b".to_string(), Sort::Asc, None),
        ]),
    );
    let model = b.build(ModelResolved::new()).unwrap();
    assert_eq!(model.primary_index_name(), "a_b");
    assert_eq!(model.primary_index().unwrap().keys(), &strings(&["a", "b"]));
}

fn reference(path: &[&str]) -> TypeReference {
    TypeReference { parser_path: vec![9], path: strings(path) }
}

#[test]
fn builtin_handler_input_types() {
    let model = user_builder().build(ModelResolved::new()).unwrap();
    match model.input_type_for_builtin_handler(Action::Upsert) {
        HandlerType::Shape(kind, r) => {
            assert_eq!(kind, ShapeKind::UpsertArgs);
            assert_eq!(r.path, strings(&["auth", "User"]));
            assert_eq!(r.parser_path, vec![0, 3]);
        },
        _ => panic!("not a shape"),
    }
}

#[test]
fn builtin_handler_output_types() {
    let model = user_builder().build(ModelResolved::new()).unwrap();
    let data = reference(&["std", "Data"]);
    let meta = reference(&["std", "DataMeta"]);
    let paging = reference(&["std", "PagingInfo"]);
    match model.output_type_for_builtin_handler(Action::FindMany, &data, &meta, &paging) {
        HandlerType::InterfaceObject(r, args) => {
            assert_eq!(r.path, strings(&["std", "DataMeta"]));
            assert_eq!(args.len(), 2);
            match &args[0] {
                HandlerType::Array(inner) => match inner.as_ref() {
                    HandlerType::Shape(kind, _) => assert_eq!(*kind, ShapeKind::Result),
                    _ => panic!("not a shape"),
                },
                _ => panic!("not an array"),
            }
            match &args[1] {
                HandlerType::InterfaceObject(p, none) => {
                    assert_eq!(p.path, strings(&["std", "PagingInfo"]));
                    assert!(none.is_empty());
                },
                _ => panic!("not paging info"),
            }
        },
        _ => panic!("not an interface object"),
    }
    match model.output_type_for_builtin_handler(Action::Count, &data, &meta, &paging) {
        HandlerType::InterfaceObject(r, args) => {
            assert_eq!(r.path, strings(&["std", "Data"]));
            assert!(matches!(args[0], HandlerType::Int64));
        },
        _ => panic!("not an interface object"),
    }
    match model.output_type_for_builtin_handler(Action::GroupBy, &data, &meta, &paging) {
        HandlerType::InterfaceObject(_, args) => match &args[0] {
            HandlerType::Shape(kind, _) => assert_eq!(*kind, ShapeKind::GroupByResult),
            _ => panic!("not a shape"),
        },
        _ => panic!("not an interface object"),
    }
    match model.output_type_for_builtin_handler(Action::Create, &data, &meta, &paging) {
        HandlerType::InterfaceObject(_, args) => match &args[0] {
            HandlerType::Shape(kind, _) => assert_eq!(*kind, ShapeKind::Result),
            _ => panic!("not a shape"),
        },
        _ => panic!("not an interface object"),
    }
}

#[test]
fn new_model_defaults() {
    let m = Model::new();
    assert!(m.generate_client());
    assert!(m.generate_entity());
    assert!(m.show_in_studio());
    assert!(m.synthesize_shapes());
    assert!(!m.allows_drop_when_migrate());
    assert!(m.primary_index().is_none());
}

use teo_runtime::model::field::default::FieldDefault;
use teo_runtime::value::Value;

#[test]
fn data_and_defaults_are_carried_into_what_is_built() {
    let mut b = user_builder();
    b.insert_data_entry("label".to_string(), Value::String("people".to_string()));
    b.insert_data_entry("order".to_string(), Value::Int(2));
    b.remove_data_entry("order");
    assert!(b.data_entry("order").is_none());
    assert!(matches!(b.data_entry("label"), Some(Value::String(s)) if s == "people"));

    let mut age = FieldBuilder::new("age".to_string(), int_type());
    assert!(age.default().is_none());
    assert_eq!(age.data().len(), 0);
    age.set_default(Some(FieldDefault::Value(Value::Int(18))));
    age.insert_data_entry("unit".to_string(), Value::String("year".to_string()));
    let age = age.build();
    assert!(matches!(age.default(), Some(FieldDefault::Value(Value::Int(18)))));
    assert_eq!(age.data().len(), 1);
    b.insert_field("age".to_string(), age);

    let mut rank = PropertyBuilder::new("rank".to_string(), int_type());
    rank.insert_data_entry("hidden".to_string(), Value::Bool(true));
    let rank = rank.build();
    assert!(matches!(rank.data().get("hidden"), Some(Value::Bool(true))));

    let mut posts = RelationBuilder::new("posts".to_string(), many());
    posts.insert_data_entry("page".to_string(), Value::Int(10));
    assert!(matches!(posts.data_entry("page"), Some(Value::Int(10))));
    let posts = posts.build(&vec![]);
    assert!(matches!(posts.data().get("page"), Some(Value::Int(10))));

    let m = b.build(ModelResolved::new()).unwrap();
    assert_eq!(m.data().len(), 1);
    assert!(matches!(m.data().get("label"), Some(Value::String(s)) if s == "people"));
    assert!(matches!(m.field("age").unwrap().default(), Some(FieldDefault::Value(Value::Int(18)))));
}
