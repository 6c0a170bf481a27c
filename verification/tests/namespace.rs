use teo_parser::ast::model::ModelResolved;
use teo_runtime::model::builder::Builder as ModelBuilder;
use teo_runtime::model::field::Builder as FieldBuilder;
use teo_runtime::model::field::Index as FieldIndex;
use teo_runtime::model::index::Type;
use teo_runtime::model::relation::Builder as RelationBuilder;
use teo_runtime::model::Model;
use teo_runtime::namespace::Namespace;
use teo_runtime::sort::Sort;
use teo_runtime::type_info::TypeInfo;

type Ns = Namespace<u32, String, u8, u16, u32>;

fn strings(v: &[&str]) -> Vec<String> {
    v.iter().map(|s| s.to_string()).collect()
}

fn scalar() -> TypeInfo {
    TypeInfo { optional: false, array: false, int_or_float: false, decimal: false }
}

fn model(path: &[&str]) -> Model {
    let mut b = ModelBuilder::new(strings(path), vec![]);
    let mut id = FieldBuilder::new("id".to_string(), scalar());
    id.set_index(Some(FieldIndex::new(Type::Primary, "id".to_string(), Sort::Asc, None)));
    b.insert_field("id".to_string(), id.build());
    b.build(ModelResolved::new()).unwrap()
}

#[test]
fn main_namespace_is_named_main() {
    let ns = Ns::main();
    assert!(ns.is_main());
    assert!(!ns.is_std());
    assert_eq!(ns.name(), "main");
    assert_eq!(ns.path().len(), 0);
}

#[test]
fn child_namespaces_extend_the_path() {
    let mut ns = Ns::main();
    ns.child_namespace_or_create("std");
    let std = ns.namespace("std").unwrap();
    assert!(std.is_std());
    assert_eq!(std.name(), "std");
    assert_eq!(std.path(), &strings(&["std"]));
    ns.descendant_namespace_or_create_at_path(&strings(&["a", "b", "c"]));
    let c = ns.namespace_at_path(&strings(&["a", "b", "c"])).unwrap();
    assert_eq!(c.path(), &strings(&["a", "b", "c"]));
    assert_eq!(c.name(), "c");
    assert!(ns.namespace_at_path(&strings(&["a", "x"])).is_none());
    assert!(ns.namespace_at_path(&vec![]).unwrap().is_main());
}

#[test]
fn creating_an_existing_namespace_keeps_it() {
    let mut ns = Ns::main();
    ns.insert_model_at_path(&strings(&["a", "User"]), model(&["a", "User"]));
    ns.child_namespace_or_create("a");
    assert!(ns.model_at_path(&strings(&["a", "User"])).is_some());
}

#[test]
fn models_found_where_inserted() {
    let mut ns = Ns::main();
    ns.insert_model("User".to_string(), model(&["User"]));
    ns.insert_model_at_path(&strings(&["blog", "Post"]), model(&["blog", "Post"]));
    assert_eq!(ns.model_at_path(&strings(&["User"])).unwrap().table_name(), "User");
    assert_eq!(ns.model_at_path(&strings(&["blog", "Post"])).unwrap().table_name(), "blog__Post");
    assert!(ns.model_at_path(&strings(&["blog", "User"])).is_none());
    assert!(ns.model_at_path(&strings(&["shop", "Post"])).is_none());
    assert_eq!(ns.namespace("blog").unwrap().path(), &strings(&["blog"]));
}

#[test]
fn handlers_found_where_replaced() {
    let mut ns = Ns::main();
    ns.insert_handler("ping".to_string(), 1);
    ns.replace_handler_at_path(&strings(&["api", "status"]), 2, false);
    ns.replace_handler_at_path(&strings(&["api", "users", "list"]), 3, true);
    assert_eq!(ns.handler_at_path(&strings(&["ping"])), Some(&1));
    assert_eq!(ns.handler_at_path(&strings(&["api", "status"])), Some(&2));
    assert_eq!(ns.handler_at_path(&strings(&["api", "users", "list"])), Some(&3));
    assert_eq!(ns.handler_at_path(&strings(&["api", "users", "other"])), None);
    assert_eq!(ns.handler_at_path(&strings(&["nothing", "here"])), None);
    // the group made for the handler is a model handler group
    let api = ns.namespace("api").unwrap();
    assert!(api.model_handler_groups.get("users").is_some());
    assert!(api.handler_groups.get("users").is_none());
    assert_eq!(api.model_handler_groups.get("users").unwrap().path(), &strings(&["api", "users"]));
}

#[test]
fn handler_groups_take_handlers() {
    let mut ns = Ns::main();
    ns.define_handler_group("tools".to_string());
    ns.replace_handler_at_path(&strings(&["tools", "hash"]), 7, true);
    assert_eq!(ns.handler_groups.get("tools").unwrap().handler("hash"), Some(&7));
    assert_eq!(ns.handler_at_path(&strings(&["tools", "hash"])), Some(&7));
    ns.define_model_handler_group("User".to_string());
    assert!(ns.model_handler_groups.get("User").unwrap().handler("hash").is_none());
}

#[test]
fn handler_templates_found_where_replaced() {
    let mut ns = Ns::main();
    ns.insert_handler_template("base".to_string(), 5);
    ns.replace_handler_template_at_path(&strings(&["x", "y", "tmpl"]), 6);
    assert_eq!(ns.handler_template_at_path(&strings(&["base"])), Some(&5));
    assert_eq!(ns.handler_template_at_path(&strings(&["x", "y", "tmpl"])), Some(&6));
    assert_eq!(ns.handler_template_at_path(&strings(&["x", "tmpl"])), None);
}

#[test]
fn models_under_connector_stop_at_connectors() {
    let mut ns = Ns::main();
    ns.insert_model("A".to_string(), model(&["A"]));
    ns.insert_model_at_path(&strings(&["plain", "B"]), model(&["plain", "B"]));
    ns.insert_model_at_path(&strings(&["db", "C"]), model(&["db", "C"]));
    // give the namespace `db` a connector of its own
    let mut db = ns.namespaces.remove(0);
    assert_eq!(db.0, "db");
    db.1.connector = Some("sqlite".to_string());
    ns.namespaces.insert(0, db);
    let under: Vec<&str> = ns.models_under_connector().iter().map(|m| m.table_name()).collect();
    assert_eq!(under, vec!["A", "plain__B"]);
    let all: Vec<&str> = ns.collect_models(|_m: &Model| true).iter().map(|m| m.table_name()).collect();
    assert_eq!(all, vec!["A", "db__C", "plain__B"]);
    let some: Vec<&str> = ns.collect_models(|m: &Model| m.table_name() != "A").iter().map(|m| m.table_name()).collect();
    assert_eq!(some, vec!["db__C", "plain__B"]);
}

#[test]
fn opposite_and_through_relations() {
    let mut ns = Ns::main();
    let mut user = ModelBuilder::new(strings(&["User"]), vec![]);
    let mut id = FieldBuilder::new("id".to_string(), scalar());
    id.set_index(Some(FieldIndex::new(Type::Primary, "id".to_string(), Sort::Asc, None)));
    user.insert_field("id".to_string(), id.build());
    let mut posts = RelationBuilder::new("posts".to_string(), scalar());
    posts.set_model(strings(&["Post"]));
    posts.set_fields(strings(&["id"]));
    posts.set_references(strings(&["authorId"]));
    user.insert_relation("posts".to_string(), posts.build(&vec![]));
    ns.insert_model("User".to_string(), user.build(ModelResolved::new()).unwrap());

    let mut post = ModelBuilder::new(strings(&["Post"]), vec![]);
    let mut pid = FieldBuilder::new("id".to_string(), scalar());
    pid.set_index(Some(FieldIndex::new(Type::Primary, "id".to_string(), Sort::Asc, None)));
    post.insert_field("id".to_string(), pid.build());
    let mut author = RelationBuilder::new("author".to_string(), scalar());
    author.set_model(strings(&["User"]));
    author.set_fields(strings(&["authorId"]));
    author.set_references(strings(&["id"]));
    let author = author.build(&vec![]);
    post.insert_relation("author".to_string(), author);
    ns.insert_model("Post".to_string(), post.build(ModelResolved::new()).unwrap());

    let post_model = ns.model_at_path(&strings(&["Post"])).unwrap();
    let author = post_model.relation("author").unwrap();
    let (m, opposite) = ns.opposite_relation(author);
    assert_eq!(m.table_name(), "User");
    assert_eq!(opposite.unwrap().name, "posts");

    let mut through = RelationBuilder::new("tags".to_string(), scalar());
    through.set_through(Some(strings(&["Post"])));
    through.set_local(Some("author".to_string()));
    let through = through.build(&vec![]);
    let (tm, local) = ns.through_relation(&through);
    assert_eq!(tm.table_name(), "Post");
    assert_eq!(local.name, "author");

    ns.set_model_opposite_relations_map(vec![(strings(&["User"]), vec![(strings(&["Post"]), "author".to_string())])]);
    let user_model = ns.model_at_path(&strings(&["User"])).unwrap();
    let listed = ns.model_opposite_relations(user_model);
    assert_eq!(listed.len(), 1);
    assert_eq!(listed[0].0.table_name(), "Post");
    assert_eq!(listed[0].1.name, "author");
}

#[test]
fn connector_reference_is_read_back() {
    let mut ns = Ns::main();
    assert!(ns.connector_reference().is_none());
    ns.connector_reference = Some(strings(&["db"]));
    assert_eq!(ns.connector_reference(), Some(&strings(&["db"])));
}

#[test]
fn decorators_found_where_defined() {
    let mut ns = Ns::main();
    ns.child_namespace_or_create("std");
    let mut std = ns.namespaces.remove(0);
    std.1.define_model_field_decorator("unique", 1);
    std.1.define_model_property_decorator("cached", 2);
    std.1.define_model_relation_decorator("relation", 3);
    ns.namespaces.insert(0, std);
    let unique = ns.model_field_decorator_at_path(&strings(&["std", "unique"])).unwrap();
    assert_eq!(unique.path(), &strings(&["std", "unique"]));
    assert_eq!(*unique.call(), 1);
    let cached = ns.model_property_decorator_at_path(&strings(&["std", "cached"])).unwrap();
    assert_eq!(cached.path(), &strings(&["std", "cached"]));
    assert_eq!(*cached.call(), 2);
    let relation = ns.model_relation_decorator_at_path(&strings(&["std", "relation"])).unwrap();
    assert_eq!(relation.path, strings(&["std", "relation"]));
    assert_eq!(relation.call, 3);
    assert!(ns.model_field_decorator_at_path(&strings(&["unique"])).is_none());
    assert!(ns.model_field_decorator_at_path(&strings(&["std", "cached"])).is_none());
}
