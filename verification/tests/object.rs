use teo_parser::ast::model::ModelResolved;
use teo_runtime::model::builder::Builder as ModelBuilder;
use teo_runtime::model::field::Builder as FieldBuilder;
use teo_runtime::model::field::Index as FieldIndex;
use teo_runtime::model::index::Type;
use teo_runtime::model::object::object::{check_user_json_keys, Object, ObjectError};
use teo_runtime::model::property::Builder as PropertyBuilder;
use teo_runtime::model::relation::Builder as RelationBuilder;
use teo_runtime::model::Model;
use teo_runtime::action::Action;
use teo_runtime::optionality::Optionality;
use teo_runtime::pipeline::Pipeline;
use teo_runtime::readwrite::Write;
use teo_runtime::sort::Sort;
use teo_runtime::type_info::TypeInfo;
use teo_runtime::model::field::default::FieldDefault;
use teo_runtime::value::Value;

fn strings(v: &[&str]) -> Vec<String> {
    v.iter().map(|s| s.to_string()).collect()
}

fn scalar() -> TypeInfo {
    TypeInfo { optional: false, array: false, int_or_float: false, decimal: false }
}

fn model() -> Model {
    let mut b = ModelBuilder::new(strings(&["User"]), vec![]);
    let mut id = FieldBuilder::new("id".to_string(), scalar());
    id.set_index(Some(FieldIndex::new(Type::Primary, "id".to_string(), Sort::Asc, None)));
    id.set_auto(true);
    id.set_column_name("_id".to_string());
    b.insert_field("id".to_string(), id.build());
    b.insert_field("name".to_string(), FieldBuilder::new("name".to_string(), scalar()).build());
    let mut nick = FieldBuilder::new("nick".to_string(), scalar());
    nick.set_optionality(Optionality::PresentWith(strings(&["name"])));
    nick.set_write(Write::WriteOnce);
    b.insert_field("nick".to_string(), nick.build());
    let mut email = FieldBuilder::new("email".to_string(), scalar());
    email.set_optionality(Optionality::PresentWithout(strings(&["phone", "name"])));
    email.set_write(Write::WriteOnCreate);
    email.set_default(Some(FieldDefault::Value(Value::String("none".to_string()))));
    b.insert_field("email".to_string(), email.build());
    let mut phone = FieldBuilder::new("phone".to_string(), scalar());
    phone.set_optional();
    phone.set_write(Write::WriteNonNull);
    b.insert_field("phone".to_string(), phone.build());
    let mut label = PropertyBuilder::new("label".to_string(), scalar());
    label.set_getter(Some(Pipeline::new()));
    label.set_cached(true);
    label.set_dependencies(strings(&["name"]));
    b.insert_property("label".to_string(), label.build());
    let mut group = RelationBuilder::new("group".to_string(), scalar());
    group.set_model(strings(&["Group"]));
    group.set_optionality(Optionality::Required);
    group.set_fields(strings(&["groupId"]));
    group.set_references(strings(&["id"]));
    b.insert_relation("group".to_string(), group.build(&vec![]));
    b.build(ModelResolved::new()).unwrap()
}

#[test]
fn set_value_checks_the_key() {
    let m = model();
    let mut o: Object<i32> = Object::new(&m, Action::Create);
    assert_eq!(o.model_path(), &strings(&["User"]));
    assert_eq!(o.action(), Action::Create);
    assert!(o.set_value(&m, "name", Some(1)).is_ok());
    assert_eq!(o.get_value(&m, "name").unwrap(), Some(&1));
    match o.set_value(&m, "unknown", Some(2)) {
        Err(ObjectError::InvalidKey(k)) => assert_eq!(k, "unknown"),
        _ => panic!("an unknown key was accepted"),
    }
    match o.get_value(&m, "unknown") {
        Err(ObjectError::InvalidKey(k)) => assert_eq!(k, "unknown"),
        _ => panic!("an unknown key was read"),
    }
    assert!(o.set_value(&m, "name", None).is_ok());
    assert_eq!(o.get_value(&m, "name").unwrap(), None);
}

#[test]
fn new_objects_save_every_key_and_record_no_change() {
    let m = model();
    let mut o: Object<i32> = Object::new(&m, Action::Create);
    o.set_value(&m, "name", Some(1)).unwrap();
    assert!(!o.is_modified());
    assert_eq!(o.keys_for_save(&m), m.cache().save_keys);
}

#[test]
fn saved_objects_save_the_changed_keys() {
    let m = model();
    let mut o: Object<i32> = Object::new(&m, Action::Create);
    o.set_value(&m, "name", Some(1)).unwrap();
    o.cached_property_map.insert("label".to_string(), Some(9));
    o.clear_state();
    assert!(!o.is_new());
    assert_eq!(o.keys_for_save(&m), Vec::<String>::new());
    o.set_value(&m, "name", Some(2)).unwrap();
    assert!(o.is_modified());
    assert_eq!(o.keys_for_save(&m), strings(&["name", "label"]));
    assert!(o.modified_fields.contains_key("label"));
    assert!(o.cached_property_map.get("label").is_none());
    o.set_value_to_atomic_updator_map("phone", 5);
    assert_eq!(o.get_atomic_updator("phone"), Some(&5));
    assert_eq!(o.keys_for_save(&m), strings(&["name", "phone", "label"]));
}

#[test]
fn required_fields_are_validated_in_order() {
    let m = model();
    let mut o: Object<i32> = Object::new(&m, Action::Create);
    // `name` is required
    match o.validate_required_fields(&m, true, &vec![]) {
        Err(ObjectError::MissingRequiredInput(k)) => assert_eq!(k, "name"),
        _ => panic!("a missing name was accepted"),
    }
    o.set_value(&m, "name", Some(1)).unwrap();
    // `nick` is present with `name`
    match o.validate_required_fields(&m, true, &vec![]) {
        Err(ObjectError::MissingRequiredInputWithType(k)) => assert_eq!(k, "nick"),
        _ => panic!("a missing nick was accepted"),
    }
    o.set_value(&m, "nick", Some(2)).unwrap();
    // `email` is present without `phone`, the first of its fields
    match o.validate_required_fields(&m, true, &vec![]) {
        Err(ObjectError::MissingRequiredInputWithType(k)) => assert_eq!(k, "email"),
        _ => panic!("a missing email was accepted"),
    }
    o.set_value(&m, "phone", Some(3)).unwrap();
    assert!(o.validate_required_fields(&m, true, &vec![]).is_ok());
    // the required relation to a group has no value for its field
    match o.validate_required_fields(&m, false, &vec![]) {
        Err(ObjectError::MissingRequiredInput(k)) => assert_eq!(k, "group"),
        _ => panic!("a missing group was accepted"),
    }
    o.ignore_relation("group");
    assert!(o.validate_required_fields(&m, false, &vec![]).is_ok());
}

#[test]
fn write_rules() {
    let m = model();
    let mut o: Object<i32> = Object::new(&m, Action::Create);
    assert!(o.check_write_rule(&m, "email", false, false).is_ok());
    assert!(o.check_write_rule(&m, "nick", false, false).is_ok());
    o.set_value(&m, "nick", Some(1)).unwrap();
    o.clear_new_state();
    match o.check_write_rule(&m, "email", false, true) {
        Err(ObjectError::UnexpectedKey(k)) => assert_eq!(k, "email"),
        _ => panic!("email was written after creation"),
    }
    assert!(o.check_write_rule(&m, "nick", false, true).is_err());
    assert!(o.check_write_rule(&m, "phone", false, false).is_ok());
    assert!(o.check_write_rule(&m, "phone", true, true).is_err());
    assert!(o.check_write_rule(&m, "name", true, false).is_ok());
}

#[test]
fn selection_of_output_keys() {
    let m = model();
    let mut o: Object<i32> = Object::new(&m, Action::Create);
    o.set_select(&m, None);
    assert!(o.selected_fields.is_empty());
    assert!(o.is_selected_for_output("name"));
    o.set_select(&m, Some(&vec![("name".to_string(), true), ("email".to_string(), true)]));
    assert_eq!(o.selected_fields, strings(&["name", "email"]));
    assert!(o.is_selected_for_output("email"));
    assert!(!o.is_selected_for_output("phone"));
    o.set_select(&m, Some(&vec![("name".to_string(), true), ("phone".to_string(), false)]));
    assert_eq!(o.selected_fields, strings(&["id", "name", "nick", "email", "label"]));
    o.set_select(&m, Some(&vec![]));
    assert_eq!(o.selected_fields, strings(&["id", "name", "nick", "email", "label"]));
}

#[test]
fn keys_to_assign_from_input() {
    let m = model();
    let mut o: Object<i32> = Object::new(&m, Action::Create);
    assert_eq!(o.keys_to_assign(&m, &strings(&["name"])), m.cache().all_keys);
    o.is_initialized = true;
    assert_eq!(o.keys_to_assign(&m, &strings(&["phone", "name"])), strings(&["name", "phone"]));
}

#[test]
fn unallowed_keys_are_reported() {
    assert!(check_user_json_keys(&strings(&["a", "b"]), &strings(&["b", "a", "c"])).is_ok());
    match check_user_json_keys(&strings(&["a", "x", "y"]), &strings(&["a"])) {
        Err(ObjectError::KeyNotAllowed(k)) => assert_eq!(k, "x"),
        _ => panic!("an unallowed key was accepted"),
    }
}

#[test]
fn identifiers() {
    let m = model();
    let mut o: Object<i32> = Object::new(&m, Action::Create);
    o.set_value(&m, "id", Some(1)).unwrap();
    o.clear_state();
    o.previous_value_map.insert("id".to_string(), Some(1));
    o.set_value(&m, "id", Some(2)).unwrap();
    assert_eq!(o.identifier(&m), vec![("id".to_string(), Some(&2))]);
    assert_eq!(o.previous_identifier(&m), vec![("id".to_string(), Some(&1))]);
    assert_eq!(o.db_identifier(&m), vec![("_id".to_string(), Some(&1))]);
}

use teo_runtime::model::object::input::{Input, InputValue};

#[test]
fn decode_field_inputs() {
    let set = InputValue::Dictionary(vec![("set".to_string(), InputValue::Int(3))]);
    match Input::decode_field(&set) {
        Input::SetValue(InputValue::Int(n)) => assert_eq!(*n, 3),
        _ => panic!("a set was not decoded"),
    }
    let increment = InputValue::Dictionary(vec![("increment".to_string(), InputValue::Int(1))]);
    match Input::decode_field(&increment) {
        Input::AtomicUpdater(InputValue::Dictionary(entries)) => assert_eq!(entries[0].0, "increment"),
        _ => panic!("an atomic update was not decoded"),
    }
    let plain = InputValue::Str("x".to_string());
    match Input::decode_field(&plain) {
        Input::SetValue(InputValue::Str(s)) => assert_eq!(s, "x"),
        _ => panic!("a plain value was not decoded"),
    }
    let entries = vec![("a".to_string(), InputValue::Other)];
    let (k, _) = Input::key_value(&entries);
    assert_eq!(k, "a");
}

#[test]
fn filter_modes_and_takes() {
    let i_mode = vec![("mode".to_string(), InputValue::Str("caseInsensitive".to_string()))];
    assert!(Input::has_i_mode(&i_mode));
    let other_mode = vec![("mode".to_string(), InputValue::Str("default".to_string()))];
    assert!(!Input::has_i_mode(&other_mode));
    assert!(!Input::has_i_mode(&vec![]));
    let negative = InputValue::Dictionary(vec![("take".to_string(), InputValue::Int(-2))]);
    assert!(Input::has_negative_take(&negative));
    let positive = InputValue::Dictionary(vec![("take".to_string(), InputValue::Int(2))]);
    assert!(!Input::has_negative_take(&positive));
    assert!(!Input::has_negative_take(&InputValue::Int(-2)));
}

use teo_runtime::model::object::deletion::{delete_effect, denied_relation_key, find_denial, DeleteEffect};
use teo_runtime::model::relation::delete::Delete;

#[test]
fn deletion_effects_and_denials() {
    let m = model();
    let mut deny = RelationBuilder::new("owner".to_string(), scalar());
    deny.set_delete(Delete::Deny);
    let deny = deny.build(&vec![]);
    let mut cascade = RelationBuilder::new("items".to_string(), scalar());
    cascade.set_delete(Delete::Cascade);
    let cascade = cascade.build(&vec![]);
    let mut nullify = RelationBuilder::new("tag".to_string(), scalar());
    nullify.set_delete(Delete::Nullify);
    let nullify = nullify.build(&vec![]);
    let mut reset = RelationBuilder::new("tag".to_string(), scalar());
    reset.set_delete(Delete::Default);
    let reset = reset.build(&vec![]);
    assert_eq!(delete_effect(&deny), DeleteEffect::Nothing);
    assert_eq!(delete_effect(&cascade), DeleteEffect::Cascade);
    assert_eq!(delete_effect(&nullify), DeleteEffect::Nothing);
    assert_eq!(delete_effect(&reset), DeleteEffect::SetDefault);
    let relations = vec![(&m, &cascade), (&m, &deny), (&m, &deny)];
    assert_eq!(find_denial(&relations, &vec![5, 0, 2]), Some(2));
    assert_eq!(find_denial(&relations, &vec![5, 1, 2]), Some(1));
    assert_eq!(find_denial(&relations, &vec![5, 0, 0]), None);
    assert_eq!(denied_relation_key(&m, &deny), "User.owner");
}

#[test]
fn defaults_apply_before_initialization() {
    let m = model();
    let mut o: Object<i32> = Object::new(&m, Action::Create);
    assert!(o.needs_default_value("name", &strings(&["email"])));
    assert!(!o.needs_default_value("name", &strings(&["name"])));
    o.mark_initialized();
    assert!(!o.needs_default_value("name", &strings(&["email"])));
}

use teo_runtime::model::object::object::OutputSource;

#[test]
fn output_sources() {
    let m = model();
    let mut o: Object<i32> = Object::new(&m, Action::Create);
    assert_eq!(o.output_source(&m, "group"), OutputSource::Nothing);
    assert!(!o.has_query_relation_fetched("group"));
    o.record_fetched_relation("group", vec![Object::new(&m, Action::Create)]);
    assert!(o.has_query_relation_fetched("group"));
    assert_eq!(o.output_source(&m, "group"), OutputSource::Relation);
    assert_eq!(o.output_source(&m, "name"), OutputSource::Field);
    assert_eq!(o.output_source(&m, "label"), OutputSource::PropertyGetter);
    o.cached_property_map.insert("label".to_string(), Some(4));
    assert_eq!(o.output_source(&m, "label"), OutputSource::CachedProperty);
    assert_eq!(o.output_source(&m, "missing"), OutputSource::Nothing);
    o.set_select(&m, Some(&vec![("email".to_string(), true)]));
    assert_eq!(o.output_source(&m, "name"), OutputSource::Nothing);
    assert_eq!(o.output_source(&m, "email"), OutputSource::Field);
    assert_eq!(o.output_source(&m, "group"), OutputSource::Relation);
}

use teo_runtime::model::field::previous::Previous;

fn model_with_rules() -> Model {
    let mut b = ModelBuilder::new(strings(&["Item"]), vec![]);
    let mut id = FieldBuilder::new("id".to_string(), scalar());
    id.set_index(Some(FieldIndex::new(Type::Primary, "id".to_string(), Sort::Asc, None)));
    id.set_previous(Previous::Keep);
    b.insert_field("id".to_string(), id.build());
    let mut code = FieldBuilder::new("code".to_string(), scalar());
    code.set_optionality(Optionality::PresentIf(Pipeline::new()));
    b.insert_field("code".to_string(), code.build());
    let mut stamp = FieldBuilder::new("stamp".to_string(), scalar());
    stamp.set_optional();
    let mut on_save = Pipeline::new();
    on_save.items.push(strings(&["now"]));
    stamp.set_on_save(on_save);
    b.insert_field("stamp".to_string(), stamp.build());
    b.build(ModelResolved::new()).unwrap()
}

#[test]
fn previous_values_are_recorded_once() {
    let m = model_with_rules();
    let mut o: Object<i32> = Object::new(&m, Action::Create);
    o.set_value(&m, "id", Some(1)).unwrap();
    assert!(o.previous_value_map.get("id").is_none());
    o.clear_state();
    o.set_value(&m, "id", Some(2)).unwrap();
    assert_eq!(o.previous_value_map.get("id"), Some(&Some(1)));
    o.set_value(&m, "id", Some(3)).unwrap();
    assert_eq!(o.previous_value_map.get("id"), Some(&Some(1)));
    assert_eq!(o.get_previous_value(&m, "id").unwrap(), Some(&1));
    assert_eq!(o.previous_identifier(&m), vec![("id".to_string(), Some(&1))]);
    // a field that keeps no previous value records none
    o.set_value(&m, "code", Some(4)).unwrap();
    assert!(o.previous_value_map.get("code").is_none());
}

#[test]
fn present_if_and_on_save() {
    let m = model_with_rules();
    let mut o: Object<i32> = Object::new(&m, Action::Create);
    o.set_value(&m, "id", Some(1)).unwrap();
    assert_eq!(o.present_if_keys(&m), strings(&["code"]));
    assert!(o.validate_required_fields(&m, true, &vec![]).is_ok());
    match o.validate_required_fields(&m, true, &strings(&["code"])) {
        Err(ObjectError::MissingRequiredInput(k)) => assert_eq!(k, "code"),
        _ => panic!("a failed present-if was accepted"),
    }
    assert_eq!(Object::<i32>::on_save_keys(&m), strings(&["stamp"]));
    o.apply_on_save_value("stamp", Some(9));
    assert_eq!(o.get_value(&m, "stamp").unwrap(), Some(&9));
    o.set_value(&m, "code", Some(2)).unwrap();
    assert!(o.present_if_keys(&m).is_empty());
}

use teo_runtime::model::object::assign::AssignKind;
use teo_runtime::model::object::relations::RelationStep;
use teo_runtime::model::object::deletion::deletion_plan;
use teo_runtime::pipeline::{compare_needed, compare_outcome};

#[test]
fn deletion_plans() {
    let m = model();
    let mut deny = RelationBuilder::new("owner".to_string(), scalar());
    deny.set_delete(Delete::Deny);
    let deny = deny.build(&vec![]);
    let mut cascade = RelationBuilder::new("items".to_string(), scalar());
    cascade.set_delete(Delete::Cascade);
    let cascade = cascade.build(&vec![]);
    let relations = vec![(&m, &cascade), (&m, &deny)];
    assert_eq!(deletion_plan(&relations, &vec![3, 1]), Err("User.owner".to_string()));
    assert_eq!(deletion_plan(&relations, &vec![3, 0]), Ok(vec![DeleteEffect::Cascade, DeleteEffect::Nothing]));
}

#[test]
fn relation_finders_pair_fields_with_values() {
    let m = model();
    let mut o: Object<i32> = Object::new(&m, Action::Create);
    o.set_value(&m, "name", Some(7)).unwrap();
    let mut r = RelationBuilder::new("r".to_string(), scalar());
    r.set_fields(strings(&["name", "nick"]));
    r.set_references(strings(&["id", "code"]));
    let r = r.build(&vec![]);
    assert_eq!(o.relation_finder(&r), vec![("id", Some(&7)), ("code", None)]);
    let mut back = RelationBuilder::new("b".to_string(), scalar());
    back.set_fields(strings(&["x"]));
    back.set_references(strings(&["name"]));
    let back = back.build(&vec![]);
    assert_eq!(o.opposite_relation_finder(&back), vec![("x", Some(&7))]);
}

#[test]
fn relation_manipulations_in_order() {
    let m = model();
    let mut o: Object<i32> = Object::new(&m, Action::Create);
    assert!(o.relation_manipulation_plan(&m, &vec![true]).is_empty());
    o.set_value_to_relation_manipulation_map("group", 1);
    assert_eq!(
        o.relation_manipulation_plan(&m, &vec![true]),
        vec![("group".to_string(), RelationStep::Mutation(false))]
    );
    assert!(o.relation_manipulation_plan(&m, &vec![false]).is_empty());
    // objects given by code come before the input's manipulation: the to-one relation's
    // current object is disconnected, the new one connected, then those to connect and to
    // disconnect, each in order
    o.force_set_relation_object("group", Some(Object::new(&m, Action::Create)));
    o.force_add_relation_objects("group", vec![Object::new(&m, Action::Create), Object::new(&m, Action::Create)]);
    o.force_remove_relation_objects("group", vec![Object::new(&m, Action::Create)]);
    let g = |step| ("group".to_string(), step);
    assert_eq!(
        o.relation_manipulation_plan(&m, &vec![true]),
        vec![
            g(RelationStep::DisconnectCurrent),
            g(RelationStep::ConnectNew),
            g(RelationStep::Connect(0)),
            g(RelationStep::Connect(1)),
            g(RelationStep::RemoveRelatedLink(0)),
            g(RelationStep::Mutation(false)),
        ]
    );
    o.force_set_relation_object("group", None);
    assert_eq!(o.relation_manipulation_plan(&m, &vec![true])[0..2].to_vec(), vec![
        g(RelationStep::DisconnectCurrent),
        g(RelationStep::Connect(0)),
    ]);
}

#[test]
fn relation_manipulations_of_to_many_and_join_relations() {
    let mut b = ModelBuilder::new(strings(&["Post"]), vec![]);
    let mut id = FieldBuilder::new("id".to_string(), scalar());
    id.set_index(Some(FieldIndex::new(Type::Primary, "id".to_string(), Sort::Asc, None)));
    b.insert_field("id".to_string(), id.build());
    let many = TypeInfo { optional: false, array: true, int_or_float: false, decimal: false };
    let mut tags = RelationBuilder::new("tags".to_string(), many);
    tags.set_is_vec(true);
    tags.set_through(Some(strings(&["PostTag"])));
    b.insert_relation("tags".to_string(), tags.build(&vec![]));
    let m = b.build(ModelResolved::new()).unwrap();
    let mut o: Object<i32> = Object::new(&m, Action::Create);
    o.force_set_relation_objects("tags", vec![]);
    o.force_remove_relation_objects("tags", vec![Object::new(&m, Action::Create)]);
    assert_eq!(o.relation_manipulation_plan(&m, &vec![true]), vec![
        ("tags".to_string(), RelationStep::SetMany),
        ("tags".to_string(), RelationStep::DeleteJoin(0)),
    ]);
}

#[test]
fn output_plans() {
    let m = model();
    let mut o: Object<i32> = Object::new(&m, Action::Create);
    let n = m.cache().output_keys.len();
    let plan = o.output_plan(&m, &vec![true; n]);
    let keys: Vec<&str> = plan.iter().map(|(k, _)| k.as_str()).collect();
    assert_eq!(keys, vec!["id", "name", "nick", "email", "phone", "label"]);
    o.record_fetched_relation("group", vec![Object::new(&m, Action::Create)]);
    let plan = o.output_plan(&m, &vec![true; n]);
    let keys: Vec<&str> = plan.iter().map(|(k, _)| k.as_str()).collect();
    assert_eq!(keys, vec!["id", "name", "nick", "email", "phone", "group", "label"]);
    let mut readable = vec![true; n];
    readable[1] = false;
    let plan = o.output_plan(&m, &readable);
    assert!(plan.iter().all(|(k, _)| k != "name"));
}

#[test]
fn comparisons() {
    assert!(!compare_needed(true, false));
    assert!(!compare_needed(false, true));
    assert!(compare_needed(false, false));
    assert_eq!(compare_outcome(true, None), Ok(()));
    assert_eq!(compare_outcome(false, None), Err("value is invalid".to_string()));
    assert_eq!(compare_outcome(false, Some("too big".to_string())), Err("too big".to_string()));
}

#[test]
fn assignment_plans() {
    let m = model();
    let o: Object<i32> = Object::new(&m, Action::Create);
    let input = vec![
        ("name".to_string(), InputValue::Str("a".to_string())),
        ("phone".to_string(), InputValue::Dictionary(vec![("increment".to_string(), InputValue::Int(1))])),
        ("group".to_string(), InputValue::Dictionary(vec![("connect".to_string(), InputValue::Other)])),
    ];
    assert_eq!(o.assign_step(&m, "email", &input).0, AssignKind::SetDefault);
    assert_eq!(o.assign_step(&m, "nick", &input).0, AssignKind::Nothing);
    assert_eq!(o.assign_step(&m, "name", &input).0, AssignKind::SetField);
    assert_eq!(o.assign_step(&m, "phone", &input).0, AssignKind::AtomicUpdate);
    assert_eq!(o.assign_step(&m, "group", &input).0, AssignKind::RelationManipulation);
    assert_eq!(o.assign_step(&m, "label", &input).0, AssignKind::Nothing);
    let plan = o.assignment_plan(&m, &input, false).unwrap();
    assert_eq!(plan.len(), m.cache().all_keys.len());
    assert!(o.assignment_plan(&m, &input, true).is_ok());
    let bogus = vec![
        ("name".to_string(), InputValue::Int(1)),
        ("bogus".to_string(), InputValue::Int(2)),
    ];
    match o.assignment_plan(&m, &bogus, true) {
        Err(ObjectError::KeyNotAllowed(k)) => assert_eq!(k, "bogus"),
        _ => panic!("a key not allowed was accepted"),
    }
    let mut initialized: Object<i32> = Object::new(&m, Action::Create);
    initialized.mark_initialized();
    let plan = initialized.assignment_plan(&m, &input, false).unwrap();
    let keys: Vec<&str> = plan.iter().map(|(k, _, _)| k.as_str()).collect();
    assert_eq!(keys, vec!["name", "phone", "group"]);
}

use teo_runtime::model::object::fetch::{Condition, RelationFetch};

fn owner_relation() -> teo_runtime::model::relation::Relation {
    let mut owner = RelationBuilder::new("owner".to_string(), scalar());
    owner.set_model(strings(&["Owner"]));
    owner.set_fields(strings(&["name", "phone"]));
    owner.set_references(strings(&["ownerName", "ownerPhone"]));
    owner.build(&vec![])
}

#[test]
fn relation_fetch_without_a_local_value_makes_no_query() {
    let m = model();
    let mut o: Object<i32> = Object::new(&m, Action::Create);
    o.set_value(&m, "name", Some(1)).unwrap();
    let r = owner_relation();
    assert!(matches!(o.relation_fetch(&r, None), RelationFetch::Empty));
}

#[test]
fn relation_fetch_through_a_join_table_refetches_the_object() {
    let m = model();
    let o: Object<i32> = Object::new(&m, Action::Create);
    let mut tags = RelationBuilder::new("tags".to_string(), scalar());
    tags.set_through(Some(strings(&["PostTag"])));
    let tags = tags.build(&vec![]);
    assert!(matches!(o.relation_fetch(&tags, None), RelationFetch::ThroughJoin));
}

#[test]
fn relation_fetch_merges_the_arguments_with_the_conditions() {
    let m = model();
    let mut o: Object<i32> = Object::new(&m, Action::Create);
    o.set_value(&m, "name", Some(1)).unwrap();
    o.set_value(&m, "phone", Some(2)).unwrap();
    let r = owner_relation();
    // no arguments: the query is only a `where` with the relation's conditions
    match o.relation_fetch(&r, None) {
        RelationFetch::Query { entries, conditions } => {
            assert_eq!(entries.len(), 1);
            assert_eq!(entries[0].0, "where");
            assert!(entries[0].1.is_none());
            assert_eq!(conditions.len(), 2);
            assert_eq!(conditions[0].0, "ownerName");
            assert!(matches!(conditions[0].1, Condition::Local(1)));
            assert_eq!(conditions[1].0, "ownerPhone");
            assert!(matches!(conditions[1].1, Condition::Local(2)));
        }
        _ => panic!("a query was expected"),
    }
    // the caller's `where` keeps its place and its entries come first; a condition on a
    // field the caller also names takes this object's value in place
    let arg = InputValue::Dictionary(vec![
        ("take".to_string(), InputValue::Int(3)),
        ("where".to_string(), InputValue::Dictionary(vec![
            ("ownerPhone".to_string(), InputValue::Int(9)),
            ("active".to_string(), InputValue::Int(1)),
        ])),
        ("skip".to_string(), InputValue::Int(1)),
    ]);
    match o.relation_fetch(&r, Some(&arg)) {
        RelationFetch::Query { entries, conditions } => {
            let keys: Vec<&str> = entries.iter().map(|(k, _)| k.as_str()).collect();
            assert_eq!(keys, vec!["take", "where", "skip"]);
            assert!(matches!(entries[0].1, Some(InputValue::Int(3))));
            assert!(entries[1].1.is_none());
            assert!(matches!(entries[2].1, Some(InputValue::Int(1))));
            let names: Vec<&str> = conditions.iter().map(|(k, _)| k.as_str()).collect();
            assert_eq!(names, vec!["ownerPhone", "active", "ownerName"]);
            assert!(matches!(conditions[0].1, Condition::Local(2)));
            assert!(matches!(conditions[1].1, Condition::Given(InputValue::Int(1))));
            assert!(matches!(conditions[2].1, Condition::Local(1)));
        }
        _ => panic!("a query was expected"),
    }
    // arguments without a `where` get one appended
    let arg = InputValue::Dictionary(vec![("take".to_string(), InputValue::Int(3))]);
    match o.relation_fetch(&r, Some(&arg)) {
        RelationFetch::Query { entries, conditions } => {
            let keys: Vec<&str> = entries.iter().map(|(k, _)| k.as_str()).collect();
            assert_eq!(keys, vec!["take", "where"]);
            assert_eq!(conditions.len(), 2);
        }
        _ => panic!("a query was expected"),
    }
}

#[test]
fn defaults_are_applied_only_before_initialization() {
    let mut b = ModelBuilder::new(strings(&["Post"]), vec![]);
    let mut id = FieldBuilder::new("id".to_string(), scalar());
    id.set_index(Some(FieldIndex::new(Type::Primary, "id".to_string(), Sort::Asc, None)));
    let mut on_null = Pipeline::new();
    on_null.items.push(strings(&["uuid"]));
    id.set_default(Some(FieldDefault::Pipeline(on_null)));
    b.insert_field("id".to_string(), id.build());
    let mut title = FieldBuilder::new("title".to_string(), scalar());
    title.set_default(Some(FieldDefault::Value(Value::String("untitled".to_string()))));
    b.insert_field("title".to_string(), title.build());
    b.insert_field("body".to_string(), FieldBuilder::new("body".to_string(), scalar()).build());
    let m = b.build(ModelResolved::new()).unwrap();
    let mut o: Object<i32> = Object::new(&m, Action::Create);
    let input: Vec<(String, InputValue)> = vec![];
    assert_eq!(o.assign_step(&m, "id", &input).0, AssignKind::RunDefaultPipeline);
    assert_eq!(o.assign_step(&m, "title", &input).0, AssignKind::SetDefault);
    assert_eq!(o.assign_step(&m, "body", &input).0, AssignKind::Nothing);
    let plan = o.assignment_plan(&m, &input, false).unwrap();
    let kinds: Vec<AssignKind> = plan.iter().map(|(_, k, _)| *k).collect();
    assert_eq!(kinds, vec![AssignKind::RunDefaultPipeline, AssignKind::SetDefault, AssignKind::Nothing]);
    o.mark_initialized();
    assert_eq!(o.assign_step(&m, "title", &input).0, AssignKind::Nothing);
    assert!(o.assignment_plan(&m, &input, false).unwrap().is_empty());
}

use teo_runtime::model::object::record::RecordValue;

#[test]
fn reading_a_database_record() {
    let m = model();
    let mut o: Object<i32> = Object::new(&m, Action::Create);
    o.set_value(&m, "phone", Some(5)).unwrap();
    let record = vec![
        ("id".to_string(), RecordValue::Value(Some(1))),
        ("name".to_string(), RecordValue::Value(Some(2))),
        ("phone".to_string(), RecordValue::Value(None)),
        ("group".to_string(), RecordValue::Related(vec![Object::new(&m, Action::Create)])),
        ("label".to_string(), RecordValue::Value(None)),
        ("unknown".to_string(), RecordValue::Value(Some(7))),
    ];
    o.set_from_database_result_value(&m, record, Some(&vec![("name".to_string(), true)]));
    assert!(!o.is_new());
    assert!(!o.is_modified());
    assert_eq!(o.get_value(&m, "id").unwrap(), Some(&1));
    assert_eq!(o.get_value(&m, "name").unwrap(), Some(&2));
    assert_eq!(o.get_value(&m, "phone").unwrap(), None);
    assert!(o.has_query_relation_fetched("group"));
    assert_eq!(o.fetched_relation_objects("group").unwrap().len(), 1);
    assert_eq!(o.cached_property_map.get("label"), Some(&None));
    assert!(o.value_map.get("unknown").is_none());
    assert_eq!(o.selected_fields, vec!["name".to_string()]);
    // a new object records no change while it is read
    assert_eq!(o.modified_fields.len(), 0);
}

#[test]
fn reading_a_record_into_a_read_object_tracks_changes() {
    let m = model();
    let mut o: Object<i32> = Object::new(&m, Action::Create);
    o.set_from_database_result_value(&m, vec![], None);
    o.cached_property_map.insert("label".to_string(), Some(3));
    o.set_from_database_result_value(&m, vec![("name".to_string(), RecordValue::Value(Some(4)))], None);
    assert_eq!(o.get_value(&m, "name").unwrap(), Some(&4));
    assert!(o.modified_fields.contains_key("name"));
    assert!(o.modified_fields.contains_key("label"));
    assert!(o.cached_property_map.get("label").is_none());
    assert!(!o.is_modified());
}

use teo_runtime::model::object::save::SaveStep;

#[test]
fn save_plans() {
    let m = model();
    let mut o: Object<i32> = Object::new(&m, Action::Create);
    let full = vec![
        SaveStep::ValidateForSave,
        SaveStep::BeforeSaveCallbacks,
        SaveStep::RelationManipulations(true),
        SaveStep::SaveToDatabase,
        SaveStep::RelationManipulations(false),
        SaveStep::ClearState,
        SaveStep::AfterSaveCallbacks,
    ];
    assert_eq!(o.save_plan().unwrap(), full);
    o.set_inside_after_save_callback(true);
    assert_eq!(o.save_plan().unwrap(), full[..6].to_vec());
    o.set_inside_after_save_callback(false);
    o.clear_state();
    assert_eq!(o.save_plan().unwrap(), vec![
        SaveStep::RelationManipulations(true),
        SaveStep::RelationManipulations(false),
        SaveStep::ClearState,
    ]);
    o.set_value(&m, "name", Some(1)).unwrap();
    assert_eq!(o.save_plan().unwrap(), full);
    o.set_inside_before_save_callback(true);
    match o.save_plan() {
        Err(ObjectError::InvalidOperation(message)) => assert_eq!(message, "save called inside before callback"),
        _ => panic!("a save inside the before-save callbacks was planned"),
    }
}
