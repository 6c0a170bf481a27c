use teo_runtime::action::Action;
use teo_runtime::error::Error;
use teo_runtime::model::index::{Index, Item, Type};
use teo_runtime::name_map::NameMap;
use teo_runtime::optionality::Optionality;
use teo_runtime::sort::Sort;
use teo_runtime::utils::{concat_strings, contains_str, join_prefix, next_path, str_eq, str_lt, strings_eq};

fn strings(v: &[&str]) -> Vec<String> {
    v.iter().map(|s| s.to_string()).collect()
}

#[test]
fn index_type_predicates() {
    assert!(Type::Primary.is_primary());
    assert!(Type::Primary.is_unique_or_primary());
    assert!(!Type::Primary.is_unique());
    assert!(!Type::Primary.is_index());
    assert!(Type::Unique.is_unique());
    assert!(Type::Unique.is_unique_or_primary());
    assert!(!Type::Unique.is_primary());
    assert!(Type::Index.is_index());
    assert!(!Type::Index.is_unique_or_primary());
}

#[test]
fn item_new_keeps_its_parts() {
    let item = Item::new("email".to_string(), Sort::Desc, Some(10));
    assert_eq!(item.field, "email");
    assert_eq!(item.sort, Sort::Desc);
    assert_eq!(item.len, Some(10));
}

#[test]
fn index_keys_follow_items() {
    let index = Index::new(
        Type::Unique,
        "name_email".to_string(),
        vec![
            Item::new("name".to_string(), Sort::Asc, None),
            Item::new("email".to_string(), Sort::Desc, None),
        ],
    );
    assert_eq!(index.kind(), Type::Unique);
    assert_eq!(index.name(), "name_email");
    assert_eq!(index.keys(), &strings(&["name", "email"]));
    assert_eq!(index.items().len(), 2);
    let copy = index.clone();
    assert_eq!(copy.keys(), &strings(&["name", "email"]));
}

#[test]
fn string_comparisons() {
    assert!(str_eq("abc", "abc"));
    assert!(!str_eq("abc", "abd"));
    assert!(str_lt("abc", "abd"));
    assert!(str_lt("ab", "abc"));
    assert!(!str_lt("abc", "abc"));
    assert!(!str_lt("b", "abc"));
    assert!(contains_str(&strings(&["a", "b"]), "b"));
    assert!(!contains_str(&strings(&["a", "b"]), "c"));
    assert!(strings_eq(&strings(&["a", "b"]), &strings(&["a", "b"])));
    assert!(!strings_eq(&strings(&["a", "b"]), &strings(&["a"])));
    assert!(!strings_eq(&strings(&["a", "b"]), &strings(&["a", "c"])));
}

#[test]
fn next_path_appends_the_name() {
    assert_eq!(next_path(&strings(&["std", "admin"]), "User"), strings(&["std", "admin", "User"]));
    assert_eq!(next_path(&vec![], "User"), strings(&["User"]));
}

#[test]
fn join_prefix_joins_the_first_names() {
    let list = strings(&["a", "b", "c"]);
    assert_eq!(join_prefix(&list, 3, "_"), "a_b_c");
    assert_eq!(join_prefix(&list, 2, "__"), "a__b");
    assert_eq!(join_prefix(&list, 1, "_"), "a");
    assert_eq!(join_prefix(&list, 0, "_"), "");
    assert_eq!(concat_strings(strings(&["a"]), strings(&["b", "c"])), list);
}

#[test]
fn name_map_keeps_names_sorted_and_replaces() {
    let mut m: NameMap<u32> = NameMap::new();
    assert_eq!(m.len(), 0);
    assert_eq!(m.insert("b".to_string(), 2), None);
    assert_eq!(m.insert("a".to_string(), 1), None);
    assert_eq!(m.insert("c".to_string(), 3), None);
    assert_eq!(m.insert("b".to_string(), 20), Some(2));
    assert_eq!(m.len(), 3);
    let (k0, v0) = m.entry_at(0);
    let (k1, v1) = m.entry_at(1);
    let (k2, v2) = m.entry_at(2);
    assert_eq!((k0.as_str(), *v0), ("a", 1));
    assert_eq!((k1.as_str(), *v1), ("b", 20));
    assert_eq!((k2.as_str(), *v2), ("c", 3));
    assert_eq!(m.get("b"), Some(&20));
    assert!(m.contains_key("c"));
    assert_eq!(m.remove("a"), Some(1));
    assert_eq!(m.remove("a"), None);
    assert!(!m.contains_key("a"));
    assert_eq!(m.get("x"), None);
}

#[test]
fn builtin_handlers_are_listed_once_each() {
    let all = Action::builtin_handlers();
    assert_eq!(all.len(), 15);
    assert_eq!(all[0], Action::FindUnique);
    assert_eq!(all[14], Action::GroupBy);
    assert!(Action::FindMany.handles_many());
    assert!(Action::DeleteMany.handles_many());
    assert!(!Action::Count.handles_many());
    assert!(!Action::Create.handles_many());
}

#[test]
fn optionality_predicates() {
    assert!(Optionality::Required.is_required());
    assert!(!Optionality::Required.is_any_optional());
    assert!(Optionality::Optional.is_any_optional());
    assert!(Optionality::PresentWith(vec!["a".to_string()]).is_any_optional());
}

#[test]
fn missing_primary_index_message() {
    assert_eq!(Error::MissingPrimaryIndex.message(), "model must have a primary index");
}
