use fallow::fix::{fix_may_proceed, remove_unused_dependencies};
use fallow::migrate::JsonValue;

fn text(s: &str) -> JsonValue {
    JsonValue::String(s.to_string())
}

fn object(members: Vec<(&str, JsonValue)>) -> JsonValue {
    JsonValue::Object(members.into_iter().map(|(k, v)| (k.to_string(), v)).collect())
}

fn keys(v: &JsonValue) -> Vec<String> {
    match v {
        JsonValue::Object(members) => members.iter().map(|(k, _)| k.clone()).collect(),
        _ => vec![],
    }
}

fn member<'a>(v: &'a JsonValue, key: &str) -> &'a JsonValue {
    match v {
        JsonValue::Object(members) => &members.iter().find(|(k, _)| k == key).unwrap().1,
        _ => panic!("not an object"),
    }
}

fn strings(names: &[&str]) -> Vec<String> {
    names.iter().map(|n| n.to_string()).collect()
}

fn package() -> JsonValue {
    object(vec![
        ("name", text("app")),
        ("dependencies", object(vec![("react", text("^18")), ("lodash", text("^4")), ("axios", text("^1"))])),
        ("devDependencies", object(vec![("jest", text("^29")), ("typescript", text("^5"))])),
        ("scripts", object(vec![("lodash", text("echo"))])),
    ])
}

#[test]
fn removes_listed_names_from_both_sections() {
    let mut pkg = package();
    let removed = remove_unused_dependencies(&mut pkg, &strings(&["lodash"]), &strings(&["jest"]));
    assert_eq!(removed, 2);
    assert_eq!(keys(&pkg), strings(&["name", "dependencies", "devDependencies", "scripts"]));
    assert_eq!(keys(member(&pkg, "dependencies")), strings(&["react", "axios"]));
    assert_eq!(keys(member(&pkg, "devDependencies")), strings(&["typescript"]));
    // other objects keep a key of the same name
    assert_eq!(keys(member(&pkg, "scripts")), strings(&["lodash"]));
}

#[test]
fn names_not_present_are_not_counted() {
    let mut pkg = package();
    let removed = remove_unused_dependencies(&mut pkg, &strings(&["left-pad", "react", "react"]), &strings(&["react"]));
    assert_eq!(removed, 1);
    assert_eq!(keys(member(&pkg, "dependencies")), strings(&["lodash", "axios"]));
    assert_eq!(keys(member(&pkg, "devDependencies")), strings(&["jest", "typescript"]));
}

#[test]
fn a_section_that_is_no_object_stays() {
    let mut pkg = object(vec![("dependencies", JsonValue::Array(vec![text("react")]))]);
    let removed = remove_unused_dependencies(&mut pkg, &strings(&["react"]), &vec![]);
    assert_eq!(removed, 0);
    assert!(matches!(member(&pkg, "dependencies"), JsonValue::Array(items) if items.len() == 1));
}

#[test]
fn a_package_that_is_no_object_stays() {
    let mut pkg = JsonValue::Array(vec![text("dependencies")]);
    assert_eq!(remove_unused_dependencies(&mut pkg, &strings(&["dependencies"]), &vec![]), 0);
    assert!(matches!(pkg, JsonValue::Array(items) if items.len() == 1));
}

#[test]
fn fix_without_yes_needs_a_terminal() {
    // not at a terminal: only a dry run or --yes goes on
    assert!(!fix_may_proceed(false, false, false));
    assert!(fix_may_proceed(true, false, false));
    assert!(fix_may_proceed(false, true, false));
    assert!(fix_may_proceed(false, false, true));
}
