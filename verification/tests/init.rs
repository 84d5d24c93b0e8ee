use fallow::init::{plan_init, InitPlan, DEFAULT_JSON_CONFIG, DEFAULT_TOML_CONFIG};

#[test]
fn init_plans_json_config_by_default() {
    match plan_init([false, false, false], false) {
        InitPlan::Write { file_name, contents } => {
            assert_eq!(file_name, ".fallowrc.json");
            assert!(contents.contains("$schema"));
            assert!(contents.contains("rules"));
        },
        other => panic!("unexpected plan {other:?}"),
    }
}

#[test]
fn init_plans_toml_config_when_requested() {
    match plan_init([false, false, false], true) {
        InitPlan::Write { file_name, contents } => {
            assert_eq!(file_name, "fallow.toml");
            assert!(contents.contains("fallow.toml"));
            assert!(contents.contains("entry"));
            assert!(contents.contains("ignorePatterns"));
        },
        other => panic!("unexpected plan {other:?}"),
    }
}

#[test]
fn init_refuses_when_any_config_exists() {
    assert_eq!(plan_init([true, false, false], false), InitPlan::AlreadyExists(".fallowrc.json"));
    assert_eq!(plan_init([true, false, false], true), InitPlan::AlreadyExists(".fallowrc.json"));
    assert_eq!(plan_init([false, true, false], false), InitPlan::AlreadyExists("fallow.toml"));
    assert_eq!(plan_init([false, false, true], true), InitPlan::AlreadyExists(".fallow.toml"));
    assert_eq!(plan_init([false, true, true], true), InitPlan::AlreadyExists("fallow.toml"));
}

#[test]
fn default_json_config_is_an_object_with_schema() {
    let text = DEFAULT_JSON_CONFIG.trim();
    assert!(text.starts_with('{') && text.ends_with('}'));
    assert!(text.contains("\"$schema\": \"https://"));
    assert!(DEFAULT_TOML_CONFIG.starts_with("# fallow.toml"));
}
