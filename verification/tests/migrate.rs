use fallow::migrate::{migrate_knip, JsonValue, MigratedConfig, MigrationWarning, FALLOW_RULE_NAMES};

fn s(text: &str) -> JsonValue {
    JsonValue::String(text.to_string())
}

fn arr(items: &[&str]) -> JsonValue {
    JsonValue::Array(items.iter().map(|t| s(t)).collect())
}

fn obj(members: Vec<(&str, JsonValue)>) -> JsonValue {
    JsonValue::Object(members.into_iter().map(|(k, v)| (k.to_string(), v)).collect())
}

fn empty_config() -> MigratedConfig {
    MigratedConfig { entry: None, ignore_patterns: None, ignore_dependencies: None, rules: None }
}

fn run(knip: &JsonValue) -> (MigratedConfig, Vec<MigrationWarning>) {
    let mut config = empty_config();
    let mut warnings = Vec::new();
    migrate_knip(knip, &mut config, &mut warnings);
    (config, warnings)
}

fn strings(items: &[&str]) -> Vec<String> {
    items.iter().map(|t| t.to_string()).collect()
}

fn rule<'a>(config: &'a MigratedConfig, name: &str) -> Option<&'a str> {
    config
        .rules
        .as_ref()
        .expect("rules present")
        .iter()
        .find(|(k, _)| k == name)
        .map(|(_, v)| v.as_str())
}

fn has_rule(config: &MigratedConfig, name: &str) -> bool {
    rule(config, name).is_some()
}

#[test]
fn migrate_minimal_knip_json() {
    let knip = obj(vec![("entry", arr(&["src/index.ts"]))]);
    let (config, warnings) = run(&knip);
    assert_eq!(config.entry, Some(strings(&["src/index.ts"])));
    assert!(warnings.is_empty());
}

#[test]
fn migrate_knip_with_rules() {
    let knip = obj(vec![(
        "rules",
        obj(vec![("files", s("warn")), ("exports", s("off")), ("dependencies", s("error"))]),
    )]);
    let (config, _warnings) = run(&knip);
    assert_eq!(rule(&config, "unused-files").unwrap(), "warn");
    assert_eq!(rule(&config, "unused-exports").unwrap(), "off");
    assert_eq!(rule(&config, "unused-dependencies").unwrap(), "error");
}

#[test]
fn migrate_knip_with_exclude() {
    let knip = obj(vec![("exclude", arr(&["files", "types"]))]);
    let (config, _warnings) = run(&knip);
    assert_eq!(rule(&config, "unused-files").unwrap(), "off");
    assert_eq!(rule(&config, "unused-types").unwrap(), "off");
}

#[test]
fn migrate_knip_with_include() {
    let knip = obj(vec![("include", arr(&["files", "exports"]))]);
    let (config, _warnings) = run(&knip);
    assert!(!has_rule(&config, "unused-files"), "included type 'unused-files' should not be in rules");
    assert!(!has_rule(&config, "unused-exports"), "included type 'unused-exports' should not be in rules");
    assert_eq!(rule(&config, "unused-dependencies").unwrap(), "off");
    assert_eq!(rule(&config, "unused-dev-dependencies").unwrap(), "off");
    assert_eq!(rule(&config, "unused-types").unwrap(), "off");
    assert_eq!(rule(&config, "unused-enum-members").unwrap(), "off");
    assert_eq!(rule(&config, "unused-class-members").unwrap(), "off");
    assert_eq!(rule(&config, "unlisted-dependencies").unwrap(), "off");
    assert_eq!(rule(&config, "unresolved-imports").unwrap(), "off");
    assert_eq!(rule(&config, "duplicate-exports").unwrap(), "off");
}

#[test]
fn migrate_knip_with_ignore_patterns() {
    let knip = obj(vec![("ignore", arr(&["src/generated/**", "**/*.test.ts"]))]);
    let (config, _warnings) = run(&knip);
    assert_eq!(config.ignore_patterns, Some(strings(&["src/generated/**", "**/*.test.ts"])));
}

#[test]
fn migrate_knip_with_ignore_dependencies() {
    let knip = obj(vec![("ignoreDependencies", arr(&["@org/lib", "lodash"]))]);
    let (config, _warnings) = run(&knip);
    assert_eq!(config.ignore_dependencies, Some(strings(&["@org/lib", "lodash"])));
}

#[test]
fn migrate_knip_regex_ignore_deps_skipped() {
    let knip = obj(vec![("ignoreDependencies", arr(&["/^@org/", "lodash"]))]);
    let (config, warnings) = run(&knip);
    assert_eq!(config.ignore_dependencies, Some(strings(&["lodash"])));
    assert_eq!(warnings.len(), 1);
    assert!(warnings[0].field == "ignoreDependencies");
}

#[test]
fn migrate_knip_unmappable_fields_generate_warnings() {
    let knip = obj(vec![
        ("project", arr(&["src/**"])),
        ("paths", obj(vec![("@/*", arr(&["src/*"]))])),
    ]);
    let (_config, warnings) = run(&knip);
    assert_eq!(warnings.len(), 2);
    let fields: Vec<&str> = warnings.iter().map(|w| w.field.as_str()).collect();
    assert!(fields.contains(&"project"));
    assert!(fields.contains(&"paths"));
}

#[test]
fn migrate_knip_plugin_keys_generate_warnings() {
    let knip = obj(vec![
        ("entry", arr(&["src/index.ts"])),
        ("eslint", obj(vec![("entry", arr(&["eslint.config.js"]))])),
    ]);
    let (_config, warnings) = run(&knip);
    assert_eq!(warnings.len(), 1);
    assert_eq!(warnings[0].field, "eslint");
    assert!(warnings[0].message.contains("auto-detected"));
}

#[test]
fn migrate_knip_entry_string() {
    let knip = obj(vec![("entry", s("src/index.ts"))]);
    let (config, _warnings) = run(&knip);
    assert_eq!(config.entry, Some(strings(&["src/index.ts"])));
}

#[test]
fn migrate_knip_exclude_unmappable_warns() {
    let knip = obj(vec![("exclude", arr(&["optionalPeerDependencies"]))]);
    let (_config, warnings) = run(&knip);
    assert_eq!(warnings.len(), 1);
    assert!(warnings[0].field.contains("optionalPeerDependencies"));
}

#[test]
fn migrate_knip_rules_unmappable_warns() {
    let knip = obj(vec![("rules", obj(vec![("binaries", s("warn")), ("files", s("error"))]))]);
    let (config, warnings) = run(&knip);
    assert_eq!(rule(&config, "unused-files").unwrap(), "error");
    assert!(!has_rule(&config, "binaries"));
    assert_eq!(warnings.len(), 1);
    assert!(warnings[0].field.contains("binaries"));
}

#[test]
fn migrate_knip_non_object_root_warns() {
    let knip = s("not an object");
    let (config, warnings) = run(&knip);
    assert_eq!(warnings.len(), 1);
    assert_eq!(warnings[0].field, "(root)");
    assert!(warnings[0].message.contains("expected an object"));
    assert!(config.entry.is_none());
    assert!(config.ignore_patterns.is_none());
    assert!(config.ignore_dependencies.is_none());
    assert!(config.rules.is_none());
}

#[test]
fn migrate_knip_workspaces_object_warns() {
    let knip = obj(vec![(
        "workspaces",
        obj(vec![("packages/*", obj(vec![("entry", arr(&["src/index.ts"]))]))]),
    )]);
    let (_config, warnings) = run(&knip);
    assert_eq!(warnings.len(), 1);
    assert_eq!(warnings[0].field, "workspaces");
    assert!(warnings[0].message.contains("per-workspace plugin overrides"));
    assert!(warnings[0].suggestion.is_some());
}

#[test]
fn migrate_knip_workspaces_non_object_no_warning() {
    let knip = obj(vec![("workspaces", arr(&["packages/*"]))]);
    let (_config, warnings) = run(&knip);
    assert!(!warnings.iter().any(|w| w.field == "workspaces"));
}

#[test]
fn migrate_knip_all_regex_ignore_deps_no_output() {
    let knip = obj(vec![("ignoreDependencies", arr(&["/^@org/", "/^lodash/"]))]);
    let (config, warnings) = run(&knip);
    assert!(config.ignore_dependencies.is_none());
    assert_eq!(warnings.len(), 2);
}

#[test]
fn migrate_knip_ignore_deps_single_string() {
    let knip = obj(vec![("ignoreDependencies", s("lodash"))]);
    let (config, _warnings) = run(&knip);
    assert_eq!(config.ignore_dependencies, Some(strings(&["lodash"])));
}

#[test]
fn migrate_knip_rules_non_string_severity_ignored() {
    let knip = obj(vec![(
        "rules",
        obj(vec![("files", JsonValue::Number("123".to_string())), ("exports", s("warn"))]),
    )]);
    let (config, _warnings) = run(&knip);
    assert!(!has_rule(&config, "unused-files"));
    assert_eq!(rule(&config, "unused-exports").unwrap(), "warn");
}

#[test]
fn migrate_knip_rules_non_object_ignored() {
    let knip = obj(vec![("rules", s("invalid"))]);
    let (config, warnings) = run(&knip);
    assert!(config.rules.is_none());
    assert!(warnings.is_empty());
}

#[test]
fn migrate_knip_include_unmappable_warns() {
    let knip = obj(vec![("include", arr(&["files", "binaries"]))]);
    let (_config, warnings) = run(&knip);
    let include_warnings: Vec<_> = warnings.iter().filter(|w| w.field.starts_with("include.")).collect();
    assert_eq!(include_warnings.len(), 1);
    assert!(include_warnings[0].field.contains("binaries"));
}

#[test]
fn migrate_knip_rules_then_include_rules_take_precedence() {
    let knip = obj(vec![
        ("rules", obj(vec![("dependencies", s("warn"))])),
        ("include", arr(&["files", "dependencies"])),
    ]);
    let (config, _warnings) = run(&knip);
    assert_eq!(rule(&config, "unused-dependencies").unwrap(), "warn");
    assert_eq!(rule(&config, "unused-exports").unwrap(), "off");
    assert!(!has_rule(&config, "unused-files"), "included type 'unused-files' should not be in rules");
}

#[test]
fn migrate_knip_multiple_unmappable_fields_with_suggestions() {
    let knip = obj(vec![
        ("ignoreFiles", arr(&["x.ts"])),
        ("ignoreMembers", arr(&["id"])),
        ("ignoreUnresolved", arr(&["y"])),
    ]);
    let (_config, warnings) = run(&knip);
    assert_eq!(warnings.len(), 3);
    for w in &warnings {
        assert!(w.suggestion.is_some(), "warning for `{}` should have a suggestion", w.field);
    }
}

#[test]
fn migrate_knip_multiple_plugin_keys_warn() {
    let knip = obj(vec![
        ("eslint", obj(vec![("entry", arr(&["a.js"]))])),
        ("jest", obj(vec![("entry", arr(&["b.js"]))])),
        ("vitest", JsonValue::Bool(true)),
    ]);
    let (_config, warnings) = run(&knip);
    assert_eq!(warnings.iter().filter(|w| w.message.contains("auto-detected")).count(), 3);
}

#[test]
fn migrate_knip_all_rule_mappings() {
    let knip = obj(vec![(
        "rules",
        obj(vec![
            ("files", s("error")),
            ("dependencies", s("warn")),
            ("devDependencies", s("off")),
            ("exports", s("error")),
            ("types", s("warn")),
            ("enumMembers", s("error")),
            ("classMembers", s("warn")),
            ("unlisted", s("error")),
            ("unresolved", s("warn")),
            ("duplicates", s("off")),
        ]),
    )]);
    let (config, warnings) = run(&knip);
    assert_eq!(rule(&config, "unused-files").unwrap(), "error");
    assert_eq!(rule(&config, "unused-dependencies").unwrap(), "warn");
    assert_eq!(rule(&config, "unused-dev-dependencies").unwrap(), "off");
    assert_eq!(rule(&config, "unused-exports").unwrap(), "error");
    assert_eq!(rule(&config, "unused-types").unwrap(), "warn");
    assert_eq!(rule(&config, "unused-enum-members").unwrap(), "error");
    assert_eq!(rule(&config, "unused-class-members").unwrap(), "warn");
    assert_eq!(rule(&config, "unlisted-dependencies").unwrap(), "error");
    assert_eq!(rule(&config, "unresolved-imports").unwrap(), "warn");
    assert_eq!(rule(&config, "duplicate-exports").unwrap(), "off");
    assert!(warnings.is_empty());
}

#[test]
fn migrate_knip_exclude_all_mappable_types() {
    let knip = obj(vec![(
        "exclude",
        arr(&[
            "files",
            "dependencies",
            "devDependencies",
            "exports",
            "types",
            "enumMembers",
            "classMembers",
            "unlisted",
            "unresolved",
            "duplicates",
        ]),
    )]);
    let (config, warnings) = run(&knip);
    for fallow_name in FALLOW_RULE_NAMES {
        assert_eq!(rule(&config, fallow_name).unwrap(), "off", "{fallow_name} should be off");
    }
    assert!(warnings.is_empty());
}

#[test]
fn migrate_knip_empty_entry_array() {
    let knip = obj(vec![("entry", arr(&[]))]);
    let (config, _warnings) = run(&knip);
    assert!(config.entry.is_none());
}

#[test]
fn migrate_knip_empty_ignore_array() {
    let knip = obj(vec![("ignore", arr(&[]))]);
    let (config, _warnings) = run(&knip);
    assert!(config.ignore_patterns.is_none());
}

#[test]
fn migrate_knip_unmappable_without_suggestion() {
    let knip = obj(vec![
        ("ignoreBinaries", arr(&["tsc"])),
        ("ignoreExportsUsedInFile", JsonValue::Bool(true)),
    ]);
    let (_config, warnings) = run(&knip);
    assert_eq!(warnings.len(), 2);
    assert_eq!(warnings.iter().filter(|w| w.suggestion.is_none()).count(), 2);
}

#[test]
fn migrate_knip_rules_unknown_key_not_in_unmappable_silently_ignored() {
    let knip = obj(vec![("rules", obj(vec![("completelyUnknownRule", s("warn"))]))]);
    let (config, warnings) = run(&knip);
    assert!(warnings.is_empty());
    assert!(config.rules.is_none());
}

#[test]
fn migrate_knip_complex_full_config() {
    let knip = obj(vec![
        ("entry", arr(&["src/index.ts", "src/worker.ts"])),
        ("ignore", arr(&["**/*.generated.*"])),
        ("ignoreDependencies", arr(&["/^@internal/", "lodash", "react"])),
        ("rules", obj(vec![("files", s("warn")), ("exports", s("error"))])),
        ("exclude", arr(&["types"])),
        ("project", arr(&["src/**"])),
        ("eslint", obj(vec![("entry", arr(&["eslint.config.js"]))])),
        ("workspaces", obj(vec![("packages/*", obj(vec![("entry", arr(&["index.ts"]))]))])),
    ]);
    let (config, warnings) = run(&knip);
    assert_eq!(config.entry, Some(strings(&["src/index.ts", "src/worker.ts"])));
    assert_eq!(config.ignore_patterns, Some(strings(&["**/*.generated.*"])));
    assert_eq!(config.ignore_dependencies, Some(strings(&["lodash", "react"])));
    assert_eq!(rule(&config, "unused-files").unwrap(), "warn");
    assert_eq!(rule(&config, "unused-exports").unwrap(), "error");
    assert_eq!(rule(&config, "unused-types").unwrap(), "off");
    let warning_fields: Vec<&str> = warnings.iter().map(|w| w.field.as_str()).collect();
    assert!(warning_fields.contains(&"ignoreDependencies"));
    assert!(warning_fields.contains(&"project"));
    assert!(warning_fields.contains(&"eslint"));
    assert!(warning_fields.contains(&"workspaces"));
}

#[test]
fn knip_warnings_all_name_knip_and_keep_order() {
    let knip = obj(vec![
        ("ignoreDependencies", arr(&["/^a/"])),
        ("project", arr(&["src/**"])),
        ("jest", JsonValue::Bool(true)),
    ]);
    let (_config, warnings) = run(&knip);
    let fields: Vec<&str> = warnings.iter().map(|w| w.field.as_str()).collect();
    assert_eq!(fields, vec!["ignoreDependencies", "project", "jest"]);
    assert!(warnings.iter().all(|w| w.source == "knip"));
}

#[test]
fn knip_exclude_of_only_unmappable_types_leaves_empty_rules() {
    let knip = obj(vec![("exclude", arr(&["nsExports"]))]);
    let (config, warnings) = run(&knip);
    assert_eq!(config.rules, Some(Vec::new()));
    assert_eq!(warnings[0].message, "issue type `nsExports` has no fallow equivalent");
}
