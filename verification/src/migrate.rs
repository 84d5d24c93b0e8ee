//! Migrating a knip configuration to a fallow one: which fields carry over,
//! how rule names map, and what cannot be migrated.
use vstd::prelude::*;

use crate::text::{copy_string, push_str, str_chars, str_eq, string_eq, to_owned_string, views};

verus! {

/// A JSON value, as far as a configuration migration reads it.
#[derive(Debug)]
pub enum JsonValue {
    Null,
    Bool(bool),
    /// A number, by its text.
    Number(String),
    String(String),
    Array(Vec<JsonValue>),
    /// The members of an object, in order; keys are distinct.
    Object(Vec<(String, JsonValue)>),
}

/// Something of the source configuration that could not be migrated as is.
#[derive(Debug, Clone)]
pub struct MigrationWarning {
    pub source: &'static str,
    pub field: String,
    pub message: String,
    pub suggestion: Option<String>,
}

/// The fallow configuration that a migration writes.
#[derive(Debug)]
pub struct MigratedConfig {
    pub entry: Option<Vec<String>>,
    pub ignore_patterns: Option<Vec<String>>,
    pub ignore_dependencies: Option<Vec<String>>,
    /// Rule name and severity, each rule once.
    pub rules: Option<Vec<(String, String)>>,
}

pub type WarningView = (Seq<char>, Seq<char>, Option<Seq<char>>);

pub open spec fn warning_view(w: MigrationWarning) -> WarningView {
    (
        w.field@,
        w.message@,
        match w.suggestion {
            Some(s) => Some(s@),
            None => None,
        },
    )
}

pub open spec fn warning_views(v: Seq<MigrationWarning>) -> Seq<WarningView> {
    v.map_values(|w: MigrationWarning| warning_view(w))
}

/// Every warning of a knip migration names knip as its source.
pub open spec fn from_knip(v: Seq<MigrationWarning>) -> bool {
    forall|k: int| 0 <= k < v.len() ==> (#[trigger] v[k]).source@ == "knip"@
}

pub type RulesView = Seq<(Seq<char>, Seq<char>)>;

pub open spec fn rules_view(v: Seq<(String, String)>) -> RulesView {
    v.map_values(|r: (String, String)| (r.0@, r.1@))
}

/// The migrated configuration as values.
pub struct ConfigView {
    pub entry: Option<Seq<Seq<char>>>,
    pub ignore_patterns: Option<Seq<Seq<char>>>,
    pub ignore_dependencies: Option<Seq<Seq<char>>>,
    pub rules: Option<RulesView>,
}

pub open spec fn opt_strings(o: Option<Vec<String>>) -> Option<Seq<Seq<char>>> {
    match o {
        Some(v) => Some(views(v@)),
        None => None,
    }
}

pub open spec fn config_view(c: MigratedConfig) -> ConfigView {
    ConfigView {
        entry: opt_strings(c.entry),
        ignore_patterns: opt_strings(c.ignore_patterns),
        ignore_dependencies: opt_strings(c.ignore_dependencies),
        rules: match c.rules {
            Some(r) => Some(rules_view(r@)),
            None => None,
        },
    }
}

// ---- reading JSON --------------------------------------------------------

/// The value of an object member.
pub open spec fn member(obj: Seq<(String, JsonValue)>, key: Seq<char>) -> Option<JsonValue>
    decreases obj.len(),
{
    if obj.len() == 0 {
        None
    } else if obj[0].0@ == key {
        Some(obj[0].1)
    } else {
        member(obj.skip(1), key)
    }
}

fn member_index(obj: &Vec<(String, JsonValue)>, key: &str) -> (r: Option<usize>)
    ensures
        match r {
            Some(k) => k < obj@.len() && member(obj@, key@) == Some(obj@[k as int].1),
            None => member(obj@, key@) is None,
        },
{
    let mut k: usize = 0;
    assert(obj@.skip(0) =~= obj@);
    while k < obj.len()
        invariant
            k <= obj@.len(),
            member(obj@, key@) == member(obj@.skip(k as int), key@),
        decreases obj.len() - k,
    {
        assert(obj@.skip(k as int)[0] == obj@[k as int]);
        assert(obj@.skip(k as int).skip(1) =~= obj@.skip(k + 1));
        if str_eq(obj[k].0.as_str(), key) {
            return Some(k);
        }
        k = k + 1;
    }
    None
}

/// The strings among the items, in order.
pub open spec fn string_items(items: Seq<JsonValue>) -> Seq<Seq<char>>
    decreases items.len(),
{
    if items.len() == 0 {
        seq![]
    } else {
        let prev = string_items(items.drop_last());
        match items.last() {
            JsonValue::String(s) => prev.push(s@),
            _ => prev,
        }
    }
}

/// A string as a one-element list, the strings of an array, else nothing.
pub open spec fn strings_of(v: JsonValue) -> Seq<Seq<char>> {
    match v {
        JsonValue::String(s) => seq![s@],
        JsonValue::Array(items) => string_items(items@),
        _ => seq![],
    }
}

/// Read a field that may hold one string or an array of strings.
pub fn string_or_array(val: &JsonValue) -> (r: Vec<String>)
    ensures
        views(r@) == strings_of(*val),
{
    let mut r: Vec<String> = Vec::new();
    match val {
        JsonValue::String(s) => {
            r.push(copy_string(s));
            assert(views(r@) =~= seq![s@]);
        },
        JsonValue::Array(items) => {
            let mut i: usize = 0;
            assert(string_items(items@.take(0)) =~= seq![]);
            while i < items.len()
                invariant
                    i <= items@.len(),
                    views(r@) == string_items(items@.take(i as int)),
                decreases items.len() - i,
            {
                assert(items@.take(i + 1).drop_last() =~= items@.take(i as int));
                match &items[i] {
                    JsonValue::String(s) => {
                        let ghost before = r@;
                        r.push(copy_string(s));
                        assert(views(r@) =~= views(before).push(s@));
                    },
                    _ => {},
                }
                i = i + 1;
            }
            assert(items@.take(items@.len() as int) =~= items@);
        },
        _ => {
            assert(views(r@) =~= seq![]);
        },
    }
    r
}

// ---- what knip names -----------------------------------------------------

/// Knip rule names, with the fallow rule names they map to below.
pub const KNIP_RULE_NAMES: [&'static str; 10] = [
    "files", "dependencies", "devDependencies", "exports", "types", "enumMembers", "classMembers",
    "unlisted", "unresolved", "duplicates",
];

/// The fallow rule name of each knip rule name above.
pub const FALLOW_RULE_NAMES: [&'static str; 10] = [
    "unused-files", "unused-dependencies", "unused-dev-dependencies", "unused-exports", "unused-types",
    "unused-enum-members", "unused-class-members", "unlisted-dependencies", "unresolved-imports",
    "duplicate-exports",
];

/// Knip issue type names that have no fallow equivalent.
pub const KNIP_UNMAPPABLE_ISSUE_TYPES: [&'static str; 5] = [
    "optionalPeerDependencies", "binaries", "nsExports", "nsTypes", "catalog",
];

/// Known knip plugin config keys (framework-specific), auto-detected by
/// fallow plugins.
pub const KNIP_PLUGIN_KEYS: [&'static str; 73] = [
    "angular", "astro", "ava", "babel", "biome", "capacitor", "changesets", "commitizen", "commitlint",
    "cspell", "cucumber", "cypress", "docusaurus", "drizzle", "eleventy", "eslint", "expo", "gatsby",
    "github-actions", "graphql-codegen", "husky", "jest", "knex", "lefthook", "lint-staged",
    "markdownlint", "mocha", "moonrepo", "msw", "nest", "next", "node-test-runner",
    "npm-package-json-lint", "nuxt", "nx", "nyc", "oclif", "playwright", "postcss", "prettier", "prisma",
    "react-cosmos", "react-router", "release-it", "remark", "remix", "rollup", "rspack",
    "semantic-release", "sentry", "simple-git-hooks", "size-limit", "storybook", "stryker", "stylelint",
    "svelte", "syncpack", "tailwind", "tsup", "tsx", "typedoc", "typescript", "unbuild", "unocss",
    "vercel-og", "vite", "vitest", "vue", "webpack", "wireit", "wrangler", "xo", "yorkie",
];

/// Knip fields that cannot be mapped, with why and what to do instead.
pub open spec fn unmappable_field(i: int) -> (Seq<char>, Seq<char>, Option<Seq<char>>) {
    if i == 0 {
        ("project"@, "Fallow auto-discovers project files"@, None)
    } else if i == 1 {
        ("paths"@, "Fallow reads path mappings from tsconfig.json automatically"@, None)
    } else if i == 2 {
        ("ignoreFiles"@, "No separate concept in fallow"@, Some("use the `ignorePatterns` field instead"@))
    } else if i == 3 {
        ("ignoreBinaries"@, "Binary filtering is not configurable in fallow"@, None)
    } else if i == 4 {
        (
            "ignoreMembers"@,
            "Member-level ignoring is not configurable in fallow"@,
            Some("use inline suppression comments: // fallow-ignore-next-line"@),
        )
    } else if i == 5 {
        (
            "ignoreUnresolved"@,
            "Unresolved import filtering is not configurable in fallow"@,
            Some("use inline suppression comments: // fallow-ignore-next-line unresolved-imports"@),
        )
    } else if i == 6 {
        ("ignoreExportsUsedInFile"@, "No equivalent in fallow"@, None)
    } else if i == 7 {
        (
            "ignoreWorkspaces"@,
            "Workspace filtering is not configurable per-workspace"@,
            Some("use --workspace flag to scope output to a single package"@),
        )
    } else if i == 8 {
        (
            "ignoreIssues"@,
            "No global issue ignoring in fallow"@,
            Some("use inline suppression comments: // fallow-ignore-file [issue-type]"@),
        )
    } else if i == 9 {
        ("includeEntryExports"@, "Entry export inclusion is not configurable in fallow"@, None)
    } else if i == 10 {
        ("tags"@, "Tag-based filtering is not supported in fallow"@, None)
    } else if i == 11 {
        ("compilers"@, "Custom compilers are not supported in fallow (uses Oxc parser)"@, None)
    } else {
        ("treatConfigHintsAsErrors"@, "No equivalent in fallow"@, None)
    }
}

/// The number of unmappable knip fields.
pub open spec fn unmappable_field_count() -> int {
    13
}

fn unmappable_field_exec(i: usize) -> (r: (&'static str, &'static str, Option<&'static str>))
    requires
        i < 13,
    ensures
        (r.0@, r.1@, match r.2 {
            Some(s) => Some(s@),
            None => None,
        }) == unmappable_field(i as int),
{
    if i == 0 {
        ("project", "Fallow auto-discovers project files", None)
    } else if i == 1 {
        ("paths", "Fallow reads path mappings from tsconfig.json automatically", None)
    } else if i == 2 {
        ("ignoreFiles", "No separate concept in fallow", Some("use the `ignorePatterns` field instead"))
    } else if i == 3 {
        ("ignoreBinaries", "Binary filtering is not configurable in fallow", None)
    } else if i == 4 {
        (
            "ignoreMembers",
            "Member-level ignoring is not configurable in fallow",
            Some("use inline suppression comments: // fallow-ignore-next-line"),
        )
    } else if i == 5 {
        (
            "ignoreUnresolved",
            "Unresolved import filtering is not configurable in fallow",
            Some("use inline suppression comments: // fallow-ignore-next-line unresolved-imports"),
        )
    } else if i == 6 {
        ("ignoreExportsUsedInFile", "No equivalent in fallow", None)
    } else if i == 7 {
        (
            "ignoreWorkspaces",
            "Workspace filtering is not configurable per-workspace",
            Some("use --workspace flag to scope output to a single package"),
        )
    } else if i == 8 {
        (
            "ignoreIssues",
            "No global issue ignoring in fallow",
            Some("use inline suppression comments: // fallow-ignore-file [issue-type]"),
        )
    } else if i == 9 {
        ("includeEntryExports", "Entry export inclusion is not configurable in fallow", None)
    } else if i == 10 {
        ("tags", "Tag-based filtering is not supported in fallow", None)
    } else if i == 11 {
        ("compilers", "Custom compilers are not supported in fallow (uses Oxc parser)", None)
    } else {
        ("treatConfigHintsAsErrors", "No equivalent in fallow", None)
    }
}

/// The index of a knip rule name in the rule map, from index `i` on.
pub open spec fn rule_index_from(name: Seq<char>, i: int) -> Option<int>
    decreases 10 - i,
{
    if i < 0 || i >= 10 {
        None
    } else if KNIP_RULE_NAMES[i]@ == name {
        Some(i)
    } else {
        rule_index_from(name, i + 1)
    }
}

/// The index of a knip rule name in the rule map.
pub open spec fn rule_index(name: Seq<char>) -> Option<int> {
    rule_index_from(name, 0)
}

pub open spec fn is_unmappable_issue(name: Seq<char>) -> bool {
    exists|i: int| 0 <= i < 5 && KNIP_UNMAPPABLE_ISSUE_TYPES[i]@ == name
}

pub open spec fn is_plugin_key(name: Seq<char>) -> bool {
    exists|i: int| 0 <= i < 73 && KNIP_PLUGIN_KEYS[i]@ == name
}

fn find_rule(name: &str) -> (r: Option<usize>)
    ensures
        match r {
            Some(i) => i < 10 && rule_index(name@) == Some(i as int),
            None => rule_index(name@) is None,
        },
{
    let mut i: usize = 0;
    while i < 10
        invariant
            i <= 10,
            rule_index(name@) == rule_index_from(name@, i as int),
        decreases 10 - i,
    {
        if str_eq(KNIP_RULE_NAMES[i], name) {
            return Some(i);
        }
        i = i + 1;
    }
    None
}

fn unmappable_issue(name: &str) -> (r: bool)
    ensures
        r == is_unmappable_issue(name@),
{
    let mut i: usize = 0;
    while i < 5
        invariant
            i <= 5,
            forall|j: int| 0 <= j < i ==> KNIP_UNMAPPABLE_ISSUE_TYPES[j]@ != name@,
        decreases 5 - i,
    {
        if str_eq(KNIP_UNMAPPABLE_ISSUE_TYPES[i], name) {
            return true;
        }
        i = i + 1;
    }
    false
}

fn plugin_key(name: &str) -> (r: bool)
    ensures
        r == is_plugin_key(name@),
{
    let mut i: usize = 0;
    while i < 73
        invariant
            i <= 73,
            forall|j: int| 0 <= j < i ==> KNIP_PLUGIN_KEYS[j]@ != name@,
        decreases 73 - i,
    {
        if str_eq(KNIP_PLUGIN_KEYS[i], name) {
            return true;
        }
        i = i + 1;
    }
    false
}

// ---- rule lists ----------------------------------------------------------

/// The index of the rule named `k`.
pub open spec fn rule_position(rules: RulesView, k: Seq<char>) -> Option<int>
    decreases rules.len(),
{
    if rules.len() == 0 {
        None
    } else {
        match rule_position(rules.drop_last(), k) {
            Some(i) => Some(i),
            None => if rules.last().0 == k { Some(rules.len() - 1) } else { None },
        }
    }
}

/// The rules with rule `k` set to `v`: in place when present, else added.
pub open spec fn set_rule(rules: RulesView, k: Seq<char>, v: Seq<char>) -> RulesView {
    match rule_position(rules, k) {
        Some(i) => rules.update(i, (k, v)),
        None => rules.push((k, v)),
    }
}

/// The rules with rule `k` set to `v` unless it is set already.
pub open spec fn default_rule(rules: RulesView, k: Seq<char>, v: Seq<char>) -> RulesView {
    match rule_position(rules, k) {
        Some(i) => rules,
        None => rules.push((k, v)),
    }
}

proof fn lemma_rule_position(rules: RulesView, k: Seq<char>)
    ensures
        match rule_position(rules, k) {
            Some(i) => 0 <= i < rules.len() && rules[i].0 == k && forall|j: int| 0 <= j < i ==> rules[j].0 != k,
            None => forall|j: int| 0 <= j < rules.len() ==> rules[j].0 != k,
        },
    decreases rules.len(),
{
    if rules.len() > 0 {
        let d = rules.drop_last();
        lemma_rule_position(d, k);
        assert forall|j: int| 0 <= j < d.len() implies rules[j] == d[j] by {}
    }
}

fn rule_position_exec(rules: &Vec<(String, String)>, k: &str) -> (r: Option<usize>)
    ensures
        match r {
            Some(i) => rule_position(rules_view(rules@), k@) == Some(i as int) && i < rules@.len(),
            None => rule_position(rules_view(rules@), k@) is None,
        },
{
    let ghost rv = rules_view(rules@);
    let mut i: usize = 0;
    while i < rules.len()
        invariant
            i <= rules@.len(),
            rv == rules_view(rules@),
            forall|j: int| 0 <= j < i ==> rv[j].0 != k@,
        decreases rules.len() - i,
    {
        if str_eq(rules[i].0.as_str(), k) {
            proof {
                lemma_rule_position(rv, k@);
                assert(rv[i as int].0 == k@);
                match rule_position(rv, k@) {
                    Some(p) => {
                        if p < i {
                            assert(rv[p].0 != k@);
                        }
                    },
                    None => {},
                }
            }
            return Some(i);
        }
        i = i + 1;
    }
    proof { lemma_rule_position(rv, k@); }
    None
}

fn set_rule_exec(rules: &mut Vec<(String, String)>, k: &str, v: &str)
    ensures
        rules_view(final(rules)@) == set_rule(rules_view(old(rules)@), k@, v@),
{
    let ghost before = rules_view(rules@);
    match rule_position_exec(rules, k) {
        Some(i) => {
            rules.set(i, (to_owned_string(k), to_owned_string(v)));
            assert(rules_view(rules@) =~= before.update(i as int, (k@, v@)));
        },
        None => {
            rules.push((to_owned_string(k), to_owned_string(v)));
            assert(rules_view(rules@) =~= before.push((k@, v@)));
        },
    }
}

fn default_rule_exec(rules: &mut Vec<(String, String)>, k: &str, v: &str)
    ensures
        rules_view(final(rules)@) == default_rule(rules_view(old(rules)@), k@, v@),
{
    let ghost before = rules_view(rules@);
    match rule_position_exec(rules, k) {
        Some(i) => {},
        None => {
            rules.push((to_owned_string(k), to_owned_string(v)));
            assert(rules_view(rules@) =~= before.push((k@, v@)));
        },
    }
}

// ---- warnings ------------------------------------------------------------

/// The warning for an issue type without a fallow equivalent, met under
/// `field_prefix` (`rules.`, `exclude.` or `include.`).
pub open spec fn issue_warning(field_prefix: Seq<char>, name: Seq<char>) -> WarningView {
    (field_prefix + name, "issue type `"@ + name + "` has no fallow equivalent"@, None)
}

fn issue_warning_exec(field_prefix: &str, name: &str) -> (w: MigrationWarning)
    ensures
        warning_view(w) == issue_warning(field_prefix@, name@),
        w.source@ == "knip"@,
{
    let mut field = to_owned_string(field_prefix);
    push_str(&mut field, name);
    let mut message = to_owned_string("issue type `");
    push_str(&mut message, name);
    push_str(&mut message, "` has no fallow equivalent");
    MigrationWarning { source: "knip", field, message, suggestion: None }
}

fn push_warning(warnings: &mut Vec<MigrationWarning>, w: MigrationWarning)
    requires
        w.source@ == "knip"@,
    ensures
        warning_views(final(warnings)@) == warning_views(old(warnings)@).push(warning_view(w)),
        final(warnings)@.len() == old(warnings)@.len() + 1,
        from_knip(old(warnings)@) ==> from_knip(final(warnings)@),
{
    let ghost before = warnings@;
    warnings.push(w);
    assert(warning_views(warnings@) =~= warning_views(before).push(warning_view(w)));
}

// ---- the steps -----------------------------------------------------------

/// A string-or-array field, when it holds strings.
pub open spec fn simple_field(obj: Seq<(String, JsonValue)>, key: Seq<char>) -> Option<Seq<Seq<char>>> {
    match member(obj, key) {
        Some(v) => if strings_of(v).len() > 0 { Some(strings_of(v)) } else { None },
        None => None,
    }
}

/// Read a string-or-array field of the knip configuration: its strings,
/// when it has some.
pub fn migrate_simple_field(obj: &Vec<(String, JsonValue)>, src_key: &str) -> (r: Option<Vec<String>>)
    ensures
        opt_strings(r) == simple_field(obj@, src_key@),
{
    match member_index(obj, src_key) {
        Some(k) => {
            let entries = string_or_array(&obj[k].1);
            if entries.len() > 0 {
                Some(entries)
            } else {
                None
            }
        },
        None => None,
    }
}

/// The fallow rules of the knip rules with a string severity, in the
/// order of the rule map.
pub open spec fn mapped_rules(r: Seq<(String, JsonValue)>, n: int) -> RulesView
    decreases n,
{
    if n <= 0 {
        seq![]
    } else {
        let prev = mapped_rules(r, n - 1);
        match member(r, KNIP_RULE_NAMES[n - 1]@) {
            Some(JsonValue::String(s)) => set_rule(prev, FALLOW_RULE_NAMES[n - 1]@, s@),
            _ => prev,
        }
    }
}

/// The warnings for the knip rule keys that name issue types without a
/// fallow equivalent, in order.
pub open spec fn rule_key_warnings(r: Seq<(String, JsonValue)>) -> Seq<WarningView>
    decreases r.len(),
{
    if r.len() == 0 {
        seq![]
    } else {
        let prev = rule_key_warnings(r.drop_last());
        let key = r.last().0@;
        if rule_index(key) is None && is_unmappable_issue(key) { prev.push(issue_warning("rules."@, key)) } else { prev }
    }
}

/// What migrating knip `rules` does: with an object, its mapped rules
/// replace the fallow rules when there are some, and its keys of issue
/// types without an equivalent are warned about.
pub open spec fn rules_step(c: ConfigView, rules_val: JsonValue) -> (ConfigView, Seq<WarningView>) {
    match rules_val {
        JsonValue::Object(r) => {
            let mapped = mapped_rules(r@, 10);
            (if mapped.len() > 0 { ConfigView { rules: Some(mapped), ..c } } else { c }, rule_key_warnings(r@))
        },
        _ => (c, seq![]),
    }
}

/// Migrate knip `rules` to fallow `rules`, warning about unmappable rule
/// names.
pub fn migrate_rules(rules_val: &JsonValue, config: &mut MigratedConfig, warnings: &mut Vec<MigrationWarning>)
    requires
        from_knip(old(warnings)@),
    ensures
        (config_view(*final(config)), warning_views(final(warnings)@)) == ({
            let s = rules_step(config_view(*old(config)), *rules_val);
            (s.0, warning_views(old(warnings)@) + s.1)
        }),
        from_knip(final(warnings)@),
{
    let ghost w0 = warning_views(warnings@);
    match rules_val {
        JsonValue::Object(r) => {
            let mut fallow_rules: Vec<(String, String)> = Vec::new();
            let mut i: usize = 0;
            assert(rules_view(fallow_rules@) =~= mapped_rules(r@, 0));
            while i < 10
                invariant
                    i <= 10,
                    rules_view(fallow_rules@) == mapped_rules(r@, i as int),
                decreases 10 - i,
            {
                match member_index(r, KNIP_RULE_NAMES[i]) {
                    Some(k) => match &r[k].1 {
                        JsonValue::String(s) => set_rule_exec(&mut fallow_rules, FALLOW_RULE_NAMES[i], s.as_str()),
                        _ => {},
                    },
                    None => {},
                }
                i = i + 1;
            }
            let mut k: usize = 0;
            assert(rule_key_warnings(r@.take(0)) =~= seq![]);
            assert(w0 + seq![] =~= w0);
            while k < r.len()
                invariant
                    k <= r@.len(),
                    from_knip(warnings@),
                    warning_views(warnings@) == w0 + rule_key_warnings(r@.take(k as int)),
                decreases r.len() - k,
            {
                assert(r@.take(k + 1).drop_last() =~= r@.take(k as int));
                let key = r[k].0.as_str();
                if find_rule(key).is_none() && unmappable_issue(key) {
                    let w = issue_warning_exec("rules.", key);
                    push_warning(warnings, w);
                    assert(w0 + rule_key_warnings(r@.take(k + 1)) =~= (w0 + rule_key_warnings(r@.take(k as int))).push(
                        issue_warning("rules."@, key@),
                    ));
                }
                k = k + 1;
            }
            assert(r@.take(r@.len() as int) =~= r@);
            if fallow_rules.len() > 0 {
                config.rules = Some(fallow_rules);
            }
        },
        _ => {
            assert(warning_views(warnings@) =~= w0 + seq![]);
        },
    }
}

/// What excluding issue types does to the rules: a mapped type's rule is
/// set to `off`, a type without an equivalent is warned about.
pub open spec fn exclude_step(rules: RulesView, names: Seq<Seq<char>>) -> (RulesView, Seq<WarningView>)
    decreases names.len(),
{
    if names.len() == 0 {
        (rules, seq![])
    } else {
        let prev = exclude_step(rules, names.drop_last());
        let name = names.last();
        match rule_index(name) {
            Some(i) => (set_rule(prev.0, FALLOW_RULE_NAMES[i]@, "off"@), prev.1),
            None => if is_unmappable_issue(name) { (prev.0, prev.1.push(issue_warning("exclude."@, name))) } else { prev },
        }
    }
}

pub open spec fn rules_or_empty(c: ConfigView) -> RulesView {
    match c.rules {
        Some(r) => r,
        None => seq![],
    }
}

/// Migrate knip `exclude`: set the excluded issue types to `off`.
pub fn migrate_exclude(excluded: &Vec<String>, config: &mut MigratedConfig, warnings: &mut Vec<MigrationWarning>)
    requires
        from_knip(old(warnings)@),
    ensures
        ({
            let s = exclude_step(rules_or_empty(config_view(*old(config))), views(excluded@));
            &&& config_view(*final(config)) == (ConfigView { rules: Some(s.0), ..config_view(*old(config)) })
            &&& warning_views(final(warnings)@) == warning_views(old(warnings)@) + s.1
        }),
        from_knip(final(warnings)@),
{
    let ghost w0 = warning_views(warnings@);
    let ghost c0 = config_view(*config);
    let mut rules: Vec<(String, String)> = match config.rules.take() {
        Some(r) => r,
        None => Vec::new(),
    };
    let ghost r0 = rules_view(rules@);
    assert(r0 == rules_or_empty(c0));
    let ghost names = views(excluded@);
    let mut i: usize = 0;
    assert(exclude_step(r0, names.take(0)) == (r0, Seq::<WarningView>::empty()));
    assert(w0 + seq![] =~= w0);
    while i < excluded.len()
        invariant
            i <= excluded@.len(),
            names == views(excluded@),
            from_knip(warnings@),
            rules_view(rules@) == exclude_step(r0, names.take(i as int)).0,
            warning_views(warnings@) == w0 + exclude_step(r0, names.take(i as int)).1,
        decreases excluded.len() - i,
    {
        assert(names.take(i + 1).drop_last() =~= names.take(i as int));
        assert(names.take(i + 1).last() == excluded@[i as int]@);
        let name = excluded[i].as_str();
        match find_rule(name) {
            Some(k) => set_rule_exec(&mut rules, FALLOW_RULE_NAMES[k], "off"),
            None => {
                if unmappable_issue(name) {
                    let w = issue_warning_exec("exclude.", name);
                    push_warning(warnings, w);
                    assert(w0 + exclude_step(r0, names.take(i + 1)).1 =~= (w0 + exclude_step(r0, names.take(i as int)).1).push(
                        issue_warning("exclude."@, name@),
                    ));
                }
            },
        }
        i = i + 1;
    }
    assert(names.take(names.len() as int) =~= names);
    config.rules = Some(rules);
}

/// The rules of the issue types not included set to `off` where unset,
/// in the order of the rule map.
pub open spec fn include_rules(rules: RulesView, included: Seq<Seq<char>>, n: int) -> RulesView
    decreases n,
{
    if n <= 0 {
        rules
    } else {
        let prev = include_rules(rules, included, n - 1);
        if included.contains(KNIP_RULE_NAMES[n - 1]@) { prev } else { default_rule(prev, FALLOW_RULE_NAMES[n - 1]@, "off"@) }
    }
}

/// The warnings for included issue types without a fallow equivalent.
pub open spec fn include_warnings(names: Seq<Seq<char>>) -> Seq<WarningView>
    decreases names.len(),
{
    if names.len() == 0 {
        seq![]
    } else {
        let prev = include_warnings(names.drop_last());
        let name = names.last();
        if rule_index(name) is None && is_unmappable_issue(name) { prev.push(issue_warning("include."@, name)) } else { prev }
    }
}

fn included_has(included: &Vec<String>, name: &str) -> (r: bool)
    ensures
        r == views(included@).contains(name@),
{
    let mut k: usize = 0;
    while k < included.len()
        invariant
            k <= included@.len(),
            forall|q: int| 0 <= q < k ==> views(included@)[q] != name@,
        decreases included.len() - k,
    {
        if str_eq(included[k].as_str(), name) {
            assert(views(included@)[k as int] == name@);
            return true;
        }
        k = k + 1;
    }
    false
}

/// Migrate knip `include`: set the issue types not included to `off`
/// (unless a rule sets them already).
pub fn migrate_include(included: &Vec<String>, config: &mut MigratedConfig, warnings: &mut Vec<MigrationWarning>)
    requires
        from_knip(old(warnings)@),
    ensures
        config_view(*final(config)) == (ConfigView {
            rules: Some(include_rules(rules_or_empty(config_view(*old(config))), views(included@), 10)),
            ..config_view(*old(config))
        }),
        warning_views(final(warnings)@) == warning_views(old(warnings)@) + include_warnings(views(included@)),
        from_knip(final(warnings)@),
{
    let ghost w0 = warning_views(warnings@);
    let ghost c0 = config_view(*config);
    let mut rules: Vec<(String, String)> = match config.rules.take() {
        Some(r) => r,
        None => Vec::new(),
    };
    let ghost r0 = rules_view(rules@);
    assert(r0 == rules_or_empty(c0));
    let ghost names = views(included@);
    let mut i: usize = 0;
    while i < 10
        invariant
            i <= 10,
            names == views(included@),
            rules_view(rules@) == include_rules(r0, names, i as int),
        decreases 10 - i,
    {
        if !included_has(included, KNIP_RULE_NAMES[i]) {
            default_rule_exec(&mut rules, FALLOW_RULE_NAMES[i], "off");
        }
        i = i + 1;
    }
    let mut k: usize = 0;
    assert(include_warnings(names.take(0)) =~= seq![]);
    assert(w0 + seq![] =~= w0);
    while k < included.len()
        invariant
            k <= included@.len(),
            names == views(included@),
            from_knip(warnings@),
            warning_views(warnings@) == w0 + include_warnings(names.take(k as int)),
        decreases included.len() - k,
    {
        assert(names.take(k + 1).drop_last() =~= names.take(k as int));
        assert(names.take(k + 1).last() == included@[k as int]@);
        let name = included[k].as_str();
        if find_rule(name).is_none() && unmappable_issue(name) {
            let w = issue_warning_exec("include.", name);
            push_warning(warnings, w);
            assert(w0 + include_warnings(names.take(k + 1)) =~= (w0 + include_warnings(names.take(k as int))).push(
                issue_warning("include."@, name@),
            ));
        }
        k = k + 1;
    }
    assert(names.take(names.len() as int) =~= names);
    config.rules = Some(rules);
}

/// Whether a dependency pattern is a regular expression: `/…/`.
pub open spec fn is_regex_pattern(d: Seq<char>) -> bool {
    d.len() > 0 && d[0] == '/' && d.last() == '/'
}

/// The warning for a regular-expression dependency pattern.
pub open spec fn regex_warning(d: Seq<char>) -> WarningView {
    (
        "ignoreDependencies"@,
        "regex pattern `"@ + d + "` skipped (fallow uses exact strings)"@,
        Some("add each dependency name explicitly"@),
    )
}

/// The dependency patterns that are no regular expressions, with a warning
/// for each that is.
pub open spec fn split_regex(deps: Seq<Seq<char>>) -> (Seq<Seq<char>>, Seq<WarningView>)
    decreases deps.len(),
{
    if deps.len() == 0 {
        (seq![], seq![])
    } else {
        let prev = split_regex(deps.drop_last());
        let d = deps.last();
        if is_regex_pattern(d) { (prev.0, prev.1.push(regex_warning(d))) } else { (prev.0.push(d), prev.1) }
    }
}

/// Migrate knip `ignoreDependencies`, skipping regular expressions with a
/// warning.
pub fn migrate_ignore_deps(ignore_deps_val: &JsonValue, config: &mut MigratedConfig, warnings: &mut Vec<MigrationWarning>)
    requires
        from_knip(old(warnings)@),
    ensures
        ({
            let s = split_regex(strings_of(*ignore_deps_val));
            &&& config_view(*final(config)) == (if s.0.len() > 0 {
                ConfigView { ignore_dependencies: Some(s.0), ..config_view(*old(config)) }
            } else {
                config_view(*old(config))
            })
            &&& warning_views(final(warnings)@) == warning_views(old(warnings)@) + s.1
        }),
        from_knip(final(warnings)@),
{
    let deps = string_or_array(ignore_deps_val);
    let ghost dv = views(deps@);
    let ghost w0 = warning_views(warnings@);
    let mut non_regex: Vec<String> = Vec::new();
    let mut i: usize = 0;
    assert(split_regex(dv.take(0)) == (Seq::<Seq<char>>::empty(), Seq::<WarningView>::empty()));
    assert(w0 + seq![] =~= w0);
    while i < deps.len()
        invariant
            i <= deps@.len(),
            dv == views(deps@),
            from_knip(warnings@),
            views(non_regex@) == split_regex(dv.take(i as int)).0,
            warning_views(warnings@) == w0 + split_regex(dv.take(i as int)).1,
        decreases deps.len() - i,
    {
        assert(dv.take(i + 1).drop_last() =~= dv.take(i as int));
        assert(dv.take(i + 1).last() == deps@[i as int]@);
        let d = &deps[i];
        let v = str_chars(d.as_str());
        if v.len() > 0 && v[0] == '/' && v[v.len() - 1] == '/' {
            let mut message = to_owned_string("regex pattern `");
            push_str(&mut message, d.as_str());
            push_str(&mut message, "` skipped (fallow uses exact strings)");
            let w = MigrationWarning {
                source: "knip",
                field: to_owned_string("ignoreDependencies"),
                message,
                suggestion: Some(to_owned_string("add each dependency name explicitly")),
            };
            push_warning(warnings, w);
            assert(w0 + split_regex(dv.take(i + 1)).1 =~= (w0 + split_regex(dv.take(i as int)).1).push(warning_view(w)));
        } else {
            let ghost before = non_regex@;
            non_regex.push(copy_string(d));
            assert(views(non_regex@) =~= views(before).push(d@));
        }
        i = i + 1;
    }
    assert(dv.take(dv.len() as int) =~= dv);
    if non_regex.len() > 0 {
        config.ignore_dependencies = Some(non_regex);
    }
}

/// The warnings for the unmappable knip fields present, in the order of
/// the list of such fields.
pub open spec fn unmappable_warnings(obj: Seq<(String, JsonValue)>, n: int) -> Seq<WarningView>
    decreases n,
{
    if n <= 0 {
        seq![]
    } else {
        let prev = unmappable_warnings(obj, n - 1);
        let f = unmappable_field(n - 1);
        if member(obj, f.0) is Some { prev.push(f) } else { prev }
    }
}

/// Warn about knip fields that have no fallow equivalent.
pub fn warn_unmappable_fields(obj: &Vec<(String, JsonValue)>, warnings: &mut Vec<MigrationWarning>)
    requires
        from_knip(old(warnings)@),
    ensures
        warning_views(final(warnings)@) == warning_views(old(warnings)@) + unmappable_warnings(obj@, 13),
        from_knip(final(warnings)@),
{
    let ghost w0 = warning_views(warnings@);
    let mut i: usize = 0;
    assert(w0 + seq![] =~= w0);
    while i < 13
        invariant
            i <= 13,
            from_knip(warnings@),
            warning_views(warnings@) == w0 + unmappable_warnings(obj@, i as int),
        decreases 13 - i,
    {
        let (field, message, suggestion) = unmappable_field_exec(i);
        if member_index(obj, field).is_some() {
            let w = MigrationWarning {
                source: "knip",
                field: to_owned_string(field),
                message: to_owned_string(message),
                suggestion: match suggestion {
                    Some(s) => Some(to_owned_string(s)),
                    None => None,
                },
            };
            push_warning(warnings, w);
            assert(w0 + unmappable_warnings(obj@, i + 1) =~= (w0 + unmappable_warnings(obj@, i as int)).push(warning_view(w)));
        }
        i = i + 1;
    }
}

/// The warning for a knip plugin section.
pub open spec fn plugin_warning(key: Seq<char>) -> WarningView {
    (
        key,
        "plugin config `"@ + key + "` is auto-detected by fallow's built-in plugins"@,
        Some("remove this section; fallow detects framework config automatically"@),
    )
}

/// The warnings for the plugin sections of the knip configuration, in order.
pub open spec fn plugin_warnings(obj: Seq<(String, JsonValue)>) -> Seq<WarningView>
    decreases obj.len(),
{
    if obj.len() == 0 {
        seq![]
    } else {
        let prev = plugin_warnings(obj.drop_last());
        if is_plugin_key(obj.last().0@) { prev.push(plugin_warning(obj.last().0@)) } else { prev }
    }
}

/// Warn about knip plugin-specific config keys that are auto-detected in
/// fallow.
pub fn warn_plugin_keys(obj: &Vec<(String, JsonValue)>, warnings: &mut Vec<MigrationWarning>)
    requires
        from_knip(old(warnings)@),
    ensures
        warning_views(final(warnings)@) == warning_views(old(warnings)@) + plugin_warnings(obj@),
        from_knip(final(warnings)@),
{
    let ghost w0 = warning_views(warnings@);
    let mut k: usize = 0;
    assert(plugin_warnings(obj@.take(0)) =~= seq![]);
    assert(w0 + seq![] =~= w0);
    while k < obj.len()
        invariant
            k <= obj@.len(),
            from_knip(warnings@),
            warning_views(warnings@) == w0 + plugin_warnings(obj@.take(k as int)),
        decreases obj.len() - k,
    {
        assert(obj@.take(k + 1).drop_last() =~= obj@.take(k as int));
        let key = obj[k].0.as_str();
        if plugin_key(key) {
            let mut message = to_owned_string("plugin config `");
            push_str(&mut message, key);
            push_str(&mut message, "` is auto-detected by fallow's built-in plugins");
            let w = MigrationWarning {
                source: "knip",
                field: to_owned_string(key),
                message,
                suggestion: Some(to_owned_string("remove this section; fallow detects framework config automatically")),
            };
            push_warning(warnings, w);
            assert(w0 + plugin_warnings(obj@.take(k + 1)) =~= (w0 + plugin_warnings(obj@.take(k as int))).push(
                warning_view(w),
            ));
        }
        k = k + 1;
    }
    assert(obj@.take(obj@.len() as int) =~= obj@);
}

// ---- the whole migration -------------------------------------------------

pub open spec fn ignore_deps_part(c: ConfigView, obj: Seq<(String, JsonValue)>) -> (ConfigView, Seq<WarningView>) {
    match member(obj, "ignoreDependencies"@) {
        Some(v) => {
            let s = split_regex(strings_of(v));
            (if s.0.len() > 0 { ConfigView { ignore_dependencies: Some(s.0), ..c } } else { c }, s.1)
        },
        None => (c, seq![]),
    }
}

pub open spec fn rules_part(c: ConfigView, obj: Seq<(String, JsonValue)>) -> (ConfigView, Seq<WarningView>) {
    match member(obj, "rules"@) {
        Some(v) => rules_step(c, v),
        None => (c, seq![]),
    }
}

pub open spec fn exclude_part(c: ConfigView, obj: Seq<(String, JsonValue)>) -> (ConfigView, Seq<WarningView>) {
    match member(obj, "exclude"@) {
        Some(v) => if strings_of(v).len() > 0 {
            let s = exclude_step(rules_or_empty(c), strings_of(v));
            (ConfigView { rules: Some(s.0), ..c }, s.1)
        } else {
            (c, seq![])
        },
        None => (c, seq![]),
    }
}

pub open spec fn include_part(c: ConfigView, obj: Seq<(String, JsonValue)>) -> (ConfigView, Seq<WarningView>) {
    match member(obj, "include"@) {
        Some(v) => if strings_of(v).len() > 0 {
            (
                ConfigView { rules: Some(include_rules(rules_or_empty(c), strings_of(v), 10)), ..c },
                include_warnings(strings_of(v)),
            )
        } else {
            (c, seq![])
        },
        None => (c, seq![]),
    }
}

/// The warning for per-workspace knip sections.
pub open spec fn workspaces_warning() -> WarningView {
    (
        "workspaces"@,
        "per-workspace plugin overrides have limited support in fallow"@,
        Some("fallow auto-discovers workspace packages; use --workspace flag to scope output"@),
    )
}

pub open spec fn workspaces_part(obj: Seq<(String, JsonValue)>) -> Seq<WarningView> {
    match member(obj, "workspaces"@) {
        Some(JsonValue::Object(_)) => seq![workspaces_warning()],
        _ => seq![],
    }
}

/// What migrating a knip configuration object does to a fallow
/// configuration, and the warnings it gives, in order: `entry`, `ignore`,
/// `ignoreDependencies`, `rules`, `exclude`, `include`, then the fields
/// without an equivalent, the plugin sections and per-workspace sections.
pub open spec fn knip_object_migration(obj: Seq<(String, JsonValue)>, c0: ConfigView) -> (ConfigView, Seq<WarningView>) {
    let c1 = match simple_field(obj, "entry"@) {
        Some(v) => ConfigView { entry: Some(v), ..c0 },
        None => c0,
    };
    let c2 = match simple_field(obj, "ignore"@) {
        Some(v) => ConfigView { ignore_patterns: Some(v), ..c1 },
        None => c1,
    };
    let s3 = ignore_deps_part(c2, obj);
    let s4 = rules_part(s3.0, obj);
    let s5 = exclude_part(s4.0, obj);
    let s6 = include_part(s5.0, obj);
    (s6.0, s3.1 + s4.1 + s5.1 + s6.1 + unmappable_warnings(obj, 13) + plugin_warnings(obj) + workspaces_part(obj))
}

/// The warning for a knip configuration that is no object.
pub open spec fn root_warning() -> WarningView {
    ("(root)"@, "expected an object, got something else"@, None)
}

pub open spec fn knip_migration(knip: JsonValue, c0: ConfigView) -> (ConfigView, Seq<WarningView>) {
    match knip {
        JsonValue::Object(obj) => knip_object_migration(obj@, c0),
        _ => (c0, seq![root_warning()]),
    }
}

fn migrate_listed_fields(obj: &Vec<(String, JsonValue)>, config: &mut MigratedConfig)
    ensures
        config_view(*final(config)) == ({
            let c0 = config_view(*old(config));
            let c1 = match simple_field(obj@, "entry"@) {
                Some(v) => ConfigView { entry: Some(v), ..c0 },
                None => c0,
            };
            match simple_field(obj@, "ignore"@) {
                Some(v) => ConfigView { ignore_patterns: Some(v), ..c1 },
                None => c1,
            }
        }),
{
    match migrate_simple_field(obj, "entry") {
        Some(v) => config.entry = Some(v),
        None => {},
    }
    match migrate_simple_field(obj, "ignore") {
        Some(v) => config.ignore_patterns = Some(v),
        None => {},
    }
}

fn migrate_ignore_deps_part(obj: &Vec<(String, JsonValue)>, config: &mut MigratedConfig, warnings: &mut Vec<MigrationWarning>)
    requires
        from_knip(old(warnings)@),
    ensures
        config_view(*final(config)) == ignore_deps_part(config_view(*old(config)), obj@).0,
        warning_views(final(warnings)@) == warning_views(old(warnings)@) + ignore_deps_part(config_view(*old(config)), obj@).1,
        from_knip(final(warnings)@),
{
    match member_index(obj, "ignoreDependencies") {
        Some(k) => migrate_ignore_deps(&obj[k].1, config, warnings),
        None => {
            assert(warning_views(warnings@) =~= warning_views(warnings@) + seq![]);
        },
    }
}

fn migrate_rules_part(obj: &Vec<(String, JsonValue)>, config: &mut MigratedConfig, warnings: &mut Vec<MigrationWarning>)
    requires
        from_knip(old(warnings)@),
    ensures
        config_view(*final(config)) == rules_part(config_view(*old(config)), obj@).0,
        warning_views(final(warnings)@) == warning_views(old(warnings)@) + rules_part(config_view(*old(config)), obj@).1,
        from_knip(final(warnings)@),
{
    match member_index(obj, "rules") {
        Some(k) => migrate_rules(&obj[k].1, config, warnings),
        None => {
            assert(warning_views(warnings@) =~= warning_views(warnings@) + seq![]);
        },
    }
}

fn migrate_exclude_part(obj: &Vec<(String, JsonValue)>, config: &mut MigratedConfig, warnings: &mut Vec<MigrationWarning>)
    requires
        from_knip(old(warnings)@),
    ensures
        config_view(*final(config)) == exclude_part(config_view(*old(config)), obj@).0,
        warning_views(final(warnings)@) == warning_views(old(warnings)@) + exclude_part(config_view(*old(config)), obj@).1,
        from_knip(final(warnings)@),
{
    match member_index(obj, "exclude") {
        Some(k) => {
            let excluded = string_or_array(&obj[k].1);
            if excluded.len() > 0 {
                migrate_exclude(&excluded, config, warnings);
            } else {
                assert(warning_views(warnings@) =~= warning_views(warnings@) + seq![]);
            }
        },
        None => {
            assert(warning_views(warnings@) =~= warning_views(warnings@) + seq![]);
        },
    }
}

fn migrate_include_part(obj: &Vec<(String, JsonValue)>, config: &mut MigratedConfig, warnings: &mut Vec<MigrationWarning>)
    requires
        from_knip(old(warnings)@),
    ensures
        config_view(*final(config)) == include_part(config_view(*old(config)), obj@).0,
        warning_views(final(warnings)@) == warning_views(old(warnings)@) + include_part(config_view(*old(config)), obj@).1,
        from_knip(final(warnings)@),
{
    match member_index(obj, "include") {
        Some(k) => {
            let included = string_or_array(&obj[k].1);
            if included.len() > 0 {
                migrate_include(&included, config, warnings);
            } else {
                assert(warning_views(warnings@) =~= warning_views(warnings@) + seq![]);
            }
        },
        None => {
            assert(warning_views(warnings@) =~= warning_views(warnings@) + seq![]);
        },
    }
}

fn warn_workspaces(obj: &Vec<(String, JsonValue)>, warnings: &mut Vec<MigrationWarning>)
    requires
        from_knip(old(warnings)@),
    ensures
        warning_views(final(warnings)@) == warning_views(old(warnings)@) + workspaces_part(obj@),
        from_knip(final(warnings)@),
{
    match member_index(obj, "workspaces") {
        Some(k) => match &obj[k].1 {
            JsonValue::Object(_) => {
                let w = MigrationWarning {
                    source: "knip",
                    field: to_owned_string("workspaces"),
                    message: to_owned_string("per-workspace plugin overrides have limited support in fallow"),
                    suggestion: Some(
                        to_owned_string("fallow auto-discovers workspace packages; use --workspace flag to scope output"),
                    ),
                };
                let ghost before = warning_views(warnings@);
                push_warning(warnings, w);
                assert(warning_views(warnings@) =~= before + seq![warning_view(w)]);
            },
            _ => {
                assert(warning_views(warnings@) =~= warning_views(warnings@) + seq![]);
            },
        },
        None => {
            assert(warning_views(warnings@) =~= warning_views(warnings@) + seq![]);
        },
    }
}

/// Migrate a knip configuration into a fallow one, adding a warning for
/// each thing that cannot be carried over (see [`knip_migration`]).
pub fn migrate_knip(knip: &JsonValue, config: &mut MigratedConfig, warnings: &mut Vec<MigrationWarning>)
    requires
        from_knip(old(warnings)@),
    ensures
        config_view(*final(config)) == knip_migration(*knip, config_view(*old(config))).0,
        warning_views(final(warnings)@) == warning_views(old(warnings)@) + knip_migration(*knip, config_view(*old(config))).1,
        from_knip(final(warnings)@),
{
    let ghost w0 = warning_views(warnings@);
    let obj = match knip {
        JsonValue::Object(obj) => obj,
        _ => {
            let w = MigrationWarning {
                source: "knip",
                field: to_owned_string("(root)"),
                message: to_owned_string("expected an object, got something else"),
                suggestion: None,
            };
            push_warning(warnings, w);
            assert(warning_views(warnings@) =~= w0 + seq![root_warning()]);
            return;
        },
    };
    migrate_listed_fields(obj, config);
    migrate_ignore_deps_part(obj, config, warnings);
    let ghost w3 = warning_views(warnings@);
    migrate_rules_part(obj, config, warnings);
    let ghost w4 = warning_views(warnings@);
    migrate_exclude_part(obj, config, warnings);
    let ghost w5 = warning_views(warnings@);
    migrate_include_part(obj, config, warnings);
    let ghost w6 = warning_views(warnings@);
    warn_unmappable_fields(obj, warnings);
    warn_plugin_keys(obj, warnings);
    warn_workspaces(obj, warnings);
    assert(warning_views(warnings@) =~= w0 + knip_object_migration(obj@, config_view(*old(config))).1);
}

/// `include` never overrides a rule that is set already: the rules before
/// it stay, each with its severity, and only new rules are added after them.
pub proof fn lemma_include_keeps_set_rules(rules: RulesView, included: Seq<Seq<char>>, n: int)
    ensures
        include_rules(rules, included, n).len() >= rules.len(),
        include_rules(rules, included, n).take(rules.len() as int) == rules,
    decreases n,
{
    if n > 0 {
        lemma_include_keeps_set_rules(rules, included, n - 1);
        let prev = include_rules(rules, included, n - 1);
        if !included.contains(KNIP_RULE_NAMES[n - 1]@) {
            let now = default_rule(prev, FALLOW_RULE_NAMES[n - 1]@, "off"@);
            assert(now.take(rules.len() as int) =~= prev.take(rules.len() as int));
        }
    }
}

} // verus!
