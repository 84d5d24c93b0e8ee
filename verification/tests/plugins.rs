use fallow::plugins::{ContentCollectionsPlugin, SemanticReleasePlugin, TsdownPlugin, VitestConfigValues, VitestPlugin};

#[test]
fn protects_root_config_and_tooling_packages() {
    let plugin = ContentCollectionsPlugin;

    assert!(
        plugin.entry_patterns().contains(&"content-collections.{ts,tsx,js,jsx,mts,mjs,cts,cjs}"),
        "entry pattern must accept every JS/TS extension content-collections honors at runtime"
    );
    assert!(plugin.tooling_dependencies().contains(&"@content-collections/vite"));
}

#[test]
fn framework_integrations_activate_the_plugin() {
    let plugin = ContentCollectionsPlugin;

    for framework_pkg in [
        "@content-collections/vite",
        "@content-collections/next",
        "@content-collections/solid-start",
        "@content-collections/remix-vite",
        "@content-collections/qwik",
        "@content-collections/vinxi",
    ] {
        assert!(
            plugin.enablers().contains(&framework_pkg),
            "{framework_pkg} should activate the plugin without requiring @content-collections/core to be a direct dep"
        );
    }
}

#[test]
fn plugins_are_enabled_by_their_packages() {
    let deps = vec!["react".to_string(), "tsdown".to_string()];
    assert!(TsdownPlugin.is_enabled_with_deps(&deps));
    assert!(!SemanticReleasePlugin.is_enabled_with_deps(&deps));
    assert!(!VitestPlugin.is_enabled_with_deps(&deps, false));
    assert!(VitestPlugin.is_enabled_with_deps(&deps, true));
    assert!(VitestPlugin.is_enabled_with_deps(&vec!["vitest".to_string()], false));
    assert!(ContentCollectionsPlugin.is_enabled_with_deps(&vec!["@content-collections/next".to_string()]));
    assert_eq!(SemanticReleasePlugin.tooling_dependencies().len(), 7);
    assert_eq!(VitestPlugin.name(), "vitest");
    assert!(VitestPlugin.config_files().contains(&"vite.config.ts"));
    assert!(TsdownPlugin.entry_patterns().is_empty());
}

fn owned(items: &[&str]) -> Vec<String> {
    items.iter().map(|s| s.to_string()).collect()
}

#[test]
fn semantic_release_config_refers_to_plugin_packages() {
    let result = SemanticReleasePlugin.resolve_config(
        &owned(&["semantic-release"]),
        &owned(&["@semantic-release/npm", "@semantic-release/git/sub"]),
    );
    assert_eq!(
        result.referenced_dependencies,
        owned(&["semantic-release", "@semantic-release/npm", "@semantic-release/git"])
    );
    assert!(result.entry_patterns.is_empty());
    let empty = SemanticReleasePlugin.resolve_config(&vec![], &vec![]);
    assert!(empty.referenced_dependencies.is_empty());
}

#[test]
fn tsdown_entries_become_entry_patterns() {
    let result = TsdownPlugin.resolve_config(&owned(&["tsdown/config"]), &owned(&["src/index.ts", "src/cli.ts"]));
    assert_eq!(result.referenced_dependencies, owned(&["tsdown"]));
    assert_eq!(result.entry_patterns, owned(&["src/index.ts", "src/cli.ts"]));
    assert!(result.setup_files.is_empty());
}

fn vitest_values(environment: Option<&str>) -> VitestConfigValues {
    VitestConfigValues {
        imports: owned(&["vitest/config", "@vitejs/plugin-react"]),
        includes: owned(&["src/**/*.test.ts"]),
        project_include: owned(&["packages/*/test/**"]),
        setup_files: owned(&["./src/setup.ts"]),
        project_setup_files: owned(&["./././nested/setup.ts"]),
        global_setup: owned(&["global.ts"]),
        project_global_setup: owned(&["/abs/global.ts"]),
        environment: environment.map(|e| e.to_string()),
    }
}

#[test]
fn vitest_config_yields_entries_setup_files_and_dependencies() {
    let result = VitestPlugin.resolve_config(&vitest_values(Some("edge-runtime")), "/project");
    assert_eq!(
        result.referenced_dependencies,
        owned(&["vitest", "@vitejs/plugin-react", "vitest-environment-edge-runtime", "edge-runtime"])
    );
    assert_eq!(result.entry_patterns, owned(&["src/**/*.test.ts", "packages/*/test/**"]));
    assert_eq!(
        result.setup_files,
        owned(&["/project/src/setup.ts", "/project/nested/setup.ts", "/project/global.ts", "/abs/global.ts"])
    );
}

#[test]
fn vitest_builtin_environments_are_no_dependencies() {
    for env in ["node", "jsdom", "happy-dom"] {
        let result = VitestPlugin.resolve_config(&vitest_values(Some(env)), "/project");
        assert_eq!(result.referenced_dependencies, owned(&["vitest", "@vitejs/plugin-react"]));
    }
    let result = VitestPlugin.resolve_config(&vitest_values(None), "/project/");
    assert_eq!(result.setup_files[0], "/project/src/setup.ts");
}

// The semantic-release scenarios, with the configuration as the library
// takes it: the import sources of the file and the plain strings of its
// `plugins` array (an `[name, options]` entry is no plain string).

fn semantic_release_deps(imports: &[&str], plugins: &[&str]) -> Vec<String> {
    SemanticReleasePlugin.resolve_config(&owned(imports), &owned(plugins)).referenced_dependencies
}

#[test]
fn resolve_config_plugins_shallow_strings() {
    let deps = semantic_release_deps(
        &[],
        &[
            "@semantic-release/commit-analyzer",
            "@semantic-release/release-notes-generator",
            "@semantic-release/npm",
            "@semantic-release/github",
        ],
    );
    assert!(deps.contains(&"@semantic-release/commit-analyzer".to_string()));
    assert!(deps.contains(&"@semantic-release/release-notes-generator".to_string()));
    assert!(deps.contains(&"@semantic-release/npm".to_string()));
    assert!(deps.contains(&"@semantic-release/github".to_string()));
}

#[test]
fn resolve_config_plugins_with_options_skipped() {
    // ["@semantic-release/release-notes-generator", { preset: "angular" }] is skipped
    let deps = semantic_release_deps(&[], &["@semantic-release/commit-analyzer", "@semantic-release/npm"]);
    assert!(deps.contains(&"@semantic-release/commit-analyzer".to_string()));
    assert!(deps.contains(&"@semantic-release/npm".to_string()));
}

#[test]
fn resolve_config_imports() {
    let deps = semantic_release_deps(&["semantic-release"], &["@semantic-release/npm"]);
    assert!(deps.contains(&"semantic-release".to_string()));
    assert!(deps.contains(&"@semantic-release/npm".to_string()));
}

#[test]
fn resolve_config_empty() {
    assert!(semantic_release_deps(&[], &[]).is_empty());
}

#[test]
fn resolve_config_no_plugins() {
    // branches: ["main", "next"] is no plugin list
    assert!(semantic_release_deps(&[], &[]).is_empty());
}

#[test]
fn resolve_config_scoped_plugin_name() {
    let deps = semantic_release_deps(&[], &["@semantic-release/git"]);
    assert!(deps.contains(&"@semantic-release/git".to_string()));
}
