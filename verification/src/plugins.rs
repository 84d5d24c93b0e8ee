//! Framework and tool plugins: which packages enable them, and which files
//! and packages they mark as used.
use vstd::prelude::*;

use crate::resolve::{extract_package_name, package_name};
use crate::text::{copy_string, push_str, str_chars, str_eq, str_views, string_eq, string_from_range, views};

verus! {

/// Whether one of the enabling packages is among the dependencies.
pub open spec fn enabled_by(enablers: Seq<Seq<char>>, deps: Seq<Seq<char>>) -> bool {
    exists|i: int, j: int| 0 <= i < enablers.len() && 0 <= j < deps.len() && #[trigger] enablers[i] == #[trigger] deps[j]
}

fn any_enabler_listed(enablers: &[&str], deps: &Vec<String>) -> (r: bool)
    ensures
        r == enabled_by(str_views(enablers@), crate::text::views(deps@)),
{
    let mut i: usize = 0;
    while i < enablers.len()
        invariant
            i <= enablers@.len(),
            forall|a: int, b: int| 0 <= a < i && 0 <= b < deps@.len()
                ==> #[trigger] str_views(enablers@)[a] != #[trigger] crate::text::views(deps@)[b],
        decreases enablers.len() - i,
    {
        let e = crate::text::to_owned_string(enablers[i]);
        let mut j: usize = 0;
        while j < deps.len()
            invariant
                j <= deps@.len(),
                i < enablers@.len(),
                e@ == enablers@[i as int]@,
                forall|a: int, b: int| 0 <= a < i && 0 <= b < deps@.len()
                    ==> #[trigger] str_views(enablers@)[a] != #[trigger] crate::text::views(deps@)[b],
                forall|b: int| 0 <= b < j ==> str_views(enablers@)[i as int] != #[trigger] crate::text::views(deps@)[b],
            decreases deps.len() - j,
        {
            if string_eq(&e, &deps[j]) {
                assert(str_views(enablers@)[i as int] == crate::text::views(deps@)[j as int]);
                return true;
            }
            j = j + 1;
        }
        i = i + 1;
    }
    false
}

// ---- what a plugin takes from a tool's configuration --------------------

/// What a plugin found in a tool's configuration file.
#[derive(Debug)]
pub struct PluginResult {
    /// Further entry point patterns.
    pub entry_patterns: Vec<String>,
    /// Packages that the configuration refers to.
    pub referenced_dependencies: Vec<String>,
    /// Setup files, as paths under the project root.
    pub setup_files: Vec<String>,
}

/// The package names of a list of specifiers.
pub open spec fn package_names(specs: Seq<Seq<char>>) -> Seq<Seq<char>> {
    specs.map_values(|s: Seq<char>| package_name(s))
}

/// `s` without any number of leading `./`.
pub open spec fn strip_dot_slash(s: Seq<char>) -> Seq<char>
    decreases s.len(),
{
    if s.len() >= 2 && s[0] == '.' && s[1] == '/' {
        strip_dot_slash(s.skip(2))
    } else {
        s
    }
}

/// A path joined onto a directory: an absolute path stands alone, else a
/// `/` separates the two unless the directory is empty or ends in one.
pub open spec fn join_path(dir: Seq<char>, rel: Seq<char>) -> Seq<char> {
    if rel.len() > 0 && rel[0] == '/' {
        rel
    } else if dir.len() == 0 {
        rel
    } else if dir.last() == '/' {
        dir + rel
    } else {
        dir + seq!['/'] + rel
    }
}

/// The setup file paths that configured file names give under the root.
pub open spec fn setup_paths(root: Seq<char>, files: Seq<Seq<char>>) -> Seq<Seq<char>> {
    files.map_values(|f: Seq<char>| join_path(root, strip_dot_slash(f)))
}

fn push_package_names(out: &mut Vec<String>, specs: &Vec<String>)
    ensures
        views(final(out)@) == views(old(out)@) + package_names(views(specs@)),
{
    let mut i: usize = 0;
    while i < specs.len()
        invariant
            i <= specs@.len(),
            views(out@) == views(old(out)@) + package_names(views(specs@.take(i as int))),
        decreases specs.len() - i,
    {
        let ghost before = views(out@);
        out.push(extract_package_name(specs[i].as_str()));
        assert(views(out@) =~= before.push(package_name(specs@[i as int]@)));
        assert(package_names(views(specs@.take(i + 1))) =~= package_names(views(specs@.take(i as int))).push(package_name(specs@[i as int]@)));
        i = i + 1;
    }
    assert(specs@.take(specs@.len() as int) =~= specs@);
}

fn push_copies(out: &mut Vec<String>, v: &Vec<String>)
    ensures
        views(final(out)@) == views(old(out)@) + views(v@),
{
    let mut i: usize = 0;
    while i < v.len()
        invariant
            i <= v@.len(),
            views(out@) == views(old(out)@) + views(v@.take(i as int)),
        decreases v.len() - i,
    {
        let ghost before = views(out@);
        out.push(copy_string(&v[i]));
        assert(views(out@) =~= before.push(v@[i as int]@));
        assert(views(v@.take(i + 1)) =~= views(v@.take(i as int)).push(v@[i as int]@));
        i = i + 1;
    }
    assert(v@.take(v@.len() as int) =~= v@);
}

fn strip_dot_slash_exec(s: &str) -> (r: String)
    ensures
        r@ == strip_dot_slash(s@),
{
    let v = str_chars(s);
    let mut i: usize = 0;
    assert(v@.skip(0) =~= v@);
    while v.len() - i >= 2 && v[i] == '.' && v[i + 1] == '/'
        invariant
            i <= v@.len(),
            strip_dot_slash(v@.skip(i as int)) == strip_dot_slash(s@),
            v@ == s@,
        decreases v.len() - i,
    {
        assert(v@.skip(i as int).skip(2) =~= v@.skip(i + 2));
        i = i + 2;
    }
    let r = string_from_range(&v, i, v.len());
    assert(v@.subrange(i as int, v@.len() as int) =~= v@.skip(i as int));
    if v.len() - i >= 2 {
        assert(v@.skip(i as int)[0] == v@[i as int]);
        assert(v@.skip(i as int)[1] == v@[i + 1]);
    }
    r
}

pub(crate) fn join_path_exec(dir: &str, rel: &String) -> (r: String)
    ensures
        r@ == join_path(dir@, rel@),
{
    let rv = str_chars(rel.as_str());
    let dv = str_chars(dir);
    if rv.len() > 0 && rv[0] == '/' {
        copy_string(rel)
    } else if dv.len() == 0 {
        copy_string(rel)
    } else {
        let mut out = string_from_range(&dv, 0, dv.len());
        assert(dv@.subrange(0, dv@.len() as int) =~= dv@);
        if dv[dv.len() - 1] != '/' {
            push_str(&mut out, "/");
            proof {
                reveal_strlit("/");
            }
        }
        push_str(&mut out, rel.as_str());
        out
    }
}

fn push_setup_paths(out: &mut Vec<String>, root: &str, files: &Vec<String>)
    ensures
        views(final(out)@) == views(old(out)@) + setup_paths(root@, views(files@)),
{
    let mut i: usize = 0;
    while i < files.len()
        invariant
            i <= files@.len(),
            views(out@) == views(old(out)@) + setup_paths(root@, views(files@.take(i as int))),
        decreases files.len() - i,
    {
        let ghost before = views(out@);
        let stripped = strip_dot_slash_exec(files[i].as_str());
        out.push(join_path_exec(root, &stripped));
        assert(views(out@) =~= before.push(join_path(root@, strip_dot_slash(files@[i as int]@))));
        assert(setup_paths(root@, views(files@.take(i + 1))) =~= setup_paths(root@, views(files@.take(i as int))).push(join_path(root@, strip_dot_slash(files@[i as int]@))));
        i = i + 1;
    }
    assert(files@.take(files@.len() as int) =~= files@);
}

// ---- semantic-release --------------------------------------------------

/// The semantic-release plugin.
pub struct SemanticReleasePlugin;

pub const SEMANTIC_RELEASE_ENABLERS: [&'static str; 1] = ["semantic-release"];
pub const SEMANTIC_RELEASE_CONFIG_PATTERNS: [&'static str; 2] = ["release.config.{js,cjs,mjs}", ".releaserc.{js,cjs}"];
pub const SEMANTIC_RELEASE_ALWAYS_USED: [&'static str; 2] = ["release.config.{js,cjs,mjs}", ".releaserc.{json,yaml,yml,js,cjs}"];
pub const SEMANTIC_RELEASE_TOOLING: [&'static str; 7] = [
    "semantic-release",
    "@semantic-release/commit-analyzer",
    "@semantic-release/release-notes-generator",
    "@semantic-release/changelog",
    "@semantic-release/npm",
    "@semantic-release/github",
    "@semantic-release/git",
];

impl SemanticReleasePlugin {
    pub fn name(&self) -> (r: &'static str)
        ensures
            r@ == "semantic-release"@,
    {
        "semantic-release"
    }

    pub fn enablers(&self) -> (r: &'static [&'static str])
        ensures
            r@ == SEMANTIC_RELEASE_ENABLERS@,
    {
        SEMANTIC_RELEASE_ENABLERS.as_slice()
    }

    pub fn entry_patterns(&self) -> (r: &'static [&'static str])
        ensures
            r@.len() == 0,
    {
        &[]
    }

    pub fn config_patterns(&self) -> (r: &'static [&'static str])
        ensures
            r@ == SEMANTIC_RELEASE_CONFIG_PATTERNS@,
    {
        SEMANTIC_RELEASE_CONFIG_PATTERNS.as_slice()
    }

    pub fn always_used(&self) -> (r: &'static [&'static str])
        ensures
            r@ == SEMANTIC_RELEASE_ALWAYS_USED@,
    {
        SEMANTIC_RELEASE_ALWAYS_USED.as_slice()
    }

    pub fn tooling_dependencies(&self) -> (r: &'static [&'static str])
        ensures
            r@ == SEMANTIC_RELEASE_TOOLING@,
    {
        SEMANTIC_RELEASE_TOOLING.as_slice()
    }

    /// Active when an enabling package is a dependency.
    pub fn is_enabled_with_deps(&self, deps: &Vec<String>) -> (r: bool)
        ensures
            r == enabled_by(str_views(SEMANTIC_RELEASE_ENABLERS@), crate::text::views(deps@)),
    {
        any_enabler_listed(SEMANTIC_RELEASE_ENABLERS.as_slice(), deps)
    }
}

// ---- tsdown ------------------------------------------------------------

/// The tsdown library bundler plugin.
pub struct TsdownPlugin;

pub const TSDOWN_ENABLERS: [&'static str; 1] = ["tsdown"];
pub const TSDOWN_CONFIG_PATTERNS: [&'static str; 1] = ["tsdown.config.{ts,js,cjs,mjs}"];
pub const TSDOWN_ALWAYS_USED: [&'static str; 1] = ["tsdown.config.{ts,js,cjs,mjs}"];
pub const TSDOWN_TOOLING: [&'static str; 1] = ["tsdown"];

impl TsdownPlugin {
    pub fn name(&self) -> (r: &'static str)
        ensures
            r@ == "tsdown"@,
    {
        "tsdown"
    }

    pub fn enablers(&self) -> (r: &'static [&'static str])
        ensures
            r@ == TSDOWN_ENABLERS@,
    {
        TSDOWN_ENABLERS.as_slice()
    }

    pub fn entry_patterns(&self) -> (r: &'static [&'static str])
        ensures
            r@.len() == 0,
    {
        &[]
    }

    pub fn config_patterns(&self) -> (r: &'static [&'static str])
        ensures
            r@ == TSDOWN_CONFIG_PATTERNS@,
    {
        TSDOWN_CONFIG_PATTERNS.as_slice()
    }

    pub fn always_used(&self) -> (r: &'static [&'static str])
        ensures
            r@ == TSDOWN_ALWAYS_USED@,
    {
        TSDOWN_ALWAYS_USED.as_slice()
    }

    pub fn tooling_dependencies(&self) -> (r: &'static [&'static str])
        ensures
            r@ == TSDOWN_TOOLING@,
    {
        TSDOWN_TOOLING.as_slice()
    }

    /// Active when an enabling package is a dependency.
    pub fn is_enabled_with_deps(&self, deps: &Vec<String>) -> (r: bool)
        ensures
            r == enabled_by(str_views(TSDOWN_ENABLERS@), crate::text::views(deps@)),
    {
        any_enabler_listed(TSDOWN_ENABLERS.as_slice(), deps)
    }
}

// ---- vitest ------------------------------------------------------------

/// The Vitest test runner plugin.
pub struct VitestPlugin;

pub const VITEST_ENABLERS: [&'static str; 1] = ["vitest"];
pub const VITEST_ENTRY_PATTERNS: [&'static str; 4] = [
    "**/*.test.{ts,tsx,js,jsx}",
    "**/*.spec.{ts,tsx,js,jsx}",
    "**/__tests__/**/*.{ts,tsx,js,jsx}",
    "**/*.bench.{ts,tsx,js,jsx}",
];
pub const VITEST_CONFIG_PATTERNS: [&'static str; 2] = ["vitest.config.{ts,js,mts,mjs}", "vitest.workspace.{ts,js}"];
pub const VITEST_ALWAYS_USED: [&'static str; 5] = [
    "vitest.config.{ts,js,mts,mjs}",
    "vitest.setup.{ts,js}",
    "vitest.workspace.{ts,js}",
    "**/src/setupTests.{ts,tsx,js,jsx}",
    "**/src/test-setup.{ts,tsx,js,jsx}",
];
pub const VITEST_TOOLING: [&'static str; 5] = [
    "vitest",
    "@vitest/coverage-v8",
    "@vitest/coverage-istanbul",
    "@vitest/ui",
    "@vitest/browser",
];
/// Config files whose presence at the root activates Vitest.
pub const VITEST_CONFIG_FILES: [&'static str; 8] = [
    "vitest.config.ts",
    "vitest.config.js",
    "vitest.config.mts",
    "vitest.config.mjs",
    "vite.config.ts",
    "vite.config.js",
    "vite.config.mts",
    "vite.config.mjs",
];

impl VitestPlugin {
    pub fn name(&self) -> (r: &'static str)
        ensures
            r@ == "vitest"@,
    {
        "vitest"
    }

    pub fn enablers(&self) -> (r: &'static [&'static str])
        ensures
            r@ == VITEST_ENABLERS@,
    {
        VITEST_ENABLERS.as_slice()
    }

    pub fn entry_patterns(&self) -> (r: &'static [&'static str])
        ensures
            r@ == VITEST_ENTRY_PATTERNS@,
    {
        VITEST_ENTRY_PATTERNS.as_slice()
    }

    pub fn config_patterns(&self) -> (r: &'static [&'static str])
        ensures
            r@ == VITEST_CONFIG_PATTERNS@,
    {
        VITEST_CONFIG_PATTERNS.as_slice()
    }

    pub fn always_used(&self) -> (r: &'static [&'static str])
        ensures
            r@ == VITEST_ALWAYS_USED@,
    {
        VITEST_ALWAYS_USED.as_slice()
    }

    pub fn tooling_dependencies(&self) -> (r: &'static [&'static str])
        ensures
            r@ == VITEST_TOOLING@,
    {
        VITEST_TOOLING.as_slice()
    }

    /// The root-relative config files whose presence activates Vitest.
    pub fn config_files(&self) -> (r: &'static [&'static str])
        ensures
            r@ == VITEST_CONFIG_FILES@,
    {
        VITEST_CONFIG_FILES.as_slice()
    }

    /// Active when `vitest` is a dependency, or when one of
    /// [`VitestPlugin::config_files`] exists at the root (`config_file_present`).
    pub fn is_enabled_with_deps(&self, deps: &Vec<String>, config_file_present: bool) -> (r: bool)
        ensures
            r == (enabled_by(str_views(VITEST_ENABLERS@), crate::text::views(deps@)) || config_file_present),
    {
        any_enabler_listed(VITEST_ENABLERS.as_slice(), deps) || config_file_present
    }
}

// ---- content collections -----------------------------------------------

/// The Content Collections plugin.
pub struct ContentCollectionsPlugin;

pub const CONTENT_COLLECTIONS_ENABLERS: [&'static str; 7] = [
    "@content-collections/core",
    "@content-collections/vite",
    "@content-collections/next",
    "@content-collections/solid-start",
    "@content-collections/remix-vite",
    "@content-collections/qwik",
    "@content-collections/vinxi",
];
pub const CONTENT_COLLECTIONS_ENTRY_PATTERNS: [&'static str; 1] = ["content-collections.{ts,tsx,js,jsx,mts,mjs,cts,cjs}"];
pub const CONTENT_COLLECTIONS_TOOLING: [&'static str; 9] = [
    "@content-collections/core",
    "@content-collections/vite",
    "@content-collections/next",
    "@content-collections/solid-start",
    "@content-collections/remix-vite",
    "@content-collections/qwik",
    "@content-collections/vinxi",
    "@content-collections/markdown",
    "@content-collections/mdx",
];

impl ContentCollectionsPlugin {
    pub fn name(&self) -> (r: &'static str)
        ensures
            r@ == "content-collections"@,
    {
        "content-collections"
    }

    pub fn enablers(&self) -> (r: &'static [&'static str])
        ensures
            r@ == CONTENT_COLLECTIONS_ENABLERS@,
    {
        CONTENT_COLLECTIONS_ENABLERS.as_slice()
    }

    pub fn entry_patterns(&self) -> (r: &'static [&'static str])
        ensures
            r@ == CONTENT_COLLECTIONS_ENTRY_PATTERNS@,
    {
        CONTENT_COLLECTIONS_ENTRY_PATTERNS.as_slice()
    }

    pub fn tooling_dependencies(&self) -> (r: &'static [&'static str])
        ensures
            r@ == CONTENT_COLLECTIONS_TOOLING@,
    {
        CONTENT_COLLECTIONS_TOOLING.as_slice()
    }

    /// Active when an enabling package is a dependency.
    pub fn is_enabled_with_deps(&self, deps: &Vec<String>) -> (r: bool)
        ensures
            r == enabled_by(str_views(CONTENT_COLLECTIONS_ENABLERS@), crate::text::views(deps@)),
    {
        any_enabler_listed(CONTENT_COLLECTIONS_ENABLERS.as_slice(), deps)
    }
}

// ---- reading a tool's configuration ---------------------------------------

/// The result of a plugin that found nothing.
fn empty_result() -> (r: PluginResult)
    ensures
        r.entry_patterns@.len() == 0,
        r.referenced_dependencies@.len() == 0,
        r.setup_files@.len() == 0,
{
    PluginResult { entry_patterns: Vec::new(), referenced_dependencies: Vec::new(), setup_files: Vec::new() }
}

impl SemanticReleasePlugin {
    /// What a semantic-release configuration refers to, given the import
    /// sources of the configuration file and the plain strings of its
    /// `plugins` array: the package of each, imports first.
    pub fn resolve_config(&self, imports: &Vec<String>, plugins: &Vec<String>) -> (r: PluginResult)
        ensures
            views(r.referenced_dependencies@) == package_names(views(imports@)) + package_names(views(plugins@)),
            r.entry_patterns@.len() == 0,
            r.setup_files@.len() == 0,
    {
        let mut result = empty_result();
        assert(views(result.referenced_dependencies@) =~= seq![]);
        push_package_names(&mut result.referenced_dependencies, imports);
        push_package_names(&mut result.referenced_dependencies, plugins);
        assert(seq![] + package_names(views(imports@)) =~= package_names(views(imports@)));
        result
    }
}

impl TsdownPlugin {
    /// What a tsdown configuration refers to, given the import sources of
    /// the configuration file and its `entry` strings: the package of each
    /// import, and the entries as entry patterns.
    pub fn resolve_config(&self, imports: &Vec<String>, entries: &Vec<String>) -> (r: PluginResult)
        ensures
            views(r.referenced_dependencies@) == package_names(views(imports@)),
            views(r.entry_patterns@) == views(entries@),
            r.setup_files@.len() == 0,
    {
        let mut result = empty_result();
        assert(views(result.referenced_dependencies@) =~= seq![]);
        assert(views(result.entry_patterns@) =~= seq![]);
        push_package_names(&mut result.referenced_dependencies, imports);
        push_copies(&mut result.entry_patterns, entries);
        assert(seq![] + package_names(views(imports@)) =~= package_names(views(imports@)));
        assert(seq![] + views(entries@) =~= views(entries@));
        result
    }
}

/// What a Vitest configuration file holds, as far as the plugin reads it:
/// each list of the `test` section, and the same list of each entry of
/// `test.projects`.
#[derive(Debug)]
pub struct VitestConfigValues {
    /// The import sources of the configuration file.
    pub imports: Vec<String>,
    pub includes: Vec<String>,
    pub project_include: Vec<String>,
    pub setup_files: Vec<String>,
    pub project_setup_files: Vec<String>,
    pub global_setup: Vec<String>,
    pub project_global_setup: Vec<String>,
    /// `test.environment`, where it is a string.
    pub environment: Option<String>,
}

/// Whether a test environment is one that Vitest ships.
pub open spec fn builtin_environment(env: Seq<char>) -> bool {
    env == "node"@ || env == "jsdom"@ || env == "happy-dom"@
}

/// The packages that a custom test environment refers to.
pub open spec fn environment_packages(env: Option<String>) -> Seq<Seq<char>> {
    match env {
        Some(e) => if builtin_environment(e@) { seq![] } else { seq!["vitest-environment-"@ + e@, e@] },
        None => seq![],
    }
}

impl VitestPlugin {
    /// What a Vitest configuration refers to: the package of each import and
    /// of a custom test environment (`vitest-environment-<name>` and the name
    /// itself), the test file globs as entry patterns, and the setup and
    /// global setup files as paths under the root.
    pub fn resolve_config(&self, values: &VitestConfigValues, root: &str) -> (r: PluginResult)
        ensures
            views(r.referenced_dependencies@) == package_names(views(values.imports@)) + environment_packages(values.environment),
            views(r.entry_patterns@) == views(values.includes@) + views(values.project_include@),
            views(r.setup_files@) == setup_paths(root@, views(values.setup_files@))
                + setup_paths(root@, views(values.project_setup_files@))
                + setup_paths(root@, views(values.global_setup@))
                + setup_paths(root@, views(values.project_global_setup@)),
    {
        let mut result = empty_result();
        assert(views(result.referenced_dependencies@) =~= seq![]);
        assert(views(result.entry_patterns@) =~= seq![]);
        assert(views(result.setup_files@) =~= seq![]);
        push_package_names(&mut result.referenced_dependencies, &values.imports);
        push_copies(&mut result.entry_patterns, &values.includes);
        push_copies(&mut result.entry_patterns, &values.project_include);
        push_setup_paths(&mut result.setup_files, root, &values.setup_files);
        push_setup_paths(&mut result.setup_files, root, &values.project_setup_files);
        push_setup_paths(&mut result.setup_files, root, &values.global_setup);
        push_setup_paths(&mut result.setup_files, root, &values.project_global_setup);
        let ghost deps = views(result.referenced_dependencies@);
        match &values.environment {
            Some(env) => {
                proof {
                    reveal_strlit("node");
                    reveal_strlit("jsdom");
                    reveal_strlit("happy-dom");
                    reveal_strlit("vitest-environment-");
                }
                let builtin = str_eq(env.as_str(), "node") || str_eq(env.as_str(), "jsdom") || str_eq(env.as_str(), "happy-dom");
                if !builtin {
                    let mut named = String::new();
                    push_str(&mut named, "vitest-environment-");
                    push_str(&mut named, env.as_str());
                    assert(named@ =~= "vitest-environment-"@ + env@);
                    result.referenced_dependencies.push(named);
                    result.referenced_dependencies.push(copy_string(env));
                    assert(views(result.referenced_dependencies@) =~= deps + environment_packages(values.environment));
                } else {
                    assert(deps + environment_packages(values.environment) =~= deps);
                }
            },
            None => {
                assert(deps + environment_packages(values.environment) =~= deps);
            },
        }
        assert(seq![] + package_names(views(values.imports@)) =~= package_names(views(values.imports@)));
        assert(seq![] + views(values.includes@) =~= views(values.includes@));
        assert(seq![] + setup_paths(root@, views(values.setup_files@)) =~= setup_paths(root@, views(values.setup_files@)));
        result
    }
}

} // verus!
