use fallow::analysis::{AnalysisConfig, DetectConfig, DetectionList, FrameworkDetection, FrameworkRule};
use fallow::analysis::{check_detection, is_framework_active};
use fallow::discover::{
    dedup_entries, discover_entry_points, discover_workspace_entry_points, glob_matches, number_files, DiscoveredFile,
    EntryPackage, EntryPoint, EntryPointSource, FileId,
};

fn files(paths: &[&str]) -> Vec<DiscoveredFile> {
    paths
        .iter()
        .enumerate()
        .map(|(i, p)| DiscoveredFile { id: FileId(i as u32), path: p.to_string(), size_bytes: 10 })
        .collect()
}

fn config(entry_patterns: &[&str], rules: Vec<FrameworkRule>) -> AnalysisConfig {
    AnalysisConfig {
        root: "/p".to_string(),
        entry_patterns: entry_patterns.iter().map(|s| s.to_string()).collect(),
        detect: DetectConfig {
            unused_files: true,
            unused_exports: true,
            unused_types: true,
            unused_enum_members: true,
            unused_class_members: true,
            unused_dependencies: true,
            unused_dev_dependencies: true,
            unused_optional_dependencies: true,
            unlisted_dependencies: true,
            unresolved_imports: true,
            duplicate_exports: true,
        },
        ignore_export_rules: vec![],
        framework_rules: rules,
        used_class_members: vec![],
    }
}

fn rule(name: &str, detection: Option<FrameworkDetection>, entry_points: &[&str], always_used: &[&str]) -> FrameworkRule {
    FrameworkRule {
        name: name.to_string(),
        detection,
        entry_points: entry_points.iter().map(|s| s.to_string()).collect(),
        always_used: always_used.iter().map(|s| s.to_string()).collect(),
        used_exports: vec![],
    }
}

fn package(candidates: Vec<Vec<(&str, bool)>>, deps: &[&str]) -> EntryPackage {
    EntryPackage {
        entry_candidates: candidates
            .into_iter()
            .map(|c| c.into_iter().map(|(p, e)| (p.to_string(), e)).collect())
            .collect(),
        dependency_names: deps.iter().map(|s| s.to_string()).collect(),
        found_globs: vec![],
    }
}

fn summary(entries: &[EntryPoint]) -> Vec<(String, String)> {
    entries
        .iter()
        .map(|e| {
            let source = match &e.source {
                EntryPointSource::FrameworkRule { name } => format!("rule:{name}"),
                other => format!("{other:?}"),
            };
            (e.path.clone(), source)
        })
        .collect()
}

#[test]
fn glob_matches_relative_to_root() {
    assert!(glob_matches("src/*.ts", "/p/src/a.ts", "/p"));
    assert!(!glob_matches("src/*.ts", "/p/lib/a.ts", "/p"));
    assert!(!glob_matches("src/[", "/p/src/a.ts", "/p"));
}

#[test]
fn manual_package_and_framework_entries_in_path_order() {
    let fs = files(&["/p/src/index.ts", "/p/src/worker.ts", "/p/pages/home.tsx", "/p/next.config.js"]);
    let cfg = config(&["src/worker.ts"], vec![rule(
        "next",
        Some(FrameworkDetection::Dependency { package: "next".to_string() }),
        &["pages/**/*.tsx"],
        &["next.config.js"],
    )]);
    let pkg = package(vec![vec![("/p/src/index", false), ("/p/src/index.ts", true), ("/p/src/index.tsx", true)]], &["next"]);
    let entries = discover_entry_points(&cfg, &fs, &Some(pkg));
    assert_eq!(summary(&entries), vec![
        ("/p/next.config.js".to_string(), "rule:next".to_string()),
        ("/p/pages/home.tsx".to_string(), "rule:next".to_string()),
        ("/p/src/index.ts".to_string(), "PackageJsonMain".to_string()),
        ("/p/src/worker.ts".to_string(), "ManualEntry".to_string()),
    ]);
}

#[test]
fn inactive_framework_contributes_nothing() {
    let fs = files(&["/p/src/index.ts", "/p/pages/home.tsx"]);
    let cfg = config(&[], vec![rule(
        "next",
        Some(FrameworkDetection::Dependency { package: "next".to_string() }),
        &["pages/**/*.tsx"],
        &[],
    )]);
    let entries = discover_entry_points(&cfg, &fs, &Some(package(vec![], &["react"])));
    // nothing else found: the default index file
    assert_eq!(summary(&entries), vec![("/p/src/index.ts".to_string(), "DefaultIndex".to_string())]);
}

#[test]
fn first_source_of_a_file_wins() {
    let fs = files(&["/p/src/index.ts"]);
    let cfg = config(&["src/index.ts"], vec![rule("any", None, &["src/*.ts"], &[])]);
    let entries = discover_entry_points(&cfg, &fs, &Some(package(vec![], &[])));
    assert_eq!(summary(&entries), vec![("/p/src/index.ts".to_string(), "ManualEntry".to_string())]);
}

#[test]
fn without_package_json_no_framework_entries() {
    let fs = files(&["/p/main.js", "/p/pages/a.tsx"]);
    let cfg = config(&[], vec![rule("any", None, &["pages/*.tsx"], &[])]);
    let entries = discover_entry_points(&cfg, &fs, &None);
    assert_eq!(summary(&entries), vec![("/p/main.js".to_string(), "DefaultIndex".to_string())]);
}

#[test]
fn workspace_entry_points_use_workspace_root() {
    let fs = files(&["/p/packages/ui/src/index.ts", "/p/packages/ui/pages/a.tsx", "/p/pages/b.tsx"]);
    let cfg = config(&[], vec![rule("next", None, &["pages/*.tsx"], &["never.ts"])]);
    let pkg = package(vec![vec![("/p/packages/ui/src/index.ts", true)]], &[]);
    let entries = discover_workspace_entry_points("/p/packages/ui", &cfg, &fs, &Some(pkg));
    assert_eq!(summary(&entries), vec![
        ("/p/packages/ui/pages/a.tsx".to_string(), "rule:next".to_string()),
        ("/p/packages/ui/src/index.ts".to_string(), "PackageJsonMain".to_string()),
    ]);
    assert!(discover_workspace_entry_points("/p/packages/ui", &cfg, &fs, &None).is_empty());
}

#[test]
fn detection_combinators() {
    let dep = |p: &str| FrameworkDetection::Dependency { package: p.to_string() };
    let file = |p: &str| FrameworkDetection::FileExists { pattern: p.to_string() };
    let list = |items: Vec<FrameworkDetection>| {
        items.into_iter().rev().fold(DetectionList::Empty, |rest, d| DetectionList::Cons(Box::new(d), Box::new(rest)))
    };
    let deps = vec!["vite".to_string()];
    let found = vec![("vite.config.*".to_string(), true), ("nuxt.config.*".to_string(), false)];
    assert!(check_detection(&FrameworkDetection::All { conditions: list(vec![dep("vite"), file("vite.config.*")]) }, &deps, &found));
    assert!(!check_detection(&FrameworkDetection::All { conditions: list(vec![dep("vite"), file("nuxt.config.*")]) }, &deps, &found));
    assert!(check_detection(&FrameworkDetection::Any { conditions: list(vec![dep("nuxt"), file("vite.config.*")]) }, &deps, &found));
    assert!(!check_detection(&FrameworkDetection::Any { conditions: list(vec![]) }, &deps, &found));
    assert!(check_detection(&FrameworkDetection::All { conditions: list(vec![]) }, &deps, &found));
    assert!(is_framework_active(&rule("always", None, &[], &[]), &deps, &found));
}

#[test]
fn dedup_keeps_first_per_path_sorted_by_components() {
    let e = |p: &str, s: EntryPointSource| EntryPoint { path: p.to_string(), source: s };
    let raw = vec![
        e("/p/a-b.ts", EntryPointSource::TestFile),
        e("/p/a/x.ts", EntryPointSource::ManualEntry),
        e("/p/a-b.ts", EntryPointSource::DefaultIndex),
    ];
    assert_eq!(summary(&dedup_entries(&raw)), vec![
        ("/p/a/x.ts".to_string(), "ManualEntry".to_string()),
        ("/p/a-b.ts".to_string(), "TestFile".to_string()),
    ]);
}

#[test]
fn files_numbered_largest_first() {
    let found = vec![("/p/a.ts".to_string(), 5), ("/p/b.ts".to_string(), 50), ("/p/c.ts".to_string(), 5), ("/p/d.ts".to_string(), 7)];
    let numbered = number_files(found, 10);
    let order: Vec<(&str, u32, u64)> = numbered.iter().map(|f| (f.path.as_str(), f.id.0, f.size_bytes)).collect();
    assert_eq!(order, vec![("/p/b.ts", 10, 50), ("/p/d.ts", 11, 7), ("/p/a.ts", 12, 5), ("/p/c.ts", 13, 5)]);
}
