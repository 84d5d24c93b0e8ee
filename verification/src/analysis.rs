//! Dead-code findings over the module graph: unreachable files, exports
//! and members nobody uses, imports that could not be resolved, packages
//! imported without being listed, and names exported by several files.
use vstd::prelude::*;

use crate::dependency_usage::{
    find_unused_dependencies, reports_view, unused_reports, DependencyContext, DependencyLocation, Manifest,
    UnusedDependency, WorkspaceManifest,
};
use crate::discover::{DiscoveredFile, EntryPoint, FileId};
use crate::extract::{export_name_text, ExportName, ImportedName, MemberKind};
use crate::graph::{ExportSymbol, ModuleGraph, ModuleNode};
use crate::regex_support::{glob_is_match, glob_match_result};
use crate::resolve::{ResolveResult, ResolvedImport, ResolvedModule};
use crate::text::{copy_string, str_eq, string_eq, views};
use crate::workspace::{relative_path, relative_to};

verus! {

/// A file that no entry point reaches.
#[derive(Debug, Clone)]
pub struct UnusedFile {
    pub path: String,
}

/// An export that no other file imports.
#[derive(Debug, Clone)]
pub struct UnusedExport {
    pub path: String,
    pub export_name: String,
    pub is_type_only: bool,
    /// Byte offset of the export.
    pub line: u32,
    pub col: u32,
}

/// A member of an exported enum or class that nothing accesses.
#[derive(Debug, Clone)]
pub struct UnusedMember {
    pub path: String,
    pub parent_name: String,
    pub member_name: String,
    /// `enum_member`, `class_method` or `class_property`.
    pub kind: String,
    /// 1-based line of the member.
    pub line: u32,
    /// 0-based byte column of the member.
    pub col: u32,
}

/// Exports of files matching `file` (a glob over the path relative to the
/// project root) that are never reported; `*` stands for all of them.
#[derive(Debug, Clone)]
pub struct IgnoreExportRule {
    pub file: String,
    pub exports: Vec<String>,
}

/// Exports that a framework uses in files matching `file_pattern`.
#[derive(Debug, Clone)]
pub struct FrameworkUsedExports {
    pub file_pattern: String,
    pub exports: Vec<String>,
}

/// When a framework counts as present in a project.
#[derive(Debug)]
pub enum FrameworkDetection {
    /// The package.json lists the package in some section.
    Dependency { package: String },
    /// Some file under the root matches the glob.
    FileExists { pattern: String },
    /// Every condition holds.
    All { conditions: DetectionList },
    /// Some condition holds.
    Any { conditions: DetectionList },
}

/// The conditions of a compound detection, in order.
#[derive(Debug)]
pub enum DetectionList {
    Empty,
    Cons(Box<FrameworkDetection>, Box<DetectionList>),
}

/// What a framework's conventions make used.
#[derive(Debug)]
pub struct FrameworkRule {
    pub name: String,
    /// Without a detection the rule always applies.
    pub detection: Option<FrameworkDetection>,
    /// Globs of the files that are entry points.
    pub entry_points: Vec<String>,
    /// Globs of the files that are always used.
    pub always_used: Vec<String>,
    pub used_exports: Vec<FrameworkUsedExports>,
}

/// Whether the detection holds, given the dependency names of the
/// package.json and, for each file glob, whether a file under the root
/// matches it (a glob not listed matches nothing).
pub open spec fn detection_holds(d: FrameworkDetection, deps: Seq<Seq<char>>, found: Seq<(Seq<char>, bool)>) -> bool
    decreases d,
{
    match d {
        FrameworkDetection::Dependency { package } => deps.contains(package@),
        FrameworkDetection::FileExists { pattern } => found.contains((pattern@, true)),
        FrameworkDetection::All { conditions } => all_hold(conditions, deps, found),
        FrameworkDetection::Any { conditions } => any_holds(conditions, deps, found),
    }
}

pub open spec fn all_hold(l: DetectionList, deps: Seq<Seq<char>>, found: Seq<(Seq<char>, bool)>) -> bool
    decreases l,
{
    match l {
        DetectionList::Empty => true,
        DetectionList::Cons(first, rest) => detection_holds(*first, deps, found) && all_hold(*rest, deps, found),
    }
}

pub open spec fn any_holds(l: DetectionList, deps: Seq<Seq<char>>, found: Seq<(Seq<char>, bool)>) -> bool
    decreases l,
{
    match l {
        DetectionList::Empty => false,
        DetectionList::Cons(first, rest) => detection_holds(*first, deps, found) || any_holds(*rest, deps, found),
    }
}

/// Whether a framework rule applies: it has no detection, or it holds.
pub open spec fn rule_active(rule: FrameworkRule, deps: Seq<Seq<char>>, found: Seq<(Seq<char>, bool)>) -> bool {
    match rule.detection {
        None => true,
        Some(d) => detection_holds(d, deps, found),
    }
}

fn glob_found(found: &Vec<(String, bool)>, pattern: &String) -> (r: bool)
    ensures
        r == found@.map_values(|f: (String, bool)| (f.0@, f.1)).contains((pattern@, true)),
{
    let ghost fv = found@.map_values(|f: (String, bool)| (f.0@, f.1));
    let mut k: usize = 0;
    while k < found.len()
        invariant
            k <= found@.len(),
            fv == found@.map_values(|f: (String, bool)| (f.0@, f.1)),
            forall|q: int| 0 <= q < k ==> fv[q] != (pattern@, true),
        decreases found.len() - k,
    {
        if found[k].1 && string_eq(&found[k].0, pattern) {
            assert(fv[k as int] == (pattern@, true));
            return true;
        }
        k = k + 1;
    }
    false
}

/// Check whether a framework's detection holds (see [`detection_holds`]).
pub fn check_detection(d: &FrameworkDetection, deps: &Vec<String>, found: &Vec<(String, bool)>) -> (r: bool)
    ensures
        r == detection_holds(*d, views(deps@), found@.map_values(|f: (String, bool)| (f.0@, f.1))),
    decreases d,
{
    match d {
        FrameworkDetection::Dependency { package } => lists_name(deps, package),
        FrameworkDetection::FileExists { pattern } => glob_found(found, pattern),
        FrameworkDetection::All { conditions } => check_all(conditions, deps, found),
        FrameworkDetection::Any { conditions } => check_any(conditions, deps, found),
    }
}

fn check_all(l: &DetectionList, deps: &Vec<String>, found: &Vec<(String, bool)>) -> (r: bool)
    ensures
        r == all_hold(*l, views(deps@), found@.map_values(|f: (String, bool)| (f.0@, f.1))),
    decreases l,
{
    match l {
        DetectionList::Empty => true,
        DetectionList::Cons(first, rest) => check_detection(first, deps, found) && check_all(rest, deps, found),
    }
}

fn check_any(l: &DetectionList, deps: &Vec<String>, found: &Vec<(String, bool)>) -> (r: bool)
    ensures
        r == any_holds(*l, views(deps@), found@.map_values(|f: (String, bool)| (f.0@, f.1))),
    decreases l,
{
    match l {
        DetectionList::Empty => false,
        DetectionList::Cons(first, rest) => check_detection(first, deps, found) || check_any(rest, deps, found),
    }
}

/// Check if a framework rule applies.
pub fn is_framework_active(rule: &FrameworkRule, deps: &Vec<String>, found: &Vec<(String, bool)>) -> (r: bool)
    ensures
        r == rule_active(*rule, views(deps@), found@.map_values(|f: (String, bool)| (f.0@, f.1))),
{
    match &rule.detection {
        None => true,
        Some(d) => check_detection(d, deps, found),
    }
}

/// Which kinds of findings to look for.
#[derive(Debug, Clone, Copy)]
pub struct DetectConfig {
    pub unused_files: bool,
    pub unused_exports: bool,
    pub unused_types: bool,
    pub unused_enum_members: bool,
    pub unused_class_members: bool,
    pub unused_dependencies: bool,
    pub unused_dev_dependencies: bool,
    pub unused_optional_dependencies: bool,
    pub unlisted_dependencies: bool,
    pub unresolved_imports: bool,
    pub duplicate_exports: bool,
}

/// What the analyses read of the project configuration.
#[derive(Debug)]
pub struct AnalysisConfig {
    /// Absolute project root, without a trailing `/`.
    pub root: String,
    /// Globs of the files the configuration names as entry points.
    pub entry_patterns: Vec<String>,
    pub detect: DetectConfig,
    pub ignore_export_rules: Vec<IgnoreExportRule>,
    pub framework_rules: Vec<FrameworkRule>,
    /// Class member names that frameworks call by reflection and that are
    /// never reported unused (ag-Grid's `agInit`, `connectedCallback`).
    pub used_class_members: Vec<String>,
}

// ---- unused files --------------------------------------------------------

/// The paths of the modules that are neither reachable nor entry points.
pub open spec fn unused_file_paths(ms: Seq<ModuleNode>) -> Seq<Seq<char>>
    decreases ms.len(),
{
    if ms.len() == 0 {
        seq![]
    } else {
        let prev = unused_file_paths(ms.drop_last());
        let m = ms.last();
        if !m.is_reachable && !m.is_entry_point { prev.push(m.path@) } else { prev }
    }
}

pub open spec fn file_paths(v: Seq<UnusedFile>) -> Seq<Seq<char>> {
    v.map_values(|u: UnusedFile| u.path@)
}

/// Find files that are not reachable from any entry point.
pub fn find_unused_files(graph: &ModuleGraph) -> (r: Vec<UnusedFile>)
    ensures
        file_paths(r@) == unused_file_paths(graph.modules@),
{
    let ms = &graph.modules;
    let mut r: Vec<UnusedFile> = Vec::new();
    let mut i: usize = 0;
    while i < ms.len()
        invariant
            i <= ms@.len(),
            file_paths(r@) == unused_file_paths(ms@.take(i as int)),
        decreases ms.len() - i,
    {
        assert(ms@.take(i + 1).drop_last() =~= ms@.take(i as int));
        let m = &ms[i];
        if !m.is_reachable && !m.is_entry_point {
            let ghost before = r@;
            r.push(UnusedFile { path: copy_string(&m.path) });
            assert(file_paths(r@) =~= file_paths(before).push(m.path@));
        }
        i = i + 1;
    }
    assert(ms@.take(ms@.len() as int) =~= ms@);
    r
}

// ---- export rules ------------------------------------------------------

/// Whether the list names the export, or holds `*`.
pub open spec fn names_export(exports: Seq<Seq<char>>, name: Seq<char>) -> bool {
    exists|k: int| 0 <= k < exports.len() && (exports[k] == "*"@ || exports[k] == name)
}

/// Whether some rule whose glob matches the file names the export.
pub open spec fn ignored_by_rules(rules: Seq<IgnoreExportRule>, file: Seq<char>, name: Seq<char>) -> bool {
    exists|i: int|
        0 <= i < rules.len() && #[trigger] glob_match_result(rules[i].file@, file) == Some(true)
            && names_export(views(rules[i].exports@), name)
}

/// Whether some framework rule whose glob matches the file lists the export.
pub open spec fn framework_uses(rules: Seq<FrameworkRule>, file: Seq<char>, name: Seq<char>) -> bool {
    exists|i: int, j: int|
        0 <= i < rules.len() && 0 <= j < rules[i].used_exports@.len()
            && #[trigger] glob_match_result(rules[i].used_exports@[j].file_pattern@, file) == Some(true)
            && views(rules[i].used_exports@[j].exports@).contains(name)
}

fn names_export_exec(exports: &Vec<String>, name: &String) -> (r: bool)
    ensures
        r == names_export(views(exports@), name@),
{
    proof { reveal_strlit("*"); }
    let mut k: usize = 0;
    while k < exports.len()
        invariant
            k <= exports@.len(),
            forall|q: int| 0 <= q < k ==> !(views(exports@)[q] == "*"@ || views(exports@)[q] == name@),
        decreases exports.len() - k,
    {
        if str_eq(exports[k].as_str(), "*") || string_eq(&exports[k], name) {
            assert(views(exports@)[k as int] == exports@[k as int]@);
            return true;
        }
        k = k + 1;
    }
    false
}

fn lists_name(exports: &Vec<String>, name: &String) -> (r: bool)
    ensures
        r == views(exports@).contains(name@),
{
    let mut k: usize = 0;
    while k < exports.len()
        invariant
            k <= exports@.len(),
            forall|q: int| 0 <= q < k ==> views(exports@)[q] != name@,
        decreases exports.len() - k,
    {
        if string_eq(&exports[k], name) {
            assert(views(exports@)[k as int] == name@);
            return true;
        }
        k = k + 1;
    }
    false
}

/// Check if an export should be ignored based on config rules.
pub fn is_export_ignored(config: &AnalysisConfig, file_path: &str, export_name: &ExportName) -> (r: bool)
    ensures
        r == ignored_by_rules(config.ignore_export_rules@, file_path@, export_name_text(*export_name)),
{
    let export_str = export_name.to_text();
    let rules = &config.ignore_export_rules;
    let mut i: usize = 0;
    while i < rules.len()
        invariant
            i <= rules@.len(),
            rules == &config.ignore_export_rules,
            export_str@ == export_name_text(*export_name),
            forall|q: int|
                0 <= q < i ==> !(#[trigger] glob_match_result(rules@[q].file@, file_path@) == Some(true)
                    && names_export(views(rules@[q].exports@), export_str@)),
        decreases rules.len() - i,
    {
        let file_matches = glob_is_match(rules[i].file.as_str(), file_path) == Some(true);
        if file_matches && names_export_exec(&rules[i].exports, &export_str) {
            assert(glob_match_result(rules@[i as int].file@, file_path@) == Some(true));
            return true;
        }
        i = i + 1;
    }
    false
}

/// Check if a framework rule marks this export as always-used.
pub fn is_framework_used_export(config: &AnalysisConfig, file_path: &str, export_name: &ExportName) -> (r: bool)
    ensures
        r == framework_uses(config.framework_rules@, file_path@, export_name_text(*export_name)),
{
    let export_str = export_name.to_text();
    let rules = &config.framework_rules;
    let mut i: usize = 0;
    while i < rules.len()
        invariant
            i <= rules@.len(),
            rules == &config.framework_rules,
            export_str@ == export_name_text(*export_name),
            forall|q: int, j: int|
                0 <= q < i && 0 <= j < rules@[q].used_exports@.len() ==> !(#[trigger] glob_match_result(
                    rules@[q].used_exports@[j].file_pattern@,
                    file_path@,
                ) == Some(true) && views(rules@[q].used_exports@[j].exports@).contains(export_str@)),
        decreases rules.len() - i,
    {
        let used = &rules[i].used_exports;
        let mut j: usize = 0;
        while j < used.len()
            invariant
                j <= used@.len(),
                i < rules@.len(),
                rules == &config.framework_rules,
                export_str@ == export_name_text(*export_name),
                used@ == rules@[i as int].used_exports@,
                forall|q: int|
                    0 <= q < j ==> !(#[trigger] glob_match_result(used@[q].file_pattern@, file_path@) == Some(true)
                        && views(used@[q].exports@).contains(export_str@)),
            decreases used.len() - j,
        {
            let file_matches = glob_is_match(used[j].file_pattern.as_str(), file_path) == Some(true);
            if file_matches && lists_name(&used[j].exports, &export_str) {
                assert(glob_match_result(rules@[i as int].used_exports@[j as int].file_pattern@, file_path@) == Some(true));
                return true;
            }
            j = j + 1;
        }
        i = i + 1;
    }
    false
}

// ---- unused exports ----------------------------------------------------

/// Whether any importer takes the whole namespace of the file.
pub open spec fn ns_imported(g: ModuleGraph, id: FileId) -> bool {
    (id.0 as int) < g.namespace_len() && g.namespace_set().contains(id.0 as usize)
}

/// Whether a module's exports are examined: it is reachable, no entry
/// point, not a CommonJS module without named exports, and nobody imports
/// its whole namespace.
pub open spec fn exports_examined(g: ModuleGraph, m: ModuleNode) -> bool {
    &&& m.is_reachable
    &&& !m.is_entry_point
    &&& !(m.has_cjs_exports && m.exports@.len() == 0)
    &&& !ns_imported(g, m.file_id)
}

/// A report as (file, export, type-only, offset, column).
pub open spec fn export_view(u: UnusedExport) -> (Seq<char>, Seq<char>, bool, u32, u32) {
    (u.path@, u.export_name@, u.is_type_only, u.line, u.col)
}

pub open spec fn export_views(v: Seq<UnusedExport>) -> Seq<(Seq<char>, Seq<char>, bool, u32, u32)> {
    v.map_values(|u: UnusedExport| export_view(u))
}

/// Whether an export of the file at `rel` (relative to the root) is
/// reported: nothing references it and no rule keeps it.
pub open spec fn export_reported(config: AnalysisConfig, rel: Seq<char>, e: ExportSymbol) -> bool {
    &&& e.references@.len() == 0
    &&& !ignored_by_rules(config.ignore_export_rules@, rel, export_name_text(e.name))
    &&& !framework_uses(config.framework_rules@, rel, export_name_text(e.name))
}

/// The reports for the exports of one module whose type-only flag is
/// `type_only`, in order.
pub open spec fn module_export_reports(
    config: AnalysisConfig,
    path: Seq<char>,
    es: Seq<ExportSymbol>,
    type_only: bool,
) -> Seq<(Seq<char>, Seq<char>, bool, u32, u32)>
    decreases es.len(),
{
    if es.len() == 0 {
        seq![]
    } else {
        let prev = module_export_reports(config, path, es.drop_last(), type_only);
        let e = es.last();
        if export_reported(config, relative_to(path, config.root@), e) && e.is_type_only == type_only {
            prev.push((path, export_name_text(e.name), type_only, e.span.start, 0u32))
        } else {
            prev
        }
    }
}

/// The unused-export reports of the examined modules, module by module.
pub open spec fn unused_export_reports(
    g: ModuleGraph,
    config: AnalysisConfig,
    ms: Seq<ModuleNode>,
    type_only: bool,
) -> Seq<(Seq<char>, Seq<char>, bool, u32, u32)>
    decreases ms.len(),
{
    if ms.len() == 0 {
        seq![]
    } else {
        let prev = unused_export_reports(g, config, ms.drop_last(), type_only);
        let m = ms.last();
        if exports_examined(g, m) {
            prev + module_export_reports(config, m.path@, m.exports@, type_only)
        } else {
            prev
        }
    }
}

proof fn lemma_module_export_reports_path(config: AnalysisConfig, path: Seq<char>, es: Seq<ExportSymbol>, type_only: bool)
    ensures
        forall|k: int|
            0 <= k < module_export_reports(config, path, es, type_only).len() ==> (#[trigger] module_export_reports(
                config,
                path,
                es,
                type_only,
            )[k]).0 == path,
    decreases es.len(),
{
    if es.len() > 0 {
        lemma_module_export_reports_path(config, path, es.drop_last(), type_only);
        let prev = module_export_reports(config, path, es.drop_last(), type_only);
        let all = module_export_reports(config, path, es, type_only);
        assert forall|k: int| 0 <= k < all.len() implies (#[trigger] all[k]).0 == path by {
            if k < prev.len() {
                assert(all[k] == prev[k]);
            }
        }
    }
}

/// Whether `path` is the path of a module of `ms` that is reachable and no
/// entry point.
pub open spec fn in_examined_module(ms: Seq<ModuleNode>, path: Seq<char>) -> bool {
    exists|i: int| 0 <= i < ms.len() && (#[trigger] ms[i]).path@ == path && ms[i].is_reachable && !ms[i].is_entry_point
}

proof fn lemma_in_examined_module_grows(ms: Seq<ModuleNode>, path: Seq<char>)
    requires
        ms.len() > 0,
        in_examined_module(ms.drop_last(), path),
    ensures
        in_examined_module(ms, path),
{
    let d = ms.drop_last();
    let i = choose|i: int| 0 <= i < d.len() && (#[trigger] d[i]).path@ == path && d[i].is_reachable && !d[i].is_entry_point;
    assert(ms[i] == d[i]);
}

/// Every unused-export report lies in a module that is reachable and no
/// entry point: the exports of entry points are consumed from outside.
pub proof fn lemma_unused_exports_in_examined_modules(g: ModuleGraph, config: AnalysisConfig, ms: Seq<ModuleNode>, type_only: bool)
    ensures
        forall|k: int|
            0 <= k < unused_export_reports(g, config, ms, type_only).len() ==> in_examined_module(
                ms,
                (#[trigger] unused_export_reports(g, config, ms, type_only)[k]).0,
            ),
    decreases ms.len(),
{
    if ms.len() > 0 {
        let d = ms.drop_last();
        let m = ms.last();
        lemma_unused_exports_in_examined_modules(g, config, d, type_only);
        let prev = unused_export_reports(g, config, d, type_only);
        let all = unused_export_reports(g, config, ms, type_only);
        let here = module_export_reports(config, m.path@, m.exports@, type_only);
        lemma_module_export_reports_path(config, m.path@, m.exports@, type_only);
        if exports_examined(g, m) {
            assert(all == prev + here);
        } else {
            assert(all == prev);
        }
        assert forall|k: int| 0 <= k < all.len() implies in_examined_module(ms, (#[trigger] all[k]).0) by {
            if k < prev.len() {
                assert(all[k] == prev[k]);
                lemma_in_examined_module_grows(ms, prev[k].0);
            } else {
                assert(all[k] == here[k - prev.len()]);
                assert(ms[ms.len() - 1] == m);
            }
        }
    }
}

/// Adding an entry-point module to the modules changes no unused-export
/// report.
pub proof fn lemma_entry_point_adds_no_unused_export(
    g: ModuleGraph,
    config: AnalysisConfig,
    ms: Seq<ModuleNode>,
    m: ModuleNode,
    type_only: bool,
)
    requires
        m.is_entry_point,
    ensures
        unused_export_reports(g, config, ms.push(m), type_only) == unused_export_reports(g, config, ms, type_only),
{
    assert(ms.push(m).drop_last() =~= ms);
    assert(ms.push(m).last() == m);
}

/// Find exports that are never imported by other files: the value exports,
/// then the type-only ones.
pub fn find_unused_exports(graph: &ModuleGraph, config: &AnalysisConfig) -> (r: (Vec<UnusedExport>, Vec<UnusedExport>))
    ensures
        export_views(r.0@) == unused_export_reports(*graph, *config, graph.modules@, false),
        export_views(r.1@) == unused_export_reports(*graph, *config, graph.modules@, true),
{
    let ms = &graph.modules;
    let mut unused_exports: Vec<UnusedExport> = Vec::new();
    let mut unused_types: Vec<UnusedExport> = Vec::new();
    let mut i: usize = 0;
    while i < ms.len()
        invariant
            i <= ms@.len(),
            *ms == graph.modules,
            export_views(unused_exports@) == unused_export_reports(*graph, *config, ms@.take(i as int), false),
            export_views(unused_types@) == unused_export_reports(*graph, *config, ms@.take(i as int), true),
        decreases ms.len() - i,
    {
        assert(ms@.take(i + 1).drop_last() =~= ms@.take(i as int));
        let module = &ms[i];
        let examined = module.is_reachable && !module.is_entry_point && !(module.has_cjs_exports
            && module.exports.len() == 0) && !graph.has_namespace_import(module.file_id);
        if examined {
            let relative = relative_path(module.path.as_str(), config.root.as_str());
            let es = &module.exports;
            let ghost base0 = export_views(unused_exports@);
            let ghost base1 = export_views(unused_types@);
            let mut k: usize = 0;
            assert(module_export_reports(*config, module.path@, es@.take(0), false) =~= seq![]);
            assert(module_export_reports(*config, module.path@, es@.take(0), true) =~= seq![]);
            while k < es.len()
                invariant
                    k <= es@.len(),
                    relative@ == relative_to(module.path@, config.root@),
                    export_views(unused_exports@) == base0 + module_export_reports(*config, module.path@, es@.take(k as int), false),
                    export_views(unused_types@) == base1 + module_export_reports(*config, module.path@, es@.take(k as int), true),
                decreases es.len() - k,
            {
                assert(es@.take(k + 1).drop_last() =~= es@.take(k as int));
                let export = &es[k];
                if export.references.len() == 0 && !is_export_ignored(config, relative.as_str(), &export.name)
                    && !is_framework_used_export(config, relative.as_str(), &export.name) {
                    let unused = UnusedExport {
                        path: copy_string(&module.path),
                        export_name: export.name.to_text(),
                        is_type_only: export.is_type_only,
                        line: export.span.start,
                        col: 0,
                    };
                    if export.is_type_only {
                        let ghost before = unused_types@;
                        unused_types.push(unused);
                        assert(export_views(unused_types@) =~= export_views(before).push(export_view(unused)));
                    } else {
                        let ghost before = unused_exports@;
                        unused_exports.push(unused);
                        assert(export_views(unused_exports@) =~= export_views(before).push(export_view(unused)));
                    }
                }
                k = k + 1;
            }
            assert(es@.take(es@.len() as int) =~= es@);
        }
        i = i + 1;
    }
    assert(ms@.take(ms@.len() as int) =~= ms@);
    (unused_exports, unused_types)
}

// ---- unused members ----------------------------------------------------

/// The export name that `local` stands for in a file: the imported name of
/// the last named or default import bound to `local`, else `local` itself.
pub open spec fn imported_name_of(imports: Seq<ResolvedImport>, local: Seq<char>) -> Seq<char>
    decreases imports.len(),
{
    if imports.len() == 0 {
        local
    } else {
        let imp = imports.last();
        if imp.info.local_name@ == local {
            match imp.info.imported_name {
                ImportedName::Named(n) => n@,
                ImportedName::Default => "default"@,
                _ => imported_name_of(imports.drop_last(), local),
            }
        } else {
            imported_name_of(imports.drop_last(), local)
        }
    }
}

/// The (export, member) pairs that a file accesses, in order.
pub open spec fn module_access_pairs(m: ResolvedModule) -> Seq<(Seq<char>, Seq<char>)> {
    m.member_accesses@.map_values(
        |a: crate::extract::MemberAccess| (imported_name_of(m.resolved_imports@, a.object@), a.member@),
    )
}

/// The (export, member) pairs accessed anywhere, file by file.
pub open spec fn access_pairs(rms: Seq<ResolvedModule>) -> Seq<(Seq<char>, Seq<char>)>
    decreases rms.len(),
{
    if rms.len() == 0 {
        seq![]
    } else {
        access_pairs(rms.drop_last()) + module_access_pairs(rms.last())
    }
}

/// The kind of a member as reported.
pub open spec fn member_kind_text(k: MemberKind) -> Seq<char> {
    match k {
        MemberKind::EnumMember => "enum_member"@,
        MemberKind::ClassMethod => "class_method"@,
        MemberKind::ClassProperty => "class_property"@,
    }
}

/// A report as (file, parent export, member, kind, offset, column).
pub open spec fn member_view(u: UnusedMember) -> (Seq<char>, Seq<char>, Seq<char>, Seq<char>, u32, u32) {
    (u.path@, u.parent_name@, u.member_name@, u.kind@, u.line, u.col)
}

pub open spec fn member_views(v: Seq<UnusedMember>) -> Seq<(Seq<char>, Seq<char>, Seq<char>, Seq<char>, u32, u32)> {
    v.map_values(|u: UnusedMember| member_view(u))
}

/// Whether access `j` of file `m` reads `name` on `this` inside file `file`.
pub open spec fn reads_on_this(m: ResolvedModule, j: int, file: FileId, name: Seq<char>) -> bool {
    &&& 0 <= j < m.member_accesses@.len()
    &&& m.file_id == file
    &&& m.member_accesses@[j].object@ == "this"@
    &&& m.member_accesses@[j].member@ == name
}

/// Whether file `file` reads `name` as `this.name`: the class uses the
/// member itself.
pub open spec fn self_accessed(rms: Seq<ResolvedModule>, file: FileId, name: Seq<char>) -> bool {
    exists|i: int, j: int| 0 <= i < rms.len() && #[trigger] reads_on_this(rms[i], j, file, name)
}

/// Whether whole-object use `j` of file `m` names the export `export`,
/// through the local name an import gave it.
pub open spec fn whole_use_at(m: ResolvedModule, j: int, export: Seq<char>) -> bool {
    &&& 0 <= j < m.whole_object_uses@.len()
    &&& imported_name_of(m.resolved_imports@, m.whole_object_uses@[j]@) == export
}

/// Whether some file uses export `export` as a whole object
/// (`Object.values(x)`, `for (k in x)`), which uses every member.
pub open spec fn used_as_whole(rms: Seq<ResolvedModule>, export: Seq<char>) -> bool {
    exists|i: int, j: int| 0 <= i < rms.len() && #[trigger] whole_use_at(rms[i], j, export)
}

/// React class-component lifecycle methods, which React calls.
pub open spec fn react_lifecycle(name: Seq<char>) -> bool {
    ||| name == "render"@
    ||| name == "componentDidMount"@
    ||| name == "componentDidUpdate"@
    ||| name == "componentWillUnmount"@
    ||| name == "shouldComponentUpdate"@
    ||| name == "getSnapshotBeforeUpdate"@
    ||| name == "componentDidCatch"@
    ||| name == "getDerivedStateFromProps"@
    ||| name == "getDerivedStateFromError"@
    ||| name == "componentWillMount"@
    ||| name == "componentWillReceiveProps"@
    ||| name == "componentWillUpdate"@
    ||| name == "UNSAFE_componentWillMount"@
    ||| name == "UNSAFE_componentWillReceiveProps"@
    ||| name == "UNSAFE_componentWillUpdate"@
}

/// Angular lifecycle hooks, which Angular calls.
pub open spec fn angular_lifecycle(name: Seq<char>) -> bool {
    ||| name == "ngOnChanges"@
    ||| name == "ngOnInit"@
    ||| name == "ngDoCheck"@
    ||| name == "ngAfterContentInit"@
    ||| name == "ngAfterContentChecked"@
    ||| name == "ngAfterViewInit"@
    ||| name == "ngAfterViewChecked"@
    ||| name == "ngOnDestroy"@
}

/// Whether `name` is a React class-component lifecycle method.
pub fn is_react_lifecycle_method(name: &str) -> (r: bool)
    ensures
        r == react_lifecycle(name@),
{
    str_eq(name, "render") || str_eq(name, "componentDidMount") || str_eq(name, "componentDidUpdate")
        || str_eq(name, "componentWillUnmount") || str_eq(name, "shouldComponentUpdate")
        || str_eq(name, "getSnapshotBeforeUpdate") || str_eq(name, "componentDidCatch")
        || str_eq(name, "getDerivedStateFromProps") || str_eq(name, "getDerivedStateFromError")
        || str_eq(name, "componentWillMount") || str_eq(name, "componentWillReceiveProps")
        || str_eq(name, "componentWillUpdate") || str_eq(name, "UNSAFE_componentWillMount")
        || str_eq(name, "UNSAFE_componentWillReceiveProps") || str_eq(name, "UNSAFE_componentWillUpdate")
}

/// Whether `name` is an Angular lifecycle hook.
pub fn is_angular_lifecycle_method(name: &str) -> (r: bool)
    ensures
        r == angular_lifecycle(name@),
{
    str_eq(name, "ngOnChanges") || str_eq(name, "ngOnInit") || str_eq(name, "ngDoCheck")
        || str_eq(name, "ngAfterContentInit") || str_eq(name, "ngAfterContentChecked")
        || str_eq(name, "ngAfterViewInit") || str_eq(name, "ngAfterViewChecked") || str_eq(name, "ngOnDestroy")
}

/// Class members that a framework calls by name: the lifecycle methods and
/// the names the configuration allows.
pub open spec fn framework_called(allowed: Seq<Seq<char>>, name: Seq<char>) -> bool {
    react_lifecycle(name) || angular_lifecycle(name) || allowed.contains(name)
}

/// The kind of suppression that applies to a member.
pub open spec fn member_issue_kind(k: MemberKind) -> IssueKind {
    match k {
        MemberKind::EnumMember => IssueKind::UnusedEnumMember,
        _ => IssueKind::UnusedClassMember,
    }
}

/// The class that local name `local` names as a superclass in a file: the
/// imported name and target of the last named or default import of a file
/// of the project bound to it, else a class of that name in the file itself.
pub open spec fn superclass_of(imports: Seq<ResolvedImport>, local: Seq<char>, file: FileId) -> (Seq<char>, FileId)
    decreases imports.len(),
{
    if imports.len() == 0 {
        (local, file)
    } else {
        let imp = imports.last();
        match (imp.info.imported_name, imp.target) {
            (ImportedName::Named(n), ResolveResult::InternalModule(t)) if imp.info.local_name@ == local => (n@, t),
            (ImportedName::Default, ResolveResult::InternalModule(t)) if imp.info.local_name@ == local => ("default"@, t),
            _ => superclass_of(imports.drop_last(), local, file),
        }
    }
}

/// The file of the last module, in graph order, that exports `name`.
pub open spec fn exporting_file(ms: Seq<ModuleNode>, name: Seq<char>) -> Option<FileId>
    decreases ms.len(),
{
    if ms.len() == 0 {
        None
    } else if exists|j: int| 0 <= j < ms.last().exports@.len() && export_name_text(#[trigger] ms.last().exports@[j].name) == name {
        Some(ms.last().file_id)
    } else {
        exporting_file(ms.drop_last(), name)
    }
}

/// Whether export `j` of file `i` is a class extending another, and the
/// superclass with the file that declares it, and the class.
pub open spec fn extension_at(rms: Seq<ResolvedModule>, i: int, j: int) -> Option<((Seq<char>, FileId), Seq<char>)> {
    if 0 <= i < rms.len() && 0 <= j < rms[i].exports@.len() {
        match rms[i].exports@[j].super_class {
            Some(sl) => Some((
                superclass_of(rms[i].resolved_imports@, sl@, rms[i].file_id),
                export_name_text(rms[i].exports@[j].name),
            )),
            None => None,
        }
    } else {
        None
    }
}

/// Whether extension `j` of file `i` credits `parent.x` with an access: a
/// subclass is credited with what its superclass is accessed by, and a
/// superclass with what its subclasses are accessed by.
pub open spec fn credited_via(rms: Seq<ResolvedModule>, i: int, j: int, parent: Seq<char>, x: Seq<char>) -> bool {
    match extension_at(rms, i, j) {
        Some((sup, child)) => (parent == child && access_pairs(rms).contains((sup.0, x))) || (parent == sup.0
            && access_pairs(rms).contains((child, x))),
        None => false,
    }
}

/// Whether `parent.x` counts as accessed: directly, or through a class
/// that extends `parent` or that `parent` extends.
pub open spec fn member_accessed(rms: Seq<ResolvedModule>, parent: Seq<char>, x: Seq<char>) -> bool {
    ||| access_pairs(rms).contains((parent, x))
    ||| exists|i: int, j: int| #[trigger] credited_via(rms, i, j, parent, x)
}

/// Whether extension `j` of file `i` makes `this.x` count in file `file`:
/// the superclass's file reads `this.x` and `file` is where the subclass is
/// exported.
pub open spec fn self_credited_via(rms: Seq<ResolvedModule>, ms: Seq<ModuleNode>, i: int, j: int, file: FileId, x: Seq<char>) -> bool {
    match extension_at(rms, i, j) {
        Some((sup, child)) => exporting_file(ms, child) == Some(file) && self_accessed(rms, sup.1, x),
        None => false,
    }
}

/// Whether `this.x` counts as read in file `file`: in the file itself, or
/// in the file of a superclass of a class exported there.
pub open spec fn self_used(rms: Seq<ResolvedModule>, ms: Seq<ModuleNode>, file: FileId, x: Seq<char>) -> bool {
    ||| self_accessed(rms, file, x)
    ||| exists|i: int, j: int| #[trigger] self_credited_via(rms, ms, i, j, file, x)
}

/// Whether member `mb` of export `parent`, declared in file `file`, is
/// reported: nobody accesses it as `parent.member`; a class member is not
/// read on `this` in its file nor called by a framework; it carries no
/// decorator; and no inline comment suppresses it on its line.
pub open spec fn member_unused(
    rms: Seq<ResolvedModule>,
    ms: Seq<ModuleNode>,
    allowed: Seq<Seq<char>>,
    supps: Seq<(FileId, Vec<Suppression>)>,
    offsets: Seq<(FileId, Vec<u32>)>,
    file: FileId,
    parent: Seq<char>,
    mb: crate::extract::MemberInfo,
) -> bool {
    &&& !member_accessed(rms, parent, mb.name@)
    &&& mb.kind != MemberKind::EnumMember ==> !self_used(rms, ms, file, mb.name@)
    &&& !mb.has_decorator
    &&& mb.kind != MemberKind::EnumMember ==> !framework_called(allowed, mb.name@)
    &&& !suppressed_spec(supps_of(supps, file), position_of(offsets, file, mb.span.start).0, member_issue_kind(mb.kind))
}

/// The reports for the unused members of one export: enum members when
/// `enums`, class members otherwise, at the line and column of the member.
pub open spec fn export_member_reports(
    rms: Seq<ResolvedModule>,
    ms: Seq<ModuleNode>,
    allowed: Seq<Seq<char>>,
    supps: Seq<(FileId, Vec<Suppression>)>,
    offsets: Seq<(FileId, Vec<u32>)>,
    file: FileId,
    path: Seq<char>,
    parent: Seq<char>,
    members: Seq<crate::extract::MemberInfo>,
    enums: bool,
) -> Seq<(Seq<char>, Seq<char>, Seq<char>, Seq<char>, u32, u32)>
    decreases members.len(),
{
    if members.len() == 0 {
        seq![]
    } else {
        let prev = export_member_reports(rms, ms, allowed, supps, offsets, file, path, parent, members.drop_last(), enums);
        let mb = members.last();
        if member_unused(rms, ms, allowed, supps, offsets, file, parent, mb) && (mb.kind == MemberKind::EnumMember) == enums {
            let pos = position_of(offsets, file, mb.span.start);
            prev.push((path, parent, mb.name@, member_kind_text(mb.kind), pos.0, pos.1))
        } else {
            prev
        }
    }
}

/// Whether the members of an export are examined: it has members, and it
/// is referenced or its file's namespace is imported.
pub open spec fn members_examined(g: ModuleGraph, m: ModuleNode, e: ExportSymbol) -> bool {
    e.members@.len() > 0 && !(e.references@.len() == 0 && !ns_imported(g, m.file_id))
}

pub open spec fn module_member_reports(
    g: ModuleGraph,
    rms: Seq<ResolvedModule>,
    allowed: Seq<Seq<char>>,
    supps: Seq<(FileId, Vec<Suppression>)>,
    offsets: Seq<(FileId, Vec<u32>)>,
    m: ModuleNode,
    es: Seq<ExportSymbol>,
    enums: bool,
) -> Seq<(Seq<char>, Seq<char>, Seq<char>, Seq<char>, u32, u32)>
    decreases es.len(),
{
    if es.len() == 0 {
        seq![]
    } else {
        let prev = module_member_reports(g, rms, allowed, supps, offsets, m, es.drop_last(), enums);
        let e = es.last();
        if members_examined(g, m, e) && !used_as_whole(rms, export_name_text(e.name)) {
            prev + export_member_reports(
                rms,
                g.modules@,
                allowed,
                supps,
                offsets,
                m.file_id,
                m.path@,
                export_name_text(e.name),
                e.members@,
                enums,
            )
        } else {
            prev
        }
    }
}

/// The unused-member reports of the reachable modules that are no entry
/// points, module by module.
pub open spec fn unused_member_reports(
    g: ModuleGraph,
    rms: Seq<ResolvedModule>,
    allowed: Seq<Seq<char>>,
    supps: Seq<(FileId, Vec<Suppression>)>,
    offsets: Seq<(FileId, Vec<u32>)>,
    ms: Seq<ModuleNode>,
    enums: bool,
) -> Seq<(Seq<char>, Seq<char>, Seq<char>, Seq<char>, u32, u32)>
    decreases ms.len(),
{
    if ms.len() == 0 {
        seq![]
    } else {
        let prev = unused_member_reports(g, rms, allowed, supps, offsets, ms.drop_last(), enums);
        let m = ms.last();
        if m.is_reachable && !m.is_entry_point {
            prev + module_member_reports(g, rms, allowed, supps, offsets, m, m.exports@, enums)
        } else {
            prev
        }
    }
}

fn imported_name_exec(imports: &Vec<ResolvedImport>, local: &String) -> (r: String)
    ensures
        r@ == imported_name_of(imports@, local@),
{
    let mut k: usize = imports.len();
    assert(imports@.take(k as int) =~= imports@);
    while k > 0
        invariant
            k <= imports@.len(),
            imported_name_of(imports@, local@) == imported_name_of(imports@.take(k as int), local@),
        decreases k,
    {
        let ghost t = imports@.take(k as int);
        assert(t.drop_last() =~= imports@.take(k - 1));
        let imp = &imports[k - 1];
        if string_eq(&imp.info.local_name, local) {
            match &imp.info.imported_name {
                ImportedName::Named(n) => {
                    return copy_string(n);
                },
                ImportedName::Default => {
                    return crate::text::to_owned_string("default");
                },
                _ => {},
            }
        }
        k = k - 1;
    }
    copy_string(local)
}

fn accessed_pairs(rms: &Vec<ResolvedModule>) -> (r: Vec<(String, String)>)
    ensures
        r@.map_values(|p: (String, String)| (p.0@, p.1@)) == access_pairs(rms@),
{
    let mut r: Vec<(String, String)> = Vec::new();
    let mut i: usize = 0;
    while i < rms.len()
        invariant
            i <= rms@.len(),
            r@.map_values(|p: (String, String)| (p.0@, p.1@)) == access_pairs(rms@.take(i as int)),
        decreases rms.len() - i,
    {
        assert(rms@.take(i + 1).drop_last() =~= rms@.take(i as int));
        let rm = &rms[i];
        let ghost base = r@.map_values(|p: (String, String)| (p.0@, p.1@));
        let mut j: usize = 0;
        while j < rm.member_accesses.len()
            invariant
                j <= rm.member_accesses@.len(),
                r@.map_values(|p: (String, String)| (p.0@, p.1@)) == base + module_access_pairs(*rm).take(j as int),
            decreases rm.member_accesses.len() - j,
        {
            let access = &rm.member_accesses[j];
            let name = imported_name_exec(&rm.resolved_imports, &access.object);
            let ghost before = r@;
            r.push((name, copy_string(&access.member)));
            assert(r@.map_values(|p: (String, String)| (p.0@, p.1@)) =~= before.map_values(|p: (String, String)| (p.0@, p.1@)).push((name@, access.member@)));
            assert(module_access_pairs(*rm).take(j + 1) =~= module_access_pairs(*rm).take(j as int).push((name@, access.member@)));
            j = j + 1;
        }
        assert(module_access_pairs(*rm).take(rm.member_accesses@.len() as int) =~= module_access_pairs(*rm));
        i = i + 1;
    }
    assert(rms@.take(rms@.len() as int) =~= rms@);
    r
}

fn pair_listed(pairs: &Vec<(String, String)>, a: &String, b: &String) -> (r: bool)
    ensures
        r == pairs@.map_values(|p: (String, String)| (p.0@, p.1@)).contains((a@, b@)),
{
    let ghost pv = pairs@.map_values(|p: (String, String)| (p.0@, p.1@));
    let mut k: usize = 0;
    while k < pairs.len()
        invariant
            k <= pairs@.len(),
            pv == pairs@.map_values(|p: (String, String)| (p.0@, p.1@)),
            forall|q: int| 0 <= q < k ==> pv[q] != (a@, b@),
        decreases pairs.len() - k,
    {
        if string_eq(&pairs[k].0, a) && string_eq(&pairs[k].1, b) {
            assert(pv[k as int] == (a@, b@));
            return true;
        }
        k = k + 1;
    }
    false
}

fn member_kind_string(k: MemberKind) -> (r: String)
    ensures
        r@ == member_kind_text(k),
{
    match k {
        MemberKind::EnumMember => crate::text::to_owned_string("enum_member"),
        MemberKind::ClassMethod => crate::text::to_owned_string("class_method"),
        MemberKind::ClassProperty => crate::text::to_owned_string("class_property"),
    }
}

fn self_accessed_exec(rms: &Vec<ResolvedModule>, file: FileId, name: &String) -> (r: bool)
    ensures
        r == self_accessed(rms@, file, name@),
{
    let mut i: usize = 0;
    while i < rms.len()
        invariant
            i <= rms@.len(),
            forall|i2: int, j: int| 0 <= i2 < i ==> !#[trigger] reads_on_this(rms@[i2], j, file, name@),
        decreases rms.len() - i,
    {
        let rm = &rms[i];
        let mut j: usize = 0;
        while j < rm.member_accesses.len()
            invariant
                j <= rm.member_accesses@.len(),
                i < rms@.len(),
                *rm == rms@[i as int],
                forall|j2: int| 0 <= j2 < j ==> !#[trigger] reads_on_this(*rm, j2, file, name@),
            decreases rm.member_accesses.len() - j,
        {
            let a = &rm.member_accesses[j];
            if rm.file_id.0 == file.0 && str_eq(a.object.as_str(), "this") && string_eq(&a.member, name) {
                assert(reads_on_this(rms@[i as int], j as int, file, name@));
                return true;
            }
            j = j + 1;
        }
        i = i + 1;
    }
    false
}

fn used_as_whole_exec(rms: &Vec<ResolvedModule>, export: &String) -> (r: bool)
    ensures
        r == used_as_whole(rms@, export@),
{
    let mut i: usize = 0;
    while i < rms.len()
        invariant
            i <= rms@.len(),
            forall|i2: int, j: int| 0 <= i2 < i ==> !#[trigger] whole_use_at(rms@[i2], j, export@),
        decreases rms.len() - i,
    {
        let rm = &rms[i];
        let mut j: usize = 0;
        while j < rm.whole_object_uses.len()
            invariant
                j <= rm.whole_object_uses@.len(),
                i < rms@.len(),
                *rm == rms@[i as int],
                forall|j2: int| 0 <= j2 < j ==> !#[trigger] whole_use_at(*rm, j2, export@),
            decreases rm.whole_object_uses.len() - j,
        {
            let name = imported_name_exec(&rm.resolved_imports, &rm.whole_object_uses[j]);
            if string_eq(&name, export) {
                assert(whole_use_at(rms@[i as int], j as int, export@));
                return true;
            }
            j = j + 1;
        }
        i = i + 1;
    }
    false
}

fn superclass_exec(imports: &Vec<ResolvedImport>, local: &String, file: FileId) -> (r: (String, FileId))
    ensures
        (r.0@, r.1) == superclass_of(imports@, local@, file),
{
    let mut k: usize = imports.len();
    assert(imports@.take(k as int) =~= imports@);
    while k > 0
        invariant
            k <= imports@.len(),
            superclass_of(imports@, local@, file) == superclass_of(imports@.take(k as int), local@, file),
        decreases k,
    {
        let ghost t = imports@.take(k as int);
        assert(t.drop_last() =~= imports@.take(k - 1));
        let imp = &imports[k - 1];
        if string_eq(&imp.info.local_name, local) {
            match (&imp.info.imported_name, &imp.target) {
                (ImportedName::Named(n), ResolveResult::InternalModule(t)) => {
                    return (copy_string(n), *t);
                },
                (ImportedName::Default, ResolveResult::InternalModule(t)) => {
                    return (crate::text::to_owned_string("default"), *t);
                },
                _ => {},
            }
        }
        k = k - 1;
    }
    (copy_string(local), file)
}

fn exporting_file_exec(ms: &Vec<ModuleNode>, name: &String) -> (r: Option<FileId>)
    ensures
        r == exporting_file(ms@, name@),
{
    let mut k: usize = ms.len();
    assert(ms@.take(k as int) =~= ms@);
    while k > 0
        invariant
            k <= ms@.len(),
            exporting_file(ms@, name@) == exporting_file(ms@.take(k as int), name@),
        decreases k,
    {
        let ghost t = ms@.take(k as int);
        assert(t.drop_last() =~= ms@.take(k - 1));
        let m = &ms[k - 1];
        assert(t.last() == *m);
        let mut j: usize = 0;
        while j < m.exports.len()
            invariant
                j <= m.exports@.len(),
                0 < k <= ms@.len(),
                *m == ms@[k - 1],
                exporting_file(ms@, name@) == exporting_file(ms@.take(k as int), name@),
                forall|q: int| 0 <= q < j ==> export_name_text(#[trigger] m.exports@[q].name) != name@,
            decreases m.exports.len() - j,
        {
            let text = m.exports[j].name.to_text();
            if string_eq(&text, name) {
                assert(export_name_text(m.exports@[j as int].name) == name@);
                assert(ms@.take(k as int).last() == *m);
                return Some(m.file_id);
            }
            j = j + 1;
        }
        k = k - 1;
    }
    None
}

fn member_accessed_exec(rms: &Vec<ResolvedModule>, accessed: &Vec<(String, String)>, parent: &String, x: &String) -> (r: bool)
    requires
        accessed@.map_values(|p: (String, String)| (p.0@, p.1@)) == access_pairs(rms@),
    ensures
        r == member_accessed(rms@, parent@, x@),
{
    if pair_listed(accessed, parent, x) {
        return true;
    }
    let mut i: usize = 0;
    while i < rms.len()
        invariant
            i <= rms@.len(),
            accessed@.map_values(|p: (String, String)| (p.0@, p.1@)) == access_pairs(rms@),
            forall|i2: int, j: int| i2 < i ==> !#[trigger] credited_via(rms@, i2, j, parent@, x@),
        decreases rms.len() - i,
    {
        let rm = &rms[i];
        let mut j: usize = 0;
        while j < rm.exports.len()
            invariant
                j <= rm.exports@.len(),
                i < rms@.len(),
                *rm == rms@[i as int],
                accessed@.map_values(|p: (String, String)| (p.0@, p.1@)) == access_pairs(rms@),
                forall|j2: int| j2 < j ==> !#[trigger] credited_via(rms@, i as int, j2, parent@, x@),
            decreases rm.exports.len() - j,
        {
            let e = &rm.exports[j];
            match &e.super_class {
                Some(sl) => {
                    let sup = superclass_exec(&rm.resolved_imports, sl, rm.file_id);
                    let child = e.name.to_text();
                    if (string_eq(parent, &child) && pair_listed(accessed, &sup.0, x)) || (string_eq(parent, &sup.0)
                        && pair_listed(accessed, &child, x)) {
                        assert(credited_via(rms@, i as int, j as int, parent@, x@));
                        return true;
                    }
                },
                None => {},
            }
            j = j + 1;
        }
        i = i + 1;
    }
    false
}

fn self_used_exec(rms: &Vec<ResolvedModule>, ms: &Vec<ModuleNode>, file: FileId, x: &String) -> (r: bool)
    ensures
        r == self_used(rms@, ms@, file, x@),
{
    if self_accessed_exec(rms, file, x) {
        return true;
    }
    let mut i: usize = 0;
    while i < rms.len()
        invariant
            i <= rms@.len(),
            forall|i2: int, j: int| i2 < i ==> !#[trigger] self_credited_via(rms@, ms@, i2, j, file, x@),
        decreases rms.len() - i,
    {
        let rm = &rms[i];
        let mut j: usize = 0;
        while j < rm.exports.len()
            invariant
                j <= rm.exports@.len(),
                i < rms@.len(),
                *rm == rms@[i as int],
                forall|j2: int| j2 < j ==> !#[trigger] self_credited_via(rms@, ms@, i as int, j2, file, x@),
            decreases rm.exports.len() - j,
        {
            let e = &rm.exports[j];
            match &e.super_class {
                Some(sl) => {
                    let sup = superclass_exec(&rm.resolved_imports, sl, rm.file_id);
                    let child = e.name.to_text();
                    let found = exporting_file_exec(ms, &child);
                    let same_file = match found {
                        Some(f) => f.0 == file.0,
                        None => false,
                    };
                    if same_file && self_accessed_exec(rms, sup.1, x) {
                        assert(self_credited_via(rms@, ms@, i as int, j as int, file, x@));
                        return true;
                    }
                },
                None => {},
            }
            j = j + 1;
        }
        i = i + 1;
    }
    false
}

fn member_unused_exec(
    rms: &Vec<ResolvedModule>,
    ms: &Vec<ModuleNode>,
    accessed: &Vec<(String, String)>,
    allowed: &Vec<String>,
    supps: &Vec<(FileId, Vec<Suppression>)>,
    offsets: &Vec<(FileId, Vec<u32>)>,
    file: FileId,
    parent: &String,
    mb: &crate::extract::MemberInfo,
) -> (r: bool)
    requires
        accessed@.map_values(|p: (String, String)| (p.0@, p.1@)) == access_pairs(rms@),
    ensures
        r == member_unused(rms@, ms@, views(allowed@), supps@, offsets@, file, parent@, *mb),
{
    if member_accessed_exec(rms, accessed, parent, &mb.name) {
        return false;
    }
    let is_enum = match mb.kind {
        MemberKind::EnumMember => true,
        _ => false,
    };
    if !is_enum && self_used_exec(rms, ms, file, &mb.name) {
        return false;
    }
    if mb.has_decorator {
        return false;
    }
    if !is_enum && (is_react_lifecycle_method(mb.name.as_str()) || is_angular_lifecycle_method(mb.name.as_str())
        || crate::dependency_usage::listed_exec(allowed, &mb.name)) {
        return false;
    }
    let pos: (u32, u32) = byte_offset_to_line_col(offsets, file, mb.span.start);
    let kind = if is_enum {
        IssueKind::UnusedEnumMember
    } else {
        IssueKind::UnusedClassMember
    };
    match supps_for(supps, file) {
        Some(k) => !is_suppressed(&supps[k].1, pos.0, kind),
        None => true,
    }
}

/// Find unused enum and class members in exported symbols: members of
/// referenced exports (or of files imported as a namespace) that no file
/// accesses as `Export.member`, through any local name an import gave the
/// export, and whose export no file uses as a whole object. Across an
/// `extends`, an access of a superclass member credits the subclass and one
/// of a subclass member credits the superclass. A class member also counts
/// as used when its file reads it on `this` (or a superclass's file does),
/// when it is a React or Angular lifecycle method or named in
/// `user_class_member_allowlist`; a decorated member and one an inline
/// comment suppresses are not reported. Returns the enum members, then the
/// class members, each at its line and column.
pub fn find_unused_members(
    graph: &ModuleGraph,
    resolved_modules: &Vec<ResolvedModule>,
    suppressions: &Vec<(FileId, Vec<Suppression>)>,
    line_offsets: &Vec<(FileId, Vec<u32>)>,
    user_class_member_allowlist: &Vec<String>,
) -> (r: (Vec<UnusedMember>, Vec<UnusedMember>))
    ensures
        member_views(r.0@) == unused_member_reports(
            *graph,
            resolved_modules@,
            views(user_class_member_allowlist@),
            suppressions@,
            line_offsets@,
            graph.modules@,
            true,
        ),
        member_views(r.1@) == unused_member_reports(
            *graph,
            resolved_modules@,
            views(user_class_member_allowlist@),
            suppressions@,
            line_offsets@,
            graph.modules@,
            false,
        ),
{
    let accessed = accessed_pairs(resolved_modules);
    let ghost rv = resolved_modules@;
    let ghost al = views(user_class_member_allowlist@);
    let ghost sv = suppressions@;
    let ghost ov = line_offsets@;
    let ms = &graph.modules;
    let mut enum_members: Vec<UnusedMember> = Vec::new();
    let mut class_members: Vec<UnusedMember> = Vec::new();
    let mut i: usize = 0;
    while i < ms.len()
        invariant
            i <= ms@.len(),
            *ms == graph.modules,
            rv == resolved_modules@,
            al == views(user_class_member_allowlist@),
            sv == suppressions@,
            ov == line_offsets@,
            accessed@.map_values(|p: (String, String)| (p.0@, p.1@)) == access_pairs(rv),
            member_views(enum_members@) == unused_member_reports(*graph, rv, al, sv, ov, ms@.take(i as int), true),
            member_views(class_members@) == unused_member_reports(*graph, rv, al, sv, ov, ms@.take(i as int), false),
        decreases ms.len() - i,
    {
        assert(ms@.take(i + 1).drop_last() =~= ms@.take(i as int));
        let module = &ms[i];
        if module.is_reachable && !module.is_entry_point {
            let es = &module.exports;
            let ghost base0 = member_views(enum_members@);
            let ghost base1 = member_views(class_members@);
            let mut k: usize = 0;
            assert(module_member_reports(*graph, rv, al, sv, ov, *module, es@.take(0), true) =~= seq![]);
            assert(module_member_reports(*graph, rv, al, sv, ov, *module, es@.take(0), false) =~= seq![]);
            while k < es.len()
                invariant
                    k <= es@.len(),
                    *es == module.exports,
                    rv == resolved_modules@,
                    al == views(user_class_member_allowlist@),
                    sv == suppressions@,
                    ov == line_offsets@,
                    accessed@.map_values(|p: (String, String)| (p.0@, p.1@)) == access_pairs(rv),
                    member_views(enum_members@) == base0 + module_member_reports(
                        *graph,
                        rv,
                        al,
                        sv,
                        ov,
                        *module,
                        es@.take(k as int),
                        true,
                    ),
                    member_views(class_members@) == base1 + module_member_reports(
                        *graph,
                        rv,
                        al,
                        sv,
                        ov,
                        *module,
                        es@.take(k as int),
                        false,
                    ),
                decreases es.len() - k,
            {
                assert(es@.take(k + 1).drop_last() =~= es@.take(k as int));
                let export = &es[k];
                let export_name = export.name.to_text();
                let examined = export.members.len() > 0 && !(export.references.len() == 0
                    && !graph.has_namespace_import(module.file_id)) && !used_as_whole_exec(
                    resolved_modules,
                    &export_name,
                );
                if examined {
                    let mbs = &export.members;
                    let ghost b0 = member_views(enum_members@);
                    let ghost b1 = member_views(class_members@);
                    let mut q: usize = 0;
                    assert(export_member_reports(rv, graph.modules@, al, sv, ov, module.file_id, module.path@, export_name@, mbs@.take(0), true) =~= seq![]);
                    assert(export_member_reports(rv, graph.modules@, al, sv, ov, module.file_id, module.path@, export_name@, mbs@.take(0), false) =~= seq![]);
                    while q < mbs.len()
                        invariant
                            q <= mbs@.len(),
                            rv == resolved_modules@,
                            al == views(user_class_member_allowlist@),
                            sv == suppressions@,
                            ov == line_offsets@,
                            accessed@.map_values(|p: (String, String)| (p.0@, p.1@)) == access_pairs(rv),
                            member_views(enum_members@) == b0 + export_member_reports(
                                rv,
                                graph.modules@,
                                al,
                                sv,
                                ov,
                                module.file_id,
                                module.path@,
                                export_name@,
                                mbs@.take(q as int),
                                true,
                            ),
                            member_views(class_members@) == b1 + export_member_reports(
                                rv,
                                graph.modules@,
                                al,
                                sv,
                                ov,
                                module.file_id,
                                module.path@,
                                export_name@,
                                mbs@.take(q as int),
                                false,
                            ),
                        decreases mbs.len() - q,
                    {
                        assert(mbs@.take(q + 1).drop_last() =~= mbs@.take(q as int));
                        let member = &mbs[q];
                        if member_unused_exec(
                            resolved_modules,
                            &graph.modules,
                            &accessed,
                            user_class_member_allowlist,
                            suppressions,
                            line_offsets,
                            module.file_id,
                            &export_name,
                            member,
                        ) {
                            let pos: (u32, u32) = byte_offset_to_line_col(line_offsets, module.file_id, member.span.start);
                            let unused = UnusedMember {
                                path: copy_string(&module.path),
                                parent_name: copy_string(&export_name),
                                member_name: copy_string(&member.name),
                                kind: member_kind_string(member.kind),
                                line: pos.0,
                                col: pos.1,
                            };
                            match member.kind {
                                MemberKind::EnumMember => {
                                    let ghost before = enum_members@;
                                    enum_members.push(unused);
                                    assert(member_views(enum_members@) =~= member_views(before).push(member_view(unused)));
                                },
                                _ => {
                                    let ghost before = class_members@;
                                    class_members.push(unused);
                                    assert(member_views(class_members@) =~= member_views(before).push(member_view(unused)));
                                },
                            }
                        }
                        q = q + 1;
                    }
                    assert(mbs@.take(mbs@.len() as int) =~= mbs@);
                }
                k = k + 1;
            }
            assert(es@.take(es@.len() as int) =~= es@);
        }
        i = i + 1;
    }
    assert(ms@.take(ms@.len() as int) =~= ms@);
    (enum_members, class_members)
}

// ---- positions and suppressions ----------------------------------------

/// The index of the last line start at or before `offset`, -1 when none
/// is. On line starts that increase from 0 this is the offset's line.
pub open spec fn last_start_at_or_before(starts: Seq<u32>, offset: u32) -> int
    decreases starts.len(),
{
    if starts.len() == 0 {
        -1
    } else if starts.last() <= offset {
        starts.len() - 1
    } else {
        last_start_at_or_before(starts.drop_last(), offset)
    }
}

/// The 1-based line and the 0-based byte column of an offset, given the
/// offsets at which the file's lines start; (1, offset) without a line
/// start at or before it.
pub open spec fn line_col_in(starts: Seq<u32>, offset: u32) -> (u32, u32) {
    let k = last_start_at_or_before(starts, offset);
    if k < 0 { (1u32, offset) } else { ((k + 1) as u32, (offset - starts[k]) as u32) }
}

/// The line starts recorded for a file: those of its first entry.
pub open spec fn starts_of(table: Seq<(FileId, Vec<u32>)>, id: FileId) -> Option<Seq<u32>>
    decreases table.len(),
{
    if table.len() == 0 {
        None
    } else if table[0].0 == id {
        Some(table[0].1@)
    } else {
        starts_of(table.skip(1), id)
    }
}

/// The line and column of an offset in a file; (1, offset) for a file
/// without recorded line starts.
pub open spec fn position_of(table: Seq<(FileId, Vec<u32>)>, id: FileId, offset: u32) -> (u32, u32) {
    match starts_of(table, id) {
        Some(starts) => line_col_in(starts, offset),
        None => (1u32, offset),
    }
}

/// Convert a byte offset to a 1-based line and 0-based column.
pub fn line_col(starts: &Vec<u32>, offset: u32) -> (r: (u32, u32))
    ensures
        r == line_col_in(starts@, offset),
{
    let mut k: usize = starts.len();
    assert(starts@.take(k as int) =~= starts@);
    while k > 0 && starts[k - 1] > offset
        invariant
            k <= starts@.len(),
            last_start_at_or_before(starts@, offset) == last_start_at_or_before(starts@.take(k as int), offset),
        decreases k,
    {
        assert(starts@.take(k as int).drop_last() =~= starts@.take(k - 1));
        k = k - 1;
    }
    if k == 0 {
        (1, offset)
    } else {
        assert(starts@.take(k as int).last() == starts@[k - 1]);
        (k as u32, offset - starts[k - 1])
    }
}

fn starts_for(table: &Vec<(FileId, Vec<u32>)>, id: FileId) -> (r: Option<usize>)
    ensures
        match r {
            Some(k) => k < table@.len() && starts_of(table@, id) == Some(table@[k as int].1@),
            None => starts_of(table@, id) is None,
        },
{
    let mut k: usize = 0;
    assert(table@.skip(0) =~= table@);
    while k < table.len()
        invariant
            k <= table@.len(),
            starts_of(table@, id) == starts_of(table@.skip(k as int), id),
        decreases table.len() - k,
    {
        assert(table@.skip(k as int)[0] == table@[k as int]);
        assert(table@.skip(k as int).skip(1) =~= table@.skip(k + 1));
        if table[k].0.0 == id.0 {
            return Some(k);
        }
        k = k + 1;
    }
    None
}

/// Convert a byte offset in a file to a 1-based line and 0-based column.
pub fn byte_offset_to_line_col(table: &Vec<(FileId, Vec<u32>)>, id: FileId, offset: u32) -> (r: (u32, u32))
    ensures
        r == position_of(table@, id, offset),
{
    match starts_for(table, id) {
        Some(k) => line_col(&table[k].1, offset),
        None => (1, offset),
    }
}

/// The kinds of findings an inline comment can suppress.
#[derive(Debug, Clone, Copy, PartialEq, Eq, Structural)]
pub enum IssueKind {
    UnusedFile,
    UnusedExport,
    UnusedType,
    UnusedDependency,
    UnusedDevDependency,
    UnusedEnumMember,
    UnusedClassMember,
    UnresolvedImport,
    UnlistedDependency,
    DuplicateExport,
}

/// An inline suppression: on a line (0 for the whole file), of one kind of
/// finding or (without a kind) of all.
#[derive(Debug, Clone, Copy)]
pub struct Suppression {
    pub line: u32,
    pub kind: Option<IssueKind>,
}

pub open spec fn suppresses(s: Suppression, line: u32, kind: IssueKind) -> bool {
    (s.line == 0 || s.line == line) && (s.kind is None || s.kind == Some(kind))
}

pub open spec fn suppressed_spec(supps: Seq<Suppression>, line: u32, kind: IssueKind) -> bool {
    exists|k: int| 0 <= k < supps.len() && #[trigger] suppresses(supps[k], line, kind)
}

/// Whether a finding of `kind` on `line` is suppressed.
pub fn is_suppressed(supps: &Vec<Suppression>, line: u32, kind: IssueKind) -> (r: bool)
    ensures
        r == suppressed_spec(supps@, line, kind),
{
    let mut k: usize = 0;
    while k < supps.len()
        invariant
            k <= supps@.len(),
            forall|q: int| 0 <= q < k ==> !#[trigger] suppresses(supps@[q], line, kind),
        decreases supps.len() - k,
    {
        let s = supps[k];
        let kind_matches = match s.kind {
            Some(x) => x == kind,
            None => true,
        };
        if (s.line == 0 || s.line == line) && kind_matches {
            assert(suppresses(supps@[k as int], line, kind));
            return true;
        }
        k = k + 1;
    }
    false
}

/// The suppressions recorded for a file: those of its first entry.
pub open spec fn supps_of(table: Seq<(FileId, Vec<Suppression>)>, id: FileId) -> Seq<Suppression>
    decreases table.len(),
{
    if table.len() == 0 {
        seq![]
    } else if table[0].0 == id {
        table[0].1@
    } else {
        supps_of(table.skip(1), id)
    }
}

fn supps_for(table: &Vec<(FileId, Vec<Suppression>)>, id: FileId) -> (r: Option<usize>)
    ensures
        match r {
            Some(k) => k < table@.len() && supps_of(table@, id) == table@[k as int].1@,
            None => supps_of(table@, id) == Seq::<Suppression>::empty(),
        },
{
    let mut k: usize = 0;
    assert(table@.skip(0) =~= table@);
    while k < table.len()
        invariant
            k <= table@.len(),
            supps_of(table@, id) == supps_of(table@.skip(k as int), id),
        decreases table.len() - k,
    {
        assert(table@.skip(k as int)[0] == table@[k as int]);
        assert(table@.skip(k as int).skip(1) =~= table@.skip(k + 1));
        if table[k].0.0 == id.0 {
            return Some(k);
        }
        k = k + 1;
    }
    None
}

// ---- unresolved imports ------------------------------------------------

/// An import that could not be resolved.
#[derive(Debug, Clone)]
pub struct UnresolvedImport {
    pub path: String,
    pub specifier: String,
    pub line: u32,
    pub col: u32,
}

pub open spec fn unresolved_view(u: UnresolvedImport) -> (Seq<char>, Seq<char>, u32, u32) {
    (u.path@, u.specifier@, u.line, u.col)
}

pub open spec fn unresolved_views(v: Seq<UnresolvedImport>) -> Seq<(Seq<char>, Seq<char>, u32, u32)> {
    v.map_values(|u: UnresolvedImport| unresolved_view(u))
}

/// Whether a specifier starts with one of the prefixes.
pub open spec fn has_prefix_in(prefixes: Seq<Seq<char>>, s: Seq<char>) -> bool {
    exists|k: int| 0 <= k < prefixes.len() && #[trigger] crate::text::starts_with(s, prefixes[k])
}

fn has_prefix_in_exec(prefixes: &Vec<String>, s: &str) -> (r: bool)
    ensures
        r == has_prefix_in(views(prefixes@), s@),
{
    let mut k: usize = 0;
    while k < prefixes.len()
        invariant
            k <= prefixes@.len(),
            forall|q: int| 0 <= q < k ==> !#[trigger] crate::text::starts_with(s@, views(prefixes@)[q]),
        decreases prefixes.len() - k,
    {
        if crate::text::str_starts_with(s, prefixes[k].as_str()) {
            assert(crate::text::starts_with(s@, views(prefixes@)[k as int]));
            return true;
        }
        k = k + 1;
    }
    false
}

/// The reports for the unresolved imports of one file, in order.
pub open spec fn module_unresolved_reports(
    m: ResolvedModule,
    imports: Seq<ResolvedImport>,
    supps: Seq<(FileId, Vec<Suppression>)>,
    prefixes: Seq<Seq<char>>,
    table: Seq<(FileId, Vec<u32>)>,
) -> Seq<(Seq<char>, Seq<char>, u32, u32)>
    decreases imports.len(),
{
    if imports.len() == 0 {
        seq![]
    } else {
        let prev = module_unresolved_reports(m, imports.drop_last(), supps, prefixes, table);
        let imp = imports.last();
        match imp.target {
            ResolveResult::Unresolvable(spec) => {
                let pos = position_of(table, m.file_id, imp.info.span.start);
                if crate::unused_deps::is_virtual_module_spec(spec@) || has_prefix_in(prefixes, spec@)
                    || suppressed_spec(supps_of(supps, m.file_id), pos.0, IssueKind::UnresolvedImport) {
                    prev
                } else {
                    prev.push((m.path@, spec@, pos.0, pos.1))
                }
            },
            _ => prev,
        }
    }
}

/// The reports for the unresolved imports of all files, file by file.
pub open spec fn unresolved_reports(
    rms: Seq<ResolvedModule>,
    supps: Seq<(FileId, Vec<Suppression>)>,
    prefixes: Seq<Seq<char>>,
    table: Seq<(FileId, Vec<u32>)>,
) -> Seq<(Seq<char>, Seq<char>, u32, u32)>
    decreases rms.len(),
{
    if rms.len() == 0 {
        seq![]
    } else {
        let m = rms.last();
        unresolved_reports(rms.drop_last(), supps, prefixes, table)
            + module_unresolved_reports(m, m.resolved_imports@, supps, prefixes, table)
    }
}

/// Find imports that could not be resolved, except `virtual:` modules,
/// specifiers with a virtual prefix of an active plugin, and those an
/// inline comment suppresses on the import's line or for the whole file.
pub fn find_unresolved_imports(
    resolved_modules: &Vec<ResolvedModule>,
    suppressions: &Vec<(FileId, Vec<Suppression>)>,
    virtual_prefixes: &Vec<String>,
    line_offsets: &Vec<(FileId, Vec<u32>)>,
) -> (r: Vec<UnresolvedImport>)
    ensures
        unresolved_views(r@) == unresolved_reports(resolved_modules@, suppressions@, views(virtual_prefixes@), line_offsets@),
{
    let ghost prefixes = views(virtual_prefixes@);
    let mut unresolved: Vec<UnresolvedImport> = Vec::new();
    let mut i: usize = 0;
    while i < resolved_modules.len()
        invariant
            i <= resolved_modules@.len(),
            prefixes == views(virtual_prefixes@),
            unresolved_views(unresolved@) == unresolved_reports(resolved_modules@.take(i as int), suppressions@, prefixes, line_offsets@),
        decreases resolved_modules.len() - i,
    {
        assert(resolved_modules@.take(i + 1).drop_last() =~= resolved_modules@.take(i as int));
        let module = &resolved_modules[i];
        let imports = &module.resolved_imports;
        let ghost base = unresolved_views(unresolved@);
        let mut k: usize = 0;
        assert(module_unresolved_reports(*module, imports@.take(0), suppressions@, prefixes, line_offsets@) =~= seq![]);
        while k < imports.len()
            invariant
                k <= imports@.len(),
                *imports == module.resolved_imports,
                prefixes == views(virtual_prefixes@),
                unresolved_views(unresolved@) == base + module_unresolved_reports(*module, imports@.take(k as int), suppressions@, prefixes, line_offsets@),
            decreases imports.len() - k,
        {
            assert(imports@.take(k + 1).drop_last() =~= imports@.take(k as int));
            let import = &imports[k];
            match &import.target {
                ResolveResult::Unresolvable(spec) => {
                    let pos = byte_offset_to_line_col(line_offsets, module.file_id, import.info.span.start);
                    let skipped = if crate::unused_deps::is_virtual_module(spec.as_str())
                        || has_prefix_in_exec(virtual_prefixes, spec.as_str()) {
                        true
                    } else {
                        match supps_for(suppressions, module.file_id) {
                            Some(q) => is_suppressed(&suppressions[q].1, pos.0, IssueKind::UnresolvedImport),
                            None => false,
                        }
                    };
                    if !skipped {
                        let u = UnresolvedImport { path: copy_string(&module.path), specifier: copy_string(spec), line: pos.0, col: pos.1 };
                        let ghost before = unresolved@;
                        unresolved.push(u);
                        assert(unresolved_views(unresolved@) =~= unresolved_views(before).push(unresolved_view(u)));
                    }
                },
                _ => {},
            }
            k = k + 1;
        }
        assert(imports@.take(imports@.len() as int) =~= imports@);
        i = i + 1;
    }
    assert(resolved_modules@.take(resolved_modules@.len() as int) =~= resolved_modules@);
    unresolved
}

// ---- path order ----------------------------------------------------------

/// Whether character `x` sorts before `y` in path order: `/` before every
/// other character, so that on normalized paths the order is that of their
/// components; other characters by code point.
pub open spec fn char_before(x: char, y: char) -> bool {
    (x == '/' && y != '/') || (x != '/' && y != '/' && (x as int) < (y as int))
}

/// Whether path `a` sorts before path `b`.
pub open spec fn path_lt(a: Seq<char>, b: Seq<char>) -> bool
    decreases a.len(),
{
    if a.len() == 0 {
        b.len() > 0
    } else if b.len() == 0 {
        false
    } else if a[0] != b[0] {
        char_before(a[0], b[0])
    } else {
        path_lt(a.skip(1), b.skip(1))
    }
}

/// Path order is a strict total order.
pub proof fn lemma_path_lt_irreflexive(a: Seq<char>)
    ensures
        !path_lt(a, a),
    decreases a.len(),
{
    if a.len() > 0 {
        lemma_path_lt_irreflexive(a.skip(1));
    }
}

pub proof fn lemma_path_lt_transitive(a: Seq<char>, b: Seq<char>, c: Seq<char>)
    requires
        path_lt(a, b),
        path_lt(b, c),
    ensures
        path_lt(a, c),
    decreases a.len(),
{
    if a.len() > 0 && b.len() > 0 && c.len() > 0 && a[0] == b[0] && b[0] == c[0] {
        lemma_path_lt_transitive(a.skip(1), b.skip(1), c.skip(1));
    }
}

pub proof fn lemma_path_lt_total(a: Seq<char>, b: Seq<char>)
    requires
        a != b,
    ensures
        path_lt(a, b) || path_lt(b, a),
    decreases a.len(),
{
    if a.len() > 0 && b.len() > 0 {
        if a[0] != b[0] {
            assert((a[0] as int) != (b[0] as int));
        } else {
            if a.skip(1) == b.skip(1) {
                assert(a =~= seq![a[0]] + a.skip(1));
                assert(b =~= seq![b[0]] + b.skip(1));
            }
            lemma_path_lt_total(a.skip(1), b.skip(1));
        }
    } else if a.len() == 0 && b.len() == 0 {
        assert(a =~= b);
    }
}

pub(crate) fn path_less(a: &Vec<char>, b: &Vec<char>) -> (r: bool)
    ensures
        r == path_lt(a@, b@),
{
    let mut i: usize = 0;
    assert(a@.skip(0) =~= a@);
    assert(b@.skip(0) =~= b@);
    while i < a.len() && i < b.len() && a[i] == b[i]
        invariant
            i <= a@.len(),
            i <= b@.len(),
            path_lt(a@, b@) == path_lt(a@.skip(i as int), b@.skip(i as int)),
        decreases a.len() - i,
    {
        assert(a@.skip(i as int).skip(1) =~= a@.skip(i + 1));
        assert(b@.skip(i as int).skip(1) =~= b@.skip(i + 1));
        i = i + 1;
    }
    if i == a.len() {
        i < b.len()
    } else if i == b.len() {
        false
    } else {
        let ca = a[i];
        let cb = b[i];
        if ca == '/' {
            true
        } else if cb == '/' {
            false
        } else {
            ca < cb
        }
    }
}

// ---- import sites ------------------------------------------------------

/// A file that imports a package, with the import's line and column.
#[derive(Debug, Clone)]
pub struct ImportSite {
    pub path: String,
    pub line: u32,
    pub col: u32,
}

pub open spec fn site_view(s: ImportSite) -> (Seq<char>, u32, u32) {
    (s.path@, s.line, s.col)
}

pub open spec fn site_views(v: Seq<ImportSite>) -> Seq<(Seq<char>, u32, u32)> {
    v.map_values(|s: ImportSite| site_view(s))
}

/// Whether site `k` is the one kept for its file: the lowest line, the
/// earliest of equal lines.
pub open spec fn best_site(raw: Seq<(Seq<char>, u32, u32)>, k: int) -> bool {
    &&& 0 <= k < raw.len()
    &&& forall|j: int|
        #![trigger raw[j]]
        0 <= j < raw.len() && raw[j].0 == raw[k].0 ==> raw[k].1 < raw[j].1 || (raw[k].1 == raw[j].1 && k <= j)
}

/// Whether `x` is the kept site of its file.
pub open spec fn is_best(raw: Seq<(Seq<char>, u32, u32)>, x: (Seq<char>, u32, u32)) -> bool {
    exists|k: int| best_site(raw, k) && raw[k] == x
}

/// Whether some site of `out` lies in file `f`.
pub open spec fn has_file(out: Seq<(Seq<char>, u32, u32)>, f: Seq<char>) -> bool {
    exists|a: int| 0 <= a < out.len() && out[a].0 == f
}

pub open spec fn sorted_by_path(out: Seq<(Seq<char>, u32, u32)>) -> bool {
    forall|a: int, b: int| 0 <= a < b < out.len() ==> path_lt(#[trigger] out[a].0, #[trigger] out[b].0)
}

/// `out` holds, in path order, the kept site of each file of `raw`: the
/// sites sorted by file and line, with all but the first of each file
/// dropped.
pub open spec fn sites_chosen(raw: Seq<(Seq<char>, u32, u32)>, out: Seq<(Seq<char>, u32, u32)>) -> bool {
    &&& sorted_by_path(out)
    &&& forall|a: int| 0 <= a < out.len() ==> #[trigger] is_best(raw, out[a])
    &&& forall|j: int| 0 <= j < raw.len() ==> #[trigger] has_file(out, raw[j].0)
}

proof fn lemma_sorted_distinct(out: Seq<(Seq<char>, u32, u32)>, a: int, b: int)
    requires
        sorted_by_path(out),
        0 <= a < out.len(),
        0 <= b < out.len(),
        out[a].0 == out[b].0,
    ensures
        a == b,
{
    if a < b {
        assert(path_lt(out[a].0, out[b].0));
        lemma_path_lt_irreflexive(out[a].0);
    } else if b < a {
        assert(path_lt(out[b].0, out[a].0));
        lemma_path_lt_irreflexive(out[a].0);
    }
}

/// A kept site of the prefix stays kept when a site of another file, or a
/// later one of a higher line, follows.
proof fn lemma_best_extends(raw: Seq<(Seq<char>, u32, u32)>, i: int, k: int)
    requires
        0 <= i < raw.len(),
        best_site(raw.take(i), k),
        raw[i].0 != raw[k].0 || raw[k].1 <= raw[i].1,
    ensures
        best_site(raw.take(i + 1), k),
{
    let old_raw = raw.take(i);
    let new_raw = raw.take(i + 1);
    assert(new_raw[k] == old_raw[k]);
    assert forall|j: int| #![trigger new_raw[j]] 0 <= j < new_raw.len() && new_raw[j].0 == new_raw[k].0 implies new_raw[k].1 < new_raw[j].1
        || (new_raw[k].1 == new_raw[j].1 && k <= j) by {
        if j < i {
            assert(old_raw[j] == new_raw[j]);
        }
    }
}

proof fn lemma_site_keep(raw: Seq<(Seq<char>, u32, u32)>, i: int, out: Seq<(Seq<char>, u32, u32)>, p: int)
    requires
        0 <= i < raw.len(),
        sites_chosen(raw.take(i), out),
        0 <= p < out.len(),
        out[p].0 == raw[i].0,
        out[p].1 <= raw[i].1,
    ensures
        sites_chosen(raw.take(i + 1), out),
{
    let old_raw = raw.take(i);
    let new_raw = raw.take(i + 1);
    assert forall|a: int| 0 <= a < out.len() implies #[trigger] is_best(new_raw, out[a]) by {
        assert(is_best(old_raw, out[a]));
        let k = choose|k: int| best_site(old_raw, k) && old_raw[k] == out[a];
        if raw[i].0 == raw[k].0 {
            assert(old_raw[k] == raw[k]);
            lemma_sorted_distinct(out, a, p);
        }
        lemma_best_extends(raw, i, k);
        assert(new_raw[k] == out[a]);
    }
    assert forall|j: int| 0 <= j < new_raw.len() implies #[trigger] has_file(out, new_raw[j].0) by {
        if j < i {
            assert(old_raw[j] == new_raw[j]);
            assert(has_file(out, old_raw[j].0));
        } else {
            assert(out[p].0 == new_raw[j].0);
        }
    }
}

proof fn lemma_site_replace(raw: Seq<(Seq<char>, u32, u32)>, i: int, out: Seq<(Seq<char>, u32, u32)>, p: int)
    requires
        0 <= i < raw.len(),
        sites_chosen(raw.take(i), out),
        0 <= p < out.len(),
        out[p].0 == raw[i].0,
        raw[i].1 < out[p].1,
    ensures
        sites_chosen(raw.take(i + 1), out.update(p, raw[i])),
{
    let old_raw = raw.take(i);
    let new_raw = raw.take(i + 1);
    let nout = out.update(p, raw[i]);
    assert(is_best(old_raw, out[p]));
    let kp = choose|k: int| best_site(old_raw, k) && old_raw[k] == out[p];
    assert forall|a: int, b: int| 0 <= a < b < nout.len() implies path_lt(#[trigger] nout[a].0, #[trigger] nout[b].0) by {
        assert(path_lt(out[a].0, out[b].0));
    }
    assert forall|a: int| 0 <= a < nout.len() implies #[trigger] is_best(new_raw, nout[a]) by {
        if a == p {
            assert forall|j: int| #![trigger new_raw[j]] 0 <= j < new_raw.len() && new_raw[j].0 == new_raw[i].0 implies new_raw[i].1
                < new_raw[j].1 || (new_raw[i].1 == new_raw[j].1 && i <= j) by {
                if j < i {
                    assert(old_raw[j] == new_raw[j]);
                    assert(old_raw[kp].0 == old_raw[j].0);
                }
            }
            assert(best_site(new_raw, i));
            assert(new_raw[i] == nout[a]);
        } else {
            assert(is_best(old_raw, out[a]));
            let k = choose|k: int| best_site(old_raw, k) && old_raw[k] == out[a];
            if raw[i].0 == raw[k].0 {
                assert(old_raw[k] == raw[k]);
                lemma_sorted_distinct(out, a, p);
            }
            lemma_best_extends(raw, i, k);
            assert(new_raw[k] == nout[a]);
        }
    }
    assert forall|j: int| 0 <= j < new_raw.len() implies #[trigger] has_file(nout, new_raw[j].0) by {
        if j < i {
            assert(old_raw[j] == new_raw[j]);
            assert(has_file(out, old_raw[j].0));
            let a = choose|a: int| 0 <= a < out.len() && out[a].0 == old_raw[j].0;
            assert(nout[a].0 == new_raw[j].0);
        } else {
            assert(nout[p].0 == new_raw[j].0);
        }
    }
}

proof fn lemma_site_insert(raw: Seq<(Seq<char>, u32, u32)>, i: int, out: Seq<(Seq<char>, u32, u32)>, p: int)
    requires
        0 <= i < raw.len(),
        sites_chosen(raw.take(i), out),
        0 <= p <= out.len(),
        forall|a: int| 0 <= a < p ==> path_lt(#[trigger] out[a].0, raw[i].0),
        p < out.len() ==> path_lt(raw[i].0, out[p].0),
    ensures
        sites_chosen(raw.take(i + 1), out.insert(p, raw[i])),
{
    let old_raw = raw.take(i);
    let new_raw = raw.take(i + 1);
    let s = raw[i];
    let nout = out.insert(p, s);
    assert forall|a: int| 0 <= a < out.len() implies #[trigger] out[a].0 != s.0 && (a >= p ==> path_lt(s.0, out[a].0)) by {
        if a < p {
            assert(path_lt(out[a].0, s.0));
            if out[a].0 == s.0 {
                lemma_path_lt_irreflexive(s.0);
            }
        } else {
            if a > p {
                assert(path_lt(out[p].0, out[a].0));
                lemma_path_lt_transitive(s.0, out[p].0, out[a].0);
            }
            if out[a].0 == s.0 {
                lemma_path_lt_irreflexive(s.0);
            }
        }
    }
    assert forall|a: int, b: int| 0 <= a < b < nout.len() implies path_lt(#[trigger] nout[a].0, #[trigger] nout[b].0) by {
        if b < p {
            assert(path_lt(out[a].0, out[b].0));
        } else if b == p {
            assert(nout[b] == s);
        } else if a < p {
            assert(nout[b] == out[b - 1]);
            assert(path_lt(out[a].0, s.0));
            assert(out[b - 1].0 != s.0);
            lemma_path_lt_transitive(out[a].0, s.0, out[b - 1].0);
        } else if a == p {
            assert(nout[b] == out[b - 1]);
            assert(out[b - 1].0 != s.0);
        } else {
            assert(path_lt(out[a - 1].0, out[b - 1].0));
        }
    }
    assert forall|a: int| 0 <= a < nout.len() implies #[trigger] is_best(new_raw, nout[a]) by {
        if a == p {
            assert forall|j: int| #![trigger new_raw[j]] 0 <= j < new_raw.len() && new_raw[j].0 == new_raw[i].0 implies new_raw[i].1
                < new_raw[j].1 || (new_raw[i].1 == new_raw[j].1 && i <= j) by {
                if j < i {
                    assert(old_raw[j] == new_raw[j]);
                    assert(has_file(out, old_raw[j].0));
                    let a2 = choose|a2: int| 0 <= a2 < out.len() && out[a2].0 == old_raw[j].0;
                    assert(out[a2].0 != s.0);
                }
            }
            assert(best_site(new_raw, i));
            assert(new_raw[i] == nout[a]);
        } else {
            let oa = if a < p { a } else { a - 1 };
            assert(nout[a] == out[oa]);
            assert(is_best(old_raw, out[oa]));
            let k = choose|k: int| best_site(old_raw, k) && old_raw[k] == out[oa];
            assert(out[oa].0 != s.0);
            assert(old_raw[k] == raw[k]);
            lemma_best_extends(raw, i, k);
            assert(new_raw[k] == nout[a]);
        }
    }
    assert forall|j: int| 0 <= j < new_raw.len() implies #[trigger] has_file(nout, new_raw[j].0) by {
        if j < i {
            assert(old_raw[j] == new_raw[j]);
            assert(has_file(out, old_raw[j].0));
            let a = choose|a: int| 0 <= a < out.len() && out[a].0 == old_raw[j].0;
            if a < p {
                assert(nout[a] == out[a]);
            } else {
                assert(nout[a + 1] == out[a]);
            }
        } else {
            assert(nout[p].0 == new_raw[j].0);
        }
    }
}

/// Sort the sites by file and line and keep the first of each file.
pub fn choose_sites(raw: &Vec<ImportSite>) -> (out: Vec<ImportSite>)
    ensures
        sites_chosen(site_views(raw@), site_views(out@)),
{
    let ghost rv = site_views(raw@);
    let mut out: Vec<ImportSite> = Vec::new();
    let mut i: usize = 0;
    assert(sites_chosen(rv.take(0), site_views(out@)));
    while i < raw.len()
        invariant
            i <= raw@.len(),
            rv == site_views(raw@),
            sites_chosen(rv.take(i as int), site_views(out@)),
        decreases raw.len() - i,
    {
        let s = &raw[i];
        let sp = crate::text::str_chars(s.path.as_str());
        let ghost ov = site_views(out@);
        assert(rv[i as int] == site_view(*s));
        let mut p: usize = 0;
        while p < out.len() && path_less(&crate::text::str_chars(out[p].path.as_str()), &sp)
            invariant
                p <= out@.len(),
                ov == site_views(out@),
                sp@ == s.path@,
                forall|a: int| 0 <= a < p ==> path_lt(#[trigger] ov[a].0, s.path@),
            decreases out.len() - p,
        {
            p = p + 1;
        }
        if p < out.len() && string_eq(&out[p].path, &s.path) {
            if s.line < out[p].line {
                proof { lemma_site_replace(rv, i as int, ov, p as int); }
                out.set(p, ImportSite { path: copy_string(&s.path), line: s.line, col: s.col });
                assert(site_views(out@) =~= ov.update(p as int, rv[i as int]));
            } else {
                proof { lemma_site_keep(rv, i as int, ov, p as int); }
            }
        } else {
            proof {
                if p < ov.len() {
                    lemma_path_lt_total(ov[p as int].0, s.path@);
                }
                lemma_site_insert(rv, i as int, ov, p as int);
            }
            out.insert(p, ImportSite { path: copy_string(&s.path), line: s.line, col: s.col });
            assert(site_views(out@) =~= ov.insert(p as int, rv[i as int]));
        }
        i = i + 1;
    }
    assert(rv.take(rv.len() as int) =~= rv);
    out
}

// ---- unlisted dependencies ---------------------------------------------

/// A workspace package with the dependency names of its package.json, or
/// `None` when that file could not be read.
#[derive(Debug, Clone)]
pub struct WorkspaceDependencies {
    pub name: String,
    pub root: String,
    pub dependency_names: Option<Vec<String>>,
}

/// A package that files import without any package.json listing it.
#[derive(Debug, Clone)]
pub struct UnlistedDependency {
    pub package_name: String,
    pub imported_from: Vec<ImportSite>,
}

pub open spec fn listed_by_workspace(ws: Seq<WorkspaceDependencies>, d: Seq<char>) -> bool {
    exists|i: int|
        0 <= i < ws.len() && match #[trigger] ws[i].dependency_names {
            Some(v) => views(v@).contains(d),
            None => false,
        }
}

pub open spec fn is_workspace_name(ws: Seq<WorkspaceDependencies>, d: Seq<char>) -> bool {
    exists|i: int| 0 <= i < ws.len() && #[trigger] ws[i].name@ == d
}

/// Whether an imported package is never reported as unlisted: a Node.js
/// builtin, a path alias, a `virtual:` module, a workspace package, a
/// package that an active plugin provides, one under a plugin's virtual
/// prefix, or one that the root or a workspace lists.
pub open spec fn unlisted_exempt(
    listed: Seq<Seq<char>>,
    ws: Seq<WorkspaceDependencies>,
    tooling: Seq<Seq<char>>,
    prefixes: Seq<Seq<char>>,
    d: Seq<char>,
) -> bool {
    ||| crate::unused_deps::is_builtin_module_spec(d)
    ||| crate::unused_deps::is_path_alias_spec(d)
    ||| crate::unused_deps::is_virtual_module_spec(d)
    ||| is_workspace_name(ws, d)
    ||| tooling.contains(d)
    ||| has_prefix_in(prefixes, d)
    ||| listed.contains(d)
    ||| listed_by_workspace(ws, d)
}

/// The (file, package, offset) of each import of an npm package, file by file.
pub open spec fn module_npm_spans(id: FileId, imports: Seq<ResolvedImport>) -> Seq<(FileId, Seq<char>, u32)>
    decreases imports.len(),
{
    if imports.len() == 0 {
        seq![]
    } else {
        let prev = module_npm_spans(id, imports.drop_last());
        match imports.last().target {
            ResolveResult::NpmPackage(n) => prev.push((id, n@, imports.last().info.span.start)),
            _ => prev,
        }
    }
}

pub open spec fn npm_spans(rms: Seq<ResolvedModule>) -> Seq<(FileId, Seq<char>, u32)>
    decreases rms.len(),
{
    if rms.len() == 0 {
        seq![]
    } else {
        npm_spans(rms.drop_last()) + module_npm_spans(rms.last().file_id, rms.last().resolved_imports@)
    }
}

/// The offset of the first import of `name` in file `id`.
pub open spec fn first_offset(spans: Seq<(FileId, Seq<char>, u32)>, id: FileId, name: Seq<char>) -> Option<u32>
    decreases spans.len(),
{
    if spans.len() == 0 {
        None
    } else if spans[0].0 == id && spans[0].1 == name {
        Some(spans[0].2)
    } else {
        first_offset(spans.skip(1), id, name)
    }
}

/// Where file `id` imports `name`: the position of its first import of it,
/// (1, 0) when none is known.
pub open spec fn site_position(
    spans: Seq<(FileId, Seq<char>, u32)>,
    table: Seq<(FileId, Vec<u32>)>,
    id: FileId,
    name: Seq<char>,
) -> (u32, u32) {
    match first_offset(spans, id, name) {
        Some(o) => position_of(table, id, o),
        None => (1u32, 0u32),
    }
}

/// The import sites of a package, one for each of its importing files
/// that is a module of the graph, in order.
pub open spec fn raw_sites(
    ms: Seq<ModuleNode>,
    spans: Seq<(FileId, Seq<char>, u32)>,
    table: Seq<(FileId, Vec<u32>)>,
    ids: Seq<FileId>,
    name: Seq<char>,
) -> Seq<(Seq<char>, u32, u32)>
    decreases ids.len(),
{
    if ids.len() == 0 {
        seq![]
    } else {
        let prev = raw_sites(ms, spans, table, ids.drop_last(), name);
        let id = ids.last();
        if (id.0 as int) < ms.len() {
            let pos = site_position(spans, table, id, name);
            prev.push((ms[id.0 as int].path@, pos.0, pos.1))
        } else {
            prev
        }
    }
}

/// The packages reported as unlisted, with their importing files, in the
/// order of the graph's package usage.
pub open spec fn unlisted_packages(
    ms: Seq<ModuleNode>,
    usage: Seq<(String, Vec<FileId>)>,
    listed: Seq<Seq<char>>,
    ws: Seq<WorkspaceDependencies>,
    tooling: Seq<Seq<char>>,
    prefixes: Seq<Seq<char>>,
    spans: Seq<(FileId, Seq<char>, u32)>,
    table: Seq<(FileId, Vec<u32>)>,
) -> Seq<(Seq<char>, Seq<FileId>)>
    decreases usage.len(),
{
    if usage.len() == 0 {
        seq![]
    } else {
        let prev = unlisted_packages(ms, usage.drop_last(), listed, ws, tooling, prefixes, spans, table);
        let (n, ids) = usage.last();
        if !unlisted_exempt(listed, ws, tooling, prefixes, n@) && raw_sites(ms, spans, table, ids@, n@).len() > 0 {
            prev.push((n@, ids@))
        } else {
            prev
        }
    }
}

/// `r` lists the unlisted packages in the order of the graph's package
/// usage, each with its import sites chosen from its importing files.
pub open spec fn unlisted_result(
    graph: ModuleGraph,
    listed: Seq<Seq<char>>,
    workspaces: Seq<WorkspaceDependencies>,
    plugin_tooling: Seq<Seq<char>>,
    virtual_prefixes: Seq<Seq<char>>,
    resolved_modules: Seq<ResolvedModule>,
    line_offsets: Seq<(FileId, Vec<u32>)>,
    r: Seq<UnlistedDependency>,
) -> bool {
    let kept = unlisted_packages(
        graph.modules@,
        graph.package_usage@,
        listed,
        workspaces,
        plugin_tooling,
        virtual_prefixes,
        npm_spans(resolved_modules),
        line_offsets,
    );
    &&& r.len() == kept.len()
    &&& forall|k: int|
        0 <= k < r.len() ==> {
            &&& (#[trigger] r[k]).package_name@ == kept[k].0
            &&& sites_chosen(
                raw_sites(graph.modules@, npm_spans(resolved_modules), line_offsets, kept[k].1, kept[k].0),
                site_views(r[k].imported_from@),
            )
        }
}

fn npm_spans_exec(rms: &Vec<ResolvedModule>) -> (r: Vec<(FileId, String, u32)>)
    ensures
        r@.map_values(|t: (FileId, String, u32)| (t.0, t.1@, t.2)) == npm_spans(rms@),
{
    let mut r: Vec<(FileId, String, u32)> = Vec::new();
    let mut i: usize = 0;
    while i < rms.len()
        invariant
            i <= rms@.len(),
            r@.map_values(|t: (FileId, String, u32)| (t.0, t.1@, t.2)) == npm_spans(rms@.take(i as int)),
        decreases rms.len() - i,
    {
        assert(rms@.take(i + 1).drop_last() =~= rms@.take(i as int));
        let rm = &rms[i];
        let imports = &rm.resolved_imports;
        let ghost base = r@.map_values(|t: (FileId, String, u32)| (t.0, t.1@, t.2));
        let mut k: usize = 0;
        assert(module_npm_spans(rm.file_id, imports@.take(0)) =~= seq![]);
        while k < imports.len()
            invariant
                k <= imports@.len(),
                *imports == rm.resolved_imports,
                r@.map_values(|t: (FileId, String, u32)| (t.0, t.1@, t.2)) == base + module_npm_spans(rm.file_id, imports@.take(k as int)),
            decreases imports.len() - k,
        {
            assert(imports@.take(k + 1).drop_last() =~= imports@.take(k as int));
            match &imports[k].target {
                ResolveResult::NpmPackage(n) => {
                    let ghost before = r@;
                    r.push((rm.file_id, copy_string(n), imports[k].info.span.start));
                    assert(r@.map_values(|t: (FileId, String, u32)| (t.0, t.1@, t.2)) =~= before.map_values(
                        |t: (FileId, String, u32)| (t.0, t.1@, t.2),
                    ).push((rm.file_id, n@, imports@[k as int].info.span.start)));
                },
                _ => {},
            }
            k = k + 1;
        }
        assert(imports@.take(imports@.len() as int) =~= imports@);
        i = i + 1;
    }
    assert(rms@.take(rms@.len() as int) =~= rms@);
    r
}

fn first_offset_exec(spans: &Vec<(FileId, String, u32)>, id: FileId, name: &String) -> (r: Option<u32>)
    ensures
        r == first_offset(spans@.map_values(|t: (FileId, String, u32)| (t.0, t.1@, t.2)), id, name@),
{
    let ghost sv = spans@.map_values(|t: (FileId, String, u32)| (t.0, t.1@, t.2));
    let mut k: usize = 0;
    assert(sv.skip(0) =~= sv);
    while k < spans.len()
        invariant
            k <= spans@.len(),
            sv == spans@.map_values(|t: (FileId, String, u32)| (t.0, t.1@, t.2)),
            first_offset(sv, id, name@) == first_offset(sv.skip(k as int), id, name@),
        decreases spans.len() - k,
    {
        assert(sv.skip(k as int)[0] == sv[k as int]);
        assert(sv.skip(k as int).skip(1) =~= sv.skip(k + 1));
        if spans[k].0.0 == id.0 && string_eq(&spans[k].1, name) {
            return Some(spans[k].2);
        }
        k = k + 1;
    }
    None
}

fn unlisted_exempt_exec(
    name: &String,
    listed: &Vec<String>,
    ws: &Vec<WorkspaceDependencies>,
    tooling: &Vec<String>,
    prefixes: &Vec<String>,
) -> (r: bool)
    ensures
        r == unlisted_exempt(views(listed@), ws@, views(tooling@), views(prefixes@), name@),
{
    if crate::unused_deps::is_builtin_module(name.as_str()) || crate::unused_deps::is_path_alias(name.as_str())
        || crate::unused_deps::is_virtual_module(name.as_str()) {
        return true;
    }
    let mut i: usize = 0;
    while i < ws.len()
        invariant
            i <= ws@.len(),
            forall|q: int| 0 <= q < i ==> #[trigger] ws@[q].name@ != name@,
        decreases ws.len() - i,
    {
        if string_eq(&ws[i].name, name) {
            return true;
        }
        i = i + 1;
    }
    if lists_name(tooling, name) || has_prefix_in_exec(prefixes, name.as_str()) || lists_name(listed, name) {
        return true;
    }
    let mut i: usize = 0;
    while i < ws.len()
        invariant
            i <= ws@.len(),
            forall|q: int|
                0 <= q < i ==> !match #[trigger] ws@[q].dependency_names {
                    Some(v) => views(v@).contains(name@),
                    None => false,
                },
        decreases ws.len() - i,
    {
        match &ws[i].dependency_names {
            Some(v) => {
                if lists_name(v, name) {
                    return true;
                }
            },
            None => {},
        }
        i = i + 1;
    }
    false
}

/// Find dependencies used in imports but not listed in any package.json,
/// with the files that import them: for each file its first import of the
/// package, files in path order.
pub fn find_unlisted_dependencies(
    graph: &ModuleGraph,
    listed: &Vec<String>,
    workspaces: &Vec<WorkspaceDependencies>,
    plugin_tooling: &Vec<String>,
    virtual_prefixes: &Vec<String>,
    resolved_modules: &Vec<ResolvedModule>,
    line_offsets: &Vec<(FileId, Vec<u32>)>,
) -> (r: Vec<UnlistedDependency>)
    ensures
        unlisted_result(
            *graph,
            views(listed@),
            workspaces@,
            views(plugin_tooling@),
            views(virtual_prefixes@),
            resolved_modules@,
            line_offsets@,
            r@,
        ),
{
    let spans = npm_spans_exec(resolved_modules);
    let ghost sv = npm_spans(resolved_modules@);
    let ghost ms = graph.modules@;
    let usage = &graph.package_usage;
    let ghost un = |u: Seq<(String, Vec<FileId>)>|
        unlisted_packages(ms, u, views(listed@), workspaces@, views(plugin_tooling@), views(virtual_prefixes@), sv, line_offsets@);
    let mut r: Vec<UnlistedDependency> = Vec::new();
    let mut i: usize = 0;
    while i < usage.len()
        invariant
            i <= usage@.len(),
            *usage == graph.package_usage,
            ms == graph.modules@,
            sv == npm_spans(resolved_modules@),
            sv == spans@.map_values(|t: (FileId, String, u32)| (t.0, t.1@, t.2)),
            un == (|u: Seq<(String, Vec<FileId>)>|
                unlisted_packages(ms, u, views(listed@), workspaces@, views(plugin_tooling@), views(virtual_prefixes@), sv, line_offsets@)),
            r@.len() == un(usage@.take(i as int)).len(),
            forall|k: int|
                0 <= k < r@.len() ==> {
                    &&& (#[trigger] r@[k]).package_name@ == un(usage@.take(i as int))[k].0
                    &&& sites_chosen(
                        raw_sites(ms, sv, line_offsets@, un(usage@.take(i as int))[k].1, un(usage@.take(i as int))[k].0),
                        site_views(r@[k].imported_from@),
                    )
                },
        decreases usage.len() - i,
    {
        assert(usage@.take(i + 1).drop_last() =~= usage@.take(i as int));
        assert(usage@.take(i + 1).last() == usage@[i as int]);
        let name = &usage[i].0;
        let ids = &usage[i].1;
        if !unlisted_exempt_exec(name, listed, workspaces, plugin_tooling, virtual_prefixes) {
            let mut raw: Vec<ImportSite> = Vec::new();
            let mut q: usize = 0;
            assert(raw_sites(ms, sv, line_offsets@, ids@.take(0), name@) =~= seq![]);
            while q < ids.len()
                invariant
                    q <= ids@.len(),
                    ms == graph.modules@,
                    sv == spans@.map_values(|t: (FileId, String, u32)| (t.0, t.1@, t.2)),
                    site_views(raw@) == raw_sites(ms, sv, line_offsets@, ids@.take(q as int), name@),
                decreases ids.len() - q,
            {
                assert(ids@.take(q + 1).drop_last() =~= ids@.take(q as int));
                let id = ids[q];
                let idx = id.0 as usize;
                if idx < graph.modules.len() {
                    let pos = match first_offset_exec(&spans, id, name) {
                        Some(o) => byte_offset_to_line_col(line_offsets, id, o),
                        None => (1, 0),
                    };
                    let site = ImportSite { path: copy_string(&graph.modules[idx].path), line: pos.0, col: pos.1 };
                    let ghost before = raw@;
                    raw.push(site);
                    assert(site_views(raw@) =~= site_views(before).push(site_view(site)));
                }
                q = q + 1;
            }
            assert(ids@.take(ids@.len() as int) =~= ids@);
            if raw.len() > 0 {
                let sites = choose_sites(&raw);
                let ghost before = r@;
                r.push(UnlistedDependency { package_name: copy_string(name), imported_from: sites });
                assert(un(usage@.take(i + 1)) == un(usage@.take(i as int)).push((name@, ids@)));
                assert forall|k: int| 0 <= k < r@.len() implies {
                    &&& (#[trigger] r@[k]).package_name@ == un(usage@.take(i + 1))[k].0
                    &&& sites_chosen(
                        raw_sites(ms, sv, line_offsets@, un(usage@.take(i + 1))[k].1, un(usage@.take(i + 1))[k].0),
                        site_views(r@[k].imported_from@),
                    )
                } by {
                    if k < before.len() {
                        assert(r@[k] == before[k]);
                    }
                }
            } else {
                assert(un(usage@.take(i + 1)) == un(usage@.take(i as int)));
            }
        } else {
            assert(un(usage@.take(i + 1)) == un(usage@.take(i as int)));
        }
        i = i + 1;
    }
    assert(usage@.take(usage@.len() as int) =~= usage@);
    r
}

// ---- duplicate exports -------------------------------------------------

/// A name exported by more than one file.
#[derive(Debug, Clone)]
pub struct DuplicateExport {
    pub export_name: String,
    pub locations: Vec<String>,
}

/// The (name, file) of each named export of one module.
pub open spec fn module_export_locations(path: Seq<char>, es: Seq<ExportSymbol>) -> Seq<(Seq<char>, Seq<char>)>
    decreases es.len(),
{
    if es.len() == 0 {
        seq![]
    } else {
        let prev = module_export_locations(path, es.drop_last());
        match es.last().name {
            ExportName::Named(n) => prev.push((n@, path)),
            ExportName::Default => prev,
        }
    }
}

/// The (name, file) of each named export of the reachable modules that are
/// no entry points, in order.
pub open spec fn export_locations(ms: Seq<ModuleNode>) -> Seq<(Seq<char>, Seq<char>)>
    decreases ms.len(),
{
    if ms.len() == 0 {
        seq![]
    } else {
        let m = ms.last();
        if m.is_reachable && !m.is_entry_point {
            export_locations(ms.drop_last()) + module_export_locations(m.path@, m.exports@)
        } else {
            export_locations(ms.drop_last())
        }
    }
}

pub open spec fn location_names(pairs: Seq<(Seq<char>, Seq<char>)>) -> Seq<Seq<char>> {
    pairs.map_values(|p: (Seq<char>, Seq<char>)| p.0)
}

/// The files that export `name`, in order, once per export.
pub open spec fn locations_of(pairs: Seq<(Seq<char>, Seq<char>)>, name: Seq<char>) -> Seq<Seq<char>>
    decreases pairs.len(),
{
    if pairs.len() == 0 {
        seq![]
    } else {
        let prev = locations_of(pairs.drop_last(), name);
        if pairs.last().0 == name { prev.push(pairs.last().1) } else { prev }
    }
}

/// The names of `names` exported more than once, in order.
pub open spec fn duplicated(pairs: Seq<(Seq<char>, Seq<char>)>, names: Seq<Seq<char>>) -> Seq<Seq<char>>
    decreases names.len(),
{
    if names.len() == 0 {
        seq![]
    } else {
        let prev = duplicated(pairs, names.drop_last());
        if locations_of(pairs, names.last()).len() > 1 { prev.push(names.last()) } else { prev }
    }
}

/// The names exported more than once, in order of their first export.
pub open spec fn duplicate_names(pairs: Seq<(Seq<char>, Seq<char>)>) -> Seq<Seq<char>> {
    duplicated(pairs, crate::graph::first_appearances(location_names(pairs)))
}

proof fn lemma_locations_absent(pairs: Seq<(Seq<char>, Seq<char>)>, name: Seq<char>)
    requires
        !location_names(pairs).contains(name),
    ensures
        locations_of(pairs, name) == Seq::<Seq<char>>::empty(),
    decreases pairs.len(),
{
    if pairs.len() > 0 {
        let d = pairs.drop_last();
        assert(location_names(d) =~= location_names(pairs).drop_last());
        if location_names(d).contains(name) {
            let k = choose|k: int| 0 <= k < location_names(d).len() && location_names(d)[k] == name;
            assert(location_names(pairs)[k] == name);
        }
        assert(location_names(pairs)[pairs.len() - 1] == pairs.last().0);
        lemma_locations_absent(d, name);
    }
}

fn export_locations_exec(ms: &Vec<ModuleNode>) -> (r: Vec<(String, String)>)
    ensures
        r@.map_values(|p: (String, String)| (p.0@, p.1@)) == export_locations(ms@),
{
    let mut r: Vec<(String, String)> = Vec::new();
    let mut i: usize = 0;
    while i < ms.len()
        invariant
            i <= ms@.len(),
            r@.map_values(|p: (String, String)| (p.0@, p.1@)) == export_locations(ms@.take(i as int)),
        decreases ms.len() - i,
    {
        assert(ms@.take(i + 1).drop_last() =~= ms@.take(i as int));
        let m = &ms[i];
        if m.is_reachable && !m.is_entry_point {
            let es = &m.exports;
            let ghost base = r@.map_values(|p: (String, String)| (p.0@, p.1@));
            let mut k: usize = 0;
            assert(module_export_locations(m.path@, es@.take(0)) =~= seq![]);
            while k < es.len()
                invariant
                    k <= es@.len(),
                    *es == m.exports,
                    r@.map_values(|p: (String, String)| (p.0@, p.1@)) == base + module_export_locations(m.path@, es@.take(k as int)),
                decreases es.len() - k,
            {
                assert(es@.take(k + 1).drop_last() =~= es@.take(k as int));
                match &es[k].name {
                    ExportName::Named(n) => {
                        let ghost before = r@;
                        r.push((copy_string(n), copy_string(&m.path)));
                        assert(r@.map_values(|p: (String, String)| (p.0@, p.1@)) =~= before.map_values(
                            |p: (String, String)| (p.0@, p.1@),
                        ).push((n@, m.path@)));
                    },
                    ExportName::Default => {},
                }
                k = k + 1;
            }
            assert(es@.take(es@.len() as int) =~= es@);
        }
        i = i + 1;
    }
    assert(ms@.take(ms@.len() as int) =~= ms@);
    r
}

proof fn lemma_module_export_locations_path(path: Seq<char>, es: Seq<ExportSymbol>)
    ensures
        forall|k: int|
            0 <= k < module_export_locations(path, es).len() ==> (#[trigger] module_export_locations(path, es)[k]).1 == path,
    decreases es.len(),
{
    if es.len() > 0 {
        lemma_module_export_locations_path(path, es.drop_last());
        let prev = module_export_locations(path, es.drop_last());
        let all = module_export_locations(path, es);
        assert forall|k: int| 0 <= k < all.len() implies (#[trigger] all[k]).1 == path by {
            if k < prev.len() {
                assert(all[k] == prev[k]);
            }
        }
    }
}

/// Every export location lies in a module that is reachable and no entry
/// point.
pub proof fn lemma_export_locations_in_examined_modules(ms: Seq<ModuleNode>)
    ensures
        forall|k: int| 0 <= k < export_locations(ms).len() ==> in_examined_module(ms, (#[trigger] export_locations(ms)[k]).1),
    decreases ms.len(),
{
    if ms.len() > 0 {
        let d = ms.drop_last();
        let m = ms.last();
        lemma_export_locations_in_examined_modules(d);
        let prev = export_locations(d);
        let all = export_locations(ms);
        let here = module_export_locations(m.path@, m.exports@);
        lemma_module_export_locations_path(m.path@, m.exports@);
        if m.is_reachable && !m.is_entry_point {
            assert(all == prev + here);
        } else {
            assert(all == prev);
        }
        assert forall|k: int| 0 <= k < all.len() implies in_examined_module(ms, (#[trigger] all[k]).1) by {
            if k < prev.len() {
                assert(all[k] == prev[k]);
                lemma_in_examined_module_grows(ms, prev[k].1);
            } else {
                assert(all[k] == here[k - prev.len()]);
                assert(ms[ms.len() - 1] == m);
            }
        }
    }
}

proof fn lemma_locations_of_listed(pairs: Seq<(Seq<char>, Seq<char>)>, name: Seq<char>)
    ensures
        forall|j: int|
            0 <= j < locations_of(pairs, name).len() ==> exists|k: int|
                0 <= k < pairs.len() && (#[trigger] pairs[k]).1 == (#[trigger] locations_of(pairs, name)[j]),
    decreases pairs.len(),
{
    if pairs.len() > 0 {
        let d = pairs.drop_last();
        lemma_locations_of_listed(d, name);
        let prev = locations_of(d, name);
        let all = locations_of(pairs, name);
        assert forall|j: int| 0 <= j < all.len() implies exists|k: int|
            0 <= k < pairs.len() && (#[trigger] pairs[k]).1 == (#[trigger] all[j]) by {
            if j < prev.len() {
                assert(all[j] == prev[j]);
                let k = choose|k: int| 0 <= k < d.len() && (#[trigger] d[k]).1 == prev[j];
                assert(pairs[k] == d[k]);
            } else {
                assert(pairs[pairs.len() - 1].1 == all[j]);
            }
        }
    }
}

/// Every location listed for a duplicate export is the path of a module of
/// the graph that is reachable and no entry point: entry points take no
/// part in duplicates.
pub proof fn lemma_duplicate_locations_in_examined_modules(g: ModuleGraph, r: Seq<DuplicateExport>)
    requires
        duplicates_result(g, r),
    ensures
        forall|k: int, j: int|
            0 <= k < r.len() && 0 <= j < r[k].locations@.len() ==> in_examined_module(
                g.modules@,
                (#[trigger] r[k].locations@[j])@,
            ),
{
    let ms = g.modules@;
    let pairs = export_locations(ms);
    lemma_export_locations_in_examined_modules(ms);
    assert forall|k: int, j: int| 0 <= k < r.len() && 0 <= j < r[k].locations@.len() implies in_examined_module(
        ms,
        (#[trigger] r[k].locations@[j])@,
    ) by {
        let name = r[k].export_name@;
        lemma_locations_of_listed(pairs, name);
        assert(views(r[k].locations@) == locations_of(pairs, name));
        assert(views(r[k].locations@)[j] == r[k].locations@[j]@);
        let q = choose|q: int| 0 <= q < pairs.len() && (#[trigger] pairs[q]).1 == locations_of(pairs, name)[j];
        assert(in_examined_module(ms, pairs[q].1));
    }
}

/// Adding an entry-point module to the modules adds no export location.
pub proof fn lemma_entry_point_adds_no_export_location(ms: Seq<ModuleNode>, m: ModuleNode)
    requires
        m.is_entry_point,
    ensures
        export_locations(ms.push(m)) == export_locations(ms),
{
    assert(ms.push(m).drop_last() =~= ms);
    assert(ms.push(m).last() == m);
}

/// Find exports that appear with the same name in several files (default
/// exports aside), with the files in order, once per export; names in
/// order of their first export.
pub fn find_duplicate_exports(graph: &ModuleGraph) -> (r: Vec<DuplicateExport>)
    ensures
        r@.len() == duplicate_names(export_locations(graph.modules@)).len(),
        forall|k: int|
            0 <= k < r@.len() ==> (#[trigger] r@[k]).export_name@ == duplicate_names(export_locations(graph.modules@))[k]
                && views(r@[k].locations@) == locations_of(export_locations(graph.modules@), r@[k].export_name@),
{
    let pairs = export_locations_exec(&graph.modules);
    let ghost pv = export_locations(graph.modules@);
    let mut names: Vec<String> = Vec::new();
    let mut locs: Vec<Vec<String>> = Vec::new();
    let mut i: usize = 0;
    while i < pairs.len()
        invariant
            i <= pairs@.len(),
            pv == pairs@.map_values(|p: (String, String)| (p.0@, p.1@)),
            names@.len() == locs@.len(),
            views(names@) == crate::graph::first_appearances(location_names(pv.take(i as int))),
            forall|g: int| 0 <= g < locs@.len() ==> views(#[trigger] locs@[g]@) == locations_of(pv.take(i as int), names@[g]@),
        decreases pairs.len() - i,
    {
        let ghost t = pv.take(i as int);
        let ghost t2 = pv.take(i + 1);
        assert(t2.drop_last() =~= t);
        assert(location_names(t2).drop_last() =~= location_names(t));
        assert(location_names(t2).last() == pairs@[i as int].0@);
        proof { crate::graph::lemma_first_appearances(location_names(t)); }
        let name = &pairs[i].0;
        let path = &pairs[i].1;
        let ghost fa = views(names@);
        let mut g: usize = 0;
        while g < names.len() && !string_eq(&names[g], name)
            invariant
                g <= names@.len(),
                fa == views(names@),
                forall|q: int| 0 <= q < g ==> fa[q] != name@,
            decreases names.len() - g,
        {
            g = g + 1;
        }
        let ghost old_locs = locs@;
        if g < names.len() {
            assert(fa[g as int] == name@);
            assert(fa.contains(name@));
            let mut entry: Vec<String> = Vec::new();
            locs.set_and_swap(g, &mut entry);
            entry.push(copy_string(path));
            locs.set(g, entry);
            assert forall|q: int| 0 <= q < locs@.len() implies views(#[trigger] locs@[q]@) == locations_of(t2, names@[q]@) by {
                if q != g {
                    assert(locs@[q] == old_locs[q]);
                    assert(fa[q] != fa[g as int]);
                } else {
                    assert(views(entry@) =~= views(old_locs[q]@).push(path@));
                }
            }
        } else {
            assert(!fa.contains(name@)) by {
                if fa.contains(name@) {
                    let q = choose|q: int| 0 <= q < fa.len() && fa[q] == name@;
                }
            }
            assert(!location_names(t).contains(name@)) by {
                if location_names(t).contains(name@) {
                    assert(location_names(t).to_set().contains(name@));
                    assert(fa.to_set().contains(name@));
                }
            }
            proof { lemma_locations_absent(t, name@); }
            let ghost before = names@;
            names.push(copy_string(name));
            let mut one: Vec<String> = Vec::new();
            one.push(copy_string(path));
            locs.push(one);
            assert(views(names@) =~= fa.push(name@));
            assert forall|q: int| 0 <= q < locs@.len() implies views(#[trigger] locs@[q]@) == locations_of(t2, names@[q]@) by {
                if q < old_locs.len() {
                    assert(locs@[q] == old_locs[q]);
                    assert(names@[q] == before[q]);
                    assert(fa[q] != name@);
                } else {
                    assert(views(one@) =~= seq![path@]);
                }
            }
        }
        i = i + 1;
    }
    assert(pv.take(pv.len() as int) =~= pv);
    let ghost all = views(names@);
    let mut r: Vec<DuplicateExport> = Vec::new();
    let mut k: usize = 0;
    while k < names.len()
        invariant
            k <= names@.len(),
            names@.len() == locs@.len(),
            all == views(names@),
            all == crate::graph::first_appearances(location_names(pv)),
            forall|g: int| 0 <= g < locs@.len() ==> views(#[trigger] locs@[g]@) == locations_of(pv, names@[g]@),
            r@.len() == duplicated(pv, all.take(k as int)).len(),
            forall|q: int|
                0 <= q < r@.len() ==> (#[trigger] r@[q]).export_name@ == duplicated(pv, all.take(k as int))[q]
                    && views(r@[q].locations@) == locations_of(pv, r@[q].export_name@),
        decreases names.len() - k,
    {
        assert(all.take(k + 1).drop_last() =~= all.take(k as int));
        assert(all.take(k + 1).last() == names@[k as int]@);
        assert(views(locs@[k as int]@) == locations_of(pv, names@[k as int]@));
        assert(views(locs@[k as int]@).len() == locs@[k as int]@.len());
        if locs[k].len() > 1 {
            let mut copied: Vec<String> = Vec::new();
            let mut q: usize = 0;
            while q < locs[k].len()
                invariant
                    q <= locs@[k as int]@.len(),
                    k < locs@.len(),
                    views(copied@) == views(locs@[k as int]@.take(q as int)),
                decreases locs@[k as int]@.len() - q,
            {
                let ghost before = copied@;
                copied.push(copy_string(&locs[k][q]));
                assert(views(copied@) =~= views(before).push(locs@[k as int]@[q as int]@));
                assert(views(locs@[k as int]@.take(q + 1)) =~= views(locs@[k as int]@.take(q as int)).push(locs@[k as int]@[q as int]@));
                q = q + 1;
            }
            assert(locs@[k as int]@.take(locs@[k as int]@.len() as int) =~= locs@[k as int]@);
            let ghost before = r@;
            r.push(DuplicateExport { export_name: copy_string(&names[k]), locations: copied });
            assert forall|q: int|
                0 <= q < r@.len() implies (#[trigger] r@[q]).export_name@ == duplicated(pv, all.take(k + 1))[q]
                    && views(r@[q].locations@) == locations_of(pv, r@[q].export_name@) by {
                if q < before.len() {
                    assert(r@[q] == before[q]);
                }
            }
        }
        k = k + 1;
    }
    assert(all.take(all.len() as int) =~= all);
    r
}

// ---- all findings ------------------------------------------------------

/// What the dependency findings read of the project's package.json files.
#[derive(Debug, Clone)]
pub struct PackageInputs {
    pub context: DependencyContext,
    pub root: Manifest,
    pub workspace_manifests: Vec<WorkspaceManifest>,
    /// Every dependency name of the root package.json, of all sections.
    pub listed: Vec<String>,
    pub workspaces: Vec<WorkspaceDependencies>,
}

/// The findings of one analysis.
#[derive(Debug, Clone)]
pub struct AnalysisResults {
    pub unused_files: Vec<UnusedFile>,
    pub unused_exports: Vec<UnusedExport>,
    pub unused_types: Vec<UnusedExport>,
    pub unused_enum_members: Vec<UnusedMember>,
    pub unused_class_members: Vec<UnusedMember>,
    pub unused_dependencies: Vec<UnusedDependency>,
    pub unused_dev_dependencies: Vec<UnusedDependency>,
    pub unused_optional_dependencies: Vec<UnusedDependency>,
    pub unlisted_dependencies: Vec<UnlistedDependency>,
    pub unresolved_imports: Vec<UnresolvedImport>,
    pub duplicate_exports: Vec<DuplicateExport>,
}

/// The duplicate-export findings of a graph.
pub open spec fn duplicates_result(graph: ModuleGraph, r: Seq<DuplicateExport>) -> bool {
    &&& r.len() == duplicate_names(export_locations(graph.modules@)).len()
    &&& forall|k: int|
        0 <= k < r.len() ==> (#[trigger] r[k]).export_name@ == duplicate_names(export_locations(graph.modules@))[k]
            && views(r[k].locations@) == locations_of(export_locations(graph.modules@), r[k].export_name@)
}

/// What a dead-code run finds, kind by kind: the findings over the graph,
/// those over the imports as resolved, and, when the package.json files
/// were read, those about dependencies; nothing of a kind not enabled.
pub open spec fn dead_code_found(
    graph: ModuleGraph,
    config: AnalysisConfig,
    resolved_modules: Seq<ResolvedModule>,
    package: Option<PackageInputs>,
    suppressions: Seq<(FileId, Vec<Suppression>)>,
    virtual_prefixes: Seq<Seq<char>>,
    line_offsets: Seq<(FileId, Vec<u32>)>,
    r: AnalysisResults,
) -> bool {
    &&& config.detect.unused_files ==> file_paths(r.unused_files@) == unused_file_paths(graph.modules@)
    &&& !config.detect.unused_files ==> r.unused_files@.len() == 0
    &&& config.detect.unused_exports ==> export_views(r.unused_exports@) == unused_export_reports(graph, config, graph.modules@, false)
    &&& !config.detect.unused_exports ==> r.unused_exports@.len() == 0
    &&& config.detect.unused_types ==> export_views(r.unused_types@) == unused_export_reports(graph, config, graph.modules@, true)
    &&& !config.detect.unused_types ==> r.unused_types@.len() == 0
    &&& config.detect.unused_enum_members ==> member_views(r.unused_enum_members@) == unused_member_reports(
        graph,
        resolved_modules,
        views(config.used_class_members@),
        suppressions,
        line_offsets,
        graph.modules@,
        true,
    )
    &&& !config.detect.unused_enum_members ==> r.unused_enum_members@.len() == 0
    &&& config.detect.unused_class_members ==> member_views(r.unused_class_members@) == unused_member_reports(
        graph,
        resolved_modules,
        views(config.used_class_members@),
        suppressions,
        line_offsets,
        graph.modules@,
        false,
    )
    &&& !config.detect.unused_class_members ==> r.unused_class_members@.len() == 0
    &&& match package {
        Some(p) => {
            &&& config.detect.unused_dependencies ==> reports_view(r.unused_dependencies@) == unused_reports(
                p.context,
                p.root,
                p.workspace_manifests@,
                DependencyLocation::Dependencies,
            )
            &&& config.detect.unused_dev_dependencies ==> reports_view(r.unused_dev_dependencies@) == unused_reports(
                p.context,
                p.root,
                p.workspace_manifests@,
                DependencyLocation::DevDependencies,
            )
            &&& config.detect.unused_optional_dependencies ==> reports_view(r.unused_optional_dependencies@)
                == unused_reports(p.context, p.root, p.workspace_manifests@, DependencyLocation::OptionalDependencies)
            &&& config.detect.unlisted_dependencies ==> unlisted_result(
                graph,
                views(p.listed@),
                p.workspaces@,
                views(p.context.plugin_tooling@),
                virtual_prefixes,
                resolved_modules,
                line_offsets,
                r.unlisted_dependencies@,
            )
        },
        None => true,
    }
    &&& (package is None || !config.detect.unused_dependencies) ==> r.unused_dependencies@.len() == 0
    &&& (package is None || !config.detect.unused_dev_dependencies) ==> r.unused_dev_dependencies@.len() == 0
    &&& (package is None || !config.detect.unused_optional_dependencies) ==> r.unused_optional_dependencies@.len() == 0
    &&& (package is None || !config.detect.unlisted_dependencies) ==> r.unlisted_dependencies@.len() == 0
    &&& config.detect.unresolved_imports && resolved_modules.len() > 0 ==> unresolved_views(r.unresolved_imports@)
        == unresolved_reports(resolved_modules, suppressions, virtual_prefixes, line_offsets)
    &&& !(config.detect.unresolved_imports && resolved_modules.len() > 0) ==> r.unresolved_imports@.len() == 0
    &&& config.detect.duplicate_exports ==> duplicates_result(graph, r.duplicate_exports@)
    &&& !config.detect.duplicate_exports ==> r.duplicate_exports@.len() == 0
}

/// Find all dead code of the enabled kinds: the findings over the graph,
/// those over the imports as resolved, and, when the package.json files
/// were read, those about dependencies.
pub fn find_dead_code_with_resolved(
    graph: &ModuleGraph,
    config: &AnalysisConfig,
    resolved_modules: &Vec<ResolvedModule>,
    package: &Option<PackageInputs>,
    suppressions: &Vec<(FileId, Vec<Suppression>)>,
    virtual_prefixes: &Vec<String>,
    line_offsets: &Vec<(FileId, Vec<u32>)>,
) -> (r: AnalysisResults)
    ensures
        dead_code_found(*graph, *config, resolved_modules@, *package, suppressions@, views(virtual_prefixes@), line_offsets@, r),
{
    let detect = config.detect;
    let mut results = AnalysisResults {
        unused_files: Vec::new(),
        unused_exports: Vec::new(),
        unused_types: Vec::new(),
        unused_enum_members: Vec::new(),
        unused_class_members: Vec::new(),
        unused_dependencies: Vec::new(),
        unused_dev_dependencies: Vec::new(),
        unused_optional_dependencies: Vec::new(),
        unlisted_dependencies: Vec::new(),
        unresolved_imports: Vec::new(),
        duplicate_exports: Vec::new(),
    };
    if detect.unused_files {
        results.unused_files = find_unused_files(graph);
    }
    if detect.unused_exports || detect.unused_types {
        let (exports, types) = find_unused_exports(graph, config);
        if detect.unused_exports {
            results.unused_exports = exports;
        }
        if detect.unused_types {
            results.unused_types = types;
        }
    }
    if detect.unused_enum_members || detect.unused_class_members {
        let (enum_members, class_members) = find_unused_members(
            graph,
            resolved_modules,
            suppressions,
            line_offsets,
            &config.used_class_members,
        );
        if detect.unused_enum_members {
            results.unused_enum_members = enum_members;
        }
        if detect.unused_class_members {
            results.unused_class_members = class_members;
        }
    }
    match package {
        Some(p) => {
            if detect.unused_dependencies || detect.unused_dev_dependencies || detect.unused_optional_dependencies {
                let (deps, dev_deps, optional_deps) = find_unused_dependencies(&p.context, &p.root, &p.workspace_manifests);
                if detect.unused_dependencies {
                    results.unused_dependencies = deps;
                }
                if detect.unused_dev_dependencies {
                    results.unused_dev_dependencies = dev_deps;
                }
                if detect.unused_optional_dependencies {
                    results.unused_optional_dependencies = optional_deps;
                }
            }
            if detect.unlisted_dependencies {
                results.unlisted_dependencies = find_unlisted_dependencies(
                    graph,
                    &p.listed,
                    &p.workspaces,
                    &p.context.plugin_tooling,
                    virtual_prefixes,
                    resolved_modules,
                    line_offsets,
                );
            }
        },
        None => {},
    }
    if detect.unresolved_imports && resolved_modules.len() > 0 {
        results.unresolved_imports = find_unresolved_imports(resolved_modules, suppressions, virtual_prefixes, line_offsets);
    }
    if detect.duplicate_exports {
        results.duplicate_exports = find_duplicate_exports(graph);
    }
    results
}

/// Find all dead code, without resolved-import data: no member is then
/// accessed and no import reported as unresolved.
pub fn find_dead_code(graph: &ModuleGraph, config: &AnalysisConfig, package: &Option<PackageInputs>) -> (r: AnalysisResults)
    ensures
        config.detect.unused_files ==> file_paths(r.unused_files@) == unused_file_paths(graph.modules@),
        config.detect.unused_exports ==> export_views(r.unused_exports@) == unused_export_reports(*graph, *config, graph.modules@, false),
        config.detect.unused_types ==> export_views(r.unused_types@) == unused_export_reports(*graph, *config, graph.modules@, true),
        config.detect.unused_enum_members ==> member_views(r.unused_enum_members@) == unused_member_reports(
            *graph,
            Seq::empty(),
            views(config.used_class_members@),
            Seq::empty(),
            Seq::empty(),
            graph.modules@,
            true,
        ),
        config.detect.unused_class_members ==> member_views(r.unused_class_members@) == unused_member_reports(
            *graph,
            Seq::empty(),
            views(config.used_class_members@),
            Seq::empty(),
            Seq::empty(),
            graph.modules@,
            false,
        ),
        r.unresolved_imports@.len() == 0,
        config.detect.duplicate_exports ==> duplicates_result(*graph, r.duplicate_exports@),
        match *package {
            Some(p) => {
                &&& config.detect.unused_dependencies ==> reports_view(r.unused_dependencies@) == unused_reports(
                    p.context,
                    p.root,
                    p.workspace_manifests@,
                    DependencyLocation::Dependencies,
                )
                &&& config.detect.unused_dev_dependencies ==> reports_view(r.unused_dev_dependencies@) == unused_reports(
                    p.context,
                    p.root,
                    p.workspace_manifests@,
                    DependencyLocation::DevDependencies,
                )
                &&& config.detect.unlisted_dependencies ==> unlisted_result(
                    *graph,
                    views(p.listed@),
                    p.workspaces@,
                    views(p.context.plugin_tooling@),
                    Seq::empty(),
                    Seq::empty(),
                    Seq::empty(),
                    r.unlisted_dependencies@,
                )
            },
            None => true,
        },
{
    let none: Vec<ResolvedModule> = Vec::new();
    let no_supps: Vec<(FileId, Vec<Suppression>)> = Vec::new();
    let no_prefixes: Vec<String> = Vec::new();
    let no_offsets: Vec<(FileId, Vec<u32>)> = Vec::new();
    assert(none@ =~= Seq::<ResolvedModule>::empty());
    assert(no_supps@ =~= Seq::<(FileId, Vec<Suppression>)>::empty());
    assert(no_offsets@ =~= Seq::<(FileId, Vec<u32>)>::empty());
    assert(views(no_prefixes@) =~= Seq::empty());
    find_dead_code_with_resolved(graph, config, &none, package, &no_supps, &no_prefixes, &no_offsets)
}

// ---- laws --------------------------------------------------------------

/// Each path reported as an unused file is the path of a module that is
/// neither reachable nor an entry point.
proof fn lemma_unused_file_source(ms: Seq<ModuleNode>, p: Seq<char>)
    requires
        unused_file_paths(ms).contains(p),
    ensures
        exists|k: int| 0 <= k < ms.len() && (#[trigger] ms[k]).path@ == p && !ms[k].is_reachable && !ms[k].is_entry_point,
    decreases ms.len(),
{
    let d = ms.drop_last();
    let prev = unused_file_paths(d);
    if prev.contains(p) {
        lemma_unused_file_source(d, p);
        let k = choose|k: int| 0 <= k < d.len() && (#[trigger] d[k]).path@ == p && !d[k].is_reachable && !d[k].is_entry_point;
        assert(ms[k] == d[k]);
    } else {
        let m = ms.last();
        if !m.is_reachable && !m.is_entry_point {
            let u = unused_file_paths(ms);
            let j = choose|j: int| 0 <= j < u.len() && u[j] == p;
            if j < prev.len() {
                assert(u[j] == prev[j]);
            }
            assert(ms[ms.len() - 1] == m);
        } else {
            assert(unused_file_paths(ms) == prev);
        }
    }
}

/// No file that an entry point reaches through imports, and no entry point,
/// is reported as an unused file, for the modules of a graph built from
/// files with distinct paths.
pub proof fn lemma_reached_file_not_unused(
    f: Seq<DiscoveredFile>,
    r: Seq<ResolvedModule>,
    e: Seq<EntryPoint>,
    ms: Seq<ModuleNode>,
    i: int,
)
    requires
        ms.len() == f.len(),
        forall|k: int| 0 <= k < f.len() ==> (#[trigger] ms[k]).path@ == f[k].path@,
        forall|k: int| 0 <= k < f.len() ==> (#[trigger] ms[k]).is_reachable == crate::graph::reachable(f, r, e, k),
        forall|a: int, b: int| 0 <= a < b < f.len() ==> (#[trigger] f[a]).path@ != (#[trigger] f[b]).path@,
        0 <= i < f.len(),
        crate::graph::reachable(f, r, e, i) || ms[i].is_entry_point,
    ensures
        !unused_file_paths(ms).contains(f[i].path@),
{
    if unused_file_paths(ms).contains(f[i].path@) {
        lemma_unused_file_source(ms, f[i].path@);
        let k = choose|k: int| 0 <= k < ms.len() && (#[trigger] ms[k]).path@ == f[i].path@ && !ms[k].is_reachable && !ms[k].is_entry_point;
        assert(ms[i].path@ == f[i].path@);
        if k < i {
            assert(f[k].path@ != f[i].path@);
        } else if i < k {
            assert(f[i].path@ != f[k].path@);
        }
    }
}

proof fn lemma_module_export_report_source(config: AnalysisConfig, path: Seq<char>, es: Seq<ExportSymbol>, type_only: bool, k: int)
    requires
        0 <= k < module_export_reports(config, path, es, type_only).len(),
    ensures
        ({
            let rep = module_export_reports(config, path, es, type_only)[k];
            exists|j: int| 0 <= j < es.len() && rep.0 == path && rep.1 == export_name_text((#[trigger] es[j]).name)
                && es[j].references@.len() == 0 && es[j].is_type_only == type_only
        }),
    decreases es.len(),
{
    let prev = module_export_reports(config, path, es.drop_last(), type_only);
    if k < prev.len() {
        lemma_module_export_report_source(config, path, es.drop_last(), type_only, k);
        let rep = prev[k];
        let j = choose|j: int| 0 <= j < es.drop_last().len() && rep.0 == path && rep.1 == export_name_text((#[trigger] es.drop_last()[j]).name)
            && es.drop_last()[j].references@.len() == 0 && es.drop_last()[j].is_type_only == type_only;
        assert(es[j] == es.drop_last()[j]);
        assert(module_export_reports(config, path, es, type_only)[k] == rep);
    } else {
        assert(es[es.len() - 1] == es.last());
    }
}

/// Every unused-export report names an export without references of an
/// examined module: an export that some file imports is never reported.
pub proof fn lemma_unused_export_source(g: ModuleGraph, config: AnalysisConfig, ms: Seq<ModuleNode>, type_only: bool, k: int)
    requires
        0 <= k < unused_export_reports(g, config, ms, type_only).len(),
    ensures
        ({
            let rep = unused_export_reports(g, config, ms, type_only)[k];
            exists|i: int, j: int| 0 <= i < ms.len() && 0 <= j < ms[i].exports@.len()
                && #[trigger] exports_examined(g, ms[i]) && rep.0 == ms[i].path@
                && rep.1 == export_name_text((#[trigger] ms[i].exports@[j]).name)
                && ms[i].exports@[j].references@.len() == 0 && ms[i].exports@[j].is_type_only == type_only
        }),
    decreases ms.len(),
{
    let d = ms.drop_last();
    let prev = unused_export_reports(g, config, d, type_only);
    let rep = unused_export_reports(g, config, ms, type_only)[k];
    if k < prev.len() {
        lemma_unused_export_source(g, config, d, type_only, k);
        let (i, j) = choose|i: int, j: int| 0 <= i < d.len() && 0 <= j < d[i].exports@.len()
            && #[trigger] exports_examined(g, d[i]) && prev[k].0 == d[i].path@
            && prev[k].1 == export_name_text((#[trigger] d[i].exports@[j]).name)
            && d[i].exports@[j].references@.len() == 0 && d[i].exports@[j].is_type_only == type_only;
        assert(ms[i] == d[i]);
        assert(rep == prev[k]);
    } else {
        let m = ms.last();
        let own = module_export_reports(config, m.path@, m.exports@, type_only);
        assert(exports_examined(g, m));
        assert(rep == own[k - prev.len()]);
        lemma_module_export_report_source(config, m.path@, m.exports@, type_only, k - prev.len());
        let j = choose|j: int| 0 <= j < m.exports@.len() && own[k - prev.len()].0 == m.path@
            && own[k - prev.len()].1 == export_name_text((#[trigger] m.exports@[j]).name)
            && m.exports@[j].references@.len() == 0 && m.exports@[j].is_type_only == type_only;
        assert(ms[ms.len() - 1] == m);
    }
}

} // verus!
