//! Dependencies that package.json lists but no file uses, at the root and
//! in each workspace.
use vstd::prelude::*;

use crate::graph::npm_name;
use crate::resolve::{ResolveResult, ResolvedImport, ResolvedModule, ResolvedReExport};
use crate::text::{copy_string, string_eq, views};
use crate::unused_deps::{
    dep_line_scan, find_dep_line_in_json, is_implicit_dependency, is_implicit_dependency_spec, is_tooling_dependency,
    is_tooling_dependency_spec, quoted,
};

verus! {

/// Where a dependency is declared.
#[derive(Debug, Clone, Copy, PartialEq, Eq, Structural)]
pub enum DependencyLocation {
    Dependencies,
    DevDependencies,
    OptionalDependencies,
}

/// A dependency that nothing uses.
#[derive(Debug, Clone)]
pub struct UnusedDependency {
    pub package_name: String,
    pub location: DependencyLocation,
    /// The package.json that lists it.
    pub path: String,
    /// 1-based line of its key in that package.json.
    pub line: u32,
}

/// The dependency names of a package.json, by section.
#[derive(Debug, Clone, Default)]
pub struct DependencyLists {
    pub production: Vec<String>,
    pub dev: Vec<String>,
    pub optional: Vec<String>,
}

/// A package.json: where it is, its text when it could be read, and its
/// dependency names.
#[derive(Debug, Clone)]
pub struct Manifest {
    pub path: String,
    pub content: Option<String>,
    pub deps: DependencyLists,
}

/// A workspace's package.json and the packages that its files import.
#[derive(Debug, Clone)]
pub struct WorkspaceManifest {
    pub manifest: Manifest,
    pub used_in_workspace: Vec<String>,
}

/// What else keeps a dependency from being reported.
#[derive(Debug, Clone, Default)]
pub struct DependencyContext {
    /// Packages that some project file imports.
    pub used_packages: Vec<String>,
    /// Packages used as binaries in package.json scripts.
    pub script_used: Vec<String>,
    /// Packages that plugins found referenced in config files.
    pub plugin_referenced: Vec<String>,
    /// Packages that active plugins provide as tooling.
    pub plugin_tooling: Vec<String>,
    /// Packages the configuration says to ignore.
    pub ignore_deps: Vec<String>,
    /// Names of the workspace packages.
    pub workspace_names: Vec<String>,
    /// Packages known as development tooling beyond the built-in list.
    pub known_tooling: Vec<String>,
}

pub open spec fn listed(list: Vec<String>, d: Seq<char>) -> bool {
    views(list@).contains(d)
}

pub(crate) fn listed_exec(list: &Vec<String>, d: &String) -> (r: bool)
    ensures
        r == listed(*list, d@),
{
    let mut i: usize = 0;
    while i < list.len()
        invariant
            i <= list@.len(),
            forall|k: int| 0 <= k < i ==> list@[k]@ != d@,
        decreases list.len() - i,
    {
        if string_eq(&list[i], d) {
            assert(views(list@)[i as int] == d@);
            assert(views(list@).contains(d@));
            return true;
        }
        i = i + 1;
    }
    proof {
        if views(list@).contains(d@) {
            let k = choose|k: int| 0 <= k < views(list@).len() && views(list@)[k] == d@;
            assert(list@[k]@ == d@);
        }
    }
    false
}

/// Whether a workspace dependency is kept from being reported: already
/// reported at the root, used in scripts, referenced by plugins, ignored, a
/// workspace package, or used by the workspace's files.
pub open spec fn skip_spec(
    d: Seq<char>,
    root_flagged: Seq<Seq<char>>,
    script_used: Seq<Seq<char>>,
    plugin_referenced: Seq<Seq<char>>,
    ignore_deps: Seq<Seq<char>>,
    workspace_names: Seq<Seq<char>>,
    used_in_workspace: bool,
) -> bool {
    root_flagged.contains(d) || script_used.contains(d) || plugin_referenced.contains(d) || ignore_deps.contains(d)
        || workspace_names.contains(d) || used_in_workspace
}

/// Check if a dependency should be skipped during unused dependency analysis
/// (see [`skip_spec`]); `used_in_workspace` tells whether files of the
/// workspace use it.
pub fn should_skip_dependency(
    dep: &str,
    root_flagged: &Vec<String>,
    script_used: &Vec<String>,
    plugin_referenced: &Vec<String>,
    ignore_deps: &Vec<String>,
    workspace_names: &Vec<String>,
    used_in_workspace: bool,
) -> (r: bool)
    ensures
        r == skip_spec(dep@, views(root_flagged@), views(script_used@), views(plugin_referenced@), views(ignore_deps@),
            views(workspace_names@), used_in_workspace),
{
    let d = crate::text::to_owned_string(dep);
    listed_exec(root_flagged, &d) || listed_exec(script_used, &d) || listed_exec(plugin_referenced, &d)
        || listed_exec(ignore_deps, &d) || listed_exec(workspace_names, &d) || used_in_workspace
}

/// Whether a root dependency of this section is reported as unused.
pub open spec fn unused_at_root(ctx: DependencyContext, loc: DependencyLocation, d: Seq<char>) -> bool {
    &&& !listed(ctx.used_packages, d)
    &&& !listed(ctx.script_used, d)
    &&& !listed(ctx.plugin_referenced, d)
    &&& !listed(ctx.ignore_deps, d)
    &&& !listed(ctx.workspace_names, d)
    &&& match loc {
        DependencyLocation::Dependencies => !is_implicit_dependency_spec(d) && !listed(ctx.plugin_tooling, d),
        DependencyLocation::DevDependencies => !is_tooling_dependency_spec(d) && !listed(ctx.known_tooling, d)
            && !listed(ctx.plugin_tooling, d),
        DependencyLocation::OptionalDependencies => !is_implicit_dependency_spec(d),
    }
}

/// Whether a workspace dependency of this section is reported as unused.
pub open spec fn unused_in_workspace(
    ctx: DependencyContext,
    root_flagged: Seq<Seq<char>>,
    used: Vec<String>,
    loc: DependencyLocation,
    d: Seq<char>,
) -> bool {
    &&& !skip_spec(d, root_flagged, views(ctx.script_used@), views(ctx.plugin_referenced@), views(ctx.ignore_deps@),
        views(ctx.workspace_names@), listed(used, d))
    &&& match loc {
        DependencyLocation::Dependencies => !is_implicit_dependency_spec(d) && !listed(ctx.plugin_tooling, d),
        DependencyLocation::DevDependencies => !is_tooling_dependency_spec(d) && !listed(ctx.known_tooling, d)
            && !listed(ctx.plugin_tooling, d),
        DependencyLocation::OptionalDependencies => !is_implicit_dependency_spec(d),
    }
}

/// The line of a dependency's key, 1 when the file could not be read or
/// the key is not found.
pub open spec fn dep_line(content: Option<String>, d: Seq<char>) -> u32 {
    match content {
        Some(c) => dep_line_scan(c@, 0, 1, false, quoted(d)),
        None => 1,
    }
}

/// A report as (package, section, package.json path, line).
pub open spec fn report_view(u: UnusedDependency) -> (Seq<char>, DependencyLocation, Seq<char>, u32) {
    (u.package_name@, u.location, u.path@, u.line)
}

pub open spec fn reports_view(v: Seq<UnusedDependency>) -> Seq<(Seq<char>, DependencyLocation, Seq<char>, u32)> {
    v.map_values(|u: UnusedDependency| report_view(u))
}

/// The reports for the names of `deps` that `keep` selects, in order.
pub open spec fn reports_for(
    deps: Seq<Seq<char>>,
    keep: spec_fn(Seq<char>) -> bool,
    loc: DependencyLocation,
    m: Manifest,
) -> Seq<(Seq<char>, DependencyLocation, Seq<char>, u32)>
    decreases deps.len(),
{
    if deps.len() == 0 {
        seq![]
    } else {
        let prev = reports_for(deps.drop_last(), keep, loc, m);
        let d = deps.last();
        if keep(d) { prev.push((d, loc, m.path@, dep_line(m.content, d))) } else { prev }
    }
}

pub open spec fn section(l: DependencyLists, loc: DependencyLocation) -> Seq<Seq<char>> {
    match loc {
        DependencyLocation::Dependencies => views(l.production@),
        DependencyLocation::DevDependencies => views(l.dev@),
        DependencyLocation::OptionalDependencies => views(l.optional@),
    }
}

/// The root reports of one section.
pub open spec fn root_reports(ctx: DependencyContext, root: Manifest, loc: DependencyLocation) -> Seq<(Seq<char>, DependencyLocation, Seq<char>, u32)> {
    reports_for(section(root.deps, loc), |d: Seq<char>| unused_at_root(ctx, loc, d), loc, root)
}

/// The names reported at the root, in all sections.
pub open spec fn root_flagged(ctx: DependencyContext, root: Manifest) -> Seq<Seq<char>> {
    (root_reports(ctx, root, DependencyLocation::Dependencies) + root_reports(ctx, root, DependencyLocation::DevDependencies)
        + root_reports(ctx, root, DependencyLocation::OptionalDependencies)).map_values(|r: (Seq<char>, DependencyLocation, Seq<char>, u32)| r.0)
}

/// The workspace reports of one section, workspace by workspace.
pub open spec fn workspace_reports(
    ctx: DependencyContext,
    flagged: Seq<Seq<char>>,
    ws: Seq<WorkspaceManifest>,
    loc: DependencyLocation,
) -> Seq<(Seq<char>, DependencyLocation, Seq<char>, u32)>
    decreases ws.len(),
{
    if ws.len() == 0 {
        seq![]
    } else {
        let w = ws.last();
        workspace_reports(ctx, flagged, ws.drop_last(), loc)
            + reports_for(section(w.manifest.deps, loc), |d: Seq<char>| unused_in_workspace(ctx, flagged, w.used_in_workspace, loc, d), loc, w.manifest)
    }
}

/// All reports of one section: the root's, then each workspace's.
pub open spec fn unused_reports(ctx: DependencyContext, root: Manifest, ws: Seq<WorkspaceManifest>, loc: DependencyLocation) -> Seq<(Seq<char>, DependencyLocation, Seq<char>, u32)> {
    root_reports(ctx, root, loc) + workspace_reports(ctx, root_flagged(ctx, root), ws, loc)
}

/// Whether a package.json read has fewer lines than a `u32` counts.
pub open spec fn content_fits(m: Manifest) -> bool {
    match m.content {
        Some(c) => c@.len() < u32::MAX,
        None => true,
    }
}

proof fn lemma_dep_line_scan_positive(s: Seq<char>, start: int, line_no: int, in_block: bool, needle: Seq<char>)
    requires
        0 <= start,
        1 <= line_no,
        line_no + (s.len() - start) <= u32::MAX,
    ensures
        dep_line_scan(s, start, line_no, in_block, needle) >= 1,
    decreases s.len() - start,
{
    if start < s.len() {
        let j = crate::unused_deps::next_newline(s, start);
        match crate::unused_deps::line_step(crate::unused_deps::line_text(s, start, j), in_block, needle) {
            crate::unused_deps::LineStep::Found => {},
            crate::unused_deps::LineStep::Next(b) => {
                let next = if j < start || j >= s.len() { s.len() as int } else { j + 1 };
                lemma_dep_line_scan_positive(s, next, line_no + 1, b, needle);
            },
        }
    }
}

proof fn lemma_reports_for_sections(deps: Seq<Seq<char>>, keep: spec_fn(Seq<char>) -> bool, loc: DependencyLocation, m: Manifest)
    requires
        content_fits(m),
    ensures
        forall|k: int| 0 <= k < reports_for(deps, keep, loc, m).len() ==> (#[trigger] reports_for(deps, keep, loc, m)[k]).1 == loc
            && reports_for(deps, keep, loc, m)[k].3 >= 1,
    decreases deps.len(),
{
    if deps.len() > 0 {
        lemma_reports_for_sections(deps.drop_last(), keep, loc, m);
        match m.content {
            Some(c) => lemma_dep_line_scan_positive(c@, 0, 1, false, quoted(deps.last())),
            None => {},
        }
    }
}

proof fn lemma_workspace_reports_sections(ctx: DependencyContext, flagged: Seq<Seq<char>>, ws: Seq<WorkspaceManifest>, loc: DependencyLocation)
    requires
        forall|i: int| 0 <= i < ws.len() ==> content_fits(#[trigger] ws[i].manifest),
    ensures
        forall|k: int| 0 <= k < workspace_reports(ctx, flagged, ws, loc).len() ==> (#[trigger] workspace_reports(
            ctx,
            flagged,
            ws,
            loc,
        )[k]).1 == loc && workspace_reports(ctx, flagged, ws, loc)[k].3 >= 1,
    decreases ws.len(),
{
    if ws.len() > 0 {
        let w = ws.last();
        assert(content_fits(ws[ws.len() - 1].manifest));
        lemma_workspace_reports_sections(ctx, flagged, ws.drop_last(), loc);
        lemma_reports_for_sections(
            section(w.manifest.deps, loc),
            |d: Seq<char>| unused_in_workspace(ctx, flagged, w.used_in_workspace, loc, d),
            loc,
            w.manifest,
        );
    }
}

/// Every unused-dependency report of a section names that section and a
/// line from 1 on (for package.json files shorter than `u32::MAX`).
pub proof fn lemma_unused_report_sections(ctx: DependencyContext, root: Manifest, ws: Seq<WorkspaceManifest>, loc: DependencyLocation)
    requires
        content_fits(root),
        forall|i: int| 0 <= i < ws.len() ==> content_fits(#[trigger] ws[i].manifest),
    ensures
        forall|k: int| 0 <= k < unused_reports(ctx, root, ws, loc).len() ==> (#[trigger] unused_reports(ctx, root, ws, loc)[k]).1
            == loc && unused_reports(ctx, root, ws, loc)[k].3 >= 1,
{
    lemma_reports_for_sections(section(root.deps, loc), |d: Seq<char>| unused_at_root(ctx, loc, d), loc, root);
    lemma_workspace_reports_sections(ctx, root_flagged(ctx, root), ws, loc);
    let a = root_reports(ctx, root, loc);
    let b = workspace_reports(ctx, root_flagged(ctx, root), ws, loc);
    assert forall|k: int| 0 <= k < (a + b).len() implies (#[trigger] (a + b)[k]).1 == loc && (a + b)[k].3 >= 1 by {
        if k < a.len() {
            assert((a + b)[k] == a[k]);
        } else {
            assert((a + b)[k] == b[k - a.len()]);
        }
    }
}

/// Whether a dependency name is one the analysis never reports unused:
/// used in a package.json script, referenced by a plugin's configuration,
/// ignored by the configuration, or the name of a workspace package.
pub open spec fn never_reported(ctx: DependencyContext, d: Seq<char>) -> bool {
    ||| views(ctx.script_used@).contains(d)
    ||| views(ctx.plugin_referenced@).contains(d)
    ||| views(ctx.ignore_deps@).contains(d)
    ||| views(ctx.workspace_names@).contains(d)
}

proof fn lemma_reports_for_kept(deps: Seq<Seq<char>>, keep: spec_fn(Seq<char>) -> bool, loc: DependencyLocation, m: Manifest)
    ensures
        forall|k: int| 0 <= k < reports_for(deps, keep, loc, m).len() ==> keep((#[trigger] reports_for(deps, keep, loc, m)[k]).0),
    decreases deps.len(),
{
    if deps.len() > 0 {
        lemma_reports_for_kept(deps.drop_last(), keep, loc, m);
        let prev = reports_for(deps.drop_last(), keep, loc, m);
        let all = reports_for(deps, keep, loc, m);
        assert forall|k: int| 0 <= k < all.len() implies keep((#[trigger] all[k]).0) by {
            if k < prev.len() {
                assert(all[k] == prev[k]);
            }
        }
    }
}

proof fn lemma_workspace_reports_not_excluded(ctx: DependencyContext, flagged: Seq<Seq<char>>, ws: Seq<WorkspaceManifest>, loc: DependencyLocation)
    ensures
        forall|k: int|
            0 <= k < workspace_reports(ctx, flagged, ws, loc).len() ==> !never_reported(
                ctx,
                (#[trigger] workspace_reports(ctx, flagged, ws, loc)[k]).0,
            ),
    decreases ws.len(),
{
    if ws.len() > 0 {
        let w = ws.last();
        lemma_workspace_reports_not_excluded(ctx, flagged, ws.drop_last(), loc);
        let keep = |d: Seq<char>| unused_in_workspace(ctx, flagged, w.used_in_workspace, loc, d);
        lemma_reports_for_kept(section(w.manifest.deps, loc), keep, loc, w.manifest);
        let prev = workspace_reports(ctx, flagged, ws.drop_last(), loc);
        let here = reports_for(section(w.manifest.deps, loc), keep, loc, w.manifest);
        let all = workspace_reports(ctx, flagged, ws, loc);
        assert(all == prev + here);
        assert forall|k: int| 0 <= k < all.len() implies !never_reported(ctx, (#[trigger] all[k]).0) by {
            if k < prev.len() {
                assert(all[k] == prev[k]);
            } else {
                assert(all[k] == here[k - prev.len()]);
                assert(keep(here[k - prev.len()].0));
            }
        }
    }
}

/// No unused-dependency report, at the root or in a workspace and in any
/// section, names a package used in a package.json script, referenced by a
/// plugin's configuration, ignored by the configuration or named like a
/// workspace package; and no root report names a package some file imports.
pub proof fn lemma_unused_reports_exclusions(ctx: DependencyContext, root: Manifest, ws: Seq<WorkspaceManifest>, loc: DependencyLocation)
    ensures
        forall|k: int|
            0 <= k < unused_reports(ctx, root, ws, loc).len() ==> !never_reported(
                ctx,
                (#[trigger] unused_reports(ctx, root, ws, loc)[k]).0,
            ),
        forall|k: int|
            0 <= k < root_reports(ctx, root, loc).len() ==> !views(ctx.used_packages@).contains(
                (#[trigger] root_reports(ctx, root, loc)[k]).0,
            ),
{
    let keep = |d: Seq<char>| unused_at_root(ctx, loc, d);
    lemma_reports_for_kept(section(root.deps, loc), keep, loc, root);
    lemma_workspace_reports_not_excluded(ctx, root_flagged(ctx, root), ws, loc);
    let a = root_reports(ctx, root, loc);
    let b = workspace_reports(ctx, root_flagged(ctx, root), ws, loc);
    let all = unused_reports(ctx, root, ws, loc);
    assert(all == a + b);
    assert forall|k: int| 0 <= k < all.len() implies !never_reported(ctx, (#[trigger] all[k]).0) by {
        if k < a.len() {
            assert(all[k] == a[k]);
            assert(keep(a[k].0));
        } else {
            assert(all[k] == b[k - a.len()]);
        }
    }
    assert forall|k: int| 0 <= k < a.len() implies !views(ctx.used_packages@).contains((#[trigger] a[k]).0) by {
        assert(keep(a[k].0));
    }
}

fn keep_at_root(ctx: &DependencyContext, loc: DependencyLocation, d: &String) -> (r: bool)
    ensures
        r == unused_at_root(*ctx, loc, d@),
{
    let common = !listed_exec(&ctx.used_packages, d) && !listed_exec(&ctx.script_used, d)
        && !listed_exec(&ctx.plugin_referenced, d) && !listed_exec(&ctx.ignore_deps, d)
        && !listed_exec(&ctx.workspace_names, d);
    common && match loc {
        DependencyLocation::Dependencies => !is_implicit_dependency(d.as_str()) && !listed_exec(&ctx.plugin_tooling, d),
        DependencyLocation::DevDependencies => !is_tooling_dependency(d.as_str()) && !listed_exec(&ctx.known_tooling, d)
            && !listed_exec(&ctx.plugin_tooling, d),
        DependencyLocation::OptionalDependencies => !is_implicit_dependency(d.as_str()),
    }
}

fn keep_in_workspace(ctx: &DependencyContext, flagged: &Vec<String>, used: &Vec<String>, loc: DependencyLocation, d: &String) -> (r: bool)
    ensures
        r == unused_in_workspace(*ctx, views(flagged@), *used, loc, d@),
{
    let used_here = listed_exec(used, d);
    let skip = should_skip_dependency(d.as_str(), flagged, &ctx.script_used, &ctx.plugin_referenced, &ctx.ignore_deps,
        &ctx.workspace_names, used_here);
    !skip && match loc {
        DependencyLocation::Dependencies => !is_implicit_dependency(d.as_str()) && !listed_exec(&ctx.plugin_tooling, d),
        DependencyLocation::DevDependencies => !is_tooling_dependency(d.as_str()) && !listed_exec(&ctx.known_tooling, d)
            && !listed_exec(&ctx.plugin_tooling, d),
        DependencyLocation::OptionalDependencies => !is_implicit_dependency(d.as_str()),
    }
}

fn line_of(content: &Option<String>, d: &String) -> (r: u32)
    ensures
        r == dep_line(*content, d@),
{
    match content {
        Some(c) => find_dep_line_in_json(c.as_str(), d.as_str()),
        None => 1,
    }
}

fn section_of(l: &DependencyLists, loc: DependencyLocation) -> (r: &Vec<String>)
    ensures
        views(r@) == section(*l, loc),
{
    match loc {
        DependencyLocation::Dependencies => &l.production,
        DependencyLocation::DevDependencies => &l.dev,
        DependencyLocation::OptionalDependencies => &l.optional,
    }
}

/// Appends the reports of one section of one package.json. `flagged` is
/// `None` at the root, else the names reported at the root.
fn report_section(
    out: &mut Vec<UnusedDependency>,
    ctx: &DependencyContext,
    m: &Manifest,
    loc: DependencyLocation,
    flagged: Option<&Vec<String>>,
    used: &Vec<String>,
)
    ensures
        reports_view(final(out)@) == reports_view(old(out)@) + match flagged {
            None => reports_for(section(m.deps, loc), |d: Seq<char>| unused_at_root(*ctx, loc, d), loc, *m),
            Some(f) => reports_for(section(m.deps, loc), |d: Seq<char>| unused_in_workspace(*ctx, views(f@), *used, loc, d), loc, *m),
        },
{
    let ghost keep = match flagged {
        None => |d: Seq<char>| unused_at_root(*ctx, loc, d),
        Some(f) => |d: Seq<char>| unused_in_workspace(*ctx, views(f@), *used, loc, d),
    };
    let ghost base = reports_view(out@);
    let deps = section_of(&m.deps, loc);
    let ghost dv = views(deps@);
    let mut i: usize = 0;
    assert(base + reports_for(dv.take(0), keep, loc, *m) =~= base);
    while i < deps.len()
        invariant
            i <= deps@.len(),
            dv == views(deps@),
            dv == section(m.deps, loc),
            keep == (match flagged {
                None => |d: Seq<char>| unused_at_root(*ctx, loc, d),
                Some(f) => |d: Seq<char>| unused_in_workspace(*ctx, views(f@), *used, loc, d),
            }),
            reports_view(out@) == base + reports_for(dv.take(i as int), keep, loc, *m),
        decreases deps.len() - i,
    {
        assert(dv.take(i + 1).drop_last() =~= dv.take(i as int));
        assert(dv.take(i + 1).last() == deps@[i as int]@);
        let d = &deps[i];
        let k = match flagged {
            None => keep_at_root(ctx, loc, d),
            Some(f) => keep_in_workspace(ctx, f, used, loc, d),
        };
        if k {
            let u = UnusedDependency { package_name: copy_string(d), location: loc, path: copy_string(&m.path), line: line_of(&m.content, d) };
            let ghost before = reports_view(out@);
            out.push(u);
            assert(reports_view(out@) =~= before.push(report_view(u)));
        }
        i = i + 1;
    }
    assert(dv.take(deps@.len() as int) =~= dv);
}

fn names_of(reports: &Vec<UnusedDependency>, out: &mut Vec<String>)
    ensures
        views(final(out)@) == views(old(out)@) + reports_view(reports@).map_values(|r: (Seq<char>, DependencyLocation, Seq<char>, u32)| r.0),
{
    let ghost base = views(out@);
    let mut i: usize = 0;
    while i < reports.len()
        invariant
            i <= reports@.len(),
            views(out@) == base + reports_view(reports@.take(i as int)).map_values(|r: (Seq<char>, DependencyLocation, Seq<char>, u32)| r.0),
        decreases reports.len() - i,
    {
        let ghost before = views(out@);
        out.push(copy_string(&reports[i].package_name));
        assert(reports_view(reports@.take(i + 1)).map_values(|r: (Seq<char>, DependencyLocation, Seq<char>, u32)| r.0)
            =~= reports_view(reports@.take(i as int)).map_values(|r: (Seq<char>, DependencyLocation, Seq<char>, u32)| r.0).push(reports@[i as int].package_name@));
        assert(views(out@) =~= before.push(reports@[i as int].package_name@));
        i = i + 1;
    }
    assert(reports@.take(reports@.len() as int) =~= reports@);
}

/// Find dependencies in package.json that are never imported: at the root
/// (any file's use counts), then in each workspace (only the workspace's
/// own files count, and names already reported at the root are not
/// reported again). Returns the production, dev and optional reports.
pub fn find_unused_dependencies(
    ctx: &DependencyContext,
    root: &Manifest,
    workspaces: &Vec<WorkspaceManifest>,
) -> (r: (Vec<UnusedDependency>, Vec<UnusedDependency>, Vec<UnusedDependency>))
    ensures
        reports_view(r.0@) == unused_reports(*ctx, *root, workspaces@, DependencyLocation::Dependencies),
        reports_view(r.1@) == unused_reports(*ctx, *root, workspaces@, DependencyLocation::DevDependencies),
        reports_view(r.2@) == unused_reports(*ctx, *root, workspaces@, DependencyLocation::OptionalDependencies),
{
    let nothing: Vec<String> = Vec::new();
    let mut prod: Vec<UnusedDependency> = Vec::new();
    let mut dev: Vec<UnusedDependency> = Vec::new();
    let mut opt: Vec<UnusedDependency> = Vec::new();
    assert(reports_view(prod@) =~= seq![]);
    report_section(&mut prod, ctx, root, DependencyLocation::Dependencies, None, &nothing);
    report_section(&mut dev, ctx, root, DependencyLocation::DevDependencies, None, &nothing);
    report_section(&mut opt, ctx, root, DependencyLocation::OptionalDependencies, None, &nothing);
    let mut flagged: Vec<String> = Vec::new();
    names_of(&prod, &mut flagged);
    names_of(&dev, &mut flagged);
    names_of(&opt, &mut flagged);
    let ghost rp = reports_view(prod@);
    let ghost rd = reports_view(dev@);
    let ghost ro = reports_view(opt@);
    proof {
        let f = |r: (Seq<char>, DependencyLocation, Seq<char>, u32)| r.0;
        assert((rp + rd + ro).map_values(f) =~= rp.map_values(f) + rd.map_values(f) + ro.map_values(f));
        assert(seq![] + rp.map_values(f) =~= rp.map_values(f));
        assert(views(flagged@) =~= root_flagged(*ctx, *root));
    }
    let mut w: usize = 0;
    while w < workspaces.len()
        invariant
            w <= workspaces@.len(),
            views(flagged@) == root_flagged(*ctx, *root),
            reports_view(prod@) == rp + workspace_reports(*ctx, views(flagged@), workspaces@.take(w as int), DependencyLocation::Dependencies),
            reports_view(dev@) == rd + workspace_reports(*ctx, views(flagged@), workspaces@.take(w as int), DependencyLocation::DevDependencies),
            reports_view(opt@) == ro + workspace_reports(*ctx, views(flagged@), workspaces@.take(w as int), DependencyLocation::OptionalDependencies),
            rp == root_reports(*ctx, *root, DependencyLocation::Dependencies),
            rd == root_reports(*ctx, *root, DependencyLocation::DevDependencies),
            ro == root_reports(*ctx, *root, DependencyLocation::OptionalDependencies),
        decreases workspaces.len() - w,
    {
        assert(workspaces@.take(w + 1).drop_last() =~= workspaces@.take(w as int));
        let ws = &workspaces[w];
        report_section(&mut prod, ctx, &ws.manifest, DependencyLocation::Dependencies, Some(&flagged), &ws.used_in_workspace);
        report_section(&mut dev, ctx, &ws.manifest, DependencyLocation::DevDependencies, Some(&flagged), &ws.used_in_workspace);
        report_section(&mut opt, ctx, &ws.manifest, DependencyLocation::OptionalDependencies, Some(&flagged), &ws.used_in_workspace);
        w = w + 1;
    }
    assert(workspaces@.take(workspaces@.len() as int) =~= workspaces@);
    (prod, dev, opt)
}

// ---- laws --------------------------------------------------------------

/// Every report of `reports_for` names a dependency that `keep` selects.
proof fn lemma_reports_kept(
    deps: Seq<Seq<char>>,
    keep: spec_fn(Seq<char>) -> bool,
    loc: DependencyLocation,
    m: Manifest,
)
    ensures
        forall|k: int| 0 <= k < reports_for(deps, keep, loc, m).len() ==> keep(#[trigger] reports_for(deps, keep, loc, m)[k].0),
    decreases deps.len(),
{
    if deps.len() > 0 {
        lemma_reports_kept(deps.drop_last(), keep, loc, m);
        let prev = reports_for(deps.drop_last(), keep, loc, m);
        let all = reports_for(deps, keep, loc, m);
        assert forall|k: int| 0 <= k < all.len() implies keep(#[trigger] all[k].0) by {
            if k < prev.len() {
                assert(all[k] == prev[k]);
            }
        }
    }
}

/// Every workspace report names a dependency kept in its workspace.
proof fn lemma_workspace_reports_kept(
    ctx: DependencyContext,
    flagged: Seq<Seq<char>>,
    ws: Seq<WorkspaceManifest>,
    loc: DependencyLocation,
)
    ensures
        forall|k: int| 0 <= k < workspace_reports(ctx, flagged, ws, loc).len() ==> exists|w: int| 0 <= w < ws.len()
            && unused_in_workspace(ctx, flagged, ws[w].used_in_workspace, loc, #[trigger] workspace_reports(ctx, flagged, ws, loc)[k].0),
    decreases ws.len(),
{
    if ws.len() > 0 {
        let d = ws.drop_last();
        let w = ws.last();
        lemma_workspace_reports_kept(ctx, flagged, d, loc);
        let keep = |x: Seq<char>| unused_in_workspace(ctx, flagged, w.used_in_workspace, loc, x);
        lemma_reports_kept(section(w.manifest.deps, loc), keep, loc, w.manifest);
        let a = workspace_reports(ctx, flagged, d, loc);
        let b = reports_for(section(w.manifest.deps, loc), keep, loc, w.manifest);
        assert forall|k: int| 0 <= k < (a + b).len() implies exists|v: int| 0 <= v < ws.len()
            && unused_in_workspace(ctx, flagged, ws[v].used_in_workspace, loc, #[trigger] (a + b)[k].0) by {
            if k < a.len() {
                assert((a + b)[k] == a[k]);
                let v = choose|v: int| 0 <= v < d.len() && unused_in_workspace(ctx, flagged, d[v].used_in_workspace, loc, a[k].0);
                assert(ws[v] == d[v]);
            } else {
                assert((a + b)[k] == b[k - a.len()]);
                assert(keep(b[k - a.len()].0));
                assert(ws[ws.len() - 1] == w);
            }
        }
    }
}

/// A dependency that some file imports is never reported as unused at the
/// root.
pub proof fn lemma_imported_dependency_not_reported_at_root(
    ctx: DependencyContext,
    root: Manifest,
    loc: DependencyLocation,
    d: Seq<char>,
)
    requires
        listed(ctx.used_packages, d),
    ensures
        !root_reports(ctx, root, loc).map_values(|r: (Seq<char>, DependencyLocation, Seq<char>, u32)| r.0).contains(d),
{
    let keep = |x: Seq<char>| unused_at_root(ctx, loc, x);
    lemma_reports_kept(section(root.deps, loc), keep, loc, root);
    let names = root_reports(ctx, root, loc).map_values(|r: (Seq<char>, DependencyLocation, Seq<char>, u32)| r.0);
    if names.contains(d) {
        let k = choose|k: int| 0 <= k < names.len() && names[k] == d;
        assert(keep(root_reports(ctx, root, loc)[k].0));
    }
}

/// A dependency that the configuration ignores is never reported as
/// unused, at the root or in a workspace.
pub proof fn lemma_ignored_dependency_never_reported(
    ctx: DependencyContext,
    root: Manifest,
    ws: Seq<WorkspaceManifest>,
    loc: DependencyLocation,
    d: Seq<char>,
)
    requires
        listed(ctx.ignore_deps, d),
    ensures
        !unused_reports(ctx, root, ws, loc).map_values(|r: (Seq<char>, DependencyLocation, Seq<char>, u32)| r.0).contains(d),
{
    let flagged = root_flagged(ctx, root);
    let keep = |x: Seq<char>| unused_at_root(ctx, loc, x);
    lemma_reports_kept(section(root.deps, loc), keep, loc, root);
    lemma_workspace_reports_kept(ctx, flagged, ws, loc);
    let a = root_reports(ctx, root, loc);
    let b = workspace_reports(ctx, flagged, ws, loc);
    let names = unused_reports(ctx, root, ws, loc).map_values(|r: (Seq<char>, DependencyLocation, Seq<char>, u32)| r.0);
    if names.contains(d) {
        let k = choose|k: int| 0 <= k < names.len() && names[k] == d;
        assert((a + b)[k].0 == d);
        if k < a.len() {
            assert((a + b)[k] == a[k]);
            assert(keep(a[k].0));
        } else {
            assert((a + b)[k] == b[k - a.len()]);
            let v = choose|v: int| 0 <= v < ws.len() && unused_in_workspace(ctx, flagged, ws[v].used_in_workspace, loc, #[trigger] b[k - a.len()].0);
        }
    }
}

/// A dependency reported at the root is not reported again for a
/// workspace.
pub proof fn lemma_root_report_not_repeated(
    ctx: DependencyContext,
    root: Manifest,
    ws: Seq<WorkspaceManifest>,
    loc: DependencyLocation,
    d: Seq<char>,
)
    requires
        root_flagged(ctx, root).contains(d),
    ensures
        !workspace_reports(ctx, root_flagged(ctx, root), ws, loc).map_values(
            |r: (Seq<char>, DependencyLocation, Seq<char>, u32)| r.0,
        ).contains(d),
{
    let flagged = root_flagged(ctx, root);
    lemma_workspace_reports_kept(ctx, flagged, ws, loc);
    let b = workspace_reports(ctx, flagged, ws, loc);
    let names = b.map_values(|r: (Seq<char>, DependencyLocation, Seq<char>, u32)| r.0);
    if names.contains(d) {
        let k = choose|k: int| 0 <= k < names.len() && names[k] == d;
        let v = choose|v: int| 0 <= v < ws.len() && unused_in_workspace(ctx, flagged, ws[v].used_in_workspace, loc, #[trigger] b[k].0);
    }
}

// ---- dependencies only used for types --------------------------------------

/// A production dependency that only type-only imports use.
#[derive(Debug, Clone)]
pub struct TypeOnlyDependency {
    pub package_name: String,
    /// The package.json that lists it.
    pub path: String,
    /// 1-based line of its key in that package.json.
    pub line: u32,
}

/// Whether some import resolves to package `d`.
pub open spec fn imports_use(s: Seq<ResolvedImport>, d: Seq<char>) -> bool
    decreases s.len(),
{
    s.len() > 0 && (npm_name(s.last().target) == Some(d) || imports_use(s.drop_last(), d))
}

/// Whether every import that resolves to package `d` is type-only.
pub open spec fn imports_type_only(s: Seq<ResolvedImport>, d: Seq<char>) -> bool
    decreases s.len(),
{
    s.len() == 0 || ((npm_name(s.last().target) == Some(d) ==> s.last().info.is_type_only) && imports_type_only(s.drop_last(), d))
}

/// Whether some re-export resolves to package `d`.
pub open spec fn re_exports_use(s: Seq<ResolvedReExport>, d: Seq<char>) -> bool
    decreases s.len(),
{
    s.len() > 0 && (npm_name(s.last().target) == Some(d) || re_exports_use(s.drop_last(), d))
}

/// Whether every re-export that resolves to package `d` is type-only.
pub open spec fn re_exports_type_only(s: Seq<ResolvedReExport>, d: Seq<char>) -> bool
    decreases s.len(),
{
    s.len() == 0 || ((npm_name(s.last().target) == Some(d) ==> s.last().info.is_type_only) && re_exports_type_only(s.drop_last(), d))
}

/// Whether some module imports or re-exports package `d`.
pub open spec fn package_used(r: Seq<ResolvedModule>, d: Seq<char>) -> bool
    decreases r.len(),
{
    r.len() > 0 && (imports_use(r.last().resolved_imports@, d) || re_exports_use(r.last().re_exports@, d) || package_used(r.drop_last(), d))
}

/// Whether every import and re-export of package `d` is type-only.
pub open spec fn package_type_only(r: Seq<ResolvedModule>, d: Seq<char>) -> bool
    decreases r.len(),
{
    r.len() == 0 || (imports_type_only(r.last().resolved_imports@, d) && re_exports_type_only(r.last().re_exports@, d)
        && package_type_only(r.drop_last(), d))
}

/// Whether a production dependency is reported as only used for types: it
/// is no workspace package and not ignored, something uses it, and every
/// use is type-only.
pub open spec fn type_only_dependency(r: Seq<ResolvedModule>, ignore_deps: Seq<Seq<char>>, workspace_names: Seq<Seq<char>>, d: Seq<char>) -> bool {
    !workspace_names.contains(d) && !ignore_deps.contains(d) && package_used(r, d) && package_type_only(r, d)
}

/// The reports for the production dependencies that only types use, in
/// the order of the package.json.
pub open spec fn type_only_reports(
    deps: Seq<Seq<char>>,
    r: Seq<ResolvedModule>,
    ignore_deps: Seq<Seq<char>>,
    workspace_names: Seq<Seq<char>>,
    m: Manifest,
) -> Seq<(Seq<char>, Seq<char>, u32)>
    decreases deps.len(),
{
    if deps.len() == 0 {
        seq![]
    } else {
        let prev = type_only_reports(deps.drop_last(), r, ignore_deps, workspace_names, m);
        let d = deps.last();
        if type_only_dependency(r, ignore_deps, workspace_names, d) { prev.push((d, m.path@, dep_line(m.content, d))) } else { prev }
    }
}

pub open spec fn type_only_views(v: Seq<TypeOnlyDependency>) -> Seq<(Seq<char>, Seq<char>, u32)> {
    v.map_values(|t: TypeOnlyDependency| (t.package_name@, t.path@, t.line))
}

fn target_is(t: &ResolveResult, d: &String) -> (r: bool)
    ensures
        r == (npm_name(*t) == Some(d@)),
{
    match t {
        ResolveResult::NpmPackage(n) => string_eq(n, d),
        _ => false,
    }
}

fn import_summary(s: &Vec<ResolvedImport>, d: &String) -> (r: (bool, bool))
    ensures
        r.0 == imports_use(s@, d@),
        r.1 == imports_type_only(s@, d@),
{
    let mut used = false;
    let mut only = true;
    let mut i: usize = 0;
    while i < s.len()
        invariant
            i <= s@.len(),
            used == imports_use(s@.take(i as int), d@),
            only == imports_type_only(s@.take(i as int), d@),
        decreases s.len() - i,
    {
        assert(s@.take(i + 1).drop_last() =~= s@.take(i as int));
        if target_is(&s[i].target, d) {
            used = true;
            if !s[i].info.is_type_only {
                only = false;
            }
        }
        i = i + 1;
    }
    assert(s@.take(s@.len() as int) =~= s@);
    (used, only)
}

fn re_export_summary(s: &Vec<ResolvedReExport>, d: &String) -> (r: (bool, bool))
    ensures
        r.0 == re_exports_use(s@, d@),
        r.1 == re_exports_type_only(s@, d@),
{
    let mut used = false;
    let mut only = true;
    let mut i: usize = 0;
    while i < s.len()
        invariant
            i <= s@.len(),
            used == re_exports_use(s@.take(i as int), d@),
            only == re_exports_type_only(s@.take(i as int), d@),
        decreases s.len() - i,
    {
        assert(s@.take(i + 1).drop_last() =~= s@.take(i as int));
        if target_is(&s[i].target, d) {
            used = true;
            if !s[i].info.is_type_only {
                only = false;
            }
        }
        i = i + 1;
    }
    assert(s@.take(s@.len() as int) =~= s@);
    (used, only)
}

fn package_summary(r: &Vec<ResolvedModule>, d: &String) -> (out: (bool, bool))
    ensures
        out.0 == package_used(r@, d@),
        out.1 == package_type_only(r@, d@),
{
    let mut used = false;
    let mut only = true;
    let mut i: usize = 0;
    while i < r.len()
        invariant
            i <= r@.len(),
            used == package_used(r@.take(i as int), d@),
            only == package_type_only(r@.take(i as int), d@),
        decreases r.len() - i,
    {
        assert(r@.take(i + 1).drop_last() =~= r@.take(i as int));
        let (iu, io) = import_summary(&r[i].resolved_imports, d);
        let (ru, ro) = re_export_summary(&r[i].re_exports, d);
        used = used || iu || ru;
        only = only && io && ro;
        i = i + 1;
    }
    assert(r@.take(r@.len() as int) =~= r@);
    (used, only)
}

/// Find production dependencies that only type-only imports use (see
/// [`type_only_dependency`]): such imports are erased at compile time, so
/// the package is not needed at run time.
pub fn find_type_only_dependencies(
    resolved_modules: &Vec<ResolvedModule>,
    root: &Manifest,
    ignore_deps: &Vec<String>,
    workspace_names: &Vec<String>,
) -> (r: Vec<TypeOnlyDependency>)
    ensures
        type_only_views(r@) == type_only_reports(
            views(root.deps.production@),
            resolved_modules@,
            views(ignore_deps@),
            views(workspace_names@),
            *root,
        ),
{
    let deps = &root.deps.production;
    let mut r: Vec<TypeOnlyDependency> = Vec::new();
    let mut i: usize = 0;
    while i < deps.len()
        invariant
            i <= deps@.len(),
            *deps == root.deps.production,
            type_only_views(r@) == type_only_reports(views(deps@.take(i as int)), resolved_modules@, views(ignore_deps@), views(workspace_names@), *root),
        decreases deps.len() - i,
    {
        let d = &deps[i];
        assert(views(deps@.take(i + 1)).drop_last() =~= views(deps@.take(i as int)));
        assert(views(deps@.take(i + 1)).last() == d@);
        let skip = listed_exec(workspace_names, d) || listed_exec(ignore_deps, d);
        if !skip {
            let (used, only) = package_summary(resolved_modules, d);
            if used && only {
                let ghost before = type_only_views(r@);
                r.push(TypeOnlyDependency { package_name: copy_string(d), path: copy_string(&root.path), line: line_of(&root.content, d) });
                assert(type_only_views(r@) =~= before.push((d@, root.path@, dep_line(root.content, d@))));
            }
        }
        i = i + 1;
    }
    assert(deps@.take(deps@.len() as int) =~= deps@);
    r
}

/// A dependency reported as only used for types is never reported as unused
/// at the root, when the packages that the modules use are the ones the
/// context counts as used.
pub proof fn lemma_type_only_not_unused(
    r: Seq<ResolvedModule>,
    ctx: DependencyContext,
    ignore_deps: Seq<Seq<char>>,
    workspace_names: Seq<Seq<char>>,
    d: Seq<char>,
)
    requires
        package_used(r, d) ==> views(ctx.used_packages@).contains(d),
        type_only_dependency(r, ignore_deps, workspace_names, d),
    ensures
        !unused_at_root(ctx, DependencyLocation::Dependencies, d),
{
}

} // verus!
