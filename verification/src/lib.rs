//! Verified core of a dead-code and dependency analyzer for JavaScript and
//! TypeScript projects.
use vstd::prelude::*;

pub mod text;
pub mod mcp_args;
pub mod unused_deps;
pub mod scoping;
pub mod health_types;
pub mod extract;
pub mod coverage;
pub mod api;
pub mod sfc_scan;
pub mod sfc_pattern;
pub mod regex_support;
pub mod sfc_template;
pub mod cache;
pub mod similar_code;
pub mod discover;
pub mod resolve;
pub mod graph;
pub mod plugins;
pub mod workspace;
pub mod health;
pub mod dependency_usage;
pub mod analysis;
pub mod source_edit;
pub mod diagnostics;
pub mod baseline;
pub mod migrate;
pub mod fix;
pub mod watch;
pub mod check;
pub mod init;
pub mod setup_flow;

use crate::analysis::{dead_code_found, find_dead_code_with_resolved, AnalysisConfig, AnalysisResults, PackageInputs, Suppression};
use crate::discover::{
    discover_entry_points, discover_workspace_entry_points, entries_chosen, entry_views, raw_entries, workspace_raw_entries,
    DiscoveredFile, EntryPackage, EntryPoint, FileId,
};
use crate::graph::{edges_before, graph_built, targets_in_range, ModuleGraph};
use crate::resolve::ResolvedModule;
use crate::text::views;

verus! {

/// Entry point lists laid end to end.
pub open spec fn concat_entries(parts: Seq<Seq<EntryPoint>>) -> Seq<EntryPoint>
    decreases parts.len(),
{
    if parts.len() == 0 {
        seq![]
    } else {
        concat_entries(parts.drop_last()) + parts.last()
    }
}

/// The entry points of a run: those of the root, then those of each
/// workspace (its root and what its package.json holds), in order.
pub open spec fn run_entries(
    config: AnalysisConfig,
    files: Seq<DiscoveredFile>,
    package: Option<EntryPackage>,
    workspaces: Seq<(String, Option<EntryPackage>)>,
    entries: Seq<EntryPoint>,
) -> bool {
    exists|parts: Seq<Seq<EntryPoint>>| {
        &&& parts.len() == workspaces.len() + 1
        &&& entries_chosen(raw_entries(config, files, package), entry_views(parts[0]))
        &&& (forall|k: int| 0 <= k < workspaces.len() ==> entries_chosen(
            workspace_raw_entries(config.framework_rules@, workspaces[k].0@, files, workspaces[k].1),
            entry_views(#[trigger] parts[k + 1]),
        ))
        &&& entries == concat_entries(parts)
    }
}

/// Run the analysis over parsed and resolved modules: discover the entry
/// points of the root and of each workspace, build the module graph from
/// them, and find the dead code in it.
pub fn analyze(
    config: &AnalysisConfig,
    files: &Vec<DiscoveredFile>,
    resolved_modules: &Vec<ResolvedModule>,
    package: &Option<EntryPackage>,
    workspaces: &Vec<(String, Option<EntryPackage>)>,
    package_inputs: &Option<PackageInputs>,
    suppressions: &Vec<(FileId, Vec<Suppression>)>,
    virtual_prefixes: &Vec<String>,
    line_offsets: &Vec<(FileId, Vec<u32>)>,
) -> (r: AnalysisResults)
    requires
        files@.len() < usize::MAX,
        forall|i: int| 0 <= i < files@.len() ==> (#[trigger] files@[i]).id.0 < usize::MAX,
        edges_before(files@, resolved_modules@, files@.len() as int) <= usize::MAX,
        targets_in_range(files@, resolved_modules@),
    ensures
        exists|entries: Seq<EntryPoint>, g: ModuleGraph| {
            &&& run_entries(*config, files@, *package, workspaces@, entries)
            &&& graph_built(g, resolved_modules@, entries, files@)
            &&& dead_code_found(g, *config, resolved_modules@, *package_inputs, suppressions@, views(virtual_prefixes@), line_offsets@, r)
        },
{
    let mut entry_points = discover_entry_points(config, files, package);
    let ghost mut parts: Seq<Seq<EntryPoint>> = seq![entry_points@];
    assert(concat_entries(parts) =~= entry_points@) by {
        assert(parts.drop_last() =~= Seq::<Seq<EntryPoint>>::empty());
        assert(concat_entries(parts.drop_last()) == Seq::<EntryPoint>::empty());
        assert(Seq::<EntryPoint>::empty() + entry_points@ =~= entry_points@);
    }
    let mut k: usize = 0;
    while k < workspaces.len()
        invariant
            k <= workspaces@.len(),
            parts.len() == k + 1,
            entries_chosen(raw_entries(*config, files@, *package), entry_views(parts[0])),
            forall|q: int| 0 <= q < k ==> entries_chosen(
                workspace_raw_entries(config.framework_rules@, workspaces@[q].0@, files@, workspaces@[q].1),
                entry_views(#[trigger] parts[q + 1]),
            ),
            entry_points@ == concat_entries(parts),
        decreases workspaces.len() - k,
    {
        let mut ws_entries = discover_workspace_entry_points(workspaces[k].0.as_str(), config, files, &workspaces[k].1);
        let ghost before = parts;
        proof {
            parts = parts.push(ws_entries@);
            assert(parts.drop_last() =~= before);
            assert forall|q: int| 0 <= q < k + 1 implies entries_chosen(
                workspace_raw_entries(config.framework_rules@, workspaces@[q].0@, files@, workspaces@[q].1),
                entry_views(#[trigger] parts[q + 1]),
            ) by {
                if q < k {
                    assert(parts[q + 1] == before[q + 1]);
                }
            }
        }
        let ghost added = ws_entries@;
        let ghost prior = entry_points@;
        entry_points.append(&mut ws_entries);
        assert(entry_points@ =~= prior + added);
        k = k + 1;
    }
    let graph = ModuleGraph::build(resolved_modules, &entry_points, files);
    let r = find_dead_code_with_resolved(&graph, config, resolved_modules, package_inputs, suppressions, virtual_prefixes, line_offsets);
    assert(run_entries(*config, files@, *package, workspaces@, entry_points@));
    r
}

} // verus!
