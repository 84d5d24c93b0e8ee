//! Baselines: the issues of an earlier run, kept so that a later run
//! reports only what is new.
use vstd::prelude::*;

use crate::analysis::{AnalysisResults, UnusedExport, UnusedFile};
use crate::dependency_usage::UnusedDependency;
use crate::text::{copy_string, push_str, string_eq, views};

verus! {

/// Baseline data for comparison.
#[derive(Debug, Clone)]
pub struct BaselineData {
    pub unused_files: Vec<String>,
    /// `path:name` of each unused export.
    pub unused_exports: Vec<String>,
    /// `path:name` of each unused type export.
    pub unused_types: Vec<String>,
    pub unused_deps: Vec<String>,
    pub unused_dev_deps: Vec<String>,
}

/// The baseline key of an export: its file, a colon and its name.
pub open spec fn export_key(e: UnusedExport) -> Seq<char> {
    e.path@ + ":"@ + e.export_name@
}

pub open spec fn file_keys(v: Seq<UnusedFile>) -> Seq<Seq<char>> {
    v.map_values(|f: UnusedFile| f.path@)
}

pub open spec fn export_keys(v: Seq<UnusedExport>) -> Seq<Seq<char>> {
    v.map_values(|e: UnusedExport| export_key(e))
}

pub open spec fn dependency_keys(v: Seq<UnusedDependency>) -> Seq<Seq<char>> {
    v.map_values(|d: UnusedDependency| d.package_name@)
}

/// The files whose path the baseline does not hold, in order.
pub open spec fn new_files(v: Seq<UnusedFile>, base: Seq<Seq<char>>) -> Seq<UnusedFile>
    decreases v.len(),
{
    if v.len() == 0 {
        seq![]
    } else {
        let prev = new_files(v.drop_last(), base);
        if base.contains(v.last().path@) { prev } else { prev.push(v.last()) }
    }
}

/// The exports whose key the baseline does not hold, in order.
pub open spec fn new_exports(v: Seq<UnusedExport>, base: Seq<Seq<char>>) -> Seq<UnusedExport>
    decreases v.len(),
{
    if v.len() == 0 {
        seq![]
    } else {
        let prev = new_exports(v.drop_last(), base);
        if base.contains(export_key(v.last())) { prev } else { prev.push(v.last()) }
    }
}

/// The dependencies whose name the baseline does not hold, in order.
pub open spec fn new_dependencies(v: Seq<UnusedDependency>, base: Seq<Seq<char>>) -> Seq<UnusedDependency>
    decreases v.len(),
{
    if v.len() == 0 {
        seq![]
    } else {
        let prev = new_dependencies(v.drop_last(), base);
        if base.contains(v.last().package_name@) { prev } else { prev.push(v.last()) }
    }
}

fn key_of(e: &UnusedExport) -> (r: String)
    ensures
        r@ == export_key(*e),
{
    let mut k = copy_string(&e.path);
    push_str(&mut k, ":");
    push_str(&mut k, e.export_name.as_str());
    k
}

fn export_keys_exec(v: &Vec<UnusedExport>) -> (r: Vec<String>)
    ensures
        views(r@) == export_keys(v@),
{
    let mut r: Vec<String> = Vec::new();
    let mut i: usize = 0;
    while i < v.len()
        invariant
            i <= v@.len(),
            views(r@) == export_keys(v@.take(i as int)),
        decreases v.len() - i,
    {
        let ghost before = r@;
        r.push(key_of(&v[i]));
        assert(views(r@) =~= views(before).push(export_key(v@[i as int])));
        assert(export_keys(v@.take(i + 1)) =~= export_keys(v@.take(i as int)).push(export_key(v@[i as int])));
        i = i + 1;
    }
    assert(v@.take(v@.len() as int) =~= v@);
    r
}

fn dependency_keys_exec(v: &Vec<UnusedDependency>) -> (r: Vec<String>)
    ensures
        views(r@) == dependency_keys(v@),
{
    let mut r: Vec<String> = Vec::new();
    let mut i: usize = 0;
    while i < v.len()
        invariant
            i <= v@.len(),
            views(r@) == dependency_keys(v@.take(i as int)),
        decreases v.len() - i,
    {
        let ghost before = r@;
        r.push(copy_string(&v[i].package_name));
        assert(views(r@) =~= views(before).push(v@[i as int].package_name@));
        assert(dependency_keys(v@.take(i + 1)) =~= dependency_keys(v@.take(i as int)).push(v@[i as int].package_name@));
        i = i + 1;
    }
    assert(v@.take(v@.len() as int) =~= v@);
    r
}

impl BaselineData {
    /// The baseline of a run: the keys of its unused files, exports, types,
    /// dependencies and dev dependencies.
    pub fn from_results(results: &AnalysisResults) -> (b: BaselineData)
        ensures
            views(b.unused_files@) == file_keys(results.unused_files@),
            views(b.unused_exports@) == export_keys(results.unused_exports@),
            views(b.unused_types@) == export_keys(results.unused_types@),
            views(b.unused_deps@) == dependency_keys(results.unused_dependencies@),
            views(b.unused_dev_deps@) == dependency_keys(results.unused_dev_dependencies@),
    {
        let fs = &results.unused_files;
        let mut files: Vec<String> = Vec::new();
        let mut i: usize = 0;
        while i < fs.len()
            invariant
                i <= fs@.len(),
                views(files@) == file_keys(fs@.take(i as int)),
            decreases fs.len() - i,
        {
            let ghost before = files@;
            files.push(copy_string(&fs[i].path));
            assert(views(files@) =~= views(before).push(fs@[i as int].path@));
            assert(file_keys(fs@.take(i + 1)) =~= file_keys(fs@.take(i as int)).push(fs@[i as int].path@));
            i = i + 1;
        }
        assert(fs@.take(fs@.len() as int) =~= fs@);
        BaselineData {
            unused_files: files,
            unused_exports: export_keys_exec(&results.unused_exports),
            unused_types: export_keys_exec(&results.unused_types),
            unused_deps: dependency_keys_exec(&results.unused_dependencies),
            unused_dev_deps: dependency_keys_exec(&results.unused_dev_dependencies),
        }
    }
}

fn holds(base: &Vec<String>, key: &String) -> (r: bool)
    ensures
        r == views(base@).contains(key@),
{
    let mut k: usize = 0;
    while k < base.len()
        invariant
            k <= base@.len(),
            forall|q: int| 0 <= q < k ==> views(base@)[q] != key@,
        decreases base.len() - k,
    {
        if string_eq(&base[k], key) {
            assert(views(base@)[k as int] == key@);
            return true;
        }
        k = k + 1;
    }
    false
}

fn retain_new_files(v: Vec<UnusedFile>, base: &Vec<String>) -> (r: Vec<UnusedFile>)
    ensures
        r@ == new_files(v@, views(base@)),
{
    let mut v = v;
    let ghost orig = v@;
    let mut r: Vec<UnusedFile> = Vec::new();
    let mut i: usize = 0;
    while i < v.len()
        invariant
            i <= v@.len(),
            v@.len() == orig.len(),
            forall|j: int| i <= j < orig.len() ==> v@[j] == orig[j],
            r@ == new_files(orig.take(i as int), views(base@)),
        decreases v.len() - i,
    {
        assert(orig.take(i + 1).drop_last() =~= orig.take(i as int));
        let mut f = UnusedFile { path: String::new() };
        v.set_and_swap(i, &mut f);
        if !holds(base, &f.path) {
            r.push(f);
        }
        i = i + 1;
    }
    assert(orig.take(orig.len() as int) =~= orig);
    r
}

fn retain_new_exports(v: Vec<UnusedExport>, base: &Vec<String>) -> (r: Vec<UnusedExport>)
    ensures
        r@ == new_exports(v@, views(base@)),
{
    let mut v = v;
    let ghost orig = v@;
    let mut r: Vec<UnusedExport> = Vec::new();
    let mut i: usize = 0;
    while i < v.len()
        invariant
            i <= v@.len(),
            v@.len() == orig.len(),
            forall|j: int| i <= j < orig.len() ==> v@[j] == orig[j],
            r@ == new_exports(orig.take(i as int), views(base@)),
        decreases v.len() - i,
    {
        assert(orig.take(i + 1).drop_last() =~= orig.take(i as int));
        let mut e = UnusedExport { path: String::new(), export_name: String::new(), is_type_only: false, line: 0, col: 0 };
        v.set_and_swap(i, &mut e);
        let key = key_of(&e);
        if !holds(base, &key) {
            r.push(e);
        }
        i = i + 1;
    }
    assert(orig.take(orig.len() as int) =~= orig);
    r
}

fn retain_new_dependencies(v: Vec<UnusedDependency>, base: &Vec<String>) -> (r: Vec<UnusedDependency>)
    ensures
        r@ == new_dependencies(v@, views(base@)),
{
    let mut v = v;
    let ghost orig = v@;
    let mut r: Vec<UnusedDependency> = Vec::new();
    let mut i: usize = 0;
    while i < v.len()
        invariant
            i <= v@.len(),
            v@.len() == orig.len(),
            forall|j: int| i <= j < orig.len() ==> v@[j] == orig[j],
            r@ == new_dependencies(orig.take(i as int), views(base@)),
        decreases v.len() - i,
    {
        assert(orig.take(i + 1).drop_last() =~= orig.take(i as int));
        let mut d = UnusedDependency {
            package_name: String::new(),
            location: crate::dependency_usage::DependencyLocation::Dependencies,
            path: String::new(),
            line: 0,
        };
        v.set_and_swap(i, &mut d);
        if !holds(base, &d.package_name) {
            r.push(d);
        }
        i = i + 1;
    }
    assert(orig.take(orig.len() as int) =~= orig);
    r
}

/// Filter results to only include issues not present in the baseline;
/// the other findings stay as they are.
pub fn filter_new_issues(results: AnalysisResults, baseline: &BaselineData) -> (r: AnalysisResults)
    ensures
        r.unused_files@ == new_files(results.unused_files@, views(baseline.unused_files@)),
        r.unused_exports@ == new_exports(results.unused_exports@, views(baseline.unused_exports@)),
        r.unused_types@ == new_exports(results.unused_types@, views(baseline.unused_types@)),
        r.unused_dependencies@ == new_dependencies(results.unused_dependencies@, views(baseline.unused_deps@)),
        r.unused_dev_dependencies@ == new_dependencies(results.unused_dev_dependencies@, views(baseline.unused_dev_deps@)),
        r.unused_enum_members == results.unused_enum_members,
        r.unused_class_members == results.unused_class_members,
        r.unused_optional_dependencies == results.unused_optional_dependencies,
        r.unlisted_dependencies == results.unlisted_dependencies,
        r.unresolved_imports == results.unresolved_imports,
        r.duplicate_exports == results.duplicate_exports,
{
    let AnalysisResults {
        unused_files,
        unused_exports,
        unused_types,
        unused_enum_members,
        unused_class_members,
        unused_dependencies,
        unused_dev_dependencies,
        unused_optional_dependencies,
        unlisted_dependencies,
        unresolved_imports,
        duplicate_exports,
    } = results;
    AnalysisResults {
        unused_files: retain_new_files(unused_files, &baseline.unused_files),
        unused_exports: retain_new_exports(unused_exports, &baseline.unused_exports),
        unused_types: retain_new_exports(unused_types, &baseline.unused_types),
        unused_enum_members,
        unused_class_members,
        unused_dependencies: retain_new_dependencies(unused_dependencies, &baseline.unused_deps),
        unused_dev_dependencies: retain_new_dependencies(unused_dev_dependencies, &baseline.unused_dev_deps),
        unused_optional_dependencies,
        unlisted_dependencies,
        unresolved_imports,
        duplicate_exports,
    }
}

// ---- laws --------------------------------------------------------------

proof fn lemma_new_files_of_own_keys(v: Seq<UnusedFile>, base: Seq<Seq<char>>)
    requires
        forall|k: int| 0 <= k < v.len() ==> base.contains(#[trigger] v[k].path@),
    ensures
        new_files(v, base).len() == 0,
    decreases v.len(),
{
    if v.len() > 0 {
        assert(base.contains(v[v.len() - 1].path@));
        assert forall|k: int| 0 <= k < v.drop_last().len() implies base.contains(#[trigger] v.drop_last()[k].path@) by {
            assert(v.drop_last()[k] == v[k]);
        }
        lemma_new_files_of_own_keys(v.drop_last(), base);
    }
}

proof fn lemma_new_exports_of_own_keys(v: Seq<UnusedExport>, base: Seq<Seq<char>>)
    requires
        forall|k: int| 0 <= k < v.len() ==> base.contains(export_key(#[trigger] v[k])),
    ensures
        new_exports(v, base).len() == 0,
    decreases v.len(),
{
    if v.len() > 0 {
        assert(base.contains(export_key(v[v.len() - 1])));
        assert forall|k: int| 0 <= k < v.drop_last().len() implies base.contains(export_key(#[trigger] v.drop_last()[k])) by {
            assert(v.drop_last()[k] == v[k]);
        }
        lemma_new_exports_of_own_keys(v.drop_last(), base);
    }
}

proof fn lemma_new_dependencies_of_own_keys(v: Seq<UnusedDependency>, base: Seq<Seq<char>>)
    requires
        forall|k: int| 0 <= k < v.len() ==> base.contains(#[trigger] v[k].package_name@),
    ensures
        new_dependencies(v, base).len() == 0,
    decreases v.len(),
{
    if v.len() > 0 {
        assert(base.contains(v[v.len() - 1].package_name@));
        assert forall|k: int| 0 <= k < v.drop_last().len() implies base.contains(#[trigger] v.drop_last()[k].package_name@) by {
            assert(v.drop_last()[k] == v[k]);
        }
        lemma_new_dependencies_of_own_keys(v.drop_last(), base);
    }
}

/// A run compared against its own baseline has no new unused files,
/// exports, types, dependencies or dev dependencies.
pub proof fn lemma_own_baseline_hides_all(results: AnalysisResults)
    ensures
        new_files(results.unused_files@, file_keys(results.unused_files@)).len() == 0,
        new_exports(results.unused_exports@, export_keys(results.unused_exports@)).len() == 0,
        new_exports(results.unused_types@, export_keys(results.unused_types@)).len() == 0,
        new_dependencies(results.unused_dependencies@, dependency_keys(results.unused_dependencies@)).len() == 0,
        new_dependencies(results.unused_dev_dependencies@, dependency_keys(results.unused_dev_dependencies@)).len() == 0,
{
    let fs = results.unused_files@;
    assert forall|k: int| 0 <= k < fs.len() implies file_keys(fs).contains(#[trigger] fs[k].path@) by {
        assert(file_keys(fs)[k] == fs[k].path@);
    }
    lemma_new_files_of_own_keys(fs, file_keys(fs));
    let es = results.unused_exports@;
    assert forall|k: int| 0 <= k < es.len() implies export_keys(es).contains(export_key(#[trigger] es[k])) by {
        assert(export_keys(es)[k] == export_key(es[k]));
    }
    lemma_new_exports_of_own_keys(es, export_keys(es));
    let ts = results.unused_types@;
    assert forall|k: int| 0 <= k < ts.len() implies export_keys(ts).contains(export_key(#[trigger] ts[k])) by {
        assert(export_keys(ts)[k] == export_key(ts[k]));
    }
    lemma_new_exports_of_own_keys(ts, export_keys(ts));
    let ds = results.unused_dependencies@;
    assert forall|k: int| 0 <= k < ds.len() implies dependency_keys(ds).contains(#[trigger] ds[k].package_name@) by {
        assert(dependency_keys(ds)[k] == ds[k].package_name@);
    }
    lemma_new_dependencies_of_own_keys(ds, dependency_keys(ds));
    let vs = results.unused_dev_dependencies@;
    assert forall|k: int| 0 <= k < vs.len() implies dependency_keys(vs).contains(#[trigger] vs[k].package_name@) by {
        assert(dependency_keys(vs)[k] == vs[k].package_name@);
    }
    lemma_new_dependencies_of_own_keys(vs, dependency_keys(vs));
}

/// An empty baseline hides nothing.
pub proof fn lemma_empty_baseline_keeps_all(fs: Seq<UnusedFile>, es: Seq<UnusedExport>, ds: Seq<UnusedDependency>)
    ensures
        new_files(fs, seq![]) == fs,
        new_exports(es, seq![]) == es,
        new_dependencies(ds, seq![]) == ds,
    decreases fs.len() + es.len() + ds.len(),
{
    if fs.len() > 0 {
        lemma_empty_baseline_keeps_all(fs.drop_last(), es, ds);
        assert(fs.drop_last().push(fs.last()) =~= fs);
    }
    if es.len() > 0 {
        lemma_empty_baseline_keeps_all(fs, es.drop_last(), ds);
        assert(es.drop_last().push(es.last()) =~= es);
    }
    if ds.len() > 0 {
        lemma_empty_baseline_keeps_all(fs, es, ds.drop_last());
        assert(ds.drop_last().push(ds.last()) =~= ds);
    }
}

} // verus!
