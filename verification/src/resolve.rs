//! Import specifiers of a module together with what they resolved to.
use vstd::prelude::*;

use crate::discover::FileId;
use crate::extract::{ExportInfo, ImportInfo, ImportedName, MemberAccess, ReExportInfo, RequireCallInfo, Span};
use crate::graph::{name_view, NameView};
use crate::text::{copy_string, str_chars, string_from_range};

verus! {

/// What an import specifier resolved to.
#[derive(Debug, Clone)]
pub enum ResolveResult {
    /// A file of the project.
    InternalModule(FileId),
    /// A file outside the project.
    ExternalFile(String),
    /// An npm package, by package name.
    NpmPackage(String),
    /// The specifier could not be resolved.
    Unresolvable(String),
}

/// An import with its resolution.
#[derive(Debug, Clone)]
pub struct ResolvedImport {
    pub info: ImportInfo,
    pub target: ResolveResult,
}

/// A re-export with its resolution.
#[derive(Debug, Clone)]
pub struct ResolvedReExport {
    pub info: ReExportInfo,
    pub target: ResolveResult,
}

/// A module with all its specifiers resolved.
#[derive(Debug, Clone)]
pub struct ResolvedModule {
    pub file_id: FileId,
    pub path: String,
    pub exports: Vec<ExportInfo>,
    pub re_exports: Vec<ResolvedReExport>,
    pub resolved_imports: Vec<ResolvedImport>,
    pub resolved_dynamic_imports: Vec<ResolvedImport>,
    pub member_accesses: Vec<MemberAccess>,
    /// Local names used as whole objects (`Object.values(x)`, `for..in`).
    pub whole_object_uses: Vec<String>,
    pub has_cjs_exports: bool,
}

/// The position of the first `/` at or after `i`, or the length when none follows.
pub open spec fn next_slash(s: Seq<char>, i: int) -> int
    decreases s.len() - i,
{
    if i < 0 || i >= s.len() {
        s.len() as int
    } else if s[i] == '/' {
        i
    } else {
        next_slash(s, i + 1)
    }
}

/// The npm package that a bare specifier names: its first path segment, or
/// for a scoped specifier (`@scope/name/...`) its first two.
pub open spec fn package_name(s: Seq<char>) -> Seq<char> {
    if s.len() > 0 && s[0] == '@' {
        let first = next_slash(s, 0);
        if first == s.len() { s } else { s.take(next_slash(s, first + 1)) }
    } else {
        s.take(next_slash(s, 0))
    }
}

proof fn lemma_next_slash_bounds(s: Seq<char>, i: int)
    requires
        0 <= i <= s.len(),
    ensures
        i <= next_slash(s, i) <= s.len(),
        forall|j: int| i <= j < next_slash(s, i) ==> s[j] != '/',
        next_slash(s, i) < s.len() ==> s[next_slash(s, i)] == '/',
    decreases s.len() - i,
{
    if i < s.len() && s[i] != '/' {
        lemma_next_slash_bounds(s, i + 1);
    }
}

/// The first `/` at or after `i` is at `r` when none comes before `r` and one
/// stands there (or `r` is the end).
proof fn lemma_next_slash_at(s: Seq<char>, i: int, r: int)
    requires
        0 <= i <= r <= s.len(),
        forall|j: int| i <= j < r ==> s[j] != '/',
        r == s.len() || s[r] == '/',
    ensures
        next_slash(s, i) == r,
    decreases r - i,
{
    if i < r {
        lemma_next_slash_at(s, i + 1, r);
    }
}

/// The package name of a package name is the name itself.
pub proof fn lemma_package_name_idempotent(s: Seq<char>)
    ensures
        package_name(package_name(s)) == package_name(s),
{
    let t = package_name(s);
    if s.len() > 0 && s[0] == '@' {
        let first = next_slash(s, 0);
        lemma_next_slash_bounds(s, 0);
        if first < s.len() {
            let second = next_slash(s, first + 1);
            lemma_next_slash_bounds(s, first + 1);
            assert(t == s.take(second));
            assert(t[0] == '@');
            lemma_next_slash_at(t, 0, first);
            lemma_next_slash_at(t, first + 1, t.len() as int);
            assert(t.take(t.len() as int) =~= t);
        }
    } else {
        let n = next_slash(s, 0);
        lemma_next_slash_bounds(s, 0);
        assert(t == s.take(n));
        lemma_next_slash_at(t, 0, t.len() as int);
        assert(t.take(t.len() as int) =~= t);
        if t.len() > 0 {
            assert(t[0] == s[0]);
        }
    }
}

fn next_slash_exec(v: &Vec<char>, from: usize) -> (r: usize)
    requires
        from <= v@.len(),
    ensures
        r == next_slash(v@, from as int),
        from <= r <= v@.len(),
{
    proof {
        lemma_next_slash_bounds(v@, from as int);
    }
    let mut i = from;
    while i < v.len()
        invariant
            from <= i <= v@.len(),
            next_slash(v@, i as int) == next_slash(v@, from as int),
        decreases v.len() - i,
    {
        if v[i] == '/' {
            return i;
        }
        i = i + 1;
    }
    i
}

/// The npm package name of a bare import specifier (`react/jsx-runtime` is
/// `react`, `@scope/pkg/utils` is `@scope/pkg`).
pub fn extract_package_name(specifier: &str) -> (r: String)
    ensures
        r@ == package_name(specifier@),
{
    let v = str_chars(specifier);
    if v.len() > 0 && v[0] == '@' {
        let first = next_slash_exec(&v, 0);
        if first == v.len() {
            let r = string_from_range(&v, 0, v.len());
            assert(v@.subrange(0, v@.len() as int) =~= v@);
            r
        } else {
            let second = next_slash_exec(&v, first + 1);
            let r = string_from_range(&v, 0, second);
            assert(v@.subrange(0, second as int) =~= v@.take(second as int));
            r
        }
    } else {
        let first = next_slash_exec(&v, 0);
        let r = string_from_range(&v, 0, first);
        assert(v@.subrange(0, first as int) =~= v@.take(first as int));
        r
    }
}

// ---- attaching resolutions to a module's specifiers ------------------------

/// What a specifier resolved to, as a value.
pub enum TargetView {
    Internal(FileId),
    External(Seq<char>),
    Npm(Seq<char>),
    Unresolvable(Seq<char>),
}

pub open spec fn target_view(t: ResolveResult) -> TargetView {
    match t {
        ResolveResult::InternalModule(id) => TargetView::Internal(id),
        ResolveResult::ExternalFile(p) => TargetView::External(p@),
        ResolveResult::NpmPackage(n) => TargetView::Npm(n@),
        ResolveResult::Unresolvable(s) => TargetView::Unresolvable(s@),
    }
}

pub open spec fn target_views(v: Seq<ResolveResult>) -> Seq<TargetView> {
    v.map_values(|t: ResolveResult| target_view(t))
}

/// An import as a value: source, imported name, local name, type-only, span.
pub type ImportView = (Seq<char>, NameView, Seq<char>, bool, Span);

pub open spec fn import_view(i: ImportInfo) -> ImportView {
    (i.source@, name_view(i.imported_name), i.local_name@, i.is_type_only, i.span)
}

pub open spec fn resolved_import_view(r: ResolvedImport) -> (ImportView, TargetView) {
    (import_view(r.info), target_view(r.target))
}

pub open spec fn resolved_import_views(v: Seq<ResolvedImport>) -> Seq<(ImportView, TargetView)> {
    v.map_values(|r: ResolvedImport| resolved_import_view(r))
}

/// A re-export as a value: source, imported name, exported name, type-only.
pub type ReExportView = (Seq<char>, Seq<char>, Seq<char>, bool);

pub open spec fn re_export_view(r: ReExportInfo) -> ReExportView {
    (r.source@, r.imported_name@, r.exported_name@, r.is_type_only)
}

pub open spec fn resolved_re_export_views(v: Seq<ResolvedReExport>) -> Seq<(ReExportView, TargetView)> {
    v.map_values(|r: ResolvedReExport| (re_export_view(r.info), target_view(r.target)))
}

fn copy_target(t: &ResolveResult) -> (r: ResolveResult)
    ensures
        target_view(r) == target_view(*t),
{
    match t {
        ResolveResult::InternalModule(id) => ResolveResult::InternalModule(*id),
        ResolveResult::ExternalFile(p) => ResolveResult::ExternalFile(copy_string(p)),
        ResolveResult::NpmPackage(n) => ResolveResult::NpmPackage(copy_string(n)),
        ResolveResult::Unresolvable(s) => ResolveResult::Unresolvable(copy_string(s)),
    }
}

fn copy_imported_name(n: &ImportedName) -> (r: ImportedName)
    ensures
        name_view(r) == name_view(*n),
{
    match n {
        ImportedName::Named(s) => ImportedName::Named(copy_string(s)),
        ImportedName::Default => ImportedName::Default,
        ImportedName::Namespace => ImportedName::Namespace,
        ImportedName::SideEffect => ImportedName::SideEffect,
    }
}

/// The imports that a `require()` call stands for, each with the call's
/// resolution: one named import per destructured name, else one namespace
/// import under the bound name (empty when none is bound).
pub open spec fn require_imports_of(req: RequireCallInfo, t: TargetView) -> Seq<(ImportView, TargetView)> {
    if req.destructured_names@.len() == 0 {
        let local = match req.local_name {
            Some(l) => l@,
            None => Seq::empty(),
        };
        seq![((req.source@, NameView::Namespace, local, false, req.span), t)]
    } else {
        req.destructured_names@.map_values(|n: String| ((req.source@, NameView::Named(n@), n@, false, req.span), t))
    }
}

/// Turn one `require()` call, given what its source resolved to, into
/// imports (see [`require_imports_of`]).
pub fn resolve_single_require(req: &RequireCallInfo, target: &ResolveResult) -> (r: Vec<ResolvedImport>)
    ensures
        resolved_import_views(r@) == require_imports_of(*req, target_view(*target)),
{
    let mut r: Vec<ResolvedImport> = Vec::new();
    if req.destructured_names.len() == 0 {
        let local = match &req.local_name {
            Some(l) => copy_string(l),
            None => String::new(),
        };
        r.push(ResolvedImport {
            info: ImportInfo {
                source: copy_string(&req.source),
                imported_name: ImportedName::Namespace,
                local_name: local,
                is_type_only: false,
                span: req.span,
            },
            target: copy_target(target),
        });
        assert(resolved_import_views(r@) =~= require_imports_of(*req, target_view(*target)));
        return r;
    }
    let names = &req.destructured_names;
    let ghost want = require_imports_of(*req, target_view(*target));
    let mut i: usize = 0;
    while i < names.len()
        invariant
            i <= names@.len(),
            names@ == req.destructured_names@,
            names@.len() > 0,
            want == require_imports_of(*req, target_view(*target)),
            resolved_import_views(r@) == want.take(i as int),
        decreases names.len() - i,
    {
        let ghost before = resolved_import_views(r@);
        r.push(ResolvedImport {
            info: ImportInfo {
                source: copy_string(&req.source),
                imported_name: ImportedName::Named(copy_string(&names[i])),
                local_name: copy_string(&names[i]),
                is_type_only: false,
                span: req.span,
            },
            target: copy_target(target),
        });
        assert(resolved_import_views(r@) =~= before.push(want[i as int]));
        assert(want.take(i + 1) =~= want.take(i as int).push(want[i as int]));
        i = i + 1;
    }
    assert(want.take(names@.len() as int) =~= want);
    r
}

/// The imports of a list of `require()` calls, each call given with what its
/// source resolved to, in order.
pub open spec fn require_imports(reqs: Seq<RequireCallInfo>, targets: Seq<TargetView>) -> Seq<(ImportView, TargetView)>
    decreases reqs.len(),
{
    if reqs.len() == 0 {
        seq![]
    } else {
        require_imports(reqs.drop_last(), targets) + require_imports_of(reqs.last(), targets[reqs.len() - 1])
    }
}

/// Resolve CommonJS `require()` calls: `targets[k]` is what the source of
/// `require_calls[k]` resolved to.
pub fn resolve_require_imports(require_calls: &Vec<RequireCallInfo>, targets: &Vec<ResolveResult>) -> (r: Vec<ResolvedImport>)
    requires
        targets@.len() == require_calls@.len(),
    ensures
        resolved_import_views(r@) == require_imports(require_calls@, target_views(targets@)),
{
    let mut r: Vec<ResolvedImport> = Vec::new();
    let mut i: usize = 0;
    while i < require_calls.len()
        invariant
            i <= require_calls@.len(),
            targets@.len() == require_calls@.len(),
            resolved_import_views(r@) == require_imports(require_calls@.take(i as int), target_views(targets@)),
        decreases require_calls.len() - i,
    {
        let mut more = resolve_single_require(&require_calls[i], &targets[i]);
        let ghost before = resolved_import_views(r@);
        let ghost added = resolved_import_views(more@);
        r.append(&mut more);
        assert(resolved_import_views(r@) =~= before + added);
        assert(require_calls@.take(i + 1).drop_last() =~= require_calls@.take(i as int));
        assert(target_views(targets@)[i as int] == target_view(targets@[i as int]));
        i = i + 1;
    }
    assert(require_calls@.take(require_calls@.len() as int) =~= require_calls@);
    r
}

/// Resolve static imports: `targets[k]` is what the source of `imports[k]`
/// resolved to.
pub fn resolve_static_imports(imports: &Vec<ImportInfo>, targets: &Vec<ResolveResult>) -> (r: Vec<ResolvedImport>)
    requires
        targets@.len() == imports@.len(),
    ensures
        r@.len() == imports@.len(),
        forall|k: int| 0 <= k < r@.len() ==> #[trigger] resolved_import_view(r@[k]) == (import_view(imports@[k]), target_view(targets@[k])),
{
    let mut r: Vec<ResolvedImport> = Vec::new();
    let mut i: usize = 0;
    while i < imports.len()
        invariant
            i <= imports@.len(),
            targets@.len() == imports@.len(),
            r@.len() == i,
            forall|k: int| 0 <= k < i ==> #[trigger] resolved_import_view(r@[k]) == (import_view(imports@[k]), target_view(targets@[k])),
        decreases imports.len() - i,
    {
        let imp = &imports[i];
        r.push(ResolvedImport {
            info: ImportInfo {
                source: copy_string(&imp.source),
                imported_name: copy_imported_name(&imp.imported_name),
                local_name: copy_string(&imp.local_name),
                is_type_only: imp.is_type_only,
                span: imp.span,
            },
            target: copy_target(&targets[i]),
        });
        i = i + 1;
    }
    r
}

/// Resolve re-export sources: `targets[k]` is what the source of
/// `re_exports[k]` resolved to.
pub fn resolve_re_exports(re_exports: &Vec<ReExportInfo>, targets: &Vec<ResolveResult>) -> (r: Vec<ResolvedReExport>)
    requires
        targets@.len() == re_exports@.len(),
    ensures
        r@.len() == re_exports@.len(),
        forall|k: int| 0 <= k < r@.len() ==> re_export_view((#[trigger] r@[k]).info) == re_export_view(re_exports@[k])
            && target_view(r@[k].target) == target_view(targets@[k]),
{
    let mut r: Vec<ResolvedReExport> = Vec::new();
    let mut i: usize = 0;
    while i < re_exports.len()
        invariant
            i <= re_exports@.len(),
            targets@.len() == re_exports@.len(),
            r@.len() == i,
            forall|k: int| 0 <= k < i ==> re_export_view((#[trigger] r@[k]).info) == re_export_view(re_exports@[k])
                && target_view(r@[k].target) == target_view(targets@[k]),
        decreases re_exports.len() - i,
    {
        let re = &re_exports[i];
        r.push(ResolvedReExport {
            info: ReExportInfo {
                source: copy_string(&re.source),
                imported_name: copy_string(&re.imported_name),
                exported_name: copy_string(&re.exported_name),
                is_type_only: re.is_type_only,
            },
            target: copy_target(&targets[i]),
        });
        i = i + 1;
    }
    r
}

} // verus!
