//! The module dependency graph: one node per discovered file, edges from
//! importers to the project files they import, references from importers
//! to the exports they use, and reachability from the entry points.
use vstd::prelude::*;

use fixedbitset::FixedBitSet;

use crate::discover::{DiscoveredFile, EntryPoint, FileId};
use crate::extract::{export_matches, export_matches_spec, ExportName, ImportedName, MemberInfo, Span};
use crate::resolve::{ResolveResult, ResolvedImport, ResolvedModule, ResolvedReExport};
use crate::text::{copy_string, str_eq, string_eq};

verus! {

// ---- the bit set -------------------------------------------------------

#[verifier::external_type_specification]
#[verifier::external_body]
pub struct ExFixedBitSet(FixedBitSet);

/// The bits that are set in a bit set.
pub uninterp spec fn bitset_ones(b: FixedBitSet) -> Set<usize>;

/// The number of bits that a bit set was made with.
pub uninterp spec fn bitset_len(b: FixedBitSet) -> usize;

/// `FixedBitSet::with_capacity`: a set of `bits` bits, none of them set.
#[verifier::external_body]
fn bitset_with_capacity(bits: usize) -> (r: FixedBitSet)
    ensures
        bitset_ones(r) == Set::<usize>::empty(),
        bitset_len(r) == bits,
{
    FixedBitSet::with_capacity(bits)
}

/// `FixedBitSet::insert`: sets one bit; it panics beyond the length, which
/// the precondition rules out.
#[verifier::external_body]
fn bitset_insert(b: &mut FixedBitSet, bit: usize)
    requires
        bit < bitset_len(*old(b)),
    ensures
        bitset_ones(*final(b)) == bitset_ones(*old(b)).insert(bit),
        bitset_len(*final(b)) == bitset_len(*old(b)),
{
    b.insert(bit)
}

/// `FixedBitSet::contains`: whether a bit within the length is set; `false`
/// beyond the length.
#[verifier::external_body]
fn bitset_contains(b: &FixedBitSet, bit: usize) -> (r: bool)
    ensures
        r == (bit < bitset_len(*b) && bitset_ones(*b).contains(bit)),
{
    b.contains(bit)
}

/// `FixedBitSet::len`: the number of bits it was made with.
#[verifier::external_body]
fn bitset_length(b: &FixedBitSet) -> (r: usize)
    ensures
        r == bitset_len(*b),
{
    b.len()
}

// ---- graph types -------------------------------------------------------

/// A re-export edge, tracking which exports are forwarded from which module.
#[derive(Debug, Clone)]
pub struct ReExportEdge {
    /// The module being re-exported from.
    pub source_file: FileId,
    /// The name imported from the source (or "*" for star re-exports).
    pub imported_name: String,
    /// The name exported from this module.
    pub exported_name: String,
    /// Whether this is a type-only re-export.
    pub is_type_only: bool,
}

/// How an export is referenced.
#[derive(Debug, Clone, Copy, PartialEq, Eq, Structural)]
pub enum ReferenceKind {
    NamedImport,
    DefaultImport,
    NamespaceImport,
    ReExport,
    DynamicImport,
    SideEffectImport,
}

/// A reference to an export from another file.
#[derive(Debug, Clone, Copy, PartialEq, Eq, Structural)]
pub struct SymbolReference {
    pub from_file: FileId,
    pub kind: ReferenceKind,
}

/// An export with reference tracking.
#[derive(Debug, Clone)]
pub struct ExportSymbol {
    pub name: ExportName,
    pub is_type_only: bool,
    pub span: Span,
    /// Which files reference this export.
    pub references: Vec<SymbolReference>,
    /// Members of this export (enum members, class members).
    pub members: Vec<MemberInfo>,
}

/// A single module in the graph.
#[derive(Debug)]
pub struct ModuleNode {
    pub file_id: FileId,
    pub path: String,
    /// Range into the flat edge list.
    pub edge_range: std::ops::Range<usize>,
    /// Exports declared by this module.
    pub exports: Vec<ExportSymbol>,
    /// Re-exports from this module (export { x } from './y', export * from './z').
    pub re_exports: Vec<ReExportEdge>,
    /// Whether this module is an entry point.
    pub is_entry_point: bool,
    /// Whether this module is reachable from any entry point.
    pub is_reachable: bool,
    /// Whether this module has CJS exports (module.exports / exports.*).
    pub has_cjs_exports: bool,
}

/// What an import takes, as text.
pub enum NameView {
    Named(Seq<char>),
    Default,
    Namespace,
    SideEffect,
}

pub open spec fn name_view(n: ImportedName) -> NameView {
    match n {
        ImportedName::Named(s) => NameView::Named(s@),
        ImportedName::Default => NameView::Default,
        ImportedName::Namespace => NameView::Namespace,
        ImportedName::SideEffect => NameView::SideEffect,
    }
}

/// A symbol imported across an edge.
#[derive(Debug)]
pub struct ImportedSymbol {
    pub imported_name: ImportedName,
    pub local_name: String,
}

/// The mathematical value of an [`ImportedSymbol`].
pub struct SymbolSpec {
    pub name: NameView,
    pub local: Seq<char>,
}

pub open spec fn symbol_view(s: ImportedSymbol) -> SymbolSpec {
    SymbolSpec { name: name_view(s.imported_name), local: s.local_name@ }
}

pub open spec fn symbols_view(v: Seq<ImportedSymbol>) -> Seq<SymbolSpec> {
    v.map_values(|s: ImportedSymbol| symbol_view(s))
}

/// An edge in the module graph: all symbols that one file imports from
/// another.
#[derive(Debug)]
pub struct Edge {
    pub source: FileId,
    pub target: FileId,
    pub symbols: Vec<ImportedSymbol>,
    pub is_dynamic: bool,
    pub is_side_effect: bool,
}

// ---- what a module imports ---------------------------------------------

pub open spec fn internal_target(t: ResolveResult) -> Option<FileId> {
    match t {
        ResolveResult::InternalModule(id) => Some(id),
        _ => None,
    }
}

/// The project-internal symbols of imports, with their targets, in order.
pub open spec fn import_symbols(s: Seq<ResolvedImport>) -> Seq<(FileId, SymbolSpec)>
    decreases s.len(),
{
    if s.len() == 0 {
        seq![]
    } else {
        let prev = import_symbols(s.drop_last());
        match internal_target(s.last().target) {
            Some(t) => prev.push((t, SymbolSpec { name: name_view(s.last().info.imported_name), local: s.last().info.local_name@ })),
            None => prev,
        }
    }
}

/// The name a re-export takes from its source: everything for `*`.
pub open spec fn re_export_name(imported: Seq<char>) -> NameView {
    if imported == "*"@ { NameView::Namespace } else { NameView::Named(imported) }
}

/// The project-internal symbols of re-exports, with their targets, in order.
pub open spec fn re_export_symbols(s: Seq<ResolvedReExport>) -> Seq<(FileId, SymbolSpec)>
    decreases s.len(),
{
    if s.len() == 0 {
        seq![]
    } else {
        let prev = re_export_symbols(s.drop_last());
        match internal_target(s.last().target) {
            Some(t) => prev.push((t, SymbolSpec { name: re_export_name(s.last().info.imported_name@), local: s.last().info.exported_name@ })),
            None => prev,
        }
    }
}

/// The project-internal dynamic imports, as side-effect symbols, in order.
pub open spec fn dynamic_symbols(s: Seq<ResolvedImport>) -> Seq<(FileId, SymbolSpec)>
    decreases s.len(),
{
    if s.len() == 0 {
        seq![]
    } else {
        let prev = dynamic_symbols(s.drop_last());
        match internal_target(s.last().target) {
            Some(t) => prev.push((t, SymbolSpec { name: NameView::SideEffect, local: seq![] })),
            None => prev,
        }
    }
}

/// Everything a module imports from project files: imports, then
/// re-exports, then dynamic imports.
pub open spec fn symbol_stream(m: ResolvedModule) -> Seq<(FileId, SymbolSpec)> {
    import_symbols(m.resolved_imports@) + re_export_symbols(m.re_exports@) + dynamic_symbols(m.resolved_dynamic_imports@)
}

/// The items of `s` in order of first appearance, each once.
pub open spec fn first_appearances<A>(s: Seq<A>) -> Seq<A>
    decreases s.len(),
{
    if s.len() == 0 {
        seq![]
    } else {
        let p = first_appearances(s.drop_last());
        if p.contains(s.last()) { p } else { p.push(s.last()) }
    }
}

pub proof fn lemma_first_appearances<A>(s: Seq<A>)
    ensures
        first_appearances(s).to_set() == s.to_set(),
        forall|i: int, j: int| 0 <= i < j < first_appearances(s).len() ==> first_appearances(s)[i] != first_appearances(s)[j],
    decreases s.len(),
{
    if s.len() > 0 {
        let d = s.drop_last();
        lemma_first_appearances(d);
        let p = first_appearances(d);
        assert(s.to_set() =~= d.to_set().insert(s.last())) by {
            assert forall|x: A| s.to_set().contains(x) implies d.to_set().insert(s.last()).contains(x) by {
                let k = choose|k: int| 0 <= k < s.len() && s[k] == x;
                if k < s.len() - 1 {
                    assert(d[k] == x);
                }
            }
            assert forall|x: A| d.to_set().insert(s.last()).contains(x) implies s.to_set().contains(x) by {
                if x == s.last() {
                    assert(s[s.len() - 1] == x);
                } else {
                    let k = choose|k: int| 0 <= k < d.len() && d[k] == x;
                    assert(s[k] == x);
                }
            }
        }
        if p.contains(s.last()) {
            assert(p.to_set().contains(s.last()));
            assert(s.to_set() =~= p.to_set());
        } else {
            let q = p.push(s.last());
            assert(q.to_set() =~= p.to_set().insert(s.last())) by {
                assert forall|x: A| q.to_set().contains(x) implies p.to_set().insert(s.last()).contains(x) by {
                    let k = choose|k: int| 0 <= k < q.len() && q[k] == x;
                    if k < p.len() {
                        assert(p[k] == x);
                    }
                }
                assert forall|x: A| p.to_set().insert(s.last()).contains(x) implies q.to_set().contains(x) by {
                    if x == s.last() {
                        assert(q[p.len() as int] == x);
                    } else {
                        let k = choose|k: int| 0 <= k < p.len() && p[k] == x;
                        assert(q[k] == x);
                    }
                }
            }
            assert forall|i: int, j: int| 0 <= i < j < q.len() implies q[i] != q[j] by {
                if j == p.len() {
                    assert(q[i] == p[i]);
                    assert(p.contains(p[i]));
                }
            }
        }
    }
}

pub open spec fn stream_targets(st: Seq<(FileId, SymbolSpec)>) -> Seq<FileId> {
    st.map_values(|p: (FileId, SymbolSpec)| p.0)
}

/// The symbols of the stream that go to `t`, in order.
pub open spec fn symbols_to(st: Seq<(FileId, SymbolSpec)>, t: FileId) -> Seq<SymbolSpec>
    decreases st.len(),
{
    if st.len() == 0 {
        seq![]
    } else {
        let prev = symbols_to(st.drop_last(), t);
        if st.last().0 == t { prev.push(st.last().1) } else { prev }
    }
}

/// Whether one of the symbols only runs the module for its side effects.
pub open spec fn has_side_effect_symbol(s: Seq<SymbolSpec>) -> bool {
    exists|k: int| 0 <= k < s.len() && (#[trigger] s[k]).name is SideEffect
}

/// The edges of a file with resolved module `m`: one per distinct target,
/// in order of first appearance, holding the symbols that go there.
pub open spec fn edge_matches(source: FileId, st: Seq<(FileId, SymbolSpec)>, k: int, e: Edge) -> bool {
    let t = first_appearances(stream_targets(st))[k];
    &&& e.source == source
    &&& e.target == t
    &&& symbols_view(e.symbols@) == symbols_to(st, t)
    &&& !e.is_dynamic
    &&& e.is_side_effect == has_side_effect_symbol(symbols_to(st, t))
}

pub open spec fn edges_match(source: FileId, st: Seq<(FileId, SymbolSpec)>, edges: Seq<Edge>) -> bool {
    &&& edges.len() == first_appearances(stream_targets(st)).len()
    &&& forall|k: int| 0 <= k < edges.len() ==> edge_matches(source, st, k, #[trigger] edges[k])
}


pub open spec fn stream_view(v: Seq<(FileId, ImportedSymbol)>) -> Seq<(FileId, SymbolSpec)> {
    v.map_values(|p: (FileId, ImportedSymbol)| (p.0, symbol_view(p.1)))
}

fn copy_imported_name(n: &ImportedName) -> (r: ImportedName)
    ensures
        name_view(r) == name_view(*n),
{
    match n {
        ImportedName::Named(s) => ImportedName::Named(copy_string(s)),
        ImportedName::Default => ImportedName::Default,
        ImportedName::Namespace => ImportedName::Namespace,
        ImportedName::SideEffect => ImportedName::SideEffect,
    }
}

fn copy_symbol(s: &ImportedSymbol) -> (r: ImportedSymbol)
    ensures
        symbol_view(r) == symbol_view(*s),
{
    ImportedSymbol { imported_name: copy_imported_name(&s.imported_name), local_name: copy_string(&s.local_name) }
}

fn push_symbol(out: &mut Vec<(FileId, ImportedSymbol)>, t: FileId, s: ImportedSymbol)
    ensures
        stream_view(final(out)@) == stream_view(old(out)@).push((t, symbol_view(s))),
{
    let ghost before = stream_view(out@);
    out.push((t, s));
    assert(stream_view(out@) =~= before.push((t, symbol_view(s))));
}

fn target_of(r: &ResolveResult) -> (t: Option<FileId>)
    ensures
        t == internal_target(*r),
{
    match r {
        ResolveResult::InternalModule(id) => Some(*id),
        _ => None,
    }
}

/// Everything a module imports from project files, in order (see
/// [`symbol_stream`]).
fn module_symbols(m: &ResolvedModule) -> (r: Vec<(FileId, ImportedSymbol)>)
    ensures
        stream_view(r@) == symbol_stream(*m),
{
    let mut r: Vec<(FileId, ImportedSymbol)> = Vec::new();
    let mut i: usize = 0;
    while i < m.resolved_imports.len()
        invariant
            i <= m.resolved_imports@.len(),
            stream_view(r@) == import_symbols(m.resolved_imports@.take(i as int)),
        decreases m.resolved_imports.len() - i,
    {
        let imp = &m.resolved_imports[i];
        assert(m.resolved_imports@.take(i + 1).drop_last() =~= m.resolved_imports@.take(i as int));
        match target_of(&imp.target) {
            Some(t) => {
                let sym = ImportedSymbol {
                    imported_name: copy_imported_name(&imp.info.imported_name),
                    local_name: copy_string(&imp.info.local_name),
                };
                push_symbol(&mut r, t, sym);
            },
            None => {},
        }
        i = i + 1;
    }
    assert(m.resolved_imports@.take(m.resolved_imports@.len() as int) =~= m.resolved_imports@);
    let ghost a = stream_view(r@);
    let mut j: usize = 0;
    assert(a + seq![] =~= a);
    while j < m.re_exports.len()
        invariant
            j <= m.re_exports@.len(),
            a == import_symbols(m.resolved_imports@),
            stream_view(r@) == a + re_export_symbols(m.re_exports@.take(j as int)),
        decreases m.re_exports.len() - j,
    {
        let re = &m.re_exports[j];
        assert(m.re_exports@.take(j + 1).drop_last() =~= m.re_exports@.take(j as int));
        match target_of(&re.target) {
            Some(t) => {
                let name = if str_eq(re.info.imported_name.as_str(), "*") {
                    ImportedName::Namespace
                } else {
                    ImportedName::Named(copy_string(&re.info.imported_name))
                };
                let sym = ImportedSymbol { imported_name: name, local_name: copy_string(&re.info.exported_name) };
                let ghost before = stream_view(r@);
                push_symbol(&mut r, t, sym);
                assert(stream_view(r@) =~= a + re_export_symbols(m.re_exports@.take(j + 1)));
            },
            None => {},
        }
        j = j + 1;
    }
    assert(m.re_exports@.take(m.re_exports@.len() as int) =~= m.re_exports@);
    let ghost b = stream_view(r@);
    let mut k: usize = 0;
    assert(b + seq![] =~= b);
    while k < m.resolved_dynamic_imports.len()
        invariant
            k <= m.resolved_dynamic_imports@.len(),
            b == import_symbols(m.resolved_imports@) + re_export_symbols(m.re_exports@),
            stream_view(r@) == b + dynamic_symbols(m.resolved_dynamic_imports@.take(k as int)),
        decreases m.resolved_dynamic_imports.len() - k,
    {
        let imp = &m.resolved_dynamic_imports[k];
        assert(m.resolved_dynamic_imports@.take(k + 1).drop_last() =~= m.resolved_dynamic_imports@.take(k as int));
        match target_of(&imp.target) {
            Some(t) => {
                let sym = ImportedSymbol { imported_name: ImportedName::SideEffect, local_name: String::new() };
                push_symbol(&mut r, t, sym);
                assert(stream_view(r@) =~= b + dynamic_symbols(m.resolved_dynamic_imports@.take(k + 1)));
            },
            None => {},
        }
        k = k + 1;
    }
    assert(m.resolved_dynamic_imports@.take(m.resolved_dynamic_imports@.len() as int) =~= m.resolved_dynamic_imports@);
    r
}

fn find_edge(edges: &Vec<Edge>, t: FileId) -> (r: Option<usize>)
    ensures
        match r {
            Some(k) => k < edges@.len() && edges@[k as int].target == t,
            None => forall|k: int| 0 <= k < edges@.len() ==> edges@[k].target != t,
        },
{
    let mut k: usize = 0;
    while k < edges.len()
        invariant
            k <= edges@.len(),
            forall|j: int| 0 <= j < k ==> edges@[j].target != t,
        decreases edges.len() - k,
    {
        if edges[k].target == t {
            return Some(k);
        }
        k = k + 1;
    }
    None
}

proof fn lemma_stream_step(st: Seq<(FileId, SymbolSpec)>, i: int)
    requires
        0 <= i < st.len(),
    ensures
        stream_targets(st.take(i + 1)) == stream_targets(st.take(i)).push(st[i].0),
        forall|t: FileId| #[trigger] symbols_to(st.take(i + 1), t)
            == if st[i].0 == t { symbols_to(st.take(i), t).push(st[i].1) } else { symbols_to(st.take(i), t) },
{
    assert(st.take(i + 1).drop_last() =~= st.take(i));
    assert(stream_targets(st.take(i + 1)) =~= stream_targets(st.take(i)).push(st[i].0));
}

proof fn lemma_side_effect_push(s: Seq<SymbolSpec>, x: SymbolSpec)
    ensures
        has_side_effect_symbol(s.push(x)) == (has_side_effect_symbol(s) || x.name is SideEffect),
{
    if has_side_effect_symbol(s) {
        let k = choose|k: int| 0 <= k < s.len() && (#[trigger] s[k]).name is SideEffect;
        assert(s.push(x)[k] == s[k]);
    }
    if x.name is SideEffect {
        assert(s.push(x)[s.len() as int] == x);
    }
    if has_side_effect_symbol(s.push(x)) {
        let k = choose|k: int| 0 <= k < s.len() + 1 && (#[trigger] s.push(x)[k]).name is SideEffect;
        if k < s.len() {
            assert(s[k] == s.push(x)[k]);
        }
    }
}

/// One edge per distinct target of the stream, in order of first
/// appearance, holding the symbols that go there.
fn group_edges(source: FileId, stream: &Vec<(FileId, ImportedSymbol)>) -> (edges: Vec<Edge>)
    ensures
        edges_match(source, stream_view(stream@), edges@),
{
    let ghost st = stream_view(stream@);
    let mut edges: Vec<Edge> = Vec::new();
    let mut i: usize = 0;
    assert(st.take(0) =~= seq![]);
    while i < stream.len()
        invariant
            i <= stream@.len(),
            st == stream_view(stream@),
            edges_match(source, st.take(i as int), edges@),
        decreases stream.len() - i,
    {
        proof { lemma_stream_step(st, i as int); }
        let t = stream[i].0;
        let sym = copy_symbol(&stream[i].1);
        assert(st[i as int] == (t, symbol_view(sym)));
        let ghost fa = first_appearances(stream_targets(st.take(i as int)));
        let ghost fa2 = first_appearances(stream_targets(st.take(i + 1)));
        proof {
            lemma_first_appearances(stream_targets(st.take(i as int)));
            assert(stream_targets(st.take(i + 1)).drop_last() =~= stream_targets(st.take(i as int)));
            assert(stream_targets(st.take(i + 1)).last() == t);
        }
        match find_edge(&edges, t) {
            Some(k) => {
                assert(fa.contains(t)) by {
                    assert(fa[k as int] == t);
                }
                assert(fa2 == fa);
                let ghost old_edges = edges@;
                let mut e = Edge { source, target: t, symbols: Vec::new(), is_dynamic: false, is_side_effect: false };
                edges.set_and_swap(k, &mut e);
                assert(e == old_edges[k as int]);
                let ghost before = symbols_view(e.symbols@);
                let is_side = matches!(sym.imported_name, ImportedName::SideEffect);
                e.symbols.push(sym);
                assert(symbols_view(e.symbols@) =~= before.push(symbol_view(sym)));
                proof { lemma_side_effect_push(before, symbol_view(sym)); }
                e.is_side_effect = e.is_side_effect || is_side;
                edges.set(k, e);
                assert forall|j: int| 0 <= j < edges@.len() implies edge_matches(source, st.take(i + 1), j, #[trigger] edges@[j]) by {
                    if j != k {
                        assert(edges@[j] == old_edges[j]);
                        assert(edge_matches(source, st.take(i as int), j, old_edges[j]));
                        assert(fa[j] != t) by {
                            assert(fa[k as int] == t);
                        }
                    }
                }
            },
            None => {
                assert(!fa.contains(t)) by {
                    if fa.contains(t) {
                        let j = choose|j: int| 0 <= j < fa.len() && fa[j] == t;
                        assert(edge_matches(source, st.take(i as int), j, edges@[j]));
                    }
                }
                assert(fa2 == fa.push(t));
                assert(symbols_to(st.take(i as int), t) =~= seq![]) by {
                    if symbols_to(st.take(i as int), t).len() > 0 {
                        lemma_symbols_to_target(st.take(i as int), t);
                        assert(fa.to_set().contains(t));
                    }
                }
                let ghost old_edges = edges@;
                let is_side = matches!(sym.imported_name, ImportedName::SideEffect);
                let mut syms: Vec<ImportedSymbol> = Vec::new();
                syms.push(sym);
                assert(symbols_view(syms@) =~= seq![].push(symbol_view(sym)));
                proof { lemma_side_effect_push(seq![], symbol_view(sym)); }
                edges.push(Edge { source, target: t, symbols: syms, is_dynamic: false, is_side_effect: is_side });
                assert forall|j: int| 0 <= j < edges@.len() implies edge_matches(source, st.take(i + 1), j, #[trigger] edges@[j]) by {
                    if j < old_edges.len() {
                        assert(edges@[j] == old_edges[j]);
                        assert(edge_matches(source, st.take(i as int), j, old_edges[j]));
                        assert(fa[j] != t);
                    }
                }
            },
        }
        i = i + 1;
    }
    assert(st.take(stream@.len() as int) =~= st);
    edges
}

proof fn lemma_symbols_to_target(st: Seq<(FileId, SymbolSpec)>, t: FileId)
    requires
        symbols_to(st, t).len() > 0,
    ensures
        stream_targets(st).to_set().contains(t),
    decreases st.len(),
{
    if st.last().0 == t {
        assert(stream_targets(st)[st.len() - 1] == t);
    } else {
        lemma_symbols_to_target(st.drop_last(), t);
        let k = choose|k: int| 0 <= k < stream_targets(st.drop_last()).len() && stream_targets(st.drop_last())[k] == t;
        assert(stream_targets(st)[k] == t);
    }
}


// ---- the graph's inputs ------------------------------------------------

/// The index of the resolved module of file `id`: the last one listed for it.
pub open spec fn module_index(r: Seq<ResolvedModule>, id: FileId) -> Option<int>
    decreases r.len(),
{
    if r.len() == 0 {
        None
    } else if r.last().file_id == id {
        Some(r.len() - 1)
    } else {
        module_index(r.drop_last(), id)
    }
}

pub proof fn lemma_module_index(r: Seq<ResolvedModule>, id: FileId)
    ensures
        match module_index(r, id) {
            Some(k) => 0 <= k < r.len() && r[k].file_id == id,
            None => forall|k: int| 0 <= k < r.len() ==> r[k].file_id != id,
        },
    decreases r.len(),
{
    if r.len() > 0 && r.last().file_id != id {
        lemma_module_index(r.drop_last(), id);
        if module_index(r, id) is None {
            assert forall|k: int| 0 <= k < r.len() implies r[k].file_id != id by {
                if k < r.len() - 1 {
                    assert(r[k] == r.drop_last()[k]);
                }
            }
        }
    }
}

/// The id of the last file with this path.
pub open spec fn file_id_of_path(f: Seq<DiscoveredFile>, path: Seq<char>) -> Option<FileId>
    decreases f.len(),
{
    if f.len() == 0 {
        None
    } else if f.last().path@ == path {
        Some(f.last().id)
    } else {
        file_id_of_path(f.drop_last(), path)
    }
}

/// The entry-point file ids: those of the files whose path is an entry
/// point's path.
pub open spec fn entry_id_set(e: Seq<EntryPoint>, f: Seq<DiscoveredFile>) -> Set<FileId> {
    Set::new(|id: FileId| exists|k: int| 0 <= k < e.len() && file_id_of_path(f, (#[trigger] e[k]).path@) == Some(id))
}

/// One past the largest file id (zero without files).
pub open spec fn id_bound(f: Seq<DiscoveredFile>) -> int
    decreases f.len(),
{
    if f.len() == 0 {
        0
    } else {
        let b = id_bound(f.drop_last());
        if f.last().id.0 + 1 > b { f.last().id.0 + 1 } else { b }
    }
}

/// The index space of the graph: every file position and every file id.
pub open spec fn capacity(f: Seq<DiscoveredFile>) -> int {
    if id_bound(f) > f.len() { id_bound(f) } else { f.len() as int }
}

/// What file `i` imports from project files.
pub open spec fn file_stream(f: Seq<DiscoveredFile>, r: Seq<ResolvedModule>, i: int) -> Seq<(FileId, SymbolSpec)> {
    match module_index(r, f[i].id) {
        Some(k) => symbol_stream(r[k]),
        None => seq![],
    }
}

/// The targets of the edges of file `i`, in order.
pub open spec fn file_targets(f: Seq<DiscoveredFile>, r: Seq<ResolvedModule>, i: int) -> Seq<FileId> {
    first_appearances(stream_targets(file_stream(f, r, i)))
}

/// The number of edges of the files before `i`.
pub open spec fn edges_before(f: Seq<DiscoveredFile>, r: Seq<ResolvedModule>, i: int) -> int
    decreases i,
{
    if i <= 0 { 0 } else { edges_before(f, r, i - 1) + file_targets(f, r, i - 1).len() }
}

/// The edges of all files, file by file: each as source and target.
pub open spec fn all_edge_ends(f: Seq<DiscoveredFile>, r: Seq<ResolvedModule>, n: int) -> Seq<(FileId, FileId)>
    decreases n,
{
    if n <= 0 {
        seq![]
    } else {
        all_edge_ends(f, r, n - 1) + file_targets(f, r, n - 1).map_values(|t: FileId| (f[n - 1].id, t))
    }
}

/// The edges of the graph are exactly the grouped imports of the files, in
/// file order.
pub open spec fn edges_laid_out(f: Seq<DiscoveredFile>, r: Seq<ResolvedModule>, n: int, edges: Seq<Edge>) -> bool {
    &&& edges.len() == edges_before(f, r, n)
    &&& forall|i: int, k: int| 0 <= i < n && 0 <= k < file_targets(f, r, i).len()
        ==> edge_matches(f[i].id, file_stream(f, r, i), k, #[trigger] edges[edges_before(f, r, i) + k])
}

proof fn lemma_edges_before_monotone(f: Seq<DiscoveredFile>, r: Seq<ResolvedModule>, i: int, j: int)
    requires
        0 <= i <= j,
    ensures
        edges_before(f, r, i) <= edges_before(f, r, j),
    decreases j - i,
{
    if i < j {
        lemma_edges_before_monotone(f, r, i, j - 1);
    }
}

fn resolved_module_of<'a>(r: &'a Vec<ResolvedModule>, id: FileId) -> (m: Option<&'a ResolvedModule>)
    ensures
        match m {
            Some(x) => module_index(r@, id) matches Some(k) && *x == r@[k],
            None => module_index(r@, id) is None,
        },
{
    let mut k = r.len();
    assert(r@.take(k as int) =~= r@);
    while k > 0
        invariant
            k <= r@.len(),
            module_index(r@, id) == module_index(r@.take(k as int), id),
        decreases k,
    {
        assert(r@.take(k as int).drop_last() =~= r@.take(k - 1));
        if r[k - 1].file_id == id {
            return Some(&r[k - 1]);
        }
        k = k - 1;
    }
    None
}

fn file_id_of(files: &Vec<DiscoveredFile>, path: &String) -> (r: Option<FileId>)
    ensures
        r == file_id_of_path(files@, path@),
{
    let mut n = files.len();
    assert(files@.take(n as int) =~= files@);
    while n > 0
        invariant
            n <= files@.len(),
            file_id_of_path(files@, path@) == file_id_of_path(files@.take(n as int), path@),
        decreases n,
    {
        assert(files@.take(n as int).drop_last() =~= files@.take(n - 1));
        if string_eq(&files[n - 1].path, path) {
            return Some(files[n - 1].id);
        }
        n = n - 1;
    }
    None
}

/// The entry-point file ids, each once.
fn entry_point_ids(entry_points: &Vec<EntryPoint>, files: &Vec<DiscoveredFile>) -> (ids: Vec<FileId>)
    ensures
        ids@.to_set() == entry_id_set(entry_points@, files@),
        ids@.no_duplicates(),
{
    let mut ids: Vec<FileId> = Vec::new();
    let mut k: usize = 0;
    while k < entry_points.len()
        invariant
            k <= entry_points@.len(),
            ids@.no_duplicates(),
            forall|id: FileId| ids@.contains(id) <==> exists|j: int| 0 <= j < k
                && file_id_of_path(files@, (#[trigger] entry_points@[j]).path@) == Some(id),
        decreases entry_points.len() - k,
    {
        let found = file_id_of(files, &entry_points[k].path);
        match found {
            Some(id) => {
                let ghost old_ids = ids@;
                let mut present = false;
                let mut q: usize = 0;
                while q < ids.len()
                    invariant
                        q <= ids@.len(),
                        ids@ == old_ids,
                        present == exists|j: int| 0 <= j < q && ids@[j] == id,
                    decreases ids.len() - q,
                {
                    if ids[q] == id {
                        present = true;
                    }
                    q = q + 1;
                }
                if !present {
                    ids.push(id);
                    assert forall|a: int, b: int| 0 <= a < b < ids@.len() implies ids@[a] != ids@[b] by {
                        if b == ids@.len() - 1 {
                            assert(ids@[a] == old_ids[a]);
                        }
                    }
                }
                assert(ids@.contains(id)) by {
                    if present {
                        let j = choose|j: int| 0 <= j < old_ids.len() && old_ids[j] == id;
                        assert(ids@[j] == id);
                    } else {
                        assert(ids@[ids@.len() - 1] == id);
                    }
                }
                assert forall|x: FileId| ids@.contains(x) <==> exists|j: int| 0 <= j < k + 1
                    && file_id_of_path(files@, (#[trigger] entry_points@[j]).path@) == Some(x) by {
                    assert(file_id_of_path(files@, entry_points@[k as int].path@) == Some(id));
                    if ids@.contains(x) {
                        if x != id {
                            let a = choose|a: int| 0 <= a < ids@.len() && ids@[a] == x;
                            if !present && a == ids@.len() - 1 {
                                assert(false);
                            }
                            assert(old_ids[a] == x);
                            assert(old_ids.contains(x));
                        }
                    }
                    if exists|j: int| 0 <= j < k + 1 && file_id_of_path(files@, (#[trigger] entry_points@[j]).path@) == Some(x) {
                        let j = choose|j: int| 0 <= j < k + 1 && file_id_of_path(files@, (#[trigger] entry_points@[j]).path@) == Some(x);
                        if j < k {
                            assert(old_ids.contains(x));
                            let a = choose|a: int| 0 <= a < old_ids.len() && old_ids[a] == x;
                            assert(ids@[a] == x);
                        }
                    }
                }
            },
            None => {
                assert forall|x: FileId| ids@.contains(x) <==> exists|j: int| 0 <= j < k + 1
                    && file_id_of_path(files@, (#[trigger] entry_points@[j]).path@) == Some(x) by {
                    if exists|j: int| 0 <= j < k + 1 && file_id_of_path(files@, (#[trigger] entry_points@[j]).path@) == Some(x) {
                        let j = choose|j: int| 0 <= j < k + 1 && file_id_of_path(files@, (#[trigger] entry_points@[j]).path@) == Some(x);
                        if j == k {
                            assert(false);
                        }
                    }
                }
            },
        }
        k = k + 1;
    }
    assert(ids@.to_set() =~= entry_id_set(entry_points@, files@));
    ids
}

/// One past the largest file id, or the number of files if larger.
fn graph_capacity(files: &Vec<DiscoveredFile>) -> (c: usize)
    requires
        files@.len() < usize::MAX,
        forall|i: int| 0 <= i < files@.len() ==> (#[trigger] files@[i]).id.0 < usize::MAX,
    ensures
        c == capacity(files@),
{
    let mut bound: usize = 0;
    let mut i: usize = 0;
    while i < files.len()
        invariant
            i <= files@.len(),
            forall|i: int| 0 <= i < files@.len() ==> (#[trigger] files@[i]).id.0 < usize::MAX,
            bound == id_bound(files@.take(i as int)),
        decreases files.len() - i,
    {
        assert(files@.take(i + 1).drop_last() =~= files@.take(i as int));
        let id = files[i].id.0 as usize;
        if id + 1 > bound {
            bound = id + 1;
        }
        i = i + 1;
    }
    assert(files@.take(files@.len() as int) =~= files@);
    if bound > files.len() { bound } else { files.len() }
}


// ---- laying out edges and nodes ----------------------------------------

proof fn lemma_all_edge_ends_len(f: Seq<DiscoveredFile>, r: Seq<ResolvedModule>, n: int)
    requires
        0 <= n,
    ensures
        all_edge_ends(f, r, n).len() == edges_before(f, r, n),
    decreases n,
{
    if n > 0 {
        lemma_all_edge_ends_len(f, r, n - 1);
    }
}

/// All edges, file by file, and the range of each file's edges.
fn layout_edges(files: &Vec<DiscoveredFile>, resolved: &Vec<ResolvedModule>) -> (out: (Vec<Edge>, Vec<(usize, usize)>))
    requires
        edges_before(files@, resolved@, files@.len() as int) <= usize::MAX,
    ensures
        edges_laid_out(files@, resolved@, files@.len() as int, out.0@),
        out.1@.len() == files@.len(),
        forall|i: int| 0 <= i < files@.len() ==> (#[trigger] out.1@[i]).0 == edges_before(files@, resolved@, i)
            && out.1@[i].1 == edges_before(files@, resolved@, i + 1),
{
    let ghost f = files@;
    let ghost r = resolved@;
    let mut edges: Vec<Edge> = Vec::new();
    let mut ranges: Vec<(usize, usize)> = Vec::new();
    let mut i: usize = 0;
    while i < files.len()
        invariant
            i <= f.len(),
            f == files@,
            r == resolved@,
            edges_before(f, r, f.len() as int) <= usize::MAX,
            edges_laid_out(f, r, i as int, edges@),
            ranges@.len() == i,
            forall|j: int| 0 <= j < i ==> (#[trigger] ranges@[j]).0 == edges_before(f, r, j)
                && ranges@[j].1 == edges_before(f, r, j + 1),
        decreases files.len() - i,
    {
        let start = edges.len();
        let file = &files[i];
        let group: Vec<Edge> = match resolved_module_of(resolved, file.id) {
            Some(m) => {
                let stream = module_symbols(m);
                group_edges(file.id, &stream)
            },
            None => {
                let e: Vec<Edge> = Vec::new();
                assert(file_stream(f, r, i as int) =~= seq![]);
                assert(stream_targets(seq![]) =~= seq![]);
                e
            },
        };
        proof {
            lemma_edges_before_monotone(f, r, i + 1, f.len() as int);
        }
        let ghost old_edges = edges@;
        let mut group = group;
        let ghost g = group@;
        edges.append(&mut group);
        assert(edges@ == old_edges + g);
        assert forall|j: int, k: int| 0 <= j < i + 1 && 0 <= k < file_targets(f, r, j).len()
            implies edge_matches(f[j].id, file_stream(f, r, j), k, #[trigger] edges@[edges_before(f, r, j) + k]) by {
            if j < i {
                lemma_edges_before_monotone(f, r, j + 1, i as int);
                assert(edges_before(f, r, j + 1) == edges_before(f, r, j) + file_targets(f, r, j).len());
                lemma_edges_before_monotone(f, r, 0, j);
                assert(edges@[edges_before(f, r, j) + k] == old_edges[edges_before(f, r, j) + k]);
            } else {
                lemma_edges_before_monotone(f, r, 0, j);
                assert(edges@[edges_before(f, r, j) + k] == g[k]);
            }
        }
        let end = edges.len();
        ranges.push((start, end));
        i = i + 1;
    }
    (edges, ranges)
}

/// Whether two export names are the same name.
pub open spec fn same_export_name(a: ExportName, b: ExportName) -> bool {
    match (a, b) {
        (ExportName::Named(x), ExportName::Named(y)) => x@ == y@,
        (ExportName::Default, ExportName::Default) => true,
        _ => false,
    }
}

/// Whether two members describe the same member.
pub open spec fn same_member(a: MemberInfo, b: MemberInfo) -> bool {
    a.name@ == b.name@ && a.kind == b.kind && a.span == b.span && a.has_decorator == b.has_decorator
}

/// `x` is the graph's record of export `e`, before references are added.
pub open spec fn export_symbol_of(e: crate::extract::ExportInfo, x: ExportSymbol) -> bool {
    &&& same_export_name(x.name, e.name)
    &&& x.is_type_only == e.is_type_only
    &&& x.span == e.span
    &&& x.members@.len() == e.members@.len()
    &&& forall|j: int| 0 <= j < x.members@.len() ==> same_member(#[trigger] x.members@[j], e.members@[j])
}

/// The graph's records of the project-internal re-exports, in order.
pub open spec fn re_export_edges_of(s: Seq<ResolvedReExport>) -> Seq<(FileId, Seq<char>, Seq<char>, bool)>
    decreases s.len(),
{
    if s.len() == 0 {
        seq![]
    } else {
        let prev = re_export_edges_of(s.drop_last());
        match internal_target(s.last().target) {
            Some(t) => prev.push((t, s.last().info.imported_name@, s.last().info.exported_name@, s.last().info.is_type_only)),
            None => prev,
        }
    }
}

pub open spec fn re_export_edge_view(e: ReExportEdge) -> (FileId, Seq<char>, Seq<char>, bool) {
    (e.source_file, e.imported_name@, e.exported_name@, e.is_type_only)
}

pub open spec fn re_export_edges_view(v: Seq<ReExportEdge>) -> Seq<(FileId, Seq<char>, Seq<char>, bool)> {
    v.map_values(|e: ReExportEdge| re_export_edge_view(e))
}

/// `node` is the graph's node for file `i`, apart from references and
/// reachability.
pub open spec fn node_of(
    f: Seq<DiscoveredFile>,
    r: Seq<ResolvedModule>,
    entries: Set<FileId>,
    i: int,
    node: ModuleNode,
) -> bool {
    &&& node.file_id == f[i].id
    &&& node.path@ == f[i].path@
    &&& node.edge_range.start == edges_before(f, r, i)
    &&& node.edge_range.end == edges_before(f, r, i + 1)
    &&& node.is_entry_point == entries.contains(f[i].id)
    &&& match module_index(r, f[i].id) {
        Some(k) => {
            &&& node.has_cjs_exports == r[k].has_cjs_exports
            &&& node.exports@.len() == r[k].exports@.len()
            &&& (forall|j: int| 0 <= j < node.exports@.len() ==> export_symbol_of(r[k].exports@[j], #[trigger] node.exports@[j]))
            &&& re_export_edges_view(node.re_exports@) == re_export_edges_of(r[k].re_exports@)
        },
        None => {
            &&& !node.has_cjs_exports
            &&& node.exports@.len() == 0
            &&& node.re_exports@.len() == 0
        },
    }
}

fn copy_export_name(n: &ExportName) -> (r: ExportName)
    ensures
        same_export_name(r, *n),
{
    match n {
        ExportName::Named(s) => ExportName::Named(copy_string(s)),
        ExportName::Default => ExportName::Default,
    }
}

fn export_symbol(e: &crate::extract::ExportInfo) -> (x: ExportSymbol)
    ensures
        export_symbol_of(*e, x),
        x.references@.len() == 0,
{
    let mut members: Vec<MemberInfo> = Vec::new();
    let mut j: usize = 0;
    while j < e.members.len()
        invariant
            j <= e.members@.len(),
            members@.len() == j,
            forall|q: int| 0 <= q < j ==> same_member(#[trigger] members@[q], e.members@[q]),
        decreases e.members.len() - j,
    {
        let m = &e.members[j];
        members.push(MemberInfo {
            name: copy_string(&m.name),
            kind: m.kind,
            span: m.span,
            has_decorator: m.has_decorator,
        });
        j = j + 1;
    }
    ExportSymbol {
        name: copy_export_name(&e.name),
        is_type_only: e.is_type_only,
        span: e.span,
        references: Vec::new(),
        members,
    }
}

fn re_export_edges(s: &Vec<ResolvedReExport>) -> (v: Vec<ReExportEdge>)
    ensures
        re_export_edges_view(v@) == re_export_edges_of(s@),
{
    let mut v: Vec<ReExportEdge> = Vec::new();
    let mut i: usize = 0;
    while i < s.len()
        invariant
            i <= s@.len(),
            re_export_edges_view(v@) == re_export_edges_of(s@.take(i as int)),
        decreases s.len() - i,
    {
        assert(s@.take(i + 1).drop_last() =~= s@.take(i as int));
        let re = &s[i];
        match target_of(&re.target) {
            Some(t) => {
                let ghost before = re_export_edges_view(v@);
                let e = ReExportEdge {
                    source_file: t,
                    imported_name: copy_string(&re.info.imported_name),
                    exported_name: copy_string(&re.info.exported_name),
                    is_type_only: re.info.is_type_only,
                };
                v.push(e);
                assert(re_export_edges_view(v@) =~= before.push(re_export_edge_view(e)));
            },
            None => {},
        }
        i = i + 1;
    }
    assert(s@.take(s@.len() as int) =~= s@);
    v
}

fn contains_id(ids: &Vec<FileId>, id: FileId) -> (r: bool)
    ensures
        r == ids@.contains(id),
{
    let mut q: usize = 0;
    while q < ids.len()
        invariant
            q <= ids@.len(),
            forall|j: int| 0 <= j < q ==> ids@[j] != id,
        decreases ids.len() - q,
    {
        if ids[q] == id {
            return true;
        }
        q = q + 1;
    }
    false
}

/// The nodes of the files, in file order, without references and not yet
/// marked reachable.
fn build_nodes(
    files: &Vec<DiscoveredFile>,
    resolved: &Vec<ResolvedModule>,
    entry_ids: &Vec<FileId>,
    ranges: &Vec<(usize, usize)>,
) -> (nodes: Vec<ModuleNode>)
    requires
        ranges@.len() == files@.len(),
        forall|i: int| 0 <= i < files@.len() ==> (#[trigger] ranges@[i]).0 == edges_before(files@, resolved@, i)
            && ranges@[i].1 == edges_before(files@, resolved@, i + 1),
    ensures
        nodes@.len() == files@.len(),
        forall|i: int| 0 <= i < nodes@.len() ==> node_of(files@, resolved@, entry_ids@.to_set(), i, #[trigger] nodes@[i]),
        forall|i: int, j: int| 0 <= i < nodes@.len() && 0 <= j < nodes@[i].exports@.len()
            ==> (#[trigger] nodes@[i].exports@[j]).references@.len() == 0,
        forall|i: int| 0 <= i < nodes@.len() ==> !(#[trigger] nodes@[i]).is_reachable,
{
    let mut nodes: Vec<ModuleNode> = Vec::new();
    let mut i: usize = 0;
    while i < files.len()
        invariant
            i <= files@.len(),
            ranges@.len() == files@.len(),
            forall|i: int| 0 <= i < files@.len() ==> (#[trigger] ranges@[i]).0 == edges_before(files@, resolved@, i)
                && ranges@[i].1 == edges_before(files@, resolved@, i + 1),
            nodes@.len() == i,
            forall|q: int| 0 <= q < i ==> node_of(files@, resolved@, entry_ids@.to_set(), q, #[trigger] nodes@[q]),
            forall|q: int, j: int| 0 <= q < i && 0 <= j < nodes@[q].exports@.len()
                ==> (#[trigger] nodes@[q].exports@[j]).references@.len() == 0,
            forall|q: int| 0 <= q < i ==> !(#[trigger] nodes@[q]).is_reachable,
        decreases files.len() - i,
    {
        let file = &files[i];
        let (exports, re_exports, has_cjs_exports) = match resolved_module_of(resolved, file.id) {
            Some(m) => {
                let mut exports: Vec<ExportSymbol> = Vec::new();
                let mut j: usize = 0;
                while j < m.exports.len()
                    invariant
                        j <= m.exports@.len(),
                        exports@.len() == j,
                        forall|q: int| 0 <= q < j ==> export_symbol_of(m.exports@[q], #[trigger] exports@[q]),
                        forall|q: int| 0 <= q < j ==> (#[trigger] exports@[q]).references@.len() == 0,
                    decreases m.exports.len() - j,
                {
                    exports.push(export_symbol(&m.exports[j]));
                    j = j + 1;
                }
                (exports, re_export_edges(&m.re_exports), m.has_cjs_exports)
            },
            None => (Vec::new(), Vec::new(), false),
        };
        let is_entry_point = contains_id(entry_ids, file.id);
        let (start, end) = ranges[i];
        let node = ModuleNode {
            file_id: file.id,
            path: copy_string(&file.path),
            edge_range: std::ops::Range { start, end },
            exports,
            re_exports,
            is_entry_point,
            is_reachable: false,
            has_cjs_exports,
        };
        proof {
            assert(entry_ids@.contains(file.id) == entry_ids@.to_set().contains(file.id));
        }
        nodes.push(node);
        i = i + 1;
    }
    nodes
}


// ---- package usage, namespace imports, reverse dependencies ------------

pub open spec fn npm_name(t: ResolveResult) -> Option<Seq<char>> {
    match t {
        ResolveResult::NpmPackage(n) => Some(n@),
        _ => None,
    }
}

/// The npm packages that imports resolve to, in order.
pub open spec fn npm_of_imports(s: Seq<ResolvedImport>) -> Seq<Seq<char>>
    decreases s.len(),
{
    if s.len() == 0 {
        seq![]
    } else {
        let prev = npm_of_imports(s.drop_last());
        match npm_name(s.last().target) {
            Some(n) => prev.push(n),
            None => prev,
        }
    }
}

/// The npm packages that re-exports resolve to, in order.
pub open spec fn npm_of_re_exports(s: Seq<ResolvedReExport>) -> Seq<Seq<char>>
    decreases s.len(),
{
    if s.len() == 0 {
        seq![]
    } else {
        let prev = npm_of_re_exports(s.drop_last());
        match npm_name(s.last().target) {
            Some(n) => prev.push(n),
            None => prev,
        }
    }
}

/// The npm packages that file `i` uses: from its imports, then from its
/// re-exports.
pub open spec fn file_packages(f: Seq<DiscoveredFile>, r: Seq<ResolvedModule>, i: int) -> Seq<Seq<char>> {
    match module_index(r, f[i].id) {
        Some(k) => npm_of_imports(r[k].resolved_imports@) + npm_of_re_exports(r[k].re_exports@),
        None => seq![],
    }
}

/// Each use of a package by one of the first `n` files, in file order.
pub open spec fn package_events(f: Seq<DiscoveredFile>, r: Seq<ResolvedModule>, n: int) -> Seq<(Seq<char>, FileId)>
    decreases n,
{
    if n <= 0 {
        seq![]
    } else {
        package_events(f, r, n - 1) + file_packages(f, r, n - 1).map_values(|p: Seq<char>| (p, f[n - 1].id))
    }
}

pub open spec fn event_names(ev: Seq<(Seq<char>, FileId)>) -> Seq<Seq<char>> {
    ev.map_values(|e: (Seq<char>, FileId)| e.0)
}

/// The files of the uses of package `name`, in order.
pub open spec fn users_of(ev: Seq<(Seq<char>, FileId)>, name: Seq<char>) -> Seq<FileId>
    decreases ev.len(),
{
    if ev.len() == 0 {
        seq![]
    } else {
        let prev = users_of(ev.drop_last(), name);
        if ev.last().0 == name { prev.push(ev.last().1) } else { prev }
    }
}

/// The usage table lists each used package once, in order of first use,
/// with the files that use it.
pub open spec fn usage_matches(usage: Seq<(String, Vec<FileId>)>, ev: Seq<(Seq<char>, FileId)>) -> bool {
    let names = first_appearances(event_names(ev));
    &&& usage.len() == names.len()
    &&& forall|k: int| 0 <= k < usage.len() ==> (#[trigger] usage[k]).0@ == names[k] && usage[k].1@ == users_of(ev, names[k])
}

fn find_usage(usage: &Vec<(String, Vec<FileId>)>, name: &String) -> (r: Option<usize>)
    ensures
        match r {
            Some(k) => k < usage@.len() && usage@[k as int].0@ == name@,
            None => forall|j: int| 0 <= j < usage@.len() ==> usage@[j].0@ != name@,
        },
{
    let mut k: usize = 0;
    while k < usage.len()
        invariant
            k <= usage@.len(),
            forall|j: int| 0 <= j < k ==> usage@[j].0@ != name@,
        decreases usage.len() - k,
    {
        if string_eq(&usage[k].0, name) {
            return Some(k);
        }
        k = k + 1;
    }
    None
}

fn record_use(usage: &mut Vec<(String, Vec<FileId>)>, name: &String, id: FileId, Ghost(ev): Ghost<Seq<(Seq<char>, FileId)>>)
    requires
        usage_matches(old(usage)@, ev),
    ensures
        usage_matches(final(usage)@, ev.push((name@, id))),
{
    let ghost ev2 = ev.push((name@, id));
    let ghost fa = first_appearances(event_names(ev));
    proof {
        lemma_first_appearances(event_names(ev));
        assert(event_names(ev2).drop_last() =~= event_names(ev));
        assert(event_names(ev2).last() == name@);
        assert(ev2.drop_last() =~= ev);
    }
    let ghost old_usage = usage@;
    let found = find_usage(usage, name);
    if found.is_some() {
        let k = found.unwrap();
        assert(fa[k as int] == name@);
        assert(fa.contains(name@));
        let mut entry = (String::new(), Vec::new());
        usage.set_and_swap(k, &mut entry);
        entry.1.push(id);
        usage.set(k, entry);
        assert forall|j: int| 0 <= j < usage@.len() implies (#[trigger] usage@[j]).0@ == first_appearances(event_names(ev2))[j]
            && usage@[j].1@ == users_of(ev2, first_appearances(event_names(ev2))[j]) by {
            if j != k {
                assert(usage@[j] == old_usage[j]);
                assert(fa[j] != name@);
            }
        }
    } else {
        assert(!fa.contains(name@)) by {
            if fa.contains(name@) {
                let j = choose|j: int| 0 <= j < fa.len() && fa[j] == name@;
                assert(old_usage[j].0@ == name@);
            }
        }
        assert(users_of(ev, name@) =~= seq![]) by {
            if users_of(ev, name@).len() > 0 {
                lemma_users_of_named(ev, name@);
                assert(fa.to_set().contains(name@));
            }
        }
        let mut ids: Vec<FileId> = Vec::new();
        ids.push(id);
        usage.push((copy_string(name), ids));
        assert forall|j: int| 0 <= j < usage@.len() implies (#[trigger] usage@[j]).0@ == first_appearances(event_names(ev2))[j]
            && usage@[j].1@ == users_of(ev2, first_appearances(event_names(ev2))[j]) by {
            if j < old_usage.len() {
                assert(usage@[j] == old_usage[j]);
                assert(fa[j] != name@);
            } else {
                assert(usage@[j].1@ =~= seq![id]);
            }
        }
    }
}

proof fn lemma_users_of_named(ev: Seq<(Seq<char>, FileId)>, name: Seq<char>)
    requires
        users_of(ev, name).len() > 0,
    ensures
        event_names(ev).to_set().contains(name),
    decreases ev.len(),
{
    if ev.last().0 == name {
        assert(event_names(ev)[ev.len() - 1] == name);
    } else {
        lemma_users_of_named(ev.drop_last(), name);
        let k = choose|k: int| 0 <= k < event_names(ev.drop_last()).len() && event_names(ev.drop_last())[k] == name;
        assert(event_names(ev)[k] == name);
    }
}

/// Which files use which npm packages (see [`usage_matches`]).
fn package_usage_of(files: &Vec<DiscoveredFile>, resolved: &Vec<ResolvedModule>) -> (usage: Vec<(String, Vec<FileId>)>)
    ensures
        usage_matches(usage@, package_events(files@, resolved@, files@.len() as int)),
{
    let ghost f = files@;
    let ghost r = resolved@;
    let mut usage: Vec<(String, Vec<FileId>)> = Vec::new();
    assert(usage_matches(usage@, seq![]));
    let mut i: usize = 0;
    while i < files.len()
        invariant
            i <= f.len(),
            f == files@,
            r == resolved@,
            usage_matches(usage@, package_events(f, r, i as int)),
        decreases files.len() - i,
    {
        let id = files[i].id;
        let ghost base = package_events(f, r, i as int);
        match resolved_module_of(resolved, id) {
            Some(m) => {
                let mut j: usize = 0;
                while j < m.resolved_imports.len()
                    invariant
                        j <= m.resolved_imports@.len(),
                        usage_matches(usage@, base + npm_of_imports(m.resolved_imports@.take(j as int)).map_values(|p: Seq<char>| (p, id))),
                    decreases m.resolved_imports.len() - j,
                {
                    assert(m.resolved_imports@.take(j + 1).drop_last() =~= m.resolved_imports@.take(j as int));
                    match &m.resolved_imports[j].target {
                        ResolveResult::NpmPackage(name) => {
                            record_use(&mut usage, name, id, Ghost(base + npm_of_imports(m.resolved_imports@.take(j as int)).map_values(|p: Seq<char>| (p, id))));
                            assert(base + npm_of_imports(m.resolved_imports@.take(j as int)).map_values(|p: Seq<char>| (p, id)).push((name@, id))
                                =~= base + npm_of_imports(m.resolved_imports@.take(j + 1)).map_values(|p: Seq<char>| (p, id)));
                        },
                        _ => {},
                    }
                    j = j + 1;
                }
                assert(m.resolved_imports@.take(m.resolved_imports@.len() as int) =~= m.resolved_imports@);
                let ghost a = npm_of_imports(m.resolved_imports@);
                let mut j: usize = 0;
                assert(a + seq![] =~= a);
                while j < m.re_exports.len()
                    invariant
                        j <= m.re_exports@.len(),
                        a == npm_of_imports(m.resolved_imports@),
                        usage_matches(usage@, base + (a + npm_of_re_exports(m.re_exports@.take(j as int))).map_values(|p: Seq<char>| (p, id))),
                    decreases m.re_exports.len() - j,
                {
                    assert(m.re_exports@.take(j + 1).drop_last() =~= m.re_exports@.take(j as int));
                    match &m.re_exports[j].target {
                        ResolveResult::NpmPackage(name) => {
                            record_use(&mut usage, name, id, Ghost(base + (a + npm_of_re_exports(m.re_exports@.take(j as int))).map_values(|p: Seq<char>| (p, id))));
                            assert(base + (a + npm_of_re_exports(m.re_exports@.take(j as int))).map_values(|p: Seq<char>| (p, id)).push((name@, id))
                                =~= base + (a + npm_of_re_exports(m.re_exports@.take(j + 1))).map_values(|p: Seq<char>| (p, id)));
                        },
                        _ => {},
                    }
                    j = j + 1;
                }
                assert(m.re_exports@.take(m.re_exports@.len() as int) =~= m.re_exports@);
            },
            None => {
                assert(file_packages(f, r, i as int) =~= seq![]);
                assert(base + seq![] =~= base);
            },
        }
        assert(package_events(f, r, i + 1) =~= base + file_packages(f, r, i as int).map_values(|p: Seq<char>| (p, f[i as int].id)));
        i = i + 1;
    }
    usage
}


/// Bits of the targets of namespace imports below `cap`.
pub open spec fn import_ns_bits(s: Seq<ResolvedImport>, cap: int) -> Set<usize>
    decreases s.len(),
{
    if s.len() == 0 {
        Set::empty()
    } else {
        let prev = import_ns_bits(s.drop_last(), cap);
        match internal_target(s.last().target) {
            Some(t) => if s.last().info.imported_name is Namespace && t.0 < cap { prev.insert(t.0 as usize) } else { prev },
            None => prev,
        }
    }
}

/// Bits of the targets of `export * from` re-exports below `bound`.
pub open spec fn re_export_ns_bits(s: Seq<ResolvedReExport>, bound: int) -> Set<usize>
    decreases s.len(),
{
    if s.len() == 0 {
        Set::empty()
    } else {
        let prev = re_export_ns_bits(s.drop_last(), bound);
        match internal_target(s.last().target) {
            Some(t) => if s.last().info.imported_name@ == "*"@ && t.0 < bound { prev.insert(t.0 as usize) } else { prev },
            None => prev,
        }
    }
}

/// The files that file `i` imports as a whole: by namespace imports (below
/// the capacity) and by star re-exports (below the number of files).
pub open spec fn file_ns_bits(f: Seq<DiscoveredFile>, r: Seq<ResolvedModule>, i: int) -> Set<usize> {
    match module_index(r, f[i].id) {
        Some(k) => import_ns_bits(r[k].resolved_imports@, capacity(f)) + re_export_ns_bits(r[k].re_exports@, f.len() as int),
        None => Set::empty(),
    }
}

/// The files that one of the first `n` files imports as a whole.
pub open spec fn namespace_bits(f: Seq<DiscoveredFile>, r: Seq<ResolvedModule>, n: int) -> Set<usize>
    decreases n,
{
    if n <= 0 { Set::empty() } else { namespace_bits(f, r, n - 1) + file_ns_bits(f, r, n - 1) }
}

/// The bits of the files that some file imports as a whole.
fn namespace_imports(files: &Vec<DiscoveredFile>, resolved: &Vec<ResolvedModule>, cap: usize) -> (b: FixedBitSet)
    requires
        cap == capacity(files@),
        files@.len() <= cap,
    ensures
        bitset_ones(b) == namespace_bits(files@, resolved@, files@.len() as int),
        bitset_len(b) == cap,
{
    let ghost f = files@;
    let ghost r = resolved@;
    let n = files.len();
    let mut bits = bitset_with_capacity(cap);
    let mut i: usize = 0;
    assert(bitset_ones(bits) =~= namespace_bits(f, r, 0));
    while i < files.len()
        invariant
            i <= f.len(),
            n == f.len(),
            f == files@,
            r == resolved@,
            n <= cap,
            cap == capacity(f),
            bitset_len(bits) == cap,
            bitset_ones(bits) == namespace_bits(f, r, i as int),
        decreases files.len() - i,
    {
        let ghost base = namespace_bits(f, r, i as int);
        match resolved_module_of(resolved, files[i].id) {
            Some(m) => {
                let mut j: usize = 0;
                assert(import_ns_bits(m.resolved_imports@.take(0), cap as int) =~= Set::empty());
                assert(base + Set::<usize>::empty() =~= base);
                while j < m.resolved_imports.len()
                    invariant
                        j <= m.resolved_imports@.len(),
                        bitset_len(bits) == cap,
                        bitset_ones(bits) == base + import_ns_bits(m.resolved_imports@.take(j as int), cap as int),
                    decreases m.resolved_imports.len() - j,
                {
                    assert(m.resolved_imports@.take(j + 1).drop_last() =~= m.resolved_imports@.take(j as int));
                    let imp = &m.resolved_imports[j];
                    match target_of(&imp.target) {
                        Some(t) => {
                            if matches!(imp.info.imported_name, ImportedName::Namespace) && (t.0 as usize) < cap {
                                let ghost before = bitset_ones(bits);
                                bitset_insert(&mut bits, t.0 as usize);
                                assert(bitset_ones(bits) =~= base + import_ns_bits(m.resolved_imports@.take(j + 1), cap as int));
                            }
                        },
                        None => {},
                    }
                    j = j + 1;
                }
                assert(m.resolved_imports@.take(m.resolved_imports@.len() as int) =~= m.resolved_imports@);
                let ghost a = import_ns_bits(m.resolved_imports@, cap as int);
                let mut j: usize = 0;
                assert(re_export_ns_bits(m.re_exports@.take(0), n as int) =~= Set::empty());
                assert(base + a + Set::<usize>::empty() =~= base + a);
                while j < m.re_exports.len()
                    invariant
                        j <= m.re_exports@.len(),
                        bitset_len(bits) == cap,
                        n <= cap,
                        bitset_ones(bits) == base + a + re_export_ns_bits(m.re_exports@.take(j as int), n as int),
                    decreases m.re_exports.len() - j,
                {
                    assert(m.re_exports@.take(j + 1).drop_last() =~= m.re_exports@.take(j as int));
                    let re = &m.re_exports[j];
                    match target_of(&re.target) {
                        Some(t) => {
                            if str_eq(re.info.imported_name.as_str(), "*") && (t.0 as usize) < n {
                                bitset_insert(&mut bits, t.0 as usize);
                                assert(bitset_ones(bits) =~= base + a + re_export_ns_bits(m.re_exports@.take(j + 1), n as int));
                            }
                        },
                        None => {},
                    }
                    j = j + 1;
                }
                assert(m.re_exports@.take(m.re_exports@.len() as int) =~= m.re_exports@);
                assert(bitset_ones(bits) =~= namespace_bits(f, r, i + 1));
            },
            None => {
                assert(bitset_ones(bits) =~= namespace_bits(f, r, i + 1));
            },
        }
        i = i + 1;
    }
    bits
}

proof fn lemma_edge_ends(f: Seq<DiscoveredFile>, r: Seq<ResolvedModule>, n: int, edges: Seq<Edge>)
    requires
        0 <= n <= f.len(),
        edges_laid_out(f, r, f.len() as int, edges),
    ensures
        all_edge_ends(f, r, n).len() == edges_before(f, r, n),
        forall|q: int| 0 <= q < edges_before(f, r, n) ==> #[trigger] all_edge_ends(f, r, n)[q] == (edges[q].source, edges[q].target),
    decreases n,
{
    if n > 0 {
        lemma_edge_ends(f, r, n - 1, edges);
        lemma_edges_before_monotone(f, r, 0, n - 1);
        let b = edges_before(f, r, n - 1);
        let ts = file_targets(f, r, n - 1);
        assert forall|q: int| 0 <= q < edges_before(f, r, n) implies #[trigger] all_edge_ends(f, r, n)[q] == (edges[q].source, edges[q].target) by {
            if q >= b {
                let k = q - b;
                assert(edge_matches(f[n - 1].id, file_stream(f, r, n - 1), k, edges[b + k]));
            }
        }
    }
}

/// The importers of file index `t`, in edge order.
pub open spec fn sources_to(ends: Seq<(FileId, FileId)>, t: int) -> Seq<FileId>
    decreases ends.len(),
{
    if ends.len() == 0 {
        seq![]
    } else {
        let prev = sources_to(ends.drop_last(), t);
        if ends.last().1.0 == t { prev.push(ends.last().0) } else { prev }
    }
}

/// For each file index below `cap`, the files that import it.
fn reverse_deps_of(edges: &Vec<Edge>, cap: usize, Ghost(ends): Ghost<Seq<(FileId, FileId)>>) -> (rev: Vec<Vec<FileId>>)
    requires
        ends.len() == edges@.len(),
        forall|q: int| 0 <= q < edges@.len() ==> #[trigger] ends[q] == (edges@[q].source, edges@[q].target),
    ensures
        rev@.len() == cap,
        forall|t: int| 0 <= t < cap ==> (#[trigger] rev@[t])@ == sources_to(ends, t),
{
    let mut rev: Vec<Vec<FileId>> = Vec::new();
    let mut t: usize = 0;
    while t < cap
        invariant
            t <= cap,
            rev@.len() == t,
            forall|x: int| 0 <= x < t ==> (#[trigger] rev@[x])@ == Seq::<FileId>::empty(),
        decreases cap - t,
    {
        rev.push(Vec::new());
        t = t + 1;
    }
    assert(ends.take(0) =~= seq![]);
    let mut q: usize = 0;
    while q < edges.len()
        invariant
            q <= edges@.len(),
            ends.len() == edges@.len(),
            forall|q: int| 0 <= q < edges@.len() ==> #[trigger] ends[q] == (edges@[q].source, edges@[q].target),
            rev@.len() == cap,
            forall|x: int| 0 <= x < cap ==> (#[trigger] rev@[x])@ == sources_to(ends.take(q as int), x),
        decreases edges.len() - q,
    {
        assert(ends.take(q + 1).drop_last() =~= ends.take(q as int));
        assert(ends.take(q + 1).last() == ends[q as int]);
        let target = edges[q].target.0 as usize;
        if target < rev.len() {
            let ghost old_rev = rev@;
            let mut list: Vec<FileId> = Vec::new();
            rev.set_and_swap(target, &mut list);
            list.push(edges[q].source);
            rev.set(target, list);
            assert forall|x: int| 0 <= x < cap implies (#[trigger] rev@[x])@ == sources_to(ends.take(q + 1), x) by {
                if x != target {
                    assert(rev@[x] == old_rev[x]);
                }
            }
        }
        q = q + 1;
    }
    assert(ends.take(edges@.len() as int) =~= ends);
    rev
}


// ---- references --------------------------------------------------------

/// Whether an export name is what an imported name asks for.
pub open spec fn name_matches(e: ExportName, n: NameView) -> bool {
    match (e, n) {
        (ExportName::Named(x), NameView::Named(y)) => x@ == y,
        (ExportName::Default, NameView::Default) => true,
        _ => false,
    }
}

/// How an import of this name references the export.
pub open spec fn ref_kind(n: NameView) -> ReferenceKind {
    match n {
        NameView::Named(_) => ReferenceKind::NamedImport,
        NameView::Default => ReferenceKind::DefaultImport,
        NameView::Namespace => ReferenceKind::NamespaceImport,
        NameView::SideEffect => ReferenceKind::SideEffectImport,
    }
}

/// The first export whose name the imported name asks for.
pub open spec fn first_match(names: Seq<ExportName>, n: NameView) -> Option<int>
    decreases names.len(),
{
    if names.len() == 0 {
        None
    } else {
        match first_match(names.drop_last(), n) {
            Some(j) => Some(j),
            None => if name_matches(names.last(), n) { Some(names.len() - 1) } else { None },
        }
    }
}

/// Whether some reference comes from `source`.
pub open spec fn has_ref_from(refs: Seq<SymbolReference>, source: FileId) -> bool {
    exists|k: int| 0 <= k < refs.len() && (#[trigger] refs[k]).from_file == source
}

/// Every export gains a namespace reference from `source`, unless it
/// already has a reference from it.
pub open spec fn mark_all(er: Seq<Seq<SymbolReference>>, source: FileId) -> Seq<Seq<SymbolReference>> {
    Seq::new(er.len(), |j: int| if has_ref_from(er[j], source) {
        er[j]
    } else {
        er[j].push(SymbolReference { from_file: source, kind: ReferenceKind::NamespaceImport })
    })
}

/// The references of a module's exports after `source` imports symbol `s`
/// from it: the first export that the name asks for gains a reference; a
/// namespace import then references every export.
pub open spec fn add_ref(er: Seq<Seq<SymbolReference>>, names: Seq<ExportName>, source: FileId, s: SymbolSpec) -> Seq<Seq<SymbolReference>> {
    let er1 = match first_match(names, s.name) {
        Some(j) => er.update(j, er[j].push(SymbolReference { from_file: source, kind: ref_kind(s.name) })),
        None => er,
    };
    if s.name is Namespace { mark_all(er1, source) } else { er1 }
}

pub open spec fn export_refs(v: Seq<ExportSymbol>) -> Seq<Seq<SymbolReference>> {
    v.map_values(|e: ExportSymbol| e.references@)
}

pub open spec fn export_names(v: Seq<ExportSymbol>) -> Seq<ExportName> {
    v.map_values(|e: ExportSymbol| e.name)
}

/// Two export records agree on everything but their references.
pub open spec fn same_but_refs(a: ExportSymbol, b: ExportSymbol) -> bool {
    a.name == b.name && a.is_type_only == b.is_type_only && a.span == b.span && a.members == b.members
}

fn name_matches_exec(e: &ExportName, n: &ImportedName) -> (r: bool)
    ensures
        r == name_matches(*e, name_view(*n)),
{
    match (e, n) {
        (ExportName::Named(x), ImportedName::Named(y)) => string_eq(x, y),
        (ExportName::Default, ImportedName::Default) => true,
        _ => false,
    }
}

fn kind_of(n: &ImportedName) -> (k: ReferenceKind)
    ensures
        k == ref_kind(name_view(*n)),
{
    match n {
        ImportedName::Named(_) => ReferenceKind::NamedImport,
        ImportedName::Default => ReferenceKind::DefaultImport,
        ImportedName::Namespace => ReferenceKind::NamespaceImport,
        ImportedName::SideEffect => ReferenceKind::SideEffectImport,
    }
}

fn push_ref(exports: &mut Vec<ExportSymbol>, j: usize, r: SymbolReference)
    requires
        j < old(exports)@.len(),
    ensures
        final(exports)@.len() == old(exports)@.len(),
        export_refs(final(exports)@) == export_refs(old(exports)@).update(j as int, old(exports)@[j as int].references@.push(r)),
        forall|q: int| 0 <= q < old(exports)@.len() ==> same_but_refs(#[trigger] final(exports)@[q], old(exports)@[q]),
{
    let ghost before = exports@;
    let mut e = ExportSymbol {
        name: ExportName::Default,
        is_type_only: false,
        span: Span { start: 0, end: 0 },
        references: Vec::new(),
        members: Vec::new(),
    };
    exports.set_and_swap(j, &mut e);
    e.references.push(r);
    exports.set(j, e);
    assert(export_refs(exports@) =~= export_refs(before).update(j as int, before[j as int].references@.push(r)));
    assert forall|q: int| 0 <= q < before.len() implies same_but_refs(#[trigger] exports@[q], before[q]) by {
        if q != j {
            assert(exports@[q] == before[q]);
        }
    }
}

fn refs_contain_source(refs: &Vec<SymbolReference>, source: FileId) -> (r: bool)
    ensures
        r == has_ref_from(refs@, source),
{
    let mut k: usize = 0;
    while k < refs.len()
        invariant
            k <= refs@.len(),
            forall|q: int| 0 <= q < k ==> refs@[q].from_file != source,
        decreases refs.len() - k,
    {
        if refs[k].from_file == source {
            return true;
        }
        k = k + 1;
    }
    false
}

fn first_matching_export(exports: &Vec<ExportSymbol>, n: &ImportedName) -> (r: Option<usize>)
    ensures
        match r {
            Some(k) => k < exports@.len() && first_match(export_names(exports@), name_view(*n)) == Some(k as int),
            None => first_match(export_names(exports@), name_view(*n)) is None,
        },
{
    let ghost names = export_names(exports@);
    let mut j: usize = 0;
    assert(names.take(0) =~= seq![]);
    while j < exports.len()
        invariant
            j <= exports@.len(),
            names == export_names(exports@),
            names.len() == exports@.len(),
            first_match(names.take(j as int), name_view(*n)) is None,
        decreases exports.len() - j,
    {
        assert(names.take(j + 1).drop_last() =~= names.take(j as int));
        assert(names[j as int] == exports@[j as int].name);
        if name_matches_exec(&exports[j].name, n) {
            assert(first_match(names.take(j + 1), name_view(*n)) == Some(j as int));
            proof { lemma_first_match_extend(names, j + 1, name_view(*n)); }
            return Some(j);
        }
        j = j + 1;
    }
    assert(names.take(j as int) =~= names);
    None
}

/// Records that `source` imports `sym` from the module with these exports.
fn add_reference(exports: &mut Vec<ExportSymbol>, source: FileId, sym: &ImportedSymbol)
    ensures
        final(exports)@.len() == old(exports)@.len(),
        export_refs(final(exports)@) == add_ref(export_refs(old(exports)@), export_names(old(exports)@), source, symbol_view(*sym)),
        forall|q: int| 0 <= q < old(exports)@.len() ==> same_but_refs(#[trigger] final(exports)@[q], old(exports)@[q]),
{
    let ghost e0 = exports@;
    let ghost names = export_names(e0);
    let ghost sv = symbol_view(*sym);
    match first_matching_export(exports, &sym.imported_name) {
        Some(k) => {
            push_ref(exports, k, SymbolReference { from_file: source, kind: kind_of(&sym.imported_name) });
        },
        None => {},
    }
    let ghost e1 = exports@;
    if matches!(sym.imported_name, ImportedName::Namespace) {
        let mut k: usize = 0;
        while k < exports.len()
            invariant
                k <= exports@.len(),
                exports@.len() == e1.len(),
                forall|q: int| 0 <= q < e1.len() ==> same_but_refs(#[trigger] exports@[q], e1[q]),
                forall|q: int| 0 <= q < k ==> #[trigger] export_refs(exports@)[q] == mark_all(export_refs(e1), source)[q],
                forall|q: int| k <= q < e1.len() ==> #[trigger] export_refs(exports@)[q] == export_refs(e1)[q],
            decreases exports.len() - k,
        {
            let ghost before = exports@;
            assert(exports@[k as int].references@ == export_refs(exports@)[k as int]);
            assert(mark_all(export_refs(e1), source)[k as int] == if has_ref_from(export_refs(e1)[k as int], source) {
                export_refs(e1)[k as int]
            } else {
                export_refs(e1)[k as int].push(SymbolReference { from_file: source, kind: ReferenceKind::NamespaceImport })
            });
            if !refs_contain_source(&exports[k].references, source) {
                push_ref(exports, k, SymbolReference { from_file: source, kind: ReferenceKind::NamespaceImport });
            }
            assert forall|q: int| 0 <= q < k + 1 implies #[trigger] export_refs(exports@)[q] == mark_all(export_refs(e1), source)[q] by {
                if q < k {
                    assert(export_refs(exports@)[q] == export_refs(before)[q]);
                }
            }
            assert forall|q: int| k + 1 <= q < e1.len() implies #[trigger] export_refs(exports@)[q] == export_refs(e1)[q] by {
                assert(export_refs(exports@)[q] == export_refs(before)[q]);
            }
            assert forall|q: int| 0 <= q < e1.len() implies same_but_refs(#[trigger] exports@[q], e1[q]) by {
                assert(same_but_refs(exports@[q], before[q]));
            }
            k = k + 1;
        }
        assert(export_refs(exports@) =~= mark_all(export_refs(e1), source));
    }
    assert forall|q: int| 0 <= q < e0.len() implies same_but_refs(#[trigger] exports@[q], e0[q]) by {
        assert(same_but_refs(e1[q], e0[q]));
    }
}


proof fn lemma_first_match_extend(names: Seq<ExportName>, m: int, n: NameView)
    requires
        0 <= m <= names.len(),
        first_match(names.take(m), n) is Some,
    ensures
        first_match(names, n) == first_match(names.take(m), n),
    decreases names.len() - m,
{
    if m < names.len() {
        assert(names.take(m + 1).drop_last() =~= names.take(m));
        lemma_first_match_extend(names, m + 1, n);
    } else {
        assert(names.take(m) =~= names);
    }
}


/// The symbols of the edges to targets `ts`, as (source, target, symbol).
pub open spec fn group_symbols(src: FileId, st: Seq<(FileId, SymbolSpec)>, ts: Seq<FileId>) -> Seq<(FileId, FileId, SymbolSpec)>
    decreases ts.len(),
{
    if ts.len() == 0 {
        seq![]
    } else {
        group_symbols(src, st, ts.drop_last()) + symbols_to(st, ts.last()).map_values(|x: SymbolSpec| (src, ts.last(), x))
    }
}

/// Every imported symbol of the first `n` files, edge by edge, as
/// (importer, imported file, symbol).
pub open spec fn edge_symbols(f: Seq<DiscoveredFile>, r: Seq<ResolvedModule>, n: int) -> Seq<(FileId, FileId, SymbolSpec)>
    decreases n,
{
    if n <= 0 {
        seq![]
    } else {
        edge_symbols(f, r, n - 1) + group_symbols(f[n - 1].id, file_stream(f, r, n - 1), file_targets(f, r, n - 1))
    }
}

/// The symbols of a list of edges, edge by edge.
pub open spec fn edges_symbols(edges: Seq<Edge>) -> Seq<(FileId, FileId, SymbolSpec)>
    decreases edges.len(),
{
    if edges.len() == 0 {
        seq![]
    } else {
        let e = edges.last();
        edges_symbols(edges.drop_last()) + symbols_view(e.symbols@).map_values(|x: SymbolSpec| (e.source, e.target, x))
    }
}

/// The references of every module's exports after the imports `ts`, in
/// order; `names` are the modules' export names.
pub open spec fn apply_refs(
    state: Seq<Seq<Seq<SymbolReference>>>,
    names: Seq<Seq<ExportName>>,
    ts: Seq<(FileId, FileId, SymbolSpec)>,
) -> Seq<Seq<Seq<SymbolReference>>>
    decreases ts.len(),
{
    if ts.len() == 0 {
        state
    } else {
        let s1 = apply_refs(state, names, ts.drop_last());
        let x = ts.last();
        let t = x.1.0 as int;
        if t < s1.len() { s1.update(t, add_ref(s1[t], names[t], x.0, x.2)) } else { s1 }
    }
}

pub open spec fn module_refs(m: Seq<ModuleNode>) -> Seq<Seq<Seq<SymbolReference>>> {
    m.map_values(|n: ModuleNode| export_refs(n.exports@))
}

pub open spec fn module_names(m: Seq<ModuleNode>) -> Seq<Seq<ExportName>> {
    m.map_values(|n: ModuleNode| export_names(n.exports@))
}

/// Two nodes agree on everything but the references of their exports.
pub open spec fn same_node_but_refs(a: ModuleNode, b: ModuleNode) -> bool {
    &&& a.file_id == b.file_id
    &&& a.path == b.path
    &&& a.edge_range == b.edge_range
    &&& a.re_exports == b.re_exports
    &&& a.is_entry_point == b.is_entry_point
    &&& a.is_reachable == b.is_reachable
    &&& a.has_cjs_exports == b.has_cjs_exports
    &&& a.exports@.len() == b.exports@.len()
    &&& forall|j: int| 0 <= j < a.exports@.len() ==> same_but_refs(#[trigger] a.exports@[j], b.exports@[j])
}

proof fn lemma_group_symbols(src: FileId, st: Seq<(FileId, SymbolSpec)>, ts: Seq<FileId>, edges: Seq<Edge>, base: int, k: int)
    requires
        0 <= k <= ts.len(),
        0 <= base,
        base + ts.len() <= edges.len(),
        forall|q: int| 0 <= q < ts.len() ==> {
            let e = #[trigger] edges[base + q];
            e.source == src && e.target == ts[q] && symbols_view(e.symbols@) == symbols_to(st, ts[q])
        },
    ensures
        edges_symbols(edges.take(base + k)) == edges_symbols(edges.take(base)) + group_symbols(src, st, ts.take(k)),
    decreases k,
{
    if k == 0 {
        assert(ts.take(0) =~= seq![]);
        assert(edges_symbols(edges.take(base)) + seq![] =~= edges_symbols(edges.take(base)));
    } else {
        lemma_group_symbols(src, st, ts, edges, base, k - 1);
        assert(edges.take(base + k).drop_last() =~= edges.take(base + k - 1));
        assert(ts.take(k).drop_last() =~= ts.take(k - 1));
        let e = edges[base + k - 1];
        assert(edges.take(base + k).last() == e);
        assert(ts.take(k).last() == ts[k - 1]);
    }
}

proof fn lemma_edges_symbols(f: Seq<DiscoveredFile>, r: Seq<ResolvedModule>, n: int, edges: Seq<Edge>)
    requires
        0 <= n <= f.len(),
        edges_laid_out(f, r, f.len() as int, edges),
    ensures
        edges_before(f, r, n) <= edges.len(),
        edges_symbols(edges.take(edges_before(f, r, n))) == edge_symbols(f, r, n),
    decreases n,
{
    lemma_edges_before_monotone(f, r, n, f.len() as int);
    if n == 0 {
        assert(edges.take(0) =~= seq![]);
    } else {
        lemma_edges_symbols(f, r, n - 1, edges);
        lemma_edges_before_monotone(f, r, 0, n - 1);
        let ts = file_targets(f, r, n - 1);
        let base = edges_before(f, r, n - 1);
        assert forall|q: int| 0 <= q < ts.len() implies {
            let e = #[trigger] edges[base + q];
            e.source == f[n - 1].id && e.target == ts[q] && symbols_view(e.symbols@) == symbols_to(file_stream(f, r, n - 1), ts[q])
        } by {
            assert(edge_matches(f[n - 1].id, file_stream(f, r, n - 1), q, edges[base + q]));
        }
        lemma_group_symbols(f[n - 1].id, file_stream(f, r, n - 1), ts, edges, base, ts.len() as int);
        assert(ts.take(ts.len() as int) =~= ts);
    }
}

fn placeholder_node() -> (r: ModuleNode)
    ensures
        r.file_id == FileId(0),
        r.path@ == Seq::<char>::empty(),
        r.edge_range.start == 0,
        r.edge_range.end == 0,
        r.exports@.len() == 0,
        r.re_exports@.len() == 0,
        !r.is_entry_point,
        !r.is_reachable,
        !r.has_cjs_exports,
{
    ModuleNode {
        file_id: FileId(0),
        path: String::new(),
        edge_range: std::ops::Range { start: 0, end: 0 },
        exports: Vec::new(),
        re_exports: Vec::new(),
        is_entry_point: false,
        is_reachable: false,
        has_cjs_exports: false,
    }
}

/// Adds the references of every imported symbol, edge by edge.
fn populate_references(modules: &mut Vec<ModuleNode>, edges: &Vec<Edge>)
    requires
        forall|q: int| 0 <= q < edges@.len() ==> ((#[trigger] edges@[q]).target.0 as int) < old(modules)@.len(),
    ensures
        final(modules)@.len() == old(modules)@.len(),
        forall|i: int| 0 <= i < old(modules)@.len() ==> same_node_but_refs(#[trigger] final(modules)@[i], old(modules)@[i]),
        module_refs(final(modules)@) == apply_refs(module_refs(old(modules)@), module_names(old(modules)@), edges_symbols(edges@)),
{
    let ghost m0 = modules@;
    let ghost names = module_names(m0);
    let mut q: usize = 0;
    assert(edges@.take(0) =~= seq![]);
    while q < edges.len()
        invariant
            q <= edges@.len(),
            forall|q: int| 0 <= q < edges@.len() ==> ((#[trigger] edges@[q]).target.0 as int) < m0.len(),
            modules@.len() == m0.len(),
            names == module_names(m0),
            forall|i: int| 0 <= i < m0.len() ==> same_node_but_refs(#[trigger] modules@[i], m0[i]),
            module_refs(modules@) == apply_refs(module_refs(m0), names, edges_symbols(edges@.take(q as int))),
        decreases edges.len() - q,
    {
        let edge = &edges[q];
        let t = edge.target.0 as usize;
        let ghost prefix = edges_symbols(edges@.take(q as int));
        let ghost syms = symbols_view(edge.symbols@);
        proof {
            assert(edges@.take(q + 1).drop_last() =~= edges@.take(q as int));
            assert(edges@.take(q + 1).last() == *edge);
        }
        let mut node = placeholder_node();
        modules.set_and_swap(t, &mut node);
        let ghost node0 = node;
        let mut k: usize = 0;
        assert(prefix + syms.take(0).map_values(|x: SymbolSpec| (edge.source, edge.target, x)) =~= prefix);
        while k < edge.symbols.len()
            invariant
                k <= edge.symbols@.len(),
                t < m0.len(),
                t == edge.target.0,
                syms == symbols_view(edge.symbols@),
                node.exports@.len() == node0.exports@.len(),
                forall|j: int| 0 <= j < node0.exports@.len() ==> same_but_refs(#[trigger] node.exports@[j], node0.exports@[j]),
                node.file_id == node0.file_id,
                node.path == node0.path,
                node.edge_range == node0.edge_range,
                node.re_exports == node0.re_exports,
                node.is_entry_point == node0.is_entry_point,
                node.is_reachable == node0.is_reachable,
                node.has_cjs_exports == node0.has_cjs_exports,
                module_refs(modules@.update(t as int, node)) == apply_refs(module_refs(m0), names,
                    prefix + syms.take(k as int).map_values(|x: SymbolSpec| (edge.source, edge.target, x))),
                names == module_names(m0),
                forall|i: int| 0 <= i < m0.len() && i != t ==> same_node_but_refs(#[trigger] modules@[i], m0[i]),
                modules@.len() == m0.len(),
                same_node_but_refs(node0, m0[t as int]),
            decreases edge.symbols.len() - k,
        {
            let ghost before = node.exports@;
            let ghost seqk = prefix + syms.take(k as int).map_values(|x: SymbolSpec| (edge.source, edge.target, x));
            let ghost seqk1 = prefix + syms.take(k + 1).map_values(|x: SymbolSpec| (edge.source, edge.target, x));
            add_reference(&mut node.exports, edge.source, &edge.symbols[k]);
            proof {
                assert(seqk1.drop_last() =~= seqk);
                assert(syms[k as int] == symbol_view(edge.symbols@[k as int]));
                assert(seqk1.last() == (edge.source, edge.target, syms[k as int]));
                assert(export_names(before) =~= names[t as int]) by {
                    assert forall|j: int| 0 <= j < before.len() implies export_names(before)[j] == names[t as int][j] by {
                        assert(same_but_refs(before[j], node0.exports@[j]));
                        assert(same_but_refs(node0.exports@[j], m0[t as int].exports@[j]));
                    }
                }
                assert(module_refs(modules@.update(t as int, node)) =~= apply_refs(module_refs(m0), names, seqk1));
                assert forall|j: int| 0 <= j < node0.exports@.len() implies same_but_refs(#[trigger] node.exports@[j], node0.exports@[j]) by {
                    assert(same_but_refs(node.exports@[j], before[j]));
                }
            }
            k = k + 1;
        }
        proof {
            assert(syms.take(syms.len() as int) =~= syms);
            assert(syms.len() == edge.symbols@.len());
        }
        modules.set(t, node);
        proof {
            assert forall|i: int| 0 <= i < m0.len() implies same_node_but_refs(#[trigger] modules@[i], m0[i]) by {
                if i == t {
                    assert forall|j: int| 0 <= j < node.exports@.len() implies same_but_refs(#[trigger] node.exports@[j], m0[i].exports@[j]) by {
                        assert(same_but_refs(node.exports@[j], node0.exports@[j]));
                        assert(same_but_refs(node0.exports@[j], m0[i].exports@[j]));
                    }
                }
            }
        }
        q = q + 1;
    }
    assert(edges@.take(edges@.len() as int) =~= edges@);
}


// ---- reachability ------------------------------------------------------

/// File index `y` is imported by the file at index `x` and lies below the
/// capacity.
pub open spec fn succ(f: Seq<DiscoveredFile>, r: Seq<ResolvedModule>, x: int, y: int) -> bool {
    &&& 0 <= x < f.len()
    &&& 0 <= y < capacity(f)
    &&& exists|k: int| 0 <= k < file_targets(f, r, x).len() && (#[trigger] file_targets(f, r, x)[k]).0 == y
}

/// Index `y` is an entry point's file id, below the capacity.
pub open spec fn start(f: Seq<DiscoveredFile>, e: Seq<EntryPoint>, y: int) -> bool {
    0 <= y < capacity(f) && exists|id: FileId| entry_id_set(e, f).contains(id) && id.0 == y
}

/// A chain of imports from an entry point.
pub open spec fn is_import_path(f: Seq<DiscoveredFile>, r: Seq<ResolvedModule>, e: Seq<EntryPoint>, p: Seq<int>) -> bool {
    &&& p.len() > 0
    &&& start(f, e, p[0])
    &&& forall|k: int| 0 <= k < p.len() - 1 ==> succ(f, r, #[trigger] p[k], p[k + 1])
}

/// Index `y` can be reached from an entry point by following imports.
pub open spec fn reachable(f: Seq<DiscoveredFile>, r: Seq<ResolvedModule>, e: Seq<EntryPoint>, y: int) -> bool {
    exists|p: Seq<int>| is_import_path(f, r, e, p) && p.last() == y
}

proof fn lemma_path_extend(f: Seq<DiscoveredFile>, r: Seq<ResolvedModule>, e: Seq<EntryPoint>, x: int, y: int)
    requires
        reachable(f, r, e, x),
        succ(f, r, x, y),
    ensures
        reachable(f, r, e, y),
{
    let p = choose|p: Seq<int>| is_import_path(f, r, e, p) && p.last() == x;
    let q = p.push(y);
    assert forall|k: int| 0 <= k < q.len() - 1 implies succ(f, r, #[trigger] q[k], q[k + 1]) by {
        if k < p.len() - 1 {
            assert(q[k] == p[k] && q[k + 1] == p[k + 1]);
        } else {
            assert(q[k] == x && q[k + 1] == y);
        }
    }
    assert(is_import_path(f, r, e, q) && q.last() == y);
}

proof fn lemma_closed_contains_reachable(f: Seq<DiscoveredFile>, r: Seq<ResolvedModule>, e: Seq<EntryPoint>, vi: Set<int>, y: int)
    requires
        forall|z: int| start(f, e, z) ==> vi.contains(z),
        forall|x: int, z: int| vi.contains(x) && succ(f, r, x, z) ==> vi.contains(z),
        reachable(f, r, e, y),
    ensures
        vi.contains(y),
{
    let p = choose|p: Seq<int>| is_import_path(f, r, e, p) && p.last() == y;
    lemma_path_in(f, r, e, vi, p, p.len() - 1);
}

proof fn lemma_path_in(f: Seq<DiscoveredFile>, r: Seq<ResolvedModule>, e: Seq<EntryPoint>, vi: Set<int>, p: Seq<int>, k: int)
    requires
        forall|z: int| start(f, e, z) ==> vi.contains(z),
        forall|x: int, z: int| vi.contains(x) && succ(f, r, x, z) ==> vi.contains(z),
        is_import_path(f, r, e, p),
        0 <= k < p.len(),
    ensures
        vi.contains(p[k]),
    decreases k,
{
    if k > 0 {
        lemma_path_in(f, r, e, vi, p, k - 1);
        assert(succ(f, r, p[k - 1], p[k]));
    }
}

fn set_reachable(modules: &mut Vec<ModuleNode>, i: usize, value: bool)
    requires
        i < old(modules)@.len(),
    ensures
        final(modules)@.len() == old(modules)@.len(),
        forall|j: int| 0 <= j < old(modules)@.len() && j != i ==> #[trigger] final(modules)@[j] == old(modules)@[j],
        final(modules)@[i as int].is_reachable == value,
        final(modules)@[i as int].file_id == old(modules)@[i as int].file_id,
        final(modules)@[i as int].path == old(modules)@[i as int].path,
        final(modules)@[i as int].edge_range == old(modules)@[i as int].edge_range,
        final(modules)@[i as int].exports == old(modules)@[i as int].exports,
        final(modules)@[i as int].re_exports == old(modules)@[i as int].re_exports,
        final(modules)@[i as int].is_entry_point == old(modules)@[i as int].is_entry_point,
        final(modules)@[i as int].has_cjs_exports == old(modules)@[i as int].has_cjs_exports,
{
    let mut node = placeholder_node();
    modules.set_and_swap(i, &mut node);
    node.is_reachable = value;
    modules.set(i, node);
}

/// Whether file index `y` waits in the queue.
pub open spec fn queued(q: Seq<FileId>, y: int) -> bool {
    exists|a: int| 0 <= a < q.len() && (#[trigger] q[a]).0 == y
}

/// The files that a chain of imports leads to from an entry point, as a bit
/// set of `cap` bits (breadth-first from the entry points).
fn collect_reachable(
    modules: &Vec<ModuleNode>,
    edges: &Vec<Edge>,
    entry_ids: &Vec<FileId>,
    cap: usize,
    Ghost(f): Ghost<Seq<DiscoveredFile>>,
    Ghost(r): Ghost<Seq<ResolvedModule>>,
    Ghost(e): Ghost<Seq<EntryPoint>>,
) -> (visited: FixedBitSet)
    requires
        modules@.len() == f.len(),
        f.len() <= cap,
        cap == capacity(f),
        edges_laid_out(f, r, f.len() as int, edges@),
        entry_ids@.to_set() == entry_id_set(e, f),
        entry_ids@.no_duplicates(),
        forall|i: int| 0 <= i < f.len() ==> (#[trigger] modules@[i]).edge_range.start == edges_before(f, r, i)
            && modules@[i].edge_range.end == edges_before(f, r, i + 1),
    ensures
        bitset_len(visited) == cap,
        forall|u: usize| #[trigger] bitset_ones(visited).contains(u) ==> u < cap && reachable(f, r, e, u as int),
        forall|i: int| 0 <= i < f.len() && reachable(f, r, e, i) ==> #[trigger] bitset_ones(visited).contains(i as usize),
{
    let ghost m0 = modules@;
    let mut visited = bitset_with_capacity(cap);
    let mut queue: std::collections::VecDeque<FileId> = std::collections::VecDeque::new();
    let ghost mut vi: Set<int> = Set::empty();
    let mut k: usize = 0;
    while k < entry_ids.len()
        invariant
            k <= entry_ids@.len(),
            entry_ids@.to_set() == entry_id_set(e, f),
            entry_ids@.no_duplicates(),
            cap == capacity(f),
            bitset_len(visited) == cap,
            forall|u: usize| #[trigger] bitset_ones(visited).contains(u) <==> vi.contains(u as int),
            forall|y: int| #[trigger] vi.contains(y) ==> 0 <= y < cap && reachable(f, r, e, y),
            forall|a: int| 0 <= a < queue@.len() ==> vi.contains((#[trigger] queue@[a]).0 as int),
            forall|a: int, b: int| 0 <= a < b < queue@.len() ==> (#[trigger] queue@[a]).0 != (#[trigger] queue@[b]).0,
            forall|y: int| #[trigger] vi.contains(y) ==> exists|a: int| 0 <= a < queue@.len() && (#[trigger] queue@[a]).0 == y,
            forall|j: int| 0 <= j < k && ((#[trigger] entry_ids@[j]).0 as int) < cap ==> vi.contains(entry_ids@[j].0 as int),
            forall|y: int| #[trigger] vi.contains(y) ==> exists|j: int| 0 <= j < k && (#[trigger] entry_ids@[j]).0 == y,
        decreases entry_ids.len() - k,
    {
        let id = entry_ids[k];
        if (id.0 as usize) < cap {
            proof {
                assert(entry_ids@.to_set().contains(id));
                assert(start(f, e, id.0 as int));
                let p = seq![id.0 as int];
                assert(is_import_path(f, r, e, p));
                assert(p.last() == id.0 as int);
                assert(reachable(f, r, e, id.0 as int));
                assert(!vi.contains(id.0 as int)) by {
                    if vi.contains(id.0 as int) {
                        let j = choose|j: int| 0 <= j < k && (#[trigger] entry_ids@[j]).0 == id.0;
                        assert(entry_ids@[j] == id);
                    }
                }
            }
            let ghost old_queue = queue@;
            bitset_insert(&mut visited, id.0 as usize);
            queue.push_back(id);
            proof {
                vi = vi.insert(id.0 as int);
                assert forall|a: int| 0 <= a < queue@.len() implies vi.contains((#[trigger] queue@[a]).0 as int) by {
                    if a < old_queue.len() {
                        assert(queue@[a] == old_queue[a]);
                    }
                }
                assert forall|a: int, b: int| 0 <= a < b < queue@.len() implies (#[trigger] queue@[a]).0 != (#[trigger] queue@[b]).0 by {
                    if b == old_queue.len() {
                        assert(queue@[a] == old_queue[a]);
                        assert(vi.contains(old_queue[a].0 as int));
                    } else {
                        assert(queue@[a] == old_queue[a] && queue@[b] == old_queue[b]);
                    }
                }
                assert forall|y: int| #[trigger] vi.contains(y) implies exists|a: int| 0 <= a < queue@.len() && (#[trigger] queue@[a]).0 == y by {
                    if y == id.0 {
                        assert(queue@[old_queue.len() as int] == id);
                    } else {
                        let a = choose|a: int| 0 <= a < old_queue.len() && (#[trigger] old_queue[a]).0 == y;
                        assert(queue@[a] == old_queue[a]);
                    }
                }
                assert forall|u: usize| #[trigger] bitset_ones(visited).contains(u) <==> vi.contains(u as int) by {}
            }
        }
        k = k + 1;
    }
    proof {
        assert forall|z: int| start(f, e, z) implies vi.contains(z) by {
            let id = choose|id: FileId| entry_id_set(e, f).contains(id) && id.0 == z;
            assert(entry_ids@.to_set().contains(id));
            let j = choose|j: int| 0 <= j < entry_ids@.len() && entry_ids@[j] == id;
        }
        vstd::set_lib::lemma_int_range(0, cap as int);
        vstd::set_lib::lemma_len_subset(vi, vstd::set_lib::set_int_range(0, cap as int));
    }
    while queue.len() > 0
        invariant
            cap == capacity(f),
            f.len() <= cap,
            modules@ == m0,
            m0.len() == f.len(),
            edges_laid_out(f, r, f.len() as int, edges@),
            forall|i: int| 0 <= i < f.len() ==> (#[trigger] m0[i]).edge_range.start == edges_before(f, r, i)
                && m0[i].edge_range.end == edges_before(f, r, i + 1),
            bitset_len(visited) == cap,
            vi.finite(),
            vi.len() <= cap,
            forall|u: usize| #[trigger] bitset_ones(visited).contains(u) <==> vi.contains(u as int),
            forall|y: int| #[trigger] vi.contains(y) ==> 0 <= y < cap && reachable(f, r, e, y),
            forall|a: int| 0 <= a < queue@.len() ==> vi.contains((#[trigger] queue@[a]).0 as int),
            forall|a: int, b: int| 0 <= a < b < queue@.len() ==> (#[trigger] queue@[a]).0 != (#[trigger] queue@[b]).0,
            forall|z: int| start(f, e, z) ==> vi.contains(z),
            forall|x: int, z: int| vi.contains(x) && succ(f, r, x, z)
                && !(exists|a: int| 0 <= a < queue@.len() && (#[trigger] queue@[a]).0 == x) ==> vi.contains(z),
        decreases 2 * (cap - vi.len()) + queue@.len(),
    {
        let ghost q0 = queue@;
        let ghost v0 = vi;
        let x = queue.pop_front().unwrap();
        assert(x == q0[0]);
        assert(queue@ =~= q0.subrange(1, q0.len() as int));
        assert forall|a: int| 1 <= a < q0.len() implies #[trigger] queued(queue@, q0[a].0 as int) by {
            assert(queue@[a - 1] == q0[a]);
        }
        let xi = x.0 as usize;
        if xi < modules.len() {
            let start = modules[xi].edge_range.start;
            let end = modules[xi].edge_range.end;
            proof {
                lemma_edges_before_monotone(f, r, xi + 1, f.len() as int);
                lemma_edges_before_monotone(f, r, 0, xi as int);
            }
            let mut k = start;
            while k < end
                invariant
                    start <= k <= end,
                    start == edges_before(f, r, xi as int),
                    end == edges_before(f, r, xi + 1),
                    end <= edges@.len(),
                    xi < f.len(),
                    xi as int == x.0 as int,
                    cap == capacity(f),
                    edges_laid_out(f, r, f.len() as int, edges@),
                    bitset_len(visited) == cap,
                    vi.finite(),
                    v0.subset_of(vi),
                    vi.len() <= cap,
                    2 * (cap - vi.len()) + queue@.len() < 2 * (cap - v0.len()) + q0.len(),
                    vi.contains(xi as int),
                    forall|u: usize| #[trigger] bitset_ones(visited).contains(u) <==> vi.contains(u as int),
                    forall|y: int| #[trigger] vi.contains(y) ==> 0 <= y < cap && reachable(f, r, e, y),
                    forall|a: int| 0 <= a < queue@.len() ==> vi.contains((#[trigger] queue@[a]).0 as int),
                    forall|a: int, b: int| 0 <= a < b < queue@.len() ==> (#[trigger] queue@[a]).0 != (#[trigger] queue@[b]).0,
                    forall|y: int| #[trigger] vi.contains(y) && !v0.contains(y) ==> exists|a: int| 0 <= a < queue@.len() && (#[trigger] queue@[a]).0 == y,
                    forall|a: int| 0 <= a < queue@.len() ==> (#[trigger] queue@[a]).0 != x.0,
                    forall|a: int| 1 <= a < q0.len() ==> #[trigger] queued(queue@, q0[a].0 as int),
                    forall|j: int| start <= j < k && ((#[trigger] edges@[j]).target.0 as int) < cap ==> vi.contains(edges@[j].target.0 as int),
                decreases end - k,
            {
                let target = edges[k].target;
                let ti = target.0 as usize;
                proof {
                    let q = k - start;
                    assert(edge_matches(f[xi as int].id, file_stream(f, r, xi as int), q, edges@[edges_before(f, r, xi as int) + q]));
                    assert(file_targets(f, r, xi as int)[q] == target);
                }
                if ti < cap && !bitset_contains(&visited, ti) {
                    proof {
                        assert(!vi.contains(ti as int));
                        assert(vi.contains(xi as int));
                        assert(xi as int == x.0 as int);
                        assert(ti as int == target.0 as int);
                        assert(target.0 != x.0);
                        assert(succ(f, r, xi as int, ti as int));
                        lemma_path_extend(f, r, e, xi as int, ti as int);
                        vstd::set_lib::lemma_int_range(0, cap as int);
                        assert(vi.insert(ti as int).subset_of(vstd::set_lib::set_int_range(0, cap as int)));
                        vstd::set_lib::lemma_len_subset(vi.insert(ti as int), vstd::set_lib::set_int_range(0, cap as int));
                    }
                    let ghost old_queue = queue@;
                    bitset_insert(&mut visited, ti);
                    queue.push_back(target);
                    proof {
                        vi = vi.insert(ti as int);
                        assert forall|a: int| 0 <= a < queue@.len() implies vi.contains((#[trigger] queue@[a]).0 as int) by {
                            if a < old_queue.len() {
                                assert(queue@[a] == old_queue[a]);
                            }
                        }
                        assert forall|a: int, b: int| 0 <= a < b < queue@.len() implies (#[trigger] queue@[a]).0 != (#[trigger] queue@[b]).0 by {
                            if b == old_queue.len() {
                                assert(queue@[a] == old_queue[a]);
                                assert(vi.contains(old_queue[a].0 as int));
                            } else {
                                assert(queue@[a] == old_queue[a] && queue@[b] == old_queue[b]);
                            }
                        }
                        assert forall|y: int| #[trigger] vi.contains(y) && !v0.contains(y) implies exists|a: int| 0 <= a < queue@.len() && (#[trigger] queue@[a]).0 == y by {
                            if y == ti {
                                assert(queue@[old_queue.len() as int] == target);
                            } else {
                                let a = choose|a: int| 0 <= a < old_queue.len() && (#[trigger] old_queue[a]).0 == y;
                                assert(queue@[a] == old_queue[a]);
                            }
                        }
                        assert forall|a: int| 0 <= a < queue@.len() implies (#[trigger] queue@[a]).0 != x.0 by {
                            if a < old_queue.len() {
                                assert(queue@[a] == old_queue[a]);
                            } else {
                                assert(queue@[a] == target);
                            }
                        }
                        assert forall|a: int| 1 <= a < q0.len() implies #[trigger] queued(queue@, q0[a].0 as int) by {
                            assert(queued(old_queue, q0[a].0 as int));
                            let b = choose|b: int| 0 <= b < old_queue.len() && (#[trigger] old_queue[b]).0 == q0[a].0;
                            assert(queue@[b] == old_queue[b]);
                        }
                        assert forall|u: usize| #[trigger] bitset_ones(visited).contains(u) <==> vi.contains(u as int) by {}
                    }
                }
                k = k + 1;
            }
            proof {
                assert forall|z: int| succ(f, r, xi as int, z) implies vi.contains(z) by {
                    let q = choose|q: int| 0 <= q < file_targets(f, r, xi as int).len() && (#[trigger] file_targets(f, r, xi as int)[q]).0 == z;
                    let j = start + q;
                    assert(edge_matches(f[xi as int].id, file_stream(f, r, xi as int), q, edges@[edges_before(f, r, xi as int) + q]));
                    assert(edges@[j].target.0 == z);
                }
            }
        } else {
            proof {
                assert(queue@.len() + 0 < q0.len());
            }
        }
        proof {
            assert forall|x2: int, z: int| vi.contains(x2) && succ(f, r, x2, z)
                && !(exists|a: int| 0 <= a < queue@.len() && (#[trigger] queue@[a]).0 == x2) implies vi.contains(z) by {
                if x2 == x.0 {
                } else if v0.contains(x2) {
                    if exists|a: int| 0 <= a < q0.len() && (#[trigger] q0[a]).0 == x2 {
                        let a = choose|a: int| 0 <= a < q0.len() && (#[trigger] q0[a]).0 == x2;
                        assert(a != 0);
                        assert(queued(queue@, q0[a].0 as int));
                        let b = choose|b: int| 0 <= b < queue@.len() && (#[trigger] queue@[b]).0 == q0[a].0;
                        assert(queue@[b].0 == x2);
                    }
                    assert(v0.contains(z));
                } else {
                    let a = choose|a: int| 0 <= a < queue@.len() && (#[trigger] queue@[a]).0 == x2;
                }
            }
        }
    }
    proof {
        assert forall|x: int, z: int| vi.contains(x) && succ(f, r, x, z) implies vi.contains(z) by {
            assert(!(exists|a: int| 0 <= a < queue@.len() && (#[trigger] queue@[a]).0 == x));
        }
        assert forall|i: int| 0 <= i < f.len() && reachable(f, r, e, i) implies #[trigger] bitset_ones(visited).contains(i as usize) by {
            lemma_closed_contains_reachable(f, r, e, vi, i);
        }
    }
    visited
}

/// Marks each module reachable exactly when a chain of imports leads to it
/// from an entry point.
fn mark_reachable(
    modules: &mut Vec<ModuleNode>,
    edges: &Vec<Edge>,
    entry_ids: &Vec<FileId>,
    cap: usize,
    Ghost(f): Ghost<Seq<DiscoveredFile>>,
    Ghost(r): Ghost<Seq<ResolvedModule>>,
    Ghost(e): Ghost<Seq<EntryPoint>>,
)
    requires
        old(modules)@.len() == f.len(),
        f.len() <= cap,
        cap == capacity(f),
        edges_laid_out(f, r, f.len() as int, edges@),
        entry_ids@.to_set() == entry_id_set(e, f),
        entry_ids@.no_duplicates(),
        forall|i: int| 0 <= i < f.len() ==> (#[trigger] old(modules)@[i]).edge_range.start == edges_before(f, r, i)
            && old(modules)@[i].edge_range.end == edges_before(f, r, i + 1),
    ensures
        final(modules)@.len() == old(modules)@.len(),
        forall|i: int| 0 <= i < f.len() ==> (#[trigger] final(modules)@[i]).is_reachable == reachable(f, r, e, i),
        forall|i: int| 0 <= i < f.len() ==> {
            let a = #[trigger] final(modules)@[i];
            let b = old(modules)@[i];
            a.file_id == b.file_id && a.path == b.path && a.edge_range == b.edge_range && a.exports == b.exports
                && a.re_exports == b.re_exports && a.is_entry_point == b.is_entry_point && a.has_cjs_exports == b.has_cjs_exports
        },
{
    let ghost m0 = modules@;
    let visited = collect_reachable(modules, edges, entry_ids, cap, Ghost(f), Ghost(r), Ghost(e));
    let mut i: usize = 0;
    while i < modules.len()
        invariant
            i <= modules@.len(),
            modules@.len() == m0.len(),
            m0.len() == f.len(),
            bitset_len(visited) == cap,
            f.len() <= cap,
            forall|u: usize| #[trigger] bitset_ones(visited).contains(u) ==> u < cap && reachable(f, r, e, u as int),
            forall|j: int| 0 <= j < f.len() && reachable(f, r, e, j) ==> #[trigger] bitset_ones(visited).contains(j as usize),
            forall|j: int| 0 <= j < i ==> (#[trigger] modules@[j]).is_reachable == reachable(f, r, e, j),
            forall|j: int| 0 <= j < f.len() ==> {
                let a = #[trigger] modules@[j];
                let b = m0[j];
                a.file_id == b.file_id && a.path == b.path && a.edge_range == b.edge_range && a.exports == b.exports
                    && a.re_exports == b.re_exports && a.is_entry_point == b.is_entry_point && a.has_cjs_exports == b.has_cjs_exports
            },
        decreases modules.len() - i,
    {
        let v = bitset_contains(&visited, i);
        proof {
            if reachable(f, r, e, i as int) {
                assert(bitset_ones(visited).contains((i as int) as usize));
            }
        }
        set_reachable(modules, i, v);
        i = i + 1;
    }
}


// ---- re-export chains --------------------------------------------------

/// The re-exports of all modules, as (barrel, source, imported name,
/// exported name), module by module.
pub open spec fn re_export_info(m: Seq<ModuleNode>) -> Seq<(FileId, FileId, Seq<char>, Seq<char>)>
    decreases m.len(),
{
    if m.len() == 0 {
        seq![]
    } else {
        let n = m.last();
        re_export_info(m.drop_last()) + n.re_exports@.map_values(|e: ReExportEdge| (n.file_id, e.source_file, e.imported_name@, e.exported_name@))
    }
}

/// The references of the exports with this name, export by export.
pub open spec fn refs_named(er: Seq<Seq<SymbolReference>>, names: Seq<ExportName>, name: Seq<char>) -> Seq<SymbolReference>
    decreases er.len(),
{
    if er.len() == 0 {
        seq![]
    } else {
        let k = er.len() - 1;
        refs_named(er.drop_last(), names, name) + if crate::extract::export_name_text(names[k]) == name { er[k] } else { seq![] }
    }
}

/// `refs` with each incoming reference added, in order, unless a reference
/// from the same file is already there.
pub open spec fn add_missing(refs: Seq<SymbolReference>, incoming: Seq<SymbolReference>) -> Seq<SymbolReference>
    decreases incoming.len(),
{
    if incoming.len() == 0 {
        refs
    } else {
        let prev = add_missing(refs, incoming.drop_last());
        if has_ref_from(prev, incoming.last().from_file) { prev } else { prev.push(incoming.last()) }
    }
}

/// The exports that a re-export forwards to: all for `*`, else those with
/// the imported name.
pub open spec fn forwarded(names: Seq<ExportName>, j: int, imported: Seq<char>) -> bool {
    imported == "*"@ || crate::extract::export_name_text(names[j]) == imported
}

/// One re-export passes the references of the barrel's re-exported name on
/// to the forwarded exports of its source.
pub open spec fn chain_step(
    state: Seq<Seq<Seq<SymbolReference>>>,
    names: Seq<Seq<ExportName>>,
    item: (FileId, FileId, Seq<char>, Seq<char>),
) -> Seq<Seq<Seq<SymbolReference>>> {
    let b = item.0.0 as int;
    let src = item.1.0 as int;
    if b >= state.len() || src >= state.len() {
        state
    } else {
        let incoming = refs_named(state[b], names[b], item.3);
        if incoming.len() == 0 {
            state
        } else {
            state.update(src, Seq::new(state[src].len(), |j: int|
                if forwarded(names[src], j, item.2) { add_missing(state[src][j], incoming) } else { state[src][j] }))
        }
    }
}

/// One pass over all re-exports, in order.
pub open spec fn chain_round(
    state: Seq<Seq<Seq<SymbolReference>>>,
    names: Seq<Seq<ExportName>>,
    info: Seq<(FileId, FileId, Seq<char>, Seq<char>)>,
) -> Seq<Seq<Seq<SymbolReference>>>
    decreases info.len(),
{
    if info.len() == 0 {
        state
    } else {
        chain_step(chain_round(state, names, info.drop_last()), names, info.last())
    }
}

/// Passes over the re-exports until one changes nothing, at most `n` passes.
pub open spec fn chain_rounds(
    state: Seq<Seq<Seq<SymbolReference>>>,
    names: Seq<Seq<ExportName>>,
    info: Seq<(FileId, FileId, Seq<char>, Seq<char>)>,
    n: nat,
) -> Seq<Seq<Seq<SymbolReference>>>
    decreases n,
{
    if n == 0 {
        state
    } else {
        let s1 = chain_round(state, names, info);
        if s1 == state { state } else { chain_rounds(s1, names, info, (n - 1) as nat) }
    }
}

/// Every reference list of `b` starts with the one of `a`.
pub open spec fn grows(a: Seq<Seq<Seq<SymbolReference>>>, b: Seq<Seq<Seq<SymbolReference>>>) -> bool {
    &&& a.len() == b.len()
    &&& forall|m: int| 0 <= m < a.len() ==> (#[trigger] a[m]).len() == b[m].len()
    &&& forall|m: int, j: int| 0 <= m < a.len() && 0 <= j < a[m].len() ==> (#[trigger] a[m][j]).len() <= b[m][j].len()
        && b[m][j].take(a[m][j].len() as int) == a[m][j]
}

proof fn lemma_add_missing_grows(refs: Seq<SymbolReference>, incoming: Seq<SymbolReference>)
    ensures
        refs.len() <= add_missing(refs, incoming).len(),
        add_missing(refs, incoming).take(refs.len() as int) == refs,
    decreases incoming.len(),
{
    if incoming.len() > 0 {
        lemma_add_missing_grows(refs, incoming.drop_last());
        let prev = add_missing(refs, incoming.drop_last());
        assert(prev.push(incoming.last()).take(refs.len() as int) =~= prev.take(refs.len() as int));
    }
}

proof fn lemma_grows_trans(a: Seq<Seq<Seq<SymbolReference>>>, b: Seq<Seq<Seq<SymbolReference>>>, c: Seq<Seq<Seq<SymbolReference>>>)
    requires
        grows(a, b),
        grows(b, c),
    ensures
        grows(a, c),
{
    assert forall|m: int, j: int| 0 <= m < a.len() && 0 <= j < a[m].len() implies (#[trigger] a[m][j]).len() <= c[m][j].len()
        && c[m][j].take(a[m][j].len() as int) == a[m][j] by {
        assert(c[m][j].take(b[m][j].len() as int).take(a[m][j].len() as int) =~= c[m][j].take(a[m][j].len() as int));
    }
}

fn refs_with_name(exports: &Vec<ExportSymbol>, name: &String) -> (r: Vec<SymbolReference>)
    ensures
        r@ == refs_named(export_refs(exports@), export_names(exports@), name@),
{
    let mut r: Vec<SymbolReference> = Vec::new();
    let mut j: usize = 0;
    assert(export_refs(exports@).take(0) =~= seq![]);
    while j < exports.len()
        invariant
            j <= exports@.len(),
            r@ == refs_named(export_refs(exports@).take(j as int), export_names(exports@), name@),
        decreases exports.len() - j,
    {
        assert(export_refs(exports@).take(j + 1).drop_last() =~= export_refs(exports@).take(j as int));
        let text = exports[j].name.to_text();
        if string_eq(&text, name) {
            let refs = &exports[j].references;
            let mut k: usize = 0;
            let ghost r0 = r@;
            assert(refs@.take(0) =~= seq![]);
            while k < refs.len()
                invariant
                    k <= refs@.len(),
                    r@ == r0 + refs@.take(k as int),
                decreases refs@.len() - k,
            {
                r.push(refs[k]);
                assert(refs@.take(k + 1) =~= refs@.take(k as int).push(refs@[k as int]));
                k = k + 1;
            }
            assert(refs@.take(k as int) =~= refs@);
            assert(refs@ == export_refs(exports@)[j as int]);
        } else {
            assert(r@ + seq![] =~= r@);
        }
        j = j + 1;
    }
    assert(export_refs(exports@).take(exports@.len() as int) =~= export_refs(exports@));
    r
}

/// Adds the incoming references to export `j`, skipping files it already
/// has a reference from; tells whether anything was added.
fn add_missing_refs(exports: &mut Vec<ExportSymbol>, j: usize, incoming: &Vec<SymbolReference>) -> (added: bool)
    requires
        j < old(exports)@.len(),
    ensures
        final(exports)@.len() == old(exports)@.len(),
        export_refs(final(exports)@) == export_refs(old(exports)@).update(j as int, add_missing(old(exports)@[j as int].references@, incoming@)),
        forall|q: int| 0 <= q < old(exports)@.len() ==> same_but_refs(#[trigger] final(exports)@[q], old(exports)@[q]),
        added == (add_missing(old(exports)@[j as int].references@, incoming@).len() > old(exports)@[j as int].references@.len()),
{
    let ghost e0 = exports@;
    let ghost r0 = e0[j as int].references@;
    let mut added = false;
    let mut k: usize = 0;
    assert(incoming@.take(0) =~= seq![]);
    assert(export_refs(exports@) =~= export_refs(e0).update(j as int, add_missing(r0, incoming@.take(0))));
    while k < incoming.len()
        invariant
            k <= incoming@.len(),
            j < exports@.len(),
            exports@.len() == e0.len(),
            export_refs(exports@) == export_refs(e0).update(j as int, add_missing(r0, incoming@.take(k as int))),
            forall|q: int| 0 <= q < e0.len() ==> same_but_refs(#[trigger] exports@[q], e0[q]),
            added == (add_missing(r0, incoming@.take(k as int)).len() > r0.len()),
            add_missing(r0, incoming@.take(k as int)).len() >= r0.len(),
        decreases incoming.len() - k,
    {
        assert(incoming@.take(k + 1).drop_last() =~= incoming@.take(k as int));
        let ghost before = exports@;
        assert(exports@[j as int].references@ == export_refs(exports@)[j as int]);
        let r = incoming[k];
        if !refs_contain_source(&exports[j].references, r.from_file) {
            push_ref(exports, j, r);
            added = true;
            assert forall|q: int| 0 <= q < e0.len() implies same_but_refs(#[trigger] exports@[q], e0[q]) by {
                assert(same_but_refs(exports@[q], before[q]));
            }
            assert(export_refs(exports@) =~= export_refs(e0).update(j as int, add_missing(r0, incoming@.take(k + 1))));
        }
        k = k + 1;
    }
    assert(incoming@.take(incoming@.len() as int) =~= incoming@);
    added
}


/// The references of a source module after forwarding `incoming` to its
/// exports before `j`.
pub open spec fn forwarded_upto(
    er: Seq<Seq<SymbolReference>>,
    names: Seq<ExportName>,
    imported: Seq<char>,
    incoming: Seq<SymbolReference>,
    j: int,
) -> Seq<Seq<SymbolReference>> {
    Seq::new(er.len(), |x: int| if x < j && forwarded(names, x, imported) { add_missing(er[x], incoming) } else { er[x] })
}

proof fn lemma_add_missing_same(refs: Seq<SymbolReference>, incoming: Seq<SymbolReference>)
    requires
        add_missing(refs, incoming).len() <= refs.len(),
    ensures
        add_missing(refs, incoming) == refs,
{
    lemma_add_missing_grows(refs, incoming);
    assert(add_missing(refs, incoming).take(refs.len() as int) =~= add_missing(refs, incoming));
}

fn is_forwarded(name: &ExportName, imported: &String) -> (r: bool)
    ensures
        r == (imported@ == "*"@ || crate::extract::export_name_text(*name) == imported@),
{
    str_eq(imported.as_str(), "*") || string_eq(&name.to_text(), imported)
}

proof fn lemma_grows_refl(a: Seq<Seq<Seq<SymbolReference>>>)
    ensures
        grows(a, a),
{
    assert forall|m: int, j: int| 0 <= m < a.len() && 0 <= j < a[m].len() implies (#[trigger] a[m][j]).len() <= a[m][j].len()
        && a[m][j].take(a[m][j].len() as int) == a[m][j] by {
        assert(a[m][j].take(a[m][j].len() as int) =~= a[m][j]);
    }
}

/// One pass of reference propagation over all re-exports; tells whether
/// anything changed.
fn chain_round_exec(
    modules: &mut Vec<ModuleNode>,
    info: &Vec<(FileId, FileId, String, String)>,
    Ghost(infov): Ghost<Seq<(FileId, FileId, Seq<char>, Seq<char>)>>,
) -> (changed: bool)
    requires
        infov.len() == info@.len(),
        forall|q: int| 0 <= q < info@.len() ==> #[trigger] infov[q] == (info@[q].0, info@[q].1, info@[q].2@, info@[q].3@),
    ensures
        final(modules)@.len() == old(modules)@.len(),
        forall|i: int| 0 <= i < old(modules)@.len() ==> same_node_but_refs(#[trigger] final(modules)@[i], old(modules)@[i]),
        module_refs(final(modules)@) == chain_round(module_refs(old(modules)@), module_names(old(modules)@), infov),
        changed == (module_refs(final(modules)@) != module_refs(old(modules)@)),
{
    let ghost m0 = modules@;
    let ghost s0 = module_refs(m0);
    let ghost names = module_names(m0);
    let mut changed = false;
    let mut q: usize = 0;
    assert(infov.take(0) =~= seq![]);
    proof { lemma_grows_refl(s0); }
    while q < info.len()
        invariant
            q <= info@.len(),
            infov.len() == info@.len(),
            forall|q: int| 0 <= q < info@.len() ==> #[trigger] infov[q] == (info@[q].0, info@[q].1, info@[q].2@, info@[q].3@),
            modules@.len() == m0.len(),
            names == module_names(m0),
            s0 == module_refs(m0),
            forall|i: int| 0 <= i < m0.len() ==> same_node_but_refs(#[trigger] modules@[i], m0[i]),
            module_refs(modules@) == chain_round(s0, names, infov.take(q as int)),
            grows(s0, module_refs(modules@)),
            changed ==> module_refs(modules@) != s0,
            !changed ==> module_refs(modules@) == s0,
        decreases info.len() - q,
    {
        assert(infov.take(q + 1).drop_last() =~= infov.take(q as int));
        assert(infov.take(q + 1).last() == infov[q as int]);
        let ghost cur = module_refs(modules@);
        let b = info[q].0.0 as usize;
        let src = info[q].1.0 as usize;
        if b < modules.len() && src < modules.len() {
            proof {
                assert(export_names(modules@[b as int].exports@) =~= names[b as int]) by {
                    assert forall|j: int| 0 <= j < modules@[b as int].exports@.len() implies
                        export_names(modules@[b as int].exports@)[j] == names[b as int][j] by {
                        assert(same_but_refs(modules@[b as int].exports@[j], m0[b as int].exports@[j]));
                    }
                }
            }
            let incoming = refs_with_name(&modules[b].exports, &info[q].3);
            if incoming.len() > 0 {
                let ghost incoming_v = incoming@;
                let mut node = placeholder_node();
                modules.set_and_swap(src, &mut node);
                let ghost node0 = node;
                assert(export_names(node.exports@) =~= names[src as int]) by {
                    assert forall|j: int| 0 <= j < node.exports@.len() implies export_names(node.exports@)[j] == names[src as int][j] by {
                        assert(same_but_refs(node.exports@[j], m0[src as int].exports@[j]));
                    }
                }
                let ghost er0 = export_refs(node0.exports@);
                let mut j: usize = 0;
                assert(export_refs(node.exports@) =~= forwarded_upto(er0, names[src as int], info[q as int].2@, incoming_v, 0));
                let ghost changed_before = changed;
                let mut added_any = false;
                while j < node.exports.len()
                    invariant
                        j <= node.exports@.len(),
                        q < info@.len(),
                        src < names.len(),
                        node.exports@.len() == node0.exports@.len(),
                        node.file_id == node0.file_id,
                        node.path == node0.path,
                        node.edge_range == node0.edge_range,
                        node.re_exports == node0.re_exports,
                        node.is_entry_point == node0.is_entry_point,
                        node.is_reachable == node0.is_reachable,
                        node.has_cjs_exports == node0.has_cjs_exports,
                        forall|x: int| 0 <= x < node0.exports@.len() ==> same_but_refs(#[trigger] node.exports@[x], node0.exports@[x]),
                        export_names(node0.exports@) == names[src as int],
                        er0 == export_refs(node0.exports@),
                        incoming_v == incoming@,
                        export_refs(node.exports@) == forwarded_upto(er0, names[src as int], info[q as int].2@, incoming_v, j as int),
                        added_any ==> exists|x: int| 0 <= x < er0.len() && (#[trigger] export_refs(node.exports@)[x]).len() > er0[x].len(),
                        !added_any ==> export_refs(node.exports@) == er0,
                    decreases node.exports.len() - j,
                {
                    let ghost before = node.exports@;
                    assert(export_names(node0.exports@)[j as int] == node0.exports@[j as int].name);
                    assert(node.exports@[j as int].name == node0.exports@[j as int].name) by {
                        assert(same_but_refs(node.exports@[j as int], node0.exports@[j as int]));
                    }
                    if is_forwarded(&node.exports[j].name, &info[q].2) {
                        assert(forwarded_upto(er0, names[src as int], info[q as int].2@, incoming_v, j as int)[j as int] == er0[j as int]);
                        assert(node.exports@[j as int].references@ == export_refs(node.exports@)[j as int]);
                        assert(node.exports@[j as int].references@ == er0[j as int]);
                        let added = add_missing_refs(&mut node.exports, j, &incoming);
                        proof {
                            lemma_add_missing_grows(er0[j as int], incoming_v);
                            if !added {
                                lemma_add_missing_same(er0[j as int], incoming_v);
                            }
                        }
                        added_any = added_any || added;
                        assert(export_refs(node.exports@) =~= forwarded_upto(er0, names[src as int], info[q as int].2@, incoming_v, j + 1));
                    } else {
                        assert(export_refs(node.exports@) =~= forwarded_upto(er0, names[src as int], info[q as int].2@, incoming_v, j + 1));
                    }
                    proof {
                        assert forall|x: int| 0 <= x < node0.exports@.len() implies same_but_refs(#[trigger] node.exports@[x], node0.exports@[x]) by {
                            assert(same_but_refs(node.exports@[x], before[x]));
                        }
                        if added_any {
                            if !(exists|x: int| 0 <= x < er0.len() && (#[trigger] export_refs(before)[x]).len() > er0[x].len()) {
                                assert(export_refs(node.exports@)[j as int].len() > er0[j as int].len());
                            } else {
                                let x = choose|x: int| 0 <= x < er0.len() && (#[trigger] export_refs(before)[x]).len() > er0[x].len();
                                assert(x < j);
                                assert(export_refs(node.exports@)[x] == export_refs(before)[x]);
                            }
                        } else {
                            assert(export_refs(node.exports@) =~= er0);
                        }
                    }
                    j = j + 1;
                }
                modules.set(src, node);
                proof {
                    let ns = forwarded_upto(er0, names[src as int], info[q as int].2@, incoming_v, node0.exports@.len() as int);
                    assert(module_refs(modules@) =~= cur.update(src as int, ns));
                    assert(er0 == cur[src as int]);
                    assert(ns =~= Seq::new(cur[src as int].len(), |x: int|
                        if forwarded(names[src as int], x, infov[q as int].2) { add_missing(cur[src as int][x], incoming_v) } else { cur[src as int][x] }));
                    assert(module_refs(modules@) == chain_round(s0, names, infov.take(q + 1)));
                    assert(grows(cur, module_refs(modules@))) by {
                        assert forall|m: int, x: int| 0 <= m < cur.len() && 0 <= x < cur[m].len() implies (#[trigger] cur[m][x]).len() <= module_refs(modules@)[m][x].len()
                            && module_refs(modules@)[m][x].take(cur[m][x].len() as int) == cur[m][x] by {
                            if m == src && forwarded(names[src as int], x, infov[q as int].2) {
                                lemma_add_missing_grows(cur[m][x], incoming_v);
                            } else {
                                assert(module_refs(modules@)[m][x] =~= cur[m][x]);
                            }
                        }
                    }
                    lemma_grows_trans(s0, cur, module_refs(modules@));
                    assert forall|i: int| 0 <= i < m0.len() implies same_node_but_refs(#[trigger] modules@[i], m0[i]) by {
                        if i == src {
                            assert forall|x: int| 0 <= x < node.exports@.len() implies same_but_refs(#[trigger] node.exports@[x], m0[i].exports@[x]) by {
                                assert(same_but_refs(node.exports@[x], node0.exports@[x]));
                                assert(same_but_refs(node0.exports@[x], m0[i].exports@[x]));
                            }
                        }
                    }
                    if added_any {
                        let x = choose|x: int| 0 <= x < er0.len() && (#[trigger] export_refs(node.exports@)[x]).len() > er0[x].len();
                        assert(module_refs(modules@)[src as int][x].len() > s0[src as int][x].len());
                        assert(module_refs(modules@) != s0);
                    } else {
                        assert(module_refs(modules@) =~= cur);
                    }
                }
                changed = changed || added_any;
            } else {
                assert(chain_round(s0, names, infov.take(q + 1)) == cur);
            }
        } else {
            assert(chain_round(s0, names, infov.take(q + 1)) == cur);
        }
        q = q + 1;
    }
    assert(infov.take(info@.len() as int) =~= infov);
    changed
}


fn re_export_info_of(modules: &Vec<ModuleNode>) -> (info: Vec<(FileId, FileId, String, String)>)
    ensures
        info@.len() == re_export_info(modules@).len(),
        forall|q: int| 0 <= q < info@.len() ==> #[trigger] re_export_info(modules@)[q]
            == (info@[q].0, info@[q].1, info@[q].2@, info@[q].3@),
{
    let mut info: Vec<(FileId, FileId, String, String)> = Vec::new();
    let mut i: usize = 0;
    while i < modules.len()
        invariant
            i <= modules@.len(),
            info@.len() == re_export_info(modules@.take(i as int)).len(),
            forall|q: int| 0 <= q < info@.len() ==> #[trigger] re_export_info(modules@.take(i as int))[q]
                == (info@[q].0, info@[q].1, info@[q].2@, info@[q].3@),
        decreases modules.len() - i,
    {
        assert(modules@.take(i + 1).drop_last() =~= modules@.take(i as int));
        let node = &modules[i];
        let ghost base = re_export_info(modules@.take(i as int));
        let ghost add = node.re_exports@.map_values(|e: ReExportEdge| (node.file_id, e.source_file, e.imported_name@, e.exported_name@));
        let mut j: usize = 0;
        while j < node.re_exports.len()
            invariant
                j <= node.re_exports@.len(),
                add == node.re_exports@.map_values(|e: ReExportEdge| (node.file_id, e.source_file, e.imported_name@, e.exported_name@)),
                add.len() == node.re_exports@.len(),
                info@.len() == base.len() + j,
                forall|q: int| 0 <= q < info@.len() ==> #[trigger] (base + add)[q] == (info@[q].0, info@[q].1, info@[q].2@, info@[q].3@),
            decreases node.re_exports.len() - j,
        {
            let e = &node.re_exports[j];
            let ghost before = info@;
            let item = (node.file_id, e.source_file, copy_string(&e.imported_name), copy_string(&e.exported_name));
            info.push(item);
            proof {
                assert((base + add)[base.len() + j] == add[j as int]);
                assert(*e == node.re_exports@[j as int]);
                assert(add[j as int] == (node.file_id, e.source_file, e.imported_name@, e.exported_name@));
                assert(info@.len() == base.len() + j + 1);
                assert forall|q: int| 0 <= q < info@.len() implies #[trigger] (base + add)[q] == (info@[q].0, info@[q].1, info@[q].2@, info@[q].3@) by {
                    if q < before.len() {
                        assert(info@[q] == before[q]);
                    } else {
                        assert(info@[q] == item);
                    }
                }
            }
            j = j + 1;
        }
        assert(re_export_info(modules@.take(i + 1)) =~= base + add);
        i = i + 1;
    }
    assert(modules@.take(modules@.len() as int) =~= modules@);
    info
}

/// Passes references on through re-export chains, at most twenty passes.
fn resolve_re_export_chains(modules: &mut Vec<ModuleNode>)
    ensures
        final(modules)@.len() == old(modules)@.len(),
        forall|i: int| 0 <= i < old(modules)@.len() ==> same_node_but_refs(#[trigger] final(modules)@[i], old(modules)@[i]),
        module_refs(final(modules)@) == chain_rounds(module_refs(old(modules)@), module_names(old(modules)@), re_export_info(old(modules)@), 20),
{
    let ghost m0 = modules@;
    let ghost names = module_names(m0);
    let ghost infov = re_export_info(m0);
    let info = re_export_info_of(modules);
    if info.len() == 0 {
        assert(infov =~= seq![]);
        assert(chain_round(module_refs(m0), names, infov) == module_refs(m0));
        return;
    }
    let mut changed = true;
    let mut iteration: usize = 0;
    while changed && iteration < 20
        invariant
            iteration <= 20,
            infov.len() == info@.len(),
            forall|q: int| 0 <= q < info@.len() ==> #[trigger] infov[q] == (info@[q].0, info@[q].1, info@[q].2@, info@[q].3@),
            modules@.len() == m0.len(),
            names == module_names(m0),
            forall|i: int| 0 <= i < m0.len() ==> same_node_but_refs(#[trigger] modules@[i], m0[i]),
            chain_rounds(module_refs(m0), names, infov, 20) == if changed {
                chain_rounds(module_refs(modules@), names, infov, (20 - iteration) as nat)
            } else {
                module_refs(modules@)
            },
        decreases 20 - iteration,
    {
        let ghost m1 = modules@;
        proof {
            assert(module_names(m1) =~= names) by {
                assert forall|i: int| 0 <= i < m0.len() implies module_names(m1)[i] == names[i] by {
                    assert(export_names(m1[i].exports@) =~= export_names(m0[i].exports@)) by {
                        assert forall|j: int| 0 <= j < m1[i].exports@.len() implies
                            export_names(m1[i].exports@)[j] == export_names(m0[i].exports@)[j] by {
                            assert(same_but_refs(m1[i].exports@[j], m0[i].exports@[j]));
                        }
                    }
                }
            }
        }
        changed = chain_round_exec(modules, &info, Ghost(infov));
        proof {
            assert forall|i: int| 0 <= i < m0.len() implies same_node_but_refs(#[trigger] modules@[i], m0[i]) by {
                assert(same_node_but_refs(modules@[i], m1[i]));
                assert(same_node_but_refs(m1[i], m0[i]));
                assert forall|j: int| 0 <= j < modules@[i].exports@.len() implies same_but_refs(#[trigger] modules@[i].exports@[j], m0[i].exports@[j]) by {
                    assert(same_but_refs(modules@[i].exports@[j], m1[i].exports@[j]));
                    assert(same_but_refs(m1[i].exports@[j], m0[i].exports@[j]));
                }
            }
        }
        iteration = iteration + 1;
    }
}

// ---- the graph ---------------------------------------------------------

/// The core module dependency graph.
#[derive(Debug)]
pub struct ModuleGraph {
    /// All modules indexed by file position.
    pub modules: Vec<ModuleNode>,
    /// Flat edge storage; each module's edges lie in its `edge_range`.
    pub edges: Vec<Edge>,
    /// Npm package names with the files that import them, in order of first use.
    pub package_usage: Vec<(String, Vec<FileId>)>,
    /// All entry point file ids, each once.
    pub entry_points: Vec<FileId>,
    /// Reverse index: for each file index, which files import it.
    pub reverse_deps: Vec<Vec<FileId>>,
    /// Which modules have namespace imports (import * as ns).
    pub namespace_imported: FixedBitSet,
}

/// No export references anything yet.
pub open spec fn no_refs(m: Seq<ModuleNode>) -> Seq<Seq<Seq<SymbolReference>>> {
    m.map_values(|n: ModuleNode| n.exports@.map_values(|e: ExportSymbol| Seq::<SymbolReference>::empty()))
}

/// Every file's resolved imports point below the number of files.
pub open spec fn targets_in_range(f: Seq<DiscoveredFile>, r: Seq<ResolvedModule>) -> bool {
    forall|i: int, q: int| 0 <= i < f.len() && 0 <= q < file_stream(f, r, i).len()
        ==> ((#[trigger] file_stream(f, r, i)[q]).0.0 as int) < f.len()
}

/// Entry points are reachable.
pub proof fn lemma_entry_points_reachable(f: Seq<DiscoveredFile>, r: Seq<ResolvedModule>, e: Seq<EntryPoint>, y: int)
    requires
        start(f, e, y),
    ensures
        reachable(f, r, e, y),
{
    let p = seq![y];
    assert(is_import_path(f, r, e, p) && p.last() == y);
}

/// Whatever a reachable module imports is reachable too.
pub proof fn lemma_imports_of_reachable_are_reachable(f: Seq<DiscoveredFile>, r: Seq<ResolvedModule>, e: Seq<EntryPoint>, x: int, y: int)
    requires
        reachable(f, r, e, x),
        succ(f, r, x, y),
    ensures
        reachable(f, r, e, y),
{
    lemma_path_extend(f, r, e, x, y);
}

/// What building the graph yields: one node per file, its reachability from
/// the entry points, the export references after re-export chains are
/// followed, the edges, the package usage, the entry set, the reverse
/// dependencies and the namespace-import set.
pub open spec fn graph_built(g: ModuleGraph, resolved: Seq<ResolvedModule>, entries: Seq<EntryPoint>, files: Seq<DiscoveredFile>) -> bool {
    &&& g.modules@.len() == files.len()
    &&& forall|i: int| 0 <= i < files.len() ==> node_of(files, resolved, entry_id_set(entries, files), i, #[trigger] g.modules@[i])
    &&& forall|i: int| 0 <= i < files.len() ==> (#[trigger] g.modules@[i]).is_reachable == reachable(files, resolved, entries, i)
    &&& module_refs(g.modules@) == chain_rounds(
        apply_refs(no_refs(g.modules@), module_names(g.modules@), edge_symbols(files, resolved, files.len() as int)),
        module_names(g.modules@),
        re_export_info(g.modules@),
        20,
    )
    &&& g.edge_count_spec() == edges_before(files, resolved, files.len() as int)
    &&& usage_matches(g.package_usage@, package_events(files, resolved, files.len() as int))
    &&& g.entry_points@.to_set() == entry_id_set(entries, files)
    &&& g.entry_points@.no_duplicates()
    &&& g.reverse_deps@.len() == capacity(files)
    &&& forall|t: int| 0 <= t < capacity(files) ==> (#[trigger] g.reverse_deps@[t])@
        == sources_to(all_edge_ends(files, resolved, files.len() as int), t)
    &&& g.namespace_set() == namespace_bits(files, resolved, files.len() as int)
    &&& g.namespace_len() == capacity(files)
}

proof fn lemma_event_names(f: Seq<DiscoveredFile>, r: Seq<ResolvedModule>, n: int, name: Seq<char>)
    requires
        0 <= n <= f.len(),
    ensures
        event_names(package_events(f, r, n)).contains(name) <==> exists|i: int|
            0 <= i < n && #[trigger] file_packages(f, r, i).contains(name),
    decreases n,
{
    if n > 0 {
        lemma_event_names(f, r, n - 1, name);
        let prev = package_events(f, r, n - 1);
        let here = file_packages(f, r, n - 1);
        let id = f[n - 1].id;
        assert(event_names(package_events(f, r, n)) =~= event_names(prev) + here) by {
            assert(package_events(f, r, n) == prev + here.map_values(|p: Seq<char>| (p, id)));
        }
        if event_names(package_events(f, r, n)).contains(name) {
            let j = choose|j: int| 0 <= j < event_names(package_events(f, r, n)).len()
                && event_names(package_events(f, r, n))[j] == name;
            if j >= event_names(prev).len() {
                assert(here[j - event_names(prev).len()] == name);
                assert(file_packages(f, r, n - 1).contains(name));
            } else {
                assert(event_names(prev)[j] == name);
            }
        }
        if exists|i: int| 0 <= i < n && #[trigger] file_packages(f, r, i).contains(name) {
            let i = choose|i: int| 0 <= i < n && #[trigger] file_packages(f, r, i).contains(name);
            if i == n - 1 {
                let j = choose|j: int| 0 <= j < here.len() && here[j] == name;
                assert((event_names(prev) + here)[event_names(prev).len() + j] == name);
            } else {
                let j = choose|j: int| 0 <= j < event_names(prev).len() && event_names(prev)[j] == name;
                assert((event_names(prev) + here)[j] == name);
            }
        }
    }
}

/// The graph's package usage lists each npm package once, and exactly the
/// packages that some file of the run imports or re-exports from.
pub proof fn lemma_package_usage_keys(
    g: ModuleGraph,
    resolved: Seq<ResolvedModule>,
    entries: Seq<EntryPoint>,
    files: Seq<DiscoveredFile>,
    name: Seq<char>,
)
    requires
        graph_built(g, resolved, entries, files),
    ensures
        (exists|k: int| 0 <= k < g.package_usage@.len() && #[trigger] g.package_usage@[k].0@ == name) <==> exists|i: int|
            0 <= i < files.len() && #[trigger] file_packages(files, resolved, i).contains(name),
        forall|a: int, b: int|
            0 <= a < b < g.package_usage@.len() ==> #[trigger] g.package_usage@[a].0@ != #[trigger] g.package_usage@[b].0@,
{
    let ev = package_events(files, resolved, files.len() as int);
    let names = first_appearances(event_names(ev));
    lemma_first_appearances(event_names(ev));
    lemma_event_names(files, resolved, files.len() as int, name);
    let u = g.package_usage@;
    assert(u.len() == names.len());
    assert(forall|k: int| 0 <= k < u.len() ==> u[k].0@ == names[k]);
    if exists|k: int| 0 <= k < u.len() && #[trigger] u[k].0@ == name {
        let k = choose|k: int| 0 <= k < u.len() && #[trigger] u[k].0@ == name;
        assert(names.to_set().contains(name));
        assert(event_names(ev).to_set().contains(name));
    }
    if event_names(ev).contains(name) {
        assert(event_names(ev).to_set().contains(name));
        assert(names.to_set().contains(name));
        let k = choose|k: int| 0 <= k < names.len() && names[k] == name;
        assert(u[k].0@ == name);
    }
}

impl ModuleGraph {
    /// The number of edges.
    pub closed spec fn edge_count_spec(&self) -> nat {
        self.edges@.len()
    }

    /// The set bits of the namespace-import set.
    pub closed spec fn namespace_set(&self) -> Set<usize> {
        bitset_ones(self.namespace_imported)
    }

    /// The number of bits of the namespace-import set.
    pub closed spec fn namespace_len(&self) -> usize {
        bitset_len(self.namespace_imported)
    }

    /// Build the module graph from resolved modules and entry points.
    pub fn build(resolved_modules: &Vec<ResolvedModule>, entry_points: &Vec<EntryPoint>, files: &Vec<DiscoveredFile>) -> (g: ModuleGraph)
        requires
            files@.len() < usize::MAX,
            forall|i: int| 0 <= i < files@.len() ==> (#[trigger] files@[i]).id.0 < usize::MAX,
            edges_before(files@, resolved_modules@, files@.len() as int) <= usize::MAX,
            targets_in_range(files@, resolved_modules@),
        ensures
            graph_built(g, resolved_modules@, entry_points@, files@),
    {
        let ghost f = files@;
        let ghost r = resolved_modules@;
        let ghost e = entry_points@;
        let cap = graph_capacity(files);
        let entry_ids = entry_point_ids(entry_points, files);
        let (edges, ranges) = layout_edges(files, resolved_modules);
        let package_usage = package_usage_of(files, resolved_modules);
        let namespace_imported = namespace_imports(files, resolved_modules, cap);
        proof { lemma_edge_ends(f, r, f.len() as int, edges@); }
        let reverse_deps = reverse_deps_of(&edges, cap, Ghost(all_edge_ends(f, r, f.len() as int)));
        let mut modules = build_nodes(files, resolved_modules, &entry_ids, &ranges);
        let ghost m0 = modules@;
        proof {
            assert forall|q: int| 0 <= q < edges@.len() implies ((#[trigger] edges@[q]).target.0 as int) < m0.len() by {
                assert(all_edge_ends(f, r, f.len() as int)[q] == (edges@[q].source, edges@[q].target));
                lemma_edge_end_target(f, r, f.len() as int, q);
            }
            assert(module_refs(m0) =~= no_refs(m0)) by {
                assert forall|i: int| 0 <= i < m0.len() implies module_refs(m0)[i] =~= no_refs(m0)[i] by {
                    assert forall|j: int| 0 <= j < m0[i].exports@.len() implies module_refs(m0)[i][j] =~= no_refs(m0)[i][j] by {
                        assert(m0[i].exports@[j].references@.len() == 0);
                    }
                }
            }
        }
        populate_references(&mut modules, &edges);
        let ghost m1 = modules@;
        proof { lemma_edges_symbols(f, r, f.len() as int, edges@); }
        mark_reachable(&mut modules, &edges, &entry_ids, cap, Ghost(f), Ghost(r), Ghost(e));
        let ghost m2 = modules@;
        resolve_re_export_chains(&mut modules);
        let ghost m3 = modules@;
        proof {
            assert(edges@.take(edges_before(f, r, f.len() as int)) =~= edges@);
            assert forall|i: int| 0 <= i < f.len() implies node_of(f, r, entry_id_set(e, f), i, #[trigger] m3[i]) by {
                assert(node_of(f, r, entry_ids@.to_set(), i, m0[i]));
                assert(same_node_but_refs(m1[i], m0[i]));
                assert(same_node_but_refs(m3[i], m2[i]));
                let k = module_index(r, f[i].id);
                if k is Some {
                    let k = k.unwrap();
                    assert forall|j: int| 0 <= j < m3[i].exports@.len() implies export_symbol_of(r[k].exports@[j], #[trigger] m3[i].exports@[j]) by {
                        assert(same_but_refs(m3[i].exports@[j], m2[i].exports@[j]));
                        assert(same_but_refs(m1[i].exports@[j], m0[i].exports@[j]));
                        assert(export_symbol_of(r[k].exports@[j], m0[i].exports@[j]));
                    }
                }
            }
            assert forall|i: int| 0 <= i < f.len() implies (#[trigger] m3[i]).is_reachable == reachable(f, r, e, i) by {
                assert(same_node_but_refs(m3[i], m2[i]));
            }
            assert(module_names(m2) =~= module_names(m1)) by {
                assert forall|i: int| 0 <= i < f.len() implies module_names(m2)[i] == module_names(m1)[i] by {}
            }
            assert(module_names(m1) =~= module_names(m0)) by {
                assert forall|i: int| 0 <= i < f.len() implies module_names(m1)[i] =~= module_names(m0)[i] by {
                    assert forall|j: int| 0 <= j < m1[i].exports@.len() implies module_names(m1)[i][j] == module_names(m0)[i][j] by {
                        assert(same_but_refs(m1[i].exports@[j], m0[i].exports@[j]));
                    }
                }
            }
            assert(module_names(m3) =~= module_names(m2)) by {
                assert forall|i: int| 0 <= i < f.len() implies module_names(m3)[i] =~= module_names(m2)[i] by {
                    assert forall|j: int| 0 <= j < m3[i].exports@.len() implies module_names(m3)[i][j] == module_names(m2)[i][j] by {
                        assert(same_but_refs(m3[i].exports@[j], m2[i].exports@[j]));
                    }
                }
            }
            assert(module_refs(m2) =~= module_refs(m1)) by {
                assert forall|i: int| 0 <= i < f.len() implies module_refs(m2)[i] == module_refs(m1)[i] by {}
            }
            assert(re_export_info(m3) == re_export_info(m2)) by {
                lemma_re_export_info_same(m3, m2);
            }
            assert(no_refs(m3) =~= no_refs(m0)) by {
                assert forall|i: int| 0 <= i < f.len() implies no_refs(m3)[i] =~= no_refs(m0)[i] by {
                    assert(m3[i].exports@.len() == m0[i].exports@.len()) by {
                        assert(same_node_but_refs(m3[i], m2[i]));
                        assert(same_node_but_refs(m1[i], m0[i]));
                    }
                }
            }
        }
        ModuleGraph { modules, edges, package_usage, entry_points: entry_ids, reverse_deps, namespace_imported }
    }

    /// Total number of modules.
    pub fn module_count(&self) -> (n: usize)
        ensures
            n == self.modules@.len(),
    {
        self.modules.len()
    }

    /// Total number of edges.
    pub fn edge_count(&self) -> (n: usize)
        ensures
            n == self.edge_count_spec(),
    {
        self.edges.len()
    }

    /// Whether any importer uses `import * as ns` (or `export * from`) for
    /// this module.
    pub fn has_namespace_import(&self, file_id: FileId) -> (r: bool)
        ensures
            r == ((file_id.0 as int) < self.namespace_len() && self.namespace_set().contains(file_id.0 as usize)),
    {
        let idx = file_id.0 as usize;
        if idx >= bitset_length(&self.namespace_imported) {
            return false;
        }
        bitset_contains(&self.namespace_imported, idx)
    }
}

proof fn lemma_re_export_info_same(a: Seq<ModuleNode>, b: Seq<ModuleNode>)
    requires
        a.len() == b.len(),
        forall|i: int| 0 <= i < a.len() ==> (#[trigger] a[i]).file_id == b[i].file_id && a[i].re_exports == b[i].re_exports,
    ensures
        re_export_info(a) == re_export_info(b),
    decreases a.len(),
{
    if a.len() > 0 {
        lemma_re_export_info_same(a.drop_last(), b.drop_last());
        assert(a.last() == a[a.len() - 1]);
    }
}

proof fn lemma_edge_end_target(f: Seq<DiscoveredFile>, r: Seq<ResolvedModule>, n: int, q: int)
    requires
        0 <= n <= f.len(),
        targets_in_range(f, r),
        0 <= q < all_edge_ends(f, r, n).len(),
    ensures
        (all_edge_ends(f, r, n)[q].1.0 as int) < f.len(),
    decreases n,
{
    if n > 0 {
        let prev = all_edge_ends(f, r, n - 1);
        if q < prev.len() {
            lemma_edge_end_target(f, r, n - 1, q);
        } else {
            let k = q - prev.len();
            let ts = file_targets(f, r, n - 1);
            let t = ts[k];
            lemma_first_appearances(stream_targets(file_stream(f, r, n - 1)));
            assert(ts.to_set().contains(t));
            assert(stream_targets(file_stream(f, r, n - 1)).to_set().contains(t));
            let st = stream_targets(file_stream(f, r, n - 1));
            let p = choose|p: int| 0 <= p < st.len() && #[trigger] st[p] == t;
            assert(file_stream(f, r, n - 1)[p].0 == t);
        }
    }
}

} // verus!
