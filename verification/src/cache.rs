//! The incremental cache: per-file extraction results keyed by path and
//! validated by content hash, and the conversion between extracted modules
//! and their stored form.
use vstd::prelude::*;

use crate::extract::{
    access_view, accesses_view, export_name_text, DynamicImportInfo, ExportInfo, ExportName, FileId,
    ImportInfo, ImportedName, MemberAccess, MemberInfo, MemberKind, ModuleInfo, ReExportInfo,
    RequireCallInfo, Span,
};
use crate::text::{copy_string, str_eq, to_owned_string, views};

verus! {

/// Cache format version; a stored cache of another version is ignored.
pub const CACHE_VERSION: u32 = 2;

/// Cached data for a single module.
#[derive(Debug, Clone)]
pub struct CachedModule {
    /// Hash of the file content.
    pub content_hash: u64,
    /// Exported symbols.
    pub exports: Vec<CachedExport>,
    /// Import specifiers.
    pub imports: Vec<CachedImport>,
    /// Re-export specifiers.
    pub re_exports: Vec<CachedReExport>,
    /// Dynamic import specifiers.
    pub dynamic_imports: Vec<String>,
    /// Require() specifiers.
    pub require_calls: Vec<String>,
    /// Static member accesses (e.g., `Status.Active`).
    pub member_accesses: Vec<MemberAccess>,
    /// Whether this module uses CJS exports.
    pub has_cjs_exports: bool,
}

#[derive(Debug, Clone)]
pub struct CachedExport {
    pub name: String,
    pub is_default: bool,
    pub is_type_only: bool,
    pub local_name: Option<String>,
    pub span_start: u32,
    pub span_end: u32,
    pub members: Vec<CachedMember>,
    pub super_class: Option<String>,
}

#[derive(Debug, Clone)]
pub struct CachedImport {
    pub source: String,
    pub imported_name: String,
    pub local_name: String,
    pub is_type_only: bool,
    pub is_namespace: bool,
    pub is_default: bool,
    pub is_side_effect: bool,
}

#[derive(Debug, Clone)]
pub struct CachedReExport {
    pub source: String,
    pub imported_name: String,
    pub exported_name: String,
    pub is_type_only: bool,
}

#[derive(Debug, Clone)]
pub struct CachedMember {
    pub name: String,
    pub kind: String,
    pub span_start: u32,
    pub span_end: u32,
    pub has_decorator: bool,
}

/// Cached module information, keyed by file path.
pub struct CacheStore {
    version: u32,
    /// Path and cached data of each file; no path occurs twice.
    entries: Vec<(String, CachedModule)>,
}

// ---- the store ---------------------------------------------------------

fn empty_cached_module() -> (r: CachedModule)
    ensures
        r.content_hash == 0,
        r.exports@.len() == 0,
        r.imports@.len() == 0,
        r.re_exports@.len() == 0,
        r.dynamic_imports@.len() == 0,
        r.require_calls@.len() == 0,
        r.member_accesses@.len() == 0,
        !r.has_cjs_exports,
{
    CachedModule {
        content_hash: 0,
        exports: Vec::new(),
        imports: Vec::new(),
        re_exports: Vec::new(),
        dynamic_imports: Vec::new(),
        require_calls: Vec::new(),
        member_accesses: Vec::new(),
        has_cjs_exports: false,
    }
}

/// The map that a list of entries denotes; a later entry for a path
/// replaces an earlier one.
pub open spec fn entries_map(s: Seq<(String, CachedModule)>) -> Map<Seq<char>, CachedModule>
    decreases s.len(),
{
    if s.len() == 0 {
        Map::empty()
    } else {
        entries_map(s.drop_last()).insert(s.last().0@, s.last().1)
    }
}

/// Whether no path occurs twice.
pub open spec fn distinct_keys(s: Seq<(String, CachedModule)>) -> bool {
    forall|i: int, j: int| 0 <= i < j < s.len() ==> s[i].0@ != s[j].0@
}

proof fn lemma_entries_map(s: Seq<(String, CachedModule)>)
    requires
        distinct_keys(s),
    ensures
        entries_map(s).dom().finite(),
        entries_map(s).len() == s.len(),
        forall|k: Seq<char>| entries_map(s).contains_key(k) <==> exists|i: int| 0 <= i < s.len() && #[trigger] s[i].0@ == k,
        forall|i: int| 0 <= i < s.len() ==> #[trigger] entries_map(s)[s[i].0@] == s[i].1,
    decreases s.len(),
{
    if s.len() > 0 {
        let d = s.drop_last();
        assert(distinct_keys(d)) by {
            assert forall|i: int, j: int| 0 <= i < j < d.len() implies d[i].0@ != d[j].0@ by {
                assert(d[i] == s[i] && d[j] == s[j]);
            }
        }
        lemma_entries_map(d);
        let k = s.last().0@;
        assert(!entries_map(d).contains_key(k)) by {
            if entries_map(d).contains_key(k) {
                let i = choose|i: int| 0 <= i < d.len() && #[trigger] d[i].0@ == k;
                assert(s[i].0@ == s[s.len() - 1].0@);
            }
        }
        assert forall|q: Seq<char>| entries_map(s).contains_key(q) <==> exists|i: int| 0 <= i < s.len() && #[trigger] s[i].0@ == q by {
            if entries_map(s).contains_key(q) && q != k {
                let i = choose|i: int| 0 <= i < d.len() && #[trigger] d[i].0@ == q;
                assert(s[i].0@ == q);
            }
            if q == k {
                assert(s[s.len() - 1].0@ == q);
            }
            if exists|i: int| 0 <= i < s.len() && #[trigger] s[i].0@ == q {
                let i = choose|i: int| 0 <= i < s.len() && #[trigger] s[i].0@ == q;
                if i < s.len() - 1 {
                    assert(d[i].0@ == q);
                }
            }
        }
        assert forall|i: int| 0 <= i < s.len() implies #[trigger] entries_map(s)[s[i].0@] == s[i].1 by {
            if i < s.len() - 1 {
                assert(d[i] == s[i]);
                assert(s[i].0@ != k);
            }
        }
    }
}

impl CacheStore {
    /// The cached modules by path.
    pub closed spec fn view(&self) -> Map<Seq<char>, CachedModule> {
        entries_map(self.entries@)
    }

    /// The format version of the store.
    pub closed spec fn version_spec(&self) -> u32 {
        self.version
    }

    /// No path occurs twice among the entries.
    pub closed spec fn well_formed(&self) -> bool {
        distinct_keys(self.entries@)
    }

    /// A well-formed store caches finitely many paths, and inserting a
    /// module adds one to their number exactly when its path was not cached.
    pub proof fn lemma_insert_len(&self, path: Seq<char>, module: CachedModule)
        requires
            self.well_formed(),
        ensures
            self@.dom().finite(),
            self@.insert(path, module).len() == self@.len() + (if self@.contains_key(path) { 0int } else { 1int }),
    {
        lemma_entries_map(self.entries@);
        assert(self@.insert(path, module).dom() =~= self@.dom().insert(path));
    }

    /// Create a new empty cache.
    pub fn new() -> (r: CacheStore)
        ensures
            r.well_formed(),
            r@ == Map::<Seq<char>, CachedModule>::empty(),
            r.version_spec() == CACHE_VERSION,
    {
        CacheStore { version: CACHE_VERSION, entries: Vec::new() }
    }

    /// The format version of the store.
    pub fn version(&self) -> (r: u32)
        ensures
            r == self.version_spec(),
    {
        self.version
    }

    fn position(&self, path: &str) -> (r: Option<usize>)
        requires
            self.well_formed(),
        ensures
            match r {
                Some(i) => i < self.entries@.len() && self.entries@[i as int].0@ == path@,
                None => forall|i: int| 0 <= i < self.entries@.len() ==> self.entries@[i].0@ != path@,
            },
    {
        let mut i: usize = 0;
        while i < self.entries.len()
            invariant
                i <= self.entries@.len(),
                forall|j: int| 0 <= j < i ==> self.entries@[j].0@ != path@,
            decreases self.entries.len() - i,
        {
            if str_eq(self.entries[i].0.as_str(), path) {
                return Some(i);
            }
            i = i + 1;
        }
        None
    }

    /// Look up a cached module by path and content hash: `None` when the
    /// path is not cached or was cached for other content.
    pub fn get(&self, path: &str, content_hash: u64) -> (r: Option<&CachedModule>)
        requires
            self.well_formed(),
        ensures
            match r {
                Some(m) => cache_lookup(self@, path@, content_hash) == Some(*m),
                None => cache_lookup(self@, path@, content_hash) is None,
            },
    {
        proof { lemma_entries_map(self.entries@); }
        match self.position(path) {
            Some(i) => {
                let entry = &self.entries[i].1;
                if entry.content_hash == content_hash {
                    Some(entry)
                } else {
                    None
                }
            },
            None => {
                assert(!self@.contains_key(path@));
                None
            },
        }
    }

    /// Insert or update a cached module.
    pub fn insert(&mut self, path: &str, module: CachedModule)
        requires
            old(self).well_formed(),
        ensures
            final(self).well_formed(),
            final(self)@ == old(self)@.insert(path@, module),
            final(self).version_spec() == old(self).version_spec(),
    {
        proof { lemma_entries_map(self.entries@); }
        let ghost before = self.entries@;
        match self.position(path) {
            Some(i) => {
                let key = copy_string(&self.entries[i].0);
                self.entries.set(i, (key, module));
                proof {
                    let after = self.entries@;
                    assert(distinct_keys(after)) by {
                        assert forall|a: int, b: int| 0 <= a < b < after.len() implies after[a].0@ != after[b].0@ by {
                            assert(after[a].0@ == before[a].0@);
                            assert(after[b].0@ == before[b].0@);
                        }
                    }
                    lemma_entries_map(after);
                    assert(entries_map(after) =~= entries_map(before).insert(path@, module)) by {
                        assert forall|k: Seq<char>| #[trigger] entries_map(after).contains_key(k) implies
                            entries_map(before).insert(path@, module).contains_key(k)
                            && entries_map(after)[k] == entries_map(before).insert(path@, module)[k] by {
                            let j = choose|j: int| 0 <= j < after.len() && #[trigger] after[j].0@ == k;
                            if j != i {
                                assert(after[j] == before[j]);
                            }
                        }
                        assert forall|k: Seq<char>| #[trigger] entries_map(before).insert(path@, module).contains_key(k)
                            implies entries_map(after).contains_key(k) by {
                            if k != path@ {
                                let j = choose|j: int| 0 <= j < before.len() && #[trigger] before[j].0@ == k;
                                assert(after[j].0@ == k);
                            } else {
                                assert(after[i as int].0@ == k);
                            }
                        }
                    }
                }
            },
            None => {
                let key = to_owned_string(path);
                self.entries.push((key, module));
                proof {
                    let after = self.entries@;
                    assert(after.drop_last() =~= before);
                    assert(distinct_keys(after)) by {
                        assert forall|a: int, b: int| 0 <= a < b < after.len() implies after[a].0@ != after[b].0@ by {
                            if b == after.len() - 1 {
                                assert(after[a] == before[a]);
                            } else {
                                assert(after[a] == before[a] && after[b] == before[b]);
                            }
                        }
                    }
                }
            },
        }
    }

    /// Number of cached entries.
    pub fn len(&self) -> (r: usize)
        requires
            self.well_formed(),
        ensures
            r == self@.len(),
    {
        proof { lemma_entries_map(self.entries@); }
        self.entries.len()
    }

    /// Whether cache is empty.
    pub fn is_empty(&self) -> (r: bool)
        requires
            self.well_formed(),
        ensures
            r == (self@.len() == 0),
    {
        proof { lemma_entries_map(self.entries@); }
        self.entries.len() == 0
    }

    /// The entries, for storing the cache.
    pub fn entries(&self) -> (r: &Vec<(String, CachedModule)>)
        ensures
            entries_map(r@) == self@,
            distinct_keys(r@) == self.well_formed(),
    {
        &self.entries
    }

    /// The cache read back from storage: `None` when it was written in
    /// another format version; a later entry for a path replaces an
    /// earlier one.
    pub fn from_stored(version: u32, entries: Vec<(String, CachedModule)>) -> (r: Option<CacheStore>)
        ensures
            version != CACHE_VERSION ==> r is None,
            version == CACHE_VERSION ==> (r matches Some(store) && store.well_formed()
                && store@ == entries_map(entries@) && store.version_spec() == CACHE_VERSION),
    {
        if version != CACHE_VERSION {
            return None;
        }
        let mut store = CacheStore::new();
        let mut entries = entries;
        let ghost initial = entries@;
        let mut i: usize = 0;
        while i < entries.len()
            invariant
                i <= entries@.len(),
                entries@.len() == initial.len(),
                forall|j: int| i <= j < initial.len() ==> entries@[j] == initial[j],
                store.well_formed(),
                store.version_spec() == CACHE_VERSION,
                store@ == entries_map(initial.take(i as int)),
            decreases entries.len() - i,
        {
            assert(initial.take(i + 1).drop_last() =~= initial.take(i as int));
            let mut taken = (String::new(), empty_cached_module());
            entries.set_and_swap(i, &mut taken);
            store.insert(taken.0.as_str(), taken.1);
            i = i + 1;
        }
        assert(initial.take(initial.len() as int) =~= initial);
        Some(store)
    }
}

/// The cached module for a path, when it was cached for this content.
pub open spec fn cache_lookup(m: Map<Seq<char>, CachedModule>, path: Seq<char>, content_hash: u64) -> Option<CachedModule> {
    if m.contains_key(path) && m[path].content_hash == content_hash {
        Some(m[path])
    } else {
        None
    }
}

/// A module just inserted is found again under its path and content hash,
/// and inserting leaves every other path as it was.
pub proof fn lemma_get_after_insert(
    m: Map<Seq<char>, CachedModule>,
    path: Seq<char>,
    module: CachedModule,
    other: Seq<char>,
    content_hash: u64,
)
    ensures
        cache_lookup(m.insert(path, module), path, module.content_hash) == Some(module),
        other != path ==> cache_lookup(m.insert(path, module), other, content_hash) == cache_lookup(m, other, content_hash),
{
}


// ---- conversion --------------------------------------------------------

pub open spec fn opt_str(o: Option<String>) -> Option<Seq<char>> {
    match o {
        Some(s) => Some(s@),
        None => None,
    }
}

/// The stored text of a member kind.
pub open spec fn member_kind_text(k: MemberKind) -> Seq<char> {
    match k {
        MemberKind::EnumMember => "enum"@,
        MemberKind::ClassMethod => "method"@,
        MemberKind::ClassProperty => "property"@,
    }
}

/// The member kind of a stored text; anything unknown is a property.
pub open spec fn member_kind_of(text: Seq<char>) -> MemberKind {
    if text == "enum"@ {
        MemberKind::EnumMember
    } else if text == "method"@ {
        MemberKind::ClassMethod
    } else {
        MemberKind::ClassProperty
    }
}

/// The stored text of what an import takes.
pub open spec fn imported_name_text(n: ImportedName) -> Seq<char> {
    match n {
        ImportedName::Named(s) => s@,
        ImportedName::Default => "default"@,
        ImportedName::Namespace => "*"@,
        ImportedName::SideEffect => ""@,
    }
}

/// `c` stores member `m`.
pub open spec fn member_stored(m: MemberInfo, c: CachedMember) -> bool {
    &&& c.name@ == m.name@
    &&& c.kind@ == member_kind_text(m.kind)
    &&& c.span_start == m.span.start
    &&& c.span_end == m.span.end
    &&& c.has_decorator == m.has_decorator
}

/// `m` is the member that `c` stores.
pub open spec fn member_restored(c: CachedMember, m: MemberInfo) -> bool {
    &&& m.name@ == c.name@
    &&& m.kind == member_kind_of(c.kind@)
    &&& m.span == (Span { start: c.span_start, end: c.span_end })
    &&& m.has_decorator == c.has_decorator
}

/// `c` stores export `e`.
pub open spec fn export_stored(e: ExportInfo, c: CachedExport) -> bool {
    &&& c.name@ == export_name_text(e.name)
    &&& c.is_default == (e.name is Default)
    &&& c.is_type_only == e.is_type_only
    &&& opt_str(c.local_name) == opt_str(e.local_name)
    &&& c.span_start == e.span.start
    &&& c.span_end == e.span.end
    &&& c.members@.len() == e.members@.len()
    &&& forall|j: int| 0 <= j < c.members@.len() ==> member_stored(e.members@[j], #[trigger] c.members@[j])
    &&& opt_str(c.super_class) == opt_str(e.super_class)
}

/// `e` is the export that `c` stores.
pub open spec fn export_restored(c: CachedExport, e: ExportInfo) -> bool {
    &&& (if c.is_default { e.name is Default } else { e.name matches ExportName::Named(n) && n@ == c.name@ })
    &&& e.is_type_only == c.is_type_only
    &&& opt_str(e.local_name) == opt_str(c.local_name)
    &&& e.span == (Span { start: c.span_start, end: c.span_end })
    &&& e.members@.len() == c.members@.len()
    &&& forall|j: int| 0 <= j < e.members@.len() ==> member_restored(c.members@[j], #[trigger] e.members@[j])
    &&& opt_str(e.super_class) == opt_str(c.super_class)
}

/// `c` stores import `i`.
pub open spec fn import_stored(i: ImportInfo, c: CachedImport) -> bool {
    &&& c.source@ == i.source@
    &&& c.imported_name@ == imported_name_text(i.imported_name)
    &&& c.local_name@ == i.local_name@
    &&& c.is_type_only == i.is_type_only
    &&& c.is_namespace == (i.imported_name is Namespace)
    &&& c.is_default == (i.imported_name is Default)
    &&& c.is_side_effect == (i.imported_name is SideEffect)
}

/// `i` is the import that `c` stores; its span is not stored.
pub open spec fn import_restored(c: CachedImport, i: ImportInfo) -> bool {
    &&& i.source@ == c.source@
    &&& (if c.is_side_effect {
        i.imported_name is SideEffect
    } else if c.is_namespace {
        i.imported_name is Namespace
    } else if c.is_default {
        i.imported_name is Default
    } else {
        i.imported_name matches ImportedName::Named(n) && n@ == c.imported_name@
    })
    &&& i.local_name@ == c.local_name@
    &&& i.is_type_only == c.is_type_only
    &&& i.span == (Span { start: 0, end: 0 })
}

/// `c` stores re-export `r` (and `r` is the re-export that `c` stores).
pub open spec fn re_export_same(r: ReExportInfo, c: CachedReExport) -> bool {
    &&& c.source@ == r.source@
    &&& c.imported_name@ == r.imported_name@
    &&& c.exported_name@ == r.exported_name@
    &&& c.is_type_only == r.is_type_only
}

/// `c` stores module `m`: every list item by item; the spans of imports,
/// dynamic imports and `require()` calls are not stored.
pub open spec fn module_stored(m: ModuleInfo, c: CachedModule) -> bool {
    &&& c.content_hash == m.content_hash
    &&& c.has_cjs_exports == m.has_cjs_exports
    &&& c.exports@.len() == m.exports@.len()
    &&& (forall|i: int| 0 <= i < c.exports@.len() ==> export_stored(m.exports@[i], #[trigger] c.exports@[i]))
    &&& c.imports@.len() == m.imports@.len()
    &&& (forall|i: int| 0 <= i < c.imports@.len() ==> import_stored(m.imports@[i], #[trigger] c.imports@[i]))
    &&& c.re_exports@.len() == m.re_exports@.len()
    &&& (forall|i: int| 0 <= i < c.re_exports@.len() ==> re_export_same(m.re_exports@[i], #[trigger] c.re_exports@[i]))
    &&& c.dynamic_imports@.len() == m.dynamic_imports@.len()
    &&& (forall|i: int| 0 <= i < c.dynamic_imports@.len() ==> (#[trigger] c.dynamic_imports@[i])@ == m.dynamic_imports@[i].source@)
    &&& c.require_calls@.len() == m.require_calls@.len()
    &&& (forall|i: int| 0 <= i < c.require_calls@.len() ==> (#[trigger] c.require_calls@[i])@ == m.require_calls@[i].source@)
    &&& accesses_view(c.member_accesses@) == accesses_view(m.member_accesses@)
}

/// `m` is the module with id `file_id` that `c` stores; the spans of its
/// imports, dynamic imports and `require()` calls are empty.
pub open spec fn module_restored(c: CachedModule, file_id: FileId, m: ModuleInfo) -> bool {
    &&& m.file_id == file_id
    &&& m.content_hash == c.content_hash
    &&& m.has_cjs_exports == c.has_cjs_exports
    &&& m.exports@.len() == c.exports@.len()
    &&& (forall|i: int| 0 <= i < m.exports@.len() ==> export_restored(c.exports@[i], #[trigger] m.exports@[i]))
    &&& m.imports@.len() == c.imports@.len()
    &&& (forall|i: int| 0 <= i < m.imports@.len() ==> import_restored(c.imports@[i], #[trigger] m.imports@[i]))
    &&& m.re_exports@.len() == c.re_exports@.len()
    &&& (forall|i: int| 0 <= i < m.re_exports@.len() ==> re_export_same(#[trigger] m.re_exports@[i], c.re_exports@[i]))
    &&& m.dynamic_imports@.len() == c.dynamic_imports@.len()
    &&& (forall|i: int| 0 <= i < m.dynamic_imports@.len() ==> (#[trigger] m.dynamic_imports@[i]).source@ == c.dynamic_imports@[i]@
        && m.dynamic_imports@[i].span == (Span { start: 0, end: 0 }))
    &&& m.require_calls@.len() == c.require_calls@.len()
    &&& (forall|i: int| 0 <= i < m.require_calls@.len() ==> (#[trigger] m.require_calls@[i]).source@ == c.require_calls@[i]@
        && m.require_calls@[i].span == (Span { start: 0, end: 0 }) && m.require_calls@[i].destructured_names@.len() == 0
        && m.require_calls@[i].local_name is None)
    &&& accesses_view(m.member_accesses@) == accesses_view(c.member_accesses@)
}

fn copy_opt_string(o: &Option<String>) -> (r: Option<String>)
    ensures
        opt_str(r) == opt_str(*o),
{
    match o {
        Some(s) => Some(copy_string(s)),
        None => None,
    }
}

fn copy_accesses(v: &Vec<MemberAccess>) -> (r: Vec<MemberAccess>)
    ensures
        accesses_view(r@) == accesses_view(v@),
{
    let mut r: Vec<MemberAccess> = Vec::new();
    let mut i: usize = 0;
    while i < v.len()
        invariant
            i <= v@.len(),
            accesses_view(r@) == accesses_view(v@.take(i as int)),
        decreases v.len() - i,
    {
        let a = MemberAccess { object: copy_string(&v[i].object), member: copy_string(&v[i].member) };
        let ghost before = accesses_view(r@);
        r.push(a);
        assert(accesses_view(r@) =~= before.push(access_view(a)));
        assert(accesses_view(v@.take(i + 1)) =~= accesses_view(v@.take(i as int)).push(access_view(v@[i as int])));
        i = i + 1;
    }
    assert(v@.take(v@.len() as int) =~= v@);
    r
}

fn member_to_cached(m: &MemberInfo) -> (c: CachedMember)
    ensures
        member_stored(*m, c),
{
    let kind = match m.kind {
        MemberKind::EnumMember => to_owned_string("enum"),
        MemberKind::ClassMethod => to_owned_string("method"),
        MemberKind::ClassProperty => to_owned_string("property"),
    };
    CachedMember {
        name: copy_string(&m.name),
        kind,
        span_start: m.span.start,
        span_end: m.span.end,
        has_decorator: m.has_decorator,
    }
}

fn export_to_cached(e: &ExportInfo) -> (c: CachedExport)
    ensures
        export_stored(*e, c),
{
    let mut members: Vec<CachedMember> = Vec::new();
    let mut j: usize = 0;
    while j < e.members.len()
        invariant
            j <= e.members@.len(),
            members@.len() == j,
            forall|k: int| 0 <= k < j ==> member_stored(e.members@[k], #[trigger] members@[k]),
        decreases e.members.len() - j,
    {
        members.push(member_to_cached(&e.members[j]));
        j = j + 1;
    }
    let (name, is_default) = match &e.name {
        ExportName::Named(n) => (copy_string(n), false),
        ExportName::Default => (to_owned_string("default"), true),
    };
    CachedExport {
        name,
        is_default,
        is_type_only: e.is_type_only,
        local_name: copy_opt_string(&e.local_name),
        span_start: e.span.start,
        span_end: e.span.end,
        members,
        super_class: copy_opt_string(&e.super_class),
    }
}

fn import_to_cached(i: &ImportInfo) -> (c: CachedImport)
    ensures
        import_stored(*i, c),
{
    let (imported_name, is_namespace, is_default, is_side_effect) = match &i.imported_name {
        ImportedName::Named(n) => (copy_string(n), false, false, false),
        ImportedName::Default => (to_owned_string("default"), false, true, false),
        ImportedName::Namespace => (to_owned_string("*"), true, false, false),
        ImportedName::SideEffect => (to_owned_string(""), false, false, true),
    };
    CachedImport {
        source: copy_string(&i.source),
        imported_name,
        local_name: copy_string(&i.local_name),
        is_type_only: i.is_type_only,
        is_namespace,
        is_default,
        is_side_effect,
    }
}

/// Convert a ModuleInfo to a CachedModule for storage.
pub fn module_to_cached(module: &ModuleInfo) -> (c: CachedModule)
    ensures
        module_stored(*module, c),
{
    let mut exports: Vec<CachedExport> = Vec::new();
    let mut i: usize = 0;
    while i < module.exports.len()
        invariant
            i <= module.exports@.len(),
            exports@.len() == i,
            forall|k: int| 0 <= k < i ==> export_stored(module.exports@[k], #[trigger] exports@[k]),
        decreases module.exports.len() - i,
    {
        exports.push(export_to_cached(&module.exports[i]));
        i = i + 1;
    }
    let mut imports: Vec<CachedImport> = Vec::new();
    let mut i: usize = 0;
    while i < module.imports.len()
        invariant
            i <= module.imports@.len(),
            imports@.len() == i,
            forall|k: int| 0 <= k < i ==> import_stored(module.imports@[k], #[trigger] imports@[k]),
        decreases module.imports.len() - i,
    {
        imports.push(import_to_cached(&module.imports[i]));
        i = i + 1;
    }
    let mut re_exports: Vec<CachedReExport> = Vec::new();
    let mut i: usize = 0;
    while i < module.re_exports.len()
        invariant
            i <= module.re_exports@.len(),
            re_exports@.len() == i,
            forall|k: int| 0 <= k < i ==> re_export_same(module.re_exports@[k], #[trigger] re_exports@[k]),
        decreases module.re_exports.len() - i,
    {
        let r = &module.re_exports[i];
        re_exports.push(CachedReExport {
            source: copy_string(&r.source),
            imported_name: copy_string(&r.imported_name),
            exported_name: copy_string(&r.exported_name),
            is_type_only: r.is_type_only,
        });
        i = i + 1;
    }
    let mut dynamic_imports: Vec<String> = Vec::new();
    let mut i: usize = 0;
    while i < module.dynamic_imports.len()
        invariant
            i <= module.dynamic_imports@.len(),
            dynamic_imports@.len() == i,
            forall|k: int| 0 <= k < i ==> (#[trigger] dynamic_imports@[k])@ == module.dynamic_imports@[k].source@,
        decreases module.dynamic_imports.len() - i,
    {
        dynamic_imports.push(copy_string(&module.dynamic_imports[i].source));
        i = i + 1;
    }
    let mut require_calls: Vec<String> = Vec::new();
    let mut i: usize = 0;
    while i < module.require_calls.len()
        invariant
            i <= module.require_calls@.len(),
            require_calls@.len() == i,
            forall|k: int| 0 <= k < i ==> (#[trigger] require_calls@[k])@ == module.require_calls@[k].source@,
        decreases module.require_calls.len() - i,
    {
        require_calls.push(copy_string(&module.require_calls[i].source));
        i = i + 1;
    }
    CachedModule {
        content_hash: module.content_hash,
        exports,
        imports,
        re_exports,
        dynamic_imports,
        require_calls,
        member_accesses: copy_accesses(&module.member_accesses),
        has_cjs_exports: module.has_cjs_exports,
    }
}

fn member_from_cached(c: &CachedMember) -> (m: MemberInfo)
    ensures
        member_restored(*c, m),
{
    let kind = if str_eq(c.kind.as_str(), "enum") {
        MemberKind::EnumMember
    } else if str_eq(c.kind.as_str(), "method") {
        MemberKind::ClassMethod
    } else {
        MemberKind::ClassProperty
    };
    MemberInfo {
        name: copy_string(&c.name),
        kind,
        span: Span::new(c.span_start, c.span_end),
        has_decorator: c.has_decorator,
    }
}

fn export_from_cached(c: &CachedExport) -> (e: ExportInfo)
    ensures
        export_restored(*c, e),
{
    let mut members: Vec<MemberInfo> = Vec::new();
    let mut j: usize = 0;
    while j < c.members.len()
        invariant
            j <= c.members@.len(),
            members@.len() == j,
            forall|k: int| 0 <= k < j ==> member_restored(c.members@[k], #[trigger] members@[k]),
        decreases c.members.len() - j,
    {
        members.push(member_from_cached(&c.members[j]));
        j = j + 1;
    }
    let name = if c.is_default { ExportName::Default } else { ExportName::Named(copy_string(&c.name)) };
    ExportInfo {
        name,
        local_name: copy_opt_string(&c.local_name),
        is_type_only: c.is_type_only,
        span: Span::new(c.span_start, c.span_end),
        members,
        super_class: copy_opt_string(&c.super_class),
    }
}

fn import_from_cached(c: &CachedImport) -> (i: ImportInfo)
    ensures
        import_restored(*c, i),
{
    let imported_name = if c.is_side_effect {
        ImportedName::SideEffect
    } else if c.is_namespace {
        ImportedName::Namespace
    } else if c.is_default {
        ImportedName::Default
    } else {
        ImportedName::Named(copy_string(&c.imported_name))
    };
    ImportInfo {
        source: copy_string(&c.source),
        imported_name,
        local_name: copy_string(&c.local_name),
        is_type_only: c.is_type_only,
        span: Span::new(0, 0),
    }
}

/// Reconstruct a ModuleInfo from a CachedModule.
pub fn cached_to_module(cached: &CachedModule, file_id: FileId) -> (m: ModuleInfo)
    ensures
        module_restored(*cached, file_id, m),
{
    let mut exports: Vec<ExportInfo> = Vec::new();
    let mut i: usize = 0;
    while i < cached.exports.len()
        invariant
            i <= cached.exports@.len(),
            exports@.len() == i,
            forall|k: int| 0 <= k < i ==> export_restored(cached.exports@[k], #[trigger] exports@[k]),
        decreases cached.exports.len() - i,
    {
        exports.push(export_from_cached(&cached.exports[i]));
        i = i + 1;
    }
    let mut imports: Vec<ImportInfo> = Vec::new();
    let mut i: usize = 0;
    while i < cached.imports.len()
        invariant
            i <= cached.imports@.len(),
            imports@.len() == i,
            forall|k: int| 0 <= k < i ==> import_restored(cached.imports@[k], #[trigger] imports@[k]),
        decreases cached.imports.len() - i,
    {
        imports.push(import_from_cached(&cached.imports[i]));
        i = i + 1;
    }
    let mut re_exports: Vec<ReExportInfo> = Vec::new();
    let mut i: usize = 0;
    while i < cached.re_exports.len()
        invariant
            i <= cached.re_exports@.len(),
            re_exports@.len() == i,
            forall|k: int| 0 <= k < i ==> re_export_same(#[trigger] re_exports@[k], cached.re_exports@[k]),
        decreases cached.re_exports.len() - i,
    {
        let r = &cached.re_exports[i];
        re_exports.push(ReExportInfo {
            source: copy_string(&r.source),
            imported_name: copy_string(&r.imported_name),
            exported_name: copy_string(&r.exported_name),
            is_type_only: r.is_type_only,
        });
        i = i + 1;
    }
    let mut dynamic_imports: Vec<DynamicImportInfo> = Vec::new();
    let mut i: usize = 0;
    while i < cached.dynamic_imports.len()
        invariant
            i <= cached.dynamic_imports@.len(),
            dynamic_imports@.len() == i,
            forall|k: int| 0 <= k < i ==> (#[trigger] dynamic_imports@[k]).source@ == cached.dynamic_imports@[k]@
                && dynamic_imports@[k].span == (Span { start: 0, end: 0 }),
        decreases cached.dynamic_imports.len() - i,
    {
        dynamic_imports.push(DynamicImportInfo { source: copy_string(&cached.dynamic_imports[i]), span: Span::new(0, 0) });
        i = i + 1;
    }
    let mut require_calls: Vec<RequireCallInfo> = Vec::new();
    let mut i: usize = 0;
    while i < cached.require_calls.len()
        invariant
            i <= cached.require_calls@.len(),
            require_calls@.len() == i,
            forall|k: int| 0 <= k < i ==> (#[trigger] require_calls@[k]).source@ == cached.require_calls@[k]@
                && require_calls@[k].span == (Span { start: 0, end: 0 }) && require_calls@[k].destructured_names@.len() == 0
                && require_calls@[k].local_name is None,
        decreases cached.require_calls.len() - i,
    {
        require_calls.push(RequireCallInfo {
            source: copy_string(&cached.require_calls[i]),
            span: Span::new(0, 0),
            destructured_names: Vec::new(),
            local_name: None,
        });
        i = i + 1;
    }
    ModuleInfo {
        file_id,
        exports,
        imports,
        re_exports,
        dynamic_imports,
        require_calls,
        member_accesses: copy_accesses(&cached.member_accesses),
        has_cjs_exports: cached.has_cjs_exports,
        content_hash: cached.content_hash,
    }
}

/// Restoring a stored module and storing it again gives the same stored
/// form: storage loses nothing but the spans of imports, dynamic imports and
/// `require()` calls and the names that `require()` calls bind. The restored
/// module keeps the id, hash and export spans of the module that was stored.
pub proof fn lemma_cache_round_trip(m: ModuleInfo, c: CachedModule, back: ModuleInfo)
    requires
        module_stored(m, c),
        module_restored(c, m.file_id, back),
    ensures
        module_stored(back, c),
        back.file_id == m.file_id,
        back.content_hash == m.content_hash,
        forall|i: int| 0 <= i < m.exports@.len() ==> (#[trigger] back.exports@[i]).span == m.exports@[i].span,
{
    assert forall|i: int| 0 <= i < c.exports@.len() implies export_stored(back.exports@[i], #[trigger] c.exports@[i]) by {
        let e = m.exports@[i];
        let b = back.exports@[i];
        let ce = c.exports@[i];
        assert(export_stored(e, ce));
        assert(export_restored(ce, b));
        assert forall|j: int| 0 <= j < ce.members@.len() implies member_stored(b.members@[j], #[trigger] ce.members@[j]) by {
            assert(member_stored(e.members@[j], ce.members@[j]));
            assert(member_restored(ce.members@[j], b.members@[j]));
        }
        match e.name {
            ExportName::Named(n) => {},
            ExportName::Default => {},
        }
    }
    assert forall|i: int| 0 <= i < c.imports@.len() implies import_stored(back.imports@[i], #[trigger] c.imports@[i]) by {
        assert(import_stored(m.imports@[i], c.imports@[i]));
        assert(import_restored(c.imports@[i], back.imports@[i]));
    }
    assert forall|i: int| 0 <= i < c.re_exports@.len() implies re_export_same(back.re_exports@[i], #[trigger] c.re_exports@[i]) by {
        assert(re_export_same(back.re_exports@[i], c.re_exports@[i]));
    }
    assert forall|i: int| 0 <= i < c.dynamic_imports@.len() implies (#[trigger] c.dynamic_imports@[i])@ == back.dynamic_imports@[i].source@ by {
        assert(back.dynamic_imports@[i].source@ == c.dynamic_imports@[i]@);
    }
    assert forall|i: int| 0 <= i < c.require_calls@.len() implies (#[trigger] c.require_calls@[i])@ == back.require_calls@[i].source@ by {
        assert(back.require_calls@[i].source@ == c.require_calls@[i]@);
    }
    assert forall|i: int| 0 <= i < m.exports@.len() implies (#[trigger] back.exports@[i]).span == m.exports@[i].span by {
        assert(export_stored(m.exports@[i], c.exports@[i]));
        assert(export_restored(c.exports@[i], back.exports@[i]));
    }
}

} // verus!
