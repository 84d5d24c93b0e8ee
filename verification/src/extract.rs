//! Per-module facts extracted from a source file: exports, imports,
//! re-exports and member accesses.
use vstd::prelude::*;

pub use crate::discover::FileId;

verus! {

/// A byte range in a source file.
#[derive(Debug, Clone, Copy, PartialEq, Eq, Structural)]
pub struct Span {
    pub start: u32,
    pub end: u32,
}

impl Span {
    /// A span from `start` to `end`.
    pub fn new(start: u32, end: u32) -> (r: Span)
        ensures
            r == (Span { start, end }),
    {
        Span { start, end }
    }
}

/// The name under which a module exports a symbol.
#[derive(Debug, Clone)]
pub enum ExportName {
    Named(String),
    Default,
}

/// The text of an export name: its own text, or `default`.
pub open spec fn export_name_text(n: ExportName) -> Seq<char> {
    match n {
        ExportName::Named(s) => s@,
        ExportName::Default => "default"@,
    }
}

impl ExportName {
    /// The text of the name (`default` for the default export).
    pub fn to_text(&self) -> (r: String)
        ensures
            r@ == export_name_text(*self),
    {
        match self {
            ExportName::Named(s) => s.clone(),
            ExportName::Default => crate::text::to_owned_string("default"),
        }
    }
}

/// What an import statement takes from the imported module.
#[derive(Debug, Clone)]
pub enum ImportedName {
    Named(String),
    Default,
    Namespace,
    SideEffect,
}

/// Kind of a member of an exported enum or class.
#[derive(Debug, Clone, Copy, PartialEq, Eq, Structural)]
pub enum MemberKind {
    EnumMember,
    ClassMethod,
    ClassProperty,
}

/// A member of an exported enum or class.
#[derive(Debug, Clone)]
pub struct MemberInfo {
    pub name: String,
    pub kind: MemberKind,
    pub span: Span,
    /// Whether a decorator (`@Column()`, `@Input()`) stands on the member.
    pub has_decorator: bool,
}

/// A static member access such as `Status.Active`.
#[derive(Debug, Clone)]
pub struct MemberAccess {
    pub object: String,
    pub member: String,
}

/// An export declared by a module.
#[derive(Debug, Clone)]
pub struct ExportInfo {
    pub name: ExportName,
    pub local_name: Option<String>,
    pub is_type_only: bool,
    pub span: Span,
    pub members: Vec<MemberInfo>,
    /// The local name of the class an exported class extends.
    pub super_class: Option<String>,
}

/// An import declared by a module.
#[derive(Debug, Clone)]
pub struct ImportInfo {
    pub source: String,
    pub imported_name: ImportedName,
    pub local_name: String,
    pub is_type_only: bool,
    pub span: Span,
}

/// A re-export (`export { x } from './y'`, `export * from './z'`).
#[derive(Debug, Clone)]
pub struct ReExportInfo {
    pub source: String,
    pub imported_name: String,
    pub exported_name: String,
    pub is_type_only: bool,
}

/// A dynamic `import()` with a static specifier.
#[derive(Debug, Clone)]
pub struct DynamicImportInfo {
    pub source: String,
    pub span: Span,
}

/// A `require()` call with a static specifier.
#[derive(Debug, Clone)]
pub struct RequireCallInfo {
    pub source: String,
    pub span: Span,
    /// The names bound by a destructuring `const { a, b } = require(..)`.
    pub destructured_names: Vec<String>,
    /// The name bound by `const x = require(..)`.
    pub local_name: Option<String>,
}

/// Everything extracted from one module.
#[derive(Debug, Clone)]
pub struct ModuleInfo {
    pub file_id: FileId,
    pub exports: Vec<ExportInfo>,
    pub imports: Vec<ImportInfo>,
    pub re_exports: Vec<ReExportInfo>,
    pub dynamic_imports: Vec<DynamicImportInfo>,
    pub require_calls: Vec<RequireCallInfo>,
    pub member_accesses: Vec<MemberAccess>,
    pub has_cjs_exports: bool,
    pub content_hash: u64,
}

/// Whether an export name matches an imported name: equal named names, or
/// default against default.
pub open spec fn export_matches_spec(export: ExportName, import: ImportedName) -> bool {
    match (export, import) {
        (ExportName::Named(e), ImportedName::Named(i)) => e@ == i@,
        (ExportName::Default, ImportedName::Default) => true,
        _ => false,
    }
}

/// Check if an export name matches an imported name.
pub fn export_matches(export: &ExportName, import: &ImportedName) -> (r: bool)
    ensures
        r == export_matches_spec(*export, *import),
{
    match (export, import) {
        (ExportName::Named(e), ImportedName::Named(i)) => crate::text::str_eq(e.as_str(), i.as_str()),
        (ExportName::Default, ImportedName::Default) => true,
        _ => false,
    }
}

/// A member access as a pair of texts.
pub open spec fn access_view(a: MemberAccess) -> (Seq<char>, Seq<char>) {
    (a.object@, a.member@)
}

pub open spec fn accesses_view(v: Seq<MemberAccess>) -> Seq<(Seq<char>, Seq<char>)> {
    v.map_values(|a: MemberAccess| access_view(a))
}

} // verus!
