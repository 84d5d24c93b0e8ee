//! Dependency predicates and package.json line lookup used when reporting
//! unused, unlisted and tooling dependencies.
use vstd::prelude::*;

use crate::text::{
    sub_vec, chars_eq, chars_find, chars_start_with, find_first, skip_ws, starts_with, str_chars, trim_start,
    lemma_leading_ws_bound,
};

verus! {

/// Node.js core module names (without the `node:` scheme).
pub const NODE_BUILTINS: [&'static str; 38] = [
    "assert", "buffer", "child_process", "cluster", "console", "constants", "crypto", "dgram",
    "dns", "domain", "events", "fs", "http", "http2", "https", "module", "net", "os", "path",
    "perf_hooks", "process", "punycode", "querystring", "readline", "repl", "stream",
    "string_decoder", "sys", "timers", "tls", "tty", "url", "util", "v8", "vm", "wasi",
    "worker_threads", "zlib",
];

/// Name prefixes of development tools that are run from the command line.
pub const TOOLING_PREFIXES: [&'static str; 14] = [
    "@types/", "eslint", "prettier", "typescript", "@typescript-eslint", "husky", "lint-staged",
    "commitlint", "@commitlint", "stylelint", "postcss", "autoprefixer", "tailwindcss",
    "@tailwindcss",
];

/// Exact names of development tools that are run from the command line.
pub const TOOLING_EXACT: [&'static str; 10] = [
    "typescript", "prettier", "turbo", "concurrently", "cross-env", "rimraf", "npm-run-all",
    "nodemon", "ts-node", "tsx",
];

// ---- specification ---------------------------------------------------------

/// The part of `s` before its first `/` (all of `s` when it has none).
pub open spec fn first_segment(s: Seq<char>) -> Seq<char> {
    match find_first(s, seq!['/']) {
        Some(p) => s.take(p),
        None => s,
    }
}

/// The part of `s` before the first occurrence of `c` (all of `s` when absent).
pub open spec fn segment_before(s: Seq<char>, c: char) -> Seq<char> {
    match find_first(s, seq![c]) {
        Some(p) => s.take(p),
        None => s,
    }
}

/// The characters of `s` before the first occurrence of `c`.
pub fn before_char(s: &Vec<char>, c: char) -> (r: Vec<char>)
    ensures
        r@ == segment_before(s@, c),
{
    let pat: Vec<char> = vec![c];
    assert(pat@ =~= seq![c]);
    match chars_find(s, &pat) {
        Some(p) => sub_vec(s, 0, p),
        None => {
            let r = sub_vec(s, 0, s.len());
            assert(r@ =~= s@);
            r
        },
    }
}

/// `s` without a leading `node:` scheme.
pub open spec fn strip_node_scheme(s: Seq<char>) -> Seq<char> {
    if starts_with(s, "node:"@) { s.skip(5) } else { s }
}

/// Whether `n` is listed in [`NODE_BUILTINS`].
pub open spec fn is_node_builtin_name(n: Seq<char>) -> bool {
    exists|i: int| 0 <= i < 38 && NODE_BUILTINS[i]@ == n
}

/// A module specifier that the runtime provides: a Node.js core module or one
/// of its subpaths (with or without `node:`), a `cloudflare:` module, or the
/// Deno standard library `std` and its subpaths.
pub open spec fn is_builtin_module_spec(name: Seq<char>) -> bool {
    let s = strip_node_scheme(name);
    starts_with(s, "cloudflare:"@) || is_node_builtin_name(first_segment(s))
        || first_segment(s) == "std"@
}

/// A dependency that is used without being imported: type packages, the
/// React DOM renderer, Next.js add-on packages and the optional native
/// add-ons of WebSocket libraries.
pub open spec fn is_implicit_dependency_spec(name: Seq<char>) -> bool {
    starts_with(name, "@types/"@) || name == "react-dom"@ || starts_with(name, "react-dom/"@)
        || starts_with(name, "@next/"@) || name == "utf-8-validate"@ || name == "bufferutil"@
}

/// An import specifier that names a path alias rather than a package:
/// `@/…`, `~/…`, `#…`, or `@` followed by an upper-case letter.
pub open spec fn is_path_alias_spec(name: Seq<char>) -> bool {
    starts_with(name, "@/"@) || starts_with(name, "~/"@) || starts_with(name, "#"@)
        || (name.len() >= 2 && name[0] == '@' && 'A' <= name[1] && name[1] <= 'Z')
}

/// An import of a module that a build tool generates, by the `virtual:`
/// convention.
pub open spec fn is_virtual_module_spec(name: Seq<char>) -> bool {
    starts_with(name, "virtual:"@)
}

/// A development dependency used by command-line tooling.
pub open spec fn is_tooling_dependency_spec(name: Seq<char>) -> bool {
    (exists|i: int| 0 <= i < 14 && starts_with(name, TOOLING_PREFIXES[i]@))
        || (exists|i: int| 0 <= i < 10 && TOOLING_EXACT[i]@ == name)
}

// ---- predicates -------------------------------------------------------------

fn vec_starts_with_str(v: &Vec<char>, p: &str) -> (r: bool)
    ensures
        r == starts_with(v@, p@),
{
    let pv = str_chars(p);
    chars_start_with(v, &pv)
}

fn vec_eq_str(v: &Vec<char>, p: &str) -> (r: bool)
    ensures
        r == (v@ == p@),
{
    let pv = str_chars(p);
    chars_eq(v, &pv)
}


fn first_segment_of(s: &Vec<char>) -> (r: Vec<char>)
    ensures
        r@ == first_segment(s@),
{
    let slash: Vec<char> = vec!['/'];
    assert(slash@ =~= seq!['/']);
    match chars_find(s, &slash) {
        Some(p) => {
            sub_vec(s, 0, p)
        },
        None => {
            let r = sub_vec(s, 0, s.len());
            assert(r@ =~= s@);
            r
        },
    }
}

/// Whether a module specifier is provided by the runtime (Node.js core modules
/// and subpaths, `cloudflare:` modules, Deno `std`).
pub fn is_builtin_module(name: &str) -> (r: bool)
    ensures
        r == is_builtin_module_spec(name@),
{
    let full = str_chars(name);
    proof { reveal_strlit("node:"); }
    let s = if vec_starts_with_str(&full, "node:") {
        sub_vec(&full, 5, full.len())
    } else {
        sub_vec(&full, 0, full.len())
    };
    assert(s@ =~= strip_node_scheme(name@));
    if vec_starts_with_str(&s, "cloudflare:") {
        return true;
    }
    let head = first_segment_of(&s);
    if vec_eq_str(&head, "std") {
        return true;
    }
    let mut i: usize = 0;
    while i < 38
        invariant
            i <= 38,
            head@ == first_segment(strip_node_scheme(name@)),
            forall|j: int| 0 <= j < i ==> NODE_BUILTINS[j]@ != head@,
        decreases 38 - i,
    {
        if vec_eq_str(&head, NODE_BUILTINS[i]) {
            return true;
        }
        i = i + 1;
    }
    false
}

/// Whether a dependency is used implicitly rather than through imports.
pub fn is_implicit_dependency(name: &str) -> (r: bool)
    ensures
        r == is_implicit_dependency_spec(name@),
{
    let v = str_chars(name);
    vec_starts_with_str(&v, "@types/") || vec_eq_str(&v, "react-dom")
        || vec_starts_with_str(&v, "react-dom/") || vec_starts_with_str(&v, "@next/")
        || vec_eq_str(&v, "utf-8-validate") || vec_eq_str(&v, "bufferutil")
}

/// Whether an import specifier is a path alias (`@/`, `~/`, `#`, `@Upper…`).
pub fn is_path_alias(name: &str) -> (r: bool)
    ensures
        r == is_path_alias_spec(name@),
{
    let v = str_chars(name);
    vec_starts_with_str(&v, "@/") || vec_starts_with_str(&v, "~/") || vec_starts_with_str(&v, "#")
        || (v.len() >= 2 && v[0] == '@' && 'A' <= v[1] && v[1] <= 'Z')
}

/// Whether an import names a generated `virtual:` module.
pub fn is_virtual_module(name: &str) -> (r: bool)
    ensures
        r == is_virtual_module_spec(name@),
{
    let v = str_chars(name);
    vec_starts_with_str(&v, "virtual:")
}

/// Whether a development dependency is command-line tooling.
pub fn is_tooling_dependency(name: &str) -> (r: bool)
    ensures
        r == is_tooling_dependency_spec(name@),
{
    let v = str_chars(name);
    let mut i: usize = 0;
    while i < 14
        invariant
            i <= 14,
            v@ == name@,
            forall|j: int| 0 <= j < i ==> !starts_with(name@, #[trigger] TOOLING_PREFIXES[j]@),
        decreases 14 - i,
    {
        if vec_starts_with_str(&v, TOOLING_PREFIXES[i]) {
            return true;
        }
        i = i + 1;
    }
    let mut k: usize = 0;
    while k < 10
        invariant
            k <= 10,
            v@ == name@,
            forall|j: int| 0 <= j < 14 ==> !starts_with(name@, #[trigger] TOOLING_PREFIXES[j]@),
            forall|j: int| 0 <= j < k ==> TOOLING_EXACT[j]@ != name@,
        decreases 10 - k,
    {
        if vec_eq_str(&v, TOOLING_EXACT[k]) {
            return true;
        }
        k = k + 1;
    }
    false
}

// ---- package.json line lookup ----------------------------------------------

/// Outcome of scanning one line for a dependency key.
pub enum LineStep {
    /// The key was found on this line.
    Found,
    /// Not found; the flag tells whether a block comment is still open.
    Next(bool),
}

/// Whether the first occurrence of `needle` in `seg` is followed, after
/// optional whitespace, by `:`.
pub open spec fn key_after(seg: Seq<char>, needle: Seq<char>) -> bool {
    match find_first(seg, needle) {
        Some(p) => starts_with(trim_start(seg.skip(p + needle.len())), seq![':']),
        None => false,
    }
}

/// Scan of one line given whether a block comment is open before it.
pub open spec fn line_step(line: Seq<char>, in_block: bool, needle: Seq<char>) -> LineStep {
    let t = trim_start(line);
    if in_block {
        match find_first(t, "*/"@) {
            Some(e) => if key_after(t.skip(e + 2), needle) { LineStep::Found } else { LineStep::Next(false) },
            None => LineStep::Next(true),
        }
    } else if starts_with(t, "//"@) {
        LineStep::Next(false)
    } else if starts_with(t, "/*"@) {
        let a = t.skip(2);
        match find_first(a, "*/"@) {
            Some(e) => if key_after(a.skip(e + 2), needle) { LineStep::Found } else { LineStep::Next(false) },
            None => LineStep::Next(true),
        }
    } else if key_after(line, needle) {
        LineStep::Found
    } else {
        LineStep::Next(false)
    }
}

/// Position of the first `\n` at or after `i` (the length when there is none).
pub open spec fn next_newline(s: Seq<char>, i: int) -> int
    decreases s.len() - i,
{
    if i >= s.len() { s.len() as int }
    else if i < 0 { next_newline(s, 0) }
    else if s[i] == '\n' { i }
    else { next_newline(s, i + 1) }
}

pub proof fn lemma_next_newline(s: Seq<char>, i: int)
    requires
        0 <= i <= s.len(),
    ensures
        i <= next_newline(s, i) <= s.len(),
        next_newline(s, i) < s.len() ==> s[next_newline(s, i)] == '\n',
        forall|k: int| i <= k < next_newline(s, i) ==> s[k] != '\n',
    decreases s.len() - i,
{
    if i < s.len() && s[i] != '\n' {
        lemma_next_newline(s, i + 1);
    }
}

/// The text of the line spanning `s[i..j]` as `str::lines` yields it: a
/// `\r` right before the line feed is dropped.
pub open spec fn line_text(s: Seq<char>, i: int, j: int) -> Seq<char> {
    if j < s.len() && j > i && s[j - 1] == '\r' { s.subrange(i, j - 1) } else { s.subrange(i, j) }
}

/// The 1-based number of the first line, from the line that starts at `start`
/// (numbered `line_no`) on, that holds the dependency key outside comments;
/// 1 when there is none.
pub open spec fn dep_line_scan(s: Seq<char>, start: int, line_no: int, in_block: bool, needle: Seq<char>) -> u32
    decreases s.len() - start,
{
    if start >= s.len() || start < 0 {
        1
    } else {
        let j = next_newline(s, start);
        match line_step(line_text(s, start, j), in_block, needle) {
            LineStep::Found => line_no as u32,
            LineStep::Next(b) => dep_line_scan(
                s,
                if j < start || j >= s.len() { s.len() as int } else { j + 1 },
                line_no + 1,
                b,
                needle,
            ),
        }
    }
}

/// The needle searched for a package name: the name in double quotes.
pub open spec fn quoted(name: Seq<char>) -> Seq<char> {
    seq!['"'] + name + seq!['"']
}

fn key_after_exec(seg: &Vec<char>, needle: &Vec<char>) -> (r: bool)
    ensures
        r == key_after(seg@, needle@),
{
    match chars_find(seg, needle) {
        Some(p) => {
            let n = needle.len();
            let l = seg.len();
            assert(p + n <= l);
            let after = p + n;
            let k = skip_ws(seg, after);
            proof {
                let rest = seg@.skip(after as int);
                lemma_leading_ws_bound(rest);
                assert(trim_start(rest) =~= seg@.skip(k as int));
                if k < seg@.len() {
                    assert(seg@.skip(k as int).subrange(0, 1) =~= seq![seg@[k as int]]);
                }
            }
            let r = k < seg.len() && seg[k] == ':';
            proof {
                let t = trim_start(seg@.skip(after as int));
                assert(t == seg@.skip(k as int));
                assert(find_first(seg@, needle@) == Some(p as int));
                assert(key_after(seg@, needle@) == starts_with(t, seq![':']));
                if r {
                    assert(t.subrange(0, 1) =~= seq![':']);
                } else if k < seg@.len() {
                    assert(t.subrange(0, 1) != seq![':']) by {
                        assert(t.subrange(0, 1)[0] == seg@[k as int]);
                    }
                }
            }
            r
        },
        None => false,
    }
}

fn trim_start_vec(v: &Vec<char>) -> (r: Vec<char>)
    ensures
        r@ == trim_start(v@),
{
    let k = skip_ws(v, 0);
    proof {
        lemma_leading_ws_bound(v@);
        assert(v@.skip(0) =~= v@);
    }
    sub_vec(v, k, v.len())
}

fn line_step_exec(line: &Vec<char>, in_block: bool, needle: &Vec<char>) -> (r: LineStep)
    ensures
        r == line_step(line@, in_block, needle@),
{
    let t = trim_start_vec(line);
    let close: Vec<char> = vec!['*', '/'];
    assert(close@ =~= "*/"@) by { reveal_strlit("*/"); }
    if in_block {
        match chars_find(&t, &close) {
            Some(e) => {
                let tl = t.len();
                assert(e + 2 <= tl);
                let rest = sub_vec(&t, e + 2, tl);
                assert(rest@ =~= t@.skip(e + 2));
                if key_after_exec(&rest, needle) { LineStep::Found } else { LineStep::Next(false) }
            },
            None => LineStep::Next(true),
        }
    } else if vec_starts_with_str(&t, "//") {
        LineStep::Next(false)
    } else if vec_starts_with_str(&t, "/*") {
        proof { reveal_strlit("/*"); }
        let a = sub_vec(&t, 2, t.len());
        assert(a@ =~= t@.skip(2));
        match chars_find(&a, &close) {
            Some(e) => {
                let rest = sub_vec(&a, e + 2, a.len());
                assert(rest@ =~= a@.skip(e + 2));
                if key_after_exec(&rest, needle) { LineStep::Found } else { LineStep::Next(false) }
            },
            None => LineStep::Next(true),
        }
    } else if key_after_exec(line, needle) {
        LineStep::Found
    } else {
        LineStep::Next(false)
    }
}

/// Find the 1-based line number of a dependency key in a package.json file.
///
/// Searches the raw file content for `"<package_name>"` followed by `:` on the
/// same line. Skips JSONC comment lines. Returns 1 if not found (safe fallback).
pub fn find_dep_line_in_json(content: &str, package_name: &str) -> (r: u32)
    ensures
        r == dep_line_scan(content@, 0, 1, false, quoted(package_name@)),
{
    let s = str_chars(content);
    let mut needle: Vec<char> = vec!['"'];
    let name = str_chars(package_name);
    let mut q: usize = 0;
    while q < name.len()
        invariant
            q <= name@.len(),
            needle@ == seq!['"'] + name@.take(q as int),
        decreases name.len() - q,
    {
        needle.push(name[q]);
        q = q + 1;
        assert(needle@ =~= seq!['"'] + name@.take(q as int));
    }
    needle.push('"');
    assert(needle@ =~= quoted(package_name@));
    let mut start: usize = 0;
    let mut line_no: usize = 1;
    let mut in_block = false;
    while start < s.len()
        invariant
            start <= s@.len(),
            line_no <= start + 1,
            s@ == content@,
            needle@ == quoted(package_name@),
            dep_line_scan(s@, 0, 1, false, needle@) == dep_line_scan(s@, start as int, line_no as int, in_block, needle@),
        decreases s.len() - start,
    {
        let mut j = start;
        while j < s.len() && s[j] != '\n'
            invariant
                start <= j <= s@.len(),
                next_newline(s@, start as int) == next_newline(s@, j as int),
            decreases s.len() - j,
        {
            j = j + 1;
        }
        proof { lemma_next_newline(s@, start as int); }
        let end = if j < s.len() && j > start && s[j - 1] == '\r' { j - 1 } else { j };
        let line = sub_vec(&s, start, end);
        assert(line@ == line_text(s@, start as int, j as int));
        match line_step_exec(&line, in_block, &needle) {
            LineStep::Found => {
                return line_no as u32;
            },
            LineStep::Next(b) => {
                in_block = b;
            },
        }
        if j == s.len() {
            assert(dep_line_scan(s@, s@.len() as int, line_no + 1, in_block, needle@) == 1);
            return 1;
        }
        start = j + 1;
        if start == s.len() {
            assert(dep_line_scan(s@, s@.len() as int, line_no + 1, in_block, needle@) == 1);
            return 1;
        }
        line_no = line_no + 1;
    }
    1
}

} // verus!
