//! Placement of inserted code at module scope.
use vstd::prelude::*;

use crate::text::str_chars;

verus! {

/// The text of line `k`, or the empty text when there is no such line.
pub open spec fn line_at(lines: Seq<&str>, k: int) -> Seq<char> {
    if 0 <= k < lines.len() { lines[k]@ } else { seq![] }
}

/// Whether line `k` is a place to insert at module scope: it is empty or does
/// not start with a space or a tab.
pub open spec fn is_module_scope_line(lines: Seq<&str>, k: int) -> bool {
    let c = line_at(lines, k);
    c.len() == 0 || (c[0] != ' ' && c[0] != '\t')
}

/// Find a suitable insert position at module scope above the first instance.
///
/// Walks backwards from `first_start_0based` looking for an empty line or a
/// line that starts at column 0 (module scope), to avoid inserting inside a
/// function body; stops at line 0.
pub fn find_insert_line(first_start_0based: u32, file_lines: &[&str]) -> (r: u32)
    ensures
        first_start_0based == 0 ==> r == 0,
        first_start_0based > 0 ==> r < first_start_0based,
        r > 0 ==> is_module_scope_line(file_lines@, r as int),
        forall|k: int| r < k < first_start_0based ==> !is_module_scope_line(file_lines@, k),
{
    let mut line = first_start_0based;
    let mut done = false;
    while line > 0 && !done
        invariant
            line <= first_start_0based,
            !done ==> forall|k: int| line <= k < first_start_0based ==> !is_module_scope_line(file_lines@, k),
            done ==> line < first_start_0based && is_module_scope_line(file_lines@, line as int)
                && forall|k: int| line < k < first_start_0based ==> !is_module_scope_line(file_lines@, k),
        decreases line,
    {
        line = line - 1;
        let idx = line as usize;
        let good = if idx < file_lines.len() {
            let content = str_chars(file_lines[idx]);
            content.len() == 0 || (content[0] != ' ' && content[0] != '\t')
        } else {
            true
        };
        assert(good == is_module_scope_line(file_lines@, line as int));
        if good {
            done = true;
        }
    }
    line
}

} // verus!
