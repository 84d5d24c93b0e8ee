//! Edits to source text: its lines as `str::lines` yields them, byte
//! lengths in UTF-8, and removing the `export` keyword of an unused export.
use vstd::prelude::*;

use crate::text::{chars_start_with, join, leading_ws, lemma_leading_ws_bound, push_chars, str_chars, trim_start};
use crate::unused_deps::{lemma_next_newline, line_text, next_newline};

verus! {

// ---- UTF-8 lengths -----------------------------------------------------

/// The number of bytes of a character in UTF-8.
pub open spec fn utf8_width(c: char) -> nat {
    if '\u{80}' > c {
        1
    } else if '\u{800}' > c {
        2
    } else if '\u{10000}' > c {
        3
    } else {
        4
    }
}

/// The number of bytes of a text in UTF-8.
pub open spec fn utf8_len(s: Seq<char>) -> nat
    decreases s.len(),
{
    if s.len() == 0 {
        0
    } else {
        utf8_len(s.drop_last()) + utf8_width(s.last())
    }
}

fn char_width(c: char) -> (r: u128)
    ensures
        r == utf8_width(c),
{
    if '\u{80}' > c {
        1
    } else if '\u{800}' > c {
        2
    } else if '\u{10000}' > c {
        3
    } else {
        4
    }
}

/// The number of bytes of `v[from..to]` in UTF-8.
pub fn utf8_len_of(v: &Vec<char>, from: usize, to: usize) -> (r: u128)
    requires
        from <= to <= v@.len(),
    ensures
        r == utf8_len(v@.subrange(from as int, to as int)),
        r <= 4 * (to - from),
{
    let mut sum: u128 = 0;
    let mut i: usize = from;
    assert(v@.subrange(from as int, from as int) =~= seq![]);
    while i < to
        invariant
            from <= i <= to <= v@.len(),
            sum == utf8_len(v@.subrange(from as int, i as int)),
            sum <= 4 * (i - from),
        decreases to - i,
    {
        assert(v@.subrange(from as int, i + 1).drop_last() =~= v@.subrange(from as int, i as int));
        sum = sum + char_width(v[i]);
        i = i + 1;
    }
    sum
}

/// The byte offsets at which the lines of the first `n` characters start:
/// 0, then the offset after each line feed.
pub open spec fn starts_upto(s: Seq<char>, n: int) -> Seq<nat>
    decreases n,
{
    if n <= 0 {
        seq![0nat]
    } else {
        let prev = starts_upto(s, n - 1);
        if s[n - 1] == '\n' { prev.push(utf8_len(s.take(n))) } else { prev }
    }
}

proof fn lemma_utf8_len_prefix(s: Seq<char>, i: int, j: int)
    requires
        0 <= i <= j <= s.len(),
    ensures
        utf8_len(s.take(i)) <= utf8_len(s.take(j)),
    decreases j - i,
{
    if i < j {
        lemma_utf8_len_prefix(s, i, j - 1);
        assert(s.take(j).drop_last() =~= s.take(j - 1));
    }
}

/// The byte offset at which each line of a text starts (a line feed ends a
/// line), for turning byte offsets into lines and columns.
pub fn line_starts(content: &str) -> (r: Vec<u32>)
    requires
        utf8_len(content@) <= u32::MAX,
    ensures
        r@.len() == starts_upto(content@, content@.len() as int).len(),
        forall|k: int| 0 <= k < r@.len() ==> r@[k] as nat == #[trigger] starts_upto(content@, content@.len() as int)[k],
{
    let v = str_chars(content);
    let mut r: Vec<u32> = Vec::new();
    r.push(0);
    let mut offset: u128 = 0;
    let mut i: usize = 0;
    assert(v@.take(0) =~= Seq::<char>::empty());
    assert(utf8_len(v@.take(0)) == 0);
    assert(starts_upto(v@, 0) == seq![0nat]);
    while i < v.len()
        invariant
            i <= v@.len(),
            v@ == content@,
            utf8_len(v@) <= u32::MAX,
            offset == utf8_len(v@.take(i as int)),
            r@.len() == starts_upto(v@, i as int).len(),
            forall|k: int| 0 <= k < r@.len() ==> r@[k] as nat == #[trigger] starts_upto(v@, i as int)[k],
        decreases v.len() - i,
    {
        proof {
            assert(v@.take(i + 1).drop_last() =~= v@.take(i as int));
            assert(v@.take(i + 1).last() == v@[i as int]);
            assert(utf8_len(v@.take(i + 1)) == offset + utf8_width(v@[i as int]));
            lemma_utf8_len_prefix(v@, i + 1, v@.len() as int);
            assert(v@.take(v@.len() as int) =~= v@);
        }
        offset = offset + char_width(v[i]);
        if v[i] == '\n' {
            let ghost before = r@;
            r.push(offset as u32);
            assert(starts_upto(v@, i + 1) == starts_upto(v@, i as int).push(utf8_len(v@.take(i + 1))));
            assert forall|k: int| 0 <= k < r@.len() implies r@[k] as nat == #[trigger] starts_upto(v@, i + 1)[k] by {
                if k < before.len() {
                    assert(r@[k] == before[k]);
                }
            }
        }
        i = i + 1;
    }
    r
}

// ---- lines -------------------------------------------------------------

/// The lines of `s` from position `i` on, as `str::lines` yields them:
/// split at each `\n`, a `\r` before it dropped, no line after a final
/// `\n`.
pub open spec fn lines_from(s: Seq<char>, i: int) -> Seq<Seq<char>>
    decreases s.len() - i,
    via lines_from_decreases
{
    if i < 0 || i >= s.len() {
        seq![]
    } else {
        let j = next_newline(s, i);
        if j < s.len() {
            seq![line_text(s, i, j)] + lines_from(s, j + 1)
        } else {
            seq![line_text(s, i, j)]
        }
    }
}

#[via_fn]
proof fn lines_from_decreases(s: Seq<char>, i: int) {
    if 0 <= i < s.len() {
        lemma_next_newline(s, i);
    }
}

/// The lines of a text, as `str::lines` yields them.
pub open spec fn text_lines(s: Seq<char>) -> Seq<Seq<char>> {
    lines_from(s, 0)
}

/// The lines of a text, as `str::lines` yields them.
pub fn split_lines(text: &str) -> (r: Vec<Vec<char>>)
    ensures
        r@.map_values(|l: Vec<char>| l@) == text_lines(text@),
{
    let s = str_chars(text);
    let mut r: Vec<Vec<char>> = Vec::new();
    let mut i: usize = 0;
    assert(r@.map_values(|l: Vec<char>| l@) + lines_from(s@, 0) =~= text_lines(text@));
    while i < s.len()
        invariant
            i <= s@.len(),
            s@ == text@,
            r@.map_values(|l: Vec<char>| l@) + lines_from(s@, i as int) == text_lines(text@),
        decreases s.len() - i,
    {
        let mut j: usize = i;
        while j < s.len() && s[j] != '\n'
            invariant
                i <= j <= s@.len(),
                forall|k: int| i <= k < j ==> s@[k] != '\n',
            decreases s.len() - j,
        {
            j = j + 1;
        }
        proof {
            lemma_next_newline(s@, i as int);
            if next_newline(s@, i as int) < j {
                assert(s@[next_newline(s@, i as int)] == '\n');
            }
            if j < next_newline(s@, i as int) {
                assert(s@[j as int] != '\n');
            }
        }
        assert(j == next_newline(s@, i as int));
        let end = if j < s.len() && j > i && s[j - 1] == '\r' { j - 1 } else { j };
        let mut line: Vec<char> = Vec::new();
        let mut k: usize = i;
        while k < end
            invariant
                i <= k <= end <= s@.len(),
                line@ == s@.subrange(i as int, k as int),
            decreases end - k,
        {
            line.push(s[k]);
            k = k + 1;
            assert(line@ =~= s@.subrange(i as int, k as int));
        }
        assert(line@ == line_text(s@, i as int, j as int));
        let ghost before = r@.map_values(|l: Vec<char>| l@);
        r.push(line);
        assert(r@.map_values(|l: Vec<char>| l@) =~= before.push(line@));
        if j < s.len() {
            assert(lines_from(s@, i as int) == seq![line@] + lines_from(s@, j + 1));
            assert(before + lines_from(s@, i as int) =~= before.push(line@) + lines_from(s@, j + 1));
            i = j + 1;
        } else {
            assert(lines_from(s@, i as int) == seq![line@]);
            assert(lines_from(s@, s@.len() as int) =~= seq![]);
            assert(before + lines_from(s@, i as int) =~= before.push(line@) + lines_from(s@, s@.len() as int));
            i = s.len();
        }
    }
    assert(lines_from(s@, i as int) =~= seq![]);
    assert(r@.map_values(|l: Vec<char>| l@) =~= r@.map_values(|l: Vec<char>| l@) + lines_from(s@, i as int));
    r
}

/// The parts joined with a line feed between neighbours.
pub fn join_lines(parts: &Vec<Vec<char>>) -> (r: String)
    ensures
        r@ == join(parts@.map_values(|l: Vec<char>| l@), "\n"@),
{
    let ghost pv = parts@.map_values(|l: Vec<char>| l@);
    proof { reveal_strlit("\n"); }
    assert("\n"@ =~= seq!['\n']);
    let mut r = String::new();
    let mut k: usize = 0;
    assert(r@ =~= join(pv.take(0), "\n"@));
    while k < parts.len()
        invariant
            k <= parts@.len(),
            pv == parts@.map_values(|l: Vec<char>| l@),
            "\n"@ == seq!['\n'],
            r@ == join(pv.take(k as int), "\n"@),
        decreases parts.len() - k,
    {
        let ghost t = pv.take(k + 1);
        assert(t.drop_last() =~= pv.take(k as int));
        assert(t.last() == parts@[k as int]@);
        if k > 0 {
            crate::text::push_char(&mut r, '\n');
        } else {
            assert(pv.take(0) =~= seq![]);
        }
        push_chars(&mut r, &parts[k], 0, parts[k].len());
        assert(parts@[k as int]@.subrange(0, parts@[k as int]@.len() as int) =~= parts@[k as int]@);
        if k == 0 {
            assert(r@ =~= join(t, "\n"@));
        } else {
            assert(r@ =~= join(t, "\n"@));
        }
        k = k + 1;
    }
    assert(pv.take(pv.len() as int) =~= pv);
    r
}

// ---- removing an export keyword ----------------------------------------

/// The index of the line that holds byte `offset`: from line `i`, which
/// starts at byte `start`, the first whose end reaches the offset (each
/// line break counted as one byte).
pub open spec fn line_at_offset(lines: Seq<Seq<char>>, offset: int, i: int, start: int) -> Option<int>
    decreases lines.len() - i,
{
    if i < 0 || i >= lines.len() {
        None
    } else if start + utf8_len(lines[i]) >= offset {
        Some(i)
    } else {
        line_at_offset(lines, offset, i + 1, start + utf8_len(lines[i]) + 1)
    }
}

/// A line without the `export ` keyword that starts its text.
pub open spec fn without_export(line: Seq<char>) -> Seq<char> {
    line.take(leading_ws(line) as int) + trim_start(line).skip(7)
}

/// For an export at byte `offset`: the index of its line and the text with
/// that line's leading `export ` removed, its lines joined by line feeds;
/// none when no line reaches the offset or its line does not start with
/// `export `.
pub open spec fn export_fix(content: Seq<char>, offset: int) -> Option<(int, Seq<char>)> {
    let ls = text_lines(content);
    match line_at_offset(ls, offset, 0, 0) {
        Some(k) => if crate::text::starts_with(trim_start(ls[k]), "export "@) {
            Some((k, join(ls.update(k, without_export(ls[k])), "\n"@)))
        } else {
            None
        },
        None => None,
    }
}

/// Remove the `export` keyword of the export at byte `offset`: the index of
/// its line and the new text (see [`export_fix`]).
pub fn remove_export_keyword(content: &str, offset: usize) -> (r: Option<(usize, String)>)
    ensures
        match r {
            Some((k, s)) => export_fix(content@, offset as int) == Some((k as int, s@)),
            None => export_fix(content@, offset as int) is None,
        },
{
    let lines = split_lines(content);
    let ghost ls = lines@.map_values(|l: Vec<char>| l@);
    let mut i: usize = 0;
    let mut start: u128 = 0;
    assert(ls.len() == lines@.len());
    while i < lines.len()
        invariant
            i <= lines@.len(),
            ls == lines@.map_values(|l: Vec<char>| l@),
            ls == text_lines(content@),
            start <= offset as u128,
            line_at_offset(ls, offset as int, 0, 0) == line_at_offset(ls, offset as int, i as int, start as int),
        decreases lines.len() - i,
    {
        let len = utf8_len_of(&lines[i], 0, lines[i].len());
        assert(lines@[i as int]@.subrange(0, lines@[i as int]@.len() as int) =~= ls[i as int]);
        if start + len >= offset as u128 {
            let line = &lines[i];
            let ghost lv = ls[i as int];
            proof { lemma_leading_ws_bound(lv); }
            let mut indent: usize = 0;
            while indent < line.len() && crate::text::char_is_ws(line[indent])
                invariant
                    indent <= line@.len(),
                    line@ == lv,
                    leading_ws(lv) <= lv.len(),
                    forall|q: int| 0 <= q < leading_ws(lv) ==> crate::text::is_ws(#[trigger] lv[q]),
                    leading_ws(lv) < lv.len() ==> !crate::text::is_ws(lv[leading_ws(lv) as int]),
                    indent <= leading_ws(lv),
                decreases line.len() - indent,
            {
                indent = indent + 1;
            }
            assert(indent == leading_ws(lv));
            let rest = crate::text::sub_vec(line, indent, line.len());
            assert(rest@ =~= trim_start(lv));
            let kw = str_chars("export ");
            proof { reveal_strlit("export "); }
            if !chars_start_with(&rest, &kw) {
                return None;
            }
            let mut new_line = crate::text::sub_vec(line, 0, indent);
            let mut q: usize = 7;
            while q < rest.len()
                invariant
                    7 <= q <= rest@.len(),
                    new_line@ == lv.take(indent as int) + rest@.subrange(7, q as int),
                decreases rest.len() - q,
            {
                new_line.push(rest[q]);
                q = q + 1;
                assert(new_line@ =~= lv.take(indent as int) + rest@.subrange(7, q as int));
            }
            assert(new_line@ =~= without_export(lv));
            let mut parts: Vec<Vec<char>> = Vec::new();
            let mut p: usize = 0;
            while p < lines.len()
                invariant
                    p <= lines@.len(),
                    i < lines@.len(),
                    ls == lines@.map_values(|l: Vec<char>| l@),
                    parts@.map_values(|l: Vec<char>| l@) == ls.update(i as int, new_line@).take(p as int),
                decreases lines.len() - p,
            {
                let ghost before = parts@.map_values(|l: Vec<char>| l@);
                let ghost upd = ls.update(i as int, new_line@);
                assert(upd.take(p + 1) =~= upd.take(p as int).push(upd[p as int]));
                if p == i {
                    let copy = crate::text::sub_vec(&new_line, 0, new_line.len());
                    assert(copy@ =~= new_line@);
                    parts.push(copy);
                } else {
                    let copy = crate::text::sub_vec(&lines[p], 0, lines[p].len());
                    assert(copy@ =~= lines@[p as int]@);
                    parts.push(copy);
                }
                assert(parts@.map_values(|l: Vec<char>| l@) =~= before.push(upd[p as int]));
                p = p + 1;
            }
            assert(ls.update(i as int, new_line@).take(lines@.len() as int) =~= ls.update(i as int, new_line@));
            let text = join_lines(&parts);
            return Some((i, text));
        }
        start = start + len + 1;
        i = i + 1;
    }
    None
}

} // verus!
