//! Fixing a package.json: taking unused dependencies out of its
//! `dependencies` and `devDependencies` objects.
use vstd::prelude::*;

use crate::dependency_usage::listed_exec;
use crate::migrate::JsonValue;
use crate::text::{str_eq, views};

verus! {

/// The members of an object whose keys `names` does not list, in order.
pub open spec fn without_keys(members: Seq<(String, JsonValue)>, names: Seq<Seq<char>>) -> Seq<(String, JsonValue)>
    decreases members.len(),
{
    if members.len() == 0 {
        seq![]
    } else {
        let prev = without_keys(members.drop_last(), names);
        if names.contains(members.last().0@) {
            prev
        } else {
            prev.push(members.last())
        }
    }
}

/// How many members of an object `names` lists by key.
pub open spec fn listed_key_count(members: Seq<(String, JsonValue)>, names: Seq<Seq<char>>) -> nat
    decreases members.len(),
{
    if members.len() == 0 {
        0
    } else {
        listed_key_count(members.drop_last(), names) + if names.contains(members.last().0@) {
            1nat
        } else {
            0nat
        }
    }
}

/// The names to take out of the section stored under `key`: `deps` for
/// `dependencies`, `dev_deps` for `devDependencies`, none otherwise.
pub open spec fn section_names(key: Seq<char>, deps: Seq<Seq<char>>, dev_deps: Seq<Seq<char>>) -> Option<Seq<Seq<char>>> {
    if key == "dependencies"@ {
        Some(deps)
    } else if key == "devDependencies"@ {
        Some(dev_deps)
    } else {
        None
    }
}

/// How many names a top-level member loses.
pub open spec fn member_removals(m: (String, JsonValue), deps: Seq<Seq<char>>, dev_deps: Seq<Seq<char>>) -> nat {
    match (section_names(m.0@, deps, dev_deps), m.1) {
        (Some(names), JsonValue::Object(inner)) => listed_key_count(inner@, names),
        _ => 0,
    }
}

/// `new` is top-level member `old` with the listed names taken out of it,
/// when it is a dependency section holding an object; else `old` itself.
pub open spec fn member_stripped(
    old: (String, JsonValue),
    new: (String, JsonValue),
    deps: Seq<Seq<char>>,
    dev_deps: Seq<Seq<char>>,
) -> bool {
    &&& new.0 == old.0
    &&& match (section_names(old.0@, deps, dev_deps), old.1) {
        (Some(names), JsonValue::Object(inner)) => new.1 matches JsonValue::Object(out) && out@ == without_keys(
            inner@,
            names,
        ),
        _ => new.1 == old.1,
    }
}

/// How many names the top-level members lose, in all.
pub open spec fn section_total(members: Seq<(String, JsonValue)>, deps: Seq<Seq<char>>, dev_deps: Seq<Seq<char>>) -> nat
    decreases members.len(),
{
    if members.len() == 0 {
        0
    } else {
        section_total(members.drop_last(), deps, dev_deps) + member_removals(members.last(), deps, dev_deps)
    }
}

/// How many dependencies a package.json loses: none unless it is an object.
pub open spec fn removed_count(pkg: JsonValue, deps: Seq<Seq<char>>, dev_deps: Seq<Seq<char>>) -> nat {
    match pkg {
        JsonValue::Object(members) => section_total(members@, deps, dev_deps),
        _ => 0,
    }
}

/// `new` is package.json `old` with `deps` taken out of its `dependencies`
/// object and `dev_deps` out of its `devDependencies` object, everything
/// else, the order of the members included, as it was.
pub open spec fn dependencies_removed(old: JsonValue, new: JsonValue, deps: Seq<Seq<char>>, dev_deps: Seq<Seq<char>>) -> bool {
    match old {
        JsonValue::Object(members) => new matches JsonValue::Object(out) && out@.len() == members@.len() && forall|k: int|
            0 <= k < members@.len() ==> #[trigger] member_stripped(members@[k], out@[k], deps, dev_deps),
        _ => new == old,
    }
}

proof fn lemma_listed_count_bound(members: Seq<(String, JsonValue)>, names: Seq<Seq<char>>)
    ensures
        listed_key_count(members, names) <= members.len(),
    decreases members.len(),
{
    if members.len() > 0 {
        lemma_listed_count_bound(members.drop_last(), names);
    }
}

proof fn lemma_section_total_prefix(members: Seq<(String, JsonValue)>, deps: Seq<Seq<char>>, dev_deps: Seq<Seq<char>>, k: int)
    requires
        0 <= k <= members.len(),
    ensures
        section_total(members.take(k), deps, dev_deps) <= section_total(members, deps, dev_deps),
    decreases members.len(),
{
    if k < members.len() {
        assert(members.drop_last().take(k) =~= members.take(k));
        lemma_section_total_prefix(members.drop_last(), deps, dev_deps, k);
    } else {
        assert(members.take(k) =~= members);
    }
}

/// The members whose keys `names` does not list, and how many it lists.
fn drop_listed(members: Vec<(String, JsonValue)>, names: &Vec<String>) -> (r: (Vec<(String, JsonValue)>, usize))
    ensures
        r.0@ == without_keys(members@, views(names@)),
        r.1 == listed_key_count(members@, views(names@)),
{
    let ghost orig = members@;
    let ghost nv = views(names@);
    let mut rest = members;
    let mut out: Vec<(String, JsonValue)> = Vec::new();
    let mut count: usize = 0;
    let mut k: usize = 0;
    let len: usize = rest.len();
    while rest.len() > 0
        invariant
            len == orig.len(),
            k + rest@.len() == orig.len(),
            rest@ == orig.skip(k as int),
            nv == views(names@),
            out@ == without_keys(orig.take(k as int), nv),
            count == listed_key_count(orig.take(k as int), nv),
        decreases rest.len(),
    {
        let m = rest.remove(0);
        assert(m == orig[k as int]);
        assert(orig.take(k + 1).drop_last() =~= orig.take(k as int));
        assert(orig.skip(k as int).remove(0) =~= orig.skip(k + 1));
        proof {
            lemma_listed_count_bound(orig.take(k as int), nv);
        }
        if listed_exec(names, &m.0) {
            count = count + 1;
        } else {
            out.push(m);
        }
        k = k + 1;
    }
    assert(orig.take(k as int) =~= orig);
    (out, count)
}

/// The top-level members with the listed names taken out of the dependency
/// sections, and how many names they lost.
fn strip_sections(members: Vec<(String, JsonValue)>, deps: &Vec<String>, dev_deps: &Vec<String>) -> (r: (
    Vec<(String, JsonValue)>,
    usize,
))
    requires
        section_total(members@, views(deps@), views(dev_deps@)) <= usize::MAX,
    ensures
        r.0@.len() == members@.len(),
        forall|k: int|
            0 <= k < members@.len() ==> #[trigger] member_stripped(members@[k], r.0@[k], views(deps@), views(dev_deps@)),
        r.1 == section_total(members@, views(deps@), views(dev_deps@)),
{
    let ghost orig = members@;
    let ghost dv = views(deps@);
    let ghost vv = views(dev_deps@);
    let mut rest = members;
    let mut out: Vec<(String, JsonValue)> = Vec::new();
    let mut total: usize = 0;
    let mut k: usize = 0;
    let len: usize = rest.len();
    while rest.len() > 0
        invariant
            len == orig.len(),
            k + rest@.len() == orig.len(),
            rest@ == orig.skip(k as int),
            dv == views(deps@),
            vv == views(dev_deps@),
            section_total(orig, dv, vv) <= usize::MAX,
            out@.len() == k,
            forall|q: int| 0 <= q < k ==> #[trigger] member_stripped(orig[q], out@[q], dv, vv),
            total == section_total(orig.take(k as int), dv, vv),
        decreases rest.len(),
    {
        let m = rest.remove(0);
        assert(m == orig[k as int]);
        assert(orig.take(k + 1).drop_last() =~= orig.take(k as int));
        assert(orig.skip(k as int).remove(0) =~= orig.skip(k + 1));
        proof {
            lemma_section_total_prefix(orig, dv, vv, k + 1);
        }
        let (key, value) = m;
        let is_deps = str_eq(key.as_str(), "dependencies");
        let is_dev = !is_deps && str_eq(key.as_str(), "devDependencies");
        let stripped: (String, JsonValue) = match value {
            JsonValue::Object(inner) => {
                if is_deps || is_dev {
                    let names = if is_deps {
                        deps
                    } else {
                        dev_deps
                    };
                    let (kept, n) = drop_listed(inner, names);
                    total = total + n;
                    (key, JsonValue::Object(kept))
                } else {
                    (key, JsonValue::Object(inner))
                }
            },
            other => (key, other),
        };
        let ghost before = out@;
        out.push(stripped);
        assert(member_stripped(orig[k as int], out@[k as int], dv, vv));
        assert forall|q: int| 0 <= q < k + 1 implies #[trigger] member_stripped(orig[q], out@[q], dv, vv) by {
            if q < k {
                assert(out@[q] == before[q]);
            }
        }
        k = k + 1;
    }
    assert(orig.take(k as int) =~= orig);
    (out, total)
}

/// Take the unused `deps` out of the `dependencies` object of a package.json
/// and the unused `dev_deps` out of its `devDependencies` object, keeping
/// everything else in its order; returns how many names were taken out. A
/// package.json that is no object, and a section that is no object, stay as
/// they are.
pub fn remove_unused_dependencies(pkg: &mut JsonValue, deps: &Vec<String>, dev_deps: &Vec<String>) -> (removed: usize)
    requires
        removed_count(*old(pkg), views(deps@), views(dev_deps@)) <= usize::MAX,
    ensures
        dependencies_removed(*old(pkg), *final(pkg), views(deps@), views(dev_deps@)),
        removed == removed_count(*old(pkg), views(deps@), views(dev_deps@)),
{
    let mut taken = JsonValue::Null;
    std::mem::swap(pkg, &mut taken);
    match taken {
        JsonValue::Object(members) => {
            let (stripped, n) = strip_sections(members, deps, dev_deps);
            *pkg = JsonValue::Object(stripped);
            n
        },
        other => {
            *pkg = other;
            0
        },
    }
}

/// Whether a fix run may go on: a dry run writes nothing; one that writes
/// needs `--yes` unless it runs at a terminal. A run that may not ends with
/// exit code 2.
pub fn fix_may_proceed(dry_run: bool, yes: bool, interactive: bool) -> (r: bool)
    ensures
        r == (dry_run || yes || interactive),
{
    dry_run || yes || interactive
}

} // verus!
