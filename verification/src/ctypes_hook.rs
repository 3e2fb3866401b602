//! The ctypes hook installed into a Python's site-packages: a module that
//! lets `ctypes.util.find_library` and `dlopen` see Nix libraries, a `.pth`
//! file importing it, and the list of library directories it searches.
use vstd::prelude::*;

use crate::patchelf::distinct_entries;
use crate::text::{join_strings, join_with, lines_of, trim, views};

verus! {

/// The non-empty trimmed lines of an existing library list.
pub open spec fn listed_paths(ls: Seq<Seq<char>>) -> Seq<Seq<char>>
    decreases ls.len(),
{
    if ls.len() == 0 {
        Seq::empty()
    } else {
        let r = listed_paths(ls.drop_last());
        let t = trim(ls.last());
        if t.len() == 0 {
            r
        } else {
            r.push(t)
        }
    }
}

/// The library list after an install: the paths listed before, then the
/// new ones, each once in first-seen order, one per line.
pub open spec fn merged_conf(existing: Option<Seq<char>>, lib_paths: Seq<Seq<char>>) -> Seq<char> {
    let before = match existing {
        Some(c) => listed_paths(lines_of(c)),
        None => Seq::empty(),
    };
    join_with(distinct_entries(before + lib_paths), '\n') + "\n"@
}

fn listed_paths_exec(content: &str) -> (r: Vec<String>)
    ensures
        views(r@) == listed_paths(lines_of(content@)),
{
    let ls = crate::text::lines(content);
    let ghost lv = views(ls@);
    let mut r: Vec<String> = Vec::new();
    let mut i: usize = 0;
    while i < ls.len()
        invariant
            i <= ls.len(),
            lv == views(ls@),
            views(r@) == listed_paths(lv.take(i as int)),
        decreases ls.len() - i,
    {
        assert(lv.take(i as int + 1).drop_last() =~= lv.take(i as int));
        assert(lv.take(i as int + 1).last() == ls@[i as int]@);
        let t = crate::text::trim_string(ls[i].as_str());
        if !t.as_str().is_empty() {
            let ghost r0 = r@;
            r.push(t);
            assert(views(r@) =~= views(r0).push(r@.last()@));
        }
        i = i + 1;
    }
    assert(lv.take(ls.len() as int) =~= lv);
    r
}

/// The new contents of `_uv_nix_libs.conf`: the paths it listed (`existing`
/// is its contents, when it could be read), then `lib_paths`, without
/// repeats, one per line.
pub fn merge_lib_paths(existing: Option<&str>, lib_paths: &Vec<String>) -> (r: String)
    ensures
        r@ == merged_conf(
            match existing {
                Some(c) => Some(c@),
                None => None,
            },
            views(lib_paths@),
        ),
{
    let mut all = match existing {
        Some(c) => listed_paths_exec(c),
        None => Vec::new(),
    };
    let ghost before = views(all@);
    crate::config::extend_strings(&mut all, lib_paths);
    assert(views(all@) =~= before + views(lib_paths@));
    let distinct = crate::patchelf::rpaths_to_add(&all);
    let mut out = join_strings(&distinct, '\n');
    out.append("\n");
    out
}

/// The library directories an install leaves listed: those listed before,
/// then the new ones, each once in first-seen order.
pub open spec fn merged_entries(existing: Option<Seq<char>>, lib_paths: Seq<Seq<char>>) -> Seq<Seq<char>> {
    let before = match existing {
        Some(c) => listed_paths(lines_of(c)),
        None => Seq::empty(),
    };
    distinct_entries(before + lib_paths)
}

/// An install keeps every directory listed by earlier installs and adds its
/// own, and lists none twice.
pub proof fn lemma_merge_keeps_paths(existing: Option<Seq<char>>, lib_paths: Seq<Seq<char>>)
    ensures
        merged_conf(existing, lib_paths) == join_with(merged_entries(existing, lib_paths), '\n') + "\n"@,
        merged_entries(existing, lib_paths).no_duplicates(),
        forall|p: Seq<char>| #[trigger] lib_paths.contains(p) ==> merged_entries(existing, lib_paths).contains(p),
        forall|p: Seq<char>|
            existing is Some && #[trigger] listed_paths(lines_of(existing.unwrap())).contains(p) ==> merged_entries(
                existing,
                lib_paths,
            ).contains(p),
{
    let before = match existing {
        Some(c) => listed_paths(lines_of(c)),
        None => Seq::empty(),
    };
    crate::patchelf::lemma_distinct_entries(before + lib_paths);
    assert forall|p: Seq<char>| #[trigger] lib_paths.contains(p) implies (before + lib_paths).contains(p) by {
        let k = choose|k: int| 0 <= k < lib_paths.len() && lib_paths[k] == p;
        assert((before + lib_paths)[before.len() + k] == p);
    }
    assert forall|p: Seq<char>| #[trigger] before.contains(p) implies (before + lib_paths).contains(p) by {
        let k = choose|k: int| 0 <= k < before.len() && before[k] == p;
        assert((before + lib_paths)[k] == p);
    }
}

} // verus!
