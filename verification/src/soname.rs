//! Which shared libraries a native binary needs, which nixpkgs attrs provide
//! them, and the record of what was patched (`share/uv-nix/patches.json`).
use vstd::prelude::*;

use crate::sorted::{keys_of, pairs_map, remove_key, strictly_sorted, upsert};
use crate::text::{contains, contains_seq, owned, views};

verus! {

// ---------------------------------------------------------------------------
// Soname map
// ---------------------------------------------------------------------------
/// Soname to nixpkgs attr, per platform. Each list holds distinct sonames in
/// the order the map is walked.
#[derive(Debug)]
pub struct SonameMap {
    pub linux: Vec<(String, String)>,
    pub darwin: Vec<(String, String)>,
}

impl SonameMap {
    /// The map of the given platform.
    pub fn for_platform(&self, is_darwin: bool) -> (r: &Vec<(String, String)>)
        ensures
            r == (if is_darwin {
                &self.darwin
            } else {
                &self.linux
            }),
    {
        if is_darwin {
            &self.darwin
        } else {
            &self.linux
        }
    }
}

// ---------------------------------------------------------------------------
// System libraries
// ---------------------------------------------------------------------------
/// Linux: the kernel's virtual DSOs. macOS: libraries the system provides.
pub open spec fn system_lib(soname: Seq<char>, is_darwin: bool) -> bool {
    if is_darwin {
        contains_seq(soname, "/usr/lib/libSystem"@) || contains_seq(soname, "/usr/lib/libc++"@)
            || contains_seq(soname, "/usr/lib/libobjc"@) || contains_seq(soname, "/usr/lib/libz"@)
            || contains_seq(soname, "/usr/lib/libresolv"@) || contains_seq(
            soname,
            "/System/Library/Frameworks/"@,
        )
    } else {
        contains_seq(soname, "linux-vdso.so"@) || contains_seq(soname, "linux-gate.so"@)
    }
}

/// Whether a soname (Linux) or install name (macOS) needs no rpath.
pub fn is_system_lib(soname: &str, is_darwin: bool) -> (r: bool)
    ensures
        r == system_lib(soname@, is_darwin),
{
    if is_darwin {
        contains(soname, "/usr/lib/libSystem") || contains(soname, "/usr/lib/libc++") || contains(
            soname,
            "/usr/lib/libobjc",
        ) || contains(soname, "/usr/lib/libz") || contains(soname, "/usr/lib/libresolv")
            || contains(soname, "/System/Library/Frameworks/")
    } else {
        contains(soname, "linux-vdso.so") || contains(soname, "linux-gate.so")
    }
}

// ---------------------------------------------------------------------------
// Needed libraries
// ---------------------------------------------------------------------------
/// The shared libraries of a binary, classified.
#[derive(Debug)]
pub struct NeededLibs {
    /// The binary.
    pub binary: String,
    /// Libraries that need a Nix rpath (system libraries left out).
    pub needed: Vec<String>,
    /// Libraries bundled with the wheel, found through `$ORIGIN`/`@loader_path`.
    pub origin_resolvable: Vec<String>,
}

/// Result of resolving a binary's needed libraries to nixpkgs attrs.
#[derive(Debug)]
pub struct ResolvedBinary {
    /// Libraries the binary needs (system libraries left out).
    pub needed: Vec<String>,
    /// Nixpkgs attrs that provide them, each once, in order of first need.
    pub nix_libs: Vec<String>,
    /// Store paths added to the binary's rpath.
    pub rpaths_added: Vec<String>,
}

impl ResolvedBinary {
    /// A copy.
    pub fn duplicate(&self) -> (r: Self)
        ensures
            r.needed@ == self.needed@,
            r.nix_libs@ == self.nix_libs@,
            r.rpaths_added@ == self.rpaths_added@,
    {
        ResolvedBinary {
            needed: crate::config::clone_strings(&self.needed),
            nix_libs: crate::config::clone_strings(&self.nix_libs),
            rpaths_added: crate::config::clone_strings(&self.rpaths_added),
        }
    }
}

// ---------------------------------------------------------------------------
// Manifest
// ---------------------------------------------------------------------------
/// Patch information for one installed package.
#[derive(Debug)]
pub struct PackagePatchInfo {
    /// Package version.
    pub version: String,
    /// Per-binary patch details, keyed by path relative to site-packages,
    /// strictly sorted by key.
    pub patches: Vec<(String, ResolvedBinary)>,
}

/// The patch manifest of a virtual environment.
#[derive(Debug)]
pub struct PatchManifest {
    /// The nixpkgs revision used for resolution.
    pub nixpkgs_rev: String,
    /// Per-package information keyed by package name, strictly sorted by key.
    pub packages: Vec<(String, PackagePatchInfo)>,
}

impl PackagePatchInfo {
    /// Keys are strictly sorted, as in an ordered map.
    pub open spec fn wf(self) -> bool {
        strictly_sorted(keys_of(self.patches@))
    }

    /// The patches as a map from relative path.
    pub open spec fn patch_map(self) -> Map<Seq<char>, ResolvedBinary> {
        pairs_map(self.patches@)
    }

    /// A package version with no patches yet.
    pub fn new(version: &str) -> (r: Self)
        ensures
            r.wf(),
            r.version@ == version@,
            r.patches@.len() == 0,
    {
        PackagePatchInfo { version: owned(version), patches: Vec::new() }
    }

    /// Records the patch of one binary.
    pub fn insert_patch(&mut self, path: String, resolved: ResolvedBinary)
        requires
            old(self).wf(),
        ensures
            final(self).wf(),
            final(self).version == old(self).version,
            final(self).patch_map() == old(self).patch_map().insert(path@, resolved),
    {
        upsert(&mut self.patches, path, resolved);
    }
}

impl PatchManifest {
    /// Keys are strictly sorted, as in an ordered map, at both levels.
    pub open spec fn wf(self) -> bool {
        strictly_sorted(keys_of(self.packages@)) && forall|i: int|
            0 <= i < self.packages.len() ==> (#[trigger] self.packages@[i]).1.wf()
    }

    /// The packages as a map from name.
    pub open spec fn package_map(self) -> Map<Seq<char>, PackagePatchInfo> {
        pairs_map(self.packages@)
    }

    /// A manifest with no packages.
    pub fn empty(nixpkgs_rev: &str) -> (r: Self)
        ensures
            r.wf(),
            r.nixpkgs_rev@ == nixpkgs_rev@,
            r.packages@.len() == 0,
            r.package_map() == Map::<Seq<char>, PackagePatchInfo>::empty(),
    {
        let r = PatchManifest { nixpkgs_rev: owned(nixpkgs_rev), packages: Vec::new() };
        assert(r.package_map() =~= Map::<Seq<char>, PackagePatchInfo>::empty());
        r
    }

    /// Sets the entry of a package, replacing any earlier one.
    pub fn upsert_package(&mut self, name: String, info: PackagePatchInfo)
        requires
            old(self).wf(),
            info.wf(),
        ensures
            final(self).wf(),
            final(self).nixpkgs_rev == old(self).nixpkgs_rev,
            final(self).package_map() == old(self).package_map().insert(name@, info),
    {
        let ghost ov = self.packages@;
        let ghost nm = name@;
        let ghost inf = info;
        upsert(&mut self.packages, name, info);
        proof {
            let nv = self.packages@;
            assert forall|i: int| 0 <= i < nv.len() implies (#[trigger] nv[i]).1.wf() by {
                crate::sorted::lemma_pairs_map_at(nv, i);
                let key = nv[i].0@;
                if key == nm {
                } else {
                    let j = crate::sorted::key_index(ov, key);
                    assert(keys_of(ov).contains(key));
                    crate::sorted::lemma_pairs_map_at(ov, j);
                }
            }
        }
    }

    /// Removes the entry of a package, if any.
    pub fn remove_package(&mut self, name: &str)
        requires
            old(self).wf(),
        ensures
            final(self).wf(),
            final(self).nixpkgs_rev == old(self).nixpkgs_rev,
            final(self).package_map() == old(self).package_map().remove(name@),
    {
        let ghost ov = self.packages@;
        remove_key(&mut self.packages, name);
        proof {
            let nv = self.packages@;
            assert forall|i: int| 0 <= i < nv.len() implies (#[trigger] nv[i]).1.wf() by {
                crate::sorted::lemma_pairs_map_at(nv, i);
                let key = nv[i].0@;
                let j = crate::sorted::key_index(ov, key);
                assert(keys_of(ov).contains(key));
                crate::sorted::lemma_pairs_map_at(ov, j);
            }
        }
    }

    /// The entry of a package.
    pub fn get_package(&self, name: &str) -> (r: Option<&PackagePatchInfo>)
        requires
            self.wf(),
        ensures
            match r {
                Some(p) => self.package_map().dom().contains(name@) && self.package_map()[name@]
                    == *p,
                None => !self.package_map().dom().contains(name@),
            },
    {
        match crate::sorted::find_key(&self.packages, name) {
            Some(i) => {
                proof {
                    crate::sorted::lemma_pairs_map_at(self.packages@, i as int);
                }
                Some(&self.packages[i].1)
            },
            None => None,
        }
    }

    /// The number of packages.
    pub fn package_count(&self) -> (r: usize)
        requires
            self.wf(),
        ensures
            r == self.package_map().dom().len(),
    {
        proof {
            lemma_map_len(self.packages@);
        }
        self.packages.len()
    }

    /// Where the manifest lives within a virtual environment.
    pub fn manifest_path(venv: &str) -> (r: String)
        ensures
            r@ == crate::text::path_join(
                crate::text::path_join(crate::text::path_join(venv@, "share"@), "uv-nix"@),
                "patches.json"@,
            ),
    {
        let a = crate::text::join_path(venv, "share");
        let b = crate::text::join_path(a.as_str(), "uv-nix");
        crate::text::join_path(b.as_str(), "patches.json")
    }
}

/// Setting a package's entry twice keeps the second: after two upserts of
/// the same name, the manifest is the first one with only the second entry set.
pub proof fn lemma_upsert_replaces(
    first: PatchManifest,
    second: PatchManifest,
    third: PatchManifest,
    name: Seq<char>,
    a: PackagePatchInfo,
    b: PackagePatchInfo,
)
    requires
        second.package_map() == first.package_map().insert(name, a),
        third.package_map() == second.package_map().insert(name, b),
    ensures
        third.package_map() == first.package_map().insert(name, b),
        third.package_map()[name] == b,
{
    assert(third.package_map() =~= first.package_map().insert(name, b));
}

/// Removing a package after setting it leaves the other packages as they were.
pub proof fn lemma_upsert_then_remove(
    first: PatchManifest,
    second: PatchManifest,
    third: PatchManifest,
    name: Seq<char>,
    a: PackagePatchInfo,
)
    requires
        second.package_map() == first.package_map().insert(name, a),
        third.package_map() == second.package_map().remove(name),
    ensures
        third.package_map() == first.package_map().remove(name),
{
    assert(third.package_map() =~= first.package_map().remove(name));
}

/// A map read from strictly sorted pairs has as many keys as there are pairs.
pub proof fn lemma_map_len<V>(v: Seq<(String, V)>)
    requires
        strictly_sorted(keys_of(v)),
    ensures
        pairs_map(v).dom().len() == v.len(),
        pairs_map(v).dom().finite(),
    decreases v.len(),
{
    if v.len() == 0 {
        assert(pairs_map(v).dom() =~= Set::<Seq<char>>::empty());
    } else {
        let w = v.drop_last();
        assert(keys_of(w) =~= keys_of(v).drop_last());
        lemma_map_len(w);
        let k = v.last().0@;
        assert(keys_of(v)[v.len() - 1] == k);
        assert(!keys_of(w).contains(k)) by {
            if keys_of(w).contains(k) {
                let m = choose|m: int| 0 <= m < keys_of(w).len() && keys_of(w)[m] == k;
                assert(keys_of(v)[m] == k);
                crate::sorted::lemma_key_unique(v, m, v.len() - 1);
            }
        }
        assert(pairs_map(v).dom() =~= pairs_map(w).dom().insert(k)) by {
            assert forall|x: Seq<char>| pairs_map(v).dom().contains(x) <==> pairs_map(
                w,
            ).dom().insert(k).contains(x) by {
                if keys_of(w).contains(x) {
                    let m = choose|m: int| 0 <= m < keys_of(w).len() && keys_of(w)[m] == x;
                    assert(keys_of(v)[m] == x);
                }
                if keys_of(v).contains(x) && x != k {
                    let m = choose|m: int| 0 <= m < keys_of(v).len() && keys_of(v)[m] == x;
                    assert(m != v.len() - 1);
                    assert(keys_of(w)[m] == x);
                }
            }
        }
    }
}

// ---------------------------------------------------------------------------
// Resolution: soname map, then an rpath scan
// ---------------------------------------------------------------------------
/// A library directory of a nixpkgs attr: its store path and, where the
/// directory exists and could be listed, the names of its files.
#[derive(Debug)]
pub struct RpathDir {
    pub attr: String,
    pub path: String,
    pub files: Option<Vec<String>>,
}

/// One name is a prefix of the other (a soname with more or fewer version digits).
pub open spec fn prefix_related(a: Seq<char>, b: Seq<char>) -> bool {
    crate::text::has_prefix(a, b) || crate::text::has_prefix(b, a)
}

/// The attr of the first map entry whose soname is exactly `s`.
pub open spec fn map_exact(m: Seq<(String, String)>, s: Seq<char>) -> Option<Seq<char>>
    decreases m.len(),
{
    if m.len() == 0 {
        None
    } else if m[0].0@ == s {
        Some(m[0].1@)
    } else {
        map_exact(m.drop_first(), s)
    }
}

/// The attr of the first map entry whose soname is a prefix of `s` or has `s`
/// as a prefix.
pub open spec fn map_fuzzy(m: Seq<(String, String)>, s: Seq<char>) -> Option<Seq<char>>
    decreases m.len(),
{
    if m.len() == 0 {
        None
    } else if prefix_related(s, m[0].0@) {
        Some(m[0].1@)
    } else {
        map_fuzzy(m.drop_first(), s)
    }
}

/// The attr the soname map gives for `s`: an exact entry, else a fuzzy one.
pub open spec fn map_lookup(m: Seq<(String, String)>, s: Seq<char>) -> Option<Seq<char>> {
    match map_exact(m, s) {
        Some(a) => Some(a),
        None => map_fuzzy(m, s),
    }
}

/// Whether a directory listing holds a file matching soname `s`.
pub open spec fn listing_matches(files: Option<Vec<String>>, s: Seq<char>) -> bool {
    match files {
        Some(fs) => exists|k: int| 0 <= k < fs.len() && prefix_related(#[trigger] fs@[k]@, s),
        None => false,
    }
}

/// The attr of the first directory holding a file that matches `s`.
pub open spec fn scan_attr(dirs: Seq<RpathDir>, s: Seq<char>) -> Option<Seq<char>>
    decreases dirs.len(),
{
    if dirs.len() == 0 {
        None
    } else if listing_matches(dirs[0].files, s) {
        Some(dirs[0].attr@)
    } else {
        scan_attr(dirs.drop_first(), s)
    }
}

/// The store path of the first directory of attr `a`.
pub open spec fn rpath_of(dirs: Seq<RpathDir>, a: Seq<char>) -> Option<Seq<char>>
    decreases dirs.len(),
{
    if dirs.len() == 0 {
        None
    } else if dirs[0].attr@ == a {
        Some(dirs[0].path@)
    } else {
        rpath_of(dirs.drop_first(), a)
    }
}

/// Attrs found so far and the rpaths they brought.
pub type Found = (Seq<Seq<char>>, Seq<Seq<char>>);

/// Records attr `a` unless it was found before; its store path, if known,
/// joins the rpaths.
pub open spec fn add_attr(acc: Found, a: Seq<char>, dirs: Seq<RpathDir>) -> Found {
    if acc.0.contains(a) {
        acc
    } else {
        (
            acc.0.push(a),
            match rpath_of(dirs, a) {
                Some(p) => acc.1.push(p),
                None => acc.1,
            },
        )
    }
}

/// The soname map applied to each needed soname in turn: what was found, and
/// the sonames left unresolved.
pub open spec fn map_pass(m: Seq<(String, String)>, dirs: Seq<RpathDir>, needed: Seq<Seq<char>>) -> (
    Found,
    Seq<Seq<char>>,
)
    decreases needed.len(),
{
    if needed.len() == 0 {
        ((Seq::empty(), Seq::empty()), Seq::empty())
    } else {
        let (acc, un) = map_pass(m, dirs, needed.drop_last());
        match map_lookup(m, needed.last()) {
            Some(a) => (add_attr(acc, a, dirs), un),
            None => (acc, un.push(needed.last())),
        }
    }
}

/// The rpath scan applied to each unresolved soname in turn, starting from
/// `acc`: what was found, and the sonames still unresolved.
pub open spec fn scan_pass(dirs: Seq<RpathDir>, acc: Found, un: Seq<Seq<char>>) -> (
    Found,
    Seq<Seq<char>>,
)
    decreases un.len(),
{
    if un.len() == 0 {
        (acc, Seq::empty())
    } else {
        let (a2, still) = scan_pass(dirs, acc, un.drop_last());
        match scan_attr(dirs, un.last()) {
            Some(a) => (add_attr(a2, a, dirs), still),
            None => (a2, still.push(un.last())),
        }
    }
}

/// The full resolution of a list of needed sonames: found attrs and rpaths,
/// and what no step resolved.
pub open spec fn resolution(m: Seq<(String, String)>, dirs: Seq<RpathDir>, needed: Seq<Seq<char>>) -> (
    Found,
    Seq<Seq<char>>,
) {
    let (acc, un) = map_pass(m, dirs, needed);
    scan_pass(dirs, acc, un)
}

/// No item occurs twice.
pub open spec fn no_repeats(s: Seq<Seq<char>>) -> bool {
    forall|i: int, j: int| 0 <= i < j < s.len() ==> s[i] != s[j]
}

/// Adding an attr keeps the attrs free of repeats and brings at most one rpath.
proof fn lemma_add_attr(acc: Found, a: Seq<char>, dirs: Seq<RpathDir>)
    requires
        no_repeats(acc.0),
        acc.1.len() <= acc.0.len(),
    ensures
        no_repeats(add_attr(acc, a, dirs).0),
        add_attr(acc, a, dirs).1.len() <= add_attr(acc, a, dirs).0.len(),
        acc.0.contains(a) ==> add_attr(acc, a, dirs) == acc,
{
    if !acc.0.contains(a) {
        let n = acc.0.push(a);
        assert forall|i: int, j: int| 0 <= i < j < n.len() implies n[i] != n[j] by {
            if j == n.len() - 1 {
                assert(n[i] == acc.0[i]);
            }
        }
    }
}

proof fn lemma_scan_pass_distinct(dirs: Seq<RpathDir>, acc: Found, un: Seq<Seq<char>>)
    requires
        no_repeats(acc.0),
        acc.1.len() <= acc.0.len(),
    ensures
        no_repeats(scan_pass(dirs, acc, un).0.0),
        scan_pass(dirs, acc, un).0.1.len() <= scan_pass(dirs, acc, un).0.0.len(),
    decreases un.len(),
{
    if un.len() > 0 {
        lemma_scan_pass_distinct(dirs, acc, un.drop_last());
        let (a2, _) = scan_pass(dirs, acc, un.drop_last());
        match scan_attr(dirs, un.last()) {
            Some(a) => lemma_add_attr(a2, a, dirs),
            None => {},
        }
    }
}

proof fn lemma_map_pass_distinct(m: Seq<(String, String)>, dirs: Seq<RpathDir>, needed: Seq<Seq<char>>)
    ensures
        no_repeats(map_pass(m, dirs, needed).0.0),
        map_pass(m, dirs, needed).0.1.len() <= map_pass(m, dirs, needed).0.0.len(),
    decreases needed.len(),
{
    if needed.len() > 0 {
        lemma_map_pass_distinct(m, dirs, needed.drop_last());
        let (acc, _) = map_pass(m, dirs, needed.drop_last());
        match map_lookup(m, needed.last()) {
            Some(a) => lemma_add_attr(acc, a, dirs),
            None => {},
        }
    }
}

/// A resolution names each attr once, and adds at most one rpath per attr.
pub proof fn lemma_resolution_distinct(m: Seq<(String, String)>, dirs: Seq<RpathDir>, needed: Seq<Seq<char>>)
    ensures
        no_repeats(resolution(m, dirs, needed).0.0),
        resolution(m, dirs, needed).0.1.len() <= resolution(m, dirs, needed).0.0.len(),
{
    lemma_map_pass_distinct(m, dirs, needed);
    let (acc, un) = map_pass(m, dirs, needed);
    lemma_scan_pass_distinct(dirs, acc, un);
}

/// Libraries of a binary that nothing resolved.
#[derive(Debug)]
pub struct UnresolvedLibs {
    pub binary: String,
    pub libs: Vec<String>,
}

fn map_exact_exec(m: &Vec<(String, String)>, s: &str) -> (r: Option<usize>)
    ensures
        match r {
            Some(i) => i < m.len() && map_exact(m@, s@) == Some(m@[i as int].1@),
            None => map_exact(m@, s@) is None,
        },
{
    let mut i: usize = 0;
    assert(m@.skip(0) =~= m@);
    while i < m.len()
        invariant
            i <= m.len(),
            map_exact(m@, s@) == map_exact(m@.skip(i as int), s@),
        decreases m.len() - i,
    {
        assert(m@.skip(i as int)[0] == m@[i as int]);
        if crate::text::str_eq(m[i].0.as_str(), s) {
            return Some(i);
        }
        assert(m@.skip(i as int).drop_first() =~= m@.skip(i as int + 1));
        i = i + 1;
    }
    None
}

fn map_fuzzy_exec(m: &Vec<(String, String)>, s: &str) -> (r: Option<usize>)
    ensures
        match r {
            Some(i) => i < m.len() && map_fuzzy(m@, s@) == Some(m@[i as int].1@),
            None => map_fuzzy(m@, s@) is None,
        },
{
    let mut i: usize = 0;
    assert(m@.skip(0) =~= m@);
    while i < m.len()
        invariant
            i <= m.len(),
            map_fuzzy(m@, s@) == map_fuzzy(m@.skip(i as int), s@),
        decreases m.len() - i,
    {
        assert(m@.skip(i as int)[0] == m@[i as int]);
        let key = m[i].0.as_str();
        if crate::text::starts_with(s, key) || crate::text::starts_with(key, s) {
            return Some(i);
        }
        assert(m@.skip(i as int).drop_first() =~= m@.skip(i as int + 1));
        i = i + 1;
    }
    None
}

/// The attr the soname map gives for `s`.
pub fn lookup_soname(m: &Vec<(String, String)>, s: &str) -> (r: Option<String>)
    ensures
        match r {
            Some(a) => map_lookup(m@, s@) == Some(a@),
            None => map_lookup(m@, s@) is None,
        },
{
    match map_exact_exec(m, s) {
        Some(i) => Some(m[i].1.clone()),
        None => match map_fuzzy_exec(m, s) {
            Some(i) => Some(m[i].1.clone()),
            None => None,
        },
    }
}

fn listing_matches_exec(files: &Option<Vec<String>>, s: &str) -> (r: bool)
    ensures
        r == listing_matches(*files, s@),
{
    match files {
        None => false,
        Some(fs) => {
            let mut k: usize = 0;
            while k < fs.len()
                invariant
                    k <= fs.len(),
                    *files == Some(*fs),
                    forall|j: int| 0 <= j < k ==> !prefix_related(#[trigger] fs@[j]@, s@),
                decreases fs.len() - k,
            {
                let f = fs[k].as_str();
                if crate::text::starts_with(f, s) || crate::text::starts_with(s, f) {
                    assert(prefix_related(fs@[k as int]@, s@));
                    assert(*files == Some(*fs));
                    assert(prefix_related(files->0@[k as int]@, s@));
                    return true;
                }
                k = k + 1;
            }
            false
        },
    }
}

/// The attr of the first directory with a file matching soname `s`.
pub fn scan_for_soname(dirs: &Vec<RpathDir>, s: &str) -> (r: Option<String>)
    ensures
        match r {
            Some(a) => scan_attr(dirs@, s@) == Some(a@),
            None => scan_attr(dirs@, s@) is None,
        },
{
    let mut i: usize = 0;
    assert(dirs@.skip(0) =~= dirs@);
    while i < dirs.len()
        invariant
            i <= dirs.len(),
            scan_attr(dirs@, s@) == scan_attr(dirs@.skip(i as int), s@),
        decreases dirs.len() - i,
    {
        assert(dirs@.skip(i as int)[0] == dirs@[i as int]);
        if listing_matches_exec(&dirs[i].files, s) {
            return Some(dirs[i].attr.clone());
        }
        assert(dirs@.skip(i as int).drop_first() =~= dirs@.skip(i as int + 1));
        i = i + 1;
    }
    None
}

fn rpath_of_exec(dirs: &Vec<RpathDir>, a: &str) -> (r: Option<String>)
    ensures
        match r {
            Some(p) => rpath_of(dirs@, a@) == Some(p@),
            None => rpath_of(dirs@, a@) is None,
        },
{
    let mut i: usize = 0;
    assert(dirs@.skip(0) =~= dirs@);
    while i < dirs.len()
        invariant
            i <= dirs.len(),
            rpath_of(dirs@, a@) == rpath_of(dirs@.skip(i as int), a@),
        decreases dirs.len() - i,
    {
        assert(dirs@.skip(i as int)[0] == dirs@[i as int]);
        if crate::text::str_eq(dirs[i].attr.as_str(), a) {
            return Some(dirs[i].path.clone());
        }
        assert(dirs@.skip(i as int).drop_first() =~= dirs@.skip(i as int + 1));
        i = i + 1;
    }
    None
}

/// Whether a list of strings holds `s`.
pub fn holds_string(v: &Vec<String>, s: &str) -> (r: bool)
    ensures
        r == views(v@).contains(s@),
{
    let mut i: usize = 0;
    while i < v.len()
        invariant
            i <= v.len(),
            forall|k: int| 0 <= k < i ==> v@[k]@ != s@,
        decreases v.len() - i,
    {
        if crate::text::str_eq(v[i].as_str(), s) {
            assert(views(v@)[i as int] == s@);
            return true;
        }
        i = i + 1;
    }
    assert forall|k: int| 0 <= k < views(v@).len() implies views(v@)[k] != s@ by {
        assert(views(v@)[k] == v@[k]@);
    }
    false
}

fn add_attr_exec(nix_libs: &mut Vec<String>, rpaths: &mut Vec<String>, a: String, dirs: &Vec<RpathDir>)
    ensures
        (views(final(nix_libs)@), views(final(rpaths)@)) == add_attr(
            (views(old(nix_libs)@), views(old(rpaths)@)),
            a@,
            dirs@,
        ),
{
    if holds_string(nix_libs, a.as_str()) {
        return ;
    }
    let p = rpath_of_exec(dirs, a.as_str());
    let ghost av = a@;
    let ghost n0 = nix_libs@;
    let ghost r0 = rpaths@;
    nix_libs.push(a);
    assert(views(nix_libs@) =~= views(n0).push(av));
    match p {
        Some(path) => {
            rpaths.push(path);
            assert(views(rpaths@) =~= views(r0).push(rpaths@.last()@));
        },
        None => {},
    }
}

/// Resolves a binary's needed sonames to nixpkgs attrs and rpath entries:
/// the soname map first (exact entry, else a prefix match), then a scan of
/// the attrs' library directories for sonames the map does not know. When
/// some soname is resolved by neither, the libraries left over are returned.
pub fn resolve_binary(needed: &NeededLibs, soname_map: &Vec<(String, String)>, rpath_by_attr: &Vec<
    RpathDir,
>) -> (r: Result<ResolvedBinary, UnresolvedLibs>)
    ensures
        ({
            let (found, still) = resolution(soname_map@, rpath_by_attr@, views(needed.needed@));
            match r {
                Ok(rb) => still.len() == 0 && rb.needed@ == needed.needed@ && views(rb.nix_libs@)
                    == found.0 && views(rb.rpaths_added@) == found.1,
                Err(e) => still.len() > 0 && e.binary@ == needed.binary@ && views(e.libs@)
                    == still,
            }
        }),
{
    let ghost m = soname_map@;
    let ghost dirs = rpath_by_attr@;
    let ghost nd = views(needed.needed@);
    let mut nix_libs: Vec<String> = Vec::new();
    let mut rpaths: Vec<String> = Vec::new();
    let mut unresolved: Vec<String> = Vec::new();
    let mut i: usize = 0;
    while i < needed.needed.len()
        invariant
            i <= needed.needed.len(),
            nd == views(needed.needed@),
            m == soname_map@,
            dirs == rpath_by_attr@,
            ((views(nix_libs@), views(rpaths@)), views(unresolved@)) == map_pass(
                m,
                dirs,
                nd.take(i as int),
            ),
        decreases needed.needed.len() - i,
    {
        let s = needed.needed[i].as_str();
        assert(nd.take(i as int + 1).drop_last() =~= nd.take(i as int));
        assert(nd.take(i as int + 1).last() == s@);
        match lookup_soname(soname_map, s) {
            Some(a) => {
                add_attr_exec(&mut nix_libs, &mut rpaths, a, rpath_by_attr);
            },
            None => {
                let ghost u0 = unresolved@;
                unresolved.push(needed.needed[i].clone());
                assert(views(unresolved@) =~= views(u0).push(s@));
            },
        }
        i = i + 1;
    }
    assert(nd.take(needed.needed.len() as int) =~= nd);
    let ghost acc0 = (views(nix_libs@), views(rpaths@));
    let ghost un = views(unresolved@);
    let mut still: Vec<String> = Vec::new();
    let mut j: usize = 0;
    while j < unresolved.len()
        invariant
            j <= unresolved.len(),
            un == views(unresolved@),
            dirs == rpath_by_attr@,
            ((views(nix_libs@), views(rpaths@)), views(still@)) == scan_pass(
                dirs,
                acc0,
                un.take(j as int),
            ),
        decreases unresolved.len() - j,
    {
        let s = unresolved[j].as_str();
        assert(un.take(j as int + 1).drop_last() =~= un.take(j as int));
        assert(un.take(j as int + 1).last() == s@);
        match scan_for_soname(rpath_by_attr, s) {
            Some(a) => {
                add_attr_exec(&mut nix_libs, &mut rpaths, a, rpath_by_attr);
            },
            None => {
                let ghost s0 = still@;
                still.push(unresolved[j].clone());
                assert(views(still@) =~= views(s0).push(s@));
            },
        }
        j = j + 1;
    }
    assert(un.take(unresolved.len() as int) =~= un);
    if still.len() > 0 {
        return Err(UnresolvedLibs { binary: owned(needed.binary.as_str()), libs: still });
    }
    Ok(
        ResolvedBinary {
            needed: crate::config::clone_strings(&needed.needed),
            nix_libs,
            rpaths_added: rpaths,
        },
    )
}

/// One line per library: `  - <lib>`.
pub open spec fn lib_lines(libs: Seq<Seq<char>>) -> Seq<char>
    decreases libs.len(),
{
    if libs.len() == 0 {
        Seq::empty()
    } else {
        lib_lines(libs.drop_last()) + "  - "@ + libs.last() + "\n"@
    }
}

/// The advice given when libraries stay unresolved.
pub open spec fn unresolved_advice() -> Seq<char> {
    "\nThese libraries are not in the pre-compiled soname map and were not found\n"@
        + "in any resolved Nix library paths or bundled *.libs directories.\n\n"@
        + "To fix this, add the required nixpkgs attrs to your pyproject.toml:\n\n"@
        + "[tool.uv-nix]\n"@ + "extra-libraries = [\"<nixpkgs-attr>\"]\n\n"@
        + "Then run `just generate-soname-map` to update the soname cache."@
}

impl UnresolvedLibs {
    /// The error message.
    pub open spec fn message_text(self) -> Seq<char> {
        "Could not resolve shared libraries for:\n  "@ + self.binary@
            + "\n\nUnresolved libraries:\n"@ + lib_lines(views(self.libs@)) + unresolved_advice()
    }

    /// The error message, with instructions.
    pub fn message(&self) -> (r: String)
        ensures
            r@ == self.message_text(),
    {
        let mut out = String::new();
        out.append("Could not resolve shared libraries for:\n  ");
        out.append(self.binary.as_str());
        out.append("\n\nUnresolved libraries:\n");
        let ghost start = out@;
        let mut i: usize = 0;
        while i < self.libs.len()
            invariant
                i <= self.libs.len(),
                out@ == start + lib_lines(views(self.libs@).take(i as int)),
            decreases self.libs.len() - i,
        {
            out.append("  - ");
            out.append(self.libs[i].as_str());
            out.append("\n");
            proof {
                let t = views(self.libs@).take(i as int + 1);
                assert(t.drop_last() =~= views(self.libs@).take(i as int));
                assert(t.last() == self.libs@[i as int]@);
                assert(out@ =~= start + lib_lines(t));
            }
            i = i + 1;
        }
        assert(views(self.libs@).take(self.libs.len() as int) =~= views(self.libs@));
        let ghost mid = out@;
        out.append("\nThese libraries are not in the pre-compiled soname map and were not found\n");
        out.append("in any resolved Nix library paths or bundled *.libs directories.\n\n");
        out.append("To fix this, add the required nixpkgs attrs to your pyproject.toml:\n\n");
        out.append("[tool.uv-nix]\n");
        out.append("extra-libraries = [\"<nixpkgs-attr>\"]\n\n");
        out.append("Then run `just generate-soname-map` to update the soname cache.");
        assert(out@ =~= mid + unresolved_advice());
        assert(out@ =~= self.message_text());
        out
    }
}

// ---------------------------------------------------------------------------
// Reading needed libraries from tool output
// ---------------------------------------------------------------------------
/// A library reference read from a binary. `lib_name` is what the soname map
/// is asked for; when `check_local` holds and the library is found bundled
/// next to the binary, `install_name` counts as resolvable through the origin.
#[derive(Debug)]
pub struct NeededCandidate {
    pub install_name: String,
    pub lib_name: String,
    pub check_local: bool,
}

/// A candidate as plain values.
pub type CandidateView = (Seq<char>, Seq<char>, bool);

pub open spec fn candidate_views(v: Seq<NeededCandidate>) -> Seq<CandidateView> {
    v.map_values(|c: NeededCandidate| (c.install_name@, c.lib_name@, c.check_local))
}

/// `patchelf --print-needed` output: one soname per line; blank lines and
/// kernel virtual DSOs are left out. Every soname may be bundled.
pub open spec fn elf_candidates(ls: Seq<Seq<char>>) -> Seq<CandidateView>
    decreases ls.len(),
{
    if ls.len() == 0 {
        Seq::empty()
    } else {
        let r = elf_candidates(ls.drop_last());
        let t = crate::text::trim(ls.last());
        if t.len() > 0 && !system_lib(t, false) {
            r.push((t, t, true))
        } else {
            r
        }
    }
}

/// The path components that name something (`Path::components` without the
/// empty and `.` ones).
pub open spec fn named_components(parts: Seq<Seq<char>>) -> Seq<Seq<char>>
    decreases parts.len(),
{
    if parts.len() == 0 {
        Seq::empty()
    } else {
        let r = named_components(parts.drop_last());
        if parts.last().len() == 0 || parts.last() == seq!['.'] {
            r
        } else {
            r.push(parts.last())
        }
    }
}

/// `Path::file_name`: the last component, unless it is `..` or there is none.
pub open spec fn file_name(p: Seq<char>) -> Option<Seq<char>> {
    let cs = named_components(crate::text::split_on(p, '/'));
    if cs.len() == 0 || cs.last() == seq!['.', '.'] {
        None
    } else {
        Some(cs.last())
    }
}

/// The install name on an `otool -L` line: what precedes ` (compatibility`.
pub open spec fn install_name_of(line: Seq<char>) -> Seq<char> {
    crate::text::trim(crate::text::first_piece(crate::text::trim(line), " (compatibility"@))
}

/// `otool -L` output after its first line: the binary's own install name
/// (the first entry, when it ends with the binary's file name) and system
/// libraries are left out; `@rpath/` and `@loader_path/` references may be
/// bundled; the soname map is asked for the file name. The flag tells
/// whether the first entry has been seen.
pub open spec fn macho_candidates(ls: Seq<Seq<char>>, bin_name: Option<Seq<char>>) -> (
    Seq<CandidateView>,
    bool,
)
    decreases ls.len(),
{
    if ls.len() == 0 {
        (Seq::empty(), false)
    } else {
        let (r, seen) = macho_candidates(ls.drop_last(), bin_name);
        let t = crate::text::trim(ls.last());
        let name = install_name_of(ls.last());
        let lib = crate::text::last_piece(name, '/');
        if t.len() == 0 {
            (r, seen)
        } else if !seen && bin_name is Some && crate::text::has_suffix(name, bin_name->0) {
            (r, true)
        } else if system_lib(name, true) {
            (r, true)
        } else if crate::text::has_prefix(name, "@rpath/"@) || crate::text::has_prefix(
            name,
            "@loader_path/"@,
        ) {
            (r.push((name, lib, true)), true)
        } else {
            (r.push((name, lib, false)), true)
        }
    }
}

/// The library references of a binary, read from the output of
/// `otool -L` (macOS) or `patchelf --print-needed` (Linux).
pub open spec fn needed_candidates(binary: Seq<char>, output: Seq<char>, is_darwin: bool) -> Seq<
    CandidateView,
> {
    let ls = crate::text::lines_of(output);
    if is_darwin {
        let rest = if ls.len() > 0 {
            ls.drop_first()
        } else {
            ls
        };
        macho_candidates(rest, file_name(binary)).0
    } else {
        elf_candidates(ls)
    }
}

/// A line whose install name is not empty is not blank.
proof fn lemma_named_line_not_blank(line: Seq<char>)
    requires
        install_name_of(line).len() > 0,
    ensures
        crate::text::trim(line).len() > 0,
{
    let e = Seq::<char>::empty();
    if crate::text::trim(line).len() == 0 {
        assert(crate::text::trim(line) =~= e);
        assert(crate::text::first_piece(e, " (compatibility"@) == e);
        assert(crate::text::trim_start(e) == e);
        assert(crate::text::trim_end(e) == e);
    }
}

/// What `otool -L` output yields: each candidate names the file its install
/// name ends in, and may be bundled exactly when its install name lies under
/// `@rpath/` or `@loader_path/`; and every reference under one of those two
/// (not a system library, not the binary's own install name) is a candidate
/// that may be bundled.
pub proof fn lemma_macho_bundled_candidates(ls: Seq<Seq<char>>, bin_name: Option<Seq<char>>)
    ensures
        forall|k: int|
            0 <= k < macho_candidates(ls, bin_name).0.len() ==> {
                let c = #[trigger] macho_candidates(ls, bin_name).0[k];
                &&& c.1 == crate::text::last_piece(c.0, '/')
                &&& (c.2 <==> (crate::text::has_prefix(c.0, "@rpath/"@) || crate::text::has_prefix(
                    c.0,
                    "@loader_path/"@,
                )))
            },
        forall|j: int|
            0 <= j < ls.len() ==> {
                let name = install_name_of(#[trigger] ls[j]);
                (crate::text::has_prefix(name, "@rpath/"@) || crate::text::has_prefix(
                    name,
                    "@loader_path/"@,
                )) && !system_lib(name, true) && (bin_name is None || !crate::text::has_suffix(
                    name,
                    bin_name->0,
                )) ==> macho_candidates(ls, bin_name).0.contains(
                    (name, crate::text::last_piece(name, '/'), true),
                )
            },
    decreases ls.len(),
{
    if ls.len() > 0 {
        let init = ls.drop_last();
        lemma_macho_bundled_candidates(init, bin_name);
        let r = macho_candidates(init, bin_name).0;
        let res = macho_candidates(ls, bin_name).0;
        let name = install_name_of(ls.last());
        assert(res == r || res == r.push(
            (name, crate::text::last_piece(name, '/'), res.last().2),
        ));
        assert forall|k: int| 0 <= k < res.len() implies {
            let c = #[trigger] res[k];
            &&& c.1 == crate::text::last_piece(c.0, '/')
            &&& (c.2 <==> (crate::text::has_prefix(c.0, "@rpath/"@) || crate::text::has_prefix(
                c.0,
                "@loader_path/"@,
            )))
        } by {
            if k < r.len() {
                assert(res[k] == r[k]);
            }
        }
        assert forall|j: int| 0 <= j < ls.len() && {
            let nm = install_name_of(#[trigger] ls[j]);
            (crate::text::has_prefix(nm, "@rpath/"@) || crate::text::has_prefix(nm, "@loader_path/"@))
                && !system_lib(nm, true) && (bin_name is None || !crate::text::has_suffix(
                nm,
                bin_name->0,
            ))
        } implies res.contains(
            (install_name_of(ls[j]), crate::text::last_piece(install_name_of(ls[j]), '/'), true),
        ) by {
            let x = (install_name_of(ls[j]), crate::text::last_piece(install_name_of(ls[j]), '/'), true);
            if j < ls.len() - 1 {
                assert(ls[j] == init[j]);
                assert(r.contains(x));
                let w = choose|w: int| 0 <= w < r.len() && r[w] == x;
                assert(res[w] == r[w]);
            } else {
                assert(ls[j] == ls.last());
                reveal_strlit("@rpath/");
                reveal_strlit("@loader_path/");
                lemma_named_line_not_blank(ls.last());
                assert(res[res.len() - 1] == x);
            }
        }
    }
}

/// `Path::file_name` of a path.
pub fn file_name_exec(p: &str) -> (r: Option<String>)
    ensures
        match r {
            Some(n) => file_name(p@) == Some(n@),
            None => file_name(p@) is None,
        },
{
    let parts = crate::text::split_char(p, '/');
    let ghost ps = views(parts@);
    let mut named: Vec<String> = Vec::new();
    let mut i: usize = 0;
    while i < parts.len()
        invariant
            i <= parts.len(),
            ps == views(parts@),
            views(named@) == named_components(ps.take(i as int)),
        decreases parts.len() - i,
    {
        let part = parts[i].as_str();
        assert(ps.take(i as int + 1).drop_last() =~= ps.take(i as int));
        assert(ps.take(i as int + 1).last() == part@);
        let dot = crate::text::str_eq(part, ".");
        proof {
            reveal_strlit(".");
            assert("."@ =~= seq!['.']);
        }
        if !(part.is_empty() || dot) {
            let ghost n0 = named@;
            named.push(owned(part));
            assert(views(named@) =~= views(n0).push(part@));
        }
        i = i + 1;
    }
    assert(ps.take(parts.len() as int) =~= ps);
    if named.len() == 0 {
        return None;
    }
    let n = named.len();
    let last = named.remove(n - 1);
    proof {
        reveal_strlit("..");
        assert(".."@ =~= seq!['.', '.']);
    }
    if crate::text::str_eq(last.as_str(), "..") {
        None
    } else {
        Some(last)
    }
}

fn elf_candidates_exec(ls: &Vec<String>) -> (r: Vec<NeededCandidate>)
    ensures
        candidate_views(r@) == elf_candidates(views(ls@)),
{
    let ghost lv = views(ls@);
    let mut r: Vec<NeededCandidate> = Vec::new();
    let mut i: usize = 0;
    while i < ls.len()
        invariant
            i <= ls.len(),
            lv == views(ls@),
            candidate_views(r@) == elf_candidates(lv.take(i as int)),
        decreases ls.len() - i,
    {
        assert(lv.take(i as int + 1).drop_last() =~= lv.take(i as int));
        assert(lv.take(i as int + 1).last() == ls@[i as int]@);
        let t = crate::text::trim_string(ls[i].as_str());
        if !t.as_str().is_empty() && !is_system_lib(t.as_str(), false) {
            let ghost r0 = r@;
            let c = NeededCandidate { install_name: owned(t.as_str()), lib_name: t, check_local: true };
            r.push(c);
            assert(candidate_views(r@) =~= candidate_views(r0).push((c.install_name@, c.lib_name@, true)));
        }
        i = i + 1;
    }
    assert(lv.take(ls.len() as int) =~= lv);
    r
}

fn macho_candidates_exec(ls: &Vec<String>, start: usize, bin_name: &Option<String>) -> (r: Vec<
    NeededCandidate,
>)
    requires
        start <= ls.len(),
    ensures
        candidate_views(r@) == macho_candidates(
            views(ls@).skip(start as int),
            match bin_name {
                Some(b) => Some(b@),
                None => None,
            },
        ).0,
{
    let ghost lv = views(ls@).skip(start as int);
    let ghost bn = match bin_name {
        Some(b) => Some(b@),
        None => None,
    };
    let mut r: Vec<NeededCandidate> = Vec::new();
    let mut seen = false;
    let mut i: usize = start;
    assert(lv.take(0) =~= Seq::<Seq<char>>::empty());
    while i < ls.len()
        invariant
            start <= i <= ls.len(),
            lv == views(ls@).skip(start as int),
            bn == match bin_name {
                Some(b) => Some(b@),
                None => None,
            },
            (candidate_views(r@), seen) == macho_candidates(lv.take(i - start), bn),
        decreases ls.len() - i,
    {
        let ghost k = i - start;
        assert(lv.take(k + 1).drop_last() =~= lv.take(k));
        assert(lv.take(k + 1).last() == ls@[i as int]@);
        let line = ls[i].as_str();
        let t = crate::text::trim_string(line);
        if !t.as_str().is_empty() {
            let piece = crate::text::split_first(t.as_str(), " (compatibility");
            let name = crate::text::trim_string(piece.as_str());
            let lib = crate::text::split_last(name.as_str(), '/');
            let own = match bin_name {
                Some(b) => !seen && crate::text::ends_with(name.as_str(), b.as_str()),
                None => false,
            };
            if own {
                seen = true;
            } else if is_system_lib(name.as_str(), true) {
                seen = true;
            } else {
                let local = crate::text::starts_with(name.as_str(), "@rpath/")
                    || crate::text::starts_with(name.as_str(), "@loader_path/");
                let ghost r0 = r@;
                let c = NeededCandidate { install_name: name, lib_name: lib, check_local: local };
                r.push(c);
                assert(candidate_views(r@) =~= candidate_views(r0).push(
                    (c.install_name@, c.lib_name@, local),
                ));
                seen = true;
            }
        }
        i = i + 1;
    }
    assert(lv.take(ls.len() - start) =~= lv);
    r
}

/// The library references of a binary, read from the output of `otool -L`
/// (macOS) or `patchelf --print-needed` (Linux). Whether a reference is
/// bundled with the wheel is settled afterwards, by `classify_needed`.
pub fn read_needed_libs(binary: &str, tool_output: &str, is_darwin: bool) -> (r: Vec<
    NeededCandidate,
>)
    ensures
        candidate_views(r@) == needed_candidates(binary@, tool_output@, is_darwin),
{
    let ls = crate::text::lines(tool_output);
    if is_darwin {
        let bin_name = file_name_exec(binary);
        let start: usize = if ls.len() > 0 {
            1
        } else {
            0
        };
        if ls.len() > 0 {
            assert(views(ls@).skip(1) =~= views(ls@).drop_first());
        } else {
            assert(views(ls@).skip(0) =~= views(ls@));
        }
        macho_candidates_exec(&ls, start, &bin_name)
    } else {
        elf_candidates_exec(&ls)
    }
}

/// Sorts the candidates into the needed and the bundled, given for each
/// whether it was found next to the binary.
pub open spec fn classify(cands: Seq<CandidateView>, local: Seq<bool>) -> (Seq<Seq<char>>, Seq<
    Seq<char>,
>)
    decreases cands.len(),
{
    if cands.len() == 0 {
        (Seq::empty(), Seq::empty())
    } else {
        let (needed, origin) = classify(cands.drop_last(), local.take(cands.len() - 1));
        let c = cands.last();
        if c.2 && local[cands.len() - 1] {
            (needed, origin.push(c.0))
        } else {
            (needed.push(c.1), origin)
        }
    }
}

/// The needed libraries of a binary: each candidate found bundled is
/// resolvable through the origin, every other one needs Nix resolution.
pub fn classify_needed(binary: &str, cands: &Vec<NeededCandidate>, local: &Vec<bool>) -> (r:
    NeededLibs)
    requires
        local.len() == cands.len(),
    ensures
        r.binary@ == binary@,
        (views(r.needed@), views(r.origin_resolvable@)) == classify(candidate_views(cands@), local@),
{
    let ghost cv = candidate_views(cands@);
    let mut needed: Vec<String> = Vec::new();
    let mut origin: Vec<String> = Vec::new();
    let mut i: usize = 0;
    while i < cands.len()
        invariant
            i <= cands.len(),
            local.len() == cands.len(),
            cv == candidate_views(cands@),
            (views(needed@), views(origin@)) == classify(cv.take(i as int), local@.take(i as int)),
        decreases cands.len() - i,
    {
        assert(cv.take(i as int + 1).drop_last() =~= cv.take(i as int));
        assert(local@.take(i as int + 1).take(i as int) =~= local@.take(i as int));
        assert(cv.take(i as int + 1).last() == cv[i as int]);
        let c = &cands[i];
        if c.check_local && local[i] {
            let ghost o0 = origin@;
            origin.push(c.install_name.clone());
            assert(views(origin@) =~= views(o0).push(c.install_name@));
        } else {
            let ghost n0 = needed@;
            needed.push(c.lib_name.clone());
            assert(views(needed@) =~= views(n0).push(c.lib_name@));
        }
        i = i + 1;
    }
    assert(cv.take(cands.len() as int) =~= cv);
    assert(local@.take(cands.len() as int) =~= local@);
    NeededLibs { binary: owned(binary), needed, origin_resolvable: origin }
}

// ---------------------------------------------------------------------------
// Planning the patches of installed packages
// ---------------------------------------------------------------------------
/// The native binaries of one installed package.
#[derive(Debug)]
pub struct PackageBinaries {
    /// Normalized package name.
    pub name: String,
    /// Package version.
    pub version: String,
    /// Paths of its native binaries.
    pub binaries: Vec<String>,
}

/// The patch planned for one binary.
#[derive(Debug)]
pub struct BinaryPatchPlan {
    /// The binary.
    pub binary: String,
    /// Only the rpath entries this binary needs.
    pub rpaths: Vec<String>,
    /// Whether it has bundled dependencies (needs `$ORIGIN` in its rpath).
    pub needs_origin: bool,
    /// The resolution, as recorded in the manifest.
    pub resolved: ResolvedBinary,
}

/// A resolution as plain values: needed, attrs, rpaths.
pub type ResolvedView = (Seq<Seq<char>>, Seq<Seq<char>>, Seq<Seq<char>>);

pub open spec fn resolved_view(r: ResolvedBinary) -> ResolvedView {
    (views(r.needed@), views(r.nix_libs@), views(r.rpaths_added@))
}

/// A plan as plain values.
pub type PlanView = (Seq<char>, Seq<Seq<char>>, bool, ResolvedView);

pub open spec fn plan_views(v: Seq<BinaryPatchPlan>) -> Seq<PlanView> {
    v.map_values(
        |p: BinaryPatchPlan| (p.binary@, views(p.rpaths@), p.needs_origin, resolved_view(p.resolved)),
    )
}

/// The resolution of one binary, when its libraries could be read, it has
/// any, and all of them resolve.
pub open spec fn binary_resolution(n: Option<NeededLibs>, m: Seq<(String, String)>, dirs: Seq<
    RpathDir,
>) -> Option<ResolvedView> {
    match n {
        None => None,
        Some(nl) => if nl.needed@.len() == 0 && nl.origin_resolvable@.len() == 0 {
            None
        } else {
            let (found, still) = resolution(m, dirs, views(nl.needed@));
            if still.len() > 0 {
                None
            } else {
                Some((views(nl.needed@), found.0, found.1))
            }
        },
    }
}

/// Whether a binary has bundled dependencies.
pub open spec fn has_origin_deps(n: Option<NeededLibs>) -> bool {
    match n {
        Some(nl) => nl.origin_resolvable@.len() > 0,
        None => false,
    }
}

/// A directory path without its trailing separators.
pub open spec fn without_trailing_slashes(d: Seq<char>) -> Seq<char>
    decreases d.len(),
{
    if d.len() > 0 && d.last() == '/' {
        without_trailing_slashes(d.drop_last())
    } else {
        d
    }
}

/// A path relative to a directory (`Path::strip_prefix`, the whole path when
/// it does not lie under the directory). A trailing separator of the directory
/// names no component of its own, and an empty directory is a prefix of every
/// path.
pub open spec fn rel_path(b: Seq<char>, dir: Seq<char>) -> Seq<char> {
    let d = without_trailing_slashes(dir);
    if dir.len() == 0 {
        b
    } else if b == d {
        Seq::empty()
    } else if crate::text::has_prefix(b, d + seq!['/']) {
        b.skip(d.len() + 1int)
    } else {
        b
    }
}

/// The plans of one package's binaries, in order.
pub open spec fn package_plans(bins: Seq<String>, needs: Seq<Option<NeededLibs>>, m: Seq<
    (String, String),
>, dirs: Seq<RpathDir>) -> Seq<PlanView>
    decreases bins.len(),
{
    if bins.len() == 0 || needs.len() != bins.len() {
        Seq::empty()
    } else {
        let r = package_plans(bins.drop_last(), needs.drop_last(), m, dirs);
        match binary_resolution(needs.last(), m, dirs) {
            Some(rv) => r.push((bins.last()@, rv.2, has_origin_deps(needs.last()), rv)),
            None => r,
        }
    }
}

/// The manifest entries of one package's binaries: relative path to resolution.
pub open spec fn package_patches(bins: Seq<String>, needs: Seq<Option<NeededLibs>>, site: Seq<char>, m: Seq<
    (String, String),
>, dirs: Seq<RpathDir>) -> Map<Seq<char>, ResolvedView>
    decreases bins.len(),
{
    if bins.len() == 0 || needs.len() != bins.len() {
        Map::empty()
    } else {
        let r = package_patches(bins.drop_last(), needs.drop_last(), site, m, dirs);
        match binary_resolution(needs.last(), m, dirs) {
            Some(rv) => r.insert(rel_path(bins.last()@, site), rv),
            None => r,
        }
    }
}

/// The plans of all packages, in order.
pub open spec fn all_plans(pkgs: Seq<PackageBinaries>, needs: Seq<Vec<Option<NeededLibs>>>, m: Seq<
    (String, String),
>, dirs: Seq<RpathDir>) -> Seq<PlanView>
    decreases pkgs.len(),
{
    if pkgs.len() == 0 || needs.len() != pkgs.len() {
        Seq::empty()
    } else {
        all_plans(pkgs.drop_last(), needs.drop_last(), m, dirs) + package_plans(
            pkgs.last().binaries@,
            needs.last()@,
            m,
            dirs,
        )
    }
}

/// Package patch information as plain values: version and patches.
pub type InfoView = (Seq<char>, Map<Seq<char>, ResolvedView>);

pub open spec fn info_view(i: PackagePatchInfo) -> InfoView {
    (i.version@, i.patch_map().map_values(|r: ResolvedBinary| resolved_view(r)))
}

/// The manifest's packages as plain values.
pub open spec fn manifest_packages_view(m: PatchManifest) -> Map<Seq<char>, InfoView> {
    m.package_map().map_values(|i: PackagePatchInfo| info_view(i))
}

/// The manifest after each package's entry was replaced in turn.
pub open spec fn planned_manifest(start: Map<Seq<char>, InfoView>, pkgs: Seq<PackageBinaries>, needs: Seq<
    Vec<Option<NeededLibs>>,
>, site: Seq<char>, m: Seq<(String, String)>, dirs: Seq<RpathDir>) -> Map<Seq<char>, InfoView>
    decreases pkgs.len(),
{
    if pkgs.len() == 0 || needs.len() != pkgs.len() {
        start
    } else {
        planned_manifest(start, pkgs.drop_last(), needs.drop_last(), site, m, dirs).insert(
            pkgs.last().name@,
            (pkgs.last().version@, package_patches(pkgs.last().binaries@, needs.last()@, site, m, dirs)),
        )
    }
}

/// `rel_path`.
pub fn relative_path(b: &str, dir: &str) -> (r: String)
    ensures
        r@ == rel_path(b@, dir@),
{
    if dir.unicode_len() == 0 {
        return owned(b);
    }
    let dv = crate::text::chars_of(dir);
    let mut n: usize = dv.len();
    assert(dv@.subrange(0, n as int) =~= dv@);
    while n > 0 && dv[n - 1] == '/'
        invariant
            n <= dv.len(),
            without_trailing_slashes(dv@) == without_trailing_slashes(dv@.subrange(0, n as int)),
        decreases n,
    {
        assert(dv@.subrange(0, n as int).drop_last() =~= dv@.subrange(0, n - 1));
        n = n - 1;
    }
    assert(without_trailing_slashes(dv@.subrange(0, n as int)) == dv@.subrange(0, n as int));
    let d = crate::text::string_from_chars(dv.as_slice().split_at(n).0);
    assert(d@ =~= without_trailing_slashes(dir@));
    if crate::text::str_eq(b, d.as_str()) {
        return String::new();
    }
    let mut prefix = owned(d.as_str());
    crate::text::push_char(&mut prefix, '/');
    assert(prefix@ =~= d@ + seq!['/']);
    if crate::text::starts_with(b, prefix.as_str()) {
        let v = crate::text::chars_of(b);
        let k = prefix.as_str().unicode_len();
        let rest = crate::text::string_from_chars(v.as_slice().split_at(k).1);
        assert(v@.subrange(k as int, v@.len() as int) =~= b@.skip(k as int));
        rest
    } else {
        owned(b)
    }
}

/// Inserting into a map and then viewing its values is viewing and then inserting.
proof fn lemma_map_values_insert<V, W>(m: Map<Seq<char>, V>, k: Seq<char>, v: V, f: spec_fn(V) -> W)
    ensures
        m.insert(k, v).map_values(f) == m.map_values(f).insert(k, f(v)),
{
    assert(m.insert(k, v).map_values(f) =~= m.map_values(f).insert(k, f(v)));
}

fn plan_package(
    site_packages: &str,
    pkg: &PackageBinaries,
    needs: &Vec<Option<NeededLibs>>,
    platform_map: &Vec<(String, String)>,
    rpath_by_attr: &Vec<RpathDir>,
    plans: &mut Vec<BinaryPatchPlan>,
) -> (info: PackagePatchInfo)
    requires
        needs.len() == pkg.binaries.len(),
    ensures
        info.wf(),
        info_view(info) == (pkg.version@, package_patches(
            pkg.binaries@,
            needs@,
            site_packages@,
            platform_map@,
            rpath_by_attr@,
        )),
        plan_views(final(plans)@) == plan_views(old(plans)@) + package_plans(
            pkg.binaries@,
            needs@,
            platform_map@,
            rpath_by_attr@,
        ),
{
    let ghost m = platform_map@;
    let ghost dirs = rpath_by_attr@;
    let ghost site = site_packages@;
    let ghost p0 = plan_views(plans@);
    let mut info = PackagePatchInfo::new(pkg.version.as_str());
    let mut j: usize = 0;
    assert(info.patch_map() =~= Map::<Seq<char>, ResolvedBinary>::empty());
    assert(info.patch_map().map_values(|r: ResolvedBinary| resolved_view(r)) =~= Map::<
        Seq<char>,
        ResolvedView,
    >::empty());
    while j < pkg.binaries.len()
        invariant
            j <= pkg.binaries.len(),
            needs.len() == pkg.binaries.len(),
            m == platform_map@,
            dirs == rpath_by_attr@,
            site == site_packages@,
            info.wf(),
            info_view(info) == (pkg.version@, package_patches(
                pkg.binaries@.take(j as int),
                needs@.take(j as int),
                site,
                m,
                dirs,
            )),
            plan_views(plans@) == p0 + package_plans(
                pkg.binaries@.take(j as int),
                needs@.take(j as int),
                m,
                dirs,
            ),
        decreases pkg.binaries.len() - j,
    {
        let ghost bt = pkg.binaries@.take(j as int + 1);
        let ghost nt = needs@.take(j as int + 1);
        assert(bt.drop_last() =~= pkg.binaries@.take(j as int));
        assert(nt.drop_last() =~= needs@.take(j as int));
        assert(bt.last() == pkg.binaries@[j as int]);
        assert(nt.last() == needs@[j as int]);
        match &needs[j] {
            None => {},
            Some(nl) => {
                if nl.needed.len() == 0 && nl.origin_resolvable.len() == 0 {
                } else {
                    match resolve_binary(nl, platform_map, rpath_by_attr) {
                        Err(_) => {},
                        Ok(resolved) => {
                            let binary = pkg.binaries[j].as_str();
                            let rel = relative_path(binary, site_packages);
                            let copy = resolved.duplicate();
                            let ghost rv = resolved_view(resolved);
                            let ghost pm0 = info.patch_map();
                            let ghost relv = rel@;
                            info.insert_patch(rel, copy);
                            proof {
                                lemma_map_values_insert(
                                    pm0,
                                    relv,
                                    copy,
                                    |r: ResolvedBinary| resolved_view(r),
                                );
                                assert(resolved_view(copy) == rv);
                            }
                            let rpaths = crate::config::clone_strings(&resolved.rpaths_added);
                            let ghost pl0 = plans@;
                            let plan = BinaryPatchPlan {
                                binary: owned(binary),
                                rpaths,
                                needs_origin: nl.origin_resolvable.len() > 0,
                                resolved,
                            };
                            plans.push(plan);
                            assert(plan_views(plans@) =~= plan_views(pl0).push(
                                (binary@, rv.2, has_origin_deps(needs@[j as int]), rv),
                            ));
                        },
                    }
                }
            },
        }
        j = j + 1;
    }
    assert(pkg.binaries@.take(pkg.binaries.len() as int) =~= pkg.binaries@);
    assert(needs@.take(needs.len() as int) =~= needs@);
    info
}

/// Plans the patch of every binary of the given packages and records the
/// outcome in the manifest: each binary gets only the rpaths of the libraries
/// it needs. `needs[i][j]` is what was read from binary `j` of package `i`
/// (`None` when reading failed); binaries whose libraries cannot all be
/// resolved are left out. Each package's manifest entry is replaced.
pub fn plan_patches(
    site_packages: &str,
    packages: &Vec<PackageBinaries>,
    needs: &Vec<Vec<Option<NeededLibs>>>,
    platform_map: &Vec<(String, String)>,
    rpath_by_attr: &Vec<RpathDir>,
    nixpkgs_rev: &str,
    manifest: PatchManifest,
) -> (r: (Vec<BinaryPatchPlan>, PatchManifest))
    requires
        manifest.wf(),
        needs.len() == packages.len(),
        forall|i: int|
            0 <= i < packages.len() ==> (#[trigger] needs@[i]).len() == packages@[i].binaries.len(),
    ensures
        r.1.wf(),
        r.1.nixpkgs_rev@ == nixpkgs_rev@,
        plan_views(r.0@) == all_plans(packages@, needs@, platform_map@, rpath_by_attr@),
        manifest_packages_view(r.1) == planned_manifest(
            manifest_packages_view(manifest),
            packages@,
            needs@,
            site_packages@,
            platform_map@,
            rpath_by_attr@,
        ),
{
    let mut manifest = manifest;
    let ghost start = manifest_packages_view(manifest);
    manifest.nixpkgs_rev = owned(nixpkgs_rev);
    let mut plans: Vec<BinaryPatchPlan> = Vec::new();
    let mut i: usize = 0;
    assert(plan_views(plans@) =~= Seq::<PlanView>::empty());
    while i < packages.len()
        invariant
            i <= packages.len(),
            needs.len() == packages.len(),
            forall|k: int|
                0 <= k < packages.len() ==> (#[trigger] needs@[k]).len()
                    == packages@[k].binaries.len(),
            manifest.wf(),
            manifest.nixpkgs_rev@ == nixpkgs_rev@,
            plan_views(plans@) == all_plans(
                packages@.take(i as int),
                needs@.take(i as int),
                platform_map@,
                rpath_by_attr@,
            ),
            manifest_packages_view(manifest) == planned_manifest(
                start,
                packages@.take(i as int),
                needs@.take(i as int),
                site_packages@,
                platform_map@,
                rpath_by_attr@,
            ),
        decreases packages.len() - i,
    {
        let ghost pt = packages@.take(i as int + 1);
        let ghost nt = needs@.take(i as int + 1);
        assert(pt.drop_last() =~= packages@.take(i as int));
        assert(nt.drop_last() =~= needs@.take(i as int));
        assert(pt.last() == packages@[i as int]);
        assert(nt.last() == needs@[i as int]);
        assert(needs@[i as int].len() == packages@[i as int].binaries.len());
        let pkg = &packages[i];
        let info = plan_package(
            site_packages,
            pkg,
            &needs[i],
            platform_map,
            rpath_by_attr,
            &mut plans,
        );
        let ghost pm0 = manifest.package_map();
        let ghost iv = info_view(info);
        let ghost nm = pkg.name@;
        manifest.upsert_package(pkg.name.clone(), info);
        proof {
            lemma_map_values_insert(pm0, nm, info, |x: PackagePatchInfo| info_view(x));
        }
        i = i + 1;
    }
    assert(packages@.take(packages.len() as int) =~= packages@);
    assert(needs@.take(needs.len() as int) =~= needs@);
    (plans, manifest)
}

// ---------------------------------------------------------------------------
// Generating the soname map
// ---------------------------------------------------------------------------
/// A file in a library attr's `lib/` directory: its name and whether it is a
/// symlink.
#[derive(Debug)]
pub struct LibDirEntry {
    pub name: String,
    pub is_symlink: bool,
}

/// Whether a `lib/` entry provides a soname: a shared library (`.so`, or
/// `.dylib` on Darwin), leaving out unversioned development symlinks
/// (`libz.so` → `libz.so.1`).
pub open spec fn soname_entry_spec(name: Seq<char>, is_symlink: bool, is_darwin: bool) -> bool {
    let ext = if is_darwin {
        ".dylib"@
    } else {
        ".so"@
    };
    contains_seq(name, ext) && !(is_symlink && ((!is_darwin && crate::text::has_suffix(name, ".so"@))
        || (is_darwin && crate::text::has_suffix(name, ".dylib"@) && !name.contains('.'))))
}

/// Whether a `lib/` entry goes into the soname map.
pub fn soname_entry_included(name: &str, is_symlink: bool, is_darwin: bool) -> (r: bool)
    ensures
        r == soname_entry_spec(name@, is_symlink, is_darwin),
{
    let ext = if is_darwin {
        ".dylib"
    } else {
        ".so"
    };
    if !contains(name, ext) {
        return false;
    }
    if is_symlink {
        if !is_darwin && crate::text::ends_with(name, ".so") {
            return false;
        }
        if is_darwin && crate::text::ends_with(name, ".dylib") && !crate::text::contains_char(name, '.') {
            return false;
        }
    }
    true
}

/// The expression that gives the store path of a library attr.
pub open spec fn soname_eval_text(pkgs_expr: Seq<char>, attr: Seq<char>) -> Seq<char> {
    "let pkgs = "@ + pkgs_expr + "; in (builtins.toString (pkgs.lib.getAttrFromPath (pkgs.lib.splitString \".\" \""@
        + attr + "\") pkgs))"@
}

/// The expression `nix eval --raw` evaluates for a library attr.
pub fn soname_eval_expr(pkgs_expr: &str, attr: &str) -> (r: String)
    ensures
        r@ == soname_eval_text(pkgs_expr@, attr@),
{
    let mut r = owned("let pkgs = ");
    r.append(pkgs_expr);
    r.append("; in (builtins.toString (pkgs.lib.getAttrFromPath (pkgs.lib.splitString \".\" \"");
    r.append(attr);
    r.append("\") pkgs))");
    r
}

/// A soname map as plain values.
pub open spec fn soname_view(v: Seq<(String, String)>) -> Map<Seq<char>, Seq<char>> {
    pairs_map(v).map_values(|s: String| s@)
}

/// The soname map after the entries of an attr's `lib/` directory, in order:
/// each soname provided maps to the attr (a later attr takes a soname over).
pub open spec fn with_attr_sonames(
    m: Map<Seq<char>, Seq<char>>,
    attr: Seq<char>,
    entries: Seq<LibDirEntry>,
    is_darwin: bool,
) -> Map<Seq<char>, Seq<char>>
    decreases entries.len(),
{
    if entries.len() == 0 {
        m
    } else {
        let before = with_attr_sonames(m, attr, entries.drop_last(), is_darwin);
        let e = entries.last();
        if soname_entry_spec(e.name@, e.is_symlink, is_darwin) {
            before.insert(e.name@, attr)
        } else {
            before
        }
    }
}

/// Adds the sonames an attr's `lib/` directory provides to the map.
pub fn add_attr_sonames(map: &mut Vec<(String, String)>, attr: &str, entries: &Vec<LibDirEntry>, is_darwin: bool)
    requires
        strictly_sorted(keys_of(old(map)@)),
    ensures
        strictly_sorted(keys_of(final(map)@)),
        soname_view(final(map)@) == with_attr_sonames(soname_view(old(map)@), attr@, entries@, is_darwin),
{
    let ghost m0 = soname_view(map@);
    let mut i: usize = 0;
    while i < entries.len()
        invariant
            i <= entries.len(),
            strictly_sorted(keys_of(map@)),
            soname_view(map@) == with_attr_sonames(m0, attr@, entries@.take(i as int), is_darwin),
        decreases entries.len() - i,
    {
        let e = &entries[i];
        proof {
            assert(entries@.take(i as int + 1).drop_last() =~= entries@.take(i as int));
        }
        if soname_entry_included(e.name.as_str(), e.is_symlink, is_darwin) {
            let ghost before = map@;
            let v = owned(attr);
            let ghost vv = v;
            upsert(map, e.name.clone(), v);
            assert(soname_view(map@) =~= soname_view(before).insert(e.name@, attr@));
        }
        i = i + 1;
    }
    assert(entries@.take(entries.len() as int) =~= entries@);
}

} // verus!
