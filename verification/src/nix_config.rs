//! The Nix paths every hook needs (patcher, interpreter, rpath, ...), resolved
//! by one `nix build` of a generated expression and cached by a key over the
//! nixpkgs source and the embedded library lists.
use vstd::prelude::*;

use crate::cache::{hex_of, push_utf8, sha256_hex, sha256_of, utf8};
use crate::sorted::{members, strictly_sorted};
use crate::text::{join_strings, join_with, owned, views};

verus! {

/// The default runtime libraries (`data/default-libs.json`).
#[derive(Debug)]
pub struct DefaultLibsConfig {
    /// Libraries of every platform.
    pub shared: Vec<String>,
    /// Linux-only libraries.
    pub linux: Vec<String>,
    /// Darwin-only libraries.
    pub darwin: Vec<String>,
}

/// The build needs of one Python package (`data/package-build-libs.json`).
#[derive(Debug)]
pub struct PackageBuildEntry {
    pub libs: Vec<String>,
    pub build_tools: Vec<String>,
    pub libs_linux: Vec<String>,
    pub libs_darwin: Vec<String>,
    /// Libraries loaded at run time only (ctypes, dlopen).
    pub runtime_libs: Vec<String>,
    /// Python build-system packages.
    pub build_system: Vec<String>,
}

/// All Nix paths needed at run time.
#[derive(Debug)]
pub struct NixConfig {
    /// `patchelf` (Linux) or `install_name_tool` (Darwin).
    pub patcher: String,
    /// ELF interpreter (Linux; empty on Darwin).
    pub interpreter: String,
    /// Colon-separated rpath of the runtime libraries.
    pub rpath: String,
    /// Colon-separated library path of all libraries.
    pub library_path: String,
    /// `stdenv.cc/bin`.
    pub cc_bin: String,
    /// `coreutils/bin`.
    pub coreutils_bin: String,
    /// The `pkg-config` binary.
    pub pkg_config: String,
    /// Running on Darwin.
    pub is_darwin: bool,
}

impl NixConfig {
    /// The patcher (older name).
    pub fn patchelf(&self) -> (r: &String)
        ensures
            r == &self.patcher,
    {
        &self.patcher
    }
}

/// The entry of a package in the package map, if any (the first with that name).
pub open spec fn entry_of(map: Seq<(String, PackageBuildEntry)>, name: Seq<char>) -> Option<
    PackageBuildEntry,
>
    decreases map.len(),
{
    if map.len() == 0 {
        None
    } else if map[0].0@ == name {
        Some(map[0].1)
    } else {
        entry_of(map.drop_first(), name)
    }
}

/// The entry of a package in the package map.
pub fn lookup_entry<'a>(map: &'a Vec<(String, PackageBuildEntry)>, name: &str) -> (r: Option<
    &'a PackageBuildEntry,
>)
    ensures
        match r {
            Some(e) => entry_of(map@, name@) == Some(*e),
            None => entry_of(map@, name@) is None,
        },
{
    let mut i: usize = 0;
    assert(map@.skip(0) =~= map@);
    while i < map.len()
        invariant
            i <= map.len(),
            entry_of(map@, name@) == entry_of(map@.skip(i as int), name@),
        decreases map.len() - i,
    {
        assert(map@.skip(i as int)[0] == map@[i as int]);
        if crate::text::str_eq(map[i].0.as_str(), name) {
            return Some(&map[i].1);
        }
        assert(map@.skip(i as int).drop_first() =~= map@.skip(i as int + 1));
        i = i + 1;
    }
    None
}

/// A directory on the way up from the start, and whether it holds
/// `flake.lock`, `devenv.lock` or `pyproject.toml`.
pub struct RootCandidate {
    pub dir: String,
    pub has_marker: bool,
}

/// The nearest directory holding a project marker. `candidates` lists the
/// start directory and then each parent in turn.
pub fn find_project_root(candidates: &Vec<RootCandidate>) -> (r: Option<String>)
    ensures
        match r {
            Some(d) => exists|i: int|
                0 <= i < candidates.len() && (#[trigger] candidates@[i]).has_marker
                    && candidates@[i].dir@ == d@ && forall|j: int|
                    0 <= j < i ==> !(#[trigger] candidates@[j]).has_marker,
            None => forall|j: int| 0 <= j < candidates.len() ==> !(#[trigger] candidates@[j]).has_marker,
        },
{
    let mut i: usize = 0;
    while i < candidates.len()
        invariant
            i <= candidates.len(),
            forall|j: int| 0 <= j < i ==> !(#[trigger] candidates@[j]).has_marker,
        decreases candidates.len() - i,
    {
        if candidates[i].has_marker {
            return Some(candidates[i].dir.clone());
        }
        i = i + 1;
    }
    None
}

/// The bytes hashed for the configuration cache key.
pub open spec fn config_key_input(nixpkgs_key: Seq<char>, default_libs: Seq<char>, package_libs: Seq<
    char,
>) -> Seq<u8> {
    utf8("nix-config-v3"@) + seq![0u8] + utf8(nixpkgs_key) + seq![0u8] + utf8(default_libs)
        + seq![0u8] + utf8(package_libs)
}

/// The cache key of the Nix configuration: SHA-256 over the nixpkgs key and
/// both embedded library lists, in lowercase hex.
pub fn compute_cache_key(nixpkgs_key: &str, default_libs_json: &str, package_build_libs_json: &str) -> (r:
    String)
    ensures
        r@ == hex_of(sha256_of(config_key_input(nixpkgs_key@, default_libs_json@, package_build_libs_json@))),
{
    let mut buf: Vec<u8> = Vec::new();
    push_utf8(&mut buf, "nix-config-v3");
    buf.push(0u8);
    push_utf8(&mut buf, nixpkgs_key);
    buf.push(0u8);
    push_utf8(&mut buf, default_libs_json);
    buf.push(0u8);
    push_utf8(&mut buf, package_build_libs_json);
    assert(buf@ =~= config_key_input(nixpkgs_key@, default_libs_json@, package_build_libs_json@));
    sha256_hex(buf.as_slice())
}

/// `$XDG_CACHE_HOME`, else `$HOME/.cache`.
pub open spec fn cache_home(xdg: Option<Seq<char>>, home: Option<Seq<char>>) -> Option<Seq<char>> {
    match xdg {
        Some(x) => Some(x),
        None => match home {
            Some(h) => Some(crate::text::path_join(h, ".cache"@)),
            None => None,
        },
    }
}

/// The cache home from the two environment variables.
pub fn dirs_or_home(xdg_cache_home: Option<&str>, home: Option<&str>) -> (r: Option<String>)
    ensures
        match r {
            Some(d) => cache_home(
                match xdg_cache_home {
                    Some(x) => Some(x@),
                    None => None,
                },
                match home {
                    Some(h) => Some(h@),
                    None => None,
                },
            ) == Some(d@),
            None => xdg_cache_home is None && home is None,
        },
{
    match xdg_cache_home {
        Some(x) => Some(owned(x)),
        None => match home {
            Some(h) => Some(crate::text::join_path(h, ".cache")),
            None => None,
        },
    }
}

/// The cache directory, `<cache home>/uv-nix`.
pub fn cache_dir(xdg_cache_home: Option<&str>, home: Option<&str>) -> (r: Option<String>)
    ensures
        match r {
            Some(d) => exists|c: Seq<char>|
                cache_home(
                    match xdg_cache_home {
                        Some(x) => Some(x@),
                        None => None,
                    },
                    match home {
                        Some(h) => Some(h@),
                        None => None,
                    },
                ) == Some(c) && d@ == crate::text::path_join(c, "uv-nix"@),
            None => xdg_cache_home is None && home is None,
        },
{
    match dirs_or_home(xdg_cache_home, home) {
        Some(d) => Some(crate::text::join_path(d.as_str(), "uv-nix")),
        None => None,
    }
}

/// Whether a cached configuration may still be used: its patcher exists and,
/// on Linux with an interpreter set, the interpreter exists too.
pub fn cache_still_valid(config: &NixConfig, patcher_exists: bool, interpreter_exists: bool) -> (r:
    bool)
    ensures
        r == (patcher_exists && (config.is_darwin || config.interpreter@.len() == 0
            || interpreter_exists)),
{
    if !patcher_exists {
        return false;
    }
    if !config.is_darwin && !config.interpreter.as_str().is_empty() && !interpreter_exists {
        return false;
    }
    true
}

/// A nixpkgs attr path resolved against `pkgs`.
pub open spec fn attr_expr(attr: Seq<char>) -> Seq<char> {
    "(pkgs.lib.getAttrFromPath (pkgs.lib.splitString \".\" \""@ + attr + "\") pkgs)"@
}

/// The expression resolving an attr path against `pkgs`.
pub fn attr_resolve_expr(attr: &str) -> (r: String)
    ensures
        r@ == attr_expr(attr@),
{
    let mut r = String::new();
    r.append("(pkgs.lib.getAttrFromPath (pkgs.lib.splitString \".\" \"");
    r.append(attr);
    r.append("\") pkgs)");
    r
}

/// The attr expressions, each after `indent`.
pub open spec fn attr_exprs(indent: Seq<char>, attrs: Seq<Seq<char>>) -> Seq<Seq<char>> {
    attrs.map_values(|a: Seq<char>| indent + attr_expr(a))
}

/// The attr expressions, each after `indent`.
pub fn attr_expr_list(indent: &str, attrs: &Vec<String>) -> (r: Vec<String>)
    ensures
        views(r@) == attr_exprs(indent@, views(attrs@)),
{
    let mut r: Vec<String> = Vec::new();
    let mut i: usize = 0;
    while i < attrs.len()
        invariant
            i <= attrs.len(),
            views(r@) == attr_exprs(indent@, views(attrs@).take(i as int)),
        decreases attrs.len() - i,
    {
        let mut line = owned(indent);
        let e = attr_resolve_expr(attrs[i].as_str());
        line.append(e.as_str());
        let ghost r0 = r@;
        r.push(line);
        assert(views(r@) =~= views(r0).push(line@));
        assert(attr_exprs(indent@, views(attrs@).take(i as int + 1)) =~= attr_exprs(
            indent@,
            views(attrs@).take(i as int),
        ).push(indent@ + attr_expr(attrs@[i as int]@)));
        i = i + 1;
    }
    assert(views(attrs@).take(attrs.len() as int) =~= views(attrs@));
    r
}

/// The runtime libraries of a platform: the shared ones, then the platform's.
pub open spec fn runtime_libs(c: DefaultLibsConfig, is_darwin: bool) -> Seq<Seq<char>> {
    views(c.shared@) + views(
        if is_darwin {
            c.darwin@
        } else {
            c.linux@
        },
    )
}

/// The libraries the package entries list for the platform.
pub open spec fn package_libs_set(map: Seq<(String, PackageBuildEntry)>, is_darwin: bool) -> Set<
    Seq<char>,
>
    decreases map.len(),
{
    if map.len() == 0 {
        Set::empty()
    } else {
        let e = map.last().1;
        package_libs_set(map.drop_last(), is_darwin).union(members(e.libs@)).union(
            members(
                if is_darwin {
                    e.libs_darwin@
                } else {
                    e.libs_linux@
                },
            ),
        )
    }
}

/// Adds each string of `items` to a strictly sorted list.
pub fn insert_all(set: &mut Vec<String>, items: &Vec<String>)
    requires
        strictly_sorted(views(old(set)@)),
    ensures
        strictly_sorted(views(final(set)@)),
        members(final(set)@) == members(old(set)@).union(members(items@)),
{
    let ghost start = members(set@);
    let mut i: usize = 0;
    while i < items.len()
        invariant
            i <= items.len(),
            strictly_sorted(views(set@)),
            members(set@) == start.union(members(items@.take(i as int))),
        decreases items.len() - i,
    {
        let ghost before = set@;
        crate::sorted::insert_sorted(set, items[i].clone());
        proof {
            crate::sorted::lemma_members_insert(before, set@, items@[i as int]@);
            let a = views(items@.take(i as int + 1));
            let b = views(items@.take(i as int));
            assert(a =~= b.push(items@[i as int]@));
            assert forall|x: Seq<char>| a.contains(x) <==> (b.contains(x) || x == items@[i as int]@) by {
                if b.contains(x) {
                    let k = choose|k: int| 0 <= k < b.len() && b[k] == x;
                    assert(a[k] == x);
                }
                if x == items@[i as int]@ {
                    assert(a[b.len() as int] == x);
                }
                if a.contains(x) {
                    let k = choose|k: int| 0 <= k < a.len() && a[k] == x;
                    if k < b.len() {
                        assert(b[k] == x);
                    }
                }
            }
            assert(members(set@) =~= start.union(members(items@.take(i as int + 1))));
        }
        i = i + 1;
    }
    assert(items@.take(items.len() as int) =~= items@);
}

/// The runtime libraries of the platform, and every library (runtime and
/// every package's, for the platform) once, in sorted order. Build tools are
/// left out.
pub fn collect_all_lib_attrs(
    libs_config: &DefaultLibsConfig,
    package_map: &Vec<(String, PackageBuildEntry)>,
    is_darwin: bool,
) -> (r: (Vec<String>, Vec<String>))
    ensures
        views(r.0@) == runtime_libs(*libs_config, is_darwin),
        strictly_sorted(views(r.1@)),
        members(r.1@) == members(r.0@).union(package_libs_set(package_map@, is_darwin)),
{
    let mut runtime = crate::config::clone_strings(&libs_config.shared);
    if is_darwin {
        crate::config::extend_strings(&mut runtime, &libs_config.darwin);
    } else {
        crate::config::extend_strings(&mut runtime, &libs_config.linux);
    }
    assert(views(runtime@) =~= runtime_libs(*libs_config, is_darwin));
    let mut all: Vec<String> = Vec::new();
    assert(members(all@) =~= Set::<Seq<char>>::empty());
    insert_all(&mut all, &runtime);
    let ghost rt = members(runtime@);
    assert(members(all@) =~= rt);
    let mut i: usize = 0;
    while i < package_map.len()
        invariant
            i <= package_map.len(),
            rt == members(runtime@),
            strictly_sorted(views(all@)),
            members(all@) == rt.union(package_libs_set(package_map@.take(i as int), is_darwin)),
        decreases package_map.len() - i,
    {
        let e = &package_map[i].1;
        insert_all(&mut all, &e.libs);
        if is_darwin {
            insert_all(&mut all, &e.libs_darwin);
        } else {
            insert_all(&mut all, &e.libs_linux);
        }
        proof {
            let t = package_map@.take(i as int + 1);
            assert(t.drop_last() =~= package_map@.take(i as int));
            assert(t.last().1 == *e);
            assert(members(all@) =~= rt.union(package_libs_set(t, is_darwin)));
        }
        i = i + 1;
    }
    assert(package_map@.take(package_map.len() as int) =~= package_map@);
    (runtime, all)
}

/// The expression whose build yields the configuration as JSON.
pub open spec fn config_expr(pkgs_expr: Seq<char>, runtime: Seq<Seq<char>>, all: Seq<Seq<char>>, is_darwin: bool) -> Seq<
    char,
> {
    "let\n  pkgs = "@ + pkgs_expr + ";\n  runtimeLibs = [\n"@ + join_with(
        attr_exprs("    "@, runtime),
        '\n',
    ) + "\n  ];\n  allLibs = [\n"@ + join_with(attr_exprs("    "@, all), '\n')
        + "\n  ];\nin pkgs.writeText \"uv-nix-config.json\" (builtins.toJSON {\n"@ + (if is_darwin {
        "  patcher = \"${pkgs.darwin.cctools}/bin/install_name_tool\";\n  interpreter = \"\";\n"@
    } else {
        "  patcher = \"${pkgs.patchelf}/bin/patchelf\";\n  interpreter = pkgs.lib.strings.trim pkgs.stdenv.cc.bintools.dynamicLinker;\n"@
    }) + "  rpath = pkgs.lib.makeLibraryPath runtimeLibs;\n  library_path = pkgs.lib.makeLibraryPath allLibs;\n  cc_bin = \"${pkgs.stdenv.cc}/bin\";\n  coreutils_bin = \"${pkgs.coreutils}/bin\";\n  pkg_config = \"${pkgs.pkg-config}/bin/pkg-config\";\n"@
        + (if is_darwin {
        "  is_darwin = true;\n"@
    } else {
        "  is_darwin = false;\n"@
    }) + "})"@
}

/// The Nix expression that resolves all configuration paths in one build.
pub fn nix_config_expr(pkgs_expr: &str, runtime_attrs: &Vec<String>, all_lib_attrs: &Vec<String>, is_darwin: bool) -> (r:
    String)
    ensures
        r@ == config_expr(pkgs_expr@, views(runtime_attrs@), views(all_lib_attrs@), is_darwin),
{
    let runtime_lines = attr_expr_list("    ", runtime_attrs);
    let lib_lines = attr_expr_list("    ", all_lib_attrs);
    let runtime_exprs = join_strings(&runtime_lines, '\n');
    let lib_exprs = join_strings(&lib_lines, '\n');
    let mut out = String::new();
    out.append("let\n  pkgs = ");
    out.append(pkgs_expr);
    out.append(";\n  runtimeLibs = [\n");
    out.append(runtime_exprs.as_str());
    out.append("\n  ];\n  allLibs = [\n");
    out.append(lib_exprs.as_str());
    out.append("\n  ];\nin pkgs.writeText \"uv-nix-config.json\" (builtins.toJSON {\n");
    if is_darwin {
        out.append("  patcher = \"${pkgs.darwin.cctools}/bin/install_name_tool\";\n  interpreter = \"\";\n");
    } else {
        out.append("  patcher = \"${pkgs.patchelf}/bin/patchelf\";\n  interpreter = pkgs.lib.strings.trim pkgs.stdenv.cc.bintools.dynamicLinker;\n");
    }
    out.append("  rpath = pkgs.lib.makeLibraryPath runtimeLibs;\n  library_path = pkgs.lib.makeLibraryPath allLibs;\n  cc_bin = \"${pkgs.stdenv.cc}/bin\";\n  coreutils_bin = \"${pkgs.coreutils}/bin\";\n  pkg_config = \"${pkgs.pkg-config}/bin/pkg-config\";\n");
    if is_darwin {
        out.append("  is_darwin = true;\n");
    } else {
        out.append("  is_darwin = false;\n");
    }
    out.append("})");
    assert(out@ =~= config_expr(pkgs_expr@, views(runtime_attrs@), views(all_lib_attrs@), is_darwin));
    out
}

} // verus!
