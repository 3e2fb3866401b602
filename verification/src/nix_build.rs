//! A patched Python as a Nix derivation: the Python directory added to the
//! store, rebuilt with every ELF file pointed at Nix libraries and the ctypes
//! hook installed.
use vstd::prelude::*;

use crate::nix_config::{attr_exprs, PackageBuildEntry};
use crate::nixpkgs::{import_expr, NixpkgsSource};
use crate::text::{join_strings, join_with, owned, views};

verus! {

/// `s` with every non-overlapping occurrence of `from`, scanning from the
/// left, replaced by `to` (`str::replace`, for a non-empty `from`).
pub open spec fn replaced(s: Seq<char>, from: Seq<char>, to: Seq<char>) -> Seq<char>
    decreases s.len(),
{
    if s.len() == 0 || from.len() == 0 {
        s
    } else if crate::text::occurs_at(s, 0, from) {
        to + replaced(s.skip(from.len() as int), from, to)
    } else {
        seq![s[0]] + replaced(s.drop_first(), from, to)
    }
}

/// Replaces every occurrence of `from` by `to`.
pub fn replace_all(s: &str, from: &str, to: &str) -> (r: String)
    requires
        from@.len() > 0,
    ensures
        r@ == replaced(s@, from@, to@),
{
    let sv = crate::text::chars_of(s);
    let fv = crate::text::chars_of(from);
    let mut out = String::new();
    let mut i: usize = 0;
    assert(sv@.skip(0) =~= sv@);
    while i < sv.len()
        invariant
            i <= sv.len(),
            sv@ == s@,
            fv@ == from@,
            fv@.len() > 0,
            out@ + replaced(sv@.skip(i as int), from@, to@) == replaced(s@, from@, to@),
        decreases sv.len() - i,
    {
        let ghost rest = sv@.skip(i as int);
        let ghost o0 = out@;
        if crate::text::occurs_at_exec(&sv, i, &fv) {
            assert(crate::text::occurs_at(rest, 0, from@)) by {
                assert(rest.subrange(0, from@.len() as int) =~= sv@.subrange(i as int, i + from@.len()));
            }
            out.append(to);
            assert(rest.skip(from@.len() as int) =~= sv@.skip(i + fv.len()));
            assert(out@ + replaced(sv@.skip(i + fv.len()), from@, to@) =~= o0 + (to@ + replaced(rest.skip(from@.len() as int), from@, to@)));
            i = i + fv.len();
        } else {
            assert(!crate::text::occurs_at(rest, 0, from@)) by {
                if crate::text::occurs_at(rest, 0, from@) {
                    assert(rest.subrange(0, from@.len() as int) =~= sv@.subrange(i as int, i + from@.len()));
                }
            }
            crate::text::push_char(&mut out, sv[i]);
            assert(rest[0] == sv@[i as int]);
            assert(rest.drop_first() =~= sv@.skip(i + 1));
            assert(out@ + replaced(sv@.skip(i + 1), from@, to@) =~= o0 + (seq![rest[0]] + replaced(rest.drop_first(), from@, to@)));
            i = i + 1;
        }
    }
    assert(sv@.skip(i as int) =~= Seq::<char>::empty());
    assert(out@ + Seq::<char>::empty() =~= out@);
    out
}

/// The hook text escaped for a Nix indented string: `''` becomes `'''`, then
/// `${` becomes `''${`.
pub open spec fn nix_indented_escape(s: Seq<char>) -> Seq<char> {
    replaced(replaced(s, "''"@, "'''"@), "${"@, "''${"@)
}

/// Escapes text for a Nix indented (`''`) string.
pub fn escape_nix_indented(s: &str) -> (r: String)
    ensures
        r@ == nix_indented_escape(s@),
{
    proof {
        reveal_strlit("''");
        reveal_strlit("${");
    }
    let a = replace_all(s, "''", "'''");
    replace_all(a.as_str(), "${", "''${")
}

/// The attrs a patched Python links: the default runtime libraries and every
/// package's libraries, once each, sorted.
pub fn patched_python_attrs(runtime_attrs: &Vec<String>, package_map: &Vec<(String, PackageBuildEntry)>) -> (r: Vec<String>)
    ensures
        crate::sorted::strictly_sorted(views(r@)),
        crate::sorted::members(r@) == crate::sorted::members(runtime_attrs@).union(package_all_libs(package_map@)),
{
    let mut all: Vec<String> = Vec::new();
    assert(crate::sorted::members(all@) =~= Set::<Seq<char>>::empty());
    crate::nix_config::insert_all(&mut all, runtime_attrs);
    let ghost rt = crate::sorted::members(runtime_attrs@);
    assert(crate::sorted::members(all@) =~= rt);
    let mut i: usize = 0;
    while i < package_map.len()
        invariant
            i <= package_map.len(),
            rt == crate::sorted::members(runtime_attrs@),
            crate::sorted::strictly_sorted(views(all@)),
            crate::sorted::members(all@) == rt.union(package_all_libs(package_map@.take(i as int))),
        decreases package_map.len() - i,
    {
        crate::nix_config::insert_all(&mut all, &package_map[i].1.libs);
        proof {
            let t = package_map@.take(i as int + 1);
            assert(t.drop_last() =~= package_map@.take(i as int));
            assert(t.last() == package_map@[i as int]);
            assert(crate::sorted::members(all@) =~= rt.union(package_all_libs(t)));
        }
        i = i + 1;
    }
    assert(package_map@.take(package_map.len() as int) =~= package_map@);
    all
}

/// Every library some package entry lists.
pub open spec fn package_all_libs(map: Seq<(String, PackageBuildEntry)>) -> Set<Seq<char>>
    decreases map.len(),
{
    if map.len() == 0 {
        Set::empty()
    } else {
        package_all_libs(map.drop_last()).union(crate::sorted::members(map.last().1.libs@))
    }
}

/// The derivation that rebuilds a stored Python with Nix library paths.
pub open spec fn patched_python_text(pkgs_expr: Seq<char>, attrs: Seq<Seq<char>>, hook: Seq<char>, store_path: Seq<char>) -> Seq<char> {
    "let\n  pkgs = "@ + pkgs_expr + ";\n  defaultLibs = [\n"@ + (if attrs.len() == 0 {
        "    "@
    } else {
        join_with(attr_exprs("    "@, attrs), '\n')
    })
        + "\n  ];\n  interpreter = pkgs.lib.strings.trim pkgs.stdenv.cc.bintools.dynamicLinker;\n  rpath = pkgs.lib.makeLibraryPath defaultLibs;\n  libPaths = builtins.concatStringsSep \"\\n\" (map (p: \"${pkgs.lib.getLib p}/lib\") defaultLibs);\n  ctypesHook = builtins.toFile \"ctypes_hook.py\" ''"@
        + nix_indented_escape(hook)
        + "'';\nin pkgs.stdenvNoCC.mkDerivation {\n  name = \"patched-python\";\n  src = builtins.storePath \""@
        + store_path + patched_python_tail()
}

/// The build steps of the patched Python.
pub open spec fn patched_python_tail() -> Seq<char> {
    "\";\n  nativeBuildInputs = [ pkgs.patchelf ];\n  dontConfigure = true;\n  dontBuild = true;\n  dontUnpack = true;\n  installPhase = ''\n    cp -r $src $out && chmod -R u+w $out\n    find $out -type f | while read f; do\n      if head -c 4 \"$f\" | grep -qP '^\\x7fELF'; then\n        patchelf --set-rpath \"${rpath}\" \"$f\" 2>/dev/null || true\n        patchelf --set-interpreter \"${interpreter}\" \"$f\" 2>/dev/null || true\n      fi\n    done\n    for sp in $out/lib/python*/site-packages; do\n      [ -d \"$sp\" ] && cp ${ctypesHook} \"$sp/_uv_nix_ctypes_hook.py\" \\\n        && echo \"import _uv_nix_ctypes_hook\" > \"$sp/uv-nix.pth\" \\\n        && echo \"${libPaths}\" > \"$sp/_uv_nix_libs.conf\"\n    done\n  '';\n}"@
}

/// The Nix expression that builds the patched Python from its store path.
pub fn patched_python_expr(source: &NixpkgsSource, system: &str, attrs: &Vec<String>, ctypes_hook: &str, store_path: &str) -> (r: String)
    ensures
        r@ == patched_python_text(import_expr(*source, system@), views(attrs@), ctypes_hook@, store_path@),
{
    let pkgs_expr = crate::nixpkgs::nixpkgs_import_expr(source, system);
    let lines = crate::nix_config::attr_expr_list("    ", attrs);
    let libs_list = if attrs.len() == 0 {
        owned("    ")
    } else {
        join_strings(&lines, '\n')
    };
    let hook = escape_nix_indented(ctypes_hook);
    let mut out = owned("let\n  pkgs = ");
    out.append(pkgs_expr.as_str());
    out.append(";\n  defaultLibs = [\n");
    out.append(libs_list.as_str());
    out.append("\n  ];\n  interpreter = pkgs.lib.strings.trim pkgs.stdenv.cc.bintools.dynamicLinker;\n  rpath = pkgs.lib.makeLibraryPath defaultLibs;\n  libPaths = builtins.concatStringsSep \"\\n\" (map (p: \"${pkgs.lib.getLib p}/lib\") defaultLibs);\n  ctypesHook = builtins.toFile \"ctypes_hook.py\" ''");
    out.append(hook.as_str());
    out.append("'';\nin pkgs.stdenvNoCC.mkDerivation {\n  name = \"patched-python\";\n  src = builtins.storePath \"");
    out.append(store_path);
    out.append("\";\n  nativeBuildInputs = [ pkgs.patchelf ];\n  dontConfigure = true;\n  dontBuild = true;\n  dontUnpack = true;\n  installPhase = ''\n    cp -r $src $out && chmod -R u+w $out\n    find $out -type f | while read f; do\n      if head -c 4 \"$f\" | grep -qP '^\\x7fELF'; then\n        patchelf --set-rpath \"${rpath}\" \"$f\" 2>/dev/null || true\n        patchelf --set-interpreter \"${interpreter}\" \"$f\" 2>/dev/null || true\n      fi\n    done\n    for sp in $out/lib/python*/site-packages; do\n      [ -d \"$sp\" ] && cp ${ctypesHook} \"$sp/_uv_nix_ctypes_hook.py\" \\\n        && echo \"import _uv_nix_ctypes_hook\" > \"$sp/uv-nix.pth\" \\\n        && echo \"${libPaths}\" > \"$sp/_uv_nix_libs.conf\"\n    done\n  '';\n}");
    assert(out@ =~= patched_python_text(import_expr(*source, system@), views(attrs@), ctypes_hook@, store_path@));
    out
}

} // verus!
