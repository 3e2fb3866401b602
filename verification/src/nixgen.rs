//! Nix expressions generated from a patch manifest: a uv2nix overlay that adds
//! the native libraries each package needs, or a whole `package.nix`.
use vstd::prelude::*;

use crate::nix_config::{entry_of, lookup_entry, PackageBuildEntry};
use crate::sorted::{keys_of, members, strictly_sorted};
use crate::soname::{PackagePatchInfo, PatchManifest, ResolvedBinary};
use crate::text::seq_lt;
use crate::text::{
    chars_of, has_prefix, is_ascii_alpha, is_ascii_digit, owned, split_char, split_on, views,
};

verus! {

/// Options for `uv nix gen`.
#[derive(Debug)]
pub struct GenOptions {
    /// Path to the virtual environment.
    pub venv: String,
    /// Output file (standard output when absent).
    pub output: Option<String>,
    /// Only the override overlay, not a whole `package.nix`.
    pub overlay_only: bool,
    /// Prefer wheels over sdists.
    pub prefer_wheels: bool,
}

/// The native library needs of one package.
#[derive(Debug)]
pub struct PackageLibs {
    /// Package name.
    pub name: String,
    /// Nixpkgs attrs for `buildInputs`, strictly sorted.
    pub build_attrs: Vec<String>,
    /// Nixpkgs attrs for `propagatedBuildInputs`, strictly sorted.
    pub runtime_attrs: Vec<String>,
    /// Python build-system packages for `nativeBuildInputs`, strictly sorted.
    pub build_system_attrs: Vec<String>,
}

impl PackageLibs {
    /// Each attribute list is strictly sorted, as an ordered set is.
    pub open spec fn wf(self) -> bool {
        strictly_sorted(views(self.build_attrs@)) && strictly_sorted(views(self.runtime_attrs@))
            && strictly_sorted(views(self.build_system_attrs@))
    }

    /// The needs of a package given as three lists, each made an ordered set.
    pub fn from_lists(
        name: &str,
        build: Vec<String>,
        runtime: Vec<String>,
        build_system: Vec<String>,
    ) -> (r: Self)
        ensures
            r.wf(),
            r.name@ == name@,
            members(r.build_attrs@) == members(build@),
            members(r.runtime_attrs@) == members(runtime@),
            members(r.build_system_attrs@) == members(build_system@),
    {
        PackageLibs {
            name: owned(name),
            build_attrs: sorted_set_of(build),
            runtime_attrs: sorted_set_of(runtime),
            build_system_attrs: sorted_set_of(build_system),
        }
    }
}

/// The strings of `items` as a strictly sorted list.
pub fn sorted_set_of(items: Vec<String>) -> (r: Vec<String>)
    ensures
        strictly_sorted(views(r@)),
        members(r@) == members(items@),
{
    let mut r: Vec<String> = Vec::new();
    let mut i: usize = 0;
    while i < items.len()
        invariant
            i <= items.len(),
            strictly_sorted(views(r@)),
            members(r@) == members(items@.take(i as int)),
        decreases items.len() - i,
    {
        let ghost before = r@;
        crate::sorted::insert_sorted(&mut r, items[i].clone());
        proof {
            crate::sorted::lemma_members_insert(before, r@, items@[i as int]@);
            let item = items@[i as int]@;
            let a = views(items@.take(i as int + 1));
            let b = views(items@.take(i as int));
            assert(a =~= b.push(item));
            assert forall|x: Seq<char>| a.contains(x) <==> (b.contains(x) || x == item) by {
                if b.contains(x) {
                    let k = choose|k: int| 0 <= k < b.len() && b[k] == x;
                    assert(a[k] == x);
                }
                if x == item {
                    assert(a[b.len() as int] == x);
                }
                if a.contains(x) {
                    let k = choose|k: int| 0 <= k < a.len() && a[k] == x;
                    if k < b.len() {
                        assert(b[k] == x);
                    }
                }
            }
            assert(members(items@.take(i as int + 1)) =~= members(items@.take(i as int)).insert(
                item,
            ));
        }
        i = i + 1;
    }
    assert(items@.take(items.len() as int) == items@);
    r
}

// ---------------------------------------------------------------------------
// Nix identifiers and attribute paths
// ---------------------------------------------------------------------------
/// A character that may follow the first one in a Nix identifier.
pub open spec fn ident_char(c: char) -> bool {
    is_ascii_alpha(c) || is_ascii_digit(c) || c == '_' || c == '-' || c == '\''
}

/// A Nix identifier: `[a-zA-Z_][a-zA-Z0-9_'-]*`.
pub open spec fn valid_ident(s: Seq<char>) -> bool {
    s.len() > 0 && (is_ascii_alpha(s[0]) || s[0] == '_') && forall|i: int|
        1 <= i < s.len() ==> ident_char(#[trigger] s[i])
}

/// One component of an attribute path after `pkgs`: `.name`, or `.${ "name" }`
/// when the component is no identifier.
pub open spec fn attr_part(p: Seq<char>) -> Seq<char> {
    if valid_ident(p) {
        "."@ + p
    } else {
        ".${ \""@ + p + "\" }"@
    }
}

/// The rendered components, in order.
pub open spec fn render_parts(parts: Seq<Seq<char>>) -> Seq<char>
    decreases parts.len(),
{
    if parts.len() == 0 {
        Seq::empty()
    } else {
        render_parts(parts.drop_last()) + attr_part(parts.last())
    }
}

/// An attribute path rendered as a Nix expression on `pkgs`.
pub open spec fn nix_attr(attr: Seq<char>) -> Seq<char> {
    "pkgs"@ + render_parts(split_on(attr, '.'))
}

/// An attr path that is a single identifier renders as `pkgs.<attr>`.
pub proof fn lemma_render_identifier(a: Seq<char>)
    requires
        valid_ident(a),
    ensures
        nix_attr(a) == "pkgs."@ + a,
{
    assert(!a.contains('.')) by {
        if a.contains('.') {
            let k = choose|k: int| 0 <= k < a.len() && a[k] == '.';
            if k > 0 {
                assert(ident_char(a[k]));
            }
        }
    }
    crate::text::lemma_split_without(a, '.');
    let parts = seq![a];
    assert(parts.drop_last() =~= Seq::<Seq<char>>::empty());
    assert(render_parts(parts) == render_parts(parts.drop_last()) + attr_part(a));
    reveal_strlit("pkgs");
    reveal_strlit(".");
    reveal_strlit("pkgs.");
    assert(nix_attr(a) =~= "pkgs."@ + a);
}

/// Attrs that every Nix build has anyway; an override naming them is noise.
pub open spec fn skipped_attr(attr: Seq<char>) -> bool {
    attr == "glibc"@ || attr == "stdenv.cc.cc.lib"@ || attr == "util-linux.out"@
}

/// Whether an attr belongs in a generated override.
pub open spec fn included_attr(attr: Seq<char>) -> bool {
    !has_prefix(attr, seq!['_']) && !skipped_attr(attr)
}

/// Whether `s` can stand unquoted in a Nix attribute path.
pub fn is_valid_nix_ident(s: &str) -> (r: bool)
    ensures
        r == valid_ident(s@),
{
    let v = chars_of(s);
    if v.len() == 0 {
        return false;
    }
    let c0 = v[0];
    if !(is_ascii_alpha_exec(c0) || c0 == '_') {
        return false;
    }
    let mut i: usize = 1;
    while i < v.len()
        invariant
            1 <= i <= v.len(),
            v@ == s@,
            forall|k: int| 1 <= k < i ==> ident_char(#[trigger] v@[k]),
        decreases v.len() - i,
    {
        let c = v[i];
        if !(is_ascii_alpha_exec(c) || ('0' <= c && c <= '9') || c == '_' || c == '-' || c
            == '\'') {
            return false;
        }
        i = i + 1;
    }
    true
}

fn is_ascii_alpha_exec(c: char) -> (r: bool)
    ensures
        r == is_ascii_alpha(c),
{
    ('a' <= c && c <= 'z') || ('A' <= c && c <= 'Z')
}

/// Renders an attribute path such as `gfortran.cc.lib` as `pkgs.gfortran.cc.lib`,
/// quoting components that are no identifiers.
pub fn render_nix_attr(attr: &str) -> (r: String)
    ensures
        r@ == nix_attr(attr@),
{
    let parts = split_char(attr, '.');
    let mut out = String::new();
    out.append("pkgs");
    let mut i: usize = 0;
    while i < parts.len()
        invariant
            i <= parts.len(),
            views(parts@) == split_on(attr@, '.'),
            out@ == "pkgs"@ + render_parts(views(parts@).take(i as int)),
        decreases parts.len() - i,
    {
        let ghost before = out@;
        let part = parts[i].as_str();
        if is_valid_nix_ident(part) {
            out.append(".");
            out.append(part);
        } else {
            out.append(".${ \"");
            out.append(part);
            out.append("\" }");
        }
        proof {
            let t = views(parts@).take(i as int + 1);
            assert(t.drop_last() =~= views(parts@).take(i as int));
            assert(t.last() == part@);
            assert(out@ =~= before + attr_part(part@));
        }
        i = i + 1;
    }
    assert(views(parts@).take(parts.len() as int) =~= views(parts@));
    out
}

/// Whether an attr belongs in a generated override: not private (leading
/// underscore) and not one every build has anyway.
pub fn should_include_attr(attr: &str) -> (r: bool)
    ensures
        r == included_attr(attr@),
{
    let v = chars_of(attr);
    let private = v.len() > 0 && v[0] == '_';
    proof {
        if v.len() > 0 {
            assert(attr@.subrange(0, 1) =~= seq![attr@[0]]);
            if attr@[0] == '_' {
                assert(attr@.subrange(0, 1) =~= seq!['_']);
            }
            if has_prefix(attr@, seq!['_']) {
                assert(attr@.subrange(0, 1)[0] == '_');
            }
        }
    }
    !private && !crate::text::str_eq(attr, "glibc") && !crate::text::str_eq(attr, "stdenv.cc.cc.lib")
        && !crate::text::str_eq(attr, "util-linux.out")
}

// ---------------------------------------------------------------------------
// Rendering
// ---------------------------------------------------------------------------
/// One line per attr: indentation, the rendered attr, a newline.
pub open spec fn attr_lines(ind: Seq<char>, attrs: Seq<Seq<char>>) -> Seq<char>
    decreases attrs.len(),
{
    if attrs.len() == 0 {
        Seq::empty()
    } else {
        attr_lines(ind, attrs.drop_last()) + ind + nix_attr(attrs.last()) + "\n"@
    }
}

/// One line per build-system package, taken from the Python package set.
pub open spec fn final_lines(ind: Seq<char>, attrs: Seq<Seq<char>>) -> Seq<char>
    decreases attrs.len(),
{
    if attrs.len() == 0 {
        Seq::empty()
    } else {
        final_lines(ind, attrs.drop_last()) + ind + "final."@ + attrs.last() + "\n"@
    }
}

/// A list attribute that extends the previous value, or nothing when the
/// list is empty.
pub open spec fn list_section(ind: Seq<char>, head: Seq<char>, lines: Seq<char>, nonempty: bool) -> Seq<
    char,
> {
    if nonempty {
        ind + head + lines + ind + "  ];\n"@
    } else {
        Seq::empty()
    }
}

/// The override of one package, indented by `ind`.
pub open spec fn pkg_block(ind: Seq<char>, p: PackageLibs) -> Seq<char> {
    let inner = ind + "    "@;
    ind + p.name@ + " = prev."@ + p.name@ + ".overrideAttrs (old: {\n"@ + list_section(
        ind,
        "  buildInputs = (old.buildInputs or []) ++ [\n"@,
        attr_lines(inner, views(p.build_attrs@)),
        p.build_attrs@.len() > 0,
    ) + list_section(
        ind,
        "  propagatedBuildInputs = (old.propagatedBuildInputs or []) ++ [\n"@,
        attr_lines(inner, views(p.runtime_attrs@)),
        p.runtime_attrs@.len() > 0,
    ) + list_section(
        ind,
        "  nativeBuildInputs = (old.nativeBuildInputs or []) ++ [\n"@,
        final_lines(inner, views(p.build_system_attrs@)),
        p.build_system_attrs@.len() > 0,
    ) + ind + "});\n"@
}

/// The overrides of all packages, in order.
pub open spec fn pkg_blocks(ind: Seq<char>, pkgs: Seq<PackageLibs>) -> Seq<char>
    decreases pkgs.len(),
{
    if pkgs.len() == 0 {
        Seq::empty()
    } else {
        pkg_blocks(ind, pkgs.drop_last()) + pkg_block(ind, pkgs.last())
    }
}

/// The text `render_overlay` produces.
pub open spec fn overlay_text(pkgs: Seq<PackageLibs>) -> Seq<char> {
    "# Auto-generated by `uv nix gen`. Do not edit.\n"@
        + "# Native library overrides for uv2nix packages.\n"@ + "{ pkgs, lib, ... }:\n"@
        + "final: prev: {\n"@ + pkg_blocks("  "@, pkgs) + "}\n"@
}

/// The `sourcePreference` default.
pub open spec fn source_pref(prefer_wheels: bool) -> Seq<char> {
    if prefer_wheels {
        "wheel"@
    } else {
        "sdist"@
    }
}

/// The header of `package.nix`, up to the overrides.
pub open spec fn package_nix_head(prefer_wheels: bool) -> Seq<char> {
    "# Auto-generated by `uv nix gen`. Do not edit.\n"@ + "{\n"@ + "  pkgs,\n"@ + "  lib,\n"@
        + "  uv2nix,\n"@ + "  pyproject-nix,\n"@ + "  pyproject-build-systems,\n"@
        + "  python ? pkgs.python312,\n"@ + "  sourcePreference ? \""@ + source_pref(prefer_wheels)
        + "\",\n"@ + "  ...\n"@ + "}:\n"@ + "let\n"@
        + "  workspace = uv2nix.lib.workspace.loadWorkspace { workspaceRoot = ./.; };\n"@
        + "  overlay = workspace.mkPyprojectOverlay { inherit sourcePreference; };\n"@ + "\n"@
        + "  # Native library overrides from uv-nix patch analysis\n"@
        + "  uvNixOverrides = final: prev: {\n"@
}

/// The tail of `package.nix`, after the overrides.
pub open spec fn package_nix_tail() -> Seq<char> {
    "  };\n"@ + "\n"@ + "  pythonSet =\n"@
        + "    (pkgs.callPackage pyproject-nix.build.packages { inherit python; }).overrideScope\n"@
        + "      (lib.composeManyExtensions [\n"@ + "        pyproject-build-systems.overlays.default\n"@
        + "        overlay\n"@ + "        uvNixOverrides\n"@ + "      ]);\n"@ + "in {\n"@
        + "  inherit pythonSet;\n"@
        + "  venv = pythonSet.mkVirtualEnv \"app-env\" workspace.deps.default;\n"@ + "}\n"@
}

/// The text `render_package_nix` produces.
pub open spec fn package_nix_text(pkgs: Seq<PackageLibs>, prefer_wheels: bool) -> Seq<char> {
    package_nix_head(prefer_wheels) + pkg_blocks("    "@, pkgs) + package_nix_tail()
}

fn push_attr_lines(out: &mut String, ind: &str, attrs: &Vec<String>)
    ensures
        final(out)@ == old(out)@ + attr_lines(ind@, views(attrs@)),
{
    let ghost start = out@;
    let mut i: usize = 0;
    while i < attrs.len()
        invariant
            i <= attrs.len(),
            out@ == start + attr_lines(ind@, views(attrs@).take(i as int)),
        decreases attrs.len() - i,
    {
        let ghost before = out@;
        out.append(ind);
        let r = render_nix_attr(attrs[i].as_str());
        out.append(r.as_str());
        out.append("\n");
        proof {
            let t = views(attrs@).take(i as int + 1);
            assert(t.drop_last() =~= views(attrs@).take(i as int));
            assert(t.last() == attrs@[i as int]@);
            assert(out@ =~= start + attr_lines(ind@, t));
        }
        i = i + 1;
    }
    assert(views(attrs@).take(attrs.len() as int) =~= views(attrs@));
}

fn push_final_lines(out: &mut String, ind: &str, attrs: &Vec<String>)
    ensures
        final(out)@ == old(out)@ + final_lines(ind@, views(attrs@)),
{
    let ghost start = out@;
    let mut i: usize = 0;
    while i < attrs.len()
        invariant
            i <= attrs.len(),
            out@ == start + final_lines(ind@, views(attrs@).take(i as int)),
        decreases attrs.len() - i,
    {
        out.append(ind);
        out.append("final.");
        out.append(attrs[i].as_str());
        out.append("\n");
        proof {
            let t = views(attrs@).take(i as int + 1);
            assert(t.drop_last() =~= views(attrs@).take(i as int));
            assert(t.last() == attrs@[i as int]@);
            assert(out@ =~= start + final_lines(ind@, t));
        }
        i = i + 1;
    }
    assert(views(attrs@).take(attrs.len() as int) =~= views(attrs@));
}

fn push_attr_section(out: &mut String, ind: &str, head: &str, inner: &str, attrs: &Vec<String>)
    ensures
        final(out)@ == old(out)@ + list_section(
            ind@,
            head@,
            attr_lines(inner@, views(attrs@)),
            attrs@.len() > 0,
        ),
{
    let ghost start = out@;
    if attrs.len() > 0 {
        out.append(ind);
        out.append(head);
        push_attr_lines(out, inner, attrs);
        out.append(ind);
        out.append("  ];\n");
        assert(out@ =~= start + (ind@ + head@ + attr_lines(inner@, views(attrs@)) + ind@
            + "  ];\n"@));
    } else {
        assert(out@ =~= start + Seq::<char>::empty());
    }
}

fn push_final_section(out: &mut String, ind: &str, head: &str, inner: &str, attrs: &Vec<String>)
    ensures
        final(out)@ == old(out)@ + list_section(
            ind@,
            head@,
            final_lines(inner@, views(attrs@)),
            attrs@.len() > 0,
        ),
{
    let ghost start = out@;
    if attrs.len() > 0 {
        out.append(ind);
        out.append(head);
        push_final_lines(out, inner, attrs);
        out.append(ind);
        out.append("  ];\n");
        assert(out@ =~= start + (ind@ + head@ + final_lines(inner@, views(attrs@)) + ind@
            + "  ];\n"@));
    } else {
        assert(out@ =~= start + Seq::<char>::empty());
    }
}

#[verifier::spinoff_prover]
#[verifier::rlimit(40)]
fn push_pkg_block(out: &mut String, ind: &str, p: &PackageLibs)
    ensures
        final(out)@ == old(out)@ + pkg_block(ind@, *p),
{
    let ghost start = out@;
    let mut inner = owned(ind);
    inner.append("    ");
    out.append(ind);
    out.append(p.name.as_str());
    out.append(" = prev.");
    out.append(p.name.as_str());
    out.append(".overrideAttrs (old: {\n");
    let ghost s0 = out@;
    push_attr_section(
        out,
        ind,
        "  buildInputs = (old.buildInputs or []) ++ [\n",
        inner.as_str(),
        &p.build_attrs,
    );
    let ghost s1 = out@;
    push_attr_section(
        out,
        ind,
        "  propagatedBuildInputs = (old.propagatedBuildInputs or []) ++ [\n",
        inner.as_str(),
        &p.runtime_attrs,
    );
    let ghost s2 = out@;
    push_final_section(
        out,
        ind,
        "  nativeBuildInputs = (old.nativeBuildInputs or []) ++ [\n",
        inner.as_str(),
        &p.build_system_attrs,
    );
    let ghost s3 = out@;
    out.append(ind);
    out.append("});\n");
    let ghost a = list_section(
        ind@,
        "  buildInputs = (old.buildInputs or []) ++ [\n"@,
        attr_lines(inner@, views(p.build_attrs@)),
        p.build_attrs@.len() > 0,
    );
    let ghost b = list_section(
        ind@,
        "  propagatedBuildInputs = (old.propagatedBuildInputs or []) ++ [\n"@,
        attr_lines(inner@, views(p.runtime_attrs@)),
        p.runtime_attrs@.len() > 0,
    );
    let ghost c = list_section(
        ind@,
        "  nativeBuildInputs = (old.nativeBuildInputs or []) ++ [\n"@,
        final_lines(inner@, views(p.build_system_attrs@)),
        p.build_system_attrs@.len() > 0,
    );
    let ghost h = ind@ + p.name@ + " = prev."@ + p.name@ + ".overrideAttrs (old: {\n"@;
    assert(s0 =~= start + h);
    assert(s3 =~= s0 + a + b + c);
    assert(out@ =~= start + (h + a + b + c + ind@ + "});\n"@));
}

fn push_pkg_blocks(out: &mut String, ind: &str, packages: &[PackageLibs])
    ensures
        final(out)@ == old(out)@ + pkg_blocks(ind@, packages@),
{
    let ghost start = out@;
    let mut i: usize = 0;
    while i < packages.len()
        invariant
            i <= packages.len(),
            out@ == start + pkg_blocks(ind@, packages@.take(i as int)),
        decreases packages.len() - i,
    {
        push_pkg_block(out, ind, &packages[i]);
        proof {
            let t = packages@.take(i as int + 1);
            assert(t.drop_last() =~= packages@.take(i as int));
            assert(out@ =~= start + pkg_blocks(ind@, t));
        }
        i = i + 1;
    }
    assert(packages@.take(packages.len() as int) =~= packages@);
}

/// The native library override overlay as a Nix expression.
pub fn render_overlay(packages: &[PackageLibs]) -> (r: String)
    ensures
        r@ == overlay_text(packages@),
{
    let mut out = String::new();
    out.append("# Auto-generated by `uv nix gen`. Do not edit.\n");
    out.append("# Native library overrides for uv2nix packages.\n");
    out.append("{ pkgs, lib, ... }:\n");
    out.append("final: prev: {\n");
    push_pkg_blocks(&mut out, "  ", packages);
    out.append("}\n");
    assert(out@ =~= overlay_text(packages@));
    out
}

/// A whole `package.nix`: the uv2nix workspace set-up with the overrides inlined.
pub fn render_package_nix(packages: &[PackageLibs], prefer_wheels: bool) -> (r: String)
    ensures
        r@ == package_nix_text(packages@, prefer_wheels),
{
    let mut out = String::new();
    out.append("# Auto-generated by `uv nix gen`. Do not edit.\n");
    let pref = if prefer_wheels {
        "wheel"
    } else {
        "sdist"
    };
    out.append("{\n");
    out.append("  pkgs,\n");
    out.append("  lib,\n");
    out.append("  uv2nix,\n");
    out.append("  pyproject-nix,\n");
    out.append("  pyproject-build-systems,\n");
    out.append("  python ? pkgs.python312,\n");
    out.append("  sourcePreference ? \"");
    out.append(pref);
    out.append("\",\n");
    out.append("  ...\n");
    out.append("}:\n");
    out.append("let\n");
    out.append("  workspace = uv2nix.lib.workspace.loadWorkspace { workspaceRoot = ./.; };\n");
    out.append("  overlay = workspace.mkPyprojectOverlay { inherit sourcePreference; };\n");
    out.append("\n");
    out.append("  # Native library overrides from uv-nix patch analysis\n");
    out.append("  uvNixOverrides = final: prev: {\n");
    let ghost head = out@;
    assert(head =~= package_nix_head(prefer_wheels));
    push_pkg_blocks(&mut out, "    ", packages);
    let ghost mid = out@;
    out.append("  };\n");
    out.append("\n");
    out.append("  pythonSet =\n");
    out.append(
        "    (pkgs.callPackage pyproject-nix.build.packages { inherit python; }).overrideScope\n",
    );
    out.append("      (lib.composeManyExtensions [\n");
    out.append("        pyproject-build-systems.overlays.default\n");
    out.append("        overlay\n");
    out.append("        uvNixOverrides\n");
    out.append("      ]);\n");
    out.append("in {\n");
    out.append("  inherit pythonSet;\n");
    out.append("  venv = pythonSet.mkVirtualEnv \"app-env\" workspace.deps.default;\n");
    out.append("}\n");
    assert(out@ =~= mid + package_nix_tail());
    assert(out@ =~= package_nix_text(packages@, prefer_wheels));
    out
}

// ---------------------------------------------------------------------------
// Collecting the needs of each package
// ---------------------------------------------------------------------------
/// The attrs of a set that belong in an override.
pub open spec fn included(s: Set<Seq<char>>) -> Set<Seq<char>> {
    s.filter(|a: Seq<char>| included_attr(a))
}

/// Every attr the patched binaries of a package were resolved to.
pub open spec fn patch_attrs(patches: Seq<(String, ResolvedBinary)>) -> Set<Seq<char>>
    decreases patches.len(),
{
    if patches.len() == 0 {
        Set::empty()
    } else {
        patch_attrs(patches.drop_last()).union(members(patches.last().1.nix_libs@))
    }
}

/// The curated libraries of an entry for the platform.
pub open spec fn curated(e: PackageBuildEntry, is_darwin: bool) -> Set<Seq<char>> {
    members(e.libs@).union(
        members(
            if is_darwin {
                e.libs_darwin@
            } else {
                e.libs_linux@
            },
        ),
    )
}

/// The needs of one package as plain values: name, build, runtime and
/// build-system attrs.
pub type LibsView = (Seq<char>, Set<Seq<char>>, Set<Seq<char>>, Set<Seq<char>>);

/// The needs of a package from its patches and its curated entry.
pub open spec fn package_needs(name: Seq<char>, info: PackagePatchInfo, entry: Option<
    PackageBuildEntry,
>, is_darwin: bool) -> LibsView {
    let from_patches = included(patch_attrs(info.patches@));
    match entry {
        Some(e) => (
            name,
            from_patches.union(included(curated(e, is_darwin))),
            included(members(e.runtime_libs@)),
            members(e.build_system@),
        ),
        None => (name, from_patches, Set::empty(), Set::empty()),
    }
}

/// Whether a package has any needs.
pub open spec fn has_needs(v: LibsView) -> bool {
    !(v.1 =~= Set::empty()) || !(v.2 =~= Set::empty()) || !(v.3 =~= Set::empty())
}

/// The packages with needs, in manifest order.
pub open spec fn expected_libs(pkgs: Seq<(String, PackagePatchInfo)>, map: Seq<(String, PackageBuildEntry)>, is_darwin: bool) -> Seq<
    LibsView,
>
    decreases pkgs.len(),
{
    if pkgs.len() == 0 {
        Seq::empty()
    } else {
        let r = expected_libs(pkgs.drop_last(), map, is_darwin);
        let v = package_needs(
            pkgs.last().0@,
            pkgs.last().1,
            entry_of(map, pkgs.last().0@),
            is_darwin,
        );
        if has_needs(v) {
            r.push(v)
        } else {
            r
        }
    }
}

/// Package needs as plain values.
pub open spec fn libs_views(v: Seq<PackageLibs>) -> Seq<LibsView> {
    v.map_values(
        |p: PackageLibs|
            (p.name@, members(p.build_attrs@), members(p.runtime_attrs@), members(
                p.build_system_attrs@,
            )),
    )
}

/// Adds the strings of `items` to a strictly sorted list, only those that
/// belong in an override when `filter` holds.
fn insert_items(set: &mut Vec<String>, items: &Vec<String>, filter: bool)
    requires
        strictly_sorted(views(old(set)@)),
    ensures
        strictly_sorted(views(final(set)@)),
        members(final(set)@) == members(old(set)@).union(
            if filter {
                included(members(items@))
            } else {
                members(items@)
            },
        ),
{
    let ghost start = members(set@);
    let mut i: usize = 0;
    while i < items.len()
        invariant
            i <= items.len(),
            strictly_sorted(views(set@)),
            members(set@) == start.union(
                if filter {
                    included(members(items@.take(i as int)))
                } else {
                    members(items@.take(i as int))
                },
            ),
        decreases items.len() - i,
    {
        let ghost before = set@;
        let ghost x = items@[i as int]@;
        let take = !filter || should_include_attr(items[i].as_str());
        if take {
            crate::sorted::insert_sorted(set, items[i].clone());
            proof {
                crate::sorted::lemma_members_insert(before, set@, x);
            }
        }
        proof {
            let a = views(items@.take(i as int + 1));
            let b = views(items@.take(i as int));
            assert(a =~= b.push(x));
            assert forall|y: Seq<char>| a.contains(y) <==> (b.contains(y) || y == x) by {
                if b.contains(y) {
                    let k = choose|k: int| 0 <= k < b.len() && b[k] == y;
                    assert(a[k] == y);
                }
                if y == x {
                    assert(a[b.len() as int] == y);
                }
                if a.contains(y) {
                    let k = choose|k: int| 0 <= k < a.len() && a[k] == y;
                    if k < b.len() {
                        assert(b[k] == y);
                    }
                }
            }
            assert(members(items@.take(i as int + 1)) =~= members(items@.take(i as int)).insert(x));
            assert(members(set@) =~= start.union(
                if filter {
                    included(members(items@.take(i as int + 1)))
                } else {
                    members(items@.take(i as int + 1))
                },
            ));
        }
        i = i + 1;
    }
    assert(items@.take(items.len() as int) =~= items@);
}

fn package_libs_of(name: &String, info: &PackagePatchInfo, entry: Option<&PackageBuildEntry>, is_darwin: bool) -> (r:
    PackageLibs)
    ensures
        r.wf(),
        (r.name@, members(r.build_attrs@), members(r.runtime_attrs@), members(
            r.build_system_attrs@,
        )) == package_needs(
            name@,
            *info,
            match entry {
                Some(e) => Some(*e),
                None => None,
            },
            is_darwin,
        ),
{
    let mut build: Vec<String> = Vec::new();
    let mut runtime: Vec<String> = Vec::new();
    let mut build_system: Vec<String> = Vec::new();
    assert(members(build@) =~= Set::<Seq<char>>::empty());
    assert(members(runtime@) =~= Set::<Seq<char>>::empty());
    assert(members(build_system@) =~= Set::<Seq<char>>::empty());
    let mut j: usize = 0;
    while j < info.patches.len()
        invariant
            j <= info.patches.len(),
            strictly_sorted(views(build@)),
            members(build@) == included(patch_attrs(info.patches@.take(j as int))),
        decreases info.patches.len() - j,
    {
        insert_items(&mut build, &info.patches[j].1.nix_libs, true);
        proof {
            let t = info.patches@.take(j as int + 1);
            assert(t.drop_last() =~= info.patches@.take(j as int));
            assert(t.last() == info.patches@[j as int]);
            assert(included(patch_attrs(t)) =~= included(
                patch_attrs(info.patches@.take(j as int)),
            ).union(included(members(info.patches@[j as int].1.nix_libs@))));
        }
        j = j + 1;
    }
    assert(info.patches@.take(info.patches.len() as int) =~= info.patches@);
    match entry {
        Some(e) => {
            let ghost b0 = members(build@);
            insert_items(&mut build, &e.libs, true);
            if is_darwin {
                insert_items(&mut build, &e.libs_darwin, true);
            } else {
                insert_items(&mut build, &e.libs_linux, true);
            }
            assert(members(build@) =~= b0.union(included(curated(*e, is_darwin))));
            insert_items(&mut runtime, &e.runtime_libs, true);
            insert_items(&mut build_system, &e.build_system, false);
            assert(members(runtime@) =~= included(members(e.runtime_libs@)));
            assert(members(build_system@) =~= members(e.build_system@));
        },
        None => {},
    }
    PackageLibs {
        name: name.clone(),
        build_attrs: build,
        runtime_attrs: runtime,
        build_system_attrs: build_system,
    }
}

/// The native library needs of each package in the manifest: the attrs its
/// patched binaries were resolved to and, from its curated entry, the
/// platform's libraries (`buildInputs`), the runtime-only libraries
/// (`propagatedBuildInputs`) and build-system packages. Private and implicit
/// attrs are left out, as are packages without needs. The result is sorted
/// by package name.
pub fn collect_package_libs(
    manifest: &PatchManifest,
    package_map: &Vec<(String, PackageBuildEntry)>,
    is_darwin: bool,
) -> (r: Vec<PackageLibs>)
    requires
        manifest.wf(),
    ensures
        libs_views(r@) == expected_libs(manifest.packages@, package_map@, is_darwin),
        forall|i: int| 0 <= i < r@.len() ==> (#[trigger] r@[i]).wf(),
        forall|i: int, j: int| 0 <= i < j < r@.len() ==> seq_lt(#[trigger] r@[i].name@, #[trigger] r@[j].name@),
{
    let ghost keys = keys_of(manifest.packages@);
    let mut result: Vec<PackageLibs> = Vec::new();
    let mut i: usize = 0;
    assert(libs_views(result@) =~= Seq::<LibsView>::empty());
    while i < manifest.packages.len()
        invariant
            i <= manifest.packages.len(),
            manifest.wf(),
            keys == keys_of(manifest.packages@),
            libs_views(result@) == expected_libs(manifest.packages@.take(i as int), package_map@, is_darwin),
            forall|k: int| 0 <= k < result@.len() ==> (#[trigger] result@[k]).wf(),
            forall|k: int| 0 <= k < result@.len() ==> exists|m: int| 0 <= m < i && keys[m] == (#[trigger] result@[k]).name@,
            forall|a: int, b: int| 0 <= a < b < result@.len() ==> seq_lt(#[trigger] result@[a].name@, #[trigger] result@[b].name@),
        decreases manifest.packages.len() - i,
    {
        let name = &manifest.packages[i].0;
        let info = &manifest.packages[i].1;
        let entry = lookup_entry(package_map, name.as_str());
        let p = package_libs_of(name, info, entry, is_darwin);
        let ghost pv = (p.name@, members(p.build_attrs@), members(p.runtime_attrs@), members(p.build_system_attrs@));
        proof {
            let t = manifest.packages@.take(i as int + 1);
            assert(t.drop_last() =~= manifest.packages@.take(i as int));
            assert(t.last() == manifest.packages@[i as int]);
            assert(keys[i as int] == name@);
        }
        let nonempty = p.build_attrs.len() > 0 || p.runtime_attrs.len() > 0 || p.build_system_attrs.len() > 0;
        proof {
            lemma_members_empty(p.build_attrs@);
            lemma_members_empty(p.runtime_attrs@);
            lemma_members_empty(p.build_system_attrs@);
        }
        if nonempty {
            let ghost r0 = result@;
            result.push(p);
            proof {
                assert(libs_views(result@) =~= libs_views(r0).push(pv));
                assert forall|k: int| 0 <= k < result@.len() implies exists|m: int| 0 <= m < i + 1 && keys[m] == (#[trigger] result@[k]).name@ by {
                    if k < r0.len() {
                        assert(result@[k] == r0[k]);
                        let m = choose|m: int| 0 <= m < i && keys[m] == r0[k].name@;
                        assert(0 <= m < i + 1 && keys[m] == result@[k].name@);
                    } else {
                        assert(keys[i as int] == result@[k].name@);
                    }
                }
                assert forall|a: int, b: int| 0 <= a < b < result@.len() implies seq_lt(#[trigger] result@[a].name@, #[trigger] result@[b].name@) by {
                    if b == r0.len() {
                        assert(result@[a] == r0[a]);
                        let m = choose|m: int| 0 <= m < i && keys[m] == r0[a].name@;
                        assert(seq_lt(keys[m], keys[i as int]));
                    } else {
                        assert(result@[a] == r0[a]);
                        assert(result@[b] == r0[b]);
                    }
                }
            }
        }
        i = i + 1;
    }
    assert(manifest.packages@.take(manifest.packages.len() as int) =~= manifest.packages@);
    result
}

/// A list's member set is empty exactly when the list is.
proof fn lemma_members_empty(v: Seq<String>)
    ensures
        (members(v) =~= Set::<Seq<char>>::empty()) <==> v.len() == 0,
{
    if v.len() > 0 {
        assert(views(v)[0] == v[0]@);
        assert(members(v).contains(v[0]@));
    }
}

} // verus!
