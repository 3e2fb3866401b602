//! Rust toolchains for packages whose minimum supported Rust version is newer
//! than nixpkgs' rustc: version checks and the rust-overlay expression.
use vstd::prelude::*;

use crate::nixpkgs::{import_expr, NixpkgsSource};
use crate::config::{toml_string_at, toml_table_string};
use crate::text::{decimal, decimal_u64, owned, views};
use crate::version::{
    is_release, parse_version, release_ge, semver_ge, semver_parse, version_ge, version_opt, SemVersion,
    VersionView,
};

verus! {

/// A `rust-version` such as `1.95` or `1.95.0`: parsed as it is, else with
/// `.0` appended.
pub open spec fn rust_version_of(s: Seq<char>) -> Option<VersionView> {
    match semver_parse(s) {
        Some(v) => Some(v),
        None => semver_parse(s + ".0"@),
    }
}

/// Parses a `rust-version` string, in its two- or three-component form.
pub fn parse_rust_version(s: &str) -> (r: Option<SemVersion>)
    ensures
        version_opt(r) == rust_version_of(s@),
{
    match parse_version(s) {
        Some(v) => Some(v),
        None => {
            let mut t = owned(s);
            t.append(".0");
            parse_version(t.as_str())
        },
    }
}

/// The minimum Rust version a Cargo manifest declares in
/// `[package].rust-version`, parsed.
pub open spec fn manifest_msrv(content: Seq<char>) -> Option<VersionView> {
    match toml_table_string(content, "package"@, "rust-version"@) {
        Some(s) => rust_version_of(s),
        None => None,
    }
}

/// Reads `[package].rust-version` from the text of a `Cargo.toml`.
pub fn parse_msrv_from_cargo_toml(content: &str) -> (r: Option<SemVersion>)
    ensures
        version_opt(r) == manifest_msrv(content@),
{
    match toml_string_at(content, "package", "rust-version") {
        Some(s) => parse_rust_version(s.as_str()),
        None => None,
    }
}

/// The first minimum Rust version the manifests declare.
pub open spec fn first_msrv(manifests: Seq<Seq<char>>) -> Option<VersionView>
    decreases manifests.len(),
{
    if manifests.len() == 0 {
        None
    } else {
        match manifest_msrv(manifests[0]) {
            Some(v) => Some(v),
            None => first_msrv(manifests.drop_first()),
        }
    }
}

/// The minimum Rust version of a source tree: `manifests` holds the text of
/// its root `Cargo.toml`, if any, then of those one directory down, in the
/// order the directory listing gave them.
pub fn detect_msrv(manifests: &Vec<String>) -> (r: Option<SemVersion>)
    ensures
        version_opt(r) == first_msrv(views(manifests@)),
{
    let ghost mv = views(manifests@);
    let mut i: usize = 0;
    assert(mv.skip(0) =~= mv);
    while i < manifests.len()
        invariant
            i <= manifests.len(),
            mv == views(manifests@),
            first_msrv(mv) == first_msrv(mv.skip(i as int)),
        decreases manifests.len() - i,
    {
        assert(mv.skip(i as int)[0] == manifests@[i as int]@);
        match parse_msrv_from_cargo_toml(manifests[i].as_str()) {
            Some(v) => return Some(v),
            None => {},
        }
        assert(mv.skip(i as int).drop_first() =~= mv.skip(i as int + 1));
        i = i + 1;
    }
    None
}

/// The rustc version `nix eval --raw` printed: its trimmed text, parsed.
pub fn rustc_version_of(output: &str) -> (r: Option<SemVersion>)
    ensures
        version_opt(r) == rust_version_of(crate::text::trim(output@)),
{
    let t = crate::text::trim_string(output);
    parse_rust_version(t.as_str())
}

/// Whether nixpkgs' rustc suffices for a package.
#[derive(Debug)]
pub enum RustRequirement {
    Satisfied,
    NeedsOverlay { msrv: SemVersion },
}

/// Whether nixpkgs' rustc satisfies the package's minimum Rust version.
pub fn check_rust_requirement(msrv: &SemVersion, nixpkgs_version: &SemVersion) -> (r: RustRequirement)
    ensures
        match r {
            RustRequirement::Satisfied => semver_ge(nixpkgs_version.view_of(), msrv.view_of()),
            RustRequirement::NeedsOverlay { msrv: m } => !semver_ge(nixpkgs_version.view_of(), msrv.view_of())
                && m.view_of() == msrv.view_of(),
        },
        is_release(msrv.view_of()) && is_release(nixpkgs_version.view_of()) ==> (r is Satisfied
            <==> release_ge(nixpkgs_version.view_of(), msrv.view_of())),
{
    if version_ge(nixpkgs_version, msrv) {
        RustRequirement::Satisfied
    } else {
        RustRequirement::NeedsOverlay {
            msrv: SemVersion {
                major: msrv.major,
                minor: msrv.minor,
                patch: msrv.patch,
                pre: msrv.pre.clone(),
                build: msrv.build.clone(),
            },
        }
    }
}

/// The stable toolchain used for a minimum version: its release part.
pub fn find_stable_version(msrv: &SemVersion) -> (r: SemVersion)
    ensures
        r.view_of() == (msrv.major, msrv.minor, msrv.patch, Seq::<char>::empty(), Seq::<char>::empty()),
{
    SemVersion::new(msrv.major, msrv.minor, msrv.patch)
}

/// `major.minor.patch`.
pub open spec fn release_text(v: VersionView) -> Seq<char> {
    decimal(v.0 as nat) + "."@ + decimal(v.1 as nat) + "."@ + decimal(v.2 as nat)
}

/// The version as `major.minor.patch`.
pub fn release_string(v: &SemVersion) -> (r: String)
    ensures
        r@ == release_text(v.view_of()),
{
    let mut r = decimal_u64(v.major);
    r.append(".");
    r.append(decimal_u64(v.minor).as_str());
    r.append(".");
    r.append(decimal_u64(v.patch).as_str());
    r
}

/// The rust-overlay state locked in `.venv/share/uv-nix/locked.json`.
#[derive(Debug)]
pub struct LockedInputs {
    pub rust_overlay: Option<LockedRustOverlay>,
}

/// A locked rust-overlay rev and the toolchain version resolved with it.
#[derive(Debug)]
pub struct LockedRustOverlay {
    pub rev: String,
    pub resolved_version: String,
}

/// The locked rev to reuse: the locked toolchain version still satisfies
/// the minimum. `None` means the latest rev has to be looked up.
pub open spec fn reusable_rev(locked: Option<LockedInputs>, msrv: VersionView) -> Option<Seq<char>> {
    match locked {
        Some(l) => match l.rust_overlay {
            Some(o) => match rust_version_of(o.resolved_version@) {
                Some(v) => if semver_ge(v, msrv) {
                    Some(o.rev@)
                } else {
                    None
                },
                None => None,
            },
            None => None,
        },
        None => None,
    }
}

/// The locked toolchain version, when it is a release version.
pub open spec fn locked_release(locked: Option<LockedInputs>) -> Option<VersionView> {
    match locked {
        Some(l) => match l.rust_overlay {
            Some(o) => match rust_version_of(o.resolved_version@) {
                Some(v) => if is_release(v) {
                    Some(v)
                } else {
                    None
                },
                None => None,
            },
            None => None,
        },
        None => None,
    }
}

/// The locked rust-overlay rev, when its toolchain still satisfies `msrv`.
/// Between release versions that is numeric order.
pub fn locked_overlay_rev(locked: &Option<LockedInputs>, msrv: &SemVersion) -> (r: Option<String>)
    ensures
        match r {
            Some(x) => reusable_rev(*locked, msrv.view_of()) == Some(x@),
            None => reusable_rev(*locked, msrv.view_of()) is None,
        },
        match locked_release(*locked) {
            Some(v) => is_release(msrv.view_of()) ==> (r is Some <==> release_ge(v, msrv.view_of())),
            None => true,
        },
{
    match locked {
        Some(l) => match &l.rust_overlay {
            Some(o) => match parse_rust_version(o.resolved_version.as_str()) {
                Some(v) => if version_ge(&v, msrv) {
                    Some(o.rev.clone())
                } else {
                    None
                },
                None => None,
            },
            None => None,
        },
        None => None,
    }
}

/// A saved lock is reused as long as the toolchain version it records
/// still satisfies the minimum version, and only then.
pub proof fn lemma_lock_reused(l: LockedInputs, msrv: VersionView)
    requires
        l.rust_overlay is Some,
    ensures
        ({
            let o = l.rust_overlay.unwrap();
            reusable_rev(Some(l), msrv) == (if rust_version_of(o.resolved_version@) is Some && semver_ge(
                rust_version_of(o.resolved_version@).unwrap(),
                msrv,
            ) {
                Some(o.rev@)
            } else {
                None
            })
        }),
{
}

/// The lock to save after resolving a toolchain.
pub fn lock_for(rev: &str, version: &str) -> (r: LockedInputs)
    ensures
        r.rust_overlay matches Some(o) && o.rev@ == rev@ && o.resolved_version@ == version@,
{
    LockedInputs {
        rust_overlay: Some(LockedRustOverlay { rev: owned(rev), resolved_version: owned(version) }),
    }
}

/// The expression that gives nixpkgs' rustc version.
pub fn rustc_version_expr(source: &NixpkgsSource, system: &str) -> (r: String)
    ensures
        r@ == "("@ + import_expr(*source, system@) + ").rustc.version"@,
{
    let mut r = owned("(");
    r.append(crate::nixpkgs::nixpkgs_import_expr(source, system).as_str());
    r.append(").rustc.version");
    r
}

/// The expression that builds the rust-overlay toolchain on the project's nixpkgs.
pub open spec fn toolchain_expr_text(pkgs_expr: Seq<char>, overlay_rev: Seq<char>, version: Seq<char>) -> Seq<char> {
    "let\n  basePkgs = "@ + pkgs_expr + ";\n  overlay = (builtins.getFlake \"github:oxalica/rust-overlay/"@
        + overlay_rev + "\").overlays.default;\n  pkgs = basePkgs.extend overlay;\nin pkgs.rust-bin.stable.\""@
        + version + "\".default"@
}

/// The expression that builds the stable toolchain `rust_version` from
/// rust-overlay at `overlay_rev`, on the project's nixpkgs.
pub fn toolchain_expr(overlay_rev: &str, rust_version: &str, source: &NixpkgsSource, system: &str) -> (r: String)
    ensures
        r@ == toolchain_expr_text(import_expr(*source, system@), overlay_rev@, rust_version@),
{
    let mut r = owned("let\n  basePkgs = ");
    r.append(crate::nixpkgs::nixpkgs_import_expr(source, system).as_str());
    r.append(";\n  overlay = (builtins.getFlake \"github:oxalica/rust-overlay/");
    r.append(overlay_rev);
    r.append("\").overlays.default;\n  pkgs = basePkgs.extend overlay;\nin pkgs.rust-bin.stable.\"");
    r.append(rust_version);
    r.append("\".default");
    r
}

/// A toolchain in the Nix store.
#[derive(Debug)]
pub struct ResolvedRustToolchain {
    /// The toolchain's `bin` directory.
    pub bin_path: String,
}

/// The toolchain whose store path `nix build` printed.
pub fn toolchain_at(store_path: &str) -> (r: ResolvedRustToolchain)
    ensures
        r.bin_path@ == store_path@ + "/bin"@,
{
    let mut p = owned(store_path);
    p.append("/bin");
    ResolvedRustToolchain { bin_path: p }
}

} // verus!
