use uv_nix::nix_config::PackageBuildEntry;
use uv_nix::nixgen::{
    collect_package_libs, is_valid_nix_ident, render_nix_attr, render_overlay,
    render_package_nix, should_include_attr, PackageLibs,
};
use uv_nix::soname::{PackagePatchInfo, PatchManifest, ResolvedBinary};

type PkgSpec<'a> = (&'a str, &'a str, Vec<(&'a str, Vec<&'a str>)>);

fn strings(items: &[&str]) -> Vec<String> {
    items.iter().map(|s| s.to_string()).collect()
}

/// A manifest from a list of (package, version, [(binary, [nix_libs])]).
fn make_manifest(packages: Vec<PkgSpec<'_>>) -> PatchManifest {
    let mut m = PatchManifest::empty("abc123");
    for (name, version, binaries) in packages {
        let mut info = PackagePatchInfo::new(version);
        for (bin_path, libs) in binaries {
            info.insert_patch(
                bin_path.to_string(),
                ResolvedBinary {
                    needed: vec![],
                    nix_libs: strings(&libs),
                    rpaths_added: vec![],
                },
            );
        }
        m.upsert_package(name.to_string(), info);
    }
    m
}

fn entry(libs: &[&str], runtime: &[&str], build_system: &[&str]) -> PackageBuildEntry {
    PackageBuildEntry {
        libs: strings(libs),
        build_tools: vec![],
        libs_linux: vec![],
        libs_darwin: vec![],
        runtime_libs: strings(runtime),
        build_system: strings(build_system),
    }
}

/// The curated entries these tests rely on.
fn package_map() -> Vec<(String, PackageBuildEntry)> {
    vec![
        (
            "matplotlib".to_string(),
            entry(&["freetype", "libpng"], &["fontconfig"], &[]),
        ),
        (
            "pysodium".to_string(),
            entry(&[], &["libsodium"], &["setuptools"]),
        ),
    ]
}

fn collect(manifest: &PatchManifest) -> Vec<PackageLibs> {
    collect_package_libs(manifest, &package_map(), false)
}

fn has(v: &[String], s: &str) -> bool {
    v.iter().any(|x| x == s)
}

fn make_pkg(name: &str, build: &[&str], runtime: &[&str]) -> PackageLibs {
    PackageLibs::from_lists(name, strings(build), strings(runtime), vec![])
}

fn make_pkg_full(name: &str, build: &[&str], runtime: &[&str], build_system: &[&str]) -> PackageLibs {
    PackageLibs::from_lists(name, strings(build), strings(runtime), strings(build_system))
}

#[test]
fn collect_package_libs_basic() {
    let manifest = make_manifest(vec![
        (
            "numpy",
            "1.26.0",
            vec![("numpy/core/_multiarray.so", vec!["openblas", "zlib"])],
        ),
        ("pandas", "2.1.0", vec![("pandas/_libs/lib.so", vec!["zlib"])]),
    ]);
    let libs = collect(&manifest);
    let numpy = libs.iter().find(|p| p.name == "numpy").unwrap();
    assert!(has(&numpy.build_attrs, "openblas"));
    assert!(has(&numpy.build_attrs, "zlib"));
    let pandas = libs.iter().find(|p| p.name == "pandas").unwrap();
    assert!(has(&pandas.build_attrs, "zlib"));
}

#[test]
fn collect_package_libs_deduplicates() {
    let manifest = make_manifest(vec![(
        "numpy",
        "1.26.0",
        vec![
            ("numpy/core/_multiarray.so", vec!["openblas", "zlib"]),
            ("numpy/linalg/_umath_linalg.so", vec!["openblas"]),
        ],
    )]);
    let libs = collect(&manifest);
    let numpy = libs.iter().find(|p| p.name == "numpy").unwrap();
    assert!(has(&numpy.build_attrs, "openblas"));
    assert!(has(&numpy.build_attrs, "zlib"));
    assert_eq!(numpy.build_attrs, vec!["openblas".to_string(), "zlib".to_string()]);
}

#[test]
fn collect_package_libs_filters_underscore_attrs() {
    let manifest = make_manifest(vec![(
        "foo",
        "1.0.0",
        vec![("foo/bar.so", vec!["zlib", "_internal_thing"])],
    )]);
    let libs = collect(&manifest);
    let foo = libs.iter().find(|p| p.name == "foo").unwrap();
    assert!(has(&foo.build_attrs, "zlib"));
    assert!(!has(&foo.build_attrs, "_internal_thing"));
}

#[test]
fn collect_package_libs_filters_system_attrs() {
    let manifest = make_manifest(vec![(
        "numpy",
        "1.26.0",
        vec![(
            "numpy/core/_multiarray.so",
            vec!["openblas", "glibc", "stdenv.cc.cc.lib", "util-linux.out"],
        )],
    )]);
    let libs = collect(&manifest);
    let numpy = libs.iter().find(|p| p.name == "numpy").unwrap();
    assert!(has(&numpy.build_attrs, "openblas"));
    assert!(!has(&numpy.build_attrs, "glibc"));
    assert!(!has(&numpy.build_attrs, "stdenv.cc.cc.lib"));
    assert!(!has(&numpy.build_attrs, "util-linux.out"));
}

#[test]
fn collect_package_libs_skips_package_with_only_system_attrs() {
    let manifest = make_manifest(vec![(
        "foo",
        "1.0.0",
        vec![("foo/bar.so", vec!["glibc", "stdenv.cc.cc.lib"])],
    )]);
    let libs = collect(&manifest);
    assert!(libs.iter().find(|p| p.name == "foo").is_none());
}

#[test]
fn collect_package_libs_skips_empty() {
    let manifest = make_manifest(vec![
        (
            "numpy",
            "1.26.0",
            vec![("numpy/core/_multiarray.so", vec!["openblas"])],
        ),
        ("pure-python", "1.0.0", vec![]),
    ]);
    let libs = collect(&manifest);
    assert!(libs.iter().find(|p| p.name == "numpy").is_some());
    assert!(libs.iter().find(|p| p.name == "pure-python").is_none());
}

#[test]
fn collect_package_libs_sorted() {
    let manifest = make_manifest(vec![
        ("zlib-wrapper", "1.0.0", vec![("z.so", vec!["zlib"])]),
        ("aaa-lib", "1.0.0", vec![("a.so", vec!["openssl"])]),
    ]);
    let libs = collect(&manifest);
    let names: Vec<&str> = libs.iter().map(|p| p.name.as_str()).collect();
    assert!(names.windows(2).all(|w| w[0] <= w[1]));
    assert_eq!(names, vec!["aaa-lib", "zlib-wrapper"]);
}

#[test]
fn collect_package_libs_merges_curated_libs() {
    let manifest = make_manifest(vec![(
        "matplotlib",
        "3.8.0",
        vec![("matplotlib/_c_internal.so", vec!["zlib"])],
    )]);
    let libs = collect(&manifest);
    let mpl = libs.iter().find(|p| p.name == "matplotlib").unwrap();
    assert!(has(&mpl.build_attrs, "zlib"));
    assert!(has(&mpl.build_attrs, "freetype"));
    assert!(has(&mpl.build_attrs, "libpng"));
    assert!(has(&mpl.runtime_attrs, "fontconfig"));
}

#[test]
fn collect_package_libs_runtime_only_package() {
    let manifest = make_manifest(vec![("pysodium", "0.7.18", vec![])]);
    let libs = collect(&manifest);
    let ps = libs.iter().find(|p| p.name == "pysodium").unwrap();
    assert!(ps.build_attrs.is_empty());
    assert!(has(&ps.runtime_attrs, "libsodium"));
    assert!(has(&ps.build_system_attrs, "setuptools"));
}

#[test]
fn render_overlay_single_package() {
    let packages = vec![make_pkg("numpy", &["openblas"], &[])];
    let output = render_overlay(&packages);
    assert!(output.contains("Auto-generated"));
    assert!(output.contains("final: prev:"));
    assert!(output.contains("numpy = prev.numpy.overrideAttrs"));
    assert!(output.contains("buildInputs"));
    assert!(output.contains("pkgs.openblas"));
    assert!(!output.contains("propagatedBuildInputs"));
}

#[test]
fn render_overlay_with_runtime_attrs() {
    let packages = vec![make_pkg("matplotlib", &["freetype"], &["fontconfig"])];
    let output = render_overlay(&packages);
    assert!(output.contains("buildInputs"));
    assert!(output.contains("pkgs.freetype"));
    assert!(output.contains("propagatedBuildInputs"));
    assert!(output.contains("pkgs.fontconfig"));
}

#[test]
fn render_overlay_runtime_only() {
    let packages = vec![make_pkg("pysodium", &[], &["libsodium"])];
    let output = render_overlay(&packages);
    assert!(!output.contains("buildInputs ="));
    assert!(output.contains("propagatedBuildInputs"));
    assert!(output.contains("pkgs.libsodium"));
}

#[test]
fn render_overlay_with_build_system() {
    let packages = vec![make_pkg_full("pysodium", &[], &["libsodium"], &["setuptools"])];
    let output = render_overlay(&packages);
    assert!(output.contains("propagatedBuildInputs"));
    assert!(output.contains("pkgs.libsodium"));
    assert!(output.contains("nativeBuildInputs"));
    assert!(output.contains("final.setuptools"));
    assert!(!output.contains("pkgs.setuptools"));
}

#[test]
fn render_overlay_build_system_only() {
    let packages = vec![make_pkg_full("legacy-pkg", &[], &[], &["setuptools", "wheel"])];
    let output = render_overlay(&packages);
    assert!(!output.contains("buildInputs ="));
    assert!(!output.contains("propagatedBuildInputs"));
    assert!(output.contains("nativeBuildInputs"));
    assert!(output.contains("final.setuptools"));
    assert!(output.contains("final.wheel"));
}

#[test]
fn render_overlay_multiple_packages() {
    let packages = vec![
        make_pkg("numpy", &["openblas", "zlib"], &[]),
        make_pkg("pandas", &["zlib"], &[]),
    ];
    let output = render_overlay(&packages);
    assert!(output.contains("numpy = prev.numpy.overrideAttrs"));
    assert!(output.contains("pkgs.openblas"));
    assert!(output.contains("pkgs.zlib"));
    assert!(output.contains("pandas = prev.pandas.overrideAttrs"));
}

#[test]
fn render_overlay_empty() {
    let output = render_overlay(&[]);
    assert!(output.contains("final: prev:"));
}

#[test]
fn render_overlay_exact_text() {
    let packages = vec![make_pkg_full("foo", &["zlib"], &["libsodium"], &["setuptools"])];
    let output = render_overlay(&packages);
    let expected = "# Auto-generated by `uv nix gen`. Do not edit.\n\
# Native library overrides for uv2nix packages.\n\
{ pkgs, lib, ... }:\n\
final: prev: {\n\
\x20 foo = prev.foo.overrideAttrs (old: {\n\
\x20   buildInputs = (old.buildInputs or []) ++ [\n\
\x20     pkgs.zlib\n\
\x20   ];\n\
\x20   propagatedBuildInputs = (old.propagatedBuildInputs or []) ++ [\n\
\x20     pkgs.libsodium\n\
\x20   ];\n\
\x20   nativeBuildInputs = (old.nativeBuildInputs or []) ++ [\n\
\x20     final.setuptools\n\
\x20   ];\n\
\x20 });\n\
}\n";
    assert_eq!(output, expected);
}

#[test]
fn render_package_nix_contains_uv2nix_boilerplate() {
    let packages = vec![make_pkg("numpy", &["openblas"], &[])];
    let output = render_package_nix(&packages, true);
    assert!(output.contains("uv2nix"));
    assert!(output.contains("pyproject-nix"));
    assert!(output.contains("pyproject-build-systems"));
    assert!(output.contains("loadWorkspace"));
    assert!(output.contains("mkPyprojectOverlay"));
    assert!(output.contains("sourcePreference ? \"wheel\""));
    assert!(output.contains("inherit sourcePreference"));
    assert!(output.contains("composeManyExtensions"));
    assert!(output.contains("mkVirtualEnv"));
    assert!(output.contains("numpy = prev.numpy.overrideAttrs"));
}

#[test]
fn render_package_nix_with_propagated() {
    let packages = vec![make_pkg("matplotlib", &["freetype"], &["fontconfig"])];
    let output = render_package_nix(&packages, true);
    assert!(output.contains("buildInputs"));
    assert!(output.contains("pkgs.freetype"));
    assert!(output.contains("propagatedBuildInputs"));
    assert!(output.contains("pkgs.fontconfig"));
}

#[test]
fn render_package_nix_with_build_system() {
    let packages = vec![make_pkg_full("pysodium", &[], &["libsodium"], &["setuptools"])];
    let output = render_package_nix(&packages, true);
    assert!(output.contains("propagatedBuildInputs"));
    assert!(output.contains("pkgs.libsodium"));
    assert!(output.contains("nativeBuildInputs"));
    assert!(output.contains("final.setuptools"));
    assert!(!output.contains("pkgs.setuptools"));
}

#[test]
fn render_package_nix_prefer_sdist() {
    let output = render_package_nix(&[], false);
    assert!(output.contains("sourcePreference ? \"sdist\""));
}

#[test]
fn render_package_nix_empty_packages() {
    let output = render_package_nix(&[], true);
    assert!(output.contains("uv2nix"));
    assert!(output.contains("mkVirtualEnv"));
}

#[test]
fn render_package_nix_indents_overrides() {
    let packages = vec![make_pkg("numpy", &["openblas"], &[])];
    let output = render_package_nix(&packages, true);
    assert!(output.contains("\n    numpy = prev.numpy.overrideAttrs (old: {\n      buildInputs = (old.buildInputs or []) ++ [\n        pkgs.openblas\n      ];\n    });\n"));
}

#[test]
fn is_valid_nix_ident_basic() {
    assert!(is_valid_nix_ident("openssl"));
    assert!(is_valid_nix_ident("zlib"));
    assert!(is_valid_nix_ident("libjpeg_turbo"));
    assert!(is_valid_nix_ident("arrow-cpp"));
    assert!(is_valid_nix_ident("_private"));
    assert!(is_valid_nix_ident("boost188"));
}

#[test]
fn is_valid_nix_ident_invalid() {
    assert!(!is_valid_nix_ident(""));
    assert!(!is_valid_nix_ident("123abc"));
    assert!(!is_valid_nix_ident("foo bar"));
    assert!(!is_valid_nix_ident("foo.bar"));
}

#[test]
fn render_nix_attr_simple() {
    assert_eq!(render_nix_attr("openssl"), "pkgs.openssl");
    assert_eq!(render_nix_attr("arrow-cpp"), "pkgs.arrow-cpp");
}

#[test]
fn render_nix_attr_dotted_path() {
    assert_eq!(render_nix_attr("stdenv.cc.cc.lib"), "pkgs.stdenv.cc.cc.lib");
    assert_eq!(render_nix_attr("gfortran.cc.lib"), "pkgs.gfortran.cc.lib");
}

#[test]
fn render_nix_attr_needs_quoting() {
    assert_eq!(render_nix_attr("foo.123bar"), "pkgs.foo.${ \"123bar\" }");
}

#[test]
fn should_include_attr_rules() {
    assert!(should_include_attr("zlib"));
    assert!(!should_include_attr("_internal"));
    assert!(!should_include_attr("glibc"));
    assert!(!should_include_attr("stdenv.cc.cc.lib"));
    assert!(!should_include_attr("util-linux.out"));
    assert!(should_include_attr("glibc.dev"));
}

#[test]
fn package_libs_from_lists_sorts_and_dedups() {
    let p = PackageLibs::from_lists("x", strings(&["zlib", "openblas", "zlib"]), vec![], vec![]);
    assert_eq!(p.build_attrs, vec!["openblas".to_string(), "zlib".to_string()]);
}
