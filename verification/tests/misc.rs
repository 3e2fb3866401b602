use uv_nix::cli::{
    dim_line, elf_rpath_entries, macho_rpath_entries, patch_summary, rebuild_summary,
    rebuilding_line, rpath_has_store_path, status_line,
};
use uv_nix::ctypes_hook::merge_lib_paths;
use uv_nix::nix_build::{escape_nix_indented, patched_python_attrs, patched_python_expr, replace_all};
use uv_nix::nix_config::PackageBuildEntry;
use uv_nix::nixpkgs::NixpkgsSource;
use uv_nix::python_install::{
    find_python_requirement, parse_python_version, python_build_expr, python_candidates,
    python_version_accepted, parse_simple_version, parse_u8, python_attr, python_version_of, read_uv_lock_python,
    trim_matches_char,
};
use uv_nix::{binary_name_candidate, current_system, extra_rpath_entries, parse_dist_prefix, record_paths};

use uv_nix::{confirm_step, ConfirmKey, ConfirmStep};
use uv_nix::cli::{entry_name_key, package_name_key, packages_by_name};
use uv_nix::cli::{venv_info, PatchedPackageInfo};
use uv_nix::build_env::{needs_cargo, package_source};
use uv_nix::config::PackageConfig;
use uv_nix::soname::{add_attr_sonames, soname_entry_included, soname_eval_expr, LibDirEntry};
use uv_nix::nixpkgs::{resolve_build_paths, BuildPathsPlan};

fn strings(items: &[&str]) -> Vec<String> {
    items.iter().map(|s| s.to_string()).collect()
}

#[test]
fn nix_system_names() {
    assert_eq!(current_system("linux", "x86_64"), "x86_64-linux");
    assert_eq!(current_system("linux", "aarch64"), "aarch64-linux");
    assert_eq!(current_system("macos", "x86_64"), "x86_64-darwin");
    assert_eq!(current_system("macos", "aarch64"), "aarch64-darwin");
    assert_eq!(current_system("windows", "x86_64"), "unknown");
}

#[test]
fn dist_info_prefixes() {
    assert_eq!(parse_dist_prefix("numpy-2.4.6"), ("numpy".to_string(), "2.4.6".to_string()));
    assert_eq!(
        parse_dist_prefix("typing_extensions-4.12.2"),
        ("typing-extensions".to_string(), "4.12.2".to_string())
    );
    assert_eq!(parse_dist_prefix("foo-bar"), ("foo-bar".to_string(), String::new()));
}

#[test]
fn record_file_paths() {
    let record = "numpy/core/_multiarray.so,sha256=abc,123\nnumpy-2.4.6.dist-info/RECORD,,\n\nnumpy/__init__.py,sha256=x,1\n";
    assert_eq!(record_paths(record), vec!["numpy/core/_multiarray.so", "numpy/__init__.py"]);
}

#[test]
fn binary_file_names() {
    assert!(binary_name_candidate("_multiarray.cpython-312-x86_64-linux-gnu.so", false));
    assert!(binary_name_candidate("libz.so.1", false));
    assert!(binary_name_candidate("ruff", false));
    assert!(!binary_name_candidate("__init__.py", false));
    assert!(binary_name_candidate("libfoo.dylib", true));
    assert!(!binary_name_candidate("libfoo.dylib", false));
}

#[test]
fn extra_rpath_names() {
    assert_eq!(
        extra_rpath_entries("/a::/b"),
        vec![("_extra_0".to_string(), "/a".to_string()), ("_extra_1".to_string(), "/b".to_string())]
    );
}

#[test]
fn python_versions() {
    assert_eq!(parse_u8("12"), Some(12));
    assert_eq!(parse_u8("+7"), Some(7));
    assert_eq!(parse_u8("256"), None);
    assert_eq!(parse_u8(""), None);
    assert_eq!(parse_simple_version("3.12"), Some((3, 12)));
    assert_eq!(parse_simple_version("3.12.1"), Some((3, 12)));
    assert_eq!(parse_simple_version(">=3.10,<3.13"), None);
    assert_eq!(parse_simple_version("3"), None);
    assert_eq!(python_attr(3, 12), "python312");
}

#[test]
fn uv_lock_requires_python_line() {
    let lock = "version = 1\nrequires-python = \">=3.10\"\n[[package]]\n";
    assert_eq!(read_uv_lock_python(lock), Some(">=3.10".to_string()));
    assert_eq!(read_uv_lock_python("version = 1\n"), None);
    assert_eq!(trim_matches_char("\"\"x\"", '"'), "x");
}

#[test]
fn python_version_output() {
    assert_eq!(python_version_of("Python 3.12.1\n"), Some("3.12.1".to_string()));
    assert_eq!(python_version_of("pypy"), None);
}

#[test]
fn ctypes_library_list_merge() {
    let merged = merge_lib_paths(Some("/a\n\n /b \n"), &strings(&["/b", "/c"]));
    assert_eq!(merged, "/a\n/b\n/c\n");
    assert_eq!(merge_lib_paths(None, &strings(&["/x"])), "/x\n");
}

#[test]
fn nix_indented_string_escape() {
    assert_eq!(replace_all("aXbXc", "X", "--"), "a--b--c");
    assert_eq!(escape_nix_indented("a''b${c}"), "a'''b''${c}");
}

#[test]
fn patched_python_derivation() {
    let map = vec![(
        "psycopg2".to_string(),
        PackageBuildEntry {
            libs: strings(&["libpq", "zlib"]),
            build_tools: vec![],
            libs_linux: vec![],
            libs_darwin: vec![],
            runtime_libs: vec![],
            build_system: vec![],
        },
    )];
    let attrs = patched_python_attrs(&strings(&["zlib", "openssl"]), &map);
    assert_eq!(attrs, vec!["libpq", "openssl", "zlib"]);
    let source = NixpkgsSource::FlakeLock { rev: "abc".to_string() };
    let expr = patched_python_expr(&source, "x86_64-linux", &attrs, "import os\n", "/nix/store/py");
    assert!(expr.starts_with("let\n  pkgs = import (builtins.fetchTree"));
    assert!(expr.contains("src = builtins.storePath \"/nix/store/py\";"));
    assert!(expr.contains("import os\n''"));
}

#[test]
fn status_lines() {
    assert_eq!(
        patch_summary(1, 2),
        "\x1b[1m\x1b[32mPatched\x1b[39m\x1b[0m \x1b[1m1 binary\x1b[0m in \x1b[1m2 packages\x1b[0m\n"
    );
    assert_eq!(
        rebuild_summary(3),
        "\x1b[1m\x1b[32mRebuilt\x1b[39m\x1b[0m \x1b[1m3 binaries\x1b[0m\n"
    );
    assert_eq!(rebuilding_line(1), "\x1b[2mRebuilding 1 package...\x1b[0m\n");
    assert_eq!(status_line("Patching", "numpy"), "\x1b[2mPatching numpy...\x1b[0m\n");
    assert_eq!(dim_line("done"), "\x1b[2mdone\x1b[0m\n");
}

#[test]
fn rpath_output_parsing() {
    assert_eq!(elf_rpath_entries("/a:/nix/store/x/lib\n"), vec!["/a", "/nix/store/x/lib"]);
    assert!(elf_rpath_entries("  \n").is_empty());
    let otool = "Load command 12\n          cmd LC_RPATH\n      cmdsize 32\n         path @loader_path/ (offset 12)\n";
    assert_eq!(macho_rpath_entries(otool), vec!["@loader_path/"]);
    assert!(rpath_has_store_path(&strings(&["/a", "/nix/store/x/lib"])));
    assert!(!rpath_has_store_path(&strings(&["/a"])));
}

#[test]
fn python_requirement_parsing() {
    let r = parse_python_version(" 3.12 ").unwrap();
    assert_eq!(r.version, "~3.12");
    assert_eq!(r.minor, Some((3, 12)));
    let r = parse_python_version(">=3.10,<3.13").unwrap();
    assert_eq!(r.version, ">=3.10,<3.13");
    assert_eq!(r.minor, None);
    assert!(parse_python_version("not a version").is_none());
}

#[test]
fn python_requirement_sources_in_order() {
    let pyproject = "[project]\nname = \"x\"\nrequires-python = \">=3.9\"\n";
    let lock = "version = 1\nrequires-python = \">=3.11\"\n";
    let r = find_python_requirement(Some("3.12\n"), Some(lock), Some(pyproject)).unwrap();
    assert_eq!(r.version, "~3.12");
    let r = find_python_requirement(None, Some(lock), Some(pyproject)).unwrap();
    assert_eq!(r.version, ">=3.11");
    let r = find_python_requirement(Some("garbage!"), None, Some(pyproject)).unwrap();
    assert_eq!(r.version, ">=3.9");
    assert!(find_python_requirement(None, None, None).is_none());
}

#[test]
fn python_interpreter_choice() {
    let r = parse_python_version("3.12").unwrap();
    assert_eq!(python_candidates(&r), vec!["python312", "python3"]);
    assert!(python_version_accepted(&r, "Python 3.12.4\n"));
    assert!(!python_version_accepted(&r, "Python 3.13.0\n"));
    assert!(!python_version_accepted(&r, "garbage"));
    let open = parse_python_version(">=3.10").unwrap();
    assert_eq!(python_candidates(&open), vec!["python3"]);
    assert!(python_version_accepted(&open, "Python 3.13.0"));
    assert_eq!(python_build_expr("P", "python3"), "(P)");
    assert_eq!(python_build_expr("P", "python312"), "(P).python312");
}

#[test]
fn status_and_warning_lines() {
    assert_eq!(uv_nix::status_message("Patching", "numpy", false), "    Patching numpy\n");
    assert_eq!(
        uv_nix::status_message("Resolved", "nix configuration", true),
        "\x1b[1;32m    Resolved\x1b[0m nix configuration\n"
    );
    assert_eq!(uv_nix::status_message("AVeryLongVerbHere", "x", false), "AVeryLongVerbHere x\n");
    assert_eq!(uv_nix::warning_message("careful", false), "     warning: careful\n");
    assert_eq!(uv_nix::warning_message("careful", true), "\x1b[1;33m     warning\x1b[0m: careful\n");
}

#[test]
fn hello_and_timing() {
    assert_eq!(uv_nix::nix_hello(Some("Ada")), "Hello, Ada! uv-nix is working.\n");
    assert_eq!(uv_nix::nix_hello(None), "Hello from uv-nix! The nix subcommand is working.\n");
    assert!(uv_nix::timing_enabled(Some("1")));
    assert!(!uv_nix::timing_enabled(Some("true")));
    assert!(!uv_nix::timing_enabled(None));
    assert_eq!(
        uv_nix::timing_line(12, 3, 4, 50, 70, false),
        "uv-nix-timing: nix_resolve=12ms find_binaries=3ms (4 files) patch=50ms total=70ms\n"
    );
    assert_eq!(
        uv_nix::timing_line(1, 2, 0, 0, 3, true),
        "uv-nix-timing: nix_resolve=1ms find_binaries=2ms (0 files) patch=0ms total=3ms (fallback)\n"
    );
}

#[test]
fn musl_detection_and_prompt_keys() {
    assert!(uv_nix::musl_by_name("cpython-3.12.13-linux-x86_64-musl"));
    assert!(!uv_nix::musl_by_name("cpython-3.12.13-linux-x86_64-gnu"));
    assert!(uv_nix::python_binary_name("python3.12"));
    assert!(!uv_nix::python_binary_name("python3-config"));
    assert!(!uv_nix::python_binary_name("pip3"));
    assert!(uv_nix::interpreter_is_musl("/lib/ld-musl-x86_64.so.1\n"));
    assert_eq!(confirm_step(ConfirmKey::Yes, false), ConfirmStep::Answer(true));
    assert_eq!(confirm_step(ConfirmKey::No, true), ConfirmStep::Answer(false));
    assert_eq!(confirm_step(ConfirmKey::Enter, true), ConfirmStep::Answer(true));
    assert_eq!(confirm_step(ConfirmKey::Interrupt, true), ConfirmStep::Exit);
    assert_eq!(confirm_step(ConfirmKey::Other, true), ConfirmStep::Wait);
    assert_eq!(uv_nix::answer_label(false), "no");
}

#[test]
fn packages_selected_by_name() {
    assert_eq!(package_name_key("Typing-Extensions"), "typing_extensions");
    assert_eq!(entry_name_key("numpy-2.4.6.dist-info"), "numpy");
    let entries = strings(&["numpy", "numpy-2.4.6.dist-info", "pandas", "PyYAML-6.0.dist-info", "yaml"]);
    let names = strings(&["NumPy", "pyyaml"]);
    assert_eq!(
        packages_by_name(&entries, &names),
        vec!["numpy", "numpy-2.4.6.dist-info", "PyYAML-6.0.dist-info"]
    );
}

#[test]
fn venv_info_report() {
    let pkg = |name: &str, count: usize| PatchedPackageInfo {
        name: name.to_string(),
        path: format!("/venv/lib/python3.12/site-packages/{name}"),
        binary_count: count,
        binaries: strings(&["a.so"]),
        rpath_entries: strings(&["/nix/store/x/lib"]),
    };
    let found = vec![pkg("numpy", 2), pkg("empty", 0), pkg("pandas", 3)];
    let info = venv_info(
        "/venv".to_string(),
        "/venv/bin/python3".to_string(),
        strings(&["$ORIGIN", "/nix/store/y/lib"]),
        found,
        false,
    );
    assert!(info.python_patched);
    assert_eq!(info.total_binaries, 5);
    assert_eq!(info.packages.len(), 2);
    assert_eq!(info.packages[1].name, "pandas");
    assert!(info.packages[0].binaries.is_empty());
    let verbose = venv_info("/v".to_string(), "/v/bin/python".to_string(), vec![], vec![pkg("numpy", 1)], true);
    assert!(!verbose.python_patched);
    assert_eq!(verbose.packages[0].binaries, vec!["a.so"]);
}

#[test]
fn build_environment_source_and_cargo() {
    let project = NixpkgsSource::FlakeLock { rev: "abc".to_string() };
    let mut custom = PackageConfig::named("psycopg2");
    assert!(matches!(package_source(Some(&custom), &project), NixpkgsSource::FlakeLock { ref rev } if rev == "abc"));
    custom.nixpkgs = Some("github:NixOS/nixpkgs/my-pin".to_string());
    assert!(matches!(
        package_source(Some(&custom), &project),
        NixpkgsSource::ExplicitPin { ref flake_ref } if flake_ref == "github:NixOS/nixpkgs/my-pin"
    ));
    assert!(needs_cargo(&strings(&["maturin", "cargo"])));
    assert!(!needs_cargo(&strings(&["cmake"])));
}

#[test]
fn soname_map_generation_entries() {
    assert!(soname_entry_included("libz.so.1", true, false));
    assert!(!soname_entry_included("libz.so", true, false));
    assert!(soname_entry_included("libz.so", false, false));
    assert!(!soname_entry_included("libz.a", false, false));
    assert!(soname_entry_included("libz.1.dylib", false, true));
    assert!(!soname_entry_included("libz.so.1", false, true));
    let mut map: Vec<(String, String)> = Vec::new();
    let entry = |name: &str, is_symlink: bool| LibDirEntry { name: name.to_string(), is_symlink };
    add_attr_sonames(&mut map, "zlib", &vec![entry("libz.so.1", false), entry("libz.so", true), entry("libz.a", false)], false);
    add_attr_sonames(&mut map, "openssl", &vec![entry("libssl.so.3", false), entry("libcrypto.so.3", false)], false);
    add_attr_sonames(&mut map, "zlib-ng", &vec![entry("libz.so.1", false)], false);
    assert_eq!(
        map,
        vec![
            ("libcrypto.so.3".to_string(), "openssl".to_string()),
            ("libssl.so.3".to_string(), "openssl".to_string()),
            ("libz.so.1".to_string(), "zlib-ng".to_string()),
        ]
    );
    assert_eq!(
        soname_eval_expr("P", "zlib"),
        "let pkgs = P; in (builtins.toString (pkgs.lib.getAttrFromPath (pkgs.lib.splitString \".\" \"zlib\") pkgs))"
    );
}

#[test]
fn build_paths_plan() {
    let source = NixpkgsSource::ExplicitPin { flake_ref: "github:NixOS/nixpkgs/x".to_string() };
    match resolve_build_paths(&vec![], &source, "x86_64-linux") {
        BuildPathsPlan::Done(p) => assert!(p.library_path.is_empty() && p.bin_path.is_empty()),
        BuildPathsPlan::Run { .. } => panic!("no attrs need no build"),
    }
    match resolve_build_paths(&strings(&["zlib", "libpq.pg_config"]), &source, "x86_64-linux") {
        BuildPathsPlan::Run { expr, impure } => {
            assert!(impure);
            assert!(expr.contains("libs = [\n    (pkgs.lib.getAttrFromPath (pkgs.lib.splitString \".\" \"zlib\") pkgs)\n    (pkgs.lib.getAttrFromPath"));
            assert!(expr.contains("pkgs.writeText \"uv-nix-build-paths.json\""));
        }
        BuildPathsPlan::Done(_) => panic!("attrs need a build"),
    }
}

#[test]
fn generated_file_line() {
    assert_eq!(
        uv_nix::cli::generated_line("overlay.nix"),
        "\x1b[1m\x1b[32mGenerated\x1b[39m\x1b[0m overlay.nix\n"
    );
}
