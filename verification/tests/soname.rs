use uv_nix::soname::{
    classify_needed, is_system_lib, plan_patches, read_needed_libs, relative_path, resolve_binary,
    NeededLibs, PackageBinaries, PackagePatchInfo, PatchManifest, RpathDir,
};

#[test]
fn test_system_lib_detection_linux() {
    assert!(is_system_lib("linux-vdso.so.1", false));
    assert!(is_system_lib("linux-gate.so.1", false));
    assert!(!is_system_lib("libc.so.6", false));
    assert!(!is_system_lib("libm.so.6", false));
    assert!(!is_system_lib("libpthread.so.0", false));
    assert!(!is_system_lib("ld-linux-x86-64.so.2", false));
    assert!(!is_system_lib("libstdc++.so.6", false));
    assert!(!is_system_lib("libgcc_s.so.1", false));
    assert!(!is_system_lib("libz.so.1", false));
    assert!(!is_system_lib("libssl.so.3", false));
}

#[test]
fn test_system_lib_detection_darwin() {
    assert!(is_system_lib("/usr/lib/libSystem.B.dylib", true));
    assert!(is_system_lib("/usr/lib/libc++.1.dylib", true));
    assert!(is_system_lib("/System/Library/Frameworks/Security.framework/foo", true));
    assert!(!is_system_lib("/nix/store/xxx/lib/libz.1.dylib", true));
}

#[test]
fn test_manifest_empty() {
    let m = PatchManifest::empty("abc123");
    assert_eq!(m.nixpkgs_rev, "abc123");
    assert!(m.packages.is_empty());
}

#[test]
fn test_manifest_upsert() {
    let mut m = PatchManifest::empty("abc123");
    m.upsert_package("numpy".to_string(), PackagePatchInfo::new("2.4.6"));
    assert_eq!(m.packages.len(), 1);
    assert_eq!(m.get_package("numpy").unwrap().version, "2.4.6");

    m.upsert_package("numpy".to_string(), PackagePatchInfo::new("2.5.0"));
    assert_eq!(m.packages.len(), 1);
    assert_eq!(m.get_package("numpy").unwrap().version, "2.5.0");
}

#[test]
fn manifest_keeps_packages_sorted_and_removes() {
    let mut m = PatchManifest::empty("r");
    m.upsert_package("pandas".to_string(), PackagePatchInfo::new("2.3.0"));
    m.upsert_package("numpy".to_string(), PackagePatchInfo::new("2.4.6"));
    m.upsert_package("zlib-ng".to_string(), PackagePatchInfo::new("1"));
    let names: Vec<&str> = m.packages.iter().map(|(k, _)| k.as_str()).collect();
    assert_eq!(names, vec!["numpy", "pandas", "zlib-ng"]);
    assert_eq!(m.package_count(), 3);
    m.remove_package("pandas");
    m.remove_package("absent");
    assert!(m.get_package("pandas").is_none());
    assert_eq!(m.package_count(), 2);
}

#[test]
fn manifest_path_in_venv() {
    assert_eq!(PatchManifest::manifest_path("/p/.venv"), "/p/.venv/share/uv-nix/patches.json");
    assert_eq!(PatchManifest::manifest_path("/p/.venv/"), "/p/.venv/share/uv-nix/patches.json");
}

fn map(pairs: &[(&str, &str)]) -> Vec<(String, String)> {
    pairs.iter().map(|(a, b)| (a.to_string(), b.to_string())).collect()
}

fn needed(libs: &[&str]) -> NeededLibs {
    NeededLibs {
        binary: "/sp/numpy/core/_m.so".to_string(),
        needed: libs.iter().map(|s| s.to_string()).collect(),
        origin_resolvable: vec![],
    }
}

fn dir(attr: &str, path: &str, files: Option<&[&str]>) -> RpathDir {
    RpathDir {
        attr: attr.to_string(),
        path: path.to_string(),
        files: files.map(|f| f.iter().map(|s| s.to_string()).collect()),
    }
}

#[test]
fn resolve_binary_exact_fuzzy_and_scan() {
    let m = map(&[("libz.so.1", "zlib"), ("libssl.so.3", "openssl")]);
    let dirs = vec![
        dir("zlib", "/nix/store/z/lib", Some(&["libz.so.1"])),
        dir("openssl", "/nix/store/o/lib", None),
        dir("libffi", "/nix/store/f/lib", Some(&["libffi.so.8.1.0"])),
    ];
    let r = resolve_binary(&needed(&["libz.so.1.3.1", "libssl.so.3", "libz.so.1", "libffi.so.8"]), &m, &dirs)
        .unwrap();
    assert_eq!(r.nix_libs, vec!["zlib", "openssl", "libffi"]);
    assert_eq!(r.rpaths_added, vec!["/nix/store/z/lib", "/nix/store/o/lib", "/nix/store/f/lib"]);
    assert_eq!(r.needed.len(), 4);
}

#[test]
fn resolve_binary_reports_unresolved() {
    let m = map(&[("libz.so.1", "zlib")]);
    let err = resolve_binary(&needed(&["libz.so.1", "libfoo.so.2"]), &m, &vec![]).unwrap_err();
    assert_eq!(err.libs, vec!["libfoo.so.2"]);
    let msg = err.message();
    assert!(msg.starts_with("Could not resolve shared libraries for:\n  /sp/numpy/core/_m.so\n\nUnresolved libraries:\n  - libfoo.so.2\n"));
    assert!(msg.contains("extra-libraries = [\"<nixpkgs-attr>\"]"));
    assert!(msg.ends_with("to update the soname cache."));
}

#[test]
fn read_needed_libs_elf() {
    let out = "libz.so.1\n  linux-vdso.so.1\n\n libm.so.6 \n";
    let cands = read_needed_libs("/sp/a.so", out, false);
    let names: Vec<&str> = cands.iter().map(|c| c.lib_name.as_str()).collect();
    assert_eq!(names, vec!["libz.so.1", "libm.so.6"]);
    assert!(cands.iter().all(|c| c.check_local));
}

#[test]
fn read_needed_libs_macho() {
    let out = "/sp/pkg/_ext.so:\n\t/sp/pkg/_ext.so (compatibility version 0.0.0, current version 0.0.0)\n\t@rpath/libfoo.1.dylib (compatibility version 1.0.0, current version 1.0.0)\n\t/usr/lib/libSystem.B.dylib (compatibility version 1.0.0, current version 1.0.0)\n\t/opt/homebrew/lib/libz.1.dylib (compatibility version 1.0.0, current version 1.2.13)\n";
    let cands = read_needed_libs("/sp/pkg/_ext.so", out, true);
    assert_eq!(cands.len(), 2);
    assert_eq!(cands[0].install_name, "@rpath/libfoo.1.dylib");
    assert_eq!(cands[0].lib_name, "libfoo.1.dylib");
    assert!(cands[0].check_local);
    assert_eq!(cands[1].install_name, "/opt/homebrew/lib/libz.1.dylib");
    assert_eq!(cands[1].lib_name, "libz.1.dylib");
    assert!(!cands[1].check_local);

    let libs = classify_needed("/sp/pkg/_ext.so", &cands, &vec![true, false]);
    assert_eq!(libs.origin_resolvable, vec!["@rpath/libfoo.1.dylib"]);
    assert_eq!(libs.needed, vec!["libz.1.dylib"]);
}

#[test]
fn plan_patches_records_manifest() {
    let m = map(&[("libz.so.1", "zlib")]);
    let dirs = vec![dir("zlib", "/nix/store/z/lib", Some(&["libz.so.1"]))];
    let packages = vec![PackageBinaries {
        name: "numpy".to_string(),
        version: "2.4.6".to_string(),
        binaries: vec!["/sp/numpy/a.so".to_string(), "/sp/numpy/b.so".to_string(), "/sp/numpy/c.so".to_string()],
    }];
    let needs = vec![vec![
        Some(NeededLibs { binary: "/sp/numpy/a.so".to_string(), needed: vec!["libz.so.1".to_string()], origin_resolvable: vec![] }),
        Some(NeededLibs { binary: "/sp/numpy/b.so".to_string(), needed: vec![], origin_resolvable: vec![] }),
        Some(NeededLibs { binary: "/sp/numpy/c.so".to_string(), needed: vec![], origin_resolvable: vec!["libx.so".to_string()] }),
    ]];
    let (plans, manifest) = plan_patches("/sp", &packages, &needs, &m, &dirs, "flake-lock:r", PatchManifest::empty(""));
    assert_eq!(plans.len(), 2);
    assert_eq!(plans[0].rpaths, vec!["/nix/store/z/lib"]);
    assert!(!plans[0].needs_origin);
    assert!(plans[1].rpaths.is_empty());
    assert!(plans[1].needs_origin);
    assert_eq!(manifest.nixpkgs_rev, "flake-lock:r");
    let info = manifest.get_package("numpy").unwrap();
    assert_eq!(info.version, "2.4.6");
    let keys: Vec<&str> = info.patches.iter().map(|(k, _)| k.as_str()).collect();
    assert_eq!(keys, vec!["numpy/a.so", "numpy/c.so"]);
    assert_eq!(info.patches[0].1.nix_libs, vec!["zlib"]);
}

#[test]
fn relative_path_follows_path_components() {
    assert_eq!(relative_path("/a/s/x/y.so", "/a/s"), "x/y.so");
    assert_eq!(relative_path("/a/s/x/y.so", "/a/s/"), "x/y.so");
    assert_eq!(relative_path("/a/s/x/y.so", "/a/s//"), "x/y.so");
    assert_eq!(relative_path("/a/s", "/a/s/"), "");
    assert_eq!(relative_path("/a/sx/y.so", "/a/s"), "/a/sx/y.so");
    assert_eq!(relative_path("/x.so", "/"), "x.so");
    assert_eq!(relative_path("/x.so", ""), "/x.so");
}
