use uv_nix::patchelf::{
    macho_next_action, macho_skip, elf_rpath_plan_with, MachoAction,
    contains_nix_store, elf_rpath_plan, interp_error_ignorable, is_native_binary,
    is_safe_reference, macho_references, origin_rpath, path_entries, plan_macho_changes,
    rpath_candidates, rpath_duplicate_error, rpaths_to_add, targeted_action, TargetedAction,
};

fn strings(items: &[&str]) -> Vec<String> {
    items.iter().map(|s| s.to_string()).collect()
}

#[test]
fn native_binary_magic() {
    assert!(is_native_binary(&[0x7f, b'E', b'L', b'F', 2], false));
    assert!(!is_native_binary(&[0x7f, b'E', b'L', b'F'], true));
    assert!(is_native_binary(&[0xcf, 0xfa, 0xed, 0xfe], true));
    assert!(is_native_binary(&[0xca, 0xfe, 0xba, 0xbe], true));
    assert!(!is_native_binary(&[0x7f, b'E', b'L'], false));
    assert!(!is_native_binary(b"#!/bin/sh", false));
}

#[test]
fn nix_store_reference_detection() {
    assert!(contains_nix_store(b"\x00\x01/nix/store/abc-zlib/lib\x00"));
    assert!(!contains_nix_store(b"/nix/stor"));
    assert!(!contains_nix_store(b"/usr/lib/libz.so"));
}

#[test]
fn elf_rpath_keeps_existing_and_origin() {
    let nix = strings(&["/nix/store/a/lib", "/nix/store/b/lib"]);
    assert_eq!(
        elf_rpath_plan("", &nix),
        Some("$ORIGIN:/nix/store/a/lib:/nix/store/b/lib".to_string())
    );
    assert_eq!(
        elf_rpath_plan("$ORIGIN/../numpy.libs", &nix),
        Some("$ORIGIN/../numpy.libs:/nix/store/a/lib:/nix/store/b/lib".to_string())
    );
    assert_eq!(
        elf_rpath_plan("/opt/lib", &nix),
        Some("/opt/lib:$ORIGIN:/nix/store/a/lib:/nix/store/b/lib".to_string())
    );
    // Already patched: nothing to do, and patching is idempotent.
    let first = elf_rpath_plan("", &nix).unwrap();
    assert_eq!(elf_rpath_plan(&first, &nix), None);
}

#[test]
fn origin_rpath_added_once() {
    assert_eq!(origin_rpath(""), Some("$ORIGIN".to_string()));
    assert_eq!(origin_rpath("/opt/lib"), Some("/opt/lib:$ORIGIN".to_string()));
    assert_eq!(origin_rpath("$ORIGIN/lib"), None);
    let once = origin_rpath("/opt/lib").unwrap();
    assert_eq!(origin_rpath(&once), None);
}

#[test]
fn patcher_stderr_classification() {
    assert!(interp_error_ignorable("  cannot find section '.interp'\n"));
    assert!(!interp_error_ignorable("no such file"));
    assert!(rpath_duplicate_error("error: would duplicate path /x"));
    assert!(!rpath_duplicate_error(""));
}

#[test]
fn targeted_patch_actions() {
    assert_eq!(targeted_action(true, true, true), TargetedAction::Macho);
    assert_eq!(targeted_action(false, true, true), TargetedAction::EnsureOrigin);
    assert_eq!(targeted_action(false, false, true), TargetedAction::Elf);
    assert_eq!(targeted_action(false, true, false), TargetedAction::Elf);
}

#[test]
fn otool_references() {
    let out = "/path/to/lib.so:\n\t@rpath/libself.dylib (compatibility version 1.0.0, current version 1.0.0)\n\t@rpath/libfoo.dylib (compatibility version 1.0.0, current version 1.0.0)\n\t/usr/lib/libSystem.B.dylib (compatibility version 1.0.0)\n";
    assert_eq!(
        macho_references(out),
        vec!["@rpath/libfoo.dylib", "/usr/lib/libSystem.B.dylib"]
    );
}

#[test]
fn safe_references() {
    let extra = strings(&["/opt/homebrew/"]);
    assert!(is_safe_reference("/usr/lib/libSystem.B.dylib", &extra));
    assert!(is_safe_reference("@loader_path/libx.dylib", &extra));
    assert!(is_safe_reference("/nix/store/abc/lib/libz.dylib", &extra));
    assert!(is_safe_reference("/opt/homebrew/lib/libpng.dylib", &extra));
    assert!(!is_safe_reference("/usr/local/lib/libpng.dylib", &extra));
}

#[test]
fn rpath_candidate_paths() {
    let dirs = strings(&["/nix/store/a/lib", "/nix/store/b/lib"]);
    assert_eq!(
        rpath_candidates("/usr/local/lib/libpng16.16.dylib", &dirs),
        Some(strings(&["/nix/store/a/lib/libpng16.16.dylib", "/nix/store/b/lib/libpng16.16.dylib"]))
    );
}

#[test]
fn macho_plan_changes_and_errors() {
    let refs = strings(&["@rpath/libfoo.dylib", "/usr/lib/libSystem.B.dylib", "/usr/local/lib/libpng.dylib"]);
    let found = vec![None, None, Some("/nix/store/p/lib/libpng.dylib".to_string())];
    let (changes, has_rpath) = plan_macho_changes(&refs, &found, &vec![]).unwrap();
    assert!(has_rpath);
    assert_eq!(
        changes,
        vec![("/usr/local/lib/libpng.dylib".to_string(), "/nix/store/p/lib/libpng.dylib".to_string())]
    );
    let missing = vec![None, None, None];
    assert_eq!(
        plan_macho_changes(&refs, &missing, &vec![]),
        Err("/usr/local/lib/libpng.dylib".to_string())
    );
}

#[test]
fn rpath_list_handling() {
    assert_eq!(path_entries("/a::/b:"), vec!["/a", "/b"]);
    assert_eq!(rpaths_to_add(&strings(&["/a", "/b", "/a"])), vec!["/a", "/b"]);
}

#[test]
fn macho_patch_steps() {
    assert_eq!(macho_next_action(true, false, None), MachoAction::Skip);
    assert_eq!(macho_next_action(false, false, None), MachoAction::Run);
    assert_eq!(macho_next_action(true, true, None), MachoAction::Run);
    assert_eq!(macho_next_action(false, true, Some(None)), MachoAction::Done);
    assert_eq!(macho_next_action(true, true, Some(Some("error: would duplicate path /x\n"))), MachoAction::Done);
    assert_eq!(macho_next_action(false, true, Some(Some("would duplicate path /x"))), MachoAction::RetryChangesOnly);
    assert_eq!(macho_next_action(false, true, Some(Some("no such file"))), MachoAction::Fail);
}

#[test]
fn forced_elf_rpath_replaces_old_store_entries() {
    let nix = strings(&["/nix/store/new/lib"]);
    let patched = "$ORIGIN/../x.libs:$ORIGIN:/nix/store/old/lib";
    assert_eq!(elf_rpath_plan_with(patched, &nix, false), None);
    assert_eq!(
        elf_rpath_plan_with(patched, &nix, true),
        Some("$ORIGIN/../x.libs:$ORIGIN:/nix/store/new/lib".to_string())
    );
    assert_eq!(elf_rpath_plan_with("", &nix, true), Some("$ORIGIN:/nix/store/new/lib".to_string()));
    assert_eq!(
        elf_rpath_plan_with("/opt/lib::/nix/store/old/lib", &nix, true),
        Some("/opt/lib:$ORIGIN:/nix/store/new/lib".to_string())
    );
    // Not forced, an unpatched binary gets the ordinary plan.
    assert_eq!(elf_rpath_plan_with("/opt/lib", &nix, false), elf_rpath_plan("/opt/lib", &nix));
    // Forcing twice gives the same rpath.
    let once = elf_rpath_plan_with("/opt/lib", &nix, true).unwrap();
    assert_eq!(elf_rpath_plan_with(&once, &nix, true), Some(once.clone()));
    assert_eq!(elf_rpath_plan_with(&once, &nix, false), None);
}

#[test]
fn macho_skip_only_without_force() {
    let patched = b"\xcf\xfa\xed\xfe..../nix/store/abc-zlib/lib/libz.dylib";
    assert!(macho_skip(patched, false));
    assert!(!macho_skip(patched, true));
    assert!(!macho_skip(b"\xcf\xfa\xed\xfe..../usr/lib/libz.dylib", false));
}
