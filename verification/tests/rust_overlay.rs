use uv_nix::nixpkgs::NixpkgsSource;
use uv_nix::rust_overlay::{
    check_rust_requirement, detect_msrv, parse_msrv_from_cargo_toml, find_stable_version, lock_for, locked_overlay_rev, parse_rust_version,
    release_string, rustc_version_expr, toolchain_at, toolchain_expr, LockedInputs,
    RustRequirement,
};
use uv_nix::version::SemVersion;

fn release(v: &SemVersion) -> (u64, u64, u64) {
    (v.major, v.minor, v.patch)
}

#[test]
fn test_parse_rust_version_three_component() {
    let v = parse_rust_version("1.95.0").unwrap();
    assert!(v.same_as(&SemVersion::new(1, 95, 0)));
}

#[test]
fn test_parse_rust_version_two_component() {
    let v = parse_rust_version("1.95").unwrap();
    assert!(v.same_as(&SemVersion::new(1, 95, 0)));
}

#[test]
fn test_parse_rust_version_invalid() {
    assert!(parse_rust_version("not-a-version").is_none());
}

#[test]
fn parse_rust_version_keeps_prerelease() {
    let v = parse_rust_version("1.96.0-beta.1").unwrap();
    assert_eq!(release(&v), (1, 96, 0));
    assert_eq!(v.pre, "beta.1");
    assert!(parse_rust_version("1").is_none());
}

#[test]
fn test_check_rust_requirement_satisfied() {
    let msrv = SemVersion::new(1, 70, 0);
    let nixpkgs = SemVersion::new(1, 94, 1);
    assert!(matches!(check_rust_requirement(&msrv, &nixpkgs), RustRequirement::Satisfied));
}

#[test]
fn test_check_rust_requirement_needs_overlay() {
    let msrv = SemVersion::new(1, 95, 0);
    let nixpkgs = SemVersion::new(1, 94, 1);
    assert!(matches!(
        check_rust_requirement(&msrv, &nixpkgs),
        RustRequirement::NeedsOverlay { .. }
    ));
}

#[test]
fn check_rust_requirement_equal_versions_satisfied() {
    let msrv = SemVersion::new(1, 94, 1);
    let nixpkgs = SemVersion::new(1, 94, 1);
    assert!(matches!(check_rust_requirement(&msrv, &nixpkgs), RustRequirement::Satisfied));
    match check_rust_requirement(&SemVersion::new(2, 0, 0), &nixpkgs) {
        RustRequirement::NeedsOverlay { msrv } => assert_eq!(release(&msrv), (2, 0, 0)),
        RustRequirement::Satisfied => panic!("1.94.1 does not satisfy 2.0.0"),
    }
}

#[test]
fn stable_version_and_release_text() {
    let v = parse_rust_version("1.82.3-nightly").unwrap();
    let s = find_stable_version(&v);
    assert_eq!(release(&s), (1, 82, 3));
    assert_eq!(s.pre, "");
    assert_eq!(release_string(&s), "1.82.3");
}

#[test]
fn locked_rev_reused_only_when_sufficient() {
    let locked = Some(lock_for("abc123", "1.95.0"));
    assert_eq!(locked_overlay_rev(&locked, &SemVersion::new(1, 95, 0)), Some("abc123".to_string()));
    assert_eq!(locked_overlay_rev(&locked, &SemVersion::new(1, 90, 0)), Some("abc123".to_string()));
    assert_eq!(locked_overlay_rev(&locked, &SemVersion::new(1, 96, 0)), None);
    assert_eq!(locked_overlay_rev(&None, &SemVersion::new(1, 90, 0)), None);
    let empty = Some(LockedInputs { rust_overlay: None });
    assert_eq!(locked_overlay_rev(&empty, &SemVersion::new(1, 90, 0)), None);
}

#[test]
fn toolchain_expressions() {
    let source = NixpkgsSource::FlakeLock { rev: "abc".to_string() };
    let rustc = rustc_version_expr(&source, "x86_64-linux");
    assert!(rustc.starts_with("(import (builtins.fetchTree"));
    assert!(rustc.ends_with(").rustc.version"));
    let expr = toolchain_expr("ovl123", "1.95.0", &source, "x86_64-linux");
    assert!(expr.contains("github:oxalica/rust-overlay/ovl123"));
    assert!(expr.ends_with("pkgs.rust-bin.stable.\"1.95.0\".default"));
    assert_eq!(toolchain_at("/nix/store/rust").bin_path, "/nix/store/rust/bin");
}

#[test]
fn test_detect_msrv_from_dir() {
    let manifests = vec!["[package]\nname = \"test\"\nversion = \"0.1.0\"\nrust-version = \"1.95\"\n".to_string()];
    let v = detect_msrv(&manifests).unwrap();
    assert!(v.same_as(&SemVersion::new(1, 95, 0)));
}

#[test]
fn test_detect_msrv_nested() {
    // No root manifest; the nested rust-src/Cargo.toml is read.
    let manifests = vec!["[package]\nname = \"nested\"\nversion = \"0.1.0\"\nrust-version = \"1.82\"\n".to_string()];
    let v = detect_msrv(&manifests).unwrap();
    assert!(v.same_as(&SemVersion::new(1, 82, 0)));
}

#[test]
fn test_detect_msrv_no_cargo_toml() {
    assert!(detect_msrv(&vec![]).is_none());
}

#[test]
fn test_detect_msrv_no_rust_version_field() {
    let manifests = vec!["[package]\nname = \"test\"\nversion = \"0.1.0\"\n".to_string()];
    assert!(detect_msrv(&manifests).is_none());
}

#[test]
fn detect_msrv_takes_first_declared() {
    let manifests = vec![
        "[workspace]\nmembers = []\n".to_string(),
        "[package]\nrust-version = \"1.70.2\"\n".to_string(),
        "[package]\nrust-version = \"1.80\"\n".to_string(),
    ];
    let v = detect_msrv(&manifests).unwrap();
    assert!(v.same_as(&SemVersion::new(1, 70, 2)));
    assert!(parse_msrv_from_cargo_toml("not toml = = =").is_none());
}

#[test]
fn rustc_version_output() {
    let v = uv_nix::rust_overlay::rustc_version_of("1.94.1\n").unwrap();
    assert!(v.same_as(&SemVersion::new(1, 94, 1)));
    assert!(uv_nix::rust_overlay::rustc_version_of("").is_none());
}
