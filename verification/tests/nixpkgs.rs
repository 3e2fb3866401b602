use uv_nix::config::{SourceConfig, UseSource, UvNixConfig};
use uv_nix::nixpkgs::{
    pinned_document,
    fallback_auto_resolve, lock_file_for, nixpkgs_cache_key, nixpkgs_import_expr,
    parse_devenv_lock, parse_flake_lock, parse_flox_lock, parse_ls_remote, requires_impure,
    resolve_library_paths, resolve_nixpkgs, DevenvLock, DevenvLockNode, DevenvLocked,
    DevenvOriginal, FlakeLock, FlakeLockNode, FlakeLocked, FloxManifestLock, FloxPackageEntry,
    InputRef, LockRevs, NixPlan, NixpkgsSource, NixpkgsStep,
};

#[test]
fn test_nixpkgs_import_expr() {
    let system = uv_nix::current_system("linux", "x86_64");
    let expr = nixpkgs_import_expr(&NixpkgsSource::FlakeLock { rev: "abc123".to_string() }, system);
    assert!(expr.contains("abc123"));
    assert!(expr.contains("fetchTree"));
    assert!(expr.contains("system"));
    assert!(!requires_impure(&NixpkgsSource::FlakeLock { rev: "abc123".to_string() }));

    let expr = nixpkgs_import_expr(&NixpkgsSource::AutoResolved { rev: "abc456".to_string() }, system);
    assert!(expr.contains("abc456"));
    assert!(expr.contains("fetchTree"));

    let expr = nixpkgs_import_expr(
        &NixpkgsSource::ExplicitPin { flake_ref: "github:NixOS/nixpkgs/nixos-24.11".to_string() },
        system,
    );
    assert!(expr.contains("builtins.getFlake"));
    assert!(requires_impure(&NixpkgsSource::ExplicitPin {
        flake_ref: "github:NixOS/nixpkgs/nixos-24.11".to_string(),
    }));

    let expr = nixpkgs_import_expr(&NixpkgsSource::FloxLock { rev: "flox123".to_string() }, system);
    assert!(expr.contains("flox123"));
    assert!(expr.contains("fetchTree"));
}

#[test]
fn nixpkgs_import_expr_exact() {
    let expr = nixpkgs_import_expr(&NixpkgsSource::DevenvLock { rev: "r1".to_string() }, "aarch64-darwin");
    assert_eq!(
        expr,
        "import (builtins.fetchTree { type = \"github\"; owner = \"NixOS\"; repo = \"nixpkgs\"; rev = \"r1\"; }) { system = \"aarch64-darwin\"; }"
    );
    let expr = nixpkgs_import_expr(&NixpkgsSource::ExplicitPin { flake_ref: "f".to_string() }, "x86_64-linux");
    assert_eq!(expr, "(builtins.getFlake \"f\").legacyPackages.\"x86_64-linux\"");
}

#[test]
fn test_nixpkgs_cache_key() {
    assert_eq!(
        nixpkgs_cache_key(&NixpkgsSource::FlakeLock { rev: "abc".to_string() }),
        "flake-lock:abc"
    );
    assert_eq!(
        nixpkgs_cache_key(&NixpkgsSource::FloxLock { rev: "def".to_string() }),
        "flox-lock:def"
    );
    assert_eq!(
        nixpkgs_cache_key(&NixpkgsSource::ExplicitPin {
            flake_ref: "github:NixOS/nixpkgs/nixos-24.11".to_string()
        }),
        "explicit:github:NixOS/nixpkgs/nixos-24.11"
    );
    assert_eq!(nixpkgs_cache_key(&NixpkgsSource::DevenvLock { rev: "d".to_string() }), "devenv-lock:d");
    assert_eq!(nixpkgs_cache_key(&NixpkgsSource::AutoResolved { rev: "a".to_string() }), "auto:a");
}

fn nixos_locked(rev: &str) -> FlakeLocked {
    FlakeLocked {
        owner: Some("NixOS".to_string()),
        repo: Some("nixpkgs".to_string()),
        rev: Some(rev.to_string()),
    }
}

fn simple_flake_lock(rev: &str) -> FlakeLock {
    FlakeLock {
        nodes: vec![
            ("nixpkgs".to_string(), FlakeLockNode { inputs: None, locked: Some(nixos_locked(rev)) }),
            (
                "root".to_string(),
                FlakeLockNode {
                    inputs: Some(vec![("nixpkgs".to_string(), InputRef::Name("nixpkgs".to_string()))]),
                    locked: None,
                },
            ),
        ],
        root: "root".to_string(),
    }
}

#[test]
fn test_parse_flake_lock() {
    assert_eq!(parse_flake_lock(&simple_flake_lock("abc123def456")).as_deref(), Some("abc123def456"));
}

#[test]
fn test_parse_flake_lock_follows_style() {
    let lock = FlakeLock {
        nodes: vec![
            ("nixpkgs".to_string(), FlakeLockNode { inputs: None, locked: Some(nixos_locked("follows-rev-123")) }),
            (
                "devenv".to_string(),
                FlakeLockNode {
                    inputs: Some(vec![(
                        "nixpkgs".to_string(),
                        InputRef::Follows(vec![Some("nixpkgs".to_string())]),
                    )]),
                    locked: None,
                },
            ),
            (
                "root".to_string(),
                FlakeLockNode {
                    inputs: Some(vec![
                        ("nixpkgs".to_string(), InputRef::Name("nixpkgs".to_string())),
                        ("devenv".to_string(), InputRef::Name("devenv".to_string())),
                    ]),
                    locked: None,
                },
            ),
        ],
        root: "root".to_string(),
    };
    assert_eq!(parse_flake_lock(&lock).as_deref(), Some("follows-rev-123"));
}

#[test]
fn parse_flake_lock_follows_array_at_root() {
    let lock = FlakeLock {
        nodes: vec![
            ("nixpkgs_2".to_string(), FlakeLockNode { inputs: None, locked: Some(nixos_locked("r2")) }),
            (
                "root".to_string(),
                FlakeLockNode {
                    inputs: Some(vec![(
                        "nixpkgs".to_string(),
                        InputRef::Follows(vec![Some("x".to_string()), Some("nixpkgs_2".to_string())]),
                    )]),
                    locked: None,
                },
            ),
        ],
        root: "root".to_string(),
    };
    assert_eq!(parse_flake_lock(&lock).as_deref(), Some("r2"));
}

#[test]
fn test_parse_flake_lock_not_nixpkgs_repo() {
    let mut lock = simple_flake_lock("abc123");
    lock.nodes[0].1.locked = Some(FlakeLocked {
        owner: Some("someuser".to_string()),
        repo: Some("not-nixpkgs".to_string()),
        rev: Some("abc123".to_string()),
    });
    assert!(parse_flake_lock(&lock).is_none());
}

fn devenv_node(rev: &str, owner: &str) -> DevenvLockNode {
    DevenvLockNode {
        locked: Some(DevenvLocked { rev: Some(rev.to_string()), lock_type: Some("github".to_string()) }),
        original: Some(DevenvOriginal { owner: Some(owner.to_string()), repo: Some("nixpkgs".to_string()) }),
    }
}

#[test]
fn test_parse_devenv_lock() {
    let lock = DevenvLock { nodes: vec![("nixpkgs-stable".to_string(), devenv_node("def789ghi012", "NixOS"))] };
    assert_eq!(parse_devenv_lock(&lock).as_deref(), Some("def789ghi012"));
}

#[test]
fn parse_devenv_lock_node_without_original_stops() {
    let lock = DevenvLock {
        nodes: vec![
            ("root".to_string(), DevenvLockNode { locked: None, original: None }),
            ("nixpkgs".to_string(), devenv_node("r", "NixOS")),
        ],
    };
    assert!(parse_devenv_lock(&lock).is_none());
}

#[test]
fn test_parse_flox_lock() {
    let lock = FloxManifestLock {
        packages: Some(vec![FloxPackageEntry {
            rev: Some("64c08a7ca051951c8eae34e3e3cb1e202fe36786".to_string()),
        }]),
    };
    assert_eq!(
        parse_flox_lock(&lock).as_deref(),
        Some("64c08a7ca051951c8eae34e3e3cb1e202fe36786")
    );
}

#[test]
fn test_parse_flox_lock_no_packages() {
    assert!(parse_flox_lock(&FloxManifestLock { packages: Some(vec![]) }).is_none());
    let short = FloxManifestLock { packages: Some(vec![FloxPackageEntry { rev: Some("abc".to_string()) }]) };
    assert!(parse_flox_lock(&short).is_none());
}

fn revs(flake: Option<&str>, devenv: Option<&str>, flox: Option<&str>) -> LockRevs {
    LockRevs {
        flake: flake.map(String::from),
        devenv: devenv.map(String::from),
        flox: flox.map(String::from),
    }
}

#[test]
fn test_resolve_nixpkgs_explicit_pin_wins() {
    let mut config = UvNixConfig::empty();
    config.nixpkgs = Some("github:NixOS/nixpkgs/my-explicit-pin".to_string());
    match resolve_nixpkgs(&config, &revs(Some("flake-rev"), None, None)) {
        NixpkgsStep::Resolved(NixpkgsSource::ExplicitPin { flake_ref }) => {
            assert_eq!(flake_ref, "github:NixOS/nixpkgs/my-explicit-pin")
        }
        other => panic!("Expected ExplicitPin, got {other:?}"),
    }
}

#[test]
fn test_resolve_nixpkgs_auto_detect_flake_lock() {
    match resolve_nixpkgs(&UvNixConfig::empty(), &revs(Some("detected-rev"), None, None)) {
        NixpkgsStep::Resolved(NixpkgsSource::FlakeLock { rev }) => assert_eq!(rev, "detected-rev"),
        other => panic!("Expected FlakeLock, got {other:?}"),
    }
}

#[test]
fn test_resolve_nixpkgs_use_directive() {
    let mut config = UvNixConfig::empty();
    config.use_source = Some(UseSource::Devenv);
    match resolve_nixpkgs(&config, &revs(Some("flake-rev"), Some("devenv-rev"), None)) {
        NixpkgsStep::Resolved(NixpkgsSource::DevenvLock { rev }) => assert_eq!(rev, "devenv-rev"),
        other => panic!("Expected DevenvLock, got {other:?}"),
    }
}

#[test]
fn test_resolve_nixpkgs_auto_detect_devenv_when_no_flake() {
    match resolve_nixpkgs(&UvNixConfig::empty(), &revs(None, Some("devenv-only-rev"), None)) {
        NixpkgsStep::Resolved(NixpkgsSource::DevenvLock { rev }) => assert_eq!(rev, "devenv-only-rev"),
        other => panic!("Expected DevenvLock, got {other:?}"),
    }
}

#[test]
fn test_resolve_nixpkgs_auto_detect_flox_when_no_flake_or_devenv() {
    let rev = "abcdef1234567890abcdef1234567890abcdef12";
    match resolve_nixpkgs(&UvNixConfig::empty(), &revs(None, None, Some(rev))) {
        NixpkgsStep::Resolved(NixpkgsSource::FloxLock { rev: r }) => assert_eq!(r, rev),
        other => panic!("Expected FloxLock, got {other:?}"),
    }
}

#[test]
fn test_resolve_nixpkgs_flake_lock_wins_over_devenv() {
    match resolve_nixpkgs(&UvNixConfig::empty(), &revs(Some("flake-wins"), Some("devenv-loses"), None)) {
        NixpkgsStep::Resolved(NixpkgsSource::FlakeLock { rev }) => assert_eq!(rev, "flake-wins"),
        other => panic!("Expected FlakeLock, got {other:?}"),
    }
}

#[test]
fn test_resolve_nixpkgs_custom_lock_path() {
    let mut config = UvNixConfig::empty();
    config.use_source = Some(UseSource::FlakeLock);
    config.flake = Some(SourceConfig { lock: Some("subdir/flake.lock".to_string()) });
    assert_eq!(lock_file_for(&config, UseSource::FlakeLock), "subdir/flake.lock");
    assert_eq!(lock_file_for(&config, UseSource::Devenv), "devenv.lock");
    assert_eq!(lock_file_for(&config, UseSource::Flox), ".flox/env/manifest.lock");
    match resolve_nixpkgs(&config, &revs(Some("custom-path-rev"), None, None)) {
        NixpkgsStep::Resolved(NixpkgsSource::FlakeLock { rev }) => assert_eq!(rev, "custom-path-rev"),
        other => panic!("Expected FlakeLock, got {other:?}"),
    }
}

#[test]
fn test_resolve_nixpkgs_use_missing_lockfile_falls_back() {
    let mut config = UvNixConfig::empty();
    config.use_source = Some(UseSource::Devenv);
    match resolve_nixpkgs(&config, &revs(Some("flake-rev"), None, None)) {
        NixpkgsStep::AutoResolve => {}
        other => panic!("Expected AutoResolved fallback, got {other:?}"),
    }
    match fallback_auto_resolve(None) {
        NixpkgsSource::AutoResolved { .. } => {}
        other => panic!("Expected AutoResolved, got {other:?}"),
    }
}

#[test]
fn fallback_is_nixpkgs_unstable() {
    match fallback_auto_resolve(None) {
        NixpkgsSource::AutoResolved { rev } => assert_eq!(rev, "nixpkgs-unstable"),
        other => panic!("Expected AutoResolved, got {other:?}"),
    }
    let sha = "0123456789abcdef0123456789abcdef01234567".to_string();
    match fallback_auto_resolve(Some(sha.clone())) {
        NixpkgsSource::AutoResolved { rev } => assert_eq!(rev, sha),
        other => panic!("Expected AutoResolved, got {other:?}"),
    }
}

#[test]
fn ls_remote_output_parsing() {
    let sha = "0123456789abcdef0123456789abcdef01234567";
    assert_eq!(parse_ls_remote(&format!("{sha}\trefs/heads/nixpkgs-unstable\n")).as_deref(), Some(sha));
    assert!(parse_ls_remote("short\trefs/heads/x\n").is_none());
    assert!(parse_ls_remote("").is_none());
}

#[test]
fn library_paths_plan() {
    let src = NixpkgsSource::FlakeLock { rev: "r".to_string() };
    match resolve_library_paths(&vec![], &src, "x86_64-linux") {
        NixPlan::Done(s) => assert_eq!(s, ""),
        other => panic!("unexpected {other:?}"),
    }
    match resolve_library_paths(&vec!["libGL".to_string(), "zlib".to_string()], &src, "x86_64-linux") {
        NixPlan::Run { expr, impure } => {
            assert!(!impure);
            assert!(expr.starts_with("let pkgs = import (builtins.fetchTree"));
            assert!(expr.ends_with("in pkgs.lib.makeLibraryPath [\n  (pkgs.lib.getAttrFromPath (pkgs.lib.splitString \".\" \"libGL\") pkgs)\n  (pkgs.lib.getAttrFromPath (pkgs.lib.splitString \".\" \"zlib\") pkgs)\n]"));
        }
        other => panic!("unexpected {other:?}"),
    }
}

#[test]
fn test_write_nixpkgs_pin_creates_section() {
    let content = "[project]\nname = \"my-project\"\nversion = \"1.0.0\"\n";
    let result = pinned_document(content, "abc123def456").unwrap().unwrap();
    assert!(result.contains("[tool.uv-nix]"), "missing section:\n{result}");
    assert!(
        result.contains(r#"nixpkgs = "github:NixOS/nixpkgs/abc123def456""#),
        "missing pin:\n{result}"
    );
    assert!(result.contains("[project]"), "lost [project]:\n{result}");
    assert!(result.contains("my-project"), "lost project name:\n{result}");
}

#[test]
fn test_write_nixpkgs_pin_existing_section() {
    let content = "[project]\nname = \"my-project\"\n\n# Custom nix config\n[tool.uv-nix]\nextra-libraries = [\"libGL\"]\n";
    let result = pinned_document(content, "abc123def456").unwrap().unwrap();
    assert!(
        result.contains(r#"nixpkgs = "github:NixOS/nixpkgs/abc123def456""#),
        "missing pin:\n{result}"
    );
    assert!(result.contains(r#"extra-libraries = ["libGL"]"#), "lost existing config:\n{result}");
    assert!(result.contains("# Custom nix config"), "lost comment:\n{result}");
}

#[test]
fn test_write_nixpkgs_pin_no_overwrite() {
    let original = "[tool.uv-nix]\nnixpkgs = \"github:NixOS/nixpkgs/existing-pin\"\n";
    // Nothing is written: the existing pin stays as it is.
    let result = match pinned_document(original, "new-rev-should-not-appear").unwrap() {
        Some(text) => text,
        None => original.to_string(),
    };
    assert!(result.contains("existing-pin"), "overwrote existing pin:\n{result}");
    assert!(!result.contains("new-rev-should-not-appear"), "should not overwrite:\n{result}");
}

#[test]
fn pin_written_once() {
    let first = pinned_document("[project]\nname = \"x\"\n", "rev1").unwrap().unwrap();
    assert_eq!(pinned_document(&first, "rev2").unwrap(), None);
}

#[test]
fn pin_errors_on_invalid_documents() {
    assert!(pinned_document("[project\nname = ", "rev").is_err());
    assert!(pinned_document("tool = 1\n", "rev").is_err());
}
