use uv_nix::nix_config::{
    attr_resolve_expr, cache_dir, cache_still_valid, collect_all_lib_attrs, compute_cache_key,
    dirs_or_home, find_project_root, lookup_entry, DefaultLibsConfig, NixConfig,
    PackageBuildEntry, RootCandidate,
};

fn strings(items: &[&str]) -> Vec<String> {
    items.iter().map(|s| s.to_string()).collect()
}

fn entry(libs: &[&str], build_tools: &[&str]) -> PackageBuildEntry {
    PackageBuildEntry {
        libs: strings(libs),
        build_tools: strings(build_tools),
        libs_linux: vec![],
        libs_darwin: vec![],
        runtime_libs: vec![],
        build_system: vec![],
    }
}

fn default_libs() -> DefaultLibsConfig {
    DefaultLibsConfig {
        shared: strings(&["zlib", "openssl"]),
        linux: strings(&["glibc"]),
        darwin: strings(&["libiconv"]),
    }
}

fn package_map() -> Vec<(String, PackageBuildEntry)> {
    vec![
        ("bcrypt".to_string(), entry(&[], &["cargo"])),
        ("psycopg2".to_string(), entry(&["libpq"], &["libpq.pg_config"])),
        ("pillow".to_string(), entry(&["libjpeg", "zlib"], &[])),
    ]
}

const DEFAULT_JSON: &str = "{\"shared\":[\"zlib\"]}";
const PACKAGE_JSON: &str = "{\"psycopg2\":{\"libs\":[\"libpq\"]}}";

#[test]
fn test_compute_cache_key_deterministic() {
    let key1 = compute_cache_key("flake-lock:abc123", DEFAULT_JSON, PACKAGE_JSON);
    let key2 = compute_cache_key("flake-lock:abc123", DEFAULT_JSON, PACKAGE_JSON);
    assert_eq!(key1, key2);
}

#[test]
fn test_compute_cache_key_differs() {
    let key1 = compute_cache_key("flake-lock:abc123", DEFAULT_JSON, PACKAGE_JSON);
    let key2 = compute_cache_key("flake-lock:def456", DEFAULT_JSON, PACKAGE_JSON);
    assert_ne!(key1, key2);
}

#[test]
fn compute_cache_key_covers_library_lists() {
    let key1 = compute_cache_key("flake-lock:abc123", DEFAULT_JSON, PACKAGE_JSON);
    let key2 = compute_cache_key("flake-lock:abc123", DEFAULT_JSON, "{}");
    assert_ne!(key1, key2);
    assert_eq!(key1.len(), 64);
}

#[test]
fn test_collect_all_lib_attrs() {
    let (runtime, all_libs) = collect_all_lib_attrs(&default_libs(), &package_map(), false);
    assert!(runtime.contains(&"openssl".to_string()));
    assert!(runtime.contains(&"glibc".to_string()));
    assert!(all_libs.len() >= runtime.len());
    assert!(all_libs.contains(&"libpq".to_string()));
    assert!(!all_libs.contains(&"cargo".to_string()));
}

#[test]
fn collect_all_lib_attrs_sorted_once_each() {
    let (runtime, all_libs) = collect_all_lib_attrs(&default_libs(), &package_map(), true);
    assert_eq!(runtime, vec!["zlib", "openssl", "libiconv"]);
    assert_eq!(all_libs, vec!["libiconv", "libjpeg", "libpq", "openssl", "zlib"]);
}

#[test]
fn test_find_project_root_with_flake_lock() {
    // Walking up from <root>/src/deep, the marker sits in <root>.
    let candidates = vec![
        RootCandidate { dir: "/tmp/p/src/deep".to_string(), has_marker: false },
        RootCandidate { dir: "/tmp/p/src".to_string(), has_marker: false },
        RootCandidate { dir: "/tmp/p".to_string(), has_marker: true },
        RootCandidate { dir: "/tmp".to_string(), has_marker: false },
    ];
    assert_eq!(find_project_root(&candidates), Some("/tmp/p".to_string()));
}

#[test]
fn test_find_project_root_with_pyproject() {
    let candidates = vec![
        RootCandidate { dir: "/tmp/q".to_string(), has_marker: true },
        RootCandidate { dir: "/tmp".to_string(), has_marker: true },
    ];
    assert_eq!(find_project_root(&candidates), Some("/tmp/q".to_string()));
}

#[test]
fn find_project_root_none_without_marker() {
    let candidates = vec![RootCandidate { dir: "/a".to_string(), has_marker: false }];
    assert_eq!(find_project_root(&candidates), None);
}

#[test]
fn cache_dir_prefers_xdg() {
    assert_eq!(cache_dir(Some("/xdg"), Some("/home/u")), Some("/xdg/uv-nix".to_string()));
    assert_eq!(cache_dir(None, Some("/home/u")), Some("/home/u/.cache/uv-nix".to_string()));
    assert_eq!(cache_dir(None, None), None);
    assert_eq!(dirs_or_home(None, Some("/home/u")), Some("/home/u/.cache".to_string()));
}

#[test]
fn cached_config_validity() {
    let mut config = NixConfig {
        patcher: "/nix/store/xxx/bin/patchelf".to_string(),
        interpreter: "/nix/store/yyy/lib/ld-linux-x86-64.so.2".to_string(),
        rpath: "/nix/store/aaa/lib:/nix/store/bbb/lib".to_string(),
        library_path: "/nix/store/aaa/lib:/nix/store/bbb/lib:/nix/store/ccc/lib".to_string(),
        cc_bin: "/nix/store/ccc/bin".to_string(),
        coreutils_bin: "/nix/store/ddd/bin".to_string(),
        pkg_config: "/nix/store/zzz/bin/pkg-config".to_string(),
        is_darwin: false,
    };
    assert!(cache_still_valid(&config, true, true));
    assert!(!cache_still_valid(&config, true, false));
    assert!(!cache_still_valid(&config, false, true));
    config.is_darwin = true;
    assert!(cache_still_valid(&config, true, false));
    assert_eq!(config.patchelf(), "/nix/store/xxx/bin/patchelf");
}

#[test]
fn attr_expression_and_lookup() {
    assert_eq!(
        attr_resolve_expr("libpq.pg_config"),
        "(pkgs.lib.getAttrFromPath (pkgs.lib.splitString \".\" \"libpq.pg_config\") pkgs)"
    );
    let map = package_map();
    assert_eq!(lookup_entry(&map, "psycopg2").unwrap().libs, vec!["libpq"]);
    assert!(lookup_entry(&map, "numpy").is_none());
}
