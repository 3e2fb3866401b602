use uv_nix::build_env::{
    build_effective_entry, dev_env_cache_key, finish_build_env, get_base_build_env, parent_of,
    pkg_config_platform_key, prepend_env, with_toolchain_path,
};
use uv_nix::config::{LibrarySpec, PackageConfig};
use uv_nix::nix_config::{NixConfig, PackageBuildEntry};
use uv_nix::nixpkgs::ResolvedBuildPaths;

fn strings(items: &[&str]) -> Vec<String> {
    items.iter().map(|s| s.to_string()).collect()
}

/// The curated entries these tests rely on.
fn package_map() -> Vec<(String, PackageBuildEntry)> {
    vec![
        (
            "bcrypt".to_string(),
            PackageBuildEntry {
                libs: vec![],
                build_tools: strings(&["cargo"]),
                libs_linux: vec![],
                libs_darwin: vec![],
                runtime_libs: vec![],
                build_system: vec![],
            },
        ),
        (
            "psycopg2".to_string(),
            PackageBuildEntry {
                libs: strings(&["libpq"]),
                build_tools: strings(&["libpq.pg_config"]),
                libs_linux: strings(&["glibc"]),
                libs_darwin: strings(&["libiconv"]),
                runtime_libs: vec![],
                build_system: vec![],
            },
        ),
    ]
}

fn nix_config() -> NixConfig {
    NixConfig {
        patcher: "/nix/store/xxx/bin/patchelf".to_string(),
        interpreter: "/nix/store/yyy/lib/ld-linux-x86-64.so.2".to_string(),
        rpath: "/nix/store/aaa/lib".to_string(),
        library_path: "/nix/store/aaa/lib:/nix/store/bbb/lib".to_string(),
        cc_bin: "/nix/store/ccc/bin".to_string(),
        coreutils_bin: "/nix/store/ddd/bin".to_string(),
        pkg_config: "/nix/store/zzz/bin/pkg-config".to_string(),
        is_darwin: false,
    }
}

#[test]
fn test_prepend_env_empty() {
    assert_eq!(prepend_env(None, "/nix/store/foo/lib"), "/nix/store/foo/lib");
}

#[test]
fn test_prepend_env_existing() {
    assert_eq!(
        prepend_env(Some("/existing/path"), "/nix/store/foo/lib"),
        "/nix/store/foo/lib:/existing/path"
    );
}

#[test]
fn prepend_env_empty_existing_value() {
    assert_eq!(prepend_env(Some(""), "/nix/store/foo/lib"), "/nix/store/foo/lib");
}

#[test]
fn test_build_effective_entry_defaults() {
    let map = package_map();
    let (libs, tools) = build_effective_entry("psycopg2", None, &map, false, "x86_64-linux");
    assert!(libs.contains(&"libpq".to_string()));
    assert!(tools.contains(&"libpq.pg_config".to_string()));
}

#[test]
fn build_effective_entry_platform_libs_follow() {
    let map = package_map();
    let (linux, _) = build_effective_entry("psycopg2", None, &map, false, "x86_64-linux");
    assert_eq!(linux, vec!["libpq", "glibc"]);
    let (darwin, _) = build_effective_entry("psycopg2", None, &map, true, "aarch64-darwin");
    assert_eq!(darwin, vec!["libpq", "libiconv"]);
}

#[test]
fn test_build_effective_entry_override_libs() {
    let map = package_map();
    let mut custom = PackageConfig::named("psycopg2");
    custom.libraries = strings(&["postgresql_17"]);
    let (libs, tools) = build_effective_entry("psycopg2", Some(&custom), &map, false, "x86_64-linux");
    // Custom libraries should replace defaults
    assert_eq!(libs, vec!["postgresql_17"]);
    assert!(tools.contains(&"libpq.pg_config".to_string()));
}

#[test]
fn custom_libraries_replace_platform_libraries_too() {
    let map = package_map();
    let mut custom = PackageConfig::named("psycopg2");
    custom.libraries = strings(&["postgresql_17"]);
    custom.extra_libraries = vec![LibrarySpec::all_platforms("openssl")];
    let (libs, _) = build_effective_entry("psycopg2", Some(&custom), &map, true, "aarch64-darwin");
    assert_eq!(libs, vec!["postgresql_17", "openssl"]);
}

#[test]
fn test_build_effective_entry_extra_libs() {
    let map = package_map();
    let mut custom = PackageConfig::named("psycopg2");
    custom.extra_libraries = vec![LibrarySpec::all_platforms("openssl")];
    custom.extra_build_tools = strings(&["cmake"]);
    let (libs, tools) = build_effective_entry("psycopg2", Some(&custom), &map, false, "x86_64-linux");
    assert!(libs.contains(&"libpq".to_string()));
    assert!(libs.contains(&"openssl".to_string()));
    assert!(tools.contains(&"libpq.pg_config".to_string()));
    assert!(tools.contains(&"cmake".to_string()));
}

#[test]
fn test_build_effective_entry_unknown_package() {
    let map = package_map();
    let mut custom = PackageConfig::named("my-custom-pkg");
    custom.libraries = strings(&["libfoo"]);
    custom.extra_build_tools = strings(&["cargo"]);
    let (libs, tools) = build_effective_entry("my-custom-pkg", Some(&custom), &map, false, "x86_64-linux");
    assert_eq!(libs, vec!["libfoo"]);
    assert_eq!(tools, vec!["cargo"]);
}

#[test]
fn build_effective_entry_platform_filtered_extras() {
    let map = package_map();
    let mut custom = PackageConfig::named("bcrypt");
    custom.extra_libraries = vec![LibrarySpec::with_platforms("libdrm", strings(&["*-linux"]))];
    let (linux, tools) = build_effective_entry("bcrypt", Some(&custom), &map, false, "x86_64-linux");
    assert_eq!(linux, vec!["libdrm"]);
    assert_eq!(tools, vec!["cargo"]);
    let (darwin, _) = build_effective_entry("bcrypt", Some(&custom), &map, true, "aarch64-darwin");
    assert!(darwin.is_empty());
}

#[test]
fn pkg_config_platform_keys() {
    assert_eq!(pkg_config_platform_key("linux", "x86_64"), Some("PKG_CONFIG_PATH_x86_64_unknown_linux_gnu"));
    assert_eq!(pkg_config_platform_key("linux", "aarch64"), Some("PKG_CONFIG_PATH_aarch64_unknown_linux_gnu"));
    assert_eq!(pkg_config_platform_key("macos", "aarch64"), Some("PKG_CONFIG_PATH_arm64_apple_darwin"));
    assert_eq!(pkg_config_platform_key("macos", "x86_64"), Some("PKG_CONFIG_PATH_x86_64_apple_darwin"));
    assert_eq!(pkg_config_platform_key("windows", "x86_64"), None);
}

#[test]
fn parent_of_paths() {
    assert_eq!(parent_of("/nix/store/zzz/bin/pkg-config"), "/nix/store/zzz/bin");
    assert_eq!(parent_of("pkg-config"), "");
}

#[test]
fn base_build_env_prepends_nix_paths() {
    let nix = nix_config();
    let env = get_base_build_env(&nix, Some("/old/lib"), Some("/usr/bin"));
    let get = |k: &str| env.iter().find(|(n, _)| n == k).map(|(_, v)| v.clone());
    assert_eq!(
        get("LIBRARY_PATH"),
        Some("/nix/store/aaa/lib:/nix/store/bbb/lib:/old/lib".to_string())
    );
    assert_eq!(
        get("PATH"),
        Some("/nix/store/ccc/bin:/nix/store/ddd/bin:/nix/store/zzz/bin:/usr/bin".to_string())
    );
}

#[test]
fn test_get_nix_build_env_no_vars() {
    // Without a package, the environment holds only the base variables.
    let nix = nix_config();
    let env = get_base_build_env(&nix, None, None);
    let env = finish_build_env(env, Some("PKG_CONFIG_PATH_x86_64_unknown_linux_gnu"), false);
    assert!(env.len() < 100);
}

#[test]
fn toolchain_path_goes_first() {
    let vars = vec![("PATH".to_string(), "/usr/bin".to_string())];
    let vars = with_toolchain_path(vars, "/nix/store/rust/bin");
    let path = vars.iter().find(|(n, _)| n == "PATH").map(|(_, v)| v.clone());
    assert_eq!(path, Some("/nix/store/rust/bin:/usr/bin".to_string()));
}

#[test]
fn dev_env_cache_key_depends_on_inputs() {
    let libs = strings(&["libpq"]);
    let tools = strings(&["cargo"]);
    let a = dev_env_cache_key("flake-lock:abc", "psycopg2", &libs, &tools, "");
    let b = dev_env_cache_key("flake-lock:abc", "psycopg2", &libs, &tools, "");
    let c = dev_env_cache_key("flake-lock:abc", "psycopg2", &libs, &strings(&[]), "");
    assert_eq!(a, b);
    assert_ne!(a, c);
    assert!(a.starts_with("dev-env-"));
    assert_eq!(a.len(), 72);
}

#[test]
fn build_paths_go_first() {
    let nix = nix_config();
    let base = get_base_build_env(&nix, None, Some("/usr/bin"));
    let paths = ResolvedBuildPaths {
        library_path: "/nix/store/pq/lib".to_string(),
        include_path: "/nix/store/pq-dev/include".to_string(),
        pkg_config_path: String::new(),
        bin_path: "/nix/store/pq/bin".to_string(),
    };
    let env = uv_nix::build_env::with_build_paths(base, &paths);
    let get = |k: &str| env.iter().find(|(n, _)| n == k).map(|(_, v)| v.clone());
    assert_eq!(
        get("LIBRARY_PATH"),
        Some("/nix/store/pq/lib:/nix/store/aaa/lib:/nix/store/bbb/lib".to_string())
    );
    assert_eq!(get("C_INCLUDE_PATH"), Some("/nix/store/pq-dev/include".to_string()));
    assert_eq!(get("PKG_CONFIG_PATH"), None);
    assert!(get("PATH").unwrap().starts_with("/nix/store/pq/bin:/nix/store/ccc/bin:"));
}

#[test]
fn dev_env_cache_key_hashes_json_of_libs_and_tools() {
    let key = dev_env_cache_key("flake-lock:abc", "psycopg2", &strings(&["libpq"]), &strings(&["cargo"]), "");
    let expected = uv_nix::cache::sha256_hex(b"dev-env-v2\0flake-lock:abc\0psycopg2\0[[\"libpq\"],[\"cargo\"]]\0");
    assert_eq!(key, format!("dev-env-{expected}"));
}

#[test]
fn dev_env_cache_key_escapes_json_strings() {
    let libs = strings(&["a\"b\\c\n\u{1}\tdé"]);
    let key = dev_env_cache_key("k", "n", &libs, &strings(&[]), "r");
    let expected = uv_nix::cache::sha256_hex(
        "dev-env-v2\0k\0n\0[[\"a\\\"b\\\\c\\n\\u0001\\tdé\"],[]]\0r".as_bytes(),
    );
    assert_eq!(key, format!("dev-env-{expected}"));
}
