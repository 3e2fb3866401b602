use uv_nix::config::{find_config, ConfigCandidate, LibrarySpec, PackageConfig, UvNixConfig};

#[test]
fn test_library_spec_matches_system() {
    let all_platforms = LibrarySpec::all_platforms("libGL");
    assert!(all_platforms.matches_system("x86_64-linux"));
    assert!(all_platforms.matches_system("aarch64-darwin"));

    let linux_only = LibrarySpec::with_platforms("libdrm", vec!["*-linux".to_string()]);
    assert!(linux_only.matches_system("x86_64-linux"));
    assert!(linux_only.matches_system("aarch64-linux"));
    assert!(!linux_only.matches_system("aarch64-darwin"));

    let x86_only = LibrarySpec::with_platforms("cuda", vec!["x86_64-linux".to_string()]);
    assert!(x86_only.matches_system("x86_64-linux"));
    assert!(!x86_only.matches_system("aarch64-linux"));
}

#[test]
fn library_spec_linux_and_darwin() {
    let linux_only = LibrarySpec::with_platforms("libdrm", vec!["*-linux".to_string()]);
    assert!(linux_only.matches_linux());
    assert!(!linux_only.matches_darwin());
    let any = LibrarySpec::all_platforms("zlib");
    assert!(any.matches_linux() && any.matches_darwin());
}

fn config_with_libs(libs: Vec<LibrarySpec>) -> UvNixConfig {
    let mut c = UvNixConfig::empty();
    c.extra_libraries = libs;
    c
}

#[test]
fn extra_libraries_filtered_by_platform() {
    let config = config_with_libs(vec![
        LibrarySpec::all_platforms("libGL"),
        LibrarySpec::with_platforms("libdrm", vec!["*-linux".to_string()]),
        LibrarySpec::with_platforms(
            "darwin.apple_sdk.frameworks.Accelerate",
            vec!["*-darwin".to_string()],
        ),
        LibrarySpec::with_platforms("cudaPackages.cudatoolkit", vec!["x86_64-linux".to_string()]),
    ]);
    assert_eq!(
        config.extra_libraries_for_system("x86_64-linux"),
        vec!["libGL", "libdrm", "cudaPackages.cudatoolkit"]
    );
    assert_eq!(
        config.extra_libraries_for_system("aarch64-darwin"),
        vec!["libGL", "darwin.apple_sdk.frameworks.Accelerate"]
    );
    assert_eq!(
        config.extra_libraries_for_system("aarch64-linux"),
        vec!["libGL", "libdrm"]
    );
    assert_eq!(
        config.extra_library_names(),
        vec![
            "libGL",
            "libdrm",
            "darwin.apple_sdk.frameworks.Accelerate",
            "cudaPackages.cudatoolkit"
        ]
    );
}

#[test]
fn package_config_overrides_and_extras() {
    let mut numpy = PackageConfig::named("numpy");
    assert!(!numpy.has_overrides());
    numpy.extra_libraries = vec![LibrarySpec::all_platforms("mkl")];
    numpy.extra_linux_libraries = vec!["cuda".to_string()];
    numpy.extra_darwin_libraries = vec!["metal".to_string()];
    assert!(numpy.has_overrides());
    assert_eq!(numpy.extra_libraries_for_system("x86_64-linux"), vec!["mkl", "cuda"]);
    assert_eq!(numpy.extra_libraries_for_system("aarch64-darwin"), vec!["mkl", "metal"]);
}

#[test]
fn get_package_config_finds_by_name() {
    let mut config = UvNixConfig::empty();
    assert!(!config.has_config());
    let mut p = PackageConfig::named("psycopg2");
    p.libraries = vec!["postgresql_17".to_string()];
    config.packages = vec![p, PackageConfig::named("numpy")];
    assert!(config.has_config());
    assert_eq!(
        config.get_package_config("psycopg2").unwrap().libraries,
        vec!["postgresql_17"]
    );
    assert!(config.get_package_config("numpy").is_some());
    assert!(config.get_package_config("nonexistent").is_none());
}

#[test]
fn find_config_takes_nearest_configured() {
    let mut pinned = UvNixConfig::empty();
    pinned.nixpkgs = Some("github:NixOS/nixpkgs/nixos-24.11".to_string());
    let candidates = vec![
        ConfigCandidate { dir: "/p/sub".to_string(), config: None },
        ConfigCandidate { dir: "/p".to_string(), config: Some(UvNixConfig::empty()) },
        ConfigCandidate { dir: "/".to_string(), config: Some(pinned) },
    ];
    let (config, dir) = find_config(candidates).unwrap();
    assert_eq!(dir, "/");
    assert_eq!(config.nixpkgs.as_deref(), Some("github:NixOS/nixpkgs/nixos-24.11"));
}

#[test]
fn find_config_none_when_nothing_configured() {
    let candidates = vec![ConfigCandidate { dir: "/p".to_string(), config: Some(UvNixConfig::empty()) }];
    assert!(find_config(candidates).is_none());
}
