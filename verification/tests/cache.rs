use uv_nix::cache::{cache_key, cache_path, hex_string, lookup, sha256_hex, store};

fn strings(items: &[&str]) -> Vec<String> {
    items.iter().map(|s| s.to_string()).collect()
}

#[test]
fn cache_test_cache_roundtrip() {
    let attrs = strings(&["libGL", "zlib"]);
    let nixpkgs_key = "flake-lock:abc123";
    let library_path = "/nix/store/xxx/lib:/nix/store/yyy/lib";

    // Should miss initially
    assert!(lookup(&None, nixpkgs_key, &attrs).is_none());

    // Store
    let stored = Some(store(nixpkgs_key, &attrs, library_path));

    // Should hit
    let result = lookup(&stored, nixpkgs_key, &attrs).unwrap();
    assert_eq!(result, library_path);

    // Different key should miss
    assert!(lookup(&stored, "different-key", &attrs).is_none());

    // Different attrs should miss
    let other_attrs = strings(&["libGL"]);
    assert!(lookup(&stored, nixpkgs_key, &other_attrs).is_none());
}

#[test]
fn sha256_of_known_input() {
    assert_eq!(
        sha256_hex(b"abc"),
        "ba7816bf8f01cfea414140de5dae2223b00361a396177a9cb410ff61f20015ad"
    );
    assert_eq!(
        sha256_hex(b""),
        "e3b0c44298fc1c149afbf4c8996fb92427ae41e4649b934ca495991b7852b855"
    );
}

#[test]
fn hex_string_lowercase_two_digits() {
    assert_eq!(hex_string(&[0x00, 0x0f, 0xab, 0xff]), "000fabff");
    assert_eq!(hex_string(&[]), "");
}

#[test]
fn cache_key_hashes_key_and_attrs() {
    // With no attrs the key is the hash of the nixpkgs key alone.
    assert_eq!(
        cache_key("abc", &strings(&[])),
        "ba7816bf8f01cfea414140de5dae2223b00361a396177a9cb410ff61f20015ad"
    );
    // Attr order matters: each attr follows a NUL byte.
    let a = cache_key("k", &strings(&["x", "y"]));
    let b = cache_key("k", &strings(&["y", "x"]));
    assert_ne!(a, b);
    assert_eq!(a, sha256_hex(b"k\0x\0y"));
}

#[test]
fn cache_file_location() {
    assert_eq!(cache_path("/proj"), "/proj/.uv-nix/cache/resolved-libs.json");
}
