//! The environment of source builds: which libraries and build tools a
//! package gets (curated defaults merged with `[[tool.uv-nix.package]]`), and
//! the variables injected into the build.
use vstd::prelude::*;

use crate::cache::{hex_digit, hex_of, push_utf8, sha256_hex, sha256_of, utf8};
use crate::config::{extend_strings, clone_strings, PackageConfig, UvNixConfig};
use crate::nix_config::{entry_of, lookup_entry, NixConfig, PackageBuildEntry};
use crate::nixpkgs::{NixpkgsSource, ResolvedBuildPaths, source_view};
use crate::sorted::{keys_of, pairs_map, strictly_sorted, upsert};
use crate::text::{owned, path_join, split_on, views, join_with};

verus! {

/// The effective build configuration of a package.
#[derive(Debug)]
pub struct EffectivePackageConfig {
    /// Package name.
    pub name: String,
    /// Libraries.
    pub libraries: Vec<String>,
    /// Build tools.
    pub build_tools: Vec<String>,
    /// The nixpkgs source, as its debug form.
    pub nixpkgs_source: String,
    /// Whether `pyproject.toml` configures anything for the package.
    pub has_custom_config: bool,
}

/// The libraries of a package: a custom non-empty `libraries` list replaces
/// the curated ones entirely (platform ones included); otherwise the curated
/// libraries and then the curated platform libraries; then the custom extra
/// libraries for the system.
pub open spec fn effective_libs(custom: Option<PackageConfig>, entry: Option<PackageBuildEntry>, is_darwin: bool, system: Seq<char>) -> Seq<Seq<char>> {
    let curated = match entry {
        Some(e) => views(e.libs@) + views(
            if is_darwin {
                e.libs_darwin@
            } else {
                e.libs_linux@
            },
        ),
        None => Seq::empty(),
    };
    match custom {
        Some(c) => (if c.libraries.len() > 0 {
            views(c.libraries@)
        } else {
            curated
        }) + c.extras_for(system),
        None => curated,
    }
}

/// The build tools of a package: the curated ones, then the custom extras.
pub open spec fn effective_tools(custom: Option<PackageConfig>, entry: Option<PackageBuildEntry>) -> Seq<Seq<char>> {
    let base = match entry {
        Some(e) => views(e.build_tools@),
        None => Seq::empty(),
    };
    match custom {
        Some(c) => base + views(c.extra_build_tools@),
        None => base,
    }
}

pub open spec fn opt_ref<T>(o: Option<&T>) -> Option<T> {
    match o {
        Some(x) => Some(*x),
        None => None,
    }
}

/// The libraries and build tools of a package, from its curated entry in
/// `package_map` and its custom configuration.
pub fn build_effective_entry(
    package_name: &str,
    custom_config: Option<&PackageConfig>,
    package_map: &Vec<(String, PackageBuildEntry)>,
    is_darwin: bool,
    system: &str,
) -> (r: (Vec<String>, Vec<String>))
    ensures
        views(r.0@) == effective_libs(opt_ref(custom_config), entry_of(package_map@, package_name@), is_darwin, system@),
        views(r.1@) == effective_tools(opt_ref(custom_config), entry_of(package_map@, package_name@)),
{
    let default_entry = lookup_entry(package_map, package_name);
    let mut curated: Vec<String> = Vec::new();
    match default_entry {
        Some(e) => {
            curated = clone_strings(&e.libs);
            if is_darwin {
                extend_strings(&mut curated, &e.libs_darwin);
            } else {
                extend_strings(&mut curated, &e.libs_linux);
            }
        },
        None => {},
    }
    let mut tools: Vec<String> = match default_entry {
        Some(e) => clone_strings(&e.build_tools),
        None => Vec::new(),
    };
    let ghost t0 = tools@;
    let libs = match custom_config {
        Some(custom) => {
            let mut libs = if custom.libraries.len() > 0 {
                clone_strings(&custom.libraries)
            } else {
                curated
            };
            let ghost l1 = libs@;
            let extra = custom.extra_libraries_for_system(system);
            extend_strings(&mut libs, &extra);
            extend_strings(&mut tools, &custom.extra_build_tools);
            assert(views(libs@) =~= views(l1) + views(extra@));
            assert(views(tools@) =~= views(t0) + views(custom.extra_build_tools@));
            libs
        },
        None => curated,
    };
    (libs, tools)
}

/// The debug form of a string (`{:?}`): quoted, with escapes.
pub uninterp spec fn debug_quoted(s: Seq<char>) -> Seq<char>;

/// `<str as Debug>::fmt`: the quoted, escaped form of a string. What it is,
/// is left to the name `debug_quoted`.
#[verifier::external_body]
fn debug_string(s: &str) -> (r: String)
    ensures
        r@ == debug_quoted(s@),
{
    format!("{:?}", s)
}

/// The debug form of a source, as `{:?}` prints it.
pub open spec fn source_debug_text(s: NixpkgsSource) -> Seq<char> {
    match s {
        NixpkgsSource::ExplicitPin { flake_ref } => "ExplicitPin { flake_ref: "@ + debug_quoted(flake_ref@) + " }"@,
        NixpkgsSource::FlakeLock { rev } => "FlakeLock { rev: "@ + debug_quoted(rev@) + " }"@,
        NixpkgsSource::DevenvLock { rev } => "DevenvLock { rev: "@ + debug_quoted(rev@) + " }"@,
        NixpkgsSource::FloxLock { rev } => "FloxLock { rev: "@ + debug_quoted(rev@) + " }"@,
        NixpkgsSource::AutoResolved { rev } => "AutoResolved { rev: "@ + debug_quoted(rev@) + " }"@,
    }
}

/// The debug form of a source.
pub fn source_debug(s: &NixpkgsSource) -> (r: String)
    ensures
        r@ == source_debug_text(*s),
{
    let (head, value) = match s {
        NixpkgsSource::ExplicitPin { flake_ref } => ("ExplicitPin { flake_ref: ", flake_ref),
        NixpkgsSource::FlakeLock { rev } => ("FlakeLock { rev: ", rev),
        NixpkgsSource::DevenvLock { rev } => ("DevenvLock { rev: ", rev),
        NixpkgsSource::FloxLock { rev } => ("FloxLock { rev: ", rev),
        NixpkgsSource::AutoResolved { rev } => ("AutoResolved { rev: ", rev),
    };
    let mut out = owned(head);
    let q = debug_string(value.as_str());
    out.append(q.as_str());
    out.append(" }");
    out
}

/// The effective configuration of a package: its libraries and build tools,
/// its own nixpkgs pin when it has one (else the project's source), and
/// whether it configures anything.
pub fn get_effective_package_config(
    package_name: &str,
    config: &UvNixConfig,
    project_source: &NixpkgsSource,
    package_map: &Vec<(String, PackageBuildEntry)>,
    is_darwin: bool,
    system: &str,
) -> (r: EffectivePackageConfig)
    ensures
        r.name@ == package_name@,
        ({
            let custom = crate::config::first_named(config.packages@, package_name@);
            &&& views(r.libraries@) == effective_libs(custom, entry_of(package_map@, package_name@), is_darwin, system@)
            &&& views(r.build_tools@) == effective_tools(custom, entry_of(package_map@, package_name@))
            &&& r.has_custom_config == (match custom { Some(c) => c.overrides(), None => false })
            &&& r.nixpkgs_source@ == (match custom {
                Some(c) => match c.nixpkgs {
                    Some(p) => "ExplicitPin { flake_ref: "@ + debug_quoted(p@) + " }"@,
                    None => source_debug_text(*project_source),
                },
                None => source_debug_text(*project_source),
            })
        }),
{
    let custom = config.get_package_config(package_name);
    let (libs, build_tools) = build_effective_entry(package_name, custom, package_map, is_darwin, system);
    let pinned = match custom {
        Some(c) => match &c.nixpkgs {
            Some(p) => Some(p),
            None => None,
        },
        None => None,
    };
    let nixpkgs_source = match pinned {
        Some(p) => {
            let mut out = owned("ExplicitPin { flake_ref: ");
            let q = debug_string(p.as_str());
            out.append(q.as_str());
            out.append(" }");
            out
        },
        None => source_debug(project_source),
    };
    let has_custom_config = match custom {
        Some(c) => c.has_overrides(),
        None => false,
    };
    EffectivePackageConfig {
        name: owned(package_name),
        libraries: libs,
        build_tools,
        nixpkgs_source,
        has_custom_config,
    }
}

/// The nixpkgs a package builds against: its own pin when it has one, else
/// the project's.
pub open spec fn package_source_spec(custom: Option<PackageConfig>, project: NixpkgsSource) -> NixpkgsSource {
    match custom {
        Some(c) => match c.nixpkgs {
            Some(p) => NixpkgsSource::ExplicitPin { flake_ref: p },
            None => project,
        },
        None => project,
    }
}

/// The nixpkgs source a package's build environment comes from.
pub fn package_source(custom: Option<&PackageConfig>, project_source: &NixpkgsSource) -> (r: NixpkgsSource)
    ensures
        source_view(r) == source_view(package_source_spec(opt_ref(custom), *project_source)),
{
    match custom {
        Some(c) => match &c.nixpkgs {
            Some(p) => return NixpkgsSource::ExplicitPin { flake_ref: p.clone() },
            None => {},
        },
        None => {},
    }
    match project_source {
        NixpkgsSource::ExplicitPin { flake_ref } => NixpkgsSource::ExplicitPin { flake_ref: flake_ref.clone() },
        NixpkgsSource::FlakeLock { rev } => NixpkgsSource::FlakeLock { rev: rev.clone() },
        NixpkgsSource::DevenvLock { rev } => NixpkgsSource::DevenvLock { rev: rev.clone() },
        NixpkgsSource::FloxLock { rev } => NixpkgsSource::FloxLock { rev: rev.clone() },
        NixpkgsSource::AutoResolved { rev } => NixpkgsSource::AutoResolved { rev: rev.clone() },
    }
}

/// Whether a package's build tools include `cargo` (its Rust version is then
/// checked).
pub fn needs_cargo(build_tools: &Vec<String>) -> (r: bool)
    ensures
        r == views(build_tools@).contains("cargo"@),
{
    let mut i: usize = 0;
    while i < build_tools.len()
        invariant
            i <= build_tools.len(),
            forall|k: int| 0 <= k < i ==> build_tools@[k]@ != "cargo"@,
        decreases build_tools.len() - i,
    {
        if crate::text::str_eq(build_tools[i].as_str(), "cargo") {
            assert(views(build_tools@)[i as int] == "cargo"@);
            return true;
        }
        i = i + 1;
    }
    proof {
        if views(build_tools@).contains("cargo"@) {
            let k = choose|k: int| 0 <= k < views(build_tools@).len() && views(build_tools@)[k] == "cargo"@;
            assert(build_tools@[k]@ == "cargo"@);
        }
    }
    false
}

// ---------------------------------------------------------------------------
// Build environment variables
// ---------------------------------------------------------------------------
/// `value`, then the existing value after a colon when there is a non-empty one.
pub open spec fn prepended(existing: Option<Seq<char>>, value: Seq<char>) -> Seq<char> {
    match existing {
        Some(e) => if e.len() > 0 {
            value + ":"@ + e
        } else {
            value
        },
        None => value,
    }
}

/// Prepends `value` to a colon-separated variable.
pub fn prepend_env(existing: Option<&str>, value: &str) -> (r: String)
    ensures
        r@ == prepended(
            match existing {
                Some(e) => Some(e@),
                None => None,
            },
            value@,
        ),
{
    match existing {
        Some(e) => if !e.is_empty() {
            let mut r = owned(value);
            r.append(":");
            r.append(e);
            r
        } else {
            owned(value)
        },
        None => owned(value),
    }
}

/// The `PKG_CONFIG_PATH_<triple>` variable nix's pkg-config wrapper reads.
pub open spec fn pkg_config_key_spec(os: Seq<char>, arch: Seq<char>) -> Option<Seq<char>> {
    if os == "macos"@ && arch == "aarch64"@ {
        Some("PKG_CONFIG_PATH_arm64_apple_darwin"@)
    } else if os == "macos"@ && arch == "x86_64"@ {
        Some("PKG_CONFIG_PATH_x86_64_apple_darwin"@)
    } else if os == "linux"@ && arch == "x86_64"@ {
        Some("PKG_CONFIG_PATH_x86_64_unknown_linux_gnu"@)
    } else if os == "linux"@ && arch == "aarch64"@ {
        Some("PKG_CONFIG_PATH_aarch64_unknown_linux_gnu"@)
    } else {
        None
    }
}

/// The platform's `PKG_CONFIG_PATH_<triple>` variable, if known.
pub fn pkg_config_platform_key(os: &str, arch: &str) -> (r: Option<&'static str>)
    ensures
        match r {
            Some(k) => pkg_config_key_spec(os@, arch@) == Some(k@),
            None => pkg_config_key_spec(os@, arch@) is None,
        },
{
    let linux = crate::text::str_eq(os, "linux");
    let macos = crate::text::str_eq(os, "macos");
    let x86 = crate::text::str_eq(arch, "x86_64");
    let arm = crate::text::str_eq(arch, "aarch64");
    if macos && arm {
        Some("PKG_CONFIG_PATH_arm64_apple_darwin")
    } else if macos && x86 {
        Some("PKG_CONFIG_PATH_x86_64_apple_darwin")
    } else if linux && x86 {
        Some("PKG_CONFIG_PATH_x86_64_unknown_linux_gnu")
    } else if linux && arm {
        Some("PKG_CONFIG_PATH_aarch64_unknown_linux_gnu")
    } else {
        None
    }
}

/// The environment of a build as a map.
pub open spec fn env_map(v: Seq<(String, String)>) -> Map<Seq<char>, Seq<char>> {
    pairs_map(v).map_values(|s: String| s@)
}

/// The variables a resolved development environment gets before a build:
/// `PYTHONPATH` emptied; `PKG_CONFIG_PATH` mirrored into the platform's
/// pkg-config variable; `LIBRARY_PATH` copied to `DYLD_FALLBACK_LIBRARY_PATH`
/// on Darwin, or to `LD_LIBRARY_PATH` elsewhere unless that is set.
pub open spec fn finished_env(m: Map<Seq<char>, Seq<char>>, key: Option<Seq<char>>, is_darwin: bool) -> Map<Seq<char>, Seq<char>> {
    let m1 = m.insert("PYTHONPATH"@, Seq::empty());
    let m2 = if m1.dom().contains("PKG_CONFIG_PATH"@) && key is Some {
        m1.insert(key->0, m1["PKG_CONFIG_PATH"@])
    } else {
        m1
    };
    if m2.dom().contains("LIBRARY_PATH"@) {
        if is_darwin {
            m2.insert("DYLD_FALLBACK_LIBRARY_PATH"@, m2["LIBRARY_PATH"@])
        } else if m2.dom().contains("LD_LIBRARY_PATH"@) {
            m2
        } else {
            m2.insert("LD_LIBRARY_PATH"@, m2["LIBRARY_PATH"@])
        }
    } else {
        m2
    }
}

/// The finished environment mirrors `PKG_CONFIG_PATH` into the platform's
/// pkg-config variable (unless that variable is the one Darwin's dlopen path
/// then takes over), empties `PYTHONPATH` unless it is that variable, and
/// keeps every other variable it does not set.
pub proof fn lemma_finished_env_pkg_config(m: Map<Seq<char>, Seq<char>>, key: Option<Seq<char>>, is_darwin: bool)
    ensures
        ({
            let r = finished_env(m, key, is_darwin);
            &&& m.dom().contains("PKG_CONFIG_PATH"@) && key is Some && !(is_darwin && key->0
                == "DYLD_FALLBACK_LIBRARY_PATH"@) ==> r.dom().contains(key->0) && r[key->0]
                == m["PKG_CONFIG_PATH"@]
            &&& key != Some("PYTHONPATH"@) ==> r.dom().contains("PYTHONPATH"@) && r["PYTHONPATH"@]
                == Seq::<char>::empty()
            &&& forall|v: Seq<char>|
                #![trigger m.dom().contains(v)]
                m.dom().contains(v) && v != "PYTHONPATH"@ && Some(v) != key && v
                    != "LD_LIBRARY_PATH"@ && v != "DYLD_FALLBACK_LIBRARY_PATH"@ ==> r.dom().contains(v)
                    && r[v] == m[v]
        }),
{
    reveal_strlit("PKG_CONFIG_PATH");
    reveal_strlit("PYTHONPATH");
    reveal_strlit("LD_LIBRARY_PATH");
    reveal_strlit("DYLD_FALLBACK_LIBRARY_PATH");
    assert("PKG_CONFIG_PATH"@.len() != "PYTHONPATH"@.len());
    assert("PYTHONPATH"@.len() != "LD_LIBRARY_PATH"@.len());
    assert("PYTHONPATH"@.len() != "DYLD_FALLBACK_LIBRARY_PATH"@.len());
}

fn get_var(vars: &Vec<(String, String)>, k: &str) -> (r: Option<String>)
    requires
        strictly_sorted(keys_of(vars@)),
    ensures
        match r {
            Some(v) => env_map(vars@).dom().contains(k@) && env_map(vars@)[k@] == v@,
            None => !env_map(vars@).dom().contains(k@),
        },
{
    match crate::sorted::find_key(vars, k) {
        Some(i) => {
            proof {
                crate::sorted::lemma_pairs_map_at(vars@, i as int);
            }
            Some(vars[i].1.clone())
        },
        None => None,
    }
}

fn set_var(vars: &mut Vec<(String, String)>, k: &str, v: String)
    requires
        strictly_sorted(keys_of(old(vars)@)),
    ensures
        strictly_sorted(keys_of(final(vars)@)),
        env_map(final(vars)@) == env_map(old(vars)@).insert(k@, v@),
{
    let ghost m0 = pairs_map(vars@);
    let vv = v;
    let ghost val = vv;
    upsert(vars, owned(k), vv);
    assert(env_map(vars@) =~= env_map(old(vars)@).insert(k@, val@));
}

/// The variables of a resolved development environment, finished for a
/// build (see `finished_env`). `vars` is kept sorted by name.
pub fn finish_build_env(vars: Vec<(String, String)>, pkg_config_key: Option<&str>, is_darwin: bool) -> (r: Vec<(String, String)>)
    requires
        strictly_sorted(keys_of(vars@)),
    ensures
        strictly_sorted(keys_of(r@)),
        env_map(r@) == finished_env(
            env_map(vars@),
            match pkg_config_key {
                Some(k) => Some(k@),
                None => None,
            },
            is_darwin,
        ),
{
    let mut vars = vars;
    set_var(&mut vars, "PYTHONPATH", String::new());
    match get_var(&vars, "PKG_CONFIG_PATH") {
        Some(p) => match pkg_config_key {
            Some(k) => set_var(&mut vars, k, p),
            None => {},
        },
        None => {},
    }
    match get_var(&vars, "LIBRARY_PATH") {
        Some(lib) => {
            if is_darwin {
                set_var(&mut vars, "DYLD_FALLBACK_LIBRARY_PATH", lib);
            } else if get_var(&vars, "LD_LIBRARY_PATH").is_none() {
                set_var(&mut vars, "LD_LIBRARY_PATH", lib);
            }
        },
        None => {},
    }
    vars
}

/// The directory of a path (`Path::parent`, shown as a string; empty when
/// there is none).
pub open spec fn parent_dir(p: Seq<char>) -> Seq<char> {
    let parts = split_on(p, '/');
    if parts.len() <= 1 {
        Seq::empty()
    } else {
        let j = join_with(parts.drop_last(), '/');
        if j.len() == 0 {
            "/"@
        } else {
            j
        }
    }
}

/// The directory of a path.
pub fn parent_of(p: &str) -> (r: String)
    ensures
        r@ == parent_dir(p@),
{
    let mut parts = crate::text::split_char(p, '/');
    proof {
        crate::text::lemma_split_nonempty(p@, '/');
    }
    if parts.len() <= 1 {
        return String::new();
    }
    let ghost pv = views(parts@);
    let n = parts.len();
    let _ = parts.remove(n - 1);
    assert(views(parts@) =~= pv.drop_last());
    let j = crate::text::join_strings(&parts, '/');
    if j.as_str().is_empty() {
        owned("/")
    } else {
        j
    }
}

/// The minimal build environment from the resolved Nix configuration:
/// `PYTHONPATH` emptied, the Nix library path before `LIBRARY_PATH`, the
/// compiler, coreutils and pkg-config directories before `PATH`, and
/// `PKG_CONFIG`. The current values of `LIBRARY_PATH` and `PATH` are passed in.
pub fn get_base_build_env(nix: &NixConfig, library_path: Option<&str>, path: Option<&str>) -> (r: Vec<(String, String)>)
    ensures
        strictly_sorted(keys_of(r@)),
        env_map(r@) == Map::<Seq<char>, Seq<char>>::empty().insert("PYTHONPATH"@, Seq::empty()).insert(
            "LIBRARY_PATH"@,
            prepended(match library_path { Some(e) => Some(e@), None => None }, nix.library_path@),
        ).insert(
            "PATH"@,
            prepended(
                match path { Some(e) => Some(e@), None => None },
                nix.cc_bin@ + ":"@ + nix.coreutils_bin@ + ":"@ + parent_dir(nix.pkg_config@),
            ),
        ).insert("PKG_CONFIG"@, nix.pkg_config@),
{
    let mut vars: Vec<(String, String)> = Vec::new();
    assert(env_map(vars@) =~= Map::<Seq<char>, Seq<char>>::empty());
    set_var(&mut vars, "PYTHONPATH", String::new());
    set_var(&mut vars, "LIBRARY_PATH", prepend_env(library_path, nix.library_path.as_str()));
    let mut base = owned(nix.cc_bin.as_str());
    base.append(":");
    base.append(nix.coreutils_bin.as_str());
    base.append(":");
    let dir = parent_of(nix.pkg_config.as_str());
    base.append(dir.as_str());
    set_var(&mut vars, "PATH", prepend_env(path, base.as_str()));
    set_var(&mut vars, "PKG_CONFIG", nix.pkg_config.clone());
    vars
}

/// The rust-overlay toolchain's `bin` before `PATH` (or as `PATH` when unset).
pub fn with_toolchain_path(vars: Vec<(String, String)>, toolchain_bin: &str) -> (r: Vec<(String, String)>)
    requires
        strictly_sorted(keys_of(vars@)),
    ensures
        strictly_sorted(keys_of(r@)),
        env_map(r@) == env_map(vars@).insert(
            "PATH"@,
            if env_map(vars@).dom().contains("PATH"@) {
                toolchain_bin@ + ":"@ + env_map(vars@)["PATH"@]
            } else {
                toolchain_bin@
            },
        ),
{
    let mut vars = vars;
    match get_var(&vars, "PATH") {
        Some(p) => {
            let mut v = owned(toolchain_bin);
            v.append(":");
            v.append(p.as_str());
            set_var(&mut vars, "PATH", v);
        },
        None => set_var(&mut vars, "PATH", owned(toolchain_bin)),
    }
    vars
}

// ---------------------------------------------------------------------------
// Development environment cache key
// ---------------------------------------------------------------------------
/// A character as `serde_json` writes it inside a JSON string: `"` and `\`
/// behind a backslash, the short escapes for backspace, tab, line feed, form
/// feed and carriage return, `\u00` and two lowercase hex digits for the other
/// control characters below U+0020, every other character as it is.
pub open spec fn json_char(c: char) -> Seq<char> {
    if c == '"' || c == '\\' {
        seq!['\\', c]
    } else if c == '\u{8}' {
        seq!['\\', 'b']
    } else if c == '\t' {
        seq!['\\', 't']
    } else if c == '\n' {
        seq!['\\', 'n']
    } else if c == '\u{c}' {
        seq!['\\', 'f']
    } else if c == '\r' {
        seq!['\\', 'r']
    } else if (c as u32) < 0x20 {
        seq!['\\', 'u', '0', '0', hex_digit(((c as u32) / 16) as u8), hex_digit(((c as u32) % 16) as u8)]
    } else {
        seq![c]
    }
}

/// The characters of a string, each as `json_char` writes it.
pub open spec fn json_escaped(s: Seq<char>) -> Seq<char>
    decreases s.len(),
{
    if s.len() == 0 {
        Seq::empty()
    } else {
        json_escaped(s.drop_last()) + json_char(s.last())
    }
}

/// A list of strings as a JSON array: each string quoted and escaped,
/// separated by `,` with no white space.
pub open spec fn json_array(v: Seq<Seq<char>>) -> Seq<char> {
    seq!['['] + join_with(v.map_values(|s: Seq<char>| seq!['"'] + json_escaped(s) + seq!['"']), ',')
        + seq![']']
}

/// The JSON text of a pair of string lists, as `serde_json` writes it: an
/// array of the two arrays.
pub open spec fn json_pair_text(a: Seq<Seq<char>>, b: Seq<Seq<char>>) -> Seq<char> {
    seq!['['] + json_array(a) + seq![','] + json_array(b) + seq![']']
}

/// `serde_json::to_string` of the pair `(a, b)`: the compact JSON text
/// `json_pair_text` states. Serialising string lists does not fail.
#[verifier::external_body]
fn json_pair(a: &Vec<String>, b: &Vec<String>) -> (r: String)
    ensures
        r@ == json_pair_text(views(a@), views(b@)),
{
    serde_json::to_string(&(a, b)).unwrap_or_default()
}

/// The bytes hashed for the cache key of a package's development environment.
pub open spec fn dev_env_key_input(nixpkgs_key: Seq<char>, name: Seq<char>, libs: Seq<Seq<char>>, tools: Seq<Seq<char>>, rust_key: Seq<char>) -> Seq<u8> {
    utf8("dev-env-v2"@) + seq![0u8] + utf8(nixpkgs_key) + seq![0u8] + utf8(name) + seq![0u8]
        + utf8(json_pair_text(libs, tools)) + seq![0u8] + utf8(rust_key)
}

/// The cache key of a package's development environment: `dev-env-` and the
/// SHA-256 (hex) of the nixpkgs key, package name, libraries and build tools
/// (as JSON) and the rust toolchain, NUL-separated.
pub fn dev_env_cache_key(nixpkgs_key: &str, package_name: &str, libs: &Vec<String>, build_tools: &Vec<String>, rust_key: &str) -> (r: String)
    ensures
        r@ == "dev-env-"@ + hex_of(sha256_of(dev_env_key_input(nixpkgs_key@, package_name@, views(libs@), views(build_tools@), rust_key@))),
{
    let entry_json = json_pair(libs, build_tools);
    let mut buf: Vec<u8> = Vec::new();
    push_utf8(&mut buf, "dev-env-v2");
    buf.push(0u8);
    push_utf8(&mut buf, nixpkgs_key);
    buf.push(0u8);
    push_utf8(&mut buf, package_name);
    buf.push(0u8);
    push_utf8(&mut buf, entry_json.as_str());
    buf.push(0u8);
    push_utf8(&mut buf, rust_key);
    assert(buf@ =~= dev_env_key_input(nixpkgs_key@, package_name@, views(libs@), views(build_tools@), rust_key@));
    let h = sha256_hex(buf.as_slice());
    let mut r = owned("dev-env-");
    r.append(h.as_str());
    r
}

/// `k` with `v` put before its current value, when `v` is not empty.
pub open spec fn add_path(m: Map<Seq<char>, Seq<char>>, k: Seq<char>, v: Seq<char>) -> Map<Seq<char>, Seq<char>> {
    if v.len() == 0 {
        m
    } else {
        m.insert(
            k,
            prepended(
                if m.dom().contains(k) {
                    Some(m[k])
                } else {
                    None
                },
                v,
            ),
        )
    }
}

fn add_path_var(vars: &mut Vec<(String, String)>, k: &str, v: &str)
    requires
        strictly_sorted(keys_of(old(vars)@)),
    ensures
        strictly_sorted(keys_of(final(vars)@)),
        env_map(final(vars)@) == add_path(env_map(old(vars)@), k@, v@),
{
    if v.is_empty() {
        return;
    }
    let cur = get_var(vars, k);
    let value = match cur {
        Some(c) => prepend_env(Some(c.as_str()), v),
        None => prepend_env(None, v),
    };
    set_var(vars, k, value);
}

/// A build environment with the resolved paths of a package's libraries and
/// tools put first: library, include, pkg-config and bin paths.
pub fn with_build_paths(vars: Vec<(String, String)>, paths: &ResolvedBuildPaths) -> (r: Vec<(String, String)>)
    requires
        strictly_sorted(keys_of(vars@)),
    ensures
        strictly_sorted(keys_of(r@)),
        env_map(r@) == add_path(
            add_path(
                add_path(add_path(env_map(vars@), "LIBRARY_PATH"@, paths.library_path@), "C_INCLUDE_PATH"@, paths.include_path@),
                "PKG_CONFIG_PATH"@,
                paths.pkg_config_path@,
            ),
            "PATH"@,
            paths.bin_path@,
        ),
{
    let mut vars = vars;
    add_path_var(&mut vars, "LIBRARY_PATH", paths.library_path.as_str());
    add_path_var(&mut vars, "C_INCLUDE_PATH", paths.include_path.as_str());
    add_path_var(&mut vars, "PKG_CONFIG_PATH", paths.pkg_config_path.as_str());
    add_path_var(&mut vars, "PATH", paths.bin_path.as_str());
    vars
}

} // verus!
