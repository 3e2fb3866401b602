//! The `[tool.uv-nix]` section of `pyproject.toml` and the questions the rest
//! of the library asks of it.
use vstd::prelude::*;

use crate::sorted::views;
use crate::text::{chars_of, ends_with, has_suffix, str_eq};

verus! {

/// A library given either for every platform or for a list of platform patterns.
///
/// A pattern is either a system such as `x86_64-linux`, matched exactly, or a
/// wildcard `*-<suffix>` such as `*-linux`, matched by the system's suffix.
#[derive(Debug)]
pub struct LibrarySpec {
    /// The nixpkgs attribute path of the library.
    pub pkg: String,
    /// Platform patterns; empty means every platform.
    pub platforms: Vec<String>,
}

/// Whether one platform pattern matches a system string.
pub open spec fn pattern_matches(pattern: Seq<char>, system: Seq<char>) -> bool {
    if pattern.len() >= 2 && pattern[0] == '*' && pattern[1] == '-' {
        has_suffix(system, pattern.drop_first())
    } else {
        pattern == system
    }
}

/// The `pkg` of each spec that applies to `system`, in order.
pub open spec fn matching_pkgs(specs: Seq<LibrarySpec>, system: Seq<char>) -> Seq<Seq<char>>
    decreases specs.len(),
{
    if specs.len() == 0 {
        Seq::empty()
    } else {
        let r = matching_pkgs(specs.drop_last(), system);
        if specs.last().applies_to(system) {
            r.push(specs.last().pkg@)
        } else {
            r
        }
    }
}

/// The `pkg` of every spec, in order.
pub open spec fn all_pkgs(specs: Seq<LibrarySpec>) -> Seq<Seq<char>> {
    specs.map_values(|s: LibrarySpec| s.pkg@)
}

/// A copy of a list of strings.
pub fn clone_strings(v: &Vec<String>) -> (r: Vec<String>)
    ensures
        r@ == v@,
{
    let mut r: Vec<String> = Vec::new();
    let mut i: usize = 0;
    while i < v.len()
        invariant
            i <= v.len(),
            r@ == v@.take(i as int),
        decreases v.len() - i,
    {
        r.push(v[i].clone());
        assert(v@.take(i as int + 1) == v@.take(i as int).push(v@[i as int]));
        i = i + 1;
    }
    assert(v@.take(v.len() as int) == v@);
    r
}

/// Appends copies of the strings of `extra` to `v`.
pub fn extend_strings(v: &mut Vec<String>, extra: &Vec<String>)
    ensures
        final(v)@ == old(v)@ + extra@,
{
    let ghost start = v@;
    let mut i: usize = 0;
    while i < extra.len()
        invariant
            i <= extra.len(),
            v@ == start + extra@.take(i as int),
        decreases extra.len() - i,
    {
        v.push(extra[i].clone());
        assert(extra@.take(i as int + 1) == extra@.take(i as int).push(extra@[i as int]));
        i = i + 1;
    }
    assert(extra@.take(extra.len() as int) == extra@);
}

impl LibrarySpec {
    /// Whether this library applies to `system`.
    pub open spec fn applies_to(self, system: Seq<char>) -> bool {
        self.platforms.len() == 0 || exists|i: int|
            0 <= i < self.platforms.len() && pattern_matches(#[trigger] self.platforms@[i]@, system)
    }

    /// A library for every platform.
    pub fn all_platforms(pkg: &str) -> (r: Self)
        ensures
            r.pkg@ == pkg@,
            r.platforms@.len() == 0,
    {
        LibrarySpec { pkg: crate::text::owned(pkg), platforms: Vec::new() }
    }

    /// A library for the given platform patterns.
    pub fn with_platforms(pkg: &str, platforms: Vec<String>) -> (r: Self)
        ensures
            r.pkg@ == pkg@,
            r.platforms@ == platforms@,
    {
        LibrarySpec { pkg: crate::text::owned(pkg), platforms }
    }

    /// Whether this library applies to `system` (e.g. `x86_64-linux`).
    pub fn matches_system(&self, system: &str) -> (r: bool)
        ensures
            r == self.applies_to(system@),
    {
        if self.platforms.len() == 0 {
            return true;
        }
        let mut i: usize = 0;
        while i < self.platforms.len()
            invariant
                i <= self.platforms.len(),
                forall|k: int|
                    0 <= k < i ==> !pattern_matches(#[trigger] self.platforms@[k]@, system@),
            decreases self.platforms.len() - i,
        {
            if pattern_matches_exec(self.platforms[i].as_str(), system) {
                assert(pattern_matches(self.platforms@[i as int]@, system@));
                return true;
            }
            i = i + 1;
        }
        false
    }

    /// Whether this library applies to some Linux system.
    pub fn matches_linux(&self) -> (r: bool)
        ensures
            r == (self.applies_to("x86_64-linux"@) || self.applies_to("aarch64-linux"@)),
    {
        self.matches_system("x86_64-linux") || self.matches_system("aarch64-linux")
    }

    /// Whether this library applies to some Darwin system.
    pub fn matches_darwin(&self) -> (r: bool)
        ensures
            r == (self.applies_to("x86_64-darwin"@) || self.applies_to("aarch64-darwin"@)),
    {
        self.matches_system("x86_64-darwin") || self.matches_system("aarch64-darwin")
    }
}

/// A library without platform patterns applies to every system.
pub proof fn lemma_no_patterns_match_all(spec: LibrarySpec, system: Seq<char>)
    requires
        spec.platforms@.len() == 0,
    ensures
        spec.applies_to(system),
{
}

/// A wildcard pattern `*-<suffix>` matches exactly the systems ending in `-<suffix>`.
pub proof fn lemma_wildcard(suffix: Seq<char>, system: Seq<char>)
    ensures
        pattern_matches(seq!['*', '-'] + suffix, system) == has_suffix(system, seq!['-'] + suffix),
{
    let p = seq!['*', '-'] + suffix;
    assert(p.drop_first() =~= seq!['-'] + suffix);
}

/// A library applies to a system that any of its patterns names: the system
/// itself, at any position of the list.
pub proof fn lemma_listed_system_applies(spec: LibrarySpec, system: Seq<char>, i: int)
    requires
        0 <= i < spec.platforms@.len(),
        spec.platforms@[i]@ == system,
    ensures
        spec.applies_to(system),
{
    let p = spec.platforms@[i]@;
    if p.len() >= 2 && p[0] == '*' && p[1] == '-' {
        assert(system.subrange(system.len() - p.drop_first().len(), system.len() as int)
            =~= p.drop_first());
    }
    assert(pattern_matches(spec.platforms@[i]@, system));
}

/// A library applies to every system ending in `-<suffix>` when any of its
/// patterns, at any position, is the wildcard `*-<suffix>`.
pub proof fn lemma_listed_wildcard_applies(spec: LibrarySpec, suffix: Seq<char>, system: Seq<char>, i: int)
    requires
        0 <= i < spec.platforms@.len(),
        spec.platforms@[i]@ == seq!['*', '-'] + suffix,
        has_suffix(system, seq!['-'] + suffix),
    ensures
        spec.applies_to(system),
{
    lemma_wildcard(suffix, system);
    assert(pattern_matches(spec.platforms@[i]@, system));
}

/// A library with patterns applies only to systems one of them names or
/// matches as a `*-<suffix>` wildcard.
pub proof fn lemma_applies_only_when_listed(spec: LibrarySpec, system: Seq<char>)
    requires
        spec.platforms@.len() > 0,
        spec.applies_to(system),
    ensures
        exists|i: int|
            0 <= i < spec.platforms@.len() && (#[trigger] spec.platforms@[i]@ == system || (
            spec.platforms@[i]@.len() >= 2 && spec.platforms@[i]@[0] == '*'
                && spec.platforms@[i]@[1] == '-' && has_suffix(
                system,
                spec.platforms@[i]@.drop_first(),
            ))),
{
    let i = choose|i: int|
        0 <= i < spec.platforms.len() && pattern_matches(#[trigger] spec.platforms@[i]@, system);
    assert(0 <= i < spec.platforms@.len());
}

/// Some spec that applies to the system has this pkg.
pub open spec fn pkg_of_applicable(specs: Seq<LibrarySpec>, system: Seq<char>, p: Seq<char>) -> bool {
    exists|j: int| 0 <= j < specs.len() && (#[trigger] specs[j]).applies_to(system) && specs[j].pkg@ == p
}

/// Exactly the libraries that apply to a system are selected for it: a pkg is
/// among the selected ones when its spec applies, and every selected pkg
/// comes from a spec that applies.
pub proof fn lemma_matching_pkgs_selects_applicable(specs: Seq<LibrarySpec>, system: Seq<char>)
    ensures
        forall|j: int|
            0 <= j < specs.len() && (#[trigger] specs[j]).applies_to(system) ==> matching_pkgs(
                specs,
                system,
            ).contains(specs[j].pkg@),
        forall|k: int|
            0 <= k < matching_pkgs(specs, system).len() ==> pkg_of_applicable(
                specs,
                system,
                #[trigger] matching_pkgs(specs, system)[k],
            ),
    decreases specs.len(),
{
    if specs.len() > 0 {
        let init = specs.drop_last();
        lemma_matching_pkgs_selects_applicable(init, system);
        let r = matching_pkgs(init, system);
        let res = matching_pkgs(specs, system);
        assert forall|j: int| 0 <= j < specs.len() && (#[trigger] specs[j]).applies_to(system)
            implies res.contains(specs[j].pkg@) by {
            if j < specs.len() - 1 {
                assert(specs[j] == init[j]);
                let w = choose|w: int| 0 <= w < r.len() && r[w] == specs[j].pkg@;
                assert(res[w] == r[w]);
            } else {
                assert(res[res.len() - 1] == specs[j].pkg@);
            }
        }
        assert forall|k: int| 0 <= k < res.len() implies pkg_of_applicable(
            specs,
            system,
            #[trigger] res[k],
        ) by {
            if k < r.len() {
                assert(res[k] == r[k]);
                assert(pkg_of_applicable(init, system, r[k]));
                let j = choose|j: int|
                    #![trigger init[j]]
                    0 <= j < init.len() && init[j].applies_to(system) && init[j].pkg@ == r[k];
                assert(specs[j] == init[j]);
            } else {
                assert(specs.last().applies_to(system));
                assert(res[k] == specs.last().pkg@);
                assert(specs[specs.len() - 1] == specs.last());
            }
        }
    } else {
        assert(matching_pkgs(specs, system).len() == 0);
    }
}

/// Whether one platform pattern matches a system string.
pub fn pattern_matches_exec(pattern: &str, system: &str) -> (r: bool)
    ensures
        r == pattern_matches(pattern@, system@),
{
    let pv = chars_of(pattern);
    if pv.len() >= 2 && pv[0] == '*' && pv[1] == '-' {
        let rest = crate::text::string_from_chars(pv.as_slice().split_at(1).1);
        assert(pv@.subrange(1, pv@.len() as int) == pattern@.drop_first());
        ends_with(system, rest.as_str())
    } else {
        str_eq(pattern, system)
    }
}

/// The pkgs of the specs that apply to `system`, in order.
pub fn pkgs_for_system(specs: &Vec<LibrarySpec>, system: &str) -> (r: Vec<String>)
    ensures
        views(r@) == matching_pkgs(specs@, system@),
{
    let mut r: Vec<String> = Vec::new();
    let mut i: usize = 0;
    while i < specs.len()
        invariant
            i <= specs.len(),
            views(r@) == matching_pkgs(specs@.take(i as int), system@),
        decreases specs.len() - i,
    {
        assert(specs@.take(i as int + 1).drop_last() == specs@.take(i as int));
        if specs[i].matches_system(system) {
            r.push(specs[i].pkg.clone());
        }
        assert(views(r@) == matching_pkgs(specs@.take(i as int + 1), system@));
        i = i + 1;
    }
    assert(specs@.take(specs.len() as int) == specs@);
    r
}

/// Which lock file to take nixpkgs from (`[tool.uv-nix].use`).
#[derive(Debug, Clone, Copy, PartialEq, Eq, Structural)]
pub enum UseSource {
    FlakeLock,
    Devenv,
    Flox,
}

/// Settings of one lock-file source (`[tool.uv-nix.flake]` and its siblings).
#[derive(Debug)]
pub struct SourceConfig {
    /// Lock file path relative to the project directory.
    pub lock: Option<String>,
}

/// Per-package build configuration from `[[tool.uv-nix.package]]`.
#[derive(Debug)]
pub struct PackageConfig {
    /// Package name.
    pub name: String,
    /// Nixpkgs flake reference for this package.
    pub nixpkgs: Option<String>,
    /// Libraries replacing the defaults (empty: defaults are used).
    pub libraries: Vec<String>,
    /// Libraries added to the defaults, with platform filters.
    pub extra_libraries: Vec<LibrarySpec>,
    /// Extra build tools.
    pub extra_build_tools: Vec<String>,
    /// Linux-only extra libraries (older form).
    pub extra_linux_libraries: Vec<String>,
    /// Darwin-only extra libraries (older form).
    pub extra_darwin_libraries: Vec<String>,
}

impl PackageConfig {
    /// Whether any setting besides the name is given.
    pub open spec fn overrides(self) -> bool {
        self.nixpkgs is Some || self.libraries.len() > 0 || self.extra_libraries.len() > 0
            || self.extra_build_tools.len() > 0 || self.extra_linux_libraries.len() > 0
            || self.extra_darwin_libraries.len() > 0
    }

    /// The extra libraries for `system`: the matching specs' pkgs, then the
    /// older Darwin-only or Linux-only list.
    pub open spec fn extras_for(self, system: Seq<char>) -> Seq<Seq<char>> {
        matching_pkgs(self.extra_libraries@, system) + views(
            if has_suffix(system, "-darwin"@) {
                self.extra_darwin_libraries@
            } else {
                self.extra_linux_libraries@
            },
        )
    }

    /// A configuration with the given name and nothing else.
    pub fn named(name: &str) -> (r: Self)
        ensures
            r.name@ == name@,
            !r.overrides(),
    {
        PackageConfig {
            name: crate::text::owned(name),
            nixpkgs: None,
            libraries: Vec::new(),
            extra_libraries: Vec::new(),
            extra_build_tools: Vec::new(),
            extra_linux_libraries: Vec::new(),
            extra_darwin_libraries: Vec::new(),
        }
    }

    /// Whether this configuration overrides anything.
    pub fn has_overrides(&self) -> (r: bool)
        ensures
            r == self.overrides(),
    {
        self.nixpkgs.is_some() || self.libraries.len() > 0 || self.extra_libraries.len() > 0
            || self.extra_build_tools.len() > 0 || self.extra_linux_libraries.len() > 0
            || self.extra_darwin_libraries.len() > 0
    }

    /// The extra libraries that apply to `system`.
    pub fn extra_libraries_for_system(&self, system: &str) -> (r: Vec<String>)
        ensures
            views(r@) == self.extras_for(system@),
    {
        let mut libs = pkgs_for_system(&self.extra_libraries, system);
        let ghost first = libs@;
        if ends_with(system, "-darwin") {
            extend_strings(&mut libs, &self.extra_darwin_libraries);
        } else {
            extend_strings(&mut libs, &self.extra_linux_libraries);
        }
        proof {
            let tail = if has_suffix(system@, "-darwin"@) {
                self.extra_darwin_libraries@
            } else {
                self.extra_linux_libraries@
            };
            assert(libs@ == first + tail);
            assert(views(first + tail) =~= views(first) + views(tail));
        }
        libs
    }
}

/// The `[tool.uv-nix]` section.
#[derive(Debug)]
pub struct UvNixConfig {
    /// Extra nixpkgs attr paths added to every RPATH, with platform filters.
    pub extra_libraries: Vec<LibrarySpec>,
    /// Explicit nixpkgs flake reference.
    pub nixpkgs: Option<String>,
    /// Which lock file to take nixpkgs from.
    pub use_source: Option<UseSource>,
    /// Settings for `flake.lock`.
    pub flake: Option<SourceConfig>,
    /// Settings for `devenv.lock`.
    pub devenv: Option<SourceConfig>,
    /// Settings for the flox manifest lock.
    pub flox: Option<SourceConfig>,
    /// Extra install-name prefixes that are never rewritten on macOS.
    pub safe_prefixes: Vec<String>,
    /// Per-package configurations.
    pub packages: Vec<PackageConfig>,
}

/// The first package configuration with the given name.
pub open spec fn first_named(ps: Seq<PackageConfig>, name: Seq<char>) -> Option<PackageConfig>
    decreases ps.len(),
{
    if ps.len() == 0 {
        None
    } else if ps[0].name@ == name {
        Some(ps[0])
    } else {
        first_named(ps.drop_first(), name)
    }
}

/// The lock path a source settings block names, if any.
pub open spec fn source_lock(s: Option<SourceConfig>) -> Option<Seq<char>> {
    match s {
        Some(c) => match c.lock {
            Some(l) => Some(l@),
            None => None,
        },
        None => None,
    }
}

impl UvNixConfig {
    /// Whether any meaningful setting is given.
    pub open spec fn configured(self) -> bool {
        self.extra_libraries.len() > 0 || self.nixpkgs is Some || self.packages.len() > 0
    }

    /// The custom lock path for a source.
    pub open spec fn lock_path_spec(self, source: UseSource) -> Option<Seq<char>> {
        match source {
            UseSource::FlakeLock => source_lock(self.flake),
            UseSource::Devenv => source_lock(self.devenv),
            UseSource::Flox => source_lock(self.flox),
        }
    }

    /// An empty section.
    pub fn empty() -> (r: Self)
        ensures
            !r.configured(),
            r.use_source is None,
            r.flake is None,
            r.devenv is None,
            r.flox is None,
            r.safe_prefixes@.len() == 0,
    {
        UvNixConfig {
            extra_libraries: Vec::new(),
            nixpkgs: None,
            use_source: None,
            flake: None,
            devenv: None,
            flox: None,
            safe_prefixes: Vec::new(),
            packages: Vec::new(),
        }
    }

    /// The first package configuration with the given name.
    pub fn get_package_config(&self, name: &str) -> (r: Option<&PackageConfig>)
        ensures
            match r {
                Some(p) => first_named(self.packages@, name@) == Some(*p),
                None => first_named(self.packages@, name@) is None,
            },
    {
        let mut i: usize = 0;
        assert(self.packages@.skip(0) =~= self.packages@);
        while i < self.packages.len()
            invariant
                i <= self.packages.len(),
                first_named(self.packages@, name@) == first_named(self.packages@.skip(i as int), name@),
            decreases self.packages.len() - i,
        {
            assert(self.packages@.skip(i as int)[0] == self.packages@[i as int]);
            if str_eq(self.packages[i].name.as_str(), name) {
                return Some(&self.packages[i]);
            }
            assert(self.packages@.skip(i as int).drop_first() =~= self.packages@.skip(i as int + 1));
            i = i + 1;
        }
        None
    }

    /// Whether any meaningful setting is given.
    pub fn has_config(&self) -> (r: bool)
        ensures
            r == self.configured(),
    {
        self.extra_libraries.len() > 0 || self.nixpkgs.is_some() || self.packages.len() > 0
    }

    /// The extra libraries that apply to `system`, in order.
    pub fn extra_libraries_for_system(&self, system: &str) -> (r: Vec<String>)
        ensures
            views(r@) == matching_pkgs(self.extra_libraries@, system@),
    {
        pkgs_for_system(&self.extra_libraries, system)
    }

    /// The pkg of every extra library, in order.
    pub fn extra_library_names(&self) -> (r: Vec<String>)
        ensures
            views(r@) == all_pkgs(self.extra_libraries@),
    {
        let mut r: Vec<String> = Vec::new();
        let mut i: usize = 0;
        while i < self.extra_libraries.len()
            invariant
                i <= self.extra_libraries.len(),
                views(r@) == all_pkgs(self.extra_libraries@.take(i as int)),
            decreases self.extra_libraries.len() - i,
        {
            r.push(self.extra_libraries[i].pkg.clone());
            assert(all_pkgs(self.extra_libraries@.take(i as int + 1)) =~= all_pkgs(
                self.extra_libraries@.take(i as int),
            ).push(self.extra_libraries@[i as int].pkg@));
            assert(views(r@) =~= views(r@.drop_last()).push(r@.last()@));
            i = i + 1;
        }
        assert(self.extra_libraries@.take(self.extra_libraries.len() as int)
            == self.extra_libraries@);
        r
    }

    /// The custom lock path configured for a source, if any.
    pub fn lock_path_for(&self, source: UseSource) -> (r: Option<&str>)
        ensures
            match r {
                Some(s) => self.lock_path_spec(source) == Some(s@),
                None => self.lock_path_spec(source) is None,
            },
    {
        let block = match source {
            UseSource::FlakeLock => &self.flake,
            UseSource::Devenv => &self.devenv,
            UseSource::Flox => &self.flox,
        };
        match block {
            Some(c) => match &c.lock {
                Some(l) => Some(l.as_str()),
                None => None,
            },
            None => None,
        }
    }
}

/// One directory on the way up from the start directory, with what its
/// `pyproject.toml` holds: `None` when there is no such file, it does not
/// parse, or it has no `[tool.uv-nix]` section.
pub struct ConfigCandidate {
    pub dir: String,
    pub config: Option<UvNixConfig>,
}

/// Whether a candidate holds a meaningful configuration.
pub open spec fn candidate_configured(c: ConfigCandidate) -> bool {
    c.config is Some && c.config->0.configured()
}

/// Picks the configuration of the nearest directory whose `pyproject.toml`
/// has a meaningful `[tool.uv-nix]` section. `candidates` lists the start
/// directory and then each parent in turn.
pub fn find_config(candidates: Vec<ConfigCandidate>) -> (r: Option<(UvNixConfig, String)>)
    ensures
        match r {
            Some((c, d)) => exists|i: int|
                0 <= i < candidates.len() && candidates@[i].config == Some(c) && candidates@[i].dir
                    == d && c.configured() && forall|j: int|
                    0 <= j < i ==> !candidate_configured(#[trigger] candidates@[j]),
            None => forall|j: int|
                0 <= j < candidates.len() ==> !candidate_configured(#[trigger] candidates@[j]),
        },
{
    let mut list = candidates;
    let ghost orig = list@;
    let mut i: usize = 0;
    while i < list.len()
        invariant
            list@ == orig,
            candidates@ == orig,
            i <= list.len(),
            forall|j: int| 0 <= j < i ==> !candidate_configured(#[trigger] orig[j]),
        decreases list.len() - i,
    {
        let found = match &list[i].config {
            Some(c) => c.has_config(),
            None => false,
        };
        if found {
            let cand = list.remove(i);
            assert(cand == orig[i as int]);
            match cand.config {
                Some(c) => {
                    assert(orig[i as int].config == Some(c));
                    assert(c.configured());
                    assert(orig[i as int].dir == cand.dir);
                    assert(0 <= i < orig.len() && orig[i as int].config == Some(c)
                        && orig[i as int].dir == cand.dir && c.configured() && forall|j: int|
                        0 <= j < i ==> !candidate_configured(#[trigger] orig[j]));
                    assert(candidates@ == orig);
                    return Some((c, cand.dir));
                },
                None => {
                    return None;
                },
            }
        }
        i = i + 1;
    }
    None
}

/// The string at `table.key` of a TOML document, as the `toml` crate reads
/// it; none when the text is not a TOML document or holds no string there.
pub uninterp spec fn toml_table_string(content: Seq<char>, table: Seq<char>, key: Seq<char>) -> Option<Seq<char>>;

/// `toml::from_str::<toml::Value>`, then the string value at `table.key`.
/// Which documents parse, and what they hold, is left to the name
/// `toml_table_string`.
#[verifier::external_body]
pub(crate) fn toml_string_at(content: &str, table: &str, key: &str) -> (r: Option<String>)
    ensures
        crate::nixpkgs::rev_view(r) == toml_table_string(content@, table@, key@),
{
    let doc: toml::Value = toml::from_str(content).ok()?;
    doc.get(table)?.get(key)?.as_str().map(|s| s.to_string())
}

} // verus!
