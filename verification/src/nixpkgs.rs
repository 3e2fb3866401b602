//! Where nixpkgs comes from: an explicit pin, a lock file (flake, devenv,
//! flox) or the latest nixpkgs-unstable; and the Nix expressions that import
//! it and resolve attrs against it.
use vstd::prelude::*;

use crate::cache::utf8;
use crate::config::{UseSource, UvNixConfig};
use crate::nix_config::attr_exprs;
use crate::text::{join_strings, join_with, owned, str_eq, views};

verus! {

/// How nixpkgs was resolved.
#[derive(Debug)]
pub enum NixpkgsSource {
    /// `[tool.uv-nix].nixpkgs`, a flake reference.
    ExplicitPin { flake_ref: String },
    /// The rev pinned in `flake.lock`.
    FlakeLock { rev: String },
    /// The rev pinned in `devenv.lock`.
    DevenvLock { rev: String },
    /// The rev pinned in the flox manifest lock.
    FloxLock { rev: String },
    /// The latest nixpkgs-unstable rev, or the fallback branch name.
    AutoResolved { rev: String },
}

/// The expression that imports nixpkgs for `system`.
pub open spec fn import_expr(source: NixpkgsSource, system: Seq<char>) -> Seq<char> {
    match source {
        NixpkgsSource::ExplicitPin { flake_ref } => "(builtins.getFlake \""@ + flake_ref@
            + "\").legacyPackages.\""@ + system + "\""@,
        NixpkgsSource::FlakeLock { rev } => fetch_tree_expr(rev@, system),
        NixpkgsSource::DevenvLock { rev } => fetch_tree_expr(rev@, system),
        NixpkgsSource::FloxLock { rev } => fetch_tree_expr(rev@, system),
        NixpkgsSource::AutoResolved { rev } => fetch_tree_expr(rev@, system),
    }
}

/// Importing a pinned GitHub nixpkgs rev with `builtins.fetchTree` (pure).
pub open spec fn fetch_tree_expr(rev: Seq<char>, system: Seq<char>) -> Seq<char> {
    "import (builtins.fetchTree { type = \"github\"; owner = \"NixOS\"; repo = \"nixpkgs\"; rev = \""@
        + rev + "\"; }) { system = \""@ + system + "\"; }"@
}

/// The stable identifier of a source, used in cache keys.
pub open spec fn source_key(source: NixpkgsSource) -> Seq<char> {
    match source {
        NixpkgsSource::ExplicitPin { flake_ref } => "explicit:"@ + flake_ref@,
        NixpkgsSource::FlakeLock { rev } => "flake-lock:"@ + rev@,
        NixpkgsSource::DevenvLock { rev } => "devenv-lock:"@ + rev@,
        NixpkgsSource::FloxLock { rev } => "flox-lock:"@ + rev@,
        NixpkgsSource::AutoResolved { rev } => "auto:"@ + rev@,
    }
}

/// A Nix expression that imports nixpkgs from the source for `system`:
/// `builtins.fetchTree` of the pinned rev (pure), or `builtins.getFlake` of an
/// explicit flake reference (needs `--impure`).
pub fn nixpkgs_import_expr(source: &NixpkgsSource, system: &str) -> (r: String)
    ensures
        r@ == import_expr(*source, system@),
{
    let mut out = String::new();
    match source {
        NixpkgsSource::ExplicitPin { flake_ref } => {
            out.append("(builtins.getFlake \"");
            out.append(flake_ref.as_str());
            out.append("\").legacyPackages.\"");
            out.append(system);
            out.append("\"");
        },
        NixpkgsSource::FlakeLock { rev }
        | NixpkgsSource::DevenvLock { rev }
        | NixpkgsSource::FloxLock { rev }
        | NixpkgsSource::AutoResolved { rev } => {
            out.append(
                "import (builtins.fetchTree { type = \"github\"; owner = \"NixOS\"; repo = \"nixpkgs\"; rev = \"",
            );
            out.append(rev.as_str());
            out.append("\"; }) { system = \"");
            out.append(system);
            out.append("\"; }");
        },
    }
    out
}

/// Whether evaluating with this source needs `--impure`.
pub fn requires_impure(source: &NixpkgsSource) -> (r: bool)
    ensures
        r == (*source is ExplicitPin),
{
    match source {
        NixpkgsSource::ExplicitPin { .. } => true,
        _ => false,
    }
}

/// The stable identifier of the source (cache key component).
pub fn nixpkgs_cache_key(source: &NixpkgsSource) -> (r: String)
    ensures
        r@ == source_key(*source),
{
    let mut out = String::new();
    match source {
        NixpkgsSource::ExplicitPin { flake_ref } => {
            out.append("explicit:");
            out.append(flake_ref.as_str());
        },
        NixpkgsSource::FlakeLock { rev } => {
            out.append("flake-lock:");
            out.append(rev.as_str());
        },
        NixpkgsSource::DevenvLock { rev } => {
            out.append("devenv-lock:");
            out.append(rev.as_str());
        },
        NixpkgsSource::FloxLock { rev } => {
            out.append("flox-lock:");
            out.append(rev.as_str());
        },
        NixpkgsSource::AutoResolved { rev } => {
            out.append("auto:");
            out.append(rev.as_str());
        },
    }
    out
}

// ---------------------------------------------------------------------------
// Choosing the source
// ---------------------------------------------------------------------------
/// The lock file path of a source: the configured one, else the default.
pub open spec fn lock_file_spec(config: UvNixConfig, source: UseSource) -> Seq<char> {
    match config.lock_path_spec(source) {
        Some(p) => p,
        None => match source {
            UseSource::FlakeLock => "flake.lock"@,
            UseSource::Devenv => "devenv.lock"@,
            UseSource::Flox => ".flox/env/manifest.lock"@,
        },
    }
}

/// The lock file path of a source, relative to the project directory.
pub fn lock_file_for(config: &UvNixConfig, source: UseSource) -> (r: String)
    ensures
        r@ == lock_file_spec(*config, source),
{
    match config.lock_path_for(source) {
        Some(p) => owned(p),
        None => match source {
            UseSource::FlakeLock => owned("flake.lock"),
            UseSource::Devenv => owned("devenv.lock"),
            UseSource::Flox => owned(".flox/env/manifest.lock"),
        },
    }
}

/// The nixpkgs revs read from each source's lock file (`None` when the file
/// is missing, does not parse, or pins no nixpkgs).
#[derive(Debug)]
pub struct LockRevs {
    pub flake: Option<String>,
    pub devenv: Option<String>,
    pub flox: Option<String>,
}

/// The outcome of choosing a source: found, or the latest nixpkgs-unstable
/// has to be looked up (and the fallback taken if that fails).
#[derive(Debug)]
pub enum NixpkgsStep {
    Resolved(NixpkgsSource),
    AutoResolve,
}

/// A source as plain values: kind (0 explicit, 1 flake, 2 devenv, 3 flox,
/// 4 auto) and its ref or rev.
pub open spec fn source_view(s: NixpkgsSource) -> (int, Seq<char>) {
    match s {
        NixpkgsSource::ExplicitPin { flake_ref } => (0, flake_ref@),
        NixpkgsSource::FlakeLock { rev } => (1, rev@),
        NixpkgsSource::DevenvLock { rev } => (2, rev@),
        NixpkgsSource::FloxLock { rev } => (3, rev@),
        NixpkgsSource::AutoResolved { rev } => (4, rev@),
    }
}

/// A rev as a plain value.
pub open spec fn rev_view(r: Option<String>) -> Option<Seq<char>> {
    match r {
        Some(x) => Some(x@),
        None => None,
    }
}

/// The source a selected lock file gives, if it pins a rev.
pub open spec fn from_source_spec(source: UseSource, revs: LockRevs) -> Option<(int, Seq<char>)> {
    match source {
        UseSource::FlakeLock => match rev_view(revs.flake) {
            Some(r) => Some((1, r)),
            None => None,
        },
        UseSource::Devenv => match rev_view(revs.devenv) {
            Some(r) => Some((2, r)),
            None => None,
        },
        UseSource::Flox => match rev_view(revs.flox) {
            Some(r) => Some((3, r)),
            None => None,
        },
    }
}

/// The first lock file, in the order flake, devenv, flox, that pins a rev.
pub open spec fn auto_detect_spec(revs: LockRevs) -> Option<(int, Seq<char>)> {
    match rev_view(revs.flake) {
        Some(r) => Some((1, r)),
        None => match rev_view(revs.devenv) {
            Some(r) => Some((2, r)),
            None => match rev_view(revs.flox) {
                Some(r) => Some((3, r)),
                None => None,
            },
        },
    }
}

/// The choice of source: an explicit pin always wins; a `use` selection
/// goes to that lock file only; else the first lock file that pins a rev.
/// `None` means the latest nixpkgs-unstable has to be looked up.
pub open spec fn choose_source(config: UvNixConfig, revs: LockRevs) -> Option<(int, Seq<char>)> {
    match config.nixpkgs {
        Some(p) => Some((0, p@)),
        None => match config.use_source {
            Some(u) => from_source_spec(u, revs),
            None => auto_detect_spec(revs),
        },
    }
}

/// An explicit pin wins over every lock file.
pub proof fn lemma_explicit_pin_wins(config: UvNixConfig, revs: LockRevs, pin: String)
    requires
        config.nixpkgs == Some(pin),
    ensures
        choose_source(config, revs) == Some((0int, pin@)),
{
}

/// A `use` selection reads only the selected lock file: other lock files
/// never decide, and when the selected one pins nothing the latest
/// nixpkgs-unstable is looked up.
pub proof fn lemma_use_selects_only(config: UvNixConfig, revs: LockRevs, u: UseSource)
    requires
        config.nixpkgs is None,
        config.use_source == Some(u),
    ensures
        choose_source(config, revs) == from_source_spec(u, revs),
        from_source_spec(u, revs) is None ==> choose_source(config, revs) is None,
{
}

/// Without a pin or a `use` selection, `flake.lock` wins over `devenv.lock`,
/// which wins over the flox lock; the latest nixpkgs-unstable is looked up
/// only when none of them pins a rev.
pub proof fn lemma_auto_detect_order(config: UvNixConfig, revs: LockRevs)
    requires
        config.nixpkgs is None,
        config.use_source is None,
    ensures
        revs.flake is Some ==> choose_source(config, revs) == Some((1int, revs.flake.unwrap()@)),
        revs.flake is None && revs.devenv is Some ==> choose_source(config, revs) == Some(
            (2int, revs.devenv.unwrap()@),
        ),
        revs.flake is None && revs.devenv is None && revs.flox is Some ==> choose_source(config, revs) == Some(
            (3int, revs.flox.unwrap()@),
        ),
        choose_source(config, revs) is None <==> (revs.flake is None && revs.devenv is None && revs.flox is None),
{
}

/// The source a selected lock file gives, if it pins a rev.
pub fn resolve_from_source(source: UseSource, revs: &LockRevs) -> (r: Option<NixpkgsSource>)
    ensures
        match r {
            Some(s) => from_source_spec(source, *revs) == Some(source_view(s)),
            None => from_source_spec(source, *revs) is None,
        },
{
    match source {
        UseSource::FlakeLock => match &revs.flake {
            Some(r) => Some(NixpkgsSource::FlakeLock { rev: r.clone() }),
            None => None,
        },
        UseSource::Devenv => match &revs.devenv {
            Some(r) => Some(NixpkgsSource::DevenvLock { rev: r.clone() }),
            None => None,
        },
        UseSource::Flox => match &revs.flox {
            Some(r) => Some(NixpkgsSource::FloxLock { rev: r.clone() }),
            None => None,
        },
    }
}

/// The first lock file (flake, devenv, flox) that pins a rev.
pub fn auto_detect(revs: &LockRevs) -> (r: Option<NixpkgsSource>)
    ensures
        match r {
            Some(s) => auto_detect_spec(*revs) == Some(source_view(s)),
            None => auto_detect_spec(*revs) is None,
        },
{
    if let Some(r) = &revs.flake {
        return Some(NixpkgsSource::FlakeLock { rev: r.clone() });
    }
    if let Some(r) = &revs.devenv {
        return Some(NixpkgsSource::DevenvLock { rev: r.clone() });
    }
    if let Some(r) = &revs.flox {
        return Some(NixpkgsSource::FloxLock { rev: r.clone() });
    }
    None
}

/// Chooses the nixpkgs source. Priority: the explicit pin; the lock file
/// `use` selects (when it pins nothing, the latest nixpkgs-unstable); the
/// first of `flake.lock`, `devenv.lock`, the flox lock that pins a rev; the
/// latest nixpkgs-unstable.
pub fn resolve_nixpkgs(config: &UvNixConfig, revs: &LockRevs) -> (r: NixpkgsStep)
    ensures
        match r {
            NixpkgsStep::Resolved(s) => choose_source(*config, *revs) == Some(source_view(s)),
            NixpkgsStep::AutoResolve => choose_source(*config, *revs) is None,
        },
{
    if let Some(p) = &config.nixpkgs {
        return NixpkgsStep::Resolved(NixpkgsSource::ExplicitPin { flake_ref: p.clone() });
    }
    if let Some(u) = config.use_source {
        return match resolve_from_source(u, revs) {
            Some(s) => NixpkgsStep::Resolved(s),
            None => NixpkgsStep::AutoResolve,
        };
    }
    match auto_detect(revs) {
        Some(s) => NixpkgsStep::Resolved(s),
        None => NixpkgsStep::AutoResolve,
    }
}

/// The source after looking up the latest nixpkgs-unstable: its rev, or the
/// `nixpkgs-unstable` branch when the lookup failed.
pub fn fallback_auto_resolve(latest: Option<String>) -> (r: NixpkgsSource)
    ensures
        match latest {
            Some(rev) => source_view(r) == (4int, rev@),
            None => source_view(r) == (4int, "nixpkgs-unstable"@),
        },
{
    match latest {
        Some(rev) => NixpkgsSource::AutoResolved { rev },
        None => NixpkgsSource::AutoResolved { rev: owned("nixpkgs-unstable") },
    }
}

/// The first whitespace-separated word of `s` (`split_whitespace().next()`).
pub open spec fn first_word(s: Seq<char>) -> Seq<char> {
    word_prefix(crate::text::trim_start(s))
}

/// The longest prefix without white space.
pub open spec fn word_prefix(s: Seq<char>) -> Seq<char>
    decreases s.len(),
{
    if s.len() == 0 || crate::text::is_white(s[0]) {
        Seq::empty()
    } else {
        seq![s[0]] + word_prefix(s.drop_first())
    }
}

/// The rev in `git ls-remote` output (`<sha>\t<ref>`): the first word, when
/// there is one of at least 40 bytes.
pub open spec fn ls_remote_rev(out: Seq<char>) -> Option<Seq<char>> {
    let w = first_word(out);
    if w.len() > 0 && utf8(w).len() >= 40 {
        Some(w)
    } else {
        None
    }
}

/// The first whitespace-separated word.
pub fn first_word_exec(s: &str) -> (r: String)
    ensures
        r@ == first_word(s@),
{
    let v = crate::text::chars_of(s);
    let mut lo: usize = 0;
    assert(v@.skip(0) =~= v@);
    while lo < v.len() && crate::text::is_white_exec(v[lo])
        invariant
            lo <= v.len(),
            v@ == s@,
            crate::text::trim_start(s@) == crate::text::trim_start(v@.skip(lo as int)),
        decreases v.len() - lo,
    {
        assert(v@.skip(lo as int).drop_first() =~= v@.skip(lo as int + 1));
        lo = lo + 1;
    }
    let ghost rest = v@.skip(lo as int);
    assert(crate::text::trim_start(rest) == rest);
    let mut hi: usize = lo;
    assert(v@.subrange(lo as int, lo as int) =~= Seq::<char>::empty());
    assert(v@.skip(lo as int) =~= rest);
    while hi < v.len() && !crate::text::is_white_exec(v[hi])
        invariant
            lo <= hi <= v.len(),
            rest == v@.skip(lo as int),
            word_prefix(rest) == v@.subrange(lo as int, hi as int) + word_prefix(v@.skip(hi as int)),
        decreases v.len() - hi,
    {
        assert(v@.skip(hi as int).drop_first() =~= v@.skip(hi as int + 1));
        assert(v@.skip(hi as int)[0] == v@[hi as int]);
        assert(v@.subrange(lo as int, hi + 1) =~= v@.subrange(lo as int, hi as int) + seq![v@[hi as int]]);
        hi = hi + 1;
    }
    assert(v@.subrange(lo as int, hi as int) + Seq::<char>::empty() =~= v@.subrange(lo as int, hi as int));
    crate::text::string_from_chars(v.as_slice().split_at(hi).0.split_at(lo).1)
}

/// The rev in `git ls-remote` output, if it looks like a full commit hash.
pub fn parse_ls_remote(stdout: &str) -> (r: Option<String>)
    ensures
        match r {
            Some(x) => ls_remote_rev(stdout@) == Some(x@),
            None => ls_remote_rev(stdout@) is None,
        },
{
    let w = first_word_exec(stdout);
    if !w.as_str().is_empty() && w.as_str().as_bytes().len() >= 40 {
        Some(w)
    } else {
        None
    }
}

// ---------------------------------------------------------------------------
// Lock files
// ---------------------------------------------------------------------------
/// An input reference in `flake.lock`: a node name, a `follows` path, or
/// anything else.
#[derive(Debug)]
pub enum InputRef {
    Name(String),
    /// The path's items; `None` for an item that is not a string.
    Follows(Vec<Option<String>>),
    Other,
}

/// The `locked` part of a `flake.lock` node.
#[derive(Debug)]
pub struct FlakeLocked {
    pub owner: Option<String>,
    pub repo: Option<String>,
    pub rev: Option<String>,
}

/// A `flake.lock` node.
#[derive(Debug)]
pub struct FlakeLockNode {
    /// Input name to reference, each name once.
    pub inputs: Option<Vec<(String, InputRef)>>,
    pub locked: Option<FlakeLocked>,
}

/// The parts of `flake.lock` read here.
#[derive(Debug)]
pub struct FlakeLock {
    /// Node name to node, each name once.
    pub nodes: Vec<(String, FlakeLockNode)>,
    pub root: String,
}

/// The value of the first pair with key `k`.
pub open spec fn find_in<V>(v: Seq<(String, V)>, k: Seq<char>) -> Option<V>
    decreases v.len(),
{
    if v.len() == 0 {
        None
    } else if v[0].0@ == k {
        Some(v[0].1)
    } else {
        find_in(v.drop_first(), k)
    }
}

/// The value of the first pair with key `k`.
pub fn find_pair<'a, V>(v: &'a Vec<(String, V)>, k: &str) -> (r: Option<&'a V>)
    ensures
        match r {
            Some(x) => find_in(v@, k@) == Some(*x),
            None => find_in(v@, k@) is None,
        },
{
    let mut i: usize = 0;
    assert(v@.skip(0) =~= v@);
    while i < v.len()
        invariant
            i <= v.len(),
            find_in(v@, k@) == find_in(v@.skip(i as int), k@),
        decreases v.len() - i,
    {
        assert(v@.skip(i as int)[0] == v@[i as int]);
        if str_eq(v[i].0.as_str(), k) {
            return Some(&v[i].1);
        }
        assert(v@.skip(i as int).drop_first() =~= v@.skip(i as int + 1));
        i = i + 1;
    }
    None
}

/// The node an input reference names: a name, or the last item of a
/// `follows` path when that item is a string.
pub open spec fn input_key_spec(r: InputRef) -> Option<Seq<char>> {
    match r {
        InputRef::Name(s) => Some(s@),
        InputRef::Follows(path) => if path.len() > 0 {
            rev_view(path@.last())
        } else {
            None
        },
        InputRef::Other => None,
    }
}

/// The node name input `name` refers to.
pub fn resolve_input_key(inputs: &Vec<(String, InputRef)>, name: &str) -> (r: Option<String>)
    ensures
        match r {
            Some(k) => match find_in(inputs@, name@) {
                Some(v) => input_key_spec(v) == Some(k@),
                None => false,
            },
            None => match find_in(inputs@, name@) {
                Some(v) => input_key_spec(v) is None,
                None => true,
            },
        },
{
    match find_pair(inputs, name) {
        None => None,
        Some(v) => match v {
            InputRef::Name(s) => Some(s.clone()),
            InputRef::Follows(path) => {
                if path.len() == 0 {
                    None
                } else {
                    match &path[path.len() - 1] {
                        Some(s) => Some(s.clone()),
                        None => None,
                    }
                }
            },
            InputRef::Other => None,
        },
    }
}

/// Whether an optional string is exactly `s`.
pub open spec fn is_some_str(o: Option<String>, s: Seq<char>) -> bool {
    match o {
        Some(x) => x@ == s,
        None => false,
    }
}

/// The nixpkgs rev pinned by `flake.lock`: the root node's `nixpkgs` input,
/// followed to its node, when that node is locked to GitHub `NixOS/nixpkgs`.
pub open spec fn flake_rev(lock: FlakeLock) -> Option<Seq<char>> {
    match find_in(lock.nodes@, lock.root@) {
        None => None,
        Some(root) => match root.inputs {
            None => None,
            Some(inputs) => match find_in(inputs@, "nixpkgs"@) {
                None => None,
                Some(r) => match input_key_spec(r) {
                    None => None,
                    Some(key) => match find_in(lock.nodes@, key) {
                        None => None,
                        Some(node) => match node.locked {
                            None => None,
                            Some(l) => if is_some_str(l.owner, "NixOS"@) && is_some_str(
                                l.repo,
                                "nixpkgs"@,
                            ) {
                                rev_view(l.rev)
                            } else {
                                None
                            },
                        },
                    },
                },
            },
        },
    }
}

fn opt_str_is(o: &Option<String>, s: &str) -> (r: bool)
    ensures
        r == is_some_str(*o, s@),
{
    match o {
        Some(x) => str_eq(x.as_str(), s),
        None => false,
    }
}

/// The nixpkgs rev pinned by `flake.lock`.
pub fn parse_flake_lock(lock: &FlakeLock) -> (r: Option<String>)
    ensures
        rev_view(r) == flake_rev(*lock),
{
    let root = match find_pair(&lock.nodes, lock.root.as_str()) {
        Some(n) => n,
        None => return None,
    };
    let inputs = match &root.inputs {
        Some(i) => i,
        None => return None,
    };
    let key = match resolve_input_key(inputs, "nixpkgs") {
        Some(k) => k,
        None => return None,
    };
    let node = match find_pair(&lock.nodes, key.as_str()) {
        Some(n) => n,
        None => return None,
    };
    let locked = match &node.locked {
        Some(l) => l,
        None => return None,
    };
    if opt_str_is(&locked.owner, "NixOS") && opt_str_is(&locked.repo, "nixpkgs") {
        match &locked.rev {
            Some(r) => Some(r.clone()),
            None => None,
        }
    } else {
        None
    }
}

/// The `locked` part of a `devenv.lock` node.
#[derive(Debug)]
pub struct DevenvLocked {
    pub rev: Option<String>,
    pub lock_type: Option<String>,
}

/// The `original` part of a `devenv.lock` node.
#[derive(Debug)]
pub struct DevenvOriginal {
    pub owner: Option<String>,
    pub repo: Option<String>,
}

/// A `devenv.lock` node.
#[derive(Debug)]
pub struct DevenvLockNode {
    pub locked: Option<DevenvLocked>,
    pub original: Option<DevenvOriginal>,
}

/// The parts of `devenv.lock` read here: the nodes, in the order they are walked.
#[derive(Debug)]
pub struct DevenvLock {
    pub nodes: Vec<(String, DevenvLockNode)>,
}

/// The nixpkgs rev pinned by `devenv.lock`, walking the nodes in order: the
/// first node whose original is `NixOS/nixpkgs` and which is locked to
/// GitHub gives its rev; a node without an original ends the walk with none.
pub open spec fn devenv_rev(nodes: Seq<(String, DevenvLockNode)>) -> Option<Seq<char>>
    decreases nodes.len(),
{
    if nodes.len() == 0 {
        None
    } else {
        let node = nodes[0].1;
        match node.original {
            None => None,
            Some(o) => if is_some_str(o.owner, "NixOS"@) && is_some_str(o.repo, "nixpkgs"@) && (
            match node.locked {
                Some(l) => is_some_str(l.lock_type, "github"@),
                None => false,
            }) {
                rev_view(node.locked->0.rev)
            } else {
                devenv_rev(nodes.drop_first())
            },
        }
    }
}

/// The nixpkgs rev pinned by `devenv.lock`.
pub fn parse_devenv_lock(lock: &DevenvLock) -> (r: Option<String>)
    ensures
        rev_view(r) == devenv_rev(lock.nodes@),
{
    let mut i: usize = 0;
    assert(lock.nodes@.skip(0) =~= lock.nodes@);
    while i < lock.nodes.len()
        invariant
            i <= lock.nodes.len(),
            devenv_rev(lock.nodes@) == devenv_rev(lock.nodes@.skip(i as int)),
        decreases lock.nodes.len() - i,
    {
        assert(lock.nodes@.skip(i as int)[0] == lock.nodes@[i as int]);
        let node = &lock.nodes[i].1;
        let original = match &node.original {
            Some(o) => o,
            None => return None,
        };
        if opt_str_is(&original.owner, "NixOS") && opt_str_is(&original.repo, "nixpkgs") {
            if let Some(locked) = &node.locked {
                if opt_str_is(&locked.lock_type, "github") {
                    return match &locked.rev {
                        Some(r) => Some(r.clone()),
                        None => None,
                    };
                }
            }
        }
        assert(lock.nodes@.skip(i as int).drop_first() =~= lock.nodes@.skip(i as int + 1));
        i = i + 1;
    }
    None
}

/// A package of the flox manifest lock.
#[derive(Debug)]
pub struct FloxPackageEntry {
    pub rev: Option<String>,
}

/// The parts of the flox manifest lock read here.
#[derive(Debug)]
pub struct FloxManifestLock {
    pub packages: Option<Vec<FloxPackageEntry>>,
}

/// The rev of the first flox package whose rev is at least 40 bytes long.
pub open spec fn flox_rev(pkgs: Seq<FloxPackageEntry>) -> Option<Seq<char>>
    decreases pkgs.len(),
{
    if pkgs.len() == 0 {
        None
    } else {
        match pkgs[0].rev {
            Some(r) => if utf8(r@).len() >= 40 {
                Some(r@)
            } else {
                flox_rev(pkgs.drop_first())
            },
            None => flox_rev(pkgs.drop_first()),
        }
    }
}

/// The nixpkgs rev pinned by the flox manifest lock.
pub fn parse_flox_lock(lock: &FloxManifestLock) -> (r: Option<String>)
    ensures
        rev_view(r) == match lock.packages {
            Some(p) => flox_rev(p@),
            None => None,
        },
{
    let packages = match &lock.packages {
        Some(p) => p,
        None => return None,
    };
    let mut i: usize = 0;
    assert(packages@.skip(0) =~= packages@);
    while i < packages.len()
        invariant
            i <= packages.len(),
            lock.packages == Some(*packages),
            flox_rev(packages@) == flox_rev(packages@.skip(i as int)),
        decreases packages.len() - i,
    {
        assert(packages@.skip(i as int)[0] == packages@[i as int]);
        if let Some(rev) = &packages[i].rev {
            if rev.as_str().as_bytes().len() >= 40 {
                return Some(rev.clone());
            }
        }
        assert(packages@.skip(i as int).drop_first() =~= packages@.skip(i as int + 1));
        i = i + 1;
    }
    None
}

// ---------------------------------------------------------------------------
// Resolving attrs against nixpkgs
// ---------------------------------------------------------------------------
/// A `nix eval` or `nix build` to run, or a result known without one.
#[derive(Debug)]
pub enum NixPlan {
    Done(String),
    Run { expr: String, impure: bool },
}

/// The `nix eval --raw` expression giving the library path of `attrs`.
pub open spec fn library_paths_expr(pkgs_expr: Seq<char>, attrs: Seq<Seq<char>>) -> Seq<char> {
    "let pkgs = "@ + pkgs_expr + "; in pkgs.lib.makeLibraryPath [\n"@ + join_with(
        attr_exprs("  "@, attrs),
        '\n',
    ) + "\n]"@
}

/// Resolving attr paths to a colon-separated library path: nothing to do for
/// no attrs, else the `nix eval --raw` expression to run (whose output,
/// trimmed, is the path).
pub fn resolve_library_paths(attrs: &Vec<String>, source: &NixpkgsSource, system: &str) -> (r: NixPlan)
    ensures
        match r {
            NixPlan::Done(s) => attrs.len() == 0 && s@.len() == 0,
            NixPlan::Run { expr, impure } => attrs.len() > 0 && impure == (*source is ExplicitPin)
                && expr@ == library_paths_expr(import_expr(*source, system@), views(attrs@)),
        },
{
    if attrs.len() == 0 {
        return NixPlan::Done(String::new());
    }
    let pkgs_expr = nixpkgs_import_expr(source, system);
    let lines = crate::nix_config::attr_expr_list("  ", attrs);
    let joined = join_with_indent(&lines);
    let mut expr = String::new();
    expr.append("let pkgs = ");
    expr.append(pkgs_expr.as_str());
    expr.append("; in pkgs.lib.makeLibraryPath [\n");
    expr.append(joined.as_str());
    expr.append("\n]");
    NixPlan::Run { expr, impure: requires_impure(source) }
}

fn join_with_indent(lines: &Vec<String>) -> (r: String)
    ensures
        r@ == join_with(views(lines@), '\n'),
{
    join_strings(lines, '\n')
}

/// Paths resolved for a build: library, include, pkg-config and bin.
#[derive(Debug)]
pub struct ResolvedBuildPaths {
    pub library_path: String,
    pub include_path: String,
    pub pkg_config_path: String,
    pub bin_path: String,
}

/// The tail of the build-paths expression: a JSON file of the library,
/// include, pkg-config and bin paths of `libs`.
pub open spec fn build_paths_tail() -> Seq<char> {
    "\n  ]; in pkgs.writeText \"uv-nix-build-paths.json\" (builtins.toJSON {\n    lib = pkgs.lib.makeLibraryPath libs;\n    include = builtins.concatStringsSep \":\" (map (p: \"${pkgs.lib.getDev p}/include\") libs);\n    pkgconfig = builtins.concatStringsSep \":\" (map (p: \"${pkgs.lib.getDev p}/lib/pkgconfig\") libs);\n    bin = builtins.concatStringsSep \":\" (map (p: \"${pkgs.lib.getBin p}/bin\") libs);\n  })"@
}

/// The `nix build` expression writing the build paths of `attrs` to a JSON file.
pub open spec fn build_paths_expr_text(pkgs_expr: Seq<char>, attrs: Seq<Seq<char>>) -> Seq<char> {
    "let pkgs = "@ + pkgs_expr + "; libs = [\n"@ + join_with(attr_exprs("    "@, attrs), '\n')
        + build_paths_tail()
}

/// What resolving build paths takes.
#[derive(Debug)]
pub enum BuildPathsPlan {
    /// No attrs: every path is empty.
    Done(ResolvedBuildPaths),
    /// The expression to `nix build`; the JSON file it prints the path of
    /// holds `lib`, `include`, `pkgconfig` and `bin`.
    Run { expr: String, impure: bool },
}

/// Resolving the build paths of attrs: empty paths for no attrs, else the
/// `nix build` to run.
pub fn resolve_build_paths(attrs: &Vec<String>, source: &NixpkgsSource, system: &str) -> (r: BuildPathsPlan)
    ensures
        match r {
            BuildPathsPlan::Done(p) => attrs.len() == 0 && p.library_path@.len() == 0 && p.include_path@.len() == 0
                && p.pkg_config_path@.len() == 0 && p.bin_path@.len() == 0,
            BuildPathsPlan::Run { expr, impure } => attrs.len() > 0 && impure == (*source is ExplicitPin)
                && expr@ == build_paths_expr_text(import_expr(*source, system@), views(attrs@)),
        },
{
    if attrs.len() == 0 {
        return BuildPathsPlan::Done(
            ResolvedBuildPaths {
                library_path: String::new(),
                include_path: String::new(),
                pkg_config_path: String::new(),
                bin_path: String::new(),
            },
        );
    }
    let pkgs_expr = nixpkgs_import_expr(source, system);
    let lines = crate::nix_config::attr_expr_list("    ", attrs);
    let joined = join_with_indent(&lines);
    let mut expr = String::new();
    expr.append("let pkgs = ");
    expr.append(pkgs_expr.as_str());
    expr.append("; libs = [\n");
    expr.append(joined.as_str());
    expr.append("\n  ]; in pkgs.writeText \"uv-nix-build-paths.json\" (builtins.toJSON {\n    lib = pkgs.lib.makeLibraryPath libs;\n    include = builtins.concatStringsSep \":\" (map (p: \"${pkgs.lib.getDev p}/include\") libs);\n    pkgconfig = builtins.concatStringsSep \":\" (map (p: \"${pkgs.lib.getDev p}/lib/pkgconfig\") libs);\n    bin = builtins.concatStringsSep \":\" (map (p: \"${pkgs.lib.getBin p}/bin\") libs);\n  })");
    BuildPathsPlan::Run { expr, impure: requires_impure(source) }
}

/// The flake reference a pin written to `[tool.uv-nix]` names.
pub open spec fn pin_value_text(rev: Seq<char>) -> Seq<char> {
    "github:NixOS/nixpkgs/"@ + rev
}

/// Whether `[tool.uv-nix]` of a TOML document, as `toml_edit` reads it,
/// is a table holding `key`.
pub uninterp spec fn toml_uv_nix_has(content: Seq<char>, key: Seq<char>) -> bool;

/// `toml_edit::DocumentMut` parsed from the text: whether the `tool` table's
/// `uv-nix` table has `key`; false when the text does not parse or either is
/// missing or not a table. Which is the case is left to the name
/// `toml_uv_nix_has`.
#[verifier::external_body]
fn uv_nix_has_key(content: &str, key: &str) -> (r: bool)
    ensures
        r == toml_uv_nix_has(content@, key@),
{
    match content.parse::<toml_edit::DocumentMut>() {
        Ok(doc) => doc.get("tool").and_then(|t| t.as_table()).and_then(|t| t.get("uv-nix"))
            .and_then(|u| u.as_table()).map_or(false, |u| u.contains_key(key)),
        Err(_) => false,
    }
}

/// The document `toml_edit` writes with `[tool.uv-nix].key` set to a string,
/// keeping the rest of its formatting; none when the text does not parse or
/// `tool` or `tool.uv-nix` is there but not a table.
pub uninterp spec fn toml_uv_nix_set(content: Seq<char>, key: Seq<char>, value: Seq<char>) -> Option<Seq<char>>;

/// `toml_edit`: parses the document, creates the `tool` (implicit) and
/// `tool.uv-nix` tables where missing, inserts `key = "value"` and prints the
/// document. The printed document has the key in that table again. What the
/// printed text is, is left to the name `toml_uv_nix_set`; the error message
/// is not stated.
#[verifier::external_body]
fn uv_nix_set_key(content: &str, key: &str, value: &str) -> (r: Result<String, String>)
    ensures
        match r {
            Ok(s) => toml_uv_nix_set(content@, key@, value@) == Some(s@) && toml_uv_nix_has(s@, key@),
            Err(_) => toml_uv_nix_set(content@, key@, value@) is None,
        },
{
    let mut doc: toml_edit::DocumentMut = content.parse().map_err(|e: toml_edit::TomlError| e.to_string())?;
    let tool = doc.entry("tool").or_insert_with(|| toml_edit::Item::Table(toml_edit::Table::new()));
    let tool_table = tool.as_table_mut().ok_or_else(|| "[tool] is not a table".to_string())?;
    tool_table.set_implicit(true);
    let uv_nix = tool_table.entry("uv-nix").or_insert_with(|| toml_edit::Item::Table(toml_edit::Table::new()));
    let table = uv_nix.as_table_mut().ok_or_else(|| "[tool.uv-nix] is not a table".to_string())?;
    table.insert(key, toml_edit::value(value));
    Ok(doc.to_string())
}

/// `pyproject.toml` with a nixpkgs pin to `rev` under `[tool.uv-nix]`:
/// `Ok(None)` when a pin is already there (it is never overwritten),
/// `Ok(Some(text))` with the new text otherwise, and an error when the text
/// cannot be edited. A pin written is found by the next call.
pub fn pinned_document(content: &str, rev: &str) -> (r: Result<Option<String>, String>)
    ensures
        toml_uv_nix_has(content@, "nixpkgs"@) ==> r matches Ok(None),
        !toml_uv_nix_has(content@, "nixpkgs"@) ==> match r {
            Ok(Some(s)) => toml_uv_nix_set(content@, "nixpkgs"@, pin_value_text(rev@)) == Some(s@)
                && toml_uv_nix_has(s@, "nixpkgs"@),
            Ok(None) => false,
            Err(_) => toml_uv_nix_set(content@, "nixpkgs"@, pin_value_text(rev@)) is None,
        },
{
    if uv_nix_has_key(content, "nixpkgs") {
        return Ok(None);
    }
    let mut pin = owned("github:NixOS/nixpkgs/");
    pin.append(rev);
    match uv_nix_set_key(content, "nixpkgs", pin.as_str()) {
        Ok(s) => Ok(Some(s)),
        Err(e) => Err(e),
    }
}

} // verus!
