//! Nix-aware patching for uv virtual environments: which Nix libraries the
//! native binaries of Python packages need, where nixpkgs comes from, and the
//! Nix expressions and patch plans built from both.
use vstd::prelude::*;

pub mod build_env;
pub mod cache;
pub mod cli;
pub mod config;
pub mod ctypes_hook;
pub mod nix_build;
pub mod nix_config;
pub mod nixgen;
pub mod nixpkgs;
pub mod patchelf;
pub mod python_install;
pub mod rust_overlay;
pub mod sorted;
pub mod soname;
pub mod text;
pub mod version;

use crate::text::{owned, split_on, views};

verus! {

/// The Nix system of an operating system and architecture (as Rust names
/// them, e.g. `linux` and `x86_64`).
pub open spec fn system_of(os: Seq<char>, arch: Seq<char>) -> Seq<char> {
    if os == "linux"@ && arch == "x86_64"@ {
        "x86_64-linux"@
    } else if os == "linux"@ && arch == "aarch64"@ {
        "aarch64-linux"@
    } else if os == "macos"@ && arch == "x86_64"@ {
        "x86_64-darwin"@
    } else if os == "macos"@ && arch == "aarch64"@ {
        "aarch64-darwin"@
    } else {
        "unknown"@
    }
}

/// The Nix system string of a platform (e.g. `x86_64-linux`), `unknown` for
/// platforms Nix support is not built for.
pub fn current_system(os: &str, arch: &str) -> (r: &'static str)
    ensures
        r@ == system_of(os@, arch@),
{
    let linux = text::str_eq(os, "linux");
    let macos = text::str_eq(os, "macos");
    let x86 = text::str_eq(arch, "x86_64");
    let arm = text::str_eq(arch, "aarch64");
    if linux && x86 {
        "x86_64-linux"
    } else if linux && arm {
        "aarch64-linux"
    } else if macos && x86 {
        "x86_64-darwin"
    } else if macos && arm {
        "aarch64-darwin"
    } else {
        "unknown"
    }
}

/// `_` replaced by `-` (dist-info names use underscores).
pub open spec fn hyphenated(s: Seq<char>) -> Seq<char> {
    s.map_values(|c: char| if c == '_' { '-' } else { c })
}

/// A dist-info prefix such as `numpy-2.4.6` as (name, version): the split is
/// at the last hyphen when a digit follows it; the name's underscores become
/// hyphens. Without such a hyphen, the whole prefix is the name.
pub open spec fn dist_prefix_parts(prefix: Seq<char>) -> (Seq<char>, Seq<char>) {
    let parts = split_on(prefix, '-');
    if parts.len() > 1 && parts.last().len() > 0 && text::is_ascii_digit(parts.last()[0]) {
        (hyphenated(text::join_with(parts.drop_last(), '-')), parts.last())
    } else {
        (hyphenated(prefix), Seq::empty())
    }
}

fn hyphenate(s: &str) -> (r: String)
    ensures
        r@ == hyphenated(s@),
{
    let v = text::chars_of(s);
    let mut out: Vec<char> = Vec::new();
    let mut i: usize = 0;
    while i < v.len()
        invariant
            i <= v.len(),
            v@ == s@,
            out@ == hyphenated(v@.take(i as int)),
        decreases v.len() - i,
    {
        let c = v[i];
        out.push(if c == '_' { '-' } else { c });
        assert(hyphenated(v@.take(i as int + 1)) =~= hyphenated(v@.take(i as int)).push(
            if c == '_' { '-' } else { c },
        ));
        i = i + 1;
    }
    assert(v@.take(v.len() as int) =~= v@);
    text::string_from_chars(out.as_slice())
}

/// Splits a dist-info prefix such as `numpy-2.4.6` into name and version.
pub fn parse_dist_prefix(prefix: &str) -> (r: (String, String))
    ensures
        (r.0@, r.1@) == dist_prefix_parts(prefix@),
{
    let mut parts = text::split_char(prefix, '-');
    proof {
        text::lemma_split_nonempty(prefix@, '-');
    }
    let n = parts.len();
    let versioned = if n > 1 {
        let v = text::chars_of(parts[n - 1].as_str());
        v.len() > 0 && '0' <= v[0] && v[0] <= '9'
    } else {
        false
    };
    if versioned {
        let ghost ps = views(parts@);
        let version = parts.remove(n - 1);
        assert(views(parts@) =~= ps.drop_last());
        let joined = text::join_strings(&parts, '-');
        (hyphenate(joined.as_str()), version)
    } else {
        (hyphenate(prefix), String::new())
    }
}

/// The relative paths listed in a `RECORD` file: the first field of each
/// line, skipping empty ones and the dist-info directory's own files.
pub open spec fn record_paths_spec(ls: Seq<Seq<char>>) -> Seq<Seq<char>>
    decreases ls.len(),
{
    if ls.len() == 0 {
        Seq::empty()
    } else {
        let r = record_paths_spec(ls.drop_last());
        let p = split_on(ls.last(), ',')[0];
        if p.len() == 0 || text::contains_seq(p, ".dist-info/"@) {
            r
        } else {
            r.push(p)
        }
    }
}

/// The relative paths a `RECORD` file lists, besides the dist-info files.
pub fn record_paths(content: &str) -> (r: Vec<String>)
    ensures
        views(r@) == record_paths_spec(text::lines_of(content@)),
{
    let ls = text::lines(content);
    let ghost lv = views(ls@);
    let mut r: Vec<String> = Vec::new();
    let mut i: usize = 0;
    while i < ls.len()
        invariant
            i <= ls.len(),
            lv == views(ls@),
            views(r@) == record_paths_spec(lv.take(i as int)),
        decreases ls.len() - i,
    {
        assert(lv.take(i as int + 1).drop_last() =~= lv.take(i as int));
        assert(lv.take(i as int + 1).last() == ls@[i as int]@);
        let mut fields = text::split_char(ls[i].as_str(), ',');
        proof {
            text::lemma_split_nonempty(ls@[i as int]@, ',');
        }
        let ghost fv = views(fields@);
        let first = fields.remove(0);
        assert(first@ == fv[0]);
        if !first.as_str().is_empty() && !text::contains(first.as_str(), ".dist-info/") {
            let ghost r0 = r@;
            r.push(first);
            assert(views(r@) =~= views(r0).push(fv[0]));
        }
        i = i + 1;
    }
    assert(lv.take(ls.len() as int) =~= lv);
    r
}

/// Whether a file name may be a native binary worth checking: a shared
/// object (`.so`, or `.dylib` on macOS) or a file without extension.
pub open spec fn binary_name_candidate_spec(name: Seq<char>, is_darwin: bool) -> bool {
    (is_darwin && text::contains_seq(name, ".dylib"@)) || text::contains_seq(name, ".so"@)
        || !name.contains('.')
}

/// Whether a file name may be a native binary worth checking.
pub fn binary_name_candidate(name: &str, is_darwin: bool) -> (r: bool)
    ensures
        r == binary_name_candidate_spec(name@, is_darwin),
{
    (is_darwin && text::contains(name, ".dylib")) || text::contains(name, ".so")
        || !text::contains_char(name, '.')
}

/// Extra library paths as rpath entries: each non-empty entry of the
/// colon-separated list, named `_extra_<i>` by its position among them.
pub open spec fn extra_rpath_spec(entries: Seq<Seq<char>>) -> Seq<(Seq<char>, Seq<char>)>
    decreases entries.len(),
{
    if entries.len() == 0 {
        Seq::empty()
    } else {
        let r = extra_rpath_spec(entries.drop_last());
        if entries.last().len() == 0 {
            r
        } else {
            r.push(("_extra_"@ + text::decimal(r.len()), entries.last()))
        }
    }
}

/// The rpath entries of a colon-separated extra library path.
pub fn extra_rpath_entries(extra: &str) -> (r: Vec<(String, String)>)
    ensures
        r@.map_values(|p: (String, String)| (p.0@, p.1@)) == extra_rpath_spec(split_on(extra@, ':')),
{
    let parts = text::split_char(extra, ':');
    let ghost pv = views(parts@);
    let mut r: Vec<(String, String)> = Vec::new();
    let mut i: usize = 0;
    while i < parts.len()
        invariant
            i <= parts.len(),
            pv == views(parts@),
            r@.map_values(|p: (String, String)| (p.0@, p.1@)) == extra_rpath_spec(pv.take(i as int)),
        decreases parts.len() - i,
    {
        assert(pv.take(i as int + 1).drop_last() =~= pv.take(i as int));
        assert(pv.take(i as int + 1).last() == parts@[i as int]@);
        if !parts[i].as_str().is_empty() {
            let ghost r0 = r@;
            let mut name = owned("_extra_");
            let num = text::decimal_string(r.len());
            name.append(num.as_str());
            r.push((name, parts[i].clone()));
            assert(r@.map_values(|p: (String, String)| (p.0@, p.1@)) =~= r0.map_values(
                |p: (String, String)| (p.0@, p.1@),
            ).push((name@, parts@[i as int]@)));
        }
        i = i + 1;
    }
    assert(pv.take(parts.len() as int) =~= pv);
    r
}

// ---------------------------------------------------------------------------
// Status output in uv's style
// ---------------------------------------------------------------------------
/// `s` right-aligned in `width` columns (`{:>width}`): spaces before it
/// when it is shorter.
pub open spec fn right_aligned(s: Seq<char>, width: nat) -> Seq<char> {
    if s.len() < width {
        Seq::new((width - s.len()) as nat, |i: int| ' ') + s
    } else {
        s
    }
}

fn align_right(s: &str, width: usize) -> (r: String)
    ensures
        r@ == right_aligned(s@, width as nat),
{
    let v = text::chars_of(s);
    let mut out = String::new();
    if v.len() < width {
        let pad = width - v.len();
        let mut k: usize = 0;
        while k < pad
            invariant
                k <= pad,
                out@ == Seq::new(k as nat, |i: int| ' '),
            decreases pad - k,
        {
            text::push_char(&mut out, ' ');
            assert(out@ =~= Seq::new((k + 1) as nat, |i: int| ' '));
            k = k + 1;
        }
    }
    out.append(s);
    proof {
        if !(s@.len() < width) {
            assert(out@ =~= s@);
        }
    }
    out
}

/// A status line on standard error: the verb right-aligned in twelve
/// columns, bold green on a terminal, then the message.
pub open spec fn status_text(verb: Seq<char>, message: Seq<char>, is_terminal: bool) -> Seq<char> {
    if is_terminal {
        "\x1b[1;32m"@ + right_aligned(verb, 12) + "\x1b[0m "@ + message + "\n"@
    } else {
        right_aligned(verb, 12) + " "@ + message + "\n"@
    }
}

/// The status line for `verb` and `message`.
pub fn status_message(verb: &str, message: &str, is_terminal: bool) -> (r: String)
    ensures
        r@ == status_text(verb@, message@, is_terminal),
{
    let aligned = align_right(verb, 12);
    let mut r = if is_terminal {
        owned("\x1b[1;32m")
    } else {
        String::new()
    };
    r.append(aligned.as_str());
    if is_terminal {
        r.append("\x1b[0m ");
    } else {
        r.append(" ");
    }
    r.append(message);
    r.append("\n");
    r
}

/// A warning on standard error: `warning` right-aligned in twelve columns,
/// bold yellow on a terminal.
pub open spec fn warning_text(message: Seq<char>, is_terminal: bool) -> Seq<char> {
    if is_terminal {
        "\x1b[1;33m     warning\x1b[0m: "@ + message + "\n"@
    } else {
        "     warning: "@ + message + "\n"@
    }
}

/// The warning line for a message.
pub fn warning_message(message: &str, is_terminal: bool) -> (r: String)
    ensures
        r@ == warning_text(message@, is_terminal),
{
    let mut r = if is_terminal {
        owned("\x1b[1;33m     warning\x1b[0m: ")
    } else {
        owned("     warning: ")
    };
    r.append(message);
    r.append("\n");
    r
}

/// What `uv nix hello` prints.
pub open spec fn greeting_text(name: Option<Seq<char>>) -> Seq<char> {
    match name {
        Some(n) => "Hello, "@ + n + "! uv-nix is working.\n"@,
        None => "Hello from uv-nix! The nix subcommand is working.\n"@,
    }
}

/// The greeting of `uv nix hello`.
pub fn nix_hello(name: Option<&str>) -> (r: String)
    ensures
        r@ == greeting_text(
            match name {
                Some(n) => Some(n@),
                None => None,
            },
        ),
{
    match name {
        Some(n) => {
            let mut r = owned("Hello, ");
            r.append(n);
            r.append("! uv-nix is working.\n");
            r
        },
        None => owned("Hello from uv-nix! The nix subcommand is working.\n"),
    }
}

/// Timing is on when `UV_NIX_TIMING` is `1`.
pub fn timing_enabled(value: Option<&str>) -> (r: bool)
    ensures
        r == (value matches Some(v) && v@ == "1"@),
{
    match value {
        Some(v) => text::str_eq(v, "1"),
        None => false,
    }
}

/// The timing line of a post-install patch.
pub open spec fn timing_text(nix_resolve_ms: u64, find_ms: u64, files: usize, patch_ms: u64, total_ms: u64, fallback: bool) -> Seq<char> {
    "uv-nix-timing: nix_resolve="@ + text::decimal(nix_resolve_ms as nat) + "ms find_binaries="@
        + text::decimal(find_ms as nat) + "ms ("@ + text::decimal(files as nat) + " files) patch="@
        + text::decimal(patch_ms as nat) + "ms total="@ + text::decimal(total_ms as nat) + "ms"@ + (
    if fallback {
        " (fallback)"@
    } else {
        Seq::empty()
    }) + "\n"@
}

/// The line `UV_NIX_TIMING=1` prints after a post-install patch.
pub fn timing_line(nix_resolve_ms: u64, find_ms: u64, files: usize, patch_ms: u64, total_ms: u64, fallback: bool) -> (r: String)
    ensures
        r@ == timing_text(nix_resolve_ms, find_ms, files, patch_ms, total_ms, fallback),
{
    let mut r = owned("uv-nix-timing: nix_resolve=");
    r.append(text::decimal_u64(nix_resolve_ms).as_str());
    r.append("ms find_binaries=");
    r.append(text::decimal_u64(find_ms).as_str());
    r.append("ms (");
    r.append(text::decimal_string(files).as_str());
    r.append(" files) patch=");
    r.append(text::decimal_u64(patch_ms).as_str());
    r.append("ms total=");
    r.append(text::decimal_u64(total_ms).as_str());
    r.append("ms");
    if fallback {
        r.append(" (fallback)");
    }
    r.append("\n");
    r
}

// ---------------------------------------------------------------------------
// musl-linked Pythons
// ---------------------------------------------------------------------------
/// uv names musl builds with `musl` in the directory name.
pub fn musl_by_name(dir_name: &str) -> (r: bool)
    ensures
        r == text::contains_seq(dir_name@, "musl"@),
{
    text::contains(dir_name, "musl")
}

/// The interpreter binary whose ELF interpreter is checked: `python3…`
/// without a `-` (not `python3-config`).
pub fn python_binary_name(name: &str) -> (r: bool)
    ensures
        r == (text::has_prefix(name@, "python3"@) && !name@.contains('-')),
{
    text::starts_with(name, "python3") && !text::contains_char(name, '-')
}

/// `patchelf --print-interpreter` output naming a musl loader.
pub fn interpreter_is_musl(output: &str) -> (r: bool)
    ensures
        r == text::contains_seq(output@, "musl"@),
{
    text::contains(output, "musl")
}

// ---------------------------------------------------------------------------
// Confirmation prompts
// ---------------------------------------------------------------------------
/// A key pressed at a yes/no prompt.
#[derive(Debug, Clone, Copy, PartialEq, Eq, Structural)]
pub enum ConfirmKey {
    Yes,
    No,
    Enter,
    Interrupt,
    Other,
}

/// What a prompt does with a key.
#[derive(Debug, Clone, Copy, PartialEq, Eq, Structural)]
pub enum ConfirmStep {
    /// The answer is given.
    Answer(bool),
    /// Ctrl-C: leave with status 130.
    Exit,
    /// Keep reading.
    Wait,
}

/// `y` and `n` answer, Enter takes the default, Ctrl-C leaves, anything
/// else is ignored.
pub fn confirm_step(key: ConfirmKey, default: bool) -> (r: ConfirmStep)
    ensures
        r == match key {
            ConfirmKey::Yes => ConfirmStep::Answer(true),
            ConfirmKey::No => ConfirmStep::Answer(false),
            ConfirmKey::Enter => ConfirmStep::Answer(default),
            ConfirmKey::Interrupt => ConfirmStep::Exit,
            ConfirmKey::Other => ConfirmStep::Wait,
        },
{
    match key {
        ConfirmKey::Yes => ConfirmStep::Answer(true),
        ConfirmKey::No => ConfirmStep::Answer(false),
        ConfirmKey::Enter => ConfirmStep::Answer(default),
        ConfirmKey::Interrupt => ConfirmStep::Exit,
        ConfirmKey::Other => ConfirmStep::Wait,
    }
}

/// How an answer is shown: `yes` or `no`.
pub fn answer_label(answer: bool) -> (r: &'static str)
    ensures
        r@ == (if answer { "yes"@ } else { "no"@ }),
{
    if answer {
        "yes"
    } else {
        "no"
    }
}

} // verus!
