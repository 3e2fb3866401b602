//! The `uv nix` commands' data and the text they print (data on standard
//! output, status on standard error, colored in uv's style).
use vstd::prelude::*;

use owo_colors::OwoColorize;

use crate::build_env::EffectivePackageConfig;
use crate::text::{contains, contains_seq, decimal, decimal_string, owned, views};

verus! {

/// What a command prints: data on standard output, status on standard error.
#[derive(Debug)]
pub struct CliOutput {
    pub stdout: String,
    pub stderr: String,
}

/// Options of `uv nix patch`.
#[derive(Debug)]
pub struct PatchOptions {
    /// The virtual environment.
    pub path: String,
    /// Only the Python interpreter.
    pub only_python: bool,
    /// Only the installed packages.
    pub only_packages: bool,
    /// Only these packages (all when absent).
    pub packages: Option<Vec<String>>,
    /// Custom patcher.
    pub patchelf: Option<String>,
    /// Custom interpreter (Linux).
    pub interpreter: Option<String>,
    /// Custom rpath entries.
    pub rpath: Option<String>,
}

/// Options of `uv nix info`.
#[derive(Debug)]
pub struct InfoOptions {
    pub path: String,
    pub verbose: bool,
    pub json: bool,
    /// Show the build configuration of this package instead.
    pub package: Option<String>,
}

/// Options of `uv nix rebuild`.
#[derive(Debug)]
pub struct RebuildOptions {
    pub path: String,
    pub packages: Option<Vec<String>>,
    pub force: bool,
}

/// A package with native binaries.
#[derive(Debug)]
pub struct PatchedPackageInfo {
    pub name: String,
    pub path: String,
    pub binary_count: usize,
    /// Binary paths relative to the package directory (verbose only).
    pub binaries: Vec<String>,
    /// Rpath entries of its first binary (verbose only).
    pub rpath_entries: Vec<String>,
}

/// What `uv nix info` reports about a virtual environment.
#[derive(Debug)]
pub struct VenvNixInfo {
    pub venv_path: String,
    pub python_patched: bool,
    pub python_path: String,
    pub python_rpath: Vec<String>,
    pub packages: Vec<PatchedPackageInfo>,
    pub total_binaries: usize,
}

// ---------------------------------------------------------------------------
// Terminal styles (owo-colors)
// ---------------------------------------------------------------------------
pub open spec fn bold_text(s: Seq<char>) -> Seq<char> {
    "\x1b[1m"@ + s + "\x1b[0m"@
}

pub open spec fn dim_text(s: Seq<char>) -> Seq<char> {
    "\x1b[2m"@ + s + "\x1b[0m"@
}

pub open spec fn green_text(s: Seq<char>) -> Seq<char> {
    "\x1b[32m"@ + s + "\x1b[39m"@
}

pub open spec fn yellow_text(s: Seq<char>) -> Seq<char> {
    "\x1b[33m"@ + s + "\x1b[39m"@
}

pub open spec fn cyan_text(s: Seq<char>) -> Seq<char> {
    "\x1b[36m"@ + s + "\x1b[39m"@
}

/// `OwoColorize::bold`, displayed: the text between `ESC[1m` and `ESC[0m`.
#[verifier::external_body]
fn bold(s: &str) -> (r: String)
    ensures
        r@ == bold_text(s@),
{
    format!("{}", s.bold())
}

/// `OwoColorize::dimmed`, displayed: the text between `ESC[2m` and `ESC[0m`.
#[verifier::external_body]
fn dimmed(s: &str) -> (r: String)
    ensures
        r@ == dim_text(s@),
{
    format!("{}", s.dimmed())
}

/// `OwoColorize::green`, displayed: the text between `ESC[32m` and `ESC[39m`.
#[verifier::external_body]
fn green(s: &str) -> (r: String)
    ensures
        r@ == green_text(s@),
{
    format!("{}", s.green())
}

/// `OwoColorize::yellow`, displayed: the text between `ESC[33m` and `ESC[39m`.
#[verifier::external_body]
fn yellow(s: &str) -> (r: String)
    ensures
        r@ == yellow_text(s@),
{
    format!("{}", s.yellow())
}

/// `OwoColorize::cyan`, displayed: the text between `ESC[36m` and `ESC[39m`.
#[verifier::external_body]
fn cyan(s: &str) -> (r: String)
    ensures
        r@ == cyan_text(s@),
{
    format!("{}", s.cyan())
}

// ---------------------------------------------------------------------------
// Package configuration text
// ---------------------------------------------------------------------------
/// One line per item: two spaces and the styled item.
pub open spec fn cyan_lines(items: Seq<Seq<char>>) -> Seq<char>
    decreases items.len(),
{
    if items.len() == 0 {
        Seq::empty()
    } else {
        cyan_lines(items.drop_last()) + "  "@ + cyan_text(items.last()) + "\n"@
    }
}

/// A titled list, or `(none)` when it is empty.
pub open spec fn list_block(title: Seq<char>, items: Seq<Seq<char>>) -> Seq<char> {
    bold_text(title) + "\n"@ + if items.len() == 0 {
        "  "@ + dim_text("(none)"@) + "\n"@
    } else {
        cyan_lines(items)
    }
}

/// The text of `uv nix info --package`.
pub open spec fn package_config_text(c: EffectivePackageConfig) -> Seq<char> {
    bold_text("Package:"@) + " "@ + cyan_text(c.name@) + "\n"@ + "\n"@ + bold_text(
        "Custom config:"@,
    ) + " "@ + (if c.has_custom_config {
        green_text("yes (from pyproject.toml)"@)
    } else {
        dim_text("no (using defaults)"@)
    }) + "\n"@ + "\n"@ + bold_text("Nixpkgs source:"@) + "\n"@ + "  "@ + dim_text(
        c.nixpkgs_source@,
    ) + "\n"@ + "\n"@ + list_block("Libraries:"@, views(c.libraries@)) + "\n"@ + list_block(
        "Build tools:"@,
        views(c.build_tools@),
    )
}

fn push_list_block(out: &mut String, title: &str, items: &Vec<String>)
    ensures
        final(out)@ == old(out)@ + list_block(title@, views(items@)),
{
    let ghost start = out@;
    let t = bold(title);
    out.append(t.as_str());
    out.append("\n");
    let ghost mid = out@;
    if items.len() == 0 {
        out.append("  ");
        let d = dimmed("(none)");
        out.append(d.as_str());
        out.append("\n");
    } else {
        let mut i: usize = 0;
        while i < items.len()
            invariant
                i <= items.len(),
                out@ == mid + cyan_lines(views(items@).take(i as int)),
            decreases items.len() - i,
        {
            out.append("  ");
            let c = cyan(items[i].as_str());
            out.append(c.as_str());
            out.append("\n");
            proof {
                let tk = views(items@).take(i as int + 1);
                assert(tk.drop_last() =~= views(items@).take(i as int));
                assert(tk.last() == items@[i as int]@);
                assert(out@ =~= mid + cyan_lines(tk));
            }
            i = i + 1;
        }
        assert(views(items@).take(items.len() as int) =~= views(items@));
    }
    assert(out@ =~= start + list_block(title@, views(items@)));
}

/// The build configuration of a package, as text.
pub fn print_package_config_text(config: &EffectivePackageConfig) -> (r: String)
    ensures
        r@ == package_config_text(*config),
{
    let mut out = String::new();
    out.append(bold("Package:").as_str());
    out.append(" ");
    out.append(cyan(config.name.as_str()).as_str());
    out.append("\n");
    out.append("\n");
    out.append(bold("Custom config:").as_str());
    out.append(" ");
    if config.has_custom_config {
        out.append(green("yes (from pyproject.toml)").as_str());
    } else {
        out.append(dimmed("no (using defaults)").as_str());
    }
    out.append("\n");
    out.append("\n");
    out.append(bold("Nixpkgs source:").as_str());
    out.append("\n");
    out.append("  ");
    out.append(dimmed(config.nixpkgs_source.as_str()).as_str());
    out.append("\n");
    out.append("\n");
    let ghost head = out@;
    push_list_block(&mut out, "Libraries:", &config.libraries);
    out.append("\n");
    push_list_block(&mut out, "Build tools:", &config.build_tools);
    assert(out@ =~= package_config_text(*config));
    out
}

// ---------------------------------------------------------------------------
// Virtual environment text
// ---------------------------------------------------------------------------
/// One line per item, indented and dimmed.
pub open spec fn dim_lines(indent: Seq<char>, items: Seq<Seq<char>>) -> Seq<char>
    decreases items.len(),
{
    if items.len() == 0 {
        Seq::empty()
    } else {
        dim_lines(indent, items.drop_last()) + indent + dim_text(items.last()) + "\n"@
    }
}

/// The lines of one package.
pub open spec fn package_text(p: PatchedPackageInfo, verbose: bool) -> Seq<char> {
    "  "@ + cyan_text(p.name@) + " "@ + dim_text(
        "("@ + decimal(p.binary_count as nat) + " binaries)"@,
    ) + "\n"@ + if verbose {
        package_details(p)
    } else {
        Seq::empty()
    }
}

/// The lines of all packages.
pub open spec fn packages_text(ps: Seq<PatchedPackageInfo>, verbose: bool) -> Seq<char>
    decreases ps.len(),
{
    if ps.len() == 0 {
        Seq::empty()
    } else {
        packages_text(ps.drop_last(), verbose) + package_text(ps.last(), verbose)
    }
}

/// The interpreter part of `uv nix info`.
pub open spec fn info_head(info: VenvNixInfo, verbose: bool) -> Seq<char> {
    bold_text("Virtual environment:"@) + " "@ + info.venv_path@ + "\n"@ + "\n"@ + bold_text(
        "Python interpreter:"@,
    ) + "\n"@ + "  Path: "@ + cyan_text(info.python_path@) + "\n"@ + "  Patched: "@ + (
    if info.python_patched {
        green_text("yes"@)
    } else {
        yellow_text("no"@)
    }) + "\n"@ + (if verbose && info.python_rpath@.len() > 0 {
        "  RPATH:\n"@ + dim_lines("    "@, views(info.python_rpath@))
    } else {
        Seq::empty()
    }) + "\n"@
}

/// The counts part of `uv nix info`.
pub open spec fn info_counts(info: VenvNixInfo) -> Seq<char> {
    bold_text("Packages with native binaries:"@) + " "@ + decimal(info.packages@.len()) + "\n"@
        + bold_text("Total native binaries:"@) + " "@ + decimal(info.total_binaries as nat) + "\n"@
        + "\n"@
}

/// The packages part of `uv nix info`.
pub open spec fn info_packages(info: VenvNixInfo, verbose: bool) -> Seq<char> {
    if info.packages@.len() > 0 {
        bold_text("Packages:"@) + "\n"@ + packages_text(info.packages@, verbose)
    } else {
        Seq::empty()
    }
}

/// The text of `uv nix info`.
pub open spec fn info_text(info: VenvNixInfo, verbose: bool) -> Seq<char> {
    info_head(info, verbose) + info_counts(info) + info_packages(info, verbose)
}

fn push_dim_lines(out: &mut String, indent: &str, items: &Vec<String>)
    ensures
        final(out)@ == old(out)@ + dim_lines(indent@, views(items@)),
{
    let ghost start = out@;
    let mut i: usize = 0;
    while i < items.len()
        invariant
            i <= items.len(),
            out@ == start + dim_lines(indent@, views(items@).take(i as int)),
        decreases items.len() - i,
    {
        out.append(indent);
        let d = dimmed(items[i].as_str());
        out.append(d.as_str());
        out.append("\n");
        proof {
            let tk = views(items@).take(i as int + 1);
            assert(tk.drop_last() =~= views(items@).take(i as int));
            assert(tk.last() == items@[i as int]@);
            assert(out@ =~= start + dim_lines(indent@, tk));
        }
        i = i + 1;
    }
    assert(views(items@).take(items.len() as int) =~= views(items@));
}

/// The verbose details of a package: its binaries and its rpath.
pub open spec fn package_details(p: PatchedPackageInfo) -> Seq<char> {
    dim_lines("    "@, views(p.binaries@)) + if p.rpath_entries@.len() > 0 {
        "    "@ + dim_text("RPATH"@) + ":\n"@ + dim_lines("      "@, views(p.rpath_entries@))
    } else {
        Seq::empty()
    }
}

fn push_package_details(out: &mut String, p: &PatchedPackageInfo)
    ensures
        final(out)@ == old(out)@ + package_details(*p),
{
    let ghost start = out@;
    push_dim_lines(out, "    ", &p.binaries);
    let ghost mid = out@;
    if p.rpath_entries.len() > 0 {
        out.append("    ");
        out.append(dimmed("RPATH").as_str());
        out.append(":\n");
        push_dim_lines(out, "      ", &p.rpath_entries);
        assert(out@ =~= mid + ("    "@ + dim_text("RPATH"@) + ":\n"@ + dim_lines("      "@, views(p.rpath_entries@))));
    } else {
        assert(out@ =~= mid + Seq::<char>::empty());
    }
    assert(out@ =~= start + package_details(*p));
}

fn push_package_text(out: &mut String, p: &PatchedPackageInfo, verbose: bool)
    ensures
        final(out)@ == old(out)@ + package_text(*p, verbose),
{
    let ghost start = out@;
    out.append("  ");
    out.append(cyan(p.name.as_str()).as_str());
    out.append(" ");
    let mut count = owned("(");
    count.append(decimal_string(p.binary_count).as_str());
    count.append(" binaries)");
    out.append(dimmed(count.as_str()).as_str());
    out.append("\n");
    let ghost head = out@;
    assert(head =~= start + ("  "@ + cyan_text(p.name@) + " "@ + dim_text(
        "("@ + decimal(p.binary_count as nat) + " binaries)"@,
    ) + "\n"@));
    if verbose {
        push_package_details(out, p);
        assert(out@ =~= head + package_details(*p));
    } else {
        assert(out@ =~= head + Seq::<char>::empty());
    }
    assert(package_text(*p, verbose) =~= ("  "@ + cyan_text(p.name@) + " "@ + dim_text(
        "("@ + decimal(p.binary_count as nat) + " binaries)"@,
    ) + "\n"@) + if verbose { package_details(*p) } else { Seq::<char>::empty() });
}

fn push_info_head(out: &mut String, info: &VenvNixInfo, verbose: bool)
    ensures
        final(out)@ == old(out)@ + info_head(*info, verbose),
{
    let ghost start = out@;
    out.append(bold("Virtual environment:").as_str());
    out.append(" ");
    out.append(info.venv_path.as_str());
    out.append("\n");
    out.append("\n");
    out.append(bold("Python interpreter:").as_str());
    out.append("\n");
    out.append("  Path: ");
    out.append(cyan(info.python_path.as_str()).as_str());
    out.append("\n");
    out.append("  Patched: ");
    if info.python_patched {
        out.append(green("yes").as_str());
    } else {
        out.append(yellow("no").as_str());
    }
    out.append("\n");
    let ghost s1 = out@;
    if verbose && info.python_rpath.len() > 0 {
        out.append("  RPATH:\n");
        push_dim_lines(out, "    ", &info.python_rpath);
        assert(out@ =~= s1 + ("  RPATH:\n"@ + dim_lines("    "@, views(info.python_rpath@))));
    } else {
        assert(out@ =~= s1 + Seq::<char>::empty());
    }
    out.append("\n");
    assert(out@ =~= start + info_head(*info, verbose));
}

fn push_info_counts(out: &mut String, info: &VenvNixInfo)
    ensures
        final(out)@ == old(out)@ + info_counts(*info),
{
    let ghost start = out@;
    out.append(bold("Packages with native binaries:").as_str());
    out.append(" ");
    out.append(decimal_string(info.packages.len()).as_str());
    out.append("\n");
    out.append(bold("Total native binaries:").as_str());
    out.append(" ");
    out.append(decimal_string(info.total_binaries).as_str());
    out.append("\n");
    out.append("\n");
    assert(out@ =~= start + info_counts(*info));
}

fn push_info_packages(out: &mut String, info: &VenvNixInfo, verbose: bool)
    ensures
        final(out)@ == old(out)@ + info_packages(*info, verbose),
{
    let ghost start = out@;
    if info.packages.len() > 0 {
        out.append(bold("Packages:").as_str());
        out.append("\n");
        let ghost s4 = out@;
        let mut i: usize = 0;
        while i < info.packages.len()
            invariant
                i <= info.packages.len(),
                out@ == s4 + packages_text(info.packages@.take(i as int), verbose),
            decreases info.packages.len() - i,
        {
            push_package_text(out, &info.packages[i], verbose);
            proof {
                let tk = info.packages@.take(i as int + 1);
                assert(tk.drop_last() =~= info.packages@.take(i as int));
                assert(tk.last() == info.packages@[i as int]);
                assert(out@ =~= s4 + packages_text(tk, verbose));
            }
            i = i + 1;
        }
        assert(info.packages@.take(info.packages.len() as int) =~= info.packages@);
        assert(out@ =~= start + info_packages(*info, verbose));
    } else {
        assert(out@ =~= start + Seq::<char>::empty());
    }
}

/// What `uv nix info` prints, as text.
pub fn print_info_text(info: &VenvNixInfo, verbose: bool) -> (r: String)
    ensures
        r@ == info_text(*info, verbose),
{
    let mut out = String::new();
    push_info_head(&mut out, info, verbose);
    push_info_counts(&mut out, info);
    push_info_packages(&mut out, info, verbose);
    assert(out@ =~= info_text(*info, verbose));
    out
}

// ---------------------------------------------------------------------------
// Status lines
// ---------------------------------------------------------------------------
/// `binary` or `binaries`.
pub open spec fn binaries_word(n: nat) -> Seq<char> {
    if n == 1 {
        "binary"@
    } else {
        "binaries"@
    }
}

/// `package` or `packages`.
pub open spec fn packages_word(n: nat) -> Seq<char> {
    if n == 1 {
        "package"@
    } else {
        "packages"@
    }
}

/// The status line ending `uv nix patch`.
pub open spec fn patch_summary_text(binaries: nat, packages: nat) -> Seq<char> {
    bold_text(green_text("Patched"@)) + " "@ + bold_text(
        decimal(binaries) + " "@ + binaries_word(binaries),
    ) + " "@ + "in"@ + " "@ + bold_text(decimal(packages) + " "@ + packages_word(packages)) + "\n"@
}

/// The status line ending `uv nix patch`: how many binaries were patched in
/// how many packages.
pub fn patch_summary(binaries: usize, packages: usize) -> (r: String)
    ensures
        r@ == patch_summary_text(binaries as nat, packages as nat),
{
    let mut out = String::new();
    let g = green("Patched");
    out.append(bold(g.as_str()).as_str());
    out.append(" ");
    let mut b = decimal_string(binaries);
    b.append(if binaries == 1 { " binary" } else { " binaries" });
    proof {
        reveal_strlit(" binary");
        reveal_strlit(" binaries");
        reveal_strlit("binary");
        reveal_strlit("binaries");
    }
    out.append(bold(b.as_str()).as_str());
    out.append(" ");
    out.append("in");
    out.append(" ");
    let mut p = decimal_string(packages);
    p.append(if packages == 1 { " package" } else { " packages" });
    proof {
        reveal_strlit(" package");
        reveal_strlit(" packages");
        reveal_strlit("package");
        reveal_strlit("packages");
        reveal_strlit(" ");
    }
    out.append(bold(p.as_str()).as_str());
    out.append("\n");
    assert(out@ =~= patch_summary_text(binaries as nat, packages as nat));
    out
}

/// The status line after `uv nix gen` wrote a file.
pub fn generated_line(path: &str) -> (r: String)
    ensures
        r@ == bold_text(green_text("Generated"@)) + " "@ + path@ + "\n"@,
{
    let g = green("Generated");
    let mut out = bold(g.as_str());
    out.append(" ");
    out.append(path);
    out.append("\n");
    out
}

/// The status line ending `uv nix rebuild`.
pub open spec fn rebuild_summary_text(binaries: nat) -> Seq<char> {
    bold_text(green_text("Rebuilt"@)) + " "@ + bold_text(decimal(binaries) + " "@ + binaries_word(binaries))
        + "\n"@
}

/// The status line ending `uv nix rebuild`.
pub fn rebuild_summary(binaries: usize) -> (r: String)
    ensures
        r@ == rebuild_summary_text(binaries as nat),
{
    let mut out = String::new();
    let g = green("Rebuilt");
    out.append(bold(g.as_str()).as_str());
    out.append(" ");
    let mut b = decimal_string(binaries);
    b.append(if binaries == 1 { " binary" } else { " binaries" });
    proof {
        reveal_strlit(" binary");
        reveal_strlit(" binaries");
        reveal_strlit("binary");
        reveal_strlit("binaries");
        reveal_strlit(" ");
    }
    out.append(bold(b.as_str()).as_str());
    out.append("\n");
    assert(out@ =~= rebuild_summary_text(binaries as nat));
    out
}

/// `Rebuilding N package(s)...`, dimmed.
pub fn rebuilding_line(packages: usize) -> (r: String)
    ensures
        r@ == dim_text("Rebuilding "@ + decimal(packages as nat) + " "@ + packages_word(packages as nat) + "..."@) + "\n"@,
{
    let mut m = owned("Rebuilding ");
    m.append(decimal_string(packages).as_str());
    m.append(if packages == 1 { " package" } else { " packages" });
    m.append("...");
    proof {
        reveal_strlit(" package");
        reveal_strlit(" packages");
        reveal_strlit("package");
        reveal_strlit("packages");
        reveal_strlit(" ");
    }
    let mut out = dimmed(m.as_str());
    out.append("\n");
    assert(m@ =~= "Rebuilding "@ + decimal(packages as nat) + " "@ + packages_word(packages as nat) + "..."@);
    out
}

/// A dimmed status line such as `Patching numpy...`.
pub fn status_line(verb: &str, subject: &str) -> (r: String)
    ensures
        r@ == dim_text(verb@ + " "@ + subject@ + "..."@) + "\n"@,
{
    let mut m = owned(verb);
    m.append(" ");
    m.append(subject);
    m.append("...");
    let mut out = dimmed(m.as_str());
    out.append("\n");
    out
}

/// A dimmed status line with no subject.
pub fn dim_line(message: &str) -> (r: String)
    ensures
        r@ == dim_text(message@) + "\n"@,
{
    let mut out = dimmed(message);
    out.append("\n");
    out
}

// ---------------------------------------------------------------------------
// Reading tool output
// ---------------------------------------------------------------------------
/// The rpath entries `patchelf --print-rpath` reports: none when the trimmed
/// output is empty, else its colon-separated entries.
pub open spec fn rpath_entries_spec(out: Seq<char>) -> Seq<Seq<char>> {
    let t = crate::text::trim(out);
    if t.len() == 0 {
        Seq::empty()
    } else {
        crate::text::split_on(t, ':')
    }
}

/// The rpath entries in `patchelf --print-rpath` output.
pub fn elf_rpath_entries(output: &str) -> (r: Vec<String>)
    ensures
        views(r@) == rpath_entries_spec(output@),
{
    let t = crate::text::trim_string(output);
    if t.as_str().is_empty() {
        return Vec::new();
    }
    crate::text::split_char(t.as_str(), ':')
}

/// The `LC_RPATH` paths in `otool -l` output: after a line naming
/// `LC_RPATH`, the next line that starts (trimmed) with `path ` gives the
/// word after it.
pub open spec fn lc_rpaths(ls: Seq<Seq<char>>) -> (Seq<Seq<char>>, bool)
    decreases ls.len(),
{
    if ls.len() == 0 {
        (Seq::empty(), false)
    } else {
        let (r, in_rpath) = lc_rpaths(ls.drop_last());
        let line = ls.last();
        let t = crate::text::trim(line);
        if contains_seq(line, "LC_RPATH"@) {
            (r, true)
        } else if in_rpath && crate::text::has_prefix(t, "path "@) {
            let p = crate::nixpkgs::first_word(t.skip(5));
            (if p.len() > 0 {
                r.push(p)
            } else {
                r
            }, false)
        } else {
            (r, in_rpath)
        }
    }
}

/// The rpath entries of a Mach-O binary, read from `otool -l` output.
pub fn macho_rpath_entries(output: &str) -> (r: Vec<String>)
    ensures
        views(r@) == lc_rpaths(crate::text::lines_of(output@)).0,
{
    let ls = crate::text::lines(output);
    let ghost lv = views(ls@);
    let mut r: Vec<String> = Vec::new();
    let mut in_rpath = false;
    let mut i: usize = 0;
    while i < ls.len()
        invariant
            i <= ls.len(),
            lv == views(ls@),
            (views(r@), in_rpath) == lc_rpaths(lv.take(i as int)),
        decreases ls.len() - i,
    {
        assert(lv.take(i as int + 1).drop_last() =~= lv.take(i as int));
        assert(lv.take(i as int + 1).last() == ls@[i as int]@);
        let line = ls[i].as_str();
        let t = crate::text::trim_string(line);
        if contains(line, "LC_RPATH") {
            in_rpath = true;
        } else if in_rpath && crate::text::starts_with(t.as_str(), "path ") {
            proof {
                reveal_strlit("path ");
            }
            let v = crate::text::chars_of(t.as_str());
            let rest = crate::text::string_from_chars(v.as_slice().split_at(5).1);
            assert(v@.subrange(5, v@.len() as int) =~= t@.skip(5));
            let p = crate::nixpkgs::first_word_exec(rest.as_str());
            if !p.as_str().is_empty() {
                let ghost r0 = r@;
                r.push(p);
                assert(views(r@) =~= views(r0).push(r@.last()@));
            }
            in_rpath = false;
        }
        i = i + 1;
    }
    assert(lv.take(ls.len() as int) =~= lv);
    r
}

/// Whether some rpath entry is a Nix store path (the interpreter is patched).
pub fn rpath_has_store_path(entries: &Vec<String>) -> (r: bool)
    ensures
        r == exists|i: int| 0 <= i < entries.len() && contains_seq(#[trigger] entries@[i]@, "/nix/store"@),
{
    let mut i: usize = 0;
    while i < entries.len()
        invariant
            i <= entries.len(),
            forall|k: int| 0 <= k < i ==> !contains_seq(#[trigger] entries@[k]@, "/nix/store"@),
        decreases entries.len() - i,
    {
        if contains(entries[i].as_str(), "/nix/store") {
            return true;
        }
        i = i + 1;
    }
    false
}

// ---------------------------------------------------------------------------
// Choosing packages and assembling `uv nix info`
// ---------------------------------------------------------------------------
/// `-` replaced by `_`.
pub open spec fn underscored(s: Seq<char>) -> Seq<char> {
    s.map_values(|c: char| if c == '-' { '_' } else { c })
}

/// The key a requested package name is compared by: lowercased, with `-`
/// as `_`.
pub open spec fn name_key(name: Seq<char>) -> Seq<char> {
    underscored(crate::text::lowercase(name))
}

/// The key of a `site-packages` entry: its name up to the first `-`
/// (`numpy-2.4.6.dist-info` gives `numpy`), lowercased, `-` as `_`.
pub open spec fn entry_key(entry: Seq<char>) -> Seq<char> {
    name_key(crate::text::split_on(entry, '-')[0])
}

/// Whether an entry belongs to one of the requested packages.
pub open spec fn entry_requested(entry: Seq<char>, names: Seq<Seq<char>>) -> bool {
    exists|i: int| 0 <= i < names.len() && name_key(#[trigger] names[i]) == entry_key(entry)
}

/// The entries that belong to requested packages, in listing order.
pub open spec fn requested_entries(entries: Seq<Seq<char>>, names: Seq<Seq<char>>) -> Seq<Seq<char>>
    decreases entries.len(),
{
    if entries.len() == 0 {
        Seq::empty()
    } else {
        let r = requested_entries(entries.drop_last(), names);
        if entry_requested(entries.last(), names) {
            r.push(entries.last())
        } else {
            r
        }
    }
}

fn underscore(s: &str) -> (r: String)
    ensures
        r@ == underscored(s@),
{
    let v = crate::text::chars_of(s);
    let mut out: Vec<char> = Vec::new();
    let mut i: usize = 0;
    while i < v.len()
        invariant
            i <= v.len(),
            v@ == s@,
            out@ == underscored(v@.take(i as int)),
        decreases v.len() - i,
    {
        let c = v[i];
        out.push(if c == '-' { '_' } else { c });
        assert(v@.take(i as int + 1) =~= v@.take(i as int).push(c));
        assert(underscored(v@.take(i as int + 1)) =~= underscored(v@.take(i as int)).push(
            if c == '-' { '_' } else { c },
        ));
        i = i + 1;
    }
    assert(v@.take(v.len() as int) =~= v@);
    crate::text::string_from_chars(out.as_slice())
}

/// The comparison key of a requested package name.
pub fn package_name_key(name: &str) -> (r: String)
    ensures
        r@ == name_key(name@),
{
    let lower = crate::text::to_lowercase(name);
    underscore(lower.as_str())
}

/// The comparison key of a `site-packages` entry.
pub fn entry_name_key(entry: &str) -> (r: String)
    ensures
        r@ == entry_key(entry@),
{
    let mut parts = crate::text::split_char(entry, '-');
    proof {
        crate::text::lemma_split_nonempty(entry@, '-');
    }
    let first = parts.remove(0);
    package_name_key(first.as_str())
}

/// The `site-packages` entries (as listed) that belong to the requested
/// packages.
pub fn packages_by_name(entries: &Vec<String>, names: &Vec<String>) -> (r: Vec<String>)
    ensures
        views(r@) == requested_entries(views(entries@), views(names@)),
{
    let mut keys: Vec<String> = Vec::new();
    let mut j: usize = 0;
    while j < names.len()
        invariant
            j <= names.len(),
            keys@.len() == j,
            forall|k: int| 0 <= k < j ==> (#[trigger] keys@[k])@ == name_key(names@[k]@),
        decreases names.len() - j,
    {
        keys.push(package_name_key(names[j].as_str()));
        j = j + 1;
    }
    let ghost ev = views(entries@);
    let ghost nv = views(names@);
    let mut r: Vec<String> = Vec::new();
    let mut i: usize = 0;
    while i < entries.len()
        invariant
            i <= entries.len(),
            ev == views(entries@),
            nv == views(names@),
            keys@.len() == names@.len(),
            forall|k: int| 0 <= k < keys@.len() ==> (#[trigger] keys@[k])@ == name_key(nv[k]),
            views(r@) == requested_entries(ev.take(i as int), nv),
        decreases entries.len() - i,
    {
        let key = entry_name_key(entries[i].as_str());
        let mut found = false;
        let mut k: usize = 0;
        while k < keys.len()
            invariant
                k <= keys.len(),
                keys@.len() == nv.len(),
                forall|m: int| 0 <= m < keys@.len() ==> (#[trigger] keys@[m])@ == name_key(nv[m]),
                found <==> exists|m: int| 0 <= m < k && name_key(#[trigger] nv[m]) == key@,
            decreases keys.len() - k,
        {
            if crate::text::str_eq(keys[k].as_str(), key.as_str()) {
                found = true;
            }
            proof {
                if found {
                    if keys@[k as int]@ == key@ {
                        assert(name_key(nv[k as int]) == key@);
                    }
                }
            }
            k = k + 1;
        }
        proof {
            let t = ev.take(i as int + 1);
            assert(t.drop_last() =~= ev.take(i as int));
            assert(t.last() == entries@[i as int]@);
            assert(found == entry_requested(entries@[i as int]@, nv));
        }
        if found {
            let ghost r0 = r@;
            r.push(entries[i].clone());
            assert(views(r@) =~= views(r0).push(entries@[i as int]@));
        }
        i = i + 1;
    }
    assert(ev.take(entries.len() as int) =~= ev);
    r
}

/// The packages that have native binaries, in order.
pub open spec fn kept_packages(ps: Seq<PatchedPackageInfo>) -> Seq<PatchedPackageInfo>
    decreases ps.len(),
{
    if ps.len() == 0 {
        Seq::empty()
    } else {
        let r = kept_packages(ps.drop_last());
        if ps.last().binary_count > 0 {
            r.push(ps.last())
        } else {
            r
        }
    }
}

/// The number of binaries of the packages.
pub open spec fn binary_total(ps: Seq<PatchedPackageInfo>) -> nat
    decreases ps.len(),
{
    if ps.len() == 0 {
        0
    } else {
        binary_total(ps.drop_last()) + ps.last().binary_count as nat
    }
}

/// A package as `uv nix info` shows it: name, path and count; its binaries
/// and rpath entries only when verbose.
pub open spec fn shown_as(shown: PatchedPackageInfo, p: PatchedPackageInfo, verbose: bool) -> bool {
    &&& shown.name@ == p.name@
    &&& shown.path@ == p.path@
    &&& shown.binary_count == p.binary_count
    &&& views(shown.binaries@) == (if verbose { views(p.binaries@) } else { Seq::empty() })
    &&& views(shown.rpath_entries@) == (if verbose { views(p.rpath_entries@) } else { Seq::empty() })
}

/// `uv nix info`'s report from what was found: the interpreter and its rpath
/// entries, and each `site-packages` directory with its native binaries
/// (directories without any are left out).
pub fn venv_info(
    venv_path: String,
    python_path: String,
    python_rpath: Vec<String>,
    found: Vec<PatchedPackageInfo>,
    verbose: bool,
) -> (r: VenvNixInfo)
    requires
        binary_total(found@) <= usize::MAX,
    ensures
        r.venv_path@ == venv_path@,
        r.python_path@ == python_path@,
        views(r.python_rpath@) == views(python_rpath@),
        r.python_patched == exists|i: int|
            0 <= i < python_rpath.len() && contains_seq(#[trigger] python_rpath@[i]@, "/nix/store"@),
        r.packages@.len() == kept_packages(found@).len(),
        forall|i: int| 0 <= i < r.packages@.len() ==> shown_as(#[trigger] r.packages@[i], kept_packages(found@)[i], verbose),
        r.total_binaries == binary_total(found@),
{
    let python_patched = rpath_has_store_path(&python_rpath);
    let ghost f = found@;
    let mut packages: Vec<PatchedPackageInfo> = Vec::new();
    let mut total: usize = 0;
    let n = found.len();
    let mut all = found;
    let mut i: usize = 0;
    proof {
        lemma_total_prefix(f, 0);
        assert(f.subrange(0, n as int) =~= f);
    }
    while i < n
        invariant
            i <= n,
            n == f.len(),
            all@ == f.subrange(i as int, n as int),
            total == binary_total(f.take(i as int)),
            binary_total(f) <= usize::MAX,
            packages@.len() == kept_packages(f.take(i as int)).len(),
            forall|k: int| 0 <= k < packages@.len() ==> shown_as(#[trigger] packages@[k], kept_packages(f.take(i as int))[k], verbose),
        decreases n - i,
    {
        let p = all.remove(0);
        proof {
            assert(p == f[i as int]);
            assert(all@ =~= f.subrange(i as int + 1, n as int));
            assert(f.take(i as int + 1).drop_last() =~= f.take(i as int));
            lemma_total_prefix(f, i as int + 1);
        }
        total = total + p.binary_count;
        let ghost pg = p;
        let ghost before = packages@;
        if p.binary_count > 0 {
            let shown = if verbose {
                p
            } else {
                let none: Vec<String> = Vec::new();
                assert(views(none@) =~= Seq::<Seq<char>>::empty());
                PatchedPackageInfo {
                    name: p.name,
                    path: p.path,
                    binary_count: p.binary_count,
                    binaries: none,
                    rpath_entries: Vec::new(),
                }
            };
            proof {
                assert(shown_as(shown, pg, verbose)) by {
                    if !verbose {
                        assert(views(shown.rpath_entries@) =~= Seq::<Seq<char>>::empty());
                    }
                }
            }
            packages.push(shown);
            proof {
                assert(kept_packages(f.take(i as int + 1)) == kept_packages(f.take(i as int)).push(pg));
                assert forall|k: int| 0 <= k < packages@.len() implies shown_as(
                    #[trigger] packages@[k],
                    kept_packages(f.take(i as int + 1))[k],
                    verbose,
                ) by {
                    if k < before.len() {
                        assert(packages@[k] == before[k]);
                    }
                }
            }
        } else {
            assert(kept_packages(f.take(i as int + 1)) == kept_packages(f.take(i as int)));
        }
        i = i + 1;
    }
    proof {
        assert(f.take(n as int) =~= f);
    }
    VenvNixInfo { venv_path, python_patched, python_path, python_rpath, packages, total_binaries: total }
}

/// The total of a prefix is at most the total.
proof fn lemma_total_prefix(ps: Seq<PatchedPackageInfo>, i: int)
    requires
        0 <= i <= ps.len(),
    ensures
        binary_total(ps.take(i)) <= binary_total(ps),
    decreases ps.len() - i,
{
    if i < ps.len() {
        lemma_total_prefix(ps, i + 1);
        assert(ps.take(i + 1).drop_last() =~= ps.take(i));
    } else {
        assert(ps.take(i) =~= ps);
    }
}

} // verus!
