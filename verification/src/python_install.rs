//! Python versions: the ones projects ask for and the interpreter attrs of
//! nixpkgs that may provide them.
use vstd::prelude::*;

use crate::config::{toml_string_at, toml_table_string};
use crate::text::{chars_of, decimal, decimal_string, is_ascii_digit, owned, split_on, views};
use crate::version::{parse_version, requirement_matches, requirement_parses, semver_parse, semver_req_matches, semver_req_valid, SemVersion};

verus! {

/// The value of a string of decimal digits.
pub open spec fn digits_value(d: Seq<char>) -> nat
    decreases d.len(),
{
    if d.len() == 0 {
        0
    } else {
        digits_value(d.drop_last()) * 10 + ((d.last() as u32) - 48) as nat
    }
}

/// `u8::from_str`: an optional `+`, then one or more decimal digits whose
/// value fits in a byte.
pub open spec fn parse_u8_spec(s: Seq<char>) -> Option<u8> {
    let d = u8_digits(s);
    if d.len() > 0 && all_digits(d) && digits_value(d) <= 255 {
        Some(digits_value(d) as u8)
    } else {
        None
    }
}

/// The digits of a byte literal: all after an optional `+`.
pub open spec fn u8_digits(s: Seq<char>) -> Seq<char> {
    if s.len() > 0 && s[0] == '+' {
        s.drop_first()
    } else {
        s
    }
}

/// Every character is a decimal digit.
pub open spec fn all_digits(d: Seq<char>) -> bool {
    forall|i: int| 0 <= i < d.len() ==> is_ascii_digit(#[trigger] d[i])
}

/// Parses a byte in decimal, as `str::parse::<u8>` does.
pub fn parse_u8(s: &str) -> (r: Option<u8>)
    ensures
        r == parse_u8_spec(s@),
{
    let v = chars_of(s);
    let start: usize = if v.len() > 0 && v[0] == '+' {
        1
    } else {
        0
    };
    let ghost d = v@.skip(start as int);
    assert(d =~= u8_digits(s@));
    if v.len() <= start {
        return None;
    }
    let mut value: u32 = 0;
    let mut i: usize = start;
    assert(d.take(0) =~= Seq::<char>::empty());
    while i < v.len()
        invariant
            start <= i <= v.len(),
            d == v@.skip(start as int),
            d == u8_digits(s@),
            forall|k: int| 0 <= k < i - start ==> is_ascii_digit(#[trigger] d[k]),
            value as nat == digits_value(d.take(i - start)),
            value <= 255,
        decreases v.len() - i,
    {
        let c = v[i];
        if !('0' <= c && c <= '9') {
            assert(!is_ascii_digit(d[i - start]));
            assert(!all_digits(d));
            return None;
        }
        let digit = (c as u32) - 48;
        assert(d.take(i - start + 1).drop_last() =~= d.take(i - start));
        assert(d.take(i - start + 1).last() == c);
        let next = value * 10 + digit;
        if next > 255 {
            proof {
                if all_digits(d) {
                    lemma_digits_grow(d, i - start + 1);
                }
            }
            return None;
        }
        value = next;
        i = i + 1;
    }
    assert(d.take(v.len() - start) =~= d);
    Some(value as u8)
}

/// A prefix of digits has no greater value than a longer one.
proof fn lemma_digits_grow(d: Seq<char>, k: int)
    requires
        0 <= k <= d.len(),
        forall|i: int| 0 <= i < d.len() ==> is_ascii_digit(#[trigger] d[i]),
    ensures
        digits_value(d.take(k)) <= digits_value(d),
    decreases d.len() - k,
{
    if k < d.len() {
        lemma_digits_grow(d, k + 1);
        assert(d.take(k + 1).drop_last() =~= d.take(k));
        assert(d.take(k + 1).last() == d[k]);
    } else {
        assert(d.take(k) =~= d);
    }
}

/// `3.12` or `3.12.1` as (major, minor).
pub open spec fn simple_version(s: Seq<char>) -> Option<(u8, u8)> {
    let parts = split_on(s, '.');
    if parts.len() >= 2 {
        match (parse_u8_spec(parts[0]), parse_u8_spec(parts[1])) {
            (Some(a), Some(b)) => Some((a, b)),
            _ => None,
        }
    } else {
        None
    }
}

/// Parses a simple `3.12` or `3.12.1` version into (major, minor).
pub fn parse_simple_version(s: &str) -> (r: Option<(u8, u8)>)
    ensures
        r == simple_version(s@),
{
    let parts = crate::text::split_char(s, '.');
    assert(views(parts@).len() == parts@.len());
    if parts.len() >= 2 {
        let a = parse_u8(parts[0].as_str());
        let b = parse_u8(parts[1].as_str());
        assert(views(parts@)[0] == parts@[0]@);
        assert(views(parts@)[1] == parts@[1]@);
        match (a, b) {
            (Some(x), Some(y)) => Some((x, y)),
            _ => None,
        }
    } else {
        None
    }
}

/// The nixpkgs attr of a Python minor version, such as `python312`.
pub fn python_attr(major: u8, minor: u8) -> (r: String)
    ensures
        r@ == "python"@ + decimal(major as nat) + decimal(minor as nat),
{
    let mut r = owned("python");
    r.append(decimal_string(major as usize).as_str());
    r.append(decimal_string(minor as usize).as_str());
    r
}

/// `s` with every leading and trailing `c` removed (`str::trim_matches`).
pub open spec fn trim_char(s: Seq<char>, c: char) -> Seq<char>
    decreases s.len(),
{
    if s.len() > 0 && s[0] == c {
        trim_char(s.drop_first(), c)
    } else if s.len() > 0 && s.last() == c {
        trim_char(s.drop_last(), c)
    } else {
        s
    }
}

/// Removes every leading and trailing `c`.
pub fn trim_matches_char(s: &str, c: char) -> (r: String)
    ensures
        r@ == trim_char(s@, c),
{
    let v = chars_of(s);
    let mut lo: usize = 0;
    let mut hi: usize = v.len();
    assert(v@.subrange(0, v@.len() as int) =~= s@);
    while lo < hi && (v[lo] == c || v[hi - 1] == c)
        invariant
            lo <= hi <= v.len(),
            v@ == s@,
            trim_char(s@, c) == trim_char(v@.subrange(lo as int, hi as int), c),
        decreases hi - lo,
    {
        let ghost w = v@.subrange(lo as int, hi as int);
        if v[lo] == c {
            assert(w.drop_first() =~= v@.subrange(lo + 1, hi as int));
            lo = lo + 1;
        } else {
            assert(w.drop_last() =~= v@.subrange(lo as int, hi - 1));
            hi = hi - 1;
        }
    }
    let mut out: Vec<char> = Vec::new();
    let mut k: usize = lo;
    while k < hi
        invariant
            lo <= k <= hi <= v.len(),
            out@ == v@.subrange(lo as int, k as int),
        decreases hi - k,
    {
        out.push(v[k]);
        assert(v@.subrange(lo as int, k + 1) =~= v@.subrange(lo as int, k as int).push(v@[k as int]));
        k = k + 1;
    }
    crate::text::string_from_chars(out.as_slice())
}

/// The `requires-python` value on the first `requires-python = ` line of
/// `uv.lock`, with surrounding double, then single, quotes removed.
pub open spec fn uv_lock_requires_python(ls: Seq<Seq<char>>) -> Option<Seq<char>>
    decreases ls.len(),
{
    if ls.len() == 0 {
        None
    } else if crate::text::has_prefix(ls[0], "requires-python = "@) {
        Some(trim_char(trim_char(ls[0].skip(18), '"'), '\''))
    } else {
        uv_lock_requires_python(ls.drop_first())
    }
}

/// The Python requirement written in `uv.lock`, if any.
pub fn read_uv_lock_python(content: &str) -> (r: Option<String>)
    ensures
        match r {
            Some(x) => uv_lock_requires_python(crate::text::lines_of(content@)) == Some(x@),
            None => uv_lock_requires_python(crate::text::lines_of(content@)) is None,
        },
{
    let ls = crate::text::lines(content);
    let ghost lv = views(ls@);
    let mut i: usize = 0;
    assert(lv.skip(0) =~= lv);
    while i < ls.len()
        invariant
            i <= ls.len(),
            lv == views(ls@),
            lv == crate::text::lines_of(content@),
            uv_lock_requires_python(lv) == uv_lock_requires_python(lv.skip(i as int)),
        decreases ls.len() - i,
    {
        assert(lv.skip(i as int)[0] == ls@[i as int]@);
        let line = ls[i].as_str();
        if crate::text::starts_with(line, "requires-python = ") {
            proof {
                reveal_strlit("requires-python = ");
            }
            let v = chars_of(line);
            let rest = crate::text::string_from_chars(v.as_slice().split_at(18).1);
            assert(v@.subrange(18, v@.len() as int) =~= line@.skip(18));
            let a = trim_matches_char(rest.as_str(), '"');
            let b = trim_matches_char(a.as_str(), '\'');
            return Some(b);
        }
        assert(lv.skip(i as int).drop_first() =~= lv.skip(i as int + 1));
        i = i + 1;
    }
    None
}

/// The version in `python --version` output (`Python 3.12.1`), trimmed.
pub open spec fn python_version_text(out: Seq<char>) -> Option<Seq<char>> {
    let t = crate::text::trim(out);
    if crate::text::has_prefix(t, "Python "@) {
        Some(t.skip(7))
    } else {
        None
    }
}

/// The version in `python --version` output.
pub fn python_version_of(output: &str) -> (r: Option<String>)
    ensures
        match r {
            Some(x) => python_version_text(output@) == Some(x@),
            None => python_version_text(output@) is None,
        },
{
    let t = crate::text::trim_string(output);
    if crate::text::starts_with(t.as_str(), "Python ") {
        proof {
            reveal_strlit("Python ");
        }
        let v = chars_of(t.as_str());
        let rest = crate::text::string_from_chars(v.as_slice().split_at(7).1);
        assert(v@.subrange(7, v@.len() as int) =~= t@.skip(7));
        Some(rest)
    } else {
        None
    }
}

/// A project's Python requirement: the version requirement as `semver`
/// reads it and, for a plain `3.12`-style version, its major and minor.
#[derive(Debug)]
pub struct PythonRequirement {
    /// The requirement text, such as `>=3.10,<3.13` or `~3.12`.
    pub version: String,
    /// The minor version asked for, if the project names one.
    pub minor: Option<(u8, u8)>,
}

/// A requirement as plain values.
pub open spec fn requirement_view(r: Option<PythonRequirement>) -> Option<(Seq<char>, Option<(u8, u8)>)> {
    match r {
        Some(x) => Some((x.version@, x.minor)),
        None => None,
    }
}

/// `~major.minor`: any patch release of that minor version.
pub open spec fn tilde_req(major: u8, minor: u8) -> Seq<char> {
    "~"@ + decimal(major as nat) + "."@ + decimal(minor as nat)
}

/// The text as a requirement of its own, if `semver` accepts it.
pub open spec fn plain_requirement(t: Seq<char>) -> Option<(Seq<char>, Option<(u8, u8)>)> {
    if semver_req_valid(t) {
        Some((t, None))
    } else {
        None
    }
}

/// The requirement a version string gives (trimmed): a plain `3.12` or
/// `3.12.1` asks for `~3.12` and remembers the minor version; anything else
/// is read as a requirement as it stands.
pub open spec fn requirement_of(s: Seq<char>) -> Option<(Seq<char>, Option<(u8, u8)>)> {
    let t = crate::text::trim(s);
    match simple_version(t) {
        Some(mm) => if semver_req_valid(tilde_req(mm.0, mm.1)) {
            Some((tilde_req(mm.0, mm.1), Some(mm)))
        } else {
            plain_requirement(t)
        },
        None => plain_requirement(t),
    }
}

/// Parses a Python version string into a requirement.
pub fn parse_python_version(version_str: &str) -> (r: Option<PythonRequirement>)
    ensures
        requirement_view(r) == requirement_of(version_str@),
{
    let t = crate::text::trim_string(version_str);
    match parse_simple_version(t.as_str()) {
        Some((major, minor)) => {
            let mut req = owned("~");
            req.append(decimal_string(major as usize).as_str());
            req.append(".");
            req.append(decimal_string(minor as usize).as_str());
            if requirement_parses(req.as_str()) {
                return Some(PythonRequirement { version: req, minor: Some((major, minor)) });
            }
        },
        None => {},
    }
    if requirement_parses(t.as_str()) {
        Some(PythonRequirement { version: t, minor: None })
    } else {
        None
    }
}

/// `requires-python` of `[project]` in `pyproject.toml`, as a requirement.
pub open spec fn pyproject_requirement(content: Seq<char>) -> Option<(Seq<char>, Option<(u8, u8)>)> {
    match toml_table_string(content, "project"@, "requires-python"@) {
        Some(x) => requirement_of(x),
        None => None,
    }
}

/// The requirement in `uv.lock`, if it names one that parses.
pub open spec fn lock_requirement(content: Seq<char>) -> Option<(Seq<char>, Option<(u8, u8)>)> {
    match uv_lock_requires_python(crate::text::lines_of(content)) {
        Some(x) => requirement_of(x),
        None => None,
    }
}

/// The first requirement found: `.python-version`, then `uv.lock`, then
/// `pyproject.toml`.
pub open spec fn project_requirement(
    python_version_file: Option<Seq<char>>,
    uv_lock: Option<Seq<char>>,
    pyproject: Option<Seq<char>>,
) -> Option<(Seq<char>, Option<(u8, u8)>)> {
    let a = match python_version_file {
        Some(c) => requirement_of(crate::text::trim(c)),
        None => None,
    };
    let b = match uv_lock {
        Some(c) => lock_requirement(c),
        None => None,
    };
    let c = match pyproject {
        Some(p) => pyproject_requirement(p),
        None => None,
    };
    if a is Some {
        a
    } else if b is Some {
        b
    } else {
        c
    }
}

pub open spec fn str_opt(o: Option<&str>) -> Option<Seq<char>> {
    match o {
        Some(s) => Some(s@),
        None => None,
    }
}

/// The Python requirement of a project, from the contents of its
/// `.python-version`, `uv.lock` and `pyproject.toml` (those that exist).
pub fn find_python_requirement(
    python_version_file: Option<&str>,
    uv_lock: Option<&str>,
    pyproject: Option<&str>,
) -> (r: Option<PythonRequirement>)
    ensures
        requirement_view(r) == project_requirement(str_opt(python_version_file), str_opt(uv_lock), str_opt(pyproject)),
{
    match python_version_file {
        Some(c) => {
            let t = crate::text::trim_string(c);
            let r = parse_python_version(t.as_str());
            if r.is_some() {
                return r;
            }
        },
        None => {},
    }
    match uv_lock {
        Some(c) => match read_uv_lock_python(c) {
            Some(x) => {
                let r = parse_python_version(x.as_str());
                if r.is_some() {
                    return r;
                }
            },
            None => {},
        },
        None => {},
    }
    match pyproject {
        Some(p) => match toml_string_at(p, "project", "requires-python") {
            Some(x) => parse_python_version(x.as_str()),
            None => None,
        },
        None => None,
    }
}

/// The nixpkgs attrs to try for a requirement, in order: the exact minor
/// version's interpreter when one is named, then the default `python3`.
pub open spec fn python_attr_candidates(minor: Option<(u8, u8)>) -> Seq<Seq<char>> {
    match minor {
        Some(mm) => seq!["python"@ + decimal(mm.0 as nat) + decimal(mm.1 as nat), "python3"@],
        None => seq!["python3"@],
    }
}

/// The interpreter attrs to try for a requirement.
pub fn python_candidates(req: &PythonRequirement) -> (r: Vec<String>)
    ensures
        views(r@) == python_attr_candidates(req.minor),
{
    let mut r: Vec<String> = Vec::new();
    match req.minor {
        Some((major, minor)) => r.push(python_attr(major, minor)),
        None => {},
    }
    r.push(owned("python3"));
    proof {
        assert(views(r@) =~= python_attr_candidates(req.minor));
    }
    r
}

/// The expression `nix build` evaluates for an interpreter attr.
pub open spec fn python_build_text(pkgs_expr: Seq<char>, attr: Seq<char>) -> Seq<char> {
    if attr == "python3"@ {
        "("@ + pkgs_expr + ")"@
    } else {
        "("@ + pkgs_expr + ")."@ + attr
    }
}

/// The expression that builds an interpreter attr from nixpkgs.
pub fn python_build_expr(pkgs_expr: &str, attr: &str) -> (r: String)
    ensures
        r@ == python_build_text(pkgs_expr@, attr@),
{
    let mut r = owned("(");
    r.append(pkgs_expr);
    r.append(")");
    if !crate::text::str_eq(attr, "python3") {
        r.append(".");
        r.append(attr);
        assert(r@ =~= "("@ + pkgs_expr@ + ")."@ + attr@) by {
            reveal_strlit(").");
            reveal_strlit(")");
            reveal_strlit(".");
        }
    }
    r
}

/// Whether `python --version` output names a version the requirement
/// matches.
pub open spec fn version_accepted(req: Seq<char>, output: Seq<char>) -> bool {
    match python_version_text(output) {
        Some(t) => match semver_parse(t) {
            Some(v) => semver_req_matches(req, v),
            None => false,
        },
        None => false,
    }
}

/// Whether an interpreter whose `--version` printed `output` satisfies the
/// requirement.
pub fn python_version_accepted(req: &PythonRequirement, output: &str) -> (r: bool)
    ensures
        r == version_accepted(req.version@, output@),
{
    match python_version_of(output) {
        Some(t) => match parse_version(t.as_str()) {
            Some(v) => requirement_matches(req.version.as_str(), &v),
            None => false,
        },
        None => false,
    }
}

} // verus!
