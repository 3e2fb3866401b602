//! What patching a native binary does: the rpath `patchelf` sets on ELF
//! files, the install-name changes `install_name_tool` makes on Mach-O files,
//! and the checks that pick out native binaries.
use vstd::prelude::*;

use crate::nix_config::NixConfig;
use crate::text::{
    contains, contains_seq, has_prefix, join_strings, join_with, owned, split_char, split_on,
    starts_with, views,
};

verus! {

/// How native binaries are patched.
#[derive(Debug)]
pub struct PatchConfig {
    /// `patchelf` (Linux) or `install_name_tool` (Darwin).
    pub patcher: String,
    /// Dynamic linker (Linux only).
    pub interpreter: Option<String>,
    /// Rpath entries set on patched binaries.
    pub rpath: Vec<String>,
    /// Running on Darwin.
    pub is_darwin: bool,
    /// Extra install-name prefixes that are never rewritten on macOS.
    pub safe_prefixes: Vec<String>,
}

/// The non-empty entries of a colon-separated path list.
pub open spec fn nonempty_entries(parts: Seq<Seq<char>>) -> Seq<Seq<char>>
    decreases parts.len(),
{
    if parts.len() == 0 {
        Seq::empty()
    } else {
        let r = nonempty_entries(parts.drop_last());
        if parts.last().len() == 0 {
            r
        } else {
            r.push(parts.last())
        }
    }
}

/// The non-empty entries of a colon-separated path list, in order.
pub fn path_entries(list: &str) -> (r: Vec<String>)
    ensures
        views(r@) == nonempty_entries(split_on(list@, ':')),
{
    let parts = split_char(list, ':');
    let ghost pv = views(parts@);
    let mut r: Vec<String> = Vec::new();
    let mut i: usize = 0;
    while i < parts.len()
        invariant
            i <= parts.len(),
            pv == views(parts@),
            views(r@) == nonempty_entries(pv.take(i as int)),
        decreases parts.len() - i,
    {
        assert(pv.take(i as int + 1).drop_last() =~= pv.take(i as int));
        assert(pv.take(i as int + 1).last() == parts@[i as int]@);
        if !parts[i].as_str().is_empty() {
            let ghost r0 = r@;
            r.push(parts[i].clone());
            assert(views(r@) =~= views(r0).push(parts@[i as int]@));
        }
        i = i + 1;
    }
    assert(pv.take(parts.len() as int) =~= pv);
    r
}

impl PatchConfig {
    /// The patch configuration the resolved Nix configuration gives: no
    /// interpreter on Darwin or when none is set; the rpath's non-empty entries.
    pub fn from_env(nix: &NixConfig, safe_prefixes: Vec<String>) -> (r: Self)
        ensures
            r.patcher@ == nix.patcher@,
            r.is_darwin == nix.is_darwin,
            match r.interpreter {
                Some(i) => !nix.is_darwin && nix.interpreter@.len() > 0 && i@ == nix.interpreter@,
                None => nix.is_darwin || nix.interpreter@.len() == 0,
            },
            views(r.rpath@) == nonempty_entries(split_on(nix.rpath@, ':')),
            r.safe_prefixes@ == safe_prefixes@,
    {
        let interpreter = if nix.is_darwin || nix.interpreter.as_str().is_empty() {
            None
        } else {
            Some(nix.interpreter.clone())
        };
        PatchConfig {
            patcher: nix.patcher.clone(),
            interpreter,
            rpath: path_entries(nix.rpath.as_str()),
            is_darwin: nix.is_darwin,
            safe_prefixes,
        }
    }

    /// The configuration with explicit overrides applied: the patcher and
    /// interpreter (never on Darwin) replace the base's when given; a
    /// non-empty rpath string replaces the base rpath by all its entries.
    pub fn from_overrides(
        base: PatchConfig,
        patchelf: Option<String>,
        interpreter: Option<String>,
        rpath: Option<String>,
    ) -> (r: Self)
        ensures
            r.patcher@ == (match patchelf {
                Some(p) => p@,
                None => base.patcher@,
            }),
            r.is_darwin == base.is_darwin,
            r.interpreter == (if base.is_darwin {
                None
            } else {
                match interpreter {
                    Some(i) => Some(i),
                    None => base.interpreter,
                }
            }),
            views(r.rpath@) == (match rpath {
                Some(s) => if s@.len() > 0 {
                    split_on(s@, ':')
                } else {
                    views(base.rpath@)
                },
                None => views(base.rpath@),
            }),
            r.safe_prefixes@ == base.safe_prefixes@,
    {
        let patcher = match patchelf {
            Some(p) => p,
            None => base.patcher,
        };
        let interp = if base.is_darwin {
            None
        } else {
            match interpreter {
                Some(i) => Some(i),
                None => base.interpreter,
            }
        };
        let rpath_entries = match rpath {
            Some(s) => if !s.as_str().is_empty() {
                split_char(s.as_str(), ':')
            } else {
                base.rpath
            },
            None => base.rpath,
        };
        PatchConfig {
            patcher,
            interpreter: interp,
            rpath: rpath_entries,
            is_darwin: base.is_darwin,
            safe_prefixes: base.safe_prefixes,
        }
    }

    /// The patcher (older name).
    pub fn patchelf(&self) -> (r: &String)
        ensures
            r == &self.patcher,
    {
        &self.patcher
    }
}

// ---------------------------------------------------------------------------
// Recognizing native binaries
// ---------------------------------------------------------------------------
/// The first four bytes of a file are the ELF magic `\x7fELF`.
pub open spec fn elf_magic(h: Seq<u8>) -> bool {
    h.len() >= 4 && h[0] == 0x7fu8 && h[1] == 0x45u8 && h[2] == 0x4cu8 && h[3] == 0x46u8
}

/// The first four bytes of a file are a Mach-O or universal magic, in either
/// byte order.
pub open spec fn macho_magic(h: Seq<u8>) -> bool {
    h.len() >= 4 && ((h[0] == 0xfeu8 && h[1] == 0xedu8 && h[2] == 0xfau8 && (h[3] == 0xceu8
        || h[3] == 0xcfu8)) || ((h[0] == 0xceu8 || h[0] == 0xcfu8) && h[1] == 0xfau8 && h[2]
        == 0xedu8 && h[3] == 0xfeu8) || (h[0] == 0xcau8 && h[1] == 0xfeu8 && h[2] == 0xbau8
        && h[3] == 0xbeu8) || (h[0] == 0xbeu8 && h[1] == 0xbau8 && h[2] == 0xfeu8 && h[3]
        == 0xcau8))
}

/// Whether the start of a file is a native binary of the platform (ELF on
/// Linux, Mach-O on Darwin). `header` holds the file's first bytes (up to four).
pub fn is_native_binary(header: &[u8], is_darwin: bool) -> (r: bool)
    ensures
        r == if is_darwin {
            macho_magic(header@)
        } else {
            elf_magic(header@)
        },
{
    if header.len() < 4 {
        return false;
    }
    let (a, b, c, d) = (header[0], header[1], header[2], header[3]);
    if is_darwin {
        (a == 0xfe && b == 0xed && c == 0xfa && (d == 0xce || d == 0xcf)) || ((a == 0xce || a
            == 0xcf) && b == 0xfa && c == 0xed && d == 0xfe) || (a == 0xca && b == 0xfe && c
            == 0xba && d == 0xbe) || (a == 0xbe && b == 0xba && c == 0xfe && d == 0xca)
    } else {
        a == 0x7f && b == 0x45 && c == 0x4c && d == 0x46
    }
}

/// Whether a file's bytes hold `/nix/store/` (a Mach-O binary patched before).
pub open spec fn holds_nix_store(bytes: Seq<u8>) -> bool {
    exists|i: int| #[trigger] store_at(bytes, i)
}

/// `/nix/store/` starts at index `i`.
pub open spec fn store_at(bytes: Seq<u8>, i: int) -> bool {
    0 <= i && i + 11 <= bytes.len() && bytes.subrange(i, i + 11) == nix_store_bytes()
}

/// The bytes of `/nix/store/`.
pub open spec fn nix_store_bytes() -> Seq<u8> {
    seq![0x2fu8, 0x6eu8, 0x69u8, 0x78u8, 0x2fu8, 0x73u8, 0x74u8, 0x6fu8, 0x72u8, 0x65u8, 0x2fu8]
}

/// Whether the bytes of a file hold `/nix/store/`.
pub fn contains_nix_store(bytes: &[u8]) -> (r: bool)
    ensures
        r == holds_nix_store(bytes@),
{
    let pat: [u8; 11] = [0x2f, 0x6e, 0x69, 0x78, 0x2f, 0x73, 0x74, 0x6f, 0x72, 0x65, 0x2f];
    assert(pat@ =~= nix_store_bytes());
    if bytes.len() < 11 {
        return false;
    }
    let mut i: usize = 0;
    while i <= bytes.len() - 11
        invariant
            pat@ == nix_store_bytes(),
            bytes.len() >= 11,
            i <= bytes.len() - 10,
            forall|k: int| 0 <= k < i ==> !#[trigger] store_at(bytes@, k),
        decreases bytes.len() - i,
    {
        let mut j: usize = 0;
        let mut ok = true;
        while j < 11
            invariant
                j <= 11,
                i + 11 <= bytes.len(),
                pat@ == nix_store_bytes(),
                ok == (forall|m: int| 0 <= m < j ==> bytes@[i + m] == pat@[m]),
            decreases 11 - j,
        {
            if bytes[i + j] != pat[j] {
                ok = false;
            }
            j = j + 1;
        }
        if ok {
            assert(bytes@.subrange(i as int, i + 11) =~= nix_store_bytes());
            assert(store_at(bytes@, i as int));
            return true;
        }
        proof {
            let m = choose|m: int| 0 <= m < 11 && bytes@[i + m] != pat@[m];
            assert(bytes@.subrange(i as int, i + 11)[m] != nix_store_bytes()[m]);
        }
        i = i + 1;
    }
    assert forall|k: int| !#[trigger] store_at(bytes@, k) by {
        if store_at(bytes@, k) {
            assert(k < i);
        }
    }
    false
}

// ---------------------------------------------------------------------------
// ELF: the rpath to set
// ---------------------------------------------------------------------------
/// The rpath `patchelf --set-rpath` gets: the existing rpath (kept for the
/// wheel's `$ORIGIN` paths), `$ORIGIN` unless present, then the Nix entries.
/// `None` when the existing rpath already holds a Nix store path.
pub open spec fn elf_rpath_spec(existing: Seq<char>, nix_rpath: Seq<Seq<char>>) -> Option<Seq<char>> {
    if contains_seq(existing, "/nix/store"@) {
        None
    } else {
        let first = if existing.len() > 0 {
            seq![existing]
        } else {
            Seq::empty()
        };
        let origin = if contains_seq(existing, "$ORIGIN"@) {
            Seq::empty()
        } else {
            seq!["$ORIGIN"@]
        };
        Some(join_with(first + origin + seq![join_with(nix_rpath, ':')], ':'))
    }
}

/// Patching twice changes nothing: once the Nix rpath (holding a store
/// path) was set, the next plan finds the binary patched.
pub proof fn lemma_elf_patch_idempotent(existing: Seq<char>, nix_rpath: Seq<Seq<char>>, k: int)
    requires
        0 <= k < nix_rpath.len(),
        contains_seq(nix_rpath[k], "/nix/store"@),
        elf_rpath_spec(existing, nix_rpath) is Some,
    ensures
        elf_rpath_spec(elf_rpath_spec(existing, nix_rpath)->0, nix_rpath) is None,
{
    let first = if existing.len() > 0 {
        seq![existing]
    } else {
        Seq::empty()
    };
    let origin = if contains_seq(existing, "$ORIGIN"@) {
        Seq::empty()
    } else {
        seq!["$ORIGIN"@]
    };
    let parts = first + origin + seq![join_with(nix_rpath, ':')];
    crate::text::lemma_join_contains(nix_rpath, ':', k, "/nix/store"@);
    assert(parts[parts.len() - 1] == join_with(nix_rpath, ':'));
    crate::text::lemma_join_contains(parts, ':', parts.len() - 1, "/nix/store"@);
}

/// Ensuring `$ORIGIN` twice changes nothing the second time.
pub proof fn lemma_origin_idempotent(existing: Seq<char>)
    requires
        origin_rpath_spec(existing) is Some,
    ensures
        origin_rpath_spec(origin_rpath_spec(existing)->0) is None,
{
    let o = "$ORIGIN"@;
    reveal_strlit("$ORIGIN");
    reveal_strlit(":$ORIGIN");
    if existing.len() == 0 {
        assert(o.subrange(0, o.len() as int) =~= o);
        assert(occurs_at_origin(o, 0));
    } else {
        let x = existing + ":$ORIGIN"@;
        let i = existing.len() + 1int;
        assert(x.subrange(i, i + o.len()) =~= o);
        assert(occurs_at_origin(x, i));
    }
}

spec fn occurs_at_origin(s: Seq<char>, i: int) -> bool {
    crate::text::occurs_at(s, i, "$ORIGIN"@)
}

/// The rpath to set on an ELF binary, or `None` when it is patched already.
pub fn elf_rpath_plan(existing: &str, rpath: &Vec<String>) -> (r: Option<String>)
    ensures
        match r {
            Some(s) => elf_rpath_spec(existing@, views(rpath@)) == Some(s@),
            None => elf_rpath_spec(existing@, views(rpath@)) is None,
        },
{
    if contains(existing, "/nix/store") {
        return None;
    }
    let mut parts: Vec<String> = Vec::new();
    if !existing.is_empty() {
        parts.push(owned(existing));
    }
    if !contains(existing, "$ORIGIN") {
        parts.push(owned("$ORIGIN"));
    }
    parts.push(join_strings(rpath, ':'));
    let ghost first = if existing@.len() > 0 {
        seq![existing@]
    } else {
        Seq::empty()
    };
    let ghost origin = if contains_seq(existing@, "$ORIGIN"@) {
        Seq::empty()
    } else {
        seq!["$ORIGIN"@]
    };
    assert(views(parts@) =~= first + origin + seq![join_with(views(rpath@), ':')]);
    Some(join_strings(&parts, ':'))
}

/// The entries of a split rpath that stay on a forced rebuild: the non-empty
/// ones outside the Nix store, in order.
pub open spec fn non_store_entries(parts: Seq<Seq<char>>) -> Seq<Seq<char>>
    decreases parts.len(),
{
    if parts.len() == 0 {
        Seq::empty()
    } else {
        let r = non_store_entries(parts.drop_last());
        let p = parts.last();
        if p.len() > 0 && !contains_seq(p, "/nix/store"@) {
            r.push(p)
        } else {
            r
        }
    }
}

/// The rpath a forced rebuild sets: the existing entries outside the Nix
/// store (the wheel's own paths), `$ORIGIN` unless one of them holds it, then
/// the current Nix entries. Store paths set by an earlier patch are replaced.
pub open spec fn forced_rpath_spec(existing: Seq<char>, nix_rpath: Seq<Seq<char>>) -> Seq<char> {
    let kept = non_store_entries(split_on(existing, ':'));
    let origin = if contains_seq(join_with(kept, ':'), "$ORIGIN"@) {
        Seq::empty()
    } else {
        seq!["$ORIGIN"@]
    };
    join_with(kept + origin + seq![join_with(nix_rpath, ':')], ':')
}

/// The rpath to set, with or without `--force`: forced, always the rebuilt
/// rpath; else as `elf_rpath_spec`.
pub open spec fn elf_rpath_plan_spec(existing: Seq<char>, nix_rpath: Seq<Seq<char>>, force: bool) -> Option<
    Seq<char>,
> {
    if force {
        Some(forced_rpath_spec(existing, nix_rpath))
    } else {
        elf_rpath_spec(existing, nix_rpath)
    }
}

/// An rpath entry that a forced rebuild keeps as it is: non-empty, outside
/// the Nix store, a single entry.
pub open spec fn own_entry(e: Seq<char>) -> bool {
    e.len() > 0 && !contains_seq(e, "/nix/store"@) && !e.contains(':')
}

proof fn lemma_non_store_own(parts: Seq<Seq<char>>)
    requires
        forall|k: int| 0 <= k < parts.len() ==> !(#[trigger] parts[k]).contains(':'),
    ensures
        forall|k: int| 0 <= k < non_store_entries(parts).len() ==> own_entry(
            #[trigger] non_store_entries(parts)[k],
        ),
    decreases parts.len(),
{
    if parts.len() > 0 {
        let init = parts.drop_last();
        assert forall|k: int| 0 <= k < init.len() implies !(#[trigger] init[k]).contains(':') by {
            assert(init[k] == parts[k]);
        }
        lemma_non_store_own(init);
        assert(!parts.last().contains(':')) by {
            assert(parts[parts.len() - 1] == parts.last());
        }
        let r = non_store_entries(init);
        let n = non_store_entries(parts);
        assert forall|k: int| 0 <= k < n.len() implies own_entry(#[trigger] n[k]) by {
            if k < r.len() {
                assert(n[k] == r[k]);
            } else {
                assert(n[k] == parts.last());
            }
        }
    }
}

proof fn lemma_non_store_append(a: Seq<Seq<char>>, b: Seq<Seq<char>>)
    ensures
        non_store_entries(a + b) == non_store_entries(a) + non_store_entries(b),
    decreases b.len(),
{
    if b.len() == 0 {
        assert(a + b =~= a);
        assert(non_store_entries(a) + non_store_entries(b) =~= non_store_entries(a));
    } else {
        lemma_non_store_append(a, b.drop_last());
        assert((a + b).drop_last() =~= a + b.drop_last());
        assert((a + b).last() == b.last());
        let x = non_store_entries(a);
        let y = non_store_entries(b.drop_last());
        assert(x + y.push(b.last()) =~= (x + y).push(b.last()));
    }
}

proof fn lemma_non_store_fixed(a: Seq<Seq<char>>)
    requires
        forall|k: int| 0 <= k < a.len() ==> own_entry(#[trigger] a[k]),
    ensures
        non_store_entries(a) == a,
    decreases a.len(),
{
    if a.len() > 0 {
        let init = a.drop_last();
        assert forall|k: int| 0 <= k < init.len() implies own_entry(#[trigger] init[k]) by {
            assert(init[k] == a[k]);
        }
        lemma_non_store_fixed(init);
        assert(own_entry(a[a.len() - 1]));
        assert(init.push(a.last()) =~= a);
    }
}

proof fn lemma_non_store_none(n: Seq<Seq<char>>)
    requires
        forall|k: int| 0 <= k < n.len() ==> contains_seq(#[trigger] n[k], "/nix/store"@),
    ensures
        non_store_entries(n) == Seq::<Seq<char>>::empty(),
    decreases n.len(),
{
    if n.len() > 0 {
        let init = n.drop_last();
        assert forall|k: int| 0 <= k < init.len() implies contains_seq(
            #[trigger] init[k],
            "/nix/store"@,
        ) by {
            assert(init[k] == n[k]);
        }
        lemma_non_store_none(init);
        assert(contains_seq(n[n.len() - 1], "/nix/store"@));
    }
}

/// Forcing twice sets what forcing once set: after a forced rebuild with Nix
/// entries that are store paths (none holding `:`), a second one with the
/// same entries keeps the rpath as it is, and a plan without `--force` finds
/// the binary patched.
pub proof fn lemma_forced_rpath_stable(existing: Seq<char>, nix_rpath: Seq<Seq<char>>)
    requires
        nix_rpath.len() > 0,
        forall|k: int|
            0 <= k < nix_rpath.len() ==> contains_seq(#[trigger] nix_rpath[k], "/nix/store"@)
                && !nix_rpath[k].contains(':'),
    ensures
        forced_rpath_spec(forced_rpath_spec(existing, nix_rpath), nix_rpath) == forced_rpath_spec(
            existing,
            nix_rpath,
        ),
        elf_rpath_spec(forced_rpath_spec(existing, nix_rpath), nix_rpath) is None,
{
    let o = "$ORIGIN"@;
    let st = "/nix/store"@;
    reveal_strlit("$ORIGIN");
    reveal_strlit("/nix/store");
    let kept = non_store_entries(split_on(existing, ':'));
    let origin = if contains_seq(join_with(kept, ':'), o) {
        Seq::empty()
    } else {
        seq![o]
    };
    let a = kept + origin;
    let j = join_with(nix_rpath, ':');
    let once = forced_rpath_spec(existing, nix_rpath);
    assert(once == join_with(a + seq![j], ':'));
    crate::text::lemma_join_contains(nix_rpath, ':', 0, st);
    assert((a + seq![j])[a.len() as int] == j);
    crate::text::lemma_join_contains(a + seq![j], ':', a.len() as int, st);
    // Every kept entry, and `$ORIGIN`, is an entry a forced rebuild keeps.
    crate::text::lemma_split_pieces_free(existing, ':');
    lemma_non_store_own(split_on(existing, ':'));
    assert(own_entry(o)) by {
        assert(!contains_seq(o, st)) by {
            if contains_seq(o, st) {
                let i = choose|i: int| crate::text::occurs_at(o, i, st);
                assert(i + st.len() <= o.len());
            }
        }
        assert(!o.contains(':')) by {
            if o.contains(':') {
                let k = choose|k: int| 0 <= k < o.len() && o[k] == ':';
                assert(o[k] != ':');
            }
        }
    }
    assert forall|k: int| 0 <= k < a.len() implies own_entry(#[trigger] a[k]) by {
        if k < kept.len() {
            assert(a[k] == kept[k]);
        } else {
            assert(a[k] == o);
        }
    }
    assert(a.len() > 0) by {
        if kept.len() == 0 {
            assert(join_with(kept, ':').len() == 0);
            assert(!contains_seq(join_with(kept, ':'), o));
        }
    }
    // The rebuilt rpath splits into those entries and the Nix entries.
    crate::text::lemma_join_append(a, nix_rpath, ':');
    assert((a + seq![j]).drop_last() =~= a);
    assert(once == join_with(a + nix_rpath, ':'));
    assert forall|k: int| 0 <= k < (a + nix_rpath).len() implies !(#[trigger] (a + nix_rpath)[k]).contains(':') by {
        if k < a.len() {
            assert((a + nix_rpath)[k] == a[k]);
            assert(own_entry(a[k]));
        } else {
            assert((a + nix_rpath)[k] == nix_rpath[k - a.len()]);
        }
    }
    crate::text::lemma_join_split(a + nix_rpath, ':');
    lemma_non_store_append(a, nix_rpath);
    lemma_non_store_fixed(a);
    lemma_non_store_none(nix_rpath);
    assert(a + Seq::<Seq<char>>::empty() =~= a);
    assert(non_store_entries(split_on(once, ':')) == a);
    // `$ORIGIN` is among them, so it is not added again.
    assert(contains_seq(join_with(a, ':'), o)) by {
        if origin.len() == 0 {
            assert(a =~= kept);
        } else {
            assert(a[a.len() - 1] == o);
            assert(o.subrange(0, o.len() as int) =~= o);
            assert(crate::text::occurs_at(o, 0, o));
            crate::text::lemma_join_contains(a, ':', a.len() - 1, o);
        }
    }
    assert(a + Seq::<Seq<char>>::empty() + seq![j] =~= a + seq![j]);
}

/// The entries of a split rpath outside the Nix store, in order.
fn kept_entries(existing: &str) -> (r: Vec<String>)
    ensures
        views(r@) == non_store_entries(split_on(existing@, ':')),
{
    let parts = split_char(existing, ':');
    let ghost pv = views(parts@);
    let mut r: Vec<String> = Vec::new();
    let mut i: usize = 0;
    while i < parts.len()
        invariant
            i <= parts.len(),
            pv == views(parts@),
            views(r@) == non_store_entries(pv.take(i as int)),
        decreases parts.len() - i,
    {
        assert(pv.take(i as int + 1).drop_last() =~= pv.take(i as int));
        assert(pv.take(i as int + 1).last() == parts@[i as int]@);
        if !parts[i].as_str().is_empty() && !contains(parts[i].as_str(), "/nix/store") {
            let ghost r0 = r@;
            r.push(parts[i].clone());
            assert(views(r@) =~= views(r0).push(parts@[i as int]@));
        }
        i = i + 1;
    }
    assert(pv.take(parts.len() as int) =~= pv);
    r
}

/// The rpath to set on an ELF binary. Without `force`, `None` when it is
/// patched already (as `elf_rpath_plan`); with `force`, the rpath rebuilt
/// from the binary's own entries and the current Nix entries.
pub fn elf_rpath_plan_with(existing: &str, rpath: &Vec<String>, force: bool) -> (r: Option<String>)
    ensures
        match r {
            Some(s) => elf_rpath_plan_spec(existing@, views(rpath@), force) == Some(s@),
            None => elf_rpath_plan_spec(existing@, views(rpath@), force) is None,
        },
{
    if !force {
        return elf_rpath_plan(existing, rpath);
    }
    let mut parts = kept_entries(existing);
    let ghost kept = views(parts@);
    let joined = join_strings(&parts, ':');
    if !contains(joined.as_str(), "$ORIGIN") {
        parts.push(owned("$ORIGIN"));
    }
    parts.push(join_strings(rpath, ':'));
    let ghost origin = if contains_seq(join_with(kept, ':'), "$ORIGIN"@) {
        Seq::empty()
    } else {
        seq!["$ORIGIN"@]
    };
    assert(views(parts@) =~= kept + origin + seq![join_with(views(rpath@), ':')]);
    Some(join_strings(&parts, ':'))
}

/// Whether a Mach-O binary is left alone: not forced, and its bytes hold
/// `/nix/store/` (it was patched before).
pub fn macho_skip(bytes: &[u8], force: bool) -> (r: bool)
    ensures
        r == (!force && holds_nix_store(bytes@)),
{
    !force && contains_nix_store(bytes)
}

/// Whether a failed `--set-interpreter` only hit a shared library (which has
/// no `.interp` section).
pub fn interp_error_ignorable(stderr: &str) -> (r: bool)
    ensures
        r == contains_seq(crate::text::trim(stderr@), "cannot find section '.interp'"@),
{
    let t = crate::text::trim_string(stderr);
    contains(t.as_str(), "cannot find section '.interp'")
}

/// The rpath that adds `$ORIGIN` for bundled sibling libraries: `None` when
/// it is there already.
pub open spec fn origin_rpath_spec(existing: Seq<char>) -> Option<Seq<char>> {
    if contains_seq(existing, "$ORIGIN"@) {
        None
    } else if existing.len() == 0 {
        Some("$ORIGIN"@)
    } else {
        Some(existing + ":$ORIGIN"@)
    }
}

/// The rpath that ensures `$ORIGIN`, or `None` when nothing needs changing.
pub fn origin_rpath(existing: &str) -> (r: Option<String>)
    ensures
        match r {
            Some(s) => origin_rpath_spec(existing@) == Some(s@),
            None => origin_rpath_spec(existing@) is None,
        },
{
    if contains(existing, "$ORIGIN") {
        return None;
    }
    if existing.is_empty() {
        return Some(owned("$ORIGIN"));
    }
    let mut r = owned(existing);
    r.append(":$ORIGIN");
    Some(r)
}

/// What patching one binary with its own rpaths does.
#[derive(Debug, PartialEq, Eq, Structural)]
pub enum TargetedAction {
    /// Rewrite the Mach-O binary with these rpaths.
    Macho,
    /// Only make sure `$ORIGIN` is in the rpath.
    EnsureOrigin,
    /// Patch the ELF binary with these rpaths.
    Elf,
}

/// How a binary is patched with only the rpaths it needs: Mach-O on Darwin;
/// on Linux, just `$ORIGIN` when it needs no Nix rpath but has bundled
/// dependencies, else an ELF patch.
pub fn targeted_action(is_darwin: bool, rpaths_empty: bool, needs_origin: bool) -> (r: TargetedAction)
    ensures
        r == (if is_darwin {
            TargetedAction::Macho
        } else if rpaths_empty && needs_origin {
            TargetedAction::EnsureOrigin
        } else {
            TargetedAction::Elf
        }),
{
    if is_darwin {
        TargetedAction::Macho
    } else if rpaths_empty && needs_origin {
        TargetedAction::EnsureOrigin
    } else {
        TargetedAction::Elf
    }
}

// ---------------------------------------------------------------------------
// Mach-O: install-name changes
// ---------------------------------------------------------------------------
/// The reference on an `otool -L` line: what precedes ` (compatibility`, else
/// what precedes ` (`; lines with neither hold none.
pub open spec fn reference_of(line: Seq<char>) -> Option<Seq<char>> {
    let t = crate::text::trim(line);
    if contains_seq(t, " (compatibility"@) {
        Some(crate::text::first_piece(t, " (compatibility"@))
    } else if contains_seq(t, " ("@) {
        Some(crate::text::first_piece(t, " ("@))
    } else {
        None
    }
}

/// The references of the lines, the first one (the library's own install
/// name) left out. The flag tells whether the first one has been seen.
pub open spec fn references_spec(ls: Seq<Seq<char>>) -> (Seq<Seq<char>>, bool)
    decreases ls.len(),
{
    if ls.len() == 0 {
        (Seq::empty(), false)
    } else {
        let (r, seen) = references_spec(ls.drop_last());
        match reference_of(ls.last()) {
            None => (r, seen),
            Some(x) => if !seen {
                (r, true)
            } else {
                (r.push(x), true)
            },
        }
    }
}

/// The libraries a Mach-O binary links, read from `otool -L` output (first
/// line and the binary's own install name left out).
pub fn macho_references(otool_output: &str) -> (r: Vec<String>)
    ensures
        views(r@) == (references_spec(
            {
                let ls = crate::text::lines_of(otool_output@);
                if ls.len() > 0 {
                    ls.drop_first()
                } else {
                    ls
                }
            },
        ).0),
{
    let ls = crate::text::lines(otool_output);
    let ghost all = views(ls@);
    let start: usize = if ls.len() > 0 {
        1
    } else {
        0
    };
    let ghost lv = all.skip(start as int);
    assert(lv =~= (if all.len() > 0 {
        all.drop_first()
    } else {
        all
    }));
    let mut r: Vec<String> = Vec::new();
    let mut seen = false;
    let mut i: usize = start;
    assert(lv.take(0) =~= Seq::<Seq<char>>::empty());
    while i < ls.len()
        invariant
            start <= i <= ls.len(),
            lv == views(ls@).skip(start as int),
            (views(r@), seen) == references_spec(lv.take(i - start)),
        decreases ls.len() - i,
    {
        let ghost k = i - start;
        assert(lv.take(k + 1).drop_last() =~= lv.take(k));
        assert(lv.take(k + 1).last() == ls@[i as int]@);
        let t = crate::text::trim_string(ls[i].as_str());
        let found = if contains(t.as_str(), " (compatibility") {
            Some(crate::text::split_first(t.as_str(), " (compatibility"))
        } else if contains(t.as_str(), " (") {
            Some(crate::text::split_first(t.as_str(), " ("))
        } else {
            None
        };
        match found {
            None => {},
            Some(x) => {
                if !seen {
                    seen = true;
                } else {
                    let ghost r0 = r@;
                    r.push(x);
                    assert(views(r@) =~= views(r0).push(r@.last()@));
                }
            },
        }
        i = i + 1;
    }
    assert(lv.take(ls.len() - start) =~= lv);
    r
}

/// The prefixes never rewritten: system libraries, relative references,
/// store paths and DriverKit.
pub open spec fn builtin_safe(path: Seq<char>) -> bool {
    has_prefix(path, "/usr/lib/"@) || has_prefix(path, "/System/Library/"@) || has_prefix(
        path,
        "@loader_path/"@,
    ) || has_prefix(path, "@rpath/"@) || has_prefix(path, "@executable_path/"@) || has_prefix(
        path,
        "/nix/store/"@,
    ) || has_prefix(path, "/DLC/"@)
}

/// Whether a library reference is left as it is.
pub open spec fn safe_reference(path: Seq<char>, extra: Seq<Seq<char>>) -> bool {
    builtin_safe(path) || exists|i: int| 0 <= i < extra.len() && has_prefix(path, #[trigger] extra[i])
}

/// Whether a library reference is left as it is.
pub fn is_safe_reference(path: &str, extra_safe_prefixes: &Vec<String>) -> (r: bool)
    ensures
        r == safe_reference(path@, views(extra_safe_prefixes@)),
{
    if starts_with(path, "/usr/lib/") || starts_with(path, "/System/Library/") || starts_with(
        path,
        "@loader_path/",
    ) || starts_with(path, "@rpath/") || starts_with(path, "@executable_path/") || starts_with(
        path,
        "/nix/store/",
    ) || starts_with(path, "/DLC/") {
        return true;
    }
    let mut i: usize = 0;
    while i < extra_safe_prefixes.len()
        invariant
            i <= extra_safe_prefixes.len(),
            !builtin_safe(path@),
            forall|k: int| 0 <= k < i ==> !has_prefix(path@, #[trigger] views(extra_safe_prefixes@)[k]),
        decreases extra_safe_prefixes.len() - i,
    {
        assert(views(extra_safe_prefixes@)[i as int] == extra_safe_prefixes@[i as int]@);
        if starts_with(path, extra_safe_prefixes[i].as_str()) {
            return true;
        }
        i = i + 1;
    }
    false
}

/// The paths where a reference's file would be in each rpath directory.
pub fn rpath_candidates(ref_path: &str, rpath_dirs: &Vec<String>) -> (r: Option<Vec<String>>)
    ensures
        match r {
            Some(c) => exists|n: Seq<char>|
                crate::soname::file_name(ref_path@) == Some(n) && views(c@) == views(
                    rpath_dirs@,
                ).map_values(|d: Seq<char>| crate::text::path_join(d, n)),
            None => crate::soname::file_name(ref_path@) is None,
        },
{
    let name = match crate::soname::file_name_exec(ref_path) {
        Some(n) => n,
        None => return None,
    };
    let mut r: Vec<String> = Vec::new();
    let mut i: usize = 0;
    while i < rpath_dirs.len()
        invariant
            i <= rpath_dirs.len(),
            views(r@) == views(rpath_dirs@).take(i as int).map_values(
                |d: Seq<char>| crate::text::path_join(d, name@),
            ),
        decreases rpath_dirs.len() - i,
    {
        let ghost r0 = r@;
        r.push(crate::text::join_path(rpath_dirs[i].as_str(), name.as_str()));
        assert(views(r@) =~= views(r0).push(r@.last()@));
        assert(views(rpath_dirs@).take(i as int + 1) =~= views(rpath_dirs@).take(i as int).push(
            rpath_dirs@[i as int]@,
        ));
        assert(views(rpath_dirs@).take(i as int + 1).map_values(
            |d: Seq<char>| crate::text::path_join(d, name@),
        ) =~= views(rpath_dirs@).take(i as int).map_values(
            |d: Seq<char>| crate::text::path_join(d, name@),
        ).push(crate::text::path_join(rpath_dirs@[i as int]@, name@)));
        i = i + 1;
    }
    assert(views(rpath_dirs@).take(rpath_dirs.len() as int) =~= views(rpath_dirs@));
    Some(r)
}

/// The install-name changes of a Mach-O binary and whether it has `@rpath/`
/// references, or the first reference that can be neither kept nor found.
pub type MachoPlanView = Result<(Seq<(Seq<char>, Seq<char>)>, bool), Seq<char>>;

/// Walking the references in order: `@rpath/` ones need rpaths, safe ones
/// stay, others are changed to the store path found for them; one that was
/// not found stops the walk with an error.
pub open spec fn macho_plan_spec(refs: Seq<Seq<char>>, found: Seq<Option<Seq<char>>>, extra: Seq<Seq<char>>) -> MachoPlanView
    decreases refs.len(),
{
    if refs.len() == 0 {
        Ok((Seq::empty(), false))
    } else {
        match macho_plan_spec(refs.drop_last(), found.take(refs.len() - 1), extra) {
            Err(e) => Err(e),
            Ok((changes, has_rpath)) => {
                let r = refs.last();
                if has_prefix(r, "@rpath/"@) {
                    Ok((changes, true))
                } else if safe_reference(r, extra) {
                    Ok((changes, has_rpath))
                } else {
                    match found[refs.len() - 1] {
                        Some(p) => Ok((changes.push((r, p)), has_rpath)),
                        None => Err(r),
                    }
                }
            },
        }
    }
}

/// System references (`/usr/lib/…`, `/System/Library/…`) are safe whatever
/// extra prefixes are configured.
pub proof fn lemma_system_references_safe(path: Seq<char>, extra: Seq<Seq<char>>)
    requires
        has_prefix(path, "/usr/lib/"@) || has_prefix(path, "/System/Library/"@),
    ensures
        safe_reference(path, extra),
{
}

/// A Mach-O plan never rewrites a safe reference nor reports it as missing:
/// every change, and the reference an error names, is unsafe, and so neither
/// lies under `/usr/lib/` or `/System/Library/`.
pub proof fn lemma_macho_plan_leaves_safe(refs: Seq<Seq<char>>, found: Seq<Option<Seq<char>>>, extra: Seq<Seq<char>>)
    ensures
        match macho_plan_spec(refs, found, extra) {
            Ok((changes, _)) => forall|k: int|
                0 <= k < changes.len() ==> !safe_reference(#[trigger] changes[k].0, extra)
                    && !has_prefix(changes[k].0, "/usr/lib/"@) && !has_prefix(
                    changes[k].0,
                    "/System/Library/"@,
                ),
            Err(e) => !safe_reference(e, extra) && !has_prefix(e, "/usr/lib/"@) && !has_prefix(
                e,
                "/System/Library/"@,
            ),
        },
    decreases refs.len(),
{
    if refs.len() > 0 {
        lemma_macho_plan_leaves_safe(refs.drop_last(), found.take(refs.len() - 1), extra);
        match macho_plan_spec(refs.drop_last(), found.take(refs.len() - 1), extra) {
            Err(e) => {},
            Ok((changes, has_rpath)) => {
                match macho_plan_spec(refs, found, extra) {
                    Ok((c2, _)) => {
                        assert forall|k: int| 0 <= k < c2.len() implies !safe_reference(
                            #[trigger] c2[k].0,
                            extra,
                        ) && !has_prefix(c2[k].0, "/usr/lib/"@) && !has_prefix(
                            c2[k].0,
                            "/System/Library/"@,
                        ) by {
                            if k < changes.len() {
                                assert(c2[k] == changes[k]);
                            } else {
                                assert(c2[k].0 == refs.last());
                            }
                        }
                    },
                    Err(e) => {},
                }
            },
        }
    }
}

/// The changes `install_name_tool -change` makes to a Mach-O binary.
/// `found[i]` is the store path found for reference `i` in the rpath
/// directories, if any.
pub fn plan_macho_changes(refs: &Vec<String>, found: &Vec<Option<String>>, safe_prefixes: &Vec<String>) -> (r: Result<(Vec<(String, String)>, bool), String>)
    requires
        found.len() == refs.len(),
    ensures
        match r {
            Ok((changes, has_rpath)) => macho_plan_spec(
                views(refs@),
                found@.map_values(|o: Option<String>| crate::nixpkgs::rev_view(o)),
                views(safe_prefixes@),
            ) == Ok::<(Seq<(Seq<char>, Seq<char>)>, bool), Seq<char>>((
                changes@.map_values(|p: (String, String)| (p.0@, p.1@)),
                has_rpath,
            )),
            Err(e) => macho_plan_spec(
                views(refs@),
                found@.map_values(|o: Option<String>| crate::nixpkgs::rev_view(o)),
                views(safe_prefixes@),
            ) == Err::<(Seq<(Seq<char>, Seq<char>)>, bool), Seq<char>>(e@),
        },
{
    let ghost rv = views(refs@);
    let ghost fv = found@.map_values(|o: Option<String>| crate::nixpkgs::rev_view(o));
    let ghost ev = views(safe_prefixes@);
    let mut changes: Vec<(String, String)> = Vec::new();
    let mut has_rpath = false;
    let mut i: usize = 0;
    assert(rv.take(0) =~= Seq::<Seq<char>>::empty());
    assert(fv.take(0) =~= Seq::<Option<Seq<char>>>::empty());
    assert(changes@.map_values(|p: (String, String)| (p.0@, p.1@)) =~= Seq::<(Seq<char>, Seq<char>)>::empty());
    while i < refs.len()
        invariant
            i <= refs.len(),
            found.len() == refs.len(),
            rv == views(refs@),
            fv == found@.map_values(|o: Option<String>| crate::nixpkgs::rev_view(o)),
            ev == views(safe_prefixes@),
            macho_plan_spec(rv.take(i as int), fv.take(i as int), ev) == Ok::<(Seq<(Seq<char>, Seq<char>)>, bool), Seq<char>>((
                changes@.map_values(|p: (String, String)| (p.0@, p.1@)),
                has_rpath,
            )),
        decreases refs.len() - i,
    {
        assert(rv.take(i as int + 1).drop_last() =~= rv.take(i as int));
        assert(fv.take(i as int + 1).take(i as int) =~= fv.take(i as int));
        assert(rv.take(i as int + 1).last() == refs@[i as int]@);
        assert(fv.take(i as int + 1)[i as int] == fv[i as int]);
        let r = refs[i].as_str();
        if starts_with(r, "@rpath/") {
            has_rpath = true;
        } else if is_safe_reference(r, safe_prefixes) {
        } else {
            match &found[i] {
                Some(p) => {
                    let ghost c0 = changes@;
                    changes.push((owned(r), p.clone()));
                    assert(changes@.map_values(|p: (String, String)| (p.0@, p.1@)) =~= c0.map_values(
                        |p: (String, String)| (p.0@, p.1@),
                    ).push((r@, p@)));
                },
                None => {
                    assert(macho_plan_spec(rv.take(i as int + 1), fv.take(i as int + 1), ev) == Err::<(Seq<(Seq<char>, Seq<char>)>, bool), Seq<char>>(r@));
                    proof {
                        lemma_plan_err_sticks(rv, fv, ev, i as int + 1, r@);
                    }
                    return Err(owned(r));
                },
            }
        }
        i = i + 1;
    }
    assert(rv.take(refs.len() as int) =~= rv);
    assert(fv.take(refs.len() as int) =~= fv);
    Ok((changes, has_rpath))
}

/// Once the walk has stopped with an error, later references do not change it.
proof fn lemma_plan_err_sticks(rv: Seq<Seq<char>>, fv: Seq<Option<Seq<char>>>, ev: Seq<Seq<char>>, k: int, e: Seq<char>)
    requires
        0 <= k <= rv.len(),
        fv.len() == rv.len(),
        macho_plan_spec(rv.take(k), fv.take(k), ev) == Err::<(Seq<(Seq<char>, Seq<char>)>, bool), Seq<char>>(e),
    ensures
        macho_plan_spec(rv, fv, ev) == Err::<(Seq<(Seq<char>, Seq<char>)>, bool), Seq<char>>(e),
    decreases rv.len() - k,
{
    if k == rv.len() {
        assert(rv.take(k) =~= rv);
        assert(fv.take(k) =~= fv);
    } else {
        let t = rv.take(k + 1);
        assert(t.drop_last() =~= rv.take(k));
        assert(fv.take(k + 1).take(k) =~= fv.take(k));
        lemma_plan_err_sticks(rv, fv, ev, k + 1, e);
    }
}

/// The distinct rpath entries, in first-seen order (each added once with
/// `-add_rpath`).
pub open spec fn distinct_entries(v: Seq<Seq<char>>) -> Seq<Seq<char>>
    decreases v.len(),
{
    if v.len() == 0 {
        Seq::empty()
    } else {
        let r = distinct_entries(v.drop_last());
        if r.contains(v.last()) {
            r
        } else {
            r.push(v.last())
        }
    }
}

/// Keeping the first of each entry keeps every entry, and each once.
pub proof fn lemma_distinct_entries(v: Seq<Seq<char>>)
    ensures
        forall|x: Seq<char>| #[trigger] distinct_entries(v).contains(x) <==> v.contains(x),
        distinct_entries(v).no_duplicates(),
    decreases v.len(),
{
    if v.len() > 0 {
        let u = v.drop_last();
        lemma_distinct_entries(u);
        let r = distinct_entries(u);
        assert forall|x: Seq<char>| #[trigger] distinct_entries(v).contains(x) <==> v.contains(x) by {
            if v.contains(x) {
                let k = choose|k: int| 0 <= k < v.len() && v[k] == x;
                if k < v.len() - 1 {
                    assert(u[k] == x);
                    assert(u.contains(x));
                }
            }
            if u.contains(x) {
                let k = choose|k: int| 0 <= k < u.len() && u[k] == x;
                assert(v[k] == x);
            }
            if !r.contains(v.last()) {
                if r.push(v.last()).contains(x) && x != v.last() {
                    let k = choose|k: int| 0 <= k < r.push(v.last()).len() && r.push(v.last())[k] == x;
                    assert(r[k] == x);
                }
                if r.contains(x) {
                    let k = choose|k: int| 0 <= k < r.len() && r[k] == x;
                    assert(r.push(v.last())[k] == x);
                }
                assert(r.push(v.last())[r.len() as int] == v.last());
            }
            assert(v[v.len() - 1] == v.last());
        }
    }
}

/// The rpath entries to add, each once, in first-seen order.
pub fn rpaths_to_add(rpath: &Vec<String>) -> (r: Vec<String>)
    ensures
        views(r@) == distinct_entries(views(rpath@)),
{
    let ghost rv = views(rpath@);
    let mut r: Vec<String> = Vec::new();
    let mut i: usize = 0;
    while i < rpath.len()
        invariant
            i <= rpath.len(),
            rv == views(rpath@),
            views(r@) == distinct_entries(rv.take(i as int)),
        decreases rpath.len() - i,
    {
        assert(rv.take(i as int + 1).drop_last() =~= rv.take(i as int));
        assert(rv.take(i as int + 1).last() == rpath@[i as int]@);
        if !crate::soname::holds_string(&r, rpath[i].as_str()) {
            let ghost r0 = r@;
            r.push(rpath[i].clone());
            assert(views(r@) =~= views(r0).push(rpath@[i as int]@));
        }
        i = i + 1;
    }
    assert(rv.take(rpath.len() as int) =~= rv);
    r
}

/// Whether a failed `install_name_tool` run only met rpaths that exist already.
pub fn rpath_duplicate_error(stderr: &str) -> (r: bool)
    ensures
        r == contains_seq(crate::text::trim(stderr@), "would duplicate path"@),
{
    let t = crate::text::trim_string(stderr);
    contains(t.as_str(), "would duplicate path")
}

/// The next step in patching a Mach-O binary with `install_name_tool`.
#[derive(Debug, PartialEq, Eq, Structural)]
pub enum MachoAction {
    /// Nothing to change and no `@rpath/` references: leave the binary.
    Skip,
    /// Run the `-change` edits and `-add_rpath` additions.
    Run,
    /// The binary is patched.
    Done,
    /// The rpaths were already there: run the `-change` edits alone.
    RetryChangesOnly,
    /// The tool failed.
    Fail,
}

/// The step after the given outcome: `None` before the first run,
/// `Some(None)` after a run that succeeded, `Some(Some(stderr))` after one
/// that failed. A duplicate-rpath failure is harmless when there was nothing
/// else to do, and is retried without the rpaths otherwise.
pub open spec fn macho_next_spec(changes_empty: bool, has_rpath_refs: bool, outcome: Option<Option<Seq<char>>>) -> MachoAction {
    match outcome {
        None => if changes_empty && !has_rpath_refs {
            MachoAction::Skip
        } else {
            MachoAction::Run
        },
        Some(None) => MachoAction::Done,
        Some(Some(e)) => if contains_seq(crate::text::trim(e), "would duplicate path"@) {
            if changes_empty {
                MachoAction::Done
            } else {
                MachoAction::RetryChangesOnly
            }
        } else {
            MachoAction::Fail
        },
    }
}

/// The next step in patching a Mach-O binary.
pub fn macho_next_action(changes_empty: bool, has_rpath_refs: bool, outcome: Option<Option<&str>>) -> (r: MachoAction)
    ensures
        r == macho_next_spec(
            changes_empty,
            has_rpath_refs,
            match outcome {
                None => None,
                Some(None) => Some(None),
                Some(Some(e)) => Some(Some(e@)),
            },
        ),
{
    match outcome {
        None => if changes_empty && !has_rpath_refs {
            MachoAction::Skip
        } else {
            MachoAction::Run
        },
        Some(None) => MachoAction::Done,
        Some(Some(e)) => if rpath_duplicate_error(e) {
            if changes_empty {
                MachoAction::Done
            } else {
                MachoAction::RetryChangesOnly
            }
        } else {
            MachoAction::Fail
        },
    }
}

} // verus!
