//! Cache keys (SHA-256 over framed inputs, in lowercase hex) and the cache of
//! resolved extra-library paths kept in `.uv-nix/cache/resolved-libs.json`.
use vstd::prelude::*;

use sha2::Digest;

use crate::text::{owned, views};

verus! {

/// The SHA-256 digest of a byte string.
pub uninterp spec fn sha256_of(data: Seq<u8>) -> Seq<u8>;

/// `sha2::Sha256::digest`: the SHA-256 digest of `data`, 32 bytes. What the
/// digest is, is left to the name `sha256_of`; only its length is stated.
#[verifier::external_body]
fn sha256(data: &[u8]) -> (r: Vec<u8>)
    ensures
        r@ == sha256_of(data@),
        r@.len() == 32,
{
    let out = sha2::Sha256::digest(data);
    out.to_vec()
}

/// The lowercase hex digit of `n < 16`.
pub open spec fn hex_digit(n: u8) -> char {
    if n < 10 {
        ((n + 48) as u8) as char
    } else {
        ((n + 87) as u8) as char
    }
}

/// Lowercase hex, two digits per byte (`{:x}` of a digest).
pub open spec fn hex_of(bytes: Seq<u8>) -> Seq<char>
    decreases bytes.len(),
{
    if bytes.len() == 0 {
        Seq::empty()
    } else {
        hex_of(bytes.drop_last()) + seq![
            hex_digit(bytes.last() / 16),
            hex_digit(bytes.last() % 16),
        ]
    }
}

fn hex_digit_exec(n: u8) -> (c: char)
    requires
        n < 16,
    ensures
        c == hex_digit(n),
{
    if n < 10 {
        ((n + 48) as u8) as char
    } else {
        ((n + 87) as u8) as char
    }
}

/// Lowercase hex of a byte string.
pub fn hex_string(bytes: &[u8]) -> (r: String)
    ensures
        r@ == hex_of(bytes@),
{
    let mut r = String::new();
    let mut i: usize = 0;
    while i < bytes.len()
        invariant
            i <= bytes.len(),
            r@ == hex_of(bytes@.take(i as int)),
        decreases bytes.len() - i,
    {
        let b = bytes[i];
        crate::text::push_char(&mut r, hex_digit_exec(b / 16));
        crate::text::push_char(&mut r, hex_digit_exec(b % 16));
        assert(bytes@.take(i as int + 1).drop_last() =~= bytes@.take(i as int));
        assert(r@ =~= hex_of(bytes@.take(i as int + 1)));
        i = i + 1;
    }
    assert(bytes@.take(bytes.len() as int) =~= bytes@);
    r
}

/// The UTF-8 bytes of a string.
pub open spec fn utf8(s: Seq<char>) -> Seq<u8> {
    vstd::utf8::encode_utf8(s)
}

/// Appends the UTF-8 bytes of `s` to `buf`.
pub fn push_utf8(buf: &mut Vec<u8>, s: &str)
    ensures
        final(buf)@ == old(buf)@ + utf8(s@),
{
    let b = s.as_bytes();
    let ghost start = buf@;
    let mut i: usize = 0;
    while i < b.len()
        invariant
            i <= b.len(),
            b@ == utf8(s@),
            buf@ == start + b@.take(i as int),
        decreases b.len() - i,
    {
        buf.push(b[i]);
        assert(b@.take(i as int + 1) =~= b@.take(i as int).push(b@[i as int]));
        i = i + 1;
    }
    assert(b@.take(b.len() as int) =~= b@);
}

/// The SHA-256 of `data` in lowercase hex.
pub fn sha256_hex(data: &[u8]) -> (r: String)
    ensures
        r@ == hex_of(sha256_of(data@)),
        r@.len() == 64,
{
    let d = sha256(data);
    let r = hex_string(d.as_slice());
    proof {
        lemma_hex_len(d@);
    }
    r
}

/// Hex has two digits per byte.
pub proof fn lemma_hex_len(bytes: Seq<u8>)
    ensures
        hex_of(bytes).len() == 2 * bytes.len(),
    decreases bytes.len(),
{
    if bytes.len() > 0 {
        lemma_hex_len(bytes.drop_last());
    }
}

proof fn lemma_hex_digit_injective(x: u8, y: u8)
    requires
        x < 16,
        y < 16,
        hex_digit(x) == hex_digit(y),
    ensures
        x == y,
{
    let cx = hex_digit(x);
    let cy = hex_digit(y);
    let vx: u8 = if x < 10 { (x + 48) as u8 } else { (x + 87) as u8 };
    let vy: u8 = if y < 10 { (y + 48) as u8 } else { (y + 87) as u8 };
    assert(cx == vx as char);
    assert(cy == vy as char);
    assert(vx as char as u32 == vx as u32);
    assert(vy as char as u32 == vy as u32);
    assert(vx == vy);
}

/// Lowercase hex determines the bytes.
pub proof fn lemma_hex_injective(a: Seq<u8>, b: Seq<u8>)
    requires
        hex_of(a) == hex_of(b),
    ensures
        a == b,
    decreases a.len(),
{
    lemma_hex_len(a);
    lemma_hex_len(b);
    if a.len() > 0 {
        let h = hex_of(a);
        lemma_hex_len(a.drop_last());
        lemma_hex_len(b.drop_last());
        assert(hex_of(a.drop_last()) =~= h.subrange(0, h.len() - 2));
        assert(hex_of(b.drop_last()) =~= h.subrange(0, h.len() - 2));
        lemma_hex_injective(a.drop_last(), b.drop_last());
        assert(h[h.len() - 2] == hex_digit(a.last() / 16));
        assert(h[h.len() - 2] == hex_digit(b.last() / 16));
        assert(h[h.len() - 1] == hex_digit(a.last() % 16));
        assert(h[h.len() - 1] == hex_digit(b.last() % 16));
        lemma_hex_digit_injective(a.last() / 16, b.last() / 16);
        lemma_hex_digit_injective(a.last() % 16, b.last() % 16);
        assert(a.last() == b.last());
        assert(a =~= a.drop_last().push(a.last()));
        assert(b =~= b.drop_last().push(b.last()));
    }
}

/// The bytes hashed for a key of resolved extra libraries: the nixpkgs key,
/// then each attr after a NUL byte.
pub open spec fn libs_key_input(nixpkgs_key: Seq<char>, attrs: Seq<Seq<char>>) -> Seq<u8>
    decreases attrs.len(),
{
    if attrs.len() == 0 {
        utf8(nixpkgs_key)
    } else {
        libs_key_input(nixpkgs_key, attrs.drop_last()) + seq![0u8] + utf8(attrs.last())
    }
}

/// No byte of the sequence is NUL.
pub open spec fn nul_free(b: Seq<u8>) -> bool {
    forall|i: int| 0 <= i < b.len() ==> #[trigger] b[i] != 0u8
}

/// The UTF-8 encoding of a character other than NUL has no NUL byte.
proof fn lemma_scalar_nul_free(c: char)
    requires
        c != '\0',
    ensures
        nul_free(vstd::utf8::encode_scalar(c as u32)),
{
    let v = c as u32;
    vstd::utf8::char_is_scalar(c);
    assert(v != 0) by {
        vstd::utf8::char_u32_cast(c, v);
    }
    assert(0 < v <= 0x7F ==> (v & 0x7F) as u8 != 0u8) by (bit_vector);
    assert((0xC0u8 | ((v >> 6) & 0x1F) as u8) != 0u8) by (bit_vector);
    assert((0xE0u8 | ((v >> 12) & 0x0F) as u8) != 0u8) by (bit_vector);
    assert((0xF0u8 | ((v >> 18) & 0x7) as u8) != 0u8) by (bit_vector);
    assert((0x80u8 | (v & 0x3F) as u8) != 0u8) by (bit_vector);
    assert((0x80u8 | ((v >> 6) & 0x3F) as u8) != 0u8) by (bit_vector);
    assert((0x80u8 | ((v >> 12) & 0x3F) as u8) != 0u8) by (bit_vector);
}

/// Text without NUL characters encodes to bytes without NUL.
pub proof fn lemma_utf8_nul_free(s: Seq<char>)
    requires
        !s.contains('\0'),
    ensures
        nul_free(utf8(s)),
    decreases s.len(),
{
    if s.len() > 0 {
        assert(s[0] != '\0');
        lemma_scalar_nul_free(s[0]);
        assert(!s.drop_first().contains('\0')) by {
            if s.drop_first().contains('\0') {
                let k = choose|k: int| 0 <= k < s.drop_first().len() && s.drop_first()[k] == '\0';
                assert(s[k + 1] == '\0');
            }
        }
        lemma_utf8_nul_free(s.drop_first());
        let a = vstd::utf8::encode_scalar(s[0] as u32);
        let b = utf8(s.drop_first());
        assert(utf8(s) == a + b);
        assert forall|i: int| 0 <= i < utf8(s).len() implies #[trigger] utf8(s)[i] != 0u8 by {
            if i < a.len() {
                assert(utf8(s)[i] == a[i]);
            } else {
                assert(utf8(s)[i] == b[i - a.len()]);
            }
        }
    }
}

/// Text is determined by its UTF-8 encoding.
pub proof fn lemma_utf8_injective(a: Seq<char>, b: Seq<char>)
    requires
        utf8(a) == utf8(b),
    ensures
        a == b,
{
    vstd::utf8::encode_utf8_decode_utf8(a);
    vstd::utf8::encode_utf8_decode_utf8(b);
}

/// Every attr is free of NUL characters.
pub open spec fn attrs_nul_free(attrs: Seq<Seq<char>>) -> bool {
    forall|i: int| 0 <= i < attrs.len() ==> !(#[trigger] attrs[i]).contains('\0')
}

/// The bytes of a key with attrs hold a NUL byte exactly when there are attrs.
proof fn lemma_key_input_nul(nixpkgs_key: Seq<char>, attrs: Seq<Seq<char>>)
    requires
        !nixpkgs_key.contains('\0'),
        attrs_nul_free(attrs),
    ensures
        attrs.len() == 0 ==> nul_free(libs_key_input(nixpkgs_key, attrs)),
        attrs.len() > 0 ==> libs_key_input(nixpkgs_key, attrs)[libs_key_input(nixpkgs_key, attrs.drop_last()).len() as int] == 0u8,
{
    if attrs.len() == 0 {
        lemma_utf8_nul_free(nixpkgs_key);
    }
}

/// Different nixpkgs keys or attr lists are hashed as different bytes, as
/// long as none of them holds a NUL character: the key input is injective.
pub proof fn lemma_key_input_injective(k1: Seq<char>, a1: Seq<Seq<char>>, k2: Seq<char>, a2: Seq<Seq<char>>)
    requires
        !k1.contains('\0'),
        !k2.contains('\0'),
        attrs_nul_free(a1),
        attrs_nul_free(a2),
        libs_key_input(k1, a1) == libs_key_input(k2, a2),
    ensures
        k1 == k2,
        a1 == a2,
    decreases a1.len() + a2.len(),
{
    let x = libs_key_input(k1, a1);
    if a1.len() == 0 && a2.len() == 0 {
        lemma_utf8_injective(k1, k2);
    } else if a1.len() == 0 {
        lemma_key_input_nul(k1, a1);
        lemma_key_input_nul(k2, a2);
        let p = libs_key_input(k2, a2.drop_last()).len() as int;
        assert(x[p] == 0u8);
    } else if a2.len() == 0 {
        lemma_key_input_nul(k1, a1);
        lemma_key_input_nul(k2, a2);
        let p = libs_key_input(k1, a1.drop_last()).len() as int;
        assert(x[p] == 0u8);
    } else {
        let p1 = libs_key_input(k1, a1.drop_last());
        let p2 = libs_key_input(k2, a2.drop_last());
        let u1 = utf8(a1.last());
        let u2 = utf8(a2.last());
        assert(!a1.last().contains('\0')) by {
            assert(a1.last() == a1[a1.len() - 1]);
        }
        assert(!a2.last().contains('\0')) by {
            assert(a2.last() == a2[a2.len() - 1]);
        }
        lemma_utf8_nul_free(a1.last());
        lemma_utf8_nul_free(a2.last());
        assert(x == p1 + seq![0u8] + u1);
        assert(x == p2 + seq![0u8] + u2);
        if u1.len() < u2.len() {
            let i = p1.len() as int;
            assert(x[i] == 0u8);
            assert(x[i] == u2[i - p2.len() - 1]);
        } else if u2.len() < u1.len() {
            let i = p2.len() as int;
            assert(x[i] == 0u8);
            assert(x[i] == u1[i - p1.len() - 1]);
        }
        assert(p1.len() == p2.len());
        assert(u1 =~= x.subrange(p1.len() as int + 1, x.len() as int));
        assert(u2 =~= x.subrange(p2.len() as int + 1, x.len() as int));
        assert(p1 =~= x.subrange(0, p1.len() as int));
        assert(p2 =~= x.subrange(0, p2.len() as int));
        lemma_utf8_injective(a1.last(), a2.last());
        assert(attrs_nul_free(a1.drop_last()));
        assert(attrs_nul_free(a2.drop_last()));
        lemma_key_input_injective(k1, a1.drop_last(), k2, a2.drop_last());
        assert(a1 =~= a1.drop_last().push(a1.last()));
        assert(a2 =~= a2.drop_last().push(a2.last()));
    }
}

/// The cache key of a nixpkgs source and a list of attrs.
pub fn cache_key(nixpkgs_key: &str, attrs: &Vec<String>) -> (r: String)
    ensures
        r@ == hex_of(sha256_of(libs_key_input(nixpkgs_key@, views(attrs@)))),
{
    let mut buf: Vec<u8> = Vec::new();
    push_utf8(&mut buf, nixpkgs_key);
    assert(buf@ =~= utf8(nixpkgs_key@));
    let mut i: usize = 0;
    while i < attrs.len()
        invariant
            i <= attrs.len(),
            buf@ == libs_key_input(nixpkgs_key@, views(attrs@).take(i as int)),
        decreases attrs.len() - i,
    {
        let ghost b0 = buf@;
        buf.push(0u8);
        push_utf8(&mut buf, attrs[i].as_str());
        proof {
            let t = views(attrs@).take(i as int + 1);
            assert(t.drop_last() =~= views(attrs@).take(i as int));
            assert(t.last() == attrs@[i as int]@);
            assert(buf@ =~= b0 + seq![0u8] + utf8(attrs@[i as int]@));
        }
        i = i + 1;
    }
    assert(views(attrs@).take(attrs.len() as int) =~= views(attrs@));
    sha256_hex(buf.as_slice())
}

/// What the cache file holds.
#[derive(Debug)]
pub struct CacheEntry {
    /// The key the paths were resolved under.
    pub key: String,
    /// The resolved colon-separated library path.
    pub library_path: String,
}

/// Where the cache file lives within a project.
pub fn cache_path(project_dir: &str) -> (r: String)
    ensures
        r@ == crate::text::path_join(
            crate::text::path_join(crate::text::path_join(project_dir@, ".uv-nix"@), "cache"@),
            "resolved-libs.json"@,
        ),
{
    let a = crate::text::join_path(project_dir, ".uv-nix");
    let b = crate::text::join_path(a.as_str(), "cache");
    crate::text::join_path(b.as_str(), "resolved-libs.json")
}

/// The key under which resolved paths of `attrs` from a nixpkgs source are kept.
pub open spec fn libs_key(nixpkgs_key: Seq<char>, attrs: Seq<Seq<char>>) -> Seq<char> {
    hex_of(sha256_of(libs_key_input(nixpkgs_key, attrs)))
}

/// What a lookup finds in a stored entry `(key, library_path)`.
pub open spec fn lookup_result(stored: Option<(Seq<char>, Seq<char>)>, nixpkgs_key: Seq<char>, attrs: Seq<
    Seq<char>,
>) -> Option<Seq<char>> {
    match stored {
        Some((key, path)) => if key == libs_key(nixpkgs_key, attrs) {
            Some(path)
        } else {
            None
        },
        None => None,
    }
}

/// An entry as plain values.
pub open spec fn entry_view(e: Option<CacheEntry>) -> Option<(Seq<char>, Seq<char>)> {
    match e {
        Some(x) => Some((x.key@, x.library_path@)),
        None => None,
    }
}

/// The cached library path, when the stored entry was made for the same
/// nixpkgs source and attrs. `stored` is the cache file's entry, if it could
/// be read.
pub fn lookup(stored: &Option<CacheEntry>, nixpkgs_key: &str, attrs: &Vec<String>) -> (r: Option<
    String,
>)
    ensures
        match r {
            Some(p) => lookup_result(entry_view(*stored), nixpkgs_key@, views(attrs@)) == Some(p@),
            None => lookup_result(entry_view(*stored), nixpkgs_key@, views(attrs@)) is None,
        },
{
    match stored {
        None => None,
        Some(e) => {
            let key = cache_key(nixpkgs_key, attrs);
            if crate::text::str_eq(e.key.as_str(), key.as_str()) {
                Some(e.library_path.clone())
            } else {
                None
            }
        },
    }
}

/// The entry to store for resolved library paths.
pub fn store(nixpkgs_key: &str, attrs: &Vec<String>, library_path: &str) -> (r: CacheEntry)
    ensures
        r.key@ == libs_key(nixpkgs_key@, views(attrs@)),
        r.library_path@ == library_path@,
{
    CacheEntry { key: cache_key(nixpkgs_key, attrs), library_path: owned(library_path) }
}

/// A lookup of an entry stored for a nixpkgs key and attrs, under the same
/// key and attrs, gives back the stored library path.
pub proof fn lemma_store_then_lookup(
    nixpkgs_key: Seq<char>,
    attrs: Seq<Seq<char>>,
    library_path: Seq<char>,
)
    ensures
        lookup_result(
            Some((libs_key(nixpkgs_key, attrs), library_path)),
            nixpkgs_key,
            attrs,
        ) == Some(library_path),
{
}

/// A lookup under another nixpkgs key, or other attrs, misses the entry
/// stored for a key and attrs, unless SHA-256 maps the two key inputs to one
/// digest (keys and attrs without NUL characters).
pub proof fn lemma_store_then_lookup_other(
    nixpkgs_key: Seq<char>,
    attrs: Seq<Seq<char>>,
    library_path: Seq<char>,
    other_key: Seq<char>,
    other_attrs: Seq<Seq<char>>,
)
    requires
        !nixpkgs_key.contains('\0'),
        !other_key.contains('\0'),
        attrs_nul_free(attrs),
        attrs_nul_free(other_attrs),
        other_key != nixpkgs_key || other_attrs != attrs,
        sha256_of(libs_key_input(nixpkgs_key, attrs)) == sha256_of(libs_key_input(other_key, other_attrs))
            ==> libs_key_input(nixpkgs_key, attrs) == libs_key_input(other_key, other_attrs),
    ensures
        lookup_result(Some((libs_key(nixpkgs_key, attrs), library_path)), other_key, other_attrs)
            is None,
{
    if libs_key(nixpkgs_key, attrs) == libs_key(other_key, other_attrs) {
        lemma_hex_injective(
            sha256_of(libs_key_input(nixpkgs_key, attrs)),
            sha256_of(libs_key_input(other_key, other_attrs)),
        );
        lemma_key_input_injective(nixpkgs_key, attrs, other_key, other_attrs);
    }
}

} // verus!
