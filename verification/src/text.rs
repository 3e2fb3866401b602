use vstd::prelude::*;

verus! {

// ---------------------------------------------------------------------------
// Specifications over character sequences
// ---------------------------------------------------------------------------
/// The character sequences of a list of strings.
pub open spec fn views(v: Seq<String>) -> Seq<Seq<char>> {
    v.map_values(|s: String| s@)
}

/// `t` occurs in `s` starting at index `i`.
pub open spec fn occurs_at(s: Seq<char>, i: int, t: Seq<char>) -> bool {
    0 <= i && i + t.len() <= s.len() && s.subrange(i, i + t.len()) == t
}

/// `t` occurs somewhere in `s` (`str::contains` with a string pattern).
pub open spec fn contains_seq(s: Seq<char>, t: Seq<char>) -> bool {
    exists|i: int| occurs_at(s, i, t)
}

/// `p` is a prefix of `s` (`str::starts_with`).
pub open spec fn has_prefix(s: Seq<char>, p: Seq<char>) -> bool {
    occurs_at(s, 0, p)
}

/// `p` is a suffix of `s` (`str::ends_with`).
pub open spec fn has_suffix(s: Seq<char>, p: Seq<char>) -> bool {
    occurs_at(s, s.len() - p.len(), p)
}

/// Strict lexicographic order on code points, which is the order of `String`
/// (UTF-8 byte order and code point order agree).
pub open spec fn seq_lt(a: Seq<char>, b: Seq<char>) -> bool
    decreases a.len(),
{
    if a.len() == 0 {
        b.len() > 0
    } else if b.len() == 0 {
        false
    } else if a[0] < b[0] {
        true
    } else if a[0] == b[0] {
        seq_lt(a.drop_first(), b.drop_first())
    } else {
        false
    }
}

/// `s` split at every occurrence of `c` (`str::split` with a char pattern).
pub open spec fn split_on(s: Seq<char>, c: char) -> Seq<Seq<char>>
    decreases s.len(),
{
    if s.len() == 0 {
        seq![Seq::<char>::empty()]
    } else {
        let r = split_on(s.drop_last(), c);
        if s.last() == c {
            r.push(Seq::<char>::empty())
        } else {
            r.update(r.len() - 1, r.last().push(s.last()))
        }
    }
}

/// The pieces joined back together with `c` between them.
pub open spec fn join_with(parts: Seq<Seq<char>>, c: char) -> Seq<char>
    decreases parts.len(),
{
    if parts.len() == 0 {
        Seq::empty()
    } else if parts.len() == 1 {
        parts[0]
    } else {
        join_with(parts.drop_last(), c).push(c) + parts.last()
    }
}

/// `char::is_whitespace`: the Unicode `White_Space` property.
pub open spec fn is_white(c: char) -> bool {
    ('\t' <= c && c <= '\r') || c == ' ' || c == '\u{85}' || c == '\u{a0}' || c == '\u{1680}' || (
    '\u{2000}' <= c && c <= '\u{200a}') || c == '\u{2028}' || c == '\u{2029}' || c == '\u{202f}'
        || c == '\u{205f}' || c == '\u{3000}'
}

/// `s` without leading white space (`str::trim_start`).
pub open spec fn trim_start(s: Seq<char>) -> Seq<char>
    decreases s.len(),
{
    if s.len() > 0 && is_white(s[0]) {
        trim_start(s.drop_first())
    } else {
        s
    }
}

/// `s` without trailing white space (`str::trim_end`).
pub open spec fn trim_end(s: Seq<char>) -> Seq<char>
    decreases s.len(),
{
    if s.len() > 0 && is_white(s.last()) {
        trim_end(s.drop_last())
    } else {
        s
    }
}

/// `str::trim`.
pub open spec fn trim(s: Seq<char>) -> Seq<char> {
    trim_end(trim_start(s))
}

/// A line without its terminating `\r`, as `str::lines` yields it.
pub open spec fn strip_cr(l: Seq<char>) -> Seq<char> {
    if l.len() > 0 && l.last() == '\r' {
        l.drop_last()
    } else {
        l
    }
}

/// `str::lines`: split at `\n`, no final empty line, `\r` before `\n` dropped.
pub open spec fn lines_of(s: Seq<char>) -> Seq<Seq<char>> {
    let parts = split_on(s, '\n');
    let kept = if parts.last().len() == 0 {
        parts.drop_last()
    } else {
        parts
    };
    kept.map_values(|l: Seq<char>| strip_cr(l))
}

/// The decimal digit for `d < 10`.
pub open spec fn digit_char(d: nat) -> char {
    if d == 0 {
        '0'
    } else if d == 1 {
        '1'
    } else if d == 2 {
        '2'
    } else if d == 3 {
        '3'
    } else if d == 4 {
        '4'
    } else if d == 5 {
        '5'
    } else if d == 6 {
        '6'
    } else if d == 7 {
        '7'
    } else if d == 8 {
        '8'
    } else {
        '9'
    }
}

/// The decimal representation of `n`, as `Display` prints an unsigned integer.
pub open spec fn decimal(n: nat) -> Seq<char>
    decreases n,
{
    if n < 10 {
        seq![digit_char(n)]
    } else {
        decimal(n / 10).push(digit_char(n % 10))
    }
}

pub open spec fn is_ascii_digit(c: char) -> bool {
    '0' <= c && c <= '9'
}

pub open spec fn is_ascii_alpha(c: char) -> bool {
    ('a' <= c && c <= 'z') || ('A' <= c && c <= 'Z')
}

// ---------------------------------------------------------------------------
// Lemmas
// ---------------------------------------------------------------------------
/// No sequence is below itself.
pub proof fn lemma_seq_lt_irreflexive(a: Seq<char>)
    ensures
        !seq_lt(a, a),
    decreases a.len(),
{
    if a.len() > 0 {
        lemma_seq_lt_irreflexive(a.drop_first());
    }
}

/// The order is transitive.
pub proof fn lemma_seq_lt_transitive(a: Seq<char>, b: Seq<char>, c: Seq<char>)
    requires
        seq_lt(a, b),
        seq_lt(b, c),
    ensures
        seq_lt(a, c),
    decreases a.len(),
{
    if a.len() > 0 && b.len() > 0 && c.len() > 0 {
        if a[0] == b[0] && b[0] == c[0] {
            lemma_seq_lt_transitive(a.drop_first(), b.drop_first(), c.drop_first());
        }
    }
}

/// Any two distinct sequences are ordered one way or the other.
pub proof fn lemma_seq_lt_total(a: Seq<char>, b: Seq<char>)
    ensures
        a == b || seq_lt(a, b) || seq_lt(b, a),
    decreases a.len(),
{
    if a.len() > 0 && b.len() > 0 && a[0] == b[0] {
        lemma_seq_lt_total(a.drop_first(), b.drop_first());
        if a.drop_first() == b.drop_first() {
            assert(a == seq![a[0]] + a.drop_first());
            assert(b == seq![b[0]] + b.drop_first());
        }
    } else if a.len() == 0 && b.len() == 0 {
        assert(a == b);
    }
}

/// Two orders cannot both hold.
pub proof fn lemma_seq_lt_asymmetric(a: Seq<char>, b: Seq<char>)
    requires
        seq_lt(a, b),
    ensures
        !seq_lt(b, a),
{
    if seq_lt(b, a) {
        lemma_seq_lt_transitive(a, b, a);
        lemma_seq_lt_irreflexive(a);
    }
}

// ---------------------------------------------------------------------------
// Executable helpers
// ---------------------------------------------------------------------------
/// Appends one character to a string.
#[verifier::external_body]
pub(crate) fn push_char(s: &mut String, c: char)
    ensures
        final(s)@ == old(s)@.push(c),
{
    s.push(c);
}

/// The lowercase of a text as `str::to_lowercase` gives it.
pub uninterp spec fn lowercase(s: Seq<char>) -> Seq<char>;

/// `str::to_lowercase`: the Unicode lowercase of the text. Which text that is
/// is left to the name `lowercase`.
#[verifier::external_body]
pub(crate) fn to_lowercase(s: &str) -> (r: String)
    ensures
        r@ == lowercase(s@),
{
    s.to_lowercase()
}

/// The characters of a string slice, in order.
pub fn chars_of(s: &str) -> (v: Vec<char>)
    ensures
        v@ == s@,
{
    let mut v: Vec<char> = Vec::new();
    for c in it: s.chars()
        invariant
            v@ == it.seq().take(it.index() as int),
    {
        v.push(c);
    }
    v
}

/// A string made of the given characters.
pub fn string_from_chars(v: &[char]) -> (s: String)
    ensures
        s@ == v@,
{
    let mut s = String::new();
    let mut i: usize = 0;
    while i < v.len()
        invariant
            i <= v.len(),
            s@ == v@.take(i as int),
        decreases v.len() - i,
    {
        push_char(&mut s, v[i]);
        assert(v@.take(i as int + 1) == v@.take(i as int).push(v@[i as int]));
        i = i + 1;
    }
    assert(v@.take(v.len() as int) == v@);
    s
}

/// A copy of a string slice as an owned string.
pub fn owned(s: &str) -> (r: String)
    ensures
        r@ == s@,
{
    let mut r = String::new();
    r.append(s);
    r
}

/// Whether `t` occurs in `s` at index `i`.
pub fn occurs_at_exec(s: &Vec<char>, i: usize, t: &Vec<char>) -> (r: bool)
    ensures
        r == occurs_at(s@, i as int, t@),
{
    if t.len() > s.len() || i > s.len() - t.len() {
        return false;
    }
    let mut j: usize = 0;
    while j < t.len()
        invariant
            j <= t.len(),
            i + t.len() <= s.len(),
            forall|k: int| 0 <= k < j ==> s@[i + k] == t@[k],
        decreases t.len() - j,
    {
        if s[i + j] != t[j] {
            assert(s@.subrange(i as int, i + t.len())[j as int] != t@[j as int]);
            return false;
        }
        j = j + 1;
    }
    assert(s@.subrange(i as int, i + t.len()) == t@);
    true
}

/// `str::starts_with`.
pub fn starts_with(s: &str, p: &str) -> (r: bool)
    ensures
        r == has_prefix(s@, p@),
{
    let sv = chars_of(s);
    let pv = chars_of(p);
    occurs_at_exec(&sv, 0, &pv)
}

/// `str::ends_with`.
pub fn ends_with(s: &str, p: &str) -> (r: bool)
    ensures
        r == has_suffix(s@, p@),
{
    let sv = chars_of(s);
    let pv = chars_of(p);
    if pv.len() > sv.len() {
        return false;
    }
    occurs_at_exec(&sv, sv.len() - pv.len(), &pv)
}

/// `str::contains` with a string pattern.
pub fn contains(s: &str, t: &str) -> (r: bool)
    ensures
        r == contains_seq(s@, t@),
{
    let sv = chars_of(s);
    let tv = chars_of(t);
    if tv.len() > sv.len() {
        return false;
    }
    let last = sv.len() - tv.len();
    let mut i: usize = 0;
    loop
        invariant
            sv@ == s@,
            tv@ == t@,
            last == sv.len() - tv.len(),
            tv.len() <= sv.len(),
            i <= last,
            forall|k: int| 0 <= k < i ==> !occurs_at(sv@, k, tv@),
        decreases last - i,
    {
        if occurs_at_exec(&sv, i, &tv) {
            assert(occurs_at(s@, i as int, t@));
            return true;
        }
        if i == last {
            assert forall|k: int| !occurs_at(sv@, k, tv@) by {
                if 0 <= k <= i {
                }
            }
            return false;
        }
        i = i + 1;
    }
}

/// Whether the string holds the character `c`.
pub fn contains_char(s: &str, c: char) -> (r: bool)
    ensures
        r == s@.contains(c),
{
    let v = chars_of(s);
    let mut i: usize = 0;
    while i < v.len()
        invariant
            i <= v.len(),
            v@ == s@,
            forall|k: int| 0 <= k < i ==> v@[k] != c,
        decreases v.len() - i,
    {
        if v[i] == c {
            return true;
        }
        i = i + 1;
    }
    false
}

/// Equality of two string slices.
pub fn str_eq(a: &str, b: &str) -> (r: bool)
    ensures
        r == (a@ == b@),
{
    let av = chars_of(a);
    let bv = chars_of(b);
    if av.len() != bv.len() {
        return false;
    }
    assert(av@.subrange(0, av@.len() as int) =~= av@);
    occurs_at_exec(&av, 0, &bv)
}

/// Whether `a` sorts strictly before `b`.
pub fn str_lt(a: &str, b: &str) -> (r: bool)
    ensures
        r == seq_lt(a@, b@),
{
    let av = chars_of(a);
    let bv = chars_of(b);
    let mut i: usize = 0;
    assert(av@.skip(0) =~= av@);
    assert(bv@.skip(0) =~= bv@);
    while i < av.len() && i < bv.len()
        invariant
            i <= av.len(),
            i <= bv.len(),
            av@.take(i as int) == bv@.take(i as int),
            seq_lt(a@, b@) == seq_lt(av@.skip(i as int), bv@.skip(i as int)),
        decreases av.len() - i,
    {
        let x = av[i];
        let y = bv[i];
        assert(av@.skip(i as int)[0] == x);
        assert(bv@.skip(i as int)[0] == y);
        if x < y {
            return true;
        }
        if x != y {
            return false;
        }
        assert(av@.skip(i as int).drop_first() == av@.skip(i as int + 1));
        assert(bv@.skip(i as int).drop_first() == bv@.skip(i as int + 1));
        assert(av@.take(i as int + 1) == av@.take(i as int).push(x));
        assert(bv@.take(i as int + 1) == bv@.take(i as int).push(y));
        i = i + 1;
    }
    i < bv.len()
}

/// The decimal representation of an unsigned number.
pub fn decimal_string(n: usize) -> (s: String)
    ensures
        s@ == decimal(n as nat),
    decreases n,
{
    if n < 10 {
        let mut s = String::new();
        push_char(&mut s, digit_of(n));
        s
    } else {
        let mut s = decimal_string(n / 10);
        push_char(&mut s, digit_of(n % 10));
        s
    }
}

/// The decimal representation of a 64-bit unsigned number.
pub fn decimal_u64(n: u64) -> (s: String)
    ensures
        s@ == decimal(n as nat),
    decreases n,
{
    if n < 10 {
        let mut s = String::new();
        push_char(&mut s, digit_of(n as usize));
        s
    } else {
        let mut s = decimal_u64(n / 10);
        push_char(&mut s, digit_of((n % 10) as usize));
        s
    }
}

fn digit_of(d: usize) -> (c: char)
    requires
        d < 10,
    ensures
        c == digit_char(d as nat),
{
    if d == 0 {
        '0'
    } else if d == 1 {
        '1'
    } else if d == 2 {
        '2'
    } else if d == 3 {
        '3'
    } else if d == 4 {
        '4'
    } else if d == 5 {
        '5'
    } else if d == 6 {
        '6'
    } else if d == 7 {
        '7'
    } else if d == 8 {
        '8'
    } else {
        '9'
    }
}

/// `str::split` with a char pattern, each piece as an owned string.
pub fn split_char(s: &str, c: char) -> (parts: Vec<String>)
    ensures
        views(parts@) == split_on(s@, c),
{
    let v = chars_of(s);
    let mut parts: Vec<String> = Vec::new();
    let mut cur: Vec<char> = Vec::new();
    let mut i: usize = 0;
    while i < v.len()
        invariant
            i <= v.len(),
            v@ == s@,
            views(parts@).push(cur@) == split_on(v@.take(i as int), c),
        decreases v.len() - i,
    {
        let ch = v[i];
        let ghost prev = views(parts@);
        assert(v@.take(i as int + 1).drop_last() == v@.take(i as int));
        assert(v@.take(i as int + 1).last() == ch);
        if ch == c {
            let piece = string_from_chars(cur.as_slice());
            parts.push(piece);
            cur = Vec::new();
            assert(views(parts@) == prev.push(piece@));
        } else {
            let ghost old_cur = cur@;
            cur.push(ch);
            assert(prev.push(cur@) =~= prev.push(old_cur).update(
                prev.len() as int,
                old_cur.push(ch),
            ));
        }
        i = i + 1;
    }
    let piece = string_from_chars(cur.as_slice());
    let ghost prev = views(parts@);
    parts.push(piece);
    assert(views(parts@) == prev.push(piece@));
    assert(v@.take(v.len() as int) == v@);
    parts
}

/// `str::trim`, as an owned string.
pub fn trim_string(s: &str) -> (r: String)
    ensures
        r@ == trim(s@),
{
    let v = chars_of(s);
    let mut lo: usize = 0;
    assert(v@.skip(0) =~= v@);
    while lo < v.len() && is_white_exec(v[lo])
        invariant
            lo <= v.len(),
            trim_start(v@) == trim_start(v@.skip(lo as int)),
        decreases v.len() - lo,
    {
        assert(v@.skip(lo as int).drop_first() == v@.skip(lo as int + 1));
        lo = lo + 1;
    }
    let ghost ts = v@.skip(lo as int);
    assert(trim_start(ts) == ts);
    let mut hi: usize = v.len();
    while hi > lo && is_white_exec(v[hi - 1])
        invariant
            lo <= hi <= v.len(),
            trim_end(ts) == trim_end(v@.subrange(lo as int, hi as int)),
        decreases hi,
    {
        assert(v@.subrange(lo as int, hi as int).drop_last() == v@.subrange(
            lo as int,
            hi - 1,
        ));
        hi = hi - 1;
    }
    assert(v@.skip(lo as int) == ts);
    assert(trim_end(v@.subrange(lo as int, hi as int)) == v@.subrange(lo as int, hi as int));
    string_from_chars(vec_slice(&v, lo, hi).as_slice())
}

fn vec_slice(v: &Vec<char>, lo: usize, hi: usize) -> (r: Vec<char>)
    requires
        lo <= hi <= v.len(),
    ensures
        r@ == v@.subrange(lo as int, hi as int),
{
    let mut r: Vec<char> = Vec::new();
    let mut i: usize = lo;
    while i < hi
        invariant
            lo <= i <= hi,
            hi <= v.len(),
            r@ == v@.subrange(lo as int, i as int),
        decreases hi - i,
    {
        r.push(v[i]);
        assert(v@.subrange(lo as int, i + 1) == v@.subrange(lo as int, i as int).push(v@[i as int]));
        i = i + 1;
    }
    r
}

/// `char::is_whitespace`.
pub fn is_white_exec(c: char) -> (r: bool)
    ensures
        r == is_white(c),
{
    ('\t' <= c && c <= '\r') || c == ' ' || c == '\u{85}' || c == '\u{a0}' || c == '\u{1680}' || (
    '\u{2000}' <= c && c <= '\u{200a}') || c == '\u{2028}' || c == '\u{2029}' || c == '\u{202f}'
        || c == '\u{205f}' || c == '\u{3000}'
}

/// `Path::join` with a relative path on Unix: a `/` goes between the two
/// unless the first is empty or already ends with one.
pub open spec fn path_join(a: Seq<char>, b: Seq<char>) -> Seq<char> {
    if a.len() == 0 {
        b
    } else if a.last() == '/' {
        a + b
    } else {
        a + seq!['/'] + b
    }
}

/// `Path::join` with a relative path.
pub fn join_path(a: &str, b: &str) -> (r: String)
    ensures
        r@ == path_join(a@, b@),
{
    let av = chars_of(a);
    let mut r = owned(a);
    if av.len() > 0 && av[av.len() - 1] != '/' {
        push_char(&mut r, '/');
    }
    r.append(b);
    r
}

/// `str::lines`, each line as an owned string.
pub fn lines(s: &str) -> (r: Vec<String>)
    ensures
        views(r@) == lines_of(s@),
{
    let parts = split_char(s, '\n');
    let ghost ps = views(parts@);
    let n = parts.len();
    assert(ps.len() > 0) by {
        lemma_split_nonempty(s@, '\n');
    }
    let keep = if parts[n - 1].as_str().is_empty() {
        n - 1
    } else {
        n
    };
    proof {
        assert(ps.last() == parts@[n - 1]@);
    }
    let ghost kept = if ps.last().len() == 0 {
        ps.drop_last()
    } else {
        ps
    };
    assert(kept =~= ps.take(keep as int));
    let mut r: Vec<String> = Vec::new();
    let mut i: usize = 0;
    while i < keep
        invariant
            i <= keep <= parts.len(),
            ps == views(parts@),
            kept == ps.take(keep as int),
            views(r@) == kept.take(i as int).map_values(|l: Seq<char>| strip_cr(l)),
        decreases keep - i,
    {
        let v = chars_of(parts[i].as_str());
        let line = if v.len() > 0 && v[v.len() - 1] == '\r' {
            string_from_chars(v.as_slice().split_at(v.len() - 1).0)
        } else {
            string_from_chars(v.as_slice())
        };
        proof {
            assert(ps[i as int] == parts@[i as int]@);
            if v.len() > 0 && v@[v.len() - 1] == '\r' {
                assert(v@.subrange(0, v.len() - 1) =~= v@.drop_last());
            }
        }
        let ghost r0 = r@;
        r.push(line);
        assert(views(r@) =~= views(r0).push(line@));
        assert(kept.take(i as int + 1).map_values(|l: Seq<char>| strip_cr(l)) =~= kept.take(
            i as int,
        ).map_values(|l: Seq<char>| strip_cr(l)).push(strip_cr(kept[i as int])));
        i = i + 1;
    }
    assert(kept.take(keep as int) =~= kept);
    r
}

/// Splitting yields at least one piece.
pub proof fn lemma_split_nonempty(s: Seq<char>, c: char)
    ensures
        split_on(s, c).len() > 0,
    decreases s.len(),
{
    if s.len() > 0 {
        lemma_split_nonempty(s.drop_last(), c);
    }
}

/// Splitting at `c` and joining the pieces with `c` gives back the string.
pub proof fn lemma_split_join(s: Seq<char>, c: char)
    ensures
        join_with(split_on(s, c), c) == s,
    decreases s.len(),
{
    if s.len() > 0 {
        let t = s.drop_last();
        lemma_split_join(t, c);
        lemma_split_nonempty(t, c);
        let r = split_on(t, c);
        if s.last() == c {
            assert(r.push(Seq::<char>::empty()).drop_last() =~= r);
            assert(s =~= t.push(c) + Seq::<char>::empty());
        } else {
            let u = r.update(r.len() - 1, r.last().push(s.last()));
            assert(u.drop_last() =~= r.drop_last());
            assert(u.last() == r.last().push(s.last()));
            assert(s =~= t.push(s.last()));
            if r.len() == 1 {
                assert(t == r[0]);
                assert(s =~= r[0].push(s.last()));
            } else {
                let x = join_with(r.drop_last(), c).push(c);
                assert(t == x + r.last());
                assert(join_with(u, c) == join_with(u.drop_last(), c).push(c) + u.last());
                assert(s =~= x + r.last().push(s.last()));
            }
        }
    }
}

/// Splitting a string followed by text without `c`: the text extends the last
/// piece.
pub proof fn lemma_split_append_free(s: Seq<char>, t: Seq<char>, c: char)
    requires
        !t.contains(c),
    ensures
        split_on(s + t, c) == split_on(s, c).update(
            split_on(s, c).len() - 1,
            split_on(s, c).last() + t,
        ),
    decreases t.len(),
{
    lemma_split_nonempty(s, c);
    let r0 = split_on(s, c);
    if t.len() == 0 {
        assert(s + t =~= s);
        assert(r0.last() + t =~= r0.last());
        assert(r0.update(r0.len() - 1, r0.last() + t) =~= r0);
    } else {
        let t0 = t.drop_last();
        assert(!t0.contains(c)) by {
            if t0.contains(c) {
                let k = choose|k: int| 0 <= k < t0.len() && t0[k] == c;
                assert(t[k] == c);
            }
        }
        assert(t.last() != c) by {
            assert(t[t.len() - 1] == t.last());
        }
        lemma_split_append_free(s, t0, c);
        assert((s + t).drop_last() =~= s + t0);
        assert((s + t).last() == t.last());
        let r = split_on(s + t0, c);
        assert(r.len() == r0.len());
        assert(r.last() == r0.last() + t0);
        assert(r.last().push(t.last()) =~= r0.last() + t);
        assert(r.update(r.len() - 1, r.last().push(t.last())) =~= r0.update(
            r0.len() - 1,
            r0.last() + t,
        ));
    }
}

/// Joining pieces that hold no `c` and splitting at `c` gives the pieces back.
pub proof fn lemma_join_split(parts: Seq<Seq<char>>, c: char)
    requires
        parts.len() > 0,
        forall|k: int| 0 <= k < parts.len() ==> !(#[trigger] parts[k]).contains(c),
    ensures
        split_on(join_with(parts, c), c) == parts,
    decreases parts.len(),
{
    assert(!parts.last().contains(c)) by {
        assert(parts[parts.len() - 1] == parts.last());
    }
    if parts.len() == 1 {
        lemma_split_without(parts[0], c);
        assert(seq![parts[0]] =~= parts);
    } else {
        let init = parts.drop_last();
        assert forall|k: int| 0 <= k < init.len() implies !(#[trigger] init[k]).contains(c) by {
            assert(init[k] == parts[k]);
        }
        lemma_join_split(init, c);
        let j = join_with(init, c);
        lemma_split_append_free(j.push(c), parts.last(), c);
        assert(j.push(c).drop_last() =~= j);
        assert(j.push(c).last() == c);
        let r = split_on(j.push(c), c);
        assert(r == init.push(Seq::<char>::empty()));
        assert(Seq::<char>::empty() + parts.last() =~= parts.last());
        assert(r.update(r.len() - 1, r.last() + parts.last()) =~= parts);
    }
}

/// Joining two non-empty lists of pieces: the first joined, `c`, the second
/// joined.
pub proof fn lemma_join_append(a: Seq<Seq<char>>, b: Seq<Seq<char>>, c: char)
    requires
        a.len() > 0,
        b.len() > 0,
    ensures
        join_with(a + b, c) == join_with(a, c).push(c) + join_with(b, c),
    decreases b.len(),
{
    assert((a + b).drop_last() =~= a + b.drop_last());
    assert((a + b).last() == b.last());
    if b.len() == 1 {
        assert(a + b.drop_last() =~= a);
        assert(b.last() == b[0]);
    } else {
        lemma_join_append(a, b.drop_last(), c);
        assert(join_with(a + b, c) =~= join_with(a, c).push(c) + join_with(b, c));
    }
}

/// No piece of a split at `c` holds `c`.
pub proof fn lemma_split_pieces_free(s: Seq<char>, c: char)
    ensures
        forall|k: int| 0 <= k < split_on(s, c).len() ==> !(#[trigger] split_on(s, c)[k]).contains(c),
    decreases s.len(),
{
    if s.len() > 0 {
        let t = s.drop_last();
        lemma_split_pieces_free(t, c);
        lemma_split_nonempty(t, c);
        let r = split_on(t, c);
        if s.last() != c {
            let last = r.last().push(s.last());
            assert(!last.contains(c)) by {
                if last.contains(c) {
                    let k = choose|k: int| 0 <= k < last.len() && last[k] == c;
                    if k < r.last().len() {
                        assert(r[r.len() - 1][k] == c);
                    }
                }
            }
            assert forall|k: int| 0 <= k < split_on(s, c).len() implies !(#[trigger] split_on(
                s,
                c,
            )[k]).contains(c) by {
                if k < r.len() - 1 {
                    assert(split_on(s, c)[k] == r[k]);
                } else {
                    assert(split_on(s, c)[k] == last);
                }
            }
        } else {
            assert forall|k: int| 0 <= k < split_on(s, c).len() implies !(#[trigger] split_on(
                s,
                c,
            )[k]).contains(c) by {
                if k < r.len() {
                    assert(split_on(s, c)[k] == r[k]);
                } else {
                    assert(split_on(s, c)[k].len() == 0);
                }
            }
        }
    } else {
        assert forall|k: int| 0 <= k < split_on(s, c).len() implies !(#[trigger] split_on(
            s,
            c,
        )[k]).contains(c) by {
            assert(split_on(s, c)[k].len() == 0);
        }
    }
}

/// A string without `c` is one piece.
pub proof fn lemma_split_without(s: Seq<char>, c: char)
    requires
        !s.contains(c),
    ensures
        split_on(s, c) == seq![s],
    decreases s.len(),
{
    if s.len() > 0 {
        let t = s.drop_last();
        assert(!t.contains(c)) by {
            if t.contains(c) {
                let k = choose|k: int| 0 <= k < t.len() && t[k] == c;
                assert(s[k] == c);
            }
        }
        lemma_split_without(t, c);
        assert(s.last() != c) by {
            assert(s[s.len() - 1] == s.last());
        }
        assert(s =~= t.push(s.last()));
        assert(seq![t].update(0, t.push(s.last())) =~= seq![s]);
    } else {
        assert(s =~= Seq::<char>::empty());
    }
}

/// Whatever occurs in the second part of a concatenation occurs in the whole.
pub proof fn lemma_contains_in_suffix(a: Seq<char>, b: Seq<char>, t: Seq<char>)
    requires
        contains_seq(b, t),
    ensures
        contains_seq(a + b, t),
{
    let i = choose|i: int| occurs_at(b, i, t);
    assert((a + b).subrange(a.len() + i, a.len() + i + t.len()) =~= b.subrange(i, i + t.len()));
    assert(occurs_at(a + b, a.len() + i, t));
}

/// Whatever occurs in the first part of a concatenation occurs in the whole.
pub proof fn lemma_contains_in_prefix(a: Seq<char>, b: Seq<char>, t: Seq<char>)
    requires
        contains_seq(a, t),
    ensures
        contains_seq(a + b, t),
{
    let i = choose|i: int| occurs_at(a, i, t);
    assert((a + b).subrange(i, i + t.len()) =~= a.subrange(i, i + t.len()));
    assert(occurs_at(a + b, i, t));
}

/// A piece that is joined in occurs in the joined string.
pub proof fn lemma_join_contains(parts: Seq<Seq<char>>, c: char, k: int, t: Seq<char>)
    requires
        0 <= k < parts.len(),
        contains_seq(parts[k], t),
    ensures
        contains_seq(join_with(parts, c), t),
    decreases parts.len(),
{
    if parts.len() == 1 {
    } else if k == parts.len() - 1 {
        lemma_contains_in_suffix(join_with(parts.drop_last(), c).push(c), parts.last(), t);
    } else {
        lemma_join_contains(parts.drop_last(), c, k, t);
        let j = join_with(parts.drop_last(), c);
        lemma_contains_in_prefix(j, seq![c], t);
        assert(j.push(c) =~= j + seq![c]);
        lemma_contains_in_prefix(j.push(c), parts.last(), t);
    }
}

/// The part of `s` before the first occurrence of `t` (all of `s` when `t`
/// does not occur): the first item of `str::split`.
pub open spec fn first_piece(s: Seq<char>, t: Seq<char>) -> Seq<char>
    decreases s.len(),
{
    if s.len() == 0 || occurs_at(s, 0, t) {
        Seq::empty()
    } else {
        seq![s[0]] + first_piece(s.drop_first(), t)
    }
}

/// The first item of `str::split` with a string pattern.
pub fn split_first(s: &str, t: &str) -> (r: String)
    ensures
        r@ == first_piece(s@, t@),
{
    let sv = chars_of(s);
    let tv = chars_of(t);
    let mut i: usize = 0;
    assert(sv@.skip(0) =~= sv@);
    while i < sv.len() && !occurs_at_exec(&sv, i, &tv)
        invariant
            i <= sv.len(),
            sv@ == s@,
            tv@ == t@,
            first_piece(s@, t@) == sv@.take(i as int) + first_piece(sv@.skip(i as int), t@),
        decreases sv.len() - i,
    {
        let ghost rest = sv@.skip(i as int);
        assert(!occurs_at(rest, 0, t@)) by {
            if occurs_at(rest, 0, t@) {
                assert(rest.subrange(0, t@.len() as int) =~= sv@.subrange(i as int, i + t@.len()));
            }
        }
        assert(rest.drop_first() =~= sv@.skip(i as int + 1));
        assert(sv@.take(i as int + 1) =~= sv@.take(i as int) + seq![rest[0]]);
        i = i + 1;
    }
    proof {
        let rest = sv@.skip(i as int);
        if i < sv.len() {
            assert(occurs_at(rest, 0, t@)) by {
                assert(rest.subrange(0, t@.len() as int) =~= sv@.subrange(i as int, i + t@.len()));
            }
        }
        assert(sv@.take(i as int) + Seq::<char>::empty() =~= sv@.take(i as int));
    }
    string_from_chars(vec_slice(&sv, 0, i).as_slice())
}

/// The part after the last `c` (all of `s` when there is none): the first
/// item of `str::rsplit`.
pub open spec fn last_piece(s: Seq<char>, c: char) -> Seq<char> {
    split_on(s, c).last()
}

/// The first item of `str::rsplit` with a char pattern.
pub fn split_last(s: &str, c: char) -> (r: String)
    ensures
        r@ == last_piece(s@, c),
{
    let mut parts = split_char(s, c);
    proof {
        lemma_split_nonempty(s@, c);
    }
    let n = parts.len();
    let r = parts.remove(n - 1);
    r
}

/// The strings joined with `sep` between them (`[String]::join`).
pub fn join_strings(parts: &Vec<String>, sep: char) -> (r: String)
    ensures
        r@ == join_with(views(parts@), sep),
{
    let mut r = String::new();
    let mut i: usize = 0;
    while i < parts.len()
        invariant
            i <= parts.len(),
            r@ == join_with(views(parts@).take(i as int), sep),
        decreases parts.len() - i,
    {
        let ghost r0 = r@;
        if i > 0 {
            push_char(&mut r, sep);
        }
        r.append(parts[i].as_str());
        proof {
            let t = views(parts@).take(i as int + 1);
            assert(t.drop_last() =~= views(parts@).take(i as int));
            assert(t.last() == parts@[i as int]@);
            if i == 0 {
                assert(t.len() == 1);
                assert(r@ =~= t[0]);
            } else {
                assert(r@ =~= r0.push(sep) + t.last());
            }
        }
        i = i + 1;
    }
    assert(views(parts@).take(parts.len() as int) =~= views(parts@));
    r
}

} // verus!
