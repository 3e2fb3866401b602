use vstd::prelude::*;

use crate::text::{
    lemma_seq_lt_asymmetric, lemma_seq_lt_irreflexive, lemma_seq_lt_total,
    lemma_seq_lt_transitive, seq_lt, str_eq, str_lt,
};
pub use crate::text::views;

verus! {

/// Strictly increasing: sorted, and no string occurs twice.
pub open spec fn strictly_sorted(s: Seq<Seq<char>>) -> bool {
    forall|i: int, j: int| 0 <= i < j < s.len() ==> seq_lt(#[trigger] s[i], #[trigger] s[j])
}

/// The keys of a list of pairs.
pub open spec fn keys_of<V>(v: Seq<(String, V)>) -> Seq<Seq<char>> {
    v.map_values(|p: (String, V)| p.0@)
}

/// The strings of a list, as a set.
pub open spec fn members(v: Seq<String>) -> Set<Seq<char>> {
    Set::new(|x: Seq<char>| views(v).contains(x))
}

/// The position of key `k` in a list of pairs.
pub open spec fn key_index<V>(v: Seq<(String, V)>, k: Seq<char>) -> int {
    choose|i: int| 0 <= i < v.len() && v[i].0@ == k
}

/// A list of pairs with distinct keys read as a map from key to value.
pub open spec fn pairs_map<V>(v: Seq<(String, V)>) -> Map<Seq<char>, V> {
    Map::new(|k: Seq<char>| keys_of(v).contains(k), |k: Seq<char>| v[key_index(v, k)].1)
}

/// In a list with strictly sorted keys, a key occurs at one position only.
pub proof fn lemma_key_unique<V>(v: Seq<(String, V)>, i: int, j: int)
    requires
        strictly_sorted(keys_of(v)),
        0 <= i < v.len(),
        0 <= j < v.len(),
        v[i].0@ == v[j].0@,
    ensures
        i == j,
{
    if i < j {
        assert(seq_lt(keys_of(v)[i], keys_of(v)[j]));
        lemma_seq_lt_irreflexive(v[i].0@);
    } else if j < i {
        assert(seq_lt(keys_of(v)[j], keys_of(v)[i]));
        lemma_seq_lt_irreflexive(v[i].0@);
    }
}

/// The key at position `i` maps to the value at position `i`.
pub proof fn lemma_pairs_map_at<V>(v: Seq<(String, V)>, i: int)
    requires
        strictly_sorted(keys_of(v)),
        0 <= i < v.len(),
    ensures
        pairs_map(v).dom().contains(v[i].0@),
        pairs_map(v)[v[i].0@] == v[i].1,
{
    assert(keys_of(v)[i] == v[i].0@);
    let j = key_index(v, v[i].0@);
    lemma_key_unique(v, i, j);
}

/// Two strictly sorted sequences holding the same strings are the same sequence.
pub proof fn lemma_sorted_unique(a: Seq<Seq<char>>, b: Seq<Seq<char>>)
    requires
        strictly_sorted(a),
        strictly_sorted(b),
        forall|x: Seq<char>| a.contains(x) <==> b.contains(x),
    ensures
        a == b,
    decreases a.len() + b.len(),
{
    if a.len() == 0 {
        if b.len() > 0 {
            assert(b.contains(b[0]));
        }
        assert(a =~= b);
    } else if b.len() == 0 {
        assert(a.contains(a[0]));
    } else {
        // the last elements are the largest of each, so they agree
        let la = a.last();
        let lb = b.last();
        assert(a.contains(la));
        assert(b.contains(lb));
        let ia = choose|i: int| 0 <= i < a.len() && a[i] == lb;
        let ib = choose|i: int| 0 <= i < b.len() && b[i] == la;
        if la != lb {
            lemma_seq_lt_total(la, lb);
            if seq_lt(la, lb) {
                // lb occurs in a, so lb <= la
                if ia < a.len() - 1 {
                    lemma_seq_lt_asymmetric(la, lb);
                } else {
                    lemma_seq_lt_irreflexive(la);
                }
            } else {
                if ib < b.len() - 1 {
                    lemma_seq_lt_asymmetric(lb, la);
                } else {
                    lemma_seq_lt_irreflexive(lb);
                }
            }
        }
        let a2 = a.drop_last();
        let b2 = b.drop_last();
        assert forall|x: Seq<char>| a2.contains(x) <==> b2.contains(x) by {
            if a2.contains(x) {
                let k = choose|k: int| 0 <= k < a2.len() && a2[k] == x;
                assert(a[k] == x);
                assert(seq_lt(x, la));
                lemma_seq_lt_irreflexive(x);
                assert(b.contains(x));
                let m = choose|m: int| 0 <= m < b.len() && b[m] == x;
                if m == b.len() - 1 {
                    assert(x == lb);
                }
                assert(b2[m] == x);
            }
            if b2.contains(x) {
                let k = choose|k: int| 0 <= k < b2.len() && b2[k] == x;
                assert(b[k] == x);
                assert(seq_lt(x, lb));
                lemma_seq_lt_irreflexive(x);
                assert(a.contains(x));
                let m = choose|m: int| 0 <= m < a.len() && a[m] == x;
                if m == a.len() - 1 {
                    assert(x == la);
                }
                assert(a2[m] == x);
            }
        }
        lemma_sorted_unique(a2, b2);
        assert(a =~= a2.push(la));
        assert(b =~= b2.push(lb));
    }
}

/// Adds `x` to a strictly sorted list of strings, keeping it strictly sorted
/// (the ordered-set insertion of `BTreeSet`).
pub fn insert_sorted(v: &mut Vec<String>, x: String)
    requires
        strictly_sorted(views(old(v)@)),
    ensures
        strictly_sorted(views(final(v)@)),
        forall|y: Seq<char>|
            views(final(v)@).contains(y) <==> (views(old(v)@).contains(y) || y == x@),
{
    let ghost old_views = views(v@);
    let mut i: usize = 0;
    while i < v.len() && str_lt(v[i].as_str(), x.as_str())
        invariant
            i <= v.len(),
            views(v@) == old_views,
            strictly_sorted(old_views),
            forall|k: int| 0 <= k < i ==> seq_lt(#[trigger] old_views[k], x@),
        decreases v.len() - i,
    {
        i = i + 1;
    }
    if i < v.len() && str_eq(v[i].as_str(), x.as_str()) {
        assert forall|y: Seq<char>| views(v@).contains(y) <==> (old_views.contains(y) || y == x@) by {
            if y == x@ {
                assert(views(v@)[i as int] == y);
            }
        }
        return ;
    }
    let ghost xv = x@;
    proof {
        if i < v.len() {
            lemma_seq_lt_total(old_views[i as int], xv);
        }
        // everything from position i on is above x
        assert forall|k: int| i <= k < old_views.len() implies seq_lt(xv, #[trigger] old_views[k]) by {
            if k > i {
                lemma_seq_lt_transitive(xv, old_views[i as int], old_views[k]);
            }
        }
    }
    v.insert(i, x);
    let ghost nv = views(v@);
    assert(nv =~= old_views.insert(i as int, xv));
    assert forall|a: int, b: int| 0 <= a < b < nv.len() implies seq_lt(
        #[trigger] nv[a],
        #[trigger] nv[b],
    ) by {
        if b < i {
        } else if a < i && b == i {
        } else if a < i && b > i {
            lemma_seq_lt_transitive(old_views[a], xv, old_views[b - 1]);
        } else if a == i {
        } else {
        }
    }
    assert forall|y: Seq<char>| nv.contains(y) <==> (old_views.contains(y) || y == xv) by {
        if y == xv {
            assert(nv[i as int] == y);
        }
        if old_views.contains(y) {
            let k = choose|k: int| 0 <= k < old_views.len() && old_views[k] == y;
            if k < i {
                assert(nv[k] == y);
            } else {
                assert(nv[k + 1] == y);
            }
        }
        if nv.contains(y) {
            let k = choose|k: int| 0 <= k < nv.len() && nv[k] == y;
            if k < i {
                assert(old_views[k] == y);
            } else if k > i {
                assert(old_views[k - 1] == y);
            }
        }
    }
}

/// `insert_sorted` in terms of the member sets.
pub proof fn lemma_members_insert(old_v: Seq<String>, new_v: Seq<String>, x: Seq<char>)
    requires
        forall|y: Seq<char>| views(new_v).contains(y) <==> (views(old_v).contains(y) || y == x),
    ensures
        members(new_v) == members(old_v).insert(x),
{
    assert(members(new_v) =~= members(old_v).insert(x));
}

/// The position of key `k`, if present, in a list with strictly sorted keys.
pub fn find_key<V>(v: &Vec<(String, V)>, k: &str) -> (r: Option<usize>)
    requires
        strictly_sorted(keys_of(v@)),
    ensures
        match r {
            Some(i) => i < v.len() && v@[i as int].0@ == k@,
            None => !keys_of(v@).contains(k@),
        },
{
    let mut i: usize = 0;
    while i < v.len()
        invariant
            i <= v.len(),
            forall|j: int| 0 <= j < i ==> (#[trigger] v@[j]).0@ != k@,
        decreases v.len() - i,
    {
        if str_eq(v[i].0.as_str(), k) {
            return Some(i);
        }
        i = i + 1;
    }
    assert forall|j: int| 0 <= j < v.len() implies keys_of(v@)[j] != k@ by {
        assert(keys_of(v@)[j] == v@[j].0@);
    }
    None
}

/// Sets `k` to `val`, adding the key in sorted position if it is new
/// (`BTreeMap::insert`).
pub fn upsert<V>(v: &mut Vec<(String, V)>, k: String, val: V)
    requires
        strictly_sorted(keys_of(old(v)@)),
    ensures
        strictly_sorted(keys_of(final(v)@)),
        pairs_map(final(v)@) == pairs_map(old(v)@).insert(k@, val),
{
    let ghost ov = v@;
    let ghost kv = k@;
    let mut i: usize = 0;
    while i < v.len() && str_lt(v[i].0.as_str(), k.as_str())
        invariant
            i <= v.len(),
            v@ == ov,
            k@ == kv,
            strictly_sorted(keys_of(ov)),
            forall|j: int| 0 <= j < i ==> seq_lt(#[trigger] keys_of(ov)[j], kv),
        decreases v.len() - i,
    {
        assert(keys_of(ov)[i as int] == v@[i as int].0@);
        i = i + 1;
    }
    if i < v.len() && str_eq(v[i].0.as_str(), k.as_str()) {
        v.set(i, (k, val));
        let ghost nv = v@;
        assert(keys_of(nv) =~= keys_of(ov));
        assert(pairs_map(nv) =~= pairs_map(ov).insert(kv, val)) by {
            assert forall|key: Seq<char>| pairs_map(nv).dom().contains(key) <==> pairs_map(
                ov,
            ).insert(kv, val).dom().contains(key) by {
                if key == kv {
                    assert(keys_of(ov)[i as int] == kv);
                }
            }
            assert forall|key: Seq<char>| #[trigger]
                pairs_map(nv).dom().contains(key) implies pairs_map(nv)[key] == pairs_map(
                ov,
            ).insert(kv, val)[key] by {
                let j = key_index(nv, key);
                assert(keys_of(nv).contains(key));
                lemma_pairs_map_at(nv, j);
                if key == kv {
                    lemma_key_unique(nv, i as int, j);
                } else {
                    lemma_pairs_map_at(ov, j);
                }
            }
        }
        return ;
    }
    proof {
        if i < v.len() {
            assert(keys_of(ov)[i as int] == v@[i as int].0@);
            lemma_seq_lt_total(keys_of(ov)[i as int], kv);
        }
        assert forall|j: int| i <= j < ov.len() implies seq_lt(kv, #[trigger] keys_of(ov)[j]) by {
            if j > i {
                lemma_seq_lt_transitive(kv, keys_of(ov)[i as int], keys_of(ov)[j]);
            }
        }
    }
    v.insert(i, (k, val));
    let ghost nv = v@;
    assert(keys_of(nv) =~= keys_of(ov).insert(i as int, kv));
    let ghost nk = keys_of(nv);
    let ghost ok = keys_of(ov);
    assert forall|a: int, b: int| 0 <= a < b < nk.len() implies seq_lt(
        #[trigger] nk[a],
        #[trigger] nk[b],
    ) by {
        if a < i && b > i {
            lemma_seq_lt_transitive(ok[a], kv, ok[b - 1]);
        }
    }
    assert(pairs_map(nv) =~= pairs_map(ov).insert(kv, val)) by {
        assert forall|key: Seq<char>| pairs_map(nv).dom().contains(key) <==> pairs_map(
            ov,
        ).insert(kv, val).dom().contains(key) by {
            if key == kv {
                assert(nk[i as int] == kv);
            }
            if ok.contains(key) {
                let m = choose|m: int| 0 <= m < ok.len() && ok[m] == key;
                if m < i {
                    assert(nk[m] == key);
                } else {
                    assert(nk[m + 1] == key);
                }
            }
            if nk.contains(key) {
                let m = choose|m: int| 0 <= m < nk.len() && nk[m] == key;
                if m < i {
                    assert(ok[m] == key);
                } else if m > i {
                    assert(ok[m - 1] == key);
                }
            }
        }
        assert forall|key: Seq<char>| #[trigger]
            pairs_map(nv).dom().contains(key) implies pairs_map(nv)[key] == pairs_map(ov).insert(
            kv,
            val,
        )[key] by {
            let j = key_index(nv, key);
            assert(nk.contains(key));
            lemma_pairs_map_at(nv, j);
            if key == kv {
                lemma_key_unique(nv, i as int, j);
            } else if j < i {
                lemma_pairs_map_at(ov, j);
            } else {
                lemma_pairs_map_at(ov, j - 1);
            }
        }
    }
}

/// Removes key `k` if present (`BTreeMap::remove`).
pub fn remove_key<V>(v: &mut Vec<(String, V)>, k: &str)
    requires
        strictly_sorted(keys_of(old(v)@)),
    ensures
        strictly_sorted(keys_of(final(v)@)),
        pairs_map(final(v)@) == pairs_map(old(v)@).remove(k@),
{
    let ghost ov = v@;
    match find_key(v, k) {
        None => {
            assert(pairs_map(ov) =~= pairs_map(ov).remove(k@));
        },
        Some(i) => {
            let _ = v.remove(i);
            let ghost nv = v@;
            let ghost nk = keys_of(nv);
            let ghost ok = keys_of(ov);
            assert(nk =~= ok.remove(i as int));
            assert forall|a: int, b: int| 0 <= a < b < nk.len() implies seq_lt(
                #[trigger] nk[a],
                #[trigger] nk[b],
            ) by {
                if a < i && b >= i {
                    assert(nk[b] == ok[b + 1]);
                } else if a >= i {
                    assert(nk[a] == ok[a + 1]);
                    assert(nk[b] == ok[b + 1]);
                }
            }
            assert(pairs_map(nv) =~= pairs_map(ov).remove(k@)) by {
                assert forall|key: Seq<char>| pairs_map(nv).dom().contains(key) <==> pairs_map(
                    ov,
                ).remove(k@).dom().contains(key) by {
                    if ok.contains(key) && key != k@ {
                        let m = choose|m: int| 0 <= m < ok.len() && ok[m] == key;
                        if m < i {
                            assert(nk[m] == key);
                        } else {
                            assert(m != i);
                            assert(nk[m - 1] == key);
                        }
                    }
                    if nk.contains(key) {
                        let m = choose|m: int| 0 <= m < nk.len() && nk[m] == key;
                        if m < i {
                            assert(ok[m] == key);
                            assert(ok[i as int] == k@);
                            if key == k@ {
                                lemma_key_unique(ov, m, i as int);
                            }
                        } else {
                            assert(ok[m + 1] == key);
                            assert(ok[i as int] == k@);
                            if key == k@ {
                                lemma_key_unique(ov, m + 1, i as int);
                            }
                        }
                    }
                }
                assert forall|key: Seq<char>| #[trigger]
                    pairs_map(nv).dom().contains(key) implies pairs_map(nv)[key] == pairs_map(
                    ov,
                )[key] by {
                    let j = key_index(nv, key);
                    assert(nk.contains(key));
                    lemma_pairs_map_at(nv, j);
                    if j < i {
                        lemma_pairs_map_at(ov, j);
                    } else {
                        lemma_pairs_map_at(ov, j + 1);
                    }
                }
            }
        },
    }
}

} // verus!
