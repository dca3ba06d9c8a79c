//! Ordering by text keys: the lexicographic order of `str` (code point by code
//! point, as `String`'s `Ord` compares UTF-8 bytes) and a stable sort by it.

use vstd::prelude::*;

verus! {

/// `a < b` in the order of `String`.
pub open spec fn lex_lt(a: Seq<char>, b: Seq<char>) -> bool
    decreases a.len(),
{
    if a.len() == 0 {
        b.len() > 0
    } else if b.len() == 0 {
        false
    } else if a[0] < b[0] {
        true
    } else if a[0] > b[0] {
        false
    } else {
        lex_lt(a.drop_first(), b.drop_first())
    }
}

pub proof fn lemma_lex_irreflexive(a: Seq<char>)
    ensures
        !lex_lt(a, a),
    decreases a.len(),
{
    if a.len() > 0 {
        lemma_lex_irreflexive(a.drop_first());
    }
}

pub proof fn lemma_lex_transitive(a: Seq<char>, b: Seq<char>, c: Seq<char>)
    requires
        lex_lt(a, b),
        lex_lt(b, c),
    ensures
        lex_lt(a, c),
    decreases a.len(),
{
    if a.len() > 0 && b.len() > 0 && c.len() > 0 && a[0] == b[0] && b[0] == c[0] {
        lemma_lex_transitive(a.drop_first(), b.drop_first(), c.drop_first());
    }
}

pub proof fn lemma_lex_asymmetric(a: Seq<char>, b: Seq<char>)
    requires
        lex_lt(a, b),
    ensures
        !lex_lt(b, a),
{
    if lex_lt(b, a) {
        lemma_lex_transitive(a, b, a);
        lemma_lex_irreflexive(a);
    }
}

/// `a` goes strictly before `b`: ascending by `lex_lt`, or descending.
pub open spec fn before(a: Seq<char>, b: Seq<char>, desc: bool) -> bool {
    if desc {
        lex_lt(b, a)
    } else {
        lex_lt(a, b)
    }
}

pub proof fn lemma_before(a: Seq<char>, b: Seq<char>, c: Seq<char>, desc: bool)
    ensures
        !before(a, a, desc),
        before(a, b, desc) ==> !before(b, a, desc),
        before(a, b, desc) && before(b, c, desc) ==> before(a, c, desc),
{
    lemma_lex_irreflexive(a);
    if before(a, b, desc) {
        if desc {
            lemma_lex_asymmetric(b, a);
        } else {
            lemma_lex_asymmetric(a, b);
        }
        if before(b, c, desc) {
            if desc {
                lemma_lex_transitive(c, b, a);
            } else {
                lemma_lex_transitive(a, b, c);
            }
        }
    }
}

/// `a < b` for character vectors.
pub fn lex_less(a: &Vec<char>, b: &Vec<char>) -> (r: bool)
    ensures
        r == lex_lt(a@, b@),
{
    let mut i: usize = 0;
    assert(a@.skip(0) =~= a@);
    assert(b@.skip(0) =~= b@);
    while i < a.len() && i < b.len() && a[i] == b[i]
        invariant
            i <= a@.len(),
            i <= b@.len(),
            lex_lt(a@, b@) == lex_lt(a@.skip(i as int), b@.skip(i as int)),
        decreases a@.len() - i,
    {
        proof {
            assert(a@.skip(i as int).drop_first() =~= a@.skip(i + 1));
            assert(b@.skip(i as int).drop_first() =~= b@.skip(i + 1));
        }
        i = i + 1;
    }
    if i == a.len() {
        i < b.len()
    } else if i == b.len() {
        false
    } else {
        a[i] < b[i]
    }
}

/// Whether `a` goes strictly before `b`.
pub fn goes_before(a: &Vec<char>, b: &Vec<char>, desc: bool) -> (r: bool)
    ensures
        r == before(a@, b@, desc),
{
    if desc {
        lex_less(b, a)
    } else {
        lex_less(a, b)
    }
}

/// The keys of keyed items.
pub open spec fn keys<T>(s: Seq<(Vec<char>, T)>) -> Seq<Seq<char>> {
    s.map_values(|e: (Vec<char>, T)| e.0@)
}

/// Sorted: no key goes strictly before an earlier one.
pub open spec fn sorted_by(ks: Seq<Seq<char>>, desc: bool) -> bool {
    forall|i: int, j: int| 0 <= i < j < ks.len() ==> !before(#[trigger] ks[j], #[trigger] ks[i], desc)
}

/// `p` is a permutation of `0..n`.
pub open spec fn is_perm(p: Seq<int>, n: int) -> bool {
    &&& p.len() == n
    &&& forall|i: int| 0 <= i < n ==> 0 <= #[trigger] p[i] < n
    &&& forall|i: int, j: int| 0 <= i < j < n ==> #[trigger] p[i] != #[trigger] p[j]
}

/// `r` is `s` sorted by key, items with equal keys keeping their order.
pub open spec fn stable_sorted<T>(s: Seq<(Vec<char>, T)>, r: Seq<(Vec<char>, T)>, desc: bool) -> bool {
    exists|p: Seq<int>|
        {
            &&& is_perm(p, s.len() as int)
            &&& r.len() == s.len()
            &&& forall|i: int| 0 <= i < r.len() ==> #[trigger] r[i] == s[p[i]]
            &&& sorted_by(keys(r), desc)
            &&& forall|i: int, j: int|
                0 <= i < j < r.len() && r[i].0@ == r[j].0@ ==> #[trigger] p[i] < #[trigger] p[j]
        }
}

/// Sorts keyed items by key (descending when `desc`); items with equal keys
/// keep their order.
pub fn stable_sort<T>(v: Vec<(Vec<char>, T)>, desc: bool) -> (r: Vec<(Vec<char>, T)>)
    ensures
        stable_sorted(v@, r@, desc),
{
    let ghost s = v@;
    let n = v.len();
    let mut src = v;
    let mut r: Vec<(Vec<char>, T)> = Vec::new();
    let ghost mut p: Seq<int> = seq![];
    let mut k: usize = 0;
    while k < n
        invariant
            n == s.len(),
            k <= n,
            src@ == s.skip(k as int),
            r@.len() == k,
            p.len() == k,
            forall|i: int| 0 <= i < k ==> 0 <= #[trigger] p[i] < k,
            forall|i: int, j: int| 0 <= i < j < k ==> #[trigger] p[i] != #[trigger] p[j],
            forall|i: int| 0 <= i < k ==> #[trigger] r@[i] == s[p[i]],
            sorted_by(keys(r@), desc),
            forall|i: int, j: int|
                0 <= i < j < k && r@[i].0@ == r@[j].0@ ==> #[trigger] p[i] < #[trigger] p[j],
        decreases n - k,
    {
        let x = src.remove(0);
        assert(x == s[k as int]);
        assert(src@ =~= s.skip(k + 1));
        let mut pos: usize = 0;
        while pos < r.len() && !goes_before(&x.0, &r[pos].0, desc)
            invariant
                pos <= r@.len(),
                forall|i: int| 0 <= i < pos ==> !before(x.0@, #[trigger] r@[i].0@, desc),
            decreases r@.len() - pos,
        {
            pos = pos + 1;
        }
        let ghost old_r = r@;
        let ghost old_p = p;
        let ghost xk = x.0@;
        r.insert(pos, x);
        proof {
            p = old_p.insert(pos as int, k as int);
            let ks = keys(r@);
            assert forall|i: int, j: int| 0 <= i < j < r@.len() implies !before(
                #[trigger] ks[j],
                #[trigger] ks[i],
                desc,
            ) by {
                if i < pos && j < pos {
                    assert(ks[i] == keys(old_r)[i] && ks[j] == keys(old_r)[j]);
                } else if i > pos && j > pos {
                    assert(ks[i] == keys(old_r)[i - 1] && ks[j] == keys(old_r)[j - 1]);
                } else if i < pos && j > pos {
                    assert(ks[i] == keys(old_r)[i] && ks[j] == keys(old_r)[j - 1]);
                } else if i == pos {
                    // x before the items after it
                    assert(ks[i] == xk);
                    assert(ks[j] == keys(old_r)[j - 1]);
                    let first = keys(old_r)[pos as int];
                    lemma_before(ks[j], xk, first, desc);
                    lemma_before(xk, first, first, desc);
                    if j - 1 > pos {
                        assert(!before(keys(old_r)[j - 1], first, desc));
                    }
                } else {
                    assert(j == pos);
                    assert(ks[j] == xk);
                    assert(ks[i] == keys(old_r)[i]);
                }
            }
            assert forall|i: int, j: int|
                0 <= i < j < r@.len() && r@[i].0@ == r@[j].0@ implies #[trigger] p[i]
                < #[trigger] p[j] by {
                if i < pos && j < pos {
                } else if i > pos && j > pos {
                } else if i < pos && j > pos {
                } else if i == pos {
                    let first = keys(old_r)[pos as int];
                    assert(r@[j].0@ == keys(old_r)[j - 1]);
                    lemma_before(xk, first, first, desc);
                    if j - 1 > pos {
                        assert(!before(keys(old_r)[j - 1], first, desc));
                    }
                    assert(false);
                } else {
                    assert(p[j] == k);
                    assert(p[i] == old_p[i]);
                }
            }
            assert forall|i: int| 0 <= i < k + 1 implies #[trigger] r@[i] == s[p[i]] by {
                if i < pos {
                } else if i > pos {
                    assert(r@[i] == old_r[i - 1]);
                    assert(p[i] == old_p[i - 1]);
                }
            }
            assert forall|i: int, j: int| 0 <= i < j < k + 1 implies #[trigger] p[i]
                != #[trigger] p[j] by {
                if i < pos && j > pos {
                    assert(p[j] == old_p[j - 1]);
                } else if i > pos {
                    assert(p[i] == old_p[i - 1]);
                    assert(p[j] == old_p[j - 1]);
                }
            }
        }
        k = k + 1;
    }
    proof {
        assert(is_perm(p, s.len() as int));
    }
    r
}

} // verus!

verus! {

/// `r` is `s` reordered.
pub open spec fn permutes<A>(r: Seq<A>, s: Seq<A>) -> bool {
    exists|p: Seq<int>|
        #![trigger is_perm(p, s.len() as int)]
        is_perm(p, s.len() as int) && r.len() == s.len() && forall|i: int|
            0 <= i < r.len() ==> #[trigger] r[i] == s[p[i]]
}

/// Sorts strings in the order of `String`.
pub fn sort_strings(v: Vec<String>) -> (r: Vec<String>)
    ensures
        permutes(r@, v@),
        sorted_by(crate::text::sviews(r@), false),
{
    let ghost s = v@;
    let mut pairs: Vec<(Vec<char>, String)> = Vec::new();
    let n = v.len();
    let mut src = v;
    let mut k: usize = 0;
    while k < n
        invariant
            n == s.len(),
            k <= n,
            src@ == s.skip(k as int),
            pairs@.len() == k,
            forall|i: int| 0 <= i < k ==> (#[trigger] pairs@[i]).1 == s[i] && pairs@[i].0@ == s[i]@,
        decreases n - k,
    {
        let x = src.remove(0);
        assert(x == s[k as int]);
        assert(src@ =~= s.skip(k + 1));
        let key = crate::text::to_chars(x.as_str());
        pairs.push((key, x));
        k = k + 1;
    }
    let sorted = stable_sort(pairs, false);
    let ghost ps = pairs@;
    let ghost p = choose|p: Seq<int>|
        {
            &&& is_perm(p, ps.len() as int)
            &&& sorted@.len() == ps.len()
            &&& forall|i: int| 0 <= i < sorted@.len() ==> #[trigger] sorted@[i] == ps[p[i]]
            &&& sorted_by(keys(sorted@), false)
            &&& forall|i: int, j: int|
                0 <= i < j < sorted@.len() && sorted@[i].0@ == sorted@[j].0@ ==> #[trigger] p[i]
                    < #[trigger] p[j]
        };
    let mut out: Vec<String> = Vec::new();
    let m = sorted.len();
    let mut src2 = sorted;
    let ghost srt = src2@;
    let mut j: usize = 0;
    while j < m
        invariant
            m == srt.len(),
            j <= m,
            src2@ == srt.skip(j as int),
            out@.len() == j,
            forall|i: int| 0 <= i < j ==> #[trigger] out@[i] == srt[i].1,
        decreases m - j,
    {
        let x = src2.remove(0);
        assert(x == srt[j as int]);
        assert(src2@ =~= srt.skip(j + 1));
        out.push(x.1);
        j = j + 1;
    }
    proof {
        assert forall|i: int| 0 <= i < out@.len() implies #[trigger] out@[i] == s[p[i]] by {
            assert(srt[i] == ps[p[i]]);
        }
        assert(crate::text::sviews(out@) =~= keys(srt));
    }
    out
}

} // verus!
