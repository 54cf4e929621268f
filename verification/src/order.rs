//! Lexicographic order of strings, and sorted lists of distinct strings.
use vstd::prelude::*;
use crate::text::{string_of, strings_view, vec_views};

verus! {

/// Whether `a` comes strictly before `b` in lexicographic order of code points (the order of
/// `String`, whose UTF-8 bytes sort as their code points do).
pub open spec fn lex_lt(a: Seq<char>, b: Seq<char>) -> bool
    decreases a.len(),
{
    if a.len() == 0 {
        b.len() > 0
    } else if b.len() == 0 {
        false
    } else if a[0] != b[0] {
        (a[0] as int) < (b[0] as int)
    } else {
        lex_lt(a.drop_first(), b.drop_first())
    }
}

/// Whether the strings are in strictly increasing order.
pub open spec fn strictly_sorted(v: Seq<Seq<char>>) -> bool {
    forall|i: int, j: int| 0 <= i < j < v.len() ==> lex_lt(#[trigger] v[i], #[trigger] v[j])
}

/// Whether `a` and `b` hold the same strings, regardless of order and repetition.
pub open spec fn same_elements(a: Seq<Seq<char>>, b: Seq<Seq<char>>) -> bool {
    forall|x: Seq<char>| a.contains(x) <==> b.contains(x)
}

pub proof fn lemma_lex_irreflexive(a: Seq<char>)
    ensures
        !lex_lt(a, a),
    decreases a.len(),
{
    if a.len() > 0 {
        lemma_lex_irreflexive(a.drop_first());
    }
}

pub proof fn lemma_lex_transitive(a: Seq<char>, b: Seq<char>, c: Seq<char>)
    requires
        lex_lt(a, b),
        lex_lt(b, c),
    ensures
        lex_lt(a, c),
    decreases a.len(),
{
    if a.len() > 0 && b.len() > 0 && c.len() > 0 {
        if a[0] == b[0] && b[0] == c[0] {
            lemma_lex_transitive(a.drop_first(), b.drop_first(), c.drop_first());
        }
    }
}

pub proof fn lemma_lex_total(a: Seq<char>, b: Seq<char>)
    ensures
        a == b || lex_lt(a, b) || lex_lt(b, a),
    decreases a.len(),
{
    if a.len() > 0 && b.len() > 0 && a[0] == b[0] {
        lemma_lex_total(a.drop_first(), b.drop_first());
        if a.drop_first() == b.drop_first() {
            assert(a =~= seq![a[0]] + a.drop_first());
            assert(b =~= seq![b[0]] + b.drop_first());
        }
    } else if a.len() == 0 && b.len() == 0 {
        assert(a =~= b);
    } else if a.len() > 0 && b.len() > 0 {
        assert((a[0] as int) != (b[0] as int));
    }
}

/// The strings of `s` in increasing order, each once.
pub open spec fn sorted_distinct(s: Seq<Seq<char>>) -> Seq<Seq<char>> {
    choose|r: Seq<Seq<char>>| strictly_sorted(r) && same_elements(r, s)
}

proof fn lemma_sorted_drop_first(a: Seq<Seq<char>>)
    requires
        a.len() > 0,
        strictly_sorted(a),
    ensures
        strictly_sorted(a.drop_first()),
        forall|x: Seq<char>| a.drop_first().contains(x) <==> (a.contains(x) && x != a[0]),
{
    let d = a.drop_first();
    assert forall|i: int, j: int| 0 <= i < j < d.len() implies lex_lt(#[trigger] d[i], #[trigger] d[j]) by {
        assert(d[i] == a[i + 1] && d[j] == a[j + 1]);
    }
    assert forall|x: Seq<char>| d.contains(x) <==> (a.contains(x) && x != a[0]) by {
        if d.contains(x) {
            let q = choose|q: int| 0 <= q < d.len() && d[q] == x;
            assert(a[q + 1] == x);
            assert(lex_lt(a[0], a[q + 1]));
            lemma_lex_irreflexive(x);
        }
        if a.contains(x) && x != a[0] {
            let q = choose|q: int| 0 <= q < a.len() && a[q] == x;
            assert(q > 0);
            assert(d[q - 1] == x);
        }
    }
}

/// Two strictly increasing lists that hold the same strings are equal.
pub proof fn lemma_sorted_same_elements_equal(a: Seq<Seq<char>>, b: Seq<Seq<char>>)
    requires
        strictly_sorted(a),
        strictly_sorted(b),
        same_elements(a, b),
    ensures
        a == b,
    decreases a.len(),
{
    if a.len() == 0 {
        if b.len() > 0 {
            assert(b.contains(b[0]));
        }
        assert(a =~= b);
    } else {
        assert(a.contains(a[0]));
        let j = choose|j: int| 0 <= j < b.len() && b[j] == a[0];
        assert(b.contains(b[0]));
        let k = choose|k: int| 0 <= k < a.len() && a[k] == b[0];
        if j > 0 {
            assert(lex_lt(b[0], b[j]));
            if k > 0 {
                assert(lex_lt(a[0], a[k]));
                lemma_lex_transitive(a[0], b[0], a[0]);
            }
            lemma_lex_irreflexive(a[0]);
        }
        assert(a[0] == b[0]);
        lemma_sorted_drop_first(a);
        lemma_sorted_drop_first(b);
        assert forall|x: Seq<char>| a.drop_first().contains(x) <==> b.drop_first().contains(x) by {
            assert(a.contains(x) <==> b.contains(x));
        }
        lemma_sorted_same_elements_equal(a.drop_first(), b.drop_first());
        assert(a =~= seq![a[0]] + a.drop_first());
        assert(b =~= seq![b[0]] + b.drop_first());
    }
}

/// A strictly increasing list with the strings of `s` is `sorted_distinct(s)`.
pub proof fn lemma_sorted_distinct_of(r: Seq<Seq<char>>, s: Seq<Seq<char>>)
    requires
        strictly_sorted(r),
        same_elements(r, s),
    ensures
        r == sorted_distinct(s),
{
    let c = sorted_distinct(s);
    assert(strictly_sorted(c) && same_elements(c, s));
    assert(same_elements(r, c));
    lemma_sorted_same_elements_equal(r, c);
}

proof fn lemma_insert_sorted(r: Seq<Seq<char>>, x: Seq<char>) -> (w: Seq<Seq<char>>)
    requires
        strictly_sorted(r),
    ensures
        strictly_sorted(w),
        forall|y: Seq<char>| w.contains(y) <==> (r.contains(y) || y == x),
    decreases r.len(),
{
    if r.len() == 0 {
        let w = seq![x];
        assert forall|y: Seq<char>| w.contains(y) <==> (r.contains(y) || y == x) by {
            if w.contains(y) {
                assert(w[0] == x);
            }
            if y == x {
                assert(w[0] == y);
            }
        }
        w
    } else if r[0] == x {
        r
    } else if lex_lt(x, r[0]) {
        lemma_sorted_insert(r, 0, x);
        let w = r.insert(0, x);
        assert forall|y: Seq<char>| w.contains(y) <==> (r.contains(y) || y == x) by {
            if w.contains(y) {
                let q = choose|q: int| 0 <= q < w.len() && w[q] == y;
                if q > 0 {
                    assert(r[q - 1] == y);
                }
            }
            if r.contains(y) {
                let q = choose|q: int| 0 <= q < r.len() && r[q] == y;
                assert(w[q + 1] == y);
            }
            if y == x {
                assert(w[0] == y);
            }
        }
        w
    } else {
        lemma_lex_total(x, r[0]);
        lemma_sorted_drop_first(r);
        let t = lemma_insert_sorted(r.drop_first(), x);
        let w = seq![r[0]] + t;
        assert forall|i: int, j: int| 0 <= i < j < w.len() implies lex_lt(#[trigger] w[i], #[trigger] w[j]) by {
            if i == 0 {
                assert(w[j] == t[j - 1]);
                assert(t.contains(t[j - 1]));
                if t[j - 1] == x {
                } else {
                    assert(r.drop_first().contains(t[j - 1]));
                    let q = choose|q: int| 0 <= q < r.drop_first().len() && r.drop_first()[q] == t[j - 1];
                    assert(r[q + 1] == t[j - 1]);
                }
            } else {
                assert(w[i] == t[i - 1] && w[j] == t[j - 1]);
            }
        }
        assert forall|y: Seq<char>| w.contains(y) <==> (r.contains(y) || y == x) by {
            if w.contains(y) {
                let q = choose|q: int| 0 <= q < w.len() && w[q] == y;
                if q > 0 {
                    assert(t[q - 1] == y);
                    assert(t.contains(y));
                } else {
                    assert(r[0] == y);
                }
            }
            if r.contains(y) {
                if y == r[0] {
                    assert(w[0] == y);
                } else {
                    assert(r.drop_first().contains(y));
                    assert(t.contains(y));
                    let q = choose|q: int| 0 <= q < t.len() && t[q] == y;
                    assert(w[q + 1] == y);
                }
            }
            if y == x {
                assert(t.contains(y));
                let q = choose|q: int| 0 <= q < t.len() && t[q] == y;
                assert(w[q + 1] == y);
            }
        }
        w
    }
}

/// `sorted_distinct(s)` is strictly increasing and holds exactly the strings of `s`.
pub proof fn lemma_sorted_distinct_props(s: Seq<Seq<char>>)
    ensures
        strictly_sorted(sorted_distinct(s)),
        same_elements(sorted_distinct(s), s),
    decreases s.len(),
{
    if s.len() == 0 {
        let r = Seq::<Seq<char>>::empty();
        assert(same_elements(r, s));
        lemma_sorted_distinct_of(r, s);
    } else {
        let d = s.drop_last();
        lemma_sorted_distinct_props(d);
        let w = lemma_insert_sorted(sorted_distinct(d), s.last());
        assert forall|y: Seq<char>| w.contains(y) <==> s.contains(y) by {
            assert(sorted_distinct(d).contains(y) <==> d.contains(y));
            if d.contains(y) {
                let q = choose|q: int| 0 <= q < d.len() && d[q] == y;
                assert(s[q] == y);
            }
            if s.contains(y) {
                let q = choose|q: int| 0 <= q < s.len() && s[q] == y;
                if q < d.len() {
                    assert(d[q] == y);
                } else {
                    assert(y == s.last());
                }
            }
            if y == s.last() {
                assert(s[s.len() - 1] == y);
            }
        }
        lemma_sorted_distinct_of(w, s);
    }
}

/// Whether `a` comes strictly before `b`.
pub fn lex_lt_of(a: &Vec<char>, b: &Vec<char>) -> (r: bool)
    ensures
        r == lex_lt(a@, b@),
{
    let mut i: usize = 0;
    assert(a@.skip(0) =~= a@);
    assert(b@.skip(0) =~= b@);
    while i < a.len() && i < b.len() && a[i] == b[i]
        invariant
            i <= a.len(),
            i <= b.len(),
            lex_lt(a@, b@) == lex_lt(a@.skip(i as int), b@.skip(i as int)),
        decreases a.len() - i,
    {
        assert(a@.skip(i as int).drop_first() =~= a@.skip(i + 1));
        assert(b@.skip(i as int).drop_first() =~= b@.skip(i + 1));
        i = i + 1;
    }
    if i == a.len() {
        i < b.len()
    } else if i == b.len() {
        false
    } else {
        assert(a@.skip(i as int)[0] == a@[i as int]);
        assert(b@.skip(i as int)[0] == b@[i as int]);
        a[i] < b[i]
    }
}

proof fn lemma_sorted_insert(v: Seq<Seq<char>>, k: int, x: Seq<char>)
    requires
        strictly_sorted(v),
        0 <= k <= v.len(),
        forall|j: int| 0 <= j < k ==> lex_lt(v[j], x),
        k < v.len() ==> lex_lt(x, v[k]),
    ensures
        strictly_sorted(v.insert(k, x)),
{
    let w = v.insert(k, x);
    assert forall|i: int, j: int| 0 <= i < j < w.len() implies lex_lt(#[trigger] w[i], #[trigger] w[j]) by {
        if i < k && j < k {
        } else if i < k && j == k {
        } else if i < k && j > k {
            assert(w[j] == v[j - 1]);
            if j - 1 > i {
            }
        } else if i == k {
            assert(w[j] == v[j - 1]);
            if j - 1 > k {
                lemma_lex_transitive(x, v[k], v[j - 1]);
            }
        } else {
            assert(w[i] == v[i - 1] && w[j] == v[j - 1]);
        }
    }
}

/// The given strings, sorted in increasing order without repetitions (as `sort` then
/// `dedup` leave a list of `String`).
pub fn sorted_unique(items: &Vec<Vec<char>>) -> (r: Vec<String>)
    ensures
        strictly_sorted(strings_view(r@)),
        same_elements(strings_view(r@), vec_views(items@)),
        strings_view(r@) == sorted_distinct(vec_views(items@)),
{
    let ghost iv = vec_views(items@);
    let mut acc: Vec<Vec<char>> = Vec::new();
    let mut i: usize = 0;
    while i < items.len()
        invariant
            i <= items.len(),
            iv == vec_views(items@),
            strictly_sorted(vec_views(acc@)),
            same_elements(vec_views(acc@), iv.take(i as int)),
        decreases items.len() - i,
    {
        let x = &items[i];
        let ghost av = vec_views(acc@);
        let mut k: usize = 0;
        while k < acc.len() && lex_lt_of(&acc[k], x)
            invariant
                k <= acc.len(),
                av == vec_views(acc@),
                forall|j: int| 0 <= j < k ==> lex_lt(av[j], x@),
            decreases acc.len() - k,
        {
            k = k + 1;
        }
        let dup = k < acc.len() && crate::text::same_chars(&acc[k], x);
        proof {
            if k < acc.len() && !dup {
                lemma_lex_total(av[k as int], x@);
            }
        }
        if !dup {
            let ghost before = av;
            acc.insert(k, x.clone());
            proof {
                lemma_sorted_insert(before, k as int, x@);
                assert(vec_views(acc@) =~= before.insert(k as int, x@));
            }
        }
        proof {
            let nv = vec_views(acc@);
            let ti = iv.take(i as int);
            let tn = iv.take(i + 1);
            assert(tn =~= ti.push(x@));
            assert forall|y: Seq<char>| nv.contains(y) <==> iv.take(i + 1).contains(y) by {
                if nv.contains(y) {
                    let p = choose|p: int| 0 <= p < nv.len() && nv[p] == y;
                    if !dup {
                        if p < k {
                            assert(av[p] == y);
                            assert(av.contains(y));
                        } else if p > k {
                            assert(av[p - 1] == y);
                            assert(av.contains(y));
                        }
                    } else {
                        assert(av[p] == y);
                        assert(av.contains(y));
                    }
                    if y != x@ {
                        assert(ti.contains(y));
                        let q = choose|q: int| 0 <= q < ti.len() && ti[q] == y;
                        assert(tn[q] == y);
                    } else {
                        assert(tn[i as int] == y);
                    }
                }
                if tn.contains(y) {
                    let q = choose|q: int| 0 <= q < tn.len() && tn[q] == y;
                    if q < i {
                        assert(ti[q] == y);
                        assert(av.contains(y));
                        let p = choose|p: int| 0 <= p < av.len() && av[p] == y;
                        if !dup {
                            if p < k {
                                assert(nv[p] == y);
                            } else {
                                assert(nv[p + 1] == y);
                            }
                        } else {
                            assert(nv[p] == y);
                        }
                    } else {
                        assert(y == x@);
                        if !dup {
                            assert(nv[k as int] == y);
                        } else {
                            assert(nv[k as int] == y);
                        }
                    }
                }
            }
        }
        i = i + 1;
    }
    assert(iv.take(i as int) =~= iv);
    let mut out: Vec<String> = Vec::new();
    let mut j: usize = 0;
    let ghost fin = vec_views(acc@);
    while j < acc.len()
        invariant
            j <= acc.len(),
            fin == vec_views(acc@),
            strings_view(out@) == fin.take(j as int),
        decreases acc.len() - j,
    {
        let sj = string_of(&acc[j]);
        let ghost prev = out@;
        out.push(sj);
        assert(fin[j as int] == acc@[j as int]@);
        assert(out@ == prev.push(sj));
        assert(strings_view(out@) =~= strings_view(prev).push(sj@));
        assert(strings_view(out@) =~= fin.take(j + 1));
        j = j + 1;
    }
    assert(fin.take(j as int) =~= fin);
    proof { lemma_sorted_distinct_of(strings_view(out@), vec_views(items@)); }
    out
}

} // verus!
