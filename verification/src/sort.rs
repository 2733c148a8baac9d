//! Ordering of texts: the order of `str` (character by character, by code
//! point, a prefix before its extensions) and a sort of string lists by it.
use vstd::prelude::*;
use vstd::relations::sorted_by;
use crate::text::{strings_view, chars_of, range_eq};

verus! {

/// `a` comes strictly before `b` in the order of `str`.
pub open spec fn seq_lt(a: Seq<char>, b: Seq<char>) -> bool
    decreases a.len(),
{
    if a.len() == 0 {
        b.len() > 0
    } else if b.len() == 0 {
        false
    } else if a[0] < b[0] {
        true
    } else if a[0] == b[0] {
        seq_lt(a.drop_first(), b.drop_first())
    } else {
        false
    }
}

/// `a` comes before `b` or equals it.
pub open spec fn seq_le(a: Seq<char>, b: Seq<char>) -> bool {
    !seq_lt(b, a)
}

/// Exactly one of `a < b`, `a == b`, `b < a` holds.
pub proof fn lemma_lt_total(a: Seq<char>, b: Seq<char>)
    ensures
        seq_lt(a, b) || a == b || seq_lt(b, a),
        !(seq_lt(a, b) && seq_lt(b, a)),
        !seq_lt(a, a),
    decreases a.len(),
{
    if a.len() > 0 && b.len() > 0 {
        lemma_lt_total(a.drop_first(), b.drop_first());
        if a[0] == b[0] && a.drop_first() == b.drop_first() {
            assert(a =~= seq![a[0]] + a.drop_first());
            assert(b =~= seq![b[0]] + b.drop_first());
        }
    } else if a.len() == 0 && b.len() == 0 {
        assert(a =~= b);
    }
    if a.len() > 0 {
        lemma_lt_total(a.drop_first(), a.drop_first());
    }
}

/// The order is transitive.
pub proof fn lemma_lt_trans(a: Seq<char>, b: Seq<char>, c: Seq<char>)
    requires
        seq_lt(a, b),
        seq_lt(b, c),
    ensures
        seq_lt(a, c),
    decreases a.len(),
{
    if a.len() > 0 && b.len() > 0 && c.len() > 0 {
        if a[0] == b[0] && b[0] == c[0] {
            lemma_lt_trans(a.drop_first(), b.drop_first(), c.drop_first());
        }
    }
}

/// `seq_le` is transitive.
pub proof fn lemma_le_trans(a: Seq<char>, b: Seq<char>, c: Seq<char>)
    requires
        seq_le(a, b),
        seq_le(b, c),
    ensures
        seq_le(a, c),
{
    if seq_lt(c, a) {
        lemma_lt_total(a, b);
        lemma_lt_total(b, c);
        if seq_lt(a, b) {
            lemma_lt_trans(c, a, b);
        } else if a == b {
        } else {
        }
    }
}

pub open spec fn le_fn() -> spec_fn(Seq<char>, Seq<char>) -> bool {
    |a: Seq<char>, b: Seq<char>| seq_le(a, b)
}

/// `a < b` for two character slices.
pub fn chars_lt(a: &[char], b: &[char]) -> (r: bool)
    ensures
        r == seq_lt(a@, b@),
{
    let mut i: usize = 0;
    assert(a@.skip(0) == a@);
    assert(b@.skip(0) == b@);
    while i < a.len() && i < b.len() && a[i] == b[i]
        invariant
            i <= a@.len(),
            i <= b@.len(),
            a@.take(i as int) == b@.take(i as int),
            seq_lt(a@, b@) == seq_lt(a@.skip(i as int), b@.skip(i as int)),
        decreases a.len() - i,
    {
        proof {
            let sa = a@.skip(i as int);
            let sb = b@.skip(i as int);
            assert(sa.drop_first() == a@.skip(i + 1));
            assert(sb.drop_first() == b@.skip(i + 1));
            assert(sa[0] == a@[i as int]);
            assert(sb[0] == b@[i as int]);
            assert(a@.take(i + 1) == a@.take(i as int).push(a@[i as int]));
            assert(b@.take(i + 1) == b@.take(i as int).push(b@[i as int]));
        }
        i = i + 1;
    }
    let ghost sa = a@.skip(i as int);
    let ghost sb = b@.skip(i as int);
    if i == a.len() {
        assert(sa.len() == 0);
        i < b.len()
    } else if i == b.len() {
        assert(sb.len() == 0);
        false
    } else {
        assert(sa[0] == a@[i as int]);
        assert(sb[0] == b@[i as int]);
        a[i] < b[i]
    }
}

/// Sort strings into the order of `str`.
pub fn sort_strings(v: Vec<String>) -> (r: Vec<String>)
    ensures
        sorted_by(strings_view(r@), le_fn()),
        strings_view(r@).to_multiset() == strings_view(v@).to_multiset(),
{
    let mut out: Vec<String> = Vec::new();
    let mut keys: Vec<Vec<char>> = Vec::new();
    let mut i: usize = 0;
    assert(strings_view(v@.take(0)) =~= strings_view(out@));
    while i < v.len()
        invariant
            i <= v@.len(),
            keys@.len() == out@.len(),
            forall|j: int| 0 <= j < out@.len() ==> #[trigger] keys@[j]@ == out@[j]@,
            sorted_by(strings_view(out@), le_fn()),
            strings_view(out@).to_multiset() == strings_view(v@.take(i as int)).to_multiset(),
        decreases v.len() - i,
    {
        let x = v[i].clone();
        let xk = crate::text::chars_of(x.as_str());
        let ghost so = strings_view(out@);
        let mut p = out.len();
        while p > 0
            invariant
                p <= out@.len(),
                keys@.len() == out@.len(),
                forall|j: int| 0 <= j < out@.len() ==> #[trigger] keys@[j]@ == out@[j]@,
                so == strings_view(out@),
                xk@ == x@,
                forall|j: int| p <= j < out@.len() ==> seq_lt(x@, #[trigger] so[j]),
            ensures
                p <= out@.len(),
                p == 0 || !seq_lt(x@, so[p - 1]),
                forall|j: int| p <= j < out@.len() ==> seq_lt(x@, #[trigger] so[j]),
            decreases p,
        {
            assert(so[p - 1] == out@[p - 1]@);
            if !chars_lt(xk.as_slice(), keys[p - 1].as_slice()) {
                break;
            }
            p = p - 1;
        }
        proof {
            assert forall|a: int, b: int| 0 <= a < b < so.len() + 1 implies #[trigger] le_fn()(
                so.insert(p as int, x@)[a],
                so.insert(p as int, x@)[b],
            ) by {
                let s2 = so.insert(p as int, x@);
                if b < p {
                    assert(s2[a] == so[a] && s2[b] == so[b]);
                    assert(le_fn()(so[a], so[b]));
                } else if a > p {
                    assert(s2[a] == so[a - 1] && s2[b] == so[b - 1]);
                    assert(le_fn()(so[a - 1], so[b - 1]));
                } else if a == p {
                    assert(s2[a] == x@ && s2[b] == so[b - 1]);
                    lemma_lt_total(x@, so[b - 1]);
                } else if b > p {
                    assert(s2[a] == so[a] && s2[b] == so[b - 1]);
                    assert(le_fn()(so[a], so[b - 1]));
                } else {
                    assert(s2[b] == x@ && s2[a] == so[a]);
                    if p > 0 {
                        assert(!seq_lt(x@, so[p - 1]));
                        if a < p - 1 {
                            assert(le_fn()(so[a], so[p - 1]));
                            lemma_le_trans(so[a], so[p - 1], x@);
                        }
                    }
                }
            }
            assert(v@.take(i + 1) == v@.take(i as int).push(v@[i as int]));
            assert(strings_view(v@.take(i + 1)) == strings_view(v@.take(i as int)).push(x@));
            vstd::seq_lib::to_multiset_insert(so, p as int, x@);
            vstd::seq_lib::to_multiset_build(strings_view(v@.take(i as int)), x@);
        }
        out.insert(p, x);
        keys.insert(p, xk);
        assert(strings_view(out@) =~= so.insert(p as int, x@));
        assert forall|j: int| 0 <= j < out@.len() implies #[trigger] keys@[j]@ == out@[j]@ by {
            if j < p {
            } else if j > p {
            }
        }
        i = i + 1;
    }
    assert(v@.take(v@.len() as int) == v@);
    out
}

/// Each element of a sorted list comes strictly before every later one.
pub open spec fn strictly_sorted(v: Seq<Seq<char>>) -> bool {
    forall|i: int, j: int| 0 <= i < j < v.len() ==> seq_lt(#[trigger] v[i], #[trigger] v[j])
}

/// A strictly sorted list holds no element twice.
pub proof fn lemma_strictly_sorted_distinct(v: Seq<Seq<char>>)
    requires
        strictly_sorted(v),
    ensures
        v.no_duplicates(),
        sorted_by(v, le_fn()),
{
    assert forall|i: int, j: int| 0 <= i < v.len() && 0 <= j < v.len() && i != j implies v[i]
        != v[j] by {
        if i < j {
            lemma_lt_total(v[i], v[j]);
        } else {
            lemma_lt_total(v[j], v[i]);
        }
    }
    assert forall|i: int, j: int| 0 <= i < j < v.len() implies (le_fn())(v[i], v[j]) by {
        lemma_lt_total(v[i], v[j]);
    }
}

/// A sorted list with repeated elements removed: strictly sorted, with the
/// same elements, and unchanged where nothing repeats.
pub fn dedup_sorted(v: Vec<String>) -> (r: Vec<String>)
    requires
        sorted_by(strings_view(v@), le_fn()),
    ensures
        strictly_sorted(strings_view(r@)),
        forall|x: Seq<char>| strings_view(r@).contains(x) <==> strings_view(v@).contains(x),
        strings_view(v@).no_duplicates() ==> strings_view(r@) == strings_view(v@),
{
    let ghost s = strings_view(v@);
    let mut out: Vec<String> = Vec::new();
    let mut i: usize = 0;
    while i < v.len()
        invariant
            i <= v@.len(),
            s == strings_view(v@),
            sorted_by(s, le_fn()),
            strictly_sorted(strings_view(out@)),
            i > 0 ==> out@.len() > 0 && strings_view(out@).last() == s[i - 1],
            i == 0 ==> out@.len() == 0,
            forall|x: Seq<char>| strings_view(out@).contains(x) <==> s.take(i as int).contains(x),
            s.no_duplicates() ==> strings_view(out@) == s.take(i as int),
        decreases v.len() - i,
    {
        let ghost before = strings_view(out@);
        let x = chars_of(v[i].as_str());
        let keep = if out.len() == 0 {
            true
        } else {
            let y = chars_of(out[out.len() - 1].as_str());
            assert(y@.subrange(0, y@.len() as int) == y@);
            !range_eq(y.as_slice(), 0, y.len(), x.as_slice())
        };
        assert(s.take(i + 1) == s.take(i as int).push(s[i as int]));
        if keep {
            out.push(v[i].clone());
            proof {
                assert(strings_view(out@) == before.push(s[i as int]));
                if i > 0 {
                    assert(before.last() == s[i - 1]);
                    assert((le_fn())(s[i - 1], s[i as int]));
                    lemma_lt_total(s[i - 1], s[i as int]);
                    assert forall|a: int, b: int|
                        0 <= a < b < strings_view(out@).len() implies seq_lt(
                        #[trigger] strings_view(out@)[a],
                        #[trigger] strings_view(out@)[b],
                    ) by {
                        if b == before.len() {
                            if a < before.len() - 1 {
                                lemma_lt_trans(before[a], before.last(), s[i as int]);
                            }
                        } else {
                            assert(strings_view(out@)[a] == before[a]);
                            assert(strings_view(out@)[b] == before[b]);
                        }
                    }
                }
                assert forall|x: Seq<char>|
                    strings_view(out@).contains(x) <==> s.take(i + 1).contains(x) by {
                    if strings_view(out@).contains(x) {
                        let k = choose|k: int| 0 <= k < strings_view(out@).len() && #[trigger] strings_view(out@)[k] == x;
                        if k < before.len() {
                            assert(before[k] == x);
                            assert(before.contains(x));
                            assert(s.take(i as int).contains(x));
                            let m = choose|m: int| 0 <= m < i && #[trigger] s.take(i as int)[m] == x;
                            assert(s.take(i + 1)[m] == x);
                        } else {
                            assert(s.take(i + 1)[i as int] == x);
                        }
                    }
                    if s.take(i + 1).contains(x) {
                        let m = choose|m: int| 0 <= m < i + 1 && #[trigger] s.take(i + 1)[m] == x;
                        if m < i {
                            assert(s.take(i as int)[m] == x);
                            assert(before.contains(x));
                            let k = choose|k: int| 0 <= k < before.len() && #[trigger] before[k] == x;
                            assert(strings_view(out@)[k] == x);
                        } else {
                            assert(strings_view(out@)[before.len() as int] == x);
                        }
                    }
                }
            }
        } else {
            proof {
                assert(before.last() == s[i as int]);
                if s.no_duplicates() {
                    assert(s[i - 1] == s[i as int]);
                    assert(false);
                }
                assert forall|x: Seq<char>|
                    strings_view(out@).contains(x) <==> s.take(i + 1).contains(x) by {
                    if strings_view(out@).contains(x) {
                        let m = choose|m: int| 0 <= m < i && #[trigger] s.take(i as int)[m] == x;
                        assert(s.take(i + 1)[m] == x);
                    }
                    if s.take(i + 1).contains(x) {
                        let m = choose|m: int| 0 <= m < i + 1 && #[trigger] s.take(i + 1)[m] == x;
                        if m < i {
                            assert(s.take(i as int)[m] == x);
                        } else {
                            assert(before[before.len() - 1] == x);
                        }
                    }
                }
            }
        }
        i = i + 1;
    }
    assert(s.take(i as int) == s);
    out
}

} // verus!
