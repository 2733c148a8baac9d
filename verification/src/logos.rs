//! The logo list of the screensaver page: the `.txt` files found in the
//! logo directories, one per display name (the first directory wins),
//! sorted by name.
use vstd::prelude::*;
use vstd::relations::sorted_by;
use crate::text::{chars_of, find_last, range_eq, rfind_char_range};
use crate::paths::{file_name, file_name_range};
use crate::screensaver_config::{ScreensaverConfig, logo_display_name};
use crate::sort::{seq_lt, le_fn, chars_lt, lemma_lt_total, lemma_le_trans};

verus! {

/// `Path::extension` of a file name: what follows its last `.`, unless
/// that dot is the first character or there is none.
pub open spec fn extension_of(name: Seq<char>) -> Option<Seq<char>> {
    match find_last(name, '.') {
        Some(k) => if k == 0 {
            None
        } else {
            Some(name.skip(k + 1))
        },
        None => None,
    }
}

/// A path names a logo when its file name has the extension `txt`.
pub open spec fn is_logo_file(p: Seq<char>) -> bool {
    match file_name(p) {
        Some(n) => extension_of(n) == Some("txt"@),
        None => false,
    }
}

/// The names of a logo list.
pub open spec fn logo_names(v: Seq<(Seq<char>, Seq<char>)>) -> Seq<Seq<char>> {
    v.map_values(|e: (Seq<char>, Seq<char>)| e.0)
}

/// The logos of a list of paths, in the order found: each logo file whose
/// display name has not come before, with that name.
pub open spec fn first_logos(ps: Seq<Seq<char>>) -> Seq<(Seq<char>, Seq<char>)>
    decreases ps.len(),
{
    if ps.len() == 0 {
        Seq::empty()
    } else {
        let prev = first_logos(ps.drop_last());
        let p = ps.last();
        if is_logo_file(p) && !logo_names(prev).contains(logo_display_name(p)) {
            prev.push((logo_display_name(p), p))
        } else {
            prev
        }
    }
}

/// No display name occurs twice among the logos, and each logo is a logo
/// file among the paths, shown under its display name.
pub proof fn lemma_first_logos_distinct(ps: Seq<Seq<char>>)
    ensures
        forall|i: int, j: int|
            0 <= i < j < first_logos(ps).len() ==> #[trigger] first_logos(ps)[i].0 != #[trigger] first_logos(
                ps,
            )[j].0,
        forall|i: int|
            0 <= i < first_logos(ps).len() ==> {
                let e = #[trigger] first_logos(ps)[i];
                &&& ps.contains(e.1)
                &&& is_logo_file(e.1)
                &&& e.0 == logo_display_name(e.1)
            },
    decreases ps.len(),
{
    if ps.len() > 0 {
        let prev = first_logos(ps.drop_last());
        lemma_first_logos_distinct(ps.drop_last());
        let p = ps.last();
        let cur = first_logos(ps);
        assert forall|i: int| 0 <= i < prev.len() implies ps.contains(#[trigger] prev[i].1) by {
            let k = choose|k: int| 0 <= k < ps.drop_last().len() && ps.drop_last()[k] == prev[i].1;
            assert(ps[k] == prev[i].1);
        }
        if is_logo_file(p) && !logo_names(prev).contains(logo_display_name(p)) {
            assert(ps[ps.len() - 1] == p);
            assert forall|i: int, j: int| 0 <= i < j < cur.len() implies #[trigger] cur[i].0
                != #[trigger] cur[j].0 by {
                if j == cur.len() - 1 {
                    assert(logo_names(prev)[i] == prev[i].0);
                }
            }
        }
    }
}

pub open spec fn pairs_view(v: Seq<(String, String)>) -> Seq<(Seq<char>, Seq<char>)> {
    v.map_values(|e: (String, String)| (e.0@, e.1@))
}

pub open spec fn paths_view(v: Seq<String>) -> Seq<Seq<char>> {
    v.map_values(|s: String| s@)
}

/// Whether a path names a logo file.
pub fn is_logo_path(path: &str) -> (b: bool)
    ensures
        b == is_logo_file(path@),
{
    let c = chars_of(path);
    match file_name_range(c.as_slice()) {
        Some((lo, hi)) => {
            let ghost n = c@.subrange(lo as int, hi as int);
            match rfind_char_range(c.as_slice(), lo, hi, '.') {
                Some(k) => {
                    if k == lo {
                        false
                    } else {
                        let txt = chars_of("txt");
                        assert(n.skip(k - lo + 1) == c@.subrange(k + 1, hi as int));
                        range_eq(c.as_slice(), k + 1, hi, txt.as_slice())
                    }
                },
                None => false,
            }
        },
        None => false,
    }
}

fn name_taken(names: &Vec<Vec<char>>, name: &[char]) -> (b: bool)
    ensures
        b == exists|j: int| 0 <= j < names@.len() && #[trigger] names@[j]@ == name@,
{
    let mut j: usize = 0;
    while j < names.len()
        invariant
            j <= names@.len(),
            forall|q: int| 0 <= q < j ==> #[trigger] names@[q]@ != name@,
        decreases names.len() - j,
    {
        let n = names[j].as_slice();
        assert(n@.subrange(0, n@.len() as int) == n@);
        if range_eq(n, 0, n.len(), name) {
            return true;
        }
        j = j + 1;
    }
    false
}

/// The logos among `paths` in the order found, one per display name.
pub fn first_logo_entries(paths: &Vec<String>) -> (r: Vec<(String, String)>)
    ensures
        pairs_view(r@) == first_logos(paths_view(paths@)),
{
    let mut out: Vec<(String, String)> = Vec::new();
    let mut names: Vec<Vec<char>> = Vec::new();
    let mut i: usize = 0;
    assert(paths_view(paths@).take(0) =~= Seq::<Seq<char>>::empty());
    while i < paths.len()
        invariant
            i <= paths@.len(),
            pairs_view(out@) == first_logos(paths_view(paths@).take(i as int)),
            names@.len() == out@.len(),
            forall|j: int| 0 <= j < names@.len() ==> #[trigger] names@[j]@ == out@[j].0@,
        decreases paths.len() - i,
    {
        let ghost ps = paths_view(paths@).take(i + 1);
        assert(ps.drop_last() =~= paths_view(paths@).take(i as int));
        assert(ps.last() == paths@[i as int]@);
        let p = paths[i].as_str();
        if is_logo_path(p) {
            let name = ScreensaverConfig::display_name_from_path(p);
            let key = chars_of(name.as_str());
            let taken = name_taken(&names, key.as_slice());
            let ghost prev = pairs_view(out@);
            proof {
                if taken {
                    let j = choose|j: int| 0 <= j < names@.len() && #[trigger] names@[j]@ == key@;
                    assert(logo_names(prev)[j] == name@);
                } else {
                    assert forall|j: int| 0 <= j < logo_names(prev).len() implies logo_names(prev)[j]
                        != name@ by {
                        assert(names@[j]@ == out@[j].0@);
                    }
                }
            }
            if !taken {
                out.push((name, paths[i].clone()));
                names.push(key);
                assert(pairs_view(out@) =~= prev.push((logo_display_name(p@), p@)));
            }
        }
        i = i + 1;
    }
    assert(paths_view(paths@).take(paths@.len() as int) =~= paths_view(paths@));
    out
}

/// Sort a logo list by name.
pub fn sort_logos(v: Vec<(String, String)>) -> (r: Vec<(String, String)>)
    ensures
        sorted_by(logo_names(pairs_view(r@)), le_fn()),
        pairs_view(r@).to_multiset() == pairs_view(v@).to_multiset(),
{
    let mut out: Vec<(String, String)> = Vec::new();
    let mut keys: Vec<Vec<char>> = Vec::new();
    let mut i: usize = 0;
    assert(pairs_view(v@.take(0)) =~= pairs_view(out@));
    while i < v.len()
        invariant
            i <= v@.len(),
            keys@.len() == out@.len(),
            forall|j: int| 0 <= j < out@.len() ==> #[trigger] keys@[j]@ == out@[j].0@,
            sorted_by(logo_names(pairs_view(out@)), le_fn()),
            pairs_view(out@).to_multiset() == pairs_view(v@.take(i as int)).to_multiset(),
        decreases v.len() - i,
    {
        let x = (v[i].0.clone(), v[i].1.clone());
        let xk = chars_of(x.0.as_str());
        let ghost po = pairs_view(out@);
        let ghost so = logo_names(po);
        let ghost xv = (x.0@, x.1@);
        let mut p = out.len();
        while p > 0
            invariant
                p <= out@.len(),
                keys@.len() == out@.len(),
                forall|j: int| 0 <= j < out@.len() ==> #[trigger] keys@[j]@ == out@[j].0@,
                po == pairs_view(out@),
                so == logo_names(po),
                xk@ == x.0@,
                forall|j: int| p <= j < out@.len() ==> seq_lt(x.0@, #[trigger] so[j]),
            ensures
                p <= out@.len(),
                p == 0 || !seq_lt(x.0@, so[p - 1]),
                forall|j: int| p <= j < out@.len() ==> seq_lt(x.0@, #[trigger] so[j]),
            decreases p,
        {
            assert(so[p - 1] == out@[p - 1].0@);
            if !chars_lt(xk.as_slice(), keys[p - 1].as_slice()) {
                break;
            }
            p = p - 1;
        }
        proof {
            let s2 = so.insert(p as int, x.0@);
            assert forall|a: int, b: int| 0 <= a < b < so.len() + 1 implies #[trigger] le_fn()(
                s2[a],
                s2[b],
            ) by {
                if b < p {
                    assert(s2[a] == so[a] && s2[b] == so[b]);
                    assert(le_fn()(so[a], so[b]));
                } else if a > p {
                    assert(s2[a] == so[a - 1] && s2[b] == so[b - 1]);
                    assert(le_fn()(so[a - 1], so[b - 1]));
                } else if a == p {
                    assert(s2[a] == x.0@ && s2[b] == so[b - 1]);
                    lemma_lt_total(x.0@, so[b - 1]);
                } else if b > p {
                    assert(s2[a] == so[a] && s2[b] == so[b - 1]);
                    assert(le_fn()(so[a], so[b - 1]));
                } else {
                    assert(s2[b] == x.0@ && s2[a] == so[a]);
                    if p > 0 {
                        assert(!seq_lt(x.0@, so[p - 1]));
                        if a < p - 1 {
                            assert(le_fn()(so[a], so[p - 1]));
                            lemma_le_trans(so[a], so[p - 1], x.0@);
                        }
                    }
                }
            }
            assert(v@.take(i + 1) == v@.take(i as int).push(v@[i as int]));
            assert(pairs_view(v@.take(i + 1)) == pairs_view(v@.take(i as int)).push(xv));
            vstd::seq_lib::to_multiset_insert(po, p as int, xv);
            vstd::seq_lib::to_multiset_build(pairs_view(v@.take(i as int)), xv);
        }
        out.insert(p, x);
        keys.insert(p, xk);
        assert(pairs_view(out@) =~= po.insert(p as int, xv));
        assert(logo_names(pairs_view(out@)) =~= so.insert(p as int, xv.0));
        assert forall|j: int| 0 <= j < out@.len() implies #[trigger] keys@[j]@ == out@[j].0@ by {
            if j < p {
            } else if j > p {
            }
        }
        i = i + 1;
    }
    assert(v@.take(v@.len() as int) == v@);
    out
}

/// The logo list of the screensaver page from the paths found in the logo
/// directories (the directories in order of priority, each directory's
/// entries in the order read): one entry per display name, the first found,
/// sorted by name.
pub fn collect_logos(paths: &Vec<String>) -> (r: Vec<(String, String)>)
    ensures
        sorted_by(logo_names(pairs_view(r@)), le_fn()),
        pairs_view(r@).to_multiset() == first_logos(paths_view(paths@)).to_multiset(),
{
    let found = first_logo_entries(paths);
    sort_logos(found)
}

} // verus!
