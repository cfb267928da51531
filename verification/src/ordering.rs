//! Ordering rows by a key: the stable sort the process list uses.
//!
//! Rows are ordered by their keys, ascending or descending; rows with equal
//! keys keep their relative order. Row positions are what gets sorted.
use vstd::prelude::*;

verus! {

/// A sort key: a number, or a text ordered character by character.
pub enum SortKey {
    Number(u64),
    Text(Vec<char>),
}

/// A [`SortKey`] by its value.
pub enum KeyView {
    Number(nat),
    Text(Seq<char>),
}

impl View for SortKey {
    type V = KeyView;

    open spec fn view(&self) -> KeyView {
        match self {
            SortKey::Number(n) => KeyView::Number(*n as nat),
            SortKey::Text(t) => KeyView::Text(t@),
        }
    }
}

/// The views of a list of keys.
pub open spec fn key_views(v: Seq<SortKey>) -> Seq<KeyView> {
    v.map_values(|k: SortKey| k@)
}

/// Lexicographic comparison by code point (how `str` orders): -1, 0 or 1.
pub open spec fn lex_compare_spec(a: Seq<char>, b: Seq<char>) -> int
    decreases a.len(),
{
    if a.len() == 0 {
        if b.len() == 0 {
            0
        } else {
            -1
        }
    } else if b.len() == 0 {
        1
    } else if (a[0] as int) < (b[0] as int) {
        -1
    } else if (a[0] as int) > (b[0] as int) {
        1
    } else {
        lex_compare_spec(a.drop_first(), b.drop_first())
    }
}

/// Comparison of keys: numbers by value, texts lexicographically (numbers
/// before texts, which never meet in one column).
pub open spec fn key_compare_spec(a: KeyView, b: KeyView) -> int {
    match (a, b) {
        (KeyView::Number(x), KeyView::Number(y)) => if x < y {
            -1
        } else if x > y {
            1
        } else {
            0
        },
        (KeyView::Text(x), KeyView::Text(y)) => lex_compare_spec(x, y),
        (KeyView::Number(_), KeyView::Text(_)) => -1,
        (KeyView::Text(_), KeyView::Number(_)) => 1,
    }
}

/// A comparison read in the requested direction.
pub open spec fn directed(c: int, desc: bool) -> int {
    if desc {
        -c
    } else {
        c
    }
}

/// Row `i` comes before row `j`: its key is smaller (larger when
/// descending), or the keys are equal and it came first.
pub open spec fn before(keys: Seq<KeyView>, desc: bool, i: int, j: int) -> bool {
    let c = directed(key_compare_spec(keys[i], keys[j]), desc);
    c < 0 || (c == 0 && i < j)
}

/// `s` is ordered: each element comes before every later one.
pub open spec fn ordered(keys: Seq<KeyView>, desc: bool, s: Seq<usize>) -> bool {
    forall|a: int, b: int|
        0 <= a < b < s.len() ==> #[trigger] before(keys, desc, s[a] as int, s[b] as int)
}

proof fn lemma_lex(a: Seq<char>, b: Seq<char>, c: Seq<char>)
    ensures
        lex_compare_spec(a, b) == -lex_compare_spec(b, a),
        -1 <= lex_compare_spec(a, b) <= 1,
        lex_compare_spec(a, b) == 0 ==> a == b,
        lex_compare_spec(a, b) < 0 && lex_compare_spec(b, c) < 0 ==> lex_compare_spec(a, c) < 0,
    decreases a.len(),
{
    if a.len() > 0 && b.len() > 0 {
        if c.len() > 0 {
            lemma_lex(a.drop_first(), b.drop_first(), c.drop_first());
        } else {
            lemma_lex(a.drop_first(), b.drop_first(), c);
        }
        if lex_compare_spec(a, b) == 0 {
            assert((a[0] as int) == (b[0] as int));
            assert(a[0] == b[0]);
            assert(a =~= seq![a[0]] + a.drop_first());
            assert(b =~= seq![b[0]] + b.drop_first());
        }
    } else if a.len() == 0 && b.len() == 0 {
        assert(a =~= b);
    }
}

proof fn lemma_key(a: KeyView, b: KeyView, c: KeyView)
    ensures
        key_compare_spec(a, b) == -key_compare_spec(b, a),
        -1 <= key_compare_spec(a, b) <= 1,
        key_compare_spec(a, b) == 0 ==> a == b,
        key_compare_spec(a, b) < 0 && key_compare_spec(b, c) < 0 ==> key_compare_spec(a, c) < 0,
{
    match (a, b, c) {
        (KeyView::Text(x), KeyView::Text(y), KeyView::Text(z)) => {
            lemma_lex(x, y, z);
        },
        (KeyView::Text(x), KeyView::Text(y), _) => {
            lemma_lex(x, y, x);
        },
        _ => {},
    }
}

/// Distinct rows are always ordered one way or the other, never both, and
/// the order is transitive: `before` is a strict total order on positions.
pub proof fn lemma_before_total_order(keys: Seq<KeyView>, desc: bool, i: int, j: int, k: int)
    requires
        0 <= i < keys.len(),
        0 <= j < keys.len(),
        0 <= k < keys.len(),
    ensures
        !before(keys, desc, i, i),
        i != j ==> before(keys, desc, i, j) || before(keys, desc, j, i),
        before(keys, desc, i, j) ==> !before(keys, desc, j, i),
        before(keys, desc, i, j) && before(keys, desc, j, k) ==> before(keys, desc, i, k),
{
    lemma_key(keys[i], keys[j], keys[k]);
    lemma_key(keys[k], keys[j], keys[i]);
    lemma_key(keys[i], keys[k], keys[j]);
    lemma_key(keys[j], keys[k], keys[i]);
    lemma_key(keys[i], keys[i], keys[i]);
}

fn lex_compare(a: &Vec<char>, b: &Vec<char>) -> (c: i8)
    ensures
        c as int == lex_compare_spec(a@, b@),
{
    let mut i: usize = 0;
    assert(a@.skip(0) == a@);
    assert(b@.skip(0) == b@);
    while i < a.len() && i < b.len()
        invariant
            i <= a@.len(),
            i <= b@.len(),
            lex_compare_spec(a@, b@) == lex_compare_spec(a@.skip(i as int), b@.skip(i as int)),
        decreases a@.len() - i,
    {
        let x = a[i];
        let y = b[i];
        assert(a@.skip(i as int)[0] == a@[i as int]);
        assert(b@.skip(i as int)[0] == b@[i as int]);
        if x < y {
            return -1;
        }
        if x > y {
            return 1;
        }
        assert(a@.skip(i as int).drop_first() == a@.skip(i + 1));
        assert(b@.skip(i as int).drop_first() == b@.skip(i + 1));
        i = i + 1;
    }
    if i < a.len() {
        1
    } else if i < b.len() {
        -1
    } else {
        0
    }
}

fn compare_keys(a: &SortKey, b: &SortKey) -> (c: i8)
    ensures
        c as int == key_compare_spec(a@, b@),
{
    match (a, b) {
        (SortKey::Number(x), SortKey::Number(y)) => if *x < *y {
            -1
        } else if *x > *y {
            1
        } else {
            0
        },
        (SortKey::Text(x), SortKey::Text(y)) => lex_compare(x, y),
        (SortKey::Number(_), SortKey::Text(_)) => -1,
        (SortKey::Text(_), SortKey::Number(_)) => 1,
    }
}

/// Whether row `i` comes before row `j`.
pub fn comes_before(keys: &Vec<SortKey>, desc: bool, i: usize, j: usize) -> (b: bool)
    requires
        i < keys@.len(),
        j < keys@.len(),
    ensures
        b == before(key_views(keys@), desc, i as int, j as int),
{
    let c = compare_keys(&keys[i], &keys[j]);
    proof {
        lemma_key(keys@[i as int]@, keys@[j as int]@, keys@[j as int]@);
    }
    let d: i8 = if desc {
        -c
    } else {
        c
    };
    d < 0 || (d == 0 && i < j)
}

/// `s` is strictly increasing.
pub open spec fn increasing(s: Seq<usize>) -> bool {
    forall|a: int, b: int| 0 <= a < b < s.len() ==> s[a] < s[b]
}

/// The positions `items` (increasing, each a row of `keys`) in sorted order:
/// the same positions, each exactly once, each before every later one. As
/// `items` is in row order, rows with equal keys keep their relative order.
pub fn sort_positions(keys: &Vec<SortKey>, desc: bool, items: &Vec<usize>) -> (out: Vec<usize>)
    requires
        increasing(items@),
        forall|a: int| 0 <= a < items@.len() ==> items@[a] < keys@.len(),
    ensures
        out@.len() == items@.len(),
        out@.no_duplicates(),
        forall|x: usize| out@.contains(x) <==> items@.contains(x),
        ordered(key_views(keys@), desc, out@),
{
    let ghost kv = key_views(keys@);
    let mut out: Vec<usize> = Vec::new();
    let mut i: usize = 0;
    while i < items.len()
        invariant
            kv == key_views(keys@),
            increasing(items@),
            forall|a: int| 0 <= a < items@.len() ==> items@[a] < keys@.len(),
            i <= items@.len(),
            out@.len() == i,
            out@.no_duplicates(),
            forall|x: usize| out@.contains(x) <==> items@.take(i as int).contains(x),
            ordered(kv, desc, out@),
        decreases items@.len() - i,
    {
        let x = items[i];
        assert(!out@.contains(x)) by {
            if out@.contains(x) {
                let a = choose|a: int| 0 <= a < i && items@.take(i as int)[a] == x;
                assert(items@[a] < items@[i as int]);
            }
        }
        assert forall|a: int| 0 <= a < out@.len() implies out@[a] < keys@.len() by {
            assert(out@.contains(out@[a]));
            let b = choose|b: int| 0 <= b < i && items@.take(i as int)[b] == out@[a];
            assert(items@[b] == out@[a]);
        }
        let mut p: usize = 0;
        while p < out.len() && !comes_before(keys, desc, x, out[p])
            invariant
                kv == key_views(keys@),
                x < keys@.len(),
                forall|a: int| 0 <= a < out@.len() ==> out@[a] < keys@.len(),
                p <= out@.len(),
                forall|q: int| 0 <= q < p ==> !before(kv, desc, x as int, out@[q] as int),
            decreases out@.len() - p,
        {
            p = p + 1;
        }
        let ghost old_out = out@;
        out.insert(p, x);
        proof {
            assert forall|a: int, b: int|
                0 <= a < b < out@.len() implies #[trigger] before(
                kv,
                desc,
                out@[a] as int,
                out@[b] as int,
            ) by {
                if a < p && b < p + 1 {
                    if b == p {
                        assert(old_out.contains(old_out[a]));
                        lemma_before_total_order(kv, desc, x as int, old_out[a] as int, x as int);
                    } else {
                        assert(out@[a] == old_out[a] && out@[b] == old_out[b]);
                    }
                } else if a == p {
                    if p < old_out.len() {
                        assert(before(kv, desc, x as int, old_out[p as int] as int));
                        if b - 1 > p {
                            assert(before(kv, desc, old_out[p as int] as int, old_out[b - 1] as int));
                            lemma_before_total_order(
                                kv,
                                desc,
                                x as int,
                                old_out[p as int] as int,
                                old_out[b - 1] as int,
                            );
                        }
                    }
                } else if a < p {
                    assert(out@[a] == old_out[a] && out@[b] == old_out[b - 1]);
                } else {
                    assert(out@[a] == old_out[a - 1] && out@[b] == old_out[b - 1]);
                }
            }
            let ghost t0 = items@.take(i as int);
            let ghost t1 = items@.take(i + 1);
            assert(t1 == t0.push(x));
            assert(out@[p as int] == x);
            assert forall|y: usize| out@.contains(y) implies t1.contains(y) by {
                let a = choose|a: int| 0 <= a < out@.len() && out@[a] == y;
                if a == p {
                    assert(t1[i as int] == y);
                } else {
                    let a2 = if a < p {
                        a
                    } else {
                        a - 1
                    };
                    assert(old_out[a2] == y);
                    assert(old_out.contains(y));
                    assert(t0.contains(y));
                    let b = choose|b: int| 0 <= b < t0.len() && t0[b] == y;
                    assert(t1[b] == y);
                }
            }
            assert forall|y: usize| t1.contains(y) implies out@.contains(y) by {
                let b = choose|b: int| 0 <= b < t1.len() && t1[b] == y;
                if b == i {
                    assert(out@[p as int] == y);
                } else {
                    assert(t0[b] == y);
                    assert(t0.contains(y));
                    assert(old_out.contains(y));
                    let a = choose|a: int| 0 <= a < old_out.len() && old_out[a] == y;
                    if a < p {
                        assert(out@[a] == y);
                    } else {
                        assert(out@[a + 1] == y);
                    }
                }
            }
            assert forall|a: int, b: int|
                0 <= a < out@.len() && 0 <= b < out@.len() && a != b implies out@[a]
                != out@[b] by {
                if a != p as int && b != p as int {
                    let a2 = if a < p {
                        a
                    } else {
                        a - 1
                    };
                    let b2 = if b < p {
                        b
                    } else {
                        b - 1
                    };
                    assert(out@[a] == old_out[a2]);
                    assert(out@[b] == old_out[b2]);
                } else if a == p as int {
                    let b2 = if b < p {
                        b
                    } else {
                        b - 1
                    };
                    assert(out@[b] == old_out[b2]);
                    assert(old_out.contains(old_out[b2]));
                } else {
                    let a2 = if a < p {
                        a
                    } else {
                        a - 1
                    };
                    assert(out@[a] == old_out[a2]);
                    assert(old_out.contains(old_out[a2]));
                }
            }
        }
        i = i + 1;
    }
    assert(items@.take(items@.len() as int) == items@);
    out
}

/// All row positions `0..n`, in order.
pub fn all_positions(n: usize) -> (v: Vec<usize>)
    ensures
        v@.len() == n,
        forall|a: int| 0 <= a < n ==> v@[a] == a,
        increasing(v@),
{
    let mut v: Vec<usize> = Vec::new();
    let mut i: usize = 0;
    while i < n
        invariant
            i <= n,
            v@.len() == i,
            forall|a: int| 0 <= a < i ==> v@[a] == a,
        decreases n - i,
    {
        v.push(i);
        i = i + 1;
    }
    v
}

} // verus!
