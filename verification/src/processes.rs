//! Processes: the orders in which the process list shows them (flat, or as
//! a tree of parents and children), and what a remote `ps` listing holds.
use vstd::prelude::*;
use crate::ordering::{
    KeyView, SortKey, all_positions, before, comes_before, increasing, key_views, ordered,
    sort_positions, lemma_before_total_order,
};
use crate::screens::SortColumn;
use crate::text::{
    chars_of, copy_str, decimal, join_from, lines, lowercase, parse_u64, parse_usize, spec_decimal,
    spec_join, spec_lines, spec_lowercase, spec_parse_unsigned, spec_words, split_whitespace,
    str_eq, views,
};

verus! {

/// What the process list needs of a process to order it.
///
/// `cpu_key` orders processes by CPU use: a larger key stands for a higher
/// usage, equal keys for equal usage.
pub struct ProcessRow {
    pub pid: u32,
    pub parent: Option<u32>,
    pub name: String,
    pub cpu_key: u64,
    pub memory: u64,
}

/// The key a row is ordered by in a column; names compare in lower case.
pub open spec fn row_key(r: ProcessRow, col: SortColumn) -> KeyView {
    match col {
        SortColumn::Pid => KeyView::Number(r.pid as nat),
        SortColumn::Name => KeyView::Text(spec_lowercase(r.name@)),
        SortColumn::Cpu => KeyView::Number(r.cpu_key as nat),
        SortColumn::Memory => KeyView::Number(r.memory as nat),
    }
}

/// The keys of all rows in a column.
pub open spec fn row_keys(rows: Seq<ProcessRow>, col: SortColumn) -> Seq<KeyView> {
    rows.map_values(|r: ProcessRow| row_key(r, col))
}

fn keys_for(rows: &Vec<ProcessRow>, col: SortColumn) -> (keys: Vec<SortKey>)
    ensures
        key_views(keys@) == row_keys(rows@, col),
{
    let mut keys: Vec<SortKey> = Vec::new();
    let mut i: usize = 0;
    while i < rows.len()
        invariant
            i <= rows@.len(),
            keys@.len() == i,
            forall|k: int| 0 <= k < i ==> (#[trigger] keys@[k])@ == row_key(rows@[k], col),
        decreases rows@.len() - i,
    {
        let r = &rows[i];
        let key = match col {
            SortColumn::Pid => SortKey::Number(r.pid as u64),
            SortColumn::Name => SortKey::Text(chars_of(lowercase(r.name.as_str()).as_str())),
            SortColumn::Cpu => SortKey::Number(r.cpu_key),
            SortColumn::Memory => SortKey::Number(r.memory),
        };
        keys.push(key);
        i = i + 1;
    }
    assert(key_views(keys@) =~= row_keys(rows@, col));
    keys
}

/// `s` holds each of the positions `0..n` exactly once.
pub open spec fn is_permutation(s: Seq<usize>, n: nat) -> bool {
    &&& s.len() == n
    &&& s.no_duplicates()
    &&& forall|a: int| 0 <= a < s.len() ==> s[a] < n
}

/// The flat process list: every row once, by `col` (descending when `desc`),
/// rows with equal keys in their original order.
pub fn flat_order(rows: &Vec<ProcessRow>, col: SortColumn, desc: bool) -> (out: Vec<usize>)
    ensures
        is_permutation(out@, rows@.len()),
        ordered(row_keys(rows@, col), desc, out@),
{
    let keys = keys_for(rows, col);
    let items = all_positions(rows.len());
    assert(keys@.len() == key_views(keys@).len());
    let out = sort_positions(&keys, desc, &items);
    assert forall|a: int| 0 <= a < out@.len() implies out@[a] < rows@.len() by {
        assert(out@.contains(out@[a]));
        assert(items@.contains(out@[a]));
    }
    out
}

// ---------------------------------------------------------------------------
// The process tree
// ---------------------------------------------------------------------------

/// Some row has pid `p`.
pub open spec fn is_pid(rows: Seq<ProcessRow>, p: u32) -> bool {
    exists|j: int| 0 <= j < rows.len() && rows[j].pid == p
}

/// A parent link that leads to no listed process: no parent, or a parent
/// that is not in the list. Children of such links are the tree's roots.
pub open spec fn is_root_key(rows: Seq<ProcessRow>, k: Option<u32>) -> bool {
    match k {
        None => true,
        Some(p) => !is_pid(rows, p),
    }
}

/// Row `i` appears in the tree listing.
pub open spec fn emitted(out: Seq<(usize, usize)>, i: int) -> bool {
    exists|m: int| 0 <= m < out.len() && out[m].0 == i
}

/// The parent link of the row at entry `m`.
pub open spec fn link(rows: Seq<ProcessRow>, out: Seq<(usize, usize)>, m: int) -> Option<u32> {
    rows[out[m].0 as int].parent
}

/// Entries name distinct rows of the list.
pub open spec fn tree_rows_ok(n: nat, out: Seq<(usize, usize)>) -> bool {
    &&& forall|m: int| 0 <= m < out.len() ==> (#[trigger] out[m]).0 < n
    &&& forall|a: int, b: int|
        0 <= a < out.len() && 0 <= b < out.len() && a != b ==> (#[trigger] out[a]).0
            != (#[trigger] out[b]).0
}

/// Entries at depth 0 are roots.
pub open spec fn tree_roots_ok(rows: Seq<ProcessRow>, out: Seq<(usize, usize)>) -> bool {
    forall|m: int|
        0 <= m < out.len() && (#[trigger] out[m]).1 == 0 ==> is_root_key(rows, link(rows, out, m))
}

/// Entry `j` is the nearest entry above `m` one level up, and is its parent.
pub open spec fn parent_entry(rows: Seq<ProcessRow>, out: Seq<(usize, usize)>, j: int, m: int) -> bool {
    &&& 0 <= j < m
    &&& out[j].1 + 1 == out[m].1
    &&& Some(rows[out[j].0 as int].pid) == link(rows, out, m)
    &&& forall|q: int| j < q < m ==> (#[trigger] out[q]).1 >= out[m].1
}

/// Every entry below depth 0 sits under its parent: the nearest entry above
/// it one level up is the process it names as parent.
pub open spec fn tree_parents_ok(rows: Seq<ProcessRow>, out: Seq<(usize, usize)>) -> bool {
    forall|m: int|
        0 <= m < out.len() && (#[trigger] out[m]).1 > 0 ==> exists|j: int| parent_entry(rows, out, j, m)
}

/// Entries with the same parent link appear in sorted order.
pub open spec fn tree_siblings_ok(
    rows: Seq<ProcessRow>,
    keys: Seq<KeyView>,
    desc: bool,
    out: Seq<(usize, usize)>,
) -> bool {
    forall|a: int, b: int|
        0 <= a < b < out.len() && link(rows, out, a) == link(rows, out, b) ==> #[trigger] before(
            keys,
            desc,
            out[a].0 as int,
            out[b].0 as int,
        )
}

/// Only processes cut off from every root are left out: a missing row has a
/// listed parent, and every row with that pid is missing as well.
pub open spec fn tree_complete(rows: Seq<ProcessRow>, out: Seq<(usize, usize)>) -> bool {
    forall|i: int|
        0 <= i < rows.len() && !#[trigger] emitted(out, i) ==> match rows[i].parent {
            Some(p) => is_pid(rows, p) && forall|j: int|
                0 <= j < rows.len() && rows[j].pid == p ==> !emitted(out, j),
            None => false,
        }
}

/// Every row with the parent link `k` is listed.
pub open spec fn finished(rows: Seq<ProcessRow>, out: Seq<(usize, usize)>, k: Option<u32>) -> bool {
    forall|i: int| 0 <= i < rows.len() && rows[i].parent == k ==> #[trigger] emitted(out, i)
}

proof fn lemma_distinct_bounded(s: Seq<usize>, n: nat)
    requires
        s.no_duplicates(),
        forall|a: int| 0 <= a < s.len() ==> s[a] < n,
    ensures
        s.len() <= n,
    decreases n,
{
    if n == 0 {
        if s.len() > 0 {
            assert(s[0] < 0);
        }
    } else if exists|a: int| 0 <= a < s.len() && s[a] == n - 1 {
        let a = choose|a: int| 0 <= a < s.len() && s[a] == n - 1;
        let t = s.remove(a);
        s.remove_ensures(a);
        assert forall|b: int| 0 <= b < t.len() implies t[b] < (n - 1) as nat by {
            if b < a {
                assert(t[b] == s[b]);
            } else {
                assert(t[b] == s[b + 1]);
            }
        }
        assert forall|b: int, c: int| 0 <= b < t.len() && 0 <= c < t.len() && b != c implies t[b]
            != t[c] by {
            let b2 = if b < a {
                b
            } else {
                b + 1
            };
            let c2 = if c < a {
                c
            } else {
                c + 1
            };
            assert(t[b] == s[b2]);
            assert(t[c] == s[c2]);
        }
        lemma_distinct_bounded(t, (n - 1) as nat);
    } else {
        assert forall|b: int| 0 <= b < s.len() implies s[b] < (n - 1) as nat by {}
        lemma_distinct_bounded(s, (n - 1) as nat);
    }
}

proof fn lemma_out_bounded(n: nat, out: Seq<(usize, usize)>)
    requires
        tree_rows_ok(n, out),
    ensures
        out.len() <= n,
{
    let s = out.map_values(|e: (usize, usize)| e.0);
    assert forall|a: int, b: int| 0 <= a < s.len() && 0 <= b < s.len() && a != b implies s[a]
        != s[b] by {
        assert(s[a] == out[a].0);
        assert(s[b] == out[b].0);
    }
    assert forall|a: int| 0 <= a < s.len() implies s[a] < n by {
        assert(s[a] == out[a].0);
    }
    lemma_distinct_bounded(s, n);
}

fn same_link(a: Option<u32>, b: Option<u32>) -> (r: bool)
    ensures
        r == (a == b),
{
    match (a, b) {
        (None, None) => true,
        (Some(x), Some(y)) => x == y,
        _ => false,
    }
}

fn is_expanded(expanded: &Vec<Option<u32>>, k: Option<u32>) -> (r: bool)
    ensures
        r == expanded@.contains(k),
{
    let mut i: usize = 0;
    while i < expanded.len()
        invariant
            i <= expanded@.len(),
            forall|a: int| 0 <= a < i ==> expanded@[a] != k,
        decreases expanded@.len() - i,
    {
        if same_link(expanded[i], k) {
            assert(expanded@[i as int] == k);
            return true;
        }
        i = i + 1;
    }
    false
}

fn has_pid(rows: &Vec<ProcessRow>, p: u32) -> (r: bool)
    ensures
        r == is_pid(rows@, p),
{
    let mut i: usize = 0;
    while i < rows.len()
        invariant
            i <= rows@.len(),
            forall|a: int| 0 <= a < i ==> rows@[a].pid != p,
        decreases rows@.len() - i,
    {
        if rows[i].pid == p {
            return true;
        }
        i = i + 1;
    }
    false
}

fn root_link(rows: &Vec<ProcessRow>, k: Option<u32>) -> (r: bool)
    ensures
        r == is_root_key(rows@, k),
{
    match k {
        None => true,
        Some(p) => !has_pid(rows, p),
    }
}

fn children_of(rows: &Vec<ProcessRow>, k: Option<u32>) -> (c: Vec<usize>)
    ensures
        increasing(c@),
        forall|a: int| 0 <= a < c@.len() ==> c@[a] < rows@.len(),
        forall|i: usize| c@.contains(i) <==> (i < rows@.len() && rows@[i as int].parent == k),
{
    let mut c: Vec<usize> = Vec::new();
    let mut i: usize = 0;
    while i < rows.len()
        invariant
            i <= rows@.len(),
            increasing(c@),
            forall|a: int| 0 <= a < c@.len() ==> c@[a] < i,
            forall|x: usize| c@.contains(x) <==> (x < i && rows@[x as int].parent == k),
        decreases rows@.len() - i,
    {
        let ghost prev = c@;
        if same_link(rows[i].parent, k) {
            c.push(i);
            assert forall|x: usize| c@.contains(x) implies (x < i + 1 && rows@[x as int].parent == k) by {
                let a = choose|a: int| 0 <= a < c@.len() && c@[a] == x;
                if a < prev.len() {
                    assert(prev[a] == x);
                    assert(prev.contains(x));
                }
            }
            assert forall|x: usize| (x < i + 1 && rows@[x as int].parent == k) implies c@.contains(x) by {
                if x == i {
                    assert(c@[prev.len() as int] == x);
                } else {
                    assert(prev.contains(x));
                    let a = choose|a: int| 0 <= a < prev.len() && prev[a] == x;
                    assert(c@[a] == x);
                }
            }
        } else {
            assert forall|x: usize| c@.contains(x) implies (x < i + 1 && rows@[x as int].parent == k) by {
                assert(prev.contains(x));
            }
            assert forall|x: usize| (x < i + 1 && rows@[x as int].parent == k) implies c@.contains(x) by {
                if x < i {
                    assert(prev.contains(x));
                }
            }
        }
        i = i + 1;
    }
    c
}

// Private, opaque forms of the listing's properties, so that each proof
// step only unfolds what it needs.

#[verifier::opaque]
spec fn p_rows(n: nat, out: Seq<(usize, usize)>) -> bool {
    tree_rows_ok(n, out)
}

#[verifier::opaque]
spec fn p_links(rows: Seq<ProcessRow>, out: Seq<(usize, usize)>, exp: Seq<Option<u32>>) -> bool {
    forall|m: int| 0 <= m < out.len() ==> exp.contains(#[trigger] link(rows, out, m))
}

#[verifier::opaque]
spec fn p_roots(rows: Seq<ProcessRow>, out: Seq<(usize, usize)>) -> bool {
    tree_roots_ok(rows, out)
}

#[verifier::opaque]
spec fn p_parents(rows: Seq<ProcessRow>, out: Seq<(usize, usize)>) -> bool {
    tree_parents_ok(rows, out)
}

#[verifier::opaque]
spec fn p_siblings(rows: Seq<ProcessRow>, kv: Seq<KeyView>, desc: bool, out: Seq<(usize, usize)>) -> bool {
    tree_siblings_ok(rows, kv, desc, out)
}

/// What holds of the listing at every step.
spec fn tree_inv(
    rows: Seq<ProcessRow>,
    kv: Seq<KeyView>,
    desc: bool,
    out: Seq<(usize, usize)>,
    exp: Seq<Option<u32>>,
) -> bool {
    &&& kv.len() == rows.len()
    &&& out.len() <= rows.len()
    &&& exp.no_duplicates()
    &&& p_rows(rows.len(), out)
    &&& p_links(rows, out, exp)
    &&& p_roots(rows, out)
    &&& p_parents(rows, out)
    &&& p_siblings(rows, kv, desc, out)
}

/// `a` is a prefix of `b`.
#[verifier::opaque]
spec fn is_prefix(a: Seq<(usize, usize)>, b: Seq<(usize, usize)>) -> bool {
    a.len() <= b.len() && forall|m: int| 0 <= m < a.len() ==> #[trigger] b[m] == a[m]
}

/// Entries added after `out0` sit at depth `d` or deeper, under links not
/// expanded before.
#[verifier::opaque]
spec fn seg_ok(
    rows: Seq<ProcessRow>,
    out0: Seq<(usize, usize)>,
    exp0: Seq<Option<u32>>,
    d: int,
    out: Seq<(usize, usize)>,
) -> bool {
    forall|m: int|
        out0.len() <= m < out.len() ==> (#[trigger] out[m]).1 >= d && !exp0.contains(
            link(rows, out, m),
        )
}

#[verifier::opaque]
spec fn grows(exp0: Seq<Option<u32>>, exp: Seq<Option<u32>>) -> bool {
    forall|e: Option<u32>| exp0.contains(e) ==> #[trigger] exp.contains(e)
}

#[verifier::opaque]
spec fn new_finished(
    rows: Seq<ProcessRow>,
    out: Seq<(usize, usize)>,
    exp0: Seq<Option<u32>>,
    exp: Seq<Option<u32>>,
    skip: Option<Option<u32>>,
) -> bool {
    forall|e: Option<u32>|
        #[trigger] exp.contains(e) && !exp0.contains(e) && skip != Some(e) ==> finished(rows, out, e)
}

#[verifier::opaque]
spec fn pids_expanded(
    rows: Seq<ProcessRow>,
    out: Seq<(usize, usize)>,
    from: int,
    to: int,
    exp: Seq<Option<u32>>,
) -> bool {
    forall|m: int| from <= m < to ==> exp.contains(Some(rows[(#[trigger] out[m]).0 as int].pid))
}

/// Entries after `out0` whose link is `k` are among the first `t` children.
#[verifier::opaque]
spec fn kids_ok(
    rows: Seq<ProcessRow>,
    out0: Seq<(usize, usize)>,
    k: Option<u32>,
    children: Seq<usize>,
    t: int,
    out: Seq<(usize, usize)>,
) -> bool {
    forall|m: int|
        out0.len() <= m < out.len() && link(rows, out, m) == k ==> exists|a: int|
            0 <= a < t && #[trigger] out[m].0 == children[a]
}

/// The first `t` children are listed, the others not yet.
#[verifier::opaque]
spec fn done_ok(out: Seq<(usize, usize)>, children: Seq<usize>, t: int) -> bool {
    &&& forall|a: int| 0 <= a < t ==> emitted(out, #[trigger] children[a] as int)
    &&& forall|a: int| t <= a < children.len() ==> !emitted(out, #[trigger] children[a] as int)
}

proof fn lemma_emitted_prefix(a: Seq<(usize, usize)>, b: Seq<(usize, usize)>, i: int)
    requires
        is_prefix(a, b),
        emitted(a, i),
    ensures
        emitted(b, i),
{
    reveal(is_prefix);
    let m = choose|m: int| 0 <= m < a.len() && a[m].0 == i;
    assert(b[m] == a[m]);
}

proof fn lemma_finished_prefix(
    rows: Seq<ProcessRow>,
    a: Seq<(usize, usize)>,
    b: Seq<(usize, usize)>,
    e: Option<u32>,
)
    requires
        is_prefix(a, b),
        finished(rows, a, e),
    ensures
        finished(rows, b, e),
{
    assert forall|i: int| 0 <= i < rows.len() && rows[i].parent == e implies #[trigger] emitted(
        b,
        i,
    ) by {
        assert(emitted(a, i));
        lemma_emitted_prefix(a, b, i);
    }
}

proof fn lemma_prefix_trans(a: Seq<(usize, usize)>, b: Seq<(usize, usize)>, c: Seq<(usize, usize)>)
    requires
        is_prefix(a, b),
        is_prefix(b, c),
    ensures
        is_prefix(a, c),
{
    reveal(is_prefix);
    assert forall|m: int| 0 <= m < a.len() implies #[trigger] c[m] == a[m] by {
        assert(c[m] == b[m]);
    }
}

proof fn lemma_prefix_push(a: Seq<(usize, usize)>, x: (usize, usize))
    ensures
        is_prefix(a, a.push(x)),
        is_prefix(a, a),
{
    reveal(is_prefix);
}

proof fn lemma_grows_trans(a: Seq<Option<u32>>, b: Seq<Option<u32>>, c: Seq<Option<u32>>)
    requires
        grows(a, b),
        grows(b, c),
    ensures
        grows(a, c),
{
    reveal(grows);
    assert forall|e: Option<u32>| a.contains(e) implies #[trigger] c.contains(e) by {
        assert(b.contains(e));
    }
}

/// What an expansion of `k` at depth `d` may rely on.
spec fn call_ctx(
    rows: Seq<ProcessRow>,
    kv: Seq<KeyView>,
    desc: bool,
    k: Option<u32>,
    d: int,
    out0: Seq<(usize, usize)>,
    exp0: Seq<Option<u32>>,
    children: Seq<usize>,
) -> bool {
    &&& 0 <= d <= out0.len()
    &&& d == 0 ==> is_root_key(rows, k)
    &&& d > 0 ==> out0.len() > 0 && out0.last().1 + 1 == d && k == Some(
        rows[out0.last().0 as int].pid,
    )
    &&& !exp0.contains(k)
    &&& p_links(rows, out0, exp0)
    &&& children.no_duplicates()
    &&& ordered(kv, desc, children)
    &&& forall|a: int|
        0 <= a < children.len() ==> #[trigger] children[a] < rows.len() && rows[children[a] as int].parent
            == k
    &&& forall|i: usize| #[trigger] children.contains(i) <==> (i < rows.len() && rows[i as int].parent == k)
}

/// What holds while the children of `k` are being listed, `t` of them done.
spec fn loop_inv(
    rows: Seq<ProcessRow>,
    kv: Seq<KeyView>,
    desc: bool,
    k: Option<u32>,
    d: int,
    out0: Seq<(usize, usize)>,
    exp0: Seq<Option<u32>>,
    children: Seq<usize>,
    t: int,
    out: Seq<(usize, usize)>,
    exp: Seq<Option<u32>>,
) -> bool {
    &&& 0 <= t <= children.len()
    &&& tree_inv(rows, kv, desc, out, exp)
    &&& is_prefix(out0, out)
    &&& seg_ok(rows, out0, exp0, d, out)
    &&& kids_ok(rows, out0, k, children, t, out)
    &&& done_ok(out, children, t)
    &&& grows(exp0, exp)
    &&& exp.contains(k)
    &&& new_finished(rows, out, exp0, exp, Some(k))
    &&& pids_expanded(rows, out, out0.len() as int, out.len() as int, exp)
}

proof fn lemma_push_rows(n: nat, out: Seq<(usize, usize)>, c: usize, d: usize)
    requires
        p_rows(n, out),
        !emitted(out, c as int),
        c < n,
    ensures
        p_rows(n, out.push((c, d))),
        out.len() + 1 <= n,
{
    reveal(p_rows);
    let out2 = out.push((c, d));
    let mn = out.len() as int;
    assert forall|a: int, b: int|
        0 <= a < out2.len() && 0 <= b < out2.len() && a != b implies (#[trigger] out2[a]).0
        != (#[trigger] out2[b]).0 by {
        if a == mn {
            assert(out2[b] == out[b]);
        } else if b == mn {
            assert(out2[a] == out[a]);
        } else {
            assert(out2[a] == out[a]);
            assert(out2[b] == out[b]);
        }
    }
    assert forall|m: int| 0 <= m < out2.len() implies (#[trigger] out2[m]).0 < n by {
        if m < mn {
            assert(out2[m] == out[m]);
        }
    }
    lemma_out_bounded(n, out2);
}

proof fn lemma_push_links(
    rows: Seq<ProcessRow>,
    out: Seq<(usize, usize)>,
    exp: Seq<Option<u32>>,
    c: usize,
    d: usize,
)
    requires
        p_links(rows, out, exp),
        exp.contains(rows[c as int].parent),
    ensures
        p_links(rows, out.push((c, d)), exp),
{
    reveal(p_links);
    let out2 = out.push((c, d));
    assert forall|m: int| 0 <= m < out2.len() implies exp.contains(#[trigger] link(rows, out2, m)) by {
        if m < out.len() {
            assert(out2[m] == out[m]);
            assert(link(rows, out2, m) == link(rows, out, m));
        }
    }
}

proof fn lemma_push_roots(rows: Seq<ProcessRow>, out: Seq<(usize, usize)>, c: usize, d: usize)
    requires
        p_roots(rows, out),
        d == 0 ==> is_root_key(rows, rows[c as int].parent),
    ensures
        p_roots(rows, out.push((c, d))),
{
    reveal(p_roots);
    let out2 = out.push((c, d));
    assert forall|m: int| 0 <= m < out2.len() && (#[trigger] out2[m]).1 == 0 implies is_root_key(
        rows,
        link(rows, out2, m),
    ) by {
        if m < out.len() {
            assert(out2[m] == out[m]);
            assert(link(rows, out2, m) == link(rows, out, m));
        }
    }
}

proof fn lemma_push_parents(
    rows: Seq<ProcessRow>,
    out0: Seq<(usize, usize)>,
    out: Seq<(usize, usize)>,
    c: usize,
    d: usize,
)
    requires
        p_parents(rows, out),
        is_prefix(out0, out),
        forall|m: int| out0.len() <= m < out.len() ==> (#[trigger] out[m]).1 >= d,
        d > 0 ==> out0.len() > 0 && out0.last().1 + 1 == d && rows[c as int].parent == Some(
            rows[out0.last().0 as int].pid,
        ),
    ensures
        p_parents(rows, out.push((c, d))),
{
    reveal(p_parents);
    reveal(is_prefix);
    let out2 = out.push((c, d));
    let mn = out.len() as int;
    assert forall|m: int| 0 <= m < out2.len() && (#[trigger] out2[m]).1 > 0 implies exists|j: int|
        parent_entry(rows, out2, j, m) by {
        if m < mn {
            assert(out2[m] == out[m]);
            let j = choose|j: int| parent_entry(rows, out, j, m);
            assert(out2[j] == out[j]);
            assert forall|q: int| j < q < m implies (#[trigger] out2[q]).1 >= out2[m].1 by {
                assert(out2[q] == out[q]);
            }
            assert(parent_entry(rows, out2, j, m));
        } else {
            let j = out0.len() - 1;
            assert(out[j] == out0[j]);
            assert(out2[j] == out0.last());
            assert forall|q: int| j < q < m implies (#[trigger] out2[q]).1 >= out2[m].1 by {
                assert(out2[q] == out[q]);
            }
            assert(parent_entry(rows, out2, j, m));
        }
    }
}

proof fn lemma_push_siblings(
    rows: Seq<ProcessRow>,
    kv: Seq<KeyView>,
    desc: bool,
    out0: Seq<(usize, usize)>,
    exp0: Seq<Option<u32>>,
    k: Option<u32>,
    children: Seq<usize>,
    t: int,
    out: Seq<(usize, usize)>,
)
    requires
        p_siblings(rows, kv, desc, out),
        p_links(rows, out0, exp0),
        !exp0.contains(k),
        is_prefix(out0, out),
        kids_ok(rows, out0, k, children, t, out),
        ordered(kv, desc, children),
        0 <= t < children.len(),
        rows[children[t] as int].parent == k,
    ensures
        p_siblings(rows, kv, desc, out.push((children[t], 0usize))) || true,
        forall|d: usize| p_siblings(rows, kv, desc, #[trigger] out.push((children[t], d))),
{
    assert forall|d: usize| p_siblings(rows, kv, desc, #[trigger] out.push((children[t], d))) by {
        reveal(p_siblings);
        reveal(p_links);
        reveal(is_prefix);
        reveal(kids_ok);
        let out2 = out.push((children[t], d));
        let mn = out.len() as int;
        assert forall|a: int, b: int|
            0 <= a < b < out2.len() && link(rows, out2, a) == link(rows, out2, b) implies #[trigger] before(
            kv,
            desc,
            out2[a].0 as int,
            out2[b].0 as int,
        ) by {
            assert(out2[a] == out[a]);
            if b < mn {
                assert(out2[b] == out[b]);
                assert(link(rows, out2, b) == link(rows, out, b));
            } else {
                assert(link(rows, out, a) == k);
                if a < out0.len() {
                    assert(out[a] == out0[a]);
                    assert(link(rows, out0, a) == k);
                    assert(exp0.contains(link(rows, out0, a)));
                } else {
                    let x = choose|x: int| 0 <= x < t && #[trigger] out[a].0 == children[x];
                    assert(before(kv, desc, children[x] as int, children[t] as int));
                }
            }
        }
    }
}

proof fn lemma_push(
    rows: Seq<ProcessRow>,
    kv: Seq<KeyView>,
    desc: bool,
    k: Option<u32>,
    d: int,
    out0: Seq<(usize, usize)>,
    exp0: Seq<Option<u32>>,
    children: Seq<usize>,
    t: int,
    out: Seq<(usize, usize)>,
    exp: Seq<Option<u32>>,
    out2: Seq<(usize, usize)>,
)
    requires
        call_ctx(rows, kv, desc, k, d, out0, exp0, children),
        loop_inv(rows, kv, desc, k, d, out0, exp0, children, t, out, exp),
        t < children.len(),
        0 <= d <= usize::MAX,
        out2 == out.push((children[t], d as usize)),
    ensures
        tree_inv(rows, kv, desc, out2, exp),
        is_prefix(out0, out2),
        is_prefix(out, out2),
        seg_ok(rows, out0, exp0, d, out2),
        kids_ok(rows, out0, k, children, t + 1, out2),
        done_ok(out2, children, t + 1),
        new_finished(rows, out2, exp0, exp, Some(k)),
        pids_expanded(rows, out2, out0.len() as int, out.len() as int, exp),
        out2.len() == out.len() + 1,
        out2.last() == (children[t], d as usize),
{
    let n = rows.len();
    let c = children[t];
    let du = d as usize;
    let mn = out.len() as int;
    assert(out2[mn] == (c, du));
    assert(link(rows, out2, mn) == k);
    assert(!emitted(out, c as int)) by {
        reveal(done_ok);
    }
    lemma_push_rows(n, out, c, du);
    lemma_push_links(rows, out, exp, c, du);
    lemma_push_roots(rows, out, c, du);
    assert forall|m: int| out0.len() <= m < out.len() implies (#[trigger] out[m]).1 >= du by {
        reveal(seg_ok);
    }
    lemma_push_parents(rows, out0, out, c, du);
    lemma_push_siblings(rows, kv, desc, out0, exp0, k, children, t, out);
    lemma_prefix_push(out, (c, du));
    lemma_prefix_trans(out0, out, out2);
    assert(seg_ok(rows, out0, exp0, d, out2)) by {
        reveal(seg_ok);
        assert forall|m: int| out0.len() <= m < out2.len() implies (#[trigger] out2[m]).1 >= d
            && !exp0.contains(link(rows, out2, m)) by {
            if m < mn {
                assert(out2[m] == out[m]);
                assert(link(rows, out2, m) == link(rows, out, m));
            }
        }
    }
    assert(kids_ok(rows, out0, k, children, t + 1, out2)) by {
        reveal(kids_ok);
        assert forall|m: int|
            out0.len() <= m < out2.len() && link(rows, out2, m) == k implies exists|a: int|
                0 <= a < t + 1 && #[trigger] out2[m].0 == children[a] by {
            if m < mn {
                assert(out2[m] == out[m]);
                let a = choose|a: int| 0 <= a < t && #[trigger] out[m].0 == children[a];
                assert(out2[m].0 == children[a]);
            } else {
                assert(out2[m].0 == children[t]);
            }
        }
    }
    assert(done_ok(out2, children, t + 1)) by {
        reveal(done_ok);
        assert forall|a: int| 0 <= a < t + 1 implies emitted(out2, #[trigger] children[a] as int) by {
            if a < t {
                lemma_emitted_prefix(out, out2, children[a] as int);
            } else {
                assert(out2[mn].0 == children[a]);
            }
        }
        assert forall|a: int| t + 1 <= a < children.len() implies !emitted(
            out2,
            #[trigger] children[a] as int,
        ) by {
            assert(!emitted(out, children[a] as int));
            assert(children[a] != children[t]);
            if emitted(out2, children[a] as int) {
                let m = choose|m: int| 0 <= m < out2.len() && out2[m].0 == children[a] as int;
                if m < mn {
                    assert(out2[m] == out[m]);
                }
            }
        }
    }
    assert(new_finished(rows, out2, exp0, exp, Some(k))) by {
        reveal(new_finished);
        assert forall|e: Option<u32>|
            #[trigger] exp.contains(e) && !exp0.contains(e) && Some(k) != Some(e) implies finished(
            rows,
            out2,
            e,
        ) by {
            lemma_finished_prefix(rows, out, out2, e);
        }
    }
    assert(pids_expanded(rows, out2, out0.len() as int, out.len() as int, exp)) by {
        reveal(pids_expanded);
        assert forall|m: int| out0.len() <= m < out.len() implies exp.contains(
            Some(rows[(#[trigger] out2[m]).0 as int].pid),
        ) by {
            assert(out2[m] == out[m]);
        }
    }
}

proof fn lemma_after_call(
    rows: Seq<ProcessRow>,
    kv: Seq<KeyView>,
    desc: bool,
    k: Option<u32>,
    d: int,
    out0: Seq<(usize, usize)>,
    exp0: Seq<Option<u32>>,
    children: Seq<usize>,
    t: int,
    out1: Seq<(usize, usize)>,
    exp1: Seq<Option<u32>>,
    out2: Seq<(usize, usize)>,
    exp2: Seq<Option<u32>>,
)
    requires
        call_ctx(rows, kv, desc, k, d, out0, exp0, children),
        0 <= t <= children.len(),
        is_prefix(out0, out1),
        seg_ok(rows, out0, exp0, d, out1),
        kids_ok(rows, out0, k, children, t, out1),
        done_ok(out1, children, t),
        grows(exp0, exp1),
        exp1.contains(k),
        new_finished(rows, out1, exp0, exp1, Some(k)),
        pids_expanded(rows, out1, out0.len() as int, out1.len() - 1, exp1),
        out1.len() > out0.len(),
        tree_inv(rows, kv, desc, out2, exp2),
        is_prefix(out1, out2),
        seg_ok(rows, out1, exp1, d + 1, out2),
        grows(exp1, exp2),
        exp2.contains(Some(rows[out1.last().0 as int].pid)),
        new_finished(rows, out2, exp1, exp2, None),
        pids_expanded(rows, out2, out1.len() as int, out2.len() as int, exp2),
    ensures
        loop_inv(rows, kv, desc, k, d, out0, exp0, children, t, out2, exp2),
{
    lemma_prefix_trans(out0, out1, out2);
    lemma_grows_trans(exp0, exp1, exp2);
    assert(exp2.contains(k)) by {
        reveal(grows);
    }
    assert(seg_ok(rows, out0, exp0, d, out2)) by {
        reveal(seg_ok);
        reveal(is_prefix);
        reveal(grows);
        assert forall|m: int| out0.len() <= m < out2.len() implies (#[trigger] out2[m]).1 >= d
            && !exp0.contains(link(rows, out2, m)) by {
            if m < out1.len() {
                assert(out2[m] == out1[m]);
                assert(link(rows, out2, m) == link(rows, out1, m));
            } else {
                assert(!exp1.contains(link(rows, out2, m)));
                if exp0.contains(link(rows, out2, m)) {
                    assert(exp1.contains(link(rows, out2, m)));
                }
            }
        }
    }
    assert(kids_ok(rows, out0, k, children, t, out2)) by {
        reveal(kids_ok);
        reveal(seg_ok);
        reveal(is_prefix);
        assert forall|m: int|
            out0.len() <= m < out2.len() && link(rows, out2, m) == k implies exists|a: int|
                0 <= a < t && #[trigger] out2[m].0 == children[a] by {
            if m < out1.len() {
                assert(out2[m] == out1[m]);
                assert(link(rows, out2, m) == link(rows, out1, m));
                let a = choose|a: int| 0 <= a < t && #[trigger] out1[m].0 == children[a];
                assert(out2[m].0 == children[a]);
            } else {
                assert(!exp1.contains(link(rows, out2, m)));
            }
        }
    }
    assert(done_ok(out2, children, t)) by {
        reveal(done_ok);
        reveal(seg_ok);
        reveal(is_prefix);
        assert forall|a: int| 0 <= a < t implies emitted(out2, #[trigger] children[a] as int) by {
            lemma_emitted_prefix(out1, out2, children[a] as int);
        }
        assert forall|a: int| t <= a < children.len() implies !emitted(
            out2,
            #[trigger] children[a] as int,
        ) by {
            assert(!emitted(out1, children[a] as int));
            if emitted(out2, children[a] as int) {
                let m = choose|m: int| 0 <= m < out2.len() && out2[m].0 == children[a] as int;
                if m < out1.len() {
                    assert(out2[m] == out1[m]);
                } else {
                    assert(link(rows, out2, m) == k);
                    assert(!exp1.contains(link(rows, out2, m)));
                }
            }
        }
    }
    assert(new_finished(rows, out2, exp0, exp2, Some(k))) by {
        reveal(new_finished);
        assert forall|e: Option<u32>|
            #[trigger] exp2.contains(e) && !exp0.contains(e) && Some(k) != Some(e) implies finished(
            rows,
            out2,
            e,
        ) by {
            if exp1.contains(e) {
                assert(finished(rows, out1, e));
                lemma_finished_prefix(rows, out1, out2, e);
            } else {
                assert(None::<Option<u32>> != Some(e));
            }
        }
    }
    assert(pids_expanded(rows, out2, out0.len() as int, out2.len() as int, exp2)) by {
        reveal(pids_expanded);
        reveal(is_prefix);
        reveal(grows);
        assert forall|m: int| out0.len() <= m < out2.len() implies exp2.contains(
            Some(rows[(#[trigger] out2[m]).0 as int].pid),
        ) by {
            if m < out1.len() - 1 {
                assert(out2[m] == out1[m]);
                assert(exp1.contains(Some(rows[out1[m].0 as int].pid)));
            } else if m == out1.len() - 1 {
                assert(out2[m] == out1.last());
            }
        }
    }
}

proof fn lemma_loop_start(
    rows: Seq<ProcessRow>,
    kv: Seq<KeyView>,
    desc: bool,
    k: Option<u32>,
    d: int,
    out0: Seq<(usize, usize)>,
    exp0: Seq<Option<u32>>,
    children: Seq<usize>,
    exp: Seq<Option<u32>>,
)
    requires
        call_ctx(rows, kv, desc, k, d, out0, exp0, children),
        kv.len() == rows.len(),
        out0.len() <= rows.len(),
        p_rows(rows.len(), out0),
        p_roots(rows, out0),
        p_parents(rows, out0),
        p_siblings(rows, kv, desc, out0),
        exp == exp0.push(k),
        exp0.no_duplicates(),
    ensures
        loop_inv(rows, kv, desc, k, d, out0, exp0, children, 0, out0, exp),
{
    assert forall|a: int, b: int|
        0 <= a < exp.len() && 0 <= b < exp.len() && a != b implies exp[a] != exp[b] by {
        if a < exp0.len() && b < exp0.len() {
        } else if a < exp0.len() {
            assert(exp0.contains(exp[a]));
        } else {
            assert(exp0.contains(exp[b]));
        }
    }
    assert(exp[exp0.len() as int] == k);
    assert(grows(exp0, exp)) by {
        reveal(grows);
        assert forall|e: Option<u32>| exp0.contains(e) implies #[trigger] exp.contains(e) by {
            let a = choose|a: int| 0 <= a < exp0.len() && exp0[a] == e;
            assert(exp[a] == e);
        }
    }
    assert(p_links(rows, out0, exp)) by {
        reveal(p_links);
        reveal(grows);
    }
    lemma_prefix_push(out0, (0usize, 0usize));
    assert(seg_ok(rows, out0, exp0, d, out0)) by {
        reveal(seg_ok);
    }
    assert(kids_ok(rows, out0, k, children, 0, out0)) by {
        reveal(kids_ok);
    }
    assert(done_ok(out0, children, 0)) by {
        reveal(done_ok);
        reveal(p_links);
        assert forall|a: int| 0 <= a < children.len() implies !emitted(
            out0,
            #[trigger] children[a] as int,
        ) by {
            if emitted(out0, children[a] as int) {
                let m = choose|m: int| 0 <= m < out0.len() && out0[m].0 == children[a] as int;
                assert(exp0.contains(link(rows, out0, m)));
            }
        }
    }
    assert(new_finished(rows, out0, exp0, exp, Some(k))) by {
        reveal(new_finished);
        assert forall|e: Option<u32>|
            #[trigger] exp.contains(e) && !exp0.contains(e) && Some(k) != Some(e) implies finished(
            rows,
            out0,
            e,
        ) by {
            let a = choose|a: int| 0 <= a < exp.len() && exp[a] == e;
            if a < exp0.len() {
                assert(exp0.contains(e));
            }
        }
    }
    assert(pids_expanded(rows, out0, out0.len() as int, out0.len() as int, exp)) by {
        reveal(pids_expanded);
    }
}

proof fn lemma_loop_end(
    rows: Seq<ProcessRow>,
    kv: Seq<KeyView>,
    desc: bool,
    k: Option<u32>,
    d: int,
    out0: Seq<(usize, usize)>,
    exp0: Seq<Option<u32>>,
    children: Seq<usize>,
    out: Seq<(usize, usize)>,
    exp: Seq<Option<u32>>,
)
    requires
        call_ctx(rows, kv, desc, k, d, out0, exp0, children),
        loop_inv(rows, kv, desc, k, d, out0, exp0, children, children.len() as int, out, exp),
        rows.len() <= usize::MAX,
    ensures
        new_finished(rows, out, exp0, exp, None),
{
    reveal(new_finished);
    reveal(done_ok);
    assert forall|e: Option<u32>|
        #[trigger] exp.contains(e) && !exp0.contains(e) && None::<Option<u32>> != Some(e) implies finished(
        rows,
        out,
        e,
    ) by {
        if e == k {
            assert forall|i: int| 0 <= i < rows.len() && rows[i].parent == k implies #[trigger] emitted(
                out,
                i,
            ) by {
                let iu = i as usize;
                assert(children.contains(iu));
                let a = choose|a: int| 0 <= a < children.len() && children[a] == iu;
                assert(emitted(out, children[a] as int));
            }
        } else {
            assert(Some(k) != Some(e));
        }
    }
}

/// Lists the rows whose parent link is `k`, sorted, each followed by its
/// own subtree, `d` being their depth. `k` has not been expanded before;
/// at depth > 0 the last entry is the process `k` points to.
fn expand(
    rows: &Vec<ProcessRow>,
    keys: &Vec<SortKey>,
    desc: bool,
    k: Option<u32>,
    d: usize,
    out: &mut Vec<(usize, usize)>,
    expanded: &mut Vec<Option<u32>>,
    room: usize,
)
    requires
        room == rows@.len() - old(out)@.len(),
        tree_inv(rows@, key_views(keys@), desc, old(out)@, old(expanded)@),
        !old(expanded)@.contains(k),
        d == 0 ==> is_root_key(rows@, k),
        d > 0 ==> old(out)@.len() > 0 && old(out)@.last().1 + 1 == d && k == Some(
            rows@[old(out)@.last().0 as int].pid,
        ),
        d <= old(out)@.len(),
    ensures
        tree_inv(rows@, key_views(keys@), desc, final(out)@, final(expanded)@),
        final(out)@.len() >= old(out)@.len(),
        is_prefix(old(out)@, final(out)@),
        seg_ok(rows@, old(out)@, old(expanded)@, d as int, final(out)@),
        grows(old(expanded)@, final(expanded)@),
        final(expanded)@.contains(k),
        new_finished(rows@, final(out)@, old(expanded)@, final(expanded)@, None),
        pids_expanded(
            rows@,
            final(out)@,
            old(out)@.len() as int,
            final(out)@.len() as int,
            final(expanded)@,
        ),
    decreases room,
{
    let ghost kv = key_views(keys@);
    let ghost out0 = out@;
    let ghost exp0 = expanded@;
    let ghost n = rows@.len();
    let nrows = rows.len();
    expanded.push(k);
    let ch = children_of(rows, k);
    let children = sort_positions(keys, desc, &ch);
    assert forall|a: int| 0 <= a < children@.len() implies #[trigger] children@[a] < n
        && rows@[children@[a] as int].parent == k by {
        assert(children@.contains(children@[a]));
        assert(ch@.contains(children@[a]));
    }
    assert forall|i: usize| #[trigger] children@.contains(i) <==> (i < n && rows@[i as int].parent == k) by {
        assert(children@.contains(i) <==> ch@.contains(i));
    }
    assert(call_ctx(rows@, kv, desc, k, d as int, out0, exp0, children@));
    proof {
        lemma_loop_start(rows@, kv, desc, k, d as int, out0, exp0, children@, expanded@);
    }
    let mut t: usize = 0;
    while t < children.len()
        invariant
            kv == key_views(keys@),
            n == rows@.len(),
            n == nrows,
            room == n - out0.len(),
            call_ctx(rows@, kv, desc, k, d as int, out0, exp0, children@),
            loop_inv(rows@, kv, desc, k, d as int, out0, exp0, children@, t as int, out@, expanded@),
            out@.len() >= out0.len(),
            d <= out0.len(),
        decreases children@.len() - t,
    {
        let c = children[t];
        let ghost before_push = out@;
        let ghost exp_now = expanded@;
        out.push((c, d));
        proof {
            lemma_push(
                rows@,
                kv,
                desc,
                k,
                d as int,
                out0,
                exp0,
                children@,
                t as int,
                before_push,
                exp_now,
                out@,
            );
        }
        let ck = Some(rows[c].pid);
        if !is_expanded(expanded, ck) {
            let ghost out1 = out@;
            let ghost exp1 = expanded@;
            assert(out@.len() <= rows@.len());
            assert(out@.len() > out0.len());
            let room2 = nrows - out.len();
            expand(rows, keys, desc, ck, d + 1, out, expanded, room2);
            proof {
                lemma_after_call(
                    rows@,
                    kv,
                    desc,
                    k,
                    d as int,
                    out0,
                    exp0,
                    children@,
                    t + 1,
                    out1,
                    exp1,
                    out@,
                    expanded@,
                );
            }
        } else {
            proof {
                assert(pids_expanded(rows@, out@, out0.len() as int, out@.len() as int, expanded@))
                    by {
                    reveal(pids_expanded);
                    assert forall|m: int| out0.len() <= m < out@.len() implies expanded@.contains(
                        Some(rows@[(#[trigger] out@[m]).0 as int].pid),
                    ) by {
                        if m < out@.len() - 1 {
                        } else {
                            assert(out@[m] == (c, d));
                        }
                    }
                }
            }
        }
        t = t + 1;
    }
    proof {
        lemma_loop_end(rows@, kv, desc, k, d as int, out0, exp0, children@, out@, expanded@);
    }
}

/// The process tree: each root's children in sorted order, each followed by
/// its own subtree one level deeper. Every entry gives a row and the depth at
/// which it is shown; roots are the rows whose parent link leads to no
/// listed process.
pub fn tree_order(rows: &Vec<ProcessRow>, col: SortColumn, desc: bool) -> (out: Vec<(usize, usize)>)
    ensures
        tree_rows_ok(rows@.len(), out@),
        tree_roots_ok(rows@, out@),
        tree_parents_ok(rows@, out@),
        tree_siblings_ok(rows@, row_keys(rows@, col), desc, out@),
        tree_complete(rows@, out@),
{
    let keys = keys_for(rows, col);
    let ghost kv = key_views(keys@);
    let nrows = rows.len();
    let mut out: Vec<(usize, usize)> = Vec::new();
    let mut expanded: Vec<Option<u32>> = Vec::new();
    proof {
        reveal(p_rows);
        reveal(p_links);
        reveal(p_roots);
        reveal(p_parents);
        reveal(p_siblings);
        reveal(pids_expanded);
        assert(kv.len() == rows@.len());
    }
    let mut i: usize = 0;
    while i < rows.len()
        invariant
            kv == key_views(keys@),
            kv == row_keys(rows@, col),
            nrows == rows@.len(),
            i <= rows@.len(),
            tree_inv(rows@, kv, desc, out@, expanded@),
            forall|e: Option<u32>| #[trigger] expanded@.contains(e) ==> finished(rows@, out@, e),
            pids_expanded(rows@, out@, 0, out@.len() as int, expanded@),
            forall|a: int|
                0 <= a < i && is_root_key(rows@, #[trigger] rows@[a].parent) ==> expanded@.contains(
                    rows@[a].parent,
                ),
        decreases rows@.len() - i,
    {
        let k = rows[i].parent;
        if root_link(rows, k) && !is_expanded(&expanded, k) {
            let ghost out1 = out@;
            let ghost exp1 = expanded@;
            let room = nrows - out.len();
            expand(rows, &keys, desc, k, 0, &mut out, &mut expanded, room);
            proof {
                reveal(new_finished);
                reveal(grows);
                assert forall|e: Option<u32>| #[trigger] expanded@.contains(e) implies finished(rows@, out@, e) by {
                    if exp1.contains(e) {
                        assert(finished(rows@, out1, e));
                        lemma_finished_prefix(rows@, out1, out@, e);
                    } else {
                        assert(None::<Option<u32>> != Some(e));
                    }
                }
                assert(pids_expanded(rows@, out@, 0, out@.len() as int, expanded@)) by {
                    reveal(pids_expanded);
                    reveal(is_prefix);
                    assert forall|m: int| 0 <= m < out@.len() implies expanded@.contains(
                        Some(rows@[(#[trigger] out@[m]).0 as int].pid),
                    ) by {
                        if m < out1.len() {
                            assert(out@[m] == out1[m]);
                            assert(exp1.contains(Some(rows@[out1[m].0 as int].pid)));
                        }
                    }
                }
                assert forall|a: int|
                    0 <= a < i + 1 && is_root_key(rows@, #[trigger] rows@[a].parent) implies expanded@.contains(
                        rows@[a].parent,
                    ) by {
                    if a < i {
                        assert(exp1.contains(rows@[a].parent));
                    }
                }
            }
        }
        i = i + 1;
    }
    proof {
        reveal(p_rows);
        reveal(p_roots);
        reveal(p_parents);
        reveal(p_siblings);
        reveal(pids_expanded);
        assert forall|j: int| 0 <= j < rows@.len() && !#[trigger] emitted(out@, j) implies match rows@[j].parent {
            Some(p) => is_pid(rows@, p) && forall|q: int|
                0 <= q < rows@.len() && rows@[q].pid == p ==> !emitted(out@, q),
            None => false,
        } by {
            let k = rows@[j].parent;
            if is_root_key(rows@, k) {
                assert(expanded@.contains(k));
                assert(finished(rows@, out@, k));
            } else {
                let p = k->Some_0;
                assert forall|q: int| 0 <= q < rows@.len() && rows@[q].pid == p implies !emitted(out@, q) by {
                    if emitted(out@, q) {
                        let m = choose|m: int| 0 <= m < out@.len() && out@[m].0 == q;
                        assert(expanded@.contains(Some(rows@[out@[m].0 as int].pid)));
                        assert(finished(rows@, out@, k));
                    }
                }
            }
        }
    }
    out
}


// ---------------------------------------------------------------------------
// Remote processes
// ---------------------------------------------------------------------------

/// The command whose output lists a remote machine's processes.
pub open spec fn remote_listing_command() -> Seq<char> {
    "ps axo pid,ppid,pcpu,rss,user,comm"@
}

/// The command listing a remote machine's processes.
pub fn remote_process_command() -> (s: String)
    ensures
        s@ == remote_listing_command(),
{
    String::from_str("ps axo pid,ppid,pcpu,rss,user,comm")
}

/// The command that kills a remote process: `kill -9 '<pid>'`.
pub open spec fn remote_kill_text(pid: u32) -> Seq<char> {
    "kill -9 '"@ + spec_decimal(pid as nat) + "'"@
}

/// The command that kills process `pid` on the remote machine.
pub fn remote_kill_command(pid: u32) -> (s: String)
    ensures
        s@ == remote_kill_text(pid),
{
    String::from_str("kill -9 '").concat(decimal(pid as u64).as_str()).concat("'")
}

/// A process of a remote `ps` listing. `cpu` is the CPU column as printed;
/// `memory` is the resident size in bytes.
pub struct RemoteProcess {
    pub pid: usize,
    pub parent: Option<usize>,
    pub cpu: String,
    pub memory: u64,
    pub user: String,
    pub command: String,
}

/// A [`RemoteProcess`] taken by its characters, its size still in KiB.
pub struct RemoteEntry {
    pub pid: usize,
    pub parent: Option<usize>,
    pub cpu: Seq<char>,
    pub rss_kib: nat,
    pub user: Seq<char>,
    pub command: Seq<char>,
}

/// A line of `ps axo pid,ppid,pcpu,rss,user,comm` output: lines with fewer
/// than six words or a pid that is not a number are skipped; an unreadable
/// parent is none, an unreadable size zero, and the command is the words
/// from the sixth on joined by single spaces.
pub open spec fn ps_line(line: Seq<char>) -> Option<RemoteEntry> {
    let p = spec_words(line);
    if p.len() >= 6 {
        match spec_parse_unsigned(p[0], usize::MAX as nat) {
            Some(pid) => Some(
                RemoteEntry {
                    pid: pid as usize,
                    parent: match spec_parse_unsigned(p[1], usize::MAX as nat) {
                        Some(pp) => Some(pp as usize),
                        None => None,
                    },
                    cpu: p[2],
                    rss_kib: match spec_parse_unsigned(p[3], u64::MAX as nat) {
                        Some(r) => r,
                        None => 0,
                    },
                    user: p[4],
                    command: spec_join(p.subrange(5, p.len() as int), " "@),
                },
            ),
            None => None,
        }
    } else {
        None
    }
}

/// The entries `ps_line` finds in `ls`, in order.
pub open spec fn ps_entries_of(ls: Seq<Seq<char>>) -> Seq<RemoteEntry>
    decreases ls.len(),
{
    if ls.len() == 0 {
        seq![]
    } else {
        ps_entries_of(ls.drop_last()) + match ps_line(ls.last()) {
            Some(e) => seq![e],
            None => seq![],
        }
    }
}

/// The processes of a remote `ps` listing; its first line is a header.
pub open spec fn ps_entries(out: Seq<char>) -> Seq<RemoteEntry> {
    let ls = spec_lines(out);
    ps_entries_of(if ls.len() == 0 {
        ls
    } else {
        ls.drop_first()
    })
}

/// A listed process as the library keeps it: its size in bytes.
pub open spec fn remote_matches(p: RemoteProcess, e: RemoteEntry) -> bool {
    &&& p.pid == e.pid
    &&& p.parent == e.parent
    &&& p.cpu@ == e.cpu
    &&& p.memory == e.rss_kib * 1024
    &&& p.user@ == e.user
    &&& p.command@ == e.command
}

/// Every listed size, in bytes, fits in a `u64`.
pub open spec fn sizes_fit(entries: Seq<RemoteEntry>) -> bool {
    forall|i: int| 0 <= i < entries.len() ==> (#[trigger] entries[i]).rss_kib * 1024 <= u64::MAX
}

fn parse_ps_line(line: &str) -> (o: Option<(RemoteProcess, u64)>)
    ensures
        o is Some == ps_line(line@) is Some,
        o matches Some(r) ==> r.1 == ps_line(line@)->Some_0.rss_kib && r.0.pid == ps_line(line@)->Some_0.pid
            && r.0.parent == ps_line(line@)->Some_0.parent && r.0.cpu@ == ps_line(line@)->Some_0.cpu
            && r.0.user@ == ps_line(line@)->Some_0.user && r.0.command@ == ps_line(line@)->Some_0.command,
{
    let parts = split_whitespace(line);
    if parts.len() < 6 {
        return None;
    }
    let pid = match parse_usize(parts[0].as_str()) {
        Some(v) => v,
        None => {
            return None;
        },
    };
    let parent = parse_usize(parts[1].as_str());
    let rss = match parse_u64(parts[3].as_str()) {
        Some(v) => v,
        None => 0,
    };
    let command = join_from(&parts, 5, " ");
    Some(
        (
            RemoteProcess {
                pid,
                parent,
                cpu: copy_str(parts[2].as_str()),
                memory: 0,
                user: copy_str(parts[4].as_str()),
                command,
            },
            rss,
        ),
    )
}

/// The processes of a remote `ps` listing, in order; none when a listed
/// size in bytes does not fit in a `u64`.
pub fn parse_remote_processes(out: &str) -> (r: Option<Vec<RemoteProcess>>)
    ensures
        match r {
            Some(v) => {
                &&& sizes_fit(ps_entries(out@))
                &&& v@.len() == ps_entries(out@).len()
                &&& forall|i: int|
                    0 <= i < v@.len() ==> remote_matches(#[trigger] v@[i], ps_entries(out@)[i])
            },
            None => !sizes_fit(ps_entries(out@)),
        },
{
    let ls = lines(out);
    let ghost all = views(ls@);
    let start: usize = if ls.len() > 0 {
        1
    } else {
        0
    };
    let ghost target = ps_entries(out@);
    assert(all.subrange(start as int, all.len() as int) == (if all.len() == 0 {
        all
    } else {
        all.drop_first()
    }));
    let mut v: Vec<RemoteProcess> = Vec::new();
    let mut i = start;
    assert(all.subrange(start as int, start as int) =~= Seq::<Seq<char>>::empty());
    while i < ls.len()
        invariant
            start <= i <= ls@.len(),
            all == views(ls@),
            target == ps_entries(out@),
            target == ps_entries_of(all.subrange(start as int, all.len() as int)),
            v@.len() == ps_entries_of(all.subrange(start as int, i as int)).len(),
            forall|j: int|
                0 <= j < v@.len() ==> remote_matches(
                    #[trigger] v@[j],
                    ps_entries_of(all.subrange(start as int, i as int))[j],
                ),
        decreases ls@.len() - i,
    {
        let ghost pre = all.subrange(start as int, i as int);
        let ghost post = all.subrange(start as int, i + 1);
        assert(post.drop_last() == pre);
        assert(post.last() == ls@[i as int]@);
        proof {
            lemma_ps_prefix(all.subrange(start as int, all.len() as int), (i - start) as int);
            lemma_ps_prefix(all.subrange(start as int, all.len() as int), (i + 1 - start) as int);
            assert(all.subrange(start as int, all.len() as int).take((i - start) as int) == pre);
            assert(all.subrange(start as int, all.len() as int).take((i + 1 - start) as int) == post);
        }
        let ghost prev = v@;
        match parse_ps_line(ls[i].as_str()) {
            Some((p, rss)) => {
                let ghost e = ps_line(ls@[i as int]@)->Some_0;
                assert(ps_entries_of(post) == ps_entries_of(pre).push(e));
                assert(ps_entries_of(post).len() <= target.len());
                let ghost j = ps_entries_of(pre).len() as int;
                let ghost ls2 = all.subrange(start as int, all.len() as int);
                assert(ps_entries_of(post)[j] == e);
                assert(ps_entries_of(ls2.take((i + 1 - start) as int))[j] == target[j]);
                assert(target[j] == e);
                if rss > 0xffff_ffff_ffff_ffffu64 / 1024 {
                    assert(!sizes_fit(target)) by {
                        assert(target[j].rss_kib * 1024 > u64::MAX);
                    }
                    return None;
                }
                let mut p = p;
                p.memory = rss * 1024;
                v.push(p);
                assert forall|j: int| 0 <= j < v@.len() implies remote_matches(
                    #[trigger] v@[j],
                    ps_entries_of(post)[j],
                ) by {
                    if j < prev.len() {
                        assert(v@[j] == prev[j]);
                    }
                }
            },
            None => {
                assert(ps_entries_of(post) == ps_entries_of(pre) + Seq::<RemoteEntry>::empty());
                assert(ps_entries_of(post) =~= ps_entries_of(pre));
            },
        }
        i = i + 1;
    }
    assert(all.subrange(start as int, ls@.len() as int) == all.subrange(start as int, all.len() as int));
    assert forall|j: int| 0 <= j < target.len() implies (#[trigger] target[j]).rss_kib * 1024
        <= u64::MAX by {
        assert(remote_matches(v@[j], target[j]));
    }
    Some(v)
}

/// The entries of a prefix of the lines are a prefix of the entries.
proof fn lemma_ps_prefix(ls: Seq<Seq<char>>, k: int)
    requires
        0 <= k <= ls.len(),
    ensures
        ps_entries_of(ls.take(k)).len() <= ps_entries_of(ls).len(),
        forall|j: int|
            0 <= j < ps_entries_of(ls.take(k)).len() ==> #[trigger] ps_entries_of(ls.take(k))[j]
                == ps_entries_of(ls)[j],
    decreases ls.len() - k,
{
    if k < ls.len() {
        lemma_ps_prefix(ls, k + 1);
        assert(ls.take(k + 1).drop_last() == ls.take(k));
        let a = ps_entries_of(ls.take(k));
        let b = ps_entries_of(ls.take(k + 1));
        assert forall|j: int| 0 <= j < a.len() implies #[trigger] a[j] == ps_entries_of(ls)[j] by {
            assert(b[j] == a[j]);
        }
    } else {
        assert(ls.take(k) == ls);
    }
}


/// The pids of the processes named exactly `name`, in order.
pub open spec fn spec_pids_named(rows: Seq<ProcessRow>, name: Seq<char>) -> Seq<u32>
    decreases rows.len(),
{
    if rows.len() == 0 {
        seq![]
    } else {
        spec_pids_named(rows.drop_last(), name) + if rows.last().name@ == name {
            seq![rows.last().pid]
        } else {
            seq![]
        }
    }
}

/// The pids of the processes whose name is exactly `name`, in order.
pub fn pids_named(rows: &Vec<ProcessRow>, name: &str) -> (v: Vec<u32>)
    ensures
        v@ == spec_pids_named(rows@, name@),
{
    let mut v: Vec<u32> = Vec::new();
    let mut i: usize = 0;
    while i < rows.len()
        invariant
            i <= rows@.len(),
            v@ == spec_pids_named(rows@.take(i as int), name@),
        decreases rows@.len() - i,
    {
        assert(rows@.take(i + 1).drop_last() == rows@.take(i as int));
        assert(rows@.take(i + 1).last() == rows@[i as int]);
        let ghost prev = v@;
        if str_eq(rows[i].name.as_str(), name) {
            v.push(rows[i].pid);
            assert(v@ =~= prev + seq![rows@[i as int].pid]);
        } else {
            assert(v@ =~= prev + Seq::<u32>::empty());
        }
        i = i + 1;
    }
    assert(rows@.take(rows@.len() as int) == rows@);
    v
}

/// The pids found for a name are exactly those of the processes that bear
/// that name, each as many times as it is listed so.
pub proof fn lemma_pids_named_members(rows: Seq<ProcessRow>, name: Seq<char>)
    ensures
        forall|p: u32|
            #[trigger] spec_pids_named(rows, name).contains(p) <==> exists|i: int|
                0 <= i < rows.len() && (#[trigger] rows[i]).pid == p && rows[i].name@ == name,
        spec_pids_named(rows, name).len() <= rows.len(),
    decreases rows.len(),
{
    if rows.len() > 0 {
        let d = rows.drop_last();
        lemma_pids_named_members(d, name);
        let h = spec_pids_named(d, name);
        let t = if rows.last().name@ == name {
            seq![rows.last().pid]
        } else {
            Seq::<u32>::empty()
        };
        assert(spec_pids_named(rows, name) == h + t);
        assert forall|p: u32| #[trigger] spec_pids_named(rows, name).contains(p) <==> exists|i: int|
            0 <= i < rows.len() && (#[trigger] rows[i]).pid == p && rows[i].name@ == name by {
            let all = h + t;
            if all.contains(p) {
                let k = choose|k: int| 0 <= k < all.len() && all[k] == p;
                if k < h.len() {
                    assert(all[k] == h[k]);
                    assert(h.contains(p));
                    let i = choose|i: int|
                        0 <= i < d.len() && (#[trigger] d[i]).pid == p && d[i].name@ == name;
                    assert(rows[i] == d[i]);
                } else {
                    assert(all[k] == t[k - h.len()]);
                    assert(rows[rows.len() - 1] == rows.last());
                }
            }
            if exists|i: int| 0 <= i < rows.len() && (#[trigger] rows[i]).pid == p && rows[i].name@ == name {
                let i = choose|i: int|
                    0 <= i < rows.len() && (#[trigger] rows[i]).pid == p && rows[i].name@ == name;
                if i < d.len() {
                    assert(d[i] == rows[i]);
                    assert(h.contains(p));
                    let k = choose|k: int| 0 <= k < h.len() && h[k] == p;
                    assert(all[k] == h[k]);
                } else {
                    assert(all[h.len() as int] == p);
                }
            }
        }
    }
}

} // verus!
