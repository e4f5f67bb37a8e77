//! Orderings the window statistics are defined over: the increasing line of
//! distinct probe instants, and RTTs sorted by value.

use vstd::prelude::*;
use vstd::relations::{sorted_by, total_ordering};

verus! {

/// Every element is smaller than every later one.
pub open spec fn strictly_increasing(ts: Seq<u64>) -> bool {
    forall|i: int, j: int| 0 <= i < j < ts.len() ==> ts[i] < ts[j]
}

/// `ts` and `xs` hold the same values (counting each once).
pub open spec fn same_elements(ts: Seq<u64>, xs: Seq<u64>) -> bool {
    forall|t: u64| ts.contains(t) <==> xs.contains(t)
}

/// The distinct values of `xs`, in increasing order.
pub open spec fn timeline(xs: Seq<u64>) -> Seq<u64> {
    choose|ts: Seq<u64>| strictly_increasing(ts) && same_elements(ts, xs)
}

/// Two increasing lines over the same values are the same line.
pub proof fn lemma_increasing_unique(a: Seq<u64>, b: Seq<u64>)
    requires
        strictly_increasing(a),
        strictly_increasing(b),
        forall|t: u64| a.contains(t) <==> b.contains(t),
    ensures
        a == b,
    decreases a.len(),
{
    if a.len() == 0 {
        if b.len() > 0 {
            assert(b.contains(b[0]));
        }
        assert(a =~= b);
    } else {
        assert(a.contains(a[0]));
        assert(b.len() > 0);
        assert(b.contains(b[0]));
        let k = choose|k: int| 0 <= k < b.len() && b[k] == a[0];
        let m = choose|m: int| 0 <= m < a.len() && a[m] == b[0];
        assert(a[0] <= a[m]);
        assert(b[0] <= b[k]);
        assert(a[0] == b[0]);
        let a1 = a.drop_first();
        let b1 = b.drop_first();
        assert forall|t: u64| a1.contains(t) <==> b1.contains(t) by {
            if a1.contains(t) {
                let i = choose|i: int| 0 <= i < a1.len() && a1[i] == t;
                assert(a[i + 1] == t);
                assert(a.contains(t));
                let j = choose|j: int| 0 <= j < b.len() && b[j] == t;
                assert(t > a[0]);
                assert(j != 0);
                assert(b1[j - 1] == t);
            }
            if b1.contains(t) {
                let i = choose|i: int| 0 <= i < b1.len() && b1[i] == t;
                assert(b[i + 1] == t);
                assert(b.contains(t));
                let j = choose|j: int| 0 <= j < a.len() && a[j] == t;
                assert(t > b[0]);
                assert(j != 0);
                assert(a1[j - 1] == t);
            }
        }
        lemma_increasing_unique(a1, b1);
        assert forall|i: int| 0 <= i < a.len() implies a[i] == b[i] by {
            if i > 0 {
                assert(a[i] == a1[i - 1]);
                assert(b[i] == b1[i - 1]);
            }
        }
        assert(a =~= b);
    }
}

/// Any increasing line over the values of `xs` is `timeline(xs)`.
pub proof fn lemma_timeline_is(ts: Seq<u64>, xs: Seq<u64>)
    requires
        strictly_increasing(ts),
        same_elements(ts, xs),
    ensures
        timeline(xs) == ts,
{
    let t2 = timeline(xs);
    assert(strictly_increasing(t2) && same_elements(t2, xs));
    lemma_increasing_unique(ts, t2);
}

/// The distinct values of `xs` in increasing order.
pub fn timeline_of(xs: &Vec<u64>) -> (ts: Vec<u64>)
    ensures
        ts@ == timeline(xs@),
        strictly_increasing(ts@),
        same_elements(ts@, xs@),
        ts@.len() <= xs@.len(),
{
    let mut out: Vec<u64> = Vec::new();
    let n = xs.len();
    for i in 0..n
        invariant
            n == xs@.len(),
            strictly_increasing(out@),
            forall|t: u64| out@.contains(t) <==> xs@.take(i as int).contains(t),
            out@.len() <= i,
    {
        let x = xs[i];
        let ghost before = out@;
        let mut p: usize = 0;
        while p < out.len() && out[p] < x
            invariant
                out@ == before,
                p <= out@.len(),
                forall|k: int| 0 <= k < p ==> out@[k] < x,
            decreases out@.len() - p,
        {
            p = p + 1;
        }
        let present = p < out.len() && out[p] == x;
        if !present {
            out.insert(p, x);
            proof {
                before.insert_ensures(p as int, x);
                assert forall|a: int, b: int| 0 <= a < b < out@.len() implies out@[a] < out@[b] by {
                    if b < p {
                    } else if b == p {
                    } else if a < p {
                        assert(out@[b] == before[b - 1]);
                        assert(x <= before[p as int]);
                    } else if a == p {
                        assert(out@[b] == before[b - 1]);
                        assert(x <= before[p as int]);
                        assert(x != before[p as int]);
                    } else {
                        assert(out@[a] == before[a - 1]);
                        assert(out@[b] == before[b - 1]);
                    }
                }
                assert forall|t: u64| out@.contains(t) <==> (before.contains(t) || t == x) by {
                    if out@.contains(t) {
                        let k = choose|k: int| 0 <= k < out@.len() && out@[k] == t;
                        if k < p {
                            assert(before[k] == t);
                        } else if k > p {
                            assert(before[k - 1] == t);
                        }
                    }
                    if before.contains(t) {
                        let k = choose|k: int| 0 <= k < before.len() && before[k] == t;
                        if k < p {
                            assert(out@[k] == t);
                        } else {
                            assert(out@[k + 1] == t);
                        }
                    }
                    if t == x {
                        assert(out@[p as int] == t);
                    }
                }
            }
        } else {
            proof {
                assert(before.contains(x));
            }
        }
        proof {
            let pre = xs@.take(i as int);
            let post = xs@.take(i + 1);
            assert(post =~= pre.push(x));
            assert forall|t: u64| post.contains(t) <==> (pre.contains(t) || t == x) by {
                if post.contains(t) {
                    let k = choose|k: int| 0 <= k < post.len() && post[k] == t;
                    if k < pre.len() {
                        assert(pre[k] == t);
                    }
                }
                if pre.contains(t) {
                    let k = choose|k: int| 0 <= k < pre.len() && pre[k] == t;
                    assert(post[k] == t);
                }
                if t == x {
                    assert(post[i as int] == t);
                }
            }
            assert forall|t: u64| out@.contains(t) <==> xs@.take(i + 1).contains(t) by {
                if !present {
                    assert(out@.contains(t) <==> (before.contains(t) || t == x));
                } else {
                    assert(out@ == before);
                }
                assert(before.contains(t) <==> pre.contains(t));
            }
        }
    }
    proof {
        assert(xs@.take(n as int) =~= xs@);
        lemma_timeline_is(out@, xs@);
    }
    out
}

/// The natural order on `u32`.
pub open spec fn le_u32(a: u32, b: u32) -> bool {
    a <= b
}

/// `<=` on `u32` is a total order (what a sort by it needs).
pub proof fn lemma_le_u32_total()
    ensures
        total_ordering(|a: u32, b: u32| le_u32(a, b)),
{
}

/// `xs` sorted into non-decreasing order.
pub open spec fn sorted_u32(xs: Seq<u32>) -> Seq<u32> {
    xs.sort_by(|a: u32, b: u32| le_u32(a, b))
}

/// Inserting `x` after every element `<= x` keeps a sequence sorted.
proof fn lemma_insert_keeps_sorted(before: Seq<u32>, p: int, x: u32)
    requires
        sorted_by(before, |a: u32, b: u32| le_u32(a, b)),
        0 <= p <= before.len(),
        forall|k: int| 0 <= k < p ==> before[k] <= x,
        p < before.len() ==> before[p] > x,
    ensures
        sorted_by(before.insert(p, x), |a: u32, b: u32| le_u32(a, b)),
{
    let leq = |a: u32, b: u32| le_u32(a, b);
    let out = before.insert(p, x);
    before.insert_ensures(p, x);
    assert forall|a: int, b: int| 0 <= a < b < out.len() implies #[trigger] leq(out[a], out[b]) by {
        if b < p {
            assert(leq(before[a], before[b]));
        } else if b == p {
        } else if a < p {
            assert(out[b] == before[b - 1]);
            assert(leq(before[a], before[b - 1]));
        } else if a == p {
            assert(out[b] == before[b - 1]);
            if b - 1 > p {
                assert(leq(before[p], before[b - 1]));
            }
        } else {
            assert(out[a] == before[a - 1]);
            assert(out[b] == before[b - 1]);
            assert(leq(before[a - 1], before[b - 1]));
        }
    }
}

/// Sort by value (insertion sort).
pub fn sort_u32(xs: &Vec<u32>) -> (r: Vec<u32>)
    ensures
        r@ == sorted_u32(xs@),
        sorted_by(r@, |a: u32, b: u32| le_u32(a, b)),
        r@.len() == xs@.len(),
{
    broadcast use vstd::seq_lib::group_to_multiset_ensures;
    let ghost leq = |a: u32, b: u32| le_u32(a, b);
    let mut out: Vec<u32> = Vec::new();
    let n = xs.len();
    for i in 0..n
        invariant
            n == xs@.len(),
            leq == (|a: u32, b: u32| le_u32(a, b)),
            sorted_by(out@, leq),
            out@.to_multiset() == xs@.take(i as int).to_multiset(),
            out@.len() == i,
    {
        let x = xs[i];
        let ghost before = out@;
        let mut p: usize = 0;
        while p < out.len() && out[p] <= x
            invariant
                out@ == before,
                p <= out@.len(),
                forall|k: int| 0 <= k < p ==> out@[k] <= x,
            decreases out@.len() - p,
        {
            p = p + 1;
        }
        out.insert(p, x);
        proof {
            lemma_insert_keeps_sorted(before, p as int, x);
            assert(out@ == before.insert(p as int, x));
            vstd::seq_lib::to_multiset_insert(before, p as int, x);
            vstd::seq_lib::to_multiset_build(xs@.take(i as int), x);
            assert(xs@.take(i + 1) =~= xs@.take(i as int).push(x));
        }
    }
    proof {
        assert(xs@.take(n as int) =~= xs@);
        lemma_le_u32_total();
        xs@.lemma_sort_by_ensures(leq);
        vstd::seq_lib::lemma_sorted_unique(out@, xs@.sort_by(leq), leq);
    }
    out
}

} // verus!
