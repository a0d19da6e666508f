//! Connected components of an undirected graph on `0..n`, kept as one
//! label per node.

use vstd::prelude::*;

verus! {

/// A labelling agrees with an edge list when both ends of every edge carry
/// the same label.
pub open spec fn consistent(labels: Seq<int>, edges: Seq<(nat, nat)>) -> bool {
    forall|k: int|
        0 <= k < edges.len() ==> labels[(#[trigger] edges[k]).0 as int] == labels[edges[k].1 as int]
}

/// `x` and `y` are connected by the edges: every labelling of `0..n` that
/// agrees with the edges gives them the same label.
pub open spec fn connected(n: nat, edges: Seq<(nat, nat)>, x: nat, y: nat) -> bool {
    forall|l: Seq<int>| l.len() == n && #[trigger] consistent(l, edges) ==> l[x as int] == l[y as int]
}

/// The labels as integers.
pub open spec fn as_ints(labels: Seq<usize>) -> Seq<int> {
    labels.map_values(|v: usize| v as int)
}

/// The labels describe the components of the edges: they agree with the
/// edges, and equal labels only join connected nodes.
pub open spec fn labels_describe(labels: Seq<usize>, n: nat, edges: Seq<(nat, nat)>) -> bool {
    &&& labels.len() == n
    &&& forall|k: int| 0 <= k < edges.len() ==> (#[trigger] edges[k]).0 < n && edges[k].1 < n
    &&& consistent(as_ints(labels), edges)
    &&& forall|x: nat, y: nat|
        x < n && y < n && #[trigger] labels[x as int] == #[trigger] labels[y as int] ==> connected(
            n,
            edges,
            x,
            y,
        )
}

/// Each node alone: no edges, distinct labels.
pub proof fn lemma_identity_labels(labels: Seq<usize>, n: nat)
    requires
        labels.len() == n,
        forall|i: int| 0 <= i < n ==> #[trigger] labels[i] == i,
    ensures
        labels_describe(labels, n, Seq::empty()),
{
    assert forall|x: nat, y: nat|
        x < n && y < n && #[trigger] labels[x as int] == #[trigger] labels[y as int] implies connected(
        n,
        Seq::<(nat, nat)>::empty(),
        x,
        y,
    ) by {
        assert(x == y);
    }
}

/// Adding edge `(a, b)`: relabelling the class of `b` with the label of
/// `a` describes the components of the longer edge list.
pub proof fn lemma_relabel(
    labels: Seq<usize>,
    next: Seq<usize>,
    n: nat,
    edges: Seq<(nat, nat)>,
    a: nat,
    b: nat,
)
    requires
        labels_describe(labels, n, edges),
        a < n,
        b < n,
        next.len() == n,
        forall|x: int|
            0 <= x < n ==> #[trigger] next[x] == if labels[x] == labels[b as int] {
                labels[a as int]
            } else {
                labels[x]
            },
    ensures
        labels_describe(next, n, edges.push((a, b))),
{
    let e2 = edges.push((a, b));
    let la = labels[a as int];
    let lb = labels[b as int];
    assert forall|k: int| 0 <= k < e2.len() implies (#[trigger] e2[k]).0 < n && e2[k].1 < n by {
        if k < edges.len() {
            assert(e2[k] == edges[k]);
        }
    }
    assert forall|k: int| 0 <= k < e2.len() implies as_ints(next)[(#[trigger] e2[k]).0 as int]
        == as_ints(next)[e2[k].1 as int] by {
        if k < edges.len() {
            assert(e2[k] == edges[k]);
            assert(as_ints(labels)[edges[k].0 as int] == as_ints(labels)[edges[k].1 as int]);
        }
    }
    assert forall|x: nat, y: nat|
        x < n && y < n && #[trigger] next[x as int] == #[trigger] next[y as int] implies connected(
        n,
        e2,
        x,
        y,
    ) by {
        assert forall|l: Seq<int>| l.len() == n && #[trigger] consistent(l, e2) implies l[x as int]
            == l[y as int] by {
            assert(consistent(l, edges)) by {
                assert forall|k: int| 0 <= k < edges.len() implies l[(#[trigger] edges[k]).0 as int]
                    == l[edges[k].1 as int] by {
                    assert(e2[k] == edges[k]);
                }
            }
            assert(e2[edges.len() as int] == (a, b));
            assert(l[a as int] == l[b as int]);
            let cx = labels[x as int] == lb;
            let cy = labels[y as int] == lb;
            if cx == cy {
                assert(labels[x as int] == labels[y as int]);
                assert(connected(n, edges, x, y));
            } else if cx {
                // x was in b's class, y in a's class
                assert(labels[y as int] == la);
                assert(labels[x as int] == labels[b as int]);
                assert(connected(n, edges, x, b));
                assert(labels[a as int] == labels[y as int]);
                assert(connected(n, edges, a, y));
            } else {
                assert(labels[x as int] == la);
                assert(labels[y as int] == labels[b as int]);
                assert(connected(n, edges, y, b));
                assert(labels[a as int] == labels[x as int]);
                assert(connected(n, edges, a, x));
            }
        }
    }
}

/// Labels that describe the components join exactly the connected nodes.
pub proof fn lemma_labels_exact(labels: Seq<usize>, n: nat, edges: Seq<(nat, nat)>, x: nat, y: nat)
    requires
        labels_describe(labels, n, edges),
        x < n,
        y < n,
    ensures
        labels[x as int] == labels[y as int] <==> connected(n, edges, x, y),
{
    if connected(n, edges, x, y) {
        let l = as_ints(labels);
        assert(l.len() == n);
        assert(consistent(l, edges));
        assert(l[x as int] == l[y as int]);
    }
}

/// Replaces label `from` by `to` everywhere.
pub fn relabel(labels: &mut Vec<usize>, from: usize, to: usize)
    ensures
        final(labels)@.len() == old(labels)@.len(),
        forall|x: int|
            0 <= x < old(labels)@.len() ==> #[trigger] final(labels)@[x] == if old(labels)@[x] == from {
                to
            } else {
                old(labels)@[x]
            },
{
    let ghost before = labels@;
    let mut i: usize = 0;
    while i < labels.len()
        invariant
            i <= labels@.len(),
            labels@.len() == before.len(),
            forall|x: int| 0 <= x < i ==> #[trigger] labels@[x] == if before[x] == from {
                to
            } else {
                before[x]
            },
            forall|x: int| i <= x < labels@.len() ==> #[trigger] labels@[x] == before[x],
        decreases labels@.len() - i,
    {
        if labels[i] == from {
            labels.set(i, to);
        }
        i = i + 1;
    }
}

} // verus!
