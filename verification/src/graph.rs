//! Call graphs: what a function reaches, and which functions call one another
//! in a circle.
use vstd::prelude::*;

verus! {

/// A graph: for each node the nodes that its edges lead to.
pub type Graph = Seq<Seq<int>>;

/// Whether every edge leads to a node of the graph.
pub open spec fn is_graph(g: Graph) -> bool {
    forall|i: int, k: int|
        0 <= i < g.len() && 0 <= k < g[i].len() ==> 0 <= #[trigger] g[i][k] < g.len()
}

/// Whether no edge leads out of the set.
pub open spec fn closed(g: Graph, s: Set<int>) -> bool {
    forall|i: int, k: int|
        s.contains(i) && 0 <= i < g.len() && 0 <= k < g[i].len() ==> s.contains(#[trigger] g[i][k])
}

/// Whether `j` can be reached from `i`: it is in every set that holds `i` and
/// that no edge leads out of.
pub open spec fn reaches(g: Graph, i: int, j: int) -> bool {
    forall|s: Set<int>| s.contains(i) && #[trigger] closed(g, s) ==> s.contains(j)
}

/// Whether each of two nodes can be reached from the other.
pub open spec fn same_component(g: Graph, i: int, j: int) -> bool {
    reaches(g, i, j) && reaches(g, j, i)
}

/// Every node reaches itself.
pub proof fn reaches_itself(g: Graph, i: int)
    ensures
        reaches(g, i, i),
{
}

/// A node reaches what its edges lead to.
pub proof fn reaches_edge(g: Graph, i: int, k: int)
    requires
        0 <= i < g.len(),
        0 <= k < g[i].len(),
    ensures
        reaches(g, i, g[i][k]),
{
}

/// Reachability is transitive.
pub proof fn reaches_transitive(g: Graph, i: int, j: int, k: int)
    requires
        reaches(g, i, j),
        reaches(g, j, k),
    ensures
        reaches(g, i, k),
{
    assert forall|s: Set<int>| s.contains(i) && #[trigger] closed(g, s) implies s.contains(k) by {
        assert(s.contains(j));
    }
}

/// Being in the same component is an equivalence.
pub proof fn component_equivalence(g: Graph, i: int, j: int, k: int)
    ensures
        same_component(g, i, i),
        same_component(g, i, j) ==> same_component(g, j, i),
        same_component(g, i, j) && same_component(g, j, k) ==> same_component(g, i, k),
{
    if same_component(g, i, j) && same_component(g, j, k) {
        reaches_transitive(g, i, j, k);
        reaches_transitive(g, k, j, i);
    }
}

/// How many of the first `k` nodes `i` reaches.
pub open spec fn reach_count(g: Graph, i: int, k: nat) -> nat
    decreases k,
{
    if k == 0 {
        0
    } else {
        reach_count(g, i, (k - 1) as nat) + (if reaches(g, i, k - 1) {
            1nat
        } else {
            0nat
        })
    }
}

proof fn lemma_count_subset(g: Graph, i: int, j: int, k: nat)
    requires
        reaches(g, i, j),
    ensures
        reach_count(g, j, k) <= reach_count(g, i, k),
        !reaches(g, j, i) && 0 <= i < k ==> reach_count(g, j, k) < reach_count(g, i, k),
    decreases k,
{
    if k > 0 {
        lemma_count_subset(g, i, j, (k - 1) as nat);
        if reaches(g, j, k - 1) {
            reaches_transitive(g, i, j, k - 1);
        }
    }
}

/// Nodes of one component reach equally many nodes; a node outside the
/// component that is reached from it reaches fewer.
pub proof fn dependencies_reach_less(g: Graph, i: int, j: int)
    requires
        reaches(g, i, j),
        0 <= i < g.len(),
    ensures
        same_component(g, i, j) ==> reach_count(g, i, g.len()) == reach_count(g, j, g.len()),
        !same_component(g, i, j) ==> reach_count(g, j, g.len()) < reach_count(g, i, g.len()),
{
    lemma_count_subset(g, i, j, g.len());
    if same_component(g, i, j) {
        lemma_count_subset(g, j, i, g.len());
    }
}

/// The model of adjacency lists.
pub open spec fn graph_of(v: Seq<Vec<usize>>) -> Graph {
    Seq::new(v.len(), |i: int| Seq::new(v[i]@.len(), |k: int| v[i]@[k] as int))
}

/// The nodes that `start` reaches.
pub fn reach_from(edges: &Vec<Vec<usize>>, start: usize) -> (r: Vec<bool>)
    requires
        start < edges@.len(),
        is_graph(graph_of(edges@)),
    ensures
        r@.len() == edges@.len(),
        forall|j: int|
            0 <= j < r@.len() ==> #[trigger] r@[j] == reaches(graph_of(edges@), start as int, j),
{
    let ghost g = graph_of(edges@);
    let n = edges.len();
    let mut seen: Vec<bool> = Vec::new();
    let mut i: usize = 0;
    while i < n
        invariant
            i <= n,
            seen@.len() == i,
            forall|j: int| 0 <= j < i ==> seen@[j] == (j == start),
        decreases n - i,
    {
        seen.push(i == start);
        i = i + 1;
    }
    let mut work: Vec<usize> = Vec::new();
    work.push(start);
    assert(in_work(work@, start as int)) by {
        assert(work@[0] == start);
    }
    let ghost mut left: nat = unseen(seen@);
    while work.len() > 0
        invariant
            n == edges@.len(),
            g == graph_of(edges@),
            is_graph(g),
            seen@.len() == n,
            start < n,
            seen@[start as int],
            forall|k: int| 0 <= k < work@.len() ==> (#[trigger] work@[k]) < n && seen@[work@[k] as int],
            forall|j: int|
                0 <= j < n && #[trigger] seen@[j] ==> reaches(g, start as int, j),
            forall|a: int, k: int|
                0 <= a < n && seen@[a] && !in_work(work@, a) && 0 <= k < g[a].len()
                    ==> seen@[#[trigger] g[a][k]],
            left == unseen(seen@),
        decreases left, work@.len(),
    {
        let ghost before = work@;
        let a = work.pop().unwrap();
        assert forall|b: int| in_work(before, b) && b != a implies in_work(work@, b) by {
            let k = choose|k: int| 0 <= k < before.len() && before[k] == b;
            assert(work@[k] == b);
        }
        let mut k: usize = 0;
        let ghost left0 = left;
        let ghost work0 = work@.len();
        while k < edges[a].len()
            invariant
                n == edges@.len(),
                g == graph_of(edges@),
                is_graph(g),
                seen@.len() == n,
                start < n,
                a < n,
                k <= edges@[a as int]@.len(),
                seen@[start as int],
                seen@[a as int],
                forall|q: int| 0 <= q < work@.len() ==> (#[trigger] work@[q]) < n && seen@[work@[q] as int],
                forall|j: int|
                    0 <= j < n && #[trigger] seen@[j] ==> reaches(g, start as int, j),
                forall|b: int, q: int|
                    0 <= b < n && seen@[b] && b != a && !in_work(work@, b) && 0 <= q < g[b].len()
                        ==> seen@[#[trigger] g[b][q]],
                forall|q: int| 0 <= q < k ==> seen@[#[trigger] g[a as int][q]],
                left == unseen(seen@),
                left <= left0,
                left == left0 ==> work@.len() == work0,
            decreases edges@[a as int]@.len() - k,
        {
            let b = edges[a][k];
            assert(g[a as int][k as int] == b);
            if !seen[b] {
                proof {
                    reaches_edge(g, a as int, k as int);
                    reaches_transitive(g, start as int, a as int, b as int);
                    lemma_unseen_drops(seen@, b as int);
                }
                let ghost old_seen = seen@;
                let ghost old_work = work@;
                seen.set(b, true);
                work.push(b);
                proof {
                    left = unseen(seen@);
                    assert(in_work(work@, b as int)) by {
                        assert(work@[work@.len() - 1] == b);
                    }
                    assert forall|c: int| in_work(old_work, c) implies in_work(work@, c) by {
                        let q = choose|q: int| 0 <= q < old_work.len() && old_work[q] == c;
                        assert(work@[q] == c);
                    }
                }
            }
            k = k + 1;
        }
    }
    proof {
        let s = Set::new(|j: int| 0 <= j < n && seen@[j]);
        assert forall|a: int, k: int|
            s.contains(a) && 0 <= a < g.len() && 0 <= k < g[a].len() implies s.contains(
            #[trigger] g[a][k],
        ) by {
            assert(!in_work(work@, a));
        }
        assert(closed(g, s));
        assert forall|j: int| 0 <= j < seen@.len() implies #[trigger] seen@[j] == reaches(
            g,
            start as int,
            j,
        ) by {
            if reaches(g, start as int, j) {
                assert(s.contains(start as int));
                assert(s.contains(j));
            }
        }
    }
    seen
}

spec fn in_work(w: Seq<usize>, a: int) -> bool {
    exists|k: int| 0 <= k < w.len() && #[trigger] w[k] == a
}

spec fn unseen(s: Seq<bool>) -> nat
    decreases s.len(),
{
    if s.len() == 0 {
        0
    } else {
        unseen(s.drop_last()) + (if s.last() {
            0nat
        } else {
            1nat
        })
    }
}

proof fn lemma_unseen_drops(s: Seq<bool>, i: int)
    requires
        0 <= i < s.len(),
        !s[i],
    ensures
        unseen(s.update(i, true)) < unseen(s),
    decreases s.len(),
{
    if i == s.len() - 1 {
        assert(s.update(i, true).drop_last() =~= s.drop_last());
    } else {
        assert(s.update(i, true).drop_last() =~= s.drop_last().update(i, true));
        lemma_unseen_drops(s.drop_last(), i);
    }
}

} // verus!
