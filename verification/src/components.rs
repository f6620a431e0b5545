//! The components of a call graph: functions that call one another in a circle
//! belong together, and those that they call outside come before them.
use vstd::prelude::*;
use crate::graph::{
    closed, component_equivalence, dependencies_reach_less, is_graph, reach_count, reaches,
    reaches_edge, same_component, Graph,
};
use crate::hash_pass::lemma_place_found;
use crate::hashing::place;
use crate::order::{
    ascending_texts_unique, sorted_texts, sorting_ascends, strictly_ascending, text_irreflexive,
    text_less,
};

verus! {

/// Whether a graph is one of functions that differ in their keys.
pub open spec fn is_call_graph(keys: Seq<Seq<char>>, g: Graph) -> bool {
    &&& keys.no_duplicates()
    &&& g.len() == keys.len()
    &&& is_graph(g)
}

/// Whether function `i` calls the function with key `x`.
pub open spec fn leads(keys: Seq<Seq<char>>, g: Graph, i: int, x: Seq<char>) -> bool {
    exists|k: int| 0 <= k < g[i].len() && keys[#[trigger] g[i][k]] == x
}

/// Whether two call graphs hold the same functions with the same calls, in
/// whatever order.
pub open spec fn reordered(
    keys: Seq<Seq<char>>,
    g: Graph,
    others: Seq<Seq<char>>,
    h: Graph,
) -> bool {
    &&& is_call_graph(keys, g)
    &&& is_call_graph(others, h)
    &&& forall|x: Seq<char>| #[trigger] keys.contains(x) <==> others.contains(x)
    &&& forall|i: int, j: int, x: Seq<char>|
        0 <= i < keys.len() && 0 <= j < others.len() && keys[i] == others[j] ==> (#[trigger] leads(
            keys,
            g,
            i,
            x,
        ) <==> #[trigger] leads(others, h, j, x))
}

/// The keys of the component of function `i` among the first `k` functions.
pub open spec fn members(keys: Seq<Seq<char>>, g: Graph, i: int, k: nat) -> Seq<Seq<char>>
    decreases k,
{
    if k == 0 {
        Seq::empty()
    } else {
        let front = members(keys, g, i, (k - 1) as nat);
        if same_component(g, i, k - 1) {
            front.push(keys[k - 1])
        } else {
            front
        }
    }
}

/// The keys of the component of function `i`, in ascending order.
pub open spec fn component(keys: Seq<Seq<char>>, g: Graph, i: int) -> Seq<Seq<char>> {
    sorted_texts(members(keys, g, i, keys.len()))
}

/// The rank of function `i`: how many functions it reaches. Components are
/// settled in ascending order of their ranks.
pub open spec fn rank(g: Graph, i: int) -> nat {
    reach_count(g, i, g.len())
}

proof fn lemma_members(keys: Seq<Seq<char>>, g: Graph, i: int, k: nat)
    requires
        is_call_graph(keys, g),
        k <= keys.len(),
    ensures
        members(keys, g, i, k).no_duplicates(),
        forall|x: Seq<char>| #[trigger]
            members(keys, g, i, k).contains(x) <==> exists|j: int|
                0 <= j < k && same_component(g, i, j) && #[trigger] keys[j] == x,
    decreases k,
{
    if k > 0 {
        let front = members(keys, g, i, (k - 1) as nat);
        let all = members(keys, g, i, k);
        lemma_members(keys, g, i, (k - 1) as nat);
        if front.contains(keys[k - 1]) {
            let j = choose|j: int|
                0 <= j < k - 1 && same_component(g, i, j) && #[trigger] keys[j] == keys[k - 1];
            assert(false);
        }
        assert forall|x: Seq<char>| #[trigger] all.contains(x) <==> exists|j: int|
            0 <= j < k && same_component(g, i, j) && #[trigger] keys[j] == x by {
            if all.contains(x) {
                let r = choose|r: int| 0 <= r < all.len() && all[r] == x;
                if r < front.len() {
                    assert(front[r] == x);
                    assert(front.contains(x));
                } else {
                    assert(keys[k - 1] == x);
                }
            }
            if exists|j: int| 0 <= j < k && same_component(g, i, j) && #[trigger] keys[j] == x {
                let j = choose|j: int|
                    0 <= j < k && same_component(g, i, j) && #[trigger] keys[j] == x;
                if j == k - 1 {
                    assert(all[all.len() - 1] == x);
                } else {
                    assert(front.contains(x));
                    let r = choose|r: int| 0 <= r < front.len() && front[r] == x;
                    assert(all[r] == x);
                }
            }
        }
    }
}

/// The components partition the functions: each function is in its own
/// component, two functions are in one component exactly if each reaches the
/// other, and two components are the same or have no function in common. The
/// keys of a component stand in ascending order, each once.
pub proof fn components_partition(keys: Seq<Seq<char>>, g: Graph, i: int, j: int)
    requires
        is_call_graph(keys, g),
        0 <= i < keys.len(),
        0 <= j < keys.len(),
    ensures
        component(keys, g, i).contains(keys[i]),
        component(keys, g, i).contains(keys[j]) <==> reaches(g, i, j) && reaches(g, j, i),
        forall|x: Seq<char>| #[trigger] component(keys, g, i).contains(x) ==> keys.contains(x),
        component(keys, g, i).contains(keys[j]) ==> component(keys, g, j) == component(keys, g, i),
        !component(keys, g, i).contains(keys[j]) ==> forall|x: Seq<char>|
            !(#[trigger] component(keys, g, i).contains(x) && component(keys, g, j).contains(x)),
        strictly_ascending(component(keys, g, i)),
{
    let n = keys.len();
    let a = component(keys, g, i);
    let b = component(keys, g, j);
    lemma_members(keys, g, i, n);
    lemma_members(keys, g, j, n);
    sorting_ascends(members(keys, g, i, n));
    sorting_ascends(members(keys, g, j, n));
    component_equivalence(g, i, i, i);
    assert(a.contains(keys[i])) by {
        assert(members(keys, g, i, n).contains(keys[i]));
    }
    assert(a.contains(keys[j]) <==> same_component(g, i, j)) by {
        assert(a.contains(keys[j]) <==> members(keys, g, i, n).contains(keys[j]));
    }
    assert forall|x: Seq<char>| #[trigger] a.contains(x) implies keys.contains(x) by {
        assert(members(keys, g, i, n).contains(x));
    }
    if same_component(g, i, j) {
        assert forall|x: Seq<char>| #[trigger] a.contains(x) <==> b.contains(x) by {
            assert(a.contains(x) <==> members(keys, g, i, n).contains(x));
            assert(b.contains(x) <==> members(keys, g, j, n).contains(x));
            assert forall|k: int| same_component(g, i, k) == same_component(g, j, k) by {
                component_equivalence(g, i, j, k);
                component_equivalence(g, j, i, k);
            }
        }
        ascending_texts_unique(a, b);
    } else {
        assert forall|x: Seq<char>| !(#[trigger] a.contains(x) && b.contains(x)) by {
            if a.contains(x) && b.contains(x) {
                assert(members(keys, g, i, n).contains(x));
                assert(members(keys, g, j, n).contains(x));
                let k = choose|k: int|
                    0 <= k < n && same_component(g, i, k) && #[trigger] keys[k] == x;
                let l = choose|l: int|
                    0 <= l < n && same_component(g, j, l) && #[trigger] keys[l] == x;
                component_equivalence(g, j, k, i);
                component_equivalence(g, i, k, j);
            }
        }
    }
}

/// A function that another calls is in its component, or in one that comes
/// before it. The functions of one component come together.
pub proof fn callees_come_first(keys: Seq<Seq<char>>, g: Graph, i: int, j: int)
    requires
        is_call_graph(keys, g),
        0 <= i < keys.len(),
        0 <= j < keys.len(),
    ensures
        leads(keys, g, i, keys[j]) && component(keys, g, j) != component(keys, g, i) ==> rank(g, j)
            < rank(g, i),
        component(keys, g, j) == component(keys, g, i) ==> rank(g, j) == rank(g, i),
{
    components_partition(keys, g, i, j);
    components_partition(keys, g, j, i);
    if leads(keys, g, i, keys[j]) {
        let k = choose|k: int| 0 <= k < g[i].len() && keys[#[trigger] g[i][k]] == keys[j];
        assert(g[i][k] == j);
        reaches_edge(g, i, k);
        dependencies_reach_less(g, i, j);
    }
    if component(keys, g, j) == component(keys, g, i) {
        dependencies_reach_less(g, i, j);
    }
}

/// Reachability does not depend on the order of the functions.
pub proof fn reach_ignores_order(
    keys: Seq<Seq<char>>,
    g: Graph,
    others: Seq<Seq<char>>,
    h: Graph,
    i: int,
    j: int,
    p: int,
    q: int,
)
    requires
        reordered(keys, g, others, h),
        0 <= i < keys.len(),
        0 <= j < keys.len(),
        0 <= p < others.len(),
        0 <= q < others.len(),
        keys[i] == others[p],
        keys[j] == others[q],
    ensures
        reaches(g, i, j) <==> reaches(h, p, q),
{
    if reaches(g, i, j) {
        lemma_reach(keys, g, others, h, i, j, p, q);
    }
    if reaches(h, p, q) {
        lemma_reordered(keys, g, others, h);
        lemma_reach(others, h, keys, g, p, q, i, j);
    }
}

proof fn lemma_reordered(keys: Seq<Seq<char>>, g: Graph, others: Seq<Seq<char>>, h: Graph)
    requires
        reordered(keys, g, others, h),
    ensures
        reordered(others, h, keys, g),
{
    assert forall|x: Seq<char>| #[trigger] others.contains(x) <==> keys.contains(x) by {
        assert(keys.contains(x) <==> others.contains(x));
    }
}

proof fn lemma_reach(
    keys: Seq<Seq<char>>,
    g: Graph,
    others: Seq<Seq<char>>,
    h: Graph,
    i: int,
    j: int,
    p: int,
    q: int,
)
    requires
        reordered(keys, g, others, h),
        0 <= i < keys.len(),
        0 <= j < keys.len(),
        0 <= p < others.len(),
        0 <= q < others.len(),
        keys[i] == others[p],
        keys[j] == others[q],
        reaches(g, i, j),
    ensures
        reaches(h, p, q),
{
    assert forall|s: Set<int>| s.contains(p) && #[trigger] closed(h, s) implies s.contains(q) by {
        let t = Set::new(
            |a: int|
                0 <= a < keys.len() && exists|b: int|
                    0 <= b < others.len() && s.contains(b) && keys[a] == #[trigger] others[b],
        );
        assert(t.contains(i));
        assert forall|a: int, k: int|
            t.contains(a) && 0 <= a < g.len() && 0 <= k < g[a].len() implies t.contains(
            #[trigger] g[a][k],
        ) by {
            let b = choose|b: int|
                0 <= b < others.len() && s.contains(b) && keys[a] == #[trigger] others[b];
            let x = keys[g[a][k]];
            assert(leads(keys, g, a, x));
            assert(leads(others, h, b, x));
            let l = choose|l: int| 0 <= l < h[b].len() && others[#[trigger] h[b][l]] == x;
            assert(s.contains(h[b][l]));
        }
        assert(closed(g, t));
        assert(t.contains(j));
    }
}

spec fn reached(keys: Seq<Seq<char>>, g: Graph, i: int, k: nat) -> Set<Seq<char>>
    decreases k,
{
    if k == 0 {
        Set::empty()
    } else if reaches(g, i, k - 1) {
        reached(keys, g, i, (k - 1) as nat).insert(keys[k - 1])
    } else {
        reached(keys, g, i, (k - 1) as nat)
    }
}

proof fn lemma_reached(keys: Seq<Seq<char>>, g: Graph, i: int, k: nat)
    requires
        keys.no_duplicates(),
        k <= keys.len(),
    ensures
        reached(keys, g, i, k).finite(),
        reached(keys, g, i, k).len() == reach_count(g, i, k),
        forall|x: Seq<char>| #[trigger]
            reached(keys, g, i, k).contains(x) <==> exists|j: int|
                0 <= j < k && reaches(g, i, j) && #[trigger] keys[j] == x,
    decreases k,
{
    if k > 0 {
        lemma_reached(keys, g, i, (k - 1) as nat);
    }
}

/// The components and their ranks do not depend on the order of the functions.
pub proof fn components_ignore_order(
    keys: Seq<Seq<char>>,
    g: Graph,
    others: Seq<Seq<char>>,
    h: Graph,
    i: int,
    p: int,
)
    requires
        reordered(keys, g, others, h),
        0 <= i < keys.len(),
        0 <= p < others.len(),
        keys[i] == others[p],
    ensures
        component(keys, g, i) == component(others, h, p),
        rank(g, i) == rank(h, p),
{
    let n = keys.len();
    let m = others.len();
    lemma_reordered(keys, g, others, h);
    lemma_reached(keys, g, i, n);
    lemma_reached(others, h, p, m);
    lemma_members(keys, g, i, n);
    lemma_members(others, h, p, m);
    sorting_ascends(members(keys, g, i, n));
    sorting_ascends(members(others, h, p, m));
    lemma_same_keys(keys, g, others, h, i, p);
    lemma_same_keys(others, h, keys, g, p, i);
    assert(reached(keys, g, i, n) =~= reached(others, h, p, m));
    let a = component(keys, g, i);
    let b = component(others, h, p);
    assert forall|x: Seq<char>| #[trigger] a.contains(x) <==> b.contains(x) by {
        assert(a.contains(x) <==> members(keys, g, i, n).contains(x));
        assert(b.contains(x) <==> members(others, h, p, m).contains(x));
    }
    ascending_texts_unique(a, b);
}

proof fn lemma_same_keys(
    keys: Seq<Seq<char>>,
    g: Graph,
    others: Seq<Seq<char>>,
    h: Graph,
    i: int,
    p: int,
)
    requires
        reordered(keys, g, others, h),
        0 <= i < keys.len(),
        0 <= p < others.len(),
        keys[i] == others[p],
    ensures
        forall|x: Seq<char>| #[trigger]
            reached(keys, g, i, keys.len()).contains(x) ==> reached(
                others,
                h,
                p,
                others.len(),
            ).contains(x),
        forall|x: Seq<char>| #[trigger]
            members(keys, g, i, keys.len()).contains(x) ==> members(
                others,
                h,
                p,
                others.len(),
            ).contains(x),
{
    let n = keys.len();
    let m = others.len();
    lemma_reached(keys, g, i, n);
    lemma_reached(others, h, p, m);
    lemma_members(keys, g, i, n);
    lemma_members(others, h, p, m);
    assert forall|x: Seq<char>| #[trigger] reached(keys, g, i, n).contains(x) implies reached(
        others,
        h,
        p,
        m,
    ).contains(x) by {
        let j = choose|j: int| 0 <= j < n && reaches(g, i, j) && #[trigger] keys[j] == x;
        assert(keys.contains(x));
        assert(others.contains(x));
        let q = choose|q: int| 0 <= q < m && others[q] == x;
        reach_ignores_order(keys, g, others, h, i, j, p, q);
    }
    assert forall|x: Seq<char>| #[trigger] members(keys, g, i, n).contains(x) implies members(
        others,
        h,
        p,
        m,
    ).contains(x) by {
        let j = choose|j: int| 0 <= j < n && same_component(g, i, j) && #[trigger] keys[j] == x;
        assert(keys.contains(x));
        assert(others.contains(x));
        let q = choose|q: int| 0 <= q < m && others[q] == x;
        reach_ignores_order(keys, g, others, h, i, j, p, q);
        reach_ignores_order(keys, g, others, h, j, i, q, p);
    }
}

/// The least keys of the components of one rank, among the first `k` functions.
pub open spec fn least_keys(keys: Seq<Seq<char>>, g: Graph, r: nat, k: nat) -> Seq<Seq<char>>
    decreases k,
{
    if k == 0 {
        Seq::empty()
    } else {
        let front = least_keys(keys, g, r, (k - 1) as nat);
        if rank(g, k - 1) == r && component(keys, g, k - 1)[0] == keys[k - 1] {
            front.push(keys[k - 1])
        } else {
            front
        }
    }
}

/// The components of one rank, in ascending order of their least keys.
pub open spec fn level(keys: Seq<Seq<char>>, g: Graph, r: nat) -> Seq<Seq<Seq<char>>> {
    let firsts = sorted_texts(least_keys(keys, g, r, keys.len()));
    Seq::new(firsts.len(), |k: int| component(keys, g, place(keys, firsts[k]) as int))
}

/// The components of rank `r` at most, in ascending order of their ranks.
pub open spec fn levels(keys: Seq<Seq<char>>, g: Graph, r: nat) -> Seq<Seq<Seq<char>>>
    decreases r,
{
    if r == 0 {
        Seq::empty()
    } else {
        levels(keys, g, (r - 1) as nat) + level(keys, g, r)
    }
}

/// The components of a call graph in the order in which they can be settled.
pub open spec fn components(keys: Seq<Seq<char>>, g: Graph) -> Seq<Seq<Seq<char>>> {
    levels(keys, g, keys.len())
}

proof fn lemma_least_keys(keys: Seq<Seq<char>>, g: Graph, r: nat, k: nat)
    requires
        keys.no_duplicates(),
        k <= keys.len(),
    ensures
        least_keys(keys, g, r, k).no_duplicates(),
        forall|x: Seq<char>| #[trigger]
            least_keys(keys, g, r, k).contains(x) <==> exists|j: int|
                0 <= j < k && rank(g, j) == r && component(keys, g, j)[0] == keys[j]
                    && #[trigger] keys[j] == x,
    decreases k,
{
    if k > 0 {
        let front = least_keys(keys, g, r, (k - 1) as nat);
        let all = least_keys(keys, g, r, k);
        lemma_least_keys(keys, g, r, (k - 1) as nat);
        if front.contains(keys[k - 1]) {
            let j = choose|j: int|
                0 <= j < k - 1 && rank(g, j) == r && component(keys, g, j)[0] == keys[j]
                    && #[trigger] keys[j] == keys[k - 1];
            assert(false);
        }
        assert forall|x: Seq<char>| #[trigger] all.contains(x) <==> exists|j: int|
            0 <= j < k && rank(g, j) == r && component(keys, g, j)[0] == keys[j]
                && #[trigger] keys[j] == x by {
            if all.contains(x) {
                let q = choose|q: int| 0 <= q < all.len() && all[q] == x;
                if q < front.len() {
                    assert(front[q] == x);
                    assert(front.contains(x));
                } else {
                    assert(keys[k - 1] == x);
                }
            }
            if exists|j: int|
                0 <= j < k && rank(g, j) == r && component(keys, g, j)[0] == keys[j]
                    && #[trigger] keys[j] == x {
                let j = choose|j: int|
                    0 <= j < k && rank(g, j) == r && component(keys, g, j)[0] == keys[j]
                        && #[trigger] keys[j] == x;
                if j == k - 1 {
                    assert(all[all.len() - 1] == x);
                } else {
                    assert(front.contains(x));
                    let q = choose|q: int| 0 <= q < front.len() && front[q] == x;
                    assert(all[q] == x);
                }
            }
        }
    }
}

/// The least key of a component leads to the component and to its rank.
pub proof fn lemma_least(keys: Seq<Seq<char>>, g: Graph, i: int)
    requires
        is_call_graph(keys, g),
        0 <= i < keys.len(),
    ensures
        component(keys, g, i).len() > 0,
        keys.contains(component(keys, g, i)[0]),
        component(keys, g, place(keys, component(keys, g, i)[0]) as int) == component(keys, g, i),
        rank(g, place(keys, component(keys, g, i)[0]) as int) == rank(g, i),
        place(keys, component(keys, g, i)[0]) < keys.len(),
        keys[place(keys, component(keys, g, i)[0]) as int] == component(keys, g, i)[0],
        1 <= rank(g, i) <= keys.len(),
{
    components_partition(keys, g, i, i);
    let x = component(keys, g, i)[0];
    assert(component(keys, g, i).contains(x));
    lemma_place_found(keys, x);
    components_partition(keys, g, i, place(keys, x) as int);
    callees_come_first(keys, g, i, place(keys, x) as int);
    lemma_rank(g, i, g.len());
}

proof fn lemma_rank(g: Graph, i: int, k: nat)
    ensures
        reach_count(g, i, k) <= k,
        0 <= i < k ==> reach_count(g, i, k) >= 1,
    decreases k,
{
    if k > 0 {
        lemma_rank(g, i, (k - 1) as nat);
        component_equivalence(g, i, i, i);
    }
}

/// Whether one list stands for a component of rank `r` at most.
spec fn listed(keys: Seq<Seq<char>>, g: Graph, r: nat, l: Seq<Seq<char>>, i: int) -> bool {
    0 <= i < keys.len() && rank(g, i) <= r && l == component(keys, g, i)
}

spec fn is_listed(keys: Seq<Seq<char>>, g: Graph, r: nat, l: Seq<Seq<char>>) -> bool {
    exists|i: int| listed(keys, g, r, l, i)
}

/// Whether one component comes before another.
spec fn earlier(keys: Seq<Seq<char>>, g: Graph, a: Seq<Seq<char>>, b: Seq<Seq<char>>) -> bool {
    let p = rank(g, place(keys, a[0]) as int);
    let q = rank(g, place(keys, b[0]) as int);
    p < q || p == q && text_less(a[0], b[0])
}

proof fn lemma_level(keys: Seq<Seq<char>>, g: Graph, r: nat)
    requires
        is_call_graph(keys, g),
    ensures
        forall|p: int|
            0 <= p < level(keys, g, r).len() ==> exists|i: int|
                listed(keys, g, r, #[trigger] level(keys, g, r)[p], i) && rank(g, i) == r,
        forall|p: int, q: int|
            0 <= p < q < level(keys, g, r).len() ==> earlier(
                keys,
                g,
                #[trigger] level(keys, g, r)[p],
                #[trigger] level(keys, g, r)[q],
            ),
        forall|i: int|
            0 <= i < keys.len() && #[trigger] rank(g, i) == r ==> level(keys, g, r).contains(
                component(keys, g, i),
            ),
{
    let n = keys.len();
    let some = least_keys(keys, g, r, n);
    let firsts = sorted_texts(some);
    let all = level(keys, g, r);
    lemma_least_keys(keys, g, r, n);
    sorting_ascends(some);
    assert forall|p: int| 0 <= p < all.len() implies {
        let i = place(keys, firsts[p]) as int;
        &&& 0 <= i < n
        &&& rank(g, i) == r
        &&& all[p] == component(keys, g, i)
        &&& (#[trigger] all[p])[0] == firsts[p]
    } by {
        assert(firsts.contains(firsts[p]));
        assert(some.contains(firsts[p]));
        let j = choose|j: int|
            0 <= j < n && rank(g, j) == r && component(keys, g, j)[0] == keys[j]
                && #[trigger] keys[j] == firsts[p];
        lemma_place_found(keys, firsts[p]);
        assert(place(keys, firsts[p]) == j);
    }
    assert forall|p: int| 0 <= p < all.len() implies exists|i: int|
        listed(keys, g, r, #[trigger] all[p], i) && rank(g, i) == r by {
        assert(listed(keys, g, r, all[p], place(keys, firsts[p]) as int));
    }
    assert forall|p: int, q: int| 0 <= p < q < all.len() implies earlier(
        keys,
        g,
        #[trigger] all[p],
        #[trigger] all[q],
    ) by {
        assert(text_less(firsts[p], firsts[q]));
    }
    assert forall|i: int| 0 <= i < n && #[trigger] rank(g, i) == r implies all.contains(
        component(keys, g, i),
    ) by {
        lemma_least(keys, g, i);
        let x = component(keys, g, i)[0];
        let j = place(keys, x) as int;
        assert(keys[j] == x);
        assert(some.contains(x));
        assert(firsts.contains(x));
        let p = choose|p: int| 0 <= p < firsts.len() && firsts[p] == x;
        assert(all[p] == component(keys, g, i));
    }
}

proof fn lemma_levels(keys: Seq<Seq<char>>, g: Graph, r: nat)
    requires
        is_call_graph(keys, g),
    ensures
        forall|p: int|
            0 <= p < levels(keys, g, r).len() ==> is_listed(
                keys,
                g,
                r,
                #[trigger] levels(keys, g, r)[p],
            ),
        forall|p: int, q: int|
            0 <= p < q < levels(keys, g, r).len() ==> earlier(
                keys,
                g,
                #[trigger] levels(keys, g, r)[p],
                #[trigger] levels(keys, g, r)[q],
            ),
        forall|i: int|
            0 <= i < keys.len() && #[trigger] rank(g, i) <= r ==> levels(keys, g, r).contains(
                component(keys, g, i),
            ),
    decreases r,
{
    if r == 0 {
        assert forall|i: int| 0 <= i < keys.len() && #[trigger] rank(g, i) <= r implies levels(
            keys,
            g,
            r,
        ).contains(component(keys, g, i)) by {
            lemma_least(keys, g, i);
        }
    } else {
        let a = levels(keys, g, (r - 1) as nat);
        let b = level(keys, g, r);
        let all = levels(keys, g, r);
        let below = (r - 1) as nat;
        lemma_levels(keys, g, below);
        lemma_level(keys, g, r);
        assert forall|p: int| 0 <= p < all.len() implies is_listed(
            keys,
            g,
            r,
            #[trigger] all[p],
        ) by {
            if p < a.len() {
                assert(is_listed(keys, g, below, a[p]));
                let i = choose|i: int| listed(keys, g, below, a[p], i);
                assert(listed(keys, g, r, all[p], i));
            } else {
                let i = choose|i: int|
                    listed(keys, g, r, b[p - a.len()], i) && rank(g, i) == r;
                assert(listed(keys, g, r, all[p], i));
            }
        }
        assert forall|p: int, q: int| 0 <= p < q < all.len() implies earlier(
            keys,
            g,
            #[trigger] all[p],
            #[trigger] all[q],
        ) by {
            if q < a.len() {
                assert(earlier(keys, g, a[p], a[q]));
            } else if p >= a.len() {
                assert(earlier(keys, g, b[p - a.len()], b[q - a.len()]));
            } else {
                assert(is_listed(keys, g, below, a[p]));
                let i = choose|i: int| listed(keys, g, below, a[p], i);
                let j = choose|j: int|
                    listed(keys, g, r, b[q - a.len()], j) && rank(g, j) == r;
                lemma_least(keys, g, i);
                lemma_least(keys, g, j);
            }
        }
        assert forall|i: int| 0 <= i < keys.len() && #[trigger] rank(g, i) <= r implies all.contains(
            component(keys, g, i),
        ) by {
            let c = component(keys, g, i);
            if rank(g, i) == r {
                assert(b.contains(c));
                let p = choose|p: int| 0 <= p < b.len() && b[p] == c;
                assert(all[a.len() + p] == c);
            } else {
                assert(a.contains(c));
                let p = choose|p: int| 0 <= p < a.len() && a[p] == c;
                assert(all[p] == c);
            }
        }
    }
}

/// The list of components holds every key once: at one place of one component.
/// Two keys are in one component exactly if each of the functions reaches the
/// other. Each component is in ascending order. Where a function calls another,
/// the component of the other does not come later.
pub proof fn components_are_ordered(
    keys: Seq<Seq<char>>,
    g: Graph,
    i: int,
    j: int,
    p: int,
    q: int,
)
    requires
        is_call_graph(keys, g),
        0 <= i < keys.len(),
        0 <= j < keys.len(),
        0 <= p < components(keys, g).len(),
        0 <= q < components(keys, g).len(),
    ensures
        exists|s: int| 0 <= s < components(keys, g).len() && #[trigger] components(keys, g)[s]
            == component(keys, g, i),
        strictly_ascending(components(keys, g)[p]),
        components(keys, g)[p].len() > 0,
        forall|x: Seq<char>| #[trigger] components(keys, g)[p].contains(x) ==> keys.contains(x),
        components(keys, g)[p].contains(keys[i]) ==> components(keys, g)[p] == component(keys, g, i),
        components(keys, g)[p].contains(keys[i]) && components(keys, g)[q].contains(keys[j]) ==> (p
            == q <==> reaches(g, i, j) && reaches(g, j, i)),
        components(keys, g)[p].contains(keys[i]) && components(keys, g)[q].contains(keys[j])
            && leads(keys, g, i, keys[j]) ==> q <= p,
{
    let n = keys.len();
    let all = components(keys, g);
    lemma_levels(keys, g, n);
    lemma_least(keys, g, i);
    lemma_least(keys, g, j);
    assert(all.contains(component(keys, g, i)));
    assert(is_listed(keys, g, n, all[p]) && is_listed(keys, g, n, all[q]));
    let a = choose|a: int| listed(keys, g, n, all[p], a);
    let b = choose|b: int| listed(keys, g, n, all[q], b);
    components_partition(keys, g, a, i);
    components_partition(keys, g, b, j);
    components_partition(keys, g, i, j);
    lemma_least(keys, g, a);
    lemma_least(keys, g, b);
    if all[p].contains(keys[i]) && all[q].contains(keys[j]) {
        callees_come_first(keys, g, i, j);
        if p < q {
            assert(earlier(keys, g, all[p], all[q]));
            text_irreflexive(all[p][0]);
        }
        if q < p {
            assert(earlier(keys, g, all[q], all[p]));
            text_irreflexive(all[p][0]);
        }
        components_partition(keys, g, j, i);
    }
}

/// A component of the list has a least key, which is a key of a function.
pub proof fn lemma_listed(keys: Seq<Seq<char>>, g: Graph, p: int)
    requires
        is_call_graph(keys, g),
        0 <= p < components(keys, g).len(),
    ensures
        components(keys, g)[p].len() > 0,
        keys.contains(components(keys, g)[p][0]),
{
    let all = components(keys, g);
    lemma_levels(keys, g, keys.len());
    assert(is_listed(keys, g, keys.len(), all[p]));
    let i = choose|i: int| listed(keys, g, keys.len(), all[p], i);
    lemma_least(keys, g, i);
}

/// Every function is in a component of the list.
pub proof fn lemma_is_listed(keys: Seq<Seq<char>>, g: Graph, i: int)
    requires
        is_call_graph(keys, g),
        0 <= i < keys.len(),
    ensures
        exists|p: int|
            0 <= p < components(keys, g).len() && #[trigger] components(keys, g)[p].contains(
                keys[i],
            ),
{
    let all = components(keys, g);
    lemma_levels(keys, g, keys.len());
    lemma_least(keys, g, i);
    components_partition(keys, g, i, i);
    assert(all.contains(component(keys, g, i)));
    let p = choose|p: int| 0 <= p < all.len() && all[p] == component(keys, g, i);
    assert(all[p].contains(keys[i]));
}

/// The least keys of one rank are keys of functions.
pub proof fn lemma_firsts(keys: Seq<Seq<char>>, g: Graph, r: nat)
    requires
        keys.no_duplicates(),
    ensures
        forall|x: Seq<char>| #[trigger]
            sorted_texts(least_keys(keys, g, r, keys.len())).contains(x) ==> keys.contains(x),
{
    let some = least_keys(keys, g, r, keys.len());
    lemma_least_keys(keys, g, r, keys.len());
    sorting_ascends(some);
    assert forall|x: Seq<char>| #[trigger] sorted_texts(some).contains(x) implies keys.contains(
        x,
    ) by {
        assert(some.contains(x));
    }
}

/// The list of components does not depend on the order of the functions.
pub proof fn component_list_ignores_order(
    keys: Seq<Seq<char>>,
    g: Graph,
    others: Seq<Seq<char>>,
    h: Graph,
)
    requires
        reordered(keys, g, others, h),
    ensures
        components(keys, g) == components(others, h),
{
    keys.unique_seq_to_set();
    others.unique_seq_to_set();
    assert forall|x: Seq<char>| keys.to_set().contains(x) == others.to_set().contains(x) by {
        assert(keys.contains(x) <==> others.contains(x));
    }
    assert(keys.to_set() =~= others.to_set());
    lemma_levels_same(keys, g, others, h, keys.len());
}

proof fn lemma_levels_same(
    keys: Seq<Seq<char>>,
    g: Graph,
    others: Seq<Seq<char>>,
    h: Graph,
    r: nat,
)
    requires
        reordered(keys, g, others, h),
    ensures
        levels(keys, g, r) == levels(others, h, r),
    decreases r,
{
    if r > 0 {
        lemma_levels_same(keys, g, others, h, (r - 1) as nat);
        let n = keys.len();
        let m = others.len();
        let a = least_keys(keys, g, r, n);
        let b = least_keys(others, h, r, m);
        lemma_least_keys(keys, g, r, n);
        lemma_least_keys(others, h, r, m);
        sorting_ascends(a);
        sorting_ascends(b);
        lemma_reordered(keys, g, others, h);
        lemma_least_within(keys, g, others, h, r);
        lemma_least_within(others, h, keys, g, r);
        let c = sorted_texts(a);
        let d = sorted_texts(b);
        assert forall|x: Seq<char>| #[trigger] c.contains(x) <==> d.contains(x) by {
            assert(c.contains(x) <==> a.contains(x));
            assert(d.contains(x) <==> b.contains(x));
        }
        ascending_texts_unique(c, d);
        assert forall|k: int| 0 <= k < c.len() implies #[trigger] level(keys, g, r)[k] == level(
            others,
            h,
            r,
        )[k] by {
            assert(c.contains(c[k]));
            assert(a.contains(c[k]));
            let j = choose|j: int|
                0 <= j < n && rank(g, j) == r && component(keys, g, j)[0] == keys[j]
                    && #[trigger] keys[j] == c[k];
            assert(keys.contains(c[k]));
            assert(others.contains(c[k]));
            lemma_place_found(keys, c[k]);
            lemma_place_found(others, c[k]);
            components_ignore_order(
                keys,
                g,
                others,
                h,
                place(keys, c[k]) as int,
                place(others, c[k]) as int,
            );
        }
        assert(level(keys, g, r) =~= level(others, h, r));
    }
}

proof fn lemma_least_within(
    keys: Seq<Seq<char>>,
    g: Graph,
    others: Seq<Seq<char>>,
    h: Graph,
    r: nat,
)
    requires
        reordered(keys, g, others, h),
    ensures
        forall|x: Seq<char>| #[trigger]
            least_keys(keys, g, r, keys.len()).contains(x) ==> least_keys(
                others,
                h,
                r,
                others.len(),
            ).contains(x),
{
    let n = keys.len();
    let m = others.len();
    lemma_least_keys(keys, g, r, n);
    lemma_least_keys(others, h, r, m);
    assert forall|x: Seq<char>| #[trigger]
        least_keys(keys, g, r, n).contains(x) implies least_keys(others, h, r, m).contains(x) by {
        let j = choose|j: int|
            0 <= j < n && rank(g, j) == r && component(keys, g, j)[0] == keys[j]
                && #[trigger] keys[j] == x;
        assert(keys.contains(x));
        assert(others.contains(x));
        let q = choose|q: int| 0 <= q < m && others[q] == x;
        components_ignore_order(keys, g, others, h, j, q);
    }
}

} // verus!
