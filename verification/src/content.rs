//! What a content address depends on, and what it does not.
use vstd::prelude::*;
use crate::ast::Module;
use crate::erlang::FunDef;
use crate::fingerprint::{abi_print, function_key, function_print};
use crate::graph::{
    component_equivalence, dependencies_reach_less, is_graph, reach_count, reaches_edge,
    same_component,
};
use crate::hash_pass::{
    agree, lemma_component_frame, lemma_keys_distinct, lemma_place_found, lemma_places_in_range,
};
use crate::hashing::{
    abi_request, addresses, artifact_request, body_request, column, functions_in, known, locals_for,
    member_rows, members_text, ordered_rows, outside, outside_rows, place, places, settled, slot,
    sources_known, template_source, template_table, template_target, unit_of, Hashes, Request, Unit,
};
use crate::lower::{first_module, linked, lowered, param_vars};
use crate::order::{inserted, row_less, sorted_rows, text_less, Row};
use crate::print_twin::{
    fingerprint_ignores_names, function_bound, same_key, same_key_injective, same_keys,
    same_keys_contain, twin_function,
};
use crate::swap::{all_names, canonical_form_ignores_names, covered, swap_fundef};
use crate::twin::{
    exchange, fair, params_swap, same_name, translation_swaps, twin_tables, Renaming,
};

verus! {

/// Whether a unit is made up as that of a module is.
pub open spec fn whole(u: Unit) -> bool {
    &&& u.keys.no_duplicates()
    &&& u.funcs.len() == u.keys.len()
    &&& u.calls.len() == u.keys.len()
    &&& forall|i: int|
        0 <= i < u.keys.len() ==> #[trigger] u.calls[i] == places(
            u.keys,
            function_print(u.funcs[i], locals_for(u.keys, u.keys[i])).1,
        )
}

/// The unit of a module is whole.
pub proof fn unit_is_whole(
    m: Module,
    prev: Seq<(Seq<char>, nat)>,
    resolved: Seq<(Seq<char>, nat, Seq<char>)>,
)
    ensures
        whole(unit_of(m, prev, resolved)),
{
    lemma_keys_distinct(functions_in(m.items@));
}

proof fn lemma_whole_graph(u: Unit)
    requires
        whole(u),
    ensures
        is_graph(u.calls),
{
    assert forall|i: int, k: int| 0 <= i < u.calls.len() && 0 <= k < u.calls[i].len() implies 0
        <= #[trigger] u.calls[i][k] < u.calls.len() by {
        lemma_places_in_range(
            u.keys,
            function_print(u.funcs[i], locals_for(u.keys, u.keys[i])).1,
        );
    }
}

proof fn lemma_artifact_unique(
    u: Unit,
    book: Seq<(Request, Seq<char>)>,
    g: Hashes,
    h: Hashes,
    i: int,
)
    requires
        whole(u),
        addresses(u, book, g),
        addresses(u, book, h),
        g.body == h.body,
        g.abi == h.abi,
        0 <= i < u.keys.len(),
    ensures
        g.artifact[i] == h.artifact[i],
    decreases reach_count(u.calls, i, u.calls.len()),
{
    lemma_whole_graph(u);
    assert forall|j: int| 0 <= j < u.keys.len() && same_component(u.calls, i, j) implies
        #[trigger] agree(u, g, h, j) by {
        assert forall|k: int|
            0 <= k < u.calls[j].len() && !same_component(u.calls, j, u.calls[j][k]) implies
            g.artifact[#[trigger] u.calls[j][k]] == h.artifact[u.calls[j][k]] by {
            let c = u.calls[j][k];
            reaches_edge(u.calls, j, k);
            dependencies_reach_less(u.calls, i, j);
            dependencies_reach_less(u.calls, j, c);
            lemma_artifact_unique(u, book, g, h, c);
        }
    }
    lemma_component_frame(u, g, h, i);
    assert(settled(u, book, g, i) && settled(u, book, h, i));
}

/// A module and the known hashes determine the addresses of its functions.
pub proof fn addresses_unique(u: Unit, book: Seq<(Request, Seq<char>)>, g: Hashes, h: Hashes)
    requires
        whole(u),
        addresses(u, book, g),
        addresses(u, book, h),
    ensures
        g.body == h.body,
        g.abi == h.abi,
        g.artifact == h.artifact,
        g.build == h.build,
{
    assert forall|i: int| 0 <= i < u.keys.len() implies #[trigger] g.body[i] == h.body[i] by {
        assert(known(book, body_request(u, i)) == Some(g.body[i]));
    }
    assert forall|i: int| 0 <= i < u.keys.len() implies #[trigger] g.abi[i] == h.abi[i] by {
        assert(known(book, body_request(u, i)) == Some(g.body[i]));
    }
    assert(g.body =~= h.body);
    assert(g.abi =~= h.abi);
    assert forall|i: int| 0 <= i < u.keys.len() implies #[trigger] g.artifact[i]
        == h.artifact[i] by {
        lemma_artifact_unique(u, book, g, h, i);
    }
    assert(g.artifact =~= h.artifact);
    assert forall|i: int| 0 <= i < u.keys.len() implies #[trigger] g.build[i] == h.build[i] by {
        assert(settled(u, book, g, i) && settled(u, book, h, i));
    }
    assert(g.build =~= h.build);
}

/// Whether two units are those of modules that differ in names alone.
pub open spec fn twin_units(r: Renaming, u: Unit, v: Unit) -> bool {
    &&& same_keys(r, u.keys, v.keys)
    &&& u.funcs.len() == v.funcs.len()
    &&& forall|i: int|
        0 <= i < u.funcs.len() ==> twin_function(r, #[trigger] u.funcs[i], v.funcs[i]) && abi_print(
            u.funcs[i],
        ) == abi_print(v.funcs[i])
    &&& u.prev.len() == v.prev.len()
    &&& forall|p: int|
        0 <= p < u.prev.len() ==> same_name(r, (#[trigger] u.prev[p]).0, v.prev[p].0) && u.prev[p].1
            == v.prev[p].1
    &&& u.resolved.len() == v.resolved.len()
    &&& forall|p: int|
        0 <= p < u.resolved.len() ==> same_name(r, (#[trigger] u.resolved[p]).0, v.resolved[p].0)
            && u.resolved[p].1 == v.resolved[p].1 && u.resolved[p].2 == v.resolved[p].2
}

/// Whether neither of the two names is free in a function of the unit.
pub open spec fn names_bound(r: Renaming, u: Unit) -> bool {
    forall|i: int|
        0 <= i < u.funcs.len() ==> function_bound(
            r,
            #[trigger] u.funcs[i],
            locals_for(u.keys, u.keys[i]),
        )
}

/// Whether neither of the two variables is free in the translation of a
/// function of the unit.
pub open spec fn variables_bound(r: Renaming, u: Unit, h: Hashes) -> bool {
    forall|i: int|
        0 <= i < u.funcs.len() ==> covered(
            exchange(r),
            lowered((#[trigger] u.funcs[i]).body, template_table(u, h, i), 0).0,
            all_names(param_vars(u.funcs[i].params@)),
        )
}

/// Whether names that decide an order decide it as before. They do so where
/// content leaves it open: among functions that call one another in a circle,
/// and among those that one function calls.
pub open spec fn ties_keep_order(u: Unit, v: Unit, h: Hashes) -> bool {
    &&& forall|i: int, j: int|
        0 <= i < u.keys.len() && 0 <= j < u.keys.len() && #[trigger] same_component(u.calls, i, j)
            && h.body[i] == h.body[j] && h.abi[i] == h.abi[j] ==> text_less(u.keys[i], u.keys[j])
            == text_less(v.keys[i], v.keys[j])
    &&& forall|i: int, p: int, q: int|
        0 <= i < u.keys.len() && 0 <= p < u.calls[i].len() && 0 <= q < u.calls[i].len()
            && tied_callees(u, h, i, #[trigger] u.calls[i][p], #[trigger] u.calls[i][q])
            ==> text_less(u.keys[u.calls[i][p]], u.keys[u.calls[i][q]]) == text_less(
            v.keys[u.calls[i][p]],
            v.keys[u.calls[i][q]],
        )
}

/// Whether content does not tell two functions apart that a function calls.
pub open spec fn tied_callees(u: Unit, h: Hashes, i: int, c: int, d: int) -> bool {
    &&& !same_component(u.calls, i, c)
    &&& !same_component(u.calls, i, d)
    &&& h.artifact[c] == h.artifact[d]
    &&& h.body[c] == h.body[d]
    &&& h.abi[c] == h.abi[d]
}

proof fn place_swaps(
    r: Renaming,
    s: Seq<Seq<char>>,
    t: Seq<Seq<char>>,
    k: Seq<char>,
    l: Seq<char>,
)
    requires
        same_keys(r, s, t),
        same_key(r, k, l),
    ensures
        place(s, k) == place(t, l),
    decreases s.len(),
{
    if s.len() > 0 {
        same_key_injective(r, s[0], t[0], k, l);
        assert forall|i: int| 0 <= i < s.drop_first().len() implies same_key(
            r,
            #[trigger] s.drop_first()[i],
            t.drop_first()[i],
        ) by {
            assert(s.drop_first()[i] == s[i + 1]);
        }
        place_swaps(r, s.drop_first(), t.drop_first(), k, l);
    }
}

proof fn places_swap(
    r: Renaming,
    s: Seq<Seq<char>>,
    t: Seq<Seq<char>>,
    xs: Seq<Seq<char>>,
    ys: Seq<Seq<char>>,
)
    requires
        same_keys(r, s, t),
        same_keys(r, xs, ys),
    ensures
        places(s, xs) == places(t, ys),
    decreases xs.len(),
{
    if xs.len() > 0 {
        assert forall|i: int| 0 <= i < xs.drop_last().len() implies same_key(
            r,
            #[trigger] xs.drop_last()[i],
            ys.drop_last()[i],
        ) by {
            assert(xs.drop_last()[i] == xs[i]);
        }
        places_swap(r, s, t, xs.drop_last(), ys.drop_last());
        assert(same_key(r, xs[xs.len() - 1], ys[ys.len() - 1]));
        same_keys_contain(r, s, t, xs.last(), ys.last());
        place_swaps(r, s, t, xs.last(), ys.last());
    }
}

proof fn prints_same(r: Renaming, u: Unit, v: Unit, i: int)
    requires
        whole(u),
        whole(v),
        twin_units(r, u, v),
        names_bound(r, u),
        0 <= i < u.keys.len(),
    ensures
        body_request(v, i) == body_request(u, i),
        abi_request(v, i) == abi_request(u, i),
        v.calls[i] == u.calls[i],
{
    let cx = locals_for(u.keys, u.keys[i]);
    let cy = locals_for(v.keys, v.keys[i]);
    assert(twin_function(r, u.funcs[i], v.funcs[i]));
    assert(function_bound(r, u.funcs[i], cx));
    assert(same_key(r, u.keys[i], v.keys[i]));
    fingerprint_ignores_names(r, u.funcs[i], v.funcs[i], cx, cy);
    places_swap(
        r,
        u.keys,
        v.keys,
        function_print(u.funcs[i], cx).1,
        function_print(v.funcs[i], cy).1,
    );
}

/// Whether rows are others after the exchange: the key stands behind `c` texts
/// that stay.
spec fn twin_rows(r: Renaming, s: Seq<Row>, t: Seq<Row>, c: nat) -> bool {
    &&& s.len() == t.len()
    &&& forall|i: int| 0 <= i < s.len() ==> twin_row(r, #[trigger] s[i], t[i], c)
}

spec fn twin_row(r: Renaming, x: Row, y: Row, c: nat) -> bool {
    &&& x.len() == c + 1
    &&& y.len() == c + 1
    &&& x.take(c as int) == y.take(c as int)
    &&& same_key(r, x[c as int], y[c as int])
}

/// Whether two rows differ in the texts that stay.
spec fn apart(x: Row, y: Row, c: nat) -> bool {
    x.take(c as int) != y.take(c as int)
}

/// Rows are ordered as before, by the texts that stay or else by their keys.
proof fn row_less_swaps(x: Row, y: Row, x2: Row, y2: Row, c: nat)
    requires
        x.len() == c + 1,
        y.len() == c + 1,
        x2.len() == c + 1,
        y2.len() == c + 1,
        x.take(c as int) == x2.take(c as int),
        y.take(c as int) == y2.take(c as int),
        x[c as int] == y[c as int] <==> x2[c as int] == y2[c as int],
        apart(x, y, c) || text_less(x[c as int], y[c as int]) == text_less(
            x2[c as int],
            y2[c as int],
        ),
    ensures
        row_less(x, y) == row_less(x2, y2),
    decreases c,
{
    if c == 0 {
        assert(x.take(0) =~= y.take(0));
        assert(x.drop_first() =~= seq![] && y.drop_first() =~= seq![]);
        assert(x2.drop_first() =~= seq![] && y2.drop_first() =~= seq![]);
    } else {
        assert(x[0] == x.take(c as int)[0] && x2[0] == x2.take(c as int)[0]);
        assert(y[0] == y.take(c as int)[0] && y2[0] == y2.take(c as int)[0]);
        if x[0] == y[0] {
            let d = (c - 1) as nat;
            assert(x.drop_first().take(d as int) =~= x.take(c as int).drop_first());
            assert(y.drop_first().take(d as int) =~= y.take(c as int).drop_first());
            assert(x2.drop_first().take(d as int) =~= x2.take(c as int).drop_first());
            assert(y2.drop_first().take(d as int) =~= y2.take(c as int).drop_first());
            if x.drop_first().take(d as int) == y.drop_first().take(d as int) {
                assert(x.take(c as int) =~= seq![x[0]] + x.drop_first().take(d as int));
                assert(y.take(c as int) =~= seq![y[0]] + y.drop_first().take(d as int));
            }
            row_less_swaps(x.drop_first(), y.drop_first(), x2.drop_first(), y2.drop_first(), d);
        }
    }
}

/// Whether the rows of `t` are ordered as those of `s`.
spec fn same_order(s: Seq<Row>, t: Seq<Row>) -> bool {
    &&& s.len() == t.len()
    &&& forall|i: int, j: int|
        0 <= i < s.len() && 0 <= j < s.len() ==> row_less(#[trigger] s[i], #[trigger] s[j])
            == row_less(t[i], t[j])
}

/// Whether the rows of `a` are rows of `s`, and those of `b` the ones that
/// stand at the same places of `t`.
spec fn picked(s: Seq<Row>, t: Seq<Row>, a: Seq<Row>, b: Seq<Row>) -> bool {
    &&& a.len() == b.len()
    &&& forall|i: int| 0 <= i < a.len() ==> at_one_place(s, t, #[trigger] a[i], b[i])
}

spec fn at_one_place(s: Seq<Row>, t: Seq<Row>, x: Row, y: Row) -> bool {
    exists|k: int| 0 <= k < s.len() && #[trigger] s[k] == x && t[k] == y
}

proof fn inserted_picks(s: Seq<Row>, t: Seq<Row>, a: Seq<Row>, b: Seq<Row>, m: int)
    requires
        same_order(s, t),
        picked(s, t, a, b),
        0 <= m < s.len(),
    ensures
        picked(s, t, inserted(a, s[m]), inserted(b, t[m])),
    decreases a.len(),
{
    assert(at_one_place(s, t, s[m], t[m]));
    if a.len() > 0 {
        assert(at_one_place(s, t, a[a.len() - 1], b[b.len() - 1]));
        let k = choose|k: int| 0 <= k < s.len() && #[trigger] s[k] == a.last() && t[k] == b.last();
        assert(row_less(s[m], s[k]) == row_less(t[m], t[k]));
        if row_less(s[m], a.last()) {
            assert forall|i: int| 0 <= i < a.drop_last().len() implies at_one_place(
                s,
                t,
                #[trigger] a.drop_last()[i],
                b.drop_last()[i],
            ) by {
                assert(a.drop_last()[i] == a[i]);
            }
            inserted_picks(s, t, a.drop_last(), b.drop_last(), m);
        }
    }
}

proof fn sorted_picks(s: Seq<Row>, t: Seq<Row>, n: nat)
    requires
        same_order(s, t),
        n <= s.len(),
    ensures
        picked(s, t, sorted_rows(s.take(n as int)), sorted_rows(t.take(n as int))),
    decreases n,
{
    if n > 0 {
        sorted_picks(s, t, (n - 1) as nat);
        assert(s.take(n as int).drop_last() =~= s.take(n - 1));
        assert(t.take(n as int).drop_last() =~= t.take(n - 1));
        inserted_picks(s, t, sorted_rows(s.take(n - 1)), sorted_rows(t.take(n - 1)), n - 1);
    }
}

proof fn sorted_swaps(r: Renaming, s: Seq<Row>, t: Seq<Row>, c: nat)
    requires
        twin_rows(r, s, t, c),
        same_order(s, t),
    ensures
        twin_rows(r, sorted_rows(s), sorted_rows(t), c),
{
    sorted_picks(s, t, s.len());
    assert(s.take(s.len() as int) =~= s);
    assert(t.take(t.len() as int) =~= t);
    let a = sorted_rows(s);
    let b = sorted_rows(t);
    assert forall|i: int| 0 <= i < a.len() implies twin_row(r, #[trigger] a[i], b[i], c) by {
        assert(at_one_place(s, t, a[i], b[i]));
        let k = choose|k: int| 0 <= k < s.len() && #[trigger] s[k] == a[i] && t[k] == b[i];
        assert(twin_row(r, s[k], t[k], c));
    }
}

spec fn member_row(u: Unit, h: Hashes, j: int) -> Row {
    seq![h.body[j], h.abi[j], u.keys[j]]
}

/// Whether rows are those of members of a component, at the same places.
spec fn member_of_both(u: Unit, v: Unit, h: Hashes, i: int, x: Row, y: Row) -> bool {
    exists|j: int|
        0 <= j < u.keys.len() && same_component(u.calls, i, j) && x == #[trigger] member_row(
            u,
            h,
            j,
        ) && y == member_row(v, h, j)
}

proof fn member_rows_swap(r: Renaming, u: Unit, v: Unit, h: Hashes, i: int, k: nat)
    requires
        same_keys(r, u.keys, v.keys),
        u.calls == v.calls,
        0 <= i < u.keys.len(),
        k <= u.keys.len(),
    ensures
        member_rows(u, h, i, k).len() == member_rows(v, h, i, k).len(),
        forall|m: int|
            0 <= m < member_rows(u, h, i, k).len() ==> member_of_both(
                u,
                v,
                h,
                i,
                #[trigger] member_rows(u, h, i, k)[m],
                member_rows(v, h, i, k)[m],
            ),
    decreases k,
{
    if k > 0 {
        member_rows_swap(r, u, v, h, i, (k - 1) as nat);
        let front = member_rows(u, h, i, (k - 1) as nat);
        let a = member_rows(u, h, i, k);
        let b = member_rows(v, h, i, k);
        assert forall|m: int| 0 <= m < a.len() implies member_of_both(
            u,
            v,
            h,
            i,
            #[trigger] a[m],
            b[m],
        ) by {
            if m < front.len() {
                assert(a[m] == front[m]);
            } else {
                assert(a[m] == member_row(u, h, k - 1) && b[m] == member_row(v, h, k - 1));
            }
        }
    }
}

proof fn member_order(r: Renaming, u: Unit, v: Unit, h: Hashes, i: int)
    requires
        same_keys(r, u.keys, v.keys),
        u.calls == v.calls,
        ties_keep_order(u, v, h),
        0 <= i < u.keys.len(),
    ensures
        twin_rows(
            r,
            member_rows(u, h, i, u.keys.len()),
            member_rows(v, h, i, v.keys.len()),
            2,
        ),
        same_order(member_rows(u, h, i, u.keys.len()), member_rows(v, h, i, v.keys.len())),
{
    member_rows_swap(r, u, v, h, i, u.keys.len());
    let a = member_rows(u, h, i, u.keys.len());
    let b = member_rows(v, h, i, v.keys.len());
    assert forall|m: int| 0 <= m < a.len() implies twin_row(r, #[trigger] a[m], b[m], 2) by {
        assert(member_of_both(u, v, h, i, a[m], b[m]));
        let j = choose|j: int|
            0 <= j < u.keys.len() && same_component(u.calls, i, j) && a[m] == #[trigger] member_row(
                u,
                h,
                j,
            ) && b[m] == member_row(v, h, j);
        assert(a[m].take(2) =~= b[m].take(2));
        assert(same_key(r, u.keys[j], v.keys[j]));
    }
    assert forall|m: int, n: int| 0 <= m < a.len() && 0 <= n < a.len() implies row_less(
        #[trigger] a[m],
        #[trigger] a[n],
    ) == row_less(b[m], b[n]) by {
        assert(member_of_both(u, v, h, i, a[m], b[m]) && member_of_both(u, v, h, i, a[n], b[n]));
        let j = choose|j: int|
            0 <= j < u.keys.len() && same_component(u.calls, i, j) && a[m] == #[trigger] member_row(
                u,
                h,
                j,
            ) && b[m] == member_row(v, h, j);
        let q = choose|j: int|
            0 <= j < u.keys.len() && same_component(u.calls, i, j) && a[n] == #[trigger] member_row(
                u,
                h,
                j,
            ) && b[n] == member_row(v, h, j);
        component_equivalence(u.calls, i, j, q);
        component_equivalence(u.calls, j, i, q);
        assert(same_component(u.calls, j, q));
        assert(twin_row(r, a[m], b[m], 2) && twin_row(r, a[n], b[n], 2));
        same_key_injective(r, a[m][2], b[m][2], a[n][2], b[n][2]);
        assert(a[m].take(2)[0] == h.body[j] && a[m].take(2)[1] == h.abi[j]);
        assert(a[n].take(2)[0] == h.body[q] && a[n].take(2)[1] == h.abi[q]);
        row_less_swaps(a[m], a[n], b[m], b[n], 2);
    }
}

spec fn outside_row(u: Unit, h: Hashes, c: int) -> Row {
    seq![h.artifact[c], h.body[c], h.abi[c], u.keys[c]]
}

/// Whether rows are those of callees outside the component, at the same places.
spec fn callee_of_both(u: Unit, v: Unit, h: Hashes, i: int, x: Row, y: Row) -> bool {
    exists|p: int|
        0 <= p < u.calls[i].len() && !same_component(u.calls, i, u.calls[i][p]) && x == outside_row(
            u,
            h,
            #[trigger] u.calls[i][p],
        ) && y == outside_row(v, h, u.calls[i][p])
}

proof fn outside_rows_swap(u: Unit, v: Unit, h: Hashes, i: int, k: nat)
    requires
        u.calls == v.calls,
        k <= u.calls[i].len(),
    ensures
        outside_rows(u, h, i, k).len() == outside_rows(v, h, i, k).len(),
        forall|m: int|
            0 <= m < outside_rows(u, h, i, k).len() ==> callee_of_both(
                u,
                v,
                h,
                i,
                #[trigger] outside_rows(u, h, i, k)[m],
                outside_rows(v, h, i, k)[m],
            ),
    decreases k,
{
    if k > 0 {
        outside_rows_swap(u, v, h, i, (k - 1) as nat);
        let front = outside_rows(u, h, i, (k - 1) as nat);
        let a = outside_rows(u, h, i, k);
        let b = outside_rows(v, h, i, k);
        assert forall|m: int| 0 <= m < a.len() implies callee_of_both(
            u,
            v,
            h,
            i,
            #[trigger] a[m],
            b[m],
        ) by {
            if m < front.len() {
                assert(a[m] == front[m]);
            } else {
                let c = u.calls[i][k - 1];
                assert(a[m] == outside_row(u, h, c) && b[m] == outside_row(v, h, c));
            }
        }
    }
}

proof fn outside_order(r: Renaming, u: Unit, v: Unit, h: Hashes, i: int)
    requires
        same_keys(r, u.keys, v.keys),
        u.calls == v.calls,
        is_graph(u.calls),
        u.calls.len() == u.keys.len(),
        ties_keep_order(u, v, h),
        0 <= i < u.keys.len(),
    ensures
        twin_rows(
            r,
            outside_rows(u, h, i, u.calls[i].len()),
            outside_rows(v, h, i, v.calls[i].len()),
            3,
        ),
        same_order(
            outside_rows(u, h, i, u.calls[i].len()),
            outside_rows(v, h, i, v.calls[i].len()),
        ),
{
    outside_rows_swap(u, v, h, i, u.calls[i].len());
    let a = outside_rows(u, h, i, u.calls[i].len());
    let b = outside_rows(v, h, i, v.calls[i].len());
    assert forall|m: int| 0 <= m < a.len() implies twin_row(r, #[trigger] a[m], b[m], 3) by {
        assert(callee_of_both(u, v, h, i, a[m], b[m]));
        let p = choose|p: int|
            0 <= p < u.calls[i].len() && !same_component(u.calls, i, u.calls[i][p]) && a[m]
                == outside_row(u, h, #[trigger] u.calls[i][p]) && b[m] == outside_row(
                v,
                h,
                u.calls[i][p],
            );
        let c = u.calls[i][p];
        assert(a[m].take(3) =~= b[m].take(3));
        assert(same_key(r, u.keys[c], v.keys[c]));
    }
    assert forall|m: int, n: int| 0 <= m < a.len() && 0 <= n < a.len() implies row_less(
        #[trigger] a[m],
        #[trigger] a[n],
    ) == row_less(b[m], b[n]) by {
        assert(callee_of_both(u, v, h, i, a[m], b[m]) && callee_of_both(u, v, h, i, a[n], b[n]));
        let p = choose|p: int|
            0 <= p < u.calls[i].len() && !same_component(u.calls, i, u.calls[i][p]) && a[m]
                == outside_row(u, h, #[trigger] u.calls[i][p]) && b[m] == outside_row(
                v,
                h,
                u.calls[i][p],
            );
        let q = choose|p: int|
            0 <= p < u.calls[i].len() && !same_component(u.calls, i, u.calls[i][p]) && a[n]
                == outside_row(u, h, #[trigger] u.calls[i][p]) && b[n] == outside_row(
                v,
                h,
                u.calls[i][p],
            );
        let c = u.calls[i][p];
        let d = u.calls[i][q];
        assert(twin_row(r, a[m], b[m], 3) && twin_row(r, a[n], b[n], 3));
        same_key_injective(r, a[m][3], b[m][3], a[n][3], b[n][3]);
        assert(a[m].take(3)[0] == h.artifact[c] && a[n].take(3)[0] == h.artifact[d]);
        assert(a[m].take(3)[1] == h.body[c] && a[m].take(3)[2] == h.abi[c]);
        assert(a[n].take(3)[1] == h.body[d] && a[n].take(3)[2] == h.abi[d]);
        if !apart(a[m], a[n], 3) {
            assert(tied_callees(u, h, i, c, d));
        }
        row_less_swaps(a[m], a[n], b[m], b[n], 3);
    }
}

/// What is asked of units that differ in names alone.
spec fn alike(r: Renaming, u: Unit, v: Unit, h: Hashes) -> bool {
    &&& fair(r)
    &&& whole(u)
    &&& whole(v)
    &&& twin_units(r, u, v)
    &&& u.calls == v.calls
    &&& ties_keep_order(u, v, h)
    &&& variables_bound(r, u, h)
}

proof fn slot_swaps(r: Renaming, u: Unit, v: Unit, h: Hashes, i: int)
    requires
        alike(r, u, v, h),
        0 <= i < u.keys.len(),
    ensures
        twin_rows(r, ordered_rows(u, h, i), ordered_rows(v, h, i), 2),
        slot(u, h, i) == slot(v, h, i),
{
    member_order(r, u, v, h, i);
    sorted_swaps(
        r,
        member_rows(u, h, i, u.keys.len()),
        member_rows(v, h, i, v.keys.len()),
        2,
    );
    let s = column(ordered_rows(u, h, i), 2);
    let t = column(ordered_rows(v, h, i), 2);
    assert forall|k: int| 0 <= k < s.len() implies same_key(r, #[trigger] s[k], t[k]) by {
        assert(twin_row(r, ordered_rows(u, h, i)[k], ordered_rows(v, h, i)[k], 2));
    }
    assert(same_key(r, u.keys[i], v.keys[i]));
    place_swaps(r, s, t, u.keys[i], v.keys[i]);
}

proof fn outside_swaps(r: Renaming, u: Unit, v: Unit, h: Hashes, i: int)
    requires
        alike(r, u, v, h),
        0 <= i < u.keys.len(),
    ensures
        twin_rows(r, outside(u, h, i), outside(v, h, i), 3),
        column(outside(u, h, i), 0) == column(outside(v, h, i), 0),
        same_keys(r, column(outside(u, h, i), 3), column(outside(v, h, i), 3)),
{
    lemma_whole_graph(u);
    outside_order(r, u, v, h, i);
    sorted_swaps(
        r,
        outside_rows(u, h, i, u.calls[i].len()),
        outside_rows(v, h, i, v.calls[i].len()),
        3,
    );
    let a = outside(u, h, i);
    let b = outside(v, h, i);
    assert forall|k: int| 0 <= k < a.len() implies a[k][0] == b[k][0] && same_key(
        r,
        #[trigger] a[k][3],
        b[k][3],
    ) by {
        assert(twin_row(r, a[k], b[k], 3));
        assert(a[k].take(3)[0] == a[k][0] && b[k].take(3)[0] == b[k][0]);
    }
    assert forall|k: int| 0 <= k < a.len() implies #[trigger] column(a, 0)[k] == column(b, 0)[k] by {
        assert(same_key(r, a[k][3], b[k][3]));
    }
    assert(column(a, 0) =~= column(b, 0));
    assert forall|k: int| 0 <= k < a.len() implies same_key(
        r,
        #[trigger] column(a, 3)[k],
        column(b, 3)[k],
    ) by {
        assert(same_key(r, a[k][3], b[k][3]));
    }
}

proof fn target_swaps(
    r: Renaming,
    u: Unit,
    v: Unit,
    h: Hashes,
    i: int,
    k: Seq<char>,
    l: Seq<char>,
)
    requires
        alike(r, u, v, h),
        0 <= i < u.keys.len(),
        same_key(r, k, l),
    ensures
        template_target(v, h, i, l) == template_target(u, h, i, k),
{
    assert(same_key(r, u.keys[i], v.keys[i]));
    same_key_injective(r, u.keys[i], v.keys[i], k, l);
    same_keys_contain(r, u.keys, v.keys, k, l);
    place_swaps(r, u.keys, v.keys, k, l);
    if u.keys.contains(k) {
        lemma_place_found(u.keys, k);
        slot_swaps(r, u, v, h, place(u.keys, k) as int);
    }
    outside_swaps(r, u, v, h, i);
    place_swaps(r, column(outside(u, h, i), 3), column(outside(v, h, i), 3), k, l);
}

proof fn first_module_swaps(
    r: Renaming,
    s: Seq<(Seq<char>, nat, Seq<char>)>,
    t: Seq<(Seq<char>, nat, Seq<char>)>,
    x: Seq<char>,
    y: Seq<char>,
    n: nat,
)
    requires
        s.len() == t.len(),
        forall|p: int|
            0 <= p < s.len() ==> same_name(r, (#[trigger] s[p]).0, t[p].0) && s[p].1 == t[p].1
                && s[p].2 == t[p].2,
        same_name(r, x, y),
    ensures
        first_module(t, y, n) == first_module(s, x, n),
    decreases s.len(),
{
    if s.len() > 0 {
        assert(same_name(r, s[0].0, t[0].0));
        assert(s[0].0 == x <==> t[0].0 == y);
        assert forall|p: int| 0 <= p < s.drop_first().len() implies same_name(
            r,
            (#[trigger] s.drop_first()[p]).0,
            t.drop_first()[p].0,
        ) && s.drop_first()[p].1 == t.drop_first()[p].1 && s.drop_first()[p].2
            == t.drop_first()[p].2 by {
            assert(s.drop_first()[p] == s[p + 1]);
        }
        first_module_swaps(r, s.drop_first(), t.drop_first(), x, y, n);
    }
}

proof fn tables_swap(r: Renaming, u: Unit, v: Unit, h: Hashes, i: int)
    requires
        alike(r, u, v, h),
        0 <= i < u.keys.len(),
    ensures
        twin_tables(r, template_table(u, h, i), template_table(v, h, i)),
{
    let t = template_table(u, h, i);
    let s = template_table(v, h, i);
    assert forall|p: int| 0 <= p < u.prev.len() implies same_name(
        r,
        (#[trigger] t.functions[p]).0,
        s.functions[p].0,
    ) && t.functions[p].1 == s.functions[p].1 && t.functions[p].2 == s.functions[p].2 by {
        assert(same_name(r, u.prev[p].0, v.prev[p].0));
        let k = function_key(u.prev[p].0, u.prev[p].1);
        let l = function_key(v.prev[p].0, v.prev[p].1);
        assert(same_key(r, k, l));
        target_swaps(r, u, v, h, i, k, l);
    }
    assert forall|x: Seq<char>, y: Seq<char>, n: nat| same_name(r, x, y) implies #[trigger] linked(
        s,
        y,
        n,
    ) == #[trigger] linked(t, x, n) by {
        first_module_swaps(r, t.functions, s.functions, x, y, n);
        first_module_swaps(r, t.resolved, s.resolved, x, y, n);
    }
}

proof fn template_swaps(r: Renaming, u: Unit, v: Unit, h: Hashes, i: int)
    requires
        alike(r, u, v, h),
        0 <= i < u.keys.len(),
    ensures
        template_source(v, h, i) == template_source(u, h, i),
{
    reveal(template_source);
    let w = exchange(r);
    let t = template_table(u, h, i);
    let s = template_table(v, h, i);
    let f = u.funcs[i];
    let g = v.funcs[i];
    assert(twin_function(r, f, g));
    tables_swap(r, u, v, h, i);
    translation_swaps(r, f.body, g.body, t, s, 0);
    params_swap(r, f.params@, g.params@);
    let def = FunDef {
        name: "apply"@,
        arity: f.params@.len(),
        params: param_vars(f.params@),
        body: lowered(f.body, t, 0).0,
    };
    canonical_form_ignores_names(w, def);
    assert(swap_fundef(w, def) == FunDef {
        name: "apply"@,
        arity: g.params@.len(),
        params: param_vars(g.params@),
        body: lowered(g.body, s, 0).0,
    });
}

proof fn members_swap(r: Renaming, u: Unit, v: Unit, h: Hashes, a: Seq<Row>, b: Seq<Row>)
    requires
        alike(r, u, v, h),
        twin_rows(r, a, b, 2),
        forall|k: int| 0 <= k < a.len() ==> u.keys.contains((#[trigger] a[k])[2]),
    ensures
        members_text(v, h, b) == members_text(u, h, a),
    decreases a.len(),
{
    if a.len() > 0 {
        assert forall|k: int| 0 <= k < a.drop_last().len() implies twin_row(
            r,
            #[trigger] a.drop_last()[k],
            b.drop_last()[k],
            2,
        ) && u.keys.contains(a.drop_last()[k][2]) by {
            assert(a.drop_last()[k] == a[k]);
        }
        members_swap(r, u, v, h, a.drop_last(), b.drop_last());
        assert(twin_row(r, a[a.len() - 1], b[b.len() - 1], 2));
        assert(u.keys.contains(a[a.len() - 1][2]));
        place_swaps(r, u.keys, v.keys, a.last()[2], b.last()[2]);
        lemma_place_found(u.keys, a.last()[2]);
        let j = place(u.keys, a.last()[2]) as int;
        outside_swaps(r, u, v, h, j);
        template_swaps(r, u, v, h, j);
    }
}

proof fn artifact_request_swaps(r: Renaming, u: Unit, v: Unit, h: Hashes, i: int)
    requires
        alike(r, u, v, h),
        0 <= i < u.keys.len(),
    ensures
        artifact_request(v, h, i) == artifact_request(u, h, i),
{
    slot_swaps(r, u, v, h, i);
    crate::hash_pass::lemma_ordered_members(u, h, i);
    members_swap(r, u, v, h, ordered_rows(u, h, i), ordered_rows(v, h, i));
}

/// A content address does not depend on the names of parameters, of local
/// variables and of functions: exchanging two names throughout a module leaves
/// every address as it is. This holds if neither name is free in a function or
/// in its translation, and if names that decide an order, because content does
/// not, decide it as before.
pub proof fn renaming_keeps_addresses(
    r: Renaming,
    u: Unit,
    v: Unit,
    book: Seq<(Request, Seq<char>)>,
    g: Hashes,
    h: Hashes,
)
    requires
        fair(r),
        whole(u),
        whole(v),
        twin_units(r, u, v),
        names_bound(r, u),
        ties_keep_order(u, v, g),
        variables_bound(r, u, g),
        addresses(u, book, g),
        addresses(v, book, h),
    ensures
        g.body == h.body,
        g.abi == h.abi,
        g.artifact == h.artifact,
        g.build == h.build,
{
    assert forall|i: int| 0 <= i < u.keys.len() implies #[trigger] v.calls[i] == u.calls[i] by {
        prints_same(r, u, v, i);
    }
    assert(v.calls =~= u.calls);
    assert(sources_known(v, book, g)) by {
        assert forall|i: int| 0 <= i < v.keys.len() implies known(
            book,
            #[trigger] body_request(v, i),
        ) == Some(g.body[i]) && known(book, abi_request(v, i)) == Some(g.abi[i]) by {
            prints_same(r, u, v, i);
            assert(known(book, body_request(u, i)) == Some(g.body[i]));
        }
    }
    assert forall|i: int| 0 <= i < v.keys.len() implies #[trigger] settled(v, book, g, i) by {
        artifact_request_swaps(r, u, v, g, i);
        assert(settled(u, book, g, i));
    }
    addresses_unique(v, book, g, h);
}

} // verus!
