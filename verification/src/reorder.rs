//! The order of a module's items plays no part in the addresses of its functions.
use vstd::prelude::*;
use crate::ast::{Function, Item, Module};
use crate::components::{is_call_graph, leads, reach_ignores_order, reordered};
use crate::content::{addresses_unique, unit_is_whole, whole};
use crate::fingerprint::{function_key, function_print};
use crate::graph::{is_graph, same_component};
use crate::hash_pass::{
    lemma_has_member, lemma_member_of, lemma_ordered_members, lemma_place_found,
    lemma_places_in_range,
};
use crate::hashing::{
    abi_request, addresses, artifact_request, body_request, build_request, component_text,
    definition, functions_in, key_text, keys_in, known, locals_for, member_rows, member_text,
    members_text, ordered_rows, outside, outside_rows, place, places, settled, slot, sources_known,
    template_source, template_table, template_target, unit_of, Hashes, Request, Unit,
};
use crate::order::{
    row_irreflexive, row_less, row_total, row_transitive, sorted_rows, sorting_orders, Row,
};
use crate::print_binders::function_fingerprint_ignores_order;
use crate::text::with_new;

verus! {

/// Whether two units hold the same functions, in whatever order.
pub open spec fn same_functions(u: Unit, v: Unit) -> bool {
    &&& whole(u)
    &&& whole(v)
    &&& forall|x: Seq<char>| #[trigger] u.keys.contains(x) <==> v.keys.contains(x)
    &&& forall|i: int, j: int|
        paired(u, v, i, j) ==> #[trigger] u.funcs[i] == #[trigger] v.funcs[j]
    &&& u.prev == v.prev
    &&& u.resolved == v.resolved
}

/// Whether function `i` of one unit and function `j` of another have one key.
pub open spec fn paired(u: Unit, v: Unit, i: int, j: int) -> bool {
    0 <= i < u.keys.len() && 0 <= j < v.keys.len() && u.keys[i] == v.keys[j]
}

/// Whether functions with one key have the same addresses.
pub open spec fn same_addresses(u: Unit, v: Unit, g: Hashes, h: Hashes) -> bool {
    forall|i: int, j: int| #[trigger]
        paired(u, v, i, j) ==> g.body[i] == h.body[j] && g.abi[i] == h.abi[j] && g.artifact[i]
            == h.artifact[j] && g.build[i] == h.build[j]
}

/// Sorting depends on which rows there are alone.
proof fn sorting_ignores_order(s: Seq<Row>, t: Seq<Row>)
    requires
        s.no_duplicates(),
        t.no_duplicates(),
        forall|x: Row| #[trigger] s.contains(x) <==> t.contains(x),
    ensures
        sorted_rows(s) == sorted_rows(t),
{
    broadcast use vstd::seq_lib::group_to_multiset_ensures;

    s.lemma_multiset_has_no_duplicates();
    t.lemma_multiset_has_no_duplicates();
    assert forall|x: Row| s.to_multiset().count(x) == t.to_multiset().count(x) by {
        assert(s.contains(x) <==> t.contains(x));
        assert(s.contains(x) <==> s.to_multiset().count(x) > 0);
        assert(t.contains(x) <==> t.to_multiset().count(x) > 0);
        assert(s.to_multiset().contains(x) <==> s.to_multiset().count(x) > 0);
        assert(t.to_multiset().contains(x) <==> t.to_multiset().count(x) > 0);
    }
    assert(s.to_multiset() =~= t.to_multiset());
    sorting_orders(s);
    sorting_orders(t);
    let leq = |a: Row, b: Row| !row_less(b, a);
    let a = sorted_rows(s);
    let b = sorted_rows(t);
    assert forall|x: Row| #[trigger] leq(x, x) by {
        row_irreflexive(x);
    }
    assert forall|x: Row, y: Row| #[trigger] leq(x, y) && #[trigger] leq(y, x) implies x == y by {
        row_total(x, y);
    }
    assert forall|x: Row, y: Row, z: Row| #[trigger]
        leq(x, y) && #[trigger] leq(y, z) implies leq(x, z) by {
        row_total(x, y);
        row_total(y, z);
        if row_less(z, x) {
            if x != y {
                row_transitive(z, x, y);
            }
        }
    }
    assert forall|x: Row, y: Row| #[trigger] leq(x, y) || #[trigger] leq(y, x) by {
        if row_less(x, y) && row_less(y, x) {
            row_transitive(x, y, x);
            row_irreflexive(x);
        }
    }
    assert(vstd::relations::total_ordering(leq));
    assert(vstd::relations::sorted_by(a, leq));
    assert(vstd::relations::sorted_by(b, leq));
    vstd::seq_lib::lemma_sorted_unique(a, b, leq);
}

proof fn lemma_pair(u: Unit, v: Unit, i: int) -> (j: int)
    requires
        same_functions(u, v),
        0 <= i < u.keys.len(),
    ensures
        paired(u, v, i, j),
        j == place(v.keys, u.keys[i]),
{
    assert(u.keys.contains(u.keys[i]));
    lemma_place_found(v.keys, u.keys[i]);
    place(v.keys, u.keys[i]) as int
}

proof fn lemma_swapped(u: Unit, v: Unit)
    requires
        same_functions(u, v),
    ensures
        same_functions(v, u),
{
    assert forall|x: Seq<char>| #[trigger] v.keys.contains(x) <==> u.keys.contains(x) by {
        assert(u.keys.contains(x) <==> v.keys.contains(x));
    }
    assert forall|i: int, j: int| paired(v, u, i, j) implies #[trigger] v.funcs[i]
        == #[trigger] u.funcs[j] by {
        assert(paired(u, v, j, i));
    }
}

proof fn lemma_places(s: Seq<Seq<char>>, t: Seq<Seq<char>>, xs: Seq<Seq<char>>)
    requires
        forall|x: Seq<char>| #[trigger] s.contains(x) <==> t.contains(x),
    ensures
        places(s, xs).len() == places(t, xs).len(),
        forall|k: int|
            0 <= k < places(s, xs).len() ==> s[#[trigger] places(s, xs)[k]] == t[places(t, xs)[k]],
    decreases xs.len(),
{
    if xs.len() > 0 {
        lemma_places(s, t, xs.drop_last());
        let a = places(s, xs.drop_last());
        let b = places(t, xs.drop_last());
        assert(s.contains(xs.last()) <==> t.contains(xs.last()));
        if s.contains(xs.last()) {
            lemma_place_found(s, xs.last());
            lemma_place_found(t, xs.last());
        }
        assert forall|k: int| 0 <= k < places(s, xs).len() implies s[#[trigger] places(s, xs)[k]]
            == t[places(t, xs)[k]] by {
            if k < a.len() {
                assert(places(s, xs)[k] == a[k]);
                assert(places(t, xs)[k] == b[k]);
            }
        }
    }
}

proof fn lemma_prints(u: Unit, v: Unit, i: int, j: int)
    requires
        same_functions(u, v),
        paired(u, v, i, j),
    ensures
        body_request(u, i) == body_request(v, j),
        abi_request(u, i) == abi_request(v, j),
        u.calls[i].len() == v.calls[j].len(),
        forall|k: int|
            0 <= k < u.calls[i].len() ==> paired(u, v, #[trigger] u.calls[i][k], v.calls[j][k]),
{
    let cx = locals_for(u.keys, u.keys[i]);
    let cy = locals_for(v.keys, v.keys[j]);
    assert(u.funcs[i] == v.funcs[j]);
    function_fingerprint_ignores_order(u.funcs[i], cx, cy);
    let xs = function_print(u.funcs[i], cx).1;
    assert(u.calls[i] == places(u.keys, xs));
    assert(v.calls[j] == places(v.keys, xs));
    lemma_places(u.keys, v.keys, xs);
    lemma_places_in_range(u.keys, xs);
    lemma_places_in_range(v.keys, xs);
    assert forall|k: int| 0 <= k < u.calls[i].len() implies paired(
        u,
        v,
        #[trigger] u.calls[i][k],
        v.calls[j][k],
    ) by {
        assert(places(u.keys, xs)[k] == u.calls[i][k]);
        assert(places(v.keys, xs)[k] == v.calls[j][k]);
    }
}

proof fn lemma_call_graph(u: Unit)
    requires
        whole(u),
    ensures
        is_call_graph(u.keys, u.calls),
{
    assert forall|i: int, k: int| 0 <= i < u.calls.len() && 0 <= k < u.calls[i].len() implies 0
        <= #[trigger] u.calls[i][k] < u.calls.len() by {
        lemma_places_in_range(
            u.keys,
            function_print(u.funcs[i], locals_for(u.keys, u.keys[i])).1,
        );
    }
}

proof fn lemma_reordered(u: Unit, v: Unit)
    requires
        same_functions(u, v),
    ensures
        reordered(u.keys, u.calls, v.keys, v.calls),
{
    lemma_call_graph(u);
    lemma_call_graph(v);
    assert forall|i: int, j: int, x: Seq<char>|
        0 <= i < u.keys.len() && 0 <= j < v.keys.len() && u.keys[i] == v.keys[j] implies (
    #[trigger] leads(u.keys, u.calls, i, x) <==> #[trigger] leads(v.keys, v.calls, j, x)) by {
        lemma_prints(u, v, i, j);
        if leads(u.keys, u.calls, i, x) {
            let k = choose|k: int|
                0 <= k < u.calls[i].len() && u.keys[#[trigger] u.calls[i][k]] == x;
            assert(v.keys[v.calls[j][k]] == x);
        }
        if leads(v.keys, v.calls, j, x) {
            let k = choose|k: int|
                0 <= k < v.calls[j].len() && v.keys[#[trigger] v.calls[j][k]] == x;
            assert(u.keys[u.calls[i][k]] == x);
        }
    }
}

proof fn lemma_component(u: Unit, v: Unit, i: int, j: int, p: int, q: int)
    requires
        same_functions(u, v),
        paired(u, v, i, p),
        paired(u, v, j, q),
    ensures
        same_component(u.calls, i, j) == same_component(v.calls, p, q),
{
    lemma_reordered(u, v);
    reach_ignores_order(u.keys, u.calls, v.keys, v.calls, i, j, p, q);
    reach_ignores_order(u.keys, u.calls, v.keys, v.calls, j, i, q, p);
}

proof fn lemma_rows_distinct(u: Unit, g: Hashes, i: int, k: nat)
    requires
        u.keys.no_duplicates(),
        k <= u.keys.len(),
    ensures
        member_rows(u, g, i, k).no_duplicates(),
    decreases k,
{
    if k > 0 {
        let front = member_rows(u, g, i, (k - 1) as nat);
        let row = seq![g.body[k - 1], g.abi[k - 1], u.keys[k - 1]];
        lemma_rows_distinct(u, g, i, (k - 1) as nat);
        if front.contains(row) {
            lemma_member_of(u, g, i, (k - 1) as nat, row);
            let j = choose|j: int|
                0 <= j < k - 1 && same_component(u.calls, i, j) && row == seq![
                    g.body[j],
                    g.abi[j],
                    #[trigger] u.keys[j],
                ];
            assert(row[2] == u.keys[j]);
            assert(row[2] == u.keys[k - 1]);
            assert(false);
        }
    }
}

proof fn lemma_rows_within(u: Unit, v: Unit, g: Hashes, h: Hashes, i: int, p: int, row: Row)
    requires
        same_functions(u, v),
        same_addresses(u, v, g, h),
        paired(u, v, i, p),
        member_rows(u, g, i, u.keys.len()).contains(row),
    ensures
        member_rows(v, h, p, v.keys.len()).contains(row),
{
    lemma_member_of(u, g, i, u.keys.len(), row);
    let j = choose|j: int|
        0 <= j < u.keys.len() && same_component(u.calls, i, j) && row == seq![
            g.body[j],
            g.abi[j],
            #[trigger] u.keys[j],
        ];
    let q = lemma_pair(u, v, j);
    lemma_component(u, v, i, j, p, q);
    lemma_has_member(v, h, p, v.keys.len(), q);
    assert(row =~= seq![h.body[q], h.abi[q], v.keys[q]]);
}

proof fn lemma_same_swapped(u: Unit, v: Unit, g: Hashes, h: Hashes)
    requires
        same_addresses(u, v, g, h),
    ensures
        same_addresses(v, u, h, g),
{
    assert forall|i: int, j: int| #[trigger] paired(v, u, i, j) implies h.body[i] == g.body[j]
        && h.abi[i] == g.abi[j] && h.artifact[i] == g.artifact[j] && h.build[i] == g.build[j] by {
        assert(paired(u, v, j, i));
    }
}

proof fn lemma_ordered(u: Unit, v: Unit, g: Hashes, h: Hashes, i: int, p: int)
    requires
        same_functions(u, v),
        same_addresses(u, v, g, h),
        paired(u, v, i, p),
    ensures
        ordered_rows(u, g, i) == ordered_rows(v, h, p),
        slot(u, g, i) == slot(v, h, p),
{
    let s = member_rows(u, g, i, u.keys.len());
    let t = member_rows(v, h, p, v.keys.len());
    lemma_rows_distinct(u, g, i, u.keys.len());
    lemma_rows_distinct(v, h, p, v.keys.len());
    lemma_swapped(u, v);
    lemma_same_swapped(u, v, g, h);
    assert forall|x: Row| #[trigger] s.contains(x) <==> t.contains(x) by {
        if s.contains(x) {
            lemma_rows_within(u, v, g, h, i, p, x);
        }
        if t.contains(x) {
            assert(paired(v, u, p, i));
            lemma_rows_within(v, u, h, g, p, i, x);
        }
    }
    sorting_ignores_order(s, t);
}

proof fn lemma_outside_rows(u: Unit, v: Unit, g: Hashes, h: Hashes, i: int, p: int, k: nat)
    requires
        same_functions(u, v),
        same_addresses(u, v, g, h),
        paired(u, v, i, p),
        k <= u.calls[i].len(),
    ensures
        outside_rows(u, g, i, k) == outside_rows(v, h, p, k),
    decreases k,
{
    if k > 0 {
        lemma_outside_rows(u, v, g, h, i, p, (k - 1) as nat);
        lemma_prints(u, v, i, p);
        let c = u.calls[i][k - 1];
        let d = v.calls[p][k - 1];
        assert(paired(u, v, c, d));
        lemma_component(u, v, i, c, p, d);
        assert(seq![g.artifact[c], g.body[c], g.abi[c], u.keys[c]] =~= seq![
            h.artifact[d],
            h.body[d],
            h.abi[d],
            v.keys[d],
        ]);
    }
}

proof fn lemma_outside(u: Unit, v: Unit, g: Hashes, h: Hashes, i: int, p: int)
    requires
        same_functions(u, v),
        same_addresses(u, v, g, h),
        paired(u, v, i, p),
    ensures
        outside(u, g, i) == outside(v, h, p),
{
    lemma_prints(u, v, i, p);
    lemma_outside_rows(u, v, g, h, i, p, u.calls[i].len());
}

proof fn lemma_target(
    u: Unit,
    v: Unit,
    g: Hashes,
    h: Hashes,
    i: int,
    p: int,
    key: Seq<char>,
)
    requires
        same_functions(u, v),
        same_addresses(u, v, g, h),
        paired(u, v, i, p),
    ensures
        template_target(u, g, i, key) == template_target(v, h, p, key),
{
    assert(u.keys.contains(key) <==> v.keys.contains(key));
    if u.keys.contains(key) {
        lemma_place_found(u.keys, key);
        lemma_place_found(v.keys, key);
        let c = place(u.keys, key) as int;
        let d = place(v.keys, key) as int;
        assert(paired(u, v, c, d));
        lemma_prints(u, v, i, p);
        lemma_component(u, v, i, c, p, d);
        lemma_outside(u, v, g, h, i, p);
        lemma_ordered(u, v, g, h, c, d);
        if u.calls[i].contains(c) {
            let k = choose|k: int| 0 <= k < u.calls[i].len() && u.calls[i][k] == c;
            assert(paired(u, v, u.calls[i][k], v.calls[p][k]));
            assert(v.calls[p][k] == d);
        }
        if v.calls[p].contains(d) {
            let k = choose|k: int| 0 <= k < v.calls[p].len() && v.calls[p][k] == d;
            assert(paired(u, v, u.calls[i][k], v.calls[p][k]));
            assert(u.calls[i][k] == c);
        }
    }
}

proof fn lemma_member(u: Unit, v: Unit, g: Hashes, h: Hashes, i: int, p: int)
    requires
        same_functions(u, v),
        same_addresses(u, v, g, h),
        paired(u, v, i, p),
    ensures
        member_text(u, g, i) == member_text(v, h, p),
{
    let a = template_table(u, g, i);
    let b = template_table(v, h, p);
    assert forall|k: int| 0 <= k < a.functions.len() implies #[trigger] a.functions[k]
        == b.functions[k] by {
        lemma_target(u, v, g, h, i, p, function_key(u.prev[k].0, u.prev[k].1));
    }
    assert(a.functions =~= b.functions);
    assert(u.funcs[i] == v.funcs[p]);
    assert(template_source(u, g, i) == template_source(v, h, p)) by {
        reveal(template_source);
    }
    lemma_outside(u, v, g, h, i, p);
}

proof fn lemma_members_text(u: Unit, v: Unit, g: Hashes, h: Hashes, rows: Seq<Row>)
    requires
        same_functions(u, v),
        same_addresses(u, v, g, h),
        forall|r: int| 0 <= r < rows.len() ==> u.keys.contains(#[trigger] rows[r][2]),
    ensures
        members_text(u, g, rows) == members_text(v, h, rows),
    decreases rows.len(),
{
    if rows.len() > 0 {
        let front = rows.drop_last();
        assert forall|r: int| 0 <= r < front.len() implies u.keys.contains(
            #[trigger] front[r][2],
        ) by {
            assert(front[r] == rows[r]);
            assert(u.keys.contains(rows[r][2]));
        }
        lemma_members_text(u, v, g, h, front);
        let key = rows[rows.len() - 1][2];
        assert(u.keys.contains(key));
        assert(v.keys.contains(key));
        lemma_place_found(u.keys, key);
        lemma_place_found(v.keys, key);
        assert(paired(u, v, place(u.keys, key) as int, place(v.keys, key) as int));
        lemma_member(u, v, g, h, place(u.keys, key) as int, place(v.keys, key) as int);
    }
}

proof fn lemma_artifact(u: Unit, v: Unit, g: Hashes, h: Hashes, i: int, p: int)
    requires
        same_functions(u, v),
        same_addresses(u, v, g, h),
        paired(u, v, i, p),
    ensures
        artifact_request(u, g, i) == artifact_request(v, h, p),
        build_request(u, g, i) == build_request(v, h, p),
{
    lemma_ordered(u, v, g, h, i, p);
    lemma_ordered_members(u, g, i);
    let rows = ordered_rows(u, g, i);
    assert forall|r: int| 0 <= r < rows.len() implies u.keys.contains(#[trigger] rows[r][2]) by {
        let row = rows[r];
    }
    lemma_members_text(u, v, g, h, rows);
    assert(component_text(u, g, i) == component_text(v, h, p));
}

/// The addresses of one unit's functions, in the order of another.
spec fn carried(u: Unit, v: Unit, g: Hashes) -> Hashes {
    let n = v.keys.len();
    Hashes {
        body: Seq::new(n, |j: int| g.body[place(u.keys, v.keys[j]) as int]),
        abi: Seq::new(n, |j: int| g.abi[place(u.keys, v.keys[j]) as int]),
        artifact: Seq::new(n, |j: int| g.artifact[place(u.keys, v.keys[j]) as int]),
        build: Seq::new(n, |j: int| g.build[place(u.keys, v.keys[j]) as int]),
    }
}

/// The order of a unit's functions plays no part in their addresses, nor in
/// what they call.
pub proof fn order_keeps_addresses(
    u: Unit,
    v: Unit,
    book: Seq<(Request, Seq<char>)>,
    g: Hashes,
    h: Hashes,
)
    requires
        same_functions(u, v),
        addresses(u, book, g),
        addresses(v, book, h),
    ensures
        same_addresses(u, v, g, h),
        reordered(u.keys, u.calls, v.keys, v.calls),
{
    let c = carried(u, v, g);
    lemma_swapped(u, v);
    assert forall|i: int, j: int| #[trigger] paired(u, v, i, j) implies g.body[i] == c.body[j]
        && g.abi[i] == c.abi[j] && g.artifact[i] == c.artifact[j] && g.build[i] == c.build[j] by {
        assert(v.keys.contains(v.keys[j]));
        lemma_place_found(u.keys, v.keys[j]);
        assert(place(u.keys, v.keys[j]) == i);
    }
    assert(same_addresses(u, v, g, c));
    assert(sources_known(v, book, c)) by {
        assert forall|j: int| 0 <= j < v.keys.len() implies known(
            book,
            #[trigger] body_request(v, j),
        ) == Some(c.body[j]) && known(book, abi_request(v, j)) == Some(c.abi[j]) by {
            let i = lemma_pair(v, u, j);
            assert(paired(u, v, i, j));
            lemma_prints(u, v, i, j);
            assert(known(book, body_request(u, i)) == Some(g.body[i]));
        }
    }
    assert forall|j: int| 0 <= j < v.keys.len() implies #[trigger] settled(v, book, c, j) by {
        let i = lemma_pair(v, u, j);
        assert(paired(u, v, i, j));
        lemma_artifact(u, v, g, c, i, j);
        assert(settled(u, book, g, i));
    }
    addresses_unique(v, book, c, h);
    assert forall|i: int, j: int| #[trigger] paired(u, v, i, j) implies g.body[i] == h.body[j]
        && g.abi[i] == h.abi[j] && g.artifact[i] == h.artifact[j] && g.build[i] == h.build[j] by {}
    lemma_reordered(u, v);
}

/// Whether no two functions have both name and arity in common.
pub open spec fn keys_differ(fs: Seq<Function>) -> bool {
    forall|i: int, j: int|
        0 <= i < j < fs.len() ==> key_text(#[trigger] fs[i]) != key_text(#[trigger] fs[j])
}

proof fn lemma_function_item(items: Seq<Item>, f: Function)
    ensures
        functions_in(items).contains(f) <==> items.contains(Item::Function(f)),
    decreases items.len(),
{
    if items.len() > 0 {
        let front = items.drop_last();
        let fs = functions_in(front);
        lemma_function_item(front, f);
        let all = functions_in(items);
        if all.contains(f) {
            let k = choose|k: int| 0 <= k < all.len() && all[k] == f;
            if k < fs.len() {
                assert(fs[k] == f);
                assert(fs.contains(f));
                let l = choose|l: int| 0 <= l < front.len() && front[l] == Item::Function(f);
                assert(items[l] == Item::Function(f));
            } else {
                assert(items[items.len() - 1] == Item::Function(f));
            }
        }
        if items.contains(Item::Function(f)) {
            let l = choose|l: int| 0 <= l < items.len() && items[l] == Item::Function(f);
            if l < front.len() {
                assert(front[l] == Item::Function(f));
                assert(front.contains(Item::Function(f)));
                let k = choose|k: int| 0 <= k < fs.len() && fs[k] == f;
                assert(all[k] == f);
            } else {
                assert(all[all.len() - 1] == f);
            }
        }
    }
}

proof fn lemma_definition(fs: Seq<Function>, key: Seq<char>)
    ensures
        keys_in(fs).contains(key) <==> exists|k: int|
            0 <= k < fs.len() && key_text(#[trigger] fs[k]) == key,
        keys_in(fs).contains(key) ==> fs.contains(definition(fs, key)) && key_text(
            definition(fs, key),
        ) == key,
    decreases fs.len(),
{
    if fs.len() > 0 {
        let front = fs.drop_last();
        lemma_definition(front, key);
        let ks = keys_in(front);
        let last = key_text(fs.last());
        let all = keys_in(fs);
        assert(all == with_new(ks, last));
        assert(all.contains(key) <==> ks.contains(key) || key == last) by {
            if all.contains(key) && key != last {
                let r = choose|r: int| 0 <= r < all.len() && all[r] == key;
                assert(ks[r] == key);
            }
            if ks.contains(key) {
                let r = choose|r: int| 0 <= r < ks.len() && ks[r] == key;
                assert(all[r] == key);
            }
            if key == last && !ks.contains(key) {
                assert(all[all.len() - 1] == key);
            }
        }
        if ks.contains(key) {
            let k = choose|k: int| 0 <= k < front.len() && key_text(#[trigger] front[k]) == key;
            assert(key_text(fs[k]) == key);
        }
        if key == last {
            assert(key_text(fs[fs.len() - 1]) == key);
        }
        if exists|k: int| 0 <= k < fs.len() && key_text(#[trigger] fs[k]) == key {
            let k = choose|k: int| 0 <= k < fs.len() && key_text(#[trigger] fs[k]) == key;
            if k < front.len() {
                assert(key_text(front[k]) == key);
            }
        }
        if all.contains(key) {
            if key == last {
                assert(fs[fs.len() - 1] == definition(fs, key));
            } else {
                let r = choose|r: int| 0 <= r < front.len() && front[r] == definition(front, key);
                assert(fs[r] == definition(fs, key));
            }
        }
    }
}

/// The keys of a module's unit are the names and arities of its functions, and
/// every function that one of them calls has its key among them.
pub proof fn keys_name_functions(
    m: Module,
    prev: Seq<(Seq<char>, nat)>,
    resolved: Seq<(Seq<char>, nat, Seq<char>)>,
    key: Seq<char>,
)
    ensures
        unit_of(m, prev, resolved).keys.contains(key) <==> exists|f: Function| #[trigger]
            m.items@.contains(Item::Function(f)) && key == function_key(f.name@, f.params@.len()),
        is_graph(unit_of(m, prev, resolved).calls),
{
    let fs = functions_in(m.items@);
    lemma_definition(fs, key);
    unit_is_whole(m, prev, resolved);
    lemma_call_graph(unit_of(m, prev, resolved));
    if keys_in(fs).contains(key) {
        let k = choose|k: int| 0 <= k < fs.len() && key_text(#[trigger] fs[k]) == key;
        lemma_function_item(m.items@, fs[k]);
        assert(fs.contains(fs[k]));
        assert(m.items@.contains(Item::Function(fs[k])));
    }
    if exists|f: Function| #[trigger]
        m.items@.contains(Item::Function(f)) && key == function_key(f.name@, f.params@.len()) {
        let f = choose|f: Function| #[trigger]
            m.items@.contains(Item::Function(f)) && key == function_key(f.name@, f.params@.len());
        lemma_function_item(m.items@, f);
        let k = choose|k: int| 0 <= k < fs.len() && fs[k] == f;
        assert(key_text(fs[k]) == key);
    }
}

/// Reordering the items of a module, and renaming the module, changes no
/// address of a function and no call, if no two of its functions have both
/// name and arity in common.
pub proof fn reordering_keeps_addresses(
    m: Module,
    n: Module,
    prev: Seq<(Seq<char>, nat)>,
    resolved: Seq<(Seq<char>, nat, Seq<char>)>,
    book: Seq<(Request, Seq<char>)>,
    g: Hashes,
    h: Hashes,
)
    requires
        m.items@.to_multiset() == n.items@.to_multiset(),
        keys_differ(functions_in(m.items@)),
        addresses(unit_of(m, prev, resolved), book, g),
        addresses(unit_of(n, prev, resolved), book, h),
    ensures
        same_addresses(unit_of(m, prev, resolved), unit_of(n, prev, resolved), g, h),
        reordered(
            unit_of(m, prev, resolved).keys,
            unit_of(m, prev, resolved).calls,
            unit_of(n, prev, resolved).keys,
            unit_of(n, prev, resolved).calls,
        ),
{
    broadcast use vstd::seq_lib::group_to_multiset_ensures;

    let u = unit_of(m, prev, resolved);
    let v = unit_of(n, prev, resolved);
    let fs = functions_in(m.items@);
    let gs = functions_in(n.items@);
    unit_is_whole(m, prev, resolved);
    unit_is_whole(n, prev, resolved);
    assert forall|f: Function| #[trigger] fs.contains(f) <==> gs.contains(f) by {
        lemma_function_item(m.items@, f);
        lemma_function_item(n.items@, f);
        let x = Item::Function(f);
        assert(m.items@.contains(x) <==> m.items@.to_multiset().count(x) > 0);
        assert(n.items@.contains(x) <==> n.items@.to_multiset().count(x) > 0);
    }
    assert forall|x: Seq<char>| #[trigger] u.keys.contains(x) <==> v.keys.contains(x) by {
        lemma_definition(fs, x);
        lemma_definition(gs, x);
        if u.keys.contains(x) {
            let f = definition(fs, x);
            let k = choose|k: int| 0 <= k < gs.len() && gs[k] == f;
            assert(key_text(gs[k]) == x);
        }
        if v.keys.contains(x) {
            let f = definition(gs, x);
            assert(fs.contains(f));
            let k = choose|k: int| 0 <= k < fs.len() && fs[k] == f;
            assert(key_text(fs[k]) == x);
        }
    }
    assert forall|i: int, j: int| paired(u, v, i, j) implies #[trigger] u.funcs[i]
        == #[trigger] v.funcs[j] by {
        let x = u.keys[i];
        assert(u.keys.contains(x));
        assert(v.keys.contains(x));
        lemma_definition(fs, x);
        lemma_definition(gs, x);
        let a = definition(fs, x);
        let b = definition(gs, x);
        assert(fs.contains(b));
        let k = choose|k: int| 0 <= k < fs.len() && fs[k] == a;
        let l = choose|l: int| 0 <= l < fs.len() && fs[l] == b;
        if k < l {
            assert(key_text(fs[k]) != key_text(fs[l]));
        } else if l < k {
            assert(key_text(fs[l]) != key_text(fs[k]));
        }
    }
    order_keeps_addresses(u, v, book, g, h);
}

} // verus!
