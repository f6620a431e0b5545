//! What a content address tells of a function: where hashes do not collide,
//! functions with the same address have the same content, and so have the
//! functions that they reach.
use vstd::prelude::*;
use vstd::utf8::{encode_scalar, encode_utf8};
use crate::content::whole;
use crate::fingerprint::{abi_print, function_print};
use crate::graph::{
    closed, component_equivalence, dependencies_reach_less, is_graph, reach_count, reaches,
    reaches_edge, reaches_itself, reaches_transitive, same_component, Graph,
};
use crate::hash_pass::{
    lemma_has_member, lemma_ordered_members, lemma_place_found, lemma_places_in_range,
};
use crate::hashing::{
    abi_request, addresses, artifact_request, body_request, column, component_text, known,
    locals_for, member_rows, member_text, members_text, ordered_rows, outside, outside_rows,
    part_text, place, settled, slot, template_source, Hashes, Request, Unit,
};
use crate::order::{sorting_orders, Row};
use crate::print_twin::{decimal_injective, decimal_round_trip};
use crate::text::{decimal, joined};

verus! {

/// Whether different requests have different hashes.
pub open spec fn collision_free(book: Seq<(Request, Seq<char>)>) -> bool {
    forall|p: Request, q: Request|
        #[trigger] known(book, p) is Some && known(book, p) == #[trigger] known(book, q) ==> p == q
}

/// Whether the addresses are texts that can be told apart in a list: none is
/// empty or has a comma.
pub open spec fn listable(s: Seq<Seq<char>>) -> bool {
    forall|i: int| 0 <= i < s.len() ==> (#[trigger] s[i]).len() > 0 && !s[i].contains(',')
}

proof fn bytes_concat(a: Seq<char>, b: Seq<char>)
    ensures
        encode_utf8(a + b) == encode_utf8(a) + encode_utf8(b),
    decreases a.len(),
{
    if a.len() == 0 {
        assert(a + b =~= b);
        assert(encode_utf8(a) + encode_utf8(b) =~= encode_utf8(b));
    } else {
        assert((a + b).drop_first() =~= a.drop_first() + b);
        bytes_concat(a.drop_first(), b);
        assert(encode_utf8(a + b) =~= encode_utf8(a) + encode_utf8(b));
    }
}

proof fn bytes_some(a: Seq<char>)
    requires
        a.len() > 0,
    ensures
        encode_utf8(a).len() > 0,
{
    assert(encode_scalar(a[0] as u32).len() > 0);
}

/// Texts of equally many bytes at the start of one text are equal.
proof fn starts_equal(x: Seq<char>, s: Seq<char>, y: Seq<char>, t: Seq<char>)
    requires
        x + s == y + t,
        encode_utf8(x).len() == encode_utf8(y).len(),
    ensures
        x == y,
        s == t,
{
    let p = x + s;
    if x.len() < y.len() {
        let more = y.skip(x.len() as int);
        assert(y.take(x.len() as int) =~= p.take(x.len() as int));
        assert(x =~= p.take(x.len() as int));
        assert(y =~= x + more);
        bytes_concat(x, more);
        bytes_some(more);
    } else if y.len() < x.len() {
        let more = x.skip(y.len() as int);
        assert(x.take(y.len() as int) =~= p.take(y.len() as int));
        assert(y =~= p.take(y.len() as int));
        assert(x =~= y + more);
        bytes_concat(y, more);
        bytes_some(more);
    }
    assert(x =~= p.take(x.len() as int));
    assert(y =~= p.take(x.len() as int));
    assert(s =~= p.skip(x.len() as int));
    assert(t =~= p.skip(x.len() as int));
}

/// A part at the start of a text can be read off.
proof fn part_reads(x: Seq<char>, s: Seq<char>, y: Seq<char>, t: Seq<char>)
    requires
        part_text(x) + s == part_text(y) + t,
    ensures
        x == y,
        s == t,
{
    reveal_strlit("|");
    reveal_strlit(":");
    let m = encode_utf8(x).len();
    let n = encode_utf8(y).len();
    decimal_round_trip(m);
    decimal_round_trip(n);
    let p = part_text(x) + s;
    let a = decimal(m);
    let b = decimal(n);
    assert("|"@.len() == 1 && ":"@.len() == 1);
    assert(part_text(x).len() == 2 + a.len() + x.len());
    assert(part_text(y).len() == 2 + b.len() + y.len());
    assert(p[1 + a.len() as int] == ':');
    assert((part_text(y) + t)[1 + b.len() as int] == ':');
    if a.len() < b.len() {
        assert((part_text(y) + t)[1 + a.len() as int] == b[a.len() as int]);
    } else if b.len() < a.len() {
        assert(p[1 + b.len() as int] == a[b.len() as int]);
    }
    assert(a =~= p.subrange(1, 1 + a.len() as int));
    assert(b =~= p.subrange(1, 1 + a.len() as int));
    decimal_injective(m, n);
    assert(x + s =~= p.skip(2 + a.len() as int));
    assert(y + t =~= p.skip(2 + a.len() as int));
    starts_equal(x, s, y, t);
}

/// Parts, one behind the other.
pub open spec fn coded(s: Seq<Seq<char>>) -> Seq<char>
    decreases s.len(),
{
    if s.len() == 0 {
        Seq::empty()
    } else {
        coded(s.drop_last()) + part_text(s.last())
    }
}

proof fn coded_front(s: Seq<Seq<char>>)
    requires
        s.len() > 0,
    ensures
        coded(s) == part_text(s[0]) + coded(s.drop_first()),
    decreases s.len(),
{
    if s.len() == 1 {
        assert(s.drop_last() =~= seq![]);
        assert(s.drop_first() =~= seq![]);
        assert(coded(seq![]) =~= seq![]);
        assert(coded(s) =~= part_text(s[0]));
        assert(part_text(s[0]) + coded(s.drop_first()) =~= part_text(s[0]));
    } else {
        coded_front(s.drop_last());
        assert(s.drop_first().drop_last() =~= s.drop_last().drop_first());
        assert(s.drop_first().last() == s.last());
        assert(coded(s) =~= part_text(s[0]) + coded(s.drop_first()));
    }
}

/// Parts can be read off the text that they make up.
pub proof fn coded_injective(s: Seq<Seq<char>>, t: Seq<Seq<char>>)
    requires
        coded(s) == coded(t),
    ensures
        s == t,
    decreases s.len(),
{
    reveal_strlit("|");
    if s.len() == 0 {
        if t.len() > 0 {
            coded_front(t);
            assert((part_text(t[0]) + coded(t.drop_first())).len() > 0);
        }
        assert(s =~= t);
    } else if t.len() == 0 {
        coded_front(s);
        assert((part_text(s[0]) + coded(s.drop_first())).len() > 0);
        assert(coded(t).len() == 0);
    } else {
        coded_front(s);
        coded_front(t);
        part_reads(s[0], coded(s.drop_first()), t[0], coded(t.drop_first()));
        coded_injective(s.drop_first(), t.drop_first());
        assert(s =~= seq![s[0]] + s.drop_first());
        assert(t =~= seq![t[0]] + t.drop_first());
    }
}

/// What a component's template holds of a member.
pub open spec fn member_parts(u: Unit, h: Hashes, i: int) -> Seq<Seq<char>> {
    seq![
        h.body[i],
        h.abi[i],
        joined(column(outside(u, h, i), 0), ","@),
        template_source(u, h, i),
    ]
}

/// What a component's template holds of the members that rows stand for.
pub open spec fn rows_parts(u: Unit, h: Hashes, rows: Seq<Row>) -> Seq<Seq<char>>
    decreases rows.len(),
{
    if rows.len() == 0 {
        Seq::empty()
    } else {
        rows_parts(u, h, rows.drop_last()) + member_parts(
            u,
            h,
            place(u.keys, rows.last()[2]) as int,
        )
    }
}

proof fn coded_four(s: Seq<Seq<char>>, a: Seq<char>, b: Seq<char>, c: Seq<char>, d: Seq<char>)
    ensures
        coded(s + seq![a, b, c, d]) == coded(s) + (part_text(a) + part_text(b) + part_text(c)
            + part_text(d)),
{
    let s1 = s.push(a);
    let s2 = s1.push(b);
    let s3 = s2.push(c);
    let s4 = s3.push(d);
    assert(s + seq![a, b, c, d] =~= s4);
    assert(s4.drop_last() =~= s3);
    assert(s3.drop_last() =~= s2);
    assert(s2.drop_last() =~= s1);
    assert(s1.drop_last() =~= s);
    assert(coded(s1) == coded(s) + part_text(a));
    assert(coded(s2) == coded(s1) + part_text(b));
    assert(coded(s3) == coded(s2) + part_text(c));
    assert(coded(s4) == coded(s3) + part_text(d));
    four_join(coded(s), part_text(a), part_text(b), part_text(c), part_text(d));
}

proof fn four_join(s: Seq<char>, a: Seq<char>, b: Seq<char>, c: Seq<char>, d: Seq<char>)
    ensures
        s + a + b + c + d == s + (a + b + c + d),
{
    assert(s + a + b + c + d =~= s + (a + b + c + d));
}

proof fn coded_member(s: Seq<Seq<char>>, u: Unit, h: Hashes, i: int)
    ensures
        coded(s + member_parts(u, h, i)) == coded(s) + member_text(u, h, i),
{
    coded_four(
        s,
        h.body[i],
        h.abi[i],
        joined(column(outside(u, h, i), 0), ","@),
        template_source(u, h, i),
    );
}

proof fn members_coded(u: Unit, h: Hashes, rows: Seq<Row>)
    ensures
        members_text(u, h, rows) == coded(rows_parts(u, h, rows)),
        rows_parts(u, h, rows).len() == 4 * rows.len(),
    decreases rows.len(),
{
    if rows.len() > 0 {
        members_coded(u, h, rows.drop_last());
        coded_member(
            rows_parts(u, h, rows.drop_last()),
            u,
            h,
            place(u.keys, rows.last()[2]) as int,
        );
    }
}

proof fn rows_parts_at(u: Unit, h: Hashes, rows: Seq<Row>, m: int)
    requires
        0 <= m < rows.len(),
    ensures
        rows_parts(u, h, rows).len() == 4 * rows.len(),
        rows_parts(u, h, rows).subrange(4 * m, 4 * m + 4) == member_parts(
            u,
            h,
            place(u.keys, rows[m][2]) as int,
        ),
    decreases rows.len(),
{
    members_coded(u, h, rows);
    members_coded(u, h, rows.drop_last());
    let front = rows_parts(u, h, rows.drop_last());
    let all = rows_parts(u, h, rows);
    if m == rows.len() - 1 {
        assert(all.subrange(4 * m, 4 * m + 4) =~= member_parts(
            u,
            h,
            place(u.keys, rows.last()[2]) as int,
        ));
    } else {
        rows_parts_at(u, h, rows.drop_last(), m);
        assert(all.subrange(4 * m, 4 * m + 4) =~= front.subrange(4 * m, 4 * m + 4));
    }
}

/// Functions with the same address stand at the same place of components with
/// the same template.
proof fn templates_equal(
    u: Unit,
    v: Unit,
    book: Seq<(Request, Seq<char>)>,
    g: Hashes,
    h: Hashes,
    i: int,
    j: int,
)
    requires
        collision_free(book),
        addresses(u, book, g),
        addresses(v, book, h),
        0 <= i < u.keys.len(),
        0 <= j < v.keys.len(),
        g.artifact[i] == h.artifact[j],
    ensures
        slot(u, g, i) == slot(v, h, j),
        ordered_rows(u, g, i).len() == ordered_rows(v, h, j).len(),
        rows_parts(u, g, ordered_rows(u, g, i)) == rows_parts(v, h, ordered_rows(v, h, j)),
{
    assert(settled(u, book, g, i) && settled(v, book, h, j));
    let p = artifact_request(u, g, i);
    let q = artifact_request(v, h, j);
    assert(known(book, p) == known(book, q));
    assert(p == q);
    assert(p.1[0] == q.1[0] && p.1[1] == q.1[1]);
    decimal_injective(slot(u, g, i), slot(v, h, j));
    let a = ordered_rows(u, g, i);
    let b = ordered_rows(v, h, j);
    let head = "schema:"@ + "lux-artifact-v2"@ + "|target:"@ + "beam"@ + "|backend:"@
        + "erlang-core"@ + "|members:"@;
    assert(members_text(u, g, a) =~= component_text(u, g, i).skip(head.len() as int));
    assert(members_text(v, h, b) =~= component_text(v, h, j).skip(head.len() as int));
    members_coded(u, g, a);
    members_coded(v, h, b);
    coded_injective(rows_parts(u, g, a), rows_parts(v, h, b));
}

/// The function of a unit that a row of a component stands for.
pub open spec fn member_at(u: Unit, h: Hashes, i: int, m: int) -> int {
    place(u.keys, ordered_rows(u, h, i)[m][2]) as int
}

proof fn members_equal(
    u: Unit,
    v: Unit,
    book: Seq<(Request, Seq<char>)>,
    g: Hashes,
    h: Hashes,
    i: int,
    j: int,
    m: int,
)
    requires
        collision_free(book),
        addresses(u, book, g),
        addresses(v, book, h),
        0 <= i < u.keys.len(),
        0 <= j < v.keys.len(),
        g.artifact[i] == h.artifact[j],
        0 <= m < ordered_rows(u, g, i).len(),
    ensures
        ordered_rows(u, g, i).len() == ordered_rows(v, h, j).len(),
        member_parts(u, g, member_at(u, g, i, m)) == member_parts(v, h, member_at(v, h, j, m)),
{
    templates_equal(u, v, book, g, h, i, j);
    rows_parts_at(u, g, ordered_rows(u, g, i), m);
    rows_parts_at(v, h, ordered_rows(v, h, j), m);
}

/// A member of a component has a row in it.
proof fn member_found(u: Unit, h: Hashes, i: int, c: int) -> (m: int)
    requires
        whole(u),
        0 <= i < u.keys.len(),
        0 <= c < u.keys.len(),
        same_component(u.calls, i, c),
    ensures
        0 <= m < ordered_rows(u, h, i).len(),
        member_at(u, h, i, m) == c,
        ordered_rows(u, h, i)[m][2] == u.keys[c],
{
    broadcast use vstd::seq_lib::group_to_multiset_ensures;

    let all = member_rows(u, h, i, u.keys.len());
    lemma_has_member(u, h, i, u.keys.len(), c);
    sorting_orders(all);
    let row = seq![h.body[c], h.abi[c], u.keys[c]];
    let rows = ordered_rows(u, h, i);
    assert(all.to_multiset().count(row) > 0);
    assert(rows.to_multiset().count(row) > 0);
    assert(rows.contains(row));
    let m = choose|m: int| 0 <= m < rows.len() && rows[m] == row;
    lemma_place_found(u.keys, u.keys[c]);
    m
}

/// A function stands in its component at its slot.
proof fn own_row(u: Unit, h: Hashes, i: int)
    requires
        whole(u),
        0 <= i < u.keys.len(),
    ensures
        slot(u, h, i) < ordered_rows(u, h, i).len(),
        member_at(u, h, i, slot(u, h, i) as int) == i,
{
    let rows = ordered_rows(u, h, i);
    reaches_itself(u.calls, i);
    let m = member_found(u, h, i, i);
    assert(column(rows, 2)[m] == u.keys[i]);
    lemma_place_found(column(rows, 2), u.keys[i]);
    lemma_place_found(u.keys, u.keys[i]);
}

/// Functions with the same address have the same fingerprints and the same
/// template, and call the same addresses outside their components.
pub proof fn same_address_same_content(
    u: Unit,
    v: Unit,
    book: Seq<(Request, Seq<char>)>,
    g: Hashes,
    h: Hashes,
    i: int,
    j: int,
)
    requires
        whole(u),
        whole(v),
        collision_free(book),
        addresses(u, book, g),
        addresses(v, book, h),
        0 <= i < u.keys.len(),
        0 <= j < v.keys.len(),
        g.artifact[i] == h.artifact[j],
    ensures
        function_print(u.funcs[i], locals_for(u.keys, u.keys[i])).0 == function_print(
            v.funcs[j],
            locals_for(v.keys, v.keys[j]),
        ).0,
        abi_print(u.funcs[i]) == abi_print(v.funcs[j]),
        template_source(u, g, i) == template_source(v, h, j),
        joined(column(outside(u, g, i), 0), ","@) == joined(column(outside(v, h, j), 0), ","@),
{
    templates_equal(u, v, book, g, h, i, j);
    own_row(u, g, i);
    own_row(v, h, j);
    members_equal(u, v, book, g, h, i, j, slot(u, g, i) as int);
    let a = member_parts(u, g, i);
    let b = member_parts(v, h, j);
    assert(a[0] == b[0] && a[1] == b[1] && a[2] == b[2] && a[3] == b[3]);
    same_body_same_print(u, v, book, g, h, i, j);
}

proof fn same_body_same_print(
    u: Unit,
    v: Unit,
    book: Seq<(Request, Seq<char>)>,
    g: Hashes,
    h: Hashes,
    i: int,
    j: int,
)
    requires
        collision_free(book),
        addresses(u, book, g),
        addresses(v, book, h),
        0 <= i < u.keys.len(),
        0 <= j < v.keys.len(),
        g.body[i] == h.body[j],
        g.abi[i] == h.abi[j],
    ensures
        function_print(u.funcs[i], locals_for(u.keys, u.keys[i])).0 == function_print(
            v.funcs[j],
            locals_for(v.keys, v.keys[j]),
        ).0,
        abi_print(u.funcs[i]) == abi_print(v.funcs[j]),
{
    assert(known(book, body_request(u, i)) == Some(g.body[i]));
    assert(known(book, body_request(v, j)) == Some(h.body[j]));
    assert(body_request(u, i) == body_request(v, j));
    assert(body_request(u, i).1[0] == body_request(v, j).1[0]);
    assert(abi_request(u, i) == abi_request(v, j));
    assert(abi_request(u, i).1[0] == abi_request(v, j).1[0]);
}

/// A list of texts without commas can be read off the text that joins them.
pub proof fn joined_injective(a: Seq<Seq<char>>, b: Seq<Seq<char>>)
    requires
        listable(a),
        listable(b),
        joined(a, ","@) == joined(b, ","@),
    ensures
        a == b,
    decreases a.len(),
{
    reveal_strlit(",");
    assert(","@.len() == 1 && ","@[0] == ',');
    let p = joined(a, ","@);
    if a.len() == 0 {
        if b.len() == 1 {
            assert(b[0].len() > 0);
        } else if b.len() > 1 {
            assert((joined(b.drop_last(), ","@) + ","@ + b.last()).len() > 0);
        }
        assert(a =~= b);
    } else if b.len() == 0 {
        if a.len() == 1 {
            assert(a[0].len() > 0);
        } else {
            assert((joined(a.drop_last(), ","@) + ","@ + a.last()).len() > 0);
        }
        assert(a =~= b);
    } else if a.len() == 1 && b.len() == 1 {
        assert(a =~= b);
    } else if a.len() == 1 {
        let x = joined(b.drop_last(), ","@);
        assert(p[x.len() as int] == ',');
        assert(a[0].contains(','));
    } else if b.len() == 1 {
        let x = joined(a.drop_last(), ","@);
        assert(p[x.len() as int] == ',');
        assert(b[0].contains(','));
    } else {
        let x = joined(a.drop_last(), ","@);
        let y = joined(b.drop_last(), ","@);
        assert(p.len() == x.len() + 1 + a.last().len());
        assert(p.len() == y.len() + 1 + b.last().len());
        assert(p[x.len() as int] == ',');
        assert((y + ","@ + b.last())[y.len() as int] == ',');
        if x.len() < y.len() {
            assert(p[y.len() as int] == a.last()[y.len() - x.len() - 1]);
            assert(a.last().contains(','));
            assert(a[a.len() - 1].contains(','));
        } else if y.len() < x.len() {
            assert(p[x.len() as int] == b.last()[x.len() - y.len() - 1]);
            assert(b.last().contains(','));
            assert(b[b.len() - 1].contains(','));
        }
        assert(x =~= p.take(x.len() as int));
        assert(y =~= p.take(x.len() as int));
        assert(a.last() =~= p.skip(x.len() as int + 1));
        assert(b.last() =~= p.skip(x.len() as int + 1));
        assert(listable(a.drop_last())) by {
            assert forall|i: int| 0 <= i < a.drop_last().len() implies (
            #[trigger] a.drop_last()[i]).len() > 0 && !a.drop_last()[i].contains(',') by {
                assert(a.drop_last()[i] == a[i]);
            }
        }
        assert(listable(b.drop_last())) by {
            assert forall|i: int| 0 <= i < b.drop_last().len() implies (
            #[trigger] b.drop_last()[i]).len() > 0 && !b.drop_last()[i].contains(',') by {
                assert(b.drop_last()[i] == b[i]);
            }
        }
        joined_injective(a.drop_last(), b.drop_last());
        assert(a =~= a.drop_last().push(a.last()));
        assert(b =~= b.drop_last().push(b.last()));
    }
}

/// Whether `c` is called by function `i` and lies outside its component.
pub open spec fn calls_outside(u: Unit, i: int, c: int) -> bool {
    exists|p: int|
        0 <= p < u.calls[i].len() && #[trigger] u.calls[i][p] == c && !same_component(u.calls, i, c)
}

proof fn outside_row_of(u: Unit, h: Hashes, i: int, k: nat, m: int) -> (c: int)
    requires
        k <= u.calls[i].len(),
        0 <= m < outside_rows(u, h, i, k).len(),
    ensures
        calls_outside(u, i, c),
        outside_rows(u, h, i, k)[m][0] == h.artifact[c],
    decreases k,
{
    let front = outside_rows(u, h, i, (k - 1) as nat);
    if m < front.len() {
        assert(outside_rows(u, h, i, k)[m] == front[m]);
        outside_row_of(u, h, i, (k - 1) as nat, m)
    } else {
        assert(u.calls[i][k - 1] == u.calls[i][k - 1]);
        u.calls[i][k - 1]
    }
}

proof fn outside_has_row(u: Unit, h: Hashes, i: int, k: nat, p: int)
    requires
        0 <= p < k <= u.calls[i].len(),
        !same_component(u.calls, i, u.calls[i][p]),
    ensures
        exists|m: int|
            0 <= m < outside_rows(u, h, i, k).len() && (#[trigger] outside_rows(
                u,
                h,
                i,
                k,
            )[m])[0] == h.artifact[u.calls[i][p]],
    decreases k,
{
    let front = outside_rows(u, h, i, (k - 1) as nat);
    let all = outside_rows(u, h, i, k);
    if p == k - 1 {
        assert(all[all.len() - 1][0] == h.artifact[u.calls[i][p]]);
    } else {
        outside_has_row(u, h, i, (k - 1) as nat, p);
        let m = choose|m: int|
            0 <= m < front.len() && (#[trigger] front[m])[0] == h.artifact[u.calls[i][p]];
        assert(all[m] == front[m]);
    }
}

/// The addresses of the callees outside the component are those of its list.
proof fn outside_column(u: Unit, h: Hashes, i: int)
    requires
        whole(u),
        0 <= i < u.keys.len(),
    ensures
        forall|c: int| #[trigger]
            calls_outside(u, i, c) ==> column(outside(u, h, i), 0).contains(h.artifact[c]),
        forall|m: int|
            0 <= m < outside(u, h, i).len() ==> exists|c: int|
                calls_outside(u, i, c) && (#[trigger] column(outside(u, h, i), 0)[m])
                    == #[trigger] h.artifact[c],
{
    broadcast use vstd::seq_lib::group_to_multiset_ensures;

    let n = u.calls[i].len();
    let all = outside_rows(u, h, i, n);
    let rows = outside(u, h, i);
    sorting_orders(all);
    assert forall|c: int| #[trigger] calls_outside(u, i, c) implies column(rows, 0).contains(
        h.artifact[c],
    ) by {
        let p = choose|p: int|
            0 <= p < u.calls[i].len() && #[trigger] u.calls[i][p] == c && !same_component(
                u.calls,
                i,
                c,
            );
        outside_has_row(u, h, i, n, p);
        let m = choose|m: int| 0 <= m < all.len() && (#[trigger] all[m])[0] == h.artifact[c];
        assert(all.contains(all[m]));
        assert(rows.to_multiset().count(all[m]) > 0);
        assert(rows.contains(all[m]));
        let k = choose|k: int| 0 <= k < rows.len() && rows[k] == all[m];
        assert(column(rows, 0)[k] == h.artifact[c]);
    }
    assert forall|m: int| 0 <= m < rows.len() implies exists|c: int|
        calls_outside(u, i, c) && (#[trigger] column(rows, 0)[m]) == #[trigger] h.artifact[c] by {
        assert(rows.contains(rows[m]));
        assert(rows.to_multiset().count(rows[m]) > 0);
        assert(all.contains(rows[m]));
        let k = choose|k: int| 0 <= k < all.len() && all[k] == rows[m];
        let c = outside_row_of(u, h, i, n, k);
        assert(column(rows, 0)[m] == h.artifact[c]);
    }
}

/// Whether `d` is reached by function `j` of `v` and has the fingerprint that
/// `c` has in `u`.
pub open spec fn has_image(u: Unit, v: Unit, c: int, j: int, d: int) -> bool {
    &&& 0 <= d < v.keys.len()
    &&& reaches(v.calls, j, d)
    &&& function_print(v.funcs[d], locals_for(v.keys, v.keys[d])).0 == function_print(
        u.funcs[c],
        locals_for(u.keys, u.keys[c]),
    ).0
    &&& abi_print(v.funcs[d]) == abi_print(u.funcs[c])
}

/// What a function reaches outside its component, it reaches through a call
/// that leads out of the component.
proof fn way_out(g: Graph, i: int, c: int) -> (w: (int, int))
    requires
        is_graph(g),
        0 <= i < g.len(),
        reaches(g, i, c),
        !same_component(g, i, c),
    ensures
        0 <= w.0 < g.len(),
        same_component(g, i, w.0),
        0 <= w.1 < g[w.0].len(),
        !same_component(g, w.0, g[w.0][w.1]),
        reaches(g, g[w.0][w.1], c),
{
    let s = Set::new(|x: int| (0 <= x < g.len() && same_component(g, i, x)) || leads_to(g, i, x));
    reaches_itself(g, i);
    assert(s.contains(i));
    assert forall|a: int, k: int|
        s.contains(a) && 0 <= a < g.len() && 0 <= k < g[a].len() implies s.contains(
        #[trigger] g[a][k],
    ) by {
        let b = g[a][k];
        reaches_edge(g, a, k);
        if leads_to(g, i, a) {
            let (m, p) = choose|m: int, p: int| #[trigger] exit(g, i, m, p) && reaches(g, g[m][p], a);
            reaches_transitive(g, g[m][p], a, b);
            assert(exit(g, i, m, p) && reaches(g, g[m][p], b));
        } else if same_component(g, a, b) {
            component_equivalence(g, i, a, b);
        } else {
            reaches_itself(g, b);
            assert(exit(g, i, a, k) && reaches(g, g[a][k], b));
        }
    }
    assert(closed(g, s));
    assert(s.contains(c));
    let (m, p) = choose|m: int, p: int| #[trigger] exit(g, i, m, p) && reaches(g, g[m][p], c);
    (m, p)
}

/// Whether a call leads out of the component of `i`.
spec fn exit(g: Graph, i: int, m: int, p: int) -> bool {
    &&& 0 <= m < g.len()
    &&& same_component(g, i, m)
    &&& 0 <= p < g[m].len()
    &&& !same_component(g, m, g[m][p])
}

spec fn leads_to(g: Graph, i: int, x: int) -> bool {
    exists|m: int, p: int| #[trigger] exit(g, i, m, p) && reaches(g, g[m][p], x)
}

proof fn graph_of_whole(u: Unit)
    requires
        whole(u),
    ensures
        is_graph(u.calls),
{
    assert forall|i: int, k: int| 0 <= i < u.calls.len() && 0 <= k < u.calls[i].len() implies 0
        <= #[trigger] u.calls[i][k] < u.calls.len() by {
        lemma_places_in_range(
            u.keys,
            function_print(u.funcs[i], locals_for(u.keys, u.keys[i])).1,
        );
    }
}

/// A function's address covers everything that it reaches, directly or through
/// others: if two functions have the same address, then for each function that
/// the one reaches the other reaches one with the same fingerprints. So a
/// change of a function anywhere below changes the address.
pub proof fn same_address_same_dependencies(
    u: Unit,
    v: Unit,
    book: Seq<(Request, Seq<char>)>,
    g: Hashes,
    h: Hashes,
    i: int,
    j: int,
    c: int,
)
    requires
        whole(u),
        whole(v),
        collision_free(book),
        addresses(u, book, g),
        addresses(v, book, h),
        listable(g.artifact),
        listable(h.artifact),
        0 <= i < u.keys.len(),
        0 <= j < v.keys.len(),
        0 <= c < u.keys.len(),
        g.artifact[i] == h.artifact[j],
        reaches(u.calls, i, c),
    ensures
        exists|d: int| #[trigger] has_image(u, v, c, j, d),
    decreases reach_count(u.calls, i, u.calls.len()),
{
    graph_of_whole(u);
    graph_of_whole(v);
    lemma_ordered_members(v, h, j);
    if same_component(u.calls, i, c) {
        let m = member_found(u, g, i, c);
        members_equal(u, v, book, g, h, i, j, m);
        let d = member_at(v, h, j, m);
        assert(same_component(v.calls, j, place(v.keys, ordered_rows(v, h, j)[m][2]) as int));
        let a = member_parts(u, g, c);
        let b = member_parts(v, h, d);
        assert(a[0] == b[0] && a[1] == b[1]);
        same_body_same_print(u, v, book, g, h, c, d);
        assert(has_image(u, v, c, j, d));
    } else {
        let (k, p) = way_out(u.calls, i, c);
        let o = u.calls[k][p];
        let m = member_found(u, g, i, k);
        members_equal(u, v, book, g, h, i, j, m);
        let l = member_at(v, h, j, m);
        assert(same_component(v.calls, j, place(v.keys, ordered_rows(v, h, j)[m][2]) as int));
        let a = member_parts(u, g, k);
        let b = member_parts(v, h, l);
        assert(a[2] == b[2]);
        outside_column(u, g, k);
        outside_column(v, h, l);
        let s = column(outside(u, g, k), 0);
        let t = column(outside(v, h, l), 0);
        assert(calls_outside(u, k, o));
        listable_column(u, g, k);
        listable_column(v, h, l);
        joined_injective(s, t);
        assert(s.contains(g.artifact[o]));
        let q = choose|q: int| 0 <= q < s.len() && s[q] == g.artifact[o];
        assert(column(outside(v, h, l), 0)[q] == g.artifact[o]);
        let x = choose|x: int|
            calls_outside(v, l, x) && (#[trigger] column(outside(v, h, l), 0)[q])
                == #[trigger] h.artifact[x];
        let y = choose|y: int|
            0 <= y < v.calls[l].len() && #[trigger] v.calls[l][y] == x && !same_component(
                v.calls,
                l,
                x,
            );
        reaches_edge(u.calls, k, p);
        dependencies_reach_less(u.calls, i, k);
        dependencies_reach_less(u.calls, k, o);
        same_address_same_dependencies(u, v, book, g, h, o, x, c);
        let d = choose|d: int| #[trigger] has_image(u, v, c, x, d);
        reaches_edge(v.calls, l, y);
        reaches_transitive(v.calls, j, l, x);
        reaches_transitive(v.calls, j, x, d);
        assert(has_image(u, v, c, j, d));
    }
}

proof fn listable_column(u: Unit, h: Hashes, i: int)
    requires
        whole(u),
        0 <= i < u.keys.len(),
        h.artifact.len() == u.keys.len(),
        listable(h.artifact),
    ensures
        listable(column(outside(u, h, i), 0)),
{
    graph_of_whole(u);
    outside_column(u, h, i);
    let s = column(outside(u, h, i), 0);
    assert forall|m: int| 0 <= m < s.len() implies (#[trigger] s[m]).len() > 0 && !s[m].contains(
        ',',
    ) by {
        let c = choose|c: int| calls_outside(u, i, c) && s[m] == #[trigger] h.artifact[c];
        let p = choose|p: int|
            0 <= p < u.calls[i].len() && #[trigger] u.calls[i][p] == c && !same_component(
                u.calls,
                i,
                c,
            );
        assert(0 <= c < h.artifact.len());
    }
}

} // verus!
