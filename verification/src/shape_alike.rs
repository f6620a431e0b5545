//! The terms that translations are made of are alike if their parts are.
use vstd::prelude::*;
use crate::builtins::{builtin, special0, special1, special2, special3, special4};
use crate::canon::binder_names;
use crate::core_alike::{
    alike, all_alike, clause_alike, clauses_alike, consistent, entries_alike, pat_alike, pat_pairs,
    pats_alike, pats_pairs, same_binder, same_binders, segments_alike, values_alike, with_binder,
    with_binders, Kept, Pairs,
};
use crate::decode;
use crate::erlang::{Clause, Core, Pat};
use crate::fresh::fresh_name;
use crate::shape;
use crate::swap_shape::introduced;

verus! {

/// The names that a translation introduces stay.
#[verifier::inline]
pub open spec fn own() -> Kept {
    Kept::Introduced
}

pub broadcast proof fn fresh_introduced(n: nat)
    ensures
        #[trigger] introduced(fresh_name(n)),
{
}

/// The fixed variables of translations.
pub proof fn fixed_introduced()
    ensures
        introduced("_"@),
        introduced("_Class"@),
        introduced("_Reason"@),
        introduced("_FinalIndex"@),
{
}

/// Whether a pattern is one whose variables a translation introduces.
pub open spec fn is_fixed(p: Pat) -> bool {
    pat_alike(own(), p, p) && pat_pairs(own(), p, p).len() == 0
}

pub broadcast proof fn atom_alike(s: Seq<char>, ps: Pairs)
    ensures
        #[trigger] alike(own(), shape::atom(s), shape::atom(s), ps),
{
}

pub broadcast proof fn num_alike(n: int, ps: Pairs)
    ensures
        #[trigger] alike(own(), shape::num(n), shape::num(n), ps),
{
}

pub broadcast proof fn string_alike(s: Seq<char>, ps: Pairs)
    ensures
        #[trigger] alike(own(), shape::string(s), shape::string(s), ps),
{
}

pub broadcast proof fn nil_alike(ps: Pairs)
    ensures
        #[trigger] alike(own(), shape::nil(), shape::nil(), ps),
{
}

pub broadcast proof fn empty_map_alike(ps: Pairs)
    ensures
        #[trigger] alike(own(), shape::empty_map(), shape::empty_map(), ps),
{
    assert(entries_alike(own(), Seq::empty(), Seq::empty(), ps));
}

pub broadcast proof fn var_alike(s: Seq<char>, ps: Pairs)
    requires
        introduced(s),
    ensures
        #[trigger] alike(own(), shape::var(s), shape::var(s), ps),
{
}

pub broadcast proof fn cons_alike(a: Core, b: Core, w: Core, x: Core, ps: Pairs)
    requires
        alike(own(), a, w, ps),
        alike(own(), b, x, ps),
    ensures
        #[trigger] alike(own(), shape::cons(a, b), shape::cons(w, x), ps),
{
}

pub broadcast proof fn tup1_alike(a: Core, w: Core, ps: Pairs)
    requires
        alike(own(), a, w, ps),
    ensures
        #[trigger] alike(own(), shape::tup1(a), shape::tup1(w), ps),
{
    assert(all_alike(own(), seq![a], seq![w], ps));
}

pub broadcast proof fn tup2_alike(a: Core, b: Core, w: Core, x: Core, ps: Pairs)
    requires
        alike(own(), a, w, ps),
        alike(own(), b, x, ps),
    ensures
        #[trigger] alike(own(), shape::tup2(a, b), shape::tup2(w, x), ps),
{
    assert(all_alike(own(), seq![a, b], seq![w, x], ps));
}

pub broadcast proof fn tup3_alike(a: Core, b: Core, c: Core, w: Core, x: Core, y: Core, ps: Pairs)
    requires
        alike(own(), a, w, ps),
        alike(own(), b, x, ps),
        alike(own(), c, y, ps),
    ensures
        #[trigger] alike(own(), shape::tup3(a, b, c), shape::tup3(w, x, y), ps),
{
    assert(all_alike(own(), seq![a, b, c], seq![w, x, y], ps));
}

pub broadcast proof fn call0_alike(m: Seq<char>, f: Seq<char>, ps: Pairs)
    ensures
        #[trigger] alike(own(), shape::call0(m, f), shape::call0(m, f), ps),
{
    assert(all_alike(own(), Seq::empty(), Seq::empty(), ps));
}

pub broadcast proof fn call1_alike(m: Seq<char>, f: Seq<char>, a: Core, w: Core, ps: Pairs)
    requires
        alike(own(), a, w, ps),
    ensures
        #[trigger] alike(own(), shape::call1(m, f, a), shape::call1(m, f, w), ps),
{
    assert(all_alike(own(), seq![a], seq![w], ps));
}

pub broadcast proof fn call2_alike(
    m: Seq<char>,
    f: Seq<char>,
    a: Core,
    b: Core,
    w: Core,
    x: Core,
    ps: Pairs,
)
    requires
        alike(own(), a, w, ps),
        alike(own(), b, x, ps),
    ensures
        #[trigger] alike(own(), shape::call2(m, f, a, b), shape::call2(m, f, w, x), ps),
{
    assert(all_alike(own(), seq![a, b], seq![w, x], ps));
}

pub broadcast proof fn call3_alike(
    m: Seq<char>,
    f: Seq<char>,
    a: Core,
    b: Core,
    c: Core,
    w: Core,
    x: Core,
    y: Core,
    ps: Pairs,
)
    requires
        alike(own(), a, w, ps),
        alike(own(), b, x, ps),
        alike(own(), c, y, ps),
    ensures
        #[trigger] alike(own(), shape::call3(m, f, a, b, c), shape::call3(m, f, w, x, y), ps),
{
    assert(all_alike(own(), seq![a, b, c], seq![w, x, y], ps));
}

pub broadcast proof fn call4_alike(
    m: Seq<char>,
    f: Seq<char>,
    a: Core,
    b: Core,
    c: Core,
    d: Core,
    w: Core,
    x: Core,
    y: Core,
    z: Core,
    ps: Pairs,
)
    requires
        alike(own(), a, w, ps),
        alike(own(), b, x, ps),
        alike(own(), c, y, ps),
        alike(own(), d, z, ps),
    ensures
        #[trigger] alike(own(), shape::call4(m, f, a, b, c, d), shape::call4(m, f, w, x, y, z), ps),
{
    assert(all_alike(own(), seq![a, b, c, d], seq![w, x, y, z], ps));
}

pub broadcast proof fn apply1_alike(a: Core, b: Core, w: Core, x: Core, ps: Pairs)
    requires
        alike(own(), a, w, ps),
        alike(own(), b, x, ps),
    ensures
        #[trigger] alike(own(), shape::apply1(a, b), shape::apply1(w, x), ps),
{
    assert(all_alike(own(), seq![b], seq![x], ps));
}

pub broadcast proof fn sequence_alike(a: Core, b: Core, w: Core, x: Core, ps: Pairs)
    requires
        alike(own(), a, w, ps),
        alike(own(), b, x, ps),
    ensures
        #[trigger] alike(own(), shape::sequence(a, b), shape::sequence(w, x), ps),
{
}

proof fn one_binder(ps: Pairs, x: Seq<char>, y: Seq<char>)
    ensures
        with_binders(own(), ps, seq![x], seq![y]) == with_binder(own(), ps, x, y),
{
    assert(seq![x].drop_last() =~= Seq::empty());
    assert(seq![y].drop_last() =~= Seq::empty());
    assert(with_binders(own(), ps, Seq::empty(), Seq::empty()) == ps);
}

pub proof fn fixed_binders(ps: Pairs, s: Seq<Seq<char>>)
    requires
        forall|i: int| 0 <= i < s.len() ==> introduced(#[trigger] s[i]),
    ensures
        with_binders(own(), ps, s, s) == ps,
        same_binders(own(), s, s),
    decreases s.len(),
{
    if s.len() > 0 {
        assert forall|i: int| 0 <= i < s.len() - 1 implies introduced(
            #[trigger] s.drop_last()[i],
        ) by {
            assert(introduced(s[i]));
        }
        fixed_binders(ps, s.drop_last());
        assert(introduced(s[s.len() - 1]));
    }
}

pub broadcast proof fn let1_alike(
    x: Seq<char>,
    y: Seq<char>,
    a: Core,
    b: Core,
    v: Core,
    w: Core,
    ps: Pairs,
)
    requires
        same_binder(own(), x, y),
        alike(own(), a, v, ps),
        alike(own(), b, w, with_binder(own(), ps, x, y)),
    ensures
        #[trigger] alike(own(), shape::let1(x, a, b), shape::let1(y, v, w), ps),
{
    let s = seq![(x, a)];
    let t = seq![(y, v)];
    assert(binder_names(s) =~= seq![x]);
    assert(binder_names(t) =~= seq![y]);
    one_binder(ps, x, y);
    assert(same_binders(own(), seq![x], seq![y]));
    assert(values_alike(own(), s, t, ps));
}

pub broadcast proof fn fun1_alike(x: Seq<char>, y: Seq<char>, b: Core, w: Core, ps: Pairs)
    requires
        same_binder(own(), x, y),
        alike(own(), b, w, with_binder(own(), ps, x, y)),
    ensures
        #[trigger] alike(own(), shape::fun1(x, b), shape::fun1(y, w), ps),
{
    one_binder(ps, x, y);
    assert(same_binders(own(), seq![x], seq![y]));
}

pub broadcast proof fn fun2_alike(x: Seq<char>, y: Seq<char>, b: Core, w: Core, ps: Pairs)
    requires
        introduced(x),
        introduced(y),
        alike(own(), b, w, ps),
    ensures
        #[trigger] alike(own(), shape::fun2(x, y, b), shape::fun2(x, y, w), ps),
{
    fixed_binders(ps, seq![x, y]);
}

pub broadcast proof fn fun3_alike(
    x: Seq<char>,
    y: Seq<char>,
    z: Seq<char>,
    b: Core,
    w: Core,
    ps: Pairs,
)
    requires
        introduced(x),
        introduced(y),
        introduced(z),
        alike(own(), b, w, ps),
    ensures
        #[trigger] alike(own(), shape::fun3(x, y, z, b), shape::fun3(x, y, z, w), ps),
{
    fixed_binders(ps, seq![x, y, z]);
}

pub broadcast proof fn raise_alike(x: Seq<char>, y: Seq<char>, ps: Pairs)
    requires
        introduced(x),
        introduced(y),
    ensures
        #[trigger] alike(own(), shape::raise(x, y), shape::raise(x, y), ps),
{
    var_alike(x, ps);
    var_alike(y, ps);
    let s = seq![shape::var(x), shape::var(y)];
    assert(all_alike(own(), s, s, ps));
}

pub broadcast proof fn patom_fixed(s: Seq<char>)
    ensures
        #[trigger] is_fixed(shape::patom(s)),
{
}

pub broadcast proof fn pvar_fixed(s: Seq<char>)
    requires
        introduced(s),
    ensures
        #[trigger] is_fixed(shape::pvar(s)),
{
}

pub broadcast proof fn ptup2_fixed(p: Pat, q: Pat)
    requires
        is_fixed(p),
        is_fixed(q),
    ensures
        #[trigger] is_fixed(shape::ptup2(p, q)),
{
    let s = seq![p, q];
    assert(s.drop_last() =~= seq![p]);
    assert(seq![p].drop_last() =~= Seq::empty());
    assert(pats_alike(own(), Seq::empty(), Seq::empty()));
    assert(pats_alike(own(), seq![p], seq![p]));
    assert(pats_alike(own(), s, s));
    assert(pats_pairs(own(), Seq::empty(), Seq::empty()).len() == 0);
    assert(pats_pairs(own(), seq![p], seq![p]).len() == 0);
    assert(pats_pairs(own(), s, s).len() == 0);
}

pub broadcast proof fn ptag_fixed(t: Seq<char>, x: Seq<char>)
    requires
        introduced(x),
    ensures
        #[trigger] is_fixed(shape::ptag(t, x)),
{
    patom_fixed(t);
    pvar_fixed(x);
    ptup2_fixed(shape::patom(t), shape::pvar(x));
}

/// A clause of one pattern.
pub proof fn clause1_alike(p: Pat, q: Pat, a: Core, b: Core, v: Core, w: Core, ps: Pairs)
    requires
        pat_alike(own(), p, q),
        consistent(pat_pairs(own(), p, q)),
        alike(own(), a, v, ps + pat_pairs(own(), p, q)),
        alike(own(), b, w, ps + pat_pairs(own(), p, q)),
    ensures
        clause_alike(own(), shape::guarded(p, a, b), shape::guarded(q, v, w), ps),
{
    assert(seq![p].drop_last() =~= Seq::empty());
    assert(seq![q].drop_last() =~= Seq::empty());
    assert(pats_alike(own(), Seq::empty(), Seq::empty()));
    assert(pats_pairs(own(), Seq::empty(), Seq::empty()) =~= Seq::empty());
    assert(pats_pairs(own(), seq![p], seq![q]) =~= pat_pairs(own(), p, q));
}

pub broadcast proof fn guarded_alike(p: Pat, a: Core, b: Core, v: Core, w: Core, ps: Pairs)
    requires
        is_fixed(p),
        alike(own(), a, v, ps),
        alike(own(), b, w, ps),
    ensures
        #[trigger] clause_alike(own(), shape::guarded(p, a, b), shape::guarded(p, v, w), ps),
{
    assert(ps + pat_pairs(own(), p, p) =~= ps);
    clause1_alike(p, p, a, b, v, w, ps);
}

pub broadcast proof fn when_alike(p: Pat, b: Core, w: Core, ps: Pairs)
    requires
        is_fixed(p),
        alike(own(), b, w, ps),
    ensures
        #[trigger] clause_alike(own(), shape::when(p, b), shape::when(p, w), ps),
{
    atom_alike("true"@, ps);
    guarded_alike(p, shape::atom("true"@), b, shape::atom("true"@), w, ps);
}

pub broadcast proof fn case1_alike(x: Core, y: Core, a: Clause, c: Clause, ps: Pairs)
    requires
        alike(own(), x, y, ps),
        clause_alike(own(), a, c, ps),
    ensures
        #[trigger] alike(own(), shape::case1(x, a), shape::case1(y, c), ps),
{
    assert(clauses_alike(own(), seq![a], seq![c], ps));
}

pub broadcast proof fn case2_alike(
    x: Core,
    y: Core,
    a: Clause,
    b: Clause,
    c: Clause,
    d: Clause,
    ps: Pairs,
)
    requires
        alike(own(), x, y, ps),
        clause_alike(own(), a, c, ps),
        clause_alike(own(), b, d, ps),
    ensures
        #[trigger] alike(own(), shape::case2(x, a, b), shape::case2(y, c, d), ps),
{
    assert(clauses_alike(own(), seq![a, b], seq![c, d], ps));
}

pub broadcast proof fn if_else_alike(
    a: Core,
    b: Core,
    c: Core,
    w: Core,
    x: Core,
    y: Core,
    ps: Pairs,
)
    requires
        alike(own(), a, w, ps),
        alike(own(), b, x, ps),
        alike(own(), c, y, ps),
    ensures
        #[trigger] alike(own(), shape::if_else(a, b, c), shape::if_else(w, x, y), ps),
{
    patom_fixed("true"@);
    patom_fixed("false"@);
    when_alike(shape::patom("true"@), b, x, ps);
    when_alike(shape::patom("false"@), c, y, ps);
    case2_alike(
        a,
        w,
        shape::when(shape::patom("true"@), b),
        shape::when(shape::patom("false"@), c),
        shape::when(shape::patom("true"@), x),
        shape::when(shape::patom("false"@), y),
        ps,
    );
}

pub broadcast proof fn ok_alike(a: Core, w: Core, ps: Pairs)
    requires
        alike(own(), a, w, ps),
    ensures
        #[trigger] alike(own(), shape::ok(a), shape::ok(w), ps),
{
    broadcast use {atom_alike, tup2_alike, tup3_alike};

}

pub broadcast proof fn err_alike(a: Core, w: Core, ps: Pairs)
    requires
        alike(own(), a, w, ps),
    ensures
        #[trigger] alike(own(), shape::err(a), shape::err(w), ps),
{
    broadcast use {atom_alike, tup2_alike, tup3_alike};

}

pub broadcast proof fn some_alike(a: Core, w: Core, ps: Pairs)
    requires
        alike(own(), a, w, ps),
    ensures
        #[trigger] alike(own(), shape::some(a), shape::some(w), ps),
{
    broadcast use {atom_alike, tup2_alike, tup3_alike};

}

pub broadcast proof fn path_field_alike(a: Core, w: Core, ps: Pairs)
    requires
        alike(own(), a, w, ps),
    ensures
        #[trigger] alike(own(), shape::path_field(a), shape::path_field(w), ps),
{
    broadcast use {atom_alike, tup2_alike, tup3_alike};

}

pub broadcast proof fn path_index_alike(a: Core, w: Core, ps: Pairs)
    requires
        alike(own(), a, w, ps),
    ensures
        #[trigger] alike(own(), shape::path_index(a), shape::path_index(w), ps),
{
    broadcast use {atom_alike, tup2_alike, tup3_alike};

}

pub broadcast proof fn missing_field_alike(a: Core, w: Core, ps: Pairs)
    requires
        alike(own(), a, w, ps),
    ensures
        #[trigger] alike(own(), shape::missing_field(a), shape::missing_field(w), ps),
{
    broadcast use {atom_alike, tup2_alike, tup3_alike};

}

pub broadcast proof fn out_of_bounds_alike(a: Core, w: Core, ps: Pairs)
    requires
        alike(own(), a, w, ps),
    ensures
        #[trigger] alike(own(), shape::out_of_bounds(a), shape::out_of_bounds(w), ps),
{
    broadcast use {atom_alike, tup2_alike, tup3_alike};

}

pub broadcast proof fn error_at_alike(a: Core, b: Core, w: Core, x: Core, ps: Pairs)
    requires
        alike(own(), a, w, ps),
        alike(own(), b, x, ps),
    ensures
        #[trigger] alike(own(), shape::error_at(a, b), shape::error_at(w, x), ps),
{
    broadcast use {atom_alike, tup2_alike, tup3_alike};

}

pub broadcast proof fn one_of_alike(a: Core, b: Core, w: Core, x: Core, ps: Pairs)
    requires
        alike(own(), a, w, ps),
        alike(own(), b, x, ps),
    ensures
        #[trigger] alike(own(), shape::one_of(a, b), shape::one_of(w, x), ps),
{
    broadcast use {atom_alike, tup2_alike, tup3_alike};

}

pub broadcast proof fn none_alike(ps: Pairs)
    ensures
        #[trigger] alike(own(), shape::none(), shape::none(), ps),
{
    broadcast use {atom_alike, tup1_alike};

}

pub broadcast proof fn missing_key_alike(ps: Pairs)
    ensures
        #[trigger] alike(own(), shape::missing_key(), shape::missing_key(), ps),
{
    broadcast use {atom_alike, tup1_alike};

}

pub broadcast proof fn invalid_json_alike(ps: Pairs)
    ensures
        #[trigger] alike(own(), shape::invalid_json(), shape::invalid_json(), ps),
{
    broadcast use {atom_alike, tup1_alike};

}

pub broadcast proof fn try1_alike(
    a: Core,
    b: Core,
    c: Core,
    x: Core,
    y: Core,
    z: Core,
    s: Seq<char>,
    class: Seq<char>,
    reason: Seq<char>,
    stack: Seq<char>,
    ps: Pairs,
)
    requires
        alike(own(), a, x, ps),
        alike(own(), b, y, ps),
        alike(own(), c, z, ps),
        introduced(s),
        introduced(class),
        introduced(reason),
        introduced(stack),
    ensures
        #[trigger] alike(
            own(),
            shape::try1(a, s, b, class, reason, stack, c),
            shape::try1(x, s, y, class, reason, stack, z),
            ps,
        ),
{
    fixed_binders(ps, seq![s]);
    fixed_binders(ps, seq![class, reason, stack]);
}

pub broadcast proof fn binary_text_alike(s: Seq<char>, ps: Pairs)
    ensures
        #[trigger] alike(own(), shape::binary_text(s), shape::binary_text(s), ps),
{
    let v = shape::byte_segments(s);
    assert(segments_alike(own(), v, v, ps));
}

pub broadcast proof fn expected_alike(kind: Seq<char>, ps: Pairs)
    ensures
        #[trigger] alike(own(), shape::expected(kind), shape::expected(kind), ps),
{
    broadcast use {atom_alike, tup2_alike, binary_text_alike};

}

pub broadcast proof fn bin2_alike(a: Core, b: Core, w: Core, x: Core, ps: Pairs)
    requires
        alike(own(), a, w, ps),
        alike(own(), b, x, ps),
    ensures
        #[trigger] alike(own(), shape::bin2(a, b), shape::bin2(w, x), ps),
{
    assert(segments_alike(
        own(),
        seq![shape::whole(a), shape::whole(b)],
        seq![shape::whole(w), shape::whole(x)],
        ps,
    ));
}

pub proof fn listed_onto_alike(s: Seq<Core>, t: Seq<Core>, a: Core, b: Core, ps: Pairs)
    requires
        all_alike(own(), s, t, ps),
        alike(own(), a, b, ps),
    ensures
        alike(own(), shape::listed_onto(s, a), shape::listed_onto(t, b), ps),
    decreases s.len(),
{
    if s.len() > 0 {
        assert(alike(own(), s[s.len() - 1], t[t.len() - 1], ps));
        cons_alike(s.last(), a, t.last(), b, ps);
        assert forall|i: int| 0 <= i < s.len() - 1 implies alike(
            own(),
            #[trigger] s.drop_last()[i],
            t.drop_last()[i],
            ps,
        ) by {
            assert(alike(own(), s[i], t[i], ps));
        }
        listed_onto_alike(
            s.drop_last(),
            t.drop_last(),
            shape::cons(s.last(), a),
            shape::cons(t.last(), b),
            ps,
        );
    }
}

pub broadcast proof fn listed_alike(s: Seq<Core>, t: Seq<Core>, ps: Pairs)
    requires
        all_alike(own(), s, t, ps),
    ensures
        #[trigger] alike(own(), shape::listed(s), shape::listed(t), ps),
{
    nil_alike(ps);
    listed_onto_alike(s, t, shape::nil(), shape::nil(), ps);
}

pub broadcast proof fn typeof_clause_alike(
    tmp: Seq<char>,
    predicate: Seq<char>,
    kind: Seq<char>,
    ps: Pairs,
)
    requires
        introduced(tmp),
    ensures
        #[trigger] clause_alike(
            own(),
            shape::typeof_clause(tmp, predicate, kind),
            shape::typeof_clause(tmp, predicate, kind),
            ps,
        ),
{
    broadcast use {atom_alike, call1_alike, guarded_alike, pvar_fixed, var_alike};

    reveal(shape::typeof_clause);
    fixed_introduced();
}

pub broadcast proof fn typeof_case_alike(tmp: Seq<char>, ps: Pairs)
    requires
        introduced(tmp),
    ensures
        #[trigger] alike(own(), shape::typeof_case(tmp), shape::typeof_case(tmp), ps),
{
    broadcast use {atom_alike, typeof_clause_alike};

    reveal(shape::typeof_clauses);
    atom_alike("true"@, ps);
    let s = shape::typeof_clauses(tmp);
    assert forall|i: int| 0 <= i < s.len() implies clause_alike(
        own(),
        #[trigger] s[i],
        s[i],
        ps,
    ) by {
        typeof_clause_alike(tmp, "is_integer"@, "integer"@, ps);
        typeof_clause_alike(tmp, "is_float"@, "float"@, ps);
        typeof_clause_alike(tmp, "is_atom"@, "atom"@, ps);
        typeof_clause_alike(tmp, "is_list"@, "list"@, ps);
        typeof_clause_alike(tmp, "is_tuple"@, "tuple"@, ps);
        typeof_clause_alike(tmp, "is_map"@, "map"@, ps);
        typeof_clause_alike(tmp, "is_pid"@, "pid"@, ps);
        typeof_clause_alike(tmp, "is_function"@, "function"@, ps);
    }
    assert(clauses_alike(own(), s, s, ps));
}

pub broadcast group group_shapes_alike {
    fresh_introduced,
    atom_alike,
    num_alike,
    string_alike,
    nil_alike,
    empty_map_alike,
    var_alike,
    cons_alike,
    tup1_alike,
    tup2_alike,
    tup3_alike,
    call0_alike,
    call1_alike,
    call2_alike,
    call3_alike,
    call4_alike,
    apply1_alike,
    sequence_alike,
    let1_alike,
    fun1_alike,
    fun2_alike,
    fun3_alike,
    raise_alike,
    patom_fixed,
    pvar_fixed,
    ptup2_fixed,
    ptag_fixed,
    guarded_alike,
    when_alike,
    case1_alike,
    case2_alike,
    if_else_alike,
    ok_alike,
    err_alike,
    some_alike,
    path_field_alike,
    path_index_alike,
    missing_field_alike,
    out_of_bounds_alike,
    error_at_alike,
    one_of_alike,
    none_alike,
    missing_key_alike,
    invalid_json_alike,
    try1_alike,
    binary_text_alike,
    expected_alike,
    bin2_alike,
    listed_alike,
    typeof_clause_alike,
    typeof_case_alike,
}

pub broadcast proof fn checked_dynamic_cast_shape_alike(
    expr: Core,
    expr2: Core,
    predicate: Seq<char>,
    kind: Seq<char>,
    n: nat,
    ps: Pairs,
)
    requires
        alike(own(), expr, expr2, ps),
    ensures
        #[trigger] alike(
            own(),
            decode::checked_dynamic_cast_shape(expr, predicate, kind, n),
            decode::checked_dynamic_cast_shape(expr2, predicate, kind, n),
            ps,
        ),
{
    broadcast use group_shapes_alike;

    fixed_introduced();
}

pub broadcast proof fn checked_dynamic_result_cast_shape_alike(
    expr: Core,
    expr2: Core,
    predicate: Seq<char>,
    kind: Seq<char>,
    n: nat,
    ps: Pairs,
)
    requires
        alike(own(), expr, expr2, ps),
    ensures
        #[trigger] alike(
            own(),
            decode::checked_dynamic_result_cast_shape(expr, predicate, kind, n),
            decode::checked_dynamic_result_cast_shape(expr2, predicate, kind, n),
            ps,
        ),
{
    broadcast use group_shapes_alike;

    fixed_introduced();
}

pub broadcast proof fn dynamic_result_try_shape_alike(
    expr: Core,
    expr2: Core,
    error: Core,
    error2: Core,
    n: nat,
    ps: Pairs,
)
    requires
        alike(own(), expr, expr2, ps),
        alike(own(), error, error2, ps),
    ensures
        #[trigger] alike(
            own(),
            decode::dynamic_result_try_shape(expr, error, n),
            decode::dynamic_result_try_shape(expr2, error2, n),
            ps,
        ),
{
    broadcast use group_shapes_alike;

    fixed_introduced();
}

pub broadcast proof fn dynamic_get_result_shape_alike(
    target: Core,
    target2: Core,
    key: Core,
    key2: Core,
    n: nat,
    ps: Pairs,
)
    requires
        alike(own(), target, target2, ps),
        alike(own(), key, key2, ps),
    ensures
        #[trigger] alike(
            own(),
            decode::dynamic_get_result_shape(target, key, n),
            decode::dynamic_get_result_shape(target2, key2, n),
            ps,
        ),
{
    broadcast use group_shapes_alike;
    broadcast use {checked_dynamic_result_cast_shape_alike};

    fixed_introduced();
}

pub broadcast proof fn decode_index_value_shape_alike(
    target: Core,
    target2: Core,
    index: Core,
    index2: Core,
    n: nat,
    ps: Pairs,
)
    requires
        alike(own(), target, target2, ps),
        alike(own(), index, index2, ps),
    ensures
        #[trigger] alike(
            own(),
            decode::decode_index_value_shape(target, index, n),
            decode::decode_index_value_shape(target2, index2, n),
            ps,
        ),
{
    broadcast use group_shapes_alike;
    broadcast use {checked_dynamic_result_cast_shape_alike, dynamic_result_try_shape_alike};

    fixed_introduced();
}

pub broadcast proof fn decode_field_value_shape_alike(
    target: Core,
    target2: Core,
    key: Core,
    key2: Core,
    n: nat,
    ps: Pairs,
)
    requires
        alike(own(), target, target2, ps),
        alike(own(), key, key2, ps),
    ensures
        #[trigger] alike(
            own(),
            decode::decode_field_value_shape(target, key, n),
            decode::decode_field_value_shape(target2, key2, n),
            ps,
        ),
{
    broadcast use group_shapes_alike;
    broadcast use {checked_dynamic_result_cast_shape_alike};

    fixed_introduced();
}

pub broadcast proof fn decode_map_shape_alike(
    value: Core,
    value2: Core,
    f: Core,
    f2: Core,
    n: nat,
    ps: Pairs,
)
    requires
        alike(own(), value, value2, ps),
        alike(own(), f, f2, ps),
    ensures
        #[trigger] alike(
            own(),
            decode::decode_map_shape(value, f, n),
            decode::decode_map_shape(value2, f2, n),
            ps,
        ),
{
    broadcast use group_shapes_alike;

    fixed_introduced();
}

pub broadcast proof fn decode_then_shape_alike(
    value: Core,
    value2: Core,
    f: Core,
    f2: Core,
    n: nat,
    ps: Pairs,
)
    requires
        alike(own(), value, value2, ps),
        alike(own(), f, f2, ps),
    ensures
        #[trigger] alike(
            own(),
            decode::decode_then_shape(value, f, n),
            decode::decode_then_shape(value2, f2, n),
            ps,
        ),
{
    broadcast use group_shapes_alike;

    fixed_introduced();
}

pub broadcast proof fn decode_field_shape_alike(
    target: Core,
    target2: Core,
    key: Core,
    key2: Core,
    decoder: Core,
    decoder2: Core,
    n: nat,
    ps: Pairs,
)
    requires
        alike(own(), target, target2, ps),
        alike(own(), key, key2, ps),
        alike(own(), decoder, decoder2, ps),
    ensures
        #[trigger] alike(
            own(),
            decode::decode_field_shape(target, key, decoder, n),
            decode::decode_field_shape(target2, key2, decoder2, n),
            ps,
        ),
{
    broadcast use group_shapes_alike;
    broadcast use {decode_field_value_shape_alike};

    fixed_introduced();
}

pub broadcast proof fn decode_index_shape_alike(
    target: Core,
    target2: Core,
    key: Core,
    key2: Core,
    decoder: Core,
    decoder2: Core,
    n: nat,
    ps: Pairs,
)
    requires
        alike(own(), target, target2, ps),
        alike(own(), key, key2, ps),
        alike(own(), decoder, decoder2, ps),
    ensures
        #[trigger] alike(
            own(),
            decode::decode_index_shape(target, key, decoder, n),
            decode::decode_index_shape(target2, key2, decoder2, n),
            ps,
        ),
{
    broadcast use group_shapes_alike;
    broadcast use {decode_index_value_shape_alike};

    fixed_introduced();
}

pub broadcast proof fn decode_optional_field_shape_alike(
    target: Core,
    target2: Core,
    key: Core,
    key2: Core,
    decoder: Core,
    decoder2: Core,
    n: nat,
    ps: Pairs,
)
    requires
        alike(own(), target, target2, ps),
        alike(own(), key, key2, ps),
        alike(own(), decoder, decoder2, ps),
    ensures
        #[trigger] alike(
            own(),
            decode::decode_optional_field_shape(target, key, decoder, n),
            decode::decode_optional_field_shape(target2, key2, decoder2, n),
            ps,
        ),
{
    broadcast use group_shapes_alike;
    broadcast use {checked_dynamic_result_cast_shape_alike};

    fixed_introduced();
}

pub broadcast proof fn decode_field_or_shape_alike(
    target: Core,
    target2: Core,
    key: Core,
    key2: Core,
    fallback: Core,
    fallback2: Core,
    decoder: Core,
    decoder2: Core,
    n: nat,
    ps: Pairs,
)
    requires
        alike(own(), target, target2, ps),
        alike(own(), key, key2, ps),
        alike(own(), fallback, fallback2, ps),
        alike(own(), decoder, decoder2, ps),
    ensures
        #[trigger] alike(
            own(),
            decode::decode_field_or_shape(target, key, fallback, decoder, n),
            decode::decode_field_or_shape(target2, key2, fallback2, decoder2, n),
            ps,
        ),
{
    broadcast use group_shapes_alike;
    broadcast use {checked_dynamic_result_cast_shape_alike};

    fixed_introduced();
}

pub broadcast proof fn decode_list_shape_alike(
    target: Core,
    target2: Core,
    decoder: Core,
    decoder2: Core,
    n: nat,
    ps: Pairs,
)
    requires
        alike(own(), target, target2, ps),
        alike(own(), decoder, decoder2, ps),
    ensures
        #[trigger] alike(
            own(),
            decode::decode_list_shape(target, decoder, n),
            decode::decode_list_shape(target2, decoder2, n),
            ps,
        ),
{
    broadcast use group_shapes_alike;
    broadcast use {checked_dynamic_result_cast_shape_alike};

    fixed_introduced();
}

pub broadcast proof fn decode_optional_shape_alike(
    target: Core,
    target2: Core,
    decoder: Core,
    decoder2: Core,
    n: nat,
    ps: Pairs,
)
    requires
        alike(own(), target, target2, ps),
        alike(own(), decoder, decoder2, ps),
    ensures
        #[trigger] alike(
            own(),
            decode::decode_optional_shape(target, decoder, n),
            decode::decode_optional_shape(target2, decoder2, n),
            ps,
        ),
{
    broadcast use group_shapes_alike;

    fixed_introduced();
}

pub broadcast proof fn decode_dict_shape_alike(
    target: Core,
    target2: Core,
    decoder: Core,
    decoder2: Core,
    n: nat,
    ps: Pairs,
)
    requires
        alike(own(), target, target2, ps),
        alike(own(), decoder, decoder2, ps),
    ensures
        #[trigger] alike(
            own(),
            decode::decode_dict_shape(target, decoder, n),
            decode::decode_dict_shape(target2, decoder2, n),
            ps,
        ),
{
    broadcast use group_shapes_alike;
    broadcast use {checked_dynamic_result_cast_shape_alike};

    fixed_introduced();
}

pub broadcast proof fn decode_one_of_shape_alike(
    target: Core,
    target2: Core,
    first: Core,
    first2: Core,
    second: Core,
    second2: Core,
    n: nat,
    ps: Pairs,
)
    requires
        alike(own(), target, target2, ps),
        alike(own(), first, first2, ps),
        alike(own(), second, second2, ps),
    ensures
        #[trigger] alike(
            own(),
            decode::decode_one_of_shape(target, first, second, n),
            decode::decode_one_of_shape(target2, first2, second2, n),
            ps,
        ),
{
    broadcast use group_shapes_alike;

    fixed_introduced();
}

pub broadcast proof fn kind_name_shape_alike(
    x: Core,
    x2: Core,
    n: nat,
    ps: Pairs,
)
    requires
        alike(own(), x, x2, ps),
    ensures
        #[trigger] alike(
            own(),
            decode::kind_name_shape(x, n),
            decode::kind_name_shape(x2, n),
            ps,
        ),
{
    broadcast use group_shapes_alike;

    fixed_introduced();
}

pub broadcast proof fn debug_print_shape_alike(
    x: Core,
    x2: Core,
    n: nat,
    ps: Pairs,
)
    requires
        alike(own(), x, x2, ps),
    ensures
        #[trigger] alike(
            own(),
            decode::debug_print_shape(x, n),
            decode::debug_print_shape(x2, n),
            ps,
        ),
{
    broadcast use group_shapes_alike;

    fixed_introduced();
}

pub broadcast proof fn checked_get_shape_alike(
    target: Core,
    target2: Core,
    key: Core,
    key2: Core,
    n: nat,
    ps: Pairs,
)
    requires
        alike(own(), target, target2, ps),
        alike(own(), key, key2, ps),
    ensures
        #[trigger] alike(
            own(),
            decode::checked_get_shape(target, key, n),
            decode::checked_get_shape(target2, key2, n),
            ps,
        ),
{
    broadcast use group_shapes_alike;
    broadcast use {checked_dynamic_cast_shape_alike};

    fixed_introduced();
}

pub broadcast proof fn checked_get_or_shape_alike(
    target: Core,
    target2: Core,
    key: Core,
    key2: Core,
    fallback: Core,
    fallback2: Core,
    n: nat,
    ps: Pairs,
)
    requires
        alike(own(), target, target2, ps),
        alike(own(), key, key2, ps),
        alike(own(), fallback, fallback2, ps),
    ensures
        #[trigger] alike(
            own(),
            decode::checked_get_or_shape(target, key, fallback, n),
            decode::checked_get_or_shape(target2, key2, fallback2, n),
            ps,
        ),
{
    broadcast use group_shapes_alike;
    broadcast use {checked_dynamic_cast_shape_alike};

    fixed_introduced();
}

pub broadcast proof fn checked_at_shape_alike(
    target: Core,
    target2: Core,
    index: Core,
    index2: Core,
    n: nat,
    ps: Pairs,
)
    requires
        alike(own(), target, target2, ps),
        alike(own(), index, index2, ps),
    ensures
        #[trigger] alike(
            own(),
            decode::checked_at_shape(target, index, n),
            decode::checked_at_shape(target2, index2, n),
            ps,
        ),
{
    broadcast use group_shapes_alike;
    broadcast use {checked_dynamic_cast_shape_alike};

    fixed_introduced();
}

pub broadcast proof fn json_decode_result_shape_alike(
    x: Core,
    x2: Core,
    n: nat,
    ps: Pairs,
)
    requires
        alike(own(), x, x2, ps),
    ensures
        #[trigger] alike(
            own(),
            decode::json_decode_result_shape(x, n),
            decode::json_decode_result_shape(x2, n),
            ps,
        ),
{
    broadcast use group_shapes_alike;
    broadcast use {dynamic_result_try_shape_alike};

    fixed_introduced();
}

pub broadcast proof fn concat_shape_alike(
    l: Core,
    l2: Core,
    r: Core,
    r2: Core,
    n: nat,
    ps: Pairs,
)
    requires
        alike(own(), l, l2, ps),
        alike(own(), r, r2, ps),
    ensures
        #[trigger] alike(
            own(),
            decode::concat_shape(l, r, n),
            decode::concat_shape(l2, r2, n),
            ps,
        ),
{
    broadcast use group_shapes_alike;

    fixed_introduced();
    let x = fresh_name(n);
    let y = fresh_name(n + 1);
    let s = seq![(x, l), (y, r)];
    let t = seq![(x, l2), (y, r2)];
    assert(binder_names(s) =~= seq![x, y]);
    assert(binder_names(t) =~= seq![x, y]);
    fixed_binders(ps, seq![x, y]);
    assert(values_alike(own(), s, t, ps));
    let body = shape::if_else(
        shape::call1("erlang"@, "is_binary"@, shape::var(x)),
        shape::bin2(shape::var(x), shape::var(y)),
        shape::call2("erlang"@, "++"@, shape::var(x), shape::var(y)),
    );
    assert(alike(own(), body, body, ps));
}

pub broadcast group group_decode_alike {
    checked_dynamic_cast_shape_alike,
    checked_dynamic_result_cast_shape_alike,
    dynamic_result_try_shape_alike,
    dynamic_get_result_shape_alike,
    decode_index_value_shape_alike,
    decode_field_value_shape_alike,
    decode_map_shape_alike,
    decode_then_shape_alike,
    decode_field_shape_alike,
    decode_index_shape_alike,
    decode_optional_field_shape_alike,
    decode_field_or_shape_alike,
    decode_list_shape_alike,
    decode_optional_shape_alike,
    decode_dict_shape_alike,
    decode_one_of_shape_alike,
    kind_name_shape_alike,
    debug_print_shape_alike,
    checked_get_shape_alike,
    checked_get_or_shape_alike,
    checked_at_shape_alike,
    json_decode_result_shape_alike,
    concat_shape_alike,
}

/// Whether what two calls come to is alike.
pub open spec fn outcome_alike(
    r: Option<(Core, nat)>,
    s: Option<(Core, nat)>,
    ps: Pairs,
) -> bool {
    match (r, s) {
        (Some((e, m)), Some((f, n))) => m == n && alike(own(), e, f, ps),
        (None, None) => true,
        _ => false,
    }
}

proof fn special0_alike(name: Seq<char>, n: nat, ps: Pairs)
    ensures
        outcome_alike(
            special0(name, n),
            special0(name, n),
            ps,
        ),
{
    broadcast use group_shapes_alike;
    broadcast use group_decode_alike;

}

proof fn special1_alike(name: Seq<char>, a: Core, w: Core, n: nat, ps: Pairs)
    requires
        alike(own(), a, w, ps),
    ensures
        outcome_alike(
            special1(name, a, n),
            special1(name, w, n),
            ps,
        ),
{
    broadcast use group_shapes_alike;
    broadcast use group_decode_alike;

}

proof fn special2_alike(name: Seq<char>, a: Core, b: Core, w: Core, x: Core, n: nat, ps: Pairs)
    requires
        alike(own(), a, w, ps),
        alike(own(), b, x, ps),
    ensures
        outcome_alike(
            special2(name, a, b, n),
            special2(name, w, x, n),
            ps,
        ),
{
    broadcast use group_shapes_alike;
    broadcast use group_decode_alike;

}

proof fn special3_alike(
    name: Seq<char>,
    a: Core,
    b: Core,
    c: Core,
    w: Core,
    x: Core,
    y: Core,
    n: nat,
    ps: Pairs,
)
    requires
        alike(own(), a, w, ps),
        alike(own(), b, x, ps),
        alike(own(), c, y, ps),
    ensures
        outcome_alike(
            special3(name, a, b, c, n),
            special3(name, w, x, y, n),
            ps,
        ),
{
    broadcast use group_shapes_alike;
    broadcast use group_decode_alike;

}

proof fn special4_alike(
    name: Seq<char>,
    a: Core,
    b: Core,
    c: Core,
    d: Core,
    w: Core,
    x: Core,
    y: Core,
    z: Core,
    n: nat,
    ps: Pairs,
)
    requires
        alike(own(), a, w, ps),
        alike(own(), b, x, ps),
        alike(own(), c, y, ps),
        alike(own(), d, z, ps),
    ensures
        outcome_alike(
            special4(name, a, b, c, d, n),
            special4(name, w, x, y, z, n),
            ps,
        ),
{
    broadcast use group_shapes_alike;
    broadcast use group_decode_alike;

}

/// What a built-in is translated to is alike if its arguments are.
pub proof fn builtin_alike(name: Seq<char>, s: Seq<Core>, t: Seq<Core>, n: nat, ps: Pairs)
    requires
        all_alike(own(), s, t, ps),
    ensures
        outcome_alike(builtin(name, s, n), builtin(name, t, n), ps),
{
    broadcast use group_shapes_alike;

    if s.len() == 0 {
        special0_alike(name, n, ps);
    } else if s.len() == 1 {
        assert(alike(own(), s[0], t[0], ps));
        special1_alike(name, s[0], t[0], n, ps);
    } else if s.len() == 2 {
        assert(alike(own(), s[0], t[0], ps) && alike(own(), s[1], t[1], ps));
        special2_alike(name, s[0], s[1], t[0], t[1], n, ps);
    } else if s.len() == 3 {
        assert(alike(own(), s[0], t[0], ps));
        assert(alike(own(), s[1], t[1], ps));
        assert(alike(own(), s[2], t[2], ps));
        special3_alike(name, s[0], s[1], s[2], t[0], t[1], t[2], n, ps);
    } else if s.len() == 4 {
        assert(alike(own(), s[0], t[0], ps) && alike(own(), s[1], t[1], ps) && alike(own(), s[2], t[2], ps)
            && alike(
            own(),
            s[3],
            t[3],
            ps,
        ));
        special4_alike(name, s[0], s[1], s[2], s[3], t[0], t[1], t[2], t[3], n, ps);
    }
}

} // verus!
