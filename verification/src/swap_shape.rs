//! Exchanging two variables in the terms that translations are made of.
use vstd::prelude::*;
use crate::builtins::{builtin, special0, special1, special2, special3, special4};
use crate::decode;
use crate::erlang::{Clause, Core, Pat, PatSegment, Segment};
use crate::fresh::fresh_name;
use crate::shape;
use crate::swap::{
    swap_bindings, swap_clause, swap_clauses, swap_core, swap_cores, swap_name,
    swap_names, swap_pat, swap_pat_segments, swap_pats, swap_segments, Swap,
};

verus! {

/// Whether a variable is one that a translation introduces: the one that stands
/// for anything, a numbered one, a fixed one, or the quoted name of a method.
pub open spec fn introduced(x: Seq<char>) -> bool {
    ||| x == "_"@
    ||| x == "_Class"@
    ||| x == "_Reason"@
    ||| x == "_FinalIndex"@
    ||| exists|n: nat| x == #[trigger] fresh_name(n)
    ||| x.len() > 0 && x[0] == '\''
}

/// Whether an exchange spares the variables that a translation introduces.
pub open spec fn spared(w: Swap) -> bool {
    !introduced(w.a) && !introduced(w.b)
}

/// The variables that a translation introduces stay.
pub broadcast proof fn fresh_stays(w: Swap, n: nat)
    requires
        spared(w),
    ensures
        #[trigger] swap_name(w, fresh_name(n)) == fresh_name(n),
{
    assert(introduced(fresh_name(n)));
}

/// A quoted name stays.
pub proof fn quoted_stays(w: Swap, x: Seq<char>)
    requires
        spared(w),
        x.len() > 0,
        x[0] == '\'',
    ensures
        swap_name(w, x) == x,
{
}

/// The fixed variables of translations stay.
pub proof fn fixed_stay(w: Swap)
    requires
        spared(w),
    ensures
        swap_name(w, "_"@) == "_"@,
        swap_name(w, "_Class"@) == "_Class"@,
        swap_name(w, "_Reason"@) == "_Reason"@,
        swap_name(w, "_FinalIndex"@) == "_FinalIndex"@,
{
}

pub proof fn cores_push(w: Swap, s: Seq<Core>, x: Core)
    ensures
        swap_cores(w, s.push(x)) == swap_cores(w, s).push(swap_core(w, x)),
{
    assert(s.push(x).drop_last() =~= s);
}

pub proof fn cores_len(w: Swap, s: Seq<Core>)
    ensures
        swap_cores(w, s).len() == s.len(),
        forall|i: int| 0 <= i < s.len() ==> #[trigger] swap_cores(w, s)[i] == swap_core(w, s[i]),
    decreases s.len(),
{
    if s.len() > 0 {
        cores_len(w, s.drop_last());
    }
}

pub proof fn cores_concat(w: Swap, s: Seq<Core>, t: Seq<Core>)
    ensures
        swap_cores(w, s + t) == swap_cores(w, s) + swap_cores(w, t),
{
    cores_len(w, s);
    cores_len(w, t);
    cores_len(w, s + t);
    assert(swap_cores(w, s + t) =~= swap_cores(w, s) + swap_cores(w, t));
}

proof fn cores1(w: Swap, a: Core)
    ensures
        swap_cores(w, seq![a]) == seq![swap_core(w, a)],
{
    cores_len(w, seq![a]);
    assert(swap_cores(w, seq![a]) =~= seq![swap_core(w, a)]);
}

proof fn cores2(w: Swap, a: Core, b: Core)
    ensures
        swap_cores(w, seq![a, b]) == seq![swap_core(w, a), swap_core(w, b)],
{
    cores_len(w, seq![a, b]);
    assert(swap_cores(w, seq![a, b]) =~= seq![swap_core(w, a), swap_core(w, b)]);
}

proof fn cores3(w: Swap, a: Core, b: Core, c: Core)
    ensures
        swap_cores(w, seq![a, b, c]) == seq![swap_core(w, a), swap_core(w, b), swap_core(w, c)],
{
    cores_len(w, seq![a, b, c]);
    assert(swap_cores(w, seq![a, b, c]) =~= seq![
        swap_core(w, a),
        swap_core(w, b),
        swap_core(w, c),
    ]);
}

proof fn cores4(w: Swap, a: Core, b: Core, c: Core, d: Core)
    ensures
        swap_cores(w, seq![a, b, c, d]) == seq![
            swap_core(w, a),
            swap_core(w, b),
            swap_core(w, c),
            swap_core(w, d),
        ],
{
    cores_len(w, seq![a, b, c, d]);
    assert(swap_cores(w, seq![a, b, c, d]) =~= seq![
        swap_core(w, a),
        swap_core(w, b),
        swap_core(w, c),
        swap_core(w, d),
    ]);
}

proof fn bindings_len(w: Swap, s: Seq<(Seq<char>, Core)>)
    ensures
        swap_bindings(w, s).len() == s.len(),
        forall|i: int|
            0 <= i < s.len() ==> #[trigger] swap_bindings(w, s)[i] == (
                swap_name(w, s[i].0),
                swap_core(w, s[i].1),
            ),
    decreases s.len(),
{
    if s.len() > 0 {
        bindings_len(w, s.drop_last());
    }
}

pub proof fn pats_len(w: Swap, s: Seq<Pat>)
    ensures
        swap_pats(w, s).len() == s.len(),
        forall|i: int| 0 <= i < s.len() ==> #[trigger] swap_pats(w, s)[i] == swap_pat(w, s[i]),
    decreases s.len(),
{
    if s.len() > 0 {
        pats_len(w, s.drop_last());
    }
}

pub proof fn clauses_len(w: Swap, s: Seq<Clause>)
    ensures
        swap_clauses(w, s).len() == s.len(),
        forall|i: int|
            0 <= i < s.len() ==> #[trigger] swap_clauses(w, s)[i] == swap_clause(w, s[i]),
    decreases s.len(),
{
    if s.len() > 0 {
        clauses_len(w, s.drop_last());
    }
}

/// The kinds that are asked for, in order.
spec fn asked(i: int) -> (Seq<char>, Seq<char>) {
    if i == 0 {
        ("is_integer"@, "integer"@)
    } else if i == 1 {
        ("is_float"@, "float"@)
    } else if i == 2 {
        ("is_atom"@, "atom"@)
    } else if i == 3 {
        ("is_list"@, "list"@)
    } else if i == 4 {
        ("is_tuple"@, "tuple"@)
    } else if i == 5 {
        ("is_map"@, "map"@)
    } else if i == 6 {
        ("is_pid"@, "pid"@)
    } else {
        ("is_function"@, "function"@)
    }
}

proof fn typeof_at(tmp: Seq<char>, i: int)
    requires
        0 <= i < 8,
    ensures
        shape::typeof_clauses(tmp).len() == 8,
        shape::typeof_clauses(tmp)[i] == shape::typeof_clause(tmp, asked(i).0, asked(i).1),
{
    reveal(shape::typeof_clauses);
}

pub proof fn clauses_push(w: Swap, s: Seq<Clause>, x: Clause)
    ensures
        swap_clauses(w, s.push(x)) == swap_clauses(w, s).push(swap_clause(w, x)),
{
    assert(s.push(x).drop_last() =~= s);
}

proof fn segments_len(w: Swap, s: Seq<Segment>)
    ensures
        swap_segments(w, s).len() == s.len(),
        forall|i: int|
            0 <= i < s.len() ==> #[trigger] swap_segments(w, s)[i] == (Segment {
                value: swap_core(w, s[i].value),
                size: s[i].size,
                kind: s[i].kind,
            }),
    decreases s.len(),
{
    if s.len() > 0 {
        segments_len(w, s.drop_last());
    }
}

proof fn pat_segments_len(w: Swap, s: Seq<PatSegment>)
    ensures
        swap_pat_segments(w, s).len() == s.len(),
        forall|i: int|
            0 <= i < s.len() ==> #[trigger] swap_pat_segments(w, s)[i] == (PatSegment {
                pattern: swap_pat(w, s[i].pattern),
                size: s[i].size,
                kind: s[i].kind,
            }),
    decreases s.len(),
{
    if s.len() > 0 {
        pat_segments_len(w, s.drop_last());
    }
}

pub proof fn byte_patterns_stay(w: Swap, s: Seq<char>)
    ensures
        swap_pat_segments(w, shape::byte_patterns(s)) == shape::byte_patterns(s),
{
    pat_segments_len(w, shape::byte_patterns(s));
    assert(swap_pat_segments(w, shape::byte_patterns(s)) =~= shape::byte_patterns(s));
}

pub proof fn listed_onto_swaps(w: Swap, s: Seq<Core>, tail: Core)
    ensures
        swap_core(w, shape::listed_onto(s, tail)) == shape::listed_onto(
            swap_cores(w, s),
            swap_core(w, tail),
        ),
    decreases s.len(),
{
    if s.len() > 0 {
        listed_onto_swaps(w, s.drop_last(), shape::cons(s.last(), tail));
        assert(swap_cores(w, s).drop_last() =~= swap_cores(w, s.drop_last()));
    }
}

pub broadcast proof fn listed_swaps(w: Swap, s: Seq<Core>)
    ensures
        #[trigger] swap_core(w, shape::listed(s)) == shape::listed(swap_cores(w, s)),
{
    listed_onto_swaps(w, s, shape::nil());
}

pub broadcast proof fn atom_swaps(w: Swap, s: Seq<char>)
    ensures
        #[trigger] swap_core(w, shape::atom(s)) == shape::atom(s),
{

}

pub broadcast proof fn num_swaps(w: Swap, n: int)
    ensures
        #[trigger] swap_core(w, shape::num(n)) == shape::num(n),
{

}

pub broadcast proof fn string_swaps(w: Swap, s: Seq<char>)
    ensures
        #[trigger] swap_core(w, shape::string(s)) == shape::string(s),
{

}

pub broadcast proof fn nil_swaps(w: Swap)
    ensures
        #[trigger] swap_core(w, shape::nil()) == shape::nil(),
{

}

pub broadcast proof fn var_swaps(w: Swap, s: Seq<char>)
    ensures
        #[trigger] swap_core(w, shape::var(s)) == shape::var(swap_name(w, s)),
{

}

pub broadcast proof fn cons_swaps(w: Swap, h: Core, t: Core)
    ensures
        #[trigger] swap_core(w, shape::cons(h, t)) == shape::cons(swap_core(w, h), swap_core(w, t)),
{

}

pub broadcast proof fn tup1_swaps(w: Swap, a: Core)
    ensures
        #[trigger] swap_core(w, shape::tup1(a)) == shape::tup1(swap_core(w, a)),
{
    cores1(w, a);
}

pub broadcast proof fn tup2_swaps(w: Swap, a: Core, b: Core)
    ensures
        #[trigger] swap_core(w, shape::tup2(a, b)) == shape::tup2(swap_core(w, a), swap_core(w, b)),
{
    cores2(w, a, b);
}

pub broadcast proof fn tup3_swaps(w: Swap, a: Core, b: Core, c: Core)
    ensures
        #[trigger] swap_core(w, shape::tup3(a, b, c)) == shape::tup3(swap_core(w, a), swap_core(w, b), swap_core(w, c)),
{
    cores3(w, a, b, c);
}

pub broadcast proof fn call0_swaps(w: Swap, m: Seq<char>, f: Seq<char>)
    ensures
        #[trigger] swap_core(w, shape::call0(m, f)) == shape::call0(m, f),
{
    assert(swap_cores(w, seq![]) =~= seq![]);
}

pub broadcast proof fn call1_swaps(w: Swap, m: Seq<char>, f: Seq<char>, a: Core)
    ensures
        #[trigger] swap_core(w, shape::call1(m, f, a)) == shape::call1(m, f, swap_core(w, a)),
{
    cores1(w, a);
}

pub broadcast proof fn call2_swaps(w: Swap, m: Seq<char>, f: Seq<char>, a: Core, b: Core)
    ensures
        #[trigger] swap_core(w, shape::call2(m, f, a, b)) == shape::call2(m, f, swap_core(w, a), swap_core(w, b)),
{
    cores2(w, a, b);
}

pub broadcast proof fn call3_swaps(w: Swap, m: Seq<char>, f: Seq<char>, a: Core, b: Core, c: Core)
    ensures
        #[trigger] swap_core(w, shape::call3(m, f, a, b, c)) == shape::call3(m, f, swap_core(w, a), swap_core(w, b), swap_core(w, c)),
{
    cores3(w, a, b, c);
}

pub broadcast proof fn call4_swaps(w: Swap, m: Seq<char>, f: Seq<char>, a: Core, b: Core, c: Core, d: Core)
    ensures
        #[trigger] swap_core(w, shape::call4(m, f, a, b, c, d)) == shape::call4(m, f, swap_core(w, a), swap_core(w, b), swap_core(w, c), swap_core(w, d)),
{
    cores4(w, a, b, c, d);
}

pub broadcast proof fn apply1_swaps(w: Swap, f: Core, a: Core)
    ensures
        #[trigger] swap_core(w, shape::apply1(f, a)) == shape::apply1(swap_core(w, f), swap_core(w, a)),
{
    cores1(w, a);
}

pub broadcast proof fn let1_swaps(w: Swap, x: Seq<char>, v: Core, body: Core)
    ensures
        #[trigger] swap_core(w, shape::let1(x, v, body)) == shape::let1(swap_name(w, x), swap_core(w, v), swap_core(w, body)),
{
    let s = seq![(x, v)];
    assert(s.drop_last() =~= seq![]);
    assert(swap_bindings(w, seq![]) =~= seq![]);
    assert(swap_bindings(w, s) =~= seq![(swap_name(w, x), swap_core(w, v))]);
}

pub broadcast proof fn fun1_swaps(w: Swap, a: Seq<char>, body: Core)
    ensures
        #[trigger] swap_core(w, shape::fun1(a, body)) == shape::fun1(swap_name(w, a), swap_core(w, body)),
{
    assert(swap_names(w, seq![a]) =~= seq![swap_name(w, a)]);
}

pub broadcast proof fn fun2_swaps(w: Swap, a: Seq<char>, b: Seq<char>, body: Core)
    ensures
        #[trigger] swap_core(w, shape::fun2(a, b, body)) == shape::fun2(swap_name(w, a), swap_name(w, b), swap_core(w, body)),
{
    assert(swap_names(w, seq![a, b]) =~= seq![swap_name(w, a), swap_name(w, b)]);
}

pub broadcast proof fn fun3_swaps(w: Swap, a: Seq<char>, b: Seq<char>, c: Seq<char>, body: Core)
    ensures
        #[trigger] swap_core(w, shape::fun3(a, b, c, body)) == shape::fun3(swap_name(w, a), swap_name(w, b), swap_name(w, c), swap_core(w, body)),
{
    assert(swap_names(w, seq![a, b, c]) =~= seq![
        swap_name(w, a),
        swap_name(w, b),
        swap_name(w, c),
    ]);
}

pub broadcast proof fn sequence_swaps(w: Swap, a: Core, b: Core)
    ensures
        #[trigger] swap_core(w, shape::sequence(a, b)) == shape::sequence(swap_core(w, a), swap_core(w, b)),
{

}

pub broadcast proof fn raise_swaps(w: Swap, stack: Seq<char>, reason: Seq<char>)
    ensures
        #[trigger] swap_core(w, shape::raise(stack, reason)) == shape::raise(swap_name(w, stack), swap_name(w, reason)),
{
    broadcast use var_swaps;

    cores2(w, Core::Var(stack), Core::Var(reason));
}

pub broadcast proof fn empty_map_swaps(w: Swap)
    ensures
        #[trigger] swap_core(w, shape::empty_map()) == shape::empty_map(),
{
    assert(crate::swap::swap_entries(w, seq![]) =~= seq![]);
}

pub broadcast proof fn patom_swaps(w: Swap, s: Seq<char>)
    ensures
        #[trigger] swap_pat(w, shape::patom(s)) == shape::patom(s),
{

}

pub broadcast proof fn pvar_swaps(w: Swap, s: Seq<char>)
    ensures
        #[trigger] swap_pat(w, shape::pvar(s)) == shape::pvar(swap_name(w, s)),
{

}

pub broadcast proof fn ptup2_swaps(w: Swap, a: Pat, b: Pat)
    ensures
        #[trigger] swap_pat(w, shape::ptup2(a, b)) == shape::ptup2(swap_pat(w, a), swap_pat(w, b)),
{
    pats_len(w, seq![a, b]);
    assert(swap_pats(w, seq![a, b]) =~= seq![swap_pat(w, a), swap_pat(w, b)]);
}

pub broadcast proof fn ptag_swaps(w: Swap, tag: Seq<char>, x: Seq<char>)
    ensures
        #[trigger] swap_pat(w, shape::ptag(tag, x)) == shape::ptag(tag, swap_name(w, x)),
{
    broadcast use {patom_swaps, ptup2_swaps, pvar_swaps};


}

pub broadcast proof fn guarded_swaps(w: Swap, p: Pat, guard: Core, body: Core)
    ensures
        #[trigger] swap_clause(w, shape::guarded(p, guard, body)) == shape::guarded(swap_pat(w, p), swap_core(w, guard), swap_core(w, body)),
{
    pats_len(w, seq![p]);
    assert(swap_pats(w, seq![p]) =~= seq![swap_pat(w, p)]);
}

pub broadcast proof fn when_swaps(w: Swap, p: Pat, body: Core)
    ensures
        #[trigger] swap_clause(w, shape::when(p, body)) == shape::when(swap_pat(w, p), swap_core(w, body)),
{
    broadcast use {atom_swaps, guarded_swaps};


}

pub broadcast proof fn case1_swaps(w: Swap, x: Core, a: Clause)
    ensures
        #[trigger] swap_core(w, shape::case1(x, a)) == shape::case1(swap_core(w, x), swap_clause(w, a)),
{
    clauses_len(w, seq![a]);
    assert(swap_clauses(w, seq![a]) =~= seq![swap_clause(w, a)]);
}

pub broadcast proof fn case2_swaps(w: Swap, x: Core, a: Clause, b: Clause)
    ensures
        #[trigger] swap_core(w, shape::case2(x, a, b)) == shape::case2(swap_core(w, x), swap_clause(w, a), swap_clause(w, b)),
{
    clauses_len(w, seq![a, b]);
    assert(swap_clauses(w, seq![a, b]) =~= seq![swap_clause(w, a), swap_clause(w, b)]);
}

pub broadcast proof fn if_else_swaps(w: Swap, x: Core, a: Core, b: Core)
    ensures
        #[trigger] swap_core(w, shape::if_else(x, a, b)) == shape::if_else(swap_core(w, x), swap_core(w, a), swap_core(w, b)),
{
    broadcast use {case2_swaps, patom_swaps, when_swaps};


}

pub broadcast proof fn ok_swaps(w: Swap, x: Core)
    ensures
        #[trigger] swap_core(w, shape::ok(x)) == shape::ok(swap_core(w, x)),
{
    broadcast use {atom_swaps, tup2_swaps};


}

pub broadcast proof fn err_swaps(w: Swap, x: Core)
    ensures
        #[trigger] swap_core(w, shape::err(x)) == shape::err(swap_core(w, x)),
{
    broadcast use {atom_swaps, tup2_swaps};


}

pub broadcast proof fn some_swaps(w: Swap, x: Core)
    ensures
        #[trigger] swap_core(w, shape::some(x)) == shape::some(swap_core(w, x)),
{
    broadcast use {atom_swaps, tup2_swaps};


}

pub broadcast proof fn none_swaps(w: Swap)
    ensures
        #[trigger] swap_core(w, shape::none()) == shape::none(),
{
    broadcast use {atom_swaps, tup1_swaps};


}

pub broadcast proof fn path_field_swaps(w: Swap, x: Core)
    ensures
        #[trigger] swap_core(w, shape::path_field(x)) == shape::path_field(swap_core(w, x)),
{
    broadcast use {atom_swaps, tup2_swaps};


}

pub broadcast proof fn path_index_swaps(w: Swap, x: Core)
    ensures
        #[trigger] swap_core(w, shape::path_index(x)) == shape::path_index(swap_core(w, x)),
{
    broadcast use {atom_swaps, tup2_swaps};


}

pub broadcast proof fn missing_field_swaps(w: Swap, x: Core)
    ensures
        #[trigger] swap_core(w, shape::missing_field(x)) == shape::missing_field(swap_core(w, x)),
{
    broadcast use {atom_swaps, tup2_swaps};


}

pub broadcast proof fn missing_key_swaps(w: Swap)
    ensures
        #[trigger] swap_core(w, shape::missing_key()) == shape::missing_key(),
{
    broadcast use {atom_swaps, tup1_swaps};


}

pub broadcast proof fn out_of_bounds_swaps(w: Swap, x: Core)
    ensures
        #[trigger] swap_core(w, shape::out_of_bounds(x)) == shape::out_of_bounds(swap_core(w, x)),
{
    broadcast use {atom_swaps, tup2_swaps};


}

pub broadcast proof fn invalid_json_swaps(w: Swap)
    ensures
        #[trigger] swap_core(w, shape::invalid_json()) == shape::invalid_json(),
{
    broadcast use {atom_swaps, tup1_swaps};


}

pub broadcast proof fn error_at_swaps(w: Swap, path: Core, e: Core)
    ensures
        #[trigger] swap_core(w, shape::error_at(path, e)) == shape::error_at(swap_core(w, path), swap_core(w, e)),
{
    broadcast use {atom_swaps, tup3_swaps};


}

pub broadcast proof fn one_of_swaps(w: Swap, a: Core, b: Core)
    ensures
        #[trigger] swap_core(w, shape::one_of(a, b)) == shape::one_of(swap_core(w, a), swap_core(w, b)),
{
    broadcast use {atom_swaps, tup3_swaps};


}

pub broadcast proof fn try1_swaps(w: Swap, body: Core, x: Seq<char>, handler: Core,
    class: Seq<char>, reason: Seq<char>, stack: Seq<char>, catch: Core)
    ensures
        #[trigger] swap_core(w, shape::try1(body, x, handler, class, reason, stack, catch)) == shape::try1(swap_core(w, body), swap_name(w, x), swap_core(w, handler), swap_name(w, class), swap_name(w, reason), swap_name(w, stack), swap_core(w, catch)),
{
    assert(swap_names(w, seq![x]) =~= seq![swap_name(w, x)]);
    assert(swap_names(w, seq![class, reason, stack]) =~= seq![
        swap_name(w, class),
        swap_name(w, reason),
        swap_name(w, stack),
    ]);
}

pub broadcast proof fn binary_text_swaps(w: Swap, s: Seq<char>)
    ensures
        #[trigger] swap_core(w, shape::binary_text(s)) == shape::binary_text(s),
{
    segments_len(w, shape::byte_segments(s));
    assert(swap_segments(w, shape::byte_segments(s)) =~= shape::byte_segments(s));
}

pub broadcast proof fn expected_swaps(w: Swap, kind: Seq<char>)
    ensures
        #[trigger] swap_core(w, shape::expected(kind)) == shape::expected(kind),
{
    broadcast use {atom_swaps, binary_text_swaps, tup2_swaps};


}

pub broadcast proof fn bin2_swaps(w: Swap, a: Core, b: Core)
    ensures
        #[trigger] swap_core(w, shape::bin2(a, b)) == shape::bin2(swap_core(w, a), swap_core(w, b)),
{
    let s = seq![shape::whole(a), shape::whole(b)];
    segments_len(w, s);
    assert(swap_segments(w, s) =~= seq![
        shape::whole(swap_core(w, a)),
        shape::whole(swap_core(w, b)),
    ]);
}

pub broadcast proof fn typeof_case_swaps(w: Swap, tmp: Seq<char>)
    requires
        spared(w),
    ensures
        #[trigger] swap_core(w, shape::typeof_case(tmp)) == shape::typeof_case(swap_name(w, tmp)),
{
    broadcast use atom_swaps;

    let s = shape::typeof_clauses(tmp);
    let t = shape::typeof_clauses(swap_name(w, tmp));
    clauses_len(w, s);
    typeof_at(tmp, 0);
    typeof_at(swap_name(w, tmp), 0);
    assert forall|i: int| 0 <= i < 8 implies #[trigger] swap_clauses(w, s)[i] == t[i] by {
        typeof_at(tmp, i);
        typeof_at(swap_name(w, tmp), i);
        typeof_clause_swaps(w, tmp, asked(i).0, asked(i).1);
    }
    assert(swap_clauses(w, s) =~= t);
    atom_swaps(w, "true"@);
    let e = Core::Case(Box::new(shape::atom("true"@)), s);
    assert(swap_core(w, e) == Core::Case(Box::new(shape::atom("true"@)), t));
}

pub broadcast proof fn typeof_clause_swaps(w: Swap, tmp: Seq<char>, predicate: Seq<char>, kind: Seq<char>)
    requires
        spared(w),
    ensures
        #[trigger] swap_clause(w, shape::typeof_clause(tmp, predicate, kind)) == shape::typeof_clause(swap_name(w, tmp), predicate, kind),
{
    broadcast use {atom_swaps, call1_swaps, guarded_swaps, pvar_swaps, var_swaps};

    reveal(shape::typeof_clause);
    fixed_stay(w);
}

pub broadcast group group_shape_swaps {
    listed_swaps,
    fresh_stays,
    atom_swaps,
    num_swaps,
    string_swaps,
    nil_swaps,
    var_swaps,
    cons_swaps,
    tup1_swaps,
    tup2_swaps,
    tup3_swaps,
    call0_swaps,
    call1_swaps,
    call2_swaps,
    call3_swaps,
    call4_swaps,
    apply1_swaps,
    let1_swaps,
    fun1_swaps,
    fun2_swaps,
    fun3_swaps,
    sequence_swaps,
    raise_swaps,
    empty_map_swaps,
    patom_swaps,
    pvar_swaps,
    ptup2_swaps,
    ptag_swaps,
    guarded_swaps,
    when_swaps,
    case1_swaps,
    case2_swaps,
    if_else_swaps,
    ok_swaps,
    err_swaps,
    some_swaps,
    none_swaps,
    path_field_swaps,
    path_index_swaps,
    missing_field_swaps,
    missing_key_swaps,
    out_of_bounds_swaps,
    invalid_json_swaps,
    error_at_swaps,
    one_of_swaps,
    try1_swaps,
    binary_text_swaps,
    expected_swaps,
    bin2_swaps,
    typeof_case_swaps,
    typeof_clause_swaps,
}

pub broadcast proof fn checked_dynamic_cast_shape_swaps(w: Swap, expr: Core, predicate: Seq<char>,
    kind: Seq<char>, n: nat)
    requires
        spared(w),
    ensures
        #[trigger] swap_core(w, decode::checked_dynamic_cast_shape(expr, predicate, kind, n)) == decode::checked_dynamic_cast_shape(
            swap_core(w, expr), predicate, kind, n,
        ),
{
    broadcast use group_shape_swaps;

    fixed_stay(w);
}

pub broadcast proof fn checked_dynamic_result_cast_shape_swaps(w: Swap, expr: Core,
    predicate: Seq<char>, kind: Seq<char>, n: nat)
    requires
        spared(w),
    ensures
        #[trigger] swap_core(w, decode::checked_dynamic_result_cast_shape(expr, predicate, kind, n)) == decode::checked_dynamic_result_cast_shape(
            swap_core(w, expr), predicate, kind, n,
        ),
{
    broadcast use group_shape_swaps;

    fixed_stay(w);
}

pub broadcast proof fn dynamic_result_try_shape_swaps(w: Swap, expr: Core, error: Core, n: nat)
    requires
        spared(w),
    ensures
        #[trigger] swap_core(w, decode::dynamic_result_try_shape(expr, error, n)) == decode::dynamic_result_try_shape(
            swap_core(w, expr), swap_core(w, error), n,
        ),
{
    broadcast use group_shape_swaps;

    fixed_stay(w);
}

pub broadcast proof fn dynamic_get_result_shape_swaps(w: Swap, target: Core, key: Core, n: nat)
    requires
        spared(w),
    ensures
        #[trigger] swap_core(w, decode::dynamic_get_result_shape(target, key, n)) == decode::dynamic_get_result_shape(
            swap_core(w, target), swap_core(w, key), n,
        ),
{
    broadcast use group_shape_swaps;
    broadcast use checked_dynamic_result_cast_shape_swaps;

    fixed_stay(w);
}

pub broadcast proof fn decode_index_value_shape_swaps(w: Swap, target: Core, index: Core, n: nat)
    requires
        spared(w),
    ensures
        #[trigger] swap_core(w, decode::decode_index_value_shape(target, index, n)) == decode::decode_index_value_shape(
            swap_core(w, target), swap_core(w, index), n,
        ),
{
    broadcast use group_shape_swaps;
    broadcast use checked_dynamic_result_cast_shape_swaps;
    broadcast use dynamic_result_try_shape_swaps;

    fixed_stay(w);
}

pub broadcast proof fn decode_field_value_shape_swaps(w: Swap, target: Core, key: Core, n: nat)
    requires
        spared(w),
    ensures
        #[trigger] swap_core(w, decode::decode_field_value_shape(target, key, n)) == decode::decode_field_value_shape(
            swap_core(w, target), swap_core(w, key), n,
        ),
{
    broadcast use group_shape_swaps;
    broadcast use checked_dynamic_result_cast_shape_swaps;

    fixed_stay(w);
}

pub broadcast proof fn decode_map_shape_swaps(w: Swap, value: Core, f: Core, n: nat)
    requires
        spared(w),
    ensures
        #[trigger] swap_core(w, decode::decode_map_shape(value, f, n)) == decode::decode_map_shape(
            swap_core(w, value), swap_core(w, f), n,
        ),
{
    broadcast use group_shape_swaps;

    fixed_stay(w);
}

pub broadcast proof fn decode_then_shape_swaps(w: Swap, value: Core, f: Core, n: nat)
    requires
        spared(w),
    ensures
        #[trigger] swap_core(w, decode::decode_then_shape(value, f, n)) == decode::decode_then_shape(
            swap_core(w, value), swap_core(w, f), n,
        ),
{
    broadcast use group_shape_swaps;

    fixed_stay(w);
}

pub broadcast proof fn decode_field_shape_swaps(w: Swap, target: Core, key: Core, decoder: Core, n: nat)
    requires
        spared(w),
    ensures
        #[trigger] swap_core(w, decode::decode_field_shape(target, key, decoder, n)) == decode::decode_field_shape(
            swap_core(w, target), swap_core(w, key), swap_core(w, decoder), n,
        ),
{
    broadcast use group_shape_swaps;
    broadcast use decode_field_value_shape_swaps;

    fixed_stay(w);
}

pub broadcast proof fn decode_index_shape_swaps(w: Swap, target: Core, key: Core, decoder: Core, n: nat)
    requires
        spared(w),
    ensures
        #[trigger] swap_core(w, decode::decode_index_shape(target, key, decoder, n)) == decode::decode_index_shape(
            swap_core(w, target), swap_core(w, key), swap_core(w, decoder), n,
        ),
{
    broadcast use group_shape_swaps;
    broadcast use decode_index_value_shape_swaps;

    fixed_stay(w);
}

pub broadcast proof fn decode_optional_field_shape_swaps(w: Swap, target: Core, key: Core,
    decoder: Core, n: nat)
    requires
        spared(w),
    ensures
        #[trigger] swap_core(w, decode::decode_optional_field_shape(target, key, decoder, n)) == decode::decode_optional_field_shape(
            swap_core(w, target), swap_core(w, key), swap_core(w, decoder), n,
        ),
{
    broadcast use group_shape_swaps;
    broadcast use checked_dynamic_result_cast_shape_swaps;

    fixed_stay(w);
}

pub broadcast proof fn decode_field_or_shape_swaps(w: Swap, target: Core, key: Core, fallback: Core,
    decoder: Core, n: nat)
    requires
        spared(w),
    ensures
        #[trigger] swap_core(w, decode::decode_field_or_shape(target, key, fallback, decoder, n)) == decode::decode_field_or_shape(
            swap_core(w, target), swap_core(w, key), swap_core(w, fallback), swap_core(w, decoder), n,
        ),
{
    broadcast use group_shape_swaps;
    broadcast use checked_dynamic_result_cast_shape_swaps;

    fixed_stay(w);
}

pub broadcast proof fn decode_list_shape_swaps(w: Swap, target: Core, decoder: Core, n: nat)
    requires
        spared(w),
    ensures
        #[trigger] swap_core(w, decode::decode_list_shape(target, decoder, n)) == decode::decode_list_shape(
            swap_core(w, target), swap_core(w, decoder), n,
        ),
{
    broadcast use group_shape_swaps;
    broadcast use checked_dynamic_result_cast_shape_swaps;

    fixed_stay(w);
}

pub broadcast proof fn decode_optional_shape_swaps(w: Swap, target: Core, decoder: Core, n: nat)
    requires
        spared(w),
    ensures
        #[trigger] swap_core(w, decode::decode_optional_shape(target, decoder, n)) == decode::decode_optional_shape(
            swap_core(w, target), swap_core(w, decoder), n,
        ),
{
    broadcast use group_shape_swaps;

    fixed_stay(w);
}

pub broadcast proof fn decode_dict_shape_swaps(w: Swap, target: Core, decoder: Core, n: nat)
    requires
        spared(w),
    ensures
        #[trigger] swap_core(w, decode::decode_dict_shape(target, decoder, n)) == decode::decode_dict_shape(
            swap_core(w, target), swap_core(w, decoder), n,
        ),
{
    broadcast use group_shape_swaps;
    broadcast use checked_dynamic_result_cast_shape_swaps;

    fixed_stay(w);
}

pub broadcast proof fn decode_one_of_shape_swaps(w: Swap, target: Core, first: Core, second: Core, n: nat)
    requires
        spared(w),
    ensures
        #[trigger] swap_core(w, decode::decode_one_of_shape(target, first, second, n)) == decode::decode_one_of_shape(
            swap_core(w, target), swap_core(w, first), swap_core(w, second), n,
        ),
{
    broadcast use group_shape_swaps;

    fixed_stay(w);
}

pub broadcast proof fn kind_name_shape_swaps(w: Swap, x: Core, n: nat)
    requires
        spared(w),
    ensures
        #[trigger] swap_core(w, decode::kind_name_shape(x, n)) == decode::kind_name_shape(
            swap_core(w, x), n,
        ),
{
    broadcast use group_shape_swaps;

    fixed_stay(w);
}

pub broadcast proof fn debug_print_shape_swaps(w: Swap, x: Core, n: nat)
    requires
        spared(w),
    ensures
        #[trigger] swap_core(w, decode::debug_print_shape(x, n)) == decode::debug_print_shape(
            swap_core(w, x), n,
        ),
{
    broadcast use group_shape_swaps;

    fixed_stay(w);
}

pub broadcast proof fn checked_get_shape_swaps(w: Swap, target: Core, key: Core, n: nat)
    requires
        spared(w),
    ensures
        #[trigger] swap_core(w, decode::checked_get_shape(target, key, n)) == decode::checked_get_shape(
            swap_core(w, target), swap_core(w, key), n,
        ),
{
    broadcast use group_shape_swaps;
    broadcast use checked_dynamic_cast_shape_swaps;

    fixed_stay(w);
}

pub broadcast proof fn checked_get_or_shape_swaps(w: Swap, target: Core, key: Core, fallback: Core, n: nat)
    requires
        spared(w),
    ensures
        #[trigger] swap_core(w, decode::checked_get_or_shape(target, key, fallback, n)) == decode::checked_get_or_shape(
            swap_core(w, target), swap_core(w, key), swap_core(w, fallback), n,
        ),
{
    broadcast use group_shape_swaps;
    broadcast use checked_dynamic_cast_shape_swaps;

    fixed_stay(w);
}

pub broadcast proof fn checked_at_shape_swaps(w: Swap, target: Core, index: Core, n: nat)
    requires
        spared(w),
    ensures
        #[trigger] swap_core(w, decode::checked_at_shape(target, index, n)) == decode::checked_at_shape(
            swap_core(w, target), swap_core(w, index), n,
        ),
{
    broadcast use group_shape_swaps;
    broadcast use checked_dynamic_cast_shape_swaps;

    fixed_stay(w);
}

pub broadcast proof fn json_decode_result_shape_swaps(w: Swap, x: Core, n: nat)
    requires
        spared(w),
    ensures
        #[trigger] swap_core(w, decode::json_decode_result_shape(x, n)) == decode::json_decode_result_shape(
            swap_core(w, x), n,
        ),
{
    broadcast use group_shape_swaps;
    broadcast use dynamic_result_try_shape_swaps;

    fixed_stay(w);
}

pub broadcast proof fn concat_shape_swaps(w: Swap, l: Core, r: Core, n: nat)
    requires
        spared(w),
    ensures
        #[trigger] swap_core(w, decode::concat_shape(l, r, n)) == decode::concat_shape(
            swap_core(w, l), swap_core(w, r), n,
        ),
{
    broadcast use group_shape_swaps;

    fixed_stay(w);
    let s = seq![(fresh_name(n), l), (fresh_name(n + 1), r)];
    bindings_len(w, s);
    assert(swap_bindings(w, s) =~= seq![
        (fresh_name(n), swap_core(w, l)),
        (fresh_name(n + 1), swap_core(w, r)),
    ]);
    let left = fresh_name(n);
    let right = fresh_name(n + 1);
    let body = shape::if_else(
        shape::call1("erlang"@, "is_binary"@, shape::var(left)),
        shape::bin2(shape::var(left), shape::var(right)),
        shape::call2("erlang"@, "++"@, shape::var(left), shape::var(right)),
    );
    assert(swap_core(w, body) == body);
}

pub broadcast group group_decode_swaps {
    checked_dynamic_cast_shape_swaps,
    checked_dynamic_result_cast_shape_swaps,
    dynamic_result_try_shape_swaps,
    dynamic_get_result_shape_swaps,
    decode_index_value_shape_swaps,
    decode_field_value_shape_swaps,
    decode_map_shape_swaps,
    decode_then_shape_swaps,
    decode_field_shape_swaps,
    decode_index_shape_swaps,
    decode_optional_field_shape_swaps,
    decode_field_or_shape_swaps,
    decode_list_shape_swaps,
    decode_optional_shape_swaps,
    decode_dict_shape_swaps,
    decode_one_of_shape_swaps,
    kind_name_shape_swaps,
    debug_print_shape_swaps,
    checked_get_shape_swaps,
    checked_get_or_shape_swaps,
    checked_at_shape_swaps,
    json_decode_result_shape_swaps,
    concat_shape_swaps,
}

/// An outcome of a call after the exchange.
pub open spec fn swap_result(w: Swap, r: Option<(Core, nat)>) -> Option<(Core, nat)> {
    match r {
        Some((e, n)) => Some((swap_core(w, e), n)),
        None => None,
    }
}

proof fn special0_swaps(w: Swap, name: Seq<char>, n: nat)
    requires
        spared(w),
    ensures
        swap_result(w, special0(name, n)) == special0(name, n),
{
    broadcast use group_shape_swaps;
    broadcast use group_decode_swaps;

}

proof fn special1_swaps(w: Swap, name: Seq<char>, a: Core, n: nat)
    requires
        spared(w),
    ensures
        swap_result(w, special1(name, a, n)) == special1(name, swap_core(w, a), n),
{
    broadcast use group_shape_swaps;
    broadcast use group_decode_swaps;

}

proof fn special2_swaps(w: Swap, name: Seq<char>, a: Core, b: Core, n: nat)
    requires
        spared(w),
    ensures
        swap_result(w, special2(name, a, b, n)) == special2(name, swap_core(w, a), swap_core(w, b), n),
{
    broadcast use group_shape_swaps;
    broadcast use group_decode_swaps;

}

proof fn special3_swaps(w: Swap, name: Seq<char>, a: Core, b: Core, c: Core, n: nat)
    requires
        spared(w),
    ensures
        swap_result(w, special3(name, a, b, c, n))
            == special3(name, swap_core(w, a), swap_core(w, b), swap_core(w, c), n),
{
    broadcast use group_shape_swaps;
    broadcast use group_decode_swaps;

}

proof fn special4_swaps(w: Swap, name: Seq<char>, a: Core, b: Core, c: Core, d: Core, n: nat)
    requires
        spared(w),
    ensures
        swap_result(w, special4(name, a, b, c, d, n))
            == special4(name, swap_core(w, a), swap_core(w, b), swap_core(w, c), swap_core(w, d),
            n),
{
    broadcast use group_shape_swaps;
    broadcast use group_decode_swaps;

}

/// What a built-in is translated to changes with its arguments alone.
pub proof fn builtin_swaps(w: Swap, name: Seq<char>, args: Seq<Core>, n: nat)
    requires
        spared(w),
    ensures
        swap_result(w, builtin(name, args, n)) == builtin(name, swap_cores(w, args), n),
{
    broadcast use group_shape_swaps;

    cores_len(w, args);
    if args.len() == 0 {
        special0_swaps(w, name, n);
    } else if args.len() == 1 {
        special1_swaps(w, name, args[0], n);
    } else if args.len() == 2 {
        special2_swaps(w, name, args[0], args[1], n);
    } else if args.len() == 3 {
        special3_swaps(w, name, args[0], args[1], args[2], n);
    } else if args.len() == 4 {
        special4_swaps(w, name, args[0], args[1], args[2], args[3], n);
    }
}

} // verus!
