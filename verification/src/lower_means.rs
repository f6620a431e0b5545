//! The translation of an expression runs to what the expression means.
use vstd::prelude::*;
use vstd::utf8::encode_utf8;
use crate::ast::{BinOp, Expr, Function, MatchArm, Param, Pattern, Stmt, UnaryOp};
use crate::builtins::{builtin, plain1, plain2, special1, special2};
use crate::builtin_names::{
    known1_names, known1_parts, known2_names, known3_names, operator_names, piped_names,
    special2_calls, used_names,
};
use crate::decode::concat_shape;
use crate::erlang::{Clause, Core, Pat, Segment};
use crate::fresh::{fresh_name, fresh_names_differ};
use crate::lower::{
    ascii_upper, bool_atom, core_var, direct_call, erlang_op, generators_left, is_else, linked,
    list_pattern, lowered, lowered_all, lowered_arm, lowered_arms, lowered_comp, lowered_cond,
    lowered_entries, lowered_fields, lowered_filters, lowered_pattern, lowered_patterns,
    lowered_stmt, lowered_stmts, param_vars, pipe_target, wrapped, Part, SymbolTable,
};
use crate::lux_meaning::{
    after_stmt, after_stmts, all_hold, arm_meant, first_fitting, first_holding, fitted, fitted_all,
    gathered, gathered_over, holds, is_piped, is_plain, known, known1, meant, meant_all,
    meant_fields, meant_pairs, operation, parted, proper, with_params,
};
use crate::meaning::{
    bound, bound_all, elements, erlang, is_mapping, list_of, list_onto, lists, maps, returned, run,
    run_all, run_clause, run_entries, run_over, run_segments, run_values, taken, truth, truth_in,
    Env, Val, World,
};
use crate::shape;
use crate::swap_shape::introduced;
use crate::twin::takes;

verus! {

/// Whether the variables of a translation have the values of the names that they
/// stand for.
pub open spec fn agrees(env: Env, cenv: Env) -> bool {
    forall|x: Seq<char>| #[trigger]
        env.contains_key(x) ==> proper(x) && cenv.contains_key(core_var(x)) && cenv[core_var(x)]
            == env[x]
}

/// Names that a source gives become different variables.
proof fn variables_differ(x: Seq<char>, y: Seq<char>)
    requires
        proper(x),
        proper(y),
        core_var(x) == core_var(y),
    ensures
        x == y,
{
    assert(core_var(x)[0] == ascii_upper(x[0]));
    assert(core_var(y)[0] == ascii_upper(y[0]));
    capitals(x[0], y[0]);
    assert(core_var(x).len() == x.len() && core_var(y).len() == y.len());
    assert forall|i: int| 0 <= i < x.len() implies x[i] == y[i] by {
        if i > 0 {
            assert(core_var(x)[i] == x[i]);
            assert(core_var(y)[i] == y[i]);
        }
    }
    assert(x =~= y);
}

proof fn capitals(a: char, b: char)
    requires
        !('A' <= a && a <= 'Z'),
        !('A' <= b && b <= 'Z'),
        ascii_upper(a) == ascii_upper(b),
    ensures
        a == b,
{
    if 'a' <= a && a <= 'z' {
        assert('A' <= ascii_upper(a) && ascii_upper(a) <= 'Z');
    }
    if 'a' <= b && b <= 'z' {
        assert('A' <= ascii_upper(b) && ascii_upper(b) <= 'Z');
    }
}

proof fn agrees_bound(env: Env, cenv: Env, x: Seq<char>, v: Val)
    requires
        agrees(env, cenv),
        proper(x),
    ensures
        agrees(env.insert(x, v), cenv.insert(core_var(x), v)),
{
    let e = env.insert(x, v);
    let c = cenv.insert(core_var(x), v);
    assert forall|y: Seq<char>| #[trigger] e.contains_key(y) implies proper(y) && c.contains_key(
        core_var(y),
    ) && c[core_var(y)] == e[y] by {
        if y != x {
            assert(env.contains_key(y));
            if core_var(y) == core_var(x) {
                variables_differ(x, y);
            }
        }
    }
}

proof fn agrees_fresh(env: Env, cenv: Env, y: Seq<char>, v: Val)
    requires
        agrees(env, cenv),
        introduced(y),
    ensures
        agrees(env, cenv.insert(y, v)),
{
    let c = cenv.insert(y, v);
    assert forall|x: Seq<char>| #[trigger] env.contains_key(x) implies proper(x) && c.contains_key(
        core_var(x),
    ) && c[core_var(x)] == env[x] by {
        assert(core_var(x) != y);
    }
}

/// Whether two results are the same: none, or variables that agree.
spec fn same_bound(a: Option<Env>, b: Option<Env>) -> bool {
    match (a, b) {
        (Some(e), Some(c)) => agrees(e, c),
        (None, None) => true,
        _ => false,
    }
}

proof fn parted_step(v: Val, k: nat)
    ensures
        parted(v, k + 1) == match parted(v, k) {
            Some((items, Val::Cons(a, b))) => Some((items.push(*a), *b)),
            _ => None,
        },
        parted(v, k) matches Some((items, _)) ==> items.len() == k,
    decreases k,
{
    if k == 0 {
        match v {
            Val::Cons(h, t) => {
                assert(parted(*t, 0) == Some((Seq::<Val>::empty(), *t)));
                assert(seq![*h] + Seq::<Val>::empty() =~= Seq::<Val>::empty().push(*h));
            },
            _ => {},
        }
    } else {
        match v {
            Val::Cons(h, t) => {
                parted_step(*t, (k - 1) as nat);
                match parted(*t, (k - 1) as nat) {
                    Some((items, Val::Cons(a, b))) => {
                        assert(seq![*h] + items.push(*a) =~= (seq![*h] + items).push(*a));
                    },
                    _ => {},
                }
            },
            _ => {},
        }
    }
}

proof fn patterns_len(s: Seq<Pattern>)
    ensures
        lowered_patterns(s).len() == s.len(),
    decreases s.len(),
{
    if s.len() > 0 {
        patterns_len(s.drop_last());
    }
}

/// What a list pattern of the translation asks of a value.
proof fn list_pattern_bound(s: Seq<Pattern>, end: Pat, v: Val, c: Env)
    ensures
        bound(list_pattern(s, end), v, c) == match parted(v, s.len()) {
            Some((items, rest)) => match bound_all(lowered_patterns(s), items, c) {
                Some(c1) => bound(end, rest, c1),
                None => None,
            },
            None => None,
        },
    decreases s.len(),
{
    patterns_len(s);
    if s.len() == 0 {
        assert(bound_all(Seq::empty(), Seq::empty(), c) == Some(c));
    } else {
        let front = s.drop_last();
        let q = lowered_pattern(s.last());
        let more = Pat::Cons(Box::new(q), Box::new(end));
        list_pattern_bound(front, more, v, c);
        patterns_len(front);
        parted_step(v, front.len());
        parted_step(v, s.len());
        match parted(v, front.len()) {
            Some((items, rest)) => {
                match rest {
                    Val::Cons(a, b) => {
                        let all = items.push(*a);
                        assert(all.drop_last() =~= items);
                        assert(lowered_patterns(s).drop_last() =~= lowered_patterns(front));
                        assert(lowered_patterns(s).last() == q);
                    },
                    _ => {
                        match bound_all(lowered_patterns(front), items, c) {
                            Some(c1) => {
                                assert(bound(more, rest, c1) is None);
                            },
                            None => {},
                        }
                    },
                }
            },
            None => {},
        }
    }
}

#[verifier::rlimit(40)]
proof fn pattern_means(p: Pattern, v: Val, env: Env, cenv: Env)
    requires
        is_plain(p),
        agrees(env, cenv),
    ensures
        same_bound(fitted(p, v, env), bound(lowered_pattern(p), v, cenv)),
    decreases p,
{
    match p {
        Pattern::Var(x) => {
            agrees_bound(env, cenv, x@, v);
            assert(core_var(x@) != "_"@);
        },
        Pattern::Tuple(s) => {
            if s@.len() > 0 {
                patterns_len(s@);
                match v {
                    Val::Tuple(items) => {
                        patterns_mean(s@, items, env, cenv);
                    },
                    _ => {},
                }
            }
        },
        Pattern::List(s, tail) => {
            let end = match tail {
                Some(rest) => lowered_pattern(*rest),
                None => Pat::Nil,
            };
            list_pattern_bound(s@, end, v, cenv);
            match parted(v, s@.len()) {
                Some((items, rest)) => {
                    patterns_mean(s@, items, env, cenv);
                    match (
                        fitted_all(s@, items, env),
                        bound_all(lowered_patterns(s@), items, cenv),
                    ) {
                        (Some(e), Some(c)) => {
                            match tail {
                                Some(q) => {
                                    pattern_means(*q, rest, e, c);
                                },
                                None => {},
                            }
                        },
                        _ => {},
                    }
                },
                None => {},
            }
        },
        _ => {},
    }
}

#[verifier::rlimit(40)]
proof fn patterns_mean(s: Seq<Pattern>, items: Seq<Val>, env: Env, cenv: Env)
    requires
        forall|i: int| 0 <= i < s.len() ==> is_plain(#[trigger] s[i]),
        agrees(env, cenv),
    ensures
        same_bound(fitted_all(s, items, env), bound_all(lowered_patterns(s), items, cenv)),
    decreases s,
{
    patterns_len(s);
    if s.len() > 0 && s.len() == items.len() {
        let front = s.drop_last();
        assert forall|i: int| 0 <= i < front.len() implies is_plain(#[trigger] front[i]) by {
            assert(front[i] == s[i]);
        }
        patterns_mean(front, items.drop_last(), env, cenv);
        assert(lowered_patterns(s).drop_last() =~= lowered_patterns(front));
        assert(is_plain(s[s.len() - 1]));
        match (
            fitted_all(front, items.drop_last(), env),
            bound_all(lowered_patterns(front), items.drop_last(), cenv),
        ) {
            (Some(e), Some(c)) => {
                pattern_means(s.last(), items.last(), e, c);
            },
            _ => {},
        }
    }
}

proof fn list_onto_push(s: Seq<Val>, x: Val, tail: Val)
    ensures
        list_onto(s.push(x), tail) == list_onto(s, Val::Cons(Box::new(x), Box::new(tail))),
    decreases s.len(),
{
    if s.len() == 0 {
        assert(s.push(x).drop_first() =~= Seq::<Val>::empty());
        assert(list_onto(Seq::<Val>::empty(), tail) == tail);
    } else {
        assert(s.push(x).drop_first() =~= s.drop_first().push(x));
        list_onto_push(s.drop_first(), x, tail);
    }
}

proof fn list_onto_onto(s: Seq<Val>, t: Seq<Val>, tail: Val)
    ensures
        list_onto(s, list_onto(t, tail)) == list_onto(s + t, tail),
    decreases s.len(),
{
    if s.len() == 0 {
        assert(s + t =~= t);
    } else {
        assert((s + t).drop_first() =~= s.drop_first() + t);
        list_onto_onto(s.drop_first(), t, tail);
    }
}

proof fn elements_of(s: Seq<Val>)
    ensures
        elements(list_of(s)) == Some(s),
    decreases s.len(),
{
    if s.len() > 0 {
        elements_of(s.drop_first());
        assert(seq![s[0]] + s.drop_first() =~= s);
    }
}

/// A proper list is the list of its elements.
proof fn listed_elements(v: Val)
    ensures
        elements(v) matches Some(s) ==> v == list_of(s),
    decreases v,
{
    match v {
        Val::Cons(h, t) => {
            listed_elements(*t);
            match elements(*t) {
                Some(s) => {
                    assert((seq![*h] + s).drop_first() =~= s);
                    assert((seq![*h] + s)[0] == *h);
                },
                None => {},
            }
        },
        _ => {},
    }
}

#[verifier::rlimit(40)]
proof fn listed_runs(s: Seq<Core>, tail: Core, cenv: Env, w: World)
    ensures
        run(shape::listed_onto(s, tail), cenv, w) == match (
            run_all(s, cenv, w),
            run(tail, cenv, w),
        ) {
            (Some(v), Some(t)) => Some(list_onto(v, t)),
            _ => None,
        },
    decreases s.len(),
{
    if s.len() == 0 {
        match run(tail, cenv, w) {
            Some(t) => {
                assert(list_onto(Seq::<Val>::empty(), t) == t);
            },
            None => {},
        }
    } else {
        listed_runs(s.drop_last(), shape::cons(s.last(), tail), cenv, w);
        match (run_all(s.drop_last(), cenv, w), run(s.last(), cenv, w), run(tail, cenv, w)) {
            (Some(v), Some(x), Some(t)) => {
                list_onto_push(v, x, t);
            },
            _ => {},
        }
    }
}

proof fn all_len(s: Seq<Core>, cenv: Env, w: World)
    ensures
        run_all(s, cenv, w) matches Some(v) ==> v.len() == s.len(),
    decreases s.len(),
{
    if s.len() > 0 {
        all_len(s.drop_last(), cenv, w);
    }
}

proof fn run1(a: Core, cenv: Env, w: World)
    ensures
        run_all(seq![a], cenv, w) == match run(a, cenv, w) {
            Some(x) => Some(seq![x]),
            None => None,
        },
{
    let s = seq![a];
    assert(s.drop_last() =~= Seq::<Core>::empty());
    assert(run_all(Seq::<Core>::empty(), cenv, w) == Some(Seq::<Val>::empty()));
    match run(a, cenv, w) {
        Some(x) => {
            assert(Seq::<Val>::empty().push(x) =~= seq![x]);
        },
        None => {},
    }
}

proof fn run2(a: Core, b: Core, cenv: Env, w: World)
    ensures
        run_all(seq![a, b], cenv, w) == match (run(a, cenv, w), run(b, cenv, w)) {
            (Some(x), Some(y)) => Some(seq![x, y]),
            _ => None,
        },
{
    let s = seq![a, b];
    assert(s.drop_last() =~= seq![a]);
    run1(a, cenv, w);
    match (run(a, cenv, w), run(b, cenv, w)) {
        (Some(x), Some(y)) => {
            assert(seq![x].push(y) =~= seq![x, y]);
        },
        _ => {},
    }
}

proof fn run3(a: Core, b: Core, c: Core, cenv: Env, w: World)
    ensures
        run_all(seq![a, b, c], cenv, w) == match (
            run(a, cenv, w),
            run(b, cenv, w),
            run(c, cenv, w),
        ) {
            (Some(x), Some(y), Some(z)) => Some(seq![x, y, z]),
            _ => None,
        },
{
    let s = seq![a, b, c];
    assert(s.drop_last() =~= seq![a, b]);
    run2(a, b, cenv, w);
    match (run(a, cenv, w), run(b, cenv, w), run(c, cenv, w)) {
        (Some(x), Some(y), Some(z)) => {
            assert(seq![x, y].push(z) =~= seq![x, y, z]);
        },
        _ => {},
    }
}

/// A choice of two runs one of them.
#[verifier::rlimit(40)]
proof fn if_else_runs(x: Core, a: Core, b: Core, cenv: Env, w: World)
    ensures
        run(x, cenv, w) matches Some(v) ==> run(shape::if_else(x, a, b), cenv, w) == match truth_in(
            v,
        ) {
            Some(true) => run(a, cenv, w),
            Some(false) => run(b, cenv, w),
            None => None,
        },
{
    let yes = shape::when(shape::patom("true"@), a);
    let no = shape::when(shape::patom("false"@), b);
    let s = seq![yes, no];
    assert(s.drop_last() =~= seq![yes]);
    assert(seq![yes].drop_last() =~= Seq::<Clause>::empty());
    truths_differ();
    match run(x, cenv, w) {
        Some(v) => {
            assert(taken(Seq::<Clause>::empty(), v, cenv, w) is None);
            assert(taken(seq![yes], v, cenv, w) == run_clause(yes, v, cenv, w));
            assert(run(shape::atom("true"@), cenv, w) == Some(truth(true)));
            assert(taken(s, v, cenv, w) == match run_clause(yes, v, cenv, w) {
                Some(r) => Some(r),
                None => run_clause(no, v, cenv, w),
            });
        },
        None => {},
    }
}

proof fn truths_differ()
    ensures
        truth(true) != truth(false),
{
    reveal_strlit("true");
    reveal_strlit("false");
    assert("true"@.len() != "false"@.len());
}

#[verifier::rlimit(40)]
proof fn let1_runs(x: Seq<char>, a: Core, b: Core, cenv: Env, w: World)
    ensures
        run(shape::let1(x, a, b), cenv, w) == match run(a, cenv, w) {
            Some(v) => run(b, cenv.insert(x, v), w),
            None => None,
        },
{
    let s = seq![(x, a)];
    assert(s.drop_last() =~= Seq::<(Seq<char>, Core)>::empty());
    assert(run_values(Seq::<(Seq<char>, Core)>::empty(), cenv, cenv, w) == Some(cenv));
    assert(run_values(s, cenv, cenv, w) == match run(a, cenv, w) {
        Some(v) => Some(cenv.insert(x, v)),
        None => None,
    });
}

/// A `try` whose body has a value.
#[verifier::rlimit(40)]
proof fn try1_runs(
    body: Core,
    x: Seq<char>,
    class: Seq<char>,
    reason: Seq<char>,
    stack: Seq<char>,
    catch: Core,
    cenv: Env,
    w: World,
)
    ensures
        run(shape::try1(body, x, shape::var(x), class, reason, stack, catch), cenv, w) == run(
            body,
            cenv,
            w,
        ),
{
    match run(body, cenv, w) {
        Some(v) => {
            let e = cenv.insert(x, v);
            assert(run(shape::var(x), e, w) == Some(v));
            assert(seq![x][0] == x);
        },
        None => {},
    }
}

/// A list of one element.
#[verifier::rlimit(40)]
proof fn one_runs(x: Core, cenv: Env, w: World)
    ensures
        run(shape::cons(x, shape::nil()), cenv, w) == match run(x, cenv, w) {
            Some(v) => Some(list_of(seq![v])),
            None => None,
        },
{
    assert(run(shape::nil(), cenv, w) == Some(Val::Nil));
    match run(x, cenv, w) {
        Some(v) => {
            assert(seq![v].drop_first() =~= Seq::<Val>::empty());
            assert(list_of(Seq::<Val>::empty()) == Val::Nil);
        },
        None => {},
    }
}

#[verifier::rlimit(40)]
proof fn atom_runs(a: Seq<char>, cenv: Env, w: World)
    ensures
        run(shape::atom(a), cenv, w) == Some(Val::Atom(a)),
{
}

#[verifier::rlimit(40)]
proof fn num_runs(n: int, cenv: Env, w: World)
    ensures
        run(shape::num(n), cenv, w) == Some(Val::Int(n)),
{
}

#[verifier::rlimit(40)]
proof fn nil_runs(cenv: Env, w: World)
    ensures
        run(shape::nil(), cenv, w) == Some(Val::Nil),
{
}

#[verifier::rlimit(40)]
proof fn var_runs(x: Seq<char>, cenv: Env, w: World)
    ensures
        run(shape::var(x), cenv, w) == if cenv.contains_key(x) {
            Some(cenv[x])
        } else {
            None
        },
{
}

#[verifier::rlimit(40)]
proof fn tuple_runs(s: Seq<Core>, cenv: Env, w: World)
    ensures
        run(Core::Tuple(s), cenv, w) == match run_all(s, cenv, w) {
            Some(v) => Some(Val::Tuple(v)),
            None => None,
        },
{
}

#[verifier::rlimit(40)]
proof fn dict_runs(s: Seq<(Core, Core)>, cenv: Env, w: World)
    ensures
        run(Core::MapLit(s), cenv, w) == match run_entries(s, cenv, w) {
            Some(d) => Some(Val::Dict(d)),
            None => None,
        },
{
}

#[verifier::rlimit(40)]
proof fn binary_runs(s: Seq<Segment>, cenv: Env, w: World)
    ensures
        run(Core::Binary(s), cenv, w) == match run_segments(s, cenv, w) {
            Some(b) => Some(Val::Bytes(b)),
            None => None,
        },
{
}

#[verifier::rlimit(40)]
proof fn let_runs(s: Seq<(Seq<char>, Core)>, body: Core, cenv: Env, w: World)
    ensures
        run(Core::Let(s, Box::new(body)), cenv, w) == match run_values(s, cenv, cenv, w) {
            Some(e) => run(body, e, w),
            None => None,
        },
{
}

/// A call of a mapping function.
#[verifier::rlimit(40)]
proof fn mapping_runs(
    f: Seq<char>,
    x: Seq<char>,
    body: Core,
    source: Core,
    l: Val,
    cenv: Env,
    w: World,
)
    requires
        f == "map"@ || f == "filtermap"@ || f == "flatmap"@,
        run(source, cenv, w) == Some(l),
    ensures
        run(shape::call2("lists"@, f, shape::fun1(x, body), source), cenv, w) == run_over(
            f,
            x,
            body,
            l,
            cenv,
            w,
        ),
{
    let args = seq![shape::fun1(x, body), source];
    assert(is_mapping("lists"@, f, args));
    assert(args[0]->Fun_0[0] == x);
    assert(args[1] == source);
}

/// A call of a library function that is not given a function.
#[verifier::rlimit(40)]
proof fn call_runs(m: Seq<char>, f: Seq<char>, args: Seq<Core>, cenv: Env, w: World)
    requires
        !is_mapping(m, f, args),
    ensures
        run(Core::Call(m, f, args), cenv, w) == match run_all(args, cenv, w) {
            Some(s) => returned(m, f, s, w),
            None => None,
        },
{
}

/// A text runs to its bytes.
#[verifier::rlimit(40)]
proof fn text_runs(b: Seq<u8>, cenv: Env, w: World)
    ensures
        run_segments(Seq::new(b.len(), |i: int| shape::byte_segment(b[i])), cenv, w) == Some(b),
    decreases b.len(),
{
    let s = Seq::new(b.len(), |i: int| shape::byte_segment(b[i]));
    if b.len() > 0 {
        let c = b.drop_last();
        text_runs(c, cenv, w);
        assert(s.drop_last() =~= Seq::new(c.len(), |i: int| shape::byte_segment(c[i])));
        let x = b.last();
        assert(s.last() == shape::byte_segment(x));
        assert(run(s.last().value, cenv, w) == Some(Val::Int(x as int)));
        assert((x as int) as u8 == x);
        assert(c + seq![x] =~= b);
    } else {
        assert(s =~= Seq::<Segment>::empty());
        assert(b =~= Seq::<u8>::empty());
    }
}

/// Two binaries run to one behind the other.
#[verifier::rlimit(40)]
proof fn bin2_runs(a: Core, b: Core, cenv: Env, w: World)
    ensures
        (run(a, cenv, w) matches Some(Val::Bytes(x)) && (run(b, cenv, w) matches Some(
            Val::Bytes(y),
        ) && run(shape::bin2(a, b), cenv, w) != Some(Val::Bytes(x + y)))) ==> false,
{
    let s = seq![shape::whole(a), shape::whole(b)];
    let t = seq![shape::whole(a)];
    assert(s.drop_last() =~= t);
    assert(t.drop_last() =~= Seq::<Segment>::empty());
    assert(run_segments(Seq::<Segment>::empty(), cenv, w) == Some(Seq::<u8>::empty()));
    match (run(a, cenv, w), run(b, cenv, w)) {
        (Some(Val::Bytes(x)), Some(Val::Bytes(y))) => {
            assert(run_segments(t, cenv, w) == Some(Seq::<u8>::empty() + x));
            assert(Seq::<u8>::empty() + x =~= x);
            assert(run_segments(s, cenv, w) == Some(x + y));
        },
        _ => {},
    }
}

#[verifier::rlimit(40)]
proof fn concat_runs(l: Core, r: Core, n: nat, a: Val, b: Val, cenv: Env, w: World)
    requires
        run(l, cenv, w) == Some(a),
        run(r, cenv, w) == Some(b),
        operation(BinOp::Concat, a, b) is Some,
    ensures
        run(concat_shape(l, r, n), cenv, w) == operation(BinOp::Concat, a, b),
{
    let x = fresh_name(n);
    let y = fresh_name(n + 1);
    fresh_names_differ(n, n + 1);
    let s = seq![(x, l), (y, r)];
    let t = seq![(x, l)];
    assert(s.drop_last() =~= t);
    assert(t.drop_last() =~= Seq::<(Seq<char>, Core)>::empty());
    assert(run_values(Seq::<(Seq<char>, Core)>::empty(), cenv, cenv, w) == Some(cenv));
    assert(run_values(t, cenv, cenv, w) == Some(cenv.insert(x, a)));
    let c = cenv.insert(x, a).insert(y, b);
    assert(run_values(s, cenv, cenv, w) == Some(c));
    let vx = shape::var(x);
    let vy = shape::var(y);
    var_runs(x, c, w);
    var_runs(y, c, w);
    let_runs(
        s,
        shape::if_else(
            shape::call1("erlang"@, "is_binary"@, vx),
            shape::bin2(vx, vy),
            shape::call2("erlang"@, "++"@, vx, vy),
        ),
        cenv,
        w,
    );
    reveal(operation);
    used_names(a, b, w);
    truths_differ();
    run1(vx, c, w);
    run2(vx, vy, c, w);
    let test = shape::call1("erlang"@, "is_binary"@, vx);
    call_runs("erlang"@, "is_binary"@, seq![vx], c, w);
    assert(run(test, c, w) == Some(truth(a is Bytes)));
    bin2_runs(vx, vy, c, w);
    call_runs("erlang"@, "++"@, seq![vx, vy], c, w);
    let other = shape::call2("erlang"@, "++"@, vx, vy);
    if_else_runs(test, shape::bin2(vx, vy), other, c, w);
}

/// Whether a translation runs to what is meant.
spec fn right(c: Core, cenv: Env, w: World, v: Option<Val>) -> bool {
    v is Some ==> run(c, cenv, w) == v
}

/// The translation of an expression runs to what the expression means.
pub proof fn translation_means(e: Expr, env: Env, cenv: Env, tab: SymbolTable, n: nat, w: World)
    requires
        agrees(env, cenv),
    ensures
        meant(e, env, tab, w) is Some ==> run(lowered(e, tab, n).0, cenv, w) == meant(
            e,
            env,
            tab,
            w,
        ),
    decreases e, 2nat, 0nat, 0nat,
{
    if meant(e, env, tab, w) is Some {
        match e {
            Expr::Int(i) => {
                num_runs(i as int, cenv, w);
            },
            Expr::Char(c) => {
                num_runs(c as int, cenv, w);
            },
            Expr::Bool(b) => {
                atom_runs(bool_atom(b), cenv, w);
            },
            Expr::Atom(a) => {
                atom_runs(a@, cenv, w);
            },
            Expr::Unit => {
                atom_runs("ok"@, cenv, w);
            },
            Expr::Var(x) => {
                var_runs(core_var(x@), cenv, w);
            },
            Expr::String(s) => {
                binary_runs(shape::byte_segments(s@), cenv, w);
                text_runs(encode_utf8(s@), cenv, w);
                assert(shape::byte_segments(s@) =~= Seq::new(
                    encode_utf8(s@).len(),
                    |i: int| shape::byte_segment(encode_utf8(s@)[i]),
                ));
            },
            Expr::Tuple(s) => {
                all_mean(s@, env, cenv, tab, n, w);
                tuple_runs(lowered_all(s@, tab, n).0, cenv, w);
            },
            Expr::List(..) => {
                list_means(e, env, cenv, tab, n, w);
            },
            Expr::MapLit(s) => {
                pairs_mean(s@, env, cenv, tab, n, w);
                dict_runs(lowered_entries(s@, tab, n).0, cenv, w);
            },
            Expr::StructInit(_, s) => {
                fields_mean(s@, env, cenv, tab, n, w);
                dict_runs(lowered_fields(s@, tab, n).0, cenv, w);
            },
            Expr::Field(..) => {
                field_means(e, env, cenv, tab, n, w);
            },
            Expr::Index(..) => {
                index_means(e, env, cenv, tab, n, w);
            },
            Expr::Range(..) => {
                range_means(e, env, cenv, tab, n, w);
            },
            Expr::ListComp { .. } => {
                comp_expr_means(e, env, cenv, tab, n, w);
            },
            Expr::Binary(..) => {
                binary_means(e, env, cenv, tab, n, w);
            },
            Expr::Unary(..) => {
                unary_means(e, env, cenv, tab, n, w);
            },
            Expr::If(..) => {
                if_means(e, env, cenv, tab, n, w);
            },
            Expr::Cond(s) => {
                atom_runs("ok"@, cenv, w);
                atom_runs("nil"@, cenv, w);
                if s@.len() > 0 {
                    cond_means(
                        s@,
                        shape::atom("nil"@),
                        Some(Val::Atom("nil"@)),
                        env,
                        cenv,
                        tab,
                        n,
                        w,
                    );
                }
            },
            Expr::Match(x, arms) => {
                translation_means(*x, env, cenv, tab, n, w);
                match meant(*x, env, tab, w) {
                    Some(v) => {
                        let (c, n1) = lowered(*x, tab, n);
                        arms_mean(arms@, v, env, cenv, tab, n1, w);
                        case_runs(c, lowered_arms(arms@, tab, n1).0, v, cenv, w);
                    },
                    None => {},
                }
            },
            Expr::Block(..) => {
                block_means(e, env, cenv, tab, n, w);
            },
            Expr::Call(..) => {
                call_means(e, env, cenv, tab, n, w);
            },
            Expr::Try { .. } => {
                try_means(e, env, cenv, tab, n, w);
            },
            _ => {},
        }
    }
}

#[verifier::rlimit(40)]
proof fn all_mean(s: Seq<Expr>, env: Env, cenv: Env, tab: SymbolTable, n: nat, w: World)
    requires
        agrees(env, cenv),
    ensures
        meant_all(s, env, tab, w) is Some ==> run_all(lowered_all(s, tab, n).0, cenv, w)
            == meant_all(s, env, tab, w),
        lowered_all(s, tab, n).0.len() == s.len(),
        meant_all(s, env, tab, w) matches Some(v) ==> v.len() == s.len(),
    decreases s, 0nat, 0nat, 0nat,
{
    if s.len() > 0 {
        let front = s.drop_last();
        all_mean(front, env, cenv, tab, n, w);
        let (v, n1) = lowered_all(front, tab, n);
        translation_means(s.last(), env, cenv, tab, n1, w);
        assert(lowered_all(s, tab, n).0.drop_last() =~= v);
    }
}

proof fn entries_step(v: Seq<(Core, Core)>, x: Core, y: Core, cenv: Env, w: World)
    ensures
        run_entries(v.push((x, y)), cenv, w) == match (
            run_entries(v, cenv, w),
            run(x, cenv, w),
            run(y, cenv, w),
        ) {
            (Some(d), Some(a), Some(b)) => Some(d.push((a, b))),
            _ => None,
        },
{
    assert(v.push((x, y)).drop_last() =~= v);
}

#[verifier::rlimit(40)]
proof fn pairs_mean(s: Seq<(Expr, Expr)>, env: Env, cenv: Env, tab: SymbolTable, n: nat, w: World)
    requires
        agrees(env, cenv),
    ensures
        meant_pairs(s, env, tab, w) is Some ==> run_entries(lowered_entries(s, tab, n).0, cenv, w)
            == meant_pairs(s, env, tab, w),
    decreases s, 0nat, 0nat, 0nat,
{
    if s.len() > 0 {
        let front = s.drop_last();
        pairs_mean(front, env, cenv, tab, n, w);
        let (v, n1) = lowered_entries(front, tab, n);
        translation_means(s.last().0, env, cenv, tab, n1, w);
        translation_means(s.last().1, env, cenv, tab, lowered(s.last().0, tab, n1).1, w);
        let x = lowered(s.last().0, tab, n1).0;
        let y = lowered(s.last().1, tab, lowered(s.last().0, tab, n1).1).0;
        assert(lowered_entries(s, tab, n).0 == v.push((x, y)));
        entries_step(v, x, y, cenv, w);
    }
}

#[verifier::rlimit(40)]
proof fn fields_mean(
    s: Seq<(String, Expr)>,
    env: Env,
    cenv: Env,
    tab: SymbolTable,
    n: nat,
    w: World,
)
    requires
        agrees(env, cenv),
    ensures
        meant_fields(s, env, tab, w) is Some ==> run_entries(lowered_fields(s, tab, n).0, cenv, w)
            == meant_fields(s, env, tab, w),
    decreases s, 0nat, 0nat, 0nat,
{
    if s.len() > 0 {
        let front = s.drop_last();
        fields_mean(front, env, cenv, tab, n, w);
        let (v, n1) = lowered_fields(front, tab, n);
        translation_means(s.last().1, env, cenv, tab, n1, w);
        let key = shape::atom(s.last().0@);
        let x = lowered(s.last().1, tab, n1).0;
        atom_runs(s.last().0@, cenv, w);
        assert(lowered_fields(s, tab, n).0 == v.push((key, x)));
        entries_step(v, key, x, cenv, w);
    }
}

#[verifier::rlimit(40)]
proof fn list_means(e: Expr, env: Env, cenv: Env, tab: SymbolTable, n: nat, w: World)
    requires
        agrees(env, cenv),
        e is List,
        meant(e, env, tab, w) is Some,
    ensures
        run(lowered(e, tab, n).0, cenv, w) == meant(e, env, tab, w),
    decreases e, 1nat, 0nat, 0nat,
{
    match e {
        Expr::List(s, tail) => {
            all_mean(s@, env, cenv, tab, n, w);
            let (v, n1) = lowered_all(s@, tab, n);
            match tail {
                Some(rest) => {
                    translation_means(*rest, env, cenv, tab, n1, w);
                    listed_runs(v, lowered(*rest, tab, n1).0, cenv, w);
                },
                None => {
                    nil_runs(cenv, w);
                    listed_runs(v, shape::nil(), cenv, w);
                },
            }
        },
        _ => {},
    }
}

#[verifier::rlimit(40)]
proof fn field_means(e: Expr, env: Env, cenv: Env, tab: SymbolTable, n: nat, w: World)
    requires
        agrees(env, cenv),
        e is Field,
        meant(e, env, tab, w) is Some,
    ensures
        run(lowered(e, tab, n).0, cenv, w) == meant(e, env, tab, w),
    decreases e, 1nat, 0nat, 0nat,
{
    match e {
        Expr::Field(x, name) => {
            translation_means(*x, env, cenv, tab, n, w);
            let c = lowered(*x, tab, n).0;
            let k = shape::atom(name@);
            atom_runs(name@, cenv, w);
            run2(k, c, cenv, w);
            used_names(Val::Atom(name@), meant(*x, env, tab, w)->Some_0, w);
            call_runs("maps"@, "get"@, seq![k, c], cenv, w);
        },
        _ => {},
    }
}

#[verifier::rlimit(40)]
proof fn index_means(e: Expr, env: Env, cenv: Env, tab: SymbolTable, n: nat, w: World)
    requires
        agrees(env, cenv),
        e is Index,
        meant(e, env, tab, w) is Some,
    ensures
        run(lowered(e, tab, n).0, cenv, w) == meant(e, env, tab, w),
    decreases e, 1nat, 0nat, 0nat,
{
    match e {
        Expr::Index(x, key) => {
            translation_means(*x, env, cenv, tab, n, w);
            let (c, n1) = lowered(*x, tab, n);
            translation_means(*key, env, cenv, tab, n1, w);
            let k = lowered(*key, tab, n1).0;
            run2(k, c, cenv, w);
            used_names(meant(*key, env, tab, w)->Some_0, meant(*x, env, tab, w)->Some_0, w);
            call_runs("maps"@, "get"@, seq![k, c], cenv, w);
        },
        _ => {},
    }
}

#[verifier::rlimit(80)]
#[verifier::spinoff_prover]
proof fn range_means(e: Expr, env: Env, cenv: Env, tab: SymbolTable, n: nat, w: World)
    requires
        agrees(env, cenv),
        e is Range,
        meant(e, env, tab, w) is Some,
    ensures
        run(lowered(e, tab, n).0, cenv, w) == meant(e, env, tab, w),
    decreases e, 1nat, 0nat, 0nat,
{
    match e {
        Expr::Range(a, b, inclusive) => {
            translation_means(*a, env, cenv, tab, n, w);
            let (x, n1) = lowered(*a, tab, n);
            translation_means(*b, env, cenv, tab, n1, w);
            let y = lowered(*b, tab, n1).0;
            let i = meant(*a, env, tab, w)->Some_0;
            let j = meant(*b, env, tab, w)->Some_0;
            used_names(i, j, w);
            if inclusive {
                run2(x, y, cenv, w);
                call_runs("lists"@, "seq"@, seq![x, y], cenv, w);
            } else {
                let one = Val::Int(1);
                num_runs(1, cenv, w);
                used_names(j, one, w);
                run2(y, shape::num(1), cenv, w);
                call_runs("erlang"@, "-"@, seq![y, shape::num(1)], cenv, w);
                let last = shape::call2("erlang"@, "-"@, y, shape::num(1));
                let z = Val::Int(j->Int_0 - 1);
                assert(run(last, cenv, w) == Some(z));
                used_names(i, z, w);
                run2(x, last, cenv, w);
                call_runs("lists"@, "seq"@, seq![x, last], cenv, w);
            }
        },
        _ => {},
    }
}

#[verifier::rlimit(40)]
proof fn binary_means(e: Expr, env: Env, cenv: Env, tab: SymbolTable, n: nat, w: World)
    requires
        agrees(env, cenv),
        e is Binary,
        meant(e, env, tab, w) is Some,
    ensures
        run(lowered(e, tab, n).0, cenv, w) == meant(e, env, tab, w),
    decreases e, 1nat, 0nat, 0nat,
{
    match e {
        Expr::Binary(a, op, b) => {
            translation_means(*a, env, cenv, tab, n, w);
            let (x, n1) = lowered(*a, tab, n);
            let v = meant(*a, env, tab, w)->Some_0;
            if op is Pipe {
                match *b {
                    Expr::Var(name) => {
                        piped_names(name@, v, w);
                        run1(x, cenv, w);
                        match pipe_target(*b, tab) {
                            Some((m, f)) => {
                                assert(!is_mapping(m, f, seq![x]));
                                call_runs(m, f, seq![x], cenv, w);
                                if !is_piped(name@) {
                                    assert(f == "apply"@ && linked(tab, name@, 1) == Some(m));
                                }
                            },
                            None => {},
                        }
                    },
                    _ => {},
                }
            } else {
                translation_means(*b, env, cenv, tab, n1, w);
                let (y, n2) = lowered(*b, tab, n1);
                let u = meant(*b, env, tab, w)->Some_0;
                if op is Concat {
                    concat_runs(x, y, n2, v, u, cenv, w);
                } else {
                    operator_names(op, v, u);
                    used_names(v, u, w);
                    run2(x, y, cenv, w);
                    call_runs("erlang"@, erlang_op(op), seq![x, y], cenv, w);
                }
            }
        },
        _ => {},
    }
}

#[verifier::rlimit(40)]
proof fn unary_means(e: Expr, env: Env, cenv: Env, tab: SymbolTable, n: nat, w: World)
    requires
        agrees(env, cenv),
        e is Unary,
        meant(e, env, tab, w) is Some,
    ensures
        run(lowered(e, tab, n).0, cenv, w) == meant(e, env, tab, w),
    decreases e, 1nat, 0nat, 0nat,
{
    match e {
        Expr::Unary(op, a) => {
            translation_means(*a, env, cenv, tab, n, w);
            let x = lowered(*a, tab, n).0;
            let v = meant(*a, env, tab, w)->Some_0;
            used_names(v, v, w);
            run1(x, cenv, w);
            match op {
                UnaryOp::Neg => call_runs("erlang"@, "-"@, seq![x], cenv, w),
                UnaryOp::Not => call_runs("erlang"@, "not"@, seq![x], cenv, w),
            }
        },
        _ => {},
    }
}

#[verifier::rlimit(40)]
proof fn if_means(e: Expr, env: Env, cenv: Env, tab: SymbolTable, n: nat, w: World)
    requires
        agrees(env, cenv),
        e is If,
        meant(e, env, tab, w) is Some,
    ensures
        run(lowered(e, tab, n).0, cenv, w) == meant(e, env, tab, w),
    decreases e, 1nat, 0nat, 0nat,
{
    match e {
        Expr::If(c, yes, no) => {
            translation_means(*c, env, cenv, tab, n, w);
            let (x, n1) = lowered(*c, tab, n);
            translation_means(*yes, env, cenv, tab, n1, w);
            let (a, n2) = lowered(*yes, tab, n1);
            match no {
                Some(other) => {
                    translation_means(*other, env, cenv, tab, n2, w);
                    if_else_runs(x, a, lowered(*other, tab, n2).0, cenv, w);
                },
                None => {
                    atom_runs("ok"@, cenv, w);
                    if_else_runs(x, a, shape::atom("ok"@), cenv, w);
                },
            }
        },
        _ => {},
    }
}

#[verifier::rlimit(40)]
proof fn cond_means(
    s: Seq<(Expr, Expr)>,
    other: Core,
    o: Option<Val>,
    env: Env,
    cenv: Env,
    tab: SymbolTable,
    n: nat,
    w: World,
)
    requires
        agrees(env, cenv),
        right(other, cenv, w, o),
    ensures
        right(lowered_cond(s, tab, other, n).0, cenv, w, first_holding(s, o, env, tab, w)),
    decreases s, 0nat, 0nat, 0nat,
{
    if s.len() > 0 {
        translation_means(s.last().0, env, cenv, tab, n, w);
        let (c, n1) = lowered(s.last().0, tab, n);
        translation_means(s.last().1, env, cenv, tab, n1, w);
        let (b, n2) = lowered(s.last().1, tab, n1);
        let here = if is_else(s.last().0) {
            b
        } else {
            shape::if_else(c, b, other)
        };
        let p = match holds(s.last().0, env, tab, w) {
            Some(true) => meant(s.last().1, env, tab, w),
            Some(false) => o,
            None => None,
        };
        else_holds(s.last().0, env, tab, w);
        if_else_runs(c, b, other, cenv, w);
        assert(right(here, cenv, w, p));
        cond_means(s.drop_last(), here, p, env, cenv, tab, n2, w);
    }
}

proof fn else_holds(c: Expr, env: Env, tab: SymbolTable, w: World)
    ensures
        is_else(c) ==> holds(c, env, tab, w) == Some(true),
        !is_else(c) ==> holds(c, env, tab, w) == match meant(c, env, tab, w) {
            Some(v) => truth_in(v),
            None => None,
        },
{
    truths_differ();
}

#[verifier::rlimit(40)]
proof fn arm_means(
    arm: MatchArm,
    v: Val,
    env: Env,
    cenv: Env,
    tab: SymbolTable,
    n: nat,
    w: World,
)
    requires
        agrees(env, cenv),
    ensures
        match arm_meant(arm, v, env, tab, w) {
            None => run_clause(lowered_arm(arm, tab, n).0, v, cenv, w) is None,
            Some(Some(r)) => run_clause(lowered_arm(arm, tab, n).0, v, cenv, w) == Some(Some(r)),
            Some(None) => true,
        },
    decreases arm, 0nat, 0nat, 0nat,
{
    if is_plain(arm.pattern) {
        pattern_means(arm.pattern, v, env, cenv);
        let c = lowered_arm(arm, tab, n).0;
        assert(c.patterns.len() == 1 && c.patterns[0] == lowered_pattern(arm.pattern));
        truths_differ();
        match (fitted(arm.pattern, v, env), bound(lowered_pattern(arm.pattern), v, cenv)) {
            (Some(e1), Some(c1)) => {
                match arm.guard {
                    Some(guard) => {
                        translation_means(guard, e1, c1, tab, n, w);
                        translation_means(arm.body, e1, c1, tab, lowered(guard, tab, n).1, w);
                    },
                    None => {
                        atom_runs("true"@, c1, w);
                        translation_means(arm.body, e1, c1, tab, n, w);
                    },
                }
            },
            _ => {},
        }
    }
}

#[verifier::rlimit(40)]
proof fn arms_mean(
    s: Seq<MatchArm>,
    v: Val,
    env: Env,
    cenv: Env,
    tab: SymbolTable,
    n: nat,
    w: World,
)
    requires
        agrees(env, cenv),
    ensures
        match first_fitting(s, v, env, tab, w) {
            None => taken(lowered_arms(s, tab, n).0, v, cenv, w) is None,
            Some(Some(r)) => taken(lowered_arms(s, tab, n).0, v, cenv, w) == Some(Some(r)),
            Some(None) => true,
        },
    decreases s, 0nat, 0nat, 0nat,
{
    if s.len() > 0 {
        let front = s.drop_last();
        arms_mean(front, v, env, cenv, tab, n, w);
        let (c, n1) = lowered_arms(front, tab, n);
        arm_means(s.last(), v, env, cenv, tab, n1, w);
        assert(lowered_arms(s, tab, n).0.drop_last() =~= c);
    }
}

/// Whether a body runs to a value wherever its variables have the right values.
spec fn everywhere(body: Core, env: Env, w: World, v: Option<Val>) -> bool {
    forall|cenv: Env| #[trigger] agrees(env, cenv) ==> right(body, cenv, w, v)
}

#[verifier::rlimit(40)]
proof fn stmt_means(
    s: Stmt,
    body: Core,
    v: Option<Val>,
    env: Env,
    cenv: Env,
    tab: SymbolTable,
    n: nat,
    w: World,
)
    requires
        agrees(env, cenv),
        after_stmt(s, env, tab, w) matches Some(inner) && everywhere(body, inner, w, v),
    ensures
        right(
            match lowered_stmt(s, tab, n).0 {
                Part::Simple(x, value) => shape::let1(x, value, body),
                Part::Destructure(p, value) => shape::case1(value, shape::when(p, body)),
            },
            cenv,
            w,
            v,
        ),
    decreases s, 0nat, 0nat, 0nat,
{
    let inner = after_stmt(s, env, tab, w)->Some_0;
    match s {
        Stmt::Let(p, x) => {
            translation_means(x, env, cenv, tab, n, w);
            let (c, n1) = lowered(x, tab, n);
            let u = meant(x, env, tab, w)->Some_0;
            match p {
                Pattern::Var(name) => {
                    agrees_bound(env, cenv, name@, u);
                    let1_runs(core_var(name@), c, body, cenv, w);
                    assert(agrees(inner, cenv.insert(core_var(name@), u)));
                },
                Pattern::Wildcard => {
                    agrees_fresh(env, cenv, fresh_name(n1), u);
                    let1_runs(fresh_name(n1), c, body, cenv, w);
                    assert(agrees(inner, cenv.insert(fresh_name(n1), u)));
                },
                _ => {
                    pattern_means(p, u, env, cenv);
                    let clause = shape::when(lowered_pattern(p), body);
                    let one = seq![clause];
                    assert(one.drop_last() =~= Seq::<Clause>::empty());
                    assert(taken(Seq::<Clause>::empty(), u, cenv, w) is None);
                    assert(taken(one, u, cenv, w) == run_clause(clause, u, cenv, w));
                    truths_differ();
                    let c1 = bound(lowered_pattern(p), u, cenv)->Some_0;
                    assert(agrees(inner, c1));
                    atom_runs("true"@, c1, w);
                    case_runs(c, one, u, cenv, w);
                },
            }
        },
        Stmt::Expr(x) => {
            translation_means(x, env, cenv, tab, n + 1, w);
            let c = lowered(x, tab, n + 1).0;
            let u = meant(x, env, tab, w)->Some_0;
            agrees_fresh(env, cenv, fresh_name(n), u);
            let1_runs(fresh_name(n), c, body, cenv, w);
            assert(agrees(inner, cenv.insert(fresh_name(n), u)));
        },
    }
}

#[verifier::rlimit(40)]
proof fn stmts_mean(
    s: Seq<Stmt>,
    body: Core,
    v: Option<Val>,
    env: Env,
    cenv: Env,
    tab: SymbolTable,
    n: nat,
    w: World,
)
    requires
        agrees(env, cenv),
        after_stmts(s, env, tab, w) matches Some(inner) && everywhere(body, inner, w, v),
    ensures
        right(wrapped(lowered_stmts(s, tab, n).0, body), cenv, w, v),
    decreases s, 0nat, 0nat, 0nat,
{
    let parts = lowered_stmts(s, tab, n).0;
    if s.len() == 0 {
        assert(right(body, cenv, w, v));
    } else {
        let front = s.drop_last();
        let (ps, n1) = lowered_stmts(front, tab, n);
        assert(parts.drop_last() =~= ps);
        let middle = after_stmts(front, env, tab, w)->Some_0;
        let more = match parts.last() {
            Part::Simple(x, value) => shape::let1(x, value, body),
            Part::Destructure(p, value) => shape::case1(value, shape::when(p, body)),
        };
        assert forall|c: Env| #[trigger] agrees(middle, c) implies right(more, c, w, v) by {
            stmt_means(s.last(), body, v, middle, c, tab, n1, w);
        }
        stmts_mean(front, more, v, env, cenv, tab, n, w);
    }
}

#[verifier::rlimit(40)]
proof fn block_means(e: Expr, env: Env, cenv: Env, tab: SymbolTable, n: nat, w: World)
    requires
        agrees(env, cenv),
        e is Block,
        meant(e, env, tab, w) is Some,
    ensures
        run(lowered(e, tab, n).0, cenv, w) == meant(e, env, tab, w),
    decreases e, 1nat, 0nat, 0nat,
{
    match e {
        Expr::Block(s, last) => {
            let n1 = lowered_stmts(s@, tab, n).1;
            let inner = after_stmts(s@, env, tab, w)->Some_0;
            let v = meant(e, env, tab, w);
            let body = match last {
                Some(value) => lowered(*value, tab, n1).0,
                None => shape::atom("ok"@),
            };
            assert forall|c: Env| #[trigger] agrees(inner, c) implies right(body, c, w, v) by {
                match last {
                    Some(value) => {
                        translation_means(*value, inner, c, tab, n1, w);
                    },
                    None => {
                        atom_runs("ok"@, c, w);
                    },
                }
            }
            stmts_mean(s@, body, v, env, cenv, tab, n, w);
        },
        _ => {},
    }
}

/// The translation of a `try`, and its part behind `catch`.
proof fn try_parts(e: Expr, tab: SymbolTable, n: nat) -> (c: Core)
    requires
        e is Try,
    ensures
        ({
            let (x, n1) = lowered(*e->Try_body, tab, n);
            lowered(e, tab, n).0 == shape::try1(
                x,
                fresh_name(n1),
                shape::var(fresh_name(n1)),
                fresh_name(n1 + 1),
                fresh_name(n1 + 2),
                fresh_name(n1 + 3),
                c,
            )
        }),
{
    *lowered(e, tab, n).0->Try_4
}

#[verifier::rlimit(40)]
proof fn try_means(e: Expr, env: Env, cenv: Env, tab: SymbolTable, n: nat, w: World)
    requires
        agrees(env, cenv),
        e is Try,
        meant(e, env, tab, w) is Some,
    ensures
        run(lowered(e, tab, n).0, cenv, w) == meant(e, env, tab, w),
    decreases e, 1nat, 0nat, 0nat,
{
    match e {
        Expr::Try { body, catch_arms } => {
            translation_means(*body, env, cenv, tab, n, w);
            let (x, n1) = lowered(*body, tab, n);
            let c = try_parts(e, tab, n);
            try1_runs(
                x,
                fresh_name(n1),
                fresh_name(n1 + 1),
                fresh_name(n1 + 2),
                fresh_name(n1 + 3),
                c,
                cenv,
                w,
            );
        },
        _ => {},
    }
}

#[verifier::rlimit(40)]
#[verifier::spinoff_prover]
proof fn call_means(e: Expr, env: Env, cenv: Env, tab: SymbolTable, n: nat, w: World)
    requires
        agrees(env, cenv),
        e is Call,
        meant(e, env, tab, w) is Some,
    ensures
        run(lowered(e, tab, n).0, cenv, w) == meant(e, env, tab, w),
    decreases e, 1nat, 0nat, 0nat,
{
    match e {
        Expr::Call(f, args) => {
            match *f {
                Expr::Var(name) => {
                    all_mean(args@, env, cenv, tab, n, w);
                    let (c, n1) = lowered_all(args@, tab, n);
                    let s = meant_all(args@, env, tab, w)->Some_0;
                    if takes(name@, s.len()) {
                        known_runs(name@, c, s, n1, cenv, w);
                        assert(direct_call(*f, tab, c, n1) == builtin(name@, c, n1));
                    } else {
                        assert(builtin(name@, c, n1) is None);
                        let m = linked(tab, name@, s.len())->Some_0;
                        assert(direct_call(*f, tab, c, n1) == Some(
                            (Core::Call(m, "apply"@, c), n1),
                        ));
                        assert(!is_mapping(m, "apply"@, c));
                        call_runs(m, "apply"@, c, cenv, w);
                    }
                },
                _ => {},
            }
        },
        _ => {},
    }
}

#[verifier::rlimit(60)]
#[verifier::spinoff_prover]
proof fn known1_runs(name: Seq<char>, c: Seq<Core>, s: Seq<Val>, n: nat, cenv: Env, w: World)
    requires
        s.len() == 1,
        known(name, s) is Some,
        run_all(c, cenv, w) == Some(s),
    ensures
        builtin(name, c, n) matches Some((x, _)) && run(x, cenv, w) == known(name, s),
{
    all_len(c, cenv, w);
    used_names(s[0], s[0], w);
    assert(c =~= seq![c[0]]);
    assert(s =~= seq![s[0]]);
    run1(c[0], cenv, w);
    known1_names(name, s[0]);
    match plain1(name) {
        Some((m, f)) => {
            call_runs(m, f, c, cenv, w);
        },
        None => {
            first_names(name, c[0], s[0], n, cenv, w);
        },
    }
}

#[verifier::rlimit(60)]
#[verifier::spinoff_prover]
proof fn known2_runs(name: Seq<char>, c: Seq<Core>, s: Seq<Val>, n: nat, cenv: Env, w: World)
    requires
        s.len() == 2,
        known(name, s) is Some,
        run_all(c, cenv, w) == Some(s),
    ensures
        builtin(name, c, n) matches Some((x, _)) && run(x, cenv, w) == known(name, s),
{
    all_len(c, cenv, w);
    used_names(s[0], s[0], w);
    assert(c =~= seq![c[0], c[1]]);
    assert(s =~= seq![s[0], s[1]]);
    run2(c[0], c[1], cenv, w);
    run2(c[1], c[0], cenv, w);
    assert(run(c[0], cenv, w) == Some(s[0]) && run(c[1], cenv, w) == Some(s[1])) by {
        assert(seq![run(c[0], cenv, w)->Some_0, run(c[1], cenv, w)->Some_0][0] == s[0]);
        assert(seq![run(c[0], cenv, w)->Some_0, run(c[1], cenv, w)->Some_0][1] == s[1]);
    }
    known2_names(name, s[0], s[1], w);
    match plain2(name) {
        Some((m, f)) => {
            call_runs(m, f, c, cenv, w);
        },
        None => {
            let d = seq![c[1], c[0]];
            special2_calls(s[0], s[1], w);
            assert(builtin(name, c, n) == special2(name, c[0], c[1], n));
            if name == "take"@ {
                call_runs("lists"@, "sublist"@, d, cenv, w);
            } else if name == "elem"@ {
                call_runs("erlang"@, "element"@, d, cenv, w);
            } else if name == "map_get"@ {
                call_runs("maps"@, "get"@, d, cenv, w);
            } else if name == "map_has_key"@ {
                call_runs("maps"@, "is_key"@, d, cenv, w);
            } else {
                bin2_runs(c[0], c[1], cenv, w);
            }
        },
    }
}

#[verifier::rlimit(60)]
#[verifier::spinoff_prover]
proof fn known3_runs(name: Seq<char>, c: Seq<Core>, s: Seq<Val>, n: nat, cenv: Env, w: World)
    requires
        s.len() == 3,
        known(name, s) is Some,
        run_all(c, cenv, w) == Some(s),
    ensures
        builtin(name, c, n) matches Some((x, _)) && run(x, cenv, w) == known(name, s),
{
    all_len(c, cenv, w);
    used_names(s[0], s[0], w);
    assert(c =~= seq![c[0], c[1], c[2]]);
    assert(s =~= seq![s[0], s[1], s[2]]);
    run3(c[0], c[1], c[2], cenv, w);
    let t = seq![
        run(c[0], cenv, w)->Some_0,
        run(c[1], cenv, w)->Some_0,
        run(c[2], cenv, w)->Some_0,
    ];
    assert(t[0] == s[0] && t[1] == s[1] && t[2] == s[2]);
    known3_names(name, s[0], s[1], s[2], w);
    run3(c[1], c[2], c[0], cenv, w);
    run3(c[1], c[0], c[2], cenv, w);
    call_runs("maps"@, "put"@, seq![c[1], c[2], c[0]], cenv, w);
    call_runs("maps"@, "get"@, seq![c[1], c[0], c[2]], cenv, w);
    call_runs("erlang"@, "setelement"@, seq![c[1], c[0], c[2]], cenv, w);
}

/// The call of a built-in function runs to what the function returns.
#[verifier::rlimit(40)]
proof fn known_runs(name: Seq<char>, c: Seq<Core>, s: Seq<Val>, n: nat, cenv: Env, w: World)
    requires
        known(name, s) is Some,
        run_all(c, cenv, w) == Some(s),
    ensures
        builtin(name, c, n) matches Some((x, _)) && run(x, cenv, w) == known(name, s),
{
    if s.len() == 1 {
        known1_runs(name, c, s, n, cenv, w);
    } else if s.len() == 2 {
        known2_runs(name, c, s, n, cenv, w);
    } else {
        known3_runs(name, c, s, n, cenv, w);
    }
}

proof fn first_names(name: Seq<char>, c: Core, v: Val, n: nat, cenv: Env, w: World)
    requires
        run(c, cenv, w) == Some(v),
        known1(name, v) is Some,
        plain1(name) is None,
    ensures
        special1(name, c, n) matches Some((x, _)) && run(x, cenv, w) == known1(name, v),
{
    known1_names(name, v);
    used_names(v, v, w);
    used_names(Val::Int(1), v, w);
    used_names(Val::Int(2), v, w);
    used_names(v, Val::Nil, w);
    num_runs(1, cenv, w);
    num_runs(2, cenv, w);
    nil_runs(cenv, w);
    run2(shape::num(1), c, cenv, w);
    run2(shape::num(2), c, cenv, w);
    run2(c, shape::nil(), cenv, w);
    call_runs("erlang"@, "element"@, seq![shape::num(1), c], cenv, w);
    call_runs("erlang"@, "element"@, seq![shape::num(2), c], cenv, w);
    call_runs("erlang"@, "=:="@, seq![c, shape::nil()], cenv, w);
    known1_parts(name, v);
}

#[verifier::rlimit(40)]
proof fn filters_mean(s: Seq<Expr>, env: Env, cenv: Env, tab: SymbolTable, n: nat, w: World)
    requires
        agrees(env, cenv),
    ensures
        all_hold(s, env, tab, w) matches Some(b) ==> run(lowered_filters(s, tab, n).0, cenv, w)
            == Some(truth(b)),
    decreases s, 0nat, 0nat, 0nat,
{
    truths_differ();
    atom_runs("true"@, cenv, w);
    if s.len() == 1 {
        translation_means(s.last(), env, cenv, tab, n, w);
        assert(s.drop_last() =~= Seq::<Expr>::empty());
        assert(all_hold(Seq::<Expr>::empty(), env, tab, w) == Some(true));
    } else if s.len() > 1 {
        let front = s.drop_last();
        filters_mean(front, env, cenv, tab, n, w);
        let (a, n1) = lowered_filters(front, tab, n);
        translation_means(s.last(), env, cenv, tab, n1, w);
        let b = lowered(s.last(), tab, n1).0;
        match (all_hold(front, env, tab, w), meant(s.last(), env, tab, w)) {
            (Some(x), Some(v)) => {
                match truth_in(v) {
                    Some(y) => {
                        reveal(operation);
                        operator_names(BinOp::And, truth(x), v);
                        used_names(v, v, w);
                        run2(a, b, cenv, w);
                        call_runs("erlang"@, "and"@, seq![a, b], cenv, w);
                    },
                    None => {},
                }
            },
            _ => {},
        }
    }
}

/// What a list comprehension comes to behind its last generator.
spec fn innermost(filtered: bool, plain_item: bool, s: Seq<Val>) -> Option<Val> {
    if !plain_item {
        Some(list_of(s))
    } else if !filtered {
        if s.len() == 1 {
            Some(s[0])
        } else {
            None
        }
    } else if s.len() == 1 {
        Some(Val::Tuple(seq![truth(true), s[0]]))
    } else {
        Some(truth(false))
    }
}

#[verifier::rlimit(40)]
proof fn inner_means(
    e: Expr,
    at: nat,
    plain_item: bool,
    env: Env,
    cenv: Env,
    tab: SymbolTable,
    n: nat,
    w: World,
)
    requires
        agrees(env, cenv),
        e is ListComp,
        at >= e->generators@.len(),
    ensures
        gathered(e, at, env, tab, w) matches Some(s) ==> s.len() <= 1 && (e->filters@.len() == 0
            ==> s.len() == 1) && run(lowered_comp(e, tab, at, plain_item, n).0, cenv, w)
            == innermost(e->filters@.len() > 0, plain_item, s),
    decreases e, 0nat, 2 * generators_left(e, at), 0nat,
{
    match e {
        Expr::ListComp { expr, generators, filters } => {
            translation_means(*expr, env, cenv, tab, n, w);
            let (x, n1) = lowered(*expr, tab, n);
            filters_mean(filters@, env, cenv, tab, n1, w);
            truths_differ();
            let one = shape::cons(x, shape::nil());
            assert(list_of(Seq::<Val>::empty()) == Val::Nil);
            one_runs(x, cenv, w);
            nil_runs(cenv, w);
            atom_runs("true"@, cenv, w);
            atom_runs("false"@, cenv, w);
            if filters@.len() == 0 {
                assert(all_hold(filters@, env, tab, w) == Some(true));
            } else {
                let f = lowered_filters(filters@, tab, n1).0;
                let yes = shape::tup2(shape::atom("true"@), x);
                run2(shape::atom("true"@), x, cenv, w);
                tuple_runs(seq![shape::atom("true"@), x], cenv, w);
                if_else_runs(f, yes, shape::atom("false"@), cenv, w);
                if_else_runs(f, one, shape::nil(), cenv, w);
            }
        },
        _ => {},
    }
}

/// A list comprehension from generator number `at` on runs to what it collects.
#[verifier::rlimit(40)]
proof fn comp_means(
    e: Expr,
    at: nat,
    env: Env,
    cenv: Env,
    tab: SymbolTable,
    n: nat,
    w: World,
)
    requires
        agrees(env, cenv),
        e is ListComp,
        at < e->generators@.len(),
    ensures
        gathered(e, at, env, tab, w) matches Some(s) ==> run(
            lowered_comp(e, tab, at, false, n).0,
            cenv,
            w,
        ) == Some(list_of(s)),
    decreases e, 0nat, 2 * generators_left(e, at), 0nat,
{
    match e {
        Expr::ListComp { expr, generators, filters } => {
            let g = generators@[at as int];
            translation_means(g.source, env, cenv, tab, n, w);
            let (source, n1) = lowered(g.source, tab, n);
            let simple = generators@.len() == 1 && g.pattern is Var;
            let (inner, n2) = lowered_comp(e, tab, at + 1, simple, n1);
            if gathered(e, at, env, tab, w) is Some {
                let l = meant(g.source, env, tab, w)->Some_0;
                let items = elements(l)->Some_0;
                listed_elements(l);
                used_names(l, l, w);
                let (f, x, body) = if simple {
                    (
                        if filters@.len() == 0 {
                            "map"@
                        } else {
                            "filtermap"@
                        },
                        core_var(g.pattern->Var_0@),
                        inner,
                    )
                } else {
                    (
                        "flatmap"@,
                        fresh_name(n2),
                        shape::case2(
                            shape::var(fresh_name(n2)),
                            shape::when(lowered_pattern(g.pattern), inner),
                            shape::when(shape::pvar("_"@), shape::nil()),
                        ),
                    )
                };
                over_means(e, at, items, env, cenv, tab, n1, w);
                mapping_runs(f, x, body, source, l, cenv, w);
            }
        },
        _ => {},
    }
}

/// The elements of a generator, one after the other.
#[verifier::rlimit(40)]
#[verifier::spinoff_prover]
proof fn over_means(
    e: Expr,
    at: nat,
    items: Seq<Val>,
    env: Env,
    cenv: Env,
    tab: SymbolTable,
    n: nat,
    w: World,
)
    requires
        agrees(env, cenv),
        e is ListComp,
        at < e->generators@.len(),
        is_plain(e->generators@[at as int].pattern),
    ensures
        ({
            let g = e->generators@[at as int];
            let simple = e->generators@.len() == 1 && g.pattern is Var;
            let (inner, n2) = lowered_comp(e, tab, at + 1, simple, n);
            gathered_over(e, at, items, env, tab, w) matches Some(s) ==> if simple {
                run_over(
                    if e->filters@.len() == 0 {
                        "map"@
                    } else {
                        "filtermap"@
                    },
                    core_var(g.pattern->Var_0@),
                    inner,
                    list_of(items),
                    cenv,
                    w,
                ) == Some(list_of(s))
            } else {
                run_over(
                    "flatmap"@,
                    fresh_name(n2),
                    shape::case2(
                        shape::var(fresh_name(n2)),
                        shape::when(lowered_pattern(g.pattern), inner),
                        shape::when(shape::pvar("_"@), shape::nil()),
                    ),
                    list_of(items),
                    cenv,
                    w,
                ) == Some(list_of(s))
            }
        }),
    decreases e, 0nat, 2 * generators_left(e, at) - 1, items.len(),
{
    match e {
        Expr::ListComp { expr, generators, filters } => {
            let g = generators@[at as int];
            let simple = generators@.len() == 1 && g.pattern is Var;
            let (inner, n2) = lowered_comp(e, tab, at + 1, simple, n);
            let none = Seq::<Val>::empty();
            assert(list_of(none) == Val::Nil);
            if items.len() == 0 {
                assert(items =~= none);
            } else {
                over_means(e, at, items.drop_first(), env, cenv, tab, n, w);
                let h = items[0];
                used_names(h, h, w);
                truths_differ();
                if gathered_over(e, at, items, env, tab, w) is Some {
                    let rest = gathered_over(e, at, items.drop_first(), env, tab, w)->Some_0;
                    if simple {
                        let x = g.pattern->Var_0@;
                        agrees_bound(env, cenv, x, h);
                        let e1 = env.insert(x, h);
                        let c1 = cenv.insert(core_var(x), h);
                        inner_means(e, at + 1, true, e1, c1, tab, n, w);
                        let s = gathered(e, at + 1, e1, tab, w)->Some_0;
                        onto_rest(s, rest);
                    } else {
                        let item = fresh_name(n2);
                        agrees_fresh(env, cenv, item, h);
                        let c1 = cenv.insert(item, h);
                        pattern_means(g.pattern, h, env, c1);
                        let yes = shape::when(lowered_pattern(g.pattern), inner);
                        let no = shape::when(shape::pvar("_"@), shape::nil());
                        var_runs(item, c1, w);
                        atom_runs("true"@, c1, w);
                        nil_runs(c1, w);
                        case2_runs(shape::var(item), yes, no, h, c1, w);
                        match fitted(g.pattern, h, env) {
                            Some(e2) => {
                                let c2 = bound(lowered_pattern(g.pattern), h, c1)->Some_0;
                                atom_runs("true"@, c2, w);
                                if at + 1 < generators@.len() {
                                    comp_means(e, at + 1, e2, c2, tab, n, w);
                                } else {
                                    inner_means(e, at + 1, false, e2, c2, tab, n, w);
                                }
                                let s = gathered(e, at + 1, e2, tab, w)->Some_0;
                                elements_of(s);
                                list_onto_onto(s, rest, Val::Nil);
                            },
                            None => {
                                elements_of(none);
                                assert(none + rest =~= rest);
                                assert(list_onto(none, list_of(rest)) == list_of(rest));
                            },
                        }
                    }
                }
            }
        },
        _ => {},
    }
}

proof fn onto_rest(s: Seq<Val>, rest: Seq<Val>)
    ensures
        s.len() == 1 ==> list_of(s + rest) == Val::Cons(Box::new(s[0]), Box::new(list_of(rest))),
        s.len() == 0 ==> list_of(s + rest) == list_of(rest),
{
    if s.len() == 1 {
        assert((s + rest).drop_first() =~= rest);
    } else if s.len() == 0 {
        assert(s + rest =~= rest);
    }
}

#[verifier::rlimit(40)]
proof fn case2_runs(x: Core, a: Clause, b: Clause, v: Val, cenv: Env, w: World)
    requires
        run(x, cenv, w) == Some(v),
    ensures
        run(shape::case2(x, a, b), cenv, w) == match run_clause(a, v, cenv, w) {
            Some(r) => r,
            None => match run_clause(b, v, cenv, w) {
                Some(r) => r,
                None => None,
            },
        },
{
    let s = seq![a, b];
    assert(s.drop_last() =~= seq![a]);
    assert(seq![a].drop_last() =~= Seq::<Clause>::empty());
    assert(taken(Seq::<Clause>::empty(), v, cenv, w) is None);
    assert(taken(seq![a], v, cenv, w) == run_clause(a, v, cenv, w));
    assert(taken(s, v, cenv, w) == match run_clause(a, v, cenv, w) {
        Some(r) => Some(r),
        None => run_clause(b, v, cenv, w),
    });
    case_runs(x, s, v, cenv, w);
}

#[verifier::rlimit(40)]
proof fn case_runs(x: Core, s: Seq<Clause>, v: Val, cenv: Env, w: World)
    requires
        run(x, cenv, w) == Some(v),
    ensures
        run(Core::Case(Box::new(x), s), cenv, w) == match taken(s, v, cenv, w) {
            Some(r) => r,
            None => None,
        },
{
}

#[verifier::rlimit(40)]
proof fn comp_expr_means(e: Expr, env: Env, cenv: Env, tab: SymbolTable, n: nat, w: World)
    requires
        agrees(env, cenv),
        e is ListComp,
        meant(e, env, tab, w) is Some,
    ensures
        run(lowered(e, tab, n).0, cenv, w) == meant(e, env, tab, w),
    decreases e, 1nat, 0nat, 0nat,
{
    match e {
        Expr::ListComp { expr, generators, filters } => {
            if generators@.len() == 0 {
                translation_means(*expr, env, cenv, tab, n, w);
                one_runs(lowered(*expr, tab, n).0, cenv, w);
            } else {
                comp_means(e, 0, env, cenv, tab, n, w);
            }
        },
        _ => {},
    }
}

/// The arguments of a function, by the variables of its parameters.
pub open spec fn with_vars(vars: Seq<Seq<char>>, s: Seq<Val>) -> Env
    decreases vars.len(),
{
    if vars.len() == 0 || vars.len() != s.len() {
        Map::empty()
    } else {
        with_vars(vars.drop_last(), s.drop_last()).insert(vars.last(), s.last())
    }
}

proof fn params_agree(params: Seq<Param>, s: Seq<Val>)
    requires
        params.len() == s.len(),
        forall|i: int| 0 <= i < params.len() ==> proper(#[trigger] params[i].name@),
    ensures
        agrees(with_params(params, s), with_vars(param_vars(params), s)),
    decreases params.len(),
{
    if params.len() > 0 {
        let front = params.drop_last();
        assert forall|i: int| 0 <= i < front.len() implies proper(#[trigger] front[i].name@) by {
            assert(front[i] == params[i]);
        }
        params_agree(front, s.drop_last());
        assert(param_vars(params).drop_last() =~= param_vars(front));
        assert(proper(params[params.len() - 1].name@));
        agrees_bound(
            with_params(front, s.drop_last()),
            with_vars(param_vars(front), s.drop_last()),
            params.last().name@,
            s.last(),
        );
    }
}

/// A function that is called with arguments returns what its body means where
/// its parameters have their values: its translation runs to that.
pub proof fn function_means(f: Function, s: Seq<Val>, tab: SymbolTable, w: World)
    requires
        f.params@.len() == s.len(),
        forall|i: int| 0 <= i < f.params@.len() ==> proper(#[trigger] f.params@[i].name@),
    ensures
        meant(f.body, with_params(f.params@, s), tab, w) is Some ==> run(
            lowered(f.body, tab, 0).0,
            with_vars(param_vars(f.params@), s),
            w,
        ) == meant(f.body, with_params(f.params@, s), tab, w),
{
    params_agree(f.params@, s);
    translation_means(
        f.body,
        with_params(f.params@, s),
        with_vars(param_vars(f.params@), s),
        tab,
        0,
        w,
    );
}

} // verus!
