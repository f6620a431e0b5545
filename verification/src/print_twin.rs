//! Functions that differ in names alone have the same fingerprint.
use vstd::prelude::*;
use crate::ast::{
    path_parts, BinOp, BitStringPatternSegment, BitStringSegment, CatchArm, Expr, Function,
    Generator, InterpolatedPart, MatchArm, Param, Pattern, Stmt,
};
use crate::fingerprint::{
    arm_print, arms_print, bound, bound_params, called, catch_arm_print, catch_arms_print,
    empty_scope, expr_print, exprs_print, field_patterns_print, fields_print, filters_print,
    function_key, function_print, generators_print, pairs_print, parts_print, pattern_print,
    patterns_print, piped, segment_patterns_print, segments_print, stmts_print, Locals, Scope,
};
use crate::names::found;
use crate::swap::{lemma_env_push, lemma_found, swap_env, swap_name, Swap};
use crate::text::{decimal, digit, with_new};
use crate::twin::{
    same_name, twin, twin_all, twin_arm, twin_arms, twin_catch_arm, twin_catch_arms,
    twin_field_patterns, twin_fields, twin_generator, twin_generators, twin_pairs, twin_params,
    twin_part, twin_parts, twin_pattern, twin_patterns, twin_segment, twin_segment_patterns,
    twin_segments, twin_stmt, twin_stmts, Renaming,
};
use crate::words::{digit_value, digits_number};

verus! {

/// The digits of a number write that number.
pub proof fn decimal_round_trip(n: nat)
    ensures
        digits_number(decimal(n)) == Some(n as int),
        decimal(n).len() > 0,
        forall|i: int| 0 <= i < decimal(n).len() ==> '0' <= #[trigger] decimal(n)[i] <= '9',
    decreases n,
{
    assert(digit_value(digit(n % 10)) == Some((n % 10) as int));
    if n < 10 {
        assert(decimal(n).drop_last() =~= seq![]);
        assert(digits_number(seq![]) == Some(0int));
    } else {
        decimal_round_trip(n / 10);
        assert(decimal(n).drop_last() =~= decimal(n / 10));
    }
}

/// Different numbers are written differently.
pub proof fn decimal_injective(m: nat, n: nat)
    requires
        decimal(m) == decimal(n),
    ensures
        m == n,
{
    decimal_round_trip(m);
    decimal_round_trip(n);
}

/// A key tells the name and the arity of its function.
pub proof fn key_injective(x: Seq<char>, k: nat, y: Seq<char>, l: nat)
    requires
        function_key(x, k) == function_key(y, l),
    ensures
        x == y,
        k == l,
{
    reveal_strlit("/");
    decimal_round_trip(k);
    decimal_round_trip(l);
    let a = function_key(x, k);
    let b = function_key(y, l);
    assert("/"@.len() == 1);
    assert(a.len() == x.len() + 1 + decimal(k).len());
    assert(b.len() == y.len() + 1 + decimal(l).len());
    assert(a[x.len() as int] == '/');
    assert(b[y.len() as int] == '/');
    if x.len() < y.len() {
        assert(a[y.len() as int] == decimal(k)[y.len() - x.len() - 1]);
    } else if y.len() < x.len() {
        assert(b[x.len() as int] == decimal(l)[x.len() - y.len() - 1]);
    }
    assert(x =~= a.take(x.len() as int));
    assert(y =~= b.take(y.len() as int));
    assert(decimal(k) =~= a.skip(x.len() as int + 1));
    assert(decimal(l) =~= b.skip(y.len() as int + 1));
    decimal_injective(k, l);
}

/// The exchange of the names themselves.
pub open spec fn source_swap(r: Renaming) -> Swap {
    Swap { a: r.a, b: r.b }
}

proof fn name_swaps(r: Renaming, x: Seq<char>, y: Seq<char>)
    requires
        same_name(r, x, y),
    ensures
        y == swap_name(source_swap(r), x),
{
}

/// The scope after the exchange.
pub open spec fn swap_scope(r: Renaming, st: Scope) -> Scope {
    Scope { next: st.next, names: swap_env(source_swap(r), st.names) }
}

proof fn bound_swaps(r: Renaming, st: Scope, x: Seq<char>, y: Seq<char>)
    requires
        same_name(r, x, y),
    ensures
        bound(swap_scope(r, st), y) == swap_scope(r, bound(st, x)),
{
    name_swaps(r, x, y);
    lemma_env_push(source_swap(r), st.names, x, decimal(st.next));
}

proof fn bound_params_swap(r: Renaming, st: Scope, s: Seq<Param>, t: Seq<Param>)
    requires
        twin_params(r, s, t),
    ensures
        bound_params(swap_scope(r, st), t) == swap_scope(r, bound_params(st, s)),
    decreases s.len(),
{
    if s.len() > 0 {
        bound_params_swap(r, st, s.drop_last(), t.drop_last());
        assert(same_name(r, s[s.len() - 1].name@, t[t.len() - 1].name@));
        bound_swaps(r, bound_params(st, s.drop_last()), s.last().name@, t.last().name@);
    }
}

/// Whether `l` is the key `k` after the exchange.
pub open spec fn same_key(r: Renaming, k: Seq<char>, l: Seq<char>) -> bool {
    exists|x: Seq<char>, y: Seq<char>, n: nat|
        #![trigger function_key(x, n), function_key(y, n)]
        same_name(r, x, y) && k == function_key(x, n) && l == function_key(y, n)
}

/// Keys are equal after the exchange exactly if they were equal before.
pub proof fn same_key_injective(
    r: Renaming,
    k: Seq<char>,
    l: Seq<char>,
    k2: Seq<char>,
    l2: Seq<char>,
)
    requires
        same_key(r, k, l),
        same_key(r, k2, l2),
    ensures
        k == k2 <==> l == l2,
{
    let (x, y, n) = choose|x: Seq<char>, y: Seq<char>, n: nat|
        #![trigger function_key(x, n), function_key(y, n)]
        same_name(r, x, y) && k == function_key(x, n) && l == function_key(y, n);
    let (x2, y2, n2) = choose|x: Seq<char>, y: Seq<char>, n: nat|
        #![trigger function_key(x, n), function_key(y, n)]
        same_name(r, x, y) && k2 == function_key(x, n) && l2 == function_key(y, n);
    name_swaps(r, x, y);
    name_swaps(r, x2, y2);
    if k == k2 {
        key_injective(x, n, x2, n2);
    }
    if l == l2 {
        key_injective(y, n, y2, n2);
    }
}

/// Whether keys are others after the exchange.
pub open spec fn same_keys(r: Renaming, s: Seq<Seq<char>>, t: Seq<Seq<char>>) -> bool {
    &&& s.len() == t.len()
    &&& forall|i: int| 0 <= i < s.len() ==> same_key(r, #[trigger] s[i], t[i])
}

/// A key is in a list after the exchange exactly if it was before.
pub proof fn same_keys_contain(
    r: Renaming,
    s: Seq<Seq<char>>,
    t: Seq<Seq<char>>,
    k: Seq<char>,
    l: Seq<char>,
)
    requires
        same_keys(r, s, t),
        same_key(r, k, l),
    ensures
        s.contains(k) <==> t.contains(l),
{
    if s.contains(k) {
        let i = choose|i: int| 0 <= i < s.len() && s[i] == k;
        same_key_injective(r, s[i], t[i], k, l);
        assert(t[i] == l);
    }
    if t.contains(l) {
        let i = choose|i: int| 0 <= i < t.len() && t[i] == l;
        same_key_injective(r, s[i], t[i], k, l);
        assert(s[i] == k);
    }
}

proof fn with_new_swaps(
    r: Renaming,
    s: Seq<Seq<char>>,
    t: Seq<Seq<char>>,
    k: Seq<char>,
    l: Seq<char>,
)
    requires
        same_keys(r, s, t),
        same_key(r, k, l),
    ensures
        same_keys(r, with_new(s, k), with_new(t, l)),
{
    same_keys_contain(r, s, t, k, l);
}

/// Whether the functions at hand are others after the exchange.
pub open spec fn twin_locals(r: Renaming, cx: Locals, cy: Locals) -> bool {
    same_key(r, cx.current, cy.current) && same_keys(r, cx.keys, cy.keys)
}

proof fn key_text(x: Seq<char>)
    ensures
        x + "/1"@ == function_key(x, 1),
{
    reveal_strlit("/1");
    reveal_strlit("/");
    assert(x + "/1"@ =~= function_key(x, 1));
}

proof fn key_swaps(r: Renaming, cx: Locals, cy: Locals, x: Seq<char>, y: Seq<char>, n: nat)
    requires
        same_name(r, x, y),
        twin_locals(r, cx, cy),
    ensures
        same_key(r, function_key(x, n), function_key(y, n)),
        cx.keys.contains(function_key(x, n)) <==> cy.keys.contains(function_key(y, n)),
        function_key(x, n) == cx.current <==> function_key(y, n) == cy.current,
{
    assert(same_key(r, function_key(x, n), function_key(y, n)));
    same_keys_contain(r, cx.keys, cy.keys, function_key(x, n), function_key(y, n));
    same_key_injective(r, function_key(x, n), function_key(y, n), cx.current, cy.current);
}

proof fn piped_swaps(r: Renaming, op: BinOp, e: Expr, f: Expr, cx: Locals, cy: Locals)
    requires
        twin(r, e, f),
        twin_locals(r, cx, cy),
    ensures
        piped(op, e, cx) is Some <==> piped(op, f, cy) is Some,
        piped(op, e, cx) is Some ==> same_key(r, piped(op, e, cx)->0, piped(op, f, cy)->0) && (
        piped(op, e, cx)->0 == cx.current <==> piped(op, f, cy)->0 == cy.current),
{
    match (e, f) {
        (Expr::Var(x), Expr::Var(y)) => {
            key_text(x@);
            key_text(y@);
            key_swaps(r, cx, cy, x@, y@, 1);
        },
        _ => {},
    }
}

proof fn called_swaps(r: Renaming, e: Expr, f: Expr, n: nat, cx: Locals, cy: Locals, st: Scope)
    requires
        twin(r, e, f),
        twin_locals(r, cx, cy),
    ensures
        called(e, n, cx, st) is Some <==> called(f, n, cy, swap_scope(r, st)) is Some,
        called(e, n, cx, st) matches Some(k) ==> called(f, n, cy, swap_scope(r, st)) matches Some(
            l,
        ) && same_key(r, k, l) && (k == cx.current <==> l == cy.current),
{
    match (e, f) {
        (Expr::Var(x), Expr::Var(y)) => {
            name_swaps(r, x@, y@);
            lemma_found(source_swap(r), st.names, x@);
            key_swaps(r, cx, cy, x@, y@, n);
        },
        _ => {},
    }
}

proof fn pattern_print_swaps(r: Renaming, p: Pattern, q: Pattern, st: Scope)
    requires
        twin_pattern(r, p, q),
    ensures
        pattern_print(q, swap_scope(r, st)).0 == pattern_print(p, st).0,
        pattern_print(q, swap_scope(r, st)).1 == swap_scope(r, pattern_print(p, st).1),
    decreases p,
{
    match (p, q) {
        (Pattern::Var(x), Pattern::Var(y)) => {
            bound_swaps(r, st, x@, y@);
        },
        (Pattern::Tuple(s), Pattern::Tuple(t)) => {
            patterns_print_swap(r, s@, t@, st);
        },
        (Pattern::List(s, x), Pattern::List(t, y)) => {
            patterns_print_swap(r, s@, t@, st);
            match (x, y) {
                (Some(x), Some(y)) => {
                    pattern_print_swaps(r, *x, *y, patterns_print(s@, st).1);
                },
                _ => {},
            }
        },
        (Pattern::Constructor(c, s), Pattern::Constructor(d, t)) => {
            patterns_print_swap(r, s@, t@, st);
            assert(path_parts(c) =~= path_parts(d));
        },
        (Pattern::Record(s), Pattern::Record(t)) => {
            field_patterns_print_swap(r, s@, t@, st);
        },
        (Pattern::BitString(s), Pattern::BitString(t)) => {
            segment_patterns_print_swap(r, s@, t@, st);
        },
        (Pattern::Or(a, b), Pattern::Or(c, d)) => {
            pattern_print_swaps(r, *a, *c, st);
            pattern_print_swaps(r, *b, *d, st);
        },
        _ => {},
    }
}

proof fn patterns_print_swap(r: Renaming, s: Seq<Pattern>, t: Seq<Pattern>, st: Scope)
    requires
        twin_patterns(r, s, t),
    ensures
        patterns_print(t, swap_scope(r, st)).0 == patterns_print(s, st).0,
        patterns_print(t, swap_scope(r, st)).1 == swap_scope(r, patterns_print(s, st).1),
    decreases s,
{
    if s.len() > 0 {
        patterns_print_swap(r, s.drop_last(), t.drop_last(), st);
        pattern_print_swaps(r, s.last(), t.last(), patterns_print(s.drop_last(), st).1);
    }
}

proof fn field_patterns_print_swap(r: Renaming, s: Seq<(String, Pattern)>, t: Seq<(String, Pattern)>, st: Scope)
    requires
        twin_field_patterns(r, s, t),
    ensures
        field_patterns_print(t, swap_scope(r, st)).0 == field_patterns_print(s, st).0,
        field_patterns_print(t, swap_scope(r, st)).1 == swap_scope(r, field_patterns_print(s, st).1),
    decreases s,
{
    if s.len() > 0 {
        field_patterns_print_swap(r, s.drop_last(), t.drop_last(), st);
        pattern_print_swaps(r, s.last().1, t.last().1, field_patterns_print(s.drop_last(), st).1);
    }
}

proof fn segment_patterns_print_swap(r: Renaming, s: Seq<BitStringPatternSegment>,
    t: Seq<BitStringPatternSegment>, st: Scope)
    requires
        twin_segment_patterns(r, s, t),
    ensures
        segment_patterns_print(t, swap_scope(r, st)).0 == segment_patterns_print(s, st).0,
        segment_patterns_print(t, swap_scope(r, st)).1 == swap_scope(r, segment_patterns_print(s, st).1),
    decreases s,
{
    if s.len() > 0 {
        segment_patterns_print_swap(r, s.drop_last(), t.drop_last(), st);
        pattern_print_swaps(r, s.last().value, t.last().value, segment_patterns_print(s.drop_last(), st).1);
    }
}

/// The scope behind the statements of a block.
pub open spec fn stmts_scope(s: Seq<Stmt>, st: Scope) -> Scope
    decreases s.len(),
{
    if s.len() == 0 {
        st
    } else {
        match s.last() {
            Stmt::Let(p, _) => pattern_print(p, stmts_scope(s.drop_last(), st)).1,
            Stmt::Expr(_) => stmts_scope(s.drop_last(), st),
        }
    }
}

/// The scope behind the generators of a list comprehension.
pub open spec fn generators_scope(s: Seq<Generator>, st: Scope) -> Scope
    decreases s.len(),
{
    if s.len() == 0 {
        st
    } else {
        pattern_print(s.last().pattern, generators_scope(s.drop_last(), st)).1
    }
}

/// Whether neither of the two names is free in an expression: wherever one is
/// used as a value it is bound.
pub open spec fn bound_uses(r: Renaming, e: Expr, cx: Locals, st: Scope) -> bool
    decreases e,
{
    match e {
        Expr::Int(_) | Expr::Float(_) | Expr::Char(_) | Expr::String(_) | Expr::Bool(_)
        | Expr::Atom(_) | Expr::Unit | Expr::SelfPid | Expr::Path(_) => true,
        Expr::InterpolatedString(s) => parts_bound(r, s@, cx, st),
        Expr::Var(x) => (x@ == r.a || x@ == r.b) ==> found(st.names, x@) is Some,
        Expr::Tuple(s) => all_bound(r, s@, cx, st),
        Expr::List(s, tail) => all_bound(r, s@, cx, st) && (match tail {
            Some(x) => bound_uses(r, *x, cx, st),
            None => true,
        }),
        Expr::ListComp { expr, generators, filters } => bound_uses(r, *expr, cx, st)
            && generators_bound(r, generators@, cx, st) && all_bound(
            r,
            filters@,
            cx,
            generators_scope(generators@, st),
        ),
        Expr::Range(a, b, _) => bound_uses(r, *a, cx, st) && bound_uses(r, *b, cx, st),
        Expr::MapLit(s) => pairs_bound(r, s@, cx, st),
        Expr::Record(s) => fields_bound(r, s@, cx, st),
        Expr::StructInit(_, s) => fields_bound(r, s@, cx, st),
        Expr::BitString(s) => segments_bound(r, s@, cx, st),
        Expr::Binary(a, op, b) => bound_uses(r, *a, cx, st) && (piped(op, *b, cx) is None
            ==> bound_uses(r, *b, cx, st)),
        Expr::Unary(_, a) => bound_uses(r, *a, cx, st),
        Expr::If(c, x, y) => bound_uses(r, *c, cx, st) && bound_uses(r, *x, cx, st) && (match y {
            Some(y) => bound_uses(r, *y, cx, st),
            None => true,
        }),
        Expr::Cond(s) => pairs_bound(r, s@, cx, st),
        Expr::Match(x, s) => bound_uses(r, *x, cx, st) && arms_bound(r, s@, cx, st),
        Expr::Block(s, last) => stmts_bound(r, s@, cx, st) && (match last {
            Some(x) => bound_uses(r, *x, cx, stmts_scope(s@, st)),
            None => true,
        }),
        Expr::Call(func, s) => (called(*func, s@.len(), cx, st) is None ==> bound_uses(
            r,
            *func,
            cx,
            st,
        )) && all_bound(r, s@, cx, st),
        Expr::MethodCall(x, _, s) => bound_uses(r, *x, cx, st) && all_bound(r, s@, cx, st),
        Expr::Lambda(params, body) => bound_uses(r, *body, cx, bound_params(st, params@)),
        Expr::Field(x, _) => bound_uses(r, *x, cx, st),
        Expr::Index(a, b) => bound_uses(r, *a, cx, st) && bound_uses(r, *b, cx, st),
        Expr::Spawn(a) => bound_uses(r, *a, cx, st),
        Expr::Send(a, b) => bound_uses(r, *a, cx, st) && bound_uses(r, *b, cx, st),
        Expr::Receive { arms, timeout } => arms_bound(r, arms@, cx, st) && (match timeout {
            Some((a, b)) => bound_uses(r, *a, cx, st) && bound_uses(r, *b, cx, st),
            None => true,
        }),
        Expr::Return(x) => match x {
            Some(x) => bound_uses(r, *x, cx, st),
            None => true,
        },
        Expr::Try { body, catch_arms } => bound_uses(r, *body, cx, st) && catch_arms_bound(
            r,
            catch_arms@,
            cx,
            st,
        ),
    }
}

pub open spec fn all_bound(r: Renaming, s: Seq<Expr>, cx: Locals, st: Scope) -> bool
    decreases s,
{
    s.len() > 0 ==> all_bound(r, s.drop_last(), cx, st) && bound_uses(r, s.last(), cx, st)
}

pub open spec fn pairs_bound(r: Renaming, s: Seq<(Expr, Expr)>, cx: Locals, st: Scope) -> bool
    decreases s,
{
    s.len() > 0
        ==> pairs_bound(r, s.drop_last(), cx, st) && bound_uses(r, s.last().0, cx, st)
        && bound_uses(r, s.last().1, cx, st)
}

pub open spec fn fields_bound(r: Renaming, s: Seq<(String, Expr)>, cx: Locals, st: Scope) -> bool
    decreases s,
{
    s.len() > 0 ==> fields_bound(r, s.drop_last(), cx, st) && bound_uses(r, s.last().1, cx, st)
}

pub open spec fn segments_bound(r: Renaming, s: Seq<BitStringSegment>, cx: Locals, st: Scope) -> bool
    decreases s,
{
    s.len() > 0 ==> segments_bound(r, s.drop_last(), cx, st) && bound_uses(r, s.last().value, cx, st)
}

pub open spec fn parts_bound(r: Renaming, s: Seq<InterpolatedPart>, cx: Locals, st: Scope) -> bool
    decreases s,
{
    s.len() > 0 ==> parts_bound(r, s.drop_last(), cx, st) && (match s.last() {
        InterpolatedPart::Literal(_) => true,
        InterpolatedPart::Expr(x) => bound_uses(r, x, cx, st),
    })
}

pub open spec fn generators_bound(r: Renaming, s: Seq<Generator>, cx: Locals, st: Scope) -> bool
    decreases s,
{
    s.len() > 0
        ==> generators_bound(r, s.drop_last(), cx, st)
        && bound_uses(r, s.last().source, cx, generators_scope(s.drop_last(), st))
}

pub open spec fn arms_bound(r: Renaming, s: Seq<MatchArm>, cx: Locals, st: Scope) -> bool
    decreases s,
{
    s.len() > 0 ==> arms_bound(r, s.drop_last(), cx, st) && arm_bound(r, s.last(), cx, st)
}

pub open spec fn catch_arms_bound(r: Renaming, s: Seq<CatchArm>, cx: Locals, st: Scope) -> bool
    decreases s,
{
    s.len() > 0
        ==> catch_arms_bound(r, s.drop_last(), cx, st)
        && bound_uses(r, s.last().body, cx, pattern_print(s.last().pattern, st).1)
}

pub open spec fn stmts_bound(r: Renaming, s: Seq<Stmt>, cx: Locals, st: Scope) -> bool
    decreases s,
{
    s.len() > 0 ==> stmts_bound(r, s.drop_last(), cx, st) && (match s.last() {
        Stmt::Let(_, x) => bound_uses(r, x, cx, stmts_scope(s.drop_last(), st)),
        Stmt::Expr(x) => bound_uses(r, x, cx, stmts_scope(s.drop_last(), st)),
    })
}

pub open spec fn arm_bound(r: Renaming, arm: MatchArm, cx: Locals, st: Scope) -> bool
    decreases arm,
{
    let inner = pattern_print(arm.pattern, st).1;
    &&& match arm.guard {
        Some(x) => bound_uses(r, x, cx, inner),
        None => true,
    }
    &&& bound_uses(r, arm.body, cx, inner)
}

proof fn print_interpolated_string(
    r: Renaming,
    e: Expr,
    f: Expr,
    cx: Locals,
    cy: Locals,
    st: Scope,
    c: Seq<Seq<char>>,
    d: Seq<Seq<char>>,
)
    requires
        twin(r, e, f),
        e is InterpolatedString,
        bound_uses(r, e, cx, st),
        twin_locals(r, cx, cy),
        same_keys(r, c, d),
    ensures
        expr_print(f, cy, swap_scope(r, st), d).0 == expr_print(e, cx, st, c).0,
        same_keys(r, expr_print(e, cx, st, c).1, expr_print(f, cy, swap_scope(r, st), d).1),
    decreases e, 1nat,
{
    match (e, f) {
        (Expr::InterpolatedString(a), Expr::InterpolatedString(b)) => {
            parts_print_swap(r, a@, b@, cx, cy, st, c, d);
        },
        _ => {},
    }
}

proof fn print_var(
    r: Renaming,
    e: Expr,
    f: Expr,
    cx: Locals,
    cy: Locals,
    st: Scope,
    c: Seq<Seq<char>>,
    d: Seq<Seq<char>>,
)
    requires
        twin(r, e, f),
        e is Var,
        bound_uses(r, e, cx, st),
        twin_locals(r, cx, cy),
        same_keys(r, c, d),
    ensures
        expr_print(f, cy, swap_scope(r, st), d).0 == expr_print(e, cx, st, c).0,
        same_keys(r, expr_print(e, cx, st, c).1, expr_print(f, cy, swap_scope(r, st), d).1),
    decreases e, 1nat,
{
    match (e, f) {
        (Expr::Var(x), Expr::Var(y)) => {
            name_swaps(r, x@, y@);
            lemma_found(source_swap(r), st.names, x@);
        },
        _ => {},
    }
}

proof fn print_tuple(
    r: Renaming,
    e: Expr,
    f: Expr,
    cx: Locals,
    cy: Locals,
    st: Scope,
    c: Seq<Seq<char>>,
    d: Seq<Seq<char>>,
)
    requires
        twin(r, e, f),
        e is Tuple,
        bound_uses(r, e, cx, st),
        twin_locals(r, cx, cy),
        same_keys(r, c, d),
    ensures
        expr_print(f, cy, swap_scope(r, st), d).0 == expr_print(e, cx, st, c).0,
        same_keys(r, expr_print(e, cx, st, c).1, expr_print(f, cy, swap_scope(r, st), d).1),
    decreases e, 1nat,
{
    match (e, f) {
        (Expr::Tuple(a), Expr::Tuple(b)) => {
            all_print(r, a@, b@, cx, cy, st, c, d);
        },
        _ => {},
    }
}

proof fn print_list(
    r: Renaming,
    e: Expr,
    f: Expr,
    cx: Locals,
    cy: Locals,
    st: Scope,
    c: Seq<Seq<char>>,
    d: Seq<Seq<char>>,
)
    requires
        twin(r, e, f),
        e is List,
        bound_uses(r, e, cx, st),
        twin_locals(r, cx, cy),
        same_keys(r, c, d),
    ensures
        expr_print(f, cy, swap_scope(r, st), d).0 == expr_print(e, cx, st, c).0,
        same_keys(r, expr_print(e, cx, st, c).1, expr_print(f, cy, swap_scope(r, st), d).1),
    decreases e, 1nat,
{
    match (e, f) {
        (Expr::List(a, x), Expr::List(b, y)) => {
            all_print(r, a@, b@, cx, cy, st, c, d);
            let c1 = exprs_print(a@, cx, st, c).1;
            let d1 = exprs_print(b@, cy, swap_scope(r, st), d).1;
            match (x, y) {
                (Some(x), Some(y)) => {
                    print_swaps(r, *x, *y, cx, cy, st, c1, d1);
                },
                _ => {},
            }
        },
        _ => {},
    }
}

proof fn print_list_comp(
    r: Renaming,
    e: Expr,
    f: Expr,
    cx: Locals,
    cy: Locals,
    st: Scope,
    c: Seq<Seq<char>>,
    d: Seq<Seq<char>>,
)
    requires
        twin(r, e, f),
        e is ListComp,
        bound_uses(r, e, cx, st),
        twin_locals(r, cx, cy),
        same_keys(r, c, d),
    ensures
        expr_print(f, cy, swap_scope(r, st), d).0 == expr_print(e, cx, st, c).0,
        same_keys(r, expr_print(e, cx, st, c).1, expr_print(f, cy, swap_scope(r, st), d).1),
    decreases e, 1nat,
{
    match (e, f) {
        (
            Expr::ListComp { expr: x, generators: g, filters: p },
            Expr::ListComp { expr: y, generators: h, filters: q },
        ) => {
            print_swaps(r, *x, *y, cx, cy, st, c, d);
            let c1 = expr_print(*x, cx, st, c).1;
            let d1 = expr_print(*y, cy, swap_scope(r, st), d).1;
            generators_print_swap(r, g@, h@, cx, cy, st, c1, d1);
            let c2 = generators_print(g@, cx, st, c1).2;
            let d2 = generators_print(h@, cy, swap_scope(r, st), d1).2;
            filters_print_swap(r, p@, q@, cx, cy, generators_scope(g@, st), c2, d2);
        },
        _ => {},
    }
}

proof fn print_range(
    r: Renaming,
    e: Expr,
    f: Expr,
    cx: Locals,
    cy: Locals,
    st: Scope,
    c: Seq<Seq<char>>,
    d: Seq<Seq<char>>,
)
    requires
        twin(r, e, f),
        e is Range,
        bound_uses(r, e, cx, st),
        twin_locals(r, cx, cy),
        same_keys(r, c, d),
    ensures
        expr_print(f, cy, swap_scope(r, st), d).0 == expr_print(e, cx, st, c).0,
        same_keys(r, expr_print(e, cx, st, c).1, expr_print(f, cy, swap_scope(r, st), d).1),
    decreases e, 1nat,
{
    match (e, f) {
        (Expr::Range(a, b, _), Expr::Range(x, y, _)) => {
            print_swaps(r, *a, *x, cx, cy, st, c, d);
            let c1 = expr_print(*a, cx, st, c).1;
            let d1 = expr_print(*x, cy, swap_scope(r, st), d).1;
            print_swaps(r, *b, *y, cx, cy, st, c1, d1);
        },
        _ => {},
    }
}

proof fn print_map_lit(
    r: Renaming,
    e: Expr,
    f: Expr,
    cx: Locals,
    cy: Locals,
    st: Scope,
    c: Seq<Seq<char>>,
    d: Seq<Seq<char>>,
)
    requires
        twin(r, e, f),
        e is MapLit,
        bound_uses(r, e, cx, st),
        twin_locals(r, cx, cy),
        same_keys(r, c, d),
    ensures
        expr_print(f, cy, swap_scope(r, st), d).0 == expr_print(e, cx, st, c).0,
        same_keys(r, expr_print(e, cx, st, c).1, expr_print(f, cy, swap_scope(r, st), d).1),
    decreases e, 1nat,
{
    match (e, f) {
        (Expr::MapLit(a), Expr::MapLit(b)) => {
            pairs_print_swap(r, a@, b@, cx, cy, st, c, d);
        },
        _ => {},
    }
}

proof fn print_record(
    r: Renaming,
    e: Expr,
    f: Expr,
    cx: Locals,
    cy: Locals,
    st: Scope,
    c: Seq<Seq<char>>,
    d: Seq<Seq<char>>,
)
    requires
        twin(r, e, f),
        e is Record,
        bound_uses(r, e, cx, st),
        twin_locals(r, cx, cy),
        same_keys(r, c, d),
    ensures
        expr_print(f, cy, swap_scope(r, st), d).0 == expr_print(e, cx, st, c).0,
        same_keys(r, expr_print(e, cx, st, c).1, expr_print(f, cy, swap_scope(r, st), d).1),
    decreases e, 1nat,
{
    match (e, f) {
        (Expr::Record(a), Expr::Record(b)) => {
            fields_print_swap(r, a@, b@, cx, cy, st, c, d);
        },
        _ => {},
    }
}

proof fn print_struct_init(
    r: Renaming,
    e: Expr,
    f: Expr,
    cx: Locals,
    cy: Locals,
    st: Scope,
    c: Seq<Seq<char>>,
    d: Seq<Seq<char>>,
)
    requires
        twin(r, e, f),
        e is StructInit,
        bound_uses(r, e, cx, st),
        twin_locals(r, cx, cy),
        same_keys(r, c, d),
    ensures
        expr_print(f, cy, swap_scope(r, st), d).0 == expr_print(e, cx, st, c).0,
        same_keys(r, expr_print(e, cx, st, c).1, expr_print(f, cy, swap_scope(r, st), d).1),
    decreases e, 1nat,
{
    match (e, f) {
        (Expr::StructInit(_, a), Expr::StructInit(_, b)) => {
            fields_print_swap(r, a@, b@, cx, cy, st, c, d);
        },
        _ => {},
    }
}

proof fn print_bit_string(
    r: Renaming,
    e: Expr,
    f: Expr,
    cx: Locals,
    cy: Locals,
    st: Scope,
    c: Seq<Seq<char>>,
    d: Seq<Seq<char>>,
)
    requires
        twin(r, e, f),
        e is BitString,
        bound_uses(r, e, cx, st),
        twin_locals(r, cx, cy),
        same_keys(r, c, d),
    ensures
        expr_print(f, cy, swap_scope(r, st), d).0 == expr_print(e, cx, st, c).0,
        same_keys(r, expr_print(e, cx, st, c).1, expr_print(f, cy, swap_scope(r, st), d).1),
    decreases e, 1nat,
{
    match (e, f) {
        (Expr::BitString(a), Expr::BitString(b)) => {
            segments_print_swap(r, a@, b@, cx, cy, st, c, d);
        },
        _ => {},
    }
}

proof fn print_binary(
    r: Renaming,
    e: Expr,
    f: Expr,
    cx: Locals,
    cy: Locals,
    st: Scope,
    c: Seq<Seq<char>>,
    d: Seq<Seq<char>>,
)
    requires
        twin(r, e, f),
        e is Binary,
        bound_uses(r, e, cx, st),
        twin_locals(r, cx, cy),
        same_keys(r, c, d),
    ensures
        expr_print(f, cy, swap_scope(r, st), d).0 == expr_print(e, cx, st, c).0,
        same_keys(r, expr_print(e, cx, st, c).1, expr_print(f, cy, swap_scope(r, st), d).1),
    decreases e, 1nat,
{
    match (e, f) {
        (Expr::Binary(a, o, b), Expr::Binary(x, p, y)) => {
            print_swaps(r, *a, *x, cx, cy, st, c, d);
            let c1 = expr_print(*a, cx, st, c).1;
            let d1 = expr_print(*x, cy, swap_scope(r, st), d).1;
            piped_swaps(r, o, *b, *y, cx, cy);
            match piped(o, *b, cx) {
                Some(k) => {
                    piped_calls(o, *b, cx, st, c1);
                    piped_calls(p, *y, cy, swap_scope(r, st), d1);
                    with_new_swaps(r, c1, d1, k, piped(p, *y, cy)->0);
                },
                None => {
                    print_swaps(r, *b, *y, cx, cy, st, c1, d1);
                },
            }
        },
        _ => {},
    }
}

proof fn print_unary(
    r: Renaming,
    e: Expr,
    f: Expr,
    cx: Locals,
    cy: Locals,
    st: Scope,
    c: Seq<Seq<char>>,
    d: Seq<Seq<char>>,
)
    requires
        twin(r, e, f),
        e is Unary,
        bound_uses(r, e, cx, st),
        twin_locals(r, cx, cy),
        same_keys(r, c, d),
    ensures
        expr_print(f, cy, swap_scope(r, st), d).0 == expr_print(e, cx, st, c).0,
        same_keys(r, expr_print(e, cx, st, c).1, expr_print(f, cy, swap_scope(r, st), d).1),
    decreases e, 1nat,
{
    match (e, f) {
        (Expr::Unary(_, a), Expr::Unary(_, b)) => {
            print_swaps(r, *a, *b, cx, cy, st, c, d);
        },
        _ => {},
    }
}

proof fn print_if(
    r: Renaming,
    e: Expr,
    f: Expr,
    cx: Locals,
    cy: Locals,
    st: Scope,
    c: Seq<Seq<char>>,
    d: Seq<Seq<char>>,
)
    requires
        twin(r, e, f),
        e is If,
        bound_uses(r, e, cx, st),
        twin_locals(r, cx, cy),
        same_keys(r, c, d),
    ensures
        expr_print(f, cy, swap_scope(r, st), d).0 == expr_print(e, cx, st, c).0,
        same_keys(r, expr_print(e, cx, st, c).1, expr_print(f, cy, swap_scope(r, st), d).1),
    decreases e, 1nat,
{
    match (e, f) {
        (Expr::If(p, x, y), Expr::If(q, z, v)) => {
            print_swaps(r, *p, *q, cx, cy, st, c, d);
            let c1 = expr_print(*p, cx, st, c).1;
            let d1 = expr_print(*q, cy, swap_scope(r, st), d).1;
            print_swaps(r, *x, *z, cx, cy, st, c1, d1);
            let c2 = expr_print(*x, cx, st, c1).1;
            let d2 = expr_print(*z, cy, swap_scope(r, st), d1).1;
            match (y, v) {
                (Some(y), Some(v)) => {
                    print_swaps(r, *y, *v, cx, cy, st, c2, d2);
                },
                _ => {},
            }
        },
        _ => {},
    }
}

proof fn print_cond(
    r: Renaming,
    e: Expr,
    f: Expr,
    cx: Locals,
    cy: Locals,
    st: Scope,
    c: Seq<Seq<char>>,
    d: Seq<Seq<char>>,
)
    requires
        twin(r, e, f),
        e is Cond,
        bound_uses(r, e, cx, st),
        twin_locals(r, cx, cy),
        same_keys(r, c, d),
    ensures
        expr_print(f, cy, swap_scope(r, st), d).0 == expr_print(e, cx, st, c).0,
        same_keys(r, expr_print(e, cx, st, c).1, expr_print(f, cy, swap_scope(r, st), d).1),
    decreases e, 1nat,
{
    match (e, f) {
        (Expr::Cond(a), Expr::Cond(b)) => {
            pairs_print_swap(r, a@, b@, cx, cy, st, c, d);
        },
        _ => {},
    }
}

proof fn print_match(
    r: Renaming,
    e: Expr,
    f: Expr,
    cx: Locals,
    cy: Locals,
    st: Scope,
    c: Seq<Seq<char>>,
    d: Seq<Seq<char>>,
)
    requires
        twin(r, e, f),
        e is Match,
        bound_uses(r, e, cx, st),
        twin_locals(r, cx, cy),
        same_keys(r, c, d),
    ensures
        expr_print(f, cy, swap_scope(r, st), d).0 == expr_print(e, cx, st, c).0,
        same_keys(r, expr_print(e, cx, st, c).1, expr_print(f, cy, swap_scope(r, st), d).1),
    decreases e, 1nat,
{
    match (e, f) {
        (Expr::Match(x, a), Expr::Match(y, b)) => {
            print_swaps(r, *x, *y, cx, cy, st, c, d);
            let c1 = expr_print(*x, cx, st, c).1;
            let d1 = expr_print(*y, cy, swap_scope(r, st), d).1;
            arms_print_swap(r, a@, b@, cx, cy, st, c1, d1);
        },
        _ => {},
    }
}

proof fn print_block(
    r: Renaming,
    e: Expr,
    f: Expr,
    cx: Locals,
    cy: Locals,
    st: Scope,
    c: Seq<Seq<char>>,
    d: Seq<Seq<char>>,
)
    requires
        twin(r, e, f),
        e is Block,
        bound_uses(r, e, cx, st),
        twin_locals(r, cx, cy),
        same_keys(r, c, d),
    ensures
        expr_print(f, cy, swap_scope(r, st), d).0 == expr_print(e, cx, st, c).0,
        same_keys(r, expr_print(e, cx, st, c).1, expr_print(f, cy, swap_scope(r, st), d).1),
    decreases e, 1nat,
{
    match (e, f) {
        (Expr::Block(a, x), Expr::Block(b, y)) => {
            stmts_print_swap(r, a@, b@, cx, cy, st, c, d);
            let c1 = stmts_print(a@, cx, st, c).2;
            let d1 = stmts_print(b@, cy, swap_scope(r, st), d).2;
            match (x, y) {
                (Some(x), Some(y)) => {
                    print_swaps(r, *x, *y, cx, cy, stmts_scope(a@, st), c1, d1);
                },
                _ => {},
            }
        },
        _ => {},
    }
}

proof fn print_call(
    r: Renaming,
    e: Expr,
    f: Expr,
    cx: Locals,
    cy: Locals,
    st: Scope,
    c: Seq<Seq<char>>,
    d: Seq<Seq<char>>,
)
    requires
        twin(r, e, f),
        e is Call,
        bound_uses(r, e, cx, st),
        twin_locals(r, cx, cy),
        same_keys(r, c, d),
    ensures
        expr_print(f, cy, swap_scope(r, st), d).0 == expr_print(e, cx, st, c).0,
        same_keys(r, expr_print(e, cx, st, c).1, expr_print(f, cy, swap_scope(r, st), d).1),
    decreases e, 1nat,
{
    match (e, f) {
        (Expr::Call(x, a), Expr::Call(y, b)) => {
            twin_all_len(r, a@, b@);
            called_swaps(r, *x, *y, a@.len(), cx, cy, st);
            match called(*x, a@.len(), cx, st) {
                Some(k) => {
                    let l = called(*y, b@.len(), cy, swap_scope(r, st))->0;
                    with_new_swaps(r, c, d, k, l);
                    all_print(r, a@, b@, cx, cy, st, with_new(c, k), with_new(d, l));
                },
                None => {
                    print_swaps(r, *x, *y, cx, cy, st, c, d);
                    let c1 = expr_print(*x, cx, st, c).1;
                    let d1 = expr_print(*y, cy, swap_scope(r, st), d).1;
                    all_print(r, a@, b@, cx, cy, st, c1, d1);
                },
            }
        },
        _ => {},
    }
}

proof fn print_method_call(
    r: Renaming,
    e: Expr,
    f: Expr,
    cx: Locals,
    cy: Locals,
    st: Scope,
    c: Seq<Seq<char>>,
    d: Seq<Seq<char>>,
)
    requires
        twin(r, e, f),
        e is MethodCall,
        bound_uses(r, e, cx, st),
        twin_locals(r, cx, cy),
        same_keys(r, c, d),
    ensures
        expr_print(f, cy, swap_scope(r, st), d).0 == expr_print(e, cx, st, c).0,
        same_keys(r, expr_print(e, cx, st, c).1, expr_print(f, cy, swap_scope(r, st), d).1),
    decreases e, 1nat,
{
    match (e, f) {
        (Expr::MethodCall(x, _, a), Expr::MethodCall(y, _, b)) => {
            print_swaps(r, *x, *y, cx, cy, st, c, d);
            let c1 = expr_print(*x, cx, st, c).1;
            let d1 = expr_print(*y, cy, swap_scope(r, st), d).1;
            all_print(r, a@, b@, cx, cy, st, c1, d1);
        },
        _ => {},
    }
}

proof fn print_lambda(
    r: Renaming,
    e: Expr,
    f: Expr,
    cx: Locals,
    cy: Locals,
    st: Scope,
    c: Seq<Seq<char>>,
    d: Seq<Seq<char>>,
)
    requires
        twin(r, e, f),
        e is Lambda,
        bound_uses(r, e, cx, st),
        twin_locals(r, cx, cy),
        same_keys(r, c, d),
    ensures
        expr_print(f, cy, swap_scope(r, st), d).0 == expr_print(e, cx, st, c).0,
        same_keys(r, expr_print(e, cx, st, c).1, expr_print(f, cy, swap_scope(r, st), d).1),
    decreases e, 1nat,
{
    match (e, f) {
        (Expr::Lambda(a, x), Expr::Lambda(b, y)) => {
            bound_params_swap(r, st, a@, b@);
            print_swaps(r, *x, *y, cx, cy, bound_params(st, a@), c, d);
        },
        _ => {},
    }
}

proof fn print_field(
    r: Renaming,
    e: Expr,
    f: Expr,
    cx: Locals,
    cy: Locals,
    st: Scope,
    c: Seq<Seq<char>>,
    d: Seq<Seq<char>>,
)
    requires
        twin(r, e, f),
        e is Field,
        bound_uses(r, e, cx, st),
        twin_locals(r, cx, cy),
        same_keys(r, c, d),
    ensures
        expr_print(f, cy, swap_scope(r, st), d).0 == expr_print(e, cx, st, c).0,
        same_keys(r, expr_print(e, cx, st, c).1, expr_print(f, cy, swap_scope(r, st), d).1),
    decreases e, 1nat,
{
    match (e, f) {
        (Expr::Field(a, _), Expr::Field(b, _)) => {
            print_swaps(r, *a, *b, cx, cy, st, c, d);
        },
        _ => {},
    }
}

proof fn print_index(
    r: Renaming,
    e: Expr,
    f: Expr,
    cx: Locals,
    cy: Locals,
    st: Scope,
    c: Seq<Seq<char>>,
    d: Seq<Seq<char>>,
)
    requires
        twin(r, e, f),
        e is Index,
        bound_uses(r, e, cx, st),
        twin_locals(r, cx, cy),
        same_keys(r, c, d),
    ensures
        expr_print(f, cy, swap_scope(r, st), d).0 == expr_print(e, cx, st, c).0,
        same_keys(r, expr_print(e, cx, st, c).1, expr_print(f, cy, swap_scope(r, st), d).1),
    decreases e, 1nat,
{
    match (e, f) {
        (Expr::Index(a, b), Expr::Index(x, y)) => {
            print_swaps(r, *a, *x, cx, cy, st, c, d);
            let c1 = expr_print(*a, cx, st, c).1;
            let d1 = expr_print(*x, cy, swap_scope(r, st), d).1;
            print_swaps(r, *b, *y, cx, cy, st, c1, d1);
        },
        _ => {},
    }
}

proof fn print_path(
    r: Renaming,
    e: Expr,
    f: Expr,
    cx: Locals,
    cy: Locals,
    st: Scope,
    c: Seq<Seq<char>>,
    d: Seq<Seq<char>>,
)
    requires
        twin(r, e, f),
        e is Path,
        bound_uses(r, e, cx, st),
        twin_locals(r, cx, cy),
        same_keys(r, c, d),
    ensures
        expr_print(f, cy, swap_scope(r, st), d).0 == expr_print(e, cx, st, c).0,
        same_keys(r, expr_print(e, cx, st, c).1, expr_print(f, cy, swap_scope(r, st), d).1),
    decreases e, 1nat,
{
    match (e, f) {
        (Expr::Path(p), Expr::Path(q)) => {
            assert(path_parts(p) =~= path_parts(q));
        },
        _ => {},
    }
}

proof fn print_spawn(
    r: Renaming,
    e: Expr,
    f: Expr,
    cx: Locals,
    cy: Locals,
    st: Scope,
    c: Seq<Seq<char>>,
    d: Seq<Seq<char>>,
)
    requires
        twin(r, e, f),
        e is Spawn,
        bound_uses(r, e, cx, st),
        twin_locals(r, cx, cy),
        same_keys(r, c, d),
    ensures
        expr_print(f, cy, swap_scope(r, st), d).0 == expr_print(e, cx, st, c).0,
        same_keys(r, expr_print(e, cx, st, c).1, expr_print(f, cy, swap_scope(r, st), d).1),
    decreases e, 1nat,
{
    match (e, f) {
        (Expr::Spawn(a), Expr::Spawn(b)) => {
            print_swaps(r, *a, *b, cx, cy, st, c, d);
        },
        _ => {},
    }
}

proof fn print_send(
    r: Renaming,
    e: Expr,
    f: Expr,
    cx: Locals,
    cy: Locals,
    st: Scope,
    c: Seq<Seq<char>>,
    d: Seq<Seq<char>>,
)
    requires
        twin(r, e, f),
        e is Send,
        bound_uses(r, e, cx, st),
        twin_locals(r, cx, cy),
        same_keys(r, c, d),
    ensures
        expr_print(f, cy, swap_scope(r, st), d).0 == expr_print(e, cx, st, c).0,
        same_keys(r, expr_print(e, cx, st, c).1, expr_print(f, cy, swap_scope(r, st), d).1),
    decreases e, 1nat,
{
    match (e, f) {
        (Expr::Send(a, b), Expr::Send(x, y)) => {
            print_swaps(r, *a, *x, cx, cy, st, c, d);
            let c1 = expr_print(*a, cx, st, c).1;
            let d1 = expr_print(*x, cy, swap_scope(r, st), d).1;
            print_swaps(r, *b, *y, cx, cy, st, c1, d1);
        },
        _ => {},
    }
}

proof fn print_receive(
    r: Renaming,
    e: Expr,
    f: Expr,
    cx: Locals,
    cy: Locals,
    st: Scope,
    c: Seq<Seq<char>>,
    d: Seq<Seq<char>>,
)
    requires
        twin(r, e, f),
        e is Receive,
        bound_uses(r, e, cx, st),
        twin_locals(r, cx, cy),
        same_keys(r, c, d),
    ensures
        expr_print(f, cy, swap_scope(r, st), d).0 == expr_print(e, cx, st, c).0,
        same_keys(r, expr_print(e, cx, st, c).1, expr_print(f, cy, swap_scope(r, st), d).1),
    decreases e, 1nat,
{
    match (e, f) {
        (Expr::Receive { arms: a, timeout: x }, Expr::Receive { arms: b, timeout: y }) => {
            arms_print_swap(r, a@, b@, cx, cy, st, c, d);
            let c1 = arms_print(a@, cx, st, c).1;
            let d1 = arms_print(b@, cy, swap_scope(r, st), d).1;
            match (x, y) {
                (Some((p, q)), Some((g, h))) => {
                    print_swaps(r, *p, *g, cx, cy, st, c1, d1);
                    let c2 = expr_print(*p, cx, st, c1).1;
                    let d2 = expr_print(*g, cy, swap_scope(r, st), d1).1;
                    print_swaps(r, *q, *h, cx, cy, st, c2, d2);
                },
                _ => {},
            }
        },
        _ => {},
    }
}

proof fn print_return(
    r: Renaming,
    e: Expr,
    f: Expr,
    cx: Locals,
    cy: Locals,
    st: Scope,
    c: Seq<Seq<char>>,
    d: Seq<Seq<char>>,
)
    requires
        twin(r, e, f),
        e is Return,
        bound_uses(r, e, cx, st),
        twin_locals(r, cx, cy),
        same_keys(r, c, d),
    ensures
        expr_print(f, cy, swap_scope(r, st), d).0 == expr_print(e, cx, st, c).0,
        same_keys(r, expr_print(e, cx, st, c).1, expr_print(f, cy, swap_scope(r, st), d).1),
    decreases e, 1nat,
{
    match (e, f) {
        (Expr::Return(x), Expr::Return(y)) => {
            match (x, y) {
                (Some(x), Some(y)) => {
                    print_swaps(r, *x, *y, cx, cy, st, c, d);
                },
                _ => {},
            }
        },
        _ => {},
    }
}

proof fn print_try(
    r: Renaming,
    e: Expr,
    f: Expr,
    cx: Locals,
    cy: Locals,
    st: Scope,
    c: Seq<Seq<char>>,
    d: Seq<Seq<char>>,
)
    requires
        twin(r, e, f),
        e is Try,
        bound_uses(r, e, cx, st),
        twin_locals(r, cx, cy),
        same_keys(r, c, d),
    ensures
        expr_print(f, cy, swap_scope(r, st), d).0 == expr_print(e, cx, st, c).0,
        same_keys(r, expr_print(e, cx, st, c).1, expr_print(f, cy, swap_scope(r, st), d).1),
    decreases e, 1nat,
{
    match (e, f) {
        (Expr::Try { body: x, catch_arms: a }, Expr::Try { body: y, catch_arms: b }) => {
            print_swaps(r, *x, *y, cx, cy, st, c, d);
            let c1 = expr_print(*x, cx, st, c).1;
            let d1 = expr_print(*y, cy, swap_scope(r, st), d).1;
            catch_arms_print_swap(r, a@, b@, cx, cy, st, c1, d1);
        },
        _ => {},
    }
}

proof fn print_plain(
    r: Renaming,
    e: Expr,
    f: Expr,
    cx: Locals,
    cy: Locals,
    st: Scope,
    c: Seq<Seq<char>>,
    d: Seq<Seq<char>>,
)
    requires
        twin(r, e, f),
        e is Int || e is Float || e is Char || e is String || e is Bool || e is Atom || e is Unit
            || e is SelfPid,
        twin_locals(r, cx, cy),
        same_keys(r, c, d),
    ensures
        expr_print(f, cy, swap_scope(r, st), d).0 == expr_print(e, cx, st, c).0,
        same_keys(r, expr_print(e, cx, st, c).1, expr_print(f, cy, swap_scope(r, st), d).1),
    decreases e, 1nat,
{
}

/// A function that is piped into is not met as a value.
proof fn piped_calls(op: BinOp, e: Expr, cx: Locals, st: Scope, c: Seq<Seq<char>>)
    requires
        piped(op, e, cx) is Some,
    ensures
        expr_print(e, cx, st, c).1 == c,
{
}

proof fn twin_all_len(r: Renaming, s: Seq<Expr>, t: Seq<Expr>)
    requires
        twin_all(r, s, t),
    ensures
        s.len() == t.len(),
{
}

/// The fingerprint of an expression after the exchange is its fingerprint.
proof fn print_swaps(
    r: Renaming,
    e: Expr,
    f: Expr,
    cx: Locals,
    cy: Locals,
    st: Scope,
    c: Seq<Seq<char>>,
    d: Seq<Seq<char>>,
)
    requires
        twin(r, e, f),
        bound_uses(r, e, cx, st),
        twin_locals(r, cx, cy),
        same_keys(r, c, d),
    ensures
        expr_print(f, cy, swap_scope(r, st), d).0 == expr_print(e, cx, st, c).0,
        same_keys(r, expr_print(e, cx, st, c).1, expr_print(f, cy, swap_scope(r, st), d).1),
    decreases e, 2nat,
{
    match e {
        Expr::InterpolatedString(..) => {
            print_interpolated_string(r, e, f, cx, cy, st, c, d);
        },
        Expr::Var(..) => {
            print_var(r, e, f, cx, cy, st, c, d);
        },
        Expr::Tuple(..) => {
            print_tuple(r, e, f, cx, cy, st, c, d);
        },
        Expr::List(..) => {
            print_list(r, e, f, cx, cy, st, c, d);
        },
        Expr::ListComp { .. } => {
            print_list_comp(r, e, f, cx, cy, st, c, d);
        },
        Expr::Range(..) => {
            print_range(r, e, f, cx, cy, st, c, d);
        },
        Expr::MapLit(..) => {
            print_map_lit(r, e, f, cx, cy, st, c, d);
        },
        Expr::Record(..) => {
            print_record(r, e, f, cx, cy, st, c, d);
        },
        Expr::StructInit(..) => {
            print_struct_init(r, e, f, cx, cy, st, c, d);
        },
        Expr::BitString(..) => {
            print_bit_string(r, e, f, cx, cy, st, c, d);
        },
        Expr::Binary(..) => {
            print_binary(r, e, f, cx, cy, st, c, d);
        },
        Expr::Unary(..) => {
            print_unary(r, e, f, cx, cy, st, c, d);
        },
        Expr::If(..) => {
            print_if(r, e, f, cx, cy, st, c, d);
        },
        Expr::Cond(..) => {
            print_cond(r, e, f, cx, cy, st, c, d);
        },
        Expr::Match(..) => {
            print_match(r, e, f, cx, cy, st, c, d);
        },
        Expr::Block(..) => {
            print_block(r, e, f, cx, cy, st, c, d);
        },
        Expr::Call(..) => {
            print_call(r, e, f, cx, cy, st, c, d);
        },
        Expr::MethodCall(..) => {
            print_method_call(r, e, f, cx, cy, st, c, d);
        },
        Expr::Lambda(..) => {
            print_lambda(r, e, f, cx, cy, st, c, d);
        },
        Expr::Field(..) => {
            print_field(r, e, f, cx, cy, st, c, d);
        },
        Expr::Index(..) => {
            print_index(r, e, f, cx, cy, st, c, d);
        },
        Expr::Path(..) => {
            print_path(r, e, f, cx, cy, st, c, d);
        },
        Expr::Spawn(..) => {
            print_spawn(r, e, f, cx, cy, st, c, d);
        },
        Expr::Send(..) => {
            print_send(r, e, f, cx, cy, st, c, d);
        },
        Expr::Receive { .. } => {
            print_receive(r, e, f, cx, cy, st, c, d);
        },
        Expr::Return(..) => {
            print_return(r, e, f, cx, cy, st, c, d);
        },
        Expr::Try { .. } => {
            print_try(r, e, f, cx, cy, st, c, d);
        },
        _ => {
            print_plain(r, e, f, cx, cy, st, c, d);
        },
    }
}

proof fn all_print(
    r: Renaming,
    a: Seq<Expr>,
    b: Seq<Expr>,
    cx: Locals,
    cy: Locals,
    st: Scope,
    c: Seq<Seq<char>>,
    d: Seq<Seq<char>>,
)
    requires
        twin_all(r, a, b),
        all_bound(r, a, cx, st),
        twin_locals(r, cx, cy),
        same_keys(r, c, d),
    ensures
        exprs_print(b, cy, swap_scope(r, st), d).0 == exprs_print(a, cx, st, c).0,
        same_keys(r, exprs_print(a, cx, st, c).1, exprs_print(b, cy, swap_scope(r, st), d).1),
    decreases a, 0nat,
{
    if a.len() > 0 {
        let front = a.drop_last();
        let back = b.drop_last();
        all_print(r, front, back, cx, cy, st, c, d);
        let c1 = exprs_print(front, cx, st, c).1;
        let d1 = exprs_print(back, cy, swap_scope(r, st), d).1;
        print_swaps(r, a.last(), b.last(), cx, cy, st, c1, d1);
    }
}

proof fn filters_print_swap(
    r: Renaming,
    a: Seq<Expr>,
    b: Seq<Expr>,
    cx: Locals,
    cy: Locals,
    st: Scope,
    c: Seq<Seq<char>>,
    d: Seq<Seq<char>>,
)
    requires
        twin_all(r, a, b),
        all_bound(r, a, cx, st),
        twin_locals(r, cx, cy),
        same_keys(r, c, d),
    ensures
        filters_print(b, cy, swap_scope(r, st), d).0 == filters_print(a, cx, st, c).0,
        same_keys(r, filters_print(a, cx, st, c).1, filters_print(b, cy, swap_scope(r, st), d).1),
    decreases a, 0nat,
{
    if a.len() > 0 {
        let front = a.drop_last();
        let back = b.drop_last();
        filters_print_swap(r, front, back, cx, cy, st, c, d);
        let c1 = filters_print(front, cx, st, c).1;
        let d1 = filters_print(back, cy, swap_scope(r, st), d).1;
        print_swaps(r, a.last(), b.last(), cx, cy, st, c1, d1);
    }
}

proof fn pairs_print_swap(
    r: Renaming,
    a: Seq<(Expr, Expr)>,
    b: Seq<(Expr, Expr)>,
    cx: Locals,
    cy: Locals,
    st: Scope,
    c: Seq<Seq<char>>,
    d: Seq<Seq<char>>,
)
    requires
        twin_pairs(r, a, b),
        pairs_bound(r, a, cx, st),
        twin_locals(r, cx, cy),
        same_keys(r, c, d),
    ensures
        pairs_print(b, cy, swap_scope(r, st), d).0 == pairs_print(a, cx, st, c).0,
        same_keys(r, pairs_print(a, cx, st, c).1, pairs_print(b, cy, swap_scope(r, st), d).1),
    decreases a, 0nat,
{
    if a.len() > 0 {
        let front = a.drop_last();
        let back = b.drop_last();
        pairs_print_swap(r, front, back, cx, cy, st, c, d);
        let c1 = pairs_print(front, cx, st, c).1;
        let d1 = pairs_print(back, cy, swap_scope(r, st), d).1;
        print_swaps(r, a.last().0, b.last().0, cx, cy, st, c1, d1);
        let c2 = expr_print(a.last().0, cx, st, c1).1;
        let d2 = expr_print(b.last().0, cy, swap_scope(r, st), d1).1;
        print_swaps(r, a.last().1, b.last().1, cx, cy, st, c2, d2);
    }
}

proof fn fields_print_swap(
    r: Renaming,
    a: Seq<(String, Expr)>,
    b: Seq<(String, Expr)>,
    cx: Locals,
    cy: Locals,
    st: Scope,
    c: Seq<Seq<char>>,
    d: Seq<Seq<char>>,
)
    requires
        twin_fields(r, a, b),
        fields_bound(r, a, cx, st),
        twin_locals(r, cx, cy),
        same_keys(r, c, d),
    ensures
        fields_print(b, cy, swap_scope(r, st), d).0 == fields_print(a, cx, st, c).0,
        same_keys(r, fields_print(a, cx, st, c).1, fields_print(b, cy, swap_scope(r, st), d).1),
    decreases a, 0nat,
{
    if a.len() > 0 {
        let front = a.drop_last();
        let back = b.drop_last();
        fields_print_swap(r, front, back, cx, cy, st, c, d);
        let c1 = fields_print(front, cx, st, c).1;
        let d1 = fields_print(back, cy, swap_scope(r, st), d).1;
        print_swaps(r, a.last().1, b.last().1, cx, cy, st, c1, d1);
    }
}

proof fn segment_values(r: Renaming, a: BitStringSegment, b: BitStringSegment)
    requires
        twin_segment(r, a, b),
    ensures
        a.size == b.size,
        a.specifier == b.specifier,
        twin(r, a.value, b.value),
{
}

proof fn segments_print_swap(
    r: Renaming,
    a: Seq<BitStringSegment>,
    b: Seq<BitStringSegment>,
    cx: Locals,
    cy: Locals,
    st: Scope,
    c: Seq<Seq<char>>,
    d: Seq<Seq<char>>,
)
    requires
        twin_segments(r, a, b),
        segments_bound(r, a, cx, st),
        twin_locals(r, cx, cy),
        same_keys(r, c, d),
    ensures
        segments_print(b, cy, swap_scope(r, st), d).0 == segments_print(a, cx, st, c).0,
        same_keys(r, segments_print(a, cx, st, c).1, segments_print(b, cy, swap_scope(r, st), d).1),
    decreases a, 0nat,
{
    if a.len() > 0 {
        let front = a.drop_last();
        let back = b.drop_last();
        segments_print_swap(r, front, back, cx, cy, st, c, d);
        let c1 = segments_print(front, cx, st, c).1;
        let d1 = segments_print(back, cy, swap_scope(r, st), d).1;
        segment_values(r, a.last(), b.last());
        print_swaps(r, a.last().value, b.last().value, cx, cy, st, c1, d1);
    }
}

proof fn part_values(r: Renaming, a: InterpolatedPart, b: InterpolatedPart)
    requires
        twin_part(r, a, b),
    ensures
        match (a, b) {
            (InterpolatedPart::Literal(x), InterpolatedPart::Literal(y)) => x@ == y@,
            (InterpolatedPart::Expr(x), InterpolatedPart::Expr(y)) => twin(r, x, y),
            _ => false,
        },
{
}

proof fn parts_print_swap(
    r: Renaming,
    a: Seq<InterpolatedPart>,
    b: Seq<InterpolatedPart>,
    cx: Locals,
    cy: Locals,
    st: Scope,
    c: Seq<Seq<char>>,
    d: Seq<Seq<char>>,
)
    requires
        twin_parts(r, a, b),
        parts_bound(r, a, cx, st),
        twin_locals(r, cx, cy),
        same_keys(r, c, d),
    ensures
        parts_print(b, cy, swap_scope(r, st), d).0 == parts_print(a, cx, st, c).0,
        same_keys(r, parts_print(a, cx, st, c).1, parts_print(b, cy, swap_scope(r, st), d).1),
    decreases a, 0nat,
{
    if a.len() > 0 {
        let front = a.drop_last();
        let back = b.drop_last();
        parts_print_swap(r, front, back, cx, cy, st, c, d);
        let c1 = parts_print(front, cx, st, c).1;
        let d1 = parts_print(back, cy, swap_scope(r, st), d).1;
        part_values(r, a.last(), b.last());
        match (a.last(), b.last()) {
            (InterpolatedPart::Expr(x), InterpolatedPart::Expr(y)) => {
                print_swaps(r, x, y, cx, cy, st, c1, d1);
            },
            _ => {},
        }
    }
}

proof fn arms_print_swap(
    r: Renaming,
    a: Seq<MatchArm>,
    b: Seq<MatchArm>,
    cx: Locals,
    cy: Locals,
    st: Scope,
    c: Seq<Seq<char>>,
    d: Seq<Seq<char>>,
)
    requires
        twin_arms(r, a, b),
        arms_bound(r, a, cx, st),
        twin_locals(r, cx, cy),
        same_keys(r, c, d),
    ensures
        arms_print(b, cy, swap_scope(r, st), d).0 == arms_print(a, cx, st, c).0,
        same_keys(r, arms_print(a, cx, st, c).1, arms_print(b, cy, swap_scope(r, st), d).1),
    decreases a, 0nat,
{
    if a.len() > 0 {
        let front = a.drop_last();
        let back = b.drop_last();
        arms_print_swap(r, front, back, cx, cy, st, c, d);
        let c1 = arms_print(front, cx, st, c).1;
        let d1 = arms_print(back, cy, swap_scope(r, st), d).1;
        arm_print_swaps(r, a.last(), b.last(), cx, cy, st, c1, d1);
    }
}

proof fn arm_print_swaps(
    r: Renaming,
    a: MatchArm,
    b: MatchArm,
    cx: Locals,
    cy: Locals,
    st: Scope,
    c: Seq<Seq<char>>,
    d: Seq<Seq<char>>,
)
    requires
        twin_arm(r, a, b),
        arm_bound(r, a, cx, st),
        twin_locals(r, cx, cy),
        same_keys(r, c, d),
    ensures
        arm_print(b, cy, swap_scope(r, st), d).0 == arm_print(a, cx, st, c).0,
        same_keys(r, arm_print(a, cx, st, c).1, arm_print(b, cy, swap_scope(r, st), d).1),
    decreases a, 0nat,
{
    pattern_print_swaps(r, a.pattern, b.pattern, st);
    let inner = pattern_print(a.pattern, st).1;
    match (a.guard, b.guard) {
        (Some(x), Some(y)) => {
            print_swaps(r, x, y, cx, cy, inner, c, d);
            let c1 = expr_print(x, cx, inner, c).1;
            let d1 = expr_print(y, cy, swap_scope(r, inner), d).1;
            print_swaps(r, a.body, b.body, cx, cy, inner, c1, d1);
        },
        _ => {
            print_swaps(r, a.body, b.body, cx, cy, inner, c, d);
        },
    }
}

proof fn catch_values(r: Renaming, a: CatchArm, b: CatchArm)
    requires
        twin_catch_arm(r, a, b),
    ensures
        match (a.class, b.class) {
            (Some(x), Some(y)) => x@ == y@,
            (None, None) => true,
            _ => false,
        },
        twin_pattern(r, a.pattern, b.pattern),
        twin(r, a.body, b.body),
{
}

proof fn catch_arms_print_swap(
    r: Renaming,
    a: Seq<CatchArm>,
    b: Seq<CatchArm>,
    cx: Locals,
    cy: Locals,
    st: Scope,
    c: Seq<Seq<char>>,
    d: Seq<Seq<char>>,
)
    requires
        twin_catch_arms(r, a, b),
        catch_arms_bound(r, a, cx, st),
        twin_locals(r, cx, cy),
        same_keys(r, c, d),
    ensures
        catch_arms_print(b, cy, swap_scope(r, st), d).0 == catch_arms_print(a, cx, st, c).0,
        same_keys(r, catch_arms_print(a, cx, st, c).1, catch_arms_print(b, cy, swap_scope(r, st), d).1),
    decreases a, 0nat,
{
    if a.len() > 0 {
        let front = a.drop_last();
        let back = b.drop_last();
        catch_arms_print_swap(r, front, back, cx, cy, st, c, d);
        let c1 = catch_arms_print(front, cx, st, c).1;
        let d1 = catch_arms_print(back, cy, swap_scope(r, st), d).1;
        catch_arm_print_swaps(r, a.last(), b.last(), cx, cy, st, c1, d1);
    }
}

proof fn catch_arm_print_swaps(
    r: Renaming,
    a: CatchArm,
    b: CatchArm,
    cx: Locals,
    cy: Locals,
    st: Scope,
    c: Seq<Seq<char>>,
    d: Seq<Seq<char>>,
)
    requires
        twin_catch_arm(r, a, b),
        bound_uses(r, a.body, cx, pattern_print(a.pattern, st).1),
        twin_locals(r, cx, cy),
        same_keys(r, c, d),
    ensures
        catch_arm_print(b, cy, swap_scope(r, st), d).0 == catch_arm_print(a, cx, st, c).0,
        same_keys(r, catch_arm_print(a, cx, st, c).1, catch_arm_print(b, cy, swap_scope(r, st), d).1),
    decreases a, 0nat,
{
    catch_values(r, a, b);
    pattern_print_swaps(r, a.pattern, b.pattern, st);
    print_swaps(r, a.body, b.body, cx, cy, pattern_print(a.pattern, st).1, c, d);
}

proof fn generator_values(r: Renaming, a: Generator, b: Generator)
    requires
        twin_generator(r, a, b),
    ensures
        twin_pattern(r, a.pattern, b.pattern),
        twin(r, a.source, b.source),
{
}

proof fn stmt_values(r: Renaming, a: Stmt, b: Stmt)
    requires
        twin_stmt(r, a, b),
    ensures
        match (a, b) {
            (Stmt::Let(p, x), Stmt::Let(q, y)) => twin_pattern(r, p, q) && twin(r, x, y),
            (Stmt::Expr(x), Stmt::Expr(y)) => twin(r, x, y),
            _ => false,
        },
{
}

proof fn generators_print_swap(
    r: Renaming,
    a: Seq<Generator>,
    b: Seq<Generator>,
    cx: Locals,
    cy: Locals,
    st: Scope,
    c: Seq<Seq<char>>,
    d: Seq<Seq<char>>,
)
    requires
        twin_generators(r, a, b),
        generators_bound(r, a, cx, st),
        twin_locals(r, cx, cy),
        same_keys(r, c, d),
    ensures
        generators_print(b, cy, swap_scope(r, st), d).0 == generators_print(a, cx, st, c).0,
        generators_print(a, cx, st, c).1 == generators_scope(a, st),
        generators_print(b, cy, swap_scope(r, st), d).1 == swap_scope(r, generators_scope(a, st)),
        same_keys(r, generators_print(a, cx, st, c).2, generators_print(b, cy, swap_scope(r, st), d).2),
    decreases a, 0nat,
{
    if a.len() > 0 {
        let front = a.drop_last();
        let back = b.drop_last();
        generators_print_swap(r, front, back, cx, cy, st, c, d);
        let c1 = generators_print(front, cx, st, c).2;
        let d1 = generators_print(back, cy, swap_scope(r, st), d).2;
        generator_values(r, a.last(), b.last());
        let s1 = generators_scope(front, st);
        print_swaps(r, a.last().source, b.last().source, cx, cy, s1, c1, d1);
        pattern_print_swaps(r, a.last().pattern, b.last().pattern, s1);
    }
}

proof fn stmts_print_swap(
    r: Renaming,
    a: Seq<Stmt>,
    b: Seq<Stmt>,
    cx: Locals,
    cy: Locals,
    st: Scope,
    c: Seq<Seq<char>>,
    d: Seq<Seq<char>>,
)
    requires
        twin_stmts(r, a, b),
        stmts_bound(r, a, cx, st),
        twin_locals(r, cx, cy),
        same_keys(r, c, d),
    ensures
        stmts_print(b, cy, swap_scope(r, st), d).0 == stmts_print(a, cx, st, c).0,
        stmts_print(a, cx, st, c).1 == stmts_scope(a, st),
        stmts_print(b, cy, swap_scope(r, st), d).1 == swap_scope(r, stmts_scope(a, st)),
        same_keys(r, stmts_print(a, cx, st, c).2, stmts_print(b, cy, swap_scope(r, st), d).2),
    decreases a, 0nat,
{
    if a.len() > 0 {
        let front = a.drop_last();
        let back = b.drop_last();
        stmts_print_swap(r, front, back, cx, cy, st, c, d);
        let c1 = stmts_print(front, cx, st, c).2;
        let d1 = stmts_print(back, cy, swap_scope(r, st), d).2;
        stmt_values(r, a.last(), b.last());
        let s1 = stmts_scope(front, st);
        match (a.last(), b.last()) {
            (Stmt::Let(p, x), Stmt::Let(q, y)) => {
                print_swaps(r, x, y, cx, cy, s1, c1, d1);
                pattern_print_swaps(r, p, q, s1);
            },
            (Stmt::Expr(x), Stmt::Expr(y)) => {
                print_swaps(r, x, y, cx, cy, s1, c1, d1);
            },
            _ => {},
        }
    }
}

/// Whether one function is the other after the exchange.
pub open spec fn twin_function(r: Renaming, f: Function, g: Function) -> bool {
    twin_params(r, f.params@, g.params@) && twin(r, f.body, g.body)
}

/// Whether neither of the two names is free in a function.
pub open spec fn function_bound(r: Renaming, f: Function, cx: Locals) -> bool {
    bound_uses(r, f.body, cx, bound_params(empty_scope(), f.params@))
}

/// A fingerprint does not depend on the names of parameters, of local variables
/// and of the functions of the module: exchanging two names throughout leaves
/// it as it is, if neither is free in the function, and the functions that are
/// called are those that were called before.
pub proof fn fingerprint_ignores_names(
    r: Renaming,
    f: Function,
    g: Function,
    cx: Locals,
    cy: Locals,
)
    requires
        twin_function(r, f, g),
        function_bound(r, f, cx),
        twin_locals(r, cx, cy),
    ensures
        function_print(g, cy).0 == function_print(f, cx).0,
        same_keys(r, function_print(f, cx).1, function_print(g, cy).1),
{
    let st = empty_scope();
    assert(swap_env(source_swap(r), st.names) =~= st.names);
    bound_params_swap(r, st, f.params@, g.params@);
    print_swaps(
        r,
        f.body,
        g.body,
        cx,
        cy,
        bound_params(st, f.params@),
        Seq::empty(),
        Seq::empty(),
    );
}

/// The fingerprint of a type does not depend on the name of the function or on
/// the names of its parameters.
pub proof fn type_fingerprint_ignores_names(f: Function, g: Function)
    requires
        f.params@.len() == g.params@.len(),
        forall|i: int| 0 <= i < f.params@.len() ==> (#[trigger] f.params@[i]).ty == g.params@[i].ty,
        f.type_params@ == g.type_params@,
        f.return_type == g.return_type,
    ensures
        crate::fingerprint::abi_print(f) == crate::fingerprint::abi_print(g),
{
    let tp = crate::text::texts(f.type_params@);
    assert(crate::fingerprint::param_types(f.params@, tp)
        =~= crate::fingerprint::param_types(g.params@, tp));
}

} // verus!
