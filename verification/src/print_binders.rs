//! Fingerprints do not depend on the names of bound variables, and not on the
//! order of the functions at hand.
use vstd::prelude::*;
use crate::ast::{
    path_parts, BitStringPatternSegment, BitStringSegment, CatchArm, Expr, Function, Generator,
    InterpolatedPart, MatchArm, Param, Pattern, Stmt,
};
use crate::fingerprint::{
    arm_print, arms_print, bound_params, called, catch_arm_print, catch_arms_print, empty_scope,
    expr_print, exprs_print, field_patterns_print, fields_print, filters_print, function_print,
    generators_print, pairs_print, parts_print, pattern_print, patterns_print, piped,
    segment_patterns_print, segments_print, stmts_print, Locals, Scope,
};
use crate::names::found;
use crate::print_twin::{generators_scope, stmts_scope};
use crate::text::with_new;
use crate::twin::same_path;

verus! {

/// Whether two patterns differ in the names that they bind alone.
pub open spec fn rebound_pattern(p: Pattern, q: Pattern) -> bool
    decreases p,
{
    match (p, q) {
        (Pattern::Wildcard, Pattern::Wildcard) => true,
        (Pattern::Var(_), Pattern::Var(_)) => true,
        (Pattern::Int(i), Pattern::Int(j)) => i == j,
        (Pattern::Float(f), Pattern::Float(g)) => f.text@ == g.text@,
        (Pattern::Char(c), Pattern::Char(d)) => c == d,
        (Pattern::String(s), Pattern::String(t)) => s@ == t@,
        (Pattern::Bool(b), Pattern::Bool(c)) => b == c,
        (Pattern::Atom(s), Pattern::Atom(t)) => s@ == t@,
        (Pattern::Tuple(s), Pattern::Tuple(t)) => rebound_patterns(s@, t@),
        (Pattern::List(s, x), Pattern::List(t, y)) => rebound_patterns(s@, t@) && (match (x, y) {
            (Some(x), Some(y)) => rebound_pattern(*x, *y),
            (None, None) => true,
            _ => false,
        }),
        (Pattern::Constructor(c, s), Pattern::Constructor(d, t)) => same_path(c, d)
            && rebound_patterns(s@, t@),
        (Pattern::Record(s), Pattern::Record(t)) => rebound_field_patterns(s@, t@),
        (Pattern::BitString(s), Pattern::BitString(t)) => rebound_segment_patterns(s@, t@),
        (Pattern::Or(a, b), Pattern::Or(c, d)) => rebound_pattern(*a, *c) && rebound_pattern(
            *b,
            *d,
        ),
        _ => false,
    }
}

pub open spec fn rebound_patterns(s: Seq<Pattern>, t: Seq<Pattern>) -> bool
    decreases s,
{
    &&& s.len() == t.len()
    &&& s.len() > 0 ==> rebound_patterns(s.drop_last(), t.drop_last()) && rebound_pattern(
        s.last(),
        t.last(),
    )
}

pub open spec fn rebound_field_patterns(
    s: Seq<(String, Pattern)>,
    t: Seq<(String, Pattern)>,
) -> bool
    decreases s,
{
    &&& s.len() == t.len()
    &&& s.len() > 0 ==> rebound_field_patterns(s.drop_last(), t.drop_last()) && s.last().0@
        == t.last().0@ && rebound_pattern(s.last().1, t.last().1)
}

pub open spec fn rebound_segment_patterns(
    s: Seq<BitStringPatternSegment>,
    t: Seq<BitStringPatternSegment>,
) -> bool
    decreases s,
{
    &&& s.len() == t.len()
    &&& s.len() > 0 ==> rebound_segment_patterns(s.drop_last(), t.drop_last()) && s.last().size
        == t.last().size && s.last().specifier == t.last().specifier && rebound_pattern(
        s.last().value,
        t.last().value,
    )
}

/// Whether two expressions differ in the names of bound variables alone. The
/// first stands in scope `st` and the second in scope `su`: a variable of one
/// and the variable of the other at the same place have the same binder, or are
/// both free and have the same name. What a value is piped into is the same
/// local function, or in both none. The value of a list comprehension stands in
/// the scope around it.
pub open spec fn rebound(e: Expr, f: Expr, cx: Locals, st: Scope, su: Scope) -> bool
    decreases e,
{
    match (e, f) {
        (Expr::Int(i), Expr::Int(j)) => i == j,
        (Expr::Float(x), Expr::Float(y)) => x.text@ == y.text@,
        (Expr::Char(c), Expr::Char(d)) => c == d,
        (Expr::String(s), Expr::String(t)) => s@ == t@,
        (Expr::InterpolatedString(s), Expr::InterpolatedString(t)) => rebound_parts(
            s@,
            t@,
            cx,
            st,
            su,
        ),
        (Expr::Bool(b), Expr::Bool(c)) => b == c,
        (Expr::Atom(s), Expr::Atom(t)) => s@ == t@,
        (Expr::Unit, Expr::Unit) => true,
        (Expr::Var(x), Expr::Var(y)) => found(st.names, x@) == found(su.names, y@) && (found(
            st.names,
            x@,
        ) is None ==> x@ == y@),
        (Expr::Tuple(s), Expr::Tuple(t)) => rebound_all(s@, t@, cx, st, su),
        (Expr::List(s, x), Expr::List(t, y)) => rebound_all(s@, t@, cx, st, su) && (match (x, y) {
            (Some(x), Some(y)) => rebound(*x, *y, cx, st, su),
            (None, None) => true,
            _ => false,
        }),
        (
            Expr::ListComp { expr: x, generators: g, filters: c },
            Expr::ListComp { expr: y, generators: h, filters: d },
        ) => rebound(*x, *y, cx, st, su) && rebound_generators(g@, h@, cx, st, su) && rebound_all(
            c@,
            d@,
            cx,
            generators_scope(g@, st),
            generators_scope(h@, su),
        ),
        (Expr::Range(a, b, i), Expr::Range(c, d, j)) => rebound(*a, *c, cx, st, su) && rebound(
            *b,
            *d,
            cx,
            st,
            su,
        ) && i == j,
        (Expr::MapLit(s), Expr::MapLit(t)) => rebound_pairs(s@, t@, cx, st, su),
        (Expr::Record(s), Expr::Record(t)) => rebound_fields(s@, t@, cx, st, su),
        (Expr::StructInit(x, s), Expr::StructInit(y, t)) => x@ == y@ && rebound_fields(
            s@,
            t@,
            cx,
            st,
            su,
        ),
        (Expr::BitString(s), Expr::BitString(t)) => rebound_segments(s@, t@, cx, st, su),
        (Expr::Binary(a, o, b), Expr::Binary(c, p, d)) => rebound(*a, *c, cx, st, su) && o == p
            && rebound(*b, *d, cx, st, su) && piped(o, *b, cx) == piped(p, *d, cx),
        (Expr::Unary(o, a), Expr::Unary(p, b)) => o == p && rebound(*a, *b, cx, st, su),
        (Expr::If(c, x, y), Expr::If(d, z, u)) => rebound(*c, *d, cx, st, su) && rebound(
            *x,
            *z,
            cx,
            st,
            su,
        ) && (match (y, u) {
            (Some(y), Some(u)) => rebound(*y, *u, cx, st, su),
            (None, None) => true,
            _ => false,
        }),
        (Expr::Cond(s), Expr::Cond(t)) => rebound_pairs(s@, t@, cx, st, su),
        (Expr::Match(x, s), Expr::Match(y, t)) => rebound(*x, *y, cx, st, su) && rebound_arms(
            s@,
            t@,
            cx,
            st,
            su,
        ),
        (Expr::Block(s, x), Expr::Block(t, y)) => rebound_stmts(s@, t@, cx, st, su) && (match (
            x,
            y,
        ) {
            (Some(x), Some(y)) => rebound(*x, *y, cx, stmts_scope(s@, st), stmts_scope(t@, su)),
            (None, None) => true,
            _ => false,
        }),
        (Expr::Call(x, s), Expr::Call(y, t)) => rebound(*x, *y, cx, st, su) && rebound_all(
            s@,
            t@,
            cx,
            st,
            su,
        ),
        (Expr::MethodCall(x, m, s), Expr::MethodCall(y, k, t)) => rebound(*x, *y, cx, st, su) && m@
            == k@ && rebound_all(s@, t@, cx, st, su),
        (Expr::Lambda(s, x), Expr::Lambda(t, y)) => s@.len() == t@.len() && rebound(
            *x,
            *y,
            cx,
            bound_params(st, s@),
            bound_params(su, t@),
        ),
        (Expr::Field(x, s), Expr::Field(y, t)) => rebound(*x, *y, cx, st, su) && s@ == t@,
        (Expr::Index(a, b), Expr::Index(c, d)) => rebound(*a, *c, cx, st, su) && rebound(
            *b,
            *d,
            cx,
            st,
            su,
        ),
        (Expr::Path(p), Expr::Path(q)) => same_path(p, q),
        (Expr::Spawn(a), Expr::Spawn(b)) => rebound(*a, *b, cx, st, su),
        (Expr::Send(a, b), Expr::Send(c, d)) => rebound(*a, *c, cx, st, su) && rebound(
            *b,
            *d,
            cx,
            st,
            su,
        ),
        (Expr::Receive { arms: s, timeout: x }, Expr::Receive { arms: t, timeout: y }) => {
            rebound_arms(s@, t@, cx, st, su) && (match (x, y) {
                (Some((a, b)), Some((c, d))) => rebound(*a, *c, cx, st, su) && rebound(
                    *b,
                    *d,
                    cx,
                    st,
                    su,
                ),
                (None, None) => true,
                _ => false,
            })
        },
        (Expr::SelfPid, Expr::SelfPid) => true,
        (Expr::Return(x), Expr::Return(y)) => match (x, y) {
            (Some(x), Some(y)) => rebound(*x, *y, cx, st, su),
            (None, None) => true,
            _ => false,
        },
        (Expr::Try { body: x, catch_arms: s }, Expr::Try { body: y, catch_arms: t }) => rebound(
            *x,
            *y,
            cx,
            st,
            su,
        ) && rebound_catch_arms(s@, t@, cx, st, su),
        _ => false,
    }
}

pub open spec fn rebound_all(s: Seq<Expr>, t: Seq<Expr>, cx: Locals, st: Scope, su: Scope) -> bool
    decreases s,
{
    &&& s.len() == t.len()
    &&& s.len() > 0 ==> rebound_all(s.drop_last(), t.drop_last(), cx, st, su)
        && rebound(s.last(), t.last(), cx, st, su)
}

pub open spec fn rebound_pairs(
    s: Seq<(Expr, Expr)>,
    t: Seq<(Expr, Expr)>,
    cx: Locals,
    st: Scope,
    su: Scope,
) -> bool
    decreases s,
{
    &&& s.len() == t.len()
    &&& s.len() > 0 ==> rebound_pairs(s.drop_last(), t.drop_last(), cx, st, su)
        && rebound(s.last().0, t.last().0, cx, st, su)
        && rebound(s.last().1, t.last().1, cx, st, su)
}

pub open spec fn rebound_fields(
    s: Seq<(String, Expr)>,
    t: Seq<(String, Expr)>,
    cx: Locals,
    st: Scope,
    su: Scope,
) -> bool
    decreases s,
{
    &&& s.len() == t.len()
    &&& s.len() > 0 ==> rebound_fields(s.drop_last(), t.drop_last(), cx, st, su)
        && s.last().0@ == t.last().0@
        && rebound(s.last().1, t.last().1, cx, st, su)
}

pub open spec fn rebound_segments(
    s: Seq<BitStringSegment>,
    t: Seq<BitStringSegment>,
    cx: Locals,
    st: Scope,
    su: Scope,
) -> bool
    decreases s,
{
    &&& s.len() == t.len()
    &&& s.len() > 0 ==> rebound_segments(s.drop_last(), t.drop_last(), cx, st, su)
        && s.last().size == t.last().size
        && s.last().specifier == t.last().specifier
        && rebound(s.last().value, t.last().value, cx, st, su)
}

pub open spec fn rebound_parts(
    s: Seq<InterpolatedPart>,
    t: Seq<InterpolatedPart>,
    cx: Locals,
    st: Scope,
    su: Scope,
) -> bool
    decreases s,
{
    &&& s.len() == t.len()
    &&& s.len() > 0 ==> rebound_parts(s.drop_last(), t.drop_last(), cx, st, su)
        && rebound_part(s.last(), t.last(), cx, st, su)
}

pub open spec fn rebound_arms(
    s: Seq<MatchArm>,
    t: Seq<MatchArm>,
    cx: Locals,
    st: Scope,
    su: Scope,
) -> bool
    decreases s,
{
    &&& s.len() == t.len()
    &&& s.len() > 0 ==> rebound_arms(s.drop_last(), t.drop_last(), cx, st, su)
        && rebound_arm(s.last(), t.last(), cx, st, su)
}

pub open spec fn rebound_catch_arms(
    s: Seq<CatchArm>,
    t: Seq<CatchArm>,
    cx: Locals,
    st: Scope,
    su: Scope,
) -> bool
    decreases s,
{
    &&& s.len() == t.len()
    &&& s.len() > 0 ==> rebound_catch_arms(s.drop_last(), t.drop_last(), cx, st, su)
        && rebound_catch_arm(s.last(), t.last(), cx, st, su)
}

pub open spec fn rebound_generators(
    s: Seq<Generator>,
    t: Seq<Generator>,
    cx: Locals,
    st: Scope,
    su: Scope,
) -> bool
    decreases s,
{
    &&& s.len() == t.len()
    &&& s.len() > 0 ==> rebound_generators(s.drop_last(), t.drop_last(), cx, st, su)
        && rebound_pattern(s.last().pattern, t.last().pattern)
        && rebound(
            s.last().source,
            t.last().source,
            cx,
            generators_scope(s.drop_last(), st),
            generators_scope(t.drop_last(), su),
        )
}

pub open spec fn rebound_stmts(s: Seq<Stmt>, t: Seq<Stmt>, cx: Locals, st: Scope, su: Scope) -> bool
    decreases s,
{
    &&& s.len() == t.len()
    &&& s.len() > 0 ==> rebound_stmts(s.drop_last(), t.drop_last(), cx, st, su)
        && rebound_stmt(
            s.last(),
            t.last(),
            cx,
            stmts_scope(s.drop_last(), st),
            stmts_scope(t.drop_last(), su),
        )
}

pub open spec fn rebound_part(
    s: InterpolatedPart,
    t: InterpolatedPart,
    cx: Locals,
    st: Scope,
    su: Scope,
) -> bool
    decreases s,
{
    match (s, t) {
        (InterpolatedPart::Literal(x), InterpolatedPart::Literal(y)) => x@ == y@,
        (InterpolatedPart::Expr(x), InterpolatedPart::Expr(y)) => rebound(x, y, cx, st, su),
        _ => false,
    }
}

pub open spec fn rebound_arm(s: MatchArm, t: MatchArm, cx: Locals, st: Scope, su: Scope) -> bool
    decreases s,
{
    let sp = pattern_print(s.pattern, st).1;
    let tp = pattern_print(t.pattern, su).1;
    &&& rebound_pattern(s.pattern, t.pattern)
    &&& match (s.guard, t.guard) {
        (Some(x), Some(y)) => rebound(x, y, cx, sp, tp),
        (None, None) => true,
        _ => false,
    }
    &&& rebound(s.body, t.body, cx, sp, tp)
}

pub open spec fn rebound_catch_arm(
    s: CatchArm,
    t: CatchArm,
    cx: Locals,
    st: Scope,
    su: Scope,
) -> bool
    decreases s,
{
    &&& match (s.class, t.class) {
        (Some(x), Some(y)) => x@ == y@,
        (None, None) => true,
        _ => false,
    }
    &&& rebound_pattern(s.pattern, t.pattern)
    &&& rebound(
        s.body,
        t.body,
        cx,
        pattern_print(s.pattern, st).1,
        pattern_print(t.pattern, su).1,
    )
}

pub open spec fn rebound_stmt(s: Stmt, t: Stmt, cx: Locals, st: Scope, su: Scope) -> bool
    decreases s,
{
    match (s, t) {
        (Stmt::Let(p, x), Stmt::Let(q, y)) => rebound_pattern(p, q) && rebound(x, y, cx, st, su),
        (Stmt::Expr(x), Stmt::Expr(y)) => rebound(x, y, cx, st, su),
        _ => false,
    }
}

proof fn pattern_prints(p: Pattern, q: Pattern, st: Scope, su: Scope)
    requires
        rebound_pattern(p, q),
        st.next == su.next,
    ensures
        pattern_print(p, st).0 == pattern_print(q, su).0,
        pattern_print(p, st).1.next == pattern_print(q, su).1.next,
    decreases p,
{
    match (p, q) {
        (Pattern::Tuple(s), Pattern::Tuple(t)) => {
            patterns_prints(s@, t@, st, su);
        },
        (Pattern::List(s, x), Pattern::List(t, y)) => {
            patterns_prints(s@, t@, st, su);
            match (x, y) {
                (Some(x), Some(y)) => {
                    pattern_prints(*x, *y, patterns_print(s@, st).1, patterns_print(t@, su).1);
                },
                _ => {},
            }
        },
        (Pattern::Constructor(c, s), Pattern::Constructor(d, t)) => {
            patterns_prints(s@, t@, st, su);
            assert(path_parts(c) =~= path_parts(d));
        },
        (Pattern::Record(s), Pattern::Record(t)) => {
            field_patterns_prints(s@, t@, st, su);
        },
        (Pattern::BitString(s), Pattern::BitString(t)) => {
            segment_patterns_prints(s@, t@, st, su);
        },
        (Pattern::Or(a, b), Pattern::Or(c, d)) => {
            pattern_prints(*a, *c, st, su);
            pattern_prints(*b, *d, st, su);
        },
        _ => {},
    }
}

proof fn patterns_prints(s: Seq<Pattern>, t: Seq<Pattern>, st: Scope, su: Scope)
    requires
        rebound_patterns(s, t),
        st.next == su.next,
    ensures
        patterns_print(s, st).0 == patterns_print(t, su).0,
        patterns_print(s, st).1.next == patterns_print(t, su).1.next,
    decreases s,
{
    if s.len() > 0 {
        patterns_prints(s.drop_last(), t.drop_last(), st, su);
        pattern_prints(
            s.last(),
            t.last(),
            patterns_print(s.drop_last(), st).1,
            patterns_print(t.drop_last(), su).1,
        );
    }
}

proof fn field_patterns_prints(
    s: Seq<(String, Pattern)>,
    t: Seq<(String, Pattern)>,
    st: Scope,
    su: Scope,
)
    requires
        rebound_field_patterns(s, t),
        st.next == su.next,
    ensures
        field_patterns_print(s, st).0 == field_patterns_print(t, su).0,
        field_patterns_print(s, st).1.next == field_patterns_print(t, su).1.next,
    decreases s,
{
    if s.len() > 0 {
        field_patterns_prints(s.drop_last(), t.drop_last(), st, su);
        pattern_prints(
            s.last().1,
            t.last().1,
            field_patterns_print(s.drop_last(), st).1,
            field_patterns_print(t.drop_last(), su).1,
        );
    }
}

proof fn segment_patterns_prints(
    s: Seq<BitStringPatternSegment>,
    t: Seq<BitStringPatternSegment>,
    st: Scope,
    su: Scope,
)
    requires
        rebound_segment_patterns(s, t),
        st.next == su.next,
    ensures
        segment_patterns_print(s, st).0 == segment_patterns_print(t, su).0,
        segment_patterns_print(s, st).1.next == segment_patterns_print(t, su).1.next,
    decreases s,
{
    if s.len() > 0 {
        segment_patterns_prints(s.drop_last(), t.drop_last(), st, su);
        pattern_prints(
            s.last().value,
            t.last().value,
            segment_patterns_print(s.drop_last(), st).1,
            segment_patterns_print(t.drop_last(), su).1,
        );
    }
}

proof fn params_count(st: Scope, s: Seq<Param>)
    ensures
        bound_params(st, s).next == st.next + s.len(),
    decreases s.len(),
{
    if s.len() > 0 {
        params_count(st, s.drop_last());
    }
}

proof fn same_length(s: Seq<Expr>, t: Seq<Expr>, cx: Locals, st: Scope, su: Scope)
    requires
        rebound_all(s, t, cx, st, su),
    ensures
        s.len() == t.len(),
{
}

proof fn same_called(e: Expr, f: Expr, n: nat, cx: Locals, st: Scope, su: Scope)
    requires
        rebound(e, f, cx, st, su),
    ensures
        called(e, n, cx, st) == called(f, n, cx, su),
{
}

proof fn part_values(s: InterpolatedPart, t: InterpolatedPart, cx: Locals, st: Scope, su: Scope)
    requires
        rebound_part(s, t, cx, st, su),
    ensures
        match (s, t) {
            (InterpolatedPart::Literal(x), InterpolatedPart::Literal(y)) => x@ == y@,
            (InterpolatedPart::Expr(x), InterpolatedPart::Expr(y)) => rebound(x, y, cx, st, su),
            _ => false,
        },
{
}

proof fn stmt_values(s: Stmt, t: Stmt, cx: Locals, st: Scope, su: Scope)
    requires
        rebound_stmt(s, t, cx, st, su),
    ensures
        match (s, t) {
            (Stmt::Let(p, x), Stmt::Let(q, y)) => rebound_pattern(p, q) && rebound(
                x,
                y,
                cx,
                st,
                su,
            ),
            (Stmt::Expr(x), Stmt::Expr(y)) => rebound(x, y, cx, st, su),
            _ => false,
        },
{
}

/// Expressions that differ in the names of bound variables alone have the same
/// fingerprint and call the same local functions.
pub proof fn fingerprint_ignores_binders(
    e: Expr,
    f: Expr,
    cx: Locals,
    st: Scope,
    su: Scope,
    c: Seq<Seq<char>>,
)
    requires
        rebound(e, f, cx, st, su),
        st.next == su.next,
    ensures
        expr_print(e, cx, st, c) == expr_print(f, cx, su, c),
    decreases e,
{
    match (e, f) {
        (Expr::InterpolatedString(s), Expr::InterpolatedString(t)) => {
            parts_prints(s@, t@, cx, st, su, c);
        },
        (Expr::Tuple(s), Expr::Tuple(t)) => {
            exprs_prints(s@, t@, cx, st, su, c);
        },
        (Expr::List(s, x), Expr::List(t, y)) => {
            exprs_prints(s@, t@, cx, st, su, c);
            match (x, y) {
                (Some(x), Some(y)) => {
                    fingerprint_ignores_binders(*x, *y, cx, st, su, exprs_print(s@, cx, st, c).1);
                },
                _ => {},
            }
        },
        (
            Expr::ListComp { expr: x, generators: g, filters: a },
            Expr::ListComp { expr: y, generators: h, filters: b },
        ) => {
            fingerprint_ignores_binders(*x, *y, cx, st, su, c);
            let c1 = expr_print(*x, cx, st, c).1;
            generators_prints(g@, h@, cx, st, su, c1);
            filters_prints(
                a@,
                b@,
                cx,
                generators_scope(g@, st),
                generators_scope(h@, su),
                generators_print(g@, cx, st, c1).2,
            );
        },
        (Expr::Range(a, b, _), Expr::Range(x, y, _)) => {
            fingerprint_ignores_binders(*a, *x, cx, st, su, c);
            fingerprint_ignores_binders(*b, *y, cx, st, su, expr_print(*a, cx, st, c).1);
        },
        (Expr::MapLit(s), Expr::MapLit(t)) => {
            pairs_prints(s@, t@, cx, st, su, c);
        },
        (Expr::Record(s), Expr::Record(t)) => {
            fields_prints(s@, t@, cx, st, su, c);
        },
        (Expr::StructInit(_, s), Expr::StructInit(_, t)) => {
            fields_prints(s@, t@, cx, st, su, c);
        },
        (Expr::BitString(s), Expr::BitString(t)) => {
            segments_prints(s@, t@, cx, st, su, c);
        },
        (Expr::Binary(a, _, b), Expr::Binary(x, _, y)) => {
            fingerprint_ignores_binders(*a, *x, cx, st, su, c);
            fingerprint_ignores_binders(*b, *y, cx, st, su, expr_print(*a, cx, st, c).1);
        },
        (Expr::Unary(_, a), Expr::Unary(_, x)) => {
            fingerprint_ignores_binders(*a, *x, cx, st, su, c);
        },
        (Expr::If(a, b, d), Expr::If(x, y, z)) => {
            fingerprint_ignores_binders(*a, *x, cx, st, su, c);
            let c1 = expr_print(*a, cx, st, c).1;
            fingerprint_ignores_binders(*b, *y, cx, st, su, c1);
            match (d, z) {
                (Some(d), Some(z)) => {
                    fingerprint_ignores_binders(*d, *z, cx, st, su, expr_print(*b, cx, st, c1).1);
                },
                _ => {},
            }
        },
        (Expr::Cond(s), Expr::Cond(t)) => {
            pairs_prints(s@, t@, cx, st, su, c);
        },
        (Expr::Match(a, s), Expr::Match(x, t)) => {
            fingerprint_ignores_binders(*a, *x, cx, st, su, c);
            arms_prints(s@, t@, cx, st, su, expr_print(*a, cx, st, c).1);
        },
        (Expr::Block(s, a), Expr::Block(t, x)) => {
            stmts_prints(s@, t@, cx, st, su, c);
            match (a, x) {
                (Some(a), Some(x)) => {
                    fingerprint_ignores_binders(
                        *a,
                        *x,
                        cx,
                        stmts_scope(s@, st),
                        stmts_scope(t@, su),
                        stmts_print(s@, cx, st, c).2,
                    );
                },
                _ => {},
            }
        },
        (Expr::Call(a, s), Expr::Call(x, t)) => {
            fingerprint_ignores_binders(*a, *x, cx, st, su, c);
            same_length(s@, t@, cx, st, su);
            same_called(*a, *x, s@.len(), cx, st, su);
            let c1 = match called(*a, s@.len(), cx, st) {
                Some(key) => with_new(c, key),
                None => expr_print(*a, cx, st, c).1,
            };
            exprs_prints(s@, t@, cx, st, su, c1);
        },
        (Expr::MethodCall(a, _, s), Expr::MethodCall(x, _, t)) => {
            fingerprint_ignores_binders(*a, *x, cx, st, su, c);
            exprs_prints(s@, t@, cx, st, su, expr_print(*a, cx, st, c).1);
        },
        (Expr::Lambda(s, a), Expr::Lambda(t, x)) => {
            params_count(st, s@);
            params_count(su, t@);
            fingerprint_ignores_binders(*a, *x, cx, bound_params(st, s@), bound_params(su, t@), c);
        },
        (Expr::Field(a, _), Expr::Field(x, _)) => {
            fingerprint_ignores_binders(*a, *x, cx, st, su, c);
        },
        (Expr::Index(a, b), Expr::Index(x, y)) => {
            fingerprint_ignores_binders(*a, *x, cx, st, su, c);
            fingerprint_ignores_binders(*b, *y, cx, st, su, expr_print(*a, cx, st, c).1);
        },
        (Expr::Path(p), Expr::Path(q)) => {
            assert(path_parts(p) =~= path_parts(q));
        },
        (Expr::Spawn(a), Expr::Spawn(x)) => {
            fingerprint_ignores_binders(*a, *x, cx, st, su, c);
        },
        (Expr::Send(a, b), Expr::Send(x, y)) => {
            fingerprint_ignores_binders(*a, *x, cx, st, su, c);
            fingerprint_ignores_binders(*b, *y, cx, st, su, expr_print(*a, cx, st, c).1);
        },
        (Expr::Receive { arms: s, timeout: a }, Expr::Receive { arms: t, timeout: x }) => {
            arms_prints(s@, t@, cx, st, su, c);
            let c1 = arms_print(s@, cx, st, c).1;
            match (a, x) {
                (Some((a, b)), Some((x, y))) => {
                    fingerprint_ignores_binders(*a, *x, cx, st, su, c1);
                    fingerprint_ignores_binders(*b, *y, cx, st, su, expr_print(*a, cx, st, c1).1);
                },
                _ => {},
            }
        },
        (Expr::Return(Some(a)), Expr::Return(Some(x))) => {
            fingerprint_ignores_binders(*a, *x, cx, st, su, c);
        },
        (Expr::Try { body: a, catch_arms: s }, Expr::Try { body: x, catch_arms: t }) => {
            fingerprint_ignores_binders(*a, *x, cx, st, su, c);
            catch_arms_prints(s@, t@, cx, st, su, expr_print(*a, cx, st, c).1);
        },
        _ => {},
    }
}

proof fn exprs_prints(
    s: Seq<Expr>,
    t: Seq<Expr>,
    cx: Locals,
    st: Scope,
    su: Scope,
    c: Seq<Seq<char>>,
)
    requires
        rebound_all(s, t, cx, st, su),
        st.next == su.next,
    ensures
        exprs_print(s, cx, st, c) == exprs_print(t, cx, su, c),
    decreases s,
{
    if s.len() > 0 {
        exprs_prints(s.drop_last(), t.drop_last(), cx, st, su, c);
        let c1 = exprs_print(s.drop_last(), cx, st, c).1;
        fingerprint_ignores_binders(s.last(), t.last(), cx, st, su, c1);
    }
}

proof fn filters_prints(
    s: Seq<Expr>,
    t: Seq<Expr>,
    cx: Locals,
    st: Scope,
    su: Scope,
    c: Seq<Seq<char>>,
)
    requires
        rebound_all(s, t, cx, st, su),
        st.next == su.next,
    ensures
        filters_print(s, cx, st, c) == filters_print(t, cx, su, c),
    decreases s,
{
    if s.len() > 0 {
        filters_prints(s.drop_last(), t.drop_last(), cx, st, su, c);
        let c1 = filters_print(s.drop_last(), cx, st, c).1;
        fingerprint_ignores_binders(s.last(), t.last(), cx, st, su, c1);
    }
}

proof fn pairs_prints(
    s: Seq<(Expr, Expr)>,
    t: Seq<(Expr, Expr)>,
    cx: Locals,
    st: Scope,
    su: Scope,
    c: Seq<Seq<char>>,
)
    requires
        rebound_pairs(s, t, cx, st, su),
        st.next == su.next,
    ensures
        pairs_print(s, cx, st, c) == pairs_print(t, cx, su, c),
    decreases s,
{
    if s.len() > 0 {
        pairs_prints(s.drop_last(), t.drop_last(), cx, st, su, c);
        let c1 = pairs_print(s.drop_last(), cx, st, c).1;
        fingerprint_ignores_binders(s.last().0, t.last().0, cx, st, su, c1);
        fingerprint_ignores_binders(
            s.last().1,
            t.last().1,
            cx,
            st,
            su,
            expr_print(s.last().0, cx, st, c1).1,
        );
    }
}

proof fn fields_prints(
    s: Seq<(String, Expr)>,
    t: Seq<(String, Expr)>,
    cx: Locals,
    st: Scope,
    su: Scope,
    c: Seq<Seq<char>>,
)
    requires
        rebound_fields(s, t, cx, st, su),
        st.next == su.next,
    ensures
        fields_print(s, cx, st, c) == fields_print(t, cx, su, c),
    decreases s,
{
    if s.len() > 0 {
        fields_prints(s.drop_last(), t.drop_last(), cx, st, su, c);
        let c1 = fields_print(s.drop_last(), cx, st, c).1;
        fingerprint_ignores_binders(s.last().1, t.last().1, cx, st, su, c1);
    }
}

proof fn segments_prints(
    s: Seq<BitStringSegment>,
    t: Seq<BitStringSegment>,
    cx: Locals,
    st: Scope,
    su: Scope,
    c: Seq<Seq<char>>,
)
    requires
        rebound_segments(s, t, cx, st, su),
        st.next == su.next,
    ensures
        segments_print(s, cx, st, c) == segments_print(t, cx, su, c),
    decreases s,
{
    if s.len() > 0 {
        segments_prints(s.drop_last(), t.drop_last(), cx, st, su, c);
        let c1 = segments_print(s.drop_last(), cx, st, c).1;
        fingerprint_ignores_binders(s.last().value, t.last().value, cx, st, su, c1);
    }
}

proof fn parts_prints(
    s: Seq<InterpolatedPart>,
    t: Seq<InterpolatedPart>,
    cx: Locals,
    st: Scope,
    su: Scope,
    c: Seq<Seq<char>>,
)
    requires
        rebound_parts(s, t, cx, st, su),
        st.next == su.next,
    ensures
        parts_print(s, cx, st, c) == parts_print(t, cx, su, c),
    decreases s,
{
    if s.len() > 0 {
        parts_prints(s.drop_last(), t.drop_last(), cx, st, su, c);
        let c1 = parts_print(s.drop_last(), cx, st, c).1;
        part_values(s.last(), t.last(), cx, st, su);
        match (s.last(), t.last()) {
            (InterpolatedPart::Expr(x), InterpolatedPart::Expr(y)) => {
                fingerprint_ignores_binders(x, y, cx, st, su, c1);
            },
            _ => {},
        }
    }
}

proof fn arms_prints(
    s: Seq<MatchArm>,
    t: Seq<MatchArm>,
    cx: Locals,
    st: Scope,
    su: Scope,
    c: Seq<Seq<char>>,
)
    requires
        rebound_arms(s, t, cx, st, su),
        st.next == su.next,
    ensures
        arms_print(s, cx, st, c) == arms_print(t, cx, su, c),
    decreases s,
{
    if s.len() > 0 {
        arms_prints(s.drop_last(), t.drop_last(), cx, st, su, c);
        let c1 = arms_print(s.drop_last(), cx, st, c).1;
        arm_prints(s.last(), t.last(), cx, st, su, c1);
    }
}

proof fn catch_arms_prints(
    s: Seq<CatchArm>,
    t: Seq<CatchArm>,
    cx: Locals,
    st: Scope,
    su: Scope,
    c: Seq<Seq<char>>,
)
    requires
        rebound_catch_arms(s, t, cx, st, su),
        st.next == su.next,
    ensures
        catch_arms_print(s, cx, st, c) == catch_arms_print(t, cx, su, c),
    decreases s,
{
    if s.len() > 0 {
        catch_arms_prints(s.drop_last(), t.drop_last(), cx, st, su, c);
        let c1 = catch_arms_print(s.drop_last(), cx, st, c).1;
        catch_arm_prints(s.last(), t.last(), cx, st, su, c1);
    }
}

proof fn arm_prints(
    s: MatchArm,
    t: MatchArm,
    cx: Locals,
    st: Scope,
    su: Scope,
    c: Seq<Seq<char>>,
)
    requires
        rebound_arm(s, t, cx, st, su),
        st.next == su.next,
    ensures
        arm_print(s, cx, st, c) == arm_print(t, cx, su, c),
    decreases s,
{
    let sp = pattern_print(s.pattern, st).1;
    let tp = pattern_print(t.pattern, su).1;
    pattern_prints(s.pattern, t.pattern, st, su);
    let c1 = match (s.guard, t.guard) {
        (Some(x), Some(y)) => {
            fingerprint_ignores_binders(x, y, cx, sp, tp, c);
            expr_print(x, cx, sp, c).1
        },
        _ => c,
    };
    fingerprint_ignores_binders(s.body, t.body, cx, sp, tp, c1);
}

proof fn catch_arm_prints(
    s: CatchArm,
    t: CatchArm,
    cx: Locals,
    st: Scope,
    su: Scope,
    c: Seq<Seq<char>>,
)
    requires
        rebound_catch_arm(s, t, cx, st, su),
        st.next == su.next,
    ensures
        catch_arm_print(s, cx, st, c) == catch_arm_print(t, cx, su, c),
    decreases s,
{
    pattern_prints(s.pattern, t.pattern, st, su);
    fingerprint_ignores_binders(
        s.body,
        t.body,
        cx,
        pattern_print(s.pattern, st).1,
        pattern_print(t.pattern, su).1,
        c,
    );
}

proof fn generators_prints(
    s: Seq<Generator>,
    t: Seq<Generator>,
    cx: Locals,
    st: Scope,
    su: Scope,
    c: Seq<Seq<char>>,
)
    requires
        rebound_generators(s, t, cx, st, su),
        st.next == su.next,
    ensures
        generators_print(s, cx, st, c).0 == generators_print(t, cx, su, c).0,
        generators_print(s, cx, st, c).2 == generators_print(t, cx, su, c).2,
        generators_print(s, cx, st, c).1 == generators_scope(s, st),
        generators_print(t, cx, su, c).1 == generators_scope(t, su),
        generators_scope(s, st).next == generators_scope(t, su).next,
    decreases s,
{
    if s.len() > 0 {
        generators_prints(s.drop_last(), t.drop_last(), cx, st, su, c);
        let sp = generators_scope(s.drop_last(), st);
        let tp = generators_scope(t.drop_last(), su);
        fingerprint_ignores_binders(
            s.last().source,
            t.last().source,
            cx,
            sp,
            tp,
            generators_print(s.drop_last(), cx, st, c).2,
        );
        pattern_prints(s.last().pattern, t.last().pattern, sp, tp);
    }
}

proof fn stmts_prints(
    s: Seq<Stmt>,
    t: Seq<Stmt>,
    cx: Locals,
    st: Scope,
    su: Scope,
    c: Seq<Seq<char>>,
)
    requires
        rebound_stmts(s, t, cx, st, su),
        st.next == su.next,
    ensures
        stmts_print(s, cx, st, c).0 == stmts_print(t, cx, su, c).0,
        stmts_print(s, cx, st, c).2 == stmts_print(t, cx, su, c).2,
        stmts_print(s, cx, st, c).1 == stmts_scope(s, st),
        stmts_print(t, cx, su, c).1 == stmts_scope(t, su),
        stmts_scope(s, st).next == stmts_scope(t, su).next,
    decreases s,
{
    if s.len() > 0 {
        stmts_prints(s.drop_last(), t.drop_last(), cx, st, su, c);
        let sp = stmts_scope(s.drop_last(), st);
        let tp = stmts_scope(t.drop_last(), su);
        let c1 = stmts_print(s.drop_last(), cx, st, c).2;
        stmt_values(s.last(), t.last(), cx, sp, tp);
        match (s.last(), t.last()) {
            (Stmt::Let(p, x), Stmt::Let(q, y)) => {
                fingerprint_ignores_binders(x, y, cx, sp, tp, c1);
                pattern_prints(p, q, sp, tp);
            },
            (Stmt::Expr(x), Stmt::Expr(y)) => {
                fingerprint_ignores_binders(x, y, cx, sp, tp, c1);
            },
            _ => {},
        }
    }
}

/// Whether every text of one list is in the other.
pub open spec fn within(c: Seq<Seq<char>>, keys: Seq<Seq<char>>) -> bool {
    forall|k: Seq<char>| #[trigger] c.contains(k) ==> keys.contains(k)
}

/// Whether the same functions are at hand, in whatever order.
pub open spec fn same_locals(cx: Locals, cy: Locals) -> bool {
    &&& cx.current == cy.current
    &&& forall|k: Seq<char>| #[trigger] cx.keys.contains(k) <==> cy.keys.contains(k)
}

proof fn with_new_within(c: Seq<Seq<char>>, k: Seq<char>, keys: Seq<Seq<char>>)
    requires
        within(c, keys),
        keys.contains(k),
    ensures
        within(with_new(c, k), keys),
{
    let d = with_new(c, k);
    assert forall|x: Seq<char>| #[trigger] d.contains(x) implies keys.contains(x) by {
        let i = choose|i: int| 0 <= i < d.len() && d[i] == x;
        if i < c.len() {
            assert(c[i] == x);
            assert(c.contains(x));
        }
    }
}

/// A fingerprint does not depend on the order of the functions at hand, and
/// what an expression calls is among them.
pub proof fn fingerprint_ignores_order(
    e: Expr,
    cx: Locals,
    cy: Locals,
    st: Scope,
    c: Seq<Seq<char>>,
)
    requires
        same_locals(cx, cy),
        within(c, cx.keys),
    ensures
        expr_print(e, cx, st, c) == expr_print(e, cy, st, c),
        within(expr_print(e, cx, st, c).1, cx.keys),
    decreases e,
{
    match e {
        Expr::InterpolatedString(s) => {
            parts_local(s@, cx, cy, st, c);
        },
        Expr::Tuple(s) => {
            exprs_local(s@, cx, cy, st, c);
        },
        Expr::List(s, x) => {
            exprs_local(s@, cx, cy, st, c);
            match x {
                Some(x) => {
                    fingerprint_ignores_order(*x, cx, cy, st, exprs_print(s@, cx, st, c).1);
                },
                None => {},
            }
        },
        Expr::ListComp { expr: x, generators: g, filters: a } => {
            fingerprint_ignores_order(*x, cx, cy, st, c);
            let c1 = expr_print(*x, cx, st, c).1;
            generators_local(g@, cx, cy, st, c1);
            let (_, inner, c2) = generators_print(g@, cx, st, c1);
            filters_local(a@, cx, cy, inner, c2);
        },
        Expr::Range(a, b, _) => {
            fingerprint_ignores_order(*a, cx, cy, st, c);
            fingerprint_ignores_order(*b, cx, cy, st, expr_print(*a, cx, st, c).1);
        },
        Expr::Index(a, b) => {
            fingerprint_ignores_order(*a, cx, cy, st, c);
            fingerprint_ignores_order(*b, cx, cy, st, expr_print(*a, cx, st, c).1);
        },
        Expr::Send(a, b) => {
            fingerprint_ignores_order(*a, cx, cy, st, c);
            fingerprint_ignores_order(*b, cx, cy, st, expr_print(*a, cx, st, c).1);
        },
        Expr::MapLit(s) => {
            pairs_local(s@, cx, cy, st, c);
        },
        Expr::Record(s) => {
            fields_local(s@, cx, cy, st, c);
        },
        Expr::StructInit(_, s) => {
            fields_local(s@, cx, cy, st, c);
        },
        Expr::BitString(s) => {
            segments_local(s@, cx, cy, st, c);
        },
        Expr::Binary(a, op, b) => {
            fingerprint_ignores_order(*a, cx, cy, st, c);
            let c1 = expr_print(*a, cx, st, c).1;
            fingerprint_ignores_order(*b, cx, cy, st, c1);
            assert(piped(op, *b, cx) == piped(op, *b, cy));
            match piped(op, *b, cx) {
                Some(key) => {
                    with_new_within(expr_print(*b, cx, st, c1).1, key, cx.keys);
                },
                None => {},
            }
        },
        Expr::Unary(_, a) => {
            fingerprint_ignores_order(*a, cx, cy, st, c);
        },
        Expr::If(a, b, d) => {
            fingerprint_ignores_order(*a, cx, cy, st, c);
            let c1 = expr_print(*a, cx, st, c).1;
            fingerprint_ignores_order(*b, cx, cy, st, c1);
            match d {
                Some(d) => {
                    fingerprint_ignores_order(*d, cx, cy, st, expr_print(*b, cx, st, c1).1);
                },
                None => {},
            }
        },
        Expr::Cond(s) => {
            pairs_local(s@, cx, cy, st, c);
        },
        Expr::Match(a, s) => {
            fingerprint_ignores_order(*a, cx, cy, st, c);
            arms_local(s@, cx, cy, st, expr_print(*a, cx, st, c).1);
        },
        Expr::Block(s, a) => {
            stmts_local(s@, cx, cy, st, c);
            let (_, inner, c1) = stmts_print(s@, cx, st, c);
            match a {
                Some(a) => {
                    fingerprint_ignores_order(*a, cx, cy, inner, c1);
                },
                None => {},
            }
        },
        Expr::Call(a, s) => {
            assert(called(*a, s@.len(), cx, st) == called(*a, s@.len(), cy, st));
            let c1 = match called(*a, s@.len(), cx, st) {
                Some(key) => {
                    with_new_within(c, key, cx.keys);
                    with_new(c, key)
                },
                None => {
                    fingerprint_ignores_order(*a, cx, cy, st, c);
                    expr_print(*a, cx, st, c).1
                },
            };
            exprs_local(s@, cx, cy, st, c1);
        },
        Expr::MethodCall(a, _, s) => {
            fingerprint_ignores_order(*a, cx, cy, st, c);
            exprs_local(s@, cx, cy, st, expr_print(*a, cx, st, c).1);
        },
        Expr::Lambda(s, a) => {
            fingerprint_ignores_order(*a, cx, cy, bound_params(st, s@), c);
        },
        Expr::Field(a, _) => {
            fingerprint_ignores_order(*a, cx, cy, st, c);
        },
        Expr::Spawn(a) => {
            fingerprint_ignores_order(*a, cx, cy, st, c);
        },
        Expr::Receive { arms: s, timeout: a } => {
            arms_local(s@, cx, cy, st, c);
            let c1 = arms_print(s@, cx, st, c).1;
            match a {
                Some((a, b)) => {
                    fingerprint_ignores_order(*a, cx, cy, st, c1);
                    fingerprint_ignores_order(*b, cx, cy, st, expr_print(*a, cx, st, c1).1);
                },
                None => {},
            }
        },
        Expr::Return(Some(a)) => {
            fingerprint_ignores_order(*a, cx, cy, st, c);
        },
        Expr::Try { body: a, catch_arms: s } => {
            fingerprint_ignores_order(*a, cx, cy, st, c);
            catch_arms_local(s@, cx, cy, st, expr_print(*a, cx, st, c).1);
        },
        _ => {},
    }
}

proof fn exprs_local(s: Seq<Expr>, cx: Locals, cy: Locals, st: Scope, c: Seq<Seq<char>>)
    requires
        same_locals(cx, cy),
        within(c, cx.keys),
    ensures
        exprs_print(s, cx, st, c) == exprs_print(s, cy, st, c),
        within(exprs_print(s, cx, st, c).1, cx.keys),
    decreases s,
{
    if s.len() > 0 {
        exprs_local(s.drop_last(), cx, cy, st, c);
        let c1 = exprs_print(s.drop_last(), cx, st, c).1;
        fingerprint_ignores_order(s.last(), cx, cy, st, c1);
    }
}

proof fn filters_local(s: Seq<Expr>, cx: Locals, cy: Locals, st: Scope, c: Seq<Seq<char>>)
    requires
        same_locals(cx, cy),
        within(c, cx.keys),
    ensures
        filters_print(s, cx, st, c) == filters_print(s, cy, st, c),
        within(filters_print(s, cx, st, c).1, cx.keys),
    decreases s,
{
    if s.len() > 0 {
        filters_local(s.drop_last(), cx, cy, st, c);
        let c1 = filters_print(s.drop_last(), cx, st, c).1;
        fingerprint_ignores_order(s.last(), cx, cy, st, c1);
    }
}

proof fn pairs_local(s: Seq<(Expr, Expr)>, cx: Locals, cy: Locals, st: Scope, c: Seq<Seq<char>>)
    requires
        same_locals(cx, cy),
        within(c, cx.keys),
    ensures
        pairs_print(s, cx, st, c) == pairs_print(s, cy, st, c),
        within(pairs_print(s, cx, st, c).1, cx.keys),
    decreases s,
{
    if s.len() > 0 {
        pairs_local(s.drop_last(), cx, cy, st, c);
        let c1 = pairs_print(s.drop_last(), cx, st, c).1;
        fingerprint_ignores_order(s.last().0, cx, cy, st, c1);
        fingerprint_ignores_order(s.last().1, cx, cy, st, expr_print(s.last().0, cx, st, c1).1);
    }
}

proof fn fields_local(s: Seq<(String, Expr)>, cx: Locals, cy: Locals, st: Scope, c: Seq<Seq<char>>)
    requires
        same_locals(cx, cy),
        within(c, cx.keys),
    ensures
        fields_print(s, cx, st, c) == fields_print(s, cy, st, c),
        within(fields_print(s, cx, st, c).1, cx.keys),
    decreases s,
{
    if s.len() > 0 {
        fields_local(s.drop_last(), cx, cy, st, c);
        let c1 = fields_print(s.drop_last(), cx, st, c).1;
        fingerprint_ignores_order(s.last().1, cx, cy, st, c1);
    }
}

proof fn segments_local(
    s: Seq<BitStringSegment>,
    cx: Locals,
    cy: Locals,
    st: Scope,
    c: Seq<Seq<char>>,
)
    requires
        same_locals(cx, cy),
        within(c, cx.keys),
    ensures
        segments_print(s, cx, st, c) == segments_print(s, cy, st, c),
        within(segments_print(s, cx, st, c).1, cx.keys),
    decreases s,
{
    if s.len() > 0 {
        segments_local(s.drop_last(), cx, cy, st, c);
        let c1 = segments_print(s.drop_last(), cx, st, c).1;
        fingerprint_ignores_order(s.last().value, cx, cy, st, c1);
    }
}

proof fn parts_local(s: Seq<InterpolatedPart>, cx: Locals, cy: Locals, st: Scope, c: Seq<Seq<char>>)
    requires
        same_locals(cx, cy),
        within(c, cx.keys),
    ensures
        parts_print(s, cx, st, c) == parts_print(s, cy, st, c),
        within(parts_print(s, cx, st, c).1, cx.keys),
    decreases s,
{
    if s.len() > 0 {
        parts_local(s.drop_last(), cx, cy, st, c);
        let c1 = parts_print(s.drop_last(), cx, st, c).1;
        match s.last() {
            InterpolatedPart::Expr(x) => {
                fingerprint_ignores_order(x, cx, cy, st, c1);
            },
            _ => {},
        }
    }
}

proof fn arms_local(s: Seq<MatchArm>, cx: Locals, cy: Locals, st: Scope, c: Seq<Seq<char>>)
    requires
        same_locals(cx, cy),
        within(c, cx.keys),
    ensures
        arms_print(s, cx, st, c) == arms_print(s, cy, st, c),
        within(arms_print(s, cx, st, c).1, cx.keys),
    decreases s,
{
    if s.len() > 0 {
        arms_local(s.drop_last(), cx, cy, st, c);
        let c1 = arms_print(s.drop_last(), cx, st, c).1;
        arm_local(s.last(), cx, cy, st, c1);
    }
}

proof fn catch_arms_local(s: Seq<CatchArm>, cx: Locals, cy: Locals, st: Scope, c: Seq<Seq<char>>)
    requires
        same_locals(cx, cy),
        within(c, cx.keys),
    ensures
        catch_arms_print(s, cx, st, c) == catch_arms_print(s, cy, st, c),
        within(catch_arms_print(s, cx, st, c).1, cx.keys),
    decreases s,
{
    if s.len() > 0 {
        catch_arms_local(s.drop_last(), cx, cy, st, c);
        let c1 = catch_arms_print(s.drop_last(), cx, st, c).1;
        catch_arm_local(s.last(), cx, cy, st, c1);
    }
}

proof fn arm_local(s: MatchArm, cx: Locals, cy: Locals, st: Scope, c: Seq<Seq<char>>)
    requires
        same_locals(cx, cy),
        within(c, cx.keys),
    ensures
        arm_print(s, cx, st, c) == arm_print(s, cy, st, c),
        within(arm_print(s, cx, st, c).1, cx.keys),
    decreases s,
{
    let inner = pattern_print(s.pattern, st).1;
    let c1 = match s.guard {
        Some(x) => {
            fingerprint_ignores_order(x, cx, cy, inner, c);
            expr_print(x, cx, inner, c).1
        },
        None => c,
    };
    fingerprint_ignores_order(s.body, cx, cy, inner, c1);
}

proof fn catch_arm_local(s: CatchArm, cx: Locals, cy: Locals, st: Scope, c: Seq<Seq<char>>)
    requires
        same_locals(cx, cy),
        within(c, cx.keys),
    ensures
        catch_arm_print(s, cx, st, c) == catch_arm_print(s, cy, st, c),
        within(catch_arm_print(s, cx, st, c).1, cx.keys),
    decreases s,
{
    fingerprint_ignores_order(s.body, cx, cy, pattern_print(s.pattern, st).1, c);
}

proof fn generators_local(s: Seq<Generator>, cx: Locals, cy: Locals, st: Scope, c: Seq<Seq<char>>)
    requires
        same_locals(cx, cy),
        within(c, cx.keys),
    ensures
        generators_print(s, cx, st, c) == generators_print(s, cy, st, c),
        within(generators_print(s, cx, st, c).2, cx.keys),
    decreases s,
{
    if s.len() > 0 {
        generators_local(s.drop_last(), cx, cy, st, c);
        let c1 = generators_print(s.drop_last(), cx, st, c).2;
        let inner = generators_print(s.drop_last(), cx, st, c).1;
        fingerprint_ignores_order(s.last().source, cx, cy, inner, c1);
    }
}

proof fn stmts_local(s: Seq<Stmt>, cx: Locals, cy: Locals, st: Scope, c: Seq<Seq<char>>)
    requires
        same_locals(cx, cy),
        within(c, cx.keys),
    ensures
        stmts_print(s, cx, st, c) == stmts_print(s, cy, st, c),
        within(stmts_print(s, cx, st, c).2, cx.keys),
    decreases s,
{
    if s.len() > 0 {
        stmts_local(s.drop_last(), cx, cy, st, c);
        let c1 = stmts_print(s.drop_last(), cx, st, c).2;
        let inner = stmts_print(s.drop_last(), cx, st, c).1;
        match s.last() {
            Stmt::Let(_, x) => {
                fingerprint_ignores_order(x, cx, cy, inner, c1);
            },
            Stmt::Expr(x) => {
                fingerprint_ignores_order(x, cx, cy, inner, c1);
            },
        }
    }
}

/// Whether two functions have equally many parameters and differ in the names of
/// parameters and other bound variables alone, as the fingerprint sees them.
pub open spec fn rebound_function(f: Function, g: Function, cx: Locals) -> bool {
    &&& f.params@.len() == g.params@.len()
    &&& rebound(
        f.body,
        g.body,
        cx,
        bound_params(empty_scope(), f.params@),
        bound_params(empty_scope(), g.params@),
    )
}

/// Functions whose parameters are equally many, and whose bodies differ in the
/// names of parameters and other bound variables alone, have the same
/// fingerprint and call the same local functions.
pub proof fn function_fingerprint_ignores_binders(f: Function, g: Function, cx: Locals)
    requires
        rebound_function(f, g, cx),
    ensures
        function_print(f, cx) == function_print(g, cx),
{
    params_count(empty_scope(), f.params@);
    params_count(empty_scope(), g.params@);
    fingerprint_ignores_binders(
        f.body,
        g.body,
        cx,
        bound_params(empty_scope(), f.params@),
        bound_params(empty_scope(), g.params@),
        Seq::empty(),
    );
}

/// The fingerprint of a function does not depend on the order of the functions
/// at hand, and what the function calls is among them.
pub proof fn function_fingerprint_ignores_order(f: Function, cx: Locals, cy: Locals)
    requires
        same_locals(cx, cy),
    ensures
        function_print(f, cx) == function_print(f, cy),
        within(function_print(f, cx).1, cx.keys),
{
    fingerprint_ignores_order(
        f.body,
        cx,
        cy,
        bound_params(empty_scope(), f.params@),
        Seq::empty(),
    );
}

} // verus!
