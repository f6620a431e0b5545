//! Expressions with the same fingerprint are the same code up to the names of
//! bound variables and of local functions.
use vstd::prelude::*;
use crate::ast::{
    path_parts, BitStringSegment, CatchArm, Expr, Function, Generator, InterpolatedPart, MatchArm,
    Stmt,
};
use crate::fingerprint::{
    arm_print, arms_print, binop_name, bool_text, bound_params, called, catch_arm_print,
    catch_arms_print, empty_scope, expr_print, exprs_print, fields_print, filters_print,
    function_print, generators_print, pairs_print, parts_print, pattern_print, piped,
    segment_suffix, segments_print, stmts_print, unop_name, Locals, Scope,
};
use crate::names::found;
use crate::print_binders::rebound_pattern;
use crate::print_pattern::{
    pattern_numbered, pattern_tells, plain_pattern, suffix_rest, suffix_told,
};
use crate::print_pieces::{
    are_words, bool_told, closes, cut, decimal_int_injective, decimal_int_is_word, decimal_is_word,
    found_is_word, is_numbered, is_rest, is_word, kind, kind_shown, nest2, nest3, nest4, nest5,
    nest6, nest7, nothing_before, op_told, params_numbered, path_told, pattern_shown, rest_colon,
    rest_led, slide1, slide2, slide3, slide4, strip, strip_two, unary_told, which,
};
use crate::print_twin::decimal_injective;
use crate::text::{decimal, decimal_int, joined, with_new};

verus! {

/// Whether two expressions are the same code up to the names of bound variables
/// and of local functions. The first stands among the local functions `cx` and in
/// scope `st`, the second among `cy` and in scope `su`. A variable of one and the
/// variable of the other at the same place have the same binder, or are both free
/// and have the same name. Where one calls a local function so does the other, and
/// either both call the function at hand or neither does.
pub open spec fn alike(e: Expr, f: Expr, cx: Locals, cy: Locals, st: Scope, su: Scope) -> bool
    decreases e,
{
    match (e, f) {
        (Expr::Int(m), Expr::Int(n)) => m == n,
        (Expr::Float(x), Expr::Float(y)) => x.text@ == y.text@,
        (Expr::Char(a), Expr::Char(b)) => a == b,
        (Expr::String(x), Expr::String(y)) => x@ == y@,
        (Expr::InterpolatedString(s), Expr::InterpolatedString(t)) => alike_parts(
            s@,
            t@,
            cx,
            cy,
            st,
            su,
        ),
        (Expr::Bool(a), Expr::Bool(b)) => a == b,
        (Expr::Atom(x), Expr::Atom(y)) => x@ == y@,
        (Expr::Unit, Expr::Unit) => true,
        (Expr::Var(x), Expr::Var(y)) => match (found(st.names, x@), found(su.names, y@)) {
            (Some(m), Some(n)) => m == n,
            (None, None) => x@ == y@,
            _ => false,
        },
        (Expr::Tuple(s), Expr::Tuple(t)) => alike_all(s@, t@, cx, cy, st, su),
        (Expr::List(s, x), Expr::List(t, y)) => alike_all(s@, t@, cx, cy, st, su) && (match (x, y) {
            (Some(x), Some(y)) => alike(*x, *y, cx, cy, st, su),
            (None, None) => true,
            _ => false,
        }),
        (
            Expr::ListComp { expr: x, generators: g, filters: s },
            Expr::ListComp { expr: y, generators: h, filters: t },
        ) => alike(*x, *y, cx, cy, st, su) && alike_generators(g@, h@, cx, cy, st, su) && alike_all(
            s@,
            t@,
            cx,
            cy,
            after_generators(g@, st),
            after_generators(h@, su),
        ),
        (Expr::Range(a, b, i), Expr::Range(c, d, j)) => i == j && alike(*a, *c, cx, cy, st, su)
            && alike(*b, *d, cx, cy, st, su),
        (Expr::MapLit(s), Expr::MapLit(t)) => alike_pairs(s@, t@, cx, cy, st, su),
        (Expr::Record(s), Expr::Record(t)) => alike_fields(s@, t@, cx, cy, st, su),
        (Expr::StructInit(x, s), Expr::StructInit(y, t)) => x@ == y@
            && alike_fields(s@, t@, cx, cy, st, su),
        (Expr::BitString(s), Expr::BitString(t)) => alike_segments(s@, t@, cx, cy, st, su),
        (Expr::Binary(a, o, b), Expr::Binary(c, p, d)) => alike(*a, *c, cx, cy, st, su) && o == p
            && (
        match (piped(o, *b, cx), piped(p, *d, cy)) {
            (Some(k), Some(l)) => (k == cx.current) == (l == cy.current),
            (None, None) => alike(*b, *d, cx, cy, st, su),
            _ => false,
        }),
        (Expr::Unary(o, x), Expr::Unary(p, y)) => o == p && alike(*x, *y, cx, cy, st, su),
        (Expr::If(c, x, a), Expr::If(d, y, b)) => alike(*c, *d, cx, cy, st, su)
            && alike(*x, *y, cx, cy, st, su) && (
        match (a, b) {
            (Some(a), Some(b)) => alike(*a, *b, cx, cy, st, su),
            (None, None) => true,
            _ => false,
        }),
        (Expr::Cond(s), Expr::Cond(t)) => alike_pairs(s@, t@, cx, cy, st, su),
        (Expr::Match(x, s), Expr::Match(y, t)) => alike(*x, *y, cx, cy, st, su)
            && alike_arms(s@, t@, cx, cy, st, su),
        (Expr::Block(s, x), Expr::Block(t, y)) => alike_stmts(s@, t@, cx, cy, st, su)
            && (match (x, y) {
            (Some(x), Some(y)) => alike(*x, *y, cx, cy, after_stmts(s@, st), after_stmts(t@, su)),
            (None, None) => true,
            _ => false,
        }),
        (Expr::Call(x, s), Expr::Call(y, t)) => alike_all(s@, t@, cx, cy, st, su) && (match (
            called(*x, s@.len(), cx, st),
            called(*y, t@.len(), cy, su),
        ) {
            (Some(k), Some(l)) => (k == cx.current) == (l == cy.current),
            (None, None) => alike(*x, *y, cx, cy, st, su),
            _ => false,
        }),
        (Expr::MethodCall(x, m, s), Expr::MethodCall(y, n, t)) => m@ == n@
            && alike(*x, *y, cx, cy, st, su)
            && alike_all(s@, t@, cx, cy, st, su),
        (Expr::Lambda(s, x), Expr::Lambda(t, y)) => s@.len() == t@.len() && alike(
            *x,
            *y,
            cx,
            cy,
            bound_params(st, s@),
            bound_params(su, t@),
        ),
        (Expr::Field(x, s), Expr::Field(y, t)) => s@ == t@ && alike(*x, *y, cx, cy, st, su),
        (Expr::Index(a, b), Expr::Index(c, d)) => alike(*a, *c, cx, cy, st, su)
            && alike(*b, *d, cx, cy, st, su),
        (Expr::Path(p), Expr::Path(q)) => path_parts(p) == path_parts(q),
        (Expr::Spawn(x), Expr::Spawn(y)) => alike(*x, *y, cx, cy, st, su),
        (Expr::Send(a, b), Expr::Send(c, d)) => alike(*a, *c, cx, cy, st, su)
            && alike(*b, *d, cx, cy, st, su),
        (Expr::Receive { arms: s, timeout: x }, Expr::Receive { arms: t, timeout: y }) => {
            alike_arms(s@, t@, cx, cy, st, su) && (match (x, y) {
                (Some((a, b)), Some((c, d))) => alike(*a, *c, cx, cy, st, su)
                    && alike(*b, *d, cx, cy, st, su),
                (None, None) => true,
                _ => false,
            })
        },
        (Expr::SelfPid, Expr::SelfPid) => true,
        (Expr::Return(x), Expr::Return(y)) => match (x, y) {
            (Some(x), Some(y)) => alike(*x, *y, cx, cy, st, su),
            (None, None) => true,
            _ => false,
        },
        (Expr::Try { body: x, catch_arms: s }, Expr::Try { body: y, catch_arms: t }) => alike(
            *x,
            *y,
            cx,
            cy,
            st,
            su,
        )
            && alike_catch_arms(s@, t@, cx, cy, st, su),
        _ => false,
    }
}

/// The scope that a statement leaves.
pub open spec fn after_stmt(s: Stmt, st: Scope) -> Scope {
    match s {
        Stmt::Let(p, _) => pattern_print(p, st).1,
        Stmt::Expr(_) => st,
    }
}

pub open spec fn after_stmts(s: Seq<Stmt>, st: Scope) -> Scope
    decreases s.len(),
{
    if s.len() == 0 {
        st
    } else {
        after_stmts(s.drop_first(), after_stmt(s[0], st))
    }
}

pub open spec fn after_generators(s: Seq<Generator>, st: Scope) -> Scope
    decreases s.len(),
{
    if s.len() == 0 {
        st
    } else {
        after_generators(s.drop_first(), pattern_print(s[0].pattern, st).1)
    }
}

pub open spec fn alike_all(
    s: Seq<Expr>,
    t: Seq<Expr>,
    cx: Locals,
    cy: Locals,
    st: Scope,
    su: Scope,
) -> bool
    decreases s,
{
    &&& s.len() == t.len()
    &&& s.len() > 0 ==> alike(s[0], t[0], cx, cy, st, su)
        && alike_all(s.drop_first(), t.drop_first(), cx, cy, st, su)
}

pub open spec fn alike_pairs(
    s: Seq<(Expr, Expr)>,
    t: Seq<(Expr, Expr)>,
    cx: Locals,
    cy: Locals,
    st: Scope,
    su: Scope,
) -> bool
    decreases s,
{
    &&& s.len() == t.len()
    &&& s.len() > 0 ==> alike(s[0].0, t[0].0, cx, cy, st, su)
        && alike(s[0].1, t[0].1, cx, cy, st, su)
        && alike_pairs(s.drop_first(), t.drop_first(), cx, cy, st, su)
}

pub open spec fn alike_fields(
    s: Seq<(String, Expr)>,
    t: Seq<(String, Expr)>,
    cx: Locals,
    cy: Locals,
    st: Scope,
    su: Scope,
) -> bool
    decreases s,
{
    &&& s.len() == t.len()
    &&& s.len() > 0 ==> s[0].0@ == t[0].0@ && alike(s[0].1, t[0].1, cx, cy, st, su)
        && alike_fields(s.drop_first(), t.drop_first(), cx, cy, st, su)
}

pub open spec fn alike_segments(
    s: Seq<BitStringSegment>,
    t: Seq<BitStringSegment>,
    cx: Locals,
    cy: Locals,
    st: Scope,
    su: Scope,
) -> bool
    decreases s,
{
    &&& s.len() == t.len()
    &&& s.len() > 0 ==> s[0].size == t[0].size && s[0].specifier == t[0].specifier
        && alike(s[0].value, t[0].value, cx, cy, st, su)
        && alike_segments(s.drop_first(), t.drop_first(), cx, cy, st, su)
}

pub open spec fn alike_parts(
    s: Seq<InterpolatedPart>,
    t: Seq<InterpolatedPart>,
    cx: Locals,
    cy: Locals,
    st: Scope,
    su: Scope,
) -> bool
    decreases s,
{
    &&& s.len() == t.len()
    &&& s.len() > 0 ==> alike_part(s[0], t[0], cx, cy, st, su)
        && alike_parts(s.drop_first(), t.drop_first(), cx, cy, st, su)
}

pub open spec fn alike_arms(
    s: Seq<MatchArm>,
    t: Seq<MatchArm>,
    cx: Locals,
    cy: Locals,
    st: Scope,
    su: Scope,
) -> bool
    decreases s,
{
    &&& s.len() == t.len()
    &&& s.len() > 0 ==> alike_arm(s[0], t[0], cx, cy, st, su)
        && alike_arms(s.drop_first(), t.drop_first(), cx, cy, st, su)
}

pub open spec fn alike_catch_arms(
    s: Seq<CatchArm>,
    t: Seq<CatchArm>,
    cx: Locals,
    cy: Locals,
    st: Scope,
    su: Scope,
) -> bool
    decreases s,
{
    &&& s.len() == t.len()
    &&& s.len() > 0 ==> alike_catch_arm(s[0], t[0], cx, cy, st, su)
        && alike_catch_arms(s.drop_first(), t.drop_first(), cx, cy, st, su)
}

pub open spec fn alike_generators(
    s: Seq<Generator>,
    t: Seq<Generator>,
    cx: Locals,
    cy: Locals,
    st: Scope,
    su: Scope,
) -> bool
    decreases s,
{
    &&& s.len() == t.len()
    &&& s.len() > 0 ==> rebound_pattern(s[0].pattern, t[0].pattern) && alike(
        s[0].source,
        t[0].source,
        cx,
        cy,
        st,
        su,
    ) && alike_generators(
        s.drop_first(),
        t.drop_first(),
        cx,
        cy,
        pattern_print(s[0].pattern, st).1,
        pattern_print(t[0].pattern, su).1,
    )
}

pub open spec fn alike_stmts(
    s: Seq<Stmt>,
    t: Seq<Stmt>,
    cx: Locals,
    cy: Locals,
    st: Scope,
    su: Scope,
) -> bool
    decreases s,
{
    &&& s.len() == t.len()
    &&& s.len() > 0 ==> alike_stmt(s[0], t[0], cx, cy, st, su) && alike_stmts(
        s.drop_first(),
        t.drop_first(),
        cx,
        cy,
        after_stmt(s[0], st),
        after_stmt(t[0], su),
    )
}

pub open spec fn alike_part(
    s: InterpolatedPart,
    t: InterpolatedPart,
    cx: Locals,
    cy: Locals,
    st: Scope,
    su: Scope,
) -> bool
    decreases s,
{
    match (s, t) {
        (InterpolatedPart::Literal(x), InterpolatedPart::Literal(y)) => x@ == y@,
        (InterpolatedPart::Expr(x), InterpolatedPart::Expr(y)) => alike(x, y, cx, cy, st, su),
        _ => false,
    }
}

pub open spec fn alike_arm(
    s: MatchArm,
    t: MatchArm,
    cx: Locals,
    cy: Locals,
    st: Scope,
    su: Scope,
) -> bool
    decreases s,
{
    let sv = pattern_print(s.pattern, st).1;
    let sw = pattern_print(t.pattern, su).1;
    &&& rebound_pattern(s.pattern, t.pattern)
    &&& match (s.guard, t.guard) {
        (Some(x), Some(y)) => alike(x, y, cx, cy, sv, sw),
        (None, None) => true,
        _ => false,
    }
    &&& alike(s.body, t.body, cx, cy, sv, sw)
}

/// The class of a `catch` arm; an arm without one catches any.
pub open spec fn caught(class: Option<String>) -> Seq<char> {
    match class {
        Some(c) => c@,
        None => "_"@,
    }
}

pub open spec fn alike_catch_arm(
    s: CatchArm,
    t: CatchArm,
    cx: Locals,
    cy: Locals,
    st: Scope,
    su: Scope,
) -> bool
    decreases s,
{
    &&& caught(s.class) == caught(t.class)
    &&& rebound_pattern(s.pattern, t.pattern)
    &&& alike(
        s.body,
        t.body,
        cx,
        cy,
        pattern_print(s.pattern, st).1,
        pattern_print(t.pattern, su).1,
    )
}

pub open spec fn alike_stmt(s: Stmt, t: Stmt, cx: Locals, cy: Locals, st: Scope, su: Scope) -> bool
    decreases s,
{
    match (s, t) {
        (Stmt::Let(p, x), Stmt::Let(q, y)) => rebound_pattern(p, q) && alike(x, y, cx, cy, st, su),
        (Stmt::Expr(x), Stmt::Expr(y)) => alike(x, y, cx, cy, st, su),
        _ => false,
    }
}

/// Whether the texts of an expression are words of a fingerprint. A text that
/// holds what ends a word may read as more than one.
pub open spec fn plain(e: Expr) -> bool
    decreases e,
{
    match e {
        Expr::Float(f) => is_word(f.text@),
        Expr::String(s) => is_word(s@),
        Expr::InterpolatedString(parts) => plain_parts(parts@),
        Expr::Atom(a) => is_word(a@),
        Expr::Var(name) => is_word(name@),
        Expr::Tuple(items) => plain_exprs(items@),
        Expr::List(items, tail) => plain_exprs(items@) && (match tail {
            Some(rest) => plain(*rest),
            None => true,
        }),
        Expr::ListComp { expr, generators, filters } => plain(*expr)
            && plain_generators(generators@)
            && plain_exprs(filters@),
        Expr::Range(a, b, _) => plain(*a) && plain(*b),
        Expr::MapLit(entries) => plain_pairs(entries@),
        Expr::Record(fields) => plain_fields(fields@),
        Expr::StructInit(name, fields) => is_word(name@) && plain_fields(fields@),
        Expr::BitString(items) => plain_segments(items@),
        Expr::Binary(left, _, right) => plain(*left) && plain(*right),
        Expr::Unary(_, inner) => plain(*inner),
        Expr::If(c, a, b) => plain(*c) && plain(*a) && (match b {
            Some(other) => plain(*other),
            None => true,
        }),
        Expr::Cond(arms) => plain_pairs(arms@),
        Expr::Match(scrutinee, arms) => plain(*scrutinee) && plain_arms(arms@),
        Expr::Block(stmts, last) => plain_stmts(stmts@) && (match last {
            Some(value) => plain(*value),
            None => true,
        }),
        Expr::Call(func, args) => plain(*func) && plain_exprs(args@),
        Expr::MethodCall(obj, method, args) => plain(*obj) && is_word(method@)
            && plain_exprs(args@),
        Expr::Lambda(_, body) => plain(*body),
        Expr::Field(obj, field) => plain(*obj) && is_word(field@),
        Expr::Index(a, b) => plain(*a) && plain(*b),
        Expr::Path(parts) => are_words(path_parts(parts)),
        Expr::Spawn(inner) => plain(*inner),
        Expr::Send(a, b) => plain(*a) && plain(*b),
        Expr::Receive { arms, timeout } => plain_arms(arms@) && (match timeout {
            Some((ms, body)) => plain(*ms) && plain(*body),
            None => true,
        }),
        Expr::Return(value) => match value {
            Some(inner) => plain(*inner),
            None => true,
        },
        Expr::Try { body, catch_arms } => plain(*body) && plain_catch_arms(catch_arms@),
        _ => true,
    }
}

pub open spec fn plain_exprs(s: Seq<Expr>) -> bool
    decreases s,
{
    s.len() > 0 ==> plain(s[0]) && plain_exprs(s.drop_first())
}

pub open spec fn plain_pairs(s: Seq<(Expr, Expr)>) -> bool
    decreases s,
{
    s.len() > 0 ==> plain(s[0].0) && plain(s[0].1) && plain_pairs(s.drop_first())
}

pub open spec fn plain_fields(s: Seq<(String, Expr)>) -> bool
    decreases s,
{
    s.len() > 0 ==> is_word(s[0].0@) && plain(s[0].1) && plain_fields(s.drop_first())
}

pub open spec fn plain_segments(s: Seq<BitStringSegment>) -> bool
    decreases s,
{
    s.len() > 0 ==> plain(s[0].value) && plain_segments(s.drop_first())
}

pub open spec fn plain_parts(s: Seq<InterpolatedPart>) -> bool
    decreases s,
{
    s.len() > 0 ==> plain_part(s[0]) && plain_parts(s.drop_first())
}

pub open spec fn plain_arms(s: Seq<MatchArm>) -> bool
    decreases s,
{
    s.len() > 0 ==> plain_arm(s[0]) && plain_arms(s.drop_first())
}

pub open spec fn plain_catch_arms(s: Seq<CatchArm>) -> bool
    decreases s,
{
    s.len() > 0 ==> plain_catch_arm(s[0]) && plain_catch_arms(s.drop_first())
}

pub open spec fn plain_generators(s: Seq<Generator>) -> bool
    decreases s,
{
    s.len() > 0 ==> plain_pattern(s[0].pattern) && plain(s[0].source)
        && plain_generators(s.drop_first())
}

pub open spec fn plain_stmts(s: Seq<Stmt>) -> bool
    decreases s,
{
    s.len() > 0 ==> plain_stmt(s[0]) && plain_stmts(s.drop_first())
}

pub open spec fn plain_part(s: InterpolatedPart) -> bool
    decreases s,
{
    match s {
        InterpolatedPart::Literal(x) => is_word(x@),
        InterpolatedPart::Expr(x) => plain(x),
    }
}

pub open spec fn plain_arm(s: MatchArm) -> bool
    decreases s,
{
    plain_pattern(s.pattern) && plain(s.body) && (match s.guard {
        Some(guard) => plain(guard),
        None => true,
    })
}

pub open spec fn plain_catch_arm(s: CatchArm) -> bool
    decreases s,
{
    plain_pattern(s.pattern) && plain(s.body) && is_word(caught(s.class))
}

pub open spec fn plain_stmt(s: Stmt) -> bool
    decreases s,
{
    match s {
        Stmt::Let(p, x) => plain_pattern(p) && plain(x),
        Stmt::Expr(x) => plain(x),
    }
}

/// The fingerprint of one part of an interpolated string.
spec fn part_print(
    s: InterpolatedPart,
    cx: Locals,
    st: Scope,
    c: Seq<Seq<char>>,
) -> (Seq<char>, Seq<Seq<char>>) {
    match s {
        InterpolatedPart::Literal(l) => ("lit:"@ + l@ + ";"@, c),
        InterpolatedPart::Expr(e) => {
            let (x, d) = expr_print(e, cx, st, c);
            ("expr:"@ + x + ";"@, d)
        },
    }
}

/// The fingerprint of one statement.
spec fn stmt_print(
    s: Stmt,
    cx: Locals,
    st: Scope,
    c: Seq<Seq<char>>,
) -> (Seq<char>, Seq<Seq<char>>) {
    match s {
        Stmt::Let(p, e) => {
            let (x, d) = expr_print(e, cx, st, c);
            ("let:"@ + pattern_print(p, st).0 + "="@ + x + ";"@, d)
        },
        Stmt::Expr(e) => {
            let (x, d) = expr_print(e, cx, st, c);
            ("expr:"@ + x + ";"@, d)
        },
    }
}

/// The last part stands behind those before it.
proof fn parts_back(s: Seq<InterpolatedPart>, cx: Locals, st: Scope, c: Seq<Seq<char>>)
    requires
        s.len() > 0,
    ensures
        ({
            let y = parts_print(s.drop_last(), cx, st, c);
            let z = part_print(s.last(), cx, st, y.1);
            parts_print(s, cx, st, c) == (y.0 + z.0, z.1)
        }),
{
    let y = parts_print(s.drop_last(), cx, st, c);
    match s.last() {
        InterpolatedPart::Literal(l) => {
            nest3(y.0, "lit:"@, l@, ";"@);
            nest2("lit:"@, l@, ";"@);
        },
        InterpolatedPart::Expr(e) => {
            let x = expr_print(e, cx, st, y.1).0;
            nest3(y.0, "expr:"@, x, ";"@);
            nest2("expr:"@, x, ";"@);
        },
    }
}

/// The last statement stands behind those before it.
proof fn stmts_back(s: Seq<Stmt>, cx: Locals, st: Scope, c: Seq<Seq<char>>)
    requires
        s.len() > 0,
    ensures
        ({
            let y = stmts_print(s.drop_last(), cx, st, c);
            let z = stmt_print(s.last(), cx, y.1, y.2);
            stmts_print(s, cx, st, c) == (y.0 + z.0, after_stmt(s.last(), y.1), z.1)
        }),
{
    let y = stmts_print(s.drop_last(), cx, st, c);
    match s.last() {
        Stmt::Let(p, e) => {
            let t = pattern_print(p, y.1).0;
            let x = expr_print(e, cx, y.1, y.2).0;
            nest5(y.0, "let:"@, t, "="@, x, ";"@);
            nest4("let:"@, t, "="@, x, ";"@);
        },
        Stmt::Expr(e) => {
            let x = expr_print(e, cx, y.1, y.2).0;
            nest3(y.0, "expr:"@, x, ";"@);
            nest2("expr:"@, x, ";"@);
        },
    }
}

proof fn exprs_front(s: Seq<Expr>, cx: Locals, st: Scope, c: Seq<Seq<char>>)
    requires
        s.len() > 0,
    ensures
        ({
            let x = expr_print(s[0], cx, st, c);
            let t = exprs_print(s.drop_first(), cx, st, x.1);
            exprs_print(s, cx, st, c) == ((x.0 + ","@) + t.0, t.1)
        }),
    decreases s.len(),
{
    let x = expr_print(s[0], cx, st, c);
    let item = x.0 + ","@;
    let d = s.drop_first();
    let m = s.drop_last();
    if s.len() == 1 {
        assert(m =~= Seq::empty());
        assert(d =~= Seq::empty());
        assert(exprs_print(m, cx, st, c) == (Seq::<char>::empty(), c));
        assert(exprs_print(d, cx, st, x.1) == (Seq::<char>::empty(), x.1));
        nothing_before(item);
        slide1(Seq::empty(), x.0, ","@);
        nothing_before(x.0);
        nothing_before(x.0 + ","@);
    } else {
        exprs_front(m, cx, st, c);
        assert(m.drop_first() =~= d.drop_last());
        let y = exprs_print(d.drop_last(), cx, st, x.1);
        let z = expr_print(s.last(), cx, st, y.1);
        slide2(item, y.0, z.0, ","@);
    }
}

proof fn filters_front(s: Seq<Expr>, cx: Locals, st: Scope, c: Seq<Seq<char>>)
    requires
        s.len() > 0,
    ensures
        ({
            let x = expr_print(s[0], cx, st, c);
            let t = filters_print(s.drop_first(), cx, st, x.1);
            filters_print(s, cx, st, c) == (("|filter:"@ + x.0) + t.0, t.1)
        }),
    decreases s.len(),
{
    let x = expr_print(s[0], cx, st, c);
    let item = "|filter:"@ + x.0;
    let d = s.drop_first();
    let m = s.drop_last();
    if s.len() == 1 {
        assert(m =~= Seq::empty());
        assert(d =~= Seq::empty());
        assert(filters_print(m, cx, st, c) == (Seq::<char>::empty(), c));
        assert(filters_print(d, cx, st, x.1) == (Seq::<char>::empty(), x.1));
        nothing_before(item);
        slide1(Seq::empty(), "|filter:"@, x.0);
        nothing_before("|filter:"@);
        nothing_before("|filter:"@ + x.0);
    } else {
        filters_front(m, cx, st, c);
        assert(m.drop_first() =~= d.drop_last());
        let y = filters_print(d.drop_last(), cx, st, x.1);
        let z = expr_print(s.last(), cx, st, y.1);
        slide2(item, y.0, "|filter:"@, z.0);
    }
}

proof fn pairs_front(s: Seq<(Expr, Expr)>, cx: Locals, st: Scope, c: Seq<Seq<char>>)
    requires
        s.len() > 0,
    ensures
        ({
            let w = expr_print(s[0].0, cx, st, c);
            let x = expr_print(s[0].1, cx, st, w.1);
            let t = pairs_print(s.drop_first(), cx, st, x.1);
            pairs_print(s, cx, st, c) == ((w.0 + "=>"@ + x.0 + ","@) + t.0, t.1)
        }),
    decreases s.len(),
{
    let w = expr_print(s[0].0, cx, st, c);
    let x = expr_print(s[0].1, cx, st, w.1);
    let item = w.0 + "=>"@ + x.0 + ","@;
    let d = s.drop_first();
    let m = s.drop_last();
    if s.len() == 1 {
        assert(m =~= Seq::empty());
        assert(d =~= Seq::empty());
        assert(pairs_print(m, cx, st, c) == (Seq::<char>::empty(), c));
        assert(pairs_print(d, cx, st, x.1) == (Seq::<char>::empty(), x.1));
        nothing_before(item);
        slide3(Seq::empty(), w.0, "=>"@, x.0, ","@);
        nothing_before(w.0);
        nothing_before(w.0 + "=>"@ + x.0 + ","@);
    } else {
        pairs_front(m, cx, st, c);
        assert(m.drop_first() =~= d.drop_last());
        let y = pairs_print(d.drop_last(), cx, st, x.1);
        let v = expr_print(s.last().0, cx, st, y.1);
        let z = expr_print(s.last().1, cx, st, v.1);
        slide4(item, y.0, v.0, "=>"@, z.0, ","@);
    }
}

proof fn fields_front(s: Seq<(String, Expr)>, cx: Locals, st: Scope, c: Seq<Seq<char>>)
    requires
        s.len() > 0,
    ensures
        ({
            let x = expr_print(s[0].1, cx, st, c);
            let t = fields_print(s.drop_first(), cx, st, x.1);
            fields_print(s, cx, st, c) == ((s[0].0@ + ":"@ + x.0 + ","@) + t.0, t.1)
        }),
    decreases s.len(),
{
    let x = expr_print(s[0].1, cx, st, c);
    let item = s[0].0@ + ":"@ + x.0 + ","@;
    let d = s.drop_first();
    let m = s.drop_last();
    if s.len() == 1 {
        assert(m =~= Seq::empty());
        assert(d =~= Seq::empty());
        assert(fields_print(m, cx, st, c) == (Seq::<char>::empty(), c));
        assert(fields_print(d, cx, st, x.1) == (Seq::<char>::empty(), x.1));
        nothing_before(item);
        slide3(Seq::empty(), s[0].0@, ":"@, x.0, ","@);
        nothing_before(s[0].0@);
        nothing_before(s[0].0@ + ":"@ + x.0 + ","@);
    } else {
        fields_front(m, cx, st, c);
        assert(m.drop_first() =~= d.drop_last());
        let y = fields_print(d.drop_last(), cx, st, x.1);
        let z = expr_print(s.last().1, cx, st, y.1);
        slide4(item, y.0, s.last().0@, ":"@, z.0, ","@);
    }
}

proof fn segments_front(s: Seq<BitStringSegment>, cx: Locals, st: Scope, c: Seq<Seq<char>>)
    requires
        s.len() > 0,
    ensures
        ({
            let x = expr_print(s[0].value, cx, st, c);
            let t = segments_print(s.drop_first(), cx, st, x.1);
            segments_print(s, cx, st, c) == (
                (x.0 + segment_suffix(s[0].size, s[0].specifier)) + t.0,
                t.1,
            )
        }),
    decreases s.len(),
{
    let x = expr_print(s[0].value, cx, st, c);
    let item = x.0 + segment_suffix(s[0].size, s[0].specifier);
    let d = s.drop_first();
    let m = s.drop_last();
    if s.len() == 1 {
        assert(m =~= Seq::empty());
        assert(d =~= Seq::empty());
        assert(segments_print(m, cx, st, c) == (Seq::<char>::empty(), c));
        assert(segments_print(d, cx, st, x.1) == (Seq::<char>::empty(), x.1));
        nothing_before(item);
        slide1(Seq::empty(), x.0, segment_suffix(s[0].size, s[0].specifier));
        nothing_before(x.0);
        nothing_before(x.0 + segment_suffix(s[0].size, s[0].specifier));
    } else {
        segments_front(m, cx, st, c);
        assert(m.drop_first() =~= d.drop_last());
        let y = segments_print(d.drop_last(), cx, st, x.1);
        let z = expr_print(s.last().value, cx, st, y.1);
        slide2(item, y.0, z.0, segment_suffix(s.last().size, s.last().specifier));
    }
}

proof fn parts_front(s: Seq<InterpolatedPart>, cx: Locals, st: Scope, c: Seq<Seq<char>>)
    requires
        s.len() > 0,
    ensures
        ({
            let x = part_print(s[0], cx, st, c);
            let t = parts_print(s.drop_first(), cx, st, x.1);
            parts_print(s, cx, st, c) == ((x.0) + t.0, t.1)
        }),
    decreases s.len(),
{
    let x = part_print(s[0], cx, st, c);
    let item = x.0;
    let d = s.drop_first();
    let m = s.drop_last();
    parts_back(s, cx, st, c);
    if s.len() == 1 {
        assert(m =~= Seq::empty());
        assert(d =~= Seq::empty());
        assert(parts_print(m, cx, st, c) == (Seq::<char>::empty(), c));
        assert(parts_print(d, cx, st, x.1) == (Seq::<char>::empty(), x.1));
        nothing_before(item);
        nothing_before(x.0);
    } else {
        parts_front(m, cx, st, c);
        assert(m.drop_first() =~= d.drop_last());
        parts_back(d, cx, st, x.1);
        let y = parts_print(d.drop_last(), cx, st, x.1);
        let z = part_print(s.last(), cx, st, y.1);
        slide1(item, y.0, z.0);
    }
}

proof fn arms_front(s: Seq<MatchArm>, cx: Locals, st: Scope, c: Seq<Seq<char>>)
    requires
        s.len() > 0,
    ensures
        ({
            let x = arm_print(s[0], cx, st, c);
            let t = arms_print(s.drop_first(), cx, st, x.1);
            arms_print(s, cx, st, c) == ((x.0) + t.0, t.1)
        }),
    decreases s.len(),
{
    let x = arm_print(s[0], cx, st, c);
    let item = x.0;
    let d = s.drop_first();
    let m = s.drop_last();
    if s.len() == 1 {
        assert(m =~= Seq::empty());
        assert(d =~= Seq::empty());
        assert(arms_print(m, cx, st, c) == (Seq::<char>::empty(), c));
        assert(arms_print(d, cx, st, x.1) == (Seq::<char>::empty(), x.1));
        nothing_before(item);
        nothing_before(x.0);
    } else {
        arms_front(m, cx, st, c);
        assert(m.drop_first() =~= d.drop_last());
        let y = arms_print(d.drop_last(), cx, st, x.1);
        let z = arm_print(s.last(), cx, st, y.1);
        slide1(item, y.0, z.0);
    }
}

proof fn catch_arms_front(s: Seq<CatchArm>, cx: Locals, st: Scope, c: Seq<Seq<char>>)
    requires
        s.len() > 0,
    ensures
        ({
            let x = catch_arm_print(s[0], cx, st, c);
            let t = catch_arms_print(s.drop_first(), cx, st, x.1);
            catch_arms_print(s, cx, st, c) == ((x.0) + t.0, t.1)
        }),
    decreases s.len(),
{
    let x = catch_arm_print(s[0], cx, st, c);
    let item = x.0;
    let d = s.drop_first();
    let m = s.drop_last();
    if s.len() == 1 {
        assert(m =~= Seq::empty());
        assert(d =~= Seq::empty());
        assert(catch_arms_print(m, cx, st, c) == (Seq::<char>::empty(), c));
        assert(catch_arms_print(d, cx, st, x.1) == (Seq::<char>::empty(), x.1));
        nothing_before(item);
        nothing_before(x.0);
    } else {
        catch_arms_front(m, cx, st, c);
        assert(m.drop_first() =~= d.drop_last());
        let y = catch_arms_print(d.drop_last(), cx, st, x.1);
        let z = catch_arm_print(s.last(), cx, st, y.1);
        slide1(item, y.0, z.0);
    }
}

proof fn generators_front(s: Seq<Generator>, cx: Locals, st: Scope, c: Seq<Seq<char>>)
    requires
        s.len() > 0,
    ensures
        ({
            let x = expr_print(s[0].source, cx, st, c);
            let p = pattern_print(s[0].pattern, st);
            let t = generators_print(s.drop_first(), cx, p.1, x.1);
            generators_print(s, cx, st, c) == (("|gen:"@ + x.0 + "|"@ + p.0) + t.0, t.1, t.2)
        }),
    decreases s.len(),
{
    let x = expr_print(s[0].source, cx, st, c);
    let p = pattern_print(s[0].pattern, st);
    let item = "|gen:"@ + x.0 + "|"@ + p.0;
    let d = s.drop_first();
    let m = s.drop_last();
    if s.len() == 1 {
        assert(m =~= Seq::empty());
        assert(d =~= Seq::empty());
        assert(generators_print(m, cx, st, c) == (Seq::<char>::empty(), st, c));
        assert(generators_print(d, cx, p.1, x.1) == (Seq::<char>::empty(), p.1, x.1));
        nothing_before(item);
        slide3(Seq::empty(), "|gen:"@, x.0, "|"@, p.0);
        nothing_before("|gen:"@);
    } else {
        generators_front(m, cx, st, c);
        assert(m.drop_first() =~= d.drop_last());
        let y = generators_print(d.drop_last(), cx, p.1, x.1);
        let z = expr_print(s.last().source, cx, y.1, y.2);
        let v = pattern_print(s.last().pattern, y.1);
        slide4(item, y.0, "|gen:"@, z.0, "|"@, v.0);
    }
}

proof fn stmts_front(s: Seq<Stmt>, cx: Locals, st: Scope, c: Seq<Seq<char>>)
    requires
        s.len() > 0,
    ensures
        ({
            let x = stmt_print(s[0], cx, st, c);
            let t = stmts_print(s.drop_first(), cx, after_stmt(s[0], st), x.1);
            stmts_print(s, cx, st, c) == (x.0 + t.0, t.1, t.2)
        }),
    decreases s.len(),
{
    let x = stmt_print(s[0], cx, st, c);
    let su = after_stmt(s[0], st);
    let d = s.drop_first();
    let m = s.drop_last();
    stmts_back(s, cx, st, c);
    if s.len() == 1 {
        assert(m =~= Seq::empty());
        assert(d =~= Seq::empty());
        assert(stmts_print(m, cx, st, c) == (Seq::<char>::empty(), st, c));
        assert(stmts_print(d, cx, su, x.1) == (Seq::<char>::empty(), su, x.1));
        nothing_before(x.0);
    } else {
        stmts_front(m, cx, st, c);
        assert(m.drop_first() =~= d.drop_last());
        stmts_back(d, cx, su, x.1);
        let y = stmts_print(d.drop_last(), cx, su, x.1);
        let z = stmt_print(s.last(), cx, y.1, y.2);
        slide1(x.0, y.0, z.0);
    }
}

/// The scope that statements leave.
proof fn stmts_leave(s: Seq<Stmt>, cx: Locals, st: Scope, c: Seq<Seq<char>>)
    ensures
        stmts_print(s, cx, st, c).1 == after_stmts(s, st),
    decreases s.len(),
{
    if s.len() > 0 {
        stmts_front(s, cx, st, c);
        stmts_leave(s.drop_first(), cx, after_stmt(s[0], st), stmt_print(s[0], cx, st, c).1);
    }
}

/// The scope that generators leave.
proof fn generators_leave(s: Seq<Generator>, cx: Locals, st: Scope, c: Seq<Seq<char>>)
    ensures
        generators_print(s, cx, st, c).1 == after_generators(s, st),
    decreases s.len(),
{
    if s.len() > 0 {
        generators_front(s, cx, st, c);
        generators_leave(
            s.drop_first(),
            cx,
            pattern_print(s[0].pattern, st).1,
            expr_print(s[0].source, cx, st, c).1,
        );
    }
}

/// Whether the fingerprints of two expressions, each before a rest, are the same text.
pub open spec fn meets(
    e: Expr,
    f: Expr,
    cx: Locals,
    cy: Locals,
    st: Scope,
    su: Scope,
    c: Seq<Seq<char>>,
    d: Seq<Seq<char>>,
    r: Seq<char>,
    q: Seq<char>,
) -> bool {
    &&& plain(e)
    &&& plain(f)
    &&& is_numbered(st)
    &&& is_numbered(su)
    &&& st.next == su.next
    &&& is_rest(r)
    &&& is_rest(q)
    &&& expr_print(e, cx, st, c).0 + r == expr_print(f, cy, su, d).0 + q
}

proof fn none_is_no_kind(x: Seq<char>)
    ensures
        which("none"@ + x) == -1,
{
    reveal_strlit("none");
}

/// What a call writes for the function that it calls.
spec fn callee(
    func: Expr,
    n: nat,
    cx: Locals,
    st: Scope,
    c: Seq<Seq<char>>,
) -> (Seq<char>, Seq<Seq<char>>) {
    match called(func, n, cx, st) {
        Some(key) => if key == cx.current {
            ("self/"@ + decimal(n), with_new(c, key))
        } else {
            ("dep/"@ + decimal(n), with_new(c, key))
        },
        None => expr_print(func, cx, st, c),
    }
}

/// A call of a local function is told from other calls, and a call of the
/// function at hand from a call of another.
proof fn callee_told(
    a: Expr,
    m: nat,
    b: Expr,
    n: nat,
    cx: Locals,
    cy: Locals,
    st: Scope,
    su: Scope,
    c: Seq<Seq<char>>,
    d: Seq<Seq<char>>,
    x: Seq<char>,
    y: Seq<char>,
)
    requires
        callee(a, m, cx, st, c).0 + (";"@ + x) == callee(b, n, cy, su, d).0 + (";"@ + y),
        called(a, m, cx, st) is Some || called(b, n, cy, su) is Some,
    ensures
        called(a, m, cx, st) matches Some(k) && called(b, n, cy, su) matches Some(l)
            && (k == cx.current) == (l
            == cy.current),
        ";"@ + x == ";"@ + y,
{
    reveal_strlit("self/");
    reveal_strlit("dep/");
    reveal_strlit("self");
    reveal_strlit(";");
    decimal_is_word(m);
    decimal_is_word(n);
    let p = ";"@ + x;
    let q = ";"@ + y;
    assert(p[0] == ';' && q[0] == ';');
    let t = callee(a, m, cx, st, c).0;
    let u = callee(b, n, cy, su, d).0;
    assert((t + p)[0] == (u + q)[0]);
    assert((t + p)[4] == (u + q)[4]);
    assert(which("dep/"@ + decimal(m) + p) == -1);
    assert(which("dep/"@ + decimal(n) + q) == -1);
    assert(which("self/"@ + decimal(m) + p) == 33);
    assert(which("self/"@ + decimal(n) + q) == 33);
    match (called(a, m, cx, st), called(b, n, cy, su)) {
        (Some(k), Some(l)) => {
            if k == cx.current {
                nest2("self/"@, decimal(m), p);
                nest2("self/"@, decimal(n), q);
                strip("self/"@, decimal(m) + p, decimal(n) + q);
            } else {
                nest2("dep/"@, decimal(m), p);
                nest2("dep/"@, decimal(n), q);
                strip("dep/"@, decimal(m) + p, decimal(n) + q);
            }
            cut(decimal(m), p, decimal(n), q);
        },
        (Some(k), None) => {
            kind_shown(b, cy, su, d, q);
            assert((u + q)[4] == ';');
            assert((t + p)[4] == '/');
        },
        (None, Some(l)) => {
            kind_shown(a, cx, st, c, p);
            assert((t + p)[4] == ';');
            assert((u + q)[4] == '/');
        },
        _ => {},
    }
}

/// Generators and filters begin with a bar.
proof fn filters_led(s: Seq<Expr>, cx: Locals, st: Scope, c: Seq<Seq<char>>, x: Seq<char>)
    requires
        x.len() > 0,
        x[0] == ')',
    ensures
        ({
            let t = filters_print(s, cx, st, c).0 + x;
            is_rest(t) && t.len() > 0 && (t[0] == ')' || t[0] == '|' && t[1] == 'f')
        }),
{
    nothing_before(x);
    if s.len() > 0 {
        reveal_strlit("|filter:");
        filters_front(s, cx, st, c);
        let t = filters_print(s, cx, st, c).0;
        assert(t[0] == '|' && t[1] == 'f');
        assert((t + x)[0] == '|' && (t + x)[1] == 'f');
    }
}

proof fn generators_led(
    g: Seq<Generator>,
    cx: Locals,
    st: Scope,
    c: Seq<Seq<char>>,
    x: Seq<char>,
)
    requires
        is_rest(x),
    ensures
        is_rest(generators_print(g, cx, st, c).0 + x),
{
    nothing_before(x);
    if g.len() > 0 {
        reveal_strlit("|gen:");
        generators_front(g, cx, st, c);
        let t = generators_print(g, cx, st, c).0;
        assert(t[0] == '|');
        assert((t + x)[0] == '|');
    }
}

#[verifier::spinoff_prover]
#[verifier::rlimit(60)]
proof fn tell_int(
    e: Expr,
    f: Expr,
    cx: Locals,
    cy: Locals,
    st: Scope,
    su: Scope,
    c: Seq<Seq<char>>,
    d: Seq<Seq<char>>,
    r: Seq<char>,
    q: Seq<char>,
)
    requires
        meets(e, f, cx, cy, st, su, c, d, r, q),
        e is Int,
        f is Int,
    ensures
        alike(e, f, cx, cy, st, su),
        r == q,
    decreases e, 0nat,
{
    match (e, f) {
        (Expr::Int(a1), Expr::Int(a2)) => {
            reveal_strlit("int:");
            let t1_1 = decimal_int(a1 as int);
            let t2_1 = decimal_int(a2 as int);
            let x1_1 = t1_1 + r;
            let x1_0 = "int:"@ + x1_1;
            let x2_1 = t2_1 + q;
            let x2_0 = "int:"@ + x2_1;
            nest2("int:"@, t1_1, r);
            nest2("int:"@, t2_1, q);
            assert(expr_print(e, cx, st, c).0 + r == x1_0);
            assert(expr_print(f, cy, su, d).0 + q == x2_0);
            assert(x1_0 == x2_0);
            strip("int:"@, x1_1, x2_1);
            decimal_int_is_word(a1 as int);
            decimal_int_is_word(a2 as int);
            cut(t1_1, r, t2_1, q);
            decimal_int_injective(a1 as int, a2 as int);
        },
        _ => {},
    }
}

#[verifier::spinoff_prover]
#[verifier::rlimit(60)]
proof fn tell_float(
    e: Expr,
    f: Expr,
    cx: Locals,
    cy: Locals,
    st: Scope,
    su: Scope,
    c: Seq<Seq<char>>,
    d: Seq<Seq<char>>,
    r: Seq<char>,
    q: Seq<char>,
)
    requires
        meets(e, f, cx, cy, st, su, c, d, r, q),
        e is Float,
        f is Float,
    ensures
        alike(e, f, cx, cy, st, su),
        r == q,
    decreases e, 0nat,
{
    match (e, f) {
        (Expr::Float(a1), Expr::Float(a2)) => {
            reveal_strlit("float:");
            let t1_1 = a1.text@;
            let t2_1 = a2.text@;
            let x1_1 = t1_1 + r;
            let x1_0 = "float:"@ + x1_1;
            let x2_1 = t2_1 + q;
            let x2_0 = "float:"@ + x2_1;
            nest2("float:"@, t1_1, r);
            nest2("float:"@, t2_1, q);
            assert(expr_print(e, cx, st, c).0 + r == x1_0);
            assert(expr_print(f, cy, su, d).0 + q == x2_0);
            assert(x1_0 == x2_0);
            strip("float:"@, x1_1, x2_1);
            cut(t1_1, r, t2_1, q);
        },
        _ => {},
    }
}

#[verifier::spinoff_prover]
#[verifier::rlimit(60)]
proof fn tell_string(
    e: Expr,
    f: Expr,
    cx: Locals,
    cy: Locals,
    st: Scope,
    su: Scope,
    c: Seq<Seq<char>>,
    d: Seq<Seq<char>>,
    r: Seq<char>,
    q: Seq<char>,
)
    requires
        meets(e, f, cx, cy, st, su, c, d, r, q),
        e is String,
        f is String,
    ensures
        alike(e, f, cx, cy, st, su),
        r == q,
    decreases e, 0nat,
{
    match (e, f) {
        (Expr::String(a1), Expr::String(a2)) => {
            reveal_strlit("string:");
            let t1_1 = a1@;
            let t2_1 = a2@;
            let x1_1 = t1_1 + r;
            let x1_0 = "string:"@ + x1_1;
            let x2_1 = t2_1 + q;
            let x2_0 = "string:"@ + x2_1;
            nest2("string:"@, t1_1, r);
            nest2("string:"@, t2_1, q);
            assert(expr_print(e, cx, st, c).0 + r == x1_0);
            assert(expr_print(f, cy, su, d).0 + q == x2_0);
            assert(x1_0 == x2_0);
            strip("string:"@, x1_1, x2_1);
            cut(t1_1, r, t2_1, q);
        },
        _ => {},
    }
}

#[verifier::spinoff_prover]
#[verifier::rlimit(60)]
proof fn tell_parts(
    e: Expr,
    f: Expr,
    cx: Locals,
    cy: Locals,
    st: Scope,
    su: Scope,
    c: Seq<Seq<char>>,
    d: Seq<Seq<char>>,
    r: Seq<char>,
    q: Seq<char>,
)
    requires
        meets(e, f, cx, cy, st, su, c, d, r, q),
        e is InterpolatedString,
        f is InterpolatedString,
    ensures
        alike(e, f, cx, cy, st, su),
        r == q,
    decreases e, 0nat,
{
    match (e, f) {
        (Expr::InterpolatedString(a1), Expr::InterpolatedString(a2)) => {
            reveal_strlit("]");
            reveal_strlit("istr[");
            let (t1_1, k1_1) = parts_print(a1@, cx, st, c);
            let (t2_1, k2_1) = parts_print(a2@, cy, su, d);
            let x1_2 = "]"@ + r;
            let x1_1 = t1_1 + x1_2;
            let x1_0 = "istr["@ + x1_1;
            let x2_2 = "]"@ + q;
            let x2_1 = t2_1 + x2_2;
            let x2_0 = "istr["@ + x2_1;
            nest3("istr["@, t1_1, "]"@, r);
            nest3("istr["@, t2_1, "]"@, q);
            assert(expr_print(e, cx, st, c).0 + r == x1_0);
            assert(expr_print(f, cy, su, d).0 + q == x2_0);
            assert(x1_0 == x2_0);
            strip("istr["@, x1_1, x2_1);
            assert(x1_2[0] == "]"@[0]);
            assert(x2_2[0] == "]"@[0]);
            parts_tell(a1@, a2@, cx, cy, st, su, c, d, x1_2, x2_2);
            strip("]"@, r, q);
        },
        _ => {},
    }
}

#[verifier::spinoff_prover]
#[verifier::rlimit(60)]
proof fn tell_bool(
    e: Expr,
    f: Expr,
    cx: Locals,
    cy: Locals,
    st: Scope,
    su: Scope,
    c: Seq<Seq<char>>,
    d: Seq<Seq<char>>,
    r: Seq<char>,
    q: Seq<char>,
)
    requires
        meets(e, f, cx, cy, st, su, c, d, r, q),
        e is Bool,
        f is Bool,
    ensures
        alike(e, f, cx, cy, st, su),
        r == q,
    decreases e, 0nat,
{
    match (e, f) {
        (Expr::Bool(a1), Expr::Bool(a2)) => {
            reveal_strlit("bool:");
            let t1_1 = bool_text(a1);
            let t2_1 = bool_text(a2);
            let x1_1 = t1_1 + r;
            let x1_0 = "bool:"@ + x1_1;
            let x2_1 = t2_1 + q;
            let x2_0 = "bool:"@ + x2_1;
            nest2("bool:"@, t1_1, r);
            nest2("bool:"@, t2_1, q);
            assert(expr_print(e, cx, st, c).0 + r == x1_0);
            assert(expr_print(f, cy, su, d).0 + q == x2_0);
            assert(x1_0 == x2_0);
            strip("bool:"@, x1_1, x2_1);
            bool_told(a1, a2);
            cut(t1_1, r, t2_1, q);
        },
        _ => {},
    }
}

#[verifier::spinoff_prover]
#[verifier::rlimit(60)]
proof fn tell_atom(
    e: Expr,
    f: Expr,
    cx: Locals,
    cy: Locals,
    st: Scope,
    su: Scope,
    c: Seq<Seq<char>>,
    d: Seq<Seq<char>>,
    r: Seq<char>,
    q: Seq<char>,
)
    requires
        meets(e, f, cx, cy, st, su, c, d, r, q),
        e is Atom,
        f is Atom,
    ensures
        alike(e, f, cx, cy, st, su),
        r == q,
    decreases e, 0nat,
{
    match (e, f) {
        (Expr::Atom(a1), Expr::Atom(a2)) => {
            reveal_strlit("atom:");
            let t1_1 = a1@;
            let t2_1 = a2@;
            let x1_1 = t1_1 + r;
            let x1_0 = "atom:"@ + x1_1;
            let x2_1 = t2_1 + q;
            let x2_0 = "atom:"@ + x2_1;
            nest2("atom:"@, t1_1, r);
            nest2("atom:"@, t2_1, q);
            assert(expr_print(e, cx, st, c).0 + r == x1_0);
            assert(expr_print(f, cy, su, d).0 + q == x2_0);
            assert(x1_0 == x2_0);
            strip("atom:"@, x1_1, x2_1);
            cut(t1_1, r, t2_1, q);
        },
        _ => {},
    }
}

#[verifier::spinoff_prover]
#[verifier::rlimit(60)]
proof fn tell_tuple(
    e: Expr,
    f: Expr,
    cx: Locals,
    cy: Locals,
    st: Scope,
    su: Scope,
    c: Seq<Seq<char>>,
    d: Seq<Seq<char>>,
    r: Seq<char>,
    q: Seq<char>,
)
    requires
        meets(e, f, cx, cy, st, su, c, d, r, q),
        e is Tuple,
        f is Tuple,
    ensures
        alike(e, f, cx, cy, st, su),
        r == q,
    decreases e, 0nat,
{
    match (e, f) {
        (Expr::Tuple(a1), Expr::Tuple(a2)) => {
            reveal_strlit(")");
            reveal_strlit("tuple(");
            let (t1_1, k1_1) = exprs_print(a1@, cx, st, c);
            let (t2_1, k2_1) = exprs_print(a2@, cy, su, d);
            let x1_2 = ")"@ + r;
            let x1_1 = t1_1 + x1_2;
            let x1_0 = "tuple("@ + x1_1;
            let x2_2 = ")"@ + q;
            let x2_1 = t2_1 + x2_2;
            let x2_0 = "tuple("@ + x2_1;
            nest3("tuple("@, t1_1, ")"@, r);
            nest3("tuple("@, t2_1, ")"@, q);
            assert(expr_print(e, cx, st, c).0 + r == x1_0);
            assert(expr_print(f, cy, su, d).0 + q == x2_0);
            assert(x1_0 == x2_0);
            strip("tuple("@, x1_1, x2_1);
            assert(x1_2[0] == ")"@[0]);
            assert(x2_2[0] == ")"@[0]);
            exprs_tell(a1@, a2@, cx, cy, st, su, c, d, x1_2, x2_2);
            strip(")"@, r, q);
        },
        _ => {},
    }
}

#[verifier::spinoff_prover]
#[verifier::rlimit(60)]
proof fn tell_range(
    e: Expr,
    f: Expr,
    cx: Locals,
    cy: Locals,
    st: Scope,
    su: Scope,
    c: Seq<Seq<char>>,
    d: Seq<Seq<char>>,
    r: Seq<char>,
    q: Seq<char>,
)
    requires
        meets(e, f, cx, cy, st, su, c, d, r, q),
        e is Range,
        f is Range,
    ensures
        alike(e, f, cx, cy, st, su),
        r == q,
    decreases e, 0nat,
{
    match (e, f) {
        (Expr::Range(a1, b1, i1), Expr::Range(a2, b2, i2)) => {
            reveal_strlit(":");
            reveal_strlit("range:");
            let t1_1 = bool_text(i1);
            let (t1_3, k1_3) = expr_print(*a1, cx, st, c);
            let (t1_5, k1_5) = expr_print(*b1, cx, st, k1_3);
            let t2_1 = bool_text(i2);
            let (t2_3, k2_3) = expr_print(*a2, cy, su, d);
            let (t2_5, k2_5) = expr_print(*b2, cy, su, k2_3);
            let x1_5 = t1_5 + r;
            let x1_4 = ":"@ + x1_5;
            let x1_3 = t1_3 + x1_4;
            let x1_2 = ":"@ + x1_3;
            let x1_1 = t1_1 + x1_2;
            let x1_0 = "range:"@ + x1_1;
            let x2_5 = t2_5 + q;
            let x2_4 = ":"@ + x2_5;
            let x2_3 = t2_3 + x2_4;
            let x2_2 = ":"@ + x2_3;
            let x2_1 = t2_1 + x2_2;
            let x2_0 = "range:"@ + x2_1;
            nest6("range:"@, t1_1, ":"@, t1_3, ":"@, t1_5, r);
            nest6("range:"@, t2_1, ":"@, t2_3, ":"@, t2_5, q);
            assert(expr_print(e, cx, st, c).0 + r == x1_0);
            assert(expr_print(f, cy, su, d).0 + q == x2_0);
            assert(x1_0 == x2_0);
            strip("range:"@, x1_1, x2_1);
            bool_told(i1, i2);
            assert(x1_2[0] == ":"@[0]);
            assert(x2_2[0] == ":"@[0]);
            cut(t1_1, x1_2, t2_1, x2_2);
            strip(":"@, x1_3, x2_3);
            kind_shown(*b1, cx, st, k1_3, r);
            rest_colon(x1_5);
            kind_shown(*b2, cy, su, k2_3, q);
            rest_colon(x2_5);
            tells(*a1, *a2, cx, cy, st, su, c, d, x1_4, x2_4);
            strip(":"@, x1_5, x2_5);
            tells(*b1, *b2, cx, cy, st, su, k1_3, k2_3, r, q);
        },
        _ => {},
    }
}

#[verifier::spinoff_prover]
#[verifier::rlimit(60)]
proof fn tell_map(
    e: Expr,
    f: Expr,
    cx: Locals,
    cy: Locals,
    st: Scope,
    su: Scope,
    c: Seq<Seq<char>>,
    d: Seq<Seq<char>>,
    r: Seq<char>,
    q: Seq<char>,
)
    requires
        meets(e, f, cx, cy, st, su, c, d, r, q),
        e is MapLit,
        f is MapLit,
    ensures
        alike(e, f, cx, cy, st, su),
        r == q,
    decreases e, 0nat,
{
    match (e, f) {
        (Expr::MapLit(a1), Expr::MapLit(a2)) => {
            reveal_strlit(")");
            reveal_strlit("map(");
            let (t1_1, k1_1) = pairs_print(a1@, cx, st, c);
            let (t2_1, k2_1) = pairs_print(a2@, cy, su, d);
            let x1_2 = ")"@ + r;
            let x1_1 = t1_1 + x1_2;
            let x1_0 = "map("@ + x1_1;
            let x2_2 = ")"@ + q;
            let x2_1 = t2_1 + x2_2;
            let x2_0 = "map("@ + x2_1;
            nest3("map("@, t1_1, ")"@, r);
            nest3("map("@, t2_1, ")"@, q);
            assert(expr_print(e, cx, st, c).0 + r == x1_0);
            assert(expr_print(f, cy, su, d).0 + q == x2_0);
            assert(x1_0 == x2_0);
            strip("map("@, x1_1, x2_1);
            assert(x1_2[0] == ")"@[0]);
            assert(x2_2[0] == ")"@[0]);
            pairs_tell(a1@, a2@, cx, cy, st, su, c, d, x1_2, x2_2);
            strip(")"@, r, q);
        },
        _ => {},
    }
}

#[verifier::spinoff_prover]
#[verifier::rlimit(60)]
proof fn tell_record(
    e: Expr,
    f: Expr,
    cx: Locals,
    cy: Locals,
    st: Scope,
    su: Scope,
    c: Seq<Seq<char>>,
    d: Seq<Seq<char>>,
    r: Seq<char>,
    q: Seq<char>,
)
    requires
        meets(e, f, cx, cy, st, su, c, d, r, q),
        e is Record,
        f is Record,
    ensures
        alike(e, f, cx, cy, st, su),
        r == q,
    decreases e, 0nat,
{
    match (e, f) {
        (Expr::Record(a1), Expr::Record(a2)) => {
            reveal_strlit(")");
            reveal_strlit("record(");
            let (t1_1, k1_1) = fields_print(a1@, cx, st, c);
            let (t2_1, k2_1) = fields_print(a2@, cy, su, d);
            let x1_2 = ")"@ + r;
            let x1_1 = t1_1 + x1_2;
            let x1_0 = "record("@ + x1_1;
            let x2_2 = ")"@ + q;
            let x2_1 = t2_1 + x2_2;
            let x2_0 = "record("@ + x2_1;
            nest3("record("@, t1_1, ")"@, r);
            nest3("record("@, t2_1, ")"@, q);
            assert(expr_print(e, cx, st, c).0 + r == x1_0);
            assert(expr_print(f, cy, su, d).0 + q == x2_0);
            assert(x1_0 == x2_0);
            strip("record("@, x1_1, x2_1);
            assert(x1_2[0] == ")"@[0]);
            assert(x2_2[0] == ")"@[0]);
            fields_tell(a1@, a2@, cx, cy, st, su, c, d, x1_2, x2_2);
            strip(")"@, r, q);
        },
        _ => {},
    }
}

#[verifier::spinoff_prover]
#[verifier::rlimit(60)]
proof fn tell_struct(
    e: Expr,
    f: Expr,
    cx: Locals,
    cy: Locals,
    st: Scope,
    su: Scope,
    c: Seq<Seq<char>>,
    d: Seq<Seq<char>>,
    r: Seq<char>,
    q: Seq<char>,
)
    requires
        meets(e, f, cx, cy, st, su, c, d, r, q),
        e is StructInit,
        f is StructInit,
    ensures
        alike(e, f, cx, cy, st, su),
        r == q,
    decreases e, 0nat,
{
    match (e, f) {
        (Expr::StructInit(a1, b1), Expr::StructInit(a2, b2)) => {
            reveal_strlit("(");
            reveal_strlit(")");
            reveal_strlit("struct:");
            let t1_1 = a1@;
            let (t1_3, k1_3) = fields_print(b1@, cx, st, c);
            let t2_1 = a2@;
            let (t2_3, k2_3) = fields_print(b2@, cy, su, d);
            let x1_4 = ")"@ + r;
            let x1_3 = t1_3 + x1_4;
            let x1_2 = "("@ + x1_3;
            let x1_1 = t1_1 + x1_2;
            let x1_0 = "struct:"@ + x1_1;
            let x2_4 = ")"@ + q;
            let x2_3 = t2_3 + x2_4;
            let x2_2 = "("@ + x2_3;
            let x2_1 = t2_1 + x2_2;
            let x2_0 = "struct:"@ + x2_1;
            nest5("struct:"@, t1_1, "("@, t1_3, ")"@, r);
            nest5("struct:"@, t2_1, "("@, t2_3, ")"@, q);
            assert(expr_print(e, cx, st, c).0 + r == x1_0);
            assert(expr_print(f, cy, su, d).0 + q == x2_0);
            assert(x1_0 == x2_0);
            strip("struct:"@, x1_1, x2_1);
            assert(x1_2[0] == "("@[0]);
            assert(x2_2[0] == "("@[0]);
            cut(t1_1, x1_2, t2_1, x2_2);
            strip("("@, x1_3, x2_3);
            assert(x1_4[0] == ")"@[0]);
            assert(x2_4[0] == ")"@[0]);
            fields_tell(b1@, b2@, cx, cy, st, su, c, d, x1_4, x2_4);
            strip(")"@, r, q);
        },
        _ => {},
    }
}

#[verifier::spinoff_prover]
#[verifier::rlimit(60)]
proof fn tell_bits(
    e: Expr,
    f: Expr,
    cx: Locals,
    cy: Locals,
    st: Scope,
    su: Scope,
    c: Seq<Seq<char>>,
    d: Seq<Seq<char>>,
    r: Seq<char>,
    q: Seq<char>,
)
    requires
        meets(e, f, cx, cy, st, su, c, d, r, q),
        e is BitString,
        f is BitString,
    ensures
        alike(e, f, cx, cy, st, su),
        r == q,
    decreases e, 0nat,
{
    match (e, f) {
        (Expr::BitString(a1), Expr::BitString(a2)) => {
            reveal_strlit(")");
            reveal_strlit("bits(");
            let (t1_1, k1_1) = segments_print(a1@, cx, st, c);
            let (t2_1, k2_1) = segments_print(a2@, cy, su, d);
            let x1_2 = ")"@ + r;
            let x1_1 = t1_1 + x1_2;
            let x1_0 = "bits("@ + x1_1;
            let x2_2 = ")"@ + q;
            let x2_1 = t2_1 + x2_2;
            let x2_0 = "bits("@ + x2_1;
            nest3("bits("@, t1_1, ")"@, r);
            nest3("bits("@, t2_1, ")"@, q);
            assert(expr_print(e, cx, st, c).0 + r == x1_0);
            assert(expr_print(f, cy, su, d).0 + q == x2_0);
            assert(x1_0 == x2_0);
            strip("bits("@, x1_1, x2_1);
            assert(x1_2[0] == ")"@[0]);
            assert(x2_2[0] == ")"@[0]);
            segments_tell(a1@, a2@, cx, cy, st, su, c, d, x1_2, x2_2);
            strip(")"@, r, q);
        },
        _ => {},
    }
}

#[verifier::spinoff_prover]
#[verifier::rlimit(60)]
proof fn tell_unary(
    e: Expr,
    f: Expr,
    cx: Locals,
    cy: Locals,
    st: Scope,
    su: Scope,
    c: Seq<Seq<char>>,
    d: Seq<Seq<char>>,
    r: Seq<char>,
    q: Seq<char>,
)
    requires
        meets(e, f, cx, cy, st, su, c, d, r, q),
        e is Unary,
        f is Unary,
    ensures
        alike(e, f, cx, cy, st, su),
        r == q,
    decreases e, 0nat,
{
    match (e, f) {
        (Expr::Unary(o1, a1), Expr::Unary(o2, a2)) => {
            reveal_strlit(":");
            reveal_strlit("un:");
            let t1_1 = unop_name(o1);
            let (t1_3, k1_3) = expr_print(*a1, cx, st, c);
            let t2_1 = unop_name(o2);
            let (t2_3, k2_3) = expr_print(*a2, cy, su, d);
            let x1_3 = t1_3 + r;
            let x1_2 = ":"@ + x1_3;
            let x1_1 = t1_1 + x1_2;
            let x1_0 = "un:"@ + x1_1;
            let x2_3 = t2_3 + q;
            let x2_2 = ":"@ + x2_3;
            let x2_1 = t2_1 + x2_2;
            let x2_0 = "un:"@ + x2_1;
            nest4("un:"@, t1_1, ":"@, t1_3, r);
            nest4("un:"@, t2_1, ":"@, t2_3, q);
            assert(expr_print(e, cx, st, c).0 + r == x1_0);
            assert(expr_print(f, cy, su, d).0 + q == x2_0);
            assert(x1_0 == x2_0);
            strip("un:"@, x1_1, x2_1);
            unary_told(o1, o2);
            assert(x1_2[0] == ":"@[0]);
            assert(x2_2[0] == ":"@[0]);
            cut(t1_1, x1_2, t2_1, x2_2);
            strip(":"@, x1_3, x2_3);
            tells(*a1, *a2, cx, cy, st, su, c, d, r, q);
        },
        _ => {},
    }
}

#[verifier::spinoff_prover]
#[verifier::rlimit(60)]
proof fn tell_cond(
    e: Expr,
    f: Expr,
    cx: Locals,
    cy: Locals,
    st: Scope,
    su: Scope,
    c: Seq<Seq<char>>,
    d: Seq<Seq<char>>,
    r: Seq<char>,
    q: Seq<char>,
)
    requires
        meets(e, f, cx, cy, st, su, c, d, r, q),
        e is Cond,
        f is Cond,
    ensures
        alike(e, f, cx, cy, st, su),
        r == q,
    decreases e, 0nat,
{
    match (e, f) {
        (Expr::Cond(a1), Expr::Cond(a2)) => {
            reveal_strlit(")");
            reveal_strlit("cond(");
            let (t1_1, k1_1) = pairs_print(a1@, cx, st, c);
            let (t2_1, k2_1) = pairs_print(a2@, cy, su, d);
            let x1_2 = ")"@ + r;
            let x1_1 = t1_1 + x1_2;
            let x1_0 = "cond("@ + x1_1;
            let x2_2 = ")"@ + q;
            let x2_1 = t2_1 + x2_2;
            let x2_0 = "cond("@ + x2_1;
            nest3("cond("@, t1_1, ")"@, r);
            nest3("cond("@, t2_1, ")"@, q);
            assert(expr_print(e, cx, st, c).0 + r == x1_0);
            assert(expr_print(f, cy, su, d).0 + q == x2_0);
            assert(x1_0 == x2_0);
            strip("cond("@, x1_1, x2_1);
            assert(x1_2[0] == ")"@[0]);
            assert(x2_2[0] == ")"@[0]);
            pairs_tell(a1@, a2@, cx, cy, st, su, c, d, x1_2, x2_2);
            strip(")"@, r, q);
        },
        _ => {},
    }
}

#[verifier::spinoff_prover]
#[verifier::rlimit(60)]
proof fn tell_match(
    e: Expr,
    f: Expr,
    cx: Locals,
    cy: Locals,
    st: Scope,
    su: Scope,
    c: Seq<Seq<char>>,
    d: Seq<Seq<char>>,
    r: Seq<char>,
    q: Seq<char>,
)
    requires
        meets(e, f, cx, cy, st, su, c, d, r, q),
        e is Match,
        f is Match,
    ensures
        alike(e, f, cx, cy, st, su),
        r == q,
    decreases e, 0nat,
{
    match (e, f) {
        (Expr::Match(a1, b1), Expr::Match(a2, b2)) => {
            reveal_strlit("(");
            reveal_strlit(")");
            reveal_strlit("match:");
            let (t1_1, k1_1) = expr_print(*a1, cx, st, c);
            let (t1_3, k1_3) = arms_print(b1@, cx, st, k1_1);
            let (t2_1, k2_1) = expr_print(*a2, cy, su, d);
            let (t2_3, k2_3) = arms_print(b2@, cy, su, k2_1);
            let x1_4 = ")"@ + r;
            let x1_3 = t1_3 + x1_4;
            let x1_2 = "("@ + x1_3;
            let x1_1 = t1_1 + x1_2;
            let x1_0 = "match:"@ + x1_1;
            let x2_4 = ")"@ + q;
            let x2_3 = t2_3 + x2_4;
            let x2_2 = "("@ + x2_3;
            let x2_1 = t2_1 + x2_2;
            let x2_0 = "match:"@ + x2_1;
            nest5("match:"@, t1_1, "("@, t1_3, ")"@, r);
            nest5("match:"@, t2_1, "("@, t2_3, ")"@, q);
            assert(expr_print(e, cx, st, c).0 + r == x1_0);
            assert(expr_print(f, cy, su, d).0 + q == x2_0);
            assert(x1_0 == x2_0);
            strip("match:"@, x1_1, x2_1);
            rest_led("("@, x1_3);
            rest_led("("@, x2_3);
            tells(*a1, *a2, cx, cy, st, su, c, d, x1_2, x2_2);
            strip("("@, x1_3, x2_3);
            assert(x1_4[0] == ")"@[0]);
            assert(x2_4[0] == ")"@[0]);
            arms_tell(b1@, b2@, cx, cy, st, su, k1_1, k2_1, x1_4, x2_4);
            strip(")"@, r, q);
        },
        _ => {},
    }
}

#[verifier::spinoff_prover]
#[verifier::rlimit(60)]
proof fn tell_method(
    e: Expr,
    f: Expr,
    cx: Locals,
    cy: Locals,
    st: Scope,
    su: Scope,
    c: Seq<Seq<char>>,
    d: Seq<Seq<char>>,
    r: Seq<char>,
    q: Seq<char>,
)
    requires
        meets(e, f, cx, cy, st, su, c, d, r, q),
        e is MethodCall,
        f is MethodCall,
    ensures
        alike(e, f, cx, cy, st, su),
        r == q,
    decreases e, 0nat,
{
    match (e, f) {
        (Expr::MethodCall(a1, m1, b1), Expr::MethodCall(a2, m2, b2)) => {
            reveal_strlit("(");
            reveal_strlit(")");
            reveal_strlit(";");
            reveal_strlit("mcall:");
            let t1_1 = m1@;
            let (t1_3, k1_3) = expr_print(*a1, cx, st, c);
            let (t1_5, k1_5) = exprs_print(b1@, cx, st, k1_3);
            let t2_1 = m2@;
            let (t2_3, k2_3) = expr_print(*a2, cy, su, d);
            let (t2_5, k2_5) = exprs_print(b2@, cy, su, k2_3);
            let x1_6 = ")"@ + r;
            let x1_5 = t1_5 + x1_6;
            let x1_4 = ";"@ + x1_5;
            let x1_3 = t1_3 + x1_4;
            let x1_2 = "("@ + x1_3;
            let x1_1 = t1_1 + x1_2;
            let x1_0 = "mcall:"@ + x1_1;
            let x2_6 = ")"@ + q;
            let x2_5 = t2_5 + x2_6;
            let x2_4 = ";"@ + x2_5;
            let x2_3 = t2_3 + x2_4;
            let x2_2 = "("@ + x2_3;
            let x2_1 = t2_1 + x2_2;
            let x2_0 = "mcall:"@ + x2_1;
            nest7("mcall:"@, t1_1, "("@, t1_3, ";"@, t1_5, ")"@, r);
            nest7("mcall:"@, t2_1, "("@, t2_3, ";"@, t2_5, ")"@, q);
            assert(expr_print(e, cx, st, c).0 + r == x1_0);
            assert(expr_print(f, cy, su, d).0 + q == x2_0);
            assert(x1_0 == x2_0);
            strip("mcall:"@, x1_1, x2_1);
            assert(x1_2[0] == "("@[0]);
            assert(x2_2[0] == "("@[0]);
            cut(t1_1, x1_2, t2_1, x2_2);
            strip("("@, x1_3, x2_3);
            rest_led(";"@, x1_5);
            rest_led(";"@, x2_5);
            tells(*a1, *a2, cx, cy, st, su, c, d, x1_4, x2_4);
            strip(";"@, x1_5, x2_5);
            assert(x1_6[0] == ")"@[0]);
            assert(x2_6[0] == ")"@[0]);
            exprs_tell(b1@, b2@, cx, cy, st, su, k1_3, k2_3, x1_6, x2_6);
            strip(")"@, r, q);
        },
        _ => {},
    }
}

#[verifier::spinoff_prover]
#[verifier::rlimit(60)]
proof fn tell_lambda(
    e: Expr,
    f: Expr,
    cx: Locals,
    cy: Locals,
    st: Scope,
    su: Scope,
    c: Seq<Seq<char>>,
    d: Seq<Seq<char>>,
    r: Seq<char>,
    q: Seq<char>,
)
    requires
        meets(e, f, cx, cy, st, su, c, d, r, q),
        e is Lambda,
        f is Lambda,
    ensures
        alike(e, f, cx, cy, st, su),
        r == q,
    decreases e, 0nat,
{
    match (e, f) {
        (Expr::Lambda(a1, b1), Expr::Lambda(a2, b2)) => {
            reveal_strlit(":");
            reveal_strlit("lambda:");
            let t1_1 = decimal(a1@.len());
            let (t1_3, k1_3) = expr_print(*b1, cx, bound_params(st, a1@), c);
            let t2_1 = decimal(a2@.len());
            let (t2_3, k2_3) = expr_print(*b2, cy, bound_params(su, a2@), d);
            let x1_3 = t1_3 + r;
            let x1_2 = ":"@ + x1_3;
            let x1_1 = t1_1 + x1_2;
            let x1_0 = "lambda:"@ + x1_1;
            let x2_3 = t2_3 + q;
            let x2_2 = ":"@ + x2_3;
            let x2_1 = t2_1 + x2_2;
            let x2_0 = "lambda:"@ + x2_1;
            nest4("lambda:"@, t1_1, ":"@, t1_3, r);
            nest4("lambda:"@, t2_1, ":"@, t2_3, q);
            assert(expr_print(e, cx, st, c).0 + r == x1_0);
            assert(expr_print(f, cy, su, d).0 + q == x2_0);
            assert(x1_0 == x2_0);
            strip("lambda:"@, x1_1, x2_1);
            decimal_is_word(a1@.len());
            decimal_is_word(a2@.len());
            assert(x1_2[0] == ":"@[0]);
            assert(x2_2[0] == ":"@[0]);
            cut(t1_1, x1_2, t2_1, x2_2);
            decimal_injective(a1@.len(), a2@.len());
            params_numbered(st, a1@);
            params_numbered(su, a2@);
            strip(":"@, x1_3, x2_3);
            tells(*b1, *b2, cx, cy, bound_params(st, a1@), bound_params(su, a2@), c, d, r, q);
        },
        _ => {},
    }
}

#[verifier::spinoff_prover]
#[verifier::rlimit(60)]
proof fn tell_field(
    e: Expr,
    f: Expr,
    cx: Locals,
    cy: Locals,
    st: Scope,
    su: Scope,
    c: Seq<Seq<char>>,
    d: Seq<Seq<char>>,
    r: Seq<char>,
    q: Seq<char>,
)
    requires
        meets(e, f, cx, cy, st, su, c, d, r, q),
        e is Field,
        f is Field,
    ensures
        alike(e, f, cx, cy, st, su),
        r == q,
    decreases e, 0nat,
{
    match (e, f) {
        (Expr::Field(a1, m1), Expr::Field(a2, m2)) => {
            reveal_strlit(":");
            reveal_strlit("field:");
            let t1_1 = m1@;
            let (t1_3, k1_3) = expr_print(*a1, cx, st, c);
            let t2_1 = m2@;
            let (t2_3, k2_3) = expr_print(*a2, cy, su, d);
            let x1_3 = t1_3 + r;
            let x1_2 = ":"@ + x1_3;
            let x1_1 = t1_1 + x1_2;
            let x1_0 = "field:"@ + x1_1;
            let x2_3 = t2_3 + q;
            let x2_2 = ":"@ + x2_3;
            let x2_1 = t2_1 + x2_2;
            let x2_0 = "field:"@ + x2_1;
            nest4("field:"@, t1_1, ":"@, t1_3, r);
            nest4("field:"@, t2_1, ":"@, t2_3, q);
            assert(expr_print(e, cx, st, c).0 + r == x1_0);
            assert(expr_print(f, cy, su, d).0 + q == x2_0);
            assert(x1_0 == x2_0);
            strip("field:"@, x1_1, x2_1);
            assert(x1_2[0] == ":"@[0]);
            assert(x2_2[0] == ":"@[0]);
            cut(t1_1, x1_2, t2_1, x2_2);
            strip(":"@, x1_3, x2_3);
            tells(*a1, *a2, cx, cy, st, su, c, d, r, q);
        },
        _ => {},
    }
}

#[verifier::spinoff_prover]
#[verifier::rlimit(60)]
proof fn tell_index(
    e: Expr,
    f: Expr,
    cx: Locals,
    cy: Locals,
    st: Scope,
    su: Scope,
    c: Seq<Seq<char>>,
    d: Seq<Seq<char>>,
    r: Seq<char>,
    q: Seq<char>,
)
    requires
        meets(e, f, cx, cy, st, su, c, d, r, q),
        e is Index,
        f is Index,
    ensures
        alike(e, f, cx, cy, st, su),
        r == q,
    decreases e, 0nat,
{
    match (e, f) {
        (Expr::Index(a1, b1), Expr::Index(a2, b2)) => {
            reveal_strlit(":");
            reveal_strlit("index:");
            let (t1_1, k1_1) = expr_print(*a1, cx, st, c);
            let (t1_3, k1_3) = expr_print(*b1, cx, st, k1_1);
            let (t2_1, k2_1) = expr_print(*a2, cy, su, d);
            let (t2_3, k2_3) = expr_print(*b2, cy, su, k2_1);
            let x1_3 = t1_3 + r;
            let x1_2 = ":"@ + x1_3;
            let x1_1 = t1_1 + x1_2;
            let x1_0 = "index:"@ + x1_1;
            let x2_3 = t2_3 + q;
            let x2_2 = ":"@ + x2_3;
            let x2_1 = t2_1 + x2_2;
            let x2_0 = "index:"@ + x2_1;
            nest4("index:"@, t1_1, ":"@, t1_3, r);
            nest4("index:"@, t2_1, ":"@, t2_3, q);
            assert(expr_print(e, cx, st, c).0 + r == x1_0);
            assert(expr_print(f, cy, su, d).0 + q == x2_0);
            assert(x1_0 == x2_0);
            strip("index:"@, x1_1, x2_1);
            kind_shown(*b1, cx, st, k1_1, r);
            rest_colon(x1_3);
            kind_shown(*b2, cy, su, k2_1, q);
            rest_colon(x2_3);
            tells(*a1, *a2, cx, cy, st, su, c, d, x1_2, x2_2);
            strip(":"@, x1_3, x2_3);
            tells(*b1, *b2, cx, cy, st, su, k1_1, k2_1, r, q);
        },
        _ => {},
    }
}

#[verifier::spinoff_prover]
#[verifier::rlimit(60)]
proof fn tell_path(
    e: Expr,
    f: Expr,
    cx: Locals,
    cy: Locals,
    st: Scope,
    su: Scope,
    c: Seq<Seq<char>>,
    d: Seq<Seq<char>>,
    r: Seq<char>,
    q: Seq<char>,
)
    requires
        meets(e, f, cx, cy, st, su, c, d, r, q),
        e is Path,
        f is Path,
    ensures
        alike(e, f, cx, cy, st, su),
        r == q,
    decreases e, 0nat,
{
    match (e, f) {
        (Expr::Path(a1), Expr::Path(a2)) => {
            reveal_strlit("path:");
            let t1_1 = joined(path_parts(a1), "::"@);
            let t2_1 = joined(path_parts(a2), "::"@);
            let x1_1 = t1_1 + r;
            let x1_0 = "path:"@ + x1_1;
            let x2_1 = t2_1 + q;
            let x2_0 = "path:"@ + x2_1;
            nest2("path:"@, t1_1, r);
            nest2("path:"@, t2_1, q);
            assert(expr_print(e, cx, st, c).0 + r == x1_0);
            assert(expr_print(f, cy, su, d).0 + q == x2_0);
            assert(x1_0 == x2_0);
            strip("path:"@, x1_1, x2_1);
            path_told(path_parts(a1), path_parts(a2), r, q);
        },
        _ => {},
    }
}

#[verifier::spinoff_prover]
#[verifier::rlimit(60)]
proof fn tell_spawn(
    e: Expr,
    f: Expr,
    cx: Locals,
    cy: Locals,
    st: Scope,
    su: Scope,
    c: Seq<Seq<char>>,
    d: Seq<Seq<char>>,
    r: Seq<char>,
    q: Seq<char>,
)
    requires
        meets(e, f, cx, cy, st, su, c, d, r, q),
        e is Spawn,
        f is Spawn,
    ensures
        alike(e, f, cx, cy, st, su),
        r == q,
    decreases e, 0nat,
{
    match (e, f) {
        (Expr::Spawn(a1), Expr::Spawn(a2)) => {
            reveal_strlit("spawn:");
            let (t1_1, k1_1) = expr_print(*a1, cx, st, c);
            let (t2_1, k2_1) = expr_print(*a2, cy, su, d);
            let x1_1 = t1_1 + r;
            let x1_0 = "spawn:"@ + x1_1;
            let x2_1 = t2_1 + q;
            let x2_0 = "spawn:"@ + x2_1;
            nest2("spawn:"@, t1_1, r);
            nest2("spawn:"@, t2_1, q);
            assert(expr_print(e, cx, st, c).0 + r == x1_0);
            assert(expr_print(f, cy, su, d).0 + q == x2_0);
            assert(x1_0 == x2_0);
            strip("spawn:"@, x1_1, x2_1);
            tells(*a1, *a2, cx, cy, st, su, c, d, r, q);
        },
        _ => {},
    }
}

#[verifier::spinoff_prover]
#[verifier::rlimit(60)]
proof fn tell_send(
    e: Expr,
    f: Expr,
    cx: Locals,
    cy: Locals,
    st: Scope,
    su: Scope,
    c: Seq<Seq<char>>,
    d: Seq<Seq<char>>,
    r: Seq<char>,
    q: Seq<char>,
)
    requires
        meets(e, f, cx, cy, st, su, c, d, r, q),
        e is Send,
        f is Send,
    ensures
        alike(e, f, cx, cy, st, su),
        r == q,
    decreases e, 0nat,
{
    match (e, f) {
        (Expr::Send(a1, b1), Expr::Send(a2, b2)) => {
            reveal_strlit(":");
            reveal_strlit("send:");
            let (t1_1, k1_1) = expr_print(*a1, cx, st, c);
            let (t1_3, k1_3) = expr_print(*b1, cx, st, k1_1);
            let (t2_1, k2_1) = expr_print(*a2, cy, su, d);
            let (t2_3, k2_3) = expr_print(*b2, cy, su, k2_1);
            let x1_3 = t1_3 + r;
            let x1_2 = ":"@ + x1_3;
            let x1_1 = t1_1 + x1_2;
            let x1_0 = "send:"@ + x1_1;
            let x2_3 = t2_3 + q;
            let x2_2 = ":"@ + x2_3;
            let x2_1 = t2_1 + x2_2;
            let x2_0 = "send:"@ + x2_1;
            nest4("send:"@, t1_1, ":"@, t1_3, r);
            nest4("send:"@, t2_1, ":"@, t2_3, q);
            assert(expr_print(e, cx, st, c).0 + r == x1_0);
            assert(expr_print(f, cy, su, d).0 + q == x2_0);
            assert(x1_0 == x2_0);
            strip("send:"@, x1_1, x2_1);
            kind_shown(*b1, cx, st, k1_1, r);
            rest_colon(x1_3);
            kind_shown(*b2, cy, su, k2_1, q);
            rest_colon(x2_3);
            tells(*a1, *a2, cx, cy, st, su, c, d, x1_2, x2_2);
            strip(":"@, x1_3, x2_3);
            tells(*b1, *b2, cx, cy, st, su, k1_1, k2_1, r, q);
        },
        _ => {},
    }
}

#[verifier::spinoff_prover]
#[verifier::rlimit(60)]
proof fn tell_try(
    e: Expr,
    f: Expr,
    cx: Locals,
    cy: Locals,
    st: Scope,
    su: Scope,
    c: Seq<Seq<char>>,
    d: Seq<Seq<char>>,
    r: Seq<char>,
    q: Seq<char>,
)
    requires
        meets(e, f, cx, cy, st, su, c, d, r, q),
        e is Try,
        f is Try,
    ensures
        alike(e, f, cx, cy, st, su),
        r == q,
    decreases e, 0nat,
{
    match (e, f) {
        (Expr::Try { body: a1, catch_arms: b1 }, Expr::Try { body: a2, catch_arms: b2 }) => {
            reveal_strlit("(");
            reveal_strlit(")");
            reveal_strlit("try:");
            let (t1_1, k1_1) = expr_print(*a1, cx, st, c);
            let (t1_3, k1_3) = catch_arms_print(b1@, cx, st, k1_1);
            let (t2_1, k2_1) = expr_print(*a2, cy, su, d);
            let (t2_3, k2_3) = catch_arms_print(b2@, cy, su, k2_1);
            let x1_4 = ")"@ + r;
            let x1_3 = t1_3 + x1_4;
            let x1_2 = "("@ + x1_3;
            let x1_1 = t1_1 + x1_2;
            let x1_0 = "try:"@ + x1_1;
            let x2_4 = ")"@ + q;
            let x2_3 = t2_3 + x2_4;
            let x2_2 = "("@ + x2_3;
            let x2_1 = t2_1 + x2_2;
            let x2_0 = "try:"@ + x2_1;
            nest5("try:"@, t1_1, "("@, t1_3, ")"@, r);
            nest5("try:"@, t2_1, "("@, t2_3, ")"@, q);
            assert(expr_print(e, cx, st, c).0 + r == x1_0);
            assert(expr_print(f, cy, su, d).0 + q == x2_0);
            assert(x1_0 == x2_0);
            strip("try:"@, x1_1, x2_1);
            rest_led("("@, x1_3);
            rest_led("("@, x2_3);
            tells(*a1, *a2, cx, cy, st, su, c, d, x1_2, x2_2);
            strip("("@, x1_3, x2_3);
            assert(x1_4[0] == ")"@[0]);
            assert(x2_4[0] == ")"@[0]);
            catch_arms_tell(b1@, b2@, cx, cy, st, su, k1_1, k2_1, x1_4, x2_4);
            strip(")"@, r, q);
        },
        _ => {},
    }
}

#[verifier::spinoff_prover]
#[verifier::rlimit(60)]
proof fn tell_char(
    e: Expr,
    f: Expr,
    cx: Locals,
    cy: Locals,
    st: Scope,
    su: Scope,
    c: Seq<Seq<char>>,
    d: Seq<Seq<char>>,
    r: Seq<char>,
    q: Seq<char>,
)
    requires
        meets(e, f, cx, cy, st, su, c, d, r, q),
        e is Char,
        f is Char,
    ensures
        alike(e, f, cx, cy, st, su),
        r == q,
    decreases e, 0nat,
{
    match (e, f) {
        (Expr::Char(a1), Expr::Char(a2)) => {
            let x = "char:"@.push(a1);
            let y = "char:"@.push(a2);
            strip_two(x, r, y, q);
            assert(x.last() == a1 && y.last() == a2);
        },
        _ => {},
    }
}

#[verifier::spinoff_prover]
#[verifier::rlimit(60)]
proof fn tell_unit(
    e: Expr,
    f: Expr,
    cx: Locals,
    cy: Locals,
    st: Scope,
    su: Scope,
    c: Seq<Seq<char>>,
    d: Seq<Seq<char>>,
    r: Seq<char>,
    q: Seq<char>,
)
    requires
        meets(e, f, cx, cy, st, su, c, d, r, q),
        e is Unit,
        f is Unit,
    ensures
        alike(e, f, cx, cy, st, su),
        r == q,
    decreases e, 0nat,
{
    match (e, f) {
        (Expr::Unit, Expr::Unit) => {
            strip("unit"@, r, q);
        },
        _ => {},
    }
}

#[verifier::spinoff_prover]
#[verifier::rlimit(60)]
proof fn tell_self(
    e: Expr,
    f: Expr,
    cx: Locals,
    cy: Locals,
    st: Scope,
    su: Scope,
    c: Seq<Seq<char>>,
    d: Seq<Seq<char>>,
    r: Seq<char>,
    q: Seq<char>,
)
    requires
        meets(e, f, cx, cy, st, su, c, d, r, q),
        e is SelfPid,
        f is SelfPid,
    ensures
        alike(e, f, cx, cy, st, su),
        r == q,
    decreases e, 0nat,
{
    match (e, f) {
        (Expr::SelfPid, Expr::SelfPid) => {
            strip("self"@, r, q);
        },
        _ => {},
    }
}

#[verifier::spinoff_prover]
#[verifier::rlimit(60)]
proof fn tell_var(
    e: Expr,
    f: Expr,
    cx: Locals,
    cy: Locals,
    st: Scope,
    su: Scope,
    c: Seq<Seq<char>>,
    d: Seq<Seq<char>>,
    r: Seq<char>,
    q: Seq<char>,
)
    requires
        meets(e, f, cx, cy, st, su, c, d, r, q),
        e is Var,
        f is Var,
    ensures
        alike(e, f, cx, cy, st, su),
        r == q,
    decreases e, 0nat,
{
    match (e, f) {
        (Expr::Var(a1), Expr::Var(a2)) => {
            kind_shown(e, cx, st, c, r);
            kind_shown(f, cy, su, d, q);
            found_is_word(st.names, a1@);
            found_is_word(su.names, a2@);
            match (found(st.names, a1@), found(su.names, a2@)) {
                (Some(m), Some(n)) => {
                    nest2("var:"@, m, r);
                    nest2("var:"@, n, q);
                    strip("var:"@, m + r, n + q);
                    cut(m, r, n, q);
                },
                (None, None) => {
                    nest2("global:"@, a1@, r);
                    nest2("global:"@, a2@, q);
                    strip("global:"@, a1@ + r, a2@ + q);
                    cut(a1@, r, a2@, q);
                },
                _ => {},
            }
        },
        _ => {},
    }
}

#[verifier::spinoff_prover]
#[verifier::rlimit(60)]
proof fn tell_list(
    e: Expr,
    f: Expr,
    cx: Locals,
    cy: Locals,
    st: Scope,
    su: Scope,
    c: Seq<Seq<char>>,
    d: Seq<Seq<char>>,
    r: Seq<char>,
    q: Seq<char>,
)
    requires
        meets(e, f, cx, cy, st, su, c, d, r, q),
        e is List,
        f is List,
    ensures
        alike(e, f, cx, cy, st, su),
        r == q,
    decreases e, 0nat,
{
    match (e, f) {
        (Expr::List(a1, z1), Expr::List(a2, z2)) => {
            reveal_strlit("list(");
            reveal_strlit("|");
            reveal_strlit(")");
            let (t1, c1) = exprs_print(a1@, cx, st, c);
            let (t2, c2) = exprs_print(a2@, cy, su, d);
            let x = match z1 {
                Some(e1) => "|"@ + (expr_print(*e1, cx, st, c1).0 + (")"@ + r)),
                None => ")"@ + r,
            };
            let y = match z2 {
                Some(e2) => "|"@ + (expr_print(*e2, cy, su, c2).0 + (")"@ + q)),
                None => ")"@ + q,
            };
            match z1 {
                Some(e1) => {
                    nest5("list("@, t1, "|"@, expr_print(*e1, cx, st, c1).0, ")"@, r);
                },
                None => {
                    nest3("list("@, t1, ")"@, r);
                },
            }
            match z2 {
                Some(e2) => {
                    nest5("list("@, t2, "|"@, expr_print(*e2, cy, su, c2).0, ")"@, q);
                },
                None => {
                    nest3("list("@, t2, ")"@, q);
                },
            }
            assert("list("@ + (t1 + x) == "list("@ + (t2 + y));
            strip("list("@, t1 + x, t2 + y);
            assert(closes(x) && closes(y));
            exprs_tell(a1@, a2@, cx, cy, st, su, c, d, x, y);
            assert(x[0] == y[0]);
            match (z1, z2) {
                (Some(e1), Some(e2)) => {
                    let u = expr_print(*e1, cx, st, c1).0;
                    let v = expr_print(*e2, cy, su, c2).0;
                    strip("|"@, u + (")"@ + r), v + (")"@ + q));
                    rest_led(")"@, r);
                    rest_led(")"@, q);
                    tells(*e1, *e2, cx, cy, st, su, c1, c2, ")"@ + r, ")"@ + q);
                    strip(")"@, r, q);
                },
                (None, None) => {
                    strip(")"@, r, q);
                },
                _ => {},
            }
        },
        _ => {},
    }
}

#[verifier::spinoff_prover]
#[verifier::rlimit(60)]
proof fn tell_comp(
    e: Expr,
    f: Expr,
    cx: Locals,
    cy: Locals,
    st: Scope,
    su: Scope,
    c: Seq<Seq<char>>,
    d: Seq<Seq<char>>,
    r: Seq<char>,
    q: Seq<char>,
)
    requires
        meets(e, f, cx, cy, st, su, c, d, r, q),
        e is ListComp,
        f is ListComp,
    ensures
        alike(e, f, cx, cy, st, su),
        r == q,
    decreases e, 0nat,
{
    match (e, f) {
        (
            Expr::ListComp { expr: x1, generators: g1, filters: w1 },
            Expr::ListComp { expr: x2, generators: g2, filters: w2 },
        ) => {
            reveal_strlit(")");
            reveal_strlit("listcomp(");
            let (t1_1, k1_1) = expr_print(*x1, cx, st, c);
            let (t1_2, sc1_2, k1_2) = generators_print(g1@, cx, st, k1_1);
            let (t1_3, k1_3) = filters_print(w1@, cx, sc1_2, k1_2);
            let (t2_1, k2_1) = expr_print(*x2, cy, su, d);
            let (t2_2, sc2_2, k2_2) = generators_print(g2@, cy, su, k2_1);
            let (t2_3, k2_3) = filters_print(w2@, cy, sc2_2, k2_2);
            let x1_4 = ")"@ + r;
            let x1_3 = t1_3 + x1_4;
            let x1_2 = t1_2 + x1_3;
            let x1_1 = t1_1 + x1_2;
            let x1_0 = "listcomp("@ + x1_1;
            let x2_4 = ")"@ + q;
            let x2_3 = t2_3 + x2_4;
            let x2_2 = t2_2 + x2_3;
            let x2_1 = t2_1 + x2_2;
            let x2_0 = "listcomp("@ + x2_1;
            nest5("listcomp("@, t1_1, t1_2, t1_3, ")"@, r);
            nest5("listcomp("@, t2_1, t2_2, t2_3, ")"@, q);
            assert(expr_print(e, cx, st, c).0 + r == x1_0);
            assert(expr_print(f, cy, su, d).0 + q == x2_0);
            assert(x1_0 == x2_0);
            strip("listcomp("@, x1_1, x2_1);
            reveal_strlit(")");
            assert(x1_4[0] == ")"@[0]);
            filters_led(w1@, cx, sc1_2, k1_2, x1_4);
            generators_led(g1@, cx, st, k1_1, x1_3);
            reveal_strlit(")");
            assert(x2_4[0] == ")"@[0]);
            filters_led(w2@, cy, sc2_2, k2_2, x2_4);
            generators_led(g2@, cy, su, k2_1, x2_3);
            tells(*x1, *x2, cx, cy, st, su, c, d, x1_2, x2_2);
            generators_tell(g1@, g2@, cx, cy, st, su, k1_1, k2_1, x1_3, x2_3);
            generators_leave(g1@, cx, st, k1_1);
            generators_leave(g2@, cy, su, k2_1);
            assert(x1_4[0] == ")"@[0]);
            assert(x2_4[0] == ")"@[0]);
            filters_tell(w1@, w2@, cx, cy, sc1_2, sc2_2, k1_2, k2_2, x1_4, x2_4);
            strip(")"@, r, q);
        },
        _ => {},
    }
}

#[verifier::spinoff_prover]
#[verifier::rlimit(60)]
proof fn tell_binary(
    e: Expr,
    f: Expr,
    cx: Locals,
    cy: Locals,
    st: Scope,
    su: Scope,
    c: Seq<Seq<char>>,
    d: Seq<Seq<char>>,
    r: Seq<char>,
    q: Seq<char>,
)
    requires
        meets(e, f, cx, cy, st, su, c, d, r, q),
        e is Binary,
        f is Binary,
        kind(e, cx, st) == 18,
        kind(f, cy, su) == 18,
    ensures
        alike(e, f, cx, cy, st, su),
        r == q,
    decreases e, 0nat,
{
    match (e, f) {
        (Expr::Binary(a1, o1, b1), Expr::Binary(a2, o2, b2)) => {
            reveal_strlit(":");
            reveal_strlit("bin:");
            let t1_1 = binop_name(o1);
            let (t1_3, k1_3) = expr_print(*a1, cx, st, c);
            let (t1_5, k1_5) = expr_print(*b1, cx, st, k1_3);
            let t2_1 = binop_name(o2);
            let (t2_3, k2_3) = expr_print(*a2, cy, su, d);
            let (t2_5, k2_5) = expr_print(*b2, cy, su, k2_3);
            let x1_5 = t1_5 + r;
            let x1_4 = ":"@ + x1_5;
            let x1_3 = t1_3 + x1_4;
            let x1_2 = ":"@ + x1_3;
            let x1_1 = t1_1 + x1_2;
            let x1_0 = "bin:"@ + x1_1;
            let x2_5 = t2_5 + q;
            let x2_4 = ":"@ + x2_5;
            let x2_3 = t2_3 + x2_4;
            let x2_2 = ":"@ + x2_3;
            let x2_1 = t2_1 + x2_2;
            let x2_0 = "bin:"@ + x2_1;
            nest6("bin:"@, t1_1, ":"@, t1_3, ":"@, t1_5, r);
            nest6("bin:"@, t2_1, ":"@, t2_3, ":"@, t2_5, q);
            assert(expr_print(e, cx, st, c).0 + r == x1_0);
            assert(expr_print(f, cy, su, d).0 + q == x2_0);
            assert(x1_0 == x2_0);
            strip("bin:"@, x1_1, x2_1);
            op_told(o1, o2);
            assert(x1_2[0] == ":"@[0]);
            assert(x2_2[0] == ":"@[0]);
            cut(t1_1, x1_2, t2_1, x2_2);
            strip(":"@, x1_3, x2_3);
            kind_shown(*b1, cx, st, k1_3, r);
            rest_colon(x1_5);
            kind_shown(*b2, cy, su, k2_3, q);
            rest_colon(x2_5);
            tells(*a1, *a2, cx, cy, st, su, c, d, x1_4, x2_4);
            strip(":"@, x1_5, x2_5);
            tells(*b1, *b2, cx, cy, st, su, k1_3, k2_3, r, q);
        },
        _ => {},
    }
}

#[verifier::spinoff_prover]
#[verifier::rlimit(60)]
proof fn tell_pipe_self(
    e: Expr,
    f: Expr,
    cx: Locals,
    cy: Locals,
    st: Scope,
    su: Scope,
    c: Seq<Seq<char>>,
    d: Seq<Seq<char>>,
    r: Seq<char>,
    q: Seq<char>,
)
    requires
        meets(e, f, cx, cy, st, su, c, d, r, q),
        e is Binary,
        f is Binary,
        kind(e, cx, st) == 36,
        kind(f, cy, su) == 36,
    ensures
        alike(e, f, cx, cy, st, su),
        r == q,
    decreases e, 0nat,
{
    match (e, f) {
        (Expr::Binary(a1, o1, b1), Expr::Binary(a2, o2, b2)) => {
            reveal_strlit("pipe_self:1:");
            let (t1_1, k1_1) = expr_print(*a1, cx, st, c);
            let (t2_1, k2_1) = expr_print(*a2, cy, su, d);
            let x1_1 = t1_1 + r;
            let x1_0 = "pipe_self:1:"@ + x1_1;
            let x2_1 = t2_1 + q;
            let x2_0 = "pipe_self:1:"@ + x2_1;
            nest2("pipe_self:1:"@, t1_1, r);
            nest2("pipe_self:1:"@, t2_1, q);
            assert(expr_print(e, cx, st, c).0 + r == x1_0);
            assert(expr_print(f, cy, su, d).0 + q == x2_0);
            assert(x1_0 == x2_0);
            strip("pipe_self:1:"@, x1_1, x2_1);
            tells(*a1, *a2, cx, cy, st, su, c, d, r, q);
        },
        _ => {},
    }
}

#[verifier::spinoff_prover]
#[verifier::rlimit(60)]
proof fn tell_pipe_dep(
    e: Expr,
    f: Expr,
    cx: Locals,
    cy: Locals,
    st: Scope,
    su: Scope,
    c: Seq<Seq<char>>,
    d: Seq<Seq<char>>,
    r: Seq<char>,
    q: Seq<char>,
)
    requires
        meets(e, f, cx, cy, st, su, c, d, r, q),
        e is Binary,
        f is Binary,
        kind(e, cx, st) == 37,
        kind(f, cy, su) == 37,
    ensures
        alike(e, f, cx, cy, st, su),
        r == q,
    decreases e, 0nat,
{
    match (e, f) {
        (Expr::Binary(a1, o1, b1), Expr::Binary(a2, o2, b2)) => {
            reveal_strlit("pipe_dep:1:");
            let (t1_1, k1_1) = expr_print(*a1, cx, st, c);
            let (t2_1, k2_1) = expr_print(*a2, cy, su, d);
            let x1_1 = t1_1 + r;
            let x1_0 = "pipe_dep:1:"@ + x1_1;
            let x2_1 = t2_1 + q;
            let x2_0 = "pipe_dep:1:"@ + x2_1;
            nest2("pipe_dep:1:"@, t1_1, r);
            nest2("pipe_dep:1:"@, t2_1, q);
            assert(expr_print(e, cx, st, c).0 + r == x1_0);
            assert(expr_print(f, cy, su, d).0 + q == x2_0);
            assert(x1_0 == x2_0);
            strip("pipe_dep:1:"@, x1_1, x2_1);
            tells(*a1, *a2, cx, cy, st, su, c, d, r, q);
        },
        _ => {},
    }
}

#[verifier::spinoff_prover]
#[verifier::rlimit(60)]
proof fn tell_if(
    e: Expr,
    f: Expr,
    cx: Locals,
    cy: Locals,
    st: Scope,
    su: Scope,
    c: Seq<Seq<char>>,
    d: Seq<Seq<char>>,
    r: Seq<char>,
    q: Seq<char>,
)
    requires
        meets(e, f, cx, cy, st, su, c, d, r, q),
        e is If,
        f is If,
    ensures
        alike(e, f, cx, cy, st, su),
        r == q,
    decreases e, 0nat,
{
    match (e, f) {
        (Expr::If(a1, b1, z1), Expr::If(a2, b2, z2)) => {
            reveal_strlit(":");
            reveal_strlit("if:");
            let (t1_1, k1_1) = expr_print(*a1, cx, st, c);
            let (t1_3, k1_3) = expr_print(*b1, cx, st, k1_1);
            let z1t = match z1 {
                Some(o1) => expr_print(*o1, cx, st, k1_3).0,
                None => "none"@,
            };
            let t1_5 = z1t;
            let (t2_1, k2_1) = expr_print(*a2, cy, su, d);
            let (t2_3, k2_3) = expr_print(*b2, cy, su, k2_1);
            let z2t = match z2 {
                Some(o2) => expr_print(*o2, cy, su, k2_3).0,
                None => "none"@,
            };
            let t2_5 = z2t;
            let x1_5 = t1_5 + r;
            let x1_4 = ":"@ + x1_5;
            let x1_3 = t1_3 + x1_4;
            let x1_2 = ":"@ + x1_3;
            let x1_1 = t1_1 + x1_2;
            let x1_0 = "if:"@ + x1_1;
            let x2_5 = t2_5 + q;
            let x2_4 = ":"@ + x2_5;
            let x2_3 = t2_3 + x2_4;
            let x2_2 = ":"@ + x2_3;
            let x2_1 = t2_1 + x2_2;
            let x2_0 = "if:"@ + x2_1;
            nest6("if:"@, t1_1, ":"@, t1_3, ":"@, t1_5, r);
            nest6("if:"@, t2_1, ":"@, t2_3, ":"@, t2_5, q);
            assert(expr_print(e, cx, st, c).0 + r == x1_0);
            assert(expr_print(f, cy, su, d).0 + q == x2_0);
            assert(x1_0 == x2_0);
            strip("if:"@, x1_1, x2_1);
            kind_shown(*b1, cx, st, k1_1, x1_4);
            rest_colon(x1_3);
            kind_shown(*b2, cy, su, k2_1, x2_4);
            rest_colon(x2_3);
            tells(*a1, *a2, cx, cy, st, su, c, d, x1_2, x2_2);
            strip(":"@, x1_3, x2_3);
            reveal_strlit("none");
            match z1 {
                Some(o1) => {
                    kind_shown(*o1, cx, st, k1_3, r);
                },
                None => {},
            }
            rest_colon(x1_5);
            reveal_strlit("none");
            match z2 {
                Some(o2) => {
                    kind_shown(*o2, cy, su, k2_3, q);
                },
                None => {},
            }
            rest_colon(x2_5);
            tells(*b1, *b2, cx, cy, st, su, k1_1, k2_1, x1_4, x2_4);
            strip(":"@, x1_5, x2_5);
            match (z1, z2) {
                (Some(o1), Some(o2)) => {
                    tells(*o1, *o2, cx, cy, st, su, k1_3, k2_3, r, q);
                },
                (None, None) => {
                    strip("none"@, r, q);
                },
                (Some(o1), None) => {
                    kind_shown(*o1, cx, st, k1_3, r);
                    none_is_no_kind(q);
                },
                (None, Some(o2)) => {
                    kind_shown(*o2, cy, su, k2_3, q);
                    none_is_no_kind(r);
                },
            }
        },
        _ => {},
    }
}

#[verifier::spinoff_prover]
#[verifier::rlimit(60)]
proof fn tell_return(
    e: Expr,
    f: Expr,
    cx: Locals,
    cy: Locals,
    st: Scope,
    su: Scope,
    c: Seq<Seq<char>>,
    d: Seq<Seq<char>>,
    r: Seq<char>,
    q: Seq<char>,
)
    requires
        meets(e, f, cx, cy, st, su, c, d, r, q),
        e is Return,
        f is Return,
    ensures
        alike(e, f, cx, cy, st, su),
        r == q,
    decreases e, 0nat,
{
    match (e, f) {
        (Expr::Return(z1), Expr::Return(z2)) => {
            reveal_strlit("ret:none");
            reveal_strlit("ret:");
            reveal_strlit("none");
            assert("ret:none"@ =~= "ret:"@ + "none"@);
            let t1 = match z1 {
                Some(o1) => expr_print(*o1, cx, st, c).0,
                None => "none"@,
            };
            let t2 = match z2 {
                Some(o2) => expr_print(*o2, cy, su, d).0,
                None => "none"@,
            };
            nest2("ret:"@, t1, r);
            nest2("ret:"@, t2, q);
            assert(expr_print(e, cx, st, c).0 == "ret:"@ + t1);
            assert(expr_print(f, cy, su, d).0 == "ret:"@ + t2);
            strip("ret:"@, t1 + r, t2 + q);
            match (z1, z2) {
                (Some(o1), Some(o2)) => {
                    tells(*o1, *o2, cx, cy, st, su, c, d, r, q);
                },
                (None, None) => {
                    strip("none"@, r, q);
                },
                (Some(o1), None) => {
                    kind_shown(*o1, cx, st, c, r);
                    none_is_no_kind(q);
                },
                (None, Some(o2)) => {
                    kind_shown(*o2, cy, su, d, q);
                    none_is_no_kind(r);
                },
            }
        },
        _ => {},
    }
}

#[verifier::spinoff_prover]
#[verifier::rlimit(60)]
proof fn tell_block(
    e: Expr,
    f: Expr,
    cx: Locals,
    cy: Locals,
    st: Scope,
    su: Scope,
    c: Seq<Seq<char>>,
    d: Seq<Seq<char>>,
    r: Seq<char>,
    q: Seq<char>,
)
    requires
        meets(e, f, cx, cy, st, su, c, d, r, q),
        e is Block,
        f is Block,
    ensures
        alike(e, f, cx, cy, st, su),
        r == q,
    decreases e, 0nat,
{
    match (e, f) {
        (Expr::Block(a1, z1), Expr::Block(a2, z2)) => {
            reveal_strlit("block(");
            reveal_strlit("final:");
            reveal_strlit(")");
            let (t1, s1, c1) = stmts_print(a1@, cx, st, c);
            let (t2, s2, c2) = stmts_print(a2@, cy, su, d);
            let x = match z1 {
                Some(e1) => "final:"@ + (expr_print(*e1, cx, s1, c1).0 + (")"@ + r)),
                None => ")"@ + r,
            };
            let y = match z2 {
                Some(e2) => "final:"@ + (expr_print(*e2, cy, s2, c2).0 + (")"@ + q)),
                None => ")"@ + q,
            };
            match z1 {
                Some(e1) => {
                    nest5("block("@, t1, "final:"@, expr_print(*e1, cx, s1, c1).0, ")"@, r);
                },
                None => {
                    nest3("block("@, t1, ")"@, r);
                },
            }
            match z2 {
                Some(e2) => {
                    nest5("block("@, t2, "final:"@, expr_print(*e2, cy, s2, c2).0, ")"@, q);
                },
                None => {
                    nest3("block("@, t2, ")"@, q);
                },
            }
            assert("block("@ + (t1 + x) == "block("@ + (t2 + y));
            strip("block("@, t1 + x, t2 + y);
            stmts_tell(a1@, a2@, cx, cy, st, su, c, d, x, y);
            stmts_leave(a1@, cx, st, c);
            stmts_leave(a2@, cy, su, d);
            assert(x[0] == y[0]);
            match (z1, z2) {
                (Some(e1), Some(e2)) => {
                    let u = expr_print(*e1, cx, s1, c1).0;
                    let v = expr_print(*e2, cy, s2, c2).0;
                    strip("final:"@, u + (")"@ + r), v + (")"@ + q));
                    rest_led(")"@, r);
                    rest_led(")"@, q);
                    tells(*e1, *e2, cx, cy, s1, s2, c1, c2, ")"@ + r, ")"@ + q);
                    strip(")"@, r, q);
                },
                (None, None) => {
                    strip(")"@, r, q);
                },
                _ => {},
            }
        },
        _ => {},
    }
}

#[verifier::spinoff_prover]
#[verifier::rlimit(60)]
proof fn tell_receive(
    e: Expr,
    f: Expr,
    cx: Locals,
    cy: Locals,
    st: Scope,
    su: Scope,
    c: Seq<Seq<char>>,
    d: Seq<Seq<char>>,
    r: Seq<char>,
    q: Seq<char>,
)
    requires
        meets(e, f, cx, cy, st, su, c, d, r, q),
        e is Receive,
        f is Receive,
    ensures
        alike(e, f, cx, cy, st, su),
        r == q,
    decreases e, 0nat,
{
    match (e, f) {
        (Expr::Receive { arms: a1, timeout: z1 }, Expr::Receive { arms: a2, timeout: z2 }) => {
            reveal_strlit("recv(");
            reveal_strlit("timeout:");
            reveal_strlit(":");
            reveal_strlit(")");
            let (t1, c1) = arms_print(a1@, cx, st, c);
            let (t2, c2) = arms_print(a2@, cy, su, d);
            let x = match z1 {
                Some((m1, b1)) => {
                    let (u1, d1) = expr_print(*m1, cx, st, c1);
                    "timeout:"@ + (u1 + (":"@ + (expr_print(*b1, cx, st, d1).0 + (")"@ + r))))
                },
                None => ")"@ + r,
            };
            let y = match z2 {
                Some((m2, b2)) => {
                    let (u2, d2) = expr_print(*m2, cy, su, c2);
                    "timeout:"@ + (u2 + (":"@ + (expr_print(*b2, cy, su, d2).0 + (")"@ + q))))
                },
                None => ")"@ + q,
            };
            match z1 {
                Some((m1, b1)) => {
                    let (u1, d1) = expr_print(*m1, cx, st, c1);
                    nest7(
                        "recv("@,
                        t1,
                        "timeout:"@,
                        u1,
                        ":"@,
                        expr_print(*b1, cx, st, d1).0,
                        ")"@,
                        r,
                    );
                },
                None => {
                    nest3("recv("@, t1, ")"@, r);
                },
            }
            match z2 {
                Some((m2, b2)) => {
                    let (u2, d2) = expr_print(*m2, cy, su, c2);
                    nest7(
                        "recv("@,
                        t2,
                        "timeout:"@,
                        u2,
                        ":"@,
                        expr_print(*b2, cy, su, d2).0,
                        ")"@,
                        q,
                    );
                },
                None => {
                    nest3("recv("@, t2, ")"@, q);
                },
            }
            assert("recv("@ + (t1 + x) == "recv("@ + (t2 + y));
            strip("recv("@, t1 + x, t2 + y);
            arms_tell(a1@, a2@, cx, cy, st, su, c, d, x, y);
            assert(x[0] == y[0]);
            match (z1, z2) {
                (Some((m1, b1)), Some((m2, b2))) => {
                    let (u1, d1) = expr_print(*m1, cx, st, c1);
                    let (u2, d2) = expr_print(*m2, cy, su, c2);
                    let v1 = expr_print(*b1, cx, st, d1).0 + (")"@ + r);
                    let v2 = expr_print(*b2, cy, su, d2).0 + (")"@ + q);
                    strip("timeout:"@, u1 + (":"@ + v1), u2 + (":"@ + v2));
                    kind_shown(*b1, cx, st, d1, ")"@ + r);
                    kind_shown(*b2, cy, su, d2, ")"@ + q);
                    rest_colon(v1);
                    rest_colon(v2);
                    tells(*m1, *m2, cx, cy, st, su, c1, c2, ":"@ + v1, ":"@ + v2);
                    strip(":"@, v1, v2);
                    rest_led(")"@, r);
                    rest_led(")"@, q);
                    tells(*b1, *b2, cx, cy, st, su, d1, d2, ")"@ + r, ")"@ + q);
                    strip(")"@, r, q);
                },
                (None, None) => {
                    strip(")"@, r, q);
                },
                _ => {},
            }
        },
        _ => {},
    }
}

#[verifier::spinoff_prover]
#[verifier::rlimit(60)]
proof fn tell_call(
    e: Expr,
    f: Expr,
    cx: Locals,
    cy: Locals,
    st: Scope,
    su: Scope,
    c: Seq<Seq<char>>,
    d: Seq<Seq<char>>,
    r: Seq<char>,
    q: Seq<char>,
)
    requires
        meets(e, f, cx, cy, st, su, c, d, r, q),
        e is Call,
        f is Call,
    ensures
        alike(e, f, cx, cy, st, su),
        r == q,
    decreases e, 0nat,
{
    match (e, f) {
        (Expr::Call(a1, b1), Expr::Call(a2, b2)) => {
            reveal_strlit("call(");
            reveal_strlit(";");
            reveal_strlit(")");
            let (f1, c1) = callee(*a1, b1@.len(), cx, st, c);
            let (f2, c2) = callee(*a2, b2@.len(), cy, su, d);
            let (t1, k1) = exprs_print(b1@, cx, st, c1);
            let (t2, k2) = exprs_print(b2@, cy, su, c2);
            nest5("call("@, f1, ";"@, t1, ")"@, r);
            nest5("call("@, f2, ";"@, t2, ")"@, q);
            let x = t1 + (")"@ + r);
            let y = t2 + (")"@ + q);
            assert(expr_print(e, cx, st, c).0 + r == "call("@ + (f1 + (";"@ + x)));
            assert(expr_print(f, cy, su, d).0 + q == "call("@ + (f2 + (";"@ + y)));
            strip("call("@, f1 + (";"@ + x), f2 + (";"@ + y));
            rest_led(";"@, x);
            rest_led(";"@, y);
            if called(*a1, b1@.len(), cx, st) is None && called(*a2, b2@.len(), cy, su) is None {
                tells(*a1, *a2, cx, cy, st, su, c, d, ";"@ + x, ";"@ + y);
            } else {
                callee_told(*a1, b1@.len(), *a2, b2@.len(), cx, cy, st, su, c, d, x, y);
            }
            strip(";"@, x, y);
            assert((")"@ + r)[0] == ')' && (")"@ + q)[0] == ')');
            exprs_tell(b1@, b2@, cx, cy, st, su, c1, c2, ")"@ + r, ")"@ + q);
            strip(")"@, r, q);
        },
        _ => {},
    }
}

/// Fingerprints tell code apart: expressions with the same fingerprint in scopes
/// with as many binders are the same up to the names of bound variables and of
/// local functions. What follows the fingerprints is the same too, so that a
/// fingerprint is known within a longer text.
pub proof fn tells(
    e: Expr,
    f: Expr,
    cx: Locals,
    cy: Locals,
    st: Scope,
    su: Scope,
    c: Seq<Seq<char>>,
    d: Seq<Seq<char>>,
    r: Seq<char>,
    q: Seq<char>,
)
    requires
        meets(e, f, cx, cy, st, su, c, d, r, q),
    ensures
        alike(e, f, cx, cy, st, su),
        r == q,
    decreases e, 1nat,
{
    kind_shown(e, cx, st, c, r);
    kind_shown(f, cy, su, d, q);
    assert(kind(e, cx, st) == kind(f, cy, su));
    match e {
        Expr::Int(..) => {
            assert(f is Int);
            tell_int(e, f, cx, cy, st, su, c, d, r, q);
        },
        Expr::Float(..) => {
            assert(f is Float);
            tell_float(e, f, cx, cy, st, su, c, d, r, q);
        },
        Expr::Char(..) => {
            assert(f is Char);
            tell_char(e, f, cx, cy, st, su, c, d, r, q);
        },
        Expr::String(..) => {
            assert(f is String);
            tell_string(e, f, cx, cy, st, su, c, d, r, q);
        },
        Expr::InterpolatedString(..) => {
            assert(f is InterpolatedString);
            tell_parts(e, f, cx, cy, st, su, c, d, r, q);
        },
        Expr::Bool(..) => {
            assert(f is Bool);
            tell_bool(e, f, cx, cy, st, su, c, d, r, q);
        },
        Expr::Atom(..) => {
            assert(f is Atom);
            tell_atom(e, f, cx, cy, st, su, c, d, r, q);
        },
        Expr::Unit => {
            assert(f is Unit);
            tell_unit(e, f, cx, cy, st, su, c, d, r, q);
        },
        Expr::Var(..) => {
            assert(f is Var);
            tell_var(e, f, cx, cy, st, su, c, d, r, q);
        },
        Expr::Tuple(..) => {
            assert(f is Tuple);
            tell_tuple(e, f, cx, cy, st, su, c, d, r, q);
        },
        Expr::List(..) => {
            assert(f is List);
            tell_list(e, f, cx, cy, st, su, c, d, r, q);
        },
        Expr::ListComp { .. } => {
            assert(f is ListComp);
            tell_comp(e, f, cx, cy, st, su, c, d, r, q);
        },
        Expr::Range(..) => {
            assert(f is Range);
            tell_range(e, f, cx, cy, st, su, c, d, r, q);
        },
        Expr::MapLit(..) => {
            assert(f is MapLit);
            tell_map(e, f, cx, cy, st, su, c, d, r, q);
        },
        Expr::Record(..) => {
            assert(f is Record);
            tell_record(e, f, cx, cy, st, su, c, d, r, q);
        },
        Expr::StructInit(..) => {
            assert(f is StructInit);
            tell_struct(e, f, cx, cy, st, su, c, d, r, q);
        },
        Expr::BitString(..) => {
            assert(f is BitString);
            tell_bits(e, f, cx, cy, st, su, c, d, r, q);
        },
        Expr::Unary(..) => {
            assert(f is Unary);
            tell_unary(e, f, cx, cy, st, su, c, d, r, q);
        },
        Expr::If(..) => {
            assert(f is If);
            tell_if(e, f, cx, cy, st, su, c, d, r, q);
        },
        Expr::Cond(..) => {
            assert(f is Cond);
            tell_cond(e, f, cx, cy, st, su, c, d, r, q);
        },
        Expr::Match(..) => {
            assert(f is Match);
            tell_match(e, f, cx, cy, st, su, c, d, r, q);
        },
        Expr::Block(..) => {
            assert(f is Block);
            tell_block(e, f, cx, cy, st, su, c, d, r, q);
        },
        Expr::Call(..) => {
            assert(f is Call);
            tell_call(e, f, cx, cy, st, su, c, d, r, q);
        },
        Expr::MethodCall(..) => {
            assert(f is MethodCall);
            tell_method(e, f, cx, cy, st, su, c, d, r, q);
        },
        Expr::Lambda(..) => {
            assert(f is Lambda);
            tell_lambda(e, f, cx, cy, st, su, c, d, r, q);
        },
        Expr::Field(..) => {
            assert(f is Field);
            tell_field(e, f, cx, cy, st, su, c, d, r, q);
        },
        Expr::Index(..) => {
            assert(f is Index);
            tell_index(e, f, cx, cy, st, su, c, d, r, q);
        },
        Expr::Path(..) => {
            assert(f is Path);
            tell_path(e, f, cx, cy, st, su, c, d, r, q);
        },
        Expr::Spawn(..) => {
            assert(f is Spawn);
            tell_spawn(e, f, cx, cy, st, su, c, d, r, q);
        },
        Expr::Send(..) => {
            assert(f is Send);
            tell_send(e, f, cx, cy, st, su, c, d, r, q);
        },
        Expr::Receive { .. } => {
            assert(f is Receive);
            tell_receive(e, f, cx, cy, st, su, c, d, r, q);
        },
        Expr::SelfPid => {
            assert(f is SelfPid);
            tell_self(e, f, cx, cy, st, su, c, d, r, q);
        },
        Expr::Return(..) => {
            assert(f is Return);
            tell_return(e, f, cx, cy, st, su, c, d, r, q);
        },
        Expr::Try { .. } => {
            assert(f is Try);
            tell_try(e, f, cx, cy, st, su, c, d, r, q);
        },
        Expr::Binary(..) => {
            assert(f is Binary);
            if kind(e, cx, st) == 18 {
                tell_binary(e, f, cx, cy, st, su, c, d, r, q);
            } else if kind(e, cx, st) == 36 {
                tell_pipe_self(e, f, cx, cy, st, su, c, d, r, q);
            } else {
                tell_pipe_dep(e, f, cx, cy, st, su, c, d, r, q);
            }
        },
    }
}

#[verifier::spinoff_prover]
#[verifier::rlimit(60)]
proof fn exprs_tell(
    s: Seq<Expr>,
    t: Seq<Expr>,
    cx: Locals,
    cy: Locals,
    st: Scope,
    su: Scope,
    c: Seq<Seq<char>>,
    d: Seq<Seq<char>>,
    r: Seq<char>,
    q: Seq<char>,
)
    requires
        plain_exprs(s),
        plain_exprs(t),
        is_numbered(st),
        is_numbered(su),
        st.next == su.next,
        closes(r),
        closes(q),
        exprs_print(s, cx, st, c).0 + r == exprs_print(t, cy, su, d).0 + q,
    ensures
        alike_all(s, t, cx, cy, st, su),
        r == q,
    decreases s, 0nat,
{
    nothing_before(r);
    nothing_before(q);
    if s.len() == 0 && t.len() == 0 {
    } else if s.len() == 0 {
        exprs_front(t, cy, su, d);
        let x = expr_print(t[0], cy, su, d);
        let z = exprs_print(t.drop_first(), cy, su, x.1).0;
        nest2(x.0 + ","@, z, q);
        nest2(x.0, ","@, z + q);
        kind_shown(t[0], cy, su, d, ","@ + (z + q));
    } else if t.len() == 0 {
        exprs_front(s, cx, st, c);
        let x = expr_print(s[0], cx, st, c);
        let z = exprs_print(s.drop_first(), cx, st, x.1).0;
        nest2(x.0 + ","@, z, r);
        nest2(x.0, ","@, z + r);
        kind_shown(s[0], cx, st, c, ","@ + (z + r));
    } else {
        exprs_front(s, cx, st, c);
        exprs_front(t, cy, su, d);
        reveal_strlit(",");
        let (t1_0, k1_0) = expr_print(s[0], cx, st, c);
        let (t1_2, k1_2) = exprs_print(s.drop_first(), cx, st, k1_0);
        let (t2_0, k2_0) = expr_print(t[0], cy, su, d);
        let (t2_2, k2_2) = exprs_print(t.drop_first(), cy, su, k2_0);
        let x1_2 = t1_2 + r;
        let x1_1 = ","@ + x1_2;
        let x1_0 = t1_0 + x1_1;
        let x2_2 = t2_2 + q;
        let x2_1 = ","@ + x2_2;
        let x2_0 = t2_0 + x2_1;
        nest3(t1_0, ","@, t1_2, r);
        nest3(t2_0, ","@, t2_2, q);
        nest2(t1_0 + ","@, t1_2, r);
        nest2(t1_0, ","@, t1_2 + r);
        nest2(t2_0 + ","@, t2_2, q);
        nest2(t2_0, ","@, t2_2 + q);
        assert(exprs_print(s, cx, st, c).0 + r == x1_0);
        assert(exprs_print(t, cy, su, d).0 + q == x2_0);
        assert(x1_0 == x2_0);
        rest_led(","@, x1_2);
        rest_led(","@, x2_2);
        tells(s[0], t[0], cx, cy, st, su, c, d, x1_1, x2_1);
        strip(","@, x1_2, x2_2);
        exprs_tell(s.drop_first(), t.drop_first(), cx, cy, st, su, k1_0, k2_0, r, q);
    }
}

#[verifier::spinoff_prover]
#[verifier::rlimit(60)]
proof fn filters_tell(
    s: Seq<Expr>,
    t: Seq<Expr>,
    cx: Locals,
    cy: Locals,
    st: Scope,
    su: Scope,
    c: Seq<Seq<char>>,
    d: Seq<Seq<char>>,
    r: Seq<char>,
    q: Seq<char>,
)
    requires
        plain_exprs(s),
        plain_exprs(t),
        is_numbered(st),
        is_numbered(su),
        st.next == su.next,
        r.len() > 0 && r[0] == ')',
        q.len() > 0 && q[0] == ')',
        filters_print(s, cx, st, c).0 + r == filters_print(t, cy, su, d).0 + q,
    ensures
        alike_all(s, t, cx, cy, st, su),
        r == q,
    decreases s, 0nat,
{
    nothing_before(r);
    nothing_before(q);
    if s.len() == 0 && t.len() == 0 {
    } else if s.len() == 0 {
        filters_front(t, cy, su, d);
        reveal_strlit("|filter:");
        let x = expr_print(t[0], cy, su, d);
        let z = filters_print(t.drop_first(), cy, su, x.1).0;
        nest2("|filter:"@ + x.0, z, q);
        nest2("|filter:"@, x.0, z + q);
        assert(r[0] == '|');
    } else if t.len() == 0 {
        filters_front(s, cx, st, c);
        reveal_strlit("|filter:");
        let x = expr_print(s[0], cx, st, c);
        let z = filters_print(s.drop_first(), cx, st, x.1).0;
        nest2("|filter:"@ + x.0, z, r);
        nest2("|filter:"@, x.0, z + r);
        assert(q[0] == '|');
    } else {
        filters_front(s, cx, st, c);
        filters_front(t, cy, su, d);
        reveal_strlit("|filter:");
        let (t1_1, k1_1) = expr_print(s[0], cx, st, c);
        let (t1_2, k1_2) = filters_print(s.drop_first(), cx, st, k1_1);
        let (t2_1, k2_1) = expr_print(t[0], cy, su, d);
        let (t2_2, k2_2) = filters_print(t.drop_first(), cy, su, k2_1);
        let x1_2 = t1_2 + r;
        let x1_1 = t1_1 + x1_2;
        let x1_0 = "|filter:"@ + x1_1;
        let x2_2 = t2_2 + q;
        let x2_1 = t2_1 + x2_2;
        let x2_0 = "|filter:"@ + x2_1;
        nest3("|filter:"@, t1_1, t1_2, r);
        nest3("|filter:"@, t2_1, t2_2, q);
        nest2("|filter:"@ + t1_1, t1_2, r);
        nest2("|filter:"@, t1_1, t1_2 + r);
        nest2("|filter:"@ + t2_1, t2_2, q);
        nest2("|filter:"@, t2_1, t2_2 + q);
        assert(filters_print(s, cx, st, c).0 + r == x1_0);
        assert(filters_print(t, cy, su, d).0 + q == x2_0);
        assert(x1_0 == x2_0);
        strip("|filter:"@, x1_1, x2_1);
        filters_led(s.drop_first(), cx, st, k1_1, r);
        filters_led(t.drop_first(), cy, su, k2_1, q);
        tells(s[0], t[0], cx, cy, st, su, c, d, x1_2, x2_2);
        filters_tell(s.drop_first(), t.drop_first(), cx, cy, st, su, k1_1, k2_1, r, q);
    }
}

#[verifier::spinoff_prover]
#[verifier::rlimit(60)]
proof fn pairs_tell(
    s: Seq<(Expr, Expr)>,
    t: Seq<(Expr, Expr)>,
    cx: Locals,
    cy: Locals,
    st: Scope,
    su: Scope,
    c: Seq<Seq<char>>,
    d: Seq<Seq<char>>,
    r: Seq<char>,
    q: Seq<char>,
)
    requires
        plain_pairs(s),
        plain_pairs(t),
        is_numbered(st),
        is_numbered(su),
        st.next == su.next,
        closes(r),
        closes(q),
        pairs_print(s, cx, st, c).0 + r == pairs_print(t, cy, su, d).0 + q,
    ensures
        alike_pairs(s, t, cx, cy, st, su),
        r == q,
    decreases s, 0nat,
{
    nothing_before(r);
    nothing_before(q);
    if s.len() == 0 && t.len() == 0 {
    } else if s.len() == 0 {
        pairs_front(t, cy, su, d);
        let x = expr_print(t[0].0, cy, su, d);
        let y = expr_print(t[0].1, cy, su, x.1);
        let z = pairs_print(t.drop_first(), cy, su, y.1).0;
        nest2(x.0 + "=>"@ + y.0 + ","@, z, q);
        nest4(x.0, "=>"@, y.0, ","@, z + q);
        kind_shown(t[0].0, cy, su, d, "=>"@ + (y.0 + (","@ + (z + q))));
    } else if t.len() == 0 {
        pairs_front(s, cx, st, c);
        let x = expr_print(s[0].0, cx, st, c);
        let y = expr_print(s[0].1, cx, st, x.1);
        let z = pairs_print(s.drop_first(), cx, st, y.1).0;
        nest2(x.0 + "=>"@ + y.0 + ","@, z, r);
        nest4(x.0, "=>"@, y.0, ","@, z + r);
        kind_shown(s[0].0, cx, st, c, "=>"@ + (y.0 + (","@ + (z + r))));
    } else {
        pairs_front(s, cx, st, c);
        pairs_front(t, cy, su, d);
        reveal_strlit(",");
        reveal_strlit("=>");
        let (t1_0, k1_0) = expr_print(s[0].0, cx, st, c);
        let (t1_2, k1_2) = expr_print(s[0].1, cx, st, k1_0);
        let (t1_4, k1_4) = pairs_print(s.drop_first(), cx, st, k1_2);
        let (t2_0, k2_0) = expr_print(t[0].0, cy, su, d);
        let (t2_2, k2_2) = expr_print(t[0].1, cy, su, k2_0);
        let (t2_4, k2_4) = pairs_print(t.drop_first(), cy, su, k2_2);
        let x1_4 = t1_4 + r;
        let x1_3 = ","@ + x1_4;
        let x1_2 = t1_2 + x1_3;
        let x1_1 = "=>"@ + x1_2;
        let x1_0 = t1_0 + x1_1;
        let x2_4 = t2_4 + q;
        let x2_3 = ","@ + x2_4;
        let x2_2 = t2_2 + x2_3;
        let x2_1 = "=>"@ + x2_2;
        let x2_0 = t2_0 + x2_1;
        nest5(t1_0, "=>"@, t1_2, ","@, t1_4, r);
        nest5(t2_0, "=>"@, t2_2, ","@, t2_4, q);
        nest2(t1_0 + "=>"@ + t1_2 + ","@, t1_4, r);
        nest4(t1_0, "=>"@, t1_2, ","@, t1_4 + r);
        nest2(t2_0 + "=>"@ + t2_2 + ","@, t2_4, q);
        nest4(t2_0, "=>"@, t2_2, ","@, t2_4 + q);
        assert(pairs_print(s, cx, st, c).0 + r == x1_0);
        assert(pairs_print(t, cy, su, d).0 + q == x2_0);
        assert(x1_0 == x2_0);
        rest_led("=>"@, x1_2);
        rest_led("=>"@, x2_2);
        tells(s[0].0, t[0].0, cx, cy, st, su, c, d, x1_1, x2_1);
        strip("=>"@, x1_2, x2_2);
        rest_led(","@, x1_4);
        rest_led(","@, x2_4);
        tells(s[0].1, t[0].1, cx, cy, st, su, k1_0, k2_0, x1_3, x2_3);
        strip(","@, x1_4, x2_4);
        pairs_tell(s.drop_first(), t.drop_first(), cx, cy, st, su, k1_2, k2_2, r, q);
    }
}

#[verifier::spinoff_prover]
#[verifier::rlimit(60)]
proof fn fields_tell(
    s: Seq<(String, Expr)>,
    t: Seq<(String, Expr)>,
    cx: Locals,
    cy: Locals,
    st: Scope,
    su: Scope,
    c: Seq<Seq<char>>,
    d: Seq<Seq<char>>,
    r: Seq<char>,
    q: Seq<char>,
)
    requires
        plain_fields(s),
        plain_fields(t),
        is_numbered(st),
        is_numbered(su),
        st.next == su.next,
        r.len() > 0 && r[0] == ')',
        q.len() > 0 && q[0] == ')',
        fields_print(s, cx, st, c).0 + r == fields_print(t, cy, su, d).0 + q,
    ensures
        alike_fields(s, t, cx, cy, st, su),
        r == q,
    decreases s, 0nat,
{
    nothing_before(r);
    nothing_before(q);
    if s.len() == 0 && t.len() == 0 {
    } else if s.len() == 0 {
        fields_front(t, cy, su, d);
        reveal_strlit(":");
        let name = t[0].0@;
        let x = expr_print(t[0].1, cy, su, d);
        let z = fields_print(t.drop_first(), cy, su, x.1).0;
        nest2(name + ":"@ + x.0 + ","@, z, q);
        nest4(name, ":"@, x.0, ","@, z + q);
        assert(name.len() > 0 ==> r[0] == name[0]);
        assert(name.len() == 0 ==> r[0] == ':');
        assert(false);
    } else if t.len() == 0 {
        fields_front(s, cx, st, c);
        reveal_strlit(":");
        let name = s[0].0@;
        let x = expr_print(s[0].1, cx, st, c);
        let z = fields_print(s.drop_first(), cx, st, x.1).0;
        nest2(name + ":"@ + x.0 + ","@, z, r);
        nest4(name, ":"@, x.0, ","@, z + r);
        assert(name.len() > 0 ==> q[0] == name[0]);
        assert(name.len() == 0 ==> q[0] == ':');
        assert(false);
    } else {
        fields_front(s, cx, st, c);
        fields_front(t, cy, su, d);
        reveal_strlit(",");
        reveal_strlit(":");
        let t1_0 = s[0].0@;
        let (t1_2, k1_2) = expr_print(s[0].1, cx, st, c);
        let (t1_4, k1_4) = fields_print(s.drop_first(), cx, st, k1_2);
        let t2_0 = t[0].0@;
        let (t2_2, k2_2) = expr_print(t[0].1, cy, su, d);
        let (t2_4, k2_4) = fields_print(t.drop_first(), cy, su, k2_2);
        let x1_4 = t1_4 + r;
        let x1_3 = ","@ + x1_4;
        let x1_2 = t1_2 + x1_3;
        let x1_1 = ":"@ + x1_2;
        let x1_0 = t1_0 + x1_1;
        let x2_4 = t2_4 + q;
        let x2_3 = ","@ + x2_4;
        let x2_2 = t2_2 + x2_3;
        let x2_1 = ":"@ + x2_2;
        let x2_0 = t2_0 + x2_1;
        nest5(t1_0, ":"@, t1_2, ","@, t1_4, r);
        nest5(t2_0, ":"@, t2_2, ","@, t2_4, q);
        nest2(t1_0 + ":"@ + t1_2 + ","@, t1_4, r);
        nest4(t1_0, ":"@, t1_2, ","@, t1_4 + r);
        nest2(t2_0 + ":"@ + t2_2 + ","@, t2_4, q);
        nest4(t2_0, ":"@, t2_2, ","@, t2_4 + q);
        assert(fields_print(s, cx, st, c).0 + r == x1_0);
        assert(fields_print(t, cy, su, d).0 + q == x2_0);
        assert(x1_0 == x2_0);
        assert(x1_1[0] == ":"@[0]);
        assert(x2_1[0] == ":"@[0]);
        cut(t1_0, x1_1, t2_0, x2_1);
        strip(":"@, x1_2, x2_2);
        rest_led(","@, x1_4);
        rest_led(","@, x2_4);
        tells(s[0].1, t[0].1, cx, cy, st, su, c, d, x1_3, x2_3);
        strip(","@, x1_4, x2_4);
        fields_tell(s.drop_first(), t.drop_first(), cx, cy, st, su, k1_2, k2_2, r, q);
    }
}

#[verifier::spinoff_prover]
#[verifier::rlimit(60)]
proof fn segments_tell(
    s: Seq<BitStringSegment>,
    t: Seq<BitStringSegment>,
    cx: Locals,
    cy: Locals,
    st: Scope,
    su: Scope,
    c: Seq<Seq<char>>,
    d: Seq<Seq<char>>,
    r: Seq<char>,
    q: Seq<char>,
)
    requires
        plain_segments(s),
        plain_segments(t),
        is_numbered(st),
        is_numbered(su),
        st.next == su.next,
        closes(r),
        closes(q),
        segments_print(s, cx, st, c).0 + r == segments_print(t, cy, su, d).0 + q,
    ensures
        alike_segments(s, t, cx, cy, st, su),
        r == q,
    decreases s, 0nat,
{
    nothing_before(r);
    nothing_before(q);
    if s.len() == 0 && t.len() == 0 {
    } else if s.len() == 0 {
        segments_front(t, cy, su, d);
        let x = expr_print(t[0].value, cy, su, d);
        let z = segments_print(t.drop_first(), cy, su, x.1).0;
        nest2(x.0 + segment_suffix(t[0].size, t[0].specifier), z, q);
        nest2(x.0, segment_suffix(t[0].size, t[0].specifier), z + q);
        kind_shown(t[0].value, cy, su, d, segment_suffix(t[0].size, t[0].specifier) + (z + q));
    } else if t.len() == 0 {
        segments_front(s, cx, st, c);
        let x = expr_print(s[0].value, cx, st, c);
        let z = segments_print(s.drop_first(), cx, st, x.1).0;
        nest2(x.0 + segment_suffix(s[0].size, s[0].specifier), z, r);
        nest2(x.0, segment_suffix(s[0].size, s[0].specifier), z + r);
        kind_shown(s[0].value, cx, st, c, segment_suffix(s[0].size, s[0].specifier) + (z + r));
    } else {
        segments_front(s, cx, st, c);
        segments_front(t, cy, su, d);
        let (t1_0, k1_0) = expr_print(s[0].value, cx, st, c);
        let t1_1 = segment_suffix(s[0].size, s[0].specifier);
        let (t1_2, k1_2) = segments_print(s.drop_first(), cx, st, k1_0);
        let (t2_0, k2_0) = expr_print(t[0].value, cy, su, d);
        let t2_1 = segment_suffix(t[0].size, t[0].specifier);
        let (t2_2, k2_2) = segments_print(t.drop_first(), cy, su, k2_0);
        let x1_2 = t1_2 + r;
        let x1_1 = t1_1 + x1_2;
        let x1_0 = t1_0 + x1_1;
        let x2_2 = t2_2 + q;
        let x2_1 = t2_1 + x2_2;
        let x2_0 = t2_0 + x2_1;
        nest3(t1_0, t1_1, t1_2, r);
        nest3(t2_0, t2_1, t2_2, q);
        nest2(t1_0 + t1_1, t1_2, r);
        nest2(t1_0, t1_1, t1_2 + r);
        nest2(t2_0 + t2_1, t2_2, q);
        nest2(t2_0, t2_1, t2_2 + q);
        assert(segments_print(s, cx, st, c).0 + r == x1_0);
        assert(segments_print(t, cy, su, d).0 + q == x2_0);
        assert(x1_0 == x2_0);
        suffix_rest(s[0].size, s[0].specifier, x1_2);
        suffix_rest(t[0].size, t[0].specifier, x2_2);
        tells(s[0].value, t[0].value, cx, cy, st, su, c, d, x1_1, x2_1);
        suffix_told(s[0].size, s[0].specifier, t[0].size, t[0].specifier, x1_2, x2_2);
        segments_tell(s.drop_first(), t.drop_first(), cx, cy, st, su, k1_0, k2_0, r, q);
    }
}

#[verifier::spinoff_prover]
#[verifier::rlimit(60)]
proof fn generators_tell(
    s: Seq<Generator>,
    t: Seq<Generator>,
    cx: Locals,
    cy: Locals,
    st: Scope,
    su: Scope,
    c: Seq<Seq<char>>,
    d: Seq<Seq<char>>,
    r: Seq<char>,
    q: Seq<char>,
)
    requires
        plain_generators(s),
        plain_generators(t),
        is_numbered(st),
        is_numbered(su),
        st.next == su.next,
        is_rest(r) && r.len() > 0 && (r[0] == ')' || r[0] == '|' && r[1] == 'f'),
        is_rest(q) && q.len() > 0 && (q[0] == ')' || q[0] == '|' && q[1] == 'f'),
        generators_print(s, cx, st, c).0 + r == generators_print(t, cy, su, d).0 + q,
    ensures
        alike_generators(s, t, cx, cy, st, su),
        r == q,
        generators_print(s, cx, st, c).1.next == generators_print(t, cy, su, d).1.next,
        is_numbered(generators_print(s, cx, st, c).1),
        is_numbered(generators_print(t, cy, su, d).1),
    decreases s, 0nat,
{
    nothing_before(r);
    nothing_before(q);
    if s.len() == 0 && t.len() == 0 {
    } else if s.len() == 0 {
        generators_front(t, cy, su, d);
        reveal_strlit("|gen:");
        let x = expr_print(t[0].source, cy, su, d);
        let p = pattern_print(t[0].pattern, su);
        let z = generators_print(t.drop_first(), cy, p.1, x.1).0;
        nest2("|gen:"@ + x.0 + "|"@ + p.0, z, q);
        nest4("|gen:"@, x.0, "|"@, p.0, z + q);
        assert(r[0] == '|' && r[1] == 'g');
    } else if t.len() == 0 {
        generators_front(s, cx, st, c);
        reveal_strlit("|gen:");
        let x = expr_print(s[0].source, cx, st, c);
        let p = pattern_print(s[0].pattern, st);
        let z = generators_print(s.drop_first(), cx, p.1, x.1).0;
        nest2("|gen:"@ + x.0 + "|"@ + p.0, z, r);
        nest4("|gen:"@, x.0, "|"@, p.0, z + r);
        assert(q[0] == '|' && q[1] == 'g');
    } else {
        generators_front(s, cx, st, c);
        generators_front(t, cy, su, d);
        reveal_strlit("|");
        reveal_strlit("|gen:");
        let (t1_1, k1_1) = expr_print(s[0].source, cx, st, c);
        let (t1_3, sc1_3) = pattern_print(s[0].pattern, st);
        let (t1_4, sc1_4, k1_4) = generators_print(
            s.drop_first(),
            cx,
            pattern_print(s[0].pattern, st).1,
            k1_1,
        );
        let (t2_1, k2_1) = expr_print(t[0].source, cy, su, d);
        let (t2_3, sc2_3) = pattern_print(t[0].pattern, su);
        let (t2_4, sc2_4, k2_4) = generators_print(
            t.drop_first(),
            cy,
            pattern_print(t[0].pattern, su).1,
            k2_1,
        );
        let x1_4 = t1_4 + r;
        let x1_3 = t1_3 + x1_4;
        let x1_2 = "|"@ + x1_3;
        let x1_1 = t1_1 + x1_2;
        let x1_0 = "|gen:"@ + x1_1;
        let x2_4 = t2_4 + q;
        let x2_3 = t2_3 + x2_4;
        let x2_2 = "|"@ + x2_3;
        let x2_1 = t2_1 + x2_2;
        let x2_0 = "|gen:"@ + x2_1;
        nest5("|gen:"@, t1_1, "|"@, t1_3, t1_4, r);
        nest5("|gen:"@, t2_1, "|"@, t2_3, t2_4, q);
        nest2("|gen:"@ + t1_1 + "|"@ + t1_3, t1_4, r);
        nest4("|gen:"@, t1_1, "|"@, t1_3, t1_4 + r);
        nest2("|gen:"@ + t2_1 + "|"@ + t2_3, t2_4, q);
        nest4("|gen:"@, t2_1, "|"@, t2_3, t2_4 + q);
        assert(generators_print(s, cx, st, c).0 + r == x1_0);
        assert(generators_print(t, cy, su, d).0 + q == x2_0);
        assert(x1_0 == x2_0);
        strip("|gen:"@, x1_1, x2_1);
        rest_led("|"@, x1_3);
        rest_led("|"@, x2_3);
        tells(s[0].source, t[0].source, cx, cy, st, su, c, d, x1_2, x2_2);
        strip("|"@, x1_3, x2_3);
        generators_led(s.drop_first(), cx, sc1_3, k1_1, r);
        generators_led(t.drop_first(), cy, sc2_3, k2_1, q);
        pattern_numbered(s[0].pattern, st);
        pattern_numbered(t[0].pattern, su);
        pattern_tells(s[0].pattern, t[0].pattern, st, su, x1_4, x2_4);
        generators_tell(
            s.drop_first(),
            t.drop_first(),
            cx,
            cy,
            pattern_print(s[0].pattern, st).1,
            pattern_print(t[0].pattern, su).1,
            k1_1,
            k2_1,
            r,
            q,
        );
    }
}

#[verifier::spinoff_prover]
#[verifier::rlimit(60)]
proof fn parts_tell(
    s: Seq<InterpolatedPart>,
    t: Seq<InterpolatedPart>,
    cx: Locals,
    cy: Locals,
    st: Scope,
    su: Scope,
    c: Seq<Seq<char>>,
    d: Seq<Seq<char>>,
    r: Seq<char>,
    q: Seq<char>,
)
    requires
        plain_parts(s),
        plain_parts(t),
        is_numbered(st),
        is_numbered(su),
        st.next == su.next,
        r.len() > 0 && r[0] == ']',
        q.len() > 0 && q[0] == ']',
        parts_print(s, cx, st, c).0 + r == parts_print(t, cy, su, d).0 + q,
    ensures
        alike_parts(s, t, cx, cy, st, su),
        r == q,
    decreases s, 0nat,
{
    nothing_before(r);
    nothing_before(q);
    if s.len() == 0 && t.len() == 0 {
    } else if s.len() == 0 {
        parts_front(t, cy, su, d);
        let x = part_print(t[0], cy, su, d);
        let z = parts_print(t.drop_first(), cy, su, x.1).0;
        nest2(x.0, z, q);
        part_shown(t[0], cy, su, d, z + q);
    } else if t.len() == 0 {
        parts_front(s, cx, st, c);
        let x = part_print(s[0], cx, st, c);
        let z = parts_print(s.drop_first(), cx, st, x.1).0;
        nest2(x.0, z, r);
        part_shown(s[0], cx, st, c, z + r);
    } else {
        parts_front(s, cx, st, c);
        parts_front(t, cy, su, d);
        let x = part_print(s[0], cx, st, c);
        let y = part_print(t[0], cy, su, d);
        let u = parts_print(s.drop_first(), cx, st, x.1).0;
        let v = parts_print(t.drop_first(), cy, su, y.1).0;
        nest2(x.0, u, r);
        nest2(y.0, v, q);
        part_tells(s[0], t[0], cx, cy, st, su, c, d, u + r, v + q);
        parts_tell(s.drop_first(), t.drop_first(), cx, cy, st, su, x.1, y.1, r, q);
    }
}

#[verifier::spinoff_prover]
#[verifier::rlimit(60)]
proof fn arms_tell(
    s: Seq<MatchArm>,
    t: Seq<MatchArm>,
    cx: Locals,
    cy: Locals,
    st: Scope,
    su: Scope,
    c: Seq<Seq<char>>,
    d: Seq<Seq<char>>,
    r: Seq<char>,
    q: Seq<char>,
)
    requires
        plain_arms(s),
        plain_arms(t),
        is_numbered(st),
        is_numbered(su),
        st.next == su.next,
        r.len() > 0 && (r[0] == ')' || r[0] == 't' && r[1] == 'i'),
        q.len() > 0 && (q[0] == ')' || q[0] == 't' && q[1] == 'i'),
        arms_print(s, cx, st, c).0 + r == arms_print(t, cy, su, d).0 + q,
    ensures
        alike_arms(s, t, cx, cy, st, su),
        r == q,
    decreases s, 0nat,
{
    nothing_before(r);
    nothing_before(q);
    if s.len() == 0 && t.len() == 0 {
    } else if s.len() == 0 {
        arms_front(t, cy, su, d);
        let x = arm_print(t[0], cy, su, d);
        let z = arms_print(t.drop_first(), cy, su, x.1).0;
        nest2(x.0, z, q);
        arm_shown(t[0], cy, su, d, z + q);
    } else if t.len() == 0 {
        arms_front(s, cx, st, c);
        let x = arm_print(s[0], cx, st, c);
        let z = arms_print(s.drop_first(), cx, st, x.1).0;
        nest2(x.0, z, r);
        arm_shown(s[0], cx, st, c, z + r);
    } else {
        arms_front(s, cx, st, c);
        arms_front(t, cy, su, d);
        let x = arm_print(s[0], cx, st, c);
        let y = arm_print(t[0], cy, su, d);
        let u = arms_print(s.drop_first(), cx, st, x.1).0;
        let v = arms_print(t.drop_first(), cy, su, y.1).0;
        nest2(x.0, u, r);
        nest2(y.0, v, q);
        arm_tells(s[0], t[0], cx, cy, st, su, c, d, u + r, v + q);
        arms_tell(s.drop_first(), t.drop_first(), cx, cy, st, su, x.1, y.1, r, q);
    }
}

#[verifier::spinoff_prover]
#[verifier::rlimit(60)]
proof fn catch_arms_tell(
    s: Seq<CatchArm>,
    t: Seq<CatchArm>,
    cx: Locals,
    cy: Locals,
    st: Scope,
    su: Scope,
    c: Seq<Seq<char>>,
    d: Seq<Seq<char>>,
    r: Seq<char>,
    q: Seq<char>,
)
    requires
        plain_catch_arms(s),
        plain_catch_arms(t),
        is_numbered(st),
        is_numbered(su),
        st.next == su.next,
        r.len() > 0 && r[0] == ')',
        q.len() > 0 && q[0] == ')',
        catch_arms_print(s, cx, st, c).0 + r == catch_arms_print(t, cy, su, d).0 + q,
    ensures
        alike_catch_arms(s, t, cx, cy, st, su),
        r == q,
    decreases s, 0nat,
{
    nothing_before(r);
    nothing_before(q);
    if s.len() == 0 && t.len() == 0 {
    } else if s.len() == 0 {
        catch_arms_front(t, cy, su, d);
        let x = catch_arm_print(t[0], cy, su, d);
        let z = catch_arms_print(t.drop_first(), cy, su, x.1).0;
        nest2(x.0, z, q);
        catch_arm_shown(t[0], cy, su, d, z + q);
    } else if t.len() == 0 {
        catch_arms_front(s, cx, st, c);
        let x = catch_arm_print(s[0], cx, st, c);
        let z = catch_arms_print(s.drop_first(), cx, st, x.1).0;
        nest2(x.0, z, r);
        catch_arm_shown(s[0], cx, st, c, z + r);
    } else {
        catch_arms_front(s, cx, st, c);
        catch_arms_front(t, cy, su, d);
        let x = catch_arm_print(s[0], cx, st, c);
        let y = catch_arm_print(t[0], cy, su, d);
        let u = catch_arms_print(s.drop_first(), cx, st, x.1).0;
        let v = catch_arms_print(t.drop_first(), cy, su, y.1).0;
        nest2(x.0, u, r);
        nest2(y.0, v, q);
        catch_arm_tells(s[0], t[0], cx, cy, st, su, c, d, u + r, v + q);
        catch_arms_tell(s.drop_first(), t.drop_first(), cx, cy, st, su, x.1, y.1, r, q);
    }
}

#[verifier::spinoff_prover]
#[verifier::rlimit(60)]
proof fn stmts_tell(
    s: Seq<Stmt>,
    t: Seq<Stmt>,
    cx: Locals,
    cy: Locals,
    st: Scope,
    su: Scope,
    c: Seq<Seq<char>>,
    d: Seq<Seq<char>>,
    r: Seq<char>,
    q: Seq<char>,
)
    requires
        plain_stmts(s),
        plain_stmts(t),
        is_numbered(st),
        is_numbered(su),
        st.next == su.next,
        r.len() > 0 && (r[0] == ')' || r[0] == 'f'),
        q.len() > 0 && (q[0] == ')' || q[0] == 'f'),
        stmts_print(s, cx, st, c).0 + r == stmts_print(t, cy, su, d).0 + q,
    ensures
        alike_stmts(s, t, cx, cy, st, su),
        r == q,
        stmts_print(s, cx, st, c).1.next == stmts_print(t, cy, su, d).1.next,
        is_numbered(stmts_print(s, cx, st, c).1),
        is_numbered(stmts_print(t, cy, su, d).1),
    decreases s, 0nat,
{
    nothing_before(r);
    nothing_before(q);
    if s.len() == 0 && t.len() == 0 {
    } else if s.len() == 0 {
        stmts_front(t, cy, su, d);
        let x = stmt_print(t[0], cy, su, d);
        let z = stmts_print(t.drop_first(), cy, after_stmt(t[0], su), x.1).0;
        nest2(x.0, z, q);
        stmt_shown(t[0], cy, su, d, z + q);
    } else if t.len() == 0 {
        stmts_front(s, cx, st, c);
        let x = stmt_print(s[0], cx, st, c);
        let z = stmts_print(s.drop_first(), cx, after_stmt(s[0], st), x.1).0;
        nest2(x.0, z, r);
        stmt_shown(s[0], cx, st, c, z + r);
    } else {
        stmts_front(s, cx, st, c);
        stmts_front(t, cy, su, d);
        let x = stmt_print(s[0], cx, st, c);
        let y = stmt_print(t[0], cy, su, d);
        let u = stmts_print(s.drop_first(), cx, after_stmt(s[0], st), x.1).0;
        let v = stmts_print(t.drop_first(), cy, after_stmt(t[0], su), y.1).0;
        nest2(x.0, u, r);
        nest2(y.0, v, q);
        stmt_tells(s[0], t[0], cx, cy, st, su, c, d, u + r, v + q);
        stmts_tell(
            s.drop_first(),
            t.drop_first(),
            cx,
            cy,
            after_stmt(s[0], st),
            after_stmt(t[0], su),
            x.1,
            y.1,
            r,
            q,
        );
    }
}

proof fn part_shown(s: InterpolatedPart, cx: Locals, st: Scope, c: Seq<Seq<char>>, r: Seq<char>)
    ensures
        (part_print(s, cx, st, c).0 + r).len() > 0,
        (part_print(s, cx, st, c).0 + r)[0] != ']',
{
    reveal_strlit("lit:");
    reveal_strlit("expr:");
    let t = part_print(s, cx, st, c).0;
    assert(t[0] == 'l' || t[0] == 'e');
    assert((t + r)[0] == t[0]);
}

proof fn stmt_shown(s: Stmt, cx: Locals, st: Scope, c: Seq<Seq<char>>, r: Seq<char>)
    ensures
        (stmt_print(s, cx, st, c).0 + r).len() > 0,
        (stmt_print(s, cx, st, c).0 + r)[0] == if s is Let {
            'l'
        } else {
            'e'
        },
{
    reveal_strlit("let:");
    reveal_strlit("expr:");
    let t = stmt_print(s, cx, st, c).0;
    assert((t + r)[0] == t[0]);
}

proof fn arm_shown(s: MatchArm, cx: Locals, st: Scope, c: Seq<Seq<char>>, r: Seq<char>)
    ensures
        (arm_print(s, cx, st, c).0 + r).len() > 0,
        (arm_print(s, cx, st, c).0 + r)[0] != ')',
        !((arm_print(s, cx, st, c).0 + r)[0] == 't' && (arm_print(s, cx, st, c).0 + r)[1] == 'i'),
{
    let (p, inner) = pattern_print(s.pattern, st);
    let (g, c2) = match s.guard {
        Some(guard) => expr_print(guard, cx, inner, c),
        None => ("none"@, c),
    };
    let b = expr_print(s.body, cx, inner, c2).0;
    nest6(p, ":"@, g, ":"@, b, ","@, r);
    pattern_shown(s.pattern, st, ":"@ + (g + (":"@ + (b + (","@ + r)))));
}

proof fn catch_arm_shown(s: CatchArm, cx: Locals, st: Scope, c: Seq<Seq<char>>, r: Seq<char>)
    requires
        plain_catch_arm(s),
    ensures
        (catch_arm_print(s, cx, st, c).0 + r).len() > 0,
        (catch_arm_print(s, cx, st, c).0 + r)[0] != ')',
{
    reveal_strlit(":");
    let name = caught(s.class);
    let (p, inner) = pattern_print(s.pattern, st);
    let b = expr_print(s.body, cx, inner, c).0;
    nest6(name, ":"@, p, ":"@, b, ","@, r);
    let t = catch_arm_print(s, cx, st, c).0 + r;
    assert(name.len() > 0 ==> t[0] == name[0]);
    assert(name.len() == 0 ==> t[0] == ':');
}

#[verifier::spinoff_prover]
#[verifier::rlimit(60)]
proof fn part_tells(
    s: InterpolatedPart,
    t: InterpolatedPart,
    cx: Locals,
    cy: Locals,
    st: Scope,
    su: Scope,
    c: Seq<Seq<char>>,
    d: Seq<Seq<char>>,
    r: Seq<char>,
    q: Seq<char>,
)
    requires
        plain_part(s),
        plain_part(t),
        is_numbered(st),
        is_numbered(su),
        st.next == su.next,
        part_print(s, cx, st, c).0 + r == part_print(t, cy, su, d).0 + q,
    ensures
        alike_part(s, t, cx, cy, st, su),
        r == q,
    decreases s, 0nat,
{
    part_shown_kinds(s, t, cx, cy, st, su, c, d, r, q);
    match (s, t) {
        (InterpolatedPart::Literal(a1), InterpolatedPart::Literal(a2)) => {
            reveal_strlit(";");
            reveal_strlit("lit:");
            let t1_1 = a1@;
            let t2_1 = a2@;
            let x1_2 = ";"@ + r;
            let x1_1 = t1_1 + x1_2;
            let x1_0 = "lit:"@ + x1_1;
            let x2_2 = ";"@ + q;
            let x2_1 = t2_1 + x2_2;
            let x2_0 = "lit:"@ + x2_1;
            nest3("lit:"@, t1_1, ";"@, r);
            nest3("lit:"@, t2_1, ";"@, q);
            assert(part_print(s, cx, st, c).0 + r == x1_0);
            assert(part_print(t, cy, su, d).0 + q == x2_0);
            assert(x1_0 == x2_0);
            strip("lit:"@, x1_1, x2_1);
            assert(x1_2[0] == ";"@[0]);
            assert(x2_2[0] == ";"@[0]);
            cut(t1_1, x1_2, t2_1, x2_2);
            strip(";"@, r, q);
        },
        (InterpolatedPart::Expr(a1), InterpolatedPart::Expr(a2)) => {
            reveal_strlit(";");
            reveal_strlit("expr:");
            let (t1_1, k1_1) = expr_print(a1, cx, st, c);
            let (t2_1, k2_1) = expr_print(a2, cy, su, d);
            let x1_2 = ";"@ + r;
            let x1_1 = t1_1 + x1_2;
            let x1_0 = "expr:"@ + x1_1;
            let x2_2 = ";"@ + q;
            let x2_1 = t2_1 + x2_2;
            let x2_0 = "expr:"@ + x2_1;
            nest3("expr:"@, t1_1, ";"@, r);
            nest3("expr:"@, t2_1, ";"@, q);
            assert(part_print(s, cx, st, c).0 + r == x1_0);
            assert(part_print(t, cy, su, d).0 + q == x2_0);
            assert(x1_0 == x2_0);
            strip("expr:"@, x1_1, x2_1);
            rest_led(";"@, r);
            rest_led(";"@, q);
            tells(a1, a2, cx, cy, st, su, c, d, x1_2, x2_2);
            strip(";"@, r, q);
        },
        _ => {},
    }
}

/// A literal part is told from a computed one.
proof fn part_shown_kinds(
    s: InterpolatedPart,
    t: InterpolatedPart,
    cx: Locals,
    cy: Locals,
    st: Scope,
    su: Scope,
    c: Seq<Seq<char>>,
    d: Seq<Seq<char>>,
    r: Seq<char>,
    q: Seq<char>,
)
    requires
        part_print(s, cx, st, c).0 + r == part_print(t, cy, su, d).0 + q,
    ensures
        s is Literal == t is Literal,
{
    reveal_strlit("lit:");
    reveal_strlit("expr:");
    let x = part_print(s, cx, st, c).0;
    let y = part_print(t, cy, su, d).0;
    assert((x + r)[0] == x[0] && (y + q)[0] == y[0]);
    assert(s is Literal ==> x[0] == 'l');
    assert(t is Literal ==> y[0] == 'l');
    assert(s is Expr ==> x[0] == 'e');
    assert(t is Expr ==> y[0] == 'e');
}

#[verifier::spinoff_prover]
#[verifier::rlimit(60)]
proof fn stmt_tells(
    s: Stmt,
    t: Stmt,
    cx: Locals,
    cy: Locals,
    st: Scope,
    su: Scope,
    c: Seq<Seq<char>>,
    d: Seq<Seq<char>>,
    r: Seq<char>,
    q: Seq<char>,
)
    requires
        plain_stmt(s),
        plain_stmt(t),
        is_numbered(st),
        is_numbered(su),
        st.next == su.next,
        stmt_print(s, cx, st, c).0 + r == stmt_print(t, cy, su, d).0 + q,
    ensures
        alike_stmt(s, t, cx, cy, st, su),
        r == q,
        after_stmt(s, st).next == after_stmt(t, su).next,
        is_numbered(after_stmt(s, st)),
        is_numbered(after_stmt(t, su)),
    decreases s, 0nat,
{
    stmt_shown(s, cx, st, c, r);
    stmt_shown(t, cy, su, d, q);
    match (s, t) {
        (Stmt::Let(p1, a1), Stmt::Let(p2, a2)) => {
            reveal_strlit(";");
            reveal_strlit("=");
            reveal_strlit("let:");
            let (t1_1, sc1_1) = pattern_print(p1, st);
            let (t1_3, k1_3) = expr_print(a1, cx, st, c);
            let (t2_1, sc2_1) = pattern_print(p2, su);
            let (t2_3, k2_3) = expr_print(a2, cy, su, d);
            let x1_4 = ";"@ + r;
            let x1_3 = t1_3 + x1_4;
            let x1_2 = "="@ + x1_3;
            let x1_1 = t1_1 + x1_2;
            let x1_0 = "let:"@ + x1_1;
            let x2_4 = ";"@ + q;
            let x2_3 = t2_3 + x2_4;
            let x2_2 = "="@ + x2_3;
            let x2_1 = t2_1 + x2_2;
            let x2_0 = "let:"@ + x2_1;
            nest5("let:"@, t1_1, "="@, t1_3, ";"@, r);
            nest5("let:"@, t2_1, "="@, t2_3, ";"@, q);
            assert(stmt_print(s, cx, st, c).0 + r == x1_0);
            assert(stmt_print(t, cy, su, d).0 + q == x2_0);
            assert(x1_0 == x2_0);
            strip("let:"@, x1_1, x2_1);
            rest_led("="@, x1_3);
            rest_led("="@, x2_3);
            pattern_numbered(p1, st);
            pattern_numbered(p2, su);
            pattern_tells(p1, p2, st, su, x1_2, x2_2);
            strip("="@, x1_3, x2_3);
            rest_led(";"@, r);
            rest_led(";"@, q);
            tells(a1, a2, cx, cy, st, su, c, d, x1_4, x2_4);
            strip(";"@, r, q);
        },
        (Stmt::Expr(a1), Stmt::Expr(a2)) => {
            reveal_strlit(";");
            reveal_strlit("expr:");
            let (t1_1, k1_1) = expr_print(a1, cx, st, c);
            let (t2_1, k2_1) = expr_print(a2, cy, su, d);
            let x1_2 = ";"@ + r;
            let x1_1 = t1_1 + x1_2;
            let x1_0 = "expr:"@ + x1_1;
            let x2_2 = ";"@ + q;
            let x2_1 = t2_1 + x2_2;
            let x2_0 = "expr:"@ + x2_1;
            nest3("expr:"@, t1_1, ";"@, r);
            nest3("expr:"@, t2_1, ";"@, q);
            assert(stmt_print(s, cx, st, c).0 + r == x1_0);
            assert(stmt_print(t, cy, su, d).0 + q == x2_0);
            assert(x1_0 == x2_0);
            strip("expr:"@, x1_1, x2_1);
            rest_led(";"@, r);
            rest_led(";"@, q);
            tells(a1, a2, cx, cy, st, su, c, d, x1_2, x2_2);
            strip(";"@, r, q);
        },
        _ => {},
    }
}

#[verifier::spinoff_prover]
#[verifier::rlimit(60)]
proof fn arm_tells(
    s: MatchArm,
    t: MatchArm,
    cx: Locals,
    cy: Locals,
    st: Scope,
    su: Scope,
    c: Seq<Seq<char>>,
    d: Seq<Seq<char>>,
    r: Seq<char>,
    q: Seq<char>,
)
    requires
        plain_arm(s),
        plain_arm(t),
        is_numbered(st),
        is_numbered(su),
        st.next == su.next,
        arm_print(s, cx, st, c).0 + r == arm_print(t, cy, su, d).0 + q,
    ensures
        alike_arm(s, t, cx, cy, st, su),
        r == q,
    decreases s, 0nat,
{
    reveal_strlit(",");
    reveal_strlit(":");
    let (t1_0, sc1_0) = pattern_print(s.pattern, st);
    let (g1t, g1c) = guard_print(s.guard, cx, sc1_0, c);
    let t1_2 = g1t;
    let (t1_4, k1_4) = expr_print(s.body, cx, sc1_0, g1c);
    let (t2_0, sc2_0) = pattern_print(t.pattern, su);
    let (g2t, g2c) = guard_print(t.guard, cy, sc2_0, d);
    let t2_2 = g2t;
    let (t2_4, k2_4) = expr_print(t.body, cy, sc2_0, g2c);
    let x1_5 = ","@ + r;
    let x1_4 = t1_4 + x1_5;
    let x1_3 = ":"@ + x1_4;
    let x1_2 = t1_2 + x1_3;
    let x1_1 = ":"@ + x1_2;
    let x1_0 = t1_0 + x1_1;
    let x2_5 = ","@ + q;
    let x2_4 = t2_4 + x2_5;
    let x2_3 = ":"@ + x2_4;
    let x2_2 = t2_2 + x2_3;
    let x2_1 = ":"@ + x2_2;
    let x2_0 = t2_0 + x2_1;
    nest6(t1_0, ":"@, t1_2, ":"@, t1_4, ","@, r);
    nest6(t2_0, ":"@, t2_2, ":"@, t2_4, ","@, q);
    assert(arm_print(s, cx, st, c).0 + r == x1_0);
    assert(arm_print(t, cy, su, d).0 + q == x2_0);
    assert(x1_0 == x2_0);
    guard_shown(s.guard, cx, sc1_0, c, x1_3);
    rest_colon(x1_2);
    guard_shown(t.guard, cy, sc2_0, d, x2_3);
    rest_colon(x2_2);
    pattern_numbered(s.pattern, st);
    pattern_numbered(t.pattern, su);
    pattern_tells(s.pattern, t.pattern, st, su, x1_1, x2_1);
    strip(":"@, x1_2, x2_2);
    kind_shown(s.body, cx, sc1_0, g1c, x1_5);
    kind_shown(t.body, cy, sc2_0, g2c, x2_5);
    rest_colon(x1_4);
    rest_colon(x2_4);
    guard_tells(s.guard, t.guard, cx, cy, sc1_0, sc2_0, c, d, x1_3, x2_3);
    strip(":"@, x1_4, x2_4);
    rest_led(","@, r);
    rest_led(","@, q);
    tells(s.body, t.body, cx, cy, sc1_0, sc2_0, g1c, g2c, x1_5, x2_5);
    strip(","@, r, q);
}

/// The fingerprint of a guard, or of none.
spec fn guard_print(
    g: Option<Expr>,
    cx: Locals,
    st: Scope,
    c: Seq<Seq<char>>,
) -> (Seq<char>, Seq<Seq<char>>) {
    match g {
        Some(e) => expr_print(e, cx, st, c),
        None => ("none"@, c),
    }
}

proof fn guard_shown(g: Option<Expr>, cx: Locals, st: Scope, c: Seq<Seq<char>>, r: Seq<char>)
    ensures
        (guard_print(g, cx, st, c).0 + r).len() > 0,
        (guard_print(g, cx, st, c).0 + r)[0] != ':',
        (which(guard_print(g, cx, st, c).0 + r) >= 0) == (g is Some),
{
    reveal_strlit("none");
    match g {
        Some(e) => {
            kind_shown(e, cx, st, c, r);
            assert(kind(e, cx, st) >= 0);
        },
        None => {
            none_is_no_kind(r);
        },
    }
}

/// Guards with the same fingerprint are alike.
proof fn guard_tells(
    g: Option<Expr>,
    h: Option<Expr>,
    cx: Locals,
    cy: Locals,
    st: Scope,
    su: Scope,
    c: Seq<Seq<char>>,
    d: Seq<Seq<char>>,
    r: Seq<char>,
    q: Seq<char>,
)
    requires
        g matches Some(e) ==> plain(e),
        h matches Some(f) ==> plain(f),
        is_numbered(st),
        is_numbered(su),
        st.next == su.next,
        is_rest(r),
        is_rest(q),
        guard_print(g, cx, st, c).0 + r == guard_print(h, cy, su, d).0 + q,
    ensures
        match (g, h) {
            (Some(e), Some(f)) => alike(e, f, cx, cy, st, su),
            (None, None) => true,
            _ => false,
        },
        r == q,
    decreases g, 2nat,
{
    guard_shown(g, cx, st, c, r);
    guard_shown(h, cy, su, d, q);
    match (g, h) {
        (Some(e), Some(f)) => {
            tells(e, f, cx, cy, st, su, c, d, r, q);
        },
        (None, None) => {
            strip("none"@, r, q);
        },
        _ => {},
    }
}

#[verifier::spinoff_prover]
#[verifier::rlimit(60)]
proof fn catch_arm_tells(
    s: CatchArm,
    t: CatchArm,
    cx: Locals,
    cy: Locals,
    st: Scope,
    su: Scope,
    c: Seq<Seq<char>>,
    d: Seq<Seq<char>>,
    r: Seq<char>,
    q: Seq<char>,
)
    requires
        plain_catch_arm(s),
        plain_catch_arm(t),
        is_numbered(st),
        is_numbered(su),
        st.next == su.next,
        catch_arm_print(s, cx, st, c).0 + r == catch_arm_print(t, cy, su, d).0 + q,
    ensures
        alike_catch_arm(s, t, cx, cy, st, su),
        r == q,
    decreases s, 0nat,
{
    reveal_strlit(",");
    reveal_strlit(":");
    let t1_0 = caught(s.class);
    let (t1_2, sc1_2) = pattern_print(s.pattern, st);
    let (t1_4, k1_4) = expr_print(s.body, cx, sc1_2, c);
    let t2_0 = caught(t.class);
    let (t2_2, sc2_2) = pattern_print(t.pattern, su);
    let (t2_4, k2_4) = expr_print(t.body, cy, sc2_2, d);
    let x1_5 = ","@ + r;
    let x1_4 = t1_4 + x1_5;
    let x1_3 = ":"@ + x1_4;
    let x1_2 = t1_2 + x1_3;
    let x1_1 = ":"@ + x1_2;
    let x1_0 = t1_0 + x1_1;
    let x2_5 = ","@ + q;
    let x2_4 = t2_4 + x2_5;
    let x2_3 = ":"@ + x2_4;
    let x2_2 = t2_2 + x2_3;
    let x2_1 = ":"@ + x2_2;
    let x2_0 = t2_0 + x2_1;
    nest6(t1_0, ":"@, t1_2, ":"@, t1_4, ","@, r);
    nest6(t2_0, ":"@, t2_2, ":"@, t2_4, ","@, q);
    assert(catch_arm_print(s, cx, st, c).0 + r == x1_0);
    assert(catch_arm_print(t, cy, su, d).0 + q == x2_0);
    assert(x1_0 == x2_0);
    assert(x1_1[0] == ":"@[0]);
    assert(x2_1[0] == ":"@[0]);
    cut(t1_0, x1_1, t2_0, x2_1);
    strip(":"@, x1_2, x2_2);
    kind_shown(s.body, cx, sc1_2, c, x1_5);
    rest_colon(x1_4);
    kind_shown(t.body, cy, sc2_2, d, x2_5);
    rest_colon(x2_4);
    pattern_numbered(s.pattern, st);
    pattern_numbered(t.pattern, su);
    pattern_tells(s.pattern, t.pattern, st, su, x1_3, x2_3);
    strip(":"@, x1_4, x2_4);
    rest_led(","@, r);
    rest_led(","@, q);
    tells(s.body, t.body, cx, cy, sc1_2, sc2_2, c, d, x1_5, x2_5);
    strip(","@, r, q);
}

/// Whether two functions are the same code up to the names of parameters, bound
/// variables and local functions.
pub open spec fn alike_functions(f: Function, g: Function, cx: Locals, cy: Locals) -> bool {
    f.params@.len() == g.params@.len() && alike(
        f.body,
        g.body,
        cx,
        cy,
        bound_params(empty_scope(), f.params@),
        bound_params(empty_scope(), g.params@),
    )
}

/// Functions with the same fingerprint are the same code up to the names of
/// parameters, bound variables and local functions.
pub proof fn fingerprint_tells_functions(f: Function, g: Function, cx: Locals, cy: Locals)
    requires
        plain(f.body),
        plain(g.body),
        function_print(f, cx).0 == function_print(g, cy).0,
    ensures
        alike_functions(f, g, cx, cy),
{
    reveal_strlit("fn$arity:");
    reveal_strlit("|params:");
    reveal_strlit("|");
    reveal_strlit("body:");
    let st = bound_params(empty_scope(), f.params@);
    let su = bound_params(empty_scope(), g.params@);
    params_numbered(empty_scope(), f.params@);
    params_numbered(empty_scope(), g.params@);
    let m = decimal(f.params@.len());
    let n = decimal(g.params@.len());
    decimal_is_word(f.params@.len());
    decimal_is_word(g.params@.len());
    let b = expr_print(f.body, cx, st, Seq::empty()).0;
    let h = expr_print(g.body, cy, su, Seq::empty()).0;
    nest6("fn$arity:"@, m, "|params:"@, m, "|"@, "body:"@, b);
    nest6("fn$arity:"@, n, "|params:"@, n, "|"@, "body:"@, h);
    let x = "|"@ + ("body:"@ + b);
    let y = "|"@ + ("body:"@ + h);
    strip("fn$arity:"@, m + ("|params:"@ + (m + x)), n + ("|params:"@ + (n + y)));
    assert(("|params:"@ + (m + x))[0] == '|' && ("|params:"@ + (n + y))[0] == '|');
    cut(m, "|params:"@ + (m + x), n, "|params:"@ + (n + y));
    decimal_injective(f.params@.len(), g.params@.len());
    strip("|params:"@, m + x, n + y);
    strip(m, x, y);
    strip("|"@, "body:"@ + b, "body:"@ + h);
    strip("body:"@, b, h);
    nothing_before(b);
    nothing_before(h);
    tells(f.body, g.body, cx, cy, st, su, Seq::empty(), Seq::empty(), Seq::empty(), Seq::empty());
}

/// Operations with different operators have different fingerprints, whatever
/// their operands, the scopes and the local functions are.
pub proof fn fingerprint_tells_operators(
    e: Expr,
    f: Expr,
    cx: Locals,
    cy: Locals,
    st: Scope,
    su: Scope,
    c: Seq<Seq<char>>,
    d: Seq<Seq<char>>,
)
    requires
        e is Binary,
        f is Binary,
        e->Binary_1 != f->Binary_1,
    ensures
        expr_print(e, cx, st, c).0 != expr_print(f, cy, su, d).0,
{
    let x = expr_print(e, cx, st, c).0;
    let y = expr_print(f, cy, su, d).0;
    if x == y {
        kind_shown(e, cx, st, c, Seq::empty());
        kind_shown(f, cy, su, d, Seq::empty());
        match (e, f) {
            (Expr::Binary(a1, o1, b1), Expr::Binary(a2, o2, b2)) => {
                let (l1, c1) = expr_print(*a1, cx, st, c);
                let (l2, c2) = expr_print(*a2, cy, su, d);
                let r1 = expr_print(*b1, cx, st, c1).0;
                let r2 = expr_print(*b2, cy, su, c2).0;
                let u = l1 + (":"@ + r1);
                let v = l2 + (":"@ + r2);
                assert(kind(e, cx, st) == 18);
                nest5("bin:"@, binop_name(o1), ":"@, l1, ":"@, r1);
                nest5("bin:"@, binop_name(o2), ":"@, l2, ":"@, r2);
                strip("bin:"@, binop_name(o1) + (":"@ + u), binop_name(o2) + (":"@ + v));
                op_told(o1, o2);
                reveal_strlit(":");
                assert((":"@ + u)[0] == ':' && (":"@ + v)[0] == ':');
                cut(binop_name(o1), ":"@ + u, binop_name(o2), ":"@ + v);
            },
            _ => {},
        }
    }
}

} // verus!
