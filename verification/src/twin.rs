//! Functions that differ in names alone: one is the other with two names
//! exchanged throughout. They are translated alike.
use vstd::prelude::*;
use crate::ast::{
    path_parts, BitStringPatternSegment, BitStringSegment, CatchArm, Expr, Generator,
    InterpolatedPart, MatchArm, Param, Path, Pattern, Stmt, BinOp,
};
use crate::builtins::builtin;
use crate::erlang::{Core, Literal, Pat, PatSegment, Segment};
use crate::fresh::fresh_name;
use crate::lower::{
    core_var, direct_call, erlang_op, generators_left, is_else, linked, list_pattern, lowered,
    lowered_all, lowered_arm, lowered_arms, lowered_catch_arm, lowered_catch_arms, lowered_comp,
    lowered_cond, lowered_entries, lowered_field_patterns, lowered_fields, lowered_filters,
    lowered_parts, lowered_pattern, lowered_patterns, lowered_record, lowered_segment,
    lowered_segment_patterns, lowered_segments, lowered_stmt, lowered_stmts, method_var, param_vars,
    pipe_module, pipe_target, wrapped, Part, SymbolTable,
};
use crate::shape;
use crate::swap::{
    moved, swap_clause, swap_clauses, swap_core, swap_cores, swap_entries,
    swap_name, swap_names, swap_pat, swap_pat_segments, swap_pats, swap_segments, Swap,
};
use crate::swap_shape::{
    apply1_swaps, atom_swaps, binary_text_swaps, builtin_swaps, byte_patterns_stay, call0_swaps,
    call1_swaps, call2_swaps, case1_swaps, case2_swaps, clauses_push, concat_shape_swaps,
    cons_swaps, cores_concat, cores_len, cores_push, fixed_stay, fresh_stays, fun1_swaps,
    guarded_swaps, if_else_swaps, let1_swaps, listed_onto_swaps, listed_swaps, nil_swaps, num_swaps,
    patom_swaps, pats_len, ptup2_swaps, pvar_swaps, quoted_stays, raise_swaps, spared, string_swaps,
    swap_result, try1_swaps, tup1_swaps, tup2_swaps, var_swaps, when_swaps,
};
use crate::text::texts;

verus! {

/// Two names of a source that are exchanged.
pub struct Renaming {
    pub a: Seq<char>,
    pub b: Seq<char>,
}

/// The exchange of the variables that the names become.
pub open spec fn exchange(r: Renaming) -> Swap {
    Swap { a: core_var(r.a), b: core_var(r.b) }
}

/// Whether the names may be exchanged: neither becomes a variable that the
/// translation introduces.
pub open spec fn fair(r: Renaming) -> bool {
    spared(exchange(r))
}

/// Whether a built-in takes a call by this name with `k` arguments.
pub open spec fn takes(x: Seq<char>, k: nat) -> bool {
    exists|args: Seq<Core>, n: nat| args.len() == k && #[trigger] builtin(x, args, n) is Some
}

/// Whether what is called is alike: a name that a built-in takes stays.
pub open spec fn same_callee(e: Expr, f: Expr, k: nat) -> bool {
    match (e, f) {
        (Expr::Var(x), Expr::Var(y)) => x@ == y@ || !takes(x@, k) && !takes(y@, k),
        _ => true,
    }
}

/// Whether what a value is piped into is alike: the name of a built-in stays.
pub open spec fn same_target(e: Expr, f: Expr) -> bool {
    match (e, f) {
        (Expr::Var(x), Expr::Var(y)) => x@ == y@ || pipe_module(x@) is None && pipe_module(y@) is None,
        _ => true,
    }
}

/// Whether `y` is `x` after the exchange. A name that stays must not become
/// the same variable as one that is exchanged.
pub open spec fn same_name(r: Renaming, x: Seq<char>, y: Seq<char>) -> bool {
    ||| x == r.a && y == r.b
    ||| x == r.b && y == r.a
    ||| x == y && !moved(exchange(r), core_var(x))
}

pub open spec fn same_path(p: Path, q: Path) -> bool {
    texts(p.qualifiers@) == texts(q.qualifiers@) && p.name@ == q.name@
}

/// Whether one pattern is the other after the exchange.
pub open spec fn twin_pattern(r: Renaming, p: Pattern, q: Pattern) -> bool
    decreases p,
{
    match (p, q) {
        (Pattern::Wildcard, Pattern::Wildcard) => true,
        (Pattern::Var(x), Pattern::Var(y)) => same_name(r, x@, y@),
        (Pattern::Int(i), Pattern::Int(j)) => i == j,
        (Pattern::Float(f), Pattern::Float(g)) => f.bits == g.bits && f.text@ == g.text@,
        (Pattern::Char(c), Pattern::Char(d)) => c == d,
        (Pattern::String(s), Pattern::String(t)) => s@ == t@,
        (Pattern::Bool(b), Pattern::Bool(c)) => b == c,
        (Pattern::Atom(s), Pattern::Atom(t)) => s@ == t@,
        (Pattern::Tuple(s), Pattern::Tuple(t)) => twin_patterns(r, s@, t@),
        (Pattern::List(s, x), Pattern::List(t, y)) => twin_patterns(r, s@, t@) && (match (x, y) {
            (Some(x), Some(y)) => twin_pattern(r, *x, *y),
            (None, None) => true,
            _ => false,
        }),
        (Pattern::Constructor(c, s), Pattern::Constructor(d, t)) => same_path(c, d)
            && twin_patterns(r, s@, t@),
        (Pattern::Record(s), Pattern::Record(t)) => twin_field_patterns(r, s@, t@),
        (Pattern::BitString(s), Pattern::BitString(t)) => twin_segment_patterns(r, s@, t@),
        (Pattern::Or(a, b), Pattern::Or(c, d)) => twin_pattern(r, *a, *c) && twin_pattern(
            r,
            *b,
            *d,
        ),
        _ => false,
    }
}

pub open spec fn twin_patterns(r: Renaming, s: Seq<Pattern>, t: Seq<Pattern>) -> bool
    decreases s,
{
    &&& s.len() == t.len()
    &&& s.len() > 0 ==> twin_patterns(r, s.drop_last(), t.drop_last()) && twin_pattern(r, s.last(), t.last())
}

pub open spec fn twin_field_patterns(r: Renaming, s: Seq<(String, Pattern)>, t: Seq<(String, Pattern)>) -> bool
    decreases s,
{
    &&& s.len() == t.len()
    &&& s.len() > 0
        ==> twin_field_patterns(r, s.drop_last(), t.drop_last()) && s.last().0@ == t.last().0@
        && twin_pattern(r, s.last().1, t.last().1)
}

pub open spec fn twin_segment_patterns(r: Renaming, s: Seq<BitStringPatternSegment>,
    t: Seq<BitStringPatternSegment>) -> bool
    decreases s,
{
    &&& s.len() == t.len()
    &&& s.len() > 0
        ==> twin_segment_patterns(r, s.drop_last(), t.drop_last()) && s.last().size == t.last().size
        && s.last().specifier == t.last().specifier
        && twin_pattern(r, s.last().value, t.last().value)
}

/// Whether parameters are others after the exchange.
pub open spec fn twin_params(r: Renaming, s: Seq<Param>, t: Seq<Param>) -> bool {
    &&& s.len() == t.len()
    &&& forall|i: int| 0 <= i < s.len() ==> same_name(r, #[trigger] s[i].name@, t[i].name@)
}

/// Whether one expression is the other after the exchange.
pub open spec fn twin(r: Renaming, e: Expr, f: Expr) -> bool
    decreases e,
{
    match (e, f) {
        (Expr::Int(i), Expr::Int(j)) => i == j,
        (Expr::Float(x), Expr::Float(y)) => x.bits == y.bits && x.text@ == y.text@,
        (Expr::Char(c), Expr::Char(d)) => c == d,
        (Expr::String(s), Expr::String(t)) => s@ == t@,
        (Expr::InterpolatedString(s), Expr::InterpolatedString(t)) => twin_parts(r, s@, t@),
        (Expr::Bool(b), Expr::Bool(c)) => b == c,
        (Expr::Atom(s), Expr::Atom(t)) => s@ == t@,
        (Expr::Unit, Expr::Unit) => true,
        (Expr::Var(x), Expr::Var(y)) => same_name(r, x@, y@),
        (Expr::Tuple(s), Expr::Tuple(t)) => twin_all(r, s@, t@),
        (Expr::List(s, x), Expr::List(t, y)) => twin_all(r, s@, t@) && (match (x, y) {
            (Some(x), Some(y)) => twin(r, *x, *y),
            (None, None) => true,
            _ => false,
        }),
        (
            Expr::ListComp { expr: x, generators: g, filters: c },
            Expr::ListComp { expr: y, generators: h, filters: d },
        ) => twin(r, *x, *y) && twin_generators(r, g@, h@) && twin_all(r, c@, d@),
        (Expr::Range(a, b, i), Expr::Range(c, d, j)) => twin(r, *a, *c) && twin(r, *b, *d) && i
            == j,
        (Expr::MapLit(s), Expr::MapLit(t)) => twin_pairs(r, s@, t@),
        (Expr::Record(s), Expr::Record(t)) => twin_fields(r, s@, t@),
        (Expr::StructInit(x, s), Expr::StructInit(y, t)) => x@ == y@ && twin_fields(r, s@, t@),
        (Expr::BitString(s), Expr::BitString(t)) => twin_segments(r, s@, t@),
        (Expr::Binary(a, o, b), Expr::Binary(c, p, d)) => twin(r, *a, *c) && o == p && twin(
            r,
            *b,
            *d,
        ) && (o is Pipe ==> same_target(*b, *d)),
        (Expr::Unary(o, a), Expr::Unary(p, b)) => o == p && twin(r, *a, *b),
        (Expr::If(c, x, y), Expr::If(d, z, u)) => twin(r, *c, *d) && twin(r, *x, *z) && (match (
            y,
            u,
        ) {
            (Some(y), Some(u)) => twin(r, *y, *u),
            (None, None) => true,
            _ => false,
        }),
        (Expr::Cond(s), Expr::Cond(t)) => twin_pairs(r, s@, t@),
        (Expr::Match(x, s), Expr::Match(y, t)) => twin(r, *x, *y) && twin_arms(r, s@, t@),
        (Expr::Block(s, x), Expr::Block(t, y)) => twin_stmts(r, s@, t@) && (match (x, y) {
            (Some(x), Some(y)) => twin(r, *x, *y),
            (None, None) => true,
            _ => false,
        }),
        (Expr::Call(x, s), Expr::Call(y, t)) => twin(r, *x, *y) && twin_all(r, s@, t@)
            && same_callee(*x, *y, s@.len()),
        (Expr::MethodCall(x, m, s), Expr::MethodCall(y, k, t)) => twin(r, *x, *y) && m@ == k@
            && twin_all(r, s@, t@),
        (Expr::Lambda(s, x), Expr::Lambda(t, y)) => twin_params(r, s@, t@) && twin(r, *x, *y),
        (Expr::Field(x, s), Expr::Field(y, t)) => twin(r, *x, *y) && s@ == t@,
        (Expr::Index(a, b), Expr::Index(c, d)) => twin(r, *a, *c) && twin(r, *b, *d),
        (Expr::Path(p), Expr::Path(q)) => same_path(p, q) && !moved(exchange(r), core_var(p.name@)),
        (Expr::Spawn(a), Expr::Spawn(b)) => twin(r, *a, *b),
        (Expr::Send(a, b), Expr::Send(c, d)) => twin(r, *a, *c) && twin(r, *b, *d),
        (Expr::Receive { arms: s, timeout: x }, Expr::Receive { arms: t, timeout: y }) => twin_arms(
            r,
            s@,
            t@,
        ) && (match (x, y) {
            (Some((a, b)), Some((c, d))) => twin(r, *a, *c) && twin(r, *b, *d),
            (None, None) => true,
            _ => false,
        }),
        (Expr::SelfPid, Expr::SelfPid) => true,
        (Expr::Return(x), Expr::Return(y)) => match (x, y) {
            (Some(x), Some(y)) => twin(r, *x, *y),
            (None, None) => true,
            _ => false,
        },
        (Expr::Try { body: x, catch_arms: s }, Expr::Try { body: y, catch_arms: t }) => twin(
            r,
            *x,
            *y,
        ) && twin_catch_arms(r, s@, t@),
        _ => false,
    }
}

pub open spec fn twin_all(r: Renaming, s: Seq<Expr>, t: Seq<Expr>) -> bool
    decreases s,
{
    &&& s.len() == t.len()
    &&& s.len() > 0 ==> twin_all(r, s.drop_last(), t.drop_last()) && twin(r, s.last(), t.last())
}

pub open spec fn twin_pairs(r: Renaming, s: Seq<(Expr, Expr)>, t: Seq<(Expr, Expr)>) -> bool
    decreases s,
{
    &&& s.len() == t.len()
    &&& s.len() > 0
        ==> twin_pairs(r, s.drop_last(), t.drop_last()) && twin(r, s.last().0, t.last().0)
        && twin(r, s.last().1, t.last().1)
}

pub open spec fn twin_fields(r: Renaming, s: Seq<(String, Expr)>, t: Seq<(String, Expr)>) -> bool
    decreases s,
{
    &&& s.len() == t.len()
    &&& s.len() > 0
        ==> twin_fields(r, s.drop_last(), t.drop_last()) && s.last().0@ == t.last().0@
        && twin(r, s.last().1, t.last().1)
}

pub open spec fn twin_segments(r: Renaming, s: Seq<BitStringSegment>, t: Seq<BitStringSegment>) -> bool
    decreases s,
{
    &&& s.len() == t.len()
    &&& s.len() > 0 ==> twin_segments(r, s.drop_last(), t.drop_last()) && twin_segment(r, s.last(), t.last())
}

pub open spec fn twin_segment(r: Renaming, s: BitStringSegment, t: BitStringSegment) -> bool
    decreases s,
{
    s.size == t.size && s.specifier == t.specifier && twin(r, s.value, t.value)
}

pub open spec fn twin_part(r: Renaming, s: InterpolatedPart, t: InterpolatedPart) -> bool
    decreases s,
{
    match (s, t) {
        (InterpolatedPart::Literal(x), InterpolatedPart::Literal(y)) => x@ == y@,
        (InterpolatedPart::Expr(x), InterpolatedPart::Expr(y)) => twin(r, x, y),
        _ => false,
    }
}

pub open spec fn twin_generator(r: Renaming, s: Generator, t: Generator) -> bool
    decreases s,
{
    twin_pattern(r, s.pattern, t.pattern) && twin(r, s.source, t.source)
}

pub open spec fn twin_arm(r: Renaming, s: MatchArm, t: MatchArm) -> bool
    decreases s,
{
    &&& twin_pattern(r, s.pattern, t.pattern)
    &&& match (s.guard, t.guard) {
        (Some(x), Some(y)) => twin(r, x, y),
        (None, None) => true,
        _ => false,
    }
    &&& twin(r, s.body, t.body)
}

pub open spec fn twin_catch_arm(r: Renaming, s: CatchArm, t: CatchArm) -> bool
    decreases s,
{
    &&& match (s.class, t.class) {
        (Some(x), Some(y)) => x@ == y@,
        (None, None) => true,
        _ => false,
    }
    &&& twin_pattern(r, s.pattern, t.pattern)
    &&& twin(r, s.body, t.body)
}

pub open spec fn twin_stmt(r: Renaming, s: Stmt, t: Stmt) -> bool
    decreases s,
{
    match (s, t) {
        (Stmt::Let(p, x), Stmt::Let(q, y)) => twin_pattern(r, p, q) && twin(r, x, y),
        (Stmt::Expr(x), Stmt::Expr(y)) => twin(r, x, y),
        _ => false,
    }
}

pub open spec fn twin_parts(r: Renaming, s: Seq<InterpolatedPart>, t: Seq<InterpolatedPart>) -> bool
    decreases s,
{
    &&& s.len() == t.len()
    &&& s.len() > 0 ==> twin_parts(r, s.drop_last(), t.drop_last()) && twin_part(r, s.last(), t.last())
}

pub open spec fn twin_generators(r: Renaming, s: Seq<Generator>, t: Seq<Generator>) -> bool
    decreases s,
{
    &&& s.len() == t.len()
    &&& s.len() > 0
        ==> twin_generators(r, s.drop_last(), t.drop_last())
        && twin_generator(r, s.last(), t.last())
}

pub open spec fn twin_arms(r: Renaming, s: Seq<MatchArm>, t: Seq<MatchArm>) -> bool
    decreases s,
{
    &&& s.len() == t.len()
    &&& s.len() > 0 ==> twin_arms(r, s.drop_last(), t.drop_last()) && twin_arm(r, s.last(), t.last())
}

pub open spec fn twin_catch_arms(r: Renaming, s: Seq<CatchArm>, t: Seq<CatchArm>) -> bool
    decreases s,
{
    &&& s.len() == t.len()
    &&& s.len() > 0
        ==> twin_catch_arms(r, s.drop_last(), t.drop_last())
        && twin_catch_arm(r, s.last(), t.last())
}

pub open spec fn twin_stmts(r: Renaming, s: Seq<Stmt>, t: Seq<Stmt>) -> bool
    decreases s,
{
    &&& s.len() == t.len()
    &&& s.len() > 0 ==> twin_stmts(r, s.drop_last(), t.drop_last()) && twin_stmt(r, s.last(), t.last())
}

proof fn twin_patterns_len(r: Renaming, s: Seq<Pattern>, t: Seq<Pattern>)
    requires
        twin_patterns(r, s, t),
    ensures
        s.len() == t.len(),
{
}

proof fn twin_segment_patterns_len(r: Renaming, s: Seq<BitStringPatternSegment>,
    t: Seq<BitStringPatternSegment>)
    requires
        twin_segment_patterns(r, s, t),
    ensures
        s.len() == t.len(),
{
}

proof fn twin_all_len(r: Renaming, s: Seq<Expr>, t: Seq<Expr>)
    requires
        twin_all(r, s, t),
    ensures
        s.len() == t.len(),
{
}

proof fn twin_pairs_len(r: Renaming, s: Seq<(Expr, Expr)>, t: Seq<(Expr, Expr)>)
    requires
        twin_pairs(r, s, t),
    ensures
        s.len() == t.len(),
{
}

proof fn twin_generators_len(r: Renaming, s: Seq<Generator>, t: Seq<Generator>)
    requires
        twin_generators(r, s, t),
    ensures
        s.len() == t.len(),
{
}

proof fn twin_catch_arms_len(r: Renaming, s: Seq<CatchArm>, t: Seq<CatchArm>)
    requires
        twin_catch_arms(r, s, t),
    ensures
        s.len() == t.len(),
{
}

/// Whether a name leads to the same module after the exchange as before.
pub open spec fn twin_tables(r: Renaming, t: SymbolTable, u: SymbolTable) -> bool {
    forall|x: Seq<char>, y: Seq<char>, k: nat|
        same_name(r, x, y) ==> #[trigger] linked(u, y, k) == #[trigger] linked(t, x, k)
}

/// The variable of a name after the exchange.
pub proof fn variable_swaps(r: Renaming, x: Seq<char>, y: Seq<char>)
    requires
        same_name(r, x, y),
    ensures
        core_var(y) == swap_name(exchange(r), core_var(x)),
{
}

pub proof fn params_swap(r: Renaming, s: Seq<Param>, t: Seq<Param>)
    requires
        twin_params(r, s, t),
    ensures
        param_vars(t) == swap_names(exchange(r), param_vars(s)),
{
    assert forall|i: int| 0 <= i < s.len() implies #[trigger] param_vars(t)[i] == swap_name(
        exchange(r),
        param_vars(s)[i],
    ) by {
        variable_swaps(r, s[i].name@, t[i].name@);
    }
    assert(param_vars(t) =~= swap_names(exchange(r), param_vars(s)));
}

proof fn pattern_swaps(r: Renaming, p: Pattern, q: Pattern)
    requires
        fair(r),
        twin_pattern(r, p, q),
    ensures
        lowered_pattern(q) == swap_pat(exchange(r), lowered_pattern(p)),
    decreases p,
{
    let w = exchange(r);
    match (p, q) {
        (Pattern::Wildcard, Pattern::Wildcard) => {
            fixed_stay(w);
        },
        (Pattern::Var(x), Pattern::Var(y)) => {
            variable_swaps(r, x@, y@);
        },
        (Pattern::String(s), Pattern::String(t)) => {
            byte_patterns_stay(w, s@);
        },
        (Pattern::Tuple(s), Pattern::Tuple(t)) => {
            patterns_swap(r, s@, t@);
            twin_patterns_len(r, s@, t@);
        },
        (Pattern::List(s, x), Pattern::List(t, y)) => {
            match (x, y) {
                (Some(x), Some(y)) => {
                    pattern_swaps(r, *x, *y);
                    list_pattern_swaps(r, s@, t@, lowered_pattern(*x));
                },
                _ => {
                    list_pattern_swaps(r, s@, t@, Pat::Nil);
                },
            }
        },
        (Pattern::Constructor(c, s), Pattern::Constructor(d, t)) => {
            patterns_swap(r, s@, t@);
            let tag = shape::patom(crate::lower::snake_case(c.name@));
            let all = seq![tag] + lowered_patterns(s@);
            pats_len(w, lowered_patterns(s@));
            pats_len(w, all);
            assert(swap_pat(w, tag) == tag);
            assert(swap_pats(w, all) =~= seq![tag] + swap_pats(w, lowered_patterns(s@)));
        },
        (Pattern::Record(s), Pattern::Record(t)) => {
            field_patterns_swap(r, s@, t@);
        },
        (Pattern::BitString(s), Pattern::BitString(t)) => {
            segment_patterns_swap(r, s@, t@, s@.len());
            twin_segment_patterns_len(r, s@, t@);
        },
        (Pattern::Or(a, b), Pattern::Or(c, d)) => {
            pattern_swaps(r, *a, *c);
        },
        _ => {},
    }
}

proof fn patterns_swap(r: Renaming, s: Seq<Pattern>, t: Seq<Pattern>)
    requires
        fair(r),
        twin_patterns(r, s, t),
    ensures
        lowered_patterns(t) == swap_pats(exchange(r), lowered_patterns(s)),
    decreases s,
{
    if s.len() > 0 {
        patterns_swap(r, s.drop_last(), t.drop_last());
        pattern_swaps(r, s.last(), t.last());
        assert(lowered_patterns(s).drop_last() =~= lowered_patterns(s.drop_last()));
    }
}

proof fn list_pattern_swaps(r: Renaming, s: Seq<Pattern>, t: Seq<Pattern>, end: Pat)
    requires
        fair(r),
        twin_patterns(r, s, t),
    ensures
        list_pattern(t, swap_pat(exchange(r), end)) == swap_pat(exchange(r), list_pattern(s, end)),
    decreases s,
{
    if s.len() > 0 {
        pattern_swaps(r, s.last(), t.last());
        let next = Pat::Cons(Box::new(lowered_pattern(s.last())), Box::new(end));
        list_pattern_swaps(r, s.drop_last(), t.drop_last(), next);
    }
}

proof fn field_patterns_swap(r: Renaming, s: Seq<(String, Pattern)>, t: Seq<(String, Pattern)>)
    requires
        fair(r),
        twin_field_patterns(r, s, t),
    ensures
        lowered_field_patterns(t) == swap_pats(exchange(r), lowered_field_patterns(s)),
    decreases s,
{
    if s.len() > 0 {
        let w = exchange(r);
        field_patterns_swap(r, s.drop_last(), t.drop_last());
        pattern_swaps(r, s.last().1, t.last().1);
        patom_swaps(w, s.last().0@);
        ptup2_swaps(w, shape::patom(s.last().0@), lowered_pattern(s.last().1));
        assert(lowered_field_patterns(s).drop_last() =~= lowered_field_patterns(s.drop_last()));
    }
}

/// A pattern and its twin are of one kind.
proof fn pattern_kind_stays(r: Renaming, p: Pattern, q: Pattern)
    requires
        twin_pattern(r, p, q),
    ensures
        p is Var == q is Var,
        p is Wildcard == q is Wildcard,
        p is String == q is String,
        p is BitString == q is BitString,
{
}

/// An expression and its twin are of one kind.
proof fn kind_stays(r: Renaming, e: Expr, f: Expr)
    requires
        twin(r, e, f),
    ensures
        e is String == f is String,
        e is InterpolatedString == f is InterpolatedString,
        e is BitString == f is BitString,
{
}

/// A segment of a bit string pattern.
spec fn segment_of(s: BitStringPatternSegment, last: bool) -> PatSegment {
    let kind = crate::lower::pattern_kind(s, last);
    PatSegment {
        pattern: lowered_pattern(s.value),
        size: crate::lower::size_of(s.size, kind),
        kind,
    }
}

proof fn segment_pattern_swaps(
    r: Renaming,
    s: BitStringPatternSegment,
    t: BitStringPatternSegment,
    last: bool,
)
    requires
        fair(r),
        s.size == t.size,
        s.specifier == t.specifier,
        twin_pattern(r, s.value, t.value),
        lowered_pattern(t.value) == swap_pat(exchange(r), lowered_pattern(s.value)),
    ensures
        segment_of(t, last) == (PatSegment {
            pattern: swap_pat(exchange(r), segment_of(s, last).pattern),
            size: segment_of(s, last).size,
            kind: segment_of(s, last).kind,
        }),
{
    pattern_kind_stays(r, s.value, t.value);
}

proof fn segment_patterns_swap(
    r: Renaming,
    s: Seq<BitStringPatternSegment>,
    t: Seq<BitStringPatternSegment>,
    total: nat,
)
    requires
        fair(r),
        twin_segment_patterns(r, s, t),
    ensures
        lowered_segment_patterns(t, total) == swap_pat_segments(
            exchange(r),
            lowered_segment_patterns(s, total),
        ),
    decreases s,
{
    if s.len() > 0 {
        segment_patterns_swap(r, s.drop_last(), t.drop_last(), total);
        pattern_swaps(r, s.last().value, t.last().value);
        segment_pattern_swaps(r, s.last(), t.last(), s.len() == total);
        assert(lowered_segment_patterns(s, total).drop_last() =~= lowered_segment_patterns(
            s.drop_last(),
            total,
        ));
    }
}

/// A part of a block after the exchange.
spec fn swap_part(w: Swap, p: Part) -> Part {
    match p {
        Part::Simple(x, e) => Part::Simple(swap_name(w, x), swap_core(w, e)),
        Part::Destructure(p, e) => Part::Destructure(swap_pat(w, p), swap_core(w, e)),
    }
}

spec fn swap_lets(w: Swap, s: Seq<Part>) -> Seq<Part> {
    Seq::new(s.len(), |i: int| swap_part(w, s[i]))
}

proof fn wrapped_swaps(w: Swap, parts: Seq<Part>, body: Core)
    ensures
        wrapped(swap_lets(w, parts), swap_core(w, body)) == swap_core(w, wrapped(parts, body)),
    decreases parts.len(),
{
    if parts.len() > 0 {
        assert(swap_lets(w, parts).drop_last() =~= swap_lets(w, parts.drop_last()));
        match parts.last() {
            Part::Simple(x, e) => {
                let1_swaps(w, x, e, body);
                wrapped_swaps(w, parts.drop_last(), shape::let1(x, e, body));
            },
            Part::Destructure(p, e) => {
                when_swaps(w, p, body);
                case1_swaps(w, e, shape::when(p, body));
                wrapped_swaps(
                    w,
                    parts.drop_last(),
                    shape::case1(e, shape::when(p, body)),
                );
            },
        }
    }
}

proof fn generator_parts(r: Renaming, p: Generator, q: Generator)
    requires
        twin_generator(r, p, q),
    ensures
        twin_pattern(r, p.pattern, q.pattern),
        twin(r, p.source, q.source),
        p.pattern is Var == q.pattern is Var,
        p.pattern is Var ==> same_name(r, p.pattern->Var_0@, q.pattern->Var_0@),
{
    generator_pattern(r, p.pattern, q.pattern);
}

proof fn generator_pattern(r: Renaming, p: Pattern, q: Pattern)
    requires
        twin_pattern(r, p, q),
    ensures
        p is Var == q is Var,
        p is Var ==> same_name(r, p->Var_0@, q->Var_0@),
{
}

proof fn twin_generators_at(r: Renaming, s: Seq<Generator>, t: Seq<Generator>, i: int)
    requires
        twin_generators(r, s, t),
        0 <= i < s.len(),
    ensures
        s.len() == t.len(),
        twin_generator(r, s[i], t[i]),
    decreases s.len(),
{
    if i < s.len() - 1 {
        twin_generators_at(r, s.drop_last(), t.drop_last(), i);
    }
}

proof fn lowered_all_len(s: Seq<Expr>, t: SymbolTable, n: nat)
    ensures
        lowered_all(s, t, n).0.len() == s.len(),
    decreases s.len(),
{
    if s.len() > 0 {
        lowered_all_len(s.drop_last(), t, n);
    }
}

/// A call by name after the exchange.
proof fn direct_call_swaps(
    r: Renaming,
    e: Expr,
    f: Expr,
    t: SymbolTable,
    u: SymbolTable,
    args: Seq<Core>,
    n: nat,
)
    requires
        fair(r),
        twin(r, e, f),
        same_callee(e, f, args.len()),
        twin_tables(r, t, u),
    ensures
        direct_call(f, u, swap_cores(exchange(r), args), n) == swap_result(
            exchange(r),
            direct_call(e, t, args, n),
        ),
{
    let w = exchange(r);
    cores_len(w, args);
    match (e, f) {
        (Expr::Var(x), Expr::Var(y)) => {
            builtin_swaps(w, x@, args, n);
            assert(linked(u, y@, args.len()) == linked(t, x@, args.len()));
            if x@ != y@ {
                assert(builtin(x@, args, n) is None);
                assert(builtin(y@, swap_cores(w, args), n) is None);
            }
        },
        (Expr::Path(p), Expr::Path(q)) => {
            assert(path_parts(p) =~= path_parts(q));
            assert(texts(p.qualifiers@).len() == texts(q.qualifiers@).len());
            let tag = shape::atom(crate::lower::snake_case(p.name@));
            cores_concat(w, seq![tag], args);
            cores_len(w, seq![tag]);
            atom_swaps(w, crate::lower::snake_case(p.name@));
            assert(swap_cores(w, seq![tag]) =~= seq![tag]);
        },
        _ => {},
    }
}

proof fn pipe_target_stays(r: Renaming, e: Expr, f: Expr, t: SymbolTable, u: SymbolTable)
    requires
        fair(r),
        twin(r, e, f),
        same_target(e, f),
        twin_tables(r, t, u),
    ensures
        pipe_target(f, u) == pipe_target(e, t),
{
    match (e, f) {
        (Expr::Var(x), Expr::Var(y)) => {
            assert(linked(u, y@, 1) == linked(t, x@, 1));
        },
        _ => {},
    }
}

/// The translation of an expression after the exchange is its translation,
/// with the two variables exchanged.
pub proof fn translation_swaps(r: Renaming, e: Expr, f: Expr, t: SymbolTable, u: SymbolTable, n: nat)
    requires
        fair(r),
        twin(r, e, f),
        twin_tables(r, t, u),
    ensures
        lowered(f, u, n) == (swap_core(exchange(r), lowered(e, t, n).0), lowered(e, t, n).1),
    decreases e, 2nat, 0nat,
{
    match e {
        Expr::String(..) => {
            case_string(r, e, f, t, u, n);
        },
        Expr::InterpolatedString(..) => {
            case_interpolated_string(r, e, f, t, u, n);
        },
        Expr::Var(..) => {
            case_var(r, e, f, t, u, n);
        },
        Expr::Tuple(..) => {
            case_tuple(r, e, f, t, u, n);
        },
        Expr::List(..) => {
            case_list(r, e, f, t, u, n);
        },
        Expr::MapLit(..) => {
            case_map_lit(r, e, f, t, u, n);
        },
        Expr::Range(..) => {
            case_range(r, e, f, t, u, n);
        },
        Expr::ListComp { .. } => {
            case_list_comp(r, e, f, t, u, n);
        },
        Expr::Binary(..) => {
            case_binary(r, e, f, t, u, n);
        },
        Expr::Unary(..) => {
            case_unary(r, e, f, t, u, n);
        },
        Expr::Cond(..) => {
            case_cond(r, e, f, t, u, n);
        },
        Expr::If(..) => {
            case_if(r, e, f, t, u, n);
        },
        Expr::Match(..) => {
            case_match(r, e, f, t, u, n);
        },
        Expr::Block(..) => {
            case_block(r, e, f, t, u, n);
        },
        Expr::Call(..) => {
            case_call(r, e, f, t, u, n);
        },
        Expr::Lambda(..) => {
            case_lambda(r, e, f, t, u, n);
        },
        Expr::Spawn(..) => {
            case_spawn(r, e, f, t, u, n);
        },
        Expr::Send(..) => {
            case_send(r, e, f, t, u, n);
        },
        Expr::Receive { .. } => {
            case_receive(r, e, f, t, u, n);
        },
        Expr::SelfPid => {
            case_self_pid(r, e, f, t, u, n);
        },
        Expr::Try { .. } => {
            try_swaps(r, e, f, t, u, n);
        },
        Expr::Return(..) => {
            case_return(r, e, f, t, u, n);
        },
        Expr::Index(..) => {
            case_index(r, e, f, t, u, n);
        },
        Expr::Field(..) => {
            case_field(r, e, f, t, u, n);
        },
        Expr::Path(..) => {
            case_path(r, e, f, t, u, n);
        },
        Expr::MethodCall(..) => {
            case_method_call(r, e, f, t, u, n);
        },
        Expr::BitString(..) => {
            case_bit_string(r, e, f, t, u, n);
        },
        Expr::StructInit(..) => {
            case_struct_init(r, e, f, t, u, n);
        },
        Expr::Record(..) => {
            case_record(r, e, f, t, u, n);
        },
        _ => {
            case_plain(r, e, f, t, u, n);
        },
    }
}

proof fn case_plain(r: Renaming, e: Expr, f: Expr, t: SymbolTable, u: SymbolTable, n: nat)
    requires
        fair(r),
        twin(r, e, f),
        e is Int || e is Float || e is Char || e is Bool || e is Atom || e is Unit,
        twin_tables(r, t, u),
    ensures
        lowered(f, u, n) == (swap_core(exchange(r), lowered(e, t, n).0), lowered(e, t, n).1),
    decreases e, 1nat, 0nat,
{
}

proof fn case_string(r: Renaming, e: Expr, f: Expr, t: SymbolTable, u: SymbolTable, n: nat)
    requires
        fair(r),
        twin(r, e, f),
        e is String,
        twin_tables(r, t, u),
    ensures
        lowered(f, u, n) == (swap_core(exchange(r), lowered(e, t, n).0), lowered(e, t, n).1),
    decreases e, 1nat, 0nat,
{
    let w = exchange(r);
    match (e, f) {
        (Expr::String(a), Expr::String(b)) => {
            binary_text_swaps(w, a@);
        },
        _ => {},
    }
}

proof fn case_interpolated_string(r: Renaming, e: Expr, f: Expr, t: SymbolTable, u: SymbolTable, n: nat)
    requires
        fair(r),
        twin(r, e, f),
        e is InterpolatedString,
        twin_tables(r, t, u),
    ensures
        lowered(f, u, n) == (swap_core(exchange(r), lowered(e, t, n).0), lowered(e, t, n).1),
    decreases e, 1nat, 0nat,
{
    let w = exchange(r);
    match (e, f) {
        (Expr::InterpolatedString(a), Expr::InterpolatedString(b)) => {
            parts_swap(r, a@, b@, t, u, n);
            let (format, args, n1) = lowered_parts(a@, t, n);
            string_swaps(w, format);
            listed_swaps(w, args);
            let inner = shape::call2(
                "io_lib"@,
                "format"@,
                shape::string(format),
                shape::listed(args),
            );
            call2_swaps(w, "io_lib"@, "format"@, shape::string(format), shape::listed(args));
            call1_swaps(w, "erlang"@, "iolist_to_binary"@, inner);
        },
        _ => {},
    }
}

proof fn case_var(r: Renaming, e: Expr, f: Expr, t: SymbolTable, u: SymbolTable, n: nat)
    requires
        fair(r),
        twin(r, e, f),
        e is Var,
        twin_tables(r, t, u),
    ensures
        lowered(f, u, n) == (swap_core(exchange(r), lowered(e, t, n).0), lowered(e, t, n).1),
    decreases e, 1nat, 0nat,
{
    let w = exchange(r);
    match (e, f) {
        (Expr::Var(x), Expr::Var(y)) => {
            variable_swaps(r, x@, y@);
        },
        _ => {},
    }
}

proof fn case_tuple(r: Renaming, e: Expr, f: Expr, t: SymbolTable, u: SymbolTable, n: nat)
    requires
        fair(r),
        twin(r, e, f),
        e is Tuple,
        twin_tables(r, t, u),
    ensures
        lowered(f, u, n) == (swap_core(exchange(r), lowered(e, t, n).0), lowered(e, t, n).1),
    decreases e, 1nat, 0nat,
{
    let w = exchange(r);
    match (e, f) {
        (Expr::Tuple(a), Expr::Tuple(b)) => {
            all_swap(r, a@, b@, t, u, n);
        },
        _ => {},
    }
}

proof fn case_list(r: Renaming, e: Expr, f: Expr, t: SymbolTable, u: SymbolTable, n: nat)
    requires
        fair(r),
        twin(r, e, f),
        e is List,
        twin_tables(r, t, u),
    ensures
        lowered(f, u, n) == (swap_core(exchange(r), lowered(e, t, n).0), lowered(e, t, n).1),
    decreases e, 1nat, 0nat,
{
    let w = exchange(r);
    match (e, f) {
        (Expr::List(a, x), Expr::List(b, y)) => {
            all_swap(r, a@, b@, t, u, n);
            let (v, n1) = lowered_all(a@, t, n);
            match (x, y) {
                (Some(x), Some(y)) => {
                    translation_swaps(r, *x, *y, t, u, n1);
                    listed_onto_swaps(w, v, lowered(*x, t, n1).0);
                },
                _ => {
                    nil_swaps(w);
                    listed_onto_swaps(w, v, shape::nil());
                },
            }
        },
        _ => {},
    }
}

proof fn case_map_lit(r: Renaming, e: Expr, f: Expr, t: SymbolTable, u: SymbolTable, n: nat)
    requires
        fair(r),
        twin(r, e, f),
        e is MapLit,
        twin_tables(r, t, u),
    ensures
        lowered(f, u, n) == (swap_core(exchange(r), lowered(e, t, n).0), lowered(e, t, n).1),
    decreases e, 1nat, 0nat,
{
    let w = exchange(r);
    match (e, f) {
        (Expr::MapLit(a), Expr::MapLit(b)) => {
            entries_swap(r, a@, b@, t, u, n);
        },
        _ => {},
    }
}

proof fn case_range(r: Renaming, e: Expr, f: Expr, t: SymbolTable, u: SymbolTable, n: nat)
    requires
        fair(r),
        twin(r, e, f),
        e is Range,
        twin_tables(r, t, u),
    ensures
        lowered(f, u, n) == (swap_core(exchange(r), lowered(e, t, n).0), lowered(e, t, n).1),
    decreases e, 1nat, 0nat,
{
    let w = exchange(r);
    match (e, f) {
        (Expr::Range(a, b, i), Expr::Range(c, d, j)) => {
            translation_swaps(r, *a, *c, t, u, n);
            let (x, n1) = lowered(*a, t, n);
            translation_swaps(r, *b, *d, t, u, n1);
            let y = lowered(*b, t, n1).0;
            num_swaps(w, 1);
            call2_swaps(w, "erlang"@, "-"@, y, shape::num(1));
            let last = if i {
                y
            } else {
                shape::call2("erlang"@, "-"@, y, shape::num(1))
            };
            call2_swaps(w, "lists"@, "seq"@, x, last);
        },
        _ => {},
    }
}

proof fn case_list_comp(r: Renaming, e: Expr, f: Expr, t: SymbolTable, u: SymbolTable, n: nat)
    requires
        fair(r),
        twin(r, e, f),
        e is ListComp,
        twin_tables(r, t, u),
    ensures
        lowered(f, u, n) == (swap_core(exchange(r), lowered(e, t, n).0), lowered(e, t, n).1),
    decreases e, 1nat, 0nat,
{
    let w = exchange(r);
    match (e, f) {
        (
            Expr::ListComp { expr: x, generators: g, filters: c },
            Expr::ListComp { expr: y, generators: h, filters: d },
        ) => {
            twin_generators_len(r, g@, h@);
            if g@.len() == 0 {
                translation_swaps(r, *x, *y, t, u, n);
                nil_swaps(w);
                cons_swaps(w, lowered(*x, t, n).0, shape::nil());
            } else {
                comp_swaps(r, e, f, t, u, 0, false, n);
            }
        },
        _ => {},
    }
}

proof fn case_binary(r: Renaming, e: Expr, f: Expr, t: SymbolTable, u: SymbolTable, n: nat)
    requires
        fair(r),
        twin(r, e, f),
        e is Binary,
        twin_tables(r, t, u),
    ensures
        lowered(f, u, n) == (swap_core(exchange(r), lowered(e, t, n).0), lowered(e, t, n).1),
    decreases e, 1nat, 0nat,
{
    let w = exchange(r);
    match (e, f) {
        (Expr::Binary(a, o, b), Expr::Binary(c, p, d)) => {
            translation_swaps(r, *a, *c, t, u, n);
            let (x, n1) = lowered(*a, t, n);
            translation_swaps(r, *b, *d, t, u, n1);
            let (y, n2) = lowered(*b, t, n1);
            match o {
                BinOp::Concat => {
                    concat_shape_swaps(w, x, y, n2);
                },
                BinOp::Pipe => {
                    pipe_target_stays(r, *b, *d, t, u);
                    apply1_swaps(w, y, x);
                    match pipe_target(*b, t) {
                        Some((m, g)) => {
                            call1_swaps(w, m, g, x);
                        },
                        None => {},
                    }
                },
                _ => {
                    call2_swaps(w, "erlang"@, erlang_op(o), x, y);
                },
            }
        },
        _ => {},
    }
}

proof fn case_unary(r: Renaming, e: Expr, f: Expr, t: SymbolTable, u: SymbolTable, n: nat)
    requires
        fair(r),
        twin(r, e, f),
        e is Unary,
        twin_tables(r, t, u),
    ensures
        lowered(f, u, n) == (swap_core(exchange(r), lowered(e, t, n).0), lowered(e, t, n).1),
    decreases e, 1nat, 0nat,
{
    let w = exchange(r);
    match (e, f) {
        (Expr::Unary(o, a), Expr::Unary(p, b)) => {
            translation_swaps(r, *a, *b, t, u, n);
            let x = lowered(*a, t, n).0;
            call1_swaps(w, "erlang"@, "-"@, x);
            call1_swaps(w, "erlang"@, "not"@, x);
        },
        _ => {},
    }
}

proof fn case_cond(r: Renaming, e: Expr, f: Expr, t: SymbolTable, u: SymbolTable, n: nat)
    requires
        fair(r),
        twin(r, e, f),
        e is Cond,
        twin_tables(r, t, u),
    ensures
        lowered(f, u, n) == (swap_core(exchange(r), lowered(e, t, n).0), lowered(e, t, n).1),
    decreases e, 1nat, 0nat,
{
    let w = exchange(r);
    match (e, f) {
        (Expr::Cond(a), Expr::Cond(b)) => {
            twin_pairs_len(r, a@, b@);
            if a@.len() > 0 {
                atom_swaps(w, "nil"@);
                cond_swaps(r, a@, b@, t, u, shape::atom("nil"@), n);
            }
        },
        _ => {},
    }
}

proof fn case_if(r: Renaming, e: Expr, f: Expr, t: SymbolTable, u: SymbolTable, n: nat)
    requires
        fair(r),
        twin(r, e, f),
        e is If,
        twin_tables(r, t, u),
    ensures
        lowered(f, u, n) == (swap_core(exchange(r), lowered(e, t, n).0), lowered(e, t, n).1),
    decreases e, 1nat, 0nat,
{
    let w = exchange(r);
    match (e, f) {
        (Expr::If(c, x, y), Expr::If(d, z, v)) => {
            translation_swaps(r, *c, *d, t, u, n);
            let (a, n1) = lowered(*c, t, n);
            translation_swaps(r, *x, *z, t, u, n1);
            let (b, n2) = lowered(*x, t, n1);
            match (y, v) {
                (Some(y), Some(v)) => {
                    translation_swaps(r, *y, *v, t, u, n2);
                    if_else_swaps(w, a, b, lowered(*y, t, n2).0);
                },
                _ => {
                    atom_swaps(w, "ok"@);
                    if_else_swaps(w, a, b, shape::atom("ok"@));
                },
            }
        },
        _ => {},
    }
}

proof fn case_match(r: Renaming, e: Expr, f: Expr, t: SymbolTable, u: SymbolTable, n: nat)
    requires
        fair(r),
        twin(r, e, f),
        e is Match,
        twin_tables(r, t, u),
    ensures
        lowered(f, u, n) == (swap_core(exchange(r), lowered(e, t, n).0), lowered(e, t, n).1),
    decreases e, 1nat, 0nat,
{
    let w = exchange(r);
    match (e, f) {
        (Expr::Match(x, a), Expr::Match(y, b)) => {
            translation_swaps(r, *x, *y, t, u, n);
            arms_swap(r, a@, b@, t, u, lowered(*x, t, n).1);
        },
        _ => {},
    }
}

proof fn case_block(r: Renaming, e: Expr, f: Expr, t: SymbolTable, u: SymbolTable, n: nat)
    requires
        fair(r),
        twin(r, e, f),
        e is Block,
        twin_tables(r, t, u),
    ensures
        lowered(f, u, n) == (swap_core(exchange(r), lowered(e, t, n).0), lowered(e, t, n).1),
    decreases e, 1nat, 0nat,
{
    let w = exchange(r);
    match (e, f) {
        (Expr::Block(a, x), Expr::Block(b, y)) => {
            stmts_swap(r, a@, b@, t, u, n);
            let (parts, n1) = lowered_stmts(a@, t, n);
            match (x, y) {
                (Some(x), Some(y)) => {
                    translation_swaps(r, *x, *y, t, u, n1);
                    wrapped_swaps(w, parts, lowered(*x, t, n1).0);
                },
                _ => {
                    atom_swaps(w, "ok"@);
                    wrapped_swaps(w, parts, shape::atom("ok"@));
                },
            }
        },
        _ => {},
    }
}

proof fn case_call(r: Renaming, e: Expr, f: Expr, t: SymbolTable, u: SymbolTable, n: nat)
    requires
        fair(r),
        twin(r, e, f),
        e is Call,
        twin_tables(r, t, u),
    ensures
        lowered(f, u, n) == (swap_core(exchange(r), lowered(e, t, n).0), lowered(e, t, n).1),
    decreases e, 1nat, 0nat,
{
    let w = exchange(r);
    match (e, f) {
        (Expr::Call(x, a), Expr::Call(y, b)) => {
            all_swap(r, a@, b@, t, u, n);
            let (v, n1) = lowered_all(a@, t, n);
            lowered_all_len(a@, t, n);
            direct_call_swaps(r, *x, *y, t, u, v, n1);
            translation_swaps(r, *x, *y, t, u, n1);
        },
        _ => {},
    }
}

proof fn case_lambda(r: Renaming, e: Expr, f: Expr, t: SymbolTable, u: SymbolTable, n: nat)
    requires
        fair(r),
        twin(r, e, f),
        e is Lambda,
        twin_tables(r, t, u),
    ensures
        lowered(f, u, n) == (swap_core(exchange(r), lowered(e, t, n).0), lowered(e, t, n).1),
    decreases e, 1nat, 0nat,
{
    let w = exchange(r);
    match (e, f) {
        (Expr::Lambda(a, x), Expr::Lambda(b, y)) => {
            params_swap(r, a@, b@);
            translation_swaps(r, *x, *y, t, u, n);
        },
        _ => {},
    }
}

proof fn case_spawn(r: Renaming, e: Expr, f: Expr, t: SymbolTable, u: SymbolTable, n: nat)
    requires
        fair(r),
        twin(r, e, f),
        e is Spawn,
        twin_tables(r, t, u),
    ensures
        lowered(f, u, n) == (swap_core(exchange(r), lowered(e, t, n).0), lowered(e, t, n).1),
    decreases e, 1nat, 0nat,
{
    let w = exchange(r);
    match (e, f) {
        (Expr::Spawn(a), Expr::Spawn(b)) => {
            translation_swaps(r, *a, *b, t, u, n);
            call1_swaps(w, "erlang"@, "spawn"@, lowered(*a, t, n).0);
        },
        _ => {},
    }
}

proof fn case_send(r: Renaming, e: Expr, f: Expr, t: SymbolTable, u: SymbolTable, n: nat)
    requires
        fair(r),
        twin(r, e, f),
        e is Send,
        twin_tables(r, t, u),
    ensures
        lowered(f, u, n) == (swap_core(exchange(r), lowered(e, t, n).0), lowered(e, t, n).1),
    decreases e, 1nat, 0nat,
{
    let w = exchange(r);
    match (e, f) {
        (Expr::Send(a, b), Expr::Send(c, d)) => {
            translation_swaps(r, *a, *c, t, u, n);
            let (x, n1) = lowered(*a, t, n);
            translation_swaps(r, *b, *d, t, u, n1);
            call2_swaps(w, "erlang"@, "send"@, x, lowered(*b, t, n1).0);
        },
        _ => {},
    }
}

proof fn case_receive(r: Renaming, e: Expr, f: Expr, t: SymbolTable, u: SymbolTable, n: nat)
    requires
        fair(r),
        twin(r, e, f),
        e is Receive,
        twin_tables(r, t, u),
    ensures
        lowered(f, u, n) == (swap_core(exchange(r), lowered(e, t, n).0), lowered(e, t, n).1),
    decreases e, 1nat, 0nat,
{
    let w = exchange(r);
    match (e, f) {
        (Expr::Receive { arms: a, timeout: x }, Expr::Receive { arms: b, timeout: y }) => {
            arms_swap(r, a@, b@, t, u, n);
            let n1 = lowered_arms(a@, t, n).1;
            match (x, y) {
                (Some((c, d)), Some((g, h))) => {
                    translation_swaps(r, *c, *g, t, u, n1);
                    translation_swaps(r, *d, *h, t, u, lowered(*c, t, n1).1);
                },
                _ => {},
            }
        },
        _ => {},
    }
}

proof fn case_self_pid(r: Renaming, e: Expr, f: Expr, t: SymbolTable, u: SymbolTable, n: nat)
    requires
        fair(r),
        twin(r, e, f),
        e is SelfPid,
        twin_tables(r, t, u),
    ensures
        lowered(f, u, n) == (swap_core(exchange(r), lowered(e, t, n).0), lowered(e, t, n).1),
    decreases e, 1nat, 0nat,
{
    let w = exchange(r);
    match (e, f) {
        (Expr::SelfPid, Expr::SelfPid) => {
            call0_swaps(w, "erlang"@, "self"@);
        },
        _ => {},
    }
}

proof fn case_return(r: Renaming, e: Expr, f: Expr, t: SymbolTable, u: SymbolTable, n: nat)
    requires
        fair(r),
        twin(r, e, f),
        e is Return,
        twin_tables(r, t, u),
    ensures
        lowered(f, u, n) == (swap_core(exchange(r), lowered(e, t, n).0), lowered(e, t, n).1),
    decreases e, 1nat, 0nat,
{
    let w = exchange(r);
    match (e, f) {
        (Expr::Return(x), Expr::Return(y)) => {
            match (x, y) {
                (Some(x), Some(y)) => {
                    translation_swaps(r, *x, *y, t, u, n);
                },
                _ => {},
            }
        },
        _ => {},
    }
}

proof fn case_index(r: Renaming, e: Expr, f: Expr, t: SymbolTable, u: SymbolTable, n: nat)
    requires
        fair(r),
        twin(r, e, f),
        e is Index,
        twin_tables(r, t, u),
    ensures
        lowered(f, u, n) == (swap_core(exchange(r), lowered(e, t, n).0), lowered(e, t, n).1),
    decreases e, 1nat, 0nat,
{
    let w = exchange(r);
    match (e, f) {
        (Expr::Index(a, b), Expr::Index(c, d)) => {
            translation_swaps(r, *a, *c, t, u, n);
            let (x, n1) = lowered(*a, t, n);
            translation_swaps(r, *b, *d, t, u, n1);
            call2_swaps(w, "maps"@, "get"@, lowered(*b, t, n1).0, x);
        },
        _ => {},
    }
}

proof fn case_field(r: Renaming, e: Expr, f: Expr, t: SymbolTable, u: SymbolTable, n: nat)
    requires
        fair(r),
        twin(r, e, f),
        e is Field,
        twin_tables(r, t, u),
    ensures
        lowered(f, u, n) == (swap_core(exchange(r), lowered(e, t, n).0), lowered(e, t, n).1),
    decreases e, 1nat, 0nat,
{
    let w = exchange(r);
    match (e, f) {
        (Expr::Field(a, x), Expr::Field(b, y)) => {
            translation_swaps(r, *a, *b, t, u, n);
            atom_swaps(w, x@);
            call2_swaps(w, "maps"@, "get"@, shape::atom(x@), lowered(*a, t, n).0);
        },
        _ => {},
    }
}

proof fn case_path(r: Renaming, e: Expr, f: Expr, t: SymbolTable, u: SymbolTable, n: nat)
    requires
        fair(r),
        twin(r, e, f),
        e is Path,
        twin_tables(r, t, u),
    ensures
        lowered(f, u, n) == (swap_core(exchange(r), lowered(e, t, n).0), lowered(e, t, n).1),
    decreases e, 1nat, 0nat,
{
    let w = exchange(r);
    match (e, f) {
        (Expr::Path(p), Expr::Path(q)) => {
            assert(texts(p.qualifiers@).len() == texts(q.qualifiers@).len());
            let tag = shape::atom(crate::lower::snake_case(p.name@));
            atom_swaps(w, crate::lower::snake_case(p.name@));
            tup1_swaps(w, tag);
        },
        _ => {},
    }
}

proof fn case_method_call(r: Renaming, e: Expr, f: Expr, t: SymbolTable, u: SymbolTable, n: nat)
    requires
        fair(r),
        twin(r, e, f),
        e is MethodCall,
        twin_tables(r, t, u),
    ensures
        lowered(f, u, n) == (swap_core(exchange(r), lowered(e, t, n).0), lowered(e, t, n).1),
    decreases e, 1nat, 0nat,
{
    let w = exchange(r);
    match (e, f) {
        (Expr::MethodCall(x, m, a), Expr::MethodCall(y, k, b)) => {
            translation_swaps(r, *x, *y, t, u, n);
            let (o, n1) = lowered(*x, t, n);
            all_swap(r, a@, b@, t, u, n1);
            let v = lowered_all(a@, t, n1).0;
            let all = seq![o] + v;
            cores_concat(w, seq![o], v);
            cores_len(w, seq![o]);
            cores_len(w, all);
            assert(swap_cores(w, seq![o]) =~= seq![swap_core(w, o)]);
            let name = method_var(m@, all.len());
            reveal_strlit("'");
            assert(name[0] == '\'');
            quoted_stays(w, name);
            var_swaps(w, name);
        },
        _ => {},
    }
}

proof fn case_bit_string(r: Renaming, e: Expr, f: Expr, t: SymbolTable, u: SymbolTable, n: nat)
    requires
        fair(r),
        twin(r, e, f),
        e is BitString,
        twin_tables(r, t, u),
    ensures
        lowered(f, u, n) == (swap_core(exchange(r), lowered(e, t, n).0), lowered(e, t, n).1),
    decreases e, 1nat, 0nat,
{
    let w = exchange(r);
    match (e, f) {
        (Expr::BitString(a), Expr::BitString(b)) => {
            segments_swap(r, a@, b@, t, u, n);
        },
        _ => {},
    }
}

proof fn case_struct_init(r: Renaming, e: Expr, f: Expr, t: SymbolTable, u: SymbolTable, n: nat)
    requires
        fair(r),
        twin(r, e, f),
        e is StructInit,
        twin_tables(r, t, u),
    ensures
        lowered(f, u, n) == (swap_core(exchange(r), lowered(e, t, n).0), lowered(e, t, n).1),
    decreases e, 1nat, 0nat,
{
    let w = exchange(r);
    match (e, f) {
        (Expr::StructInit(x, a), Expr::StructInit(y, b)) => {
            fields_swap(r, a@, b@, t, u, n);
        },
        _ => {},
    }
}

proof fn case_record(r: Renaming, e: Expr, f: Expr, t: SymbolTable, u: SymbolTable, n: nat)
    requires
        fair(r),
        twin(r, e, f),
        e is Record,
        twin_tables(r, t, u),
    ensures
        lowered(f, u, n) == (swap_core(exchange(r), lowered(e, t, n).0), lowered(e, t, n).1),
    decreases e, 1nat, 0nat,
{
    let w = exchange(r);
    match (e, f) {
        (Expr::Record(a), Expr::Record(b)) => {
            record_swaps(r, a@, b@, t, u, n);
            let v = lowered_record(a@, t, n).0;
            listed_swaps(w, v);
            call1_swaps(w, "maps"@, "from_list"@, shape::listed(v));
        },
        _ => {},
    }
}

/// The clauses behind a `try`, and the next free variable.
spec fn catch_of(a: Seq<CatchArm>, t: SymbolTable, n1: nat) -> (Core, nat) {
    let class = fresh_name(n1 + 1);
    let reason = fresh_name(n1 + 2);
    let stack = fresh_name(n1 + 3);
    if a.len() == 0 {
        (shape::raise(stack, reason), n1 + 4)
    } else {
        let (v, n2) = lowered_catch_arms(a, t, n1 + 4);
        (
            Core::Case(
                Box::new(shape::tup2(shape::var(class), shape::var(reason))),
                v.push(
                    shape::when(
                        shape::ptup2(shape::pvar("_Class"@), shape::pvar("_Reason"@)),
                        shape::raise(stack, reason),
                    ),
                ),
            ),
            n2,
        )
    }
}

proof fn catch_swaps(r: Renaming, a: Seq<CatchArm>, b: Seq<CatchArm>, t: SymbolTable, u: SymbolTable, n: nat)
    requires
        fair(r),
        twin_catch_arms(r, a, b),
        twin_tables(r, t, u),
    ensures
        catch_of(b, u, n) == (swap_core(exchange(r), catch_of(a, t, n).0), catch_of(a, t, n).1),
    decreases a, 1nat, 0nat,
{
    let w = exchange(r);
    let class = fresh_name(n + 1);
    let reason = fresh_name(n + 2);
    let stack = fresh_name(n + 3);
    fresh_stays(w, n + 1);
    fresh_stays(w, n + 2);
    fresh_stays(w, n + 3);
    raise_swaps(w, stack, reason);
    twin_catch_arms_len(r, a, b);
    if a.len() > 0 {
        catch_arms_swap(r, a, b, t, u, n + 4);
        let v = lowered_catch_arms(a, t, n + 4).0;
        fixed_stay(w);
        var_swaps(w, class);
        var_swaps(w, reason);
        pvar_swaps(w, "_Class"@);
        pvar_swaps(w, "_Reason"@);
        ptup2_swaps(w, shape::pvar("_Class"@), shape::pvar("_Reason"@));
        let pattern = shape::ptup2(shape::pvar("_Class"@), shape::pvar("_Reason"@));
        when_swaps(w, pattern, shape::raise(stack, reason));
        tup2_swaps(w, shape::var(class), shape::var(reason));
        clauses_push(w, v, shape::when(pattern, shape::raise(stack, reason)));
    }
}

proof fn try_swaps(r: Renaming, e: Expr, f: Expr, t: SymbolTable, u: SymbolTable, n: nat)
    requires
        fair(r),
        twin(r, e, f),
        e is Try,
        twin_tables(r, t, u),
    ensures
        lowered(f, u, n) == (swap_core(exchange(r), lowered(e, t, n).0), lowered(e, t, n).1),
    decreases e, 1nat, 0nat,
{
    let w = exchange(r);
    match (e, f) {
        (Expr::Try { body: x, catch_arms: a }, Expr::Try { body: y, catch_arms: b }) => {
            translation_swaps(r, *x, *y, t, u, n);
            let (body, n1) = lowered(*x, t, n);
            let success = fresh_name(n1);
            fresh_stays(w, n1);
            fresh_stays(w, n1 + 1);
            fresh_stays(w, n1 + 2);
            fresh_stays(w, n1 + 3);
            var_swaps(w, success);
            catch_swaps(r, a@, b@, t, u, n1);
            try1_swaps(
                w,
                body,
                success,
                shape::var(success),
                fresh_name(n1 + 1),
                fresh_name(n1 + 2),
                fresh_name(n1 + 3),
                catch_of(a@, t, n1).0,
            );
        },
        _ => {},
    }
}

proof fn all_swap(r: Renaming, a: Seq<Expr>, b: Seq<Expr>, t: SymbolTable, u: SymbolTable, n: nat)
    requires
        fair(r),
        twin_all(r, a, b),
        twin_tables(r, t, u),
    ensures
        lowered_all(b, u, n) == (swap_cores(exchange(r), lowered_all(a, t, n).0), lowered_all(a, t, n).1),
    decreases a, 0nat, 0nat,
{
    if a.len() > 0 {
        let w = exchange(r);
        let front = a.drop_last();
        all_swap(r, front, b.drop_last(), t, u, n);
        let (v, n1) = lowered_all(front, t, n);
        translation_swaps(r, a.last(), b.last(), t, u, n1);
        cores_push(w, v, lowered(a.last(), t, n1).0);
    }
}

proof fn entries_swap(r: Renaming, a: Seq<(Expr, Expr)>, b: Seq<(Expr, Expr)>, t: SymbolTable,
    u: SymbolTable, n: nat)
    requires
        fair(r),
        twin_pairs(r, a, b),
        twin_tables(r, t, u),
    ensures
        lowered_entries(b, u, n)
            == (swap_entries(exchange(r), lowered_entries(a, t, n).0), lowered_entries(a, t, n).1),
    decreases a, 0nat, 0nat,
{
    if a.len() > 0 {
        let w = exchange(r);
        let front = a.drop_last();
        entries_swap(r, front, b.drop_last(), t, u, n);
        let (v, n1) = lowered_entries(front, t, n);
        translation_swaps(r, a.last().0, b.last().0, t, u, n1);
        let (x, n2) = lowered(a.last().0, t, n1);
        translation_swaps(r, a.last().1, b.last().1, t, u, n2);
        assert(v.push((x, lowered(a.last().1, t, n2).0)).drop_last() =~= v);
    }
}

proof fn fields_swap(r: Renaming, a: Seq<(String, Expr)>, b: Seq<(String, Expr)>, t: SymbolTable,
    u: SymbolTable, n: nat)
    requires
        fair(r),
        twin_fields(r, a, b),
        twin_tables(r, t, u),
    ensures
        lowered_fields(b, u, n)
            == (swap_entries(exchange(r), lowered_fields(a, t, n).0), lowered_fields(a, t, n).1),
    decreases a, 0nat, 0nat,
{
    if a.len() > 0 {
        let w = exchange(r);
        let front = a.drop_last();
        fields_swap(r, front, b.drop_last(), t, u, n);
        let (v, n1) = lowered_fields(front, t, n);
        translation_swaps(r, a.last().1, b.last().1, t, u, n1);
        atom_swaps(w, a.last().0@);
        assert(v.push((shape::atom(a.last().0@), lowered(a.last().1, t, n1).0)).drop_last() =~= v);
    }
}

proof fn record_swaps(r: Renaming, a: Seq<(String, Expr)>, b: Seq<(String, Expr)>, t: SymbolTable,
    u: SymbolTable, n: nat)
    requires
        fair(r),
        twin_fields(r, a, b),
        twin_tables(r, t, u),
    ensures
        lowered_record(b, u, n)
            == (swap_cores(exchange(r), lowered_record(a, t, n).0), lowered_record(a, t, n).1),
    decreases a, 0nat, 0nat,
{
    if a.len() > 0 {
        let w = exchange(r);
        let front = a.drop_last();
        record_swaps(r, front, b.drop_last(), t, u, n);
        let (v, n1) = lowered_record(front, t, n);
        translation_swaps(r, a.last().1, b.last().1, t, u, n1);
        let name = shape::atom(a.last().0@);
        atom_swaps(w, a.last().0@);
        cores_push(w, v, name);
        cores_push(w, v.push(name), lowered(a.last().1, t, n1).0);
    }
}

proof fn segments_swap(r: Renaming, a: Seq<BitStringSegment>, b: Seq<BitStringSegment>,
    t: SymbolTable, u: SymbolTable, n: nat)
    requires
        fair(r),
        twin_segments(r, a, b),
        twin_tables(r, t, u),
    ensures
        lowered_segments(b, u, n)
            == (swap_segments(exchange(r), lowered_segments(a, t, n).0),
            lowered_segments(a, t, n).1),
    decreases a, 0nat, 0nat,
{
    if a.len() > 0 {
        let w = exchange(r);
        let front = a.drop_last();
        segments_swap(r, front, b.drop_last(), t, u, n);
        let (v, n1) = lowered_segments(front, t, n);
        segment_swaps(r, a.last(), b.last(), t, u, n1);
        assert(v.push(lowered_segment(a.last(), t, n1).0).drop_last() =~= v);
    }
}

proof fn segment_swaps(r: Renaming, a: BitStringSegment, b: BitStringSegment, t: SymbolTable,
    u: SymbolTable, n: nat)
    requires
        fair(r),
        twin_segment(r, a, b),
        twin_tables(r, t, u),
    ensures
        lowered_segment(b, u, n) == (
            Segment {
                value: swap_core(exchange(r), lowered_segment(a, t, n).0.value),
                size: lowered_segment(a, t, n).0.size,
                kind: lowered_segment(a, t, n).0.kind,
            },
            lowered_segment(a, t, n).1,
        ),
    decreases a, 0nat, 0nat,
{
    translation_swaps(r, a.value, b.value, t, u, n);
    kind_stays(r, a.value, b.value);
}

proof fn arms_swap(r: Renaming, a: Seq<MatchArm>, b: Seq<MatchArm>, t: SymbolTable, u: SymbolTable, n: nat)
    requires
        fair(r),
        twin_arms(r, a, b),
        twin_tables(r, t, u),
    ensures
        lowered_arms(b, u, n) == (swap_clauses(exchange(r), lowered_arms(a, t, n).0), lowered_arms(a, t, n).1),
    decreases a, 0nat, 0nat,
{
    if a.len() > 0 {
        let w = exchange(r);
        let front = a.drop_last();
        arms_swap(r, front, b.drop_last(), t, u, n);
        let (v, n1) = lowered_arms(front, t, n);
        arm_swaps(r, a.last(), b.last(), t, u, n1);
        clauses_push(w, v, lowered_arm(a.last(), t, n1).0);
    }
}

proof fn catch_arms_swap(r: Renaming, a: Seq<CatchArm>, b: Seq<CatchArm>, t: SymbolTable,
    u: SymbolTable, n: nat)
    requires
        fair(r),
        twin_catch_arms(r, a, b),
        twin_tables(r, t, u),
    ensures
        lowered_catch_arms(b, u, n)
            == (swap_clauses(exchange(r), lowered_catch_arms(a, t, n).0),
            lowered_catch_arms(a, t, n).1),
    decreases a, 0nat, 0nat,
{
    if a.len() > 0 {
        let w = exchange(r);
        let front = a.drop_last();
        catch_arms_swap(r, front, b.drop_last(), t, u, n);
        let (v, n1) = lowered_catch_arms(front, t, n);
        catch_arm_swaps(r, a.last(), b.last(), t, u, n1);
        clauses_push(w, v, lowered_catch_arm(a.last(), t, n1).0);
    }
}

proof fn parts_swap(r: Renaming, a: Seq<InterpolatedPart>, b: Seq<InterpolatedPart>, t: SymbolTable,
    u: SymbolTable, n: nat)
    requires
        fair(r),
        twin_parts(r, a, b),
        twin_tables(r, t, u),
    ensures
        lowered_parts(b, u, n).0 == lowered_parts(a, t, n).0,
        lowered_parts(b, u, n).1 == swap_cores(exchange(r), lowered_parts(a, t, n).1),
        lowered_parts(b, u, n).2 == lowered_parts(a, t, n).2,
    decreases a, 0nat, 0nat,
{
    if a.len() > 0 {
        let front = a.drop_last();
        parts_swap(r, front, b.drop_last(), t, u, n);
        let (_, v, n1) = lowered_parts(front, t, n);
        part_swaps(r, a.last(), b.last(), t, u, n1);
        match a.last() {
            InterpolatedPart::Expr(x) => {
                cores_push(exchange(r), v, lowered(x, t, n1).0);
            },
            _ => {},
        }
    }
}

proof fn part_swaps(r: Renaming, a: InterpolatedPart, b: InterpolatedPart, t: SymbolTable,
    u: SymbolTable, n: nat)
    requires
        fair(r),
        twin_part(r, a, b),
        twin_tables(r, t, u),
    ensures
        match (a, b) {
            (InterpolatedPart::Literal(x), InterpolatedPart::Literal(y)) => x@ == y@,
            (InterpolatedPart::Expr(x), InterpolatedPart::Expr(y)) => lowered(y, u, n) == (
                swap_core(exchange(r), lowered(x, t, n).0),
                lowered(x, t, n).1,
            ),
            _ => false,
        },
    decreases a, 0nat, 0nat,
{
    match (a, b) {
        (InterpolatedPart::Expr(x), InterpolatedPart::Expr(y)) => {
            translation_swaps(r, x, y, t, u, n);
        },
        _ => {},
    }
}

proof fn cond_swaps(
    r: Renaming,
    a: Seq<(Expr, Expr)>,
    b: Seq<(Expr, Expr)>,
    t: SymbolTable,
    u: SymbolTable,
    other: Core,
    n: nat,
)
    requires
        fair(r),
        twin_pairs(r, a, b),
        twin_tables(r, t, u),
    ensures
        lowered_cond(b, u, swap_core(exchange(r), other), n) == (
            swap_core(exchange(r), lowered_cond(a, t, other, n).0),
            lowered_cond(a, t, other, n).1,
        ),
    decreases a, 0nat, 0nat,
{
    if a.len() > 0 {
        let w = exchange(r);
        translation_swaps(r, a.last().0, b.last().0, t, u, n);
        let (c, n1) = lowered(a.last().0, t, n);
        translation_swaps(r, a.last().1, b.last().1, t, u, n1);
        let (x, n2) = lowered(a.last().1, t, n1);
        if_else_swaps(w, c, x, other);
        let here = if is_else(a.last().0) {
            x
        } else {
            shape::if_else(c, x, other)
        };
        else_stays(r, a.last().0, b.last().0);
        cond_swaps(r, a.drop_last(), b.drop_last(), t, u, here, n2);
    }
}

proof fn else_stays(r: Renaming, e: Expr, f: Expr)
    requires
        fair(r),
        twin(r, e, f),
    ensures
        is_else(f) == is_else(e),
{
    reveal_strlit("_");
    assert(core_var("_"@) =~= "_"@);
}

proof fn arm_swaps(r: Renaming, a: MatchArm, b: MatchArm, t: SymbolTable, u: SymbolTable, n: nat)
    requires
        fair(r),
        twin_arm(r, a, b),
        twin_tables(r, t, u),
    ensures
        lowered_arm(b, u, n) == (
            swap_clause(exchange(r), lowered_arm(a, t, n).0),
            lowered_arm(a, t, n).1,
        ),
    decreases a, 0nat, 0nat,
{
    let w = exchange(r);
    pattern_swaps(r, a.pattern, b.pattern);
    match (a.guard, b.guard) {
        (Some(x), Some(y)) => {
            translation_swaps(r, x, y, t, u, n);
            let (g, n1) = lowered(x, t, n);
            translation_swaps(r, a.body, b.body, t, u, n1);
            guarded_swaps(w, lowered_pattern(a.pattern), g, lowered(a.body, t, n1).0);
        },
        _ => {
            atom_swaps(w, "true"@);
            translation_swaps(r, a.body, b.body, t, u, n);
            guarded_swaps(
                w,
                lowered_pattern(a.pattern),
                shape::atom("true"@),
                lowered(a.body, t, n).0,
            );
        },
    }
}

proof fn catch_arm_swaps(r: Renaming, a: CatchArm, b: CatchArm, t: SymbolTable, u: SymbolTable, n: nat)
    requires
        fair(r),
        twin_catch_arm(r, a, b),
        twin_tables(r, t, u),
    ensures
        lowered_catch_arm(b, u, n) == (
            swap_clause(exchange(r), lowered_catch_arm(a, t, n).0),
            lowered_catch_arm(a, t, n).1,
        ),
    decreases a, 0nat, 0nat,
{
    let w = exchange(r);
    pattern_swaps(r, a.pattern, b.pattern);
    translation_swaps(r, a.body, b.body, t, u, n);
    fixed_stay(w);
    let class = match a.class {
        Some(c) => shape::patom(c@),
        None => shape::pvar("_"@),
    };
    assert(swap_pat(w, class) == class);
    ptup2_swaps(w, class, lowered_pattern(a.pattern));
    when_swaps(
        w,
        shape::ptup2(class, lowered_pattern(a.pattern)),
        lowered(a.body, t, n).0,
    );
}

proof fn stmt_swaps(r: Renaming, a: Stmt, b: Stmt, t: SymbolTable, u: SymbolTable, n: nat)
    requires
        fair(r),
        twin_stmt(r, a, b),
        twin_tables(r, t, u),
    ensures
        lowered_stmt(b, u, n) == (
            swap_part(exchange(r), lowered_stmt(a, t, n).0),
            lowered_stmt(a, t, n).1,
        ),
    decreases a, 0nat, 0nat,
{
    let w = exchange(r);
    match (a, b) {
        (Stmt::Let(p, x), Stmt::Let(q, y)) => {
            translation_swaps(r, x, y, t, u, n);
            fresh_stays(w, lowered(x, t, n).1);
            pattern_swaps(r, p, q);
            match (p, q) {
                (Pattern::Var(c), Pattern::Var(d)) => {
                    variable_swaps(r, c@, d@);
                },
                _ => {},
            }
        },
        (Stmt::Expr(x), Stmt::Expr(y)) => {
            translation_swaps(r, x, y, t, u, n + 1);
            fresh_stays(w, n);
        },
        _ => {},
    }
}

proof fn stmts_swap(r: Renaming, a: Seq<Stmt>, b: Seq<Stmt>, t: SymbolTable, u: SymbolTable, n: nat)
    requires
        fair(r),
        twin_stmts(r, a, b),
        twin_tables(r, t, u),
    ensures
        lowered_stmts(b, u, n) == (
            swap_lets(exchange(r), lowered_stmts(a, t, n).0),
            lowered_stmts(a, t, n).1,
        ),
    decreases a, 0nat, 0nat,
{
    let w = exchange(r);
    if a.len() > 0 {
        let front = a.drop_last();
        stmts_swap(r, front, b.drop_last(), t, u, n);
        let (v, n1) = lowered_stmts(front, t, n);
        stmt_swaps(r, a.last(), b.last(), t, u, n1);
        let x = lowered_stmt(a.last(), t, n1).0;
        assert(swap_lets(w, v.push(x)) =~= swap_lets(w, v).push(swap_part(w, x)));
    } else {
        assert(swap_lets(w, Seq::empty()) =~= Seq::empty());
    }
}

proof fn filters_swap(r: Renaming, a: Seq<Expr>, b: Seq<Expr>, t: SymbolTable, u: SymbolTable, n: nat)
    requires
        fair(r),
        twin_all(r, a, b),
        twin_tables(r, t, u),
    ensures
        lowered_filters(b, u, n) == (
            swap_core(exchange(r), lowered_filters(a, t, n).0),
            lowered_filters(a, t, n).1,
        ),
    decreases a, 0nat, 0nat,
{
    let w = exchange(r);
    if a.len() == 0 {
        atom_swaps(w, "true"@);
    } else if a.len() == 1 {
        assert(a.last() == a[0] && b.last() == b[0]);
        translation_swaps(r, a[0], b[0], t, u, n);
    } else {
        let front = a.drop_last();
        filters_swap(r, front, b.drop_last(), t, u, n);
        let (x, n1) = lowered_filters(front, t, n);
        translation_swaps(r, a.last(), b.last(), t, u, n1);
        call2_swaps(w, "erlang"@, "and"@, x, lowered(a.last(), t, n1).0);
    }
}

proof fn comp_swaps(
    r: Renaming,
    e: Expr,
    f: Expr,
    t: SymbolTable,
    u: SymbolTable,
    at: nat,
    plain_item: bool,
    n: nat,
)
    requires
        fair(r),
        twin(r, e, f),
        e is ListComp,
        twin_tables(r, t, u),
    ensures
        lowered_comp(f, u, at, plain_item, n) == (
            swap_core(exchange(r), lowered_comp(e, t, at, plain_item, n).0),
            lowered_comp(e, t, at, plain_item, n).1,
        ),
    decreases e, 0nat, generators_left(e, at),
{
    let w = exchange(r);
    nil_swaps(w);
    match (e, f) {
        (
            Expr::ListComp { expr: x, generators: g, filters: c },
            Expr::ListComp { expr: y, generators: h, filters: d },
        ) => {
            twin_generators_len(r, g@, h@);
            twin_all_len(r, c@, d@);
            if at >= g@.len() {
                translation_swaps(r, *x, *y, t, u, n);
                let (item, n1) = lowered(*x, t, n);
                cons_swaps(w, item, shape::nil());
                if c@.len() > 0 {
                    filters_swap(r, c@, d@, t, u, n1);
                    let cond = lowered_filters(c@, t, n1).0;
                    let kept = shape::tup2(shape::atom("true"@), item);
                    atom_swaps(w, "true"@);
                    atom_swaps(w, "false"@);
                    tup2_swaps(w, shape::atom("true"@), item);
                    if_else_swaps(w, cond, kept, shape::atom("false"@));
                    if_else_swaps(w, cond, shape::cons(item, shape::nil()), shape::nil());
                }
            } else {
                twin_generators_at(r, g@, h@, at as int);
                let p = g@[at as int];
                let q = h@[at as int];
                generator_parts(r, p, q);
                translation_swaps(r, p.source, q.source, t, u, n);
                let (source, n1) = lowered(p.source, t, n);
                let simple = g@.len() == 1 && p.pattern is Var;
                comp_swaps(r, e, f, t, u, at + 1, simple, n1);
                let (inner, n2) = lowered_comp(e, t, at + 1, simple, n1);
                pattern_swaps(r, p.pattern, q.pattern);
                if simple {
                    let v = core_var(p.pattern->Var_0@);
                    variable_swaps(r, p.pattern->Var_0@, q.pattern->Var_0@);
                    fun1_swaps(w, v, inner);
                    call2_swaps(w, "lists"@, "map"@, shape::fun1(v, inner), source);
                    call2_swaps(w, "lists"@, "filtermap"@, shape::fun1(v, inner), source);
                } else {
                    let item = fresh_name(n2);
                    fresh_stays(w, n2);
                    fixed_stay(w);
                    var_swaps(w, item);
                    pvar_swaps(w, "_"@);
                    let pattern = lowered_pattern(p.pattern);
                    when_swaps(w, pattern, inner);
                    when_swaps(w, shape::pvar("_"@), shape::nil());
                    let first = shape::when(pattern, inner);
                    let second = shape::when(shape::pvar("_"@), shape::nil());
                    case2_swaps(w, shape::var(item), first, second);
                    let body = shape::case2(shape::var(item), first, second);
                    fun1_swaps(w, item, body);
                    call2_swaps(w, "lists"@, "flatmap"@, shape::fun1(item, body), source);
                }
            }
        },
        _ => {},
    }
}

} // verus!
