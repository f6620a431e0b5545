//! Expressions that differ in the names of bound variables alone are translated
//! to terms that do.
use vstd::prelude::*;
use crate::ast::{
    path_parts, BitStringSegment, CatchArm, Expr, Function, Generator, InterpolatedPart,
    MatchArm, Pattern, Stmt, UnaryOp,
};
use crate::builtins::builtin;
use crate::core_alike::{
    alike, all_alike, canonical_form_ignores_binders, clause_alike, clauses_alike, consistent,
    entries_alike, fundef_alike, pat_alike, pat_pairs, pats_alike, pats_pairs, same_binder,
    same_binders, same_var, segments_alike, with_binder, with_binders, Pairs,
};
use crate::erlang::{Core, FunDef, Pat};
use crate::fresh::fresh_name;
use crate::hashing::applied;
use crate::lower::{
    core_var, direct_call, generators_left, is_else, linked, lowered, lowered_all,
    lowered_arm, lowered_arms, lowered_catch_arm, lowered_catch_arms, lowered_comp, lowered_cond,
    lowered_entries, lowered_fields, lowered_filters, lowered_parts, lowered_pattern,
    lowered_record, lowered_segment, lowered_segments, lowered_stmt, lowered_stmts, method_var,
    param_vars, pipe_target, snake_case, wrapped, Part, SymbolTable,
};
use crate::shape;
use crate::shape_alike::{
    atom_alike, builtin_alike, call1_alike, call2_alike, case1_alike, case2_alike, clause1_alike,
    cons_alike, fixed_introduced, fresh_introduced, fun1_alike, group_decode_alike,
    group_shapes_alike, if_else_alike, let1_alike, listed_onto_alike, nil_alike, num_alike,
    outcome_alike, own,
};
use crate::swap_shape::introduced;
use crate::text::texts;
use crate::twin::{same_callee, same_path, takes};

verus! {

/// Whether two patterns differ in the names that they bind alone.
pub open spec fn respelled_pattern(p: Pattern, q: Pattern) -> bool {
    &&& pat_alike(own(), lowered_pattern(p), lowered_pattern(q))
    &&& consistent(pat_pairs(own(), lowered_pattern(p), lowered_pattern(q)))
    &&& p is Var <==> q is Var
    &&& p is Wildcard <==> q is Wildcard
}

/// The variables bound around what follows two patterns.
pub open spec fn behind(p: Pattern, q: Pattern, ps: Pairs) -> Pairs {
    ps + pat_pairs(own(), lowered_pattern(p), lowered_pattern(q))
}

/// The variables bound behind statements.
pub open spec fn behind_stmts(s: Seq<Stmt>, t: Seq<Stmt>, ps: Pairs) -> Pairs
    decreases s.len(),
{
    if s.len() == 0 {
        ps
    } else {
        let before = behind_stmts(s.drop_last(), t.drop_last(), ps);
        match (s.last(), t.last()) {
            (Stmt::Let(p, _), Stmt::Let(q, _)) => behind(p, q, before),
            _ => before,
        }
    }
}

/// The variables bound behind the first `k` generators.
pub open spec fn behind_generators(
    s: Seq<Generator>,
    t: Seq<Generator>,
    ps: Pairs,
    k: nat,
) -> Pairs
    decreases k,
{
    if k == 0 {
        ps
    } else {
        behind(
            s[k - 1].pattern,
            t[k - 1].pattern,
            behind_generators(s, t, ps, (k - 1) as nat),
        )
    }
}

/// Whether a call by this name goes to a built-in or to a function that is known.
pub open spec fn is_direct(x: Seq<char>, k: nat, tab: SymbolTable) -> bool {
    takes(x, k) || linked(tab, x, k) is Some
}

/// Whether conditions that stand for any other case do so on both sides.
pub open spec fn same_elses(s: Seq<(Expr, Expr)>, t: Seq<(Expr, Expr)>) -> bool {
    forall|i: int| 0 <= i < s.len() ==> is_else((#[trigger] s[i]).0) == is_else(t[i].0)
}

/// Whether two expressions differ in the names of bound variables alone, where
/// `ps` are bound around them. A name that is called or piped into as that of a
/// built-in or of a known function stays.
pub open spec fn respelled(e: Expr, f: Expr, tab: SymbolTable, ps: Pairs) -> bool
    decreases e,
{
    match (e, f) {
        (Expr::Int(i), Expr::Int(j)) => i == j,
        (Expr::Float(x), Expr::Float(y)) => x.bits == y.bits && x.text@ == y.text@,
        (Expr::Char(c), Expr::Char(d)) => c == d,
        (Expr::String(s), Expr::String(t)) => s@ == t@,
        (Expr::InterpolatedString(s), Expr::InterpolatedString(t)) => respelled_parts(
            s@,
            t@,
            tab,
            ps,
        ),
        (Expr::Bool(b), Expr::Bool(c)) => b == c,
        (Expr::Atom(s), Expr::Atom(t)) => s@ == t@,
        (Expr::Unit, Expr::Unit) => true,
        (Expr::Var(x), Expr::Var(y)) => same_var(own(), ps, core_var(x@), core_var(y@)),
        (Expr::Tuple(s), Expr::Tuple(t)) => respelled_all(s@, t@, tab, ps),
        (Expr::List(s, x), Expr::List(t, y)) => respelled_all(s@, t@, tab, ps) && (match (x, y) {
            (Some(x), Some(y)) => respelled(*x, *y, tab, ps),
            (None, None) => true,
            _ => false,
        }),
        (
            Expr::ListComp { expr: x, generators: g, filters: c },
            Expr::ListComp { expr: y, generators: h, filters: d },
        ) => {
            let inner = behind_generators(g@, h@, ps, g@.len());
            &&& g@.len() == h@.len()
            &&& forall|i: int|
                0 <= i < g@.len() ==> respelled_pattern((#[trigger] g@[i]).pattern, h@[i].pattern)
                    && respelled(
                    g@[i].source,
                    h@[i].source,
                    tab,
                    behind_generators(g@, h@, ps, i as nat),
                )
            &&& respelled(*x, *y, tab, inner)
            &&& respelled_all(c@, d@, tab, inner)
        },
        (Expr::Range(a, b, i), Expr::Range(c, d, j)) => respelled(*a, *c, tab, ps) && respelled(
            *b,
            *d,
            tab,
            ps,
        ) && i == j,
        (Expr::MapLit(s), Expr::MapLit(t)) => respelled_pairs(s@, t@, tab, ps),
        (Expr::Record(s), Expr::Record(t)) => respelled_fields(s@, t@, tab, ps),
        (Expr::StructInit(_, s), Expr::StructInit(_, t)) => respelled_fields(s@, t@, tab, ps),
        (Expr::BitString(s), Expr::BitString(t)) => respelled_segments(s@, t@, tab, ps),
        (Expr::Binary(a, o, b), Expr::Binary(c, p, d)) => {
            &&& respelled(*a, *c, tab, ps)
            &&& o == p
            &&& if o is Pipe && pipe_target(*b, tab) is Some {
                pipe_target(*b, tab) == pipe_target(*d, tab)
            } else {
                respelled(*b, *d, tab, ps) && (o is Pipe ==> pipe_target(*d, tab) is None)
            }
        },
        (Expr::Unary(o, a), Expr::Unary(p, b)) => o == p && respelled(*a, *b, tab, ps),
        (Expr::If(c, x, y), Expr::If(d, z, u)) => respelled(*c, *d, tab, ps) && respelled(
            *x,
            *z,
            tab,
            ps,
        ) && (match (y, u) {
            (Some(y), Some(u)) => respelled(*y, *u, tab, ps),
            (None, None) => true,
            _ => false,
        }),
        (Expr::Cond(s), Expr::Cond(t)) => respelled_pairs(s@, t@, tab, ps) && same_elses(s@, t@),
        (Expr::Match(x, s), Expr::Match(y, t)) => respelled(*x, *y, tab, ps) && respelled_arms(
            s@,
            t@,
            tab,
            ps,
        ),
        (Expr::Block(s, x), Expr::Block(t, y)) => respelled_stmts(s@, t@, tab, ps) && (match (
            x,
            y,
        ) {
            (Some(x), Some(y)) => respelled(*x, *y, tab, behind_stmts(s@, t@, ps)),
            (None, None) => true,
            _ => false,
        }),
        (Expr::Call(x, s), Expr::Call(y, t)) => respelled_all(s@, t@, tab, ps) && (match (*x, *y) {
            (Expr::Var(v), Expr::Var(w)) => {
                &&& same_callee(*x, *y, s@.len())
                &&& linked(tab, v@, s@.len()) == linked(tab, w@, s@.len())
                &&& is_direct(v@, s@.len(), tab) || respelled(*x, *y, tab, ps)
            },
            _ => respelled(*x, *y, tab, ps),
        }),
        (Expr::MethodCall(x, m, s), Expr::MethodCall(y, k, t)) => respelled(*x, *y, tab, ps) && m@
            == k@ && respelled_all(s@, t@, tab, ps),
        (Expr::Lambda(s, x), Expr::Lambda(t, y)) => same_binders(own(), param_vars(s@), param_vars(t@))
            && respelled(*x, *y, tab, with_binders(own(), ps, param_vars(s@), param_vars(t@))),
        (Expr::Field(x, s), Expr::Field(y, t)) => respelled(*x, *y, tab, ps) && s@ == t@,
        (Expr::Index(a, b), Expr::Index(c, d)) => respelled(*a, *c, tab, ps) && respelled(
            *b,
            *d,
            tab,
            ps,
        ),
        (Expr::Path(p), Expr::Path(q)) => same_path(p, q) && (p.qualifiers@.len() == 0 ==> same_var(
            own(),
            ps,
            core_var(p.name@),
            core_var(q.name@),
        )),
        (Expr::Spawn(a), Expr::Spawn(b)) => respelled(*a, *b, tab, ps),
        (Expr::Send(a, b), Expr::Send(c, d)) => respelled(*a, *c, tab, ps) && respelled(
            *b,
            *d,
            tab,
            ps,
        ),
        (Expr::Receive { arms: s, timeout: x }, Expr::Receive { arms: t, timeout: y }) => {
            respelled_arms(s@, t@, tab, ps) && (match (x, y) {
                (Some((a, b)), Some((c, d))) => respelled(*a, *c, tab, ps) && respelled(
                    *b,
                    *d,
                    tab,
                    ps,
                ),
                (None, None) => true,
                _ => false,
            })
        },
        (Expr::SelfPid, Expr::SelfPid) => true,
        (Expr::Return(x), Expr::Return(y)) => match (x, y) {
            (Some(x), Some(y)) => respelled(*x, *y, tab, ps),
            (None, None) => true,
            _ => false,
        },
        (Expr::Try { body: x, catch_arms: s }, Expr::Try { body: y, catch_arms: t }) => respelled(
            *x,
            *y,
            tab,
            ps,
        ) && respelled_catch_arms(s@, t@, tab, ps),
        _ => false,
    }
}

pub open spec fn respelled_all(s: Seq<Expr>, t: Seq<Expr>, tab: SymbolTable, ps: Pairs) -> bool
    decreases s,
{
    &&& s.len() == t.len()
    &&& s.len() > 0 ==> respelled_all(s.drop_last(), t.drop_last(), tab, ps) && respelled(
        s.last(),
        t.last(),
        tab,
        ps,
    )
}

pub open spec fn respelled_pairs(
    s: Seq<(Expr, Expr)>,
    t: Seq<(Expr, Expr)>,
    tab: SymbolTable,
    ps: Pairs,
) -> bool
    decreases s,
{
    &&& s.len() == t.len()
    &&& s.len() > 0 ==> respelled_pairs(s.drop_last(), t.drop_last(), tab, ps) && respelled(
        s.last().0,
        t.last().0,
        tab,
        ps,
    ) && respelled(s.last().1, t.last().1, tab, ps)
}

pub open spec fn respelled_fields(
    s: Seq<(String, Expr)>,
    t: Seq<(String, Expr)>,
    tab: SymbolTable,
    ps: Pairs,
) -> bool
    decreases s,
{
    &&& s.len() == t.len()
    &&& s.len() > 0 ==> respelled_fields(s.drop_last(), t.drop_last(), tab, ps) && s.last().0@
        == t.last().0@ && respelled(s.last().1, t.last().1, tab, ps)
}

pub open spec fn respelled_segments(
    s: Seq<BitStringSegment>,
    t: Seq<BitStringSegment>,
    tab: SymbolTable,
    ps: Pairs,
) -> bool
    decreases s,
{
    &&& s.len() == t.len()
    &&& s.len() > 0 ==> respelled_segments(s.drop_last(), t.drop_last(), tab, ps) && s.last().size
        == t.last().size && s.last().specifier == t.last().specifier && respelled(
        s.last().value,
        t.last().value,
        tab,
        ps,
    )
}

pub open spec fn respelled_part(
    s: InterpolatedPart,
    t: InterpolatedPart,
    tab: SymbolTable,
    ps: Pairs,
) -> bool
    decreases s,
{
    match (s, t) {
        (InterpolatedPart::Literal(x), InterpolatedPart::Literal(y)) => x@ == y@,
        (InterpolatedPart::Expr(x), InterpolatedPart::Expr(y)) => respelled(x, y, tab, ps),
        _ => false,
    }
}

pub open spec fn respelled_parts(
    s: Seq<InterpolatedPart>,
    t: Seq<InterpolatedPart>,
    tab: SymbolTable,
    ps: Pairs,
) -> bool
    decreases s,
{
    &&& s.len() == t.len()
    &&& s.len() > 0 ==> respelled_parts(s.drop_last(), t.drop_last(), tab, ps) && respelled_part(
        s.last(),
        t.last(),
        tab,
        ps,
    )
}

pub open spec fn respelled_arm(s: MatchArm, t: MatchArm, tab: SymbolTable, ps: Pairs) -> bool
    decreases s,
{
    let inner = behind(s.pattern, t.pattern, ps);
    &&& respelled_pattern(s.pattern, t.pattern)
    &&& match (s.guard, t.guard) {
        (Some(x), Some(y)) => respelled(x, y, tab, inner),
        (None, None) => true,
        _ => false,
    }
    &&& respelled(s.body, t.body, tab, inner)
}

pub open spec fn respelled_arms(
    s: Seq<MatchArm>,
    t: Seq<MatchArm>,
    tab: SymbolTable,
    ps: Pairs,
) -> bool
    decreases s,
{
    &&& s.len() == t.len()
    &&& s.len() > 0 ==> respelled_arms(s.drop_last(), t.drop_last(), tab, ps) && respelled_arm(
        s.last(),
        t.last(),
        tab,
        ps,
    )
}

pub open spec fn respelled_catch_arm(s: CatchArm, t: CatchArm, tab: SymbolTable, ps: Pairs) -> bool
    decreases s,
{
    &&& match (s.class, t.class) {
        (Some(x), Some(y)) => x@ == y@,
        (None, None) => true,
        _ => false,
    }
    &&& respelled_pattern(s.pattern, t.pattern)
    &&& respelled(s.body, t.body, tab, behind(s.pattern, t.pattern, ps))
}

pub open spec fn respelled_catch_arms(
    s: Seq<CatchArm>,
    t: Seq<CatchArm>,
    tab: SymbolTable,
    ps: Pairs,
) -> bool
    decreases s,
{
    &&& s.len() == t.len()
    &&& s.len() > 0 ==> respelled_catch_arms(s.drop_last(), t.drop_last(), tab, ps)
        && respelled_catch_arm(s.last(), t.last(), tab, ps)
}

pub open spec fn respelled_stmt(s: Stmt, t: Stmt, tab: SymbolTable, ps: Pairs) -> bool
    decreases s,
{
    match (s, t) {
        (Stmt::Let(p, x), Stmt::Let(q, y)) => respelled_pattern(p, q) && respelled(x, y, tab, ps),
        (Stmt::Expr(x), Stmt::Expr(y)) => respelled(x, y, tab, ps),
        _ => false,
    }
}

pub open spec fn respelled_stmts(
    s: Seq<Stmt>,
    t: Seq<Stmt>,
    tab: SymbolTable,
    ps: Pairs,
) -> bool
    decreases s,
{
    &&& s.len() == t.len()
    &&& s.len() > 0 ==> respelled_stmts(s.drop_last(), t.drop_last(), tab, ps) && respelled_stmt(
        s.last(),
        t.last(),
        tab,
        behind_stmts(s.drop_last(), t.drop_last(), ps),
    )
}

proof fn part_values(s: InterpolatedPart, t: InterpolatedPart, tab: SymbolTable, ps: Pairs)
    requires
        respelled_part(s, t, tab, ps),
    ensures
        match (s, t) {
            (InterpolatedPart::Literal(x), InterpolatedPart::Literal(y)) => x@ == y@,
            (InterpolatedPart::Expr(x), InterpolatedPart::Expr(y)) => respelled(x, y, tab, ps),
            _ => false,
        },
{
}

proof fn stmt_values(s: Stmt, t: Stmt, tab: SymbolTable, ps: Pairs)
    requires
        respelled_stmt(s, t, tab, ps),
    ensures
        match (s, t) {
            (Stmt::Let(p, x), Stmt::Let(q, y)) => respelled_pattern(p, q) && respelled(
                x,
                y,
                tab,
                ps,
            ),
            (Stmt::Expr(x), Stmt::Expr(y)) => respelled(x, y, tab, ps),
            _ => false,
        },
{
}

proof fn same_length(s: Seq<Expr>, t: Seq<Expr>, tab: SymbolTable, ps: Pairs)
    requires
        respelled_all(s, t, tab, ps),
    ensures
        s.len() == t.len(),
{
}

proof fn cond_values(e: Expr, f: Expr, tab: SymbolTable, ps: Pairs)
    requires
        respelled(e, f, tab, ps),
        e is Cond,
    ensures
        f is Cond,
        respelled_pairs(e->Cond_0@, f->Cond_0@, tab, ps),
        same_elses(e->Cond_0@, f->Cond_0@),
{
}

proof fn cond_lowered(e: Expr, tab: SymbolTable, n: nat)
    requires
        e is Cond,
    ensures
        lowered(e, tab, n) == if e->Cond_0@.len() == 0 {
            (shape::atom("ok"@), n)
        } else {
            lowered_cond(e->Cond_0@, tab, shape::atom("nil"@), n)
        },
{
}

proof fn same_kind(e: Expr, f: Expr, tab: SymbolTable, ps: Pairs)
    requires
        respelled(e, f, tab, ps),
    ensures
        e is String == f is String,
        e is InterpolatedString == f is InterpolatedString,
        e is BitString == f is BitString,
        e is Var == f is Var,
        e is Path == f is Path,
        match (e, f) {
            (Expr::Path(p), Expr::Path(q)) => same_path(p, q),
            _ => true,
        },
{
}

proof fn lowered_count(s: Seq<Expr>, tab: SymbolTable, n: nat)
    ensures
        lowered_all(s, tab, n).0.len() == s.len(),
    decreases s.len(),
{
    if s.len() > 0 {
        lowered_count(s.drop_last(), tab, n);
    }
}

/// A call by name of arguments that are alike.
proof fn direct_alike(
    e: Expr,
    f: Expr,
    tab: SymbolTable,
    s: Seq<Core>,
    t: Seq<Core>,
    n: nat,
    ps: Pairs,
)
    requires
        all_alike(own(), s, t, ps),
        same_callee(e, f, s.len()),
        e is Var == f is Var,
        e is Path == f is Path,
        match (e, f) {
            (Expr::Var(x), Expr::Var(y)) => linked(tab, x@, s.len()) == linked(tab, y@, s.len()),
            (Expr::Path(p), Expr::Path(q)) => same_path(p, q),
            _ => true,
        },
    ensures
        outcome_alike(direct_call(e, tab, s, n), direct_call(f, tab, t, n), ps),
{
    match (e, f) {
        (Expr::Var(x), Expr::Var(y)) => {
            builtin_alike(x@, s, t, n, ps);
            if x@ != y@ {
                assert(builtin(x@, s, n) is None);
                assert(builtin(y@, t, n) is None);
            }
        },
        (Expr::Path(p), Expr::Path(q)) => {
            assert(path_parts(p) =~= path_parts(q));
            assert(texts(p.qualifiers@).len() == texts(q.qualifiers@).len());
            let tag = shape::atom(snake_case(p.name@));
            let a = seq![tag] + s;
            let b = seq![tag] + t;
            assert forall|i: int| 0 <= i < a.len() implies alike(
                own(),
                #[trigger] a[i],
                b[i],
                ps,
            ) by {
                if i > 0 {
                    assert(alike(own(), s[i - 1], t[i - 1], ps));
                }
            }
            assert(all_alike(own(), a, b, ps));
        },
        _ => {},
    }
}

proof fn pushed_alike(s: Seq<Core>, t: Seq<Core>, a: Core, b: Core, ps: Pairs)
    requires
        all_alike(own(), s, t, ps),
        alike(own(), a, b, ps),
    ensures
        all_alike(own(), s.push(a), t.push(b), ps),
{
    assert forall|i: int| 0 <= i < s.push(a).len() implies alike(
        own(),
        #[trigger] s.push(a)[i],
        t.push(b)[i],
        ps,
    ) by {
        if i < s.len() {
            assert(alike(own(), s[i], t[i], ps));
        }
    }
}

/// The translations of expressions that differ in the names of bound variables
/// alone do so too.
pub proof fn translation_respells(e: Expr, f: Expr, tab: SymbolTable, ps: Pairs, n: nat)
    requires
        respelled(e, f, tab, ps),
    ensures
        alike(own(), lowered(e, tab, n).0, lowered(f, tab, n).0, ps),
        lowered(e, tab, n).1 == lowered(f, tab, n).1,
    decreases e, 2nat, 0nat,
{
    match e {
        Expr::String(..) | Expr::InterpolatedString(..) | Expr::BitString(..) => {
            text_respells(e, f, tab, ps, n);
        },
        Expr::Tuple(..) | Expr::List(..) => {
            list_respells(e, f, tab, ps, n);
        },
        Expr::ListComp { .. } => {
            generated_respells(e, f, tab, ps, n);
        },
        Expr::Range(..) => {
            range_respells(e, f, tab, ps, n);
        },
        Expr::MapLit(..) | Expr::Record(..) | Expr::StructInit(..) => {
            entry_respells(e, f, tab, ps, n);
        },
        Expr::Unary(..) | Expr::If(..) => {
            branch_respells(e, f, tab, ps, n);
        },
        Expr::Cond(..) => {
            cond_values(e, f, tab, ps);
            cond_expr_respells(e, f, tab, ps, n);
        },
        Expr::Match(..) => {
            match_respells(e, f, tab, ps, n);
        },
        Expr::Block(..) | Expr::Lambda(..) => {
            scope_respells(e, f, tab, ps, n);
        },
        Expr::MethodCall(..) => {
            method_respells(e, f, tab, ps, n);
        },
        Expr::Field(..) | Expr::Index(..) | Expr::Path(..) | Expr::Return(..) => {
            access_respells(e, f, tab, ps, n);
        },
        Expr::Spawn(..) | Expr::Send(..) | Expr::Receive { .. } | Expr::SelfPid => {
            process_respells(e, f, tab, ps, n);
        },
        Expr::Binary(..) => {
            binary_respells(e, f, tab, ps, n);
        },
        Expr::Call(..) => {
            call_respells(e, f, tab, ps, n);
        },
        Expr::Try { .. } => {
            try_respells(e, f, tab, ps, n);
        },
        _ => {},
    }
}

/// Strings.
#[verifier::rlimit(40)]
#[verifier::spinoff_prover]
proof fn text_respells(e: Expr, f: Expr, tab: SymbolTable, ps: Pairs, n: nat)
    requires
        respelled(e, f, tab, ps),
        e is String || e is InterpolatedString || e is BitString,
    ensures
        alike(own(), lowered(e, tab, n).0, lowered(f, tab, n).0, ps),
        lowered(e, tab, n).1 == lowered(f, tab, n).1,
    decreases e, 1nat, 0nat,
{
    match (e, f) {
        (Expr::String(s), Expr::String(_)) => {
            broadcast use group_shapes_alike;

        },
        (Expr::InterpolatedString(s), Expr::InterpolatedString(t)) => {
            parts_respell(s@, t@, tab, ps, n);
            let (w, x, _) = lowered_parts(s@, tab, n);
            let (_, y, _) = lowered_parts(t@, tab, n);
            assert(alike(own(), lowered(e, tab, n).0, lowered(f, tab, n).0, ps)) by {
                broadcast use group_shapes_alike;

            }
        },
        (Expr::BitString(s), Expr::BitString(t)) => {
            segments_respell(s@, t@, tab, ps, n);
        },
        _ => {},
    }
}

/// Tuples and lists.
#[verifier::rlimit(40)]
#[verifier::spinoff_prover]
proof fn list_respells(e: Expr, f: Expr, tab: SymbolTable, ps: Pairs, n: nat)
    requires
        respelled(e, f, tab, ps),
        e is Tuple || e is List,
    ensures
        alike(own(), lowered(e, tab, n).0, lowered(f, tab, n).0, ps),
        lowered(e, tab, n).1 == lowered(f, tab, n).1,
    decreases e, 1nat, 0nat,
{
    match (e, f) {
        (Expr::Tuple(s), Expr::Tuple(t)) => {
            all_respell(s@, t@, tab, ps, n);
        },
        (Expr::List(s, x), Expr::List(t, y)) => {
            all_respell(s@, t@, tab, ps, n);
            let (v, n1) = lowered_all(s@, tab, n);
            let (w, _) = lowered_all(t@, tab, n);
            match (x, y) {
                (Some(x), Some(y)) => {
                    translation_respells(*x, *y, tab, ps, n1);
                    listed_onto_alike(v, w, lowered(*x, tab, n1).0, lowered(*y, tab, n1).0, ps);
                },
                _ => {
                    listed_onto_alike(v, w, shape::nil(), shape::nil(), ps);
                },
            }
        },
        _ => {},
    }
}

/// List comprehensions.
#[verifier::rlimit(40)]
#[verifier::spinoff_prover]
proof fn generated_respells(e: Expr, f: Expr, tab: SymbolTable, ps: Pairs, n: nat)
    requires
        respelled(e, f, tab, ps),
        e is ListComp,
    ensures
        alike(own(), lowered(e, tab, n).0, lowered(f, tab, n).0, ps),
        lowered(e, tab, n).1 == lowered(f, tab, n).1,
    decreases e, 1nat, 0nat,
{
    match (e, f) {
        (
            Expr::ListComp { expr: x, generators: g, .. },
            Expr::ListComp { expr: y, generators: h, .. },
        ) => {
            if g@.len() == 0 {
                assert(behind_generators(g@, h@, ps, 0) == ps);
                translation_respells(*x, *y, tab, ps, n);
                nil_alike(ps);
                cons_alike(
                    lowered(*x, tab, n).0,
                    shape::nil(),
                    lowered(*y, tab, n).0,
                    shape::nil(),
                    ps,
                );
            } else {
                assert(behind_generators(g@, h@, ps, 0) == ps);
                comp_respells(e, f, tab, ps, 0, false, n);
            }
        },
        _ => {},
    }
}

/// Ranges.
#[verifier::rlimit(40)]
#[verifier::spinoff_prover]
proof fn range_respells(e: Expr, f: Expr, tab: SymbolTable, ps: Pairs, n: nat)
    requires
        respelled(e, f, tab, ps),
        e is Range,
    ensures
        alike(own(), lowered(e, tab, n).0, lowered(f, tab, n).0, ps),
        lowered(e, tab, n).1 == lowered(f, tab, n).1,
    decreases e, 1nat, 0nat,
{
    match (e, f) {
        (Expr::Range(a, b, i), Expr::Range(c, d, _)) => {
            translation_respells(*a, *c, tab, ps, n);
            let (v, n1) = lowered(*a, tab, n);
            let w = lowered(*c, tab, n).0;
            translation_respells(*b, *d, tab, ps, n1);
            let x = lowered(*b, tab, n1).0;
            let y = lowered(*d, tab, n1).0;
            if i {
                call2_alike("lists"@, "seq"@, v, x, w, y, ps);
            } else {
                let one = shape::num(1);
                num_alike(1, ps);
                call2_alike("erlang"@, "-"@, x, one, y, one, ps);
                call2_alike(
                    "lists"@,
                    "seq"@,
                    v,
                    shape::call2("erlang"@, "-"@, x, one),
                    w,
                    shape::call2("erlang"@, "-"@, y, one),
                    ps,
                );
            }
        },
        _ => {},
    }
}

/// Maps and records.
#[verifier::rlimit(40)]
#[verifier::spinoff_prover]
proof fn entry_respells(e: Expr, f: Expr, tab: SymbolTable, ps: Pairs, n: nat)
    requires
        respelled(e, f, tab, ps),
        e is MapLit || e is Record || e is StructInit,
    ensures
        alike(own(), lowered(e, tab, n).0, lowered(f, tab, n).0, ps),
        lowered(e, tab, n).1 == lowered(f, tab, n).1,
    decreases e, 1nat, 0nat,
{
    match (e, f) {
        (Expr::MapLit(s), Expr::MapLit(t)) => {
            entries_respell(s@, t@, tab, ps, n);
        },
        (Expr::Record(s), Expr::Record(t)) => {
            record_respells(s@, t@, tab, ps, n);
            assert(alike(own(), lowered(e, tab, n).0, lowered(f, tab, n).0, ps)) by {
                broadcast use group_shapes_alike;

            }
        },
        (Expr::StructInit(_, s), Expr::StructInit(_, t)) => {
            fields_respell(s@, t@, tab, ps, n);
        },
        _ => {},
    }
}

/// Operators with one operand, and choices of two.
#[verifier::rlimit(40)]
#[verifier::spinoff_prover]
proof fn branch_respells(e: Expr, f: Expr, tab: SymbolTable, ps: Pairs, n: nat)
    requires
        respelled(e, f, tab, ps),
        e is Unary || e is If,
    ensures
        alike(own(), lowered(e, tab, n).0, lowered(f, tab, n).0, ps),
        lowered(e, tab, n).1 == lowered(f, tab, n).1,
    decreases e, 1nat, 0nat,
{
    match (e, f) {
        (Expr::Unary(o, a), Expr::Unary(_, b)) => {
            translation_respells(*a, *b, tab, ps, n);
            let x = lowered(*a, tab, n).0;
            let y = lowered(*b, tab, n).0;
            match o {
                UnaryOp::Neg => call1_alike("erlang"@, "-"@, x, y, ps),
                UnaryOp::Not => call1_alike("erlang"@, "not"@, x, y, ps),
            }
        },
        (Expr::If(c, x, y), Expr::If(d, z, u)) => {
            translation_respells(*c, *d, tab, ps, n);
            let n1 = lowered(*c, tab, n).1;
            translation_respells(*x, *z, tab, ps, n1);
            let n2 = lowered(*x, tab, n1).1;
            let k = lowered(*c, tab, n).0;
            let l = lowered(*d, tab, n).0;
            let a = lowered(*x, tab, n1).0;
            let b = lowered(*z, tab, n1).0;
            match (y, u) {
                (Some(y), Some(u)) => {
                    translation_respells(*y, *u, tab, ps, n2);
                    let v = lowered(*y, tab, n2).0;
                    let w = lowered(*u, tab, n2).0;
                    if_else_alike(k, a, v, l, b, w, ps);
                },
                _ => {
                    let ok = shape::atom("ok"@);
                    atom_alike("ok"@, ps);
                    if_else_alike(k, a, ok, l, b, ok, ps);
                },
            }
        },
        _ => {},
    }
}

/// Choices by conditions.
proof fn cond_expr_respells(e: Expr, f: Expr, tab: SymbolTable, ps: Pairs, n: nat)
    requires
        e is Cond,
        f is Cond,
        respelled_pairs(e->Cond_0@, f->Cond_0@, tab, ps),
        same_elses(e->Cond_0@, f->Cond_0@),
    ensures
        alike(own(), lowered(e, tab, n).0, lowered(f, tab, n).0, ps),
        lowered(e, tab, n).1 == lowered(f, tab, n).1,
    decreases e, 1nat, 0nat,
{
    let s = e->Cond_0@;
    let t = f->Cond_0@;
    cond_lowered(e, tab, n);
    cond_lowered(f, tab, n);
    assert(s.len() == t.len());
    if s.len() == 0 {
        atom_alike("ok"@, ps);
    } else {
        let nil = shape::atom("nil"@);
        atom_alike("nil"@, ps);
        cond_respells(s, t, tab, ps, nil, nil, n);
    }
}

/// Choices by patterns.
#[verifier::rlimit(40)]
#[verifier::spinoff_prover]
proof fn match_respells(e: Expr, f: Expr, tab: SymbolTable, ps: Pairs, n: nat)
    requires
        respelled(e, f, tab, ps),
        e is Match,
    ensures
        alike(own(), lowered(e, tab, n).0, lowered(f, tab, n).0, ps),
        lowered(e, tab, n).1 == lowered(f, tab, n).1,
    decreases e, 1nat, 0nat,
{
    match (e, f) {
        (Expr::Match(x, s), Expr::Match(y, t)) => {
            translation_respells(*x, *y, tab, ps, n);
            arms_respell(s@, t@, tab, ps, lowered(*x, tab, n).1);
        },
        _ => {},
    }
}

/// Blocks and functions.
#[verifier::rlimit(40)]
#[verifier::spinoff_prover]
proof fn scope_respells(e: Expr, f: Expr, tab: SymbolTable, ps: Pairs, n: nat)
    requires
        respelled(e, f, tab, ps),
        e is Block || e is Lambda,
    ensures
        alike(own(), lowered(e, tab, n).0, lowered(f, tab, n).0, ps),
        lowered(e, tab, n).1 == lowered(f, tab, n).1,
    decreases e, 1nat, 0nat,
{
    match (e, f) {
        (Expr::Block(s, x), Expr::Block(t, y)) => {
            stmts_respell(s@, t@, tab, ps, n);
            let n1 = lowered_stmts(s@, tab, n).1;
            let inner = behind_stmts(s@, t@, ps);
            match (x, y) {
                (Some(x), Some(y)) => {
                    translation_respells(*x, *y, tab, inner, n1);
                    wrapped_respells(
                        s@,
                        t@,
                        tab,
                        ps,
                        n,
                        lowered(*x, tab, n1).0,
                        lowered(*y, tab, n1).0,
                    );
                },
                _ => {
                    wrapped_respells(s@, t@, tab, ps, n, shape::atom("ok"@), shape::atom("ok"@));
                },
            }
        },
        (Expr::Lambda(s, x), Expr::Lambda(t, y)) => {
            translation_respells(
                *x,
                *y,
                tab,
                with_binders(own(), ps, param_vars(s@), param_vars(t@)),
                n,
            );
        },
        _ => {},
    }
}

/// Calls of methods.
#[verifier::rlimit(40)]
#[verifier::spinoff_prover]
proof fn method_respells(e: Expr, f: Expr, tab: SymbolTable, ps: Pairs, n: nat)
    requires
        respelled(e, f, tab, ps),
        e is MethodCall,
    ensures
        alike(own(), lowered(e, tab, n).0, lowered(f, tab, n).0, ps),
        lowered(e, tab, n).1 == lowered(f, tab, n).1,
    decreases e, 1nat, 0nat,
{
    match (e, f) {
        (Expr::MethodCall(x, m, s), Expr::MethodCall(y, _, t)) => {
            translation_respells(*x, *y, tab, ps, n);
            let (o, n1) = lowered(*x, tab, n);
            let p = lowered(*y, tab, n).0;
            all_respell(s@, t@, tab, ps, n1);
            let v = lowered_all(s@, tab, n1).0;
            let w = lowered_all(t@, tab, n1).0;
            let a = seq![o] + v;
            let b = seq![p] + w;
            assert forall|i: int| 0 <= i < a.len() implies alike(
                own(),
                #[trigger] a[i],
                b[i],
                ps,
            ) by {
                if i > 0 {
                    assert(alike(own(), v[i - 1], w[i - 1], ps));
                }
            }
            assert(all_alike(own(), a, b, ps));
            let name = method_var(m@, a.len());
            reveal_strlit("'");
            assert(name[0] == '\'');
            assert(introduced(name));
            assert(alike(own(), shape::var(name), shape::var(name), ps));
        },
        _ => {},
    }
}

/// Parts of values.
#[verifier::rlimit(40)]
#[verifier::spinoff_prover]
proof fn access_respells(e: Expr, f: Expr, tab: SymbolTable, ps: Pairs, n: nat)
    requires
        respelled(e, f, tab, ps),
        e is Field || e is Index || e is Path || e is Return,
    ensures
        alike(own(), lowered(e, tab, n).0, lowered(f, tab, n).0, ps),
        lowered(e, tab, n).1 == lowered(f, tab, n).1,
    decreases e, 1nat, 0nat,
{
    match (e, f) {
        (Expr::Field(x, s), Expr::Field(y, _)) => {
            translation_respells(*x, *y, tab, ps, n);
            assert(alike(own(), lowered(e, tab, n).0, lowered(f, tab, n).0, ps)) by {
                broadcast use group_shapes_alike;

            }
        },
        (Expr::Index(a, b), Expr::Index(c, d)) => {
            translation_respells(*a, *c, tab, ps, n);
            translation_respells(*b, *d, tab, ps, lowered(*a, tab, n).1);
            assert(alike(own(), lowered(e, tab, n).0, lowered(f, tab, n).0, ps)) by {
                broadcast use group_shapes_alike;

            }
        },
        (Expr::Path(p), Expr::Path(q)) => {
            assert(texts(p.qualifiers@).len() == texts(q.qualifiers@).len());
            assert(alike(own(), lowered(e, tab, n).0, lowered(f, tab, n).0, ps)) by {
                broadcast use group_shapes_alike;

            }
        },
        (Expr::Return(Some(x)), Expr::Return(Some(y))) => {
            translation_respells(*x, *y, tab, ps, n);
        },
        _ => {},
    }
}

/// Processes.
#[verifier::rlimit(40)]
#[verifier::spinoff_prover]
proof fn process_respells(e: Expr, f: Expr, tab: SymbolTable, ps: Pairs, n: nat)
    requires
        respelled(e, f, tab, ps),
        e is Spawn || e is Send || e is Receive || e is SelfPid,
    ensures
        alike(own(), lowered(e, tab, n).0, lowered(f, tab, n).0, ps),
        lowered(e, tab, n).1 == lowered(f, tab, n).1,
    decreases e, 1nat, 0nat,
{
    match (e, f) {
        (Expr::Spawn(a), Expr::Spawn(b)) => {
            translation_respells(*a, *b, tab, ps, n);
            assert(alike(own(), lowered(e, tab, n).0, lowered(f, tab, n).0, ps)) by {
                broadcast use group_shapes_alike;

            }
        },
        (Expr::Send(a, b), Expr::Send(c, d)) => {
            translation_respells(*a, *c, tab, ps, n);
            translation_respells(*b, *d, tab, ps, lowered(*a, tab, n).1);
            assert(alike(own(), lowered(e, tab, n).0, lowered(f, tab, n).0, ps)) by {
                broadcast use group_shapes_alike;

            }
        },
        (Expr::Receive { arms: s, timeout: x }, Expr::Receive { arms: t, timeout: y }) => {
            arms_respell(s@, t@, tab, ps, n);
            let n1 = lowered_arms(s@, tab, n).1;
            match (x, y) {
                (Some((a, b)), Some((c, d))) => {
                    translation_respells(*a, *c, tab, ps, n1);
                    translation_respells(*b, *d, tab, ps, lowered(*a, tab, n1).1);
                },
                _ => {},
            }
        },
        (Expr::SelfPid, Expr::SelfPid) => {
            broadcast use group_shapes_alike;

        },
        _ => {},
    }
}

proof fn binary_respells(e: Expr, f: Expr, tab: SymbolTable, ps: Pairs, n: nat)
    requires
        respelled(e, f, tab, ps),
        e is Binary,
    ensures
        alike(own(), lowered(e, tab, n).0, lowered(f, tab, n).0, ps),
        lowered(e, tab, n).1 == lowered(f, tab, n).1,
    decreases e, 1nat, 0nat,
{
    match (e, f) {
        (Expr::Binary(a, o, b), Expr::Binary(c, _, d)) => {
            translation_respells(*a, *c, tab, ps, n);
            let n1 = lowered(*a, tab, n).1;
            if o is Pipe && pipe_target(*b, tab) is Some {
            } else {
                translation_respells(*b, *d, tab, ps, n1);
            }
            broadcast use group_shapes_alike;
            broadcast use group_decode_alike;

        },
        _ => {},
    }
}

proof fn call_respells(e: Expr, f: Expr, tab: SymbolTable, ps: Pairs, n: nat)
    requires
        respelled(e, f, tab, ps),
        e is Call,
    ensures
        alike(own(), lowered(e, tab, n).0, lowered(f, tab, n).0, ps),
        lowered(e, tab, n).1 == lowered(f, tab, n).1,
    decreases e, 1nat, 0nat,
{
    match (e, f) {
        (Expr::Call(x, s), Expr::Call(y, t)) => {
            all_respell(s@, t@, tab, ps, n);
            same_length(s@, t@, tab, ps);
            let (v, n1) = lowered_all(s@, tab, n);
            let w = lowered_all(t@, tab, n).0;
            lowered_count(s@, tab, n);
            match (*x, *y) {
                (Expr::Var(a), Expr::Var(b)) => {
                    direct_alike(*x, *y, tab, v, w, n1, ps);
                    if direct_call(*x, tab, v, n1) is None {
                        if takes(a@, s@.len()) {
                            taken(a@, v, n1);
                        }
                        translation_respells(*x, *y, tab, ps, n1);
                    }
                },
                _ => {
                    same_kind(*x, *y, tab, ps);
                    direct_alike(*x, *y, tab, v, w, n1, ps);
                    translation_respells(*x, *y, tab, ps, n1);
                },
            }
        },
        _ => {},
    }
}

/// A built-in takes every call with the right number of arguments, or none.
proof fn taken(x: Seq<char>, args: Seq<Core>, n: nat)
    requires
        takes(x, args.len()),
    ensures
        builtin(x, args, n) is Some,
{
    let (s, m) = choose|s: Seq<Core>, m: nat|
        s.len() == args.len() && #[trigger] builtin(x, s, m) is Some;
}

proof fn try_respells(e: Expr, f: Expr, tab: SymbolTable, ps: Pairs, n: nat)
    requires
        respelled(e, f, tab, ps),
        e is Try,
    ensures
        alike(own(), lowered(e, tab, n).0, lowered(f, tab, n).0, ps),
        lowered(e, tab, n).1 == lowered(f, tab, n).1,
    decreases e, 1nat, 0nat,
{
    match (e, f) {
        (Expr::Try { body: x, catch_arms: s }, Expr::Try { body: y, catch_arms: t }) => {
            translation_respells(*x, *y, tab, ps, n);
            let n1 = lowered(*x, tab, n).1;
            let class = fresh_name(n1 + 1);
            let reason = fresh_name(n1 + 2);
            let stack = fresh_name(n1 + 3);
            catch_arms_respell(s@, t@, tab, ps, n1 + 4);
            broadcast use group_shapes_alike;

            fixed_introduced();
            assert(s@.len() == t@.len());
            if s@.len() > 0 {
                let v = lowered_catch_arms(s@, tab, n1 + 4).0;
                let w = lowered_catch_arms(t@, tab, n1 + 4).0;
                let last = shape::when(
                    shape::ptup2(shape::pvar("_Class"@), shape::pvar("_Reason"@)),
                    shape::raise(stack, reason),
                );
                assert(clause_alike(own(), last, last, ps));
                assert forall|i: int| 0 <= i < v.push(last).len() implies clause_alike(
                    own(),
                    #[trigger] v.push(last)[i],
                    w.push(last)[i],
                    ps,
                ) by {
                    if i < v.len() {
                        assert(clause_alike(own(), v[i], w[i], ps));
                    }
                }
                assert(clauses_alike(own(), v.push(last), w.push(last), ps));
                let of = shape::tup2(shape::var(class), shape::var(reason));
                assert(alike(own(), of, of, ps));
                assert(alike(
                    own(),
                    Core::Case(Box::new(of), v.push(last)),
                    Core::Case(Box::new(of), w.push(last)),
                    ps,
                ));
            }
        },
        _ => {},
    }
}

proof fn all_respell(s: Seq<Expr>, t: Seq<Expr>, tab: SymbolTable, ps: Pairs, n: nat)
    requires
        respelled_all(s, t, tab, ps),
    ensures
        all_alike(own(), lowered_all(s, tab, n).0, lowered_all(t, tab, n).0, ps),
        lowered_all(s, tab, n).1 == lowered_all(t, tab, n).1,
    decreases s, 0nat, 0nat,
{
    if s.len() > 0 {
        let a = s.drop_last();
        let b = t.drop_last();
        all_respell(a, b, tab, ps, n);
        let n1 = lowered_all(a, tab, n).1;
        translation_respells(s.last(), t.last(), tab, ps, n1);
        pushed_alike(
            lowered_all(a, tab, n).0,
            lowered_all(b, tab, n).0,
            lowered(s.last(), tab, n1).0,
            lowered(t.last(), tab, n1).0,
            ps,
        );
    }
}

proof fn filters_respell(s: Seq<Expr>, t: Seq<Expr>, tab: SymbolTable, ps: Pairs, n: nat)
    requires
        respelled_all(s, t, tab, ps),
    ensures
        alike(own(), lowered_filters(s, tab, n).0, lowered_filters(t, tab, n).0, ps),
        lowered_filters(s, tab, n).1 == lowered_filters(t, tab, n).1,
    decreases s, 0nat, 0nat,
{
    if s.len() == 1 {
        translation_respells(s.last(), t.last(), tab, ps, n);
    } else if s.len() > 1 {
        let a = s.drop_last();
        let b = t.drop_last();
        filters_respell(a, b, tab, ps, n);
        let n1 = lowered_filters(a, tab, n).1;
        translation_respells(s.last(), t.last(), tab, ps, n1);
        call2_alike(
            "erlang"@,
            "and"@,
            lowered_filters(a, tab, n).0,
            lowered(s.last(), tab, n1).0,
            lowered_filters(b, tab, n).0,
            lowered(t.last(), tab, n1).0,
            ps,
        );
    }
}

proof fn entries_respell(
    s: Seq<(Expr, Expr)>,
    t: Seq<(Expr, Expr)>,
    tab: SymbolTable,
    ps: Pairs,
    n: nat,
)
    requires
        respelled_pairs(s, t, tab, ps),
    ensures
        entries_alike(own(), lowered_entries(s, tab, n).0, lowered_entries(t, tab, n).0, ps),
        lowered_entries(s, tab, n).1 == lowered_entries(t, tab, n).1,
    decreases s, 0nat, 0nat,
{
    if s.len() > 0 {
        let a = s.drop_last();
        let b = t.drop_last();
        entries_respell(a, b, tab, ps, n);
        let (v, n1) = lowered_entries(a, tab, n);
        let w = lowered_entries(b, tab, n).0;
        translation_respells(s.last().0, t.last().0, tab, ps, n1);
        translation_respells(s.last().1, t.last().1, tab, ps, lowered(s.last().0, tab, n1).1);
        let x = lowered_entries(s, tab, n).0;
        let y = lowered_entries(t, tab, n).0;
        assert forall|i: int| 0 <= i < x.len() implies alike(own(), (#[trigger] x[i]).0, y[i].0, ps)
            && alike(own(), x[i].1, y[i].1, ps) by {
            if i < v.len() {
                assert(alike(own(), v[i].0, w[i].0, ps) && alike(own(), v[i].1, w[i].1, ps));
            }
        }
    }
}

proof fn fields_respell(
    s: Seq<(String, Expr)>,
    t: Seq<(String, Expr)>,
    tab: SymbolTable,
    ps: Pairs,
    n: nat,
)
    requires
        respelled_fields(s, t, tab, ps),
    ensures
        entries_alike(own(), lowered_fields(s, tab, n).0, lowered_fields(t, tab, n).0, ps),
        lowered_fields(s, tab, n).1 == lowered_fields(t, tab, n).1,
    decreases s, 0nat, 0nat,
{
    if s.len() > 0 {
        let a = s.drop_last();
        let b = t.drop_last();
        fields_respell(a, b, tab, ps, n);
        let (v, n1) = lowered_fields(a, tab, n);
        let w = lowered_fields(b, tab, n).0;
        translation_respells(s.last().1, t.last().1, tab, ps, n1);
        let x = lowered_fields(s, tab, n).0;
        let y = lowered_fields(t, tab, n).0;
        assert forall|i: int| 0 <= i < x.len() implies alike(own(), (#[trigger] x[i]).0, y[i].0, ps)
            && alike(own(), x[i].1, y[i].1, ps) by {
            if i < v.len() {
                assert(alike(own(), v[i].0, w[i].0, ps) && alike(own(), v[i].1, w[i].1, ps));
            }
        }
    }
}

proof fn record_respells(
    s: Seq<(String, Expr)>,
    t: Seq<(String, Expr)>,
    tab: SymbolTable,
    ps: Pairs,
    n: nat,
)
    requires
        respelled_fields(s, t, tab, ps),
    ensures
        all_alike(own(), lowered_record(s, tab, n).0, lowered_record(t, tab, n).0, ps),
        lowered_record(s, tab, n).1 == lowered_record(t, tab, n).1,
    decreases s, 0nat, 0nat,
{
    if s.len() > 0 {
        let a = s.drop_last();
        let b = t.drop_last();
        record_respells(a, b, tab, ps, n);
        let (v, n1) = lowered_record(a, tab, n);
        let w = lowered_record(b, tab, n).0;
        translation_respells(s.last().1, t.last().1, tab, ps, n1);
        let key = shape::atom(s.last().0@);
        pushed_alike(v, w, key, key, ps);
        pushed_alike(
            v.push(key),
            w.push(key),
            lowered(s.last().1, tab, n1).0,
            lowered(t.last().1, tab, n1).0,
            ps,
        );
    }
}

proof fn parts_respell(
    s: Seq<InterpolatedPart>,
    t: Seq<InterpolatedPart>,
    tab: SymbolTable,
    ps: Pairs,
    n: nat,
)
    requires
        respelled_parts(s, t, tab, ps),
    ensures
        lowered_parts(s, tab, n).0 == lowered_parts(t, tab, n).0,
        all_alike(own(), lowered_parts(s, tab, n).1, lowered_parts(t, tab, n).1, ps),
        lowered_parts(s, tab, n).2 == lowered_parts(t, tab, n).2,
    decreases s, 0nat, 0nat,
{
    if s.len() > 0 {
        let a = s.drop_last();
        let b = t.drop_last();
        parts_respell(a, b, tab, ps, n);
        let (_, v, n1) = lowered_parts(a, tab, n);
        let (_, w, _) = lowered_parts(b, tab, n);
        part_values(s.last(), t.last(), tab, ps);
        match (s.last(), t.last()) {
            (InterpolatedPart::Expr(x), InterpolatedPart::Expr(y)) => {
                translation_respells(x, y, tab, ps, n1);
                pushed_alike(v, w, lowered(x, tab, n1).0, lowered(y, tab, n1).0, ps);
            },
            _ => {},
        }
    }
}

proof fn segments_respell(
    s: Seq<BitStringSegment>,
    t: Seq<BitStringSegment>,
    tab: SymbolTable,
    ps: Pairs,
    n: nat,
)
    requires
        respelled_segments(s, t, tab, ps),
    ensures
        segments_alike(own(), lowered_segments(s, tab, n).0, lowered_segments(t, tab, n).0, ps),
        lowered_segments(s, tab, n).1 == lowered_segments(t, tab, n).1,
    decreases s, 0nat, 0nat,
{
    if s.len() > 0 {
        let a = s.drop_last();
        let b = t.drop_last();
        segments_respell(a, b, tab, ps, n);
        let (v, n1) = lowered_segments(a, tab, n);
        let w = lowered_segments(b, tab, n).0;
        translation_respells(s.last().value, t.last().value, tab, ps, n1);
        same_kind(s.last().value, t.last().value, tab, ps);
        segment_parts(s.last(), tab, n1);
        segment_parts(t.last(), tab, n1);
        let x = lowered_segments(s, tab, n).0;
        let y = lowered_segments(t, tab, n).0;
        assert forall|i: int| 0 <= i < x.len() implies alike(own(), (#[trigger] x[i]).value, y[i].value, ps)
            && x[i].size == y[i].size && x[i].kind == y[i].kind by {
            if i < v.len() {
                assert(alike(own(), v[i].value, w[i].value, ps));
            }
        }
    }
}

proof fn segment_parts(s: BitStringSegment, tab: SymbolTable, n: nat)
    ensures
        lowered_segment(s, tab, n).0.value == lowered(s.value, tab, n).0,
        lowered_segment(s, tab, n).1 == lowered(s.value, tab, n).1,
{
}

proof fn cond_respells(
    s: Seq<(Expr, Expr)>,
    t: Seq<(Expr, Expr)>,
    tab: SymbolTable,
    ps: Pairs,
    x: Core,
    y: Core,
    n: nat,
)
    requires
        respelled_pairs(s, t, tab, ps),
        same_elses(s, t),
        alike(own(), x, y, ps),
    ensures
        alike(own(), lowered_cond(s, tab, x, n).0, lowered_cond(t, tab, y, n).0, ps),
        lowered_cond(s, tab, x, n).1 == lowered_cond(t, tab, y, n).1,
    decreases s, 0nat, 0nat,
{
    if s.len() > 0 {
        let k = s.len() - 1;
        assert(is_else(s[k].0) == is_else(t[k].0));
        translation_respells(s.last().0, t.last().0, tab, ps, n);
        let (c, n1) = lowered(s.last().0, tab, n);
        let d = lowered(t.last().0, tab, n).0;
        translation_respells(s.last().1, t.last().1, tab, ps, n1);
        let (a, n2) = lowered(s.last().1, tab, n1);
        let b = lowered(t.last().1, tab, n1).0;
        if_else_alike(c, a, x, d, b, y, ps);
        let u = if is_else(s.last().0) {
            a
        } else {
            shape::if_else(c, a, x)
        };
        let v = if is_else(t.last().0) {
            b
        } else {
            shape::if_else(d, b, y)
        };
        assert forall|i: int| 0 <= i < k implies is_else((#[trigger] s.drop_last()[i]).0) == is_else(
            t.drop_last()[i].0,
        ) by {
            assert(is_else(s[i].0) == is_else(t[i].0));
        }
        cond_respells(s.drop_last(), t.drop_last(), tab, ps, u, v, n2);
    }
}

proof fn arms_respell(s: Seq<MatchArm>, t: Seq<MatchArm>, tab: SymbolTable, ps: Pairs, n: nat)
    requires
        respelled_arms(s, t, tab, ps),
    ensures
        clauses_alike(own(), lowered_arms(s, tab, n).0, lowered_arms(t, tab, n).0, ps),
        lowered_arms(s, tab, n).1 == lowered_arms(t, tab, n).1,
    decreases s, 0nat, 0nat,
{
    if s.len() > 0 {
        let a = s.drop_last();
        let b = t.drop_last();
        arms_respell(a, b, tab, ps, n);
        let (v, n1) = lowered_arms(a, tab, n);
        let w = lowered_arms(b, tab, n).0;
        arm_respells(s.last(), t.last(), tab, ps, n1);
        let x = lowered_arms(s, tab, n).0;
        let y = lowered_arms(t, tab, n).0;
        assert forall|i: int| 0 <= i < x.len() implies clause_alike(
            own(),
            #[trigger] x[i],
            y[i],
            ps,
        ) by {
            if i < v.len() {
                assert(clause_alike(own(), v[i], w[i], ps));
            }
        }
    }
}

proof fn arm_respells(s: MatchArm, t: MatchArm, tab: SymbolTable, ps: Pairs, n: nat)
    requires
        respelled_arm(s, t, tab, ps),
    ensures
        clause_alike(own(), lowered_arm(s, tab, n).0, lowered_arm(t, tab, n).0, ps),
        lowered_arm(s, tab, n).1 == lowered_arm(t, tab, n).1,
    decreases s, 0nat, 0nat,
{
    let inner = behind(s.pattern, t.pattern, ps);
    let p = lowered_pattern(s.pattern);
    let q = lowered_pattern(t.pattern);
    match (s.guard, t.guard) {
        (Some(x), Some(y)) => {
            translation_respells(x, y, tab, inner, n);
            let n1 = lowered(x, tab, n).1;
            translation_respells(s.body, t.body, tab, inner, n1);
            clause1_alike(
                p,
                q,
                lowered(x, tab, n).0,
                lowered(s.body, tab, n1).0,
                lowered(y, tab, n).0,
                lowered(t.body, tab, n1).0,
                ps,
            );
        },
        _ => {
            translation_respells(s.body, t.body, tab, inner, n);
            let yes = shape::atom("true"@);
            clause1_alike(
                p,
                q,
                yes,
                lowered(s.body, tab, n).0,
                yes,
                lowered(t.body, tab, n).0,
                ps,
            );
        },
    }
}

proof fn catch_arms_respell(s: Seq<CatchArm>, t: Seq<CatchArm>, tab: SymbolTable, ps: Pairs, n: nat)
    requires
        respelled_catch_arms(s, t, tab, ps),
    ensures
        clauses_alike(own(), lowered_catch_arms(s, tab, n).0, lowered_catch_arms(t, tab, n).0, ps),
        lowered_catch_arms(s, tab, n).1 == lowered_catch_arms(t, tab, n).1,
        s.len() == t.len(),
    decreases s, 0nat, 0nat,
{
    if s.len() > 0 {
        let a = s.drop_last();
        let b = t.drop_last();
        catch_arms_respell(a, b, tab, ps, n);
        let (v, n1) = lowered_catch_arms(a, tab, n);
        let w = lowered_catch_arms(b, tab, n).0;
        catch_arm_respells(s.last(), t.last(), tab, ps, n1);
        let x = lowered_catch_arms(s, tab, n).0;
        let y = lowered_catch_arms(t, tab, n).0;
        assert forall|i: int| 0 <= i < x.len() implies clause_alike(
            own(),
            #[trigger] x[i],
            y[i],
            ps,
        ) by {
            if i < v.len() {
                assert(clause_alike(own(), v[i], w[i], ps));
            }
        }
    }
}

proof fn catch_arm_respells(s: CatchArm, t: CatchArm, tab: SymbolTable, ps: Pairs, n: nat)
    requires
        respelled_catch_arm(s, t, tab, ps),
    ensures
        clause_alike(own(), lowered_catch_arm(s, tab, n).0, lowered_catch_arm(t, tab, n).0, ps),
        lowered_catch_arm(s, tab, n).1 == lowered_catch_arm(t, tab, n).1,
    decreases s, 0nat, 0nat,
{
    let inner = behind(s.pattern, t.pattern, ps);
    let class = match s.class {
        Some(c) => shape::patom(c@),
        None => shape::pvar("_"@),
    };
    let p = lowered_pattern(s.pattern);
    let q = lowered_pattern(t.pattern);
    translation_respells(s.body, t.body, tab, inner, n);
    fixed_introduced();
    tagged_pairs(class, p, q);
    let yes = shape::atom("true"@);
    clause1_alike(
        shape::ptup2(class, p),
        shape::ptup2(class, q),
        yes,
        lowered(s.body, tab, n).0,
        yes,
        lowered(t.body, tab, n).0,
        ps,
    );
}

proof fn tagged_pairs(c: Pat, p: Pat, q: Pat)
    requires
        pat_alike(own(), c, c),
        pat_pairs(own(), c, c).len() == 0,
        pat_alike(own(), p, q),
    ensures
        pat_alike(own(), shape::ptup2(c, p), shape::ptup2(c, q)),
        pat_pairs(own(), shape::ptup2(c, p), shape::ptup2(c, q)) == pat_pairs(own(), p, q),
{
    let s = seq![c, p];
    let t = seq![c, q];
    assert(s.drop_last() =~= seq![c]);
    assert(t.drop_last() =~= seq![c]);
    assert(seq![c].drop_last() =~= Seq::empty());
    assert(pats_alike(own(), Seq::empty(), Seq::empty()));
    assert(pats_alike(own(), seq![c], seq![c]));
    assert(pats_alike(own(), s, t));
    assert(pats_pairs(own(), Seq::empty(), Seq::empty()) =~= Seq::empty());
    assert(pats_pairs(own(), seq![c], seq![c]) =~= Seq::empty());
    assert(pats_pairs(own(), s, t) =~= pat_pairs(own(), p, q));
}

/// The values that statements bind.
proof fn stmts_respell(s: Seq<Stmt>, t: Seq<Stmt>, tab: SymbolTable, ps: Pairs, n: nat)
    requires
        respelled_stmts(s, t, tab, ps),
    ensures
        lowered_stmts(s, tab, n).1 == lowered_stmts(t, tab, n).1,
        lowered_stmts(s, tab, n).0.len() == s.len(),
        lowered_stmts(t, tab, n).0.len() == s.len(),
        s.len() > 0 ==> part_alike(
            s.last(),
            t.last(),
            lowered_stmts(s, tab, n).0.last(),
            lowered_stmts(t, tab, n).0.last(),
            behind_stmts(s.drop_last(), t.drop_last(), ps),
        ),
    decreases s, 0nat, 0nat,
{
    if s.len() > 0 {
        let a = s.drop_last();
        let b = t.drop_last();
        stmts_respell(a, b, tab, ps, n);
        let n1 = lowered_stmts(a, tab, n).1;
        let qs = behind_stmts(a, b, ps);
        stmt_values(s.last(), t.last(), tab, qs);
        match (s.last(), t.last()) {
            (Stmt::Let(p, x), Stmt::Let(q, y)) => {
                translation_respells(x, y, tab, qs, n1);
                stmt_parts(s.last(), tab, n1);
                stmt_parts(t.last(), tab, n1);
                fresh_introduced(lowered(x, tab, n1).1);
            },
            (Stmt::Expr(x), Stmt::Expr(y)) => {
                translation_respells(x, y, tab, qs, n1 + 1);
                stmt_parts(s.last(), tab, n1);
                stmt_parts(t.last(), tab, n1);
                fresh_introduced(n1);
            },
            _ => {},
        }
    }
}

/// Whether what two statements bind is alike.
spec fn part_alike(s: Stmt, t: Stmt, a: Part, b: Part, ps: Pairs) -> bool {
    match (s, t) {
        (Stmt::Let(p, _), Stmt::Let(q, _)) => respelled_pattern(p, q) && (match (p, q) {
            (Pattern::Var(x), Pattern::Var(y)) => match (a, b) {
                (Part::Simple(v, c), Part::Simple(w, d)) => v == core_var(x@) && w == core_var(y@)
                    && alike(own(), c, d, ps),
                _ => false,
            },
            (Pattern::Wildcard, _) => match (a, b) {
                (Part::Simple(v, c), Part::Simple(w, d)) => v == w && introduced(v) && alike(
                    own(),
                    c,
                    d,
                    ps,
                ),
                _ => false,
            },
            _ => match (a, b) {
                (Part::Destructure(v, c), Part::Destructure(w, d)) => v == lowered_pattern(p) && w
                    == lowered_pattern(q) && alike(own(), c, d, ps),
                _ => false,
            },
        }),
        _ => match (a, b) {
            (Part::Simple(v, c), Part::Simple(w, d)) => v == w && introduced(v)
                && alike(own(), c, d, ps)
                && s is Expr && t is Expr,
            _ => false,
        },
    }
}

proof fn stmt_parts(s: Stmt, tab: SymbolTable, n: nat)
    ensures
        match s {
            Stmt::Let(p, x) => match p {
                Pattern::Var(v) => lowered_stmt(s, tab, n) == (
                    Part::Simple(core_var(v@), lowered(x, tab, n).0),
                    lowered(x, tab, n).1,
                ),
                Pattern::Wildcard => lowered_stmt(s, tab, n) == (
                    Part::Simple(fresh_name(lowered(x, tab, n).1), lowered(x, tab, n).0),
                    lowered(x, tab, n).1 + 1,
                ),
                _ => lowered_stmt(s, tab, n) == (
                    Part::Destructure(lowered_pattern(p), lowered(x, tab, n).0),
                    lowered(x, tab, n).1,
                ),
            },
            Stmt::Expr(x) => lowered_stmt(s, tab, n) == (
                Part::Simple(fresh_name(n), lowered(x, tab, n + 1).0),
                lowered(x, tab, n + 1).1,
            ),
        },
{
}

/// A body behind statements.
proof fn wrapped_respells(
    s: Seq<Stmt>,
    t: Seq<Stmt>,
    tab: SymbolTable,
    ps: Pairs,
    n: nat,
    x: Core,
    y: Core,
)
    requires
        respelled_stmts(s, t, tab, ps),
        alike(own(), x, y, behind_stmts(s, t, ps)),
    ensures
        alike(
            own(),
            wrapped(lowered_stmts(s, tab, n).0, x),
            wrapped(lowered_stmts(t, tab, n).0, y),
            ps,
        ),
    decreases s, 1nat, 0nat,
{
    if s.len() > 0 {
        let a = s.drop_last();
        let b = t.drop_last();
        let v = lowered_stmts(s, tab, n).0;
        let w = lowered_stmts(t, tab, n).0;
        let qs = behind_stmts(a, b, ps);
        stmts_respell(s, t, tab, ps, n);
        assert(v.drop_last() =~= lowered_stmts(a, tab, n).0);
        assert(w.drop_last() =~= lowered_stmts(b, tab, n).0);
        match (v.last(), w.last()) {
            (Part::Simple(g, c), Part::Simple(h, d)) => {
                simple_pairs(s.last(), t.last(), g, h, qs);
                let1_alike(g, h, c, x, d, y, qs);
                wrapped_respells(
                    a,
                    b,
                    tab,
                    ps,
                    n,
                    shape::let1(g, c, x),
                    shape::let1(h, d, y),
                );
            },
            (Part::Destructure(p, c), Part::Destructure(q, d)) => {
                let yes = shape::atom("true"@);
                clause1_alike(p, q, yes, x, yes, y, qs);
                case1_alike(c, d, shape::when(p, x), shape::when(q, y), qs);
                wrapped_respells(
                    a,
                    b,
                    tab,
                    ps,
                    n,
                    shape::case1(c, shape::when(p, x)),
                    shape::case1(d, shape::when(q, y)),
                );
            },
            _ => {},
        }
    }
}

/// What a statement that binds one variable leaves bound.
proof fn simple_pairs(s: Stmt, t: Stmt, g: Seq<char>, h: Seq<char>, ps: Pairs)
    requires
        match (s, t) {
            (Stmt::Let(p, _), Stmt::Let(q, _)) => respelled_pattern(p, q) && (match (p, q) {
                (Pattern::Var(x), Pattern::Var(y)) => g == core_var(x@) && h == core_var(y@),
                (Pattern::Wildcard, _) => g == h && introduced(g),
                _ => false,
            }),
            _ => s is Expr && t is Expr && g == h && introduced(g),
        },
    ensures
        same_binder(own(), g, h),
        with_binder(own(), ps, g, h) == match (s, t) {
            (Stmt::Let(p, _), Stmt::Let(q, _)) => behind(p, q, ps),
            _ => ps,
        },
{
    fixed_introduced();
    match (s, t) {
        (Stmt::Let(p, _), Stmt::Let(q, _)) => {
            assert(with_binder(own(), ps, g, h) =~= behind(p, q, ps));
        },
        _ => {},
    }
}

/// A list comprehension from generator number `at` on.
#[verifier::rlimit(40)]
#[verifier::spinoff_prover]
proof fn comp_respells(
    e: Expr,
    f: Expr,
    tab: SymbolTable,
    ps: Pairs,
    at: nat,
    plain: bool,
    n: nat,
)
    requires
        respelled(e, f, tab, ps),
        e is ListComp,
        at <= e->generators@.len(),
    ensures
        alike(
            own(),
            lowered_comp(e, tab, at, plain, n).0,
            lowered_comp(f, tab, at, plain, n).0,
            behind_generators(e->generators@, f->generators@, ps, at),
        ),
        lowered_comp(e, tab, at, plain, n).1 == lowered_comp(f, tab, at, plain, n).1,
    decreases e, 0nat, generators_left(e, at),
{
    match (e, f) {
        (
            Expr::ListComp { expr: x, generators: g, filters: c },
            Expr::ListComp { expr: y, generators: h, filters: d },
        ) => {
            let here = behind_generators(g@, h@, ps, at);
            same_length(c@, d@, tab, behind_generators(g@, h@, ps, g@.len()));
            if at >= g@.len() {
                translation_respells(*x, *y, tab, here, n);
                let n1 = lowered(*x, tab, n).1;
                filters_respell(c@, d@, tab, here, n1);
                broadcast use group_shapes_alike;

            } else {
                let a = g@[at as int];
                let b = h@[at as int];
                assert(respelled_pattern(a.pattern, b.pattern));
                translation_respells(a.source, b.source, tab, here, n);
                let n1 = lowered(a.source, tab, n).1;
                let simple = g@.len() == 1 && a.pattern is Var;
                comp_respells(e, f, tab, ps, at + 1, simple, n1);
                let (u, n2) = lowered_comp(e, tab, at + 1, simple, n1);
                let v = lowered_comp(f, tab, at + 1, simple, n1).0;
                let p = lowered_pattern(a.pattern);
                let q = lowered_pattern(b.pattern);
                let inner = behind(a.pattern, b.pattern, here);
                assert(behind_generators(g@, h@, ps, at + 1) == inner);
                fixed_introduced();
                if simple {
                    match (a.pattern, b.pattern) {
                        (Pattern::Var(k), Pattern::Var(l)) => {
                            assert(with_binder(own(), here, core_var(k@), core_var(l@)) =~= inner);
                            fun1_alike(core_var(k@), core_var(l@), u, v, here);
                        },
                        _ => {},
                    }
                    broadcast use group_shapes_alike;

                } else {
                    let item = fresh_name(n2);
                    fresh_introduced(n2);
                    let yes = shape::atom("true"@);
                    clause1_alike(p, q, yes, u, yes, v, here);
                    broadcast use group_shapes_alike;

                    case2_alike(
                        shape::var(item),
                        shape::var(item),
                        shape::when(p, u),
                        shape::when(shape::pvar("_"@), shape::nil()),
                        shape::when(q, v),
                        shape::when(shape::pvar("_"@), shape::nil()),
                        here,
                    );
                }
            }
        },
        _ => {},
    }
}

/// Whether two functions differ in the names of parameters and of other bound
/// variables alone, as the translation sees them.
pub open spec fn respelled_function(f: Function, g: Function, tab: SymbolTable) -> bool {
    let s = param_vars(f.params@);
    let t = param_vars(g.params@);
    &&& same_binders(own(), s, t)
    &&& respelled(f.body, g.body, tab, with_binders(own(), Seq::empty(), s, t))
}

/// The canonical translation of a function does not depend on the names of its
/// parameters and of its other bound variables.
pub proof fn canonical_translation_ignores_binders(f: Function, g: Function, tab: SymbolTable)
    requires
        respelled_function(f, g, tab),
    ensures
        applied(f, tab, 0).0 == applied(g, tab, 0).0,
{
    let s = param_vars(f.params@);
    let t = param_vars(g.params@);
    translation_respells(f.body, g.body, tab, with_binders(own(), Seq::empty(), s, t), 0);
    let a = FunDef {
        name: "apply"@,
        arity: f.params@.len(),
        params: s,
        body: lowered(f.body, tab, 0).0,
    };
    let b = FunDef {
        name: "apply"@,
        arity: g.params@.len(),
        params: t,
        body: lowered(g.body, tab, 0).0,
    };
    assert(fundef_alike(own(), a, b));
    canonical_form_ignores_binders(own(), a, b);
}

} // verus!
