//! Exchanging two variables throughout a Core term, which changes nothing about
//! its canonical form.
use vstd::prelude::*;
use crate::canon::{
    bind_all, bind_once, binder_names, canon, canon_clause, canon_clauses, canon_entries,
    canon_fundef, canon_pat, canon_pat_segments, canon_pats, canon_segments, canon_values,
    canonical, canons, Bound, Names,
};
use crate::erlang::{Clause, Core, FunDef, Pat, PatSegment, Segment};
use crate::names::found;

verus! {

/// Two variables that are exchanged.
pub struct Swap {
    pub a: Seq<char>,
    pub b: Seq<char>,
}

/// Whether neither is the variable that stands for anything.
pub open spec fn plain_swap(w: Swap) -> bool {
    w.a != "_"@ && w.b != "_"@
}

/// A variable after the exchange.
pub open spec fn swap_name(w: Swap, x: Seq<char>) -> Seq<char> {
    if x == w.a {
        w.b
    } else if x == w.b {
        w.a
    } else {
        x
    }
}

pub open spec fn swap_names(w: Swap, s: Seq<Seq<char>>) -> Seq<Seq<char>> {
    Seq::new(s.len(), |i: int| swap_name(w, s[i]))
}

/// Whether the exchange moves a variable.
pub open spec fn moved(w: Swap, x: Seq<char>) -> bool {
    x == w.a || x == w.b
}

/// A pattern after the exchange.
pub open spec fn swap_pat(w: Swap, p: Pat) -> Pat
    decreases p,
{
    match p {
        Pat::Lit(_) => p,
        Pat::Nil => p,
        Pat::Var(x) => Pat::Var(swap_name(w, x)),
        Pat::Tuple(items) => Pat::Tuple(swap_pats(w, items)),
        Pat::Cons(h, t) => Pat::Cons(Box::new(swap_pat(w, *h)), Box::new(swap_pat(w, *t))),
        Pat::Binary(segments) => Pat::Binary(swap_pat_segments(w, segments)),
        Pat::Alias(x, inner) => Pat::Alias(swap_name(w, x), Box::new(swap_pat(w, *inner))),
    }
}

pub open spec fn swap_pats(w: Swap, s: Seq<Pat>) -> Seq<Pat>
    decreases s,
{
    if s.len() == 0 {
        Seq::empty()
    } else {
        swap_pats(w, s.drop_last()).push(swap_pat(w, s.last()))
    }
}

pub open spec fn swap_pat_segments(w: Swap, s: Seq<PatSegment>) -> Seq<PatSegment>
    decreases s,
{
    if s.len() == 0 {
        Seq::empty()
    } else {
        swap_pat_segments(w,
            s.drop_last()).push(PatSegment { pattern: swap_pat(w, s.last().pattern),
            size: s.last().size, kind: s.last().kind })
    }
}

/// A term after the exchange.
pub open spec fn swap_core(w: Swap, e: Core) -> Core
    decreases e,
{
    match e {
        Core::Lit(_) => e,
        Core::LocalFunRef(_, _) => e,
        Core::RemoteFunRef(_, _, _) => e,
        Core::Var(x) => Core::Var(swap_name(w, x)),
        Core::Tuple(items) => Core::Tuple(swap_cores(w, items)),
        Core::List(items, tail) => Core::List(swap_cores(w, items), Box::new(swap_core(w, *tail))),
        Core::Cons(h, t) => Core::Cons(Box::new(swap_core(w, *h)), Box::new(swap_core(w, *t))),
        Core::MapLit(entries) => Core::MapLit(swap_entries(w, entries)),
        Core::Binary(segments) => Core::Binary(swap_segments(w, segments)),
        Core::Apply(f, args) => Core::Apply(Box::new(swap_core(w, *f)), swap_cores(w, args)),
        Core::Call(m, f, args) => Core::Call(m, f, swap_cores(w, args)),
        Core::Let(bindings, body) => Core::Let(
            swap_bindings(w, bindings),
            Box::new(swap_core(w, *body)),
        ),
        Core::Case(x, clauses) => Core::Case(Box::new(swap_core(w, *x)), swap_clauses(w, clauses)),
        Core::Receive(clauses, timeout) => Core::Receive(
            swap_clauses(w, clauses),
            match timeout {
                Some((ms, body)) => Some(
                    (Box::new(swap_core(w, *ms)), Box::new(swap_core(w, *body))),
                ),
                None => None,
            },
        ),
        Core::Fun(params, body) => Core::Fun(swap_names(w, params), Box::new(swap_core(w, *body))),
        Core::Primop(op, args) => Core::Primop(op, swap_cores(w, args)),
        Core::Sequence(a, b) => Core::Sequence(
            Box::new(swap_core(w, *a)),
            Box::new(swap_core(w, *b)),
        ),
        Core::Try(body, vars, handler, evars, catch) => Core::Try(
            Box::new(swap_core(w, *body)),
            swap_names(w, vars),
            Box::new(swap_core(w, *handler)),
            swap_names(w, evars),
            Box::new(swap_core(w, *catch)),
        ),
    }
}

pub open spec fn swap_cores(w: Swap, s: Seq<Core>) -> Seq<Core>
    decreases s,
{
    if s.len() == 0 {
        Seq::empty()
    } else {
        swap_cores(w, s.drop_last()).push(swap_core(w, s.last()))
    }
}

pub open spec fn swap_entries(w: Swap, s: Seq<(Core, Core)>) -> Seq<(Core, Core)>
    decreases s,
{
    if s.len() == 0 {
        Seq::empty()
    } else {
        swap_entries(w, s.drop_last()).push((swap_core(w, s.last().0), swap_core(w, s.last().1)))
    }
}

pub open spec fn swap_segments(w: Swap, s: Seq<Segment>) -> Seq<Segment>
    decreases s,
{
    if s.len() == 0 {
        Seq::empty()
    } else {
        swap_segments(w,
            s.drop_last()).push(Segment { value: swap_core(w, s.last().value), size: s.last().size,
            kind: s.last().kind })
    }
}

pub open spec fn swap_bindings(w: Swap, s: Seq<(Seq<char>, Core)>) -> Seq<(Seq<char>, Core)>
    decreases s,
{
    if s.len() == 0 {
        Seq::empty()
    } else {
        swap_bindings(w, s.drop_last()).push((swap_name(w, s.last().0), swap_core(w, s.last().1)))
    }
}

pub open spec fn swap_clause(w: Swap, c: Clause) -> Clause
    decreases c,
{
    Clause {
        patterns: swap_pats(w, c.patterns),
        guard: swap_core(w, c.guard),
        body: swap_core(w, c.body),
    }
}

pub open spec fn swap_clauses(w: Swap, s: Seq<Clause>) -> Seq<Clause>
    decreases s,
{
    if s.len() == 0 {
        Seq::empty()
    } else {
        swap_clauses(w, s.drop_last()).push(swap_clause(w, s.last()))
    }
}

/// The variables that a pattern binds.
pub open spec fn pat_vars(p: Pat) -> Set<Seq<char>>
    decreases p,
{
    match p {
        Pat::Lit(_) => Set::empty(),
        Pat::Nil => Set::empty(),
        Pat::Var(x) => if x == "_"@ {
            Set::empty()
        } else {
            set![x]
        },
        Pat::Tuple(items) => pats_vars(items),
        Pat::Cons(h, t) => pat_vars(*h) + pat_vars(*t),
        Pat::Binary(segments) => pat_segments_vars(segments),
        Pat::Alias(x, inner) => pat_vars(*inner).insert(x),
    }
}

pub open spec fn pats_vars(s: Seq<Pat>) -> Set<Seq<char>>
    decreases s,
{
    if s.len() == 0 {
        Set::empty()
    } else {
        pats_vars(s.drop_last()) + pat_vars(s.last())
    }
}

pub open spec fn pat_segments_vars(s: Seq<PatSegment>) -> Set<Seq<char>>
    decreases s,
{
    if s.len() == 0 {
        Set::empty()
    } else {
        pat_segments_vars(s.drop_last()) + pat_vars(s.last().pattern)
    }
}

/// The names of a list, as a set.
pub open spec fn all_names(s: Seq<Seq<char>>) -> Set<Seq<char>> {
    Set::new(|x: Seq<char>| s.contains(x))
}

/// Whether neither of the two variables is free in a term: wherever one is
/// used it is bound around that place, or it is one of `s`.
pub open spec fn covered(w: Swap, e: Core, s: Set<Seq<char>>) -> bool
    decreases e,
{
    match e {
        Core::Lit(_) => true,
        Core::LocalFunRef(_, _) => true,
        Core::RemoteFunRef(_, _, _) => true,
        Core::Var(x) => moved(w, x) ==> s.contains(x),
        Core::Tuple(items) => all_covered(w, items, s),
        Core::List(items, tail) => all_covered(w, items, s) && covered(w, *tail, s),
        Core::Cons(h, t) => covered(w, *h, s) && covered(w, *t, s),
        Core::MapLit(entries) => entries_covered(w, entries, s),
        Core::Binary(segments) => segments_covered(w, segments, s),
        Core::Apply(f, args) => covered(w, *f, s) && all_covered(w, args, s),
        Core::Call(_, _, args) => all_covered(w, args, s),
        Core::Let(bindings, body) => values_covered(w, bindings, s) && covered(
            w,
            *body,
            s + all_names(binder_names(bindings)),
        ),
        Core::Case(x, clauses) => covered(w, *x, s) && clauses_covered(w, clauses, s),
        Core::Receive(clauses, timeout) => clauses_covered(w, clauses, s) && (match timeout {
            Some((ms, body)) => covered(w, *ms, s) && covered(w, *body, s),
            None => true,
        }),
        Core::Fun(params, body) => covered(w, *body, s + all_names(params)),
        Core::Primop(_, args) => all_covered(w, args, s),
        Core::Sequence(a, b) => covered(w, *a, s) && covered(w, *b, s),
        Core::Try(body, vars, handler, evars, catch) => covered(w, *body, s) && covered(
            w,
            *handler,
            s + all_names(vars),
        ) && covered(w, *catch, s + all_names(evars)),
    }
}

pub open spec fn all_covered(w: Swap, v: Seq<Core>, s: Set<Seq<char>>) -> bool
    decreases v,
{
    v.len() > 0 ==> all_covered(w, v.drop_last(), s) && covered(w, v.last(), s)
}

pub open spec fn entries_covered(w: Swap, v: Seq<(Core, Core)>, s: Set<Seq<char>>) -> bool
    decreases v,
{
    v.len() > 0
        ==> entries_covered(w, v.drop_last(), s) && covered(w, v.last().0, s)
        && covered(w, v.last().1, s)
}

pub open spec fn segments_covered(w: Swap, v: Seq<Segment>, s: Set<Seq<char>>) -> bool
    decreases v,
{
    v.len() > 0 ==> segments_covered(w, v.drop_last(), s) && covered(w, v.last().value, s)
}

pub open spec fn values_covered(w: Swap, v: Seq<(Seq<char>, Core)>, s: Set<Seq<char>>) -> bool
    decreases v,
{
    v.len() > 0 ==> values_covered(w, v.drop_last(), s) && covered(w, v.last().1, s)
}

pub open spec fn clause_covered(w: Swap, c: Clause, s: Set<Seq<char>>) -> bool
    decreases c,
{
    &&& covered(w, c.guard, s + pats_vars(c.patterns))
    &&& covered(w, c.body, s + pats_vars(c.patterns))
}

pub open spec fn clauses_covered(w: Swap, v: Seq<Clause>, s: Set<Seq<char>>) -> bool
    decreases v,
{
    v.len() > 0 ==> clauses_covered(w, v.drop_last(), s) && clause_covered(w, v.last(), s)
}

/// The names in scope after the exchange.
pub open spec fn swap_env(w: Swap, env: Names) -> Names {
    Seq::new(env.len(), |i: int| (swap_name(w, env[i].0), env[i].1))
}

pub open spec fn swap_bound(w: Swap, b: Bound) -> Bound {
    Bound { next: b.next, env: swap_env(w, b.env), here: swap_env(w, b.here) }
}

/// Whether every name of `s` is in scope.
pub open spec fn in_scope(env: Names, s: Set<Seq<char>>) -> bool {
    forall|x: Seq<char>| #[trigger] s.contains(x) ==> found(env, x) is Some
}

/// A name has the canonical name that it had before the exchange.
pub proof fn lemma_found(w: Swap, env: Names, x: Seq<char>)
    ensures
        found(swap_env(w, env), swap_name(w, x)) == found(env, x),
    decreases env.len(),
{
    if env.len() > 0 {
        assert(swap_env(w, env).drop_last() =~= swap_env(w, env.drop_last()));
        lemma_found(w, env.drop_last(), x);
    }
}

pub proof fn lemma_env_push(w: Swap, env: Names, x: Seq<char>, c: Seq<char>)
    ensures
        swap_env(w, env.push((x, c))) == swap_env(w, env).push((swap_name(w, x), c)),
{
    assert(swap_env(w, env.push((x, c))) =~= swap_env(w, env).push((swap_name(w, x), c)));
}

proof fn lemma_bind_all(w: Swap, env: Names, names: Seq<Seq<char>>, n: nat)
    ensures
        bind_all(swap_env(w, env), swap_names(w, names), n) == swap_env(w, bind_all(env, names, n)),
    decreases names.len(),
{
    if names.len() > 0 {
        let c = canonical((n + names.len() - 1) as nat);
        lemma_bind_all(w, env, names.drop_last(), n);
        assert(swap_names(w, names).drop_last() =~= swap_names(w, names.drop_last()));
        lemma_env_push(w, bind_all(env, names.drop_last(), n), names.last(), c);
    }
}

proof fn lemma_scope_push(env: Names, s: Set<Seq<char>>, x: Seq<char>, c: Seq<char>)
    requires
        in_scope(env, s),
    ensures
        in_scope(env.push((x, c)), s),
        in_scope(env.push((x, c)), s.insert(x)),
{
    assert(env.push((x, c)).drop_last() =~= env);
}

proof fn lemma_scope_all(env: Names, s: Set<Seq<char>>, names: Seq<Seq<char>>, n: nat)
    requires
        in_scope(env, s),
    ensures
        in_scope(bind_all(env, names, n), s + all_names(names)),
    decreases names.len(),
{
    if names.len() > 0 {
        let front = names.drop_last();
        lemma_scope_all(env, s, front, n);
        let c = canonical((n + names.len() - 1) as nat);
        lemma_scope_push(bind_all(env, front, n), s + all_names(front), names.last(), c);
        assert forall|x: Seq<char>| #[trigger] (s + all_names(names)).contains(x) implies (s
            + all_names(front)).insert(names.last()).contains(x) by {
            if names.contains(x) {
                let i = choose|i: int| 0 <= i < names.len() && names[i] == x;
                if i < front.len() {
                    assert(front[i] == x);
                }
            }
        }
    } else {
        assert(s + all_names(names) =~= s);
    }
}

proof fn lemma_bind_once(w: Swap, b: Bound, x: Seq<char>, s: Set<Seq<char>>)
    requires
        in_scope(b.env, s),
        in_scope(b.env, dom(b.here)),
    ensures
        bind_once(swap_bound(w, b), swap_name(w, x)) == (
            bind_once(b, x).0,
            swap_bound(w, bind_once(b, x).1),
        ),
        in_scope(bind_once(b, x).1.env, s.insert(x)),
        in_scope(bind_once(b, x).1.env, dom(bind_once(b, x).1.here)),
{
    let c = canonical(b.next);
    lemma_found(w, b.here, x);
    lemma_env_push(w, b.env, x, c);
    lemma_env_push(w, b.here, x, c);
    lemma_scope_push(b.env, s, x, c);
    lemma_scope_push(b.env, dom(b.here), x, c);
    match found(b.here, x) {
        Some(_) => {
            assert(dom(b.here).contains(x));
        },
        None => {
            assert(b.here.push((x, c)).drop_last() =~= b.here);
            assert(dom(b.here.push((x, c))) =~= dom(b.here).insert(x));
        },
    }
}

/// The names that have a canonical name.
spec fn dom(env: Names) -> Set<Seq<char>> {
    Set::new(|x: Seq<char>| found(env, x) is Some)
}

/// What renaming a pattern leaves is what it left before the exchange.
proof fn lemma_pat(w: Swap, p: Pat, b: Bound, s: Set<Seq<char>>)
    requires
        plain_swap(w),
        in_scope(b.env, s),
        in_scope(b.env, dom(b.here)),
    ensures
        canon_pat(swap_pat(w, p), swap_bound(w, b)) == (
            canon_pat(p, b).0,
            swap_bound(w, canon_pat(p, b).1),
        ),
        in_scope(canon_pat(p, b).1.env, s + pat_vars(p)),
        in_scope(canon_pat(p, b).1.env, dom(canon_pat(p, b).1.here)),
    decreases p,
{
    match p {
        Pat::Lit(_) => {
            assert(s + pat_vars(p) =~= s);
        },
        Pat::Nil => {
            assert(s + pat_vars(p) =~= s);
        },
        Pat::Var(x) => {
            reveal_strlit("_");
            assert("_"@[0] == '_');
            lemma_bind_once(w, b, x, s);
            if x == "_"@ {
                assert(s + pat_vars(p) =~= s);
            } else {
                assert(swap_name(w, x) != "_"@);
                assert(s + pat_vars(p) =~= s.insert(x));
            }
        },
        Pat::Tuple(items) => {
            lemma_pats(w, items, b, s);
        },
        Pat::Cons(h, t) => {
            lemma_pat(w, *h, b, s);
            let b1 = canon_pat(*h, b).1;
            lemma_pat(w, *t, b1, s + pat_vars(*h));
            assert(s + pat_vars(*h) + pat_vars(*t) =~= s + pat_vars(p));
        },
        Pat::Binary(segments) => {
            lemma_pat_segments(w, segments, b, s);
        },
        Pat::Alias(x, inner) => {
            lemma_bind_once(w, b, x, s);
            let b1 = bind_once(b, x).1;
            lemma_pat(w, *inner, b1, s.insert(x));
            assert(s.insert(x) + pat_vars(*inner) =~= s + pat_vars(p));
        },
    }
}

proof fn lemma_pats(w: Swap, v: Seq<Pat>, b: Bound, s: Set<Seq<char>>)
    requires
        plain_swap(w),
        in_scope(b.env, s),
        in_scope(b.env, dom(b.here)),
    ensures
        canon_pats(swap_pats(w, v), swap_bound(w, b)) == (
            canon_pats(v, b).0,
            swap_bound(w, canon_pats(v, b).1),
        ),
        in_scope(canon_pats(v, b).1.env, s + pats_vars(v)),
        in_scope(canon_pats(v, b).1.env, dom(canon_pats(v, b).1.here)),
    decreases v,
{
    if v.len() > 0 {
        let front = v.drop_last();
        lemma_pats(w, front, b, s);
        let b1 = canon_pats(front, b).1;
        lemma_pat(w, v.last(), b1, s + pats_vars(front));
        assert(swap_pats(w, v).drop_last() =~= swap_pats(w, front));
        assert(s + pats_vars(front) + pat_vars(v.last()) =~= s + pats_vars(v));
    } else {
        assert(s + pats_vars(v) =~= s);
    }
}

proof fn lemma_pat_segments(w: Swap, v: Seq<PatSegment>, b: Bound, s: Set<Seq<char>>)
    requires
        plain_swap(w),
        in_scope(b.env, s),
        in_scope(b.env, dom(b.here)),
    ensures
        canon_pat_segments(swap_pat_segments(w, v), swap_bound(w, b)) == (
            canon_pat_segments(v, b).0,
            swap_bound(w, canon_pat_segments(v, b).1),
        ),
        in_scope(canon_pat_segments(v, b).1.env, s + pat_segments_vars(v)),
        in_scope(canon_pat_segments(v, b).1.env, dom(canon_pat_segments(v, b).1.here)),
    decreases v,
{
    if v.len() > 0 {
        let front = v.drop_last();
        lemma_pat_segments(w, front, b, s);
        let b1 = canon_pat_segments(front, b).1;
        lemma_pat(w, v.last().pattern, b1, s + pat_segments_vars(front));
        assert(swap_pat_segments(w, v).drop_last() =~= swap_pat_segments(w, front));
        assert(s + pat_segments_vars(front) + pat_vars(v.last().pattern) =~= s + pat_segments_vars(v));
    } else {
        assert(s + pat_segments_vars(v) =~= s);
    }
}

/// The canonical form of a term in which neither variable is free is not
/// changed by the exchange.
pub proof fn exchange_keeps_canonical_form(w: Swap, e: Core, n: nat, env: Names, s: Set<Seq<char>>)
    requires
        plain_swap(w),
        covered(w, e, s),
        in_scope(env, s),
    ensures
        canon(swap_core(w, e), n, swap_env(w, env)) == canon(e, n, env),
    decreases e,
{
    match e {
        Core::Lit(_) => {},
        Core::LocalFunRef(_, _) => {},
        Core::RemoteFunRef(_, _, _) => {},
        Core::Var(x) => {
            lemma_found(w, env, x);
            if moved(w, x) {
                assert(s.contains(x));
            }
        },
        Core::Tuple(items) => {
            lemma_all(w, items, n, env, s);
        },
        Core::List(items, tail) => {
            lemma_all(w, items, n, env, s);
            exchange_keeps_canonical_form(w, *tail, canons(items, n, env).1, env, s);
        },
        Core::Cons(h, t) => {
            exchange_keeps_canonical_form(w, *h, n, env, s);
            exchange_keeps_canonical_form(w, *t, canon(*h, n, env).1, env, s);
        },
        Core::MapLit(entries) => {
            lemma_entries(w, entries, n, env, s);
        },
        Core::Binary(segments) => {
            lemma_segments(w, segments, n, env, s);
        },
        Core::Apply(f, args) => {
            exchange_keeps_canonical_form(w, *f, n, env, s);
            lemma_all(w, args, canon(*f, n, env).1, env, s);
        },
        Core::Call(_, _, args) => {
            lemma_all(w, args, n, env, s);
        },
        Core::Let(bindings, body) => {
            lemma_values(w, bindings, n, env, s);
            let n1 = canon_values(bindings, n, env).1;
            let k = bindings.len();
            let names = binder_names(bindings);
            lemma_bindings_len(w, bindings);
            assert(binder_names(swap_bindings(w, bindings)) =~= swap_names(w, names));
            lemma_bind_all(w, env, names, n1);
            lemma_scope_all(env, s, names, n1);
            exchange_keeps_canonical_form(
                w,
                *body,
                n1 + k,
                bind_all(env, names, n1),
                s + all_names(names),
            );
        },
        Core::Case(x, clauses) => {
            exchange_keeps_canonical_form(w, *x, n, env, s);
            lemma_clauses(w, clauses, canon(*x, n, env).1, env, s);
        },
        Core::Receive(clauses, timeout) => {
            lemma_clauses(w, clauses, n, env, s);
            let n1 = canon_clauses(clauses, n, env).1;
            match timeout {
                Some((ms, body)) => {
                    exchange_keeps_canonical_form(w, *ms, n1, env, s);
                    exchange_keeps_canonical_form(w, *body, canon(*ms, n1, env).1, env, s);
                },
                None => {},
            }
        },
        Core::Fun(params, body) => {
            lemma_bind_all(w, env, params, n);
            lemma_scope_all(env, s, params, n);
            exchange_keeps_canonical_form(
                w,
                *body,
                n + params.len(),
                bind_all(env, params, n),
                s + all_names(params),
            );
        },
        Core::Primop(_, args) => {
            lemma_all(w, args, n, env, s);
        },
        Core::Sequence(a, b) => {
            exchange_keeps_canonical_form(w, *a, n, env, s);
            exchange_keeps_canonical_form(w, *b, canon(*a, n, env).1, env, s);
        },
        Core::Try(body, vars, handler, evars, catch) => {
            exchange_keeps_canonical_form(w, *body, n, env, s);
            let n1 = canon(*body, n, env).1;
            lemma_bind_all(w, env, vars, n1);
            lemma_scope_all(env, s, vars, n1);
            exchange_keeps_canonical_form(
                w,
                *handler,
                n1 + vars.len(),
                bind_all(env, vars, n1),
                s + all_names(vars),
            );
            let n2 = canon(*handler, n1 + vars.len(), bind_all(env, vars, n1)).1;
            lemma_bind_all(w, env, evars, n2);
            lemma_scope_all(env, s, evars, n2);
            exchange_keeps_canonical_form(
                w,
                *catch,
                n2 + evars.len(),
                bind_all(env, evars, n2),
                s + all_names(evars),
            );
        },
    }
}

proof fn lemma_bindings_len(w: Swap, v: Seq<(Seq<char>, Core)>)
    ensures
        swap_bindings(w, v).len() == v.len(),
        forall|i: int|
            0 <= i < v.len() ==> (#[trigger] swap_bindings(w, v)[i]).0 == swap_name(w, v[i].0),
    decreases v.len(),
{
    if v.len() > 0 {
        lemma_bindings_len(w, v.drop_last());
    }
}

proof fn lemma_all(w: Swap, v: Seq<Core>, n: nat, env: Names, s: Set<Seq<char>>)
    requires
        plain_swap(w),
        all_covered(w, v, s),
        in_scope(env, s),
    ensures
        canons(swap_cores(w, v), n, swap_env(w, env)) == canons(v, n, env),
    decreases v,
{
    if v.len() > 0 {
        let front = v.drop_last();
        lemma_all(w, front, n, env, s);
        let n1 = canons(front, n, env).1;
        assert(swap_cores(w, v).drop_last() =~= swap_cores(w, front));
        exchange_keeps_canonical_form(w, v.last(), n1, env, s);
    }
}

proof fn lemma_entries(w: Swap, v: Seq<(Core, Core)>, n: nat, env: Names, s: Set<Seq<char>>)
    requires
        plain_swap(w),
        entries_covered(w, v, s),
        in_scope(env, s),
    ensures
        canon_entries(swap_entries(w, v), n, swap_env(w, env)) == canon_entries(v, n, env),
    decreases v,
{
    if v.len() > 0 {
        let front = v.drop_last();
        lemma_entries(w, front, n, env, s);
        let n1 = canon_entries(front, n, env).1;
        assert(swap_entries(w, v).drop_last() =~= swap_entries(w, front));
        exchange_keeps_canonical_form(w, v.last().0, n1, env, s);
        exchange_keeps_canonical_form(w, v.last().1, canon(v.last().0, n1, env).1, env, s);
    }
}

proof fn lemma_segments(w: Swap, v: Seq<Segment>, n: nat, env: Names, s: Set<Seq<char>>)
    requires
        plain_swap(w),
        segments_covered(w, v, s),
        in_scope(env, s),
    ensures
        canon_segments(swap_segments(w, v), n, swap_env(w, env)) == canon_segments(v, n, env),
    decreases v,
{
    if v.len() > 0 {
        let front = v.drop_last();
        lemma_segments(w, front, n, env, s);
        let n1 = canon_segments(front, n, env).1;
        assert(swap_segments(w, v).drop_last() =~= swap_segments(w, front));
        exchange_keeps_canonical_form(w, v.last().value, n1, env, s);
    }
}

proof fn lemma_values(w: Swap, v: Seq<(Seq<char>, Core)>, n: nat, env: Names, s: Set<Seq<char>>)
    requires
        plain_swap(w),
        values_covered(w, v, s),
        in_scope(env, s),
    ensures
        canon_values(swap_bindings(w, v), n, swap_env(w, env)) == canon_values(v, n, env),
    decreases v,
{
    if v.len() > 0 {
        let front = v.drop_last();
        lemma_values(w, front, n, env, s);
        let n1 = canon_values(front, n, env).1;
        assert(swap_bindings(w, v).drop_last() =~= swap_bindings(w, front));
        exchange_keeps_canonical_form(w, v.last().1, n1, env, s);
    }
}

proof fn lemma_clauses(w: Swap, v: Seq<Clause>, n: nat, env: Names, s: Set<Seq<char>>)
    requires
        plain_swap(w),
        clauses_covered(w, v, s),
        in_scope(env, s),
    ensures
        canon_clauses(swap_clauses(w, v), n, swap_env(w, env)) == canon_clauses(v, n, env),
    decreases v,
{
    if v.len() > 0 {
        let front = v.drop_last();
        lemma_clauses(w, front, n, env, s);
        let n1 = canon_clauses(front, n, env).1;
        assert(swap_clauses(w, v).drop_last() =~= swap_clauses(w, front));
        lemma_clause(w, v.last(), n1, env, s);
    }
}

proof fn lemma_clause(w: Swap, c: Clause, n: nat, env: Names, s: Set<Seq<char>>)
    requires
        plain_swap(w),
        clause_covered(w, c, s),
        in_scope(env, s),
    ensures
        canon_clause(swap_clause(w, c), n, swap_env(w, env)) == canon_clause(c, n, env),
    decreases c,
{
    let b0 = Bound { next: n, env, here: Seq::empty() };
    assert(swap_env(w, Seq::empty()) =~= Seq::empty());
    lemma_pats(w, c.patterns, b0, s);
    let b = canon_pats(c.patterns, b0).1;
    exchange_keeps_canonical_form(w, c.guard, b.next, b.env, s + pats_vars(c.patterns));
    let n1 = canon(c.guard, b.next, b.env).1;
    exchange_keeps_canonical_form(w, c.body, n1, b.env, s + pats_vars(c.patterns));
}

/// A function definition after the exchange.
pub open spec fn swap_fundef(w: Swap, f: FunDef) -> FunDef {
    FunDef {
        name: f.name,
        arity: f.arity,
        params: swap_names(w, f.params),
        body: swap_core(w, f.body),
    }
}

/// The canonical form of a definition does not depend on the names of its
/// parameters and variables: exchanging two of them throughout changes nothing,
/// if neither is free.
pub proof fn canonical_form_ignores_names(w: Swap, f: FunDef)
    requires
        plain_swap(w),
        covered(w, f.body, all_names(f.params)),
    ensures
        canon_fundef(swap_fundef(w, f)) == canon_fundef(f),
{
    let none: Names = Seq::empty();
    assert(swap_env(w, none) =~= none);
    lemma_bind_all(w, none, f.params, 0);
    lemma_scope_all(none, Set::empty(), f.params, 0);
    assert(Set::empty() + all_names(f.params) =~= all_names(f.params));
    exchange_keeps_canonical_form(
        w,
        f.body,
        f.params.len(),
        bind_all(none, f.params, 0),
        all_names(f.params),
    );
}

} // verus!
