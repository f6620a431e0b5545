//! Which names are free in an expression.
use vstd::prelude::*;
use crate::erlang::{Clause, Core, Pat, PatSegment, Segment};
use crate::native::{
    free, free_all, free_bindings, free_clause, free_clauses, free_entries, free_segments,
    pattern_names, pattern_segments_names, patterns_names,
};

verus! {

/// The names without those of another list.
pub open spec fn left_out(s: Seq<Seq<char>>, out: Seq<Seq<char>>) -> Seq<Seq<char>>
    decreases s.len(),
{
    if s.len() == 0 {
        Seq::empty()
    } else if out.contains(s.last()) {
        left_out(s.drop_last(), out)
    } else {
        left_out(s.drop_last(), out).push(s.last())
    }
}

proof fn left_out_contains(s: Seq<Seq<char>>, out: Seq<Seq<char>>, x: Seq<char>)
    ensures
        left_out(s, out).contains(x) <==> s.contains(x) && !out.contains(x),
    decreases s.len(),
{
    if s.len() > 0 {
        let front = s.drop_last();
        left_out_contains(front, out, x);
        push_contains(front, s.last(), x);
        assert(front.push(s.last()) =~= s);
        push_contains(left_out(front, out), s.last(), x);
    }
}

proof fn push_contains(s: Seq<Seq<char>>, y: Seq<char>, x: Seq<char>)
    ensures
        s.push(y).contains(x) <==> s.contains(x) || x == y,
{
    if s.contains(x) {
        let i = choose|i: int| 0 <= i < s.len() && s[i] == x;
        assert(s.push(y)[i] == x);
    }
    assert(s.push(y)[s.len() as int] == y);
    if s.push(y).contains(x) && x != y {
        let i = choose|i: int| 0 <= i < s.push(y).len() && s.push(y)[i] == x;
        assert(s[i] == x);
    }
}

proof fn add_contains(s: Seq<Seq<char>>, t: Seq<Seq<char>>, x: Seq<char>)
    ensures
        (s + t).contains(x) <==> s.contains(x) || t.contains(x),
{
    if s.contains(x) {
        let i = choose|i: int| 0 <= i < s.len() && s[i] == x;
        assert((s + t)[i] == x);
    }
    if t.contains(x) {
        let i = choose|i: int| 0 <= i < t.len() && t[i] == x;
        assert((s + t)[s.len() + i] == x);
    }
    if (s + t).contains(x) {
        let i = choose|i: int| 0 <= i < (s + t).len() && (s + t)[i] == x;
        if i < s.len() {
            assert(s[i] == x);
        } else {
            assert(t[i - s.len()] == x);
        }
    }
}

/// Whether names are bound exactly if they are in one of two lists.
spec fn joins(bound: Seq<Seq<char>>, more: Seq<Seq<char>>, both: Seq<Seq<char>>) -> bool {
    forall|x: Seq<char>| #[trigger] both.contains(x) <==> bound.contains(x) || more.contains(x)
}

proof fn joins_push(bound: Seq<Seq<char>>, more: Seq<Seq<char>>, both: Seq<Seq<char>>, y: Seq<char>)
    requires
        joins(bound, more, both),
    ensures
        joins(bound.push(y), more, both.push(y)),
{
    assert forall|x: Seq<char>| #[trigger] both.push(y).contains(x) <==> bound.push(y).contains(x)
        || more.contains(x) by {
        push_contains(both, y, x);
        push_contains(bound, y, x);
        assert(both.contains(x) <==> bound.contains(x) || more.contains(x));
    }
}

proof fn joins_add(
    bound: Seq<Seq<char>>,
    more: Seq<Seq<char>>,
    both: Seq<Seq<char>>,
    t: Seq<Seq<char>>,
)
    requires
        joins(bound, more, both),
    ensures
        joins(bound + t, more, both + t),
{
    assert forall|x: Seq<char>| #[trigger] (both + t).contains(x) <==> (bound + t).contains(x)
        || more.contains(x) by {
        add_contains(both, t, x);
        add_contains(bound, t, x);
        assert(both.contains(x) <==> bound.contains(x) || more.contains(x));
    }
}

proof fn joins_pattern(p: Pat, bound: Seq<Seq<char>>, more: Seq<Seq<char>>, both: Seq<Seq<char>>)
    requires
        joins(bound, more, both),
    ensures
        joins(pattern_names(p, bound), more, pattern_names(p, both)),
    decreases p,
{
    match p {
        Pat::Var(name) => {
            joins_push(bound, more, both, name);
        },
        Pat::Tuple(items) => {
            joins_patterns(items, bound, more, both);
        },
        Pat::Cons(h, t) => {
            joins_pattern(*h, bound, more, both);
            joins_pattern(*t, pattern_names(*h, bound), more, pattern_names(*h, both));
        },
        Pat::Alias(name, inner) => {
            joins_push(bound, more, both, name);
            joins_pattern(*inner, bound.push(name), more, both.push(name));
        },
        Pat::Binary(segments) => {
            joins_segments(segments, bound, more, both);
        },
        Pat::Lit(_) => {},
        Pat::Nil => {},
    }
}

proof fn joins_patterns(
    s: Seq<Pat>,
    bound: Seq<Seq<char>>,
    more: Seq<Seq<char>>,
    both: Seq<Seq<char>>,
)
    requires
        joins(bound, more, both),
    ensures
        joins(patterns_names(s, bound), more, patterns_names(s, both)),
    decreases s,
{
    if s.len() > 0 {
        let front = s.drop_last();
        joins_patterns(front, bound, more, both);
        joins_pattern(s.last(), patterns_names(front, bound), more, patterns_names(front, both));
    }
}

proof fn joins_segments(
    s: Seq<PatSegment>,
    bound: Seq<Seq<char>>,
    more: Seq<Seq<char>>,
    both: Seq<Seq<char>>,
)
    requires
        joins(bound, more, both),
    ensures
        joins(pattern_segments_names(s, bound), more, pattern_segments_names(s, both)),
    decreases s,
{
    if s.len() > 0 {
        let front = s.drop_last();
        joins_segments(front, bound, more, both);
        joins_pattern(
            s.last().pattern,
            pattern_segments_names(front, bound),
            more,
            pattern_segments_names(front, both),
        );
    }
}

proof fn free_more(
    e: Core,
    bound: Seq<Seq<char>>,
    more: Seq<Seq<char>>,
    both: Seq<Seq<char>>,
    found: Seq<Seq<char>>,
)
    requires
        joins(bound, more, both),
    ensures
        free(e, both, left_out(found, more)) == left_out(free(e, bound, found), more),
    decreases e,
{
    match e {
        Core::Var(name) => {
            assert(both.contains(name) <==> bound.contains(name) || more.contains(name));
            left_out_contains(found, more, name);
            assert(found.push(name).drop_last() =~= found);
        },
        Core::Lit(_) => {},
        Core::LocalFunRef(_, _) => {},
        Core::RemoteFunRef(_, _, _) => {},
        Core::Tuple(items) => {
            free_all_more(items, bound, more, both, found);
        },
        Core::List(items, tail) => {
            free_all_more(items, bound, more, both, found);
            free_more(*tail, bound, more, both, free_all(items, bound, found));
        },
        Core::Cons(h, t) => {
            free_more(*h, bound, more, both, found);
            free_more(*t, bound, more, both, free(*h, bound, found));
        },
        Core::MapLit(entries) => {
            free_entries_more(entries, bound, more, both, found);
        },
        Core::Binary(segments) => {
            free_segments_more(segments, bound, more, both, found);
        },
        Core::Apply(f, args) => {
            free_more(*f, bound, more, both, found);
            free_all_more(args, bound, more, both, free(*f, bound, found));
        },
        Core::Call(_, _, args) => {
            free_all_more(args, bound, more, both, found);
        },
        Core::Let(bindings, body) => {
            free_bindings_more(bindings, bound, more, both, found);
            let (inner, found1) = free_bindings(bindings, bound, found);
            let wider = free_bindings(bindings, both, left_out(found, more)).0;
            free_more(*body, inner, more, wider, found1);
        },
        Core::Case(scrutinee, clauses) => {
            free_more(*scrutinee, bound, more, both, found);
            free_clauses_more(clauses, bound, more, both, free(*scrutinee, bound, found));
        },
        Core::Fun(params, body) => {
            joins_add(bound, more, both, params);
            free_more(*body, bound + params, more, both + params, found);
        },
        Core::Sequence(a, b) => {
            free_more(*a, bound, more, both, found);
            free_more(*b, bound, more, both, free(*a, bound, found));
        },
        Core::Primop(_, args) => {
            free_all_more(args, bound, more, both, found);
        },
        Core::Try(body, vars, handler, evars, catch) => {
            free_more(*body, bound, more, both, found);
            let found1 = free(*body, bound, found);
            joins_add(bound, more, both, vars);
            free_more(*handler, bound + vars, more, both + vars, found1);
            let found2 = free(*handler, bound + vars, found1);
            joins_add(bound, more, both, evars);
            free_more(*catch, bound + evars, more, both + evars, found2);
        },
        Core::Receive(clauses, timeout) => {
            free_clauses_more(clauses, bound, more, both, found);
            match timeout {
                Some((ms, body)) => {
                    let found1 = free_clauses(clauses, bound, found);
                    free_more(*ms, bound, more, both, found1);
                    free_more(*body, bound, more, both, free(*ms, bound, found1));
                },
                None => {},
            }
        },
    }
}

proof fn free_all_more(
    s: Seq<Core>,
    bound: Seq<Seq<char>>,
    more: Seq<Seq<char>>,
    both: Seq<Seq<char>>,
    found: Seq<Seq<char>>,
)
    requires
        joins(bound, more, both),
    ensures
        free_all(s, both, left_out(found, more)) == left_out(free_all(s, bound, found), more),
    decreases s,
{
    if s.len() > 0 {
        free_all_more(s.drop_last(), bound, more, both, found);
        free_more(s.last(), bound, more, both, free_all(s.drop_last(), bound, found));
    }
}

proof fn free_entries_more(
    s: Seq<(Core, Core)>,
    bound: Seq<Seq<char>>,
    more: Seq<Seq<char>>,
    both: Seq<Seq<char>>,
    found: Seq<Seq<char>>,
)
    requires
        joins(bound, more, both),
    ensures
        free_entries(s, both, left_out(found, more)) == left_out(
            free_entries(s, bound, found),
            more,
        ),
    decreases s,
{
    if s.len() > 0 {
        free_entries_more(s.drop_last(), bound, more, both, found);
        let found1 = free_entries(s.drop_last(), bound, found);
        free_more(s.last().0, bound, more, both, found1);
        free_more(s.last().1, bound, more, both, free(s.last().0, bound, found1));
    }
}

proof fn free_segments_more(
    s: Seq<Segment>,
    bound: Seq<Seq<char>>,
    more: Seq<Seq<char>>,
    both: Seq<Seq<char>>,
    found: Seq<Seq<char>>,
)
    requires
        joins(bound, more, both),
    ensures
        free_segments(s, both, left_out(found, more)) == left_out(
            free_segments(s, bound, found),
            more,
        ),
    decreases s,
{
    if s.len() > 0 {
        free_segments_more(s.drop_last(), bound, more, both, found);
        free_more(
            s.last().value,
            bound,
            more,
            both,
            free_segments(s.drop_last(), bound, found),
        );
    }
}

proof fn free_bindings_more(
    s: Seq<(Seq<char>, Core)>,
    bound: Seq<Seq<char>>,
    more: Seq<Seq<char>>,
    both: Seq<Seq<char>>,
    found: Seq<Seq<char>>,
)
    requires
        joins(bound, more, both),
    ensures
        joins(
            free_bindings(s, bound, found).0,
            more,
            free_bindings(s, both, left_out(found, more)).0,
        ),
        free_bindings(s, both, left_out(found, more)).1 == left_out(
            free_bindings(s, bound, found).1,
            more,
        ),
    decreases s,
{
    if s.len() > 0 {
        let front = s.drop_last();
        free_bindings_more(front, bound, more, both, found);
        let (inner, found1) = free_bindings(front, bound, found);
        let wider = free_bindings(front, both, left_out(found, more)).0;
        free_more(s.last().1, inner, more, wider, found1);
        joins_push(inner, more, wider, s.last().0);
    }
}

proof fn free_clauses_more(
    s: Seq<Clause>,
    bound: Seq<Seq<char>>,
    more: Seq<Seq<char>>,
    both: Seq<Seq<char>>,
    found: Seq<Seq<char>>,
)
    requires
        joins(bound, more, both),
    ensures
        free_clauses(s, both, left_out(found, more)) == left_out(
            free_clauses(s, bound, found),
            more,
        ),
    decreases s,
{
    if s.len() > 0 {
        free_clauses_more(s.drop_last(), bound, more, both, found);
        free_clause_more(s.last(), bound, more, both, free_clauses(s.drop_last(), bound, found));
    }
}

proof fn free_clause_more(
    c: Clause,
    bound: Seq<Seq<char>>,
    more: Seq<Seq<char>>,
    both: Seq<Seq<char>>,
    found: Seq<Seq<char>>,
)
    requires
        joins(bound, more, both),
    ensures
        free_clause(c, both, left_out(found, more)) == left_out(free_clause(c, bound, found), more),
    decreases c,
{
    joins_patterns(c.patterns, bound, more, both);
    let inner = patterns_names(c.patterns, bound);
    let wider = patterns_names(c.patterns, both);
    free_more(c.guard, inner, more, wider, found);
    free_more(c.body, inner, more, wider, free(c.guard, inner, found));
}

/// With more names bound, the free variables of an expression are those that were
/// free without these names.
pub proof fn binding_more_frees_less(e: Core, bound: Seq<Seq<char>>, more: Seq<Seq<char>>)
    ensures
        free(e, bound + more, Seq::empty()) == left_out(free(e, bound, Seq::empty()), more),
{
    assert forall|x: Seq<char>| #[trigger] (bound + more).contains(x) <==> bound.contains(x)
        || more.contains(x) by {
        add_contains(bound, more, x);
    }
    free_more(e, bound, more, bound + more, Seq::empty());
}

/// Whether a name occurs as a variable in an expression.
pub open spec fn occurs(e: Core, x: Seq<char>) -> bool
    decreases e,
{
    match e {
        Core::Var(name) => name == x,
        Core::Lit(_) => false,
        Core::LocalFunRef(_, _) => false,
        Core::RemoteFunRef(_, _, _) => false,
        Core::Tuple(items) => occurs_in(items, x),
        Core::List(items, tail) => occurs_in(items, x) || occurs(*tail, x),
        Core::Cons(h, t) => occurs(*h, x) || occurs(*t, x),
        Core::MapLit(entries) => occurs_in_entries(entries, x),
        Core::Binary(segments) => occurs_in_segments(segments, x),
        Core::Apply(f, args) => occurs(*f, x) || occurs_in(args, x),
        Core::Call(_, _, args) => occurs_in(args, x),
        Core::Let(bindings, body) => occurs_in_bindings(bindings, x) || occurs(*body, x),
        Core::Case(scrutinee, clauses) => occurs(*scrutinee, x) || occurs_in_clauses(clauses, x),
        Core::Fun(_, body) => occurs(*body, x),
        Core::Sequence(a, b) => occurs(*a, x) || occurs(*b, x),
        Core::Primop(_, args) => occurs_in(args, x),
        Core::Try(body, _, handler, _, catch) => occurs(*body, x) || occurs(*handler, x) || occurs(
            *catch,
            x,
        ),
        Core::Receive(clauses, timeout) => occurs_in_clauses(clauses, x) || match timeout {
            Some((ms, body)) => occurs(*ms, x) || occurs(*body, x),
            None => false,
        },
    }
}

pub open spec fn occurs_in(s: Seq<Core>, x: Seq<char>) -> bool
    decreases s,
{
    s.len() > 0 && (occurs(s.last(), x) || occurs_in(s.drop_last(), x))
}

pub open spec fn occurs_in_entries(s: Seq<(Core, Core)>, x: Seq<char>) -> bool
    decreases s,
{
    s.len() > 0 && (occurs(s.last().0, x) || occurs(s.last().1, x) || occurs_in_entries(
        s.drop_last(),
        x,
    ))
}

pub open spec fn occurs_in_segments(s: Seq<Segment>, x: Seq<char>) -> bool
    decreases s,
{
    s.len() > 0 && (occurs(s.last().value, x) || occurs_in_segments(s.drop_last(), x))
}

pub open spec fn occurs_in_bindings(s: Seq<(Seq<char>, Core)>, x: Seq<char>) -> bool
    decreases s,
{
    s.len() > 0 && (occurs(s.last().1, x) || occurs_in_bindings(s.drop_last(), x))
}

pub open spec fn occurs_in_clause(c: Clause, x: Seq<char>) -> bool
    decreases c,
{
    occurs(c.guard, x) || occurs(c.body, x)
}

pub open spec fn occurs_in_clauses(s: Seq<Clause>, x: Seq<char>) -> bool
    decreases s,
{
    s.len() > 0 && (occurs_in_clause(s.last(), x) || occurs_in_clauses(s.drop_last(), x))
}

/// Whether a name may be free where names are bound.
pub open spec fn may_be_free(x: Seq<char>, bound: Seq<Seq<char>>) -> bool {
    !bound.contains(x) && !(x.len() > 0 && x[0] == '_')
}

/// Whether the names of one list are among those of another.
spec fn among(a: Seq<Seq<char>>, b: Seq<Seq<char>>) -> bool {
    forall|x: Seq<char>| #[trigger] a.contains(x) ==> b.contains(x)
}

proof fn among_push(a: Seq<Seq<char>>, b: Seq<Seq<char>>, y: Seq<char>)
    requires
        among(a, b),
    ensures
        among(a, b.push(y)),
{
    assert forall|x: Seq<char>| #[trigger] a.contains(x) implies b.push(y).contains(x) by {
        push_contains(b, y, x);
    }
}

proof fn among_add(a: Seq<Seq<char>>, b: Seq<Seq<char>>, t: Seq<Seq<char>>)
    requires
        among(a, b),
    ensures
        among(a, b + t),
{
    assert forall|x: Seq<char>| #[trigger] a.contains(x) implies (b + t).contains(x) by {
        add_contains(b, t, x);
    }
}

proof fn among_pattern(p: Pat, a: Seq<Seq<char>>, b: Seq<Seq<char>>)
    requires
        among(a, b),
    ensures
        among(a, pattern_names(p, b)),
    decreases p,
{
    match p {
        Pat::Var(name) => {
            among_push(a, b, name);
        },
        Pat::Tuple(items) => {
            among_patterns(items, a, b);
        },
        Pat::Cons(h, t) => {
            among_pattern(*h, a, b);
            among_pattern(*t, a, pattern_names(*h, b));
        },
        Pat::Alias(name, inner) => {
            among_push(a, b, name);
            among_pattern(*inner, a, b.push(name));
        },
        Pat::Binary(segments) => {
            among_segments(segments, a, b);
        },
        Pat::Lit(_) => {},
        Pat::Nil => {},
    }
}

proof fn among_patterns(s: Seq<Pat>, a: Seq<Seq<char>>, b: Seq<Seq<char>>)
    requires
        among(a, b),
    ensures
        among(a, patterns_names(s, b)),
    decreases s,
{
    if s.len() > 0 {
        among_patterns(s.drop_last(), a, b);
        among_pattern(s.last(), a, patterns_names(s.drop_last(), b));
    }
}

proof fn among_segments(s: Seq<PatSegment>, a: Seq<Seq<char>>, b: Seq<Seq<char>>)
    requires
        among(a, b),
    ensures
        among(a, pattern_segments_names(s, b)),
    decreases s,
{
    if s.len() > 0 {
        among_segments(s.drop_last(), a, b);
        among_pattern(s.last().pattern, a, pattern_segments_names(s.drop_last(), b));
    }
}

proof fn free_occurs(
    e: Core,
    outer: Seq<Seq<char>>,
    bound: Seq<Seq<char>>,
    found: Seq<Seq<char>>,
    x: Seq<char>,
)
    requires
        among(outer, bound),
        free(e, bound, found).contains(x),
    ensures
        found.contains(x) || (may_be_free(x, outer) && occurs(e, x)),
    decreases e,
{
    match e {
        Core::Var(name) => {
            assert(outer.contains(name) ==> bound.contains(name));
            push_contains(found, name, x);
        },
        Core::Lit(_) => {},
        Core::LocalFunRef(_, _) => {},
        Core::RemoteFunRef(_, _, _) => {},
        Core::Tuple(items) => {
            free_all_occurs(items, outer, bound, found, x);
        },
        Core::List(items, tail) => {
            let found1 = free_all(items, bound, found);
            free_occurs(*tail, outer, bound, found1, x);
            if found1.contains(x) {
                free_all_occurs(items, outer, bound, found, x);
            }
        },
        Core::Cons(h, t) => {
            let found1 = free(*h, bound, found);
            free_occurs(*t, outer, bound, found1, x);
            if found1.contains(x) {
                free_occurs(*h, outer, bound, found, x);
            }
        },
        Core::MapLit(entries) => {
            free_entries_occurs(entries, outer, bound, found, x);
        },
        Core::Binary(segments) => {
            free_segments_occurs(segments, outer, bound, found, x);
        },
        Core::Apply(f, args) => {
            let found1 = free(*f, bound, found);
            free_all_occurs(args, outer, bound, found1, x);
            if found1.contains(x) {
                free_occurs(*f, outer, bound, found, x);
            }
        },
        Core::Call(_, _, args) => {
            free_all_occurs(args, outer, bound, found, x);
        },
        Core::Let(bindings, body) => {
            let (inner, found1) = free_bindings(bindings, bound, found);
            free_bindings_wider(bindings, outer, bound, found);
            free_occurs(*body, outer, inner, found1, x);
            if found1.contains(x) {
                free_bindings_occurs(bindings, outer, bound, found, x);
            }
        },
        Core::Case(scrutinee, clauses) => {
            let found1 = free(*scrutinee, bound, found);
            free_clauses_occurs(clauses, outer, bound, found1, x);
            if found1.contains(x) {
                free_occurs(*scrutinee, outer, bound, found, x);
            }
        },
        Core::Fun(params, body) => {
            among_add(outer, bound, params);
            free_occurs(*body, outer, bound + params, found, x);
        },
        Core::Sequence(a, b) => {
            let found1 = free(*a, bound, found);
            free_occurs(*b, outer, bound, found1, x);
            if found1.contains(x) {
                free_occurs(*a, outer, bound, found, x);
            }
        },
        Core::Primop(_, args) => {
            free_all_occurs(args, outer, bound, found, x);
        },
        Core::Try(body, vars, handler, evars, catch) => {
            let found1 = free(*body, bound, found);
            let found2 = free(*handler, bound + vars, found1);
            among_add(outer, bound, vars);
            among_add(outer, bound, evars);
            free_occurs(*catch, outer, bound + evars, found2, x);
            if found2.contains(x) {
                free_occurs(*handler, outer, bound + vars, found1, x);
                if found1.contains(x) {
                    free_occurs(*body, outer, bound, found, x);
                }
            }
        },
        Core::Receive(clauses, timeout) => {
            let found1 = free_clauses(clauses, bound, found);
            match timeout {
                Some((ms, body)) => {
                    let found2 = free(*ms, bound, found1);
                    free_occurs(*body, outer, bound, found2, x);
                    if found2.contains(x) {
                        free_occurs(*ms, outer, bound, found1, x);
                    }
                },
                None => {},
            }
            if found1.contains(x) {
                free_clauses_occurs(clauses, outer, bound, found, x);
            }
        },
    }
}

proof fn free_all_occurs(
    s: Seq<Core>,
    outer: Seq<Seq<char>>,
    bound: Seq<Seq<char>>,
    found: Seq<Seq<char>>,
    x: Seq<char>,
)
    requires
        among(outer, bound),
        free_all(s, bound, found).contains(x),
    ensures
        found.contains(x) || (may_be_free(x, outer) && occurs_in(s, x)),
    decreases s,
{
    if s.len() > 0 {
        let found1 = free_all(s.drop_last(), bound, found);
        free_occurs(s.last(), outer, bound, found1, x);
        if found1.contains(x) {
            free_all_occurs(s.drop_last(), outer, bound, found, x);
        }
    }
}

proof fn free_entries_occurs(
    s: Seq<(Core, Core)>,
    outer: Seq<Seq<char>>,
    bound: Seq<Seq<char>>,
    found: Seq<Seq<char>>,
    x: Seq<char>,
)
    requires
        among(outer, bound),
        free_entries(s, bound, found).contains(x),
    ensures
        found.contains(x) || (may_be_free(x, outer) && occurs_in_entries(s, x)),
    decreases s,
{
    if s.len() > 0 {
        let found1 = free_entries(s.drop_last(), bound, found);
        let found2 = free(s.last().0, bound, found1);
        free_occurs(s.last().1, outer, bound, found2, x);
        if found2.contains(x) {
            free_occurs(s.last().0, outer, bound, found1, x);
            if found1.contains(x) {
                free_entries_occurs(s.drop_last(), outer, bound, found, x);
            }
        }
    }
}

proof fn free_segments_occurs(
    s: Seq<Segment>,
    outer: Seq<Seq<char>>,
    bound: Seq<Seq<char>>,
    found: Seq<Seq<char>>,
    x: Seq<char>,
)
    requires
        among(outer, bound),
        free_segments(s, bound, found).contains(x),
    ensures
        found.contains(x) || (may_be_free(x, outer) && occurs_in_segments(s, x)),
    decreases s,
{
    if s.len() > 0 {
        let found1 = free_segments(s.drop_last(), bound, found);
        free_occurs(s.last().value, outer, bound, found1, x);
        if found1.contains(x) {
            free_segments_occurs(s.drop_last(), outer, bound, found, x);
        }
    }
}

proof fn free_bindings_wider(
    s: Seq<(Seq<char>, Core)>,
    outer: Seq<Seq<char>>,
    bound: Seq<Seq<char>>,
    found: Seq<Seq<char>>,
)
    requires
        among(outer, bound),
    ensures
        among(outer, free_bindings(s, bound, found).0),
    decreases s,
{
    if s.len() > 0 {
        free_bindings_wider(s.drop_last(), outer, bound, found);
        among_push(outer, free_bindings(s.drop_last(), bound, found).0, s.last().0);
    }
}

proof fn free_bindings_occurs(
    s: Seq<(Seq<char>, Core)>,
    outer: Seq<Seq<char>>,
    bound: Seq<Seq<char>>,
    found: Seq<Seq<char>>,
    x: Seq<char>,
)
    requires
        among(outer, bound),
        free_bindings(s, bound, found).1.contains(x),
    ensures
        found.contains(x) || (may_be_free(x, outer) && occurs_in_bindings(s, x)),
    decreases s,
{
    if s.len() > 0 {
        let (inner, found1) = free_bindings(s.drop_last(), bound, found);
        free_bindings_wider(s.drop_last(), outer, bound, found);
        free_occurs(s.last().1, outer, inner, found1, x);
        if found1.contains(x) {
            free_bindings_occurs(s.drop_last(), outer, bound, found, x);
        }
    }
}

proof fn free_clause_occurs(
    c: Clause,
    outer: Seq<Seq<char>>,
    bound: Seq<Seq<char>>,
    found: Seq<Seq<char>>,
    x: Seq<char>,
)
    requires
        among(outer, bound),
        free_clause(c, bound, found).contains(x),
    ensures
        found.contains(x) || (may_be_free(x, outer) && occurs_in_clause(c, x)),
    decreases c,
{
    among_patterns(c.patterns, outer, bound);
    let inner = patterns_names(c.patterns, bound);
    let found1 = free(c.guard, inner, found);
    free_occurs(c.body, outer, inner, found1, x);
    if found1.contains(x) {
        free_occurs(c.guard, outer, inner, found, x);
    }
}

proof fn free_clauses_occurs(
    s: Seq<Clause>,
    outer: Seq<Seq<char>>,
    bound: Seq<Seq<char>>,
    found: Seq<Seq<char>>,
    x: Seq<char>,
)
    requires
        among(outer, bound),
        free_clauses(s, bound, found).contains(x),
    ensures
        found.contains(x) || (may_be_free(x, outer) && occurs_in_clauses(s, x)),
    decreases s,
{
    if s.len() > 0 {
        let found1 = free_clauses(s.drop_last(), bound, found);
        free_clause_occurs(s.last(), outer, bound, found1, x);
        if found1.contains(x) {
            free_clauses_occurs(s.drop_last(), outer, bound, found, x);
        }
    }
}

/// A free variable is neither bound nor begins with an underscore, and it occurs
/// as a variable in the expression.
pub proof fn free_variables_occur(e: Core, bound: Seq<Seq<char>>)
    ensures
        forall|x: Seq<char>| #[trigger]
            free(e, bound, Seq::empty()).contains(x) ==> may_be_free(x, bound) && occurs(e, x),
{
    assert forall|x: Seq<char>| #[trigger]
        free(e, bound, Seq::empty()).contains(x) implies may_be_free(x, bound) && occurs(e, x) by {
        assert(among(bound, bound));
        free_occurs(e, bound, bound, Seq::empty(), x);
    }
}

} // verus!
