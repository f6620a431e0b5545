//! Canonical names stay: the canonical form of a canonical form is itself.
use vstd::prelude::*;
use crate::canon::{
    bind_all, bind_once, binder_names, canon, canon_clause, canon_clauses, canon_entries,
    canon_fundef, canon_pat, canon_pat_segments, canon_pats, canon_segments, canon_values,
    canonical, canonicals, canons, renamed, Bound, Names,
};
use crate::erlang::{Clause, Core, FunDef, Pat, PatSegment, Segment};
use crate::names::found;
use crate::print_twin::decimal_injective;

verus! {

/// Whether every name in scope keeps its name.
spec fn keeps(env: Names) -> bool {
    forall|i: int| 0 <= i < env.len() ==> (#[trigger] env[i]).0 == env[i].1
}

proof fn keeps_found(env: Names, name: Seq<char>)
    requires
        keeps(env),
    ensures
        found(env, name) matches Some(c) ==> c == name,
        renamed(env, name) == name,
    decreases env.len(),
{
    if env.len() > 0 {
        let front = env.drop_last();
        assert forall|i: int| 0 <= i < front.len() implies (#[trigger] front[i]).0 == front[i].1 by {
            assert(front[i] == env[i]);
        }
        assert(env.last() == env[env.len() - 1]);
        keeps_found(front, name);
    }
}

proof fn keeps_push(env: Names, c: Seq<char>)
    requires
        keeps(env),
    ensures
        keeps(env.push((c, c))),
{
    let more = env.push((c, c));
    assert forall|i: int| 0 <= i < more.len() implies (#[trigger] more[i]).0 == more[i].1 by {
        if i < env.len() {
            assert(more[i] == env[i]);
        }
    }
}

proof fn keeps_all(env: Names, n: nat, k: nat)
    requires
        keeps(env),
    ensures
        keeps(bind_all(env, canonicals(n, k), n)),
    decreases k,
{
    if k > 0 {
        let names = canonicals(n, k);
        assert(names.drop_last() =~= canonicals(n, (k - 1) as nat));
        keeps_all(env, n, (k - 1) as nat);
        keeps_push(bind_all(env, canonicals(n, (k - 1) as nat), n), canonical((n + k - 1) as nat));
        assert(names.last() == canonical((n + k - 1) as nat));
    }
}

proof fn canonical_differ(m: nat, n: nat)
    requires
        m != n,
    ensures
        canonical(m) != canonical(n),
{
    if canonical(m) == canonical(n) {
        reveal_strlit("V");
        let a = crate::text::decimal(m);
        let b = crate::text::decimal(n);
        assert(canonical(m).skip(1) =~= a);
        assert(canonical(n).skip(1) =~= b);
        decimal_injective(m, n);
    }
}

proof fn canonical_is_no_blank(n: nat)
    ensures
        canonical(n) != "_"@,
{
    reveal_strlit("V");
    reveal_strlit("_");
    assert(canonical(n)[0] == 'V');
    assert("_"@[0] == '_');
}

/// Whether the patterns of a clause and of its canonical form have bound as
/// much.
spec fn same_scope(b: Bound, c: Bound) -> bool {
    &&& c.next == b.next
    &&& keeps(c.env)
    &&& keeps(c.here)
    &&& c.here.len() == b.here.len()
    &&& forall|i: int| 0 <= i < b.here.len() ==> (#[trigger] c.here[i]).0 == b.here[i].1
    &&& forall|i: int| 0 <= i < b.here.len() ==> older((#[trigger] b.here[i]).1, b.next)
}

/// Whether a name is the canonical name of an earlier binder.
spec fn older(name: Seq<char>, next: nat) -> bool {
    exists|k: nat| k < next && name == #[trigger] canonical(k)
}

proof fn found_at(env: Names, name: Seq<char>) -> (i: int)
    requires
        found(env, name) is Some,
    ensures
        0 <= i < env.len(),
        env[i].0 == name,
        found(env, name) == Some(env[i].1),
    decreases env.len(),
{
    if env.last().0 == name {
        env.len() - 1
    } else {
        let i = found_at(env.drop_last(), name);
        assert(env.drop_last()[i] == env[i]);
        i
    }
}

proof fn found_if(env: Names, i: int)
    requires
        0 <= i < env.len(),
    ensures
        found(env, env[i].0) is Some,
    decreases env.len(),
{
    if i < env.len() - 1 {
        assert(env.drop_last()[i] == env[i]);
        found_if(env.drop_last(), i);
    }
}

proof fn bound_again(b: Bound, c: Bound, name: Seq<char>)
    requires
        same_scope(b, c),
    ensures
        bind_once(c, bind_once(b, name).0).0 == bind_once(b, name).0,
        same_scope(bind_once(b, name).1, bind_once(c, bind_once(b, name).0).1),
        bind_once(b, name).0 != "_"@,
{
    match found(b.here, name) {
        Some(x) => {
            let i = found_at(b.here, name);
            assert(older(b.here[i].1, b.next));
            let k = choose|k: nat| k < b.next && b.here[i].1 == #[trigger] canonical(k);
            canonical_is_no_blank(k);
            assert(c.here[i].0 == x);
            found_if(c.here, i);
            keeps_found(c.here, x);
        },
        None => {
            let x = canonical(b.next);
            canonical_is_no_blank(b.next);
            if found(c.here, x) is Some {
                let i = found_at(c.here, x);
                assert(older(b.here[i].1, b.next));
                let k = choose|k: nat| k < b.next && b.here[i].1 == #[trigger] canonical(k);
                canonical_differ(k, b.next);
            }
            keeps_push(c.env, x);
            keeps_push(c.here, x);
            let d = bind_once(b, name).1;
            let e = bind_once(c, x).1;
            assert forall|i: int| 0 <= i < d.here.len() implies (#[trigger] e.here[i]).0
                == d.here[i].1 by {
                if i < b.here.len() {
                    assert(e.here[i] == c.here[i] && d.here[i] == b.here[i]);
                }
            }
            assert forall|i: int| 0 <= i < d.here.len() implies older(
                (#[trigger] d.here[i]).1,
                d.next,
            ) by {
                if i < b.here.len() {
                    assert(d.here[i] == b.here[i]);
                    assert(older(b.here[i].1, b.next));
                } else {
                    assert(canonical(b.next) == d.here[i].1);
                }
            }
        },
    }
}

proof fn pat_again(p: Pat, b: Bound, c: Bound)
    requires
        same_scope(b, c),
    ensures
        canon_pat(canon_pat(p, b).0, c).0 == canon_pat(p, b).0,
        same_scope(canon_pat(p, b).1, canon_pat(canon_pat(p, b).0, c).1),
    decreases p,
{
    match p {
        Pat::Lit(_) => {},
        Pat::Nil => {},
        Pat::Var(name) => {
            if name != "_"@ {
                bound_again(b, c, name);
            }
        },
        Pat::Tuple(items) => {
            pats_again(items, b, c);
        },
        Pat::Cons(h, t) => {
            let (x, b1) = canon_pat(*h, b);
            pat_again(*h, b, c);
            pat_again(*t, b1, canon_pat(x, c).1);
        },
        Pat::Binary(segments) => {
            pat_segments_again(segments, b, c);
        },
        Pat::Alias(name, inner) => {
            let (x, b1) = bind_once(b, name);
            bound_again(b, c, name);
            pat_again(*inner, b1, bind_once(c, x).1);
        },
    }
}

proof fn pats_again(s: Seq<Pat>, b: Bound, c: Bound)
    requires
        same_scope(b, c),
    ensures
        canon_pats(canon_pats(s, b).0, c).0 == canon_pats(s, b).0,
        same_scope(canon_pats(s, b).1, canon_pats(canon_pats(s, b).0, c).1),
    decreases s,
{
    if s.len() > 0 {
        let (v, b1) = canon_pats(s.drop_last(), b);
        let (x, b2) = canon_pat(s.last(), b1);
        pats_again(s.drop_last(), b, c);
        pat_again(s.last(), b1, canon_pats(v, c).1);
        assert(v.push(x).drop_last() =~= v);
    }
}

proof fn pat_segments_again(s: Seq<PatSegment>, b: Bound, c: Bound)
    requires
        same_scope(b, c),
    ensures
        canon_pat_segments(canon_pat_segments(s, b).0, c).0 == canon_pat_segments(s, b).0,
        same_scope(canon_pat_segments(s, b).1, canon_pat_segments(canon_pat_segments(s, b).0, c).1),
    decreases s,
{
    if s.len() > 0 {
        let (v, b1) = canon_pat_segments(s.drop_last(), b);
        let (x, b2) = canon_pat(s.last().pattern, b1);
        pat_segments_again(s.drop_last(), b, c);
        pat_again(s.last().pattern, b1, canon_pat_segments(v, c).1);
        let y = PatSegment { pattern: x, size: s.last().size, kind: s.last().kind };
        assert(v.push(y).drop_last() =~= v);
    }
}

proof fn canon_again(e: Core, n: nat, env: Names, kept: Names)
    requires
        keeps(kept),
    ensures
        canon(canon(e, n, env).0, n, kept) == canon(e, n, env),
    decreases e, 1nat,
{
    match e {
        Core::Lit(_) => {},
        Core::LocalFunRef(_, _) => {},
        Core::RemoteFunRef(_, _, _) => {},
        Core::Var(name) => {
            keeps_found(kept, renamed(env, name));
        },
        Core::Tuple(items) => {
            canons_again(items, n, env, kept);
        },
        Core::List(items, tail) => {
            canons_again(items, n, env, kept);
            canon_again(*tail, canons(items, n, env).1, env, kept);
        },
        Core::Cons(h, t) => {
            canon_again(*h, n, env, kept);
            canon_again(*t, canon(*h, n, env).1, env, kept);
        },
        Core::MapLit(entries) => {
            entries_again(entries, n, env, kept);
        },
        Core::Binary(segments) => {
            segments_again(segments, n, env, kept);
        },
        Core::Apply(f, args) => {
            canon_again(*f, n, env, kept);
            canons_again(args, canon(*f, n, env).1, env, kept);
        },
        Core::Call(_, _, args) => {
            canons_again(args, n, env, kept);
        },
        Core::Let(bindings, body) => {
            let_again(e, n, env, kept);
        },
        Core::Case(scrutinee, clauses) => {
            canon_again(*scrutinee, n, env, kept);
            clauses_again(clauses, canon(*scrutinee, n, env).1, env, kept);
        },
        Core::Receive(clauses, timeout) => {
            clauses_again(clauses, n, env, kept);
            match timeout {
                Some((ms, body)) => {
                    let n1 = canon_clauses(clauses, n, env).1;
                    canon_again(*ms, n1, env, kept);
                    canon_again(*body, canon(*ms, n1, env).1, env, kept);
                },
                None => {},
            }
        },
        Core::Fun(params, body) => {
            let k = params.len();
            keeps_all(kept, n, k);
            canon_again(
                *body,
                n + k,
                bind_all(env, params, n),
                bind_all(kept, canonicals(n, k), n),
            );
        },
        Core::Primop(_, args) => {
            canons_again(args, n, env, kept);
        },
        Core::Sequence(a, b) => {
            canon_again(*a, n, env, kept);
            canon_again(*b, canon(*a, n, env).1, env, kept);
        },
        Core::Try(body, vars, handler, evars, catch) => {
            canon_again(*body, n, env, kept);
            let n1 = canon(*body, n, env).1;
            let j = vars.len();
            keeps_all(kept, n1, j);
            let outer = bind_all(env, vars, n1);
            canon_again(*handler, n1 + j, outer, bind_all(kept, canonicals(n1, j), n1));
            let n2 = canon(*handler, n1 + j, outer).1;
            let k = evars.len();
            keeps_all(kept, n2, k);
            canon_again(
                *catch,
                n2 + k,
                bind_all(env, evars, n2),
                bind_all(kept, canonicals(n2, k), n2),
            );
        },
    }
}

proof fn let_again(e: Core, n: nat, env: Names, kept: Names)
    requires
        keeps(kept),
        e is Let,
    ensures
        canon(canon(e, n, env).0, n, kept) == canon(e, n, env),
    decreases e, 0nat,
{
    match e {
        Core::Let(bindings, body) => {
            let (v, n1) = canon_values(bindings, n, env);
            let k = bindings.len();
            let named = Seq::new(k, |i: int| (canonical((n1 + i) as nat), v[i]));
            values_again(bindings, n, env, kept);
            assert(v.len() == k);
            assert(with_values(named, v));
            values_named(named, v, n, kept);
            assert(binder_names(named) =~= canonicals(n1, k));
            keeps_all(kept, n1, k);
            let inner = bind_all(env, binder_names(bindings), n1);
            canon_again(*body, n1 + k, inner, bind_all(kept, canonicals(n1, k), n1));
            let x = canon(*body, n1 + k, inner).0;
            assert(canon(e, n, env).0 == Core::Let(named, Box::new(x)));
            let (w, m1) = canon_values(named, n, kept);
            assert(w == v && m1 == n1);
            assert(Seq::new(named.len(), |i: int| (canonical((m1 + i) as nat), w[i])) =~= named);
        },
        _ => {},
    }
}

/// Whether bindings have these values.
spec fn with_values(s: Seq<(Seq<char>, Core)>, v: Seq<Core>) -> bool {
    s.len() == v.len() && forall|i: int| 0 <= i < s.len() ==> (#[trigger] s[i]).1 == v[i]
}

/// The canonical forms of values do not depend on their names.
proof fn values_named(s: Seq<(Seq<char>, Core)>, v: Seq<Core>, n: nat, env: Names)
    requires
        with_values(s, v),
    ensures
        canon_values(s, n, env) == canons(v, n, env),
    decreases s.len(),
{
    if s.len() > 0 {
        let front = s.drop_last();
        assert forall|i: int| 0 <= i < front.len() implies (#[trigger] front[i]).1
            == v.drop_last()[i] by {
            assert(front[i] == s[i]);
        }
        values_named(front, v.drop_last(), n, env);
        assert(s.last() == s[s.len() - 1]);
    }
}

proof fn values_again(s: Seq<(Seq<char>, Core)>, n: nat, env: Names, kept: Names)
    requires
        keeps(kept),
    ensures
        canons(canon_values(s, n, env).0, n, kept) == canon_values(s, n, env),
        canon_values(s, n, env).0.len() == s.len(),
    decreases s, 0nat,
{
    if s.len() > 0 {
        let (v, n1) = canon_values(s.drop_last(), n, env);
        values_again(s.drop_last(), n, env, kept);
        canon_again(s.last().1, n1, env, kept);
        let x = canon(s.last().1, n1, env).0;
        assert(v.push(x).drop_last() =~= v);
    }
}

proof fn canons_again(s: Seq<Core>, n: nat, env: Names, kept: Names)
    requires
        keeps(kept),
    ensures
        canons(canons(s, n, env).0, n, kept) == canons(s, n, env),
    decreases s, 0nat,
{
    if s.len() > 0 {
        let (v, n1) = canons(s.drop_last(), n, env);
        canons_again(s.drop_last(), n, env, kept);
        canon_again(s.last(), n1, env, kept);
        let x = canon(s.last(), n1, env).0;
        assert(v.push(x).drop_last() =~= v);
    }
}

proof fn entries_again(s: Seq<(Core, Core)>, n: nat, env: Names, kept: Names)
    requires
        keeps(kept),
    ensures
        canon_entries(canon_entries(s, n, env).0, n, kept) == canon_entries(s, n, env),
    decreases s, 0nat,
{
    if s.len() > 0 {
        let (v, n1) = canon_entries(s.drop_last(), n, env);
        entries_again(s.drop_last(), n, env, kept);
        canon_again(s.last().0, n1, env, kept);
        let (x, n2) = canon(s.last().0, n1, env);
        canon_again(s.last().1, n2, env, kept);
        let y = canon(s.last().1, n2, env).0;
        assert(v.push((x, y)).drop_last() =~= v);
    }
}

proof fn segments_again(s: Seq<Segment>, n: nat, env: Names, kept: Names)
    requires
        keeps(kept),
    ensures
        canon_segments(canon_segments(s, n, env).0, n, kept) == canon_segments(s, n, env),
    decreases s, 0nat,
{
    if s.len() > 0 {
        let (v, n1) = canon_segments(s.drop_last(), n, env);
        segments_again(s.drop_last(), n, env, kept);
        canon_again(s.last().value, n1, env, kept);
        let x = canon(s.last().value, n1, env).0;
        let y = Segment { value: x, size: s.last().size, kind: s.last().kind };
        assert(v.push(y).drop_last() =~= v);
    }
}

proof fn clause_again(c: Clause, n: nat, env: Names, kept: Names)
    requires
        keeps(kept),
    ensures
        canon_clause(canon_clause(c, n, env).0, n, kept) == canon_clause(c, n, env),
    decreases c, 0nat,
{
    let start = Bound { next: n, env, here: Seq::empty() };
    let again = Bound { next: n, env: kept, here: Seq::empty() };
    assert(keeps(again.here));
    pats_again(c.patterns, start, again);
    let (p, b) = canon_pats(c.patterns, start);
    let d = canon_pats(p, again).1;
    canon_again(c.guard, b.next, b.env, d.env);
    let n1 = canon(c.guard, b.next, b.env).1;
    canon_again(c.body, n1, b.env, d.env);
}

proof fn clauses_again(s: Seq<Clause>, n: nat, env: Names, kept: Names)
    requires
        keeps(kept),
    ensures
        canon_clauses(canon_clauses(s, n, env).0, n, kept) == canon_clauses(s, n, env),
    decreases s, 0nat,
{
    if s.len() > 0 {
        let (v, n1) = canon_clauses(s.drop_last(), n, env);
        clauses_again(s.drop_last(), n, env, kept);
        clause_again(s.last(), n1, env, kept);
        let x = canon_clause(s.last(), n1, env).0;
        assert(v.push(x).drop_last() =~= v);
    }
}

/// The canonical form of a definition is its own canonical form. It keeps the
/// name and the arity, and its parameters are numbered from zero.
pub proof fn canonical_form_is_canonical(f: FunDef)
    ensures
        canon_fundef(canon_fundef(f)) == canon_fundef(f),
        canon_fundef(f).name == f.name,
        canon_fundef(f).arity == f.arity,
        canon_fundef(f).params == canonicals(0, f.params.len()),
{
    let k = f.params.len();
    assert(keeps(Seq::empty()));
    keeps_all(Seq::empty(), 0, k);
    canon_again(
        f.body,
        k,
        bind_all(Seq::empty(), f.params, 0),
        bind_all(Seq::empty(), canonicals(0, k), 0),
    );
    assert(canonicals(0, k).len() == k);
}

} // verus!
