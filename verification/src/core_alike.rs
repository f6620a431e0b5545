//! Core terms that differ in the names of bound variables alone have the same
//! canonical form.
use vstd::prelude::*;
use crate::canon::{
    bind_all, bind_once, binder_names, canon, canon_clause, canon_clauses, canon_entries,
    canon_fundef, canon_pat, canon_pat_segments, canon_pats, canon_segments, canon_values,
    canonical, canons, Bound, Names,
};
use crate::erlang::{Clause, Core, FunDef, Pat, PatSegment, Segment};
use crate::names::found;
use crate::swap_shape::introduced;

verus! {

/// The variables of one term and of another that are bound at the same places,
/// the latest last.
pub type Pairs = Seq<(Seq<char>, Seq<char>)>;

/// Which variables keep their names.
pub enum Kept {
    /// The one that stands for anything.
    Wildcard,
    /// That one, and all others that a translation introduces.
    Introduced,
}

pub open spec fn kept(keep: Kept, x: Seq<char>) -> bool {
    match keep {
        Kept::Wildcard => x == "_"@,
        Kept::Introduced => introduced(x),
    }
}

/// Whether two variables have the same binder, or are both free and the same.
pub open spec fn paired(ps: Pairs, x: Seq<char>, y: Seq<char>) -> bool
    decreases ps.len(),
{
    if ps.len() == 0 {
        x == y
    } else if ps.last().0 == x || ps.last().1 == y {
        ps.last().0 == x && ps.last().1 == y
    } else {
        paired(ps.drop_last(), x, y)
    }
}

/// Whether two variables may stand at the same place as binders.
pub open spec fn same_binder(keep: Kept, x: Seq<char>, y: Seq<char>) -> bool {
    if kept(keep, x) || kept(keep, y) {
        x == y
    } else {
        true
    }
}

/// Whether two variables may stand at the same place as values.
pub open spec fn same_var(keep: Kept, ps: Pairs, x: Seq<char>, y: Seq<char>) -> bool {
    if kept(keep, x) || kept(keep, y) {
        x == y
    } else {
        paired(ps, x, y)
    }
}

pub open spec fn same_binders(keep: Kept, s: Seq<Seq<char>>, t: Seq<Seq<char>>) -> bool {
    &&& s.len() == t.len()
    &&& forall|i: int| 0 <= i < s.len() ==> same_binder(keep, #[trigger] s[i], t[i])
}

/// The pairs after one more binder of each term.
pub open spec fn with_binder(keep: Kept, ps: Pairs, x: Seq<char>, y: Seq<char>) -> Pairs {
    if kept(keep, x) {
        ps
    } else {
        ps.push((x, y))
    }
}

/// The pairs after binders of each term.
pub open spec fn with_binders(keep: Kept, ps: Pairs, s: Seq<Seq<char>>, t: Seq<Seq<char>>) -> Pairs
    decreases s.len(),
{
    if s.len() == 0 {
        ps
    } else {
        with_binder(keep, with_binders(keep, ps, s.drop_last(), t.drop_last()), s.last(), t.last())
    }
}

/// Whether two patterns differ in the names that they bind alone.
pub open spec fn pat_alike(keep: Kept, p: Pat, q: Pat) -> bool
    decreases p,
{
    match (p, q) {
        (Pat::Lit(_), Pat::Lit(_)) => p == q,
        (Pat::Nil, Pat::Nil) => true,
        (Pat::Var(x), Pat::Var(y)) => same_binder(keep, x, y),
        (Pat::Tuple(s), Pat::Tuple(t)) => pats_alike(keep, s, t),
        (Pat::Cons(a, b), Pat::Cons(c, d)) => pat_alike(keep, *a, *c) && pat_alike(keep, *b, *d),
        (Pat::Binary(s), Pat::Binary(t)) => pat_segments_alike(keep, s, t),
        (Pat::Alias(x, a), Pat::Alias(y, b)) => same_binder(keep, x, y) && pat_alike(keep, *a, *b),
        _ => false,
    }
}

pub open spec fn pats_alike(keep: Kept, s: Seq<Pat>, t: Seq<Pat>) -> bool
    decreases s,
{
    &&& s.len() == t.len()
    &&& s.len() > 0 ==> pats_alike(keep, s.drop_last(), t.drop_last())
        && pat_alike(keep, s.last(), t.last())
}

pub open spec fn pat_segments_alike(keep: Kept, s: Seq<PatSegment>, t: Seq<PatSegment>) -> bool
    decreases s,
{
    &&& s.len() == t.len()
    &&& s.len() > 0 ==> pat_segments_alike(keep, s.drop_last(), t.drop_last()) && pat_alike(
        keep,
        s.last().pattern,
        t.last().pattern,
    ) && s.last().size == t.last().size && s.last().kind == t.last().kind
}

/// The variables that two patterns bind at the same places.
pub open spec fn pat_pairs(keep: Kept, p: Pat, q: Pat) -> Pairs
    decreases p,
{
    match (p, q) {
        (Pat::Var(x), Pat::Var(y)) => with_binder(keep, Seq::empty(), x, y),
        (Pat::Tuple(s), Pat::Tuple(t)) => pats_pairs(keep, s, t),
        (Pat::Cons(a, b), Pat::Cons(c, d)) => pat_pairs(keep, *a, *c) + pat_pairs(keep, *b, *d),
        (Pat::Binary(s), Pat::Binary(t)) => pat_segments_pairs(keep, s, t),
        (Pat::Alias(x, a), Pat::Alias(y, b)) => with_binder(keep, Seq::empty(), x, y) + pat_pairs(keep, *a, *b),
        _ => Seq::empty(),
    }
}

pub open spec fn pats_pairs(keep: Kept, s: Seq<Pat>, t: Seq<Pat>) -> Pairs
    decreases s,
{
    if s.len() == 0 {
        Seq::empty()
    } else {
        pats_pairs(keep, s.drop_last(), t.drop_last()) + pat_pairs(keep, s.last(), t.last())
    }
}

pub open spec fn pat_segments_pairs(keep: Kept, s: Seq<PatSegment>, t: Seq<PatSegment>) -> Pairs
    decreases s,
{
    if s.len() == 0 {
        Seq::empty()
    } else {
        pat_segments_pairs(keep, s.drop_last(), t.drop_last()) + pat_pairs(
            keep,
            s.last().pattern,
            t.last().pattern,
        )
    }
}

/// Whether a variable that stands twice on one side stands twice on the other.
pub open spec fn consistent(ps: Pairs) -> bool {
    forall|i: int, j: int|
        0 <= i < ps.len() && 0 <= j < ps.len() ==> ((#[trigger] ps[i]).0 == (#[trigger] ps[j]).0
            <==> ps[i].1 == ps[j].1)
}

/// Whether two terms differ in the names of bound variables alone, where `ps`
/// are bound around them.
pub open spec fn alike(keep: Kept, c: Core, d: Core, ps: Pairs) -> bool
    decreases c,
{
    match (c, d) {
        (Core::Lit(_), Core::Lit(_)) => c == d,
        (Core::LocalFunRef(_, _), Core::LocalFunRef(_, _)) => c == d,
        (Core::RemoteFunRef(_, _, _), Core::RemoteFunRef(_, _, _)) => c == d,
        (Core::Var(x), Core::Var(y)) => same_var(keep, ps, x, y),
        (Core::Tuple(s), Core::Tuple(t)) => all_alike(keep, s, t, ps),
        (Core::List(s, x), Core::List(t, y)) => all_alike(keep, s, t, ps)
            && alike(keep, *x, *y, ps),
        (Core::Cons(a, b), Core::Cons(x, y)) => alike(keep, *a, *x, ps) && alike(keep, *b, *y, ps),
        (Core::MapLit(s), Core::MapLit(t)) => entries_alike(keep, s, t, ps),
        (Core::Binary(s), Core::Binary(t)) => segments_alike(keep, s, t, ps),
        (Core::Apply(f, s), Core::Apply(g, t)) => alike(keep, *f, *g, ps)
            && all_alike(keep, s, t, ps),
        (Core::Call(m, f, s), Core::Call(n, g, t)) => m == n && f == g && all_alike(keep, s, t, ps),
        (Core::Let(s, x), Core::Let(t, y)) => {
            &&& values_alike(keep, s, t, ps)
            &&& same_binders(keep, binder_names(s), binder_names(t))
            &&& alike(keep, *x, *y, with_binders(keep, ps, binder_names(s), binder_names(t)))
        },
        (Core::Case(x, s), Core::Case(y, t)) => alike(keep, *x, *y, ps)
            && clauses_alike(keep, s, t, ps),
        (Core::Receive(s, x), Core::Receive(t, y)) => clauses_alike(keep, s, t, ps)
            && (match (x, y) {
            (Some((a, b)), Some((c, d))) => alike(keep, *a, *c, ps) && alike(keep, *b, *d, ps),
            (None, None) => true,
            _ => false,
        }),
        (Core::Fun(s, x), Core::Fun(t, y)) => same_binders(keep, s, t) && alike(
            keep,
            *x,
            *y,
            with_binders(keep, ps, s, t),
        ),
        (Core::Primop(o, s), Core::Primop(p, t)) => o == p && all_alike(keep, s, t, ps),
        (Core::Sequence(a, b), Core::Sequence(x, y)) => alike(keep, *a, *x, ps)
            && alike(keep, *b, *y, ps),
        (Core::Try(a, s, b, u, c), Core::Try(x, t, y, v, z)) => {
            &&& alike(keep, *a, *x, ps)
            &&& same_binders(keep, s, t)
            &&& alike(keep, *b, *y, with_binders(keep, ps, s, t))
            &&& same_binders(keep, u, v)
            &&& alike(keep, *c, *z, with_binders(keep, ps, u, v))
        },
        _ => false,
    }
}

pub open spec fn all_alike(keep: Kept, s: Seq<Core>, t: Seq<Core>, ps: Pairs) -> bool
    decreases s,
{
    &&& s.len() == t.len()
    &&& forall|i: int| 0 <= i < s.len() ==> alike(keep, #[trigger] s[i], t[i], ps)
}

pub open spec fn entries_alike(
    keep: Kept,
    s: Seq<(Core, Core)>,
    t: Seq<(Core, Core)>,
    ps: Pairs,
) -> bool
    decreases s,
{
    &&& s.len() == t.len()
    &&& forall|i: int|
        0 <= i < s.len() ==> alike(keep, (#[trigger] s[i]).0, t[i].0, ps)
            && alike(keep, s[i].1, t[i].1, ps)
}

pub open spec fn segments_alike(keep: Kept, s: Seq<Segment>, t: Seq<Segment>, ps: Pairs) -> bool
    decreases s,
{
    &&& s.len() == t.len()
    &&& forall|i: int|
        0 <= i < s.len() ==> alike(keep, (#[trigger] s[i]).value, t[i].value, ps)
            && s[i].size == t[i].size
            && s[i].kind == t[i].kind
}

pub open spec fn values_alike(
    keep: Kept,
    s: Seq<(Seq<char>, Core)>,
    t: Seq<(Seq<char>, Core)>,
    ps: Pairs,
) -> bool
    decreases s,
{
    &&& s.len() == t.len()
    &&& forall|i: int| 0 <= i < s.len() ==> alike(keep, (#[trigger] s[i]).1, t[i].1, ps)
}

pub open spec fn clause_alike(keep: Kept, c: Clause, d: Clause, ps: Pairs) -> bool
    decreases c,
{
    let here = ps + pats_pairs(keep, c.patterns, d.patterns);
    &&& pats_alike(keep, c.patterns, d.patterns)
    &&& consistent(pats_pairs(keep, c.patterns, d.patterns))
    &&& alike(keep, c.guard, d.guard, here)
    &&& alike(keep, c.body, d.body, here)
}

pub open spec fn clauses_alike(keep: Kept, s: Seq<Clause>, t: Seq<Clause>, ps: Pairs) -> bool
    decreases s,
{
    &&& s.len() == t.len()
    &&& forall|i: int| 0 <= i < s.len() ==> clause_alike(keep, #[trigger] s[i], t[i], ps)
}

/// Whether variables that have the same binder have the same canonical name.
spec fn related(keep: Kept, ps: Pairs, e: Names, f: Names) -> bool {
    &&& forall|z: Seq<char>| kept(keep, z) ==> #[trigger] found(e, z) == found(f, z)
    &&& forall|x: Seq<char>, y: Seq<char>|
        !kept(keep, x) && !kept(keep, y) && #[trigger] paired(ps, x, y) ==> found(e, x) == found(
            f,
            y,
        ) && (found(e, x) is None ==> x == y)
}

proof fn found_push(e: Names, x: Seq<char>, c: Seq<char>, y: Seq<char>)
    ensures
        found(e.push((x, c)), y) == if x == y {
            Some(c)
        } else {
            found(e, y)
        },
{
    assert(e.push((x, c)).drop_last() =~= e);
}

proof fn related_push(
    keep: Kept,
    ps: Pairs,
    e: Names,
    f: Names,
    x: Seq<char>,
    y: Seq<char>,
    c: Seq<char>,
)
    requires
        related(keep, ps, e, f),
        same_binder(keep, x, y),
    ensures
        related(keep, with_binder(keep, ps, x, y), e.push((x, c)), f.push((y, c))),
{
    let e1 = e.push((x, c));
    let f1 = f.push((y, c));
    let qs = with_binder(keep, ps, x, y);
    assert forall|z: Seq<char>| kept(keep, z) implies #[trigger] found(e1, z) == found(f1, z) by {
        found_push(e, x, c, z);
        found_push(f, y, c, z);
        assert(found(e, z) == found(f, z));
    }
    assert forall|a: Seq<char>, b: Seq<char>|
        !kept(keep, a) && !kept(keep, b) && #[trigger] paired(qs, a, b) implies found(e1, a)
        == found(f1, b) && (found(e1, a) is None ==> a == b) by {
        found_push(e, x, c, a);
        found_push(f, y, c, b);
        if kept(keep, x) {
            assert(paired(ps, a, b));
        } else {
            assert(qs.drop_last() =~= ps);
            if !(a == x || b == y) {
                assert(paired(ps, a, b));
            }
        }
    }
}

proof fn related_all(
    keep: Kept,
    ps: Pairs,
    e: Names,
    f: Names,
    s: Seq<Seq<char>>,
    t: Seq<Seq<char>>,
    n: nat,
)
    requires
        related(keep, ps, e, f),
        same_binders(keep, s, t),
    ensures
        related(keep, with_binders(keep, ps, s, t), bind_all(e, s, n), bind_all(f, t, n)),
    decreases s.len(),
{
    if s.len() > 0 {
        assert forall|i: int| 0 <= i < s.len() - 1 implies same_binder(
            keep,
            #[trigger] s.drop_last()[i],
            t.drop_last()[i],
        ) by {
            assert(same_binder(keep, s[i], t[i]));
        }
        related_all(keep, ps, e, f, s.drop_last(), t.drop_last(), n);
        assert(same_binder(keep, s[s.len() - 1], t[t.len() - 1]));
        related_push(
            keep,
            with_binders(keep, ps, s.drop_last(), t.drop_last()),
            bind_all(e, s.drop_last(), n),
            bind_all(f, t.drop_last(), n),
            s.last(),
            t.last(),
            canonical((n + s.len() - 1) as nat),
        );
    }
}

/// What holds while the patterns of a clause are renamed; `here` are the pairs
/// that they have bound so far.
spec fn along(keep: Kept, b: Bound, c: Bound, ps: Pairs, here: Pairs) -> bool {
    &&& b.next == c.next
    &&& related(keep, ps + here, b.env, c.env)
    &&& forall|z: Seq<char>| kept(keep, z) ==> #[trigger] found(b.here, z) == found(c.here, z)
    &&& forall|i: int|
        0 <= i < here.len() ==> found(b.here, (#[trigger] here[i]).0) is Some && found(
            b.here,
            here[i].0,
        ) == found(c.here, here[i].1)
    &&& forall|x: Seq<char>| #[trigger]
        found(b.here, x) is Some && !kept(keep, x) ==> exists|i: int|
            0 <= i < here.len() && (#[trigger] here[i]).0 == x
    &&& forall|y: Seq<char>| #[trigger]
        found(c.here, y) is Some && !kept(keep, y) ==> exists|i: int|
            0 <= i < here.len() && (#[trigger] here[i]).1 == y
    &&& forall|i: int|
        0 <= i < here.len() ==> !kept(keep, (#[trigger] here[i]).0) && !kept(keep, here[i].1)
}

proof fn consistent_front(a: Pairs, b: Pairs)
    requires
        consistent(a + b),
    ensures
        consistent(a),
{
    assert forall|i: int, j: int| 0 <= i < a.len() && 0 <= j < a.len() implies ((
    #[trigger] a[i]).0 == (#[trigger] a[j]).0 <==> a[i].1 == a[j].1) by {
        assert((a + b)[i] == a[i] && (a + b)[j] == a[j]);
    }
}

/// A pair that is bound in a clause is found first.
proof fn paired_here(ps: Pairs, here: Pairs, i: int)
    requires
        consistent(here),
        0 <= i < here.len(),
    ensures
        paired(ps + here, here[i].0, here[i].1),
    decreases here.len(),
{
    let k = here.len() - 1;
    assert((ps + here).last() == here[k]);
    assert((ps + here).drop_last() =~= ps + here.drop_last());
    assert(here[i].0 == here[k].0 <==> here[i].1 == here[k].1);
    if here[i].0 != here[k].0 {
        assert(here =~= here.drop_last() + seq![here[k]]);
        consistent_front(here.drop_last(), seq![here[k]]);
        paired_here(ps, here.drop_last(), i);
    }
}

proof fn once_alike(
    keep: Kept,
    b: Bound,
    c: Bound,
    ps: Pairs,
    here: Pairs,
    x: Seq<char>,
    y: Seq<char>,
)
    requires
        along(keep, b, c, ps, here),
        same_binder(keep, x, y),
        consistent(here + with_binder(keep, Seq::empty(), x, y)),
    ensures
        bind_once(b, x).0 == bind_once(c, y).0,
        along(
            keep,
            bind_once(b, x).1,
            bind_once(c, y).1,
            ps,
            here + with_binder(keep, Seq::empty(), x, y),
        ),
{
    let n = canonical(b.next);
    let now = here + with_binder(keep, Seq::empty(), x, y);
    let b1 = bind_once(b, x).1;
    let c1 = bind_once(c, y).1;
    if kept(keep, x) {
        assert(now =~= here);
        assert(found(b.here, x) == found(c.here, x));
        if found(b.here, x) is None {
            related_push(keep, ps + here, b.env, c.env, x, y, n);
            assert forall|z: Seq<char>| found(b1.here, z) == #[trigger] found(b.here, z) || z
                == x by {
                found_push(b.here, x, n, z);
            }
            assert forall|z: Seq<char>| found(c1.here, z) == #[trigger] found(c.here, z) || z
                == x by {
                found_push(c.here, x, n, z);
            }
            found_push(b.here, x, n, x);
            found_push(c.here, x, n, x);
            assert forall|z: Seq<char>| kept(keep, z) implies #[trigger] found(b1.here, z) == found(
                c1.here,
                z,
            ) by {
                found_push(b.here, x, n, z);
                found_push(c.here, x, n, z);
                assert(found(b.here, z) == found(c.here, z));
            }
            assert forall|z: Seq<char>| #[trigger]
                found(b1.here, z) is Some && !kept(keep, z) implies exists|i: int|
                0 <= i < now.len() && (#[trigger] now[i]).0 == z by {
                found_push(b.here, x, n, z);
                assert(found(b.here, z) is Some);
            }
            assert forall|z: Seq<char>| #[trigger]
                found(c1.here, z) is Some && !kept(keep, z) implies exists|i: int|
                0 <= i < now.len() && (#[trigger] now[i]).1 == z by {
                found_push(c.here, x, n, z);
                assert(found(c.here, z) is Some);
            }
            assert forall|i: int| 0 <= i < now.len() implies found(
                b1.here,
                (#[trigger] now[i]).0,
            ) is Some && found(b1.here, now[i].0) == found(c1.here, now[i].1) by {
                found_push(b.here, x, n, now[i].0);
                found_push(c.here, x, n, now[i].1);
                assert(here[i] == now[i]);
            }
        }
    } else {
        let k = here.len() as int;
        assert(now =~= here.push((x, y)));
        assert(now[k] == (x, y));
        if found(b.here, x) is Some {
            let i = choose|i: int| 0 <= i < here.len() && (#[trigger] here[i]).0 == x;
            assert(now[i] == here[i]);
            assert(now[i].0 == now[k].0 <==> now[i].1 == now[k].1);
            assert(here[i].1 == y);
            assert(found(b.here, x) == found(c.here, y));
            consistent_front(here, with_binder(keep, Seq::empty(), x, y));
            again(keep, ps, here, b.env, c.env, i);
            assert(ps + now =~= (ps + here).push((x, y)));
            keep_here(keep, b, c, here, now);
        } else {
            if found(c.here, y) is Some {
                let i = choose|i: int| 0 <= i < here.len() && (#[trigger] here[i]).1 == y;
                assert(now[i] == here[i]);
                assert(now[i].0 == now[k].0 <==> now[i].1 == now[k].1);
                assert(false);
            }
            related_push(keep, ps + here, b.env, c.env, x, y, n);
            assert(ps + now =~= (ps + here).push((x, y)));
            new_here(keep, b, c, here, x, y, n);
        }
    }
}

/// A pair that is bound in a clause already adds nothing.
proof fn again(keep: Kept, ps: Pairs, here: Pairs, e: Names, f: Names, i: int)
    requires
        related(keep, ps + here, e, f),
        consistent(here),
        0 <= i < here.len(),
    ensures
        related(keep, (ps + here).push(here[i]), e, f),
{
    let qs = (ps + here).push(here[i]);
    assert(qs.drop_last() =~= ps + here);
    paired_here(ps, here, i);
    assert forall|a: Seq<char>, b: Seq<char>|
        !kept(keep, a) && !kept(keep, b) && #[trigger] paired(qs, a, b) implies found(e, a)
        == found(f, b) && (found(e, a) is None ==> a == b) by {
        assert(paired(ps + here, a, b));
    }
}

proof fn keep_here(keep: Kept, b: Bound, c: Bound, here: Pairs, now: Pairs)
    requires
        now.len() == here.len() + 1,
        here =~= now.drop_last(),
        exists|i: int| 0 <= i < here.len() && here[i] == now.last(),
        forall|i: int|
            0 <= i < here.len() ==> found(b.here, (#[trigger] here[i]).0) is Some && found(
                b.here,
                here[i].0,
            ) == found(c.here, here[i].1),
        forall|x: Seq<char>| #[trigger]
            found(b.here, x) is Some && !kept(keep, x) ==> exists|i: int|
                0 <= i < here.len() && (#[trigger] here[i]).0 == x,
        forall|y: Seq<char>| #[trigger]
            found(c.here, y) is Some && !kept(keep, y) ==> exists|i: int|
                0 <= i < here.len() && (#[trigger] here[i]).1 == y,
    ensures
        forall|i: int|
            0 <= i < now.len() ==> found(b.here, (#[trigger] now[i]).0) is Some && found(
                b.here,
                now[i].0,
            ) == found(c.here, now[i].1),
        forall|x: Seq<char>| #[trigger]
            found(b.here, x) is Some && !kept(keep, x) ==> exists|i: int|
                0 <= i < now.len() && (#[trigger] now[i]).0 == x,
        forall|y: Seq<char>| #[trigger]
            found(c.here, y) is Some && !kept(keep, y) ==> exists|i: int|
                0 <= i < now.len() && (#[trigger] now[i]).1 == y,
{
    let k = choose|k: int| 0 <= k < here.len() && here[k] == now.last();
    assert forall|i: int| 0 <= i < now.len() implies found(
        b.here,
        (#[trigger] now[i]).0,
    ) is Some && found(b.here, now[i].0) == found(c.here, now[i].1) by {
        if i < here.len() {
            assert(now[i] == here[i]);
        } else {
            assert(now[i] == here[k]);
        }
    }
    assert forall|x: Seq<char>| #[trigger]
        found(b.here, x) is Some && !kept(keep, x) implies exists|i: int|
        0 <= i < now.len() && (#[trigger] now[i]).0 == x by {
        let i = choose|i: int| 0 <= i < here.len() && (#[trigger] here[i]).0 == x;
        assert(now[i].0 == x);
    }
    assert forall|y: Seq<char>| #[trigger]
        found(c.here, y) is Some && !kept(keep, y) implies exists|i: int|
        0 <= i < now.len() && (#[trigger] now[i]).1 == y by {
        let i = choose|i: int| 0 <= i < here.len() && (#[trigger] here[i]).1 == y;
        assert(now[i].1 == y);
    }
}

proof fn new_here(
    keep: Kept,
    b: Bound,
    c: Bound,
    here: Pairs,
    x: Seq<char>,
    y: Seq<char>,
    n: Seq<char>,
)
    requires
        !kept(keep, x),
        !kept(keep, y),
        found(b.here, x) is None,
        found(c.here, y) is None,
        forall|z: Seq<char>| kept(keep, z) ==> #[trigger] found(b.here, z) == found(c.here, z),
        forall|i: int|
            0 <= i < here.len() ==> found(b.here, (#[trigger] here[i]).0) is Some && found(
                b.here,
                here[i].0,
            ) == found(c.here, here[i].1),
        forall|x: Seq<char>| #[trigger]
            found(b.here, x) is Some && !kept(keep, x) ==> exists|i: int|
                0 <= i < here.len() && (#[trigger] here[i]).0 == x,
        forall|y: Seq<char>| #[trigger]
            found(c.here, y) is Some && !kept(keep, y) ==> exists|i: int|
                0 <= i < here.len() && (#[trigger] here[i]).1 == y,
    ensures
        ({
            let e = b.here.push((x, n));
            let f = c.here.push((y, n));
            let now = here.push((x, y));
            &&& forall|z: Seq<char>| kept(keep, z) ==> #[trigger] found(e, z) == found(f, z)
            &&& forall|i: int|
                0 <= i < now.len() ==> found(e, (#[trigger] now[i]).0) is Some && found(
                    e,
                    now[i].0,
                ) == found(f, now[i].1)
            &&& forall|x: Seq<char>| #[trigger]
                found(e, x) is Some && !kept(keep, x) ==> exists|i: int|
                    0 <= i < now.len() && (#[trigger] now[i]).0 == x
            &&& forall|y: Seq<char>| #[trigger]
                found(f, y) is Some && !kept(keep, y) ==> exists|i: int|
                    0 <= i < now.len() && (#[trigger] now[i]).1 == y
        }),
{
    let e = b.here.push((x, n));
    let f = c.here.push((y, n));
    let now = here.push((x, y));
    let k = here.len() as int;
    assert forall|z: Seq<char>| kept(keep, z) implies #[trigger] found(e, z) == found(f, z) by {
        found_push(b.here, x, n, z);
        found_push(c.here, y, n, z);
        assert(found(b.here, z) == found(c.here, z));
    }
    assert forall|i: int| 0 <= i < now.len() implies found(e, (#[trigger] now[i]).0) is Some
        && found(e, now[i].0) == found(f, now[i].1) by {
        found_push(b.here, x, n, now[i].0);
        found_push(c.here, y, n, now[i].1);
        if i < k {
            assert(now[i] == here[i]);
        }
    }
    assert forall|a: Seq<char>| #[trigger] found(e, a) is Some && !kept(keep, a) implies exists|
        i: int,
    | 0 <= i < now.len() && (#[trigger] now[i]).0 == a by {
        found_push(b.here, x, n, a);
        if a == x {
            assert(now[k].0 == a);
        } else {
            assert(found(b.here, a) is Some);
            let i = choose|i: int| 0 <= i < here.len() && (#[trigger] here[i]).0 == a;
            assert(now[i].0 == a);
        }
    }
    assert forall|a: Seq<char>| #[trigger] found(f, a) is Some && !kept(keep, a) implies exists|
        i: int,
    | 0 <= i < now.len() && (#[trigger] now[i]).1 == a by {
        found_push(c.here, y, n, a);
        if a == y {
            assert(now[k].1 == a);
        } else {
            assert(found(c.here, a) is Some);
            let i = choose|i: int| 0 <= i < here.len() && (#[trigger] here[i]).1 == a;
            assert(now[i].1 == a);
        }
    }
}

proof fn pat_canon(keep: Kept, p: Pat, q: Pat, b: Bound, c: Bound, ps: Pairs, here: Pairs)
    requires
        along(keep, b, c, ps, here),
        pat_alike(keep, p, q),
        consistent(here + pat_pairs(keep, p, q)),
    ensures
        canon_pat(p, b).0 == canon_pat(q, c).0,
        along(keep, canon_pat(p, b).1, canon_pat(q, c).1, ps, here + pat_pairs(keep, p, q)),
    decreases p,
{
    match (p, q) {
        (Pat::Var(x), Pat::Var(y)) => {
            if x == "_"@ {
                assert(kept(keep, x));
                assert(here + pat_pairs(keep, p, q) =~= here);
            } else {
                assert(kept(keep, "_"@));
                assert(y != "_"@);
                once_alike(keep, b, c, ps, here, x, y);
            }
        },
        (Pat::Tuple(s), Pat::Tuple(t)) => {
            pats_canon(keep, s, t, b, c, ps, here);
        },
        (Pat::Cons(h, r), Pat::Cons(i, s)) => {
            let m = here + pat_pairs(keep, *h, *i);
            assert(here + pat_pairs(keep, p, q) =~= m + pat_pairs(keep, *r, *s));
            consistent_front(m, pat_pairs(keep, *r, *s));
            pat_canon(keep, *h, *i, b, c, ps, here);
            pat_canon(keep, *r, *s, canon_pat(*h, b).1, canon_pat(*i, c).1, ps, m);
        },
        (Pat::Binary(s), Pat::Binary(t)) => {
            pat_segments_canon(keep, s, t, b, c, ps, here);
        },
        (Pat::Alias(x, r), Pat::Alias(y, s)) => {
            let m = here + with_binder(keep, Seq::empty(), x, y);
            assert(here + pat_pairs(keep, p, q) =~= m + pat_pairs(keep, *r, *s));
            consistent_front(m, pat_pairs(keep, *r, *s));
            once_alike(keep, b, c, ps, here, x, y);
            pat_canon(keep, *r, *s, bind_once(b, x).1, bind_once(c, y).1, ps, m);
        },
        _ => {
            assert(here + pat_pairs(keep, p, q) =~= here);
        },
    }
}

proof fn pats_canon(
    keep: Kept,
    s: Seq<Pat>,
    t: Seq<Pat>,
    b: Bound,
    c: Bound,
    ps: Pairs,
    here: Pairs,
)
    requires
        along(keep, b, c, ps, here),
        pats_alike(keep, s, t),
        consistent(here + pats_pairs(keep, s, t)),
    ensures
        canon_pats(s, b).0 == canon_pats(t, c).0,
        along(keep, canon_pats(s, b).1, canon_pats(t, c).1, ps, here + pats_pairs(keep, s, t)),
    decreases s,
{
    if s.len() == 0 {
        assert(here + pats_pairs(keep, s, t) =~= here);
    } else {
        let f = s.drop_last();
        let g = t.drop_last();
        let m = here + pats_pairs(keep, f, g);
        assert(here + pats_pairs(keep, s, t) =~= m + pat_pairs(keep, s.last(), t.last()));
        consistent_front(m, pat_pairs(keep, s.last(), t.last()));
        pats_canon(keep, f, g, b, c, ps, here);
        pat_canon(keep, s.last(), t.last(), canon_pats(f, b).1, canon_pats(g, c).1, ps, m);
    }
}

proof fn pat_segments_canon(
    keep: Kept,
    s: Seq<PatSegment>,
    t: Seq<PatSegment>,
    b: Bound,
    c: Bound,
    ps: Pairs,
    here: Pairs,
)
    requires
        along(keep, b, c, ps, here),
        pat_segments_alike(keep, s, t),
        consistent(here + pat_segments_pairs(keep, s, t)),
    ensures
        canon_pat_segments(s, b).0 == canon_pat_segments(t, c).0,
        along(
            keep,
            canon_pat_segments(s, b).1,
            canon_pat_segments(t, c).1,
            ps,
            here + pat_segments_pairs(keep, s, t),
        ),
    decreases s,
{
    if s.len() == 0 {
        assert(here + pat_segments_pairs(keep, s, t) =~= here);
    } else {
        let f = s.drop_last();
        let g = t.drop_last();
        let m = here + pat_segments_pairs(keep, f, g);
        let x = s.last().pattern;
        let y = t.last().pattern;
        assert(here + pat_segments_pairs(keep, s, t) =~= m + pat_pairs(keep, x, y));
        consistent_front(m, pat_pairs(keep, x, y));
        pat_segments_canon(keep, f, g, b, c, ps, here);
        pat_canon(keep, x, y, canon_pat_segments(f, b).1, canon_pat_segments(g, c).1, ps, m);
    }
}

/// Terms that differ in the names of bound variables alone have the same
/// canonical form.
proof fn canon_alike(keep: Kept, c: Core, d: Core, ps: Pairs, n: nat, e: Names, f: Names)
    requires
        alike(keep, c, d, ps),
        related(keep, ps, e, f),
    ensures
        canon(c, n, e) == canon(d, n, f),
    decreases c,
{
    match (c, d) {
        (Core::Var(x), Core::Var(y)) => {
            if kept(keep, x) || kept(keep, y) {
                assert(found(e, x) == found(f, x));
            } else {
                assert(paired(ps, x, y));
            }
        },
        (Core::Tuple(s), Core::Tuple(t)) => {
            canons_alike(keep, s, t, ps, n, e, f);
        },
        (Core::List(s, x), Core::List(t, y)) => {
            canons_alike(keep, s, t, ps, n, e, f);
            canon_alike(keep, *x, *y, ps, canons(s, n, e).1, e, f);
        },
        (Core::Cons(a, b), Core::Cons(x, y)) => {
            canon_alike(keep, *a, *x, ps, n, e, f);
            canon_alike(keep, *b, *y, ps, canon(*a, n, e).1, e, f);
        },
        (Core::MapLit(s), Core::MapLit(t)) => {
            canon_entries_alike(keep, s, t, ps, n, e, f);
        },
        (Core::Binary(s), Core::Binary(t)) => {
            canon_segments_alike(keep, s, t, ps, n, e, f);
        },
        (Core::Apply(x, s), Core::Apply(y, t)) => {
            canon_alike(keep, *x, *y, ps, n, e, f);
            canons_alike(keep, s, t, ps, canon(*x, n, e).1, e, f);
        },
        (Core::Call(_, _, s), Core::Call(_, _, t)) => {
            canons_alike(keep, s, t, ps, n, e, f);
        },
        (Core::Let(s, x), Core::Let(t, y)) => {
            canon_values_alike(keep, s, t, ps, n, e, f);
            let n1 = canon_values(s, n, e).1;
            let a = binder_names(s);
            let b = binder_names(t);
            related_all(keep, ps, e, f, a, b, n1);
            canon_alike(
                keep,
                *x,
                *y,
                with_binders(keep, ps, a, b),
                n1 + s.len(),
                bind_all(e, a, n1),
                bind_all(f, b, n1),
            );
        },
        (Core::Case(x, s), Core::Case(y, t)) => {
            canon_alike(keep, *x, *y, ps, n, e, f);
            canon_clauses_alike(keep, s, t, ps, canon(*x, n, e).1, e, f);
        },
        (Core::Receive(s, x), Core::Receive(t, y)) => {
            canon_clauses_alike(keep, s, t, ps, n, e, f);
            let n1 = canon_clauses(s, n, e).1;
            match (x, y) {
                (Some((a, b)), Some((x, y))) => {
                    canon_alike(keep, *a, *x, ps, n1, e, f);
                    canon_alike(keep, *b, *y, ps, canon(*a, n1, e).1, e, f);
                },
                _ => {},
            }
        },
        (Core::Fun(s, x), Core::Fun(t, y)) => {
            related_all(keep, ps, e, f, s, t, n);
            canon_alike(
                keep,
                *x,
                *y,
                with_binders(keep, ps, s, t),
                n + s.len(),
                bind_all(e, s, n),
                bind_all(f, t, n),
            );
        },
        (Core::Primop(_, s), Core::Primop(_, t)) => {
            canons_alike(keep, s, t, ps, n, e, f);
        },
        (Core::Sequence(a, b), Core::Sequence(x, y)) => {
            canon_alike(keep, *a, *x, ps, n, e, f);
            canon_alike(keep, *b, *y, ps, canon(*a, n, e).1, e, f);
        },
        (Core::Try(a, s, b, u, z), Core::Try(x, t, y, v, w)) => {
            canon_alike(keep, *a, *x, ps, n, e, f);
            let n1 = canon(*a, n, e).1;
            related_all(keep, ps, e, f, s, t, n1);
            let e1 = bind_all(e, s, n1);
            canon_alike(
                keep,
                *b,
                *y,
                with_binders(keep, ps, s, t),
                n1 + s.len(),
                e1,
                bind_all(f, t, n1),
            );
            let n2 = canon(*b, n1 + s.len(), e1).1;
            related_all(keep, ps, e, f, u, v, n2);
            canon_alike(
                keep,
                *z,
                *w,
                with_binders(keep, ps, u, v),
                n2 + u.len(),
                bind_all(e, u, n2),
                bind_all(f, v, n2),
            );
        },
        _ => {},
    }
}

proof fn canons_alike(keep: Kept, s: Seq<Core>, t: Seq<Core>, ps: Pairs, n: nat, e: Names, f: Names)
    requires
        all_alike(keep, s, t, ps),
        related(keep, ps, e, f),
    ensures
        canons(s, n, e) == canons(t, n, f),
    decreases s,
{
    if s.len() > 0 {
        let a = s.drop_last();
        let b = t.drop_last();
        assert forall|i: int| 0 <= i < a.len() implies alike(keep, #[trigger] a[i], b[i], ps) by {
            assert(alike(keep, s[i], t[i], ps));
        }
        canons_alike(keep, a, b, ps, n, e, f);
        let n1 = canons(a, n, e).1;
        assert(alike(keep, s[s.len() - 1], t[s.len() - 1], ps));
        canon_alike(keep, s.last(), t.last(), ps, n1, e, f);
    }
}

proof fn canon_entries_alike(
    keep: Kept,
    s: Seq<(Core, Core)>,
    t: Seq<(Core, Core)>,
    ps: Pairs,
    n: nat,
    e: Names,
    f: Names,
)
    requires
        entries_alike(keep, s, t, ps),
        related(keep, ps, e, f),
    ensures
        canon_entries(s, n, e) == canon_entries(t, n, f),
    decreases s,
{
    if s.len() > 0 {
        let a = s.drop_last();
        let b = t.drop_last();
        assert forall|i: int| 0 <= i < a.len() implies alike(
            keep,
            (#[trigger] a[i]).0,
            b[i].0,
            ps,
        ) && alike(keep, a[i].1, b[i].1, ps) by {
            assert(alike(keep, s[i].0, t[i].0, ps) && alike(keep, s[i].1, t[i].1, ps));
        }
        canon_entries_alike(keep, a, b, ps, n, e, f);
        let n1 = canon_entries(a, n, e).1;
        assert(alike(keep, s[s.len() - 1].0, t[s.len() - 1].0, ps));
        assert(alike(keep, s[s.len() - 1].1, t[s.len() - 1].1, ps));
        canon_alike(keep, s.last().0, t.last().0, ps, n1, e, f);
        canon_alike(keep, s.last().1, t.last().1, ps, canon(s.last().0, n1, e).1, e, f);
    }
}

proof fn canon_segments_alike(
    keep: Kept,
    s: Seq<Segment>,
    t: Seq<Segment>,
    ps: Pairs,
    n: nat,
    e: Names,
    f: Names,
)
    requires
        segments_alike(keep, s, t, ps),
        related(keep, ps, e, f),
    ensures
        canon_segments(s, n, e) == canon_segments(t, n, f),
    decreases s,
{
    if s.len() > 0 {
        let a = s.drop_last();
        let b = t.drop_last();
        assert forall|i: int| 0 <= i < a.len() implies alike(
            keep,
            (#[trigger] a[i]).value,
            b[i].value,
            ps,
        ) && a[i].size == b[i].size && a[i].kind == b[i].kind by {
            assert(alike(keep, s[i].value, t[i].value, ps));
        }
        canon_segments_alike(keep, a, b, ps, n, e, f);
        let n1 = canon_segments(a, n, e).1;
        assert(alike(keep, s[s.len() - 1].value, t[s.len() - 1].value, ps));
        canon_alike(keep, s.last().value, t.last().value, ps, n1, e, f);
    }
}

proof fn canon_values_alike(
    keep: Kept,
    s: Seq<(Seq<char>, Core)>,
    t: Seq<(Seq<char>, Core)>,
    ps: Pairs,
    n: nat,
    e: Names,
    f: Names,
)
    requires
        values_alike(keep, s, t, ps),
        related(keep, ps, e, f),
    ensures
        canon_values(s, n, e) == canon_values(t, n, f),
    decreases s,
{
    if s.len() > 0 {
        let a = s.drop_last();
        let b = t.drop_last();
        assert forall|i: int| 0 <= i < a.len() implies alike(
            keep,
            (#[trigger] a[i]).1,
            b[i].1,
            ps,
        ) by {
            assert(alike(keep, s[i].1, t[i].1, ps));
        }
        canon_values_alike(keep, a, b, ps, n, e, f);
        let n1 = canon_values(a, n, e).1;
        assert(alike(keep, s[s.len() - 1].1, t[s.len() - 1].1, ps));
        canon_alike(keep, s.last().1, t.last().1, ps, n1, e, f);
    }
}

proof fn canon_clauses_alike(
    keep: Kept,
    s: Seq<Clause>,
    t: Seq<Clause>,
    ps: Pairs,
    n: nat,
    e: Names,
    f: Names,
)
    requires
        clauses_alike(keep, s, t, ps),
        related(keep, ps, e, f),
    ensures
        canon_clauses(s, n, e) == canon_clauses(t, n, f),
    decreases s,
{
    if s.len() > 0 {
        let a = s.drop_last();
        let b = t.drop_last();
        assert forall|i: int| 0 <= i < a.len() implies clause_alike(
            keep,
            #[trigger] a[i],
            b[i],
            ps,
        ) by {
            assert(clause_alike(keep, s[i], t[i], ps));
        }
        canon_clauses_alike(keep, a, b, ps, n, e, f);
        let n1 = canon_clauses(a, n, e).1;
        assert(clause_alike(keep, s[s.len() - 1], t[s.len() - 1], ps));
        canon_clause_alike(keep, s.last(), t.last(), ps, n1, e, f);
    }
}

proof fn canon_clause_alike(keep: Kept, c: Clause, d: Clause, ps: Pairs, n: nat, e: Names, f: Names)
    requires
        clause_alike(keep, c, d, ps),
        related(keep, ps, e, f),
    ensures
        canon_clause(c, n, e) == canon_clause(d, n, f),
    decreases c,
{
    let b = Bound { next: n, env: e, here: Seq::empty() };
    let k = Bound { next: n, env: f, here: Seq::empty() };
    let none: Pairs = Seq::empty();
    let here = pats_pairs(keep, c.patterns, d.patterns);
    assert(ps + none =~= ps);
    assert(none + here =~= here);
    assert(along(keep, b, k, ps, none));
    pats_canon(keep, c.patterns, d.patterns, b, k, ps, none);
    let b1 = canon_pats(c.patterns, b).1;
    let k1 = canon_pats(d.patterns, k).1;
    canon_alike(keep, c.guard, d.guard, ps + here, b1.next, b1.env, k1.env);
    let n1 = canon(c.guard, b1.next, b1.env).1;
    canon_alike(keep, c.body, d.body, ps + here, n1, b1.env, k1.env);
}

/// Whether two definitions differ in the names of parameters and of other bound
/// variables alone.
pub open spec fn fundef_alike(keep: Kept, f: FunDef, g: FunDef) -> bool {
    &&& f.name == g.name
    &&& f.arity == g.arity
    &&& same_binders(keep, f.params, g.params)
    &&& alike(keep, f.body, g.body, with_binders(keep, Seq::empty(), f.params, g.params))
}

/// Definitions that differ in the names of parameters and of other bound
/// variables alone have the same canonical form. Only the variable that stands
/// for anything has to keep its name.
pub proof fn canonical_form_ignores_binders(keep: Kept, f: FunDef, g: FunDef)
    requires
        fundef_alike(keep, f, g),
    ensures
        canon_fundef(f) == canon_fundef(g),
{
    let ps: Pairs = Seq::empty();
    let none: Names = Seq::empty();
    assert(related(keep, ps, none, none));
    related_all(keep, ps, none, none, f.params, g.params, 0);
    canon_alike(
        keep,
        f.body,
        g.body,
        with_binders(keep, ps, f.params, g.params),
        f.params.len(),
        bind_all(none, f.params, 0),
        bind_all(none, g.params, 0),
    );
}

} // verus!
