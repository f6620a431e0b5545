//! Canonical names: every binder of a Core function is renamed `V0`, `V1`, ...
//! in the order in which the binders are met.
use vstd::prelude::*;
use crate::erlang::{
    bindings_of, clause_of, clauses_of, core_of, cores_of, dup_lit, entries_of, fundef_of, pat_of,
    pat_segments_of, pats_of, segments_of, Clause, Core, CoreBinaryPatternSegment,
    CoreBinarySegment, CoreClause, CoreExpr, CoreFunDef, CorePattern, FunDef, Pat, PatSegment,
    Segment,
};
use crate::names::{found, NameMap};
use crate::text::{decimal, same, texts, Counter};

verus! {

/// Names in scope with their canonical names; a later entry hides an earlier one.
pub type Names = Seq<(Seq<char>, Seq<char>)>;

/// The canonical name of binder number `n`.
pub open spec fn canonical(n: nat) -> Seq<char> {
    "V"@ + decimal(n)
}

/// The canonical names of `k` binders from number `n` on.
pub open spec fn canonicals(n: nat, k: nat) -> Seq<Seq<char>> {
    Seq::new(k, |i: int| canonical((n + i) as nat))
}

/// The canonical name of a name; a name that is not bound stays.
pub open spec fn renamed(env: Names, name: Seq<char>) -> Seq<char> {
    match found(env, name) {
        Some(c) => c,
        None => name,
    }
}

/// The scope after binding `names`, the first of them as number `n`.
pub open spec fn bind_all(env: Names, names: Seq<Seq<char>>, n: nat) -> Names
    decreases names.len(),
{
    if names.len() == 0 {
        env
    } else {
        bind_all(env, names.drop_last(), n).push(
            (names.last(), canonical((n + names.len() - 1) as nat)),
        )
    }
}

/// The names of a `let`'s binders.
pub open spec fn binder_names(s: Seq<(Seq<char>, Core)>) -> Seq<Seq<char>> {
    Seq::new(s.len(), |i: int| s[i].0)
}

/// What the renaming of a clause's patterns has come to: the next number, the
/// names in scope, and the names that the clause's patterns have bound.
pub struct Bound {
    pub next: nat,
    pub env: Names,
    pub here: Names,
}

/// The canonical name of a name that a pattern binds: the one it has in this
/// clause already, or a new one.
pub open spec fn bind_once(b: Bound, name: Seq<char>) -> (Seq<char>, Bound) {
    match found(b.here, name) {
        Some(c) => (c, b),
        None => (
            canonical(b.next),
            Bound {
                next: b.next + 1,
                env: b.env.push((name, canonical(b.next))),
                here: b.here.push((name, canonical(b.next))),
            },
        ),
    }
}

pub open spec fn canon_pat(p: Pat, b: Bound) -> (Pat, Bound)
    decreases p,
{
    match p {
        Pat::Lit(_) => (p, b),
        Pat::Nil => (p, b),
        Pat::Var(name) => if name == "_"@ {
            (p, b)
        } else {
            let (c, b1) = bind_once(b, name);
            (Pat::Var(c), b1)
        },
        Pat::Tuple(items) => {
            let (v, b1) = canon_pats(items, b);
            (Pat::Tuple(v), b1)
        },
        Pat::Cons(h, t) => {
            let (x, b1) = canon_pat(*h, b);
            let (y, b2) = canon_pat(*t, b1);
            (Pat::Cons(Box::new(x), Box::new(y)), b2)
        },
        Pat::Binary(segments) => {
            let (v, b1) = canon_pat_segments(segments, b);
            (Pat::Binary(v), b1)
        },
        Pat::Alias(name, inner) => {
            let (c, b1) = bind_once(b, name);
            let (x, b2) = canon_pat(*inner, b1);
            (Pat::Alias(c, Box::new(x)), b2)
        },
    }
}

pub open spec fn canon_pats(s: Seq<Pat>, b: Bound) -> (Seq<Pat>, Bound)
    decreases s,
{
    if s.len() == 0 {
        (Seq::empty(), b)
    } else {
        let (v, b1) = canon_pats(s.drop_last(), b);
        let (x, b2) = canon_pat(s.last(), b1);
        (v.push(x), b2)
    }
}

pub open spec fn canon_pat_segments(s: Seq<PatSegment>, b: Bound) -> (Seq<PatSegment>, Bound)
    decreases s,
{
    if s.len() == 0 {
        (Seq::empty(), b)
    } else {
        let (v, b1) = canon_pat_segments(s.drop_last(), b);
        let (x, b2) = canon_pat(s.last().pattern, b1);
        (v.push(PatSegment { pattern: x, size: s.last().size, kind: s.last().kind }), b2)
    }
}

/// The canonical form of an expression, and the next binder's number.
pub open spec fn canon(e: Core, n: nat, env: Names) -> (Core, nat)
    decreases e,
{
    match e {
        Core::Lit(_) => (e, n),
        Core::LocalFunRef(_, _) => (e, n),
        Core::RemoteFunRef(_, _, _) => (e, n),
        Core::Var(name) => (Core::Var(renamed(env, name)), n),
        Core::Tuple(items) => {
            let (v, n1) = canons(items, n, env);
            (Core::Tuple(v), n1)
        },
        Core::List(items, tail) => {
            let (v, n1) = canons(items, n, env);
            let (x, n2) = canon(*tail, n1, env);
            (Core::List(v, Box::new(x)), n2)
        },
        Core::Cons(h, t) => {
            let (x, n1) = canon(*h, n, env);
            let (y, n2) = canon(*t, n1, env);
            (Core::Cons(Box::new(x), Box::new(y)), n2)
        },
        Core::MapLit(entries) => {
            let (v, n1) = canon_entries(entries, n, env);
            (Core::MapLit(v), n1)
        },
        Core::Binary(segments) => {
            let (v, n1) = canon_segments(segments, n, env);
            (Core::Binary(v), n1)
        },
        Core::Apply(f, args) => {
            let (x, n1) = canon(*f, n, env);
            let (v, n2) = canons(args, n1, env);
            (Core::Apply(Box::new(x), v), n2)
        },
        Core::Call(module, f, args) => {
            let (v, n1) = canons(args, n, env);
            (Core::Call(module, f, v), n1)
        },
        Core::Let(bindings, body) => {
            let (v, n1) = canon_values(bindings, n, env);
            let k = bindings.len();
            let (x, n2) = canon(*body, n1 + k, bind_all(env, binder_names(bindings), n1));
            (
                Core::Let(
                    Seq::new(k, |i: int| (canonical((n1 + i) as nat), v[i])),
                    Box::new(x),
                ),
                n2,
            )
        },
        Core::Case(scrutinee, clauses) => {
            let (x, n1) = canon(*scrutinee, n, env);
            let (v, n2) = canon_clauses(clauses, n1, env);
            (Core::Case(Box::new(x), v), n2)
        },
        Core::Receive(clauses, timeout) => {
            let (v, n1) = canon_clauses(clauses, n, env);
            match timeout {
                Some((ms, body)) => {
                    let (x, n2) = canon(*ms, n1, env);
                    let (y, n3) = canon(*body, n2, env);
                    (Core::Receive(v, Some((Box::new(x), Box::new(y)))), n3)
                },
                None => (Core::Receive(v, None), n1),
            }
        },
        Core::Fun(params, body) => {
            let (x, n1) = canon(*body, n + params.len(), bind_all(env, params, n));
            (Core::Fun(canonicals(n, params.len()), Box::new(x)), n1)
        },
        Core::Primop(op, args) => {
            let (v, n1) = canons(args, n, env);
            (Core::Primop(op, v), n1)
        },
        Core::Sequence(a, b) => {
            let (x, n1) = canon(*a, n, env);
            let (y, n2) = canon(*b, n1, env);
            (Core::Sequence(Box::new(x), Box::new(y)), n2)
        },
        Core::Try(body, vars, handler, evars, catch) => {
            let (x, n1) = canon(*body, n, env);
            let (y, n2) = canon(*handler, n1 + vars.len(), bind_all(env, vars, n1));
            let (z, n3) = canon(*catch, n2 + evars.len(), bind_all(env, evars, n2));
            (
                Core::Try(
                    Box::new(x),
                    canonicals(n1, vars.len()),
                    Box::new(y),
                    canonicals(n2, evars.len()),
                    Box::new(z),
                ),
                n3,
            )
        },
    }
}

pub open spec fn canons(s: Seq<Core>, n: nat, env: Names) -> (Seq<Core>, nat)
    decreases s,
{
    if s.len() == 0 {
        (Seq::empty(), n)
    } else {
        let (v, n1) = canons(s.drop_last(), n, env);
        let (x, n2) = canon(s.last(), n1, env);
        (v.push(x), n2)
    }
}

pub open spec fn canon_entries(s: Seq<(Core, Core)>, n: nat, env: Names) -> (Seq<(Core, Core)>, nat)
    decreases s,
{
    if s.len() == 0 {
        (Seq::empty(), n)
    } else {
        let (v, n1) = canon_entries(s.drop_last(), n, env);
        let (x, n2) = canon(s.last().0, n1, env);
        let (y, n3) = canon(s.last().1, n2, env);
        (v.push((x, y)), n3)
    }
}

pub open spec fn canon_segments(s: Seq<Segment>, n: nat, env: Names) -> (Seq<Segment>, nat)
    decreases s,
{
    if s.len() == 0 {
        (Seq::empty(), n)
    } else {
        let (v, n1) = canon_segments(s.drop_last(), n, env);
        let (x, n2) = canon(s.last().value, n1, env);
        (v.push(Segment { value: x, size: s.last().size, kind: s.last().kind }), n2)
    }
}

pub open spec fn canon_values(s: Seq<(Seq<char>, Core)>, n: nat, env: Names) -> (Seq<Core>, nat)
    decreases s,
{
    if s.len() == 0 {
        (Seq::empty(), n)
    } else {
        let (v, n1) = canon_values(s.drop_last(), n, env);
        let (x, n2) = canon(s.last().1, n1, env);
        (v.push(x), n2)
    }
}

/// A clause: its patterns bind first, then the guard and the body are renamed.
pub open spec fn canon_clause(c: Clause, n: nat, env: Names) -> (Clause, nat)
    decreases c,
{
    let (p, b) = canon_pats(c.patterns, Bound { next: n, env, here: Seq::empty() });
    let (g, n1) = canon(c.guard, b.next, b.env);
    let (x, n2) = canon(c.body, n1, b.env);
    (Clause { patterns: p, guard: g, body: x }, n2)
}

pub open spec fn canon_clauses(s: Seq<Clause>, n: nat, env: Names) -> (Seq<Clause>, nat)
    decreases s,
{
    if s.len() == 0 {
        (Seq::empty(), n)
    } else {
        let (v, n1) = canon_clauses(s.drop_last(), n, env);
        let (x, n2) = canon_clause(s.last(), n1, env);
        (v.push(x), n2)
    }
}

/// The canonical form of a function definition.
pub open spec fn canon_fundef(f: FunDef) -> FunDef {
    FunDef {
        name: f.name,
        arity: f.arity,
        params: canonicals(0, f.params.len()),
        body: canon(f.body, f.params.len(), bind_all(Seq::empty(), f.params, 0)).0,
    }
}

/// Takes the next canonical name.
fn fresh_core_var(next: &mut Counter) -> (r: String)
    ensures
        r@ == canonical(old(next).value()),
        final(next).value() == old(next).value() + 1,
{
    let mut t = "V".to_owned();
    t.append(next.text().as_str());
    *next = next.next();
    t
}

/// Binds the names in order and returns their canonical names.
fn bind_names(names: &Vec<String>, next: &mut Counter, env: &mut NameMap) -> (r: Vec<String>)
    ensures
        texts(r@) == canonicals(old(next).value(), names@.len()),
        r@.len() == names@.len(),
        final(next).value() == old(next).value() + names@.len(),
        final(env).model() == bind_all(old(env).model(), texts(names@), old(next).value()),
{
    let ghost n = next.value();
    let ghost start = env.model();
    let ghost all = texts(names@);
    let mut out: Vec<String> = Vec::new();
    let mut i: usize = 0;
    assert(all.take(0) =~= Seq::empty());
    while i < names.len()
        invariant
            i <= names@.len(),
            all == texts(names@),
            out@.len() == i,
            forall|j: int| 0 <= j < i ==> out@[j]@ == canonical((n + j) as nat),
            next.value() == n + i,
            env.model() == bind_all(start, all.take(i as int), n),
        decreases names@.len() - i,
    {
        assert(all.take(i as int + 1).drop_last() =~= all.take(i as int));
        let c = fresh_core_var(next);
        env.insert(names[i].as_str(), c.as_str());
        out.push(c);
        i = i + 1;
    }
    assert(all.take(i as int) =~= all);
    assert(texts(out@) =~= canonicals(n, names@.len()));
    out
}

/// Canonical names of the definition's parameters and binders.
pub fn canonicalize_core_function(func: &CoreFunDef) -> (r: CoreFunDef)
    ensures
        fundef_of(r) == canon_fundef(fundef_of(*func)),
{
    let mut next = Counter::new();
    let mut env = NameMap::new();
    let params = bind_names(&func.params, &mut next, &mut env);
    let body = canonicalize_core_expr(&func.body, &mut next, &env);
    CoreFunDef { name: func.name.clone(), arity: func.arity, params, body }
}

/// The scope of a clause's patterns while they are renamed.
struct PatternScope {
    next: Counter,
    env: NameMap,
    here: NameMap,
}

impl PatternScope {
    spec fn model(self) -> Bound {
        Bound { next: self.next.value(), env: self.env.model(), here: self.here.model() }
    }

    fn bind(&mut self, name: &str) -> (r: String)
        ensures
            (r@, final(self).model()) == bind_once(old(self).model(), name@),
    {
        match self.here.get(name) {
            Some(c) => c,
            None => {
                let mut c = "V".to_owned();
                c.append(self.next.text().as_str());
                self.next = self.next.next();
                self.here.insert(name, c.as_str());
                self.env.insert(name, c.as_str());
                c
            },
        }
    }
}

fn canonicalize_core_pattern(pattern: &CorePattern, b: &mut PatternScope) -> (r: CorePattern)
    ensures
        (pat_of(r), final(b).model()) == canon_pat(pat_of(*pattern), old(b).model()),
    decreases pattern,
{
    match pattern {
        CorePattern::Lit(l) => CorePattern::Lit(dup_lit(l)),
        CorePattern::Nil => CorePattern::Nil,
        CorePattern::Var(name) => if same(name.as_str(), "_") {
            CorePattern::Var(name.clone())
        } else {
            CorePattern::Var(b.bind(name.as_str()))
        },
        CorePattern::Tuple(items) => CorePattern::Tuple(canonicalize_patterns(items, b)),
        CorePattern::Cons(h, t) => {
            let x = canonicalize_core_pattern(h, b);
            let y = canonicalize_core_pattern(t, b);
            CorePattern::Cons(Box::new(x), Box::new(y))
        },
        CorePattern::Binary(segments) => CorePattern::Binary(
            canonicalize_pattern_segments(segments, b),
        ),
        CorePattern::Alias(name, inner) => {
            let c = b.bind(name.as_str());
            let x = canonicalize_core_pattern(inner, b);
            CorePattern::Alias(c, Box::new(x))
        },
    }
}

fn canonicalize_patterns(v: &Vec<CorePattern>, b: &mut PatternScope) -> (r: Vec<CorePattern>)
    ensures
        (pats_of(r@), final(b).model()) == canon_pats(pats_of(v@), old(b).model()),
    decreases v,
{
    let ghost start = b.model();
    let mut out: Vec<CorePattern> = Vec::new();
    let mut i: usize = 0;
    while i < v.len()
        invariant
            i <= v@.len(),
            (pats_of(out@), b.model()) == canon_pats(pats_of(v@.take(i as int)), start),
        decreases v@.len() - i,
    {
        let ghost before = out@;
        assert(v@.take(i as int + 1).drop_last() =~= v@.take(i as int));
        assert(pats_of(v@.take(i as int + 1)).drop_last() =~= pats_of(v@.take(i as int)));
        let x = canonicalize_core_pattern(&v[i], b);
        out.push(x);
        assert(out@.drop_last() =~= before);
        i = i + 1;
    }
    assert(v@.take(i as int) =~= v@);
    out
}

fn canonicalize_pattern_segments(v: &Vec<CoreBinaryPatternSegment>,
    b: &mut PatternScope) -> (r: Vec<CoreBinaryPatternSegment>)
    ensures
        (pat_segments_of(r@), final(b).model()) == canon_pat_segments(pat_segments_of(v@), old(b).model()),
    decreases v,
{
    let ghost start = b.model();
    let mut out: Vec<CoreBinaryPatternSegment> = Vec::new();
    let mut i: usize = 0;
    while i < v.len()
        invariant
            i <= v@.len(),
            (pat_segments_of(out@), b.model()) == canon_pat_segments(pat_segments_of(v@.take(i as int)), start),
        decreases v@.len() - i,
    {
        let ghost before = out@;
        assert(v@.take(i as int + 1).drop_last() =~= v@.take(i as int));
        assert(pat_segments_of(v@.take(i as int + 1)).drop_last() =~= pat_segments_of(v@.take(i as int)));
        let x = canonicalize_core_pattern(&v[i].pattern, b);
        out.push(CoreBinaryPatternSegment { pattern: x, size: v[i].size, kind: v[i].kind });
        assert(out@.drop_last() =~= before);
        i = i + 1;
    }
    assert(v@.take(i as int) =~= v@);
    out
}

fn canonicalize_core_expr(expr: &CoreExpr, next: &mut Counter, env: &NameMap) -> (r: CoreExpr)
    ensures
        (core_of(r), final(next).value()) == canon(
            core_of(*expr),
            old(next).value(),
            env.model(),
        ),
    decreases expr,
{
    match expr {
        CoreExpr::Lit(l) => CoreExpr::Lit(dup_lit(l)),
        CoreExpr::LocalFunRef(name, arity) => CoreExpr::LocalFunRef(name.clone(), *arity),
        CoreExpr::RemoteFunRef(module, name, arity) => CoreExpr::RemoteFunRef(
            module.clone(),
            name.clone(),
            *arity,
        ),
        CoreExpr::Var(name) => match env.get(name.as_str()) {
            Some(c) => CoreExpr::Var(c),
            None => CoreExpr::Var(name.clone()),
        },
        CoreExpr::Tuple(items) => CoreExpr::Tuple(canonicalize_exprs(items, next, env)),
        CoreExpr::List(items, tail) => {
            let v = canonicalize_exprs(items, next, env);
            let x = canonicalize_core_expr(tail, next, env);
            CoreExpr::List(v, Box::new(x))
        },
        CoreExpr::Cons(h, t) => {
            let x = canonicalize_core_expr(h, next, env);
            let y = canonicalize_core_expr(t, next, env);
            CoreExpr::Cons(Box::new(x), Box::new(y))
        },
        CoreExpr::MapLit(entries) => CoreExpr::MapLit(canonicalize_entries(entries, next, env)),
        CoreExpr::Binary(segments) => CoreExpr::Binary(canonicalize_segments(segments, next, env)),
        CoreExpr::Apply(f, args) => {
            let x = canonicalize_core_expr(f, next, env);
            let v = canonicalize_exprs(args, next, env);
            CoreExpr::Apply(Box::new(x), v)
        },
        CoreExpr::Call(module, f, args) => {
            let v = canonicalize_exprs(args, next, env);
            CoreExpr::Call(module.clone(), f.clone(), v)
        },
        CoreExpr::Let(bindings, body) => {
            let values = canonicalize_values(bindings, next, env);
            let names = let_names(bindings);
            let mut inner = env.dup();
            let ghost n1 = next.value();
            let canonical_names = bind_names(&names, next, &mut inner);
            let x = canonicalize_core_expr(body, next, &inner);
            let ghost v = cores_of(values@);
            let ghost cs = texts(canonical_names@);
            let out = zip_bindings(canonical_names, values);
            proof {
                lemma_lengths(bindings@);
                assert(cs == canonicals(n1, bindings@.len()));
                assert(bindings_of(out@) =~= Seq::new(
                    bindings_of(bindings@).len(),
                    |i: int| (canonical((n1 + i) as nat), v[i]),
                ));
            }
            CoreExpr::Let(out, Box::new(x))
        },
        CoreExpr::Case(scrutinee, clauses) => {
            let x = canonicalize_core_expr(scrutinee, next, env);
            let v = canonicalize_clauses(clauses, next, env);
            CoreExpr::Case(Box::new(x), v)
        },
        CoreExpr::Receive { clauses, timeout } => {
            let v = canonicalize_clauses(clauses, next, env);
            match timeout {
                Some((ms, body)) => {
                    let x = canonicalize_core_expr(ms, next, env);
                    let y = canonicalize_core_expr(body, next, env);
                    CoreExpr::Receive { clauses: v, timeout: Some((Box::new(x), Box::new(y))) }
                },
                None => CoreExpr::Receive { clauses: v, timeout: None },
            }
        },
        CoreExpr::Fun(params, body) => {
            let mut inner = env.dup();
            let names = bind_names(params, next, &mut inner);
            let x = canonicalize_core_expr(body, next, &inner);
            CoreExpr::Fun(names, Box::new(x))
        },
        CoreExpr::Primop(op, args) => {
            let v = canonicalize_exprs(args, next, env);
            CoreExpr::Primop(op.clone(), v)
        },
        CoreExpr::Sequence(a, b) => {
            let x = canonicalize_core_expr(a, next, env);
            let y = canonicalize_core_expr(b, next, env);
            CoreExpr::Sequence(Box::new(x), Box::new(y))
        },
        CoreExpr::Try { body, vars, handler, evars, catch } => {
            let x = canonicalize_core_expr(body, next, env);
            let mut handler_env = env.dup();
            let names = bind_names(vars, next, &mut handler_env);
            let y = canonicalize_core_expr(handler, next, &handler_env);
            let mut catch_env = env.dup();
            let enames = bind_names(evars, next, &mut catch_env);
            let z = canonicalize_core_expr(catch, next, &catch_env);
            CoreExpr::Try {
                body: Box::new(x),
                vars: names,
                handler: Box::new(y),
                evars: enames,
                catch: Box::new(z),
            }
        },
    }
}

proof fn lemma_lengths(s: Seq<(String, CoreExpr)>)
    ensures
        bindings_of(s).len() == s.len(),
        forall|i: int|
            0 <= i < s.len() ==> #[trigger] bindings_of(s)[i] == (s[i].0@, core_of(s[i].1)),
    decreases s.len(),
{
    if s.len() > 0 {
        lemma_lengths(s.drop_last());
    }
}

proof fn lemma_core_lengths(s: Seq<CoreExpr>)
    ensures
        cores_of(s).len() == s.len(),
        forall|i: int| 0 <= i < s.len() ==> #[trigger] cores_of(s)[i] == core_of(s[i]),
    decreases s.len(),
{
    if s.len() > 0 {
        lemma_core_lengths(s.drop_last());
    }
}

fn let_names(bindings: &Vec<(String, CoreExpr)>) -> (r: Vec<String>)
    ensures
        texts(r@) == binder_names(bindings_of(bindings@)),
        r@.len() == bindings@.len(),
{
    let mut out: Vec<String> = Vec::new();
    let mut i: usize = 0;
    while i < bindings.len()
        invariant
            i <= bindings@.len(),
            out@.len() == i,
            forall|j: int| 0 <= j < i ==> out@[j]@ == bindings@[j].0@,
        decreases bindings@.len() - i,
    {
        out.push(bindings[i].0.clone());
        i = i + 1;
    }
    proof {
        lemma_lengths(bindings@);
    }
    assert(texts(out@) =~= binder_names(bindings_of(bindings@)));
    out
}

fn zip_bindings(names: Vec<String>, values: Vec<CoreExpr>) -> (r: Vec<(String, CoreExpr)>)
    requires
        names@.len() == values@.len(),
    ensures
        bindings_of(r@) == Seq::new(
            names@.len(),
            |i: int| (texts(names@)[i], cores_of(values@)[i]),
        ),
{
    let ghost xs = texts(names@);
    let ghost ys = cores_of(values@);
    let ghost k = names@.len();
    proof {
        lemma_core_lengths(values@);
    }
    let mut names = names;
    let mut values = values;
    let mut rev: Vec<(String, CoreExpr)> = Vec::new();
    while names.len() > 0
        invariant
            names@.len() == values@.len(),
            names@.len() + rev@.len() == k,
            xs.len() == k,
            ys.len() == k,
            forall|i: int| 0 <= i < names@.len() ==> names@[i]@ == xs[i],
            forall|i: int| 0 <= i < names@.len() ==> core_of(#[trigger] values@[i]) == ys[i],
            forall|i: int|
                0 <= i < rev@.len() ==> (#[trigger] rev@[i]).0@ == xs[k - 1 - i] && core_of(rev@[i].1)
                    == ys[k - 1 - i],
        decreases names@.len(),
    {
        let name = names.pop().unwrap();
        let value = values.pop().unwrap();
        rev.push((name, value));
    }
    let mut out: Vec<(String, CoreExpr)> = Vec::new();
    while rev.len() > 0
        invariant
            rev@.len() + out@.len() == k,
            xs.len() == k,
            ys.len() == k,
            forall|i: int|
                0 <= i < rev@.len() ==> (#[trigger] rev@[i]).0@ == xs[k - 1 - i] && core_of(rev@[i].1)
                    == ys[k - 1 - i],
            forall|i: int|
                0 <= i < out@.len() ==> (#[trigger] out@[i]).0@ == xs[i] && core_of(out@[i].1)
                    == ys[i],
        decreases rev@.len(),
    {
        let pair = rev.pop().unwrap();
        out.push(pair);
    }
    proof {
        lemma_lengths(out@);
    }
    assert(bindings_of(out@) =~= Seq::new(k, |i: int| (xs[i], ys[i])));
    out
}

fn canonicalize_exprs(v: &Vec<CoreExpr>, next: &mut Counter, env: &NameMap) -> (r: Vec<CoreExpr>)
    ensures
        (cores_of(r@), final(next).value()) == canons(cores_of(v@), old(next).value(), env.model()),
        r@.len() == v@.len(),
    decreases v,
{
    let ghost n = next.value();
    let mut out: Vec<CoreExpr> = Vec::new();
    let mut i: usize = 0;
    while i < v.len()
        invariant
            i <= v@.len(),
            out@.len() == i,
            (cores_of(out@), next.value()) == canons(cores_of(v@.take(i as int)), n, env.model()),
        decreases v@.len() - i,
    {
        let ghost before = out@;
        assert(v@.take(i as int + 1).drop_last() =~= v@.take(i as int));
        assert(cores_of(v@.take(i as int + 1)).drop_last() =~= cores_of(v@.take(i as int)));
        let x = canonicalize_core_expr(&v[i], next, env);
        out.push(x);
        assert(out@.drop_last() =~= before);
        i = i + 1;
    }
    assert(v@.take(i as int) =~= v@);
    out
}

fn canonicalize_entries(v: &Vec<(CoreExpr, CoreExpr)>, next: &mut Counter,
    env: &NameMap) -> (r: Vec<(CoreExpr, CoreExpr)>)
    ensures
        (entries_of(r@), final(next).value()) == canon_entries(entries_of(v@), old(next).value(), env.model()),
        r@.len() == v@.len(),
    decreases v,
{
    let ghost n = next.value();
    let mut out: Vec<(CoreExpr, CoreExpr)> = Vec::new();
    let mut i: usize = 0;
    while i < v.len()
        invariant
            i <= v@.len(),
            out@.len() == i,
            (entries_of(out@), next.value()) == canon_entries(entries_of(v@.take(i as int)), n, env.model()),
        decreases v@.len() - i,
    {
        let ghost before = out@;
        assert(v@.take(i as int + 1).drop_last() =~= v@.take(i as int));
        assert(entries_of(v@.take(i as int + 1)).drop_last() =~= entries_of(v@.take(i as int)));
        let x = canonicalize_core_expr(&v[i].0, next, env);
        let y = canonicalize_core_expr(&v[i].1, next, env);
        out.push((x, y));
        assert(out@.drop_last() =~= before);
        i = i + 1;
    }
    assert(v@.take(i as int) =~= v@);
    out
}

fn canonicalize_segments(v: &Vec<CoreBinarySegment>, next: &mut Counter,
    env: &NameMap) -> (r: Vec<CoreBinarySegment>)
    ensures
        (segments_of(r@), final(next).value())
            == canon_segments(segments_of(v@), old(next).value(), env.model()),
        r@.len() == v@.len(),
    decreases v,
{
    let ghost n = next.value();
    let mut out: Vec<CoreBinarySegment> = Vec::new();
    let mut i: usize = 0;
    while i < v.len()
        invariant
            i <= v@.len(),
            out@.len() == i,
            (segments_of(out@), next.value()) == canon_segments(segments_of(v@.take(i as int)), n, env.model()),
        decreases v@.len() - i,
    {
        let ghost before = out@;
        assert(v@.take(i as int + 1).drop_last() =~= v@.take(i as int));
        assert(segments_of(v@.take(i as int + 1)).drop_last() =~= segments_of(v@.take(i as int)));
        let x = canonicalize_core_expr(&v[i].value, next, env);
        out.push(CoreBinarySegment { value: x, size: v[i].size, kind: v[i].kind });
        assert(out@.drop_last() =~= before);
        i = i + 1;
    }
    assert(v@.take(i as int) =~= v@);
    out
}

fn canonicalize_values(v: &Vec<(String, CoreExpr)>, next: &mut Counter, env: &NameMap) -> (r: Vec<CoreExpr>)
    ensures
        (cores_of(r@), final(next).value()) == canon_values(bindings_of(v@), old(next).value(), env.model()),
        r@.len() == v@.len(),
    decreases v,
{
    let ghost n = next.value();
    let mut out: Vec<CoreExpr> = Vec::new();
    let mut i: usize = 0;
    while i < v.len()
        invariant
            i <= v@.len(),
            out@.len() == i,
            (cores_of(out@), next.value()) == canon_values(bindings_of(v@.take(i as int)), n, env.model()),
        decreases v@.len() - i,
    {
        let ghost before = out@;
        assert(v@.take(i as int + 1).drop_last() =~= v@.take(i as int));
        assert(bindings_of(v@.take(i as int + 1)).drop_last() =~= bindings_of(v@.take(i as int)));
        let x = canonicalize_core_expr(&v[i].1, next, env);
        out.push(x);
        assert(out@.drop_last() =~= before);
        i = i + 1;
    }
    assert(v@.take(i as int) =~= v@);
    out
}

fn canonicalize_core_clause(clause: &CoreClause, next: &mut Counter, env: &NameMap) -> (r:
    CoreClause)
    ensures
        (clause_of(r), final(next).value()) == canon_clause(
            clause_of(*clause),
            old(next).value(),
            env.model(),
        ),
    decreases clause,
{
    let mut b = PatternScope { next: next.dup(), env: env.dup(), here: NameMap::new() };
    let patterns = canonicalize_patterns(&clause.patterns, &mut b);
    *next = b.next;
    let guard = canonicalize_core_expr(&clause.guard, next, &b.env);
    let body = canonicalize_core_expr(&clause.body, next, &b.env);
    CoreClause { patterns, guard, body }
}

fn canonicalize_clauses(v: &Vec<CoreClause>, next: &mut Counter, env: &NameMap) -> (r: Vec<CoreClause>)
    ensures
        (clauses_of(r@), final(next).value()) == canon_clauses(clauses_of(v@), old(next).value(), env.model()),
        r@.len() == v@.len(),
    decreases v,
{
    let ghost n = next.value();
    let mut out: Vec<CoreClause> = Vec::new();
    let mut i: usize = 0;
    while i < v.len()
        invariant
            i <= v@.len(),
            out@.len() == i,
            (clauses_of(out@), next.value()) == canon_clauses(clauses_of(v@.take(i as int)), n, env.model()),
        decreases v@.len() - i,
    {
        let ghost before = out@;
        assert(v@.take(i as int + 1).drop_last() =~= v@.take(i as int));
        assert(clauses_of(v@.take(i as int + 1)).drop_last() =~= clauses_of(v@.take(i as int)));
        let x = canonicalize_core_clause(&v[i], next, env);
        out.push(x);
        assert(out@.drop_last() =~= before);
        i = i + 1;
    }
    assert(v@.take(i as int) =~= v@);
    out
}

} // verus!
