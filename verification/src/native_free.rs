//! The names that expressions bind and use, and their atoms.
use vstd::prelude::*;
use crate::erlang::{
    bindings_of, clause_of, clauses_of, core_of, cores_of, entries_of, pat_of, pat_segments_of,
    pats_of, segments_of, CoreBinaryPatternSegment, CoreBinarySegment, CoreClause, CoreExpr, CoreLit,
    CorePattern,
};
use crate::native::{
    free, free_all, free_bindings, free_clause, free_clauses, free_entries, free_segments,
    pattern_names, pattern_segments_names, patterns_names, scanned, scanned_all, scanned_bindings,
    scanned_clause, scanned_clauses, scanned_entries, scanned_pattern, scanned_pattern_segments,
    scanned_patterns, scanned_segments,
};
use crate::text::{add_new, chars_of, dup_strings, holds, texts, with_new};

verus! {

fn push_name(names: &mut Vec<String>, name: &str)
    ensures
        texts(final(names)@) == texts(old(names)@).push(name@),
{
    names.push(name.to_owned());
    assert(texts(names@) =~= texts(old(names)@).push(name@));
}

fn push_names(names: &mut Vec<String>, more: &Vec<String>)
    ensures
        texts(final(names)@) == texts(old(names)@) + texts(more@),
{
    let ghost start = texts(names@);
    let mut i: usize = 0;
    assert(start =~= start + texts(more@).take(0));
    while i < more.len()
        invariant
            i <= more@.len(),
            texts(names@) == start + texts(more@).take(i as int),
        decreases more@.len() - i,
    {
        push_name(names, more[i].as_str());
        assert(start + texts(more@).take(i as int + 1) =~= (start + texts(more@).take(
            i as int,
        )).push(more@[i as int]@));
        i = i + 1;
    }
    assert(texts(more@).take(i as int) =~= texts(more@));
}

/// Adds the names that a pattern binds.
pub fn collect_pattern_bound_vars(pattern: &CorePattern, names: &mut Vec<String>)
    ensures
        texts(final(names)@) == pattern_names(pat_of(*pattern), texts(old(names)@)),
    decreases pattern,
{
    match pattern {
        CorePattern::Var(name) => {
            push_name(names, name.as_str());
        },
        CorePattern::Tuple(items) => {
            collect_patterns(items, names);
        },
        CorePattern::Cons(h, t) => {
            collect_pattern_bound_vars(h, names);
            collect_pattern_bound_vars(t, names);
        },
        CorePattern::Alias(name, inner) => {
            push_name(names, name.as_str());
            collect_pattern_bound_vars(inner, names);
        },
        CorePattern::Binary(segments) => {
            collect_pattern_segments(segments, names);
        },
        CorePattern::Lit(_) => {},
        CorePattern::Nil => {},
    }
}

fn collect_patterns(v: &Vec<CorePattern>, names: &mut Vec<String>)
    ensures
        texts(final(names)@) == patterns_names(pats_of(v@), texts(old(names)@)),
    decreases v,
{
    let ghost start = texts(names@);
    let mut i: usize = 0;
    while i < v.len()
        invariant
            i <= v@.len(),
            texts(names@) == patterns_names(pats_of(v@.take(i as int)), start),
        decreases v@.len() - i,
    {
        assert(v@.take(i as int + 1).drop_last() =~= v@.take(i as int));
        assert(pats_of(v@.take(i as int + 1)).drop_last() =~= pats_of(v@.take(i as int)));
        collect_pattern_bound_vars(&v[i], names);
        i = i + 1;
    }
    assert(v@.take(i as int) =~= v@);
}

fn collect_pattern_segments(v: &Vec<CoreBinaryPatternSegment>, names: &mut Vec<String>)
    ensures
        texts(final(names)@) == pattern_segments_names(pat_segments_of(v@), texts(old(names)@)),
    decreases v,
{
    let ghost start = texts(names@);
    let mut i: usize = 0;
    while i < v.len()
        invariant
            i <= v@.len(),
            texts(names@) == pattern_segments_names(pat_segments_of(v@.take(i as int)), start),
        decreases v@.len() - i,
    {
        assert(v@.take(i as int + 1).drop_last() =~= v@.take(i as int));
        assert(pat_segments_of(v@.take(i as int + 1)).drop_last() =~= pat_segments_of(v@.take(i as int)));
        collect_pattern_bound_vars(&v[i].pattern, names);
        i = i + 1;
    }
    assert(v@.take(i as int) =~= v@);
}

/// Whether a name begins with an underscore.
fn is_hidden(name: &str) -> (r: bool)
    ensures
        r == (name@.len() > 0 && name@[0] == '_'),
{
    let cs = chars_of(name);
    cs.len() > 0 && cs[0] == '_'
}

/// Adds the free variables of an expression.
pub fn free_vars_expr(expr: &CoreExpr, bound: &Vec<String>, found: &mut Vec<String>)
    ensures
        texts(final(found)@) == free(core_of(*expr), texts(bound@), texts(old(found)@)),
    decreases expr,
{
    match expr {
        CoreExpr::Var(name) => {
            if !holds(bound, name.as_str()) && !is_hidden(name.as_str()) {
                add_new(found, name.as_str());
            }
        },
        CoreExpr::Lit(_) => {},
        CoreExpr::LocalFunRef(_, _) => {},
        CoreExpr::RemoteFunRef(_, _, _) => {},
        CoreExpr::Tuple(items) => {
            free_vars_exprs(items, bound, found);
        },
        CoreExpr::List(items, tail) => {
            free_vars_exprs(items, bound, found);
            free_vars_expr(tail, bound, found);
        },
        CoreExpr::Cons(h, t) => {
            free_vars_expr(h, bound, found);
            free_vars_expr(t, bound, found);
        },
        CoreExpr::MapLit(entries) => {
            free_vars_entries(entries, bound, found);
        },
        CoreExpr::Binary(segments) => {
            free_vars_segments(segments, bound, found);
        },
        CoreExpr::Apply(f, args) => {
            free_vars_expr(f, bound, found);
            free_vars_exprs(args, bound, found);
        },
        CoreExpr::Call(_, _, args) => {
            free_vars_exprs(args, bound, found);
        },
        CoreExpr::Let(bindings, body) => {
            let inner = free_vars_bindings(bindings, bound, found);
            free_vars_expr(body, &inner, found);
        },
        CoreExpr::Case(scrutinee, clauses) => {
            free_vars_expr(scrutinee, bound, found);
            free_vars_clauses(clauses, bound, found);
        },
        CoreExpr::Fun(params, body) => {
            let mut inner = dup_strings(bound);
            push_names(&mut inner, params);
            free_vars_expr(body, &inner, found);
        },
        CoreExpr::Sequence(a, b) => {
            free_vars_expr(a, bound, found);
            free_vars_expr(b, bound, found);
        },
        CoreExpr::Primop(_, args) => {
            free_vars_exprs(args, bound, found);
        },
        CoreExpr::Try { body, vars, handler, evars, catch } => {
            free_vars_expr(body, bound, found);
            let mut inner = dup_strings(bound);
            push_names(&mut inner, vars);
            free_vars_expr(handler, &inner, found);
            let mut errors = dup_strings(bound);
            push_names(&mut errors, evars);
            free_vars_expr(catch, &errors, found);
        },
        CoreExpr::Receive { clauses, timeout } => {
            free_vars_clauses(clauses, bound, found);
            match timeout {
                Some((ms, body)) => {
                    free_vars_expr(ms, bound, found);
                    free_vars_expr(body, bound, found);
                },
                None => {},
            }
        },
    }
}

fn free_vars_exprs(v: &Vec<CoreExpr>, bound: &Vec<String>, found: &mut Vec<String>)
    ensures
        texts(final(found)@) == free_all(cores_of(v@), texts(bound@), texts(old(found)@)),
    decreases v,
{
    let ghost start = texts(found@);
    let mut i: usize = 0;
    while i < v.len()
        invariant
            i <= v@.len(),
            texts(found@) == free_all(cores_of(v@.take(i as int)), texts(bound@), start),
        decreases v@.len() - i,
    {
        assert(v@.take(i as int + 1).drop_last() =~= v@.take(i as int));
        assert(cores_of(v@.take(i as int + 1)).drop_last() =~= cores_of(v@.take(i as int)));
        free_vars_expr(&v[i], bound, found);
        i = i + 1;
    }
    assert(v@.take(i as int) =~= v@);
}

fn free_vars_entries(v: &Vec<(CoreExpr, CoreExpr)>, bound: &Vec<String>, found: &mut Vec<String>)
    ensures
        texts(final(found)@) == free_entries(entries_of(v@), texts(bound@), texts(old(found)@)),
    decreases v,
{
    let ghost start = texts(found@);
    let mut i: usize = 0;
    while i < v.len()
        invariant
            i <= v@.len(),
            texts(found@) == free_entries(entries_of(v@.take(i as int)), texts(bound@), start),
        decreases v@.len() - i,
    {
        assert(v@.take(i as int + 1).drop_last() =~= v@.take(i as int));
        assert(entries_of(v@.take(i as int + 1)).drop_last() =~= entries_of(v@.take(i as int)));
        free_vars_expr(&v[i].0, bound, found);
        free_vars_expr(&v[i].1, bound, found);
        i = i + 1;
    }
    assert(v@.take(i as int) =~= v@);
}

fn free_vars_segments(v: &Vec<CoreBinarySegment>, bound: &Vec<String>, found: &mut Vec<String>)
    ensures
        texts(final(found)@) == free_segments(segments_of(v@), texts(bound@), texts(old(found)@)),
    decreases v,
{
    let ghost start = texts(found@);
    let mut i: usize = 0;
    while i < v.len()
        invariant
            i <= v@.len(),
            texts(found@) == free_segments(segments_of(v@.take(i as int)), texts(bound@), start),
        decreases v@.len() - i,
    {
        assert(v@.take(i as int + 1).drop_last() =~= v@.take(i as int));
        assert(segments_of(v@.take(i as int + 1)).drop_last() =~= segments_of(v@.take(i as int)));
        free_vars_expr(&v[i].value, bound, found);
        i = i + 1;
    }
    assert(v@.take(i as int) =~= v@);
}

fn free_vars_clauses(v: &Vec<CoreClause>, bound: &Vec<String>, found: &mut Vec<String>)
    ensures
        texts(final(found)@) == free_clauses(clauses_of(v@), texts(bound@), texts(old(found)@)),
    decreases v,
{
    let ghost start = texts(found@);
    let mut i: usize = 0;
    while i < v.len()
        invariant
            i <= v@.len(),
            texts(found@) == free_clauses(clauses_of(v@.take(i as int)), texts(bound@), start),
        decreases v@.len() - i,
    {
        assert(v@.take(i as int + 1).drop_last() =~= v@.take(i as int));
        assert(clauses_of(v@.take(i as int + 1)).drop_last() =~= clauses_of(v@.take(i as int)));
        free_vars_clause(&v[i], bound, found);
        i = i + 1;
    }
    assert(v@.take(i as int) =~= v@);
}

fn free_vars_clause(clause: &CoreClause, bound: &Vec<String>, found: &mut Vec<String>)
    ensures
        texts(final(found)@) == free_clause(clause_of(*clause), texts(bound@), texts(old(found)@)),
    decreases clause,
{
    let mut inner = dup_strings(bound);
    collect_patterns(&clause.patterns, &mut inner);
    free_vars_expr(&clause.guard, &inner, found);
    free_vars_expr(&clause.body, &inner, found);
}

/// The names that are bound behind the bindings.
fn free_vars_bindings(
    v: &Vec<(String, CoreExpr)>,
    bound: &Vec<String>,
    found: &mut Vec<String>,
) -> (r: Vec<String>)
    ensures
        (texts(r@), texts(final(found)@)) == free_bindings(
            bindings_of(v@),
            texts(bound@),
            texts(old(found)@),
        ),
    decreases v,
{
    let ghost start = texts(found@);
    let mut inner = dup_strings(bound);
    let mut i: usize = 0;
    while i < v.len()
        invariant
            i <= v@.len(),
            (texts(inner@), texts(found@)) == free_bindings(
                bindings_of(v@.take(i as int)),
                texts(bound@),
                start,
            ),
        decreases v@.len() - i,
    {
        assert(v@.take(i as int + 1).drop_last() =~= v@.take(i as int));
        assert(bindings_of(v@.take(i as int + 1)).drop_last() =~= bindings_of(v@.take(i as int)));
        free_vars_expr(&v[i].1, &inner, found);
        push_name(&mut inner, v[i].0.as_str());
        i = i + 1;
    }
    assert(v@.take(i as int) =~= v@);
    inner
}

/// Adds the atoms of an expression.
pub fn scan_atoms_expr(expr: &CoreExpr, atoms: &mut Vec<String>)
    ensures
        texts(final(atoms)@) == scanned(core_of(*expr), texts(old(atoms)@)),
    decreases expr,
{
    match expr {
        CoreExpr::Lit(l) => {
            scan_lit(l, atoms);
        },
        CoreExpr::Var(_) => {},
        CoreExpr::LocalFunRef(_, _) => {},
        CoreExpr::RemoteFunRef(_, _, _) => {},
        CoreExpr::Tuple(items) => {
            scan_atoms_exprs(items, atoms);
        },
        CoreExpr::List(items, tail) => {
            scan_atoms_exprs(items, atoms);
            scan_atoms_expr(tail, atoms);
        },
        CoreExpr::Cons(h, t) => {
            scan_atoms_expr(h, atoms);
            scan_atoms_expr(t, atoms);
        },
        CoreExpr::MapLit(entries) => {
            scan_atoms_entries(entries, atoms);
        },
        CoreExpr::Binary(segments) => {
            scan_atoms_segments(segments, atoms);
        },
        CoreExpr::Apply(f, args) => {
            scan_atoms_expr(f, atoms);
            scan_atoms_exprs(args, atoms);
        },
        CoreExpr::Call(_, _, args) => {
            scan_atoms_exprs(args, atoms);
        },
        CoreExpr::Let(bindings, body) => {
            scan_atoms_bindings(bindings, atoms);
            scan_atoms_expr(body, atoms);
        },
        CoreExpr::Case(scrutinee, clauses) => {
            scan_atoms_expr(scrutinee, atoms);
            scan_atoms_clauses(clauses, atoms);
        },
        CoreExpr::Receive { clauses, timeout } => {
            scan_atoms_clauses(clauses, atoms);
            match timeout {
                Some((ms, body)) => {
                    scan_atoms_expr(ms, atoms);
                    scan_atoms_expr(body, atoms);
                },
                None => {},
            }
        },
        CoreExpr::Fun(_, body) => {
            scan_atoms_expr(body, atoms);
        },
        CoreExpr::Primop(_, args) => {
            scan_atoms_exprs(args, atoms);
        },
        CoreExpr::Sequence(a, b) => {
            scan_atoms_expr(a, atoms);
            scan_atoms_expr(b, atoms);
        },
        CoreExpr::Try { body, vars: _, handler, evars: _, catch } => {
            scan_atoms_expr(body, atoms);
            scan_atoms_expr(handler, atoms);
            scan_atoms_expr(catch, atoms);
        },
    }
}

fn scan_lit(l: &CoreLit, atoms: &mut Vec<String>)
    ensures
        texts(final(atoms)@) == (match *l {
            CoreLit::Atom(name) => with_new(texts(old(atoms)@), name@),
            _ => texts(old(atoms)@),
        }),
{
    match l {
        CoreLit::Atom(name) => {
            add_new(atoms, name.as_str());
        },
        _ => {},
    }
}

fn scan_atoms_exprs(v: &Vec<CoreExpr>, atoms: &mut Vec<String>)
    ensures
        texts(final(atoms)@) == scanned_all(cores_of(v@), texts(old(atoms)@)),
    decreases v,
{
    let ghost start = texts(atoms@);
    let mut i: usize = 0;
    while i < v.len()
        invariant
            i <= v@.len(),
            texts(atoms@) == scanned_all(cores_of(v@.take(i as int)), start),
        decreases v@.len() - i,
    {
        assert(v@.take(i as int + 1).drop_last() =~= v@.take(i as int));
        assert(cores_of(v@.take(i as int + 1)).drop_last() =~= cores_of(v@.take(i as int)));
        scan_atoms_expr(&v[i], atoms);
        i = i + 1;
    }
    assert(v@.take(i as int) =~= v@);
}

fn scan_atoms_entries(v: &Vec<(CoreExpr, CoreExpr)>, atoms: &mut Vec<String>)
    ensures
        texts(final(atoms)@) == scanned_entries(entries_of(v@), texts(old(atoms)@)),
    decreases v,
{
    let ghost start = texts(atoms@);
    let mut i: usize = 0;
    while i < v.len()
        invariant
            i <= v@.len(),
            texts(atoms@) == scanned_entries(entries_of(v@.take(i as int)), start),
        decreases v@.len() - i,
    {
        assert(v@.take(i as int + 1).drop_last() =~= v@.take(i as int));
        assert(entries_of(v@.take(i as int + 1)).drop_last() =~= entries_of(v@.take(i as int)));
        scan_atoms_expr(&v[i].0, atoms);
        scan_atoms_expr(&v[i].1, atoms);
        i = i + 1;
    }
    assert(v@.take(i as int) =~= v@);
}

fn scan_atoms_segments(v: &Vec<CoreBinarySegment>, atoms: &mut Vec<String>)
    ensures
        texts(final(atoms)@) == scanned_segments(segments_of(v@), texts(old(atoms)@)),
    decreases v,
{
    let ghost start = texts(atoms@);
    let mut i: usize = 0;
    while i < v.len()
        invariant
            i <= v@.len(),
            texts(atoms@) == scanned_segments(segments_of(v@.take(i as int)), start),
        decreases v@.len() - i,
    {
        assert(v@.take(i as int + 1).drop_last() =~= v@.take(i as int));
        assert(segments_of(v@.take(i as int + 1)).drop_last() =~= segments_of(v@.take(i as int)));
        scan_atoms_expr(&v[i].value, atoms);
        i = i + 1;
    }
    assert(v@.take(i as int) =~= v@);
}

fn scan_atoms_bindings(v: &Vec<(String, CoreExpr)>, atoms: &mut Vec<String>)
    ensures
        texts(final(atoms)@) == scanned_bindings(bindings_of(v@), texts(old(atoms)@)),
    decreases v,
{
    let ghost start = texts(atoms@);
    let mut i: usize = 0;
    while i < v.len()
        invariant
            i <= v@.len(),
            texts(atoms@) == scanned_bindings(bindings_of(v@.take(i as int)), start),
        decreases v@.len() - i,
    {
        assert(v@.take(i as int + 1).drop_last() =~= v@.take(i as int));
        assert(bindings_of(v@.take(i as int + 1)).drop_last() =~= bindings_of(v@.take(i as int)));
        scan_atoms_expr(&v[i].1, atoms);
        i = i + 1;
    }
    assert(v@.take(i as int) =~= v@);
}

fn scan_atoms_clauses(v: &Vec<CoreClause>, atoms: &mut Vec<String>)
    ensures
        texts(final(atoms)@) == scanned_clauses(clauses_of(v@), texts(old(atoms)@)),
    decreases v,
{
    let ghost start = texts(atoms@);
    let mut i: usize = 0;
    while i < v.len()
        invariant
            i <= v@.len(),
            texts(atoms@) == scanned_clauses(clauses_of(v@.take(i as int)), start),
        decreases v@.len() - i,
    {
        assert(v@.take(i as int + 1).drop_last() =~= v@.take(i as int));
        assert(clauses_of(v@.take(i as int + 1)).drop_last() =~= clauses_of(v@.take(i as int)));
        scan_atoms_clause(&v[i], atoms);
        i = i + 1;
    }
    assert(v@.take(i as int) =~= v@);
}

fn scan_atoms_clause(clause: &CoreClause, atoms: &mut Vec<String>)
    ensures
        texts(final(atoms)@) == scanned_clause(clause_of(*clause), texts(old(atoms)@)),
    decreases clause,
{
    scan_atoms_patterns(&clause.patterns, atoms);
    scan_atoms_expr(&clause.guard, atoms);
    scan_atoms_expr(&clause.body, atoms);
}

fn scan_atoms_pattern(pattern: &CorePattern, atoms: &mut Vec<String>)
    ensures
        texts(final(atoms)@) == scanned_pattern(pat_of(*pattern), texts(old(atoms)@)),
    decreases pattern,
{
    match pattern {
        CorePattern::Lit(l) => {
            scan_lit(l, atoms);
        },
        CorePattern::Var(_) => {},
        CorePattern::Nil => {},
        CorePattern::Tuple(items) => {
            scan_atoms_patterns(items, atoms);
        },
        CorePattern::Cons(h, t) => {
            scan_atoms_pattern(h, atoms);
            scan_atoms_pattern(t, atoms);
        },
        CorePattern::Alias(_, inner) => {
            scan_atoms_pattern(inner, atoms);
        },
        CorePattern::Binary(segments) => {
            scan_atoms_pattern_segments(segments, atoms);
        },
    }
}

fn scan_atoms_patterns(v: &Vec<CorePattern>, atoms: &mut Vec<String>)
    ensures
        texts(final(atoms)@) == scanned_patterns(pats_of(v@), texts(old(atoms)@)),
    decreases v,
{
    let ghost start = texts(atoms@);
    let mut i: usize = 0;
    while i < v.len()
        invariant
            i <= v@.len(),
            texts(atoms@) == scanned_patterns(pats_of(v@.take(i as int)), start),
        decreases v@.len() - i,
    {
        assert(v@.take(i as int + 1).drop_last() =~= v@.take(i as int));
        assert(pats_of(v@.take(i as int + 1)).drop_last() =~= pats_of(v@.take(i as int)));
        scan_atoms_pattern(&v[i], atoms);
        i = i + 1;
    }
    assert(v@.take(i as int) =~= v@);
}

fn scan_atoms_pattern_segments(v: &Vec<CoreBinaryPatternSegment>, atoms: &mut Vec<String>)
    ensures
        texts(final(atoms)@) == scanned_pattern_segments(pat_segments_of(v@), texts(old(atoms)@)),
    decreases v,
{
    let ghost start = texts(atoms@);
    let mut i: usize = 0;
    while i < v.len()
        invariant
            i <= v@.len(),
            texts(atoms@) == scanned_pattern_segments(pat_segments_of(v@.take(i as int)), start),
        decreases v@.len() - i,
    {
        assert(v@.take(i as int + 1).drop_last() =~= v@.take(i as int));
        assert(pat_segments_of(v@.take(i as int + 1)).drop_last() =~= pat_segments_of(v@.take(i as int)));
        scan_atoms_pattern(&v[i].pattern, atoms);
        i = i + 1;
    }
    assert(v@.take(i as int) =~= v@);
}

} // verus!
