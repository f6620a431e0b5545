//! Builders of the Core Erlang terms that the translation makes; each is stated
//! over the shape of the same name.
use vstd::prelude::*;
use vstd::utf8::encode_utf8;
use crate::erlang::{
    bindings_of, clause_of, clauses_of, core_of, cores_of, entries_of, pat_of, pat_segments_of,
    pats_of, segments_of, CoreBinaryKind, CoreBinaryPatternSegment, CoreBinarySegment,
    CoreBinarySize, CoreClause, CoreExpr, CoreLit, CorePattern,
};
use crate::shape;
use crate::text::texts;

verus! {

/// A list of one expression.
pub fn one(a: CoreExpr) -> (r: Vec<CoreExpr>)
    ensures
        cores_of(r@) == seq![core_of(a)],
{
    let mut v: Vec<CoreExpr> = Vec::new();
    v.push(a);
    proof {
        assert(v@.drop_last() =~= Seq::empty());
        assert(cores_of(v@.drop_last()) =~= Seq::empty());
        assert(cores_of(v@) =~= seq![core_of(a)]);
    }
    v
}

/// A list of two expressions.
pub fn two(a: CoreExpr, b: CoreExpr) -> (r: Vec<CoreExpr>)
    ensures
        cores_of(r@) == seq![core_of(a), core_of(b)],
{
    let mut v = one(a);
    let ghost before = v@;
    v.push(b);
    proof {
        assert(v@.drop_last() =~= before);
        assert(cores_of(v@) =~= seq![core_of(a), core_of(b)]);
    }
    v
}

/// A list of three expressions.
pub fn three(a: CoreExpr, b: CoreExpr, c: CoreExpr) -> (r: Vec<CoreExpr>)
    ensures
        cores_of(r@) == seq![core_of(a), core_of(b), core_of(c)],
{
    let mut v = two(a, b);
    let ghost before = v@;
    v.push(c);
    proof {
        assert(v@.drop_last() =~= before);
        assert(cores_of(v@) =~= seq![core_of(a), core_of(b), core_of(c)]);
    }
    v
}

/// A list of four expressions.
pub fn four(a: CoreExpr, b: CoreExpr, c: CoreExpr, d: CoreExpr) -> (r: Vec<CoreExpr>)
    ensures
        cores_of(r@) == seq![core_of(a), core_of(b), core_of(c), core_of(d)],
{
    let mut v = three(a, b, c);
    let ghost before = v@;
    v.push(d);
    proof {
        assert(v@.drop_last() =~= before);
        assert(cores_of(v@) =~= seq![core_of(a), core_of(b), core_of(c), core_of(d)]);
    }
    v
}

fn one_pattern(a: CorePattern) -> (r: Vec<CorePattern>)
    ensures
        pats_of(r@) == seq![pat_of(a)],
{
    let mut v: Vec<CorePattern> = Vec::new();
    v.push(a);
    proof {
        assert(v@.drop_last() =~= Seq::empty());
        assert(pats_of(v@.drop_last()) =~= Seq::empty());
        assert(pats_of(v@) =~= seq![pat_of(a)]);
    }
    v
}

fn two_patterns(a: CorePattern, b: CorePattern) -> (r: Vec<CorePattern>)
    ensures
        pats_of(r@) == seq![pat_of(a), pat_of(b)],
{
    let mut v = one_pattern(a);
    let ghost before = v@;
    v.push(b);
    proof {
        assert(v@.drop_last() =~= before);
        assert(pats_of(v@) =~= seq![pat_of(a), pat_of(b)]);
    }
    v
}

fn one_clause(a: CoreClause) -> (r: Vec<CoreClause>)
    ensures
        clauses_of(r@) == seq![clause_of(a)],
{
    let mut v: Vec<CoreClause> = Vec::new();
    v.push(a);
    proof {
        assert(v@.drop_last() =~= Seq::empty());
        assert(clauses_of(v@.drop_last()) =~= Seq::empty());
        assert(clauses_of(v@) =~= seq![clause_of(a)]);
    }
    v
}

fn two_clauses(a: CoreClause, b: CoreClause) -> (r: Vec<CoreClause>)
    ensures
        clauses_of(r@) == seq![clause_of(a), clause_of(b)],
{
    let mut v = one_clause(a);
    let ghost before = v@;
    v.push(b);
    proof {
        assert(v@.drop_last() =~= before);
        assert(clauses_of(v@) =~= seq![clause_of(a), clause_of(b)]);
    }
    v
}

fn one_binding(name: &str, value: CoreExpr) -> (r: Vec<(String, CoreExpr)>)
    ensures
        bindings_of(r@) == seq![(name@, core_of(value))],
{
    let mut v: Vec<(String, CoreExpr)> = Vec::new();
    v.push((name.to_owned(), value));
    proof {
        assert(v@.drop_last() =~= Seq::empty());
        assert(bindings_of(v@.drop_last()) =~= Seq::empty());
        assert(bindings_of(v@) =~= seq![(name@, core_of(value))]);
    }
    v
}

/// A list of two bindings.
pub fn two_bindings(x: &str, v: CoreExpr, y: &str, z: CoreExpr) -> (r: Vec<(String, CoreExpr)>)
    ensures
        bindings_of(r@) == seq![(x@, core_of(v)), (y@, core_of(z))],
{
    let mut out = one_binding(x, v);
    let ghost before = out@;
    out.push((y.to_owned(), z));
    proof {
        assert(out@.drop_last() =~= before);
        assert(bindings_of(out@) =~= seq![(x@, core_of(v)), (y@, core_of(z))]);
    }
    out
}

/// A list of one name.
pub fn one_name(a: &str) -> (r: Vec<String>)
    ensures
        texts(r@) == seq![a@],
{
    let mut v: Vec<String> = Vec::new();
    v.push(a.to_owned());
    assert(texts(v@) =~= seq![a@]);
    v
}

fn two_names(a: &str, b: &str) -> (r: Vec<String>)
    ensures
        texts(r@) == seq![a@, b@],
{
    let mut v = one_name(a);
    let ghost before = texts(v@);
    v.push(b.to_owned());
    assert(before.len() == 1);
    assert(texts(v@) =~= before.push(b@));
    assert(texts(v@) =~= seq![a@, b@]);
    v
}

fn three_names(a: &str, b: &str, c: &str) -> (r: Vec<String>)
    ensures
        texts(r@) == seq![a@, b@, c@],
{
    let mut v = two_names(a, b);
    let ghost before = texts(v@);
    v.push(c.to_owned());
    assert(before.len() == 2);
    assert(texts(v@) =~= before.push(c@));
    assert(texts(v@) =~= seq![a@, b@, c@]);
    v
}

pub fn atom(s: &str) -> (r: CoreExpr)
    ensures
        core_of(r) == shape::atom(s@),
{
    CoreExpr::Lit(CoreLit::Atom(s.to_owned()))
}

pub fn num(n: i64) -> (r: CoreExpr)
    ensures
        core_of(r) == shape::num(n as int),
{
    CoreExpr::Lit(CoreLit::Int(n))
}

pub fn string(s: &str) -> (r: CoreExpr)
    ensures
        core_of(r) == shape::string(s@),
{
    CoreExpr::Lit(CoreLit::String(s.to_owned()))
}

pub fn nil() -> (r: CoreExpr)
    ensures
        core_of(r) == shape::nil(),
{
    CoreExpr::Lit(CoreLit::Nil)
}

pub fn var(s: &str) -> (r: CoreExpr)
    ensures
        core_of(r) == shape::var(s@),
{
    CoreExpr::Var(s.to_owned())
}

pub fn cons(h: CoreExpr, t: CoreExpr) -> (r: CoreExpr)
    ensures
        core_of(r) == shape::cons(core_of(h), core_of(t)),
{
    CoreExpr::Cons(Box::new(h), Box::new(t))
}

pub fn tup1(a: CoreExpr) -> (r: CoreExpr)
    ensures
        core_of(r) == shape::tup1(core_of(a)),
{
    CoreExpr::Tuple(one(a))
}

pub fn tup2(a: CoreExpr, b: CoreExpr) -> (r: CoreExpr)
    ensures
        core_of(r) == shape::tup2(core_of(a), core_of(b)),
{
    CoreExpr::Tuple(two(a, b))
}

pub fn tup3(a: CoreExpr, b: CoreExpr, c: CoreExpr) -> (r: CoreExpr)
    ensures
        core_of(r) == shape::tup3(core_of(a), core_of(b), core_of(c)),
{
    CoreExpr::Tuple(three(a, b, c))
}

pub fn call0(m: &str, f: &str) -> (r: CoreExpr)
    ensures
        core_of(r) == shape::call0(m@, f@),
{
    let v: Vec<CoreExpr> = Vec::new();
    assert(cores_of(v@) =~= Seq::empty());
    CoreExpr::Call(m.to_owned(), f.to_owned(), v)
}

pub fn call1(m: &str, f: &str, a: CoreExpr) -> (r: CoreExpr)
    ensures
        core_of(r) == shape::call1(m@, f@, core_of(a)),
{
    CoreExpr::Call(m.to_owned(), f.to_owned(), one(a))
}

pub fn call2(m: &str, f: &str, a: CoreExpr, b: CoreExpr) -> (r: CoreExpr)
    ensures
        core_of(r) == shape::call2(m@, f@, core_of(a), core_of(b)),
{
    CoreExpr::Call(m.to_owned(), f.to_owned(), two(a, b))
}

pub fn call3(m: &str, f: &str, a: CoreExpr, b: CoreExpr, c: CoreExpr) -> (r: CoreExpr)
    ensures
        core_of(r) == shape::call3(m@, f@, core_of(a), core_of(b), core_of(c)),
{
    CoreExpr::Call(m.to_owned(), f.to_owned(), three(a, b, c))
}

pub fn call4(m: &str, f: &str, a: CoreExpr, b: CoreExpr, c: CoreExpr, d: CoreExpr) -> (r: CoreExpr)
    ensures
        core_of(r) == shape::call4(m@, f@, core_of(a), core_of(b), core_of(c), core_of(d)),
{
    CoreExpr::Call(m.to_owned(), f.to_owned(), four(a, b, c, d))
}

pub fn apply1(f: CoreExpr, a: CoreExpr) -> (r: CoreExpr)
    ensures
        core_of(r) == shape::apply1(core_of(f), core_of(a)),
{
    CoreExpr::Apply(Box::new(f), one(a))
}

pub fn let1(x: &str, v: CoreExpr, body: CoreExpr) -> (r: CoreExpr)
    ensures
        core_of(r) == shape::let1(x@, core_of(v), core_of(body)),
{
    CoreExpr::Let(one_binding(x, v), Box::new(body))
}

pub fn fun1(a: &str, body: CoreExpr) -> (r: CoreExpr)
    ensures
        core_of(r) == shape::fun1(a@, core_of(body)),
{
    CoreExpr::Fun(one_name(a), Box::new(body))
}

pub fn fun2(a: &str, b: &str, body: CoreExpr) -> (r: CoreExpr)
    ensures
        core_of(r) == shape::fun2(a@, b@, core_of(body)),
{
    CoreExpr::Fun(two_names(a, b), Box::new(body))
}

pub fn fun3(a: &str, b: &str, c: &str, body: CoreExpr) -> (r: CoreExpr)
    ensures
        core_of(r) == shape::fun3(a@, b@, c@, core_of(body)),
{
    CoreExpr::Fun(three_names(a, b, c), Box::new(body))
}

pub fn sequence(a: CoreExpr, b: CoreExpr) -> (r: CoreExpr)
    ensures
        core_of(r) == shape::sequence(core_of(a), core_of(b)),
{
    CoreExpr::Sequence(Box::new(a), Box::new(b))
}

pub fn raise(stack: &str, reason: &str) -> (r: CoreExpr)
    ensures
        core_of(r) == shape::raise(stack@, reason@),
{
    CoreExpr::Primop("raise".to_owned(), two(var(stack), var(reason)))
}

pub fn empty_map() -> (r: CoreExpr)
    ensures
        core_of(r) == shape::empty_map(),
{
    let v: Vec<(CoreExpr, CoreExpr)> = Vec::new();
    assert(entries_of(v@) =~= Seq::empty());
    CoreExpr::MapLit(v)
}

pub fn patom(s: &str) -> (r: CorePattern)
    ensures
        pat_of(r) == shape::patom(s@),
{
    CorePattern::Lit(CoreLit::Atom(s.to_owned()))
}

pub fn pvar(s: &str) -> (r: CorePattern)
    ensures
        pat_of(r) == shape::pvar(s@),
{
    CorePattern::Var(s.to_owned())
}

pub fn ptup2(a: CorePattern, b: CorePattern) -> (r: CorePattern)
    ensures
        pat_of(r) == shape::ptup2(pat_of(a), pat_of(b)),
{
    CorePattern::Tuple(two_patterns(a, b))
}

pub fn ptag(tag: &str, x: &str) -> (r: CorePattern)
    ensures
        pat_of(r) == shape::ptag(tag@, x@),
{
    ptup2(patom(tag), pvar(x))
}

pub fn guarded(p: CorePattern, guard: CoreExpr, body: CoreExpr) -> (r: CoreClause)
    ensures
        clause_of(r) == shape::guarded(pat_of(p), core_of(guard), core_of(body)),
{
    CoreClause { patterns: one_pattern(p), guard, body }
}

pub fn when(p: CorePattern, body: CoreExpr) -> (r: CoreClause)
    ensures
        clause_of(r) == shape::when(pat_of(p), core_of(body)),
{
    guarded(p, atom("true"), body)
}

pub fn case1(x: CoreExpr, a: CoreClause) -> (r: CoreExpr)
    ensures
        core_of(r) == shape::case1(core_of(x), clause_of(a)),
{
    CoreExpr::Case(Box::new(x), one_clause(a))
}

pub fn case2(x: CoreExpr, a: CoreClause, b: CoreClause) -> (r: CoreExpr)
    ensures
        core_of(r) == shape::case2(core_of(x), clause_of(a), clause_of(b)),
{
    CoreExpr::Case(Box::new(x), two_clauses(a, b))
}

pub fn if_else(x: CoreExpr, a: CoreExpr, b: CoreExpr) -> (r: CoreExpr)
    ensures
        core_of(r) == shape::if_else(core_of(x), core_of(a), core_of(b)),
{
    case2(x, when(patom("true"), a), when(patom("false"), b))
}

pub fn ok(x: CoreExpr) -> (r: CoreExpr)
    ensures
        core_of(r) == shape::ok(core_of(x)),
{
    tup2(atom("ok"), x)
}

pub fn err(x: CoreExpr) -> (r: CoreExpr)
    ensures
        core_of(r) == shape::err(core_of(x)),
{
    tup2(atom("err"), x)
}

pub fn some(x: CoreExpr) -> (r: CoreExpr)
    ensures
        core_of(r) == shape::some(core_of(x)),
{
    tup2(atom("some"), x)
}

pub fn none() -> (r: CoreExpr)
    ensures
        core_of(r) == shape::none(),
{
    tup1(atom("none"))
}

pub fn path_field(x: CoreExpr) -> (r: CoreExpr)
    ensures
        core_of(r) == shape::path_field(core_of(x)),
{
    tup2(atom("field"), x)
}

pub fn path_index(x: CoreExpr) -> (r: CoreExpr)
    ensures
        core_of(r) == shape::path_index(core_of(x)),
{
    tup2(atom("index"), x)
}

pub fn missing_field(x: CoreExpr) -> (r: CoreExpr)
    ensures
        core_of(r) == shape::missing_field(core_of(x)),
{
    tup2(atom("missing_field"), x)
}

pub fn missing_key() -> (r: CoreExpr)
    ensures
        core_of(r) == shape::missing_key(),
{
    tup1(atom("missing_key"))
}

pub fn out_of_bounds(x: CoreExpr) -> (r: CoreExpr)
    ensures
        core_of(r) == shape::out_of_bounds(core_of(x)),
{
    tup2(atom("index_out_of_bounds"), x)
}

pub fn invalid_json() -> (r: CoreExpr)
    ensures
        core_of(r) == shape::invalid_json(),
{
    tup1(atom("invalid_json"))
}

pub fn error_at(path: CoreExpr, e: CoreExpr) -> (r: CoreExpr)
    ensures
        core_of(r) == shape::error_at(core_of(path), core_of(e)),
{
    tup3(atom("at"), path, e)
}

pub fn one_of(a: CoreExpr, b: CoreExpr) -> (r: CoreExpr)
    ensures
        core_of(r) == shape::one_of(core_of(a), core_of(b)),
{
    tup3(atom("one_of"), a, b)
}

pub fn try1(body: CoreExpr, x: &str, handler: CoreExpr, class: &str, reason: &str, stack: &str,
    catch: CoreExpr) -> (r: CoreExpr)
    ensures
        core_of(r) == shape::try1(core_of(body), x@, core_of(handler), class@, reason@, stack@, core_of(catch)),
{
    CoreExpr::Try {
        body: Box::new(body),
        vars: one_name(x),
        handler: Box::new(handler),
        evars: three_names(class, reason, stack),
        catch: Box::new(catch),
    }
}

/// The bytes of a text as binary segments.
pub fn byte_segments(s: &str) -> (r: Vec<CoreBinarySegment>)
    ensures
        segments_of(r@) == shape::byte_segments(s@),
{
    let bytes = s.as_bytes();
    let mut v: Vec<CoreBinarySegment> = Vec::new();
    let mut i: usize = 0;
    assert(segments_of(v@) =~= shape::byte_segments(s@).take(0));
    while i < bytes.len()
        invariant
            i <= bytes@.len(),
            bytes@ == encode_utf8(s@),
            segments_of(v@) == shape::byte_segments(s@).take(i as int),
        decreases bytes@.len() - i,
    {
        let ghost before = v@;
        v.push(
            CoreBinarySegment {
                value: num(bytes[i] as i64),
                size: CoreBinarySize::Bits(8),
                kind: CoreBinaryKind::Integer,
            },
        );
        assert(v@.drop_last() =~= before);
        assert(segments_of(v@) == segments_of(before).push(shape::byte_segment(bytes@[i as int])));
        assert(segments_of(v@) =~= shape::byte_segments(s@).take(i as int + 1));
        i = i + 1;
    }
    assert(shape::byte_segments(s@).take(i as int) =~= shape::byte_segments(s@));
    v
}

/// The bytes of a text as binary patterns.
pub fn byte_patterns(s: &str) -> (r: Vec<CoreBinaryPatternSegment>)
    ensures
        pat_segments_of(r@) == shape::byte_patterns(s@),
{
    let bytes = s.as_bytes();
    let mut v: Vec<CoreBinaryPatternSegment> = Vec::new();
    let mut i: usize = 0;
    assert(pat_segments_of(v@) =~= shape::byte_patterns(s@).take(0));
    while i < bytes.len()
        invariant
            i <= bytes@.len(),
            bytes@ == encode_utf8(s@),
            pat_segments_of(v@) == shape::byte_patterns(s@).take(i as int),
        decreases bytes@.len() - i,
    {
        let ghost before = v@;
        let pattern = CorePattern::Lit(CoreLit::Int(bytes[i] as i64));
        assert(pat_of(pattern) == shape::byte_pattern(bytes@[i as int]).pattern);
        v.push(
            CoreBinaryPatternSegment {
                pattern,
                size: CoreBinarySize::Bits(8),
                kind: CoreBinaryKind::Integer,
            },
        );
        assert(v@.drop_last() =~= before);
        assert(pat_segments_of(v@) == pat_segments_of(before).push(
            shape::byte_pattern(bytes@[i as int]),
        ));
        assert(pat_segments_of(v@) =~= shape::byte_patterns(s@).take(i as int + 1));
        i = i + 1;
    }
    assert(shape::byte_patterns(s@).take(i as int) =~= shape::byte_patterns(s@));
    v
}

/// A text as a binary.
pub fn binary_text(s: &str) -> (r: CoreExpr)
    ensures
        core_of(r) == shape::binary_text(s@),
{
    CoreExpr::Binary(byte_segments(s))
}

pub fn expected(kind: &str) -> (r: CoreExpr)
    ensures
        core_of(r) == shape::expected(kind@),
{
    tup2(atom("expected"), binary_text(kind))
}

pub fn bin2(a: CoreExpr, b: CoreExpr) -> (r: CoreExpr)
    ensures
        core_of(r) == shape::bin2(core_of(a), core_of(b)),
{
    let mut v: Vec<CoreBinarySegment> = Vec::new();
    v.push(
        CoreBinarySegment { value: a, size: CoreBinarySize::All, kind: CoreBinaryKind::Binary },
    );
    let ghost first = v@;
    v.push(
        CoreBinarySegment { value: b, size: CoreBinarySize::All, kind: CoreBinaryKind::Binary },
    );
    proof {
        assert(v@.drop_last() =~= first);
        assert(first.drop_last() =~= Seq::empty());
        assert(segments_of(first.drop_last()) =~= Seq::empty());
        assert(segments_of(first) =~= seq![shape::whole(core_of(a))]);
        assert(segments_of(v@) =~= seq![shape::whole(core_of(a)), shape::whole(core_of(b))]);
    }
    CoreExpr::Binary(v)
}

/// A list of the expressions.
pub fn listed(v: Vec<CoreExpr>) -> (r: CoreExpr)
    ensures
        core_of(r) == shape::listed(cores_of(v@)),
{
    listed_onto(v, nil())
}

/// The expressions in front of a tail.
pub fn listed_onto(v: Vec<CoreExpr>, tail: CoreExpr) -> (r: CoreExpr)
    ensures
        core_of(r) == shape::listed_onto(cores_of(v@), core_of(tail)),
{
    let ghost all = cores_of(v@);
    let ghost end = core_of(tail);
    let mut v = v;
    let mut acc = tail;
    while v.len() > 0
        invariant
            shape::listed_onto(all, end) == shape::listed_onto(cores_of(v@), core_of(acc)),
        decreases v@.len(),
    {
        let ghost before = v@;
        let x = v.pop().unwrap();
        assert(v@ =~= before.drop_last());
        assert(cores_of(before).drop_last() =~= cores_of(v@));
        acc = cons(x, acc);
    }
    acc
}

fn typeof_clause(tmp: &str, predicate: &str, kind: &str) -> (r: CoreClause)
    ensures
        clause_of(r) == shape::typeof_clause(tmp@, predicate@, kind@),
{
    reveal(shape::typeof_clause);
    guarded(pvar("_"), call1("erlang", predicate, var(tmp)), atom(kind))
}

fn push_clause(v: &mut Vec<CoreClause>, c: CoreClause)
    ensures
        clauses_of(final(v)@) == clauses_of(old(v)@).push(clause_of(c)),
{
    v.push(c);
    assert(v@.drop_last() =~= old(v)@);
}

fn three_clauses(a: CoreClause, b: CoreClause, c: CoreClause) -> (r: Vec<CoreClause>)
    ensures
        clauses_of(r@) == seq![clause_of(a), clause_of(b), clause_of(c)],
{
    let mut v = two_clauses(a, b);
    push_clause(&mut v, c);
    v
}

fn four_clauses(a: CoreClause, b: CoreClause, c: CoreClause, d: CoreClause) -> (r: Vec<CoreClause>)
    ensures
        clauses_of(r@) == seq![clause_of(a), clause_of(b), clause_of(c), clause_of(d)],
{
    let mut v = three_clauses(a, b, c);
    push_clause(&mut v, d);
    v
}

fn push_two(v: Vec<CoreClause>, a: CoreClause, b: CoreClause) -> (r: Vec<CoreClause>)
    ensures
        clauses_of(r@) == clauses_of(v@).push(clause_of(a)).push(clause_of(b)),
{
    let mut v = v;
    push_clause(&mut v, a);
    push_clause(&mut v, b);
    v
}

/// The kind of a value, found by asking for one kind after the other.
pub fn typeof_case(tmp: &str) -> (r: CoreExpr)
    ensures
        core_of(r) == shape::typeof_case(tmp@),
{
    CoreExpr::Case(Box::new(atom("true")), typeof_clauses(tmp))
}

fn typeof_clauses(tmp: &str) -> (r: Vec<CoreClause>)
    ensures
        clauses_of(r@) == shape::typeof_clauses(tmp@),
{
    proof {
        reveal(shape::typeof_clauses);
    }
    let first = four_clauses(
        typeof_clause(tmp, "is_integer", "integer"),
        typeof_clause(tmp, "is_float", "float"),
        typeof_clause(tmp, "is_atom", "atom"),
        typeof_clause(tmp, "is_list", "list"),
    );
    let more = push_two(
        first,
        typeof_clause(tmp, "is_tuple", "tuple"),
        typeof_clause(tmp, "is_map", "map"),
    );
    let all = push_two(
        more,
        typeof_clause(tmp, "is_pid", "pid"),
        typeof_clause(tmp, "is_function", "function"),
    );
    all
}

} // verus!
