//! The shapes of Core Erlang terms that the translation makes.
use vstd::prelude::*;
use crate::erlang::{Clause, Core, CoreBinaryKind, CoreBinarySize, Literal, Pat, PatSegment, Segment};
use vstd::utf8::encode_utf8;

verus! {

/// An atom.
pub open spec fn atom(s: Seq<char>) -> Core {
    Core::Lit(Literal::Atom(s))
}

/// An integer.
pub open spec fn num(n: int) -> Core {
    Core::Lit(Literal::Int(n))
}

/// A string literal.
pub open spec fn string(s: Seq<char>) -> Core {
    Core::Lit(Literal::Text(s))
}

/// The empty list.
pub open spec fn nil() -> Core {
    Core::Lit(Literal::Nil)
}

/// A variable.
pub open spec fn var(s: Seq<char>) -> Core {
    Core::Var(s)
}

/// A list cell.
pub open spec fn cons(h: Core, t: Core) -> Core {
    Core::Cons(Box::new(h), Box::new(t))
}

/// A tuple of one.
pub open spec fn tup1(a: Core) -> Core {
    Core::Tuple(seq![a])
}

/// A pair.
pub open spec fn tup2(a: Core, b: Core) -> Core {
    Core::Tuple(seq![a, b])
}

/// A triple.
pub open spec fn tup3(a: Core, b: Core, c: Core) -> Core {
    Core::Tuple(seq![a, b, c])
}

/// A call without arguments.
pub open spec fn call0(m: Seq<char>, f: Seq<char>) -> Core {
    Core::Call(m, f, Seq::empty())
}

/// A call with one argument.
pub open spec fn call1(m: Seq<char>, f: Seq<char>, a: Core) -> Core {
    Core::Call(m, f, seq![a])
}

/// A call with two arguments.
pub open spec fn call2(m: Seq<char>, f: Seq<char>, a: Core, b: Core) -> Core {
    Core::Call(m, f, seq![a, b])
}

/// A call with three arguments.
pub open spec fn call3(m: Seq<char>, f: Seq<char>, a: Core, b: Core, c: Core) -> Core {
    Core::Call(m, f, seq![a, b, c])
}

/// A call with four arguments.
pub open spec fn call4(m: Seq<char>, f: Seq<char>, a: Core, b: Core, c: Core, d: Core) -> Core {
    Core::Call(m, f, seq![a, b, c, d])
}

/// An application to one argument.
pub open spec fn apply1(f: Core, a: Core) -> Core {
    Core::Apply(Box::new(f), seq![a])
}

/// A `let` of one variable.
pub open spec fn let1(x: Seq<char>, v: Core, body: Core) -> Core {
    Core::Let(seq![(x, v)], Box::new(body))
}

/// A function of one parameter.
pub open spec fn fun1(a: Seq<char>, body: Core) -> Core {
    Core::Fun(seq![a], Box::new(body))
}

/// A function of two parameters.
pub open spec fn fun2(a: Seq<char>, b: Seq<char>, body: Core) -> Core {
    Core::Fun(seq![a, b], Box::new(body))
}

/// A function of three parameters.
pub open spec fn fun3(a: Seq<char>, b: Seq<char>, c: Seq<char>, body: Core) -> Core {
    Core::Fun(seq![a, b, c], Box::new(body))
}

/// One expression after another.
pub open spec fn sequence(a: Core, b: Core) -> Core {
    Core::Sequence(Box::new(a), Box::new(b))
}

/// Raises the reason again.
pub open spec fn raise(stack: Seq<char>, reason: Seq<char>) -> Core {
    Core::Primop("raise"@, seq![var(stack), var(reason)])
}

/// The empty map.
pub open spec fn empty_map() -> Core {
    Core::MapLit(Seq::empty())
}

/// The pattern of an atom.
pub open spec fn patom(s: Seq<char>) -> Pat {
    Pat::Lit(Literal::Atom(s))
}

/// The pattern of a variable.
pub open spec fn pvar(s: Seq<char>) -> Pat {
    Pat::Var(s)
}

/// The pattern of a pair.
pub open spec fn ptup2(a: Pat, b: Pat) -> Pat {
    Pat::Tuple(seq![a, b])
}

/// The pattern of a tagged value.
pub open spec fn ptag(tag: Seq<char>, x: Seq<char>) -> Pat {
    ptup2(patom(tag), pvar(x))
}

/// A clause with a guard.
pub open spec fn guarded(p: Pat, guard: Core, body: Core) -> Clause {
    Clause { patterns: seq![p], guard, body }
}

/// A clause without a condition.
pub open spec fn when(p: Pat, body: Core) -> Clause {
    guarded(p, atom("true"@), body)
}

/// A `case` of one clause.
pub open spec fn case1(x: Core, a: Clause) -> Core {
    Core::Case(Box::new(x), seq![a])
}

/// A `case` of two clauses.
pub open spec fn case2(x: Core, a: Clause, b: Clause) -> Core {
    Core::Case(Box::new(x), seq![a, b])
}

/// A choice between two branches.
pub open spec fn if_else(x: Core, a: Core, b: Core) -> Core {
    case2(x, when(patom("true"@), a), when(patom("false"@), b))
}

/// A successful result.
pub open spec fn ok(x: Core) -> Core {
    tup2(atom("ok"@), x)
}

/// A failed result.
pub open spec fn err(x: Core) -> Core {
    tup2(atom("err"@), x)
}

/// A value that is there.
pub open spec fn some(x: Core) -> Core {
    tup2(atom("some"@), x)
}

/// A value that is missing.
pub open spec fn none() -> Core {
    tup1(atom("none"@))
}

/// A step into a field.
pub open spec fn path_field(x: Core) -> Core {
    tup2(atom("field"@), x)
}

/// A step into a list.
pub open spec fn path_index(x: Core) -> Core {
    tup2(atom("index"@), x)
}

/// The error for a field that is missing.
pub open spec fn missing_field(x: Core) -> Core {
    tup2(atom("missing_field"@), x)
}

/// The error for a key that is missing.
pub open spec fn missing_key() -> Core {
    tup1(atom("missing_key"@))
}

/// The error for an index beyond the list.
pub open spec fn out_of_bounds(x: Core) -> Core {
    tup2(atom("index_out_of_bounds"@), x)
}

/// The error for text that is not JSON.
pub open spec fn invalid_json() -> Core {
    tup1(atom("invalid_json"@))
}

/// An error with the place where it occurred.
pub open spec fn error_at(path: Core, e: Core) -> Core {
    tup3(atom("at"@), path, e)
}

/// The error for two decoders that failed.
pub open spec fn one_of(a: Core, b: Core) -> Core {
    tup3(atom("one_of"@), a, b)
}

/// A `try` with one result variable.
pub open spec fn try1(body: Core, x: Seq<char>, handler: Core, class: Seq<char>, reason: Seq<char>,
    stack: Seq<char>, catch: Core) -> Core {
    Core::Try(
        Box::new(body),
        seq![x],
        Box::new(handler),
        seq![class, reason, stack],
        Box::new(catch),
    )
}

/// One byte of a binary.
pub open spec fn byte_segment(b: u8) -> Segment {
    Segment {
        value: Core::Lit(Literal::Int(b as int)),
        size: CoreBinarySize::Bits(8),
        kind: CoreBinaryKind::Integer,
    }
}

/// One byte of a binary pattern.
pub open spec fn byte_pattern(b: u8) -> PatSegment {
    PatSegment {
        pattern: Pat::Lit(Literal::Int(b as int)),
        size: CoreBinarySize::Bits(8),
        kind: CoreBinaryKind::Integer,
    }
}

/// The bytes of a text.
pub open spec fn byte_segments(s: Seq<char>) -> Seq<Segment> {
    Seq::new(encode_utf8(s).len(), |i: int| byte_segment(encode_utf8(s)[i]))
}

/// The bytes of a text as patterns.
pub open spec fn byte_patterns(s: Seq<char>) -> Seq<PatSegment> {
    Seq::new(encode_utf8(s).len(), |i: int| byte_pattern(encode_utf8(s)[i]))
}

/// A text as a binary.
pub open spec fn binary_text(s: Seq<char>) -> Core {
    Core::Binary(byte_segments(s))
}

/// The error for a value of another kind.
pub open spec fn expected(kind: Seq<char>) -> Core {
    tup2(atom("expected"@), binary_text(kind))
}

/// A binary that holds another one whole.
pub open spec fn whole(x: Core) -> Segment {
    Segment { value: x, size: CoreBinarySize::All, kind: CoreBinaryKind::Binary }
}

/// Two binaries, one behind the other.
pub open spec fn bin2(a: Core, b: Core) -> Core {
    Core::Binary(seq![whole(a), whole(b)])
}

/// A list of the expressions.
pub open spec fn listed(s: Seq<Core>) -> Core {
    listed_onto(s, nil())
}

/// The expressions in front of a tail.
pub open spec fn listed_onto(s: Seq<Core>, tail: Core) -> Core
    decreases s.len(),
{
    if s.len() == 0 {
        tail
    } else {
        listed_onto(s.drop_last(), cons(s.last(), tail))
    }
}

/// The kind of a value, found by asking for one kind after the other.
pub open spec fn typeof_case(tmp: Seq<char>) -> Core {
    Core::Case(Box::new(atom("true"@)), typeof_clauses(tmp))
}

#[verifier::opaque]
pub open spec fn typeof_clauses(tmp: Seq<char>) -> Seq<Clause> {
    seq![
        typeof_clause(tmp, "is_integer"@, "integer"@),
        typeof_clause(tmp, "is_float"@, "float"@),
        typeof_clause(tmp, "is_atom"@, "atom"@),
        typeof_clause(tmp, "is_list"@, "list"@),
        typeof_clause(tmp, "is_tuple"@, "tuple"@),
        typeof_clause(tmp, "is_map"@, "map"@),
        typeof_clause(tmp, "is_pid"@, "pid"@),
        typeof_clause(tmp, "is_function"@, "function"@),
    ]
}

#[verifier::opaque]
pub open spec fn typeof_clause(tmp: Seq<char>, predicate: Seq<char>, kind: Seq<char>) -> Clause {
    guarded(pvar("_"@), call1("erlang"@, predicate, var(tmp)), atom(kind))
}

} // verus!
