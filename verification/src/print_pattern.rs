//! Patterns with the same fingerprint differ in the names of their binders alone.
use vstd::prelude::*;
use crate::ast::{path_parts, BitStringPatternSegment, Pattern};
use crate::fingerprint::{
    bool_text, field_patterns_print, pattern_print, patterns_print, segment_patterns_print,
    segment_suffix, specifier_name, Scope,
};
use crate::print_binders::{
    rebound_field_patterns, rebound_pattern, rebound_patterns, rebound_segment_patterns,
};
use crate::print_pieces::{
    are_words, bool_told, bound_numbered, closes, cut, decimal_int_injective, decimal_int_is_word,
    decimal_is_word, is_numbered, is_rest, is_word, nest2, nest3, nest4, nest5, nothing_before,
    path_told, pattern_shown, rest_colon, rest_led, slide1, slide2, slide3, slide4, specifier_told,
    strip, strip_two,
};
use crate::print_twin::decimal_injective;
use crate::text::{decimal, decimal_int, joined, texts};

verus! {

/// Whether the texts of a pattern are words of a fingerprint.
pub open spec fn plain_pattern(p: Pattern) -> bool
    decreases p,
{
    match p {
        Pattern::Float(f) => is_word(f.text@),
        Pattern::String(s) => is_word(s@),
        Pattern::Atom(a) => is_word(a@),
        Pattern::Tuple(items) => plain_patterns(items@),
        Pattern::List(items, tail) => plain_patterns(items@) && (match tail {
            Some(rest) => plain_pattern(*rest),
            None => true,
        }),
        Pattern::Constructor(path, fields) => are_words(path_parts(path))
            && plain_patterns(fields@),
        Pattern::Record(fields) => plain_field_patterns(fields@),
        Pattern::BitString(segments) => plain_segment_patterns(segments@),
        Pattern::Or(left, right) => plain_pattern(*left) && plain_pattern(*right),
        _ => true,
    }
}

pub open spec fn plain_patterns(s: Seq<Pattern>) -> bool
    decreases s,
{
    s.len() > 0 ==> plain_pattern(s[0]) && plain_patterns(s.drop_first())
}

pub open spec fn plain_field_patterns(s: Seq<(String, Pattern)>) -> bool
    decreases s,
{
    s.len() > 0 ==> is_word(s[0].0@) && plain_pattern(s[0].1)
        && plain_field_patterns(s.drop_first())
}

pub open spec fn plain_segment_patterns(s: Seq<BitStringPatternSegment>) -> bool
    decreases s,
{
    s.len() > 0 ==> plain_pattern(s[0].value) && plain_segment_patterns(s.drop_first())
}

proof fn patterns_front(s: Seq<Pattern>, st: Scope)
    requires
        s.len() > 0,
    ensures
        ({
            let x = pattern_print(s[0], st);
            let t = patterns_print(s.drop_first(), x.1);
            patterns_print(s, st) == ((x.0 + ","@) + t.0, t.1)
        }),
    decreases s.len(),
{
    let x = pattern_print(s[0], st);
    let item = x.0 + ","@;
    let d = s.drop_first();
    let m = s.drop_last();
    if s.len() == 1 {
        assert(m =~= Seq::empty());
        assert(d =~= Seq::empty());
        assert(patterns_print(m, st) == (Seq::<char>::empty(), st));
        assert(patterns_print(d, x.1) == (Seq::<char>::empty(), x.1));
        nothing_before(item);
        slide1(Seq::empty(), x.0, ","@);
        nothing_before(x.0);
        nothing_before(x.0 + ","@);
    } else {
        patterns_front(m, st);
        assert(m.drop_first() =~= d.drop_last());
        let y = patterns_print(d.drop_last(), x.1);
        let z = pattern_print(s.last(), y.1);
        slide2(item, y.0, z.0, ","@);
    }
}

proof fn field_patterns_front(s: Seq<(String, Pattern)>, st: Scope)
    requires
        s.len() > 0,
    ensures
        ({
            let x = pattern_print(s[0].1, st);
            let t = field_patterns_print(s.drop_first(), x.1);
            field_patterns_print(s, st) == ((s[0].0@ + ":"@ + x.0 + ","@) + t.0, t.1)
        }),
    decreases s.len(),
{
    let x = pattern_print(s[0].1, st);
    let item = s[0].0@ + ":"@ + x.0 + ","@;
    let d = s.drop_first();
    let m = s.drop_last();
    if s.len() == 1 {
        assert(m =~= Seq::empty());
        assert(d =~= Seq::empty());
        assert(field_patterns_print(m, st) == (Seq::<char>::empty(), st));
        assert(field_patterns_print(d, x.1) == (Seq::<char>::empty(), x.1));
        nothing_before(item);
        slide3(Seq::empty(), s.last().0@, ":"@, x.0, ","@);
        nothing_before(s.last().0@);
        nothing_before(s.last().0@ + ":"@ + x.0 + ","@);
    } else {
        field_patterns_front(m, st);
        assert(m.drop_first() =~= d.drop_last());
        let y = field_patterns_print(d.drop_last(), x.1);
        let z = pattern_print(s.last().1, y.1);
        slide4(item, y.0, s.last().0@, ":"@, z.0, ","@);
    }
}

proof fn segment_patterns_front(s: Seq<BitStringPatternSegment>, st: Scope)
    requires
        s.len() > 0,
    ensures
        ({
            let x = pattern_print(s[0].value, st);
            let t = segment_patterns_print(s.drop_first(), x.1);
            segment_patterns_print(s, st) == (
                (x.0 + segment_suffix(s[0].size, s[0].specifier)) + t.0,
                t.1,
            )
        }),
    decreases s.len(),
{
    let x = pattern_print(s[0].value, st);
    let item = x.0 + segment_suffix(s[0].size, s[0].specifier);
    let d = s.drop_first();
    let m = s.drop_last();
    if s.len() == 1 {
        assert(m =~= Seq::empty());
        assert(d =~= Seq::empty());
        assert(segment_patterns_print(m, st) == (Seq::<char>::empty(), st));
        assert(segment_patterns_print(d, x.1) == (Seq::<char>::empty(), x.1));
        nothing_before(item);
        slide1(Seq::empty(), x.0, segment_suffix(s.last().size, s.last().specifier));
        nothing_before(x.0);
        nothing_before(x.0 + segment_suffix(s.last().size, s.last().specifier));
    } else {
        segment_patterns_front(m, st);
        assert(m.drop_first() =~= d.drop_last());
        let y = segment_patterns_print(d.drop_last(), x.1);
        let z = pattern_print(s.last().value, y.1);
        slide2(item, y.0, z.0, segment_suffix(s.last().size, s.last().specifier));
    }
}

/// The binders of a pattern keep the numbers words.
pub proof fn pattern_numbered(p: Pattern, st: Scope)
    requires
        is_numbered(st),
    ensures
        is_numbered(pattern_print(p, st).1),
    decreases p,
{
    match p {
        Pattern::Var(name) => {
            bound_numbered(st, name@);
        },
        Pattern::Tuple(items) => {
            patterns_numbered(items@, st);
        },
        Pattern::List(items, tail) => {
            patterns_numbered(items@, st);
            match tail {
                Some(rest) => {
                    pattern_numbered(*rest, patterns_print(items@, st).1);
                },
                None => {},
            }
        },
        Pattern::Constructor(path, fields) => {
            patterns_numbered(fields@, st);
        },
        Pattern::Record(fields) => {
            field_patterns_numbered(fields@, st);
        },
        Pattern::BitString(segments) => {
            segment_patterns_numbered(segments@, st);
        },
        Pattern::Or(left, right) => {
            pattern_numbered(*left, st);
        },
        _ => {},
    }
}

proof fn patterns_numbered(s: Seq<Pattern>, st: Scope)
    requires
        is_numbered(st),
    ensures
        is_numbered(patterns_print(s, st).1),
    decreases s,
{
    if s.len() > 0 {
        patterns_numbered(s.drop_last(), st);
        pattern_numbered(s.last(), patterns_print(s.drop_last(), st).1);
    }
}

proof fn field_patterns_numbered(s: Seq<(String, Pattern)>, st: Scope)
    requires
        is_numbered(st),
    ensures
        is_numbered(field_patterns_print(s, st).1),
    decreases s,
{
    if s.len() > 0 {
        field_patterns_numbered(s.drop_last(), st);
        pattern_numbered(s.last().1, field_patterns_print(s.drop_last(), st).1);
    }
}

proof fn segment_patterns_numbered(s: Seq<BitStringPatternSegment>, st: Scope)
    requires
        is_numbered(st),
    ensures
        is_numbered(segment_patterns_print(s, st).1),
    decreases s,
{
    if s.len() > 0 {
        segment_patterns_numbered(s.drop_last(), st);
        pattern_numbered(s.last().value, segment_patterns_print(s.drop_last(), st).1);
    }
}

/// Whether the fingerprints of two patterns, each before a rest, are the same text.
pub open spec fn pattern_meets(
    p: Pattern,
    q: Pattern,
    st: Scope,
    su: Scope,
    x: Seq<char>,
    y: Seq<char>,
) -> bool {
    &&& plain_pattern(p)
    &&& plain_pattern(q)
    &&& st.next == su.next
    &&& is_rest(x)
    &&& is_rest(y)
    &&& pattern_print(p, st).0 + x == pattern_print(q, su).0 + y
}

/// Paths with the same parts are the same.
pub proof fn same_path_of(p: crate::ast::Path, q: crate::ast::Path)
    requires
        path_parts(p) == path_parts(q),
    ensures
        crate::twin::same_path(p, q),
{
    let a = path_parts(p);
    let b = path_parts(q);
    assert(a.len() == b.len());
    assert(a.last() == b.last());
    let c = texts(p.qualifiers@);
    let d = texts(q.qualifiers@);
    assert forall|i: int| 0 <= i < c.len() implies c[i] == d[i] by {
        assert(a[i] == c[i] && b[i] == d[i]);
    }
    assert(c =~= d);
}

#[verifier::spinoff_prover]
#[verifier::rlimit(40)]
proof fn tell_var(p: Pattern, p2: Pattern, st: Scope, su: Scope, r: Seq<char>, q: Seq<char>)
    requires
        pattern_meets(p, p2, st, su, r, q),
        p is Var,
        p2 is Var,
    ensures
        rebound_pattern(p, p2),
        r == q,
        pattern_print(p, st).1.next == pattern_print(p2, su).1.next,
    decreases p, 0nat,
{
    match (p, p2) {
        (Pattern::Var(a1), Pattern::Var(a2)) => {
            reveal_strlit("bind:");
            let t1_1 = decimal(st.next);
            let t2_1 = decimal(su.next);
            let x1_1 = t1_1 + r;
            let x1_0 = "bind:"@ + x1_1;
            let x2_1 = t2_1 + q;
            let x2_0 = "bind:"@ + x2_1;
            nest2("bind:"@, t1_1, r);
            nest2("bind:"@, t2_1, q);
            assert(pattern_print(p, st).0 + r == x1_0 && pattern_print(p2, su).0 + q == x2_0);
            assert(x1_0 == x2_0);
            strip("bind:"@, x1_1, x2_1);
            decimal_is_word(st.next);
            cut(t1_1, r, t2_1, q);
        },
        _ => {},
    }
}

#[verifier::spinoff_prover]
#[verifier::rlimit(40)]
proof fn tell_int(p: Pattern, p2: Pattern, st: Scope, su: Scope, r: Seq<char>, q: Seq<char>)
    requires
        pattern_meets(p, p2, st, su, r, q),
        p is Int,
        p2 is Int,
    ensures
        rebound_pattern(p, p2),
        r == q,
        pattern_print(p, st).1.next == pattern_print(p2, su).1.next,
    decreases p, 0nat,
{
    match (p, p2) {
        (Pattern::Int(a1), Pattern::Int(a2)) => {
            reveal_strlit("int:");
            let t1_1 = decimal_int(a1 as int);
            let t2_1 = decimal_int(a2 as int);
            let x1_1 = t1_1 + r;
            let x1_0 = "int:"@ + x1_1;
            let x2_1 = t2_1 + q;
            let x2_0 = "int:"@ + x2_1;
            nest2("int:"@, t1_1, r);
            nest2("int:"@, t2_1, q);
            assert(pattern_print(p, st).0 + r == x1_0 && pattern_print(p2, su).0 + q == x2_0);
            assert(x1_0 == x2_0);
            strip("int:"@, x1_1, x2_1);
            decimal_int_is_word(a1 as int);
            decimal_int_is_word(a2 as int);
            cut(t1_1, r, t2_1, q);
            decimal_int_injective(a1 as int, a2 as int);
        },
        _ => {},
    }
}

#[verifier::spinoff_prover]
#[verifier::rlimit(40)]
proof fn tell_float(p: Pattern, p2: Pattern, st: Scope, su: Scope, r: Seq<char>, q: Seq<char>)
    requires
        pattern_meets(p, p2, st, su, r, q),
        p is Float,
        p2 is Float,
    ensures
        rebound_pattern(p, p2),
        r == q,
        pattern_print(p, st).1.next == pattern_print(p2, su).1.next,
    decreases p, 0nat,
{
    match (p, p2) {
        (Pattern::Float(a1), Pattern::Float(a2)) => {
            reveal_strlit("float:");
            let t1_1 = a1.text@;
            let t2_1 = a2.text@;
            let x1_1 = t1_1 + r;
            let x1_0 = "float:"@ + x1_1;
            let x2_1 = t2_1 + q;
            let x2_0 = "float:"@ + x2_1;
            nest2("float:"@, t1_1, r);
            nest2("float:"@, t2_1, q);
            assert(pattern_print(p, st).0 + r == x1_0 && pattern_print(p2, su).0 + q == x2_0);
            assert(x1_0 == x2_0);
            strip("float:"@, x1_1, x2_1);
            cut(t1_1, r, t2_1, q);
        },
        _ => {},
    }
}

#[verifier::spinoff_prover]
#[verifier::rlimit(40)]
proof fn tell_string(p: Pattern, p2: Pattern, st: Scope, su: Scope, r: Seq<char>, q: Seq<char>)
    requires
        pattern_meets(p, p2, st, su, r, q),
        p is String,
        p2 is String,
    ensures
        rebound_pattern(p, p2),
        r == q,
        pattern_print(p, st).1.next == pattern_print(p2, su).1.next,
    decreases p, 0nat,
{
    match (p, p2) {
        (Pattern::String(a1), Pattern::String(a2)) => {
            reveal_strlit("string:");
            let t1_1 = a1@;
            let t2_1 = a2@;
            let x1_1 = t1_1 + r;
            let x1_0 = "string:"@ + x1_1;
            let x2_1 = t2_1 + q;
            let x2_0 = "string:"@ + x2_1;
            nest2("string:"@, t1_1, r);
            nest2("string:"@, t2_1, q);
            assert(pattern_print(p, st).0 + r == x1_0 && pattern_print(p2, su).0 + q == x2_0);
            assert(x1_0 == x2_0);
            strip("string:"@, x1_1, x2_1);
            cut(t1_1, r, t2_1, q);
        },
        _ => {},
    }
}

#[verifier::spinoff_prover]
#[verifier::rlimit(40)]
proof fn tell_atom(p: Pattern, p2: Pattern, st: Scope, su: Scope, r: Seq<char>, q: Seq<char>)
    requires
        pattern_meets(p, p2, st, su, r, q),
        p is Atom,
        p2 is Atom,
    ensures
        rebound_pattern(p, p2),
        r == q,
        pattern_print(p, st).1.next == pattern_print(p2, su).1.next,
    decreases p, 0nat,
{
    match (p, p2) {
        (Pattern::Atom(a1), Pattern::Atom(a2)) => {
            reveal_strlit("atom:");
            let t1_1 = a1@;
            let t2_1 = a2@;
            let x1_1 = t1_1 + r;
            let x1_0 = "atom:"@ + x1_1;
            let x2_1 = t2_1 + q;
            let x2_0 = "atom:"@ + x2_1;
            nest2("atom:"@, t1_1, r);
            nest2("atom:"@, t2_1, q);
            assert(pattern_print(p, st).0 + r == x1_0 && pattern_print(p2, su).0 + q == x2_0);
            assert(x1_0 == x2_0);
            strip("atom:"@, x1_1, x2_1);
            cut(t1_1, r, t2_1, q);
        },
        _ => {},
    }
}

#[verifier::spinoff_prover]
#[verifier::rlimit(40)]
proof fn tell_bool(p: Pattern, p2: Pattern, st: Scope, su: Scope, r: Seq<char>, q: Seq<char>)
    requires
        pattern_meets(p, p2, st, su, r, q),
        p is Bool,
        p2 is Bool,
    ensures
        rebound_pattern(p, p2),
        r == q,
        pattern_print(p, st).1.next == pattern_print(p2, su).1.next,
    decreases p, 0nat,
{
    match (p, p2) {
        (Pattern::Bool(a1), Pattern::Bool(a2)) => {
            reveal_strlit("bool:");
            let t1_1 = bool_text(a1);
            let t2_1 = bool_text(a2);
            let x1_1 = t1_1 + r;
            let x1_0 = "bool:"@ + x1_1;
            let x2_1 = t2_1 + q;
            let x2_0 = "bool:"@ + x2_1;
            nest2("bool:"@, t1_1, r);
            nest2("bool:"@, t2_1, q);
            assert(pattern_print(p, st).0 + r == x1_0 && pattern_print(p2, su).0 + q == x2_0);
            assert(x1_0 == x2_0);
            strip("bool:"@, x1_1, x2_1);
            bool_told(a1, a2);
            cut(t1_1, r, t2_1, q);
        },
        _ => {},
    }
}

#[verifier::spinoff_prover]
#[verifier::rlimit(40)]
proof fn tell_tuple(p: Pattern, p2: Pattern, st: Scope, su: Scope, r: Seq<char>, q: Seq<char>)
    requires
        pattern_meets(p, p2, st, su, r, q),
        p is Tuple,
        p2 is Tuple,
    ensures
        rebound_pattern(p, p2),
        r == q,
        pattern_print(p, st).1.next == pattern_print(p2, su).1.next,
    decreases p, 0nat,
{
    match (p, p2) {
        (Pattern::Tuple(a1), Pattern::Tuple(a2)) => {
            reveal_strlit(")");
            reveal_strlit("tuple(");
            let (t1_1, sc1_1) = patterns_print(a1@, st);
            let (t2_1, sc2_1) = patterns_print(a2@, su);
            let x1_2 = ")"@ + r;
            let x1_1 = t1_1 + x1_2;
            let x1_0 = "tuple("@ + x1_1;
            let x2_2 = ")"@ + q;
            let x2_1 = t2_1 + x2_2;
            let x2_0 = "tuple("@ + x2_1;
            nest3("tuple("@, t1_1, ")"@, r);
            nest3("tuple("@, t2_1, ")"@, q);
            assert(pattern_print(p, st).0 + r == x1_0 && pattern_print(p2, su).0 + q == x2_0);
            assert(x1_0 == x2_0);
            strip("tuple("@, x1_1, x2_1);
            assert(x1_2[0] == ")"@[0]);
            assert(x2_2[0] == ")"@[0]);
            patterns_tell(a1@, a2@, st, su, x1_2, x2_2);
            strip(")"@, r, q);
        },
        _ => {},
    }
}

#[verifier::spinoff_prover]
#[verifier::rlimit(40)]
proof fn tell_constructor(p: Pattern, p2: Pattern, st: Scope, su: Scope, r: Seq<char>, q: Seq<char>)
    requires
        pattern_meets(p, p2, st, su, r, q),
        p is Constructor,
        p2 is Constructor,
    ensures
        rebound_pattern(p, p2),
        r == q,
        pattern_print(p, st).1.next == pattern_print(p2, su).1.next,
    decreases p, 0nat,
{
    match (p, p2) {
        (Pattern::Constructor(c1, a1), Pattern::Constructor(c2, a2)) => {
            reveal_strlit("(");
            reveal_strlit(")");
            reveal_strlit("ctor:");
            let t1_1 = joined(path_parts(c1), "::"@);
            let (t1_3, sc1_3) = patterns_print(a1@, st);
            let t2_1 = joined(path_parts(c2), "::"@);
            let (t2_3, sc2_3) = patterns_print(a2@, su);
            let x1_4 = ")"@ + r;
            let x1_3 = t1_3 + x1_4;
            let x1_2 = "("@ + x1_3;
            let x1_1 = t1_1 + x1_2;
            let x1_0 = "ctor:"@ + x1_1;
            let x2_4 = ")"@ + q;
            let x2_3 = t2_3 + x2_4;
            let x2_2 = "("@ + x2_3;
            let x2_1 = t2_1 + x2_2;
            let x2_0 = "ctor:"@ + x2_1;
            nest5("ctor:"@, t1_1, "("@, t1_3, ")"@, r);
            nest5("ctor:"@, t2_1, "("@, t2_3, ")"@, q);
            assert(pattern_print(p, st).0 + r == x1_0 && pattern_print(p2, su).0 + q == x2_0);
            assert(x1_0 == x2_0);
            strip("ctor:"@, x1_1, x2_1);
            rest_led("("@, x1_3);
            rest_led("("@, x2_3);
            path_told(path_parts(c1), path_parts(c2), x1_2, x2_2);
            same_path_of(c1, c2);
            strip("("@, x1_3, x2_3);
            assert(x1_4[0] == ")"@[0]);
            assert(x2_4[0] == ")"@[0]);
            patterns_tell(a1@, a2@, st, su, x1_4, x2_4);
            strip(")"@, r, q);
        },
        _ => {},
    }
}

#[verifier::spinoff_prover]
#[verifier::rlimit(40)]
proof fn tell_record(p: Pattern, p2: Pattern, st: Scope, su: Scope, r: Seq<char>, q: Seq<char>)
    requires
        pattern_meets(p, p2, st, su, r, q),
        p is Record,
        p2 is Record,
    ensures
        rebound_pattern(p, p2),
        r == q,
        pattern_print(p, st).1.next == pattern_print(p2, su).1.next,
    decreases p, 0nat,
{
    match (p, p2) {
        (Pattern::Record(a1), Pattern::Record(a2)) => {
            reveal_strlit(")");
            reveal_strlit("record(");
            let (t1_1, sc1_1) = field_patterns_print(a1@, st);
            let (t2_1, sc2_1) = field_patterns_print(a2@, su);
            let x1_2 = ")"@ + r;
            let x1_1 = t1_1 + x1_2;
            let x1_0 = "record("@ + x1_1;
            let x2_2 = ")"@ + q;
            let x2_1 = t2_1 + x2_2;
            let x2_0 = "record("@ + x2_1;
            nest3("record("@, t1_1, ")"@, r);
            nest3("record("@, t2_1, ")"@, q);
            assert(pattern_print(p, st).0 + r == x1_0 && pattern_print(p2, su).0 + q == x2_0);
            assert(x1_0 == x2_0);
            strip("record("@, x1_1, x2_1);
            assert(x1_2[0] == ")"@[0]);
            assert(x2_2[0] == ")"@[0]);
            field_patterns_tell(a1@, a2@, st, su, x1_2, x2_2);
            strip(")"@, r, q);
        },
        _ => {},
    }
}

#[verifier::spinoff_prover]
#[verifier::rlimit(40)]
proof fn tell_bits(p: Pattern, p2: Pattern, st: Scope, su: Scope, r: Seq<char>, q: Seq<char>)
    requires
        pattern_meets(p, p2, st, su, r, q),
        p is BitString,
        p2 is BitString,
    ensures
        rebound_pattern(p, p2),
        r == q,
        pattern_print(p, st).1.next == pattern_print(p2, su).1.next,
    decreases p, 0nat,
{
    match (p, p2) {
        (Pattern::BitString(a1), Pattern::BitString(a2)) => {
            reveal_strlit(")");
            reveal_strlit("bits(");
            let (t1_1, sc1_1) = segment_patterns_print(a1@, st);
            let (t2_1, sc2_1) = segment_patterns_print(a2@, su);
            let x1_2 = ")"@ + r;
            let x1_1 = t1_1 + x1_2;
            let x1_0 = "bits("@ + x1_1;
            let x2_2 = ")"@ + q;
            let x2_1 = t2_1 + x2_2;
            let x2_0 = "bits("@ + x2_1;
            nest3("bits("@, t1_1, ")"@, r);
            nest3("bits("@, t2_1, ")"@, q);
            assert(pattern_print(p, st).0 + r == x1_0 && pattern_print(p2, su).0 + q == x2_0);
            assert(x1_0 == x2_0);
            strip("bits("@, x1_1, x2_1);
            assert(x1_2[0] == ")"@[0]);
            assert(x2_2[0] == ")"@[0]);
            segment_patterns_tell(a1@, a2@, st, su, x1_2, x2_2);
            strip(")"@, r, q);
        },
        _ => {},
    }
}

#[verifier::spinoff_prover]
#[verifier::rlimit(40)]
proof fn tell_either(p: Pattern, p2: Pattern, st: Scope, su: Scope, r: Seq<char>, q: Seq<char>)
    requires
        pattern_meets(p, p2, st, su, r, q),
        p is Or,
        p2 is Or,
    ensures
        rebound_pattern(p, p2),
        r == q,
        pattern_print(p, st).1.next == pattern_print(p2, su).1.next,
    decreases p, 0nat,
{
    match (p, p2) {
        (Pattern::Or(a1, b1), Pattern::Or(a2, b2)) => {
            reveal_strlit(":");
            reveal_strlit("or:");
            let (t1_1, sc1_1) = pattern_print(*a1, st);
            let (t1_3, sc1_3) = pattern_print(*b1, st);
            let (t2_1, sc2_1) = pattern_print(*a2, su);
            let (t2_3, sc2_3) = pattern_print(*b2, su);
            let x1_3 = t1_3 + r;
            let x1_2 = ":"@ + x1_3;
            let x1_1 = t1_1 + x1_2;
            let x1_0 = "or:"@ + x1_1;
            let x2_3 = t2_3 + q;
            let x2_2 = ":"@ + x2_3;
            let x2_1 = t2_1 + x2_2;
            let x2_0 = "or:"@ + x2_1;
            nest4("or:"@, t1_1, ":"@, t1_3, r);
            nest4("or:"@, t2_1, ":"@, t2_3, q);
            assert(pattern_print(p, st).0 + r == x1_0 && pattern_print(p2, su).0 + q == x2_0);
            assert(x1_0 == x2_0);
            strip("or:"@, x1_1, x2_1);
            pattern_shown(*b1, st, r);
            rest_colon(x1_3);
            pattern_shown(*b2, su, q);
            rest_colon(x2_3);
            pattern_tells(*a1, *a2, st, su, x1_2, x2_2);
            strip(":"@, x1_3, x2_3);
            pattern_tells(*b1, *b2, st, su, r, q);
        },
        _ => {},
    }
}

#[verifier::spinoff_prover]
#[verifier::rlimit(40)]
proof fn tell_char(p: Pattern, p2: Pattern, st: Scope, su: Scope, r: Seq<char>, q: Seq<char>)
    requires
        pattern_meets(p, p2, st, su, r, q),
        p is Char,
        p2 is Char,
    ensures
        rebound_pattern(p, p2),
        r == q,
        pattern_print(p, st).1.next == pattern_print(p2, su).1.next,
    decreases p, 0nat,
{
    match (p, p2) {
        (Pattern::Char(a1), Pattern::Char(a2)) => {
            reveal_strlit("char:");
            let x = "char:"@.push(a1);
            let y = "char:"@.push(a2);
            strip_two(x, r, y, q);
            assert(x.last() == a1 && y.last() == a2);
        },
        _ => {},
    }
}

#[verifier::spinoff_prover]
#[verifier::rlimit(40)]
proof fn tell_list(p: Pattern, p2: Pattern, st: Scope, su: Scope, r: Seq<char>, q: Seq<char>)
    requires
        pattern_meets(p, p2, st, su, r, q),
        p is List,
        p2 is List,
    ensures
        rebound_pattern(p, p2),
        r == q,
        pattern_print(p, st).1.next == pattern_print(p2, su).1.next,
    decreases p, 0nat,
{
    match (p, p2) {
        (Pattern::List(a1, z1), Pattern::List(a2, z2)) => {
            reveal_strlit("list(");
            reveal_strlit("|");
            reveal_strlit(")");
            let (t1, s1) = patterns_print(a1@, st);
            let (t2, s2) = patterns_print(a2@, su);
            let x = match z1 {
                Some(e1) => "|"@ + (pattern_print(*e1, s1).0 + (")"@ + r)),
                None => ")"@ + r,
            };
            let y = match z2 {
                Some(e2) => "|"@ + (pattern_print(*e2, s2).0 + (")"@ + q)),
                None => ")"@ + q,
            };
            match z1 {
                Some(e1) => {
                    nest5("list("@, t1, "|"@, pattern_print(*e1, s1).0, ")"@, r);
                },
                None => {
                    nest3("list("@, t1, ")"@, r);
                },
            }
            match z2 {
                Some(e2) => {
                    nest5("list("@, t2, "|"@, pattern_print(*e2, s2).0, ")"@, q);
                },
                None => {
                    nest3("list("@, t2, ")"@, q);
                },
            }
            assert("list("@ + (t1 + x) == "list("@ + (t2 + y));
            strip("list("@, t1 + x, t2 + y);
            assert(closes(x) && closes(y));
            patterns_tell(a1@, a2@, st, su, x, y);
            assert(x[0] == y[0]);
            match (z1, z2) {
                (Some(e1), Some(e2)) => {
                    let u = pattern_print(*e1, s1).0;
                    let v = pattern_print(*e2, s2).0;
                    strip("|"@, u + (")"@ + r), v + (")"@ + q));
                    rest_led(")"@, r);
                    rest_led(")"@, q);
                    pattern_tells(*e1, *e2, s1, s2, ")"@ + r, ")"@ + q);
                    strip(")"@, r, q);
                },
                (None, None) => {
                    strip(")"@, r, q);
                },
                _ => {},
            }
        },
        _ => {},
    }
}

/// Patterns with the same fingerprint differ in the names of their binders alone,
/// and bind the same number of names.
pub proof fn pattern_tells(
    p: Pattern,
    q: Pattern,
    st: Scope,
    su: Scope,
    x: Seq<char>,
    y: Seq<char>,
)
    requires
        pattern_meets(p, q, st, su, x, y),
    ensures
        rebound_pattern(p, q),
        x == y,
        pattern_print(p, st).1.next == pattern_print(q, su).1.next,
    decreases p, 1nat,
{
    pattern_shown(p, st, x);
    pattern_shown(q, su, y);
    match p {
        Pattern::Wildcard => {
            strip("_"@, x, y);
        },
        Pattern::Var(..) => {
            tell_var(p, q, st, su, x, y);
        },
        Pattern::Int(..) => {
            tell_int(p, q, st, su, x, y);
        },
        Pattern::Float(..) => {
            tell_float(p, q, st, su, x, y);
        },
        Pattern::Char(..) => {
            tell_char(p, q, st, su, x, y);
        },
        Pattern::String(..) => {
            tell_string(p, q, st, su, x, y);
        },
        Pattern::Bool(..) => {
            tell_bool(p, q, st, su, x, y);
        },
        Pattern::Atom(..) => {
            tell_atom(p, q, st, su, x, y);
        },
        Pattern::Tuple(..) => {
            tell_tuple(p, q, st, su, x, y);
        },
        Pattern::List(..) => {
            tell_list(p, q, st, su, x, y);
        },
        Pattern::Constructor(..) => {
            tell_constructor(p, q, st, su, x, y);
        },
        Pattern::Record(..) => {
            tell_record(p, q, st, su, x, y);
        },
        Pattern::BitString(..) => {
            tell_bits(p, q, st, su, x, y);
        },
        Pattern::Or(..) => {
            tell_either(p, q, st, su, x, y);
        },
    }
}

/// What follows the value of a segment is a rest.
pub proof fn suffix_rest(size: Option<u32>, o: crate::ast::BinarySegmentSpecifier, x: Seq<char>)
    ensures
        is_rest(segment_suffix(size, o) + x),
{
    reveal_strlit(":");
    reveal_strlit("/");
    reveal_strlit(",");
    let t = segment_suffix(size, o);
    match size {
        Some(n) => {
            decimal_is_word(n as nat);
            assert(t[0] == ':');
            assert(t[1] == decimal(n as nat)[0]);
            assert((t + x)[0] == ':' && (t + x)[1] == t[1]);
        },
        None => {
            assert(t[0] == '/');
            assert((t + x)[0] == '/');
        },
    }
}

/// The size and the kind of a segment are known from what follows its value.
pub proof fn suffix_told(
    m: Option<u32>,
    o: crate::ast::BinarySegmentSpecifier,
    n: Option<u32>,
    p: crate::ast::BinarySegmentSpecifier,
    x: Seq<char>,
    y: Seq<char>,
)
    requires
        segment_suffix(m, o) + x == segment_suffix(n, p) + y,
    ensures
        m == n,
        o == p,
        x == y,
{
    reveal_strlit(":");
    reveal_strlit("/");
    reveal_strlit(",");
    specifier_told(o, p);
    let a = specifier_name(o);
    let b = specifier_name(p);
    let t = segment_suffix(m, o) + x;
    let u = segment_suffix(n, p) + y;
    assert(t[0] == u[0]);
    assert(m is Some ==> t[0] == ':');
    assert(n is Some ==> u[0] == ':');
    assert(m is None ==> t[0] == '/');
    assert(n is None ==> u[0] == '/');
    assert(("/"@ + (a + (","@ + x)))[0] == '/');
    assert(("/"@ + (b + (","@ + y)))[0] == '/');
    match (m, n) {
        (Some(i), Some(j)) => {
            let k = decimal(i as nat);
            let l = decimal(j as nat);
            decimal_is_word(i as nat);
            decimal_is_word(j as nat);
            nest5(":"@, k, "/"@, a, ","@, x);
            nest5(":"@, l, "/"@, b, ","@, y);
            strip(":"@, k + ("/"@ + (a + (","@ + x))), l + ("/"@ + (b + (","@ + y))));
            cut(k, "/"@ + (a + (","@ + x)), l, "/"@ + (b + (","@ + y)));
            decimal_injective(i as nat, j as nat);
        },
        _ => {
            nest3("/"@, a, ","@, x);
            nest3("/"@, b, ","@, y);
        },
    }
    strip("/"@, a + (","@ + x), b + (","@ + y));
    assert((","@ + x)[0] == ',' && (","@ + y)[0] == ',');
    cut(a, ","@ + x, b, ","@ + y);
    strip(","@, x, y);
}

proof fn patterns_join(s: Seq<Pattern>, t: Seq<Pattern>)
    requires
        s.len() == t.len(),
        s.len() > 0,
        rebound_pattern(s[0], t[0]),
        rebound_patterns(s.drop_first(), t.drop_first()),
    ensures
        rebound_patterns(s, t),
    decreases s.len(),
{
    let m = s.drop_last();
    let n = t.drop_last();
    if s.len() > 1 {
        assert(m.drop_first() =~= s.drop_first().drop_last());
        assert(n.drop_first() =~= t.drop_first().drop_last());
        patterns_join(m, n);
        assert(s.drop_first().last() == s.last());
        assert(t.drop_first().last() == t.last());
    }
    assert(rebound_patterns(m, n));
}

proof fn field_patterns_join(s: Seq<(String, Pattern)>, t: Seq<(String, Pattern)>)
    requires
        s.len() == t.len(),
        s.len() > 0,
        s[0].0@ == t[0].0@ && rebound_pattern(s[0].1, t[0].1),
        rebound_field_patterns(s.drop_first(), t.drop_first()),
    ensures
        rebound_field_patterns(s, t),
    decreases s.len(),
{
    let m = s.drop_last();
    let n = t.drop_last();
    if s.len() > 1 {
        assert(m.drop_first() =~= s.drop_first().drop_last());
        assert(n.drop_first() =~= t.drop_first().drop_last());
        field_patterns_join(m, n);
        assert(s.drop_first().last() == s.last());
        assert(t.drop_first().last() == t.last());
    }
    assert(rebound_field_patterns(m, n));
}

proof fn segment_patterns_join(s: Seq<BitStringPatternSegment>, t: Seq<BitStringPatternSegment>)
    requires
        s.len() == t.len(),
        s.len() > 0,
        s[0].size == t[0].size && s[0].specifier == t[0].specifier
            && rebound_pattern(s[0].value, t[0].value),
        rebound_segment_patterns(s.drop_first(), t.drop_first()),
    ensures
        rebound_segment_patterns(s, t),
    decreases s.len(),
{
    let m = s.drop_last();
    let n = t.drop_last();
    if s.len() > 1 {
        assert(m.drop_first() =~= s.drop_first().drop_last());
        assert(n.drop_first() =~= t.drop_first().drop_last());
        segment_patterns_join(m, n);
        assert(s.drop_first().last() == s.last());
        assert(t.drop_first().last() == t.last());
    }
    assert(rebound_segment_patterns(m, n));
}

#[verifier::spinoff_prover]
#[verifier::rlimit(40)]
proof fn patterns_tell(
    s: Seq<Pattern>,
    t: Seq<Pattern>,
    st: Scope,
    su: Scope,
    r: Seq<char>,
    q: Seq<char>,
)
    requires
        plain_patterns(s),
        plain_patterns(t),
        st.next == su.next,
        closes(r),
        closes(q),
        patterns_print(s, st).0 + r == patterns_print(t, su).0 + q,
    ensures
        rebound_patterns(s, t),
        r == q,
        patterns_print(s, st).1.next == patterns_print(t, su).1.next,
    decreases s, 0nat,
{
    nothing_before(r);
    nothing_before(q);
    if s.len() == 0 && t.len() == 0 {
    } else if s.len() == 0 {
        patterns_front(t, su);
        let z = patterns_print(t.drop_first(), pattern_print(t[0], su).1).0;
        let x = pattern_print(t[0], su).0;
        nest2(x + ","@, z, q);
        nest2(x, ","@, z + q);
        pattern_shown(t[0], su, ","@ + (z + q));
    } else if t.len() == 0 {
        patterns_front(s, st);
        let z = patterns_print(s.drop_first(), pattern_print(s[0], st).1).0;
        let x = pattern_print(s[0], st).0;
        nest2(x + ","@, z, r);
        nest2(x, ","@, z + r);
        pattern_shown(s[0], st, ","@ + (z + r));
    } else {
        patterns_front(s, st);
        patterns_front(t, su);
        reveal_strlit(",");
        let (t1_0, sc1_0) = pattern_print(s[0], st);
        let (t1_2, sc1_2) = patterns_print(s.drop_first(), pattern_print(s[0], st).1);
        let (t2_0, sc2_0) = pattern_print(t[0], su);
        let (t2_2, sc2_2) = patterns_print(t.drop_first(), pattern_print(t[0], su).1);
        let x1_2 = t1_2 + r;
        let x1_1 = ","@ + x1_2;
        let x1_0 = t1_0 + x1_1;
        let x2_2 = t2_2 + q;
        let x2_1 = ","@ + x2_2;
        let x2_0 = t2_0 + x2_1;
        nest3(t1_0, ","@, t1_2, r);
        nest3(t2_0, ","@, t2_2, q);
        nest2(pattern_print(s[0], st).0 + ","@, t1_2, r);
        nest2(pattern_print(s[0], st).0, ","@, t1_2 + r);
        nest2(pattern_print(t[0], su).0 + ","@, t2_2, q);
        nest2(pattern_print(t[0], su).0, ","@, t2_2 + q);
        assert(patterns_print(s, st).0 + r == x1_0);
        assert(patterns_print(t, su).0 + q == x2_0);
        assert(x1_0 == x2_0);
        rest_led(","@, x1_2);
        rest_led(","@, x2_2);
        pattern_tells(s[0], t[0], st, su, x1_1, x2_1);
        strip(","@, x1_2, x2_2);
        patterns_tell(
            s.drop_first(),
            t.drop_first(),
            pattern_print(s[0], st).1,
            pattern_print(t[0], su).1,
            r,
            q,
        );
        patterns_join(s, t);
    }
}

#[verifier::spinoff_prover]
#[verifier::rlimit(40)]
proof fn field_patterns_tell(
    s: Seq<(String, Pattern)>,
    t: Seq<(String, Pattern)>,
    st: Scope,
    su: Scope,
    r: Seq<char>,
    q: Seq<char>,
)
    requires
        plain_field_patterns(s),
        plain_field_patterns(t),
        st.next == su.next,
        r.len() > 0 && r[0] == ')',
        q.len() > 0 && q[0] == ')',
        field_patterns_print(s, st).0 + r == field_patterns_print(t, su).0 + q,
    ensures
        rebound_field_patterns(s, t),
        r == q,
        field_patterns_print(s, st).1.next == field_patterns_print(t, su).1.next,
    decreases s, 0nat,
{
    nothing_before(r);
    nothing_before(q);
    if s.len() == 0 && t.len() == 0 {
    } else if s.len() == 0 {
        field_patterns_front(t, su);
        let name = t[0].0@;
        reveal_strlit(":");
        let z = field_patterns_print(t.drop_first(), pattern_print(t[0].1, su).1).0;
        nest2(name + ":"@ + pattern_print(t[0].1, su).0 + ","@, z, q);
        nest4(name, ":"@, pattern_print(t[0].1, su).0, ","@, z + q);
        assert(name.len() > 0 ==> r[0] == name[0]);
        assert(name.len() == 0 ==> r[0] == ':');
        assert(false);
    } else if t.len() == 0 {
        field_patterns_front(s, st);
        let name = s[0].0@;
        reveal_strlit(":");
        let z = field_patterns_print(s.drop_first(), pattern_print(s[0].1, st).1).0;
        nest2(name + ":"@ + pattern_print(s[0].1, st).0 + ","@, z, r);
        nest4(name, ":"@, pattern_print(s[0].1, st).0, ","@, z + r);
        assert(name.len() > 0 ==> q[0] == name[0]);
        assert(name.len() == 0 ==> q[0] == ':');
        assert(false);
    } else {
        field_patterns_front(s, st);
        field_patterns_front(t, su);
        reveal_strlit(",");
        reveal_strlit(":");
        let t1_0 = s[0].0@;
        let (t1_2, sc1_2) = pattern_print(s[0].1, st);
        let (t1_4, sc1_4) = field_patterns_print(s.drop_first(), pattern_print(s[0].1, st).1);
        let t2_0 = t[0].0@;
        let (t2_2, sc2_2) = pattern_print(t[0].1, su);
        let (t2_4, sc2_4) = field_patterns_print(t.drop_first(), pattern_print(t[0].1, su).1);
        let x1_4 = t1_4 + r;
        let x1_3 = ","@ + x1_4;
        let x1_2 = t1_2 + x1_3;
        let x1_1 = ":"@ + x1_2;
        let x1_0 = t1_0 + x1_1;
        let x2_4 = t2_4 + q;
        let x2_3 = ","@ + x2_4;
        let x2_2 = t2_2 + x2_3;
        let x2_1 = ":"@ + x2_2;
        let x2_0 = t2_0 + x2_1;
        nest5(t1_0, ":"@, t1_2, ","@, t1_4, r);
        nest5(t2_0, ":"@, t2_2, ","@, t2_4, q);
        nest2(s[0].0@ + ":"@ + pattern_print(s[0].1, st).0 + ","@, t1_4, r);
        nest4(s[0].0@, ":"@, pattern_print(s[0].1, st).0, ","@, t1_4 + r);
        nest2(t[0].0@ + ":"@ + pattern_print(t[0].1, su).0 + ","@, t2_4, q);
        nest4(t[0].0@, ":"@, pattern_print(t[0].1, su).0, ","@, t2_4 + q);
        assert(field_patterns_print(s, st).0 + r == x1_0);
        assert(field_patterns_print(t, su).0 + q == x2_0);
        assert(x1_0 == x2_0);
        assert(x1_1[0] == ":"@[0]);
        assert(x2_1[0] == ":"@[0]);
        cut(t1_0, x1_1, t2_0, x2_1);
        strip(":"@, x1_2, x2_2);
        rest_led(","@, x1_4);
        rest_led(","@, x2_4);
        pattern_tells(s[0].1, t[0].1, st, su, x1_3, x2_3);
        strip(","@, x1_4, x2_4);
        field_patterns_tell(
            s.drop_first(),
            t.drop_first(),
            pattern_print(s[0].1, st).1,
            pattern_print(t[0].1, su).1,
            r,
            q,
        );
        field_patterns_join(s, t);
    }
}

#[verifier::spinoff_prover]
#[verifier::rlimit(40)]
proof fn segment_patterns_tell(
    s: Seq<BitStringPatternSegment>,
    t: Seq<BitStringPatternSegment>,
    st: Scope,
    su: Scope,
    r: Seq<char>,
    q: Seq<char>,
)
    requires
        plain_segment_patterns(s),
        plain_segment_patterns(t),
        st.next == su.next,
        closes(r),
        closes(q),
        segment_patterns_print(s, st).0 + r == segment_patterns_print(t, su).0 + q,
    ensures
        rebound_segment_patterns(s, t),
        r == q,
        segment_patterns_print(s, st).1.next == segment_patterns_print(t, su).1.next,
    decreases s, 0nat,
{
    nothing_before(r);
    nothing_before(q);
    if s.len() == 0 && t.len() == 0 {
    } else if s.len() == 0 {
        segment_patterns_front(t, su);
        let z = segment_patterns_print(t.drop_first(), pattern_print(t[0].value, su).1).0;
        let x = pattern_print(t[0].value, su).0;
        nest2(x + segment_suffix(t[0].size, t[0].specifier), z, q);
        nest2(x, segment_suffix(t[0].size, t[0].specifier), z + q);
        pattern_shown(t[0].value, su, segment_suffix(t[0].size, t[0].specifier) + (z + q));
    } else if t.len() == 0 {
        segment_patterns_front(s, st);
        let z = segment_patterns_print(s.drop_first(), pattern_print(s[0].value, st).1).0;
        let x = pattern_print(s[0].value, st).0;
        nest2(x + segment_suffix(s[0].size, s[0].specifier), z, r);
        nest2(x, segment_suffix(s[0].size, s[0].specifier), z + r);
        pattern_shown(s[0].value, st, segment_suffix(s[0].size, s[0].specifier) + (z + r));
    } else {
        segment_patterns_front(s, st);
        segment_patterns_front(t, su);
        let (t1_0, sc1_0) = pattern_print(s[0].value, st);
        let t1_1 = segment_suffix(s[0].size, s[0].specifier);
        let (t1_2, sc1_2) = segment_patterns_print(s.drop_first(), pattern_print(s[0].value, st).1);
        let (t2_0, sc2_0) = pattern_print(t[0].value, su);
        let t2_1 = segment_suffix(t[0].size, t[0].specifier);
        let (t2_2, sc2_2) = segment_patterns_print(t.drop_first(), pattern_print(t[0].value, su).1);
        let x1_2 = t1_2 + r;
        let x1_1 = t1_1 + x1_2;
        let x1_0 = t1_0 + x1_1;
        let x2_2 = t2_2 + q;
        let x2_1 = t2_1 + x2_2;
        let x2_0 = t2_0 + x2_1;
        nest3(t1_0, t1_1, t1_2, r);
        nest3(t2_0, t2_1, t2_2, q);
        nest2(pattern_print(s[0].value, st).0 + segment_suffix(s[0].size, s[0].specifier), t1_2, r);
        nest2(pattern_print(s[0].value, st).0, segment_suffix(s[0].size, s[0].specifier), t1_2 + r);
        nest2(pattern_print(t[0].value, su).0 + segment_suffix(t[0].size, t[0].specifier), t2_2, q);
        nest2(pattern_print(t[0].value, su).0, segment_suffix(t[0].size, t[0].specifier), t2_2 + q);
        assert(segment_patterns_print(s, st).0 + r == x1_0);
        assert(segment_patterns_print(t, su).0 + q == x2_0);
        assert(x1_0 == x2_0);
        suffix_rest(s[0].size, s[0].specifier, x1_2);
        suffix_rest(t[0].size, t[0].specifier, x2_2);
        pattern_tells(s[0].value, t[0].value, st, su, x1_1, x2_1);
        suffix_told(s[0].size, s[0].specifier, t[0].size, t[0].specifier, x1_2, x2_2);
        segment_patterns_tell(
            s.drop_first(),
            t.drop_first(),
            pattern_print(s[0].value, st).1,
            pattern_print(t[0].value, su).1,
            r,
            q,
        );
        segment_patterns_join(s, t);
    }
}

} // verus!
