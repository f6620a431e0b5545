//! Fingerprints as texts: words, what ends them, and the words that open the
//! fingerprint of each kind of expression and pattern.
use vstd::prelude::*;
use crate::ast::{BinOp, BinarySegmentSpecifier, Expr, Pattern, UnaryOp};
use crate::fingerprint::{
    binop_name, bool_text, bound, bound_params, expr_print, pattern_print, piped, specifier_name,
    unop_name, Locals, Scope,
};
use crate::names::found;
use crate::print_twin::{decimal_injective, decimal_round_trip};
use crate::text::{decimal, decimal_int, joined};

verus! {

/// Whether a character ends a word of a fingerprint.
pub open spec fn is_stop(c: char) -> bool {
    c == ',' || c == ':' || c == ';' || c == '(' || c == ')' || c == '|' || c == '=' || c == '['
        || c == ']' || c == '/'
}

/// Whether nothing in a text ends a word.
pub open spec fn is_word(t: Seq<char>) -> bool {
    forall|i: int| 0 <= i < t.len() ==> !is_stop(#[trigger] t[i])
}

/// Whether a text is empty or ends the word before it.
pub open spec fn begins(t: Seq<char>) -> bool {
    t.len() > 0 ==> is_stop(t[0])
}

/// Whether a text ends the word before it.
pub open spec fn closes(t: Seq<char>) -> bool {
    t.len() > 0 && is_stop(t[0])
}

/// Whether a text may follow the fingerprint of an expression: it ends the
/// word before it and does not go on with a path.
pub open spec fn is_rest(t: Seq<char>) -> bool {
    begins(t) && !(t.len() > 1 && t[0] == ':' && t[1] == ':')
}

/// Where a word ends is known from what follows it.
pub proof fn cut(a: Seq<char>, x: Seq<char>, b: Seq<char>, y: Seq<char>)
    requires
        is_word(a),
        is_word(b),
        begins(x),
        begins(y),
        a + x == b + y,
    ensures
        a == b,
        x == y,
{
    let t = a + x;
    assert(t.len() == a.len() + x.len());
    assert(t.len() == b.len() + y.len());
    if a.len() < b.len() {
        assert(t[a.len() as int] == b[a.len() as int]);
        assert(t[a.len() as int] == x[0]);
    } else if b.len() < a.len() {
        assert(t[b.len() as int] == a[b.len() as int]);
        assert(t[b.len() as int] == y[0]);
    }
    strip_two(a, x, b, y);
}

pub proof fn strip_two(a: Seq<char>, x: Seq<char>, b: Seq<char>, y: Seq<char>)
    requires
        a.len() == b.len(),
        a + x == b + y,
    ensures
        a == b,
        x == y,
{
    assert(a =~= (a + x).take(a.len() as int));
    assert(b =~= (b + y).take(a.len() as int));
    assert(x =~= (a + x).skip(a.len() as int));
    assert(y =~= (b + y).skip(a.len() as int));
}

pub proof fn strip(a: Seq<char>, x: Seq<char>, y: Seq<char>)
    requires
        a + x == a + y,
    ensures
        x == y,
{
    strip_two(a, x, a, y);
}

pub proof fn nothing_before(r: Seq<char>)
    ensures
        Seq::<char>::empty() + r == r,
        r + Seq::<char>::empty() == r,
{
    assert(Seq::<char>::empty() + r =~= r);
    assert(r + Seq::<char>::empty() =~= r);
}

/// A text led by what ends a word, other than a colon, is a rest.
pub proof fn rest_led(l: Seq<char>, x: Seq<char>)
    requires
        l.len() > 0,
        is_stop(l[0]),
        l[0] != ':',
    ensures
        is_rest(l + x),
{
    assert((l + x)[0] == l[0]);
}

/// A colon before what opens with another character is a rest.
pub proof fn rest_colon(x: Seq<char>)
    requires
        x.len() > 0,
        x[0] != ':',
    ensures
        is_rest(":"@ + x),
{
    reveal_strlit(":");
    assert((":"@ + x)[1] == x[0]);
}

pub proof fn nest2(a: Seq<char>, b: Seq<char>, r: Seq<char>)
    ensures
        a + b + r == a + (b + r),
{
    assert(a + b + r =~= a + (b + r));
}

pub proof fn nest3(a: Seq<char>, b: Seq<char>, c: Seq<char>, r: Seq<char>)
    ensures
        a + b + c + r == a + (b + (c + r)),
{
    assert(a + b + c + r =~= (a + b) + (c + r));
    nest2(a, b, c + r);
}

pub proof fn nest4(a: Seq<char>, b: Seq<char>, c: Seq<char>, d: Seq<char>, r: Seq<char>)
    ensures
        a + b + c + d + r == a + (b + (c + (d + r))),
{
    assert(a + b + c + d + r =~= (a + b + c) + (d + r));
    nest3(a, b, c, d + r);
}

pub proof fn nest5(
    a: Seq<char>,
    b: Seq<char>,
    c: Seq<char>,
    d: Seq<char>,
    e: Seq<char>,
    r: Seq<char>,
)
    ensures
        a + b + c + d + e + r == a + (b + (c + (d + (e + r)))),
{
    assert(a + b + c + d + e + r =~= (a + b + c + d) + (e + r));
    nest4(a, b, c, d, e + r);
}

pub proof fn nest6(
    a: Seq<char>,
    b: Seq<char>,
    c: Seq<char>,
    d: Seq<char>,
    e: Seq<char>,
    f: Seq<char>,
    r: Seq<char>,
)
    ensures
        a + b + c + d + e + f + r == a + (b + (c + (d + (e + (f + r))))),
{
    assert(a + b + c + d + e + f + r =~= (a + b + c + d + e) + (f + r));
    nest5(a, b, c, d, e, f + r);
}

pub proof fn nest7(
    a: Seq<char>,
    b: Seq<char>,
    c: Seq<char>,
    d: Seq<char>,
    e: Seq<char>,
    f: Seq<char>,
    g: Seq<char>,
    r: Seq<char>,
)
    ensures
        a + b + c + d + e + f + g + r == a + (b + (c + (d + (e + (f + (g + r)))))),
{
    assert(a + b + c + d + e + f + g + r =~= (a + b + c + d + e + f) + (g + r));
    nest6(a, b, c, d, e, f, g + r);
}

pub proof fn nest8(
    a: Seq<char>,
    b: Seq<char>,
    c: Seq<char>,
    d: Seq<char>,
    e: Seq<char>,
    f: Seq<char>,
    g: Seq<char>,
    h: Seq<char>,
    r: Seq<char>,
)
    ensures
        a + b + c + d + e + f + g + h + r == a + (b + (c + (d + (e + (f + (g + (h + r))))))),
{
    assert(a + b + c + d + e + f + g + h + r =~= (a + b + c + d + e + f + g) + (h + r));
    nest7(a, b, c, d, e, f, g, h + r);
}

pub proof fn slide1(x: Seq<char>, t: Seq<char>, y: Seq<char>)
    ensures
        x + t + y == x + (t + y),
{
    assert((x + t) + y =~= x + ((t) + y));
}

pub proof fn slide2(x: Seq<char>, t: Seq<char>, y: Seq<char>, z: Seq<char>)
    ensures
        x + t + y + z == x + (t + y + z),
{
    assert((x + t) + y =~= x + ((t) + y));
    assert((x + (t + y)) + z =~= x + ((t + y) + z));
}

pub proof fn slide3(x: Seq<char>, t: Seq<char>, y: Seq<char>, z: Seq<char>, u: Seq<char>)
    ensures
        x + t + y + z + u == x + (t + y + z + u),
{
    assert((x + t) + y =~= x + ((t) + y));
    assert((x + (t + y)) + z =~= x + ((t + y) + z));
    assert((x + (t + y + z)) + u =~= x + ((t + y + z) + u));
}

pub proof fn slide4(
    x: Seq<char>,
    t: Seq<char>,
    y: Seq<char>,
    z: Seq<char>,
    u: Seq<char>,
    v: Seq<char>,
)
    ensures
        x + t + y + z + u + v == x + (t + y + z + u + v),
{
    assert((x + t) + y =~= x + ((t) + y));
    assert((x + (t + y)) + z =~= x + ((t + y) + z));
    assert((x + (t + y + z)) + u =~= x + ((t + y + z) + u));
    assert((x + (t + y + z + u)) + v =~= x + ((t + y + z + u) + v));
}

pub proof fn decimal_is_word(n: nat)
    ensures
        is_word(decimal(n)),
        decimal(n).len() > 0,
{
    decimal_round_trip(n);
}

pub proof fn decimal_int_is_word(n: int)
    ensures
        is_word(decimal_int(n)),
{
    if n < 0 {
        decimal_is_word((-n) as nat);
    } else {
        decimal_is_word(n as nat);
    }
}

/// Different integers are written differently.
pub proof fn decimal_int_injective(m: int, n: int)
    requires
        decimal_int(m) == decimal_int(n),
    ensures
        m == n,
{
    decimal_round_trip(if m < 0 {
        (-m) as nat
    } else {
        m as nat
    });
    decimal_round_trip(if n < 0 {
        (-n) as nat
    } else {
        n as nat
    });
    if m < 0 && n < 0 {
        strip(seq!['-'], decimal((-m) as nat), decimal((-n) as nat));
        decimal_injective((-m) as nat, (-n) as nat);
    } else if m >= 0 && n >= 0 {
        decimal_injective(m as nat, n as nat);
    } else {
        assert(decimal_int(m)[0] == decimal_int(n)[0]);
        if m < 0 {
            assert(decimal(n as nat)[0] >= '0');
        } else {
            assert(decimal(m as nat)[0] >= '0');
        }
    }
}

/// Each has a name of its own, which is a word.
pub proof fn op_told(o: BinOp, p: BinOp)
    ensures
        is_word(binop_name(o)),
        is_word(binop_name(p)),
        binop_name(o) == binop_name(p) ==> o == p,
{
    reveal_strlit("Add");
    reveal_strlit("Sub");
    reveal_strlit("Mul");
    reveal_strlit("Div");
    reveal_strlit("Mod");
    reveal_strlit("Eq");
    reveal_strlit("NotEq");
    reveal_strlit("Lt");
    reveal_strlit("LtEq");
    reveal_strlit("Gt");
    reveal_strlit("GtEq");
    reveal_strlit("And");
    reveal_strlit("Or");
    reveal_strlit("Concat");
    reveal_strlit("Pipe");
    assert("Add"@.len() == 3);
    assert("Sub"@.len() == 3);
    assert("Mul"@.len() == 3);
    assert("Div"@.len() == 3);
    assert("Mod"@.len() == 3);
    assert("Eq"@.len() == 2);
    assert("NotEq"@.len() == 5);
    assert("Lt"@.len() == 2);
    assert("LtEq"@.len() == 4);
    assert("Gt"@.len() == 2);
    assert("GtEq"@.len() == 4);
    assert("And"@.len() == 3);
    assert("Or"@.len() == 2);
    assert("Concat"@.len() == 6);
    assert("Pipe"@.len() == 4);
    assert("Add"@[0] != "Sub"@[0]);
    assert("Add"@[0] != "Mul"@[0]);
    assert("Add"@[0] != "Div"@[0]);
    assert("Add"@[0] != "Mod"@[0]);
    assert("Add"@[1] != "And"@[1]);
    assert("Sub"@[0] != "Mul"@[0]);
    assert("Sub"@[0] != "Div"@[0]);
    assert("Sub"@[0] != "Mod"@[0]);
    assert("Sub"@[0] != "And"@[0]);
    assert("Mul"@[0] != "Div"@[0]);
    assert("Mul"@[1] != "Mod"@[1]);
    assert("Mul"@[0] != "And"@[0]);
    assert("Div"@[0] != "Mod"@[0]);
    assert("Div"@[0] != "And"@[0]);
    assert("Mod"@[0] != "And"@[0]);
    assert("Eq"@[0] != "Lt"@[0]);
    assert("Eq"@[0] != "Gt"@[0]);
    assert("Eq"@[0] != "Or"@[0]);
    assert("Lt"@[0] != "Gt"@[0]);
    assert("Lt"@[0] != "Or"@[0]);
    assert("LtEq"@[0] != "GtEq"@[0]);
    assert("LtEq"@[0] != "Pipe"@[0]);
    assert("Gt"@[0] != "Or"@[0]);
    assert("GtEq"@[0] != "Pipe"@[0]);
    assert(is_word("Add"@));
    assert(is_word("Sub"@));
    assert(is_word("Mul"@));
    assert(is_word("Div"@));
    assert(is_word("Mod"@));
    assert(is_word("Eq"@));
    assert(is_word("NotEq"@));
    assert(is_word("Lt"@));
    assert(is_word("LtEq"@));
    assert(is_word("Gt"@));
    assert(is_word("GtEq"@));
    assert(is_word("And"@));
    assert(is_word("Or"@));
    assert(is_word("Concat"@));
    assert(is_word("Pipe"@));
}

/// Each has a name of its own, which is a word.
pub proof fn unary_told(o: UnaryOp, p: UnaryOp)
    ensures
        is_word(unop_name(o)),
        is_word(unop_name(p)),
        unop_name(o) == unop_name(p) ==> o == p,
{
    reveal_strlit("Neg");
    reveal_strlit("Not");
    assert("Neg"@.len() == 3);
    assert("Not"@.len() == 3);
    assert("Neg"@[1] != "Not"@[1]);
    assert(is_word("Neg"@));
    assert(is_word("Not"@));
}

/// Each has a name of its own, which is a word.
pub proof fn specifier_told(o: BinarySegmentSpecifier, p: BinarySegmentSpecifier)
    ensures
        is_word(specifier_name(o)),
        is_word(specifier_name(p)),
        specifier_name(o) == specifier_name(p) ==> o == p,
{
    reveal_strlit("int");
    reveal_strlit("big");
    reveal_strlit("binary");
    reveal_strlit("utf8");
    assert("int"@.len() == 3);
    assert("big"@.len() == 3);
    assert("binary"@.len() == 6);
    assert("utf8"@.len() == 4);
    assert("int"@[0] != "big"@[0]);
    assert(is_word("int"@));
    assert(is_word("big"@));
    assert(is_word("binary"@));
    assert(is_word("utf8"@));
}

/// Each has a name of its own, which is a word.
pub proof fn bool_told(o: bool, p: bool)
    ensures
        is_word(bool_text(o)),
        is_word(bool_text(p)),
        bool_text(o) == bool_text(p) ==> o == p,
{
    reveal_strlit("true");
    reveal_strlit("false");
    assert("true"@.len() == 4);
    assert("false"@.len() == 5);
    assert(is_word("true"@));
    assert(is_word("false"@));
}

/// The kind of the expression whose fingerprint opens a text, or -1.
pub open spec fn which(t: Seq<char>) -> int {
    let c = t[0];
    if c == 'i' {
        if t[1] == 'f' {
            20
        } else if t[1] == 's' {
            4
        } else if t[2] == 't' {
            0
        } else {
            28
        }
    } else if c == 'f' {
        if t[1] == 'l' {
            1
        } else {
            27
        }
    } else if c == 'c' {
        if t[1] == 'h' {
            2
        } else if t[1] == 'o' {
            21
        } else {
            24
        }
    } else if c == 's' {
        if t[1] == 't' {
            if t[3] == 'i' {
                3
            } else {
                16
            }
        } else if t[1] == 'p' {
            30
        } else if t[2] == 'n' {
            31
        } else {
            33
        }
    } else if c == 'b' {
        if t[1] == 'o' {
            5
        } else if t[1] == 'l' {
            23
        } else if t[2] == 't' {
            17
        } else {
            18
        }
    } else if c == 'a' {
        6
    } else if c == 'u' {
        if t[2] == 'i' {
            7
        } else {
            19
        }
    } else if c == 'v' {
        8
    } else if c == 'g' {
        9
    } else if c == 't' {
        if t[1] == 'u' {
            10
        } else {
            35
        }
    } else if c == 'l' {
        if t[1] == 'a' {
            26
        } else if t[4] == 'c' {
            12
        } else {
            11
        }
    } else if c == 'r' {
        if t[1] == 'a' {
            13
        } else if t[2] == 't' {
            34
        } else if t[3] == 'o' {
            15
        } else {
            32
        }
    } else if c == 'm' {
        if t[1] == 'c' {
            25
        } else if t[2] == 'p' {
            14
        } else {
            22
        }
    } else if c == 'p' {
        if t[1] == 'a' {
            29
        } else if t[5] == 's' {
            36
        } else {
            37
        }
    } else {
        -1
    }
}

/// The kind of an expression, counted from zero: what a fingerprint tells of it
/// by its first word.
pub open spec fn kind(e: Expr, cx: Locals, st: Scope) -> int {
    match e {
        Expr::Int(_) => 0,
        Expr::Float(_) => 1,
        Expr::Char(_) => 2,
        Expr::String(_) => 3,
        Expr::InterpolatedString(_) => 4,
        Expr::Bool(_) => 5,
        Expr::Atom(_) => 6,
        Expr::Unit => 7,
        Expr::Var(name) => if found(st.names, name@) is Some {
            8
        } else {
            9
        },
        Expr::Tuple(_) => 10,
        Expr::List(_, _) => 11,
        Expr::ListComp { .. } => 12,
        Expr::Range(_, _, _) => 13,
        Expr::MapLit(_) => 14,
        Expr::Record(_) => 15,
        Expr::StructInit(_, _) => 16,
        Expr::BitString(_) => 17,
        Expr::Binary(_, op, right) => match piped(op, *right, cx) {
            Some(key) => if key == cx.current {
                36
            } else {
                37
            },
            None => 18,
        },
        Expr::Unary(_, _) => 19,
        Expr::If(_, _, _) => 20,
        Expr::Cond(_) => 21,
        Expr::Match(_, _) => 22,
        Expr::Block(_, _) => 23,
        Expr::Call(_, _) => 24,
        Expr::MethodCall(_, _, _) => 25,
        Expr::Lambda(_, _) => 26,
        Expr::Field(_, _) => 27,
        Expr::Index(_, _) => 28,
        Expr::Path(_) => 29,
        Expr::Spawn(_) => 30,
        Expr::Send(_, _) => 31,
        Expr::Receive { .. } => 32,
        Expr::SelfPid => 33,
        Expr::Return(_) => 34,
        Expr::Try { .. } => 35,
    }
}

/// The first word of a fingerprint tells the kind of the expression.
#[verifier::rlimit(100)]
#[verifier::spinoff_prover]
pub proof fn kind_shown(e: Expr, cx: Locals, st: Scope, c: Seq<Seq<char>>, r: Seq<char>)
    ensures
        which(expr_print(e, cx, st, c).0 + r) == kind(e, cx, st),
        expr_print(e, cx, st, c).0.len() > 0,
        (expr_print(e, cx, st, c).0 + r).len() > 0,
        !is_stop((expr_print(e, cx, st, c).0 + r)[0]),
{
    reveal_strlit("int:");
    reveal_strlit("float:");
    reveal_strlit("char:");
    reveal_strlit("string:");
    reveal_strlit("istr[");
    reveal_strlit("bool:");
    reveal_strlit("atom:");
    reveal_strlit("unit");
    reveal_strlit("var:");
    reveal_strlit("global:");
    reveal_strlit("tuple(");
    reveal_strlit("list(");
    reveal_strlit("listcomp(");
    reveal_strlit("range:");
    reveal_strlit("map(");
    reveal_strlit("record(");
    reveal_strlit("struct:");
    reveal_strlit("bits(");
    reveal_strlit("bin:");
    reveal_strlit("un:");
    reveal_strlit("if:");
    reveal_strlit("cond(");
    reveal_strlit("match:");
    reveal_strlit("block(");
    reveal_strlit("call(");
    reveal_strlit("mcall:");
    reveal_strlit("lambda:");
    reveal_strlit("field:");
    reveal_strlit("index:");
    reveal_strlit("path:");
    reveal_strlit("spawn:");
    reveal_strlit("send:");
    reveal_strlit("recv(");
    reveal_strlit("self");
    reveal_strlit("ret:");
    reveal_strlit("try:");
    reveal_strlit("pipe_self:1:");
    reveal_strlit("pipe_dep:1:");
    reveal_strlit("ret:none");
    let t = expr_print(e, cx, st, c).0;
    assert(kind(e, cx, st) >= 0);
    assert(which(t) == kind(e, cx, st) && t.len() > 2);
    assert(t[0] == (t + r)[0] && t[1] == (t + r)[1] && t[2] == (t + r)[2]);
    assert(t.len() > 5 ==> t[3] == (t + r)[3] && t[4] == (t + r)[4] && t[5] == (t + r)[5]);
    assert(t.len() > 4 ==> t[3] == (t + r)[3] && t[4] == (t + r)[4]);
}

/// The kind of the pattern whose fingerprint opens a text.
pub open spec fn which_pattern(t: Seq<char>) -> int {
    let c = t[0];
    if c == '_' {
        0
    } else if c == 'b' {
        if t[1] == 'o' {
            6
        } else if t[2] == 'n' {
            1
        } else {
            12
        }
    } else if c == 'i' {
        2
    } else if c == 'f' {
        3
    } else if c == 'c' {
        if t[1] == 'h' {
            4
        } else {
            10
        }
    } else if c == 's' {
        5
    } else if c == 'a' {
        7
    } else if c == 't' {
        if t[1] == 'u' {
            8
        } else {
            -1
        }
    } else if c == 'l' {
        9
    } else if c == 'r' {
        11
    } else if c == 'o' {
        13
    } else {
        -1
    }
}

/// The kind of a pattern, counted from zero.
pub open spec fn kind_of_pattern(p: Pattern) -> int {
    match p {
        Pattern::Wildcard => 0,
        Pattern::Var(_) => 1,
        Pattern::Int(_) => 2,
        Pattern::Float(_) => 3,
        Pattern::Char(_) => 4,
        Pattern::String(_) => 5,
        Pattern::Bool(_) => 6,
        Pattern::Atom(_) => 7,
        Pattern::Tuple(_) => 8,
        Pattern::List(_, _) => 9,
        Pattern::Constructor(_, _) => 10,
        Pattern::Record(_) => 11,
        Pattern::BitString(_) => 12,
        Pattern::Or(_, _) => 13,
    }
}

/// The first word of a fingerprint tells the kind of the pattern.
#[verifier::rlimit(60)]
#[verifier::spinoff_prover]
pub proof fn pattern_shown(p: Pattern, st: Scope, r: Seq<char>)
    ensures
        which_pattern(pattern_print(p, st).0 + r) == kind_of_pattern(p),
        (pattern_print(p, st).0 + r).len() > 0,
        !is_stop((pattern_print(p, st).0 + r)[0]),
{
    reveal_strlit("_");
    reveal_strlit("bind:");
    reveal_strlit("int:");
    reveal_strlit("float:");
    reveal_strlit("char:");
    reveal_strlit("string:");
    reveal_strlit("bool:");
    reveal_strlit("atom:");
    reveal_strlit("tuple(");
    reveal_strlit("list(");
    reveal_strlit("ctor:");
    reveal_strlit("record(");
    reveal_strlit("bits(");
    reveal_strlit("or:");
    let t = pattern_print(p, st).0;
    assert(which_pattern(t) == kind_of_pattern(p) && t.len() > 0);
    assert(p !is Wildcard ==> t.len() > 2);
    assert(t[0] == (t + r)[0]);
    assert(t.len() > 2 ==> t[1] == (t + r)[1] && t[2] == (t + r)[2]);
}

/// Whether the parts of a path are words.
pub open spec fn are_words(s: Seq<Seq<char>>) -> bool {
    forall|i: int| 0 <= i < s.len() ==> is_word(#[trigger] s[i])
}

/// Joined texts begin with the first of them.
pub proof fn joined_front(s: Seq<Seq<char>>, sep: Seq<char>)
    requires
        s.len() > 1,
    ensures
        joined(s, sep) == s[0] + (sep + joined(s.drop_first(), sep)),
    decreases s.len(),
{
    let m = s.drop_last();
    let d = s.drop_first();
    if s.len() == 2 {
        assert(joined(s, sep) == joined(m, sep) + sep + s[1]);
        nest2(s[0], sep, s[1]);
    } else {
        joined_front(m, sep);
        assert(m.drop_first() =~= d.drop_last());
        let t = joined(d.drop_last(), sep);
        assert(joined(d, sep) == t + sep + s.last());
        slide2(s[0] + sep, t, sep, s.last());
        nest2(s[0], sep, t);
        nest2(s[0], sep, t + sep + s.last());
    }
}

/// A path is known from its text.
pub proof fn path_told(s: Seq<Seq<char>>, t: Seq<Seq<char>>, x: Seq<char>, y: Seq<char>)
    requires
        s.len() > 0,
        t.len() > 0,
        are_words(s),
        are_words(t),
        is_rest(x),
        is_rest(y),
        joined(s, "::"@) + x == joined(t, "::"@) + y,
    ensures
        s == t,
        x == y,
    decreases s.len(),
{
    reveal_strlit("::");
    let ds = s.drop_first();
    let dt = t.drop_first();
    let u = joined(ds, "::"@) + x;
    let v = joined(dt, "::"@) + y;
    if s.len() > 1 {
        joined_front(s, "::"@);
        nest2(s[0], "::"@ + joined(ds, "::"@), x);
        nest2("::"@, joined(ds, "::"@), x);
        assert(joined(s, "::"@) + x == s[0] + ("::"@ + u));
        assert(("::"@ + u)[0] == ':' && ("::"@ + u)[1] == ':');
    }
    if t.len() > 1 {
        joined_front(t, "::"@);
        nest2(t[0], "::"@ + joined(dt, "::"@), y);
        nest2("::"@, joined(dt, "::"@), y);
        assert(joined(t, "::"@) + y == t[0] + ("::"@ + v));
        assert(("::"@ + v)[0] == ':' && ("::"@ + v)[1] == ':');
    }
    assert(is_word(s[0]) && is_word(t[0]));
    if s.len() > 1 && t.len() > 1 {
        cut(s[0], "::"@ + u, t[0], "::"@ + v);
        strip("::"@, u, v);
        assert forall|i: int| 0 <= i < ds.len() implies is_word(#[trigger] ds[i]) by {
            assert(ds[i] == s[i + 1]);
        }
        assert forall|i: int| 0 <= i < dt.len() implies is_word(#[trigger] dt[i]) by {
            assert(dt[i] == t[i + 1]);
        }
        path_told(ds, dt, x, y);
        assert forall|i: int| 0 <= i < s.len() implies s[i] == t[i] by {
            if i > 0 {
                assert(s[i] == ds[i - 1] && t[i] == dt[i - 1]);
            }
        }
        assert(s =~= t);
    } else if s.len() > 1 {
        cut(s[0], "::"@ + u, t[0], y);
    } else if t.len() > 1 {
        cut(s[0], x, t[0], "::"@ + v);
    } else {
        cut(s[0], x, t[0], y);
        assert(s =~= t);
    }
}

/// Whether the binders of a scope have numbers that are words.
pub open spec fn is_numbered(st: Scope) -> bool {
    forall|i: int| 0 <= i < st.names.len() ==> is_word((#[trigger] st.names[i]).1)
}

pub proof fn bound_numbered(st: Scope, name: Seq<char>)
    requires
        is_numbered(st),
    ensures
        is_numbered(bound(st, name)),
{
    decimal_is_word(st.next);
    let h = bound(st, name);
    assert forall|i: int| 0 <= i < h.names.len() implies is_word((#[trigger] h.names[i]).1) by {
        if i < st.names.len() {
            assert(h.names[i] == st.names[i]);
        }
    }
}

pub proof fn params_numbered(st: Scope, s: Seq<crate::ast::Param>)
    requires
        is_numbered(st),
    ensures
        is_numbered(bound_params(st, s)),
        bound_params(st, s).next == st.next + s.len(),
    decreases s.len(),
{
    if s.len() > 0 {
        params_numbered(st, s.drop_last());
        bound_numbered(bound_params(st, s.drop_last()), s.last().name@);
    }
}

pub proof fn found_is_word(s: Seq<(Seq<char>, Seq<char>)>, name: Seq<char>)
    requires
        forall|i: int| 0 <= i < s.len() ==> is_word((#[trigger] s[i]).1),
    ensures
        found(s, name) matches Some(id) ==> is_word(id),
    decreases s.len(),
{
    if s.len() > 0 {
        let m = s.drop_last();
        assert forall|i: int| 0 <= i < m.len() implies is_word((#[trigger] m[i]).1) by {
            assert(m[i] == s[i]);
        }
        assert(is_word(s[s.len() - 1].1));
        found_is_word(m, name);
    }
}

} // verus!
