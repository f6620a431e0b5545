//! Fingerprints: texts that describe a function's body and type without
//! the names of its parameters, of its local variables and of the local
//! functions that it calls.
use vstd::prelude::*;
use crate::ast::{
    path_parts, BinOp, BinarySegmentSpecifier, BitStringPatternSegment, BitStringSegment, CatchArm, Expr,
    Function, Generator, InterpolatedPart, MatchArm, Param, Path, Pattern, Stmt, TypeExpr, UnaryOp,
};
use crate::names::{found, text_of, NameMap};
use crate::text::{
    add_new, decimal, decimal_int, holds, join, joined, push_i64, push_u64, push_usize, same, texts,
    with_new, Counter,
};

verus! {

/// What names mean at a place in a function: the number that the next binder
/// gets, and the names bound so far with their binders' numbers in decimal.
/// A later binding hides an earlier one of the same name.
pub struct Scope {
    pub next: nat,
    pub names: Seq<(Seq<char>, Seq<char>)>,
}

/// The scope after one more binding.
pub open spec fn bound(st: Scope, name: Seq<char>) -> Scope {
    Scope { next: st.next + 1, names: st.names.push((name, decimal(st.next))) }
}

/// The scope after binding the parameters in order.
pub open spec fn bound_params(st: Scope, params: Seq<Param>) -> Scope
    decreases params.len(),
{
    if params.len() == 0 {
        st
    } else {
        bound(bound_params(st, params.drop_last()), params.last().name@)
    }
}

/// The scope of a function's body before its parameters are bound.
pub open spec fn empty_scope() -> Scope {
    Scope { next: 0, names: Seq::empty() }
}

/// The functions that a fingerprint leaves unnamed: the one at hand, and those
/// defined beside it, each as its name, a slash and its arity.
pub struct Locals {
    pub current: Seq<char>,
    pub keys: Seq<Seq<char>>,
}

/// The key of a function.
pub open spec fn function_key(name: Seq<char>, arity: nat) -> Seq<char> {
    name + "/"@ + decimal(arity)
}

/// A fingerprint with the keys of the local functions called so far.
pub type Print = (Seq<char>, Seq<Seq<char>>);

pub open spec fn bool_text(b: bool) -> Seq<char> {
    if b {
        "true"@
    } else {
        "false"@
    }
}

pub open spec fn binop_name(op: BinOp) -> Seq<char> {
    match op {
        BinOp::Add => "Add"@,
        BinOp::Sub => "Sub"@,
        BinOp::Mul => "Mul"@,
        BinOp::Div => "Div"@,
        BinOp::Mod => "Mod"@,
        BinOp::Eq => "Eq"@,
        BinOp::NotEq => "NotEq"@,
        BinOp::Lt => "Lt"@,
        BinOp::LtEq => "LtEq"@,
        BinOp::Gt => "Gt"@,
        BinOp::GtEq => "GtEq"@,
        BinOp::And => "And"@,
        BinOp::Or => "Or"@,
        BinOp::Concat => "Concat"@,
        BinOp::Pipe => "Pipe"@,
    }
}

pub open spec fn unop_name(op: UnaryOp) -> Seq<char> {
    match op {
        UnaryOp::Neg => "Neg"@,
        UnaryOp::Not => "Not"@,
    }
}

pub open spec fn specifier_name(s: BinarySegmentSpecifier) -> Seq<char> {
    match s {
        BinarySegmentSpecifier::Integer => "int"@,
        BinarySegmentSpecifier::BigInteger => "big"@,
        BinarySegmentSpecifier::Binary => "binary"@,
        BinarySegmentSpecifier::Utf8 => "utf8"@,
    }
}

/// What follows the fingerprint of a bit string segment's value.
pub open spec fn segment_suffix(size: Option<u32>, specifier: BinarySegmentSpecifier) -> Seq<char> {
    match size {
        Some(n) => ":"@ + decimal(n as nat) + "/"@ + specifier_name(specifier) + ","@,
        None => "/"@ + specifier_name(specifier) + ","@,
    }
}

/// The fingerprint of a pattern, and the scope that its binders leave.
pub open spec fn pattern_print(p: Pattern, st: Scope) -> (Seq<char>, Scope)
    decreases p,
{
    match p {
        Pattern::Wildcard => ("_"@, st),
        Pattern::Var(name) => ("bind:"@ + decimal(st.next), bound(st, name@)),
        Pattern::Int(n) => ("int:"@ + decimal_int(n as int), st),
        Pattern::Float(f) => ("float:"@ + f.text@, st),
        Pattern::Char(c) => ("char:"@.push(c), st),
        Pattern::String(s) => ("string:"@ + s@, st),
        Pattern::Bool(b) => ("bool:"@ + bool_text(b), st),
        Pattern::Atom(a) => ("atom:"@ + a@, st),
        Pattern::Tuple(items) => {
            let (t, s1) = patterns_print(items@, st);
            ("tuple("@ + t + ")"@, s1)
        },
        Pattern::List(items, tail) => {
            let (t, s1) = patterns_print(items@, st);
            match tail {
                Some(rest) => {
                    let (r, s2) = pattern_print(*rest, s1);
                    ("list("@ + t + "|"@ + r + ")"@, s2)
                },
                None => ("list("@ + t + ")"@, s1),
            }
        },
        Pattern::Constructor(path, fields) => {
            let (t, s1) = patterns_print(fields@, st);
            ("ctor:"@ + joined(path_parts(path), "::"@) + "("@ + t + ")"@, s1)
        },
        Pattern::Record(fields) => {
            let (t, s1) = field_patterns_print(fields@, st);
            ("record("@ + t + ")"@, s1)
        },
        Pattern::BitString(segments) => {
            let (t, s1) = segment_patterns_print(segments@, st);
            ("bits("@ + t + ")"@, s1)
        },
        Pattern::Or(left, right) => {
            let (l, s1) = pattern_print(*left, st);
            let (r, _) = pattern_print(*right, st);
            ("or:"@ + l + ":"@ + r, s1)
        },
    }
}

/// The fingerprints of patterns, a comma behind each.
pub open spec fn patterns_print(s: Seq<Pattern>, st: Scope) -> (Seq<char>, Scope)
    decreases s,
{
    if s.len() == 0 {
        (Seq::empty(), st)
    } else {
        let (t, s1) = patterns_print(s.drop_last(), st);
        let (x, s2) = pattern_print(s.last(), s1);
        (t + x + ","@, s2)
    }
}

pub open spec fn field_patterns_print(s: Seq<(String, Pattern)>, st: Scope) -> (Seq<char>, Scope)
    decreases s,
{
    if s.len() == 0 {
        (Seq::empty(), st)
    } else {
        let (t, s1) = field_patterns_print(s.drop_last(), st);
        let (x, s2) = pattern_print(s.last().1, s1);
        (t + s.last().0@ + ":"@ + x + ","@, s2)
    }
}

pub open spec fn segment_patterns_print(s: Seq<BitStringPatternSegment>, st: Scope) -> (
    Seq<char>,
    Scope,
)
    decreases s,
{
    if s.len() == 0 {
        (Seq::empty(), st)
    } else {
        let (t, s1) = segment_patterns_print(s.drop_last(), st);
        let (x, s2) = pattern_print(s.last().value, s1);
        (t + x + segment_suffix(s.last().size, s.last().specifier), s2)
    }
}

/// The fingerprint of an expression in scope `st`; `calls` are the local
/// functions called before it.
pub open spec fn expr_print(e: Expr, cx: Locals, st: Scope, calls: Seq<Seq<char>>) -> Print
    decreases e,
{
    match e {
        Expr::Int(n) => ("int:"@ + decimal_int(n as int), calls),
        Expr::Float(f) => ("float:"@ + f.text@, calls),
        Expr::Char(c) => ("char:"@.push(c), calls),
        Expr::String(s) => ("string:"@ + s@, calls),
        Expr::InterpolatedString(parts) => {
            let (t, c1) = parts_print(parts@, cx, st, calls);
            ("istr["@ + t + "]"@, c1)
        },
        Expr::Bool(b) => ("bool:"@ + bool_text(b), calls),
        Expr::Atom(a) => ("atom:"@ + a@, calls),
        Expr::Unit => ("unit"@, calls),
        Expr::Var(name) => match found(st.names, name@) {
            Some(id) => ("var:"@ + id, calls),
            None => ("global:"@ + name@, calls),
        },
        Expr::Tuple(items) => {
            let (t, c1) = exprs_print(items@, cx, st, calls);
            ("tuple("@ + t + ")"@, c1)
        },
        Expr::List(items, tail) => {
            let (t, c1) = exprs_print(items@, cx, st, calls);
            match tail {
                Some(rest) => {
                    let (r, c2) = expr_print(*rest, cx, st, c1);
                    ("list("@ + t + "|"@ + r + ")"@, c2)
                },
                None => ("list("@ + t + ")"@, c1),
            }
        },
        Expr::ListComp { expr, generators, filters } => {
            let (x, c1) = expr_print(*expr, cx, st, calls);
            let (g, inner, c2) = generators_print(generators@, cx, st, c1);
            let (f, c3) = filters_print(filters@, cx, inner, c2);
            ("listcomp("@ + x + g + f + ")"@, c3)
        },
        Expr::Range(a, b, inclusive) => {
            let (x, c1) = expr_print(*a, cx, st, calls);
            let (y, c2) = expr_print(*b, cx, st, c1);
            ("range:"@ + bool_text(inclusive) + ":"@ + x + ":"@ + y, c2)
        },
        Expr::MapLit(entries) => {
            let (t, c1) = pairs_print(entries@, cx, st, calls);
            ("map("@ + t + ")"@, c1)
        },
        Expr::Record(fields) => {
            let (t, c1) = fields_print(fields@, cx, st, calls);
            ("record("@ + t + ")"@, c1)
        },
        Expr::StructInit(name, fields) => {
            let (t, c1) = fields_print(fields@, cx, st, calls);
            ("struct:"@ + name@ + "("@ + t + ")"@, c1)
        },
        Expr::BitString(items) => {
            let (t, c1) = segments_print(items@, cx, st, calls);
            ("bits("@ + t + ")"@, c1)
        },
        Expr::Binary(left, op, right) => {
            let (l, c1) = expr_print(*left, cx, st, calls);
            let (r, c2) = expr_print(*right, cx, st, c1);
            match piped(op, *right, cx) {
                Some(key) => if key == cx.current {
                    ("pipe_self:1:"@ + l, with_new(c2, key))
                } else {
                    ("pipe_dep:1:"@ + l, with_new(c2, key))
                },
                None => ("bin:"@ + binop_name(op) + ":"@ + l + ":"@ + r, c2),
            }
        },
        Expr::Unary(op, inner) => {
            let (x, c1) = expr_print(*inner, cx, st, calls);
            ("un:"@ + unop_name(op) + ":"@ + x, c1)
        },
        Expr::If(c, t, e) => {
            let (x, c1) = expr_print(*c, cx, st, calls);
            let (y, c2) = expr_print(*t, cx, st, c1);
            let (z, c3) = match e {
                Some(other) => expr_print(*other, cx, st, c2),
                None => ("none"@, c2),
            };
            ("if:"@ + x + ":"@ + y + ":"@ + z, c3)
        },
        Expr::Cond(arms) => {
            let (t, c1) = pairs_print(arms@, cx, st, calls);
            ("cond("@ + t + ")"@, c1)
        },
        Expr::Match(scrutinee, arms) => {
            let (x, c1) = expr_print(*scrutinee, cx, st, calls);
            let (t, c2) = arms_print(arms@, cx, st, c1);
            ("match:"@ + x + "("@ + t + ")"@, c2)
        },
        Expr::Block(stmts, last) => {
            let (t, inner, c1) = stmts_print(stmts@, cx, st, calls);
            match last {
                Some(value) => {
                    let (x, c2) = expr_print(*value, cx, inner, c1);
                    ("block("@ + t + "final:"@ + x + ")"@, c2)
                },
                None => ("block("@ + t + ")"@, c1),
            }
        },
        Expr::Call(func, args) => {
            let (f, c1) = match called(*func, args@.len(), cx, st) {
                Some(key) => if key == cx.current {
                    ("self/"@ + decimal(args@.len()), with_new(calls, key))
                } else {
                    ("dep/"@ + decimal(args@.len()), with_new(calls, key))
                },
                None => expr_print(*func, cx, st, calls),
            };
            let (t, c2) = exprs_print(args@, cx, st, c1);
            ("call("@ + f + ";"@ + t + ")"@, c2)
        },
        Expr::MethodCall(obj, method, args) => {
            let (o, c1) = expr_print(*obj, cx, st, calls);
            let (t, c2) = exprs_print(args@, cx, st, c1);
            ("mcall:"@ + method@ + "("@ + o + ";"@ + t + ")"@, c2)
        },
        Expr::Lambda(params, body) => {
            let (b, c1) = expr_print(*body, cx, bound_params(st, params@), calls);
            ("lambda:"@ + decimal(params@.len()) + ":"@ + b, c1)
        },
        Expr::Field(obj, field) => {
            let (o, c1) = expr_print(*obj, cx, st, calls);
            ("field:"@ + field@ + ":"@ + o, c1)
        },
        Expr::Index(container, key) => {
            let (x, c1) = expr_print(*container, cx, st, calls);
            let (y, c2) = expr_print(*key, cx, st, c1);
            ("index:"@ + x + ":"@ + y, c2)
        },
        Expr::Path(parts) => ("path:"@ + joined(path_parts(parts), "::"@), calls),
        Expr::Spawn(inner) => {
            let (x, c1) = expr_print(*inner, cx, st, calls);
            ("spawn:"@ + x, c1)
        },
        Expr::Send(a, b) => {
            let (x, c1) = expr_print(*a, cx, st, calls);
            let (y, c2) = expr_print(*b, cx, st, c1);
            ("send:"@ + x + ":"@ + y, c2)
        },
        Expr::Receive { arms, timeout } => {
            let (t, c1) = arms_print(arms@, cx, st, calls);
            match timeout {
                Some((ms, body)) => {
                    let (x, c2) = expr_print(*ms, cx, st, c1);
                    let (y, c3) = expr_print(*body, cx, st, c2);
                    ("recv("@ + t + "timeout:"@ + x + ":"@ + y + ")"@, c3)
                },
                None => ("recv("@ + t + ")"@, c1),
            }
        },
        Expr::SelfPid => ("self"@, calls),
        Expr::Return(value) => match value {
            Some(inner) => {
                let (x, c1) = expr_print(*inner, cx, st, calls);
                ("ret:"@ + x, c1)
            },
            None => ("ret:none"@, calls),
        },
        Expr::Try { body, catch_arms } => {
            let (x, c1) = expr_print(*body, cx, st, calls);
            let (t, c2) = catch_arms_print(catch_arms@, cx, st, c1);
            ("try:"@ + x + "("@ + t + ")"@, c2)
        },
    }
}

/// The key of the local function that a value is piped into.
pub open spec fn piped(op: BinOp, right: Expr, cx: Locals) -> Option<Seq<char>> {
    match (op, right) {
        (BinOp::Pipe, Expr::Var(name)) => if cx.keys.contains(name@ + "/1"@) {
            Some(name@ + "/1"@)
        } else {
            None
        },
        _ => None,
    }
}

/// The key of the local function that a call names: its name is not bound.
pub open spec fn called(func: Expr, arity: nat, cx: Locals, st: Scope) -> Option<Seq<char>> {
    match func {
        Expr::Var(name) => if cx.keys.contains(function_key(name@, arity)) && found(
            st.names,
            name@,
        ) is None {
            Some(function_key(name@, arity))
        } else {
            None
        },
        _ => None,
    }
}

/// The fingerprints of expressions, a comma behind each.
pub open spec fn exprs_print(s: Seq<Expr>, cx: Locals, st: Scope, calls: Seq<Seq<char>>) -> Print
    decreases s,
{
    if s.len() == 0 {
        (Seq::empty(), calls)
    } else {
        let (t, c1) = exprs_print(s.drop_last(), cx, st, calls);
        let (x, c2) = expr_print(s.last(), cx, st, c1);
        (t + x + ","@, c2)
    }
}

/// The parts of an interpolated string.
pub open spec fn parts_print(s: Seq<InterpolatedPart>, cx: Locals, st: Scope, calls: Seq<Seq<char>>) -> Print
    decreases s,
{
    if s.len() == 0 {
        (Seq::empty(), calls)
    } else {
        let (t, c1) = parts_print(s.drop_last(), cx, st, calls);
        match s.last() {
            InterpolatedPart::Literal(l) => (t + "lit:"@ + l@ + ";"@, c1),
            InterpolatedPart::Expr(e) => {
                let (x, c2) = expr_print(e, cx, st, c1);
                (t + "expr:"@ + x + ";"@, c2)
            },
        }
    }
}

/// The filters of a list comprehension.
pub open spec fn filters_print(s: Seq<Expr>, cx: Locals, st: Scope, calls: Seq<Seq<char>>) -> Print
    decreases s,
{
    if s.len() == 0 {
        (Seq::empty(), calls)
    } else {
        let (t, c1) = filters_print(s.drop_last(), cx, st, calls);
        let (x, c2) = expr_print(s.last(), cx, st, c1);
        (t + "|filter:"@ + x, c2)
    }
}

/// Map entries, or the arms of a `cond`.
pub open spec fn pairs_print(s: Seq<(Expr, Expr)>, cx: Locals, st: Scope, calls: Seq<Seq<char>>) -> Print
    decreases s,
{
    if s.len() == 0 {
        (Seq::empty(), calls)
    } else {
        let (t, c1) = pairs_print(s.drop_last(), cx, st, calls);
        let (x, c2) = expr_print(s.last().0, cx, st, c1);
        let (y, c3) = expr_print(s.last().1, cx, st, c2);
        (t + x + "=>"@ + y + ","@, c3)
    }
}

/// The fields of a record or a struct.
pub open spec fn fields_print(s: Seq<(String, Expr)>, cx: Locals, st: Scope, calls: Seq<Seq<char>>) -> Print
    decreases s,
{
    if s.len() == 0 {
        (Seq::empty(), calls)
    } else {
        let (t, c1) = fields_print(s.drop_last(), cx, st, calls);
        let (x, c2) = expr_print(s.last().1, cx, st, c1);
        (t + s.last().0@ + ":"@ + x + ","@, c2)
    }
}

/// The segments of a bit string.
pub open spec fn segments_print(s: Seq<BitStringSegment>, cx: Locals, st: Scope, calls: Seq<Seq<char>>) -> Print
    decreases s,
{
    if s.len() == 0 {
        (Seq::empty(), calls)
    } else {
        let (t, c1) = segments_print(s.drop_last(), cx, st, calls);
        let (x, c2) = expr_print(s.last().value, cx, st, c1);
        (t + x + segment_suffix(s.last().size, s.last().specifier), c2)
    }
}

/// One arm of `match` or `receive`; its binders end with it.
pub open spec fn arm_print(arm: MatchArm, cx: Locals, st: Scope, calls: Seq<Seq<char>>) -> Print
    decreases arm,
{
    let (p, inner) = pattern_print(arm.pattern, st);
    let (g, c2) = match arm.guard {
        Some(guard) => expr_print(guard, cx, inner, calls),
        None => ("none"@, calls),
    };
    let (b, c3) = expr_print(arm.body, cx, inner, c2);
    (p + ":"@ + g + ":"@ + b + ","@, c3)
}

pub open spec fn catch_arm_print(arm: CatchArm, cx: Locals, st: Scope, calls: Seq<Seq<char>>) -> Print
    decreases arm,
{
    let (p, inner) = pattern_print(arm.pattern, st);
    let (b, c2) = expr_print(arm.body, cx, inner, calls);
    let class = match arm.class {
        Some(c) => c@,
        None => "_"@,
    };
    (class + ":"@ + p + ":"@ + b + ","@, c2)
}

/// The arms of `match` or `receive`.
pub open spec fn arms_print(s: Seq<MatchArm>, cx: Locals, st: Scope, calls: Seq<Seq<char>>) -> Print
    decreases s,
{
    if s.len() == 0 {
        (Seq::empty(), calls)
    } else {
        let (t, c1) = arms_print(s.drop_last(), cx, st, calls);
        let (x, c2) = arm_print(s.last(), cx, st, c1);
        (t + x, c2)
    }
}

/// The arms of `catch`.
pub open spec fn catch_arms_print(s: Seq<CatchArm>, cx: Locals, st: Scope, calls: Seq<Seq<char>>) -> Print
    decreases s,
{
    if s.len() == 0 {
        (Seq::empty(), calls)
    } else {
        let (t, c1) = catch_arms_print(s.drop_last(), cx, st, calls);
        let (x, c2) = catch_arm_print(s.last(), cx, st, c1);
        (t + x, c2)
    }
}

/// The generators of a list comprehension: each sees the binders of those before it.
pub open spec fn generators_print(
    s: Seq<Generator>,
    cx: Locals,
    st: Scope,
    calls: Seq<Seq<char>>,
) -> (Seq<char>, Scope, Seq<Seq<char>>)
    decreases s,
{
    if s.len() == 0 {
        (Seq::empty(), st, calls)
    } else {
        let (t, s1, c1) = generators_print(s.drop_last(), cx, st, calls);
        let (x, c2) = expr_print(s.last().source, cx, s1, c1);
        let (p, s2) = pattern_print(s.last().pattern, s1);
        (t + "|gen:"@ + x + "|"@ + p, s2, c2)
    }
}

/// The statements of a block: each sees the binders of those before it.
pub open spec fn stmts_print(s: Seq<Stmt>, cx: Locals, st: Scope, calls: Seq<Seq<char>>) -> (
    Seq<char>,
    Scope,
    Seq<Seq<char>>,
)
    decreases s,
{
    if s.len() == 0 {
        (Seq::empty(), st, calls)
    } else {
        let (t, s1, c1) = stmts_print(s.drop_last(), cx, st, calls);
        match s.last() {
            Stmt::Let(pattern, init) => {
                let (x, c2) = expr_print(init, cx, s1, c1);
                let (p, s2) = pattern_print(pattern, s1);
                (t + "let:"@ + p + "="@ + x + ";"@, s2, c2)
            },
            Stmt::Expr(e) => {
                let (x, c2) = expr_print(e, cx, s1, c1);
                (t + "expr:"@ + x + ";"@, s1, c2)
            },
        }
    }
}

/// The fingerprint of a function's body, and the local functions that it calls.
pub open spec fn function_print(func: Function, cx: Locals) -> Print {
    let (b, calls) = expr_print(
        func.body,
        cx,
        bound_params(empty_scope(), func.params@),
        Seq::empty(),
    );
    (
        "fn$arity:"@ + decimal(func.params@.len()) + "|params:"@ + decimal(func.params@.len()) + "|"@
            + "body:"@ + b,
        calls,
    )
}

/// The last place at which `name` stands among the type parameters.
pub open spec fn type_param(params: Seq<Seq<char>>, name: Seq<char>) -> Option<nat>
    decreases params.len(),
{
    if params.len() == 0 {
        None
    } else if params.last() == name {
        Some((params.len() - 1) as nat)
    } else {
        type_param(params.drop_last(), name)
    }
}

/// The fingerprint of a type: its parameters stand for their places.
pub open spec fn type_print(ty: TypeExpr, params: Seq<Seq<char>>) -> Seq<char>
    decreases ty,
{
    match ty {
        TypeExpr::Named(name, args) => match type_param(params, name@) {
            Some(index) => "tvar:"@ + decimal(index),
            None => "named:"@ + name@ + "["@ + types_print(args@, params) + "]"@,
        },
        TypeExpr::Tuple(items) => "tuple("@ + types_print(items@, params) + ")"@,
        TypeExpr::Function(from, to) => "fun("@ + types_print(from@, params) + ")->"@ + type_print(
            *to,
            params,
        ),
        TypeExpr::Record(fields) => "record("@ + field_types_print(fields@, params) + ")"@,
        TypeExpr::Unit => "unit"@,
    }
}

pub open spec fn types_print(s: Seq<TypeExpr>, params: Seq<Seq<char>>) -> Seq<char>
    decreases s,
{
    if s.len() == 0 {
        Seq::empty()
    } else {
        types_print(s.drop_last(), params) + type_print(s.last(), params) + ","@
    }
}

pub open spec fn field_types_print(s: Seq<(String, TypeExpr)>, params: Seq<Seq<char>>) -> Seq<char>
    decreases s,
{
    if s.len() == 0 {
        Seq::empty()
    } else {
        field_types_print(s.drop_last(), params) + s.last().0@ + ":"@ + type_print(
            s.last().1,
            params,
        ) + ","@
    }
}

pub open spec fn optional_type_print(ty: Option<TypeExpr>, params: Seq<Seq<char>>) -> Seq<char> {
    match ty {
        Some(t) => type_print(t, params),
        None => "_"@,
    }
}

/// The types of the parameters, one text each.
pub open spec fn param_types(s: Seq<Param>, params: Seq<Seq<char>>) -> Seq<Seq<char>> {
    Seq::new(s.len(), |i: int| optional_type_print(s[i].ty, params))
}

/// The fingerprint of a function's type.
pub open spec fn abi_print(func: Function) -> Seq<char> {
    let tp = texts(func.type_params@);
    "fn$arity:"@ + decimal(func.params@.len()) + "|type_params:"@ + decimal(func.type_params@.len())
        + "|params:["@ + joined(param_types(func.params@, tp), ","@) + "]|return:"@
        + optional_type_print(func.return_type, tp)
}

/// The executable scope.
pub struct FingerprintState {
    next_binder_id: Counter,
    names: NameMap,
}

impl FingerprintState {
    pub closed spec fn scope(self) -> Scope {
        Scope { next: self.next_binder_id.value(), names: self.names.model() }
    }

    pub fn new() -> (r: Self)
        ensures
            r.scope() == empty_scope(),
    {
        FingerprintState { next_binder_id: Counter::new(), names: NameMap::new() }
    }

    pub fn dup(&self) -> (r: Self)
        ensures
            r.scope() == self.scope(),
    {
        FingerprintState { next_binder_id: self.next_binder_id.dup(), names: self.names.dup() }
    }

    /// Binds a name and returns its binder's number in decimal.
    pub fn bind(&mut self, name: &str) -> (r: String)
        ensures
            r@ == decimal(old(self).scope().next),
            final(self).scope() == bound(old(self).scope(), name@),
    {
        let id = self.next_binder_id.text();
        self.next_binder_id = self.next_binder_id.next();
        self.names.insert(name, id.as_str());
        id
    }

    pub fn bind_params(&mut self, params: &Vec<Param>)
        ensures
            final(self).scope() == bound_params(old(self).scope(), params@),
    {
        let ghost start = self.scope();
        let mut i: usize = 0;
        assert(params@.take(0) =~= Seq::empty());
        while i < params.len()
            invariant
                i <= params@.len(),
                self.scope() == bound_params(start, params@.take(i as int)),
            decreases params@.len() - i,
        {
            assert(params@.take(i as int + 1).drop_last() =~= params@.take(i as int));
            let _ = self.bind(params[i].name.as_str());
            i = i + 1;
        }
        assert(params@.take(i as int) =~= params@);
    }

    /// The number of the latest binder of `name` in decimal.
    pub fn lookup(&self, name: &str) -> (r: Option<String>)
        ensures
            text_of(r) == found(self.scope().names, name@),
    {
        self.names.get(name)
    }
}

/// The executable form of [`Locals`].
pub struct LocalKeys {
    pub current: String,
    pub keys: Vec<String>,
}

impl LocalKeys {
    pub open spec fn model(self) -> Locals {
        Locals { current: self.current@, keys: texts(self.keys@) }
    }
}

/// The key of a function: its name, a slash and its arity.
pub fn key_of(name: &str, arity: usize) -> (r: String)
    ensures
        r@ == function_key(name@, arity as nat),
{
    let mut t = name.to_owned();
    t.append("/");
    push_usize(&mut t, arity);
    t
}

/// The parts of a path with `::` between them.
fn path_text(p: &Path) -> (r: String)
    ensures
        r@ == joined(path_parts(*p), "::"@),
{
    let ghost parts = path_parts(*p);
    assert(parts.drop_last() =~= texts(p.qualifiers@));
    if p.qualifiers.len() == 0 {
        p.name.clone()
    } else {
        let mut t = join(&p.qualifiers, "::");
        t.append("::");
        t.append(p.name.as_str());
        t
    }
}

fn bool_name(b: bool) -> (r: String)
    ensures
        r@ == bool_text(b),
{
    if b {
        "true".to_owned()
    } else {
        "false".to_owned()
    }
}

fn op_name(op: BinOp) -> (r: String)
    ensures
        r@ == binop_name(op),
{
    match op {
        BinOp::Add => "Add".to_owned(),
        BinOp::Sub => "Sub".to_owned(),
        BinOp::Mul => "Mul".to_owned(),
        BinOp::Div => "Div".to_owned(),
        BinOp::Mod => "Mod".to_owned(),
        BinOp::Eq => "Eq".to_owned(),
        BinOp::NotEq => "NotEq".to_owned(),
        BinOp::Lt => "Lt".to_owned(),
        BinOp::LtEq => "LtEq".to_owned(),
        BinOp::Gt => "Gt".to_owned(),
        BinOp::GtEq => "GtEq".to_owned(),
        BinOp::And => "And".to_owned(),
        BinOp::Or => "Or".to_owned(),
        BinOp::Concat => "Concat".to_owned(),
        BinOp::Pipe => "Pipe".to_owned(),
    }
}

fn unary_name(op: UnaryOp) -> (r: String)
    ensures
        r@ == unop_name(op),
{
    match op {
        UnaryOp::Neg => "Neg".to_owned(),
        UnaryOp::Not => "Not".to_owned(),
    }
}

fn suffix(size: Option<u32>, specifier: BinarySegmentSpecifier) -> (r: String)
    ensures
        r@ == segment_suffix(size, specifier),
{
    let mut t = match size {
        Some(n) => {
            let mut t = ":".to_owned();
            push_u64(&mut t, n as u64);
            t.append("/");
            t
        },
        None => "/".to_owned(),
    };
    match specifier {
        BinarySegmentSpecifier::Integer => t.append("int"),
        BinarySegmentSpecifier::BigInteger => t.append("big"),
        BinarySegmentSpecifier::Binary => t.append("binary"),
        BinarySegmentSpecifier::Utf8 => t.append("utf8"),
    }
    t.append(",");
    t
}

/// The fingerprint of a pattern; its variables are bound in `st`.
pub fn pattern_fingerprint(pattern: &Pattern, st: &mut FingerprintState) -> (r: String)
    ensures
        (r@, final(st).scope()) == pattern_print(*pattern, old(st).scope()),
    decreases pattern,
{
    match pattern {
        Pattern::Wildcard => "_".to_owned(),
        Pattern::Var(name) => {
            let mut t = "bind:".to_owned();
            t.append(st.bind(name.as_str()).as_str());
            t
        },
        Pattern::Int(n) => {
            let mut t = "int:".to_owned();
            push_i64(&mut t, *n);
            t
        },
        Pattern::Float(f) => {
            let mut t = "float:".to_owned();
            t.append(f.text.as_str());
            t
        },
        Pattern::Char(c) => {
            let mut t = "char:".to_owned();
            t.push(*c);
            t
        },
        Pattern::String(s) => {
            let mut t = "string:".to_owned();
            t.append(s.as_str());
            t
        },
        Pattern::Bool(b) => {
            let mut t = "bool:".to_owned();
            t.append(bool_name(*b).as_str());
            t
        },
        Pattern::Atom(a) => {
            let mut t = "atom:".to_owned();
            t.append(a.as_str());
            t
        },
        Pattern::Tuple(items) => {
            let mut t = "tuple(".to_owned();
            t.append(patterns_fingerprint(items, st).as_str());
            t.append(")");
            t
        },
        Pattern::List(items, tail) => {
            let mut t = "list(".to_owned();
            t.append(patterns_fingerprint(items, st).as_str());
            match tail {
                Some(rest) => {
                    t.append("|");
                    t.append(pattern_fingerprint(rest, st).as_str());
                },
                None => {},
            }
            t.append(")");
            t
        },
        Pattern::Constructor(path, fields) => {
            let mut t = "ctor:".to_owned();
            t.append(path_text(path).as_str());
            t.append("(");
            t.append(patterns_fingerprint(fields, st).as_str());
            t.append(")");
            t
        },
        Pattern::Record(fields) => {
            let mut t = "record(".to_owned();
            t.append(field_patterns_fingerprint(fields, st).as_str());
            t.append(")");
            t
        },
        Pattern::BitString(segments) => {
            let mut t = "bits(".to_owned();
            t.append(segment_patterns_fingerprint(segments, st).as_str());
            t.append(")");
            t
        },
        Pattern::Or(left, right) => {
            let mut other = st.dup();
            let l = pattern_fingerprint(left, st);
            let r = pattern_fingerprint(right, &mut other);
            let mut t = "or:".to_owned();
            t.append(l.as_str());
            t.append(":");
            t.append(r.as_str());
            t
        },
    }
}

fn patterns_fingerprint(s: &Vec<Pattern>, st: &mut FingerprintState) -> (r: String)
    ensures
        (r@, final(st).scope()) == patterns_print(s@, old(st).scope()),
    decreases s,
{
    let ghost start = st.scope();
    let mut t = String::new();
    let mut i: usize = 0;
    while i < s.len()
        invariant
            i <= s@.len(),
            (t@, st.scope()) == patterns_print(s@.take(i as int), start),
        decreases s@.len() - i,
    {
        assert(s@.take(i as int + 1).drop_last() =~= s@.take(i as int));
        t.append(pattern_fingerprint(&s[i], st).as_str());
        t.append(",");
        i = i + 1;
    }
    assert(s@.take(i as int) =~= s@);
    t
}

fn field_patterns_fingerprint(s: &Vec<(String, Pattern)>, st: &mut FingerprintState) -> (r: String)
    ensures
        (r@, final(st).scope()) == field_patterns_print(s@, old(st).scope()),
    decreases s,
{
    let ghost start = st.scope();
    let mut t = String::new();
    let mut i: usize = 0;
    while i < s.len()
        invariant
            i <= s@.len(),
            (t@, st.scope()) == field_patterns_print(s@.take(i as int), start),
        decreases s@.len() - i,
    {
        assert(s@.take(i as int + 1).drop_last() =~= s@.take(i as int));
        t.append(s[i].0.as_str());
        t.append(":");
        t.append(pattern_fingerprint(&s[i].1, st).as_str());
        t.append(",");
        i = i + 1;
    }
    assert(s@.take(i as int) =~= s@);
    t
}

fn segment_patterns_fingerprint(s: &Vec<BitStringPatternSegment>, st: &mut FingerprintState) -> (r: String)
    ensures
        (r@, final(st).scope()) == segment_patterns_print(s@, old(st).scope()),
    decreases s,
{
    let ghost start = st.scope();
    let mut t = String::new();
    let mut i: usize = 0;
    while i < s.len()
        invariant
            i <= s@.len(),
            (t@, st.scope()) == segment_patterns_print(s@.take(i as int), start),
        decreases s@.len() - i,
    {
        assert(s@.take(i as int + 1).drop_last() =~= s@.take(i as int));
        t.append(pattern_fingerprint(&s[i].value, st).as_str());
        t.append(suffix(s[i].size, s[i].specifier).as_str());
        i = i + 1;
    }
    assert(s@.take(i as int) =~= s@);
    t
}

fn piped_key(op: BinOp, right: &Expr, cx: &LocalKeys) -> (r: Option<String>)
    ensures
        text_of(r) == piped(op, *right, cx.model()),
{
    match (op, right) {
        (BinOp::Pipe, Expr::Var(name)) => {
            let mut key = name.clone();
            key.append("/1");
            if holds(&cx.keys, key.as_str()) {
                Some(key)
            } else {
                None
            }
        },
        _ => None,
    }
}

fn called_key(func: &Expr, arity: usize, cx: &LocalKeys, st: &FingerprintState) -> (r: Option<
    String,
>)
    ensures
        text_of(r) == called(*func, arity as nat, cx.model(), st.scope()),
{
    match func {
        Expr::Var(name) => {
            let key = key_of(name.as_str(), arity);
            if holds(&cx.keys, key.as_str()) && st.lookup(name.as_str()).is_none() {
                Some(key)
            } else {
                None
            }
        },
        _ => None,
    }
}

/// The fingerprint of an expression; the local functions that it calls are
/// added to `calls`.
pub fn expr_fingerprint(
    expr: &Expr,
    cx: &LocalKeys,
    st: &FingerprintState,
    calls: &mut Vec<String>,
) -> (r: String)
    ensures
        (r@, texts(final(calls)@)) == expr_print(
            *expr,
            cx.model(),
            st.scope(),
            texts(old(calls)@),
        ),
    decreases expr,
{
    match expr {
        Expr::Int(n) => {
            let mut t = "int:".to_owned();
            push_i64(&mut t, *n);
            t
        },
        Expr::Float(f) => {
            let mut t = "float:".to_owned();
            t.append(f.text.as_str());
            t
        },
        Expr::Char(c) => {
            let mut t = "char:".to_owned();
            t.push(*c);
            t
        },
        Expr::String(s) => {
            let mut t = "string:".to_owned();
            t.append(s.as_str());
            t
        },
        Expr::InterpolatedString(parts) => {
            let mut t = "istr[".to_owned();
            t.append(parts_fingerprint(parts, cx, st, calls).as_str());
            t.append("]");
            t
        },
        Expr::Bool(b) => {
            let mut t = "bool:".to_owned();
            t.append(bool_name(*b).as_str());
            t
        },
        Expr::Atom(a) => {
            let mut t = "atom:".to_owned();
            t.append(a.as_str());
            t
        },
        Expr::Unit => "unit".to_owned(),
        Expr::Var(name) => match st.lookup(name.as_str()) {
            Some(id) => {
                let mut t = "var:".to_owned();
                t.append(id.as_str());
                t
            },
            None => {
                let mut t = "global:".to_owned();
                t.append(name.as_str());
                t
            },
        },
        Expr::Tuple(items) => {
            let mut t = "tuple(".to_owned();
            t.append(exprs_fingerprint(items, cx, st, calls).as_str());
            t.append(")");
            t
        },
        Expr::List(items, tail) => {
            let mut t = "list(".to_owned();
            t.append(exprs_fingerprint(items, cx, st, calls).as_str());
            match tail {
                Some(rest) => {
                    t.append("|");
                    t.append(expr_fingerprint(rest, cx, st, calls).as_str());
                },
                None => {},
            }
            t.append(")");
            t
        },
        Expr::ListComp { expr, generators, filters } => {
            let mut t = "listcomp(".to_owned();
            t.append(expr_fingerprint(expr, cx, st, calls).as_str());
            let mut inner = st.dup();
            t.append(generators_fingerprint(generators, cx, &mut inner, calls).as_str());
            t.append(filters_fingerprint(filters, cx, &inner, calls).as_str());
            t.append(")");
            t
        },
        Expr::Range(a, b, inclusive) => {
            let mut t = "range:".to_owned();
            t.append(bool_name(*inclusive).as_str());
            t.append(":");
            t.append(expr_fingerprint(a, cx, st, calls).as_str());
            t.append(":");
            t.append(expr_fingerprint(b, cx, st, calls).as_str());
            t
        },
        Expr::MapLit(entries) => {
            let mut t = "map(".to_owned();
            t.append(pairs_fingerprint(entries, cx, st, calls).as_str());
            t.append(")");
            t
        },
        Expr::Record(fields) => {
            let mut t = "record(".to_owned();
            t.append(fields_fingerprint(fields, cx, st, calls).as_str());
            t.append(")");
            t
        },
        Expr::StructInit(name, fields) => {
            let mut t = "struct:".to_owned();
            t.append(name.as_str());
            t.append("(");
            t.append(fields_fingerprint(fields, cx, st, calls).as_str());
            t.append(")");
            t
        },
        Expr::BitString(items) => {
            let mut t = "bits(".to_owned();
            t.append(segments_fingerprint(items, cx, st, calls).as_str());
            t.append(")");
            t
        },
        Expr::Binary(left, op, right) => {
            let l = expr_fingerprint(left, cx, st, calls);
            let r = expr_fingerprint(right, cx, st, calls);
            match piped_key(*op, right, cx) {
                Some(key) => {
                    add_new(calls, key.as_str());
                    let mut t = if same(key.as_str(), cx.current.as_str()) {
                        "pipe_self:1:".to_owned()
                    } else {
                        "pipe_dep:1:".to_owned()
                    };
                    t.append(l.as_str());
                    t
                },
                None => {
                    let mut t = "bin:".to_owned();
                    t.append(op_name(*op).as_str());
                    t.append(":");
                    t.append(l.as_str());
                    t.append(":");
                    t.append(r.as_str());
                    t
                },
            }
        },
        Expr::Unary(op, inner) => {
            let mut t = "un:".to_owned();
            t.append(unary_name(*op).as_str());
            t.append(":");
            t.append(expr_fingerprint(inner, cx, st, calls).as_str());
            t
        },
        Expr::If(c, then_branch, else_branch) => {
            let mut t = "if:".to_owned();
            t.append(expr_fingerprint(c, cx, st, calls).as_str());
            t.append(":");
            t.append(expr_fingerprint(then_branch, cx, st, calls).as_str());
            t.append(":");
            match else_branch {
                Some(other) => t.append(expr_fingerprint(other, cx, st, calls).as_str()),
                None => t.append("none"),
            }
            t
        },
        Expr::Cond(arms) => {
            let mut t = "cond(".to_owned();
            t.append(pairs_fingerprint(arms, cx, st, calls).as_str());
            t.append(")");
            t
        },
        Expr::Match(scrutinee, arms) => {
            let mut t = "match:".to_owned();
            t.append(expr_fingerprint(scrutinee, cx, st, calls).as_str());
            t.append("(");
            t.append(arms_fingerprint(arms, cx, st, calls).as_str());
            t.append(")");
            t
        },
        Expr::Block(stmts, last) => {
            let mut t = "block(".to_owned();
            let mut inner = st.dup();
            t.append(stmts_fingerprint(stmts, cx, &mut inner, calls).as_str());
            match last {
                Some(value) => {
                    t.append("final:");
                    t.append(expr_fingerprint(value, cx, &inner, calls).as_str());
                },
                None => {},
            }
            t.append(")");
            t
        },
        Expr::Call(func, args) => {
            let mut t = "call(".to_owned();
            match called_key(func, args.len(), cx, st) {
                Some(key) => {
                    add_new(calls, key.as_str());
                    let mut f = if same(key.as_str(), cx.current.as_str()) {
                        "self/".to_owned()
                    } else {
                        "dep/".to_owned()
                    };
                    push_usize(&mut f, args.len());
                    t.append(f.as_str());
                },
                None => t.append(expr_fingerprint(func, cx, st, calls).as_str()),
            }
            t.append(";");
            t.append(exprs_fingerprint(args, cx, st, calls).as_str());
            t.append(")");
            t
        },
        Expr::MethodCall(obj, method, args) => {
            let mut t = "mcall:".to_owned();
            t.append(method.as_str());
            t.append("(");
            t.append(expr_fingerprint(obj, cx, st, calls).as_str());
            t.append(";");
            t.append(exprs_fingerprint(args, cx, st, calls).as_str());
            t.append(")");
            t
        },
        Expr::Lambda(params, body) => {
            let mut inner = st.dup();
            inner.bind_params(params);
            let mut t = "lambda:".to_owned();
            push_usize(&mut t, params.len());
            t.append(":");
            t.append(expr_fingerprint(body, cx, &inner, calls).as_str());
            t
        },
        Expr::Field(obj, field) => {
            let mut t = "field:".to_owned();
            t.append(field.as_str());
            t.append(":");
            t.append(expr_fingerprint(obj, cx, st, calls).as_str());
            t
        },
        Expr::Index(container, key) => {
            let mut t = "index:".to_owned();
            t.append(expr_fingerprint(container, cx, st, calls).as_str());
            t.append(":");
            t.append(expr_fingerprint(key, cx, st, calls).as_str());
            t
        },
        Expr::Path(parts) => {
            let mut t = "path:".to_owned();
            t.append(path_text(parts).as_str());
            t
        },
        Expr::Spawn(inner) => {
            let mut t = "spawn:".to_owned();
            t.append(expr_fingerprint(inner, cx, st, calls).as_str());
            t
        },
        Expr::Send(a, b) => {
            let mut t = "send:".to_owned();
            t.append(expr_fingerprint(a, cx, st, calls).as_str());
            t.append(":");
            t.append(expr_fingerprint(b, cx, st, calls).as_str());
            t
        },
        Expr::Receive { arms, timeout } => {
            let mut t = "recv(".to_owned();
            t.append(arms_fingerprint(arms, cx, st, calls).as_str());
            match timeout {
                Some((ms, body)) => {
                    t.append("timeout:");
                    t.append(expr_fingerprint(ms, cx, st, calls).as_str());
                    t.append(":");
                    t.append(expr_fingerprint(body, cx, st, calls).as_str());
                },
                None => {},
            }
            t.append(")");
            t
        },
        Expr::SelfPid => "self".to_owned(),
        Expr::Return(value) => match value {
            Some(inner) => {
                let mut t = "ret:".to_owned();
                t.append(expr_fingerprint(inner, cx, st, calls).as_str());
                t
            },
            None => "ret:none".to_owned(),
        },
        Expr::Try { body, catch_arms } => {
            let mut t = "try:".to_owned();
            t.append(expr_fingerprint(body, cx, st, calls).as_str());
            t.append("(");
            t.append(catch_arms_fingerprint(catch_arms, cx, st, calls).as_str());
            t.append(")");
            t
        },
    }
}

fn exprs_fingerprint(s: &Vec<Expr>, cx: &LocalKeys, st: &FingerprintState,
    calls: &mut Vec<String>) -> (r: String)
    ensures
        (r@, texts(final(calls)@)) == exprs_print(s@, cx.model(), st.scope(), texts(old(calls)@)),
    decreases s,
{
    let ghost start = texts(calls@);
    let mut t = String::new();
    let mut i: usize = 0;
    while i < s.len()
        invariant
            i <= s@.len(),
            (t@, texts(calls@)) == exprs_print(s@.take(i as int), cx.model(), st.scope(), start),
        decreases s@.len() - i,
    {
        assert(s@.take(i as int + 1).drop_last() =~= s@.take(i as int));
        t.append(expr_fingerprint(&s[i], cx, st, calls).as_str());
        t.append(",");
        i = i + 1;
    }
    assert(s@.take(i as int) =~= s@);
    t
}

fn parts_fingerprint(s: &Vec<InterpolatedPart>, cx: &LocalKeys, st: &FingerprintState,
    calls: &mut Vec<String>) -> (r: String)
    ensures
        (r@, texts(final(calls)@)) == parts_print(s@, cx.model(), st.scope(), texts(old(calls)@)),
    decreases s,
{
    let ghost start = texts(calls@);
    let mut t = String::new();
    let mut i: usize = 0;
    while i < s.len()
        invariant
            i <= s@.len(),
            (t@, texts(calls@)) == parts_print(s@.take(i as int), cx.model(), st.scope(), start),
        decreases s@.len() - i,
    {
        assert(s@.take(i as int + 1).drop_last() =~= s@.take(i as int));
        match &s[i] {
            InterpolatedPart::Literal(l) => {
                t.append("lit:");
                t.append(l.as_str());
                t.append(";");
            },
            InterpolatedPart::Expr(e) => {
                t.append("expr:");
                t.append(expr_fingerprint(e, cx, st, calls).as_str());
                t.append(";");
            },
        }
        i = i + 1;
    }
    assert(s@.take(i as int) =~= s@);
    t
}

fn filters_fingerprint(s: &Vec<Expr>, cx: &LocalKeys, st: &FingerprintState,
    calls: &mut Vec<String>) -> (r: String)
    ensures
        (r@, texts(final(calls)@)) == filters_print(s@, cx.model(), st.scope(), texts(old(calls)@)),
    decreases s,
{
    let ghost start = texts(calls@);
    let mut t = String::new();
    let mut i: usize = 0;
    while i < s.len()
        invariant
            i <= s@.len(),
            (t@, texts(calls@)) == filters_print(s@.take(i as int), cx.model(), st.scope(), start),
        decreases s@.len() - i,
    {
        assert(s@.take(i as int + 1).drop_last() =~= s@.take(i as int));
        t.append("|filter:");
        t.append(expr_fingerprint(&s[i], cx, st, calls).as_str());
        i = i + 1;
    }
    assert(s@.take(i as int) =~= s@);
    t
}

fn pairs_fingerprint(s: &Vec<(Expr, Expr)>, cx: &LocalKeys, st: &FingerprintState,
    calls: &mut Vec<String>) -> (r: String)
    ensures
        (r@, texts(final(calls)@)) == pairs_print(s@, cx.model(), st.scope(), texts(old(calls)@)),
    decreases s,
{
    let ghost start = texts(calls@);
    let mut t = String::new();
    let mut i: usize = 0;
    while i < s.len()
        invariant
            i <= s@.len(),
            (t@, texts(calls@)) == pairs_print(s@.take(i as int), cx.model(), st.scope(), start),
        decreases s@.len() - i,
    {
        assert(s@.take(i as int + 1).drop_last() =~= s@.take(i as int));
        t.append(expr_fingerprint(&s[i].0, cx, st, calls).as_str());
        t.append("=>");
        t.append(expr_fingerprint(&s[i].1, cx, st, calls).as_str());
        t.append(",");
        i = i + 1;
    }
    assert(s@.take(i as int) =~= s@);
    t
}

fn fields_fingerprint(s: &Vec<(String, Expr)>, cx: &LocalKeys, st: &FingerprintState,
    calls: &mut Vec<String>) -> (r: String)
    ensures
        (r@, texts(final(calls)@)) == fields_print(s@, cx.model(), st.scope(), texts(old(calls)@)),
    decreases s,
{
    let ghost start = texts(calls@);
    let mut t = String::new();
    let mut i: usize = 0;
    while i < s.len()
        invariant
            i <= s@.len(),
            (t@, texts(calls@)) == fields_print(s@.take(i as int), cx.model(), st.scope(), start),
        decreases s@.len() - i,
    {
        assert(s@.take(i as int + 1).drop_last() =~= s@.take(i as int));
        t.append(s[i].0.as_str());
        t.append(":");
        t.append(expr_fingerprint(&s[i].1, cx, st, calls).as_str());
        t.append(",");
        i = i + 1;
    }
    assert(s@.take(i as int) =~= s@);
    t
}

fn segments_fingerprint(s: &Vec<BitStringSegment>, cx: &LocalKeys, st: &FingerprintState,
    calls: &mut Vec<String>) -> (r: String)
    ensures
        (r@, texts(final(calls)@)) == segments_print(s@, cx.model(), st.scope(), texts(old(calls)@)),
    decreases s,
{
    let ghost start = texts(calls@);
    let mut t = String::new();
    let mut i: usize = 0;
    while i < s.len()
        invariant
            i <= s@.len(),
            (t@, texts(calls@)) == segments_print(s@.take(i as int), cx.model(), st.scope(), start),
        decreases s@.len() - i,
    {
        assert(s@.take(i as int + 1).drop_last() =~= s@.take(i as int));
        t.append(expr_fingerprint(&s[i].value, cx, st, calls).as_str());
        t.append(suffix(s[i].size, s[i].specifier).as_str());
        i = i + 1;
    }
    assert(s@.take(i as int) =~= s@);
    t
}

fn arm_fingerprint(
    arm: &MatchArm,
    cx: &LocalKeys,
    st: &FingerprintState,
    calls: &mut Vec<String>,
) -> (r: String)
    ensures
        (r@, texts(final(calls)@)) == arm_print(*arm, cx.model(), st.scope(), texts(old(calls)@)),
    decreases arm,
{
    let mut inner = st.dup();
    let mut t = pattern_fingerprint(&arm.pattern, &mut inner);
    t.append(":");
    match &arm.guard {
        Some(guard) => t.append(expr_fingerprint(guard, cx, &inner, calls).as_str()),
        None => t.append("none"),
    }
    t.append(":");
    t.append(expr_fingerprint(&arm.body, cx, &inner, calls).as_str());
    t.append(",");
    t
}

fn catch_arm_fingerprint(
    arm: &CatchArm,
    cx: &LocalKeys,
    st: &FingerprintState,
    calls: &mut Vec<String>,
) -> (r: String)
    ensures
        (r@, texts(final(calls)@)) == catch_arm_print(
            *arm,
            cx.model(),
            st.scope(),
            texts(old(calls)@),
        ),
    decreases arm,
{
    let mut inner = st.dup();
    let p = pattern_fingerprint(&arm.pattern, &mut inner);
    let b = expr_fingerprint(&arm.body, cx, &inner, calls);
    let mut t = match &arm.class {
        Some(class) => class.clone(),
        None => "_".to_owned(),
    };
    t.append(":");
    t.append(p.as_str());
    t.append(":");
    t.append(b.as_str());
    t.append(",");
    t
}

fn arms_fingerprint(s: &Vec<MatchArm>, cx: &LocalKeys, st: &FingerprintState,
    calls: &mut Vec<String>) -> (r: String)
    ensures
        (r@, texts(final(calls)@)) == arms_print(s@, cx.model(), st.scope(), texts(old(calls)@)),
    decreases s,
{
    let ghost start = texts(calls@);
    let mut t = String::new();
    let mut i: usize = 0;
    while i < s.len()
        invariant
            i <= s@.len(),
            (t@, texts(calls@)) == arms_print(s@.take(i as int), cx.model(), st.scope(), start),
        decreases s@.len() - i,
    {
        assert(s@.take(i as int + 1).drop_last() =~= s@.take(i as int));
        t.append(arm_fingerprint(&s[i], cx, st, calls).as_str());
        i = i + 1;
    }
    assert(s@.take(i as int) =~= s@);
    t
}

fn catch_arms_fingerprint(s: &Vec<CatchArm>, cx: &LocalKeys, st: &FingerprintState,
    calls: &mut Vec<String>) -> (r: String)
    ensures
        (r@, texts(final(calls)@)) == catch_arms_print(s@, cx.model(), st.scope(), texts(old(calls)@)),
    decreases s,
{
    let ghost start = texts(calls@);
    let mut t = String::new();
    let mut i: usize = 0;
    while i < s.len()
        invariant
            i <= s@.len(),
            (t@, texts(calls@)) == catch_arms_print(s@.take(i as int), cx.model(), st.scope(), start),
        decreases s@.len() - i,
    {
        assert(s@.take(i as int + 1).drop_last() =~= s@.take(i as int));
        t.append(catch_arm_fingerprint(&s[i], cx, st, calls).as_str());
        i = i + 1;
    }
    assert(s@.take(i as int) =~= s@);
    t
}

fn generators_fingerprint(s: &Vec<Generator>, cx: &LocalKeys, st: &mut FingerprintState,
    calls: &mut Vec<String>) -> (r:
    String)
    ensures
        (r@, final(st).scope(), texts(final(calls)@)) == generators_print(
            s@,
            cx.model(),
            old(st).scope(),
            texts(old(calls)@),
        ),
    decreases s,
{
    let ghost start = texts(calls@);
    let ghost outer = st.scope();
    let mut t = String::new();
    let mut i: usize = 0;
    while i < s.len()
        invariant
            i <= s@.len(),
            (t@, st.scope(), texts(calls@)) == generators_print(s@.take(i as int), cx.model(), outer, start),
        decreases s@.len() - i,
    {
        assert(s@.take(i as int + 1).drop_last() =~= s@.take(i as int));
        t.append("|gen:");
        t.append(expr_fingerprint(&s[i].source, cx, st, calls).as_str());
        t.append("|");
        t.append(pattern_fingerprint(&s[i].pattern, st).as_str());
        i = i + 1;
    }
    assert(s@.take(i as int) =~= s@);
    t
}

fn stmts_fingerprint(s: &Vec<Stmt>, cx: &LocalKeys, st: &mut FingerprintState, calls: &mut Vec<String>) -> (r:
    String)
    ensures
        (r@, final(st).scope(), texts(final(calls)@)) == stmts_print(
            s@,
            cx.model(),
            old(st).scope(),
            texts(old(calls)@),
        ),
    decreases s,
{
    let ghost start = texts(calls@);
    let ghost outer = st.scope();
    let mut t = String::new();
    let mut i: usize = 0;
    while i < s.len()
        invariant
            i <= s@.len(),
            (t@, st.scope(), texts(calls@)) == stmts_print(s@.take(i as int), cx.model(), outer, start),
        decreases s@.len() - i,
    {
        assert(s@.take(i as int + 1).drop_last() =~= s@.take(i as int));
        match &s[i] {
            Stmt::Let(pattern, init) => {
                let x = expr_fingerprint(init, cx, st, calls);
                t.append("let:");
                t.append(pattern_fingerprint(pattern, st).as_str());
                t.append("=");
                t.append(x.as_str());
                t.append(";");
            },
            Stmt::Expr(e) => {
                t.append("expr:");
                t.append(expr_fingerprint(e, cx, st, calls).as_str());
                t.append(";");
            },
        }
        i = i + 1;
    }
    assert(s@.take(i as int) =~= s@);
    t
}

/// The fingerprint of a function's body, and the keys of the local functions
/// that it calls, each once.
pub fn function_fingerprint(func: &Function, cx: &LocalKeys) -> (r: (String, Vec<String>))
    ensures
        (r.0@, texts(r.1@)) == function_print(*func, cx.model()),
{
    let mut st = FingerprintState::new();
    st.bind_params(&func.params);
    let mut calls: Vec<String> = Vec::new();
    assert(texts(calls@) =~= Seq::empty());
    let b = expr_fingerprint(&func.body, cx, &st, &mut calls);
    let mut t = "fn$arity:".to_owned();
    push_usize(&mut t, func.params.len());
    t.append("|params:");
    push_usize(&mut t, func.params.len());
    t.append("|");
    t.append("body:");
    t.append(b.as_str());
    (t, calls)
}

fn type_param_index(params: &Vec<String>, name: &str) -> (r: Option<usize>)
    ensures
        (match r {
            Some(i) => Some(i as nat),
            None => None::<nat>,
        }) == type_param(texts(params@), name@),
{
    let ghost all = texts(params@);
    let mut i: usize = params.len();
    assert(all.take(i as int) =~= all);
    while i > 0
        invariant
            i <= params@.len(),
            all == texts(params@),
            type_param(all, name@) == type_param(all.take(i as int), name@),
        decreases i,
    {
        i = i - 1;
        assert(all.take(i as int + 1).drop_last() =~= all.take(i as int));
        if same(params[i].as_str(), name) {
            return Some(i);
        }
    }
    None
}

/// The fingerprint of a type.
pub fn type_expr_fingerprint(ty: &TypeExpr, params: &Vec<String>) -> (r: String)
    ensures
        r@ == type_print(*ty, texts(params@)),
    decreases ty,
{
    match ty {
        TypeExpr::Named(name, args) => match type_param_index(params, name.as_str()) {
            Some(index) => {
                let mut t = "tvar:".to_owned();
                push_usize(&mut t, index);
                t
            },
            None => {
                let mut t = "named:".to_owned();
                t.append(name.as_str());
                t.append("[");
                t.append(types_fingerprint(args, params).as_str());
                t.append("]");
                t
            },
        },
        TypeExpr::Tuple(items) => {
            let mut t = "tuple(".to_owned();
            t.append(types_fingerprint(items, params).as_str());
            t.append(")");
            t
        },
        TypeExpr::Function(from, to) => {
            let mut t = "fun(".to_owned();
            t.append(types_fingerprint(from, params).as_str());
            t.append(")->");
            t.append(type_expr_fingerprint(to, params).as_str());
            t
        },
        TypeExpr::Record(fields) => {
            let mut t = "record(".to_owned();
            t.append(field_types_fingerprint(fields, params).as_str());
            t.append(")");
            t
        },
        TypeExpr::Unit => "unit".to_owned(),
    }
}

fn types_fingerprint(s: &Vec<TypeExpr>, params: &Vec<String>) -> (r: String)
    ensures
        r@ == types_print(s@, texts(params@)),
    decreases s,
{
    let mut t = String::new();
    let mut i: usize = 0;
    while i < s.len()
        invariant
            i <= s@.len(),
            t@ == types_print(s@.take(i as int), texts(params@)),
        decreases s@.len() - i,
    {
        assert(s@.take(i as int + 1).drop_last() =~= s@.take(i as int));
        t.append(type_expr_fingerprint(&s[i], params).as_str());
        t.append(",");
        i = i + 1;
    }
    assert(s@.take(i as int) =~= s@);
    t
}

fn field_types_fingerprint(s: &Vec<(String, TypeExpr)>, params: &Vec<String>) -> (r: String)
    ensures
        r@ == field_types_print(s@, texts(params@)),
    decreases s,
{
    let mut t = String::new();
    let mut i: usize = 0;
    while i < s.len()
        invariant
            i <= s@.len(),
            t@ == field_types_print(s@.take(i as int), texts(params@)),
        decreases s@.len() - i,
    {
        assert(s@.take(i as int + 1).drop_last() =~= s@.take(i as int));
        t.append(s[i].0.as_str());
        t.append(":");
        t.append(type_expr_fingerprint(&s[i].1, params).as_str());
        t.append(",");
        i = i + 1;
    }
    assert(s@.take(i as int) =~= s@);
    t
}

fn optional_type_fingerprint(ty: &Option<TypeExpr>, params: &Vec<String>) -> (r: String)
    ensures
        r@ == optional_type_print(*ty, texts(params@)),
{
    match ty {
        Some(t) => type_expr_fingerprint(t, params),
        None => "_".to_owned(),
    }
}

/// The fingerprint of a function's type.
pub fn function_abi_fingerprint(func: &Function) -> (r: String)
    ensures
        r@ == abi_print(*func),
{
    let mut types: Vec<String> = Vec::new();
    let mut i: usize = 0;
    while i < func.params.len()
        invariant
            i <= func.params@.len(),
            types@.len() == i,
            forall|j: int|
                0 <= j < i ==> types@[j]@ == optional_type_print(
                    func.params@[j].ty,
                    texts(func.type_params@),
                ),
        decreases func.params@.len() - i,
    {
        types.push(optional_type_fingerprint(&func.params[i].ty, &func.type_params));
        i = i + 1;
    }
    assert(texts(types@) =~= param_types(func.params@, texts(func.type_params@)));
    let mut t = "fn$arity:".to_owned();
    push_usize(&mut t, func.params.len());
    t.append("|type_params:");
    push_usize(&mut t, func.type_params.len());
    t.append("|params:[");
    t.append(join(&types, ",").as_str());
    t.append("]|return:");
    t.append(optional_type_fingerprint(&func.return_type, &func.type_params).as_str());
    t
}

} // verus!
