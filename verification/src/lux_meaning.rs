//! What Lux expressions mean: the values that they stand for.
use vstd::prelude::*;
use vstd::utf8::encode_utf8;
use crate::ast::{BinOp, Expr, MatchArm, Param, Pattern, Stmt, UnaryOp};
use crate::lower::{core_var, generators_left, linked, SymbolTable};
use crate::meaning::{
    counted, elements, is_flat, is_library, list_of, list_onto, magnitude, quotient, remainder,
    truth, truth_in, value_at, Env, Val, World,
};
use crate::swap_shape::introduced;
use crate::twin::takes;

verus! {

/// Whether a name is one that a source gives to a variable: it does not begin
/// with a capital, and the translation has no use for it.
pub open spec fn proper(x: Seq<char>) -> bool {
    x.len() > 0 && !('A' <= x[0] && x[0] <= 'Z') && !introduced(core_var(x))
}

/// What an operator makes of two values.
#[verifier::opaque]
pub open spec fn operation(op: BinOp, v: Val, w: Val) -> Option<Val> {
    match (op, v, w) {
        (BinOp::Add, Val::Int(a), Val::Int(b)) => Some(Val::Int(a + b)),
        (BinOp::Sub, Val::Int(a), Val::Int(b)) => Some(Val::Int(a - b)),
        (BinOp::Mul, Val::Int(a), Val::Int(b)) => Some(Val::Int(a * b)),
        (BinOp::Div, Val::Int(a), Val::Int(b)) => if b == 0 {
            None
        } else {
            Some(Val::Int(quotient(a, b)))
        },
        (BinOp::Mod, Val::Int(a), Val::Int(b)) => if b == 0 {
            None
        } else {
            Some(Val::Int(remainder(a, b)))
        },
        (BinOp::Lt, Val::Int(a), Val::Int(b)) => Some(truth(a < b)),
        (BinOp::LtEq, Val::Int(a), Val::Int(b)) => Some(truth(a <= b)),
        (BinOp::Gt, Val::Int(a), Val::Int(b)) => Some(truth(a > b)),
        (BinOp::GtEq, Val::Int(a), Val::Int(b)) => Some(truth(a >= b)),
        (BinOp::Eq, _, _) => if is_flat(v) && is_flat(w) {
            Some(truth(v == w))
        } else {
            None
        },
        (BinOp::NotEq, _, _) => if is_flat(v) && is_flat(w) {
            Some(truth(v != w))
        } else {
            None
        },
        (BinOp::And, _, _) => match (truth_in(v), truth_in(w)) {
            (Some(a), Some(b)) => Some(truth(a && b)),
            _ => None,
        },
        (BinOp::Or, _, _) => match (truth_in(v), truth_in(w)) {
            (Some(a), Some(b)) => Some(truth(a || b)),
            _ => None,
        },
        (BinOp::Concat, Val::Bytes(a), Val::Bytes(b)) => Some(Val::Bytes(a + b)),
        (BinOp::Concat, _, _) => match elements(v) {
            Some(s) => Some(list_onto(s, w)),
            None => None,
        },
        _ => None,
    }
}

/// What a built-in function of one argument returns.
#[verifier::opaque]
pub open spec fn known1(name: Seq<char>, v: Val) -> Option<Val> {
    if name == "length"@ {
        match elements(v) {
            Some(s) => Some(Val::Int(s.len() as int)),
            None => None,
        }
    } else if name == "hd"@ {
        match elements(v) {
            Some(s) => if s.len() > 0 {
                Some(s[0])
            } else {
                None
            },
            None => None,
        }
    } else if name == "tl"@ {
        match elements(v) {
            Some(s) => if s.len() > 0 {
                Some(list_of(s.skip(1)))
            } else {
                None
            },
            None => None,
        }
    } else if name == "abs"@ {
        match v {
            Val::Int(a) => Some(Val::Int(magnitude(a))),
            _ => None,
        }
    } else if name == "reverse"@ {
        match elements(v) {
            Some(s) => Some(list_of(s.reverse())),
            None => None,
        }
    } else if name == "size"@ {
        match v {
            Val::Tuple(s) => Some(Val::Int(s.len() as int)),
            _ => None,
        }
    } else if name == "fst"@ {
        match v {
            Val::Tuple(s) => if s.len() > 0 {
                Some(s[0])
            } else {
                None
            },
            _ => None,
        }
    } else if name == "snd"@ {
        match v {
            Val::Tuple(s) => if s.len() > 1 {
                Some(s[1])
            } else {
                None
            },
            _ => None,
        }
    } else if name == "is_nil"@ {
        if is_flat(v) {
            Some(truth(v is Nil))
        } else {
            None
        }
    } else if name == "is_int"@ || name == "dynamic_is_int"@ {
        Some(truth(v is Int))
    } else if name == "is_atom"@ || name == "dynamic_is_atom"@ {
        Some(truth(v is Atom))
    } else if name == "is_bool"@ || name == "dynamic_is_bool"@ {
        Some(truth(truth_in(v) is Some))
    } else if name == "is_list"@ || name == "dynamic_is_list"@ {
        Some(truth(v is Nil || v is Cons))
    } else if name == "is_tuple"@ {
        Some(truth(v is Tuple))
    } else if name == "is_map"@ || name == "dynamic_is_map"@ {
        Some(truth(v is Dict))
    } else if name == "is_string"@ || name == "is_binary"@ || name == "dynamic_is_string"@ || name
        == "dynamic_is_binary"@ {
        Some(truth(v is Bytes))
    } else if name == "str_length"@ || name == "byte_size"@ {
        match v {
            Val::Bytes(b) => Some(Val::Int(b.len() as int)),
            _ => None,
        }
    } else if name == "tuple_to_list"@ {
        match v {
            Val::Tuple(s) => Some(list_of(s)),
            _ => None,
        }
    } else if name == "list_to_tuple"@ {
        match elements(v) {
            Some(s) => Some(Val::Tuple(s)),
            None => None,
        }
    } else {
        None
    }
}

/// What a built-in function of two arguments returns.
#[verifier::opaque]
pub open spec fn known2(name: Seq<char>, v: Val, w: Val) -> Option<Val> {
    if name == "max"@ {
        match (v, w) {
            (Val::Int(a), Val::Int(b)) => Some(Val::Int(if a < b { b } else { a })),
            _ => None,
        }
    } else if name == "min"@ {
        match (v, w) {
            (Val::Int(a), Val::Int(b)) => Some(Val::Int(if b < a { b } else { a })),
            _ => None,
        }
    } else if name == "div"@ {
        operation(BinOp::Div, v, w)
    } else if name == "rem"@ {
        operation(BinOp::Mod, v, w)
    } else if name == "append"@ {
        match elements(v) {
            Some(s) => Some(list_onto(s, w)),
            None => None,
        }
    } else if name == "nth"@ {
        match (v, elements(w)) {
            (Val::Int(i), Some(s)) => if 1 <= i <= s.len() {
                Some(s[i - 1])
            } else {
                None
            },
            _ => None,
        }
    } else if name == "take"@ {
        match (v, elements(w)) {
            (Val::Int(i), Some(s)) => if 0 <= i <= s.len() {
                Some(list_of(s.take(i)))
            } else {
                None
            },
            _ => None,
        }
    } else if name == "drop"@ {
        match (v, elements(w)) {
            (Val::Int(i), Some(s)) => if 0 <= i <= s.len() {
                Some(list_of(s.skip(i)))
            } else {
                None
            },
            _ => None,
        }
    } else if name == "member"@ {
        match elements(w) {
            Some(s) => if is_flat(v) && is_flat(w) {
                Some(truth(s.contains(v)))
            } else {
                None
            },
            None => None,
        }
    } else if name == "elem"@ {
        match (v, w) {
            (Val::Tuple(s), Val::Int(i)) => if 1 <= i <= s.len() {
                Some(s[i - 1])
            } else {
                None
            },
            _ => None,
        }
    } else if name == "map_get"@ {
        match v {
            Val::Dict(d) => value_at(d, w),
            _ => None,
        }
    } else if name == "map_has_key"@ {
        match v {
            Val::Dict(d) => Some(truth(value_at(d, w) is Some)),
            _ => None,
        }
    } else if name == "str_concat"@ {
        match (v, w) {
            (Val::Bytes(a), Val::Bytes(b)) => Some(Val::Bytes(a + b)),
            _ => None,
        }
    } else {
        None
    }
}

/// What a built-in function returns.
pub open spec fn known(name: Seq<char>, s: Seq<Val>) -> Option<Val> {
    if s.len() == 1 {
        known1(name, s[0])
    } else if s.len() == 2 {
        known2(name, s[0], s[1])
    } else if s.len() == 3 {
        if name == "map_put"@ {
            match s[0] {
                Val::Dict(d) => Some(Val::Dict(d.push((s[1], s[2])))),
                _ => None,
            }
        } else if name == "map_get_or"@ {
            match s[0] {
                Val::Dict(d) => match value_at(d, s[1]) {
                    Some(v) => Some(v),
                    None => Some(s[2]),
                },
                _ => None,
            }
        } else if name == "set_elem"@ {
            match (s[0], s[1]) {
                (Val::Tuple(items), Val::Int(i)) => if 1 <= i <= items.len() {
                    Some(Val::Tuple(items.update(i - 1, s[2])))
                } else {
                    None
                },
                _ => None,
            }
        } else {
            None
        }
    } else {
        None
    }
}

/// What a function returns that is called by its name. A built-in function hides
/// one of the program.
pub open spec fn called(name: Seq<char>, s: Seq<Val>, tab: SymbolTable, w: World) -> Option<Val> {
    if takes(name, s.len()) {
        known(name, s)
    } else {
        match linked(tab, name, s.len()) {
            Some(m) => if is_library(m) {
                None
            } else {
                w(m, s)
            },
            None => None,
        }
    }
}

/// Whether a value can be piped into a built-in function of this name.
pub open spec fn is_piped(name: Seq<char>) -> bool {
    name == "length"@ || name == "hd"@ || name == "tl"@ || name == "abs"@ || name == "reverse"@
        || name == "sort"@ || name == "flatten"@
}

/// What piping a value into a function comes to.
pub open spec fn piped(name: Seq<char>, v: Val, tab: SymbolTable, w: World) -> Option<Val> {
    if is_piped(name) {
        known1(name, v)
    } else {
        match linked(tab, name, 1) {
            Some(m) => if is_library(m) {
                None
            } else {
                w(m, seq![v])
            },
            None => None,
        }
    }
}

/// Whether a pattern is made of names, constants, tuples and lists.
pub open spec fn is_plain(p: Pattern) -> bool
    decreases p,
{
    match p {
        Pattern::Wildcard => true,
        Pattern::Var(x) => proper(x@),
        Pattern::Int(_) => true,
        Pattern::Char(_) => true,
        Pattern::Bool(_) => true,
        Pattern::Atom(_) => true,
        Pattern::Tuple(s) => forall|i: int| 0 <= i < s@.len() ==> is_plain(#[trigger] s@[i]),
        Pattern::List(s, tail) => (forall|i: int|
            0 <= i < s@.len() ==> is_plain(#[trigger] s@[i])) && (match tail {
            Some(rest) => is_plain(*rest),
            None => true,
        }),
        _ => false,
    }
}

/// The first elements of a list, and what is behind them.
pub open spec fn parted(v: Val, k: nat) -> Option<(Seq<Val>, Val)>
    decreases k,
{
    if k == 0 {
        Some((Seq::empty(), v))
    } else {
        match v {
            Val::Cons(h, t) => match parted(*t, (k - 1) as nat) {
                Some((items, rest)) => Some((seq![*h] + items, rest)),
                None => None,
            },
            _ => None,
        }
    }
}

/// The variables after a value has fitted a pattern.
pub open spec fn fitted(p: Pattern, v: Val, env: Env) -> Option<Env>
    decreases p,
{
    match p {
        Pattern::Wildcard => Some(env),
        Pattern::Var(x) => Some(env.insert(x@, v)),
        Pattern::Int(i) => if v == Val::Int(i as int) {
            Some(env)
        } else {
            None
        },
        Pattern::Char(c) => if v == Val::Int(c as int) {
            Some(env)
        } else {
            None
        },
        Pattern::Bool(b) => if v == truth(b) {
            Some(env)
        } else {
            None
        },
        Pattern::Atom(a) => if v == Val::Atom(a@) {
            Some(env)
        } else {
            None
        },
        Pattern::Tuple(s) => if s@.len() == 0 {
            if v == Val::Atom("ok"@) {
                Some(env)
            } else {
                None
            }
        } else {
            match v {
                Val::Tuple(items) => fitted_all(s@, items, env),
                _ => None,
            }
        },
        Pattern::List(s, tail) => match parted(v, s@.len()) {
            Some((items, rest)) => match fitted_all(s@, items, env) {
                Some(e) => match tail {
                    Some(q) => fitted(*q, rest, e),
                    None => if rest is Nil {
                        Some(e)
                    } else {
                        None
                    },
                },
                None => None,
            },
            None => None,
        },
        _ => None,
    }
}

pub open spec fn fitted_all(s: Seq<Pattern>, items: Seq<Val>, env: Env) -> Option<Env>
    decreases s,
{
    if s.len() != items.len() {
        None
    } else if s.len() == 0 {
        Some(env)
    } else {
        match fitted_all(s.drop_last(), items.drop_last(), env) {
            Some(e) => fitted(s.last(), items.last(), e),
            None => None,
        }
    }
}

/// The value of an expression where variables have values. There is none if it
/// fails, or if it is about functions as values, processes, floating-point
/// numbers or what is outside of the program.
pub open spec fn meant(e: Expr, env: Env, tab: SymbolTable, w: World) -> Option<Val>
    decreases e, 1nat, 0nat, 0nat,
{
    match e {
        Expr::Int(i) => Some(Val::Int(i as int)),
        Expr::Char(c) => Some(Val::Int(c as int)),
        Expr::String(s) => Some(Val::Bytes(encode_utf8(s@))),
        Expr::Bool(b) => Some(truth(b)),
        Expr::Atom(a) => Some(Val::Atom(a@)),
        Expr::Unit => Some(Val::Atom("ok"@)),
        Expr::Var(x) => if env.contains_key(x@) {
            Some(env[x@])
        } else {
            None
        },
        Expr::Tuple(s) => match meant_all(s@, env, tab, w) {
            Some(v) => Some(Val::Tuple(v)),
            None => None,
        },
        Expr::List(s, tail) => match meant_all(s@, env, tab, w) {
            Some(v) => match tail {
                Some(rest) => match meant(*rest, env, tab, w) {
                    Some(t) => Some(list_onto(v, t)),
                    None => None,
                },
                None => Some(list_of(v)),
            },
            None => None,
        },
        Expr::MapLit(s) => match meant_pairs(s@, env, tab, w) {
            Some(d) => Some(Val::Dict(d)),
            None => None,
        },
        Expr::StructInit(_, s) => match meant_fields(s@, env, tab, w) {
            Some(d) => Some(Val::Dict(d)),
            None => None,
        },
        Expr::Field(x, name) => match meant(*x, env, tab, w) {
            Some(Val::Dict(d)) => value_at(d, Val::Atom(name@)),
            _ => None,
        },
        Expr::Index(x, key) => match (meant(*x, env, tab, w), meant(*key, env, tab, w)) {
            (Some(Val::Dict(d)), Some(k)) => value_at(d, k),
            _ => None,
        },
        Expr::Range(a, b, inclusive) => match (meant(*a, env, tab, w), meant(*b, env, tab, w)) {
            (Some(Val::Int(i)), Some(Val::Int(j))) => {
                let last = if inclusive {
                    j
                } else {
                    j - 1
                };
                if i <= last + 1 {
                    Some(list_of(counted(i, last)))
                } else {
                    None
                }
            },
            _ => None,
        },
        Expr::ListComp { expr, generators, filters } => if generators@.len() == 0 {
            match meant(*expr, env, tab, w) {
                Some(v) => Some(list_of(seq![v])),
                None => None,
            }
        } else {
            match gathered(e, 0, env, tab, w) {
                Some(s) => Some(list_of(s)),
                None => None,
            }
        },
        Expr::Binary(a, op, b) => match meant(*a, env, tab, w) {
            Some(x) => if op is Pipe {
                match *b {
                    Expr::Var(name) => piped(name@, x, tab, w),
                    _ => None,
                }
            } else {
                match meant(*b, env, tab, w) {
                    Some(y) => operation(op, x, y),
                    None => None,
                }
            },
            None => None,
        },
        Expr::Unary(op, a) => match (op, meant(*a, env, tab, w)) {
            (UnaryOp::Neg, Some(Val::Int(i))) => Some(Val::Int(-i)),
            (UnaryOp::Not, Some(v)) => match truth_in(v) {
                Some(b) => Some(truth(!b)),
                None => None,
            },
            _ => None,
        },
        Expr::If(c, yes, no) => match meant(*c, env, tab, w) {
            Some(v) => match truth_in(v) {
                Some(true) => meant(*yes, env, tab, w),
                Some(false) => match no {
                    Some(other) => meant(*other, env, tab, w),
                    None => Some(Val::Atom("ok"@)),
                },
                None => None,
            },
            None => None,
        },
        Expr::Cond(arms) => if arms@.len() == 0 {
            Some(Val::Atom("ok"@))
        } else {
            first_holding(arms@, Some(Val::Atom("nil"@)), env, tab, w)
        },
        Expr::Match(x, arms) => match meant(*x, env, tab, w) {
            Some(v) => match first_fitting(arms@, v, env, tab, w) {
                Some(r) => r,
                None => None,
            },
            None => None,
        },
        Expr::Block(s, last) => match after_stmts(s@, env, tab, w) {
            Some(inner) => match last {
                Some(value) => meant(*value, inner, tab, w),
                None => Some(Val::Atom("ok"@)),
            },
            None => None,
        },
        Expr::Call(f, args) => match (*f, meant_all(args@, env, tab, w)) {
            (Expr::Var(name), Some(s)) => called(name@, s, tab, w),
            _ => None,
        },
        Expr::Try { body, catch_arms } => meant(*body, env, tab, w),
        _ => None,
    }
}

pub open spec fn meant_all(s: Seq<Expr>, env: Env, tab: SymbolTable, w: World) -> Option<Seq<Val>>
    decreases s, 0nat, 0nat, 0nat,
{
    if s.len() == 0 {
        Some(Seq::empty())
    } else {
        match (meant_all(s.drop_last(), env, tab, w), meant(s.last(), env, tab, w)) {
            (Some(v), Some(x)) => Some(v.push(x)),
            _ => None,
        }
    }
}

pub open spec fn meant_pairs(
    s: Seq<(Expr, Expr)>,
    env: Env,
    tab: SymbolTable,
    w: World,
) -> Option<Seq<(Val, Val)>>
    decreases s, 0nat, 0nat, 0nat,
{
    if s.len() == 0 {
        Some(Seq::empty())
    } else {
        match (
            meant_pairs(s.drop_last(), env, tab, w),
            meant(s.last().0, env, tab, w),
            meant(s.last().1, env, tab, w),
        ) {
            (Some(v), Some(x), Some(y)) => Some(v.push((x, y))),
            _ => None,
        }
    }
}

pub open spec fn meant_fields(
    s: Seq<(String, Expr)>,
    env: Env,
    tab: SymbolTable,
    w: World,
) -> Option<Seq<(Val, Val)>>
    decreases s, 0nat, 0nat, 0nat,
{
    if s.len() == 0 {
        Some(Seq::empty())
    } else {
        match (meant_fields(s.drop_last(), env, tab, w), meant(s.last().1, env, tab, w)) {
            (Some(v), Some(x)) => Some(v.push((Val::Atom(s.last().0@), x))),
            _ => None,
        }
    }
}

/// Whether a condition holds; `_` always does.
pub open spec fn holds(c: Expr, env: Env, tab: SymbolTable, w: World) -> Option<bool>
    decreases c, 2nat, 0nat, 0nat,
{
    if (c matches Expr::Var(x) && x@ == "_"@) {
        Some(true)
    } else {
        match meant(c, env, tab, w) {
            Some(v) => truth_in(v),
            None => None,
        }
    }
}

/// The value of the first arm whose condition holds, or else `other`.
pub open spec fn first_holding(
    s: Seq<(Expr, Expr)>,
    other: Option<Val>,
    env: Env,
    tab: SymbolTable,
    w: World,
) -> Option<Val>
    decreases s, 0nat, 0nat, 0nat,
{
    if s.len() == 0 {
        other
    } else {
        first_holding(
            s.drop_last(),
            match holds(s.last().0, env, tab, w) {
                Some(true) => meant(s.last().1, env, tab, w),
                Some(false) => other,
                None => None,
            },
            env,
            tab,
            w,
        )
    }
}

/// What one arm comes to for a value, if it is taken.
pub open spec fn arm_meant(
    arm: MatchArm,
    v: Val,
    env: Env,
    tab: SymbolTable,
    w: World,
) -> Option<Option<Val>>
    decreases arm, 0nat, 0nat, 0nat,
{
    if !is_plain(arm.pattern) {
        Some(None)
    } else {
        match fitted(arm.pattern, v, env) {
            None => None,
            Some(inner) => match arm.guard {
                None => Some(meant(arm.body, inner, tab, w)),
                Some(guard) => match meant(guard, inner, tab, w) {
                    Some(g) => match truth_in(g) {
                        Some(true) => Some(meant(arm.body, inner, tab, w)),
                        Some(false) => None,
                        None => Some(None),
                    },
                    None => Some(None),
                },
            },
        }
    }
}

/// What the first arm that fits comes to.
pub open spec fn first_fitting(
    s: Seq<MatchArm>,
    v: Val,
    env: Env,
    tab: SymbolTable,
    w: World,
) -> Option<Option<Val>>
    decreases s, 0nat, 0nat, 0nat,
{
    if s.len() == 0 {
        None
    } else {
        match first_fitting(s.drop_last(), v, env, tab, w) {
            Some(r) => Some(r),
            None => arm_meant(s.last(), v, env, tab, w),
        }
    }
}

/// The variables behind a statement.
pub open spec fn after_stmt(s: Stmt, env: Env, tab: SymbolTable, w: World) -> Option<Env>
    decreases s, 0nat, 0nat, 0nat,
{
    match s {
        Stmt::Let(p, x) => match meant(x, env, tab, w) {
            Some(v) => if is_plain(p) {
                fitted(p, v, env)
            } else {
                None
            },
            None => None,
        },
        Stmt::Expr(x) => match meant(x, env, tab, w) {
            Some(_) => Some(env),
            None => None,
        },
    }
}

/// The variables behind statements.
pub open spec fn after_stmts(s: Seq<Stmt>, env: Env, tab: SymbolTable, w: World) -> Option<Env>
    decreases s, 0nat, 0nat, 0nat,
{
    if s.len() == 0 {
        Some(env)
    } else {
        match after_stmts(s.drop_last(), env, tab, w) {
            Some(inner) => after_stmt(s.last(), inner, tab, w),
            None => None,
        }
    }
}

/// Whether all filters hold.
pub open spec fn all_hold(s: Seq<Expr>, env: Env, tab: SymbolTable, w: World) -> Option<bool>
    decreases s, 0nat, 0nat, 0nat,
{
    if s.len() == 0 {
        Some(true)
    } else {
        match (all_hold(s.drop_last(), env, tab, w), meant(s.last(), env, tab, w)) {
            (Some(a), Some(v)) => match truth_in(v) {
                Some(b) => Some(a && b),
                None => None,
            },
            _ => None,
        }
    }
}

/// What a list comprehension collects from generator number `at` on.
pub open spec fn gathered(e: Expr, at: nat, env: Env, tab: SymbolTable, w: World) -> Option<Seq<Val>>
    decreases e, 0nat, 2 * generators_left(e, at), 0nat,
{
    match e {
        Expr::ListComp { expr, generators, filters } => if at >= generators@.len() {
            match all_hold(filters@, env, tab, w) {
                Some(true) => match meant(*expr, env, tab, w) {
                    Some(v) => Some(seq![v]),
                    None => None,
                },
                Some(false) => Some(Seq::empty()),
                None => None,
            }
        } else {
            match meant(generators@[at as int].source, env, tab, w) {
                Some(v) => match elements(v) {
                    Some(s) => if is_plain(generators@[at as int].pattern) {
                        gathered_over(e, at, s, env, tab, w)
                    } else {
                        None
                    },
                    None => None,
                },
                None => None,
            }
        },
        _ => None,
    }
}

/// What it collects from the elements of a list, one after the other; those that
/// do not fit the generator's pattern are passed over.
pub open spec fn gathered_over(
    e: Expr,
    at: nat,
    s: Seq<Val>,
    env: Env,
    tab: SymbolTable,
    w: World,
) -> Option<Seq<Val>>
    decreases e, 0nat, 2 * generators_left(e, at) - 1, s.len(),
{
    match e {
        Expr::ListComp { expr, generators, filters } => if at >= generators@.len() {
            None
        } else if s.len() == 0 {
            Some(Seq::empty())
        } else {
            match (
                match fitted(generators@[at as int].pattern, s[0], env) {
                    Some(inner) => gathered(e, at + 1, inner, tab, w),
                    None => Some(Seq::empty()),
                },
                gathered_over(e, at, s.drop_first(), env, tab, w),
            ) {
                (Some(x), Some(y)) => Some(x + y),
                _ => None,
            }
        },
        _ => None,
    }
}

/// The parameters of a function with arguments.
pub open spec fn with_params(params: Seq<Param>, s: Seq<Val>) -> Env
    decreases params.len(),
{
    if params.len() == 0 || params.len() != s.len() {
        Map::empty()
    } else {
        with_params(params.drop_last(), s.drop_last()).insert(params.last().name@, s.last())
    }
}

} // verus!
