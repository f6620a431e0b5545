//! What Core Erlang terms mean: the values that they run to.
use vstd::prelude::*;
use crate::erlang::{Clause, Core, CoreBinaryKind, CoreBinarySize, Literal, Pat, Segment};

verus! {

/// A value of Erlang. Processes, functions and floating-point numbers are left
/// out.
pub enum Val {
    Int(int),
    Atom(Seq<char>),
    Nil,
    Cons(Box<Val>, Box<Val>),
    Tuple(Seq<Val>),
    Bytes(Seq<u8>),
    /// Keys and values; a later entry replaces an earlier one with the same key.
    Dict(Seq<(Val, Val)>),
}

/// The variables that have values.
pub type Env = Map<Seq<char>, Val>;

/// What the functions of other modules return: by module, for arguments.
pub type World = spec_fn(Seq<char>, Seq<Val>) -> Option<Val>;

pub open spec fn truth(b: bool) -> Val {
    if b {
        Val::Atom("true"@)
    } else {
        Val::Atom("false"@)
    }
}

/// The truth that a value stands for.
pub open spec fn truth_in(v: Val) -> Option<bool> {
    if v == truth(true) {
        Some(true)
    } else if v == truth(false) {
        Some(false)
    } else {
        None
    }
}

pub open spec fn magnitude(a: int) -> int {
    if a < 0 {
        -a
    } else {
        a
    }
}

/// The quotient, rounded towards zero.
pub open spec fn quotient(a: int, b: int) -> int
    recommends
        b != 0,
{
    if (a < 0) == (b < 0) {
        magnitude(a) / magnitude(b)
    } else {
        -(magnitude(a) / magnitude(b))
    }
}

/// What is left of a division: it has the sign of the dividend.
pub open spec fn remainder(a: int, b: int) -> int
    recommends
        b != 0,
{
    a - b * quotient(a, b)
}

/// The elements of a proper list.
pub open spec fn elements(v: Val) -> Option<Seq<Val>>
    decreases v,
{
    match v {
        Val::Nil => Some(Seq::empty()),
        Val::Cons(h, t) => match elements(*t) {
            Some(s) => Some(seq![*h] + s),
            None => None,
        },
        _ => None,
    }
}

/// A list of values in front of a tail.
pub open spec fn list_onto(s: Seq<Val>, tail: Val) -> Val
    decreases s.len(),
{
    if s.len() == 0 {
        tail
    } else {
        Val::Cons(Box::new(s[0]), Box::new(list_onto(s.drop_first(), tail)))
    }
}

pub open spec fn list_of(s: Seq<Val>) -> Val {
    list_onto(s, Val::Nil)
}

/// The value under a key.
pub open spec fn value_at(s: Seq<(Val, Val)>, key: Val) -> Option<Val>
    decreases s.len(),
{
    if s.len() == 0 {
        None
    } else if s.last().0 == key {
        Some(s.last().1)
    } else {
        value_at(s.drop_last(), key)
    }
}

/// Whether a value holds no map: two such values are equal if they are built
/// alike.
pub open spec fn is_flat(v: Val) -> bool
    decreases v,
{
    match v {
        Val::Cons(h, t) => is_flat(*h) && is_flat(*t),
        Val::Tuple(s) => forall|i: int| 0 <= i < s.len() ==> is_flat(#[trigger] s[i]),
        Val::Dict(_) => false,
        _ => true,
    }
}

/// The integers from one to another.
pub open spec fn counted(a: int, b: int) -> Seq<Val>
    recommends
        a <= b + 1,
{
    Seq::new((b + 1 - a) as nat, |i: int| Val::Int(a + i))
}

/// What the functions of the module `erlang` return.
pub open spec fn erlang(f: Seq<char>, s: Seq<Val>) -> Option<Val> {
    if s.len() == 1 {
        erlang_of_one(f, s[0])
    } else if s.len() == 2 {
        erlang_of_two(f, s[0], s[1])
    } else if s.len() == 3 && f == "setelement"@ {
        match (s[0], s[1]) {
            (Val::Int(i), Val::Tuple(items)) => if 1 <= i <= items.len() {
                Some(Val::Tuple(items.update(i - 1, s[2])))
            } else {
                None
            },
            _ => None,
        }
    } else {
        None
    }
}

#[verifier::opaque]
pub open spec fn erlang_of_one(f: Seq<char>, v: Val) -> Option<Val> {
    if f == "-"@ {
        match v {
            Val::Int(a) => Some(Val::Int(-a)),
            _ => None,
        }
    } else if f == "abs"@ {
        match v {
            Val::Int(a) => Some(Val::Int(magnitude(a))),
            _ => None,
        }
    } else if f == "not"@ {
        match truth_in(v) {
            Some(b) => Some(truth(!b)),
            None => None,
        }
    } else if f == "length"@ {
        match elements(v) {
            Some(s) => Some(Val::Int(s.len() as int)),
            None => None,
        }
    } else if f == "hd"@ {
        match v {
            Val::Cons(h, _) => Some(*h),
            _ => None,
        }
    } else if f == "tl"@ {
        match v {
            Val::Cons(_, t) => Some(*t),
            _ => None,
        }
    } else if f == "tuple_size"@ {
        match v {
            Val::Tuple(s) => Some(Val::Int(s.len() as int)),
            _ => None,
        }
    } else if f == "byte_size"@ {
        match v {
            Val::Bytes(s) => Some(Val::Int(s.len() as int)),
            _ => None,
        }
    } else if f == "tuple_to_list"@ {
        match v {
            Val::Tuple(s) => Some(list_of(s)),
            _ => None,
        }
    } else if f == "list_to_tuple"@ {
        match elements(v) {
            Some(s) => Some(Val::Tuple(s)),
            None => None,
        }
    } else if f == "is_integer"@ {
        Some(truth(v is Int))
    } else if f == "is_atom"@ {
        Some(truth(v is Atom))
    } else if f == "is_boolean"@ {
        Some(truth(truth_in(v) is Some))
    } else if f == "is_list"@ {
        Some(truth(v is Nil || v is Cons))
    } else if f == "is_tuple"@ {
        Some(truth(v is Tuple))
    } else if f == "is_binary"@ {
        Some(truth(v is Bytes))
    } else if f == "is_map"@ {
        Some(truth(v is Dict))
    } else {
        None
    }
}

#[verifier::opaque]
pub open spec fn erlang_of_two(f: Seq<char>, v: Val, w: Val) -> Option<Val> {
    match (v, w) {
        (Val::Int(a), Val::Int(b)) => if f == "+"@ {
            Some(Val::Int(a + b))
        } else if f == "-"@ {
            Some(Val::Int(a - b))
        } else if f == "*"@ {
            Some(Val::Int(a * b))
        } else if f == "div"@ {
            if b == 0 {
                None
            } else {
                Some(Val::Int(quotient(a, b)))
            }
        } else if f == "rem"@ {
            if b == 0 {
                None
            } else {
                Some(Val::Int(remainder(a, b)))
            }
        } else if f == "<"@ {
            Some(truth(a < b))
        } else if f == "=<"@ {
            Some(truth(a <= b))
        } else if f == ">"@ {
            Some(truth(a > b))
        } else if f == ">="@ {
            Some(truth(a >= b))
        } else if f == "max"@ {
            Some(Val::Int(if a < b { b } else { a }))
        } else if f == "min"@ {
            Some(Val::Int(if b < a { b } else { a }))
        } else {
            equated(f, v, w)
        },
        _ => if f == "and"@ || f == "or"@ {
            match (truth_in(v), truth_in(w)) {
                (Some(a), Some(b)) => Some(
                    truth(
                        if f == "and"@ {
                            a && b
                        } else {
                            a || b
                        },
                    ),
                ),
                _ => None,
            }
        } else if f == "++"@ {
            match elements(v) {
                Some(s) => Some(list_onto(s, w)),
                None => None,
            }
        } else if f == "element"@ {
            match (v, w) {
                (Val::Int(i), Val::Tuple(items)) => if 1 <= i <= items.len() {
                    Some(items[i - 1])
                } else {
                    None
                },
                _ => None,
            }
        } else {
            equated(f, v, w)
        },
    }
}

/// Whether two values are equal, or are not.
#[verifier::opaque]
pub open spec fn equated(f: Seq<char>, v: Val, w: Val) -> Option<Val> {
    if !is_flat(v) || !is_flat(w) {
        None
    } else if f == "=:="@ || f == "=="@ {
        Some(truth(v == w))
    } else if f == "=/="@ || f == "/="@ {
        Some(truth(v != w))
    } else {
        None
    }
}

/// What functions of the module `lists` return.
#[verifier::opaque]
pub open spec fn lists(f: Seq<char>, s: Seq<Val>) -> Option<Val> {
    if s.len() == 1 && f == "reverse"@ {
        match elements(s[0]) {
            Some(x) => Some(list_of(x.reverse())),
            None => None,
        }
    } else if s.len() == 2 {
        match (s[0], s[1]) {
            (Val::Int(a), Val::Int(b)) if f == "seq"@ => if a <= b + 1 {
                Some(list_of(counted(a, b)))
            } else {
                None
            },
            _ => if f == "append"@ {
                match elements(s[0]) {
                    Some(x) => Some(list_onto(x, s[1])),
                    None => None,
                }
            } else if f == "member"@ {
                match elements(s[1]) {
                    Some(x) => if is_flat(s[0]) && is_flat(s[1]) {
                        Some(truth(x.contains(s[0])))
                    } else {
                        None
                    },
                    None => None,
                }
            } else if f == "nth"@ {
                match (s[0], elements(s[1])) {
                    (Val::Int(i), Some(x)) => if 1 <= i <= x.len() {
                        Some(x[i - 1])
                    } else {
                        None
                    },
                    _ => None,
                }
            } else if f == "nthtail"@ {
                match (s[0], elements(s[1])) {
                    (Val::Int(i), Some(x)) => if 0 <= i <= x.len() {
                        Some(list_of(x.skip(i)))
                    } else {
                        None
                    },
                    _ => None,
                }
            } else if f == "sublist"@ {
                match (elements(s[0]), s[1]) {
                    (Some(x), Val::Int(i)) => if 0 <= i {
                        Some(
                            list_of(
                                if i <= x.len() {
                                    x.take(i)
                                } else {
                                    x
                                },
                            ),
                        )
                    } else {
                        None
                    },
                    _ => None,
                }
            } else {
                None
            },
        }
    } else {
        None
    }
}

/// What functions of the module `maps` return.
#[verifier::opaque]
pub open spec fn maps(f: Seq<char>, s: Seq<Val>) -> Option<Val> {
    if s.len() == 2 && f == "get"@ {
        match s[1] {
            Val::Dict(d) => value_at(d, s[0]),
            _ => None,
        }
    } else if s.len() == 3 && f == "get"@ {
        match s[1] {
            Val::Dict(d) => match value_at(d, s[0]) {
                Some(v) => Some(v),
                None => Some(s[2]),
            },
            _ => None,
        }
    } else if s.len() == 2 && f == "is_key"@ {
        match s[1] {
            Val::Dict(d) => Some(truth(value_at(d, s[0]) is Some)),
            _ => None,
        }
    } else if s.len() == 3 && f == "put"@ {
        match s[2] {
            Val::Dict(d) => Some(Val::Dict(d.push((s[0], s[1])))),
            _ => None,
        }
    } else {
        None
    }
}

/// Whether the functions of a module are those above.
pub open spec fn is_library(module: Seq<char>) -> bool {
    module == "erlang"@ || module == "lists"@ || module == "maps"@
}

/// What a function of a module returns.
pub open spec fn returned(module: Seq<char>, f: Seq<char>, s: Seq<Val>, w: World) -> Option<Val> {
    if module == "erlang"@ {
        erlang(f, s)
    } else if module == "lists"@ {
        lists(f, s)
    } else if module == "maps"@ {
        maps(f, s)
    } else if f == "apply"@ {
        w(module, s)
    } else {
        None
    }
}

/// What a mapping function of `lists` makes of what its function returned for an
/// element, and of what it made of the elements behind it.
pub open spec fn mapped(f: Seq<char>, element: Val, r: Val, rest: Val) -> Option<Val> {
    if f == "map"@ {
        Some(Val::Cons(Box::new(r), Box::new(rest)))
    } else if f == "filtermap"@ {
        if r == truth(false) {
            Some(rest)
        } else if r == truth(true) {
            Some(Val::Cons(Box::new(element), Box::new(rest)))
        } else {
            match r {
                Val::Tuple(s) => if s.len() == 2 && s[0] == truth(true) {
                    Some(Val::Cons(Box::new(s[1]), Box::new(rest)))
                } else {
                    None
                },
                _ => None,
            }
        }
    } else if f == "flatmap"@ {
        match elements(r) {
            Some(s) => Some(list_onto(s, rest)),
            None => None,
        }
    } else {
        None
    }
}

pub open spec fn is_mapping(module: Seq<char>, f: Seq<char>, args: Seq<Core>) -> bool {
    module == "lists"@ && (f == "map"@ || f == "filtermap"@ || f == "flatmap"@) && args.len() == 2
        && args[0] is Fun && args[0]->Fun_0.len() == 1
}

pub open spec fn literal(l: Literal) -> Option<Val> {
    match l {
        Literal::Int(n) => Some(Val::Int(n)),
        Literal::Atom(a) => Some(Val::Atom(a)),
        Literal::Nil => Some(Val::Nil),
        _ => None,
    }
}

/// The variables after a value has matched a pattern.
pub open spec fn bound(p: Pat, v: Val, env: Env) -> Option<Env>
    decreases p,
{
    match p {
        Pat::Lit(l) => if literal(l) == Some(v) {
            Some(env)
        } else {
            None
        },
        Pat::Var(x) => if x == "_"@ {
            Some(env)
        } else {
            Some(env.insert(x, v))
        },
        Pat::Nil => if v is Nil {
            Some(env)
        } else {
            None
        },
        Pat::Cons(h, t) => match v {
            Val::Cons(a, b) => match bound(*h, *a, env) {
                Some(e) => bound(*t, *b, e),
                None => None,
            },
            _ => None,
        },
        Pat::Tuple(s) => match v {
            Val::Tuple(items) => bound_all(s, items, env),
            _ => None,
        },
        Pat::Alias(x, inner) => bound(*inner, v, env.insert(x, v)),
        Pat::Binary(_) => None,
    }
}

pub open spec fn bound_all(s: Seq<Pat>, items: Seq<Val>, env: Env) -> Option<Env>
    decreases s,
{
    if s.len() != items.len() {
        None
    } else if s.len() == 0 {
        Some(env)
    } else {
        match bound_all(s.drop_last(), items.drop_last(), env) {
            Some(e) => bound(s.last(), items.last(), e),
            None => None,
        }
    }
}

/// The value that an expression runs to. There is none if it fails, or if it is
/// more than values and functions of these libraries.
pub open spec fn run(c: Core, env: Env, w: World) -> Option<Val>
    decreases c, 0nat, Val::Nil,
{
    match c {
        Core::Lit(l) => literal(l),
        Core::Var(x) => if env.contains_key(x) {
            Some(env[x])
        } else {
            None
        },
        Core::Tuple(s) => match run_all(s, env, w) {
            Some(v) => Some(Val::Tuple(v)),
            None => None,
        },
        Core::Cons(h, t) => match (run(*h, env, w), run(*t, env, w)) {
            (Some(a), Some(b)) => Some(Val::Cons(Box::new(a), Box::new(b))),
            _ => None,
        },
        Core::MapLit(s) => match run_entries(s, env, w) {
            Some(d) => Some(Val::Dict(d)),
            None => None,
        },
        Core::Binary(s) => match run_segments(s, env, w) {
            Some(b) => Some(Val::Bytes(b)),
            None => None,
        },
        Core::Call(module, f, args) => if is_mapping(module, f, args) {
            match run(args[1], env, w) {
                Some(l) => run_over(f, args[0]->Fun_0[0], *args[0]->Fun_1, l, env, w),
                None => None,
            }
        } else {
            match run_all(args, env, w) {
                Some(s) => returned(module, f, s, w),
                None => None,
            }
        },
        Core::Let(s, body) => match run_values(s, env, env, w) {
            Some(e) => run(*body, e, w),
            None => None,
        },
        Core::Case(x, clauses) => match run(*x, env, w) {
            Some(v) => match taken(clauses, v, env, w) {
                Some(r) => r,
                None => None,
            },
            None => None,
        },
        Core::Sequence(a, b) => match run(*a, env, w) {
            Some(_) => run(*b, env, w),
            None => None,
        },
        Core::Try(body, vars, handler, _, _) => match run(*body, env, w) {
            Some(v) => if vars.len() == 1 {
                run(*handler, env.insert(vars[0], v), w)
            } else {
                None
            },
            None => None,
        },
        _ => None,
    }
}

pub open spec fn run_all(s: Seq<Core>, env: Env, w: World) -> Option<Seq<Val>>
    decreases s, 0nat, Val::Nil,
{
    if s.len() == 0 {
        Some(Seq::empty())
    } else {
        match (run_all(s.drop_last(), env, w), run(s.last(), env, w)) {
            (Some(v), Some(x)) => Some(v.push(x)),
            _ => None,
        }
    }
}

pub open spec fn run_entries(s: Seq<(Core, Core)>, env: Env, w: World) -> Option<Seq<(Val, Val)>>
    decreases s, 0nat, Val::Nil,
{
    if s.len() == 0 {
        Some(Seq::empty())
    } else {
        match (
            run_entries(s.drop_last(), env, w),
            run(s.last().0, env, w),
            run(s.last().1, env, w),
        ) {
            (Some(v), Some(x), Some(y)) => Some(v.push((x, y))),
            _ => None,
        }
    }
}

/// The bytes of one segment: a byte, or a whole binary.
pub open spec fn segment_bytes(
    v: Val,
    size: CoreBinarySize,
    kind: CoreBinaryKind,
) -> Option<Seq<u8>> {
    match v {
        Val::Int(n) => if 0 <= n < 256 && size == CoreBinarySize::Bits(8) && kind
            == CoreBinaryKind::Integer {
            Some(seq![n as u8])
        } else {
            None
        },
        Val::Bytes(b) => if size == CoreBinarySize::All && kind == CoreBinaryKind::Binary {
            Some(b)
        } else {
            None
        },
        _ => None,
    }
}

pub open spec fn run_segments(s: Seq<Segment>, env: Env, w: World) -> Option<Seq<u8>>
    decreases s, 0nat, Val::Nil,
{
    if s.len() == 0 {
        Some(Seq::empty())
    } else {
        match (run_segments(s.drop_last(), env, w), run(s.last().value, env, w)) {
            (Some(b), Some(v)) => match segment_bytes(v, s.last().size, s.last().kind) {
                Some(x) => Some(b + x),
                None => None,
            },
            _ => None,
        }
    }
}

/// The variables of a `let`: all values are those of the scope around it.
pub open spec fn run_values(
    s: Seq<(Seq<char>, Core)>,
    outer: Env,
    env: Env,
    w: World,
) -> Option<Env>
    decreases s, 0nat, Val::Nil,
{
    if s.len() == 0 {
        Some(env)
    } else {
        match (run_values(s.drop_last(), outer, env, w), run(s.last().1, outer, w)) {
            (Some(e), Some(v)) => Some(e.insert(s.last().0, v)),
            _ => None,
        }
    }
}

/// What one clause comes to for a value, if it is taken.
pub open spec fn run_clause(c: Clause, v: Val, env: Env, w: World) -> Option<Option<Val>>
    decreases c, 0nat, Val::Nil,
{
    if c.patterns.len() != 1 {
        None
    } else {
        match bound(c.patterns[0], v, env) {
            None => None,
            Some(e) => match run(c.guard, e, w) {
                Some(g) => match truth_in(g) {
                    Some(true) => Some(run(c.body, e, w)),
                    Some(false) => None,
                    None => Some(None),
                },
                None => Some(None),
            },
        }
    }
}

/// What the first clause that is taken comes to.
pub open spec fn taken(s: Seq<Clause>, v: Val, env: Env, w: World) -> Option<Option<Val>>
    decreases s, 0nat, Val::Nil,
{
    if s.len() == 0 {
        None
    } else {
        match taken(s.drop_last(), v, env, w) {
            Some(r) => Some(r),
            None => run_clause(s.last(), v, env, w),
        }
    }
}

/// What a mapping function of `lists` comes to.
pub open spec fn run_over(f: Seq<char>, x: Seq<char>, body: Core, l: Val, env: Env, w: World) -> Option<
    Val,
>
    decreases body, 1nat, l,
{
    match l {
        Val::Nil => Some(Val::Nil),
        Val::Cons(h, t) => match (
            run(body, env.insert(x, *h), w),
            run_over(f, x, body, *t, env, w),
        ) {
            (Some(r), Some(rest)) => mapped(f, *h, r, rest),
            _ => None,
        },
        _ => None,
    }
}

} // verus!
