//! Translation of expressions and patterns to Core Erlang.
use vstd::prelude::*;
use crate::ast::{
    path_parts, BinOp, BinarySegmentSpecifier, BitStringPatternSegment, BitStringSegment, CatchArm,
    Expr, FloatLiteral, InterpolatedPart, MatchArm, Param, Path, Pattern, Stmt, UnaryOp,
};
use crate::builtins::{builtin, builtin_call};
use crate::decode::{concat, concat_shape};
use crate::erlang::{
    clause_of, clauses_of, core_of, cores_of, entries_of, pat_of, pat_segments_of, pats_of,
    segments_of, Clause, Core, CoreBinaryKind, CoreBinaryPatternSegment, CoreBinarySegment,
    CoreBinarySize, CoreClause, CoreExpr, CoreLit, CorePattern, Literal, Pat, PatSegment, Segment,
};
use crate::fresh::{fresh_name, FreshVars};
use crate::make;
use crate::names::text_of;
use crate::shape;
use crate::text::{chars_of, decimal, push_usize, same, texts};

verus! {

/// Whether Unicode gives a character the Uppercase property.
pub uninterp spec fn unicode_uppercase(c: char) -> bool;

/// `char::is_uppercase` says whether the character has the Uppercase property
/// of the Unicode Character Database. Of ASCII these are the capital letters; the
/// rest of the table is not written out here.
pub assume_specification[ char::is_uppercase ](c: char) -> (r: bool)
    ensures
        r == unicode_uppercase(c),
        c as u32 <= 127 ==> r == ('A' <= c && c <= 'Z'),
;

/// Whether a character has the Uppercase property.
pub open spec fn char_is_uppercase(c: char) -> bool {
    if c as u32 <= 127 {
        'A' <= c && c <= 'Z'
    } else {
        unicode_uppercase(c)
    }
}

/// The uppercase form of an ASCII letter; any other character stays.
pub open spec fn ascii_upper(c: char) -> char {
    if 'a' <= c && c <= 'z' {
        ((c as u32 - 32) as u8) as char
    } else {
        c
    }
}

/// The lowercase form of an ASCII letter; any other character stays.
pub open spec fn ascii_lower(c: char) -> char {
    if 'A' <= c && c <= 'Z' {
        ((c as u32 + 32) as u8) as char
    } else {
        c
    }
}

/// A source name as a Core Erlang variable, which starts with a capital.
pub open spec fn core_var(name: Seq<char>) -> Seq<char> {
    if name.len() == 0 {
        name
    } else {
        name.update(0, ascii_upper(name[0]))
    }
}

/// A name in PascalCase as a name in snake_case.
pub open spec fn snake_case(s: Seq<char>) -> Seq<char>
    decreases s.len(),
{
    if s.len() == 0 {
        Seq::empty()
    } else {
        let c = s.last();
        let rest = snake_case(s.drop_last());
        if char_is_uppercase(c) {
            if s.len() > 1 {
                rest.push('_').push(ascii_lower(c))
            } else {
                rest.push(ascii_lower(c))
            }
        } else {
            rest.push(c)
        }
    }
}

/// A text with every tilde doubled.
pub open spec fn tildes_doubled(s: Seq<char>) -> Seq<char>
    decreases s.len(),
{
    if s.len() == 0 {
        Seq::empty()
    } else if s.last() == '~' {
        tildes_doubled(s.drop_last()).push('~').push('~')
    } else {
        tildes_doubled(s.drop_last()).push(s.last())
    }
}

/// The functions that a call may name: by name and arity, with the module that
/// holds each. The local ones come first.
pub struct SymbolTable {
    pub functions: Seq<(Seq<char>, nat, Seq<char>)>,
    pub resolved: Seq<(Seq<char>, nat, Seq<char>)>,
}

/// The module of the first entry with the given name and arity.
pub open spec fn first_module(
    s: Seq<(Seq<char>, nat, Seq<char>)>,
    name: Seq<char>,
    arity: nat,
) -> Option<Seq<char>>
    decreases s.len(),
{
    if s.len() == 0 {
        None
    } else if s[0].0 == name && s[0].1 == arity {
        Some(s[0].2)
    } else {
        first_module(s.drop_first(), name, arity)
    }
}

/// The module that a call by name and arity goes to.
pub open spec fn linked(tab: SymbolTable, name: Seq<char>, arity: nat) -> Option<Seq<char>> {
    match first_module(tab.functions, name, arity) {
        Some(m) => Some(m),
        None => first_module(tab.resolved, name, arity),
    }
}

/// The module of a built-in that a value may be piped into.
pub open spec fn pipe_module(name: Seq<char>) -> Option<Seq<char>> {
    if name == "length"@ || name == "hd"@ || name == "tl"@ || name == "abs"@ {
        Some("erlang"@)
    } else if name == "reverse"@ || name == "sort"@ || name == "flatten"@ {
        Some("lists"@)
    } else {
        None
    }
}

/// The Erlang operator of a binary operator; concatenation and piping have none.
pub open spec fn erlang_op(op: BinOp) -> Seq<char> {
    match op {
        BinOp::Add => "+"@,
        BinOp::Sub => "-"@,
        BinOp::Mul => "*"@,
        BinOp::Div => "div"@,
        BinOp::Mod => "rem"@,
        BinOp::Eq => "=:="@,
        BinOp::NotEq => "=/="@,
        BinOp::Lt => "<"@,
        BinOp::LtEq => "=<"@,
        BinOp::Gt => ">"@,
        BinOp::GtEq => ">="@,
        BinOp::And => "and"@,
        BinOp::Or => "or"@,
        BinOp::Concat => ""@,
        BinOp::Pipe => ""@,
    }
}

pub open spec fn bool_atom(b: bool) -> Seq<char> {
    if b {
        "true"@
    } else {
        "false"@
    }
}

pub open spec fn kind_of(s: BinarySegmentSpecifier) -> CoreBinaryKind {
    match s {
        BinarySegmentSpecifier::Integer => CoreBinaryKind::Integer,
        BinarySegmentSpecifier::BigInteger => CoreBinaryKind::BigInteger,
        BinarySegmentSpecifier::Binary => CoreBinaryKind::Binary,
        BinarySegmentSpecifier::Utf8 => CoreBinaryKind::Utf8,
    }
}

/// The size of a segment: a binary takes all that is left, any other eight
/// bits, unless a size is given.
pub open spec fn size_of(size: Option<u32>, kind: CoreBinaryKind) -> CoreBinarySize {
    match size {
        Some(bits) => CoreBinarySize::Bits(bits),
        None => match kind {
            CoreBinaryKind::Binary => CoreBinarySize::All,
            _ => CoreBinarySize::Bits(8),
        },
    }
}

/// The translation of a pattern.
pub open spec fn lowered_pattern(p: Pattern) -> Pat
    decreases p,
{
    match p {
        Pattern::Wildcard => shape::pvar("_"@),
        Pattern::Var(name) => shape::pvar(core_var(name@)),
        Pattern::Int(i) => Pat::Lit(Literal::Int(i as int)),
        Pattern::Float(f) => Pat::Lit(Literal::Float(f.bits, f.text@)),
        Pattern::Char(c) => Pat::Lit(Literal::Int(c as int)),
        Pattern::String(s) => Pat::Binary(shape::byte_patterns(s@)),
        Pattern::Bool(b) => shape::patom(bool_atom(b)),
        Pattern::Atom(a) => shape::patom(a@),
        Pattern::Tuple(items) => if items@.len() == 0 {
            shape::patom("ok"@)
        } else {
            Pat::Tuple(lowered_patterns(items@))
        },
        Pattern::List(items, tail) => {
            let end = match tail {
                Some(rest) => lowered_pattern(*rest),
                None => Pat::Nil,
            };
            list_pattern(items@, end)
        },
        Pattern::Constructor(path, fields) => Pat::Tuple(
            seq![shape::patom(snake_case(path.name@))] + lowered_patterns(fields@),
        ),
        Pattern::Record(fields) => Pat::Tuple(lowered_field_patterns(fields@)),
        Pattern::BitString(segments) => Pat::Binary(
            lowered_segment_patterns(segments@, segments@.len()),
        ),
        Pattern::Or(left, _) => lowered_pattern(*left),
    }
}

pub open spec fn lowered_patterns(s: Seq<Pattern>) -> Seq<Pat>
    decreases s,
{
    if s.len() == 0 {
        Seq::empty()
    } else {
        lowered_patterns(s.drop_last()).push(lowered_pattern(s.last()))
    }
}

/// The patterns of a list's first elements in front of that of its tail.
pub open spec fn list_pattern(s: Seq<Pattern>, end: Pat) -> Pat
    decreases s,
{
    if s.len() == 0 {
        end
    } else {
        list_pattern(
            s.drop_last(),
            Pat::Cons(Box::new(lowered_pattern(s.last())), Box::new(end)),
        )
    }
}

pub open spec fn lowered_field_patterns(s: Seq<(String, Pattern)>) -> Seq<Pat>
    decreases s,
{
    if s.len() == 0 {
        Seq::empty()
    } else {
        lowered_field_patterns(s.drop_last()).push(
            shape::ptup2(shape::patom(s.last().0@), lowered_pattern(s.last().1)),
        )
    }
}

/// The kind of a bit string pattern's segment. Without a size, an integer
/// segment is a binary if it is the last of all and takes any value, or if it
/// is a text or a bit string itself.
pub open spec fn pattern_kind(segment: BitStringPatternSegment, is_last: bool) -> CoreBinaryKind {
    let open_end = is_last && (segment.value is Var || segment.value is Wildcard);
    let nested = segment.value is String || segment.value is BitString;
    match segment.specifier {
        BinarySegmentSpecifier::Integer => if segment.size is None && (open_end || nested) {
            CoreBinaryKind::Binary
        } else {
            CoreBinaryKind::Integer
        },
        _ => kind_of(segment.specifier),
    }
}

/// The first segments of a bit string pattern that has `total` of them.
pub open spec fn lowered_segment_patterns(s: Seq<BitStringPatternSegment>, total: nat) -> Seq<
    PatSegment,
>
    decreases s,
{
    if s.len() == 0 {
        Seq::empty()
    } else {
        let kind = pattern_kind(s.last(), s.len() == total);
        lowered_segment_patterns(s.drop_last(), total).push(
            PatSegment {
                pattern: lowered_pattern(s.last().value),
                size: size_of(s.last().size, kind),
                kind,
            },
        )
    }
}

/// What a statement of a block binds.
pub enum Part {
    Simple(Seq<char>, Core),
    Destructure(Pat, Core),
}

/// The body behind the parts, the first of them outermost.
pub open spec fn wrapped(parts: Seq<Part>, body: Core) -> Core
    decreases parts.len(),
{
    if parts.len() == 0 {
        body
    } else {
        wrapped(
            parts.drop_last(),
            match parts.last() {
                Part::Simple(name, value) => shape::let1(name, value, body),
                Part::Destructure(pattern, value) => shape::case1(value, shape::when(pattern, body)),
            },
        )
    }
}

/// Whether a `cond` arm is the one for all other cases.
pub open spec fn is_else(c: Expr) -> bool {
    match c {
        Expr::Var(name) => name@ == "_"@,
        Expr::Bool(b) => b,
        _ => false,
    }
}

/// The translation of an expression when `n` is the next free variable, and
/// the next free variable after it.
pub open spec fn lowered(e: Expr, tab: SymbolTable, n: nat) -> (Core, nat)
    decreases e, 1nat, 0nat,
{
    match e {
        Expr::Int(i) => (shape::num(i as int), n),
        Expr::Float(f) => (Core::Lit(Literal::Float(f.bits, f.text@)), n),
        Expr::Char(c) => (shape::num(c as int), n),
        Expr::String(s) => (shape::binary_text(s@), n),
        Expr::InterpolatedString(parts) => {
            let (format, args, n1) = lowered_parts(parts@, tab, n);
            (
                shape::call1(
                    "erlang"@,
                    "iolist_to_binary"@,
                    shape::call2("io_lib"@, "format"@, shape::string(format), shape::listed(args)),
                ),
                n1,
            )
        },
        Expr::Bool(b) => (shape::atom(bool_atom(b)), n),
        Expr::Atom(a) => (shape::atom(a@), n),
        Expr::Unit => (shape::atom("ok"@), n),
        Expr::Var(name) => (shape::var(core_var(name@)), n),
        Expr::Tuple(items) => {
            let (v, n1) = lowered_all(items@, tab, n);
            (Core::Tuple(v), n1)
        },
        Expr::List(items, tail) => {
            let (v, n1) = lowered_all(items@, tab, n);
            let (t, n2) = match tail {
                Some(rest) => lowered(*rest, tab, n1),
                None => (shape::nil(), n1),
            };
            (shape::listed_onto(v, t), n2)
        },
        Expr::MapLit(entries) => {
            let (v, n1) = lowered_entries(entries@, tab, n);
            (Core::MapLit(v), n1)
        },
        Expr::Range(start, end, inclusive) => {
            let (a, n1) = lowered(*start, tab, n);
            let (b, n2) = lowered(*end, tab, n1);
            let last = if inclusive {
                b
            } else {
                shape::call2("erlang"@, "-"@, b, shape::num(1))
            };
            (shape::call2("lists"@, "seq"@, a, last), n2)
        },
        Expr::ListComp { expr, generators, filters } => if generators@.len() == 0 {
            let (x, n1) = lowered(*expr, tab, n);
            (shape::cons(x, shape::nil()), n1)
        } else {
            lowered_comp(e, tab, 0, false, n)
        },
        Expr::Binary(left, op, right) => {
            let (l, n1) = lowered(*left, tab, n);
            let (r, n2) = lowered(*right, tab, n1);
            match op {
                BinOp::Concat => (concat_shape(l, r, n2), n2 + 2),
                BinOp::Pipe => (
                    match pipe_target(*right, tab) {
                        Some((m, f)) => shape::call1(m, f, l),
                        None => shape::apply1(r, l),
                    },
                    n2,
                ),
                _ => (shape::call2("erlang"@, erlang_op(op), l, r), n2),
            }
        },
        Expr::Unary(op, inner) => {
            let (x, n1) = lowered(*inner, tab, n);
            (
                match op {
                    UnaryOp::Neg => shape::call1("erlang"@, "-"@, x),
                    UnaryOp::Not => shape::call1("erlang"@, "not"@, x),
                },
                n1,
            )
        },
        Expr::Cond(arms) => if arms@.len() == 0 {
            (shape::atom("ok"@), n)
        } else {
            lowered_cond(arms@, tab, shape::atom("nil"@), n)
        },
        Expr::If(c, yes, no) => {
            let (x, n1) = lowered(*c, tab, n);
            let (a, n2) = lowered(*yes, tab, n1);
            let (b, n3) = match no {
                Some(other) => lowered(*other, tab, n2),
                None => (shape::atom("ok"@), n2),
            };
            (shape::if_else(x, a, b), n3)
        },
        Expr::Match(scrutinee, arms) => {
            let (x, n1) = lowered(*scrutinee, tab, n);
            let (v, n2) = lowered_arms(arms@, tab, n1);
            (Core::Case(Box::new(x), v), n2)
        },
        Expr::Block(stmts, last) => {
            let (parts, n1) = lowered_stmts(stmts@, tab, n);
            let (body, n2) = match last {
                Some(value) => lowered(*value, tab, n1),
                None => (shape::atom("ok"@), n1),
            };
            (wrapped(parts, body), n2)
        },
        Expr::Call(func, args) => {
            let (v, n1) = lowered_all(args@, tab, n);
            match direct_call(*func, tab, v, n1) {
                Some(r) => r,
                None => {
                    let (f, n2) = lowered(*func, tab, n1);
                    (Core::Apply(Box::new(f), v), n2)
                },
            }
        },
        Expr::Lambda(params, body) => {
            let (x, n1) = lowered(*body, tab, n);
            (Core::Fun(param_vars(params@), Box::new(x)), n1)
        },
        Expr::Spawn(thunk) => {
            let (x, n1) = lowered(*thunk, tab, n);
            (shape::call1("erlang"@, "spawn"@, x), n1)
        },
        Expr::Send(pid, msg) => {
            let (a, n1) = lowered(*pid, tab, n);
            let (b, n2) = lowered(*msg, tab, n1);
            (shape::call2("erlang"@, "send"@, a, b), n2)
        },
        Expr::Receive { arms, timeout } => {
            let (v, n1) = lowered_arms(arms@, tab, n);
            match timeout {
                Some((ms, body)) => {
                    let (a, n2) = lowered(*ms, tab, n1);
                    let (b, n3) = lowered(*body, tab, n2);
                    (Core::Receive(v, Some((Box::new(a), Box::new(b)))), n3)
                },
                None => (Core::Receive(v, None), n1),
            }
        },
        Expr::SelfPid => (shape::call0("erlang"@, "self"@), n),
        Expr::Try { body, catch_arms } => {
            let (x, n1) = lowered(*body, tab, n);
            let success = fresh_name(n1);
            let class = fresh_name(n1 + 1);
            let reason = fresh_name(n1 + 2);
            let stack = fresh_name(n1 + 3);
            let (c, n2) = if catch_arms@.len() == 0 {
                (shape::raise(stack, reason), n1 + 4)
            } else {
                let (v, n2) = lowered_catch_arms(catch_arms@, tab, n1 + 4);
                (
                    Core::Case(
                        Box::new(shape::tup2(shape::var(class), shape::var(reason))),
                        v.push(
                            shape::when(
                                shape::ptup2(shape::pvar("_Class"@), shape::pvar("_Reason"@)),
                                shape::raise(stack, reason),
                            ),
                        ),
                    ),
                    n2,
                )
            };
            (shape::try1(x, success, shape::var(success), class, reason, stack, c), n2)
        },
        Expr::Return(value) => match value {
            Some(inner) => lowered(*inner, tab, n),
            None => (shape::atom("ok"@), n),
        },
        Expr::Index(container, key) => {
            let (a, n1) = lowered(*container, tab, n);
            let (b, n2) = lowered(*key, tab, n1);
            (shape::call2("maps"@, "get"@, b, a), n2)
        },
        Expr::Field(obj, field) => {
            let (x, n1) = lowered(*obj, tab, n);
            (shape::call2("maps"@, "get"@, shape::atom(field@), x), n1)
        },
        Expr::Path(path) => if path.qualifiers@.len() == 0 {
            (shape::var(core_var(path.name@)), n)
        } else {
            (shape::tup1(shape::atom(snake_case(path.name@))), n)
        },
        Expr::MethodCall(obj, method, args) => {
            let (x, n1) = lowered(*obj, tab, n);
            let (v, n2) = lowered_all(args@, tab, n1);
            let all = seq![x] + v;
            (Core::Apply(Box::new(shape::var(method_var(method@, all.len()))), all), n2)
        },
        Expr::BitString(segments) => {
            let (v, n1) = lowered_segments(segments@, tab, n);
            (Core::Binary(v), n1)
        },
        Expr::StructInit(_, fields) => {
            let (v, n1) = lowered_fields(fields@, tab, n);
            (Core::MapLit(v), n1)
        },
        Expr::Record(fields) => {
            let (v, n1) = lowered_record(fields@, tab, n);
            (shape::call1("maps"@, "from_list"@, shape::listed(v)), n1)
        },
    }
}

/// The variable that stands for a method.
pub open spec fn method_var(method: Seq<char>, arity: nat) -> Seq<char> {
    "'"@ + method + "'/"@ + decimal(arity)
}

/// The parameters of a function as variables.
pub open spec fn param_vars(params: Seq<Param>) -> Seq<Seq<char>> {
    Seq::new(params.len(), |i: int| core_var(params[i].name@))
}

/// The module and the function that a value is piped into.
pub open spec fn pipe_target(right: Expr, tab: SymbolTable) -> Option<(Seq<char>, Seq<char>)> {
    match right {
        Expr::Var(name) => match pipe_module(name@) {
            Some(m) => Some((m, name@)),
            None => match linked(tab, name@, 1) {
                Some(m) => Some((m, "apply"@)),
                None => None,
            },
        },
        _ => None,
    }
}

/// Whether a name starts with a capital.
pub open spec fn capitalised(name: Seq<char>) -> bool {
    name.len() > 0 && char_is_uppercase(name[0])
}

/// A call that names its function: a built-in, a function known by name and
/// arity, a constructor, or a function of another module.
pub open spec fn direct_call(func: Expr, tab: SymbolTable, args: Seq<Core>, n: nat) -> Option<
    (Core, nat),
> {
    match func {
        Expr::Var(name) => match builtin(name@, args, n) {
            Some(r) => Some(r),
            None => match linked(tab, name@, args.len()) {
                Some(m) => Some((Core::Call(m, "apply"@, args), n)),
                None => None,
            },
        },
        Expr::Path(path) => if path.qualifiers@.len() == 0 {
            None
        } else if capitalised(path_parts(path)[0]) {
            Some((Core::Tuple(seq![shape::atom(snake_case(path.name@))] + args), n))
        } else {
            Some((Core::Call(path_parts(path)[0], path.name@, args), n))
        },
        _ => None,
    }
}

/// Expressions in order.
pub open spec fn lowered_all(s: Seq<Expr>, tab: SymbolTable, n: nat) -> (Seq<Core>, nat)
    decreases s, 0nat, 0nat,
{
    if s.len() == 0 {
        (Seq::empty(), n)
    } else {
        let (v, n1) = lowered_all(s.drop_last(), tab, n);
        let (x, n2) = lowered(s.last(), tab, n1);
        (v.push(x), n2)
    }
}

/// The entries of a map.
pub open spec fn lowered_entries(s: Seq<(Expr, Expr)>, tab: SymbolTable, n: nat) -> (Seq<(Core, Core)>, nat)
    decreases s, 0nat, 0nat,
{
    if s.len() == 0 {
        (Seq::empty(), n)
    } else {
        let (v, n1) = lowered_entries(s.drop_last(), tab, n);
        let (x, n2) = lowered(s.last().0, tab, n1);
        let (y, n3) = lowered(s.last().1, tab, n2);
        (v.push((x, y)), n3)
    }
}

/// The fields of a struct, by atoms.
pub open spec fn lowered_fields(s: Seq<(String, Expr)>, tab: SymbolTable, n: nat) -> (Seq<(Core, Core)>, nat)
    decreases s, 0nat, 0nat,
{
    if s.len() == 0 {
        (Seq::empty(), n)
    } else {
        let (v, n1) = lowered_fields(s.drop_last(), tab, n);
        let (x, n2) = lowered(s.last().1, tab, n1);
        (v.push((shape::atom(s.last().0@), x)), n2)
    }
}

/// The fields of a record: names and values in turn.
pub open spec fn lowered_record(s: Seq<(String, Expr)>, tab: SymbolTable, n: nat) -> (Seq<Core>, nat)
    decreases s, 0nat, 0nat,
{
    if s.len() == 0 {
        (Seq::empty(), n)
    } else {
        let (v, n1) = lowered_record(s.drop_last(), tab, n);
        let (x, n2) = lowered(s.last().1, tab, n1);
        (v.push(shape::atom(s.last().0@)).push(x), n2)
    }
}

/// The format and the arguments of an interpolated string.
pub open spec fn lowered_parts(s: Seq<InterpolatedPart>, tab: SymbolTable, n: nat) -> (
    Seq<char>,
    Seq<Core>,
    nat,
)
    decreases s, 0nat, 0nat,
{
    if s.len() == 0 {
        (Seq::empty(), Seq::empty(), n)
    } else {
        let (t, v, n1) = lowered_parts(s.drop_last(), tab, n);
        match s.last() {
            InterpolatedPart::Literal(l) => (t + tildes_doubled(l@), v, n1),
            InterpolatedPart::Expr(e) => {
                let (x, n2) = lowered(e, tab, n1);
                (t + "~p"@, v.push(x), n2)
            },
        }
    }
}

/// A segment of a bit string. A text or a bit string inside one, without a
/// size, is a binary.
pub open spec fn lowered_segment(segment: BitStringSegment, tab: SymbolTable, n: nat) -> (
    Segment,
    nat,
)
    decreases segment, 0nat, 0nat,
{
    let (x, n1) = lowered(segment.value, tab, n);
    let nested = segment.value is String || segment.value is InterpolatedString
        || segment.value is BitString;
    let kind = if segment.size is None && nested && segment.specifier
        == BinarySegmentSpecifier::Integer {
        CoreBinaryKind::Binary
    } else {
        kind_of(segment.specifier)
    };
    (Segment { value: x, size: size_of(segment.size, kind), kind }, n1)
}

/// The segments of a bit string.
pub open spec fn lowered_segments(s: Seq<BitStringSegment>, tab: SymbolTable, n: nat) -> (Seq<Segment>, nat)
    decreases s, 0nat, 0nat,
{
    if s.len() == 0 {
        (Seq::empty(), n)
    } else {
        let (v, n1) = lowered_segments(s.drop_last(), tab, n);
        let (x, n2) = lowered_segment(s.last(), tab, n1);
        (v.push(x), n2)
    }
}

/// The first arms of a `cond`; `other` is what the arms behind them come to.
pub open spec fn lowered_cond(s: Seq<(Expr, Expr)>, tab: SymbolTable, other: Core, n: nat) -> (
    Core,
    nat,
)
    decreases s, 0nat, 0nat,
{
    if s.len() == 0 {
        (other, n)
    } else {
        let (c, n1) = lowered(s.last().0, tab, n);
        let (b, n2) = lowered(s.last().1, tab, n1);
        let here = if is_else(s.last().0) {
            b
        } else {
            shape::if_else(c, b, other)
        };
        lowered_cond(s.drop_last(), tab, here, n2)
    }
}

pub open spec fn lowered_arm(arm: MatchArm, tab: SymbolTable, n: nat) -> (Clause, nat)
    decreases arm, 0nat, 0nat,
{
    let (g, n1) = match arm.guard {
        Some(guard) => lowered(guard, tab, n),
        None => (shape::atom("true"@), n),
    };
    let (b, n2) = lowered(arm.body, tab, n1);
    (shape::guarded(lowered_pattern(arm.pattern), g, b), n2)
}

pub open spec fn lowered_catch_arm(arm: CatchArm, tab: SymbolTable, n: nat) -> (Clause, nat)
    decreases arm, 0nat, 0nat,
{
    let class = match arm.class {
        Some(c) => shape::patom(c@),
        None => shape::pvar("_"@),
    };
    let (b, n1) = lowered(arm.body, tab, n);
    (shape::when(shape::ptup2(class, lowered_pattern(arm.pattern)), b), n1)
}

/// The arms of `match` or `receive`.
pub open spec fn lowered_arms(s: Seq<MatchArm>, tab: SymbolTable, n: nat) -> (Seq<Clause>, nat)
    decreases s, 0nat, 0nat,
{
    if s.len() == 0 {
        (Seq::empty(), n)
    } else {
        let (v, n1) = lowered_arms(s.drop_last(), tab, n);
        let (x, n2) = lowered_arm(s.last(), tab, n1);
        (v.push(x), n2)
    }
}

/// The arms of `catch`.
pub open spec fn lowered_catch_arms(s: Seq<CatchArm>, tab: SymbolTable, n: nat) -> (Seq<Clause>, nat)
    decreases s, 0nat, 0nat,
{
    if s.len() == 0 {
        (Seq::empty(), n)
    } else {
        let (v, n1) = lowered_catch_arms(s.drop_last(), tab, n);
        let (x, n2) = lowered_catch_arm(s.last(), tab, n1);
        (v.push(x), n2)
    }
}

/// A statement of a block: what it binds.
pub open spec fn lowered_stmt(stmt: Stmt, tab: SymbolTable, n: nat) -> (Part, nat)
    decreases stmt, 0nat, 0nat,
{
    match stmt {
        Stmt::Let(pattern, init) => {
            let (x, n1) = lowered(init, tab, n);
            match pattern {
                Pattern::Var(name) => (Part::Simple(core_var(name@), x), n1),
                Pattern::Wildcard => (Part::Simple(fresh_name(n1), x), n1 + 1),
                _ => (Part::Destructure(lowered_pattern(pattern), x), n1),
            }
        },
        Stmt::Expr(e) => {
            let (x, n1) = lowered(e, tab, n + 1);
            (Part::Simple(fresh_name(n), x), n1)
        },
    }
}

/// The statements of a block.
pub open spec fn lowered_stmts(s: Seq<Stmt>, tab: SymbolTable, n: nat) -> (Seq<Part>, nat)
    decreases s, 0nat, 0nat,
{
    if s.len() == 0 {
        (Seq::empty(), n)
    } else {
        let (v, n1) = lowered_stmts(s.drop_last(), tab, n);
        let (x, n2) = lowered_stmt(s.last(), tab, n1);
        (v.push(x), n2)
    }
}

/// Filters, all of which must hold.
pub open spec fn lowered_filters(s: Seq<Expr>, tab: SymbolTable, n: nat) -> (Core, nat)
    decreases s, 0nat, 0nat,
{
    if s.len() == 0 {
        (shape::atom("true"@), n)
    } else if s.len() == 1 {
        lowered(s[0], tab, n)
    } else {
        let (acc, n1) = lowered_filters(s.drop_last(), tab, n);
        let (f, n2) = lowered(s.last(), tab, n1);
        (shape::call2("erlang"@, "and"@, acc, f), n2)
    }
}

/// How many generators of a list comprehension are left from `at` on.
pub open spec fn generators_left(e: Expr, at: nat) -> nat {
    match e {
        Expr::ListComp { expr, generators, filters } => if at < generators@.len() {
            (generators@.len() - at) as nat
        } else {
            0
        },
        _ => 0,
    }
}

/// A list comprehension from generator number `at` on. One generator that binds
/// one variable maps over the source, and leaves out what its filters reject;
/// else each generator maps its elements to lists and joins those.
pub open spec fn lowered_comp(e: Expr, tab: SymbolTable, at: nat, plain_item: bool, n: nat) -> (
    Core,
    nat,
)
    decreases e, 0nat, generators_left(e, at),
{
    match e {
        Expr::ListComp { expr, generators, filters } => if at >= generators@.len() {
            let (x, n1) = lowered(*expr, tab, n);
            if filters@.len() == 0 {
                if plain_item {
                    (x, n1)
                } else {
                    (shape::cons(x, shape::nil()), n1)
                }
            } else {
                let (f, n2) = lowered_filters(filters@, tab, n1);
                if plain_item {
                    (
                        shape::if_else(
                            f,
                            shape::tup2(shape::atom("true"@), x),
                            shape::atom("false"@),
                        ),
                        n2,
                    )
                } else {
                    (shape::if_else(f, shape::cons(x, shape::nil()), shape::nil()), n2)
                }
            }
        } else {
            let g = generators@[at as int];
            let (source, n1) = lowered(g.source, tab, n);
            let simple = generators@.len() == 1 && g.pattern is Var;
            let (inner, n2) = lowered_comp(e, tab, at + 1, simple, n1);
            if simple {
                (
                    shape::call2(
                        "lists"@,
                        if filters@.len() == 0 {
                            "map"@
                        } else {
                            "filtermap"@
                        },
                        shape::fun1(core_var(g.pattern->Var_0@), inner),
                        source,
                    ),
                    n2,
                )
            } else {
                let item = fresh_name(n2);
                (
                    shape::call2(
                        "lists"@,
                        "flatmap"@,
                        shape::fun1(
                            item,
                            shape::case2(
                                shape::var(item),
                                shape::when(lowered_pattern(g.pattern), inner),
                                shape::when(shape::pvar("_"@), shape::nil()),
                            ),
                        ),
                        source,
                    ),
                    n2 + 1,
                )
            }
        },
        _ => (shape::nil(), n),
    }
}

/// A function of the module that is being translated.
pub struct LocalFunctionSymbol {
    pub source_name: String,
    pub body_hash: String,
    pub abi_hash: String,
    pub artifact_hash: String,
    pub build_key: String,
    pub module_name: String,
    pub arity: usize,
}

/// A function of another namespace entry, with the module that holds it.
pub struct ResolvedSymbol {
    pub name: String,
    pub arity: usize,
    pub module: String,
}

pub open spec fn locals_of(v: Seq<LocalFunctionSymbol>) -> Seq<(Seq<char>, nat, Seq<char>)> {
    Seq::new(v.len(), |i: int| (v[i].source_name@, v[i].arity as nat, v[i].module_name@))
}

pub open spec fn resolved_of(v: Seq<ResolvedSymbol>) -> Seq<(Seq<char>, nat, Seq<char>)> {
    Seq::new(v.len(), |i: int| (v[i].name@, v[i].arity as nat, v[i].module@))
}

/// The functions that calls may name.
pub struct Symbols {
    pub functions: Vec<LocalFunctionSymbol>,
    pub resolved: Vec<ResolvedSymbol>,
}

impl Symbols {
    /// What a translation reads of the symbols. The addresses and the build key
    /// of a function do not reach it.
    pub open spec fn table(self) -> SymbolTable {
        SymbolTable {
            functions: locals_of(self.functions@),
            resolved: resolved_of(self.resolved@),
        }
    }

    /// The first local function with the given name and arity.
    pub fn lookup_function_symbol(&self, name: &str, arity: usize) -> (r: Option<usize>)
        ensures
            match r {
                Some(i) => i < self.functions@.len() && first_module(
                    self.table().functions,
                    name@,
                    arity as nat,
                ) == Some(self.functions@[i as int].module_name@) && self.functions@[i as int].source_name@
                    == name@ && self.functions@[i as int].arity == arity && (forall|j: int|
                    0 <= j < i ==> self.functions@[j].source_name@ != name@
                        || self.functions@[j].arity != arity),
                None => first_module(self.table().functions, name@, arity as nat) is None && (forall|
                    j: int,
                |
                    0 <= j < self.functions@.len() ==> self.functions@[j].source_name@ != name@
                        || self.functions@[j].arity != arity),
            },
    {
        let ghost all = locals_of(self.functions@);
        let mut i: usize = 0;
        assert(all.skip(0) =~= all);
        while i < self.functions.len()
            invariant
                i <= self.functions@.len(),
                all == locals_of(self.functions@),
                first_module(all, name@, arity as nat) == first_module(
                    all.skip(i as int),
                    name@,
                    arity as nat,
                ),
                forall|j: int|
                    0 <= j < i ==> self.functions@[j].source_name@ != name@
                        || self.functions@[j].arity != arity,
            decreases self.functions@.len() - i,
        {
            assert(all.skip(i as int).drop_first() =~= all.skip(i as int + 1));
            if self.functions[i].arity == arity && same(
                self.functions[i].source_name.as_str(),
                name,
            ) {
                return Some(i);
            }
            i = i + 1;
        }
        None
    }

    /// The first resolved function with the given name and arity.
    pub fn resolved_symbol_hash(&self, name: &str, arity: usize) -> (r: Option<usize>)
        ensures
            match r {
                Some(i) => i < self.resolved@.len() && first_module(
                    self.table().resolved,
                    name@,
                    arity as nat,
                ) == Some(self.resolved@[i as int].module@),
                None => first_module(self.table().resolved, name@, arity as nat) is None,
            },
    {
        let ghost all = resolved_of(self.resolved@);
        let mut i: usize = 0;
        assert(all.skip(0) =~= all);
        while i < self.resolved.len()
            invariant
                i <= self.resolved@.len(),
                all == resolved_of(self.resolved@),
                first_module(all, name@, arity as nat) == first_module(
                    all.skip(i as int),
                    name@,
                    arity as nat,
                ),
            decreases self.resolved@.len() - i,
        {
            assert(all.skip(i as int).drop_first() =~= all.skip(i as int + 1));
            if self.resolved[i].arity == arity && same(self.resolved[i].name.as_str(), name) {
                return Some(i);
            }
            i = i + 1;
        }
        None
    }

    /// The module that a call by name and arity goes to.
    pub fn link(&self, name: &str, arity: usize) -> (r: Option<String>)
        ensures
            text_of(r) == linked(self.table(), name@, arity as nat),
    {
        match self.lookup_function_symbol(name, arity) {
            Some(i) => Some(self.functions[i].module_name.clone()),
            None => match self.resolved_symbol_hash(name, arity) {
                Some(i) => Some(self.resolved[i].module.clone()),
                None => None,
            },
        }
    }
}

fn upper_ascii(c: char) -> (r: char)
    ensures
        r == ascii_upper(c),
{
    if 'a' <= c && c <= 'z' {
        ((c as u32 - 32) as u8) as char
    } else {
        c
    }
}

fn lower_ascii(c: char) -> (r: char)
    ensures
        r == ascii_lower(c),
{
    if 'A' <= c && c <= 'Z' {
        ((c as u32 + 32) as u8) as char
    } else {
        c
    }
}

/// A source name as a Core Erlang variable.
pub fn to_core_var(name: &str) -> (r: String)
    ensures
        r@ == core_var(name@),
{
    let cs = chars_of(name);
    let mut t = String::new();
    let mut i: usize = 0;
    while i < cs.len()
        invariant
            i <= cs@.len(),
            cs@ == name@,
            t@ == core_var(name@).take(i as int),
        decreases cs@.len() - i,
    {
        if i == 0 {
            t.push(upper_ascii(cs[i]));
        } else {
            t.push(cs[i]);
        }
        assert(t@ =~= core_var(name@).take(i as int + 1));
        i = i + 1;
    }
    assert(core_var(name@).take(i as int) =~= core_var(name@));
    t
}

/// A name in PascalCase as a name in snake_case.
pub fn to_snake_case(s: &str) -> (r: String)
    ensures
        r@ == snake_case(s@),
{
    let cs = chars_of(s);
    let mut t = String::new();
    let mut i: usize = 0;
    while i < cs.len()
        invariant
            i <= cs@.len(),
            cs@ == s@,
            t@ == snake_case(s@.take(i as int)),
        decreases cs@.len() - i,
    {
        assert(s@.take(i as int + 1).drop_last() =~= s@.take(i as int));
        let c = cs[i];
        if c.is_uppercase() {
            if i > 0 {
                t.push('_');
            }
            t.push(lower_ascii(c));
        } else {
            t.push(c);
        }
        i = i + 1;
    }
    assert(s@.take(i as int) =~= s@);
    t
}

fn double_tildes(s: &str) -> (r: String)
    ensures
        r@ == tildes_doubled(s@),
{
    let cs = chars_of(s);
    let mut t = String::new();
    let mut i: usize = 0;
    while i < cs.len()
        invariant
            i <= cs@.len(),
            cs@ == s@,
            t@ == tildes_doubled(s@.take(i as int)),
        decreases cs@.len() - i,
    {
        assert(s@.take(i as int + 1).drop_last() =~= s@.take(i as int));
        let c = cs[i];
        if c == '~' {
            t.push('~');
        }
        t.push(c);
        i = i + 1;
    }
    assert(s@.take(i as int) =~= s@);
    t
}

fn truth(b: bool) -> (r: &'static str)
    ensures
        r@ == bool_atom(b),
{
    if b {
        "true"
    } else {
        "false"
    }
}

fn binary_kind(s: BinarySegmentSpecifier) -> (r: CoreBinaryKind)
    ensures
        r == kind_of(s),
{
    match s {
        BinarySegmentSpecifier::Integer => CoreBinaryKind::Integer,
        BinarySegmentSpecifier::BigInteger => CoreBinaryKind::BigInteger,
        BinarySegmentSpecifier::Binary => CoreBinaryKind::Binary,
        BinarySegmentSpecifier::Utf8 => CoreBinaryKind::Utf8,
    }
}

fn binary_size(size: Option<u32>, kind: CoreBinaryKind) -> (r: CoreBinarySize)
    ensures
        r == size_of(size, kind),
{
    match size {
        Some(bits) => CoreBinarySize::Bits(bits),
        None => match kind {
            CoreBinaryKind::Binary => CoreBinarySize::All,
            _ => CoreBinarySize::Bits(8),
        },
    }
}

fn float_lit(f: &FloatLiteral) -> (r: CoreLit)
    ensures
        crate::erlang::lit_of(r) == Literal::Float(f.bits, f.text@),
{
    CoreLit::Float(FloatLiteral { bits: f.bits, text: f.text.clone() })
}

fn push_pattern(v: &mut Vec<CorePattern>, p: CorePattern)
    ensures
        pats_of(final(v)@) == pats_of(old(v)@).push(pat_of(p)),
{
    v.push(p);
    assert(v@.drop_last() =~= old(v)@);
}

/// Translates a pattern.
pub fn translate_pattern(pattern: &Pattern) -> (r: CorePattern)
    ensures
        pat_of(r) == lowered_pattern(*pattern),
    decreases pattern,
{
    match pattern {
        Pattern::Wildcard => make::pvar("_"),
        Pattern::Var(name) => make::pvar(to_core_var(name.as_str()).as_str()),
        Pattern::Int(i) => CorePattern::Lit(CoreLit::Int(*i)),
        Pattern::Float(f) => CorePattern::Lit(float_lit(f)),
        Pattern::Char(c) => CorePattern::Lit(CoreLit::Int((*c as u32) as i64)),
        Pattern::String(s) => CorePattern::Binary(make::byte_patterns(s.as_str())),
        Pattern::Bool(b) => make::patom(truth(*b)),
        Pattern::Atom(a) => make::patom(a.as_str()),
        Pattern::Tuple(items) => if items.len() == 0 {
            make::patom("ok")
        } else {
            CorePattern::Tuple(translate_patterns(items))
        },
        Pattern::List(items, tail) => {
            let end = match tail {
                Some(rest) => translate_pattern(rest),
                None => CorePattern::Nil,
            };
            translate_list_pattern(items, end)
        },
        Pattern::Constructor(path, fields) => {
            let tag = make::patom(to_snake_case(path.name.as_str()).as_str());
            let rest = translate_patterns(fields);
            CorePattern::Tuple(cons_patterns(tag, rest))
        },
        Pattern::Record(fields) => CorePattern::Tuple(translate_field_patterns(fields)),
        Pattern::BitString(segments) => CorePattern::Binary(
            translate_bitstring_pattern_segments(segments),
        ),
        Pattern::Or(left, _) => translate_pattern(left),
    }
}

/// A pattern in front of others.
fn cons_patterns(p: CorePattern, rest: Vec<CorePattern>) -> (r: Vec<CorePattern>)
    ensures
        pats_of(r@) == seq![pat_of(p)] + pats_of(rest@),
{
    let ghost tail = pats_of(rest@);
    let mut rest = rest;
    let mut rev: Vec<CorePattern> = Vec::new();
    proof {
        lemma_pats_len(rest@);
        assert(tail.take(tail.len() as int) =~= tail);
    }
    while rest.len() > 0
        invariant
            tail.len() == rest@.len() + rev@.len(),
            pats_of(rest@) == tail.take(rest@.len() as int),
            forall|i: int|
                0 <= i < rev@.len() ==> pat_of(#[trigger] rev@[i]) == tail[tail.len() - 1 - i],
        decreases rest@.len(),
    {
        let ghost before = rest@;
        proof {
            lemma_pats_len(before);
        }
        let x = rest.pop().unwrap();
        assert(rest@ =~= before.drop_last());
        assert(pats_of(before).drop_last() =~= pats_of(rest@));
        assert(pats_of(rest@) =~= tail.take(rest@.len() as int));
        assert(pats_of(before).last() == tail[before.len() - 1]);
        rev.push(x);
    }
    let mut out: Vec<CorePattern> = Vec::new();
    proof {
        assert(pats_of(out@) =~= Seq::empty());
    }
    push_pattern(&mut out, p);
    let ghost head = seq![pat_of(p)];
    assert(pats_of(out@) =~= head + tail.take(0));
    while rev.len() > 0
        invariant
            rev@.len() <= tail.len(),
            pats_of(out@) == head + tail.take(tail.len() - rev@.len()),
            forall|i: int|
                0 <= i < rev@.len() ==> pat_of(#[trigger] rev@[i]) == tail[tail.len() - 1 - i],
        decreases rev@.len(),
    {
        let ghost k = rev@.len();
        let x = rev.pop().unwrap();
        push_pattern(&mut out, x);
        assert(pats_of(out@) =~= head + tail.take(tail.len() - k + 1));
    }
    assert(tail.take(tail.len() as int) =~= tail);
    out
}

proof fn lemma_pats_len(s: Seq<CorePattern>)
    ensures
        pats_of(s).len() == s.len(),
    decreases s.len(),
{
    if s.len() > 0 {
        lemma_pats_len(s.drop_last());
    }
}

proof fn lemma_cores_len(s: Seq<CoreExpr>)
    ensures
        cores_of(s).len() == s.len(),
    decreases s.len(),
{
    if s.len() > 0 {
        lemma_cores_len(s.drop_last());
    }
}

fn translate_patterns(s: &Vec<Pattern>) -> (r: Vec<CorePattern>)
    ensures
        pats_of(r@) == lowered_patterns(s@),
    decreases s,
{
    let mut out: Vec<CorePattern> = Vec::new();
    let mut i: usize = 0;
    while i < s.len()
        invariant
            i <= s@.len(),
            pats_of(out@) == lowered_patterns(s@.take(i as int)),
        decreases s@.len() - i,
    {
        assert(s@.take(i as int + 1).drop_last() =~= s@.take(i as int));
        let p = translate_pattern(&s[i]);
        push_pattern(&mut out, p);
        i = i + 1;
    }
    assert(s@.take(i as int) =~= s@);
    out
}

fn translate_list_pattern(s: &Vec<Pattern>, end: CorePattern) -> (r: CorePattern)
    ensures
        pat_of(r) == list_pattern(s@, pat_of(end)),
    decreases s,
{
    let ghost last = pat_of(end);
    let mut acc = end;
    let mut i: usize = s.len();
    assert(s@.take(i as int) =~= s@);
    while i > 0
        invariant
            i <= s@.len(),
            list_pattern(s@, last) == list_pattern(s@.take(i as int), pat_of(acc)),
        decreases i,
    {
        i = i - 1;
        assert(s@.take(i as int + 1).drop_last() =~= s@.take(i as int));
        let p = translate_pattern(&s[i]);
        acc = CorePattern::Cons(Box::new(p), Box::new(acc));
    }
    acc
}

fn translate_field_patterns(s: &Vec<(String, Pattern)>) -> (r: Vec<CorePattern>)
    ensures
        pats_of(r@) == lowered_field_patterns(s@),
    decreases s,
{
    let mut out: Vec<CorePattern> = Vec::new();
    let mut i: usize = 0;
    while i < s.len()
        invariant
            i <= s@.len(),
            pats_of(out@) == lowered_field_patterns(s@.take(i as int)),
        decreases s@.len() - i,
    {
        assert(s@.take(i as int + 1).drop_last() =~= s@.take(i as int));
        let p = translate_pattern(&s[i].1);
        push_pattern(&mut out, make::ptup2(make::patom(s[i].0.as_str()), p));
        i = i + 1;
    }
    assert(s@.take(i as int) =~= s@);
    out
}

fn segment_pattern_kind(segment: &BitStringPatternSegment, is_last: bool) -> (r: CoreBinaryKind)
    ensures
        r == pattern_kind(*segment, is_last),
{
    let takes_any = match &segment.value {
        Pattern::Var(_) => true,
        Pattern::Wildcard => true,
        _ => false,
    };
    let nested = match &segment.value {
        Pattern::String(_) => true,
        Pattern::BitString(_) => true,
        _ => false,
    };
    match segment.specifier {
        BinarySegmentSpecifier::Integer => if segment.size.is_none() && ((is_last && takes_any)
            || nested) {
            CoreBinaryKind::Binary
        } else {
            CoreBinaryKind::Integer
        },
        _ => binary_kind(segment.specifier),
    }
}

fn translate_bitstring_pattern_segments(s: &Vec<BitStringPatternSegment>) -> (r: Vec<
    CoreBinaryPatternSegment,
>)
    ensures
        pat_segments_of(r@) == lowered_segment_patterns(s@, s@.len()),
    decreases s,
{
    let mut out: Vec<CoreBinaryPatternSegment> = Vec::new();
    let mut i: usize = 0;
    while i < s.len()
        invariant
            i <= s@.len(),
            pat_segments_of(out@) == lowered_segment_patterns(s@.take(i as int), s@.len()),
        decreases s@.len() - i,
    {
        assert(s@.take(i as int + 1).drop_last() =~= s@.take(i as int));
        let ghost before = out@;
        let kind = segment_pattern_kind(&s[i], i == s.len() - 1);
        let pattern = translate_pattern(&s[i].value);
        out.push(
            CoreBinaryPatternSegment { pattern, size: binary_size(s[i].size, kind), kind },
        );
        assert(out@.drop_last() =~= before);
        i = i + 1;
    }
    assert(s@.take(i as int) =~= s@);
    out
}

fn op_function(op: BinOp) -> (r: &'static str)
    ensures
        r@ == erlang_op(op),
{
    match op {
        BinOp::Add => "+",
        BinOp::Sub => "-",
        BinOp::Mul => "*",
        BinOp::Div => "div",
        BinOp::Mod => "rem",
        BinOp::Eq => "=:=",
        BinOp::NotEq => "=/=",
        BinOp::Lt => "<",
        BinOp::LtEq => "=<",
        BinOp::Gt => ">",
        BinOp::GtEq => ">=",
        BinOp::And => "and",
        BinOp::Or => "or",
        BinOp::Concat => "",
        BinOp::Pipe => "",
    }
}

fn pipe_builtin(name: &str) -> (r: Option<&'static str>)
    ensures
        (match r {
            Some(m) => Some(m@),
            None => None::<Seq<char>>,
        }) == pipe_module(name@),
{
    if same(name, "length") || same(name, "hd") || same(name, "tl") || same(name, "abs") {
        Some("erlang")
    } else if same(name, "reverse") || same(name, "sort") || same(name, "flatten") {
        Some("lists")
    } else {
        None
    }
}

fn pipe_call(right: &Expr, syms: &Symbols) -> (r: Option<(String, String)>)
    ensures
        (match r {
            Some((m, f)) => Some((m@, f@)),
            None => None::<(Seq<char>, Seq<char>)>,
        }) == pipe_target(*right, syms.table()),
{
    match right {
        Expr::Var(name) => match pipe_builtin(name.as_str()) {
            Some(m) => Some((m.to_owned(), name.clone())),
            None => match syms.link(name.as_str(), 1) {
                Some(m) => Some((m, "apply".to_owned())),
                None => None,
            },
        },
        _ => None,
    }
}

fn param_names(params: &Vec<Param>) -> (r: Vec<String>)
    ensures
        texts(r@) == param_vars(params@),
{
    let mut out: Vec<String> = Vec::new();
    let mut i: usize = 0;
    while i < params.len()
        invariant
            i <= params@.len(),
            out@.len() == i,
            forall|j: int| 0 <= j < i ==> out@[j]@ == core_var(params@[j].name@),
        decreases params@.len() - i,
    {
        out.push(to_core_var(params[i].name.as_str()));
        i = i + 1;
    }
    assert(texts(out@) =~= param_vars(params@));
    out
}

/// Parameters as Core Erlang variables.
pub fn core_params(params: &Vec<Param>) -> (r: Vec<String>)
    ensures
        texts(r@) == param_vars(params@),
{
    param_names(params)
}

fn starts_capitalised(name: &str) -> (r: bool)
    ensures
        r == capitalised(name@),
{
    let cs = chars_of(name);
    cs.len() > 0 && cs[0].is_uppercase()
}

/// An expression in front of others.
fn cons_exprs(x: CoreExpr, rest: Vec<CoreExpr>) -> (r: Vec<CoreExpr>)
    ensures
        cores_of(r@) == seq![core_of(x)] + cores_of(rest@),
{
    let ghost tail = cores_of(rest@);
    let mut rest = rest;
    let mut rev: Vec<CoreExpr> = Vec::new();
    proof {
        lemma_cores_len(rest@);
        assert(tail.take(tail.len() as int) =~= tail);
    }
    while rest.len() > 0
        invariant
            tail.len() == rest@.len() + rev@.len(),
            cores_of(rest@) == tail.take(rest@.len() as int),
            forall|i: int|
                0 <= i < rev@.len() ==> core_of(#[trigger] rev@[i]) == tail[tail.len() - 1 - i],
        decreases rest@.len(),
    {
        let ghost before = rest@;
        proof {
            lemma_cores_len(before);
        }
        let y = rest.pop().unwrap();
        assert(rest@ =~= before.drop_last());
        assert(cores_of(before).drop_last() =~= cores_of(rest@));
        assert(cores_of(rest@) =~= tail.take(rest@.len() as int));
        assert(cores_of(before).last() == tail[before.len() - 1]);
        rev.push(y);
    }
    let mut out = make::one(x);
    let ghost head = seq![core_of(x)];
    assert(cores_of(out@) =~= head + tail.take(0));
    while rev.len() > 0
        invariant
            rev@.len() <= tail.len(),
            cores_of(out@) == head + tail.take(tail.len() - rev@.len()),
            forall|i: int|
                0 <= i < rev@.len() ==> core_of(#[trigger] rev@[i]) == tail[tail.len() - 1 - i],
        decreases rev@.len(),
    {
        let ghost k = rev@.len();
        let y = rev.pop().unwrap();
        let ghost before = out@;
        out.push(y);
        assert(out@.drop_last() =~= before);
        assert(cores_of(out@) =~= head + tail.take(tail.len() - k + 1));
    }
    assert(tail.take(tail.len() as int) =~= tail);
    out
}

/// What a statement of a block binds.
enum LetPart {
    Simple(String, CoreExpr),
    Pattern(CorePattern, CoreExpr),
}

spec fn part_of(p: LetPart) -> Part {
    match p {
        LetPart::Simple(name, value) => Part::Simple(name@, core_of(value)),
        LetPart::Pattern(pattern, value) => Part::Destructure(pat_of(pattern), core_of(value)),
    }
}

spec fn parts_of(s: Seq<LetPart>) -> Seq<Part>
    decreases s.len(),
{
    if s.len() == 0 {
        Seq::empty()
    } else {
        parts_of(s.drop_last()).push(part_of(s.last()))
    }
}

fn wrap_parts(parts: Vec<LetPart>, body: CoreExpr) -> (r: CoreExpr)
    ensures
        core_of(r) == wrapped(parts_of(parts@), core_of(body)),
{
    let ghost all = parts_of(parts@);
    let ghost inner = core_of(body);
    let mut parts = parts;
    let mut acc = body;
    while parts.len() > 0
        invariant
            wrapped(all, inner) == wrapped(parts_of(parts@), core_of(acc)),
        decreases parts@.len(),
    {
        let ghost before = parts@;
        let part = parts.pop().unwrap();
        assert(parts@ =~= before.drop_last());
        assert(parts_of(before).drop_last() =~= parts_of(parts@));
        match part {
            LetPart::Simple(name, value) => {
                acc = make::let1(name.as_str(), value, acc);
            },
            LetPart::Pattern(pattern, value) => {
                acc = make::case1(value, make::when(pattern, acc));
            },
        }
    }
    acc
}

fn else_arm(c: &Expr) -> (r: bool)
    ensures
        r == is_else(*c),
{
    match c {
        Expr::Var(name) => same(name.as_str(), "_"),
        Expr::Bool(b) => *b,
        _ => false,
    }
}

/// Translates an expression.
pub fn translate_expr(expr: &Expr, syms: &Symbols, fresh: &mut FreshVars) -> (r: CoreExpr)
    ensures
        (core_of(r), final(fresh).next()) == lowered(*expr, syms.table(), old(fresh).next()),
    decreases expr, 1nat, 0nat,
{
    match expr {
        Expr::Int(i) => make::num(*i),
        Expr::Float(f) => CoreExpr::Lit(float_lit(f)),
        Expr::Char(c) => make::num((*c as u32) as i64),
        Expr::String(s) => make::binary_text(s.as_str()),
        Expr::InterpolatedString(parts) => {
            let (format, args) = translate_parts(parts, syms, fresh);
            make::call1(
                "erlang",
                "iolist_to_binary",
                make::call2("io_lib", "format", make::string(format.as_str()), make::listed(args)),
            )
        },
        Expr::Bool(b) => make::atom(truth(*b)),
        Expr::Atom(a) => make::atom(a.as_str()),
        Expr::Unit => make::atom("ok"),
        Expr::Var(name) => make::var(to_core_var(name.as_str()).as_str()),
        Expr::Tuple(items) => CoreExpr::Tuple(translate_all(items, syms, fresh)),
        Expr::List(items, tail) => {
            let v = translate_all(items, syms, fresh);
            let t = match tail {
                Some(rest) => translate_expr(rest, syms, fresh),
                None => make::nil(),
            };
            make::listed_onto(v, t)
        },
        Expr::MapLit(entries) => CoreExpr::MapLit(translate_entries(entries, syms, fresh)),
        Expr::Range(start, end, inclusive) => {
            let a = translate_expr(start, syms, fresh);
            let b = translate_expr(end, syms, fresh);
            let last = if *inclusive {
                b
            } else {
                make::call2("erlang", "-", b, make::num(1))
            };
            make::call2("lists", "seq", a, last)
        },
        Expr::ListComp { expr: item, generators, filters: _ } => if generators.len() == 0 {
            let x = translate_expr(item, syms, fresh);
            make::cons(x, make::nil())
        } else {
            translate_list_comp_inner(expr, syms, 0, false, fresh)
        },
        Expr::Binary(left, op, right) => {
            let l = translate_expr(left, syms, fresh);
            let r = translate_expr(right, syms, fresh);
            match *op {
                BinOp::Concat => concat(l, r, fresh),
                BinOp::Pipe => match pipe_call(right, syms) {
                    Some((m, f)) => make::call1(m.as_str(), f.as_str(), l),
                    None => make::apply1(r, l),
                },
                _ => make::call2("erlang", op_function(*op), l, r),
            }
        },
        Expr::Unary(op, inner) => {
            let x = translate_expr(inner, syms, fresh);
            match op {
                UnaryOp::Neg => make::call1("erlang", "-", x),
                UnaryOp::Not => make::call1("erlang", "not", x),
            }
        },
        Expr::Cond(arms) => if arms.len() == 0 {
            make::atom("ok")
        } else {
            translate_cond(arms, syms, fresh)
        },
        Expr::If(c, yes, no) => {
            let x = translate_expr(c, syms, fresh);
            let a = translate_expr(yes, syms, fresh);
            let b = match no {
                Some(other) => translate_expr(other, syms, fresh),
                None => make::atom("ok"),
            };
            make::if_else(x, a, b)
        },
        Expr::Match(scrutinee, arms) => {
            let x = translate_expr(scrutinee, syms, fresh);
            let v = translate_arms(arms, syms, fresh);
            CoreExpr::Case(Box::new(x), v)
        },
        Expr::Block(stmts, last) => {
            let parts = translate_stmts(stmts, syms, fresh);
            let body = match last {
                Some(value) => translate_expr(value, syms, fresh),
                None => make::atom("ok"),
            };
            wrap_parts(parts, body)
        },
        Expr::Call(func, args) => {
            let v = translate_all(args, syms, fresh);
            match translate_direct_call(func, syms, v, fresh) {
                Ok(x) => x,
                Err(v) => {
                    let f = translate_expr(func, syms, fresh);
                    CoreExpr::Apply(Box::new(f), v)
                },
            }
        },
        Expr::Lambda(params, body) => {
            let x = translate_expr(body, syms, fresh);
            CoreExpr::Fun(param_names(params), Box::new(x))
        },
        Expr::Spawn(thunk) => {
            let x = translate_expr(thunk, syms, fresh);
            make::call1("erlang", "spawn", x)
        },
        Expr::Send(pid, msg) => {
            let a = translate_expr(pid, syms, fresh);
            let b = translate_expr(msg, syms, fresh);
            make::call2("erlang", "send", a, b)
        },
        Expr::Receive { arms, timeout } => {
            let v = translate_arms(arms, syms, fresh);
            match timeout {
                Some((ms, body)) => {
                    let a = translate_expr(ms, syms, fresh);
                    let b = translate_expr(body, syms, fresh);
                    CoreExpr::Receive { clauses: v, timeout: Some((Box::new(a), Box::new(b))) }
                },
                None => CoreExpr::Receive { clauses: v, timeout: None },
            }
        },
        Expr::SelfPid => make::call0("erlang", "self"),
        Expr::Try { body, catch_arms } => {
            let x = translate_expr(body, syms, fresh);
            let success = fresh.take();
            let class = fresh.take();
            let reason = fresh.take();
            let stack = fresh.take();
            let c = if catch_arms.len() == 0 {
                make::raise(stack.as_str(), reason.as_str())
            } else {
                let mut v = translate_catch_arms(catch_arms, syms, fresh);
                push_clause(
                    &mut v,
                    make::when(
                        make::ptup2(make::pvar("_Class"), make::pvar("_Reason")),
                        make::raise(stack.as_str(), reason.as_str()),
                    ),
                );
                CoreExpr::Case(
                    Box::new(make::tup2(make::var(class.as_str()), make::var(reason.as_str()))),
                    v,
                )
            };
            make::try1(
                x,
                success.as_str(),
                make::var(success.as_str()),
                class.as_str(),
                reason.as_str(),
                stack.as_str(),
                c,
            )
        },
        Expr::Return(value) => match value {
            Some(inner) => translate_expr(inner, syms, fresh),
            None => make::atom("ok"),
        },
        Expr::Index(container, key) => {
            let a = translate_expr(container, syms, fresh);
            let b = translate_expr(key, syms, fresh);
            make::call2("maps", "get", b, a)
        },
        Expr::Field(obj, field) => {
            let x = translate_expr(obj, syms, fresh);
            make::call2("maps", "get", make::atom(field.as_str()), x)
        },
        Expr::Path(path) => if path.qualifiers.len() == 0 {
            make::var(to_core_var(path.name.as_str()).as_str())
        } else {
            make::tup1(make::atom(to_snake_case(path.name.as_str()).as_str()))
        },
        Expr::MethodCall(obj, method, args) => {
            let x = translate_expr(obj, syms, fresh);
            let v = translate_all(args, syms, fresh);
            let all = cons_exprs(x, v);
            let mut name = "'".to_owned();
            name.append(method.as_str());
            name.append("'/");
            push_usize(&mut name, all.len());
            proof {
                lemma_cores_len(all@);
            }
            CoreExpr::Apply(Box::new(make::var(name.as_str())), all)
        },
        Expr::BitString(segments) => CoreExpr::Binary(translate_bitstring(segments, syms, fresh)),
        Expr::StructInit(_, fields) => CoreExpr::MapLit(translate_fields(fields, syms, fresh)),
        Expr::Record(fields) => {
            let v = translate_record(fields, syms, fresh);
            make::call1("maps", "from_list", make::listed(v))
        },
    }
}

fn translate_direct_call(
    func: &Expr,
    syms: &Symbols,
    args: Vec<CoreExpr>,
    fresh: &mut FreshVars,
) -> (r: Result<CoreExpr, Vec<CoreExpr>>)
    ensures
        match r {
            Ok(x) => direct_call(*func, syms.table(), cores_of(args@), old(fresh).next()) == Some(
                (core_of(x), final(fresh).next()),
            ),
            Err(v) => direct_call(*func, syms.table(), cores_of(args@), old(fresh).next()) is None
                && cores_of(v@) == cores_of(args@) && final(fresh).next() == old(fresh).next(),
        },
{
    match func {
        Expr::Var(name) => match builtin_call(name.as_str(), args, fresh) {
            Ok(x) => Ok(x),
            Err(v) => {
                proof {
                    lemma_cores_len(v@);
                }
                match syms.link(name.as_str(), v.len()) {
                    Some(m) => Ok(CoreExpr::Call(m, "apply".to_owned(), v)),
                    None => Err(v),
                }
            },
        },
        Expr::Path(path) => if path.qualifiers.len() == 0 {
            Err(args)
        } else {
            assert(path_parts(*path)[0] == path.qualifiers@[0]@);
            if starts_capitalised(path.qualifiers[0].as_str()) {
                let tag = make::atom(to_snake_case(path.name.as_str()).as_str());
                Ok(CoreExpr::Tuple(cons_exprs(tag, args)))
            } else {
                Ok(CoreExpr::Call(path.qualifiers[0].clone(), path.name.clone(), args))
            }
        },
        _ => Err(args),
    }
}

fn push_expr(v: &mut Vec<CoreExpr>, x: CoreExpr)
    ensures
        cores_of(final(v)@) == cores_of(old(v)@).push(core_of(x)),
{
    v.push(x);
    assert(v@.drop_last() =~= old(v)@);
}

fn push_clause(v: &mut Vec<CoreClause>, c: CoreClause)
    ensures
        clauses_of(final(v)@) == clauses_of(old(v)@).push(clause_of(c)),
{
    v.push(c);
    assert(v@.drop_last() =~= old(v)@);
}

fn translate_cond(s: &Vec<(Expr, Expr)>, syms: &Symbols, fresh: &mut FreshVars) -> (r: CoreExpr)
    ensures
        (core_of(r), final(fresh).next()) == lowered_cond(
            s@,
            syms.table(),
            shape::atom("nil"@),
            old(fresh).next(),
        ),
    decreases s, 0nat, 0nat,
{
    let ghost n = fresh.next();
    let mut acc = make::atom("nil");
    let mut i: usize = s.len();
    assert(s@.take(i as int) =~= s@);
    while i > 0
        invariant
            i <= s@.len(),
            lowered_cond(s@, syms.table(), shape::atom("nil"@), n) == lowered_cond(
                s@.take(i as int),
                syms.table(),
                core_of(acc),
                fresh.next(),
            ),
        decreases i,
    {
        i = i - 1;
        assert(s@.take(i as int + 1).drop_last() =~= s@.take(i as int));
        let c = translate_expr(&s[i].0, syms, fresh);
        let b = translate_expr(&s[i].1, syms, fresh);
        if else_arm(&s[i].0) {
            acc = b;
        } else {
            acc = make::if_else(c, b, acc);
        }
    }
    acc
}

fn translate_parts(s: &Vec<InterpolatedPart>, syms: &Symbols, fresh: &mut FreshVars) -> (r: (
    String,
    Vec<CoreExpr>,
))
    ensures
        (r.0@, cores_of(r.1@), final(fresh).next()) == lowered_parts(
            s@,
            syms.table(),
            old(fresh).next(),
        ),
    decreases s, 0nat, 0nat,
{
    let ghost n = fresh.next();
    let mut t = String::new();
    let mut out: Vec<CoreExpr> = Vec::new();
    let mut i: usize = 0;
    while i < s.len()
        invariant
            i <= s@.len(),
            (t@, cores_of(out@), fresh.next()) == lowered_parts(
                s@.take(i as int),
                syms.table(),
                n,
            ),
        decreases s@.len() - i,
    {
        assert(s@.take(i as int + 1).drop_last() =~= s@.take(i as int));
        match &s[i] {
            InterpolatedPart::Literal(l) => {
                t.append(double_tildes(l.as_str()).as_str());
            },
            InterpolatedPart::Expr(e) => {
                let x = translate_expr(e, syms, fresh);
                t.append("~p");
                let ghost before = out@;
                out.push(x);
                assert(out@.drop_last() =~= before);
            },
        }
        i = i + 1;
    }
    assert(s@.take(i as int) =~= s@);
    (t, out)
}

fn translate_arm(arm: &MatchArm, syms: &Symbols, fresh: &mut FreshVars) -> (r: CoreClause)
    ensures
        (clause_of(r), final(fresh).next()) == lowered_arm(*arm, syms.table(), old(fresh).next()),
    decreases arm, 0nat, 0nat,
{
    let p = translate_pattern(&arm.pattern);
    let g = match &arm.guard {
        Some(guard) => translate_expr(guard, syms, fresh),
        None => make::atom("true"),
    };
    let b = translate_expr(&arm.body, syms, fresh);
    make::guarded(p, g, b)
}

fn translate_catch_arm(arm: &CatchArm, syms: &Symbols, fresh: &mut FreshVars) -> (r: CoreClause)
    ensures
        (clause_of(r), final(fresh).next()) == lowered_catch_arm(
            *arm,
            syms.table(),
            old(fresh).next(),
        ),
    decreases arm, 0nat, 0nat,
{
    let class = match &arm.class {
        Some(c) => make::patom(c.as_str()),
        None => make::pvar("_"),
    };
    let p = translate_pattern(&arm.pattern);
    let b = translate_expr(&arm.body, syms, fresh);
    make::when(make::ptup2(class, p), b)
}

fn translate_bitstring_segment(
    segment: &BitStringSegment,
    syms: &Symbols,
    fresh: &mut FreshVars,
) -> (r: CoreBinarySegment)
    ensures
        (
            Segment { value: core_of(r.value), size: r.size, kind: r.kind },
            final(fresh).next(),
        ) == lowered_segment(*segment, syms.table(), old(fresh).next()),
    decreases segment, 0nat, 0nat,
{
    let value = translate_expr(&segment.value, syms, fresh);
    let nested = match &segment.value {
        Expr::String(_) => true,
        Expr::InterpolatedString(_) => true,
        Expr::BitString(_) => true,
        _ => false,
    };
    let kind = if segment.size.is_none() && nested && segment.specifier
        == BinarySegmentSpecifier::Integer {
        CoreBinaryKind::Binary
    } else {
        binary_kind(segment.specifier)
    };
    CoreBinarySegment { value, size: binary_size(segment.size, kind), kind }
}

#[verifier::rlimit(40)]
fn translate_filters(s: &Vec<Expr>, syms: &Symbols, fresh: &mut FreshVars) -> (r: CoreExpr)
    requires
        s@.len() > 0,
    ensures
        (core_of(r), final(fresh).next()) == lowered_filters(s@, syms.table(), old(fresh).next()),
    decreases s, 0nat, 0nat,
{
    let ghost n = fresh.next();
    let mut acc = translate_expr(&s[0], syms, fresh);
    let mut i: usize = 1;
    assert(s@.take(1) =~= seq![s@[0]]);
    while i < s.len()
        invariant
            1 <= i <= s@.len(),
            (core_of(acc), fresh.next()) == lowered_filters(s@.take(i as int), syms.table(), n),
        decreases s@.len() - i,
    {
        assert(s@.take(i as int + 1).drop_last() =~= s@.take(i as int));
        let f = translate_expr(&s[i], syms, fresh);
        acc = make::call2("erlang", "and", acc, f);
        i = i + 1;
    }
    assert(s@.take(i as int) =~= s@);
    acc
}

#[verifier::rlimit(40)]
fn translate_list_comp_inner(
    comp: &Expr,
    syms: &Symbols,
    at: usize,
    plain_item: bool,
    fresh: &mut FreshVars,
) -> (r: CoreExpr)
    requires
        comp is ListComp,
    ensures
        (core_of(r), final(fresh).next()) == lowered_comp(
            *comp,
            syms.table(),
            at as nat,
            plain_item,
            old(fresh).next(),
        ),
    decreases comp, 0nat, generators_left(*comp, at as nat),
{
    match comp {
        Expr::ListComp { expr, generators, filters } => {
            if at >= generators.len() {
                let x = translate_expr(expr, syms, fresh);
                if filters.len() == 0 {
                    if plain_item {
                        x
                    } else {
                        make::cons(x, make::nil())
                    }
                } else {
                    let f = translate_filters(filters, syms, fresh);
                    if plain_item {
                        make::if_else(f, make::tup2(make::atom("true"), x), make::atom("false"))
                    } else {
                        make::if_else(f, make::cons(x, make::nil()), make::nil())
                    }
                }
            } else {
                let source = translate_expr(&generators[at].source, syms, fresh);
                let simple = if generators.len() == 1 {
                    match &generators[at].pattern {
                        Pattern::Var(_) => true,
                        _ => false,
                    }
                } else {
                    false
                };
                let inner = translate_list_comp_inner(comp, syms, at + 1, simple, fresh);
                match &generators[at].pattern {
                    Pattern::Var(name) if simple => make::call2(
                        "lists",
                        if filters.len() == 0 {
                            "map"
                        } else {
                            "filtermap"
                        },
                        make::fun1(to_core_var(name.as_str()).as_str(), inner),
                        source,
                    ),
                    pattern => {
                        let p = translate_pattern(pattern);
                        let item = fresh.take();
                        make::call2(
                            "lists",
                            "flatmap",
                            make::fun1(
                                item.as_str(),
                                make::case2(
                                    make::var(item.as_str()),
                                    make::when(p, inner),
                                    make::when(make::pvar("_"), make::nil()),
                                ),
                            ),
                            source,
                        )
                    },
                }
            }
        },
        _ => make::nil(),
    }
}

#[verifier::rlimit(40)]
fn translate_all(s: &Vec<Expr>, syms: &Symbols, fresh: &mut FreshVars) -> (r: Vec<CoreExpr>)
    ensures
        (cores_of(r@), final(fresh).next()) == lowered_all(s@, syms.table(), old(fresh).next()),
    decreases s, 0nat, 0nat,
{
    let ghost n = fresh.next();
    let mut out: Vec<CoreExpr> = Vec::new();
    let mut i: usize = 0;
    while i < s.len()
        invariant
            i <= s@.len(),
            (cores_of(out@), fresh.next()) == lowered_all(s@.take(i as int), syms.table(), n),
        decreases s@.len() - i,
    {
        assert(s@.take(i as int + 1).drop_last() =~= s@.take(i as int));
        let ghost before = out@;
        let x = translate_expr(&s[i], syms, fresh);
        out.push(x);
        assert(out@.drop_last() =~= before);
        i = i + 1;
    }
    assert(s@.take(i as int) =~= s@);
    out
}

#[verifier::rlimit(40)]
fn translate_entries(s: &Vec<(Expr, Expr)>, syms: &Symbols,
    fresh: &mut FreshVars) -> (r: Vec<(CoreExpr, CoreExpr)>)
    ensures
        (entries_of(r@), final(fresh).next()) == lowered_entries(s@, syms.table(), old(fresh).next()),
    decreases s, 0nat, 0nat,
{
    let ghost n = fresh.next();
    let mut out: Vec<(CoreExpr, CoreExpr)> = Vec::new();
    let mut i: usize = 0;
    while i < s.len()
        invariant
            i <= s@.len(),
            (entries_of(out@), fresh.next()) == lowered_entries(s@.take(i as int), syms.table(), n),
        decreases s@.len() - i,
    {
        assert(s@.take(i as int + 1).drop_last() =~= s@.take(i as int));
        let ghost before = out@;
        let x = translate_expr(&s[i].0, syms, fresh);
        let y = translate_expr(&s[i].1, syms, fresh);
        out.push((x, y));
        assert(out@.drop_last() =~= before);
        i = i + 1;
    }
    assert(s@.take(i as int) =~= s@);
    out
}

#[verifier::rlimit(40)]
fn translate_fields(s: &Vec<(String, Expr)>, syms: &Symbols,
    fresh: &mut FreshVars) -> (r: Vec<(CoreExpr, CoreExpr)>)
    ensures
        (entries_of(r@), final(fresh).next()) == lowered_fields(s@, syms.table(), old(fresh).next()),
    decreases s, 0nat, 0nat,
{
    let ghost n = fresh.next();
    let mut out: Vec<(CoreExpr, CoreExpr)> = Vec::new();
    let mut i: usize = 0;
    while i < s.len()
        invariant
            i <= s@.len(),
            (entries_of(out@), fresh.next()) == lowered_fields(s@.take(i as int), syms.table(), n),
        decreases s@.len() - i,
    {
        assert(s@.take(i as int + 1).drop_last() =~= s@.take(i as int));
        let ghost before = out@;
        let x = translate_expr(&s[i].1, syms, fresh);
        out.push((make::atom(s[i].0.as_str()), x));
        assert(out@.drop_last() =~= before);
        i = i + 1;
    }
    assert(s@.take(i as int) =~= s@);
    out
}

#[verifier::rlimit(40)]
fn translate_record(s: &Vec<(String, Expr)>, syms: &Symbols, fresh: &mut FreshVars) -> (r: Vec<CoreExpr>)
    ensures
        (cores_of(r@), final(fresh).next()) == lowered_record(s@, syms.table(), old(fresh).next()),
    decreases s, 0nat, 0nat,
{
    let ghost n = fresh.next();
    let mut out: Vec<CoreExpr> = Vec::new();
    let mut i: usize = 0;
    while i < s.len()
        invariant
            i <= s@.len(),
            (cores_of(out@), fresh.next()) == lowered_record(s@.take(i as int), syms.table(), n),
        decreases s@.len() - i,
    {
        assert(s@.take(i as int + 1).drop_last() =~= s@.take(i as int));
        let ghost before = out@;
        let x = translate_expr(&s[i].1, syms, fresh);
        push_expr(&mut out, make::atom(s[i].0.as_str()));
        push_expr(&mut out, x);
        i = i + 1;
    }
    assert(s@.take(i as int) =~= s@);
    out
}

#[verifier::spinoff_prover]
#[verifier::rlimit(40)]
fn translate_bitstring(s: &Vec<BitStringSegment>, syms: &Symbols,
    fresh: &mut FreshVars) -> (r: Vec<CoreBinarySegment>)
    ensures
        (segments_of(r@), final(fresh).next()) == lowered_segments(s@, syms.table(), old(fresh).next()),
    decreases s, 0nat, 0nat,
{
    let ghost n = fresh.next();
    let mut out: Vec<CoreBinarySegment> = Vec::new();
    let mut i: usize = 0;
    while i < s.len()
        invariant
            i <= s@.len(),
            (segments_of(out@), fresh.next()) == lowered_segments(s@.take(i as int), syms.table(), n),
        decreases s@.len() - i,
    {
        assert(s@.take(i as int + 1).drop_last() =~= s@.take(i as int));
        let ghost before = out@;
        let x = translate_bitstring_segment(&s[i], syms, fresh);
        out.push(x);
        assert(out@.drop_last() =~= before);
        i = i + 1;
    }
    assert(s@.take(i as int) =~= s@);
    out
}

#[verifier::rlimit(40)]
fn translate_arms(s: &Vec<MatchArm>, syms: &Symbols, fresh: &mut FreshVars) -> (r: Vec<CoreClause>)
    ensures
        (clauses_of(r@), final(fresh).next()) == lowered_arms(s@, syms.table(), old(fresh).next()),
    decreases s, 0nat, 0nat,
{
    let ghost n = fresh.next();
    let mut out: Vec<CoreClause> = Vec::new();
    let mut i: usize = 0;
    while i < s.len()
        invariant
            i <= s@.len(),
            (clauses_of(out@), fresh.next()) == lowered_arms(s@.take(i as int), syms.table(), n),
        decreases s@.len() - i,
    {
        assert(s@.take(i as int + 1).drop_last() =~= s@.take(i as int));
        let ghost before = out@;
        let x = translate_arm(&s[i], syms, fresh);
        out.push(x);
        assert(out@.drop_last() =~= before);
        i = i + 1;
    }
    assert(s@.take(i as int) =~= s@);
    out
}

#[verifier::rlimit(40)]
fn translate_catch_arms(s: &Vec<CatchArm>, syms: &Symbols, fresh: &mut FreshVars) -> (r: Vec<CoreClause>)
    ensures
        (clauses_of(r@), final(fresh).next()) == lowered_catch_arms(s@, syms.table(), old(fresh).next()),
    decreases s, 0nat, 0nat,
{
    let ghost n = fresh.next();
    let mut out: Vec<CoreClause> = Vec::new();
    let mut i: usize = 0;
    while i < s.len()
        invariant
            i <= s@.len(),
            (clauses_of(out@), fresh.next()) == lowered_catch_arms(s@.take(i as int), syms.table(), n),
        decreases s@.len() - i,
    {
        assert(s@.take(i as int + 1).drop_last() =~= s@.take(i as int));
        let ghost before = out@;
        let x = translate_catch_arm(&s[i], syms, fresh);
        out.push(x);
        assert(out@.drop_last() =~= before);
        i = i + 1;
    }
    assert(s@.take(i as int) =~= s@);
    out
}

fn translate_stmt(stmt: &Stmt, syms: &Symbols, fresh: &mut FreshVars) -> (r: LetPart)
    ensures
        (part_of(r), final(fresh).next()) == lowered_stmt(*stmt, syms.table(), old(fresh).next()),
    decreases stmt, 0nat, 0nat,
{
    match stmt {
        Stmt::Let(pattern, init) => {
            let x = translate_expr(init, syms, fresh);
            match pattern {
                Pattern::Var(name) => LetPart::Simple(to_core_var(name.as_str()), x),
                Pattern::Wildcard => {
                    let var = fresh.take();
                    LetPart::Simple(var, x)
                },
                _ => {
                    let p = translate_pattern(pattern);
                    LetPart::Pattern(p, x)
                },
            }
        },
        Stmt::Expr(e) => {
            let var = fresh.take();
            let x = translate_expr(e, syms, fresh);
            LetPart::Simple(var, x)
        },
    }
}

fn translate_stmts(s: &Vec<Stmt>, syms: &Symbols, fresh: &mut FreshVars) -> (r: Vec<LetPart>)
    ensures
        (parts_of(r@), final(fresh).next()) == lowered_stmts(s@, syms.table(), old(fresh).next()),
    decreases s, 0nat, 0nat,
{
    let ghost n = fresh.next();
    let mut out: Vec<LetPart> = Vec::new();
    let mut i: usize = 0;
    while i < s.len()
        invariant
            i <= s@.len(),
            (parts_of(out@), fresh.next()) == lowered_stmts(s@.take(i as int), syms.table(), n),
        decreases s@.len() - i,
    {
        assert(s@.take(i as int + 1).drop_last() =~= s@.take(i as int));
        let ghost before = out@;
        let x = translate_stmt(&s[i], syms, fresh);
        out.push(x);
        assert(out@.drop_last() =~= before);
        i = i + 1;
    }
    assert(s@.take(i as int) =~= s@);
    out
}

} // verus!
