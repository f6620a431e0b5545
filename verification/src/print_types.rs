//! Functions whose types have the same fingerprint have the same type up to the
//! names of type parameters.
use vstd::prelude::*;
use crate::ast::{Function, Param, TypeExpr};
use crate::fingerprint::{
    abi_print, field_types_print, optional_type_print, param_types, type_param, type_print,
    types_print,
};
use crate::print_pieces::{
    begins, closes, cut, decimal_is_word, is_stop, is_word, joined_front, nest2, nest3, nest4,
    nest8, nothing_before, slide2, slide4, strip,
};
use crate::print_twin::decimal_injective;
use crate::text::{decimal, joined, texts};

verus! {

/// Whether two types are the same up to the names of type parameters. The first
/// stands among the parameters `ps`, the second among `qs`: where one is a
/// parameter so is the other, at the same place.
pub open spec fn alike_type(
    x: TypeExpr,
    y: TypeExpr,
    ps: Seq<Seq<char>>,
    qs: Seq<Seq<char>>,
) -> bool
    decreases x,
{
    match (x, y) {
        (TypeExpr::Named(m, s), TypeExpr::Named(n, t)) => match (
            type_param(ps, m@),
            type_param(qs, n@),
        ) {
            (Some(i), Some(j)) => i == j,
            (None, None) => m@ == n@ && alike_types(s@, t@, ps, qs),
            _ => false,
        },
        (TypeExpr::Tuple(s), TypeExpr::Tuple(t)) => alike_types(s@, t@, ps, qs),
        (TypeExpr::Function(s, a), TypeExpr::Function(t, b)) => alike_types(s@, t@, ps, qs)
            && alike_type(*a, *b, ps, qs),
        (TypeExpr::Record(s), TypeExpr::Record(t)) => alike_field_types(s@, t@, ps, qs),
        (TypeExpr::Unit, TypeExpr::Unit) => true,
        _ => false,
    }
}

pub open spec fn alike_types(
    s: Seq<TypeExpr>,
    t: Seq<TypeExpr>,
    ps: Seq<Seq<char>>,
    qs: Seq<Seq<char>>,
) -> bool
    decreases s,
{
    &&& s.len() == t.len()
    &&& s.len() > 0 ==> alike_type(s[0], t[0], ps, qs) && alike_types(
        s.drop_first(),
        t.drop_first(),
        ps,
        qs,
    )
}

pub open spec fn alike_field_types(
    s: Seq<(String, TypeExpr)>,
    t: Seq<(String, TypeExpr)>,
    ps: Seq<Seq<char>>,
    qs: Seq<Seq<char>>,
) -> bool
    decreases s,
{
    &&& s.len() == t.len()
    &&& s.len() > 0 ==> s[0].0@ == t[0].0@ && alike_type(s[0].1, t[0].1, ps, qs)
        && alike_field_types(s.drop_first(), t.drop_first(), ps, qs)
}

/// Whether two annotations are alike, or both left out.
pub open spec fn alike_optional(
    x: Option<TypeExpr>,
    y: Option<TypeExpr>,
    ps: Seq<Seq<char>>,
    qs: Seq<Seq<char>>,
) -> bool {
    match (x, y) {
        (Some(x), Some(y)) => alike_type(x, y, ps, qs),
        (None, None) => true,
        _ => false,
    }
}

/// Whether the names in a type are words of a fingerprint.
pub open spec fn plain_type(x: TypeExpr) -> bool
    decreases x,
{
    match x {
        TypeExpr::Named(name, args) => is_word(name@) && plain_types(args@),
        TypeExpr::Tuple(items) => plain_types(items@),
        TypeExpr::Function(from, to) => plain_types(from@) && plain_type(*to),
        TypeExpr::Record(fields) => plain_field_types(fields@),
        TypeExpr::Unit => true,
    }
}

pub open spec fn plain_types(s: Seq<TypeExpr>) -> bool
    decreases s,
{
    s.len() > 0 ==> plain_type(s[0]) && plain_types(s.drop_first())
}

pub open spec fn plain_field_types(s: Seq<(String, TypeExpr)>) -> bool
    decreases s,
{
    s.len() > 0 ==> is_word(s[0].0@) && plain_type(s[0].1) && plain_field_types(s.drop_first())
}

pub open spec fn plain_optional(x: Option<TypeExpr>) -> bool {
    match x {
        Some(x) => plain_type(x),
        None => true,
    }
}

/// The kind of the type whose fingerprint opens a text, or -1.
spec fn which_type(t: Seq<char>) -> int {
    let c = t[0];
    if c == 't' {
        if t[1] == 'v' {
            0
        } else {
            2
        }
    } else if c == 'n' {
        1
    } else if c == 'f' {
        3
    } else if c == 'r' {
        4
    } else if c == 'u' {
        5
    } else {
        -1
    }
}

spec fn kind_of_type(x: TypeExpr, ps: Seq<Seq<char>>) -> int {
    match x {
        TypeExpr::Named(name, _) => if type_param(ps, name@) is Some {
            0
        } else {
            1
        },
        TypeExpr::Tuple(_) => 2,
        TypeExpr::Function(_, _) => 3,
        TypeExpr::Record(_) => 4,
        TypeExpr::Unit => 5,
    }
}

/// The first word of a fingerprint tells the kind of the type.
proof fn type_shown(x: TypeExpr, ps: Seq<Seq<char>>, r: Seq<char>)
    ensures
        which_type(type_print(x, ps) + r) == kind_of_type(x, ps),
        (type_print(x, ps) + r).len() > 0,
        !is_stop((type_print(x, ps) + r)[0]),
        (type_print(x, ps) + r)[0] != '_',
{
    reveal_strlit("tvar:");
    reveal_strlit("named:");
    reveal_strlit("tuple(");
    reveal_strlit("fun(");
    reveal_strlit("record(");
    reveal_strlit("unit");
    let t = type_print(x, ps);
    assert(which_type(t) == kind_of_type(x, ps) && t.len() > 1);
    assert(t[0] == (t + r)[0] && t[1] == (t + r)[1]);
}

proof fn types_front(s: Seq<TypeExpr>, ps: Seq<Seq<char>>)
    requires
        s.len() > 0,
    ensures
        types_print(s, ps) == (type_print(s[0], ps) + ","@) + types_print(s.drop_first(), ps),
    decreases s.len(),
{
    let d = s.drop_first();
    let m = s.drop_last();
    let item = type_print(s[0], ps) + ","@;
    if s.len() == 1 {
        assert(m =~= Seq::empty());
        assert(d =~= Seq::empty());
        nothing_before(item);
        nothing_before(type_print(s[0], ps));
    } else {
        types_front(m, ps);
        assert(m.drop_first() =~= d.drop_last());
        slide2(item, types_print(d.drop_last(), ps), type_print(s.last(), ps), ","@);
    }
}

proof fn field_types_front(s: Seq<(String, TypeExpr)>, ps: Seq<Seq<char>>)
    requires
        s.len() > 0,
    ensures
        field_types_print(s, ps) == (s[0].0@ + ":"@ + type_print(s[0].1, ps) + ","@)
            + field_types_print(s.drop_first(), ps),
    decreases s.len(),
{
    let d = s.drop_first();
    let m = s.drop_last();
    let item = s[0].0@ + ":"@ + type_print(s[0].1, ps) + ","@;
    if s.len() == 1 {
        assert(m =~= Seq::empty());
        assert(d =~= Seq::empty());
        nothing_before(item);
        nothing_before(s[0].0@);
    } else {
        field_types_front(m, ps);
        assert(m.drop_first() =~= d.drop_last());
        slide4(
            item,
            field_types_print(d.drop_last(), ps),
            s.last().0@,
            ":"@,
            type_print(s.last().1, ps),
            ","@,
        );
    }
}

/// Types with the same fingerprint, each before what ends a word, are alike.
#[verifier::rlimit(60)]
#[verifier::spinoff_prover]
pub proof fn type_tells(
    x: TypeExpr,
    y: TypeExpr,
    ps: Seq<Seq<char>>,
    qs: Seq<Seq<char>>,
    r: Seq<char>,
    q: Seq<char>,
)
    requires
        plain_type(x),
        plain_type(y),
        begins(r),
        begins(q),
        type_print(x, ps) + r == type_print(y, qs) + q,
    ensures
        alike_type(x, y, ps, qs),
        r == q,
    decreases x,
{
    type_shown(x, ps, r);
    type_shown(y, qs, q);
    reveal_strlit("[");
    reveal_strlit("]");
    reveal_strlit(")");
    reveal_strlit(")->");
    assert(("]"@ + r)[0] == ']' && ("]"@ + q)[0] == ']');
    assert((")"@ + r)[0] == ')' && (")"@ + q)[0] == ')');
    match (x, y) {
        (TypeExpr::Named(m, s), TypeExpr::Named(n, t)) => {
            match (type_param(ps, m@), type_param(qs, n@)) {
                (Some(i), Some(j)) => {
                    nest2("tvar:"@, decimal(i), r);
                    nest2("tvar:"@, decimal(j), q);
                    strip("tvar:"@, decimal(i) + r, decimal(j) + q);
                    decimal_is_word(i);
                    decimal_is_word(j);
                    cut(decimal(i), r, decimal(j), q);
                    decimal_injective(i, j);
                },
                (None, None) => {
                    let u = types_print(s@, ps) + ("]"@ + r);
                    let v = types_print(t@, qs) + ("]"@ + q);
                    named_opened(m@, types_print(s@, ps), r);
                    named_opened(n@, types_print(t@, qs), q);
                    strip("named:"@, m@ + ("["@ + u), n@ + ("["@ + v));
                    assert(("["@ + u)[0] == '[' && ("["@ + v)[0] == '[');
                    cut(m@, "["@ + u, n@, "["@ + v);
                    strip("["@, u, v);
                    types_tell(s@, t@, ps, qs, "]"@ + r, "]"@ + q);
                    strip("]"@, r, q);
                },
                _ => {},
            }
        },
        (TypeExpr::Tuple(s), TypeExpr::Tuple(t)) => {
            let u = types_print(s@, ps);
            let v = types_print(t@, qs);
            nest3("tuple("@, u, ")"@, r);
            nest3("tuple("@, v, ")"@, q);
            strip("tuple("@, u + (")"@ + r), v + (")"@ + q));
            types_tell(s@, t@, ps, qs, ")"@ + r, ")"@ + q);
            strip(")"@, r, q);
        },
        (TypeExpr::Function(s, a), TypeExpr::Function(t, b)) => {
            let u = types_print(s@, ps);
            let v = types_print(t@, qs);
            let i = type_print(*a, ps) + r;
            let j = type_print(*b, qs) + q;
            nest4("fun("@, u, ")->"@, type_print(*a, ps), r);
            nest4("fun("@, v, ")->"@, type_print(*b, qs), q);
            strip("fun("@, u + (")->"@ + i), v + (")->"@ + j));
            assert((")->"@ + i)[0] == ')' && (")->"@ + j)[0] == ')');
            types_tell(s@, t@, ps, qs, ")->"@ + i, ")->"@ + j);
            strip(")->"@, i, j);
            type_tells(*a, *b, ps, qs, r, q);
        },
        (TypeExpr::Record(s), TypeExpr::Record(t)) => {
            let u = field_types_print(s@, ps);
            let v = field_types_print(t@, qs);
            nest3("record("@, u, ")"@, r);
            nest3("record("@, v, ")"@, q);
            strip("record("@, u + (")"@ + r), v + (")"@ + q));
            field_types_tell(s@, t@, ps, qs, ")"@ + r, ")"@ + q);
            strip(")"@, r, q);
        },
        (TypeExpr::Unit, TypeExpr::Unit) => {
            strip("unit"@, r, q);
        },
        _ => {},
    }
}

proof fn named_opened(name: Seq<char>, t: Seq<char>, r: Seq<char>)
    ensures
        "named:"@ + name + "["@ + t + "]"@ + r == "named:"@ + (name + ("["@ + (t + ("]"@ + r)))),
{
    nest4("named:"@, name, "["@, t, "]"@ + r);
    nest2("named:"@ + name + "["@ + t, "]"@, r);
}

proof fn types_tell(
    s: Seq<TypeExpr>,
    t: Seq<TypeExpr>,
    ps: Seq<Seq<char>>,
    qs: Seq<Seq<char>>,
    r: Seq<char>,
    q: Seq<char>,
)
    requires
        plain_types(s),
        plain_types(t),
        closes(r),
        closes(q),
        types_print(s, ps) + r == types_print(t, qs) + q,
    ensures
        alike_types(s, t, ps, qs),
        r == q,
    decreases s,
{
    nothing_before(r);
    nothing_before(q);
    reveal_strlit(",");
    let u = types_print(s.drop_first(), ps) + r;
    let v = types_print(t.drop_first(), qs) + q;
    assert((","@ + u)[0] == ',' && (","@ + v)[0] == ',');
    if s.len() > 0 {
        let x = type_print(s[0], ps);
        types_front(s, ps);
        nest2(x + ","@, types_print(s.drop_first(), ps), r);
        nest2(x, ","@, u);
        type_shown(s[0], ps, ","@ + u);
    }
    if t.len() > 0 {
        let y = type_print(t[0], qs);
        types_front(t, qs);
        nest2(y + ","@, types_print(t.drop_first(), qs), q);
        nest2(y, ","@, v);
        type_shown(t[0], qs, ","@ + v);
    }
    if s.len() > 0 && t.len() > 0 {
        type_tells(s[0], t[0], ps, qs, ","@ + u, ","@ + v);
        strip(","@, u, v);
        types_tell(s.drop_first(), t.drop_first(), ps, qs, r, q);
    }
}

proof fn field_types_tell(
    s: Seq<(String, TypeExpr)>,
    t: Seq<(String, TypeExpr)>,
    ps: Seq<Seq<char>>,
    qs: Seq<Seq<char>>,
    r: Seq<char>,
    q: Seq<char>,
)
    requires
        plain_field_types(s),
        plain_field_types(t),
        r.len() > 0 && r[0] == ')',
        q.len() > 0 && q[0] == ')',
        field_types_print(s, ps) + r == field_types_print(t, qs) + q,
    ensures
        alike_field_types(s, t, ps, qs),
        r == q,
    decreases s,
{
    nothing_before(r);
    nothing_before(q);
    reveal_strlit(",");
    reveal_strlit(":");
    let u = field_types_print(s.drop_first(), ps) + r;
    let v = field_types_print(t.drop_first(), qs) + q;
    assert((","@ + u)[0] == ',' && (","@ + v)[0] == ',');
    let m = s[0].0@;
    let n = t[0].0@;
    let x = type_print(s[0].1, ps);
    let y = type_print(t[0].1, qs);
    let i = ":"@ + (x + (","@ + u));
    let j = ":"@ + (y + (","@ + v));
    assert(i[0] == ':' && j[0] == ':');
    if s.len() > 0 {
        field_types_front(s, ps);
        nest2(m + ":"@ + x + ","@, field_types_print(s.drop_first(), ps), r);
        nest4(m, ":"@, x, ","@, u);
        assert(field_types_print(s, ps) + r == m + i);
        assert((m + i)[0] == if m.len() > 0 {
            m[0]
        } else {
            ':'
        });
    }
    if t.len() > 0 {
        field_types_front(t, qs);
        nest2(n + ":"@ + y + ","@, field_types_print(t.drop_first(), qs), q);
        nest4(n, ":"@, y, ","@, v);
        assert(field_types_print(t, qs) + q == n + j);
        assert((n + j)[0] == if n.len() > 0 {
            n[0]
        } else {
            ':'
        });
    }
    if s.len() > 0 && t.len() > 0 {
        cut(m, i, n, j);
        strip(":"@, x + (","@ + u), y + (","@ + v));
        type_tells(s[0].1, t[0].1, ps, qs, ","@ + u, ","@ + v);
        strip(","@, u, v);
        field_types_tell(s.drop_first(), t.drop_first(), ps, qs, r, q);
    }
}

proof fn optional_tells(
    x: Option<TypeExpr>,
    y: Option<TypeExpr>,
    ps: Seq<Seq<char>>,
    qs: Seq<Seq<char>>,
    r: Seq<char>,
    q: Seq<char>,
)
    requires
        plain_optional(x),
        plain_optional(y),
        begins(r),
        begins(q),
        optional_type_print(x, ps) + r == optional_type_print(y, qs) + q,
    ensures
        alike_optional(x, y, ps, qs),
        r == q,
{
    reveal_strlit("_");
    assert(("_"@ + r)[0] == '_' && ("_"@ + q)[0] == '_');
    match (x, y) {
        (Some(x), Some(y)) => {
            type_tells(x, y, ps, qs, r, q);
        },
        (Some(x), None) => {
            type_shown(x, ps, r);
        },
        (None, Some(y)) => {
            type_shown(y, qs, q);
        },
        (None, None) => {
            strip("_"@, r, q);
        },
    }
}

/// Whether parameters have alike types.
pub open spec fn alike_params(
    s: Seq<Param>,
    t: Seq<Param>,
    ps: Seq<Seq<char>>,
    qs: Seq<Seq<char>>,
) -> bool {
    &&& s.len() == t.len()
    &&& forall|i: int|
        0 <= i < s.len() ==> alike_optional((#[trigger] s[i]).ty, t[i].ty, ps, qs)
}

pub open spec fn plain_params(s: Seq<Param>) -> bool {
    forall|i: int| 0 <= i < s.len() ==> plain_optional((#[trigger] s[i]).ty)
}

proof fn params_front(s: Seq<Param>, ps: Seq<Seq<char>>)
    requires
        s.len() > 0,
    ensures
        joined(param_types(s, ps), ","@) == optional_type_print(s[0].ty, ps) + (if s.len() > 1 {
            ","@ + joined(param_types(s.drop_first(), ps), ","@)
        } else {
            Seq::empty()
        }),
{
    let a = param_types(s, ps);
    nothing_before(a[0]);
    if s.len() > 1 {
        joined_front(a, ","@);
        assert(a.drop_first() =~= param_types(s.drop_first(), ps));
    }
}

proof fn params_tell(
    s: Seq<Param>,
    t: Seq<Param>,
    ps: Seq<Seq<char>>,
    qs: Seq<Seq<char>>,
    r: Seq<char>,
    q: Seq<char>,
)
    requires
        plain_params(s),
        plain_params(t),
        s.len() == t.len(),
        begins(r),
        begins(q),
        joined(param_types(s, ps), ","@) + r == joined(param_types(t, qs), ","@) + q,
    ensures
        alike_params(s, t, ps, qs),
        r == q,
    decreases s.len(),
{
    nothing_before(r);
    nothing_before(q);
    reveal_strlit(",");
    if s.len() == 0 {
        assert(joined(param_types(s, ps), ","@) == Seq::<char>::empty());
        assert(joined(param_types(t, qs), ","@) == Seq::<char>::empty());
    } else {
        params_front(s, ps);
        params_front(t, qs);
        let x = optional_type_print(s[0].ty, ps);
        let y = optional_type_print(t[0].ty, qs);
        assert(plain_optional(s[0].ty) && plain_optional(t[0].ty));
        if s.len() == 1 {
            nothing_before(x);
            nothing_before(y);
            optional_tells(s[0].ty, t[0].ty, ps, qs, r, q);
        } else {
            let d = s.drop_first();
            let e = t.drop_first();
            let u = joined(param_types(d, ps), ","@);
            let v = joined(param_types(e, qs), ","@);
            nest3(x, ","@, u, r);
            nest3(y, ","@, v, q);
            nest2(x, ","@, u);
            nest2(y, ","@, v);
            assert((","@ + (u + r))[0] == ',' && (","@ + (v + q))[0] == ',');
            optional_tells(s[0].ty, t[0].ty, ps, qs, ","@ + (u + r), ","@ + (v + q));
            strip(","@, u + r, v + q);
            assert forall|i: int| 0 <= i < d.len() implies plain_optional((#[trigger] d[i]).ty) by {
                assert(d[i] == s[i + 1]);
            }
            assert forall|i: int| 0 <= i < e.len() implies plain_optional((#[trigger] e[i]).ty) by {
                assert(e[i] == t[i + 1]);
            }
            params_tell(d, e, ps, qs, r, q);
            assert forall|i: int| 0 <= i < s.len() implies alike_optional(
                (#[trigger] s[i]).ty,
                t[i].ty,
                ps,
                qs,
            ) by {
                if i > 0 {
                    assert(s[i] == d[i - 1] && t[i] == e[i - 1]);
                }
            }
        }
    }
}

/// Functions whose types have the same fingerprint take as many parameters of
/// alike types, return alike types and have as many type parameters.
#[verifier::rlimit(40)]
#[verifier::spinoff_prover]
pub proof fn type_fingerprint_tells(f: Function, g: Function)
    requires
        plain_params(f.params@),
        plain_params(g.params@),
        plain_optional(f.return_type),
        plain_optional(g.return_type),
        abi_print(f) == abi_print(g),
    ensures
        f.type_params@.len() == g.type_params@.len(),
        alike_params(f.params@, g.params@, texts(f.type_params@), texts(g.type_params@)),
        alike_optional(
            f.return_type,
            g.return_type,
            texts(f.type_params@),
            texts(g.type_params@),
        ),
{
    reveal_strlit("fn$arity:");
    reveal_strlit("|type_params:");
    reveal_strlit("|params:[");
    reveal_strlit("]|return:");
    let ps = texts(f.type_params@);
    let qs = texts(g.type_params@);
    let i = decimal(f.params@.len());
    let j = decimal(g.params@.len());
    let k = decimal(f.type_params@.len());
    let l = decimal(g.type_params@.len());
    decimal_is_word(f.params@.len());
    decimal_is_word(g.params@.len());
    decimal_is_word(f.type_params@.len());
    decimal_is_word(g.type_params@.len());
    let m = joined(param_types(f.params@, ps), ","@);
    let n = joined(param_types(g.params@, qs), ","@);
    let a = optional_type_print(f.return_type, ps);
    let b = optional_type_print(g.return_type, qs);
    let u = m + ("]|return:"@ + a);
    let v = n + ("]|return:"@ + b);
    let x = k + ("|params:["@ + u);
    let y = l + ("|params:["@ + v);
    abi_opened("fn$arity:"@, i, "|type_params:"@, k, "|params:["@, m, "]|return:"@, a);
    abi_opened("fn$arity:"@, j, "|type_params:"@, l, "|params:["@, n, "]|return:"@, b);
    strip("fn$arity:"@, i + ("|type_params:"@ + x), j + ("|type_params:"@ + y));
    assert(("|type_params:"@ + x)[0] == '|' && ("|type_params:"@ + y)[0] == '|');
    cut(i, "|type_params:"@ + x, j, "|type_params:"@ + y);
    decimal_injective(f.params@.len(), g.params@.len());
    strip("|type_params:"@, x, y);
    assert(("|params:["@ + u)[0] == '|' && ("|params:["@ + v)[0] == '|');
    cut(k, "|params:["@ + u, l, "|params:["@ + v);
    decimal_injective(f.type_params@.len(), g.type_params@.len());
    strip("|params:["@, u, v);
    assert(("]|return:"@ + a)[0] == ']' && ("]|return:"@ + b)[0] == ']');
    params_tell(f.params@, g.params@, ps, qs, "]|return:"@ + a, "]|return:"@ + b);
    strip("]|return:"@, a, b);
    nothing_before(a);
    nothing_before(b);
    optional_tells(f.return_type, g.return_type, ps, qs, Seq::empty(), Seq::empty());
}

proof fn abi_opened(
    a: Seq<char>,
    b: Seq<char>,
    c: Seq<char>,
    d: Seq<char>,
    e: Seq<char>,
    f: Seq<char>,
    g: Seq<char>,
    h: Seq<char>,
)
    ensures
        a + b + c + d + e + f + g + h == a + (b + (c + (d + (e + (f + (g + h)))))),
{
    nest8(a, b, c, d, e, f, g, h, Seq::empty());
    nothing_before(h);
    nothing_before(a + b + c + d + e + f + g + h);
}

} // verus!
