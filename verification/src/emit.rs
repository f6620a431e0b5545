//! Printing of Core Erlang terms.
use vstd::prelude::*;
use crate::erlang::{
    bindings_of, clause_of, clauses_of, core_of, cores_of, entries_of, fundef_of, lit_of, module_of,
    pat_of, pat_segments_of, pats_of, segments_of, Clause, Core, CoreBinaryKind,
    CoreBinaryPatternSegment, CoreBinarySegment, CoreBinarySize, CoreClause, CoreExpr, CoreFunDef,
    CoreLit, CoreMod, CoreModule, CorePattern, FunDef, Literal, Pat, PatSegment, Segment,
};
use crate::text::{chars_of, decimal, decimal_int, join, joined, push_i64, push_u64, push_usize};

verus! {

/// One step of indentation.
pub open spec fn deeper(margin: Seq<char>) -> Seq<char> {
    margin + "    "@
}

/// A character as it stands inside a string literal.
pub open spec fn escaped_char(c: char) -> Seq<char> {
    if c == '\n' {
        "\\n"@
    } else if c == '\t' {
        "\\t"@
    } else if c == '\r' {
        "\\r"@
    } else if c == '\\' {
        "\\\\"@
    } else if c == '"' {
        "\\\""@
    } else {
        seq![c]
    }
}

/// The text with every special character escaped.
pub open spec fn escaped(s: Seq<char>) -> Seq<char>
    decreases s.len(),
{
    if s.len() == 0 {
        Seq::empty()
    } else {
        escaped(s.drop_last()) + escaped_char(s.last())
    }
}

/// The text of a literal.
pub open spec fn lit_text(l: Literal) -> Seq<char> {
    match l {
        Literal::Int(n) => decimal_int(n),
        Literal::Float(_, text) => text,
        Literal::Atom(a) => "'"@ + a + "'"@,
        Literal::Text(s) => "\""@ + escaped(s) + "\""@,
        Literal::Nil => "[]"@,
    }
}

pub open spec fn unit_of(kind: CoreBinaryKind) -> nat {
    match kind {
        CoreBinaryKind::Binary => 8,
        _ => 1,
    }
}

pub open spec fn size_text(size: CoreBinarySize) -> Seq<char> {
    match size {
        CoreBinarySize::Bits(bits) => decimal(bits as nat),
        CoreBinarySize::All => "'all'"@,
    }
}

pub open spec fn kind_text(kind: CoreBinaryKind) -> Seq<char> {
    match kind {
        CoreBinaryKind::Integer => "'integer'"@,
        CoreBinaryKind::BigInteger => "'integer'"@,
        CoreBinaryKind::Binary => "'binary'"@,
        CoreBinaryKind::Utf8 => "'utf8'"@,
    }
}

/// What follows the value or pattern of a binary segment.
pub open spec fn suffix_text(size: CoreBinarySize, kind: CoreBinaryKind) -> Seq<char> {
    match kind {
        CoreBinaryKind::Utf8 => ">("@ + "'undefined','undefined','utf8',['unsigned'|['big']])"@,
        CoreBinaryKind::BigInteger => ">("@ + size_text(size) + ","@ + decimal(unit_of(kind)) + ","@
            + kind_text(kind) + ",['unsigned'|['big']])"@,
        _ => ">("@ + size_text(size) + ","@ + decimal(unit_of(kind)) + ","@ + kind_text(kind)
            + ",['unsigned'|['little']])"@,
    }
}

/// The text of a pattern.
pub open spec fn pat_text(p: Pat) -> Seq<char>
    decreases p,
{
    match p {
        Pat::Lit(l) => lit_text(l),
        Pat::Var(name) => name,
        Pat::Tuple(items) => "{"@ + pats_text(items) + "}"@,
        Pat::Cons(h, t) => "["@ + pat_text(*h) + "|"@ + pat_text(*t) + "]"@,
        Pat::Nil => "[]"@,
        Pat::Binary(segments) => "#{"@ + pat_segments_text(segments) + "}#"@,
        Pat::Alias(name, inner) => name + " = "@ + pat_text(*inner),
    }
}

/// Patterns with commas between them.
pub open spec fn pats_text(s: Seq<Pat>) -> Seq<char>
    decreases s,
{
    if s.len() == 0 {
        Seq::empty()
    } else if s.len() == 1 {
        pat_text(s.last())
    } else {
        pats_text(s.drop_last()) + ", "@ + pat_text(s.last())
    }
}

pub open spec fn pat_segments_text(s: Seq<PatSegment>) -> Seq<char>
    decreases s,
{
    if s.len() == 0 {
        Seq::empty()
    } else if s.len() == 1 {
        "#<"@ + pat_text(s.last().pattern) + suffix_text(s.last().size, s.last().kind)
    } else {
        pat_segments_text(s.drop_last()) + ","@ + ("#<"@ + pat_text(s.last().pattern) + suffix_text(
            s.last().size,
            s.last().kind,
        ))
    }
}

/// The text of an expression whose first line stands behind `margin`.
pub open spec fn core_text(e: Core, margin: Seq<char>) -> Seq<char>
    decreases e,
{
    match e {
        Core::Lit(l) => lit_text(l),
        Core::Var(name) => name,
        Core::Tuple(items) => "{"@ + cores_text(items, margin) + "}"@,
        Core::List(items, tail) => "["@ + cores_text(items, margin) + "|"@ + core_text(*tail, margin)
            + "]"@,
        Core::Cons(h, t) => "["@ + core_text(*h, margin) + "|"@ + core_text(*t, margin) + "]"@,
        Core::MapLit(entries) => "~{"@ + entries_text(entries, margin) + "}~"@,
        Core::Binary(segments) => "#{"@ + segments_text(segments, margin) + "}#"@,
        Core::LocalFunRef(name, arity) => "'"@ + name + "'/"@ + decimal(arity),
        Core::RemoteFunRef(module, name, arity) => "'"@ + module + "':'"@ + name + "'/"@ + decimal(
            arity,
        ),
        Core::Apply(f, args) => "apply "@ + core_text(*f, margin) + " ("@ + cores_text(args, margin)
            + ")"@,
        Core::Call(module, f, args) => "call '"@ + module + "':'"@ + f + "'("@ + cores_text(
            args,
            margin,
        ) + ")"@,
        Core::Let(bindings, body) => "let <"@ + names_text(bindings) + "> = <"@ + values_text(
            bindings,
            margin,
        ) + "> in "@ + core_text(*body, margin),
        Core::Case(scrutinee, clauses) => "case "@ + core_text(*scrutinee, margin) + " of\n"@
            + clauses_text(clauses, deeper(margin)) + margin + "end"@,
        Core::Receive(clauses, timeout) => {
            let m1 = deeper(margin);
            let m2 = deeper(m1);
            let m3 = deeper(m2);
            let m4 = deeper(m3);
            let m5 = deeper(m4);
            let m6 = deeper(m5);
            let ms = match timeout {
                Some((ms, _)) => core_text(*ms, m6),
                None => "'infinity'"@,
            };
            let after = match timeout {
                Some((_, body)) => core_text(*body, m6),
                None => "'timeout'"@,
            };
            receive_head(margin) + receive_clauses_text(clauses, m6) + receive_middle(margin) + ms
                + ")\n"@ + receive_wait(margin) + after + receive_end(margin)
        },
        Core::Fun(params, body) => "fun ("@ + joined(params, ", "@) + ") -> "@ + core_text(
            *body,
            margin,
        ),
        Core::Primop(op, args) => "primop '"@ + op + "' ("@ + cores_text(args, margin) + ")"@,
        Core::Sequence(a, b) => "do "@ + core_text(*a, margin) + "\n"@ + margin + core_text(*b, margin),
        Core::Try(body, vars, handler, evars, catch) => "try "@ + core_text(*body, margin) + " of <"@
            + joined(vars, ", "@) + "> -> "@ + core_text(*handler, margin) + " catch <"@ + joined(
            evars,
            ", "@,
        ) + "> -> "@ + core_text(*catch, margin),
    }
}

/// Expressions with commas between them.
pub open spec fn cores_text(s: Seq<Core>, margin: Seq<char>) -> Seq<char>
    decreases s,
{
    if s.len() == 0 {
        Seq::empty()
    } else if s.len() == 1 {
        core_text(s.last(), margin)
    } else {
        cores_text(s.drop_last(), margin) + ", "@ + (core_text(s.last(), margin))
    }
}

/// Map entries with commas between them.
pub open spec fn entries_text(s: Seq<(Core, Core)>, margin: Seq<char>) -> Seq<char>
    decreases s,
{
    if s.len() == 0 {
        Seq::empty()
    } else if s.len() == 1 {
        core_text(s.last().0, margin) + "=>"@ + core_text(s.last().1, margin)
    } else {
        entries_text(s.drop_last(),
            margin) + ","@ + (core_text(s.last().0, margin) + "=>"@ + core_text(s.last().1, margin))
    }
}

/// Binary segments with commas between them.
pub open spec fn segments_text(s: Seq<Segment>, margin: Seq<char>) -> Seq<char>
    decreases s,
{
    if s.len() == 0 {
        Seq::empty()
    } else if s.len() == 1 {
        "#<"@ + core_text(s.last().value, margin) + suffix_text(s.last().size, s.last().kind)
    } else {
        segments_text(s.drop_last(),
            margin) + ","@ + ("#<"@ + core_text(s.last().value, margin) + suffix_text(s.last().size,
            s.last().kind))
    }
}

/// The names that a `let` binds.
pub open spec fn names_text(s: Seq<(Seq<char>, Core)>) -> Seq<char>
    decreases s,
{
    if s.len() == 0 {
        Seq::empty()
    } else if s.len() == 1 {
        s.last().0
    } else {
        names_text(s.drop_last()) + ", "@ + (s.last().0)
    }
}

/// The values that a `let` binds.
pub open spec fn values_text(s: Seq<(Seq<char>, Core)>, margin: Seq<char>) -> Seq<char>
    decreases s,
{
    if s.len() == 0 {
        Seq::empty()
    } else if s.len() == 1 {
        core_text(s.last().1, margin)
    } else {
        values_text(s.drop_last(), margin) + ", "@ + (core_text(s.last().1, margin))
    }
}

/// A clause of `case`, on a line of its own.
pub open spec fn clause_text(c: Clause, margin: Seq<char>) -> Seq<char>
    decreases c,
{
    margin + "<"@ + pats_text(c.patterns) + "> when "@ + core_text(c.guard, margin) + " -> "@
        + core_text(c.body, margin) + "\n"@
}

pub open spec fn clauses_text(s: Seq<Clause>, margin: Seq<char>) -> Seq<char>
    decreases s,
{
    if s.len() == 0 {
        Seq::empty()
    } else {
        clauses_text(s.drop_last(), margin) + clause_text(s.last(), margin)
    }
}

/// A clause of `receive`: it takes the message off the queue before its body runs.
pub open spec fn receive_clause_text(c: Clause, margin: Seq<char>) -> Seq<char>
    decreases c,
{
    margin + "<"@ + pats_text(c.patterns) + "> when "@ + core_text(c.guard, margin) + " ->\n"@ + deeper(
        margin,
    ) + "do primop 'remove_message' () "@ + core_text(c.body, deeper(margin)) + "\n"@
}

pub open spec fn receive_clauses_text(s: Seq<Clause>, margin: Seq<char>) -> Seq<char>
    decreases s,
{
    if s.len() == 0 {
        Seq::empty()
    } else {
        receive_clauses_text(s.drop_last(), margin) + receive_clause_text(s.last(), margin)
    }
}

/// The receive loop up to the user's clauses.
pub open spec fn receive_head(margin: Seq<char>) -> Seq<char> {
    let m1 = deeper(margin);
    let m2 = deeper(m1);
    let m3 = deeper(m2);
    let m4 = deeper(m3);
    let m5 = deeper(m4);
    "( letrec\n"@ + m1 + "'recv$^0'/0 =\n"@ + m2 + "fun () ->\n"@ + m3
        + "let <_has_msg,_msg> =\n"@ + m4 + "primop 'recv_peek_message' ()\n"@ + m3
        + "in case _has_msg of\n"@ + m4 + "<'true'> when 'true' ->\n"@ + m5 + "case _msg of\n"@
}

/// From the clause for other messages to the timeout.
pub open spec fn receive_middle(margin: Seq<char>) -> Seq<char> {
    let m4 = deeper(deeper(deeper(deeper(margin))));
    let m5 = deeper(m4);
    let m6 = deeper(m5);
    let m7 = deeper(m6);
    m6 + "<_Other> when 'true' ->\n"@ + m7 + "do primop 'recv_next' () apply 'recv$^0'/0 ()\n"@ + m5
        + "end\n"@ + m4 + "<'false'> when 'true' ->\n"@ + m5 + "let <_timeout_result> =\n"@ + m6
        + "primop 'recv_wait_timeout' ("@
}

/// From the timeout to what runs when it is over.
pub open spec fn receive_wait(margin: Seq<char>) -> Seq<char> {
    let m5 = deeper(deeper(deeper(deeper(deeper(margin)))));
    let m6 = deeper(m5);
    m5 + "in case _timeout_result of\n"@ + m6 + "<'true'> when 'true' -> "@
}

/// The end of the receive loop.
pub open spec fn receive_end(margin: Seq<char>) -> Seq<char> {
    let m1 = deeper(margin);
    let m3 = deeper(deeper(m1));
    let m5 = deeper(deeper(m3));
    let m6 = deeper(m5);
    "\n"@ + m6 + "<'false'> when 'true' -> apply 'recv$^0'/0 ()\n"@ + m5 + "end\n"@ + m3 + "end\n"@
        + m1 + "in apply 'recv$^0'/0 ()\n"@ + margin + "-| ['letrec_goto'] )"@
}

/// A function definition and the end of its line.
pub open spec fn fundef_text(f: FunDef) -> Seq<char> {
    "'"@ + f.name + "'/"@ + decimal(f.arity) + " = "@ + "fun ("@ + joined(f.params, ", "@) + ") -> "@
        + core_text(f.body, ""@) + "\n"@
}

pub open spec fn fundefs_text(s: Seq<FunDef>) -> Seq<char>
    decreases s.len(),
{
    if s.len() == 0 {
        Seq::empty()
    } else {
        fundefs_text(s.drop_last()) + fundef_text(s.last()) + "\n"@
    }
}

pub open spec fn exports_text(s: Seq<(Seq<char>, nat)>) -> Seq<char>
    decreases s.len(),
{
    if s.len() == 0 {
        Seq::empty()
    } else if s.len() == 1 {
        "'"@ + s.last().0 + "'/"@ + decimal(s.last().1)
    } else {
        exports_text(s.drop_last()) + ", "@ + ("'"@ + s.last().0 + "'/"@ + decimal(s.last().1))
    }
}

/// The text of a module.
pub open spec fn module_text(m: CoreMod) -> Seq<char> {
    "module '"@ + m.name + "'\n"@ + "    ["@ + exports_text(m.exports) + "]\n"@ + "attributes []\n"@
        + "\n"@ + fundefs_text(m.functions) + "end\n"@
}

/// Prints Core Erlang modules.
pub struct Emitter {
    output: String,
}

/// Escapes the special characters of `s`.
pub fn escape_string(s: &str) -> (r: String)
    ensures
        r@ == escaped(s@),
{
    let cs = chars_of(s);
    let mut out = String::new();
    let mut i: usize = 0;
    while i < cs.len()
        invariant
            i <= cs@.len(),
            cs@ == s@,
            out@ == escaped(s@.take(i as int)),
        decreases cs@.len() - i,
    {
        let c = cs[i];
        if c == '\n' {
            out.append("\\n");
        } else if c == '\t' {
            out.append("\\t");
        } else if c == '\r' {
            out.append("\\r");
        } else if c == '\\' {
            out.append("\\\\");
        } else if c == '"' {
            out.append("\\\"");
        } else {
            out.push(c);
        }
        assert(s@.take(i as int + 1).drop_last() =~= s@.take(i as int));
        assert(out@ =~= escaped(s@.take(i as int + 1)));
        i = i + 1;
    }
    assert(s@.take(i as int) =~= s@);
    out
}

/// A margin one step further in.
fn indent(margin: &str) -> (r: String)
    ensures
        r@ == deeper(margin@),
{
    let mut m = margin.to_owned();
    m.append("    ");
    m
}

impl Emitter {
    /// What has been printed and not yet handed out.
    pub closed spec fn pending(self) -> Seq<char> {
        self.output@
    }

    pub fn new() -> (r: Self)
        ensures
            r.pending() == Seq::<char>::empty(),
    {
        Emitter { output: String::new() }
    }

    /// Prints a module and hands the text out.
    pub fn emit_module(&mut self, module: &CoreModule) -> (r: String)
        ensures
            r@ == old(self).pending() + module_text(module_of(*module)),
            final(self).pending() == Seq::<char>::empty(),
    {
        let mut t = "module '".to_owned();
        t.append(module.name.as_str());
        t.append("'\n");
        t.append("    [");
        t.append(Self::emit_exports(module).as_str());
        t.append("]\n");
        t.append("attributes []\n");
        t.append("\n");
        t.append(Self::emit_fundefs(module).as_str());
        t.append("end\n");
        self.output.append(t.as_str());
        let mut out = String::new();
        std::mem::swap(&mut out, &mut self.output);
        out
    }

    fn emit_exports(module: &CoreModule) -> (r: String)
        ensures
            r@ == exports_text(module_of(*module).exports),
    {
        let ghost all = module_of(*module).exports;
        let mut out = String::new();
        let mut i: usize = 0;
        while i < module.exports.len()
            invariant
                i <= module.exports@.len(),
                all == module_of(*module).exports,
                out@ == exports_text(all.take(i as int)),
            decreases module.exports@.len() - i,
        {
            assert(all.take(i as int + 1).drop_last() =~= all.take(i as int));
            let mut item = "'".to_owned();
            item.append(module.exports[i].0.as_str());
            item.append("'/");
            push_usize(&mut item, module.exports[i].1);
            if i == 0 {
                out = item;
            } else {
                out.append(", ");
                out.append(item.as_str());
            }
            i = i + 1;
        }
        assert(all.take(i as int) =~= all);
        out
    }

    fn emit_fundefs(module: &CoreModule) -> (r: String)
        ensures
            r@ == fundefs_text(module_of(*module).functions),
    {
        let ghost all = module_of(*module).functions;
        let mut out = String::new();
        let mut i: usize = 0;
        while i < module.functions.len()
            invariant
                i <= module.functions@.len(),
                all == module_of(*module).functions,
                out@ == fundefs_text(all.take(i as int)),
            decreases module.functions@.len() - i,
        {
            assert(all.take(i as int + 1).drop_last() =~= all.take(i as int));
            out.append(Self::emit_fundef(&module.functions[i]).as_str());
            out.append("\n");
            i = i + 1;
        }
        assert(all.take(i as int) =~= all);
        out
    }

    fn emit_fundef(func: &CoreFunDef) -> (r: String)
        ensures
            r@ == fundef_text(fundef_of(*func)),
    {
        let mut t = "'".to_owned();
        t.append(func.name.as_str());
        t.append("'/");
        push_usize(&mut t, func.arity);
        t.append(" = ");
        t.append("fun (");
        t.append(join(&func.params, ", ").as_str());
        t.append(") -> ");
        t.append(Self::emit_expr(&func.body, "").as_str());
        t.append("\n");
        t
    }

    fn emit_expr(expr: &CoreExpr, margin: &str) -> (r: String)
        ensures
            r@ == core_text(core_of(*expr), margin@),
        decreases expr, 1nat,
    {
        match expr {
            CoreExpr::Lit(l) => Self::emit_lit(l),
            CoreExpr::Var(name) => name.clone(),
            CoreExpr::LocalFunRef(name, arity) => {
                let mut t = "'".to_owned();
                t.append(name.as_str());
                t.append("'/");
                push_usize(&mut t, *arity);
                t
            },
            CoreExpr::RemoteFunRef(module, name, arity) => {
                let mut t = "'".to_owned();
                t.append(module.as_str());
                t.append("':'");
                t.append(name.as_str());
                t.append("'/");
                push_usize(&mut t, *arity);
                t
            },
            CoreExpr::Tuple(items) => {
                let mut t = "{".to_owned();
                t.append(Self::emit_exprs(items, margin).as_str());
                t.append("}");
                t
            },
            CoreExpr::List(items, tail) => {
                let mut t = "[".to_owned();
                t.append(Self::emit_exprs(items, margin).as_str());
                t.append("|");
                t.append(Self::emit_expr(tail, margin).as_str());
                t.append("]");
                t
            },
            CoreExpr::Cons(h, t0) => {
                let mut t = "[".to_owned();
                t.append(Self::emit_expr(h, margin).as_str());
                t.append("|");
                t.append(Self::emit_expr(t0, margin).as_str());
                t.append("]");
                t
            },
            CoreExpr::MapLit(entries) => {
                let mut t = "~{".to_owned();
                t.append(Self::emit_entries(entries, margin).as_str());
                t.append("}~");
                t
            },
            CoreExpr::Binary(segments) => {
                let mut t = "#{".to_owned();
                t.append(Self::emit_segments(segments, margin).as_str());
                t.append("}#");
                t
            },
            CoreExpr::Fun(params, body) => {
                let mut t = "fun (".to_owned();
                t.append(join(params, ", ").as_str());
                t.append(") -> ");
                t.append(Self::emit_expr(body, margin).as_str());
                t
            },
            CoreExpr::Let(bindings, body) => {
                let mut t = "let <".to_owned();
                t.append(Self::emit_names(bindings).as_str());
                t.append("> = <");
                t.append(Self::emit_values(bindings, margin).as_str());
                t.append("> in ");
                t.append(Self::emit_expr(body, margin).as_str());
                t
            },
            CoreExpr::Apply(f, args) => {
                let mut t = "apply ".to_owned();
                t.append(Self::emit_expr(f, margin).as_str());
                t.append(" (");
                t.append(Self::emit_exprs(args, margin).as_str());
                t.append(")");
                t
            },
            CoreExpr::Call(module, f, args) => {
                let mut t = "call '".to_owned();
                t.append(module.as_str());
                t.append("':'");
                t.append(f.as_str());
                t.append("'(");
                t.append(Self::emit_exprs(args, margin).as_str());
                t.append(")");
                t
            },
            CoreExpr::Case(scrutinee, clauses) => {
                let mut t = "case ".to_owned();
                t.append(Self::emit_expr(scrutinee, margin).as_str());
                t.append(" of\n");
                t.append(Self::emit_clauses(clauses, indent(margin).as_str()).as_str());
                t.append(margin);
                t.append("end");
                t
            },
            CoreExpr::Receive { .. } => Self::emit_receive_primop(expr, margin),
            CoreExpr::Primop(op, args) => {
                let mut t = "primop '".to_owned();
                t.append(op.as_str());
                t.append("' (");
                t.append(Self::emit_exprs(args, margin).as_str());
                t.append(")");
                t
            },
            CoreExpr::Sequence(a, b) => {
                let mut t = "do ".to_owned();
                t.append(Self::emit_expr(a, margin).as_str());
                t.append("\n");
                t.append(margin);
                t.append(Self::emit_expr(b, margin).as_str());
                t
            },
            CoreExpr::Try { body, vars, handler, evars, catch } => {
                let mut t = "try ".to_owned();
                t.append(Self::emit_expr(body, margin).as_str());
                t.append(" of <");
                t.append(join(vars, ", ").as_str());
                t.append("> -> ");
                t.append(Self::emit_expr(handler, margin).as_str());
                t.append(" catch <");
                t.append(join(evars, ", ").as_str());
                t.append("> -> ");
                t.append(Self::emit_expr(catch, margin).as_str());
                t
            },
        }
    }

    fn emit_exprs(v: &Vec<CoreExpr>, margin: &str) -> (r: String)
        ensures
            r@ == cores_text(cores_of(v@), margin@),
        decreases v, 0nat,
    {
        let mut out = String::new();
        let mut i: usize = 0;
        while i < v.len()
            invariant
                i <= v@.len(),
                cores_of(v@.take(i as int)).len() == i,
                out@ == cores_text(cores_of(v@.take(i as int)), margin@),
            decreases v@.len() - i,
        {
            assert(v@.take(i as int + 1).drop_last() =~= v@.take(i as int));
            assert(cores_of(v@.take(i as int + 1)).drop_last() =~= cores_of(v@.take(i as int)));
            let item = Self::emit_expr(&v[i], margin);
            if i == 0 {
                out = item;
            } else {
                out.append(", ");
                out.append(item.as_str());
            }
            i = i + 1;
        }
        assert(v@.take(i as int) =~= v@);
        out
    }

    fn emit_entries(v: &Vec<(CoreExpr, CoreExpr)>, margin: &str) -> (r: String)
        ensures
            r@ == entries_text(entries_of(v@), margin@),
        decreases v, 0nat,
    {
        let mut out = String::new();
        let mut i: usize = 0;
        while i < v.len()
            invariant
                i <= v@.len(),
                entries_of(v@.take(i as int)).len() == i,
                out@ == entries_text(entries_of(v@.take(i as int)), margin@),
            decreases v@.len() - i,
        {
            assert(v@.take(i as int + 1).drop_last() =~= v@.take(i as int));
            assert(entries_of(v@.take(i as int + 1)).drop_last() =~= entries_of(v@.take(i as int)));
            let mut item = Self::emit_expr(&v[i].0, margin);
            item.append("=>");
            item.append(Self::emit_expr(&v[i].1, margin).as_str());
            if i == 0 {
                out = item;
            } else {
                out.append(",");
                out.append(item.as_str());
            }
            i = i + 1;
        }
        assert(v@.take(i as int) =~= v@);
        out
    }

    fn emit_segments(v: &Vec<CoreBinarySegment>, margin: &str) -> (r: String)
        ensures
            r@ == segments_text(segments_of(v@), margin@),
        decreases v, 0nat,
    {
        let mut out = String::new();
        let mut i: usize = 0;
        while i < v.len()
            invariant
                i <= v@.len(),
                segments_of(v@.take(i as int)).len() == i,
                out@ == segments_text(segments_of(v@.take(i as int)), margin@),
            decreases v@.len() - i,
        {
            assert(v@.take(i as int + 1).drop_last() =~= v@.take(i as int));
            assert(segments_of(v@.take(i as int + 1)).drop_last() =~= segments_of(v@.take(i as int)));
            let mut item = "#<".to_owned();
            item.append(Self::emit_expr(&v[i].value, margin).as_str());
            item.append(Self::emit_binary_segment_suffix(v[i].size, v[i].kind).as_str());
            if i == 0 {
                out = item;
            } else {
                out.append(",");
                out.append(item.as_str());
            }
            i = i + 1;
        }
        assert(v@.take(i as int) =~= v@);
        out
    }

    fn emit_names(v: &Vec<(String, CoreExpr)>) -> (r: String)
        ensures
            r@ == names_text(bindings_of(v@)),
        decreases v, 0nat,
    {
        let mut out = String::new();
        let mut i: usize = 0;
        while i < v.len()
            invariant
                i <= v@.len(),
                bindings_of(v@.take(i as int)).len() == i,
                out@ == names_text(bindings_of(v@.take(i as int))),
            decreases v@.len() - i,
        {
            assert(v@.take(i as int + 1).drop_last() =~= v@.take(i as int));
            assert(bindings_of(v@.take(i as int + 1)).drop_last() =~= bindings_of(v@.take(i as int)));
            let item = v[i].0.clone();
            if i == 0 {
                out = item;
            } else {
                out.append(", ");
                out.append(item.as_str());
            }
            i = i + 1;
        }
        assert(v@.take(i as int) =~= v@);
        out
    }

    fn emit_values(v: &Vec<(String, CoreExpr)>, margin: &str) -> (r: String)
        ensures
            r@ == values_text(bindings_of(v@), margin@),
        decreases v, 0nat,
    {
        let mut out = String::new();
        let mut i: usize = 0;
        while i < v.len()
            invariant
                i <= v@.len(),
                bindings_of(v@.take(i as int)).len() == i,
                out@ == values_text(bindings_of(v@.take(i as int)), margin@),
            decreases v@.len() - i,
        {
            assert(v@.take(i as int + 1).drop_last() =~= v@.take(i as int));
            assert(bindings_of(v@.take(i as int + 1)).drop_last() =~= bindings_of(v@.take(i as int)));
            let item = Self::emit_expr(&v[i].1, margin);
            if i == 0 {
                out = item;
            } else {
                out.append(", ");
                out.append(item.as_str());
            }
            i = i + 1;
        }
        assert(v@.take(i as int) =~= v@);
        out
    }

    fn emit_clauses(v: &Vec<CoreClause>, margin: &str) -> (r: String)
        ensures
            r@ == clauses_text(clauses_of(v@), margin@),
        decreases v, 0nat,
    {
        let mut out = String::new();
        let mut i: usize = 0;
        while i < v.len()
            invariant
                i <= v@.len(),
                clauses_of(v@.take(i as int)).len() == i,
                out@ == clauses_text(clauses_of(v@.take(i as int)), margin@),
            decreases v@.len() - i,
        {
            assert(v@.take(i as int + 1).drop_last() =~= v@.take(i as int));
            assert(clauses_of(v@.take(i as int + 1)).drop_last() =~= clauses_of(v@.take(i as int)));
            let item = Self::emit_clause(&v[i], margin);
            out.append(item.as_str());
            i = i + 1;
        }
        assert(v@.take(i as int) =~= v@);
        out
    }

    fn emit_receive_clauses(v: &Vec<CoreClause>, margin: &str) -> (r: String)
        ensures
            r@ == receive_clauses_text(clauses_of(v@), margin@),
        decreases v, 0nat,
    {
        let mut out = String::new();
        let mut i: usize = 0;
        while i < v.len()
            invariant
                i <= v@.len(),
                clauses_of(v@.take(i as int)).len() == i,
                out@ == receive_clauses_text(clauses_of(v@.take(i as int)), margin@),
            decreases v@.len() - i,
        {
            assert(v@.take(i as int + 1).drop_last() =~= v@.take(i as int));
            assert(clauses_of(v@.take(i as int + 1)).drop_last() =~= clauses_of(v@.take(i as int)));
            let item = Self::emit_receive_clause(&v[i], margin);
            out.append(item.as_str());
            i = i + 1;
        }
        assert(v@.take(i as int) =~= v@);
        out
    }

    fn emit_patterns(v: &Vec<CorePattern>) -> (r: String)
        ensures
            r@ == pats_text(pats_of(v@)),
        decreases v, 0nat,
    {
        let mut out = String::new();
        let mut i: usize = 0;
        while i < v.len()
            invariant
                i <= v@.len(),
                pats_of(v@.take(i as int)).len() == i,
                out@ == pats_text(pats_of(v@.take(i as int))),
            decreases v@.len() - i,
        {
            assert(v@.take(i as int + 1).drop_last() =~= v@.take(i as int));
            assert(pats_of(v@.take(i as int + 1)).drop_last() =~= pats_of(v@.take(i as int)));
            let item = Self::emit_pattern(&v[i]);
            if i == 0 {
                out = item;
            } else {
                out.append(", ");
                out.append(item.as_str());
            }
            i = i + 1;
        }
        assert(v@.take(i as int) =~= v@);
        out
    }

    fn emit_pattern_segments(v: &Vec<CoreBinaryPatternSegment>) -> (r: String)
        ensures
            r@ == pat_segments_text(pat_segments_of(v@)),
        decreases v, 0nat,
    {
        let mut out = String::new();
        let mut i: usize = 0;
        while i < v.len()
            invariant
                i <= v@.len(),
                pat_segments_of(v@.take(i as int)).len() == i,
                out@ == pat_segments_text(pat_segments_of(v@.take(i as int))),
            decreases v@.len() - i,
        {
            assert(v@.take(i as int + 1).drop_last() =~= v@.take(i as int));
            assert(pat_segments_of(v@.take(i as int + 1)).drop_last() =~= pat_segments_of(v@.take(i as int)));
            let mut item = "#<".to_owned();
            item.append(Self::emit_pattern(&v[i].pattern).as_str());
            item.append(Self::emit_binary_segment_suffix(v[i].size, v[i].kind).as_str());
            if i == 0 {
                out = item;
            } else {
                out.append(",");
                out.append(item.as_str());
            }
            i = i + 1;
        }
        assert(v@.take(i as int) =~= v@);
        out
    }

    fn emit_lit(l: &CoreLit) -> (r: String)
        ensures
            r@ == lit_text(lit_of(*l)),
    {
        match l {
            CoreLit::Int(n) => {
                let mut t = String::new();
                push_i64(&mut t, *n);
                t
            },
            CoreLit::Float(f) => f.text.clone(),
            CoreLit::Atom(a) => {
                let mut t = "'".to_owned();
                t.append(a.as_str());
                t.append("'");
                t
            },
            CoreLit::String(s) => {
                let mut t = "\"".to_owned();
                t.append(escape_string(s.as_str()).as_str());
                t.append("\"");
                t
            },
            CoreLit::Nil => "[]".to_owned(),
        }
    }

    fn emit_clause(clause: &CoreClause, margin: &str) -> (r: String)
        ensures
            r@ == clause_text(clause_of(*clause), margin@),
        decreases clause, 0nat,
    {
        let mut t = margin.to_owned();
        t.append("<");
        t.append(Self::emit_patterns(&clause.patterns).as_str());
        t.append("> when ");
        t.append(Self::emit_expr(&clause.guard, margin).as_str());
        t.append(" -> ");
        t.append(Self::emit_expr(&clause.body, margin).as_str());
        t.append("\n");
        t
    }

    fn emit_receive_clause(clause: &CoreClause, margin: &str) -> (r: String)
        ensures
            r@ == receive_clause_text(clause_of(*clause), margin@),
        decreases clause, 0nat,
    {
        let inner = indent(margin);
        let mut t = margin.to_owned();
        t.append("<");
        t.append(Self::emit_patterns(&clause.patterns).as_str());
        t.append("> when ");
        t.append(Self::emit_expr(&clause.guard, margin).as_str());
        t.append(" ->\n");
        t.append(inner.as_str());
        t.append("do primop 'remove_message' () ");
        t.append(Self::emit_expr(&clause.body, inner.as_str()).as_str());
        t.append("\n");
        t
    }

    fn emit_pattern(pat: &CorePattern) -> (r: String)
        ensures
            r@ == pat_text(pat_of(*pat)),
        decreases pat, 0nat,
    {
        match pat {
            CorePattern::Lit(l) => Self::emit_lit(l),
            CorePattern::Var(name) => name.clone(),
            CorePattern::Tuple(items) => {
                let mut t = "{".to_owned();
                t.append(Self::emit_patterns(items).as_str());
                t.append("}");
                t
            },
            CorePattern::Cons(h, t0) => {
                let mut t = "[".to_owned();
                t.append(Self::emit_pattern(h).as_str());
                t.append("|");
                t.append(Self::emit_pattern(t0).as_str());
                t.append("]");
                t
            },
            CorePattern::Nil => "[]".to_owned(),
            CorePattern::Binary(segments) => {
                let mut t = "#{".to_owned();
                t.append(Self::emit_pattern_segments(segments).as_str());
                t.append("}#");
                t
            },
            CorePattern::Alias(name, inner) => {
                let mut t = name.as_str().to_owned();
                t.append(" = ");
                t.append(Self::emit_pattern(inner).as_str());
                t
            },
        }
    }

    fn emit_binary_segment_suffix(size: CoreBinarySize, kind: CoreBinaryKind) -> (r: String)
        ensures
            r@ == suffix_text(size, kind),
    {
        let mut t = ">(".to_owned();
        match kind {
            CoreBinaryKind::Utf8 => {
                t.append("'undefined','undefined','utf8',['unsigned'|['big']])");
            },
            CoreBinaryKind::BigInteger => {
                t.append(Self::emit_binary_segment_size(size).as_str());
                t.append(",");
                push_u64(&mut t, Self::binary_segment_unit(kind));
                t.append(",");
                t.append(Self::emit_binary_segment_kind(kind).as_str());
                t.append(",['unsigned'|['big']])");
            },
            _ => {
                t.append(Self::emit_binary_segment_size(size).as_str());
                t.append(",");
                push_u64(&mut t, Self::binary_segment_unit(kind));
                t.append(",");
                t.append(Self::emit_binary_segment_kind(kind).as_str());
                t.append(",['unsigned'|['little']])");
            },
        }
        t
    }

    fn emit_binary_segment_size(size: CoreBinarySize) -> (r: String)
        ensures
            r@ == size_text(size),
    {
        match size {
            CoreBinarySize::Bits(bits) => {
                let mut t = String::new();
                push_u64(&mut t, bits as u64);
                t
            },
            CoreBinarySize::All => "'all'".to_owned(),
        }
    }

    fn emit_binary_segment_kind(kind: CoreBinaryKind) -> (r: String)
        ensures
            r@ == kind_text(kind),
    {
        match kind {
            CoreBinaryKind::Integer => "'integer'".to_owned(),
            CoreBinaryKind::BigInteger => "'integer'".to_owned(),
            CoreBinaryKind::Binary => "'binary'".to_owned(),
            CoreBinaryKind::Utf8 => "'utf8'".to_owned(),
        }
    }

    fn binary_segment_unit(kind: CoreBinaryKind) -> (r: u64)
        ensures
            r == unit_of(kind),
    {
        match kind {
            CoreBinaryKind::Integer => 1,
            CoreBinaryKind::BigInteger => 1,
            CoreBinaryKind::Binary => 8,
            CoreBinaryKind::Utf8 => 1,
        }
    }

    /// Prints a receive loop in terms of the message queue's primops.
    fn emit_receive_primop(expr: &CoreExpr, margin: &str) -> (r: String)
        requires
            *expr is Receive,
        ensures
            r@ == core_text(core_of(*expr), margin@),
        decreases expr, 0nat,
    {
        let m1 = indent(margin);
        let m2 = indent(m1.as_str());
        let m3 = indent(m2.as_str());
        let m4 = indent(m3.as_str());
        let m5 = indent(m4.as_str());
        let m6 = indent(m5.as_str());
        let mut t = Self::emit_receive_head(margin);
        if let CoreExpr::Receive { clauses, timeout } = expr {
            t.append(Self::emit_receive_clauses(clauses, m6.as_str()).as_str());
            t.append(Self::emit_receive_middle(margin).as_str());
            match timeout {
                Some((ms, _)) => t.append(Self::emit_expr(ms, m6.as_str()).as_str()),
                None => t.append("'infinity'"),
            }
            t.append(")\n");
            t.append(Self::emit_receive_wait(margin).as_str());
            match timeout {
                Some((_, body)) => t.append(Self::emit_expr(body, m6.as_str()).as_str()),
                None => t.append("'timeout'"),
            }
            t.append(Self::emit_receive_end(margin).as_str());
        }
        t
    }

    fn emit_receive_head(margin: &str) -> (r: String)
        ensures
            r@ == receive_head(margin@),
    {
        let m1 = indent(margin);
        let m2 = indent(m1.as_str());
        let m3 = indent(m2.as_str());
        let m4 = indent(m3.as_str());
        let m5 = indent(m4.as_str());
        let mut t = "( letrec\n".to_owned();
        t.append(m1.as_str());
        t.append("'recv$^0'/0 =\n");
        t.append(m2.as_str());
        t.append("fun () ->\n");
        t.append(m3.as_str());
        t.append("let <_has_msg,_msg> =\n");
        t.append(m4.as_str());
        t.append("primop 'recv_peek_message' ()\n");
        t.append(m3.as_str());
        t.append("in case _has_msg of\n");
        t.append(m4.as_str());
        t.append("<'true'> when 'true' ->\n");
        t.append(m5.as_str());
        t.append("case _msg of\n");
        t
    }

    fn emit_receive_middle(margin: &str) -> (r: String)
        ensures
            r@ == receive_middle(margin@),
    {
        let m1 = indent(margin);
        let m2 = indent(m1.as_str());
        let m3 = indent(m2.as_str());
        let m4 = indent(m3.as_str());
        let m5 = indent(m4.as_str());
        let m6 = indent(m5.as_str());
        let m7 = indent(m6.as_str());
        let mut t = m6.as_str().to_owned();
        t.append("<_Other> when 'true' ->\n");
        t.append(m7.as_str());
        t.append("do primop 'recv_next' () apply 'recv$^0'/0 ()\n");
        t.append(m5.as_str());
        t.append("end\n");
        t.append(m4.as_str());
        t.append("<'false'> when 'true' ->\n");
        t.append(m5.as_str());
        t.append("let <_timeout_result> =\n");
        t.append(m6.as_str());
        t.append("primop 'recv_wait_timeout' (");
        t
    }

    fn emit_receive_wait(margin: &str) -> (r: String)
        ensures
            r@ == receive_wait(margin@),
    {
        let m1 = indent(margin);
        let m2 = indent(m1.as_str());
        let m3 = indent(m2.as_str());
        let m4 = indent(m3.as_str());
        let m5 = indent(m4.as_str());
        let m6 = indent(m5.as_str());
        let mut t = m5.as_str().to_owned();
        t.append("in case _timeout_result of\n");
        t.append(m6.as_str());
        t.append("<'true'> when 'true' -> ");
        t
    }

    fn emit_receive_end(margin: &str) -> (r: String)
        ensures
            r@ == receive_end(margin@),
    {
        let m1 = indent(margin);
        let m2 = indent(m1.as_str());
        let m3 = indent(m2.as_str());
        let m4 = indent(m3.as_str());
        let m5 = indent(m4.as_str());
        let m6 = indent(m5.as_str());
        let mut t = "\n".to_owned();
        t.append(m6.as_str());
        t.append("<'false'> when 'true' -> apply 'recv$^0'/0 ()\n");
        t.append(m5.as_str());
        t.append("end\n");
        t.append(m3.as_str());
        t.append("end\n");
        t.append(m1.as_str());
        t.append("in apply 'recv$^0'/0 ()\n");
        t.append(margin);
        t.append("-| ['letrec_goto'] )");
        t
    }
}

impl Default for Emitter {
    fn default() -> (r: Self)
        ensures
            r.pending() == Seq::<char>::empty(),
    {
        Self::new()
    }
}

} // verus!
