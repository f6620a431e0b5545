//! Core Erlang terms, and their mathematical model.
use vstd::prelude::*;
use crate::ast::FloatLiteral;
use crate::text::{dup_strings, texts};

verus! {

#[derive(Debug)]
pub struct CoreModule {
    pub name: String,
    pub exports: Vec<(String, usize)>,
    pub functions: Vec<CoreFunDef>,
}

#[derive(Debug)]
pub struct CoreFunDef {
    pub name: String,
    pub arity: usize,
    pub params: Vec<String>,
    pub body: CoreExpr,
}

#[derive(Debug)]
pub struct CoreBinarySegment {
    pub value: CoreExpr,
    pub size: CoreBinarySize,
    pub kind: CoreBinaryKind,
}

#[derive(Debug, Clone, Copy, PartialEq, Eq, Structural)]
pub enum CoreBinarySize {
    Bits(u32),
    All,
}

#[derive(Debug, Clone, Copy, PartialEq, Eq, Structural)]
pub enum CoreBinaryKind {
    Integer,
    BigInteger,
    Binary,
    Utf8,
}

#[derive(Debug)]
pub struct CoreBinaryPatternSegment {
    pub pattern: CorePattern,
    pub size: CoreBinarySize,
    pub kind: CoreBinaryKind,
}

#[derive(Debug)]
pub enum CoreExpr {
    Lit(CoreLit),
    Var(String),
    Tuple(Vec<CoreExpr>),
    /// Elements and tail.
    List(Vec<CoreExpr>, Box<CoreExpr>),
    Cons(Box<CoreExpr>, Box<CoreExpr>),
    MapLit(Vec<(CoreExpr, CoreExpr)>),
    Binary(Vec<CoreBinarySegment>),
    /// `'name'/arity`
    LocalFunRef(String, usize),
    /// `'module':'name'/arity`
    RemoteFunRef(String, String, usize),
    Apply(Box<CoreExpr>, Vec<CoreExpr>),
    /// `module:function(args)`
    Call(String, String, Vec<CoreExpr>),
    Let(Vec<(String, CoreExpr)>, Box<CoreExpr>),
    Case(Box<CoreExpr>, Vec<CoreClause>),
    /// Clauses, and the timeout in milliseconds with its body.
    Receive { clauses: Vec<CoreClause>, timeout: Option<(Box<CoreExpr>, Box<CoreExpr>)> },
    Fun(Vec<String>, Box<CoreExpr>),
    Primop(String, Vec<CoreExpr>),
    Sequence(Box<CoreExpr>, Box<CoreExpr>),
    Try {
        body: Box<CoreExpr>,
        vars: Vec<String>,
        handler: Box<CoreExpr>,
        evars: Vec<String>,
        catch: Box<CoreExpr>,
    },
}

#[derive(Debug)]
pub enum CoreLit {
    Int(i64),
    Float(FloatLiteral),
    Atom(String),
    String(String),
    Nil,
}

#[derive(Debug)]
pub struct CoreClause {
    pub patterns: Vec<CorePattern>,
    pub guard: CoreExpr,
    pub body: CoreExpr,
}

#[derive(Debug)]
pub enum CorePattern {
    Lit(CoreLit),
    Var(String),
    Tuple(Vec<CorePattern>),
    Cons(Box<CorePattern>, Box<CorePattern>),
    Nil,
    Binary(Vec<CoreBinaryPatternSegment>),
    Alias(String, Box<CorePattern>),
}

/// The model of a literal.
pub enum Literal {
    Int(int),
    Float(u64, Seq<char>),
    Atom(Seq<char>),
    Text(Seq<char>),
    Nil,
}

/// The model of a pattern.
pub enum Pat {
    Lit(Literal),
    Var(Seq<char>),
    Tuple(Seq<Pat>),
    Cons(Box<Pat>, Box<Pat>),
    Nil,
    Binary(Seq<PatSegment>),
    Alias(Seq<char>, Box<Pat>),
}

pub struct PatSegment {
    pub pattern: Pat,
    pub size: CoreBinarySize,
    pub kind: CoreBinaryKind,
}

/// The model of a clause of `case` or `receive`.
pub struct Clause {
    pub patterns: Seq<Pat>,
    pub guard: Core,
    pub body: Core,
}

pub struct Segment {
    pub value: Core,
    pub size: CoreBinarySize,
    pub kind: CoreBinaryKind,
}

/// The model of an expression.
pub enum Core {
    Lit(Literal),
    Var(Seq<char>),
    Tuple(Seq<Core>),
    List(Seq<Core>, Box<Core>),
    Cons(Box<Core>, Box<Core>),
    MapLit(Seq<(Core, Core)>),
    Binary(Seq<Segment>),
    LocalFunRef(Seq<char>, nat),
    RemoteFunRef(Seq<char>, Seq<char>, nat),
    Apply(Box<Core>, Seq<Core>),
    Call(Seq<char>, Seq<char>, Seq<Core>),
    Let(Seq<(Seq<char>, Core)>, Box<Core>),
    Case(Box<Core>, Seq<Clause>),
    Receive(Seq<Clause>, Option<(Box<Core>, Box<Core>)>),
    Fun(Seq<Seq<char>>, Box<Core>),
    Primop(Seq<char>, Seq<Core>),
    Sequence(Box<Core>, Box<Core>),
    Try(Box<Core>, Seq<Seq<char>>, Box<Core>, Seq<Seq<char>>, Box<Core>),
}

/// The model of a function definition.
pub struct FunDef {
    pub name: Seq<char>,
    pub arity: nat,
    pub params: Seq<Seq<char>>,
    pub body: Core,
}

/// The model of a module.
pub struct CoreMod {
    pub name: Seq<char>,
    pub exports: Seq<(Seq<char>, nat)>,
    pub functions: Seq<FunDef>,
}

pub open spec fn lit_of(l: CoreLit) -> Literal {
    match l {
        CoreLit::Int(n) => Literal::Int(n as int),
        CoreLit::Float(f) => Literal::Float(f.bits, f.text@),
        CoreLit::Atom(a) => Literal::Atom(a@),
        CoreLit::String(s) => Literal::Text(s@),
        CoreLit::Nil => Literal::Nil,
    }
}

pub open spec fn pat_of(p: CorePattern) -> Pat
    decreases p,
{
    match p {
        CorePattern::Lit(l) => Pat::Lit(lit_of(l)),
        CorePattern::Var(name) => Pat::Var(name@),
        CorePattern::Tuple(items) => Pat::Tuple(pats_of(items@)),
        CorePattern::Cons(h, t) => Pat::Cons(Box::new(pat_of(*h)), Box::new(pat_of(*t))),
        CorePattern::Nil => Pat::Nil,
        CorePattern::Binary(segments) => Pat::Binary(pat_segments_of(segments@)),
        CorePattern::Alias(name, inner) => Pat::Alias(name@, Box::new(pat_of(*inner))),
    }
}

pub open spec fn pats_of(s: Seq<CorePattern>) -> Seq<Pat>
    decreases s,
{
    if s.len() == 0 {
        Seq::empty()
    } else {
        pats_of(s.drop_last()).push(pat_of(s.last()))
    }
}

pub open spec fn pat_segments_of(s: Seq<CoreBinaryPatternSegment>) -> Seq<PatSegment>
    decreases s,
{
    if s.len() == 0 {
        Seq::empty()
    } else {
        pat_segments_of(s.drop_last()).push(
            PatSegment {
                pattern: pat_of(s.last().pattern),
                size: s.last().size,
                kind: s.last().kind,
            },
        )
    }
}

pub open spec fn core_of(e: CoreExpr) -> Core
    decreases e,
{
    match e {
        CoreExpr::Lit(l) => Core::Lit(lit_of(l)),
        CoreExpr::Var(name) => Core::Var(name@),
        CoreExpr::Tuple(items) => Core::Tuple(cores_of(items@)),
        CoreExpr::List(items, tail) => Core::List(cores_of(items@), Box::new(core_of(*tail))),
        CoreExpr::Cons(h, t) => Core::Cons(Box::new(core_of(*h)), Box::new(core_of(*t))),
        CoreExpr::MapLit(entries) => Core::MapLit(entries_of(entries@)),
        CoreExpr::Binary(segments) => Core::Binary(segments_of(segments@)),
        CoreExpr::LocalFunRef(name, arity) => Core::LocalFunRef(name@, arity as nat),
        CoreExpr::RemoteFunRef(module, name, arity) => Core::RemoteFunRef(
            module@,
            name@,
            arity as nat,
        ),
        CoreExpr::Apply(f, args) => Core::Apply(Box::new(core_of(*f)), cores_of(args@)),
        CoreExpr::Call(module, f, args) => Core::Call(module@, f@, cores_of(args@)),
        CoreExpr::Let(bindings, body) => Core::Let(bindings_of(bindings@), Box::new(core_of(*body))),
        CoreExpr::Case(scrutinee, clauses) => Core::Case(
            Box::new(core_of(*scrutinee)),
            clauses_of(clauses@),
        ),
        CoreExpr::Receive { clauses, timeout } => Core::Receive(
            clauses_of(clauses@),
            match timeout {
                Some((ms, body)) => Some((Box::new(core_of(*ms)), Box::new(core_of(*body)))),
                None => None,
            },
        ),
        CoreExpr::Fun(params, body) => Core::Fun(texts(params@), Box::new(core_of(*body))),
        CoreExpr::Primop(op, args) => Core::Primop(op@, cores_of(args@)),
        CoreExpr::Sequence(a, b) => Core::Sequence(Box::new(core_of(*a)), Box::new(core_of(*b))),
        CoreExpr::Try { body, vars, handler, evars, catch } => Core::Try(
            Box::new(core_of(*body)),
            texts(vars@),
            Box::new(core_of(*handler)),
            texts(evars@),
            Box::new(core_of(*catch)),
        ),
    }
}

pub open spec fn cores_of(s: Seq<CoreExpr>) -> Seq<Core>
    decreases s,
{
    if s.len() == 0 {
        Seq::empty()
    } else {
        cores_of(s.drop_last()).push(core_of(s.last()))
    }
}

pub open spec fn entries_of(s: Seq<(CoreExpr, CoreExpr)>) -> Seq<(Core, Core)>
    decreases s,
{
    if s.len() == 0 {
        Seq::empty()
    } else {
        entries_of(s.drop_last()).push((core_of(s.last().0), core_of(s.last().1)))
    }
}

pub open spec fn segments_of(s: Seq<CoreBinarySegment>) -> Seq<Segment>
    decreases s,
{
    if s.len() == 0 {
        Seq::empty()
    } else {
        segments_of(s.drop_last()).push(
            Segment { value: core_of(s.last().value), size: s.last().size, kind: s.last().kind },
        )
    }
}

pub open spec fn bindings_of(s: Seq<(String, CoreExpr)>) -> Seq<(Seq<char>, Core)>
    decreases s,
{
    if s.len() == 0 {
        Seq::empty()
    } else {
        bindings_of(s.drop_last()).push((s.last().0@, core_of(s.last().1)))
    }
}

pub open spec fn clause_of(c: CoreClause) -> Clause
    decreases c,
{
    Clause { patterns: pats_of(c.patterns@), guard: core_of(c.guard), body: core_of(c.body) }
}

pub open spec fn clauses_of(s: Seq<CoreClause>) -> Seq<Clause>
    decreases s,
{
    if s.len() == 0 {
        Seq::empty()
    } else {
        clauses_of(s.drop_last()).push(clause_of(s.last()))
    }
}

pub open spec fn fundef_of(f: CoreFunDef) -> FunDef {
    FunDef {
        name: f.name@,
        arity: f.arity as nat,
        params: texts(f.params@),
        body: core_of(f.body),
    }
}

pub open spec fn module_of(m: CoreModule) -> CoreMod {
    CoreMod {
        name: m.name@,
        exports: Seq::new(
            m.exports@.len(),
            |i: int| (m.exports@[i].0@, m.exports@[i].1 as nat),
        ),
        functions: Seq::new(m.functions@.len(), |i: int| fundef_of(m.functions@[i])),
    }
}


/// Copies a literal.
pub fn dup_lit(l: &CoreLit) -> (r: CoreLit)
    ensures
        lit_of(r) == lit_of(*l),
{
    match l {
        CoreLit::Int(n) => CoreLit::Int(*n),
        CoreLit::Float(f) => CoreLit::Float(FloatLiteral { bits: f.bits, text: f.text.clone() }),
        CoreLit::Atom(a) => CoreLit::Atom(a.clone()),
        CoreLit::String(s) => CoreLit::String(s.clone()),
        CoreLit::Nil => CoreLit::Nil,
    }
}

/// Copies a pattern.
pub fn dup_pattern(p: &CorePattern) -> (r: CorePattern)
    ensures
        pat_of(r) == pat_of(*p),
    decreases p,
{
    match p {
        CorePattern::Lit(l) => CorePattern::Lit(dup_lit(l)),
        CorePattern::Var(name) => CorePattern::Var(name.clone()),
        CorePattern::Tuple(items) => CorePattern::Tuple(dup_patterns(items)),
        CorePattern::Cons(h, t) => CorePattern::Cons(
            Box::new(dup_pattern(h)),
            Box::new(dup_pattern(t)),
        ),
        CorePattern::Nil => CorePattern::Nil,
        CorePattern::Binary(segments) => CorePattern::Binary(dup_pattern_segments(segments)),
        CorePattern::Alias(name, inner) => CorePattern::Alias(
            name.clone(),
            Box::new(dup_pattern(inner)),
        ),
    }
}

fn dup_patterns(v: &Vec<CorePattern>) -> (r: Vec<CorePattern>)
    ensures
        pats_of(r@) == pats_of(v@),
    decreases v,
{
    let mut out: Vec<CorePattern> = Vec::new();
    let mut i: usize = 0;
    while i < v.len()
        invariant
            i <= v@.len(),
            pats_of(out@) == pats_of(v@.take(i as int)),
        decreases v@.len() - i,
    {
        let ghost before = out@;
        let item = dup_pattern(&v[i]);
        out.push(item);
        assert(out@.drop_last() =~= before);
        assert(v@.take(i as int + 1).drop_last() =~= v@.take(i as int));
        i = i + 1;
    }
    assert(v@.take(i as int) =~= v@);
    out
}

fn dup_pattern_segments(v: &Vec<CoreBinaryPatternSegment>) -> (r: Vec<CoreBinaryPatternSegment>)
    ensures
        pat_segments_of(r@) == pat_segments_of(v@),
    decreases v,
{
    let mut out: Vec<CoreBinaryPatternSegment> = Vec::new();
    let mut i: usize = 0;
    while i < v.len()
        invariant
            i <= v@.len(),
            pat_segments_of(out@) == pat_segments_of(v@.take(i as int)),
        decreases v@.len() - i,
    {
        let ghost before = out@;
        let item = CoreBinaryPatternSegment {
            pattern: dup_pattern(&v[i].pattern),
            size: v[i].size,
            kind: v[i].kind,
        };
        out.push(item);
        assert(out@.drop_last() =~= before);
        assert(v@.take(i as int + 1).drop_last() =~= v@.take(i as int));
        i = i + 1;
    }
    assert(v@.take(i as int) =~= v@);
    out
}

/// Copies an expression.
pub fn dup(e: &CoreExpr) -> (r: CoreExpr)
    ensures
        core_of(r) == core_of(*e),
    decreases e,
{
    match e {
        CoreExpr::Lit(l) => CoreExpr::Lit(dup_lit(l)),
        CoreExpr::Var(name) => CoreExpr::Var(name.clone()),
        CoreExpr::Tuple(items) => CoreExpr::Tuple(dup_exprs(items)),
        CoreExpr::List(items, tail) => CoreExpr::List(dup_exprs(items), Box::new(dup(tail))),
        CoreExpr::Cons(h, t) => CoreExpr::Cons(Box::new(dup(h)), Box::new(dup(t))),
        CoreExpr::MapLit(entries) => CoreExpr::MapLit(dup_entries(entries)),
        CoreExpr::Binary(segments) => CoreExpr::Binary(dup_segments(segments)),
        CoreExpr::LocalFunRef(name, arity) => CoreExpr::LocalFunRef(name.clone(), *arity),
        CoreExpr::RemoteFunRef(module, name, arity) => CoreExpr::RemoteFunRef(
            module.clone(),
            name.clone(),
            *arity,
        ),
        CoreExpr::Apply(f, args) => CoreExpr::Apply(Box::new(dup(f)), dup_exprs(args)),
        CoreExpr::Call(module, f, args) => CoreExpr::Call(
            module.clone(),
            f.clone(),
            dup_exprs(args),
        ),
        CoreExpr::Let(bindings, body) => CoreExpr::Let(dup_bindings(bindings), Box::new(dup(body))),
        CoreExpr::Case(scrutinee, clauses) => CoreExpr::Case(
            Box::new(dup(scrutinee)),
            dup_clauses(clauses),
        ),
        CoreExpr::Receive { clauses, timeout } => CoreExpr::Receive {
            clauses: dup_clauses(clauses),
            timeout: match timeout {
                Some((ms, body)) => Some((Box::new(dup(ms)), Box::new(dup(body)))),
                None => None,
            },
        },
        CoreExpr::Fun(params, body) => CoreExpr::Fun(dup_strings(params), Box::new(dup(body))),
        CoreExpr::Primop(op, args) => CoreExpr::Primop(op.clone(), dup_exprs(args)),
        CoreExpr::Sequence(a, b) => CoreExpr::Sequence(Box::new(dup(a)), Box::new(dup(b))),
        CoreExpr::Try { body, vars, handler, evars, catch } => CoreExpr::Try {
            body: Box::new(dup(body)),
            vars: dup_strings(vars),
            handler: Box::new(dup(handler)),
            evars: dup_strings(evars),
            catch: Box::new(dup(catch)),
        },
    }
}

/// Copies a list of expressions.
pub fn dup_exprs(v: &Vec<CoreExpr>) -> (r: Vec<CoreExpr>)
    ensures
        cores_of(r@) == cores_of(v@),
    decreases v,
{
    let mut out: Vec<CoreExpr> = Vec::new();
    let mut i: usize = 0;
    while i < v.len()
        invariant
            i <= v@.len(),
            cores_of(out@) == cores_of(v@.take(i as int)),
        decreases v@.len() - i,
    {
        let ghost before = out@;
        let item = dup(&v[i]);
        out.push(item);
        assert(out@.drop_last() =~= before);
        assert(v@.take(i as int + 1).drop_last() =~= v@.take(i as int));
        i = i + 1;
    }
    assert(v@.take(i as int) =~= v@);
    out
}

fn dup_entries(v: &Vec<(CoreExpr, CoreExpr)>) -> (r: Vec<(CoreExpr, CoreExpr)>)
    ensures
        entries_of(r@) == entries_of(v@),
    decreases v,
{
    let mut out: Vec<(CoreExpr, CoreExpr)> = Vec::new();
    let mut i: usize = 0;
    while i < v.len()
        invariant
            i <= v@.len(),
            entries_of(out@) == entries_of(v@.take(i as int)),
        decreases v@.len() - i,
    {
        let ghost before = out@;
        let item = (dup(&v[i].0), dup(&v[i].1));
        out.push(item);
        assert(out@.drop_last() =~= before);
        assert(v@.take(i as int + 1).drop_last() =~= v@.take(i as int));
        i = i + 1;
    }
    assert(v@.take(i as int) =~= v@);
    out
}

fn dup_segments(v: &Vec<CoreBinarySegment>) -> (r: Vec<CoreBinarySegment>)
    ensures
        segments_of(r@) == segments_of(v@),
    decreases v,
{
    let mut out: Vec<CoreBinarySegment> = Vec::new();
    let mut i: usize = 0;
    while i < v.len()
        invariant
            i <= v@.len(),
            segments_of(out@) == segments_of(v@.take(i as int)),
        decreases v@.len() - i,
    {
        let ghost before = out@;
        let item = CoreBinarySegment { value: dup(&v[i].value), size: v[i].size, kind: v[i].kind };
        out.push(item);
        assert(out@.drop_last() =~= before);
        assert(v@.take(i as int + 1).drop_last() =~= v@.take(i as int));
        i = i + 1;
    }
    assert(v@.take(i as int) =~= v@);
    out
}

fn dup_bindings(v: &Vec<(String, CoreExpr)>) -> (r: Vec<(String, CoreExpr)>)
    ensures
        bindings_of(r@) == bindings_of(v@),
    decreases v,
{
    let mut out: Vec<(String, CoreExpr)> = Vec::new();
    let mut i: usize = 0;
    while i < v.len()
        invariant
            i <= v@.len(),
            bindings_of(out@) == bindings_of(v@.take(i as int)),
        decreases v@.len() - i,
    {
        let ghost before = out@;
        let item = (v[i].0.clone(), dup(&v[i].1));
        out.push(item);
        assert(out@.drop_last() =~= before);
        assert(v@.take(i as int + 1).drop_last() =~= v@.take(i as int));
        i = i + 1;
    }
    assert(v@.take(i as int) =~= v@);
    out
}

fn dup_clause(c: &CoreClause) -> (r: CoreClause)
    ensures
        clause_of(r) == clause_of(*c),
    decreases c,
{
    CoreClause {
        patterns: dup_patterns(&c.patterns),
        guard: dup(&c.guard),
        body: dup(&c.body),
    }
}

fn dup_clauses(v: &Vec<CoreClause>) -> (r: Vec<CoreClause>)
    ensures
        clauses_of(r@) == clauses_of(v@),
    decreases v,
{
    let mut out: Vec<CoreClause> = Vec::new();
    let mut i: usize = 0;
    while i < v.len()
        invariant
            i <= v@.len(),
            clauses_of(out@) == clauses_of(v@.take(i as int)),
        decreases v@.len() - i,
    {
        let ghost before = out@;
        let item = dup_clause(&v[i]);
        out.push(item);
        assert(out@.drop_last() =~= before);
        assert(v@.take(i as int + 1).drop_last() =~= v@.take(i as int));
        i = i + 1;
    }
    assert(v@.take(i as int) =~= v@);
    out
}

impl CoreLit {
    pub fn atom(s: &str) -> (r: Self)
        ensures
            lit_of(r) == Literal::Atom(s@),
    {
        CoreLit::Atom(s.to_owned())
    }

    pub fn integer(n: i64) -> (r: Self)
        ensures
            lit_of(r) == Literal::Int(n as int),
    {
        CoreLit::Int(n)
    }
}

impl CoreExpr {
    pub fn lit(l: CoreLit) -> (r: Self)
        ensures
            core_of(r) == Core::Lit(lit_of(l)),
    {
        CoreExpr::Lit(l)
    }

    pub fn var(s: &str) -> (r: Self)
        ensures
            core_of(r) == Core::Var(s@),
    {
        CoreExpr::Var(s.to_owned())
    }

    pub fn atom(s: &str) -> (r: Self)
        ensures
            core_of(r) == Core::Lit(Literal::Atom(s@)),
    {
        CoreExpr::Lit(CoreLit::Atom(s.to_owned()))
    }

    pub fn call(module: &str, func: &str, args: Vec<CoreExpr>) -> (r: Self)
        ensures
            core_of(r) == Core::Call(module@, func@, cores_of(args@)),
    {
        CoreExpr::Call(module.to_owned(), func.to_owned(), args)
    }
}

} // verus!
