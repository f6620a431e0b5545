//! The syntax tree of a Lux module, as the code generators read it.
use vstd::prelude::*;
use crate::text::texts;

verus! {

/// A floating-point literal: its IEEE-754 bits and the text that it prints as.
#[derive(Debug)]
pub struct FloatLiteral {
    pub bits: u64,
    pub text: String,
}

#[derive(Debug)]
pub struct Module {
    pub name: Option<String>,
    pub items: Vec<Item>,
}

/// A top-level item. Only functions carry code; of the other items it is enough
/// to know how they are listed.
#[derive(Debug)]
pub enum Item {
    Function(Function),
    Enum { name: String, variants: usize },
    Struct { name: String, fields: usize },
    TypeAlias(String),
    Extern { abi: String, decls: usize },
    Use { module: String, items: Option<Vec<String>> },
}

#[derive(Debug)]
pub struct Function {
    pub name: String,
    pub type_params: Vec<String>,
    pub params: Vec<Param>,
    pub return_type: Option<TypeExpr>,
    pub body: Expr,
}

#[derive(Debug)]
pub struct Param {
    pub name: String,
    pub ty: Option<TypeExpr>,
}

#[derive(Debug)]
pub enum TypeExpr {
    Named(String, Vec<TypeExpr>),
    Tuple(Vec<TypeExpr>),
    Function(Vec<TypeExpr>, Box<TypeExpr>),
    Record(Vec<(String, TypeExpr)>),
    Unit,
}

#[derive(Debug)]
pub enum Expr {
    Int(i64),
    Float(FloatLiteral),
    Char(char),
    String(String),
    InterpolatedString(Vec<InterpolatedPart>),
    Bool(bool),
    Atom(String),
    Unit,
    Var(String),
    Tuple(Vec<Expr>),
    List(Vec<Expr>, Option<Box<Expr>>),
    ListComp { expr: Box<Expr>, generators: Vec<Generator>, filters: Vec<Expr> },
    Range(Box<Expr>, Box<Expr>, bool),
    MapLit(Vec<(Expr, Expr)>),
    Record(Vec<(String, Expr)>),
    StructInit(String, Vec<(String, Expr)>),
    BitString(Vec<BitStringSegment>),
    Binary(Box<Expr>, BinOp, Box<Expr>),
    Unary(UnaryOp, Box<Expr>),
    If(Box<Expr>, Box<Expr>, Option<Box<Expr>>),
    Cond(Vec<(Expr, Expr)>),
    Match(Box<Expr>, Vec<MatchArm>),
    Block(Vec<Stmt>, Option<Box<Expr>>),
    Call(Box<Expr>, Vec<Expr>),
    MethodCall(Box<Expr>, String, Vec<Expr>),
    Lambda(Vec<Param>, Box<Expr>),
    Field(Box<Expr>, String),
    Index(Box<Expr>, Box<Expr>),
    Path(Path),
    Spawn(Box<Expr>),
    Send(Box<Expr>, Box<Expr>),
    Receive { arms: Vec<MatchArm>, timeout: Option<(Box<Expr>, Box<Expr>)> },
    SelfPid,
    Return(Option<Box<Expr>>),
    Try { body: Box<Expr>, catch_arms: Vec<CatchArm> },
}

/// A path such as `Shape::Circle`: what stands before its last part, and that part.
#[derive(Debug)]
pub struct Path {
    pub qualifiers: Vec<String>,
    pub name: String,
}

/// The parts of a path in order.
pub open spec fn path_parts(p: Path) -> Seq<Seq<char>> {
    texts(p.qualifiers@).push(p.name@)
}

#[derive(Debug)]
pub enum InterpolatedPart {
    Literal(String),
    Expr(Expr),
}

#[derive(Debug)]
pub struct Generator {
    pub pattern: Pattern,
    pub source: Expr,
}

#[derive(Debug)]
pub struct BitStringSegment {
    pub value: Expr,
    pub size: Option<u32>,
    pub specifier: BinarySegmentSpecifier,
}

#[derive(Debug)]
pub struct BitStringPatternSegment {
    pub value: Pattern,
    pub size: Option<u32>,
    pub specifier: BinarySegmentSpecifier,
}

#[derive(Debug, Clone, Copy, PartialEq, Eq, Structural)]
pub enum BinarySegmentSpecifier {
    Integer,
    BigInteger,
    Binary,
    Utf8,
}

#[derive(Debug, Clone, Copy, PartialEq, Eq, Structural)]
pub enum BinOp {
    Add,
    Sub,
    Mul,
    Div,
    Mod,
    Eq,
    NotEq,
    Lt,
    LtEq,
    Gt,
    GtEq,
    And,
    Or,
    Concat,
    Pipe,
}

#[derive(Debug, Clone, Copy, PartialEq, Eq, Structural)]
pub enum UnaryOp {
    Neg,
    Not,
}

#[derive(Debug)]
pub struct MatchArm {
    pub pattern: Pattern,
    pub guard: Option<Expr>,
    pub body: Expr,
}

#[derive(Debug)]
pub struct CatchArm {
    pub class: Option<String>,
    pub pattern: Pattern,
    pub body: Expr,
}

#[derive(Debug)]
pub enum Stmt {
    Let(Pattern, Expr),
    Expr(Expr),
}

#[derive(Debug)]
pub enum Pattern {
    Wildcard,
    Var(String),
    Int(i64),
    Float(FloatLiteral),
    Char(char),
    String(String),
    Bool(bool),
    Atom(String),
    Tuple(Vec<Pattern>),
    List(Vec<Pattern>, Option<Box<Pattern>>),
    Constructor(Path, Vec<Pattern>),
    Record(Vec<(String, Pattern)>),
    BitString(Vec<BitStringPatternSegment>),
    Or(Box<Pattern>, Box<Pattern>),
}

} // verus!
