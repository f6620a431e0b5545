use lux::ast::FloatLiteral;
use lux::emit::{escape_string, Emitter};
use lux::erlang::{
    CoreBinaryKind, CoreBinarySegment, CoreBinarySize, CoreClause, CoreExpr, CoreFunDef, CoreLit,
    CoreModule, CorePattern,
};

fn num(n: i64) -> CoreExpr {
    CoreExpr::lit(CoreLit::integer(n))
}

fn text(body: CoreExpr) -> String {
    let m = CoreModule {
        name: "m".to_string(),
        exports: vec![("f".to_string(), 0), ("g".to_string(), 1)],
        functions: vec![CoreFunDef { name: "f".to_string(), arity: 0, params: vec![], body }],
    };
    let out = Emitter::new().emit_module(&m);
    let head = "module 'm'\n    ['f'/0, 'g'/1]\nattributes []\n\n'f'/0 = fun () -> ";
    assert!(out.starts_with(head));
    assert!(out.ends_with("\n\nend\n"));
    out[head.len()..out.len() - "\n\nend\n".len()].to_string()
}

#[test]
fn literals_are_written_out() {
    assert_eq!(text(num(-5)), "-5");
    assert_eq!(text(CoreExpr::atom("it")), "'it'");
    assert_eq!(text(CoreExpr::Lit(CoreLit::Nil)), "[]");
    assert_eq!(text(CoreExpr::Lit(CoreLit::String("a\"b".to_string()))), "\"a\\\"b\"");
    let f = FloatLiteral { bits: 1.5f64.to_bits(), text: "1.5".to_string() };
    assert_eq!(text(CoreExpr::Lit(CoreLit::Float(f))), "1.5");
}

#[test]
fn strings_are_escaped() {
    assert_eq!(escape_string("a\"b\\c\nd\te\rf"), "a\\\"b\\\\c\\nd\\te\\rf");
}

#[test]
fn collections_are_written_out() {
    assert_eq!(text(CoreExpr::Tuple(vec![num(1), num(2)])), "{1, 2}");
    assert_eq!(
        text(CoreExpr::List(vec![num(1), num(2)], Box::new(CoreExpr::var("T")))),
        "[1, 2|T]"
    );
    assert_eq!(text(CoreExpr::Cons(Box::new(num(1)), Box::new(CoreExpr::var("T")))), "[1|T]");
    assert_eq!(
        text(CoreExpr::MapLit(vec![(num(1), num(2)), (num(3), num(4))])),
        "~{1=>2,3=>4}~"
    );
}

#[test]
fn binary_segments_carry_their_kind() {
    let seg = |kind, size| {
        text(CoreExpr::Binary(vec![CoreBinarySegment { value: num(1), size, kind }]))
    };
    assert_eq!(
        seg(CoreBinaryKind::Integer, CoreBinarySize::Bits(8)),
        "#{#<1>(8,1,'integer',['unsigned'|['little']])}#"
    );
    assert_eq!(
        seg(CoreBinaryKind::BigInteger, CoreBinarySize::Bits(16)),
        "#{#<1>(16,1,'integer',['unsigned'|['big']])}#"
    );
    assert_eq!(
        seg(CoreBinaryKind::Binary, CoreBinarySize::All),
        "#{#<1>('all',8,'binary',['unsigned'|['little']])}#"
    );
    assert_eq!(
        seg(CoreBinaryKind::Utf8, CoreBinarySize::All),
        "#{#<1>('undefined','undefined','utf8',['unsigned'|['big']])}#"
    );
}

#[test]
fn clauses_are_indented() {
    let clause = |body| CoreClause {
        patterns: vec![CorePattern::Alias(
            "X".to_string(),
            Box::new(CorePattern::Cons(Box::new(CorePattern::Nil), Box::new(CorePattern::Var("T".to_string())))),
        )],
        guard: CoreExpr::atom("true"),
        body,
    };
    let inner = CoreExpr::Case(Box::new(num(2)), vec![clause(num(3))]);
    assert_eq!(
        text(CoreExpr::Case(Box::new(num(1)), vec![clause(inner)])),
        "case 1 of\n    <X = [[]|T]> when 'true' -> case 2 of\n        <X = [[]|T]> when 'true' -> 3\n    end\nend"
    );
}

#[test]
fn a_receive_becomes_a_loop() {
    let out = text(CoreExpr::Receive { clauses: vec![], timeout: None });
    assert!(out.starts_with("( letrec\n    'recv$^0'/0 =\n        fun () ->\n"));
    assert!(out.contains("primop 'recv_peek_message' ()"));
}

#[test]
fn control_is_written_out() {
    assert_eq!(
        text(CoreExpr::Let(vec![("A".to_string(), num(1)), ("B".to_string(), num(2))], Box::new(CoreExpr::var("A")))),
        "let <A, B> = <1, 2> in A"
    );
    assert_eq!(
        text(CoreExpr::Apply(Box::new(CoreExpr::LocalFunRef("f".to_string(), 1)), vec![num(1)])),
        "apply 'f'/1 (1)"
    );
    assert_eq!(
        text(CoreExpr::RemoteFunRef("m".to_string(), "f".to_string(), 2)),
        "'m':'f'/2"
    );
    assert_eq!(text(CoreExpr::call("m", "f", vec![num(1), num(2)])), "call 'm':'f'(1, 2)");
    assert_eq!(text(CoreExpr::Sequence(Box::new(num(1)), Box::new(num(2)))), "do 1\n2");
    assert_eq!(text(CoreExpr::Primop("p".to_string(), vec![num(1)])), "primop 'p' (1)");
    assert_eq!(
        text(CoreExpr::Fun(vec!["X".to_string()], Box::new(CoreExpr::var("X")))),
        "fun (X) -> X"
    );
}
