use cranelift_codegen::settings::{builder, Configurable, Flags};
use cranelift_object::{ObjectBuilder, ObjectModule};
use lux::ast::FloatLiteral;
use lux::erlang::{
    CoreBinaryKind, CoreBinarySegment, CoreBinarySize, CoreClause, CoreExpr, CoreFunDef, CoreLit,
    CoreModule, CorePattern,
};
use lux::native::Step;
use lux::native_frame::is_roomy;
use lux::native_free::free_vars_expr;
use lux::native_gen::{NativeCompiler, Warning};
use lux::native_program::plan_modules;
use lux::runtime::NativeOutput;

fn module(name: &str, params: &[&str], body: CoreExpr) -> CoreModule {
    CoreModule {
        name: name.to_string(),
        exports: vec![("apply".to_string(), params.len())],
        functions: vec![CoreFunDef {
            name: "apply".to_string(),
            arity: params.len(),
            params: params.iter().map(|p| p.to_string()).collect(),
            body,
        }],
    }
}

fn add(a: CoreExpr, b: CoreExpr) -> CoreExpr {
    CoreExpr::Call("erlang".to_string(), "+".to_string(), vec![a, b])
}

#[test]
fn a_program_becomes_an_object_file() {
    let modules = vec![module("main", &[], add(CoreExpr::Lit(CoreLit::Int(1)), CoreExpr::Lit(CoreLit::Int(2))))];
    let out = NativeCompiler::compile(&modules, Some("main"), 0).unwrap();
    assert_eq!(out.entry_symbol, "lux_main_apply_0");
    assert!(out.object_bytes.len() > 100);
    assert!(out.runtime_c_source.contains("extern Value lux_main_apply_0(void);"));
    assert!(out.runtime_c_source.contains("static const char* atom_names[7] = {"));
}

fn num(n: i64) -> CoreExpr {
    CoreExpr::Lit(CoreLit::Int(n))
}

fn atom(s: &str) -> CoreExpr {
    CoreExpr::Lit(CoreLit::Atom(s.to_string()))
}

fn var(s: &str) -> CoreExpr {
    CoreExpr::Var(s.to_string())
}

fn erlang(f: &str, args: Vec<CoreExpr>) -> CoreExpr {
    CoreExpr::Call("erlang".to_string(), f.to_string(), args)
}

fn bind(name: &str, value: CoreExpr, body: CoreExpr) -> CoreExpr {
    CoreExpr::Let(vec![(name.to_string(), value)], Box::new(body))
}

fn case(of: CoreExpr, arms: Vec<(CorePattern, CoreExpr)>) -> CoreExpr {
    CoreExpr::Case(
        Box::new(of),
        arms.into_iter()
            .map(|(p, body)| CoreClause { patterns: vec![p], guard: atom("true"), body })
            .collect(),
    )
}

fn pvar(s: &str) -> CorePattern {
    CorePattern::Var(s.to_string())
}

fn compiled(modules: Vec<CoreModule>) -> NativeOutput {
    let plan = plan_modules(&modules).ok().unwrap();
    assert!(!plan.stuck);
    match NativeCompiler::compile(&modules, Some("main"), 0) {
        Ok(out) => out,
        Err(e) => panic!("{}", e.text()),
    }
}

fn compiles(body: CoreExpr) -> NativeOutput {
    compiled(vec![module("main", &[], body)])
}

fn names(out: &NativeOutput, symbol: &str) -> bool {
    out.object_bytes.windows(symbol.len()).any(|w| w == symbol.as_bytes())
}

#[test]
fn literals_compile_natively() {
    compiles(num(-7));
    let out = compiles(atom("a_rare_atom"));
    assert!(out.runtime_c_source.contains("\"a_rare_atom\""));
    compiles(CoreExpr::Lit(CoreLit::Nil));
    compiles(CoreExpr::Lit(CoreLit::String("text".to_string())));
    compiles(CoreExpr::Lit(CoreLit::Float(FloatLiteral {
        bits: 2.5f64.to_bits(),
        text: "2.5".to_string(),
    })));
}

#[test]
fn collections_compile_natively() {
    compiles(CoreExpr::Tuple(vec![num(1), atom("b"), num(3)]));
    compiles(CoreExpr::List(vec![num(1), num(2)], Box::new(CoreExpr::Lit(CoreLit::Nil))));
    compiles(CoreExpr::Cons(Box::new(num(1)), Box::new(CoreExpr::Lit(CoreLit::Nil))));
    compiles(CoreExpr::MapLit(vec![(atom("k"), num(1)), (atom("l"), num(2))]));
    compiles(CoreExpr::Binary(vec![CoreBinarySegment {
        value: num(65),
        size: CoreBinarySize::Bits(8),
        kind: CoreBinaryKind::Integer,
    }]));
}

#[test]
fn arithmetic_compiles_natively() {
    for op in ["+", "-", "*", "div", "rem", "=:=", "=/=", "<", "=<", ">", ">=", "and", "or"] {
        compiles(erlang(op, vec![num(6), num(3)]));
    }
    compiles(erlang("-", vec![num(6)]));
    compiles(erlang("not", vec![atom("true")]));
}

#[test]
fn builtins_compile_natively() {
    for (f, n) in [
        ("length", 1),
        ("hd", 1),
        ("tl", 1),
        ("abs", 1),
        ("is_integer", 1),
        ("is_list", 1),
        ("is_binary", 1),
        ("is_atom", 1),
        ("is_tuple", 1),
        ("element", 2),
        ("display", 1),
        ("self", 0),
        ("integer_to_list", 1),
        ("integer_to_binary", 1),
        ("byte_size", 1),
        ("++", 2),
        ("tuple_size", 1),
        ("map_size", 1),
    ] {
        let args = (0..n).map(|i| num(i as i64)).collect();
        compiles(erlang(f, args));
    }
    for (m, f, n) in [
        ("lists", "reverse", 1),
        ("lists", "map", 2),
        ("lists", "foldl", 3),
        ("maps", "get", 2),
        ("maps", "put", 3),
        ("maps", "keys", 1),
        ("io", "format", 2),
        ("io", "format", 1),
        ("unknown", "thing", 2),
    ] {
        let args = (0..n).map(|i| num(i as i64)).collect();
        compiles(CoreExpr::Call(m.to_string(), f.to_string(), args));
    }
}

#[test]
fn cases_compile_natively() {
    let patterns = || {
        vec![
            CorePattern::Lit(CoreLit::Int(1)),
            CorePattern::Lit(CoreLit::Atom("ok".to_string())),
            CorePattern::Lit(CoreLit::String("s".to_string())),
            CorePattern::Nil,
            CorePattern::Tuple(vec![CorePattern::Lit(CoreLit::Atom("t".to_string())), pvar("A")]),
            CorePattern::Cons(Box::new(pvar("H")), Box::new(pvar("T"))),
            CorePattern::Alias("W".to_string(), Box::new(CorePattern::Tuple(vec![pvar("B")]))),
            pvar("_"),
        ]
    };
    compiles(case(num(3), patterns().into_iter().map(|p| (p, num(9))).collect()));
    for p in patterns() {
        compiles(case(num(3), vec![(p, num(1))]));
    }
    compiles(case(
        CoreExpr::Tuple(vec![num(1), num(2)]),
        vec![(CorePattern::Tuple(vec![pvar("A"), pvar("B")]), add(var("A"), var("B")))],
    ));
    let guarded = CoreExpr::Case(
        Box::new(num(4)),
        vec![
            CoreClause {
                patterns: vec![pvar("X")],
                guard: erlang(">", vec![var("X"), num(0)]),
                body: var("X"),
            },
            CoreClause { patterns: vec![pvar("Y")], guard: atom("true"), body: num(0) },
        ],
    );
    compiles(guarded);
    compiles(CoreExpr::Case(Box::new(num(4)), vec![]));
}

#[test]
fn closures_compile_natively() {
    let adder = CoreExpr::Fun(vec!["X".to_string()], Box::new(add(var("X"), var("N"))));
    let out = compiles(bind(
        "N",
        num(5),
        bind("F", adder, CoreExpr::Apply(Box::new(var("F")), vec![num(1)])),
    ));
    assert!(names(&out, "lux_main_apply_0"));
    let nested = CoreExpr::Fun(
        vec!["X".to_string()],
        Box::new(CoreExpr::Fun(vec!["Y".to_string()], Box::new(add(var("X"), var("Y"))))),
    );
    compiles(bind("F", nested, var("F")));
}

#[test]
fn control_compiles_natively() {
    compiles(CoreExpr::Sequence(Box::new(num(1)), Box::new(num(2))));
    compiles(bind("A", num(1), bind("A", num(2), var("A"))));
    compiles(CoreExpr::Try {
        body: Box::new(erlang("throw", vec![num(1)])),
        vars: vec!["V".to_string()],
        handler: Box::new(var("V")),
        evars: vec!["C".to_string(), "R".to_string(), "S".to_string()],
        catch: Box::new(CoreExpr::Tuple(vec![var("C"), var("R")])),
    });
    compiles(CoreExpr::Primop("match_fail".to_string(), vec![num(1)]));
    compiles(CoreExpr::Receive { clauses: vec![], timeout: None });
}

#[test]
fn functions_call_one_another_natively() {
    let modules = vec![
        module("main", &[], CoreExpr::Call("other".to_string(), "apply".to_string(), vec![num(1)])),
        module("other", &["A"], add(var("A"), num(1))),
    ];
    let out = compiled(modules);
    assert!(names(&out, "lux_main_apply_0"));
    assert!(names(&out, "lux_other_apply_1"));
    let recursive = module(
        "main",
        &[],
        CoreExpr::Apply(Box::new(CoreExpr::LocalFunRef("apply".to_string(), 0)), vec![]),
    );
    compiled(vec![recursive]);
}

#[test]
fn the_first_function_is_the_entry_by_default() {
    let modules = vec![module("m", &["A"], var("A"))];
    let out = NativeCompiler::compile(&modules, None, 1).ok().unwrap();
    assert_eq!(out.entry_symbol, "lux_m_apply_1");
}

#[test]
fn a_symbol_cannot_have_two_signatures() {
    let f = |arity: usize, params: &[&str]| CoreFunDef {
        name: "apply".to_string(),
        arity,
        params: params.iter().map(|p| p.to_string()).collect(),
        body: num(1),
    };
    let modules = vec![CoreModule {
        name: "m".to_string(),
        exports: vec![],
        functions: vec![f(0, &[]), f(0, &[])],
    }];
    assert!(NativeCompiler::compile(&modules, None, 0).is_err());
}

#[test]
fn the_bodies_differ_with_the_program() {
    let one = compiles(num(1)).object_bytes;
    let two = compiles(num(2)).object_bytes;
    assert_ne!(one, two);
    assert_eq!(one, compiles(num(1)).object_bytes);
}

fn nested_closures() -> Vec<CoreModule> {
    let inner = CoreExpr::Fun(vec!["y".to_string()], Box::new(add(var("x"), var("y"))));
    let outer = CoreExpr::Fun(vec!["x".to_string()], Box::new(inner));
    vec![module("main", &[], outer), module("other", &["a"], var("a"))]
}

#[test]
fn no_two_functions_of_a_plan_share_a_symbol() {
    let plan = plan_modules(&nested_closures()).ok().unwrap();
    let mut symbols: Vec<&str> = plan.funcs.iter().map(|f| f.symbol.as_str()).collect();
    let count = symbols.len();
    symbols.sort();
    symbols.dedup();
    assert_eq!(symbols.len(), count);
}

#[test]
fn every_exported_function_of_a_plan_has_a_body() {
    let plan = plan_modules(&nested_closures()).ok().unwrap();
    assert_eq!(plan.definitions, 2);
    assert_eq!(plan.bodies.len(), 4);
    for (k, f) in plan.funcs.iter().enumerate() {
        assert_eq!(f.export, plan.bodies.iter().any(|b| b.func == k), "{}", f.symbol);
    }
}

#[test]
fn a_program_has_one_plan() {
    let one = plan_modules(&nested_closures()).ok().unwrap();
    let two = plan_modules(&nested_closures()).ok().unwrap();
    assert_eq!(format!("{one:?}"), format!("{two:?}"));
}

#[test]
fn blocks_are_filled_and_sealed_in_every_body() {
    let body = case(var("a"), vec![(CorePattern::Lit(CoreLit::Int(1)), num(2)), (pvar("b"), var("b"))]);
    let plan = plan_modules(&vec![module("main", &["a"], body)]).ok().unwrap();
    let steps = &plan.bodies[0].steps;
    let sealed = steps.iter().filter(|s| matches!(s, Step::Seal(_))).count();
    let started = steps.iter().filter(|s| matches!(s, Step::SwitchTo(_))).count();
    assert_eq!(sealed, started);
    assert!(matches!(steps.last(), Some(Step::Return(_))));
}

#[test]
fn slots_have_room_on_the_stack() {
    assert!(is_roomy(&vec![]));
    assert!(is_roomy(&vec![Step::Slot(64, 8), Step::StackStore(0, 0, 8)]));
    assert!(is_roomy(&vec![Step::Slot(0x3fff_fff8, 0)]));
    assert!(!is_roomy(&vec![Step::Slot(0x3fff_fff9, 0)]));
    assert!(!is_roomy(&vec![Step::Slot(0x2000_0000, 0), Step::Slot(0x2000_0000, 0)]));
    assert!(!is_roomy(&vec![Step::Slot(8, 32)]));
    assert!(!is_roomy(&vec![Step::Slot(8, 0), Step::StackStore(0, 0, -1)]));
}

#[test]
fn binding_more_names_leaves_fewer_free() {
    let free = |e: &CoreExpr, bound: &[&str]| {
        let bound = bound.iter().map(|b| b.to_string()).collect();
        let mut found = vec![];
        free_vars_expr(e, &bound, &mut found);
        found
    };
    let e = add(var("X"), add(var("_Y"), bind("Z", var("W"), add(var("Z"), var("X")))));
    assert_eq!(free(&e, &[]), vec!["X".to_string(), "W".to_string()]);
    assert_eq!(free(&e, &["X"]), vec!["W".to_string()]);
    assert_eq!(free(&e, &["W", "X", "Q"]), Vec::<String>::new());
}

#[test]
fn a_filtered_list_compiles_natively() {
    let keep = CoreExpr::Fun(vec!["x".to_string()], Box::new(CoreExpr::Tuple(vec![atom("true"), var("x")])));
    let list = CoreExpr::Cons(Box::new(num(1)), Box::new(CoreExpr::Lit(CoreLit::Nil)));
    let out = compiles(CoreExpr::Call("lists".to_string(), "filtermap".to_string(), vec![keep, list]));
    assert!(names(&out, "lux_lists_filtermap_2"));
    assert!(out.runtime_c_source.contains("lux_lists_filtermap_2("));
}

fn empty_object(name: &str, level: &str) -> ObjectModule {
    let mut settings = builder();
    settings.set("opt_level", level).unwrap();
    let target = cranelift_native::builder().unwrap().finish(Flags::new(settings)).unwrap();
    let calls = cranelift_module::default_libcall_names();
    ObjectModule::new(ObjectBuilder::new(target, name.to_string(), calls).unwrap())
}

#[test]
fn a_program_is_compiled_for_speed() {
    let modules = nested_closures();
    let out = compiled(nested_closures());
    let same = NativeCompiler::compile_into(empty_object("lux_native", "speed"), &modules, Some("main"), 0);
    assert_eq!(same.ok().unwrap().object_bytes, out.object_bytes);
    let other = NativeCompiler::compile_into(empty_object("other", "speed"), &modules, Some("main"), 0);
    assert_ne!(other.ok().unwrap().object_bytes, out.object_bytes);
}

#[test]
fn unsupported_functions_are_warned_of() {
    let body = add(
        erlang("halt", vec![erlang("nodes", vec![])]),
        erlang("-", vec![num(1), num(2), num(3)]),
    );
    let modules = vec![module("main", &[], body)];
    assert_eq!(
        NativeCompiler::warnings(&modules),
        vec![
            "warning: unsupported erlang BIF: erlang:nodes/0".to_string(),
            "warning: unsupported erlang BIF: erlang:halt/1".to_string(),
            "warning: unsupported erlang BIF: erlang:-/3".to_string(),
        ]
    );
    let quiet = vec![module("main", &[], erlang("send", vec![erlang("self", vec![]), num(1)]))];
    assert!(NativeCompiler::warnings(&quiet).is_empty());
    assert_eq!(
        Warning::Undeclared("lux_m_f_1".to_string(), 1).text("in use"),
        "warning: failed to declare function lux_m_f_1: in use"
    );
}
