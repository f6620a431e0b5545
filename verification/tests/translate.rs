use lux::ast::{
    BinOp, CatchArm, Expr, Function, Generator, Item, MatchArm, Module, Param, Pattern, Stmt,
    TypeExpr,
};
use lux::canon::canonicalize_core_function;
use lux::emit::Emitter;
use lux::erlang::{CoreExpr, CoreFunDef};
use lux::fingerprint::{expr_fingerprint, FingerprintState, LocalKeys};
use lux::graph::reach_from;
use lux::hashing::{ContentHashes, HashRequest};
use lux::lower::ResolvedSymbol;
use lux::translate::{TranslatedFunctionModules, Translator};

fn var(name: &str) -> Expr {
    Expr::Var(name.to_string())
}

fn call(name: &str, args: Vec<Expr>) -> Expr {
    Expr::Call(Box::new(var(name)), args)
}

fn binary(a: Expr, op: BinOp, b: Expr) -> Expr {
    Expr::Binary(Box::new(a), op, Box::new(b))
}

fn bound(name: &str, value: Expr, rest: Expr) -> Expr {
    Expr::Block(vec![Stmt::Let(Pattern::Var(name.to_string()), value)], Some(Box::new(rest)))
}

fn function(name: &str, params: &[&str], body: Expr) -> Item {
    Item::Function(Function {
        name: name.to_string(),
        type_params: vec![],
        params: params
            .iter()
            .map(|p| Param {
                name: p.to_string(),
                ty: Some(TypeExpr::Named("Int".to_string(), vec![])),
            })
            .collect(),
        return_type: None,
        body,
    })
}

fn module(items: Vec<Item>) -> Module {
    Module { name: None, items }
}

fn block(tail: Expr) -> Expr {
    Expr::Block(vec![], Some(Box::new(tail)))
}

fn address(q: &HashRequest) -> String {
    let mut h: u64 = 0xcbf29ce484222325;
    let mut take = |s: &str| {
        for b in s.bytes().chain(std::iter::once(0xff)) {
            h = (h ^ b as u64).wrapping_mul(0x100000001b3);
        }
    };
    take(&q.tag);
    for p in &q.parts {
        take(p);
    }
    format!("{h:016x}")
}

fn translated_with(m: &Module, resolved: &Vec<ResolvedSymbol>) -> TranslatedFunctionModules {
    let mut book = ContentHashes::new();
    loop {
        let mut t = Translator::new();
        match t.translate_function_modules_with_resolution(m, resolved, &book) {
            Ok(r) => return r,
            Err(q) => {
                assert_eq!(book.get(&q), None);
                let h = address(&q);
                book.insert(q, h);
            }
        }
    }
}

fn translated(m: &Module) -> TranslatedFunctionModules {
    translated_with(m, &vec![])
}

fn function_hash(m: Module, source_name: &str, arity: usize) -> String {
    translated(&m)
        .metadata
        .into_iter()
        .find(|m| m.source_name == source_name && m.arity == arity)
        .map(|m| m.module_hash)
        .expect("function metadata not found")
}

fn source(m: &Module, at: usize) -> String {
    let t = translated(m);
    let name = t.modules[at].name.clone();
    Emitter::new().emit_module(&t.modules[at]).replace(&name, "it")
}

fn emitted(params: &[&str], body: Expr) -> String {
    let out = source(&module(vec![function("f", params, body)]), 0);
    let start = out.find(" -> ").unwrap() + 4;
    out[start..out.len() - "\n\nend\n".len()].to_string()
}

#[test]
fn content_address_invariance_diff_name_same_ast_same_hash() {
    let hash_a = function_hash(
        module(vec![function("alpha", &[], block(Expr::Int(42)))]),
        "alpha",
        0,
    );
    let hash_b = function_hash(
        module(vec![function("beta", &[], block(Expr::Int(42)))]),
        "beta",
        0,
    );
    assert_eq!(hash_a, hash_b);
}

#[test]
fn same_name_same_call_different_callee_content_produces_different_hash() {
    let program = |n| {
        module(vec![
            function("helper", &[], block(Expr::Int(n))),
            function("main", &[], block(call("helper", vec![]))),
        ])
    };
    let hash_a = function_hash(program(1), "main", 0);
    let hash_b = function_hash(program(2), "main", 0);
    assert_ne!(hash_a, hash_b);
}

#[test]
fn parameter_rename_same_structure_same_hash() {
    let hash_a = function_hash(module(vec![function("f", &["x"], block(var("x")))]), "f", 1);
    let hash_b = function_hash(module(vec![function("f", &["y"], block(var("y")))]), "f", 1);
    assert_eq!(hash_a, hash_b);
}

#[test]
fn local_rename_same_structure_same_hash() {
    let hash_a = function_hash(
        module(vec![function("f", &[], bound("x", Expr::Int(1), var("x")))]),
        "f",
        0,
    );
    let hash_b = function_hash(
        module(vec![function("f", &[], bound("y", Expr::Int(1), var("y")))]),
        "f",
        0,
    );
    assert_eq!(hash_a, hash_b);
}

#[test]
fn transitive_dependency_change_produces_different_hash() {
    let program = |n| {
        module(vec![
            function("leaf", &[], block(Expr::Int(n))),
            function("middle", &[], block(call("leaf", vec![]))),
            function("main", &[], block(call("middle", vec![]))),
        ])
    };
    let hash_a = function_hash(program(1), "main", 0);
    let hash_b = function_hash(program(2), "main", 0);
    assert_ne!(hash_a, hash_b);
}

#[test]
fn functions_that_call_one_another_get_addresses() {
    let program = |a: &str, b: &str, n: i64| {
        module(vec![
            function(a, &["n"], call(b, vec![binary(var("n"), BinOp::Sub, Expr::Int(n))])),
            function(b, &["n"], call(a, vec![var("n")])),
        ])
    };
    let t = translated(&program("even", "odd", 1));
    assert_eq!(t.metadata.len(), 2);
    assert_ne!(t.metadata[0].module_hash, t.metadata[1].module_hash);
    assert_eq!(function_hash(program("even", "odd", 1), "odd", 1), t.metadata[1].module_hash);
    assert_ne!(function_hash(program("even", "odd", 2), "odd", 1), t.metadata[1].module_hash);
}

#[test]
fn names_of_known_functions_do_not_reach_the_callers() {
    let program = |a: &str, b: &str| {
        module(vec![
            function(a, &["n"], call(b, vec![binary(var("n"), BinOp::Sub, Expr::Int(1))])),
            function(b, &["n"], call(a, vec![var("n")])),
            function("main", &[], Expr::Tuple(vec![call(a, vec![Expr::Int(1)]), call(b, vec![Expr::Int(2)])])),
        ])
    };
    let addresses = |m: Module| {
        let mut book = ContentHashes::new();
        let mut t = Translator::new();
        let mut last = None;
        for _ in 0..2 {
            last = loop {
                match t.translate_function_modules(&m, &book) {
                    Ok(r) => break Some(r),
                    Err(q) => {
                        let h = address(&q);
                        book.insert(q, h);
                    }
                }
            };
        }
        last.unwrap().metadata.into_iter().map(|m| m.module_hash).collect::<Vec<_>>()
    };
    assert_eq!(addresses(program("even", "odd")), addresses(program("p", "q")));
    assert_eq!(addresses(program("even", "odd")), addresses(program("q", "p")));
}

#[test]
fn the_main_function_is_the_entry() {
    let m = module(vec![
        function("helper", &["x"], var("x")),
        function("main", &[], call("helper", vec![Expr::Int(3)])),
    ]);
    let t = translated(&m);
    assert_eq!(t.entry_module, Some(t.modules[1].name.clone()));
    assert_eq!(t.entry_arity, Some(0));
    assert_eq!(t.metadata[1].dependencies, vec![t.metadata[0].module_hash.clone()]);
    assert_eq!(t.metadata[0].dependencies.len(), 0);
    assert_eq!(t.modules[0].exports, vec![("apply".to_string(), 1)]);
}

#[test]
fn a_module_without_functions_translates_to_an_empty_one() {
    let mut t = Translator::default();
    let m = t.translate_module(&module(vec![]), &ContentHashes::new()).ok().unwrap();
    assert_eq!(m.name, "main");
    assert_eq!(m.exports.len() + m.functions.len(), 0);
}

#[test]
fn an_address_that_is_not_known_is_asked_for() {
    let mut t = Translator::new();
    let m = module(vec![function("f", &[], Expr::Int(1))]);
    let q = t.translate_function_modules(&m, &ContentHashes::new()).err().unwrap();
    assert_eq!(q.tag, "lux-body-v1");
    assert_eq!(q.parts, vec!["fn$arity:0|params:0|body:int:1".to_string()]);
}

#[test]
fn the_latest_address_counts() {
    let mut book = ContentHashes::new();
    let q = || HashRequest { tag: "t".to_string(), parts: vec!["p".to_string()] };
    book.insert(q(), "one".to_string());
    book.insert(q(), "two".to_string());
    assert_eq!(book.get(&q()), Some("two".to_string()));
    let other = HashRequest { tag: "t".to_string(), parts: vec!["p".to_string(), "".to_string()] };
    assert_eq!(book.get(&other), None);
}

#[test]
fn a_function_becomes_a_core_module() {
    let m = module(vec![function("f", &["a", "b"], binary(var("a"), BinOp::Add, var("b")))]);
    assert_eq!(
        source(&m, 0),
        "module 'it'\n    ['apply'/2]\nattributes []\n\n'apply'/2 = fun (V0, V1) -> call 'erlang':'+'(V0, V1)\n\nend\n"
    );
}

#[test]
fn branches_become_cases() {
    assert_eq!(
        emitted(
            &["x"],
            Expr::If(
                Box::new(binary(var("x"), BinOp::Lt, Expr::Int(0))),
                Box::new(Expr::Atom("neg".to_string())),
                None
            )
        ),
        "case call 'erlang':'<'(V0, 0) of\n    <'true'> when 'true' -> 'neg'\n    <'false'> when 'true' -> 'ok'\nend"
    );
}

#[test]
fn a_let_binds_in_what_follows() {
    assert_eq!(
        emitted(&[], bound("x", Expr::Int(1), var("x"))),
        "let <V0> = <1> in V0"
    );
}

#[test]
fn a_match_has_a_clause_for_each_arm() {
    let arms = vec![
        MatchArm {
            pattern: Pattern::List(vec![Pattern::Var("h".to_string())], Some(Box::new(Pattern::Wildcard))),
            guard: Some(binary(var("h"), BinOp::Gt, Expr::Int(0))),
            body: var("h"),
        },
        MatchArm { pattern: Pattern::Wildcard, guard: None, body: Expr::Int(0) },
    ];
    let out = emitted(&["l"], Expr::Match(Box::new(var("l")), arms));
    assert!(out.starts_with("case V0 of\n    <[V1|_"), "{out}");
    assert!(out.contains("when call 'erlang':'>'(V1, 0) -> V1\n"), "{out}");
    assert!(out.ends_with("when 'true' -> 0\nend"), "{out}");
}

#[test]
fn a_call_of_another_function_goes_to_its_module() {
    let m = module(vec![
        function("helper", &[], Expr::Int(7)),
        function("main", &[], call("helper", vec![])),
    ]);
    let t = translated(&m);
    let text = Emitter::new().emit_module(&t.modules[1]);
    assert!(text.contains(&format!("call '{}':'apply'()", t.modules[0].name)), "{text}");
}

#[test]
fn a_call_that_is_resolved_elsewhere_goes_there() {
    let m = module(vec![function("main", &[], call("far", vec![Expr::Int(1)]))]);
    let resolved = vec![ResolvedSymbol {
        name: "far".to_string(),
        arity: 1,
        module: "lux_far".to_string(),
    }];
    let t = translated_with(&m, &resolved);
    let text = Emitter::new().emit_module(&t.modules[0]);
    assert!(text.contains("call 'lux_far':'apply'(1)"), "{text}");
    assert_eq!(t.metadata[0].dependencies.len(), 0);
}

#[test]
fn a_try_catches_by_class() {
    let e = Expr::Try {
        body: Box::new(Expr::Int(1)),
        catch_arms: vec![CatchArm {
            class: Some("throw".to_string()),
            pattern: Pattern::Var("e".to_string()),
            body: var("e"),
        }],
    };
    let out = emitted(&[], e);
    assert!(out.starts_with("try 1 of <V0> -> V0 catch <"), "{out}");
    assert!(out.contains("'throw'"), "{out}");
}

#[test]
fn a_record_becomes_a_map() {
    let out = emitted(&[], Expr::Record(vec![("x".to_string(), Expr::Int(1))]));
    assert_eq!(out, "call 'maps':'from_list'(['x'|[1|[]]])");
}

fn comprehension(value: Expr, generators: Vec<(Pattern, Expr)>, filters: Vec<Expr>) -> Expr {
    Expr::ListComp {
        expr: Box::new(value),
        generators: generators
            .into_iter()
            .map(|(pattern, source)| Generator { pattern, source })
            .collect(),
        filters,
    }
}

#[test]
fn a_filtered_comprehension_over_one_variable_becomes_a_filtermap() {
    let x = || Pattern::Var("x".to_string());
    let positive = || binary(var("x"), BinOp::Gt, Expr::Int(0));
    assert_eq!(
        emitted(&["l"], comprehension(var("x"), vec![(x(), var("l"))], vec![positive()])),
        "call 'lists':'filtermap'(fun (V1) -> case call 'erlang':'>'(V1, 0) of\n    <'true'> when 'true' -> {'true', V1}\n    <'false'> when 'true' -> 'false'\nend, V0)"
    );
    assert_eq!(
        emitted(&["l"], comprehension(var("x"), vec![(x(), var("l"))], vec![])),
        "call 'lists':'map'(fun (V1) -> V1, V0)"
    );
    let pair = Pattern::Tuple(vec![x(), Pattern::Wildcard]);
    let out = emitted(&["l"], comprehension(var("x"), vec![(pair, var("l"))], vec![positive()]));
    assert!(out.starts_with("call 'lists':'flatmap'("), "{out}");
    let y = Pattern::Var("y".to_string());
    let two = vec![(x(), var("l")), (y, var("l"))];
    let out = emitted(&["l"], comprehension(var("x"), two, vec![positive()]));
    assert!(out.starts_with("call 'lists':'flatmap'("), "{out}");
    assert!(out.contains("[V"), "{out}");
}

fn printed(e: &Expr, keys: &[&str]) -> (String, Vec<String>) {
    let cx = LocalKeys {
        current: keys[0].to_string(),
        keys: keys.iter().map(|k| k.to_string()).collect(),
    };
    let mut calls = vec![];
    let text = expr_fingerprint(e, &cx, &FingerprintState::new(), &mut calls);
    (text, calls)
}

#[test]
fn a_fingerprint_does_not_name_bound_variables() {
    let both = |a: &str, b: &str| {
        Expr::Tuple(vec![
            bound(a, Expr::Int(1), call("f", vec![var(a)])),
            bound(b, Expr::Int(1), call("g", vec![var(b), var("free")])),
        ])
    };
    let keys = ["f/1", "g/2", "h/0"];
    let one = printed(&both("x", "x"), &keys);
    assert_eq!(one, printed(&both("y", "z"), &keys));
    assert_eq!(one.1, vec!["f/1".to_string(), "g/2".to_string()]);
    assert!(one.1.iter().all(|k| keys.contains(&k.as_str())));
    assert_eq!(one, printed(&both("x", "x"), &["f/1", "h/0", "g/2"]));
    assert_ne!(one.0, printed(&both("free", "free"), &keys).0);
}

#[test]
fn the_order_of_items_changes_no_address() {
    let items = || {
        vec![
            function("even", &["n"], call("odd", vec![binary(var("n"), BinOp::Sub, Expr::Int(1))])),
            function("leaf", &[], Expr::Int(1)),
            function("odd", &["n"], call("even", vec![var("n")])),
            function("main", &[], Expr::Tuple(vec![call("leaf", vec![]), call("even", vec![Expr::Int(4)])])),
        ]
    };
    let addresses = |m: &Module| {
        let mut all: Vec<_> = translated(m)
            .metadata
            .into_iter()
            .map(|m| (m.source_name, m.arity, m.module_hash, m.dependencies))
            .collect();
        all.sort();
        all
    };
    let straight = addresses(&module(items()));
    let mut turned = items();
    turned.reverse();
    assert_eq!(straight, addresses(&Module { name: Some("other".to_string()), items: turned }));
    let mut moved = items();
    moved.swap(0, 3);
    assert_eq!(straight, addresses(&module(moved)));
    assert_eq!(straight.len(), 4);
}

#[test]
fn functions_in_a_circle_reach_the_same() {
    let edges = vec![vec![1], vec![2], vec![1, 3], vec![]];
    let reach: Vec<Vec<bool>> = (0..4).map(|i| reach_from(&edges, i)).collect();
    assert_eq!(reach[1], vec![false, true, true, true]);
    assert_eq!(reach[1], reach[2]);
    let ranks: Vec<usize> = reach.iter().map(|r| r.iter().filter(|b| **b).count()).collect();
    assert_eq!(ranks, vec![4, 3, 3, 1]);
}

#[test]
fn a_canonical_form_is_its_own() {
    let inner = CoreExpr::Fun(vec!["Y".to_string()], Box::new(CoreExpr::var("Y")));
    let body = CoreExpr::Let(vec![("Z".to_string(), inner)], Box::new(CoreExpr::var("A")));
    let f = CoreFunDef {
        name: "apply".to_string(),
        arity: 2,
        params: vec!["A".to_string(), "B".to_string()],
        body,
    };
    let once = canonicalize_core_function(&f);
    assert_eq!(once.params, vec!["V0".to_string(), "V1".to_string()]);
    assert_eq!((once.name.as_str(), once.arity), ("apply", 2));
    let twice = canonicalize_core_function(&once);
    assert_eq!(format!("{twice:?}"), format!("{once:?}"));
    assert_ne!(format!("{once:?}"), format!("{f:?}"));
}

#[test]
fn canonical_forms_ignore_bound_names() {
    let form = |a: &str, x: &str, y: &str, free: &str| {
        let fun = |v: &str| CoreExpr::Fun(vec![v.to_string()], Box::new(CoreExpr::var(v)));
        let both = CoreExpr::Tuple(vec![fun(x), fun(y), CoreExpr::var(a), CoreExpr::var(free)]);
        let f = CoreFunDef {
            name: "apply".to_string(),
            arity: 1,
            params: vec![a.to_string()],
            body: both,
        };
        format!("{:?}", canonicalize_core_function(&f))
    };
    let plain = form("A", "X", "X", "Out");
    assert_eq!(plain, form("B", "X", "Y", "Out"));
    assert_eq!(plain, form("_v0", "_Reason", "_v0", "Out"));
    assert_eq!(plain, form("A", "A", "Out", "Out"));
    assert_ne!(plain, form("A", "X", "X", "Other"));
    assert_ne!(plain, form("Out", "X", "X", "Out"));
}

#[test]
fn names_in_one_function_change_no_address() {
    let program = |p: &str, a: &str, b: &str| {
        module(vec![
            function("f", &[p], bound(a, var(p), bound(b, var(a), var(b)))),
            function("g", &["x"], binary(var("x"), BinOp::Add, Expr::Int(1))),
            function("main", &[], call("g", vec![call("f", vec![Expr::Int(1)])])),
        ])
    };
    let addresses = |m: &Module| {
        translated(m).metadata.into_iter().map(|m| m.module_hash).collect::<Vec<_>>()
    };
    let plain = addresses(&program("x", "y", "z"));
    assert_eq!(plain, addresses(&program("a", "b", "c")));
    assert_eq!(plain, addresses(&program("x", "x", "x")));
    assert_eq!(plain, addresses(&program("_x", "_y", "_")));
    assert_eq!(plain, addresses(&program("max", "length", "print")));
    assert_ne!(plain, addresses(&module(vec![
        function("f", &["x"], bound("y", var("x"), bound("z", var("y"), var("y")))),
        function("g", &["x"], binary(var("x"), BinOp::Add, Expr::Int(1))),
        function("main", &[], call("g", vec![call("f", vec![Expr::Int(1)])])),
    ])));
}

#[test]
fn one_of_two_equal_names_may_change_alone() {
    let lambda = |p: &str| {
        Expr::Lambda(
            vec![Param { name: p.to_string(), ty: None }],
            Box::new(binary(var(p), BinOp::Mul, Expr::Int(2))),
        )
    };
    let program = |p: &str, q: &str| module(vec![function("f", &[], Expr::Tuple(vec![lambda(p), lambda(q)]))]);
    let hash = |m: Module| function_hash(m, "f", 0);
    assert_eq!(hash(program("x", "x")), hash(program("y", "x")));
    assert_eq!(hash(program("x", "x")), hash(program("_a", "max")));
}
