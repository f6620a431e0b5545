//! How expressions become steps.
use vstd::prelude::*;
use crate::erlang::{Clause, Core, CoreBinaryKind, CoreBinarySize, FunDef, Literal, Pat, Segment};
use crate::native::{
    bif, bound_var, bytes_string, call, declared, emit, free, func_at, interned, lit, loaded,
    mangled, nil_word, pattern_binds, pattern_test, pointer_mask, runtime_call, runtime_func,
    runtime_raise, stick, string_in, true_word, atom_word, var_of, warned, Caution, Gen, Lambda, Step,
    Vars,
};
use crate::text::decimal;

verus! {

/// The value of a variable. One that is not in scope is the empty list.
#[verifier::opaque]
pub open spec fn variable(g: Gen, vars: Vars, name: Seq<char>) -> (Gen, usize) {
    match var_of(vars, name) {
        Some(v) => emit(g, Step::UseVar(v)),
        None => emit(g, Step::Word(nil_word())),
    }
}

/// A call of a function by its symbol. One that cannot be declared gives the
/// empty list.
#[verifier::opaque]
pub open spec fn direct_call(g: Gen, symbol: Seq<char>, vals: Seq<usize>) -> (Gen, usize) {
    let at = func_at(g.funcs, symbol);
    if at is Some && g.funcs[at->Some_0 as int].own {
        call(g, at->Some_0, vals)
    } else {
        match declared(g.funcs, symbol, vals.len(), 1, false, true, false) {
            Some((funcs, i)) => call(Gen { funcs, ..g }, i, vals),
            None => emit(
                warned(g, Caution::Undeclared(symbol, vals.len())),
                Step::Word(nil_word()),
            ),
        }
    }
}

/// A call of a closure with up to three arguments.
#[verifier::opaque]
pub open spec fn closure_call(g: Gen, closure: usize, vals: Seq<usize>) -> (Gen, usize) {
    let args = seq![closure] + vals;
    if vals.len() == 0 {
        runtime_call(g, "lux_rt_apply0"@, args)
    } else if vals.len() == 1 {
        runtime_call(g, "lux_rt_apply1"@, args)
    } else if vals.len() == 2 {
        runtime_call(g, "lux_rt_apply2"@, args)
    } else if vals.len() == 3 {
        runtime_call(g, "lux_rt_apply3"@, args)
    } else {
        emit(g, Step::Word(nil_word()))
    }
}

/// Stores words one after the other in a slot.
pub open spec fn stored_words(g: Gen, slot: usize, vals: Seq<usize>) -> Gen
    decreases vals.len(),
{
    if vals.len() == 0 {
        g
    } else {
        emit(
            stored_words(g, slot, vals.drop_last()),
            Step::StackStore(vals.last(), slot, ((vals.len() - 1) * 8) as i32),
        ).0
    }
}

#[verifier::opaque]
pub open spec fn tuple(g: Gen, vals: Seq<usize>) -> (Gen, usize) {
    if vals.len() == 2 {
        runtime_call(g, "lux_rt_make_tuple2"@, vals)
    } else if vals.len() == 3 {
        runtime_call(g, "lux_rt_make_tuple3"@, vals)
    } else {
        let (g1, slot) = emit(g, Step::Slot((vals.len() * 8) as u32, 8));
        let (g2, p) = emit(stored_words(g1, slot, vals), Step::StackAddr(slot));
        let (g3, n) = emit(g2, Step::Word(vals.len() as i64));
        runtime_call(g3, "lux_rt_make_tuple_n"@, seq![n, p])
    }
}

/// Whether a segment is a whole binary.
pub open spec fn is_whole(s: Segment) -> bool {
    s.size == CoreBinarySize::All && s.kind == CoreBinaryKind::Binary
}

/// The byte that a segment is known to be.
pub open spec fn constant_byte(s: Segment) -> Option<u8> {
    match s.value {
        Core::Lit(Literal::Int(n)) => if s.size == CoreBinarySize::Bits(8) && (s.kind
            == CoreBinaryKind::Integer || s.kind == CoreBinaryKind::BigInteger) {
            Some((n as i64) as u8)
        } else {
            None
        },
        _ => None,
    }
}

#[verifier::opaque]
pub open spec fn all_whole(s: Seq<Segment>) -> bool {
    forall|i: int| 0 <= i < s.len() ==> is_whole(#[trigger] s[i])
}

#[verifier::opaque]
pub open spec fn all_constant(s: Seq<Segment>) -> bool {
    forall|i: int| 0 <= i < s.len() ==> constant_byte(#[trigger] s[i]) is Some
}

#[verifier::opaque]
pub open spec fn constant_bytes(s: Seq<Segment>) -> Seq<u8> {
    Seq::new(s.len(), |i: int| constant_byte(s[i])->Some_0)
}

/// How many segments of a binary are built.
pub open spec fn built_segments(n: nat) -> nat {
    if n < 256 {
        n
    } else {
        256
    }
}

/// The captured variables, stored behind a pointer or in a slot.
pub open spec fn stored_captures(g: Gen, slot: usize, captures: Seq<Seq<char>>, vars: Vars) -> Gen
    decreases captures.len(),
{
    if captures.len() == 0 {
        g
    } else {
        let g1 = stored_captures(g, slot, captures.drop_last(), vars);
        let (g2, v) = variable(g1, vars, captures.last());
        emit(g2, Step::StackStore(v, slot, (16 + (captures.len() - 1) * 8) as i32)).0
    }
}

pub open spec fn heap_captures(g: Gen, heap: usize, captures: Seq<Seq<char>>, vars: Vars) -> Gen
    decreases captures.len(),
{
    if captures.len() == 0 {
        g
    } else {
        let g1 = heap_captures(g, heap, captures.drop_last(), vars);
        let (g2, v) = variable(g1, vars, captures.last());
        emit(g2, Step::Store(v, heap, (16 + (captures.len() - 1) * 8) as i32)).0
    }
}

/// A new function that is defined later.
#[verifier::opaque]
pub open spec fn deferred(g: Gen, symbol: Seq<char>, l: Lambda) -> (Gen, usize) {
    match declared(g.funcs, symbol, l.params.len() + 1, 1, true, true, false) {
        Some((funcs, i)) => (
            Gen {
                funcs,
                lambdas: g.lambdas + 1,
                deferred: g.deferred.push(Lambda { func: i, ..l }),
                ..g
            },
            i,
        ),
        None => stick(Gen { lambdas: g.lambdas + 1, ..g }),
    }
}

/// The variables that a closure captures.
pub open spec fn captured(params: Seq<Seq<char>>, body: Core) -> Seq<Seq<char>> {
    free(body, params.push("_"@), Seq::empty())
}

/// A closure: a function, and the values of the variables that it captures.
#[verifier::opaque]
pub open spec fn closure(
    g: Gen,
    params: Seq<Seq<char>>,
    body: Core,
    vars: Vars,
    home: Seq<char>,
) -> (Gen, usize) {
    let captures = captured(params, body);
    let n = captures.len();
    let symbol = "lux_lambda_"@ + decimal(g.lambdas);
    let (g1, f) = deferred(g, symbol, Lambda { func: 0, params, captures, body, home });
    let (g1b, fref) = emit(g1, Step::Import(f));
    let (g2, addr) = emit(g1b, Step::FuncAddr(fref));
    let (g3, slot) = emit(g2, Step::Slot(((2 + n) * 8) as u32, 8));
    let g4 = emit(g3, Step::StackStore(addr, slot, 0)).0;
    let (g5, count) = emit(g4, Step::Word(n as i64));
    let g6 = emit(g5, Step::StackStore(count, slot, 8)).0;
    let g7 = stored_captures(g6, slot, captures, vars);
    let (g8, alloc) = runtime_func(g7, "lux_alloc"@, 1, 1);
    let (g9, size) = emit(g8, Step::Word(((2 + n) * 8) as i64));
    let (g10, heap) = call(g9, alloc, seq![size]);
    let g11 = emit(g10, Step::Store(addr, heap, 0)).0;
    let g12 = emit(g11, Step::Store(count, heap, 8)).0;
    emit(heap_captures(g12, heap, captures, vars), Step::BorImm(heap, 6))
}

/// The parameters of a function that passes its arguments on.
pub open spec fn forward_params(arity: nat) -> Seq<Seq<char>> {
    Seq::new(arity, |i: int| "__fref_p"@ + decimal(i as nat))
}

/// A function that passes its arguments on.
pub open spec fn forward(module: Seq<char>, name: Seq<char>, arity: nat) -> Core {
    let params = forward_params(arity);
    Core::Call(module, name, Seq::new(arity, |i: int| Core::Var(params[i])))
}

/// A closure for a named function.
#[verifier::opaque]
pub open spec fn fun_ref(g: Gen, module: Seq<char>, name: Seq<char>, arity: nat) -> (Gen, usize) {
    let symbol = "lux_funref_wrap_"@ + decimal(g.lambdas);
    let (g1, f) = deferred(
        g,
        symbol,
        Lambda {
            func: 0,
            params: forward_params(arity),
            captures: Seq::empty(),
            body: forward(module, name, arity),
            home: module,
        },
    );
    let (g1b, fref) = emit(g1, Step::Import(f));
    let (g2, addr) = emit(g1b, Step::FuncAddr(fref));
    let (g3, alloc) = runtime_func(g2, "lux_alloc"@, 1, 1);
    let (g4, size) = emit(g3, Step::Word(16));
    let (g5, heap) = call(g4, alloc, seq![size]);
    let g6 = emit(g5, Step::Store(addr, heap, 0)).0;
    let (g7, zero) = emit(g6, Step::Word(0));
    let g8 = emit(g7, Step::Store(zero, heap, 8)).0;
    emit(g8, Step::BorImm(heap, 6))
}

/// The runtime function for a call into a library of the runtime, if it has it.
#[verifier::opaque]
pub open spec fn library_func(g: Gen, module: Seq<char>, func: Seq<char>, n: nat) -> Option<usize> {
    if module == "lists"@ || module == "string"@ || module == "maps"@ {
        let at = func_at(g.funcs, "lux_"@ + module + "_"@ + func + decimal(n));
        if at is Some && g.funcs[at->Some_0 as int].runtime {
            at
        } else {
            None
        }
    } else {
        None
    }
}

/// The blocks of a `case`: three for each clause, and one for the failure.
pub open spec fn blocks(g: Gen, k: nat) -> Gen
    decreases k,
{
    if k == 0 {
        g
    } else {
        emit(blocks(g, (k - 1) as nat), Step::CreateBlock).0
    }
}

/// The places that the clauses of a `case` use: the variable for the value, the
/// block behind it, the first block of the clauses, and how many clauses there are.
pub struct Frame {
    pub var: usize,
    pub merge: usize,
    pub first: nat,
    pub count: nat,
}

pub open spec fn test_block(f: Frame, i: int) -> usize {
    (f.first + 3 * i) as usize
}

pub open spec fn guard_block(f: Frame, i: int) -> usize {
    (f.first + 3 * i + 1) as usize
}

pub open spec fn body_block(f: Frame, i: int) -> usize {
    (f.first + 3 * i + 2) as usize
}

/// Opens a block.
#[verifier::opaque]
pub open spec fn opened(g: Gen, block: usize) -> Gen {
    emit(emit(g, Step::SwitchTo(block)).0, Step::Seal(block)).0
}

/// Opens a block of a clause and binds the variables of the pattern there.
#[verifier::opaque]
pub open spec fn clause_scope(g: Gen, block: usize, var: usize, patterns: Seq<Pat>, vars: Vars) -> (
    Gen,
    Vars,
) {
    let (g1, v) = emit(opened(g, block), Step::UseVar(var));
    if patterns.len() == 0 {
        (g1, vars)
    } else {
        pattern_binds(patterns[0], v, g1, vars)
    }
}

/// The block that tests a clause's pattern.
#[verifier::opaque]
pub open spec fn clause_test(g: Gen, f: Frame, i: int, patterns: Seq<Pat>) -> Gen {
    let (g1, v) = emit(opened(g, test_block(f, i)), Step::UseVar(f.var));
    let (g2, c) = if patterns.len() == 1 {
        pattern_test(patterns[0], v, g1)
    } else {
        emit(g1, Step::Byte(1))
    };
    emit(g2, Step::Brif(c, guard_block(f, i), test_block(f, i + 1))).0
}

/// Whether a guard is the constant `true`.
#[verifier::opaque]
pub open spec fn always(guard: Core) -> bool {
    guard == Core::Lit(Literal::Atom("true"@))
}

/// The block behind the last clause.
#[verifier::opaque]
pub open spec fn case_failure(g: Gen, f: Frame) -> Gen {
    let (g1, v) = emit(opened(g, test_block(f, f.count as int)), Step::UseVar(f.var));
    let g2 = runtime_raise(g1, "lux_rt_case_clause_error"@, seq![v]);
    emit(g2, Step::Trap).0
}

/// Opens the block behind a branching and takes its parameter.
#[verifier::opaque]
pub open spec fn merged(g: Gen, block: usize) -> (Gen, usize) {
    emit(opened(g, block), Step::Param(block, 0))
}

/// The start of a `case` on a value.
#[verifier::opaque]
pub open spec fn case_start(g: Gen, value: usize, n: nat) -> (Gen, Frame) {
    let (g1, var) = emit(g, Step::DeclareVar);
    let g2 = emit(g1, Step::DefVar(var, value)).0;
    let (g3, merge) = emit(g2, Step::CreateBlock);
    let g4 = emit(g3, Step::AddParam(merge)).0;
    let f = Frame { var, merge, first: g4.steps.len(), count: n };
    (emit(blocks(g4, 3 * n + 1), Step::Jump(test_block(f, 0))).0, f)
}

/// The branching of a `try` on the outcome of its body: the value, and the
/// blocks for success, for failure and behind.
#[verifier::opaque]
pub open spec fn try_start(g: Gen, outcome: usize) -> (Gen, usize, usize, usize, usize) {
    let (g1, kind) = loaded(g, outcome, 8);
    let (g2, value) = loaded(g1, outcome, 16);
    let (atoms, i) = interned(g2.atoms, "ok"@);
    let (g3, ok) = emit(Gen { atoms, ..g2 }, Step::Word(atom_word(i as usize)));
    let (g4, c) = emit(g3, Step::Equal(kind, ok));
    let (g5, good) = emit(g4, Step::CreateBlock);
    let (g6, bad) = emit(g5, Step::CreateBlock);
    let (g7, merge) = emit(g6, Step::CreateBlock);
    let g8 = emit(g7, Step::AddParam(merge)).0;
    (emit(g8, Step::Brif(c, good, bad)).0, value, good, bad, merge)
}

/// Binds the variables of a `catch`: the second to the value, the others to the
/// empty list.
pub open spec fn error_vars(g: Gen, vars: Vars, names: Seq<Seq<char>>, nil: usize, value: usize) -> (
    Gen,
    Vars,
)
    decreases names.len(),
{
    if names.len() == 0 {
        (g, vars)
    } else {
        let (g1, vars1) = error_vars(g, vars, names.drop_last(), nil, value);
        bound_var(
            g1,
            vars1,
            names.last(),
            if names.len() == 2 {
                value
            } else {
                nil
            },
        )
    }
}

/// The steps of an expression: the state, the variables and the value.
pub open spec fn native(e: Core, g: Gen, vars: Vars, home: Seq<char>) -> (Gen, Vars, usize)
    decreases e, 1nat, 0nat,
{
    match e {
        Core::Lit(l) => {
            let (g1, v) = lit(g, l);
            (g1, vars, v)
        },
        Core::Var(name) => {
            let (g1, v) = variable(g, vars, name);
            (g1, vars, v)
        },
        Core::Let(bindings, body) => {
            let (g1, vars1) = native_bindings(bindings, g, vars, home);
            native(*body, g1, vars1, home)
        },
        Core::Sequence(a, b) => {
            let (g1, vars1, _) = native(*a, g, vars, home);
            native(*b, g1, vars1, home)
        },
        Core::Call(module, func, args) => {
            let (g1, vars1, vals) = native_all(args, g, vars, home);
            let (g2, v) = if module == "erlang"@ {
                bif(func, vals, g1)
            } else if module == "io"@ && func == "format"@ {
                if args.len() == 2 {
                    runtime_call(g1, "lux_rt_io_format"@, vals)
                } else {
                    emit(g1, Step::Word(nil_word()))
                }
            } else if module == "io_lib"@ && func == "format"@ && args.len() == 2 {
                runtime_call(g1, "lux_rt_io_lib_format"@, vals)
            } else {
                match library_func(g, module, func, args.len()) {
                    Some(f) => call(g1, f, vals),
                    None => direct_call(g1, mangled(module, func, args.len()), vals),
                }
            };
            (g2, vars1, v)
        },
        Core::Apply(f, args) => match *f {
            Core::LocalFunRef(name, _) => {
                let (g1, vars1, vals) = native_all(args, g, vars, home);
                let (g2, v) = direct_call(g1, mangled(home, name, args.len()), vals);
                (g2, vars1, v)
            },
            Core::RemoteFunRef(module, name, _) => {
                let (g1, vars1, vals) = native_all(args, g, vars, home);
                let (g2, v) = direct_call(g1, mangled(module, name, args.len()), vals);
                (g2, vars1, v)
            },
            _ => {
                let (g1, vars1, c) = native(*f, g, vars, home);
                let (g2, vars2, vals) = native_all(args, g1, vars1, home);
                let (g3, v) = closure_call(g2, c, vals);
                (g3, vars2, v)
            },
        },
        Core::Case(scrutinee, clauses) => {
            let (g1, vars1, value) = native(*scrutinee, g, vars, home);
            let (g2, f) = case_start(g1, value, clauses.len());
            let g3 = native_clauses(clauses, g2, vars1, home, f);
            let (g4, v) = merged(case_failure(g3, f), f.merge);
            (g4, vars1, v)
        },
        Core::Tuple(items) => {
            let (g1, vars1, vals) = native_all(items, g, vars, home);
            let (g2, v) = tuple(g1, vals);
            (g2, vars1, v)
        },
        Core::List(items, tail) => {
            let (g1, vars1, end) = native(*tail, g, vars, home);
            native_onto(items, g1, vars1, home, end)
        },
        Core::Cons(h, t) => {
            let (g1, vars1, x) = native(*h, g, vars, home);
            let (g2, vars2, y) = native(*t, g1, vars1, home);
            let (g3, v) = runtime_call(g2, "lux_rt_make_cons"@, seq![x, y]);
            (g3, vars2, v)
        },
        Core::LocalFunRef(name, arity) => {
            let (g1, v) = fun_ref(g, home, name, arity);
            (g1, vars, v)
        },
        Core::RemoteFunRef(module, name, arity) => {
            let (g1, v) = fun_ref(g, module, name, arity);
            (g1, vars, v)
        },
        Core::Fun(params, body) => {
            let (g1, v) = closure(g, params, *body, vars, home);
            (g1, vars, v)
        },
        Core::MapLit(entries) => if entries.len() == 0 {
            let (g1, zero) = emit(g, Step::Word(0));
            let (g2, null) = emit(g1, Step::Word(0));
            let (g3, v) = runtime_call(g2, "lux_rt_make_map"@, seq![zero, null, null]);
            (g3, vars, v)
        } else {
            let n = entries.len();
            let (g1, keys) = emit(g, Step::Slot((n * 8) as u32, 8));
            let (g2, values) = emit(g1, Step::Slot((n * 8) as u32, 8));
            let (g3, vars1) = native_entries(entries, g2, vars, home, keys, values);
            let (g4, p) = emit(g3, Step::StackAddr(keys));
            let (g5, q) = emit(g4, Step::StackAddr(values));
            let (g6, k) = emit(g5, Step::Word(n as i64));
            let (g7, v) = runtime_call(g6, "lux_rt_make_map"@, seq![k, p, q]);
            (g7, vars1, v)
        },
        Core::Binary(segments) => if all_whole(segments) && segments.len() >= 2 {
            native_concat(segments, g, vars, home)
        } else if all_constant(segments) && segments.len() > 0 {
            let (g1, v) = bytes_string(g, constant_bytes(segments));
            (g1, vars, v)
        } else if segments.len() == 0 {
            let (g1, p) = emit(g, Step::Word(0));
            let (g2, n) = emit(g1, Step::Word(0));
            let (g3, v) = runtime_call(g2, "lux_rt_make_string"@, seq![p, n]);
            (g3, vars, v)
        } else {
            let n = built_segments(segments.len());
            let (g1, slot) = emit(g, Step::Slot((n + 1) as u32, 0));
            let (g2, vars1) = native_segments(segments, n, g1, vars, home, slot);
            let (g3, v) = string_in(g2, slot, n);
            (g3, vars1, v)
        },
        Core::Primop(op, args) => if op == "match_fail"@ || op == "case_clause"@ {
            let g1 = emit(runtime_raise(g, "lux_rt_match_error"@, Seq::empty()), Step::Trap).0;
            let (g2, block) = emit(g1, Step::CreateBlock);
            let (g3, v) = emit(opened(g2, block), Step::Word(nil_word()));
            (g3, vars, v)
        } else if op == "send"@ && args.len() >= 2 {
            native(args[1], g, vars, home)
        } else {
            let (g1, v) = emit(g, Step::Word(nil_word()));
            (g1, vars, v)
        },
        Core::Try(body, names, handler, errors, catch) => {
            let (g1, c) = closure(g, Seq::empty(), *body, vars, home);
            let (g2, outcome) = runtime_call(g1, "lux_rt_try_call"@, seq![c]);
            let (g3, value, good, bad, merge) = try_start(g2, outcome);
            let (g4, vars1) = if names.len() == 0 {
                (opened(g3, good), vars)
            } else {
                bound_var(opened(g3, good), vars, names[0], value)
            };
            let (g5, vars2, x) = native(*handler, g4, vars1, home);
            let g6 = emit(g5, Step::JumpWith(merge, x)).0;
            let (g7, nil) = emit(opened(g6, bad), Step::Word(nil_word()));
            let (g8, vars3) = error_vars(g7, vars2, errors, nil, value);
            let (g9, vars4, y) = native(*catch, g8, vars3, home);
            let (g10, v) = merged(emit(g9, Step::JumpWith(merge, y)).0, merge);
            (g10, vars4, v)
        },
        Core::Receive(_, _) => {
            let (g1, v) = emit(g, Step::Word(nil_word()));
            (g1, vars, v)
        },
    }
}

/// The values of expressions in order.
pub open spec fn native_all(s: Seq<Core>, g: Gen, vars: Vars, home: Seq<char>) -> (
    Gen,
    Vars,
    Seq<usize>,
)
    decreases s, 0nat, 0nat,
{
    if s.len() == 0 {
        (g, vars, Seq::empty())
    } else {
        let (g1, vars1, vals) = native_all(s.drop_last(), g, vars, home);
        let (g2, vars2, v) = native(s.last(), g1, vars1, home);
        (g2, vars2, vals.push(v))
    }
}

/// The elements of a list put onto its end, the last first.
pub open spec fn native_onto(s: Seq<Core>, g: Gen, vars: Vars, home: Seq<char>, end: usize) -> (
    Gen,
    Vars,
    usize,
)
    decreases s, 0nat, 0nat,
{
    if s.len() == 0 {
        (g, vars, end)
    } else {
        let (g1, vars1, x) = native(s.last(), g, vars, home);
        let (g2, v) = runtime_call(g1, "lux_rt_make_cons"@, seq![x, end]);
        native_onto(s.drop_last(), g2, vars1, home, v)
    }
}

pub open spec fn native_bindings(s: Seq<(Seq<char>, Core)>, g: Gen, vars: Vars, home: Seq<char>) -> (
    Gen,
    Vars,
)
    decreases s, 0nat, 0nat,
{
    if s.len() == 0 {
        (g, vars)
    } else {
        let (g1, vars1) = native_bindings(s.drop_last(), g, vars, home);
        let (g2, vars2, v) = native(s.last().1, g1, vars1, home);
        bound_var(g2, vars2, s.last().0, v)
    }
}

pub open spec fn native_entries(
    s: Seq<(Core, Core)>,
    g: Gen,
    vars: Vars,
    home: Seq<char>,
    keys: usize,
    values: usize,
) -> (Gen, Vars)
    decreases s, 0nat, 0nat,
{
    if s.len() == 0 {
        (g, vars)
    } else {
        let (g1, vars1) = native_entries(s.drop_last(), g, vars, home, keys, values);
        let (g2, vars2, k) = native(s.last().0, g1, vars1, home);
        let (g3, vars3, v) = native(s.last().1, g2, vars2, home);
        let offset = ((s.len() - 1) * 8) as i32;
        let g4 = emit(g3, Step::StackStore(k, keys, offset)).0;
        (emit(g4, Step::StackStore(v, values, offset)).0, vars3)
    }
}

/// The concatenation of binaries.
pub open spec fn native_concat(s: Seq<Segment>, g: Gen, vars: Vars, home: Seq<char>) -> (
    Gen,
    Vars,
    usize,
)
    decreases s, 0nat, 0nat,
{
    if s.len() == 0 {
        (g, vars, 0)
    } else if s.len() == 1 {
        native(s.last().value, g, vars, home)
    } else {
        let (g1, vars1, x) = native_concat(s.drop_last(), g, vars, home);
        let (g2, vars2, y) = native(s.last().value, g1, vars1, home);
        let (g3, v) = runtime_call(g2, "lux_rt_string_concat"@, seq![x, y]);
        (g3, vars2, v)
    }
}

/// Stores the low byte of each of the first `n` segments.
pub open spec fn native_segments(
    s: Seq<Segment>,
    n: nat,
    g: Gen,
    vars: Vars,
    home: Seq<char>,
    slot: usize,
) -> (Gen, Vars)
    decreases s, 0nat, 0nat,
{
    if s.len() == 0 {
        (g, vars)
    } else {
        let (g1, vars1) = native_segments(s.drop_last(), n, g, vars, home, slot);
        if s.len() > n {
            (g1, vars1)
        } else {
            let (g2, vars2, v) = native(s.last().value, g1, vars1, home);
            let (g3, word) = emit(g2, Step::SshrImm(v, 3));
            let (g4, byte) = emit(g3, Step::Reduce(word));
            (emit(g4, Step::StackStore(byte, slot, (s.len() - 1) as i32)).0, vars2)
        }
    }
}

/// A clause: the blocks for its pattern, its guard and its body.
pub open spec fn native_clause(
    c: Clause,
    i: int,
    g: Gen,
    vars: Vars,
    home: Seq<char>,
    f: Frame,
) -> Gen
    decreases c, 0nat, 0nat,
{
    let g1 = clause_test(g, f, i, c.patterns);
    let (g2, vars1) = clause_scope(g1, guard_block(f, i), f.var, c.patterns, vars);
    let g3 = if always(c.guard) {
        emit(g2, Step::Jump(body_block(f, i))).0
    } else {
        let (a, _, v) = native(c.guard, g2, vars1, home);
        let (b, t) = emit(a, Step::EqualImm(v, true_word()));
        emit(b, Step::Brif(t, body_block(f, i), test_block(f, i + 1))).0
    };
    let (g4, vars2) = clause_scope(g3, body_block(f, i), f.var, c.patterns, vars);
    let (g5, _, r) = native(c.body, g4, vars2, home);
    emit(g5, Step::JumpWith(f.merge, r)).0
}

pub open spec fn native_clauses(s: Seq<Clause>, g: Gen, vars: Vars, home: Seq<char>, f: Frame) -> Gen
    decreases s, 0nat, 0nat,
{
    if s.len() == 0 {
        g
    } else {
        let g1 = native_clauses(s.drop_last(), g, vars, home, f);
        native_clause(s.last(), s.len() - 1, g1, vars, home, f)
    }
}

/// How many closures an expression makes at most, and the closures in them.
pub open spec fn closures(e: Core) -> nat
    decreases e,
{
    match e {
        Core::Lit(_) => 0,
        Core::Var(_) => 0,
        Core::LocalFunRef(_, _) => 1,
        Core::RemoteFunRef(_, _, _) => 1,
        Core::Tuple(items) => closures_all(items),
        Core::List(items, tail) => closures_all(items) + closures(*tail),
        Core::Cons(h, t) => closures(*h) + closures(*t),
        Core::MapLit(entries) => closures_entries(entries),
        Core::Binary(segments) => closures_segments(segments),
        Core::Apply(f, args) => closures(*f) + closures_all(args),
        Core::Call(_, _, args) => closures_all(args),
        Core::Let(bindings, body) => closures_bindings(bindings) + closures(*body),
        Core::Case(scrutinee, clauses) => closures(*scrutinee) + closures_clauses(clauses),
        Core::Receive(_, _) => 0,
        Core::Fun(_, body) => 1 + closures(*body),
        Core::Primop(_, args) => closures_all(args),
        Core::Sequence(a, b) => closures(*a) + closures(*b),
        Core::Try(body, _, handler, _, catch) => 1 + closures(*body) + closures(*handler)
            + closures(*catch),
    }
}

pub open spec fn closures_all(s: Seq<Core>) -> nat
    decreases s,
{
    if s.len() == 0 {
        0
    } else {
        closures_all(s.drop_last()) + closures(s.last())
    }
}

pub open spec fn closures_entries(s: Seq<(Core, Core)>) -> nat
    decreases s,
{
    if s.len() == 0 {
        0
    } else {
        closures_entries(s.drop_last()) + closures(s.last().0) + closures(s.last().1)
    }
}

pub open spec fn closures_segments(s: Seq<Segment>) -> nat
    decreases s,
{
    if s.len() == 0 {
        0
    } else {
        closures_segments(s.drop_last()) + closures(s.last().value)
    }
}

pub open spec fn closures_bindings(s: Seq<(Seq<char>, Core)>) -> nat
    decreases s,
{
    if s.len() == 0 {
        0
    } else {
        closures_bindings(s.drop_last()) + closures(s.last().1)
    }
}

pub open spec fn closures_clause(c: Clause) -> nat
    decreases c,
{
    closures(c.guard) + closures(c.body)
}

pub open spec fn closures_clauses(s: Seq<Clause>) -> nat
    decreases s,
{
    if s.len() == 0 {
        0
    } else {
        closures_clauses(s.drop_last()) + closures_clause(s.last())
    }
}

/// The closures that are still to be translated, with those in them.
pub open spec fn pending(s: Seq<Lambda>) -> nat
    decreases s.len(),
{
    if s.len() == 0 {
        0
    } else {
        pending(s.drop_last()) + 1 + closures(s.last().body)
    }
}

/// The entry block of a function.
pub open spec fn entered(g: Gen) -> (Gen, usize) {
    let (g1, block) = emit(Gen { steps: Seq::empty(), deferred: Seq::empty(), ..g }, Step::CreateBlock);
    (opened(emit(g1, Step::FunctionParams(block)).0, block), block)
}

/// Binds parameters, from the block parameter `from` on, of which there are
/// `arity`.
pub open spec fn params_bound(
    g: Gen,
    vars: Vars,
    names: Seq<Seq<char>>,
    block: usize,
    from: nat,
    arity: nat,
) -> (Gen, Vars)
    decreases names.len(),
{
    if names.len() == 0 {
        (g, vars)
    } else {
        let (g1, vars1) = params_bound(g, vars, names.drop_last(), block, from, arity);
        let i = (from + names.len() - 1) as nat;
        if i >= arity {
            (stick(g1).0, vars1)
        } else {
            let (g2, var) = emit(g1, Step::DeclareVar);
            let (g3, v) = emit(g2, Step::Param(block, i as usize));
            (emit(g3, Step::DefVar(var, v)).0, vars1.push((names.last(), var)))
        }
    }
}

/// Binds the captured variables of a closure, which lie behind `p`.
pub open spec fn captures_bound(g: Gen, vars: Vars, names: Seq<Seq<char>>, p: usize) -> (Gen, Vars)
    decreases names.len(),
{
    if names.len() == 0 {
        (g, vars)
    } else {
        let (g1, vars1) = captures_bound(g, vars, names.drop_last(), p);
        let (g2, v) = emit(g1, Step::Load(p, ((2 + (names.len() - 1)) * 8) as i32));
        bound_var(g2, vars1, names.last(), v)
    }
}

/// The steps of a function's body. The functions that they call for later are
/// those that are deferred.
pub open spec fn function_body(g: Gen, f: FunDef, home: Seq<char>) -> Gen {
    let (g1, block) = entered(g);
    let (g2, vars) = params_bound(g1, Seq::empty(), f.params, block, 0, f.arity);
    let (g3, _, v) = native(f.body, g2, vars, home);
    emit(g3, Step::Return(v)).0
}

/// The steps of a closure's body.
pub open spec fn lambda_body(g: Gen, l: Lambda) -> Gen {
    let (g1, block) = entered(g);
    let (g2, env) = emit(g1, Step::Param(block, 0));
    let (g3, vars) = if l.captures.len() == 0 {
        (g2, Seq::empty())
    } else {
        let (a, p) = emit(g2, Step::BandImm(env, pointer_mask()));
        captures_bound(a, Seq::empty(), l.captures, p)
    };
    let (g4, vars1) = params_bound(g3, vars, l.params, block, 1, l.params.len() + 1);
    let (g5, _, v) = native(l.body, g4, vars1, l.home);
    emit(g5, Step::Return(v)).0
}

} // verus!
