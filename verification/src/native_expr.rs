//! Translating expressions to steps.
use vstd::prelude::*;
use crate::erlang::{
    bindings_of, clause_of, clauses_of, core_of, cores_of, dup, entries_of, pats_of, segments_of,
    Core, CoreBinaryKind, CoreBinarySegment, CoreBinarySize, CoreClause, CoreExpr, CoreLit,
    CorePattern, Segment,
};
use crate::native::{
    bytes_string, call, emit, func_at, runtime_call, runtime_func, stick, string_in, Lambda, Step,
};
use crate::native_free::free_vars_expr;
use crate::native_gen::{lemma_pats, mangle_symbol, DeferredLambda, NativeCompiler, VarMap, Warning};
use crate::native_plan::{
    all_constant, all_whole, always, blocks, body_block, case_failure, case_start, clause_scope,
    clause_test, closure, closure_call, closures, closures_all, closures_bindings, closures_clause,
    closures_clauses, closures_entries, closures_segments, constant_byte, constant_bytes, deferred,
    direct_call, error_vars, forward, forward_params, fun_ref, guard_block, heap_captures, is_whole,
    library_func, merged, native, native_all, native_bindings, native_clause, native_clauses,
    native_concat, native_entries, native_onto, native_segments, opened, pending, stored_captures,
    stored_words, test_block, try_start, tuple, variable, Frame,
};
use crate::text::{dup_strings, push_usize, same, texts};

verus! {

pub proof fn lemma_cores(s: Seq<CoreExpr>)
    ensures
        cores_of(s).len() == s.len(),
        forall|i: int| 0 <= i < s.len() ==> #[trigger] cores_of(s)[i] == core_of(s[i]),
    decreases s.len(),
{
    if s.len() > 0 {
        lemma_cores(s.drop_last());
    }
}

proof fn lemma_entries(s: Seq<(CoreExpr, CoreExpr)>)
    ensures
        entries_of(s).len() == s.len(),
    decreases s.len(),
{
    if s.len() > 0 {
        lemma_entries(s.drop_last());
    }
}

proof fn lemma_clauses(s: Seq<CoreClause>)
    ensures
        clauses_of(s).len() == s.len(),
    decreases s.len(),
{
    if s.len() > 0 {
        lemma_clauses(s.drop_last());
    }
}

proof fn lemma_segments(s: Seq<CoreBinarySegment>)
    ensures
        segments_of(s).len() == s.len(),
        forall|i: int|
            0 <= i < s.len() ==> #[trigger] segments_of(s)[i] == (Segment {
                value: core_of(s[i].value),
                size: s[i].size,
                kind: s[i].kind,
            }),
    decreases s.len(),
{
    if s.len() > 0 {
        lemma_segments(s.drop_last());
    }
}

proof fn lemma_closures_at(s: Seq<Core>, i: int)
    requires
        0 <= i < s.len(),
    ensures
        closures(s[i]) <= closures_all(s),
    decreases s.len(),
{
    if i < s.len() - 1 {
        lemma_closures_at(s.drop_last(), i);
    }
}

fn whole_segments(v: &Vec<CoreBinarySegment>) -> (r: bool)
    ensures
        r == all_whole(segments_of(v@)),
{
    proof {
        reveal(all_whole);
    }
    proof {
        lemma_segments(v@);
    }
    let mut i: usize = 0;
    while i < v.len()
        invariant
            i <= v@.len(),
            segments_of(v@).len() == v@.len(),
            forall|k: int|
                0 <= k < v@.len() ==> #[trigger] segments_of(v@)[k] == (Segment {
                    value: core_of(v@[k].value),
                    size: v@[k].size,
                    kind: v@[k].kind,
                }),
            forall|k: int| 0 <= k < i ==> is_whole(#[trigger] segments_of(v@)[k]),
        decreases v@.len() - i,
    {
        let whole = match (v[i].size, v[i].kind) {
            (CoreBinarySize::All, CoreBinaryKind::Binary) => true,
            _ => false,
        };
        assert(whole == is_whole(segments_of(v@)[i as int]));
        if !whole {
            proof {
                reveal(all_whole);
            }
            return false;
        }
        i = i + 1;
    }
    true
}

/// The byte that a segment is known to be.
fn known_byte(s: &CoreBinarySegment) -> (r: Option<u8>)
    ensures
        r == constant_byte(
            (Segment { value: core_of(s.value), size: s.size, kind: s.kind }),
        ),
{
    match &s.value {
        CoreExpr::Lit(CoreLit::Int(n)) => {
            let sized = match s.size {
                CoreBinarySize::Bits(b) => b == 8,
                CoreBinarySize::All => false,
            };
            let whole_number = match s.kind {
                CoreBinaryKind::Integer => true,
                CoreBinaryKind::BigInteger => true,
                _ => false,
            };
            if sized && whole_number {
                Some(*n as u8)
            } else {
                None
            }
        },
        _ => None,
    }
}

fn known_bytes(v: &Vec<CoreBinarySegment>) -> (r: Option<Vec<u8>>)
    ensures
        r is Some <==> all_constant(segments_of(v@)),
        r matches Some(b) ==> b@ == constant_bytes(segments_of(v@)),
{
    proof {
        reveal(all_constant);
        reveal(constant_bytes);
    }
    let ghost s = segments_of(v@);
    proof {
        lemma_segments(v@);
    }
    let mut out: Vec<u8> = Vec::new();
    let mut i: usize = 0;
    while i < v.len()
        invariant
            i <= v@.len(),
            s == segments_of(v@),
            s.len() == v@.len(),
            forall|k: int|
                0 <= k < v@.len() ==> #[trigger] s[k] == (Segment {
                    value: core_of(v@[k].value),
                    size: v@[k].size,
                    kind: v@[k].kind,
                }),
            forall|k: int| 0 <= k < i ==> constant_byte(#[trigger] s[k]) is Some,
            out@.len() == i,
            forall|k: int| 0 <= k < i ==> Some(#[trigger] out@[k]) == constant_byte(s[k]),
        decreases v@.len() - i,
    {
        assert(s[i as int] == (Segment {
            value: core_of(v@[i as int].value),
            size: v@[i as int].size,
            kind: v@[i as int].kind,
        }));
        match known_byte(&v[i]) {
            Some(b) => {
                out.push(b);
            },
            None => {
                proof {
                    reveal(all_constant);
                    assert(constant_byte(s[i as int]) is None);
                }
                return None;
            },
        }
        i = i + 1;
    }
    assert(out@ =~= constant_bytes(s));
    Some(out)
}

fn is_always(guard: &CoreExpr) -> (r: bool)
    ensures
        r == always(core_of(*guard)),
{
    proof {
        reveal(always);
    }
    match guard {
        CoreExpr::Lit(CoreLit::Atom(a)) => same(a.as_str(), "true"),
        _ => false,
    }
}

impl NativeCompiler {
    /// The value of a variable.
    fn translate_var(&mut self, vars: &VarMap, name: &str) -> (r: usize)
        ensures
            (final(self).model(), r) == variable(old(self).model(), vars.model(), name@),
            final(self).model().deferred == old(self).model().deferred,
    {
        proof {
            reveal(variable);
        }
        match vars.get(name) {
            Some(v) => self.emit(Step::UseVar(v)),
            None => self.emit(Step::Word(7)),
        }
    }

    /// A call of a function by its symbol.
    fn translate_direct_call(&mut self, symbol: &str, vals: &Vec<usize>) -> (r: usize)
        ensures
            (final(self).model(), r) == direct_call(old(self).model(), symbol@, vals@),
            final(self).model().deferred == old(self).model().deferred,
    {
        proof {
            reveal(direct_call);
        }
        match self.func_at(symbol) {
            Some(i) => {
                assert(self.model().funcs[i as int] == self.funcs@[i as int].model());
                if self.funcs[i].own {
                    return self.call(i, vals);
                }
            },
            None => {},
        }
        match self.declare(symbol, vals.len() as u128, 1, false, true, false) {
            Some(i) => self.call(i, vals),
            None => {
                self.warn(Warning::Undeclared(symbol.to_owned(), vals.len()));
                self.emit(Step::Word(7))
            },
        }
    }

    fn translate_closure_call(&mut self, c: usize, vals: &Vec<usize>) -> (r: usize)
        ensures
            (final(self).model(), r) == closure_call(old(self).model(), c, vals@),
            final(self).model().deferred == old(self).model().deferred,
    {
        proof {
            reveal(closure_call);
        }
        let n = vals.len();
        if n > 3 {
            return self.emit(Step::Word(7));
        }
        let mut args: Vec<usize> = Vec::new();
        args.push(c);
        let mut i: usize = 0;
        while i < n
            invariant
                i <= n,
                n == vals@.len(),
                args@ == seq![c] + vals@.take(i as int),
            decreases n - i,
        {
            args.push(vals[i]);
            assert(args@ =~= seq![c] + vals@.take(i as int + 1));
            i = i + 1;
        }
        assert(vals@.take(n as int) =~= vals@);
        if n == 0 {
            self.runtime_call("lux_rt_apply0", &args)
        } else if n == 1 {
            self.runtime_call("lux_rt_apply1", &args)
        } else if n == 2 {
            self.runtime_call("lux_rt_apply2", &args)
        } else {
            self.runtime_call("lux_rt_apply3", &args)
        }
    }

    fn translate_tuple(&mut self, vals: &Vec<usize>) -> (r: usize)
        ensures
            (final(self).model(), r) == tuple(old(self).model(), vals@),
            final(self).model().deferred == old(self).model().deferred,
    {
        proof {
            reveal(tuple);
        }
        if vals.len() == 2 {
            return self.runtime_call("lux_rt_make_tuple2", vals);
        }
        if vals.len() == 3 {
            return self.runtime_call("lux_rt_make_tuple3", vals);
        }
        let ghost d = self.model().deferred;
        let slot = self.emit(Step::Slot((vals.len() as u128 * 8) as u32, 8));
        let ghost g1 = self.model();
        let mut i: usize = 0;
        while i < vals.len()
            invariant
                i <= vals@.len(),
                self.model() == stored_words(g1, slot, vals@.take(i as int)),
                self.model().deferred == d,
            decreases vals@.len() - i,
        {
            assert(vals@.take(i as int + 1).drop_last() =~= vals@.take(i as int));
            self.emit(Step::StackStore(vals[i], slot, (i as u128 * 8) as i32));
            i = i + 1;
        }
        assert(vals@.take(i as int) =~= vals@);
        let p = self.emit(Step::StackAddr(slot));
        let n = self.emit(Step::Word(vals.len() as i64));
        self.runtime_call2("lux_rt_make_tuple_n", n, p)
    }

    /// A new function that is defined later.
    fn defer(
        &mut self,
        symbol: &str,
        params: Vec<String>,
        captures: Vec<String>,
        body: CoreExpr,
        home: &str,
    ) -> (r: usize)
        ensures
            (final(self).model(), r) == deferred(
                old(self).model(),
                symbol@,
                (Lambda {
                    func: 0,
                    params: texts(params@),
                    captures: texts(captures@),
                    body: core_of(body),
                    home: home@,
                }),
            ),
            pending(final(self).model().deferred) <= pending(old(self).model().deferred) + 1
                + closures(core_of(body)),
    {
        proof {
            reveal(deferred);
        }
        let ghost g = self.model();
        self.lambda_counter = self.lambda_counter.next();
        match self.declare(symbol, params.len() as u128 + 1, 1, true, true, false) {
            Some(func) => {
                let l = DeferredLambda { func, params, captures, body, home: home.to_owned() };
                let ghost m = l.model();
                self.deferred_lambdas.push(l);
                assert(self.model().deferred =~= g.deferred.push(m));
                assert(g.deferred.push(m).drop_last() =~= g.deferred);
                func
            },
            None => self.stick(),
        }
    }

    /// A closure.
    fn translate_closure(
        &mut self,
        params: &Vec<String>,
        body: &CoreExpr,
        vars: &VarMap,
        home: &str,
    ) -> (r: usize)
        ensures
            (final(self).model(), r) == closure(
                old(self).model(),
                texts(params@),
                core_of(*body),
                vars.model(),
                home@,
            ),
            pending(final(self).model().deferred) <= pending(old(self).model().deferred) + 1
                + closures(core_of(*body)),
    {
        proof {
            reveal(closure);
        }
        let mut bound = dup_strings(params);
        bound.push("_".to_owned());
        assert(texts(bound@) =~= texts(params@).push("_"@));
        let mut captures: Vec<String> = Vec::new();
        assert(texts(captures@) =~= Seq::empty());
        free_vars_expr(body, &bound, &mut captures);
        let n = captures.len();
        let mut symbol = "lux_lambda_".to_owned();
        symbol.append(self.lambda_counter.text().as_str());
        let f = self.defer(
            symbol.as_str(),
            dup_strings(params),
            dup_strings(&captures),
            dup(body),
            home,
        );
        let ghost d = self.model().deferred;
        let fref = self.emit(Step::Import(f));
        let addr = self.emit(Step::FuncAddr(fref));
        let slot = self.emit(Step::Slot(((n as u128 + 2) * 8) as u32, 8));
        self.emit(Step::StackStore(addr, slot, 0));
        let count = self.emit(Step::Word(n as i64));
        self.emit(Step::StackStore(count, slot, 8));
        self.store_captures(slot, &captures, vars);
        let alloc = self.runtime_func("lux_alloc", 1, 1);
        let size = self.emit(Step::Word(((n as u128 + 2) * 8) as i64));
        let mut args: Vec<usize> = Vec::new();
        args.push(size);
        assert(args@ =~= seq![size]);
        let heap = self.call(alloc, &args);
        self.emit(Step::Store(addr, heap, 0));
        self.emit(Step::Store(count, heap, 8));
        self.heap_captures(heap, &captures, vars);
        self.emit(Step::BorImm(heap, 6))
    }

    fn store_captures(&mut self, slot: usize, captures: &Vec<String>, vars: &VarMap)
        ensures
            final(self).model() == stored_captures(
                old(self).model(),
                slot,
                texts(captures@),
                vars.model(),
            ),
            final(self).model().deferred == old(self).model().deferred,
    {
        let ghost g = self.model();
        let ghost names = texts(captures@);
        let mut i: usize = 0;
        while i < captures.len()
            invariant
                i <= captures@.len(),
                names == texts(captures@),
                self.model() == stored_captures(g, slot, names.take(i as int), vars.model()),
                self.model().deferred == g.deferred,
            decreases captures@.len() - i,
        {
            assert(names.take(i as int + 1).drop_last() =~= names.take(i as int));
            assert(names.take(i as int + 1).last() == captures@[i as int]@);
            let v = self.translate_var(vars, captures[i].as_str());
            self.emit(Step::StackStore(v, slot, (i as u128 * 8 + 16) as i32));
            i = i + 1;
        }
        assert(names.take(i as int) =~= names);
    }

    fn heap_captures(&mut self, heap: usize, captures: &Vec<String>, vars: &VarMap)
        ensures
            final(self).model() == heap_captures(
                old(self).model(),
                heap,
                texts(captures@),
                vars.model(),
            ),
            final(self).model().deferred == old(self).model().deferred,
    {
        let ghost g = self.model();
        let ghost names = texts(captures@);
        let mut i: usize = 0;
        while i < captures.len()
            invariant
                i <= captures@.len(),
                names == texts(captures@),
                self.model() == heap_captures(g, heap, names.take(i as int), vars.model()),
                self.model().deferred == g.deferred,
            decreases captures@.len() - i,
        {
            assert(names.take(i as int + 1).drop_last() =~= names.take(i as int));
            assert(names.take(i as int + 1).last() == captures@[i as int]@);
            let v = self.translate_var(vars, captures[i].as_str());
            self.emit(Step::Store(v, heap, (i as u128 * 8 + 16) as i32));
            i = i + 1;
        }
        assert(names.take(i as int) =~= names);
    }

    /// A closure for a named function.
    fn translate_fun_ref_closure(&mut self, module: &str, name: &str, arity: usize) -> (r: usize)
        ensures
            (final(self).model(), r) == fun_ref(
                old(self).model(),
                module@,
                name@,
                arity as nat,
            ),
            pending(final(self).model().deferred) <= pending(old(self).model().deferred) + 1,
    {
        proof {
            reveal(fun_ref);
        }
        let mut params: Vec<String> = Vec::new();
        let mut args: Vec<CoreExpr> = Vec::new();
        let mut i: usize = 0;
        assert(texts(params@) =~= forward_params(0));
        while i < arity
            invariant
                i <= arity,
                texts(params@) == forward_params(i as nat),
                args@.len() == i,
                cores_of(args@) == Seq::new(i as nat, |k: int| Core::Var(forward_params(arity as nat)[k])),
                closures_all(cores_of(args@)) == 0,
            decreases arity - i,
        {
            let mut p = "__fref_p".to_owned();
            push_usize(&mut p, i);
            let ghost before = args@;
            args.push(CoreExpr::Var(p.clone()));
            assert(args@.drop_last() =~= before);
            let ghost ps = texts(params@);
            params.push(p);
            assert(texts(params@) =~= ps.push(p@));
            assert(texts(params@) =~= forward_params(i as nat + 1));
            assert(p@ == forward_params(arity as nat)[i as int]);
            assert(core_of(args@.last()) == Core::Var(p@));
            assert(cores_of(args@) =~= cores_of(before).push(Core::Var(p@)));
            assert(cores_of(args@) =~= Seq::new(
                (i + 1) as nat,
                |k: int| Core::Var(forward_params(arity as nat)[k]),
            ));
            assert(cores_of(args@).drop_last() =~= cores_of(before));
            assert(closures(cores_of(args@).last()) == 0);
            i = i + 1;
        }
        let body = CoreExpr::Call(module.to_owned(), name.to_owned(), args);
        assert(core_of(body) == forward(module@, name@, arity as nat)) by {
            assert(cores_of(args@) =~= Seq::new(
                arity as nat,
                |k: int| Core::Var(forward_params(arity as nat)[k]),
            ));
        }
        let mut symbol = "lux_funref_wrap_".to_owned();
        symbol.append(self.lambda_counter.text().as_str());
        let none: Vec<String> = Vec::new();
        assert(texts(none@) =~= Seq::empty());
        let f = self.defer(symbol.as_str(), params, none, body, module);
        let fref = self.emit(Step::Import(f));
        let addr = self.emit(Step::FuncAddr(fref));
        let alloc = self.runtime_func("lux_alloc", 1, 1);
        let size = self.emit(Step::Word(16));
        let mut sizes: Vec<usize> = Vec::new();
        sizes.push(size);
        assert(sizes@ =~= seq![size]);
        let heap = self.call(alloc, &sizes);
        self.emit(Step::Store(addr, heap, 0));
        let zero = self.emit(Step::Word(0));
        self.emit(Step::Store(zero, heap, 8));
        self.emit(Step::BorImm(heap, 6))
    }

    /// The runtime function for a call into a library of the runtime.
    fn library_func(&self, module: &str, func: &str, n: usize) -> (r: Option<usize>)
        ensures
            r == library_func(self.model(), module@, func@, n as nat),
    {
        proof {
            reveal(library_func);
        }
        if same(module, "lists") || same(module, "string") || same(module, "maps") {
            let mut name = "lux_".to_owned();
            name.append(module);
            name.append("_");
            name.append(func);
            push_usize(&mut name, n);
            match self.func_at(name.as_str()) {
                Some(i) => {
                    assert(self.model().funcs[i as int] == self.funcs@[i as int].model());
                    if self.funcs[i].runtime {
                        Some(i)
                    } else {
                        None
                    }
                },
                None => None,
            }
        } else {
            None
        }
    }

    pub(crate) fn open(&mut self, block: usize)
        ensures
            final(self).model() == opened(old(self).model(), block),
            final(self).model().deferred == old(self).model().deferred,
    {
        proof {
            reveal(opened);
        }
        self.emit(Step::SwitchTo(block));
        self.emit(Step::Seal(block));
    }

    fn merge(&mut self, block: usize) -> (r: usize)
        ensures
            (final(self).model(), r) == merged(old(self).model(), block),
            final(self).model().deferred == old(self).model().deferred,
    {
        proof {
            reveal(merged);
        }
        self.open(block);
        self.emit(Step::Param(block, 0))
    }

    /// Opens a block of a clause and binds the variables of the pattern there.
    fn clause_scope(
        &mut self,
        block: usize,
        var: usize,
        patterns: &Vec<CorePattern>,
        vars: &VarMap,
    ) -> (r: VarMap)
        ensures
            (final(self).model(), r.model()) == clause_scope(
                old(self).model(),
                block,
                var,
                pats_of(patterns@),
                vars.model(),
            ),
            final(self).model().deferred == old(self).model().deferred,
    {
        proof {
            reveal(clause_scope);
        }
        proof {
            lemma_pats(patterns@);
        }
        self.open(block);
        let v = self.emit(Step::UseVar(var));
        let mut inner = vars.dup();
        if patterns.len() > 0 {
            self.bind_pattern_vars(v, &patterns[0], &mut inner);
        }
        inner
    }

    fn clause_test(
        &mut self,
        patterns: &Vec<CorePattern>,
        var: usize,
        test: usize,
        guard: usize,
        next: usize,
        Ghost(f): Ghost<Frame>,
        Ghost(i): Ghost<int>,
    )
        requires
            f.var == var,
            test == test_block(f, i),
            guard == guard_block(f, i),
            next == test_block(f, i + 1),
        ensures
            final(self).model() == clause_test(old(self).model(), f, i, pats_of(patterns@)),
            final(self).model().deferred == old(self).model().deferred,
    {
        proof {
            reveal(clause_test);
        }
        proof {
            lemma_pats(patterns@);
        }
        self.open(test);
        let v = self.emit(Step::UseVar(var));
        let c = if patterns.len() == 1 {
            self.translate_pattern_match(v, &patterns[0])
        } else {
            self.emit(Step::Byte(1))
        };
        self.emit(Step::Brif(c, guard, next));
    }

    /// The steps of an expression.
    pub(crate) fn translate_expr(&mut self, expr: &CoreExpr, vars: &mut VarMap, home: &str) -> (r: usize)
        ensures
            (final(self).model(), final(vars).model(), r) == native(
                core_of(*expr),
                old(self).model(),
                old(vars).model(),
                home@,
            ),
            pending(final(self).model().deferred) <= pending(old(self).model().deferred) + closures(
                core_of(*expr),
            ),
        decreases expr, 1nat,
    {
        match expr {
            CoreExpr::Lit(l) => self.translate_lit(l),
            CoreExpr::Var(name) => self.translate_var(vars, name.as_str()),
            CoreExpr::Let(bindings, body) => {
                self.translate_bindings(bindings, vars, home);
                self.translate_expr(body, vars, home)
            },
            CoreExpr::Sequence(a, b) => {
                self.translate_expr(a, vars, home);
                self.translate_expr(b, vars, home)
            },
            CoreExpr::Call(_, _, _) => self.translate_call(expr, vars, home),
            CoreExpr::Apply(_, _) => self.translate_apply(expr, vars, home),
            CoreExpr::Case(_, _) => self.translate_case(expr, vars, home),
            CoreExpr::Tuple(items) => {
                let vals = self.translate_exprs(items, vars, home);
                self.translate_tuple(&vals)
            },
            CoreExpr::List(items, tail) => {
                let end = self.translate_expr(tail, vars, home);
                self.translate_onto(items, vars, home, end)
            },
            CoreExpr::Cons(h, t) => {
                let x = self.translate_expr(h, vars, home);
                let y = self.translate_expr(t, vars, home);
                self.runtime_call2("lux_rt_make_cons", x, y)
            },
            CoreExpr::LocalFunRef(name, arity) => {
                self.translate_fun_ref_closure(home, name.as_str(), *arity)
            },
            CoreExpr::RemoteFunRef(module, name, arity) => {
                self.translate_fun_ref_closure(module.as_str(), name.as_str(), *arity)
            },
            CoreExpr::Fun(params, body) => self.translate_closure(params, body, vars, home),
            CoreExpr::MapLit(_) => self.translate_map(expr, vars, home),
            CoreExpr::Binary(_) => self.translate_binary(expr, vars, home),
            CoreExpr::Primop(_, _) => self.translate_primop(expr, vars, home),
            CoreExpr::Try { .. } => self.translate_try(expr, vars, home),
            CoreExpr::Receive { .. } => self.emit(Step::Word(7)),
        }
    }

    fn translate_exprs(&mut self, v: &Vec<CoreExpr>, vars: &mut VarMap, home: &str) -> (r: Vec<
        usize,
    >)
        ensures
            (final(self).model(), final(vars).model(), r@) == native_all(
                cores_of(v@),
                old(self).model(),
                old(vars).model(),
                home@,
            ),
            r@.len() == v@.len(),
            pending(final(self).model().deferred) <= pending(old(self).model().deferred)
                + closures_all(cores_of(v@)),
        decreases v, 0nat,
    {
        let ghost g = self.model();
        let ghost vs = vars.model();
        let mut out: Vec<usize> = Vec::new();
        let mut i: usize = 0;
        while i < v.len()
            invariant
                i <= v@.len(),
                out@.len() == i,
                (self.model(), vars.model(), out@) == native_all(
                    cores_of(v@.take(i as int)),
                    g,
                    vs,
                    home@,
                ),
                pending(self.model().deferred) <= pending(g.deferred) + closures_all(
                    cores_of(v@.take(i as int)),
                ),
            decreases v@.len() - i,
        {
            assert(v@.take(i as int + 1).drop_last() =~= v@.take(i as int));
            assert(cores_of(v@.take(i as int + 1)).drop_last() =~= cores_of(v@.take(i as int)));
            let x = self.translate_expr(&v[i], vars, home);
            out.push(x);
            i = i + 1;
        }
        assert(v@.take(i as int) =~= v@);
        out
    }

    fn translate_onto(
        &mut self,
        v: &Vec<CoreExpr>,
        vars: &mut VarMap,
        home: &str,
        end: usize,
    ) -> (r: usize)
        ensures
            (final(self).model(), final(vars).model(), r) == native_onto(
                cores_of(v@),
                old(self).model(),
                old(vars).model(),
                home@,
                end,
            ),
            pending(final(self).model().deferred) <= pending(old(self).model().deferred)
                + closures_all(cores_of(v@)),
        decreases v, 0nat,
    {
        let ghost g = self.model();
        let ghost vs = vars.model();
        let mut acc = end;
        let mut i: usize = v.len();
        assert(v@.take(i as int) =~= v@);
        while i > 0
            invariant
                i <= v@.len(),
                native_onto(cores_of(v@), g, vs, home@, end) == native_onto(
                    cores_of(v@.take(i as int)),
                    self.model(),
                    vars.model(),
                    home@,
                    acc,
                ),
                pending(self.model().deferred) + closures_all(cores_of(v@.take(i as int)))
                    <= pending(g.deferred) + closures_all(cores_of(v@)),
            decreases i,
        {
            i = i - 1;
            assert(v@.take(i as int + 1).drop_last() =~= v@.take(i as int));
            assert(cores_of(v@.take(i as int + 1)).drop_last() =~= cores_of(v@.take(i as int)));
            let x = self.translate_expr(&v[i], vars, home);
            acc = self.runtime_call2("lux_rt_make_cons", x, acc);
        }
        acc
    }

    fn translate_bindings(&mut self, v: &Vec<(String, CoreExpr)>, vars: &mut VarMap, home: &str)
        ensures
            (final(self).model(), final(vars).model()) == native_bindings(
                bindings_of(v@),
                old(self).model(),
                old(vars).model(),
                home@,
            ),
            pending(final(self).model().deferred) <= pending(old(self).model().deferred)
                + closures_bindings(bindings_of(v@)),
        decreases v, 0nat,
    {
        let ghost g = self.model();
        let ghost vs = vars.model();
        let mut i: usize = 0;
        while i < v.len()
            invariant
                i <= v@.len(),
                (self.model(), vars.model()) == native_bindings(
                    bindings_of(v@.take(i as int)),
                    g,
                    vs,
                    home@,
                ),
                pending(self.model().deferred) <= pending(g.deferred) + closures_bindings(
                    bindings_of(v@.take(i as int)),
                ),
            decreases v@.len() - i,
        {
            assert(v@.take(i as int + 1).drop_last() =~= v@.take(i as int));
            assert(bindings_of(v@.take(i as int + 1)).drop_last() =~= bindings_of(
                v@.take(i as int),
            ));
            let x = self.translate_expr(&v[i].1, vars, home);
            self.bind_var(vars, v[i].0.as_str(), x);
            i = i + 1;
        }
        assert(v@.take(i as int) =~= v@);
    }

    fn translate_call(&mut self, expr: &CoreExpr, vars: &mut VarMap, home: &str) -> (r: usize)
        requires
            expr is Call,
        ensures
            (final(self).model(), final(vars).model(), r) == native(
                core_of(*expr),
                old(self).model(),
                old(vars).model(),
                home@,
            ),
            pending(final(self).model().deferred) <= pending(old(self).model().deferred) + closures(
                core_of(*expr),
            ),
        decreases expr, 0nat,
    {
        let (module, func, args) = match expr {
            CoreExpr::Call(module, func, args) => (module, func, args),
            _ => {
                assert(false);
                return 0;
            },
        };
        proof {
            lemma_cores(args@);
        }
        let library = self.library_func(module.as_str(), func.as_str(), args.len());
        let vals = self.translate_exprs(args, vars, home);
        if same(module.as_str(), "erlang") {
            self.translate_erlang_bif(func.as_str(), &vals)
        } else if same(module.as_str(), "io") && same(func.as_str(), "format") {
            if args.len() == 2 {
                self.runtime_call("lux_rt_io_format", &vals)
            } else {
                self.emit(Step::Word(7))
            }
        } else if same(module.as_str(), "io_lib") && same(func.as_str(), "format") && args.len()
            == 2 {
            self.runtime_call("lux_rt_io_lib_format", &vals)
        } else {
            match library {
                Some(f) => self.call(f, &vals),
                None => {
                    let symbol = mangle_symbol(module.as_str(), func.as_str(), args.len());
                    self.translate_direct_call(symbol.as_str(), &vals)
                },
            }
        }
    }

    fn translate_apply(&mut self, expr: &CoreExpr, vars: &mut VarMap, home: &str) -> (r: usize)
        requires
            expr is Apply,
        ensures
            (final(self).model(), final(vars).model(), r) == native(
                core_of(*expr),
                old(self).model(),
                old(vars).model(),
                home@,
            ),
            pending(final(self).model().deferred) <= pending(old(self).model().deferred) + closures(
                core_of(*expr),
            ),
        decreases expr, 0nat,
    {
        let (f, args) = match expr {
            CoreExpr::Apply(f, args) => (f, args),
            _ => {
                assert(false);
                return 0;
            },
        };
        proof {
            lemma_cores(args@);
        }
        match &**f {
            CoreExpr::LocalFunRef(name, _) => {
                let vals = self.translate_exprs(args, vars, home);
                let symbol = mangle_symbol(home, name.as_str(), args.len());
                self.translate_direct_call(symbol.as_str(), &vals)
            },
            CoreExpr::RemoteFunRef(module, name, _) => {
                let vals = self.translate_exprs(args, vars, home);
                let symbol = mangle_symbol(module.as_str(), name.as_str(), args.len());
                self.translate_direct_call(symbol.as_str(), &vals)
            },
            _ => {
                assert(!(core_of(**f) is LocalFunRef) && !(core_of(**f) is RemoteFunRef));
                let c = self.translate_expr(f, vars, home);
                let vals = self.translate_exprs(args, vars, home);
                self.translate_closure_call(c, &vals)
            },
        }
    }

    fn translate_map(&mut self, expr: &CoreExpr, vars: &mut VarMap, home: &str) -> (r: usize)
        requires
            expr is MapLit,
        ensures
            (final(self).model(), final(vars).model(), r) == native(
                core_of(*expr),
                old(self).model(),
                old(vars).model(),
                home@,
            ),
            pending(final(self).model().deferred) <= pending(old(self).model().deferred) + closures(
                core_of(*expr),
            ),
        decreases expr, 0nat,
    {
        let entries = match expr {
            CoreExpr::MapLit(entries) => entries,
            _ => {
                assert(false);
                return 0;
            },
        };
        proof {
            lemma_entries(entries@);
        }
        if entries.len() == 0 {
            let zero = self.emit(Step::Word(0));
            let null = self.emit(Step::Word(0));
            return self.runtime_call3("lux_rt_make_map", zero, null, null);
        }
        let size = (entries.len() as u128 * 8) as u32;
        let keys = self.emit(Step::Slot(size, 8));
        let values = self.emit(Step::Slot(size, 8));
        self.translate_entries(entries, vars, home, keys, values);
        let p = self.emit(Step::StackAddr(keys));
        let q = self.emit(Step::StackAddr(values));
        let k = self.emit(Step::Word(entries.len() as i64));
        self.runtime_call3("lux_rt_make_map", k, p, q)
    }

    fn translate_entries(
        &mut self,
        v: &Vec<(CoreExpr, CoreExpr)>,
        vars: &mut VarMap,
        home: &str,
        keys: usize,
        values: usize,
    )
        ensures
            (final(self).model(), final(vars).model()) == native_entries(
                entries_of(v@),
                old(self).model(),
                old(vars).model(),
                home@,
                keys,
                values,
            ),
            pending(final(self).model().deferred) <= pending(old(self).model().deferred)
                + closures_entries(entries_of(v@)),
        decreases v, 0nat,
    {
        let ghost g = self.model();
        let ghost vs = vars.model();
        let mut i: usize = 0;
        while i < v.len()
            invariant
                i <= v@.len(),
                (self.model(), vars.model()) == native_entries(
                    entries_of(v@.take(i as int)),
                    g,
                    vs,
                    home@,
                    keys,
                    values,
                ),
                pending(self.model().deferred) <= pending(g.deferred) + closures_entries(
                    entries_of(v@.take(i as int)),
                ),
            decreases v@.len() - i,
        {
            assert(v@.take(i as int + 1).drop_last() =~= v@.take(i as int));
            assert(entries_of(v@.take(i as int + 1)).drop_last() =~= entries_of(
                v@.take(i as int),
            ));
            proof {
                lemma_entries(v@.take(i as int + 1));
            }
            let k = self.translate_expr(&v[i].0, vars, home);
            let x = self.translate_expr(&v[i].1, vars, home);
            let offset = (i as u128 * 8) as i32;
            self.emit(Step::StackStore(k, keys, offset));
            self.emit(Step::StackStore(x, values, offset));
            i = i + 1;
        }
        assert(v@.take(i as int) =~= v@);
    }

    fn translate_binary(&mut self, expr: &CoreExpr, vars: &mut VarMap, home: &str) -> (r: usize)
        requires
            expr is Binary,
        ensures
            (final(self).model(), final(vars).model(), r) == native(
                core_of(*expr),
                old(self).model(),
                old(vars).model(),
                home@,
            ),
            pending(final(self).model().deferred) <= pending(old(self).model().deferred) + closures(
                core_of(*expr),
            ),
        decreases expr, 0nat,
    {
        let segments = match expr {
            CoreExpr::Binary(segments) => segments,
            _ => {
                assert(false);
                return 0;
            },
        };
        proof {
            lemma_segments(segments@);
        }
        if whole_segments(segments) && segments.len() >= 2 {
            return self.translate_concat(segments, vars, home);
        }
        match known_bytes(segments) {
            Some(bytes) => {
                if segments.len() > 0 {
                    return self.bytes_string(&bytes);
                }
            },
            None => {},
        }
        if segments.len() == 0 {
            let p = self.emit(Step::Word(0));
            let n = self.emit(Step::Word(0));
            return self.runtime_call2("lux_rt_make_string", p, n);
        }
        let n = if segments.len() < 256 {
            segments.len()
        } else {
            256
        };
        let slot = self.emit(Step::Slot((n + 1) as u32, 0));
        self.translate_segments(segments, n, vars, home, slot);
        self.string_in(slot, n)
    }

    fn translate_concat(
        &mut self,
        v: &Vec<CoreBinarySegment>,
        vars: &mut VarMap,
        home: &str,
    ) -> (r: usize)
        requires
            v@.len() >= 1,
        ensures
            (final(self).model(), final(vars).model(), r) == native_concat(
                segments_of(v@),
                old(self).model(),
                old(vars).model(),
                home@,
            ),
            pending(final(self).model().deferred) <= pending(old(self).model().deferred)
                + closures_segments(segments_of(v@)),
        decreases v, 0nat,
    {
        let ghost g = self.model();
        let ghost vs = vars.model();
        proof {
            lemma_segments(v@.take(1));
            assert(segments_of(v@.take(1)).drop_last() =~= Seq::empty());
        }
        let mut acc = self.translate_expr(&v[0].value, vars, home);
        let mut i: usize = 1;
        while i < v.len()
            invariant
                1 <= i <= v@.len(),
                (self.model(), vars.model(), acc) == native_concat(
                    segments_of(v@.take(i as int)),
                    g,
                    vs,
                    home@,
                ),
                pending(self.model().deferred) <= pending(g.deferred) + closures_segments(
                    segments_of(v@.take(i as int)),
                ),
            decreases v@.len() - i,
        {
            assert(v@.take(i as int + 1).drop_last() =~= v@.take(i as int));
            assert(segments_of(v@.take(i as int + 1)).drop_last() =~= segments_of(
                v@.take(i as int),
            ));
            proof {
                lemma_segments(v@.take(i as int + 1));
            }
            let y = self.translate_expr(&v[i].value, vars, home);
            acc = self.runtime_call2("lux_rt_string_concat", acc, y);
            i = i + 1;
        }
        assert(v@.take(i as int) =~= v@);
        acc
    }

    fn translate_segments(
        &mut self,
        v: &Vec<CoreBinarySegment>,
        n: usize,
        vars: &mut VarMap,
        home: &str,
        slot: usize,
    )
        ensures
            (final(self).model(), final(vars).model()) == native_segments(
                segments_of(v@),
                n as nat,
                old(self).model(),
                old(vars).model(),
                home@,
                slot,
            ),
            pending(final(self).model().deferred) <= pending(old(self).model().deferred)
                + closures_segments(segments_of(v@)),
        decreases v, 0nat,
    {
        let ghost g = self.model();
        let ghost vs = vars.model();
        let mut i: usize = 0;
        while i < v.len()
            invariant
                i <= v@.len(),
                (self.model(), vars.model()) == native_segments(
                    segments_of(v@.take(i as int)),
                    n as nat,
                    g,
                    vs,
                    home@,
                    slot,
                ),
                pending(self.model().deferred) <= pending(g.deferred) + closures_segments(
                    segments_of(v@.take(i as int)),
                ),
            decreases v@.len() - i,
        {
            assert(v@.take(i as int + 1).drop_last() =~= v@.take(i as int));
            assert(segments_of(v@.take(i as int + 1)).drop_last() =~= segments_of(
                v@.take(i as int),
            ));
            proof {
                lemma_segments(v@.take(i as int + 1));
            }
            if i < n {
                let x = self.translate_expr(&v[i].value, vars, home);
                let word = self.emit(Step::SshrImm(x, 3));
                let byte = self.emit(Step::Reduce(word));
                self.emit(Step::StackStore(byte, slot, i as i32));
            }
            i = i + 1;
        }
        assert(v@.take(i as int) =~= v@);
    }

    fn translate_primop(&mut self, expr: &CoreExpr, vars: &mut VarMap, home: &str) -> (r: usize)
        requires
            expr is Primop,
        ensures
            (final(self).model(), final(vars).model(), r) == native(
                core_of(*expr),
                old(self).model(),
                old(vars).model(),
                home@,
            ),
            pending(final(self).model().deferred) <= pending(old(self).model().deferred) + closures(
                core_of(*expr),
            ),
        decreases expr, 0nat,
    {
        let (op, args) = match expr {
            CoreExpr::Primop(op, args) => (op, args),
            _ => {
                assert(false);
                return 0;
            },
        };
        proof {
            lemma_cores(args@);
        }
        if same(op.as_str(), "match_fail") || same(op.as_str(), "case_clause") {
            let none: Vec<usize> = Vec::new();
            assert(none@ =~= Seq::empty());
            self.runtime_raise("lux_rt_match_error", &none);
            self.emit(Step::Trap);
            let block = self.emit(Step::CreateBlock);
            self.open(block);
            self.emit(Step::Word(7))
        } else if same(op.as_str(), "send") && args.len() >= 2 {
            proof {
                lemma_closures_at(cores_of(args@), 1);
            }
            self.translate_expr(&args[1], vars, home)
        } else {
            self.emit(Step::Word(7))
        }
    }

    fn translate_try(&mut self, expr: &CoreExpr, vars: &mut VarMap, home: &str) -> (r: usize)
        requires
            expr is Try,
        ensures
            (final(self).model(), final(vars).model(), r) == native(
                core_of(*expr),
                old(self).model(),
                old(vars).model(),
                home@,
            ),
            pending(final(self).model().deferred) <= pending(old(self).model().deferred) + closures(
                core_of(*expr),
            ),
        decreases expr, 0nat,
    {
        let (body, names, handler, errors, catch) = match expr {
            CoreExpr::Try { body, vars: names, handler, evars: errors, catch } => (
                body,
                names,
                handler,
                errors,
                catch,
            ),
            _ => {
                assert(false);
                return 0;
            },
        };
        let none: Vec<String> = Vec::new();
        assert(texts(none@) =~= Seq::empty());
        let c = self.translate_closure(&none, body, vars, home);
        let outcome = self.runtime_call1("lux_rt_try_call", c);
        let (value, good, bad, merge) = self.try_start(outcome);
        self.open(good);
        if names.len() > 0 {
            self.bind_var(vars, names[0].as_str(), value);
        }
        let x = self.translate_expr(handler, vars, home);
        self.emit(Step::JumpWith(merge, x));
        self.open(bad);
        let nil = self.emit(Step::Word(7));
        self.error_vars(vars, errors, nil, value);
        let y = self.translate_expr(catch, vars, home);
        self.emit(Step::JumpWith(merge, y));
        self.merge(merge)
    }

    fn try_start(&mut self, outcome: usize) -> (r: (usize, usize, usize, usize))
        ensures
            (final(self).model(), r.0, r.1, r.2, r.3) == try_start(old(self).model(), outcome),
            final(self).model().deferred == old(self).model().deferred,
    {
        proof {
            reveal(try_start);
        }
        let kind = self.load_behind(outcome, 8);
        let value = self.load_behind(outcome, 16);
        let i = self.intern_atom("ok");
        let ok = self.emit(Step::Word(((i as i64) << 3) | 3));
        let c = self.emit(Step::Equal(kind, ok));
        let good = self.emit(Step::CreateBlock);
        let bad = self.emit(Step::CreateBlock);
        let merge = self.emit(Step::CreateBlock);
        self.emit(Step::AddParam(merge));
        self.emit(Step::Brif(c, good, bad));
        (value, good, bad, merge)
    }

    fn error_vars(&mut self, vars: &mut VarMap, names: &Vec<String>, nil: usize, value: usize)
        ensures
            (final(self).model(), final(vars).model()) == error_vars(
                old(self).model(),
                old(vars).model(),
                texts(names@),
                nil,
                value,
            ),
            final(self).model().deferred == old(self).model().deferred,
    {
        let ghost g = self.model();
        let ghost vs = vars.model();
        let ghost all = texts(names@);
        let mut i: usize = 0;
        while i < names.len()
            invariant
                i <= names@.len(),
                all == texts(names@),
                (self.model(), vars.model()) == error_vars(g, vs, all.take(i as int), nil, value),
                self.model().deferred == g.deferred,
            decreases names@.len() - i,
        {
            assert(all.take(i as int + 1).drop_last() =~= all.take(i as int));
            assert(all.take(i as int + 1).last() == names@[i as int]@);
            let x = if i == 1 {
                value
            } else {
                nil
            };
            self.bind_var(vars, names[i].as_str(), x);
            i = i + 1;
        }
        assert(all.take(i as int) =~= all);
    }

    fn translate_case(&mut self, expr: &CoreExpr, vars: &mut VarMap, home: &str) -> (r: usize)
        requires
            expr is Case,
        ensures
            (final(self).model(), final(vars).model(), r) == native(
                core_of(*expr),
                old(self).model(),
                old(vars).model(),
                home@,
            ),
            pending(final(self).model().deferred) <= pending(old(self).model().deferred) + closures(
                core_of(*expr),
            ),
        decreases expr, 0nat,
    {
        let (scrutinee, clauses) = match expr {
            CoreExpr::Case(scrutinee, clauses) => (scrutinee, clauses),
            _ => {
                assert(false);
                return 0;
            },
        };
        proof {
            lemma_clauses(clauses@);
        }
        let value = self.translate_expr(scrutinee, vars, home);
        let ghost g1 = self.model();
        let (var, merge, tests) = self.case_start(value, clauses.len());
        let ghost f = case_start(g1, value, clauses@.len()).1;
        self.translate_clauses(clauses, vars, home, var, merge, &tests, Ghost(f));
        let fail = tests[clauses.len()].0;
        self.case_failure(fail, var, Ghost(f));
        self.merge(merge)
    }

    fn case_failure(&mut self, fail: usize, var: usize, Ghost(f): Ghost<Frame>)
        requires
            f.var == var,
            fail == test_block(f, f.count as int),
        ensures
            final(self).model() == case_failure(old(self).model(), f),
            final(self).model().deferred == old(self).model().deferred,
    {
        proof {
            reveal(case_failure);
        }
        self.open(fail);
        let v = self.emit(Step::UseVar(var));
        let mut args: Vec<usize> = Vec::new();
        args.push(v);
        assert(args@ =~= seq![v]);
        self.runtime_raise("lux_rt_case_clause_error", &args);
        self.emit(Step::Trap);
    }

    /// The start of a `case`: the variable, the block behind, and the blocks of
    /// each clause, with the block for the failure last.
    fn case_start(&mut self, value: usize, n: usize) -> (r: (usize, usize, Vec<(usize, usize, usize)>))
        ensures
            final(self).model() == case_start(old(self).model(), value, n as nat).0,
            final(self).model().deferred == old(self).model().deferred,
            ({
                let f = case_start(old(self).model(), value, n as nat).1;
                &&& r.0 == f.var
                &&& r.1 == f.merge
                &&& f.count == n
                &&& r.2@.len() == n + 1
                &&& forall|k: int| 0 <= k <= n ==> (#[trigger] r.2@[k]).0 == test_block(f, k)
                &&& forall|k: int|
                    0 <= k < n ==> (#[trigger] r.2@[k]).1 == guard_block(f, k) && r.2@[k].2
                        == body_block(f, k)
            }),
    {
        proof {
            reveal(case_start);
            reveal(emit);
        }
        let ghost d = self.model().deferred;
        let var = self.emit(Step::DeclareVar);
        self.emit(Step::DefVar(var, value));
        let merge = self.emit(Step::CreateBlock);
        self.emit(Step::AddParam(merge));
        let ghost g4 = self.model();
        let ghost f = Frame { var, merge, first: g4.steps.len(), count: n as nat };
        let mut out: Vec<(usize, usize, usize)> = Vec::new();
        let mut i: usize = 0;
        while i < n
            invariant
                i <= n,
                f.first == g4.steps.len(),
                self.model() == blocks(g4, 3 * (i as nat)),
                self.model().steps.len() == f.first + 3 * i,
                self.model().deferred == d,
                out@.len() == i,
                forall|k: int|
                    0 <= k < i ==> (#[trigger] out@[k]).0 == test_block(f, k) && out@[k].1
                        == guard_block(f, k) && out@[k].2 == body_block(f, k),
            decreases n - i,
        {
            proof {
                reveal(emit);
            }
            let a = self.emit(Step::CreateBlock);
            assert(self.model() == blocks(g4, 3 * (i as nat) + 1));
            let b = self.emit(Step::CreateBlock);
            assert(self.model() == blocks(g4, 3 * (i as nat) + 2));
            let c = self.emit(Step::CreateBlock);
            assert(self.model() == blocks(g4, 3 * (i as nat) + 3));
            out.push((a, b, c));
            i = i + 1;
        }
        let fail = self.emit(Step::CreateBlock);
        assert(self.model() == blocks(g4, 3 * (n as nat) + 1));
        out.push((fail, fail, fail));
        let first = out[0].0;
        self.emit(Step::Jump(first));
        (var, merge, out)
    }

    fn translate_clauses(
        &mut self,
        v: &Vec<CoreClause>,
        vars: &VarMap,
        home: &str,
        var: usize,
        merge: usize,
        places: &Vec<(usize, usize, usize)>,
        Ghost(f): Ghost<Frame>,
    )
        requires
            f.var == var,
            f.merge == merge,
            places@.len() == v@.len() + 1,
            forall|k: int| 0 <= k <= v@.len() ==> (#[trigger] places@[k]).0 == test_block(f, k),
            forall|k: int|
                0 <= k < v@.len() ==> (#[trigger] places@[k]).1 == guard_block(f, k) && places@[k].2
                    == body_block(f, k),
        ensures
            final(self).model() == native_clauses(
                clauses_of(v@),
                old(self).model(),
                vars.model(),
                home@,
                f,
            ),
            pending(final(self).model().deferred) <= pending(old(self).model().deferred)
                + closures_clauses(clauses_of(v@)),
        decreases v, 0nat,
    {
        let ghost g = self.model();
        let mut i: usize = 0;
        while i < v.len()
            invariant
                i <= v@.len(),
                f.var == var,
                f.merge == merge,
                places@.len() == v@.len() + 1,
                forall|k: int| 0 <= k <= v@.len() ==> (#[trigger] places@[k]).0 == test_block(f, k),
                forall|k: int|
                    0 <= k < v@.len() ==> (#[trigger] places@[k]).1 == guard_block(f, k)
                        && places@[k].2 == body_block(f, k),
                self.model() == native_clauses(
                    clauses_of(v@.take(i as int)),
                    g,
                    vars.model(),
                    home@,
                    f,
                ),
                pending(self.model().deferred) <= pending(g.deferred) + closures_clauses(
                    clauses_of(v@.take(i as int)),
                ),
            decreases v@.len() - i,
        {
            assert(v@.take(i as int + 1).drop_last() =~= v@.take(i as int));
            assert(clauses_of(v@.take(i as int + 1)).drop_last() =~= clauses_of(
                v@.take(i as int),
            ));
            proof {
                lemma_clauses(v@.take(i as int + 1));
                assert(places@[i as int].0 == test_block(f, i as int));
                assert(places@[i as int + 1].0 == test_block(f, i as int + 1));
            }
            let (test, guard, body) = places[i];
            let next = places[i + 1].0;
            self.translate_clause(
                &v[i],
                vars,
                home,
                var,
                merge,
                (test, guard, body, next),
                Ghost(f),
                Ghost(i as int),
            );
            i = i + 1;
        }
        assert(v@.take(i as int) =~= v@);
    }

    fn translate_clause(
        &mut self,
        clause: &CoreClause,
        vars: &VarMap,
        home: &str,
        var: usize,
        merge: usize,
        at: (usize, usize, usize, usize),
        Ghost(f): Ghost<Frame>,
        Ghost(i): Ghost<int>,
    )
        requires
            f.var == var,
            f.merge == merge,
            at.0 == test_block(f, i),
            at.1 == guard_block(f, i),
            at.2 == body_block(f, i),
            at.3 == test_block(f, i + 1),
        ensures
            final(self).model() == native_clause(
                clause_of(*clause),
                i,
                old(self).model(),
                vars.model(),
                home@,
                f,
            ),
            pending(final(self).model().deferred) <= pending(old(self).model().deferred)
                + closures_clause(clause_of(*clause)),
        decreases clause, 0nat,
    {
        let (test, guard, body, next) = at;
        self.clause_test(&clause.patterns, var, test, guard, next, Ghost(f), Ghost(i));
        let mut guard_vars = self.clause_scope(guard, var, &clause.patterns, vars);
        if is_always(&clause.guard) {
            self.emit(Step::Jump(body));
        } else {
            let v = self.translate_expr(&clause.guard, &mut guard_vars, home);
            let t = self.emit(Step::EqualImm(v, 3));
            self.emit(Step::Brif(t, body, next));
        }
        let mut body_vars = self.clause_scope(body, var, &clause.patterns, vars);
        let r = self.translate_expr(&clause.body, &mut body_vars, home);
        self.emit(Step::JumpWith(merge, r));
    }
}

} // verus!
