//! Building the steps of functions.
use vstd::prelude::*;
use crate::erlang::{core_of, lit_of, pat_of, pats_of, CoreExpr, CoreLit, CorePattern};
use crate::hash_pass::place_of;
use crate::native::{
    bif, bif_needs, bif_one, bif_runtime, bif_two, bit_operation, bound_var, bytes_string, call,
    chosen, declared, emit, flipped, float_lit, func_at, has_tag, interned, is_boxed, is_boxed_with,
    is_var, kind_test, lit, lit_word, loaded, mangled, pattern_binds, pattern_test, pattern_tests,
    patterns_bind, raised, runtime_call, runtime_func, runtime_raise, safe_pointer, safe_words,
    stick, stored_bytes, string_in, string_lit, symbol_chars, tag, truth, untag, var_of, warned,
    with_args, zeroed, Caution, Decl, Gen, Lambda, Step, Vars,
};
use crate::text::{chars_of, holds, push_usize, same, texts, with_new, Counter};

verus! {

/// Whether Unicode makes a character a letter or a number.
pub uninterp spec fn unicode_alphanumeric(c: char) -> bool;

/// [`char::is_alphanumeric`]: whether a character is a letter or a number by
/// its Unicode properties. Of ASCII these are letters and digits; the rest of the
/// table is not written out here.
pub assume_specification[ char::is_alphanumeric ](c: char) -> (r: bool)
    ensures
        r == unicode_alphanumeric(c),
        c as u32 <= 127 ==> r == (('0' <= c && c <= '9') || ('A' <= c && c <= 'Z') || ('a' <= c
            && c <= 'z')),
;

/// Whether a character is a letter or a number.
pub open spec fn char_is_alphanumeric(c: char) -> bool {
    if c as u32 <= 127 {
        ('0' <= c && c <= '9') || ('A' <= c && c <= 'Z') || ('a' <= c && c <= 'z')
    } else {
        unicode_alphanumeric(c)
    }
}

/// A declared function.
#[derive(Debug)]
pub struct FuncDecl {
    pub symbol: String,
    pub params: u128,
    pub results: usize,
    pub export: bool,
    pub own: bool,
    pub runtime: bool,
}

impl FuncDecl {
    pub open spec fn model(self) -> Decl {
        Decl {
            symbol: self.symbol@,
            params: self.params as nat,
            results: self.results as nat,
            export: self.export,
            own: self.own,
            runtime: self.runtime,
        }
    }
}

/// A function whose body is still to be translated.
#[derive(Debug)]
pub struct DeferredLambda {
    pub func: usize,
    /// The parameters behind the closure itself.
    pub params: Vec<String>,
    pub captures: Vec<String>,
    pub body: CoreExpr,
    pub home: String,
}

impl DeferredLambda {
    pub open spec fn model(self) -> Lambda {
        Lambda {
            func: self.func,
            params: texts(self.params@),
            captures: texts(self.captures@),
            body: core_of(self.body),
            home: self.home@,
        }
    }
}

pub open spec fn decls_of(v: Seq<FuncDecl>) -> Seq<Decl> {
    Seq::new(v.len(), |i: int| v[i].model())
}

pub open spec fn lambdas_of(v: Seq<DeferredLambda>) -> Seq<Lambda> {
    Seq::new(v.len(), |i: int| v[i].model())
}

/// The variables in scope.
pub struct VarMap {
    entries: Vec<(String, usize)>,
}

impl VarMap {
    pub closed spec fn model(self) -> Vars {
        Seq::new(self.entries@.len(), |i: int| (self.entries@[i].0@, self.entries@[i].1))
    }

    pub fn new() -> (r: Self)
        ensures
            r.model() == Vars::empty(),
    {
        let r = VarMap { entries: Vec::new() };
        assert(r.model() =~= Seq::empty());
        r
    }

    pub fn dup(&self) -> (r: Self)
        ensures
            r.model() == self.model(),
    {
        let mut out: Vec<(String, usize)> = Vec::new();
        let mut i: usize = 0;
        while i < self.entries.len()
            invariant
                i <= self.entries@.len(),
                out@.len() == i,
                forall|k: int|
                    0 <= k < i ==> (#[trigger] out@[k]).0@ == self.entries@[k].0@ && out@[k].1
                        == self.entries@[k].1,
            decreases self.entries@.len() - i,
        {
            out.push((self.entries[i].0.clone(), self.entries[i].1));
            i = i + 1;
        }
        let r = VarMap { entries: out };
        assert(r.model() =~= self.model());
        r
    }

    pub fn insert(&mut self, name: &str, var: usize)
        ensures
            final(self).model() == old(self).model().push((name@, var)),
    {
        self.entries.push((name.to_owned(), var));
        assert(self.model() =~= old(self).model().push((name@, var)));
    }

    pub fn get(&self, name: &str) -> (r: Option<usize>)
        ensures
            r == var_of(self.model(), name@),
    {
        let ghost all = self.model();
        let mut i: usize = self.entries.len();
        assert(all.take(i as int) =~= all);
        while i > 0
            invariant
                i <= self.entries@.len(),
                all == self.model(),
                var_of(all, name@) == var_of(all.take(i as int), name@),
            decreases i,
        {
            i = i - 1;
            assert(all.take(i as int + 1).drop_last() =~= all.take(i as int));
            if same(self.entries[i].0.as_str(), name) {
                return Some(self.entries[i].1);
            }
        }
        None
    }
}

/// What a translation warns of.
#[derive(Debug)]
pub enum Warning {
    /// A built-in function of `erlang` that the runtime does not have, and the
    /// number of arguments.
    Unsupported(String, usize),
    /// A symbol that is in use with another signature than the one with this
    /// number of parameters.
    Undeclared(String, usize),
}

impl Warning {
    pub open spec fn model(self) -> Caution {
        match self {
            Warning::Unsupported(func, arity) => Caution::Unsupported(func@, arity as nat),
            Warning::Undeclared(symbol, params) => Caution::Undeclared(symbol@, params as nat),
        }
    }
}

pub open spec fn cautions_of(v: Seq<Warning>) -> Seq<Caution> {
    Seq::new(v.len(), |i: int| v[i].model())
}

/// Translates functions to the steps of a plan.
pub struct NativeCompiler {
    /// The atoms. The first have fixed places.
    pub atom_table: Vec<String>,
    pub funcs: Vec<FuncDecl>,
    pub lambda_counter: Counter,
    pub deferred_lambdas: Vec<DeferredLambda>,
    pub steps: Vec<Step>,
    pub stuck: bool,
    pub warnings: Vec<Warning>,
}

/// The atoms with fixed places.
pub open spec fn reserved_atoms() -> Seq<Seq<char>> {
    seq!["true"@, "false"@, "ok"@, "error"@, "unit"@]
}

/// A new translation.
pub open spec fn fresh_gen() -> Gen {
    Gen {
        atoms: reserved_atoms(),
        funcs: Seq::empty(),
        lambdas: 0,
        deferred: Seq::empty(),
        steps: Seq::empty(),
        stuck: false,
        cautions: Seq::empty(),
    }
}

/// The linker's name of a function.
pub fn mangle_symbol(module: &str, name: &str, arity: usize) -> (r: String)
    ensures
        r@ == mangled(module@, name@, arity as nat),
{
    let mut t = "lux_".to_owned();
    t.append(symbol_text(module).as_str());
    t.append("_");
    t.append(symbol_text(name).as_str());
    t.append("_");
    push_usize(&mut t, arity);
    t
}

/// A text with everything that may not stand in a symbol replaced.
fn symbol_text(s: &str) -> (r: String)
    ensures
        r@ == symbol_chars(s@),
{
    let cs = chars_of(s);
    let mut t = String::new();
    let mut i: usize = 0;
    while i < cs.len()
        invariant
            i <= cs@.len(),
            cs@ == s@,
            t@ == symbol_chars(s@).take(i as int),
        decreases cs@.len() - i,
    {
        let c = if cs[i].is_alphanumeric() {
            cs[i]
        } else {
            '_'
        };
        t.push(c);
        assert(t@ =~= symbol_chars(s@).take(i as int + 1));
        i = i + 1;
    }
    assert(symbol_chars(s@).take(i as int) =~= symbol_chars(s@));
    t
}

/// The runtime function that a built-in function stands for, and how many of
/// its arguments it takes.
fn runtime_bif(func: &str, n: usize) -> (r: Option<(&'static str, usize)>)
    ensures
        r matches Some(p) ==> bif_runtime(func@, n as nat) == Some((p.0@, p.1 as nat)),
        r is None ==> bif_runtime(func@, n as nat) is None,
        r matches Some(p) ==> p.1 <= 3,
{
    if same(func, "+") {
        return Some(("lux_rt_add", 2));
    }
    if same(func, "-") && n == 2 {
        return Some(("lux_rt_sub", 2));
    }
    if same(func, "-") && n == 1 {
        return Some(("lux_rt_negate", 1));
    }
    if same(func, "*") {
        return Some(("lux_rt_mul", 2));
    }
    if same(func, "/") {
        return Some(("lux_rt_float_div", 2));
    }
    if same(func, "div") {
        return Some(("lux_rt_safe_div", 2));
    }
    if same(func, "rem") {
        return Some(("lux_rt_safe_rem", 2));
    }
    if same(func, "=:=") {
        return Some(("lux_rt_value_equal", 2));
    }
    if same(func, "==") {
        return Some(("lux_rt_value_equal", 2));
    }
    if same(func, "<") {
        return Some(("lux_rt_less_than", 2));
    }
    if same(func, "=<") {
        return Some(("lux_rt_less_equal", 2));
    }
    if same(func, ">") {
        return Some(("lux_rt_greater_than", 2));
    }
    if same(func, ">=") {
        return Some(("lux_rt_greater_equal", 2));
    }
    if same(func, "length") {
        return Some(("lux_rt_list_length", 1));
    }
    if same(func, "hd") {
        return Some(("lux_rt_cons_head", 1));
    }
    if same(func, "tl") {
        return Some(("lux_rt_cons_tail", 1));
    }
    if same(func, "byte_size") {
        return Some(("lux_rt_byte_size", 1));
    }
    if same(func, "bit_size") {
        return Some(("lux_rt_byte_size", 1));
    }
    if same(func, "binary_part") {
        return Some(("lux_rt_binary_slice", 3));
    }
    if same(func, "integer_to_list") {
        return Some(("lux_rt_to_string", 1));
    }
    if same(func, "integer_to_binary") {
        return Some(("lux_rt_to_string", 1));
    }
    if same(func, "display") {
        return Some(("lux_rt_display", 1));
    }
    if same(func, "++") {
        return Some(("lux_rt_string_concat", 2));
    }
    if same(func, "list_to_binary") {
        return Some(("lux_rt_list_to_binary", 1));
    }
    if same(func, "binary_to_list") {
        return Some(("lux_rt_binary_to_list", 1));
    }
    if same(func, "put") {
        return Some(("lux_rt_put", 2));
    }
    if same(func, "get") {
        return Some(("lux_rt_get", 1));
    }
    if same(func, "system_time") {
        return Some(("lux_rt_system_time", 1));
    }
    if same(func, "make_ref") {
        return Some(("lux_rt_make_ref", 0));
    }
    None
}

fn bit_step(func: &str, a: usize, b: usize) -> (r: Option<Step>)
    ensures
        r == bit_operation(func@, a, b),
{
    if same(func, "band") {
        Some(Step::Band(a, b))
    } else if same(func, "bor") {
        Some(Step::Bor(a, b))
    } else if same(func, "bxor") {
        Some(Step::Bxor(a, b))
    } else if same(func, "bsl") {
        Some(Step::Ishl(a, b))
    } else if same(func, "bsr") {
        Some(Step::Sshr(a, b))
    } else {
        None
    }
}

/// How many arguments a built-in function that is no plain call needs.
fn needs(func: &str, n: usize) -> (r: usize)
    requires
        bif_runtime(func@, n as nat) is None,
    ensures
        r == bif_needs(func@, n as nat),
{
    if bit_step(func, 0, 0).is_some() || same(func, "=/=") || same(func, "/=") || same(func, "and")
        || same(func, "or") || same(func, "max") || same(func, "min") || same(func, "element") {
        2
    } else if same(func, "bnot") || same(func, "not") || same(func, "is_integer") || same(
        func,
        "is_atom",
    ) || same(func, "is_list") || same(func, "is_tuple") || same(func, "is_binary") || same(
        func,
        "is_bitstring",
    ) || same(func, "is_map") || same(func, "is_function") || same(func, "is_boolean") || same(
        func,
        "is_float",
    ) || same(func, "is_number") || same(func, "abs") || same(func, "tuple_size") || same(
        func,
        "iolist_to_binary",
    ) || same(func, "throw") || same(func, "error") || same(func, "exit") {
        1
    } else {
        0
    }
}

impl NativeCompiler {
    pub open spec fn model(self) -> Gen {
        Gen {
            atoms: texts(self.atom_table@),
            funcs: decls_of(self.funcs@),
            lambdas: self.lambda_counter.value(),
            deferred: lambdas_of(self.deferred_lambdas@),
            steps: self.steps@,
            stuck: self.stuck,
            cautions: cautions_of(self.warnings@),
        }
    }

    /// Adds a warning.
    pub(crate) fn warn(&mut self, w: Warning)
        ensures
            final(self).model() == warned(old(self).model(), w.model()),
            final(self).model().deferred == old(self).model().deferred,
    {
        let ghost m = w.model();
        self.warnings.push(w);
        assert(cautions_of(self.warnings@) =~= cautions_of(old(self).warnings@).push(m));
    }

    pub fn new() -> (r: Self)
        ensures
            r.model() == fresh_gen(),
    {
        let mut atom_table: Vec<String> = Vec::new();
        atom_table.push("true".to_owned());
        atom_table.push("false".to_owned());
        atom_table.push("ok".to_owned());
        atom_table.push("error".to_owned());
        atom_table.push("unit".to_owned());
        let r = NativeCompiler {
            atom_table,
            funcs: Vec::new(),
            lambda_counter: Counter::new(),
            deferred_lambdas: Vec::new(),
            steps: Vec::new(),
            stuck: false,
            warnings: Vec::new(),
        };
        assert(r.model().cautions =~= Seq::empty());
        assert(r.model().atoms =~= reserved_atoms());
        assert(r.model().funcs =~= Seq::empty());
        assert(r.model().deferred =~= Seq::empty());
        r
    }

    /// The place of an atom in the table.
    pub fn intern_atom(&mut self, name: &str) -> (r: usize)
        ensures
            final(self).model() == (Gen {
                atoms: interned(old(self).model().atoms, name@).0,
                ..old(self).model()
            }),
            r == interned(old(self).model().atoms, name@).1,
            final(self).model().atoms == with_new(old(self).model().atoms, name@),
    {
        if holds(&self.atom_table, name) {
            return place_of(&self.atom_table, name);
        }
        let i = self.atom_table.len();
        self.atom_table.push(name.to_owned());
        assert(texts(self.atom_table@) =~= texts(old(self).atom_table@).push(name@));
        i
    }

    /// Adds a step.
    pub(crate) fn emit(&mut self, s: Step) -> (r: usize)
        ensures
            (final(self).model(), r) == emit(old(self).model(), s),
            final(self).model().deferred == old(self).model().deferred,
    {
        proof {
            reveal(emit);
        }
        let i = self.steps.len();
        self.steps.push(s);
        i
    }

    pub(crate) fn stick(&mut self) -> (r: usize)
        ensures
            (final(self).model(), r) == stick(old(self).model()),
            final(self).model().deferred == old(self).model().deferred,
    {
        proof {
            reveal(stick);
        }
        self.stuck = true;
        0
    }

    /// The place of the function with a symbol.
    pub(crate) fn func_at(&self, symbol: &str) -> (r: Option<usize>)
        ensures
            r == func_at(self.model().funcs, symbol@),
            r matches Some(i) ==> i < self.funcs@.len(),
    {
        let ghost all = self.model().funcs;
        let mut i: usize = self.funcs.len();
        assert(all.take(i as int) =~= all);
        while i > 0
            invariant
                i <= self.funcs@.len(),
                all == self.model().funcs,
                func_at(all, symbol@) == func_at(all.take(i as int), symbol@),
            decreases i,
        {
            i = i - 1;
            assert(all.take(i as int + 1).drop_last() =~= all.take(i as int));
            if same(self.funcs[i].symbol.as_str(), symbol) {
                return Some(i);
            }
        }
        None
    }

    /// Declares a function, unless its symbol is in use with another signature.
    pub(crate) fn declare(
        &mut self,
        symbol: &str,
        params: u128,
        results: usize,
        export: bool,
        own: bool,
        runtime: bool,
    ) -> (r: Option<usize>)
        ensures
            match declared(
                old(self).model().funcs,
                symbol@,
                params as nat,
                results as nat,
                export,
                own,
                runtime,
            ) {
                Some((funcs, i)) => r == Some(i) && final(self).model() == (Gen {
                    funcs,
                    ..old(self).model()
                }),
                None => r is None && final(self).model() == old(self).model(),
            },
            final(self).model().deferred == old(self).model().deferred,
    {
        proof {
            reveal(declared);
        }
        let ghost before = self.model().funcs;
        match self.func_at(symbol) {
            Some(i) => {
                if self.funcs[i].params != params || self.funcs[i].results != results {
                    return None;
                }
                let f = FuncDecl {
                    symbol: self.funcs[i].symbol.clone(),
                    params,
                    results,
                    export: self.funcs[i].export || export,
                    own: self.funcs[i].own || own,
                    runtime: self.funcs[i].runtime || runtime,
                };
                let ghost m = f.model();
                self.funcs.set(i, f);
                assert(self.model().funcs =~= before.update(i as int, m));
                Some(i)
            },
            None => {
                let i = self.funcs.len();
                let f = FuncDecl { symbol: symbol.to_owned(), params, results, export, own, runtime };
                let ghost m = f.model();
                self.funcs.push(f);
                assert(self.model().funcs =~= before.push(m));
                Some(i)
            },
        }
    }

    /// The function of the runtime with a name.
    pub(crate) fn runtime_func(&mut self, name: &str, params: usize, results: usize) -> (r: usize)
        ensures
            (final(self).model(), r) == runtime_func(
                old(self).model(),
                name@,
                params as nat,
                results as nat,
            ),
            final(self).model().deferred == old(self).model().deferred,
    {
        proof {
            reveal(runtime_func);
        }
        match self.func_at(name) {
            Some(i) => {
                assert(self.model().funcs[i as int] == self.funcs@[i as int].model());
                if self.funcs[i].runtime {
                    return i;
                }
            },
            None => {},
        }
        match self.declare(name, params as u128, results, false, false, true) {
            Some(i) => i,
            None => self.stick(),
        }
    }

    pub(crate) fn call(&mut self, func: usize, args: &Vec<usize>) -> (r: usize)
        ensures
            (final(self).model(), r) == call(old(self).model(), func, args@),
            final(self).model().deferred == old(self).model().deferred,
    {
        proof {
            reveal(call);
        }
        let ghost d = self.model().deferred;
        let fref = self.emit(Step::Import(func));
        let ghost g = self.model();
        let mut i: usize = 0;
        while i < args.len()
            invariant
                i <= args@.len(),
                g.deferred == d,
                self.model() == with_args(g, args@.take(i as int)),
                self.model().deferred == g.deferred,
            decreases args@.len() - i,
        {
            assert(args@.take(i as int + 1).drop_last() =~= args@.take(i as int));
            self.emit(Step::Arg(args[i]));
            i = i + 1;
        }
        assert(args@.take(i as int) =~= args@);
        self.emit(Step::Call(fref, args.len()))
    }

    /// A call of a function of the runtime that returns a value.
    pub(crate) fn runtime_call(&mut self, name: &str, args: &Vec<usize>) -> (r: usize)
        ensures
            (final(self).model(), r) == runtime_call(old(self).model(), name@, args@),
            final(self).model().deferred == old(self).model().deferred,
    {
        proof {
            reveal(runtime_call);
        }
        let f = self.runtime_func(name, args.len(), 1);
        self.call(f, args)
    }

    pub(crate) fn runtime_raise(&mut self, name: &str, args: &Vec<usize>)
        ensures
            final(self).model() == runtime_raise(old(self).model(), name@, args@),
            final(self).model().deferred == old(self).model().deferred,
    {
        proof {
            reveal(runtime_raise);
        }
        let f = self.runtime_func(name, args.len(), 0);
        let _ = self.call(f, args);
    }

    pub(crate) fn runtime_call1(&mut self, name: &str, a: usize) -> (r: usize)
        ensures
            (final(self).model(), r) == runtime_call(old(self).model(), name@, seq![a]),
            final(self).model().deferred == old(self).model().deferred,
    {
        let mut args: Vec<usize> = Vec::new();
        args.push(a);
        assert(args@ =~= seq![a]);
        self.runtime_call(name, &args)
    }

    pub(crate) fn runtime_call2(&mut self, name: &str, a: usize, b: usize) -> (r: usize)
        ensures
            (final(self).model(), r) == runtime_call(old(self).model(), name@, seq![a, b]),
            final(self).model().deferred == old(self).model().deferred,
    {
        let mut args: Vec<usize> = Vec::new();
        args.push(a);
        args.push(b);
        assert(args@ =~= seq![a, b]);
        self.runtime_call(name, &args)
    }

    pub(crate) fn runtime_call3(&mut self, name: &str, a: usize, b: usize, c: usize) -> (r: usize)
        ensures
            (final(self).model(), r) == runtime_call(old(self).model(), name@, seq![a, b, c]),
            final(self).model().deferred == old(self).model().deferred,
    {
        let mut args: Vec<usize> = Vec::new();
        args.push(a);
        args.push(b);
        args.push(c);
        assert(args@ =~= seq![a, b, c]);
        self.runtime_call(name, &args)
    }

    /// A string of the bytes in a slot.
    pub(crate) fn string_in(&mut self, slot: usize, len: usize) -> (r: usize)
        ensures
            (final(self).model(), r) == string_in(old(self).model(), slot, len as nat),
            final(self).model().deferred == old(self).model().deferred,
    {
        proof {
            reveal(string_in);
        }
        let z = self.emit(Step::Byte(0));
        self.emit(Step::StackStore(z, slot, len as i32));
        let p = self.emit(Step::StackAddr(slot));
        let n = self.emit(Step::Word(len as i64));
        self.runtime_call2("lux_rt_make_string", p, n)
    }

    /// A string of constant bytes.
    pub(crate) fn bytes_string(&mut self, bytes: &Vec<u8>) -> (r: usize)
        ensures
            (final(self).model(), r) == bytes_string(old(self).model(), bytes@),
            final(self).model().deferred == old(self).model().deferred,
    {
        proof {
            reveal(bytes_string);
        }
        let ghost d = self.model().deferred;
        let slot = self.emit(Step::Slot((bytes.len() as u128 + 1) as u32, 0));
        let ghost g1 = self.model();
        let mut i: usize = 0;
        while i < bytes.len()
            invariant
                i <= bytes@.len(),
                self.model() == stored_bytes(g1, slot, bytes@.take(i as int)),
                self.model().deferred == d,
            decreases bytes@.len() - i,
        {
            assert(bytes@.take(i as int + 1).drop_last() =~= bytes@.take(i as int));
            let v = self.emit(Step::Byte(bytes[i] as i64));
            self.emit(Step::StackStore(v, slot, i as i32));
            i = i + 1;
        }
        assert(bytes@.take(i as int) =~= bytes@);
        self.string_in(slot, bytes.len())
    }

    fn translate_string_lit(&mut self, s: &str) -> (r: usize)
        ensures
            (final(self).model(), r) == string_lit(old(self).model(), s@),
            final(self).model().deferred == old(self).model().deferred,
    {
        proof {
            reveal(string_lit);
        }
        let raw = s.as_bytes();
        if raw.len() == 0 {
            return self.emit(Step::Word(7));
        }
        let mut bytes: Vec<u8> = Vec::new();
        let mut i: usize = 0;
        while i < raw.len()
            invariant
                i <= raw@.len(),
                bytes@ == raw@.take(i as int),
            decreases raw@.len() - i,
        {
            bytes.push(raw[i]);
            assert(bytes@ =~= raw@.take(i as int + 1));
            i = i + 1;
        }
        assert(raw@.take(i as int) =~= raw@);
        self.bytes_string(&bytes)
    }

    fn translate_float_lit(&mut self, bits: u64) -> (r: usize)
        ensures
            (final(self).model(), r) == float_lit(old(self).model(), bits),
            final(self).model().deferred == old(self).model().deferred,
    {
        let f = self.runtime_func("lux_alloc", 1, 1);
        let size = self.emit(Step::Word(16));
        let mut args: Vec<usize> = Vec::new();
        args.push(size);
        assert(args@ =~= seq![size]);
        let p = self.call(f, &args);
        let m = self.emit(Step::Word(2));
        self.emit(Step::Store(m, p, 0));
        let b = self.emit(Step::Word(bits as i64));
        self.emit(Step::Store(b, p, 8));
        self.emit(Step::BorImm(p, 4))
    }

    pub(crate) fn translate_lit(&mut self, l: &CoreLit) -> (r: usize)
        ensures
            (final(self).model(), r) == lit(old(self).model(), lit_of(*l)),
            final(self).model().deferred == old(self).model().deferred,
    {
        proof {
            reveal(lit);
        }
        match l {
            CoreLit::Int(n) => self.emit(Step::Word((*n << 3) | 1)),
            CoreLit::Atom(name) => {
                let i = self.intern_atom(name.as_str());
                self.emit(Step::Word(((i as i64) << 3) | 3))
            },
            CoreLit::Nil => self.emit(Step::Word(7)),
            CoreLit::Float(f) => self.translate_float_lit(f.bits),
            CoreLit::String(s) => self.translate_string_lit(s.as_str()),
        }
    }

    /// The word that a literal is compared with.
    fn translate_lit_as_i64(&mut self, l: &CoreLit) -> (r: i64)
        ensures
            (final(self).model(), r) == lit_word(old(self).model(), lit_of(*l)),
            final(self).model().deferred == old(self).model().deferred,
    {
        match l {
            CoreLit::Int(n) => (*n << 3) | 1,
            CoreLit::Atom(name) => {
                let i = self.intern_atom(name.as_str());
                ((i as i64) << 3) | 3
            },
            CoreLit::Nil => 7,
            CoreLit::Float(_) => (0i64 << 3) | 1,
            CoreLit::String(_) => 7,
        }
    }

    fn untag_int(&mut self, v: usize) -> (r: usize)
        ensures
            (final(self).model(), r) == untag(old(self).model(), v),
            final(self).model().deferred == old(self).model().deferred,
    {
        self.emit(Step::SshrImm(v, 3))
    }

    fn tag_int(&mut self, v: usize) -> (r: usize)
        ensures
            (final(self).model(), r) == tag(old(self).model(), v),
            final(self).model().deferred == old(self).model().deferred,
    {
        let s = self.emit(Step::IshlImm(v, 3));
        self.emit(Step::BorImm(s, 1))
    }

    fn bool_to_atom(&mut self, cond: usize) -> (r: usize)
        ensures
            (final(self).model(), r) == truth(old(self).model(), cond),
            final(self).model().deferred == old(self).model().deferred,
    {
        let t = self.emit(Step::Word(3));
        let f = self.emit(Step::Word(11));
        self.emit(Step::Select(cond, t, f))
    }

    /// The address of eight zero words on the stack.
    fn make_safe_dummy(&mut self) -> (r: usize)
        ensures
            (final(self).model(), r) == safe_words(old(self).model()),
            final(self).model().deferred == old(self).model().deferred,
    {
        let ghost d = self.model().deferred;
        let slot = self.emit(Step::Slot(64, 8));
        let zero = self.emit(Step::Word(0));
        let ghost g2 = self.model();
        let mut k: usize = 0;
        while k < 8
            invariant
                k <= 8,
                self.model() == zeroed(g2, slot, zero, k as nat),
                self.model().deferred == d,
            decreases 8 - k,
        {
            self.emit(Step::StackStore(zero, slot, (k * 8) as i32));
            k = k + 1;
        }
        self.emit(Step::StackAddr(slot))
    }

    fn has_tag(&mut self, v: usize, tag: i64) -> (r: usize)
        ensures
            (final(self).model(), r) == has_tag(old(self).model(), v, tag),
            final(self).model().deferred == old(self).model().deferred,
    {
        let t = self.emit(Step::BandImm(v, 7));
        self.emit(Step::EqualImm(t, tag))
    }

    fn safe_pointer(&mut self, v: usize, cond: usize) -> (r: usize)
        ensures
            (final(self).model(), r) == safe_pointer(old(self).model(), v, cond),
            final(self).model().deferred == old(self).model().deferred,
    {
        let raw = self.emit(Step::BandImm(v, -8));
        let safe = self.make_safe_dummy();
        self.emit(Step::Select(cond, raw, safe))
    }

    fn is_boxed(&mut self, v: usize, tag: usize, marker: i64) -> (r: usize)
        ensures
            (final(self).model(), r) == is_boxed(old(self).model(), v, tag, marker),
            final(self).model().deferred == old(self).model().deferred,
    {
        let boxed = self.emit(Step::EqualImm(tag, 4));
        let p = self.safe_pointer(v, boxed);
        let first = self.emit(Step::Load(p, 0));
        let hit = self.emit(Step::EqualImm(first, marker));
        self.emit(Step::Band(boxed, hit))
    }

    fn is_boxed_with(&mut self, v: usize, marker: i64) -> (r: usize)
        ensures
            (final(self).model(), r) == is_boxed_with(old(self).model(), v, marker),
            final(self).model().deferred == old(self).model().deferred,
    {
        let t = self.emit(Step::BandImm(v, 7));
        let c = self.is_boxed(v, t, marker);
        self.bool_to_atom(c)
    }

    /// A test of the kind of a value.
    fn kind_test(&mut self, func: &str, v: usize) -> (r: Option<usize>)
        ensures
            match kind_test(func@, v, old(self).model()) {
                Some((g, i)) => final(self).model() == g && r == Some(i),
                None => final(self).model() == old(self).model() && r is None,
            },
            final(self).model().deferred == old(self).model().deferred,
    {
        if same(func, "is_integer") {
            let c = self.has_tag(v, 1);
            Some(self.bool_to_atom(c))
        } else if same(func, "is_atom") {
            let c = self.has_tag(v, 3);
            Some(self.bool_to_atom(c))
        } else if same(func, "is_function") {
            let c = self.has_tag(v, 6);
            Some(self.bool_to_atom(c))
        } else if same(func, "is_list") {
            let cons = self.has_tag(v, 2);
            let nil = self.emit(Step::EqualImm(v, 7));
            let c = self.emit(Step::Bor(cons, nil));
            Some(self.bool_to_atom(c))
        } else if same(func, "is_tuple") {
            let tuple = self.has_tag(v, 0);
            let some = self.emit(Step::NotEqualImm(v, 0));
            let c = self.emit(Step::Band(tuple, some));
            Some(self.bool_to_atom(c))
        } else if same(func, "is_binary") || same(func, "is_bitstring") {
            Some(self.is_boxed_with(v, 1))
        } else if same(func, "is_map") {
            Some(self.is_boxed_with(v, 0x4D41505F))
        } else if same(func, "is_float") {
            Some(self.is_boxed_with(v, 2))
        } else if same(func, "is_boolean") {
            let t = self.emit(Step::EqualImm(v, 3));
            let f = self.emit(Step::EqualImm(v, 11));
            let c = self.emit(Step::Bor(t, f));
            Some(self.bool_to_atom(c))
        } else if same(func, "is_number") {
            let t = self.emit(Step::BandImm(v, 7));
            let i = self.emit(Step::EqualImm(t, 1));
            let f = self.is_boxed(v, t, 2);
            let c = self.emit(Step::Bor(i, f));
            Some(self.bool_to_atom(c))
        } else {
            None
        }
    }

    fn chosen(&mut self, name: &str, a: usize, b: usize) -> (r: usize)
        ensures
            (final(self).model(), r) == chosen(old(self).model(), name@, a, b),
            final(self).model().deferred == old(self).model().deferred,
    {
        let t = self.runtime_call2(name, a, b);
        let c = self.emit(Step::EqualImm(t, 3));
        self.emit(Step::Select(c, a, b))
    }

    fn flipped(&mut self, v: usize) -> (r: usize)
        ensures
            (final(self).model(), r) == flipped(old(self).model(), v),
            final(self).model().deferred == old(self).model().deferred,
    {
        let t = self.emit(Step::EqualImm(v, 3));
        let f = self.emit(Step::BxorImm(t, 1));
        self.bool_to_atom(f)
    }

    fn raised(&mut self, name: &str, v: usize) -> (r: usize)
        ensures
            (final(self).model(), r) == raised(old(self).model(), name@, v),
            final(self).model().deferred == old(self).model().deferred,
    {
        let mut args: Vec<usize> = Vec::new();
        args.push(v);
        assert(args@ =~= seq![v]);
        self.runtime_raise(name, &args);
        self.emit(Step::Word(7))
    }

    fn bif_one(&mut self, func: &str, v: usize) -> (r: usize)
        ensures
            (final(self).model(), r) == bif_one(func@, v, old(self).model()),
            final(self).model().deferred == old(self).model().deferred,
    {
        if same(func, "bnot") {
            let a = self.untag_int(v);
            let n = self.emit(Step::Bnot(a));
            self.tag_int(n)
        } else if same(func, "not") {
            self.flipped(v)
        } else if same(func, "abs") {
            let zero = self.emit(Step::Word((0i64 << 3) | 1));
            let less = self.runtime_call2("lux_rt_less_than", v, zero);
            let c = self.emit(Step::EqualImm(less, 3));
            let neg = self.runtime_call1("lux_rt_negate", v);
            self.emit(Step::Select(c, neg, v))
        } else if same(func, "tuple_size") {
            let n = self.runtime_call1("lux_rt_tuple_arity", v);
            self.tag_int(n)
        } else if same(func, "iolist_to_binary") {
            v
        } else if same(func, "throw") {
            self.raised("lux_rt_erlang_throw", v)
        } else if same(func, "error") || same(func, "exit") {
            self.raised("lux_rt_erlang_error", v)
        } else {
            match self.kind_test(func, v) {
                Some(i) => i,
                None => self.emit(Step::Word(7)),
            }
        }
    }

    fn bif_two(&mut self, func: &str, a: usize, b: usize) -> (r: usize)
        ensures
            (final(self).model(), r) == bif_two(func@, a, b, old(self).model()),
            final(self).model().deferred == old(self).model().deferred,
    {
        if bit_step(func, a, b).is_some() {
            let x = self.untag_int(a);
            let y = self.untag_int(b);
            match bit_step(func, x, y) {
                Some(s) => {
                    let n = self.emit(s);
                    self.tag_int(n)
                },
                None => {
                    assert(false);
                    0
                },
            }
        } else if same(func, "=/=") || same(func, "/=") {
            let t = self.runtime_call2("lux_rt_value_equal", a, b);
            self.flipped(t)
        } else if same(func, "and") {
            let x = self.emit(Step::EqualImm(a, 3));
            let y = self.emit(Step::EqualImm(b, 3));
            let c = self.emit(Step::Band(x, y));
            self.bool_to_atom(c)
        } else if same(func, "or") {
            let x = self.emit(Step::EqualImm(a, 3));
            let y = self.emit(Step::EqualImm(b, 3));
            let c = self.emit(Step::Bor(x, y));
            self.bool_to_atom(c)
        } else if same(func, "max") {
            self.chosen("lux_rt_greater_than", a, b)
        } else if same(func, "min") {
            self.chosen("lux_rt_less_than", a, b)
        } else {
            let f = self.runtime_func("lux_rt_tuple_element", 2, 1);
            let i = self.untag_int(a);
            let one = self.emit(Step::Word(1));
            let z = self.emit(Step::Isub(i, one));
            let mut args: Vec<usize> = Vec::new();
            args.push(b);
            args.push(z);
            assert(args@ =~= seq![b, z]);
            self.call(f, &args)
        }
    }

    /// A built-in function of `erlang` on values.
    pub(crate) fn translate_erlang_bif(&mut self, func: &str, vals: &Vec<usize>) -> (r: usize)
        ensures
            (final(self).model(), r) == bif(func@, vals@, old(self).model()),
            final(self).model().deferred == old(self).model().deferred,
    {
        proof {
            reveal(bif);
        }
        match runtime_bif(func, vals.len()) {
            Some((name, k)) => {
                if vals.len() < k {
                    return self.stick();
                }
                let mut args: Vec<usize> = Vec::new();
                let mut i: usize = 0;
                while i < k
                    invariant
                        i <= k <= vals@.len(),
                        args@ == vals@.take(i as int),
                    decreases k - i,
                {
                    args.push(vals[i]);
                    assert(args@ =~= vals@.take(i as int + 1));
                    i = i + 1;
                }
                self.runtime_call(name, &args)
            },
            None => {
                let need = needs(func, vals.len());
                if vals.len() < need {
                    self.stick()
                } else if need == 2 {
                    self.bif_two(func, vals[0], vals[1])
                } else if need == 1 {
                    self.bif_one(func, vals[0])
                } else if same(func, "is_pid") || same(func, "is_reference") {
                    self.emit(Step::Word(11))
                } else if same(func, "send") && vals.len() >= 2 {
                    vals[1]
                } else if same(func, "send") || same(func, "self") || same(func, "spawn") || same(
                    func,
                    "spawn_link",
                ) {
                    self.emit(Step::Word(7))
                } else {
                    self.warn(Warning::Unsupported(func.to_owned(), vals.len()));
                    self.emit(Step::Word(7))
                }
            },
        }
    }

    /// A word behind a tagged pointer.
    pub(crate) fn load_behind(&mut self, value: usize, offset: i32) -> (r: usize)
        ensures
            (final(self).model(), r) == loaded(old(self).model(), value, offset),
            final(self).model().deferred == old(self).model().deferred,
    {
        proof {
            reveal(loaded);
        }
        let p = self.emit(Step::BandImm(value, -8));
        self.emit(Step::Load(p, offset))
    }

    /// A new variable with a value.
    pub(crate) fn bind_var(&mut self, vars: &mut VarMap, name: &str, value: usize)
        ensures
            (final(self).model(), final(vars).model()) == bound_var(
                old(self).model(),
                old(vars).model(),
                name@,
                value,
            ),
            final(self).model().deferred == old(self).model().deferred,
    {
        proof {
            reveal(bound_var);
        }
        let v = self.emit(Step::DeclareVar);
        self.emit(Step::DefVar(v, value));
        vars.insert(name, v);
    }

    /// Whether `value` matches a pattern.
    pub(crate) fn translate_pattern_match(&mut self, value: usize, pattern: &CorePattern) -> (r: usize)
        ensures
            (final(self).model(), r) == pattern_test(pat_of(*pattern), value, old(self).model()),
            final(self).model().deferred == old(self).model().deferred,
        decreases pattern, 1nat,
    {
        match pattern {
            CorePattern::Var(_) => self.emit(Step::Byte(1)),
            CorePattern::Lit(CoreLit::String(s)) => {
                let want = self.translate_string_lit(s.as_str());
                let t = self.runtime_call2("lux_rt_string_equal", value, want);
                self.emit(Step::Reduce(t))
            },
            CorePattern::Lit(l) => {
                let w = self.translate_lit_as_i64(l);
                let want = self.emit(Step::Word(w));
                self.emit(Step::Equal(value, want))
            },
            CorePattern::Nil => self.emit(Step::EqualImm(value, 7)),
            CorePattern::Tuple(items) => {
                let tuple = self.has_tag(value, 0);
                proof {
                    lemma_pats(items@);
                }
                if items.len() == 0 {
                    return tuple;
                }
                let p = self.safe_pointer(value, tuple);
                let n = self.emit(Step::Load(p, 0));
                let want = self.emit(Step::Word(items.len() as i64));
                let c = self.emit(Step::Equal(n, want));
                let first = self.emit(Step::Band(tuple, c));
                self.match_elements(items, p, first)
            },
            CorePattern::Cons(_, _) => self.match_cons(value, pattern),
            CorePattern::Alias(_, inner) => self.translate_pattern_match(value, inner),
            CorePattern::Binary(_) => self.emit(Step::Byte(0)),
        }
    }

    fn match_cons(&mut self, value: usize, pattern: &CorePattern) -> (r: usize)
        requires
            pattern is Cons,
        ensures
            (final(self).model(), r) == pattern_test(pat_of(*pattern), value, old(self).model()),
            final(self).model().deferred == old(self).model().deferred,
        decreases pattern, 0nat,
    {
        let (h, t) = match pattern {
            CorePattern::Cons(h, t) => (h, t),
            _ => {
                assert(false);
                return 0;
            },
        };
        let cons = self.has_tag(value, 2);
        let plain_head = is_plain(h);
        let plain_tail = is_plain(t);
        if plain_head && plain_tail {
            return cons;
        }
        let p = self.safe_pointer(value, cons);
        let mut r = cons;
        if !plain_head {
            let x = self.emit(Step::Load(p, 0));
            let y = self.translate_pattern_match(x, h);
            r = self.emit(Step::Band(r, y));
        }
        if !plain_tail {
            let x = self.emit(Step::Load(p, 8));
            let y = self.translate_pattern_match(x, t);
            r = self.emit(Step::Band(r, y));
        }
        r
    }

    fn match_elements(&mut self, items: &Vec<CorePattern>, p: usize, first: usize) -> (r: usize)
        ensures
            (final(self).model(), r) == pattern_tests(
                pats_of(items@),
                p,
                old(self).model(),
                first,
            ),
            final(self).model().deferred == old(self).model().deferred,
        decreases items, 0nat,
    {
        let ghost g = self.model();
        let mut r = first;
        let mut i: usize = 0;
        while i < items.len()
            invariant
                i <= items@.len(),
                (self.model(), r) == pattern_tests(pats_of(items@.take(i as int)), p, g, first),
                self.model().deferred == g.deferred,
            decreases items@.len() - i,
        {
            assert(items@.take(i as int + 1).drop_last() =~= items@.take(i as int));
            assert(pats_of(items@.take(i as int + 1)).drop_last() =~= pats_of(
                items@.take(i as int),
            ));
            proof {
                lemma_pats(items@.take(i as int + 1));
            }
            if !is_plain(&items[i]) {
                let x = self.emit(Step::Load(p, ((i as u128 + 1) * 8) as i32));
                let y = self.translate_pattern_match(x, &items[i]);
                r = self.emit(Step::Band(r, y));
            }
            i = i + 1;
        }
        assert(items@.take(i as int) =~= items@);
        r
    }

    /// Binds the variables of a pattern that `value` has matched.
    pub(crate) fn bind_pattern_vars(&mut self, value: usize, pattern: &CorePattern, vars: &mut VarMap)
        ensures
            (final(self).model(), final(vars).model()) == pattern_binds(
                pat_of(*pattern),
                value,
                old(self).model(),
                old(vars).model(),
            ),
            final(self).model().deferred == old(self).model().deferred,
        decreases pattern, 1nat,
    {
        match pattern {
            CorePattern::Var(name) => {
                if !same(name.as_str(), "_") {
                    self.bind_var(vars, name.as_str(), value);
                }
            },
            CorePattern::Lit(_) => {},
            CorePattern::Nil => {},
            CorePattern::Binary(_) => {},
            CorePattern::Tuple(items) => {
                self.bind_elements(value, items, vars);
            },
            CorePattern::Cons(h, t) => {
                let x = self.load_behind(value, 0);
                let y = self.load_behind(value, 8);
                self.bind_pattern_vars(x, h, vars);
                self.bind_pattern_vars(y, t, vars);
            },
            CorePattern::Alias(name, inner) => {
                self.bind_var(vars, name.as_str(), value);
                self.bind_pattern_vars(value, inner, vars);
            },
        }
    }

    fn bind_elements(&mut self, value: usize, items: &Vec<CorePattern>, vars: &mut VarMap)
        ensures
            (final(self).model(), final(vars).model()) == patterns_bind(
                pats_of(items@),
                value,
                old(self).model(),
                old(vars).model(),
            ),
            final(self).model().deferred == old(self).model().deferred,
        decreases items, 0nat,
    {
        let ghost g = self.model();
        let ghost vs = vars.model();
        let mut i: usize = 0;
        while i < items.len()
            invariant
                i <= items@.len(),
                (self.model(), vars.model()) == patterns_bind(
                    pats_of(items@.take(i as int)),
                    value,
                    g,
                    vs,
                ),
                self.model().deferred == g.deferred,
            decreases items@.len() - i,
        {
            assert(items@.take(i as int + 1).drop_last() =~= items@.take(i as int));
            assert(pats_of(items@.take(i as int + 1)).drop_last() =~= pats_of(
                items@.take(i as int),
            ));
            proof {
                lemma_pats(items@.take(i as int + 1));
            }
            let x = self.load_behind(value, ((i as u128 + 1) * 8) as i32);
            self.bind_pattern_vars(x, &items[i], vars);
            i = i + 1;
        }
        assert(items@.take(i as int) =~= items@);
    }
}

fn is_plain(p: &CorePattern) -> (r: bool)
    ensures
        r == is_var(pat_of(*p)),
{
    match p {
        CorePattern::Var(_) => true,
        _ => false,
    }
}

pub proof fn lemma_pats(s: Seq<CorePattern>)
    ensures
        pats_of(s).len() == s.len(),
        forall|i: int| 0 <= i < s.len() ==> #[trigger] pats_of(s)[i] == pat_of(s[i]),
    decreases s.len(),
{
    if s.len() > 0 {
        lemma_pats(s.drop_last());
    }
}

} // verus!
