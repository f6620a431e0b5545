//! The plan of a program: the functions it declares, and the steps of those
//! that it defines.
use vstd::prelude::*;
use crate::erlang::{core_of, fundef_of, CoreFunDef, CoreMod, CoreModule, FunDef};
use crate::native::{
    declared, emit, func_at, mangled, runtime_func, scanned, stick, Caution, Decl, Gen, Lambda, Step,
};
use crate::native_free::scan_atoms_expr;
use crate::native_gen::{
    cautions_of, decls_of, fresh_gen, lambdas_of, mangle_symbol, DeferredLambda, FuncDecl,
    NativeCompiler, VarMap, Warning,
};
use crate::native_frame::{is_roomy, roomy};
use crate::native_plan::{
    captures_bound, closures, entered, function_body, lambda_body, params_bound, pending,
};
use crate::text::{add_new, texts, with_new};
use crate::translate::modules_of;

verus! {

/// Declares the runtime's functions on values.
#[verifier::opaque]
pub open spec fn values_declared(g: Gen) -> Gen {
    let g1 = runtime_func(g, "lux_rt_io_format"@, 2, 1).0;
    let g2 = runtime_func(g1, "lux_rt_display"@, 1, 1).0;
    let g3 = runtime_func(g2, "lux_rt_make_tuple2"@, 2, 1).0;
    let g4 = runtime_func(g3, "lux_rt_make_tuple3"@, 3, 1).0;
    let g5 = runtime_func(g4, "lux_rt_tuple_element"@, 2, 1).0;
    let g6 = runtime_func(g5, "lux_rt_tuple_arity"@, 1, 1).0;
    let g7 = runtime_func(g6, "lux_rt_make_cons"@, 2, 1).0;
    let g8 = runtime_func(g7, "lux_rt_cons_head"@, 1, 1).0;
    let g9 = runtime_func(g8, "lux_rt_cons_tail"@, 1, 1).0;
    let g10 = runtime_func(g9, "lux_rt_list_length"@, 1, 1).0;
    let g11 = runtime_func(g10, "lux_rt_to_string"@, 1, 1).0;
    let g12 = runtime_func(g11, "lux_rt_string_concat"@, 2, 1).0;
    let g13 = runtime_func(g12, "lux_rt_make_string"@, 2, 1).0;
    let g14 = runtime_func(g13, "lux_rt_binary_slice"@, 3, 1).0;
    let g15 = runtime_func(g14, "lux_rt_match_error"@, 0, 0).0;
    let g16 = runtime_func(g15, "lux_rt_case_clause_error"@, 1, 0).0;
    let g17 = runtime_func(g16, "lux_rt_erlang_error"@, 1, 0).0;
    let g18 = runtime_func(g17, "lux_rt_erlang_throw"@, 1, 0).0;
    let g19 = runtime_func(g18, "lux_rt_apply0"@, 1, 1).0;
    let g20 = runtime_func(g19, "lux_rt_apply1"@, 2, 1).0;
    let g21 = runtime_func(g20, "lux_rt_apply2"@, 3, 1).0;
    let g22 = runtime_func(g21, "lux_rt_apply3"@, 4, 1).0;
    let g23 = runtime_func(g22, "lux_rt_make_map"@, 3, 1).0;
    let g24 = runtime_func(g23, "lux_rt_safe_div"@, 2, 1).0;
    let g25 = runtime_func(g24, "lux_rt_safe_rem"@, 2, 1).0;
    let g26 = runtime_func(g25, "lux_rt_add"@, 2, 1).0;
    let g27 = runtime_func(g26, "lux_rt_sub"@, 2, 1).0;
    let g28 = runtime_func(g27, "lux_rt_mul"@, 2, 1).0;
    let g29 = runtime_func(g28, "lux_rt_float_div"@, 2, 1).0;
    let g30 = runtime_func(g29, "lux_rt_negate"@, 1, 1).0;
    let g31 = runtime_func(g30, "lux_rt_less_than"@, 2, 1).0;
    let g32 = runtime_func(g31, "lux_rt_less_equal"@, 2, 1).0;
    let g33 = runtime_func(g32, "lux_rt_greater_than"@, 2, 1).0;
    let g34 = runtime_func(g33, "lux_rt_greater_equal"@, 2, 1).0;
    let g35 = runtime_func(g34, "lux_rt_try_begin"@, 0, 1).0;
    let g36 = runtime_func(g35, "lux_rt_try_end"@, 0, 0).0;
    let g37 = runtime_func(g36, "lux_rt_try_get_error"@, 0, 1).0;
    g37
}

/// Declares the runtime's functions on lists.
#[verifier::opaque]
pub open spec fn lists_declared(g: Gen) -> Gen {
    let g1 = runtime_func(g, "lux_lists_reverse1"@, 1, 1).0;
    let g2 = runtime_func(g1, "lux_lists_sort1"@, 1, 1).0;
    let g3 = runtime_func(g2, "lux_lists_append2"@, 2, 1).0;
    let g4 = runtime_func(g3, "lux_lists_flatten1"@, 1, 1).0;
    let g5 = runtime_func(g4, "lux_lists_seq2"@, 2, 1).0;
    let g6 = runtime_func(g5, "lux_lists_nth2"@, 2, 1).0;
    let g7 = runtime_func(g6, "lux_lists_member2"@, 2, 1).0;
    let g8 = runtime_func(g7, "lux_lists_map2"@, 2, 1).0;
    let g9 = runtime_func(g8, "lux_lists_flatmap2"@, 2, 1).0;
    let g10 = runtime_func(g9, "lux_lists_filter2"@, 2, 1).0;
    let g11 = runtime_func(g10, "lux_lists_foldl3"@, 3, 1).0;
    let g12 = runtime_func(g11, "lux_lists_usort1"@, 1, 1).0;
    let g13 = runtime_func(g12, "lux_lists_zip2"@, 2, 1).0;
    let g14 = runtime_func(g13, "lux_lists_enumerate1"@, 1, 1).0;
    let g15 = runtime_func(g14, "lux_lists_join2"@, 2, 1).0;
    let g16 = runtime_func(g15, "lux_lists_sublist2"@, 2, 1).0;
    let g17 = runtime_func(g16, "lux_lists_nthtail2"@, 2, 1).0;
    g17
}

/// Declares the runtime's functions on maps.
#[verifier::opaque]
pub open spec fn maps_declared(g: Gen) -> Gen {
    let g1 = runtime_func(g, "lux_maps_get2"@, 2, 1).0;
    let g2 = runtime_func(g1, "lux_maps_get3"@, 3, 1).0;
    let g3 = runtime_func(g2, "lux_maps_put3"@, 3, 1).0;
    let g4 = runtime_func(g3, "lux_maps_remove2"@, 2, 1).0;
    let g5 = runtime_func(g4, "lux_maps_is_key2"@, 2, 1).0;
    let g6 = runtime_func(g5, "lux_maps_find2"@, 2, 1).0;
    let g7 = runtime_func(g6, "lux_maps_keys1"@, 1, 1).0;
    let g8 = runtime_func(g7, "lux_maps_values1"@, 1, 1).0;
    let g9 = runtime_func(g8, "lux_maps_to_list1"@, 1, 1).0;
    let g10 = runtime_func(g9, "lux_maps_from_list1"@, 1, 1).0;
    let g11 = runtime_func(g10, "lux_maps_merge2"@, 2, 1).0;
    let g12 = runtime_func(g11, "lux_maps_size1"@, 1, 1).0;
    g12
}

/// Declares the runtime's functions on texts.
#[verifier::opaque]
pub open spec fn texts_declared(g: Gen) -> Gen {
    let g1 = runtime_func(g, "lux_string_trim1"@, 1, 1).0;
    let g2 = runtime_func(g1, "lux_string_uppercase1"@, 1, 1).0;
    let g3 = runtime_func(g2, "lux_string_lowercase1"@, 1, 1).0;
    let g4 = runtime_func(g3, "lux_string_find2"@, 2, 1).0;
    let g5 = runtime_func(g4, "lux_string_split3"@, 3, 1).0;
    let g6 = runtime_func(g5, "lux_string_replace4"@, 4, 1).0;
    let g7 = runtime_func(g6, "lux_rt_string_equal"@, 2, 1).0;
    g7
}

/// Declares the runtime's functions.
pub open spec fn runtime_declared(g: Gen) -> Gen {
    texts_declared(maps_declared(lists_declared(values_declared(g))))
}

/// The atoms of definitions, added to a table.
pub open spec fn scanned_defs(defs: Seq<(Seq<char>, FunDef)>, atoms: Seq<Seq<char>>) -> Seq<
    Seq<char>,
>
    decreases defs.len(),
{
    if defs.len() == 0 {
        atoms
    } else {
        scanned(defs.last().1.body, scanned_defs(defs.drop_last(), atoms))
    }
}

/// The definitions of modules in order, each with the name of its module.
pub open spec fn defs_of(mods: Seq<CoreMod>) -> Seq<(Seq<char>, FunDef)>
    decreases mods.len(),
{
    if mods.len() == 0 {
        Seq::empty()
    } else {
        defs_of(mods.drop_last()) + Seq::new(
            mods.last().functions.len(),
            |i: int| (mods.last().name, mods.last().functions[i]),
        )
    }
}

/// The state in which translation starts: the atoms of the program, and the
/// functions of the runtime.
pub open spec fn started(defs: Seq<(Seq<char>, FunDef)>) -> Gen {
    let atoms = scanned_defs(defs, fresh_gen().atoms);
    runtime_declared(
        Gen { atoms: with_new(with_new(atoms, "nomatch"@), "undefined"@), ..fresh_gen() },
    )
}

pub open spec fn symbol_of(def: (Seq<char>, FunDef)) -> Seq<char> {
    mangled(def.0, def.1.name, def.1.arity)
}

/// Declares the functions that are defined; or the first whose symbol is in use
/// with another signature, and what was declared before it.
pub open spec fn own_declared(defs: Seq<(Seq<char>, FunDef)>, g: Gen) -> Result<
    Gen,
    (Gen, Seq<char>, nat),
>
    decreases defs.len(),
{
    if defs.len() == 0 {
        Ok(g)
    } else {
        match own_declared(defs.drop_last(), g) {
            Err(e) => Err(e),
            Ok(g1) => {
                let f = defs.last().1;
                match declared(g1.funcs, symbol_of(defs.last()), f.arity, 1, true, true, false) {
                    Some((funcs, _)) => Ok(Gen { funcs, ..g1 }),
                    None => Err((g1, symbol_of(defs.last()), f.arity)),
                }
            },
        }
    }
}

/// The model of a function's steps.
pub struct Body {
    pub func: usize,
    pub steps: Seq<Step>,
}

/// A program that is being translated: the state, the functions that are still
/// to be translated, and those that are.
pub struct Build {
    pub gen: Gen,
    pub queue: Seq<Lambda>,
    pub bodies: Seq<Body>,
}

/// A state without the steps and the functions of the last body.
pub open spec fn cleared(g: Gen) -> Gen {
    Gen { steps: Seq::empty(), deferred: Seq::empty(), ..g }
}

/// The place of a function that has been declared.
pub open spec fn own_func(funcs: Seq<Decl>, symbol: Seq<char>) -> usize {
    match func_at(funcs, symbol) {
        Some(i) => i,
        None => 0,
    }
}

pub open spec fn def_built(b: Build, def: (Seq<char>, FunDef)) -> Build {
    let g = function_body(b.gen, def.1, def.0);
    Build {
        gen: cleared(g),
        queue: b.queue + g.deferred,
        bodies: b.bodies.push(
            Body { func: own_func(b.gen.funcs, symbol_of(def)), steps: g.steps },
        ),
    }
}

pub open spec fn defs_built(b: Build, defs: Seq<(Seq<char>, FunDef)>) -> Build
    decreases defs.len(),
{
    if defs.len() == 0 {
        b
    } else {
        def_built(defs_built(b, defs.drop_last()), defs.last())
    }
}

/// Translates the first function in the queue.
pub open spec fn lambda_built(b: Build) -> Build {
    let l = b.queue[0];
    let g = lambda_body(b.gen, l);
    Build {
        gen: cleared(g),
        queue: b.queue.drop_first() + g.deferred,
        bodies: b.bodies.push(Body { func: l.func, steps: g.steps }),
    }
}

pub open spec fn lambdas_built(b: Build, n: nat) -> Build
    decreases n,
{
    if n == 0 {
        b
    } else {
        lambda_built(lambdas_built(b, (n - 1) as nat))
    }
}

/// The model of a plan.
pub struct PlanModel {
    pub atoms: Seq<Seq<char>>,
    pub funcs: Seq<Decl>,
    pub bodies: Seq<Body>,
    /// How many of the bodies belong to definitions; closures follow.
    pub definitions: nat,
    pub stuck: bool,
    pub cautions: Seq<Caution>,
}

/// Whether the slots of every body have room on the stack.
#[verifier::opaque]
pub open spec fn all_roomy(bodies: Seq<Body>) -> bool {
    forall|i: int| 0 <= i < bodies.len() ==> roomy((#[trigger] bodies[i]).steps)
}

/// The plan that a translated program comes to.
pub open spec fn plan_at(r: Build, definitions: nat) -> PlanModel {
    PlanModel {
        atoms: r.gen.atoms,
        funcs: r.gen.funcs,
        bodies: r.bodies,
        definitions,
        stuck: r.gen.stuck || !all_roomy(r.bodies),
        cautions: r.gen.cautions,
    }
}

/// Whether `p` is the plan of a program whose functions are declared in `g`.
pub open spec fn plan_from(defs: Seq<(Seq<char>, FunDef)>, g: Gen, p: PlanModel) -> bool {
    let b = Build { gen: g, queue: Seq::empty(), bodies: Seq::empty() };
    exists|n: nat|
        #![trigger lambdas_built(defs_built(b, defs), n)]
        {
            let r = lambdas_built(defs_built(b, defs), n);
            &&& r.queue.len() == 0
            &&& forall|k: nat|
                k < n ==> (#[trigger] lambdas_built(defs_built(b, defs), k)).queue.len() > 0
            &&& p == plan_at(r, defs.len())
        }
}

/// Whether `p` is the plan of a program.
pub open spec fn is_plan(mods: Seq<CoreMod>, p: PlanModel) -> bool {
    match own_declared(defs_of(mods), started(defs_of(mods))) {
        Ok(g) => plan_from(defs_of(mods), g, p),
        Err(_) => false,
    }
}

/// A program has one plan.
pub proof fn plan_is_unique(mods: Seq<CoreMod>, p: PlanModel, q: PlanModel)
    requires
        is_plan(mods, p),
        is_plan(mods, q),
    ensures
        p == q,
{
    let defs = defs_of(mods);
    let g = own_declared(defs, started(defs))->Ok_0;
    let b = defs_built(Build { gen: g, queue: Seq::empty(), bodies: Seq::empty() }, defs);
    let n = choose|n: nat|
        #![trigger lambdas_built(b, n)]
        {
            let r = lambdas_built(b, n);
            &&& r.queue.len() == 0
            &&& forall|k: nat| k < n ==> (#[trigger] lambdas_built(b, k)).queue.len() > 0
            &&& p == plan_at(r, defs.len())
        };
    let m = choose|m: nat|
        #![trigger lambdas_built(b, m)]
        {
            let r = lambdas_built(b, m);
            &&& r.queue.len() == 0
            &&& forall|k: nat| k < m ==> (#[trigger] lambdas_built(b, k)).queue.len() > 0
            &&& q == plan_at(r, defs.len())
        };
    assert(plan_from(defs, g, p) && plan_from(defs, g, q));
    assert(lambdas_built(b, n).queue.len() == 0);
    assert(lambdas_built(b, m).queue.len() == 0);
    assert(n == m);
}

/// The steps of a function.
#[derive(Debug)]
pub struct FunctionBody {
    pub func: usize,
    pub steps: Vec<Step>,
}

/// The plan of a program.
#[derive(Debug)]
pub struct Plan {
    pub atoms: Vec<String>,
    pub funcs: Vec<FuncDecl>,
    pub bodies: Vec<FunctionBody>,
    pub stuck: bool,
    /// How many of the bodies belong to definitions; closures follow.
    pub definitions: usize,
    /// What the translation warns of, in order.
    pub warnings: Vec<Warning>,
}

/// A function that cannot be declared, and what was declared before it.
#[derive(Debug)]
pub struct Clash {
    pub funcs: Vec<FuncDecl>,
    pub symbol: String,
    pub arity: usize,
}

pub open spec fn bodies_of(v: Seq<FunctionBody>) -> Seq<Body> {
    Seq::new(v.len(), |i: int| Body { func: v[i].func, steps: v[i].steps@ })
}

impl Plan {
    pub open spec fn model(self) -> PlanModel {
        PlanModel {
            atoms: texts(self.atoms@),
            funcs: decls_of(self.funcs@),
            bodies: bodies_of(self.bodies@),
            definitions: self.definitions as nat,
            stuck: self.stuck,
            cautions: cautions_of(self.warnings@),
        }
    }
}

proof fn lemma_pending_append(a: Seq<Lambda>, b: Seq<Lambda>)
    ensures
        pending(a + b) == pending(a) + pending(b),
    decreases b.len(),
{
    if b.len() == 0 {
        assert(a + b =~= a);
    } else {
        lemma_pending_append(a, b.drop_last());
        assert((a + b).drop_last() =~= a + b.drop_last());
    }
}

proof fn lemma_pending_first(a: Seq<Lambda>)
    requires
        a.len() > 0,
    ensures
        pending(a) == 1 + closures(a[0].body) + pending(a.drop_first()),
{
    assert(a =~= seq![a[0]] + a.drop_first());
    lemma_pending_append(seq![a[0]], a.drop_first());
    assert(seq![a[0]].drop_last() =~= Seq::empty());
    assert(pending(seq![a[0]]) == pending(Seq::<Lambda>::empty()) + 1 + closures(a[0].body));
}

impl NativeCompiler {
    fn declare_values(&mut self)
        ensures
            final(self).model() == values_declared(old(self).model()),
    {
        proof {
            reveal(values_declared);
        }
        self.runtime_func("lux_rt_io_format", 2, 1);
        self.runtime_func("lux_rt_display", 1, 1);
        self.runtime_func("lux_rt_make_tuple2", 2, 1);
        self.runtime_func("lux_rt_make_tuple3", 3, 1);
        self.runtime_func("lux_rt_tuple_element", 2, 1);
        self.runtime_func("lux_rt_tuple_arity", 1, 1);
        self.runtime_func("lux_rt_make_cons", 2, 1);
        self.runtime_func("lux_rt_cons_head", 1, 1);
        self.runtime_func("lux_rt_cons_tail", 1, 1);
        self.runtime_func("lux_rt_list_length", 1, 1);
        self.runtime_func("lux_rt_to_string", 1, 1);
        self.runtime_func("lux_rt_string_concat", 2, 1);
        self.runtime_func("lux_rt_make_string", 2, 1);
        self.runtime_func("lux_rt_binary_slice", 3, 1);
        self.runtime_func("lux_rt_match_error", 0, 0);
        self.runtime_func("lux_rt_case_clause_error", 1, 0);
        self.runtime_func("lux_rt_erlang_error", 1, 0);
        self.runtime_func("lux_rt_erlang_throw", 1, 0);
        self.runtime_func("lux_rt_apply0", 1, 1);
        self.runtime_func("lux_rt_apply1", 2, 1);
        self.runtime_func("lux_rt_apply2", 3, 1);
        self.runtime_func("lux_rt_apply3", 4, 1);
        self.runtime_func("lux_rt_make_map", 3, 1);
        self.runtime_func("lux_rt_safe_div", 2, 1);
        self.runtime_func("lux_rt_safe_rem", 2, 1);
        self.runtime_func("lux_rt_add", 2, 1);
        self.runtime_func("lux_rt_sub", 2, 1);
        self.runtime_func("lux_rt_mul", 2, 1);
        self.runtime_func("lux_rt_float_div", 2, 1);
        self.runtime_func("lux_rt_negate", 1, 1);
        self.runtime_func("lux_rt_less_than", 2, 1);
        self.runtime_func("lux_rt_less_equal", 2, 1);
        self.runtime_func("lux_rt_greater_than", 2, 1);
        self.runtime_func("lux_rt_greater_equal", 2, 1);
        self.runtime_func("lux_rt_try_begin", 0, 1);
        self.runtime_func("lux_rt_try_end", 0, 0);
        self.runtime_func("lux_rt_try_get_error", 0, 1);
    }

    fn declare_lists(&mut self)
        ensures
            final(self).model() == lists_declared(old(self).model()),
    {
        proof {
            reveal(lists_declared);
        }
        self.runtime_func("lux_lists_reverse1", 1, 1);
        self.runtime_func("lux_lists_sort1", 1, 1);
        self.runtime_func("lux_lists_append2", 2, 1);
        self.runtime_func("lux_lists_flatten1", 1, 1);
        self.runtime_func("lux_lists_seq2", 2, 1);
        self.runtime_func("lux_lists_nth2", 2, 1);
        self.runtime_func("lux_lists_member2", 2, 1);
        self.runtime_func("lux_lists_map2", 2, 1);
        self.runtime_func("lux_lists_flatmap2", 2, 1);
        self.runtime_func("lux_lists_filter2", 2, 1);
        self.runtime_func("lux_lists_foldl3", 3, 1);
        self.runtime_func("lux_lists_usort1", 1, 1);
        self.runtime_func("lux_lists_zip2", 2, 1);
        self.runtime_func("lux_lists_enumerate1", 1, 1);
        self.runtime_func("lux_lists_join2", 2, 1);
        self.runtime_func("lux_lists_sublist2", 2, 1);
        self.runtime_func("lux_lists_nthtail2", 2, 1);
    }

    fn declare_maps(&mut self)
        ensures
            final(self).model() == maps_declared(old(self).model()),
    {
        proof {
            reveal(maps_declared);
        }
        self.runtime_func("lux_maps_get2", 2, 1);
        self.runtime_func("lux_maps_get3", 3, 1);
        self.runtime_func("lux_maps_put3", 3, 1);
        self.runtime_func("lux_maps_remove2", 2, 1);
        self.runtime_func("lux_maps_is_key2", 2, 1);
        self.runtime_func("lux_maps_find2", 2, 1);
        self.runtime_func("lux_maps_keys1", 1, 1);
        self.runtime_func("lux_maps_values1", 1, 1);
        self.runtime_func("lux_maps_to_list1", 1, 1);
        self.runtime_func("lux_maps_from_list1", 1, 1);
        self.runtime_func("lux_maps_merge2", 2, 1);
        self.runtime_func("lux_maps_size1", 1, 1);
    }

    fn declare_texts(&mut self)
        ensures
            final(self).model() == texts_declared(old(self).model()),
    {
        proof {
            reveal(texts_declared);
        }
        self.runtime_func("lux_string_trim1", 1, 1);
        self.runtime_func("lux_string_uppercase1", 1, 1);
        self.runtime_func("lux_string_lowercase1", 1, 1);
        self.runtime_func("lux_string_find2", 2, 1);
        self.runtime_func("lux_string_split3", 3, 1);
        self.runtime_func("lux_string_replace4", 4, 1);
        self.runtime_func("lux_rt_string_equal", 2, 1);
    }

    /// Declares the runtime's functions.
    fn declare_runtime_functions(&mut self)
        ensures
            final(self).model() == runtime_declared(old(self).model()),
    {
        self.declare_values();
        self.declare_lists();
        self.declare_maps();
        self.declare_texts();
    }

    /// The entry block of a function.
    fn enter(&mut self) -> (r: usize)
        ensures
            (final(self).model(), r) == entered(old(self).model()),
            final(self).model().deferred == Seq::<Lambda>::empty(),
    {
        self.steps = Vec::new();
        self.deferred_lambdas = Vec::new();
        proof {
            assert(self.model().deferred =~= Seq::empty());
            assert(self.model() == (Gen {
                steps: Seq::empty(),
                deferred: Seq::empty(),
                ..old(self).model()
            }));
        }
        let block = self.emit(Step::CreateBlock);
        self.emit(Step::FunctionParams(block));
        self.open(block);
        block
    }

    /// Binds parameters.
    fn bind_params(
        &mut self,
        vars: &mut VarMap,
        names: &Vec<String>,
        block: usize,
        from: usize,
        arity: u128,
    )
        requires
            from <= 1,
        ensures
            (final(self).model(), final(vars).model()) == params_bound(
                old(self).model(),
                old(vars).model(),
                texts(names@),
                block,
                from as nat,
                arity as nat,
            ),
            final(self).model().deferred == old(self).model().deferred,
    {
        let ghost g = self.model();
        let ghost vs = vars.model();
        let ghost all = texts(names@);
        let mut i: usize = 0;
        while i < names.len()
            invariant
                i <= names@.len(),
                from <= 1,
                all == texts(names@),
                (self.model(), vars.model()) == params_bound(
                    g,
                    vs,
                    all.take(i as int),
                    block,
                    from as nat,
                    arity as nat,
                ),
                self.model().deferred == g.deferred,
            decreases names@.len() - i,
        {
            assert(all.take(i as int + 1).drop_last() =~= all.take(i as int));
            assert(all.take(i as int + 1).last() == names@[i as int]@);
            let k = from as u128 + i as u128;
            if k >= arity {
                self.stick();
            } else {
                let var = self.emit(Step::DeclareVar);
                let v = self.emit(Step::Param(block, k as usize));
                self.emit(Step::DefVar(var, v));
                vars.insert(names[i].as_str(), var);
            }
            i = i + 1;
        }
        assert(all.take(i as int) =~= all);
    }

    fn bind_captures(&mut self, vars: &mut VarMap, names: &Vec<String>, p: usize)
        ensures
            (final(self).model(), final(vars).model()) == captures_bound(
                old(self).model(),
                old(vars).model(),
                texts(names@),
                p,
            ),
            final(self).model().deferred == old(self).model().deferred,
    {
        let ghost g = self.model();
        let ghost vs = vars.model();
        let ghost all = texts(names@);
        let mut i: usize = 0;
        while i < names.len()
            invariant
                i <= names@.len(),
                all == texts(names@),
                (self.model(), vars.model()) == captures_bound(g, vs, all.take(i as int), p),
                self.model().deferred == g.deferred,
            decreases names@.len() - i,
        {
            assert(all.take(i as int + 1).drop_last() =~= all.take(i as int));
            assert(all.take(i as int + 1).last() == names@[i as int]@);
            let v = self.emit(Step::Load(p, ((i as u128 + 2) * 8) as i32));
            self.bind_var(vars, names[i].as_str(), v);
            i = i + 1;
        }
        assert(all.take(i as int) =~= all);
    }

    /// The steps of a function's body.
    fn function_body(&mut self, func: &CoreFunDef, home: &str)
        ensures
            final(self).model() == function_body(old(self).model(), fundef_of(*func), home@),
            pending(final(self).model().deferred) <= closures(core_of(func.body)),
    {
        let block = self.enter();
        let mut vars = VarMap::new();
        self.bind_params(&mut vars, &func.params, block, 0, func.arity as u128);
        assert(pending(Seq::<Lambda>::empty()) == 0);
        let v = self.translate_expr(&func.body, &mut vars, home);
        self.emit(Step::Return(v));
    }

    /// The steps of a closure's body.
    fn lambda_body(&mut self, l: &DeferredLambda)
        ensures
            final(self).model() == lambda_body(old(self).model(), l.model()),
            pending(final(self).model().deferred) <= closures(core_of(l.body)),
    {
        let block = self.enter();
        let env = self.emit(Step::Param(block, 0));
        let mut vars = VarMap::new();
        if l.captures.len() > 0 {
            let p = self.emit(Step::BandImm(env, -8));
            self.bind_captures(&mut vars, &l.captures, p);
        }
        self.bind_params(&mut vars, &l.params, block, 1, l.params.len() as u128 + 1);
        assert(pending(Seq::<Lambda>::empty()) == 0);
        let v = self.translate_expr(&l.body, &mut vars, l.home.as_str());
        self.emit(Step::Return(v));
    }
}

/// The places of the definitions of modules, in order.
fn def_places(modules: &Vec<CoreModule>) -> (r: Vec<(usize, usize)>)
    ensures
        r@.len() == defs_of(modules_of(modules@)).len(),
        forall|k: int|
            0 <= k < r@.len() ==> (#[trigger] r@[k]).0 < modules@.len() && r@[k].1
                < modules@[r@[k].0 as int].functions@.len() && defs_of(modules_of(modules@))[k] == (
                modules@[r@[k].0 as int].name@,
                fundef_of(modules@[r@[k].0 as int].functions@[r@[k].1 as int]),
            ),
{
    let ghost mods = modules_of(modules@);
    let mut out: Vec<(usize, usize)> = Vec::new();
    let mut i: usize = 0;
    while i < modules.len()
        invariant
            i <= modules@.len(),
            mods == modules_of(modules@),
            out@.len() == defs_of(mods.take(i as int)).len(),
            forall|k: int|
                0 <= k < out@.len() ==> (#[trigger] out@[k]).0 < modules@.len() && out@[k].1
                    < modules@[out@[k].0 as int].functions@.len() && defs_of(
                    mods.take(i as int),
                )[k] == (
                    modules@[out@[k].0 as int].name@,
                    fundef_of(modules@[out@[k].0 as int].functions@[out@[k].1 as int]),
                ),
        decreases modules@.len() - i,
    {
        let ghost front = defs_of(mods.take(i as int));
        let ghost both = defs_of(mods.take(i as int + 1));
        assert(mods.take(i as int + 1).drop_last() =~= mods.take(i as int));
        let ghost n0 = out@.len();
        let mut j: usize = 0;
        while j < modules[i].functions.len()
            invariant
                i < modules@.len(),
                mods == modules_of(modules@),
                j <= modules@[i as int].functions@.len(),
                n0 == front.len(),
                front == defs_of(mods.take(i as int)),
                both == defs_of(mods.take(i as int + 1)),
                mods.take(i as int + 1).drop_last() == mods.take(i as int),
                out@.len() == n0 + j,
                forall|k: int|
                    0 <= k < out@.len() ==> (#[trigger] out@[k]).0 < modules@.len() && out@[k].1
                        < modules@[out@[k].0 as int].functions@.len() && both[k] == (
                        modules@[out@[k].0 as int].name@,
                        fundef_of(modules@[out@[k].0 as int].functions@[out@[k].1 as int]),
                    ),
            decreases modules@[i as int].functions@.len() - j,
        {
            out.push((i, j));
            assert(both[n0 + j] == (mods[i as int].name, mods[i as int].functions[j as int]));
            j = j + 1;
        }
        i = i + 1;
    }
    assert(mods.take(i as int) =~= mods);
    out
}

/// Plans a program, unless two of its functions share a symbol but not a
/// signature.
pub fn plan_modules(modules: &Vec<CoreModule>) -> (r: Result<Plan, Clash>)
    ensures
        r matches Ok(p) ==> is_plan(modules_of(modules@), p.model()) && forall|q: PlanModel| #[trigger]
            is_plan(modules_of(modules@), q) ==> q == p.model(),
        r is Err <==> own_declared(
            defs_of(modules_of(modules@)),
            started(defs_of(modules_of(modules@))),
        ) is Err,
        r matches Err(c) ==> {
            let e = own_declared(
                defs_of(modules_of(modules@)),
                started(defs_of(modules_of(modules@))),
            )->Err_0;
            &&& decls_of(c.funcs@) == e.0.funcs
            &&& c.symbol@ == e.1
            &&& c.arity == e.2
        },
{
    let ghost defs = defs_of(modules_of(modules@));
    let places = def_places(modules);
    let mut c = NativeCompiler::new();
    let mut i: usize = 0;
    while i < places.len()
        invariant
            i <= places@.len(),
            defs == defs_of(modules_of(modules@)),
            places@.len() == defs.len(),
            forall|k: int|
                0 <= k < places@.len() ==> (#[trigger] places@[k]).0 < modules@.len() && places@[k].1
                    < modules@[places@[k].0 as int].functions@.len() && defs[k] == (
                    modules@[places@[k].0 as int].name@,
                    fundef_of(modules@[places@[k].0 as int].functions@[places@[k].1 as int]),
                ),
            c.model() == (Gen {
                atoms: scanned_defs(defs.take(i as int), fresh_gen().atoms),
                ..fresh_gen()
            }),
        decreases places@.len() - i,
    {
        assert(defs.take(i as int + 1).drop_last() =~= defs.take(i as int));
        let (a, b) = places[i];
        assert(defs[i as int].1 == fundef_of(modules@[a as int].functions@[b as int]));
        scan_atoms_expr(&modules[a].functions[b].body, &mut c.atom_table);
        i = i + 1;
    }
    assert(defs.take(i as int) =~= defs);
    add_new(&mut c.atom_table, "nomatch");
    add_new(&mut c.atom_table, "undefined");
    c.declare_runtime_functions();
    assert(c.model() == started(defs));
    let mut i: usize = 0;
    while i < places.len()
        invariant
            i <= places@.len(),
            defs == defs_of(modules_of(modules@)),
            places@.len() == defs.len(),
            forall|k: int|
                0 <= k < places@.len() ==> (#[trigger] places@[k]).0 < modules@.len() && places@[k].1
                    < modules@[places@[k].0 as int].functions@.len() && defs[k] == (
                    modules@[places@[k].0 as int].name@,
                    fundef_of(modules@[places@[k].0 as int].functions@[places@[k].1 as int]),
                ),
            own_declared(defs.take(i as int), started(defs)) == Ok::<
                Gen,
                (Gen, Seq<char>, nat),
            >(c.model()),
        decreases places@.len() - i,
    {
        assert(defs.take(i as int + 1).drop_last() =~= defs.take(i as int));
        let (a, b) = places[i];
        let arity = modules[a].functions[b].arity;
        let symbol = mangle_symbol(
            modules[a].name.as_str(),
            modules[a].functions[b].name.as_str(),
            arity,
        );
        assert(symbol@ == symbol_of(defs[i as int]));
        let ghost before = c.model();
        match c.declare(symbol.as_str(), arity as u128, 1, true, true, false) {
            Some(_) => {},
            None => {
                proof {
                    assert(own_declared(defs.take(i as int + 1), started(defs)) is Err);
                    lemma_clash_stays(defs, started(defs), i as int + 1);
                }
                return Err(Clash { funcs: c.funcs, symbol, arity });
            },
        }
        i = i + 1;
    }
    assert(defs.take(i as int) =~= defs);
    let p = build(modules, &places, c, Ghost(defs));
    proof {
        let mods = modules_of(modules@);
        assert forall|q: PlanModel| #[trigger] is_plan(mods, q) implies q == p.model() by {
            plan_is_unique(mods, p.model(), q);
        }
    }
    Ok(p)
}

proof fn lemma_clash_stays(defs: Seq<(Seq<char>, FunDef)>, g: Gen, i: int)
    requires
        0 <= i <= defs.len(),
        own_declared(defs.take(i), g) is Err,
    ensures
        own_declared(defs, g) == own_declared(defs.take(i), g),
    decreases defs.len(),
{
    if i == defs.len() {
        assert(defs.take(i) =~= defs);
    } else {
        assert(defs.drop_last().take(i) =~= defs.take(i));
        lemma_clash_stays(defs.drop_last(), g, i);
    }
}

/// Translates the functions of a program.
fn build(
    modules: &Vec<CoreModule>,
    places: &Vec<(usize, usize)>,
    start: NativeCompiler,
    Ghost(defs): Ghost<Seq<(Seq<char>, FunDef)>>,
) -> (r: Plan)
    requires
        places@.len() == defs.len(),
        forall|k: int|
            0 <= k < places@.len() ==> (#[trigger] places@[k]).0 < modules@.len() && places@[k].1
                < modules@[places@[k].0 as int].functions@.len() && defs[k] == (
                modules@[places@[k].0 as int].name@,
                fundef_of(modules@[places@[k].0 as int].functions@[places@[k].1 as int]),
            ),
    ensures
        plan_from(defs, start.model(), r.model()),
{
    let mut c = start;
    let ghost b0 = Build { gen: c.model(), queue: Seq::empty(), bodies: Seq::empty() };
    let mut queue: Vec<DeferredLambda> = Vec::new();
    let mut bodies: Vec<FunctionBody> = Vec::new();
    assert(lambdas_of(queue@) =~= Seq::empty());
    assert(bodies_of(bodies@) =~= Seq::empty());
    let mut i: usize = 0;
    while i < places.len()
        invariant
            i <= places@.len(),
            places@.len() == defs.len(),
            forall|k: int|
                0 <= k < places@.len() ==> (#[trigger] places@[k]).0 < modules@.len() && places@[k].1
                    < modules@[places@[k].0 as int].functions@.len() && defs[k] == (
                    modules@[places@[k].0 as int].name@,
                    fundef_of(modules@[places@[k].0 as int].functions@[places@[k].1 as int]),
                ),
            defs_built(b0, defs.take(i as int)) == (Build {
                gen: c.model(),
                queue: lambdas_of(queue@),
                bodies: bodies_of(bodies@),
            }),
            bodies@.len() == i,
        decreases places@.len() - i,
    {
        assert(defs.take(i as int + 1).drop_last() =~= defs.take(i as int));
        let (a, b) = places[i];
        let f = &modules[a].functions[b];
        let symbol = mangle_symbol(modules[a].name.as_str(), f.name.as_str(), f.arity);
        assert(symbol@ == symbol_of(defs[i as int]));
        let func = match c.func_at(symbol.as_str()) {
            Some(k) => k,
            None => 0,
        };
        c.function_body(f, modules[a].name.as_str());
        let steps = take_body(&mut c, &mut queue);
        let ghost before = bodies_of(bodies@);
        bodies.push(FunctionBody { func, steps });
        assert(bodies_of(bodies@) =~= before.push(Body { func, steps: steps@ }));
        i = i + 1;
    }
    assert(defs.take(i as int) =~= defs);
    let definitions = bodies.len();
    assert(definitions == defs.len());
    let ghost b = defs_built(b0, defs);
    let ghost mut n: nat = 0;
    let mut k: usize = 0;
    assert(queue@.skip(0) =~= queue@);
    while k < queue.len()
        invariant
            k <= queue@.len(),
            lambdas_built(b, n) == (Build {
                gen: c.model(),
                queue: lambdas_of(queue@.skip(k as int)),
                bodies: bodies_of(bodies@),
            }),
            forall|m: nat| m < n ==> (#[trigger] lambdas_built(b, m)).queue.len() > 0,
        decreases pending(lambdas_of(queue@.skip(k as int))),
    {
        let ghost rest = lambdas_of(queue@.skip(k as int));
        let ghost bodies0 = bodies_of(bodies@);
        let ghost queue0 = queue@;
        assert(rest[0] == queue@[k as int].model());
        let func = queue[k].func;
        c.lambda_body(&queue[k]);
        let ghost g = c.model();
        let steps = take_body(&mut c, &mut queue);
        bodies.push(FunctionBody { func, steps });
        k = k + 1;
        proof {
            assert(bodies_of(bodies@) =~= bodies0.push(Body { func, steps: steps@ }));
            assert(lambdas_of(queue@.skip(k as int)) =~= rest.drop_first() + g.deferred) by {
                assert(lambdas_of(queue@) =~= lambdas_of(queue0) + g.deferred);
                assert forall|q: int| 0 <= q < queue@.len() - k implies lambdas_of(
                    queue@.skip(k as int),
                )[q] == (rest.drop_first() + g.deferred)[q] by {
                    assert(lambdas_of(queue@.skip(k as int))[q] == lambdas_of(queue@)[q + k]);
                }
            }
            lemma_pending_first(rest);
            lemma_pending_append(rest.drop_first(), g.deferred);
            n = n + 1;
            assert(lambdas_built(b, n) == lambda_built(lambdas_built(b, (n - 1) as nat)));
        }
    }
    assert(queue@.skip(k as int) =~= Seq::empty());
    let stuck = c.stuck || !are_roomy(&bodies);
    Plan { atoms: c.atom_table, funcs: c.funcs, bodies, stuck, definitions, warnings: c.warnings }
}

/// Whether the slots of every body have room on the stack.
fn are_roomy(bodies: &Vec<FunctionBody>) -> (r: bool)
    ensures
        r == all_roomy(bodies_of(bodies@)),
{
    proof {
        reveal(all_roomy);
    }
    let ghost models = bodies_of(bodies@);
    let mut i: usize = 0;
    while i < bodies.len()
        invariant
            i <= bodies@.len(),
            models == bodies_of(bodies@),
            forall|j: int| 0 <= j < i ==> roomy((#[trigger] models[j]).steps),
        decreases bodies@.len() - i,
    {
        assert(models[i as int].steps == bodies@[i as int].steps@);
        if !is_roomy(&bodies[i].steps) {
            proof {
                reveal(all_roomy);
                assert(!roomy(models[i as int].steps));
            }
            return false;
        }
        i = i + 1;
    }
    true
}

/// Takes the steps of a body, and adds the functions it has deferred to the
/// queue.
fn take_body(c: &mut NativeCompiler, queue: &mut Vec<DeferredLambda>) -> (r: Vec<Step>)
    ensures
        r@ == old(c).model().steps,
        final(c).model() == cleared(old(c).model()),
        lambdas_of(final(queue)@) == lambdas_of(old(queue)@) + old(c).model().deferred,
        final(queue)@.len() == old(queue)@.len() + old(c).model().deferred.len(),
{
    let ghost before = queue@;
    let ghost more = c.deferred_lambdas@;
    queue.append(&mut c.deferred_lambdas);
    let mut steps: Vec<Step> = Vec::new();
    std::mem::swap(&mut steps, &mut c.steps);
    proof {
        assert(lambdas_of(queue@) =~= lambdas_of(before) + lambdas_of(more));
        assert(c.model().deferred =~= Seq::empty());
        assert(c.model().steps =~= Seq::empty());
    }
    steps
}

} // verus!
