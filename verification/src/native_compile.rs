//! Compiling a program to an object file and the C source it is linked with.
use cranelift_codegen::Context;
use cranelift_object::ObjectModule;
use vstd::prelude::*;
use crate::erlang::{CoreMod, CoreModule};
use crate::native::{mangled, Decl, Step};
use crate::native_build::{
    all_defined, build_function, declare, declared_in, defining, emission, emit_object,
    given_of, host_object, is_built, is_given, is_said, made_as, placed, program_making, refusal,
    same_results, steps_of, symbol_place, Declared,
};
use crate::native_frame::roomy;
use crate::native_gen::{decls_of, mangle_symbol, FuncDecl, NativeCompiler};
use crate::native_program::{
    all_roomy, defs_of, is_plan, own_declared, plan_modules, started, Clash, Plan, PlanModel,
};
use crate::native_sound::{
    body_fits, clash_stands, distinct, exported, has_body, in_the_way, plan_defines_exports,
    plan_fits, plan_is_roomy, plan_symbols_differ,
};
use crate::runtime::{generate_runtime_c, runtime_text, NativeError, NativeOutput};
use crate::translate::modules_of;

verus! {

/// The symbol that a program starts with: `apply` of the module that is given,
/// or the first function of the first module.
pub open spec fn entry_symbol(mods: Seq<CoreMod>, entry: Option<Seq<char>>, arity: nat) -> Seq<char> {
    match entry {
        Some(m) => mangled(m, "apply"@, arity),
        None => mangled(mods[0].name, mods[0].functions[0].name, mods[0].functions[0].arity),
    }
}

/// What is told of a closure's function that Cranelift refuses to define.
pub open spec fn lambda_refusal(symbol: Seq<char>, words: Seq<char>) -> Seq<char> {
    "define lambda "@ + symbol + ": "@ + words
}

fn message(start: &str, end: &str) -> (r: NativeError)
    ensures
        r matches NativeError::Message(t) && t@ == start@ + end@,
{
    let mut t = start.to_owned();
    t.append(end);
    NativeError::Message(t)
}

/// A function as it is declared: it has no body yet.
pub open spec fn as_declared(d: Decl) -> Declared {
    Declared {
        symbol: d.symbol,
        params: d.params,
        results: d.results,
        export: d.export,
        body: None,
    }
}

/// The function without its body.
pub open spec fn unbuilt(d: Declared) -> Declared {
    Declared { body: None, ..d }
}

/// Whether an object file has the functions of a plan, and nothing else: each
/// is declared as the plan says, and those that the plan has steps for have the
/// body that these steps build.
pub open spec fn holds(declared: Seq<Declared>, p: PlanModel) -> bool {
    &&& declared.len() == p.funcs.len()
    &&& forall|k: int|
        0 <= k < p.funcs.len() ==> unbuilt(#[trigger] declared[k]) == as_declared(
            p.funcs[k],
        )
    &&& forall|i: int|
        0 <= i < p.bodies.len() ==> 0 <= (#[trigger] p.bodies[i]).func < p.funcs.len()
            && is_body(declared[p.bodies[i].func as int], p.funcs, p.bodies[i].steps)
    &&& all_defined(declared)
}

/// Whether a function has the body that steps build.
pub open spec fn is_body(d: Declared, funcs: Seq<Decl>, steps: Seq<Step>) -> bool {
    exists|ids: Seq<Option<usize>>|
        ids.len() == steps.len() && d.body == Some(#[trigger] placed(funcs, steps, ids).0)
}

/// Whether a function can be declared where its symbol is not in use.
pub open spec fn declarable(d: Decl) -> bool {
    !d.symbol.contains('\0') && d.params <= usize::MAX
}

pub open spec fn all_declarable(funcs: Seq<Decl>) -> bool {
    forall|k: int| 0 <= k < funcs.len() ==> declarable(#[trigger] funcs[k])
}

/// Whether a text tells of the first function that cannot be declared.
pub open spec fn is_undeclared(t: Seq<char>, funcs: Seq<Decl>) -> bool {
    exists|k: int, words: Seq<char>|
        #![trigger funcs[k], refusal("declare_function: "@, words)]
        {
            &&& 0 <= k < funcs.len()
            &&& !declarable(funcs[k])
            &&& forall|j: int| 0 <= j < k ==> declarable(#[trigger] funcs[j])
            &&& t == refusal("declare_function: "@, words)
            &&& if funcs[k].params > usize::MAX {
                words == funcs[k].symbol
            } else {
                is_said(words)
            }
        }
}

/// Whether an object file has functions that are declared, and was made as
/// another.
pub open spec fn is_declared(d: ObjectModule, m: ObjectModule, funcs: Seq<Decl>) -> bool {
    &&& declared_in(d) == Seq::new(funcs.len(), |k: int| as_declared(funcs[k]))
    &&& made_as(d) == made_as(m)
}

/// Whether a result is a message.
pub open spec fn tells<T>(r: Result<T, NativeError>, t: Seq<char>) -> bool {
    r matches Err(NativeError::Message(s)) && s@ == t
}

/// Declares functions in order. It fails exactly if one of them cannot be
/// declared, and tells of the first.
pub(crate) fn declare_all(m: &mut ObjectModule, funcs: &Vec<FuncDecl>) -> (r: Result<(), NativeError>)
    requires
        declared_in(*old(m)).len() == 0,
        distinct(decls_of(funcs@)),
    ensures
        r is Ok <==> all_declarable(decls_of(funcs@)),
        r is Ok ==> is_declared(*final(m), *old(m), decls_of(funcs@)),
        r is Err ==> exists|t: Seq<char>|
            #[trigger] tells(r, t) && is_undeclared(t, decls_of(funcs@)),
{
    let ghost all = decls_of(funcs@);
    let mut i: usize = 0;
    while i < funcs.len()
        invariant
            i <= funcs@.len(),
            all == decls_of(funcs@),
            distinct(all),
            declared_in(*m).len() == i,
            made_as(*m) == made_as(*old(m)),
            forall|k: int|
                0 <= k < i ==> (#[trigger] declared_in(*m)[k]) == as_declared(all[k]),
            forall|k: int| 0 <= k < i ==> declarable(#[trigger] all[k]),
        decreases funcs@.len() - i,
    {
        let f = &funcs[i];
        assert(all[i as int] == f.model());
        if f.params > usize::MAX as u128 {
            let e: Result<(), NativeError> = Err(message("declare_function: ", f.symbol.as_str()));
            assert(tells(e, refusal("declare_function: "@, f.symbol@)));
            assert(!declarable(all[i as int]));
            return e;
        }
        proof {
            lemma_place(declared_in(*m), f.symbol@);
            assert forall|k: int| 0 <= k < i implies (#[trigger] declared_in(*m)[k]).symbol
                != f.symbol@ by {
                assert(declared_in(*m)[k] == as_declared(all[k]));
                assert(all[k].symbol != all[i as int].symbol);
            }
        }
        match declare(m, f.symbol.as_str(), f.params as usize, f.results, f.export) {
            Ok(_) => {},
            Err(words) => {
                let e: Result<(), NativeError> = Err(message("declare_function: ", words.as_str()));
                assert(tells(e, refusal("declare_function: "@, words@)));
                assert(!declarable(all[i as int]));
                return e;
            },
        }
        i = i + 1;
    }
    assert(declared_in(*m) =~= Seq::new(all.len(), |k: int| as_declared(all[k])));
    Ok(())
}

/// The place of a symbol is that of a function which has it.
pub proof fn lemma_place(s: Seq<Declared>, symbol: Seq<char>)
    ensures
        match symbol_place(s, symbol) {
            Some(i) => 0 <= i < s.len() && s[i].symbol == symbol,
            None => forall|i: int| 0 <= i < s.len() ==> (#[trigger] s[i]).symbol != symbol,
        },
    decreases s.len(),
{
    if s.len() > 0 {
        let front = s.drop_last();
        lemma_place(front, symbol);
        if s.last().symbol != symbol && symbol_place(front, symbol) is None {
            assert forall|i: int| 0 <= i < s.len() implies (#[trigger] s[i]).symbol != symbol by {
                if i < front.len() {
                    assert(front[i] == s[i]);
                }
            }
        }
    }
}

/// What is told of body `i` of a plan if Cranelift refuses to define it.
pub open spec fn definition_refusal(p: PlanModel, i: int, words: Seq<char>) -> Seq<char> {
    if i < p.definitions {
        refusal("define_function: "@, words)
    } else {
        lambda_refusal(p.funcs[p.bodies[i].func as int].symbol, words)
    }
}

/// The object file once functions are defined in it as the first bodies of a
/// plan, or what is told of the first that Cranelift refuses.
pub open spec fn object_of(m: ObjectModule, fs: Seq<Context>, p: PlanModel, n: nat) -> Result<
    ObjectModule,
    Seq<char>,
>
    decreases n,
{
    if n == 0 {
        Ok(m)
    } else {
        match object_of(m, fs, p, (n - 1) as nat) {
            Err(t) => Err(t),
            Ok(m1) => match defining(m1, p.bodies[n - 1].func, fs[n - 1]) {
                Ok(m2) => Ok(m2),
                Err(words) => Err(definition_refusal(p, n - 1, words)),
            },
        }
    }
}

/// The bytes of the object file once functions are defined in it, or what is
/// told of the first thing that Cranelift refuses.
pub open spec fn bytes_of(m: ObjectModule, fs: Seq<Context>, p: PlanModel) -> Result<
    Seq<u8>,
    Seq<char>,
> {
    match object_of(m, fs, p, fs.len()) {
        Err(t) => Err(t),
        Ok(m1) => match emission(m1) {
            Ok(bytes) => Ok(bytes),
            Err(words) => Err(refusal("object emit: "@, words)),
        },
    }
}

/// Whether functions were built by the bodies of a plan: all of them, or those
/// up to one that Cranelift refuses.
pub open spec fn are_built(m: ObjectModule, fs: Seq<Context>, p: PlanModel) -> bool {
    &&& fs.len() <= p.bodies.len()
    &&& forall|i: int|
        0 <= i < fs.len() ==> is_built(
            #[trigger] fs[i],
            p.funcs,
            p.bodies[i].func,
            p.bodies[i].steps,
        )
    &&& fs.len() == p.bodies.len() || object_of(m, fs, p, fs.len()) is Err
}

/// Whether a result is what a plan comes to in an object file that has its
/// functions declared: the bytes of an object file that holds the plan, or what
/// is told of the first thing that Cranelift refuses.
pub open spec fn is_emitted(
    r: Result<Seq<u8>, Seq<char>>,
    m: ObjectModule,
    fs: Seq<Context>,
    p: PlanModel,
) -> bool {
    &&& are_built(m, fs, p)
    &&& r == bytes_of(m, fs, p)
    &&& r is Ok ==> holds(declared_in(object_of(m, fs, p, fs.len())->Ok_0), p)
}

/// Whether an output is that of a plan and the bytes of its object file.
pub open spec fn is_output(
    out: NativeOutput,
    p: PlanModel,
    bytes: Seq<u8>,
    symbol: Seq<char>,
    arity: nat,
) -> bool {
    &&& out.object_bytes@ == bytes
    &&& out.runtime_c_source@ == runtime_text(p.atoms, symbol, arity)
    &&& out.entry_symbol@ == symbol
}

/// Whether a result is what a plan comes to in a new object file.
pub open spec fn is_planned(
    r: Result<NativeOutput, NativeError>,
    m: ObjectModule,
    p: PlanModel,
    symbol: Seq<char>,
    arity: nat,
) -> bool {
    if all_declarable(p.funcs) {
        exists|d: ObjectModule, fs: Seq<Context>|
            #![trigger bytes_of(d, fs, p)]
            is_declared(d, m, p.funcs) && is_emitted(bytes_of(d, fs, p), d, fs, p) && match bytes_of(
                d,
                fs,
                p,
            ) {
                Ok(bytes) => r matches Ok(out) && is_output(out, p, bytes, symbol, arity),
                Err(t) => tells(r, t),
            }
    } else {
        exists|t: Seq<char>| #[trigger] tells(r, t) && is_undeclared(t, p.funcs)
    }
}

/// Whether a result is what modules come to in a new object file.
pub open spec fn is_compiled(
    r: Result<NativeOutput, NativeError>,
    m: ObjectModule,
    mods: Seq<CoreMod>,
    entry: Option<Seq<char>>,
    arity: nat,
) -> bool {
    match own_declared(defs_of(mods), started(defs_of(mods))) {
        Ok(_) => exists|p: PlanModel| #[trigger]
            is_plan(mods, p) && is_planned(r, m, p, entry_symbol(mods, entry, arity), arity),
        Err((g, _, _)) => if all_declarable(g.funcs) {
            exists|words: Seq<char>|
                #[trigger] is_said(words) && tells(r, refusal("declare_function: "@, words))
        } else {
            exists|t: Seq<char>| #[trigger] tells(r, t) && is_undeclared(t, g.funcs)
        },
    }
}

/// The view of the name of a module, if there is one.
pub open spec fn name_of(entry: Option<&str>) -> Option<Seq<char>> {
    match entry {
        Some(m) => Some(m@),
        None => None,
    }
}

impl NativeCompiler {
    /// Compiles modules to an object file for this machine, and to the C source
    /// that it is linked with. What stands in the object file is what Cranelift
    /// makes of the plan of the modules. This machine decides whether there is
    /// an object file to start with.
    pub fn compile(modules: &Vec<CoreModule>, entry_module: Option<&str>, entry_arity: usize) -> (r:
        Result<NativeOutput, NativeError>)
        requires
            entry_module is None ==> modules@.len() > 0 && modules@[0].functions@.len() > 0,
            forall|p: PlanModel| #[trigger] is_plan(modules_of(modules@), p) ==> !p.stuck,
        ensures
            exists|h: Result<ObjectModule, Seq<char>>|
                #[trigger] is_given(h, program_making()) && match h {
                    Ok(m) => is_compiled(
                        r,
                        m,
                        modules_of(modules@),
                        name_of(entry_module),
                        entry_arity as nat,
                    ),
                    Err(t) => tells(r, t),
                },
            own_declared(
                defs_of(modules_of(modules@)),
                started(defs_of(modules_of(modules@))),
            ) is Err ==> r is Err,
    {
        let h = host_object();
        assert(is_given(given_of(h), program_making()));
        match h {
            Ok(m) => Self::compile_into(m, modules, entry_module, entry_arity),
            Err(e) => Err(NativeError::Message(e)),
        }
    }

    /// Compiles modules into a new object file. The result is the output exactly
    /// if all functions of the plan can be declared and Cranelift refuses neither
    /// to define one of them nor to write the object file; otherwise it tells of
    /// the first that is refused.
    pub fn compile_into(
        m: ObjectModule,
        modules: &Vec<CoreModule>,
        entry_module: Option<&str>,
        entry_arity: usize,
    ) -> (r: Result<NativeOutput, NativeError>)
        requires
            declared_in(m) == Seq::<Declared>::empty(),
            entry_module is None ==> modules@.len() > 0 && modules@[0].functions@.len() > 0,
            forall|p: PlanModel| #[trigger] is_plan(modules_of(modules@), p) ==> !p.stuck,
        ensures
            is_compiled(
                r,
                m,
                modules_of(modules@),
                name_of(entry_module),
                entry_arity as nat,
            ),
    {
        let ghost new = m;
        let mut m = m;
        let plan = match plan_modules(modules) {
            Ok(plan) => plan,
            Err(clash) => {
                proof {
                    clash_stands(modules_of(modules@));
                    assert(clash.funcs.len() == decls_of(clash.funcs@).len());
                }
                return declare_clash(&mut m, &clash);
            },
        };
        let ghost p = plan.model();
        proof {
            lemma_sizes(plan);
            plan_fits(modules_of(modules@), p);
            plan_defines_exports(modules_of(modules@), p);
            plan_symbols_differ(modules_of(modules@), p);
            plan_is_roomy(modules_of(modules@), p);
        }
        match declare_all(&mut m, &plan.funcs) {
            Ok(_) => {},
            Err(e) => {
                let r: Result<NativeOutput, NativeError> = Err(e);
                proof {
                    let t = choose|t: Seq<char>|
                        #[trigger] tells(Err::<(), NativeError>(e), t) && is_undeclared(t, p.funcs);
                    assert(tells(r, t));
                    assert(is_plan(modules_of(modules@), p));
                }
                return r;
            },
        }
        let ghost d = m;
        let (bytes, Ghost(fs)) = build_and_emit(m, &plan);
        assert(is_plan(modules_of(modules@), p));
        match bytes {
            Ok(bytes) => {
                let symbol = match entry_module {
                    Some(name) => mangle_symbol(name, "apply", entry_arity),
                    None => {
                        let f = &modules[0].functions[0];
                        mangle_symbol(modules[0].name.as_str(), f.name.as_str(), f.arity)
                    },
                };
                let source = generate_runtime_c(&plan.atoms, symbol.as_str(), entry_arity);
                assert(bytes_of(d, fs, p) == Ok::<Seq<u8>, Seq<char>>(bytes@));
                Ok(
                    NativeOutput {
                        object_bytes: bytes,
                        runtime_c_source: source,
                        entry_symbol: symbol,
                    },
                )
            },
            Err(t) => {
                assert(bytes_of(d, fs, p) == Err::<Seq<u8>, Seq<char>>(t@));
                Err(NativeError::Message(t))
            },
        }
    }
}

/// What stands in memory fits it.
pub proof fn lemma_sizes(plan: Plan)
    ensures
        plan.model().funcs.len() <= usize::MAX,
        forall|i: int|
            0 <= i < plan.model().bodies.len() ==> (
            #[trigger] plan.model().bodies[i]).steps.len() <= usize::MAX,
{
    assert(plan.funcs.len() == plan.model().funcs.len());
    assert forall|i: int| 0 <= i < plan.model().bodies.len() implies (
    #[trigger] plan.model().bodies[i]).steps.len() <= usize::MAX by {
        assert(plan.bodies@[i].steps.len() == plan.model().bodies[i].steps.len());
    }
}

/// Declares functions up to one whose symbol is in use with another signature,
/// and tells what Cranelift says of it.
fn declare_clash(m: &mut ObjectModule, clash: &Clash) -> (r: Result<NativeOutput, NativeError>)
    requires
        declared_in(*old(m)).len() == 0,
        distinct(decls_of(clash.funcs@)),
        in_the_way(decls_of(clash.funcs@), clash.symbol@, clash.arity as nat),
    ensures
        if all_declarable(decls_of(clash.funcs@)) {
            exists|words: Seq<char>|
                #[trigger] is_said(words) && tells(r, refusal("declare_function: "@, words))
        } else {
            exists|t: Seq<char>|
                #[trigger] tells(r, t) && is_undeclared(t, decls_of(clash.funcs@))
        },
{
    let ghost all = decls_of(clash.funcs@);
    match declare_all(m, &clash.funcs) {
        Ok(_) => {},
        Err(e) => {
            let r: Result<NativeOutput, NativeError> = Err(e);
            proof {
                let t = choose|t: Seq<char>|
                    #[trigger] tells(Err::<(), NativeError>(e), t) && is_undeclared(t, all);
                assert(tells(r, t));
            }
            return r;
        },
    }
    proof {
        let i = choose|i: int|
            0 <= i < all.len() && (#[trigger] all[i]).symbol == clash.symbol@ && (all[i].params
                != clash.arity || all[i].results != 1);
        lemma_place(declared_in(*m), clash.symbol@);
        assert(declared_in(*m)[i] == as_declared(all[i]));
        let k = symbol_place(declared_in(*m), clash.symbol@)->Some_0;
        assert(declared_in(*m)[k] == as_declared(all[k]));
        assert(all[k].symbol == all[i].symbol);
        assert(declarable(all[i]));
    }
    match declare(m, clash.symbol.as_str(), clash.arity, 1, true) {
        Ok(_) => {
            assert(false);
            Err(message("declare_function: ", ""))
        },
        Err(words) => {
            assert(is_said(words@));
            Err(message("declare_function: ", words.as_str()))
        },
    }
}

/// The view of bytes, or of what is told in their place.
pub open spec fn written_of(r: Result<Vec<u8>, String>) -> Result<Seq<u8>, Seq<char>> {
    match r {
        Ok(bytes) => Ok(bytes@),
        Err(t) => Err(t@),
    }
}

/// Builds the functions of a plan and writes the object file. The functions that
/// were compiled come back too.
fn build_and_emit(start: ObjectModule, plan: &Plan) -> (r: (
    Result<Vec<u8>, String>,
    Ghost<Seq<Context>>,
))
    requires
        declared_in(start) == Seq::new(
            plan.model().funcs.len(),
            |k: int| as_declared(plan.model().funcs[k]),
        ),
        all_declarable(plan.model().funcs),
        all_roomy(plan.model().bodies),
        forall|i: int|
            0 <= i < plan.bodies@.len() ==> body_fits(
                #[trigger] plan.model().bodies[i],
                plan.model().funcs,
            ),
        forall|k: int| #[trigger]
            exported(plan.model().funcs, k) ==> has_body(plan.model().bodies, k),
    ensures
        is_emitted(written_of(r.0), start, r.1@, plan.model()),
{
    let mut m = start;
    let ghost p = plan.model();
    let ghost funcs = p.funcs;
    let ghost bodies = p.bodies;
    let ghost mut fs: Seq<Context> = Seq::empty();
    let mut i: usize = 0;
    while i < plan.bodies.len()
        invariant
            i <= plan.bodies@.len(),
            p == plan.model(),
            funcs == p.funcs,
            bodies == p.bodies,
            all_declarable(funcs),
            all_roomy(bodies),
            forall|j: int|
                0 <= j < bodies.len() ==> body_fits(#[trigger] bodies[j], funcs),
            declared_in(m).len() == funcs.len(),
            forall|k: int|
                0 <= k < funcs.len() ==> unbuilt(#[trigger] declared_in(m)[k]) == as_declared(
                    funcs[k],
                ),
            forall|j: int|
                0 <= j < i ==> is_body(
                    declared_in(m)[(#[trigger] bodies[j]).func as int],
                    funcs,
                    bodies[j].steps,
                ),
            fs.len() == i,
            forall|j: int|
                0 <= j < i ==> is_built(#[trigger] fs[j], funcs, bodies[j].func, bodies[j].steps),
            object_of(start, fs, p, i as nat) == Ok::<ObjectModule, Seq<char>>(m),
        decreases plan.bodies@.len() - i,
    {
        let func = plan.bodies[i].func;
        assert(bodies[i as int].steps == plan.bodies@[i as int].steps@);
        assert(body_fits(bodies[i as int], funcs));
        assert(roomy(bodies[i as int].steps)) by {
            reveal(all_roomy);
        }
        let f = &plan.funcs[func];
        assert(funcs[func as int] == f.model());
        assert(declarable(funcs[func as int]));
        let ghost before = declared_in(m);
        assert(unbuilt(before[func as int]) == as_declared(funcs[func as int]));
        assert(same_results(before, funcs)) by {
            assert forall|j: int| 0 <= j < funcs.len() implies (#[trigger] before[j]).results
                == funcs[j].results by {
                assert(unbuilt(before[j]) == as_declared(funcs[j]));
            }
        }
        let (done, Ghost(context)) = build_function(
            &mut m,
            func,
            f.params as usize,
            f.results,
            &plan.bodies[i].steps,
            Ghost(funcs),
        );
        let ghost fewer = fs;
        proof {
            fs = fs.push(context);
            lemma_object_of(start, fewer, fs, p, i as nat);
            assert forall|j: int| 0 <= j < i + 1 implies is_built(
                #[trigger] fs[j],
                funcs,
                bodies[j].func,
                bodies[j].steps,
            ) by {
                if j < i {
                    assert(fs[j] == fewer[j]);
                }
            }
        }
        match done {
            Ok(_) => {
                proof {
                    let steps = bodies[i as int].steps;
                    let ids = choose|ids: Seq<Option<usize>>|
                        ids.len() == steps.len() && steps_of(context) == #[trigger] placed(
                            funcs,
                            steps,
                            ids,
                        ).0;
                    assert(declared_in(m)[func as int].body == Some(placed(funcs, steps, ids).0));
                    assert(is_body(declared_in(m)[func as int], funcs, steps));
                    assert forall|j: int| 0 <= j < i + 1 implies is_body(
                        declared_in(m)[(#[trigger] bodies[j]).func as int],
                        funcs,
                        bodies[j].steps,
                    ) by {
                        if j < i {
                            assert(body_fits(bodies[j], funcs));
                            assert(before[bodies[j].func as int].body is Some);
                        }
                    }
                    assert forall|k: int| 0 <= k < funcs.len() implies unbuilt(
                        #[trigger] declared_in(m)[k],
                    ) == as_declared(funcs[k]) by {
                        assert(unbuilt(before[k]) == as_declared(funcs[k]));
                    }
                }
            },
            Err(words) => {
                let mut t = if i < plan.definitions {
                    "define_function: ".to_owned()
                } else {
                    let mut t = "define lambda ".to_owned();
                    t.append(f.symbol.as_str());
                    t.append(": ");
                    t
                };
                t.append(words.as_str());
                assert(t@ == definition_refusal(p, i as int, words@));
                assert(bytes_of(start, fs, p) == Err::<Seq<u8>, Seq<char>>(t@));
                return (Err(t), Ghost(fs));
            },
        }
        i = i + 1;
    }
    assert(all_defined(declared_in(m))) by {
        assert forall|k: int| 0 <= k < declared_in(m).len() && (#[trigger] declared_in(
            m,
        )[k]).export implies declared_in(m)[k].body is Some by {
            assert(unbuilt(declared_in(m)[k]) == as_declared(funcs[k]));
            assert(exported(funcs, k));
            let j = choose|j: int| 0 <= j < bodies.len() && (#[trigger] bodies[j]).func == k;
            assert(is_body(declared_in(m)[bodies[j].func as int], funcs, bodies[j].steps));
        }
    }
    assert(holds(declared_in(m), p)) by {
        assert forall|j: int| 0 <= j < bodies.len() implies 0 <= (#[trigger] bodies[j]).func
            < funcs.len() && is_body(
            declared_in(m)[bodies[j].func as int],
            funcs,
            bodies[j].steps,
        ) by {
            assert(body_fits(bodies[j], funcs));
        }
    }
    let r = emit_object(m);
    (r, Ghost(fs))
}

/// Functions that are added do not change what the first ones come to.
proof fn lemma_object_of(m: ObjectModule, a: Seq<Context>, b: Seq<Context>, p: PlanModel, n: nat)
    requires
        n <= a.len(),
        a.is_prefix_of(b),
    ensures
        object_of(m, a, p, n) == object_of(m, b, p, n),
    decreases n,
{
    if n > 0 {
        lemma_object_of(m, a, b, p, (n - 1) as nat);
        assert(a[n - 1] == b[n - 1]);
    }
}

} // verus!
