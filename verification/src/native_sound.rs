//! The steps of a plan refer to one another as they should: a step that needs a
//! block, a variable, a slot, a function or a value names an earlier step that
//! yields one.
use vstd::prelude::*;
use crate::erlang::{Clause, Core, CoreMod, FunDef, Literal, Pat, Segment};
use crate::native::{
    atom_word, bif, bif_one, bif_runtime, bif_two, bound_var, bytes_string, call, chosen, declared,
    element_offset, emit, flipped, float_lit, func_at, has_tag, interned, is_boxed, is_boxed_with,
    is_var, kind_test, lit, lit_word, loaded, nil_word, pattern_binds, pattern_test, pattern_tests,
    patterns_bind, pointer_mask, raised, runtime_call, runtime_func, runtime_raise, safe_pointer,
    safe_words, stick, stored_bytes, string_in, string_lit, tag, true_word, truth, untag, var_of,
    warned, with_args, zeroed, Caution, Decl, Gen, Lambda, Step, Vars,
};
use crate::native_build::{allowed, complete, kind, moved, outset, Kind, Site};
use crate::native_plan::{
    all_whole, always, blocks, body_block, built_segments, captured, captures_bound, case_failure,
    case_start, clause_scope, clause_test, closure, closure_call, deferred, direct_call, entered,
    error_vars, fun_ref, function_body, guard_block, heap_captures, lambda_body, library_func,
    merged, native, native_all, native_bindings, native_clause, native_clauses, native_concat,
    native_entries, native_onto, native_segments, opened, params_bound, stored_captures,
    stored_words, test_block, try_start, tuple, variable, Frame,
};
use crate::native_program::{
    all_roomy, cleared, def_built, defs_built, defs_of, is_plan, lambda_built, lambdas_built, lists_declared,
    maps_declared, own_declared, own_func, plan_at, plan_from, scanned_defs, started, symbol_of,
    texts_declared, values_declared, Body, Build, PlanModel,
};
use crate::native_gen::fresh_gen;
use crate::text::{decimal, with_new};

verus! {

/// Whether a helper of the runtime with this name returns nothing.
pub open spec fn silent(name: Seq<char>) -> bool {
    name == "lux_rt_match_error"@ || name == "lux_rt_case_clause_error"@ || name
        == "lux_rt_erlang_error"@ || name == "lux_rt_erlang_throw"@ || name == "lux_rt_try_end"@
}

/// How many values a helper of the runtime returns.
pub open spec fn owed(name: Seq<char>) -> nat {
    if silent(name) {
        0
    } else {
        1
    }
}

/// Whether step `r` is a reference to a function that returns a value.
pub open spec fn answers(steps: Seq<Step>, funcs: Seq<Decl>, r: usize) -> bool {
    r < steps.len() && match steps[r as int] {
        Step::Import(f) => f < funcs.len() && funcs[f as int].results > 0,
        _ => false,
    }
}

/// What step `x` yields: a call of a function that returns nothing yields
/// nothing.
pub open spec fn yields(steps: Seq<Step>, funcs: Seq<Decl>, x: int) -> Option<Kind> {
    match steps[x] {
        Step::Call(r, _) => if answers(steps, funcs, r) {
            Some(Kind::Value)
        } else {
            None
        },
        s => kind(s),
    }
}

/// Whether step `x` is there and yields something of a kind.
pub open spec fn at(steps: Seq<Step>, funcs: Seq<Decl>, k: Kind, x: usize) -> bool {
    x < steps.len() && yields(steps, funcs, x as int) == Some(k)
}

/// Whether the value of step `x` is a word; the others are bytes.
pub open spec fn wide(steps: Seq<Step>, x: int) -> bool
    decreases x,
{
    match steps[x] {
        Step::Byte(_) | Step::Reduce(_) | Step::EqualImm(_, _) | Step::NotEqualImm(_, _)
        | Step::Equal(_, _) => false,
        Step::Band(a, _) | Step::Bor(a, _) | Step::Bxor(a, _) | Step::Ishl(a, _) | Step::Sshr(a, _)
        | Step::Isub(a, _) => 0 <= a < x && wide(steps, a as int),
        Step::BandImm(a, _) | Step::BorImm(a, _) | Step::BxorImm(a, _) | Step::IshlImm(a, _)
        | Step::SshrImm(a, _) => 0 <= a < x && wide(steps, a as int),
        Step::Bnot(a) => 0 <= a < x && wide(steps, a as int),
        Step::Select(_, b, _) => 0 <= b < x && wide(steps, b as int),
        _ => true,
    }
}

/// How many parameters block `x` has in a function with `arity` parameters.
pub open spec fn params_in(steps: Seq<Step>, arity: nat, x: usize) -> nat
    decreases steps.len(),
{
    if steps.len() == 0 {
        0
    } else {
        params_in(steps.drop_last(), arity, x) + match steps.last() {
            Step::AddParam(y) => if x == y {
                1
            } else {
                0
            },
            Step::FunctionParams(y) => if x == y {
                arity
            } else {
                0
            },
            _ => 0nat,
        }
    }
}

/// Where a builder stands that has made steps, blocks being known by the steps
/// that create them.
#[verifier::opaque]
pub open spec fn site_of(steps: Seq<Step>) -> Site
    decreases steps.len(),
{
    if steps.len() == 0 {
        outset()
    } else {
        moved(site_of(steps.drop_last()), steps.last())
    }
}

/// Whether everything that a step refers to was yielded before.
pub open spec fn refers_back(before: Seq<Step>, funcs: Seq<Decl>, s: Step) -> bool {
    match s {
        Step::AddParam(x) => at(before, funcs, Kind::Block, x),
        Step::FunctionParams(x) => at(before, funcs, Kind::Block, x),
        Step::SwitchTo(x) => at(before, funcs, Kind::Block, x),
        Step::Seal(x) => at(before, funcs, Kind::Block, x),
        Step::Param(x, _) => at(before, funcs, Kind::Block, x),
        Step::DefVar(x, y) => at(before, funcs, Kind::Var, x) && at(before, funcs, Kind::Value, y)
            && wide(before, y as int),
        Step::UseVar(x) => at(before, funcs, Kind::Var, x),
        Step::Arg(x) => at(before, funcs, Kind::Value, x),
        Step::Import(x) => x < funcs.len(),
        Step::Call(x, _) => at(before, funcs, Kind::Ref, x),
        Step::FuncAddr(x) => at(before, funcs, Kind::Ref, x),
        Step::BandImm(x, _) => at(before, funcs, Kind::Value, x),
        Step::BorImm(x, _) => at(before, funcs, Kind::Value, x),
        Step::BxorImm(x, _) => at(before, funcs, Kind::Value, x),
        Step::IshlImm(x, _) => at(before, funcs, Kind::Value, x),
        Step::SshrImm(x, _) => at(before, funcs, Kind::Value, x),
        Step::EqualImm(x, _) => at(before, funcs, Kind::Value, x),
        Step::NotEqualImm(x, _) => at(before, funcs, Kind::Value, x),
        Step::Equal(x, y) => at(before, funcs, Kind::Value, x) && at(before, funcs, Kind::Value, y),
        Step::Band(x, y) => at(before, funcs, Kind::Value, x) && at(before, funcs, Kind::Value, y),
        Step::Bor(x, y) => at(before, funcs, Kind::Value, x) && at(before, funcs, Kind::Value, y),
        Step::Bxor(x, y) => at(before, funcs, Kind::Value, x) && at(before, funcs, Kind::Value, y),
        Step::Ishl(x, y) => at(before, funcs, Kind::Value, x) && at(before, funcs, Kind::Value, y),
        Step::Sshr(x, y) => at(before, funcs, Kind::Value, x) && at(before, funcs, Kind::Value, y),
        Step::Isub(x, y) => at(before, funcs, Kind::Value, x) && at(before, funcs, Kind::Value, y),
        Step::Bnot(x) => at(before, funcs, Kind::Value, x),
        Step::Select(x, y, z) => at(before, funcs, Kind::Value, x)
            && at(before, funcs, Kind::Value, y) && at(before, funcs, Kind::Value, z),
        Step::Load(x, _) => at(before, funcs, Kind::Value, x),
        Step::Store(x, y, _) => at(before, funcs, Kind::Value, x) && at(before, funcs, Kind::Value, y),
        Step::StackStore(x, y, _) => at(before, funcs, Kind::Value, x) && at(before, funcs, Kind::Slot, y),
        Step::StackAddr(x) => at(before, funcs, Kind::Slot, x),
        Step::Reduce(x) => at(before, funcs, Kind::Value, x),
        Step::Brif(x, y, z) => at(before, funcs, Kind::Value, x)
            && at(before, funcs, Kind::Block, y) && at(before, funcs, Kind::Block, z),
        Step::Jump(x) => at(before, funcs, Kind::Block, x),
        Step::JumpWith(x, y) => at(before, funcs, Kind::Block, x) && at(before, funcs, Kind::Value, y),
        Step::Return(x) => at(before, funcs, Kind::Value, x),
        Step::CreateBlock | Step::DeclareVar | Step::Word(_) | Step::Byte(_) | Step::Slot(_, _)
        | Step::Trap => true,
    }
}

/// Whether a step may follow others: what it refers to is there, the block is
/// open for it, and arguments are followed by their call.
pub open spec fn follows(before: Seq<Step>, funcs: Seq<Decl>, s: Step) -> bool {
    &&& refers_back(before, funcs, s)
    &&& s is Arg || allowed(site_of(before), s)
    &&& s is Arg || s is Call || !waits(before)
}

/// Whether arguments stand at the end that no call has taken.
pub open spec fn waits(steps: Seq<Step>) -> bool {
    steps.len() > 0 && steps.last() is Arg
}

/// Whether every step may follow those before it.
#[verifier::opaque]
pub open spec fn linked(steps: Seq<Step>, funcs: Seq<Decl>) -> bool {
    forall|i: int| 0 <= i < steps.len() ==> follows(steps.take(i), funcs, #[trigger] steps[i])
}

/// Whether every parameter of a block that is asked for is there.
#[verifier::opaque]
pub open spec fn indexed(steps: Seq<Step>, arity: nat) -> bool {
    forall|i: int|
        0 <= i < steps.len() ==> (#[trigger] steps[i] matches Step::Param(x, k) ==> k < params_in(
            steps.take(i),
            arity,
            x,
        ))
}

/// Whether functions of the runtime return what is expected of them, and
/// functions of the program a value.
#[verifier::opaque]
spec fn helpers(funcs: Seq<Decl>) -> bool {
    forall|i: int|
        0 <= i < funcs.len() ==> ((#[trigger] funcs[i]).runtime ==> funcs[i].results == owed(
            funcs[i].symbol,
        )) && (funcs[i].own ==> funcs[i].results == 1)
}

/// Whether no two functions have the same symbol.
pub open spec fn distinct(funcs: Seq<Decl>) -> bool {
    forall|i: int, j: int|
        0 <= i < funcs.len() && 0 <= j < funcs.len() && (#[trigger] funcs[i]).symbol == (
        #[trigger] funcs[j]).symbol ==> i == j
}

/// Whether function `k` is exported.
pub open spec fn exported(funcs: Seq<Decl>, k: int) -> bool {
    0 <= k < funcs.len() && funcs[k].export
}

/// Whether function `k` is one of those that are defined later.
spec fn in_line(lambdas: Seq<Lambda>, k: int) -> bool {
    exists|j: int| 0 <= j < lambdas.len() && (#[trigger] lambdas[j]).func == k
}

proof fn in_line_on(a: Seq<Lambda>, b: Seq<Lambda>, k: int)
    requires
        a.is_prefix_of(b),
        in_line(a, k),
    ensures
        in_line(b, k),
{
    let j = choose|j: int| 0 <= j < a.len() && (#[trigger] a[j]).func == k;
    assert(b[j] == a[j]);
}

/// Whether functions that are newly exported are defined later.
spec fn covers(g: Gen, h: Gen) -> bool {
    &&& g.deferred.is_prefix_of(h.deferred)
    &&& h.funcs.len() <= usize::MAX ==> forall|k: int| #[trigger]
        exported(h.funcs, k) ==> exported(g.funcs, k) || in_line(h.deferred, k)
}

/// Whether functions keep their places and what they return.
spec fn same_funcs(a: Seq<Decl>, b: Seq<Decl>) -> bool {
    &&& a.len() <= b.len()
    &&& forall|i: int|
        0 <= i < a.len() ==> (#[trigger] b[i]).results == a[i].results && b[i].params == a[i].params
    &&& forall|s: Seq<char>|
        func_at(a, s) is Some ==> #[trigger] func_at(b, s) == func_at(a, s)
    &&& distinct(a) ==> distinct(b)
}

/// Whether the functions that are defined later are declared with their
/// parameters and one for their closure.
#[verifier::opaque]
spec fn queued(lambdas: Seq<Lambda>, funcs: Seq<Decl>) -> bool {
    forall|i: int|
        0 <= i < lambdas.len() ==> (#[trigger] lambdas[i]).func < funcs.len()
            && funcs[lambdas[i].func as int].params == lambdas[i].params.len() + 1
}

proof fn queued_on(lambdas: Seq<Lambda>, a: Seq<Decl>, b: Seq<Decl>)
    requires
        queued(lambdas, a),
        same_funcs(a, b),
    ensures
        queued(lambdas, b),
{
    reveal(queued);
}

/// Whether a warning is due where functions are declared: a function that could
/// not be declared has a symbol that is in use with another signature.
pub open spec fn is_due(c: Caution, funcs: Seq<Decl>) -> bool {
    match c {
        Caution::Unsupported(_, _) => true,
        Caution::Undeclared(symbol, params) => {
            &&& func_at(funcs, symbol) matches Some(i)
            &&& (funcs[i as int].params != params || funcs[i as int].results != 1)
        },
    }
}

#[verifier::opaque]
pub open spec fn all_due(cautions: Seq<Caution>, funcs: Seq<Decl>) -> bool {
    forall|i: int| 0 <= i < cautions.len() ==> is_due(#[trigger] cautions[i], funcs)
}

/// What is due stays so when more functions are declared.
proof fn due_on(cautions: Seq<Caution>, a: Seq<Decl>, b: Seq<Decl>)
    requires
        all_due(cautions, a),
        same_funcs(a, b),
    ensures
        all_due(cautions, b),
{
    reveal(all_due);
    assert forall|i: int| 0 <= i < cautions.len() implies is_due(#[trigger] cautions[i], b) by {
        assert(is_due(cautions[i], a));
        match cautions[i] {
            Caution::Undeclared(symbol, _) => {
                func_at_inside(a, symbol);
                assert(func_at(b, symbol) == func_at(a, symbol));
            },
            _ => {},
        }
    }
}

/// Whether a state comes from another by adding steps, functions and warnings
/// that are due.
#[verifier::opaque]
spec fn grows(g: Gen, h: Gen) -> bool {
    &&& g.steps.is_prefix_of(h.steps)
    &&& same_funcs(g.funcs, h.funcs)
    &&& all_due(g.cautions, g.funcs) ==> all_due(h.cautions, h.funcs)
    &&& covers(g, h)
    &&& g.stuck ==> h.stuck
}

/// Whether a state is one that nothing has stopped and that fits the machine.
#[verifier::opaque]
spec fn fine(g: Gen) -> bool {
    !g.stuck && g.steps.len() <= usize::MAX && g.funcs.len() <= usize::MAX
}

/// Whether blocks that are spoken of are there.
spec fn bounded(s: Site, n: nat) -> bool {
    &&& forall|x: usize| #[trigger] s.started.contains(x) ==> x < n
    &&& forall|x: usize| #[trigger] s.filled.contains(x) ==> x < n
    &&& forall|x: usize| #[trigger] s.sealed.contains(x) ==> x < n
    &&& s.block is Some ==> s.block->0 < n
}

/// Whether every block that was started, but the current one, is done.
spec fn tidy(s: Site) -> bool {
    forall|x: usize| #[trigger]
        s.started.contains(x) ==> s.block == Some(x) || (s.filled.contains(x) && s.sealed.contains(
            x,
        ))
}

/// Whether the steps are in order and the current block is open.
#[verifier::opaque]
spec fn sound(g: Gen) -> bool {
    let s = site_of(g.steps);
    &&& linked(g.steps, g.funcs)
    &&& helpers(g.funcs)
    &&& queued(g.deferred, g.funcs)
    &&& !waits(g.steps)
    &&& bounded(s, g.steps.len())
    &&& tidy(s)
    &&& s.block is Some && !s.filled.contains(s.block->0) && s.sealed.contains(s.block->0)
}

/// Whether the steps are in order and the current block is done.
#[verifier::opaque]
spec fn resting(g: Gen) -> bool {
    let s = site_of(g.steps);
    &&& linked(g.steps, g.funcs)
    &&& helpers(g.funcs)
    &&& queued(g.deferred, g.funcs)
    &&& !waits(g.steps)
    &&& bounded(s, g.steps.len())
    &&& tidy(s)
    &&& s.block is Some && s.filled.contains(s.block->0) && s.sealed.contains(s.block->0)
}

/// Whether a block is there that nothing has been put into.
#[verifier::opaque]
spec fn waiting(g: Gen, x: usize) -> bool {
    let s = site_of(g.steps);
    &&& at(g.steps, g.funcs, Kind::Block, x)
    &&& !s.started.contains(x) && !s.filled.contains(x) && !s.sealed.contains(x)
    &&& s.block != Some(x)
}

/// Whether blocks below `k` that nothing has been put into stay so.
#[verifier::opaque]
spec fn passes_below(k: nat, g: Gen, h: Gen) -> bool {
    forall|x: usize| x < k && #[trigger] waiting(g, x) ==> waiting(h, x)
}

/// Whether blocks that nothing has been put into stay so.
#[verifier::opaque]
spec fn passes(g: Gen, h: Gen) -> bool {
    forall|x: usize| #[trigger] waiting(g, x) ==> waiting(h, x)
}

/// Whether parameters of blocks stay there.
#[verifier::opaque]
spec fn indexes(g: Gen, h: Gen) -> bool {
    forall|arity: nat| #[trigger] indexed(g.steps, arity) ==> indexed(h.steps, arity)
}

spec fn is_func(g: Gen, f: usize) -> bool {
    f < g.funcs.len()
}

spec fn is_answering(g: Gen, f: usize) -> bool {
    f < g.funcs.len() && g.funcs[f as int].results > 0
}

spec fn is_cond(g: Gen, x: usize) -> bool {
    at(g.steps, g.funcs, Kind::Value, x)
}

spec fn is_value(g: Gen, x: usize) -> bool {
    at(g.steps, g.funcs, Kind::Value, x) && wide(g.steps, x as int)
}

spec fn is_block(g: Gen, x: usize) -> bool {
    at(g.steps, g.funcs, Kind::Block, x)
}

spec fn takes_one(g: Gen, x: usize) -> bool {
    params_in(g.steps, 0, x) > 0
}

spec fn is_slot(g: Gen, x: usize) -> bool {
    at(g.steps, g.funcs, Kind::Slot, x)
}

spec fn is_ref(g: Gen, x: usize) -> bool {
    at(g.steps, g.funcs, Kind::Ref, x)
}

spec fn is_variable(g: Gen, x: usize) -> bool {
    at(g.steps, g.funcs, Kind::Var, x)
}

#[verifier::opaque]
spec fn are_values(g: Gen, xs: Seq<usize>) -> bool {
    forall|i: int| 0 <= i < xs.len() ==> is_value(g, #[trigger] xs[i])
}

#[verifier::opaque]
spec fn are_vars(g: Gen, vars: Vars) -> bool {
    forall|i: int| 0 <= i < vars.len() ==> is_variable(g, (#[trigger] vars[i]).1)
}

broadcast proof fn grows_itself(g: Gen)
    ensures
        #[trigger] grows(g, g),
{
    reveal(grows);
    assert(g.deferred.is_prefix_of(g.deferred));
}

broadcast proof fn grows_on(g: Gen, h: Gen, k: Gen)
    requires
        #[trigger] grows(g, h),
        #[trigger] grows(h, k),
    ensures
        grows(g, k),
{
    reveal(grows);
    assert forall|i: int| 0 <= i < g.steps.len() implies g.steps[i] == k.steps[i] by {
        assert(g.steps[i] == h.steps[i]);
    }
    assert(g.steps =~= k.steps.take(g.steps.len() as int));
    assert forall|i: int| 0 <= i < g.funcs.len() implies (#[trigger] k.funcs[i]).results
        == g.funcs[i].results && k.funcs[i].params == g.funcs[i].params by {
        assert(h.funcs[i].results == g.funcs[i].results);
    }
    assert forall|s: Seq<char>| func_at(g.funcs, s) is Some implies #[trigger] func_at(k.funcs, s)
        == func_at(g.funcs, s) by {
        assert(func_at(h.funcs, s) == func_at(g.funcs, s));
    }
    covers_on(g, h, k);
}

proof fn covers_on(g: Gen, h: Gen, k: Gen)
    requires
        covers(g, h),
        covers(h, k),
        h.funcs.len() <= k.funcs.len(),
    ensures
        covers(g, k),
{
    assert forall|i: int| 0 <= i < g.deferred.len() implies g.deferred[i] == k.deferred[i] by {
        assert(g.deferred[i] == h.deferred[i]);
        assert(h.deferred[i] == k.deferred[i]);
    }
    assert(g.deferred =~= k.deferred.take(g.deferred.len() as int));
    if k.funcs.len() <= usize::MAX {
        assert forall|i: int| #[trigger] exported(k.funcs, i) implies exported(g.funcs, i)
            || in_line(k.deferred, i) by {
            if exported(h.funcs, i) && in_line(h.deferred, i) {
                in_line_on(h.deferred, k.deferred, i);
            }
        }
    }
}

broadcast proof fn fine_before(g: Gen, h: Gen)
    requires
        #[trigger] grows(g, h),
        fine(h),
    ensures
        fine(g),
{
    reveal(grows);
    reveal(fine);
}

broadcast proof fn passes_itself(g: Gen)
    ensures
        #[trigger] passes(g, g),
{
    reveal(passes);
}

broadcast proof fn passes_on(g: Gen, h: Gen, k: Gen)
    requires
        #[trigger] passes(g, h),
        #[trigger] passes(h, k),
    ensures
        passes(g, k),
{
    reveal(passes);
}

broadcast proof fn indexes_itself(g: Gen)
    ensures
        #[trigger] indexes(g, g),
{
    reveal(indexes);
}

broadcast proof fn indexes_on(g: Gen, h: Gen, k: Gen)
    requires
        #[trigger] indexes(g, h),
        #[trigger] indexes(h, k),
    ensures
        indexes(g, k),
{
    reveal(indexes);
}

broadcast proof fn waiting_passes(g: Gen, h: Gen, x: usize)
    requires
        #[trigger] passes(g, h),
        #[trigger] waiting(g, x),
    ensures
        waiting(h, x),
{
    reveal(passes);
}

broadcast proof fn waiting_is_block(g: Gen, x: usize)
    requires
        #[trigger] waiting(g, x),
    ensures
        is_block(g, x),
{
    reveal(waiting);
}

broadcast proof fn value_is_cond(g: Gen, x: usize)
    requires
        #[trigger] is_value(g, x),
    ensures
        is_cond(g, x),
{
}

broadcast proof fn answering_is_func(g: Gen, f: usize)
    requires
        #[trigger] is_answering(g, f),
    ensures
        is_func(g, f),
{
}

pub proof fn wide_stays(a: Seq<Step>, b: Seq<Step>, x: int)
    requires
        a.is_prefix_of(b),
        0 <= x < a.len(),
    ensures
        wide(a, x) == wide(b, x),
    decreases x,
{
    assert(a[x] == b[x]);
    match a[x] {
        Step::Band(y, _) | Step::Bor(y, _) | Step::Bxor(y, _) | Step::Ishl(y, _) | Step::Sshr(y, _)
        | Step::Isub(y, _) => {
            if y < x {
                wide_stays(a, b, y as int);
            }
        },
        Step::BandImm(y, _) | Step::BorImm(y, _) | Step::BxorImm(y, _) | Step::IshlImm(y, _)
        | Step::SshrImm(y, _) => {
            if y < x {
                wide_stays(a, b, y as int);
            }
        },
        Step::Bnot(y) => {
            if y < x {
                wide_stays(a, b, y as int);
            }
        },
        Step::Select(_, y, _) => {
            if y < x {
                wide_stays(a, b, y as int);
            }
        },
        _ => {},
    }
}

proof fn at_stays(g: Gen, h: Gen, k: Kind, x: usize)
    requires
        grows(g, h),
        at(g.steps, g.funcs, k, x),
    ensures
        at(h.steps, h.funcs, k, x),
{
    reveal(grows);
    assert(g.steps[x as int] == h.steps[x as int]);
    match g.steps[x as int] {
        Step::Call(r, _) => {
            assert(g.steps[r as int] == h.steps[r as int]);
        },
        _ => {},
    }
}

broadcast proof fn cond_stays(g: Gen, h: Gen, x: usize)
    requires
        #[trigger] grows(g, h),
        #[trigger] is_cond(g, x),
    ensures
        is_cond(h, x),
{
    at_stays(g, h, Kind::Value, x);
}

broadcast proof fn block_stays(g: Gen, h: Gen, x: usize)
    requires
        #[trigger] grows(g, h),
        #[trigger] is_block(g, x),
    ensures
        is_block(h, x),
{
    at_stays(g, h, Kind::Block, x);
}

broadcast proof fn slot_stays(g: Gen, h: Gen, x: usize)
    requires
        #[trigger] grows(g, h),
        #[trigger] is_slot(g, x),
    ensures
        is_slot(h, x),
{
    at_stays(g, h, Kind::Slot, x);
}

broadcast proof fn ref_stays(g: Gen, h: Gen, x: usize)
    requires
        #[trigger] grows(g, h),
        #[trigger] is_ref(g, x),
    ensures
        is_ref(h, x),
{
    at_stays(g, h, Kind::Ref, x);
}

broadcast proof fn variable_stays(g: Gen, h: Gen, x: usize)
    requires
        #[trigger] grows(g, h),
        #[trigger] is_variable(g, x),
    ensures
        is_variable(h, x),
{
    at_stays(g, h, Kind::Var, x);
}

broadcast proof fn value_stays(g: Gen, h: Gen, x: usize)
    requires
        #[trigger] grows(g, h),
        #[trigger] is_value(g, x),
    ensures
        is_value(h, x),
{
    at_stays(g, h, Kind::Value, x);
    reveal(grows);
    wide_stays(g.steps, h.steps, x as int);
}

broadcast proof fn func_stays(g: Gen, h: Gen, f: usize)
    requires
        #[trigger] grows(g, h),
        #[trigger] is_func(g, f),
    ensures
        is_func(h, f),
{
    reveal(grows);
}

broadcast proof fn answering_stays(g: Gen, h: Gen, f: usize)
    requires
        #[trigger] grows(g, h),
        #[trigger] is_answering(g, f),
    ensures
        is_answering(h, f),
{
    reveal(grows);
}

proof fn params_stay(a: Seq<Step>, b: Seq<Step>, arity: nat, x: usize)
    requires
        a.is_prefix_of(b),
    ensures
        params_in(a, arity, x) <= params_in(b, arity, x),
    decreases b.len(),
{
    if a.len() < b.len() {
        assert(a =~= b.drop_last().take(a.len() as int));
        params_stay(a, b.drop_last(), arity, x);
    } else {
        assert(a =~= b);
    }
}

proof fn params_more(a: Seq<Step>, m: nat, n: nat, x: usize)
    requires
        m <= n,
    ensures
        params_in(a, m, x) <= params_in(a, n, x),
    decreases a.len(),
{
    if a.len() > 0 {
        params_more(a.drop_last(), m, n, x);
    }
}

broadcast proof fn takes_one_stays(g: Gen, h: Gen, x: usize)
    requires
        #[trigger] grows(g, h),
        #[trigger] takes_one(g, x),
    ensures
        takes_one(h, x),
{
    reveal(grows);
    params_stay(g.steps, h.steps, 0, x);
}

broadcast proof fn values_stay(g: Gen, h: Gen, xs: Seq<usize>)
    requires
        #[trigger] grows(g, h),
        #[trigger] are_values(g, xs),
    ensures
        are_values(h, xs),
{
    reveal(are_values);
    assert forall|i: int| 0 <= i < xs.len() implies is_value(h, #[trigger] xs[i]) by {
        value_stays(g, h, xs[i]);
    }
}

broadcast proof fn vars_stay(g: Gen, h: Gen, vars: Vars)
    requires
        #[trigger] grows(g, h),
        #[trigger] are_vars(g, vars),
    ensures
        are_vars(h, vars),
{
    reveal(are_vars);
    assert forall|i: int| 0 <= i < vars.len() implies is_variable(h, (#[trigger] vars[i]).1) by {
        variable_stays(g, h, vars[i].1);
    }
}

/// Whether a step is one that a block goes on after.
pub open spec fn plain(s: Step) -> bool {
    !(s is SwitchTo || s is Seal || s is Brif || s is Jump || s is JumpWith || s is Trap || s is Return
        || s is Arg || s is AddParam || s is FunctionParams || s is Param)
}

proof fn site_after(steps: Seq<Step>, s: Step)
    ensures
        site_of(steps.push(s)) == moved(site_of(steps), s),
{
    reveal(site_of);
    assert(steps.push(s).drop_last() =~= steps);
}

proof fn linked_after(steps: Seq<Step>, funcs: Seq<Decl>, s: Step)
    requires
        linked(steps, funcs),
        follows(steps, funcs, s),
    ensures
        linked(steps.push(s), funcs),
{
    reveal(linked);
    let all = steps.push(s);
    assert forall|i: int| 0 <= i < all.len() implies follows(all.take(i), funcs, #[trigger] all[i]) by {
        if i < steps.len() {
            assert(all.take(i) =~= steps.take(i));
            assert(all[i] == steps[i]);
        } else {
            assert(all.take(i) =~= steps);
        }
    }
}

proof fn emit_grows(g: Gen, s: Step)
    ensures
        grows(g, emit(g, s).0),
        emit(g, s).0.steps == g.steps.push(s),
        emit(g, s).0.funcs == g.funcs,
        emit(g, s).0.deferred == g.deferred,
        fine(emit(g, s).0) ==> emit(g, s).1 == g.steps.len(),
{
    reveal(emit);
    reveal(grows);
    reveal(fine);
    assert(g.steps =~= emit(g, s).0.steps.take(g.steps.len() as int));
    assert(g.deferred.is_prefix_of(emit(g, s).0.deferred));
}

proof fn emit_indexes(g: Gen, s: Step)
    requires
        s matches Step::Param(x, k) ==> k == 0 && takes_one(g, x),
    ensures
        indexes(g, emit(g, s).0),
{
    emit_grows(g, s);
    let h = emit(g, s).0;
    reveal(indexes);
    assert forall|arity: nat| #[trigger] indexed(g.steps, arity) implies indexed(h.steps, arity) by {
        reveal(indexed);
        assert forall|i: int| 0 <= i < h.steps.len() implies (
        #[trigger] h.steps[i] matches Step::Param(x, k) ==> k < params_in(
            h.steps.take(i),
            arity,
            x,
        )) by {
            if i < g.steps.len() {
                assert(h.steps[i] == g.steps[i]);
                assert(h.steps.take(i) =~= g.steps.take(i));
            } else {
                assert(h.steps.take(i) =~= g.steps);
                match s {
                    Step::Param(x, _) => {
                        params_more(g.steps, 0, arity, x);
                    },
                    _ => {},
                }
            }
        }
    }
}

/// A block that nothing was put into stays so if a step neither opens nor seals
/// it.
proof fn waiting_after(g: Gen, s: Step, x: usize)
    requires
        waiting(g, x),
        s matches Step::SwitchTo(y) ==> x != y,
        s matches Step::Seal(y) ==> x != y,
    ensures
        waiting(emit(g, s).0, x),
{
    emit_grows(g, s);
    reveal(waiting);
    site_after(g.steps, s);
    at_stays(g, emit(g, s).0, Kind::Block, x);
}

proof fn emit_passes(g: Gen, s: Step)
    requires
        !(s is SwitchTo),
        !(s is Seal),
    ensures
        passes(g, emit(g, s).0),
{
    reveal(passes);
    assert forall|x: usize| #[trigger] waiting(g, x) implies waiting(emit(g, s).0, x) by {
        waiting_after(g, s, x);
    }
}

/// Whether the value of a step is a word.
spec fn gives_word(g: Gen, s: Step) -> bool {
    match s {
        Step::Word(_) | Step::Load(_, _) | Step::StackAddr(_) | Step::FuncAddr(_) | Step::UseVar(_)
        | Step::Param(_, _) => true,
        Step::Band(a, _) | Step::Bor(a, _) | Step::Bxor(a, _) | Step::Ishl(a, _) | Step::Sshr(a, _)
        | Step::Isub(a, _) => is_value(g, a),
        Step::BandImm(a, _) | Step::BorImm(a, _) | Step::BxorImm(a, _) | Step::IshlImm(a, _)
        | Step::SshrImm(a, _) => is_value(g, a),
        Step::Bnot(a) => is_value(g, a),
        Step::Select(_, b, _) => is_value(g, b),
        Step::Call(r, _) => answers(g.steps, g.funcs, r),
        _ => false,
    }
}

proof fn emit_yields(g: Gen, s: Step)
    requires
        fine(emit(g, s).0),
    ensures
        match s {
            Step::Call(r, _) => answers(g.steps, g.funcs, r) ==> is_value(
                emit(g, s).0,
                emit(g, s).1,
            ),
            _ => match kind(s) {
                Some(Kind::Value) => is_cond(emit(g, s).0, emit(g, s).1) && (gives_word(g, s)
                    ==> is_value(emit(g, s).0, emit(g, s).1)),
                Some(Kind::Block) => is_block(emit(g, s).0, emit(g, s).1),
                Some(Kind::Slot) => is_slot(emit(g, s).0, emit(g, s).1),
                Some(Kind::Ref) => is_ref(emit(g, s).0, emit(g, s).1),
                Some(Kind::Var) => is_variable(emit(g, s).0, emit(g, s).1),
                None => true,
            },
        },
{
    emit_grows(g, s);
    let h = emit(g, s).0;
    let n = g.steps.len() as int;
    assert(h.steps[n] == s);
    reveal(grows);
    match s {
        Step::Band(a, _) | Step::Bor(a, _) | Step::Bxor(a, _) | Step::Ishl(a, _) | Step::Sshr(a, _)
        | Step::Isub(a, _) => {
            if is_value(g, a) {
                wide_stays(g.steps, h.steps, a as int);
            }
        },
        Step::BandImm(a, _) | Step::BorImm(a, _) | Step::BxorImm(a, _) | Step::IshlImm(a, _)
        | Step::SshrImm(a, _) => {
            if is_value(g, a) {
                wide_stays(g.steps, h.steps, a as int);
            }
        },
        Step::Bnot(a) => {
            if is_value(g, a) {
                wide_stays(g.steps, h.steps, a as int);
            }
        },
        Step::Select(_, b, _) => {
            if is_value(g, b) {
                wide_stays(g.steps, h.steps, b as int);
            }
        },
        Step::Call(r, _) => {
            if answers(g.steps, g.funcs, r) {
                assert(h.steps[r as int] == g.steps[r as int]);
            }
        },
        _ => {},
    }
}

proof fn emit_keeps(g: Gen, s: Step)
    requires
        plain(s),
        fine(emit(g, s).0),
        sound(g),
        refers_back(g.steps, g.funcs, s),
    ensures
        sound(emit(g, s).0),
{
    emit_grows(g, s);
    reveal(sound);
    site_after(g.steps, s);
    linked_after(g.steps, g.funcs, s);
    assert(g.steps.push(s).last() == s);
}

broadcast proof fn emit_sound(g: Gen, s: Step)
    ensures
        grows(g, (#[trigger] emit(g, s)).0),
        plain(s) ==> passes(g, emit(g, s).0) && indexes(g, emit(g, s).0),
        plain(s) && fine(emit(g, s).0) && sound(g) && refers_back(g.steps, g.funcs, s) ==> sound(
            emit(g, s).0,
        ),
        fine(emit(g, s).0) ==> match s {
            Step::Call(r, _) => true,
            _ => match kind(s) {
                Some(Kind::Value) => is_cond(emit(g, s).0, emit(g, s).1) && (gives_word(g, s)
                    ==> is_value(emit(g, s).0, emit(g, s).1)),
                Some(Kind::Block) => is_block(emit(g, s).0, emit(g, s).1),
                Some(Kind::Slot) => is_slot(emit(g, s).0, emit(g, s).1),
                Some(Kind::Ref) => is_ref(emit(g, s).0, emit(g, s).1),
                Some(Kind::Var) => is_variable(emit(g, s).0, emit(g, s).1),
                None => true,
            },
        },
{
    emit_grows(g, s);
    if plain(s) {
        emit_passes(g, s);
        emit_indexes(g, s);
    }
    if fine(emit(g, s).0) {
        emit_yields(g, s);
    }
    if plain(s) && fine(emit(g, s).0) && sound(g) && refers_back(g.steps, g.funcs, s) {
        emit_keeps(g, s);
    }
}

broadcast group group_steps {
    grows_itself,
    grows_on,
    fine_before,
    passes_itself,
    passes_on,
    indexes_itself,
    indexes_on,
    waiting_passes,
    waiting_is_block,
    value_is_cond,
    answering_is_func,
    value_stays,
    cond_stays,
    block_stays,
    slot_stays,
    ref_stays,
    variable_stays,
    func_stays,
    answering_stays,
    takes_one_stays,
    values_stay,
    vars_stay,
    emit_sound,
}

proof fn linked_on(steps: Seq<Step>, a: Seq<Decl>, b: Seq<Decl>)
    requires
        linked(steps, a),
        same_funcs(a, b),
    ensures
        linked(steps, b),
{
    reveal(linked);
    assert forall|i: int| 0 <= i < steps.len() implies follows(
        steps.take(i),
        b,
        #[trigger] steps[i],
    ) by {
        let before = steps.take(i);
        assert(follows(before, a, steps[i]));
        assert forall|k: Kind, x: usize| at(before, a, k, x) implies #[trigger] at(before, b, k, x) by {
            match before[x as int] {
                Step::Call(r, _) => {
                    assert(answers(before, a, r) ==> answers(before, b, r));
                },
                _ => {},
            }
        }
        refers_on(before, a, b, steps[i]);
    }
}

proof fn refers_on(before: Seq<Step>, a: Seq<Decl>, b: Seq<Decl>, s: Step)
    requires
        refers_back(before, a, s),
        a.len() <= b.len(),
        forall|k: Kind, x: usize| at(before, a, k, x) ==> #[trigger] at(before, b, k, x),
    ensures
        refers_back(before, b, s),
{
}

pub proof fn func_at_inside(funcs: Seq<Decl>, symbol: Seq<char>)
    ensures
        func_at(funcs, symbol) matches Some(i) ==> i < funcs.len() && (funcs.len() <= usize::MAX
            ==> funcs[i as int].symbol == symbol),
    decreases funcs.len(),
{
    if funcs.len() > 0 {
        func_at_inside(funcs.drop_last(), symbol);
    }
}

proof fn func_at_update(funcs: Seq<Decl>, k: int, d: Decl, symbol: Seq<char>)
    requires
        0 <= k < funcs.len(),
        d.symbol == funcs[k].symbol,
    ensures
        func_at(funcs.update(k, d), symbol) == func_at(funcs, symbol),
    decreases funcs.len(),
{
    let more = funcs.update(k, d);
    if k < funcs.len() - 1 {
        assert(more.drop_last() =~= funcs.drop_last().update(k, d));
        func_at_update(funcs.drop_last(), k, d, symbol);
    } else {
        assert(more.drop_last() =~= funcs.drop_last());
    }
}

proof fn func_at_none(funcs: Seq<Decl>, symbol: Seq<char>)
    requires
        func_at(funcs, symbol) is None,
    ensures
        forall|i: int| 0 <= i < funcs.len() ==> (#[trigger] funcs[i]).symbol != symbol,
    decreases funcs.len(),
{
    if funcs.len() > 0 {
        let front = funcs.drop_last();
        func_at_none(front, symbol);
        assert forall|i: int| 0 <= i < funcs.len() implies (#[trigger] funcs[i]).symbol
            != symbol by {
            if i < front.len() {
                assert(front[i] == funcs[i]);
            }
        }
    }
}

proof fn declared_inside(
    funcs: Seq<Decl>,
    symbol: Seq<char>,
    params: nat,
    results: nat,
    export: bool,
    own: bool,
    runtime: bool,
)
    ensures
        declared(funcs, symbol, params, results, export, own, runtime) matches Some((more, i)) ==> {
            &&& same_funcs(funcs, more)
            &&& i < more.len()
            &&& more.len() <= usize::MAX ==> forall|k: int| #[trigger]
                exported(more, k) ==> exported(funcs, k) || (export && k == i)
            &&& more.len() <= usize::MAX ==> {
                &&& func_at(more, symbol) == Some(i)
                &&& more[i as int].params == params
                &&& more[i as int].results == results
                &&& more[i as int].symbol == symbol
                &&& helpers(funcs) && (runtime ==> results == owed(symbol)) && (own ==> results
                    == 1) ==> helpers(more)
            }
        },
{
    reveal(declared);
    func_at_inside(funcs, symbol);
    match declared(funcs, symbol, params, results, export, own, runtime) {
        Some((more, i)) => {
            match func_at(funcs, symbol) {
                Some(k) => {
                    assert(more == funcs.update(k as int, more[k as int]));
                    assert forall|s: Seq<char>| func_at(funcs, s)
                        is Some implies #[trigger] func_at(more, s) == func_at(funcs, s) by {
                        func_at_update(funcs, k as int, more[k as int], s);
                    }
                    func_at_update(funcs, k as int, more[k as int], symbol);
                    if distinct(funcs) {
                        assert(forall|a: int|
                            0 <= a < funcs.len() ==> (#[trigger] more[a]).symbol
                                == funcs[a].symbol);
                    }
                },
                None => {
                    assert(more.drop_last() =~= funcs);
                    func_at_none(funcs, symbol);
                    assert forall|s: Seq<char>| func_at(funcs, s)
                        is Some implies #[trigger] func_at(more, s) == func_at(funcs, s) by {
                    }
                },
            }
            if more.len() <= usize::MAX {
                if helpers(funcs) && (runtime ==> results == owed(symbol)) && (own ==> results
                    == 1) {
                    reveal(helpers);
                    assert forall|k: int| 0 <= k < more.len() implies ((
                    #[trigger] more[k]).runtime ==> more[k].results == owed(more[k].symbol)) && (
                    more[k].own ==> more[k].results == 1) by {
                        if k < funcs.len() {
                            assert(helpers(funcs));
                            assert(funcs[k].runtime ==> funcs[k].results == owed(funcs[k].symbol));
                        }
                    }
                }
            }
        },
        None => {},
    }
}

/// The same steps with more functions.
proof fn with_funcs(g: Gen, h: Gen)
    requires
        g.steps == h.steps,
        same_funcs(g.funcs, h.funcs),
        covers(g, h),
        g.stuck ==> h.stuck,
        g.cautions == h.cautions || (all_due(g.cautions, g.funcs) ==> all_due(
            h.cautions,
            h.funcs,
        )),
    ensures
        grows(g, h),
        passes(g, h),
        indexes(g, h),
        sound(g) && helpers(h.funcs) && (g.deferred == h.deferred || queued(h.deferred, h.funcs))
            ==> sound(h),
        resting(g) && helpers(h.funcs) && (g.deferred == h.deferred || queued(
            h.deferred,
            h.funcs,
        )) ==> resting(h),
{
    if queued(g.deferred, g.funcs) {
        queued_on(g.deferred, g.funcs, h.funcs);
    }
    if all_due(g.cautions, g.funcs) && g.cautions == h.cautions {
        due_on(g.cautions, g.funcs, h.funcs);
    }
    reveal(grows);
    reveal(passes);
    reveal(indexes);
    reveal(waiting);
    reveal(sound);
    reveal(resting);
    if linked(g.steps, g.funcs) {
        linked_on(g.steps, g.funcs, h.funcs);
    }
}

broadcast proof fn sound_helpers(g: Gen)
    requires
        #[trigger] sound(g),
    ensures
        helpers(g.funcs),
{
    reveal(sound);
}

proof fn covers_itself(g: Gen, h: Gen)
    requires
        g.deferred == h.deferred,
        h.funcs.len() <= usize::MAX ==> forall|k: int| #[trigger]
            exported(h.funcs, k) ==> exported(g.funcs, k),
    ensures
        covers(g, h),
{
    assert(g.deferred.is_prefix_of(h.deferred));
}

broadcast proof fn stick_stops(g: Gen)
    ensures
        grows(g, (#[trigger] stick(g)).0),
        passes(g, stick(g).0),
        indexes(g, stick(g).0),
        !fine(stick(g).0),
{
    reveal(stick);
    covers_itself(g, stick(g).0);
    with_funcs(g, stick(g).0);
    reveal(fine);
}

proof fn helper_results(funcs: Seq<Decl>, i: int)
    requires
        helpers(funcs),
        0 <= i < funcs.len(),
    ensures
        funcs[i].runtime ==> funcs[i].results == owed(funcs[i].symbol),
        funcs[i].own ==> funcs[i].results == 1,
{
    reveal(helpers);
}

broadcast proof fn runtime_func_sound(g: Gen, name: Seq<char>, params: nat, results: nat)
    ensures
        grows(g, (#[trigger] runtime_func(g, name, params, results)).0),
        passes(g, runtime_func(g, name, params, results).0),
        indexes(g, runtime_func(g, name, params, results).0),
        fine(runtime_func(g, name, params, results).0) && results == owed(name) && helpers(g.funcs)
            ==> {
            &&& sound(g) ==> sound(runtime_func(g, name, params, results).0)
            &&& resting(g) ==> resting(runtime_func(g, name, params, results).0)
            &&& helpers(runtime_func(g, name, params, results).0.funcs)
            &&& is_func(
                runtime_func(g, name, params, results).0,
                runtime_func(g, name, params, results).1,
            )
            &&& results > 0 ==> is_answering(
                runtime_func(g, name, params, results).0,
                runtime_func(g, name, params, results).1,
            )
        },
{
    reveal(runtime_func);
    reveal(fine);
    func_at_inside(g.funcs, name);
    declared_inside(g.funcs, name, params, results, false, false, true);
    stick_stops(g);
    covers_itself(g, g);
    with_funcs(g, g);
    let at = func_at(g.funcs, name);
    if at is Some && g.funcs[at->Some_0 as int].runtime {
        if helpers(g.funcs) && g.funcs.len() <= usize::MAX {
            helper_results(g.funcs, at->Some_0 as int);
        }
    } else {
        match declared(g.funcs, name, params, results, false, false, true) {
            Some((funcs, i)) => {
                covers_itself(g, Gen { funcs, ..g });
                with_funcs(g, Gen { funcs, ..g });
            },
            None => {},
        }
    }
}

/// Whether a state comes from another by steps that leave other blocks alone.
#[verifier::inline]
spec fn quiet(g: Gen, h: Gen) -> bool {
    grows(g, h) && passes(g, h) && indexes(g, h)
}

proof fn with_args_quiet(g: Gen, args: Seq<usize>)
    ensures
        quiet(g, with_args(g, args)),
        with_args(g, args).funcs == g.funcs,
        with_args(g, args).deferred == g.deferred,
    decreases args.len(),
{
    broadcast use group_steps;

    if args.len() > 0 {
        with_args_quiet(g, args.drop_last());
        let b = with_args(g, args.drop_last());
        emit_grows(b, Step::Arg(args.last()));
        emit_passes(b, Step::Arg(args.last()));
        emit_indexes(b, Step::Arg(args.last()));
    }
}

proof fn with_args_linked(g: Gen, args: Seq<usize>)
    requires
        sound(g),
        fine(with_args(g, args)),
        are_values(g, args),
    ensures
        linked(with_args(g, args).steps, g.funcs),
        site_of(with_args(g, args).steps) == site_of(g.steps),
    decreases args.len(),
{
    if args.len() == 0 {
        reveal(sound);
    } else {
        let front = args.drop_last();
        let b = with_args(g, front);
        with_args_quiet(g, front);
        emit_grows(b, Step::Arg(args.last()));
        fine_before(b, with_args(g, args));
        assert(are_values(g, front)) by {
            reveal(are_values);
            assert forall|i: int| 0 <= i < front.len() implies is_value(g, #[trigger] front[i]) by {
                assert(front[i] == args[i]);
            }
        }
        with_args_linked(g, front);
        assert(is_value(g, args[args.len() - 1])) by {
            reveal(are_values);
        }
        value_stays(g, b, args.last());
        linked_after(b.steps, g.funcs, Step::Arg(args.last()));
        site_after(b.steps, Step::Arg(args.last()));
    }
}

broadcast proof fn call_sound(g: Gen, func: usize, args: Seq<usize>)
    ensures
        quiet(g, (#[trigger] call(g, func, args)).0),
        fine(call(g, func, args).0) && sound(g) && is_func(g, func) && are_values(g, args) ==> sound(
            call(g, func, args).0,
        ),
        fine(call(g, func, args).0) && is_answering(g, func) ==> is_value(
            call(g, func, args).0,
            call(g, func, args).1,
        ),
{
    broadcast use group_steps;

    reveal(call);
    let (g1, f) = emit(g, Step::Import(func));
    emit_grows(g, Step::Import(func));
    let b = with_args(g1, args);
    with_args_quiet(g1, args);
    let s = Step::Call(f, args.len() as usize);
    emit_grows(b, s);
    emit_passes(b, s);
    emit_indexes(b, s);
    let h = emit(b, s).0;
    if fine(h) {
        assert(fine(b));
        assert(fine(g1));
        assert(is_ref(g1, f));
        assert(is_ref(b, f));
        emit_yields(b, s);
        if is_answering(g, func) {
            reveal(grows);
            assert(b.steps[f as int] == g1.steps[f as int]);
            assert(answers(b.steps, b.funcs, f));
        }
        if sound(g) && is_func(g, func) && are_values(g, args) {
            assert(sound(g1));
            with_args_linked(g1, args);
            assert(sound(h)) by {
                reveal(sound);
                site_after(b.steps, s);
                linked_after(b.steps, b.funcs, s);
                assert(b.steps.len() >= g1.steps.len()) by {
                    reveal(grows);
                }
                assert(h.steps.last() == s);
            }
        }
    }
}

broadcast proof fn runtime_call_sound(g: Gen, name: Seq<char>, args: Seq<usize>)
    ensures
        quiet(g, (#[trigger] runtime_call(g, name, args)).0),
        fine(runtime_call(g, name, args).0) && sound(g) && are_values(g, args) && !silent(name)
            ==> sound(runtime_call(g, name, args).0) && is_value(
            runtime_call(g, name, args).0,
            runtime_call(g, name, args).1,
        ),
{
    broadcast use group_steps, runtime_func_sound, call_sound, sound_helpers;

    reveal(runtime_call);
}

broadcast proof fn runtime_raise_sound(g: Gen, name: Seq<char>, args: Seq<usize>)
    ensures
        quiet(g, #[trigger] runtime_raise(g, name, args)),
        fine(runtime_raise(g, name, args)) && sound(g) && are_values(g, args) && silent(name)
            ==> sound(runtime_raise(g, name, args)),
{
    broadcast use group_steps, runtime_func_sound, call_sound, sound_helpers;

    reveal(runtime_raise);
}

broadcast proof fn few_values(g: Gen, xs: Seq<usize>)
    requires
        xs.len() <= 3,
        xs.len() > 0 ==> is_value(g, xs[0]),
        xs.len() > 1 ==> is_value(g, xs[1]),
        xs.len() > 2 ==> is_value(g, xs[2]),
    ensures
        #[trigger] are_values(g, xs),
{
    reveal(are_values);
}

broadcast group group_calls {
    group_steps,
    stick_stops,
    sound_helpers,
    runtime_func_sound,
    call_sound,
    runtime_call_sound,
    runtime_raise_sound,
    few_values,
}

spec fn loud1() -> bool {
    &&& !silent("lux_alloc"@)
    &&& !silent("lux_lists_append2"@)
    &&& !silent("lux_lists_enumerate1"@)
    &&& !silent("lux_lists_filter2"@)
    &&& !silent("lux_lists_flatmap2"@)
    &&& !silent("lux_lists_flatten1"@)
    &&& !silent("lux_lists_foldl3"@)
    &&& !silent("lux_lists_join2"@)
    &&& !silent("lux_lists_map2"@)
    &&& !silent("lux_lists_member2"@)
    &&& !silent("lux_lists_nth2"@)
    &&& !silent("lux_lists_nthtail2"@)
    &&& !silent("lux_lists_reverse1"@)
    &&& !silent("lux_lists_seq2"@)
    &&& !silent("lux_lists_sort1"@)
    &&& !silent("lux_lists_sublist2"@)
    &&& !silent("lux_lists_usort1"@)
    &&& !silent("lux_lists_zip2"@)
    &&& !silent("lux_maps_find2"@)
    &&& !silent("lux_maps_from_list1"@)
}

proof fn names1_loud()
    ensures
        loud1(),
{
    reveal_strlit("lux_rt_match_error");
    reveal_strlit("lux_rt_case_clause_error");
    reveal_strlit("lux_rt_erlang_error");
    reveal_strlit("lux_rt_erlang_throw");
    reveal_strlit("lux_rt_try_end");
    reveal_strlit("lux_alloc");
    reveal_strlit("lux_lists_append2");
    reveal_strlit("lux_lists_enumerate1");
    reveal_strlit("lux_lists_filter2");
    reveal_strlit("lux_lists_flatmap2");
    reveal_strlit("lux_lists_flatten1");
    reveal_strlit("lux_lists_foldl3");
    reveal_strlit("lux_lists_join2");
    reveal_strlit("lux_lists_map2");
    reveal_strlit("lux_lists_member2");
    reveal_strlit("lux_lists_nth2");
    reveal_strlit("lux_lists_nthtail2");
    reveal_strlit("lux_lists_reverse1");
    reveal_strlit("lux_lists_seq2");
    reveal_strlit("lux_lists_sort1");
    reveal_strlit("lux_lists_sublist2");
    reveal_strlit("lux_lists_usort1");
    reveal_strlit("lux_lists_zip2");
    reveal_strlit("lux_maps_find2");
    reveal_strlit("lux_maps_from_list1");
    assert("lux_alloc"@.len() == 9);
    assert("lux_lists_append2"@.len() == 17);
    assert("lux_lists_enumerate1"@.len() == 20);
    assert("lux_lists_filter2"@.len() == 17);
    assert("lux_lists_flatmap2"@.len() == 18);
    assert("lux_lists_flatmap2"@[4] != "lux_rt_match_error"@[4]);
    assert("lux_lists_flatten1"@.len() == 18);
    assert("lux_lists_flatten1"@[4] != "lux_rt_match_error"@[4]);
    assert("lux_lists_foldl3"@.len() == 16);
    assert("lux_lists_join2"@.len() == 15);
    assert("lux_lists_map2"@.len() == 14);
    assert("lux_lists_map2"@[4] != "lux_rt_try_end"@[4]);
    assert("lux_lists_member2"@.len() == 17);
    assert("lux_lists_nth2"@.len() == 14);
    assert("lux_lists_nth2"@[4] != "lux_rt_try_end"@[4]);
    assert("lux_lists_nthtail2"@.len() == 18);
    assert("lux_lists_nthtail2"@[4] != "lux_rt_match_error"@[4]);
    assert("lux_lists_reverse1"@.len() == 18);
    assert("lux_lists_reverse1"@[4] != "lux_rt_match_error"@[4]);
    assert("lux_lists_seq2"@.len() == 14);
    assert("lux_lists_seq2"@[4] != "lux_rt_try_end"@[4]);
    assert("lux_lists_sort1"@.len() == 15);
    assert("lux_lists_sublist2"@.len() == 18);
    assert("lux_lists_sublist2"@[4] != "lux_rt_match_error"@[4]);
    assert("lux_lists_usort1"@.len() == 16);
    assert("lux_lists_zip2"@.len() == 14);
    assert("lux_lists_zip2"@[4] != "lux_rt_try_end"@[4]);
    assert("lux_maps_find2"@.len() == 14);
    assert("lux_maps_find2"@[4] != "lux_rt_try_end"@[4]);
    assert("lux_maps_from_list1"@.len() == 19);
    assert("lux_maps_from_list1"@[4] != "lux_rt_erlang_error"@[4]);
    assert("lux_maps_from_list1"@[4] != "lux_rt_erlang_throw"@[4]);
}

spec fn loud2() -> bool {
    &&& !silent("lux_maps_get2"@)
    &&& !silent("lux_maps_get3"@)
    &&& !silent("lux_maps_is_key2"@)
    &&& !silent("lux_maps_keys1"@)
    &&& !silent("lux_maps_merge2"@)
    &&& !silent("lux_maps_put3"@)
    &&& !silent("lux_maps_remove2"@)
    &&& !silent("lux_maps_size1"@)
    &&& !silent("lux_maps_to_list1"@)
    &&& !silent("lux_maps_values1"@)
    &&& !silent("lux_rt_add"@)
    &&& !silent("lux_rt_apply0"@)
    &&& !silent("lux_rt_apply1"@)
    &&& !silent("lux_rt_apply2"@)
    &&& !silent("lux_rt_apply3"@)
    &&& !silent("lux_rt_binary_slice"@)
    &&& !silent("lux_rt_binary_to_list"@)
    &&& !silent("lux_rt_byte_size"@)
    &&& !silent("lux_rt_cons_head"@)
    &&& !silent("lux_rt_cons_tail"@)
}

proof fn names2_loud()
    ensures
        loud2(),
{
    reveal_strlit("lux_rt_match_error");
    reveal_strlit("lux_rt_case_clause_error");
    reveal_strlit("lux_rt_erlang_error");
    reveal_strlit("lux_rt_erlang_throw");
    reveal_strlit("lux_rt_try_end");
    reveal_strlit("lux_maps_get2");
    reveal_strlit("lux_maps_get3");
    reveal_strlit("lux_maps_is_key2");
    reveal_strlit("lux_maps_keys1");
    reveal_strlit("lux_maps_merge2");
    reveal_strlit("lux_maps_put3");
    reveal_strlit("lux_maps_remove2");
    reveal_strlit("lux_maps_size1");
    reveal_strlit("lux_maps_to_list1");
    reveal_strlit("lux_maps_values1");
    reveal_strlit("lux_rt_add");
    reveal_strlit("lux_rt_apply0");
    reveal_strlit("lux_rt_apply1");
    reveal_strlit("lux_rt_apply2");
    reveal_strlit("lux_rt_apply3");
    reveal_strlit("lux_rt_binary_slice");
    reveal_strlit("lux_rt_binary_to_list");
    reveal_strlit("lux_rt_byte_size");
    reveal_strlit("lux_rt_cons_head");
    reveal_strlit("lux_rt_cons_tail");
    assert("lux_maps_get2"@.len() == 13);
    assert("lux_maps_get3"@.len() == 13);
    assert("lux_maps_is_key2"@.len() == 16);
    assert("lux_maps_keys1"@.len() == 14);
    assert("lux_maps_keys1"@[4] != "lux_rt_try_end"@[4]);
    assert("lux_maps_merge2"@.len() == 15);
    assert("lux_maps_put3"@.len() == 13);
    assert("lux_maps_remove2"@.len() == 16);
    assert("lux_maps_size1"@.len() == 14);
    assert("lux_maps_size1"@[4] != "lux_rt_try_end"@[4]);
    assert("lux_maps_to_list1"@.len() == 17);
    assert("lux_maps_values1"@.len() == 16);
    assert("lux_rt_add"@.len() == 10);
    assert("lux_rt_apply0"@.len() == 13);
    assert("lux_rt_apply1"@.len() == 13);
    assert("lux_rt_apply2"@.len() == 13);
    assert("lux_rt_apply3"@.len() == 13);
    assert("lux_rt_binary_slice"@.len() == 19);
    assert("lux_rt_binary_slice"@[7] != "lux_rt_erlang_error"@[7]);
    assert("lux_rt_binary_slice"@[7] != "lux_rt_erlang_throw"@[7]);
    assert("lux_rt_binary_to_list"@.len() == 21);
    assert("lux_rt_byte_size"@.len() == 16);
    assert("lux_rt_cons_head"@.len() == 16);
    assert("lux_rt_cons_tail"@.len() == 16);
}

spec fn loud3() -> bool {
    &&& !silent("lux_rt_display"@)
    &&& !silent("lux_rt_float_div"@)
    &&& !silent("lux_rt_get"@)
    &&& !silent("lux_rt_greater_equal"@)
    &&& !silent("lux_rt_greater_than"@)
    &&& !silent("lux_rt_io_format"@)
    &&& !silent("lux_rt_io_lib_format"@)
    &&& !silent("lux_rt_less_equal"@)
    &&& !silent("lux_rt_less_than"@)
    &&& !silent("lux_rt_list_length"@)
    &&& !silent("lux_rt_list_to_binary"@)
    &&& !silent("lux_rt_make_cons"@)
    &&& !silent("lux_rt_make_map"@)
    &&& !silent("lux_rt_make_ref"@)
    &&& !silent("lux_rt_make_string"@)
    &&& !silent("lux_rt_make_tuple2"@)
    &&& !silent("lux_rt_make_tuple3"@)
    &&& !silent("lux_rt_make_tuple_n"@)
    &&& !silent("lux_rt_mul"@)
    &&& !silent("lux_rt_negate"@)
}

proof fn names3_loud()
    ensures
        loud3(),
{
    reveal_strlit("lux_rt_match_error");
    reveal_strlit("lux_rt_case_clause_error");
    reveal_strlit("lux_rt_erlang_error");
    reveal_strlit("lux_rt_erlang_throw");
    reveal_strlit("lux_rt_try_end");
    reveal_strlit("lux_rt_display");
    reveal_strlit("lux_rt_float_div");
    reveal_strlit("lux_rt_get");
    reveal_strlit("lux_rt_greater_equal");
    reveal_strlit("lux_rt_greater_than");
    reveal_strlit("lux_rt_io_format");
    reveal_strlit("lux_rt_io_lib_format");
    reveal_strlit("lux_rt_less_equal");
    reveal_strlit("lux_rt_less_than");
    reveal_strlit("lux_rt_list_length");
    reveal_strlit("lux_rt_list_to_binary");
    reveal_strlit("lux_rt_make_cons");
    reveal_strlit("lux_rt_make_map");
    reveal_strlit("lux_rt_make_ref");
    reveal_strlit("lux_rt_make_string");
    reveal_strlit("lux_rt_make_tuple2");
    reveal_strlit("lux_rt_make_tuple3");
    reveal_strlit("lux_rt_make_tuple_n");
    reveal_strlit("lux_rt_mul");
    reveal_strlit("lux_rt_negate");
    assert("lux_rt_display"@.len() == 14);
    assert("lux_rt_display"@[7] != "lux_rt_try_end"@[7]);
    assert("lux_rt_float_div"@.len() == 16);
    assert("lux_rt_get"@.len() == 10);
    assert("lux_rt_greater_equal"@.len() == 20);
    assert("lux_rt_greater_than"@.len() == 19);
    assert("lux_rt_greater_than"@[7] != "lux_rt_erlang_error"@[7]);
    assert("lux_rt_greater_than"@[7] != "lux_rt_erlang_throw"@[7]);
    assert("lux_rt_io_format"@.len() == 16);
    assert("lux_rt_io_lib_format"@.len() == 20);
    assert("lux_rt_less_equal"@.len() == 17);
    assert("lux_rt_less_than"@.len() == 16);
    assert("lux_rt_list_length"@.len() == 18);
    assert("lux_rt_list_length"@[7] != "lux_rt_match_error"@[7]);
    assert("lux_rt_list_to_binary"@.len() == 21);
    assert("lux_rt_make_cons"@.len() == 16);
    assert("lux_rt_make_map"@.len() == 15);
    assert("lux_rt_make_ref"@.len() == 15);
    assert("lux_rt_make_string"@.len() == 18);
    assert("lux_rt_make_string"@[9] != "lux_rt_match_error"@[9]);
    assert("lux_rt_make_tuple2"@.len() == 18);
    assert("lux_rt_make_tuple2"@[9] != "lux_rt_match_error"@[9]);
    assert("lux_rt_make_tuple3"@.len() == 18);
    assert("lux_rt_make_tuple3"@[9] != "lux_rt_match_error"@[9]);
    assert("lux_rt_make_tuple_n"@.len() == 19);
    assert("lux_rt_make_tuple_n"@[7] != "lux_rt_erlang_error"@[7]);
    assert("lux_rt_make_tuple_n"@[7] != "lux_rt_erlang_throw"@[7]);
    assert("lux_rt_mul"@.len() == 10);
    assert("lux_rt_negate"@.len() == 13);
}

spec fn loud4() -> bool {
    &&& !silent("lux_rt_put"@)
    &&& !silent("lux_rt_safe_div"@)
    &&& !silent("lux_rt_safe_rem"@)
    &&& !silent("lux_rt_string_concat"@)
    &&& !silent("lux_rt_string_equal"@)
    &&& !silent("lux_rt_sub"@)
    &&& !silent("lux_rt_system_time"@)
    &&& !silent("lux_rt_to_string"@)
    &&& !silent("lux_rt_try_begin"@)
    &&& !silent("lux_rt_try_call"@)
    &&& !silent("lux_rt_try_get_error"@)
    &&& !silent("lux_rt_tuple_arity"@)
    &&& !silent("lux_rt_tuple_element"@)
    &&& !silent("lux_rt_value_equal"@)
    &&& !silent("lux_string_find2"@)
    &&& !silent("lux_string_lowercase1"@)
    &&& !silent("lux_string_replace4"@)
    &&& !silent("lux_string_split3"@)
    &&& !silent("lux_string_trim1"@)
    &&& !silent("lux_string_uppercase1"@)
}

proof fn names4_loud()
    ensures
        loud4(),
{
    reveal_strlit("lux_rt_match_error");
    reveal_strlit("lux_rt_case_clause_error");
    reveal_strlit("lux_rt_erlang_error");
    reveal_strlit("lux_rt_erlang_throw");
    reveal_strlit("lux_rt_try_end");
    reveal_strlit("lux_rt_put");
    reveal_strlit("lux_rt_safe_div");
    reveal_strlit("lux_rt_safe_rem");
    reveal_strlit("lux_rt_string_concat");
    reveal_strlit("lux_rt_string_equal");
    reveal_strlit("lux_rt_sub");
    reveal_strlit("lux_rt_system_time");
    reveal_strlit("lux_rt_to_string");
    reveal_strlit("lux_rt_try_begin");
    reveal_strlit("lux_rt_try_call");
    reveal_strlit("lux_rt_try_get_error");
    reveal_strlit("lux_rt_tuple_arity");
    reveal_strlit("lux_rt_tuple_element");
    reveal_strlit("lux_rt_value_equal");
    reveal_strlit("lux_string_find2");
    reveal_strlit("lux_string_lowercase1");
    reveal_strlit("lux_string_replace4");
    reveal_strlit("lux_string_split3");
    reveal_strlit("lux_string_trim1");
    reveal_strlit("lux_string_uppercase1");
    assert("lux_rt_put"@.len() == 10);
    assert("lux_rt_safe_div"@.len() == 15);
    assert("lux_rt_safe_rem"@.len() == 15);
    assert("lux_rt_string_concat"@.len() == 20);
    assert("lux_rt_string_equal"@.len() == 19);
    assert("lux_rt_string_equal"@[7] != "lux_rt_erlang_error"@[7]);
    assert("lux_rt_string_equal"@[7] != "lux_rt_erlang_throw"@[7]);
    assert("lux_rt_sub"@.len() == 10);
    assert("lux_rt_system_time"@.len() == 18);
    assert("lux_rt_system_time"@[7] != "lux_rt_match_error"@[7]);
    assert("lux_rt_to_string"@.len() == 16);
    assert("lux_rt_try_begin"@.len() == 16);
    assert("lux_rt_try_call"@.len() == 15);
    assert("lux_rt_try_get_error"@.len() == 20);
    assert("lux_rt_tuple_arity"@.len() == 18);
    assert("lux_rt_tuple_arity"@[7] != "lux_rt_match_error"@[7]);
    assert("lux_rt_tuple_element"@.len() == 20);
    assert("lux_rt_value_equal"@.len() == 18);
    assert("lux_rt_value_equal"@[7] != "lux_rt_match_error"@[7]);
    assert("lux_string_find2"@.len() == 16);
    assert("lux_string_lowercase1"@.len() == 21);
    assert("lux_string_replace4"@.len() == 19);
    assert("lux_string_replace4"@[4] != "lux_rt_erlang_error"@[4]);
    assert("lux_string_replace4"@[4] != "lux_rt_erlang_throw"@[4]);
    assert("lux_string_split3"@.len() == 17);
    assert("lux_string_trim1"@.len() == 16);
    assert("lux_string_uppercase1"@.len() == 21);
}

/// Whether the helpers of the runtime that are called for a value return one.
spec fn all_loud() -> bool {
    &&& loud1()
    &&& loud2()
    &&& loud3()
    &&& loud4()
}

proof fn names_loud()
    ensures
        all_loud(),
{
    names1_loud();
    names2_loud();
    names3_loud();
    names4_loud();
}
proof fn stored_bytes_sound(g: Gen, slot: usize, bytes: Seq<u8>)
    ensures
        quiet(g, stored_bytes(g, slot, bytes)),
        fine(stored_bytes(g, slot, bytes)) && sound(g) && is_slot(g, slot)
            ==> sound(stored_bytes(g, slot, bytes)),
    decreases bytes.len(),
{
    broadcast use group_calls;

    if bytes.len() > 0 {
        stored_bytes_sound(g, slot, bytes.drop_last());
    }
}

broadcast proof fn string_in_sound(g: Gen, slot: usize, len: nat)
    ensures
        quiet(g, (#[trigger] string_in(g, slot, len)).0),
        fine(string_in(g, slot, len).0) && sound(g) && is_slot(g, slot)
            ==> sound(string_in(g, slot, len).0)
            && is_value(string_in(g, slot, len).0, string_in(g, slot, len).1),
{
    broadcast use group_calls;

    reveal(string_in);
    names_loud();
}

broadcast proof fn bytes_string_sound(g: Gen, bytes: Seq<u8>)
    ensures
        quiet(g, (#[trigger] bytes_string(g, bytes)).0),
        fine(bytes_string(g, bytes).0) && sound(g)
            ==> sound(bytes_string(g, bytes).0)
            && is_value(bytes_string(g, bytes).0, bytes_string(g, bytes).1),
{
    broadcast use group_calls, string_in_sound;

    reveal(bytes_string);
    let (g1, slot) = emit(g, Step::Slot((bytes.len() + 1) as u32, 0));
    stored_bytes_sound(g1, slot, bytes);
}

broadcast proof fn string_lit_sound(g: Gen, s: Seq<char>)
    ensures
        quiet(g, (#[trigger] string_lit(g, s)).0),
        fine(string_lit(g, s).0) && sound(g)
            ==> sound(string_lit(g, s).0) && is_value(string_lit(g, s).0, string_lit(g, s).1),
{
    broadcast use group_calls, bytes_string_sound;

    reveal(string_lit);
}

broadcast proof fn float_lit_sound(g: Gen, bits: u64)
    ensures
        quiet(g, (#[trigger] float_lit(g, bits)).0),
        fine(float_lit(g, bits).0) && sound(g)
            ==> sound(float_lit(g, bits).0) && is_value(float_lit(g, bits).0, float_lit(g, bits).1),
{
    broadcast use group_calls;

    names_loud();
}

broadcast proof fn lit_sound(g: Gen, l: Literal)
    ensures
        quiet(g, (#[trigger] lit(g, l)).0),
        fine(lit(g, l).0) && sound(g) ==> sound(lit(g, l).0) && is_value(lit(g, l).0, lit(g, l).1),
{
    broadcast use group_calls, string_lit_sound, float_lit_sound;

    reveal(lit);
    match l {
        Literal::Atom(name) => {
            covers_itself(g, Gen { atoms: interned(g.atoms, name).0, ..g });
            with_funcs(g, Gen { atoms: interned(g.atoms, name).0, ..g });
        },
        _ => {},
    }
}

broadcast proof fn untag_sound(g: Gen, v: usize)
    ensures
        quiet(g, (#[trigger] untag(g, v)).0),
        fine(untag(g, v).0) && sound(g) && is_value(g, v)
            ==> sound(untag(g, v).0) && is_value(untag(g, v).0, untag(g, v).1),
{
    broadcast use group_calls;

}

broadcast proof fn tag_sound(g: Gen, v: usize)
    ensures
        quiet(g, (#[trigger] tag(g, v)).0),
        fine(tag(g, v).0) && sound(g) && is_value(g, v)
            ==> sound(tag(g, v).0) && is_value(tag(g, v).0, tag(g, v).1),
{
    broadcast use group_calls;

}

broadcast proof fn truth_sound(g: Gen, cond: usize)
    ensures
        quiet(g, (#[trigger] truth(g, cond)).0),
        fine(truth(g, cond).0) && sound(g) && is_cond(g, cond)
            ==> sound(truth(g, cond).0) && is_value(truth(g, cond).0, truth(g, cond).1),
{
    broadcast use group_calls;

}

proof fn zeroed_sound(g: Gen, slot: usize, zero: usize, k: nat)
    ensures
        quiet(g, zeroed(g, slot, zero, k)),
        fine(zeroed(g, slot, zero, k)) && sound(g) && is_slot(g, slot) && is_value(g, zero)
            ==> sound(zeroed(g, slot, zero, k)),
    decreases k,
{
    broadcast use group_calls;

    if k > 0 {
        zeroed_sound(g, slot, zero, (k - 1) as nat);
    }
}

broadcast proof fn safe_words_sound(g: Gen)
    ensures
        quiet(g, (#[trigger] safe_words(g)).0),
        fine(safe_words(g).0) && sound(g)
            ==> sound(safe_words(g).0) && is_value(safe_words(g).0, safe_words(g).1),
{
    broadcast use group_calls;

    let (g1, slot) = emit(g, Step::Slot(64, 8));
    let (g2, zero) = emit(g1, Step::Word(0));
    zeroed_sound(g2, slot, zero, 8);
}

broadcast proof fn has_tag_sound(g: Gen, v: usize, tag: i64)
    ensures
        quiet(g, (#[trigger] has_tag(g, v, tag)).0),
        fine(has_tag(g, v, tag).0) && sound(g) && is_value(g, v)
            ==> sound(has_tag(g, v, tag).0) && is_cond(has_tag(g, v, tag).0, has_tag(g, v, tag).1),
{
    broadcast use group_calls;

}

broadcast proof fn safe_pointer_sound(g: Gen, v: usize, cond: usize)
    ensures
        quiet(g, (#[trigger] safe_pointer(g, v, cond)).0),
        fine(safe_pointer(g, v, cond).0) && sound(g) && is_value(g, v) && is_cond(g, cond)
            ==> sound(safe_pointer(g, v, cond).0)
            && is_value(safe_pointer(g, v, cond).0, safe_pointer(g, v, cond).1),
{
    broadcast use group_calls, safe_words_sound;

}

broadcast proof fn is_boxed_sound(g: Gen, v: usize, tag: usize, marker: i64)
    ensures
        quiet(g, (#[trigger] is_boxed(g, v, tag, marker)).0),
        fine(is_boxed(g, v, tag, marker).0) && sound(g) && is_value(g, v) && is_value(g, tag)
            ==> sound(is_boxed(g, v, tag, marker).0)
            && is_cond(is_boxed(g, v, tag, marker).0, is_boxed(g, v, tag, marker).1),
{
    broadcast use group_calls, safe_pointer_sound;

}

broadcast proof fn is_boxed_with_sound(g: Gen, v: usize, marker: i64)
    ensures
        quiet(g, (#[trigger] is_boxed_with(g, v, marker)).0),
        fine(is_boxed_with(g, v, marker).0) && sound(g) && is_value(g, v)
            ==> sound(is_boxed_with(g, v, marker).0)
            && is_value(is_boxed_with(g, v, marker).0, is_boxed_with(g, v, marker).1),
{
    broadcast use group_calls, is_boxed_sound, truth_sound;

}

broadcast group group_words {
    group_calls,
    string_in_sound,
    bytes_string_sound,
    string_lit_sound,
    lit_sound,
    untag_sound,
    tag_sound,
    truth_sound,
    has_tag_sound,
    safe_pointer_sound,
    is_boxed_sound,
    is_boxed_with_sound,
}

proof fn kind_test_sound(func: Seq<char>, v: usize, g: Gen)
    ensures
        kind_test(func, v, g) matches Some(r) ==> {
            &&& quiet(g, r.0)
            &&& fine(r.0) && sound(g) && is_value(g, v) ==> sound(r.0) && is_value(r.0, r.1)
        },
{
    broadcast use group_words;

}

broadcast proof fn chosen_sound(g: Gen, name: Seq<char>, a: usize, b: usize)
    ensures
        quiet(g, (#[trigger] chosen(g, name, a, b)).0),
        fine(chosen(g, name, a, b).0) && sound(g) && is_value(g, a) && is_value(g, b)
            && !silent(name)
            ==> sound(chosen(g, name, a, b).0)
            && is_value(chosen(g, name, a, b).0, chosen(g, name, a, b).1),
{
    broadcast use group_words;

}

broadcast proof fn flipped_sound(g: Gen, v: usize)
    ensures
        quiet(g, (#[trigger] flipped(g, v)).0),
        fine(flipped(g, v).0) && sound(g) && is_value(g, v)
            ==> sound(flipped(g, v).0) && is_value(flipped(g, v).0, flipped(g, v).1),
{
    broadcast use group_words;

}

broadcast proof fn raised_sound(g: Gen, name: Seq<char>, v: usize)
    ensures
        quiet(g, (#[trigger] raised(g, name, v)).0),
        fine(raised(g, name, v).0) && sound(g) && is_value(g, v) && silent(name)
            ==> sound(raised(g, name, v).0) && is_value(raised(g, name, v).0, raised(g, name, v).1),
{
    broadcast use group_words;

}

proof fn bif_one_sound(func: Seq<char>, v: usize, g: Gen)
    ensures
        quiet(g, bif_one(func, v, g).0),
        fine(bif_one(func, v, g).0) && sound(g) && is_value(g, v)
            ==> sound(bif_one(func, v, g).0)
            && is_value(bif_one(func, v, g).0, bif_one(func, v, g).1),
{
    broadcast use group_words, flipped_sound, raised_sound;

    names_loud();
    kind_test_sound(func, v, g);
}

proof fn bif_two_sound(func: Seq<char>, a: usize, b: usize, g: Gen)
    ensures
        quiet(g, bif_two(func, a, b, g).0),
        fine(bif_two(func, a, b, g).0) && sound(g) && is_value(g, a) && is_value(g, b)
            ==> sound(bif_two(func, a, b, g).0)
            && is_value(bif_two(func, a, b, g).0, bif_two(func, a, b, g).1),
{
    broadcast use group_words, chosen_sound, flipped_sound;

    names_loud();
}

proof fn bif_runtime_loud(func: Seq<char>, n: nat)
    ensures
        bif_runtime(func, n) matches Some((name, _)) ==> !silent(name),
{
    names_loud();
}

/// A warning that is due changes nothing about the steps.
proof fn warned_sound(g: Gen, c: Caution)
    requires
        is_due(c, g.funcs),
    ensures
        quiet(g, warned(g, c)),
        fine(warned(g, c)) == fine(g),
        sound(g) ==> sound(warned(g, c)),
{
    covers_itself(g, warned(g, c));
    if all_due(g.cautions, g.funcs) {
        reveal(all_due);
        let h = warned(g, c);
        assert forall|i: int| 0 <= i < h.cautions.len() implies is_due(
            #[trigger] h.cautions[i],
            h.funcs,
        ) by {
            if i < g.cautions.len() {
                assert(h.cautions[i] == g.cautions[i]);
            }
        }
    }
    with_funcs(g, warned(g, c));
    reveal(fine);
    reveal(sound);
}

broadcast proof fn bif_sound(func: Seq<char>, vals: Seq<usize>, g: Gen)
    ensures
        quiet(g, (#[trigger] bif(func, vals, g)).0),
        fine(bif(func, vals, g).0) && sound(g) && are_values(g, vals)
            ==> sound(bif(func, vals, g).0) && is_value(bif(func, vals, g).0, bif(func, vals, g).1),
{
    broadcast use group_words;

    reveal(bif);
    warned_sound(g, Caution::Unsupported(func, vals.len()));
    bif_runtime_loud(func, vals.len());
    if are_values(g, vals) {
        reveal(are_values);
        match bif_runtime(func, vals.len()) {
            Some((_, k)) => {
                if k <= vals.len() {
                    assert forall|i: int| 0 <= i < vals.take(k as int).len() implies is_value(
                        g,
                        #[trigger] vals.take(k as int)[i],
                    ) by {
                        assert(vals.take(k as int)[i] == vals[i]);
                    }
                    assert(are_values(g, vals.take(k as int)));
                }
            },
            None => {},
        }
        if vals.len() > 0 {
            assert(is_value(g, vals[0]));
        }
        if vals.len() > 1 {
            assert(is_value(g, vals[1]));
        }
    }
    if vals.len() >= 2 {
        bif_two_sound(func, vals[0], vals[1], g);
    }
    if vals.len() >= 1 {
        bif_one_sound(func, vals[0], g);
    }
}

#[verifier::rlimit(40)]
#[verifier::spinoff_prover]
proof fn pattern_test_sound(p: Pat, value: usize, g: Gen)
    ensures
        quiet(g, pattern_test(p, value, g).0),
        fine(pattern_test(p, value, g).0) && sound(g) && is_value(g, value)
            ==> sound(pattern_test(p, value, g).0)
            && is_cond(pattern_test(p, value, g).0, pattern_test(p, value, g).1),
    decreases p,
{
    broadcast use group_words;

    names_loud();
    match p {
        Pat::Lit(l) => {
            covers_itself(g, lit_word(g, l).0);
            with_funcs(g, lit_word(g, l).0);
        },
        Pat::Tuple(items) => {
            let (g1, tuple) = has_tag(g, value, 0);
            if items.len() > 0 {
                let (g2, q) = safe_pointer(g1, value, tuple);
                let (g3, n) = emit(g2, Step::Load(q, 0));
                let (g4, want) = emit(g3, Step::Word(items.len() as i64));
                let (g5, c) = emit(g4, Step::Equal(n, want));
                let (g6, r) = emit(g5, Step::Band(tuple, c));
                pattern_tests_sound(items, q, g6, r);
            }
        },
        Pat::Cons(h, t) => {
            let (g1, cons) = has_tag(g, value, 2);
            if !is_var(*h) || !is_var(*t) {
                let (g2, q) = safe_pointer(g1, value, cons);
                let (a1, x1) = emit(g2, Step::Load(q, 0));
                let (b1, y1) = pattern_test(*h, x1, a1);
                pattern_test_sound(*h, x1, a1);
                let (g3, r) = if is_var(*h) {
                    (g2, cons)
                } else {
                    emit(b1, Step::Band(cons, y1))
                };
                let (a2, x2) = emit(g3, Step::Load(q, 8));
                pattern_test_sound(*t, x2, a2);
            }
        },
        Pat::Alias(_, inner) => {
            pattern_test_sound(*inner, value, g);
        },
        _ => {},
    }
}

proof fn pattern_tests_sound(s: Seq<Pat>, p: usize, g: Gen, r: usize)
    ensures
        quiet(g, pattern_tests(s, p, g, r).0),
        fine(pattern_tests(s, p, g, r).0) && sound(g) && is_value(g, p) && is_cond(g, r)
            ==> sound(pattern_tests(s, p, g, r).0)
            && is_cond(pattern_tests(s, p, g, r).0, pattern_tests(s, p, g, r).1),
    decreases s,
{
    broadcast use group_words;

    if s.len() > 0 {
        pattern_tests_sound(s.drop_last(), p, g, r);
        let (g1, r1) = pattern_tests(s.drop_last(), p, g, r);
        let (g2, x) = emit(g1, Step::Load(p, element_offset(s.len() - 1)));
        pattern_test_sound(s.last(), x, g2);
    }
}

broadcast proof fn bound_var_sound(g: Gen, vars: Vars, name: Seq<char>, value: usize)
    ensures
        quiet(g, (#[trigger] bound_var(g, vars, name, value)).0),
        fine(bound_var(g, vars, name, value).0) && sound(g) && is_value(g, value)
            && are_vars(g, vars)
            ==> sound(bound_var(g, vars, name, value).0)
            && are_vars(bound_var(g, vars, name, value).0, bound_var(g, vars, name, value).1),
{
    broadcast use group_steps;

    reveal(bound_var);
    let (g1, v) = emit(g, Step::DeclareVar);
    let h = emit(g1, Step::DefVar(v, value)).0;
    if fine(h) && are_vars(g, vars) {
        assert(is_variable(g1, v));
        assert(is_variable(h, v));
        vars_stay(g, h, vars);
        reveal(are_vars);
    }
}

broadcast proof fn loaded_sound(g: Gen, value: usize, offset: i32)
    ensures
        quiet(g, (#[trigger] loaded(g, value, offset)).0),
        fine(loaded(g, value, offset).0) && sound(g) && is_value(g, value)
            ==> sound(loaded(g, value, offset).0)
            && is_value(loaded(g, value, offset).0, loaded(g, value, offset).1),
{
    broadcast use group_steps;

    reveal(loaded);
}

proof fn pattern_binds_sound(p: Pat, value: usize, g: Gen, vars: Vars)
    ensures
        quiet(g, pattern_binds(p, value, g, vars).0),
        fine(pattern_binds(p, value, g, vars).0) && sound(g) && is_value(g, value)
            && are_vars(g, vars)
            ==> sound(pattern_binds(p, value, g, vars).0)
            && are_vars(pattern_binds(p, value, g, vars).0, pattern_binds(p, value, g, vars).1),
    decreases p,
{
    broadcast use group_steps, bound_var_sound, loaded_sound;

    match p {
        Pat::Tuple(items) => {
            patterns_bind_sound(items, value, g, vars);
        },
        Pat::Cons(h, t) => {
            let (g1, x) = loaded(g, value, 0);
            let (g2, y) = loaded(g1, value, 8);
            pattern_binds_sound(*h, x, g2, vars);
            let (g3, vars1) = pattern_binds(*h, x, g2, vars);
            pattern_binds_sound(*t, y, g3, vars1);
        },
        Pat::Alias(name, inner) => {
            let (g1, vars1) = bound_var(g, vars, name, value);
            pattern_binds_sound(*inner, value, g1, vars1);
        },
        _ => {},
    }
}

proof fn patterns_bind_sound(s: Seq<Pat>, value: usize, g: Gen, vars: Vars)
    ensures
        quiet(g, patterns_bind(s, value, g, vars).0),
        fine(patterns_bind(s, value, g, vars).0) && sound(g) && is_value(g, value)
            && are_vars(g, vars)
            ==> sound(patterns_bind(s, value, g, vars).0)
            && are_vars(patterns_bind(s, value, g, vars).0, patterns_bind(s, value, g, vars).1),
    decreases s,
{
    broadcast use group_steps, loaded_sound;

    if s.len() > 0 {
        patterns_bind_sound(s.drop_last(), value, g, vars);
        let (g1, vars1) = patterns_bind(s.drop_last(), value, g, vars);
        let (g2, x) = loaded(g1, value, element_offset(s.len() - 1));
        pattern_binds_sound(s.last(), x, g2, vars1);
    }
}

proof fn var_of_inside(g: Gen, vars: Vars, name: Seq<char>)
    requires
        are_vars(g, vars),
    ensures
        var_of(vars, name) matches Some(v) ==> is_variable(g, v),
    decreases vars.len(),
{
    reveal(are_vars);
    if vars.len() > 0 {
        assert(is_variable(g, vars[vars.len() - 1].1));
        assert forall|i: int| 0 <= i < vars.drop_last().len() implies is_variable(
            g,
            (#[trigger] vars.drop_last()[i]).1,
        ) by {
            assert(vars.drop_last()[i] == vars[i]);
        }
        var_of_inside(g, vars.drop_last(), name);
    }
}

broadcast proof fn variable_sound(g: Gen, vars: Vars, name: Seq<char>)
    ensures
        quiet(g, (#[trigger] variable(g, vars, name)).0),
        fine(variable(g, vars, name).0) && sound(g) && are_vars(g, vars)
            ==> sound(variable(g, vars, name).0)
            && is_value(variable(g, vars, name).0, variable(g, vars, name).1),
{
    broadcast use group_steps;

    reveal(variable);
    if are_vars(g, vars) {
        var_of_inside(g, vars, name);
    }
}

broadcast proof fn direct_call_sound(g: Gen, symbol: Seq<char>, vals: Seq<usize>)
    ensures
        quiet(g, (#[trigger] direct_call(g, symbol, vals)).0),
        fine(direct_call(g, symbol, vals).0) && sound(g) && are_values(g, vals)
            ==> sound(direct_call(g, symbol, vals).0)
            && is_value(direct_call(g, symbol, vals).0, direct_call(g, symbol, vals).1),
{
    broadcast use group_calls;

    reveal(direct_call);
    func_at_inside(g.funcs, symbol);
    declared_inside(g.funcs, symbol, vals.len(), 1, false, true, false);
    let at = func_at(g.funcs, symbol);
    if at is Some && g.funcs[at->Some_0 as int].own {
        if helpers(g.funcs) {
            helper_results(g.funcs, at->Some_0 as int);
            assert(is_answering(g, at->Some_0));
        }
    } else {
        match declared(g.funcs, symbol, vals.len(), 1, false, true, false) {
            Some((funcs, i)) => {
                let g1 = Gen { funcs, ..g };
                covers_itself(g, g1);
                with_funcs(g, g1);
                let h = call(g1, i, vals).0;
                if fine(h) && sound(g) {
                    assert(fine(g1));
                    assert(funcs.len() <= usize::MAX) by {
                        reveal(fine);
                    }
                    assert(is_answering(g1, i));
                }
            },
            None => {
                let c = Caution::Undeclared(symbol, vals.len());
                assert(is_due(c, g.funcs)) by {
                    reveal(declared);
                }
                warned_sound(g, c);
            },
        }
    }
}

proof fn values_behind(g: Gen, x: usize, xs: Seq<usize>)
    requires
        is_value(g, x),
        are_values(g, xs),
    ensures
        are_values(g, seq![x] + xs),
{
    reveal(are_values);
    let all = seq![x] + xs;
    assert forall|i: int| 0 <= i < all.len() implies is_value(g, #[trigger] all[i]) by {
        if i > 0 {
            assert(all[i] == xs[i - 1]);
        }
    }
}

broadcast proof fn closure_call_sound(g: Gen, closure: usize, vals: Seq<usize>)
    ensures
        quiet(g, (#[trigger] closure_call(g, closure, vals)).0),
        fine(closure_call(g, closure, vals).0) && sound(g) && is_value(g, closure)
            && are_values(g, vals)
            ==> sound(closure_call(g, closure, vals).0)
            && is_value(closure_call(g, closure, vals).0, closure_call(g, closure, vals).1),
{
    broadcast use group_calls;

    reveal(closure_call);
    names_loud();
    if is_value(g, closure) && are_values(g, vals) {
        values_behind(g, closure, vals);
    }
}

proof fn stored_words_sound(g: Gen, slot: usize, vals: Seq<usize>)
    ensures
        quiet(g, stored_words(g, slot, vals)),
        fine(stored_words(g, slot, vals)) && sound(g) && is_slot(g, slot) && are_values(g, vals)
            ==> sound(stored_words(g, slot, vals)),
    decreases vals.len(),
{
    broadcast use group_steps;

    if vals.len() > 0 {
        stored_words_sound(g, slot, vals.drop_last());
        if are_values(g, vals) {
            reveal(are_values);
            assert(is_value(g, vals[vals.len() - 1]));
            assert forall|i: int| 0 <= i < vals.drop_last().len() implies is_value(
                g,
                #[trigger] vals.drop_last()[i],
            ) by {
                assert(vals.drop_last()[i] == vals[i]);
            }
        }
    }
}

broadcast proof fn tuple_sound(g: Gen, vals: Seq<usize>)
    ensures
        quiet(g, (#[trigger] tuple(g, vals)).0),
        fine(tuple(g, vals).0) && sound(g) && are_values(g, vals)
            ==> sound(tuple(g, vals).0) && is_value(tuple(g, vals).0, tuple(g, vals).1),
{
    broadcast use group_calls;

    reveal(tuple);
    names_loud();
    let (g1, slot) = emit(g, Step::Slot((vals.len() * 8) as u32, 8));
    stored_words_sound(g1, slot, vals);
}

proof fn stored_captures_sound(g: Gen, slot: usize, captures: Seq<Seq<char>>, vars: Vars)
    ensures
        quiet(g, stored_captures(g, slot, captures, vars)),
        fine(stored_captures(g, slot, captures, vars)) && sound(g) && is_slot(g, slot)
            && are_vars(g, vars) ==> sound(stored_captures(g, slot, captures, vars)),
    decreases captures.len(),
{
    broadcast use group_steps, variable_sound;

    if captures.len() > 0 {
        stored_captures_sound(g, slot, captures.drop_last(), vars);
    }
}

proof fn heap_captures_sound(g: Gen, heap: usize, captures: Seq<Seq<char>>, vars: Vars)
    ensures
        quiet(g, heap_captures(g, heap, captures, vars)),
        fine(heap_captures(g, heap, captures, vars)) && sound(g) && is_value(g, heap)
            && are_vars(g, vars) ==> sound(heap_captures(g, heap, captures, vars)),
    decreases captures.len(),
{
    broadcast use group_steps, variable_sound;

    if captures.len() > 0 {
        heap_captures_sound(g, heap, captures.drop_last(), vars);
    }
}

proof fn deferred_covers(g: Gen, symbol: Seq<char>, l: Lambda)
    requires
        declared(g.funcs, symbol, l.params.len() + 1, 1, true, true, false) is Some,
    ensures
        covers(g, deferred(g, symbol, l).0),
{
    reveal(deferred);
    declared_inside(g.funcs, symbol, l.params.len() + 1, 1, true, true, false);
    let (h, i) = deferred(g, symbol, l);
    assert(g.deferred =~= h.deferred.take(g.deferred.len() as int));
    assert(h.deferred[g.deferred.len() as int].func == i);
    assert(in_line(h.deferred, i as int));
}

broadcast proof fn deferred_sound(g: Gen, symbol: Seq<char>, l: Lambda)
    ensures
        quiet(g, (#[trigger] deferred(g, symbol, l)).0),
        fine(deferred(g, symbol, l).0) && sound(g) ==> sound(deferred(g, symbol, l).0),
        fine(deferred(g, symbol, l).0) ==> is_func(
            deferred(g, symbol, l).0,
            deferred(g, symbol, l).1,
        ),
{
    broadcast use group_steps, stick_stops, sound_helpers;

    reveal(deferred);
    declared_inside(g.funcs, symbol, l.params.len() + 1, 1, true, true, false);
    match declared(g.funcs, symbol, l.params.len() + 1, 1, true, true, false) {
        Some(_) => {
            let h = deferred(g, symbol, l).0;
            deferred_covers(g, symbol, l);
            with_funcs(g, h);
            if fine(h) {
                assert(h.funcs.len() <= usize::MAX) by {
                    reveal(fine);
                }
                if sound(g) {
                    assert(queued(h.deferred, h.funcs)) by {
                        reveal(sound);
                        queued_on(g.deferred, g.funcs, h.funcs);
                        reveal(queued);
                    }
                }
            }
        },
        None => {
            covers_itself(g, Gen { lambdas: g.lambdas + 1, ..g });
            with_funcs(g, Gen { lambdas: g.lambdas + 1, ..g });
        },
    }
}

broadcast proof fn closure_sound(g: Gen, params: Seq<Seq<char>>, body: Core, vars: Vars, home: Seq<char>)
    ensures
        quiet(g, (#[trigger] closure(g, params, body, vars, home)).0),
        fine(closure(g, params, body, vars, home).0) && sound(g) && are_vars(g, vars)
            ==> sound(closure(g, params, body, vars, home).0)
            && is_value(closure(g, params, body, vars, home).0,
            closure(g, params, body, vars, home).1),
{
    broadcast use group_calls, deferred_sound;

    reveal(closure);
    names_loud();
    let captures = captured(params, body);
    let n = captures.len();
    let symbol = "lux_lambda_"@ + decimal(g.lambdas);
    let (g1, f) = deferred(g, symbol, Lambda { func: 0, params, captures, body, home });
    let (g1b, fref) = emit(g1, Step::Import(f));
    let (g2, addr) = emit(g1b, Step::FuncAddr(fref));
    let (g3, slot) = emit(g2, Step::Slot(((2 + n) * 8) as u32, 8));
    let g4 = emit(g3, Step::StackStore(addr, slot, 0)).0;
    let (g5, count) = emit(g4, Step::Word(n as i64));
    let g6 = emit(g5, Step::StackStore(count, slot, 8)).0;
    stored_captures_sound(g6, slot, captures, vars);
    let g7 = stored_captures(g6, slot, captures, vars);
    let (g8, alloc) = runtime_func(g7, "lux_alloc"@, 1, 1);
    let (g9, size) = emit(g8, Step::Word(((2 + n) * 8) as i64));
    let (g10, heap) = call(g9, alloc, seq![size]);
    let g11 = emit(g10, Step::Store(addr, heap, 0)).0;
    let g12 = emit(g11, Step::Store(count, heap, 8)).0;
    heap_captures_sound(g12, heap, captures, vars);
}

broadcast proof fn fun_ref_sound(g: Gen, module: Seq<char>, name: Seq<char>, arity: nat)
    ensures
        quiet(g, (#[trigger] fun_ref(g, module, name, arity)).0),
        fine(fun_ref(g, module, name, arity).0) && sound(g)
            ==> sound(fun_ref(g, module, name, arity).0)
            && is_value(fun_ref(g, module, name, arity).0, fun_ref(g, module, name, arity).1),
{
    broadcast use group_calls, deferred_sound;

    reveal(fun_ref);
    names_loud();
}
/// Whether blocks but one that nothing has been put into stay so.
#[verifier::opaque]
spec fn passes_but(x: usize, g: Gen, h: Gen) -> bool {
    forall|y: usize| y != x && #[trigger] waiting(g, y) ==> waiting(h, y)
}

broadcast proof fn waiting_passes_but(x: usize, g: Gen, h: Gen, y: usize)
    requires
        #[trigger] passes_but(x, g, h),
        #[trigger] waiting(g, y),
        x != y,
    ensures
        waiting(h, y),
{
    reveal(passes_but);
}

broadcast proof fn passes_but_on(x: usize, g: Gen, h: Gen, k: Gen)
    requires
        #[trigger] passes_but(x, g, h),
        #[trigger] passes(h, k),
    ensures
        passes_but(x, g, k),
{
    reveal(passes_but);
    reveal(passes);
}

broadcast proof fn block_created(g: Gen)
    ensures
        fine((#[trigger] emit(g, Step::CreateBlock)).0) && (sound(g) || resting(g)) ==> waiting(
            emit(g, Step::CreateBlock).0,
            emit(g, Step::CreateBlock).1,
        ),
        fine(emit(g, Step::CreateBlock).0) && resting(g) ==> resting(
            emit(g, Step::CreateBlock).0,
        ),
{
    let s = Step::CreateBlock;
    emit_grows(g, s);
    let h = emit(g, s).0;
    if fine(h) {
        emit_yields(g, s);
        site_after(g.steps, s);
        reveal(sound);
        reveal(resting);
        reveal(waiting);
        if resting(g) {
            linked_after(g.steps, g.funcs, s);
            assert(h.steps.last() == s);
        }
    }
}

broadcast proof fn param_added(g: Gen, x: usize)
    ensures
        passes(g, (#[trigger] emit(g, Step::AddParam(x))).0),
        indexes(g, emit(g, Step::AddParam(x)).0),
        takes_one(emit(g, Step::AddParam(x)).0, x),
        fine(emit(g, Step::AddParam(x)).0) && sound(g) && waiting(g, x) ==> sound(
            emit(g, Step::AddParam(x)).0,
        ),
{
    let s = Step::AddParam(x);
    emit_grows(g, s);
    emit_passes(g, s);
    emit_indexes(g, s);
    let h = emit(g, s).0;
    assert(h.steps.drop_last() =~= g.steps);
    assert(h.steps.last() == s);
    if fine(h) && sound(g) && waiting(g, x) {
        reveal(sound);
        reveal(waiting);
        site_after(g.steps, s);
        linked_after(g.steps, g.funcs, s);
    }
}

broadcast proof fn param_taken(g: Gen, x: usize)
    ensures
        passes(g, (#[trigger] emit(g, Step::Param(x, 0))).0),
        takes_one(g, x) ==> indexes(g, emit(g, Step::Param(x, 0)).0),
{
    emit_passes(g, Step::Param(x, 0));
    if takes_one(g, x) {
        emit_indexes(g, Step::Param(x, 0));
    }
}

proof fn param_keeps(g: Gen, x: usize, k: usize)
    requires
        sound(g),
        is_block(g, x),
        fine(emit(g, Step::Param(x, k)).0),
    ensures
        sound(emit(g, Step::Param(x, k)).0),
{
    let s = Step::Param(x, k);
    emit_grows(g, s);
    reveal(sound);
    site_after(g.steps, s);
    linked_after(g.steps, g.funcs, s);
    assert(g.steps.push(s).last() == s);
}

/// Whether a step ends a block.
pub open spec fn leaves(s: Step) -> bool {
    s is Brif || s is Jump || s is JumpWith || s is Trap || s is Return
}

/// Whether the blocks that a step branches to wait.
spec fn targets_wait(g: Gen, s: Step) -> bool {
    match s {
        Step::Brif(_, y, z) => waiting(g, y) && waiting(g, z),
        Step::Jump(y) => waiting(g, y),
        Step::JumpWith(y, _) => waiting(g, y),
        _ => true,
    }
}

broadcast proof fn block_left(g: Gen, s: Step)
    ensures
        leaves(s) ==> passes(g, (#[trigger] emit(g, s)).0) && indexes(g, emit(g, s).0),
        leaves(s) && fine(emit(g, s).0) && sound(g) && targets_wait(g, s) && refers_back(
            g.steps,
            g.funcs,
            s,
        ) ==> resting(emit(g, s).0),
{
    if leaves(s) {
        emit_passes(g, s);
        emit_indexes(g, s);
        emit_grows(g, s);
        if fine(emit(g, s).0) && sound(g) && targets_wait(g, s) && refers_back(
            g.steps,
            g.funcs,
            s,
        ) {
            reveal(sound);
            reveal(resting);
            reveal(waiting);
            site_after(g.steps, s);
            linked_after(g.steps, g.funcs, s);
            assert(g.steps.push(s).last() == s);
        }
    }
}

broadcast proof fn opened_sound(g: Gen, block: usize)
    ensures
        grows(g, #[trigger] opened(g, block)),
        indexes(g, opened(g, block)),
        passes_but(block, g, opened(g, block)),
        fine(opened(g, block)) && resting(g) && waiting(g, block) ==> sound(opened(g, block)),
{
    broadcast use group_steps;

    reveal(opened);
    let s = Step::SwitchTo(block);
    let t = Step::Seal(block);
    let b = emit(g, s).0;
    let h = emit(b, t).0;
    emit_grows(g, s);
    emit_grows(b, t);
    emit_indexes(g, s);
    emit_indexes(b, t);
    assert(passes_but(block, g, h)) by {
        reveal(passes_but);
        assert forall|y: usize| y != block && #[trigger] waiting(g, y) implies waiting(h, y) by {
            waiting_after(g, s, y);
            waiting_after(b, t, y);
        }
    }
    if fine(h) && resting(g) && waiting(g, block) {
        at_stays(g, b, Kind::Block, block);
        assert(sound(h)) by {
            reveal(sound);
            reveal(resting);
            reveal(waiting);
            site_after(g.steps, s);
            linked_after(g.steps, g.funcs, s);
            assert(b.steps.last() == s);
            site_after(b.steps, t);
            linked_after(b.steps, b.funcs, t);
            assert(h.steps.last() == t);
        }
    }
}

broadcast proof fn merged_sound(g: Gen, block: usize)
    ensures
        grows(g, (#[trigger] merged(g, block)).0),
        passes_but(block, g, merged(g, block).0),
        takes_one(g, block) ==> indexes(g, merged(g, block).0),
        fine(merged(g, block).0) && resting(g) && waiting(g, block) ==> sound(merged(g, block).0)
            && is_value(merged(g, block).0, merged(g, block).1),
{
    broadcast use group_steps, param_taken, opened_sound, passes_but_on;

    reveal(merged);
    let b = opened(g, block);
    let h = emit(b, Step::Param(block, 0)).0;
    if fine(h) && resting(g) && waiting(g, block) {
        assert(sound(b));
        assert(is_block(b, block));
        param_keeps(b, block, 0);
    }
}

broadcast group group_blocks {
    group_calls,
    waiting_passes_but,
    passes_but_on,
    block_created,
    param_added,
    block_left,
    opened_sound,
    merged_sound,
    bound_var_sound,
    loaded_sound,
}

broadcast proof fn clause_scope_sound(
    g: Gen,
    block: usize,
    var: usize,
    patterns: Seq<Pat>,
    vars: Vars,
)
    ensures
        grows(g, (#[trigger] clause_scope(g, block, var, patterns, vars)).0),
        indexes(g, clause_scope(g, block, var, patterns, vars).0),
        passes_but(block, g, clause_scope(g, block, var, patterns, vars).0),
        fine(clause_scope(g, block, var, patterns, vars).0) && resting(g) && waiting(g, block)
            && is_variable(g, var) && are_vars(g, vars) ==> {
            &&& sound(clause_scope(g, block, var, patterns, vars).0)
            &&& are_vars(
                clause_scope(g, block, var, patterns, vars).0,
                clause_scope(g, block, var, patterns, vars).1,
            )
        },
{
    broadcast use group_blocks;

    reveal(clause_scope);
    let (g1, v) = emit(opened(g, block), Step::UseVar(var));
    if patterns.len() > 0 {
        pattern_binds_sound(patterns[0], v, g1, vars);
    }
}

spec fn nth_block(first: nat, j: int) -> usize {
    (first + j) as usize
}

/// Whether the places of a `case` are what they should be, from clause `i` on.
#[verifier::opaque]
spec fn frame_from(g: Gen, f: Frame, i: int) -> bool {
    &&& is_variable(g, f.var)
    &&& waiting(g, f.merge)
    &&& takes_one(g, f.merge)
    &&& f.merge < f.first
    &&& f.first + 3 * f.count + 1 <= usize::MAX
    &&& forall|j: int|
        3 * i <= j < 3 * f.count + 1 ==> waiting(g, #[trigger] nth_block(f.first, j))
}

broadcast proof fn frame_passes(g: Gen, h: Gen, f: Frame, i: int)
    requires
        #[trigger] passes(g, h),
        #[trigger] frame_from(g, f, i),
        grows(g, h),
        fine(h),
    ensures
        frame_from(h, f, i),
{
    broadcast use group_steps;

    reveal(frame_from);
    assert forall|j: int| 3 * i <= j < 3 * f.count + 1 implies waiting(
        h,
        #[trigger] nth_block(f.first, j),
    ) by {
        assert(waiting(g, nth_block(f.first, j)));
    }
}

/// The blocks of clause `i`, and those that come after it.
proof fn frame_blocks(g: Gen, f: Frame, i: int)
    requires
        frame_from(g, f, i),
        0 <= i <= f.count,
    ensures
        is_variable(g, f.var),
        waiting(g, f.merge),
        takes_one(g, f.merge),
        waiting(g, test_block(f, i)),
        test_block(f, i) != f.merge,
        i < f.count ==> {
            &&& waiting(g, guard_block(f, i))
            &&& waiting(g, body_block(f, i))
            &&& waiting(g, test_block(f, i + 1))
            &&& guard_block(f, i) != f.merge
            &&& body_block(f, i) != f.merge
            &&& test_block(f, i) != guard_block(f, i)
            &&& test_block(f, i) != body_block(f, i)
            &&& guard_block(f, i) != body_block(f, i)
            &&& test_block(f, i + 1) != test_block(f, i)
            &&& test_block(f, i + 1) != guard_block(f, i)
            &&& test_block(f, i + 1) != body_block(f, i)
        },
        f.merge < f.first,
        f.merge <= test_block(f, i),
        i < f.count ==> f.merge <= guard_block(f, i) && f.merge <= body_block(f, i),
{
    reveal(frame_from);
    assert(nth_block(f.first, 3 * i) == test_block(f, i));
    if i < f.count {
        assert(nth_block(f.first, 3 * i + 1) == guard_block(f, i));
        assert(nth_block(f.first, 3 * i + 2) == body_block(f, i));
        assert(nth_block(f.first, 3 * i + 3) == test_block(f, i + 1));
    }
}

broadcast proof fn clause_test_sound(g: Gen, f: Frame, i: int, patterns: Seq<Pat>)
    ensures
        grows(g, #[trigger] clause_test(g, f, i, patterns)),
        indexes(g, clause_test(g, f, i, patterns)),
        passes_but(test_block(f, i), g, clause_test(g, f, i, patterns)),
        fine(clause_test(g, f, i, patterns)) && resting(g) && frame_from(g, f, i) && 0 <= i < f.count
            ==> resting(clause_test(g, f, i, patterns)),
{
    broadcast use group_blocks;

    reveal(clause_test);
    let g0 = opened(g, test_block(f, i));
    let (g1, v) = emit(g0, Step::UseVar(f.var));
    let (g2, c) = if patterns.len() == 1 {
        pattern_test(patterns[0], v, g1)
    } else {
        emit(g1, Step::Byte(1))
    };
    if patterns.len() == 1 {
        pattern_test_sound(patterns[0], v, g1);
    }
    let h = clause_test(g, f, i, patterns);
    if fine(h) && resting(g) && frame_from(g, f, i) && 0 <= i < f.count {
        frame_blocks(g, f, i);
        assert(sound(g0));
        assert(waiting(g0, guard_block(f, i)));
        assert(waiting(g0, test_block(f, i + 1)));
        assert(sound(g2));
        assert(waiting(g2, guard_block(f, i)));
        assert(waiting(g2, test_block(f, i + 1)));
    }
}

broadcast proof fn case_failure_sound(g: Gen, f: Frame)
    ensures
        grows(g, #[trigger] case_failure(g, f)),
        indexes(g, case_failure(g, f)),
        passes_but(test_block(f, f.count as int), g, case_failure(g, f)),
        fine(case_failure(g, f)) && resting(g) && frame_from(g, f, f.count as int) ==> resting(
            case_failure(g, f),
        ),
{
    broadcast use group_blocks;

    reveal(case_failure);
    if frame_from(g, f, f.count as int) {
        frame_blocks(g, f, f.count as int);
    }
}

proof fn blocks_sound(g: Gen, k: nat)
    ensures
        quiet(g, blocks(g, k)),
        blocks(g, k).steps.len() == g.steps.len() + k,
        fine(blocks(g, k)) && sound(g) ==> sound(blocks(g, k)) && forall|j: int|
            0 <= j < k ==> waiting(blocks(g, k), #[trigger] nth_block(g.steps.len(), j)),
    decreases k,
{
    broadcast use group_blocks;

    if k > 0 {
        let b = blocks(g, (k - 1) as nat);
        let h = blocks(g, k);
        blocks_sound(g, (k - 1) as nat);
        emit_grows(b, Step::CreateBlock);
        if fine(h) && sound(g) {
            assert(fine(b));
            assert forall|j: int| 0 <= j < k implies waiting(
                h,
                #[trigger] nth_block(g.steps.len(), j),
            ) by {
                if j < k - 1 {
                    assert(waiting(b, nth_block(g.steps.len(), j)));
                } else {
                    assert(nth_block(g.steps.len(), j) == emit(b, Step::CreateBlock).1);
                }
            }
        }
    }
}

broadcast proof fn case_start_sound(g: Gen, value: usize, n: nat)
    ensures
        quiet(g, (#[trigger] case_start(g, value, n)).0),
        fine(case_start(g, value, n).0) && sound(g) && is_value(g, value) ==> {
            &&& resting(case_start(g, value, n).0)
            &&& frame_from(case_start(g, value, n).0, case_start(g, value, n).1, 0)
            &&& case_start(g, value, n).1.merge >= g.steps.len()
        },
        case_start(g, value, n).1.count == n,
{
    broadcast use group_blocks;

    reveal(case_start);
    let (g1, var) = emit(g, Step::DeclareVar);
    let g2 = emit(g1, Step::DefVar(var, value)).0;
    let (g3, merge) = emit(g2, Step::CreateBlock);
    let g4 = emit(g3, Step::AddParam(merge)).0;
    let f = Frame { var, merge, first: g4.steps.len(), count: n };
    blocks_sound(g4, 3 * n + 1);
    let b = blocks(g4, 3 * n + 1);
    let h = case_start(g, value, n).0;
    if fine(h) && sound(g) && is_value(g, value) {
        emit_grows(g, Step::DeclareVar);
        emit_grows(g1, Step::DefVar(var, value));
        emit_grows(g2, Step::CreateBlock);
        emit_grows(g3, Step::AddParam(merge));
        assert(fine(b) && fine(g4) && fine(g3) && fine(g2) && fine(g1));
        assert(is_variable(g1, var));
        assert(sound(g2));
        assert(sound(g3));
        assert(waiting(g3, merge));
        assert(sound(g4));
        assert(waiting(b, merge));
        assert(is_variable(b, var));
        assert(frame_from(b, f, 0)) by {
            reveal(frame_from);
            reveal(fine);
        }
        frame_blocks(b, f, 0);
        assert(resting(h));
        frame_passes(b, h, f, 0);
    }
}

broadcast proof fn try_start_sound(g: Gen, outcome: usize)
    ensures
        quiet(g, (#[trigger] try_start(g, outcome)).0),
        fine(try_start(g, outcome).0) && sound(g) && is_value(g, outcome) ==> {
            &&& resting(try_start(g, outcome).0)
            &&& is_value(try_start(g, outcome).0, try_start(g, outcome).1)
            &&& waiting(try_start(g, outcome).0, try_start(g, outcome).2)
            &&& waiting(try_start(g, outcome).0, try_start(g, outcome).3)
            &&& waiting(try_start(g, outcome).0, try_start(g, outcome).4)
            &&& takes_one(try_start(g, outcome).0, try_start(g, outcome).4)
            &&& try_start(g, outcome).2 != try_start(g, outcome).3
            &&& try_start(g, outcome).2 != try_start(g, outcome).4
            &&& try_start(g, outcome).3 != try_start(g, outcome).4
            &&& try_start(g, outcome).2 >= g.steps.len()
            &&& try_start(g, outcome).3 >= g.steps.len()
            &&& try_start(g, outcome).4 >= g.steps.len()
        },
{
    broadcast use group_blocks;

    reveal(try_start);
    let (g1, kind) = loaded(g, outcome, 8);
    let (g2, value) = loaded(g1, outcome, 16);
    let g2b = Gen { atoms: interned(g2.atoms, "ok"@).0, ..g2 };
    covers_itself(g2, g2b);
    with_funcs(g2, g2b);
    let i = interned(g2.atoms, "ok"@).1;
    let (g3, ok) = emit(g2b, Step::Word(atom_word(i as usize)));
    let (g4, c) = emit(g3, Step::Equal(kind, ok));
    let (g5, good) = emit(g4, Step::CreateBlock);
    let (g6, bad) = emit(g5, Step::CreateBlock);
    let (g7, merge) = emit(g6, Step::CreateBlock);
    let g8 = emit(g7, Step::AddParam(merge)).0;
    let h = emit(g8, Step::Brif(c, good, bad)).0;
    if fine(h) && sound(g) && is_value(g, outcome) {
        emit_grows(g4, Step::CreateBlock);
        emit_grows(g5, Step::CreateBlock);
        emit_grows(g6, Step::CreateBlock);
        assert(fine(g8) && fine(g7) && fine(g6) && fine(g5) && fine(g4));
        assert(g4.steps.len() >= g.steps.len()) by {
            assert(grows(g, g4));
            reveal(grows);
        }
        assert(sound(g4));
        assert(sound(g5));
        assert(waiting(g5, good));
        assert(sound(g6));
        assert(waiting(g6, bad));
        assert(sound(g7));
        assert(waiting(g7, merge));
        assert(sound(g8));
        assert(waiting(g8, good));
        assert(waiting(g8, bad));
        assert(waiting(g8, merge));
    }
}

proof fn error_vars_sound(g: Gen, vars: Vars, names: Seq<Seq<char>>, nil: usize, value: usize)
    ensures
        quiet(g, error_vars(g, vars, names, nil, value).0),
        fine(error_vars(g, vars, names, nil, value).0) && sound(g) && are_vars(g, vars) && is_value(
            g,
            nil,
        ) && is_value(g, value) ==> sound(error_vars(g, vars, names, nil, value).0) && are_vars(
            error_vars(g, vars, names, nil, value).0,
            error_vars(g, vars, names, nil, value).1,
        ),
    decreases names.len(),
{
    broadcast use group_steps, bound_var_sound;

    if names.len() > 0 {
        error_vars_sound(g, vars, names.drop_last(), nil, value);
    }
}

broadcast group group_parts {
    group_blocks,
    frame_passes,
    variable_sound,
    lit_sound,
    bif_sound,
    direct_call_sound,
    closure_call_sound,
    tuple_sound,
    closure_sound,
    fun_ref_sound,
    clause_scope_sound,
    clause_test_sound,
    case_failure_sound,
    case_start_sound,
    try_start_sound,
    string_in_sound,
    bytes_string_sound,
}
proof fn values_pushed(g: Gen, xs: Seq<usize>, x: usize)
    requires
        are_values(g, xs),
        is_value(g, x),
    ensures
        are_values(g, xs.push(x)),
{
    reveal(are_values);
    assert forall|i: int| 0 <= i < xs.push(x).len() implies is_value(g, #[trigger] xs.push(x)[i]) by {
        if i < xs.len() {
            assert(xs.push(x)[i] == xs[i]);
        }
    }
}

proof fn waiting_inside(g: Gen, x: usize)
    requires
        waiting(g, x),
    ensures
        x < g.steps.len(),
{
    reveal(waiting);
}

proof fn passes_below_on(k: nat, g: Gen, h: Gen, x: usize)
    requires
        passes_below(k, g, h),
        waiting(g, x),
        x < k,
    ensures
        waiting(h, x),
{
    reveal(passes_below);
}

/// A helper of a library is none of those that return nothing.
proof fn library_loud(module: Seq<char>, rest: Seq<char>)
    requires
        module == "lists"@ || module == "string"@ || module == "maps"@,
    ensures
        !silent("lux_"@ + module + rest),
{
    reveal_strlit("lists");
    reveal_strlit("string");
    reveal_strlit("maps");
    reveal_strlit("lux_");
    reveal_strlit("lux_rt_match_error");
    reveal_strlit("lux_rt_case_clause_error");
    reveal_strlit("lux_rt_erlang_error");
    reveal_strlit("lux_rt_erlang_throw");
    reveal_strlit("lux_rt_try_end");
    let name = "lux_"@ + module + rest;
    assert(name[4] == module[0]);
}

proof fn library_func_inside(g: Gen, module: Seq<char>, func: Seq<char>, n: nat)
    requires
        fine(g),
        helpers(g.funcs),
    ensures
        library_func(g, module, func, n) matches Some(f) ==> is_answering(g, f),
{
    reveal(library_func);
    let name = "lux_"@ + module + "_"@ + func + decimal(n);
    func_at_inside(g.funcs, name);
    assert(g.funcs.len() <= usize::MAX) by {
        reveal(fine);
    }
    if module == "lists"@ || module == "string"@ || module == "maps"@ {
        library_loud(module, "_"@ + func + decimal(n));
        assert(name =~= "lux_"@ + module + ("_"@ + func + decimal(n)));
        match func_at(g.funcs, name) {
            Some(f) => {
                helper_results(g.funcs, f as int);
            },
            None => {},
        }
    }
}

proof fn native_sound(e: Core, g: Gen, vars: Vars, home: Seq<char>)
    ensures
        grows(g, native(e, g, vars, home).0),
        fine(native(e, g, vars, home).0) && sound(g) && are_vars(g, vars)
            ==> sound(native(e, g, vars, home).0)
            && are_vars(native(e, g, vars, home).0, native(e, g, vars, home).1)
            && is_value(native(e, g, vars, home).0, native(e, g, vars, home).2)
            && passes(g, native(e, g, vars, home).0) && indexes(g, native(e, g, vars, home).0),
    decreases e, 2nat,
{
    broadcast use group_parts;

    names_loud();
    match e {
        Core::Lit(_) => {},
        Core::Var(_) => {},
        Core::Let(bindings, body) => {
            bindings_sound(bindings, g, vars, home);
            let (g1, vars1) = native_bindings(bindings, g, vars, home);
            native_sound(*body, g1, vars1, home);
        },
        Core::Sequence(a, b) => {
            native_sound(*a, g, vars, home);
            let (g1, vars1, _) = native(*a, g, vars, home);
            native_sound(*b, g1, vars1, home);
        },
        Core::Call(_, _, _) => {
            called_sound(e, g, vars, home);
        },
        Core::Apply(_, _) => {
            applied_sound(e, g, vars, home);
        },
        Core::Case(_, _) => {
            case_sound(e, g, vars, home);
        },
        Core::Tuple(items) => {
            all_sound(items, g, vars, home);
        },
        Core::List(items, tail) => {
            native_sound(*tail, g, vars, home);
            let (g1, vars1, end) = native(*tail, g, vars, home);
            onto_sound(items, g1, vars1, home, end);
        },
        Core::Cons(h, t) => {
            native_sound(*h, g, vars, home);
            let (g1, vars1, _) = native(*h, g, vars, home);
            native_sound(*t, g1, vars1, home);
        },
        Core::LocalFunRef(_, _) => {},
        Core::RemoteFunRef(_, _, _) => {},
        Core::Fun(_, _) => {},
        Core::MapLit(_) => {
            map_sound(e, g, vars, home);
        },
        Core::Binary(_) => {
            binary_sound(e, g, vars, home);
        },
        Core::Primop(op, args) => {
            if op == "match_fail"@ || op == "case_clause"@ {
                failed_sound(e, g, vars, home);
            } else if args.len() >= 2 {
                native_sound(args[1], g, vars, home);
            }
        },
        Core::Try(_, _, _, _, _) => {
            try_sound(e, g, vars, home);
        },
        Core::Receive(_, _) => {},
    }
}

proof fn called_sound(e: Core, g: Gen, vars: Vars, home: Seq<char>)
    requires
        e is Call,
    ensures
        grows(g, native(e, g, vars, home).0),
        fine(native(e, g, vars, home).0) && sound(g) && are_vars(g, vars)
            ==> sound(native(e, g, vars, home).0)
            && are_vars(native(e, g, vars, home).0, native(e, g, vars, home).1)
            && is_value(native(e, g, vars, home).0, native(e, g, vars, home).2)
            && passes(g, native(e, g, vars, home).0) && indexes(g, native(e, g, vars, home).0),
    decreases e, 1nat,
{
    broadcast use group_parts;

    let (module, func, args) = (e->Call_0, e->Call_1, e->Call_2);
    names_loud();
    all_sound(args, g, vars, home);
    let (g1, vars1, vals) = native_all(args, g, vars, home);
    if fine(g) && sound(g) {
        library_func_inside(g, module, func, args.len());
    }
}

proof fn applied_sound(e: Core, g: Gen, vars: Vars, home: Seq<char>)
    requires
        e is Apply,
    ensures
        grows(g, native(e, g, vars, home).0),
        fine(native(e, g, vars, home).0) && sound(g) && are_vars(g, vars)
            ==> sound(native(e, g, vars, home).0)
            && are_vars(native(e, g, vars, home).0, native(e, g, vars, home).1)
            && is_value(native(e, g, vars, home).0, native(e, g, vars, home).2)
            && passes(g, native(e, g, vars, home).0) && indexes(g, native(e, g, vars, home).0),
    decreases e, 1nat,
{
    broadcast use group_parts;

    let (f, args) = (*e->Apply_0, e->Apply_1);
    match f {
        Core::LocalFunRef(_, _) => {
            all_sound(args, g, vars, home);
        },
        Core::RemoteFunRef(_, _, _) => {
            all_sound(args, g, vars, home);
        },
        _ => {
            native_sound(f, g, vars, home);
            let (g1, vars1, _) = native(f, g, vars, home);
            all_sound(args, g1, vars1, home);
        },
    }
}

proof fn case_sound(e: Core, g: Gen, vars: Vars, home: Seq<char>)
    requires
        e is Case,
    ensures
        grows(g, native(e, g, vars, home).0),
        fine(native(e, g, vars, home).0) && sound(g) && are_vars(g, vars)
            ==> sound(native(e, g, vars, home).0)
            && are_vars(native(e, g, vars, home).0, native(e, g, vars, home).1)
            && is_value(native(e, g, vars, home).0, native(e, g, vars, home).2)
            && passes(g, native(e, g, vars, home).0) && indexes(g, native(e, g, vars, home).0),
    decreases e, 1nat,
{
    broadcast use group_parts;

    let (scrutinee, clauses) = (*e->Case_0, e->Case_1);
    native_sound(scrutinee, g, vars, home);
    let (g1, vars1, value) = native(scrutinee, g, vars, home);
    let (g2, f) = case_start(g1, value, clauses.len());
    clauses_sound(clauses, g2, vars1, home, f);
    let g3 = native_clauses(clauses, g2, vars1, home, f);
    let g3b = case_failure(g3, f);
    let h = merged(g3b, f.merge).0;
    if fine(h) && sound(g) && are_vars(g, vars) {
        assert(fine(g1) && fine(g2) && fine(g3) && fine(g3b));
        assert(resting(g2) && frame_from(g2, f, 0));
        assert(resting(g3) && frame_from(g3, f, f.count as int));
        frame_blocks(g3, f, f.count as int);
        assert(resting(g3b) && waiting(g3b, f.merge));
        assert(passes(g, h)) by {
            reveal(passes);
            assert forall|x: usize| #[trigger] waiting(g, x) implies waiting(h, x) by {
                assert(waiting(g1, x));
                waiting_inside(g1, x);
                assert(waiting(g2, x));
                passes_below_on(f.merge as nat, g2, g3, x);
                assert(waiting(g3b, x));
            }
        }
    }
}

proof fn map_sound(e: Core, g: Gen, vars: Vars, home: Seq<char>)
    requires
        e is MapLit,
    ensures
        grows(g, native(e, g, vars, home).0),
        fine(native(e, g, vars, home).0) && sound(g) && are_vars(g, vars)
            ==> sound(native(e, g, vars, home).0)
            && are_vars(native(e, g, vars, home).0, native(e, g, vars, home).1)
            && is_value(native(e, g, vars, home).0, native(e, g, vars, home).2)
            && passes(g, native(e, g, vars, home).0) && indexes(g, native(e, g, vars, home).0),
    decreases e, 1nat,
{
    broadcast use group_parts;

    names_loud();
    let entries = e->MapLit_0;
    let n = entries.len();
    if n > 0 {
        let (g1, keys) = emit(g, Step::Slot((n * 8) as u32, 8));
        let (g2, values) = emit(g1, Step::Slot((n * 8) as u32, 8));
        entries_sound(entries, g2, vars, home, keys, values);
    }
}

proof fn binary_sound(e: Core, g: Gen, vars: Vars, home: Seq<char>)
    requires
        e is Binary,
    ensures
        grows(g, native(e, g, vars, home).0),
        fine(native(e, g, vars, home).0) && sound(g) && are_vars(g, vars)
            ==> sound(native(e, g, vars, home).0)
            && are_vars(native(e, g, vars, home).0, native(e, g, vars, home).1)
            && is_value(native(e, g, vars, home).0, native(e, g, vars, home).2)
            && passes(g, native(e, g, vars, home).0) && indexes(g, native(e, g, vars, home).0),
    decreases e, 1nat,
{
    broadcast use group_parts;

    names_loud();
    let segments = e->Binary_0;
    if all_whole(segments) && segments.len() >= 2 {
        concat_sound(segments, g, vars, home);
    } else {
        let n = built_segments(segments.len());
        let (g1, slot) = emit(g, Step::Slot((n + 1) as u32, 0));
        segments_sound(segments, n, g1, vars, home, slot);
    }
}

#[verifier::rlimit(40)]
#[verifier::spinoff_prover]
proof fn try_sound(e: Core, g: Gen, vars: Vars, home: Seq<char>)
    requires
        e is Try,
    ensures
        grows(g, native(e, g, vars, home).0),
        fine(native(e, g, vars, home).0) && sound(g) && are_vars(g, vars)
            ==> sound(native(e, g, vars, home).0)
            && are_vars(native(e, g, vars, home).0, native(e, g, vars, home).1)
            && is_value(native(e, g, vars, home).0, native(e, g, vars, home).2)
            && passes(g, native(e, g, vars, home).0) && indexes(g, native(e, g, vars, home).0),
    decreases e, 1nat,
{
    broadcast use group_parts;

    names_loud();
    let (body, names, handler, errors, catch) = (*e->Try_0, e->Try_1, *e->Try_2, e->Try_3, *e->Try_4);
    let (g1, c) = closure(g, Seq::empty(), body, vars, home);
    let (g2, outcome) = runtime_call(g1, "lux_rt_try_call"@, seq![c]);
    let (g3, value, good, bad, merge) = try_start(g2, outcome);
    let g3b = opened(g3, good);
    let (g4, vars1) = if names.len() == 0 {
        (g3b, vars)
    } else {
        bound_var(g3b, vars, names[0], value)
    };
    native_sound(handler, g4, vars1, home);
    let (g5, vars2, x) = native(handler, g4, vars1, home);
    let g6 = emit(g5, Step::JumpWith(merge, x)).0;
    let g6b = opened(g6, bad);
    let (g7, nil) = emit(g6b, Step::Word(nil_word()));
    error_vars_sound(g7, vars2, errors, nil, value);
    let (g8, vars3) = error_vars(g7, vars2, errors, nil, value);
    native_sound(catch, g8, vars3, home);
    let (g9, vars4, y) = native(catch, g8, vars3, home);
    let g9b = emit(g9, Step::JumpWith(merge, y)).0;
    let h = merged(g9b, merge).0;
    if fine(h) && sound(g) && are_vars(g, vars) {
        assert(fine(g9b) && fine(g9) && fine(g8) && fine(g7) && fine(g6b) && fine(g6) && fine(g5));
        assert(fine(g4) && fine(g3b) && fine(g3) && fine(g2) && fine(g1));
        assert(sound(g2) && is_value(g2, outcome));
        assert(resting(g3));
        assert(sound(g3b) && waiting(g3b, bad) && waiting(g3b, merge));
        assert(sound(g4) && waiting(g4, bad) && waiting(g4, merge));
        assert(sound(g5) && waiting(g5, bad) && waiting(g5, merge));
        assert(resting(g6) && waiting(g6, bad) && waiting(g6, merge));
        assert(sound(g6b) && waiting(g6b, merge));
        assert(sound(g8) && waiting(g8, merge));
        assert(sound(g9) && waiting(g9, merge));
        assert(resting(g9b) && waiting(g9b, merge));
        assert(passes(g, h)) by {
            reveal(passes);
            assert forall|z: usize| #[trigger] waiting(g, z) implies waiting(h, z) by {
                assert(waiting(g2, z));
                waiting_inside(g2, z);
                assert(waiting(g3, z));
                assert(waiting(g3b, z));
                assert(waiting(g4, z));
                assert(waiting(g5, z));
                assert(waiting(g6, z));
                assert(waiting(g6b, z));
                assert(waiting(g8, z));
                assert(waiting(g9, z));
                assert(waiting(g9b, z));
            }
        }
    }
}

proof fn all_sound(s: Seq<Core>, g: Gen, vars: Vars, home: Seq<char>)
    ensures
        grows(g, native_all(s, g, vars, home).0),
        fine(native_all(s, g, vars, home).0) && sound(g) && are_vars(g, vars)
            ==> sound(native_all(s, g, vars, home).0)
            && are_vars(native_all(s, g, vars, home).0, native_all(s, g, vars, home).1)
            && are_values(native_all(s, g, vars, home).0, native_all(s, g, vars, home).2)
            && passes(g, native_all(s, g, vars, home).0)
            && indexes(g, native_all(s, g, vars, home).0),
    decreases s, 0nat,
{
    broadcast use group_parts;

    if s.len() > 0 {
        all_sound(s.drop_last(), g, vars, home);
        let (g1, vars1, vals) = native_all(s.drop_last(), g, vars, home);
        native_sound(s.last(), g1, vars1, home);
        let (g2, vars2, v) = native(s.last(), g1, vars1, home);
        if are_values(g2, vals) && is_value(g2, v) {
            values_pushed(g2, vals, v);
        }
    }
}

proof fn onto_sound(s: Seq<Core>, g: Gen, vars: Vars, home: Seq<char>, end: usize)
    ensures
        grows(g, native_onto(s, g, vars, home, end).0),
        fine(native_onto(s, g, vars, home, end).0) && sound(g) && are_vars(g, vars)
            && is_value(g, end)
            ==> sound(native_onto(s, g, vars, home, end).0)
            && are_vars(native_onto(s, g, vars, home, end).0, native_onto(s, g, vars, home, end).1)
            && is_value(native_onto(s, g, vars, home, end).0, native_onto(s, g, vars, home, end).2)
            && passes(g, native_onto(s, g, vars, home, end).0)
            && indexes(g, native_onto(s, g, vars, home, end).0),
    decreases s, 0nat,
{
    broadcast use group_parts;

    names_loud();
    if s.len() > 0 {
        native_sound(s.last(), g, vars, home);
        let (g1, vars1, x) = native(s.last(), g, vars, home);
        let (g2, v) = runtime_call(g1, "lux_rt_make_cons"@, seq![x, end]);
        onto_sound(s.drop_last(), g2, vars1, home, v);
    }
}

proof fn bindings_sound(s: Seq<(Seq<char>, Core)>, g: Gen, vars: Vars, home: Seq<char>)
    ensures
        grows(g, native_bindings(s, g, vars, home).0),
        fine(native_bindings(s, g, vars, home).0) && sound(g) && are_vars(g, vars)
            ==> sound(native_bindings(s, g, vars, home).0)
            && are_vars(native_bindings(s, g, vars, home).0, native_bindings(s, g, vars, home).1)
            && passes(g, native_bindings(s, g, vars, home).0)
            && indexes(g, native_bindings(s, g, vars, home).0),
    decreases s, 0nat,
{
    broadcast use group_parts;

    if s.len() > 0 {
        bindings_sound(s.drop_last(), g, vars, home);
        let (g1, vars1) = native_bindings(s.drop_last(), g, vars, home);
        native_sound(s.last().1, g1, vars1, home);
    }
}

proof fn entries_sound(s: Seq<(Core, Core)>, g: Gen, vars: Vars, home: Seq<char>, keys: usize, values: usize)
    ensures
        grows(g, native_entries(s, g, vars, home, keys, values).0),
        fine(native_entries(s, g, vars, home, keys, values).0) && sound(g) && are_vars(g, vars)
            && is_slot(g, keys) && is_slot(g, values)
            ==> sound(native_entries(s, g, vars, home, keys, values).0)
            && are_vars(native_entries(s, g, vars, home, keys, values).0,
            native_entries(s, g, vars, home, keys, values).1)
            && passes(g, native_entries(s, g, vars, home, keys, values).0)
            && indexes(g, native_entries(s, g, vars, home, keys, values).0),
    decreases s, 0nat,
{
    broadcast use group_parts;

    if s.len() > 0 {
        entries_sound(s.drop_last(), g, vars, home, keys, values);
        let (g1, vars1) = native_entries(s.drop_last(), g, vars, home, keys, values);
        native_sound(s.last().0, g1, vars1, home);
        let (g2, vars2, k) = native(s.last().0, g1, vars1, home);
        native_sound(s.last().1, g2, vars2, home);
    }
}

proof fn concat_sound(s: Seq<Segment>, g: Gen, vars: Vars, home: Seq<char>)
    ensures
        grows(g, native_concat(s, g, vars, home).0),
        fine(native_concat(s, g, vars, home).0) && sound(g) && are_vars(g, vars) && s.len() > 0
            ==> sound(native_concat(s, g, vars, home).0)
            && are_vars(native_concat(s, g, vars, home).0, native_concat(s, g, vars, home).1)
            && is_value(native_concat(s, g, vars, home).0, native_concat(s, g, vars, home).2)
            && passes(g, native_concat(s, g, vars, home).0)
            && indexes(g, native_concat(s, g, vars, home).0),
    decreases s, 0nat,
{
    broadcast use group_parts;

    names_loud();
    if s.len() == 1 {
        native_sound(s.last().value, g, vars, home);
    } else if s.len() > 1 {
        concat_sound(s.drop_last(), g, vars, home);
        let (g1, vars1, x) = native_concat(s.drop_last(), g, vars, home);
        native_sound(s.last().value, g1, vars1, home);
    }
}

proof fn segments_sound(s: Seq<Segment>, n: nat, g: Gen, vars: Vars, home: Seq<char>, slot: usize)
    ensures
        grows(g, native_segments(s, n, g, vars, home, slot).0),
        fine(native_segments(s, n, g, vars, home, slot).0) && sound(g) && are_vars(g, vars)
            && is_slot(g, slot)
            ==> sound(native_segments(s, n, g, vars, home, slot).0)
            && are_vars(native_segments(s, n, g, vars, home, slot).0,
            native_segments(s, n, g, vars, home, slot).1)
            && passes(g, native_segments(s, n, g, vars, home, slot).0)
            && indexes(g, native_segments(s, n, g, vars, home, slot).0),
    decreases s, 0nat,
{
    broadcast use group_parts;

    if s.len() > 0 {
        segments_sound(s.drop_last(), n, g, vars, home, slot);
        let (g1, vars1) = native_segments(s.drop_last(), n, g, vars, home, slot);
        native_sound(s.last().value, g1, vars1, home);
    }
}

proof fn failed_sound(e: Core, g: Gen, vars: Vars, home: Seq<char>)
    requires
        e is Primop,
        e->Primop_0 == "match_fail"@ || e->Primop_0 == "case_clause"@,
    ensures
        grows(g, native(e, g, vars, home).0),
        fine(native(e, g, vars, home).0) && sound(g) && are_vars(g, vars)
            ==> sound(native(e, g, vars, home).0)
            && are_vars(native(e, g, vars, home).0, native(e, g, vars, home).1)
            && is_value(native(e, g, vars, home).0, native(e, g, vars, home).2)
            && passes(g, native(e, g, vars, home).0) && indexes(g, native(e, g, vars, home).0),
    decreases e, 1nat,
{
    broadcast use group_parts;

    let g0 = runtime_raise(g, "lux_rt_match_error"@, Seq::empty());
    let g1 = emit(g0, Step::Trap).0;
    let (g2, block) = emit(g1, Step::CreateBlock);
    let g2b = opened(g2, block);
    let (g3, v) = emit(g2b, Step::Word(nil_word()));
    if fine(g3) && sound(g) {
        assert(fine(g2b) && fine(g2) && fine(g1) && fine(g0));
        assert(sound(g0));
        assert(resting(g1));
        assert(resting(g2) && waiting(g2, block));
        assert(sound(g2b));
        emit_grows(g1, Step::CreateBlock);
        assert(passes(g, g3)) by {
            reveal(passes);
            assert forall|x: usize| #[trigger] waiting(g, x) implies waiting(g3, x) by {
                assert(waiting(g1, x));
                waiting_inside(g1, x);
                assert(waiting(g2, x));
                assert(waiting(g2b, x));
            }
        }
    }
}

#[verifier::rlimit(60)]
proof fn clause_sound(c: Clause, i: int, g: Gen, vars: Vars, home: Seq<char>, f: Frame)
    ensures
        grows(g, native_clause(c, i, g, vars, home, f)),
        fine(native_clause(c, i, g, vars, home, f)) && resting(g) && are_vars(g, vars)
            && frame_from(g, f, i) && 0 <= i < f.count ==> {
            &&& resting(native_clause(c, i, g, vars, home, f))
            &&& frame_from(native_clause(c, i, g, vars, home, f), f, i + 1)
            &&& passes_below(f.merge as nat, g, native_clause(c, i, g, vars, home, f))
            &&& indexes(g, native_clause(c, i, g, vars, home, f))
        },
    decreases c, 0nat,
{
    broadcast use group_parts;

    let g1 = clause_test(g, f, i, c.patterns);
    let (g2, vars1) = clause_scope(g1, guard_block(f, i), f.var, c.patterns, vars);
    native_sound(c.guard, g2, vars1, home);
    let (a, _, v) = native(c.guard, g2, vars1, home);
    let (b, t) = emit(a, Step::EqualImm(v, true_word()));
    let g3 = if always(c.guard) {
        emit(g2, Step::Jump(body_block(f, i))).0
    } else {
        emit(b, Step::Brif(t, body_block(f, i), test_block(f, i + 1))).0
    };
    let (g4, vars2) = clause_scope(g3, body_block(f, i), f.var, c.patterns, vars);
    native_sound(c.body, g4, vars2, home);
    let (g5, _, r) = native(c.body, g4, vars2, home);
    let h = emit(g5, Step::JumpWith(f.merge, r)).0;
    assert(h == native_clause(c, i, g, vars, home, f));
    if fine(h) && resting(g) && are_vars(g, vars) && frame_from(g, f, i) && 0 <= i < f.count {
        frame_blocks(g, f, i);
        assert(fine(g5) && fine(g4) && fine(g3) && fine(g2) && fine(g1));
        assert(resting(g1));
        assert(waiting(g1, guard_block(f, i)) && waiting(g1, body_block(f, i)) && waiting(
            g1,
            test_block(f, i + 1),
        ) && waiting(g1, f.merge));
        assert(sound(g2));
        assert(waiting(g2, body_block(f, i)) && waiting(g2, test_block(f, i + 1)) && waiting(
            g2,
            f.merge,
        ));
        if !always(c.guard) {
            assert(fine(b) && fine(a));
            assert(sound(a));
            assert(sound(b));
            assert(waiting(b, body_block(f, i)) && waiting(b, test_block(f, i + 1)) && waiting(
                b,
                f.merge,
            ));
        }
        assert(resting(g3));
        assert(waiting(g3, body_block(f, i)) && waiting(g3, f.merge));
        assert(is_variable(g3, f.var));
        assert(sound(g4) && waiting(g4, f.merge));
        assert(sound(g5) && waiting(g5, f.merge));
        assert(resting(h) && waiting(h, f.merge));
        assert forall|x: usize| #[trigger] waiting(g, x) && x != test_block(f, i) && x
            != guard_block(f, i) && x != body_block(f, i) implies waiting(h, x) by {
            assert(waiting(g1, x));
            assert(waiting(g2, x));
            if !always(c.guard) {
                assert(waiting(a, x));
                assert(waiting(b, x));
            }
            assert(waiting(g3, x));
            assert(waiting(g4, x));
            assert(waiting(g5, x));
        }
        assert(passes_below(f.merge as nat, g, h)) by {
            reveal(passes_below);
        }
        assert(frame_from(h, f, i + 1)) by {
            assert(is_variable(h, f.var));
            assert(takes_one(h, f.merge));
            reveal(frame_from);
            assert forall|j: int| 3 * (i + 1) <= j < 3 * f.count + 1 implies waiting(
                h,
                #[trigger] nth_block(f.first, j),
            ) by {
                assert(waiting(g, nth_block(f.first, j)));
            }
        }
        assert(indexes(g1, g2));
        assert(indexes(g2, g3));
        assert(indexes(g3, g4));
    }
}

proof fn clauses_sound(s: Seq<Clause>, g: Gen, vars: Vars, home: Seq<char>, f: Frame)
    ensures
        grows(g, native_clauses(s, g, vars, home, f)),
        fine(native_clauses(s, g, vars, home, f)) && resting(g) && are_vars(g, vars) && frame_from(
            g,
            f,
            0,
        ) && s.len() <= f.count ==> {
            &&& resting(native_clauses(s, g, vars, home, f))
            &&& frame_from(native_clauses(s, g, vars, home, f), f, s.len() as int)
            &&& passes_below(f.merge as nat, g, native_clauses(s, g, vars, home, f))
            &&& indexes(g, native_clauses(s, g, vars, home, f))
        },
    decreases s, 0nat,
{
    broadcast use group_parts;

    if s.len() == 0 {
        assert(passes_below(f.merge as nat, g, g)) by {
            reveal(passes_below);
        }
    } else {
        clauses_sound(s.drop_last(), g, vars, home, f);
        let g1 = native_clauses(s.drop_last(), g, vars, home, f);
        clause_sound(s.last(), s.len() - 1, g1, vars, home, f);
        let h = native_clauses(s, g, vars, home, f);
        if fine(h) && resting(g) && are_vars(g, vars) && frame_from(g, f, 0) && s.len() <= f.count {
            assert(fine(g1));
            assert(passes_below(f.merge as nat, g, h)) by {
                reveal(passes_below);
            }
        }
    }
}

/// Whether steps make up a function with `arity` parameters: every step may
/// follow those before it, the parameters that are asked for are there, and
/// every block that was started is full and sealed in the end.
pub open spec fn fits(steps: Seq<Step>, funcs: Seq<Decl>, arity: nat) -> bool {
    &&& linked(steps, funcs)
    &&& indexed(steps, arity)
    &&& !waits(steps)
    &&& complete(site_of(steps))
    &&& ends(steps)
}

/// Whether the last step leaves the function.
pub open spec fn ends(steps: Seq<Step>) -> bool {
    steps.len() > 0 && steps.last() is Return
}

proof fn indexed_after(steps: Seq<Step>, arity: nat, s: Step)
    requires
        indexed(steps, arity),
        s matches Step::Param(x, k) ==> k < params_in(steps, arity, x),
    ensures
        indexed(steps.push(s), arity),
{
    reveal(indexed);
    let all = steps.push(s);
    assert forall|i: int| 0 <= i < all.len() implies (#[trigger] all[i] matches Step::Param(x, k)
        ==> k < params_in(all.take(i), arity, x)) by {
        if i < steps.len() {
            assert(all[i] == steps[i]);
            assert(all.take(i) =~= steps.take(i));
        } else {
            assert(all.take(i) =~= steps);
        }
    }
}

proof fn entered_sound(g: Gen, arity: nat)
    ensures
        grows(Gen { steps: Seq::empty(), deferred: Seq::empty(), ..g }, entered(g).0),
        fine(entered(g).0) && helpers(g.funcs) ==> {
            &&& sound(entered(g).0)
            &&& is_block(entered(g).0, entered(g).1)
            &&& params_in(entered(g).0.steps, arity, entered(g).1) >= arity
            &&& indexed(entered(g).0.steps, arity)
        },
{
    broadcast use group_steps;

    let g0 = Gen { steps: Seq::empty(), deferred: Seq::empty(), ..g };
    let (g1, block) = emit(g0, Step::CreateBlock);
    let g2 = emit(g1, Step::FunctionParams(block)).0;
    let g3 = emit(g2, Step::SwitchTo(block)).0;
    let h = emit(g3, Step::Seal(block)).0;
    reveal(opened);
    emit_grows(g0, Step::CreateBlock);
    emit_grows(g1, Step::FunctionParams(block));
    emit_grows(g2, Step::SwitchTo(block));
    emit_grows(g3, Step::Seal(block));
    if fine(h) && helpers(g.funcs) {
        assert(fine(g1));
        assert(is_block(g1, block) && is_block(g2, block) && is_block(g3, block));
        site_after(g0.steps, Step::CreateBlock);
        site_after(g1.steps, Step::FunctionParams(block));
        site_after(g2.steps, Step::SwitchTo(block));
        site_after(g3.steps, Step::Seal(block));
        assert(site_of(g0.steps) == outset()) by {
            reveal(site_of);
        }
        assert(linked(g0.steps, g0.funcs)) by {
            reveal(linked);
        }
        linked_after(g0.steps, g.funcs, Step::CreateBlock);
        linked_after(g1.steps, g.funcs, Step::FunctionParams(block));
        linked_after(g2.steps, g.funcs, Step::SwitchTo(block));
        linked_after(g3.steps, g.funcs, Step::Seal(block));
        assert(sound(h)) by {
            reveal(sound);
            reveal(queued);
            assert(h.steps.last() == Step::Seal(block));
        }
        assert(indexed(g0.steps, arity)) by {
            reveal(indexed);
        }
        indexed_after(g0.steps, arity, Step::CreateBlock);
        indexed_after(g1.steps, arity, Step::FunctionParams(block));
        indexed_after(g2.steps, arity, Step::SwitchTo(block));
        indexed_after(g3.steps, arity, Step::Seal(block));
        assert(g2.steps.drop_last() =~= g1.steps);
        reveal(grows);
        assert(grows(g2, h));
        params_stay(g2.steps, h.steps, arity, block);
    }
}

proof fn params_bound_sound(
    g: Gen,
    vars: Vars,
    names: Seq<Seq<char>>,
    block: usize,
    from: nat,
    arity: nat,
)
    ensures
        grows(g, params_bound(g, vars, names, block, from, arity).0),
        fine(params_bound(g, vars, names, block, from, arity).0) && sound(g) && are_vars(g, vars)
            && is_block(g, block) && params_in(g.steps, arity, block) >= arity && indexed(
            g.steps,
            arity,
        ) ==> {
            &&& sound(params_bound(g, vars, names, block, from, arity).0)
            &&& are_vars(
                params_bound(g, vars, names, block, from, arity).0,
                params_bound(g, vars, names, block, from, arity).1,
            )
            &&& indexed(params_bound(g, vars, names, block, from, arity).0.steps, arity)
        },
    decreases names.len(),
{
    broadcast use group_steps, stick_stops;

    if names.len() > 0 {
        params_bound_sound(g, vars, names.drop_last(), block, from, arity);
        let (g1, vars1) = params_bound(g, vars, names.drop_last(), block, from, arity);
        let i = (from + names.len() - 1) as nat;
        if i < arity {
            let (g2, var) = emit(g1, Step::DeclareVar);
            let (g3, v) = emit(g2, Step::Param(block, i as usize));
            let h = emit(g3, Step::DefVar(var, v)).0;
            if fine(h) && sound(g) && are_vars(g, vars) && is_block(g, block) && params_in(
                g.steps,
                arity,
                block,
            ) >= arity && indexed(g.steps, arity) {
                assert(fine(g1) && fine(g2) && fine(g3));
                emit_grows(g1, Step::DeclareVar);
                emit_grows(g2, Step::Param(block, i as usize));
                emit_grows(g3, Step::DefVar(var, v));
                assert(sound(g2));
                assert(is_block(g2, block));
                param_keeps(g2, block, i as usize);
                assert(sound(g3));
                assert(is_variable(g3, var));
                assert(is_value(g3, v));
                assert(sound(h));
                assert(grows(g, g2));
                assert(params_in(g2.steps, arity, block) >= arity) by {
                    reveal(grows);
                    params_stay(g.steps, g2.steps, arity, block);
                }
                indexed_after(g1.steps, arity, Step::DeclareVar);
                indexed_after(g2.steps, arity, Step::Param(block, i as usize));
                indexed_after(g3.steps, arity, Step::DefVar(var, v));
                assert(is_variable(h, var));
                assert(are_vars(h, vars1));
                assert(are_vars(h, vars1.push((names.last(), var)))) by {
                    reveal(are_vars);
                }
            }
        }
    }
}

proof fn captures_bound_sound(g: Gen, vars: Vars, names: Seq<Seq<char>>, p: usize)
    ensures
        quiet(g, captures_bound(g, vars, names, p).0),
        fine(captures_bound(g, vars, names, p).0) && sound(g) && are_vars(g, vars) && is_value(g, p)
            ==> sound(captures_bound(g, vars, names, p).0) && are_vars(
            captures_bound(g, vars, names, p).0,
            captures_bound(g, vars, names, p).1,
        ),
    decreases names.len(),
{
    broadcast use group_steps, bound_var_sound;

    if names.len() > 0 {
        captures_bound_sound(g, vars, names.drop_last(), p);
    }
}

proof fn no_vars(g: Gen)
    ensures
        are_vars(g, Seq::empty()),
{
    reveal(are_vars);
}

/// A body whose last value is returned fits.
proof fn returned_fits(g: Gen, v: usize, arity: nat)
    requires
        fine(emit(g, Step::Return(v)).0),
        sound(g),
        is_value(g, v),
        indexed(g.steps, arity),
    ensures
        fits(emit(g, Step::Return(v)).0.steps, emit(g, Step::Return(v)).0.funcs, arity),
        helpers(emit(g, Step::Return(v)).0.funcs),
        queued(emit(g, Step::Return(v)).0.deferred, emit(g, Step::Return(v)).0.funcs),
{
    let h = emit(g, Step::Return(v)).0;
    emit_grows(g, Step::Return(v));
    block_left(g, Step::Return(v));
    value_is_cond(g, v);
    assert(resting(h));
    reveal(resting);
    indexed_after(g.steps, arity, Step::Return(v));
    assert forall|b: usize| #[trigger] site_of(h.steps).started.contains(b) implies site_of(
        h.steps,
    ).filled.contains(b) && site_of(h.steps).sealed.contains(b) by {
    }
}

/// What translating a body leaves behind.
spec fn body_done(g: Gen, h: Gen, arity: nat) -> bool {
    &&& same_funcs(g.funcs, h.funcs)
    &&& all_due(g.cautions, g.funcs) ==> all_due(h.cautions, h.funcs)
    &&& h.funcs.len() <= usize::MAX ==> forall|k: int| #[trigger]
        exported(h.funcs, k) ==> exported(g.funcs, k) || in_line(h.deferred, k)
    &&& g.stuck ==> h.stuck
    &&& fine(h) && helpers(g.funcs) ==> {
        &&& fits(h.steps, h.funcs, arity)
        &&& helpers(h.funcs)
        &&& queued(h.deferred, h.funcs)
    }
}

proof fn indexed_by(g: Gen, h: Gen, arity: nat)
    requires
        indexes(g, h),
        indexed(g.steps, arity),
    ensures
        indexed(h.steps, arity),
{
    reveal(indexes);
}

proof fn function_body_fits(g: Gen, f: FunDef, home: Seq<char>)
    ensures
        body_done(g, function_body(g, f, home), f.arity),
{
    broadcast use group_steps;

    let g0 = Gen { steps: Seq::empty(), deferred: Seq::empty(), ..g };
    let (g1, block) = entered(g);
    entered_sound(g, f.arity);
    let (g2, vars) = params_bound(g1, Seq::empty(), f.params, block, 0, f.arity);
    params_bound_sound(g1, Seq::empty(), f.params, block, 0, f.arity);
    let (g3, vars1, v) = native(f.body, g2, vars, home);
    native_sound(f.body, g2, vars, home);
    let h = function_body(g, f, home);
    assert(grows(g0, h));
    assert(same_funcs(g.funcs, h.funcs) && covers(g0, h) && (g.stuck ==> h.stuck) && (all_due(
        g.cautions,
        g.funcs,
    ) ==> all_due(h.cautions, h.funcs))) by {
        reveal(grows);
    }
    if fine(h) && helpers(g.funcs) {
        no_vars(g1);
        assert(fine(g3) && fine(g2) && fine(g1));
        indexed_by(g2, g3, f.arity);
        returned_fits(g3, v, f.arity);
    }
}

proof fn lambda_body_fits(g: Gen, l: Lambda)
    ensures
        body_done(g, lambda_body(g, l), l.params.len() + 1),
{
    broadcast use group_steps;

    let arity = l.params.len() + 1;
    let g0 = Gen { steps: Seq::empty(), deferred: Seq::empty(), ..g };
    let (g1, block) = entered(g);
    entered_sound(g, arity);
    let (g2, env) = emit(g1, Step::Param(block, 0));
    let (a, p) = emit(g2, Step::BandImm(env, pointer_mask()));
    captures_bound_sound(a, Seq::empty(), l.captures, p);
    let (g3, vars) = if l.captures.len() == 0 {
        (g2, Seq::empty())
    } else {
        captures_bound(a, Seq::empty(), l.captures, p)
    };
    let (g4, vars1) = params_bound(g3, vars, l.params, block, 1, arity);
    params_bound_sound(g3, vars, l.params, block, 1, arity);
    let (g5, vars2, v) = native(l.body, g4, vars1, l.home);
    native_sound(l.body, g4, vars1, l.home);
    let h = lambda_body(g, l);
    assert(grows(g0, h));
    assert(same_funcs(g.funcs, h.funcs) && covers(g0, h) && (g.stuck ==> h.stuck) && (all_due(
        g.cautions,
        g.funcs,
    ) ==> all_due(h.cautions, h.funcs))) by {
        reveal(grows);
    }
    if fine(h) && helpers(g.funcs) {
        assert(fine(g5) && fine(g4) && fine(g3) && fine(g2) && fine(g1));
        emit_grows(g1, Step::Param(block, 0));
        param_keeps(g1, block, 0);
        indexed_after(g1.steps, arity, Step::Param(block, 0));
        no_vars(g2);
        no_vars(a);
        assert(is_value(g2, env));
        if l.captures.len() > 0 {
            assert(fine(a));
            assert(sound(a) && is_value(a, p));
            indexed_by(g2, a, arity);
            indexed_by(a, g3, arity);
        }
        assert(grows(g1, g3));
        assert(params_in(g3.steps, arity, block) >= arity) by {
            reveal(grows);
            params_stay(g1.steps, g3.steps, arity, block);
        }
        assert(is_block(g3, block));
        assert(indexed(g4.steps, arity));
        indexed_by(g4, g5, arity);
        returned_fits(g5, v, arity);
    }
}

/// Whether the steps of a function fit what is declared.
pub open spec fn body_fits(body: Body, funcs: Seq<Decl>) -> bool {
    body.func < funcs.len() && fits(body.steps, funcs, funcs[body.func as int].params)
}

/// Whether function `k` has a body.
pub open spec fn has_body(bodies: Seq<Body>, k: int) -> bool {
    exists|j: int| 0 <= j < bodies.len() && (#[trigger] bodies[j]).func == k
}

proof fn has_body_on(a: Seq<Body>, b: Seq<Body>, k: int)
    requires
        a.is_prefix_of(b),
        has_body(a, k),
    ensures
        has_body(b, k),
{
    let j = choose|j: int| 0 <= j < a.len() && (#[trigger] a[j]).func == k;
    assert(b[j] == a[j]);
}

proof fn in_line_either(a: Seq<Lambda>, b: Seq<Lambda>, k: int)
    ensures
        in_line(a, k) ==> in_line(a + b, k),
        in_line(b, k) ==> in_line(a + b, k),
{
    if in_line(a, k) {
        let j = choose|j: int| 0 <= j < a.len() && (#[trigger] a[j]).func == k;
        assert((a + b)[j] == a[j]);
    }
    if in_line(b, k) {
        let j = choose|j: int| 0 <= j < b.len() && (#[trigger] b[j]).func == k;
        assert((a + b)[a.len() + j] == b[j]);
    }
}

/// Whether every function that is exported has a body or is defined later.
#[verifier::opaque]
spec fn covered(b: Build) -> bool {
    b.gen.funcs.len() <= usize::MAX ==> forall|k: int| #[trigger]
        exported(b.gen.funcs, k) ==> has_body(b.bodies, k) || in_line(b.queue, k)
}

/// Whether what has been translated fits.
#[verifier::opaque]
spec fn built(b: Build) -> bool {
    &&& helpers(b.gen.funcs)
    &&& queued(b.queue, b.gen.funcs)
    &&& forall|i: int| 0 <= i < b.bodies.len() ==> body_fits(#[trigger] b.bodies[i], b.gen.funcs)
}

/// Whether nothing has stopped the translation and it fits the machine.
#[verifier::opaque]
spec fn small(b: Build) -> bool {
    &&& !b.gen.stuck
    &&& b.gen.funcs.len() <= usize::MAX
    &&& forall|i: int| 0 <= i < b.bodies.len() ==> (#[trigger] b.bodies[i]).steps.len() <= usize::MAX
}

/// Whether one state of the translation comes from another.
#[verifier::opaque]
spec fn builds(b: Build, c: Build) -> bool {
    &&& same_funcs(b.gen.funcs, c.gen.funcs)
    &&& all_due(b.gen.cautions, b.gen.funcs) ==> all_due(c.gen.cautions, c.gen.funcs)
    &&& b.gen.stuck ==> c.gen.stuck
    &&& b.bodies.is_prefix_of(c.bodies)
}

broadcast proof fn builds_on(b: Build, c: Build, d: Build)
    requires
        #[trigger] builds(b, c),
        #[trigger] builds(c, d),
    ensures
        builds(b, d),
{
    reveal(builds);
    assert forall|i: int| 0 <= i < b.bodies.len() implies b.bodies[i] == d.bodies[i] by {
        assert(b.bodies[i] == c.bodies[i]);
    }
    assert(b.bodies =~= d.bodies.take(b.bodies.len() as int));
    same_funcs_on(b.gen.funcs, c.gen.funcs, d.gen.funcs);
}

broadcast proof fn builds_itself(b: Build)
    ensures
        #[trigger] builds(b, b),
{
    reveal(builds);
}

broadcast proof fn small_before(b: Build, c: Build)
    requires
        #[trigger] builds(b, c),
        small(c),
    ensures
        small(b),
{
    reveal(builds);
    reveal(small);
    assert forall|i: int| 0 <= i < b.bodies.len() implies (#[trigger] b.bodies[i]).steps.len()
        <= usize::MAX by {
        assert(b.bodies[i] == c.bodies[i]);
    }
}

/// Translating one more body keeps what fits.
proof fn one_more(b: Build, c: Build, h: Gen, func: usize, queue: Seq<Lambda>, arity: nat)
    requires
        built(b),
        small(c),
        body_done(b.gen, h, arity),
        c.gen == cleared(h),
        c.queue == queue + h.deferred,
        c.bodies == b.bodies.push(Body { func, steps: h.steps }),
        queued(queue, b.gen.funcs),
        func < b.gen.funcs.len(),
        b.gen.funcs[func as int].params == arity,
    ensures
        built(c),
{
    reveal(built);
    assert(fine(h)) by {
        reveal(small);
        reveal(fine);
        assert(c.bodies[b.bodies.len() as int].steps == h.steps);
    }
    assert forall|i: int| 0 <= i < c.bodies.len() implies body_fits(
        #[trigger] c.bodies[i],
        c.gen.funcs,
    ) by {
        if i < b.bodies.len() {
            assert(c.bodies[i] == b.bodies[i]);
            assert(body_fits(b.bodies[i], b.gen.funcs));
            linked_on(b.bodies[i].steps, b.gen.funcs, h.funcs);
        }
    }
    queued_on(queue, b.gen.funcs, h.funcs);
    assert(queued(c.queue, c.gen.funcs)) by {
        reveal(queued);
        assert forall|i: int| 0 <= i < c.queue.len() implies (#[trigger] c.queue[i]).func
            < h.funcs.len() && h.funcs[c.queue[i].func as int].params == c.queue[i].params.len()
            + 1 by {
            if i < queue.len() {
                assert(c.queue[i] == queue[i]);
            } else {
                assert(c.queue[i] == h.deferred[i - queue.len()]);
            }
        }
    }
}

/// Whether a definition is declared with its arity.
spec fn declared_def(funcs: Seq<Decl>, def: (Seq<char>, FunDef)) -> bool {
    match func_at(funcs, symbol_of(def)) {
        Some(i) => i < funcs.len() && funcs[i as int].params == def.1.arity,
        None => false,
    }
}

proof fn def_built_grows(b: Build, def: (Seq<char>, FunDef))
    ensures
        builds(b, def_built(b, def)),
        def_built(b, def).gen.funcs.len() <= usize::MAX ==> forall|k: int| #[trigger]
            exported(def_built(b, def).gen.funcs, k) ==> exported(b.gen.funcs, k) || in_line(
                def_built(b, def).queue,
                k,
            ),
        forall|k: int| #[trigger] in_line(b.queue, k) ==> in_line(def_built(b, def).queue, k),
        has_body(def_built(b, def).bodies, own_func(b.gen.funcs, symbol_of(def)) as int),
{
    reveal(builds);
    function_body_fits(b.gen, def.1, def.0);
    let c = def_built(b, def);
    let h = function_body(b.gen, def.1, def.0);
    assert(b.bodies =~= c.bodies.take(b.bodies.len() as int));
    assert(c.bodies[b.bodies.len() as int].func == own_func(b.gen.funcs, symbol_of(def)));
    assert forall|k: int| true implies (in_line(b.queue, k) ==> #[trigger] in_line(c.queue, k)) && (
    in_line(h.deferred, k) ==> in_line(c.queue, k)) by {
        in_line_either(b.queue, h.deferred, k);
    }
    if c.gen.funcs.len() <= usize::MAX {
        assert forall|k: int| #[trigger] exported(c.gen.funcs, k) implies exported(b.gen.funcs, k)
            || in_line(c.queue, k) by {
            assert(exported(h.funcs, k));
            in_line_either(b.queue, h.deferred, k);
        }
    }
}

/// Translating definitions gives each of them a body, and leaves nothing that is
/// exported behind.
proof fn defs_built_cover(b: Build, defs: Seq<(Seq<char>, FunDef)>)
    requires
        forall|d: int|
            0 <= d < defs.len() ==> func_at(b.gen.funcs, symbol_of(#[trigger] defs[d])) is Some,
    ensures
        defs_built(b, defs).gen.funcs.len() <= usize::MAX ==> forall|k: int| #[trigger]
            exported(defs_built(b, defs).gen.funcs, k) ==> exported(b.gen.funcs, k) || in_line(
                defs_built(b, defs).queue,
                k,
            ),
        forall|d: int|
            0 <= d < defs.len() ==> has_body(
                defs_built(b, defs).bodies,
                own_func(b.gen.funcs, symbol_of(#[trigger] defs[d])) as int,
            ),
    decreases defs.len(),
{
    if defs.len() > 0 {
        let front = defs.drop_last();
        let m = defs_built(b, front);
        let c = defs_built(b, defs);
        assert forall|d: int| 0 <= d < front.len() implies func_at(
            b.gen.funcs,
            symbol_of(#[trigger] front[d]),
        ) is Some by {
            assert(front[d] == defs[d]);
        }
        defs_built_cover(b, front);
        defs_built_fit(b, front);
        def_built_grows(m, defs.last());
        reveal(builds);
        assert forall|d: int| 0 <= d < defs.len() implies has_body(
            c.bodies,
            own_func(b.gen.funcs, symbol_of(#[trigger] defs[d])) as int,
        ) by {
            if d < front.len() {
                assert(front[d] == defs[d]);
                assert(has_body(m.bodies, own_func(b.gen.funcs, symbol_of(front[d])) as int));
                has_body_on(
                    m.bodies,
                    c.bodies,
                    own_func(b.gen.funcs, symbol_of(defs[d])) as int,
                );
            } else {
                assert(func_at(b.gen.funcs, symbol_of(defs[d])) is Some);
                assert(func_at(m.gen.funcs, symbol_of(defs[d])) == func_at(
                    b.gen.funcs,
                    symbol_of(defs[d]),
                ));
            }
        }
        if c.gen.funcs.len() <= usize::MAX {
            assert forall|k: int| #[trigger] exported(c.gen.funcs, k) implies exported(
                b.gen.funcs,
                k,
            ) || in_line(c.queue, k) by {
                if exported(m.gen.funcs, k) && in_line(m.queue, k) {
                    assert(in_line(m.queue, k));
                }
            }
        }
    }
}

proof fn lambda_built_covers(b: Build)
    requires
        b.queue.len() > 0,
        covered(b),
    ensures
        covered(lambda_built(b)),
{
    let l = b.queue[0];
    let c = lambda_built(b);
    let h = lambda_body(b.gen, l);
    let rest = b.queue.drop_first();
    lambda_body_fits(b.gen, l);
    reveal(covered);
    assert(b.bodies =~= c.bodies.take(b.bodies.len() as int));
    assert(c.bodies[b.bodies.len() as int].func == l.func);
    if c.gen.funcs.len() <= usize::MAX {
        assert forall|k: int| #[trigger] exported(c.gen.funcs, k) implies has_body(c.bodies, k)
            || in_line(c.queue, k) by {
            assert(exported(h.funcs, k));
            in_line_either(rest, h.deferred, k);
            if exported(b.gen.funcs, k) {
                if has_body(b.bodies, k) {
                    has_body_on(b.bodies, c.bodies, k);
                } else {
                    let j = choose|j: int|
                        0 <= j < b.queue.len() && (#[trigger] b.queue[j]).func == k;
                    if j > 0 {
                        assert(rest[j - 1] == b.queue[j]);
                    }
                }
            }
        }
    }
}

proof fn lambdas_built_cover(b: Build, n: nat)
    requires
        forall|k: nat| k < n ==> (#[trigger] lambdas_built(b, k)).queue.len() > 0,
        covered(b),
    ensures
        covered(lambdas_built(b, n)),
    decreases n,
{
    if n > 0 {
        lambdas_built_cover(b, (n - 1) as nat);
        lambda_built_covers(lambdas_built(b, (n - 1) as nat));
    }
}

proof fn defs_built_fit(b: Build, defs: Seq<(Seq<char>, FunDef)>)
    ensures
        builds(b, defs_built(b, defs)),
        small(defs_built(b, defs)) && built(b) && (forall|k: int|
            0 <= k < defs.len() ==> declared_def(b.gen.funcs, #[trigger] defs[k])) ==> built(
            defs_built(b, defs),
        ),
    decreases defs.len(),
{
    broadcast use builds_on, builds_itself, small_before;

    if defs.len() > 0 {
        let front = defs.drop_last();
        let m = defs_built(b, front);
        let c = defs_built(b, defs);
        defs_built_fit(b, front);
        def_built_grows(m, defs.last());
        if small(c) && built(b) && (forall|k: int|
            0 <= k < defs.len() ==> declared_def(b.gen.funcs, #[trigger] defs[k])) {
            assert forall|k: int| 0 <= k < front.len() implies declared_def(
                b.gen.funcs,
                #[trigger] front[k],
            ) by {
                assert(front[k] == defs[k]);
            }
            assert(small(m));
            assert(built(m));
            let def = defs.last();
            assert(declared_def(b.gen.funcs, defs[defs.len() - 1]));
            assert(func_at(m.gen.funcs, symbol_of(def)) == func_at(b.gen.funcs, symbol_of(def))
                && same_funcs(b.gen.funcs, m.gen.funcs)) by {
                reveal(builds);
            }
            let func = own_func(m.gen.funcs, symbol_of(def));
            function_body_fits(m.gen, def.1, def.0);
            assert(queued(m.queue, m.gen.funcs)) by {
                reveal(built);
            }
            one_more(
                m,
                c,
                function_body(m.gen, def.1, def.0),
                func,
                m.queue,
                def.1.arity,
            );
        }
    }
}

proof fn lambda_built_fits(b: Build)
    requires
        b.queue.len() > 0,
    ensures
        builds(b, lambda_built(b)),
        small(lambda_built(b)) && built(b) ==> built(lambda_built(b)),
{
    let l = b.queue[0];
    let c = lambda_built(b);
    lambda_body_fits(b.gen, l);
    assert(builds(b, c)) by {
        reveal(builds);
        assert(b.bodies =~= c.bodies.take(b.bodies.len() as int));
    }
    if small(c) && built(b) {
        let rest = b.queue.drop_first();
        assert(queued(rest, b.gen.funcs) && l.func < b.gen.funcs.len()
            && b.gen.funcs[l.func as int].params == l.params.len() + 1) by {
            reveal(built);
            reveal(queued);
            assert forall|i: int| 0 <= i < rest.len() implies (#[trigger] rest[i]).func
                < b.gen.funcs.len() && b.gen.funcs[rest[i].func as int].params
                == rest[i].params.len() + 1 by {
                assert(rest[i] == b.queue[i + 1]);
            }
        }
        one_more(b, c, lambda_body(b.gen, l), l.func, rest, l.params.len() + 1);
    }
}

proof fn lambdas_built_fit(b: Build, n: nat)
    requires
        forall|k: nat| k < n ==> (#[trigger] lambdas_built(b, k)).queue.len() > 0,
    ensures
        builds(b, lambdas_built(b, n)),
        small(lambdas_built(b, n)) && built(b) ==> built(lambdas_built(b, n)),
    decreases n,
{
    broadcast use builds_on, builds_itself, small_before;

    if n > 0 {
        let m = lambdas_built(b, (n - 1) as nat);
        lambdas_built_fit(b, (n - 1) as nat);
        lambda_built_fits(m);
    }
}

proof fn same_funcs_on(a: Seq<Decl>, b: Seq<Decl>, c: Seq<Decl>)
    requires
        same_funcs(a, b),
        same_funcs(b, c),
    ensures
        same_funcs(a, c),
{
    assert forall|i: int| 0 <= i < a.len() implies (#[trigger] c[i]).results == a[i].results
        && c[i].params == a[i].params by {
        assert(b[i].results == a[i].results);
    }
    assert forall|s: Seq<char>| func_at(a, s) is Some implies #[trigger] func_at(c, s) == func_at(
        a,
        s,
    ) by {
        assert(func_at(b, s) == func_at(a, s));
    }
}

/// Whether function `k` is one of the definitions.
spec fn is_def(funcs: Seq<Decl>, defs: Seq<(Seq<char>, FunDef)>, k: int) -> bool {
    exists|d: int|
        0 <= d < defs.len() && func_at(funcs, symbol_of(#[trigger] defs[d])) == Some(k as usize)
}

proof fn own_declared_fit(defs: Seq<(Seq<char>, FunDef)>, g: Gen)
    ensures
        own_declared(defs, g) matches Ok(h) ==> {
            &&& same_funcs(g.funcs, h.funcs)
            &&& g.cautions == h.cautions
            &&& g.stuck == h.stuck
            &&& g.steps == h.steps
            &&& helpers(g.funcs) && h.funcs.len() <= usize::MAX ==> {
                &&& helpers(h.funcs)
                &&& forall|k: int| 0 <= k < defs.len() ==> declared_def(h.funcs, #[trigger] defs[k])
            }
            &&& h.funcs.len() <= usize::MAX ==> forall|k: int| #[trigger]
                exported(h.funcs, k) ==> exported(g.funcs, k) || is_def(h.funcs, defs, k)
        },
    decreases defs.len(),
{
    if defs.len() > 0 {
        let front = defs.drop_last();
        own_declared_fit(front, g);
        match own_declared(front, g) {
            Ok(g1) => {
                let f = defs.last().1;
                let symbol = symbol_of(defs.last());
                declared_inside(g1.funcs, symbol, f.arity, 1, true, true, false);
                match declared(g1.funcs, symbol, f.arity, 1, true, true, false) {
                    Some((funcs, i)) => {
                        same_funcs_on(g.funcs, g1.funcs, funcs);
                        if funcs.len() <= usize::MAX {
                            assert forall|k: int| #[trigger] exported(funcs, k) implies exported(
                                g.funcs,
                                k,
                            ) || is_def(funcs, defs, k) by {
                                if exported(g1.funcs, k) {
                                    if !exported(g.funcs, k) {
                                        let d = choose|d: int|
                                            0 <= d < front.len() && func_at(
                                                g1.funcs,
                                                symbol_of(#[trigger] front[d]),
                                            ) == Some(k as usize);
                                        assert(defs[d] == front[d]);
                                    }
                                } else {
                                    assert(defs[defs.len() - 1] == defs.last());
                                }
                            }
                        }
                        if helpers(g.funcs) && funcs.len() <= usize::MAX {
                            assert forall|k: int| 0 <= k < defs.len() implies declared_def(
                                funcs,
                                #[trigger] defs[k],
                            ) by {
                                if k < front.len() {
                                    assert(declared_def(g1.funcs, front[k]));
                                    assert(func_at(funcs, symbol_of(defs[k])) == func_at(
                                        g1.funcs,
                                        symbol_of(defs[k]),
                                    ));
                                }
                            }
                        }
                    },
                    None => {},
                }
            },
            Err(_) => {},
        }
    }
}

/// Declaring helpers keeps what they return.
#[verifier::inline]
spec fn helped(g: Gen, h: Gen) -> bool {
    grows(g, h) && (fine(h) && helpers(g.funcs) ==> helpers(h.funcs))
}

proof fn values_helped(g: Gen)
    ensures
        helped(g, values_declared(g)),
{
    broadcast use group_steps, runtime_func_sound;

    reveal(values_declared);
    names_loud();
}

proof fn lists_helped(g: Gen)
    ensures
        helped(g, lists_declared(g)),
{
    broadcast use group_steps, runtime_func_sound;

    reveal(lists_declared);
    names_loud();
}

proof fn maps_helped(g: Gen)
    ensures
        helped(g, maps_declared(g)),
{
    broadcast use group_steps, runtime_func_sound;

    reveal(maps_declared);
    names_loud();
}

proof fn texts_helped(g: Gen)
    ensures
        helped(g, texts_declared(g)),
{
    broadcast use group_steps, runtime_func_sound;

    reveal(texts_declared);
    names_loud();
}

proof fn started_helped(defs: Seq<(Seq<char>, FunDef)>)
    ensures
        fine(started(defs)) ==> helpers(started(defs).funcs),
{
    broadcast use group_steps;

    let atoms = scanned_defs(defs, fresh_gen().atoms);
    let g = Gen { atoms: with_new(with_new(atoms, "nomatch"@), "undefined"@), ..fresh_gen() };
    let g1 = values_declared(g);
    let g2 = lists_declared(g1);
    let g3 = maps_declared(g2);
    values_helped(g);
    lists_helped(g1);
    maps_helped(g2);
    texts_helped(g3);
    assert(helpers(g.funcs)) by {
        reveal(helpers);
    }
}

/// The end of the translation of a program.
proof fn plan_done(mods: Seq<CoreMod>, p: PlanModel)
    requires
        is_plan(mods, p),
        !p.stuck,
        p.funcs.len() <= usize::MAX,
        forall|i: int| 0 <= i < p.bodies.len() ==> (#[trigger] p.bodies[i]).steps.len() <= usize::MAX,
    ensures
        forall|i: int| 0 <= i < p.bodies.len() ==> body_fits(#[trigger] p.bodies[i], p.funcs),
        forall|k: int| #[trigger] exported(p.funcs, k) ==> has_body(p.bodies, k),
        distinct(p.funcs),
        all_due(p.cautions, p.funcs),
{
    broadcast use builds_on, builds_itself, small_before;

    let defs = defs_of(mods);
    let g0 = started(defs);
    let g = own_declared(defs, g0)->Ok_0;
    own_declared_fit(defs, g0);
    started_helped(defs);
    let b = Build { gen: g, queue: Seq::empty(), bodies: Seq::empty() };
    let c = defs_built(b, defs);
    assert(plan_from(defs, g, p));
    let n = choose|n: nat|
        #![trigger lambdas_built(defs_built(b, defs), n)]
        {
            let r = lambdas_built(defs_built(b, defs), n);
            &&& r.queue.len() == 0
            &&& forall|k: nat|
                k < n ==> (#[trigger] lambdas_built(defs_built(b, defs), k)).queue.len() > 0
            &&& p == plan_at(r, defs.len())
        };
    let r = lambdas_built(c, n);
    defs_built_fit(b, defs);
    lambdas_built_fit(c, n);
    assert(r.bodies == p.bodies && r.gen.funcs == p.funcs && !r.gen.stuck);
    assert(small(r)) by {
        reveal(small);
    }
    assert(small(b));
    assert(builds(b, r));
    assert(fine(g0) && g.funcs.len() <= usize::MAX) by {
        reveal(small);
        reveal(fine);
        started_short(defs);
    }
    assert(built(b)) by {
        reveal(built);
        reveal(queued);
    }
    assert(built(r));
    assert(covered(c)) by {
        started_hides(defs);
        assert(forall|d: int|
            0 <= d < defs.len() ==> declared_def(g.funcs, #[trigger] defs[d]));
        assert(same_funcs(b.gen.funcs, c.gen.funcs) && c.gen.funcs.len() <= usize::MAX) by {
            reveal(builds);
        }
        defs_built_cover(b, defs);
        reveal(covered);
        assert forall|k: int| #[trigger] exported(c.gen.funcs, k) implies has_body(c.bodies, k)
            || in_line(c.queue, k) by {
            if exported(g.funcs, k) {
                let d = choose|d: int|
                    0 <= d < defs.len() && func_at(g.funcs, symbol_of(#[trigger] defs[d])) == Some(
                        k as usize,
                    );
                assert(has_body(
                    c.bodies,
                    own_func(b.gen.funcs, symbol_of(defs[d])) as int,
                ));
            }
        }
    }
    lambdas_built_cover(c, n);
    assert(covered(r));
    assert(distinct(r.gen.funcs)) by {
        started_hides(defs);
        reveal(builds);
    }
    assert(all_due(r.gen.cautions, r.gen.funcs)) by {
        started_hides(defs);
        due_on(g0.cautions, g0.funcs, g.funcs);
        reveal(builds);
    }
    reveal(built);
    reveal(covered);
}


/// The steps of every function of a plan fit: each refers to earlier steps that
/// yield what it needs, instructions go into open blocks and branches to blocks
/// that are not sealed, parameters are there, and all blocks are full and sealed
/// in the end.
pub proof fn plan_fits(mods: Seq<CoreMod>, p: PlanModel)
    requires
        is_plan(mods, p),
        !p.stuck,
        p.funcs.len() <= usize::MAX,
        forall|i: int| 0 <= i < p.bodies.len() ==> (#[trigger] p.bodies[i]).steps.len() <= usize::MAX,
    ensures
        forall|i: int| 0 <= i < p.bodies.len() ==> body_fits(#[trigger] p.bodies[i], p.funcs),
{
    plan_done(mods, p);
}

/// Every function that a plan exports has a body in it.
pub proof fn plan_defines_exports(mods: Seq<CoreMod>, p: PlanModel)
    requires
        is_plan(mods, p),
        !p.stuck,
        p.funcs.len() <= usize::MAX,
        forall|i: int| 0 <= i < p.bodies.len() ==> (#[trigger] p.bodies[i]).steps.len() <= usize::MAX,
    ensures
        forall|k: int| #[trigger] exported(p.funcs, k) ==> has_body(p.bodies, k),
{
    plan_done(mods, p);
}

/// No two functions of a plan have the same symbol.
pub proof fn plan_symbols_differ(mods: Seq<CoreMod>, p: PlanModel)
    requires
        is_plan(mods, p),
        !p.stuck,
        p.funcs.len() <= usize::MAX,
        forall|i: int| 0 <= i < p.bodies.len() ==> (#[trigger] p.bodies[i]).steps.len() <= usize::MAX,
    ensures
        distinct(p.funcs),
{
    plan_done(mods, p);
}

/// Whatever a plan warns of is due: no function that it could not declare can
/// be declared in the end.
pub proof fn plan_warns_of_what_is_due(mods: Seq<CoreMod>, p: PlanModel)
    requires
        is_plan(mods, p),
        !p.stuck,
        p.funcs.len() <= usize::MAX,
        forall|i: int| 0 <= i < p.bodies.len() ==> (#[trigger] p.bodies[i]).steps.len() <= usize::MAX,
    ensures
        all_due(p.cautions, p.funcs),
{
    plan_done(mods, p);
}

/// The slots of every function of a plan have room on the stack.
pub proof fn plan_is_roomy(mods: Seq<CoreMod>, p: PlanModel)
    requires
        is_plan(mods, p),
        !p.stuck,
    ensures
        all_roomy(p.bodies),
{
}

/// Whether a symbol is in use with a signature other than that of a definition.
pub open spec fn in_the_way(funcs: Seq<Decl>, symbol: Seq<char>, arity: nat) -> bool {
    exists|i: int|
        0 <= i < funcs.len() && (#[trigger] funcs[i]).symbol == symbol && (funcs[i].params != arity
            || funcs[i].results != 1)
}

proof fn own_declared_stops(defs: Seq<(Seq<char>, FunDef)>, g: Gen)
    requires
        distinct(g.funcs),
    ensures
        own_declared(defs, g) matches Err((h, symbol, arity)) ==> {
            &&& distinct(h.funcs)
            &&& h.funcs.len() <= usize::MAX ==> in_the_way(h.funcs, symbol, arity)
        },
    decreases defs.len(),
{
    if defs.len() > 0 {
        let front = defs.drop_last();
        own_declared_stops(front, g);
        own_declared_fit(front, g);
        match own_declared(front, g) {
            Ok(g1) => {
                reveal(declared);
                func_at_inside(g1.funcs, symbol_of(defs.last()));
            },
            Err(_) => {},
        }
    }
}

/// Where a program cannot be planned, the symbol of one of its functions is in
/// use with another signature.
pub proof fn clash_stands(mods: Seq<CoreMod>)
    ensures
        own_declared(defs_of(mods), started(defs_of(mods))) matches Err((h, symbol, arity)) ==> {
            &&& distinct(h.funcs)
            &&& h.funcs.len() <= usize::MAX ==> in_the_way(h.funcs, symbol, arity)
        },
{
    started_hides(defs_of(mods));
    own_declared_stops(defs_of(mods), started(defs_of(mods)));
}

/// The functions of the runtime are not exported, and their symbols differ;
/// nothing is warned of.
proof fn started_hides(defs: Seq<(Seq<char>, FunDef)>)
    ensures
        distinct(started(defs).funcs),
        all_due(started(defs).cautions, started(defs).funcs),
        started(defs).funcs.len() <= usize::MAX ==> forall|k: int|
            !(#[trigger] exported(started(defs).funcs, k)),
{
    broadcast use group_steps;

    let atoms = scanned_defs(defs, fresh_gen().atoms);
    let g = Gen { atoms: with_new(with_new(atoms, "nomatch"@), "undefined"@), ..fresh_gen() };
    let g1 = values_declared(g);
    let g2 = lists_declared(g1);
    let g3 = maps_declared(g2);
    values_helped(g);
    lists_helped(g1);
    maps_helped(g2);
    texts_helped(g3);
    started_short(defs);
    assert(grows(g, started(defs)));
    assert(all_due(g.cautions, g.funcs)) by {
        reveal(all_due);
    }
    reveal(grows);
}

proof fn started_short(defs: Seq<(Seq<char>, FunDef)>)
    ensures
        started(defs).steps.len() == 0,
        started(defs).deferred.len() == 0,
{
    broadcast use runtime_func_steps;

    reveal(values_declared);
    reveal(lists_declared);
    reveal(maps_declared);
    reveal(texts_declared);
}

broadcast proof fn runtime_func_steps(g: Gen, name: Seq<char>, params: nat, results: nat)
    ensures
        (#[trigger] runtime_func(g, name, params, results)).0.steps == g.steps,
        runtime_func(g, name, params, results).0.deferred == g.deferred,
{
    reveal(runtime_func);
    reveal(stick);
}

} // verus!
