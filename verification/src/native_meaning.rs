//! What the steps of native code come to.
use vstd::prelude::*;
use crate::erlang::{Core, Literal};
use crate::meaning::{
    elements, erlang, erlang_of_one, erlang_of_two, is_flat, quotient, remainder, run, run_all,
    run_values, truth, truth_in, Env, Val, World,
};
use crate::native::{
    atom_word, bif, bif_one, bif_runtime, bif_two, bound_var, call, declared, emit, false_word, flipped,
    int_word, interned, lit, nil_word, runtime_call, runtime_func, stick, true_word,
    truth as truth_steps, var_of, with_args, Decl, Gen, Step, Vars,
};
use crate::native_names::{
    backed_by, is_backed, is_made, made_arities, made_names, made_results,
};
use crate::native_plan::{native, native_all, native_bindings, variable};
use crate::native_sound::func_at_inside;
use crate::runtime::tagged_int_round_trip;

verus! {

/// Whether an integer has a word of its own.
pub open spec fn small(n: int) -> bool {
    -0x1000_0000_0000_0000 <= n < 0x1000_0000_0000_0000
}

/// The word that stands for a value.
pub open spec fn word_of(v: Val) -> Option<i64> {
    match v {
        Val::Int(n) => if small(n) {
            Some(int_word(n as i64))
        } else {
            None
        },
        Val::Nil => Some(nil_word()),
        _ => match truth_in(v) {
            Some(true) => Some(true_word()),
            Some(false) => Some(false_word()),
            None => None,
        },
    }
}

/// The value that a word stands for.
pub open spec fn value_in(w: i64) -> Option<Val> {
    if w & 7 == 1 {
        Some(Val::Int((w >> 3) as int))
    } else if w == nil_word() {
        Some(Val::Nil)
    } else if w == true_word() {
        Some(truth(true))
    } else if w == false_word() {
        Some(truth(false))
    } else {
        None
    }
}

/// A word stands for the value that it is the word of.
pub proof fn words_stand_for_values(v: Val)
    ensures
        word_of(v) matches Some(w) ==> value_in(w) == Some(v),
{
    match v {
        Val::Int(n) => {
            if small(n) {
                tagged_int_round_trip(n as i64);
            }
        },
        _ => {},
    }
    assert(7i64 & 7 != 1) by (bit_vector);
    assert(3i64 & 7 != 1) by (bit_vector);
    assert(11i64 & 7 != 1) by (bit_vector);
}

/// What a step comes to: a value of the program, or a bare word.
pub enum Datum {
    Value(Val),
    Bare(i64),
}

pub open spec fn as_value(d: Datum) -> Option<Val> {
    match d {
        Datum::Value(v) => Some(v),
        Datum::Bare(w) => value_in(w),
    }
}

pub open spec fn as_word(d: Datum) -> Option<i64> {
    match d {
        Datum::Value(v) => word_of(v),
        Datum::Bare(w) => Some(w),
    }
}

/// The value, if it is no integer beyond those with words.
pub open spec fn kept_small(v: Val) -> Option<Val> {
    match v {
        Val::Int(n) => if small(n) {
            Some(v)
        } else {
            None
        },
        _ => Some(v),
    }
}

/// What the functions of the runtime return.
#[verifier::opaque]
pub open spec fn runtime(symbol: Seq<char>, s: Seq<Val>) -> Option<Val> {
    if s.len() == 1 {
        if symbol == "lux_rt_negate"@ {
            match s[0] {
                Val::Int(a) => kept_small(Val::Int(-a)),
                _ => None,
            }
        } else if symbol == "lux_rt_list_length"@ {
            match elements(s[0]) {
                Some(x) => kept_small(Val::Int(x.len() as int)),
                None => None,
            }
        } else if symbol == "lux_rt_cons_head"@ {
            match s[0] {
                Val::Cons(h, _) => Some(*h),
                _ => None,
            }
        } else if symbol == "lux_rt_cons_tail"@ {
            match s[0] {
                Val::Cons(_, t) => Some(*t),
                _ => None,
            }
        } else {
            None
        }
    } else if s.len() == 2 {
        if symbol == "lux_rt_value_equal"@ {
            if is_flat(s[0]) && is_flat(s[1]) {
                Some(truth(s[0] == s[1]))
            } else {
                None
            }
        } else {
            match (s[0], s[1]) {
                (Val::Int(a), Val::Int(b)) => if symbol == "lux_rt_add"@ {
                    kept_small(Val::Int(a + b))
                } else if symbol == "lux_rt_sub"@ {
                    kept_small(Val::Int(a - b))
                } else if symbol == "lux_rt_mul"@ {
                    kept_small(Val::Int(a * b))
                } else if symbol == "lux_rt_safe_div"@ {
                    if b == 0 {
                        None
                    } else {
                        kept_small(Val::Int(quotient(a, b)))
                    }
                } else if symbol == "lux_rt_safe_rem"@ {
                    if b == 0 {
                        None
                    } else {
                        kept_small(Val::Int(remainder(a, b)))
                    }
                } else if symbol == "lux_rt_less_than"@ {
                    Some(truth(a < b))
                } else if symbol == "lux_rt_less_equal"@ {
                    Some(truth(a <= b))
                } else if symbol == "lux_rt_greater_than"@ {
                    Some(truth(a > b))
                } else if symbol == "lux_rt_greater_equal"@ {
                    Some(truth(a >= b))
                } else {
                    None
                },
                _ => None,
            }
        }
    } else {
        None
    }
}

/// What step number `i` comes to, where the steps before it run one after the
/// other.
pub open spec fn come_to(steps: Seq<Step>, funcs: Seq<Decl>, i: nat) -> Option<Datum>
    decreases i, 1nat,
{
    if i >= steps.len() {
        None
    } else {
        match steps[i as int] {
            Step::Word(w) => Some(Datum::Bare(w)),
            Step::Byte(b) => Some(Datum::Bare(b)),
            Step::Call(f, k) => if f < i && (steps[f as int] is Import) {
                let func = steps[f as int]->Import_0;
                match passed(steps, funcs, i, k as nat) {
                    Some(s) => if func < funcs.len() {
                        match runtime(funcs[func as int].symbol, s) {
                            Some(v) => Some(Datum::Value(v)),
                            None => None,
                        }
                    } else {
                        None
                    },
                    None => None,
                }
            } else {
                None
            },
            Step::EqualImm(x, w) => match word_at(steps, funcs, i, x) {
                Some(a) => Some(
                    Datum::Bare(
                        if a == w {
                            1
                        } else {
                            0
                        },
                    ),
                ),
                None => None,
            },
            Step::BxorImm(x, w) => match word_at(steps, funcs, i, x) {
                Some(a) => Some(Datum::Bare(a ^ w)),
                None => None,
            },
            Step::Band(x, y) => match (word_at(steps, funcs, i, x), word_at(steps, funcs, i, y)) {
                (Some(a), Some(b)) => Some(Datum::Bare(a & b)),
                _ => None,
            },
            Step::Bor(x, y) => match (word_at(steps, funcs, i, x), word_at(steps, funcs, i, y)) {
                (Some(a), Some(b)) => Some(Datum::Bare(a | b)),
                _ => None,
            },
            Step::Select(c, x, y) => match word_at(steps, funcs, i, c) {
                Some(a) => if a != 0 {
                    if x < i {
                        come_to(steps, funcs, x as nat)
                    } else {
                        None
                    }
                } else if y < i {
                    come_to(steps, funcs, y as nat)
                } else {
                    None
                },
                None => None,
            },
            Step::UseVar(v) => match latest(steps, v, i) {
                Some(x) => if x < i {
                    come_to(steps, funcs, x as nat)
                } else {
                    None
                },
                None => None,
            },
            _ => None,
        }
    }
}

/// The place whose value a variable was last given before step number `i`.
pub open spec fn latest(steps: Seq<Step>, v: usize, i: nat) -> Option<usize>
    decreases i,
{
    if i == 0 || i > steps.len() {
        None
    } else {
        match steps[i - 1] {
            Step::DefVar(u, x) => if u == v {
                Some(x)
            } else {
                latest(steps, v, (i - 1) as nat)
            },
            _ => latest(steps, v, (i - 1) as nat),
        }
    }
}

/// Whether the steps that `b` has beyond `a` give no variable of `a` a value.
#[verifier::opaque]
pub open spec fn undisturbed(a: Seq<Step>, b: Seq<Step>) -> bool {
    forall|i: int|
        a.len() <= i < b.len() ==> (#[trigger] b[i] matches Step::DefVar(v, _) ==> v >= a.len())
}

pub open spec fn word_at(steps: Seq<Step>, funcs: Seq<Decl>, i: nat, x: usize) -> Option<i64>
    decreases i, 0nat,
{
    if x < i {
        match come_to(steps, funcs, x as nat) {
            Some(d) => as_word(d),
            None => None,
        }
    } else {
        None
    }
}

/// The `k` arguments in front of step number `i`.
pub open spec fn passed(steps: Seq<Step>, funcs: Seq<Decl>, i: nat, k: nat) -> Option<Seq<Val>>
    decreases i, 0nat,
{
    if k == 0 {
        Some(Seq::empty())
    } else if i == 0 || i > steps.len() {
        None
    } else {
        match steps[i - 1] {
            Step::Arg(x) => if x < i - 1 {
                match (
                    passed(steps, funcs, (i - 1) as nat, (k - 1) as nat),
                    come_to(steps, funcs, x as nat),
                ) {
                    (Some(s), Some(d)) => match as_value(d) {
                        Some(v) => Some(s.push(v)),
                        None => None,
                    },
                    _ => None,
                }
            } else {
                None
            },
            _ => None,
        }
    }
}

/// Whether a place holds a value.
pub open spec fn has_value(g: Gen, x: usize, v: Val) -> bool {
    &&& x < g.steps.len()
    &&& come_to(g.steps, g.funcs, x as nat) matches Some(d) && as_value(d) == Some(v)
}

/// Whether a place holds a bare word.
pub open spec fn has_word(g: Gen, x: usize, w: i64) -> bool {
    &&& x < g.steps.len()
    &&& come_to(g.steps, g.funcs, x as nat) matches Some(d) && as_word(d) == Some(w)
}

/// Whether a state comes from another by adding steps and functions.
pub open spec fn adds(g: Gen, h: Gen) -> bool {
    &&& g.steps.is_prefix_of(h.steps)
    &&& g.funcs.len() <= h.funcs.len()
    &&& forall|i: int|
        0 <= i < g.funcs.len() ==> (#[trigger] h.funcs[i]).symbol == g.funcs[i].symbol
    &&& g.stuck ==> h.stuck
    &&& h.steps.len() <= usize::MAX ==> undisturbed(g.steps, h.steps)
}

/// Whether nothing has stopped the translation and it fits the machine.
pub open spec fn goes_on(g: Gen) -> bool {
    !g.stuck && g.steps.len() <= usize::MAX && g.funcs.len() <= usize::MAX
}

proof fn adds_on(g: Gen, h: Gen, k: Gen)
    requires
        adds(g, h),
        adds(h, k),
    ensures
        adds(g, k),
{
    assert forall|i: int| 0 <= i < g.steps.len() implies g.steps[i] == k.steps[i] by {
        assert(g.steps[i] == h.steps[i]);
        assert(h.steps[i] == k.steps[i]);
    }
    assert(g.steps =~= k.steps.take(g.steps.len() as int));
    assert forall|i: int| 0 <= i < g.funcs.len() implies (#[trigger] k.funcs[i]).symbol
        == g.funcs[i].symbol by {
        assert(h.funcs[i].symbol == g.funcs[i].symbol);
    }
    if k.steps.len() <= usize::MAX {
        undisturbed_on(g.steps, h.steps, k.steps);
    }
}

proof fn undisturbed_on(a: Seq<Step>, b: Seq<Step>, c: Seq<Step>)
    requires
        a.is_prefix_of(b),
        b.is_prefix_of(c),
        undisturbed(a, b),
        undisturbed(b, c),
    ensures
        undisturbed(a, c),
{
    reveal(undisturbed);
    assert forall|i: int| a.len() <= i < c.len() implies (#[trigger] c[i] matches Step::DefVar(v, _)
        ==> v >= a.len()) by {
        if i < b.len() {
            prefix_at(b, c, i);
        }
    }
}

proof fn undisturbed_itself(a: Seq<Step>)
    ensures
        undisturbed(a, a),
{
    reveal(undisturbed);
}

proof fn latest_stays(a: Seq<Step>, b: Seq<Step>, v: usize, i: nat)
    requires
        a.is_prefix_of(b),
        i <= a.len(),
    ensures
        latest(b, v, i) == latest(a, v, i),
    decreases i,
{
    if i > 0 {
        prefix_at(a, b, i - 1);
        latest_stays(a, b, v, (i - 1) as nat);
    }
}

/// What a variable holds stays the same where it is given no other value.
proof fn latest_kept(a: Seq<Step>, b: Seq<Step>, v: usize, i: nat)
    requires
        a.is_prefix_of(b),
        undisturbed(a, b),
        v < a.len(),
        a.len() <= i <= b.len(),
    ensures
        latest(b, v, i) == latest(a, v, a.len()),
    decreases i,
{
    if i == a.len() {
        latest_stays(a, b, v, i);
    } else {
        reveal(undisturbed);
        latest_kept(a, b, v, (i - 1) as nat);
        assert(b[i - 1] matches Step::DefVar(u, _) ==> u >= a.len());
    }
}

proof fn prefix_at(a: Seq<Step>, b: Seq<Step>, i: int)
    requires
        a.is_prefix_of(b),
        0 <= i < a.len(),
    ensures
        a[i] == b[i],
        a.len() <= b.len(),
{
}

/// What a step comes to stays so.
proof fn come_to_stays(g: Gen, h: Gen, i: nat)
    requires
        adds(g, h),
        i < g.steps.len(),
        come_to(g.steps, g.funcs, i) is Some,
    ensures
        come_to(h.steps, h.funcs, i) == come_to(g.steps, g.funcs, i),
    decreases i, 1nat,
{
    prefix_at(g.steps, h.steps, i as int);
    match g.steps[i as int] {
        Step::Call(f, k) => {
            prefix_at(g.steps, h.steps, f as int);
            passed_stays(g, h, i, k as nat);
            let func = g.steps[f as int]->Import_0;
            assert(h.funcs[func as int].symbol == g.funcs[func as int].symbol);
        },
        Step::EqualImm(x, w) => {
            word_stays(g, h, i, x);
        },
        Step::BxorImm(x, w) => {
            word_stays(g, h, i, x);
        },
        Step::Band(x, y) => {
            word_stays(g, h, i, x);
            word_stays(g, h, i, y);
        },
        Step::Bor(x, y) => {
            word_stays(g, h, i, x);
            word_stays(g, h, i, y);
        },
        Step::Select(c, x, y) => {
            word_stays(g, h, i, c);
            if word_at(g.steps, g.funcs, i, c)->Some_0 != 0 {
                come_to_stays(g, h, x as nat);
            } else {
                come_to_stays(g, h, y as nat);
            }
        },
        Step::UseVar(v) => {
            latest_stays(g.steps, h.steps, v, i);
            come_to_stays(g, h, latest(g.steps, v, i)->Some_0 as nat);
        },
        _ => {},
    }
}

proof fn word_stays(g: Gen, h: Gen, i: nat, x: usize)
    requires
        adds(g, h),
        i < g.steps.len(),
        word_at(g.steps, g.funcs, i, x) is Some,
    ensures
        word_at(h.steps, h.funcs, i, x) == word_at(g.steps, g.funcs, i, x),
    decreases i, 0nat,
{
    come_to_stays(g, h, x as nat);
}

proof fn passed_stays(g: Gen, h: Gen, i: nat, k: nat)
    requires
        adds(g, h),
        i <= g.steps.len(),
        passed(g.steps, g.funcs, i, k) is Some,
    ensures
        passed(h.steps, h.funcs, i, k) == passed(g.steps, g.funcs, i, k),
    decreases i, 0nat,
{
    if k > 0 {
        prefix_at(g.steps, h.steps, i - 1);
        let x = g.steps[i - 1]->Arg_0;
        passed_stays(g, h, (i - 1) as nat, (k - 1) as nat);
        come_to_stays(g, h, x as nat);
    }
}

broadcast proof fn value_stays(g: Gen, h: Gen, x: usize, v: Val)
    requires
        #[trigger] adds(g, h),
        #[trigger] has_value(g, x, v),
    ensures
        has_value(h, x, v),
{
    come_to_stays(g, h, x as nat);
    prefix_at(g.steps, h.steps, x as int);
}

broadcast proof fn word_kept(g: Gen, h: Gen, x: usize, w: i64)
    requires
        #[trigger] adds(g, h),
        #[trigger] has_word(g, x, w),
    ensures
        has_word(h, x, w),
{
    come_to_stays(g, h, x as nat);
    prefix_at(g.steps, h.steps, x as int);
}

proof fn emit_adds(g: Gen, s: Step)
    requires
        s !is DefVar,
    ensures
        adds(g, emit(g, s).0),
        emit(g, s).0.steps == g.steps.push(s),
        emit(g, s).0.funcs == g.funcs,
        emit(g, s).0.atoms == g.atoms,
        emit(g, s).0.stuck == g.stuck,
        goes_on(emit(g, s).0) ==> goes_on(g) && emit(g, s).1 == g.steps.len(),
{
    reveal(emit);
    reveal(undisturbed);
    assert(g.steps =~= emit(g, s).0.steps.take(g.steps.len() as int));
}

proof fn word_emitted(g: Gen, w: i64)
    ensures
        adds(g, emit(g, Step::Word(w)).0),
        emit(g, Step::Word(w)).0.stuck == g.stuck,
        goes_on(emit(g, Step::Word(w)).0) ==> goes_on(g) && has_word(
            emit(g, Step::Word(w)).0,
            emit(g, Step::Word(w)).1,
            w,
        ) && (value_in(w) matches Some(v) ==> has_value(
            emit(g, Step::Word(w)).0,
            emit(g, Step::Word(w)).1,
            v,
        )),
{
    emit_adds(g, Step::Word(w));
}

proof fn runtime_func_adds(g: Gen, name: Seq<char>, params: nat, results: nat)
    ensures
        adds(g, runtime_func(g, name, params, results).0),
        runtime_func(g, name, params, results).0.steps == g.steps,
        runtime_func(g, name, params, results).0.atoms == g.atoms,
        goes_on(runtime_func(g, name, params, results).0) ==> goes_on(g) && ({
            let (h, f) = runtime_func(g, name, params, results);
            f < h.funcs.len() && h.funcs[f as int].symbol == name
        }),
{
    reveal(runtime_func);
    reveal(declared);
    reveal(stick);
    func_at_inside(g.funcs, name);
    assert(g.steps.is_prefix_of(g.steps));
    undisturbed_itself(g.steps);
}

proof fn with_args_adds(g: Gen, args: Seq<usize>)
    ensures
        adds(g, with_args(g, args)),
        with_args(g, args).steps.len() == g.steps.len() + args.len(),
        forall|j: int|
            0 <= j < args.len() ==> #[trigger] with_args(g, args).steps[g.steps.len() + j]
                == Step::Arg(args[j]),
        with_args(g, args).funcs == g.funcs,
        with_args(g, args).atoms == g.atoms,
        with_args(g, args).stuck == g.stuck,
    decreases args.len(),
{
    assert(g.steps.is_prefix_of(g.steps));
    undisturbed_itself(g.steps);
    if args.len() > 0 {
        let front = args.drop_last();
        with_args_adds(g, front);
        let h = with_args(g, front);
        emit_adds(h, Step::Arg(args.last()));
        let k = with_args(g, args);
        adds_on(g, h, k);
        assert forall|j: int| 0 <= j < args.len() implies #[trigger] k.steps[g.steps.len() + j]
            == Step::Arg(args[j]) by {
            if j < front.len() {
                assert(h.steps[g.steps.len() + j] == Step::Arg(front[j]));
            }
        }
    }
}

proof fn passed_args(h: Gen, start: nat, args: Seq<usize>, s: Seq<Val>, k: nat)
    requires
        k <= args.len(),
        args.len() == s.len(),
        start + args.len() <= h.steps.len(),
        forall|j: int|
            0 <= j < args.len() ==> #[trigger] h.steps[start + j] == Step::Arg(args[j]),
        forall|j: int|
            0 <= j < args.len() ==> (#[trigger] args[j]) < start && has_value(h, args[j], s[j]),
    ensures
        passed(h.steps, h.funcs, start + k, k) == Some(s.take(k as int)),
    decreases k,
{
    if k == 0 {
        assert(s.take(0) =~= Seq::<Val>::empty());
    } else {
        passed_args(h, start, args, s, (k - 1) as nat);
        assert(h.steps[start + (k - 1)] == Step::Arg(args[k - 1]));
        assert(has_value(h, args[k - 1], s[k - 1]));
        assert(s.take(k - 1).push(s[k - 1]) =~= s.take(k as int));
    }
}

/// Whether places hold values.
pub open spec fn have_values(g: Gen, xs: Seq<usize>, s: Seq<Val>) -> bool {
    &&& xs.len() == s.len()
    &&& forall|j: int| 0 <= j < xs.len() ==> has_value(g, #[trigger] xs[j], s[j])
}

/// A call of a function of the runtime comes to what the function returns.
proof fn runtime_call_means(g: Gen, name: Seq<char>, args: Seq<usize>, s: Seq<Val>)
    ensures
        adds(g, runtime_call(g, name, args).0),
        goes_on(runtime_call(g, name, args).0) ==> goes_on(g),
        goes_on(runtime_call(g, name, args).0) && have_values(g, args, s) ==> (runtime(name, s)
            matches Some(v) ==> has_value(
            runtime_call(g, name, args).0,
            runtime_call(g, name, args).1,
            v,
        )),
{
    reveal(runtime_call);
    reveal(call);
    let (g1, func) = runtime_func(g, name, args.len(), 1);
    runtime_func_adds(g, name, args.len(), 1);
    let (g2, f) = emit(g1, Step::Import(func));
    emit_adds(g1, Step::Import(func));
    let g3 = with_args(g2, args);
    with_args_adds(g2, args);
    let last = Step::Call(f, args.len() as usize);
    let (h, r) = emit(g3, last);
    emit_adds(g3, last);
    adds_on(g, g1, g2);
    adds_on(g, g2, g3);
    adds_on(g, g3, h);
    adds_on(g2, g3, h);
    if goes_on(h) && have_values(g, args, s) {
        assert(args.len() <= usize::MAX);
        let start = g2.steps.len();
        assert forall|j: int| 0 <= j < args.len() implies #[trigger] h.steps[start + j] == Step::Arg(
            args[j],
        ) by {
            assert(g3.steps[start + j] == Step::Arg(args[j]));
        }
        assert forall|j: int| 0 <= j < args.len() implies (#[trigger] args[j]) < start && has_value(
            h,
            args[j],
            s[j],
        ) by {
            assert(has_value(g, args[j], s[j]));
            value_stays(g, h, args[j], s[j]);
        }
        passed_args(h, start, args, s, args.len());
        assert(s.take(args.len() as int) =~= s);
        assert(h.steps[r as int] == last);
        prefix_at(g2.steps, h.steps, f as int);
        assert(h.steps[f as int] == Step::Import(func));
        assert(r == start + args.len());
    }
}

/// Whether a state comes from another and goes on only if that one did.
spec fn leads(g: Gen, h: Gen) -> bool {
    adds(g, h) && h.atoms == g.atoms && (goes_on(h) ==> goes_on(g))
}

proof fn leads_on(g: Gen, h: Gen, k: Gen)
    requires
        leads(g, h),
        leads(h, k),
    ensures
        leads(g, k),
{
    adds_on(g, h, k);
}

proof fn emit_leads(g: Gen, s: Step)
    requires
        s !is DefVar,
    ensures
        leads(g, emit(g, s).0),
{
    emit_adds(g, s);
}

proof fn runtime_call_leads(g: Gen, name: Seq<char>, args: Seq<usize>)
    ensures
        leads(g, runtime_call(g, name, args).0),
{
    runtime_call_means(g, name, args, Seq::empty());
    reveal(runtime_call);
    reveal(call);
    let (g1, func) = runtime_func(g, name, args.len(), 1);
    runtime_func_adds(g, name, args.len(), 1);
    let (g2, f) = emit(g1, Step::Import(func));
    emit_adds(g1, Step::Import(func));
    with_args_adds(g2, args);
    emit_adds(with_args(g2, args), Step::Call(f, args.len() as usize));
}

pub proof fn truths_apart()
    ensures
        truth(true) != truth(false),
{
    reveal_strlit("true");
    reveal_strlit("false");
    assert("true"@.len() != "false"@.len());
}

pub open spec fn truth_word(b: bool) -> i64 {
    if b {
        true_word()
    } else {
        false_word()
    }
}

/// The word of a truth.
proof fn truth_has_word(g: Gen, x: usize, b: bool)
    requires
        has_value(g, x, truth(b)),
    ensures
        has_word(g, x, truth_word(b)),
{
    truths_apart();
    words_stand_for_values(truth(b));
}

/// Comparing a truth with `true`.
proof fn is_true_means(g: Gen, x: usize, b: bool)
    ensures
        leads(g, emit(g, Step::EqualImm(x, true_word())).0),
        goes_on(emit(g, Step::EqualImm(x, true_word())).0) && has_value(g, x, truth(b)) ==> has_word(
            emit(g, Step::EqualImm(x, true_word())).0,
            emit(g, Step::EqualImm(x, true_word())).1,
            if b {
                1
            } else {
                0
            },
        ),
{
    let s = Step::EqualImm(x, true_word());
    let (h, r) = emit(g, s);
    emit_adds(g, s);
    if goes_on(h) && has_value(g, x, truth(b)) {
        truth_has_word(g, x, b);
        word_kept(g, h, x, truth_word(b));
        assert(h.steps[r as int] == s);
        assert(word_at(h.steps, h.funcs, r as nat, x) == Some(truth_word(b)));
    }
}

/// The choice of `true` or `false` by a condition.
proof fn truth_steps_mean(g: Gen, c: usize, b: bool)
    ensures
        leads(g, truth_steps(g, c).0),
        goes_on(truth_steps(g, c).0) && has_word(
            g,
            c,
            if b {
                1
            } else {
                0
            },
        ) ==> has_value(truth_steps(g, c).0, truth_steps(g, c).1, truth(b)),
{
    let (g1, t) = emit(g, Step::Word(true_word()));
    let (g2, f) = emit(g1, Step::Word(false_word()));
    let s = Step::Select(c, t, f);
    let (h, r) = emit(g2, s);
    emit_leads(g, Step::Word(true_word()));
    emit_leads(g1, Step::Word(false_word()));
    emit_leads(g2, s);
    leads_on(g, g1, g2);
    leads_on(g, g2, h);
    leads_on(g1, g2, h);
    emit_adds(g2, s);
    let w: i64 = if b {
        1
    } else {
        0
    };
    if goes_on(h) && has_word(g, c, w) {
        words_stand_for_values(truth(true));
        words_stand_for_values(truth(false));
        truths_apart();
        word_emitted(g, true_word());
        word_emitted(g1, false_word());
        value_stays(g1, h, t, truth(true));
        value_stays(g2, h, f, truth(false));
        word_kept(g, h, c, w);
        assert(h.steps[r as int] == s);
        assert(word_at(h.steps, h.funcs, r as nat, c) == Some(w));
        assert(t < r && f < r && c < r);
    }
}

/// The opposite of a truth.
proof fn flipped_means(g: Gen, v: usize, b: bool)
    ensures
        leads(g, flipped(g, v).0),
        goes_on(flipped(g, v).0) && has_value(g, v, truth(b)) ==> has_value(
            flipped(g, v).0,
            flipped(g, v).1,
            truth(!b),
        ),
{
    let (g1, t) = emit(g, Step::EqualImm(v, true_word()));
    is_true_means(g, v, b);
    let s = Step::BxorImm(t, 1);
    let (g2, f) = emit(g1, s);
    emit_leads(g1, s);
    emit_adds(g1, s);
    truth_steps_mean(g2, f, !b);
    let h = flipped(g, v).0;
    leads_on(g, g1, g2);
    leads_on(g, g2, h);
    if goes_on(h) && has_value(g, v, truth(b)) {
        let w: i64 = if b {
            1
        } else {
            0
        };
        word_kept(g1, g2, t, w);
        assert(g2.steps[f as int] == s);
        assert(word_at(g2.steps, g2.funcs, f as nat, t) == Some(w));
        assert(1i64 ^ 1 == 0) by (bit_vector);
        assert(0i64 ^ 1 == 1) by (bit_vector);
    }
}

/// A conjunction or a disjunction.
#[verifier::rlimit(40)]
proof fn both_means(g: Gen, a: usize, b: usize, both: bool, p: bool, q: bool)
    ensures
        ({
            let (g1, x) = emit(g, Step::EqualImm(a, true_word()));
            let (g2, y) = emit(g1, Step::EqualImm(b, true_word()));
            let (g3, r) = emit(
                g2,
                if both {
                    Step::Band(x, y)
                } else {
                    Step::Bor(x, y)
                },
            );
            let h = truth_steps(g3, r);
            leads(g, h.0) && (goes_on(h.0) && has_value(g, a, truth(p)) && has_value(g, b, truth(q))
                ==> has_value(
                h.0,
                h.1,
                truth(
                    if both {
                        p && q
                    } else {
                        p || q
                    },
                ),
            ))
        }),
{
    let (g1, x) = emit(g, Step::EqualImm(a, true_word()));
    is_true_means(g, a, p);
    let (g2, y) = emit(g1, Step::EqualImm(b, true_word()));
    is_true_means(g1, b, q);
    let s = if both {
        Step::Band(x, y)
    } else {
        Step::Bor(x, y)
    };
    let (g3, r) = emit(g2, s);
    emit_leads(g2, s);
    emit_adds(g2, s);
    let z = if both {
        p && q
    } else {
        p || q
    };
    truth_steps_mean(g3, r, z);
    let h = truth_steps(g3, r).0;
    leads_on(g, g1, g2);
    leads_on(g, g2, g3);
    leads_on(g, g3, h);
    leads_on(g1, g2, g3);
    if goes_on(h) && has_value(g, a, truth(p)) && has_value(g, b, truth(q)) {
        let i: i64 = if p {
            1
        } else {
            0
        };
        let j: i64 = if q {
            1
        } else {
            0
        };
        value_stays(g, g1, b, truth(q));
        word_kept(g1, g3, x, i);
        word_kept(g2, g3, y, j);
        assert(g3.steps[r as int] == s);
        assert(word_at(g3.steps, g3.funcs, r as nat, x) == Some(i));
        assert(word_at(g3.steps, g3.funcs, r as nat, y) == Some(j));
        assert(1i64 & 1 == 1 && 1i64 & 0 == 0 && 0i64 & 1 == 0 && 0i64 & 0 == 0) by (bit_vector);
        assert(1i64 | 1 == 1 && 1i64 | 0 == 1 && 0i64 | 1 == 1 && 0i64 | 0 == 0) by (bit_vector);
    }
}

/// A choice between two places by a truth.
proof fn select_means(g: Gen, r: usize, x: usize, y: usize, b: bool, v: Val, u: Val)
    ensures
        ({
            let (g1, c) = emit(g, Step::EqualImm(r, true_word()));
            let h = emit(g1, Step::Select(c, x, y));
            leads(g, h.0) && (goes_on(h.0) && has_value(g, r, truth(b)) && has_value(g, x, v)
                && has_value(g, y, u) ==> has_value(
                h.0,
                h.1,
                if b {
                    v
                } else {
                    u
                },
            ))
        }),
{
    let (g1, c) = emit(g, Step::EqualImm(r, true_word()));
    is_true_means(g, r, b);
    let s = Step::Select(c, x, y);
    let (h, z) = emit(g1, s);
    emit_leads(g1, s);
    emit_adds(g1, s);
    leads_on(g, g1, h);
    if goes_on(h) && has_value(g, r, truth(b)) && has_value(g, x, v) && has_value(g, y, u) {
        let w: i64 = if b {
            1
        } else {
            0
        };
        word_kept(g1, h, c, w);
        value_stays(g, h, x, v);
        value_stays(g, h, y, u);
        assert(h.steps[z as int] == s);
        assert(word_at(h.steps, h.funcs, z as nat, c) == Some(w));
    }
}

/// The absolute value.
#[verifier::rlimit(40)]
proof fn abs_means(g: Gen, v: usize, a: int)
    requires
        kept_small(Val::Int(-a)) is Some,
    ensures
        ({
            let (g1, zero) = emit(g, Step::Word(int_word(0)));
            let (g2, less) = runtime_call(g1, "lux_rt_less_than"@, seq![v, zero]);
            let (g3, c) = emit(g2, Step::EqualImm(less, true_word()));
            let (g4, neg) = runtime_call(g3, "lux_rt_negate"@, seq![v]);
            let h = emit(g4, Step::Select(c, neg, v));
            leads(g, h.0) && (goes_on(h.0) && has_value(g, v, Val::Int(a)) ==> has_value(
                h.0,
                h.1,
                Val::Int(
                    if a < 0 {
                        -a
                    } else {
                        a
                    },
                ),
            ))
        }),
{
    let (g1, zero) = emit(g, Step::Word(int_word(0)));
    emit_leads(g, Step::Word(int_word(0)));
    word_emitted(g, int_word(0));
    let x = Val::Int(a);
    let o = Val::Int(0);
    let (g2, less) = runtime_call(g1, "lux_rt_less_than"@, seq![v, zero]);
    runtime_call_leads(g1, "lux_rt_less_than"@, seq![v, zero]);
    runtime_call_means(g1, "lux_rt_less_than"@, seq![v, zero], seq![x, o]);
    let (g3, c) = emit(g2, Step::EqualImm(less, true_word()));
    is_true_means(g2, less, a < 0);
    let (g4, neg) = runtime_call(g3, "lux_rt_negate"@, seq![v]);
    runtime_call_leads(g3, "lux_rt_negate"@, seq![v]);
    runtime_call_means(g3, "lux_rt_negate"@, seq![v], seq![x]);
    let s = Step::Select(c, neg, v);
    let (h, z) = emit(g4, s);
    emit_leads(g4, s);
    emit_adds(g4, s);
    leads_on(g, g1, g2);
    leads_on(g, g2, g3);
    leads_on(g, g3, g4);
    leads_on(g, g4, h);
    leads_on(g3, g4, h);
    words_stand_for_values(o);
    made_results(x, o);
    if goes_on(h) && has_value(g, v, x) {
        value_stays(g, g1, v, x);
        assert(have_values(g1, seq![v, zero], seq![x, o]));
        value_stays(g, g3, v, x);
        assert(have_values(g3, seq![v], seq![x]));
        value_stays(g, h, v, x);
        value_stays(g4, h, neg, Val::Int(-a));
        let w: i64 = if a < 0 {
            1
        } else {
            0
        };
        word_kept(g3, h, c, w);
        assert(h.steps[z as int] == s);
        assert(word_at(h.steps, h.funcs, z as nat, c) == Some(w));
    }
}

/// Whether native code computes a function of `erlang` here.
pub open spec fn is_computed(f: Seq<char>) -> bool {
    is_backed(f) || is_made(f)
}

/// A built-in function of `erlang` comes to what it returns.
#[verifier::rlimit(60)]
#[verifier::spinoff_prover]
pub proof fn bif_means(f: Seq<char>, vals: Seq<usize>, g: Gen, s: Seq<Val>)
    requires
        is_computed(f),
        vals.len() == s.len(),
        erlang(f, s) matches Some(r) && kept_small(r) is Some,
        f == "abs"@ ==> (s[0] matches Val::Int(a) && kept_small(Val::Int(-a)) is Some),
    ensures
        adds(g, bif(f, vals, g).0),
        bif(f, vals, g).0.atoms == g.atoms,
        goes_on(bif(f, vals, g).0) ==> goes_on(g),
        goes_on(bif(f, vals, g).0) && have_values(g, vals, s) ==> has_value(
            bif(f, vals, g).0,
            bif(f, vals, g).1,
            erlang(f, s)->Some_0,
        ),
{
    reveal(bif);
    if is_backed(f) {
        backed_by(f, s);
        let (name, k) = bif_runtime(f, s.len())->Some_0;
        assert(vals.take(k as int) =~= vals);
        runtime_call_leads(g, name, vals);
        runtime_call_means(g, name, vals, s);
    } else {
        made_arities(f, s);
        if f == "not"@ || f == "abs"@ {
            one_made(f, vals[0], g, s[0]);
            if have_values(g, vals, s) {
                assert(has_value(g, vals[0], s[0]));
            }
            made_names(1, 0, 0);
        } else {
            two_made(f, vals[0], vals[1], g, s[0], s[1]);
            if have_values(g, vals, s) {
                assert(has_value(g, vals[0], s[0]));
                assert(has_value(g, vals[1], s[1]));
            }
            made_names(2, 0, 0);
        }
    }
}

proof fn one_made(f: Seq<char>, x: usize, g: Gen, v: Val)
    requires
        f == "not"@ || f == "abs"@,
        erlang_of_one(f, v) is Some,
        f == "abs"@ ==> (v matches Val::Int(a) && kept_small(Val::Int(-a)) is Some),
    ensures
        leads(g, bif_one(f, x, g).0),
        goes_on(bif_one(f, x, g).0) && has_value(g, x, v) ==> has_value(
            bif_one(f, x, g).0,
            bif_one(f, x, g).1,
            erlang_of_one(f, v)->Some_0,
        ),
{
    made_names(1, 0, 0);
    made_results(v, v);
    truths_apart();
    if f == "not"@ {
        flipped_means(g, x, truth_in(v)->Some_0);
    } else {
        abs_means(g, x, v->Int_0);
    }
}

#[verifier::rlimit(60)]
#[verifier::spinoff_prover]
proof fn two_made(f: Seq<char>, x: usize, y: usize, g: Gen, v: Val, u: Val)
    requires
        is_made(f),
        f != "not"@ && f != "abs"@,
        erlang_of_two(f, v, u) is Some,
    ensures
        leads(g, bif_two(f, x, y, g).0),
        goes_on(bif_two(f, x, y, g).0) && has_value(g, x, v) && has_value(g, y, u) ==> has_value(
            bif_two(f, x, y, g).0,
            bif_two(f, x, y, g).1,
            erlang_of_two(f, v, u)->Some_0,
        ),
{
    made_names(2, x, y);
    made_results(v, u);
    truths_apart();
    let args = seq![x, y];
    let s = seq![v, u];
    let h = bif_two(f, x, y, g).0;
    if f == "=/="@ || f == "/="@ {
        let (g1, r) = runtime_call(g, "lux_rt_value_equal"@, args);
        runtime_call_leads(g, "lux_rt_value_equal"@, args);
        runtime_call_means(g, "lux_rt_value_equal"@, args, s);
        flipped_means(g1, r, v == u);
        leads_on(g, g1, h);
        if goes_on(h) && has_value(g, x, v) && has_value(g, y, u) {
            assert(have_values(g, args, s));
        }
    } else if f == "and"@ || f == "or"@ {
        both_means(g, x, y, f == "and"@, truth_in(v)->Some_0, truth_in(u)->Some_0);
    } else {
        let name = if f == "max"@ {
            "lux_rt_greater_than"@
        } else {
            "lux_rt_less_than"@
        };
        let b = if f == "max"@ {
            v->Int_0 > u->Int_0
        } else {
            v->Int_0 < u->Int_0
        };
        let (g1, r) = runtime_call(g, name, args);
        runtime_call_leads(g, name, args);
        runtime_call_means(g, name, args, s);
        select_means(g1, r, x, y, b, v, u);
        leads_on(g, g1, h);
        if goes_on(h) && has_value(g, x, v) && has_value(g, y, u) {
            assert(have_values(g, args, s));
            value_stays(g, g1, x, v);
            value_stays(g, g1, y, u);
        }
    }
}

/// Whether an expression is made of small integers, truths, variables, bindings of
/// one variable at a time and functions that native code computes, and has a value
/// all along. No variable is bound within the scope of another of its name.
pub open spec fn is_math(e: Core, env: Env, w: World) -> bool
    decreases e,
{
    &&& run(e, env, w) matches Some(v) && kept_small(v) is Some
    &&& match e {
        Core::Lit(Literal::Int(n)) => true,
        Core::Lit(Literal::Atom(a)) => a == "true"@ || a == "false"@,
        Core::Lit(Literal::Nil) => true,
        Core::Var(_) => true,
        Core::Let(s, body) => {
            &&& s.len() == 1
            &&& is_math(s[0].1, env, w)
            &&& !env.contains_key(s[0].0)
            &&& is_math(*body, env.insert(s[0].0, run(s[0].1, env, w)->Some_0), w)
        },
        Core::Sequence(a, b) => is_math(*a, env, w) && is_math(*b, env, w),
        Core::Call(m, f, args) => {
            &&& m == "erlang"@
            &&& is_computed(f)
            &&& forall|i: int| 0 <= i < args.len() ==> is_math(#[trigger] args[i], env, w)
            &&& f == "abs"@ ==> (run_all(args, env, w) matches Some(s) && s.len() > 0 && (
            s[0] matches Val::Int(a) && kept_small(Val::Int(-a)) is Some))
        },
        _ => false,
    }
}

/// Whether a variable holds a value.
pub open spec fn holds_var(g: Gen, vars: Vars, x: Seq<char>, v: Val) -> bool {
    &&& var_of(vars, x) matches Some(p) && p < g.steps.len() && (latest(
        g.steps,
        p,
        g.steps.len(),
    ) matches Some(y) && has_value(g, y, v))
}

/// Whether the variables hold what they are bound to.
pub open spec fn hold(g: Gen, vars: Vars, env: Env) -> bool {
    forall|x: Seq<char>| #[trigger] env.contains_key(x) ==> holds_var(g, vars, x, env[x])
}

proof fn hold_on(g: Gen, h: Gen, vars: Vars, env: Env)
    requires
        adds(g, h),
        goes_on(h),
        hold(g, vars, env),
    ensures
        hold(h, vars, env),
{
    assert forall|x: Seq<char>| #[trigger] env.contains_key(x) implies holds_var(
        h,
        vars,
        x,
        env[x],
    ) by {
        assert(holds_var(g, vars, x, env[x]));
        let p = var_of(vars, x)->Some_0;
        latest_kept(g.steps, h.steps, p, h.steps.len());
        value_stays(g, h, latest(g.steps, p, g.steps.len())->Some_0, env[x]);
    }
}

/// A variable comes to what it is bound to.
proof fn variable_means(g: Gen, vars: Vars, x: Seq<char>, v: Val)
    ensures
        adds(g, variable(g, vars, x).0),
        variable(g, vars, x).0.atoms == g.atoms,
        goes_on(variable(g, vars, x).0) ==> goes_on(g),
        goes_on(variable(g, vars, x).0) && holds_var(g, vars, x, v) ==> has_value(
            variable(g, vars, x).0,
            variable(g, vars, x).1,
            v,
        ),
{
    reveal(variable);
    match var_of(vars, x) {
        Some(p) => {
            emit_adds(g, Step::UseVar(p));
            let (h, r) = emit(g, Step::UseVar(p));
            if goes_on(h) && holds_var(g, vars, x, v) {
                let y = latest(g.steps, p, g.steps.len())->Some_0;
                latest_stays(g.steps, h.steps, p, g.steps.len());
                value_stays(g, h, y, v);
                assert(h.steps[r as int] == Step::UseVar(p));
            }
        },
        None => {
            emit_adds(g, Step::Word(nil_word()));
        },
    }
}

/// A bound variable holds its value, and the others hold theirs.
proof fn bound_var_means(g: Gen, vars: Vars, x: Seq<char>, value: usize, v: Val, env: Env)
    requires
        !env.contains_key(x),
    ensures
        ({
            let (h, vars1) = bound_var(g, vars, x, value);
            &&& adds(g, h)
            &&& h.atoms == g.atoms
            &&& goes_on(h) ==> goes_on(g)
            &&& goes_on(h) && has_value(g, value, v) && hold(g, vars, env) ==> hold(
                h,
                vars1,
                env.insert(x, v),
            )
        }),
{
    reveal(bound_var);
    reveal(emit);
    reveal(undisturbed);
    let (g1, p) = emit(g, Step::DeclareVar);
    let (h, vars1) = bound_var(g, vars, x, value);
    assert(h.steps == g.steps.push(Step::DeclareVar).push(Step::DefVar(p, value)));
    assert(g.steps =~= h.steps.take(g.steps.len() as int));
    assert(adds(g, h));
    if goes_on(h) && has_value(g, value, v) && hold(g, vars, env) {
        hold_on(g, h, vars, env);
        value_stays(g, h, value, v);
        assert(latest(h.steps, p, h.steps.len()) == Some(value));
        let e = env.insert(x, v);
        assert(vars1.drop_last() =~= vars);
        assert forall|y: Seq<char>| #[trigger] e.contains_key(y) implies holds_var(
            h,
            vars1,
            y,
            e[y],
        ) by {
            if y != x {
                assert(env.contains_key(y));
                assert(holds_var(h, vars, y, env[y]));
            }
        }
    }
}

/// Whether the first atoms are the truths.
pub open spec fn has_truths(g: Gen) -> bool {
    g.atoms.len() >= 2 && g.atoms[0] == "true"@ && g.atoms[1] == "false"@
}

proof fn lit_means(g: Gen, l: Literal, v: Val)
    requires
        has_truths(g),
        match l {
            Literal::Int(n) => v == Val::Int(n) && small(n),
            Literal::Atom(a) => (a == "true"@ || a == "false"@) && v == Val::Atom(a),
            Literal::Nil => v == Val::Nil,
            _ => false,
        },
    ensures
        adds(g, lit(g, l).0),
        has_truths(lit(g, l).0),
        goes_on(lit(g, l).0) ==> goes_on(g) && has_value(lit(g, l).0, lit(g, l).1, v),
{
    reveal(lit);
    words_stand_for_values(v);
    truths_apart();
    match l {
        Literal::Int(n) => {
            word_emitted(g, int_word(n as i64));
            emit_adds(g, Step::Word(int_word(n as i64)));
        },
        Literal::Atom(a) => {
            let (atoms, i) = interned(g.atoms, a);
            assert(g.atoms.contains(g.atoms[0]));
            assert(g.atoms.contains(g.atoms[1]));
            assert(crate::hashing::place(g.atoms, "true"@) == 0);
            assert(g.atoms.drop_first()[0] == "false"@);
            assert(crate::hashing::place(g.atoms.drop_first(), "false"@) == 0);
            assert(crate::hashing::place(g.atoms, "false"@) == 1);
            assert((0i64 << 3) | 3 == 3) by (bit_vector);
            assert((1i64 << 3) | 3 == 11) by (bit_vector);
            word_emitted(g, atom_word(i as usize));
            emit_adds(g, Step::Word(atom_word(i as usize)));
        },
        _ => {
            word_emitted(g, nil_word());
            emit_adds(g, Step::Word(nil_word()));
        },
    }
}

/// Running the native code of an expression gives the word of its value, where the
/// variables hold what they are bound to.
#[verifier::rlimit(60)]
#[verifier::spinoff_prover]
pub proof fn native_means(e: Core, g: Gen, vars: Vars, home: Seq<char>, env: Env, w: World)
    requires
        is_math(e, env, w),
        has_truths(g),
    ensures
        adds(g, native(e, g, vars, home).0),
        has_truths(native(e, g, vars, home).0),
        goes_on(native(e, g, vars, home).0) ==> goes_on(g) && (hold(g, vars, env) ==> has_value(
            native(e, g, vars, home).0,
            native(e, g, vars, home).2,
            run(e, env, w)->Some_0,
        ) && hold(native(e, g, vars, home).0, native(e, g, vars, home).1, env)),
    decreases e,
{
    let (h, vars2, r) = native(e, g, vars, home);
    match e {
        Core::Lit(l) => {
            lit_means(g, l, run(e, env, w)->Some_0);
            if goes_on(h) && hold(g, vars, env) {
                hold_on(g, h, vars, env);
            }
        },
        Core::Var(x) => {
            variable_means(g, vars, x, env[x]);
            if goes_on(h) && hold(g, vars, env) {
                assert(env.contains_key(x));
                hold_on(g, h, vars, env);
            }
        },
        Core::Let(s, body) => {
            let x = s[0].0;
            let v = run(s[0].1, env, w)->Some_0;
            let inner = env.insert(x, v);
            assert(s.drop_last() =~= Seq::empty());
            assert(s.last() == s[0]);
            assert(run_values(s.drop_last(), env, env, w) == Some(env));
            assert(run_values(s, env, env, w) == Some(inner));
            assert(run(e, env, w) == run(*body, inner, w));
            assert(native_bindings(s.drop_last(), g, vars, home) == (g, vars));
            native_means(s[0].1, g, vars, home, env, w);
            let (g1, vars1, y) = native(s[0].1, g, vars, home);
            bound_var_means(g1, vars1, x, y, v, env);
            let (g2, vars3) = bound_var(g1, vars1, x, y);
            assert(native_bindings(s, g, vars, home) == (g2, vars3));
            native_means(*body, g2, vars3, home, inner, w);
            adds_on(g, g1, g2);
            adds_on(g, g2, h);
            if goes_on(h) && hold(g, vars, env) {
                assert forall|z: Seq<char>| #[trigger] env.contains_key(z) implies holds_var(
                    h,
                    vars2,
                    z,
                    env[z],
                ) by {
                    assert(inner.contains_key(z));
                }
            }
        },
        Core::Sequence(a, b) => {
            native_means(*a, g, vars, home, env, w);
            let (g1, vars1, _) = native(*a, g, vars, home);
            native_means(*b, g1, vars1, home, env, w);
            adds_on(g, g1, h);
        },
        Core::Call(m, f, args) => {
            let (g1, vars1, vals) = native_all(args, g, vars, home);
            all_mean(args, g, vars, home, env, w);
            erlang_is_no_list();
            let s = run_all(args, env, w)->Some_0;
            assert(run(e, env, w) == erlang(f, s));
            bif_means(f, vals, g1, s);
            adds_on(g, g1, h);
            if goes_on(h) && hold(g, vars, env) {
                hold_on(g1, h, vars1, env);
            }
        },
        _ => {},
    }
}

proof fn erlang_is_no_list()
    ensures
        "erlang"@ != "lists"@,
{
    reveal_strlit("erlang");
    reveal_strlit("lists");
    assert("erlang"@.len() != "lists"@.len());
}

proof fn all_mean(s: Seq<Core>, g: Gen, vars: Vars, home: Seq<char>, env: Env, w: World)
    requires
        forall|i: int| 0 <= i < s.len() ==> is_math(#[trigger] s[i], env, w),
        has_truths(g),
    ensures
        adds(g, native_all(s, g, vars, home).0),
        has_truths(native_all(s, g, vars, home).0),
        run_all(s, env, w) matches Some(v) && v.len() == s.len() && native_all(
            s,
            g,
            vars,
            home,
        ).2.len() == s.len() && (goes_on(native_all(s, g, vars, home).0) ==> goes_on(g) && (hold(
            g,
            vars,
            env,
        ) ==> have_values(
            native_all(s, g, vars, home).0,
            native_all(s, g, vars, home).2,
            v,
        ) && hold(native_all(s, g, vars, home).0, native_all(s, g, vars, home).1, env))),
    decreases s,
{
    if s.len() == 0 {
        assert(g.steps.is_prefix_of(g.steps));
        undisturbed_itself(g.steps);
    } else {
        let front = s.drop_last();
        assert forall|i: int| 0 <= i < front.len() implies is_math(
            #[trigger] front[i],
            env,
            w,
        ) by {
            assert(front[i] == s[i]);
        }
        all_mean(front, g, vars, home, env, w);
        let (g1, vars1, xs) = native_all(front, g, vars, home);
        assert(is_math(s[s.len() - 1], env, w));
        native_means(s.last(), g1, vars1, home, env, w);
        let (h, vars2, x) = native(s.last(), g1, vars1, home);
        adds_on(g, g1, h);
        let v = run_all(front, env, w)->Some_0;
        let u = run(s.last(), env, w)->Some_0;
        assert(native_all(s, g, vars, home) == (h, vars2, xs.push(x)));
        if goes_on(h) && hold(g, vars, env) {
            assert forall|j: int| 0 <= j < xs.push(x).len() implies has_value(
                h,
                #[trigger] xs.push(x)[j],
                v.push(u)[j],
            ) by {
                if j < xs.len() {
                    assert(has_value(g1, xs[j], v[j]));
                    value_stays(g1, h, xs[j], v[j]);
                }
            }
        }
    }
}

} // verus!
