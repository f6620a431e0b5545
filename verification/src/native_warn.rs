//! What the translation to native code warns of.
use cranelift_object::ObjectModule;
use vstd::prelude::*;
use crate::erlang::CoreModule;
use crate::native::{func_at, Caution, Decl};
use crate::native_build::{
    declare, declared_in, given_of, host_object, is_given, is_said, program_making, symbol_place,
    Declared,
};
use crate::native_compile::{
    all_declarable, as_declared, declarable, declare_all, lemma_place, lemma_sizes,
};
use crate::native_gen::{NativeCompiler, Warning};
use crate::native_program::{is_plan, plan_is_unique, plan_modules, PlanModel};
use crate::native_sound::{
    all_due, distinct, func_at_inside, is_due, plan_symbols_differ, plan_warns_of_what_is_due,
};
use crate::text::{decimal, push_usize};
use crate::translate::modules_of;

verus! {

/// The words of a warning; `words` say why a declaration was refused.
pub open spec fn caution_text(c: Caution, words: Seq<char>) -> Seq<char> {
    match c {
        Caution::Unsupported(func, arity) => "warning: unsupported erlang BIF: erlang:"@ + func
            + "/"@ + decimal(arity),
        Caution::Undeclared(symbol, _) => "warning: failed to declare function "@ + symbol + ": "@
            + words,
    }
}

impl Warning {
    /// The words of a warning; `words` say why a declaration was refused.
    pub fn text(&self, words: &str) -> (r: String)
        ensures
            r@ == caution_text(self.model(), words@),
    {
        match self {
            Warning::Unsupported(func, arity) => {
                let mut t = "warning: unsupported erlang BIF: erlang:".to_owned();
                t.append(func.as_str());
                t.append("/");
                push_usize(&mut t, *arity);
                t
            },
            Warning::Undeclared(symbol, _) => {
                let mut t = "warning: failed to declare function ".to_owned();
                t.append(symbol.as_str());
                t.append(": ");
                t.append(words);
                t
            },
        }
    }
}

/// Whether a text is that of a warning, with words of Cranelift.
pub open spec fn is_told(t: Seq<char>, c: Caution) -> bool {
    match c {
        Caution::Unsupported(_, _) => t == caution_text(c, Seq::empty()),
        Caution::Undeclared(_, _) => exists|words: Seq<char>|
            #[trigger] is_said(words) && t == caution_text(c, words),
    }
}

/// Whether texts are those of warnings, in order.
pub open spec fn are_told(s: Seq<String>, cautions: Seq<Caution>) -> bool {
    &&& s.len() == cautions.len()
    &&& forall|i: int| 0 <= i < s.len() ==> is_told((#[trigger] s[i])@, cautions[i])
}

/// Whether texts are what the translation of a program warns of: nothing if its
/// functions cannot be declared.
pub open spec fn are_warnings(s: Seq<String>, p: PlanModel) -> bool {
    if all_declarable(p.funcs) {
        are_told(s, p.cautions)
    } else {
        s.len() == 0
    }
}

/// A function whose declaration was refused is in the way of another after all
/// functions of the program are declared.
proof fn lemma_due(m: ObjectModule, funcs: Seq<Decl>, symbol: Seq<char>, params: nat)
    requires
        distinct(funcs),
        funcs.len() <= usize::MAX,
        all_declarable(funcs),
        declared_in(m) == Seq::new(funcs.len(), |k: int| as_declared(funcs[k])),
        is_due(Caution::Undeclared(symbol, params), funcs),
    ensures
        !symbol.contains('\0'),
        symbol_place(declared_in(m), symbol) matches Some(i) && (declared_in(m)[i].params != params
            || declared_in(m)[i].results != 1),
{
    let all = declared_in(m);
    let i = func_at(funcs, symbol)->Some_0 as int;
    func_at_inside(funcs, symbol);
    assert(declarable(funcs[i]));
    assert(all[i] == as_declared(funcs[i]));
    lemma_place(all, symbol);
    let k = symbol_place(all, symbol)->Some_0;
    assert(all[k] == as_declared(funcs[k]));
    assert(funcs[k].symbol == funcs[i].symbol);
}

impl NativeCompiler {
    /// What the translation of modules warns of: built-in functions that are
    /// not supported, and calls of functions that cannot be declared, with the
    /// words of Cranelift. Nothing is warned of where this machine gives no
    /// object file.
    pub fn warnings(modules: &Vec<CoreModule>) -> (r: Vec<String>)
        requires
            forall|p: PlanModel| #[trigger] is_plan(modules_of(modules@), p) ==> !p.stuck,
        ensures
            exists|h: Result<ObjectModule, Seq<char>>| #[trigger]
                is_given(h, program_making()) && match h {
                    Ok(_) => forall|p: PlanModel| #[trigger]
                        is_plan(modules_of(modules@), p) ==> are_warnings(r@, p),
                    Err(_) => r@.len() == 0,
                },
            (forall|p: PlanModel| !#[trigger] is_plan(modules_of(modules@), p)) ==> r@.len() == 0,
    {
        let h = host_object();
        assert(is_given(given_of(h), program_making()));
        match h {
            Ok(m) => Self::warnings_into(m, modules),
            Err(_) => Vec::new(),
        }
    }

    /// What the translation of modules into a new object file warns of.
    pub fn warnings_into(m: ObjectModule, modules: &Vec<CoreModule>) -> (r: Vec<String>)
        requires
            declared_in(m) == Seq::<Declared>::empty(),
            forall|p: PlanModel| #[trigger] is_plan(modules_of(modules@), p) ==> !p.stuck,
        ensures
            forall|p: PlanModel| #[trigger]
                is_plan(modules_of(modules@), p) ==> are_warnings(r@, p),
            (forall|p: PlanModel| !#[trigger] is_plan(modules_of(modules@), p)) ==> r@.len() == 0,
    {
        let mut m = m;
        let plan = match plan_modules(modules) {
            Ok(plan) => plan,
            Err(_) => {
                return Vec::new();
            },
        };
        let ghost p = plan.model();
        let ghost mods = modules_of(modules@);
        let mut out: Vec<String> = Vec::new();
        proof {
            assert(is_plan(mods, p));
            assert forall|q: PlanModel| #[trigger] is_plan(mods, q) implies q == p by {
                plan_is_unique(mods, p, q);
            }
            lemma_sizes(plan);
            plan_symbols_differ(mods, p);
            plan_warns_of_what_is_due(mods, p);
        }
        match declare_all(&mut m, &plan.funcs) {
            Ok(_) => {},
            Err(_) => {
                return out;
            },
        }
        let ghost start = declared_in(m);
        let mut i: usize = 0;
        while i < plan.warnings.len()
            invariant
                i <= plan.warnings@.len(),
                p == plan.model(),
                distinct(p.funcs),
                p.funcs.len() <= usize::MAX,
                all_declarable(p.funcs),
                all_due(p.cautions, p.funcs),
                start == Seq::new(p.funcs.len(), |k: int| as_declared(p.funcs[k])),
                declared_in(m) == start,
                out@.len() == i,
                forall|k: int|
                    0 <= k < i ==> is_told((#[trigger] out@[k])@, p.cautions[k]),
            decreases plan.warnings@.len() - i,
        {
            let w = &plan.warnings[i];
            assert(p.cautions[i as int] == w.model());
            match w {
                Warning::Unsupported(_, _) => {
                    let t = w.text("");
                    proof {
                        reveal_strlit("");
                        assert(""@ =~= Seq::empty());
                    }
                    out.push(t);
                },
                Warning::Undeclared(symbol, params) => {
                    proof {
                        reveal(all_due);
                        assert(is_due(p.cautions[i as int], p.funcs));
                        lemma_due(m, p.funcs, symbol@, *params as nat);
                    }
                    match declare(&mut m, symbol.as_str(), *params, 1, false) {
                        Ok(_) => {
                            assert(false);
                        },
                        Err(words) => {
                            assert(is_said(words@));
                            let t = w.text(words.as_str());
                            out.push(t);
                        },
                    }
                },
            }
            i = i + 1;
        }
        out
    }
}

} // verus!
