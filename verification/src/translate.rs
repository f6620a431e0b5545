//! Translating the functions of a module, each to a module of its own that is
//! named by the function's content address.
use vstd::prelude::*;
use crate::ast::{Function, Item, Module};
use crate::erlang::{module_of, CoreMod, CoreModule};
use crate::fingerprint::key_of;
use crate::fresh::FreshVars;
use crate::graph::{graph_of, is_graph};
use crate::hash_pass::{
    compute_function_hashes, dup_resolved, module_for, place_of, signatures_of, templates_end,
    translate_function, FunctionHashes,
};
use crate::hashing::{
    addresses, applied, apply_module, asks, column, functions_in, key_text, keys_in, known, place,
    unit_of, ContentHashes, HashRequest, Hashes, Request, Unit,
};
use crate::lower::{locals_of, resolved_of, LocalFunctionSymbol, ResolvedSymbol, SymbolTable, Symbols};
use crate::names::text_of;
use crate::order::{rows_of, sort_rows, sorted_rows, Row};
use crate::text::{same, texts};

verus! {

/// What is known of a function's module.
#[derive(Debug)]
pub struct FunctionModuleMetadata {
    pub source_name: String,
    pub body_hash: String,
    pub abi_hash: String,
    pub module_name: String,
    pub module_hash: String,
    pub build_key: String,
    pub arity: usize,
    pub dependencies: Vec<String>,
}

/// The model of [`FunctionModuleMetadata`].
pub struct Meta {
    pub source_name: Seq<char>,
    pub body_hash: Seq<char>,
    pub abi_hash: Seq<char>,
    pub module_name: Seq<char>,
    pub module_hash: Seq<char>,
    pub build_key: Seq<char>,
    pub arity: nat,
    pub dependencies: Seq<Seq<char>>,
}

impl FunctionModuleMetadata {
    pub open spec fn model(self) -> Meta {
        Meta {
            source_name: self.source_name@,
            body_hash: self.body_hash@,
            abi_hash: self.abi_hash@,
            module_name: self.module_name@,
            module_hash: self.module_hash@,
            build_key: self.build_key@,
            arity: self.arity as nat,
            dependencies: texts(self.dependencies@),
        }
    }
}

/// The modules of a program's functions.
#[derive(Debug)]
pub struct TranslatedFunctionModules {
    pub modules: Vec<CoreModule>,
    pub metadata: Vec<FunctionModuleMetadata>,
    pub entry_module: Option<String>,
    pub entry_arity: Option<usize>,
}

/// The model of [`TranslatedFunctionModules`].
pub struct Translation {
    pub modules: Seq<CoreMod>,
    pub metadata: Seq<Meta>,
    pub entry_module: Option<Seq<char>>,
    pub entry_arity: Option<usize>,
}

pub open spec fn modules_of(v: Seq<CoreModule>) -> Seq<CoreMod> {
    Seq::new(v.len(), |i: int| module_of(v[i]))
}

pub open spec fn metas_of(v: Seq<FunctionModuleMetadata>) -> Seq<Meta> {
    Seq::new(v.len(), |i: int| v[i].model())
}

impl TranslatedFunctionModules {
    pub open spec fn model(self) -> Translation {
        Translation {
            modules: modules_of(self.modules@),
            metadata: metas_of(self.metadata@),
            entry_module: text_of(self.entry_module),
            entry_arity: self.entry_arity,
        }
    }
}

/// The functions that calls may name once the addresses are known.
pub open spec fn addressed(
    u: Unit,
    h: Hashes,
    fs: Seq<Function>,
    resolved: Seq<(Seq<char>, nat, Seq<char>)>,
) -> SymbolTable {
    SymbolTable {
        functions: Seq::new(
            fs.len(),
            |i: int|
                (fs[i].name@, fs[i].params@.len(), h.artifact[place(u.keys, key_text(fs[i])) as int]),
        ),
        resolved,
    }
}

/// The functions' modules in order, and the next free variable.
pub open spec fn translated(u: Unit, h: Hashes, fs: Seq<Function>, tab: SymbolTable, n: nat) -> (
    Seq<CoreMod>,
    nat,
)
    decreases fs.len(),
{
    if fs.len() == 0 {
        (Seq::empty(), n)
    } else {
        let (front, n1) = translated(u, h, fs.drop_last(), tab, n);
        let (def, n2) = applied(fs.last(), tab, n1);
        (
            front.push(apply_module(h.artifact[place(u.keys, key_text(fs.last())) as int], def)),
            n2,
        )
    }
}

/// The artifacts that function `i` calls, one row each.
pub open spec fn callee_rows(u: Unit, h: Hashes, i: int) -> Seq<Row> {
    Seq::new(u.calls[i].len(), |k: int| seq![h.artifact[u.calls[i][k]]])
}

/// What is known of the module of a function.
pub open spec fn meta(u: Unit, h: Hashes, f: Function) -> Meta {
    let i = place(u.keys, key_text(f)) as int;
    Meta {
        source_name: f.name@,
        body_hash: h.body[i],
        abi_hash: h.abi[i],
        module_name: h.artifact[i],
        module_hash: h.artifact[i],
        build_key: h.build[i],
        arity: f.params@.len(),
        dependencies: column(sorted_rows(callee_rows(u, h, i)), 0),
    }
}

/// The module of the function that a program starts with: `main` without
/// parameters.
pub open spec fn entry(u: Unit, h: Hashes, fs: Seq<Function>) -> Option<Seq<char>>
    decreases fs.len(),
{
    if fs.len() == 0 {
        None
    } else if fs.last().name@ == "main"@ && fs.last().params@.len() == 0 {
        Some(h.artifact[place(u.keys, key_text(fs.last())) as int])
    } else {
        entry(u, h, fs.drop_last())
    }
}

/// The translation of a module's functions, given their addresses.
pub open spec fn outcome(
    u: Unit,
    h: Hashes,
    fs: Seq<Function>,
    resolved: Seq<(Seq<char>, nat, Seq<char>)>,
    n: nat,
) -> Translation {
    Translation {
        modules: translated(u, h, fs, addressed(u, h, fs, resolved), n).0,
        metadata: Seq::new(fs.len(), |i: int| meta(u, h, fs[i])),
        entry_module: entry(u, h, fs),
        entry_arity: if entry(u, h, fs) is Some {
            Some(0)
        } else {
            None
        },
    }
}

/// Every function becomes a module of its own, which has the address of the
/// function's artifact as its name and `apply` as its only function.
pub proof fn one_module_per_function(
    u: Unit,
    h: Hashes,
    fs: Seq<Function>,
    resolved: Seq<(Seq<char>, nat, Seq<char>)>,
    n: nat,
)
    ensures
        ({
            let t = outcome(u, h, fs, resolved, n);
            &&& t.modules.len() == fs.len()
            &&& t.metadata.len() == fs.len()
            &&& forall|i: int|
                0 <= i < fs.len() ==> (#[trigger] t.modules[i]).name == t.metadata[i].module_name
                    && t.modules[i].functions.len() == 1 && t.modules[i].functions[0].name
                    == "apply"@ && t.modules[i].functions[0].arity == fs[i].params@.len()
        }),
{
    lemma_translated(u, h, fs, addressed(u, h, fs, resolved), n);
}

proof fn lemma_translated(u: Unit, h: Hashes, fs: Seq<Function>, tab: SymbolTable, n: nat)
    ensures
        translated(u, h, fs, tab, n).0.len() == fs.len(),
        forall|i: int|
            0 <= i < fs.len() ==> (#[trigger] translated(u, h, fs, tab, n).0[i]).name
                == h.artifact[place(u.keys, key_text(fs[i])) as int] && translated(
                u,
                h,
                fs,
                tab,
                n,
            ).0[i].functions.len() == 1 && translated(u, h, fs, tab, n).0[i].functions[0].name
                == "apply"@ && translated(u, h, fs, tab, n).0[i].functions[0].arity
                == fs[i].params@.len(),
    decreases fs.len(),
{
    if fs.len() > 0 {
        let front = fs.drop_last();
        lemma_translated(u, h, front, tab, n);
        assert forall|i: int| 0 <= i < front.len() implies front[i] == fs[i] by {
        }
    }
}

/// The entry of a program is the module of its last function `main` without
/// parameters, and there is none only where there is no such function.
pub proof fn entry_is_main(
    u: Unit,
    h: Hashes,
    fs: Seq<Function>,
    resolved: Seq<(Seq<char>, nat, Seq<char>)>,
    n: nat,
)
    ensures
        ({
            let t = outcome(u, h, fs, resolved, n);
            match t.entry_module {
                Some(name) => exists|i: int|
                    0 <= i < fs.len() && (#[trigger] fs[i]).name@ == "main"@
                        && fs[i].params@.len() == 0 && t.modules[i].name == name,
                None => forall|i: int|
                    0 <= i < fs.len() ==> (#[trigger] fs[i]).name@ != "main"@
                        || fs[i].params@.len() > 0,
            }
        }),
{
    let tab = addressed(u, h, fs, resolved);
    lemma_translated(u, h, fs, tab, n);
    lemma_entry(u, h, fs);
    let t = outcome(u, h, fs, resolved, n);
    if t.entry_module is Some {
        let i = choose|i: int|
            0 <= i < fs.len() && (#[trigger] fs[i]).name@ == "main"@ && fs[i].params@.len() == 0
                && entry(u, h, fs) == Some(h.artifact[place(u.keys, key_text(fs[i])) as int]);
        assert(t.modules[i].name == translated(u, h, fs, tab, n).0[i].name);
    }
}

proof fn lemma_entry(u: Unit, h: Hashes, fs: Seq<Function>)
    ensures
        match entry(u, h, fs) {
            Some(name) => exists|i: int|
                0 <= i < fs.len() && (#[trigger] fs[i]).name@ == "main"@ && fs[i].params@.len() == 0
                    && entry(u, h, fs) == Some(
                    h.artifact[place(u.keys, key_text(fs[i])) as int],
                ),
            None => forall|i: int|
                0 <= i < fs.len() ==> (#[trigger] fs[i]).name@ != "main"@ || fs[i].params@.len()
                    > 0,
        },
    decreases fs.len(),
{
    if fs.len() > 0 {
        let front = fs.drop_last();
        lemma_entry(u, h, front);
        if fs.last().name@ == "main"@ && fs.last().params@.len() == 0 {
            assert(fs[fs.len() - 1] == fs.last());
        } else if entry(u, h, front) is Some {
            let i = choose|i: int|
                0 <= i < front.len() && (#[trigger] front[i]).name@ == "main"@
                    && front[i].params@.len() == 0 && entry(u, h, front) == Some(
                    h.artifact[place(u.keys, key_text(front[i])) as int],
                );
            assert(fs[i] == front[i]);
        } else {
            assert forall|i: int| 0 <= i < fs.len() implies (#[trigger] fs[i]).name@ != "main"@
                || fs[i].params@.len() > 0 by {
                if i < front.len() {
                    assert(fs[i] == front[i]);
                }
            }
        }
    }
}

/// Whether the variables start at `n` for the modules: after the last template,
/// or where they stood if there was none.
pub open spec fn starts(u: Unit, h: Hashes, n0: nat, n: nat) -> bool {
    if u.keys.len() == 0 {
        n == n0
    } else {
        templates_end(u, h, n)
    }
}

/// Whether `t` is the translation of a module by a translator that held `prev`
/// and whose next free variable was `n0`; `n1` is that variable afterwards.
pub open spec fn translation_of(
    m: Module,
    prev: Seq<(Seq<char>, nat)>,
    resolved: Seq<(Seq<char>, nat, Seq<char>)>,
    book: Seq<(Request, Seq<char>)>,
    n0: nat,
    t: Translation,
    n1: nat,
) -> bool {
    exists|h: Hashes, n: nat| #[trigger]
        translation_with(m, prev, resolved, book, n0, t, n1, h, n)
}

pub open spec fn translation_with(
    m: Module,
    prev: Seq<(Seq<char>, nat)>,
    resolved: Seq<(Seq<char>, nat, Seq<char>)>,
    book: Seq<(Request, Seq<char>)>,
    n0: nat,
    t: Translation,
    n1: nat,
    h: Hashes,
    n: nat,
) -> bool {
    let u = unit_of(m, prev, resolved);
    let fs = functions_in(m.items@);
    &&& addresses(u, book, h)
    &&& starts(u, h, n0, n)
    &&& t == outcome(u, h, fs, resolved, n)
    &&& n1 == translated(u, h, fs, addressed(u, h, fs, resolved), n).1
}

/// The name of a module, or `main`.
pub open spec fn module_title(m: Module) -> Seq<char> {
    match m.name {
        Some(name) => name@,
        None => "main"@,
    }
}

/// Translates modules.
pub struct Translator {
    fresh: FreshVars,
    module_name: String,
    functions: Vec<LocalFunctionSymbol>,
    resolved: Vec<ResolvedSymbol>,
}

proof fn lemma_key_in(fs: Seq<Function>, i: int)
    requires
        0 <= i < fs.len(),
    ensures
        keys_in(fs).contains(key_text(fs[i])),
    decreases fs.len(),
{
    let front = keys_in(fs.drop_last());
    if i < fs.len() - 1 {
        lemma_key_in(fs.drop_last(), i);
        let k = choose|k: int| 0 <= k < front.len() && front[k] == key_text(fs[i]);
        assert(keys_in(fs)[k] == key_text(fs[i]));
    } else if !front.contains(key_text(fs.last())) {
        assert(keys_in(fs)[front.len() as int] == key_text(fs.last()));
    }
}

/// The place of a module's function among its keys.
fn place_in(
    h: &FunctionHashes,
    func: &Function,
    Ghost(u): Ghost<Unit>,
    Ghost(fs): Ghost<Seq<Function>>,
    Ghost(i): Ghost<int>,
) -> (r: usize)
    requires
        texts(h.keys@) == u.keys,
        u.keys == keys_in(fs),
        0 <= i < fs.len(),
        fs[i] == *func,
    ensures
        r == place(u.keys, key_text(*func)),
        r < u.keys.len(),
{
    proof {
        lemma_key_in(fs, i);
        crate::hash_pass::lemma_place_found(u.keys, key_text(*func));
    }
    place_of(&h.keys, key_of(func.name.as_str(), func.params.len()).as_str())
}

fn symbol(h: &FunctionHashes, func: &Function, i: usize) -> (r: LocalFunctionSymbol)
    requires
        i < h.table.body@.len(),
        i < h.table.abi@.len(),
        i < h.table.artifact@.len(),
        i < h.table.build@.len(),
    ensures
        r.source_name@ == func.name@,
        r.arity == func.params@.len(),
        r.module_name@ == h.table.model().artifact[i as int],
{
    LocalFunctionSymbol {
        source_name: func.name.clone(),
        body_hash: h.table.body[i].clone(),
        abi_hash: h.table.abi[i].clone(),
        artifact_hash: h.table.artifact[i].clone(),
        build_key: h.table.build[i].clone(),
        module_name: h.table.artifact[i].clone(),
        arity: func.params.len(),
    }
}

/// The artifacts that function `i` calls, in order.
fn dependencies(h: &FunctionHashes, i: usize, Ghost(u): Ghost<Unit>) -> (r: Vec<String>)
    requires
        graph_of(h.calls@) == u.calls,
        is_graph(u.calls),
        i < u.calls.len(),
        h.table.artifact@.len() == u.calls.len(),
    ensures
        texts(r@) == column(sorted_rows(callee_rows(u, h.table.model(), i as int)), 0),
{
    let ghost hm = h.table.model();
    let mut rows: Vec<Vec<String>> = Vec::new();
    let mut k: usize = 0;
    while k < h.calls[i].len()
        invariant
            graph_of(h.calls@) == u.calls,
            is_graph(u.calls),
            i < u.calls.len(),
            h.table.artifact@.len() == u.calls.len(),
            hm == h.table.model(),
            k <= h.calls@[i as int]@.len(),
            rows_of(rows@) == callee_rows(u, hm, i as int).take(k as int),
        decreases h.calls@[i as int]@.len() - k,
    {
        let c = h.calls[i][k];
        assert(u.calls[i as int][k as int] == c);
        let mut row: Vec<String> = Vec::new();
        row.push(h.table.artifact[c].clone());
        let ghost before = rows_of(rows@);
        assert(texts(row@) =~= seq![hm.artifact[c as int]]);
        rows.push(row);
        assert(rows_of(rows@) =~= before.push(texts(row@)));
        assert(rows_of(rows@) =~= callee_rows(u, hm, i as int).take(k as int + 1));
        k = k + 1;
    }
    assert(callee_rows(u, hm, i as int).take(k as int) =~= callee_rows(u, hm, i as int));
    let sorted = sort_rows(rows);
    let mut out: Vec<String> = Vec::new();
    let mut j: usize = 0;
    proof {
        crate::hash_pass::lemma_sorted_width(callee_rows(u, hm, i as int), 1);
    }
    let ghost all = rows_of(sorted@);
    while j < sorted.len()
        invariant
            j <= sorted@.len(),
            all == rows_of(sorted@),
            forall|q: int| 0 <= q < all.len() ==> (#[trigger] all[q]).len() == 1,
            texts(out@) == column(all, 0).take(j as int),
        decreases sorted@.len() - j,
    {
        assert(all[j as int].len() == 1);
        let ghost before = texts(out@);
        out.push(sorted[j][0].clone());
        assert(texts(out@) =~= before.push(all[j as int][0]));
        assert(texts(out@) =~= column(all, 0).take(j as int + 1));
        j = j + 1;
    }
    assert(column(all, 0).take(j as int) =~= column(all, 0));
    out
}

fn metadata(h: &FunctionHashes, func: &Function, i: usize, Ghost(u): Ghost<Unit>) -> (r:
    FunctionModuleMetadata)
    requires
        graph_of(h.calls@) == u.calls,
        is_graph(u.calls),
        u.calls.len() == u.keys.len(),
        crate::hashing::sized(u, h.table.model()),
        i < u.keys.len(),
        i == place(u.keys, key_text(*func)),
    ensures
        r.model() == meta(u, h.table.model(), *func),
{
    FunctionModuleMetadata {
        source_name: func.name.clone(),
        body_hash: h.table.body[i].clone(),
        abi_hash: h.table.abi[i].clone(),
        module_name: h.table.artifact[i].clone(),
        module_hash: h.table.artifact[i].clone(),
        build_key: h.table.build[i].clone(),
        arity: func.params.len(),
        dependencies: dependencies(h, i, Ghost(u)),
    }
}

/// The symbols of a module's functions.
fn function_symbols(h: &FunctionHashes, module: &Module, Ghost(u): Ghost<Unit>) -> (r: Vec<
    LocalFunctionSymbol,
>)
    requires
        texts(h.keys@) == u.keys,
        u.keys == keys_in(functions_in(module.items@)),
        crate::hashing::sized(u, h.table.model()),
    ensures
        locals_of(r@) == addressed(
            u,
            h.table.model(),
            functions_in(module.items@),
            Seq::empty(),
        ).functions,
{
    let ghost fs = functions_in(module.items@);
    let ghost none = Seq::<(Seq<char>, nat, Seq<char>)>::empty();
    let mut out: Vec<LocalFunctionSymbol> = Vec::new();
    let mut i: usize = 0;
    assert(locals_of(out@) =~= addressed(u, h.table.model(), functions_in(module.items@.take(0)),
        none).functions);
    while i < module.items.len()
        invariant
            i <= module.items@.len(),
            texts(h.keys@) == u.keys,
            fs == functions_in(module.items@),
            u.keys == keys_in(fs),
            crate::hashing::sized(u, h.table.model()),
            none == Seq::<(Seq<char>, nat, Seq<char>)>::empty(),
            locals_of(out@) == addressed(
                u,
                h.table.model(),
                functions_in(module.items@.take(i as int)),
                none,
            ).functions,
        decreases module.items@.len() - i,
    {
        assert(module.items@.take(i as int + 1).drop_last() =~= module.items@.take(i as int));
        match &module.items[i] {
            Item::Function(f) => {
                let ghost front = functions_in(module.items@.take(i as int));
                proof {
                    lemma_functions_prefix(module.items@, i as int + 1);
                    assert(functions_in(module.items@.take(i as int + 1)) == front.push(*f));
                    assert(front.push(*f)[front.len() as int] == *f);
                }
                let p = place_in(h, f, Ghost(u), Ghost(fs), Ghost(front.len() as int));
                let ghost before = locals_of(out@);
                let s = symbol(h, f, p);
                out.push(s);
                assert(locals_of(out@) =~= before.push((f.name@, f.params@.len(), s.module_name@)));
                assert(locals_of(out@) =~= addressed(
                    u,
                    h.table.model(),
                    front.push(*f),
                    none,
                ).functions);
            },
            _ => {},
        }
        i = i + 1;
    }
    assert(module.items@.take(i as int) =~= module.items@);
    out
}

/// The modules of a module's functions, given their addresses.
#[verifier::spinoff_prover]
#[verifier::rlimit(50)]
fn function_modules(
    h: &FunctionHashes,
    module: &Module,
    syms: &Symbols,
    fresh: &mut FreshVars,
    Ghost(u): Ghost<Unit>,
) -> (r: TranslatedFunctionModules)
    requires
        texts(h.keys@) == u.keys,
        graph_of(h.calls@) == u.calls,
        is_graph(u.calls),
        u.calls.len() == u.keys.len(),
        u.keys == keys_in(functions_in(module.items@)),
        crate::hashing::sized(u, h.table.model()),
        syms.table() == addressed(
            u,
            h.table.model(),
            functions_in(module.items@),
            resolved_of(syms.resolved@),
        ),
    ensures
        r.model() == outcome(
            u,
            h.table.model(),
            functions_in(module.items@),
            resolved_of(syms.resolved@),
            old(fresh).next(),
        ),
        final(fresh).next() == translated(
            u,
            h.table.model(),
            functions_in(module.items@),
            syms.table(),
            old(fresh).next(),
        ).1,
{
    let ghost fs = functions_in(module.items@);
    let ghost hm = h.table.model();
    let ghost tab = syms.table();
    let ghost n = fresh.next();
    let mut modules: Vec<CoreModule> = Vec::new();
    let mut metas: Vec<FunctionModuleMetadata> = Vec::new();
    let mut entry_module: Option<String> = None;
    let mut entry_arity: Option<usize> = None;
    let mut i: usize = 0;
    assert(metas_of(metas@) =~= Seq::empty());
    assert(modules_of(modules@) =~= Seq::empty());
    while i < module.items.len()
        invariant
            i <= module.items@.len(),
            texts(h.keys@) == u.keys,
            graph_of(h.calls@) == u.calls,
            is_graph(u.calls),
            u.calls.len() == u.keys.len(),
            fs == functions_in(module.items@),
            u.keys == keys_in(fs),
            hm == h.table.model(),
            crate::hashing::sized(u, hm),
            syms.table() == tab,
            (modules_of(modules@), fresh.next()) == translated(
                u,
                hm,
                functions_in(module.items@.take(i as int)),
                tab,
                n,
            ),
            metas_of(metas@) == Seq::new(
                functions_in(module.items@.take(i as int)).len(),
                |k: int| meta(u, hm, functions_in(module.items@.take(i as int))[k]),
            ),
            text_of(entry_module) == entry(u, hm, functions_in(module.items@.take(i as int))),
            entry_arity == (if entry_module is Some {
                Some(0usize)
            } else {
                None
            }),
        decreases module.items@.len() - i,
    {
        assert(module.items@.take(i as int + 1).drop_last() =~= module.items@.take(i as int));
        match &module.items[i] {
            Item::Function(f) => {
                let ghost front = functions_in(module.items@.take(i as int));
                let ghost both = front.push(*f);
                proof {
                    lemma_functions_prefix(module.items@, i as int + 1);
                    assert(functions_in(module.items@.take(i as int + 1)) == both);
                    assert(both[front.len() as int] == *f);
                    assert(both.drop_last() =~= front);
                    assert(both.last() == *f);
                }
                let p = place_in(h, f, Ghost(u), Ghost(fs), Ghost(front.len() as int));
                let ghost modules0 = modules@;
                let ghost metas0 = metas@;
                let def = translate_function(f, syms, fresh);
                let m = module_for(h.table.artifact[p].as_str(), def);
                modules.push(m);
                assert(modules_of(modules@) =~= modules_of(modules0).push(module_of(m)));
                let md = metadata(h, f, p, Ghost(u));
                metas.push(md);
                assert(metas_of(metas@) =~= Seq::new(
                    both.len(),
                    |k: int| meta(u, hm, both[k]),
                )) by {
                    assert(metas_of(metas@) =~= metas_of(metas0).push(md.model()));
                }
                if f.params.len() == 0 && same(f.name.as_str(), "main") {
                    entry_module = Some(h.table.artifact[p].clone());
                    entry_arity = Some(0);
                }
            },
            _ => {},
        }
        i = i + 1;
    }
    assert(module.items@.take(i as int) =~= module.items@);
    let t = TranslatedFunctionModules { modules, metadata: metas, entry_module, entry_arity };
    proof {
        assert(t.model().metadata =~= outcome(u, hm, fs, tab.resolved, n).metadata);
    }
    t
}

/// The functions of the first items come first.
proof fn lemma_functions_prefix(items: Seq<Item>, i: int)
    requires
        0 <= i <= items.len(),
    ensures
        functions_in(items.take(i)).len() <= functions_in(items).len(),
        forall|k: int|
            0 <= k < functions_in(items.take(i)).len() ==> #[trigger] functions_in(items.take(i))[k]
                == functions_in(items)[k],
    decreases items.len(),
{
    if i == items.len() {
        assert(items.take(i) =~= items);
    } else {
        lemma_functions_prefix(items.drop_last(), i);
        assert(items.drop_last().take(i) =~= items.take(i));
    }
}

impl Translator {
    /// The number of the next free variable.
    pub closed spec fn next(self) -> nat {
        self.fresh.next()
    }

    /// The name of the module that was translated last.
    pub closed spec fn title(self) -> Seq<char> {
        self.module_name@
    }

    /// The functions that were translated last.
    pub closed spec fn held(self) -> Seq<(Seq<char>, nat)> {
        signatures_of(self.functions@)
    }

    pub fn new() -> (r: Self)
        ensures
            r.next() == 0,
            r.title() == Seq::<char>::empty(),
            r.held() == Seq::<(Seq<char>, nat)>::empty(),
    {
        let r = Translator {
            fresh: FreshVars::new(),
            module_name: String::new(),
            functions: Vec::new(),
            resolved: Vec::new(),
        };
        assert(r.held() =~= Seq::empty());
        r
    }

    /// Translates a module's first function to a module of its own. A module
    /// without functions becomes an empty one.
    pub fn translate_module(&mut self, module: &Module, hashes: &ContentHashes) -> (r: Result<
        CoreModule,
        HashRequest,
    >)
        ensures
            r matches Ok(c) ==> final(self).title() == module_title(*module) && exists|
                t: Translation,
            |
                translation_of(
                    *module,
                    old(self).held(),
                    Seq::empty(),
                    hashes.model(),
                    old(self).next(),
                    t,
                    final(self).next(),
                ) && module_of(c) == #[trigger] first_of(t, module_title(*module)),
            r matches Err(q) ==> *final(self) == *old(self) && known(hashes.model(), q.model())
                is None && asks(
                unit_of(*module, old(self).held(), Seq::empty()),
                hashes.model(),
                q.model(),
            ),
    {
        match self.translate_function_modules(module, hashes) {
            Ok(translated) => {
                let ghost t = translated.model();
                let mut modules = translated.modules;
                if modules.len() == 0 {
                    let c = CoreModule {
                        name: self.module_name.clone(),
                        exports: Vec::new(),
                        functions: Vec::new(),
                    };
                    proof {
                        assert(module_of(c).exports =~= Seq::empty());
                        assert(module_of(c).functions =~= Seq::empty());
                        assert(module_of(c) == first_of(t, module_title(*module)));
                    }
                    Ok(c)
                } else {
                    let c = modules.swap_remove(0);
                    proof {
                        assert(module_of(c) == first_of(t, module_title(*module)));
                    }
                    Ok(c)
                }
            },
            Err(q) => Err(q),
        }
    }

    /// Translates a module's functions. No function of another module is known.
    pub fn translate_function_modules(&mut self, module: &Module, hashes: &ContentHashes) -> (r:
        Result<TranslatedFunctionModules, HashRequest>)
        ensures
            r matches Ok(t) ==> final(self).title() == module_title(*module) && translation_of(
                *module,
                old(self).held(),
                Seq::empty(),
                hashes.model(),
                old(self).next(),
                t.model(),
                final(self).next(),
            ),
            r is Ok ==> final(self).held() == signatures(functions_in(module.items@)),
            r matches Err(q) ==> *final(self) == *old(self) && known(hashes.model(), q.model())
                is None && asks(
                unit_of(*module, old(self).held(), Seq::empty()),
                hashes.model(),
                q.model(),
            ),
    {
        let none: Vec<ResolvedSymbol> = Vec::new();
        assert(resolved_of(none@) =~= Seq::empty());
        self.translate_function_modules_with_resolution(module, &none, hashes)
    }

    /// Translates a module's functions. A call of a function that the module
    /// does not define goes to the module that `resolved` has for it. Where a
    /// content address is not known the request for it comes back, and the
    /// translator is as before.
    pub fn translate_function_modules_with_resolution(
        &mut self,
        module: &Module,
        resolved: &Vec<ResolvedSymbol>,
        hashes: &ContentHashes,
    ) -> (r: Result<TranslatedFunctionModules, HashRequest>)
        ensures
            r matches Ok(t) ==> final(self).title() == module_title(*module) && translation_of(
                *module,
                old(self).held(),
                resolved_of(resolved@),
                hashes.model(),
                old(self).next(),
                t.model(),
                final(self).next(),
            ),
            r is Ok ==> final(self).held() == signatures(functions_in(module.items@)),
            r matches Err(q) ==> *final(self) == *old(self) && known(hashes.model(), q.model())
                is None && asks(
                unit_of(*module, old(self).held(), resolved_of(resolved@)),
                hashes.model(),
                q.model(),
            ),
    {
        let ghost u = unit_of(*module, self.held(), resolved_of(resolved@));
        let ghost fs = functions_in(module.items@);
        let h = match compute_function_hashes(module, &self.functions, resolved, hashes) {
            Ok(h) => h,
            Err(q) => {
                return Err(q);
            },
        };
        let ghost hm = h.table.model();
        let ghost n0 = self.next();
        let functions = function_symbols(&h, module, Ghost(u));
        let syms = Symbols { functions, resolved: dup_resolved(resolved) };
        let ghost tab = addressed(u, hm, fs, resolved_of(resolved@));
        assert(syms.table() == tab);
        let mut fresh = FreshVars::new();
        let FunctionHashes { keys, calls, table, fresh: templates } = h;
        match templates {
            Some(vars) => {
                fresh = vars;
            },
            None => {
                fresh = self.fresh.dup();
            },
        }
        let ghost n = fresh.next();
        assert(starts(u, hm, n0, n));
        let h = FunctionHashes { keys, calls, table, fresh: None };
        let t = function_modules(&h, module, &syms, &mut fresh, Ghost(u));
        let title: String = match &module.name {
            Some(name) => name.clone(),
            None => "main".to_owned(),
        };
        let ghost n1 = fresh.next();
        let Symbols { functions, resolved: known_symbols } = syms;
        self.fresh = fresh;
        self.module_name = title;
        self.functions = functions;
        self.resolved = known_symbols;
        proof {
            assert(translation_with(
                *module,
                old(self).held(),
                resolved_of(resolved@),
                hashes.model(),
                n0,
                t.model(),
                n1,
                hm,
                n,
            ));
            assert(self.held() =~= signatures(fs)) by {
                assert(locals_of(functions@).len() == fs.len());
                assert forall|k: int| 0 <= k < fs.len() implies self.held()[k] == signatures(
                    fs,
                )[k] by {
                    assert(locals_of(functions@)[k] == tab.functions[k]);
                }
            }
        }
        Ok(t)
    }
}

impl Default for Translator {
    fn default() -> (r: Self)
        ensures
            r.next() == 0,
            r.title() == Seq::<char>::empty(),
            r.held() == Seq::<(Seq<char>, nat)>::empty(),
    {
        Translator::new()
    }
}

/// The names and arities of functions.
pub open spec fn signatures(fs: Seq<Function>) -> Seq<(Seq<char>, nat)> {
    Seq::new(fs.len(), |i: int| (fs[i].name@, fs[i].params@.len()))
}

/// The first module, or an empty one.
pub open spec fn first_of(t: Translation, title: Seq<char>) -> CoreMod {
    if t.modules.len() == 0 {
        CoreMod { name: title, exports: Seq::empty(), functions: Seq::empty() }
    } else {
        t.modules[0]
    }
}

} // verus!
