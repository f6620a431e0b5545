//! Computing the content addresses of a module's functions from those that are
//! known, one component of the call graph after the other.
use vstd::prelude::*;
use crate::ast::{Function, Item, Module};
use crate::canon::canonicalize_core_function;
use crate::components::{
    component, components, components_are_ordered, components_partition, is_call_graph, leads,
    least_keys, lemma_firsts, lemma_is_listed, lemma_least, lemma_listed, level, levels, members,
    rank,
};
use crate::emit::{module_text, Emitter};
use crate::erlang::{fundef_of, module_of, CoreFunDef, CoreModule};
use crate::fingerprint::{
    function_abi_fingerprint, function_fingerprint, function_key, function_print, key_of, LocalKeys,
};
use crate::fresh::FreshVars;
use crate::graph::{
    component_equivalence, graph_of, is_graph, reach_count, reach_from, reaches, reaches_itself,
    same_component,
};
use crate::hashing::{
    abi_request, addresses, applied, apply_module, artifact_request, asks, asks_artifact,
    body_request, column, component_text, definition, functions_in, keys_in, known, locals_for,
    member_rows, member_text, members_text, ordered_rows, outside, outside_rows, part_text, place,
    places, ready, settled, sized, slot, sources_known, template_source, template_table,
    template_target, unit_of, version, ContentHashes, HashRequest, Hashes, Request, Unit,
};
use crate::lower::{
    core_params, resolved_of, translate_expr, LocalFunctionSymbol, ResolvedSymbol, Symbols,
};
use crate::order::{
    comes_before, inserted, rows_of, sort_rows, sort_texts, sorted_rows, sorted_texts,
    sorting_orders, text_irreflexive, text_less, text_total, text_transitive, Row,
};
use crate::text::{dup_strings, join, position, push_usize, same, texts, usize_text};

verus! {

/// The names and arities of functions.
pub open spec fn signatures_of(v: Seq<LocalFunctionSymbol>) -> Seq<(Seq<char>, nat)> {
    Seq::new(v.len(), |i: int| (v[i].source_name@, v[i].arity as nat))
}

/// The addresses found so far.
pub struct HashTable {
    pub body: Vec<String>,
    pub abi: Vec<String>,
    pub artifact: Vec<String>,
    pub build: Vec<String>,
}

impl HashTable {
    pub open spec fn model(self) -> Hashes {
        Hashes {
            body: texts(self.body@),
            abi: texts(self.abi@),
            artifact: texts(self.artifact@),
            build: texts(self.build@),
        }
    }
}

/// A module's functions, and who reaches whom among them.
pub struct Pass<'a> {
    module: &'a Module,
    items: Vec<usize>,
    keys: Vec<String>,
    prints: Vec<String>,
    calls: Vec<Vec<usize>>,
    reach: Vec<Vec<bool>>,
    prev: &'a Vec<LocalFunctionSymbol>,
    resolved: &'a Vec<ResolvedSymbol>,
}

pub proof fn lemma_place(s: Seq<Seq<char>>, x: Seq<char>, i: int)
    requires
        0 <= i < s.len(),
        s[i] == x,
        forall|j: int| 0 <= j < i ==> s[j] != x,
    ensures
        place(s, x) == i,
    decreases s.len(),
{
    if i > 0 {
        let rest = s.drop_first();
        assert forall|j: int| 0 <= j < i - 1 implies rest[j] != x by {
            assert(rest[j] == s[j + 1]);
        }
        lemma_place(rest, x, i - 1);
    }
}

pub proof fn lemma_place_found(s: Seq<Seq<char>>, x: Seq<char>)
    requires
        s.contains(x),
    ensures
        place(s, x) < s.len(),
        s[place(s, x) as int] == x,
    decreases s.len(),
{
    if s[0] != x {
        let rest = s.drop_first();
        let k = choose|k: int| 0 <= k < s.len() && s[k] == x;
        assert(rest[k - 1] == x);
        lemma_place_found(rest, x);
    }
}

pub proof fn lemma_place_missing(s: Seq<Seq<char>>, x: Seq<char>)
    requires
        !s.contains(x),
    ensures
        place(s, x) == s.len(),
    decreases s.len(),
{
    if s.len() > 0 {
        assert(s[0] != x);
        let rest = s.drop_first();
        assert(!rest.contains(x)) by {
            if rest.contains(x) {
                let k = choose|k: int| 0 <= k < rest.len() && rest[k] == x;
                assert(s[k + 1] == x);
            }
        }
        lemma_place_missing(rest, x);
    }
}

/// The first place of a text, or the length if it is not there.
pub fn place_of(v: &Vec<String>, x: &str) -> (r: usize)
    ensures
        r == place(texts(v@), x@),
{
    match position(v, x) {
        Some(i) => {
            proof {
                lemma_place(texts(v@), x@, i as int);
            }
            i
        },
        None => {
            proof {
                lemma_place_missing(texts(v@), x@);
            }
            v.len()
        },
    }
}

pub proof fn lemma_places_in_range(s: Seq<Seq<char>>, xs: Seq<Seq<char>>)
    ensures
        forall|k: int|
            0 <= k < places(s, xs).len() ==> 0 <= #[trigger] places(s, xs)[k] < s.len(),
    decreases xs.len(),
{
    if xs.len() > 0 {
        let front = places(s, xs.drop_last());
        lemma_places_in_range(s, xs.drop_last());
        if s.contains(xs.last()) {
            lemma_place_found(s, xs.last());
        }
        assert forall|k: int| 0 <= k < places(s, xs).len() implies 0 <= #[trigger] places(s, xs)[k]
            < s.len() by {
            if k < front.len() {
                assert(places(s, xs)[k] == front[k]);
            }
        }
    }
}

proof fn lemma_inserted_width(s: Seq<Row>, x: Row, w: nat)
    requires
        x.len() == w,
        forall|i: int| 0 <= i < s.len() ==> (#[trigger] s[i]).len() == w,
    ensures
        forall|i: int| 0 <= i < inserted(s, x).len() ==> (#[trigger] inserted(s, x)[i]).len() == w,
    decreases s.len(),
{
    if s.len() > 0 && crate::order::row_less(x, s.last()) {
        let front = inserted(s.drop_last(), x);
        assert forall|i: int| 0 <= i < s.drop_last().len() implies (
        #[trigger] s.drop_last()[i]).len() == w by {
            assert(s.drop_last()[i] == s[i]);
        }
        lemma_inserted_width(s.drop_last(), x, w);
        assert forall|i: int| 0 <= i < inserted(s, x).len() implies (
        #[trigger] inserted(s, x)[i]).len() == w by {
            if i < front.len() {
                assert(inserted(s, x)[i] == front[i]);
            }
        }
    } else {
        assert forall|i: int| 0 <= i < inserted(s, x).len() implies (
        #[trigger] inserted(s, x)[i]).len() == w by {
            if i < s.len() {
                assert(inserted(s, x)[i] == s[i]);
            }
        }
    }
}

pub proof fn lemma_sorted_width(s: Seq<Row>, w: nat)
    requires
        forall|i: int| 0 <= i < s.len() ==> (#[trigger] s[i]).len() == w,
    ensures
        forall|i: int| 0 <= i < sorted_rows(s).len() ==> (#[trigger] sorted_rows(s)[i]).len() == w,
        sorted_rows(s).len() == s.len(),
    decreases s.len(),
{
    sorting_orders(s);
    if s.len() > 0 {
        lemma_sorted_width(s.drop_last(), w);
        lemma_inserted_width(sorted_rows(s.drop_last()), s.last(), w);
    }
}

pub proof fn lemma_member_width(u: Unit, h: Hashes, i: int, k: nat)
    ensures
        forall|r: int|
            0 <= r < member_rows(u, h, i, k).len() ==> (#[trigger] member_rows(
                u,
                h,
                i,
                k,
            )[r]).len() == 3,
    decreases k,
{
    if k > 0 {
        let front = member_rows(u, h, i, (k - 1) as nat);
        lemma_member_width(u, h, i, (k - 1) as nat);
        assert forall|r: int| 0 <= r < member_rows(u, h, i, k).len() implies (
        #[trigger] member_rows(u, h, i, k)[r]).len() == 3 by {
            if r < front.len() {
                assert(member_rows(u, h, i, k)[r] == front[r]);
            }
        }
    }
}

pub proof fn lemma_outside_width(u: Unit, h: Hashes, i: int, k: nat)
    ensures
        forall|r: int|
            0 <= r < outside_rows(u, h, i, k).len() ==> (#[trigger] outside_rows(
                u,
                h,
                i,
                k,
            )[r]).len() == 4,
    decreases k,
{
    if k > 0 {
        let front = outside_rows(u, h, i, (k - 1) as nat);
        lemma_outside_width(u, h, i, (k - 1) as nat);
        assert forall|r: int| 0 <= r < outside_rows(u, h, i, k).len() implies (
        #[trigger] outside_rows(u, h, i, k)[r]).len() == 4 by {
            if r < front.len() {
                assert(outside_rows(u, h, i, k)[r] == front[r]);
            }
        }
    }
}

/// Members of one component have the same rows.
proof fn lemma_same_members(u: Unit, h: Hashes, i: int, j: int, k: nat)
    requires
        same_component(u.calls, i, j),
    ensures
        member_rows(u, h, i, k) == member_rows(u, h, j, k),
    decreases k,
{
    if k > 0 {
        lemma_same_members(u, h, i, j, (k - 1) as nat);
        component_equivalence(u.calls, i, j, k - 1);
        component_equivalence(u.calls, j, i, k - 1);
    }
}

/// The members' rows do not depend on artifacts.
proof fn lemma_members_frame(u: Unit, h1: Hashes, h2: Hashes, i: int, k: nat)
    requires
        h1.body == h2.body,
        h1.abi == h2.abi,
    ensures
        member_rows(u, h1, i, k) == member_rows(u, h2, i, k),
    decreases k,
{
    if k > 0 {
        lemma_members_frame(u, h1, h2, i, (k - 1) as nat);
    }
}

/// Whether two tables agree on the artifacts that function `i` calls outside
/// its component.
pub open spec fn agree(u: Unit, h1: Hashes, h2: Hashes, i: int) -> bool {
    &&& h1.body == h2.body
    &&& h1.abi == h2.abi
    &&& forall|k: int|
        0 <= k < u.calls[i].len() && !same_component(u.calls, i, u.calls[i][k])
            ==> h1.artifact[#[trigger] u.calls[i][k]] == h2.artifact[u.calls[i][k]]
}

proof fn lemma_outside_frame(u: Unit, h1: Hashes, h2: Hashes, i: int, k: nat)
    requires
        agree(u, h1, h2, i),
        k <= u.calls[i].len(),
    ensures
        outside_rows(u, h1, i, k) == outside_rows(u, h2, i, k),
    decreases k,
{
    if k > 0 {
        lemma_outside_frame(u, h1, h2, i, (k - 1) as nat);
        let c = u.calls[i][k - 1];
        assert(!same_component(u.calls, i, c) ==> h1.artifact[c] == h2.artifact[c]);
    }
}

proof fn lemma_member_frame(u: Unit, h1: Hashes, h2: Hashes, i: int)
    requires
        agree(u, h1, h2, i),
    ensures
        member_text(u, h1, i) == member_text(u, h2, i),
{
    reveal(template_source);
    lemma_outside_frame(u, h1, h2, i, u.calls[i].len());
    let t1 = template_table(u, h1, i);
    let t2 = template_table(u, h2, i);
    assert forall|key: Seq<char>| #[trigger]
        template_target(u, h1, i, key) == template_target(u, h2, i, key) by {
        let c = place(u.keys, key) as int;
        lemma_members_frame(u, h1, h2, c, u.keys.len());
    }
    assert(t1.functions =~= t2.functions);
    assert(t1 == t2);
}

proof fn lemma_members_text_frame(u: Unit, h1: Hashes, h2: Hashes, rows: Seq<Row>)
    requires
        forall|r: int|
            0 <= r < rows.len() ==> agree(
                u,
                h1,
                h2,
                place(u.keys, (#[trigger] rows[r])[2]) as int,
            ),
    ensures
        members_text(u, h1, rows) == members_text(u, h2, rows),
    decreases rows.len(),
{
    if rows.len() > 0 {
        assert forall|r: int| 0 <= r < rows.drop_last().len() implies agree(
            u,
            h1,
            h2,
            place(u.keys, (#[trigger] rows.drop_last()[r])[2]) as int,
        ) by {
            assert(rows.drop_last()[r] == rows[r]);
        }
        lemma_members_text_frame(u, h1, h2, rows.drop_last());
        lemma_member_frame(u, h1, h2, place(u.keys, rows.last()[2]) as int);
    }
}

pub proof fn lemma_member_of(u: Unit, h: Hashes, i: int, k: nat, row: Row)
    requires
        member_rows(u, h, i, k).contains(row),
        k <= u.keys.len(),
    ensures
        exists|j: int|
            0 <= j < k && same_component(u.calls, i, j) && row == seq![
                h.body[j],
                h.abi[j],
                #[trigger] u.keys[j],
            ],
    decreases k,
{
    if k > 0 {
        let front = member_rows(u, h, i, (k - 1) as nat);
        if front.contains(row) {
            lemma_member_of(u, h, i, (k - 1) as nat, row);
        } else {
            let all = member_rows(u, h, i, k);
            let r = choose|r: int| 0 <= r < all.len() && all[r] == row;
            if same_component(u.calls, i, k - 1) {
                if r < front.len() {
                    assert(front[r] == row);
                }
                assert(row == seq![h.body[k - 1], h.abi[k - 1], u.keys[k - 1]]);
            } else {
                assert(front[r] == row);
            }
        }
    }
}

pub proof fn lemma_has_member(u: Unit, h: Hashes, i: int, k: nat, j: int)
    requires
        0 <= j < k,
        same_component(u.calls, i, j),
    ensures
        member_rows(u, h, i, k).contains(seq![h.body[j], h.abi[j], u.keys[j]]),
    decreases k,
{
    let row = seq![h.body[j], h.abi[j], u.keys[j]];
    let front = member_rows(u, h, i, (k - 1) as nat);
    if j == k - 1 {
        let all = member_rows(u, h, i, k);
        assert(all[all.len() - 1] == row);
    } else {
        lemma_has_member(u, h, i, (k - 1) as nat, j);
        let r = choose|r: int| 0 <= r < front.len() && front[r] == row;
        assert(member_rows(u, h, i, k)[r] == row);
    }
}

/// The rows of a component are its members.
pub proof fn lemma_ordered_members(u: Unit, h: Hashes, i: int)
    requires
        u.keys.no_duplicates(),
        0 <= i < u.keys.len(),
    ensures
        forall|r: int|
            0 <= r < ordered_rows(u, h, i).len() ==> {
                let key = (#[trigger] ordered_rows(u, h, i)[r])[2];
                &&& ordered_rows(u, h, i)[r].len() == 3
                &&& u.keys.contains(key)
                &&& place(u.keys, key) < u.keys.len()
                &&& same_component(u.calls, i, place(u.keys, key) as int)
            },
        ordered_rows(u, h, i).len() > 0,
{
    broadcast use vstd::seq_lib::group_to_multiset_ensures;

    let all = member_rows(u, h, i, u.keys.len());
    lemma_member_width(u, h, i, u.keys.len());
    lemma_sorted_width(all, 3);
    sorting_orders(all);
    reaches_itself(u.calls, i);
    lemma_has_member(u, h, i, u.keys.len(), i);
    let sorted = ordered_rows(u, h, i);
    assert forall|r: int| 0 <= r < sorted.len() implies {
        let key = (#[trigger] sorted[r])[2];
        &&& sorted[r].len() == 3
        &&& u.keys.contains(key)
        &&& place(u.keys, key) < u.keys.len()
        &&& same_component(u.calls, i, place(u.keys, key) as int)
    } by {
        assert(sorted.contains(sorted[r]));
        assert(sorted.to_multiset().count(sorted[r]) > 0);
        assert(all.to_multiset().count(sorted[r]) > 0);
        assert(all.contains(sorted[r]));
        lemma_member_of(u, h, i, u.keys.len(), sorted[r]);
        let j = choose|j: int|
            0 <= j < u.keys.len() && same_component(u.calls, i, j) && sorted[r] == seq![
                h.body[j],
                h.abi[j],
                #[trigger] u.keys[j],
            ];
        assert(sorted[r][2] == u.keys[j]);
        lemma_place_found(u.keys, u.keys[j]);
        assert(place(u.keys, u.keys[j]) == j);
    }
}

/// What a component is hashed from does not depend on its own artifacts.
pub proof fn lemma_component_frame(u: Unit, h1: Hashes, h2: Hashes, i: int)
    requires
        u.keys.no_duplicates(),
        0 <= i < u.keys.len(),
        h1.body == h2.body,
        h1.abi == h2.abi,
        forall|j: int|
            0 <= j < u.keys.len() && same_component(u.calls, i, j) ==> #[trigger] agree(
                u,
                h1,
                h2,
                j,
            ),
    ensures
        artifact_request(u, h1, i) == artifact_request(u, h2, i),
{
    lemma_members_frame(u, h1, h2, i, u.keys.len());
    lemma_ordered_members(u, h1, i);
    let rows = ordered_rows(u, h1, i);
    assert forall|r: int| 0 <= r < rows.len() implies agree(
        u,
        h1,
        h2,
        place(u.keys, (#[trigger] rows[r])[2]) as int,
    ) by {
        let j = place(u.keys, rows[r][2]) as int;
        assert(same_component(u.calls, i, j));
    }
    lemma_members_text_frame(u, h1, h2, rows);
}

/// A part with its length in bytes.
fn serialized_part(value: &str) -> (r: String)
    ensures
        r@ == part_text(value@),
{
    let mut t = "|".to_owned();
    push_usize(&mut t, value.as_bytes().len());
    t.append(":");
    t.append(value);
    t
}

fn column_of(rows: &Vec<Vec<String>>, c: usize, Ghost(w): Ghost<nat>) -> (r: Vec<String>)
    requires
        c < w,
        forall|i: int| 0 <= i < rows@.len() ==> (#[trigger] rows@[i])@.len() == w,
    ensures
        texts(r@) == column(rows_of(rows@), c as int),
{
    let mut out: Vec<String> = Vec::new();
    let mut i: usize = 0;
    while i < rows.len()
        invariant
            i <= rows@.len(),
            c < w,
            forall|j: int| 0 <= j < rows@.len() ==> (#[trigger] rows@[j])@.len() == w,
            out@.len() == i,
            forall|j: int| 0 <= j < i ==> out@[j]@ == rows@[j]@[c as int]@,
        decreases rows@.len() - i,
    {
        assert(rows@[i as int]@.len() == w);
        out.push(rows[i][c].clone());
        i = i + 1;
    }
    assert(texts(out@) =~= column(rows_of(rows@), c as int));
    out
}

/// A module that exports one definition of `apply`.
pub fn module_for(name: &str, def: CoreFunDef) -> (r: CoreModule)
    ensures
        module_of(r) == apply_module(name@, fundef_of(def)),
{
    let arity = def.arity;
    let ghost d = fundef_of(def);
    let mut exports: Vec<(String, usize)> = Vec::new();
    exports.push(("apply".to_owned(), arity));
    let mut functions: Vec<CoreFunDef> = Vec::new();
    functions.push(def);
    let r = CoreModule { name: name.to_owned(), exports, functions };
    assert(module_of(r).exports =~= seq![("apply"@, d.arity)]);
    assert(module_of(r).functions =~= seq![d]);
    r
}

/// Translates a function to a definition of `apply`.
pub fn translate_function(func: &Function, syms: &Symbols, fresh: &mut FreshVars) -> (r: CoreFunDef)
    ensures
        (fundef_of(r), final(fresh).next()) == applied(*func, syms.table(), old(fresh).next()),
{
    let params = core_params(&func.params);
    let body = translate_expr(&func.body, syms, fresh);
    let def = CoreFunDef { name: "apply".to_owned(), arity: func.params.len(), params, body };
    canonicalize_core_function(&def)
}

/// A copy of resolved symbols.
pub fn dup_resolved(v: &Vec<ResolvedSymbol>) -> (r: Vec<ResolvedSymbol>)
    ensures
        resolved_of(r@) == resolved_of(v@),
{
    let mut out: Vec<ResolvedSymbol> = Vec::new();
    let mut i: usize = 0;
    while i < v.len()
        invariant
            i <= v@.len(),
            out@.len() == i,
            forall|j: int|
                0 <= j < i ==> out@[j].name@ == v@[j].name@ && out@[j].arity == v@[j].arity
                    && out@[j].module@ == v@[j].module@,
        decreases v@.len() - i,
    {
        out.push(
            ResolvedSymbol {
                name: v[i].name.clone(),
                arity: v[i].arity,
                module: v[i].module.clone(),
            },
        );
        i = i + 1;
    }
    assert(resolved_of(out@) =~= resolved_of(v@));
    out
}

fn request1(tag: &str, a: &str) -> (r: HashRequest)
    ensures
        r.model() == (tag@, seq![a@]),
{
    let mut parts: Vec<String> = Vec::new();
    parts.push(a.to_owned());
    assert(texts(parts@) =~= seq![a@]);
    HashRequest { tag: tag.to_owned(), parts }
}

fn request2(tag: &str, a: &str, b: &str) -> (r: HashRequest)
    ensures
        r.model() == (tag@, seq![a@, b@]),
{
    let mut parts: Vec<String> = Vec::new();
    parts.push(a.to_owned());
    parts.push(b.to_owned());
    assert(texts(parts@) =~= seq![a@, b@]);
    HashRequest { tag: tag.to_owned(), parts }
}

/// What the build key of an artifact is computed from.
spec fn build_parts(artifact: Seq<char>) -> Request {
    (
        "lux-build-v1"@,
        seq![
            artifact,
            crate::hashing::version_text(),
            "beam"@,
            "erlang-core"@,
            "erlc"@,
            "opt:none"@,
            "runtime:default"@,
        ],
    )
}

fn build_key_request(artifact: &str) -> (r: HashRequest)
    ensures
        r.model() == build_parts(artifact@),
{
    let mut parts: Vec<String> = Vec::new();
    parts.push(artifact.to_owned());
    parts.push(version().to_owned());
    parts.push("beam".to_owned());
    parts.push("erlang-core".to_owned());
    parts.push("erlc".to_owned());
    parts.push("opt:none".to_owned());
    parts.push("runtime:default".to_owned());
    assert(texts(parts@) =~= build_parts(artifact@).1);
    HashRequest { tag: "lux-build-v1".to_owned(), parts }
}

impl<'a> Pass<'a> {
    /// The module's functions.
    pub closed spec fn unit(&self) -> Unit {
        Unit {
            keys: texts(self.keys@),
            funcs: Seq::new(
                self.items@.len(),
                |i: int| self.module.items@[self.items@[i] as int]->Function_0,
            ),
            calls: graph_of(self.calls@),
            prev: signatures_of(self.prev@),
            resolved: resolved_of(self.resolved@),
        }
    }

    /// Whether the parts fit together.
    pub closed spec fn well_formed(&self) -> bool {
        let u = self.unit();
        &&& self.items@.len() == self.keys@.len()
        &&& self.calls@.len() == self.keys@.len()
        &&& self.reach@.len() == self.keys@.len()
        &&& self.prints@.len() == self.keys@.len()
        &&& u.keys.no_duplicates()
        &&& is_graph(u.calls)
        &&& forall|i: int|
            0 <= i < self.items@.len() ==> (#[trigger] self.items@[i]) < self.module.items@.len()
                && self.module.items@[self.items@[i] as int] is Function
        &&& forall|i: int|
            0 <= i < self.reach@.len() ==> (#[trigger] self.reach@[i])@.len() == self.keys@.len()
        &&& forall|i: int, j: int|
            0 <= i < self.reach@.len() && 0 <= j < self.keys@.len() ==> #[trigger] self.reach@[i]@[j]
                == reaches(u.calls, i, j)
        &&& forall|i: int|
            0 <= i < self.prints@.len() ==> (#[trigger] self.prints@[i])@ == function_print(
                u.funcs[i],
                locals_for(u.keys, u.keys[i]),
            ).0
    }

    fn function(&self, i: usize) -> (r: &Function)
        requires
            self.well_formed(),
            i < self.keys@.len(),
        ensures
            *r == self.unit().funcs[i as int],
    {
        assert(self.items@[i as int] < self.module.items@.len());
        match &self.module.items[self.items[i]] {
            Item::Function(f) => f,
            _ => {
                proof {
                    assert(false);
                }
                vstd::pervasive::unreached()
            },
        }
    }

    fn together(&self, i: usize, j: usize) -> (r: bool)
        requires
            self.well_formed(),
            i < self.keys@.len(),
            j < self.keys@.len(),
        ensures
            r == same_component(self.unit().calls, i as int, j as int),
    {
        assert(self.reach@[i as int]@.len() == self.keys@.len());
        assert(self.reach@[j as int]@.len() == self.keys@.len());
        self.reach[i][j] && self.reach[j][i]
    }

    fn ordered(&self, h: &HashTable, i: usize) -> (r: Vec<Vec<String>>)
        requires
            self.well_formed(),
            sized(self.unit(), h.model()),
            i < self.keys@.len(),
        ensures
            rows_of(r@) == ordered_rows(self.unit(), h.model(), i as int),
            forall|k: int| 0 <= k < r@.len() ==> (#[trigger] r@[k])@.len() == 3,
            r@.len() > 0,
            forall|k: int|
                0 <= k < r@.len() ==> place(self.unit().keys, (#[trigger] r@[k])@[2]@)
                    < self.unit().keys.len() && same_component(
                    self.unit().calls,
                    i as int,
                    place(self.unit().keys, r@[k]@[2]@) as int,
                ),
    {
        let ghost u = self.unit();
        let mut rows: Vec<Vec<String>> = Vec::new();
        let mut k: usize = 0;
        assert(rows_of(rows@) =~= member_rows(u, h.model(), i as int, 0));
        while k < self.keys.len()
            invariant
                self.well_formed(),
                u == self.unit(),
                sized(u, h.model()),
                i < self.keys@.len(),
                k <= self.keys@.len(),
                rows_of(rows@) == member_rows(u, h.model(), i as int, k as nat),
            decreases self.keys@.len() - k,
        {
            if self.together(i, k) {
                let mut row: Vec<String> = Vec::new();
                row.push(h.body[k].clone());
                row.push(h.abi[k].clone());
                row.push(self.keys[k].clone());
                assert(texts(row@) =~= seq![
                    h.model().body[k as int],
                    h.model().abi[k as int],
                    u.keys[k as int],
                ]);
                let ghost before = rows_of(rows@);
                rows.push(row);
                assert(rows_of(rows@) =~= before.push(texts(row@)));
            }
            k = k + 1;
        }
        let out = sort_rows(rows);
        proof {
            lemma_ordered_members(u, h.model(), i as int);
            assert forall|q: int| 0 <= q < out@.len() implies (#[trigger] out@[q])@.len() == 3 by {
                assert(rows_of(out@)[q].len() == 3);
            }
            assert forall|q: int| 0 <= q < out@.len() implies place(
                u.keys,
                (#[trigger] out@[q])@[2]@,
            ) < u.keys.len() && same_component(
                u.calls,
                i as int,
                place(u.keys, out@[q]@[2]@) as int,
            ) by {
                assert(rows_of(out@)[q].len() == 3);
                assert(rows_of(out@)[q][2] == out@[q]@[2]@);
            }
        }
        out
    }

    fn outside_sorted(&self, h: &HashTable, i: usize) -> (r: Vec<Vec<String>>)
        requires
            self.well_formed(),
            sized(self.unit(), h.model()),
            i < self.keys@.len(),
        ensures
            rows_of(r@) == outside(self.unit(), h.model(), i as int),
            forall|k: int| 0 <= k < r@.len() ==> (#[trigger] r@[k])@.len() == 4,
    {
        let ghost u = self.unit();
        let mut rows: Vec<Vec<String>> = Vec::new();
        let mut k: usize = 0;
        assert(rows_of(rows@) =~= outside_rows(u, h.model(), i as int, 0));
        while k < self.calls[i].len()
            invariant
                self.well_formed(),
                u == self.unit(),
                sized(u, h.model()),
                i < self.keys@.len(),
                k <= self.calls@[i as int]@.len(),
                rows_of(rows@) == outside_rows(u, h.model(), i as int, k as nat),
            decreases self.calls@[i as int]@.len() - k,
        {
            let c = self.calls[i][k];
            assert(u.calls[i as int][k as int] == c);
            if !self.together(i, c) {
                let mut row: Vec<String> = Vec::new();
                row.push(h.artifact[c].clone());
                row.push(h.body[c].clone());
                row.push(h.abi[c].clone());
                row.push(self.keys[c].clone());
                assert(texts(row@) =~= seq![
                    h.model().artifact[c as int],
                    h.model().body[c as int],
                    h.model().abi[c as int],
                    u.keys[c as int],
                ]);
                let ghost before = rows_of(rows@);
                rows.push(row);
                assert(rows_of(rows@) =~= before.push(texts(row@)));
            }
            k = k + 1;
        }
        let out = sort_rows(rows);
        proof {
            lemma_outside_width(u, h.model(), i as int, u.calls[i as int].len());
            lemma_sorted_width(
                outside_rows(u, h.model(), i as int, u.calls[i as int].len()),
                4,
            );
            assert forall|q: int| 0 <= q < out@.len() implies (#[trigger] out@[q])@.len() == 4 by {
                assert(rows_of(out@)[q].len() == 4);
            }
        }
        out
    }

    fn calls_contain(&self, i: usize, c: usize) -> (r: bool)
        requires
            self.well_formed(),
            i < self.keys@.len(),
        ensures
            r == self.unit().calls[i as int].contains(c as int),
    {
        let ghost row = self.unit().calls[i as int];
        let mut k: usize = 0;
        while k < self.calls[i].len()
            invariant
                self.well_formed(),
                i < self.keys@.len(),
                row == self.unit().calls[i as int],
                k <= self.calls@[i as int]@.len(),
                forall|q: int| 0 <= q < k ==> row[q] != c,
            decreases self.calls@[i as int]@.len() - k,
        {
            assert(row[k as int] == self.calls@[i as int]@[k as int]);
            if self.calls[i][k] == c {
                return true;
            }
            k = k + 1;
        }
        false
    }

    fn slot_of(&self, h: &HashTable, i: usize) -> (r: usize)
        requires
            self.well_formed(),
            sized(self.unit(), h.model()),
            i < self.keys@.len(),
        ensures
            r == slot(self.unit(), h.model(), i as int),
    {
        let rows = self.ordered(h, i);
        let names = column_of(&rows, 2, Ghost(3));
        place_of(&names, self.keys[i].as_str())
    }

    fn target(&self, h: &HashTable, i: usize, outer: &Vec<Vec<String>>, key: &str) -> (r: String)
        requires
            self.well_formed(),
            sized(self.unit(), h.model()),
            i < self.keys@.len(),
            rows_of(outer@) == outside(self.unit(), h.model(), i as int),
            forall|k: int| 0 <= k < outer@.len() ==> (#[trigger] outer@[k])@.len() == 4,
        ensures
            r@ == template_target(self.unit(), h.model(), i as int, key@),
    {
        let ghost u = self.unit();
        if same(key, self.keys[i].as_str()) {
            return "__SELF__".to_owned();
        }
        match position(&self.keys, key) {
            Some(c) => {
                proof {
                    lemma_place(u.keys, key@, c as int);
                }
                if self.calls_contain(i, c) {
                    if self.together(i, c) {
                        let mut t = "__SCC_SLOT_".to_owned();
                        push_usize(&mut t, self.slot_of(h, c));
                        t.append("__");
                        t
                    } else {
                        let names = column_of(outer, 3, Ghost(4));
                        let mut t = "__EXT".to_owned();
                        push_usize(&mut t, place_of(&names, key));
                        t.append("__");
                        t
                    }
                } else {
                    "__UNUSED__".to_owned()
                }
            },
            None => "__UNUSED__".to_owned(),
        }
    }

    fn template_symbols(&self, h: &HashTable, i: usize) -> (r: Symbols)
        requires
            self.well_formed(),
            sized(self.unit(), h.model()),
            i < self.keys@.len(),
        ensures
            r.table() == template_table(self.unit(), h.model(), i as int),
    {
        let ghost u = self.unit();
        let outer = self.outside_sorted(h, i);
        let mut functions: Vec<LocalFunctionSymbol> = Vec::new();
        let mut p: usize = 0;
        while p < self.prev.len()
            invariant
                self.well_formed(),
                u == self.unit(),
                sized(u, h.model()),
                i < self.keys@.len(),
                rows_of(outer@) == outside(u, h.model(), i as int),
                forall|k: int| 0 <= k < outer@.len() ==> (#[trigger] outer@[k])@.len() == 4,
                p <= self.prev@.len(),
                functions@.len() == p,
                forall|q: int|
                    0 <= q < p ==> (#[trigger] functions@[q]).source_name@ == u.prev[q].0
                        && functions@[q].arity == u.prev[q].1 && functions@[q].module_name@
                        == template_target(
                        u,
                        h.model(),
                        i as int,
                        function_key(u.prev[q].0, u.prev[q].1),
                    ),
            decreases self.prev@.len() - p,
        {
            let key = key_of(self.prev[p].source_name.as_str(), self.prev[p].arity);
            let module_name = self.target(h, i, &outer, key.as_str());
            functions.push(
                LocalFunctionSymbol {
                    source_name: self.prev[p].source_name.clone(),
                    body_hash: self.prev[p].body_hash.clone(),
                    abi_hash: self.prev[p].abi_hash.clone(),
                    artifact_hash: module_name.clone(),
                    build_key: self.prev[p].build_key.clone(),
                    module_name,
                    arity: self.prev[p].arity,
                },
            );
            p = p + 1;
        }
        let r = Symbols { functions, resolved: dup_resolved(self.resolved) };
        assert(r.table().functions =~= template_table(u, h.model(), i as int).functions);
        r
    }

    /// A function's template: its text, and the free variables behind it.
    fn emit_template_module(&self, h: &HashTable, i: usize) -> (r: (String, FreshVars))
        requires
            self.well_formed(),
            sized(self.unit(), h.model()),
            i < self.keys@.len(),
        ensures
            r.0@ == template_source(self.unit(), h.model(), i as int),
            r.1.next() == applied(
                self.unit().funcs[i as int],
                template_table(self.unit(), h.model(), i as int),
                0,
            ).1,
    {
        proof {
            reveal(template_source);
        }
        let syms = self.template_symbols(h, i);
        let mut fresh = FreshVars::new();
        let def = translate_function(self.function(i), &syms, &mut fresh);
        let module = module_for("__MODULE__", def);
        let mut emitter = Emitter::new();
        let source = emitter.emit_module(&module);
        proof {
            assert(Seq::<char>::empty() + module_text(module_of(module)) =~= module_text(
                module_of(module),
            ));
        }
        (source, fresh)
    }

    fn serialize_member(&self, h: &HashTable, i: usize) -> (r: String)
        requires
            self.well_formed(),
            sized(self.unit(), h.model()),
            i < self.keys@.len(),
        ensures
            r@ == member_text(self.unit(), h.model(), i as int),
    {
        let outer = self.outside_sorted(h, i);
        let refs = column_of(&outer, 0, Ghost(4));
        let (source, _) = self.emit_template_module(h, i);
        let mut t = serialized_part(h.body[i].as_str());
        t.append(serialized_part(h.abi[i].as_str()).as_str());
        t.append(serialized_part(join(&refs, ",").as_str()).as_str());
        t.append(serialized_part(source.as_str()).as_str());
        t
    }

    fn serialize_scc_template(&self, h: &HashTable, i: usize) -> (r: String)
        requires
            self.well_formed(),
            sized(self.unit(), h.model()),
            i < self.keys@.len(),
        ensures
            r@ == component_text(self.unit(), h.model(), i as int),
    {
        let ghost u = self.unit();
        let rows = self.ordered(h, i);
        let ghost all = rows_of(rows@);
        let mut members = String::new();
        let mut k: usize = 0;
        while k < rows.len()
            invariant
                self.well_formed(),
                u == self.unit(),
                sized(u, h.model()),
                k <= rows@.len(),
                all == rows_of(rows@),
                forall|q: int| 0 <= q < rows@.len() ==> (#[trigger] rows@[q])@.len() == 3,
                forall|q: int|
                    0 <= q < rows@.len() ==> place(u.keys, (#[trigger] rows@[q])@[2]@)
                        < u.keys.len(),
                members@ == members_text(u, h.model(), all.take(k as int)),
            decreases rows@.len() - k,
        {
            assert(all.take(k as int + 1).drop_last() =~= all.take(k as int));
            assert(rows@[k as int]@.len() == 3);
            assert(all[k as int][2] == rows@[k as int]@[2]@);
            let j = place_of(&self.keys, rows[k][2].as_str());
            members.append(self.serialize_member(h, j).as_str());
            k = k + 1;
        }
        assert(all.take(k as int) =~= all);
        let mut t = "schema:".to_owned();
        t.append("lux-artifact-v2");
        t.append("|target:");
        t.append("beam");
        t.append("|backend:");
        t.append("erlang-core");
        t.append("|members:");
        t.append(members.as_str());
        t
    }
}

/// The entry for a request, or the request.
fn lookup(book: &ContentHashes, request: HashRequest) -> (r: Result<String, HashRequest>)
    ensures
        r matches Ok(s) ==> known(book.model(), request.model()) == Some(s@),
        r matches Err(q) ==> q.model() == request.model() && known(book.model(), request.model())
            is None,
{
    match book.get(&request) {
        Some(s) => Ok(s),
        None => Err(request),
    }
}

pub proof fn lemma_keys_distinct(fs: Seq<Function>)
    ensures
        keys_in(fs).no_duplicates(),
    decreases fs.len(),
{
    if fs.len() > 0 {
        lemma_keys_distinct(fs.drop_last());
    }
}

/// The functions of a module: the place and the key of the last definition of
/// each.
fn gather(module: &Module) -> (r: (Vec<usize>, Vec<String>))
    ensures
        texts(r.1@) == keys_in(functions_in(module.items@)),
        r.0@.len() == r.1@.len(),
        forall|i: int|
            0 <= i < r.0@.len() ==> (#[trigger] r.0@[i]) < module.items@.len()
                && module.items@[r.0@[i] as int] is Function
                && module.items@[r.0@[i] as int]->Function_0 == definition(
                functions_in(module.items@),
                r.1@[i]@,
            ),
{
    let mut items: Vec<usize> = Vec::new();
    let mut keys: Vec<String> = Vec::new();
    let mut i: usize = 0;
    assert(texts(keys@) =~= Seq::empty());
    while i < module.items.len()
        invariant
            i <= module.items@.len(),
            items@.len() == keys@.len(),
            texts(keys@) == keys_in(functions_in(module.items@.take(i as int))),
            forall|p: int|
                0 <= p < items@.len() ==> (#[trigger] items@[p]) < i
                    && module.items@[items@[p] as int] is Function
                    && module.items@[items@[p] as int]->Function_0 == definition(
                    functions_in(module.items@.take(i as int)),
                    keys@[p]@,
                ),
        decreases module.items@.len() - i,
    {
        let ghost old_fs = functions_in(module.items@.take(i as int));
        let ghost fs = functions_in(module.items@.take(i as int + 1));
        assert(module.items@.take(i as int + 1).drop_last() =~= module.items@.take(i as int));
        proof {
            lemma_keys_distinct(old_fs);
        }
        match &module.items[i] {
            Item::Function(f) => {
                let key = key_of(f.name.as_str(), f.params.len());
                assert(fs == old_fs.push(*f));
                assert(fs.drop_last() =~= old_fs);
                let ghost old_keys = texts(keys@);
                let ghost old_items = items@;
                match position(&keys, key.as_str()) {
                    Some(p) => {
                        items.set(p, i);
                        assert(old_keys[p as int] == key@);
                        assert forall|q: int| 0 <= q < items@.len() implies (#[trigger] items@[q])
                            < i + 1 && module.items@[items@[q] as int] is Function
                            && module.items@[items@[q] as int]->Function_0 == definition(
                            fs,
                            keys@[q]@,
                        ) by {
                            if q != p {
                                assert(old_keys[q] != old_keys[p as int]);
                                assert(items@[q] == old_items[q]);
                            }
                        }
                    },
                    None => {
                        items.push(i);
                        keys.push(key);
                        assert(texts(keys@) =~= old_keys.push(key@));
                        assert forall|q: int| 0 <= q < items@.len() implies (#[trigger] items@[q])
                            < i + 1 && module.items@[items@[q] as int] is Function
                            && module.items@[items@[q] as int]->Function_0 == definition(
                            fs,
                            keys@[q]@,
                        ) by {
                            if q < old_items.len() {
                                assert(items@[q] == old_items[q]);
                                assert(old_keys[q] == keys@[q]@);
                            }
                        }
                    },
                }
            },
            _ => {},
        }
        i = i + 1;
    }
    assert(module.items@.take(i as int) =~= module.items@);
    (items, keys)
}

/// The places of those keys that are there.
fn places_of(keys: &Vec<String>, names: &Vec<String>) -> (r: Vec<usize>)
    ensures
        Seq::new(r@.len(), |k: int| r@[k] as int) == places(texts(keys@), texts(names@)),
{
    let ghost ks = texts(keys@);
    let ghost ns = texts(names@);
    let mut out: Vec<usize> = Vec::new();
    let mut i: usize = 0;
    assert(Seq::new(out@.len(), |k: int| out@[k] as int) =~= places(ks, ns.take(0)));
    while i < names.len()
        invariant
            i <= names@.len(),
            ks == texts(keys@),
            ns == texts(names@),
            Seq::new(out@.len(), |k: int| out@[k] as int) == places(ks, ns.take(i as int)),
        decreases names@.len() - i,
    {
        assert(ns.take(i as int + 1).drop_last() =~= ns.take(i as int));
        assert(ns.take(i as int + 1).last() == names@[i as int]@);
        let ghost before = Seq::new(out@.len(), |k: int| out@[k] as int);
        match position(keys, names[i].as_str()) {
            Some(p) => {
                proof {
                    lemma_place(ks, names@[i as int]@, p as int);
                    assert(ks[p as int] == names@[i as int]@);
                }
                out.push(p);
                assert(Seq::new(out@.len(), |k: int| out@[k] as int) =~= before.push(p as int));
            },
            None => {},
        }
        i = i + 1;
    }
    assert(ns.take(i as int) =~= ns);
    out
}

fn reach_rows(calls: &Vec<Vec<usize>>) -> (r: Vec<Vec<bool>>)
    requires
        is_graph(graph_of(calls@)),
    ensures
        r@.len() == calls@.len(),
        forall|i: int| 0 <= i < r@.len() ==> (#[trigger] r@[i])@.len() == calls@.len(),
        forall|i: int, j: int|
            0 <= i < r@.len() && 0 <= j < calls@.len() ==> #[trigger] r@[i]@[j] == reaches(
                graph_of(calls@),
                i,
                j,
            ),
{
    let mut out: Vec<Vec<bool>> = Vec::new();
    let mut i: usize = 0;
    while i < calls.len()
        invariant
            i <= calls@.len(),
            is_graph(graph_of(calls@)),
            out@.len() == i,
            forall|k: int| 0 <= k < out@.len() ==> (#[trigger] out@[k])@.len() == calls@.len(),
            forall|k: int, j: int|
                0 <= k < out@.len() && 0 <= j < calls@.len() ==> #[trigger] out@[k]@[j] == reaches(
                    graph_of(calls@),
                    k,
                    j,
                ),
        decreases calls@.len() - i,
    {
        out.push(reach_from(calls, i));
        i = i + 1;
    }
    out
}

/// How many functions are not done.

/// Whether nothing greater is a root: a function that no smaller one reaches.
pub open spec fn is_root(u: Unit, i: int) -> bool {
    forall|j: int|
        0 <= j < u.keys.len() && text_less(#[trigger] u.keys[j], u.keys[i]) ==> !reaches(
            u.calls,
            j,
            i,
        )
}

/// The greatest root. Its component is the last that is translated.
pub open spec fn is_last_root(u: Unit, i: int) -> bool {
    &&& 0 <= i < u.keys.len()
    &&& is_root(u, i)
    &&& forall|j: int|
        0 <= j < u.keys.len() && #[trigger] is_root(u, j) ==> j == i || text_less(
            u.keys[j],
            u.keys[i],
        )
}

/// The next free variable after the template of the last member of a component.
pub open spec fn template_end(u: Unit, h: Hashes, root: int) -> nat {
    let last = place(u.keys, ordered_rows(u, h, root).last()[2]) as int;
    applied(u.funcs[last], template_table(u, h, last), 0).1
}

/// Whether `n` is the next free variable once every template has been made.
pub open spec fn templates_end(u: Unit, h: Hashes, n: nat) -> bool {
    exists|root: int| #[trigger] is_last_root(u, root) && n == template_end(u, h, root)
}

/// The addresses of a module's functions, who calls whom, and the variables
/// that are still free.
pub struct FunctionHashes {
    pub keys: Vec<String>,
    pub calls: Vec<Vec<usize>>,
    pub table: HashTable,
    pub fresh: Option<FreshVars>,
}

/// Whether `r` holds the addresses of the functions of `u`.
pub open spec fn hashed(u: Unit, book: Seq<(Request, Seq<char>)>, r: FunctionHashes) -> bool {
    &&& texts(r.keys@) == u.keys
    &&& graph_of(r.calls@) == u.calls
    &&& is_graph(u.calls)
    &&& addresses(u, book, r.table.model())
    &&& r.fresh is None <==> u.keys.len() == 0
    &&& r.fresh is Some ==> templates_end(u, r.table.model(), r.fresh->Some_0.next())
}

spec fn done_set(done: Seq<bool>) -> Set<int> {
    Set::new(|i: int| 0 <= i < done.len() && done[i])
}

/// What holds between the rounds of the pass.
#[verifier::opaque]
spec fn progress(u: Unit, book: Seq<(Request, Seq<char>)>, h: Hashes, done: Seq<bool>) -> bool {
    &&& sized(u, h)
    &&& sources_known(u, book, h)
    &&& done.len() == u.keys.len()
    &&& forall|d: int| 0 <= d < done.len() && done[d] ==> #[trigger] settled(u, book, h, d)
    &&& forall|d: int| 0 <= d < done.len() && done[d] ==> #[trigger] ready(u, done_set(done), d)
    &&& forall|d: int, e: int|
        0 <= d < done.len() && 0 <= e < done.len() && done[d] && #[trigger] same_component(
            u.calls,
            d,
            e,
        ) ==> done[e]
}

/// Whether `a` and `b` are the addresses of function `i`.
#[verifier::opaque]
spec fn found_for(
    u: Unit,
    book: Seq<(Request, Seq<char>)>,
    h: Hashes,
    i: int,
    a: Seq<char>,
    b: Seq<char>,
) -> bool {
    &&& known(book, artifact_request(u, h, i)) == Some(a)
    &&& known(book, build_parts(a)) == Some(b)
}

/// Settling one more component keeps what is settled.
proof fn lemma_progress(
    u: Unit,
    book: Seq<(Request, Seq<char>)>,
    h1: Hashes,
    h2: Hashes,
    done1: Seq<bool>,
    done2: Seq<bool>,
    i: int,
)
    requires
        u.keys.no_duplicates(),
        u.calls.len() == u.keys.len(),
        is_graph(u.calls),
        progress(u, book, h1, done1),
        0 <= i < done1.len(),
        !done1[i],
        ready(u, done_set(done1), i),
        sized(u, h2),
        h1.body == h2.body,
        h1.abi == h2.abi,
        done2.len() == done1.len(),
        forall|j: int|
            0 <= j < done1.len() ==> (#[trigger] done2[j] == (done1[j] || same_component(
                u.calls,
                i,
                j,
            ))),
        forall|j: int|
            0 <= j < done1.len() && !same_component(u.calls, i, j) ==> (#[trigger] h2.artifact[j])
                == h1.artifact[j] && h2.build[j] == h1.build[j],
        forall|j: int|
            0 <= j < done1.len() && #[trigger] same_component(u.calls, i, j) ==> found_for(
                u,
                book,
                h1,
                j,
                h2.artifact[j],
                h2.build[j],
            ),
    ensures
        progress(u, book, h2, done2),
{
    reveal(progress);
    reveal(found_for);
    let d1 = done_set(done1);
    let d2 = done_set(done2);
    component_equivalence(u.calls, i, i, i);
    assert(done2[i]);
    assert forall|q: int| 0 <= q < u.keys.len() implies known(book, #[trigger] body_request(u, q))
        == Some(h2.body[q]) && known(book, abi_request(u, q)) == Some(h2.abi[q]) by {}
    // What a component that is ready calls outside of itself is left alone.
    assert forall|d: int| 0 <= d < done1.len() && done2[d] implies #[trigger] ready(u, d1, d) by {
        if !done1[d] {
            assert(same_component(u.calls, i, d));
            assert forall|j: int, k: int|
                0 <= j < u.keys.len() && same_component(u.calls, d, j) && 0 <= k < u.calls[j].len()
                    && !same_component(u.calls, j, u.calls[j][k]) implies d1.contains(
                #[trigger] u.calls[j][k],
            ) by {
                component_equivalence(u.calls, i, d, j);
            }
        }
    }
    assert forall|d: int| 0 <= d < done1.len() && done2[d] implies artifact_request(u, h1, d)
        == #[trigger] artifact_request(u, h2, d) by {
        assert(ready(u, d1, d));
        assert forall|j: int|
            0 <= j < u.keys.len() && same_component(u.calls, d, j) implies #[trigger] agree(
            u,
            h1,
            h2,
            j,
        ) by {
            assert forall|k: int|
                0 <= k < u.calls[j].len() && !same_component(
                    u.calls,
                    j,
                    u.calls[j][k],
                ) implies h1.artifact[#[trigger] u.calls[j][k]] == h2.artifact[u.calls[j][k]] by {
                let c = u.calls[j][k];
                assert(d1.contains(c));
                if same_component(u.calls, i, c) {
                    component_equivalence(u.calls, i, c, i);
                    assert(same_component(u.calls, c, i));
                    assert(done1[i]);
                }
                assert(h2.artifact[c] == h1.artifact[c]);
            }
        }
        lemma_component_frame(u, h1, h2, d);
    }
    assert forall|d: int| 0 <= d < done2.len() && done2[d] implies #[trigger] settled(
        u,
        book,
        h2,
        d,
    ) by {
        assert(artifact_request(u, h1, d) == artifact_request(u, h2, d));
        if same_component(u.calls, i, d) {
        } else {
            assert(done1[d]);
            assert(settled(u, book, h1, d));
            assert(h2.artifact[d] == h1.artifact[d]);
        }
    }
    assert forall|d: int| 0 <= d < done2.len() && done2[d] implies #[trigger] ready(u, d2, d) by {
        assert(ready(u, d1, d));
        assert forall|j: int, k: int|
            0 <= j < u.keys.len() && same_component(u.calls, d, j) && 0 <= k < u.calls[j].len()
                && !same_component(u.calls, j, u.calls[j][k]) implies d2.contains(
            #[trigger] u.calls[j][k],
        ) by {
            let c = u.calls[j][k];
            assert(d1.contains(c));
            assert(done2[c]);
        }
    }
    assert forall|d: int, e: int|
        0 <= d < done2.len() && 0 <= e < done2.len() && done2[d] && #[trigger] same_component(
            u.calls,
            d,
            e,
        ) implies done2[e] by {
        if !done1[d] {
            component_equivalence(u.calls, i, d, e);
        }
    }
}

/// Whether function `j` is in one of the first `k` components.
spec fn among_first(u: Unit, k: int, j: int) -> bool {
    exists|p: int| 0 <= p < k && #[trigger] components(u.keys, u.calls)[p].contains(u.keys[j])
}

/// Whether the functions that are done are those of the first `k` components.
spec fn first_done(u: Unit, k: int, done: Seq<bool>) -> bool {
    &&& done.len() == u.keys.len()
    &&& forall|j: int| 0 <= j < done.len() ==> (#[trigger] done[j] == among_first(u, k, j))
}

/// Once the components before it are done, a component has nothing open outside
/// itself.
proof fn lemma_ready(u: Unit, done: Seq<bool>, k: int, i: int)
    requires
        is_call_graph(u.keys, u.calls),
        0 <= k < components(u.keys, u.calls).len(),
        0 <= i < u.keys.len(),
        components(u.keys, u.calls)[k].contains(u.keys[i]),
        first_done(u, k, done),
    ensures
        !done[i],
        ready(u, done_set(done), i),
{
    let all = components(u.keys, u.calls);
    if done[i] {
        let p = choose|p: int| 0 <= p < k && #[trigger] all[p].contains(u.keys[i]);
        components_are_ordered(u.keys, u.calls, i, i, p, k);
        reaches_itself(u.calls, i);
    }
    assert forall|j: int, m: int|
        0 <= j < u.keys.len() && same_component(u.calls, i, j) && 0 <= m < u.calls[j].len()
            && !same_component(u.calls, j, u.calls[j][m]) implies done_set(done).contains(
        #[trigger] u.calls[j][m],
    ) by {
        let c = u.calls[j][m];
        assert(leads(u.keys, u.calls, j, u.keys[c]));
        components_partition(u.keys, u.calls, i, j);
        components_partition(u.keys, u.calls, c, c);
        components_are_ordered(u.keys, u.calls, i, j, k, k);
        components_are_ordered(u.keys, u.calls, c, j, k, k);
        let q = choose|q: int|
            0 <= q < all.len() && #[trigger] all[q] == component(u.keys, u.calls, c);
        components_are_ordered(u.keys, u.calls, j, c, k, q);
        assert(all[q].contains(u.keys[c]));
        assert(among_first(u, k, c));
    }
}

/// One more component is done.
proof fn lemma_first_done(u: Unit, before: Seq<bool>, after: Seq<bool>, k: int, i: int)
    requires
        is_call_graph(u.keys, u.calls),
        0 <= k < components(u.keys, u.calls).len(),
        0 <= i < u.keys.len(),
        components(u.keys, u.calls)[k].contains(u.keys[i]),
        first_done(u, k, before),
        after.len() == before.len(),
        forall|j: int|
            0 <= j < before.len() ==> (#[trigger] after[j]) == (before[j] || same_component(
                u.calls,
                i,
                j,
            )),
    ensures
        first_done(u, k + 1, after),
{
    let all = components(u.keys, u.calls);
    assert forall|j: int| 0 <= j < after.len() implies (#[trigger] after[j] == among_first(
        u,
        k + 1,
        j,
    )) by {
        components_are_ordered(u.keys, u.calls, i, j, k, k);
        components_partition(u.keys, u.calls, i, j);
        if before[j] {
            let p = choose|p: int| 0 <= p < k && #[trigger] all[p].contains(u.keys[j]);
            assert(0 <= p < k + 1 && all[p].contains(u.keys[j]));
        }
        if same_component(u.calls, i, j) {
            assert(all[k].contains(u.keys[j]));
        }
        if among_first(u, k + 1, j) {
            let p = choose|p: int| 0 <= p < k + 1 && #[trigger] all[p].contains(u.keys[j]);
            if p < k {
                assert(among_first(u, k, j));
            }
        }
    }
}

impl<'a> Pass<'a> {
    /// The functions of a module.
    fn collect(
        module: &'a Module,
        prev: &'a Vec<LocalFunctionSymbol>,
        resolved: &'a Vec<ResolvedSymbol>,
    ) -> (r: Pass<'a>)
        ensures
            r.well_formed(),
            r.unit() == unit_of(*module, signatures_of(prev@), resolved_of(resolved@)),
    {
        let (items, keys) = gather(module);
        let ghost u = unit_of(*module, signatures_of(prev@), resolved_of(resolved@));
        let mut prints: Vec<String> = Vec::new();
        let mut calls: Vec<Vec<usize>> = Vec::new();
        let mut i: usize = 0;
        while i < keys.len()
            invariant
                i <= keys@.len(),
                u == unit_of(*module, signatures_of(prev@), resolved_of(resolved@)),
                texts(keys@) == u.keys,
                items@.len() == keys@.len(),
                forall|p: int|
                    0 <= p < items@.len() ==> (#[trigger] items@[p]) < module.items@.len()
                        && module.items@[items@[p] as int] is Function
                        && module.items@[items@[p] as int]->Function_0 == u.funcs[p],
                prints@.len() == i,
                calls@.len() == i,
                forall|p: int|
                    0 <= p < prints@.len() ==> (#[trigger] prints@[p])@ == function_print(
                        u.funcs[p],
                        locals_for(u.keys, u.keys[p]),
                    ).0,
                forall|p: int|
                    0 <= p < calls@.len() ==> Seq::new(
                        (#[trigger] calls@[p])@.len(),
                        |k: int| calls@[p]@[k] as int,
                    ) == u.calls[p],
            decreases keys@.len() - i,
        {
            let cx = LocalKeys { current: keys[i].clone(), keys: dup_strings(&keys) };
            assert(items@[i as int] < module.items@.len());
            match &module.items[items[i]] {
                Item::Function(f) => {
                    let (print, names) = function_fingerprint(f, &cx);
                    assert(cx.model() == locals_for(u.keys, u.keys[i as int]));
                    prints.push(print);
                    calls.push(places_of(&keys, &names));
                },
                _ => {
                    assert(false);
                },
            }
            i = i + 1;
        }
        proof {
            lemma_keys_distinct(functions_in(module.items@));
            assert(graph_of(calls@) =~= u.calls) by {
                assert forall|p: int| 0 <= p < calls@.len() implies #[trigger] graph_of(calls@)[p]
                    == u.calls[p] by {
                    assert(graph_of(calls@)[p] =~= Seq::new(
                        calls@[p]@.len(),
                        |k: int| calls@[p]@[k] as int,
                    ));
                }
            }
            assert forall|p: int, k: int|
                0 <= p < u.calls.len() && 0 <= k < u.calls[p].len() implies 0
                <= #[trigger] u.calls[p][k] < u.calls.len() by {
                lemma_places_in_range(
                    u.keys,
                    function_print(u.funcs[p], locals_for(u.keys, u.keys[p])).1,
                );
            }
        }
        let reach = reach_rows(&calls);
        let r = Pass { module, items, keys, prints, calls, reach, prev, resolved };
        assert(r.unit().funcs =~= u.funcs);
        assert(r.unit() == u);
        r
    }

    /// The addresses of the bodies and of the types.
    fn sources(&self, book: &ContentHashes) -> (r: Result<(Vec<String>, Vec<String>), HashRequest>)
        requires
            self.well_formed(),
        ensures
            r matches Ok(p) ==> p.0@.len() == self.unit().keys.len() && p.1@.len()
                == self.unit().keys.len() && forall|i: int|
                0 <= i < self.unit().keys.len() ==> known(
                    book.model(),
                    #[trigger] body_request(self.unit(), i),
                ) == Some(p.0@[i]@) && known(book.model(), abi_request(self.unit(), i)) == Some(
                    p.1@[i]@,
                ),
            r matches Err(q) ==> known(book.model(), q.model()) is None && asks(
                self.unit(),
                book.model(),
                q.model(),
            ),
    {
        let ghost u = self.unit();
        let mut body: Vec<String> = Vec::new();
        let mut abi: Vec<String> = Vec::new();
        let mut i: usize = 0;
        while i < self.keys.len()
            invariant
                self.well_formed(),
                u == self.unit(),
                i <= self.keys@.len(),
                body@.len() == i,
                abi@.len() == i,
                forall|p: int|
                    0 <= p < i ==> known(book.model(), #[trigger] body_request(u, p)) == Some(
                        body@[p]@,
                    ) && known(book.model(), abi_request(u, p)) == Some(abi@[p]@),
            decreases self.keys@.len() - i,
        {
            let q1 = request1("lux-body-v1", self.prints[i].as_str());
            assert(q1.model() == body_request(u, i as int));
            match lookup(book, q1) {
                Ok(s) => {
                    body.push(s);
                },
                Err(q) => {
                    return Err(q);
                },
            }
            let q2 = request1("lux-abi-v1", function_abi_fingerprint(self.function(i)).as_str());
            assert(q2.model() == abi_request(u, i as int));
            match lookup(book, q2) {
                Ok(s) => {
                    abi.push(s);
                },
                Err(q) => {
                    return Err(q);
                },
            }
            i = i + 1;
        }
        Ok((body, abi))
    }

    /// How many functions each function reaches.
    fn ranks(&self) -> (r: Vec<usize>)
        requires
            self.well_formed(),
        ensures
            r@.len() == self.unit().keys.len(),
            forall|i: int|
                0 <= i < r@.len() ==> #[trigger] r@[i] == reach_count(
                    self.unit().calls,
                    i,
                    self.unit().calls.len(),
                ),
    {
        let ghost u = self.unit();
        let mut out: Vec<usize> = Vec::new();
        let mut i: usize = 0;
        while i < self.keys.len()
            invariant
                self.well_formed(),
                u == self.unit(),
                i <= self.keys@.len(),
                out@.len() == i,
                forall|p: int|
                    0 <= p < i ==> #[trigger] out@[p] == reach_count(u.calls, p, u.calls.len()),
            decreases self.keys@.len() - i,
        {
            let mut n: usize = 0;
            let mut j: usize = 0;
            assert(self.reach@[i as int]@.len() == self.keys@.len());
            while j < self.keys.len()
                invariant
                    self.well_formed(),
                    u == self.unit(),
                    i < self.keys@.len(),
                    self.reach@[i as int]@.len() == self.keys@.len(),
                    j <= self.keys@.len(),
                    n <= j,
                    n == reach_count(u.calls, i as int, j as nat),
                decreases self.keys@.len() - j,
            {
                if self.reach[i][j] {
                    n = n + 1;
                }
                j = j + 1;
            }
            out.push(n);
            i = i + 1;
        }
        out
    }

    /// The addresses of a member of the component of function `i`.
    fn settle_one(
        &self,
        book: &ContentHashes,
        h: &HashTable,
        done: &Vec<bool>,
        i: usize,
        j: usize,
        text: &str,
    ) -> (r: Result<(String, String), HashRequest>)
        requires
            self.well_formed(),
            i < self.unit().keys.len(),
            j < self.unit().keys.len(),
            progress(self.unit(), book.model(), h.model(), done@),
            !done@[i as int],
            ready(self.unit(), done_set(done@), i as int),
            same_component(self.unit().calls, i as int, j as int),
            text@ == component_text(self.unit(), h.model(), i as int),
        ensures
            r matches Ok(p) ==> found_for(
                self.unit(),
                book.model(),
                h.model(),
                j as int,
                p.0@,
                p.1@,
            ),
            r matches Err(q) ==> known(book.model(), q.model()) is None && asks(
                self.unit(),
                book.model(),
                q.model(),
            ),
    {
        proof {
            reveal(progress);
            reveal(found_for);
        }
        let ghost u = self.unit();
        let ghost hm = h.model();
        let place = self.slot_of(h, j);
        let q1 = request2("lux-artifact-v2", text, usize_text(place).as_str());
        proof {
            lemma_same_members(u, hm, i as int, j as int, u.keys.len());
            assert(q1.model() == artifact_request(u, hm, j as int));
        }
        let a = match lookup(book, q1) {
            Ok(a) => a,
            Err(q) => {
                proof {
                    lemma_ready_shared(u, done_set(done@), i as int, j as int);
                    assert(asks_artifact(
                        u,
                        book.model(),
                        hm,
                        done_set(done@),
                        j as int,
                        q.model(),
                    ));
                }
                return Err(q);
            },
        };
        let q2 = build_key_request(a.as_str());
        match lookup(book, q2) {
            Ok(b) => Ok((a, b)),
            Err(q) => {
                proof {
                    let h2 = Hashes { artifact: hm.artifact.update(j as int, a@), ..hm };
                    lemma_asks_build(u, book.model(), hm, h2, done@, i as int, j as int);
                }
                Err(q)
            },
        }
    }

    /// The addresses of the component of function `i`.
    #[verifier::spinoff_prover]
    fn settle(
        &self,
        book: &ContentHashes,
        h: &HashTable,
        done: &Vec<bool>,
        i: usize,
    ) -> (r: Result<(Vec<String>, Vec<String>, Vec<bool>), HashRequest>)
        requires
            self.well_formed(),
            i < self.unit().keys.len(),
            progress(self.unit(), book.model(), h.model(), done@),
            !done@[i as int],
            ready(self.unit(), done_set(done@), i as int),
        ensures
            r matches Ok(p) ==> p.0@.len() == done@.len() && p.1@.len() == done@.len() && progress(
                self.unit(),
                book.model(),
                (Hashes { artifact: texts(p.0@), build: texts(p.1@), ..h.model() }),
                p.2@,
            ) && p.2@.len() == done@.len() && forall|j: int|
                0 <= j < done@.len() ==> (#[trigger] p.2@[j]) == (done@[j] || same_component(
                    self.unit().calls,
                    i as int,
                    j,
                )),
            r matches Err(q) ==> known(book.model(), q.model()) is None && asks(
                self.unit(),
                book.model(),
                q.model(),
            ),
    {
        proof {
            reveal(progress);
        }
        let ghost u = self.unit();
        let ghost hm = h.model();
        let text = self.serialize_scc_template(h, i);
        let mut artifact = dup_strings(&h.artifact);
        let mut build = dup_strings(&h.build);
        let mut done2: Vec<bool> = Vec::new();
        let mut j: usize = 0;
        while j < self.keys.len()
            invariant
                self.well_formed(),
                u == self.unit(),
                hm == h.model(),
                i < u.keys.len(),
                done@.len() == u.keys.len(),
                u.keys.len() == self.keys@.len(),
                progress(u, book.model(), hm, done@),
                !done@[i as int],
                ready(u, done_set(done@), i as int),
                text@ == component_text(u, hm, i as int),
                j <= self.keys@.len(),
                artifact@.len() == self.keys@.len(),
                build@.len() == self.keys@.len(),
                done2@.len() == j,
                forall|p: int|
                    0 <= p < j ==> (#[trigger] done2@[p]) == (done@[p] || same_component(
                        u.calls,
                        i as int,
                        p,
                    )),
                forall|p: int|
                    0 <= p < u.keys.len() && (p >= j || !same_component(u.calls, i as int, p))
                        ==> (#[trigger] artifact@[p])@ == hm.artifact[p],
                forall|p: int|
                    0 <= p < u.keys.len() && (p >= j || !same_component(u.calls, i as int, p))
                        ==> (#[trigger] build@[p])@ == hm.build[p],
                forall|p: int|
                    0 <= p < j && #[trigger] same_component(u.calls, i as int, p) ==> found_for(
                        u,
                        book.model(),
                        hm,
                        p,
                        artifact@[p]@,
                        build@[p]@,
                    ),
            decreases self.keys@.len() - j,
        {
            let ghost artifact0 = artifact@;
            let ghost build0 = build@;
            if self.together(i, j) {
                match self.settle_one(book, h, done, i, j, text.as_str()) {
                    Ok((a, b)) => {
                        artifact.set(j, a);
                        build.set(j, b);
                    },
                    Err(q) => {
                        return Err(q);
                    },
                }
                done2.push(true);
            } else {
                done2.push(done[j]);
            }
            proof {
                assert forall|p: int|
                    0 <= p < u.keys.len() && (p >= j + 1 || !same_component(
                        u.calls,
                        i as int,
                        p,
                    )) implies (#[trigger] artifact@[p])@ == hm.artifact[p] by {
                    assert(artifact0[p]@ == hm.artifact[p]);
                }
                assert forall|p: int|
                    0 <= p < u.keys.len() && (p >= j + 1 || !same_component(
                        u.calls,
                        i as int,
                        p,
                    )) implies (#[trigger] build@[p])@ == hm.build[p] by {
                    assert(build0[p]@ == hm.build[p]);
                }
                assert forall|p: int|
                    0 <= p < j + 1 && #[trigger] same_component(
                        u.calls,
                        i as int,
                        p,
                    ) implies found_for(u, book.model(), hm, p, artifact@[p]@, build@[p]@) by {
                    if p < j {
                        assert(artifact@[p] == artifact0[p] && build@[p] == build0[p]);
                    }
                }
            }
            j = j + 1;
        }
        proof {
            let h2 = Hashes { artifact: texts(artifact@), build: texts(build@), ..hm };
            lemma_progress(u, book.model(), hm, h2, done@, done2@, i as int);
        }
        Ok((artifact, build, done2))
    }

    /// The keys of the component of function `i`, in ascending order.
    fn component(&self, i: usize) -> (r: Vec<String>)
        requires
            self.well_formed(),
            i < self.keys@.len(),
        ensures
            texts(r@) == component(self.unit().keys, self.unit().calls, i as int),
    {
        let ghost u = self.unit();
        let mut out: Vec<String> = Vec::new();
        let mut j: usize = 0;
        assert(texts(out@) =~= Seq::empty());
        while j < self.keys.len()
            invariant
                self.well_formed(),
                u == self.unit(),
                i < self.keys@.len(),
                j <= self.keys@.len(),
                texts(out@) == members(u.keys, u.calls, i as int, j as nat),
            decreases self.keys@.len() - j,
        {
            if self.together(i, j) {
                let ghost before = out@;
                out.push(self.keys[j].clone());
                assert(texts(out@) =~= texts(before).push(u.keys[j as int]));
            }
            j = j + 1;
        }
        sort_texts(&out)
    }

    /// The least keys of the components that reach `rank` functions.
    fn least_keys(&self, ranks: &Vec<usize>, parts: &Vec<Vec<String>>, rank: usize) -> (r: Vec<
        String,
    >)
        requires
            self.well_formed(),
            self.ranked(ranks@),
            self.parted(parts@),
        ensures
            texts(r@) == least_keys(
                self.unit().keys,
                self.unit().calls,
                rank as nat,
                self.unit().keys.len(),
            ),
    {
        let ghost u = self.unit();
        let mut out: Vec<String> = Vec::new();
        let mut j: usize = 0;
        assert(texts(out@) =~= Seq::empty());
        while j < self.keys.len()
            invariant
                self.well_formed(),
                u == self.unit(),
                self.ranked(ranks@),
                self.parted(parts@),
                j <= self.keys@.len(),
                texts(out@) == least_keys(u.keys, u.calls, rank as nat, j as nat),
            decreases self.keys@.len() - j,
        {
            proof {
                lemma_least(u.keys, u.calls, j as int);
                assert(texts(parts@[j as int]@)[0] == parts@[j as int]@[0]@);
            }
            if ranks[j] == rank && same(parts[j][0].as_str(), self.keys[j].as_str()) {
                let ghost before = out@;
                out.push(self.keys[j].clone());
                assert(texts(out@) =~= texts(before).push(u.keys[j as int]));
            }
            j = j + 1;
        }
        out
    }

    /// Whether `ranks` are the ranks of the functions.
    spec fn ranked(&self, ranks: Seq<usize>) -> bool {
        let u = self.unit();
        &&& ranks.len() == u.keys.len()
        &&& forall|i: int| 0 <= i < ranks.len() ==> #[trigger] ranks[i] == rank(u.calls, i)
    }

    /// Whether `parts` are the components of the functions.
    spec fn parted(&self, parts: Seq<Vec<String>>) -> bool {
        let u = self.unit();
        &&& parts.len() == u.keys.len()
        &&& forall|i: int|
            0 <= i < parts.len() ==> texts((#[trigger] parts[i])@) == component(u.keys, u.calls, i)
    }

    /// The components, one after those that it calls.
    fn components(&self) -> (r: Vec<Vec<String>>)
        requires
            self.well_formed(),
        ensures
            rows_of(r@) == components(self.unit().keys, self.unit().calls),
    {
        let ghost u = self.unit();
        let ranks = self.ranks();
        let mut parts: Vec<Vec<String>> = Vec::new();
        let mut i: usize = 0;
        while i < self.keys.len()
            invariant
                self.well_formed(),
                u == self.unit(),
                i <= self.keys@.len(),
                parts@.len() == i,
                forall|p: int|
                    0 <= p < i ==> texts((#[trigger] parts@[p])@) == component(u.keys, u.calls, p),
            decreases self.keys@.len() - i,
        {
            let part = self.component(i);
            parts.push(part);
            i = i + 1;
        }
        let mut out: Vec<Vec<String>> = Vec::new();
        let mut r: usize = 0;
        assert(rows_of(out@) =~= Seq::empty());
        while r < self.keys.len()
            invariant
                self.well_formed(),
                u == self.unit(),
                self.ranked(ranks@),
                self.parted(parts@),
                r <= self.keys@.len(),
                rows_of(out@) == levels(u.keys, u.calls, r as nat),
            decreases self.keys@.len() - r,
        {
            r = r + 1;
            let some = self.least_keys(&ranks, &parts, r);
            let firsts = sort_texts(&some);
            let ghost before = rows_of(out@);
            let ghost all = level(u.keys, u.calls, r as nat);
            let mut k: usize = 0;
            assert(before + all.take(0) =~= before);
            proof {
                lemma_firsts(u.keys, u.calls, r as nat);
            }
            while k < firsts.len()
                invariant
                    self.well_formed(),
                    u == self.unit(),
                    self.parted(parts@),
                    texts(firsts@) == sorted_texts(
                        least_keys(u.keys, u.calls, r as nat, u.keys.len()),
                    ),
                    all == level(u.keys, u.calls, r as nat),
                    forall|x: Seq<char>| #[trigger]
                        texts(firsts@).contains(x) ==> u.keys.contains(x),
                    k <= firsts@.len(),
                    rows_of(out@) == before + all.take(k as int),
                decreases firsts@.len() - k,
            {
                let j = place_of(&self.keys, firsts[k].as_str());
                proof {
                    assert(texts(firsts@)[k as int] == firsts@[k as int]@);
                    assert(texts(firsts@).contains(firsts@[k as int]@));
                    lemma_place_found(u.keys, firsts@[k as int]@);
                }
                let ghost old_out = rows_of(out@);
                let part = dup_strings(&parts[j]);
                out.push(part);
                assert(rows_of(out@) =~= old_out.push(all[k as int]));
                assert(before + all.take(k as int + 1) =~= (before + all.take(k as int)).push(
                    all[k as int],
                ));
                k = k + 1;
            }
            assert(all.take(k as int) =~= all);
        }
        out
    }

    /// The addresses of all functions.
    fn run(&self, book: &ContentHashes) -> (r: Result<HashTable, HashRequest>)
        requires
            self.well_formed(),
        ensures
            r matches Ok(h) ==> addresses(self.unit(), book.model(), h.model()),
            r matches Err(q) ==> known(book.model(), q.model()) is None && asks(
                self.unit(),
                book.model(),
                q.model(),
            ),
    {
        let ghost u = self.unit();
        let (body, abi) = match self.sources(book) {
            Ok(p) => p,
            Err(q) => {
                return Err(q);
            },
        };
        let list = self.components();
        let mut done: Vec<bool> = Vec::new();
        let mut blank: Vec<String> = Vec::new();
        let mut i: usize = 0;
        while i < self.keys.len()
            invariant
                i <= self.keys@.len(),
                done@.len() == i,
                blank@.len() == i,
                forall|p: int| 0 <= p < i ==> !done@[p],
            decreases self.keys@.len() - i,
        {
            done.push(false);
            blank.push(String::new());
            i = i + 1;
        }
        let build0 = dup_strings(&blank);
        let mut h = HashTable { body, abi, artifact: blank, build: build0 };
        proof {
            reveal(progress);
        }
        let ghost all = components(u.keys, u.calls);
        let mut k: usize = 0;
        while k < list.len()
            invariant
                self.well_formed(),
                u == self.unit(),
                is_call_graph(u.keys, u.calls),
                all == components(u.keys, u.calls),
                rows_of(list@) == all,
                k <= list@.len(),
                progress(u, book.model(), h.model(), done@),
                first_done(u, k as int, done@),
            decreases list@.len() - k,
        {
            proof {
                assert(rows_of(list@)[k as int] == texts(list@[k as int]@));
                lemma_listed(u.keys, u.calls, k as int);
            }
            let i = place_of(&self.keys, list[k][0].as_str());
            proof {
                assert(texts(list@[k as int]@)[0] == list@[k as int]@[0]@);
                lemma_place_found(u.keys, all[k as int][0]);
                assert(all[k as int].contains(all[k as int][0]));
                lemma_ready(u, done@, k as int, i as int);
            }
            match self.settle(book, &h, &done, i) {
                Ok((artifact, build, done2)) => {
                    let ghost before = h.model();
                    h = HashTable { body: h.body, abi: h.abi, artifact, build };
                    assert(h.model() == (Hashes {
                        artifact: texts(artifact@),
                        build: texts(build@),
                        ..before
                    }));
                    proof {
                        lemma_first_done(u, done@, done2@, k as int, i as int);
                    }
                    done = done2;
                },
                Err(q) => {
                    return Err(q);
                },
            }
            k = k + 1;
        }
        proof {
            reveal(progress);
            assert forall|p: int| 0 <= p < u.keys.len() implies #[trigger] settled(
                u,
                book.model(),
                h.model(),
                p,
            ) by {
                lemma_is_listed(u.keys, u.calls, p);
                assert(among_first(u, all.len() as int, p));
                assert(done@[p]);
            }
        }
        Ok(h)
    }

    fn root(&self, i: usize) -> (r: bool)
        requires
            self.well_formed(),
            i < self.keys@.len(),
        ensures
            r == is_root(self.unit(), i as int),
    {
        let ghost u = self.unit();
        let mut j: usize = 0;
        while j < self.keys.len()
            invariant
                self.well_formed(),
                u == self.unit(),
                i < self.keys@.len(),
                j <= self.keys@.len(),
                forall|p: int|
                    0 <= p < j && text_less(#[trigger] u.keys[p], u.keys[i as int]) ==> !reaches(
                        u.calls,
                        p,
                        i as int,
                    ),
            decreases self.keys@.len() - j,
        {
            assert(self.reach@[j as int]@.len() == self.keys@.len());
            assert(u.keys[j as int] == self.keys@[j as int]@);
            if comes_before(self.keys[j].as_str(), self.keys[i].as_str()) && self.reach[j][i] {
                return false;
            }
            j = j + 1;
        }
        true
    }

    /// The function with the smallest key.
    fn smallest(&self) -> (r: usize)
        requires
            self.well_formed(),
            self.keys@.len() > 0,
        ensures
            r < self.keys@.len(),
            forall|j: int|
                0 <= j < self.unit().keys.len() ==> !text_less(
                    #[trigger] self.unit().keys[j],
                    self.unit().keys[r as int],
                ),
    {
        let ghost ks = self.unit().keys;
        let mut best: usize = 0;
        let mut i: usize = 0;
        while i < self.keys.len()
            invariant
                ks == texts(self.keys@),
                i <= self.keys@.len(),
                best < self.keys@.len(),
                forall|j: int| 0 <= j < i ==> !text_less(#[trigger] ks[j], ks[best as int]),
            decreases self.keys@.len() - i,
        {
            if comes_before(self.keys[i].as_str(), self.keys[best].as_str()) {
                proof {
                    assert forall|j: int| 0 <= j <= i implies !text_less(
                        #[trigger] ks[j],
                        ks[i as int],
                    ) by {
                        text_irreflexive(ks[j]);
                        if j < i && text_less(ks[j], ks[i as int]) {
                            text_transitive(ks[j], ks[i as int], ks[best as int]);
                        }
                    }
                }
                best = i;
            }
            i = i + 1;
        }
        best
    }

    fn last_root(&self) -> (r: usize)
        requires
            self.well_formed(),
            self.keys@.len() > 0,
        ensures
            is_last_root(self.unit(), r as int),
    {
        let ghost u = self.unit();
        let mut best = self.smallest();
        assert(is_root(u, best as int));
        let mut i: usize = 0;
        while i < self.keys.len()
            invariant
                self.well_formed(),
                u == self.unit(),
                i <= self.keys@.len(),
                best < self.keys@.len(),
                is_root(u, best as int),
                forall|j: int|
                    0 <= j < i && #[trigger] is_root(u, j) ==> j == best || text_less(
                        u.keys[j],
                        u.keys[best as int],
                    ),
            decreases self.keys@.len() - i,
        {
            if self.root(i) {
                if comes_before(self.keys[best].as_str(), self.keys[i].as_str()) {
                    proof {
                        assert forall|j: int| 0 <= j < i && #[trigger] is_root(u, j) implies j == i
                            || text_less(u.keys[j], u.keys[i as int]) by {
                            if j != best {
                                text_transitive(u.keys[j], u.keys[best as int], u.keys[i as int]);
                            }
                        }
                    }
                    best = i;
                } else {
                    proof {
                        text_total(u.keys[best as int], u.keys[i as int]);
                    }
                }
            }
            i = i + 1;
        }
        best
    }
}

/// What is ready for one member of a component is ready for each.
proof fn lemma_ready_shared(u: Unit, done: Set<int>, i: int, j: int)
    requires
        same_component(u.calls, i, j),
        ready(u, done, i),
    ensures
        ready(u, done, j),
{
    assert forall|m: int, k: int|
        0 <= m < u.keys.len() && same_component(u.calls, j, m) && 0 <= k < u.calls[m].len()
            && !same_component(u.calls, m, u.calls[m][k]) implies done.contains(
        #[trigger] u.calls[m][k],
    ) by {
        component_equivalence(u.calls, i, j, m);
    }
}

/// The build of an artifact that is known is asked for.
proof fn lemma_asks_build(
    u: Unit,
    book: Seq<(Request, Seq<char>)>,
    h1: Hashes,
    h2: Hashes,
    done: Seq<bool>,
    i: int,
    j: int,
)
    requires
        u.keys.no_duplicates(),
        u.calls.len() == u.keys.len(),
        is_graph(u.calls),
        progress(u, book, h1, done),
        0 <= i < done.len(),
        0 <= j < done.len(),
        !done[i],
        ready(u, done_set(done), i),
        same_component(u.calls, i, j),
        h2.body == h1.body,
        h2.abi == h1.abi,
        h2.build == h1.build,
        h2.artifact == h1.artifact.update(j, h2.artifact[j]),
        known(book, artifact_request(u, h1, j)) == Some(h2.artifact[j]),
    ensures
        asks(u, book, build_parts(h2.artifact[j])),
{
    reveal(progress);
    let d = done_set(done);
    if done[j] {
        component_equivalence(u.calls, i, j, i);
        assert(done[i]);
    }
    assert forall|e: int| 0 <= e < u.keys.len() && (done[e] || e == j) implies artifact_request(
        u,
        h1,
        e,
    ) == #[trigger] artifact_request(u, h2, e) by {
        if e == j {
            lemma_ready_shared(u, d, i, j);
        }
        assert(ready(u, d, e));
        assert forall|m: int|
            0 <= m < u.keys.len() && same_component(u.calls, e, m) implies #[trigger] agree(
            u,
            h1,
            h2,
            m,
        ) by {
            assert forall|k: int|
                0 <= k < u.calls[m].len() && !same_component(
                    u.calls,
                    m,
                    u.calls[m][k],
                ) implies h1.artifact[#[trigger] u.calls[m][k]] == h2.artifact[u.calls[m][k]] by {
                assert(d.contains(u.calls[m][k]));
            }
        }
        lemma_component_frame(u, h1, h2, e);
    }
    lemma_ready_shared(u, d, i, j);
    assert forall|q: int| 0 <= q < u.keys.len() implies known(book, #[trigger] body_request(u, q))
        == Some(h2.body[q]) && known(book, abi_request(u, q)) == Some(h2.abi[q]) by {}
    assert forall|e: int| d.contains(e) implies 0 <= e < u.keys.len() && #[trigger] settled(
        u,
        book,
        h2,
        e,
    ) by {
        assert(settled(u, book, h1, e));
        assert(artifact_request(u, h1, e) == artifact_request(u, h2, e));
    }
    assert(artifact_request(u, h1, j) == artifact_request(u, h2, j));
    assert(asks_artifact(u, book, h2, d, j, build_parts(h2.artifact[j])));
}

/// Computes the addresses of a module's functions from those that are known.
/// `prev` are the functions that the translator held before. Where an address
/// is not known, the request for it comes back; with the answer added, the next
/// call gets further.
pub fn compute_function_hashes(
    module: &Module,
    prev: &Vec<LocalFunctionSymbol>,
    resolved: &Vec<ResolvedSymbol>,
    book: &ContentHashes,
) -> (r: Result<FunctionHashes, HashRequest>)
    ensures
        r matches Ok(h) ==> hashed(
            unit_of(*module, signatures_of(prev@), resolved_of(resolved@)),
            book.model(),
            h,
        ),
        r matches Err(q) ==> known(book.model(), q.model()) is None && asks(
            unit_of(*module, signatures_of(prev@), resolved_of(resolved@)),
            book.model(),
            q.model(),
        ),
{
    let pass = Pass::collect(module, prev, resolved);
    let ghost u = pass.unit();
    match pass.run(book) {
        Ok(h) => {
            let mut fresh: Option<FreshVars> = None;
            if pass.keys.len() > 0 {
                let root = pass.last_root();
                let rows = pass.ordered(&h, root);
                let end = rows.len() - 1;
                assert(rows@[end as int]@.len() == 3);
                let last = place_of(&pass.keys, rows[end][2].as_str());
                assert(ordered_rows(u, h.model(), root as int).last()[2] == rows@[end as int]@[2]@) by {
                    assert(rows_of(rows@)[end as int][2] == rows@[end as int]@[2]@);
                }
                let (_, vars) = pass.emit_template_module(&h, last);
                assert(vars.next() == template_end(u, h.model(), root as int));
                fresh = Some(vars);
            }
            Ok(FunctionHashes { keys: pass.keys, calls: pass.calls, table: h, fresh })
        },
        Err(q) => Err(q),
    }
}

} // verus!
