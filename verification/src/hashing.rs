//! Content addresses of functions: what is hashed for each function of a
//! module, given the hashes that are known already.
use vstd::prelude::*;
use vstd::utf8::encode_utf8;
use crate::ast::{Function, Item, Module};
use crate::canon::canon_fundef;
use crate::emit::module_text;
use crate::erlang::{CoreMod, FunDef};
use crate::fingerprint::{abi_print, function_key, function_print, Locals};
use crate::graph::{same_component, Graph};
use crate::lower::{lowered, param_vars, SymbolTable};
use crate::names::text_of;
use crate::order::{sorted_rows, Row};
use crate::text::{decimal, joined, same, texts, with_new};

verus! {

/// What a content address is computed from: a tag and parts.
pub type Request = (Seq<char>, Seq<Seq<char>>);

/// A content address that is asked for.
pub struct HashRequest {
    pub tag: String,
    pub parts: Vec<String>,
}

impl HashRequest {
    pub open spec fn model(self) -> Request {
        (self.tag@, texts(self.parts@))
    }
}

/// The address of the latest entry for a request.
pub open spec fn known(entries: Seq<(Request, Seq<char>)>, q: Request) -> Option<Seq<char>>
    decreases entries.len(),
{
    if entries.len() == 0 {
        None
    } else if entries.last().0 == q {
        Some(entries.last().1)
    } else {
        known(entries.drop_last(), q)
    }
}

/// The content addresses that are known.
pub struct ContentHashes {
    entries: Vec<(HashRequest, String)>,
}

fn same_strings(a: &Vec<String>, b: &Vec<String>) -> (r: bool)
    ensures
        r == (texts(a@) == texts(b@)),
{
    if a.len() != b.len() {
        assert(texts(a@).len() != texts(b@).len());
        return false;
    }
    let mut i: usize = 0;
    while i < a.len()
        invariant
            i <= a@.len(),
            a@.len() == b@.len(),
            forall|j: int| 0 <= j < i ==> a@[j]@ == b@[j]@,
        decreases a@.len() - i,
    {
        if !same(a[i].as_str(), b[i].as_str()) {
            assert(texts(a@)[i as int] != texts(b@)[i as int]);
            return false;
        }
        i = i + 1;
    }
    assert(texts(a@) =~= texts(b@));
    true
}

impl ContentHashes {
    /// The entries, the oldest first.
    pub closed spec fn model(self) -> Seq<(Request, Seq<char>)> {
        Seq::new(self.entries@.len(), |i: int| (self.entries@[i].0.model(), self.entries@[i].1@))
    }

    pub fn new() -> (r: Self)
        ensures
            r.model() == Seq::<(Request, Seq<char>)>::empty(),
    {
        let r = ContentHashes { entries: Vec::new() };
        assert(r.model() =~= Seq::empty());
        r
    }

    /// Adds an address.
    pub fn insert(&mut self, request: HashRequest, hash: String)
        ensures
            final(self).model() == old(self).model().push((request.model(), hash@)),
    {
        self.entries.push((request, hash));
        assert(self.model() =~= old(self).model().push((request.model(), hash@)));
    }

    /// The address for a request, if it is known.
    pub fn get(&self, request: &HashRequest) -> (r: Option<String>)
        ensures
            text_of(r) == known(self.model(), request.model()),
    {
        let ghost all = self.model();
        let mut i: usize = self.entries.len();
        assert(all.take(i as int) =~= all);
        while i > 0
            invariant
                i <= self.entries@.len(),
                all == self.model(),
                known(all, request.model()) == known(all.take(i as int), request.model()),
            decreases i,
        {
            i = i - 1;
            assert(all.take(i as int + 1).drop_last() =~= all.take(i as int));
            if same(self.entries[i].0.tag.as_str(), request.tag.as_str()) && same_strings(
                &self.entries[i].0.parts,
                &request.parts,
            ) {
                return Some(self.entries[i].1.clone());
            }
        }
        None
    }
}

/// The version that build keys carry.
pub open spec fn version_text() -> Seq<char> {
    "0.1.0"@
}

/// The version that build keys carry.
pub fn version() -> (r: &'static str)
    ensures
        r@ == version_text(),
{
    "0.1.0"
}

/// The function items in order.
pub open spec fn functions_in(items: Seq<Item>) -> Seq<Function>
    decreases items.len(),
{
    if items.len() == 0 {
        Seq::empty()
    } else {
        match items.last() {
            Item::Function(f) => functions_in(items.drop_last()).push(f),
            _ => functions_in(items.drop_last()),
        }
    }
}

/// The key of a function definition.
pub open spec fn key_text(f: Function) -> Seq<char> {
    function_key(f.name@, f.params@.len())
}

/// The functions' keys, each once, in the order in which they first occur.
pub open spec fn keys_in(fs: Seq<Function>) -> Seq<Seq<char>>
    decreases fs.len(),
{
    if fs.len() == 0 {
        Seq::empty()
    } else {
        with_new(keys_in(fs.drop_last()), key_text(fs.last()))
    }
}

/// The last definition with a key.
pub open spec fn definition(fs: Seq<Function>, key: Seq<char>) -> Function
    decreases fs.len(),
{
    if fs.len() == 0 {
        arbitrary()
    } else if key_text(fs.last()) == key {
        fs.last()
    } else {
        definition(fs.drop_last(), key)
    }
}

/// The first place of a text, or the length if it is not there.
pub open spec fn place(s: Seq<Seq<char>>, x: Seq<char>) -> nat
    decreases s.len(),
{
    if s.len() == 0 {
        0
    } else if s[0] == x {
        0
    } else {
        1 + place(s.drop_first(), x)
    }
}

/// The places of those texts that are there.
pub open spec fn places(s: Seq<Seq<char>>, xs: Seq<Seq<char>>) -> Seq<int>
    decreases xs.len(),
{
    if xs.len() == 0 {
        Seq::empty()
    } else if s.contains(xs.last()) {
        places(s, xs.drop_last()).push(place(s, xs.last()) as int)
    } else {
        places(s, xs.drop_last())
    }
}

/// A module as the hashing of its functions sees it: the keys, the function of
/// each key, the functions that each calls, and the names that a translation
/// may meet.
pub struct Unit {
    pub keys: Seq<Seq<char>>,
    pub funcs: Seq<Function>,
    pub calls: Graph,
    pub prev: Seq<(Seq<char>, nat)>,
    pub resolved: Seq<(Seq<char>, nat, Seq<char>)>,
}

pub open spec fn locals_for(keys: Seq<Seq<char>>, key: Seq<char>) -> Locals {
    Locals { current: key, keys }
}

/// The module's functions for hashing. `prev` are the functions that the
/// translator held before.
pub open spec fn unit_of(
    m: Module,
    prev: Seq<(Seq<char>, nat)>,
    resolved: Seq<(Seq<char>, nat, Seq<char>)>,
) -> Unit {
    let fs = functions_in(m.items@);
    let keys = keys_in(fs);
    Unit {
        keys,
        funcs: Seq::new(keys.len(), |i: int| definition(fs, keys[i])),
        calls: Seq::new(
            keys.len(),
            |i: int|
                places(
                    keys,
                    function_print(definition(fs, keys[i]), locals_for(keys, keys[i])).1,
                ),
        ),
        prev,
        resolved,
    }
}

/// The addresses of a module's functions.
pub struct Hashes {
    pub body: Seq<Seq<char>>,
    pub abi: Seq<Seq<char>>,
    pub artifact: Seq<Seq<char>>,
    pub build: Seq<Seq<char>>,
}

pub open spec fn body_request(u: Unit, i: int) -> Request {
    ("lux-body-v1"@, seq![function_print(u.funcs[i], locals_for(u.keys, u.keys[i])).0])
}

pub open spec fn abi_request(u: Unit, i: int) -> Request {
    ("lux-abi-v1"@, seq![abi_print(u.funcs[i])])
}

/// The members of a function's component among the first `k` functions, each
/// as the row that orders it.
pub open spec fn member_rows(u: Unit, h: Hashes, i: int, k: nat) -> Seq<Row>
    decreases k,
{
    if k == 0 {
        Seq::empty()
    } else {
        let front = member_rows(u, h, i, (k - 1) as nat);
        if same_component(u.calls, i, k - 1) {
            front.push(seq![h.body[k - 1], h.abi[k - 1], u.keys[k - 1]])
        } else {
            front
        }
    }
}

/// The members of a function's component, ordered by body, type and key.
pub open spec fn ordered_rows(u: Unit, h: Hashes, i: int) -> Seq<Row> {
    sorted_rows(member_rows(u, h, i, u.keys.len()))
}

/// The entries at one place of each row.
pub open spec fn column(rows: Seq<Row>, c: int) -> Seq<Seq<char>> {
    Seq::new(rows.len(), |r: int| rows[r][c])
}

/// The place of a function in its component.
pub open spec fn slot(u: Unit, h: Hashes, i: int) -> nat {
    place(column(ordered_rows(u, h, i), 2), u.keys[i])
}

/// The first `k` callees of a function that lie outside its component, each
/// as the row that orders it.
pub open spec fn outside_rows(u: Unit, h: Hashes, i: int, k: nat) -> Seq<Row>
    decreases k,
{
    if k == 0 {
        Seq::empty()
    } else {
        let front = outside_rows(u, h, i, (k - 1) as nat);
        let c = u.calls[i][k - 1];
        if same_component(u.calls, i, c) {
            front
        } else {
            front.push(seq![h.artifact[c], h.body[c], h.abi[c], u.keys[c]])
        }
    }
}

/// The callees outside the component, ordered by address, body, type and key.
pub open spec fn outside(u: Unit, h: Hashes, i: int) -> Seq<Row> {
    sorted_rows(outside_rows(u, h, i, u.calls[i].len()))
}

/// The module that a template of function `i` calls for a function that the
/// translator held before.
pub open spec fn template_target(u: Unit, h: Hashes, i: int, key: Seq<char>) -> Seq<char> {
    let c = place(u.keys, key) as int;
    if key == u.keys[i] {
        "__SELF__"@
    } else if u.keys.contains(key) && u.calls[i].contains(c) {
        if same_component(u.calls, i, c) {
            "__SCC_SLOT_"@ + decimal(slot(u, h, c)) + "__"@
        } else {
            "__EXT"@ + decimal(place(column(outside(u, h, i), 3), key)) + "__"@
        }
    } else {
        "__UNUSED__"@
    }
}

/// The functions that a template of function `i` may call by name.
pub open spec fn template_table(u: Unit, h: Hashes, i: int) -> SymbolTable {
    SymbolTable {
        functions: Seq::new(
            u.prev.len(),
            |p: int|
                (
                    u.prev[p].0,
                    u.prev[p].1,
                    template_target(u, h, i, function_key(u.prev[p].0, u.prev[p].1)),
                ),
        ),
        resolved: u.resolved,
    }
}

/// A function translated to a definition of `apply`, and the next free variable.
pub open spec fn applied(f: Function, tab: SymbolTable, n: nat) -> (FunDef, nat) {
    let (b, n1) = lowered(f.body, tab, n);
    (
        canon_fundef(
            FunDef {
                name: "apply"@,
                arity: f.params@.len(),
                params: param_vars(f.params@),
                body: b,
            },
        ),
        n1,
    )
}

/// A module that exports one definition of `apply`.
pub open spec fn apply_module(name: Seq<char>, def: FunDef) -> CoreMod {
    CoreMod { name, exports: seq![("apply"@, def.arity)], functions: seq![def] }
}

/// The text of a function's template.
#[verifier::opaque]
pub open spec fn template_source(u: Unit, h: Hashes, i: int) -> Seq<char> {
    module_text(
        apply_module("__MODULE__"@, applied(u.funcs[i], template_table(u, h, i), 0).0),
    )
}

/// A part with its length in bytes.
pub open spec fn part_text(v: Seq<char>) -> Seq<char> {
    "|"@ + decimal(encode_utf8(v).len()) + ":"@ + v
}

/// What a member adds to its component's template.
pub open spec fn member_text(u: Unit, h: Hashes, i: int) -> Seq<char> {
    part_text(h.body[i]) + part_text(h.abi[i]) + part_text(
        joined(column(outside(u, h, i), 0), ","@),
    ) + part_text(template_source(u, h, i))
}

/// The parts of the members that the rows stand for.
pub open spec fn members_text(u: Unit, h: Hashes, rows: Seq<Row>) -> Seq<char>
    decreases rows.len(),
{
    if rows.len() == 0 {
        Seq::empty()
    } else {
        members_text(u, h, rows.drop_last()) + member_text(
            u,
            h,
            place(u.keys, rows.last()[2]) as int,
        )
    }
}

/// The template of a function's component.
pub open spec fn component_text(u: Unit, h: Hashes, i: int) -> Seq<char> {
    "schema:"@ + "lux-artifact-v2"@ + "|target:"@ + "beam"@ + "|backend:"@ + "erlang-core"@
        + "|members:"@ + members_text(u, h, ordered_rows(u, h, i))
}

pub open spec fn artifact_request(u: Unit, h: Hashes, i: int) -> Request {
    ("lux-artifact-v2"@, seq![component_text(u, h, i), decimal(slot(u, h, i))])
}

pub open spec fn build_request(u: Unit, h: Hashes, i: int) -> Request {
    (
        "lux-build-v1"@,
        seq![
            h.artifact[i],
            version_text(),
            "beam"@,
            "erlang-core"@,
            "erlc"@,
            "opt:none"@,
            "runtime:default"@,
        ],
    )
}

/// Whether there is one entry of each kind for each function.
pub open spec fn sized(u: Unit, h: Hashes) -> bool {
    &&& h.body.len() == u.keys.len()
    &&& h.abi.len() == u.keys.len()
    &&& h.artifact.len() == u.keys.len()
    &&& h.build.len() == u.keys.len()
}

/// Whether the bodies' and types' addresses are those that are known.
pub open spec fn sources_known(u: Unit, book: Seq<(Request, Seq<char>)>, h: Hashes) -> bool {
    forall|i: int|
        0 <= i < u.keys.len() ==> known(book, #[trigger] body_request(u, i)) == Some(h.body[i])
            && known(book, abi_request(u, i)) == Some(h.abi[i])
}

/// Whether the addresses of function `i` are those that are known.
pub open spec fn settled(u: Unit, book: Seq<(Request, Seq<char>)>, h: Hashes, i: int) -> bool {
    &&& known(book, artifact_request(u, h, i)) == Some(h.artifact[i])
    &&& known(book, build_request(u, h, i)) == Some(h.build[i])
}

/// Whether `h` holds the address of every function of the module. The address
/// of a function rests on those of the functions that its component calls.
pub open spec fn addresses(u: Unit, book: Seq<(Request, Seq<char>)>, h: Hashes) -> bool {
    &&& sized(u, h)
    &&& sources_known(u, book, h)
    &&& forall|i: int| 0 <= i < u.keys.len() ==> #[trigger] settled(u, book, h, i)
}

/// Whether the functions that the component of `i` calls, and that lie outside
/// of it, are all settled.
pub open spec fn ready(u: Unit, done: Set<int>, i: int) -> bool {
    forall|j: int, k: int|
        0 <= j < u.keys.len() && same_component(u.calls, i, j) && 0 <= k < u.calls[j].len()
            && !same_component(u.calls, j, u.calls[j][k]) ==> done.contains(#[trigger] u.calls[j][k])
}

/// Whether computing the addresses asks for `q`: a body or a type, or, once
/// what it rests on is settled, an artifact or its build.
pub open spec fn asks(u: Unit, book: Seq<(Request, Seq<char>)>, q: Request) -> bool {
    ||| exists|i: int| 0 <= i < u.keys.len() && q == #[trigger] body_request(u, i)
    ||| exists|i: int| 0 <= i < u.keys.len() && q == #[trigger] abi_request(u, i)
    ||| exists|h: Hashes, done: Set<int>, i: int| #[trigger] asks_artifact(u, book, h, done, i, q)
}

pub open spec fn asks_artifact(
    u: Unit,
    book: Seq<(Request, Seq<char>)>,
    h: Hashes,
    done: Set<int>,
    i: int,
    q: Request,
) -> bool {
    &&& sized(u, h)
    &&& sources_known(u, book, h)
    &&& 0 <= i < u.keys.len()
    &&& forall|d: int|
        done.contains(d) ==> 0 <= d < u.keys.len() && #[trigger] settled(u, book, h, d)
    &&& ready(u, done, i)
    &&& (q == artifact_request(u, h, i) || (known(book, artifact_request(u, h, i)) == Some(
        h.artifact[i],
    ) && q == build_request(u, h, i)))
}

} // verus!
