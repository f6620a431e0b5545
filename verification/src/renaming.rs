//! Renaming the variables of functions, one by one, changes no address.
use vstd::prelude::*;
use crate::ast::Function;
use crate::content::{addresses_unique, whole};
use crate::erlang::FunDef;
use crate::fingerprint::{abi_print, function_print, Locals};
use crate::hash_pass::lemma_ordered_members;
use crate::hashing::{
    abi_request, addresses, applied, artifact_request, body_request, component_text, known,
    locals_for, member_rows, members_text, ordered_rows, outside, outside_rows, place, settled,
    sources_known, template_source, template_table, template_target, Hashes, Request, Unit,
};
use crate::lower::{first_module, linked, lowered, param_vars, SymbolTable};
use crate::lower_alike::{canonical_translation_ignores_binders, respelled_function};
use crate::order::Row;
use crate::print_binders::{
    function_fingerprint_ignores_binders, function_fingerprint_ignores_order, rebound_function,
};
use crate::print_twin::{
    fingerprint_ignores_names, function_bound, same_key_injective, same_keys, twin_function,
};
use crate::swap::{all_names, canonical_form_ignores_names, covered, swap_fundef};
use crate::twin::{
    exchange, fair, params_swap, same_name, translation_swaps, twin_tables, Renaming,
};

verus! {

/// Whether two units hold functions under the same keys, in the same order,
/// that have the same fingerprints and call the same functions.
pub open spec fn same_sources(u: Unit, v: Unit) -> bool {
    &&& whole(u)
    &&& whole(v)
    &&& u.keys == v.keys
    &&& u.prev == v.prev
    &&& u.resolved == v.resolved
    &&& forall|i: int|
        0 <= i < u.keys.len() ==> abi_print(#[trigger] u.funcs[i]) == abi_print(v.funcs[i])
            && function_print(u.funcs[i], locals_for(u.keys, u.keys[i])) == function_print(
            v.funcs[i],
            locals_for(u.keys, u.keys[i]),
        )
}

/// Whether functions have the same canonical translation.
pub open spec fn same_templates(u: Unit, v: Unit, g: Hashes) -> bool {
    forall|i: int|
        0 <= i < u.keys.len() ==> applied(#[trigger] u.funcs[i], template_table(u, g, i), 0).0
            == applied(v.funcs[i], template_table(u, g, i), 0).0
}

proof fn lemma_calls(u: Unit, v: Unit)
    requires
        same_sources(u, v),
    ensures
        u.calls == v.calls,
{
    assert forall|i: int| 0 <= i < u.keys.len() implies #[trigger] u.calls[i] == v.calls[i] by {
        assert(abi_print(u.funcs[i]) == abi_print(v.funcs[i]));
    }
    assert(u.calls =~= v.calls);
}

proof fn lemma_member_rows(u: Unit, v: Unit, g: Hashes, i: int, k: nat)
    requires
        u.keys == v.keys,
        u.calls == v.calls,
    ensures
        member_rows(u, g, i, k) == member_rows(v, g, i, k),
    decreases k,
{
    if k > 0 {
        lemma_member_rows(u, v, g, i, (k - 1) as nat);
    }
}

proof fn lemma_outside_rows(u: Unit, v: Unit, g: Hashes, i: int, k: nat)
    requires
        u.keys == v.keys,
        u.calls == v.calls,
    ensures
        outside_rows(u, g, i, k) == outside_rows(v, g, i, k),
    decreases k,
{
    if k > 0 {
        lemma_outside_rows(u, v, g, i, (k - 1) as nat);
    }
}

proof fn lemma_table(u: Unit, v: Unit, g: Hashes, i: int)
    requires
        u.keys == v.keys,
        u.calls == v.calls,
        u.prev == v.prev,
        u.resolved == v.resolved,
    ensures
        template_table(u, g, i) == template_table(v, g, i),
        outside(u, g, i) == outside(v, g, i),
{
    lemma_outside_rows(u, v, g, i, u.calls[i].len());
    assert forall|key: Seq<char>| #[trigger]
        template_target(u, g, i, key) == template_target(v, g, i, key) by {
        let c = place(u.keys, key) as int;
        lemma_member_rows(u, v, g, c, u.keys.len());
    }
    assert(template_table(u, g, i).functions =~= template_table(v, g, i).functions);
}

proof fn lemma_members_text(u: Unit, v: Unit, g: Hashes, rows: Seq<Row>)
    requires
        same_sources(u, v),
        same_templates(u, v, g),
        forall|r: int|
            0 <= r < rows.len() ==> place(u.keys, #[trigger] rows[r][2])
                < u.keys.len(),
    ensures
        members_text(u, g, rows) == members_text(v, g, rows),
    decreases rows.len(),
{
    if rows.len() > 0 {
        let front = rows.drop_last();
        assert forall|r: int| 0 <= r < front.len() implies place(
            u.keys,
            #[trigger] front[r][2],
        ) < u.keys.len() by {
            assert(front[r] == rows[r]);
            assert(place(u.keys, rows[r][2]) < u.keys.len());
        }
        lemma_members_text(u, v, g, front);
        let key = rows[rows.len() - 1][2];
        let i = place(u.keys, key) as int;
        lemma_calls(u, v);
        lemma_table(u, v, g, i);
        assert(template_source(u, g, i) == template_source(v, g, i)) by {
            reveal(template_source);
            assert(applied(u.funcs[i], template_table(u, g, i), 0).0 == applied(
                v.funcs[i],
                template_table(u, g, i),
                0,
            ).0);
        }
    }
}

proof fn lemma_artifact(u: Unit, v: Unit, g: Hashes, i: int)
    requires
        same_sources(u, v),
        same_templates(u, v, g),
        0 <= i < u.keys.len(),
    ensures
        artifact_request(u, g, i) == artifact_request(v, g, i),
{
    lemma_calls(u, v);
    lemma_member_rows(u, v, g, i, u.keys.len());
    lemma_ordered_members(u, g, i);
    let rows = ordered_rows(u, g, i);
    assert forall|r: int| 0 <= r < rows.len() implies place(
        u.keys,
        #[trigger] rows[r][2],
    ) < u.keys.len() by {
        let row = rows[r];
    }
    lemma_members_text(u, v, g, rows);
    assert(component_text(u, g, i) == component_text(v, g, i));
}

/// Functions with the same fingerprints and the same canonical translations have
/// the same addresses.
pub proof fn templates_keep_addresses(
    u: Unit,
    v: Unit,
    book: Seq<(Request, Seq<char>)>,
    g: Hashes,
    h: Hashes,
)
    requires
        same_sources(u, v),
        same_templates(u, v, g),
        addresses(u, book, g),
        addresses(v, book, h),
    ensures
        g.body == h.body,
        g.abi == h.abi,
        g.artifact == h.artifact,
        g.build == h.build,
{
    assert(sources_known(v, book, g)) by {
        assert forall|i: int| 0 <= i < v.keys.len() implies known(
            book,
            #[trigger] body_request(v, i),
        ) == Some(g.body[i]) && known(book, abi_request(v, i)) == Some(g.abi[i]) by {
            assert(abi_print(u.funcs[i]) == abi_print(v.funcs[i]));
            assert(known(book, body_request(u, i)) == Some(g.body[i]));
        }
    }
    assert forall|i: int| 0 <= i < v.keys.len() implies #[trigger] settled(v, book, g, i) by {
        lemma_artifact(u, v, g, i);
        assert(settled(u, book, g, i));
    }
    addresses_unique(v, book, g, h);
}

proof fn lemma_unnamed(
    r: Renaming,
    s: Seq<(Seq<char>, nat, Seq<char>)>,
    x: Seq<char>,
    y: Seq<char>,
    k: nat,
)
    requires
        same_name(r, x, y),
        forall|p: int| 0 <= p < s.len() ==> same_name(r, (#[trigger] s[p]).0, s[p].0),
    ensures
        first_module(s, x, k) == first_module(s, y, k),
    decreases s.len(),
{
    if s.len() > 0 {
        assert(same_name(r, s[0].0, s[0].0));
        let rest = s.drop_first();
        assert forall|p: int| 0 <= p < rest.len() implies same_name(
            r,
            (#[trigger] rest[p]).0,
            rest[p].0,
        ) by {
            assert(rest[p] == s[p + 1]);
        }
        lemma_unnamed(r, rest, x, y, k);
    }
}

/// The fingerprint of a function, and what it calls, after an exchange of names
/// that no function at hand has.
proof fn lemma_print(r: Renaming, f: Function, g: Function, cx: Locals)
    requires
        twin_function(r, f, g),
        function_bound(r, f, cx),
        same_keys(r, cx.keys, cx.keys),
        cx.keys.contains(cx.current),
    ensures
        function_print(f, cx) == function_print(g, cx),
{
    let c = choose|c: int| 0 <= c < cx.keys.len() && cx.keys[c] == cx.current;
    fingerprint_ignores_names(r, f, g, cx, cx);
    function_fingerprint_ignores_order(f, cx, cx);
    let xs = function_print(f, cx).1;
    let ys = function_print(g, cx).1;
    assert forall|j: int| 0 <= j < xs.len() implies #[trigger] xs[j] == ys[j] by {
        assert(xs.contains(xs[j]));
        assert(cx.keys.contains(xs[j]));
        let m = choose|m: int| 0 <= m < cx.keys.len() && cx.keys[m] == xs[j];
        same_key_injective(r, cx.keys[m], cx.keys[m], xs[j], ys[j]);
    }
    assert(xs =~= ys);
}

/// The canonical translation of a function after an exchange of names that none
/// of the functions it may call has.
proof fn lemma_translation(r: Renaming, f: Function, g: Function, tab: SymbolTable)
    requires
        fair(r),
        twin_function(r, f, g),
        forall|p: int|
            0 <= p < tab.functions.len() ==> same_name(
                r,
                (#[trigger] tab.functions[p]).0,
                tab.functions[p].0,
            ),
        forall|p: int|
            0 <= p < tab.resolved.len() ==> same_name(
                r,
                (#[trigger] tab.resolved[p]).0,
                tab.resolved[p].0,
            ),
        covered(exchange(r), lowered(f.body, tab, 0).0, all_names(param_vars(f.params@))),
    ensures
        applied(f, tab, 0).0 == applied(g, tab, 0).0,
{
    let w = exchange(r);
    assert forall|x: Seq<char>, y: Seq<char>, k: nat| same_name(r, x, y) implies #[trigger] linked(
        tab,
        y,
        k,
    ) == #[trigger] linked(tab, x, k) by {
        lemma_unnamed(r, tab.functions, x, y, k);
        lemma_unnamed(r, tab.resolved, x, y, k);
    }
    assert(twin_tables(r, tab, tab));
    translation_swaps(r, f.body, g.body, tab, tab, 0);
    params_swap(r, f.params@, g.params@);
    let def = FunDef {
        name: "apply"@,
        arity: f.params@.len(),
        params: param_vars(f.params@),
        body: lowered(f.body, tab, 0).0,
    };
    canonical_form_ignores_names(w, def);
    assert(swap_fundef(w, def) == FunDef {
        name: "apply"@,
        arity: g.params@.len(),
        params: param_vars(g.params@),
        body: lowered(g.body, tab, 0).0,
    });
}

/// Exchanging two names in one function alone leaves every address as it is.
/// This holds if neither is free in the function or in its translation, and if
/// no function that may be called has one of the two names.
pub proof fn local_renaming_keeps_addresses(
    r: Renaming,
    u: Unit,
    v: Unit,
    k: int,
    book: Seq<(Request, Seq<char>)>,
    g: Hashes,
    h: Hashes,
)
    requires
        fair(r),
        whole(u),
        whole(v),
        0 <= k < u.keys.len(),
        u.keys == v.keys,
        u.prev == v.prev,
        u.resolved == v.resolved,
        u.funcs.len() == v.funcs.len(),
        forall|i: int| 0 <= i < u.funcs.len() && i != k ==> #[trigger] u.funcs[i] == v.funcs[i],
        twin_function(r, u.funcs[k], v.funcs[k]),
        abi_print(u.funcs[k]) == abi_print(v.funcs[k]),
        same_keys(r, u.keys, u.keys),
        forall|p: int|
            0 <= p < u.prev.len() ==> same_name(r, (#[trigger] u.prev[p]).0, u.prev[p].0),
        forall|p: int|
            0 <= p < u.resolved.len() ==> same_name(
                r,
                (#[trigger] u.resolved[p]).0,
                u.resolved[p].0,
            ),
        function_bound(r, u.funcs[k], locals_for(u.keys, u.keys[k])),
        covered(
            exchange(r),
            lowered(u.funcs[k].body, template_table(u, g, k), 0).0,
            all_names(param_vars(u.funcs[k].params@)),
        ),
        addresses(u, book, g),
        addresses(v, book, h),
    ensures
        g.body == h.body,
        g.abi == h.abi,
        g.artifact == h.artifact,
        g.build == h.build,
{
    let tab = template_table(u, g, k);
    lemma_print(r, u.funcs[k], v.funcs[k], locals_for(u.keys, u.keys[k]));
    assert forall|p: int| 0 <= p < tab.functions.len() implies same_name(
        r,
        (#[trigger] tab.functions[p]).0,
        tab.functions[p].0,
    ) by {
        assert(same_name(r, u.prev[p].0, u.prev[p].0));
    }
    lemma_translation(r, u.funcs[k], v.funcs[k], tab);
    assert forall|i: int| 0 <= i < u.keys.len() implies applied(
        #[trigger] u.funcs[i],
        template_table(u, g, i),
        0,
    ).0 == applied(v.funcs[i], template_table(u, g, i), 0).0 by {
        if i != k {
            assert(u.funcs[i] == v.funcs[i]);
        }
    }
    assert forall|i: int| 0 <= i < u.keys.len() implies abi_print(#[trigger] u.funcs[i])
        == abi_print(v.funcs[i]) && function_print(u.funcs[i], locals_for(u.keys, u.keys[i]))
        == function_print(v.funcs[i], locals_for(u.keys, u.keys[i])) by {
        if i != k {
            assert(u.funcs[i] == v.funcs[i]);
        }
    }
    templates_keep_addresses(u, v, book, g, h);
}

/// Functions that differ in the names of parameters and of other bound variables
/// alone have the same addresses. Each variable may have a new name of its own,
/// two of one name in different places too. A name stays where the fingerprint or
/// the translation takes it as free (the fingerprint so takes what a list
/// comprehension collects), and where a call or a pipe goes by it to a function or
/// a built-in.
pub proof fn respelling_keeps_addresses(
    u: Unit,
    v: Unit,
    book: Seq<(Request, Seq<char>)>,
    g: Hashes,
    h: Hashes,
)
    requires
        whole(u),
        whole(v),
        u.keys == v.keys,
        u.prev == v.prev,
        u.resolved == v.resolved,
        forall|i: int|
            0 <= i < u.keys.len() ==> abi_print(#[trigger] u.funcs[i]) == abi_print(v.funcs[i])
                && rebound_function(u.funcs[i], v.funcs[i], locals_for(u.keys, u.keys[i]))
                && respelled_function(u.funcs[i], v.funcs[i], template_table(u, g, i)),
        addresses(u, book, g),
        addresses(v, book, h),
    ensures
        g.body == h.body,
        g.abi == h.abi,
        g.artifact == h.artifact,
        g.build == h.build,
{
    assert forall|i: int| 0 <= i < u.keys.len() implies applied(
        #[trigger] u.funcs[i],
        template_table(u, g, i),
        0,
    ).0 == applied(v.funcs[i], template_table(u, g, i), 0).0 by {
        canonical_translation_ignores_binders(u.funcs[i], v.funcs[i], template_table(u, g, i));
    }
    assert forall|i: int| 0 <= i < u.keys.len() implies abi_print(#[trigger] u.funcs[i])
        == abi_print(v.funcs[i]) && function_print(u.funcs[i], locals_for(u.keys, u.keys[i]))
        == function_print(v.funcs[i], locals_for(u.keys, u.keys[i])) by {
        function_fingerprint_ignores_binders(
            u.funcs[i],
            v.funcs[i],
            locals_for(u.keys, u.keys[i]),
        );
    }
    templates_keep_addresses(u, v, book, g, h);
}

} // verus!
