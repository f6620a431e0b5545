//! The built-in functions whose translation takes more than one call: checked
//! casts of dynamic values and the decoders made of them.
use vstd::prelude::*;
use crate::erlang::{core_of, dup, Core, CoreExpr};
use crate::fresh::{fresh_name, FreshVars};
use crate::make;
use crate::shape;

verus! {

/// The value itself if it is of the kind asked for, else an error.
pub open spec fn checked_dynamic_cast_shape(expr: Core, predicate: Seq<char>, kind: Seq<char>, n: nat) -> Core {
    let tmp = fresh_name(n);
    shape::let1(tmp, expr,
        shape::if_else(shape::call1("erlang"@, predicate, shape::var(tmp)), shape::var(tmp),
        shape::call1("erlang"@, "error"@,
        shape::tup3(shape::atom("bad_dynamic"@), shape::atom(kind), shape::var(tmp)))))
}

pub fn checked_dynamic_cast(expr: CoreExpr, predicate: &str, kind: &str, fresh: &mut FreshVars) -> (r: CoreExpr)
    ensures
        core_of(r) == checked_dynamic_cast_shape(core_of(expr), predicate@, kind@, old(fresh).next()),
        final(fresh).next() == old(fresh).next() + 1,
{
    let tmp = fresh.take();
    make::let1(tmp.as_str(), expr,
        make::if_else(make::call1("erlang", predicate, make::var(tmp.as_str())),
        make::var(tmp.as_str()),
        make::call1("erlang", "error",
        make::tup3(make::atom("bad_dynamic"), make::atom(kind), make::var(tmp.as_str())))))
}

/// The value as a successful result if it is of the kind asked for, else a failed one.
pub open spec fn checked_dynamic_result_cast_shape(expr: Core, predicate: Seq<char>,
    kind: Seq<char>, n: nat) -> Core {
    let tmp = fresh_name(n);
    shape::let1(tmp, expr,
        shape::if_else(shape::call1("erlang"@, predicate, shape::var(tmp)),
        shape::ok(shape::var(tmp)), shape::err(shape::expected(kind))))
}

pub fn checked_dynamic_result_cast(expr: CoreExpr, predicate: &str, kind: &str,
    fresh: &mut FreshVars) -> (r: CoreExpr)
    ensures
        core_of(r) == checked_dynamic_result_cast_shape(core_of(expr), predicate@, kind@, old(fresh).next()),
        final(fresh).next() == old(fresh).next() + 1,
{
    let tmp = fresh.take();
    make::let1(tmp.as_str(), expr,
        make::if_else(make::call1("erlang", predicate, make::var(tmp.as_str())),
        make::ok(make::var(tmp.as_str())), make::err(make::expected(kind))))
}

/// The value as a successful result, or the given error if computing it fails.
pub open spec fn dynamic_result_try_shape(expr: Core, error: Core, n: nat) -> Core {
    let success_var = fresh_name(n);
    let class_var = fresh_name(n + 1);
    let reason_var = fresh_name(n + 2);
    let stack_var = fresh_name(n + 3);
    shape::try1(expr, success_var, shape::ok(shape::var(success_var)), class_var, reason_var,
        stack_var, shape::err(error))
}

pub fn dynamic_result_try(expr: CoreExpr, error: CoreExpr, fresh: &mut FreshVars) -> (r: CoreExpr)
    ensures
        core_of(r) == dynamic_result_try_shape(core_of(expr), core_of(error), old(fresh).next()),
        final(fresh).next() == old(fresh).next() + 4,
{
    let success_var = fresh.take();
    let class_var = fresh.take();
    let reason_var = fresh.take();
    let stack_var = fresh.take();
    make::try1(expr, success_var.as_str(), make::ok(make::var(success_var.as_str())),
        class_var.as_str(), reason_var.as_str(), stack_var.as_str(), make::err(error))
}

/// Looks a key up in a dynamic map.
pub open spec fn dynamic_get_result_shape(target: Core, key: Core, n: nat) -> Core {
    let map_var = fresh_name(n);
    let value_var = fresh_name(n + 1);
    let checked = checked_dynamic_result_cast_shape(target, "is_map"@, "map"@, n + 2);
    shape::case2(checked,
        shape::when(shape::ptag("ok"@, map_var),
        shape::case2(shape::call2("maps"@, "find"@, key, shape::var(map_var)),
        shape::when(shape::ptag("ok"@, value_var), shape::ok(shape::var(value_var))),
        shape::when(shape::patom("error"@), shape::err(shape::missing_key())))),
        shape::when(shape::ptag("err"@, "_Reason"@), shape::err(shape::expected("map"@))))
}

pub fn dynamic_get_result(target: CoreExpr, key: CoreExpr, fresh: &mut FreshVars) -> (r: CoreExpr)
    ensures
        core_of(r) == dynamic_get_result_shape(core_of(target), core_of(key), old(fresh).next()),
        final(fresh).next() == old(fresh).next() + 3,
{
    let map_var = fresh.take();
    let value_var = fresh.take();
    let checked = checked_dynamic_result_cast(target, "is_map", "map", fresh);
    make::case2(checked,
        make::when(make::ptag("ok", map_var.as_str()),
        make::case2(make::call2("maps", "find", key, make::var(map_var.as_str())),
        make::when(make::ptag("ok", value_var.as_str()), make::ok(make::var(value_var.as_str()))),
        make::when(make::patom("error"), make::err(make::missing_key())))),
        make::when(make::ptag("err", "_Reason"), make::err(make::expected("map"))))
}

/// Takes an element of a dynamic list.
pub open spec fn decode_index_value_shape(target: Core, index: Core, n: nat) -> Core {
    let checked = checked_dynamic_result_cast_shape(target, "is_list"@, "list"@, n);
    let list_var = fresh_name(n + 1);
    let found = dynamic_result_try_shape(shape::call2("lists"@, "nth"@, index,
        shape::var(list_var)), shape::out_of_bounds(index), n + 2);
    shape::case2(checked, shape::when(shape::ptag("ok"@, list_var), found),
        shape::when(shape::ptag("err"@, "_Reason"@), shape::err(shape::expected("list"@))))
}

pub fn decode_index_value(target: CoreExpr, index: CoreExpr, fresh: &mut FreshVars) -> (r: CoreExpr)
    ensures
        core_of(r) == decode_index_value_shape(core_of(target), core_of(index), old(fresh).next()),
        final(fresh).next() == old(fresh).next() + 6,
{
    let checked = checked_dynamic_result_cast(target, "is_list", "list", fresh);
    let list_var = fresh.take();
    let found = dynamic_result_try(make::call2("lists", "nth", dup(&index),
        make::var(list_var.as_str())), make::out_of_bounds(index), fresh);
    make::case2(checked, make::when(make::ptag("ok", list_var.as_str()), found),
        make::when(make::ptag("err", "_Reason"), make::err(make::expected("list"))))
}

/// Takes a field of a dynamic map.
pub open spec fn decode_field_value_shape(target: Core, key: Core, n: nat) -> Core {
    let checked = checked_dynamic_result_cast_shape(target, "is_map"@, "map"@, n);
    let map_var = fresh_name(n + 1);
    let value_var = fresh_name(n + 2);
    shape::case2(checked,
        shape::when(shape::ptag("ok"@, map_var),
        shape::case2(shape::call2("maps"@, "find"@, key, shape::var(map_var)),
        shape::when(shape::ptag("ok"@, value_var), shape::ok(shape::var(value_var))),
        shape::when(shape::patom("error"@), shape::err(shape::missing_field(key))))),
        shape::when(shape::ptag("err"@, "_Reason"@), shape::err(shape::expected("map"@))))
}

pub fn decode_field_value(target: CoreExpr, key: CoreExpr, fresh: &mut FreshVars) -> (r: CoreExpr)
    ensures
        core_of(r) == decode_field_value_shape(core_of(target), core_of(key), old(fresh).next()),
        final(fresh).next() == old(fresh).next() + 3,
{
    let checked = checked_dynamic_result_cast(target, "is_map", "map", fresh);
    let map_var = fresh.take();
    let value_var = fresh.take();
    make::case2(checked,
        make::when(make::ptag("ok", map_var.as_str()),
        make::case2(make::call2("maps", "find", dup(&key), make::var(map_var.as_str())),
        make::when(make::ptag("ok", value_var.as_str()), make::ok(make::var(value_var.as_str()))),
        make::when(make::patom("error"), make::err(make::missing_field(key))))),
        make::when(make::ptag("err", "_Reason"), make::err(make::expected("map"))))
}

/// Applies a function to a successful result.
pub open spec fn decode_map_shape(value: Core, f: Core, n: nat) -> Core {
    let ok_var = fresh_name(n);
    let err_var = fresh_name(n + 1);
    shape::case2(value,
        shape::when(shape::ptag("ok"@, ok_var), shape::ok(shape::apply1(f, shape::var(ok_var)))),
        shape::when(shape::ptag("err"@, err_var), shape::err(shape::var(err_var))))
}

pub fn decode_map(value: CoreExpr, f: CoreExpr, fresh: &mut FreshVars) -> (r: CoreExpr)
    ensures
        core_of(r) == decode_map_shape(core_of(value), core_of(f), old(fresh).next()),
        final(fresh).next() == old(fresh).next() + 2,
{
    let ok_var = fresh.take();
    let err_var = fresh.take();
    make::case2(value,
        make::when(make::ptag("ok", ok_var.as_str()),
        make::ok(make::apply1(f, make::var(ok_var.as_str())))),
        make::when(make::ptag("err", err_var.as_str()), make::err(make::var(err_var.as_str()))))
}

/// Goes on with a successful result.
pub open spec fn decode_then_shape(value: Core, f: Core, n: nat) -> Core {
    let ok_var = fresh_name(n);
    let err_var = fresh_name(n + 1);
    shape::case2(value,
        shape::when(shape::ptag("ok"@, ok_var), shape::apply1(f, shape::var(ok_var))),
        shape::when(shape::ptag("err"@, err_var), shape::err(shape::var(err_var))))
}

pub fn decode_then(value: CoreExpr, f: CoreExpr, fresh: &mut FreshVars) -> (r: CoreExpr)
    ensures
        core_of(r) == decode_then_shape(core_of(value), core_of(f), old(fresh).next()),
        final(fresh).next() == old(fresh).next() + 2,
{
    let ok_var = fresh.take();
    let err_var = fresh.take();
    make::case2(value,
        make::when(make::ptag("ok", ok_var.as_str()), make::apply1(f, make::var(ok_var.as_str()))),
        make::when(make::ptag("err", err_var.as_str()), make::err(make::var(err_var.as_str()))))
}

/// Decodes what stands in a field.
pub open spec fn decode_field_shape(target: Core, key: Core, decoder: Core, n: nat) -> Core {
    let value_var = fresh_name(n);
    let err_var = fresh_name(n + 1);
    let decoded_var = fresh_name(n + 2);
    let found = decode_field_value_shape(target, key, n + 3);
    shape::case2(found,
        shape::when(shape::ptag("ok"@, value_var),
        shape::let1(decoded_var, shape::apply1(decoder, shape::var(value_var)),
        shape::case2(shape::var(decoded_var),
        shape::when(shape::ptag("ok"@, value_var), shape::ok(shape::var(value_var))),
        shape::when(shape::ptag("err"@, err_var),
        shape::err(shape::error_at(shape::path_field(key), shape::var(err_var))))))),
        shape::when(shape::ptag("err"@, err_var), shape::err(shape::var(err_var))))
}

pub fn translate_decode_field(target: CoreExpr, key: CoreExpr, decoder: CoreExpr, fresh: &mut FreshVars) -> (r: CoreExpr)
    ensures
        core_of(r) == decode_field_shape(core_of(target), core_of(key), core_of(decoder), old(fresh).next()),
        final(fresh).next() == old(fresh).next() + 6,
{
    let value_var = fresh.take();
    let err_var = fresh.take();
    let decoded_var = fresh.take();
    let found = decode_field_value(target, dup(&key), fresh);
    make::case2(found,
        make::when(make::ptag("ok", value_var.as_str()),
        make::let1(decoded_var.as_str(), make::apply1(decoder, make::var(value_var.as_str())),
        make::case2(make::var(decoded_var.as_str()),
        make::when(make::ptag("ok", value_var.as_str()), make::ok(make::var(value_var.as_str()))),
        make::when(make::ptag("err", err_var.as_str()),
        make::err(make::error_at(make::path_field(key), make::var(err_var.as_str()))))))),
        make::when(make::ptag("err", err_var.as_str()), make::err(make::var(err_var.as_str()))))
}

/// Decodes what stands at an index.
pub open spec fn decode_index_shape(target: Core, key: Core, decoder: Core, n: nat) -> Core {
    let value_var = fresh_name(n);
    let err_var = fresh_name(n + 1);
    let decoded_var = fresh_name(n + 2);
    let found = decode_index_value_shape(target, key, n + 3);
    shape::case2(found,
        shape::when(shape::ptag("ok"@, value_var),
        shape::let1(decoded_var, shape::apply1(decoder, shape::var(value_var)),
        shape::case2(shape::var(decoded_var),
        shape::when(shape::ptag("ok"@, value_var), shape::ok(shape::var(value_var))),
        shape::when(shape::ptag("err"@, err_var),
        shape::err(shape::error_at(shape::path_index(key), shape::var(err_var))))))),
        shape::when(shape::ptag("err"@, err_var), shape::err(shape::var(err_var))))
}

pub fn translate_decode_index(target: CoreExpr, key: CoreExpr, decoder: CoreExpr, fresh: &mut FreshVars) -> (r: CoreExpr)
    ensures
        core_of(r) == decode_index_shape(core_of(target), core_of(key), core_of(decoder), old(fresh).next()),
        final(fresh).next() == old(fresh).next() + 9,
{
    let value_var = fresh.take();
    let err_var = fresh.take();
    let decoded_var = fresh.take();
    let found = decode_index_value(target, dup(&key), fresh);
    make::case2(found,
        make::when(make::ptag("ok", value_var.as_str()),
        make::let1(decoded_var.as_str(), make::apply1(decoder, make::var(value_var.as_str())),
        make::case2(make::var(decoded_var.as_str()),
        make::when(make::ptag("ok", value_var.as_str()), make::ok(make::var(value_var.as_str()))),
        make::when(make::ptag("err", err_var.as_str()),
        make::err(make::error_at(make::path_index(key), make::var(err_var.as_str()))))))),
        make::when(make::ptag("err", err_var.as_str()), make::err(make::var(err_var.as_str()))))
}

/// Decodes a field that may be missing or null.
pub open spec fn decode_optional_field_shape(target: Core, key: Core, decoder: Core, n: nat) -> Core {
    let checked = checked_dynamic_result_cast_shape(target, "is_map"@, "map"@, n);
    let map_var = fresh_name(n + 1);
    let value_var = fresh_name(n + 2);
    let decoded_var = fresh_name(n + 3);
    let ok_var = fresh_name(n + 4);
    let err_var = fresh_name(n + 5);
    let is_null_var = fresh_name(n + 6);
    shape::case2(checked,
        shape::when(shape::ptag("ok"@, map_var),
        shape::case2(shape::call2("maps"@, "find"@, key, shape::var(map_var)),
        shape::when(shape::ptag("ok"@, value_var),
        shape::let1(is_null_var,
        shape::call2("erlang"@, "=:="@, shape::var(value_var), shape::atom("null"@)),
        shape::if_else(shape::var(is_null_var), shape::ok(shape::none()),
        shape::let1(decoded_var, shape::apply1(decoder, shape::var(value_var)),
        shape::case2(shape::var(decoded_var),
        shape::when(shape::ptag("ok"@, ok_var), shape::ok(shape::some(shape::var(ok_var)))),
        shape::when(shape::ptag("err"@, err_var),
        shape::err(shape::error_at(shape::path_field(key), shape::var(err_var))))))))),
        shape::when(shape::patom("error"@), shape::ok(shape::none())))),
        shape::when(shape::ptag("err"@, err_var), shape::err(shape::var(err_var))))
}

pub fn translate_decode_optional_field(target: CoreExpr, key: CoreExpr, decoder: CoreExpr,
    fresh: &mut FreshVars) -> (r: CoreExpr)
    ensures
        core_of(r) == decode_optional_field_shape(core_of(target), core_of(key), core_of(decoder),
            old(fresh).next()),
        final(fresh).next() == old(fresh).next() + 7,
{
    let checked = checked_dynamic_result_cast(target, "is_map", "map", fresh);
    let map_var = fresh.take();
    let value_var = fresh.take();
    let decoded_var = fresh.take();
    let ok_var = fresh.take();
    let err_var = fresh.take();
    let is_null_var = fresh.take();
    make::case2(checked,
        make::when(make::ptag("ok", map_var.as_str()),
        make::case2(make::call2("maps", "find", dup(&key), make::var(map_var.as_str())),
        make::when(make::ptag("ok", value_var.as_str()),
        make::let1(is_null_var.as_str(),
        make::call2("erlang", "=:=", make::var(value_var.as_str()), make::atom("null")),
        make::if_else(make::var(is_null_var.as_str()), make::ok(make::none()),
        make::let1(decoded_var.as_str(), make::apply1(decoder, make::var(value_var.as_str())),
        make::case2(make::var(decoded_var.as_str()),
        make::when(make::ptag("ok", ok_var.as_str()),
        make::ok(make::some(make::var(ok_var.as_str())))),
        make::when(make::ptag("err", err_var.as_str()),
        make::err(make::error_at(make::path_field(key), make::var(err_var.as_str()))))))))),
        make::when(make::patom("error"), make::ok(make::none())))),
        make::when(make::ptag("err", err_var.as_str()), make::err(make::var(err_var.as_str()))))
}

/// Decodes a field, with a value for when it is missing.
pub open spec fn decode_field_or_shape(target: Core, key: Core, fallback: Core, decoder: Core, n: nat) -> Core {
    let checked = checked_dynamic_result_cast_shape(target, "is_map"@, "map"@, n);
    let map_var = fresh_name(n + 1);
    let value_var = fresh_name(n + 2);
    let decoded_var = fresh_name(n + 3);
    let ok_var = fresh_name(n + 4);
    let err_var = fresh_name(n + 5);
    shape::case2(checked,
        shape::when(shape::ptag("ok"@, map_var),
        shape::case2(shape::call2("maps"@, "find"@, key, shape::var(map_var)),
        shape::when(shape::ptag("ok"@, value_var),
        shape::let1(decoded_var, shape::apply1(decoder, shape::var(value_var)),
        shape::case2(shape::var(decoded_var),
        shape::when(shape::ptag("ok"@, ok_var), shape::ok(shape::var(ok_var))),
        shape::when(shape::ptag("err"@, err_var),
        shape::err(shape::error_at(shape::path_field(key), shape::var(err_var))))))),
        shape::when(shape::patom("error"@), shape::ok(fallback)))),
        shape::when(shape::ptag("err"@, err_var), shape::err(shape::var(err_var))))
}

pub fn translate_decode_field_or(target: CoreExpr, key: CoreExpr, fallback: CoreExpr, decoder: CoreExpr,
    fresh: &mut FreshVars) -> (r: CoreExpr)
    ensures
        core_of(r) == decode_field_or_shape(core_of(target), core_of(key), core_of(fallback),
            core_of(decoder), old(fresh).next()),
        final(fresh).next() == old(fresh).next() + 6,
{
    let checked = checked_dynamic_result_cast(target, "is_map", "map", fresh);
    let map_var = fresh.take();
    let value_var = fresh.take();
    let decoded_var = fresh.take();
    let ok_var = fresh.take();
    let err_var = fresh.take();
    make::case2(checked,
        make::when(make::ptag("ok", map_var.as_str()),
        make::case2(make::call2("maps", "find", dup(&key), make::var(map_var.as_str())),
        make::when(make::ptag("ok", value_var.as_str()),
        make::let1(decoded_var.as_str(), make::apply1(decoder, make::var(value_var.as_str())),
        make::case2(make::var(decoded_var.as_str()),
        make::when(make::ptag("ok", ok_var.as_str()), make::ok(make::var(ok_var.as_str()))),
        make::when(make::ptag("err", err_var.as_str()),
        make::err(make::error_at(make::path_field(key), make::var(err_var.as_str()))))))),
        make::when(make::patom("error"), make::ok(fallback)))),
        make::when(make::ptag("err", err_var.as_str()), make::err(make::var(err_var.as_str()))))
}

/// Decodes every element of a list, and says at which index decoding failed.
pub open spec fn decode_list_shape(target: Core, decoder: Core, n: nat) -> Core {
    let checked = checked_dynamic_result_cast_shape(target, "is_list"@, "list"@, n);
    let list_var = fresh_name(n + 1);
    let item_var = fresh_name(n + 2);
    let state_var = fresh_name(n + 3);
    let index_var = fresh_name(n + 4);
    let rev_tail_var = fresh_name(n + 5);
    let decoded_var = fresh_name(n + 6);
    let decoded_value_var = fresh_name(n + 7);
    let err_var = fresh_name(n + 8);
    let final_rev_var = fresh_name(n + 9);
    let final_err_var = fresh_name(n + 10);
    let good = shape::tup2(shape::ok(shape::cons(shape::var(decoded_value_var),
        shape::var(rev_tail_var))),
        shape::call2("erlang"@, "+"@, shape::var(index_var), shape::num(1)));
    let bad = shape::tup2(shape::err(shape::error_at(shape::path_index(shape::var(index_var)),
        shape::var(err_var))), shape::call2("erlang"@, "+"@, shape::var(index_var), shape::num(1)));
    let decoded = shape::let1(decoded_var, shape::apply1(decoder, shape::var(item_var)),
        shape::case2(shape::var(decoded_var),
        shape::when(shape::ptag("ok"@, decoded_value_var), good),
        shape::when(shape::ptag("err"@, err_var), bad)));
    let failed = shape::tup2(shape::err(shape::var(err_var)),
        shape::call2("erlang"@, "+"@, shape::var(index_var), shape::num(1)));
    let step = shape::fun2(item_var, state_var,
        shape::case2(shape::var(state_var),
        shape::when(shape::ptup2(shape::ptag("ok"@, rev_tail_var), shape::pvar(index_var)),
        decoded),
        shape::when(shape::ptup2(shape::ptag("err"@, err_var), shape::pvar(index_var)), failed)));
    let folded = shape::call3("lists"@, "foldl"@, step,
        shape::tup2(shape::ok(shape::nil()), shape::num(1)), shape::var(list_var));
    shape::case2(checked,
        shape::when(shape::ptag("ok"@, list_var),
        shape::case2(folded,
        shape::when(shape::ptup2(shape::ptag("ok"@, final_rev_var), shape::pvar("_FinalIndex"@)),
        shape::ok(shape::call1("lists"@, "reverse"@, shape::var(final_rev_var)))),
        shape::when(shape::ptup2(shape::ptag("err"@, final_err_var), shape::pvar("_FinalIndex"@)),
        shape::err(shape::var(final_err_var))))),
        shape::when(shape::ptag("err"@, "_Reason"@), shape::err(shape::expected("list"@))))
}

pub fn translate_decode_list(target: CoreExpr, decoder: CoreExpr, fresh: &mut FreshVars) -> (r: CoreExpr)
    ensures
        core_of(r) == decode_list_shape(core_of(target), core_of(decoder), old(fresh).next()),
        final(fresh).next() == old(fresh).next() + 12,
{
    let checked = checked_dynamic_result_cast(target, "is_list", "list", fresh);
    let list_var = fresh.take();
    let item_var = fresh.take();
    let state_var = fresh.take();
    let index_var = fresh.take();
    let rev_tail_var = fresh.take();
    let decoded_var = fresh.take();
    let decoded_value_var = fresh.take();
    let err_var = fresh.take();
    let final_rev_var = fresh.take();
    let final_err_var = fresh.take();
    let _ = fresh.take();
    let good = make::tup2(make::ok(make::cons(make::var(decoded_value_var.as_str()),
        make::var(rev_tail_var.as_str()))),
        make::call2("erlang", "+", make::var(index_var.as_str()), make::num(1)));
    let bad = make::tup2(make::err(make::error_at(make::path_index(make::var(index_var.as_str())),
        make::var(err_var.as_str()))),
        make::call2("erlang", "+", make::var(index_var.as_str()), make::num(1)));
    let decoded = make::let1(decoded_var.as_str(),
        make::apply1(decoder, make::var(item_var.as_str())),
        make::case2(make::var(decoded_var.as_str()),
        make::when(make::ptag("ok", decoded_value_var.as_str()), good),
        make::when(make::ptag("err", err_var.as_str()), bad)));
    let failed = make::tup2(make::err(make::var(err_var.as_str())),
        make::call2("erlang", "+", make::var(index_var.as_str()), make::num(1)));
    let step = make::fun2(item_var.as_str(), state_var.as_str(),
        make::case2(make::var(state_var.as_str()),
        make::when(make::ptup2(make::ptag("ok", rev_tail_var.as_str()),
        make::pvar(index_var.as_str())), decoded),
        make::when(make::ptup2(make::ptag("err", err_var.as_str()), make::pvar(index_var.as_str())),
        failed)));
    let folded = make::call3("lists", "foldl", step,
        make::tup2(make::ok(make::nil()), make::num(1)), make::var(list_var.as_str()));
    make::case2(checked,
        make::when(make::ptag("ok", list_var.as_str()),
        make::case2(folded,
        make::when(make::ptup2(make::ptag("ok", final_rev_var.as_str()), make::pvar("_FinalIndex")),
        make::ok(make::call1("lists", "reverse", make::var(final_rev_var.as_str())))),
        make::when(make::ptup2(make::ptag("err", final_err_var.as_str()),
        make::pvar("_FinalIndex")), make::err(make::var(final_err_var.as_str()))))),
        make::when(make::ptag("err", "_Reason"), make::err(make::expected("list"))))
}

/// Decodes a value that may be null.
pub open spec fn decode_optional_shape(target: Core, decoder: Core, n: nat) -> Core {
    let value_var = fresh_name(n);
    let decoded_var = fresh_name(n + 1);
    let ok_var = fresh_name(n + 2);
    let err_var = fresh_name(n + 3);
    shape::let1(value_var, target,
        shape::if_else(shape::call2("erlang"@, "=:="@, shape::var(value_var), shape::atom("null"@)),
        shape::ok(shape::none()),
        shape::let1(decoded_var, shape::apply1(decoder, shape::var(value_var)),
        shape::case2(shape::var(decoded_var),
        shape::when(shape::ptag("ok"@, ok_var), shape::ok(shape::some(shape::var(ok_var)))),
        shape::when(shape::ptag("err"@, err_var), shape::err(shape::var(err_var)))))))
}

pub fn translate_decode_optional(target: CoreExpr, decoder: CoreExpr, fresh: &mut FreshVars) -> (r: CoreExpr)
    ensures
        core_of(r) == decode_optional_shape(core_of(target), core_of(decoder), old(fresh).next()),
        final(fresh).next() == old(fresh).next() + 4,
{
    let value_var = fresh.take();
    let decoded_var = fresh.take();
    let ok_var = fresh.take();
    let err_var = fresh.take();
    make::let1(value_var.as_str(), target,
        make::if_else(make::call2("erlang", "=:=", make::var(value_var.as_str()),
        make::atom("null")), make::ok(make::none()),
        make::let1(decoded_var.as_str(), make::apply1(decoder, make::var(value_var.as_str())),
        make::case2(make::var(decoded_var.as_str()),
        make::when(make::ptag("ok", ok_var.as_str()),
        make::ok(make::some(make::var(ok_var.as_str())))),
        make::when(make::ptag("err", err_var.as_str()), make::err(make::var(err_var.as_str())))))))
}

/// Decodes every value of a map, and says at which key decoding failed.
pub open spec fn decode_dict_shape(target: Core, decoder: Core, n: nat) -> Core {
    let checked = checked_dynamic_result_cast_shape(target, "is_map"@, "map"@, n);
    let map_var = fresh_name(n + 1);
    let key_var = fresh_name(n + 2);
    let value_var = fresh_name(n + 3);
    let acc_var = fresh_name(n + 4);
    let decoded_var = fresh_name(n + 5);
    let decoded_value_var = fresh_name(n + 6);
    let map_acc_var = fresh_name(n + 7);
    let err_var = fresh_name(n + 8);
    let decoded = shape::let1(decoded_var, shape::apply1(decoder, shape::var(value_var)),
        shape::case2(shape::var(decoded_var),
        shape::when(shape::ptag("ok"@, decoded_value_var),
        shape::ok(shape::call3("maps"@, "put"@, shape::var(key_var), shape::var(decoded_value_var),
        shape::var(map_acc_var)))),
        shape::when(shape::ptag("err"@, err_var),
        shape::err(shape::error_at(shape::path_field(shape::var(key_var)), shape::var(err_var))))));
    let step = shape::fun3(key_var, value_var, acc_var,
        shape::case2(shape::var(acc_var), shape::when(shape::ptag("ok"@, map_acc_var), decoded),
        shape::when(shape::ptag("err"@, err_var), shape::err(shape::var(err_var)))));
    shape::case2(checked,
        shape::when(shape::ptag("ok"@, map_var),
        shape::call3("maps"@, "fold"@, step, shape::ok(shape::empty_map()), shape::var(map_var))),
        shape::when(shape::ptag("err"@, "_Reason"@), shape::err(shape::expected("map"@))))
}

pub fn translate_decode_dict(target: CoreExpr, decoder: CoreExpr, fresh: &mut FreshVars) -> (r: CoreExpr)
    ensures
        core_of(r) == decode_dict_shape(core_of(target), core_of(decoder), old(fresh).next()),
        final(fresh).next() == old(fresh).next() + 9,
{
    let checked = checked_dynamic_result_cast(target, "is_map", "map", fresh);
    let map_var = fresh.take();
    let key_var = fresh.take();
    let value_var = fresh.take();
    let acc_var = fresh.take();
    let decoded_var = fresh.take();
    let decoded_value_var = fresh.take();
    let map_acc_var = fresh.take();
    let err_var = fresh.take();
    let decoded = make::let1(decoded_var.as_str(),
        make::apply1(decoder, make::var(value_var.as_str())),
        make::case2(make::var(decoded_var.as_str()),
        make::when(make::ptag("ok", decoded_value_var.as_str()),
        make::ok(make::call3("maps", "put", make::var(key_var.as_str()),
        make::var(decoded_value_var.as_str()), make::var(map_acc_var.as_str())))),
        make::when(make::ptag("err", err_var.as_str()),
        make::err(make::error_at(make::path_field(make::var(key_var.as_str())),
        make::var(err_var.as_str()))))));
    let step = make::fun3(key_var.as_str(), value_var.as_str(), acc_var.as_str(),
        make::case2(make::var(acc_var.as_str()),
        make::when(make::ptag("ok", map_acc_var.as_str()), decoded),
        make::when(make::ptag("err", err_var.as_str()), make::err(make::var(err_var.as_str())))));
    make::case2(checked,
        make::when(make::ptag("ok", map_var.as_str()),
        make::call3("maps", "fold", step, make::ok(make::empty_map()),
        make::var(map_var.as_str()))),
        make::when(make::ptag("err", "_Reason"), make::err(make::expected("map"))))
}

/// Tries one decoder, then another.
pub open spec fn decode_one_of_shape(target: Core, first: Core, second: Core, n: nat) -> Core {
    let first_err = fresh_name(n);
    let second_err = fresh_name(n + 1);
    let ok_var = fresh_name(n + 2);
    shape::case2(shape::apply1(first, target),
        shape::when(shape::ptag("ok"@, ok_var), shape::ok(shape::var(ok_var))),
        shape::when(shape::ptag("err"@, first_err),
        shape::case2(shape::apply1(second, target),
        shape::when(shape::ptag("ok"@, ok_var), shape::ok(shape::var(ok_var))),
        shape::when(shape::ptag("err"@, second_err),
        shape::err(shape::one_of(shape::var(first_err), shape::var(second_err)))))))
}

pub fn decode_one_of(target: CoreExpr, first: CoreExpr, second: CoreExpr,
    fresh: &mut FreshVars) -> (r: CoreExpr)
    ensures
        core_of(r) == decode_one_of_shape(core_of(target), core_of(first), core_of(second), old(fresh).next()),
        final(fresh).next() == old(fresh).next() + 3,
{
    let first_err = fresh.take();
    let second_err = fresh.take();
    let ok_var = fresh.take();
    make::case2(make::apply1(first, dup(&target)),
        make::when(make::ptag("ok", ok_var.as_str()), make::ok(make::var(ok_var.as_str()))),
        make::when(make::ptag("err", first_err.as_str()),
        make::case2(make::apply1(second, target),
        make::when(make::ptag("ok", ok_var.as_str()), make::ok(make::var(ok_var.as_str()))),
        make::when(make::ptag("err", second_err.as_str()),
        make::err(make::one_of(make::var(first_err.as_str()), make::var(second_err.as_str())))))))
}

/// The name of a value's kind.
pub open spec fn kind_name_shape(x: Core, n: nat) -> Core {
    let tmp = fresh_name(n);
    shape::let1(tmp, x, shape::typeof_case(tmp))
}

pub fn kind_name(x: CoreExpr, fresh: &mut FreshVars) -> (r: CoreExpr)
    ensures
        core_of(r) == kind_name_shape(core_of(x), old(fresh).next()),
        final(fresh).next() == old(fresh).next() + 1,
{
    let tmp = fresh.take();
    make::let1(tmp.as_str(), x, make::typeof_case(tmp.as_str()))
}

/// Prints a value and hands it on.
pub open spec fn debug_print_shape(x: Core, n: nat) -> Core {
    let tmp = fresh_name(n);
    shape::let1(tmp, x,
        shape::sequence(shape::call2("io"@, "format"@, shape::string("DBG: ~p~n"@),
        shape::cons(shape::var(tmp), shape::nil())), shape::var(tmp)))
}

pub fn debug_print(x: CoreExpr, fresh: &mut FreshVars) -> (r: CoreExpr)
    ensures
        core_of(r) == debug_print_shape(core_of(x), old(fresh).next()),
        final(fresh).next() == old(fresh).next() + 1,
{
    let tmp = fresh.take();
    make::let1(tmp.as_str(), x,
        make::sequence(make::call2("io", "format", make::string("DBG: ~p~n"),
        make::cons(make::var(tmp.as_str()), make::nil())), make::var(tmp.as_str())))
}

/// A field of a dynamic map.
pub open spec fn checked_get_shape(target: Core, key: Core, n: nat) -> Core {
    let checked = checked_dynamic_cast_shape(target, "is_map"@, "map"@, n);
    shape::call2("maps"@, "get"@, key, checked)
}

pub fn checked_get(target: CoreExpr, key: CoreExpr, fresh: &mut FreshVars) -> (r: CoreExpr)
    ensures
        core_of(r) == checked_get_shape(core_of(target), core_of(key), old(fresh).next()),
        final(fresh).next() == old(fresh).next() + 1,
{
    let checked = checked_dynamic_cast(target, "is_map", "map", fresh);
    make::call2("maps", "get", key, checked)
}

/// A field of a dynamic map, or a value for when it is missing.
pub open spec fn checked_get_or_shape(target: Core, key: Core, fallback: Core, n: nat) -> Core {
    let checked = checked_dynamic_cast_shape(target, "is_map"@, "map"@, n);
    shape::call3("maps"@, "get"@, key, checked, fallback)
}

pub fn checked_get_or(target: CoreExpr, key: CoreExpr, fallback: CoreExpr,
    fresh: &mut FreshVars) -> (r: CoreExpr)
    ensures
        core_of(r) == checked_get_or_shape(core_of(target), core_of(key), core_of(fallback), old(fresh).next()),
        final(fresh).next() == old(fresh).next() + 1,
{
    let checked = checked_dynamic_cast(target, "is_map", "map", fresh);
    make::call3("maps", "get", key, checked, fallback)
}

/// An element of a dynamic list.
pub open spec fn checked_at_shape(target: Core, index: Core, n: nat) -> Core {
    let checked = checked_dynamic_cast_shape(target, "is_list"@, "list"@, n);
    shape::call2("lists"@, "nth"@, index, checked)
}

pub fn checked_at(target: CoreExpr, index: CoreExpr, fresh: &mut FreshVars) -> (r: CoreExpr)
    ensures
        core_of(r) == checked_at_shape(core_of(target), core_of(index), old(fresh).next()),
        final(fresh).next() == old(fresh).next() + 1,
{
    let checked = checked_dynamic_cast(target, "is_list", "list", fresh);
    make::call2("lists", "nth", index, checked)
}

/// Decodes JSON text.
pub open spec fn json_decode_result_shape(x: Core, n: nat) -> Core {
    let decoded = dynamic_result_try_shape(shape::call1("json"@, "decode"@, x), shape::invalid_json(), n);
    decoded
}

pub fn json_decode_result(x: CoreExpr, fresh: &mut FreshVars) -> (r: CoreExpr)
    ensures
        core_of(r) == json_decode_result_shape(core_of(x), old(fresh).next()),
        final(fresh).next() == old(fresh).next() + 4,
{
    let decoded = dynamic_result_try(make::call1("json", "decode", x), make::invalid_json(), fresh);
    decoded
}

/// Concatenates two values of the same kind: binaries, or else lists.
pub open spec fn concat_shape(l: Core, r: Core, n: nat) -> Core {
    let left = fresh_name(n);
    let right = fresh_name(n + 1);
    Core::Let(
        seq![(left, l), (right, r)],
        Box::new(
            shape::if_else(
                shape::call1("erlang"@, "is_binary"@, shape::var(left)),
                shape::bin2(shape::var(left), shape::var(right)),
                shape::call2("erlang"@, "++"@, shape::var(left), shape::var(right)),
            ),
        ),
    )
}

pub fn concat(l: CoreExpr, r: CoreExpr, fresh: &mut FreshVars) -> (out: CoreExpr)
    ensures
        core_of(out) == concat_shape(core_of(l), core_of(r), old(fresh).next()),
        final(fresh).next() == old(fresh).next() + 2,
{
    let left = fresh.take();
    let right = fresh.take();
    let body = make::if_else(
        make::call1("erlang", "is_binary", make::var(left.as_str())),
        make::bin2(make::var(left.as_str()), make::var(right.as_str())),
        make::call2("erlang", "++", make::var(left.as_str()), make::var(right.as_str())),
    );
    CoreExpr::Let(make::two_bindings(left.as_str(), l, right.as_str(), r), Box::new(body))
}

} // verus!
