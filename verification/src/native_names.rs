//! The names of the functions that native code calls.
use vstd::prelude::*;
use crate::meaning::{erlang, erlang_of_one, erlang_of_two, equated, is_flat, truth, truth_in, Val};
use crate::native::{bif_needs, bif_runtime, bit_operation};
use crate::native_meaning::{kept_small, runtime};

verus! {

/// Whether a function of `erlang` is one that a function of the runtime computes.
pub open spec fn is_backed(f: Seq<char>) -> bool {
    f == "+"@ || f == "-"@ || f == "*"@ || f == "div"@ || f == "rem"@ || f == "=:="@ || f == "=="@
        || f == "<"@ || f == "=<"@ || f == ">"@ || f == ">="@ || f == "length"@ || f == "hd"@ || f
        == "tl"@
}

/// Whether it is one that takes more than a call.
pub open spec fn is_made(f: Seq<char>) -> bool {
    f == "=/="@ || f == "/="@ || f == "and"@ || f == "or"@ || f == "max"@ || f == "min"@ || f
        == "not"@ || f == "abs"@
}

proof fn backed_names()
    ensures
        bif_runtime("-"@, 2) == Some(("lux_rt_sub"@, 2nat)),
        bif_runtime("-"@, 1) == Some(("lux_rt_negate"@, 1nat)),
        bif_runtime("+"@, 2) == Some(("lux_rt_add"@, 2nat)),
        bif_runtime("*"@, 2) == Some(("lux_rt_mul"@, 2nat)),
        bif_runtime("div"@, 2) == Some(("lux_rt_safe_div"@, 2nat)),
        bif_runtime("rem"@, 2) == Some(("lux_rt_safe_rem"@, 2nat)),
        bif_runtime("=:="@, 2) == Some(("lux_rt_value_equal"@, 2nat)),
        bif_runtime("=="@, 2) == Some(("lux_rt_value_equal"@, 2nat)),
        bif_runtime("<"@, 2) == Some(("lux_rt_less_than"@, 2nat)),
        bif_runtime("=<"@, 2) == Some(("lux_rt_less_equal"@, 2nat)),
        bif_runtime(">"@, 2) == Some(("lux_rt_greater_than"@, 2nat)),
        bif_runtime(">="@, 2) == Some(("lux_rt_greater_equal"@, 2nat)),
        bif_runtime("length"@, 1) == Some(("lux_rt_list_length"@, 1nat)),
        bif_runtime("hd"@, 1) == Some(("lux_rt_cons_head"@, 1nat)),
        bif_runtime("tl"@, 1) == Some(("lux_rt_cons_tail"@, 1nat)),
{
    reveal_strlit("*");
    reveal_strlit("+");
    reveal_strlit("-");
    reveal_strlit("/");
    reveal_strlit("<");
    reveal_strlit("=:=");
    reveal_strlit("=<");
    reveal_strlit("==");
    reveal_strlit(">");
    reveal_strlit(">=");
    reveal_strlit("div");
    reveal_strlit("hd");
    reveal_strlit("length");
    reveal_strlit("rem");
    reveal_strlit("tl");
    assert("*"@.len() == 1);
    assert("+"@.len() == 1);
    assert("-"@.len() == 1);
    assert("/"@.len() == 1);
    assert("<"@.len() == 1);
    assert("=:="@.len() == 3);
    assert("=<"@.len() == 2);
    assert("=="@.len() == 2);
    assert(">"@.len() == 1);
    assert(">="@.len() == 2);
    assert("div"@.len() == 3);
    assert("hd"@.len() == 2);
    assert("length"@.len() == 6);
    assert("rem"@.len() == 3);
    assert("tl"@.len() == 2);
    assert("*"@[0] != "+"@[0]);
    assert("*"@[0] != "-"@[0]);
    assert("*"@[0] != "/"@[0]);
    assert("*"@[0] != "<"@[0]);
    assert("*"@[0] != ">"@[0]);
    assert("+"@[0] != "-"@[0]);
    assert("+"@[0] != "/"@[0]);
    assert("+"@[0] != "<"@[0]);
    assert("+"@[0] != ">"@[0]);
    assert("-"@[0] != "/"@[0]);
    assert("-"@[0] != "<"@[0]);
    assert("-"@[0] != ">"@[0]);
    assert("/"@[0] != "<"@[0]);
    assert("/"@[0] != ">"@[0]);
    assert("<"@[0] != ">"@[0]);
    assert("=:="@[0] != "div"@[0]);
    assert("=:="@[0] != "rem"@[0]);
    assert("=<"@[1] != "=="@[1]);
    assert("=<"@[0] != ">="@[0]);
    assert("=<"@[0] != "hd"@[0]);
    assert("=<"@[0] != "tl"@[0]);
    assert("=="@[0] != ">="@[0]);
    assert("=="@[0] != "hd"@[0]);
    assert("=="@[0] != "tl"@[0]);
    assert(">="@[0] != "hd"@[0]);
    assert(">="@[0] != "tl"@[0]);
    assert("div"@[0] != "rem"@[0]);
    assert("hd"@[0] != "tl"@[0]);
}

/// What the functions of the runtime compute is what those of `erlang` do.
#[verifier::rlimit(50)]
#[verifier::spinoff_prover]
proof fn two_backed(v: Val, x: Val)
    ensures
        erlang_of_two("+"@, v, x) matches Some(r) ==> kept_small(r) is Some ==> runtime(
            "lux_rt_add"@,
            seq![v, x],
        ) == Some(r),
        erlang_of_two("*"@, v, x) matches Some(r) ==> kept_small(r) is Some ==> runtime(
            "lux_rt_mul"@,
            seq![v, x],
        ) == Some(r),
        erlang_of_two("div"@, v, x) matches Some(r) ==> kept_small(r) is Some ==> runtime(
            "lux_rt_safe_div"@,
            seq![v, x],
        ) == Some(r),
        erlang_of_two("rem"@, v, x) matches Some(r) ==> kept_small(r) is Some ==> runtime(
            "lux_rt_safe_rem"@,
            seq![v, x],
        ) == Some(r),
        erlang_of_two("=:="@, v, x) matches Some(r) ==> kept_small(r) is Some ==> runtime(
            "lux_rt_value_equal"@,
            seq![v, x],
        ) == Some(r),
        erlang_of_two("=="@, v, x) matches Some(r) ==> kept_small(r) is Some ==> runtime(
            "lux_rt_value_equal"@,
            seq![v, x],
        ) == Some(r),
        erlang_of_two("<"@, v, x) matches Some(r) ==> kept_small(r) is Some ==> runtime(
            "lux_rt_less_than"@,
            seq![v, x],
        ) == Some(r),
        erlang_of_two("=<"@, v, x) matches Some(r) ==> kept_small(r) is Some ==> runtime(
            "lux_rt_less_equal"@,
            seq![v, x],
        ) == Some(r),
        erlang_of_two(">"@, v, x) matches Some(r) ==> kept_small(r) is Some ==> runtime(
            "lux_rt_greater_than"@,
            seq![v, x],
        ) == Some(r),
        erlang_of_two(">="@, v, x) matches Some(r) ==> kept_small(r) is Some ==> runtime(
            "lux_rt_greater_equal"@,
            seq![v, x],
        ) == Some(r),
        erlang_of_two("-"@, v, x) matches Some(r) ==> kept_small(r) is Some ==> runtime(
            "lux_rt_sub"@,
            seq![v, x],
        ) == Some(r),
{
    reveal(erlang_of_two);
    reveal(equated);
    reveal(runtime);
    reveal_strlit("*");
    reveal_strlit("+");
    reveal_strlit("++");
    reveal_strlit("-");
    reveal_strlit("/=");
    reveal_strlit("<");
    reveal_strlit("=/=");
    reveal_strlit("=:=");
    reveal_strlit("=<");
    reveal_strlit("==");
    reveal_strlit(">");
    reveal_strlit(">=");
    reveal_strlit("and");
    reveal_strlit("div");
    reveal_strlit("element");
    reveal_strlit("max");
    reveal_strlit("min");
    reveal_strlit("or");
    reveal_strlit("rem");
    assert("*"@.len() == 1);
    assert("+"@.len() == 1);
    assert("++"@.len() == 2);
    assert("-"@.len() == 1);
    assert("/="@.len() == 2);
    assert("<"@.len() == 1);
    assert("=/="@.len() == 3);
    assert("=:="@.len() == 3);
    assert("=<"@.len() == 2);
    assert("=="@.len() == 2);
    assert(">"@.len() == 1);
    assert(">="@.len() == 2);
    assert("and"@.len() == 3);
    assert("div"@.len() == 3);
    assert("element"@.len() == 7);
    assert("max"@.len() == 3);
    assert("min"@.len() == 3);
    assert("or"@.len() == 2);
    assert("rem"@.len() == 3);
    assert("*"@[0] != "+"@[0]);
    assert("*"@[0] != "-"@[0]);
    assert("*"@[0] != "<"@[0]);
    assert("*"@[0] != ">"@[0]);
    assert("+"@[0] != "-"@[0]);
    assert("+"@[0] != "<"@[0]);
    assert("+"@[0] != ">"@[0]);
    assert("++"@[0] != "/="@[0]);
    assert("++"@[0] != "=<"@[0]);
    assert("++"@[0] != "=="@[0]);
    assert("++"@[0] != ">="@[0]);
    assert("++"@[0] != "or"@[0]);
    assert("-"@[0] != "<"@[0]);
    assert("-"@[0] != ">"@[0]);
    assert("/="@[0] != "=<"@[0]);
    assert("/="@[0] != "=="@[0]);
    assert("/="@[0] != ">="@[0]);
    assert("/="@[0] != "or"@[0]);
    assert("<"@[0] != ">"@[0]);
    assert("=/="@[1] != "=:="@[1]);
    assert("=/="@[0] != "and"@[0]);
    assert("=/="@[0] != "div"@[0]);
    assert("=/="@[0] != "max"@[0]);
    assert("=/="@[0] != "min"@[0]);
    assert("=/="@[0] != "rem"@[0]);
    assert("=:="@[0] != "and"@[0]);
    assert("=:="@[0] != "div"@[0]);
    assert("=:="@[0] != "max"@[0]);
    assert("=:="@[0] != "min"@[0]);
    assert("=:="@[0] != "rem"@[0]);
    assert("=<"@[1] != "=="@[1]);
    assert("=<"@[0] != ">="@[0]);
    assert("=<"@[0] != "or"@[0]);
    assert("=="@[0] != ">="@[0]);
    assert("=="@[0] != "or"@[0]);
    assert(">="@[0] != "or"@[0]);
    assert("and"@[0] != "div"@[0]);
    assert("and"@[0] != "max"@[0]);
    assert("and"@[0] != "min"@[0]);
    assert("and"@[0] != "rem"@[0]);
    assert("div"@[0] != "max"@[0]);
    assert("div"@[0] != "min"@[0]);
    assert("div"@[0] != "rem"@[0]);
    assert("max"@[1] != "min"@[1]);
    assert("max"@[0] != "rem"@[0]);
    assert("min"@[0] != "rem"@[0]);
    reveal_strlit("lux_rt_add");
    reveal_strlit("lux_rt_cons_head");
    reveal_strlit("lux_rt_cons_tail");
    reveal_strlit("lux_rt_greater_equal");
    reveal_strlit("lux_rt_greater_than");
    reveal_strlit("lux_rt_less_equal");
    reveal_strlit("lux_rt_less_than");
    reveal_strlit("lux_rt_list_length");
    reveal_strlit("lux_rt_mul");
    reveal_strlit("lux_rt_negate");
    reveal_strlit("lux_rt_safe_div");
    reveal_strlit("lux_rt_safe_rem");
    reveal_strlit("lux_rt_sub");
    reveal_strlit("lux_rt_value_equal");
    assert("lux_rt_add"@.len() == 10);
    assert("lux_rt_cons_head"@.len() == 16);
    assert("lux_rt_cons_tail"@.len() == 16);
    assert("lux_rt_greater_equal"@.len() == 20);
    assert("lux_rt_greater_than"@.len() == 19);
    assert("lux_rt_less_equal"@.len() == 17);
    assert("lux_rt_less_than"@.len() == 16);
    assert("lux_rt_list_length"@.len() == 18);
    assert("lux_rt_mul"@.len() == 10);
    assert("lux_rt_negate"@.len() == 13);
    assert("lux_rt_safe_div"@.len() == 15);
    assert("lux_rt_safe_rem"@.len() == 15);
    assert("lux_rt_sub"@.len() == 10);
    assert("lux_rt_value_equal"@.len() == 18);
    assert("lux_rt_add"@[7] != "lux_rt_mul"@[7]);
    assert("lux_rt_add"@[7] != "lux_rt_sub"@[7]);
    assert("lux_rt_cons_head"@[12] != "lux_rt_cons_tail"@[12]);
    assert("lux_rt_cons_head"@[7] != "lux_rt_less_than"@[7]);
    assert("lux_rt_cons_tail"@[7] != "lux_rt_less_than"@[7]);
    assert("lux_rt_list_length"@[7] != "lux_rt_value_equal"@[7]);
    assert("lux_rt_mul"@[7] != "lux_rt_sub"@[7]);
    assert("lux_rt_safe_div"@[12] != "lux_rt_safe_rem"@[12]);
}

proof fn one_backed(v: Val)
    ensures
        erlang_of_one("length"@, v) matches Some(r) ==> kept_small(r) is Some ==> runtime("lux_rt_list_length"@, seq![v])
            == Some(r),
        erlang_of_one("hd"@, v) matches Some(r) ==> kept_small(r) is Some ==> runtime("lux_rt_cons_head"@, seq![v])
            == Some(r),
        erlang_of_one("tl"@, v) matches Some(r) ==> kept_small(r) is Some ==> runtime("lux_rt_cons_tail"@, seq![v])
            == Some(r),
        erlang_of_one("-"@, v) matches Some(r) ==> kept_small(r) is Some ==> runtime("lux_rt_negate"@, seq![v])
            == Some(r),
{
    reveal(erlang_of_one);
    reveal(runtime);
    reveal_strlit("-");
    reveal_strlit("abs");
    reveal_strlit("hd");
    reveal_strlit("length");
    reveal_strlit("not");
    reveal_strlit("tl");
    assert("-"@.len() == 1);
    assert("abs"@.len() == 3);
    assert("hd"@.len() == 2);
    assert("length"@.len() == 6);
    assert("not"@.len() == 3);
    assert("tl"@.len() == 2);
    assert("hd"@[0] != "tl"@[0]);
    reveal_strlit("lux_rt_add");
    reveal_strlit("lux_rt_cons_head");
    reveal_strlit("lux_rt_cons_tail");
    reveal_strlit("lux_rt_greater_equal");
    reveal_strlit("lux_rt_greater_than");
    reveal_strlit("lux_rt_less_equal");
    reveal_strlit("lux_rt_less_than");
    reveal_strlit("lux_rt_list_length");
    reveal_strlit("lux_rt_mul");
    reveal_strlit("lux_rt_negate");
    reveal_strlit("lux_rt_safe_div");
    reveal_strlit("lux_rt_safe_rem");
    reveal_strlit("lux_rt_sub");
    reveal_strlit("lux_rt_value_equal");
    assert("lux_rt_add"@.len() == 10);
    assert("lux_rt_cons_head"@.len() == 16);
    assert("lux_rt_cons_tail"@.len() == 16);
    assert("lux_rt_greater_equal"@.len() == 20);
    assert("lux_rt_greater_than"@.len() == 19);
    assert("lux_rt_less_equal"@.len() == 17);
    assert("lux_rt_less_than"@.len() == 16);
    assert("lux_rt_list_length"@.len() == 18);
    assert("lux_rt_mul"@.len() == 10);
    assert("lux_rt_negate"@.len() == 13);
    assert("lux_rt_safe_div"@.len() == 15);
    assert("lux_rt_safe_rem"@.len() == 15);
    assert("lux_rt_sub"@.len() == 10);
    assert("lux_rt_value_equal"@.len() == 18);
    assert("lux_rt_add"@[7] != "lux_rt_mul"@[7]);
    assert("lux_rt_add"@[7] != "lux_rt_sub"@[7]);
    assert("lux_rt_cons_head"@[12] != "lux_rt_cons_tail"@[12]);
    assert("lux_rt_cons_head"@[7] != "lux_rt_less_than"@[7]);
    assert("lux_rt_cons_tail"@[7] != "lux_rt_less_than"@[7]);
    assert("lux_rt_list_length"@[7] != "lux_rt_value_equal"@[7]);
    assert("lux_rt_mul"@[7] != "lux_rt_sub"@[7]);
    assert("lux_rt_safe_div"@[12] != "lux_rt_safe_rem"@[12]);
}

/// Which of them take one argument, and which two.
proof fn arities(f: Seq<char>, s: Seq<Val>)
    requires
        is_backed(f),
        erlang(f, s) is Some,
    ensures
        s.len() == 1 || s.len() == 2,
        s.len() == 1 ==> f == "-"@ || f == "length"@ || f == "hd"@ || f == "tl"@,
        s.len() == 2 ==> !(f == "length"@ || f == "hd"@ || f == "tl"@),
{
    reveal(erlang_of_one);
    reveal(erlang_of_two);
    reveal(equated);
    reveal_strlit("*");
    reveal_strlit("+");
    reveal_strlit("++");
    reveal_strlit("-");
    reveal_strlit("/=");
    reveal_strlit("<");
    reveal_strlit("=/=");
    reveal_strlit("=:=");
    reveal_strlit("=<");
    reveal_strlit("==");
    reveal_strlit(">");
    reveal_strlit(">=");
    reveal_strlit("abs");
    reveal_strlit("and");
    reveal_strlit("byte_size");
    reveal_strlit("div");
    reveal_strlit("element");
    reveal_strlit("hd");
    reveal_strlit("is_atom");
    reveal_strlit("is_binary");
    reveal_strlit("is_boolean");
    reveal_strlit("is_integer");
    reveal_strlit("is_list");
    reveal_strlit("is_map");
    reveal_strlit("is_tuple");
    reveal_strlit("length");
    reveal_strlit("list_to_tuple");
    reveal_strlit("max");
    reveal_strlit("min");
    reveal_strlit("not");
    reveal_strlit("or");
    reveal_strlit("rem");
    reveal_strlit("setelement");
    reveal_strlit("tl");
    reveal_strlit("tuple_size");
    reveal_strlit("tuple_to_list");
    assert("*"@.len() == 1);
    assert("+"@.len() == 1);
    assert("++"@.len() == 2);
    assert("-"@.len() == 1);
    assert("/="@.len() == 2);
    assert("<"@.len() == 1);
    assert("=/="@.len() == 3);
    assert("=:="@.len() == 3);
    assert("=<"@.len() == 2);
    assert("=="@.len() == 2);
    assert(">"@.len() == 1);
    assert(">="@.len() == 2);
    assert("abs"@.len() == 3);
    assert("and"@.len() == 3);
    assert("byte_size"@.len() == 9);
    assert("div"@.len() == 3);
    assert("element"@.len() == 7);
    assert("hd"@.len() == 2);
    assert("is_atom"@.len() == 7);
    assert("is_binary"@.len() == 9);
    assert("is_boolean"@.len() == 10);
    assert("is_integer"@.len() == 10);
    assert("is_list"@.len() == 7);
    assert("is_map"@.len() == 6);
    assert("is_tuple"@.len() == 8);
    assert("length"@.len() == 6);
    assert("list_to_tuple"@.len() == 13);
    assert("max"@.len() == 3);
    assert("min"@.len() == 3);
    assert("not"@.len() == 3);
    assert("or"@.len() == 2);
    assert("rem"@.len() == 3);
    assert("setelement"@.len() == 10);
    assert("tl"@.len() == 2);
    assert("tuple_size"@.len() == 10);
    assert("tuple_to_list"@.len() == 13);
    assert("*"@[0] != "+"@[0]);
    assert("*"@[0] != "-"@[0]);
    assert("*"@[0] != "<"@[0]);
    assert("*"@[0] != ">"@[0]);
    assert("+"@[0] != "-"@[0]);
    assert("+"@[0] != "<"@[0]);
    assert("+"@[0] != ">"@[0]);
    assert("++"@[0] != "/="@[0]);
    assert("++"@[0] != "=<"@[0]);
    assert("++"@[0] != "=="@[0]);
    assert("++"@[0] != ">="@[0]);
    assert("++"@[0] != "hd"@[0]);
    assert("++"@[0] != "or"@[0]);
    assert("++"@[0] != "tl"@[0]);
    assert("-"@[0] != "<"@[0]);
    assert("-"@[0] != ">"@[0]);
    assert("/="@[0] != "=<"@[0]);
    assert("/="@[0] != "=="@[0]);
    assert("/="@[0] != ">="@[0]);
    assert("/="@[0] != "hd"@[0]);
    assert("/="@[0] != "or"@[0]);
    assert("/="@[0] != "tl"@[0]);
    assert("<"@[0] != ">"@[0]);
    assert("=/="@[1] != "=:="@[1]);
    assert("=/="@[0] != "abs"@[0]);
    assert("=/="@[0] != "and"@[0]);
    assert("=/="@[0] != "div"@[0]);
    assert("=/="@[0] != "max"@[0]);
    assert("=/="@[0] != "min"@[0]);
    assert("=/="@[0] != "not"@[0]);
    assert("=/="@[0] != "rem"@[0]);
    assert("=:="@[0] != "abs"@[0]);
    assert("=:="@[0] != "and"@[0]);
    assert("=:="@[0] != "div"@[0]);
    assert("=:="@[0] != "max"@[0]);
    assert("=:="@[0] != "min"@[0]);
    assert("=:="@[0] != "not"@[0]);
    assert("=:="@[0] != "rem"@[0]);
    assert("=<"@[1] != "=="@[1]);
    assert("=<"@[0] != ">="@[0]);
    assert("=<"@[0] != "hd"@[0]);
    assert("=<"@[0] != "or"@[0]);
    assert("=<"@[0] != "tl"@[0]);
    assert("=="@[0] != ">="@[0]);
    assert("=="@[0] != "hd"@[0]);
    assert("=="@[0] != "or"@[0]);
    assert("=="@[0] != "tl"@[0]);
    assert(">="@[0] != "hd"@[0]);
    assert(">="@[0] != "or"@[0]);
    assert(">="@[0] != "tl"@[0]);
    assert("abs"@[1] != "and"@[1]);
    assert("abs"@[0] != "div"@[0]);
    assert("abs"@[0] != "max"@[0]);
    assert("abs"@[0] != "min"@[0]);
    assert("abs"@[0] != "not"@[0]);
    assert("abs"@[0] != "rem"@[0]);
    assert("and"@[0] != "div"@[0]);
    assert("and"@[0] != "max"@[0]);
    assert("and"@[0] != "min"@[0]);
    assert("and"@[0] != "not"@[0]);
    assert("and"@[0] != "rem"@[0]);
    assert("byte_size"@[0] != "is_binary"@[0]);
    assert("div"@[0] != "max"@[0]);
    assert("div"@[0] != "min"@[0]);
    assert("div"@[0] != "not"@[0]);
    assert("div"@[0] != "rem"@[0]);
    assert("element"@[0] != "is_atom"@[0]);
    assert("element"@[0] != "is_list"@[0]);
    assert("hd"@[0] != "or"@[0]);
    assert("hd"@[0] != "tl"@[0]);
    assert("is_atom"@[3] != "is_list"@[3]);
    assert("is_boolean"@[3] != "is_integer"@[3]);
    assert("is_boolean"@[0] != "setelement"@[0]);
    assert("is_boolean"@[0] != "tuple_size"@[0]);
    assert("is_integer"@[0] != "setelement"@[0]);
    assert("is_integer"@[0] != "tuple_size"@[0]);
    assert("is_map"@[0] != "length"@[0]);
    assert("list_to_tuple"@[0] != "tuple_to_list"@[0]);
    assert("max"@[1] != "min"@[1]);
    assert("max"@[0] != "not"@[0]);
    assert("max"@[0] != "rem"@[0]);
    assert("min"@[0] != "not"@[0]);
    assert("min"@[0] != "rem"@[0]);
    assert("not"@[0] != "rem"@[0]);
    assert("or"@[0] != "tl"@[0]);
    assert("setelement"@[0] != "tuple_size"@[0]);
}

/// A function of the runtime stands behind it, and returns what it does.
#[verifier::rlimit(50)]
#[verifier::spinoff_prover]
pub proof fn backed_by(f: Seq<char>, s: Seq<Val>)
    requires
        is_backed(f),
        erlang(f, s) matches Some(r) && kept_small(r) is Some,
    ensures
        bif_runtime(f, s.len()) matches Some((name, k)) && k == s.len() && runtime(name, s)
            == erlang(f, s),
{
    arities(f, s);
    backed_names();
    if s.len() == 1 {
        assert(s =~= seq![s[0]]);
        one_backed(s[0]);
    } else {
        assert(s =~= seq![s[0], s[1]]);
        two_backed(s[0], s[1]);
    }
}

/// The others have no function of the runtime, and are no bit operations.
pub proof fn made_names(n: nat, a: usize, b: usize)
    ensures
        bif_runtime("=/="@, n) is None,
        bit_operation("=/="@, a, b) is None,
        bif_needs("=/="@, n) == 2,
        bif_runtime("/="@, n) is None,
        bit_operation("/="@, a, b) is None,
        bif_needs("/="@, n) == 2,
        bif_runtime("and"@, n) is None,
        bit_operation("and"@, a, b) is None,
        bif_needs("and"@, n) == 2,
        bif_runtime("or"@, n) is None,
        bit_operation("or"@, a, b) is None,
        bif_needs("or"@, n) == 2,
        bif_runtime("max"@, n) is None,
        bit_operation("max"@, a, b) is None,
        bif_needs("max"@, n) == 2,
        bif_runtime("min"@, n) is None,
        bit_operation("min"@, a, b) is None,
        bif_needs("min"@, n) == 2,
        bif_runtime("not"@, n) is None,
        bit_operation("not"@, a, b) is None,
        bif_needs("not"@, n) == 1,
        bif_runtime("abs"@, n) is None,
        bit_operation("abs"@, a, b) is None,
        bif_needs("abs"@, n) == 1,
        "and"@ != "or"@,
        "max"@ != "min"@,
        "not"@ != "abs"@,
        "and"@ != "=/="@,
        "and"@ != "/="@,
        "or"@ != "=/="@,
        "or"@ != "/="@,
        "max"@ != "=/="@,
        "max"@ != "/="@,
        "min"@ != "=/="@,
        "min"@ != "/="@,
        "max"@ != "and"@,
        "max"@ != "or"@,
        "min"@ != "and"@,
        "min"@ != "or"@,
        "bnot"@ != "not"@,
        "bnot"@ != "abs"@,
{
    reveal_strlit("*");
    reveal_strlit("+");
    reveal_strlit("++");
    reveal_strlit("-");
    reveal_strlit("/");
    reveal_strlit("/=");
    reveal_strlit("<");
    reveal_strlit("=/=");
    reveal_strlit("=:=");
    reveal_strlit("=<");
    reveal_strlit("==");
    reveal_strlit(">");
    reveal_strlit(">=");
    reveal_strlit("abs");
    reveal_strlit("and");
    reveal_strlit("band");
    reveal_strlit("binary_part");
    reveal_strlit("binary_to_list");
    reveal_strlit("bit_size");
    reveal_strlit("bnot");
    reveal_strlit("bor");
    reveal_strlit("bsl");
    reveal_strlit("bsr");
    reveal_strlit("bxor");
    reveal_strlit("byte_size");
    reveal_strlit("display");
    reveal_strlit("div");
    reveal_strlit("element");
    reveal_strlit("error");
    reveal_strlit("exit");
    reveal_strlit("get");
    reveal_strlit("hd");
    reveal_strlit("integer_to_binary");
    reveal_strlit("integer_to_list");
    reveal_strlit("iolist_to_binary");
    reveal_strlit("is_atom");
    reveal_strlit("is_binary");
    reveal_strlit("is_bitstring");
    reveal_strlit("is_boolean");
    reveal_strlit("is_float");
    reveal_strlit("is_function");
    reveal_strlit("is_integer");
    reveal_strlit("is_list");
    reveal_strlit("is_map");
    reveal_strlit("is_number");
    reveal_strlit("is_tuple");
    reveal_strlit("length");
    reveal_strlit("list_to_binary");
    reveal_strlit("make_ref");
    reveal_strlit("max");
    reveal_strlit("min");
    reveal_strlit("not");
    reveal_strlit("or");
    reveal_strlit("put");
    reveal_strlit("rem");
    reveal_strlit("system_time");
    reveal_strlit("throw");
    reveal_strlit("tl");
    reveal_strlit("tuple_size");
    assert("*"@.len() == 1);
    assert("+"@.len() == 1);
    assert("++"@.len() == 2);
    assert("-"@.len() == 1);
    assert("/"@.len() == 1);
    assert("/="@.len() == 2);
    assert("<"@.len() == 1);
    assert("=/="@.len() == 3);
    assert("=:="@.len() == 3);
    assert("=<"@.len() == 2);
    assert("=="@.len() == 2);
    assert(">"@.len() == 1);
    assert(">="@.len() == 2);
    assert("abs"@.len() == 3);
    assert("and"@.len() == 3);
    assert("band"@.len() == 4);
    assert("binary_part"@.len() == 11);
    assert("binary_to_list"@.len() == 14);
    assert("bit_size"@.len() == 8);
    assert("bnot"@.len() == 4);
    assert("bor"@.len() == 3);
    assert("bsl"@.len() == 3);
    assert("bsr"@.len() == 3);
    assert("bxor"@.len() == 4);
    assert("byte_size"@.len() == 9);
    assert("display"@.len() == 7);
    assert("div"@.len() == 3);
    assert("element"@.len() == 7);
    assert("error"@.len() == 5);
    assert("exit"@.len() == 4);
    assert("get"@.len() == 3);
    assert("hd"@.len() == 2);
    assert("integer_to_binary"@.len() == 17);
    assert("integer_to_list"@.len() == 15);
    assert("iolist_to_binary"@.len() == 16);
    assert("is_atom"@.len() == 7);
    assert("is_binary"@.len() == 9);
    assert("is_bitstring"@.len() == 12);
    assert("is_boolean"@.len() == 10);
    assert("is_float"@.len() == 8);
    assert("is_function"@.len() == 11);
    assert("is_integer"@.len() == 10);
    assert("is_list"@.len() == 7);
    assert("is_map"@.len() == 6);
    assert("is_number"@.len() == 9);
    assert("is_tuple"@.len() == 8);
    assert("length"@.len() == 6);
    assert("list_to_binary"@.len() == 14);
    assert("make_ref"@.len() == 8);
    assert("max"@.len() == 3);
    assert("min"@.len() == 3);
    assert("not"@.len() == 3);
    assert("or"@.len() == 2);
    assert("put"@.len() == 3);
    assert("rem"@.len() == 3);
    assert("system_time"@.len() == 11);
    assert("throw"@.len() == 5);
    assert("tl"@.len() == 2);
    assert("tuple_size"@.len() == 10);
    assert("=/="@[1] != "=:="@[1]);
    assert("=/="@[0] != "abs"@[0]);
    assert("=/="@[0] != "and"@[0]);
    assert("=/="@[0] != "bor"@[0]);
    assert("=/="@[0] != "bsl"@[0]);
    assert("=/="@[0] != "bsr"@[0]);
    assert("=/="@[0] != "div"@[0]);
    assert("=/="@[0] != "get"@[0]);
    assert("=/="@[0] != "max"@[0]);
    assert("=/="@[0] != "min"@[0]);
    assert("=/="@[0] != "not"@[0]);
    assert("=/="@[0] != "put"@[0]);
    assert("=/="@[0] != "rem"@[0]);
    assert("/="@[0] != "++"@[0]);
    assert("/="@[0] != "=<"@[0]);
    assert("/="@[0] != "=="@[0]);
    assert("/="@[0] != ">="@[0]);
    assert("/="@[0] != "hd"@[0]);
    assert("/="@[0] != "or"@[0]);
    assert("/="@[0] != "tl"@[0]);
    assert("and"@[0] != "=:="@[0]);
    assert("and"@[1] != "abs"@[1]);
    assert("and"@[0] != "bor"@[0]);
    assert("and"@[0] != "bsl"@[0]);
    assert("and"@[0] != "bsr"@[0]);
    assert("and"@[0] != "div"@[0]);
    assert("and"@[0] != "get"@[0]);
    assert("and"@[0] != "max"@[0]);
    assert("and"@[0] != "min"@[0]);
    assert("and"@[0] != "not"@[0]);
    assert("and"@[0] != "put"@[0]);
    assert("and"@[0] != "rem"@[0]);
    assert("or"@[0] != "++"@[0]);
    assert("or"@[0] != "=<"@[0]);
    assert("or"@[0] != "=="@[0]);
    assert("or"@[0] != ">="@[0]);
    assert("or"@[0] != "hd"@[0]);
    assert("or"@[0] != "tl"@[0]);
    assert("max"@[0] != "=:="@[0]);
    assert("max"@[0] != "abs"@[0]);
    assert("max"@[0] != "bor"@[0]);
    assert("max"@[0] != "bsl"@[0]);
    assert("max"@[0] != "bsr"@[0]);
    assert("max"@[0] != "div"@[0]);
    assert("max"@[0] != "get"@[0]);
    assert("max"@[1] != "min"@[1]);
    assert("max"@[0] != "not"@[0]);
    assert("max"@[0] != "put"@[0]);
    assert("max"@[0] != "rem"@[0]);
    assert("min"@[0] != "=:="@[0]);
    assert("min"@[0] != "abs"@[0]);
    assert("min"@[0] != "bor"@[0]);
    assert("min"@[0] != "bsl"@[0]);
    assert("min"@[0] != "bsr"@[0]);
    assert("min"@[0] != "div"@[0]);
    assert("min"@[0] != "get"@[0]);
    assert("min"@[0] != "not"@[0]);
    assert("min"@[0] != "put"@[0]);
    assert("min"@[0] != "rem"@[0]);
    assert("not"@[0] != "=:="@[0]);
    assert("not"@[0] != "abs"@[0]);
    assert("not"@[0] != "bor"@[0]);
    assert("not"@[0] != "bsl"@[0]);
    assert("not"@[0] != "bsr"@[0]);
    assert("not"@[0] != "div"@[0]);
    assert("not"@[0] != "get"@[0]);
    assert("not"@[0] != "put"@[0]);
    assert("not"@[0] != "rem"@[0]);
    assert("abs"@[0] != "=:="@[0]);
    assert("abs"@[0] != "bor"@[0]);
    assert("abs"@[0] != "bsl"@[0]);
    assert("abs"@[0] != "bsr"@[0]);
    assert("abs"@[0] != "div"@[0]);
    assert("abs"@[0] != "get"@[0]);
    assert("abs"@[0] != "put"@[0]);
    assert("abs"@[0] != "rem"@[0]);
    reveal_strlit("bnot");
    assert("bnot"@.len() == 4);
}

/// What they return.
pub proof fn made_results(v: Val, x: Val)
    ensures
        erlang_of_two("=/="@, v, x) == if is_flat(v) && is_flat(x) {
            Some(truth(v != x))
        } else {
            None
        },
        erlang_of_two("/="@, v, x) == if is_flat(v) && is_flat(x) {
            Some(truth(v != x))
        } else {
            None
        },
        erlang_of_two("and"@, v, x) == match (truth_in(v), truth_in(x)) {
            (Some(a), Some(b)) => Some(truth(a && b)),
            _ => None,
        },
        erlang_of_two("or"@, v, x) == match (truth_in(v), truth_in(x)) {
            (Some(a), Some(b)) => Some(truth(a || b)),
            _ => None,
        },
        erlang_of_two("max"@, v, x) == match (v, x) {
            (Val::Int(a), Val::Int(b)) => Some(Val::Int(if a < b { b } else { a })),
            _ => None,
        },
        erlang_of_two("min"@, v, x) == match (v, x) {
            (Val::Int(a), Val::Int(b)) => Some(Val::Int(if b < a { b } else { a })),
            _ => None,
        },
        erlang_of_one("not"@, v) == match truth_in(v) {
            Some(b) => Some(truth(!b)),
            None => None,
        },
        erlang_of_one("abs"@, v) == match v {
            Val::Int(a) => Some(Val::Int(if a < 0 { -a } else { a })),
            _ => None,
        },
        is_flat(v) && is_flat(x) ==> runtime("lux_rt_value_equal"@, seq![v, x]) == Some(
            truth(v == x),
        ),
        (v is Int && x is Int) ==> runtime("lux_rt_greater_than"@, seq![v, x]) == Some(
            truth(v->Int_0 > x->Int_0),
        ),
        (v is Int && x is Int) ==> runtime("lux_rt_less_than"@, seq![v, x]) == Some(
            truth(v->Int_0 < x->Int_0),
        ),
        (v matches Val::Int(a) ==> kept_small(Val::Int(-a)) is Some ==> runtime(
            "lux_rt_negate"@,
            seq![v],
        ) == Some(Val::Int(-a))),
{
    reveal(erlang_of_one);
    reveal(erlang_of_two);
    reveal(equated);
    reveal(runtime);
    reveal_strlit("*");
    reveal_strlit("+");
    reveal_strlit("++");
    reveal_strlit("-");
    reveal_strlit("/=");
    reveal_strlit("<");
    reveal_strlit("=/=");
    reveal_strlit("=:=");
    reveal_strlit("=<");
    reveal_strlit("==");
    reveal_strlit(">");
    reveal_strlit(">=");
    reveal_strlit("and");
    reveal_strlit("div");
    reveal_strlit("element");
    reveal_strlit("max");
    reveal_strlit("min");
    reveal_strlit("or");
    reveal_strlit("rem");
    assert("*"@.len() == 1);
    assert("+"@.len() == 1);
    assert("++"@.len() == 2);
    assert("-"@.len() == 1);
    assert("/="@.len() == 2);
    assert("<"@.len() == 1);
    assert("=/="@.len() == 3);
    assert("=:="@.len() == 3);
    assert("=<"@.len() == 2);
    assert("=="@.len() == 2);
    assert(">"@.len() == 1);
    assert(">="@.len() == 2);
    assert("and"@.len() == 3);
    assert("div"@.len() == 3);
    assert("element"@.len() == 7);
    assert("max"@.len() == 3);
    assert("min"@.len() == 3);
    assert("or"@.len() == 2);
    assert("rem"@.len() == 3);
    assert("*"@[0] != "+"@[0]);
    assert("*"@[0] != "-"@[0]);
    assert("*"@[0] != "<"@[0]);
    assert("*"@[0] != ">"@[0]);
    assert("+"@[0] != "-"@[0]);
    assert("+"@[0] != "<"@[0]);
    assert("+"@[0] != ">"@[0]);
    assert("++"@[0] != "/="@[0]);
    assert("++"@[0] != "=<"@[0]);
    assert("++"@[0] != "=="@[0]);
    assert("++"@[0] != ">="@[0]);
    assert("++"@[0] != "or"@[0]);
    assert("-"@[0] != "<"@[0]);
    assert("-"@[0] != ">"@[0]);
    assert("/="@[0] != "=<"@[0]);
    assert("/="@[0] != "=="@[0]);
    assert("/="@[0] != ">="@[0]);
    assert("/="@[0] != "or"@[0]);
    assert("<"@[0] != ">"@[0]);
    assert("=/="@[1] != "=:="@[1]);
    assert("=/="@[0] != "and"@[0]);
    assert("=/="@[0] != "div"@[0]);
    assert("=/="@[0] != "max"@[0]);
    assert("=/="@[0] != "min"@[0]);
    assert("=/="@[0] != "rem"@[0]);
    assert("=:="@[0] != "and"@[0]);
    assert("=:="@[0] != "div"@[0]);
    assert("=:="@[0] != "max"@[0]);
    assert("=:="@[0] != "min"@[0]);
    assert("=:="@[0] != "rem"@[0]);
    assert("=<"@[1] != "=="@[1]);
    assert("=<"@[0] != ">="@[0]);
    assert("=<"@[0] != "or"@[0]);
    assert("=="@[0] != ">="@[0]);
    assert("=="@[0] != "or"@[0]);
    assert(">="@[0] != "or"@[0]);
    assert("and"@[0] != "div"@[0]);
    assert("and"@[0] != "max"@[0]);
    assert("and"@[0] != "min"@[0]);
    assert("and"@[0] != "rem"@[0]);
    assert("div"@[0] != "max"@[0]);
    assert("div"@[0] != "min"@[0]);
    assert("div"@[0] != "rem"@[0]);
    assert("max"@[1] != "min"@[1]);
    assert("max"@[0] != "rem"@[0]);
    assert("min"@[0] != "rem"@[0]);
    reveal_strlit("-");
    reveal_strlit("abs");
    reveal_strlit("hd");
    reveal_strlit("length");
    reveal_strlit("not");
    reveal_strlit("tl");
    assert("-"@.len() == 1);
    assert("abs"@.len() == 3);
    assert("hd"@.len() == 2);
    assert("length"@.len() == 6);
    assert("not"@.len() == 3);
    assert("tl"@.len() == 2);
    assert("abs"@[0] != "not"@[0]);
    assert("hd"@[0] != "tl"@[0]);
    reveal_strlit("lux_rt_add");
    reveal_strlit("lux_rt_cons_head");
    reveal_strlit("lux_rt_cons_tail");
    reveal_strlit("lux_rt_greater_equal");
    reveal_strlit("lux_rt_greater_than");
    reveal_strlit("lux_rt_less_equal");
    reveal_strlit("lux_rt_less_than");
    reveal_strlit("lux_rt_list_length");
    reveal_strlit("lux_rt_mul");
    reveal_strlit("lux_rt_negate");
    reveal_strlit("lux_rt_safe_div");
    reveal_strlit("lux_rt_safe_rem");
    reveal_strlit("lux_rt_sub");
    reveal_strlit("lux_rt_value_equal");
    assert("lux_rt_add"@.len() == 10);
    assert("lux_rt_cons_head"@.len() == 16);
    assert("lux_rt_cons_tail"@.len() == 16);
    assert("lux_rt_greater_equal"@.len() == 20);
    assert("lux_rt_greater_than"@.len() == 19);
    assert("lux_rt_less_equal"@.len() == 17);
    assert("lux_rt_less_than"@.len() == 16);
    assert("lux_rt_list_length"@.len() == 18);
    assert("lux_rt_mul"@.len() == 10);
    assert("lux_rt_negate"@.len() == 13);
    assert("lux_rt_safe_div"@.len() == 15);
    assert("lux_rt_safe_rem"@.len() == 15);
    assert("lux_rt_sub"@.len() == 10);
    assert("lux_rt_value_equal"@.len() == 18);
    assert("lux_rt_add"@[7] != "lux_rt_mul"@[7]);
    assert("lux_rt_add"@[7] != "lux_rt_sub"@[7]);
    assert("lux_rt_cons_head"@[12] != "lux_rt_cons_tail"@[12]);
    assert("lux_rt_cons_head"@[7] != "lux_rt_less_than"@[7]);
    assert("lux_rt_cons_tail"@[7] != "lux_rt_less_than"@[7]);
    assert("lux_rt_list_length"@[7] != "lux_rt_value_equal"@[7]);
    assert("lux_rt_mul"@[7] != "lux_rt_sub"@[7]);
    assert("lux_rt_safe_div"@[12] != "lux_rt_safe_rem"@[12]);
}

/// How many arguments they take.
pub proof fn made_arities(f: Seq<char>, s: Seq<Val>)
    requires
        is_made(f),
        erlang(f, s) is Some,
    ensures
        s.len() == if f == "not"@ || f == "abs"@ {
            1nat
        } else {
            2nat
        },
{
    reveal(erlang_of_one);
    reveal(erlang_of_two);
    reveal(equated);
    reveal_strlit("*");
    reveal_strlit("+");
    reveal_strlit("++");
    reveal_strlit("-");
    reveal_strlit("/=");
    reveal_strlit("<");
    reveal_strlit("=/=");
    reveal_strlit("=:=");
    reveal_strlit("=<");
    reveal_strlit("==");
    reveal_strlit(">");
    reveal_strlit(">=");
    reveal_strlit("abs");
    reveal_strlit("and");
    reveal_strlit("byte_size");
    reveal_strlit("div");
    reveal_strlit("element");
    reveal_strlit("hd");
    reveal_strlit("is_atom");
    reveal_strlit("is_binary");
    reveal_strlit("is_boolean");
    reveal_strlit("is_integer");
    reveal_strlit("is_list");
    reveal_strlit("is_map");
    reveal_strlit("is_tuple");
    reveal_strlit("length");
    reveal_strlit("list_to_tuple");
    reveal_strlit("max");
    reveal_strlit("min");
    reveal_strlit("not");
    reveal_strlit("or");
    reveal_strlit("rem");
    reveal_strlit("setelement");
    reveal_strlit("tl");
    reveal_strlit("tuple_size");
    reveal_strlit("tuple_to_list");
    assert("*"@.len() == 1);
    assert("+"@.len() == 1);
    assert("++"@.len() == 2);
    assert("-"@.len() == 1);
    assert("/="@.len() == 2);
    assert("<"@.len() == 1);
    assert("=/="@.len() == 3);
    assert("=:="@.len() == 3);
    assert("=<"@.len() == 2);
    assert("=="@.len() == 2);
    assert(">"@.len() == 1);
    assert(">="@.len() == 2);
    assert("abs"@.len() == 3);
    assert("and"@.len() == 3);
    assert("byte_size"@.len() == 9);
    assert("div"@.len() == 3);
    assert("element"@.len() == 7);
    assert("hd"@.len() == 2);
    assert("is_atom"@.len() == 7);
    assert("is_binary"@.len() == 9);
    assert("is_boolean"@.len() == 10);
    assert("is_integer"@.len() == 10);
    assert("is_list"@.len() == 7);
    assert("is_map"@.len() == 6);
    assert("is_tuple"@.len() == 8);
    assert("length"@.len() == 6);
    assert("list_to_tuple"@.len() == 13);
    assert("max"@.len() == 3);
    assert("min"@.len() == 3);
    assert("not"@.len() == 3);
    assert("or"@.len() == 2);
    assert("rem"@.len() == 3);
    assert("setelement"@.len() == 10);
    assert("tl"@.len() == 2);
    assert("tuple_size"@.len() == 10);
    assert("tuple_to_list"@.len() == 13);
    assert("*"@[0] != "+"@[0]);
    assert("*"@[0] != "-"@[0]);
    assert("*"@[0] != "<"@[0]);
    assert("*"@[0] != ">"@[0]);
    assert("+"@[0] != "-"@[0]);
    assert("+"@[0] != "<"@[0]);
    assert("+"@[0] != ">"@[0]);
    assert("++"@[0] != "/="@[0]);
    assert("++"@[0] != "=<"@[0]);
    assert("++"@[0] != "=="@[0]);
    assert("++"@[0] != ">="@[0]);
    assert("++"@[0] != "hd"@[0]);
    assert("++"@[0] != "or"@[0]);
    assert("++"@[0] != "tl"@[0]);
    assert("-"@[0] != "<"@[0]);
    assert("-"@[0] != ">"@[0]);
    assert("/="@[0] != "=<"@[0]);
    assert("/="@[0] != "=="@[0]);
    assert("/="@[0] != ">="@[0]);
    assert("/="@[0] != "hd"@[0]);
    assert("/="@[0] != "or"@[0]);
    assert("/="@[0] != "tl"@[0]);
    assert("<"@[0] != ">"@[0]);
    assert("=/="@[1] != "=:="@[1]);
    assert("=/="@[0] != "abs"@[0]);
    assert("=/="@[0] != "and"@[0]);
    assert("=/="@[0] != "div"@[0]);
    assert("=/="@[0] != "max"@[0]);
    assert("=/="@[0] != "min"@[0]);
    assert("=/="@[0] != "not"@[0]);
    assert("=/="@[0] != "rem"@[0]);
    assert("=:="@[0] != "abs"@[0]);
    assert("=:="@[0] != "and"@[0]);
    assert("=:="@[0] != "div"@[0]);
    assert("=:="@[0] != "max"@[0]);
    assert("=:="@[0] != "min"@[0]);
    assert("=:="@[0] != "not"@[0]);
    assert("=:="@[0] != "rem"@[0]);
    assert("=<"@[1] != "=="@[1]);
    assert("=<"@[0] != ">="@[0]);
    assert("=<"@[0] != "hd"@[0]);
    assert("=<"@[0] != "or"@[0]);
    assert("=<"@[0] != "tl"@[0]);
    assert("=="@[0] != ">="@[0]);
    assert("=="@[0] != "hd"@[0]);
    assert("=="@[0] != "or"@[0]);
    assert("=="@[0] != "tl"@[0]);
    assert(">="@[0] != "hd"@[0]);
    assert(">="@[0] != "or"@[0]);
    assert(">="@[0] != "tl"@[0]);
    assert("abs"@[1] != "and"@[1]);
    assert("abs"@[0] != "div"@[0]);
    assert("abs"@[0] != "max"@[0]);
    assert("abs"@[0] != "min"@[0]);
    assert("abs"@[0] != "not"@[0]);
    assert("abs"@[0] != "rem"@[0]);
    assert("and"@[0] != "div"@[0]);
    assert("and"@[0] != "max"@[0]);
    assert("and"@[0] != "min"@[0]);
    assert("and"@[0] != "not"@[0]);
    assert("and"@[0] != "rem"@[0]);
    assert("byte_size"@[0] != "is_binary"@[0]);
    assert("div"@[0] != "max"@[0]);
    assert("div"@[0] != "min"@[0]);
    assert("div"@[0] != "not"@[0]);
    assert("div"@[0] != "rem"@[0]);
    assert("element"@[0] != "is_atom"@[0]);
    assert("element"@[0] != "is_list"@[0]);
    assert("hd"@[0] != "or"@[0]);
    assert("hd"@[0] != "tl"@[0]);
    assert("is_atom"@[3] != "is_list"@[3]);
    assert("is_boolean"@[3] != "is_integer"@[3]);
    assert("is_boolean"@[0] != "setelement"@[0]);
    assert("is_boolean"@[0] != "tuple_size"@[0]);
    assert("is_integer"@[0] != "setelement"@[0]);
    assert("is_integer"@[0] != "tuple_size"@[0]);
    assert("is_map"@[0] != "length"@[0]);
    assert("list_to_tuple"@[0] != "tuple_to_list"@[0]);
    assert("max"@[1] != "min"@[1]);
    assert("max"@[0] != "not"@[0]);
    assert("max"@[0] != "rem"@[0]);
    assert("min"@[0] != "not"@[0]);
    assert("min"@[0] != "rem"@[0]);
    assert("not"@[0] != "rem"@[0]);
    assert("or"@[0] != "tl"@[0]);
    assert("setelement"@[0] != "tuple_size"@[0]);
}

} // verus!
