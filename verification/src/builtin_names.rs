//! The names of the built-in functions that have a meaning here.
use vstd::prelude::*;
use crate::builtins::{plain1, plain2, plain3, special1, special2, special3};
use crate::erlang::Core;
use crate::ast::BinOp;
use crate::lower::{erlang_op, pipe_module};
use crate::lux_meaning::{is_piped, known, known1, known2, operation};
use crate::meaning::{
    counted, elements, equated, erlang_of_one, erlang_of_two, is_flat, list_of, list_onto, lists,
    magnitude, maps, returned, truth, truth_in, value_at, Val, World,
};
use crate::shape;

verus! {

proof fn plain1_names1()
    ensures
        plain1("length"@) == Some(("erlang"@, "length"@)),
        "length"@ != "print"@ && "length"@ != "println"@,
        plain1("hd"@) == Some(("erlang"@, "hd"@)),
        "hd"@ != "print"@ && "hd"@ != "println"@,
        plain1("tl"@) == Some(("erlang"@, "tl"@)),
        "tl"@ != "print"@ && "tl"@ != "println"@,
        plain1("abs"@) == Some(("erlang"@, "abs"@)),
        "abs"@ != "print"@ && "abs"@ != "println"@,
        plain1("reverse"@) == Some(("lists"@, "reverse"@)),
        "reverse"@ != "print"@ && "reverse"@ != "println"@,
{
    reveal_strlit("abs");
    reveal_strlit("hd");
    reveal_strlit("length");
    reveal_strlit("print");
    reveal_strlit("println");
    reveal_strlit("reverse");
    reveal_strlit("tl");
    assert("abs"@.len() == 3);
    assert("hd"@.len() == 2);
    assert("length"@.len() == 6);
    assert("print"@.len() == 5);
    assert("println"@.len() == 7);
    assert("reverse"@.len() == 7);
    assert("tl"@.len() == 2);
    assert("hd"@[0] != "tl"@[0]);
    assert("reverse"@[0] != "println"@[0]);
}

proof fn plain1_names2()
    ensures
        plain1("size"@) == Some(("erlang"@, "tuple_size"@)),
        "size"@ != "print"@ && "size"@ != "println"@,
        plain1("is_int"@) == Some(("erlang"@, "is_integer"@)),
        "is_int"@ != "print"@ && "is_int"@ != "println"@,
        plain1("is_atom"@) == Some(("erlang"@, "is_atom"@)),
        "is_atom"@ != "print"@ && "is_atom"@ != "println"@,
        plain1("is_bool"@) == Some(("erlang"@, "is_boolean"@)),
        "is_bool"@ != "print"@ && "is_bool"@ != "println"@,
        plain1("is_list"@) == Some(("erlang"@, "is_list"@)),
        "is_list"@ != "print"@ && "is_list"@ != "println"@,
{
    reveal_strlit("abs");
    reveal_strlit("bnot");
    reveal_strlit("error");
    reveal_strlit("exit");
    reveal_strlit("flatten");
    reveal_strlit("hd");
    reveal_strlit("is_atom");
    reveal_strlit("is_bool");
    reveal_strlit("is_float");
    reveal_strlit("is_int");
    reveal_strlit("is_list");
    reveal_strlit("is_map");
    reveal_strlit("is_number");
    reveal_strlit("is_tuple");
    reveal_strlit("length");
    reveal_strlit("print");
    reveal_strlit("println");
    reveal_strlit("reverse");
    reveal_strlit("size");
    reveal_strlit("sort");
    reveal_strlit("throw");
    reveal_strlit("tl");
    reveal_strlit("to_atom");
    reveal_strlit("to_float");
    reveal_strlit("to_int");
    assert("abs"@.len() == 3);
    assert("bnot"@.len() == 4);
    assert("error"@.len() == 5);
    assert("exit"@.len() == 4);
    assert("flatten"@.len() == 7);
    assert("hd"@.len() == 2);
    assert("is_atom"@.len() == 7);
    assert("is_bool"@.len() == 7);
    assert("is_float"@.len() == 8);
    assert("is_int"@.len() == 6);
    assert("is_list"@.len() == 7);
    assert("is_map"@.len() == 6);
    assert("is_number"@.len() == 9);
    assert("is_tuple"@.len() == 8);
    assert("length"@.len() == 6);
    assert("print"@.len() == 5);
    assert("println"@.len() == 7);
    assert("reverse"@.len() == 7);
    assert("size"@.len() == 4);
    assert("sort"@.len() == 4);
    assert("throw"@.len() == 5);
    assert("tl"@.len() == 2);
    assert("to_atom"@.len() == 7);
    assert("to_float"@.len() == 8);
    assert("to_int"@.len() == 6);
    assert("size"@[0] != "bnot"@[0]);
    assert("size"@[0] != "exit"@[0]);
    assert("size"@[1] != "sort"@[1]);
    assert("is_int"@[3] != "is_map"@[3]);
    assert("is_int"@[0] != "length"@[0]);
    assert("is_int"@[0] != "to_int"@[0]);
    assert("is_atom"@[0] != "flatten"@[0]);
    assert("is_atom"@[3] != "is_bool"@[3]);
    assert("is_atom"@[3] != "is_list"@[3]);
    assert("is_atom"@[0] != "println"@[0]);
    assert("is_atom"@[0] != "reverse"@[0]);
    assert("is_atom"@[0] != "to_atom"@[0]);
    assert("is_bool"@[0] != "flatten"@[0]);
    assert("is_bool"@[3] != "is_list"@[3]);
    assert("is_bool"@[0] != "println"@[0]);
    assert("is_bool"@[0] != "reverse"@[0]);
    assert("is_bool"@[0] != "to_atom"@[0]);
    assert("is_list"@[0] != "flatten"@[0]);
    assert("is_list"@[0] != "println"@[0]);
    assert("is_list"@[0] != "reverse"@[0]);
    assert("is_list"@[0] != "to_atom"@[0]);
}

proof fn plain1_names3()
    ensures
        plain1("is_tuple"@) == Some(("erlang"@, "is_tuple"@)),
        "is_tuple"@ != "print"@ && "is_tuple"@ != "println"@,
        plain1("is_map"@) == Some(("erlang"@, "is_map"@)),
        "is_map"@ != "print"@ && "is_map"@ != "println"@,
        plain1("is_string"@) == Some(("erlang"@, "is_binary"@)),
        "is_string"@ != "print"@ && "is_string"@ != "println"@,
        plain1("is_binary"@) == Some(("erlang"@, "is_binary"@)),
        "is_binary"@ != "print"@ && "is_binary"@ != "println"@,
        plain1("dynamic_is_int"@) == Some(("erlang"@, "is_integer"@)),
        "dynamic_is_int"@ != "print"@ && "dynamic_is_int"@ != "println"@,
{
    reveal_strlit("abs");
    reveal_strlit("binary_to_list");
    reveal_strlit("bit_size");
    reveal_strlit("bnot");
    reveal_strlit("byte_size");
    reveal_strlit("chars");
    reveal_strlit("demonitor");
    reveal_strlit("dir_list");
    reveal_strlit("dir_make");
    reveal_strlit("dynamic_is_atom");
    reveal_strlit("dynamic_is_binary");
    reveal_strlit("dynamic_is_bool");
    reveal_strlit("dynamic_is_float");
    reveal_strlit("dynamic_is_int");
    reveal_strlit("dynamic_is_list");
    reveal_strlit("dynamic_is_map");
    reveal_strlit("dynamic_is_string");
    reveal_strlit("enumerate");
    reveal_strlit("erase");
    reveal_strlit("error");
    reveal_strlit("exit");
    reveal_strlit("exit_code");
    reveal_strlit("file_delete");
    reveal_strlit("file_exists");
    reveal_strlit("file_read");
    reveal_strlit("flatten");
    reveal_strlit("get");
    reveal_strlit("hd");
    reveal_strlit("is_atom");
    reveal_strlit("is_binary");
    reveal_strlit("is_bool");
    reveal_strlit("is_float");
    reveal_strlit("is_function");
    reveal_strlit("is_int");
    reveal_strlit("is_list");
    reveal_strlit("is_map");
    reveal_strlit("is_number");
    reveal_strlit("is_pid");
    reveal_strlit("is_string");
    reveal_strlit("is_tuple");
    reveal_strlit("length");
    reveal_strlit("link");
    reveal_strlit("list_to_binary");
    reveal_strlit("list_to_map");
    reveal_strlit("list_to_tuple");
    reveal_strlit("map_keys");
    reveal_strlit("map_size");
    reveal_strlit("map_to_list");
    reveal_strlit("map_values");
    reveal_strlit("print");
    reveal_strlit("println");
    reveal_strlit("random_below");
    reveal_strlit("reverse");
    reveal_strlit("size");
    reveal_strlit("sleep");
    reveal_strlit("sort");
    reveal_strlit("spawn_link");
    reveal_strlit("str_from_chars");
    reveal_strlit("str_length");
    reveal_strlit("str_lower");
    reveal_strlit("str_trim");
    reveal_strlit("str_upper");
    reveal_strlit("throw");
    reveal_strlit("tl");
    reveal_strlit("to_atom");
    reveal_strlit("to_float");
    reveal_strlit("to_int");
    reveal_strlit("tuple_to_list");
    reveal_strlit("unique");
    reveal_strlit("unlink");
    reveal_strlit("unzip");
    reveal_strlit("whereis");
    assert("abs"@.len() == 3);
    assert("binary_to_list"@.len() == 14);
    assert("bit_size"@.len() == 8);
    assert("bnot"@.len() == 4);
    assert("byte_size"@.len() == 9);
    assert("chars"@.len() == 5);
    assert("demonitor"@.len() == 9);
    assert("dir_list"@.len() == 8);
    assert("dir_make"@.len() == 8);
    assert("dynamic_is_atom"@.len() == 15);
    assert("dynamic_is_binary"@.len() == 17);
    assert("dynamic_is_bool"@.len() == 15);
    assert("dynamic_is_float"@.len() == 16);
    assert("dynamic_is_int"@.len() == 14);
    assert("dynamic_is_list"@.len() == 15);
    assert("dynamic_is_map"@.len() == 14);
    assert("dynamic_is_string"@.len() == 17);
    assert("enumerate"@.len() == 9);
    assert("erase"@.len() == 5);
    assert("error"@.len() == 5);
    assert("exit"@.len() == 4);
    assert("exit_code"@.len() == 9);
    assert("file_delete"@.len() == 11);
    assert("file_exists"@.len() == 11);
    assert("file_read"@.len() == 9);
    assert("flatten"@.len() == 7);
    assert("get"@.len() == 3);
    assert("hd"@.len() == 2);
    assert("is_atom"@.len() == 7);
    assert("is_binary"@.len() == 9);
    assert("is_bool"@.len() == 7);
    assert("is_float"@.len() == 8);
    assert("is_function"@.len() == 11);
    assert("is_int"@.len() == 6);
    assert("is_list"@.len() == 7);
    assert("is_map"@.len() == 6);
    assert("is_number"@.len() == 9);
    assert("is_pid"@.len() == 6);
    assert("is_string"@.len() == 9);
    assert("is_tuple"@.len() == 8);
    assert("length"@.len() == 6);
    assert("link"@.len() == 4);
    assert("list_to_binary"@.len() == 14);
    assert("list_to_map"@.len() == 11);
    assert("list_to_tuple"@.len() == 13);
    assert("map_keys"@.len() == 8);
    assert("map_size"@.len() == 8);
    assert("map_to_list"@.len() == 11);
    assert("map_values"@.len() == 10);
    assert("print"@.len() == 5);
    assert("println"@.len() == 7);
    assert("random_below"@.len() == 12);
    assert("reverse"@.len() == 7);
    assert("size"@.len() == 4);
    assert("sleep"@.len() == 5);
    assert("sort"@.len() == 4);
    assert("spawn_link"@.len() == 10);
    assert("str_from_chars"@.len() == 14);
    assert("str_length"@.len() == 10);
    assert("str_lower"@.len() == 9);
    assert("str_trim"@.len() == 8);
    assert("str_upper"@.len() == 9);
    assert("throw"@.len() == 5);
    assert("tl"@.len() == 2);
    assert("to_atom"@.len() == 7);
    assert("to_float"@.len() == 8);
    assert("to_int"@.len() == 6);
    assert("tuple_to_list"@.len() == 13);
    assert("unique"@.len() == 6);
    assert("unlink"@.len() == 6);
    assert("unzip"@.len() == 5);
    assert("whereis"@.len() == 7);
    assert("is_tuple"@[0] != "bit_size"@[0]);
    assert("is_tuple"@[0] != "dir_list"@[0]);
    assert("is_tuple"@[0] != "dir_make"@[0]);
    assert("is_tuple"@[3] != "is_float"@[3]);
    assert("is_tuple"@[0] != "map_keys"@[0]);
    assert("is_tuple"@[0] != "map_size"@[0]);
    assert("is_tuple"@[0] != "str_trim"@[0]);
    assert("is_tuple"@[0] != "to_float"@[0]);
    assert("is_map"@[3] != "is_int"@[3]);
    assert("is_map"@[3] != "is_pid"@[3]);
    assert("is_map"@[0] != "length"@[0]);
    assert("is_map"@[0] != "to_int"@[0]);
    assert("is_map"@[0] != "unique"@[0]);
    assert("is_map"@[0] != "unlink"@[0]);
    assert("is_string"@[0] != "byte_size"@[0]);
    assert("is_string"@[0] != "demonitor"@[0]);
    assert("is_string"@[0] != "enumerate"@[0]);
    assert("is_string"@[0] != "exit_code"@[0]);
    assert("is_string"@[0] != "file_read"@[0]);
    assert("is_string"@[3] != "is_binary"@[3]);
    assert("is_string"@[3] != "is_number"@[3]);
    assert("is_string"@[0] != "str_lower"@[0]);
    assert("is_string"@[0] != "str_upper"@[0]);
    assert("is_binary"@[0] != "byte_size"@[0]);
    assert("is_binary"@[0] != "demonitor"@[0]);
    assert("is_binary"@[0] != "enumerate"@[0]);
    assert("is_binary"@[0] != "exit_code"@[0]);
    assert("is_binary"@[0] != "file_read"@[0]);
    assert("is_binary"@[3] != "is_number"@[3]);
    assert("is_binary"@[0] != "str_lower"@[0]);
    assert("is_binary"@[0] != "str_upper"@[0]);
    assert("dynamic_is_int"@[0] != "binary_to_list"@[0]);
    assert("dynamic_is_int"@[11] != "dynamic_is_map"@[11]);
    assert("dynamic_is_int"@[0] != "list_to_binary"@[0]);
    assert("dynamic_is_int"@[0] != "str_from_chars"@[0]);
}

proof fn plain1_names4()
    ensures
        plain1("dynamic_is_atom"@) == Some(("erlang"@, "is_atom"@)),
        "dynamic_is_atom"@ != "print"@ && "dynamic_is_atom"@ != "println"@,
        plain1("dynamic_is_bool"@) == Some(("erlang"@, "is_boolean"@)),
        "dynamic_is_bool"@ != "print"@ && "dynamic_is_bool"@ != "println"@,
        plain1("dynamic_is_list"@) == Some(("erlang"@, "is_list"@)),
        "dynamic_is_list"@ != "print"@ && "dynamic_is_list"@ != "println"@,
        plain1("dynamic_is_map"@) == Some(("erlang"@, "is_map"@)),
        "dynamic_is_map"@ != "print"@ && "dynamic_is_map"@ != "println"@,
        plain1("dynamic_is_string"@) == Some(("erlang"@, "is_binary"@)),
        "dynamic_is_string"@ != "print"@ && "dynamic_is_string"@ != "println"@,
{
    reveal_strlit("abs");
    reveal_strlit("bnot");
    reveal_strlit("dynamic_is_atom");
    reveal_strlit("dynamic_is_binary");
    reveal_strlit("dynamic_is_bool");
    reveal_strlit("dynamic_is_float");
    reveal_strlit("dynamic_is_int");
    reveal_strlit("dynamic_is_list");
    reveal_strlit("dynamic_is_map");
    reveal_strlit("dynamic_is_string");
    reveal_strlit("error");
    reveal_strlit("exit");
    reveal_strlit("flatten");
    reveal_strlit("hd");
    reveal_strlit("is_atom");
    reveal_strlit("is_bool");
    reveal_strlit("is_float");
    reveal_strlit("is_int");
    reveal_strlit("is_list");
    reveal_strlit("is_map");
    reveal_strlit("is_number");
    reveal_strlit("is_string");
    reveal_strlit("is_tuple");
    reveal_strlit("length");
    reveal_strlit("print");
    reveal_strlit("println");
    reveal_strlit("reverse");
    reveal_strlit("size");
    reveal_strlit("sort");
    reveal_strlit("throw");
    reveal_strlit("tl");
    reveal_strlit("to_atom");
    reveal_strlit("to_float");
    reveal_strlit("to_int");
    assert("abs"@.len() == 3);
    assert("bnot"@.len() == 4);
    assert("dynamic_is_atom"@.len() == 15);
    assert("dynamic_is_binary"@.len() == 17);
    assert("dynamic_is_bool"@.len() == 15);
    assert("dynamic_is_float"@.len() == 16);
    assert("dynamic_is_int"@.len() == 14);
    assert("dynamic_is_list"@.len() == 15);
    assert("dynamic_is_map"@.len() == 14);
    assert("dynamic_is_string"@.len() == 17);
    assert("error"@.len() == 5);
    assert("exit"@.len() == 4);
    assert("flatten"@.len() == 7);
    assert("hd"@.len() == 2);
    assert("is_atom"@.len() == 7);
    assert("is_bool"@.len() == 7);
    assert("is_float"@.len() == 8);
    assert("is_int"@.len() == 6);
    assert("is_list"@.len() == 7);
    assert("is_map"@.len() == 6);
    assert("is_number"@.len() == 9);
    assert("is_string"@.len() == 9);
    assert("is_tuple"@.len() == 8);
    assert("length"@.len() == 6);
    assert("print"@.len() == 5);
    assert("println"@.len() == 7);
    assert("reverse"@.len() == 7);
    assert("size"@.len() == 4);
    assert("sort"@.len() == 4);
    assert("throw"@.len() == 5);
    assert("tl"@.len() == 2);
    assert("to_atom"@.len() == 7);
    assert("to_float"@.len() == 8);
    assert("to_int"@.len() == 6);
    assert("dynamic_is_atom"@[11] != "dynamic_is_bool"@[11]);
    assert("dynamic_is_atom"@[11] != "dynamic_is_list"@[11]);
    assert("dynamic_is_bool"@[11] != "dynamic_is_list"@[11]);
    assert("dynamic_is_map"@[11] != "dynamic_is_int"@[11]);
    assert("dynamic_is_string"@[11] != "dynamic_is_binary"@[11]);
}

proof fn plain1_names5()
    ensures
        plain1("dynamic_is_binary"@) == Some(("erlang"@, "is_binary"@)),
        "dynamic_is_binary"@ != "print"@ && "dynamic_is_binary"@ != "println"@,
        plain1("str_length"@) == Some(("erlang"@, "byte_size"@)),
        "str_length"@ != "print"@ && "str_length"@ != "println"@,
        plain1("byte_size"@) == Some(("erlang"@, "byte_size"@)),
        "byte_size"@ != "print"@ && "byte_size"@ != "println"@,
        plain1("tuple_to_list"@) == Some(("erlang"@, "tuple_to_list"@)),
        "tuple_to_list"@ != "print"@ && "tuple_to_list"@ != "println"@,
        plain1("list_to_tuple"@) == Some(("erlang"@, "list_to_tuple"@)),
        "list_to_tuple"@ != "print"@ && "list_to_tuple"@ != "println"@,
{
    reveal_strlit("abs");
    reveal_strlit("bnot");
    reveal_strlit("byte_size");
    reveal_strlit("chars");
    reveal_strlit("demonitor");
    reveal_strlit("dir_list");
    reveal_strlit("dir_make");
    reveal_strlit("dynamic_is_atom");
    reveal_strlit("dynamic_is_binary");
    reveal_strlit("dynamic_is_bool");
    reveal_strlit("dynamic_is_float");
    reveal_strlit("dynamic_is_int");
    reveal_strlit("dynamic_is_list");
    reveal_strlit("dynamic_is_map");
    reveal_strlit("dynamic_is_string");
    reveal_strlit("enumerate");
    reveal_strlit("erase");
    reveal_strlit("error");
    reveal_strlit("exit");
    reveal_strlit("exit_code");
    reveal_strlit("file_delete");
    reveal_strlit("file_exists");
    reveal_strlit("file_read");
    reveal_strlit("flatten");
    reveal_strlit("get");
    reveal_strlit("hd");
    reveal_strlit("is_atom");
    reveal_strlit("is_bool");
    reveal_strlit("is_float");
    reveal_strlit("is_function");
    reveal_strlit("is_int");
    reveal_strlit("is_list");
    reveal_strlit("is_map");
    reveal_strlit("is_number");
    reveal_strlit("is_pid");
    reveal_strlit("is_string");
    reveal_strlit("is_tuple");
    reveal_strlit("length");
    reveal_strlit("link");
    reveal_strlit("list_to_map");
    reveal_strlit("list_to_tuple");
    reveal_strlit("map_keys");
    reveal_strlit("map_size");
    reveal_strlit("map_to_list");
    reveal_strlit("map_values");
    reveal_strlit("print");
    reveal_strlit("println");
    reveal_strlit("random_below");
    reveal_strlit("reverse");
    reveal_strlit("size");
    reveal_strlit("sleep");
    reveal_strlit("sort");
    reveal_strlit("spawn_link");
    reveal_strlit("str_from_chars");
    reveal_strlit("str_length");
    reveal_strlit("str_lower");
    reveal_strlit("str_trim");
    reveal_strlit("str_upper");
    reveal_strlit("throw");
    reveal_strlit("tl");
    reveal_strlit("to_atom");
    reveal_strlit("to_float");
    reveal_strlit("to_int");
    reveal_strlit("tuple_to_list");
    reveal_strlit("unique");
    reveal_strlit("unlink");
    reveal_strlit("unzip");
    reveal_strlit("whereis");
    assert("abs"@.len() == 3);
    assert("bnot"@.len() == 4);
    assert("byte_size"@.len() == 9);
    assert("chars"@.len() == 5);
    assert("demonitor"@.len() == 9);
    assert("dir_list"@.len() == 8);
    assert("dir_make"@.len() == 8);
    assert("dynamic_is_atom"@.len() == 15);
    assert("dynamic_is_binary"@.len() == 17);
    assert("dynamic_is_bool"@.len() == 15);
    assert("dynamic_is_float"@.len() == 16);
    assert("dynamic_is_int"@.len() == 14);
    assert("dynamic_is_list"@.len() == 15);
    assert("dynamic_is_map"@.len() == 14);
    assert("dynamic_is_string"@.len() == 17);
    assert("enumerate"@.len() == 9);
    assert("erase"@.len() == 5);
    assert("error"@.len() == 5);
    assert("exit"@.len() == 4);
    assert("exit_code"@.len() == 9);
    assert("file_delete"@.len() == 11);
    assert("file_exists"@.len() == 11);
    assert("file_read"@.len() == 9);
    assert("flatten"@.len() == 7);
    assert("get"@.len() == 3);
    assert("hd"@.len() == 2);
    assert("is_atom"@.len() == 7);
    assert("is_bool"@.len() == 7);
    assert("is_float"@.len() == 8);
    assert("is_function"@.len() == 11);
    assert("is_int"@.len() == 6);
    assert("is_list"@.len() == 7);
    assert("is_map"@.len() == 6);
    assert("is_number"@.len() == 9);
    assert("is_pid"@.len() == 6);
    assert("is_string"@.len() == 9);
    assert("is_tuple"@.len() == 8);
    assert("length"@.len() == 6);
    assert("link"@.len() == 4);
    assert("list_to_map"@.len() == 11);
    assert("list_to_tuple"@.len() == 13);
    assert("map_keys"@.len() == 8);
    assert("map_size"@.len() == 8);
    assert("map_to_list"@.len() == 11);
    assert("map_values"@.len() == 10);
    assert("print"@.len() == 5);
    assert("println"@.len() == 7);
    assert("random_below"@.len() == 12);
    assert("reverse"@.len() == 7);
    assert("size"@.len() == 4);
    assert("sleep"@.len() == 5);
    assert("sort"@.len() == 4);
    assert("spawn_link"@.len() == 10);
    assert("str_from_chars"@.len() == 14);
    assert("str_length"@.len() == 10);
    assert("str_lower"@.len() == 9);
    assert("str_trim"@.len() == 8);
    assert("str_upper"@.len() == 9);
    assert("throw"@.len() == 5);
    assert("tl"@.len() == 2);
    assert("to_atom"@.len() == 7);
    assert("to_float"@.len() == 8);
    assert("to_int"@.len() == 6);
    assert("tuple_to_list"@.len() == 13);
    assert("unique"@.len() == 6);
    assert("unlink"@.len() == 6);
    assert("unzip"@.len() == 5);
    assert("whereis"@.len() == 7);
    assert("dynamic_is_binary"@[11] != "dynamic_is_string"@[11]);
    assert("str_length"@[0] != "map_values"@[0]);
    assert("str_length"@[1] != "spawn_link"@[1]);
    assert("byte_size"@[0] != "demonitor"@[0]);
    assert("byte_size"@[0] != "enumerate"@[0]);
    assert("byte_size"@[0] != "exit_code"@[0]);
    assert("byte_size"@[0] != "file_read"@[0]);
    assert("byte_size"@[0] != "is_number"@[0]);
    assert("byte_size"@[0] != "is_string"@[0]);
    assert("byte_size"@[0] != "str_lower"@[0]);
    assert("byte_size"@[0] != "str_upper"@[0]);
    assert("tuple_to_list"@[0] != "list_to_tuple"@[0]);
}

proof fn special1_names()
    ensures
        plain1("fst"@) is None,
        forall|a: Core, n: nat| #[trigger]
            special1("fst"@, a, n) == Some((shape::call2("erlang"@, "element"@, shape::num(1), a), n)),
        "fst"@ != "print"@ && "fst"@ != "println"@,
        plain1("snd"@) is None,
        forall|a: Core, n: nat| #[trigger]
            special1("snd"@, a, n) == Some((shape::call2("erlang"@, "element"@, shape::num(2), a), n)),
        "snd"@ != "print"@ && "snd"@ != "println"@,
        plain1("is_nil"@) is None,
        forall|a: Core, n: nat| #[trigger]
            special1("is_nil"@, a, n) == Some((shape::call2("erlang"@, "=:="@, a, shape::nil()), n)),
        "is_nil"@ != "print"@ && "is_nil"@ != "println"@,
{
    reveal_strlit("abs");
    reveal_strlit("assert");
    reveal_strlit("atom_to_list");
    reveal_strlit("binary_to_list");
    reveal_strlit("binary_to_term");
    reveal_strlit("bit_size");
    reveal_strlit("bnot");
    reveal_strlit("byte_size");
    reveal_strlit("chars");
    reveal_strlit("dbg");
    reveal_strlit("demonitor");
    reveal_strlit("dir_list");
    reveal_strlit("dir_make");
    reveal_strlit("dynamic");
    reveal_strlit("dynamic_is_atom");
    reveal_strlit("dynamic_is_binary");
    reveal_strlit("dynamic_is_bool");
    reveal_strlit("dynamic_is_float");
    reveal_strlit("dynamic_is_int");
    reveal_strlit("dynamic_is_list");
    reveal_strlit("dynamic_is_map");
    reveal_strlit("dynamic_is_null");
    reveal_strlit("dynamic_is_string");
    reveal_strlit("dynamic_json_decode");
    reveal_strlit("dynamic_json_decode_result");
    reveal_strlit("dynamic_json_encode");
    reveal_strlit("dynamic_typeof");
    reveal_strlit("enumerate");
    reveal_strlit("env");
    reveal_strlit("erase");
    reveal_strlit("error");
    reveal_strlit("exit");
    reveal_strlit("exit_code");
    reveal_strlit("file_delete");
    reveal_strlit("file_exists");
    reveal_strlit("file_read");
    reveal_strlit("flatten");
    reveal_strlit("float_to_list");
    reveal_strlit("fst");
    reveal_strlit("get");
    reveal_strlit("hd");
    reveal_strlit("integer_to_list");
    reveal_strlit("iolist_to_binary");
    reveal_strlit("is_atom");
    reveal_strlit("is_binary");
    reveal_strlit("is_bool");
    reveal_strlit("is_float");
    reveal_strlit("is_function");
    reveal_strlit("is_int");
    reveal_strlit("is_list");
    reveal_strlit("is_map");
    reveal_strlit("is_nil");
    reveal_strlit("is_number");
    reveal_strlit("is_pid");
    reveal_strlit("is_string");
    reveal_strlit("is_tuple");
    reveal_strlit("length");
    reveal_strlit("link");
    reveal_strlit("list_to_atom");
    reveal_strlit("list_to_binary");
    reveal_strlit("list_to_float");
    reveal_strlit("list_to_integer");
    reveal_strlit("list_to_map");
    reveal_strlit("list_to_tuple");
    reveal_strlit("map_keys");
    reveal_strlit("map_size");
    reveal_strlit("map_to_list");
    reveal_strlit("map_values");
    reveal_strlit("monitor");
    reveal_strlit("os_cmd");
    reveal_strlit("print");
    reveal_strlit("println");
    reveal_strlit("random_below");
    reveal_strlit("reverse");
    reveal_strlit("size");
    reveal_strlit("sleep");
    reveal_strlit("snd");
    reveal_strlit("sort");
    reveal_strlit("spawn_link");
    reveal_strlit("str_from_chars");
    reveal_strlit("str_length");
    reveal_strlit("str_lower");
    reveal_strlit("str_trim");
    reveal_strlit("str_upper");
    reveal_strlit("term_to_binary");
    reveal_strlit("throw");
    reveal_strlit("tl");
    reveal_strlit("to_atom");
    reveal_strlit("to_float");
    reveal_strlit("to_int");
    reveal_strlit("to_string");
    reveal_strlit("tuple_to_list");
    reveal_strlit("typeof");
    reveal_strlit("unique");
    reveal_strlit("unlink");
    reveal_strlit("unzip");
    reveal_strlit("whereis");
    assert("abs"@.len() == 3);
    assert("assert"@.len() == 6);
    assert("atom_to_list"@.len() == 12);
    assert("binary_to_list"@.len() == 14);
    assert("binary_to_term"@.len() == 14);
    assert("bit_size"@.len() == 8);
    assert("bnot"@.len() == 4);
    assert("byte_size"@.len() == 9);
    assert("chars"@.len() == 5);
    assert("dbg"@.len() == 3);
    assert("demonitor"@.len() == 9);
    assert("dir_list"@.len() == 8);
    assert("dir_make"@.len() == 8);
    assert("dynamic"@.len() == 7);
    assert("dynamic_is_atom"@.len() == 15);
    assert("dynamic_is_binary"@.len() == 17);
    assert("dynamic_is_bool"@.len() == 15);
    assert("dynamic_is_float"@.len() == 16);
    assert("dynamic_is_int"@.len() == 14);
    assert("dynamic_is_list"@.len() == 15);
    assert("dynamic_is_map"@.len() == 14);
    assert("dynamic_is_null"@.len() == 15);
    assert("dynamic_is_string"@.len() == 17);
    assert("dynamic_json_decode"@.len() == 19);
    assert("dynamic_json_decode_result"@.len() == 26);
    assert("dynamic_json_encode"@.len() == 19);
    assert("dynamic_typeof"@.len() == 14);
    assert("enumerate"@.len() == 9);
    assert("env"@.len() == 3);
    assert("erase"@.len() == 5);
    assert("error"@.len() == 5);
    assert("exit"@.len() == 4);
    assert("exit_code"@.len() == 9);
    assert("file_delete"@.len() == 11);
    assert("file_exists"@.len() == 11);
    assert("file_read"@.len() == 9);
    assert("flatten"@.len() == 7);
    assert("float_to_list"@.len() == 13);
    assert("fst"@.len() == 3);
    assert("get"@.len() == 3);
    assert("hd"@.len() == 2);
    assert("integer_to_list"@.len() == 15);
    assert("iolist_to_binary"@.len() == 16);
    assert("is_atom"@.len() == 7);
    assert("is_binary"@.len() == 9);
    assert("is_bool"@.len() == 7);
    assert("is_float"@.len() == 8);
    assert("is_function"@.len() == 11);
    assert("is_int"@.len() == 6);
    assert("is_list"@.len() == 7);
    assert("is_map"@.len() == 6);
    assert("is_nil"@.len() == 6);
    assert("is_number"@.len() == 9);
    assert("is_pid"@.len() == 6);
    assert("is_string"@.len() == 9);
    assert("is_tuple"@.len() == 8);
    assert("length"@.len() == 6);
    assert("link"@.len() == 4);
    assert("list_to_atom"@.len() == 12);
    assert("list_to_binary"@.len() == 14);
    assert("list_to_float"@.len() == 13);
    assert("list_to_integer"@.len() == 15);
    assert("list_to_map"@.len() == 11);
    assert("list_to_tuple"@.len() == 13);
    assert("map_keys"@.len() == 8);
    assert("map_size"@.len() == 8);
    assert("map_to_list"@.len() == 11);
    assert("map_values"@.len() == 10);
    assert("monitor"@.len() == 7);
    assert("os_cmd"@.len() == 6);
    assert("print"@.len() == 5);
    assert("println"@.len() == 7);
    assert("random_below"@.len() == 12);
    assert("reverse"@.len() == 7);
    assert("size"@.len() == 4);
    assert("sleep"@.len() == 5);
    assert("snd"@.len() == 3);
    assert("sort"@.len() == 4);
    assert("spawn_link"@.len() == 10);
    assert("str_from_chars"@.len() == 14);
    assert("str_length"@.len() == 10);
    assert("str_lower"@.len() == 9);
    assert("str_trim"@.len() == 8);
    assert("str_upper"@.len() == 9);
    assert("term_to_binary"@.len() == 14);
    assert("throw"@.len() == 5);
    assert("tl"@.len() == 2);
    assert("to_atom"@.len() == 7);
    assert("to_float"@.len() == 8);
    assert("to_int"@.len() == 6);
    assert("to_string"@.len() == 9);
    assert("tuple_to_list"@.len() == 13);
    assert("typeof"@.len() == 6);
    assert("unique"@.len() == 6);
    assert("unlink"@.len() == 6);
    assert("unzip"@.len() == 5);
    assert("whereis"@.len() == 7);
    assert("fst"@[0] != "abs"@[0]);
    assert("fst"@[0] != "dbg"@[0]);
    assert("fst"@[0] != "env"@[0]);
    assert("fst"@[0] != "get"@[0]);
    assert("fst"@[0] != "snd"@[0]);
    assert("snd"@[0] != "abs"@[0]);
    assert("snd"@[0] != "dbg"@[0]);
    assert("snd"@[0] != "env"@[0]);
    assert("snd"@[0] != "get"@[0]);
    assert("is_nil"@[0] != "assert"@[0]);
    assert("is_nil"@[3] != "is_int"@[3]);
    assert("is_nil"@[3] != "is_map"@[3]);
    assert("is_nil"@[3] != "is_pid"@[3]);
    assert("is_nil"@[0] != "length"@[0]);
    assert("is_nil"@[0] != "os_cmd"@[0]);
    assert("is_nil"@[0] != "to_int"@[0]);
    assert("is_nil"@[0] != "typeof"@[0]);
    assert("is_nil"@[0] != "unique"@[0]);
    assert("is_nil"@[0] != "unlink"@[0]);
}

proof fn plain2_names()
    ensures
        plain2("max"@) == Some(("erlang"@, "max"@)),
        "max"@ != "print"@ && "max"@ != "println"@,
        plain2("min"@) == Some(("erlang"@, "min"@)),
        "min"@ != "print"@ && "min"@ != "println"@,
        plain2("div"@) == Some(("erlang"@, "div"@)),
        "div"@ != "print"@ && "div"@ != "println"@,
        plain2("rem"@) == Some(("erlang"@, "rem"@)),
        "rem"@ != "print"@ && "rem"@ != "println"@,
        plain2("append"@) == Some(("lists"@, "append"@)),
        "append"@ != "print"@ && "append"@ != "println"@,
        plain2("nth"@) == Some(("lists"@, "nth"@)),
        "nth"@ != "print"@ && "nth"@ != "println"@,
        plain2("drop"@) == Some(("lists"@, "nthtail"@)),
        "drop"@ != "print"@ && "drop"@ != "println"@,
        plain2("member"@) == Some(("lists"@, "member"@)),
        "member"@ != "print"@ && "member"@ != "println"@,
{
    reveal_strlit("append");
    reveal_strlit("apply");
    reveal_strlit("band");
    reveal_strlit("bor");
    reveal_strlit("bsl");
    reveal_strlit("bsr");
    reveal_strlit("bxor");
    reveal_strlit("div");
    reveal_strlit("drop");
    reveal_strlit("file_write");
    reveal_strlit("map_merge");
    reveal_strlit("max");
    reveal_strlit("member");
    reveal_strlit("min");
    reveal_strlit("nth");
    reveal_strlit("print");
    reveal_strlit("println");
    reveal_strlit("put");
    reveal_strlit("register");
    reveal_strlit("rem");
    reveal_strlit("str_char_at");
    reveal_strlit("str_starts_with");
    reveal_strlit("zip");
    assert("append"@.len() == 6);
    assert("apply"@.len() == 5);
    assert("band"@.len() == 4);
    assert("bor"@.len() == 3);
    assert("bsl"@.len() == 3);
    assert("bsr"@.len() == 3);
    assert("bxor"@.len() == 4);
    assert("div"@.len() == 3);
    assert("drop"@.len() == 4);
    assert("file_write"@.len() == 10);
    assert("map_merge"@.len() == 9);
    assert("max"@.len() == 3);
    assert("member"@.len() == 6);
    assert("min"@.len() == 3);
    assert("nth"@.len() == 3);
    assert("print"@.len() == 5);
    assert("println"@.len() == 7);
    assert("put"@.len() == 3);
    assert("register"@.len() == 8);
    assert("rem"@.len() == 3);
    assert("str_char_at"@.len() == 11);
    assert("str_starts_with"@.len() == 15);
    assert("zip"@.len() == 3);
    assert("max"@[0] != "bor"@[0]);
    assert("max"@[0] != "bsl"@[0]);
    assert("max"@[0] != "bsr"@[0]);
    assert("max"@[0] != "div"@[0]);
    assert("max"@[1] != "min"@[1]);
    assert("max"@[0] != "nth"@[0]);
    assert("max"@[0] != "put"@[0]);
    assert("max"@[0] != "rem"@[0]);
    assert("max"@[0] != "zip"@[0]);
    assert("min"@[0] != "bor"@[0]);
    assert("min"@[0] != "bsl"@[0]);
    assert("min"@[0] != "bsr"@[0]);
    assert("min"@[0] != "div"@[0]);
    assert("min"@[0] != "nth"@[0]);
    assert("min"@[0] != "put"@[0]);
    assert("min"@[0] != "rem"@[0]);
    assert("min"@[0] != "zip"@[0]);
    assert("div"@[0] != "bor"@[0]);
    assert("div"@[0] != "bsl"@[0]);
    assert("div"@[0] != "bsr"@[0]);
    assert("div"@[0] != "nth"@[0]);
    assert("div"@[0] != "put"@[0]);
    assert("div"@[0] != "rem"@[0]);
    assert("div"@[0] != "zip"@[0]);
    assert("rem"@[0] != "bor"@[0]);
    assert("rem"@[0] != "bsl"@[0]);
    assert("rem"@[0] != "bsr"@[0]);
    assert("rem"@[0] != "nth"@[0]);
    assert("rem"@[0] != "put"@[0]);
    assert("rem"@[0] != "zip"@[0]);
    assert("append"@[0] != "member"@[0]);
    assert("nth"@[0] != "bor"@[0]);
    assert("nth"@[0] != "bsl"@[0]);
    assert("nth"@[0] != "bsr"@[0]);
    assert("nth"@[0] != "put"@[0]);
    assert("nth"@[0] != "zip"@[0]);
    assert("drop"@[0] != "band"@[0]);
    assert("drop"@[0] != "bxor"@[0]);
}

proof fn special2_names()
    ensures
        plain2("take"@) is None,
        forall|a: Core, b: Core, n: nat| #[trigger]
            special2("take"@, a, b, n) == Some((shape::call2("lists"@, "sublist"@, b, a), n)),
        "take"@ != "print"@ && "take"@ != "println"@,
        plain2("elem"@) is None,
        forall|a: Core, b: Core, n: nat| #[trigger]
            special2("elem"@, a, b, n) == Some((shape::call2("erlang"@, "element"@, b, a), n)),
        "elem"@ != "print"@ && "elem"@ != "println"@,
        plain2("map_get"@) is None,
        forall|a: Core, b: Core, n: nat| #[trigger]
            special2("map_get"@, a, b, n) == Some((shape::call2("maps"@, "get"@, b, a), n)),
        "map_get"@ != "print"@ && "map_get"@ != "println"@,
        plain2("map_has_key"@) is None,
        forall|a: Core, b: Core, n: nat| #[trigger]
            special2("map_has_key"@, a, b, n) == Some((shape::call2("maps"@, "is_key"@, b, a), n)),
        "map_has_key"@ != "print"@ && "map_has_key"@ != "println"@,
        plain2("str_concat"@) is None,
        forall|a: Core, b: Core, n: nat| #[trigger]
            special2("str_concat"@, a, b, n) == Some((shape::bin2(a, b), n)),
        "str_concat"@ != "print"@ && "str_concat"@ != "println"@,
{
    reveal_strlit("append");
    reveal_strlit("apply");
    reveal_strlit("band");
    reveal_strlit("bor");
    reveal_strlit("bsl");
    reveal_strlit("bsr");
    reveal_strlit("bxor");
    reveal_strlit("decode_dict");
    reveal_strlit("decode_list");
    reveal_strlit("decode_map");
    reveal_strlit("decode_optional");
    reveal_strlit("decode_then");
    reveal_strlit("div");
    reveal_strlit("drop");
    reveal_strlit("dynamic_at");
    reveal_strlit("dynamic_at_result");
    reveal_strlit("dynamic_get");
    reveal_strlit("dynamic_get_result");
    reveal_strlit("elem");
    reveal_strlit("file_write");
    reveal_strlit("map_get");
    reveal_strlit("map_has_key");
    reveal_strlit("map_merge");
    reveal_strlit("map_remove");
    reveal_strlit("max");
    reveal_strlit("member");
    reveal_strlit("min");
    reveal_strlit("nth");
    reveal_strlit("print");
    reveal_strlit("println");
    reveal_strlit("put");
    reveal_strlit("register");
    reveal_strlit("rem");
    reveal_strlit("set_env");
    reveal_strlit("str_char_at");
    reveal_strlit("str_concat");
    reveal_strlit("str_contains");
    reveal_strlit("str_ends_with");
    reveal_strlit("str_join");
    reveal_strlit("str_split");
    reveal_strlit("str_starts_with");
    reveal_strlit("take");
    reveal_strlit("zip");
    assert("append"@.len() == 6);
    assert("apply"@.len() == 5);
    assert("band"@.len() == 4);
    assert("bor"@.len() == 3);
    assert("bsl"@.len() == 3);
    assert("bsr"@.len() == 3);
    assert("bxor"@.len() == 4);
    assert("decode_dict"@.len() == 11);
    assert("decode_list"@.len() == 11);
    assert("decode_map"@.len() == 10);
    assert("decode_optional"@.len() == 15);
    assert("decode_then"@.len() == 11);
    assert("div"@.len() == 3);
    assert("drop"@.len() == 4);
    assert("dynamic_at"@.len() == 10);
    assert("dynamic_at_result"@.len() == 17);
    assert("dynamic_get"@.len() == 11);
    assert("dynamic_get_result"@.len() == 18);
    assert("elem"@.len() == 4);
    assert("file_write"@.len() == 10);
    assert("map_get"@.len() == 7);
    assert("map_has_key"@.len() == 11);
    assert("map_merge"@.len() == 9);
    assert("map_remove"@.len() == 10);
    assert("max"@.len() == 3);
    assert("member"@.len() == 6);
    assert("min"@.len() == 3);
    assert("nth"@.len() == 3);
    assert("print"@.len() == 5);
    assert("println"@.len() == 7);
    assert("put"@.len() == 3);
    assert("register"@.len() == 8);
    assert("rem"@.len() == 3);
    assert("set_env"@.len() == 7);
    assert("str_char_at"@.len() == 11);
    assert("str_concat"@.len() == 10);
    assert("str_contains"@.len() == 12);
    assert("str_ends_with"@.len() == 13);
    assert("str_join"@.len() == 8);
    assert("str_split"@.len() == 9);
    assert("str_starts_with"@.len() == 15);
    assert("take"@.len() == 4);
    assert("zip"@.len() == 3);
    assert("take"@[0] != "band"@[0]);
    assert("take"@[0] != "bxor"@[0]);
    assert("take"@[0] != "drop"@[0]);
    assert("take"@[0] != "elem"@[0]);
    assert("elem"@[0] != "band"@[0]);
    assert("elem"@[0] != "bxor"@[0]);
    assert("elem"@[0] != "drop"@[0]);
    assert("map_get"@[0] != "println"@[0]);
    assert("map_get"@[0] != "set_env"@[0]);
    assert("map_has_key"@[0] != "decode_dict"@[0]);
    assert("map_has_key"@[0] != "decode_list"@[0]);
    assert("map_has_key"@[0] != "decode_then"@[0]);
    assert("map_has_key"@[0] != "dynamic_get"@[0]);
    assert("map_has_key"@[0] != "str_char_at"@[0]);
    assert("str_concat"@[0] != "decode_map"@[0]);
    assert("str_concat"@[0] != "dynamic_at"@[0]);
    assert("str_concat"@[0] != "file_write"@[0]);
    assert("str_concat"@[0] != "map_remove"@[0]);
}

proof fn special3_names()
    ensures
        plain3("map_put"@) is None,
        forall|a: Core, b: Core, c: Core, n: nat| #[trigger]
            special3("map_put"@, a, b, c, n) == Some((shape::call3("maps"@, "put"@, b, c, a), n)),
        "map_put"@ != "print"@ && "map_put"@ != "println"@,
        plain3("map_get_or"@) is None,
        forall|a: Core, b: Core, c: Core, n: nat| #[trigger]
            special3("map_get_or"@, a, b, c, n) == Some((shape::call3("maps"@, "get"@, b, a, c), n)),
        "map_get_or"@ != "print"@ && "map_get_or"@ != "println"@,
        plain3("set_elem"@) is None,
        forall|a: Core, b: Core, c: Core, n: nat| #[trigger]
            special3("set_elem"@, a, b, c, n) == Some((shape::call3("erlang"@, "setelement"@, b, a, c), n)),
        "set_elem"@ != "print"@ && "set_elem"@ != "println"@,
{
    reveal_strlit("apply_module");
    reveal_strlit("binary_slice");
    reveal_strlit("decode_field");
    reveal_strlit("decode_index");
    reveal_strlit("decode_one_of");
    reveal_strlit("decode_optional_field");
    reveal_strlit("dynamic_get_or");
    reveal_strlit("map_get_or");
    reveal_strlit("map_put");
    reveal_strlit("print");
    reveal_strlit("println");
    reveal_strlit("set_elem");
    reveal_strlit("str_replace");
    reveal_strlit("str_slice");
    assert("apply_module"@.len() == 12);
    assert("binary_slice"@.len() == 12);
    assert("decode_field"@.len() == 12);
    assert("decode_index"@.len() == 12);
    assert("decode_one_of"@.len() == 13);
    assert("decode_optional_field"@.len() == 21);
    assert("dynamic_get_or"@.len() == 14);
    assert("map_get_or"@.len() == 10);
    assert("map_put"@.len() == 7);
    assert("print"@.len() == 5);
    assert("println"@.len() == 7);
    assert("set_elem"@.len() == 8);
    assert("str_replace"@.len() == 11);
    assert("str_slice"@.len() == 9);
    assert("map_put"@[0] != "println"@[0]);
}

/// The library function behind a built-in function of one argument returns what
/// the built-in function does.
pub proof fn known1_names(name: Seq<char>, v: Val)
    requires
        known1(name, v) is Some,
    ensures
        name != "print"@,
        name != "println"@,
        match plain1(name) {
            Some((m, f)) => m == "erlang"@ && erlang_of_one(f, v) == known1(name, v) || m
                == "lists"@ && f == "reverse"@ && lists(f, seq![v]) == known1(name, v),
            None => {
                ||| name == "fst"@ && forall|a: Core, n: nat| #[trigger]
                    special1(name, a, n) == Some(
                        (shape::call2("erlang"@, "element"@, shape::num(1), a), n),
                    )
                ||| name == "snd"@ && forall|a: Core, n: nat| #[trigger]
                    special1(name, a, n) == Some(
                        (shape::call2("erlang"@, "element"@, shape::num(2), a), n),
                    )
                ||| name == "is_nil"@ && forall|a: Core, n: nat| #[trigger]
                    special1(name, a, n) == Some(
                        (shape::call2("erlang"@, "=:="@, a, shape::nil()), n),
                    )
            },
        },
{
    reveal(known1);
    reveal(lists);
    plain1_names1();
    plain1_names2();
    plain1_names3();
    plain1_names4();
    plain1_names5();
    special1_names();
    ones(v);
    list_parts(v);
}

/// The first element of a list and the others.
proof fn list_parts(v: Val)
    ensures
        elements(v) matches Some(s) ==> s.len() > 0 ==> (v matches Val::Cons(h, t) && *h == s[0]
            && *t == list_of(s.skip(1))),
    decreases v,
{
    match v {
        Val::Cons(h, t) => {
            match elements(*t) {
                Some(s) => {
                    let all = seq![*h] + s;
                    assert(all.skip(1) =~= s);
                    rebuilt(*t);
                },
                None => {},
            }
        },
        _ => {},
    }
}

proof fn rebuilt(v: Val)
    ensures
        elements(v) matches Some(s) ==> v == list_of(s),
    decreases v,
{
    match v {
        Val::Cons(h, t) => {
            rebuilt(*t);
            match elements(*t) {
                Some(s) => {
                    assert((seq![*h] + s).drop_first() =~= s);
                    assert((seq![*h] + s)[0] == *h);
                },
                None => {},
            }
        },
        _ => {},
    }
}

/// The functions of `erlang` of one argument that are needed, by their names.
proof fn ones(v: Val)
    ensures
        erlang_of_one("abs"@, v) == (match v { Val::Int(a) => Some(Val::Int(magnitude(a))), _ => None, }),
        erlang_of_one("length"@, v) == (match elements(v) { Some(s) => Some(Val::Int(s.len() as int)), None => None, }),
        erlang_of_one("hd"@, v) == (match v { Val::Cons(h, _) => Some(*h), _ => None, }),
        erlang_of_one("tl"@, v) == (match v { Val::Cons(_, t) => Some(*t), _ => None, }),
        erlang_of_one("tuple_size"@, v) == (match v { Val::Tuple(s) => Some(Val::Int(s.len() as int)), _ => None, }),
        erlang_of_one("byte_size"@, v) == (match v { Val::Bytes(s) => Some(Val::Int(s.len() as int)), _ => None, }),
        erlang_of_one("tuple_to_list"@, v) == (match v { Val::Tuple(s) => Some(list_of(s)), _ => None, }),
        erlang_of_one("list_to_tuple"@, v) == (match elements(v) { Some(s) => Some(Val::Tuple(s)), None => None, }),
        erlang_of_one("is_integer"@, v) == (Some(truth(v is Int))),
        erlang_of_one("is_atom"@, v) == (Some(truth(v is Atom))),
        erlang_of_one("is_boolean"@, v) == (Some(truth(truth_in(v) is Some))),
        erlang_of_one("is_list"@, v) == (Some(truth(v is Nil || v is Cons))),
        erlang_of_one("is_tuple"@, v) == (Some(truth(v is Tuple))),
        erlang_of_one("is_binary"@, v) == (Some(truth(v is Bytes))),
        erlang_of_one("is_map"@, v) == (Some(truth(v is Dict))),
        "erlang"@ != "lists"@,
{
    reveal(erlang_of_one);
    reveal_strlit("-");
    reveal_strlit("abs");
    reveal_strlit("byte_size");
    reveal_strlit("erlang");
    reveal_strlit("hd");
    reveal_strlit("is_atom");
    reveal_strlit("is_binary");
    reveal_strlit("is_boolean");
    reveal_strlit("is_integer");
    reveal_strlit("is_list");
    reveal_strlit("is_map");
    reveal_strlit("is_tuple");
    reveal_strlit("length");
    reveal_strlit("list_to_tuple");
    reveal_strlit("lists");
    reveal_strlit("not");
    reveal_strlit("tl");
    reveal_strlit("tuple_size");
    reveal_strlit("tuple_to_list");
    assert("-"@.len() == 1);
    assert("abs"@.len() == 3);
    assert("byte_size"@.len() == 9);
    assert("erlang"@.len() == 6);
    assert("hd"@.len() == 2);
    assert("is_atom"@.len() == 7);
    assert("is_binary"@.len() == 9);
    assert("is_boolean"@.len() == 10);
    assert("is_integer"@.len() == 10);
    assert("is_list"@.len() == 7);
    assert("is_map"@.len() == 6);
    assert("is_tuple"@.len() == 8);
    assert("length"@.len() == 6);
    assert("list_to_tuple"@.len() == 13);
    assert("lists"@.len() == 5);
    assert("not"@.len() == 3);
    assert("tl"@.len() == 2);
    assert("tuple_size"@.len() == 10);
    assert("tuple_to_list"@.len() == 13);
    assert("abs"@[0] != "not"@[0]);
    assert("byte_size"@[0] != "is_binary"@[0]);
    assert("erlang"@[0] != "is_map"@[0]);
    assert("erlang"@[0] != "length"@[0]);
    assert("hd"@[0] != "tl"@[0]);
    assert("is_atom"@[3] != "is_list"@[3]);
    assert("is_boolean"@[3] != "is_integer"@[3]);
    assert("is_boolean"@[0] != "tuple_size"@[0]);
    assert("is_integer"@[0] != "tuple_size"@[0]);
    assert("is_map"@[0] != "length"@[0]);
    assert("list_to_tuple"@[0] != "tuple_to_list"@[0]);
}

/// An operator is the function of `erlang` with its name.
pub proof fn operator_names(op: BinOp, v: Val, w: Val)
    requires
        operation(op, v, w) is Some,
        !(op is Concat),
        !(op is Pipe),
    ensures
        erlang_of_two(erlang_op(op), v, w) == operation(op, v, w),
{
    reveal(operation);
    reveal(erlang_of_two);
    reveal(equated);
    reveal_strlit("*");
    reveal_strlit("+");
    reveal_strlit("++");
    reveal_strlit("-");
    reveal_strlit("/=");
    reveal_strlit("<");
    reveal_strlit("=/=");
    reveal_strlit("=:=");
    reveal_strlit("=<");
    reveal_strlit("==");
    reveal_strlit(">");
    reveal_strlit(">=");
    reveal_strlit("and");
    reveal_strlit("div");
    reveal_strlit("element");
    reveal_strlit("max");
    reveal_strlit("min");
    reveal_strlit("or");
    reveal_strlit("rem");
    assert("*"@.len() == 1);
    assert("+"@.len() == 1);
    assert("++"@.len() == 2);
    assert("-"@.len() == 1);
    assert("/="@.len() == 2);
    assert("<"@.len() == 1);
    assert("=/="@.len() == 3);
    assert("=:="@.len() == 3);
    assert("=<"@.len() == 2);
    assert("=="@.len() == 2);
    assert(">"@.len() == 1);
    assert(">="@.len() == 2);
    assert("and"@.len() == 3);
    assert("div"@.len() == 3);
    assert("element"@.len() == 7);
    assert("max"@.len() == 3);
    assert("min"@.len() == 3);
    assert("or"@.len() == 2);
    assert("rem"@.len() == 3);
    assert("*"@[0] != "+"@[0]);
    assert("*"@[0] != "-"@[0]);
    assert("*"@[0] != "<"@[0]);
    assert("*"@[0] != ">"@[0]);
    assert("+"@[0] != "-"@[0]);
    assert("+"@[0] != "<"@[0]);
    assert("+"@[0] != ">"@[0]);
    assert("++"@[0] != "/="@[0]);
    assert("++"@[0] != "=<"@[0]);
    assert("++"@[0] != "=="@[0]);
    assert("++"@[0] != ">="@[0]);
    assert("++"@[0] != "or"@[0]);
    assert("-"@[0] != "<"@[0]);
    assert("-"@[0] != ">"@[0]);
    assert("/="@[0] != "=<"@[0]);
    assert("/="@[0] != "=="@[0]);
    assert("/="@[0] != ">="@[0]);
    assert("/="@[0] != "or"@[0]);
    assert("<"@[0] != ">"@[0]);
    assert("=/="@[1] != "=:="@[1]);
    assert("=/="@[0] != "and"@[0]);
    assert("=/="@[0] != "div"@[0]);
    assert("=/="@[0] != "max"@[0]);
    assert("=/="@[0] != "min"@[0]);
    assert("=/="@[0] != "rem"@[0]);
    assert("=:="@[0] != "and"@[0]);
    assert("=:="@[0] != "div"@[0]);
    assert("=:="@[0] != "max"@[0]);
    assert("=:="@[0] != "min"@[0]);
    assert("=:="@[0] != "rem"@[0]);
    assert("=<"@[1] != "=="@[1]);
    assert("=<"@[0] != ">="@[0]);
    assert("=<"@[0] != "or"@[0]);
    assert("=="@[0] != ">="@[0]);
    assert("=="@[0] != "or"@[0]);
    assert(">="@[0] != "or"@[0]);
    assert("and"@[0] != "div"@[0]);
    assert("and"@[0] != "max"@[0]);
    assert("and"@[0] != "min"@[0]);
    assert("and"@[0] != "rem"@[0]);
    assert("div"@[0] != "max"@[0]);
    assert("div"@[0] != "min"@[0]);
    assert("div"@[0] != "rem"@[0]);
    assert("max"@[1] != "min"@[1]);
    assert("max"@[0] != "rem"@[0]);
    assert("min"@[0] != "rem"@[0]);
}

/// The library function behind a built-in function of two arguments returns what
/// the built-in function does.
#[verifier::rlimit(50)]
#[verifier::spinoff_prover]
pub proof fn known2_names(name: Seq<char>, v: Val, x: Val, w: World)
    requires
        known2(name, v, x) is Some,
    ensures
        name != "print"@,
        name != "println"@,
        match plain2(name) {
            Some((m, f)) => !is_mapping_name(m, f) && returned(m, f, seq![v, x], w) == known2(
                name,
                v,
                x,
            ),
            None => name == "take"@ || name == "elem"@ || name == "map_get"@ || name
                == "map_has_key"@ || name == "str_concat"@,
        },
{
    reveal(known2);
    reveal(operation);
    plain2_names();
    special2_names();
    two_names(v, x, w);
    list_two_names(v, x, w);
    if name == "max"@ {
    } else if name == "min"@ {
    } else if name == "div"@ {
    } else if name == "rem"@ {
    } else if name == "append"@ {
    } else if name == "nth"@ {
    } else if name == "drop"@ {
    } else if name == "member"@ {
    }
}

/// The built-in functions of two arguments that are called otherwise.
pub proof fn special2_calls(v: Val, x: Val, w: World)
    ensures
        forall|a: Core, b: Core, n: nat| #[trigger]
            special2("take"@, a, b, n) == Some((shape::call2("lists"@, "sublist"@, b, a), n)),
        forall|a: Core, b: Core, n: nat| #[trigger]
            special2("elem"@, a, b, n) == Some((shape::call2("erlang"@, "element"@, b, a), n)),
        forall|a: Core, b: Core, n: nat| #[trigger]
            special2("map_get"@, a, b, n) == Some((shape::call2("maps"@, "get"@, b, a), n)),
        forall|a: Core, b: Core, n: nat| #[trigger]
            special2("map_has_key"@, a, b, n) == Some((shape::call2("maps"@, "is_key"@, b, a), n)),
        forall|a: Core, b: Core, n: nat| #[trigger]
            special2("str_concat"@, a, b, n) == Some((shape::bin2(a, b), n)),
        known2("take"@, v, x) is Some ==> returned("lists"@, "sublist"@, seq![x, v], w) == known2(
            "take"@,
            v,
            x,
        ),
        known2("elem"@, v, x) is Some ==> returned("erlang"@, "element"@, seq![x, v], w) == known2(
            "elem"@,
            v,
            x,
        ),
        known2("map_get"@, v, x) == returned("maps"@, "get"@, seq![x, v], w),
        known2("map_has_key"@, v, x) == returned("maps"@, "is_key"@, seq![x, v], w),
        known2("str_concat"@, v, x) == match (v, x) {
            (Val::Bytes(a), Val::Bytes(b)) => Some(Val::Bytes(a + b)),
            _ => None,
        },
{
    reveal(known2);
    special2_names();
    two_names(x, v, w);
    list_two_names(v, x, w);
    map_names(x, v, v, w);
    reveal_strlit("append");
    reveal_strlit("div");
    reveal_strlit("drop");
    reveal_strlit("elem");
    reveal_strlit("map_get");
    reveal_strlit("map_has_key");
    reveal_strlit("max");
    reveal_strlit("member");
    reveal_strlit("min");
    reveal_strlit("nth");
    reveal_strlit("rem");
    reveal_strlit("str_concat");
    reveal_strlit("take");
    assert("append"@.len() == 6);
    assert("div"@.len() == 3);
    assert("drop"@.len() == 4);
    assert("elem"@.len() == 4);
    assert("map_get"@.len() == 7);
    assert("map_has_key"@.len() == 11);
    assert("max"@.len() == 3);
    assert("member"@.len() == 6);
    assert("min"@.len() == 3);
    assert("nth"@.len() == 3);
    assert("rem"@.len() == 3);
    assert("str_concat"@.len() == 10);
    assert("take"@.len() == 4);
    assert("take"@[0] != "drop"@[0]);
    assert("take"@[0] != "elem"@[0]);
    assert("elem"@[0] != "drop"@[0]);
}

pub open spec fn is_mapping_name(m: Seq<char>, f: Seq<char>) -> bool {
    m == "lists"@ && (f == "map"@ || f == "filtermap"@ || f == "flatmap"@)
}

proof fn two_names(v: Val, x: Val, w: World)
    ensures
        !is_mapping_name("erlang"@, "max"@),
        !is_mapping_name("erlang"@, "min"@),
        !is_mapping_name("erlang"@, "div"@),
        !is_mapping_name("erlang"@, "rem"@),
        (v is Int && x is Int) ==> {
            &&& returned("erlang"@, "max"@, seq![v, x], w) == known2("max"@, v, x)
            &&& returned("erlang"@, "min"@, seq![v, x], w) == known2("min"@, v, x)
            &&& returned("erlang"@, "div"@, seq![v, x], w) == operation(BinOp::Div, v, x)
            &&& returned("erlang"@, "rem"@, seq![v, x], w) == operation(BinOp::Mod, v, x)
        },
        (v is Int && x is Tuple) ==> returned("erlang"@, "element"@, seq![v, x], w) == known2(
            "elem"@,
            x,
            v,
        ),
{
    reveal(erlang_of_two);
    reveal(known2);
    reveal(operation);
    reveal_strlit("*");
    reveal_strlit("+");
    reveal_strlit("++");
    reveal_strlit("-");
    reveal_strlit("/=");
    reveal_strlit("<");
    reveal_strlit("=/=");
    reveal_strlit("=:=");
    reveal_strlit("=<");
    reveal_strlit("==");
    reveal_strlit(">");
    reveal_strlit(">=");
    reveal_strlit("and");
    reveal_strlit("div");
    reveal_strlit("element");
    reveal_strlit("erlang");
    reveal_strlit("lists");
    reveal_strlit("max");
    reveal_strlit("min");
    reveal_strlit("or");
    reveal_strlit("rem");
    assert("*"@.len() == 1);
    assert("+"@.len() == 1);
    assert("++"@.len() == 2);
    assert("-"@.len() == 1);
    assert("/="@.len() == 2);
    assert("<"@.len() == 1);
    assert("=/="@.len() == 3);
    assert("=:="@.len() == 3);
    assert("=<"@.len() == 2);
    assert("=="@.len() == 2);
    assert(">"@.len() == 1);
    assert(">="@.len() == 2);
    assert("and"@.len() == 3);
    assert("div"@.len() == 3);
    assert("element"@.len() == 7);
    assert("erlang"@.len() == 6);
    assert("lists"@.len() == 5);
    assert("max"@.len() == 3);
    assert("min"@.len() == 3);
    assert("or"@.len() == 2);
    assert("rem"@.len() == 3);
    assert("*"@[0] != "+"@[0]);
    assert("*"@[0] != "-"@[0]);
    assert("*"@[0] != "<"@[0]);
    assert("*"@[0] != ">"@[0]);
    assert("+"@[0] != "-"@[0]);
    assert("+"@[0] != "<"@[0]);
    assert("+"@[0] != ">"@[0]);
    assert("++"@[0] != "/="@[0]);
    assert("++"@[0] != "=<"@[0]);
    assert("++"@[0] != "=="@[0]);
    assert("++"@[0] != ">="@[0]);
    assert("++"@[0] != "or"@[0]);
    assert("-"@[0] != "<"@[0]);
    assert("-"@[0] != ">"@[0]);
    assert("/="@[0] != "=<"@[0]);
    assert("/="@[0] != "=="@[0]);
    assert("/="@[0] != ">="@[0]);
    assert("/="@[0] != "or"@[0]);
    assert("<"@[0] != ">"@[0]);
    assert("=/="@[1] != "=:="@[1]);
    assert("=/="@[0] != "and"@[0]);
    assert("=/="@[0] != "div"@[0]);
    assert("=/="@[0] != "max"@[0]);
    assert("=/="@[0] != "min"@[0]);
    assert("=/="@[0] != "rem"@[0]);
    assert("=:="@[0] != "and"@[0]);
    assert("=:="@[0] != "div"@[0]);
    assert("=:="@[0] != "max"@[0]);
    assert("=:="@[0] != "min"@[0]);
    assert("=:="@[0] != "rem"@[0]);
    assert("=<"@[1] != "=="@[1]);
    assert("=<"@[0] != ">="@[0]);
    assert("=<"@[0] != "or"@[0]);
    assert("=="@[0] != ">="@[0]);
    assert("=="@[0] != "or"@[0]);
    assert(">="@[0] != "or"@[0]);
    assert("and"@[0] != "div"@[0]);
    assert("and"@[0] != "max"@[0]);
    assert("and"@[0] != "min"@[0]);
    assert("and"@[0] != "rem"@[0]);
    assert("div"@[0] != "max"@[0]);
    assert("div"@[0] != "min"@[0]);
    assert("div"@[0] != "rem"@[0]);
    assert("max"@[1] != "min"@[1]);
    assert("max"@[0] != "rem"@[0]);
    assert("min"@[0] != "rem"@[0]);
    reveal_strlit("append");
    reveal_strlit("div");
    reveal_strlit("drop");
    reveal_strlit("elem");
    reveal_strlit("map_get");
    reveal_strlit("map_has_key");
    reveal_strlit("max");
    reveal_strlit("member");
    reveal_strlit("min");
    reveal_strlit("nth");
    reveal_strlit("rem");
    reveal_strlit("str_concat");
    reveal_strlit("take");
    assert("append"@.len() == 6);
    assert("div"@.len() == 3);
    assert("drop"@.len() == 4);
    assert("elem"@.len() == 4);
    assert("map_get"@.len() == 7);
    assert("map_has_key"@.len() == 11);
    assert("max"@.len() == 3);
    assert("member"@.len() == 6);
    assert("min"@.len() == 3);
    assert("nth"@.len() == 3);
    assert("rem"@.len() == 3);
    assert("str_concat"@.len() == 10);
    assert("take"@.len() == 4);
    assert("append"@[0] != "member"@[0]);
    assert("div"@[0] != "max"@[0]);
    assert("div"@[0] != "min"@[0]);
    assert("div"@[0] != "nth"@[0]);
    assert("div"@[0] != "rem"@[0]);
    assert("drop"@[0] != "elem"@[0]);
    assert("drop"@[0] != "take"@[0]);
    assert("elem"@[0] != "take"@[0]);
    assert("max"@[1] != "min"@[1]);
    assert("max"@[0] != "nth"@[0]);
    assert("max"@[0] != "rem"@[0]);
    assert("min"@[0] != "nth"@[0]);
    assert("min"@[0] != "rem"@[0]);
    assert("nth"@[0] != "rem"@[0]);
}

proof fn list_two_names(v: Val, x: Val, w: World)
    ensures
        !is_mapping_name("lists"@, "append"@),
        !is_mapping_name("lists"@, "nth"@),
        !is_mapping_name("lists"@, "nthtail"@),
        !is_mapping_name("lists"@, "member"@),
        returned("lists"@, "append"@, seq![v, x], w) == match elements(v) {
            Some(s) => Some(list_onto(s, x)),
            None => None,
        },
        returned("lists"@, "nth"@, seq![v, x], w) == known2("nth"@, v, x),
        returned("lists"@, "nthtail"@, seq![v, x], w) == known2("drop"@, v, x),
        returned("lists"@, "member"@, seq![v, x], w) == known2("member"@, v, x),
        known2("take"@, v, x) is Some ==> returned("lists"@, "sublist"@, seq![x, v], w) == known2(
            "take"@,
            v,
            x,
        ),
{
    reveal(lists);
    reveal(known2);
    reveal_strlit("append");
    reveal_strlit("erlang");
    reveal_strlit("filtermap");
    reveal_strlit("flatmap");
    reveal_strlit("lists");
    reveal_strlit("map");
    reveal_strlit("maps");
    reveal_strlit("member");
    reveal_strlit("nth");
    reveal_strlit("nthtail");
    reveal_strlit("seq");
    reveal_strlit("sublist");
    assert("append"@.len() == 6);
    assert("erlang"@.len() == 6);
    assert("filtermap"@.len() == 9);
    assert("flatmap"@.len() == 7);
    assert("lists"@.len() == 5);
    assert("map"@.len() == 3);
    assert("maps"@.len() == 4);
    assert("member"@.len() == 6);
    assert("nth"@.len() == 3);
    assert("nthtail"@.len() == 7);
    assert("seq"@.len() == 3);
    assert("sublist"@.len() == 7);
    assert("append"@[0] != "erlang"@[0]);
    assert("append"@[0] != "member"@[0]);
    assert("erlang"@[0] != "member"@[0]);
    assert("flatmap"@[0] != "nthtail"@[0]);
    assert("flatmap"@[0] != "sublist"@[0]);
    assert("map"@[0] != "nth"@[0]);
    assert("map"@[0] != "seq"@[0]);
    assert("nth"@[0] != "seq"@[0]);
    assert("nthtail"@[0] != "sublist"@[0]);
    reveal_strlit("append");
    reveal_strlit("div");
    reveal_strlit("drop");
    reveal_strlit("elem");
    reveal_strlit("map_get");
    reveal_strlit("map_has_key");
    reveal_strlit("max");
    reveal_strlit("member");
    reveal_strlit("min");
    reveal_strlit("nth");
    reveal_strlit("rem");
    reveal_strlit("str_concat");
    reveal_strlit("take");
    assert("append"@.len() == 6);
    assert("div"@.len() == 3);
    assert("drop"@.len() == 4);
    assert("elem"@.len() == 4);
    assert("map_get"@.len() == 7);
    assert("map_has_key"@.len() == 11);
    assert("max"@.len() == 3);
    assert("member"@.len() == 6);
    assert("min"@.len() == 3);
    assert("nth"@.len() == 3);
    assert("rem"@.len() == 3);
    assert("str_concat"@.len() == 10);
    assert("take"@.len() == 4);
    assert("append"@[0] != "member"@[0]);
    assert("div"@[0] != "max"@[0]);
    assert("div"@[0] != "min"@[0]);
    assert("div"@[0] != "nth"@[0]);
    assert("div"@[0] != "rem"@[0]);
    assert("drop"@[0] != "elem"@[0]);
    assert("drop"@[0] != "take"@[0]);
    assert("elem"@[0] != "take"@[0]);
    assert("max"@[1] != "min"@[1]);
    assert("max"@[0] != "nth"@[0]);
    assert("max"@[0] != "rem"@[0]);
    assert("min"@[0] != "nth"@[0]);
    assert("min"@[0] != "rem"@[0]);
    assert("nth"@[0] != "rem"@[0]);
}

proof fn map_names(v: Val, x: Val, y: Val, w: World)
    ensures
        returned("maps"@, "get"@, seq![v, x], w) == match x {
            Val::Dict(d) => value_at(d, v),
            _ => None,
        },
        returned("maps"@, "is_key"@, seq![v, x], w) == match x {
            Val::Dict(d) => Some(truth(value_at(d, v) is Some)),
            _ => None,
        },
        returned("maps"@, "get"@, seq![v, x, y], w) == match x {
            Val::Dict(d) => match value_at(d, v) {
                Some(z) => Some(z),
                None => Some(y),
            },
            _ => None,
        },
        returned("maps"@, "put"@, seq![v, y, x], w) == match x {
            Val::Dict(d) => Some(Val::Dict(d.push((v, y)))),
            _ => None,
        },
{
    reveal(maps);
    reveal_strlit("erlang");
    reveal_strlit("get");
    reveal_strlit("is_key");
    reveal_strlit("lists");
    reveal_strlit("maps");
    reveal_strlit("put");
    assert("erlang"@.len() == 6);
    assert("get"@.len() == 3);
    assert("is_key"@.len() == 6);
    assert("lists"@.len() == 5);
    assert("maps"@.len() == 4);
    assert("put"@.len() == 3);
    assert("erlang"@[0] != "is_key"@[0]);
    assert("get"@[0] != "put"@[0]);
}

/// How a built-in function of three arguments is called.
pub open spec fn is_known3(name: Seq<char>, v: Val, x: Val, y: Val, w: World) -> bool {
    ||| (forall|a: Core, b: Core, c: Core, n: nat| #[trigger]
        special3(name, a, b, c, n) == Some((shape::call3("maps"@, "put"@, b, c, a), n)))
        && returned("maps"@, "put"@, seq![x, y, v], w) == known(name, seq![v, x, y])
    ||| (forall|a: Core, b: Core, c: Core, n: nat| #[trigger]
        special3(name, a, b, c, n) == Some((shape::call3("maps"@, "get"@, b, a, c), n)))
        && returned("maps"@, "get"@, seq![x, v, y], w) == known(name, seq![v, x, y])
    ||| (forall|a: Core, b: Core, c: Core, n: nat| #[trigger]
        special3(name, a, b, c, n) == Some(
            (shape::call3("erlang"@, "setelement"@, b, a, c), n),
        )) && returned("erlang"@, "setelement"@, seq![x, v, y], w) == known(
        name,
        seq![v, x, y],
    )
}

/// The library function behind a built-in function of three arguments returns
/// what the built-in function does.
pub proof fn known3_names(name: Seq<char>, v: Val, x: Val, y: Val, w: World)
    requires
        known(name, seq![v, x, y]) is Some,
    ensures
        name != "print"@,
        name != "println"@,
        plain3(name) is None,
        is_known3(name, v, x, y, w),
{
    special3_names();
    map_names(x, v, y, w);
    reveal_strlit("erlang");
    reveal_strlit("map_get_or");
    reveal_strlit("map_put");
    reveal_strlit("set_elem");
    reveal_strlit("setelement");
    assert("erlang"@.len() == 6);
    assert("map_get_or"@.len() == 10);
    assert("map_put"@.len() == 7);
    assert("set_elem"@.len() == 8);
    assert("setelement"@.len() == 10);
    assert("map_get_or"@[0] != "setelement"@[0]);
}

/// The functions that a value can be piped into.
pub proof fn piped_names(name: Seq<char>, v: Val, w: World)
    ensures
        is_piped(name) <==> pipe_module(name) is Some,
        is_piped(name) && known1(name, v) is Some ==> (pipe_module(name) matches Some(m)
            && !is_mapping_name(m, name) && returned(m, name, seq![v], w) == known1(name, v)),
{
    reveal(lists);
    reveal_strlit("abs");
    reveal_strlit("erlang");
    reveal_strlit("filtermap");
    reveal_strlit("flatmap");
    reveal_strlit("flatten");
    reveal_strlit("hd");
    reveal_strlit("length");
    reveal_strlit("lists");
    reveal_strlit("map");
    reveal_strlit("maps");
    reveal_strlit("reverse");
    reveal_strlit("sort");
    reveal_strlit("tl");
    assert("abs"@.len() == 3);
    assert("erlang"@.len() == 6);
    assert("filtermap"@.len() == 9);
    assert("flatmap"@.len() == 7);
    assert("flatten"@.len() == 7);
    assert("hd"@.len() == 2);
    assert("length"@.len() == 6);
    assert("lists"@.len() == 5);
    assert("map"@.len() == 3);
    assert("maps"@.len() == 4);
    assert("reverse"@.len() == 7);
    assert("sort"@.len() == 4);
    assert("tl"@.len() == 2);
    assert("abs"@[0] != "map"@[0]);
    assert("erlang"@[0] != "length"@[0]);
    assert("flatmap"@[4] != "flatten"@[4]);
    assert("flatmap"@[0] != "reverse"@[0]);
    assert("flatten"@[0] != "reverse"@[0]);
    assert("hd"@[0] != "tl"@[0]);
    assert("maps"@[0] != "sort"@[0]);
    if is_piped(name) && known1(name, v) is Some {
        assert(name != "sort"@ && name != "flatten"@) by {
            if name == "sort"@ || name == "flatten"@ {
                unknown_names(v);
            }
        }
        known1_names(name, v);
        ones(v);
        list_parts(v);
        plain1_names1();
    }
}

proof fn unknown_names(v: Val)
    ensures
        known1("sort"@, v) is None,
        known1("flatten"@, v) is None,
{
    reveal(known1);
    reveal_strlit("abs");
    reveal_strlit("byte_size");
    reveal_strlit("dynamic_is_atom");
    reveal_strlit("dynamic_is_binary");
    reveal_strlit("dynamic_is_bool");
    reveal_strlit("dynamic_is_int");
    reveal_strlit("dynamic_is_list");
    reveal_strlit("dynamic_is_map");
    reveal_strlit("dynamic_is_string");
    reveal_strlit("flatten");
    reveal_strlit("fst");
    reveal_strlit("hd");
    reveal_strlit("is_atom");
    reveal_strlit("is_binary");
    reveal_strlit("is_bool");
    reveal_strlit("is_int");
    reveal_strlit("is_list");
    reveal_strlit("is_map");
    reveal_strlit("is_nil");
    reveal_strlit("is_string");
    reveal_strlit("is_tuple");
    reveal_strlit("length");
    reveal_strlit("list_to_tuple");
    reveal_strlit("reverse");
    reveal_strlit("size");
    reveal_strlit("snd");
    reveal_strlit("sort");
    reveal_strlit("str_length");
    reveal_strlit("tl");
    reveal_strlit("tuple_to_list");
    assert("abs"@.len() == 3);
    assert("byte_size"@.len() == 9);
    assert("dynamic_is_atom"@.len() == 15);
    assert("dynamic_is_binary"@.len() == 17);
    assert("dynamic_is_bool"@.len() == 15);
    assert("dynamic_is_int"@.len() == 14);
    assert("dynamic_is_list"@.len() == 15);
    assert("dynamic_is_map"@.len() == 14);
    assert("dynamic_is_string"@.len() == 17);
    assert("flatten"@.len() == 7);
    assert("fst"@.len() == 3);
    assert("hd"@.len() == 2);
    assert("is_atom"@.len() == 7);
    assert("is_binary"@.len() == 9);
    assert("is_bool"@.len() == 7);
    assert("is_int"@.len() == 6);
    assert("is_list"@.len() == 7);
    assert("is_map"@.len() == 6);
    assert("is_nil"@.len() == 6);
    assert("is_string"@.len() == 9);
    assert("is_tuple"@.len() == 8);
    assert("length"@.len() == 6);
    assert("list_to_tuple"@.len() == 13);
    assert("reverse"@.len() == 7);
    assert("size"@.len() == 4);
    assert("snd"@.len() == 3);
    assert("sort"@.len() == 4);
    assert("str_length"@.len() == 10);
    assert("tl"@.len() == 2);
    assert("tuple_to_list"@.len() == 13);
    assert("sort"@[1] != "size"@[1]);
    assert("flatten"@[0] != "is_atom"@[0]);
    assert("flatten"@[0] != "is_bool"@[0]);
    assert("flatten"@[0] != "is_list"@[0]);
    assert("flatten"@[0] != "reverse"@[0]);
}

/// Names of functions of `erlang` and others that translations use.
pub proof fn used_names(v: Val, x: Val, w: World)
    ensures
        erlang_of_one("-"@, v) == match v {
            Val::Int(a) => Some(Val::Int(-a)),
            _ => None,
        },
        erlang_of_one("not"@, v) == match truth_in(v) {
            Some(b) => Some(truth(!b)),
            None => None,
        },
        erlang_of_one("is_binary"@, v) == Some(truth(v is Bytes)),
        erlang_of_two("++"@, v, x) == match elements(v) {
            Some(s) => Some(list_onto(s, x)),
            None => None,
        },
        (v is Int && x is Int) ==> erlang_of_two("-"@, v, x) == Some(
            Val::Int(v->Int_0 - x->Int_0),
        ),
        erlang_of_two("=:="@, v, x) == equated("=:="@, v, x),
        equated("=:="@, v, x) == if is_flat(v) && is_flat(x) {
            Some(truth(v == x))
        } else {
            None
        },
        returned("maps"@, "get"@, seq![v, x], w) == match x {
            Val::Dict(d) => value_at(d, v),
            _ => None,
        },
        returned("lists"@, "seq"@, seq![v, x], w) == match (v, x) {
            (Val::Int(a), Val::Int(b)) => if a <= b + 1 {
                Some(list_of(counted(a, b)))
            } else {
                None
            },
            _ => None,
        },
        (v is Int && x is Tuple) ==> erlang_of_two("element"@, v, x) == match (v, x) {
            (Val::Int(i), Val::Tuple(items)) => if 1 <= i <= items.len() {
                Some(items[i - 1])
            } else {
                None
            },
            _ => None,
        },
        !is_mapping_name("lists"@, "seq"@),
        "erlang"@ != "lists"@,
        "maps"@ != "lists"@,
        "maps"@ != "erlang"@,
        "map"@ != "filtermap"@,
        "map"@ != "flatmap"@,
        "filtermap"@ != "flatmap"@,
{
    reveal(erlang_of_one);
    reveal(erlang_of_two);
    reveal(equated);
    reveal(lists);
    reveal(maps);
    map_names(v, x, x, w);
    ones(v);
    two_names(v, x, w);
    reveal_strlit("*");
    reveal_strlit("+");
    reveal_strlit("++");
    reveal_strlit("-");
    reveal_strlit("/=");
    reveal_strlit("<");
    reveal_strlit("=/=");
    reveal_strlit("=:=");
    reveal_strlit("=<");
    reveal_strlit("==");
    reveal_strlit(">");
    reveal_strlit(">=");
    reveal_strlit("and");
    reveal_strlit("div");
    reveal_strlit("element");
    reveal_strlit("max");
    reveal_strlit("min");
    reveal_strlit("or");
    reveal_strlit("rem");
    assert("*"@.len() == 1);
    assert("+"@.len() == 1);
    assert("++"@.len() == 2);
    assert("-"@.len() == 1);
    assert("/="@.len() == 2);
    assert("<"@.len() == 1);
    assert("=/="@.len() == 3);
    assert("=:="@.len() == 3);
    assert("=<"@.len() == 2);
    assert("=="@.len() == 2);
    assert(">"@.len() == 1);
    assert(">="@.len() == 2);
    assert("and"@.len() == 3);
    assert("div"@.len() == 3);
    assert("element"@.len() == 7);
    assert("max"@.len() == 3);
    assert("min"@.len() == 3);
    assert("or"@.len() == 2);
    assert("rem"@.len() == 3);
    assert("*"@[0] != "+"@[0]);
    assert("*"@[0] != "-"@[0]);
    assert("*"@[0] != "<"@[0]);
    assert("*"@[0] != ">"@[0]);
    assert("+"@[0] != "-"@[0]);
    assert("+"@[0] != "<"@[0]);
    assert("+"@[0] != ">"@[0]);
    assert("++"@[0] != "/="@[0]);
    assert("++"@[0] != "=<"@[0]);
    assert("++"@[0] != "=="@[0]);
    assert("++"@[0] != ">="@[0]);
    assert("++"@[0] != "or"@[0]);
    assert("-"@[0] != "<"@[0]);
    assert("-"@[0] != ">"@[0]);
    assert("/="@[0] != "=<"@[0]);
    assert("/="@[0] != "=="@[0]);
    assert("/="@[0] != ">="@[0]);
    assert("/="@[0] != "or"@[0]);
    assert("<"@[0] != ">"@[0]);
    assert("=/="@[1] != "=:="@[1]);
    assert("=/="@[0] != "and"@[0]);
    assert("=/="@[0] != "div"@[0]);
    assert("=/="@[0] != "max"@[0]);
    assert("=/="@[0] != "min"@[0]);
    assert("=/="@[0] != "rem"@[0]);
    assert("=:="@[0] != "and"@[0]);
    assert("=:="@[0] != "div"@[0]);
    assert("=:="@[0] != "max"@[0]);
    assert("=:="@[0] != "min"@[0]);
    assert("=:="@[0] != "rem"@[0]);
    assert("=<"@[1] != "=="@[1]);
    assert("=<"@[0] != ">="@[0]);
    assert("=<"@[0] != "or"@[0]);
    assert("=="@[0] != ">="@[0]);
    assert("=="@[0] != "or"@[0]);
    assert(">="@[0] != "or"@[0]);
    assert("and"@[0] != "div"@[0]);
    assert("and"@[0] != "max"@[0]);
    assert("and"@[0] != "min"@[0]);
    assert("and"@[0] != "rem"@[0]);
    assert("div"@[0] != "max"@[0]);
    assert("div"@[0] != "min"@[0]);
    assert("div"@[0] != "rem"@[0]);
    assert("max"@[1] != "min"@[1]);
    assert("max"@[0] != "rem"@[0]);
    assert("min"@[0] != "rem"@[0]);
    reveal_strlit("-");
    reveal_strlit("abs");
    reveal_strlit("not");
    assert("-"@.len() == 1);
    assert("abs"@.len() == 3);
    assert("not"@.len() == 3);
    assert("abs"@[0] != "not"@[0]);
    reveal_strlit("append");
    reveal_strlit("erlang");
    reveal_strlit("filtermap");
    reveal_strlit("flatmap");
    reveal_strlit("lists");
    reveal_strlit("map");
    reveal_strlit("maps");
    reveal_strlit("member");
    reveal_strlit("nth");
    reveal_strlit("nthtail");
    reveal_strlit("seq");
    reveal_strlit("sublist");
    assert("append"@.len() == 6);
    assert("erlang"@.len() == 6);
    assert("filtermap"@.len() == 9);
    assert("flatmap"@.len() == 7);
    assert("lists"@.len() == 5);
    assert("map"@.len() == 3);
    assert("maps"@.len() == 4);
    assert("member"@.len() == 6);
    assert("nth"@.len() == 3);
    assert("nthtail"@.len() == 7);
    assert("seq"@.len() == 3);
    assert("sublist"@.len() == 7);
    assert("append"@[0] != "erlang"@[0]);
    assert("append"@[0] != "member"@[0]);
    assert("erlang"@[0] != "member"@[0]);
    assert("flatmap"@[0] != "nthtail"@[0]);
    assert("flatmap"@[0] != "sublist"@[0]);
    assert("map"@[0] != "nth"@[0]);
    assert("map"@[0] != "seq"@[0]);
    assert("nth"@[0] != "seq"@[0]);
    assert("nthtail"@[0] != "sublist"@[0]);
}

/// What the built-in functions are that look into a value.
pub proof fn known1_parts(name: Seq<char>, v: Val)
    ensures
        name == "fst"@ ==> known1(name, v) == match v {
            Val::Tuple(s) => if s.len() > 0 {
                Some(s[0])
            } else {
                None
            },
            _ => None,
        },
        name == "snd"@ ==> known1(name, v) == match v {
            Val::Tuple(s) => if s.len() > 1 {
                Some(s[1])
            } else {
                None
            },
            _ => None,
        },
        name == "is_nil"@ ==> known1(name, v) == if is_flat(v) {
            Some(truth(v is Nil))
        } else {
            None
        },
{
    reveal(known1);
    reveal_strlit("abs");
    reveal_strlit("byte_size");
    reveal_strlit("dynamic_is_atom");
    reveal_strlit("dynamic_is_binary");
    reveal_strlit("dynamic_is_bool");
    reveal_strlit("dynamic_is_int");
    reveal_strlit("dynamic_is_list");
    reveal_strlit("dynamic_is_map");
    reveal_strlit("dynamic_is_string");
    reveal_strlit("fst");
    reveal_strlit("hd");
    reveal_strlit("is_atom");
    reveal_strlit("is_binary");
    reveal_strlit("is_bool");
    reveal_strlit("is_int");
    reveal_strlit("is_list");
    reveal_strlit("is_map");
    reveal_strlit("is_nil");
    reveal_strlit("is_string");
    reveal_strlit("is_tuple");
    reveal_strlit("length");
    reveal_strlit("list_to_tuple");
    reveal_strlit("reverse");
    reveal_strlit("size");
    reveal_strlit("snd");
    reveal_strlit("str_length");
    reveal_strlit("tl");
    reveal_strlit("tuple_to_list");
    assert("abs"@.len() == 3);
    assert("byte_size"@.len() == 9);
    assert("dynamic_is_atom"@.len() == 15);
    assert("dynamic_is_binary"@.len() == 17);
    assert("dynamic_is_bool"@.len() == 15);
    assert("dynamic_is_int"@.len() == 14);
    assert("dynamic_is_list"@.len() == 15);
    assert("dynamic_is_map"@.len() == 14);
    assert("dynamic_is_string"@.len() == 17);
    assert("fst"@.len() == 3);
    assert("hd"@.len() == 2);
    assert("is_atom"@.len() == 7);
    assert("is_binary"@.len() == 9);
    assert("is_bool"@.len() == 7);
    assert("is_int"@.len() == 6);
    assert("is_list"@.len() == 7);
    assert("is_map"@.len() == 6);
    assert("is_nil"@.len() == 6);
    assert("is_string"@.len() == 9);
    assert("is_tuple"@.len() == 8);
    assert("length"@.len() == 6);
    assert("list_to_tuple"@.len() == 13);
    assert("reverse"@.len() == 7);
    assert("size"@.len() == 4);
    assert("snd"@.len() == 3);
    assert("str_length"@.len() == 10);
    assert("tl"@.len() == 2);
    assert("tuple_to_list"@.len() == 13);
    assert("fst"@[0] != "abs"@[0]);
    assert("fst"@[0] != "snd"@[0]);
    assert("snd"@[0] != "abs"@[0]);
    assert("is_nil"@[3] != "is_int"@[3]);
    assert("is_nil"@[3] != "is_map"@[3]);
    assert("is_nil"@[0] != "length"@[0]);
}

} // verus!
