//! The built-in functions of the language.
use vstd::prelude::*;
use crate::decode;
use crate::erlang::{core_of, cores_of, Core, CoreExpr};
use crate::fresh::FreshVars;
use crate::make;
use crate::shape;
use crate::text::same;

verus! {

/// The model of a module's name and a function's name.
pub open spec fn pair_of(p: Option<(&str, &str)>) -> Option<(Seq<char>, Seq<char>)> {
    match p {
        Some((m, f)) => Some((m@, f@)),
        None => None,
    }
}

/// The library function behind a built-in of no arguments, called with the same arguments.
pub open spec fn plain0(name: Seq<char>) -> Option<(Seq<char>, Seq<char>)> {
    if name == "random"@ {
        Some(("rand"@, "uniform"@))
    } else if name == "registered"@ {
        Some(("erlang"@, "registered"@))
    } else if name == "make_ref"@ {
        Some(("erlang"@, "make_ref"@))
    } else if name == "get_cwd"@ {
        Some(("file"@, "get_cwd"@))
    } else if name == "argv"@ {
        Some(("init"@, "get_plain_arguments"@))
    } else {
        None
    }
}

fn plain0_call(name: &str) -> (r: Option<(&'static str, &'static str)>)
    ensures
        pair_of(r) == plain0(name@),
{
    if same(name, "random") {
        Some(("rand", "uniform"))
    } else if same(name, "registered") {
        Some(("erlang", "registered"))
    } else if same(name, "make_ref") {
        Some(("erlang", "make_ref"))
    } else if same(name, "get_cwd") {
        Some(("file", "get_cwd"))
    } else if same(name, "argv") {
        Some(("init", "get_plain_arguments"))
    } else {
        None
    }
}

/// The library function behind a built-in of one argument, called with the same arguments.
pub open spec fn plain1(name: Seq<char>) -> Option<(Seq<char>, Seq<char>)> {
    if name == "length"@ {
        Some(("erlang"@, "length"@))
    } else if name == "hd"@ {
        Some(("erlang"@, "hd"@))
    } else if name == "tl"@ {
        Some(("erlang"@, "tl"@))
    } else if name == "abs"@ {
        Some(("erlang"@, "abs"@))
    } else if name == "reverse"@ {
        Some(("lists"@, "reverse"@))
    } else if name == "sort"@ {
        Some(("lists"@, "sort"@))
    } else if name == "flatten"@ {
        Some(("lists"@, "flatten"@))
    } else if name == "to_int"@ {
        Some(("erlang"@, "list_to_integer"@))
    } else if name == "to_float"@ {
        Some(("erlang"@, "list_to_float"@))
    } else if name == "to_atom"@ {
        Some(("erlang"@, "list_to_atom"@))
    } else if name == "size"@ {
        Some(("erlang"@, "tuple_size"@))
    } else if name == "throw"@ {
        Some(("erlang"@, "throw"@))
    } else if name == "exit"@ {
        Some(("erlang"@, "exit"@))
    } else if name == "error"@ {
        Some(("erlang"@, "error"@))
    } else if name == "bnot"@ {
        Some(("erlang"@, "bnot"@))
    } else if name == "is_int"@ {
        Some(("erlang"@, "is_integer"@))
    } else if name == "is_float"@ {
        Some(("erlang"@, "is_float"@))
    } else if name == "is_number"@ {
        Some(("erlang"@, "is_number"@))
    } else if name == "is_atom"@ {
        Some(("erlang"@, "is_atom"@))
    } else if name == "is_list"@ {
        Some(("erlang"@, "is_list"@))
    } else if name == "is_tuple"@ {
        Some(("erlang"@, "is_tuple"@))
    } else if name == "is_map"@ {
        Some(("erlang"@, "is_map"@))
    } else if name == "is_bool"@ {
        Some(("erlang"@, "is_boolean"@))
    } else if name == "is_string"@ {
        Some(("erlang"@, "is_binary"@))
    } else if name == "dynamic_is_string"@ {
        Some(("erlang"@, "is_binary"@))
    } else if name == "dynamic_is_binary"@ {
        Some(("erlang"@, "is_binary"@))
    } else if name == "dynamic_is_int"@ {
        Some(("erlang"@, "is_integer"@))
    } else if name == "dynamic_is_float"@ {
        Some(("erlang"@, "is_float"@))
    } else if name == "dynamic_is_bool"@ {
        Some(("erlang"@, "is_boolean"@))
    } else if name == "dynamic_is_atom"@ {
        Some(("erlang"@, "is_atom"@))
    } else if name == "dynamic_is_list"@ {
        Some(("erlang"@, "is_list"@))
    } else if name == "dynamic_is_map"@ {
        Some(("erlang"@, "is_map"@))
    } else if name == "is_pid"@ {
        Some(("erlang"@, "is_pid"@))
    } else if name == "is_function"@ {
        Some(("erlang"@, "is_function"@))
    } else if name == "sleep"@ {
        Some(("timer"@, "sleep"@))
    } else if name == "random_below"@ {
        Some(("rand"@, "uniform"@))
    } else if name == "spawn_link"@ {
        Some(("erlang"@, "spawn_link"@))
    } else if name == "link"@ {
        Some(("erlang"@, "link"@))
    } else if name == "unlink"@ {
        Some(("erlang"@, "unlink"@))
    } else if name == "demonitor"@ {
        Some(("erlang"@, "demonitor"@))
    } else if name == "whereis"@ {
        Some(("erlang"@, "whereis"@))
    } else if name == "str_length"@ {
        Some(("erlang"@, "byte_size"@))
    } else if name == "str_trim"@ {
        Some(("string"@, "trim"@))
    } else if name == "str_upper"@ {
        Some(("string"@, "uppercase"@))
    } else if name == "str_lower"@ {
        Some(("string"@, "lowercase"@))
    } else if name == "chars"@ {
        Some(("string"@, "to_graphemes"@))
    } else if name == "str_from_chars"@ {
        Some(("erlang"@, "iolist_to_binary"@))
    } else if name == "unzip"@ {
        Some(("lists"@, "unzip"@))
    } else if name == "enumerate"@ {
        Some(("lists"@, "enumerate"@))
    } else if name == "unique"@ {
        Some(("lists"@, "usort"@))
    } else if name == "map_keys"@ {
        Some(("maps"@, "keys"@))
    } else if name == "map_values"@ {
        Some(("maps"@, "values"@))
    } else if name == "map_size"@ {
        Some(("maps"@, "size"@))
    } else if name == "map_to_list"@ {
        Some(("maps"@, "to_list"@))
    } else if name == "list_to_map"@ {
        Some(("maps"@, "from_list"@))
    } else if name == "file_read"@ {
        Some(("file"@, "read_file"@))
    } else if name == "file_exists"@ {
        Some(("filelib"@, "is_file"@))
    } else if name == "file_delete"@ {
        Some(("file"@, "delete"@))
    } else if name == "dir_list"@ {
        Some(("file"@, "list_dir"@))
    } else if name == "dir_make"@ {
        Some(("file"@, "make_dir"@))
    } else if name == "exit_code"@ {
        Some(("erlang"@, "halt"@))
    } else if name == "get"@ {
        Some(("erlang"@, "get"@))
    } else if name == "erase"@ {
        Some(("erlang"@, "erase"@))
    } else if name == "tuple_to_list"@ {
        Some(("erlang"@, "tuple_to_list"@))
    } else if name == "list_to_tuple"@ {
        Some(("erlang"@, "list_to_tuple"@))
    } else if name == "byte_size"@ {
        Some(("erlang"@, "byte_size"@))
    } else if name == "bit_size"@ {
        Some(("erlang"@, "bit_size"@))
    } else if name == "binary_to_list"@ {
        Some(("erlang"@, "binary_to_list"@))
    } else if name == "list_to_binary"@ {
        Some(("erlang"@, "list_to_binary"@))
    } else if name == "is_binary"@ {
        Some(("erlang"@, "is_binary"@))
    } else if name == "atom_to_list"@ {
        Some(("erlang"@, "atom_to_list"@))
    } else if name == "list_to_atom"@ {
        Some(("erlang"@, "list_to_atom"@))
    } else if name == "integer_to_list"@ {
        Some(("erlang"@, "integer_to_list"@))
    } else if name == "list_to_integer"@ {
        Some(("erlang"@, "list_to_integer"@))
    } else if name == "float_to_list"@ {
        Some(("erlang"@, "float_to_list"@))
    } else if name == "list_to_float"@ {
        Some(("erlang"@, "list_to_float"@))
    } else if name == "iolist_to_binary"@ {
        Some(("erlang"@, "iolist_to_binary"@))
    } else if name == "term_to_binary"@ {
        Some(("erlang"@, "term_to_binary"@))
    } else if name == "binary_to_term"@ {
        Some(("erlang"@, "binary_to_term"@))
    } else if name == "dynamic_json_decode"@ {
        Some(("json"@, "decode"@))
    } else {
        None
    }
}

fn plain1_call(name: &str) -> (r: Option<(&'static str, &'static str)>)
    ensures
        pair_of(r) == plain1(name@),
{
    if same(name, "length") {
        Some(("erlang", "length"))
    } else if same(name, "hd") {
        Some(("erlang", "hd"))
    } else if same(name, "tl") {
        Some(("erlang", "tl"))
    } else if same(name, "abs") {
        Some(("erlang", "abs"))
    } else if same(name, "reverse") {
        Some(("lists", "reverse"))
    } else if same(name, "sort") {
        Some(("lists", "sort"))
    } else if same(name, "flatten") {
        Some(("lists", "flatten"))
    } else if same(name, "to_int") {
        Some(("erlang", "list_to_integer"))
    } else if same(name, "to_float") {
        Some(("erlang", "list_to_float"))
    } else if same(name, "to_atom") {
        Some(("erlang", "list_to_atom"))
    } else if same(name, "size") {
        Some(("erlang", "tuple_size"))
    } else if same(name, "throw") {
        Some(("erlang", "throw"))
    } else if same(name, "exit") {
        Some(("erlang", "exit"))
    } else if same(name, "error") {
        Some(("erlang", "error"))
    } else if same(name, "bnot") {
        Some(("erlang", "bnot"))
    } else if same(name, "is_int") {
        Some(("erlang", "is_integer"))
    } else if same(name, "is_float") {
        Some(("erlang", "is_float"))
    } else if same(name, "is_number") {
        Some(("erlang", "is_number"))
    } else if same(name, "is_atom") {
        Some(("erlang", "is_atom"))
    } else if same(name, "is_list") {
        Some(("erlang", "is_list"))
    } else if same(name, "is_tuple") {
        Some(("erlang", "is_tuple"))
    } else if same(name, "is_map") {
        Some(("erlang", "is_map"))
    } else if same(name, "is_bool") {
        Some(("erlang", "is_boolean"))
    } else if same(name, "is_string") {
        Some(("erlang", "is_binary"))
    } else if same(name, "dynamic_is_string") {
        Some(("erlang", "is_binary"))
    } else if same(name, "dynamic_is_binary") {
        Some(("erlang", "is_binary"))
    } else if same(name, "dynamic_is_int") {
        Some(("erlang", "is_integer"))
    } else if same(name, "dynamic_is_float") {
        Some(("erlang", "is_float"))
    } else if same(name, "dynamic_is_bool") {
        Some(("erlang", "is_boolean"))
    } else if same(name, "dynamic_is_atom") {
        Some(("erlang", "is_atom"))
    } else if same(name, "dynamic_is_list") {
        Some(("erlang", "is_list"))
    } else if same(name, "dynamic_is_map") {
        Some(("erlang", "is_map"))
    } else if same(name, "is_pid") {
        Some(("erlang", "is_pid"))
    } else if same(name, "is_function") {
        Some(("erlang", "is_function"))
    } else if same(name, "sleep") {
        Some(("timer", "sleep"))
    } else if same(name, "random_below") {
        Some(("rand", "uniform"))
    } else if same(name, "spawn_link") {
        Some(("erlang", "spawn_link"))
    } else if same(name, "link") {
        Some(("erlang", "link"))
    } else if same(name, "unlink") {
        Some(("erlang", "unlink"))
    } else if same(name, "demonitor") {
        Some(("erlang", "demonitor"))
    } else if same(name, "whereis") {
        Some(("erlang", "whereis"))
    } else if same(name, "str_length") {
        Some(("erlang", "byte_size"))
    } else if same(name, "str_trim") {
        Some(("string", "trim"))
    } else if same(name, "str_upper") {
        Some(("string", "uppercase"))
    } else if same(name, "str_lower") {
        Some(("string", "lowercase"))
    } else if same(name, "chars") {
        Some(("string", "to_graphemes"))
    } else if same(name, "str_from_chars") {
        Some(("erlang", "iolist_to_binary"))
    } else if same(name, "unzip") {
        Some(("lists", "unzip"))
    } else if same(name, "enumerate") {
        Some(("lists", "enumerate"))
    } else if same(name, "unique") {
        Some(("lists", "usort"))
    } else if same(name, "map_keys") {
        Some(("maps", "keys"))
    } else if same(name, "map_values") {
        Some(("maps", "values"))
    } else if same(name, "map_size") {
        Some(("maps", "size"))
    } else if same(name, "map_to_list") {
        Some(("maps", "to_list"))
    } else if same(name, "list_to_map") {
        Some(("maps", "from_list"))
    } else if same(name, "file_read") {
        Some(("file", "read_file"))
    } else if same(name, "file_exists") {
        Some(("filelib", "is_file"))
    } else if same(name, "file_delete") {
        Some(("file", "delete"))
    } else if same(name, "dir_list") {
        Some(("file", "list_dir"))
    } else if same(name, "dir_make") {
        Some(("file", "make_dir"))
    } else if same(name, "exit_code") {
        Some(("erlang", "halt"))
    } else if same(name, "get") {
        Some(("erlang", "get"))
    } else if same(name, "erase") {
        Some(("erlang", "erase"))
    } else if same(name, "tuple_to_list") {
        Some(("erlang", "tuple_to_list"))
    } else if same(name, "list_to_tuple") {
        Some(("erlang", "list_to_tuple"))
    } else if same(name, "byte_size") {
        Some(("erlang", "byte_size"))
    } else if same(name, "bit_size") {
        Some(("erlang", "bit_size"))
    } else if same(name, "binary_to_list") {
        Some(("erlang", "binary_to_list"))
    } else if same(name, "list_to_binary") {
        Some(("erlang", "list_to_binary"))
    } else if same(name, "is_binary") {
        Some(("erlang", "is_binary"))
    } else if same(name, "atom_to_list") {
        Some(("erlang", "atom_to_list"))
    } else if same(name, "list_to_atom") {
        Some(("erlang", "list_to_atom"))
    } else if same(name, "integer_to_list") {
        Some(("erlang", "integer_to_list"))
    } else if same(name, "list_to_integer") {
        Some(("erlang", "list_to_integer"))
    } else if same(name, "float_to_list") {
        Some(("erlang", "float_to_list"))
    } else if same(name, "list_to_float") {
        Some(("erlang", "list_to_float"))
    } else if same(name, "iolist_to_binary") {
        Some(("erlang", "iolist_to_binary"))
    } else if same(name, "term_to_binary") {
        Some(("erlang", "term_to_binary"))
    } else if same(name, "binary_to_term") {
        Some(("erlang", "binary_to_term"))
    } else if same(name, "dynamic_json_decode") {
        Some(("json", "decode"))
    } else {
        None
    }
}

/// The library function behind a built-in of two arguments, called with the same arguments.
pub open spec fn plain2(name: Seq<char>) -> Option<(Seq<char>, Seq<char>)> {
    if name == "max"@ {
        Some(("erlang"@, "max"@))
    } else if name == "min"@ {
        Some(("erlang"@, "min"@))
    } else if name == "append"@ {
        Some(("lists"@, "append"@))
    } else if name == "band"@ {
        Some(("erlang"@, "band"@))
    } else if name == "bor"@ {
        Some(("erlang"@, "bor"@))
    } else if name == "bxor"@ {
        Some(("erlang"@, "bxor"@))
    } else if name == "bsl"@ {
        Some(("erlang"@, "bsl"@))
    } else if name == "bsr"@ {
        Some(("erlang"@, "bsr"@))
    } else if name == "rem"@ {
        Some(("erlang"@, "rem"@))
    } else if name == "div"@ {
        Some(("erlang"@, "div"@))
    } else if name == "register"@ {
        Some(("erlang"@, "register"@))
    } else if name == "str_starts_with"@ {
        Some(("string"@, "prefix"@))
    } else if name == "drop"@ {
        Some(("lists"@, "nthtail"@))
    } else if name == "nth"@ {
        Some(("lists"@, "nth"@))
    } else if name == "zip"@ {
        Some(("lists"@, "zip"@))
    } else if name == "member"@ {
        Some(("lists"@, "member"@))
    } else if name == "map_merge"@ {
        Some(("maps"@, "merge"@))
    } else if name == "file_write"@ {
        Some(("file"@, "write_file"@))
    } else if name == "put"@ {
        Some(("erlang"@, "put"@))
    } else if name == "apply"@ {
        Some(("erlang"@, "apply"@))
    } else if name == "str_char_at"@ {
        Some(("binary"@, "at"@))
    } else {
        None
    }
}

fn plain2_call(name: &str) -> (r: Option<(&'static str, &'static str)>)
    ensures
        pair_of(r) == plain2(name@),
{
    if same(name, "max") {
        Some(("erlang", "max"))
    } else if same(name, "min") {
        Some(("erlang", "min"))
    } else if same(name, "append") {
        Some(("lists", "append"))
    } else if same(name, "band") {
        Some(("erlang", "band"))
    } else if same(name, "bor") {
        Some(("erlang", "bor"))
    } else if same(name, "bxor") {
        Some(("erlang", "bxor"))
    } else if same(name, "bsl") {
        Some(("erlang", "bsl"))
    } else if same(name, "bsr") {
        Some(("erlang", "bsr"))
    } else if same(name, "rem") {
        Some(("erlang", "rem"))
    } else if same(name, "div") {
        Some(("erlang", "div"))
    } else if same(name, "register") {
        Some(("erlang", "register"))
    } else if same(name, "str_starts_with") {
        Some(("string", "prefix"))
    } else if same(name, "drop") {
        Some(("lists", "nthtail"))
    } else if same(name, "nth") {
        Some(("lists", "nth"))
    } else if same(name, "zip") {
        Some(("lists", "zip"))
    } else if same(name, "member") {
        Some(("lists", "member"))
    } else if same(name, "map_merge") {
        Some(("maps", "merge"))
    } else if same(name, "file_write") {
        Some(("file", "write_file"))
    } else if same(name, "put") {
        Some(("erlang", "put"))
    } else if same(name, "apply") {
        Some(("erlang", "apply"))
    } else if same(name, "str_char_at") {
        Some(("binary", "at"))
    } else {
        None
    }
}

/// The library function behind a built-in of three arguments, called with the same arguments.
pub open spec fn plain3(name: Seq<char>) -> Option<(Seq<char>, Seq<char>)> {
    if name == "str_slice"@ {
        Some(("string"@, "slice"@))
    } else if name == "binary_slice"@ {
        Some(("erlang"@, "binary_part"@))
    } else if name == "apply_module"@ {
        Some(("erlang"@, "apply"@))
    } else {
        None
    }
}

fn plain3_call(name: &str) -> (r: Option<(&'static str, &'static str)>)
    ensures
        pair_of(r) == plain3(name@),
{
    if same(name, "str_slice") {
        Some(("string", "slice"))
    } else if same(name, "binary_slice") {
        Some(("erlang", "binary_part"))
    } else if same(name, "apply_module") {
        Some(("erlang", "apply"))
    } else {
        None
    }
}

/// The library function behind a built-in that is called with the same arguments.
pub open spec fn plain(name: Seq<char>, arity: nat) -> Option<(Seq<char>, Seq<char>)> {
    if arity == 0 {
        plain0(name)
    } else if arity == 1 {
        plain1(name)
    } else if arity == 2 {
        plain2(name)
    } else if arity == 3 {
        plain3(name)
    } else {
        None
    }
}

/// The library function behind a built-in that is called with the same arguments.
pub fn plain_call(name: &str, arity: usize) -> (r: Option<(&'static str, &'static str)>)
    ensures
        pair_of(r) == plain(name@, arity as nat),
{
    if arity == 0 {
        plain0_call(name)
    } else if arity == 1 {
        plain1_call(name)
    } else if arity == 2 {
        plain2_call(name)
    } else if arity == 3 {
        plain3_call(name)
    } else {
        None
    }
}

/// The predicate and the kind of a cast that fails with an error.
pub open spec fn cast(name: Seq<char>) -> Option<(Seq<char>, Seq<char>)> {
    if name == "dynamic_string"@ {
        Some(("is_binary"@, "string"@))
    } else if name == "dynamic_binary"@ {
        Some(("is_binary"@, "binary"@))
    } else if name == "dynamic_int"@ {
        Some(("is_integer"@, "int"@))
    } else if name == "dynamic_float"@ {
        Some(("is_float"@, "float"@))
    } else if name == "dynamic_bool"@ {
        Some(("is_boolean"@, "bool"@))
    } else if name == "dynamic_atom"@ {
        Some(("is_atom"@, "atom"@))
    } else if name == "dynamic_list"@ {
        Some(("is_list"@, "list"@))
    } else if name == "dynamic_map"@ {
        Some(("is_map"@, "map"@))
    } else {
        None
    }
}

fn cast_of(name: &str) -> (r: Option<(&'static str, &'static str)>)
    ensures
        pair_of(r) == cast(name@),
{
    if same(name, "dynamic_string") {
        Some(("is_binary", "string"))
    } else if same(name, "dynamic_binary") {
        Some(("is_binary", "binary"))
    } else if same(name, "dynamic_int") {
        Some(("is_integer", "int"))
    } else if same(name, "dynamic_float") {
        Some(("is_float", "float"))
    } else if same(name, "dynamic_bool") {
        Some(("is_boolean", "bool"))
    } else if same(name, "dynamic_atom") {
        Some(("is_atom", "atom"))
    } else if same(name, "dynamic_list") {
        Some(("is_list", "list"))
    } else if same(name, "dynamic_map") {
        Some(("is_map", "map"))
    } else {
        None
    }
}

/// The predicate and the kind of a cast that gives a result.
pub open spec fn result_cast(name: Seq<char>) -> Option<(Seq<char>, Seq<char>)> {
    if name == "dynamic_string_result"@ {
        Some(("is_binary"@, "string"@))
    } else if name == "dynamic_binary_result"@ {
        Some(("is_binary"@, "binary"@))
    } else if name == "dynamic_int_result"@ {
        Some(("is_integer"@, "int"@))
    } else if name == "dynamic_float_result"@ {
        Some(("is_float"@, "float"@))
    } else if name == "dynamic_bool_result"@ {
        Some(("is_boolean"@, "bool"@))
    } else if name == "dynamic_atom_result"@ {
        Some(("is_atom"@, "atom"@))
    } else if name == "dynamic_list_result"@ {
        Some(("is_list"@, "list"@))
    } else if name == "dynamic_map_result"@ {
        Some(("is_map"@, "map"@))
    } else {
        None
    }
}

fn result_cast_of(name: &str) -> (r: Option<(&'static str, &'static str)>)
    ensures
        pair_of(r) == result_cast(name@),
{
    if same(name, "dynamic_string_result") {
        Some(("is_binary", "string"))
    } else if same(name, "dynamic_binary_result") {
        Some(("is_binary", "binary"))
    } else if same(name, "dynamic_int_result") {
        Some(("is_integer", "int"))
    } else if same(name, "dynamic_float_result") {
        Some(("is_float", "float"))
    } else if same(name, "dynamic_bool_result") {
        Some(("is_boolean", "bool"))
    } else if same(name, "dynamic_atom_result") {
        Some(("is_atom", "atom"))
    } else if same(name, "dynamic_list_result") {
        Some(("is_list", "list"))
    } else if same(name, "dynamic_map_result") {
        Some(("is_map", "map"))
    } else {
        None
    }
}

/// The translation of a built-in of no arguments that is more than a call with the same arguments, and the next free variable.
pub open spec fn special0(name: Seq<char>, n: nat) -> Option<(Core, nat)> {
    if name == "now"@ {
        Some((shape::call1("erlang"@, "system_time"@, shape::atom("millisecond"@)), n))
    } else if name == "monotonic_time"@ {
        Some((shape::call1("erlang"@, "monotonic_time"@, shape::atom("millisecond"@)), n))
    } else if name == "random_seed"@ {
        Some((shape::call1("rand"@, "seed"@, shape::atom("exsss"@)), n))
    } else {
        None
    }
}

fn special0_call(name: &str, fresh: &mut FreshVars) -> (r: Result<CoreExpr, ()>)
    ensures
        match r {
            Ok(e) => special0(name@, old(fresh).next()) == Some(
                (core_of(e), final(fresh).next()),
            ),
            Err(x) => special0(name@, old(fresh).next()) is None
                && final(fresh).next() == old(fresh).next() && true,
        },
{
    if same(name, "now") {
        Ok(make::call1("erlang", "system_time", make::atom("millisecond")))
    } else if same(name, "monotonic_time") {
        Ok(make::call1("erlang", "monotonic_time", make::atom("millisecond")))
    } else if same(name, "random_seed") {
        Ok(make::call1("rand", "seed", make::atom("exsss")))
    } else {
        Err(())
    }
}

/// The translation of a built-in of one argument that is more than a call with the same arguments, and the next free variable.
pub open spec fn special1(name: Seq<char>, a: Core, n: nat) -> Option<(Core, nat)> {
    if name == "to_string"@ {
        Some((shape::call1("lists"@, "flatten"@,
            shape::call2("io_lib"@, "format"@, shape::string("~p"@), shape::cons(a, shape::nil()))),
            n))
    } else if name == "fst"@ {
        Some((shape::call2("erlang"@, "element"@, shape::num(1), a), n))
    } else if name == "snd"@ {
        Some((shape::call2("erlang"@, "element"@, shape::num(2), a), n))
    } else if name == "is_nil"@ {
        Some((shape::call2("erlang"@, "=:="@, a, shape::nil()), n))
    } else if name == "dynamic_is_null"@ {
        Some((shape::call2("erlang"@, "=:="@, a, shape::atom("null"@)), n))
    } else if name == "assert"@ {
        Some((shape::if_else(a, shape::atom("ok"@),
            shape::call1("erlang"@, "error"@, shape::atom("assertion_failed"@))), n))
    } else if name == "monitor"@ {
        Some((shape::call2("erlang"@, "monitor"@, shape::atom("process"@), a), n))
    } else if name == "env"@ {
        Some((shape::call1("erlang"@, "list_to_binary"@,
            shape::call1("os"@, "getenv"@, shape::call1("erlang"@, "binary_to_list"@, a))), n))
    } else if name == "os_cmd"@ {
        Some((shape::call1("erlang"@, "list_to_binary"@,
            shape::call1("os"@, "cmd"@, shape::call1("erlang"@, "binary_to_list"@, a))), n))
    } else if name == "dynamic"@ {
        Some((a, n))
    } else if name == "dynamic_json_encode"@ {
        Some((shape::call1("erlang"@, "iolist_to_binary"@, shape::call1("json"@, "encode"@, a)), n))
    } else if name == "dbg"@ {
        Some((decode::debug_print_shape(a, n), n + 1))
    } else if name == "dynamic_json_decode_result"@ {
        Some((decode::json_decode_result_shape(a, n), n + 4))
    } else if name == "typeof"@ {
        Some((decode::kind_name_shape(a, n), n + 1))
    } else if name == "dynamic_typeof"@ {
        Some((decode::kind_name_shape(a, n), n + 1))
    } else {
        match cast(name) {
            Some((predicate, kind)) => Some(
                (decode::checked_dynamic_cast_shape(a, predicate, kind, n), n + 1),
            ),
            None => match result_cast(name) {
                Some((predicate, kind)) => Some(
                    (decode::checked_dynamic_result_cast_shape(a, predicate, kind, n), n + 1),
                ),
                None => None,
            },
        }
    }
}

fn special1_call(name: &str, a: CoreExpr, fresh: &mut FreshVars) -> (r: Result<CoreExpr, CoreExpr>)
    ensures
        match r {
            Ok(e) => special1(name@, core_of(a), old(fresh).next()) == Some(
                (core_of(e), final(fresh).next()),
            ),
            Err(x) => special1(name@, core_of(a), old(fresh).next()) is None
                && final(fresh).next() == old(fresh).next() && core_of(x) == core_of(a),
        },
{
    if same(name, "to_string") {
        Ok(make::call1("lists", "flatten",
            make::call2("io_lib", "format", make::string("~p"), make::cons(a, make::nil()))))
    } else if same(name, "fst") {
        Ok(make::call2("erlang", "element", make::num(1), a))
    } else if same(name, "snd") {
        Ok(make::call2("erlang", "element", make::num(2), a))
    } else if same(name, "is_nil") {
        Ok(make::call2("erlang", "=:=", a, make::nil()))
    } else if same(name, "dynamic_is_null") {
        Ok(make::call2("erlang", "=:=", a, make::atom("null")))
    } else if same(name, "assert") {
        Ok(make::if_else(a, make::atom("ok"), make::call1("erlang", "error", make::atom("assertion_failed"))))
    } else if same(name, "monitor") {
        Ok(make::call2("erlang", "monitor", make::atom("process"), a))
    } else if same(name, "env") {
        Ok(make::call1("erlang", "list_to_binary",
            make::call1("os", "getenv", make::call1("erlang", "binary_to_list", a))))
    } else if same(name, "os_cmd") {
        Ok(make::call1("erlang", "list_to_binary",
            make::call1("os", "cmd", make::call1("erlang", "binary_to_list", a))))
    } else if same(name, "dynamic") {
        Ok(a)
    } else if same(name, "dynamic_json_encode") {
        Ok(make::call1("erlang", "iolist_to_binary", make::call1("json", "encode", a)))
    } else if same(name, "dbg") {
        Ok(decode::debug_print(a, fresh))
    } else if same(name, "dynamic_json_decode_result") {
        Ok(decode::json_decode_result(a, fresh))
    } else if same(name, "typeof") {
        Ok(decode::kind_name(a, fresh))
    } else if same(name, "dynamic_typeof") {
        Ok(decode::kind_name(a, fresh))
    } else {
        match cast_of(name) {
            Some((predicate, kind)) => Ok(decode::checked_dynamic_cast(a, predicate, kind, fresh)),
            None => match result_cast_of(name) {
                Some((predicate, kind)) => Ok(
                    decode::checked_dynamic_result_cast(a, predicate, kind, fresh),
                ),
                None => Err(a),
            },
        }
    }
}

/// The translation of a built-in of two arguments that is more than a call with the same arguments, and the next free variable.
pub open spec fn special2(name: Seq<char>, a: Core, b: Core, n: nat) -> Option<(Core, nat)> {
    if name == "str_concat"@ {
        Some((shape::bin2(a, b), n))
    } else if name == "str_split"@ {
        Some((shape::call3("string"@, "split"@, a, b, shape::atom("all"@)), n))
    } else if name == "str_join"@ {
        Some((shape::call1("erlang"@, "iolist_to_binary"@, shape::call2("lists"@, "join"@, b, a)), n))
    } else if name == "str_contains"@ {
        Some((shape::call2("erlang"@, "/="@, shape::call2("string"@, "find"@, a, b),
            shape::atom("nomatch"@)), n))
    } else if name == "str_ends_with"@ {
        Some((shape::call2("erlang"@, "/="@,
            shape::call3("string"@, "find"@, a, b, shape::atom("trailing"@)),
            shape::atom("nomatch"@)), n))
    } else if name == "take"@ {
        Some((shape::call2("lists"@, "sublist"@, b, a), n))
    } else if name == "map_get"@ {
        Some((shape::call2("maps"@, "get"@, b, a), n))
    } else if name == "map_remove"@ {
        Some((shape::call2("maps"@, "remove"@, b, a), n))
    } else if name == "map_has_key"@ {
        Some((shape::call2("maps"@, "is_key"@, b, a), n))
    } else if name == "set_env"@ {
        Some((shape::call2("os"@, "putenv"@, shape::call1("erlang"@, "binary_to_list"@, a),
            shape::call1("erlang"@, "binary_to_list"@, b)), n))
    } else if name == "elem"@ {
        Some((shape::call2("erlang"@, "element"@, b, a), n))
    } else if name == "dynamic_get"@ {
        Some((decode::checked_get_shape(a, b, n), n + 1))
    } else if name == "dynamic_get_result"@ {
        Some((decode::dynamic_get_result_shape(a, b, n), n + 3))
    } else if name == "dynamic_at"@ {
        Some((decode::checked_at_shape(a, b, n), n + 1))
    } else if name == "dynamic_at_result"@ {
        Some((decode::decode_index_value_shape(a, b, n), n + 6))
    } else if name == "decode_map"@ {
        Some((decode::decode_map_shape(a, b, n), n + 2))
    } else if name == "decode_then"@ {
        Some((decode::decode_then_shape(a, b, n), n + 2))
    } else if name == "decode_list"@ {
        Some((decode::decode_list_shape(a, b, n), n + 12))
    } else if name == "decode_optional"@ {
        Some((decode::decode_optional_shape(a, b, n), n + 4))
    } else if name == "decode_dict"@ {
        Some((decode::decode_dict_shape(a, b, n), n + 9))
    } else {
        None
    }
}

fn special2_call(name: &str, a: CoreExpr, b: CoreExpr,
    fresh: &mut FreshVars) -> (r: Result<CoreExpr, (CoreExpr, CoreExpr)>)
    ensures
        match r {
            Ok(e) => special2(name@, core_of(a), core_of(b), old(fresh).next()) == Some(
                (core_of(e), final(fresh).next()),
            ),
            Err(x) => special2(name@, core_of(a), core_of(b), old(fresh).next()) is None
                && final(fresh).next() == old(fresh).next() && core_of(x.0) == core_of(a)
                    && core_of(x.1) == core_of(b),
        },
{
    if same(name, "str_concat") {
        Ok(make::bin2(a, b))
    } else if same(name, "str_split") {
        Ok(make::call3("string", "split", a, b, make::atom("all")))
    } else if same(name, "str_join") {
        Ok(make::call1("erlang", "iolist_to_binary", make::call2("lists", "join", b, a)))
    } else if same(name, "str_contains") {
        Ok(make::call2("erlang", "/=", make::call2("string", "find", a, b), make::atom("nomatch")))
    } else if same(name, "str_ends_with") {
        Ok(make::call2("erlang", "/=", make::call3("string", "find", a, b, make::atom("trailing")),
            make::atom("nomatch")))
    } else if same(name, "take") {
        Ok(make::call2("lists", "sublist", b, a))
    } else if same(name, "map_get") {
        Ok(make::call2("maps", "get", b, a))
    } else if same(name, "map_remove") {
        Ok(make::call2("maps", "remove", b, a))
    } else if same(name, "map_has_key") {
        Ok(make::call2("maps", "is_key", b, a))
    } else if same(name, "set_env") {
        Ok(make::call2("os", "putenv", make::call1("erlang", "binary_to_list", a),
            make::call1("erlang", "binary_to_list", b)))
    } else if same(name, "elem") {
        Ok(make::call2("erlang", "element", b, a))
    } else if same(name, "dynamic_get") {
        Ok(decode::checked_get(a, b, fresh))
    } else if same(name, "dynamic_get_result") {
        Ok(decode::dynamic_get_result(a, b, fresh))
    } else if same(name, "dynamic_at") {
        Ok(decode::checked_at(a, b, fresh))
    } else if same(name, "dynamic_at_result") {
        Ok(decode::decode_index_value(a, b, fresh))
    } else if same(name, "decode_map") {
        Ok(decode::decode_map(a, b, fresh))
    } else if same(name, "decode_then") {
        Ok(decode::decode_then(a, b, fresh))
    } else if same(name, "decode_list") {
        Ok(decode::translate_decode_list(a, b, fresh))
    } else if same(name, "decode_optional") {
        Ok(decode::translate_decode_optional(a, b, fresh))
    } else if same(name, "decode_dict") {
        Ok(decode::translate_decode_dict(a, b, fresh))
    } else {
        Err((a, b))
    }
}

/// The translation of a built-in of three arguments that is more than a call with the same arguments, and the next free variable.
pub open spec fn special3(name: Seq<char>, a: Core, b: Core, c: Core, n: nat) -> Option<(Core, nat)> {
    if name == "str_replace"@ {
        Some((shape::call4("string"@, "replace"@, a, b, c, shape::atom("all"@)), n))
    } else if name == "map_put"@ {
        Some((shape::call3("maps"@, "put"@, b, c, a), n))
    } else if name == "map_get_or"@ {
        Some((shape::call3("maps"@, "get"@, b, a, c), n))
    } else if name == "set_elem"@ {
        Some((shape::call3("erlang"@, "setelement"@, b, a, c), n))
    } else if name == "dynamic_get_or"@ {
        Some((decode::checked_get_or_shape(a, b, c, n), n + 1))
    } else if name == "decode_field"@ {
        Some((decode::decode_field_shape(a, b, c, n), n + 6))
    } else if name == "decode_optional_field"@ {
        Some((decode::decode_optional_field_shape(a, b, c, n), n + 7))
    } else if name == "decode_index"@ {
        Some((decode::decode_index_shape(a, b, c, n), n + 9))
    } else if name == "decode_one_of"@ {
        Some((decode::decode_one_of_shape(a, b, c, n), n + 3))
    } else {
        None
    }
}

fn special3_call(name: &str, a: CoreExpr, b: CoreExpr, c: CoreExpr,
    fresh: &mut FreshVars) -> (r: Result<CoreExpr, (CoreExpr, CoreExpr, CoreExpr)>)
    ensures
        match r {
            Ok(e) => special3(name@, core_of(a), core_of(b), core_of(c), old(fresh).next()) == Some(
                (core_of(e), final(fresh).next()),
            ),
            Err(x) => special3(name@, core_of(a), core_of(b), core_of(c), old(fresh).next()) is None
                && final(fresh).next() == old(fresh).next() && core_of(x.0) == core_of(a)
                    && core_of(x.1) == core_of(b) && core_of(x.2) == core_of(c),
        },
{
    if same(name, "str_replace") {
        Ok(make::call4("string", "replace", a, b, c, make::atom("all")))
    } else if same(name, "map_put") {
        Ok(make::call3("maps", "put", b, c, a))
    } else if same(name, "map_get_or") {
        Ok(make::call3("maps", "get", b, a, c))
    } else if same(name, "set_elem") {
        Ok(make::call3("erlang", "setelement", b, a, c))
    } else if same(name, "dynamic_get_or") {
        Ok(decode::checked_get_or(a, b, c, fresh))
    } else if same(name, "decode_field") {
        Ok(decode::translate_decode_field(a, b, c, fresh))
    } else if same(name, "decode_optional_field") {
        Ok(decode::translate_decode_optional_field(a, b, c, fresh))
    } else if same(name, "decode_index") {
        Ok(decode::translate_decode_index(a, b, c, fresh))
    } else if same(name, "decode_one_of") {
        Ok(decode::decode_one_of(a, b, c, fresh))
    } else {
        Err((a, b, c))
    }
}

/// The translation of a built-in of four arguments that is more than a call with the same arguments, and the next free variable.
pub open spec fn special4(name: Seq<char>, a: Core, b: Core, c: Core, d: Core, n: nat) -> Option<(Core, nat)> {
    if name == "decode_field_or"@ {
        Some((decode::decode_field_or_shape(a, b, c, d, n), n + 6))
    } else {
        None
    }
}

fn special4_call(name: &str, a: CoreExpr, b: CoreExpr, c: CoreExpr, d: CoreExpr,
    fresh: &mut FreshVars) -> (r: Result<CoreExpr, (CoreExpr, CoreExpr, CoreExpr, CoreExpr)>)
    ensures
        match r {
            Ok(e) => special4(name@, core_of(a), core_of(b), core_of(c), core_of(d), old(fresh).next()) == Some(
                (core_of(e), final(fresh).next()),
            ),
            Err(x) => special4(name@, core_of(a), core_of(b), core_of(c), core_of(d), old(fresh).next()) is None
                && final(fresh).next() == old(fresh).next() && core_of(x.0) == core_of(a)
                    && core_of(x.1) == core_of(b) && core_of(x.2) == core_of(c)
                    && core_of(x.3) == core_of(d),
        },
{
    if same(name, "decode_field_or") {
        Ok(decode::translate_decode_field_or(a, b, c, d, fresh))
    } else {
        Err((a, b, c, d))
    }
}

/// The translation of a call of a built-in function, and the next free variable.
pub open spec fn builtin(name: Seq<char>, args: Seq<Core>, n: nat) -> Option<(Core, nat)> {
    if name == "print"@ || name == "println"@ {
        Some((shape::call2("io"@, "format"@, shape::string("~p~n"@), shape::listed(args)), n))
    } else {
        match plain(name, args.len()) {
            Some((m, f)) => Some((Core::Call(m, f, args), n)),
            None => special(name, args, n),
        }
    }
}

pub open spec fn special(name: Seq<char>, args: Seq<Core>, n: nat) -> Option<(Core, nat)> {
    if args.len() == 0 {
        special0(name, n)
    } else if args.len() == 1 {
        special1(name, args[0], n)
    } else if args.len() == 2 {
        special2(name, args[0], args[1], n)
    } else if args.len() == 3 {
        special3(name, args[0], args[1], args[2], n)
    } else if args.len() == 4 {
        special4(name, args[0], args[1], args[2], args[3], n)
    } else {
        None
    }
}

/// The last of the arguments.
fn pop_arg(v: &mut Vec<CoreExpr>) -> (r: CoreExpr)
    requires
        old(v)@.len() > 0,
    ensures
        cores_of(old(v)@) == cores_of(final(v)@).push(core_of(r)),
        final(v)@.len() == old(v)@.len() - 1,
{
    let ghost before = v@;
    let x = v.pop().unwrap();
    assert(v@ =~= before.drop_last());
    x
}

proof fn lemma_count(s: Seq<CoreExpr>)
    ensures
        cores_of(s).len() == s.len(),
    decreases s.len(),
{
    if s.len() > 0 {
        lemma_count(s.drop_last());
    }
}

fn special_call(name: &str, args: Vec<CoreExpr>, fresh: &mut FreshVars) -> (r: Result<
    CoreExpr,
    Vec<CoreExpr>,
>)
    ensures
        match r {
            Ok(e) => special(name@, cores_of(args@), old(fresh).next()) == Some(
                (core_of(e), final(fresh).next()),
            ),
            Err(v) => special(name@, cores_of(args@), old(fresh).next()) is None && cores_of(v@)
                == cores_of(args@) && final(fresh).next() == old(fresh).next(),
        },
{
    let mut args = args;
    let ghost all = cores_of(args@);
    proof {
        lemma_count(args@);
    }
    if args.len() == 0 {
        match special0_call(name, fresh) {
            Ok(e) => Ok(e),
            Err(_) => Err(args),
        }
    } else if args.len() == 1 {
        let a = pop_arg(&mut args);
        proof {
            lemma_count(args@);
            assert(all =~= seq![core_of(a)]);
        }
        match special1_call(name, a, fresh) {
            Ok(e) => Ok(e),
            Err(x) => Err(make::one(x)),
        }
    } else if args.len() == 2 {
        let b = pop_arg(&mut args);
        let a = pop_arg(&mut args);
        proof {
            lemma_count(args@);
            assert(all =~= seq![core_of(a), core_of(b)]);
        }
        match special2_call(name, a, b, fresh) {
            Ok(e) => Ok(e),
            Err(x) => Err(make::two(x.0, x.1)),
        }
    } else if args.len() == 3 {
        let c = pop_arg(&mut args);
        let b = pop_arg(&mut args);
        let a = pop_arg(&mut args);
        proof {
            lemma_count(args@);
            assert(all =~= seq![core_of(a), core_of(b), core_of(c)]);
        }
        match special3_call(name, a, b, c, fresh) {
            Ok(e) => Ok(e),
            Err(x) => Err(make::three(x.0, x.1, x.2)),
        }
    } else if args.len() == 4 {
        let d = pop_arg(&mut args);
        let c = pop_arg(&mut args);
        let b = pop_arg(&mut args);
        let a = pop_arg(&mut args);
        proof {
            lemma_count(args@);
            assert(all =~= seq![core_of(a), core_of(b), core_of(c), core_of(d)]);
        }
        match special4_call(name, a, b, c, d, fresh) {
            Ok(e) => Ok(e),
            Err(x) => Err(make::four(x.0, x.1, x.2, x.3)),
        }
    } else {
        Err(args)
    }
}

/// Translates a call of a built-in function; hands the arguments back if there
/// is none of that name with that many arguments.
pub fn builtin_call(name: &str, args: Vec<CoreExpr>, fresh: &mut FreshVars) -> (r: Result<
    CoreExpr,
    Vec<CoreExpr>,
>)
    ensures
        match r {
            Ok(e) => builtin(name@, cores_of(args@), old(fresh).next()) == Some(
                (core_of(e), final(fresh).next()),
            ),
            Err(v) => builtin(name@, cores_of(args@), old(fresh).next()) is None && cores_of(v@)
                == cores_of(args@) && final(fresh).next() == old(fresh).next(),
        },
{
    proof {
        lemma_count(args@);
    }
    if same(name, "print") || same(name, "println") {
        Ok(make::call2("io", "format", make::string("~p~n"), make::listed(args)))
    } else {
        match plain_call(name, args.len()) {
            Some((m, f)) => Ok(CoreExpr::call(m, f, args)),
            None => special_call(name, args, fresh),
        }
    }
}

} // verus!
