pub mod ast;
pub mod builtin_names;
pub mod builtins;
pub mod canon;
pub mod canon_stable;
pub mod cli;
pub mod components;
pub mod content;
pub mod core_alike;
pub mod decode;
pub mod emit;
pub mod emit_receive;
pub mod erlang;
pub mod evidence;
pub mod fingerprint;
pub mod fresh;
pub mod graph;
pub mod hash_pass;
pub mod hashing;
pub mod json;
pub mod json_text;
pub mod libs;
pub mod link;
pub mod lower;
pub mod lower_alike;
pub mod lower_means;
pub mod lux_meaning;
pub mod make;
pub mod mcp;
pub mod mcp_routes;
pub mod meaning;
pub mod names;
pub mod native;
pub mod native_build;
pub mod native_compile;
pub mod native_expr;
pub mod native_frame;
pub mod native_free;
pub mod native_gen;
pub mod native_meaning;
pub mod native_mirror;
pub mod native_names;
pub mod native_plan;
pub mod native_program;
pub mod native_scope;
pub mod native_sound;
pub mod native_warn;
pub mod order;
pub mod print_binders;
pub mod print_pattern;
pub mod print_pieces;
pub mod print_tells;
pub mod print_twin;
pub mod print_types;
pub mod renaming;
pub mod reorder;
pub mod repl;
pub mod repl_answer;
pub mod repl_print;
pub mod repl_state;
pub mod runtime;
pub mod runtime_c;
pub mod service;
pub mod shape;
pub mod shape_alike;
pub mod swap;
pub mod swap_shape;
pub mod text;
pub mod translate;
pub mod twin;
pub mod words;
