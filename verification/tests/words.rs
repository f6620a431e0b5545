use lux::fresh::FreshVars;
use lux::json::Json;
use lux::native_gen::{mangle_symbol, NativeCompiler};
use lux::order::{comes_before, sort_rows, sort_texts};
use lux::runtime::{generate_runtime_c, make_tagged_atom, make_tagged_int, replace_all};
use lux::words::{
    parse_i64, parse_u16, parse_u64, split_words, trim, trim_end, trim_slashes,
};

#[test]
fn blanks_of_every_kind_are_trimmed() {
    assert_eq!(trim(" \t\u{a0}\u{2003}x y\u{3000}\n"), "x y");
    assert_eq!(trim_end(" x\u{2028}"), " x");
    assert_eq!(split_words(" a\u{2003}b  c "), vec!["a", "b", "c"]);
    assert_eq!(split_words("  ").len(), 0);
    assert_eq!(trim("\u{200b}x"), "\u{200b}x");
}

#[test]
fn numbers_are_read_within_their_range() {
    assert_eq!(parse_i64("-9223372036854775808"), Some(i64::MIN));
    assert_eq!(parse_i64("+7"), Some(7));
    assert_eq!(parse_i64("9223372036854775808"), None);
    assert_eq!(parse_i64("-"), None);
    assert_eq!(parse_i64(""), None);
    assert_eq!(parse_u16("+65535"), Some(65535));
    assert_eq!(parse_u16("-0"), None);
    assert_eq!(parse_u64("18446744073709551615"), Some(u64::MAX));
    assert_eq!(parse_u64("18446744073709551616"), None);
    assert_eq!(parse_u64("1_0"), None);
}

#[test]
fn slashes_at_the_end_go() {
    assert_eq!(trim_slashes("http://h///"), "http://h");
    assert_eq!(trim_slashes("/"), "");
}

#[test]
fn texts_are_ordered_by_their_characters() {
    assert!(comes_before("a", "ab"));
    assert!(comes_before("B", "a"));
    assert!(!comes_before("a", "a"));
    let v: Vec<String> = ["b", "a", "ab", ""].iter().map(|s| s.to_string()).collect();
    assert_eq!(sort_texts(&v), vec!["", "a", "ab", "b"]);
    let row = |v: &[&str]| v.iter().map(|s| s.to_string()).collect::<Vec<_>>();
    assert_eq!(
        sort_rows(vec![row(&["b", "a"]), row(&["a", "z"]), row(&["a"])]),
        vec![row(&["a"]), row(&["a", "z"]), row(&["b", "a"])]
    );
}

#[test]
fn fresh_names_count_up() {
    let mut f = FreshVars::new();
    assert_eq!(f.take(), "_v0");
    let mut g = f.dup();
    assert_eq!(f.take(), "_v1");
    assert_eq!(g.take(), "_v1");
}

#[test]
fn members_are_replaced_in_place() {
    let j = Json::object().with("a", Json::Int(1)).with("b", Json::Int(2)).with("a", Json::Int(3));
    assert_eq!(j.int_at("a"), Some(3));
    assert!(j.get("c").is_none());
    assert_eq!(Json::Large(u64::MAX).as_int(), None);
    assert_eq!(Json::text("x").as_text(), Some("x"));
    assert_eq!(Json::list().and(Json::Null).as_text(), None);
}

#[test]
fn words_carry_tags() {
    assert_eq!(make_tagged_int(5), 41);
    assert_eq!(make_tagged_int(-1), -7);
    assert_eq!(make_tagged_atom(2), 19);
}

#[test]
fn every_occurrence_is_replaced_from_the_left() {
    assert_eq!(replace_all("aaa", "aa", "b"), "ba");
}

#[test]
fn symbols_are_mangled() {
    assert_eq!(mangle_symbol("a-b.c", "f?", 2), "lux_a_b_c_f__2");
    assert_eq!(mangle_symbol("abc", "apply", 2), "lux_abc_apply_2");
    assert_ne!(mangle_symbol("m", "f1", 0), mangle_symbol("m", "f", 10));
}

#[test]
fn atoms_keep_their_places() {
    let mut c = NativeCompiler::new();
    let first = c.intern_atom("some_atom");
    let second = c.intern_atom("other_atom");
    assert_eq!(second, first + 1);
    assert_eq!(c.intern_atom("some_atom"), first);
}

#[test]
fn the_runtime_calls_the_entry() {
    let text = generate_runtime_c(&vec!["ok".to_string(), "a\"b".to_string()], "lux_m_apply_2", 2);
    assert!(text.contains("lux_m_apply_2("));
    assert!(text.contains("\"ok\""));
    assert!(text.contains("a\\\"b"));
}
