//! Reading and writing JSON.
use lux::json::Json;
use lux::json_text::{json_of, plain, pretty, read_json, value_of};

fn read(text: &str) -> Json {
    read_json(text).unwrap()
}

#[test]
fn numbers_keep_their_kind() {
    assert!(matches!(read("-3"), Json::Int(-3)));
    assert!(matches!(read("9223372036854775807"), Json::Int(i64::MAX)));
    assert!(matches!(read("9223372036854775808"), Json::Large(9223372036854775808)));
    assert!(matches!(read("1.5"), Json::Real(text) if text == "1.5"));
    assert!(matches!(read("1e2"), Json::Real(text) if text == "100.0"));
}

#[test]
fn values_of_every_kind_are_read() {
    assert!(matches!(read("null"), Json::Null));
    assert!(matches!(read(" true "), Json::Bool(true)));
    assert_eq!(read("\"a\\nb\"").as_text(), Some("a\nb"));
    match read("[1, [], {}]") {
        Json::List(items) => {
            assert_eq!(items.len(), 3);
            assert_eq!(items[0].as_int(), Some(1));
            assert!(matches!(&items[1], Json::List(v) if v.is_empty()));
            assert!(matches!(&items[2], Json::Object(v) if v.is_empty()));
        }
        _ => panic!("no list"),
    }
}

#[test]
fn members_stand_in_the_order_of_their_names() {
    match read("{\"b\": 1, \"a\": 2, \"b\": 3}") {
        Json::Object(members) => {
            assert_eq!(members.len(), 2);
            assert_eq!(members[0].0, "a");
            assert_eq!(members[0].1.as_int(), Some(2));
            assert_eq!(members[1].0, "b");
            assert_eq!(members[1].1.as_int(), Some(3));
        }
        _ => panic!("no object"),
    }
}

#[test]
fn a_later_member_hides_an_earlier_one_when_written() {
    let j = Json::Object(vec![
        ("z".to_string(), Json::Int(1)),
        ("a".to_string(), Json::Bool(false)),
        ("z".to_string(), Json::text("last")),
    ]);
    assert_eq!(plain(&j), "{\"a\":false,\"z\":\"last\"}");
}

#[test]
fn values_are_written_with_indentation() {
    let j = Json::object()
        .with("list", Json::list().and(Json::Int(1)).and(Json::Null))
        .with("empty", Json::object());
    assert_eq!(
        pretty(&j),
        "{\n  \"empty\": {},\n  \"list\": [\n    1,\n    null\n  ]\n}"
    );
}

#[test]
fn a_number_that_is_no_integer_is_written_as_it_is_read() {
    assert_eq!(plain(&read("2.25")), "2.25");
    assert_eq!(plain(&Json::Real("nonsense".to_string())), "null");
}

#[test]
fn a_small_count_is_written_like_an_integer() {
    assert_eq!(plain(&Json::Large(5)), "5");
    assert!(matches!(json_of(&value_of(&Json::Large(5))), Json::Int(5)));
    assert_eq!(plain(&Json::Large(u64::MAX)), "18446744073709551615");
}

#[test]
fn what_is_wrong_with_a_text_is_said() {
    assert_eq!(
        read_json("[1,").err().unwrap(),
        "EOF while parsing a value at line 1 column 3"
    );
    assert_eq!(read_json("").err().unwrap(), "EOF while parsing a value at line 1 column 0");
}

#[test]
fn serde_values_go_in_and_out() {
    let value = serde_json::from_str::<serde_json::Value>("{\"k\": [true, 1.5, \"x\"]}").unwrap();
    assert_eq!(value_of(&json_of(&value)), value);
}
