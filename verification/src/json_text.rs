//! JSON as text: reading it, and writing it.
use vstd::prelude::*;
use serde_json::Value;
use crate::json::{bool_in, count_in, data_of, list_of, member, members_of, Data, Json};
use crate::order::{text_less, text_total, text_transitive};

verus! {

/// A JSON value of serde_json.
#[verifier::external_type_specification]
#[verifier::external_body]
pub struct ExValue(serde_json::Value);

/// Why a text is not JSON.
#[verifier::external_type_specification]
#[verifier::external_body]
pub struct ExError(serde_json::Error);

/// What a value holds. An integer is [`Data::Int`] where it can be, and another
/// number is known by how it is written. The members of an object have different
/// names and stand in their order.
pub uninterp spec fn held(v: serde_json::Value) -> Data;

/// What an error says.
pub uninterp spec fn said(e: serde_json::Error) -> Seq<char>;

/// What a text reads as, or what is said of it.
pub uninterp spec fn reading(text: Seq<char>) -> Result<Data, Seq<char>>;

/// How data is written with lines and indentation, if it can be.
pub uninterp spec fn indented(d: Data) -> Option<Seq<char>>;

/// How data is written on one line.
pub uninterp spec fn flat(d: Data) -> Seq<char>;

/// [`serde_json::from_str`] for a [`Value`]: what comes out depends on the text
/// alone.
#[verifier::external_body]
fn parsed(text: &str) -> (r: Result<Value, serde_json::Error>)
    ensures
        match r {
            Ok(v) => reading(text@) == Ok::<Data, Seq<char>>(held(v)),
            Err(e) => reading(text@) == Err::<Data, Seq<char>>(said(e)),
        },
{
    serde_json::from_str(text)
}

/// The `Display` of [`serde_json::Error`]: the words of the error.
#[verifier::external_body]
fn error_words(e: &serde_json::Error) -> (r: String)
    ensures
        r@ == said(*e),
{
    e.to_string()
}

/// [`serde_json::to_string_pretty`]: what comes out, and whether something does,
/// depends on what the value holds.
#[verifier::external_body]
fn written(v: &Value) -> (r: Result<String, serde_json::Error>)
    ensures
        match r {
            Ok(t) => indented(held(*v)) == Some(t@),
            Err(_) => indented(held(*v)) is None,
        },
{
    serde_json::to_string_pretty(v)
}

/// The `Display` of [`Value`]: the value on one line. It depends on what the
/// value holds. A number that is no integer is known by this text.
#[verifier::external_body]
fn shown(v: &Value) -> (r: String)
    ensures
        r@ == flat(held(*v)),
        held(*v) matches Data::Real(s) ==> r@ == s,
{
    v.to_string()
}

/// [`Value::is_null`]: whether the value is null.
#[verifier::external_body]
fn is_null(v: &Value) -> (r: bool)
    ensures
        r == (held(*v) is Null),
{
    v.is_null()
}

/// [`Value::as_bool`]: the truth value, if it is one.
#[verifier::external_body]
fn as_bool(v: &Value) -> (r: Option<bool>)
    ensures
        r == bool_in(held(*v)),
{
    v.as_bool()
}

/// [`Value::as_i64`]: the integer, if it is one and an `i64` holds it.
#[verifier::external_body]
fn as_i64(v: &Value) -> (r: Option<i64>)
    ensures
        match r {
            Some(n) => held(*v) == Data::Int(n as int),
            None => !(held(*v) is Int),
        },
{
    v.as_i64()
}

/// [`Value::as_u64`]: the integer, if it is one and a `u64` holds it.
#[verifier::external_body]
fn as_u64(v: &Value) -> (r: Option<u64>)
    ensures
        match r {
            Some(n) => count_in(held(*v)) == Some(n as int),
            None => count_in(held(*v)) is None,
        },
{
    v.as_u64()
}

/// [`Value::as_str`]: the text, if it is one.
#[verifier::external_body]
fn as_text(v: &Value) -> (r: Option<&str>)
    ensures
        match r {
            Some(s) => held(*v) == Data::Text(s@),
            None => !(held(*v) is Text),
        },
{
    v.as_str()
}

/// [`Value::as_array`]: the items, if it is a list.
#[verifier::external_body]
fn as_list(v: &Value) -> (r: Option<&Vec<Value>>)
    ensures
        match r {
            Some(items) => held(*v) == Data::List(all_held(items@)),
            None => !(held(*v) is List),
        },
{
    v.as_array()
}

/// [`Value::as_object`]: the members in the order of their names, if it is an
/// object.
#[verifier::external_body]
fn as_members(v: &Value) -> (r: Option<Vec<(String, Value)>>)
    ensures
        match r {
            Some(members) => held(*v) == Data::Object(pairs_held(members@)),
            None => !(held(*v) is Object),
        },
{
    v.as_object().map(|m| m.iter().map(|(k, v)| (k.clone(), v.clone())).collect())
}

/// [`Value::Null`].
#[verifier::external_body]
fn null_value() -> (r: Value)
    ensures
        held(r) == Data::Null,
{
    Value::Null
}

/// [`Value::Bool`].
#[verifier::external_body]
fn bool_value(b: bool) -> (r: Value)
    ensures
        held(r) == Data::Bool(b),
{
    Value::Bool(b)
}

/// [`Value::from`] for `i64`.
#[verifier::external_body]
fn i64_value(n: i64) -> (r: Value)
    ensures
        held(r) == Data::Int(n as int),
{
    Value::from(n)
}

/// [`Value::from`] for `u64`.
#[verifier::external_body]
fn u64_value(n: u64) -> (r: Value)
    ensures
        held(r) == counted(n as nat),
{
    Value::from(n)
}

/// [`Value::from`] for `&str`.
#[verifier::external_body]
fn str_value(s: &str) -> (r: Value)
    ensures
        held(r) == Data::Text(s@),
{
    Value::from(s)
}

/// [`Value::Array`].
#[verifier::external_body]
fn list_value(items: Vec<Value>) -> (r: Value)
    ensures
        held(r) == Data::List(all_held(items@)),
{
    Value::Array(items)
}

/// [`Value::Object`] of a new map: an object without members.
#[verifier::external_body]
fn empty_object() -> (r: Value)
    ensures
        held(r) == Data::Object(Seq::empty()),
{
    Value::Object(serde_json::Map::new())
}

/// [`serde_json::Map::insert`] on the members of an object: a member with the same
/// name gets the new value, and otherwise there is one more member. The members
/// stand in the order of their names.
#[verifier::external_body]
fn insert_member(v: &mut Value, name: String, member: Value)
    requires
        held(*old(v)) is Object,
    ensures
        held(*final(v)) == Data::Object(put(held(*old(v))->Object_0, (name@, held(member)))),
{
    if let Some(m) = v.as_object_mut() {
        m.insert(name, member);
    }
}

pub open spec fn all_held(s: Seq<Value>) -> Seq<Data> {
    Seq::new(s.len(), |i: int| held(s[i]))
}

pub open spec fn pairs_held(s: Seq<(String, Value)>) -> Seq<(Seq<char>, Data)> {
    Seq::new(s.len(), |i: int| (s[i].0@, held(s[i].1)))
}

/// A number that is not negative.
pub open spec fn counted(n: nat) -> Data {
    if n <= i64::MAX {
        Data::Int(n as int)
    } else {
        Data::Large(n)
    }
}

/// Members in the order of their names with one more, which takes the place of
/// one with the same name.
pub open spec fn put(s: Seq<(Seq<char>, Data)>, m: (Seq<char>, Data)) -> Seq<(Seq<char>, Data)>
    decreases s.len(),
{
    if s.len() == 0 {
        seq![m]
    } else if s.last().0 == m.0 {
        s.drop_last().push(m)
    } else if text_less(s.last().0, m.0) {
        s.push(m)
    } else {
        put(s.drop_last(), m).push(s.last())
    }
}

/// Members in the order of their names; the last one with a name stays.
pub open spec fn gathered(s: Seq<(Seq<char>, Data)>) -> Seq<(Seq<char>, Data)>
    decreases s.len(),
{
    if s.len() == 0 {
        Seq::empty()
    } else {
        put(gathered(s.drop_last()), s.last())
    }
}

/// Data as serde_json holds it.
pub open spec fn settled(d: Data) -> Data
    decreases d,
{
    match d {
        Data::Large(n) => counted(n),
        Data::Real(s) => match reading(s) {
            Ok(d) => d,
            Err(_) => Data::Null,
        },
        Data::List(s) => Data::List(settled_all(s)),
        Data::Object(s) => Data::Object(gathered(settled_pairs(s))),
        _ => d,
    }
}

pub open spec fn settled_all(s: Seq<Data>) -> Seq<Data>
    decreases s,
{
    if s.len() == 0 {
        Seq::empty()
    } else {
        settled_all(s.drop_last()).push(settled(s.last()))
    }
}

pub open spec fn settled_pairs(s: Seq<(Seq<char>, Data)>) -> Seq<(Seq<char>, Data)>
    decreases s,
{
    if s.len() == 0 {
        Seq::empty()
    } else {
        settled_pairs(s.drop_last()).push((s.last().0, settled(s.last().1)))
    }
}

/// How data is written for people.
pub open spec fn pretty_of(d: Data) -> Seq<char> {
    match indented(settled(d)) {
        Some(t) => t,
        None => flat(settled(d)),
    }
}

/// The value of the library that holds what a value of serde_json holds.
pub fn json_of(v: &Value) -> (r: Json)
    ensures
        data_of(r) == held(*v),
    decreases held(*v), 1nat,
{
    match as_bool(v) {
        Some(b) => {
            return Json::Bool(b);
        },
        None => {},
    }
    match as_i64(v) {
        Some(n) => {
            return Json::Int(n);
        },
        None => {},
    }
    match as_u64(v) {
        Some(n) => {
            return Json::Large(n);
        },
        None => {},
    }
    match as_text(v) {
        Some(s) => {
            return Json::Text(s.to_owned());
        },
        None => {},
    }
    match as_list(v) {
        Some(items) => {
            return Json::List(items_of(items, Ghost(held(*v))));
        },
        None => {},
    }
    match as_members(v) {
        Some(members) => {
            return Json::Object(pairs_of(&members, Ghost(held(*v))));
        },
        None => {},
    }
    if is_null(v) {
        Json::Null
    } else {
        Json::Real(shown(v))
    }
}

fn items_of(items: &Vec<Value>, Ghost(whole): Ghost<Data>) -> (r: Vec<Json>)
    requires
        whole == Data::List(all_held(items@)),
    ensures
        list_of(r@) == all_held(items@),
    decreases whole, 0nat,
{
    let ghost s = all_held(items@);
    let mut out: Vec<Json> = Vec::new();
    let mut i: usize = 0;
    assert(s.take(0) =~= Seq::empty());
    while i < items.len()
        invariant
            i <= items@.len(),
            s == all_held(items@),
            whole == Data::List(s),
            list_of(out@) == s.take(i as int),
        decreases items@.len() - i,
    {
        assert(s[i as int] == held(items@[i as int]));
        assert(decreases_to!(whole => whole->List_0));
        assert(decreases_to!(s => s[i as int]));
        let j = json_of(&items[i]);
        let ghost before = out@;
        out.push(j);
        assert(out@.drop_last() =~= before);
        assert(s.take(i as int + 1) =~= s.take(i as int).push(s[i as int]));
        i = i + 1;
    }
    assert(s.take(i as int) =~= s);
    out
}

fn pairs_of(members: &Vec<(String, Value)>, Ghost(whole): Ghost<Data>) -> (r: Vec<(String, Json)>)
    requires
        whole == Data::Object(pairs_held(members@)),
    ensures
        members_of(r@) == pairs_held(members@),
    decreases whole, 0nat,
{
    let ghost s = pairs_held(members@);
    let mut out: Vec<(String, Json)> = Vec::new();
    let mut i: usize = 0;
    assert(s.take(0) =~= Seq::empty());
    while i < members.len()
        invariant
            i <= members@.len(),
            s == pairs_held(members@),
            whole == Data::Object(s),
            members_of(out@) == s.take(i as int),
        decreases members@.len() - i,
    {
        assert(s[i as int] == (members@[i as int].0@, held(members@[i as int].1)));
        assert(decreases_to!(whole => whole->Object_0));
        assert(decreases_to!(s => s[i as int]));
        assert(decreases_to!(s[i as int] => s[i as int].1));
        let j = json_of(&members[i].1);
        let ghost before = out@;
        out.push((members[i].0.clone(), j));
        assert(out@.drop_last() =~= before);
        assert(s.take(i as int + 1) =~= s.take(i as int).push(s[i as int]));
        i = i + 1;
    }
    assert(s.take(i as int) =~= s);
    out
}

/// The value of serde_json for a value of the library.
pub fn value_of(j: &Json) -> (r: Value)
    ensures
        held(r) == settled(data_of(*j)),
    decreases j,
{
    match j {
        Json::Null => null_value(),
        Json::Bool(b) => bool_value(*b),
        Json::Int(n) => i64_value(*n),
        Json::Large(n) => u64_value(*n),
        Json::Real(s) => match parsed(s.as_str()) {
            Ok(v) => v,
            Err(_) => null_value(),
        },
        Json::Text(s) => str_value(s.as_str()),
        Json::List(items) => {
            let mut out: Vec<Value> = Vec::new();
            let mut i: usize = 0;
            assert(items@.take(0) =~= Seq::empty());
            assert(all_held(out@) =~= Seq::empty());
            while i < items.len()
                invariant
                    i <= items@.len(),
                    j matches Json::List(v) && v == items,
                    all_held(out@) == settled_all(list_of(items@.take(i as int))),
                decreases items@.len() - i,
            {
                let ghost before = out@;
                let ghost front = items@.take(i as int);
                let ghost more = items@.take(i as int + 1);
                assert(more.drop_last() =~= front);
                assert(decreases_to!(*j => *items));
                let v = value_of(&items[i]);
                out.push(v);
                assert(all_held(out@) =~= all_held(before).push(held(v)));
                assert(list_of(more).drop_last() =~= list_of(front));
                i = i + 1;
            }
            assert(items@.take(i as int) =~= items@);
            list_value(out)
        },
        Json::Object(members) => {
            let mut out = empty_object();
            let mut i: usize = 0;
            assert(members@.take(0) =~= Seq::empty());
            while i < members.len()
                invariant
                    i <= members@.len(),
                    j matches Json::Object(v) && v == members,
                    held(out) == Data::Object(
                        gathered(settled_pairs(members_of(members@.take(i as int)))),
                    ),
                decreases members@.len() - i,
            {
                let ghost front = members@.take(i as int);
                let ghost more = members@.take(i as int + 1);
                assert(more.drop_last() =~= front);
                assert(decreases_to!(*j => *members));
                let v = value_of(&members[i].1);
                insert_member(&mut out, members[i].0.clone(), v);
                proof {
                    assert(members_of(more).drop_last() =~= members_of(front));
                    let a = settled_pairs(members_of(front));
                    let b = settled_pairs(members_of(more));
                    assert(b =~= a.push((more.last().0@, held(v))));
                    assert(b.drop_last() =~= a);
                }
                i = i + 1;
            }
            assert(members@.take(i as int) =~= members@);
            out
        },
    }
}

/// Reads a text; `Err` with what is wrong with it.
pub fn read_json(text: &str) -> (r: Result<Json, String>)
    ensures
        match reading(text@) {
            Ok(d) => r matches Ok(j) && data_of(j) == d,
            Err(words) => r matches Err(e) && e@ == words,
        },
{
    match parsed(text) {
        Ok(v) => Ok(json_of(&v)),
        Err(e) => Err(error_words(&e)),
    }
}

/// Writes a value for people.
pub fn pretty(j: &Json) -> (r: String)
    ensures
        r@ == pretty_of(data_of(*j)),
{
    let v = value_of(j);
    match written(&v) {
        Ok(t) => t,
        Err(_) => shown(&v),
    }
}

/// Writes a value on one line.
pub fn plain(j: &Json) -> (r: String)
    ensures
        r@ == flat(settled(data_of(*j))),
{
    shown(&value_of(j))
}

/// Whether members stand in the order of their names, which differ.
pub open spec fn ascending(s: Seq<(Seq<char>, Data)>) -> bool {
    forall|i: int, j: int|
        0 <= i < j < s.len() ==> text_less((#[trigger] s[i]).0, (#[trigger] s[j]).0)
}

proof fn put_ascends(s: Seq<(Seq<char>, Data)>, m: (Seq<char>, Data))
    requires
        ascending(s),
    ensures
        ascending(put(s, m)),
        forall|i: int|
            0 <= i < put(s, m).len() ==> (#[trigger] put(s, m)[i]).0 == m.0 || exists|k: int|
                0 <= k < s.len() && (#[trigger] s[k]).0 == put(s, m)[i].0,
        forall|name: Seq<char>| #[trigger]
            member(put(s, m), name) == if name == m.0 {
                Some(m.1)
            } else {
                member(s, name)
            },
    decreases s.len(),
{
    let r = put(s, m);
    if s.len() > 0 {
        let front = s.drop_last();
        let last = s.last();
        put_ascends(front, m);
        if last.0 == m.0 {
            assert(r.drop_last() =~= front);
            assert forall|name: Seq<char>| #[trigger] member(r, name) == if name == m.0 {
                Some(m.1)
            } else {
                member(s, name)
            } by {
            }
            assert forall|i: int| 0 <= i < r.len() implies (#[trigger] r[i]).0 == m.0 || exists|
                k: int,
            | 0 <= k < s.len() && (#[trigger] s[k]).0 == r[i].0 by {
                assert(s[i].0 == r[i].0);
            }
        } else if text_less(last.0, m.0) {
            assert(r.drop_last() =~= s);
            assert forall|name: Seq<char>| #[trigger] member(r, name) == if name == m.0 {
                Some(m.1)
            } else {
                member(s, name)
            } by {
            }
            assert forall|i: int, j: int| 0 <= i < j < r.len() implies text_less(
                (#[trigger] r[i]).0,
                (#[trigger] r[j]).0,
            ) by {
                if j == s.len() {
                    if i < s.len() - 1 {
                        text_transitive(s[i].0, last.0, m.0);
                    }
                }
            }
            assert forall|i: int| 0 <= i < r.len() implies (#[trigger] r[i]).0 == m.0 || exists|
                k: int,
            | 0 <= k < s.len() && (#[trigger] s[k]).0 == r[i].0 by {
                if i < s.len() {
                    assert(s[i].0 == r[i].0);
                }
            }
        } else {
            let f = put(front, m);
            assert(r.drop_last() =~= f);
            text_total(last.0, m.0);
            assert forall|i: int, j: int| 0 <= i < j < r.len() implies text_less(
                (#[trigger] r[i]).0,
                (#[trigger] r[j]).0,
            ) by {
                if j == f.len() {
                    assert(r[i] == f[i]);
                    if f[i].0 != m.0 {
                        let k = choose|k: int|
                            0 <= k < front.len() && (#[trigger] front[k]).0 == f[i].0;
                        assert(text_less(s[k].0, s[s.len() - 1].0));
                    }
                } else {
                    assert(r[i] == f[i] && r[j] == f[j]);
                }
            }
            assert forall|i: int| 0 <= i < r.len() implies (#[trigger] r[i]).0 == m.0 || exists|
                k: int,
            | 0 <= k < s.len() && (#[trigger] s[k]).0 == r[i].0 by {
                if i < f.len() {
                    assert(r[i] == f[i]);
                    if f[i].0 != m.0 {
                        let k = choose|k: int|
                            0 <= k < front.len() && (#[trigger] front[k]).0 == f[i].0;
                        assert(s[k].0 == r[i].0);
                    }
                } else {
                    assert(s[s.len() - 1].0 == r[i].0);
                }
            }
            assert forall|name: Seq<char>| #[trigger] member(r, name) == if name == m.0 {
                Some(m.1)
            } else {
                member(s, name)
            } by {
                assert(member(f, name) == if name == m.0 {
                    Some(m.1)
                } else {
                    member(front, name)
                });
            }
        }
    } else {
        assert(r.drop_last() =~= s);
            assert forall|name: Seq<char>| #[trigger] member(r, name) == if name == m.0 {
                Some(m.1)
            } else {
                member(s, name)
            } by {
            }
    }
}

/// Collecting members puts them in the order of their names, and a name means
/// what it meant.
pub proof fn gathering_keeps_members(s: Seq<(Seq<char>, Data)>)
    ensures
        ascending(gathered(s)),
        forall|name: Seq<char>| #[trigger] member(gathered(s), name) == member(s, name),
    decreases s.len(),
{
    if s.len() > 0 {
        gathering_keeps_members(s.drop_last());
        put_ascends(gathered(s.drop_last()), s.last());
    }
}

} // verus!
