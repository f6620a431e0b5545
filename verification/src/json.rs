//! JSON values.
use vstd::prelude::*;
use crate::names::text_of;
use crate::text::{same, texts};

verus! {

/// A JSON value.
#[derive(Debug)]
pub enum Json {
    Null,
    Bool(bool),
    Int(i64),
    /// An integer above those of [`Json::Int`].
    Large(u64),
    /// Any other number, as it is written.
    Real(String),
    Text(String),
    List(Vec<Json>),
    /// The members; a later one hides an earlier one with its name.
    Object(Vec<(String, Json)>),
}

/// The model of [`Json`].
pub enum Data {
    Null,
    Bool(bool),
    Int(int),
    Large(nat),
    Real(Seq<char>),
    Text(Seq<char>),
    List(Seq<Data>),
    Object(Seq<(Seq<char>, Data)>),
}

pub open spec fn data_of(j: Json) -> Data
    decreases j,
{
    match j {
        Json::Null => Data::Null,
        Json::Bool(b) => Data::Bool(b),
        Json::Int(n) => Data::Int(n as int),
        Json::Large(n) => Data::Large(n as nat),
        Json::Real(s) => Data::Real(s@),
        Json::Text(s) => Data::Text(s@),
        Json::List(items) => Data::List(list_of(items@)),
        Json::Object(members) => Data::Object(members_of(members@)),
    }
}

pub open spec fn list_of(s: Seq<Json>) -> Seq<Data>
    decreases s,
{
    if s.len() == 0 {
        Seq::empty()
    } else {
        list_of(s.drop_last()).push(data_of(s.last()))
    }
}

pub open spec fn members_of(s: Seq<(String, Json)>) -> Seq<(Seq<char>, Data)>
    decreases s,
{
    if s.len() == 0 {
        Seq::empty()
    } else {
        members_of(s.drop_last()).push((s.last().0@, data_of(s.last().1)))
    }
}

pub proof fn lemma_list(s: Seq<Json>)
    ensures
        list_of(s).len() == s.len(),
        forall|i: int| 0 <= i < s.len() ==> #[trigger] list_of(s)[i] == data_of(s[i]),
    decreases s.len(),
{
    if s.len() > 0 {
        lemma_list(s.drop_last());
    }
}

/// The last member with a name.
pub open spec fn member(s: Seq<(Seq<char>, Data)>, name: Seq<char>) -> Option<Data>
    decreases s.len(),
{
    if s.len() == 0 {
        None
    } else if s.last().0 == name {
        Some(s.last().1)
    } else {
        member(s.drop_last(), name)
    }
}

/// A member of a value, if it is an object that has it.
pub open spec fn get(d: Data, name: Seq<char>) -> Option<Data> {
    match d {
        Data::Object(s) => member(s, name),
        _ => None,
    }
}

/// A member of a value, or null.
pub open spec fn at(d: Data, name: Seq<char>) -> Data {
    match get(d, name) {
        Some(v) => v,
        None => Data::Null,
    }
}

pub open spec fn text_in(d: Data) -> Option<Seq<char>> {
    match d {
        Data::Text(s) => Some(s),
        _ => None,
    }
}

pub open spec fn int_in(d: Data) -> Option<int> {
    match d {
        Data::Int(n) => Some(n),
        _ => None,
    }
}

pub open spec fn bool_in(d: Data) -> Option<bool> {
    match d {
        Data::Bool(b) => Some(b),
        _ => None,
    }
}

/// A number that is not negative.
pub open spec fn count_in(d: Data) -> Option<int> {
    match d {
        Data::Int(n) => if n >= 0 {
            Some(n)
        } else {
            None
        },
        Data::Large(n) => Some(n as int),
        _ => None,
    }
}

pub open spec fn list_in(d: Data) -> Option<Seq<Data>> {
    match d {
        Data::List(s) => Some(s),
        _ => None,
    }
}

impl Data {
    /// The object with one more member.
    pub open spec fn with(self, name: Seq<char>, v: Data) -> Data {
        match self {
            Data::Object(s) => Data::Object(s.push((name, v))),
            _ => self,
        }
    }

    /// The list with one more item.
    pub open spec fn and(self, v: Data) -> Data {
        match self {
            Data::List(s) => Data::List(s.push(v)),
            _ => self,
        }
    }
}

pub open spec fn object() -> Data {
    Data::Object(Seq::empty())
}

pub open spec fn list() -> Data {
    Data::List(Seq::empty())
}

/// A text, or null.
pub open spec fn text_or_null(s: Option<Seq<char>>) -> Data {
    match s {
        Some(t) => Data::Text(t),
        None => Data::Null,
    }
}

/// An integer, or null.
pub open spec fn int_or_null(n: Option<int>) -> Data {
    match n {
        Some(i) => Data::Int(i),
        None => Data::Null,
    }
}

/// A list of texts.
pub open spec fn text_list(s: Seq<Seq<char>>) -> Data {
    Data::List(Seq::new(s.len(), |i: int| Data::Text(s[i])))
}

/// The texts among the items.
pub open spec fn texts_among(s: Seq<Data>) -> Seq<Seq<char>>
    decreases s.len(),
{
    if s.len() == 0 {
        Seq::empty()
    } else {
        match s.last() {
            Data::Text(t) => texts_among(s.drop_last()).push(t),
            _ => texts_among(s.drop_last()),
        }
    }
}

/// The integer behind an optional number.
pub open spec fn int_of(n: Option<i64>) -> Option<int> {
    match n {
        Some(i) => Some(i as int),
        None => None,
    }
}

impl Json {
    pub fn object() -> (r: Json)
        ensures
            data_of(r) == object(),
    {
        let members: Vec<(String, Json)> = Vec::new();
        assert(members_of(members@) =~= Seq::empty());
        Json::Object(members)
    }

    pub fn list() -> (r: Json)
        ensures
            data_of(r) == list(),
    {
        let items: Vec<Json> = Vec::new();
        assert(list_of(items@) =~= Seq::empty());
        Json::List(items)
    }

    pub fn text(s: &str) -> (r: Json)
        ensures
            data_of(r) == Data::Text(s@),
    {
        Json::Text(s.to_owned())
    }

    /// The object with one more member.
    pub fn with(self, name: &str, value: Json) -> (r: Json)
        ensures
            data_of(r) == data_of(self).with(name@, data_of(value)),
    {
        match self {
            Json::Object(members) => {
                let mut members = members;
                let ghost before = members@;
                members.push((name.to_owned(), value));
                assert(members@.drop_last() =~= before);
                Json::Object(members)
            },
            other => other,
        }
    }

    /// The list with one more item.
    pub fn and(self, value: Json) -> (r: Json)
        ensures
            data_of(r) == data_of(self).and(data_of(value)),
    {
        match self {
            Json::List(items) => {
                let mut items = items;
                let ghost before = items@;
                items.push(value);
                assert(items@.drop_last() =~= before);
                Json::List(items)
            },
            other => other,
        }
    }

    /// A member, if the value is an object that has it.
    pub fn get(&self, name: &str) -> (r: Option<&Json>)
        ensures
            r matches Some(v) ==> get(data_of(*self), name@) == Some(data_of(*v)),
            r is None ==> get(data_of(*self), name@) is None,
    {
        match self {
            Json::Object(members) => {
                let ghost all = members@;
                let mut i: usize = members.len();
                assert(all.take(i as int) =~= all);
                while i > 0
                    invariant
                        i <= members@.len(),
                        all == members@,
                        member(members_of(all), name@) == member(
                            members_of(all.take(i as int)),
                            name@,
                        ),
                        data_of(*self) == Data::Object(members_of(members@)),
                    decreases i,
                {
                    i = i - 1;
                    assert(all.take(i as int + 1).drop_last() =~= all.take(i as int));
                    assert(members_of(all.take(i as int + 1)).drop_last() =~= members_of(
                        all.take(i as int),
                    ));
                    if same(members[i].0.as_str(), name) {
                        return Some(&members[i].1);
                    }
                }
                None
            },
            _ => None,
        }
    }

    /// The text of a member, if it is one.
    pub fn text_at(&self, name: &str) -> (r: Option<&str>)
        ensures
            r matches Some(s) ==> text_in(at(data_of(*self), name@)) == Some(s@),
            r is None ==> text_in(at(data_of(*self), name@)) is None,
    {
        match self.get(name) {
            Some(v) => v.as_text(),
            None => None,
        }
    }

    pub fn int_at(&self, name: &str) -> (r: Option<i64>)
        ensures
            int_of(r) == int_in(at(data_of(*self), name@)),
    {
        match self.get(name) {
            Some(v) => v.as_int(),
            None => None,
        }
    }

    pub fn bool_at(&self, name: &str) -> (r: Option<bool>)
        ensures
            r == bool_in(at(data_of(*self), name@)),
    {
        match self.get(name) {
            Some(v) => match v {
                Json::Bool(b) => Some(*b),
                _ => None,
            },
            None => None,
        }
    }

    pub fn list_at(&self, name: &str) -> (r: Option<&Vec<Json>>)
        ensures
            r matches Some(v) ==> list_in(at(data_of(*self), name@)) == Some(list_of(v@)),
            r is None ==> list_in(at(data_of(*self), name@)) is None,
    {
        match self.get(name) {
            Some(v) => match v {
                Json::List(items) => Some(items),
                _ => None,
            },
            None => None,
        }
    }

    pub fn as_text(&self) -> (r: Option<&str>)
        ensures
            r matches Some(s) ==> text_in(data_of(*self)) == Some(s@),
            r is None ==> text_in(data_of(*self)) is None,
    {
        match self {
            Json::Text(s) => Some(s.as_str()),
            _ => None,
        }
    }

    pub fn as_int(&self) -> (r: Option<i64>)
        ensures
            int_of(r) == int_in(data_of(*self)),
    {
        match self {
            Json::Int(n) => Some(*n),
            _ => None,
        }
    }

    pub fn count_at(&self, name: &str) -> (r: Option<u64>)
        ensures
            match r {
                Some(n) => count_in(at(data_of(*self), name@)) == Some(n as int),
                None => count_in(at(data_of(*self), name@)) is None,
            },
    {
        match self.get(name) {
            Some(v) => match v {
                Json::Int(n) => if *n >= 0 {
                    Some(*n as u64)
                } else {
                    None
                },
                Json::Large(n) => Some(*n),
                _ => None,
            },
            None => None,
        }
    }

    /// A copy.
    pub fn dup(&self) -> (r: Json)
        ensures
            data_of(r) == data_of(*self),
        decreases self,
    {
        match self {
            Json::Null => Json::Null,
            Json::Bool(b) => Json::Bool(*b),
            Json::Int(n) => Json::Int(*n),
            Json::Large(n) => Json::Large(*n),
            Json::Real(s) => Json::Real(s.clone()),
            Json::Text(s) => Json::Text(s.clone()),
            Json::List(items) => {
                let mut out: Vec<Json> = Vec::new();
                let mut i: usize = 0;
                while i < items.len()
                    invariant
                        i <= items@.len(),
                        self matches Json::List(v) && v == items,
                        list_of(out@) == list_of(items@.take(i as int)),
                    decreases items@.len() - i,
                {
                    let ghost before = out@;
                    assert(items@.take(i as int + 1).drop_last() =~= items@.take(i as int));
                    assert(decreases_to!(*self => *items));
                    let x = items[i].dup();
                    out.push(x);
                    assert(out@.drop_last() =~= before);
                    i = i + 1;
                }
                assert(items@.take(i as int) =~= items@);
                Json::List(out)
            },
            Json::Object(members) => {
                let mut out: Vec<(String, Json)> = Vec::new();
                let mut i: usize = 0;
                while i < members.len()
                    invariant
                        i <= members@.len(),
                        self matches Json::Object(v) && v == members,
                        members_of(out@) == members_of(members@.take(i as int)),
                    decreases members@.len() - i,
                {
                    let ghost before = out@;
                    assert(members@.take(i as int + 1).drop_last() =~= members@.take(i as int));
                    let x = members[i].1.dup();
                    out.push((members[i].0.clone(), x));
                    assert(out@.drop_last() =~= before);
                    i = i + 1;
                }
                assert(members@.take(i as int) =~= members@);
                Json::Object(out)
            },
        }
    }
}

/// A text, or null.
pub fn text_value(s: &Option<String>) -> (r: Json)
    ensures
        data_of(r) == text_or_null(text_of(*s)),
{
    match s {
        Some(t) => Json::Text(t.clone()),
        None => Json::Null,
    }
}

/// An integer, or null.
pub fn int_value(n: Option<i64>) -> (r: Json)
    ensures
        data_of(r) == int_or_null(int_of(n)),
{
    match n {
        Some(i) => Json::Int(i),
        None => Json::Null,
    }
}

/// A number that is not negative, as JSON.
pub open spec fn count(n: nat) -> Data {
    if n <= i64::MAX {
        Data::Int(n as int)
    } else {
        Data::Large(n)
    }
}

/// A number that is not negative, as JSON.
pub fn count_value(n: u64) -> (r: Json)
    ensures
        data_of(r) == count(n as nat),
{
    if n <= i64::MAX as u64 {
        Json::Int(n as i64)
    } else {
        Json::Large(n)
    }
}

/// A list of texts.
pub fn texts_value(v: &Vec<String>) -> (r: Json)
    ensures
        data_of(r) == text_list(texts(v@)),
{
    let mut out: Vec<Json> = Vec::new();
    let mut i: usize = 0;
    while i < v.len()
        invariant
            i <= v@.len(),
            out@.len() == i,
            forall|k: int| 0 <= k < i ==> #[trigger] data_of(out@[k]) == Data::Text(v@[k]@),
        decreases v@.len() - i,
    {
        out.push(Json::Text(v[i].clone()));
        i = i + 1;
    }
    proof {
        lemma_list(out@);
        assert(list_of(out@) =~= Seq::new(v@.len(), |k: int| Data::Text(texts(v@)[k])));
    }
    Json::List(out)
}

/// The texts among the items of a list.
pub fn text_items(v: &Vec<Json>) -> (r: Vec<String>)
    ensures
        texts(r@) == texts_among(list_of(v@)),
{
    let ghost all = list_of(v@);
    proof {
        lemma_list(v@);
    }
    let mut out: Vec<String> = Vec::new();
    let mut i: usize = 0;
    assert(texts(out@) =~= texts_among(all.take(0)));
    while i < v.len()
        invariant
            i <= v@.len(),
            all == list_of(v@),
            all.len() == v@.len(),
            forall|k: int| 0 <= k < v@.len() ==> #[trigger] all[k] == data_of(v@[k]),
            texts(out@) == texts_among(all.take(i as int)),
        decreases v@.len() - i,
    {
        assert(all.take(i as int + 1).drop_last() =~= all.take(i as int));
        assert(all.take(i as int + 1).last() == all[i as int]);
        let ghost before = texts(out@);
        match v[i].as_text() {
            Some(s) => {
                out.push(s.to_owned());
                assert(texts(out@) =~= before.push(s@));
            },
            None => {},
        }
        i = i + 1;
    }
    assert(all.take(i as int) =~= all);
    out
}

} // verus!
