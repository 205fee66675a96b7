//! JSON values as the DevTools protocol exchanges them, with the few lookups the
//! launcher makes: an object's member by key, and a value read as text, number
//! or flag.
use vstd::prelude::*;

verus! {

/// A JSON number: a non-negative integer, a negative integer, or any other
/// number kept as its JSON text.
#[derive(Debug)]
pub enum JsonNumber {
    PosInt(u64),
    NegInt(i64),
    Other(String),
}

/// A JSON value. Object members keep their order; where a key occurs more
/// than once, the lookups below see its first member.
#[derive(Debug)]
pub enum Json {
    Null,
    Bool(bool),
    Number(JsonNumber),
    Str(String),
    Array(Vec<Json>),
    Object(Vec<(String, Json)>),
}

/// The mathematical model of a JSON number.
pub enum NumberModel {
    PosInt(u64),
    NegInt(i64),
    Other(Seq<char>),
}

/// The mathematical model of a JSON value.
pub enum JsonModel {
    Null,
    Bool(bool),
    Number(NumberModel),
    Str(Seq<char>),
    Array(Seq<JsonModel>),
    Object(Seq<(Seq<char>, JsonModel)>),
}

pub open spec fn number_model(n: JsonNumber) -> NumberModel {
    match n {
        JsonNumber::PosInt(v) => NumberModel::PosInt(v),
        JsonNumber::NegInt(v) => NumberModel::NegInt(v),
        JsonNumber::Other(t) => NumberModel::Other(t@),
    }
}

pub open spec fn json_model(j: Json) -> JsonModel
    decreases j,
{
    match j {
        Json::Null => JsonModel::Null,
        Json::Bool(b) => JsonModel::Bool(b),
        Json::Number(n) => JsonModel::Number(number_model(n)),
        Json::Str(s) => JsonModel::Str(s@),
        Json::Array(items) => JsonModel::Array(items_model(items@)),
        Json::Object(members) => JsonModel::Object(members_model(members@)),
    }
}

pub open spec fn items_model(items: Seq<Json>) -> Seq<JsonModel>
    decreases items,
{
    if items.len() == 0 {
        Seq::empty()
    } else {
        proof {
            assert(decreases_to!(items => items[items.len() - 1]));
        }
        items_model(items.drop_last()).push(json_model(items.last()))
    }
}

pub open spec fn members_model(members: Seq<(String, Json)>) -> Seq<(Seq<char>, JsonModel)>
    decreases members,
{
    if members.len() == 0 {
        Seq::empty()
    } else {
        proof {
            assert(decreases_to!(members => members[members.len() - 1]));
        }
        members_model(members.drop_last()).push(
            (members.last().0@, json_model(members.last().1)),
        )
    }
}

pub proof fn lemma_members_model(members: Seq<(String, Json)>)
    ensures
        members_model(members).len() == members.len(),
        forall|i: int|
            0 <= i < members.len() ==> #[trigger] members_model(members)[i] == (
                members[i].0@,
                json_model(members[i].1),
            ),
    decreases members.len(),
{
    if members.len() > 0 {
        lemma_members_model(members.drop_last());
    }
}

impl View for Json {
    type V = JsonModel;

    open spec fn view(&self) -> JsonModel {
        json_model(*self)
    }
}

/// The value of the first member named `key`.
pub open spec fn member(members: Seq<(Seq<char>, JsonModel)>, key: Seq<char>) -> Option<JsonModel>
    decreases members.len(),
{
    if members.len() == 0 {
        None
    } else if members[0].0 == key {
        Some(members[0].1)
    } else {
        member(members.drop_first(), key)
    }
}

/// `Value::get` with a key: an object's member, nothing for any other value.
pub open spec fn get(v: JsonModel, key: Seq<char>) -> Option<JsonModel> {
    match v {
        JsonModel::Object(members) => member(members, key),
        _ => None,
    }
}

/// `get` through an optional value.
pub open spec fn get_in(v: Option<JsonModel>, key: Seq<char>) -> Option<JsonModel> {
    match v {
        Some(v) => get(v, key),
        None => None,
    }
}

/// `Value::as_str`.
pub open spec fn text_of(v: Option<JsonModel>) -> Option<Seq<char>> {
    match v {
        Some(JsonModel::Str(s)) => Some(s),
        _ => None,
    }
}

/// `Value::as_u64`.
pub open spec fn u64_of(v: Option<JsonModel>) -> Option<u64> {
    match v {
        Some(JsonModel::Number(NumberModel::PosInt(n))) => Some(n),
        _ => None,
    }
}

/// `Value::as_bool`.
pub open spec fn bool_of(v: Option<JsonModel>) -> Option<bool> {
    match v {
        Some(JsonModel::Bool(b)) => Some(b),
        _ => None,
    }
}

pub open spec fn opt_model(r: Option<&Json>) -> Option<JsonModel> {
    match r {
        Some(j) => Some(j@),
        None => None,
    }
}

impl Json {
    /// The member named `key` of an object; nothing for other values.
    pub fn get(&self, key: &str) -> (r: Option<&Json>)
        ensures
            opt_model(r) == get(self@, key@),
    {
        match self {
            Json::Object(members) => {
                let k = String::from_str(key);
                let n = members.len();
                let ghost ms = members_model(members@);
                proof {
                    lemma_members_model(members@);
                }
                assert(ms.subrange(0, n as int) =~= ms);
                assert(self@ == JsonModel::Object(ms));
                let mut i: usize = 0;
                while i < n
                    invariant
                        n == members@.len(),
                        i <= n,
                        ms.len() == n,
                        forall|t: int|
                            0 <= t < n ==> #[trigger] ms[t] == (
                                members@[t].0@,
                                json_model(members@[t].1),
                            ),
                        k@ == key@,
                        get(self@, key@) == member(ms, key@),
                        member(ms, key@) == member(ms.subrange(i as int, n as int), key@),
                    decreases n - i,
                {
                    assert(ms.subrange(i as int, n as int).drop_first() =~= ms.subrange(
                        i + 1,
                        n as int,
                    ));
                    if members[i].0 == k {
                        assert(ms.subrange(i as int, n as int)[0] == ms[i as int]);
                        assert(ms[i as int].0 == key@);
                        assert(member(ms.subrange(i as int, n as int), key@) == Some(ms[i as int].1));
                        return Some(&members[i].1);
                    }
                    i = i + 1;
                }
                None
            },
            _ => None,
        }
    }

    /// The text of a string value.
    pub fn as_str(&self) -> (r: Option<&str>)
        ensures
            match r {
                Some(s) => text_of(Some(self@)) == Some(s@),
                None => text_of(Some(self@)) is None,
            },
    {
        match self {
            Json::Str(s) => Some(s.as_str()),
            _ => None,
        }
    }

    /// A non-negative integer value.
    pub fn as_u64(&self) -> (r: Option<u64>)
        ensures
            r == u64_of(Some(self@)),
    {
        match self {
            Json::Number(JsonNumber::PosInt(n)) => Some(*n),
            _ => None,
        }
    }

    /// A boolean value.
    pub fn as_bool(&self) -> (r: Option<bool>)
        ensures
            r == bool_of(Some(self@)),
    {
        match self {
            Json::Bool(b) => Some(*b),
            _ => None,
        }
    }
}


pub open spec fn opt_owned_model(r: Option<Json>) -> Option<JsonModel> {
    match r {
        Some(j) => Some(j@),
        None => None,
    }
}

impl Json {
    /// The member named `key` of an object, taken out of it; nothing for other values.
    pub fn into_member(self, key: &str) -> (r: Option<Json>)
        ensures
            opt_owned_model(r) == get(self@, key@),
    {
        let ghost whole = self@;
        match self {
            Json::Object(members) => {
                let mut members = members;
                let k = String::from_str(key);
                let n = members.len();
                let ghost ms = members_model(members@);
                proof {
                    lemma_members_model(members@);
                }
                assert(ms.subrange(0, n as int) =~= ms);
                assert(whole == JsonModel::Object(ms));
                let mut i: usize = 0;
                while i < n
                    invariant
                        n == members@.len(),
                        i <= n,
                        ms.len() == n,
                        forall|t: int|
                            0 <= t < n ==> #[trigger] ms[t] == (
                                members@[t].0@,
                                json_model(members@[t].1),
                            ),
                        k@ == key@,
                        get(whole, key@) == member(ms, key@),
                        whole == self@,
                        member(ms, key@) == member(ms.subrange(i as int, n as int), key@),
                    decreases n - i,
                {
                    assert(ms.subrange(i as int, n as int).drop_first() =~= ms.subrange(
                        i + 1,
                        n as int,
                    ));
                    if members[i].0 == k {
                        assert(ms.subrange(i as int, n as int)[0] == ms[i as int]);
                        assert(ms[i as int].0 == key@);
                        assert(member(ms.subrange(i as int, n as int), key@) == Some(ms[i as int].1));
                        let ghost found = members@[i as int].1;
                        assert(json_model(found) == ms[i as int].1);
                        let (_, value) = members.remove(i);
                        assert(value == found);
                        return Some(value);
                    }
                    i = i + 1;
                }
                None
            },
            _ => None,
        }
    }
}

} // verus!
