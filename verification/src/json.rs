//! A plain-value model of JSON documents.

use vstd::prelude::*;

verus! {

/// A JSON document held as plain values.
#[derive(Debug, PartialEq, Eq)]
pub enum JsonValue {
    Null,
    Bool(bool),
    /// A number, held by its canonical text.
    Number(String),
    Str(String),
    Array(Vec<JsonValue>),
    /// Members in document order; keys are unique in parsed documents.
    Object(Vec<(String, JsonValue)>),
}

/// The mathematical value of a JSON document.
pub enum Json {
    Null,
    Bool(bool),
    Number(Seq<char>),
    Str(Seq<char>),
    Array(Seq<Json>),
    Object(Seq<(Seq<char>, Json)>),
}

pub open spec fn json_view(v: JsonValue) -> Json
    decreases v,
{
    match v {
        JsonValue::Null => Json::Null,
        JsonValue::Bool(b) => Json::Bool(b),
        JsonValue::Number(n) => Json::Number(n@),
        JsonValue::Str(s) => Json::Str(s@),
        JsonValue::Array(items) => Json::Array(
            Seq::new(
                items@.len(),
                |i: int|
                    if 0 <= i < items@.len() {
                        proof {
                            vstd::std_specs::vec::axiom_vec_index_decreases(items, i);
                        }
                        json_view(items[i])
                    } else {
                        Json::Null
                    },
            ),
        ),
        JsonValue::Object(members) => Json::Object(
            Seq::new(
                members@.len(),
                |i: int|
                    if 0 <= i < members@.len() {
                        proof {
                            vstd::std_specs::vec::axiom_vec_index_decreases(members, i);
                        }
                        (members[i].0@, json_view(members[i].1))
                    } else {
                        (Seq::empty(), Json::Null)
                    },
            ),
        ),
    }
}

impl View for JsonValue {
    type V = Json;

    open spec fn view(&self) -> Json {
        json_view(*self)
    }
}

/// The value of an optional document.
pub open spec fn json_opt(o: Option<JsonValue>) -> Option<Json> {
    match o {
        Some(v) => Some(v@),
        None => None,
    }
}

/// The value of the first member named `key`.
pub open spec fn lookup(members: Seq<(Seq<char>, Json)>, key: Seq<char>) -> Option<Json>
    decreases members.len(),
{
    if members.len() == 0 {
        None
    } else if members[0].0 == key {
        Some(members[0].1)
    } else {
        lookup(members.drop_first(), key)
    }
}

impl Json {
    /// The member named `key` of an object; `None` for other values,
    /// as `serde_json::Value::get` with a string key answers.
    pub open spec fn member(self, key: Seq<char>) -> Option<Json> {
        match self {
            Json::Object(members) => lookup(members, key),
            _ => None,
        }
    }

    /// The text of a string value, as `serde_json::Value::as_str` answers.
    pub open spec fn text(self) -> Option<Seq<char>> {
        match self {
            Json::Str(s) => Some(s),
            _ => None,
        }
    }

    /// The text of the string member named `key`.
    pub open spec fn text_member(self, key: Seq<char>) -> Option<Seq<char>> {
        match self.member(key) {
            Some(m) => m.text(),
            None => None,
        }
    }
}

proof fn lemma_lookup_skip(members: Seq<(Seq<char>, Json)>, key: Seq<char>, i: int)
    requires
        0 <= i < members.len(),
        members[i].0 != key,
    ensures
        lookup(members.skip(i), key) == lookup(members.skip(i + 1), key),
{
    assert(members.skip(i).drop_first() =~= members.skip(i + 1));
}

impl JsonValue {
    /// The member named `key` of an object; `None` for other values.
    pub fn get(&self, key: &str) -> (found: Option<&JsonValue>)
        ensures
            match found {
                Some(v) => self@.member(key@) == Some(v@),
                None => self@.member(key@) is None,
            },
    {
        match self {
            JsonValue::Object(members) => {
                let wanted = key.to_owned();
                assert(self@ is Object);
                let ghost view_members = self@->Object_0;
                assert(view_members.skip(0) =~= view_members);
                let mut i: usize = 0;
                while i < members.len()
                    invariant
                        self@ == Json::Object(view_members),
                        wanted@ == key@,
                        i <= members@.len(),
                        view_members.len() == members@.len(),
                        forall|j: int|
                            0 <= j < members@.len() ==> #[trigger] view_members[j] == (
                                members@[j].0@,
                                json_view(members@[j].1),
                            ),
                        lookup(view_members, key@) == lookup(view_members.skip(i as int), key@),
                    decreases members@.len() - i,
                {
                    if members[i].0 == wanted {
                        let ghost rest = view_members.skip(i as int);
                        assert(rest[0] == view_members[i as int]);
                        return Some(&members[i].1);
                    }
                    proof {
                        lemma_lookup_skip(view_members, key@, i as int);
                    }
                    i = i + 1;
                }
                assert(view_members.skip(i as int).len() == 0);
                None
            },
            _ => None,
        }
    }

    /// The text of a string value.
    pub fn as_str(&self) -> (text: Option<&str>)
        ensures
            match text {
                Some(t) => self@.text() == Some(t@),
                None => self@.text() is None,
            },
    {
        match self {
            JsonValue::Str(s) => Some(s.as_str()),
            _ => None,
        }
    }

    /// The text of the string member named `key`.
    pub fn text_member(&self, key: &str) -> (text: Option<&str>)
        ensures
            match text {
                Some(t) => self@.text_member(key@) == Some(t@),
                None => self@.text_member(key@) is None,
            },
    {
        match self.get(key) {
            Some(member) => member.as_str(),
            None => None,
        }
    }
}

/// Looking up a key gives the value of its first member, and nothing where
/// no member has that key.
pub proof fn lemma_lookup_first(members: Seq<(Seq<char>, Json)>, key: Seq<char>, k: int)
    requires
        0 <= k < members.len(),
        members[k].0 == key,
        forall|j: int| 0 <= j < k ==> members[j].0 != key,
    ensures
        lookup(members, key) == Some(members[k].1),
    decreases k,
{
    if k > 0 {
        lemma_lookup_first(members.drop_first(), key, k - 1);
    }
}

/// Looking up a key that no member has gives nothing.
pub proof fn lemma_lookup_absent(members: Seq<(Seq<char>, Json)>, key: Seq<char>)
    requires
        forall|j: int| 0 <= j < members.len() ==> members[j].0 != key,
    ensures
        lookup(members, key) is None,
    decreases members.len(),
{
    if members.len() > 0 {
        lemma_lookup_absent(members.drop_first(), key);
    }
}

/// The values of an object's members.
pub open spec fn members_view(members: Seq<(String, JsonValue)>) -> Seq<(Seq<char>, Json)> {
    Seq::new(members.len(), |i: int| (members[i].0@, members[i].1@))
}

/// An object's value is made of its members' values.
pub proof fn lemma_object_view(members: Vec<(String, JsonValue)>)
    ensures
        JsonValue::Object(members)@ == Json::Object(members_view(members@)),
{
    assert(JsonValue::Object(members)@->Object_0 =~= members_view(members@));
}

/// The document that `serde_json::from_str` reads from `text`, or `None`
/// where it reports an error.
pub uninterp spec fn json_document(text: Seq<char>) -> Option<Json>;

#[verifier::external_type_specification]
#[verifier::external_body]
pub struct ExSerdeValue(serde_json::Value);

/// Reads one JSON document with `serde_json::from_str::<serde_json::Value>`.
/// Trusted: the result is the value `json_document` names for `text`
/// (numbers kept as their `Display` text, object members in the order that
/// `serde_json`'s map yields them).
#[verifier::external_body]
pub(crate) fn parse_json(text: &str) -> (parsed: Option<JsonValue>)
    ensures
        json_opt(parsed) == json_document(text@),
{
    match serde_json::from_str::<serde_json::Value>(text) {
        Ok(value) => Some(from_serde(&value)),
        Err(_) => None,
    }
}

/// Copies a `serde_json::Value` into plain values, variant by variant.
/// Trusted, with nothing stated: it serves `parse_json` alone.
#[verifier::external_body]
fn from_serde(value: &serde_json::Value) -> JsonValue {
    match value {
        serde_json::Value::Null => JsonValue::Null,
        serde_json::Value::Bool(b) => JsonValue::Bool(*b),
        serde_json::Value::Number(n) => JsonValue::Number(n.to_string()),
        serde_json::Value::String(s) => JsonValue::Str(s.clone()),
        serde_json::Value::Array(items) => JsonValue::Array(items.iter().map(from_serde).collect()),
        serde_json::Value::Object(map) => JsonValue::Object(
            map.iter().map(|(k, v)| (k.clone(), from_serde(v))).collect(),
        ),
    }
}

} // verus!
