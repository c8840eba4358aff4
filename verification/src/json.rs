//! JSON values as plain data, and the reading of a response body into one.
use crate::decimal::{parse_u64, parsed_u64};
use crate::text::{option_view, same_text, views};
use vstd::prelude::*;
use vstd::string::*;

verus! {

/// A JSON value. A number is kept as its text, so that nothing is rounded.
/// An object keeps its members in the order in which it was built.
#[derive(Debug, PartialEq)]
pub enum Json {
    Null,
    Bool(bool),
    Number(String),
    Text(String),
    Array(Vec<Json>),
    Object(Vec<(String, Json)>),
}

/// Mathematical model of a [`Json`] value. An object is its keys and, at the
/// same positions, its values.
#[verifier::ext_equal]
pub ghost enum JsonValue {
    Null,
    Bool(bool),
    Number(Seq<char>),
    Text(Seq<char>),
    Array(Seq<JsonValue>),
    Object(Seq<Seq<char>>, Seq<JsonValue>),
}

impl View for Json {
    type V = JsonValue;

    open spec fn view(&self) -> JsonValue
        decreases self,
    {
        match self {
            Json::Null => JsonValue::Null,
            Json::Bool(b) => JsonValue::Bool(*b),
            Json::Number(t) => JsonValue::Number(t@),
            Json::Text(t) => JsonValue::Text(t@),
            Json::Array(items) => JsonValue::Array(
                Seq::new(
                    items@.len(),
                    |i: int|
                        if 0 <= i < items@.len() {
                            items@[i].view()
                        } else {
                            JsonValue::Null
                        },
                ),
            ),
            Json::Object(members) => JsonValue::Object(
                Seq::new(members@.len(), |i: int| members@[i].0@),
                Seq::new(
                    members@.len(),
                    |i: int|
                        if 0 <= i < members@.len() {
                            members@[i].1.view()
                        } else {
                            JsonValue::Null
                        },
                ),
            ),
        }
    }
}

/// The value at the first position at which `keys` holds `name`.
pub open spec fn first_with_key(keys: Seq<Seq<char>>, values: Seq<JsonValue>, name: Seq<char>)
    -> Option<JsonValue>
    decreases keys.len(),
{
    if keys.len() == 0 || values.len() == 0 {
        None
    } else if keys[0] == name {
        Some(values[0])
    } else {
        first_with_key(keys.drop_first(), values.drop_first(), name)
    }
}

/// A key that stands at position `i` and nowhere before it gives the value
/// at position `i`.
pub proof fn lemma_member_at(keys: Seq<Seq<char>>, values: Seq<JsonValue>, i: int)
    requires
        0 <= i < keys.len(),
        keys.len() == values.len(),
        forall|j: int| 0 <= j < i ==> #[trigger] keys[j] != keys[i],
    ensures
        first_with_key(keys, values, keys[i]) == Some(values[i]),
    decreases i,
{
    if i > 0 {
        let rest_keys = keys.drop_first();
        let rest_values = values.drop_first();
        assert(rest_keys[i - 1] == keys[i]);
        assert(rest_values[i - 1] == values[i]);
        assert forall|j: int| 0 <= j < i - 1 implies #[trigger] rest_keys[j] != rest_keys[i
            - 1] by {
            assert(rest_keys[j] == keys[j + 1]);
        }
        lemma_member_at(rest_keys, rest_values, i - 1);
        assert(keys[0] != keys[i]);
    }
}

impl JsonValue {
    /// The member `name` of an object: the first one, should the key occur
    /// more than once. Nothing for a value that is no object.
    pub open spec fn member(self, name: Seq<char>) -> Option<JsonValue> {
        match self {
            JsonValue::Object(keys, values) => first_with_key(keys, values, name),
            _ => None,
        }
    }

    /// The member `name`, where a member that is `null` counts as left out.
    pub open spec fn present_member(self, name: Seq<char>) -> Option<JsonValue> {
        match self.member(name) {
            Some(JsonValue::Null) => None,
            other => other,
        }
    }

    /// The characters of a string.
    pub open spec fn as_text(self) -> Option<Seq<char>> {
        match self {
            JsonValue::Text(t) => Some(t),
            _ => None,
        }
    }

    /// The truth value of a boolean.
    pub open spec fn as_bool(self) -> Option<bool> {
        match self {
            JsonValue::Bool(b) => Some(b),
            _ => None,
        }
    }

    /// The number, where it is a whole number from 0 to `u64::MAX` written
    /// in digits alone.
    pub open spec fn as_u64(self) -> Option<u64> {
        match self {
            JsonValue::Number(t) => parsed_u64(t),
            _ => None,
        }
    }

    /// The elements of an array.
    pub open spec fn as_array(self) -> Option<Seq<JsonValue>> {
        match self {
            JsonValue::Array(items) => Some(items),
            _ => None,
        }
    }

    /// The member `name` where it is a string; nothing where it is left out
    /// or anything else.
    pub open spec fn text_member(self, name: Seq<char>) -> Option<Seq<char>> {
        match self.member(name) {
            Some(JsonValue::Text(t)) => Some(t),
            _ => None,
        }
    }

    /// The member `name` where it is a boolean; nothing where it is left out
    /// or anything else.
    pub open spec fn bool_member(self, name: Seq<char>) -> Option<bool> {
        match self.member(name) {
            Some(JsonValue::Bool(b)) => Some(b),
            _ => None,
        }
    }

    /// The member `name` where it may be left out: `Some(None)` where it is
    /// left out or `null`, `Some(Some(..))` where it is a string, and `None`
    /// where it is anything else.
    pub open spec fn optional_text_member(self, name: Seq<char>) -> Option<Option<Seq<char>>> {
        match self.present_member(name) {
            None => Some(None),
            Some(JsonValue::Text(t)) => Some(Some(t)),
            Some(_) => None,
        }
    }

    /// `true` for an object whose keys are all among `known`.
    pub open spec fn is_object_within(self, known: Seq<Seq<char>>) -> bool {
        match self {
            JsonValue::Object(keys, _) => forall|i: int|
                0 <= i < keys.len() ==> known.contains(#[trigger] keys[i]),
            _ => false,
        }
    }
}

/// The keys of the members of an object, in order.
pub open spec fn member_keys(members: Seq<(String, Json)>) -> Seq<Seq<char>> {
    Seq::new(members.len(), |i: int| members[i].0@)
}

/// The values of the members of an object, in order.
pub open spec fn member_values(members: Seq<(String, Json)>) -> Seq<JsonValue> {
    Seq::new(members.len(), |i: int| members[i].1@)
}

impl Json {
    /// The string with the characters of `text`.
    pub fn text(text: &str) -> (json: Json)
        ensures
            json@ == JsonValue::Text(text@),
    {
        Json::Text(text.to_owned())
    }

    /// The object with the given members, in their order.
    pub fn object(members: Vec<(String, Json)>) -> (json: Json)
        ensures
            json@ == JsonValue::Object(member_keys(members@), member_values(members@)),
    {
        let json = Json::Object(members);
        proof {
            assert(json@ is Object);
            assert(json@->Object_0 =~= member_keys(members@));
            assert(json@->Object_1 =~= member_values(members@));
        }
        json
    }

    /// The member `name` of an object: the first one, should the key occur
    /// more than once. Nothing for a value that is no object.
    pub fn member(&self, name: &str) -> (r: Option<&Json>)
        ensures
            option_view(r) == self@.member(name@),
    {
        match self {
            Json::Object(members) => {
                let ghost keys = self@->Object_0;
                let ghost values = self@->Object_1;
                let mut i: usize = 0;
                proof {
                    assert(keys.skip(0) == keys);
                    assert(values.skip(0) == values);
                }
                while i < members.len()
                    invariant
                        i <= members.len(),
                        self@ == JsonValue::Object(keys, values),
                        keys.len() == members@.len(),
                        values.len() == members@.len(),
                        forall|k: int| 0 <= k < keys.len() ==> #[trigger] keys[k] == members@[k].0@,
                        forall|k: int|
                            0 <= k < values.len() ==> #[trigger] values[k] == members@[k].1@,
                        first_with_key(keys, values, name@) == first_with_key(
                            keys.skip(i as int),
                            values.skip(i as int),
                            name@,
                        ),
                    decreases members.len() - i,
                {
                    proof {
                        assert(keys.skip(i as int)[0] == keys[i as int]);
                        assert(values.skip(i as int)[0] == values[i as int]);
                        assert(keys.skip(i as int).drop_first() == keys.skip(i + 1));
                        assert(values.skip(i as int).drop_first() == values.skip(i + 1));
                    }
                    if same_text(members[i].0.as_str(), name) {
                        return Some(&members[i].1);
                    }
                    i += 1;
                }
                None
            },
            _ => None,
        }
    }

    /// The member `name`, where a member that is `null` counts as left out.
    pub fn present_member(&self, name: &str) -> (r: Option<&Json>)
        ensures
            option_view(r) == self@.present_member(name@),
    {
        match self.member(name) {
            Some(Json::Null) => None,
            other => other,
        }
    }

    /// The characters of a string.
    pub fn as_text(&self) -> (r: Option<&String>)
        ensures
            option_view(r) == self@.as_text(),
    {
        match self {
            Json::Text(t) => Some(t),
            _ => None,
        }
    }

    /// The truth value of a boolean.
    pub fn as_bool(&self) -> (r: Option<bool>)
        ensures
            r == self@.as_bool(),
    {
        match self {
            Json::Bool(b) => Some(*b),
            _ => None,
        }
    }

    /// The number, where it is a whole number from 0 to `u64::MAX` written
    /// in digits alone.
    pub fn as_u64(&self) -> (r: Option<u64>)
        ensures
            r == self@.as_u64(),
    {
        match self {
            Json::Number(t) => parse_u64(t.as_str()),
            _ => None,
        }
    }

    /// The elements of an array.
    pub fn as_array(&self) -> (r: Option<&Vec<Json>>)
        ensures
            match r {
                Some(items) => self@.as_array() == Some(views(items@)),
                None => self@.as_array() is None,
            },
    {
        match self {
            Json::Array(items) => {
                assert(self@->Array_0 =~= views(items@));
                Some(items)
            },
            _ => None,
        }
    }

    /// A copy of the member `name` where it is a string.
    pub fn text_member(&self, name: &str) -> (r: Option<String>)
        ensures
            option_view(r) == self@.text_member(name@),
    {
        match self.member(name) {
            Some(Json::Text(t)) => Some(t.clone()),
            _ => None,
        }
    }

    /// The member `name` where it is a boolean.
    pub fn bool_member(&self, name: &str) -> (r: Option<bool>)
        ensures
            r == self@.bool_member(name@),
    {
        match self.member(name) {
            Some(Json::Bool(b)) => Some(*b),
            _ => None,
        }
    }

    /// A copy of the member `name` where it may be left out.
    pub fn optional_text_member(&self, name: &str) -> (r: Option<Option<String>>)
        ensures
            match r {
                Some(inner) => self@.optional_text_member(name@) == Some(option_view(inner)),
                None => self@.optional_text_member(name@) is None,
            },
    {
        match self.present_member(name) {
            None => Some(None),
            Some(Json::Text(t)) => Some(Some(t.clone())),
            Some(_) => None,
        }
    }

    /// `true` for an object whose keys are all among `known`.
    pub fn is_object_within(&self, known: &Vec<&str>) -> (r: bool)
        ensures
            r == self@.is_object_within(views(known@)),
    {
        match self {
            Json::Object(members) => {
                let ghost keys = self@->Object_0;
                let mut i: usize = 0;
                while i < members.len()
                    invariant
                        i <= members.len(),
                        self@ is Object,
                        self@->Object_0 == keys,
                        keys.len() == members@.len(),
                        forall|k: int| 0 <= k < keys.len() ==> #[trigger] keys[k] == members@[k].0@,
                        forall|k: int| 0 <= k < i ==> views(known@).contains(#[trigger] keys[k]),
                    decreases members.len() - i,
                {
                    let mut found = false;
                    let mut j: usize = 0;
                    while j < known.len() && !found
                        invariant
                            j <= known.len(),
                            i < members.len(),
                            !found ==> forall|k: int|
                                0 <= k < j ==> views(known@)[k] != members@[i as int].0@,
                            found ==> views(known@).contains(members@[i as int].0@),
                        decreases known.len() - j + if found { 0int } else { 1int },
                    {
                        if same_text(members[i].0.as_str(), known[j]) {
                            assert(views(known@)[j as int] == members@[i as int].0@);
                            found = true;
                        } else {
                            j += 1;
                        }
                    }
                    if !found {
                        assert(!views(known@).contains(keys[i as int]));
                        return false;
                    }
                    i += 1;
                }
                true
            },
            _ => false,
        }
    }
}

/// What `serde_json` makes of a document: the value that it parses `bytes`
/// into, or nothing where it refuses them.
pub uninterp spec fn document_value(bytes: Seq<u8>) -> Option<JsonValue>;

/// What a `serde_json::Value` holds, as a [`JsonValue`]: null, booleans,
/// strings, arrays and objects as they are, a number as the text that
/// `serde_json` prints for it.
pub uninterp spec fn value_model(value: serde_json::Value) -> JsonValue;

/// Makes `serde_json::Value` known as a type whose inside is not looked at.
#[verifier::external_type_specification]
#[verifier::external_body]
pub struct ExValue(serde_json::Value);

/// Parses a document with `serde_json`.
///
/// Trusted: stands for `serde_json::from_slice::<serde_json::Value>`, a
/// function of the bytes alone. The contract only names its outcome: the
/// contents of the value that it returns, or nothing where it returns an
/// error (malformed JSON, trailing characters, nesting deeper than its limit).
#[verifier::external_body]
fn read_document(body: &[u8]) -> (r: Option<serde_json::Value>)
    ensures
        match r {
            Some(value) => document_value(body@) == Some(value_model(value)),
            None => document_value(body@) is None,
        },
{
    serde_json::from_slice::<serde_json::Value>(body).ok()
}

/// Moves the contents of a `serde_json::Value` into a [`Json`].
///
/// Trusted: tells the six variants of `serde_json::Value` apart and moves
/// their fields over, with `Number`'s `to_string` for a number and the
/// members of an object in the order in which its map hands them out. The
/// contract names what the value holds.
#[verifier::external_body]
fn lift(value: serde_json::Value) -> (json: Json)
    ensures
        json@ == value_model(value),
{
    match value {
        serde_json::Value::Null => Json::Null,
        serde_json::Value::Bool(b) => Json::Bool(b),
        serde_json::Value::Number(n) => Json::Number(n.to_string()),
        serde_json::Value::String(s) => Json::Text(s),
        serde_json::Value::Array(items) => Json::Array(items.into_iter().map(lift).collect()),
        serde_json::Value::Object(map) => Json::Object(
            map.into_iter().map(|(k, v)| (k, lift(v))).collect(),
        ),
    }
}

/// Reads a document. Gives the value of a body that is one well-formed JSON
/// document, and nothing for any other body.
pub fn parse_json(body: &[u8]) -> (r: Option<Json>)
    ensures
        option_view(r) == document_value(body@),
{
    match read_document(body) {
        Some(value) => Some(lift(value)),
        None => None,
    }
}

} // verus!
