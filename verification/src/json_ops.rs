use vstd::prelude::*;

use crate::json::{JsonModel, JsonValue};
use crate::table::{lemma_key_index_is, lemma_key_index_none, table_get};
use crate::text::text_eq;

verus! {

/// The models of the members of an object, in their order.
pub open spec fn members_view(members: Seq<(String, JsonValue)>) -> Seq<(Seq<char>, JsonModel)> {
    Seq::new(members.len(), |i: int| (members[i].0@, members[i].1@))
}

/// The models of the items of an array, in their order.
pub open spec fn items_view(items: Seq<JsonValue>) -> Seq<JsonModel> {
    Seq::new(items.len(), |i: int| items[i]@)
}

/// The member of an object under `key`; none for any other value.
pub open spec fn json_member(value: JsonModel, key: Seq<char>) -> Option<JsonModel> {
    match value {
        JsonModel::Object(members) => table_get(members, key),
        _ => None,
    }
}

/// The text of a string value.
pub open spec fn json_text(value: JsonModel) -> Option<Seq<char>> {
    match value {
        JsonModel::Text(t) => Some(t),
        _ => None,
    }
}

/// The truth value of a boolean value.
pub open spec fn json_bool(value: JsonModel) -> Option<bool> {
    match value {
        JsonModel::Bool(b) => Some(b),
        _ => None,
    }
}

/// The number of an integer value that fits a signed 64-bit integer.
pub open spec fn json_i64(value: JsonModel) -> Option<i64> {
    match value {
        JsonModel::Int(n) => if i64::MIN <= n <= i64::MAX {
            Some(n as i64)
        } else {
            None
        },
        _ => None,
    }
}

/// The number of an integer value that fits an unsigned 64-bit integer.
pub open spec fn json_u64(value: JsonModel) -> Option<u64> {
    match value {
        JsonModel::Int(n) => if 0 <= n <= u64::MAX {
            Some(n as u64)
        } else {
            None
        },
        _ => None,
    }
}

/// The model of an optional text as a JSON value: the text, or null.
pub open spec fn text_or_null_model(text: Option<Seq<char>>) -> JsonModel {
    match text {
        Some(t) => JsonModel::Text(t),
        None => JsonModel::Null,
    }
}

/// The model of a list of texts as a JSON array.
pub open spec fn texts_model(texts: Seq<Seq<char>>) -> JsonModel {
    JsonModel::Array(Seq::new(texts.len(), |i: int| JsonModel::Text(texts[i])))
}

impl DeepView for JsonValue {
    type V = JsonModel;

    open spec fn deep_view(&self) -> JsonModel {
        self@
    }
}

impl JsonValue {
    /// The member under `key`, where this is an object that has one.
    pub fn get(&self, key: &str) -> (member: Option<&JsonValue>)
        ensures
            match member {
                Some(v) => json_member(self@, key@) == Some(v@),
                None => json_member(self@, key@) is None,
            },
    {
        match self {
            JsonValue::Object(members) => {
                let ghost models = members_view(members@);
                assert(self@->Object_0 =~= models);
                let mut i: usize = 0;
                while i < members.len()
                    invariant
                        i <= members.len(),
                        models == members_view(members@),
                        self@->Object_0 == models,
                        self@ is Object,
                        forall|j: int| 0 <= j < i ==> models[j].0 != key@,
                    decreases members.len() - i,
                {
                    if text_eq(members[i].0.as_str(), key) {
                        proof {
                            lemma_key_index_is(models, key@, i as int);
                            assert(self@ == JsonModel::Object(models));
                            assert(models[i as int].1 == members@[i as int].1@);
                        }
                        return Some(&members[i].1);
                    }
                    i += 1;
                }
                proof {
                    lemma_key_index_none(models, key@);
                }
                None
            },
            _ => None,
        }
    }

    /// The text, where this is a string.
    pub fn as_str(&self) -> (text: Option<&str>)
        ensures
            match text {
                Some(t) => json_text(self@) == Some(t@),
                None => json_text(self@) is None,
            },
    {
        match self {
            JsonValue::Text(t) => Some(t.as_str()),
            _ => None,
        }
    }

    /// The truth value, where this is a boolean.
    pub fn as_bool(&self) -> (flag: Option<bool>)
        ensures
            flag == json_bool(self@),
    {
        match self {
            JsonValue::Bool(b) => Some(*b),
            _ => None,
        }
    }

    /// The number, where this is an integer that fits a signed 64-bit integer.
    pub fn as_i64(&self) -> (number: Option<i64>)
        ensures
            number == json_i64(self@),
    {
        match self {
            JsonValue::Int(n) => Some(*n),
            JsonValue::Uint(n) => if *n <= 0x7fff_ffff_ffff_ffffu64 {
                Some(*n as i64)
            } else {
                None
            },
            _ => None,
        }
    }

    /// The number, where this is an integer that fits an unsigned 64-bit integer.
    pub fn as_u64(&self) -> (number: Option<u64>)
        ensures
            number == json_u64(self@),
    {
        match self {
            JsonValue::Uint(n) => Some(*n),
            JsonValue::Int(n) => if *n >= 0 {
                Some(*n as u64)
            } else {
                None
            },
            _ => None,
        }
    }

    /// Whether this is an object.
    pub fn is_object(&self) -> (yes: bool)
        ensures
            yes == (self@ is Object),
    {
        match self {
            JsonValue::Object(_) => true,
            _ => false,
        }
    }

    /// A string value.
    pub fn text(text: &str) -> (value: JsonValue)
        ensures
            value@ == JsonModel::Text(text@),
    {
        JsonValue::Text(text.to_owned())
    }

    /// The text as a string value, or null where there is none.
    pub fn text_or_null(text: &Option<String>) -> (value: JsonValue)
        ensures
            value@ == text_or_null_model(text.deep_view()),
    {
        match text {
            Some(t) => JsonValue::Text(t.clone()),
            None => JsonValue::Null,
        }
    }

    /// An array of string values.
    pub fn texts(texts: &Vec<String>) -> (value: JsonValue)
        ensures
            value@ == texts_model(texts.deep_view()),
    {
        let mut items: Vec<JsonValue> = Vec::new();
        let mut i: usize = 0;
        while i < texts.len()
            invariant
                i <= texts.len(),
                items.len() == i,
                forall|j: int| 0 <= j < i ==> items@[j]@ == JsonModel::Text(texts@[j]@),
            decreases texts.len() - i,
        {
            items.push(JsonValue::Text(texts[i].clone()));
            i += 1;
        }
        let value = JsonValue::Array(items);
        assert(value@->Array_0 =~= texts_model(texts.deep_view())->Array_0);
        value
    }

    /// An object without members.
    pub fn empty_object() -> (value: JsonValue)
        ensures
            value@ == JsonModel::Object(Seq::empty()),
    {
        let value = JsonValue::object(Vec::new());
        assert(value@->Object_0 =~= Seq::<(Seq<char>, JsonModel)>::empty());
        value
    }

    /// An object with the given members.
    pub fn object(members: Vec<(String, JsonValue)>) -> (value: JsonValue)
        ensures
            value@ == JsonModel::Object(members_view(members@)),
    {
        let ghost models = members_view(members@);
        let value = JsonValue::Object(members);
        assert(value@->Object_0 =~= models);
        value
    }
}

/// The members of an object under construction, none yet.
pub fn new_members() -> (members: Vec<(String, JsonValue)>)
    ensures
        members_view(members@) == Seq::<(Seq<char>, JsonModel)>::empty(),
{
    let members: Vec<(String, JsonValue)> = Vec::new();
    assert(members_view(members@) =~= Seq::<(Seq<char>, JsonModel)>::empty());
    members
}

/// Adds a member to the members of an object under construction.
pub fn push_member(members: &mut Vec<(String, JsonValue)>, key: &str, value: JsonValue)
    ensures
        members_view(final(members)@) == members_view(old(members)@).push((key@, value@)),
{
    members.push((key.to_owned(), value));
    assert(members_view(members@) =~= members_view(old(members)@).push((key@, value@)));
}

/// `serde_json::Value`: a JSON document as the outside crate holds it.
#[verifier::external_type_specification]
#[verifier::external_body]
pub struct ExOutsideValue(serde_json::Value);

/// `serde_json::Error`: why a text is no JSON.
#[verifier::external_type_specification]
#[verifier::external_body]
pub struct ExOutsideError(serde_json::Error);

/// The same document as a `serde_json::Value`, built variant by variant with
/// the constructors of `serde_json`; a decimal number is read back from its
/// text by `serde_json::from_str`.
#[verifier::external_body]
pub(crate) fn to_outside(value: &JsonValue) -> serde_json::Value {
    match value {
        JsonValue::Null => serde_json::Value::Null,
        JsonValue::Bool(b) => serde_json::Value::Bool(*b),
        JsonValue::Int(n) => serde_json::Value::from(*n),
        JsonValue::Uint(n) => serde_json::Value::from(*n),
        JsonValue::Decimal(t) => serde_json::from_str(t).unwrap_or(serde_json::Value::Null),
        JsonValue::Text(t) => serde_json::Value::String(t.clone()),
        JsonValue::Array(items) => items.iter().map(to_outside).collect(),
        JsonValue::Object(members) => members.iter().map(|m| (m.0.clone(), to_outside(&m.1))).collect(),
    }
}

/// The same document as a [`JsonValue`], read variant by variant from a
/// `serde_json::Value`; a number that is no integer is kept as the text
/// that `serde_json::Number` writes.
#[verifier::external_body]
pub(crate) fn from_outside(value: &serde_json::Value) -> JsonValue {
    match value {
        serde_json::Value::Null => JsonValue::Null,
        serde_json::Value::Bool(b) => JsonValue::Bool(*b),
        serde_json::Value::Number(n) => n.as_i64().map(JsonValue::Int).or(n.as_u64().map(JsonValue::Uint))
            .unwrap_or_else(|| JsonValue::Decimal(n.to_string())),
        serde_json::Value::String(t) => JsonValue::Text(t.clone()),
        serde_json::Value::Array(items) => JsonValue::Array(items.iter().map(from_outside).collect()),
        serde_json::Value::Object(map) => JsonValue::Object(
            map.iter().map(|(k, v)| (k.clone(), from_outside(v))).collect(),
        ),
    }
}

/// The compact JSON text of a document, as `serde_json` writes it.
pub uninterp spec fn json_compact_text(value: JsonModel) -> Seq<char>;

/// What `serde_json::from_str` makes of a text: the document, or nothing
/// where the text is no JSON.
pub uninterp spec fn json_parsed(raw: Seq<char>) -> Option<JsonModel>;

/// `<serde_json::Value as Display>::to_string`: the compact JSON text.
#[verifier::external_body]
pub(crate) fn outside_compact_text(value: &JsonValue) -> (text: String)
    ensures
        text@ == json_compact_text(value@),
{
    to_outside(value).to_string()
}

/// `serde_json::from_str` to a `serde_json::Value`: the document that the
/// text denotes, or the parser's error.
#[verifier::external_body]
pub(crate) fn outside_parse(raw: &str) -> (parsed: Result<JsonValue, serde_json::Error>)
    ensures
        match parsed {
            Ok(value) => json_parsed(raw@) == Some(value@),
            Err(_) => json_parsed(raw@) is None,
        },
{
    serde_json::from_str::<serde_json::Value>(raw).map(|value| from_outside(&value))
}

/// `<serde_json::Error as Display>::to_string`: the parser's message.
#[verifier::external_body]
pub(crate) fn outside_error_text(error: &serde_json::Error) -> (text: String) {
    error.to_string()
}

impl JsonValue {
    /// The compact JSON text of this document.
    pub fn compact_text(&self) -> (text: String)
        ensures
            text@ == json_compact_text(self@),
    {
        outside_compact_text(self)
    }
}

/// Whether two documents have the same model.
#[verifier::loop_isolation(false)]
pub fn json_same(a: &JsonValue, b: &JsonValue) -> (same: bool)
    ensures
        same == (a@ == b@),
    decreases a,
{
    match (a, b) {
        (JsonValue::Null, JsonValue::Null) => true,
        (JsonValue::Bool(x), JsonValue::Bool(y)) => *x == *y,
        (JsonValue::Int(x), JsonValue::Int(y)) => *x == *y,
        (JsonValue::Uint(x), JsonValue::Uint(y)) => *x == *y,
        (JsonValue::Int(x), JsonValue::Uint(y)) => *x >= 0 && *x as u64 == *y,
        (JsonValue::Uint(x), JsonValue::Int(y)) => *y >= 0 && *y as u64 == *x,
        (JsonValue::Decimal(x), JsonValue::Decimal(y)) => text_eq(x.as_str(), y.as_str()),
        (JsonValue::Text(x), JsonValue::Text(y)) => text_eq(x.as_str(), y.as_str()),
        (JsonValue::Array(xs), JsonValue::Array(ys)) => {
            if xs.len() != ys.len() {
                assert(a@->Array_0.len() != b@->Array_0.len());
                return false;
            }
            let mut i: usize = 0;
            while i < xs.len()
                invariant
                    i <= xs.len(),
                    xs.len() == ys.len(),
                    forall|j: int| 0 <= j < i ==> xs@[j]@ == ys@[j]@,
                decreases xs.len() - i,
            {
                if !json_same(&xs[i], &ys[i]) {
                    assert(a@->Array_0[i as int] != b@->Array_0[i as int]);
                    return false;
                }
                i += 1;
            }
            assert(a@->Array_0 =~= b@->Array_0);
            true
        },
        (JsonValue::Object(xs), JsonValue::Object(ys)) => {
            if xs.len() != ys.len() {
                assert(a@->Object_0.len() != b@->Object_0.len());
                return false;
            }
            let mut i: usize = 0;
            while i < xs.len()
                invariant
                    i <= xs.len(),
                    xs.len() == ys.len(),
                    forall|j: int| 0 <= j < i ==> xs@[j].0@ == ys@[j].0@ && xs@[j].1@ == ys@[j].1@,
                decreases xs.len() - i,
            {
                if !text_eq(xs[i].0.as_str(), ys[i].0.as_str()) || !json_same(&xs[i].1, &ys[i].1) {
                    assert(a@->Object_0[i as int] != b@->Object_0[i as int]);
                    return false;
                }
                i += 1;
            }
            assert(a@->Object_0 =~= b@->Object_0);
            true
        },
        _ => false,
    }
}

} // verus!
