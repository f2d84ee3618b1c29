//! A plain tree of JSON data, decoded once at the library boundary.
//!
//! The engine's log records arrive as JSON text. Decoding the text is the
//! job of the `serde_json` crate; everything the engine then does with the
//! decoded tree is verified against the ghost model [`JsonModel`].

use vstd::prelude::*;

verus! {

/// One decoded JSON value. Numbers are kept exactly: unsigned and signed
/// integers as machine integers, anything fractional as its numeral text
/// (the engine never computes with fractional numbers, it only carries
/// them through).
pub enum JsonValue {
    Null,
    Bool(bool),
    Int(i64),
    UInt(u64),
    NumLit(String),
    Text(String),
    Arr(Vec<JsonValue>),
    Obj(Vec<(String, JsonValue)>),
}

/// The ghost model of a [`JsonValue`]: integers widen to `int`, strings
/// become character sequences.
pub enum JsonModel {
    Null,
    Bool(bool),
    Int(int),
    NumLit(Seq<char>),
    Text(Seq<char>),
    Arr(Seq<JsonModel>),
    Obj(Seq<(Seq<char>, JsonModel)>),
}

pub open spec fn json_model(j: JsonValue) -> JsonModel
    decreases j, 2int,
{
    match j {
        JsonValue::Null => JsonModel::Null,
        JsonValue::Bool(b) => JsonModel::Bool(b),
        JsonValue::Int(i) => JsonModel::Int(i as int),
        JsonValue::UInt(u) => JsonModel::Int(u as int),
        JsonValue::NumLit(s) => JsonModel::NumLit(s@),
        JsonValue::Text(s) => JsonModel::Text(s@),
        JsonValue::Arr(v) => JsonModel::Arr(json_model_seq(v@)),
        JsonValue::Obj(v) => JsonModel::Obj(json_model_entries(v@)),
    }
}

pub open spec fn json_model_seq(s: Seq<JsonValue>) -> Seq<JsonModel>
    decreases s, 1int,
{
    if s.len() == 0 {
        Seq::empty()
    } else {
        json_model_seq(s.drop_last()).push(json_model(s.last()))
    }
}

pub open spec fn json_model_entries(s: Seq<(String, JsonValue)>) -> Seq<(Seq<char>, JsonModel)>
    decreases s, 1int,
{
    if s.len() == 0 {
        Seq::empty()
    } else {
        json_model_entries(s.drop_last()).push((s.last().0@, json_model(s.last().1)))
    }
}

/// The two model helpers are plain element-wise maps.
pub broadcast proof fn lemma_json_model_seq(s: Seq<JsonValue>)
    ensures
        (#[trigger] json_model_seq(s)).len() == s.len(),
        forall|i: int| 0 <= i < s.len() ==> json_model_seq(s)[i] == json_model(s[i]),
    decreases s.len(),
{
    if s.len() > 0 {
        lemma_json_model_seq(s.drop_last());
    }
}

/// Entry models keep each key's characters and model each value.
pub broadcast proof fn lemma_json_model_entries(s: Seq<(String, JsonValue)>)
    ensures
        (#[trigger] json_model_entries(s)).len() == s.len(),
        forall|i: int| 0 <= i < s.len()
            ==> json_model_entries(s)[i] == (s[i].0@, json_model(s[i].1)),
    decreases s.len(),
{
    if s.len() > 0 {
        lemma_json_model_entries(s.drop_last());
    }
}

impl DeepView for JsonValue {
    type V = JsonModel;

    open spec fn deep_view(&self) -> JsonModel {
        json_model(*self)
    }
}

/// The value under `key` among object entries, keyed by the first
/// occurrence.
pub open spec fn lookup_entries(
    entries: Seq<(Seq<char>, JsonModel)>,
    key: Seq<char>,
) -> Option<JsonModel>
    decreases entries.len(),
{
    if entries.len() == 0 {
        None
    } else if entries[0].0 == key {
        Some(entries[0].1)
    } else {
        lookup_entries(entries.drop_first(), key)
    }
}

impl JsonModel {
    /// The value under `key`, if the model is an object and the key occurs.
    pub open spec fn lookup(self, key: Seq<char>) -> Option<JsonModel> {
        match self {
            JsonModel::Obj(entries) => lookup_entries(entries, key),
            _ => None,
        }
    }
}

#[verifier::external_type_specification]
#[verifier::external_body]
pub struct ExValue(serde_json::Value);

/// Relies on serde_json::Value: each variant of the decoded tree is moved
/// one-for-one into the library's own form; integral numbers through
/// Number::as_u64 / Number::as_i64, any other number as the decimal text
/// that Number renders to.
#[verifier::external_body]
fn value_to_json(v: serde_json::Value) -> JsonValue {
    match v {
        serde_json::Value::Null => JsonValue::Null,
        serde_json::Value::Bool(b) => JsonValue::Bool(b),
        serde_json::Value::Number(n) => match (n.as_u64(), n.as_i64()) {
            (Some(u), _) => JsonValue::UInt(u),
            (None, Some(i)) => JsonValue::Int(i),
            (None, None) => JsonValue::NumLit(n.to_string()),
        },
        serde_json::Value::String(s) => JsonValue::Text(s),
        serde_json::Value::Array(a) => JsonValue::Arr(a.into_iter().map(value_to_json).collect()),
        serde_json::Value::Object(m) => JsonValue::Obj(
            m.into_iter().map(|(k, x)| (k, value_to_json(x))).collect(),
        ),
    }
}

/// The document a text decodes to, if any. Decoding is a function of the
/// text alone in this build: objects collect into an ordered map with the
/// last duplicate key winning, numbers resolve by their value, and a
/// malformed or too-deep text is refused. Stated only by [`parse_json`].
pub uninterp spec fn json_doc_of(s: Seq<char>) -> Option<JsonModel>;

/// Relies on serde_json::from_str::<serde_json::Value>: decodes one JSON
/// document from text, or fails, and depends on the text alone; the
/// decoded tree is converted one-for-one into the library's own form.
#[verifier::external_body]
pub(crate) fn parse_json(s: &str) -> (r: Option<JsonValue>)
    ensures
        match r {
            Some(v) => json_doc_of(s@) == Some(v.deep_view()),
            None => json_doc_of(s@) is None,
        },
{
    match serde_json::from_str::<serde_json::Value>(s) {
        Ok(v) => Some(value_to_json(v)),
        Err(_) => None,
    }
}

/// Character-for-character equality of two string slices.
pub fn str_eq(a: &str, b: &str) -> (r: bool)
    ensures
        r == (a@ == b@),
{
    let owned_a: String = a.to_owned();
    let owned_b: String = b.to_owned();
    owned_a == owned_b
}

impl JsonValue {
    /// The value under `key`, if this is an object and the key occurs.
    pub fn get<'a>(&'a self, key: &str) -> (r: Option<&'a JsonValue>)
        ensures
            match r {
                Some(v) => self.deep_view().lookup(key@) == Some(v.deep_view()) && (self
                    is Obj && exists|i: int|
                    0 <= i < self->Obj_0@.len() && *v == self->Obj_0@[i].1),
                None => self.deep_view().lookup(key@) is None,
            },
    {
        match self {
            JsonValue::Obj(entries) => {
                let ghost m = self.deep_view()->Obj_0;
                proof {
                    lemma_json_model_entries(entries@);
                    assert(m.skip(0) =~= m);
                }
                let n = entries.len();
                for i in 0..n
                    invariant
                        n == entries.len(),
                        m.len() == entries.len(),
                        forall|k: int| 0 <= k < entries@.len()
                            ==> m[k] == (entries@[k].0@, json_model(entries@[k].1)),
                        forall|k: int| 0 <= k < i ==> m[k].0 != key@,
                        lookup_entries(m, key@) == lookup_entries(m.skip(i as int), key@),
                {
                    if str_eq(entries[i].0.as_str(), key) {
                        assert(m.skip(i as int)[0] == m[i as int]);
                        assert(*self is Obj && entries@[i as int].1 == self->Obj_0@[i as int].1);
                        return Some(&entries[i].1);
                    }
                    assert(m.skip(i as int).drop_first() =~= m.skip(i + 1));
                }
                assert(m.skip(n as int).len() == 0);
                None
            },
            _ => None,
        }
    }
}

} // verus!
