//! JSON values, as far as the replies of other programs are read.
use crate::text;
use vstd::prelude::*;
use vstd::string::*;

verus! {

/// A JSON value. What a number is worth is not kept.
pub enum Json {
    Null,
    Bool(bool),
    Number,
    Text(String),
    List(Vec<Json>),
    Object(Vec<Member>),
}

/// A member of a JSON object.
pub struct Member {
    pub key: String,
    pub value: Json,
}

/// The JSON value that a text holds, if it is well-formed.
pub uninterp spec fn json_of(text: Seq<char>) -> Option<Json>;

/// What `serde_json::from_str` reads from a text: always the same value for the
/// same text, or nothing where the text is not well-formed JSON.
#[verifier::external_body]
pub(crate) fn parse_json(text: &str) -> (r: Option<Json>)
    ensures
        r == json_of(text@),
{
    match serde_json::from_str::<serde_json::Value>(text) {
        Ok(value) => Some(json_from(value)),
        Err(_) => None,
    }
}

/// A `serde_json::Value` as a value of this module, variant by variant. Nothing
/// is claimed of the result: the value that it is made from is opaque.
#[verifier::external_body]
fn json_from(value: serde_json::Value) -> Json {
    match value {
        serde_json::Value::Null => Json::Null,
        serde_json::Value::Bool(b) => Json::Bool(b),
        serde_json::Value::Number(_) => Json::Number,
        serde_json::Value::String(s) => Json::Text(s),
        serde_json::Value::Array(v) => Json::List(v.into_iter().map(json_from).collect()),
        serde_json::Value::Object(m) => Json::Object(
            m.into_iter().map(|(key, v)| Member { key, value: json_from(v) }).collect(),
        ),
    }
}

/// `serde_json::Value`, as it is handed from parsing to conversion.
#[verifier::external_type_specification]
#[verifier::external_body]
pub struct ExValue(serde_json::Value);

/// The text of a string value.
pub open spec fn text_of(j: Json) -> Option<Seq<char>> {
    match j {
        Json::Text(s) => Some(s@),
        _ => None,
    }
}

/// The last member with a key among the first `n`.
pub open spec fn member_from(ms: Seq<Member>, key: Seq<char>, n: int) -> Option<Json>
    decreases n,
{
    if n <= 0 || n > ms.len() {
        None
    } else if ms[n - 1].key@ == key {
        Some(ms[n - 1].value)
    } else {
        member_from(ms, key, n - 1)
    }
}

/// The member of an object with a key.
pub open spec fn member(j: Json, key: Seq<char>) -> Option<Json> {
    match j {
        Json::Object(ms) => member_from(ms@, key, ms@.len() as int),
        _ => None,
    }
}

/// The text of the member of an object with a key.
pub open spec fn member_text(j: Json, key: Seq<char>) -> Option<Seq<char>> {
    match member(j, key) {
        Some(v) => text_of(v),
        None => None,
    }
}

/// The elements of a list, or of the list that a member of an object is.
pub open spec fn rows_of(j: Json, key: Seq<char>) -> Seq<Json> {
    match j {
        Json::List(v) => v@,
        _ => match member(j, key) {
            Some(Json::List(v)) => v@,
            _ => seq![],
        },
    }
}

/// The member of an object with a key.
pub fn get<'a>(j: &'a Json, key: &str) -> (r: Option<&'a Json>)
    ensures
        match r {
            Some(v) => member(*j, key@) == Some(*v),
            None => member(*j, key@) is None,
        },
{
    match j {
        Json::Object(ms) => {
            let mut n: usize = ms.len();
            while n > 0
                invariant
                    0 <= n <= ms.len(),
                    *j == Json::Object(*ms),
                    member(*j, key@) == member_from(ms@, key@, n as int),
                decreases n,
            {
                if text::same(&ms[n - 1].key, key) {
                    return Some(&ms[n - 1].value);
                }
                n -= 1;
            }
            None
        },
        _ => None,
    }
}

/// The text of the member of an object with a key.
pub fn get_text(j: &Json, key: &str) -> (r: Option<String>)
    ensures
        text::opt_view(r) == member_text(*j, key@),
{
    match get(j, key) {
        Some(Json::Text(s)) => Some(s.clone()),
        _ => None,
    }
}

// ---------------------------------------------------------------------------
// Writing
// ---------------------------------------------------------------------------

/// A value of a field that is written.
pub enum FieldValue {
    Null,
    Number(u64),
    Text(String),
}

/// A field that is written.
pub struct Field {
    pub key: String,
    pub value: FieldValue,
}

/// What a [`FieldValue`] stands for.
pub enum FieldValueV {
    Null,
    Number(u64),
    Text(Seq<char>),
}

/// What a [`Field`] stands for.
pub struct FieldV {
    pub key: Seq<char>,
    pub value: FieldValueV,
}

impl View for Field {
    type V = FieldV;

    open spec fn view(&self) -> FieldV {
        FieldV {
            key: self.key@,
            value: match self.value {
                FieldValue::Null => FieldValueV::Null,
                FieldValue::Number(n) => FieldValueV::Number(n),
                FieldValue::Text(s) => FieldValueV::Text(s@),
            },
        }
    }
}

/// The text of the last field with a key.
pub open spec fn field_text(fields: Seq<FieldV>, key: Seq<char>) -> Option<Seq<char>>
    decreases fields.len(),
{
    if fields.len() == 0 {
        None
    } else if fields.last().key == key {
        match fields.last().value {
            FieldValueV::Text(t) => Some(t),
            _ => None,
        }
    } else {
        field_text(fields.drop_last(), key)
    }
}

/// The JSON object with some fields, as text.
pub uninterp spec fn object_text(fields: Seq<FieldV>) -> Seq<char>;

/// What `serde_json::to_string_pretty` writes for an object with some fields:
/// always the same text for the same fields. Reading it gives back an object whose
/// member with a key has the text of the last field with that key.
#[verifier::external_body]
pub(crate) fn write_object(fields: &Vec<Field>) -> (r: String)
    ensures
        r@ == object_text(text::views(fields@)),
        json_of(r@) is Some,
        forall|key: Seq<char>| #[trigger]
            member_text(json_of(r@).unwrap(), key) == field_text(text::views(fields@), key),
{
    let mut map = serde_json::Map::new();
    for f in fields {
        map.insert(
            f.key.clone(),
            match &f.value {
                FieldValue::Null => serde_json::Value::Null,
                FieldValue::Number(n) => serde_json::Value::from(*n),
                FieldValue::Text(t) => serde_json::Value::from(t.as_str()),
            },
        );
    }
    serde_json::to_string_pretty(&map).unwrap_or_default()
}

} // verus!
