//! A flat, plain-value picture of one JSON log line.
//!
//! The log format is one JSON object per line. The schema only ever reads
//! top-level fields that are integers, strings or null, so a parsed line is
//! held as a list of key/value pairs whose values keep exactly those shapes;
//! every other JSON shape (booleans, non-integer numbers, arrays, nested
//! objects) is collapsed to `Other`. Parsing itself is done by `serde_json`
//! behind one trusted wrapper; everything that reads the parsed fields is
//! verified.

use vstd::prelude::*;

verus! {

/// One top-level JSON value, reduced to the shapes the log schema reads.
pub enum JsonValue {
    /// A number that is an integer and fits in `i64`.
    Int(i64),
    /// A JSON string.
    Str(String),
    /// JSON `null`.
    Null,
    /// Any other JSON shape: boolean, non-integer or oversized number,
    /// array, or nested object.
    Other,
}

/// One `key: value` field of a top-level JSON object.
pub struct JsonField {
    pub key: String,
    pub value: JsonValue,
}

/// The mathematical value of a `JsonValue`.
pub enum JsonValueV {
    Int(int),
    Str(Seq<char>),
    Null,
    Other,
}

/// The mathematical value of a `JsonField`.
pub struct JsonFieldV {
    pub key: Seq<char>,
    pub value: JsonValueV,
}

impl View for JsonValue {
    type V = JsonValueV;

    open spec fn view(&self) -> JsonValueV {
        match self {
            JsonValue::Int(i) => JsonValueV::Int(*i as int),
            JsonValue::Str(s) => JsonValueV::Str(s@),
            JsonValue::Null => JsonValueV::Null,
            JsonValue::Other => JsonValueV::Other,
        }
    }
}

impl View for JsonField {
    type V = JsonFieldV;

    open spec fn view(&self) -> JsonFieldV {
        JsonFieldV { key: self.key@, value: self.value@ }
    }
}

/// The field lists of a sequence of fields, element by element.
pub open spec fn fields_view(fs: Seq<JsonField>) -> Seq<JsonFieldV> {
    fs.map_values(|f: JsonField| f@)
}

/// What `serde_json` yields for one line of text: `Some` with the top-level
/// fields of the object (each reduced to the shapes above) when the line is
/// exactly one JSON object, `None` otherwise.
pub uninterp spec fn json_fields(s: Seq<char>) -> Option<Seq<JsonFieldV>>;

/// Relies on `serde_json::from_str::<serde_json::Map<String, serde_json::Value>>`:
/// parses one line as a JSON object; each top-level field is kept as the
/// scalar shape the schema reads (`i64` via `serde_json::Number::as_i64`,
/// string, null) or collapsed to `Other`.
#[verifier::external_body]
pub(crate) fn parse_json_object(line: &str) -> (r: Option<Vec<JsonField>>)
    ensures
        match r {
            Some(fields) => json_fields(line@) == Some(fields_view(fields@)),
            None => json_fields(line@) is None,
        },
{
    let map: serde_json::Map<String, serde_json::Value> = serde_json::from_str(line).ok()?;
    Some(map.into_iter().map(|(key, v)| JsonField {
        key,
        value: match v {
            serde_json::Value::Null => JsonValue::Null,
            serde_json::Value::String(s) => JsonValue::Str(s),
            serde_json::Value::Number(n) => match n.as_i64() {
                Some(i) => JsonValue::Int(i),
                None => JsonValue::Other,
            },
            _ => JsonValue::Other,
        },
    }).collect())
}

/// The value of the first field named `key`, if any.
pub open spec fn spec_lookup(fs: Seq<JsonFieldV>, key: Seq<char>) -> Option<JsonValueV>
    decreases fs.len(),
{
    if fs.len() == 0 {
        None
    } else if fs[0].key == key {
        Some(fs[0].value)
    } else {
        spec_lookup(fs.drop_first(), key)
    }
}

pub(crate) proof fn lemma_lookup_at(fs: Seq<JsonFieldV>, key: Seq<char>, i: int)
    requires
        0 <= i < fs.len(),
        fs[i].key == key,
        forall|j: int| 0 <= j < i ==> fs[j].key != key,
    ensures
        spec_lookup(fs, key) == Some(fs[i].value),
    decreases i,
{
    if i > 0 {
        lemma_lookup_at(fs.drop_first(), key, i - 1);
    }
}

pub(crate) proof fn lemma_lookup_none(fs: Seq<JsonFieldV>, key: Seq<char>)
    requires
        forall|j: int| 0 <= j < fs.len() ==> fs[j].key != key,
    ensures
        spec_lookup(fs, key) is None,
    decreases fs.len(),
{
    if fs.len() > 0 {
        lemma_lookup_none(fs.drop_first(), key);
    }
}

/// True when the two slices hold the same characters.
pub fn str_eq(a: &str, b: &str) -> (r: bool)
    ensures
        r == (a@ == b@),
{
    let sa: String = a.to_owned();
    let sb: String = b.to_owned();
    sa == sb
}

/// The first field named `key`, searched front to back.
pub fn lookup<'a>(fields: &'a Vec<JsonField>, key: &str) -> (r: Option<&'a JsonValue>)
    ensures
        match r {
            Some(v) => spec_lookup(fields_view(fields@), key@) == Some(v@),
            None => spec_lookup(fields_view(fields@), key@) is None,
        },
{
    let mut i: usize = 0;
    while i < fields.len()
        invariant
            0 <= i <= fields@.len(),
            forall|j: int| 0 <= j < i ==> fields_view(fields@)[j].key != key@,
        decreases fields@.len() - i,
    {
        if str_eq(fields[i].key.as_str(), key) {
            proof {
                lemma_lookup_at(fields_view(fields@), key@, i as int);
            }
            return Some(&fields[i].value);
        }
        i = i + 1;
    }
    proof {
        lemma_lookup_none(fields_view(fields@), key@);
    }
    None
}

} // verus!
