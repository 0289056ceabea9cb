use vstd::prelude::*;

verus! {

/// A JSON number as the parser gives it: a non-negative integer, a negative integer, or any
/// other number, kept as its text.
#[derive(Debug)]
pub enum JsonNumber {
    PosInt(u64),
    NegInt(i64),
    Float(String),
}

/// A JSON value.
#[derive(Debug)]
pub enum JsonValue {
    Null,
    Bool(bool),
    Number(JsonNumber),
    Str(String),
    Array(Vec<JsonValue>),
    /// The members of an object, in order, each key once.
    Object(Vec<(String, JsonValue)>),
}

/// The value of the first member named `key`.
pub open spec fn member(fields: Seq<(String, JsonValue)>, key: Seq<char>) -> Option<JsonValue>
    decreases fields.len(),
{
    if fields.len() == 0 {
        None
    } else if fields[0].0@ == key {
        Some(fields[0].1)
    } else {
        member(fields.drop_first(), key)
    }
}

/// `Value::get` with a key: the member `key` of an object; nothing for other values.
pub open spec fn json_get(v: JsonValue, key: Seq<char>) -> Option<JsonValue> {
    match v {
        JsonValue::Object(fields) => member(fields@, key),
        _ => None,
    }
}

/// `Value::as_str`.
pub open spec fn json_str(v: JsonValue) -> Option<Seq<char>> {
    match v {
        JsonValue::Str(s) => Some(s@),
        _ => None,
    }
}

/// `v.get(key).and_then(Value::as_str)`.
pub open spec fn str_member(v: JsonValue, key: Seq<char>) -> Option<Seq<char>> {
    match json_get(v, key) {
        Some(x) => json_str(x),
        None => None,
    }
}

/// `v.get(key).and_then(Value::as_str).unwrap_or("")`.
pub open spec fn str_member_or_empty(v: JsonValue, key: Seq<char>) -> Seq<char> {
    match str_member(v, key) {
        Some(s) => s,
        None => Seq::empty(),
    }
}

/// `Value::as_u64`.
pub open spec fn json_u64(v: JsonValue) -> Option<u64> {
    match v {
        JsonValue::Number(JsonNumber::PosInt(n)) => Some(n),
        _ => None,
    }
}

/// `Value::as_bool`.
pub open spec fn json_bool(v: JsonValue) -> Option<bool> {
    match v {
        JsonValue::Bool(b) => Some(b),
        _ => None,
    }
}

/// `Value::as_array`.
pub open spec fn json_items(v: JsonValue) -> Option<Seq<JsonValue>> {
    match v {
        JsonValue::Array(items) => Some(items@),
        _ => None,
    }
}

/// `Value::is_null`.
pub open spec fn json_is_null(v: JsonValue) -> bool {
    v is Null
}

fn keys_equal(a: &String, b: &str) -> (r: bool)
    ensures
        r == (a@ == b@),
{
    let x = String::from_str(b);
    *a == x
}

impl JsonValue {
    /// `Value::get` with a key.
    pub fn get(&self, key: &str) -> (r: Option<&JsonValue>)
        ensures
            match r {
                Some(x) => json_get(*self, key@) == Some(*x),
                None => json_get(*self, key@) is None,
            },
    {
        match self {
            JsonValue::Object(fields) => {
                let mut i: usize = 0;
                proof {
                    assert(fields@.skip(0) =~= fields@);
                }
                while i < fields.len()
                    invariant
                        i <= fields.len(),
                        json_get(*self, key@) == member(fields@, key@),
                        member(fields@, key@) == member(fields@.skip(i as int), key@),
                    decreases fields.len() - i,
                {
                    proof {
                        assert(fields@.skip(i as int).drop_first() =~= fields@.skip(i + 1));
                        assert(fields@.skip(i as int)[0] == fields@[i as int]);
                    }
                    if keys_equal(&fields[i].0, key) {
                        proof {
                            let rest = fields@.skip(i as int);
                            assert(rest.len() > 0);
                            assert(rest[0].0@ == key@);
                            assert(member(rest, key@) == Some(rest[0].1));
                        }
                        return Some(&fields[i].1);
                    }
                    i = i + 1;
                }
                None
            },
            _ => None,
        }
    }

    /// `Value::as_str`.
    pub fn as_str(&self) -> (r: Option<&String>)
        ensures
            match r {
                Some(s) => json_str(*self) == Some(s@),
                None => json_str(*self) is None,
            },
    {
        match self {
            JsonValue::Str(s) => Some(s),
            _ => None,
        }
    }

    /// `Value::as_u64`.
    pub fn as_u64(&self) -> (r: Option<u64>)
        ensures
            r == json_u64(*self),
    {
        match self {
            JsonValue::Number(JsonNumber::PosInt(n)) => Some(*n),
            _ => None,
        }
    }

    /// `Value::as_bool`.
    pub fn as_bool(&self) -> (r: Option<bool>)
        ensures
            r == json_bool(*self),
    {
        match self {
            JsonValue::Bool(b) => Some(*b),
            _ => None,
        }
    }

    /// `Value::as_array`.
    pub fn as_array(&self) -> (r: Option<&Vec<JsonValue>>)
        ensures
            match r {
                Some(items) => json_items(*self) == Some(items@),
                None => json_items(*self) is None,
            },
    {
        match self {
            JsonValue::Array(items) => Some(items),
            _ => None,
        }
    }

    /// `Value::is_null`.
    pub fn is_null(&self) -> (r: bool)
        ensures
            r == json_is_null(*self),
    {
        match self {
            JsonValue::Null => true,
            _ => false,
        }
    }

    /// `self.get(key).and_then(Value::as_str)`.
    pub fn str_member(&self, key: &str) -> (r: Option<&String>)
        ensures
            match r {
                Some(s) => str_member(*self, key@) == Some(s@),
                None => str_member(*self, key@) is None,
            },
    {
        match self.get(key) {
            Some(x) => x.as_str(),
            None => None,
        }
    }
}

/// The keys of an object's members, in order.
pub open spec fn member_keys(fields: Seq<(String, JsonValue)>) -> Seq<Seq<char>> {
    fields.map_values(|m: (String, JsonValue)| m.0@)
}

/// `v` is an object whose members have the keys `keys`, in this order.
pub open spec fn is_object_with_keys(v: JsonValue, keys: Seq<Seq<char>>) -> bool {
    match v {
        JsonValue::Object(fields) => member_keys(fields@) == keys,
        _ => false,
    }
}

/// The value of the `i`-th member of an object.
pub open spec fn member_value(v: JsonValue, i: int) -> JsonValue {
    match v {
        JsonValue::Object(fields) => fields@[i].1,
        _ => JsonValue::Null,
    }
}

/// A string as a JSON value.
pub fn json_string(s: &str) -> (r: JsonValue)
    ensures
        json_str(r) == Some(s@),
{
    JsonValue::Str(String::from_str(s))
}

/// An optional string as a JSON value: the string, or `null`.
pub fn json_opt_string(o: &Option<String>) -> (r: JsonValue)
    ensures
        match o {
            Some(s) => json_str(r) == Some(s@),
            None => r == JsonValue::Null,
        },
{
    match o {
        Some(s) => JsonValue::Str(s.clone()),
        None => JsonValue::Null,
    }
}

/// An object member.
pub fn json_member(key: &str, value: JsonValue) -> (r: (String, JsonValue))
    ensures
        r.0@ == key@,
        r.1 == value,
{
    (String::from_str(key), value)
}

/// `serde_json::Value`, the parser's own JSON value; only the wrappers below hold one.
#[verifier::external_type_specification]
#[verifier::external_body]
pub struct ExSerdeJsonValue(serde_json::Value);

/// What `serde_json::from_str::<serde_json::Value>` makes of a text, as a library value: the
/// parsed value, or the text of the parser's error.
pub uninterp spec fn json_text_parse(text: Seq<char>) -> Result<JsonValue, Seq<char>>;

/// The compact JSON text that `serde_json::Value`'s `Display` writes for a value.
pub uninterp spec fn json_text_of(v: JsonValue) -> Seq<char>;

/// Turns a `serde_json::Value` into a library value, variant by variant; numbers are kept as
/// `u64`, else as `i64`, else as their text.
#[verifier::external_body]
fn json_from_serde(v: &serde_json::Value) -> (r: JsonValue) {
    match v {
        serde_json::Value::Null => JsonValue::Null,
        serde_json::Value::Bool(b) => JsonValue::Bool(*b),
        serde_json::Value::Number(n) => JsonValue::Number(n.as_u64().map(JsonNumber::PosInt).or_else(
            || n.as_i64().map(JsonNumber::NegInt),
        ).unwrap_or_else(|| JsonNumber::Float(n.to_string()))),
        serde_json::Value::String(t) => JsonValue::Str(t.clone()),
        serde_json::Value::Array(a) => JsonValue::Array(a.iter().map(json_from_serde).collect()),
        serde_json::Value::Object(m) => JsonValue::Object(
            m.iter().map(|(k, x)| (k.clone(), json_from_serde(x))).collect(),
        ),
    }
}

/// Turns a library value into a `serde_json::Value`, variant by variant; a number kept as text
/// is parsed back (`null` where that text is not a number).
#[verifier::external_body]
fn json_to_serde(v: &JsonValue) -> (r: serde_json::Value) {
    match v {
        JsonValue::Null => serde_json::Value::Null,
        JsonValue::Bool(b) => serde_json::Value::Bool(*b),
        JsonValue::Number(JsonNumber::PosInt(u)) => serde_json::Value::from(*u),
        JsonValue::Number(JsonNumber::NegInt(i)) => serde_json::Value::from(*i),
        JsonValue::Number(JsonNumber::Float(t)) => serde_json::from_str(t).unwrap_or_default(),
        JsonValue::Str(t) => serde_json::Value::String(t.clone()),
        JsonValue::Array(a) => serde_json::Value::Array(a.iter().map(json_to_serde).collect()),
        JsonValue::Object(m) => serde_json::Value::Object(
            m.iter().map(|(k, x)| (k.clone(), json_to_serde(x))).collect(),
        ),
    }
}

/// Parses JSON text with `serde_json::from_str::<serde_json::Value>`: the value, or the
/// parser's error message. The contract says only that the outcome is the one named for the
/// text; which texts are JSON is serde_json's grammar, not restated here.
#[verifier::external_body]
pub(crate) fn parse_json_text(text: &str) -> (r: Result<JsonValue, String>)
    ensures
        match r {
            Ok(v) => json_text_parse(text@) == Ok::<JsonValue, Seq<char>>(v),
            Err(e) => json_text_parse(text@) == Err::<JsonValue, Seq<char>>(e@),
        },
{
    match serde_json::from_str::<serde_json::Value>(text) {
        Ok(v) => Ok(json_from_serde(&v)),
        Err(e) => Err(e.to_string()),
    }
}

/// Writes a value as compact JSON text with `serde_json::Value`'s `Display`. The contract says
/// only that the text is the one named for the value; the escaping rules are serde_json's.
#[verifier::external_body]
pub(crate) fn json_to_text(v: &JsonValue) -> (r: String)
    ensures
        r@ == json_text_of(*v),
{
    json_to_serde(v).to_string()
}

} // verus!
