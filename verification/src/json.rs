//! JSON values, as the `serde_json` crate reads them.
use vstd::prelude::*;
use serde_json::Value;

verus! {

/// What a JSON value is.
pub enum Json {
    Null,
    Bool(bool),
    /// A number, and its value where that is an integer from 0 that 64 bits hold.
    Number(Option<u64>),
    Text(Seq<char>),
    Array(Seq<Json>),
    Object(Map<Seq<char>, Json>),
}

impl Json {
    /// The member of an object under a key.
    pub open spec fn member(self, key: Seq<char>) -> Option<Json> {
        match self {
            Json::Object(m) => if m.contains_key(key) {
                Some(m[key])
            } else {
                None
            },
            _ => None,
        }
    }

    /// The text of a string.
    pub open spec fn text(self) -> Option<Seq<char>> {
        match self {
            Json::Text(t) => Some(t),
            _ => None,
        }
    }

    /// The value of a number that is an integer from 0 and fits 64 bits.
    pub open spec fn integer(self) -> Option<u64> {
        match self {
            Json::Number(n) => n,
            _ => None,
        }
    }
}

/// The `Value` of the `serde_json` crate.
#[verifier::external_type_specification]
#[verifier::external_body]
pub struct ExValue(Value);

/// What a `Value` holds.
pub uninterp spec fn json_of(v: Value) -> Json;

/// What `serde_json` reads from bytes: the JSON value that they are the text of, or the text of its
/// error.
pub uninterp spec fn parsed_json(bytes: Seq<u8>) -> Result<Json, Seq<char>>;

/// `serde_json::from_slice` into a `Value`: whether it succeeds, the value that it gives, and the
/// text of the error that it gives, are a function of the bytes alone.
#[verifier::external_body]
pub(crate) fn parse_json(bytes: &[u8]) -> (r: Result<Value, String>)
    ensures
        (match r {
            Ok(v) => parsed_json(bytes@) == Ok::<Json, Seq<char>>(json_of(v)),
            Err(why) => parsed_json(bytes@) == Err::<Json, Seq<char>>(why@),
        }),
{
    match serde_json::from_slice(bytes) {
        Ok(v) => Ok(v),
        Err(e) => Err(e.to_string()),
    }
}

/// `Value::as_array` gives the elements of an array, and nothing of any other value.
pub assume_specification[ Value::as_array ](v: &Value) -> (r: Option<&Vec<Value>>)
    ensures
        (match r {
            Some(items) => json_of(*v) == Json::Array(items@.map_values(|x: Value| json_of(x))),
            None => !(json_of(*v) is Array),
        }),
;

/// `Value::as_str` gives the text of a string, and nothing of any other value.
pub assume_specification[ Value::as_str ](v: &Value) -> (r: Option<&str>)
    ensures
        (match r {
            Some(t) => json_of(*v).text() == Some(t@),
            None => json_of(*v).text() is None,
        }),
;

/// `Value::as_u64` gives the value of an integer that a `u64` holds, and nothing of any other value.
pub assume_specification[ Value::as_u64 ](v: &Value) -> (r: Option<u64>)
    ensures
        r == json_of(*v).integer(),
;

/// `Value::get` with a string gives the member of an object under that key, and nothing of any
/// other value.
#[verifier::external_body]
pub(crate) fn json_member<'a>(v: &'a Value, key: &str) -> (r: Option<&'a Value>)
    ensures
        (match r {
            Some(m) => json_of(*v).member(key@) == Some(json_of(*m)),
            None => json_of(*v).member(key@) is None,
        }),
{
    v.get(key)
}

/// Whether a key is written in a pointer as it is, and is not an index: its first character is a
/// lower case letter, and it has neither a slash nor a tilde.
pub open spec fn plain_key(key: Seq<char>) -> bool {
    key.len() > 0 && 'a' <= key[0] <= 'z' && !key.contains('/') && !key.contains('~')
}

/// The pointer to a member of a member.
pub open spec fn two_step_pointer(first: Seq<char>, second: Seq<char>) -> Seq<char> {
    seq!['/'] + first + seq!['/'] + second
}

/// The member of a member.
pub open spec fn inner_member(v: Json, first: Seq<char>, second: Seq<char>) -> Option<Json> {
    match v.member(first) {
        Some(m) => m.member(second),
        None => None,
    }
}

/// `Value::pointer` with a pointer of two plain keys gives the member under the second key of the
/// member under the first. Of other pointers nothing is said.
pub assume_specification<'a>[ Value::pointer ](v: &'a Value, pointer: &str) -> (r: Option<
    &'a Value,
>)
    ensures
        forall|a: Seq<char>, b: Seq<char>|
            pointer@ == #[trigger] two_step_pointer(a, b) && plain_key(a) && plain_key(b) ==> (
            match r {
                Some(m) => inner_member(json_of(*v), a, b) == Some(json_of(*m)),
                None => inner_member(json_of(*v), a, b) is None,
            }),
;

} // verus!
