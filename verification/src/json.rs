//! What the shell reads of JSON documents.

use vstd::prelude::*;

verus! {

/// A JSON value, as far as the shell reads it. Of a number it holds the bits of
/// the floating-point number nearest to it, and the number itself if it is a
/// whole number from zero on that 64 bits hold.
pub enum JsonValue {
    Null,
    Bool(bool),
    Number { bits: Option<u64>, natural: Option<u64> },
    Text(String),
    Array,
    Object,
}

/// The model of a JSON value.
pub enum Json {
    Null,
    Bool(bool),
    Number { bits: Option<u64>, natural: Option<u64> },
    Text(Seq<char>),
    Array,
    Object,
}

impl View for JsonValue {
    type V = Json;

    open spec fn view(&self) -> Json {
        match *self {
            JsonValue::Null => Json::Null,
            JsonValue::Bool(b) => Json::Bool(b),
            JsonValue::Number { bits, natural } => Json::Number { bits, natural },
            JsonValue::Text(s) => Json::Text(s@),
            JsonValue::Array => Json::Array,
            JsonValue::Object => Json::Object,
        }
    }
}

/// The model of a JSON document: its value, and the members of that value if it
/// is an object.
pub struct JsonDocument {
    pub root: Json,
    pub members: Map<Seq<char>, Json>,
}

impl JsonDocument {
    /// The member of that name, or null if there is none.
    pub open spec fn member(self, name: Seq<char>) -> Json {
        if self.root is Object && self.members.dom().contains(name) {
            self.members[name]
        } else {
            Json::Null
        }
    }
}

/// What `serde_json::from_slice` makes of some bytes: a document, or the wording
/// of its refusal.
pub uninterp spec fn json_document(bytes: Seq<u8>) -> Result<JsonDocument, Seq<char>>;

/// A name of letters only.
pub open spec fn is_plain_name(name: Seq<char>) -> bool {
    &&& name.len() > 0
    &&& forall|i: int| 0 <= i < name.len() ==> ('a' <= #[trigger] name[i] <= 'z' || 'A' <= name[i] <= 'Z')
}

/// `serde_json::from_slice` into a value, and `Value::pointer` into that: the
/// value itself for an empty pointer, else the member that the pointer names
/// after its slash, with null for a member that is not there.
#[verifier::external_body]
pub(crate) fn json_value(bytes: &[u8], pointer: &str) -> (r: Result<JsonValue, String>)
    requires
        pointer@.len() == 0 || (pointer@[0] == '/' && is_plain_name(pointer@.drop_first())),
    ensures
        match (json_document(bytes@), r) {
            (Ok(d), Ok(v)) => v@ == if pointer@.len() == 0 {
                d.root
            } else {
                d.member(pointer@.drop_first())
            },
            (Err(m), Err(e)) => e@ == m,
            _ => false,
        },
{
    let value: serde_json::Value = serde_json::from_slice(bytes).map_err(|err| err.to_string())?;
    Ok(match value.pointer(pointer).unwrap_or(&serde_json::Value::Null) {
        serde_json::Value::Null => JsonValue::Null,
        serde_json::Value::Bool(b) => JsonValue::Bool(*b),
        serde_json::Value::Number(n) => JsonValue::Number {
            bits: n.as_f64().map(|x| x.to_bits()),
            natural: n.as_u64(),
        },
        serde_json::Value::String(s) => JsonValue::Text(s.clone()),
        serde_json::Value::Array(_) => JsonValue::Array,
        serde_json::Value::Object(_) => JsonValue::Object,
    })
}

/// A member of a document. One that is not JSON has no members.
pub open spec fn member_of(bytes: Seq<u8>, name: Seq<char>) -> Json {
    match json_document(bytes) {
        Ok(document) => document.member(name),
        Err(_) => Json::Null,
    }
}

/// The text of a value, if it is one.
pub open spec fn as_text(value: Json) -> Option<Seq<char>> {
    match value {
        Json::Text(text) => Some(text),
        _ => None,
    }
}

/// A member of a document.
pub(crate) fn json_member(bytes: &[u8], name: &str) -> (r: Result<JsonValue, String>)
    requires
        is_plain_name(name@),
    ensures
        match (json_document(bytes@), r) {
            (Ok(d), Ok(v)) => v@ == d.member(name@),
            (Err(m), Err(e)) => e@ == m,
            _ => false,
        },
{
    let pointer = crate::text::concat("/", name);
    proof {
        reveal_strlit("/");
        assert(pointer@.drop_first() =~= name@);
    }
    json_value(bytes, pointer.as_str())
}

/// The text of a member of a document, if there is one.
pub(crate) fn text_member(bytes: &[u8], name: &str) -> (r: Option<String>)
    requires
        is_plain_name(name@),
    ensures
        crate::text::opt_text(r) == as_text(member_of(bytes@, name@)),
{
    match json_member(bytes, name) {
        Ok(JsonValue::Text(text)) => Some(text),
        _ => None,
    }
}

} // verus!
