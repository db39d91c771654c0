//! The values of outside crates that requests and answers carry: byte buffers
//! and JSON objects.
use bytes::Bytes;
use vstd::prelude::*;

verus! {

/// `bytes::Bytes`: a shared, immutable byte buffer.
#[verifier::external_type_specification]
#[verifier::external_body]
pub struct ExBytes(bytes::Bytes);

/// The bytes that a buffer holds.
pub uninterp spec fn byte_content(buffer: bytes::Bytes) -> Seq<u8>;

/// `Bytes::from` of a `Vec<u8>`: a buffer that holds the bytes of the vector.
#[verifier::external_body]
pub(crate) fn buffer_of(bytes: Vec<u8>) -> (buffer: Bytes)
    ensures
        byte_content(buffer) == bytes@,
{
    Bytes::from(bytes)
}

/// `serde_json::Value`: a JSON value.
#[verifier::external_type_specification]
#[verifier::external_body]
pub struct ExJsonValue(serde_json::Value);

/// `serde_json::Map`: the members of a JSON object.
#[verifier::external_type_specification]
#[verifier::external_body]
#[verifier::reject_recursive_types(K)]
#[verifier::reject_recursive_types(V)]
pub struct ExJsonMap<K, V>(serde_json::Map<K, V>);

/// The JSON values that a member can be given.
#[derive(Debug)]
pub enum JsonField {
    Null,
    Bool(bool),
    Text(String),
    EmptyList,
}

/// A [`JsonField`] by its characters.
pub enum JsonFieldView {
    Null,
    Bool(bool),
    Text(Seq<char>),
    EmptyList,
}

impl View for JsonField {
    type V = JsonFieldView;

    open spec fn view(&self) -> JsonFieldView {
        match self {
            JsonField::Null => JsonFieldView::Null,
            JsonField::Bool(value) => JsonFieldView::Bool(*value),
            JsonField::Text(value) => JsonFieldView::Text(value@),
            JsonField::EmptyList => JsonFieldView::EmptyList,
        }
    }
}

/// The members of a JSON object.
pub type JsonMembers = Map<Seq<char>, JsonFieldView>;

/// An object without members.
pub open spec fn no_members() -> JsonMembers {
    Map::empty()
}

/// The members that a map holds.
pub uninterp spec fn json_members(object: serde_json::Map<String, serde_json::Value>) -> JsonMembers;

/// The members of the object that a value is.
pub uninterp spec fn object_members(value: serde_json::Value) -> JsonMembers;

/// `serde_json::Map::new`: a map without members.
#[verifier::external_body]
pub(crate) fn new_object() -> (object: serde_json::Map<String, serde_json::Value>)
    ensures
        json_members(object) == no_members(),
{
    serde_json::Map::new()
}

/// `serde_json::Map::insert`: gives the member the value, over any that it had,
/// and leaves the other members as they were.
#[verifier::external_body]
pub(crate) fn set_member(
    object: &mut serde_json::Map<String, serde_json::Value>,
    name: &str,
    field: JsonField,
)
    ensures
        json_members(*final(object)) == json_members(*old(object)).insert(name@, field@),
{
    let value = match field {
        JsonField::Null => serde_json::Value::Null,
        JsonField::Bool(value) => serde_json::Value::Bool(value),
        JsonField::Text(value) => serde_json::Value::String(value),
        JsonField::EmptyList => serde_json::Value::Array(Vec::new()),
    };
    let _ = object.insert(name.to_string(), value);
}

/// `serde_json::Value::Object`: the value that is the object with the map's
/// members.
#[verifier::external_body]
pub(crate) fn object_value(object: serde_json::Map<String, serde_json::Value>) -> (value:
    serde_json::Value)
    ensures
        object_members(value) == json_members(object),
{
    serde_json::Value::Object(object)
}

/// A field is seen as the value that it is.
pub proof fn lemma_field_is_seen_as_it_is(field: JsonField)
    ensures
        match field {
            JsonField::Null => field@ == JsonFieldView::Null,
            JsonField::Bool(value) => field@ == JsonFieldView::Bool(value),
            JsonField::Text(value) => field@ == JsonFieldView::Text(value@),
            JsonField::EmptyList => field@ == JsonFieldView::EmptyList,
        },
        no_members().dom() == Set::<Seq<char>>::empty(),
{
    assert(no_members().dom() =~= Set::<Seq<char>>::empty());
}

} // verus!
