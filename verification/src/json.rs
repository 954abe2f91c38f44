//! Reading members out of JSON text, and writing flat JSON objects.
//!
//! The work is done by `serde_json`; the items here that call it are believed,
//! not proved.
use vstd::prelude::*;

verus! {

/// The kinds of members that are written.
pub enum JsonScalar {
    Text(Seq<char>),
    Flag(bool),
    Decimal(Seq<char>),
}

/// What an object holds before anything is put into it.
pub open spec fn no_members() -> Map<Seq<char>, JsonScalar> {
    Map::empty()
}

/// The complaint of `serde_json` about a text that is not JSON; `None` where
/// it is.
pub uninterp spec fn json_fault(text: Seq<char>) -> Option<Seq<char>>;

/// The member `key` of a JSON object, where it is a string.
pub uninterp spec fn json_text_member(text: Seq<char>, key: Seq<char>) -> Option<Seq<char>>;

/// The member `key` of a JSON object, where it is a number: the bits of the
/// double that `serde_json` makes of it.
pub uninterp spec fn json_number_member(text: Seq<char>, key: Seq<char>) -> Option<u64>;

/// The JSON text of a flat object.
pub uninterp spec fn json_object_text(members: Map<Seq<char>, JsonScalar>) -> Seq<char>;

#[verifier::external_type_specification]
#[verifier::external_body]
pub struct ExJsonValue(serde_json::Value);

#[verifier::external_type_specification]
#[verifier::external_body]
#[verifier::reject_recursive_types(K)]
#[verifier::reject_recursive_types(V)]
pub struct ExJsonMap<K, V>(serde_json::Map<K, V>);

/// The members of an object that is being put together.
pub uninterp spec fn members_of(
    object: serde_json::Map<String, serde_json::Value>,
) -> Map<Seq<char>, JsonScalar>;

/// Parses `text` with `serde_json::from_str` to find out whether it is JSON.
///
/// The contract names the message of the error, if there is one.
#[verifier::external_body]
pub(crate) fn fault_of(text: &str) -> (r: Option<String>)
    ensures
        (match r {
            Some(m) => Some(m@),
            None => None,
        }) == json_fault(text@),
{
    serde_json::from_str::<serde_json::Value>(text).err().map(|e| e.to_string())
}

/// Parses `text` with `serde_json::from_str` and reads a member with
/// `serde_json::Value::as_str`.
///
/// The contract names what is read; there is nothing to read where the text is
/// not JSON, not an object, or has no string under that key.
#[verifier::external_body]
pub(crate) fn text_member(text: &str, key: &str) -> (r: Option<String>)
    ensures
        (match r {
            Some(m) => Some(m@),
            None => None,
        }) == json_text_member(text@, key@),
{
    let value = serde_json::from_str::<serde_json::Value>(text).unwrap_or_default();
    value[key].as_str().map(|s| s.to_string())
}

/// Parses `text` with `serde_json::from_str` and reads a member with
/// `serde_json::Value::as_f64`.
///
/// The contract names the bits of what is read; there is nothing to read where
/// the text is not JSON, not an object, or has no number under that key.
#[verifier::external_body]
pub(crate) fn number_member(text: &str, key: &str) -> (r: Option<u64>)
    ensures
        r == json_number_member(text@, key@),
{
    let value = serde_json::from_str::<serde_json::Value>(text).unwrap_or_default();
    value[key].as_f64().map(|x| x.to_bits())
}

/// Starts an object with `serde_json::Map::new`: it has no members.
#[verifier::external_body]
pub(crate) fn new_object() -> (object: serde_json::Map<String, serde_json::Value>)
    ensures
        members_of(object) == no_members(),
{
    serde_json::Map::new()
}

/// Adds a string with `serde_json::Map::insert`, in the place of what the
/// object had under that key.
#[verifier::external_body]
pub(crate) fn put_text(
    object: &mut serde_json::Map<String, serde_json::Value>,
    key: &str,
    value: &str,
)
    ensures
        members_of(*final(object)) == members_of(*old(object)).insert(
            key@,
            JsonScalar::Text(value@),
        ),
{
    object.insert(key.to_string(), serde_json::Value::String(value.to_string()));
}

/// Adds a truth value with `serde_json::Map::insert`, in the place of what the
/// object had under that key.
#[verifier::external_body]
pub(crate) fn put_flag(
    object: &mut serde_json::Map<String, serde_json::Value>,
    key: &str,
    value: bool,
)
    ensures
        members_of(*final(object)) == members_of(*old(object)).insert(
            key@,
            JsonScalar::Flag(value),
        ),
{
    object.insert(key.to_string(), serde_json::Value::Bool(value));
}

/// Whether `s` is a number of one digit in front of the point and one behind.
pub open spec fn is_decimal(s: Seq<char>) -> bool {
    &&& s.len() == 3
    &&& '0' <= s[0] <= '9'
    &&& s[1] == '.'
    &&& '0' <= s[2] <= '9'
}

/// Adds a number, read from its notation with `serde_json::from_str`, with
/// `serde_json::Map::insert`, in the place of what the object had under that
/// key.
#[verifier::external_body]
pub(crate) fn put_decimal(
    object: &mut serde_json::Map<String, serde_json::Value>,
    key: &str,
    value: &str,
)
    requires
        is_decimal(value@),
    ensures
        members_of(*final(object)) == members_of(*old(object)).insert(
            key@,
            JsonScalar::Decimal(value@),
        ),
{
    object.insert(key.to_string(), serde_json::from_str(value).unwrap_or_default());
}

/// Writes an object with the `Display` of `serde_json::Value`.
///
/// The contract names the text, and claims that it is JSON, that its string
/// members can be read back and its other members do not pass for strings, and
/// that a zero reads back as the double zero.
#[verifier::external_body]
pub(crate) fn object_text(object: serde_json::Map<String, serde_json::Value>) -> (r: String)
    ensures
        r@ == json_object_text(members_of(object)),
        json_fault(r@) is None,
        forall|key: Seq<char>| #[trigger]
            json_text_member(r@, key) == (if members_of(object).dom().contains(key) {
                match members_of(object)[key] {
                    JsonScalar::Text(s) => Some(s),
                    _ => None,
                }
            } else {
                None
            }),
        forall|key: Seq<char>|
            members_of(object).dom().contains(key) && members_of(object)[key]
                == JsonScalar::Decimal("0.0"@) ==> #[trigger] json_number_member(r@, key) == Some(
                0u64,
            ),
{
    serde_json::Value::Object(object).to_string()
}

} // verus!
