use vstd::prelude::*;
use crate::text::is_lower_hex_digit;
use crate::types::Timestamp;

verus! {

#[verifier::external_type_specification]
#[verifier::external_body]
pub struct ExJsonValue(serde_json::Value);

/// `serde_json::Value`'s derived `Clone`: the copy is the same JSON value as
/// the one copied.
pub assume_specification[ <serde_json::Value as Clone>::clone ](v: &serde_json::Value) -> (res: serde_json::Value)
    ensures
        res == *v,
;

/// What `serde_json::Map::insert` leaves in a JSON value when `key` is set to
/// `member` in it, if it is an object; any other value stays as it was.
pub uninterp spec fn json_with_member(state: serde_json::Value, key: Seq<char>, member: serde_json::Value) -> serde_json::Value;

/// Sets `key` to `member` in `state` when `state` is a JSON object, through
/// `serde_json::Map::insert`; other values are left alone. The contract only
/// names the outcome: what a JSON value holds is not modelled here.
#[verifier::external_body]
pub(crate) fn json_set_member(state: &mut serde_json::Value, key: &str, member: serde_json::Value)
    ensures
        *final(state) == json_with_member(*old(state), key@, member),
{
    if let serde_json::Value::Object(members) = state {
        members.insert(key.to_string(), member);
    }
}

/// Unicode lower-casing as `str::to_lowercase` performs it.
pub uninterp spec fn lowercase_of(s: Seq<char>) -> Seq<char>;

/// `str::to_lowercase`: the result is the named lower-casing of `s`.
#[verifier::external_body]
pub(crate) fn to_lowercase(s: &str) -> (r: String)
    ensures
        r@ == lowercase_of(s@),
{
    s.to_lowercase()
}

/// `uuid::Uuid::new_v4`, rendered in its simple form: a random identifier
/// written as 32 lower-case hexadecimal digits. Which digits come out is
/// chance and is not stated.
#[verifier::external_body]
pub(crate) fn fresh_simple_uuid() -> (id: String)
    ensures
        id@.len() == 32,
        forall|i: int| 0 <= i < 32 ==> is_lower_hex_digit(#[trigger] id@[i]),
{
    uuid::Uuid::new_v4().simple().to_string()
}

/// `chrono::Utc::now`: the current UTC time as seconds since the Unix epoch
/// and nanoseconds past that second, fewer than a billion (`Utc::now`
/// builds it from the system clock's `subsec_nanos`). Which instant comes
/// out is not stated. It fails only with the machine's clock, when that
/// reads a time before the epoch.
#[verifier::external_body]
pub(crate) fn utc_now() -> (t: Timestamp)
    ensures
        t.nanos < 1_000_000_000,
{
    let now = chrono::Utc::now();
    Timestamp { secs: now.timestamp(), nanos: now.timestamp_subsec_nanos() }
}

} // verus!
