//! JSON bodies. Strings are quoted by `serde_json`; the objects and lists
//! around them are framed here.

use crate::bytes::append;
use crate::number::{push_signed_decimal, signed_decimal};
use vstd::prelude::*;

verus! {

/// The JSON text of a string as `serde_json` writes it: the string between
/// double quotes, with the escapes that JSON asks for.
pub uninterp spec fn json_string(s: Seq<char>) -> Seq<u8>;

/// The error type of `serde_json`, which is carried through and never looked
/// into.
#[verifier::external_type_specification]
#[verifier::external_body]
pub struct ExJsonError(serde_json::Error);

/// Calls `serde_json::to_vec` on a string slice.
///
/// The contract names the bytes that come back, which depend on the string
/// alone. It also claims that the call succeeds on every string: the
/// serializer writes a string into a vector in memory, and neither step has
/// an error to report.
#[verifier::external_body]
fn quote(s: &str) -> (r: Result<Vec<u8>, serde_json::Error>)
    ensures
        r is Ok,
        r->Ok_0@ == json_string(s@),
{
    serde_json::to_vec(s)
}

/// A member of an object: the quoted key, a colon, and the value's text.
pub open spec fn json_member(key: Seq<char>, value: Seq<u8>) -> Seq<u8> {
    json_string(key) + seq![0x3au8] + value
}

/// The object with one member whose value is a string: `{"key":"text"}`.
pub open spec fn json_object(key: Seq<char>, text: Seq<char>) -> Seq<u8> {
    seq![0x7bu8] + json_member(key, json_string(text)) + seq![0x7du8]
}

/// The object that stands for a user: `{"name":"..","age":..}`.
pub open spec fn user_json(name: Seq<char>, age: int) -> Seq<u8> {
    seq![0x7bu8] + json_member("name"@, json_string(name)) + seq![0x2cu8] + json_member(
        "age"@,
        signed_decimal(age),
    ) + seq![0x7du8]
}

/// The texts of `items`, with a comma between each two.
pub open spec fn comma_separated(items: Seq<Seq<u8>>) -> Seq<u8>
    decreases items.len(),
{
    if items.len() == 0 {
        Seq::empty()
    } else if items.len() == 1 {
        items[0]
    } else {
        comma_separated(items.drop_last()) + seq![0x2cu8] + items.last()
    }
}

/// The list of `items`: `[a,b,c]`.
pub open spec fn json_list(items: Seq<Seq<u8>>) -> Seq<u8> {
    seq![0x5bu8] + comma_separated(items) + seq![0x5du8]
}

/// Appends the JSON text of a string.
pub fn push_string(out: &mut Vec<u8>, s: &str)
    ensures
        final(out)@ == old(out)@ + json_string(s@),
{
    match quote(s) {
        Ok(quoted) => append(out, quoted.as_slice()),
        Err(_) => {},
    }
}

/// The body `{"key":"text"}`.
pub fn object_body(key: &str, text: &str) -> (out: Vec<u8>)
    ensures
        out@ == json_object(key@, text@),
{
    let mut out: Vec<u8> = Vec::new();
    out.push(0x7b);
    push_string(&mut out, key);
    out.push(0x3a);
    push_string(&mut out, text);
    out.push(0x7d);
    out
}

/// Appends the object that stands for a user.
pub fn push_user(out: &mut Vec<u8>, name: &str, age: i32)
    ensures
        final(out)@ == old(out)@ + user_json(name@, age as int),
{
    out.push(0x7b);
    push_string(out, "name");
    out.push(0x3a);
    push_string(out, name);
    out.push(0x2c);
    push_string(out, "age");
    out.push(0x3a);
    push_signed_decimal(out, age);
    out.push(0x7d);
}

} // verus!
