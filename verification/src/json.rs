//! JSON as the services read and write it: a document model for the values
//! the client looks up, and the compact encoding of a list of strings.

use vstd::prelude::*;
use vstd::utf8::encode_utf8;

verus! {

/// A JSON number, by what the services read of it: its value when it is a
/// non-negative integer that fits in a `u64`.
#[derive(Debug, Clone, PartialEq, Eq)]
pub struct JsonNumber {
    pub as_u64: Option<u64>,
}

/// A parsed JSON document.
#[derive(Debug)]
pub enum JsonValue {
    Null,
    Bool(bool),
    Number(JsonNumber),
    Text(String),
    Array(Vec<JsonValue>),
    Object(Vec<(String, JsonValue)>),
}

/// The value of the first member named `key` among `members`.
pub open spec fn member_value(members: Seq<(String, JsonValue)>, key: Seq<char>) -> Option<
    JsonValue,
>
    decreases members.len(),
{
    if members.len() == 0 {
        None
    } else if members[0].0@ == key {
        Some(members[0].1)
    } else {
        member_value(members.drop_first(), key)
    }
}

/// The member `key` of `v` when `v` is an object that has one.
pub open spec fn json_get(v: JsonValue, key: Seq<char>) -> Option<JsonValue> {
    match v {
        JsonValue::Object(members) => member_value(members@, key),
        _ => None,
    }
}

/// The member `key` of `v` when `v` is an object that has one.
fn find_member<'a>(v: &'a JsonValue, key: &str) -> (r: Option<&'a JsonValue>)
    ensures
        match r {
            Some(m) => json_get(*v, key@) == Some(*m),
            None => json_get(*v, key@) is None,
        },
{
    match v {
        JsonValue::Object(members) => {
            let wanted = String::from_str(key);
            let mut i: usize = 0;
            assert(members@.skip(0) =~= members@);
            while i < members.len()
                invariant
                    i <= members.len(),
                    wanted@ == key@,
                    json_get(*v, key@) == member_value(members@, key@),
                    member_value(members@, key@) == member_value(members@.skip(i as int), key@),
                decreases members.len() - i,
            {
                assert(members@.skip(i as int).drop_first() =~= members@.skip(i + 1));
                assert(members@.skip(i as int)[0] == members@[i as int]);
                if members[i].0 == wanted {
                    return Some(&members[i].1);
                }
                i = i + 1;
            }
            None
        },
        _ => None,
    }
}

/// The member `key` of `v` when `v` is an object that has one, as
/// `serde_json::Value::get` looks it up.
pub fn json_get_member<'a>(v: &'a JsonValue, key: &str) -> (r: Option<&'a JsonValue>)
    ensures
        match r {
            Some(m) => json_get(*v, key@) == Some(*m),
            None => json_get(*v, key@) is None,
        },
        match *v {
            JsonValue::Object(members) => (r is None <==> forall|j: int|
                0 <= j < members@.len() ==> (#[trigger] members@[j]).0@ != key@) && (r is Some
                ==> exists|i: int|
                #![trigger members@[i]]
                0 <= i < members@.len() && members@[i].0@ == key@ && (forall|j: int|
                    0 <= j < i ==> (#[trigger] members@[j]).0@ != key@) && *r->Some_0
                    == members@[i].1),
            _ => r is None,
        },
{
    let r = find_member(v, key);
    proof {
        if v is Object {
            crate::laws::law_member_value_found(v->Object_0@, key@);
            crate::laws::law_member_lookup(*v, key@);
        }
    }
    r
}

/// The hexadecimal digit `d < 16` as `serde_json` writes it, lower case.
pub open spec fn hex_digit(d: u8) -> u8 {
    if d < 10 {
        (48 + d) as u8
    } else {
        (87 + d) as u8
    }
}

/// How one byte of a string's UTF-8 stands inside a JSON string literal:
/// quote, backslash and the control characters are escaped, other bytes
/// stand as they are.
pub open spec fn json_escape_byte(b: u8) -> Seq<u8> {
    if b == 0x22 {
        seq![0x5cu8, 0x22u8]
    } else if b == 0x5c {
        seq![0x5cu8, 0x5cu8]
    } else if b == 0x08 {
        seq![0x5cu8, 0x62u8]
    } else if b == 0x09 {
        seq![0x5cu8, 0x74u8]
    } else if b == 0x0a {
        seq![0x5cu8, 0x6eu8]
    } else if b == 0x0c {
        seq![0x5cu8, 0x66u8]
    } else if b == 0x0d {
        seq![0x5cu8, 0x72u8]
    } else if b < 0x20 {
        seq![0x5cu8, 0x75u8, 0x30u8, 0x30u8, hex_digit(b / 16), hex_digit(b % 16)]
    } else {
        seq![b]
    }
}

/// The escaped form of `bytes` inside a JSON string literal.
pub open spec fn json_escape(bytes: Seq<u8>) -> Seq<u8>
    decreases bytes.len(),
{
    if bytes.len() == 0 {
        seq![]
    } else {
        json_escape(bytes.drop_last()) + json_escape_byte(bytes.last())
    }
}

/// The JSON string literal of `s`.
pub open spec fn json_string(s: Seq<char>) -> Seq<u8> {
    seq![0x22u8] + json_escape(encode_utf8(s)) + seq![0x22u8]
}

/// The JSON string literals of `items`, separated by commas.
pub open spec fn json_string_list(items: Seq<Seq<char>>) -> Seq<u8>
    decreases items.len(),
{
    if items.len() == 0 {
        seq![]
    } else if items.len() == 1 {
        json_string(items[0])
    } else {
        json_string_list(items.drop_last()) + seq![0x2cu8] + json_string(items.last())
    }
}

/// The compact JSON array of the strings `items`.
pub open spec fn json_string_array(items: Seq<Seq<char>>) -> Seq<u8> {
    seq![0x5bu8] + json_string_list(items) + seq![0x5du8]
}

/// The views of a list of strings.
pub open spec fn strings_view(v: Seq<String>) -> Seq<Seq<char>> {
    v.map_values(|s: String| s@)
}

/// `serde_json::to_vec` on a `Vec<String>`: the bytes are the compact JSON
/// array of the strings, escaped as its `CompactFormatter` and escape table
/// do. It succeeds: for a list of strings its only errors are those of the
/// writer, and it writes into a `Vec<u8>`, whose writes do not fail.
#[verifier::external_body]
pub(crate) fn json_encode_strings(items: &Vec<String>) -> (r: Result<Vec<u8>, String>)
    ensures
        r is Ok,
        r is Ok ==> r->Ok_0@ == json_string_array(strings_view(items@)),
{
    serde_json::to_vec(items).map_err(|e| e.to_string())
}

} // verus!
