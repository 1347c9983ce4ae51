//! JSON text of the records this library stores, framed around string values
//! that serde_json writes and reads.

use vstd::prelude::*;
use vstd::string::*;

use crate::decimal::{nat_decimal, u64_to_decimal};

verus! {

/// A lower-case hex digit.
pub open spec fn lower_hex_digit(n: nat) -> char {
    if n < 10 {
        (('0' as u32) + n) as char
    } else {
        (('a' as u32) + (n - 10)) as char
    }
}

/// How serde_json writes one character inside a string literal: `"` and `\`
/// and the control characters escaped, backspace, tab, line feed, form feed
/// and carriage return by letter and the others as `\u00XX`; every other
/// character as it is.
pub open spec fn json_escape(c: char) -> Seq<char> {
    let n = c as u32;
    if c == '"' {
        seq!['\\', '"']
    } else if c == '\\' {
        seq!['\\', '\\']
    } else if n == 8 {
        seq!['\\', 'b']
    } else if n == 9 {
        seq!['\\', 't']
    } else if n == 10 {
        seq!['\\', 'n']
    } else if n == 12 {
        seq!['\\', 'f']
    } else if n == 13 {
        seq!['\\', 'r']
    } else if n < 32 {
        seq!['\\', 'u', '0', '0', lower_hex_digit((n / 16) as nat), lower_hex_digit((n % 16) as nat)]
    } else {
        seq![c]
    }
}

/// The characters of `s`, each escaped.
pub open spec fn json_escaped(s: Seq<char>) -> Seq<char>
    decreases s.len(),
{
    if s.len() == 0 {
        Seq::empty()
    } else {
        json_escaped(s.drop_last()) + json_escape(s.last())
    }
}

/// The JSON string literal of `s`: its escaped characters in double quotes.
pub open spec fn json_quoted(s: Seq<char>) -> Seq<char> {
    seq!['"'] + json_escaped(s) + seq!['"']
}

/// Relies on serde_json's `Display` of `Value::String`, which writes the
/// string with its characters escaped as `json_escape` says, in double quotes.
#[verifier::external_body]
fn json_string(s: &str) -> (r: String)
    ensures
        r@ == json_quoted(s@),
{
    serde_json::Value::String(s.to_string()).to_string()
}

/// The string that serde_json finds under `field` when it reads `doc` as a JSON
/// object.
pub uninterp spec fn json_field_text(doc: Seq<char>, field: Seq<char>) -> Option<Seq<char>>;

/// Relies on serde_json::from_str, `Value::get` and `Value::as_str`: the
/// string under `field` of the JSON object `doc`, or None where `doc` is not
/// JSON, not an object, or holds no string there; it depends on the
/// arguments alone.
#[verifier::external_body]
fn json_string_field(doc: &str, field: &str) -> (r: Option<String>)
    ensures
        match r {
            Some(v) => json_field_text(doc@, field@) == Some(v@),
            None => json_field_text(doc@, field@) is None,
        },
{
    let value = serde_json::from_str::<serde_json::Value>(doc).ok()?;
    value.get(field).and_then(|v| v.as_str()).map(|v| v.to_string())
}

/// `"name":"value"` with both quoted.
pub open spec fn json_member(pair: (Seq<char>, Seq<char>)) -> Seq<char> {
    json_quoted(pair.0) + seq![':'] + json_quoted(pair.1)
}

/// The members of `pairs`, separated by commas.
pub open spec fn json_members(pairs: Seq<(Seq<char>, Seq<char>)>) -> Seq<char>
    decreases pairs.len(),
{
    if pairs.len() == 0 {
        Seq::empty()
    } else if pairs.len() == 1 {
        json_member(pairs[0])
    } else {
        json_members(pairs.drop_last()) + seq![','] + json_member(pairs.last())
    }
}

/// The JSON object of `pairs`, in their order.
pub open spec fn json_object(pairs: Seq<(Seq<char>, Seq<char>)>) -> Seq<char> {
    seq!['{'] + json_members(pairs) + seq!['}']
}

/// The JSON object with a string member for each of `fields`, in order.
pub fn fields_json(fields: &Vec<(String, String)>) -> (r: String)
    ensures
        r@ == json_object(fields@.map_values(|p: (String, String)| (p.0@, p.1@))),
{
    let ghost pairs = fields@.map_values(|p: (String, String)| (p.0@, p.1@));
    let mut body = String::new();
    let mut i: usize = 0;
    while i < fields.len()
        invariant
            i <= fields@.len(),
            pairs == fields@.map_values(|p: (String, String)| (p.0@, p.1@)),
            body@ == json_members(pairs.subrange(0, i as int)),
        decreases fields.len() - i,
    {
        proof {
            reveal_strlit(",");
            reveal_strlit(":");
        }
        if i > 0 {
            body.append(",");
        }
        let name = json_string(fields[i].0.as_str());
        let value = json_string(fields[i].1.as_str());
        body.append(name.as_str());
        body.append(":");
        body.append(value.as_str());
        proof {
            let s = pairs.subrange(0, i + 1);
            assert(s.drop_last() =~= pairs.subrange(0, i as int));
            assert(s.last() == pairs[i as int]);
            if i == 0 {
                assert(body@ =~= json_member(pairs[0]));
            } else {
                assert(body@ =~= json_members(pairs.subrange(0, i as int)) + seq![','] + json_member(
                    pairs[i as int],
                ));
            }
        }
        i = i + 1;
    }
    assert(pairs.subrange(0, i as int) =~= pairs);
    let mut r = String::from_str("{");
    r.append(body.as_str());
    r.append("}");
    proof {
        reveal_strlit("{");
        reveal_strlit("}");
        assert(r@ =~= json_object(pairs));
    }
    r
}

/// The checkpoint record: the last position and the time it was reached, in
/// milliseconds.
pub open spec fn checkpoint_json(position: Seq<char>, ts: nat) -> Seq<char> {
    "{\"last_block\": "@ + json_quoted(position) + ", \"ts\": "@ + nat_decimal(ts) + "}"@
}

/// The checkpoint record of `position` reached at `ts` milliseconds.
pub fn checkpoint_record(position: &str, ts: u64) -> (r: String)
    ensures
        r@ == checkpoint_json(position@, ts as nat),
{
    let mut r = String::from_str("{\"last_block\": ");
    let quoted = json_string(position);
    r.append(quoted.as_str());
    r.append(", \"ts\": ");
    let digits = u64_to_decimal(ts);
    r.append(digits.as_str());
    r.append("}");
    r
}

/// The position a stored checkpoint record names, if it names one.
pub fn checkpoint_position(record: &str) -> (r: Option<String>)
    ensures
        match r {
            Some(v) => json_field_text(record@, "last_block"@) == Some(v@),
            None => json_field_text(record@, "last_block"@) is None,
        },
{
    json_string_field(record, "last_block")
}

/// The string a node's JSON-RPC answer `doc` holds under `result`, if any.
pub fn rpc_result(doc: &str) -> (r: Option<String>)
    ensures
        match r {
            Some(v) => json_field_text(doc@, "result"@) == Some(v@),
            None => json_field_text(doc@, "result"@) is None,
        },
{
    json_string_field(doc, "result")
}

} // verus!
