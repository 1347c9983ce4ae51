//! Decoding of a log entry's payload: its indexed values come as topics, the
//! others as 32-byte slots of its data, and both are put back in declaration
//! order before the values are read.

use rustc_hex::FromHex;
use vstd::hash_map::StringHashMap;
use vstd::prelude::*;
use vstd::string::*;

verus! {

#[verifier::external_type_specification]
#[verifier::external_body]
pub struct ExFromHexError(rustc_hex::FromHexError);

#[verifier::external_type_specification]
#[verifier::external_body]
pub struct ExAbiError(ethabi::Error);

/// One log entry as the node reports it; positions and payload are hex text.
#[allow(non_snake_case)]
#[derive(Clone, Debug)]
pub struct EventResult {
    pub logIndex: String,
    pub blockNumber: String,
    pub blockHash: String,
    pub transactionHash: String,
    pub transactionIndex: String,
    pub address: String,
    pub data: String,
    pub topics: Vec<String>,
}

/// The node's answer to a poll for new entries.
#[derive(Clone, Debug)]
pub struct EventChanges {
    pub id: i64,
    pub jsonrpc: String,
    pub result: Vec<EventResult>,
}

/// One parameter of an event: its name, its ABI type name and whether it is
/// indexed (carried in a topic) or not (carried in the data).
#[derive(Clone, Debug)]
pub struct Param {
    pub name: String,
    pub sol_type: String,
    pub is_indexed: bool,
}

/// Why a log entry could not be decoded.
#[derive(Clone, Copy, Debug, PartialEq, Eq, Structural)]
pub enum DecodeError {
    /// A topic or the data is not `0x`-prefixed hex.
    MalformedHex,
    /// The entry holds fewer topics or data slots than the parameters need.
    ParamCountMismatch,
    /// The bytes do not decode as values of the parameters' types.
    TypeDecode,
}

/// The number of hex digits in one data slot (32 bytes).
pub const SLOT_HEX_LEN: usize = 64;

/// The value of a hex digit of either case.
pub open spec fn hex_value(c: char) -> Option<nat> {
    let n = c as u32;
    if 48 <= n <= 57 {
        Some((n - 48) as nat)
    } else if 97 <= n <= 102 {
        Some((n - 87) as nat)
    } else if 65 <= n <= 70 {
        Some((n - 55) as nat)
    } else {
        None
    }
}

/// Characters that hex text may hold between digits.
pub open spec fn hex_skipped(c: char) -> bool {
    c == ' ' || c == '\r' || c == '\n' || c == '\t'
}

/// The digit values of `s` in order, or None where it holds another character.
pub open spec fn hex_digits(s: Seq<char>) -> Option<Seq<nat>>
    decreases s.len(),
{
    if s.len() == 0 {
        Some(Seq::empty())
    } else {
        match hex_digits(s.drop_last()) {
            None => None,
            Some(d) => if hex_skipped(s.last()) {
                Some(d)
            } else {
                match hex_value(s.last()) {
                    Some(v) => Some(d.push(v)),
                    None => None,
                }
            },
        }
    }
}

/// The bytes that hex text stands for, two digits each; None where it holds a
/// character that is neither a digit nor skipped, or an odd number of digits.
pub open spec fn hex_decode(s: Seq<char>) -> Option<Seq<u8>> {
    match hex_digits(s) {
        Some(d) => if d.len() % 2 == 0 {
            Some(Seq::new(d.len() / 2, |i: int| (d[2 * i] * 16 + d[2 * i + 1]) as u8))
        } else {
            None
        },
        None => None,
    }
}

/// Relies on rustc_hex's `FromHex for str`: each pair of hex digits (either
/// case) is a byte, spaces, tabs and line breaks are skipped, and any other
/// character or an odd number of digits is an error.
#[verifier::external_body]
fn bytes_from_hex(text: &str) -> (r: Result<Vec<u8>, rustc_hex::FromHexError>)
    ensures
        match r {
            Ok(b) => hex_decode(text@) == Some(b@),
            Err(_) => hex_decode(text@) is None,
        },
{
    text.from_hex()
}

/// The longest type name this decoder hands to ethabi.
pub const MAX_TYPE_NAME_LEN: usize = 16;

/// A type name of a single-slot value: ASCII, at most 16 characters, and
/// neither an array nor a tuple (no `]` or `)`), which are the names ethabi's
/// type reader and decoder handle without failing hard.
pub open spec fn supported_type_name(name: Seq<char>) -> bool {
    &&& name.len() <= MAX_TYPE_NAME_LEN
    &&& forall|i: int| 0 <= i < name.len() ==> (name[i] as u32) < 128 && name[i] != ']' && name[i] != ')'
}

/// What ethabi reads from `data` as values of the types named `types`, each
/// value written as text.
pub uninterp spec fn abi_decoded(types: Seq<Seq<char>>, data: Seq<u8>) -> Option<Seq<Seq<char>>>;

/// Relies on ethabi::decode, with each type name read by ethabi's
/// `Reader::read` and each decoded token written by its `Display`: it gives one
/// value per type, and its result depends on the arguments alone.
#[verifier::external_body]
fn abi_decode(types: &Vec<String>, data: &Vec<u8>) -> (r: Result<Vec<String>, ethabi::Error>)
    requires
        forall|i: int| 0 <= i < types@.len() ==> supported_type_name(#[trigger] types@[i]@),
    ensures
        r is Ok <==> abi_decoded(strings_view(types@), data@) is Some,
        r matches Ok(v) ==> (strings_view(v@) == abi_decoded(strings_view(types@), data@)->0
            && v@.len() == types@.len()),
{
    let kinds = types.iter().map(|t| ethabi::param_type::Reader::read(t)).collect::<Result<
        Vec<ethabi::ParamType>,
        ethabi::Error,
    >>()?;
    let tokens = ethabi::decode(&kinds, data)?;
    Ok(tokens.iter().map(|t| t.to_string()).collect())
}

/// The characters of each string of `v`.
pub open spec fn strings_view(v: Seq<String>) -> Seq<Seq<char>> {
    v.map_values(|s: String| s@)
}

/// `s` starts with `0x`.
pub open spec fn has_hex_prefix(s: Seq<char>) -> bool {
    s.len() >= 2 && s[0] == '0' && s[1] == 'x'
}

/// `s` without its `0x`.
pub open spec fn strip_hex_prefix(s: Seq<char>) -> Seq<char> {
    s.subrange(2, s.len() as int)
}

/// The hex text of the values of `params` from position `i` on, taking topics
/// from position `t` and data slots from digit `d` on: an indexed parameter
/// takes the next topic, any other the next 64 digits of `data`.
pub open spec fn demux_from(
    params: Seq<Param>,
    topics: Seq<Seq<char>>,
    data: Seq<char>,
    i: nat,
    t: nat,
    d: nat,
) -> Result<Seq<char>, DecodeError>
    decreases params.len() - i,
{
    if i >= params.len() {
        Ok(Seq::empty())
    } else if params[i as int].is_indexed {
        if t >= topics.len() {
            Err(DecodeError::ParamCountMismatch)
        } else if !has_hex_prefix(topics[t as int]) {
            Err(DecodeError::MalformedHex)
        } else {
            match demux_from(params, topics, data, i + 1, t + 1, d) {
                Ok(rest) => Ok(strip_hex_prefix(topics[t as int]) + rest),
                Err(e) => Err(e),
            }
        }
    } else {
        if d + SLOT_HEX_LEN > data.len() {
            Err(DecodeError::ParamCountMismatch)
        } else {
            match demux_from(params, topics, data, i + 1, t, (d + SLOT_HEX_LEN) as nat) {
                Ok(rest) => Ok(data.subrange(d as int, d + SLOT_HEX_LEN) + rest),
                Err(e) => Err(e),
            }
        }
    }
}

/// The hex text of all of an entry's parameter values in declaration order.
/// The first topic is the event's signature, so values start at the second;
/// an entry without it does not decode.
pub open spec fn payload_hex(e: EventResult, params: Seq<Param>) -> Result<Seq<char>, DecodeError> {
    if !has_hex_prefix(e.data@) {
        Err(DecodeError::MalformedHex)
    } else if strings_view(e.topics@).len() == 0 {
        Err(DecodeError::ParamCountMismatch)
    } else {
        demux_from(params, strings_view(e.topics@), strip_hex_prefix(e.data@), 0, 1, 0)
    }
}

/// The number of parameters from position `i` on that are not indexed, each
/// of which takes one data slot.
pub open spec fn plain_count(params: Seq<Param>, i: nat) -> nat
    decreases params.len() - i,
{
    if i >= params.len() {
        0
    } else if params[i as int].is_indexed {
        plain_count(params, i + 1)
    } else {
        1 + plain_count(params, i + 1)
    }
}

/// A character that is neither a hex digit nor one hex text may skip.
pub open spec fn malformed_hex_char(c: char) -> bool {
    hex_value(c) is None && !hex_skipped(c)
}

proof fn lemma_bad_char_spoils_hex(s: Seq<char>, p: int)
    requires
        0 <= p < s.len(),
        malformed_hex_char(s[p]),
    ensures
        hex_digits(s) is None,
    decreases s.len(),
{
    if p < s.len() - 1 {
        lemma_bad_char_spoils_hex(s.drop_last(), p);
    }
}

proof fn lemma_demux_keeps_data(
    params: Seq<Param>,
    topics: Seq<Seq<char>>,
    data: Seq<char>,
    i: nat,
    t: nat,
    d: nat,
    q: int,
)
    requires
        demux_from(params, topics, data, i, t, d) is Ok,
        d <= q < d + SLOT_HEX_LEN * plain_count(params, i),
        q < data.len(),
        malformed_hex_char(data[q]),
    ensures
        exists|p: int|
            0 <= p < demux_from(params, topics, data, i, t, d)->Ok_0.len() && malformed_hex_char(
                #[trigger] demux_from(params, topics, data, i, t, d)->Ok_0[p],
            ),
    decreases params.len() - i,
{
    let r = demux_from(params, topics, data, i, t, d)->Ok_0;
    if i >= params.len() {
    } else if params[i as int].is_indexed {
        lemma_demux_keeps_data(params, topics, data, i + 1, t + 1, d, q);
        let rest = demux_from(params, topics, data, i + 1, t + 1, d)->Ok_0;
        let head = strip_hex_prefix(topics[t as int]);
        let p = choose|p: int| 0 <= p < rest.len() && malformed_hex_char(#[trigger] rest[p]);
        assert(r[head.len() + p] == rest[p]);
    } else {
        let head = data.subrange(d as int, d + SLOT_HEX_LEN);
        if q < d + SLOT_HEX_LEN {
            assert(r[q - d] == data[q]);
        } else {
            let d2 = (d + SLOT_HEX_LEN) as nat;
            assert(SLOT_HEX_LEN * plain_count(params, i) == SLOT_HEX_LEN + SLOT_HEX_LEN * plain_count(
                params,
                i + 1,
            )) by (nonlinear_arith)
                requires
                    plain_count(params, i) == 1 + plain_count(params, i + 1),
            ;
            lemma_demux_keeps_data(params, topics, data, i + 1, t, d2, q);
            let rest = demux_from(params, topics, data, i + 1, t, d2)->Ok_0;
            let p = choose|p: int| 0 <= p < rest.len() && malformed_hex_char(#[trigger] rest[p]);
            assert(r[head.len() + p] == rest[p]);
        }
    }
}

/// An entry whose data holds exactly one 32-byte slot per non-indexed
/// parameter, one of whose characters is neither a hex digit nor skippable,
/// does not decode; when its topics are in order, the error is malformed hex.
pub proof fn lemma_malformed_data_does_not_decode(e: EventResult, params: Seq<Param>, q: int)
    requires
        has_hex_prefix(e.data@),
        strip_hex_prefix(e.data@).len() == SLOT_HEX_LEN * plain_count(params, 0),
        0 <= q < strip_hex_prefix(e.data@).len(),
        malformed_hex_char(strip_hex_prefix(e.data@)[q]),
    ensures
        decoded_fields(e, params) is Err,
        payload_hex(e, params) is Ok ==> decoded_fields(e, params) == Err::<
            Seq<(Seq<char>, Seq<char>)>,
            DecodeError,
        >(DecodeError::MalformedHex),
{
    if payload_hex(e, params) is Ok {
        let body = strip_hex_prefix(e.data@);
        lemma_demux_keeps_data(params, strings_view(e.topics@), body, 0, 1, 0, q);
        let r = payload_hex(e, params)->Ok_0;
        let p = choose|p: int| 0 <= p < r.len() && malformed_hex_char(#[trigger] r[p]);
        lemma_bad_char_spoils_hex(r, p);
    }
}

/// The type names of `params`.
pub open spec fn param_types(params: Seq<Param>) -> Seq<Seq<char>> {
    params.map_values(|p: Param| p.sol_type@)
}

/// Each parameter's name with its value, in declaration order.
pub open spec fn named_values(params: Seq<Param>, values: Seq<Seq<char>>) -> Seq<(Seq<char>, Seq<char>)> {
    Seq::new(params.len(), |i: int| (params[i].name@, values[i]))
}

/// The decoded fields of an entry, or why it does not decode.
pub open spec fn decoded_fields(e: EventResult, params: Seq<Param>) -> Result<
    Seq<(Seq<char>, Seq<char>)>,
    DecodeError,
> {
    match payload_hex(e, params) {
        Err(x) => Err(x),
        Ok(hex) => match hex_decode(hex) {
            None => Err(DecodeError::MalformedHex),
            Some(bytes) => if !(forall|i: int| 0 <= i < params.len() ==> supported_type_name(#[trigger] params[i].sol_type@)) {
                Err(DecodeError::TypeDecode)
            } else {
                match abi_decoded(param_types(params), bytes) {
                    None => Err(DecodeError::TypeDecode),
                    Some(values) => Ok(named_values(params, values)),
                }
            },
        },
    }
}

/// The pairs of `v` as sequences of characters.
pub open spec fn pairs_view(v: Seq<(String, String)>) -> Seq<(Seq<char>, Seq<char>)> {
    v.map_values(|p: (String, String)| (p.0@, p.1@))
}

/// The mapping from names to values that `pairs` gives when a later pair
/// replaces an earlier one of the same name.
pub open spec fn pairs_map(pairs: Seq<(String, String)>) -> Map<Seq<char>, String>
    decreases pairs.len(),
{
    if pairs.len() == 0 {
        Map::empty()
    } else {
        pairs_map(pairs.drop_last()).insert(pairs.last().0@, pairs.last().1)
    }
}

/// Whether ethabi is handed `name`.
pub fn is_supported_type_name(name: &str) -> (r: bool)
    ensures
        r == supported_type_name(name@),
{
    let n = name.unicode_len();
    if n > MAX_TYPE_NAME_LEN {
        return false;
    }
    let mut i: usize = 0;
    while i < n
        invariant
            i <= n,
            n == name@.len(),
            forall|j: int| 0 <= j < i ==> (name@[j] as u32) < 128 && name@[j] != ']' && name@[j] != ')',
        decreases n - i,
    {
        let c = name.get_char(i);
        if (c as u32) >= 128 || c == ']' || c == ')' {
            return false;
        }
        i = i + 1;
    }
    true
}

fn strip_prefix_text(s: &str) -> (r: Result<String, DecodeError>)
    ensures
        has_hex_prefix(s@) ==> (r matches Ok(x) && x@ == strip_hex_prefix(s@)),
        !has_hex_prefix(s@) ==> r == Err::<String, DecodeError>(DecodeError::MalformedHex),
{
    let n = s.unicode_len();
    if n >= 2 && s.get_char(0) == '0' && s.get_char(1) == 'x' {
        Ok(String::from_str(s.substring_char(2, n)))
    } else {
        Err(DecodeError::MalformedHex)
    }
}

impl EventResult {
    /// The hex text of this entry's parameter values, topics and data slots
    /// put back in declaration order.
    pub fn payload_hex(&self, params: &Vec<Param>) -> (r: Result<String, DecodeError>)
        ensures
            match r {
                Ok(h) => payload_hex(*self, params@) == Ok::<Seq<char>, DecodeError>(h@),
                Err(x) => payload_hex(*self, params@) == Err::<Seq<char>, DecodeError>(x),
            },
    {
        let data = strip_prefix_text(self.data.as_str())?;
        if self.topics.len() == 0 {
            return Err(DecodeError::ParamCountMismatch);
        }
        let data_len = data.as_str().unicode_len();
        let ghost topics = strings_view(self.topics@);
        let ghost body = data@;
        let mut out = String::new();
        let mut i: usize = 0;
        let mut t: usize = 1;
        let mut d: usize = 0;
        while i < params.len()
            invariant
                i <= params@.len(),
                d <= data_len,
                data_len == body.len(),
                body == data@,
                topics == strings_view(self.topics@),
                has_hex_prefix(self.data@),
                body == strip_hex_prefix(self.data@),
                payload_hex(*self, params@) == match demux_from(params@, topics, body, i as nat, t as nat, d as nat) {
                    Ok(rest) => Ok::<Seq<char>, DecodeError>(out@ + rest),
                    Err(e) => Err(e),
                },
            decreases params.len() - i,
        {
            if params[i].is_indexed {
                if t >= self.topics.len() {
                    return Err(DecodeError::ParamCountMismatch);
                }
                let topic = strip_prefix_text(self.topics[t].as_str())?;
                out.append(topic.as_str());
                t = t + 1;
            } else {
                if data_len - d < SLOT_HEX_LEN {
                    return Err(DecodeError::ParamCountMismatch);
                }
                let slot = data.as_str().substring_char(d, d + SLOT_HEX_LEN);
                out.append(slot);
                d = d + SLOT_HEX_LEN;
            }
            i = i + 1;
            proof {
                assert forall|x: Seq<char>, y: Seq<char>, z: Seq<char>| #[trigger] ((x + y) + z) == x + (y + z) by {
                    assert((x + y) + z =~= x + (y + z));
                }
            }
        }
        Ok(out)
    }

    /// The decoded fields of this entry, read in place: each parameter's name
    /// with its value as text, in declaration order.
    pub fn decode_fields(&self, inputs: &Vec<Param>) -> (r: Result<Vec<(String, String)>, DecodeError>)
        ensures
            match r {
                Ok(v) => decoded_fields(*self, inputs@) == Ok::<
                    Seq<(Seq<char>, Seq<char>)>,
                    DecodeError,
                >(pairs_view(v@)),
                Err(x) => decoded_fields(*self, inputs@) == Err::<
                    Seq<(Seq<char>, Seq<char>)>,
                    DecodeError,
                >(x),
            },
    {
        let hex = self.payload_hex(inputs)?;
        let bytes = match bytes_from_hex(hex.as_str()) {
            Ok(b) => b,
            Err(_) => return Err(DecodeError::MalformedHex),
        };
        let mut types: Vec<String> = Vec::new();
        let mut k: usize = 0;
        while k < inputs.len()
            invariant
                k <= inputs@.len(),
                types@.len() == k,
                forall|i: int| 0 <= i < k ==> supported_type_name(#[trigger] inputs@[i].sol_type@),
                forall|i: int| 0 <= i < k ==> supported_type_name(#[trigger] types@[i]@),
                payload_hex(*self, inputs@) == Ok::<Seq<char>, DecodeError>(hex@),
                hex_decode(hex@) == Some(bytes@),
                strings_view(types@) == param_types(inputs@).subrange(0, k as int),
            decreases inputs.len() - k,
        {
            if !is_supported_type_name(inputs[k].sol_type.as_str()) {
                assert(!supported_type_name(inputs@[k as int].sol_type@));
                return Err(DecodeError::TypeDecode);
            }
            let name = inputs[k].sol_type.clone();
            types.push(name);
            assert(types@[k as int]@ == inputs@[k as int].sol_type@);
            k = k + 1;
            assert(strings_view(types@) =~= param_types(inputs@).subrange(0, k as int));
        }
        assert(strings_view(types@) =~= param_types(inputs@));
        let values = match abi_decode(&types, &bytes) {
            Ok(v) => v,
            Err(_) => return Err(DecodeError::TypeDecode),
        };
        let mut fields: Vec<(String, String)> = Vec::new();
        let mut j: usize = 0;
        while j < inputs.len()
            invariant
                j <= inputs@.len(),
                values@.len() == inputs@.len(),
                fields@.len() == j,
                pairs_view(fields@) == named_values(inputs@, strings_view(values@)).subrange(0, j as int),
            decreases inputs.len() - j,
        {
            fields.push((inputs[j].name.clone(), values[j].clone()));
            j = j + 1;
            assert(pairs_view(fields@) =~= named_values(inputs@, strings_view(values@)).subrange(0, j as int));
        }
        assert(pairs_view(fields@) =~= named_values(inputs@, strings_view(values@)));
        Ok(fields)
    }

    /// The decoded fields of this entry, each parameter's name with its value
    /// as text, in declaration order.
    /// The entry and the parameters are taken by value.
    pub fn decode_vector(self, inputs: Vec<Param>) -> (r: Result<Vec<(String, String)>, DecodeError>)
        ensures
            match r {
                Ok(v) => decoded_fields(self, inputs@) == Ok::<
                    Seq<(Seq<char>, Seq<char>)>,
                    DecodeError,
                >(pairs_view(v@)),
                Err(x) => decoded_fields(self, inputs@) == Err::<
                    Seq<(Seq<char>, Seq<char>)>,
                    DecodeError,
                >(x),
            },
    {
        self.decode_fields(&inputs)
    }

    /// The decoded fields of this entry as a mapping from parameter name to
    /// value; of two parameters with one name, the later one's value stays.
    pub fn decode_hashmap(self, inputs: Vec<Param>) -> (r: Result<StringHashMap<String>, DecodeError>)
        ensures
            match decoded_fields(self, inputs@) {
                Ok(_) => (r matches Ok(m) && exists|v: Seq<(String, String)>|
                    decoded_fields(self, inputs@) == Ok::<
                        Seq<(Seq<char>, Seq<char>)>,
                        DecodeError,
                    >(pairs_view(v)) && m@ == pairs_map(v)),
                Err(x) => r == Err::<StringHashMap<String>, DecodeError>(x),
            },
    {
        let fields = self.decode_fields(&inputs)?;
        let mut m: StringHashMap<String> = StringHashMap::new();
        let mut i: usize = 0;
        while i < fields.len()
            invariant
                i <= fields@.len(),
                m@ == pairs_map(fields@.subrange(0, i as int)),
            decreases fields.len() - i,
        {
            let (name, value) = &fields[i];
            m.insert(name.clone(), value.clone());
            assert(fields@.subrange(0, i + 1).drop_last() =~= fields@.subrange(0, i as int));
            i = i + 1;
        }
        assert(fields@.subrange(0, i as int) =~= fields@);
        Ok(m)
    }
}

} // verus!
