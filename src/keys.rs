//! Fixed-width, lexicographically sortable keys.

use vstd::prelude::*;
use vstd::string::*;
use vstd::utf8::{encode_scalar, encode_utf8, encode_utf8_valid_utf8, is_char_boundary, is_char_boundary_start_end_of_seq, valid_utf8};

use crate::decimal::{i64_to_decimal, int_decimal, nat_decimal, u64_to_decimal};

verus! {

/// The character used to fill a segment up to its width.
pub const PAD_CHAR: char = '-';

/// The byte used to fill a segment up to its width.
pub const PAD_BYTE: u8 = 0x2d;

/// `s` cut to its first `width` items, or filled with `fill` up to `width` items.
pub open spec fn pad_seq<A>(s: Seq<A>, width: nat, fill: A) -> Seq<A> {
    if s.len() >= width {
        s.subrange(0, width as int)
    } else {
        s + Seq::new((width - s.len()) as nat, |_i: int| fill)
    }
}

/// The UTF-8 bytes of `a + b` are those of `a` followed by those of `b`.
pub proof fn lemma_encode_concat(a: Seq<char>, b: Seq<char>)
    ensures
        encode_utf8(a + b) == encode_utf8(a) + encode_utf8(b),
    decreases a.len(),
{
    if a.len() == 0 {
        assert(a + b =~= b);
        assert(encode_utf8(a) + encode_utf8(b) =~= encode_utf8(b));
    } else {
        lemma_encode_concat(a.drop_first(), b);
        assert((a + b).drop_first() =~= a.drop_first() + b);
        assert((a + b)[0] == a[0]);
        assert(encode_utf8(a + b) =~= encode_utf8(a) + encode_utf8(b));
    }
}

proof fn lemma_encode_dash()
    ensures
        encode_utf8(seq![PAD_CHAR]) == seq![PAD_BYTE],
{
    let s = seq![PAD_CHAR];
    assert(s.drop_first() =~= Seq::<char>::empty());
    assert(encode_utf8(s.drop_first()) =~= Seq::<u8>::empty());
    assert(s[0] as u32 == 45u32);
    assert((45u32 & 0x7Fu32) as u8 == 45u8) by (bit_vector);
    assert(encode_scalar(s[0] as u32) =~= seq![PAD_BYTE]);
    assert(encode_utf8(s) =~= seq![PAD_BYTE]);
}

/// The longest cut of `b` at most `width` bytes long that falls between two
/// characters.
pub open spec fn cut_point(b: Seq<u8>, width: nat) -> nat
    decreases width,
{
    if width == 0 || is_char_boundary(b, width as int) {
        width
    } else {
        cut_point(b, (width - 1) as nat)
    }
}

proof fn lemma_cut_point(b: Seq<u8>, width: nat)
    requires
        valid_utf8(b),
    ensures
        cut_point(b, width) <= width,
        is_char_boundary(b, cut_point(b, width) as int),
    decreases width,
{
    if width > 0 && !is_char_boundary(b, width as int) {
        lemma_cut_point(b, (width - 1) as nat);
    }
}

/// How many bytes of `b` a segment of `width` bytes keeps: all of them when
/// they are fewer, else the longest cut at most `width` bytes long that falls
/// between two characters.
pub open spec fn text_cut(b: Seq<u8>, width: nat) -> nat {
    if b.len() < width {
        b.len()
    } else {
        cut_point(b, width)
    }
}

/// A segment of exactly `width` bytes made from the UTF-8 bytes `b` of a text:
/// `b` padded with `-` bytes, or cut to its first `width` bytes; where that
/// cut would split a character, the cut is made before it and `-` fills the
/// rest.
pub open spec fn pad_text(b: Seq<u8>, width: nat) -> Seq<u8> {
    let k = text_cut(b, width);
    b.subrange(0, k as int) + Seq::new((width - k) as nat, |_i: int| PAD_BYTE)
}

proof fn lemma_pad_text(b: Seq<u8>, width: nat)
    requires
        valid_utf8(b),
    ensures
        text_cut(b, width) <= width,
        text_cut(b, width) <= b.len(),
        pad_text(b, width).len() == width,
        b.len() < width ==> pad_text(b, width) == pad_seq(b, width, PAD_BYTE),
        b.len() >= width && is_char_boundary(b, width as int) ==> pad_text(b, width) == pad_seq(
            b,
            width,
            PAD_BYTE,
        ),
{
    lemma_cut_point(b, width);
    if b.len() < width {
        assert(b.subrange(0, b.len() as int) =~= b);
        assert(pad_text(b, width) =~= pad_seq(b, width, PAD_BYTE));
    }
    if b.len() >= width && is_char_boundary(b, width as int) {
        assert(pad_text(b, width) =~= pad_seq(b, width, PAD_BYTE));
    }
}

/// The bytes of `value` made a segment of exactly `width` bytes: padded with
/// `-` when shorter, cut to its first `width` bytes when longer (before a
/// character that the cut would split, with `-` filling the rest).
pub fn pad_segment(value: &str, width: usize) -> (r: String)
    ensures
        encode_utf8(r@) == pad_text(encode_utf8(value@), width as nat),
        encode_utf8(r@).len() == width,
        encode_utf8(value@).len() < width ==> encode_utf8(r@) == pad_seq(
            encode_utf8(value@),
            width as nat,
            PAD_BYTE,
        ) && encode_utf8(r@).subrange(0, encode_utf8(value@).len() as int) == encode_utf8(value@),
        encode_utf8(value@).len() >= width && is_char_boundary(encode_utf8(value@), width as int)
            ==> encode_utf8(r@) == encode_utf8(value@).subrange(0, width as int),
{
    let ghost b = encode_utf8(value@);
    proof {
        encode_utf8_valid_utf8(value@);
        is_char_boundary_start_end_of_seq(b);
        lemma_pad_text(b, width as nat);
        lemma_cut_point(b, width as nat);
    }
    let n = value.as_bytes().len();
    let mut k: usize = if n < width {
        n
    } else {
        width
    };
    if n >= width {
        while k > 0 && !value.is_char_boundary(k)
            invariant
                k <= width <= n,
                n == b.len(),
                b == encode_utf8(value@),
                cut_point(b, width as nat) == cut_point(b, k as nat),
            decreases k,
        {
            k = k - 1;
        }
    }
    assert(k == text_cut(b, width as nat));
    let (head, _) = value.split_at(k);
    let mut r = String::from_str(head);
    assert(encode_utf8(r@) =~= b.subrange(0, k as int));
    let mut i: usize = k;
    while i < width
        invariant
            k <= i <= width,
            encode_utf8(r@) == b.subrange(0, k as int) + Seq::new((i - k) as nat, |_j: int| PAD_BYTE),
        decreases width - i,
    {
        let ghost before = r@;
        proof {
            reveal_strlit("-");
        }
        r.append("-");
        proof {
            lemma_encode_concat(before, seq![PAD_CHAR]);
            lemma_encode_dash();
            assert("-"@ =~= seq![PAD_CHAR]);
        }
        i = i + 1;
        assert(encode_utf8(r@) =~= b.subrange(0, k as int) + Seq::new((i - k) as nat, |_j: int| PAD_BYTE));
    }
    proof {
        if b.len() < width {
            assert(pad_seq(b, width as nat, PAD_BYTE).subrange(0, b.len() as int) =~= b);
        }
    }
    r
}

/// Pads the bytes of `value` with `-` up to `width` bytes, or truncates them to
/// their first `width` bytes.
pub fn pad_bytes(value: &[u8], width: usize) -> (r: Vec<u8>)
    ensures
        r@ == pad_seq(value@, width as nat, PAD_BYTE),
{
    let mut r: Vec<u8> = Vec::new();
    let mut i: usize = 0;
    while i < width
        invariant
            i <= width,
            r@ == pad_seq(value@, width as nat, PAD_BYTE).subrange(0, i as int),
        decreases width - i,
    {
        if i < value.len() {
            r.push(value[i]);
        } else {
            r.push(PAD_BYTE);
        }
        i = i + 1;
        assert(r@ =~= pad_seq(value@, width as nat, PAD_BYTE).subrange(0, i as int));
    }
    assert(r@ =~= pad_seq(value@, width as nat, PAD_BYTE));
    r
}

/// Whether `key`, cut or padded to the length of `prefix`, is exactly `prefix`.
pub fn prefix_matches(key: &[u8], prefix: &[u8]) -> (r: bool)
    ensures
        r == (pad_seq(key@, prefix@.len(), PAD_BYTE) == prefix@),
{
    let mut i: usize = 0;
    while i < prefix.len()
        invariant
            i <= prefix@.len(),
            pad_seq(key@, prefix@.len(), PAD_BYTE).subrange(0, i as int) == prefix@.subrange(0, i as int),
        decreases prefix.len() - i,
    {
        let c = if i < key.len() { key[i] } else { PAD_BYTE };
        if c != prefix[i] {
            assert(pad_seq(key@, prefix@.len(), PAD_BYTE)[i as int] != prefix@[i as int]);
            return false;
        }
        i = i + 1;
        assert(pad_seq(key@, prefix@.len(), PAD_BYTE).subrange(0, i as int) =~= prefix@.subrange(0, i as int));
    }
    let ghost padded = pad_seq(key@, prefix@.len(), PAD_BYTE);
    assert(padded.len() == prefix@.len());
    assert(padded.subrange(0, i as int) =~= padded);
    assert(prefix@.subrange(0, i as int) =~= prefix@);
    true
}

/// The prefix that a scan for `query` matches keys against: the bytes of
/// `query` made a segment of `prefix_size` bytes, as keys' segments are.
pub fn get_prefix_from_query(query: String, prefix_size: usize) -> (r: Vec<u8>)
    ensures
        r@ == pad_text(encode_utf8(query@), prefix_size as nat),
{
    let segment = pad_segment(query.as_str(), prefix_size);
    segment.as_str().as_bytes_vec()
}

/// `string_key` made a segment of `prefix_size` bytes.
pub fn parse_string_by_prefix(string_key: String, prefix_size: usize) -> (r: String)
    ensures
        encode_utf8(r@) == pad_text(encode_utf8(string_key@), prefix_size as nat),
{
    pad_segment(string_key.as_str(), prefix_size)
}

/// The width of the block-number and of the log-index segment of a key.
pub const POSITION_WIDTH: usize = 15;

/// The bytes of the key of the record at (`block`, `log`) of event `name`.
pub open spec fn record_key(name: Seq<char>, name_width: nat, block: Seq<char>, log: Seq<char>) -> Seq<u8> {
    pad_text(encode_utf8(name), name_width) + pad_text(encode_utf8(block), POSITION_WIDTH as nat)
        + pad_text(encode_utf8(log), POSITION_WIDTH as nat)
}

/// The key of the record of event `key` at block `block_nr` and log index
/// `log_nr`: the name padded to `prefix_size`, then each position padded to 15.
pub fn build_query(key: String, block_nr: String, log_nr: String, prefix_size: usize) -> (r: String)
    ensures
        encode_utf8(r@) == record_key(key@, prefix_size as nat, block_nr@, log_nr@),
        encode_utf8(r@).len() == prefix_size + 2 * POSITION_WIDTH,
{
    let mut r = pad_segment(key.as_str(), prefix_size);
    let b = pad_segment(block_nr.as_str(), POSITION_WIDTH);
    let l = pad_segment(log_nr.as_str(), POSITION_WIDTH);
    let ghost r0 = r@;
    r.append(b.as_str());
    let ghost r1 = r@;
    r.append(l.as_str());
    proof {
        lemma_encode_concat(r0, b@);
        lemma_encode_concat(r1, l@);
    }
    r
}

/// `a` and `b` agree below `i`, and at `i` either `a` holds the smaller
/// byte or `a` has ended while `b` goes on.
pub open spec fn lex_less_at(a: Seq<u8>, b: Seq<u8>, i: int) -> bool {
    &&& 0 <= i <= a.len()
    &&& i <= b.len()
    &&& a.subrange(0, i) == b.subrange(0, i)
    &&& ((i < a.len() && i < b.len() && a[i] < b[i]) || (i == a.len() && i < b.len()))
}

/// `a` comes strictly before `b` in lexicographic order of bytes.
pub open spec fn lex_less(a: Seq<u8>, b: Seq<u8>) -> bool {
    exists|i: int| lex_less_at(a, b, i)
}

/// Every byte of `s` sorts after the padding byte, as digits and letters do.
pub open spec fn above_pad(s: Seq<u8>) -> bool {
    forall|i: int| 0 <= i < s.len() ==> s[i] > PAD_BYTE
}

/// Order of log positions: by block number, then by log index, each compared
/// as bytes.
pub open spec fn position_less(block1: Seq<u8>, log1: Seq<u8>, block2: Seq<u8>, log2: Seq<u8>) -> bool {
    lex_less(block1, block2) || (block1 == block2 && lex_less(log1, log2))
}

proof fn lemma_pad_keeps_order(a: Seq<u8>, b: Seq<u8>, width: nat)
    requires
        a.len() <= width,
        b.len() <= width,
        above_pad(b),
        lex_less(a, b),
    ensures
        lex_less(pad_seq(a, width, PAD_BYTE), pad_seq(b, width, PAD_BYTE)),
        pad_seq(a, width, PAD_BYTE).len() == width,
        pad_seq(b, width, PAD_BYTE).len() == width,
{
    let i = choose|i: int| lex_less_at(a, b, i);
    let pa = pad_seq(a, width, PAD_BYTE);
    let pb = pad_seq(b, width, PAD_BYTE);
    assert(pa.subrange(0, i) =~= a.subrange(0, i));
    assert(pb.subrange(0, i) =~= b.subrange(0, i));
    assert(lex_less_at(pa, pb, i));
}

proof fn lemma_order_survives_suffix(x: Seq<u8>, y: Seq<u8>, u: Seq<u8>, v: Seq<u8>)
    requires
        x.len() == y.len(),
        lex_less(x, y),
    ensures
        lex_less(x + u, y + v),
{
    let i = choose|i: int| lex_less_at(x, y, i);
    assert((x + u).subrange(0, i) =~= x.subrange(0, i));
    assert((y + v).subrange(0, i) =~= y.subrange(0, i));
    assert(lex_less_at(x + u, y + v, i));
}

proof fn lemma_order_survives_prefix(p: Seq<u8>, x: Seq<u8>, y: Seq<u8>)
    requires
        lex_less(x, y),
    ensures
        lex_less(p + x, p + y),
{
    let i = choose|i: int| lex_less_at(x, y, i);
    let j = p.len() + i;
    assert((p + x).subrange(0, j) =~= p + x.subrange(0, i));
    assert((p + y).subrange(0, j) =~= p + y.subrange(0, i));
    assert(lex_less_at(p + x, p + y, j));
}

proof fn lemma_short_text_pads_plainly(s: Seq<char>)
    requires
        encode_utf8(s).len() <= POSITION_WIDTH,
    ensures
        pad_text(encode_utf8(s), POSITION_WIDTH as nat) == pad_seq(encode_utf8(s), POSITION_WIDTH as nat, PAD_BYTE),
{
    let b = encode_utf8(s);
    encode_utf8_valid_utf8(s);
    is_char_boundary_start_end_of_seq(b);
    lemma_pad_text(b, POSITION_WIDTH as nat);
}

/// Keys of one event sort as their positions do: where `(block1, log1)` comes
/// before `(block2, log2)`, the bytes of the first record key come before
/// those of the second. Positions are at most 15 bytes of digits or letters.
pub proof fn lemma_record_keys_follow_positions(
    name: Seq<char>,
    name_width: nat,
    block1: Seq<char>,
    log1: Seq<char>,
    block2: Seq<char>,
    log2: Seq<char>,
)
    requires
        encode_utf8(block1).len() <= POSITION_WIDTH,
        encode_utf8(log1).len() <= POSITION_WIDTH,
        encode_utf8(block2).len() <= POSITION_WIDTH,
        encode_utf8(log2).len() <= POSITION_WIDTH,
        above_pad(encode_utf8(block1)),
        above_pad(encode_utf8(log1)),
        above_pad(encode_utf8(block2)),
        above_pad(encode_utf8(log2)),
        position_less(encode_utf8(block1), encode_utf8(log1), encode_utf8(block2), encode_utf8(log2)),
    ensures
        lex_less(
            record_key(name, name_width, block1, log1),
            record_key(name, name_width, block2, log2),
        ),
{
    let w = POSITION_WIDTH as nat;
    let (b1, l1, b2, l2) = (encode_utf8(block1), encode_utf8(log1), encode_utf8(block2), encode_utf8(log2));
    lemma_short_text_pads_plainly(block1);
    lemma_short_text_pads_plainly(log1);
    lemma_short_text_pads_plainly(block2);
    lemma_short_text_pads_plainly(log2);
    let p = pad_text(encode_utf8(name), name_width);
    let pb1 = pad_seq(b1, w, PAD_BYTE);
    let pb2 = pad_seq(b2, w, PAD_BYTE);
    let pl1 = pad_seq(l1, w, PAD_BYTE);
    let pl2 = pad_seq(l2, w, PAD_BYTE);
    if lex_less(b1, b2) {
        lemma_pad_keeps_order(b1, b2, w);
        lemma_order_survives_suffix(pb1, pb2, pl1, pl2);
        lemma_order_survives_prefix(p, pb1 + pl1, pb2 + pl2);
        assert(p + pb1 + pl1 =~= p + (pb1 + pl1));
        assert(p + pb2 + pl2 =~= p + (pb2 + pl2));
    } else {
        lemma_pad_keeps_order(l1, l2, w);
        lemma_order_survives_prefix(p + pb1, pl1, pl2);
    }
}

/// One segment of a key: a value and the width it is padded or cut to.
#[derive(Clone, Debug)]
pub enum EventPrefixParam {
    PureString(String),
    Int32(i32),
    Int64(i64),
    UInt32(u32),
    UInt64(u64),
}

/// The text of a segment value: a string as it is, an integer in decimal.
pub open spec fn param_text(p: EventPrefixParam) -> Seq<char> {
    match p {
        EventPrefixParam::PureString(s) => s@,
        EventPrefixParam::Int32(i) => int_decimal(i as int),
        EventPrefixParam::Int64(i) => int_decimal(i as int),
        EventPrefixParam::UInt32(u) => nat_decimal(u as nat),
        EventPrefixParam::UInt64(u) => nat_decimal(u as nat),
    }
}

/// The bytes of the key built from `segments`: each value's text made a
/// segment of its width in bytes, in order.
pub open spec fn key_of(segments: Seq<(EventPrefixParam, usize)>) -> Seq<u8>
    decreases segments.len(),
{
    if segments.len() == 0 {
        Seq::empty()
    } else {
        let last = segments.last();
        key_of(segments.drop_last()) + pad_text(encode_utf8(param_text(last.0)), last.1 as nat)
    }
}

impl EventPrefixParam {
    /// The text of this value.
    pub fn text(&self) -> (r: String)
        ensures
            r@ == param_text(*self),
    {
        match self {
            EventPrefixParam::PureString(s) => s.clone(),
            EventPrefixParam::Int32(i) => i64_to_decimal(*i as i64),
            EventPrefixParam::Int64(i) => i64_to_decimal(*i),
            EventPrefixParam::UInt32(u) => u64_to_decimal(*u as u64),
            EventPrefixParam::UInt64(u) => u64_to_decimal(*u),
        }
    }
}

/// An ordered list of key segments.
#[derive(Clone, Debug)]
pub struct EventPrefix {
    pub params: Vec<(EventPrefixParam, usize)>,
}

impl EventPrefix {
    /// The key of these segments: the concatenation of each value's text padded
    /// with `-` or cut to its width.
    pub fn generate_key(self) -> (r: String)
        ensures
            encode_utf8(r@) == key_of(self.params@),
    {
        let mut r = String::new();
        let mut i: usize = 0;
        assert(encode_utf8(r@) =~= key_of(self.params@.subrange(0, 0)));
        while i < self.params.len()
            invariant
                i <= self.params@.len(),
                encode_utf8(r@) == key_of(self.params@.subrange(0, i as int)),
            decreases self.params.len() - i,
        {
            let (param, width) = &self.params[i];
            let text = param.text();
            let seg = pad_segment(text.as_str(), *width);
            let ghost before = r@;
            r.append(seg.as_str());
            proof {
                lemma_encode_concat(before, seg@);
            }
            proof {
                let s = self.params@.subrange(0, i + 1);
                assert(s.drop_last() =~= self.params@.subrange(0, i as int));
            }
            i = i + 1;
        }
        assert(self.params@.subrange(0, i as int) =~= self.params@);
        r
    }

    /// Adds `params` after the present segments.
    pub fn append_param(&mut self, params: Vec<(EventPrefixParam, usize)>)
        ensures
            final(self).params@ == old(self).params@ + params@,
    {
        let mut tail = params;
        self.params.append(&mut tail);
    }

    /// Adds `params` before the present segments.
    pub fn append_at_beggining(&mut self, params: Vec<(EventPrefixParam, usize)>)
        ensures
            final(self).params@ == params@ + old(self).params@,
    {
        let mut front = params;
        front.append(&mut self.params);
        self.params = front;
    }

    /// Inserts `param` at position `index` when that position holds a segment;
    /// leaves the segments as they are otherwise.
    pub fn insert_param(&mut self, param: (EventPrefixParam, usize), index: usize)
        ensures
            index < old(self).params@.len() ==> final(self).params@ == old(self).params@.insert(
                index as int,
                param,
            ),
            index >= old(self).params@.len() ==> final(self).params@ == old(self).params@,
    {
        if self.params.len() > index {
            self.params.insert(index, param);
        }
    }
}

} // verus!
