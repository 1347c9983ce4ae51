//! Log positions: `block-log` text, and the numbers the node's hex
//! quantities stand for.

use vstd::prelude::*;
use vstd::string::*;

use crate::decode::{has_hex_prefix, hex_value, strip_hex_prefix, EventResult};

verus! {

/// The block number of a `block-log` position: the text before its first `-`.
pub open spec fn block_of(position: Seq<char>) -> Seq<char>
    decreases position.len(),
{
    if position.len() == 0 {
        position
    } else if position[0] == '-' {
        Seq::empty()
    } else {
        seq![position[0]] + block_of(position.drop_first())
    }
}

/// The log index of a `block-log` position: the text after its first `-`, if
/// it has one.
pub open spec fn log_of(position: Seq<char>) -> Option<Seq<char>>
    decreases position.len(),
{
    if position.len() == 0 {
        None
    } else if position[0] == '-' {
        Some(position.drop_first())
    } else {
        log_of(position.drop_first())
    }
}

/// The block number of a `block-log` position: the text before its first `-`.
pub fn block_part(position: &str) -> (r: String)
    ensures
        r@ == block_of(position@),
{
    let n = position.unicode_len();
    let ghost p = position@;
    let mut i: usize = 0;
    proof {
        assert(p.subrange(0, 0) + block_of(p.subrange(0, n as int)) =~= block_of(p)) by {
            assert(p.subrange(0, n as int) =~= p);
        }
    }
    while i < n
        invariant
            i <= n,
            n == p.len(),
            p == position@,
            block_of(p) == p.subrange(0, i as int) + block_of(p.subrange(i as int, n as int)),
        decreases n - i,
    {
        let ghost rest = p.subrange(i as int, n as int);
        if position.get_char(i) == '-' {
            assert(rest[0] == '-');
            assert(p.subrange(0, i as int) + Seq::<char>::empty() =~= p.subrange(0, i as int));
            return String::from_str(position.substring_char(0, i));
        }
        proof {
            assert(rest.drop_first() =~= p.subrange(i + 1, n as int));
            assert(p.subrange(0, i as int) + seq![rest[0]] =~= p.subrange(0, i + 1));
            assert((p.subrange(0, i as int) + seq![rest[0]]) + block_of(rest.drop_first())
                =~= p.subrange(0, i as int) + (seq![rest[0]] + block_of(rest.drop_first())));
        }
        i = i + 1;
    }
    proof {
        assert(p.subrange(i as int, n as int) =~= Seq::<char>::empty());
        assert(p.subrange(0, i as int) =~= p);
        assert(p + Seq::<char>::empty() =~= p);
    }
    String::from_str(position)
}

/// The log index of a `block-log` position: the text after its first `-`, if
/// it has one.
pub fn log_part(position: &str) -> (r: Option<String>)
    ensures
        match r {
            Some(l) => log_of(position@) == Some(l@),
            None => log_of(position@) is None,
        },
{
    let n = position.unicode_len();
    let ghost p = position@;
    let mut i: usize = 0;
    assert(p.subrange(0, n as int) =~= p);
    while i < n
        invariant
            i <= n,
            n == p.len(),
            p == position@,
            log_of(p) == log_of(p.subrange(i as int, n as int)),
        decreases n - i,
    {
        let ghost rest = p.subrange(i as int, n as int);
        if position.get_char(i) == '-' {
            assert(rest.drop_first() =~= p.subrange(i + 1, n as int));
            return Some(String::from_str(position.substring_char(i + 1, n)));
        }
        assert(rest.drop_first() =~= p.subrange(i + 1, n as int));
        i = i + 1;
    }
    None
}

/// The value of hex digits, most significant first; None where one is not a
/// hex digit.
pub open spec fn digits_value(d: Seq<char>) -> Option<nat>
    decreases d.len(),
{
    if d.len() == 0 {
        Some(0)
    } else {
        match (digits_value(d.drop_last()), hex_value(d.last())) {
            (Some(v), Some(x)) => Some(v * 16 + x),
            _ => None,
        }
    }
}

/// The number a hex quantity (`0x` and at least one digit) stands for, when
/// it fits in 64 bits.
pub open spec fn quantity(s: Seq<char>) -> Option<u64> {
    if has_hex_prefix(s) && s.len() > 2 {
        match digits_value(strip_hex_prefix(s)) {
            Some(v) => if v <= u64::MAX {
                Some(v as u64)
            } else {
                None
            },
            None => None,
        }
    } else {
        None
    }
}

/// The (block, log index) numbers of a `block-log` position.
pub open spec fn position_key(position: Seq<char>) -> Option<(u64, u64)> {
    match log_of(position) {
        Some(l) => match (quantity(block_of(position)), quantity(l)) {
            (Some(b), Some(x)) => Some((b, x)),
            _ => None,
        },
        None => None,
    }
}

/// The (block, log index) numbers of an entry.
pub open spec fn entry_key(e: EventResult) -> Option<(u64, u64)> {
    match (quantity(e.blockNumber@), quantity(e.logIndex@)) {
        (Some(b), Some(x)) => Some((b, x)),
        _ => None,
    }
}

/// `a` comes before `b`: an earlier block, or the same block and an earlier log.
pub open spec fn key_before(a: (u64, u64), b: (u64, u64)) -> bool {
    a.0 < b.0 || (a.0 == b.0 && a.1 < b.1)
}

/// An entry takes the checkpoint forward: its position is readable and comes
/// after the checkpoint's, or the checkpoint's is not readable.
pub open spec fn moves_past(checkpoint: Seq<char>, e: EventResult) -> bool {
    match entry_key(e) {
        None => false,
        Some(k) => match position_key(checkpoint) {
            None => true,
            Some(c) => key_before(c, k),
        },
    }
}

proof fn lemma_prefix_value(d: Seq<char>, i: int)
    requires
        0 <= i <= d.len(),
        digits_value(d) is Some,
    ensures
        digits_value(d.subrange(0, i)) is Some,
        digits_value(d.subrange(0, i))->0 <= digits_value(d)->0,
    decreases d.len(),
{
    if i == d.len() {
        assert(d.subrange(0, i) =~= d);
    } else {
        let dl = d.drop_last();
        lemma_prefix_value(dl, i);
        assert(dl.subrange(0, i) =~= d.subrange(0, i));
    }
}

proof fn lemma_digits_have_no_dash(d: Seq<char>)
    requires
        digits_value(d) is Some,
    ensures
        forall|i: int| 0 <= i < d.len() ==> d[i] != '-',
    decreases d.len(),
{
    if d.len() > 0 {
        lemma_digits_have_no_dash(d.drop_last());
        assert forall|i: int| 0 <= i < d.len() implies d[i] != '-' by {
            if i < d.len() - 1 {
                assert(d[i] == d.drop_last()[i]);
            }
        }
    }
}

proof fn lemma_split_joined(block: Seq<char>, log: Seq<char>)
    requires
        forall|i: int| 0 <= i < block.len() ==> block[i] != '-',
    ensures
        block_of(block + seq!['-'] + log) == block,
        log_of(block + seq!['-'] + log) == Some(log),
    decreases block.len(),
{
    let p = block + seq!['-'] + log;
    if block.len() == 0 {
        assert(p.drop_first() =~= log);
        assert(p[0] == '-');
    } else {
        let rest = block.drop_first();
        assert(p.drop_first() =~= rest + seq!['-'] + log);
        assert forall|i: int| 0 <= i < rest.len() implies rest[i] != '-' by {
            assert(rest[i] == block[i + 1]);
        }
        lemma_split_joined(rest, log);
        assert(p[0] == block[0]);
        assert(seq![block[0]] + rest =~= block);
    }
}

/// Joining a readable block number and log index with `-` gives a position
/// that reads back as the same two numbers.
pub proof fn lemma_joined_position(block: Seq<char>, log: Seq<char>)
    requires
        quantity(block) is Some,
        quantity(log) is Some,
    ensures
        position_key(block + seq!['-'] + log) == Some((quantity(block)->0, quantity(log)->0)),
{
    let d = strip_hex_prefix(block);
    lemma_digits_have_no_dash(d);
    assert forall|i: int| 0 <= i < block.len() implies block[i] != '-' by {
        if i >= 2 {
            assert(block[i] == d[i - 2]);
        }
    }
    lemma_split_joined(block, log);
}

/// The number of the hex quantity `s`, when it fits in 64 bits.
pub fn parse_quantity(s: &str) -> (r: Option<u64>)
    ensures
        r == quantity(s@),
{
    let n = s.unicode_len();
    if n <= 2 || s.get_char(0) != '0' || s.get_char(1) != 'x' {
        return None;
    }
    let ghost d = strip_hex_prefix(s@);
    let mut value: u64 = 0;
    let mut i: usize = 2;
    assert(d.subrange(0, 0) =~= Seq::<char>::empty());
    while i < n
        invariant
            2 <= i <= n,
            n == s@.len(),
            d == strip_hex_prefix(s@),
            d.len() == n - 2,
            digits_value(d.subrange(0, i - 2)) == Some(value as nat),
        decreases n - i,
    {
        let c = s.get_char(i);
        let ghost prefix = d.subrange(0, i - 1);
        assert(prefix.drop_last() =~= d.subrange(0, i - 2));
        assert(prefix.last() == c);
        let x: u64 = if c >= '0' && c <= '9' {
            (c as u64) - 48
        } else if c >= 'a' && c <= 'f' {
            (c as u64) - 87
        } else if c >= 'A' && c <= 'F' {
            (c as u64) - 55
        } else {
            proof {
                if digits_value(d) is Some {
                    lemma_prefix_value(d, i - 1);
                }
            }
            return None;
        };
        if value > (u64::MAX - x) / 16 {
            proof {
                if digits_value(d) is Some {
                    lemma_prefix_value(d, i - 1);
                }
            }
            return None;
        }
        value = value * 16 + x;
        i = i + 1;
    }
    assert(d.subrange(0, n - 2) =~= d);
    Some(value)
}

/// The (block, log index) numbers of a `block-log` position.
pub fn position_numbers(position: &str) -> (r: Option<(u64, u64)>)
    ensures
        r == position_key(position@),
{
    let log = match log_part(position) {
        Some(l) => l,
        None => return None,
    };
    let block = block_part(position);
    match (parse_quantity(block.as_str()), parse_quantity(log.as_str())) {
        (Some(b), Some(x)) => Some((b, x)),
        _ => None,
    }
}

/// Whether entry `e` takes the checkpoint forward.
pub fn moves_past_checkpoint(checkpoint: &str, e: &EventResult) -> (r: bool)
    ensures
        r == moves_past(checkpoint@, *e),
{
    let k = match (parse_quantity(e.blockNumber.as_str()), parse_quantity(e.logIndex.as_str())) {
        (Some(b), Some(x)) => (b, x),
        _ => return false,
    };
    match position_numbers(checkpoint) {
        None => true,
        Some(c) => c.0 < k.0 || (c.0 == k.0 && c.1 < k.1),
    }
}

} // verus!
