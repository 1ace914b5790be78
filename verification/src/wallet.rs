//! What the wallet stores and how it names transaction outputs.

use crate::hex_codec::{decode_hex, hex_decode_32};
use vstd::prelude::*;
use vstd::slice::slice_subrange;
use vstd::utf8::encode_utf8;

verus! {

/// The mnemonic of a wallet seed, as it is stored.
#[derive(Debug, Clone, PartialEq, Eq)]
pub struct SeedStore {
    pub mnemonic: String,
}

/// A transaction output: the transaction's identifier, in the byte order in
/// which it is hashed, and the number of the output.
#[derive(Debug, Clone, Copy, PartialEq, Eq)]
pub struct OutPoint {
    pub txid: [u8; 32],
    pub vout: u32,
}

/// Where the field that starts at `start` ends: at the first colon at or
/// after `start`, or at the end of the text.
pub open spec fn field_end(text: Seq<u8>, start: int) -> int
    decreases text.len() - start,
{
    if start < 0 || start >= text.len() {
        text.len() as int
    } else if text[start] == 0x3a {
        start
    } else {
        field_end(text, start + 1)
    }
}

/// The first two fields of a text whose fields are parted by colons, if it
/// has two.
pub open spec fn first_two_fields(text: Seq<u8>) -> Option<(Seq<u8>, Seq<u8>)> {
    let end = field_end(text, 0);
    if end >= text.len() {
        None
    } else {
        Some((text.subrange(0, end), text.subrange(end + 1, field_end(text, end + 1))))
    }
}

/// The number that the decimal digits `digits` stand for.
pub open spec fn decimal_value(digits: Seq<u8>) -> nat
    decreases digits.len(),
{
    if digits.len() == 0 {
        0
    } else {
        (decimal_value(digits.drop_last()) * 10 + (digits.last() - 0x30)) as nat
    }
}

/// Every byte of `digits` is a decimal digit.
pub open spec fn all_digits(digits: Seq<u8>) -> bool {
    forall|i: int| 0 <= i < digits.len() ==> 0x30 <= #[trigger] digits[i] <= 0x39
}

/// The number of 32 bits that `digits` stand for: at least one decimal
/// digit, with a value that fits.
pub open spec fn digits_u32(digits: Seq<u8>) -> Option<u32> {
    if digits.len() > 0 && all_digits(digits) && decimal_value(digits) <= u32::MAX {
        Some(decimal_value(digits) as u32)
    } else {
        None
    }
}

/// The number that `text` stands for: decimal digits, after a plus sign or
/// none.
pub open spec fn parse_u32(text: Seq<u8>) -> Option<u32> {
    if text.len() > 0 && text[0] == 0x2b {
        digits_u32(text.skip(1))
    } else {
        digits_u32(text)
    }
}

/// The output that `text` names: its first field is the transaction's
/// identifier as 64 hexadecimal digits, in the reverse of the byte order in
/// which it is hashed, and its second field is the number of the output.
pub open spec fn parse_outpoint(text: Seq<u8>) -> Option<(Seq<u8>, u32)> {
    match first_two_fields(text) {
        Some((txid_text, vout_text)) => match (hex_decode_32(txid_text), parse_u32(vout_text)) {
            (Ok(txid), Some(vout)) => Some((txid.reverse(), vout)),
            _ => None,
        },
        None => None,
    }
}

/// The digits read so far never stand for more than all of them.
proof fn lemma_prefix_value(digits: Seq<u8>, n: int)
    requires
        all_digits(digits),
        0 <= n <= digits.len(),
    ensures
        decimal_value(digits.take(n)) <= decimal_value(digits),
    decreases digits.len() - n,
{
    if n == digits.len() {
        assert(digits.take(n) =~= digits);
    } else {
        lemma_prefix_value(digits, n + 1);
        assert(digits.take(n + 1).drop_last() =~= digits.take(n));
    }
}

/// The position of the first colon at or after `start`, or the length of
/// the text.
fn find_field_end(text: &[u8], start: usize) -> (end: usize)
    requires
        start <= text@.len(),
    ensures
        end == field_end(text@, start as int),
        start <= end <= text@.len(),
{
    let mut i = start;
    while i < text.len() && text[i] != 0x3a
        invariant
            start <= i <= text@.len(),
            field_end(text@, start as int) == field_end(text@, i as int),
        decreases text@.len() - i,
    {
        i += 1;
    }
    i
}

/// Reads a number of 32 bits from decimal digits, after a plus sign or none.
fn parse_decimal_u32(text: &[u8]) -> (number: Option<u32>)
    ensures
        number == parse_u32(text@),
{
    let start: usize = if text.len() > 0 && text[0] == 0x2b {
        1
    } else {
        0
    };
    let digits = slice_subrange(text, start, text.len());
    assert(digits@ =~= if text@.len() > 0 && text@[0] == 0x2b {
        text@.skip(1)
    } else {
        text@
    });
    if digits.len() == 0 {
        return None;
    }
    let mut value: u32 = 0;
    for i in 0..digits.len()
        invariant
            parse_u32(text@) == digits_u32(digits@),
            digits@.len() > 0,
            value == decimal_value(digits@.take(i as int)),
            all_digits(digits@.take(i as int)),
    {
        let d = digits[i];
        if d < 0x30 || d > 0x39 {
            return None;
        }
        proof {
            assert(digits@.take(i + 1).drop_last() =~= digits@.take(i as int));
            assert forall|j: int| 0 <= j < i + 1 implies 0x30 <= #[trigger] digits@.take(i + 1)[j]
                <= 0x39 by {
                if j < i {
                    assert(digits@.take(i as int)[j] == digits@[j]);
                }
            }
        }
        let next: u64 = value as u64 * 10 + (d - 0x30) as u64;
        if next > u32::MAX as u64 {
            proof {
                if all_digits(digits@) {
                    lemma_prefix_value(digits@, i + 1);
                }
            }
            return None;
        }
        value = next as u32;
    }
    assert(digits@.take(digits@.len() as int) =~= digits@);
    Some(value)
}

/// Reads the name of a transaction output, written as the transaction's
/// identifier in hexadecimal, a colon, and the number of the output. A text
/// of another shape names no output.
pub fn convert_to_outpoint(utxo_str: &String) -> (outpoint: Option<OutPoint>)
    ensures
        match outpoint {
            Some(named) => parse_outpoint(encode_utf8(utxo_str@)) == Some((named.txid@, named.vout)),
            None => parse_outpoint(encode_utf8(utxo_str@)) is None,
        },
{
    let text = utxo_str.as_str().as_bytes();
    let txid_end = find_field_end(text, 0);
    if txid_end >= text.len() {
        return None;
    }
    let vout_end = find_field_end(text, txid_end + 1);
    let vout = match parse_decimal_u32(slice_subrange(text, txid_end + 1, vout_end)) {
        Some(vout) => vout,
        None => {
            return None;
        },
    };
    let bytes = match decode_hex(slice_subrange(text, 0, txid_end)) {
        Ok(bytes) => bytes,
        Err(_) => {
            return None;
        },
    };
    if bytes.len() != 32 {
        return None;
    }
    let mut txid = [0u8; 32];
    for i in 0..32usize
        invariant
            bytes@.len() == 32,
            forall|j: int| 0 <= j < i ==> txid@[j] == bytes@[31 - j],
    {
        txid[i] = bytes[31 - i];
    }
    Some(OutPoint { txid, vout })
}

} // verus!
