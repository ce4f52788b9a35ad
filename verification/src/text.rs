//! Texts as bytes: splitting at a separator, and numerals.

use vstd::prelude::*;

verus! {

/// The dot between the octets of an IPv4 address.
pub const DOT: u8 = 0x2e;

/// The colon between the groups of an IPv6 address, and before a port.
pub const COLON: u8 = 0x3a;

/// The slash before the name of a carrier.
pub const SLASH: u8 = 0x2f;

/// The percent sign before a scope number.
pub const PERCENT: u8 = 0x25;

/// The bracket that opens an IPv6 address in a socket address.
pub const OPENING_BRACKET: u8 = 0x5b;

/// The bracket that closes an IPv6 address in a socket address.
pub const CLOSING_BRACKET: u8 = 0x5d;

/// The parts of a text between the occurrences of a separator. A text with
/// no separator is one part; a separator at either end leaves an empty part
/// there.
pub open spec fn split(text: Seq<u8>, separator: u8) -> Seq<Seq<u8>>
    decreases text.len(),
{
    if text.len() == 0 {
        seq![Seq::<u8>::empty()]
    } else {
        let parts = split(text.drop_last(), separator);
        if text.last() == separator {
            parts.push(Seq::<u8>::empty())
        } else {
            parts.drop_last().push(parts.last().push(text.last()))
        }
    }
}

/// The texts that a list of byte vectors holds.
pub open spec fn views(parts: Seq<Vec<u8>>) -> Seq<Seq<u8>> {
    Seq::new(parts.len(), |i: int| parts[i]@)
}

/// A split has at least one part.
pub proof fn lemma_split_len(text: Seq<u8>, separator: u8)
    ensures
        split(text, separator).len() >= 1,
    decreases text.len(),
{
    if text.len() > 0 {
        lemma_split_len(text.drop_last(), separator);
    }
}

/// Splits a text at every occurrence of a separator.
pub fn split_bytes(text: &[u8], separator: u8) -> (parts: Vec<Vec<u8>>)
    ensures
        views(parts@) == split(text@, separator),
        parts@.len() >= 1,
{
    let mut done: Vec<Vec<u8>> = Vec::new();
    let mut current: Vec<u8> = Vec::new();
    let mut index: usize = 0;
    assert(text@.take(0) =~= Seq::<u8>::empty());
    assert(views(done@).push(current@) =~= split(text@.take(0), separator));
    while index < text.len()
        invariant
            index <= text@.len(),
            views(done@).push(current@) == split(text@.take(index as int), separator),
        decreases text@.len() - index,
    {
        let ghost before = text@.take(index as int);
        let ghost parts = split(before, separator);
        let ghost longer = text@.take(index + 1);
        assert(longer.drop_last() =~= before);
        assert(longer.last() == text@[index as int]);
        assert(parts.drop_last() =~= views(done@));
        if text[index] == separator {
            done.push(current);
            current = Vec::new();
            assert(views(done@).push(current@) =~= parts.push(Seq::<u8>::empty()));
        } else {
            current.push(text[index]);
            assert(views(done@).push(current@) =~= parts.drop_last().push(
                parts.last().push(text@[index as int]),
            ));
        }
        index += 1;
    }
    assert(text@.take(index as int) =~= text@);
    done.push(current);
    assert(views(done@) =~= split(text@, separator));
    done
}

/// Whether a byte is a decimal digit.
pub open spec fn is_digit(byte: u8) -> bool {
    0x30 <= byte <= 0x39
}

/// Whether a byte is a hexadecimal digit, in either case.
pub open spec fn is_hex_digit(byte: u8) -> bool {
    is_digit(byte) || 0x41 <= byte <= 0x46 || 0x61 <= byte <= 0x66
}

/// The value of a digit, decimal or hexadecimal.
pub open spec fn digit_value(byte: u8) -> nat {
    if is_digit(byte) {
        (byte - 0x30) as nat
    } else if 0x41 <= byte <= 0x46 {
        (byte - 0x41 + 10) as nat
    } else if 0x61 <= byte <= 0x66 {
        (byte - 0x61 + 10) as nat
    } else {
        0
    }
}

/// Whether a text is a numeral in a radix: one digit or more, and nothing else.
pub open spec fn is_numeral(text: Seq<u8>, radix: nat) -> bool {
    &&& text.len() > 0
    &&& forall|i: int|
        0 <= i < text.len() ==> if radix == 16 {
            is_hex_digit(#[trigger] text[i])
        } else {
            is_digit(text[i])
        }
}

/// The number that a numeral stands for in a radix.
pub open spec fn numeral_value(text: Seq<u8>, radix: nat) -> nat
    decreases text.len(),
{
    if text.len() == 0 {
        0
    } else {
        numeral_value(text.drop_last(), radix) * radix + digit_value(text.last())
    }
}

/// The decimal numeral, with as many leading zeros as one likes, of a number
/// up to `max`.
pub open spec fn decimal_parsed(text: Seq<u8>, max: nat) -> Option<nat> {
    if is_numeral(text, 10) && numeral_value(text, 10) <= max {
        Some(numeral_value(text, 10))
    } else {
        None
    }
}

/// The hexadecimal numeral of one to four digits of a 16-bit word.
pub open spec fn group_parsed(text: Seq<u8>) -> Option<u16> {
    if is_numeral(text, 16) && text.len() <= 4 {
        Some(numeral_value(text, 16) as u16)
    } else {
        None
    }
}

/// The decimal numeral of an octet: one to three digits, no zero before
/// another digit, and no more than 255.
pub open spec fn octet_parsed(text: Seq<u8>) -> Option<u8> {
    if is_numeral(text, 10) && text.len() <= 3 && (text.len() > 1 ==> text[0] != 0x30)
        && numeral_value(text, 10) <= 255 {
        Some(numeral_value(text, 10) as u8)
    } else {
        None
    }
}

/// A numeral is worth no less than any of its beginnings.
pub proof fn lemma_numeral_grows(text: Seq<u8>, radix: nat, len: int)
    requires
        0 <= len <= text.len(),
        radix >= 1,
    ensures
        numeral_value(text.take(len), radix) <= numeral_value(text, radix),
    decreases text.len() - len,
{
    if len == text.len() {
        assert(text.take(len) =~= text);
    } else {
        lemma_numeral_grows(text, radix, len + 1);
        let longer = text.take(len + 1);
        assert(longer.drop_last() =~= text.take(len));
        assert(numeral_value(text.take(len), radix) * radix >= numeral_value(
            text.take(len),
            radix,
        )) by (nonlinear_arith)
            requires
                radix >= 1,
        ;
    }
}

/// The largest number with so many hexadecimal digits, up to four.
pub open spec fn hex_bound(digits: int) -> nat {
    if digits <= 0 {
        0
    } else if digits == 1 {
        0xf
    } else if digits == 2 {
        0xff
    } else if digits == 3 {
        0xfff
    } else {
        0xffff
    }
}

/// Reads a decimal numeral of a number up to `max`.
pub fn parse_decimal(text: &[u8], max: u32) -> (result: Option<u32>)
    ensures
        match decimal_parsed(text@, max as nat) {
            Some(value) => result == Some(value as u32),
            None => result is None,
        },
{
    if text.len() == 0 {
        return None;
    }
    let mut value: u64 = 0;
    let mut index: usize = 0;
    assert(text@.take(0) =~= Seq::<u8>::empty());
    while index < text.len()
        invariant
            index <= text@.len(),
            text@.len() > 0,
            value == numeral_value(text@.take(index as int), 10),
            value <= max,
            forall|i: int| 0 <= i < index ==> is_digit(#[trigger] text@[i]),
        decreases text@.len() - index,
    {
        let byte = text[index];
        if byte < 0x30 || byte > 0x39 {
            return None;
        }
        let ghost longer = text@.take(index + 1);
        assert(longer.drop_last() =~= text@.take(index as int));
        value = value * 10 + (byte - 0x30) as u64;
        if value > max as u64 {
            proof {
                lemma_numeral_grows(text@, 10, index + 1);
            }
            return None;
        }
        index += 1;
    }
    assert(text@.take(index as int) =~= text@);
    Some(value as u32)
}

/// Reads a hexadecimal numeral of one to four digits.
pub fn parse_group(text: &[u8]) -> (result: Option<u16>)
    ensures
        result == group_parsed(text@),
{
    if text.len() == 0 || text.len() > 4 {
        return None;
    }
    let mut value: u32 = 0;
    let mut index: usize = 0;
    assert(text@.take(0) =~= Seq::<u8>::empty());
    while index < text.len()
        invariant
            index <= text@.len(),
            0 < text@.len() <= 4,
            value == numeral_value(text@.take(index as int), 16),
            value <= hex_bound(index as int),
            forall|i: int| 0 <= i < index ==> is_hex_digit(#[trigger] text@[i]),
        decreases text@.len() - index,
    {
        let byte = text[index];
        let digit: u32 = if 0x30 <= byte && byte <= 0x39 {
            (byte - 0x30) as u32
        } else if 0x41 <= byte && byte <= 0x46 {
            (byte - 0x41 + 10) as u32
        } else if 0x61 <= byte && byte <= 0x66 {
            (byte - 0x61 + 10) as u32
        } else {
            return None;
        };
        let ghost longer = text@.take(index + 1);
        assert(longer.drop_last() =~= text@.take(index as int));
        value = value * 16 + digit;
        index += 1;
    }
    assert(text@.take(index as int) =~= text@);
    Some(value as u16)
}

/// Reads the decimal numeral of an octet.
pub fn parse_octet(text: &[u8]) -> (result: Option<u8>)
    ensures
        result == octet_parsed(text@),
{
    if text.len() == 0 || text.len() > 3 {
        return None;
    }
    if text.len() > 1 && text[0] == 0x30 {
        return None;
    }
    match parse_decimal(text, 255) {
        Some(value) => Some(value as u8),
        None => None,
    }
}

} // verus!
