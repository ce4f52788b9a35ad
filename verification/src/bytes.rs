//! Big-endian 16-bit words and slices of byte sequences.

use vstd::prelude::*;

verus! {

/// The high byte of a 16-bit word.
pub open spec fn high_byte(word: u16) -> u8 {
    (word / 256) as u8
}

/// The low byte of a 16-bit word.
pub open spec fn low_byte(word: u16) -> u8 {
    (word % 256) as u8
}

/// The 16-bit word that two bytes make in network order.
pub open spec fn be16(high: u8, low: u8) -> u16 {
    (high as int * 256 + low as int) as u16
}

/// The bytes of `bytes` from `start` to its end.
pub open spec fn tail(bytes: Seq<u8>, start: int) -> Seq<u8> {
    bytes.subrange(start, bytes.len() as int)
}

/// Whether `bytes` ends with `suffix`.
pub open spec fn ends_with(bytes: Seq<u8>, suffix: Seq<u8>) -> bool {
    bytes.len() >= suffix.len() && tail(bytes, bytes.len() - suffix.len()) == suffix
}

/// `bytes` without its last `count` bytes.
pub open spec fn without_suffix(bytes: Seq<u8>, count: nat) -> Seq<u8>
    recommends
        count <= bytes.len(),
{
    bytes.subrange(0, bytes.len() - count)
}

/// Splitting a word into bytes and joining them gives the word back.
pub proof fn lemma_be16_of_bytes(word: u16)
    ensures
        be16(high_byte(word), low_byte(word)) == word,
{
}

/// Joining two bytes into a word and splitting it gives the bytes back.
pub proof fn lemma_bytes_of_be16(high: u8, low: u8)
    ensures
        high_byte(be16(high, low)) == high,
        low_byte(be16(high, low)) == low,
{
}

/// The two bytes of a word in network order.
pub fn u16_to_be(word: u16) -> (bytes: (u8, u8))
    ensures
        bytes.0 == high_byte(word),
        bytes.1 == low_byte(word),
{
    ((word / 256) as u8, (word % 256) as u8)
}

/// The word that two bytes in network order stand for.
pub fn u16_from_be(high: u8, low: u8) -> (word: u16)
    ensures
        word == be16(high, low),
{
    high as u16 * 256 + low as u16
}

/// A 16-bit length as a `usize`.
pub fn widen(len: u16) -> (wide: usize)
    ensures
        wide == len,
{
    len as usize
}

/// The part of `slice` from `start` to its end.
pub fn slice_tail(slice: &[u8], start: usize) -> (part: &[u8])
    requires
        start <= slice@.len(),
    ensures
        part@ == tail(slice@, start as int),
{
    vstd::slice::slice_subrange(slice, start, slice.len())
}

/// The part of `slice` before `end`.
pub fn slice_head(slice: &[u8], end: usize) -> (part: &[u8])
    requires
        end <= slice@.len(),
    ensures
        part@ == slice@.subrange(0, end as int),
{
    vstd::slice::slice_subrange(slice, 0, end)
}

} // verus!
