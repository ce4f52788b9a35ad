//! Repeating-key XOR obfuscation.

use vstd::prelude::*;
use vstd::string::StringSliceAdditionalSpecFns;

verus! {

/// The byte of `key` that lines up with position `i` of a datagram.
pub open spec fn key_byte(key: Seq<u8>, i: int) -> u8
    recommends
        key.len() > 0,
        0 <= i,
{
    key[i % (key.len() as int)]
}

/// `data` with every byte XORed with the byte of the repeated `key` at its position.
pub open spec fn xor_spec(data: Seq<u8>, key: Seq<u8>) -> Seq<u8> {
    Seq::new(data.len(), |i: int| data[i] ^ key_byte(key, i))
}

/// XORs `data` in place with the bytes of `passphrase`, repeated as often as needed.
pub fn xor_encrypt(data: &mut [u8], passphrase: &str)
    requires
        passphrase.spec_bytes().len() > 0 || old(data)@.len() == 0,
    ensures
        final(data)@ == xor_spec(old(data)@, passphrase.spec_bytes()),
{
    let key = passphrase.as_bytes();
    let len = data.len();
    let mut index: usize = 0;
    while index < len
        invariant
            index <= len,
            len == data@.len(),
            data@.len() == old(data)@.len(),
            key@ == passphrase.spec_bytes(),
            key@.len() > 0 || len == 0,
            forall|j: int| 0 <= j < index ==> data@[j] == old(data)@[j] ^ key_byte(key@, j),
            forall|j: int| index <= j < len ==> data@[j] == old(data)@[j],
        decreases len - index,
    {
        let pass_index = index % key.len();
        data[index] = data[index] ^ key[pass_index];
        index += 1;
    }
}

/// XORs an owned datagram with the bytes of `passphrase` and hands it back.
pub fn xor_small_chunk(data: Vec<u8>, passphrase: &str) -> (result: Vec<u8>)
    requires
        passphrase.spec_bytes().len() > 0 || data@.len() == 0,
    ensures
        result@ == xor_spec(data@, passphrase.spec_bytes()),
{
    let mut data = data;
    xor_encrypt(data.as_mut_slice(), passphrase);
    data
}

/// XORing a byte with two key bytes in turn gives it back exactly when the
/// two key bytes are the same.
proof fn lemma_xor_bytes(byte: u8, first: u8, second: u8)
    ensures
        (byte ^ first) ^ first == byte,
        (byte ^ first) ^ second == byte <==> first == second,
        byte ^ first == byte <==> first == 0,
{
    assert((byte ^ first) ^ first == byte) by (bit_vector);
    assert((byte ^ first) ^ second == byte <==> first == second) by (bit_vector);
    assert(byte ^ first == byte <==> first == 0) by (bit_vector);
}

/// Two hops with the same passphrase deliver the payload unmodified: the
/// transform undoes itself.
pub proof fn lemma_xor_round_trip(data: Seq<u8>, key: Seq<u8>)
    ensures
        xor_spec(xor_spec(data, key), key) == data,
{
    let once = xor_spec(data, key);
    let twice = xor_spec(once, key);
    assert forall|i: int| 0 <= i < data.len() implies twice[i] == data[i] by {
        lemma_xor_bytes(data[i], key_byte(key, i), key_byte(key, i));
    }
    assert(twice =~= data);
}

/// Two hops with different passphrases garble the payload: each byte comes
/// out changed exactly where the two repeated passphrases differ, so the
/// payload comes out unmodified only if they agree all along it.
pub proof fn lemma_xor_mismatch(data: Seq<u8>, first: Seq<u8>, second: Seq<u8>)
    ensures
        forall|i: int|
            0 <= i < data.len() ==> (#[trigger] xor_spec(xor_spec(data, first), second)[i]
                == data[i] <==> key_byte(first, i) == key_byte(second, i)),
        xor_spec(xor_spec(data, first), second) == data <==> forall|i: int|
            0 <= i < data.len() ==> key_byte(first, i) == #[trigger] key_byte(second, i),
{
    let once = xor_spec(data, first);
    let twice = xor_spec(once, second);
    assert forall|i: int| 0 <= i < data.len() implies (#[trigger] twice[i] == data[i]
        <==> key_byte(first, i) == key_byte(second, i)) by {
        lemma_xor_bytes(data[i], key_byte(first, i), key_byte(second, i));
    }
    if forall|i: int| 0 <= i < data.len() ==> key_byte(first, i) == #[trigger] key_byte(second, i) {
        assert(twice =~= data);
    }
    if twice == data {
        assert forall|i: int| 0 <= i < data.len() implies key_byte(first, i) == #[trigger] key_byte(
            second,
            i,
        ) by {
            assert(twice[i] == data[i]);
        }
    }
}

} // verus!
