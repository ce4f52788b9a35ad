use forwarder::encryption::{xor_encrypt, xor_small_chunk};

#[test]
fn xor_encryption_test() {
    let input = "hello".as_bytes();
    let mut buffer = "hello".as_bytes().to_vec();
    xor_encrypt(&mut buffer, "some_password");
    assert_ne!(buffer, input);

    xor_encrypt(&mut buffer, "some_password");
    assert_eq!(buffer, input);
}

#[test]
fn encryption_decryption_with_different_password_should_fail() {
    let input = "hello".as_bytes();
    let mut buffer = "hello".as_bytes().to_vec();
    xor_encrypt(&mut buffer, "password");
    xor_encrypt(&mut buffer, "another_password");
    assert_ne!(input, buffer);
}

#[test]
fn encryption_test() {
    let input = "salam".as_bytes();
    let encrypted = xor_small_chunk(input.to_vec(), "password");
    let decrypted = xor_small_chunk(encrypted, "password");
    assert_eq!(input, decrypted);
}

#[test]
fn encryption_encryption_decryption_with_different_password_should_fail() {
    let input = "salam".as_bytes();
    let encrypted = xor_small_chunk(input.to_vec(), "password");
    let decrypted = xor_small_chunk(encrypted, "another_password");
    assert_ne!(input, decrypted);
}

#[test]
fn xor_bytes_are_those_of_the_repeated_passphrase() {
    let mut buffer = b"hello".to_vec();
    xor_encrypt(&mut buffer, "some_password");
    assert_eq!(buffer, [0x1b, 0x0a, 0x01, 0x09, 0x30]);

    // the passphrase starts again where it ends
    let mut buffer = vec![0u8; 7];
    xor_encrypt(&mut buffer, "abc");
    assert_eq!(buffer, b"abcabca");

    let mut buffer = vec![0xffu8; 4];
    xor_encrypt(&mut buffer, "\u{0}a");
    assert_eq!(buffer, [0xff, 0x9e, 0xff, 0x9e]);
}

#[test]
fn xor_uses_the_bytes_of_the_passphrase_not_its_letters() {
    // "é" is two bytes, 0xc3 and 0xa9
    let mut buffer = vec![0u8; 3];
    xor_encrypt(&mut buffer, "é");
    assert_eq!(buffer, [0xc3, 0xa9, 0xc3]);
}

#[test]
fn xor_of_nothing_is_nothing() {
    let mut buffer: Vec<u8> = Vec::new();
    xor_encrypt(&mut buffer, "password");
    assert!(buffer.is_empty());
    xor_encrypt(&mut buffer, "");
    assert!(buffer.is_empty());
    assert!(xor_small_chunk(Vec::new(), "").is_empty());
}

#[test]
fn xor_small_chunk_is_xor_encrypt() {
    let mut buffer = b"hello world".to_vec();
    xor_encrypt(&mut buffer, "key");
    assert_eq!(xor_small_chunk(b"hello world".to_vec(), "key"), buffer);
}

#[test]
fn mismatch_changes_exactly_where_the_passphrases_differ() {
    // "password" and "passwort" differ in their last byte only
    let input = b"0123456789abcdef".to_vec();
    let once = xor_small_chunk(input.clone(), "password");
    let twice = xor_small_chunk(once, "passwort");
    for (index, (before, after)) in input.iter().zip(twice.iter()).enumerate() {
        assert_eq!(before == after, index % 8 != 7);
    }
    // a passphrase and its repetition are the same key
    let once = xor_small_chunk(input.clone(), "ab");
    assert_eq!(xor_small_chunk(once, "abab"), input);
}
