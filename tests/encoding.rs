use zk_smarthome::binding::{commitment, gateway_key, identity_binding};
use zk_smarthome::encoding::{be_word_of, digest_word, u64_to_le_bytes};

#[test]
fn digest_word_is_sha256_prefix() {
    // SHA-256("abc") = ba7816bf8f01cfea414140de5dae2223...
    assert_eq!(digest_word(b"abc"), 0xba78_16bf_8f01_cfea);
    // SHA-256("") = e3b0c44298fc1c14...
    assert_eq!(digest_word(b""), 0xe3b0_c442_98fc_1c14);
}

#[test]
fn little_endian_bytes() {
    assert_eq!(u64_to_le_bytes(0x0102_0304_0506_0708), vec![8, 7, 6, 5, 4, 3, 2, 1]);
    assert_eq!(u64_to_le_bytes(0), vec![0; 8]);
}

#[test]
fn big_endian_word() {
    assert_eq!(be_word_of(&[1, 2, 3, 4, 5, 6, 7, 8, 9]), 0x0102_0304_0506_0708);
}

#[test]
fn commitment_hashes_the_concatenation() {
    assert_eq!(commitment("ab", "c", &[]), digest_word(b"abc"));
    assert_eq!(commitment("a", "b", &[b'c']), digest_word(b"abc"));
    assert_ne!(commitment("user1", "password123", &[1]), commitment("user1", "wrong", &[1]));
}

#[test]
fn gateway_key_and_binding_layout() {
    let mut msg = b"IDg1".to_vec();
    msg.extend_from_slice(&7u64.to_le_bytes());
    assert_eq!(gateway_key("IDg1", 7), digest_word(&msg));
    let mut msg2 = 99u64.to_le_bytes().to_vec();
    msg2.extend_from_slice(b"12345");
    assert_eq!(identity_binding(99, "12345"), digest_word(&msg2));
}
