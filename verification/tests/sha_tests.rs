use rompatcher::sha::{Digests, try_hash};

#[test]
pub fn digests_of_a_known_buffer() {
    // The well-known digests of the three bytes "abc".
    let data = vec![0x61u8, 0x62, 0x63];
    let digests = Digests::from_bytes(&data);
    assert_eq!(digests.sha1(), "a9993e364706816aba3e25717850c26c9cd0d89d");
    assert_eq!(
        digests.sha256(),
        "ba7816bf8f01cfea414140de5dae2223b00361a396177a9cb410ff61f20015ad"
    );
    assert_eq!(digests.crc32(), "352441c2");
}

#[test]
pub fn digests_of_the_empty_buffer() {
    let digests = try_hash(&Vec::new());
    assert_eq!(digests.sha1(), "da39a3ee5e6b4b0d3255bfef95601890afd80709");
    assert_eq!(
        digests.sha256(),
        "e3b0c44298fc1c149afbf4c8996fb92427ae41e4649b934ca495991b7852b855"
    );
    assert_eq!(digests.crc32(), "00000000");
}
