use keccak_cache::{
    fold_hash, hash_input, keccak256, make_key, rapid_hash, Hasher, KECCAK256_EMPTY, MAX_INPUT_LEN,
};
use std::borrow::Borrow;
use std::hash::{Hash, Hasher as _};

#[test]
fn keccak_values() {
    assert_eq!(keccak256(b""), KECCAK256_EMPTY);
    assert_eq!(
        keccak256(b"hello"),
        [
            0x1c, 0x8a, 0xff, 0x95, 0x06, 0x85, 0xc2, 0xed, 0x4b, 0xc3, 0x17, 0x4f, 0x34, 0x72,
            0x28, 0x7b, 0x56, 0xd9, 0x51, 0x7b, 0x9c, 0x94, 0x81, 0x27, 0x31, 0x9a, 0x09, 0xa7,
            0xa3, 0x6d, 0xea, 0xc8
        ]
    );
}

#[test]
fn rapid_hash_values() {
    let secrets = rapidhash::v3::RapidSecrets::seed(0);
    for len in 0..=MAX_INPUT_LEN {
        let input = vec![len as u8; len];
        let expected =
            rapidhash::v3::rapidhash_v3_micro_inline::<false, false>(&input, &secrets);
        assert_eq!(rapid_hash(&input), expected);
        assert_eq!(hash_input(&input), fold_hash(expected));
    }
    assert_eq!(rapid_hash(b"Hello World!"), 15_942_389_166_308_421_031);
}

#[test]
fn a_hash_is_folded_to_a_machine_word() {
    if usize::BITS == 64 {
        assert_eq!(fold_hash(0x0123_4567_89ab_cdef) as u64, 0x0123_4567_89ab_cdef);
    } else {
        assert_eq!(fold_hash(0x0123_4567_89ab_cdef) as u64, 0x8888_8888);
    }
}

#[test]
fn the_hasher_hashes_what_was_written() {
    let mut hasher = Hasher::default();
    assert_eq!(hasher.finish(), 0);
    hasher.write_usize(5);
    assert_eq!(hasher.finish(), 0);
    hasher.write(b"input");
    assert_eq!(hasher.finish(), rapid_hash(b"input"));
    hasher.write_usize(7);
    assert_eq!(hasher.finish(), rapid_hash(b"input"));
}

#[test]
fn a_key_hashes_like_its_bytes() {
    let key = make_key(b"input");
    let mut of_key = Hasher::default();
    key.hash(&mut of_key);
    let mut of_bytes = Hasher::default();
    b"input"[..].hash(&mut of_bytes);
    assert_eq!(of_key.finish(), rapid_hash(b"input"));
    assert_eq!(of_bytes.finish(), of_key.finish());
}

#[test]
fn a_key_holds_its_input() {
    for len in 0..=MAX_INPUT_LEN {
        let input: Vec<u8> = (0..len).map(|i| i as u8 + 1).collect();
        let key = make_key(&input);
        assert_eq!(key.get(), &input[..]);
        let bytes: &[u8] = key.borrow();
        assert_eq!(bytes, &input[..]);
        assert!(key == make_key(&input));
    }
    assert!(make_key(b"") != make_key(b"\0"));
    assert!(make_key(b"ab") != make_key(b"ac"));
    assert!(make_key(b"a") != make_key(b"ab"));
}
