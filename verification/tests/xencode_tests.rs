//! Tests for the word packer and the block mixer.

use bitsrun::mix;
use bitsrun::splite;
use bitsrun::xencode;
use bitsrun::xencode::encrypt;

#[test]
fn mix_pads_final_group_and_appends_size() {
    assert_eq!(mix(b"abcde", true), vec![0x64636261, 0x65, 5]);
    assert_eq!(mix(b"abcde", false), vec![0x64636261, 0x65]);
}

#[test]
fn mix_exact_multiple_of_four() {
    assert_eq!(mix(b"abcd", false), vec![0x64636261]);
    assert_eq!(mix(b"abcd", true), vec![0x64636261, 4]);
}

#[test]
fn mix_empty_buffer() {
    assert_eq!(mix(b"", false), Vec::<u32>::new());
    assert_eq!(mix(b"", true), vec![0]);
}

#[test]
fn splite_without_validation_keeps_marker_bytes() {
    let out = splite(vec![0x64636261, 5], false);
    assert_eq!(out, vec![97, 98, 99, 100, 5, 0, 0, 0]);
}

#[test]
fn splite_validation_truncates_to_marker() {
    let out = splite(vec![0x64636261, 0x65, 5], true);
    assert_eq!(out, vec![97, 98, 99, 100, 101]);
}

#[test]
fn splite_validation_rejects_marker_too_large() {
    assert_eq!(splite(vec![1, 2, 9], true), Vec::<u8>::new());
}

#[test]
fn splite_validation_rejects_marker_too_small() {
    assert_eq!(splite(vec![1, 2, 4], true), Vec::<u8>::new());
}

#[test]
fn splite_validation_accepts_marker_at_lower_bound() {
    // expected = 8, marker = 5 is the smallest accepted value
    let out = splite(vec![0x64636261, 0x68676665, 5], true);
    assert_eq!(out, vec![97, 98, 99, 100, 101]);
}

#[test]
fn mix_then_validated_splite_recovers_the_buffer() {
    for len in 0..=13usize {
        let buffer: Vec<u8> = (0..len as u8).map(|b| b.wrapping_mul(37).wrapping_add(11)).collect();
        assert_eq!(splite(mix(&buffer, true), true), buffer);
    }
}

#[test]
fn empty_plaintext_encodes_to_empty() {
    assert_eq!(xencode("", "0123456789abcdef"), Vec::<u8>::new());
    assert_eq!(xencode("", "another-shared-key"), Vec::<u8>::new());
}

#[test]
fn output_length_is_four_times_group_count_plus_one() {
    let key = "0123456789abcdef";
    for len in 1..=20usize {
        let plaintext = "x".repeat(len);
        let cipher = xencode(&plaintext, key);
        assert_eq!(cipher.len(), 4 * ((len + 3) / 4 + 1));
    }
}

#[test]
fn encoding_is_deterministic() {
    let first = xencode("determinism-check", "a-very-secret-key");
    let second = xencode("determinism-check", "a-very-secret-key");
    assert_eq!(first, second);
}

#[test]
fn changing_any_used_key_byte_changes_the_cipher() {
    // the mixer selects key words by `(p & 3) ^ e`, so only the first four
    // words — the first 16 bytes — of the key ever enter the rounds
    let plaintext = "representative payload";
    let key = "sixteen-byte-key";
    let baseline = xencode(plaintext, key);
    for pos in 0..key.len() {
        let mut mutated: Vec<u8> = key.as_bytes().to_vec();
        mutated[pos] ^= 0x01;
        let mutated_key = String::from_utf8(mutated).unwrap();
        assert_ne!(xencode(plaintext, &mutated_key), baseline, "byte {} insensitive", pos);
    }
}

#[test]
fn key_bytes_past_the_fourth_word_are_inert() {
    let plaintext = "representative payload";
    let baseline = xencode(plaintext, "sixteen-byte-keyZ");
    assert_eq!(xencode(plaintext, "sixteen-byte-key["), baseline);
}

/// An independent reimplementation of the mixer that counts its rounds.
fn reference_mixer(words: &mut Vec<u32>, key: &[u32]) -> usize {
    let n = words.len();
    let mut right = words[n - 1];
    let mut sum: u32 = 0;
    let mut rounds = 0;
    for _ in 0..(6 + 52 / n) {
        sum = sum.wrapping_add(0x9e3779b9);
        rounds += 1;
        let e = (sum >> 2) & 3;
        for p in 0..n {
            let left = words[(p + 1) % n];
            right = ((right >> 5) ^ (left << 2))
                .wrapping_add(((left >> 3) ^ (right << 4)) ^ (sum ^ left))
                .wrapping_add(key[(p & 3) ^ e as usize])
                .wrapping_add(words[p]);
            words[p] = right;
        }
    }
    rounds
}

#[test]
fn round_count_matches_reference_for_selected_sizes() {
    let key = "0123456789abcdef";
    let key_words = mix(key.as_bytes(), false);
    // plaintext byte lengths packing (with the size word) into 2, 3, 5 and 10 words
    for (len, n) in [(3usize, 2usize), (8, 3), (16, 5), (33, 10)] {
        let plaintext = "q".repeat(len);
        let words = mix(plaintext.as_bytes(), true);
        assert_eq!(words.len(), n);

        let mut expected_words = words.clone();
        let rounds = reference_mixer(&mut expected_words, &key_words);
        assert_eq!(rounds, 6 + 52 / n);

        assert_eq!(encrypt(words, &key_words), expected_words);
        assert_eq!(xencode(&plaintext, key), splite(expected_words, false));
    }
}

#[test]
fn known_vector_ascii() {
    let cipher = xencode("bitsrun-test-payload", "super-secret-key!");
    assert_eq!(
        cipher,
        vec![
            51, 74, 101, 146, 64, 220, 22, 217, 19, 187, 160, 212, 225, 72, 53, 106, 240, 146,
            45, 224, 89, 247, 115, 73,
        ]
    );
}

#[test]
fn known_vector_multibyte_plaintext() {
    let cipher = xencode("校园网", "0123456789abcdef");
    assert_eq!(
        cipher,
        vec![178, 86, 139, 26, 240, 75, 243, 55, 42, 191, 227, 233, 108, 88, 91, 111]
    );
}

#[test]
fn known_vector_minimum_key_length() {
    // a 13-byte key is the shortest that packs into 4 words
    let cipher = xencode("a", "thirteen-byte");
    assert_eq!(cipher, vec![107, 75, 239, 205, 165, 35, 212, 176]);
}
