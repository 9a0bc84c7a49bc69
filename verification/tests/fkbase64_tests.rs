//! Tests for the custom-alphabet base64 encoder.

use bitsrun::fkbase64;
use bitsrun::xencode;

const TABLE: &str = "LVoJPiCN2R8G90yg+hmFHuacZ1OWMnrsSTXkYpUq/3dlbfKwv6xztjI7DeBE45QA";

#[test]
fn empty_input_encodes_to_empty_string() {
    assert_eq!(fkbase64(Vec::new()), "");
}

#[test]
fn single_byte_gets_double_padding() {
    assert_eq!(fkbase64(b"M".to_vec()), "F+==");
}

#[test]
fn two_bytes_get_single_padding() {
    assert_eq!(fkbase64(b"Ma".to_vec()), "FaP=");
}

#[test]
fn three_bytes_get_no_padding() {
    assert_eq!(fkbase64(b"Man".to_vec()), "FaiK");
}

#[test]
fn longer_inputs_encode_group_by_group() {
    assert_eq!(fkbase64(b"bitsrun".to_vec()), "ZUptM7RjWS==");
    assert_eq!(fkbase64(vec![0, 1, 2, 3, 4, 5, 6]), "LLPoLv+iVS==");
}

#[test]
fn output_length_is_four_per_three_byte_group() {
    for len in 0..=9usize {
        let payload = vec![0xabu8; len];
        assert_eq!(fkbase64(payload).len(), 4 * ((len + 2) / 3));
    }
}

/// Decode with the inverse custom-alphabet mapping.
fn reference_decode(encoded: &str) -> Vec<u8> {
    let index_of = |symbol: char| TABLE.chars().position(|t| t == symbol).unwrap() as u8;
    let chars: Vec<char> = encoded.chars().collect();
    let mut out = Vec::new();
    for group in chars.chunks(4) {
        let i0 = index_of(group[0]);
        let i1 = index_of(group[1]);
        out.push((i0 << 2) | (i1 >> 4));
        if group[2] != '=' {
            let i2 = index_of(group[2]);
            out.push(((i1 & 15) << 4) | (i2 >> 2));
            if group[3] != '=' {
                let i3 = index_of(group[3]);
                out.push(((i2 & 3) << 6) | i3);
            }
        }
    }
    out
}

#[test]
fn inverse_mapping_recovers_all_padding_cases() {
    // lengths covering every padding shape, plus a multi-group buffer
    for payload in [
        Vec::new(),
        vec![0x4du8],
        vec![0x4du8, 0x61],
        vec![0x4du8, 0x61, 0x6e],
        vec![0x00u8, 0xff, 0x10, 0x80, 0x7f, 0x01, 0xfe],
    ] {
        let encoded = fkbase64(payload.clone());
        assert_eq!(reference_decode(&encoded), payload);
    }
}

#[test]
fn wire_token_for_known_vector() {
    let cipher = xencode("bitsrun-test-payload", "super-secret-key!");
    assert_eq!(fkbase64(cipher), "9t3pYYJMifYFKBJHDHSjOwomGrV1570R");
    let cipher = xencode("校园网", "0123456789abcdef");
    assert_eq!(fkbase64(cipher), "bpOGCwVG4zMdwQg3WiTWWv==");
    let cipher = xencode("a", "thirteen-byte");
    assert_eq!(fkbase64(cipher), "OtwwzOHkjGL=");
}
