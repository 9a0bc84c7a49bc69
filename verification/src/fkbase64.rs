//! The alphabet encoder: base64 over the protocol's own 64-symbol table.
//!
//! Standard base64 grouping (6-bit groups, `=` padding) with position `i` of
//! the usual alphabet replaced by position `i` of the protocol table. The
//! substitution is presentation only; a decoder with the inverse table
//! recovers the input bytes exactly, which is proved below.

use vstd::prelude::*;
use vstd::string::StringExecFns;

verus! {

// ---------------------------------------------------------------------------
// The symbol table and its inverse
// ---------------------------------------------------------------------------

/// Symbol standing for the 6-bit value `i` of the protocol table
/// `LVoJPiCN2R8G90yg+hmFHuacZ1OWMnrsSTXkYpUq/3dlbfKwv6xztjI7DeBE45QA`.
pub open spec fn sym_char(i: u8) -> char {
    if i == 0 {
        'L'
    } else if i == 1 {
        'V'
    } else if i == 2 {
        'o'
    } else if i == 3 {
        'J'
    } else if i == 4 {
        'P'
    } else if i == 5 {
        'i'
    } else if i == 6 {
        'C'
    } else if i == 7 {
        'N'
    } else if i == 8 {
        '2'
    } else if i == 9 {
        'R'
    } else if i == 10 {
        '8'
    } else if i == 11 {
        'G'
    } else if i == 12 {
        '9'
    } else if i == 13 {
        '0'
    } else if i == 14 {
        'y'
    } else if i == 15 {
        'g'
    } else if i == 16 {
        '+'
    } else if i == 17 {
        'h'
    } else if i == 18 {
        'm'
    } else if i == 19 {
        'F'
    } else if i == 20 {
        'H'
    } else if i == 21 {
        'u'
    } else if i == 22 {
        'a'
    } else if i == 23 {
        'c'
    } else if i == 24 {
        'Z'
    } else if i == 25 {
        '1'
    } else if i == 26 {
        'O'
    } else if i == 27 {
        'W'
    } else if i == 28 {
        'M'
    } else if i == 29 {
        'n'
    } else if i == 30 {
        'r'
    } else if i == 31 {
        's'
    } else if i == 32 {
        'S'
    } else if i == 33 {
        'T'
    } else if i == 34 {
        'X'
    } else if i == 35 {
        'k'
    } else if i == 36 {
        'Y'
    } else if i == 37 {
        'p'
    } else if i == 38 {
        'U'
    } else if i == 39 {
        'q'
    } else if i == 40 {
        '/'
    } else if i == 41 {
        '3'
    } else if i == 42 {
        'd'
    } else if i == 43 {
        'l'
    } else if i == 44 {
        'b'
    } else if i == 45 {
        'f'
    } else if i == 46 {
        'K'
    } else if i == 47 {
        'w'
    } else if i == 48 {
        'v'
    } else if i == 49 {
        '6'
    } else if i == 50 {
        'x'
    } else if i == 51 {
        'z'
    } else if i == 52 {
        't'
    } else if i == 53 {
        'j'
    } else if i == 54 {
        'I'
    } else if i == 55 {
        '7'
    } else if i == 56 {
        'D'
    } else if i == 57 {
        'e'
    } else if i == 58 {
        'B'
    } else if i == 59 {
        'E'
    } else if i == 60 {
        '4'
    } else if i == 61 {
        '5'
    } else if i == 62 {
        'Q'
    } else {
        'A'
    }
}

/// Inverse of `sym_char`: the 6-bit value a symbol stands for, or 255 for a
/// character outside the table.
pub open spec fn sym_index(c: char) -> u8 {
    if c == 'L' {
        0u8
    } else if c == 'V' {
        1u8
    } else if c == 'o' {
        2u8
    } else if c == 'J' {
        3u8
    } else if c == 'P' {
        4u8
    } else if c == 'i' {
        5u8
    } else if c == 'C' {
        6u8
    } else if c == 'N' {
        7u8
    } else if c == '2' {
        8u8
    } else if c == 'R' {
        9u8
    } else if c == '8' {
        10u8
    } else if c == 'G' {
        11u8
    } else if c == '9' {
        12u8
    } else if c == '0' {
        13u8
    } else if c == 'y' {
        14u8
    } else if c == 'g' {
        15u8
    } else if c == '+' {
        16u8
    } else if c == 'h' {
        17u8
    } else if c == 'm' {
        18u8
    } else if c == 'F' {
        19u8
    } else if c == 'H' {
        20u8
    } else if c == 'u' {
        21u8
    } else if c == 'a' {
        22u8
    } else if c == 'c' {
        23u8
    } else if c == 'Z' {
        24u8
    } else if c == '1' {
        25u8
    } else if c == 'O' {
        26u8
    } else if c == 'W' {
        27u8
    } else if c == 'M' {
        28u8
    } else if c == 'n' {
        29u8
    } else if c == 'r' {
        30u8
    } else if c == 's' {
        31u8
    } else if c == 'S' {
        32u8
    } else if c == 'T' {
        33u8
    } else if c == 'X' {
        34u8
    } else if c == 'k' {
        35u8
    } else if c == 'Y' {
        36u8
    } else if c == 'p' {
        37u8
    } else if c == 'U' {
        38u8
    } else if c == 'q' {
        39u8
    } else if c == '/' {
        40u8
    } else if c == '3' {
        41u8
    } else if c == 'd' {
        42u8
    } else if c == 'l' {
        43u8
    } else if c == 'b' {
        44u8
    } else if c == 'f' {
        45u8
    } else if c == 'K' {
        46u8
    } else if c == 'w' {
        47u8
    } else if c == 'v' {
        48u8
    } else if c == '6' {
        49u8
    } else if c == 'x' {
        50u8
    } else if c == 'z' {
        51u8
    } else if c == 't' {
        52u8
    } else if c == 'j' {
        53u8
    } else if c == 'I' {
        54u8
    } else if c == '7' {
        55u8
    } else if c == 'D' {
        56u8
    } else if c == 'e' {
        57u8
    } else if c == 'B' {
        58u8
    } else if c == 'E' {
        59u8
    } else if c == '4' {
        60u8
    } else if c == '5' {
        61u8
    } else if c == 'Q' {
        62u8
    } else if c == 'A' {
        63u8
    } else {
        255u8
    }
}

/// The table is injective and never collides with the padding symbol.
pub proof fn lemma_symbol_table()
    ensures
        forall|i: u8| i < 64 ==> sym_index(#[trigger] sym_char(i)) == i,
        forall|i: u8| i < 64 ==> #[trigger] sym_char(i) != '=',
{
}

/// The one-character string for the 6-bit value `idx`.
fn sym(idx: u8) -> (s: &'static str)
    requires
        idx < 64,
    ensures
        s@.len() == 1,
        s@[0] == sym_char(idx),
{
    match idx {
        0 => {
            proof {
                reveal_strlit("L");
            }
            "L"
        },
        1 => {
            proof {
                reveal_strlit("V");
            }
            "V"
        },
        2 => {
            proof {
                reveal_strlit("o");
            }
            "o"
        },
        3 => {
            proof {
                reveal_strlit("J");
            }
            "J"
        },
        4 => {
            proof {
                reveal_strlit("P");
            }
            "P"
        },
        5 => {
            proof {
                reveal_strlit("i");
            }
            "i"
        },
        6 => {
            proof {
                reveal_strlit("C");
            }
            "C"
        },
        7 => {
            proof {
                reveal_strlit("N");
            }
            "N"
        },
        8 => {
            proof {
                reveal_strlit("2");
            }
            "2"
        },
        9 => {
            proof {
                reveal_strlit("R");
            }
            "R"
        },
        10 => {
            proof {
                reveal_strlit("8");
            }
            "8"
        },
        11 => {
            proof {
                reveal_strlit("G");
            }
            "G"
        },
        12 => {
            proof {
                reveal_strlit("9");
            }
            "9"
        },
        13 => {
            proof {
                reveal_strlit("0");
            }
            "0"
        },
        14 => {
            proof {
                reveal_strlit("y");
            }
            "y"
        },
        15 => {
            proof {
                reveal_strlit("g");
            }
            "g"
        },
        16 => {
            proof {
                reveal_strlit("+");
            }
            "+"
        },
        17 => {
            proof {
                reveal_strlit("h");
            }
            "h"
        },
        18 => {
            proof {
                reveal_strlit("m");
            }
            "m"
        },
        19 => {
            proof {
                reveal_strlit("F");
            }
            "F"
        },
        20 => {
            proof {
                reveal_strlit("H");
            }
            "H"
        },
        21 => {
            proof {
                reveal_strlit("u");
            }
            "u"
        },
        22 => {
            proof {
                reveal_strlit("a");
            }
            "a"
        },
        23 => {
            proof {
                reveal_strlit("c");
            }
            "c"
        },
        24 => {
            proof {
                reveal_strlit("Z");
            }
            "Z"
        },
        25 => {
            proof {
                reveal_strlit("1");
            }
            "1"
        },
        26 => {
            proof {
                reveal_strlit("O");
            }
            "O"
        },
        27 => {
            proof {
                reveal_strlit("W");
            }
            "W"
        },
        28 => {
            proof {
                reveal_strlit("M");
            }
            "M"
        },
        29 => {
            proof {
                reveal_strlit("n");
            }
            "n"
        },
        30 => {
            proof {
                reveal_strlit("r");
            }
            "r"
        },
        31 => {
            proof {
                reveal_strlit("s");
            }
            "s"
        },
        32 => {
            proof {
                reveal_strlit("S");
            }
            "S"
        },
        33 => {
            proof {
                reveal_strlit("T");
            }
            "T"
        },
        34 => {
            proof {
                reveal_strlit("X");
            }
            "X"
        },
        35 => {
            proof {
                reveal_strlit("k");
            }
            "k"
        },
        36 => {
            proof {
                reveal_strlit("Y");
            }
            "Y"
        },
        37 => {
            proof {
                reveal_strlit("p");
            }
            "p"
        },
        38 => {
            proof {
                reveal_strlit("U");
            }
            "U"
        },
        39 => {
            proof {
                reveal_strlit("q");
            }
            "q"
        },
        40 => {
            proof {
                reveal_strlit("/");
            }
            "/"
        },
        41 => {
            proof {
                reveal_strlit("3");
            }
            "3"
        },
        42 => {
            proof {
                reveal_strlit("d");
            }
            "d"
        },
        43 => {
            proof {
                reveal_strlit("l");
            }
            "l"
        },
        44 => {
            proof {
                reveal_strlit("b");
            }
            "b"
        },
        45 => {
            proof {
                reveal_strlit("f");
            }
            "f"
        },
        46 => {
            proof {
                reveal_strlit("K");
            }
            "K"
        },
        47 => {
            proof {
                reveal_strlit("w");
            }
            "w"
        },
        48 => {
            proof {
                reveal_strlit("v");
            }
            "v"
        },
        49 => {
            proof {
                reveal_strlit("6");
            }
            "6"
        },
        50 => {
            proof {
                reveal_strlit("x");
            }
            "x"
        },
        51 => {
            proof {
                reveal_strlit("z");
            }
            "z"
        },
        52 => {
            proof {
                reveal_strlit("t");
            }
            "t"
        },
        53 => {
            proof {
                reveal_strlit("j");
            }
            "j"
        },
        54 => {
            proof {
                reveal_strlit("I");
            }
            "I"
        },
        55 => {
            proof {
                reveal_strlit("7");
            }
            "7"
        },
        56 => {
            proof {
                reveal_strlit("D");
            }
            "D"
        },
        57 => {
            proof {
                reveal_strlit("e");
            }
            "e"
        },
        58 => {
            proof {
                reveal_strlit("B");
            }
            "B"
        },
        59 => {
            proof {
                reveal_strlit("E");
            }
            "E"
        },
        60 => {
            proof {
                reveal_strlit("4");
            }
            "4"
        },
        61 => {
            proof {
                reveal_strlit("5");
            }
            "5"
        },
        62 => {
            proof {
                reveal_strlit("Q");
            }
            "Q"
        },
        63 => {
            proof {
                reveal_strlit("A");
            }
            "A"
        },
        _ => {
            proof {
                reveal_strlit("A");
            }
            "A"
        },
    }
}

// ---------------------------------------------------------------------------
// Encoding model
// ---------------------------------------------------------------------------

/// The four symbols of one full 3-byte group starting at byte `i`.
pub open spec fn b64_group(bytes: Seq<u8>, i: int) -> Seq<char> {
    let a = bytes[i];
    let b = bytes[i + 1];
    let c = bytes[i + 2];
    seq![
        sym_char(a >> 2),
        sym_char(((a & 3) << 4) | (b >> 4)),
        sym_char(((b & 15) << 2) | (c >> 6)),
        sym_char(c & 63),
    ]
}

/// The encoding of `bytes` from position `i` on: full groups as long as three
/// bytes remain, then one padded group for a 1- or 2-byte tail.
pub open spec fn b64_from(bytes: Seq<u8>, i: int) -> Seq<char>
    decreases bytes.len() - i,
{
    if i + 3 <= bytes.len() {
        b64_group(bytes, i) + b64_from(bytes, i + 3)
    } else if i + 2 == bytes.len() {
        let a = bytes[i];
        let b = bytes[i + 1];
        seq![sym_char(a >> 2), sym_char(((a & 3) << 4) | (b >> 4)), sym_char((b & 15) << 2), '=']
    } else if i + 1 == bytes.len() {
        let a = bytes[i];
        seq![sym_char(a >> 2), sym_char((a & 3) << 4), '=', '=']
    } else {
        Seq::empty()
    }
}

/// The custom-alphabet encoding of a whole buffer.
pub open spec fn custom_b64(bytes: Seq<u8>) -> Seq<char> {
    b64_from(bytes, 0)
}

/// Decoding with the inverse table: 4 symbols back to 3 bytes, with the
/// trailing `=` padding deciding how many bytes the last group carries.
pub open spec fn b64_decode(s: Seq<char>) -> Seq<u8>
    decreases s.len(),
{
    if s.len() < 4 {
        Seq::empty()
    } else {
        let i0 = sym_index(s[0]);
        let i1 = sym_index(s[1]);
        let i2 = sym_index(s[2]);
        let i3 = sym_index(s[3]);
        let b0 = (i0 << 2) | (i1 >> 4);
        let b1 = ((i1 & 15) << 4) | (i2 >> 2);
        let b2 = ((i2 & 3) << 6) | i3;
        if s.len() == 4 {
            if s[2] == '=' && s[3] == '=' {
                seq![b0]
            } else if s[3] == '=' {
                seq![b0, b1]
            } else {
                seq![b0, b1, b2]
            }
        } else {
            seq![b0, b1, b2] + b64_decode(s.skip(4))
        }
    }
}

/// Decoding the encoding of the suffix of `bytes` from `i` on recovers that
/// suffix exactly.
pub proof fn lemma_round_trip_from(bytes: Seq<u8>, i: int)
    requires
        0 <= i <= bytes.len(),
    ensures
        b64_decode(b64_from(bytes, i)) == bytes.skip(i),
    decreases bytes.len() - i,
{
    lemma_symbol_table();
    let s = b64_from(bytes, i);
    if i + 3 <= bytes.len() {
        let a = bytes[i];
        let b = bytes[i + 1];
        let c = bytes[i + 2];
        assert((a >> 2) < 64 && (((a & 3) << 4) | (b >> 4)) < 64 && (((b & 15) << 2) | (c >> 6))
            < 64 && (c & 63) < 64) by (bit_vector);
        assert((((a >> 2) << 2) | ((((a & 3) << 4) | (b >> 4)) >> 4)) == a) by (bit_vector);
        assert(((((((a & 3) << 4) | (b >> 4)) & 15) << 4) | ((((b & 15) << 2) | (c >> 6)) >> 2))
            == b) by (bit_vector);
        assert((((((b & 15) << 2) | (c >> 6)) & 3) << 6) | (c & 63) == c) by (bit_vector);
        lemma_round_trip_from(bytes, i + 3);
        let rest = b64_from(bytes, i + 3);
        if rest.len() == 0 {
            assert(i + 3 == bytes.len());
            assert(s.len() == 4);
            assert(b64_decode(s) =~= seq![a, b, c]);
            assert(bytes.skip(i) =~= seq![a, b, c]);
        } else {
            assert(s.len() > 4);
            assert(s.skip(4) =~= rest);
            assert(b64_decode(s) =~= seq![a, b, c] + b64_decode(rest));
            assert(seq![a, b, c] + bytes.skip(i + 3) =~= bytes.skip(i));
        }
    } else if i + 2 == bytes.len() {
        let a = bytes[i];
        let b = bytes[i + 1];
        assert((a >> 2) < 64 && (((a & 3) << 4) | (b >> 4)) < 64 && ((b & 15) << 2) < 64)
            by (bit_vector);
        assert((((a >> 2) << 2) | ((((a & 3) << 4) | (b >> 4)) >> 4)) == a) by (bit_vector);
        assert(((((((a & 3) << 4) | (b >> 4)) & 15) << 4) | (((b & 15) << 2) >> 2)) == b)
            by (bit_vector);
        assert(b64_decode(s) =~= seq![a, b]);
        assert(bytes.skip(i) =~= seq![a, b]);
    } else if i + 1 == bytes.len() {
        let a = bytes[i];
        assert((a >> 2) < 64 && ((a & 3) << 4) < 64) by (bit_vector);
        assert((((a >> 2) << 2) | (((a & 3) << 4) >> 4)) == a) by (bit_vector);
        assert(b64_decode(s) =~= seq![a]);
        assert(bytes.skip(i) =~= seq![a]);
    } else {
        assert(b64_decode(s) =~= Seq::<u8>::empty());
        assert(bytes.skip(i) =~= Seq::<u8>::empty());
    }
}

/// Law: decoding `fkbase64`'s output with the inverse custom-alphabet mapping
/// recovers the input bytes exactly, whatever their length.
pub proof fn lemma_custom_b64_round_trip(bytes: Seq<u8>)
    ensures
        b64_decode(custom_b64(bytes)) == bytes,
{
    lemma_round_trip_from(bytes, 0);
    assert(bytes.skip(0) =~= bytes);
}

// ---------------------------------------------------------------------------
// Encoding, executable
// ---------------------------------------------------------------------------

/// Base64-encode `payload` over the protocol's 64-symbol table, with the
/// conventional `=` padding.
pub fn fkbase64(payload: Vec<u8>) -> (encoded: String)
    ensures
        encoded@ == custom_b64(payload@),
{
    let len = payload.len();
    let mut out = String::new();
    let mut i: usize = 0;
    proof {
        assert(Seq::<char>::empty() + custom_b64(payload@) =~= custom_b64(payload@));
    }
    while len - i >= 3
        invariant
            i <= len,
            len == payload@.len(),
            out@ + b64_from(payload@, i as int) == custom_b64(payload@),
        decreases len - i,
    {
        let a = payload[i];
        let b = payload[i + 1];
        let c = payload[i + 2];
        proof {
            assert((a >> 2) < 64 && (((a & 3) << 4) | (b >> 4)) < 64 && (((b & 15) << 2) | (c
                >> 6)) < 64 && (c & 63) < 64) by (bit_vector);
        }
        let ghost prefix = out@;
        out.append(sym(a >> 2));
        out.append(sym(((a & 3) << 4) | (b >> 4)));
        out.append(sym(((b & 15) << 2) | (c >> 6)));
        out.append(sym(c & 63));
        i = i + 3;
        proof {
            assert(out@ =~= prefix + b64_group(payload@, i - 3));
            assert(out@ + b64_from(payload@, i as int) =~= prefix + b64_from(payload@, i - 3));
        }
    }
    if len - i == 2 {
        let a = payload[i];
        let b = payload[i + 1];
        proof {
            assert((a >> 2) < 64 && (((a & 3) << 4) | (b >> 4)) < 64 && ((b & 15) << 2) < 64)
                by (bit_vector);
        }
        let ghost prefix = out@;
        out.append(sym(a >> 2));
        out.append(sym(((a & 3) << 4) | (b >> 4)));
        out.append(sym((b & 15) << 2));
        proof {
            reveal_strlit("=");
        }
        out.append("=");
        proof {
            assert(out@ =~= prefix + b64_from(payload@, i as int));
        }
    } else if len - i == 1 {
        let a = payload[i];
        proof {
            assert((a >> 2) < 64 && ((a & 3) << 4) < 64) by (bit_vector);
        }
        let ghost prefix = out@;
        out.append(sym(a >> 2));
        out.append(sym((a & 3) << 4));
        proof {
            reveal_strlit("=");
        }
        out.append("=");
        out.append("=");
        proof {
            assert(out@ =~= prefix + b64_from(payload@, i as int));
        }
    } else {
        proof {
            assert(out@ + b64_from(payload@, i as int) =~= out@);
        }
    }
    out
}

} // verus!
