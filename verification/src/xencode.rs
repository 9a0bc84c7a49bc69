//! Word packing and the block mixer.
//!
//! `mix` packs a byte buffer into little-endian 32-bit words (optionally
//! appending the original byte length), `splite` is the inverse direction
//! with an optional defensive length check, and `xencode` runs the packed
//! message through the TEA-family mixing rounds under a packed key.

use vstd::prelude::*;
use vstd::string::StringSliceAdditionalSpecFns;

verus! {

/// 32-bit additive round constant of the mixer.
pub const ROUND_CONSTANT: u32 = 0x9e3779b9;

// ---------------------------------------------------------------------------
// Word packing model
// ---------------------------------------------------------------------------

/// Byte `i` of `bytes`, or zero past the end (the zero padding of the final
/// 4-byte group).
pub open spec fn byte_or_zero(bytes: Seq<u8>, i: int) -> u8 {
    if 0 <= i < bytes.len() {
        bytes[i]
    } else {
        0u8
    }
}

/// A 32-bit word assembled from four bytes in little-endian order.
pub open spec fn word_from_bytes(b0: u8, b1: u8, b2: u8, b3: u8) -> u32 {
    (b0 as u32) | ((b1 as u32) << 8) | ((b2 as u32) << 16) | ((b3 as u32) << 24)
}

/// Number of 4-byte groups a buffer of `len` bytes packs into: ceil(len / 4).
pub open spec fn group_count(len: int) -> int {
    (len + 3) / 4
}

/// Word `w` of the little-endian packing of `bytes`.
pub open spec fn packed_word(bytes: Seq<u8>, w: int) -> u32 {
    word_from_bytes(
        byte_or_zero(bytes, 4 * w),
        byte_or_zero(bytes, 4 * w + 1),
        byte_or_zero(bytes, 4 * w + 2),
        byte_or_zero(bytes, 4 * w + 3),
    )
}

/// The word sequence `mix` produces: the packed groups, followed by the
/// original (unpadded) byte length if `append_size` is set.
pub open spec fn pack_bytes(bytes: Seq<u8>, append_size: bool) -> Seq<u32> {
    let groups = Seq::new(group_count(bytes.len() as int) as nat, |w: int| packed_word(bytes, w));
    if append_size {
        groups.push(bytes.len() as u32)
    } else {
        groups
    }
}

/// Byte `j` (0 to 3) of the little-endian serialization of `w`.
pub open spec fn word_byte(w: u32, j: int) -> u8 {
    if j == 0 {
        (w & 0xff) as u8
    } else if j == 1 {
        ((w >> 8) & 0xff) as u8
    } else if j == 2 {
        ((w >> 16) & 0xff) as u8
    } else {
        ((w >> 24) & 0xff) as u8
    }
}

/// All words serialized back to bytes, little-endian, 4 bytes per word.
pub open spec fn unpack_words(words: Seq<u32>) -> Seq<u8> {
    Seq::new((words.len() * 4) as nat, |i: int| word_byte(words[i / 4], i % 4))
}

/// The byte sequence `splite` produces. With `include_size` the last word is
/// read as the original byte length and a buffer whose marker cannot have come
/// from a consistent `mix` call is rejected as empty; without it the marker's
/// own bytes stay in the output.
pub open spec fn splite_spec(words: Seq<u32>, include_size: bool) -> Seq<u8> {
    if include_size {
        let marker = words.last() as int;
        let expected = (words.len() - 1) * 4;
        if marker + 3 < expected || marker > expected {
            Seq::empty()
        } else {
            unpack_words(words).take(marker)
        }
    } else {
        unpack_words(words)
    }
}

// ---------------------------------------------------------------------------
// Word packing, executable
// ---------------------------------------------------------------------------

/// Split `buffer` into 4-byte little-endian words, zero-padding the final
/// group; with `append_size`, append one extra word holding the original
/// byte length.
pub fn mix(buffer: &[u8], append_size: bool) -> (words: Vec<u32>)
    requires
        append_size ==> buffer@.len() <= u32::MAX,
    ensures
        words@ == pack_bytes(buffer@, append_size),
        words@.len() == group_count(buffer@.len() as int) + if append_size {
            1int
        } else {
            0int
        },
{
    let len = buffer.len();
    let mut words: Vec<u32> = Vec::new();
    let mut i: usize = 0;
    while i < len
        invariant
            len == buffer@.len(),
            i <= len,
            i % 4 == 0 || i == len,
            words@.len() == (i + 3) / 4,
            forall|w: int| 0 <= w < words@.len() ==> words@[w] == packed_word(buffer@, w),
        decreases len - i,
    {
        let b0 = buffer[i];
        let b1 = if i + 1 < len {
            buffer[i + 1]
        } else {
            0
        };
        let b2 = if i + 2 < len {
            buffer[i + 2]
        } else {
            0
        };
        let b3 = if i + 3 < len {
            buffer[i + 3]
        } else {
            0
        };
        let w = (b0 as u32) | ((b1 as u32) << 8) | ((b2 as u32) << 16) | ((b3 as u32) << 24);
        proof {
            assert(w == packed_word(buffer@, i as int / 4));
        }
        words.push(w);
        if len - i >= 4 {
            i = i + 4;
        } else {
            i = len;
        }
    }
    if append_size {
        words.push(len as u32);
    }
    proof {
        assert(words@ =~= pack_bytes(buffer@, append_size));
    }
    words
}

/// Little-endian packing and serialization are inverse, byte for byte.
proof fn lemma_word_byte_of_packed(b0: u8, b1: u8, b2: u8, b3: u8)
    ensures
        word_byte(word_from_bytes(b0, b1, b2, b3), 0) == b0,
        word_byte(word_from_bytes(b0, b1, b2, b3), 1) == b1,
        word_byte(word_from_bytes(b0, b1, b2, b3), 2) == b2,
        word_byte(word_from_bytes(b0, b1, b2, b3), 3) == b3,
{
    let w = word_from_bytes(b0, b1, b2, b3);
    assert((((b0 as u32) | ((b1 as u32) << 8) | ((b2 as u32) << 16) | ((b3 as u32) << 24))
        & 0xff) == b0 as u32) by (bit_vector);
    assert(((((b0 as u32) | ((b1 as u32) << 8) | ((b2 as u32) << 16) | ((b3 as u32) << 24)) >> 8)
        & 0xff) == b1 as u32) by (bit_vector);
    assert(((((b0 as u32) | ((b1 as u32) << 8) | ((b2 as u32) << 16) | ((b3 as u32) << 24)) >> 16)
        & 0xff) == b2 as u32) by (bit_vector);
    assert(((((b0 as u32) | ((b1 as u32) << 8) | ((b2 as u32) << 16) | ((b3 as u32) << 24)) >> 24)
        & 0xff) == b3 as u32) by (bit_vector);
}

/// Law: a buffer packed with length tracking always passes `splite`'s
/// validation — the marker a consistent `mix` call writes is never rejected —
/// and the validated unpacking returns the original bytes exactly.
pub proof fn lemma_mix_splite_round_trip(bytes: Seq<u8>)
    requires
        bytes.len() <= u32::MAX,
    ensures
        splite_spec(pack_bytes(bytes, true), true) == bytes,
{
    let words = pack_bytes(bytes, true);
    let gc = group_count(bytes.len() as int);
    let marker = words.last() as int;
    assert(marker == bytes.len());
    assert(marker <= (words.len() - 1) * 4 && marker + 3 >= (words.len() - 1) * 4);
    let full = unpack_words(words);
    assert forall|i: int| 0 <= i < bytes.len() implies full[i] == bytes[i] by {
        let w = i / 4;
        assert(words[w] == packed_word(bytes, w));
        lemma_word_byte_of_packed(
            byte_or_zero(bytes, 4 * w),
            byte_or_zero(bytes, 4 * w + 1),
            byte_or_zero(bytes, 4 * w + 2),
            byte_or_zero(bytes, 4 * w + 3),
        );
    }
    assert(splite_spec(words, true) =~= bytes);
}

// ---------------------------------------------------------------------------
// Block mixer model
// ---------------------------------------------------------------------------

/// The accumulator after `r` rounds: `r` wrapping additions of the round
/// constant.
pub open spec fn round_sum(r: int) -> u32
    decreases r,
{
    if r <= 0 {
        0u32
    } else {
        round_sum(r - 1).wrapping_add(ROUND_CONSTANT)
    }
}

/// Which key word position `p` mixes with under accumulator `sum`.
pub open spec fn key_slot(p: int, sum: u32) -> int {
    (((p % 4) as u32) ^ ((sum >> 2) & 3)) as int
}

/// The word written at one position: the mixing function of the previous new
/// word (`right`), the successor word (`left`), the accumulator and the
/// selected key word, added (wrapping) to the word being replaced.
pub open spec fn mixed_word(right: u32, left: u32, cur: u32, sum: u32, kw: u32) -> u32 {
    ((right >> 5) ^ (left << 2)).wrapping_add(((left >> 3) ^ (right << 4)) ^ (sum ^ left))
        .wrapping_add(kw)
        .wrapping_add(cur)
}

/// One round's ascending sweep, carried out over positions `0 .. p`.
/// Position `q` reads its `right` neighbour from the value just written at
/// `q - 1` (for `q == 0`: the last word of the round's starting state) and
/// its `left` neighbour from position `q + 1` wrapping around, so the sweep
/// sees already-updated words exactly as an in-place pass does.
pub open spec fn sweep(words: Seq<u32>, key: Seq<u32>, sum: u32, p: int) -> Seq<u32>
    decreases p,
{
    if p <= 0 {
        words
    } else {
        let n = words.len() as int;
        let prev = sweep(words, key, sum, p - 1);
        let q = p - 1;
        let right = if q == 0 {
            prev[n - 1]
        } else {
            prev[q - 1]
        };
        let left = prev[(q + 1) % n];
        prev.update(q, mixed_word(right, left, prev[q], sum, key[key_slot(q, sum)]))
    }
}

/// The word state after `r` full rounds.
pub open spec fn mixed_rounds(words: Seq<u32>, key: Seq<u32>, r: int) -> Seq<u32>
    decreases r,
{
    if r <= 0 {
        words
    } else {
        let before = mixed_rounds(words, key, r - 1);
        sweep(before, key, round_sum(r), words.len() as int)
    }
}

/// How many rounds a message of `n` words receives: shorter messages get
/// proportionally more.
pub open spec fn round_count(n: int) -> int {
    6 + 52int / n
}

/// The cipher: `round_count` full rounds over the packed words.
pub open spec fn encrypt_spec(words: Seq<u32>, key: Seq<u32>) -> Seq<u32> {
    mixed_rounds(words, key, round_count(words.len() as int))
}

/// The whole pipeline on byte sequences: empty input short-circuits; anything
/// else is packed with length tracking, mixed under the packed key, and
/// serialized without stripping the (encrypted) length word.
pub open spec fn xencode_spec(msg: Seq<u8>, key: Seq<u8>) -> Seq<u8> {
    if msg.len() == 0 {
        Seq::empty()
    } else {
        unpack_words(encrypt_spec(pack_bytes(msg, true), pack_bytes(key, false)))
    }
}

/// A sweep only updates words, so it keeps the length.
pub proof fn lemma_sweep_len(words: Seq<u32>, key: Seq<u32>, sum: u32, p: int)
    requires
        p <= words.len(),
    ensures
        sweep(words, key, sum, p).len() == words.len(),
    decreases p,
{
    if p > 0 {
        lemma_sweep_len(words, key, sum, p - 1);
        let prev = sweep(words, key, sum, p - 1);
        let n = words.len() as int;
        let q = p - 1;
        let right = if q == 0 {
            prev[n - 1]
        } else {
            prev[q - 1]
        };
        let left = prev[(q + 1) % n];
        assert(sweep(words, key, sum, p) == prev.update(
            q,
            mixed_word(right, left, prev[q], sum, key[key_slot(q, sum)]),
        ));
    }
}

/// Serialize the words back to bytes, little-endian. With `include_size` the
/// last word is a length marker: implausible markers yield an empty buffer,
/// plausible ones truncate the output to the marked length.
pub fn splite(buffer: Vec<u32>, include_size: bool) -> (out: Vec<u8>)
    requires
        buffer@.len() >= 1,
        buffer@.len() * 4 <= usize::MAX,
    ensures
        out@ == splite_spec(buffer@, include_size),
{
    let len = buffer.len();
    let size_record = buffer[len - 1];
    if include_size {
        let expected = (len - 1) * 4;
        let marker = size_record as usize;
        if marker > expected || marker + 3 < expected {
            return Vec::new();
        }
    }
    let mut out: Vec<u8> = Vec::new();
    let mut w: usize = 0;
    while w < len
        invariant
            len == buffer@.len(),
            len * 4 <= usize::MAX,
            w <= len,
            out@.len() == 4 * w,
            forall|i: int| 0 <= i < out@.len() ==> out@[i] == word_byte(buffer@[i / 4], i % 4),
        decreases len - w,
    {
        let x = buffer[w];
        proof {
            assert((x & 0xff) < 256 && ((x >> 8) & 0xff) < 256 && ((x >> 16) & 0xff) < 256 && ((
            x >> 24) & 0xff) < 256) by (bit_vector);
        }
        out.push((x & 0xff) as u8);
        out.push(((x >> 8) & 0xff) as u8);
        out.push(((x >> 16) & 0xff) as u8);
        out.push(((x >> 24) & 0xff) as u8);
        w = w + 1;
    }
    proof {
        assert(out@ =~= unpack_words(buffer@));
    }
    if include_size {
        let size = size_record as usize;
        out.truncate(size);
        proof {
            assert(out@ =~= splite_spec(buffer@, true));
        }
    }
    out
}

// ---------------------------------------------------------------------------
// Block mixer, executable
// ---------------------------------------------------------------------------

/// Run the mixing rounds over `msg` under `key_words`. The key must pack to
/// at least 4 words; the message must hold at least its one data word plus
/// the size word.
pub fn encrypt(msg: Vec<u32>, key_words: &Vec<u32>) -> (cipher: Vec<u32>)
    requires
        msg@.len() >= 2,
        key_words@.len() >= 4,
    ensures
        cipher@ == encrypt_spec(msg@, key_words@),
        cipher@.len() == msg@.len(),
{
    let mut msg = msg;
    let ghost orig = msg@;
    let len = msg.len();
    let mut right = msg[len - 1];
    let mut sum: u32 = 0;
    let count: usize = 6 + 52 / len;
    let mut round: usize = 0;
    while round < count
        invariant
            len == orig.len(),
            len >= 2,
            key_words@.len() >= 4,
            round <= count,
            count == round_count(len as int),
            msg@ == mixed_rounds(orig, key_words@, round as int),
            msg@.len() == len,
            sum == round_sum(round as int),
            right == msg@[len - 1],
        decreases count - round,
    {
        sum = sum.wrapping_add(ROUND_CONSTANT);
        let e: u32 = (sum >> 2) & 3;
        let ghost before = msg@;
        let mut p: usize = 0;
        while p < len
            invariant
                len == before.len(),
                len >= 2,
                key_words@.len() >= 4,
                p <= len,
                e == (sum >> 2) & 3,
                msg@ == sweep(before, key_words@, sum, p as int),
                msg@.len() == len,
                right == if p == 0 {
                    msg@[len - 1]
                } else {
                    msg@[p - 1]
                },
            decreases len - p,
        {
            proof {
                lemma_sweep_len(before, key_words@, sum, p as int);
            }
            let left = msg[(p + 1) % len];
            let pm: u32 = (p % 4) as u32;
            proof {
                assert(((sum >> 2) & 3) < 4) by (bit_vector);
                assert((pm ^ e) < 4) by (bit_vector)
                    requires
                        pm < 4,
                        e < 4,
                ;
            }
            let slot = (pm ^ e) as usize;
            let kw = key_words[slot];
            right = ((right >> 5) ^ (left << 2)).wrapping_add(((left >> 3) ^ (right << 4)) ^ (sum
                ^ left)).wrapping_add(kw).wrapping_add(msg[p]);
            msg.set(p, right);
            proof {
                assert(slot == key_slot(p as int, sum));
                assert(msg@ == sweep(before, key_words@, sum, p + 1));
            }
            p = p + 1;
        }
        round = round + 1;
        proof {
            assert(msg@ == mixed_rounds(orig, key_words@, round as int));
        }
    }
    msg
}

/// Encrypt `msg` under `key`: pack the message bytes with length tracking,
/// pack the key, mix, and serialize the mixed words. Empty messages yield an
/// empty buffer without touching the mixer. The key must supply at least 13
/// bytes (4 packed words); the message length must fit in a 32-bit size word
/// and leave room for it in the address space.
pub fn xencode(msg: &str, key: &str) -> (cipher: Vec<u8>)
    requires
        key.spec_bytes().len() >= 13,
        msg.spec_bytes().len() <= u32::MAX,
        msg.spec_bytes().len() + 7 <= usize::MAX,
    ensures
        cipher@ == xencode_spec(msg.spec_bytes(), key.spec_bytes()),
        msg.spec_bytes().len() == 0 ==> cipher@.len() == 0,
        msg.spec_bytes().len() > 0 ==> cipher@.len() == 4 * (group_count(
            msg.spec_bytes().len() as int,
        ) + 1),
{
    let msg_bytes = msg.as_bytes();
    if msg_bytes.len() == 0 {
        return Vec::new();
    }
    let words = mix(msg_bytes, true);
    let key_bytes = key.as_bytes();
    let key_words = mix(key_bytes, false);
    let mixed = encrypt(words, &key_words);
    splite(mixed, false)
}

} // verus!
