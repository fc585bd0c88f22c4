//! Branch-free encoding of single Unicode scalar values into UTF-8.
//!
//! The encoder avoids conditional control flow on the value being encoded:
//! the byte length is accumulated from boolean comparisons and the bytes are
//! assembled with shifts and masks, so the work per call is a small, fixed
//! number of arithmetic operations.  Every function is specified against the
//! UTF-8 model in `vstd::utf8`: the bytes produced are exactly
//! `encode_scalar` of the input, and a reference decoder maps them back to
//! the input.

use vstd::prelude::*;
use vstd::utf8::*;

verus! {

/// The big-endian bytes of a 32-bit word, most significant first.
pub open spec fn word_bytes(w: u32) -> Seq<u8> {
    seq![
        ((w >> 24) & 0xff) as u8,
        ((w >> 16) & 0xff) as u8,
        ((w >> 8) & 0xff) as u8,
        (w & 0xff) as u8,
    ]
}

/// For a scalar with a 1-byte encoding, the assembled word carries that
/// encoding in its most significant byte.
proof fn word_width_1(c: u32, r: u32)
    by (bit_vector)
    requires
        c <= 0x7f,
        r == (((((c << 24) & 0xff000000) | ((c << 22) & 0x003f0000) | ((c << 20) & 0x00003f00)
            | ((c << 18) & 0x0000003f)) | 0x00808080) | 0x00000000),
    ensures
        ((r >> 24) & 0xff) as u8 == leading_byte_width_1(c),
{
}

/// For a scalar with a 2-byte encoding, the assembled word carries that
/// encoding in its two most significant bytes.
proof fn word_width_2(c: u32, r: u32)
    by (bit_vector)
    requires
        0x80 <= c <= 0x7ff,
        r == (((((c << 18) & 0xff000000) | ((c << 16) & 0x003f0000) | ((c << 14) & 0x00003f00)
            | ((c << 12) & 0x0000003f)) | 0x00808080) | 0xc0000000),
    ensures
        ((r >> 24) & 0xff) as u8 == leading_byte_width_2(c),
        ((r >> 16) & 0xff) as u8 == last_continuation_byte(c),
{
}

/// For a scalar with a 3-byte encoding, the assembled word carries that
/// encoding in its three most significant bytes.
proof fn word_width_3(c: u32, r: u32)
    by (bit_vector)
    requires
        0x800 <= c <= 0xffff,
        r == (((((c << 12) & 0xff000000) | ((c << 10) & 0x003f0000) | ((c << 8) & 0x00003f00)
            | ((c << 6) & 0x0000003f)) | 0x00808080) | 0xe0000000),
    ensures
        ((r >> 24) & 0xff) as u8 == leading_byte_width_3(c),
        ((r >> 16) & 0xff) as u8 == second_last_continuation_byte(c),
        ((r >> 8) & 0xff) as u8 == last_continuation_byte(c),
{
}

/// For a scalar with a 4-byte encoding, the assembled word carries that
/// encoding in all four bytes.
proof fn word_width_4(c: u32, r: u32)
    by (bit_vector)
    requires
        0x10000 <= c <= 0x10ffff,
        r == (((((c << 6) & 0xff000000) | ((c << 4) & 0x003f0000) | ((c << 2) & 0x00003f00) | ((c
            << 0) & 0x0000003f)) | 0x00808080) | 0xf0000000),
    ensures
        ((r >> 24) & 0xff) as u8 == leading_byte_width_4(c),
        ((r >> 16) & 0xff) as u8 == third_last_continuation_byte(c),
        ((r >> 8) & 0xff) as u8 == second_last_continuation_byte(c),
        (r & 0xff) as u8 == last_continuation_byte(c),
{
}

/// What it means for a buffer with valid-byte count `len` to hold the UTF-8
/// encoding of `codepoint`: the count and the first `len` bytes equal the
/// scalar's UTF-8 encoding.  Bytes past `len` are left unconstrained.
pub open spec fn encodes(codepoint: char, bytes: Seq<u8>, len: usize) -> bool {
    &&& len == encode_scalar(codepoint as u32).len()
    &&& bytes.take(len as int) == encode_scalar(codepoint as u32)
}

/// Encode a Unicode `char` into UTF-8.
///
/// Returns a 32-bit word holding the UTF-8 bytes left-justified
/// (most significant byte first), and a count of how many are valid (1-4).
/// Byte positions past the count are implementation-dependent.
pub fn utf8_word(codepoint: char) -> (r: (u32, u32))
    ensures
        encodes(codepoint, word_bytes(r.0), r.1 as usize),
        1 <= r.1 <= 4,
{
    proof {
        char_is_scalar(codepoint);
    }
    let codepoint = codepoint as u32;
    let p2: u32 = (codepoint > 0x7f) as u32;
    let p3: u32 = (codepoint > 0x7ff) as u32;
    let p4: u32 = (codepoint > 0xffff) as u32;
    let pbits = p2 + p3 + p4;
    let plen = p2 + pbits;
    let len = 1 + pbits;

    // One masked bit group per output byte, packed most significant first.
    // The groups past `len` land under a continuation mask and are filler.
    let base = 6 * (5 - len);
    let body = ((codepoint << base) & 0xff000000) | ((codepoint << (base - 2)) & 0x003f0000) | ((
    codepoint << (base - 4)) & 0x00003f00) | ((codepoint << (base - 6)) & 0x0000003f);

    // Continuation markers for bytes 1..=3; byte 0 receives the leading-byte
    // prefix `1^len 0` instead (empty for a plain ASCII byte).
    let marked = body | 0x00808080;
    proof {
        assert(1u32 << (plen + 1) >= 2) by (bit_vector)
            requires
                plen <= 4,
        ;
    }
    let prefix = ((1u32 << (plen + 1)) - 2) << (31 - plen);
    let result = marked | prefix;

    proof {
        if codepoint <= 0x7f {
            assert(prefix == 0x00000000u32) by (bit_vector)
                requires
                    prefix == (((1u32 << (plen + 1)) - 2) as u32) << ((31 - plen) as u32),
                    plen == 0u32,
            ;
            word_width_1(codepoint, result);
            assert(word_bytes(result).take(len as int) =~= encode_scalar(codepoint));
        } else if codepoint <= 0x7ff {
            assert(prefix == 0xc0000000u32) by (bit_vector)
                requires
                    prefix == (((1u32 << (plen + 1)) - 2) as u32) << ((31 - plen) as u32),
                    plen == 2u32,
            ;
            word_width_2(codepoint, result);
            assert(word_bytes(result).take(len as int) =~= encode_scalar(codepoint));
        } else if codepoint <= 0xffff {
            assert(prefix == 0xe0000000u32) by (bit_vector)
                requires
                    prefix == (((1u32 << (plen + 1)) - 2) as u32) << ((31 - plen) as u32),
                    plen == 3u32,
            ;
            word_width_3(codepoint, result);
            assert(word_bytes(result).take(len as int) =~= encode_scalar(codepoint));
        } else {
            assert(prefix == 0xf0000000u32) by (bit_vector)
                requires
                    prefix == (((1u32 << (plen + 1)) - 2) as u32) << ((31 - plen) as u32),
                    plen == 4u32,
            ;
            word_width_4(codepoint, result);
            assert(word_bytes(result).take(len as int) =~= encode_scalar(codepoint));
        }
    }
    (result, len)
}

/// Encode a Unicode `char` into UTF-8.
///
/// Returns an array of UTF-8 bytes and a count of how many are valid (1-4).
/// Invalid bytes are implementation-dependent and must not be read.
pub fn branchless_utf8(codepoint: char) -> (r: ([u8; 4], usize))
    ensures
        encodes(codepoint, r.0@, r.1),
        1 <= r.1 <= 4,
{
    let (word, len) = utf8_word(codepoint);
    proof {
        assert((word >> 24) & 0xff < 256 && (word >> 16) & 0xff < 256 && (word >> 8) & 0xff < 256
            && word & 0xff < 256) by (bit_vector);
    }
    // The word's bytes in big-endian order.
    let buf = [
        ((word >> 24) & 0xff) as u8,
        ((word >> 16) & 0xff) as u8,
        ((word >> 8) & 0xff) as u8,
        (word & 0xff) as u8,
    ];
    proof {
        assert(buf@ =~= word_bytes(word));
    }
    (buf, len as usize)
}

/// Return the number of bytes required to encode the provided `char`.
///
/// The count equals the length of the scalar's UTF-8 encoding: 1 for
/// `0x00..=0x7F`, 2 for `0x80..=0x7FF`, 3 for `0x800..=0xFFFF`, and 4 for
/// `0x10000..=0x10FFFF`.
pub fn utf8_bytes_for_codepoint(codepoint: char) -> (len: usize)
    ensures
        len == encode_scalar(codepoint as u32).len(),
        1 <= len <= 4,
{
    proof {
        char_is_scalar(codepoint);
    }
    // The `char` type guarantees the value is in bounds and not a surrogate.
    let codepoint = codepoint as u32;

    let mut len: usize = 1;
    // `true` casts to 1 and `false` to 0, so the threshold tests sum to the length.
    len += (codepoint > 0x7f) as usize;
    len += (codepoint > 0x7ff) as usize;
    len += (codepoint > 0xffff) as usize;

    len
}

/// Law: the encoding length is determined by the scalar's magnitude alone.
/// Scalars up to `0x7F` take one byte, up to `0x7FF` two, up to `0xFFFF`
/// three, and the rest four.
pub proof fn lemma_utf8_len(v: u32)
    requires
        is_scalar(v),
    ensures
        encode_scalar(v).len() == if v <= 0x7f {
            1int
        } else if v <= 0x7ff {
            2int
        } else if v <= 0xffff {
            3int
        } else {
            4int
        },
{
}

/// Law: every `char` is a valid Unicode scalar.  Surrogates and values above
/// the scalar maximum are unrepresentable as inputs, so the encoder has no
/// invalid case to signal.
pub proof fn lemma_char_in_range(codepoint: char)
    ensures
        codepoint as u32 <= 0x10ffff,
        !(0xd800 <= codepoint as u32 <= 0xdfff),
{
    char_is_scalar(codepoint);
}

/// Law: round trip.  The bytes produced for a `char` are a well-formed UTF-8
/// scalar encoding, all of them belong to that one scalar, and a reference
/// decoder maps them back to the original `char`.
pub proof fn lemma_round_trip(codepoint: char)
    ensures
        valid_first_scalar(encode_scalar(codepoint as u32)),
        length_of_first_scalar(encode_scalar(codepoint as u32)) == encode_scalar(
            codepoint as u32,
        ).len(),
        decode_first_scalar(encode_scalar(codepoint as u32)) == codepoint as u32,
        valid_utf8(encode_scalar(codepoint as u32)),
        decode_utf8(encode_scalar(codepoint as u32)) == seq![codepoint],
{
    let chars = seq![codepoint];
    assert(encode_utf8(chars.drop_first()) =~= Seq::<u8>::empty());
    assert(encode_utf8(chars) =~= encode_scalar(codepoint as u32));
    encode_utf8_first_scalar(chars);
    encode_utf8_valid_utf8(chars);
    encode_utf8_decode_utf8(chars);
}

/// Law: determinism.  Any two results that satisfy the encoder's contract for
/// the same input agree on the valid-byte count and on every valid byte.
pub proof fn lemma_encode_deterministic(
    codepoint: char,
    r1: ([u8; 4], usize),
    r2: ([u8; 4], usize),
)
    requires
        encodes(codepoint, r1.0@, r1.1),
        encodes(codepoint, r2.0@, r2.1),
    ensures
        r1.1 == r2.1,
        r1.0@.take(r1.1 as int) == r2.0@.take(r2.1 as int),
{
}

} // verus!
