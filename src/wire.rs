//! Primitive field encodings of a frame: big-endian integers and
//! length-prefixed UTF-8 text, with the spec functions that read them back.
use vstd::prelude::*;
use vstd::utf8::{decode_utf8, encode_utf8, valid_utf8};

verus! {

broadcast use {vstd::utf8::encode_utf8_valid_utf8, vstd::utf8::encode_utf8_decode_utf8};

/// Why a frame could not be decoded.
#[derive(Debug, Clone, Copy, PartialEq, Eq, Structural)]
pub enum DecodingError {
    /// The tag byte names no message variant.
    UnknownTag,
    /// A field claims more bytes than remain in the frame.
    Truncated,
    /// The bytes of a text field are not UTF-8.
    InvalidUtf8,
}

/// Two bytes, most significant first.
pub open spec fn be_u16(n: u16) -> Seq<u8> {
    seq![(n >> 8u16) as u8, n as u8]
}

/// Eight bytes, most significant first.
pub open spec fn be_u64(n: u64) -> Seq<u8> {
    seq![
        (n >> 56u64) as u8,
        (n >> 48u64) as u8,
        (n >> 40u64) as u8,
        (n >> 32u64) as u8,
        (n >> 24u64) as u8,
        (n >> 16u64) as u8,
        (n >> 8u64) as u8,
        n as u8,
    ]
}

/// The integer whose big-endian form is `hi, lo`.
pub open spec fn u16_of_be(hi: u8, lo: u8) -> u16 {
    ((hi as u16) << 8u16) | (lo as u16)
}

/// The integer whose big-endian form is `b0, ..., b7`.
pub open spec fn u64_of_be(b: Seq<u8>) -> u64
    recommends
        b.len() == 8,
{
    ((b[0] as u64) << 56u64) | ((b[1] as u64) << 48u64) | ((b[2] as u64) << 40u64) | ((
    b[3] as u64) << 32u64) | ((b[4] as u64) << 24u64) | ((b[5] as u64) << 16u64) | ((
    b[6] as u64) << 8u64) | (b[7] as u64)
}

/// A text field: its UTF-8 byte length as eight big-endian bytes, then the bytes.
pub open spec fn text_bytes(s: Seq<char>) -> Seq<u8> {
    be_u64(encode_utf8(s).len() as u64) + encode_utf8(s)
}

/// A bool field: one byte, 1 for true and 0 for false.
pub open spec fn bool_bytes(b: bool) -> Seq<u8> {
    if b {
        seq![1u8]
    } else {
        seq![0u8]
    }
}

/// Reads a u16 field at offset `i` of `f`; on success gives the value and the next offset.
pub open spec fn read_u16(f: Seq<u8>, i: int) -> Result<(u16, int), DecodingError> {
    if 0 <= i && i + 2 <= f.len() {
        Ok((u16_of_be(f[i], f[i + 1]), i + 2))
    } else {
        Err(DecodingError::Truncated)
    }
}

/// Reads a bool field at offset `i` of `f`: any nonzero byte is true.
pub open spec fn read_bool(f: Seq<u8>, i: int) -> Result<(bool, int), DecodingError> {
    if 0 <= i && i + 1 <= f.len() {
        Ok((f[i] != 0, i + 1))
    } else {
        Err(DecodingError::Truncated)
    }
}

/// Reads a text field at offset `i` of `f`; on success gives the characters and the next offset.
pub open spec fn read_text(f: Seq<u8>, i: int) -> Result<(Seq<char>, int), DecodingError> {
    if !(0 <= i && i + 8 <= f.len()) {
        Err(DecodingError::Truncated)
    } else {
        let n = u64_of_be(f.subrange(i, i + 8)) as int;
        if i + 8 + n > f.len() {
            Err(DecodingError::Truncated)
        } else {
            let b = f.subrange(i + 8, i + 8 + n);
            if valid_utf8(b) {
                Ok((decode_utf8(b), i + 8 + n))
            } else {
                Err(DecodingError::InvalidUtf8)
            }
        }
    }
}

/// Reading back the big-endian form of `n` gives `n`.
pub proof fn lemma_u16_round_trip(n: u16)
    ensures
        u16_of_be(be_u16(n)[0], be_u16(n)[1]) == n,
{
    let hi = (n >> 8u16) as u8;
    let lo = n as u8;
    assert(((hi as u16) << 8u16) | (lo as u16) == n) by (bit_vector)
        requires
            hi == (n >> 8u16) as u8,
            lo == n as u8,
    ;
}

/// Reading back the big-endian form of `n` gives `n`.
pub proof fn lemma_u64_round_trip(n: u64)
    ensures
        u64_of_be(be_u64(n)) == n,
{
    let b = be_u64(n);
    let (b0, b1, b2, b3) = (b[0], b[1], b[2], b[3]);
    let (b4, b5, b6, b7) = (b[4], b[5], b[6], b[7]);
    assert(((b0 as u64) << 56u64) | ((b1 as u64) << 48u64) | ((b2 as u64) << 40u64) | ((
    b3 as u64) << 32u64) | ((b4 as u64) << 24u64) | ((b5 as u64) << 16u64) | ((b6 as u64)
        << 8u64) | (b7 as u64) == n) by (bit_vector)
        requires
            b0 == (n >> 56u64) as u8,
            b1 == (n >> 48u64) as u8,
            b2 == (n >> 40u64) as u8,
            b3 == (n >> 32u64) as u8,
            b4 == (n >> 24u64) as u8,
            b5 == (n >> 16u64) as u8,
            b6 == (n >> 8u64) as u8,
            b7 == n as u8,
    ;
}

/// A u16 field stored at offset `pre.len()` is read back.
pub proof fn lemma_read_u16_at(f: Seq<u8>, pre: Seq<u8>, n: u16, post: Seq<u8>)
    requires
        f == pre + be_u16(n) + post,
    ensures
        read_u16(f, pre.len() as int) == Ok::<(u16, int), DecodingError>(
            (n, pre.len() as int + 2),
        ),
{
    let i = pre.len() as int;
    assert(f[i] == be_u16(n)[0]);
    assert(f[i + 1] == be_u16(n)[1]);
    lemma_u16_round_trip(n);
}

/// A text field stored at offset `pre.len()` is read back, provided its length fits in a u64.
pub proof fn lemma_read_text_at(f: Seq<u8>, pre: Seq<u8>, s: Seq<char>, post: Seq<u8>)
    requires
        f == pre + text_bytes(s) + post,
        encode_utf8(s).len() <= u64::MAX,
    ensures
        read_text(f, pre.len() as int) == Ok::<(Seq<char>, int), DecodingError>(
            (s, pre.len() + text_bytes(s).len() as int),
        ),
{
    let i = pre.len() as int;
    let e = encode_utf8(s);
    let n = e.len() as u64;
    assert(f.subrange(i, i + 8) =~= be_u64(n));
    lemma_u64_round_trip(n);
    assert(f.subrange(i + 8, i + 8 + e.len()) =~= e);
}

} // verus!
