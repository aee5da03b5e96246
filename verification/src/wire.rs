//! Byte-level building blocks of the wire format: big-endian integer images
//! and the lossy UTF-8 text decoding used for every text field on the wire.

use vstd::prelude::*;
use vstd::utf8::decode_utf8;
use vstd::utf8::valid_utf8;

verus! {

/// The fixed size of the receive buffer, and so the largest frame a
/// deployment exchanges: a received datagram is read into a zeroed buffer of
/// this many bytes.
pub const MAX_FRAME_SIZE: usize = 1024;

/// Big-endian byte image of a `u32`: most significant byte first.
pub open spec fn spec_u32_to_be_bytes(x: u32) -> Seq<u8> {
    seq![
        ((x >> 24) & 0xff) as u8,
        ((x >> 16) & 0xff) as u8,
        ((x >> 8) & 0xff) as u8,
        (x & 0xff) as u8,
    ]
}

/// The `u32` read big-endian from four bytes.
pub open spec fn spec_u32_from_be_bytes(s: Seq<u8>) -> u32
    recommends
        s.len() == 4,
{
    (s[0] as u32) << 24 | (s[1] as u32) << 16 | (s[2] as u32) << 8 | (s[3] as u32)
}

/// Reading back the big-endian image of a `u32` recovers the value.
pub proof fn lemma_u32_be_bytes_roundtrip(x: u32)
    ensures
        spec_u32_to_be_bytes(x).len() == 4,
        spec_u32_from_be_bytes(spec_u32_to_be_bytes(x)) == x,
{
    assert(((((x >> 24) & 0xff) as u8) as u32) << 24 | ((((x >> 16) & 0xff) as u8) as u32) << 16
        | ((((x >> 8) & 0xff) as u8) as u32) << 8 | (((x & 0xff) as u8) as u32) == x)
        by (bit_vector);
}

/// Big-endian byte image of a `u64`: most significant byte first.
pub open spec fn spec_u64_to_be_bytes(x: u64) -> Seq<u8> {
    seq![
        ((x >> 56) & 0xff) as u8,
        ((x >> 48) & 0xff) as u8,
        ((x >> 40) & 0xff) as u8,
        ((x >> 32) & 0xff) as u8,
        ((x >> 24) & 0xff) as u8,
        ((x >> 16) & 0xff) as u8,
        ((x >> 8) & 0xff) as u8,
        (x & 0xff) as u8,
    ]
}

/// The `u64` read big-endian from eight bytes.
pub open spec fn spec_u64_from_be_bytes(s: Seq<u8>) -> u64
    recommends
        s.len() == 8,
{
    (s[0] as u64) << 56 | (s[1] as u64) << 48 | (s[2] as u64) << 40 | (s[3] as u64) << 32 | (
    s[4] as u64) << 24 | (s[5] as u64) << 16 | (s[6] as u64) << 8 | (s[7] as u64)
}

/// Reading back the big-endian image of a `u64` recovers the value.
pub proof fn lemma_u64_be_bytes_roundtrip(x: u64)
    ensures
        spec_u64_to_be_bytes(x).len() == 8,
        spec_u64_from_be_bytes(spec_u64_to_be_bytes(x)) == x,
{
    assert(((((x >> 56) & 0xff) as u8) as u64) << 56 | ((((x >> 48) & 0xff) as u8) as u64) << 48
        | ((((x >> 40) & 0xff) as u8) as u64) << 40 | ((((x >> 32) & 0xff) as u8) as u64) << 32
        | ((((x >> 24) & 0xff) as u8) as u64) << 24 | ((((x >> 16) & 0xff) as u8) as u64) << 16
        | ((((x >> 8) & 0xff) as u8) as u64) << 8 | (((x & 0xff) as u8) as u64) == x)
        by (bit_vector);
}

/// Appends the big-endian image of a `u32` to a byte buffer.
pub fn push_u32_be(out: &mut Vec<u8>, x: u32)
    ensures
        final(out)@ == old(out)@ + spec_u32_to_be_bytes(x),
{
    out.push(((x >> 24) & 0xff) as u8);
    out.push(((x >> 16) & 0xff) as u8);
    out.push(((x >> 8) & 0xff) as u8);
    out.push((x & 0xff) as u8);
    proof {
        assert(out@ =~= old(out)@ + spec_u32_to_be_bytes(x));
    }
}

/// Appends the big-endian image of a `u64` to a byte buffer.
pub fn push_u64_be(out: &mut Vec<u8>, x: u64)
    ensures
        final(out)@ == old(out)@ + spec_u64_to_be_bytes(x),
{
    out.push(((x >> 56) & 0xff) as u8);
    out.push(((x >> 48) & 0xff) as u8);
    out.push(((x >> 40) & 0xff) as u8);
    out.push(((x >> 32) & 0xff) as u8);
    out.push(((x >> 24) & 0xff) as u8);
    out.push(((x >> 16) & 0xff) as u8);
    out.push(((x >> 8) & 0xff) as u8);
    out.push((x & 0xff) as u8);
    proof {
        assert(out@ =~= old(out)@ + spec_u64_to_be_bytes(x));
    }
}

/// Reads a big-endian `u32` from four consecutive bytes of a buffer.
pub fn read_u32_be(bytes: &[u8], start: usize) -> (x: u32)
    requires
        start + 4 <= bytes@.len(),
    ensures
        x == spec_u32_from_be_bytes(bytes@.subrange(start as int, start as int + 4)),
{
    let x = (bytes[start] as u32) << 24 | (bytes[start + 1] as u32) << 16 | (bytes[start + 2]
        as u32) << 8 | (bytes[start + 3] as u32);
    proof {
        let s = bytes@.subrange(start as int, start as int + 4);
        assert(s[0] == bytes@[start as int]);
        assert(s[1] == bytes@[start as int + 1]);
        assert(s[2] == bytes@[start as int + 2]);
        assert(s[3] == bytes@[start as int + 3]);
    }
    x
}

/// Reads a big-endian `u64` from eight consecutive bytes of a buffer.
pub fn read_u64_be(bytes: &[u8], start: usize) -> (x: u64)
    requires
        start + 8 <= bytes@.len(),
    ensures
        x == spec_u64_from_be_bytes(bytes@.subrange(start as int, start as int + 8)),
{
    let x = (bytes[start] as u64) << 56 | (bytes[start + 1] as u64) << 48 | (bytes[start + 2]
        as u64) << 40 | (bytes[start + 3] as u64) << 32 | (bytes[start + 4] as u64) << 24 | (
    bytes[start + 5] as u64) << 16 | (bytes[start + 6] as u64) << 8 | (bytes[start + 7] as u64);
    proof {
        let s = bytes@.subrange(start as int, start as int + 8);
        assert(s[0] == bytes@[start as int]);
        assert(s[1] == bytes@[start as int + 1]);
        assert(s[2] == bytes@[start as int + 2]);
        assert(s[3] == bytes@[start as int + 3]);
        assert(s[4] == bytes@[start as int + 4]);
        assert(s[5] == bytes@[start as int + 5]);
        assert(s[6] == bytes@[start as int + 6]);
        assert(s[7] == bytes@[start as int + 7]);
    }
    x
}

/// The character sequence that lossy UTF-8 decoding yields for a byte
/// sequence. It depends on the bytes alone; on valid UTF-8 it agrees with
/// `decode_utf8`, and on invalid input it stands for whatever replacement
/// the lossy decoder produces.
pub uninterp spec fn lossy_decode(bytes: Seq<u8>) -> Seq<char>;

/// The text read from a byte region of the wire: bytes that are valid UTF-8
/// decode exactly, anything else goes through the lossy decoder.
pub open spec fn spec_text_decode(bytes: Seq<u8>) -> Seq<char> {
    if valid_utf8(bytes) {
        decode_utf8(bytes)
    } else {
        lossy_decode(bytes)
    }
}

/// Relies on `String::from_utf8_lossy`: its result is a function of the input
/// bytes alone, and when the bytes are valid UTF-8 the conversion is lossless,
/// returning exactly the characters those bytes encode.
#[verifier::external_body]
pub(crate) fn from_utf8_lossy(bytes: &[u8]) -> (r: String)
    ensures
        r@ == lossy_decode(bytes@),
        valid_utf8(bytes@) ==> r@ == decode_utf8(bytes@),
{
    String::from_utf8_lossy(bytes).into_owned()
}

} // verus!
