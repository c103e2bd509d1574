//! Byte framing shared by the hash preimages.
//!
//! Integers are written little-endian at fixed width; texts and byte strings
//! carry their length in front, so that a concatenation of fields can be read
//! back in one way only.

use vstd::prelude::*;
use vstd::bytes::{
    lemma_auto_spec_u32_to_from_le_bytes, lemma_auto_spec_u64_to_from_le_bytes,
    spec_u32_from_le_bytes, spec_u32_to_le_bytes, spec_u64_from_le_bytes, spec_u64_to_le_bytes,
    u32_to_le_bytes, u64_to_le_bytes,
};
use vstd::utf8::{encode_utf8, encode_utf8_decode_utf8};

verus! {

/// A byte string behind its length, the length as eight little-endian bytes.
pub open spec fn framed(bytes: Seq<u8>) -> Seq<u8> {
    spec_u64_to_le_bytes(bytes.len() as u64) + bytes
}

/// The UTF-8 bytes of a text behind their length.
pub open spec fn framed_text(text: Seq<char>) -> Seq<u8> {
    framed(encode_utf8(text))
}

/// The UTF-8 bytes of a text are few enough for their count to be framed.
pub open spec fn text_fits(text: Seq<char>) -> bool {
    encode_utf8(text).len() <= u64::MAX
}

/// Appends the four little-endian bytes of `x`.
pub fn put_u32(out: &mut Vec<u8>, x: u32)
    ensures
        final(out)@ == old(out)@ + spec_u32_to_le_bytes(x),
{
    let mut bytes = u32_to_le_bytes(x);
    out.append(&mut bytes);
}

/// Appends the eight little-endian bytes of `x`.
pub fn put_u64(out: &mut Vec<u8>, x: u64)
    ensures
        final(out)@ == old(out)@ + spec_u64_to_le_bytes(x),
{
    let mut bytes = u64_to_le_bytes(x);
    out.append(&mut bytes);
}

/// Appends `bytes` as they are.
pub fn put_raw(out: &mut Vec<u8>, bytes: &[u8])
    ensures
        final(out)@ == old(out)@ + bytes@,
{
    let ghost before = out@;
    out.extend_from_slice(bytes);
    assert(out@ =~= before + bytes@);
}

/// Appends `bytes` behind their length, which fits the eight bytes that
/// carry it.
pub fn put_bytes(out: &mut Vec<u8>, bytes: &[u8])
    ensures
        final(out)@ == old(out)@ + framed(bytes@),
        bytes@.len() <= u64::MAX,
{
    let ghost before = out@;
    put_u64(out, bytes.len() as u64);
    put_raw(out, bytes);
    assert(out@ =~= before + framed(bytes@));
}

/// Appends the UTF-8 bytes of `text` behind their length, which fits the
/// eight bytes that carry it.
pub fn put_text(out: &mut Vec<u8>, text: &str)
    ensures
        final(out)@ == old(out)@ + framed_text(text@),
        text_fits(text@),
{
    put_bytes(out, text.as_bytes());
}

/// Two byte strings of one length that are followed by anything and give the
/// same whole are the same, and so is what follows them.
pub proof fn lemma_same_length_cancels(a: Seq<u8>, rest_a: Seq<u8>, b: Seq<u8>, rest_b: Seq<u8>)
    requires
        a + rest_a == b + rest_b,
        a.len() == b.len(),
    ensures
        a == b,
        rest_a == rest_b,
{
    let whole = a + rest_a;
    assert(a =~= whole.subrange(0, a.len() as int));
    assert(b =~= (b + rest_b).subrange(0, b.len() as int));
    assert(rest_a =~= whole.subrange(a.len() as int, whole.len() as int));
    assert(rest_b =~= (b + rest_b).subrange(b.len() as int, whole.len() as int));
}

/// An eight-byte integer in front of anything is read back in one way only.
pub proof fn lemma_u64_cancels(x: u64, rest_x: Seq<u8>, y: u64, rest_y: Seq<u8>)
    requires
        spec_u64_to_le_bytes(x) + rest_x == spec_u64_to_le_bytes(y) + rest_y,
    ensures
        x == y,
        rest_x == rest_y,
{
    lemma_auto_spec_u64_to_from_le_bytes();
    lemma_same_length_cancels(spec_u64_to_le_bytes(x), rest_x, spec_u64_to_le_bytes(y), rest_y);
    assert(spec_u64_from_le_bytes(spec_u64_to_le_bytes(x)) == x);
    assert(spec_u64_from_le_bytes(spec_u64_to_le_bytes(y)) == y);
}

/// A four-byte integer in front of anything is read back in one way only.
pub proof fn lemma_u32_cancels(x: u32, rest_x: Seq<u8>, y: u32, rest_y: Seq<u8>)
    requires
        spec_u32_to_le_bytes(x) + rest_x == spec_u32_to_le_bytes(y) + rest_y,
    ensures
        x == y,
        rest_x == rest_y,
{
    lemma_auto_spec_u32_to_from_le_bytes();
    lemma_same_length_cancels(spec_u32_to_le_bytes(x), rest_x, spec_u32_to_le_bytes(y), rest_y);
    assert(spec_u32_from_le_bytes(spec_u32_to_le_bytes(x)) == x);
    assert(spec_u32_from_le_bytes(spec_u32_to_le_bytes(y)) == y);
}

/// A framed byte string in front of anything is read back in one way only,
/// as long as its length fits the eight bytes that carry it.
pub proof fn lemma_framed_cancels(a: Seq<u8>, rest_a: Seq<u8>, b: Seq<u8>, rest_b: Seq<u8>)
    requires
        framed(a) + rest_a == framed(b) + rest_b,
        a.len() <= u64::MAX,
        b.len() <= u64::MAX,
    ensures
        a == b,
        rest_a == rest_b,
{
    assert(framed(a) + rest_a =~= spec_u64_to_le_bytes(a.len() as u64) + (a + rest_a));
    assert(framed(b) + rest_b =~= spec_u64_to_le_bytes(b.len() as u64) + (b + rest_b));
    lemma_u64_cancels(a.len() as u64, a + rest_a, b.len() as u64, b + rest_b);
    lemma_same_length_cancels(a, rest_a, b, rest_b);
}

/// A framed text in front of anything is read back in one way only, as long
/// as the length of its UTF-8 bytes fits the eight bytes that carry it.
pub proof fn lemma_framed_text_cancels(
    a: Seq<char>,
    rest_a: Seq<u8>,
    b: Seq<char>,
    rest_b: Seq<u8>,
)
    requires
        framed_text(a) + rest_a == framed_text(b) + rest_b,
        text_fits(a),
        text_fits(b),
    ensures
        a == b,
        rest_a == rest_b,
{
    lemma_framed_cancels(encode_utf8(a), rest_a, encode_utf8(b), rest_b);
    encode_utf8_decode_utf8(a);
    encode_utf8_decode_utf8(b);
}

} // verus!
