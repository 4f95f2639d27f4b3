//! Binary layout of the primitive field types: 64-bit signed integers
//! (8 raw bytes, two's complement, little-endian) and text (one unsigned
//! length byte followed by that many UTF-8 bytes).

use vstd::prelude::*;

use vstd::bytes::{
    lemma_auto_spec_u64_to_from_le_bytes, spec_u64_from_le_bytes, spec_u64_to_le_bytes,
    u64_from_le_bytes, u64_to_le_bytes,
};
use vstd::slice::{slice_subrange, slice_to_vec};
use vstd::string::StrSliceExecFns;
use vstd::utf8::{decode_utf8, encode_utf8, valid_utf8};

use crate::data::codec::{Deserializable, Serializable};
use crate::errors::{BufferError, DeserializationError, SerializationError};

verus! {

/// Canonical encoding of a 64-bit signed integer: its two's-complement
/// bit pattern as 8 little-endian bytes.
pub open spec fn enc_i64(v: i64) -> Seq<u8> {
    spec_u64_to_le_bytes(v as u64)
}

/// Canonical decoding of a 64-bit signed integer from the front of `b`.
pub open spec fn dec_i64(b: Seq<u8>) -> Result<(i64, int), DeserializationError> {
    if b.len() < 8 {
        Err(DeserializationError::Buffer(BufferError::ReadTooMuch))
    } else {
        Ok((spec_u64_from_le_bytes(b.take(8)) as i64, 8))
    }
}

/// Text is representable exactly when its UTF-8 form fits the one-byte
/// length prefix.
pub open spec fn text_wf(s: Seq<char>) -> bool {
    encode_utf8(s).len() <= 255
}

/// Canonical encoding of text: one length byte, then the UTF-8 bytes.
pub open spec fn enc_text(s: Seq<char>) -> Seq<u8> {
    seq![encode_utf8(s).len() as u8] + encode_utf8(s)
}

/// Canonical decoding of text from the front of `b`.
pub open spec fn dec_text(b: Seq<u8>) -> Result<(Seq<char>, int), DeserializationError> {
    if b.len() < 1 {
        Err(DeserializationError::Buffer(BufferError::ReadTooMuch))
    } else {
        let n = b[0] as int;
        if b.len() < 1 + n {
            Err(DeserializationError::Buffer(BufferError::ReadTooMuch))
        } else if valid_utf8(b.subrange(1, 1 + n)) {
            Ok((decode_utf8(b.subrange(1, 1 + n)), 1 + n))
        } else {
            Err(DeserializationError::UnableToDeserializeString)
        }
    }
}

/// The integer codec round-trips, whatever bytes follow the encoding.
pub proof fn lemma_i64_round_trip(v: i64, rest: Seq<u8>)
    ensures
        enc_i64(v).len() == 8,
        dec_i64(enc_i64(v) + rest) == Ok::<(i64, int), DeserializationError>((v, 8)),
{
    lemma_auto_spec_u64_to_from_le_bytes();
    assert((enc_i64(v) + rest).take(8) =~= enc_i64(v));
    assert(((v as u64) as i64) == v) by (bit_vector);
}

/// The text codec round-trips on representable text, whatever bytes
/// follow the encoding.
pub proof fn lemma_text_round_trip(s: Seq<char>, rest: Seq<u8>)
    requires
        text_wf(s),
    ensures
        enc_text(s).len() == 1 + encode_utf8(s).len(),
        dec_text(enc_text(s) + rest) == Ok::<(Seq<char>, int), DeserializationError>(
            (s, enc_text(s).len() as int),
        ),
{
    broadcast use vstd::utf8::encode_utf8_valid_utf8, vstd::utf8::encode_utf8_decode_utf8;

    let n = encode_utf8(s).len() as int;
    let b = enc_text(s) + rest;
    assert(b[0] == n as u8);
    assert(b.subrange(1, 1 + n) =~= encode_utf8(s));
}

/// Copies all of `src` into `buf` starting at `pos`, leaving every other
/// byte of `buf` unchanged.
pub fn write_bytes(buf: &mut Vec<u8>, pos: usize, src: &Vec<u8>)
    requires
        pos + src@.len() <= old(buf)@.len(),
    ensures
        final(buf)@.len() == old(buf)@.len(),
        final(buf)@ == old(buf)@.take(pos as int) + src@ + old(buf)@.skip(pos + src@.len()),
{
    let n = src.len();
    let m = buf.len();
    let mut i: usize = 0;
    while i < n
        invariant
            i <= n,
            n == src@.len(),
            m == buf@.len(),
            pos + n <= m,
            buf@.len() == old(buf)@.len(),
            buf@ == old(buf)@.take(pos as int) + src@.take(i as int) + old(buf)@.skip(
                pos + i,
            ),
        decreases n - i,
    {
        buf[pos + i] = src[i];
        proof {
            assert(buf@ =~= old(buf)@.take(pos as int) + src@.take(i + 1) + old(buf)@.skip(
                pos + i + 1,
            ));
        }
        i = i + 1;
    }
    proof {
        assert(src@.take(n as int) =~= src@);
    }
}

/// Relies on `String::from_utf8`: it succeeds exactly on valid UTF-8
/// input and yields the characters those bytes encode.
#[verifier::external_body]
fn string_from_utf8(v: Vec<u8>) -> (r: Option<String>)
    ensures
        match r {
            Some(s) => valid_utf8(v@) && s@ == decode_utf8(v@),
            None => !valid_utf8(v@),
        },
{
    String::from_utf8(v).ok()
}

impl Serializable for i64 {
    open spec fn inv(v: i64) -> bool {
        true
    }

    open spec fn enc(v: i64) -> Seq<u8> {
        enc_i64(v)
    }

    proof fn lemma_enc_positive(v: i64) {
        lemma_auto_spec_u64_to_from_le_bytes();
    }

    fn serialize(&self, buf: &mut Vec<u8>, pos: &mut usize) -> Result<(), SerializationError> {
        proof {
            lemma_auto_spec_u64_to_from_le_bytes();
        }
        if buf.len() - *pos < 8 {
            return Err(SerializationError::Buffer(BufferError::BufferFull));
        }
        let bytes = u64_to_le_bytes(*self as u64);
        write_bytes(buf, *pos, &bytes);
        *pos = *pos + 8;
        Ok(())
    }
}

impl Deserializable for i64 {
    open spec fn dec(b: Seq<u8>) -> Result<(i64, int), DeserializationError> {
        dec_i64(b)
    }

    proof fn lemma_round_trip(v: i64, rest: Seq<u8>) {
        lemma_i64_round_trip(v, rest);
    }

    fn deserialize(buf: &Vec<u8>, pos: &mut usize) -> Result<i64, DeserializationError> {
        proof {
            lemma_auto_spec_u64_to_from_le_bytes();
        }
        if buf.len() - *pos < 8 {
            return Err(DeserializationError::Buffer(BufferError::ReadTooMuch));
        }
        let s = slice_subrange(buf.as_slice(), *pos, *pos + 8);
        let x = u64_from_le_bytes(s);
        proof {
            assert(buf@.subrange(*pos as int, *pos + 8) =~= buf@.skip(*pos as int).take(8));
        }
        *pos = *pos + 8;
        Ok(x as i64)
    }
}

impl Serializable for String {
    open spec fn inv(v: Seq<char>) -> bool {
        text_wf(v)
    }

    open spec fn enc(v: Seq<char>) -> Seq<u8> {
        enc_text(v)
    }

    proof fn lemma_enc_positive(v: Seq<char>) {
    }

    fn serialize(&self, buf: &mut Vec<u8>, pos: &mut usize) -> Result<(), SerializationError> {
        let bytes = self.as_str().as_bytes_vec();
        if bytes.len() > 255 {
            return Err(SerializationError::TextTooLong);
        }
        if buf.len() - *pos < 1 + bytes.len() {
            return Err(SerializationError::Buffer(BufferError::BufferFull));
        }
        let ghost buf0 = buf@;
        let ghost p = *pos as int;
        buf[*pos] = bytes.len() as u8;
        write_bytes(buf, *pos + 1, &bytes);
        proof {
            assert(buf@ =~= buf0.take(p) + enc_text(self@) + buf0.skip(
                p + enc_text(self@).len(),
            ));
        }
        *pos = *pos + 1 + bytes.len();
        Ok(())
    }
}

impl Deserializable for String {
    open spec fn dec(b: Seq<u8>) -> Result<(Seq<char>, int), DeserializationError> {
        dec_text(b)
    }

    proof fn lemma_round_trip(v: Seq<char>, rest: Seq<u8>) {
        lemma_text_round_trip(v, rest);
    }

    fn deserialize(buf: &Vec<u8>, pos: &mut usize) -> Result<String, DeserializationError> {
        if buf.len() - *pos < 1 {
            return Err(DeserializationError::Buffer(BufferError::ReadTooMuch));
        }
        let n = buf[*pos] as usize;
        if buf.len() - (*pos + 1) < n {
            return Err(DeserializationError::Buffer(BufferError::ReadTooMuch));
        }
        let s = slice_subrange(buf.as_slice(), *pos + 1, *pos + 1 + n);
        let bytes = slice_to_vec(s);
        proof {
            assert(buf@.subrange(*pos + 1, *pos + 1 + n) =~= buf@.skip(*pos as int).subrange(
                1,
                1 + n,
            ));
        }
        match string_from_utf8(bytes) {
            Some(text) => {
                *pos = *pos + 1 + n;
                Ok(text)
            },
            None => Err(DeserializationError::UnableToDeserializeString),
        }
    }
}

} // verus!
