//! The row codec contract: what it means for a type to have a canonical
//! binary encoding, and for that encoding to be readable back.
//!
//! A `Serializable` type has a mathematical encoding function `enc` over its
//! abstract value, and an executable `serialize` that writes exactly those
//! bytes into a fixed-size buffer. A `Deserializable` type additionally has a
//! decoder `dec` that inverts `enc`, and an executable `deserialize` that
//! implements it. The round-trip law is a proof obligation of every impl.

use vstd::prelude::*;

use crate::errors::{BufferError, DeserializationError, SerializationError};

verus! {

/// A type with a canonical binary row encoding.
pub trait Serializable: View + Sized {
    /// Whether the abstract value is representable in the row layout
    /// (every length-prefixed text field fits its one-byte prefix).
    spec fn inv(v: Self::V) -> bool;

    /// The canonical byte encoding of a representable abstract value.
    spec fn enc(v: Self::V) -> Seq<u8>;

    /// A representable value never encodes to zero bytes.
    proof fn lemma_enc_positive(v: Self::V)
        requires
            Self::inv(v),
        ensures
            Self::enc(v).len() >= 1,
    ;

    /// Writes the canonical encoding of `self` into `buf` at `*pos` and
    /// advances `*pos` past it. Succeeds exactly when the value is
    /// representable and the encoding fits in the remaining region; on
    /// failure `*pos` and the bytes below `*pos` are unchanged.
    fn serialize(&self, buf: &mut Vec<u8>, pos: &mut usize) -> (r: Result<
        (),
        SerializationError,
    >)
        requires
            *old(pos) <= old(buf)@.len(),
        ensures
            final(buf)@.len() == old(buf)@.len(),
            *final(pos) <= final(buf)@.len(),
            match r {
                Ok(()) => Self::inv(self@) && *old(pos) + Self::enc(self@).len()
                    <= old(buf)@.len() && *final(pos) == *old(pos) + Self::enc(self@).len()
                    && final(buf)@ == old(buf)@.take(*old(pos) as int) + Self::enc(self@)
                    + old(buf)@.skip(*old(pos) + Self::enc(self@).len()),
                Err(SerializationError::TextTooLong) => !Self::inv(self@) && *final(pos) == *old(
                    pos,
                ) && final(buf)@.take(*old(pos) as int) == old(buf)@.take(*old(pos) as int),
                Err(SerializationError::Buffer(BufferError::BufferFull)) => Self::inv(self@)
                    && *old(pos) + Self::enc(self@).len() > old(buf)@.len() && *final(pos) == *old(
                    pos,
                ) && final(buf)@.take(*old(pos) as int) == old(buf)@.take(*old(pos) as int),
                Err(SerializationError::Buffer(BufferError::ReadTooMuch)) => false,
            },
    ;
}

/// A serializable type whose encoding can be read back.
pub trait Deserializable: Serializable {
    /// What the canonical decoder yields on a byte region: the decoded
    /// abstract value and the count of bytes consumed, or the precise error.
    spec fn dec(b: Seq<u8>) -> Result<(Self::V, int), DeserializationError>;

    /// Round trip: decoding a canonical encoding (whatever follows it)
    /// consumes exactly the encoded bytes and returns the encoded value.
    proof fn lemma_round_trip(v: Self::V, rest: Seq<u8>)
        requires
            Self::inv(v),
        ensures
            Self::dec(Self::enc(v) + rest) == Ok::<(Self::V, int), DeserializationError>(
                (v, Self::enc(v).len() as int),
            ),
    ;

    /// Reads one value from `buf` at `*pos`, advancing `*pos` past the bytes
    /// consumed, exactly as the canonical decoder describes; on failure the
    /// decoder's error is returned and `*pos` is unchanged.
    fn deserialize(buf: &Vec<u8>, pos: &mut usize) -> (r: Result<Self, DeserializationError>)
        requires
            *old(pos) <= buf@.len(),
        ensures
            *final(pos) <= buf@.len(),
            match (r, Self::dec(buf@.skip(*old(pos) as int))) {
                (Ok(v), Ok((w, n))) => v@ == w && *final(pos) == *old(pos) + n,
                (Err(e), Err(w)) => e == w && *final(pos) == *old(pos),
                _ => false,
            },
    ;
}

} // verus!
