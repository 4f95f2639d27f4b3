//! The `Car` record shape and its row codec.

use vstd::prelude::*;

use vstd::string::StrSliceExecFns;

use crate::data::codec::{Deserializable, Serializable};
use crate::data::primitives::{dec_text, enc_text, lemma_text_round_trip, text_wf};
use crate::errors::{BufferError, DeserializationError, SerializationError};

verus! {

/// A row of the `Car` table: two text fields.
#[derive(Debug, PartialEq, Eq)]
pub struct Car {
    id: String,
    brand: String,
}

/// Mathematical image of a [`Car`]: its fields as plain values.
pub ghost struct CarV {
    pub id: Seq<char>,
    pub brand: Seq<char>,
}

impl View for Car {
    type V = CarV;

    closed spec fn view(&self) -> CarV {
        CarV { id: self.id@, brand: self.brand@ }
    }
}

impl Car {
    pub fn new(id: String, brand: String) -> (r: Car)
        ensures
            r@ == (CarV { id: id@, brand: brand@ }),
    {
        Car { id, brand }
    }
}

/// A car is representable when both text fields fit their length prefix.
pub open spec fn car_wf(c: CarV) -> bool {
    text_wf(c.id) && text_wf(c.brand)
}

/// Canonical encoding of a car: id then brand, with no padding and no tag.
pub open spec fn enc_car(c: CarV) -> Seq<u8> {
    enc_text(c.id) + enc_text(c.brand)
}

/// Canonical decoding of a car from the front of `b`.
pub open spec fn dec_car(b: Seq<u8>) -> Result<(CarV, int), DeserializationError> {
    match dec_text(b) {
        Err(e) => Err(e),
        Ok((id, n1)) => match dec_text(b.skip(n1)) {
            Err(e) => Err(e),
            Ok((brand, n2)) => Ok((CarV { id, brand }, n1 + n2)),
        },
    }
}

impl Serializable for Car {
    open spec fn inv(v: CarV) -> bool {
        car_wf(v)
    }

    open spec fn enc(v: CarV) -> Seq<u8> {
        enc_car(v)
    }

    proof fn lemma_enc_positive(v: CarV) {
    }

    fn serialize(&self, buf: &mut Vec<u8>, pos: &mut usize) -> Result<(), SerializationError> {
        let ilen = self.id.as_str().as_bytes_vec().len();
        let blen = self.brand.as_str().as_bytes_vec().len();
        if ilen > 255 || blen > 255 {
            return Err(SerializationError::TextTooLong);
        }
        let need = 1 + ilen + 1 + blen;
        if buf.len() - *pos < need {
            return Err(SerializationError::Buffer(BufferError::BufferFull));
        }
        let ghost buf0 = buf@;
        let ghost p0 = *pos as int;
        let r1 = self.id.serialize(buf, pos);
        proof {
            assert(r1 is Ok);
        }
        let r2 = self.brand.serialize(buf, pos);
        proof {
            assert(r2 is Ok);
            assert(buf@ =~= buf0.take(p0) + enc_car(self@) + buf0.skip(
                p0 + enc_car(self@).len(),
            ));
        }
        Ok(())
    }
}

impl Deserializable for Car {
    open spec fn dec(b: Seq<u8>) -> Result<(CarV, int), DeserializationError> {
        dec_car(b)
    }

    proof fn lemma_round_trip(v: CarV, rest: Seq<u8>) {
        let e1 = enc_text(v.id);
        let e2 = enc_text(v.brand);
        let b = enc_car(v) + rest;
        assert(b =~= e1 + (e2 + rest));
        lemma_text_round_trip(v.id, e2 + rest);
        assert(b.skip(e1.len() as int) =~= e2 + rest);
        lemma_text_round_trip(v.brand, rest);
    }

    fn deserialize(buf: &Vec<u8>, pos: &mut usize) -> Result<Car, DeserializationError> {
        let saved = *pos;
        let ghost b = buf@.skip(saved as int);
        let id = match String::deserialize(buf, pos) {
            Ok(v) => v,
            Err(e) => {
                return Err(e);
            },
        };
        proof {
            assert(buf@.skip(*pos as int) =~= b.skip(*pos - saved));
        }
        let brand = match String::deserialize(buf, pos) {
            Ok(v) => v,
            Err(e) => {
                *pos = saved;
                return Err(e);
            },
        };
        Ok(Car { id, brand })
    }
}

} // verus!
