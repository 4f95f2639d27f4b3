//! The `User` record shape and its row codec.

use vstd::prelude::*;

use vstd::string::StrSliceExecFns;

use crate::data::codec::{Deserializable, Serializable};
use crate::data::primitives::{
    dec_i64, dec_text, enc_i64, enc_text, lemma_i64_round_trip, lemma_text_round_trip, text_wf,
};
use crate::errors::{BufferError, DeserializationError, SerializationError};

verus! {

/// A row of the `User` table: a numeric id and two text fields.
#[derive(Debug, PartialEq, Eq)]
pub struct User {
    id: i64,
    username: String,
    email: String,
}

/// Mathematical image of a [`User`]: its fields as plain values.
pub ghost struct UserV {
    pub id: i64,
    pub username: Seq<char>,
    pub email: Seq<char>,
}

impl View for User {
    type V = UserV;

    closed spec fn view(&self) -> UserV {
        UserV { id: self.id, username: self.username@, email: self.email@ }
    }
}

impl User {
    pub fn new(id: i64, username: String, email: String) -> (r: User)
        ensures
            r@ == (UserV { id, username: username@, email: email@ }),
    {
        User { id, username, email }
    }
}

/// A user is representable when both text fields fit their length prefix.
pub open spec fn user_wf(u: UserV) -> bool {
    text_wf(u.username) && text_wf(u.email)
}

/// Canonical encoding of a user: id, username, email, in declared order,
/// with no padding and no tag.
pub open spec fn enc_user(u: UserV) -> Seq<u8> {
    enc_i64(u.id) + enc_text(u.username) + enc_text(u.email)
}

/// Canonical decoding of a user from the front of `b`.
pub open spec fn dec_user(b: Seq<u8>) -> Result<(UserV, int), DeserializationError> {
    match dec_i64(b) {
        Err(e) => Err(e),
        Ok((id, n1)) => match dec_text(b.skip(n1)) {
            Err(e) => Err(e),
            Ok((username, n2)) => match dec_text(b.skip(n1 + n2)) {
                Err(e) => Err(e),
                Ok((email, n3)) => Ok((UserV { id, username, email }, n1 + n2 + n3)),
            },
        },
    }
}

impl Serializable for User {
    open spec fn inv(v: UserV) -> bool {
        user_wf(v)
    }

    open spec fn enc(v: UserV) -> Seq<u8> {
        enc_user(v)
    }

    proof fn lemma_enc_positive(v: UserV) {
        lemma_i64_round_trip(v.id, Seq::<u8>::empty());
    }

    fn serialize(&self, buf: &mut Vec<u8>, pos: &mut usize) -> Result<(), SerializationError> {
        proof {
            lemma_i64_round_trip(self.id, Seq::<u8>::empty());
        }
        let ulen = self.username.as_str().as_bytes_vec().len();
        let elen = self.email.as_str().as_bytes_vec().len();
        if ulen > 255 || elen > 255 {
            return Err(SerializationError::TextTooLong);
        }
        let need = 8 + 1 + ulen + 1 + elen;
        if buf.len() - *pos < need {
            return Err(SerializationError::Buffer(BufferError::BufferFull));
        }
        let ghost buf0 = buf@;
        let ghost p0 = *pos as int;
        let r1 = self.id.serialize(buf, pos);
        proof {
            assert(r1 is Ok);
        }
        let r2 = self.username.serialize(buf, pos);
        proof {
            assert(r2 is Ok);
            assert(buf@ =~= buf0.take(p0) + (enc_i64(self.id) + enc_text(self.username@))
                + buf0.skip(p0 + 8 + enc_text(self.username@).len()));
        }
        let r3 = self.email.serialize(buf, pos);
        proof {
            assert(r3 is Ok);
            assert(buf@ =~= buf0.take(p0) + enc_user(self@) + buf0.skip(
                p0 + enc_user(self@).len(),
            ));
        }
        Ok(())
    }
}

impl Deserializable for User {
    open spec fn dec(b: Seq<u8>) -> Result<(UserV, int), DeserializationError> {
        dec_user(b)
    }

    proof fn lemma_round_trip(v: UserV, rest: Seq<u8>) {
        let e1 = enc_i64(v.id);
        let e2 = enc_text(v.username);
        let e3 = enc_text(v.email);
        let b = enc_user(v) + rest;
        assert(b =~= e1 + (e2 + e3 + rest));
        lemma_i64_round_trip(v.id, e2 + e3 + rest);
        assert(b.skip(8) =~= e2 + (e3 + rest));
        lemma_text_round_trip(v.username, e3 + rest);
        assert(b.skip(8 + e2.len() as int) =~= e3 + rest);
        lemma_text_round_trip(v.email, rest);
    }

    fn deserialize(buf: &Vec<u8>, pos: &mut usize) -> Result<User, DeserializationError> {
        let saved = *pos;
        let ghost b = buf@.skip(saved as int);
        let id = match i64::deserialize(buf, pos) {
            Ok(v) => v,
            Err(e) => {
                return Err(e);
            },
        };
        proof {
            assert(buf@.skip(*pos as int) =~= b.skip(*pos - saved));
        }
        let username = match String::deserialize(buf, pos) {
            Ok(v) => v,
            Err(e) => {
                *pos = saved;
                return Err(e);
            },
        };
        proof {
            assert(buf@.skip(*pos as int) =~= b.skip(*pos - saved));
        }
        let email = match String::deserialize(buf, pos) {
            Ok(v) => v,
            Err(e) => {
                *pos = saved;
                return Err(e);
            },
        };
        Ok(User { id, username, email })
    }
}

} // verus!
