//! The append-only table arena: a fixed-capacity byte region holding the
//! canonical encodings of the rows inserted so far, back to back, with
//! write-offset and row-count bookkeeping.

use vstd::prelude::*;

use crate::data::codec::{Deserializable, Serializable};
use crate::errors::{BufferError, InsertionError, SelectError, SerializationError};

verus! {

/// Capacity in bytes of every table arena.
pub const TABLE_SIZE: usize = 1024 * 1024;

/// Concatenation of the canonical encodings of a sequence of rows.
pub open spec fn enc_rows<R: Serializable>(rows: Seq<R::V>) -> Seq<u8>
    decreases rows.len(),
{
    if rows.len() == 0 {
        Seq::empty()
    } else {
        enc_rows::<R>(rows.drop_last()) + R::enc(rows.last())
    }
}

/// Front decomposition of [`enc_rows`]: the arena region of a non-empty
/// row sequence starts with the encoding of its first row.
pub proof fn lemma_enc_rows_first<R: Serializable>(rows: Seq<R::V>)
    requires
        rows.len() > 0,
    ensures
        enc_rows::<R>(rows) == R::enc(rows[0]) + enc_rows::<R>(rows.drop_first()),
    decreases rows.len(),
{
    if rows.len() == 1 {
        assert(rows.drop_last() =~= Seq::<R::V>::empty());
        assert(rows.drop_first() =~= Seq::<R::V>::empty());
        assert(enc_rows::<R>(rows) =~= R::enc(rows[0]) + enc_rows::<R>(rows.drop_first()));
    } else {
        lemma_enc_rows_first::<R>(rows.drop_last());
        assert(rows.drop_last().drop_first() =~= rows.drop_first().drop_last());
        assert(rows.drop_first().last() == rows.last());
        assert(enc_rows::<R>(rows) =~= R::enc(rows[0]) + enc_rows::<R>(rows.drop_first()));
    }
}

/// Appending a row extends the arena region by that row's encoding.
pub proof fn lemma_enc_rows_push<R: Serializable>(rows: Seq<R::V>, x: R::V)
    ensures
        enc_rows::<R>(rows.push(x)) == enc_rows::<R>(rows) + R::enc(x),
{
    assert(rows.push(x).drop_last() =~= rows);
    assert(rows.push(x).last() == x);
}

/// Insertion order is preserved: appending rows one at a time, in order
/// (the shape `insert` gives the table's rows), leaves the table holding
/// exactly the old rows followed by the new ones, and `select` returns a
/// table's rows verbatim.
pub proof fn lemma_insertion_order<R: Deserializable>(before: Seq<R::V>, appended: Seq<R::V>)
    ensures
        appended.fold_left(before, |acc: Seq<R::V>, x: R::V| acc.push(x)) == before + appended,
    decreases appended.len(),
{
    if appended.len() == 0 {
        assert(before + appended =~= before);
    } else {
        lemma_insertion_order::<R>(before, appended.drop_last());
        assert((before + appended.drop_last()).push(appended.last()) =~= before + appended);
    }
}

/// An append-only, fixed-capacity byte arena holding rows of one record
/// shape, with the write offset and row count it maintains.
pub struct Table<R: Deserializable> {
    arena: Vec<u8>,
    offset: usize,
    row_number: usize,
    rows: Ghost<Seq<R::V>>,
}

impl<R: Deserializable> Table<R> {
    /// The rows appended so far, in order, as abstract values.
    pub closed spec fn rows(&self) -> Seq<R::V> {
        self.rows@
    }

    /// The count of arena bytes already written.
    pub closed spec fn used(&self) -> nat {
        self.offset as nat
    }

    /// Structural invariant: the written prefix of the arena is exactly
    /// the back-to-back canonical encodings of the appended rows, every
    /// appended row is representable, and the bookkeeping agrees.
    pub closed spec fn inv(&self) -> bool {
        &&& self.arena@.len() == TABLE_SIZE
        &&& self.offset <= TABLE_SIZE
        &&& self.row_number == self.rows@.len()
        &&& self.rows@.len() <= self.offset
        &&& self.arena@.take(self.offset as int) == enc_rows::<R>(self.rows@)
        &&& forall|i: int| 0 <= i < self.rows@.len() ==> R::inv(#[trigger] self.rows@[i])
    }

    /// Consequences of the invariant that callers may rely on.
    pub proof fn lemma_inv_facts(&self)
        requires
            self.inv(),
        ensures
            self.used() == enc_rows::<R>(self.rows()).len(),
            self.rows().len() <= self.used(),
            self.used() <= TABLE_SIZE,
            forall|i: int| 0 <= i < self.rows().len() ==> R::inv(#[trigger] self.rows()[i]),
    {
        assert(self.arena@.take(self.offset as int).len() == self.offset);
    }

    /// A fresh, empty table.
    pub fn new() -> (r: Table<R>)
        ensures
            r.inv(),
            r.rows() == Seq::<R::V>::empty(),
            r.used() == 0,
    {
        let t = Table {
            arena: vec![0u8; TABLE_SIZE],
            offset: 0,
            row_number: 0,
            rows: Ghost(Seq::empty()),
        };
        proof {
            assert(t.arena@.take(0) =~= enc_rows::<R>(Seq::<R::V>::empty()));
        }
        t
    }

    /// Serializes `row` at the write offset and advances the bookkeeping
    /// past it. Succeeds exactly when the row is representable and its
    /// encoding fits the remaining capacity; on failure the table is
    /// unchanged (as observed through `rows` and `used`).
    pub fn insert(&mut self, row: R) -> (r: Result<(), InsertionError>)
        requires
            old(self).inv(),
        ensures
            final(self).inv(),
            match r {
                Ok(()) => R::inv(row@)
                    && old(self).used() + R::enc(row@).len() <= TABLE_SIZE
                    && final(self).rows() == old(self).rows().push(row@)
                    && final(self).used() == old(self).used() + R::enc(row@).len(),
                Err(InsertionError::Serialization(SerializationError::TextTooLong)) =>
                    !R::inv(row@)
                    && final(self).rows() == old(self).rows()
                    && final(self).used() == old(self).used(),
                Err(InsertionError::Serialization(SerializationError::Buffer(BufferError::BufferFull))) =>
                    R::inv(row@)
                    && old(self).used() + R::enc(row@).len() > TABLE_SIZE
                    && final(self).rows() == old(self).rows()
                    && final(self).used() == old(self).used(),
                Err(_) => false,
            },
    {
        let ghost arena0 = self.arena@;
        let ghost off0 = self.offset as int;
        let ghost rows0 = self.rows@;
        let mut pos = self.offset;
        let res = row.serialize(&mut self.arena, &mut pos);
        match res {
            Ok(()) => {
                proof {
                    R::lemma_enc_positive(row@);
                    lemma_enc_rows_push::<R>(rows0, row@);
                    assert(self.arena@.take(pos as int) =~= enc_rows::<R>(rows0.push(row@)));
                }
                self.offset = pos;
                self.row_number = self.row_number + 1;
                self.rows = Ghost(self.rows@.push(row@));
                Ok(())
            },
            Err(e) => {
                proof {
                    assert(self.arena@.take(off0) == arena0.take(off0));
                }
                Err(InsertionError::Serialization(e))
            },
        }
    }

    /// Replays the arena from offset zero, reconstructing every appended
    /// row in insertion order. Under the invariant this never fails.
    pub fn select(&self) -> (r: Result<Vec<R>, SelectError>)
        requires
            self.inv(),
        ensures
            match r {
                Ok(v) => v@.len() == self.rows().len() && forall|i: int|
                    0 <= i < v@.len() ==> (#[trigger] v@[i])@ == self.rows()[i],
                Err(_) => false,
            },
    {
        let ghost specrows = self.rows@;
        let mut out: Vec<R> = Vec::new();
        let mut pos: usize = 0;
        let mut i: usize = 0;
        let n = self.row_number;
        proof {
            assert(specrows.skip(0) =~= specrows);
            assert(self.arena@.subrange(0, self.used() as int) =~= self.arena@.take(
                self.used() as int,
            ));
        }
        while i < n
            invariant
                self.inv(),
                specrows == self.rows@,
                n == specrows.len(),
                i <= n,
                out@.len() == i,
                forall|j: int| 0 <= j < i ==> (#[trigger] out@[j])@ == specrows[j],
                pos <= self.used(),
                self.arena@.subrange(pos as int, self.used() as int) == enc_rows::<R>(
                    specrows.skip(i as int),
                ),
            decreases n - i,
        {
            let ghost rem = specrows.skip(i as int);
            let ghost a = self.arena@;
            let ghost u = self.used() as int;
            let ghost p0 = pos as int;
            let ghost head = R::enc(rem[0]);
            let ghost tail = enc_rows::<R>(rem.drop_first());
            proof {
                self.lemma_inv_facts();
                lemma_enc_rows_first::<R>(rem);
                R::lemma_round_trip(rem[0], tail + a.skip(u));
                // the unread arena is the remaining encodings, then the free space
                assert(a.skip(p0) =~= a.subrange(p0, u) + a.skip(u));
                assert((head + tail) + a.skip(u) =~= head + (tail + a.skip(u)));
            }
            let item = match R::deserialize(&self.arena, &mut pos) {
                Ok(v) => v,
                Err(e) => {
                    return Err(SelectError::Deserialization(e));
                },
            };
            out.push(item);
            proof {
                let l = head.len() as int;
                assert(specrows.skip(i as int).drop_first() =~= specrows.skip(i + 1));
                assert(a.subrange(p0 + l, u) =~= a.subrange(p0, u).skip(l));
                assert((head + tail).skip(l) =~= tail);
            }
            i = i + 1;
        }
        Ok(out)
    }
}

} // verus!
