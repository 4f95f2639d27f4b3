//! The table registry: routes typed records to the arena registered under
//! their table name. No table exists until it is explicitly created, and
//! every operation touches only the table it targets.

use vstd::prelude::*;

use crate::data::car::{Car, CarV};
use crate::data::records::{rec_enc, rec_table, rec_wf, recs_enc, Record, RecordV, TableName};
use crate::data::user::{User, UserV};
use crate::errors::{BufferError, CreationError, InsertionError, SelectError, SerializationError};
use crate::table::{enc_rows, Table, TABLE_SIZE};

verus! {

/// The records of a sequence of user rows, tagged as such.
pub open spec fn user_records(rows: Seq<UserV>) -> Seq<RecordV> {
    rows.map_values(|u: UserV| RecordV::User(u))
}

/// The records of a sequence of car rows, tagged as such.
pub open spec fn car_records(rows: Seq<CarV>) -> Seq<RecordV> {
    rows.map_values(|c: CarV| RecordV::Car(c))
}

/// Tagging user rows does not change the bytes a table holds for them.
pub proof fn lemma_user_records_enc(rows: Seq<UserV>)
    ensures
        recs_enc(user_records(rows)) == enc_rows::<User>(rows),
    decreases rows.len(),
{
    if rows.len() == 0 {
        assert(user_records(rows) =~= Seq::<RecordV>::empty());
    } else {
        lemma_user_records_enc(rows.drop_last());
        assert(user_records(rows).drop_last() =~= user_records(rows.drop_last()));
        assert(user_records(rows).last() == RecordV::User(rows.last()));
    }
}

/// Tagging car rows does not change the bytes a table holds for them.
pub proof fn lemma_car_records_enc(rows: Seq<CarV>)
    ensures
        recs_enc(car_records(rows)) == enc_rows::<Car>(rows),
    decreases rows.len(),
{
    if rows.len() == 0 {
        assert(car_records(rows) =~= Seq::<RecordV>::empty());
    } else {
        lemma_car_records_enc(rows.drop_last());
        assert(car_records(rows).drop_last() =~= car_records(rows.drop_last()));
        assert(car_records(rows).last() == RecordV::Car(rows.last()));
    }
}

/// Registry mapping table names to their arenas, keys unique, with no
/// implicit creation.
pub struct Database {
    users: Option<Table<User>>,
    cars: Option<Table<Car>>,
}

impl Database {
    /// Every registered table satisfies its arena invariant.
    pub closed spec fn inv(&self) -> bool {
        &&& (self.users matches Some(t) ==> t.inv())
        &&& (self.cars matches Some(t) ==> t.inv())
    }

    /// The registry as a map from each created table's name to the
    /// records it holds, in insertion order.
    pub closed spec fn tables(&self) -> Map<TableName, Seq<RecordV>> {
        let m = Map::<TableName, Seq<RecordV>>::empty();
        let m = match self.users {
            Some(t) => m.insert(TableName::User, user_records(t.rows())),
            None => m,
        };
        let m = match self.cars {
            Some(t) => m.insert(TableName::Car, car_records(t.rows())),
            None => m,
        };
        m
    }

    /// A fresh database with no tables.
    pub fn new() -> (r: Database)
        ensures
            r.inv(),
            r.tables() == Map::<TableName, Seq<RecordV>>::empty(),
    {
        let d = Database { users: None, cars: None };
        proof {
            assert(d.tables() =~= Map::<TableName, Seq<RecordV>>::empty());
        }
        d
    }

    /// Registers a new, empty table under `table_name`; fails, changing
    /// nothing, exactly when that name is already registered.
    pub fn create_table(&mut self, table_name: TableName) -> (r: Result<(), CreationError>)
        requires
            old(self).inv(),
        ensures
            final(self).inv(),
            match r {
                Ok(()) => !old(self).tables().dom().contains(table_name) && final(self).tables()
                    == old(self).tables().insert(table_name, Seq::<RecordV>::empty()),
                Err(CreationError::TableAlreadyExist(t)) => t == table_name && old(self).tables().dom().contains(table_name) && final(self).tables() == old(self).tables(),
            },
    {
        match table_name {
            TableName::User => {
                if self.users.is_some() {
                    return Err(CreationError::TableAlreadyExist(TableName::User));
                }
                self.users = Some(Table::new());
                proof {
                    assert(user_records(Seq::<UserV>::empty()) =~= Seq::<RecordV>::empty());
                    assert(self.tables() =~= old(self).tables().insert(
                        TableName::User,
                        Seq::<RecordV>::empty(),
                    ));
                }
                Ok(())
            },
            TableName::Car => {
                if self.cars.is_some() {
                    return Err(CreationError::TableAlreadyExist(TableName::Car));
                }
                self.cars = Some(Table::new());
                proof {
                    assert(car_records(Seq::<CarV>::empty()) =~= Seq::<RecordV>::empty());
                    assert(self.tables() =~= old(self).tables().insert(
                        TableName::Car,
                        Seq::<RecordV>::empty(),
                    ));
                }
                Ok(())
            },
        }
    }

    /// Appends `data` to the table named by its tag. Fails, changing
    /// nothing, when that table is not registered, when the record is not
    /// representable, or when its encoding exceeds the remaining
    /// capacity; other tables are never touched.
    pub fn insert(&mut self, data: Record) -> (r: Result<(), InsertionError>)
        requires
            old(self).inv(),
        ensures
            final(self).inv(),
            match r {
                Ok(()) => old(self).tables().dom().contains(rec_table(data@)) && rec_wf(data@)
                    && recs_enc(old(self).tables()[rec_table(data@)]).len() + rec_enc(data@).len()
                    <= TABLE_SIZE && final(self).tables() == old(self).tables().insert(
                    rec_table(data@),
                    old(self).tables()[rec_table(data@)].push(data@),
                ),
                Err(InsertionError::TableNotExist(t)) => t == rec_table(data@) && !old(self).tables().dom().contains(rec_table(data@)) && final(self).tables() == old(self).tables(),
                Err(InsertionError::Serialization(SerializationError::TextTooLong)) => old(self).tables().dom().contains(rec_table(data@)) && !rec_wf(data@) && final(self).tables() == old(self).tables(),
                Err(InsertionError::Serialization(SerializationError::Buffer(BufferError::BufferFull))) =>
                    old(self).tables().dom().contains(rec_table(data@))
                    && rec_wf(data@)
                    && recs_enc(old(self).tables()[rec_table(data@)]).len() + rec_enc(data@).len()
                        > TABLE_SIZE
                    && final(self).tables() == old(self).tables(),
                Err(_) => false,
            },
            forall|n: TableName| #![auto]
                n != rec_table(data@) && old(self).tables().dom().contains(n) ==> final(self).tables().dom().contains(n) && final(self).tables()[n] == old(self).tables()[n],
    {
        match data {
            Record::User(u) => {
                match self.users.take() {
                    Some(mut t) => {
                        proof {
                            t.lemma_inv_facts();
                            lemma_user_records_enc(t.rows());
                        }
                        let res = t.insert(u);
                        let ghost trows = t.rows();
                        self.users = Some(t);
                        match res {
                            Ok(()) => {
                                proof {
                                    assert(user_records(trows) =~= user_records(
                                        old(self).users.arrow_Some_0().rows(),
                                    ).push(RecordV::User(u@)));
                                    assert(self.tables() =~= old(self).tables().insert(
                                        TableName::User,
                                        old(self).tables()[TableName::User].push(RecordV::User(u@)),
                                    ));
                                }
                                Ok(())
                            },
                            Err(e) => {
                                proof {
                                    assert(self.tables() =~= old(self).tables());
                                }
                                Err(e)
                            },
                        }
                    },
                    None => Err(InsertionError::TableNotExist(TableName::User)),
                }
            },
            Record::Car(c) => {
                match self.cars.take() {
                    Some(mut t) => {
                        proof {
                            t.lemma_inv_facts();
                            lemma_car_records_enc(t.rows());
                        }
                        let res = t.insert(c);
                        let ghost trows = t.rows();
                        self.cars = Some(t);
                        match res {
                            Ok(()) => {
                                proof {
                                    assert(car_records(trows) =~= car_records(
                                        old(self).cars.arrow_Some_0().rows(),
                                    ).push(RecordV::Car(c@)));
                                    assert(self.tables() =~= old(self).tables().insert(
                                        TableName::Car,
                                        old(self).tables()[TableName::Car].push(RecordV::Car(c@)),
                                    ));
                                }
                                Ok(())
                            },
                            Err(e) => {
                                proof {
                                    assert(self.tables() =~= old(self).tables());
                                }
                                Err(e)
                            },
                        }
                    },
                    None => Err(InsertionError::TableNotExist(TableName::Car)),
                }
            },
        }
    }

    /// Replays the table named `table_name`, returning its records in
    /// insertion order; fails exactly when that table is not registered.
    /// The database is left unchanged.
    pub fn select(&mut self, table_name: TableName) -> (r: Result<Vec<Record>, SelectError>)
        requires
            old(self).inv(),
        ensures
            final(self).inv(),
            final(self).tables() == old(self).tables(),
            match r {
                Ok(v) => old(self).tables().dom().contains(table_name) && v@.len() == old(self).tables()[table_name].len() && forall|i: int|
                    0 <= i < v@.len() ==> (#[trigger] v@[i])@ == old(self).tables()[table_name][i],
                Err(SelectError::TableNotExist(t)) => t == table_name && !old(self).tables().dom().contains(table_name),
                Err(_) => false,
            },
    {
        match table_name {
            TableName::User => {
                match &self.users {
                    Some(t) => {
                        let mut rows = match t.select() {
                            Ok(v) => v,
                            Err(e) => {
                                return Err(e);
                            },
                        };
                        let ghost orig = rows@;
                        let mut out: Vec<Record> = Vec::new();
                        while rows.len() > 0
                            invariant
                                out@.len() + rows@.len() == orig.len(),
                                rows@ == orig.skip(out@.len() as int),
                                forall|j: int|
                                    0 <= j < out@.len() ==> (#[trigger] out@[j])@ == RecordV::User(
                                        orig[j]@,
                                    ),
                            decreases rows@.len(),
                        {
                            let u = rows.remove(0);
                            out.push(Record::User(u));
                            proof {
                                assert(rows@ =~= orig.skip(out@.len() as int));
                            }
                        }
                        Ok(out)
                    },
                    None => Err(SelectError::TableNotExist(TableName::User)),
                }
            },
            TableName::Car => {
                match &self.cars {
                    Some(t) => {
                        let mut rows = match t.select() {
                            Ok(v) => v,
                            Err(e) => {
                                return Err(e);
                            },
                        };
                        let ghost orig = rows@;
                        let mut out: Vec<Record> = Vec::new();
                        while rows.len() > 0
                            invariant
                                out@.len() + rows@.len() == orig.len(),
                                rows@ == orig.skip(out@.len() as int),
                                forall|j: int|
                                    0 <= j < out@.len() ==> (#[trigger] out@[j])@ == RecordV::Car(
                                        orig[j]@,
                                    ),
                            decreases rows@.len(),
                        {
                            let c = rows.remove(0);
                            out.push(Record::Car(c));
                            proof {
                                assert(rows@ =~= orig.skip(out@.len() as int));
                            }
                        }
                        Ok(out)
                    },
                    None => Err(SelectError::TableNotExist(TableName::Car)),
                }
            },
        }
    }
}

} // verus!
