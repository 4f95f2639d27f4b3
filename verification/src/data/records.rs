//! Table identifiers and the tagged record union.

use vstd::prelude::*;

use vstd::string::StrSliceExecFns;

use crate::data::car::{car_wf, enc_car, Car, CarV};
use crate::data::user::{enc_user, user_wf, User, UserV};
use crate::errors::{CommandError, CommandErrorV};

verus! {

/// The closed set of table identifiers. A table name doubles as the
/// discriminant for which record shape the table accepts.
#[derive(Debug, PartialEq, Hash, Eq, Clone, Copy, PartialOrd, Ord)]
pub enum TableName {
    User,
    Car,
}

/// The table name that a token denotes, matched case-insensitively on the
/// ASCII letters of "user" and "car"; any other token denotes no table.
pub open spec fn spec_table_name(s: Seq<char>) -> Option<TableName> {
    if s.len() == 4 && (s[0] == 'u' || s[0] == 'U') && (s[1] == 's' || s[1] == 'S') && (s[2]
        == 'e' || s[2] == 'E') && (s[3] == 'r' || s[3] == 'R') {
        Some(TableName::User)
    } else if s.len() == 3 && (s[0] == 'c' || s[0] == 'C') && (s[1] == 'a' || s[1] == 'A') && (
    s[2] == 'r' || s[2] == 'R') {
        Some(TableName::Car)
    } else {
        None
    }
}

impl TableName {
    /// Parses a table name token, case-insensitively; an unrecognized
    /// token is reported back inside the error.
    pub fn from_str(s: &str) -> (r: Result<TableName, CommandError>)
        ensures
            match r {
                Ok(t) => spec_table_name(s@) == Some(t),
                Err(e) => spec_table_name(s@) is None && e@ == CommandErrorV::UnknownTable(s@),
            },
    {
        let n = s.unicode_len();
        if n == 4 {
            let c0 = s.get_char(0);
            let c1 = s.get_char(1);
            let c2 = s.get_char(2);
            let c3 = s.get_char(3);
            if (c0 == 'u' || c0 == 'U') && (c1 == 's' || c1 == 'S') && (c2 == 'e' || c2 == 'E')
                && (c3 == 'r' || c3 == 'R') {
                return Ok(TableName::User);
            }
        }
        if n == 3 {
            let c0 = s.get_char(0);
            let c1 = s.get_char(1);
            let c2 = s.get_char(2);
            if (c0 == 'c' || c0 == 'C') && (c1 == 'a' || c1 == 'A') && (c2 == 'r' || c2 == 'R') {
                return Ok(TableName::Car);
            }
        }
        Err(CommandError::UnknownTable(s.to_owned()))
    }
}

/// Tagged union over the supported record shapes. A table keyed by
/// [`TableName::User`] holds only `User` values, one keyed by
/// [`TableName::Car`] only `Car` values.
#[derive(Debug, PartialEq, Eq)]
pub enum Record {
    User(User),
    Car(Car),
}

/// Mathematical image of a [`Record`].
pub ghost enum RecordV {
    User(UserV),
    Car(CarV),
}

impl View for Record {
    type V = RecordV;

    open spec fn view(&self) -> RecordV {
        match self {
            Record::User(u) => RecordV::User(u@),
            Record::Car(c) => RecordV::Car(c@),
        }
    }
}

/// The table that owns a record, derived from its tag.
pub open spec fn rec_table(r: RecordV) -> TableName {
    match r {
        RecordV::User(_) => TableName::User,
        RecordV::Car(_) => TableName::Car,
    }
}

/// Whether a record is representable in the row layout.
pub open spec fn rec_wf(r: RecordV) -> bool {
    match r {
        RecordV::User(u) => user_wf(u),
        RecordV::Car(c) => car_wf(c),
    }
}

/// Canonical encoding of a record, by its shape's codec.
pub open spec fn rec_enc(r: RecordV) -> Seq<u8> {
    match r {
        RecordV::User(u) => enc_user(u),
        RecordV::Car(c) => enc_car(c),
    }
}

/// Concatenation of the canonical encodings of a sequence of records:
/// the arena bytes a table holds for them.
pub open spec fn recs_enc(rows: Seq<RecordV>) -> Seq<u8>
    decreases rows.len(),
{
    if rows.len() == 0 {
        Seq::empty()
    } else {
        recs_enc(rows.drop_last()) + rec_enc(rows.last())
    }
}

} // verus!
