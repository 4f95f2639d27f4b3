//! The SQL-like commands: their grammar, their parser, and their
//! execution against the database.

use vstd::prelude::*;

use vstd::string::StrSliceExecFns;

use crate::commands::lex::{
    char_is_space, is_space, lemma_token_len_run, lemma_trim_end_take, lemma_trim_start_skip,
    parse_i64, spec_parse_i64, str_chars_eq, token_len, tokenize, tokens, trim,
};
use crate::commands::{Execute, Output, OutputV};
use crate::data::car::{Car, CarV};
use crate::data::records::{
    rec_enc, rec_table, rec_wf, recs_enc, spec_table_name, Record, RecordV, TableName,
};
use crate::data::user::{User, UserV};
use crate::database::Database;
use crate::errors::{
    BufferError, CommandError, CommandErrorV, CreationError, ExecutionError, InsertionError,
    SelectError, SerializationError,
};
use crate::table::TABLE_SIZE;

verus! {

/// The SQL-like commands, each carrying its fully parsed payload.
#[derive(Debug, PartialEq, Eq)]
pub enum SqlCommand {
    Insert { data: Record },
    Select { table: TableName },
    Create { table: TableName },
}

/// Mathematical image of a [`SqlCommand`].
pub ghost enum SqlCommandV {
    Insert(RecordV),
    Select(TableName),
    Create(TableName),
}

impl View for SqlCommand {
    type V = SqlCommandV;

    open spec fn view(&self) -> SqlCommandV {
        match self {
            SqlCommand::Insert { data } => SqlCommandV::Insert(data@),
            SqlCommand::Select { table } => SqlCommandV::Select(*table),
            SqlCommand::Create { table } => SqlCommandV::Create(*table),
        }
    }
}

/// The command word of the insert command.
pub open spec fn kw_insert() -> Seq<char> {
    seq!['i', 'n', 's', 'e', 'r', 't']
}

/// The command word of the select command.
pub open spec fn kw_select() -> Seq<char> {
    seq!['s', 'e', 'l', 'e', 'c', 't']
}

/// The command word of the create command.
pub open spec fn kw_create() -> Seq<char> {
    seq!['c', 'r', 'e', 'a', 't', 'e']
}

/// The character sequences of a list of owned tokens.
pub open spec fn views_of(ps: Seq<String>) -> Seq<Seq<char>> {
    ps.map_values(|p: String| p@)
}

/// What a single-table-argument command (select, create) makes of its
/// argument tokens: the table named by the one argument, or the error
/// the tokens commit, arguments being consumed left to right.
pub open spec fn spec_one_table(toks: Seq<Seq<char>>) -> Result<TableName, CommandErrorV> {
    if toks.len() == 0 {
        Err(CommandErrorV::NotEnoughArguments)
    } else {
        match spec_table_name(toks[0]) {
            None => Err(CommandErrorV::UnknownTable(toks[0])),
            Some(name) => if toks.len() > 1 {
                Err(CommandErrorV::TooManyArguments)
            } else {
                Ok(name)
            },
        }
    }
}

/// What the insert command makes of its argument tokens: the table name
/// selects the record shape, then each field is consumed left to right;
/// once every required field is present, surplus tokens are an error.
pub open spec fn spec_from_parameters(toks: Seq<Seq<char>>) -> Result<RecordV, CommandErrorV> {
    if toks.len() == 0 {
        Err(CommandErrorV::NotEnoughArguments)
    } else {
        match spec_table_name(toks[0]) {
            None => Err(CommandErrorV::UnknownTable(toks[0])),
            Some(TableName::User) => if toks.len() < 2 {
                Err(CommandErrorV::NotEnoughArguments)
            } else {
                match spec_parse_i64(toks[1]) {
                    None => Err(CommandErrorV::ExpectingInteger),
                    Some(id) => if toks.len() < 3 {
                        Err(CommandErrorV::NotEnoughArguments)
                    } else if toks.len() < 4 {
                        Err(CommandErrorV::NotEnoughArguments)
                    } else if toks.len() > 4 {
                        Err(CommandErrorV::TooManyArguments)
                    } else {
                        Ok(RecordV::User(UserV { id, username: toks[2], email: toks[3] }))
                    },
                }
            },
            Some(TableName::Car) => if toks.len() < 2 {
                Err(CommandErrorV::NotEnoughArguments)
            } else if toks.len() < 3 {
                Err(CommandErrorV::NotEnoughArguments)
            } else if toks.len() > 3 {
                Err(CommandErrorV::TooManyArguments)
            } else {
                Ok(RecordV::Car(CarV { id: toks[1], brand: toks[2] }))
            },
        }
    }
}

/// What the SQL grammar makes of one line: `None` when the line starts
/// with no recognized command word (the caller treats it as unknown),
/// the parsed command, or the error the line commits. The command word
/// is the first whitespace-delimited token of the trimmed line.
pub open spec fn spec_sql(s: Seq<char>) -> Result<Option<SqlCommandV>, CommandErrorV> {
    let u = trim(s);
    let p = token_len(u) as int;
    if p == u.len() {
        if u == kw_insert() || u == kw_select() || u == kw_create() {
            Err(CommandErrorV::NotEnoughArguments)
        } else {
            Ok(None)
        }
    } else {
        let cmd = u.take(p);
        let payload = u.skip(p + 1);
        if cmd == kw_insert() {
            match spec_from_parameters(tokens(payload)) {
                Ok(rec) => Ok(Some(SqlCommandV::Insert(rec))),
                Err(e) => Err(e),
            }
        } else if cmd == kw_select() {
            match spec_one_table(tokens(payload)) {
                Ok(name) => Ok(Some(SqlCommandV::Select(name))),
                Err(e) => Err(e),
            }
        } else if cmd == kw_create() {
            match spec_one_table(tokens(payload)) {
                Ok(name) => Ok(Some(SqlCommandV::Create(name))),
                Err(e) => Err(e),
            }
        } else {
            Ok(None)
        }
    }
}

impl Record {
    /// Builds the record an insert command carries from the command's
    /// argument tokens, table name first.
    pub fn from_parameters(params: &Vec<String>) -> (r: Result<Record, CommandError>)
        ensures
            match (r, spec_from_parameters(views_of(params@))) {
                (Ok(rec), Ok(rv)) => rec@ == rv,
                (Err(e), Err(ev)) => e@ == ev,
                _ => false,
            },
    {
        if params.len() == 0 {
            return Err(CommandError::NotEnoughArguments);
        }
        let name = match TableName::from_str(params[0].as_str()) {
            Ok(n) => n,
            Err(e) => {
                return Err(e);
            },
        };
        match name {
            TableName::User => {
                if params.len() < 2 {
                    return Err(CommandError::NotEnoughArguments);
                }
                let id = match parse_i64(params[1].as_str()) {
                    Some(v) => v,
                    None => {
                        return Err(CommandError::ExpectingInteger);
                    },
                };
                if params.len() < 3 {
                    return Err(CommandError::NotEnoughArguments);
                }
                if params.len() < 4 {
                    return Err(CommandError::NotEnoughArguments);
                }
                if params.len() > 4 {
                    return Err(CommandError::TooManyArguments);
                }
                let username = params[2].clone();
                let email = params[3].clone();
                Ok(Record::User(User::new(id, username, email)))
            },
            TableName::Car => {
                if params.len() < 2 {
                    return Err(CommandError::NotEnoughArguments);
                }
                if params.len() < 3 {
                    return Err(CommandError::NotEnoughArguments);
                }
                if params.len() > 3 {
                    return Err(CommandError::TooManyArguments);
                }
                let id = params[1].clone();
                let brand = params[2].clone();
                Ok(Record::Car(Car::new(id, brand)))
            },
        }
    }
}

impl SqlCommand {
    /// Recognizes a SQL command line: trims it, splits its first
    /// whitespace-delimited token off as the command word, and parses
    /// the arguments.
    pub fn try_from_str(input: &str) -> (r: Result<Option<SqlCommand>, CommandError>)
        ensures
            match (r, spec_sql(input@)) {
                (Ok(Some(c)), Ok(Some(cv))) => c@ == cv,
                (Ok(None), Ok(None)) => true,
                (Err(e), Err(ev)) => e@ == ev,
                _ => false,
            },
    {
        let n = input.unicode_len();
        let mut a: usize = 0;
        while a < n && char_is_space(input.get_char(a))
            invariant
                a <= n,
                n == input@.len(),
                forall|j: int| 0 <= j < a ==> is_space(#[trigger] input@[j]),
            decreases n - a,
        {
            a = a + 1;
        }
        let mut b = n;
        while b > a && char_is_space(input.get_char(b - 1))
            invariant
                a <= b <= n,
                n == input@.len(),
                forall|j: int| b <= j < n ==> is_space(#[trigger] input@[j]),
            decreases b,
        {
            b = b - 1;
        }
        let u = input.substring_char(a, b);
        proof {
            lemma_trim_start_skip(input@, a as int);
            assert(forall|j: int|
                b - a <= j < n - a ==> is_space(#[trigger] input@.skip(a as int)[j]));
            lemma_trim_end_take(input@.skip(a as int), b - a);
            assert(input@.skip(a as int).take(b - a) =~= input@.subrange(a as int, b as int));
            assert(u@ == trim(input@));
        }
        let m = b - a;
        let mut p: usize = 0;
        while p < m && !char_is_space(u.get_char(p))
            invariant
                p <= m,
                m == u@.len(),
                forall|j: int| 0 <= j < p ==> !is_space(#[trigger] u@[j]),
            decreases m - p,
        {
            p = p + 1;
        }
        proof {
            lemma_token_len_run(u@, p as int);
        }
        if p == m {
            let is_ins = str_chars_eq(u, "insert");
            let is_sel = str_chars_eq(u, "select");
            let is_cre = str_chars_eq(u, "create");
            proof {
                reveal_strlit("insert");
                reveal_strlit("select");
                reveal_strlit("create");
                assert("insert"@ =~= kw_insert());
                assert("select"@ =~= kw_select());
                assert("create"@ =~= kw_create());
            }
            if is_ins || is_sel || is_cre {
                return Err(CommandError::NotEnoughArguments);
            }
            return Ok(None);
        }
        let cmd = u.substring_char(0, p);
        let payload = u.substring_char(p + 1, m);
        proof {
            assert(u@.subrange(0, p as int) =~= u@.take(p as int));
            assert(u@.subrange(p + 1, m as int) =~= u@.skip(p + 1));
        }
        let is_ins = str_chars_eq(cmd, "insert");
        let is_sel = str_chars_eq(cmd, "select");
        let is_cre = str_chars_eq(cmd, "create");
        proof {
            reveal_strlit("insert");
            reveal_strlit("select");
            reveal_strlit("create");
            assert("insert"@ =~= kw_insert());
            assert("select"@ =~= kw_select());
            assert("create"@ =~= kw_create());
        }
        if is_ins {
            let toks = tokenize(payload);
            proof {
                assert(views_of(toks@) =~= tokens(payload@));
            }
            match Record::from_parameters(&toks) {
                Ok(data) => Ok(Some(SqlCommand::Insert { data })),
                Err(e) => Err(e),
            }
        } else if is_sel {
            let toks = tokenize(payload);
            proof {
                assert(views_of(toks@) =~= tokens(payload@));
            }
            match Self::one_table(&toks) {
                Ok(table) => Ok(Some(SqlCommand::Select { table })),
                Err(e) => Err(e),
            }
        } else if is_cre {
            let toks = tokenize(payload);
            proof {
                assert(views_of(toks@) =~= tokens(payload@));
            }
            match Self::one_table(&toks) {
                Ok(table) => Ok(Some(SqlCommand::Create { table })),
                Err(e) => Err(e),
            }
        } else {
            Ok(None)
        }
    }

    /// Consumes the argument tokens of a single-table-argument command.
    fn one_table(params: &Vec<String>) -> (r: Result<TableName, CommandError>)
        ensures
            match (r, spec_one_table(views_of(params@))) {
                (Ok(t), Ok(tv)) => t == tv,
                (Err(e), Err(ev)) => e@ == ev,
                _ => false,
            },
    {
        if params.len() == 0 {
            return Err(CommandError::NotEnoughArguments);
        }
        let name = match TableName::from_str(params[0].as_str()) {
            Ok(t) => t,
            Err(e) => {
                return Err(e);
            },
        };
        if params.len() > 1 {
            return Err(CommandError::TooManyArguments);
        }
        Ok(name)
    }
}

/// What executing a SQL command does to the tables and returns: the
/// functional specification of the executor, matched arm for arm by the
/// database's own contracts.
pub open spec fn apply_sql(c: SqlCommandV, t: Map<TableName, Seq<RecordV>>) -> (Map<
    TableName,
    Seq<RecordV>,
>, Result<OutputV, ExecutionError>) {
    match c {
        SqlCommandV::Insert(rec) => {
            let name = rec_table(rec);
            if !t.dom().contains(name) {
                (t, Err(ExecutionError::Insertion(InsertionError::TableNotExist(name))))
            } else if !rec_wf(rec) {
                (
                    t,
                    Err(
                        ExecutionError::Insertion(
                            InsertionError::Serialization(SerializationError::TextTooLong),
                        ),
                    ),
                )
            } else if recs_enc(t[name]).len() + rec_enc(rec).len() > TABLE_SIZE {
                (
                    t,
                    Err(
                        ExecutionError::Insertion(
                            InsertionError::Serialization(
                                SerializationError::Buffer(BufferError::BufferFull),
                            ),
                        ),
                    ),
                )
            } else {
                (t.insert(name, t[name].push(rec)), Ok(OutputV::Inserted))
            }
        },
        SqlCommandV::Select(name) => {
            if !t.dom().contains(name) {
                (t, Err(ExecutionError::Select(SelectError::TableNotExist(name))))
            } else {
                (t, Ok(OutputV::Rows(t[name])))
            }
        },
        SqlCommandV::Create(name) => {
            if t.dom().contains(name) {
                (t, Err(ExecutionError::Create(CreationError::TableAlreadyExist(name))))
            } else {
                (t.insert(name, Seq::empty()), Ok(OutputV::Created))
            }
        },
    }
}

/// Table isolation: executing a command leaves every table other than
/// the one it names untouched — selects touch none at all.
pub proof fn lemma_sql_isolation(c: SqlCommandV, t: Map<TableName, Seq<RecordV>>, n: TableName)
    requires
        t.dom().contains(n),
        match c {
            SqlCommandV::Insert(rec) => n != rec_table(rec),
            SqlCommandV::Select(_) => true,
            SqlCommandV::Create(m) => n != m,
        },
    ensures
        apply_sql(c, t).0.dom().contains(n),
        apply_sql(c, t).0[n] == t[n],
{
}

impl Execute for SqlCommand {
    open spec fn tables_after(v: SqlCommandV, t: Map<TableName, Seq<RecordV>>) -> Map<
        TableName,
        Seq<RecordV>,
    > {
        apply_sql(v, t).0
    }

    open spec fn outcome(v: SqlCommandV, t: Map<TableName, Seq<RecordV>>) -> Result<
        OutputV,
        ExecutionError,
    > {
        apply_sql(v, t).1
    }
}

impl SqlCommand {
    /// Routes the command to the database and wraps its outcome, exactly
    /// as [`apply_sql`] says.
    pub fn execute(self, database: &mut Database) -> (r: Result<Output, ExecutionError>)
        requires
            old(database).inv(),
        ensures
            final(database).inv(),
            final(database).tables() == apply_sql(self@, old(database).tables()).0,
            match (r, apply_sql(self@, old(database).tables()).1) {
                (Ok(o), Ok(ov)) => o@ == ov,
                (Err(e), Err(ev)) => e == ev,
                _ => false,
            },
    {
        match self {
            SqlCommand::Insert { data } => {
                match database.insert(data) {
                    Ok(()) => Ok(Output::Inserted),
                    Err(e) => Err(ExecutionError::Insertion(e)),
                }
            },
            SqlCommand::Select { table } => {
                match database.select(table) {
                    Ok(rows) => {
                        proof {
                            assert(rows@.map_values(|r: Record| r@) =~= old(
                                database,
                            ).tables()[table]);
                        }
                        Ok(Output::Rows(rows))
                    },
                    Err(e) => Err(ExecutionError::Select(e)),
                }
            },
            SqlCommand::Create { table } => {
                match database.create_table(table) {
                    Ok(()) => Ok(Output::Created),
                    Err(e) => Err(ExecutionError::Create(e)),
                }
            },
        }
    }
}

} // verus!
