//! The command layer: parsing one line of text into a typed command, and
//! executing a command against a database.

use vstd::prelude::*;

use vstd::string::StrSliceExecFns;

use crate::commands::lex::{char_is_space, is_space, lemma_trim_start_skip, trim_start};
use crate::commands::meta::{kw_exit, MetaCommand};
use crate::commands::sql::{apply_sql, SqlCommand, SqlCommandV};
use crate::data::records::{Record, RecordV, TableName};
use crate::database::Database;
use crate::errors::{CommandError, CommandErrorV, ExecutionError};

pub mod lex;
pub mod meta;
pub mod sql;

verus! {

/// What executing one command produces for the caller to show or act on.
#[derive(Debug, PartialEq, Eq)]
pub enum Output {
    /// A record was persisted.
    Inserted,
    /// A table was registered.
    Created,
    /// The rows of the selected table, in insertion order.
    Rows(Vec<Record>),
    /// The line matched no known command; a notice is owed.
    Notice,
    /// The caller should end the session.
    Exit,
}

/// Mathematical image of an [`Output`].
pub ghost enum OutputV {
    Inserted,
    Created,
    Rows(Seq<RecordV>),
    Notice,
    Exit,
}

impl View for Output {
    type V = OutputV;

    open spec fn view(&self) -> OutputV {
        match self {
            Output::Inserted => OutputV::Inserted,
            Output::Created => OutputV::Created,
            Output::Rows(v) => OutputV::Rows(v@.map_values(|r: Record| r@)),
            Output::Notice => OutputV::Notice,
            Output::Exit => OutputV::Exit,
        }
    }
}

/// The functional specification of executing a command: what it does to
/// the tables, and what it returns. Each command type's `execute` method
/// is proved to implement its two functions.
pub trait Execute: View + Sized {
    /// The tables after executing the command on the given tables.
    spec fn tables_after(v: Self::V, t: Map<TableName, Seq<RecordV>>) -> Map<
        TableName,
        Seq<RecordV>,
    >;

    /// What executing the command on the given tables returns.
    spec fn outcome(v: Self::V, t: Map<TableName, Seq<RecordV>>) -> Result<
        OutputV,
        ExecutionError,
    >;
}

/// One parsed line: a SQL-like command, a meta-command, or an
/// unrecognized line carried through for the caller's notice.
#[derive(Debug, PartialEq, Eq)]
pub enum Command {
    Sql(SqlCommand),
    Meta(MetaCommand),
    Unknown { command: String },
}

/// Mathematical image of a [`Command`].
pub ghost enum CommandV {
    Sql(SqlCommandV),
    Meta(MetaCommand),
    Unknown(Seq<char>),
}

impl View for Command {
    type V = CommandV;

    open spec fn view(&self) -> CommandV {
        match self {
            Command::Sql(c) => CommandV::Sql(c@),
            Command::Meta(m) => CommandV::Meta(*m),
            Command::Unknown { command } => CommandV::Unknown(command@),
        }
    }
}

impl Execute for Command {
    open spec fn tables_after(v: CommandV, t: Map<TableName, Seq<RecordV>>) -> Map<
        TableName,
        Seq<RecordV>,
    > {
        match v {
            CommandV::Sql(c) => apply_sql(c, t).0,
            CommandV::Meta(_) => t,
            CommandV::Unknown(_) => t,
        }
    }

    open spec fn outcome(v: CommandV, t: Map<TableName, Seq<RecordV>>) -> Result<
        OutputV,
        ExecutionError,
    > {
        match v {
            CommandV::Sql(c) => apply_sql(c, t).1,
            CommandV::Meta(_) => Ok(OutputV::Exit),
            CommandV::Unknown(_) => Ok(OutputV::Notice),
        }
    }
}

impl Command {
    /// Runs the command against `database`, exactly as the [`Execute`]
    /// specification says: an unknown line owes a notice and performs no
    /// mutation, a meta-command asks the caller to end the session, and
    /// a SQL command is routed to the database.
    pub fn execute(self, database: &mut Database) -> (r: Result<Output, ExecutionError>)
        requires
            old(database).inv(),
        ensures
            final(database).inv(),
            final(database).tables() == <Command as Execute>::tables_after(
                self@,
                old(database).tables(),
            ),
            match (r, <Command as Execute>::outcome(self@, old(database).tables())) {
                (Ok(o), Ok(ov)) => o@ == ov,
                (Err(e), Err(ev)) => e == ev,
                _ => false,
            },
    {
        match self {
            Command::Sql(command) => command.execute(database),
            Command::Meta(command) => command.execute(database),
            Command::Unknown { .. } => Ok(Output::Notice),
        }
    }
}

/// What parsing one line yields. The leading-`.` namespace is tried
/// first on the left-trimmed line; otherwise the SQL grammar decides,
/// and a line neither grammar claims is the unknown command, carried
/// through verbatim.
pub open spec fn spec_parse(s: Seq<char>) -> Result<CommandV, CommandErrorV> {
    let t = trim_start(s);
    if t.len() > 0 && t[0] == '.' {
        if t == kw_exit() {
            Ok(CommandV::Meta(MetaCommand::Exit))
        } else {
            Ok(CommandV::Unknown(t))
        }
    } else {
        match crate::commands::sql::spec_sql(t) {
            Ok(Some(c)) => Ok(CommandV::Sql(c)),
            Ok(None) => Ok(CommandV::Unknown(t)),
            Err(e) => Err(e),
        }
    }
}

/// Parses one line of text into a typed command, or the precise grammar
/// error the line commits.
pub fn parse(input: &str) -> (r: Result<Command, CommandError>)
    ensures
        match (r, spec_parse(input@)) {
            (Ok(c), Ok(cv)) => c@ == cv,
            (Err(e), Err(ev)) => e@ == ev,
            _ => false,
        },
{
    let n = input.unicode_len();
    let mut a: usize = 0;
    while a < n && char_is_space(input.get_char(a))
        invariant
            a <= n,
            n == input@.len(),
            forall|j: int| 0 <= j < a ==> is_space(#[trigger] input@[j]),
        decreases n - a,
    {
        a = a + 1;
    }
    let t = input.substring_char(a, n);
    proof {
        lemma_trim_start_skip(input@, a as int);
        assert(input@.subrange(a as int, n as int) =~= input@.skip(a as int));
    }
    if n - a > 0 && t.get_char(0) == '.' {
        match MetaCommand::try_from_str(t) {
            Ok(Some(m)) => Ok(Command::Meta(m)),
            Ok(None) => Ok(Command::Unknown { command: t.to_owned() }),
            Err(e) => Err(e),
        }
    } else {
        match SqlCommand::try_from_str(t) {
            Ok(Some(c)) => Ok(Command::Sql(c)),
            Ok(None) => Ok(Command::Unknown { command: t.to_owned() }),
            Err(e) => Err(e),
        }
    }
}

} // verus!
