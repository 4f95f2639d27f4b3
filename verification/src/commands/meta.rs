//! The meta-command namespace: lines beginning with `.`.

use vstd::prelude::*;

use crate::commands::lex::str_chars_eq;
use crate::commands::{Execute, Output, OutputV};
use crate::data::records::{RecordV, TableName};
use crate::database::Database;
use crate::errors::{CommandError, ExecutionError};

verus! {

/// The one recognized meta-command.
#[derive(Debug, PartialEq, Eq, Clone, Copy)]
pub enum MetaCommand {
    /// Ends the session; not an error condition.
    Exit,
}

impl View for MetaCommand {
    type V = MetaCommand;

    open spec fn view(&self) -> MetaCommand {
        *self
    }
}

/// The text of the exit meta-command.
pub open spec fn kw_exit() -> Seq<char> {
    seq!['.', 'e', 'x', 'i', 't']
}

/// The meta-command a line denotes: exactly `.exit`; any other meta text
/// denotes none (which is not an error, the line falls through to the
/// outer dispatch).
pub open spec fn spec_meta(s: Seq<char>) -> Option<MetaCommand> {
    if s == kw_exit() {
        Some(MetaCommand::Exit)
    } else {
        None
    }
}

impl MetaCommand {
    /// Recognizes a meta-command line.
    pub fn try_from_str(command: &str) -> (r: Result<Option<MetaCommand>, CommandError>)
        ensures
            r == Ok::<Option<MetaCommand>, CommandError>(spec_meta(command@)),
    {
        let hit = str_chars_eq(command, ".exit");
        proof {
            reveal_strlit(".exit");
            assert(".exit"@ =~= kw_exit());
        }
        if hit {
            Ok(Some(MetaCommand::Exit))
        } else {
            Ok(None)
        }
    }
}

impl Execute for MetaCommand {
    open spec fn tables_after(v: MetaCommand, t: Map<TableName, Seq<RecordV>>) -> Map<
        TableName,
        Seq<RecordV>,
    > {
        t
    }

    open spec fn outcome(v: MetaCommand, t: Map<TableName, Seq<RecordV>>) -> Result<
        OutputV,
        ExecutionError,
    > {
        Ok(OutputV::Exit)
    }
}

impl MetaCommand {
    /// Touches no table; the caller sees `Exit` and ends the session.
    pub fn execute(self, database: &mut Database) -> (r: Result<Output, ExecutionError>)
        requires
            old(database).inv(),
        ensures
            final(database).inv(),
            final(database).tables() == old(database).tables(),
            r == Ok::<Output, ExecutionError>(Output::Exit),
    {
        Ok(Output::Exit)
    }
}

} // verus!
