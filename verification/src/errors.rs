//! The error taxonomy, one enum per layer: command parsing, the byte
//! codec, and the table/database operations that wrap codec failures.

use vstd::prelude::*;

use crate::data::records::TableName;

verus! {

/// Failure of a whole command execution, wrapping the layer that failed.
#[derive(Debug, PartialEq, Eq)]
pub enum ExecutionError {
    Insertion(InsertionError),
    Select(SelectError),
    Create(CreationError),
}

/// Failure while parsing one line of text into a command.
#[derive(Debug, PartialEq, Eq)]
pub enum CommandError {
    NotEnoughArguments,
    TooManyArguments,
    ExpectingInteger,
    /// The table name token matches no known table; carries the token.
    UnknownTable(String),
}

/// Mathematical image of a [`CommandError`], with text as a character sequence.
pub ghost enum CommandErrorV {
    NotEnoughArguments,
    TooManyArguments,
    ExpectingInteger,
    UnknownTable(Seq<char>),
}

impl View for CommandError {
    type V = CommandErrorV;

    open spec fn view(&self) -> CommandErrorV {
        match self {
            CommandError::NotEnoughArguments => CommandErrorV::NotEnoughArguments,
            CommandError::TooManyArguments => CommandErrorV::TooManyArguments,
            CommandError::ExpectingInteger => CommandErrorV::ExpectingInteger,
            CommandError::UnknownTable(s) => CommandErrorV::UnknownTable(s@),
        }
    }
}

/// Failure of a raw buffer access.
#[derive(Debug, PartialEq, Eq)]
pub enum BufferError {
    /// The destination region has no room for the bytes to be written.
    BufferFull,
    /// The source region has fewer bytes remaining than required.
    ReadTooMuch,
}

/// Failure while reading a value back from its byte encoding.
#[derive(Debug, PartialEq, Eq)]
pub enum DeserializationError {
    /// Length-prefixed text bytes are not valid UTF-8.
    UnableToDeserializeString,
    UnableToDeserializeInteger,
    Buffer(BufferError),
}

/// Failure while writing a value's byte encoding.
#[derive(Debug, PartialEq, Eq)]
pub enum SerializationError {
    /// Text longer than 255 bytes after UTF-8 encoding cannot be
    /// represented by the one-byte length prefix and is rejected.
    TextTooLong,
    Buffer(BufferError),
}

/// Failure of an insert against a table or the database.
#[derive(Debug, PartialEq, Eq)]
pub enum InsertionError {
    Serialization(SerializationError),
    TableNotExist(TableName),
}

/// Failure of a select against a table or the database.
#[derive(Debug, PartialEq, Eq)]
pub enum SelectError {
    Deserialization(DeserializationError),
    TableNotExist(TableName),
}

/// Failure of a create-table request.
#[derive(Debug, PartialEq, Eq)]
pub enum CreationError {
    TableAlreadyExist(TableName),
}

} // verus!
