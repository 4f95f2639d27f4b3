//! Command parser tests: the meta namespace, the outer dispatch, and
//! each SQL command's argument handling.

use minidb::commands::meta::MetaCommand;
use minidb::commands::sql::SqlCommand;
use minidb::commands::{parse, Command};
use minidb::data::{Car, Record, TableName, User};
use minidb::errors::CommandError;

#[test]
fn test_parse_meta_command() {
    assert_eq!(
        MetaCommand::try_from_str(".exit"),
        Ok(Some(MetaCommand::Exit))
    );
    assert_eq!(MetaCommand::try_from_str("unknown command"), Ok(None));
}

#[test]
fn test_parse() {
    assert_eq!(parse(".exit"), Ok(Command::Meta(MetaCommand::Exit)));
    assert_eq!(
        parse("insert user 1 name email@domain.tld"),
        Ok(Command::Sql(SqlCommand::Insert {
            data: Record::User(User::new(
                1,
                "name".to_string(),
                "email@domain.tld".to_string()
            ))
        }))
    );
    assert_eq!(
        parse("select car"),
        Ok(Command::Sql(SqlCommand::Select {
            table: TableName::Car
        }))
    );
    assert_eq!(
        parse("create car"),
        Ok(Command::Sql(SqlCommand::Create {
            table: TableName::Car
        }))
    );
    assert_eq!(
        parse("unknown command"),
        Ok(Command::Unknown {
            command: "unknown command".to_string()
        })
    );
}

#[test]
fn test_parse_command_insert() {
    // a correct insert command
    assert_eq!(
        SqlCommand::try_from_str("insert User 1 name email@domain.tld"),
        Ok(Some(SqlCommand::Insert {
            data: Record::User(User::new(
                1,
                "name".to_string(),
                "email@domain.tld".to_string()
            ))
        }))
    );
    // robust against repeated whitespace
    assert_eq!(
        SqlCommand::try_from_str("    insert   User  1     name     email@domain.tld     "),
        Ok(Some(SqlCommand::Insert {
            data: Record::User(User::new(
                1,
                "name".to_string(),
                "email@domain.tld".to_string()
            ))
        }))
    );
    // not enough arguments
    assert_eq!(
        SqlCommand::try_from_str("insert"),
        Err(CommandError::NotEnoughArguments)
    );
    assert_eq!(
        SqlCommand::try_from_str("insert user"),
        Err(CommandError::NotEnoughArguments)
    );
    assert_eq!(
        SqlCommand::try_from_str("insert user 1 name"),
        Err(CommandError::NotEnoughArguments)
    );
    // wrong argument type
    assert_eq!(
        SqlCommand::try_from_str("insert user one name email@domain.tld"),
        Err(CommandError::ExpectingInteger)
    );
    // unknown command
    assert_eq!(SqlCommand::try_from_str("unknown command"), Ok(None));
}

#[test]
fn test_parse_command_select() {
    // a correct select command
    assert_eq!(
        SqlCommand::try_from_str("select Car"),
        Ok(Some(SqlCommand::Select {
            table: TableName::Car
        }))
    );
    assert_eq!(
        SqlCommand::try_from_str("    select  User   "),
        Ok(Some(SqlCommand::Select {
            table: TableName::User
        }))
    );
    // unknown table
    assert_eq!(
        SqlCommand::try_from_str("select unknown"),
        Err(CommandError::UnknownTable("unknown".to_string()))
    );
    // too many arguments
    assert_eq!(
        SqlCommand::try_from_str("select user value"),
        Err(CommandError::TooManyArguments)
    );
    // not enough arguments
    assert_eq!(
        SqlCommand::try_from_str("select"),
        Err(CommandError::NotEnoughArguments)
    );
    // unknown command
    assert_eq!(SqlCommand::try_from_str("unknown command"), Ok(None));
}

#[test]
fn test_parse_command_create() {
    // a correct create command
    assert_eq!(
        SqlCommand::try_from_str("create Car"),
        Ok(Some(SqlCommand::Create {
            table: TableName::Car
        }))
    );
    assert_eq!(
        SqlCommand::try_from_str("    create  User   "),
        Ok(Some(SqlCommand::Create {
            table: TableName::User
        }))
    );
    // unknown table
    assert_eq!(
        SqlCommand::try_from_str("create unknown"),
        Err(CommandError::UnknownTable("unknown".to_string()))
    );
    // too many arguments
    assert_eq!(
        SqlCommand::try_from_str("create user value"),
        Err(CommandError::TooManyArguments)
    );
    // not enough arguments
    assert_eq!(
        SqlCommand::try_from_str("create"),
        Err(CommandError::NotEnoughArguments)
    );
    // unknown command
    assert_eq!(SqlCommand::try_from_str("unknown command"), Ok(None));
}

#[test]
fn test_parse_integer_bounds() {
    // the extreme 64-bit values parse; one past them does not
    assert_eq!(
        SqlCommand::try_from_str("insert user 9223372036854775807 a b"),
        Ok(Some(SqlCommand::Insert {
            data: Record::User(User::new(
                9223372036854775807,
                "a".to_string(),
                "b".to_string()
            ))
        }))
    );
    assert_eq!(
        SqlCommand::try_from_str("insert user -9223372036854775808 a b"),
        Ok(Some(SqlCommand::Insert {
            data: Record::User(User::new(i64::MIN, "a".to_string(), "b".to_string()))
        }))
    );
    assert_eq!(
        SqlCommand::try_from_str("insert user 9223372036854775808 a b"),
        Err(CommandError::ExpectingInteger)
    );
    assert_eq!(
        SqlCommand::try_from_str("insert user -9223372036854775809 a b"),
        Err(CommandError::ExpectingInteger)
    );
    assert_eq!(
        SqlCommand::try_from_str("insert user +7 a b"),
        Ok(Some(SqlCommand::Insert {
            data: Record::User(User::new(7, "a".to_string(), "b".to_string()))
        }))
    );
}

#[test]
fn test_insert_surplus_arguments() {
    // once the required fields are present, surplus tokens are an error
    assert_eq!(
        parse("insert user 1 name email@domain.tld extra"),
        Err(CommandError::TooManyArguments)
    );
    assert_eq!(
        SqlCommand::try_from_str("insert User 1 name email@domain.tld extra extra2"),
        Err(CommandError::TooManyArguments)
    );
    assert_eq!(
        SqlCommand::try_from_str("insert car ab-123-cd peugeot extra"),
        Err(CommandError::TooManyArguments)
    );
    // a missing field is still reported as such, never as surplus
    assert_eq!(
        SqlCommand::try_from_str("insert user 1 name"),
        Err(CommandError::NotEnoughArguments)
    );
}

#[test]
fn test_command_word_splits_on_whitespace() {
    // the command word is whitespace-delimited, not space-delimited
    assert_eq!(
        SqlCommand::try_from_str("insert\tUser 1 name email@domain.tld"),
        Ok(Some(SqlCommand::Insert {
            data: Record::User(User::new(
                1,
                "name".to_string(),
                "email@domain.tld".to_string()
            ))
        }))
    );
    assert_eq!(
        SqlCommand::try_from_str("select\tcar"),
        Ok(Some(SqlCommand::Select {
            table: TableName::Car
        }))
    );
}

#[test]
fn test_parse_insert_car() {
    assert_eq!(
        SqlCommand::try_from_str("insert car ab-123-cd peugeot"),
        Ok(Some(SqlCommand::Insert {
            data: Record::Car(Car::new("ab-123-cd".to_string(), "peugeot".to_string()))
        }))
    );
    assert_eq!(
        SqlCommand::try_from_str("insert car ab-123-cd"),
        Err(CommandError::NotEnoughArguments)
    );
}
