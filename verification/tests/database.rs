//! Database registry tests: creation, routed inserts, full-scan selects,
//! and isolation between tables.

use minidb::data::{Car, Record, TableName, User};
use minidb::database::Database;
use minidb::errors::{CreationError, InsertionError, SelectError};

#[test]
fn test_database() {
    let mut database = Database::new();
    database
        .create_table(TableName::User)
        .expect("Creation failed");
    for i in 0..50 {
        let user = User::new(i, format!("test_{i}"), format!("email_{i}@example.com"));
        database
            .insert(Record::User(user))
            .expect("insert user failed");
    }
    let rows = database.select(TableName::User).expect("select failed");
    assert_eq!(rows.len(), 50);
    for (i, row) in rows.iter().enumerate() {
        let expected = &Record::User(User::new(
            i as i64,
            format!("test_{i}"),
            format!("email_{i}@example.com"),
        ));
        assert_eq!(row, expected);
    }
}

#[test]
fn recreate_table() {
    let mut database = Database::new();
    assert_eq!(database.create_table(TableName::User), Ok(()));
    assert_eq!(
        database.create_table(TableName::User),
        Err(CreationError::TableAlreadyExist(TableName::User))
    );
}

#[test]
fn duplicate_creation_keeps_contents() {
    let mut database = Database::new();
    database
        .create_table(TableName::User)
        .expect("Creation failed");
    let user = User::new(1, "alice".to_string(), "a@example.com".to_string());
    database
        .insert(Record::User(user))
        .expect("insert user failed");
    assert_eq!(
        database.create_table(TableName::User),
        Err(CreationError::TableAlreadyExist(TableName::User))
    );
    let rows = database.select(TableName::User).expect("select failed");
    assert_eq!(
        rows,
        vec![Record::User(User::new(
            1,
            "alice".to_string(),
            "a@example.com".to_string()
        ))]
    );
}

#[test]
fn missing_table_operations() {
    let mut database = Database::new();
    let user = User::new(1, "alice".to_string(), "a@example.com".to_string());
    assert_eq!(
        database.insert(Record::User(user)),
        Err(InsertionError::TableNotExist(TableName::User))
    );
    assert_eq!(
        database.select(TableName::Car),
        Err(SelectError::TableNotExist(TableName::Car))
    );
    // the failed operations registered nothing
    assert_eq!(
        database.select(TableName::User),
        Err(SelectError::TableNotExist(TableName::User))
    );
}

#[test]
fn table_isolation() {
    let mut database = Database::new();
    database
        .create_table(TableName::User)
        .expect("Creation failed");
    database
        .create_table(TableName::Car)
        .expect("Creation failed");
    database
        .insert(Record::Car(Car::new(
            "ab-123-cd".to_string(),
            "peugeot".to_string(),
        )))
        .expect("insert car failed");
    // inserting into User touches neither Car's count nor its contents
    database
        .insert(Record::User(User::new(
            1,
            "alice".to_string(),
            "a@example.com".to_string(),
        )))
        .expect("insert user failed");
    let cars = database.select(TableName::Car).expect("select failed");
    assert_eq!(
        cars,
        vec![Record::Car(Car::new(
            "ab-123-cd".to_string(),
            "peugeot".to_string()
        ))]
    );
    let users = database.select(TableName::User).expect("select failed");
    assert_eq!(users.len(), 1);
}
