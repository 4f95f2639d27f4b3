//! End-to-end scenarios through parse-then-execute, the text length
//! boundary, and one input for each codec error.

use minidb::commands::{parse, Output};
use minidb::data::{Deserializable, Record, Serializable, TableName, User};
use minidb::database::Database;
use minidb::errors::{BufferError, DeserializationError, SerializationError};

fn run(database: &mut Database, line: &str) -> Result<Output, minidb::errors::ExecutionError> {
    parse(line).expect("parse failed").execute(database)
}

#[test]
fn scenario_create_insert_select() {
    let mut database = Database::new();
    assert_eq!(run(&mut database, "create User"), Ok(Output::Created));
    assert_eq!(
        run(&mut database, "insert User 1 alice a@example.com"),
        Ok(Output::Inserted)
    );
    let rows = match run(&mut database, "select User") {
        Ok(Output::Rows(rows)) => rows,
        other => panic!("unexpected outcome: {:?}", other),
    };
    assert_eq!(
        rows,
        vec![Record::User(User::new(
            1,
            "alice".to_string(),
            "a@example.com".to_string()
        ))]
    );
}

#[test]
fn scenario_insert_car_no_args() {
    assert_eq!(
        parse("insert Car"),
        Err(minidb::errors::CommandError::NotEnoughArguments)
    );
}

#[test]
fn scenario_select_truck() {
    assert_eq!(
        parse("select Truck"),
        Err(minidb::errors::CommandError::UnknownTable("Truck".to_string()))
    );
}

#[test]
fn scenario_insert_user_missing_email() {
    assert_eq!(
        parse("insert user 1 bob"),
        Err(minidb::errors::CommandError::NotEnoughArguments)
    );
}

#[test]
fn scenario_unknown_command_is_no_error() {
    let mut database = Database::new();
    assert_eq!(run(&mut database, "create User"), Ok(Output::Created));
    assert_eq!(
        run(&mut database, "insert User 1 alice a@example.com"),
        Ok(Output::Inserted)
    );
    // an unrecognized line owes a notice, no error and no state change
    assert_eq!(run(&mut database, "flibbertigibbet"), Ok(Output::Notice));
    let rows = match run(&mut database, "select User") {
        Ok(Output::Rows(rows)) => rows,
        other => panic!("unexpected outcome: {:?}", other),
    };
    assert_eq!(rows.len(), 1);
}

#[test]
fn scenario_exit() {
    let mut database = Database::new();
    assert_eq!(run(&mut database, ".exit"), Ok(Output::Exit));
    // trailing text keeps a meta line from matching; it becomes unknown
    assert_eq!(run(&mut database, ".exit now"), Ok(Output::Notice));
}

#[test]
fn text_length_boundary() {
    // 255 bytes round-trip
    let text = "x".repeat(255);
    let mut buf = vec![0u8; 1024];
    let mut wpos: usize = 0;
    text.serialize(&mut buf, &mut wpos).expect("255 bytes must fit");
    let mut rpos: usize = 0;
    assert_eq!(String::deserialize(&buf, &mut rpos).unwrap(), text);
    // 256 bytes are rejected, not truncated
    let long = "x".repeat(256);
    let mut wpos2: usize = 0;
    assert_eq!(
        long.serialize(&mut buf, &mut wpos2),
        Err(SerializationError::TextTooLong)
    );
    assert_eq!(wpos2, 0);
}

#[test]
fn codec_error_variants() {
    // destination too small for an integer
    let mut tiny = vec![0u8; 4];
    let mut wpos: usize = 0;
    assert_eq!(
        7_i64.serialize(&mut tiny, &mut wpos),
        Err(SerializationError::Buffer(BufferError::BufferFull))
    );
    // source too short for an integer
    let short = vec![1u8, 2u8];
    let mut rpos: usize = 0;
    assert_eq!(
        i64::deserialize(&short, &mut rpos),
        Err(DeserializationError::Buffer(BufferError::ReadTooMuch))
    );
    // length prefix pointing past the end of the source
    let truncated = vec![5u8, b'a', b'b'];
    let mut rpos2: usize = 0;
    assert_eq!(
        String::deserialize(&truncated, &mut rpos2),
        Err(DeserializationError::Buffer(BufferError::ReadTooMuch))
    );
    // length-prefixed bytes that are not valid UTF-8
    let invalid = vec![2u8, 0xC3u8, 0x28u8];
    let mut rpos3: usize = 0;
    assert_eq!(
        String::deserialize(&invalid, &mut rpos3),
        Err(DeserializationError::UnableToDeserializeString)
    );
}

#[test]
fn decode_reads_raw_bytes() {
    // a buffer written by hand decodes to the text its bytes spell,
    // multi-byte characters included
    let raw = vec![5u8, b'h', 0xC3u8, 0xAAu8, b't', b'e'];
    let mut rpos: usize = 0;
    assert_eq!(String::deserialize(&raw, &mut rpos).unwrap(), "hête");
    assert_eq!(rpos, 6);
}

#[test]
fn insertion_order_preserved() {
    let mut database = Database::new();
    database.create_table(TableName::Car).expect("create failed");
    let brands = ["peugeot", "citroen", "renault", "alpine"];
    for (i, brand) in brands.iter().enumerate() {
        database
            .insert(Record::Car(minidb::data::Car::new(
                format!("id-{i}"),
                brand.to_string(),
            )))
            .expect("insert car failed");
    }
    let rows = database.select(TableName::Car).expect("select failed");
    assert_eq!(rows.len(), brands.len());
    for (i, brand) in brands.iter().enumerate() {
        assert_eq!(
            rows[i],
            Record::Car(minidb::data::Car::new(format!("id-{i}"), brand.to_string()))
        );
    }
}
