//! Row codec tests: primitive fields, whole records, and byte-level
//! layout checks.

use minidb::data::{Deserializable, Serializable, User};

#[test]
fn test_serialization_i64() {
    let mut buf = vec![0u8; 1024];
    let mut wpos: usize = 0;
    42_i64
        .serialize(&mut buf, &mut wpos)
        .expect("serialization error");
    let mut rpos: usize = 0;
    assert_eq!(
        i64::deserialize(&buf, &mut rpos).expect("deserialization error"),
        42_i64
    );
}

#[test]
fn test_serialization_string() {
    let mut buf = vec![0u8; 1024];
    let mut wpos: usize = 0;
    "toto"
        .to_string()
        .serialize(&mut buf, &mut wpos)
        .expect("serialization error");
    let mut rpos: usize = 0;
    assert_eq!(
        String::deserialize(&buf, &mut rpos).expect("deserialization error"),
        "toto".to_string()
    );
}

#[test]
fn test_serialization_multiple() {
    let mut buf = vec![0u8; 1024];
    let mut wpos: usize = 0;
    42_i64
        .serialize(&mut buf, &mut wpos)
        .expect("serialization error");
    "toto"
        .to_string()
        .serialize(&mut buf, &mut wpos)
        .expect("serialization error");
    let mut rpos: usize = 0;
    assert_eq!(
        i64::deserialize(&buf, &mut rpos).expect("deserialization error"),
        42_i64
    );
    assert_eq!(
        String::deserialize(&buf, &mut rpos).expect("deserialization error"),
        "toto".to_string()
    );
}

#[test]
fn test_serde_user() {
    let mut buffer = vec![0u8; 1024];
    let user = User::new(42, "user".to_string(), "email".to_string());
    let mut wpos: usize = 0;
    user.serialize(&mut buffer, &mut wpos)
        .expect("Unable to serialize user");
    let mut rpos: usize = 0;
    let result = User::deserialize(&buffer, &mut rpos).expect("Unable to deserialize user");
    assert_eq!(user, result);
}

#[test]
fn test_serde_users() {
    let mut buffer = vec![0u8; 1024];
    let user = User::new(42, "user".to_string(), "email".to_string());
    let devil = User::new(666, "Lucifer".to_string(), "MorningStar".to_string());
    let mut wpos: usize = 0;
    user.serialize(&mut buffer, &mut wpos)
        .expect("Unable to serialize user");
    devil
        .serialize(&mut buffer, &mut wpos)
        .expect("Unable to serialize user");
    let mut rpos: usize = 0;
    let result = User::deserialize(&buffer, &mut rpos).expect("Unable to deserialize user");
    assert_eq!(user, result);
    let result = User::deserialize(&buffer, &mut rpos).expect("Unable to deserialize user");
    assert_eq!(devil, result);
}

#[test]
fn test_scan_db() {
    let mut buffer = vec![0u8; 1024 * 1024];
    let mut wpos: usize = 0;
    for i in 0..50 {
        let user = User::new(i, format!("test_{i}"), format!("email_{i}@example.com"));
        user.serialize(&mut buffer, &mut wpos)
            .expect("Unable to serialize user");
    }
    let mut rpos: usize = 0;
    for i in 0..50 {
        let user = User::new(i, format!("test_{i}"), format!("email_{i}@example.com"));
        let result = User::deserialize(&buffer, &mut rpos).expect("Unable to deserialize user");
        assert_eq!(user, result);
    }
}

#[test]
fn test_insert_select() {
    let mut buffer = vec![0u8; 1024 * 1024];
    // write offset, advanced by each insert by as much as it wrote
    let mut offset: usize = 0;
    // number of records appended
    let mut nb_inserts = 0;
    for i in 0..50 {
        let mut wpos = offset;
        let user = User::new(i, format!("test_{i}"), format!("email_{i}@example.com"));
        user.serialize(&mut buffer, &mut wpos)
            .expect("Unable to serialize user");
        offset = wpos;
        nb_inserts += 1;
    }
    // a single read cursor replays the whole scan
    let mut rpos: usize = 0;
    for i in 0..nb_inserts {
        let user = User::new(i, format!("test_{i}"), format!("email_{i}@example.com"));
        let result = User::deserialize(&buffer, &mut rpos).expect("Unable to deserialize user");
        assert_eq!(user, result);
    }
}

#[test]
fn test_endianess() {
    // Big endian
    let data = [0x00, 0x00, 0x00, 0x00, 0x00, 0x00, 0x00, 0x2A];
    assert_eq!(i64::from_le_bytes(data), 3026418949592973312);
    assert_eq!(i64::from_be_bytes(data), 42);
    // Little endian
    let data = [0x2A, 0x00, 0x00, 0x00, 0x00, 0x00, 0x00, 0x00];
    assert_eq!(i64::from_le_bytes(data), 42);
    assert_eq!(i64::from_be_bytes(data), 3026418949592973312);
}

#[test]
fn test_endianess2() {
    let data = 42_i64.to_le_bytes();
    assert_eq!(i64::from_le_bytes(data), 42);
    assert_eq!(i64::from_be_bytes(data), 3026418949592973312);

    let data = 42_i64.to_be_bytes();
    assert_eq!(i64::from_be_bytes(data), 42);
    assert_eq!(i64::from_le_bytes(data), 3026418949592973312);
}

#[test]
fn test_unicode() {
    assert_eq!("tête".len(), 5);
    assert_eq!("tete".len(), 4);
    println!("{:X?}", "tête".as_bytes());
    println!("{:X?}", "tete".as_bytes());
    println!("{}", String::from_utf8("tête".as_bytes().to_vec()).unwrap());
    println!("{}", String::from_utf8("tete".as_bytes().to_vec()).unwrap());
}

#[test]
fn test_copy_from_slice2() {
    let mut buffer = [0u8; 1024];
    let data = "tête".to_string();
    // the first byte holds the length
    buffer[0] = data.len() as u8;
    // the bytes follow it
    buffer[1..1 + data.len()].copy_from_slice(data.as_bytes());
    // reading takes the length from the first byte
    let size = buffer[0] as usize;
    assert_eq!(
        data,
        String::from_utf8(buffer[1..1 + size].to_vec()).unwrap()
    );
}
