//! Data model: the record shapes, their binary codec, and the table names.

pub mod car;
pub mod codec;
pub mod primitives;
pub mod records;
pub mod user;

pub use car::Car;
pub use codec::Deserializable;
pub use codec::Serializable;
pub use records::Record;
pub use records::TableName;
pub use user::User;
