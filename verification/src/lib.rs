//! A minimal record store driven by a line-oriented command grammar.
//!
//! Records (`User`, `Car`) are serialized through a binary row codec into
//! append-only byte arenas (`Table`), routed by a registry (`Database`),
//! and driven by a small command language (`commands`).

pub mod commands;
pub mod data;

pub mod database;
pub mod errors;
pub mod table;
