//! The records that the corpus and its callers exchange.

pub mod database;
