//! Fingerprinting and incremental ingestion for a repost detector.
//!
//! The crate fingerprints images with a 64-bit difference hash, matches a
//! fresh fingerprint against a corpus of known artwork, and takes the
//! decisions of the resumable, checkpointed scrape that fills that corpus.
//! Network, database and chat transport live with the caller, who hands in
//! plain values and gets plain values back.
//!
//! - [`hashing`]: the fingerprint of a bitmap and the distance between two
//!   fingerprints.
//! - [`matcher`]: the match of a fingerprint against the corpus.
//! - [`checkpoint`] and [`corpus`]: the persisted state, held in memory.
//! - [`scraper`]: one scrape of one platform, step by step.
//! - [`schedule`]: the guard against overlapping passes.
//! - [`listing`]: the paged list of artists.
//! - [`booru`], [`cli`] and [`models`]: the values that are exchanged.
//!
//! Grey conversion, resampling and decoding are done by the `image` crate,
//! and the scans over a page and over the corpus by `rayon`. What the crate
//! takes on trust about them is stated where they are called.

pub mod booru;
pub mod checkpoint;
pub mod cli;
pub mod corpus;
pub mod hashing;
pub mod listing;
pub mod matcher;
pub mod models;
pub mod schedule;
pub mod scraper;
