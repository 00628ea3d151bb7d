//! Planning, hashing and bookkeeping for large archive transfers to a
//! cold-storage service.
//!
//! The crate decides; a driver performs. Every function here works on plain
//! values: byte slices, strings, integers and the crate's own records. The
//! driver reads files, talks to the service and sleeps, and hands each
//! outcome back to the state machines defined here.
//!
//! An upload runs through `chunk` (the part size), `split` (the parts and
//! the digests of their windows), `tree` (the tree hash), `parts` (the order
//! and the byte ranges of the part files) and `upload` (the exchange with
//! the service). A job runs through `ledger` (the record of unresolved
//! jobs), `reconcile` (one pass over the ledger) and `poll` (the wait for
//! one job), which share the vocabulary of `jobs`. `picker` holds the
//! dialogs in which the operator chooses archives.
pub mod chunk;
pub mod digest;
pub mod error;
pub mod jobs;
pub mod ledger;
pub mod parts;
pub mod paths;
pub mod picker;
pub mod poll;
pub mod reconcile;
pub mod seqs;
pub mod split;
pub mod text;
pub mod tree;
pub mod upload;
