//! An interactive picker over tabular data, without the window.
//!
//! A table is read from delimited or structured text ([`data::parse`]), a
//! selection state is moved over it by discrete intents ([`app`]), and the
//! selected row, column or cell is written in one of several encodings
//! ([`data::output`]).
//!
//! Every function states what it returns over the mathematical values of its
//! arguments.  Verus proves each statement from the code and from the
//! contracts of the few functions that call into `csv`, `serde_json` and the
//! parts of `std` that have no specification; those are marked as trusted
//! where they stand.

pub mod app;
pub mod data;
