//! A minimal whole-document JSON data store.
//!
//! The document lives in memory as a tree of [`value::Json`]. A path of string
//! segments addresses one node of it ([`database::Database::get_object`]): a
//! key in a mapping, the logical `id` of an element in a sequence. The store
//! reads the whole document from the text of its backing file and gives the
//! text of the whole document back to be written.

pub mod configuration;
pub mod database;
pub mod decimal;
pub mod errors;
pub mod flush;
pub mod json;
pub mod number;
pub mod path;
pub mod value;
